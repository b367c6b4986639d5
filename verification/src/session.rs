//! Sessions: a byte sink coupled with the non-blocking reader.
//!
//! A [`StreamSession`] writes keystrokes to a sink and waits for patterns on
//! the reader; a [`ReplSession`] adds prompt synchronization and an optional
//! quit command sent before teardown.  The sink is any implementor of
//! [`ByteSink`]: [`FdSink`] writes to a pseudo-terminal's descriptor, and
//! [`VecSink`] records the bytes for tests.

use vstd::prelude::*;
use vstd::string::StringExecFns;
use vstd::string::StringSliceAdditionalSpecFns;
use std::sync::mpsc::Receiver;
use crate::Error;
use crate::reader::EOF;
use crate::reader::NBReader;
use crate::reader::Needle;
use crate::reader::PipeEvent;
use crate::reader::Regx;
use crate::reader::Str;
use crate::reader::regex_valid;
use crate::reader::regx_spec_find;
use crate::reader::str_spec_find;
use crate::text::chars_of;
use crate::text::is_latin1;
use crate::text::latin1_of;
use crate::text::sanitized;
use crate::text::str_chars;
use crate::text::chars_to_string;

verus! {

/// Why a sink refused bytes.
#[derive(Debug)]
pub enum SinkError {
    /// The pipe is gone, typically because the child died.
    Broken,
    /// Any other write failure, rendered.
    Failed { context: String },
}

/// A sink of bytes: the write side of a session.
///
/// `written()` is the sink's model: every byte it has accepted, in order.  A
/// write either accepts all of its bytes or reports that it accepted none;
/// flushing accepts nothing.  [`FdSink`] writes to a file descriptor;
/// [`VecSink`] keeps the bytes in memory.
pub trait ByteSink {
    spec fn written(&self) -> Seq<u8>;

    fn write_bytes(&mut self, data: &[u8]) -> (r: Result<usize, SinkError>)
        ensures
            match r {
                Ok(n) => n == data@.len() && final(self).written() == old(self).written() + data@,
                Err(_) => final(self).written() == old(self).written(),
            },
    ;

    fn flush_bytes(&mut self) -> (r: Result<(), SinkError>)
        ensures
            final(self).written() == old(self).written(),
    ;
}

/// An in-memory sink that keeps every byte handed to it.
pub struct VecSink {
    pub data: Vec<u8>,
}

impl VecSink {
    pub fn new() -> (s: VecSink)
        ensures
            s.data@ == Seq::<u8>::empty(),
    {
        VecSink { data: Vec::new() }
    }
}

impl ByteSink for VecSink {
    open spec fn written(&self) -> Seq<u8> {
        self.data@
    }

    fn write_bytes(&mut self, data: &[u8]) -> (r: Result<usize, SinkError>) {
        let mut i: usize = 0;
        while i < data.len()
            invariant
                i <= data@.len(),
                self.data@ == old(self).data@ + data@.subrange(0, i as int),
            decreases data@.len() - i,
        {
            self.data.push(data[i]);
            proof {
                assert((old(self).data@ + data@.subrange(0, i as int)).push(data@[i as int])
                    =~= old(self).data@ + data@.subrange(0, i + 1));
            }
            i = i + 1;
        }
        proof {
            assert(data@.subrange(0, data@.len() as int) =~= data@);
        }
        Ok(data.len())
    }

    fn flush_bytes(&mut self) -> (r: Result<(), SinkError>) {
        Ok(())
    }
}

/// Relies on `nix::unistd::write`: writes some prefix of `data` to the file
/// descriptor and returns how many bytes went out; a broken pipe is told
/// apart from other failures.
#[verifier::external_body]
fn fd_write(fd: i32, data: &[u8]) -> (r: Result<usize, SinkError>)
    ensures
        match r {
            Ok(n) => n <= data@.len(),
            Err(_) => true,
        },
{
    match nix::unistd::write(fd, data) {
        Ok(n) => Ok(n),
        Err(nix::errno::Errno::EPIPE) => Err(SinkError::Broken),
        Err(e) => Err(SinkError::Failed { context: e.to_string() }),
    }
}

/// A sink over a raw file descriptor (the master side of a pseudo-terminal).
///
/// The descriptor is only borrowed by number: whoever created it keeps it
/// open for the sink's lifetime and closes it afterwards.  Writes go out
/// immediately, so flushing has nothing to do.  `written()` counts the byte
/// batches the sink accepted in full; after a refused write the sink is not
/// written to again.
pub struct FdSink {
    fd: i32,
    log: Ghost<Seq<u8>>,
}

impl FdSink {
    pub fn new(fd: i32) -> (s: FdSink)
        ensures
            s.written() == Seq::<u8>::empty(),
    {
        FdSink { fd, log: Ghost(Seq::empty()) }
    }
}

impl ByteSink for FdSink {
    closed spec fn written(&self) -> Seq<u8> {
        self.log@
    }

    fn write_bytes(&mut self, data: &[u8]) -> (r: Result<usize, SinkError>) {
        let mut off: usize = 0;
        while off < data.len()
            invariant
                off <= data@.len(),
                self.fd == old(self).fd,
                self.log == old(self).log,
            decreases data@.len() - off,
        {
            match fd_write(self.fd, vstd::slice::slice_subrange(data, off, data.len())) {
                Ok(n) => {
                    if n == 0 {
                        return Err(
                            SinkError::Failed {
                                context: String::from_str("write accepted nothing"),
                            },
                        );
                    }
                    off = off + n;
                },
                Err(e) => {
                    return Err(e);
                },
            }
        }
        proof {
            self.log@ = self.log@ + data@;
        }
        Ok(data.len())
    }

    fn flush_bytes(&mut self) -> (r: Result<(), SinkError>) {
        Ok(())
    }
}

/// Turn a sink's refusal into the session's error.
pub fn sink_error(e: SinkError) -> (r: Error)
    ensures
        match e {
            SinkError::Broken => r is BrokenPipe,
            SinkError::Failed { context } => (r matches Error::IOError { context: c } && c
                == context),
        },
{
    match e {
        SinkError::Broken => Error::BrokenPipe,
        SinkError::Failed { context } => Error::IOError { context },
    }
}

/// The control code a character stands for: the letters map to codes 1
/// through 26 (case does not matter), and `[ \ ] ^ _` map to 27 through 31.
/// Every other character has none.
pub open spec fn spec_control_code(c: char) -> Option<u8> {
    if ('a' as u32) <= (c as u32) && (c as u32) <= ('z' as u32) {
        Some((((c as u32) - ('a' as u32) + 1) as u8))
    } else if ('A' as u32) <= (c as u32) && (c as u32) <= ('Z' as u32) {
        Some((((c as u32) - ('A' as u32) + 1) as u8))
    } else if c == '[' {
        Some(27u8)
    } else if c == '\\' {
        Some(28u8)
    } else if c == ']' {
        Some(29u8)
    } else if c == '^' {
        Some(30u8)
    } else if c == '_' {
        Some(31u8)
    } else {
        None
    }
}

/// Compute the control code of a character.
pub fn control_code(c: char) -> (r: Option<u8>)
    ensures
        r == spec_control_code(c),
{
    let v = c as u32;
    if v >= ('a' as u32) && v <= ('z' as u32) {
        Some(((v - ('a' as u32) + 1) as u8))
    } else if v >= ('A' as u32) && v <= ('Z' as u32) {
        Some(((v - ('A' as u32) + 1) as u8))
    } else if c == '[' {
        Some(27u8)
    } else if c == '\\' {
        Some(28u8)
    } else if c == ']' {
        Some(29u8)
    } else if c == '^' {
        Some(30u8)
    } else if c == '_' {
        Some(31u8)
    } else {
        None
    }
}

/// LAW — control-code encoding.  The lower-case letters map exactly to codes
/// 1 through 26, in order and without collision; an upper-case letter is an
/// alias of its lower-case counterpart; the five bracket characters take 27
/// through 31; everything else is refused.
pub proof fn lemma_control_code_bijection(c: char, d: char)
    ensures
        ('a' as u32) <= (c as u32) && (c as u32) <= ('z' as u32) ==> spec_control_code(c) == Some(
            (((c as u32) - ('a' as u32) + 1) as u8),
        ),
        ('A' as u32) <= (c as u32) && (c as u32) <= ('Z' as u32) ==> spec_control_code(c)
            == spec_control_code((((c as u32) + 32) as u8) as char),
        ('a' as u32) <= (c as u32) && (c as u32) <= ('z' as u32) && ('a' as u32) <= (d as u32) && (
        d as u32) <= ('z' as u32) && spec_control_code(c) == spec_control_code(d) ==> c == d,
        spec_control_code(c) matches Some(code) ==> 1 <= code <= 31,
{
    if ('A' as u32) <= (c as u32) && (c as u32) <= ('Z' as u32) {
        let l = (((c as u32) + 32) as u8) as char;
        assert(l as u32 == (c as u32) + 32);
    }
    if ('a' as u32) <= (c as u32) && (c as u32) <= ('z' as u32) && ('a' as u32) <= (d as u32) && (
    d as u32) <= ('z' as u32) && spec_control_code(c) == spec_control_code(d) {
        assert((c as u32) == (d as u32));
        vstd::utf8::char_u32_cast(c, c as u32);
        vstd::utf8::char_u32_cast(d, d as u32);
    }
}

/// A buffered writer and a pattern-driven reader over one child's stream.
pub struct StreamSession<W: ByteSink> {
    pub writer: W,
    pub reader: NBReader,
}

impl<W: ByteSink> StreamSession<W> {
    /// Couple a reader over `rx` with `writer`.  `timeout_ms` bounds each
    /// expectation; `None` waits without bound.
    pub fn new(rx: Receiver<PipeEvent>, writer: W, timeout_ms: Option<u64>) -> (s: StreamSession<
        W,
    >)
        ensures
            s.writer == writer,
            s.reader.buf() == Seq::<u8>::empty(),
            !s.reader.at_eof(),
            s.reader.timeout() == timeout_ms,
    {
        StreamSession { writer, reader: NBReader::new(rx, timeout_ms) }
    }

    /// Send a string to the child.  The sink may buffer; call `flush` to be
    /// sure the child sees it.  Returns the number of bytes written.
    pub fn send(&mut self, s: &str) -> (r: Result<usize, Error>)
        ensures
            final(self).reader == old(self).reader,
            match r {
                Ok(n) => n == s.spec_bytes().len() && final(self).writer.written() == old(self).writer.written() + s.spec_bytes(),
                Err(e) => final(self).writer.written() == old(self).writer.written() && (e
                    is BrokenPipe || e matches Error::IOError { .. }),
            },
    {
        match self.writer.write_bytes(s.as_bytes()) {
            Ok(n) => Ok(n),
            Err(e) => Err(sink_error(e)),
        }
    }

    /// Send a string followed by a line feed.  Returns the number of bytes
    /// written.
    pub fn send_line(&mut self, line: &str) -> (r: Result<usize, Error>)
        ensures
            final(self).reader == old(self).reader,
            match r {
                Ok(n) => {
                    &&& final(self).writer.written() == old(self).writer.written()
                        + line.spec_bytes() + seq![10u8]
                    &&& n as int == if line.spec_bytes().len() + 1 <= usize::MAX {
                        (line.spec_bytes().len() + 1) as int
                    } else {
                        usize::MAX as int
                    }
                },
                Err(e) => {
                    &&& (final(self).writer.written() == old(self).writer.written() || final(self).writer.written() == old(self).writer.written() + line.spec_bytes())
                    &&& (e is BrokenPipe || e matches Error::IOError { .. })
                },
            },
    {
        let n = match self.send(line) {
            Ok(n) => n,
            Err(e) => {
                return Err(e);
            },
        };
        let nl: [u8; 1] = [10];
        match self.writer.write_bytes(nl.as_slice()) {
            Ok(_) => {
                proof {
                    assert(nl@ =~= seq![10u8]);
                }
                if n < usize::MAX {
                    Ok(n + 1)
                } else {
                    Ok(n)
                }
            },
            Err(e) => Err(sink_error(e)),
        }
    }

    /// Send the control code of `c` to the child and flush, so that e.g.
    /// `send_control('c')` delivers Ctrl-C at once.  Fails with
    /// `UnknownControlChar` exactly when `c` has no control code.
    pub fn send_control(&mut self, c: char) -> (r: Result<(), Error>)
        ensures
            final(self).reader == old(self).reader,
            match r {
                Ok(_) => spec_control_code(c) matches Some(code) && final(self).writer.written()
                    == old(self).writer.written() + seq![code],
                Err(e) => match e {
                    Error::UnknownControlChar(cc) => cc == c && spec_control_code(c) is None
                        && final(self).writer.written() == old(self).writer.written(),
                    Error::BrokenPipe | Error::IOError { .. } => spec_control_code(c) is Some && (
                    final(self).writer.written() == old(self).writer.written() || (
                    spec_control_code(c) matches Some(code) && final(self).writer.written() == old(self).writer.written() + seq![code])),
                    _ => false,
                },
            },
    {
        match control_code(c) {
            None => Err(Error::UnknownControlChar(c)),
            Some(code) => {
                let buf: [u8; 1] = [code];
                match self.writer.write_bytes(buf.as_slice()) {
                    Ok(_) => {
                        proof {
                            assert(buf@ =~= seq![code]);
                        }
                        match self.writer.flush_bytes() {
                            Ok(_) => Ok(()),
                            Err(e) => Err(sink_error(e)),
                        }
                    },
                    Err(e) => Err(sink_error(e)),
                }
            },
        }
    }

    /// Make sure everything handed to `send` has reached the child.
    pub fn flush(&mut self) -> (r: Result<(), Error>)
        ensures
            final(self).reader == old(self).reader,
            final(self).writer.written() == old(self).writer.written(),
            match r {
                Ok(_) => true,
                Err(e) => e is BrokenPipe || e matches Error::IOError { .. },
            },
    {
        match self.writer.flush_bytes() {
            Ok(_) => Ok(()),
            Err(e) => Err(sink_error(e)),
        }
    }

    /// Wait for any needle: the reader's `read_until` on this session's
    /// stream.
    pub fn exp<N: Needle>(&mut self, needle: &N) -> (r: Result<(String, String), Error>)
        ensures
            final(self).writer == old(self).writer,
            match r {
                Ok((before, matched)) => NBReader::read_ok(
                    needle,
                    old(self).reader,
                    final(self).reader,
                    before@,
                    matched@,
                ),
                Err(e) => NBReader::read_failed(
                    needle,
                    old(self).reader,
                    final(self).reader,
                    &e,
                ),
            },
    {
        self.reader.read_until(needle)
    }

    /// Wait until `s` appears, and return everything before it; the needle
    /// itself is consumed but not returned.
    pub fn exp_string(&mut self, s: &str) -> (r: Result<String, Error>)
        ensures
            final(self).writer == old(self).writer,
            final(self).reader.timeout() == old(self).reader.timeout(),
            old(self).reader.at_eof() ==> final(self).reader.at_eof(),
            match r {
                Ok(before) => {
                    &&& is_latin1(s@)
                    &&& is_latin1(before@)
                    &&& chars_of(latin1_of(before@)) == before@
                    &&& str_spec_find(
                        s@,
                        latin1_of(before@) + latin1_of(s@) + final(self).reader.buf(),
                        final(self).reader.at_eof(),
                    ) == Some((before@.len() as int, (before@.len() + s@.len()) as int))
                    &&& old(self).reader.buf().is_prefix_of(
                        latin1_of(before@) + latin1_of(s@) + final(self).reader.buf(),
                    )
                },
                Err(e) => {
                    &&& old(self).reader.buf().is_prefix_of(final(self).reader.buf())
                    &&& match e {
                        Error::EOF { expected, got, exit_code } => {
                            &&& final(self).reader.at_eof()
                            &&& str_spec_find(s@, final(self).reader.buf(), true) is None
                            &&& got@ == chars_of(final(self).reader.buf())
                            &&& exit_code is None
                        },
                        Error::Timeout { expected, got, timeout_ms } => {
                            &&& !final(self).reader.at_eof()
                            &&& str_spec_find(s@, final(self).reader.buf(), false) is None
                            &&& got@ == sanitized(chars_of(final(self).reader.buf()))
                            &&& match old(self).reader.timeout() {
                                Some(t) => timeout_ms == t,
                                None => timeout_ms == u64::MAX,
                            }
                        },
                        _ => false,
                    }
                },
            },
    {
        let needle = Str(String::from_str(s));
        match self.reader.read_until(&needle) {
            Ok((before, matched)) => {
                proof {
                    let full = latin1_of(before@) + latin1_of(matched@) + self.reader.buf();
                    crate::find::lemma_find_first(full, latin1_of(s@));
                    assert(full.subrange(
                        before@.len() as int,
                        (before@.len() + matched@.len()) as int,
                    ) =~= latin1_of(matched@));
                    assert(latin1_of(matched@) == latin1_of(s@));
                    assert(latin1_of(before@) + latin1_of(s@) + self.reader.buf() =~= full);
                }
                Ok(before)
            },
            Err(e) => Err(e),
        }
    }

    /// Wait until the character `c` appears, and return everything before it.
    pub fn exp_char(&mut self, c: char) -> (r: Result<String, Error>)
        ensures
            final(self).writer == old(self).writer,
            final(self).reader.timeout() == old(self).reader.timeout(),
            old(self).reader.at_eof() ==> final(self).reader.at_eof(),
            match r {
                Ok(before) => {
                    &&& is_latin1(seq![c])
                    &&& is_latin1(before@)
                    &&& chars_of(latin1_of(before@)) == before@
                    &&& str_spec_find(
                        seq![c],
                        latin1_of(before@) + latin1_of(seq![c]) + final(self).reader.buf(),
                        final(self).reader.at_eof(),
                    ) == Some((before@.len() as int, (before@.len() + 1) as int))
                    &&& old(self).reader.buf().is_prefix_of(
                        latin1_of(before@) + latin1_of(seq![c]) + final(self).reader.buf(),
                    )
                },
                Err(e) => {
                    &&& old(self).reader.buf().is_prefix_of(final(self).reader.buf())
                    &&& match e {
                        Error::EOF { expected, got, exit_code } => {
                            &&& final(self).reader.at_eof()
                            &&& str_spec_find(seq![c], final(self).reader.buf(), true) is None
                            &&& got@ == chars_of(final(self).reader.buf())
                            &&& exit_code is None
                        },
                        Error::Timeout { expected, got, timeout_ms } => {
                            &&& !final(self).reader.at_eof()
                            &&& str_spec_find(seq![c], final(self).reader.buf(), false) is None
                            &&& got@ == sanitized(chars_of(final(self).reader.buf()))
                            &&& match old(self).reader.timeout() {
                                Some(t) => timeout_ms == t,
                                None => timeout_ms == u64::MAX,
                            }
                        },
                        _ => false,
                    }
                },
            },
    {
        let mut s = String::new();
        s.push(c);
        proof {
            assert(s@ =~= seq![c]);
        }
        self.exp_string(s.as_str())
    }

    /// Wait until the end of the stream, and return everything that was
    /// still unread.  Afterwards the buffer is empty.
    pub fn exp_eof(&mut self) -> (r: Result<String, Error>)
        ensures
            final(self).writer == old(self).writer,
            final(self).reader.timeout() == old(self).reader.timeout(),
            old(self).reader.at_eof() ==> final(self).reader.at_eof(),
            match r {
                Ok(rest) => {
                    &&& final(self).reader.at_eof()
                    &&& final(self).reader.buf().len() == 0
                    &&& is_latin1(rest@)
                    &&& old(self).reader.buf().is_prefix_of(latin1_of(rest@))
                    &&& (old(self).reader.at_eof() ==> rest@ == chars_of(old(self).reader.buf()))
                },
                Err(e) => {
                    &&& old(self).reader.buf().is_prefix_of(final(self).reader.buf())
                    &&& match e {
                        Error::Timeout { expected, got, timeout_ms } => {
                            &&& !final(self).reader.at_eof()
                            &&& got@ == sanitized(chars_of(final(self).reader.buf()))
                            &&& match old(self).reader.timeout() {
                                Some(t) => timeout_ms == t,
                                None => timeout_ms == u64::MAX,
                            }
                        },
                        _ => false,
                    }
                },
            },
    {
        match self.reader.read_until(&EOF) {
            Ok((before, matched)) => {
                proof {
                    let full = latin1_of(before@) + latin1_of(matched@) + self.reader.buf();
                    assert(before@.len() == 0);
                    assert(latin1_of(before@) =~= Seq::<u8>::empty());
                    assert(self.reader.buf().len() == 0);
                    assert(full =~= latin1_of(matched@));
                    if old(self).reader.at_eof() {
                        assert(latin1_of(matched@) == old(self).reader.buf());
                        assert(matched@ == chars_of(old(self).reader.buf()));
                    }
                }
                Ok(matched)
            },
            Err(e) => Err(e),
        }
    }

    /// Wait until the pattern matches, and return the unread text before the
    /// match together with the match.  Fails with `RegexError` exactly when
    /// the pattern does not compile; then nothing is read.
    pub fn exp_regex(&mut self, pattern: &str) -> (r: Result<(String, String), Error>)
        ensures
            final(self).writer == old(self).writer,
            final(self).reader.timeout() == old(self).reader.timeout(),
            old(self).reader.at_eof() ==> final(self).reader.at_eof(),
            match r {
                Ok((before, matched)) => {
                    &&& regex_valid(pattern@)
                    &&& is_latin1(before@)
                    &&& is_latin1(matched@)
                    &&& chars_of(latin1_of(before@)) == before@
                    &&& chars_of(latin1_of(matched@)) == matched@
                    &&& regx_spec_find(
                        pattern@,
                        latin1_of(before@) + latin1_of(matched@) + final(self).reader.buf(),
                    ) == Some((before@.len() as int, (before@.len() + matched@.len()) as int))
                    &&& old(self).reader.buf().is_prefix_of(
                        latin1_of(before@) + latin1_of(matched@) + final(self).reader.buf(),
                    )
                },
                Err(e) => match e {
                    Error::RegexError { pattern: p, cause } => {
                        &&& !regex_valid(pattern@)
                        &&& p@ == pattern@
                        &&& final(self).reader == old(self).reader
                    },
                    Error::EOF { expected, got, exit_code } => {
                        &&& regex_valid(pattern@)
                        &&& old(self).reader.buf().is_prefix_of(final(self).reader.buf())
                        &&& final(self).reader.at_eof()
                        &&& regx_spec_find(pattern@, final(self).reader.buf()) is None
                        &&& got@ == chars_of(final(self).reader.buf())
                        &&& exit_code is None
                    },
                    Error::Timeout { expected, got, timeout_ms } => {
                        &&& regex_valid(pattern@)
                        &&& old(self).reader.buf().is_prefix_of(final(self).reader.buf())
                        &&& !final(self).reader.at_eof()
                        &&& regx_spec_find(pattern@, final(self).reader.buf()) is None
                        &&& got@ == sanitized(chars_of(final(self).reader.buf()))
                        &&& match old(self).reader.timeout() {
                            Some(t) => timeout_ms == t,
                            None => timeout_ms == u64::MAX,
                        }
                    },
                    _ => false,
                },
            },
    {
        match Regx::new(pattern) {
            Err(cause) => Err(
                Error::RegexError { pattern: String::from_str(pattern), cause },
            ),
            Ok(rx) => self.reader.read_until(&rx),
        }
    }

    /// What a successful `read_line` saw: the line's characters, followed by
    /// a line feed, were at the front of the stream and have been consumed.
    pub open spec fn line_read(pre: NBReader, post: NBReader, before: Seq<char>) -> bool {
        &&& is_latin1(before)
        &&& chars_of(latin1_of(before)) == before
        &&& str_spec_find(
            seq!['\n'],
            latin1_of(before) + seq![10u8] + post.buf(),
            post.at_eof(),
        ) == Some((before.len() as int, (before.len() + 1) as int))
        &&& pre.buf().is_prefix_of(latin1_of(before) + seq![10u8] + post.buf())
        &&& (pre.at_eof() ==> post.at_eof())
        &&& post.timeout() == pre.timeout()
    }

    /// Wait for the next line and return it without its line ending; a
    /// trailing carriage return (a terminal's line ending is `\r\n`) is
    /// stripped.
    pub fn read_line(&mut self) -> (r: Result<String, Error>)
        ensures
            final(self).writer == old(self).writer,
            final(self).reader.timeout() == old(self).reader.timeout(),
            old(self).reader.at_eof() ==> final(self).reader.at_eof(),
            match r {
                Ok(line) => Self::line_read(old(self).reader, final(self).reader, line@)
                    || Self::line_read(
                    old(self).reader,
                    final(self).reader,
                    line@.push('\r'),
                ),
                Err(e) => {
                    &&& old(self).reader.buf().is_prefix_of(final(self).reader.buf())
                    &&& match e {
                        Error::EOF { expected, got, exit_code } => {
                            &&& final(self).reader.at_eof()
                            &&& got@ == chars_of(final(self).reader.buf())
                            &&& exit_code is None
                        },
                        Error::Timeout { expected, got, timeout_ms } => {
                            &&& !final(self).reader.at_eof()
                            &&& got@ == sanitized(chars_of(final(self).reader.buf()))
                            &&& match old(self).reader.timeout() {
                                Some(t) => timeout_ms == t,
                                None => timeout_ms == u64::MAX,
                            }
                        },
                        _ => false,
                    }
                },
            },
    {
        let nl = String::from_str("\n");
        proof {
            reveal_strlit("\n");
            assert(nl@ =~= seq!['\n']);
        }
        match self.exp_string(nl.as_str()) {
            Ok(before) => {
                proof {
                    assert(latin1_of(seq!['\n']) =~= seq![10u8]);
                }
                let chars = str_chars(before.as_str());
                if chars.len() > 0 && chars[chars.len() - 1] == '\r' {
                    let line = chars_to_string(&chars, 0, chars.len() - 1);
                    proof {
                        assert(line@.push('\r') =~= before@);
                        assert(latin1_of(line@.push('\r')) + seq![10u8] + self.reader.buf()
                            =~= latin1_of(before@) + latin1_of(seq!['\n'])
                            + self.reader.buf());
                    }
                    Ok(line)
                } else {
                    proof {
                        assert(latin1_of(before@) + seq![10u8] + self.reader.buf() =~= latin1_of(
                            before@,
                        ) + latin1_of(seq!['\n']) + self.reader.buf());
                    }
                    Ok(before)
                }
            },
            Err(e) => Err(e),
        }
    }

    /// Pop one buffered character without blocking; `None` when none is
    /// ready.
    pub fn try_read(&mut self) -> (r: Option<char>)
        ensures
            final(self).writer == old(self).writer,
            final(self).reader.timeout() == old(self).reader.timeout(),
            old(self).reader.at_eof() ==> final(self).reader.at_eof(),
            match r {
                Some(c) => {
                    &&& old(self).reader.buf().is_prefix_of(
                        seq![c as u8] + final(self).reader.buf(),
                    )
                    &&& (c as u8) as char == c
                },
                None => final(self).reader.buf().len() == 0 && old(self).reader.buf().len() == 0,
            },
    {
        self.reader.try_read()
    }
}

/// Couple a reader over a channel of byte events with a sink: sessions over
/// in-memory or remote streams, and the base of the terminal sessions the
/// embedding program builds.
pub fn spawn_stream<W: ByteSink>(rx: Receiver<PipeEvent>, writer: W, timeout_ms: Option<u64>) -> (s:
    StreamSession<W>)
    ensures
        s.writer == writer,
        s.reader.buf() == Seq::<u8>::empty(),
        !s.reader.at_eof(),
        s.reader.timeout() == timeout_ms,
{
    StreamSession::new(rx, writer, timeout_ms)
}

/// A literal was found and consumed: `post` continues `pre` after a
/// successful wait for `s` — the unread text before the literal and the
/// literal itself have been removed from the stream.
pub open spec fn consumed_string(s: Seq<char>, pre: NBReader, post: NBReader) -> bool {
    exists|before: Seq<char>|
        {
            &&& is_latin1(before)
            &&& (#[trigger] str_spec_find(
                s,
                latin1_of(before) + latin1_of(s) + post.buf(),
                post.at_eof(),
            )) == Some((before.len() as int, (before.len() + s.len()) as int))
            &&& pre.buf().is_prefix_of(latin1_of(before) + latin1_of(s) + post.buf())
            &&& (pre.at_eof() ==> post.at_eof())
            &&& post.timeout() == pre.timeout()
        }
}

/// A pattern was found and consumed: `post` continues `pre` after a
/// successful wait for the regular expression `pat`; everything up to the
/// end of the match has been removed from the stream.
pub open spec fn consumed_regex(pat: Seq<char>, pre: NBReader, post: NBReader) -> bool {
    exists|before: Seq<char>, matched: Seq<char>|
        {
            &&& is_latin1(before)
            &&& is_latin1(matched)
            &&& (#[trigger] regx_spec_find(
                pat,
                latin1_of(before) + latin1_of(matched) + post.buf(),
            )) == Some((before.len() as int, (before.len() + matched.len()) as int))
            &&& pre.buf().is_prefix_of(latin1_of(before) + latin1_of(matched) + post.buf())
            &&& (pre.at_eof() ==> post.at_eof())
            &&& post.timeout() == pre.timeout()
        }
}

/// How one echo pass relates two reader states: with echo on, the echoed
/// line was waited for and consumed; with echo off, nothing was read.
pub open spec fn echo_consumed(echo_on: bool, s: Seq<char>, pre: NBReader, post: NBReader) -> bool {
    if echo_on {
        consumed_string(s, pre, post)
    } else {
        post == pre
    }
}

/// A REPL session: a stream session plus the prompt that marks the shell's
/// readiness, an optional quit command that `quit` sends before teardown,
/// and whether the shell echoes its input.
pub struct ReplSession<W: ByteSink> {
    pub session: StreamSession<W>,
    pub prompt: String,
    pub quit_command: Option<String>,
    pub echo_on: bool,
}

impl<W: ByteSink> ReplSession<W> {
    /// Wait until the prompt appears and return the text before it.  Fails
    /// exactly as `exp_string` does — never while the prompt is already in
    /// the buffered output.
    pub fn wait_for_prompt(&mut self) -> (r: Result<String, Error>)
        ensures
            final(self).session.writer == old(self).session.writer,
            final(self).prompt == old(self).prompt,
            final(self).quit_command == old(self).quit_command,
            final(self).echo_on == old(self).echo_on,
            final(self).session.reader.timeout() == old(self).session.reader.timeout(),
            old(self).session.reader.at_eof() ==> final(self).session.reader.at_eof(),
            match r {
                Ok(before) => {
                    &&& is_latin1(before@)
                    &&& chars_of(latin1_of(before@)) == before@
                    &&& str_spec_find(
                        old(self).prompt@,
                        latin1_of(before@) + latin1_of(old(self).prompt@) + final(self).session.reader.buf(),
                        final(self).session.reader.at_eof(),
                    ) == Some(
                        (before@.len() as int, (before@.len() + old(self).prompt@.len()) as int),
                    )
                    &&& old(self).session.reader.buf().is_prefix_of(
                        latin1_of(before@) + latin1_of(old(self).prompt@) + final(self).session.reader.buf(),
                    )
                },
                Err(e) => {
                    &&& old(self).session.reader.buf().is_prefix_of(
                        final(self).session.reader.buf(),
                    )
                    &&& match e {
                        Error::EOF { expected, got, exit_code } => {
                            &&& final(self).session.reader.at_eof()
                            &&& str_spec_find(
                                old(self).prompt@,
                                final(self).session.reader.buf(),
                                true,
                            ) is None
                            &&& got@ == chars_of(final(self).session.reader.buf())
                            &&& exit_code is None
                        },
                        Error::Timeout { expected, got, timeout_ms } => {
                            &&& !final(self).session.reader.at_eof()
                            &&& str_spec_find(
                                old(self).prompt@,
                                final(self).session.reader.buf(),
                                false,
                            ) is None
                            &&& got@ == sanitized(chars_of(final(self).session.reader.buf()))
                            &&& match old(self).session.reader.timeout() {
                                Some(t) => timeout_ms == t,
                                None => timeout_ms == u64::MAX,
                            }
                        },
                        _ => false,
                    }
                },
            },
    {
        self.session.exp_string(self.prompt.as_str())
    }

    /// Send a line to the shell; when the shell echoes, wait for the echo so
    /// it does not linger in the stream.  Returns the number of bytes
    /// written.
    pub fn send_line(&mut self, line: &str) -> (r: Result<usize, Error>)
        ensures
            final(self).prompt == old(self).prompt,
            final(self).quit_command == old(self).quit_command,
            final(self).echo_on == old(self).echo_on,
            final(self).session.reader.timeout() == old(self).session.reader.timeout(),
            old(self).session.reader.at_eof() ==> final(self).session.reader.at_eof(),
            match r {
                Ok(n) => {
                    &&& final(self).session.writer.written() == old(self).session.writer.written()
                        + line.spec_bytes() + seq![10u8]
                    &&& n as int == if line.spec_bytes().len() + 1 <= usize::MAX {
                        (line.spec_bytes().len() + 1) as int
                    } else {
                        usize::MAX as int
                    }
                    &&& echo_consumed(
                        old(self).echo_on,
                        line@,
                        old(self).session.reader,
                        final(self).session.reader,
                    )
                },
                Err(e) => {
                    &&& (final(self).session.writer.written() == old(self).session.writer.written()
                        || final(self).session.writer.written() == old(self).session.writer.written() + line.spec_bytes() || final(self).session.writer.written() == old(self).session.writer.written()
                        + line.spec_bytes() + seq![10u8])
                    &&& (e is BrokenPipe || e matches Error::IOError { .. } || e matches
                        Error::EOF { .. } || e matches Error::Timeout { .. })
                },
            },
    {
        let n = match self.session.send_line(line) {
            Ok(n) => n,
            Err(e) => {
                return Err(e);
            },
        };
        if self.echo_on {
            match self.session.exp_string(line) {
                Ok(echoed) => {
                    proof {
                        assert(str_spec_find(
                            line@,
                            latin1_of(echoed@) + latin1_of(line@) + self.session.reader.buf(),
                            self.session.reader.at_eof(),
                        ) == Some((echoed@.len() as int, (echoed@.len() + line@.len()) as int)));
                        assert(consumed_string(
                            line@,
                            old(self).session.reader,
                            self.session.reader,
                        ));
                    }
                    Ok(n)
                },
                Err(e) => Err(e),
            }
        } else {
            Ok(n)
        }
    }

    /// Send a command and wait until the given pattern — a readiness marker
    /// written by the running command itself — appears.  Waiting for the
    /// marker is what keeps a following control character from racing the
    /// command's start-up.
    pub fn execute(&mut self, cmd: &str, ready_regex: &str) -> (r: Result<(), Error>)
        ensures
            final(self).prompt == old(self).prompt,
            final(self).quit_command == old(self).quit_command,
            final(self).echo_on == old(self).echo_on,
            final(self).session.reader.timeout() == old(self).session.reader.timeout(),
            old(self).session.reader.at_eof() ==> final(self).session.reader.at_eof(),
            match r {
                Ok(_) => {
                    &&& regex_valid(ready_regex@)
                    &&& final(self).session.writer.written() == old(self).session.writer.written()
                        + cmd.spec_bytes() + seq![10u8]
                    &&& exists|mid1: NBReader, mid2: NBReader|
                        {
                            &&& (#[trigger] echo_consumed(
                                old(self).echo_on,
                                cmd@,
                                old(self).session.reader,
                                mid1,
                            ))
                            &&& (#[trigger] echo_consumed(old(self).echo_on, cmd@, mid1, mid2))
                            &&& consumed_regex(ready_regex@, mid2, final(self).session.reader)
                        }
                },
                Err(e) => {
                    &&& (final(self).session.writer.written() == old(self).session.writer.written()
                        || final(self).session.writer.written() == old(self).session.writer.written() + cmd.spec_bytes() || final(self).session.writer.written() == old(self).session.writer.written()
                        + cmd.spec_bytes() + seq![10u8])
                    &&& match e {
                        Error::RegexError { pattern: p, cause } => p@ == ready_regex@
                            && !regex_valid(ready_regex@),
                        Error::EOF { .. } | Error::Timeout { .. } | Error::BrokenPipe
                            | Error::IOError { .. } => true,
                        _ => false,
                    }
                },
            },
    {
        match self.send_line(cmd) {
            Ok(_) => {},
            Err(e) => {
                return Err(e);
            },
        }
        let ghost mid1 = self.session.reader;
        if self.echo_on {
            match self.session.exp_string(cmd) {
                Ok(echoed) => {
                    proof {
                        assert(str_spec_find(
                            cmd@,
                            latin1_of(echoed@) + latin1_of(cmd@) + self.session.reader.buf(),
                            self.session.reader.at_eof(),
                        ) == Some((echoed@.len() as int, (echoed@.len() + cmd@.len()) as int)));
                        assert(consumed_string(cmd@, mid1, self.session.reader));
                    }
                },
                Err(e) => {
                    return Err(e);
                },
            }
        }
        let ghost mid2 = self.session.reader;
        match self.session.exp_regex(ready_regex) {
            Ok(pair) => {
                proof {
                    let b = pair.0@;
                    let m = pair.1@;
                    assert(regx_spec_find(
                        ready_regex@,
                        latin1_of(b) + latin1_of(m) + self.session.reader.buf(),
                    ) == Some((b.len() as int, (b.len() + m.len()) as int)));
                    assert(consumed_regex(ready_regex@, mid2, self.session.reader));
                    assert(echo_consumed(old(self).echo_on, cmd@, old(self).session.reader, mid1));
                    assert(echo_consumed(old(self).echo_on, cmd@, mid1, mid2));
                }
                Ok(())
            },
            Err(e) => Err(e),
        }
    }
}

impl<W: ByteSink> ReplSession<W> {
    /// Ask the shell to leave.  Shells that survive a termination signal
    /// (bash does) need their configured quit command sent before the child
    /// is torn down; the embedding program calls this when the session is
    /// dropped.  Does nothing when no quit command is configured.
    pub fn quit(&mut self) -> (r: Result<(), Error>)
        ensures
            final(self).prompt == old(self).prompt,
            final(self).quit_command == old(self).quit_command,
            final(self).echo_on == old(self).echo_on,
            old(self).quit_command is None ==> *final(self) == *old(self),
            match r {
                Ok(_) => match old(self).quit_command {
                    Some(cmd) => final(self).session.writer.written() == old(self).session.writer.written() + vstd::utf8::encode_utf8(cmd@) + seq![10u8],
                    None => final(self).session.writer.written() == old(self).session.writer.written(),
                },
                Err(_) => match old(self).quit_command {
                    Some(cmd) => final(self).session.writer.written() == old(self).session.writer.written() || final(self).session.writer.written() == old(self).session.writer.written() + vstd::utf8::encode_utf8(cmd@),
                    None => false,
                },
            },
    {
        let cmd = match &self.quit_command {
            Some(cmd) => cmd.clone(),
            None => {
                return Ok(());
            },
        };
        match self.session.send_line(cmd.as_str()) {
            Ok(_) => Ok(()),
            Err(e) => Err(e),
        }
    }
}

} // verus!
