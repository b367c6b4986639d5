//! The needle algebra and the non-blocking reader.
//!
//! A needle is a pattern looked for in the reader's buffer: a literal, a
//! regular expression, a fixed byte count, the end of the stream, or an
//! ordered alternation.  A successful `find` yields a [`Match`]: the positions
//! `begin` and `end` of the matched region.  [`NBReader::read_until`] drains a
//! channel of [`PipeEvent`]s into its buffer until a needle matches, hands
//! back the text before the match and the match itself, and removes both from
//! the buffer.

use vstd::prelude::*;
use vstd::string::StringExecFns;
use vstd::slice::slice_subrange;
use vstd::slice::slice_to_vec;
use std::sync::mpsc::Receiver;
use crate::Error;
use crate::find::spec_find_first;
use crate::find::find_first;
use crate::text::chars_of;
use crate::text::latin1_of;
use crate::text::is_latin1;
use crate::text::lemma_chars_of_round_trip;
use crate::text::latin1_string;
use crate::text::str_latin1_bytes;
use crate::text::sanitize;
use crate::text::sanitized;
use crate::text::u64_decimal;

verus! {

/// One item handed from the byte pump to the reader: a byte of child output,
/// the end of the stream, or a read failure.  A `fatal` failure is one that
/// ends the stream (some kernels report a vanished child's output that way);
/// any other failure is discarded by the reader.
#[derive(Debug, Clone, Copy)]
pub enum PipeEvent {
    Byte(u8),
    Eof,
    ReadError { fatal: bool },
}

/// The region a needle matched: the buffer positions `begin` (start of the
/// match) and `end` (one past it).  `read_until` returns the buffer text
/// before `begin` and the text between the two, and consumes everything up
/// to `end`.
#[derive(Debug, Clone, Copy, PartialEq, Eq, Structural)]
pub struct Match {
    pub begin: usize,
    pub end: usize,
}

impl Match {
    pub fn new(begin: usize, end: usize) -> (m: Match)
        ensures
            m.begin == begin,
            m.end == end,
    {
        Match { begin, end }
    }
}

/// A pattern that can be looked for in the reader's buffer.
///
/// `spec_find` is the pattern's whole meaning: where it matches a given
/// buffer under a given end-of-stream flag, if anywhere.  `find` computes it;
/// `display` names the pattern inside error reports.
pub trait Needle {
    spec fn spec_find(&self, buffer: Seq<u8>, eof: bool) -> Option<(int, int)>;

    fn find(&self, buffer: &[u8], eof: bool) -> (r: Option<Match>)
        ensures
            match r {
                Some(m) => self.spec_find(buffer@, eof) == Some((m.begin as int, m.end as int))
                    && m.begin <= m.end <= buffer@.len(),
                None => self.spec_find(buffer@, eof) is None,
            },
    ;

    fn display(&self) -> String;
}

/// Where a literal needle matches: at the first occurrence of its bytes.
/// A literal with a character above 255 has no byte form and never matches.
pub open spec fn str_spec_find(pat: Seq<char>, buffer: Seq<u8>, eof: bool) -> Option<(int, int)> {
    if !is_latin1(pat) {
        None
    } else {
        match spec_find_first(buffer, latin1_of(pat)) {
            Some(i) => Some((i, i + pat.len())),
            None => None,
        }
    }
}

/// Find the first occurrence of a literal string.
pub struct Str(pub String);

impl Needle for Str {
    open spec fn spec_find(&self, buffer: Seq<u8>, eof: bool) -> Option<(int, int)> {
        str_spec_find(self.0@, buffer, eof)
    }

    fn find(&self, buffer: &[u8], eof: bool) -> (r: Option<Match>) {
        match str_latin1_bytes(self.0.as_str()) {
            None => None,
            Some(pat) => {
                match find_first(buffer, pat.as_slice()) {
                    Some(i) => {
                        let _blen = buffer.len();
                        proof {
                            crate::find::lemma_find_first(buffer@, pat@);
                        }
                        Some(Match::new(i, i + pat.len()))
                    },
                    None => None,
                }
            },
        }
    }

    fn display(&self) -> String {
        let nl = String::from_str("\n");
        let cr = String::from_str("\r");
        if self.0 == nl {
            String::from_str("\\n (newline)")
        } else if self.0 == cr {
            String::from_str("\\r (carriage return)")
        } else {
            let mut s = String::from_str("\"");
            s.append(self.0.as_str());
            s.append("\"");
            s
        }
    }
}

/// Whether a pattern is a well-formed regular expression; the result of
/// `regex::bytes::Regex::new` depends on the pattern text alone.
pub uninterp spec fn regex_valid(pattern: Seq<char>) -> bool;

/// The first match of a regular expression in a byte haystack, as its byte
/// offsets; the result of `regex::bytes::Regex::find` depends on the pattern
/// and the haystack alone.
pub uninterp spec fn regex_match_of(pattern: Seq<char>, hay: Seq<u8>) -> Option<(usize, usize)>;

#[verifier::external_type_specification]
#[verifier::external_body]
pub struct ExRegex(regex::bytes::Regex);

/// Find the first match of a compiled regular expression.
///
/// The compiled form is paired with the pattern it was compiled from;
/// `Regx::new` is the only constructor, so the two never part.
pub struct Regx {
    re: regex::bytes::Regex,
    pattern: String,
}

impl View for Regx {
    type V = Seq<char>;

    closed spec fn view(&self) -> Seq<char> {
        self.pattern@
    }
}

impl Regx {
    /// Relies on `regex::bytes::Regex::new`: whether a pattern compiles is a
    /// function of the pattern text; the error's rendering is carried back.
    #[verifier::external_body]
    pub fn new(pattern: &str) -> (r: Result<Regx, String>)
        ensures
            r is Ok <==> regex_valid(pattern@),
            match r {
                Ok(rx) => rx@ == pattern@,
                Err(_) => true,
            },
    {
        match regex::bytes::Regex::new(pattern) {
            Ok(re) => Ok(Regx { re, pattern: pattern.to_string() }),
            Err(e) => Err(e.to_string()),
        }
    }

    /// The pattern this needle was compiled from.
    pub fn pattern(&self) -> (p: &String)
        ensures
            p@ == self@,
    {
        &self.pattern
    }

    /// Relies on `regex::bytes::Regex::find`: the first (leftmost) match and
    /// its byte offsets, which lie within the haystack, are a function of the
    /// pattern and the haystack alone.
    #[verifier::external_body]
    fn search(&self, hay: &[u8]) -> (r: Option<(usize, usize)>)
        ensures
            r == regex_match_of(self@, hay@),
            match r {
                Some((b, e)) => b <= e <= hay@.len(),
                None => true,
            },
    {
        self.re.find(hay).map(|m| (m.start(), m.end()))
    }
}

/// Where a regular-expression needle matches: at the first match of its
/// pattern, wherever the stream has ended or not.
pub open spec fn regx_spec_find(pattern: Seq<char>, buffer: Seq<u8>) -> Option<(int, int)> {
    match regex_match_of(pattern, buffer) {
        Some((b, e)) => Some((b as int, e as int)),
        None => None,
    }
}

impl Needle for Regx {
    open spec fn spec_find(&self, buffer: Seq<u8>, eof: bool) -> Option<(int, int)> {
        regx_spec_find(self@, buffer)
    }

    fn find(&self, buffer: &[u8], eof: bool) -> (r: Option<Match>) {
        match self.search(buffer) {
            Some((b, e)) => Some(Match::new(b, e)),
            None => None,
        }
    }

    fn display(&self) -> String {
        let mut s = String::from_str("Regex: \"");
        s.append(self.pattern.as_str());
        s.append("\"");
        s
    }
}

/// Match when the stream has ended; the match spans the whole buffer.
pub struct EOF;

impl Needle for EOF {
    open spec fn spec_find(&self, buffer: Seq<u8>, eof: bool) -> Option<(int, int)> {
        if eof {
            Some((0, buffer.len() as int))
        } else {
            None
        }
    }

    fn find(&self, buffer: &[u8], eof: bool) -> (r: Option<Match>) {
        if eof {
            Some(Match::new(0, buffer.len()))
        } else {
            None
        }
    }

    fn display(&self) -> String {
        String::from_str("EOF (End of File)")
    }
}

/// Consume a fixed number of bytes from the front of the buffer — or, once
/// the stream has ended, whatever is left, provided it is not empty.
pub struct NBytes(pub usize);

impl Needle for NBytes {
    open spec fn spec_find(&self, buffer: Seq<u8>, eof: bool) -> Option<(int, int)> {
        if self.0 <= buffer.len() {
            Some((0, self.0 as int))
        } else if eof && buffer.len() > 0 {
            Some((0, buffer.len() as int))
        } else {
            None
        }
    }

    fn find(&self, buffer: &[u8], eof: bool) -> (r: Option<Match>) {
        if self.0 <= buffer.len() {
            Some(Match::new(0, self.0))
        } else if eof && buffer.len() > 0 {
            Some(Match::new(0, buffer.len()))
        } else {
            None
        }
    }

    fn display(&self) -> String {
        let mut s = String::from_str("reading ");
        s.append(u64_decimal(self.0 as u64).as_str());
        s.append(" bytes");
        s
    }
}

/// Ordered alternation: try the first needle, and only where it does not
/// match, the second.  The first alternative wins even when the second would
/// match earlier in the buffer.
pub struct UntilOr<A, B>(pub A, pub B);

impl<A: Needle, B: Needle> Needle for UntilOr<A, B> {
    open spec fn spec_find(&self, buffer: Seq<u8>, eof: bool) -> Option<(int, int)> {
        if self.0.spec_find(buffer, eof) is Some {
            self.0.spec_find(buffer, eof)
        } else {
            self.1.spec_find(buffer, eof)
        }
    }

    fn find(&self, buffer: &[u8], eof: bool) -> (r: Option<Match>) {
        match self.0.find(buffer, eof) {
            Some(m) => Some(m),
            None => self.1.find(buffer, eof),
        }
    }

    fn display(&self) -> String {
        let mut s = String::from_str("until ");
        s.append(self.0.display().as_str());
        s.append(" or ");
        s.append(self.1.display().as_str());
        s.append(";");
        s
    }
}

/// LAW — ordered alternation.  Against a buffer where several alternatives
/// match, the alternation matches as its first matching alternative, not as
/// the one whose match lies earliest in the buffer.
pub proof fn lemma_or_prefers_first<A: Needle, B: Needle>(
    n: &UntilOr<A, B>,
    buffer: Seq<u8>,
    eof: bool,
)
    ensures
        n.0.spec_find(buffer, eof) is Some ==> n.spec_find(buffer, eof) == n.0.spec_find(
            buffer,
            eof,
        ),
        n.0.spec_find(buffer, eof) is None ==> n.spec_find(buffer, eof) == n.1.spec_find(
            buffer,
            eof,
        ),
{
}

/// A builder for alternations: `Until(a).or(b).or(c)` nests needles so that
/// the leftmost stands first.
pub struct Until<N: Needle>(pub N);

impl<N: Needle> Until<N> {
    pub fn or<R: Needle>(self, rhs: R) -> (r: Until<UntilOr<N, R>>)
        ensures
            r.0.0 == self.0,
            r.0.1 == rhs,
    {
        Until(UntilOr(self.0, rhs))
    }
}

#[verifier::external_type_specification]
#[verifier::external_body]
#[verifier::reject_recursive_types(T)]
pub struct ExReceiver<T>(Receiver<T>);

/// Relies on `std::sync::mpsc::Receiver::try_recv`; what arrives, if
/// anything, depends on the sending side, so nothing is assumed of the
/// outcome.
#[verifier::external_body]
fn try_recv_event(rx: &Receiver<PipeEvent>) -> (r: Option<PipeEvent>) {
    rx.try_recv().ok()
}

/// Relies on `std::sync::mpsc::Receiver::recv_timeout`, waiting at most
/// `millis` milliseconds for the next event; what arrives depends on the
/// sending side, so nothing is assumed of the outcome.
#[verifier::external_body]
fn recv_event_timeout(rx: &Receiver<PipeEvent>, millis: u64) -> (r: Option<PipeEvent>) {
    rx.recv_timeout(std::time::Duration::from_millis(millis)).ok()
}

#[verifier::external_type_specification]
#[verifier::external_body]
pub struct ExInstant(std::time::Instant);

/// Relies on `std::time::Instant::now`: an opaque reading of the clock.
#[verifier::external_body]
fn instant_now() -> (r: std::time::Instant) {
    std::time::Instant::now()
}

/// Relies on `std::time::Instant::elapsed`; the clock is not modelled, so
/// nothing is assumed of the reading.
#[verifier::external_body]
fn millis_since(start: &std::time::Instant) -> (r: u64) {
    start.elapsed().as_millis() as u64
}

/// The non-blocking reader: a buffer of bytes drained from a channel fed by
/// a byte pump, a sticky end-of-stream flag, and an optional timeout for
/// `read_until`.
///
/// The buffer holds exactly the bytes that have been drained from the channel
/// and not yet consumed by a successful match.
pub struct NBReader {
    rx: Receiver<PipeEvent>,
    buffer: Vec<u8>,
    eof: bool,
    timeout_ms: Option<u64>,
}

impl NBReader {
    /// The bytes drained and not yet consumed.
    pub closed spec fn buf(&self) -> Seq<u8> {
        self.buffer@
    }

    /// Whether the end of the stream has been seen.
    pub closed spec fn at_eof(&self) -> bool {
        self.eof
    }

    /// The timeout, in milliseconds, that `read_until` applies; `None` waits
    /// without bound.
    pub closed spec fn timeout(&self) -> Option<u64> {
        self.timeout_ms
    }

    /// A reader over a channel of byte events.  `timeout_ms` bounds each
    /// `read_until` call; `None` lets it block for as long as it takes.
    pub fn new(rx: Receiver<PipeEvent>, timeout_ms: Option<u64>) -> (r: NBReader)
        ensures
            r.buf() == Seq::<u8>::empty(),
            !r.at_eof(),
            r.timeout() == timeout_ms,
    {
        NBReader { rx, buffer: Vec::new(), eof: false, timeout_ms }
    }

    /// Fold one event into the reader's state.
    fn apply_event(&mut self, ev: PipeEvent)
        ensures
            final(self).timeout_ms == old(self).timeout_ms,
            old(self).buffer@.is_prefix_of(final(self).buffer@),
            old(self).eof ==> final(self).eof,
            match ev {
                PipeEvent::Byte(b) => final(self).buffer@ == old(self).buffer@.push(b)
                    && final(self).eof == old(self).eof,
                PipeEvent::Eof => final(self).buffer@ == old(self).buffer@ && final(self).eof,
                PipeEvent::ReadError { fatal } => final(self).buffer@ == old(self).buffer@
                    && final(self).eof == (old(self).eof || fatal),
            },
    {
        match ev {
            PipeEvent::Byte(b) => {
                self.buffer.push(b);
                proof {
                    assert(old(self).buffer@ =~= self.buffer@.subrange(
                        0,
                        old(self).buffer@.len() as int,
                    ));
                }
            },
            PipeEvent::Eof => {
                self.eof = true;
                proof {
                    assert(old(self).buffer@ =~= self.buffer@.subrange(
                        0,
                        old(self).buffer@.len() as int,
                    ));
                }
            },
            PipeEvent::ReadError { fatal } => {
                if fatal {
                    self.eof = true;
                }
                proof {
                    assert(old(self).buffer@ =~= self.buffer@.subrange(
                        0,
                        old(self).buffer@.len() as int,
                    ));
                }
            },
        }
    }

    /// Drain everything the channel has ready into the buffer.  Once the end
    /// of the stream has been seen, nothing further is drained.
    fn read_into_buffer(&mut self)
        ensures
            final(self).timeout_ms == old(self).timeout_ms,
            old(self).buffer@.is_prefix_of(final(self).buffer@),
            old(self).eof ==> *final(self) == *old(self),
            old(self).eof ==> final(self).eof,
    {
        if self.eof {
            return ;
        }
        let mut budget: usize = 65536;
        loop
            invariant
                self.timeout_ms == old(self).timeout_ms,
                old(self).buffer@.is_prefix_of(self.buffer@),
                old(self).eof ==> self.eof,
            decreases budget,
        {
            if budget == 0 {
                break ;
            }
            budget = budget - 1;
            match try_recv_event(&self.rx) {
                None => {
                    break ;
                },
                Some(ev) => {
                    self.apply_event(ev);
                    proof {
                        assert(old(self).buffer@ =~= self.buffer@.subrange(
                            0,
                            old(self).buffer@.len() as int,
                        ));
                    }
                },
            }
        }
    }

    /// What holds when `read_until` hands back a pair `(before, matched)`.
    ///
    /// The buffer that was matched is exactly `before + matched + post.buf()`
    /// in byte form; the needle matched it at `(|before|, |before + matched|)`
    /// under the final end-of-stream flag; everything up to the end of the
    /// match was consumed; the matched buffer extends what was already
    /// buffered; the end-of-stream flag is sticky and the timeout unchanged.
    pub open spec fn read_ok<N: Needle + ?Sized>(
        needle: &N,
        pre: NBReader,
        post: NBReader,
        before: Seq<char>,
        matched: Seq<char>,
    ) -> bool {
        let full = latin1_of(before) + latin1_of(matched) + post.buf();
        &&& is_latin1(before)
        &&& is_latin1(matched)
        &&& chars_of(latin1_of(before)) == before
        &&& chars_of(latin1_of(matched)) == matched
        &&& needle.spec_find(full, post.at_eof()) == Some(
            (before.len() as int, (before.len() + matched.len()) as int),
        )
        &&& pre.buf().is_prefix_of(full)
        &&& (pre.at_eof() ==> post.at_eof())
        &&& (pre.at_eof() ==> full == pre.buf())
        &&& post.timeout() == pre.timeout()
    }

    /// What holds when `read_until` fails: the stream ended, or the time ran
    /// out, without the needle matching what had been buffered by then.
    pub open spec fn read_failed<N: Needle + ?Sized>(
        needle: &N,
        pre: NBReader,
        post: NBReader,
        e: &Error,
    ) -> bool {
        &&& pre.buf().is_prefix_of(post.buf())
        &&& (pre.at_eof() ==> post.at_eof())
        &&& (pre.at_eof() ==> post.buf() == pre.buf())
        &&& post.timeout() == pre.timeout()
        &&& match e {
            Error::EOF { expected, got, exit_code } => {
                &&& post.at_eof()
                &&& needle.spec_find(post.buf(), true) is None
                &&& got@ == chars_of(post.buf())
                &&& exit_code is None
            },
            Error::Timeout { expected, got, timeout_ms } => {
                &&& !post.at_eof()
                &&& needle.spec_find(post.buf(), false) is None
                &&& got@ == sanitized(chars_of(post.buf()))
                &&& match pre.timeout() {
                    Some(t) => *timeout_ms == t,
                    None => *timeout_ms == u64::MAX,
                }
            },
            _ => false,
        }
    }

    /// Wait until the needle is found, and return the buffered text before
    /// the match and the match itself, both consumed from the buffer.
    ///
    /// Fails with `Error::EOF` when the stream ends first, and with
    /// `Error::Timeout` when a configured timeout elapses first.
    pub fn read_until<N: Needle>(&mut self, needle: &N) -> (r: Result<
        (String, String),
        Error,
    >)
        ensures
            match r {
                Ok((before, matched)) => Self::read_ok(
                    needle,
                    *old(self),
                    *final(self),
                    before@,
                    matched@,
                ),
                Err(e) => Self::read_failed(needle, *old(self), *final(self), &e),
            },
    {
        let start = instant_now();
        // The timeout is enforced by the clock alone; the counter only bounds
        // the loop formally, at a horizon of centuries of polling.
        let mut fuel: u64 = u64::MAX;
        loop
            invariant
                self.timeout_ms == old(self).timeout_ms,
                old(self).buffer@.is_prefix_of(self.buffer@),
                old(self).eof ==> self.eof,
                old(self).eof ==> self.buffer@ == old(self).buffer@,
            decreases fuel,
        {
            self.read_into_buffer();
            let ghost pre_match = self.buffer@;
            let found = needle.find(self.buffer.as_slice(), self.eof);
            if let Some(m) = found {
                let before_s = latin1_string(slice_subrange(self.buffer.as_slice(), 0, m.begin));
                let matched_s = latin1_string(
                    slice_subrange(self.buffer.as_slice(), m.begin, m.end),
                );
                let rest = slice_to_vec(
                    slice_subrange(self.buffer.as_slice(), m.end, self.buffer.len()),
                );
                self.buffer = rest;
                proof {
                    lemma_chars_of_round_trip(pre_match.subrange(0, m.begin as int));
                    lemma_chars_of_round_trip(pre_match.subrange(m.begin as int, m.end as int));
                    assert(latin1_of(before_s@) + latin1_of(matched_s@) + self.buffer@
                        =~= pre_match);
                }
                return Ok((before_s, matched_s));
            }
            if self.eof {
                let got = latin1_string(self.buffer.as_slice());
                return Err(
                    Error::EOF { expected: needle.display(), got, exit_code: None },
                );
            }
            let timed_out = if fuel == 0 {
                true
            } else {
                match self.timeout_ms {
                    Some(t) => millis_since(&start) > t,
                    None => false,
                }
            };
            if timed_out {
                let reported: u64 = match self.timeout_ms {
                    Some(t) => t,
                    None => u64::MAX,
                };
                let got = sanitize(self.buffer.as_slice());
                return Err(
                    Error::Timeout { expected: needle.display(), got, timeout_ms: reported },
                );
            }
            fuel = fuel - 1;
            match recv_event_timeout(&self.rx, 100) {
                Some(ev) => {
                    self.apply_event(ev);
                    proof {
                        assert(old(self).buffer@ =~= self.buffer@.subrange(
                            0,
                            old(self).buffer@.len() as int,
                        ));
                    }
                },
                None => {},
            }
        }
    }

    /// Pop the first buffered character, draining the channel once; `None`
    /// when nothing is buffered.  Never blocks.
    pub fn try_read(&mut self) -> (r: Option<char>)
        ensures
            final(self).timeout() == old(self).timeout(),
            old(self).at_eof() ==> final(self).at_eof(),
            match r {
                Some(c) => {
                    &&& old(self).buf().is_prefix_of(seq![c as u8] + final(self).buf())
                    &&& (c as u8) as char == c
                },
                None => final(self).buf().len() == 0 && old(self).buf().len() == 0,
            },
    {
        self.read_into_buffer();
        if self.buffer.len() > 0 {
            let ghost mid = self.buffer@;
            let c = self.buffer[0] as char;
            let rest = slice_to_vec(slice_subrange(self.buffer.as_slice(), 1, self.buffer.len()));
            self.buffer = rest;
            proof {
                assert(seq![c as u8] + self.buffer@ =~= mid);
            }
            Some(c)
        } else {
            None
        }
    }
}

/// LAW — buffer consumption.  Whatever the needle: a successful `read_until`
/// that matched at `(begin, end)` returned exactly the bytes before `begin`
/// and the bytes between `begin` and `end`, removed the first `end` bytes,
/// and left the rest buffered.
pub proof fn lemma_buffer_consumption<N: Needle + ?Sized>(
    needle: &N,
    pre: NBReader,
    post: NBReader,
    before: Seq<char>,
    matched: Seq<char>,
)
    requires
        NBReader::read_ok(needle, pre, post, before, matched),
    ensures
        ({
            let full = latin1_of(before) + latin1_of(matched) + post.buf();
            let begin = before.len() as int;
            let end = (before.len() + matched.len()) as int;
            &&& needle.spec_find(full, post.at_eof()) == Some((begin, end))
            &&& latin1_of(before) =~= full.subrange(0, begin)
            &&& latin1_of(matched) =~= full.subrange(begin, end)
            &&& post.buf() =~= full.subrange(end, full.len() as int)
            &&& pre.buf().is_prefix_of(full)
        }),
{
}

/// LAW — end-of-stream needle.  Once the end of the stream is flagged, `EOF`
/// matches at once, with an empty prefix, spanning the whole buffer; while
/// the stream is open it never matches.
pub proof fn lemma_eof_immediate(buffer: Seq<u8>)
    ensures
        (EOF).spec_find(buffer, true) == Some((0int, buffer.len() as int)),
        (EOF).spec_find(buffer, false) is None,
{
}

/// LAW — sticky end of stream.  Once a reader has seen the end of the
/// stream, `read_until(&EOF)` cannot fail: the failure conditions contradict
/// a flagged end of stream.
pub proof fn lemma_eof_sticky(pre: NBReader, post: NBReader, e: &Error)
    requires
        pre.at_eof(),
    ensures
        !NBReader::read_failed(&EOF, pre, post, e),
{
}

/// LAW — a successful `read_until(&EOF)` returns an empty prefix together
/// with the whole remaining buffer, and empties the buffer.  Where the end
/// of the stream had already been seen, nothing more arrives: the call
/// returns exactly what was buffered — the empty string once the buffer has
/// been emptied.
pub proof fn lemma_eof_read(pre: NBReader, post: NBReader, before: Seq<char>, matched: Seq<char>)
    requires
        NBReader::read_ok(&EOF, pre, post, before, matched),
    ensures
        before.len() == 0,
        post.buf().len() == 0,
        post.at_eof(),
        pre.at_eof() ==> matched == chars_of(pre.buf()),
        pre.at_eof() && pre.buf().len() == 0 ==> matched.len() == 0,
{
    if pre.at_eof() {
        assert(latin1_of(before) + latin1_of(matched) + post.buf() =~= latin1_of(matched));
        assert(latin1_of(matched) == pre.buf());
        assert(matched == chars_of(latin1_of(matched)));
    }
}

/// LAW — byte-count needle at end of stream.  Against a buffer shorter than
/// asked, `NBytes` matches nothing while the stream is open; once the stream
/// has ended it matches the whole non-empty remainder.
pub proof fn lemma_nbytes_at_eof(n: usize, buffer: Seq<u8>)
    ensures
        buffer.len() < n ==> (NBytes(n)).spec_find(buffer, false) is None,
        0 < buffer.len() < n ==> (NBytes(n)).spec_find(buffer, true) == Some(
            (0int, buffer.len() as int),
        ),
        buffer.len() == 0 ==> (NBytes(n)).spec_find(buffer, true) is None || n == 0,
{
}

} // verus!
