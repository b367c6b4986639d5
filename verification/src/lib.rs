//! Drive interactive terminal programs from Rust.
//!
//! The crate's core is a pattern-driven reader: a buffer is fed from a channel
//! of byte events, and `read_until` waits for a needle — a literal, a regular
//! expression, a byte count, end-of-stream, or an ordered alternation — to
//! appear in the buffered output, with an optional per-call timeout.  A stream
//! session couples that reader with a byte sink and offers `send`/`exp_*`
//! operations; a REPL session adds prompt synchronization.
//!
//! Everything that decides or computes lives here with a contract; opening the
//! pseudo-terminal, forking the child and pumping its output into the channel
//! are left to the embedding program.

use vstd::prelude::*;
use vstd::string::StringExecFns;

pub mod encoding;
pub mod find;
pub mod process;
pub mod reader;
pub mod session;
pub mod text;
pub mod tokenize;

pub use crate::session::spawn_stream;
pub use crate::tokenize::spawn_args;

verus! {

/// Everything that can go wrong while driving a child's stream.
///
/// Low-level causes from the operating system are carried as rendered text in
/// `context` fields; the structured fields (`expected`, `got`, the timeout)
/// are what the reader's contracts speak about.
#[derive(Debug)]
pub enum Error {
    /// The write side of the stream is unusable, typically because the child
    /// died mid-write.
    BrokenPipe,
    /// An empty command was handed to the spawn helpers.
    EmptyProgramName,
    /// A low-level read or write failure, with a description of what was
    /// attempted.
    IOError { context: String },
    /// A pseudo-terminal operation failed, with a description of what was
    /// attempted.
    PtyError { context: String },
    /// An invalid pattern was handed to `exp_regex`.
    RegexError { pattern: String, cause: String },
    /// The stream ended before the needle was found.  `exit_code` starts out
    /// empty and is filled in with the child's rendered exit status where a
    /// child is attached.
    EOF { expected: String, got: String, exit_code: Option<String> },
    /// The needle was not found within the allowed time.
    Timeout { expected: String, got: String, timeout_ms: u64 },
    /// `send_control` was given a character with no control code.
    UnknownControlChar(char),
}

impl Error {
    /// A one-line rendering of the error, for reports and logs.
    pub fn describe(&self) -> String {
        match self {
            Error::BrokenPipe => String::from_str("PipeError"),
            Error::EmptyProgramName => String::from_str("EmptyProgramName"),
            Error::IOError { context } => {
                let mut s = String::from_str("There was an IO error. ");
                s.append(context.as_str());
                s
            },
            Error::PtyError { context } => {
                let mut s = String::from_str("There was a pty error. ");
                s.append(context.as_str());
                s
            },
            Error::RegexError { pattern, cause } => {
                let mut s = String::from_str("Invalid regular expression. ");
                s.append(pattern.as_str());
                s.append(": ");
                s.append(cause.as_str());
                s
            },
            Error::EOF { expected, got, exit_code } => {
                let mut s = String::from_str("EOF (End of File): Expected ");
                s.append(expected.as_str());
                s.append(" but got EOF after reading \"");
                s.append(got.as_str());
                s.append("\", process terminated with ");
                match exit_code {
                    Some(code) => s.append(code.as_str()),
                    None => s.append("unknown"),
                }
                s
            },
            Error::Timeout { expected, got, timeout_ms } => {
                let mut s = String::from_str("Timeout Error: Expected ");
                s.append(expected.as_str());
                s.append(" but got \"");
                s.append(got.as_str());
                s.append("\" (after waiting ");
                s.append(crate::text::u64_decimal(*timeout_ms).as_str());
                s.append(" ms)");
                s
            },
            Error::UnknownControlChar(c) => {
                let mut s = String::from_str("Unknown Control Character Ctrl-");
                s.push(*c);
                s
            },
        }
    }
}

} // verus!
