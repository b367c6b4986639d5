//! How a stream's bytes are meant to be read.

use vstd::prelude::*;

verus! {

/// The encoding a caller declares for a child's output.  The reader itself
/// treats every byte as one character; the declaration is carried for callers
/// that post-process the text.
#[derive(Debug, PartialEq, Eq, Clone, Copy, Structural)]
pub enum Encoding {
    ASCII,
    UTF8,
}

impl Default for Encoding {
    fn default() -> (r: Self)
        ensures
            r == Encoding::UTF8,
    {
        Encoding::UTF8
    }
}

} // verus!
