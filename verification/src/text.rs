//! The byte/character model of the stream.
//!
//! The reader stores the child's output as raw bytes; the public API speaks
//! `String`.  Each byte corresponds to exactly one character with the same
//! code point (the Latin-1 embedding), so the two views convert losslessly in
//! both directions as long as every character is below 256.

use vstd::prelude::*;
use vstd::string::StrSliceExecFns;

verus! {

/// The characters that a byte sequence reads as, one per byte.
pub open spec fn chars_of(b: Seq<u8>) -> Seq<char> {
    Seq::new(b.len(), |i: int| b[i] as char)
}

/// The bytes that a character sequence writes as, one per character;
/// faithful only where `is_latin1` holds.
pub open spec fn latin1_of(s: Seq<char>) -> Seq<u8> {
    Seq::new(s.len(), |i: int| s[i] as u8)
}

/// Every character has a code point that fits in one byte.
pub open spec fn is_latin1(s: Seq<char>) -> bool {
    forall|i: int| 0 <= i < s.len() ==> #[trigger] (s[i] as u32) <= 255
}

pub proof fn lemma_chars_of_round_trip(b: Seq<u8>)
    ensures
        is_latin1(chars_of(b)),
        latin1_of(chars_of(b)) =~= b,
{
}

/// A character whose code point fits in a byte survives the byte round trip.
/// (Stated of one character at a time: the fact is needed where an executable
/// character value is in hand.)
pub proof fn lemma_byte_char_round_trip(c: char)
    requires
        (c as u32) <= 255,
    ensures
        (c as u8) as char == c,
{
    assert(c as u32 as int == c as int);
    assert(c as int <= 255);
    assert(c as u8 as int == c as int);
    let d = (c as u8) as char;
    assert(d as int == c as u8 as int);
    assert(d as u32 as int == d as int);
    assert(d as u32 == c as u32);
    vstd::utf8::char_u32_cast(c, c as u32);
    vstd::utf8::char_u32_cast(d, d as u32);
    assert(d == c);
}

/// Relies on `String::push`: appends exactly the given character.
pub assume_specification[ String::push ](s: &mut String, c: char)
    ensures
        final(s)@ == old(s)@.push(c),
;

/// Read a byte slice as the string of its per-byte characters.
pub fn latin1_string(b: &[u8]) -> (s: String)
    ensures
        s@ == chars_of(b@),
        is_latin1(s@),
{
    let mut s = String::new();
    let mut i: usize = 0;
    while i < b.len()
        invariant
            i <= b@.len(),
            s@ == chars_of(b@.subrange(0, i as int)),
        decreases b@.len() - i,
    {
        let c = b[i] as char;
        s.push(c);
        proof {
            assert(chars_of(b@.subrange(0, i as int)).push(b@[i as int] as char) =~= chars_of(
                b@.subrange(0, i + 1),
            ));
        }
        i = i + 1;
    }
    proof {
        assert(b@.subrange(0, b@.len() as int) =~= b@);
        lemma_chars_of_round_trip(b@);
    }
    s
}

/// Write a string as one byte per character, or report that some character
/// does not fit in a byte.
pub fn str_latin1_bytes(s: &str) -> (r: Option<Vec<u8>>)
    ensures
        match r {
            Some(v) => is_latin1(s@) && v@ == latin1_of(s@) && chars_of(v@) == s@,
            None => !is_latin1(s@),
        },
{
    let n = s.unicode_len();
    let mut v: Vec<u8> = Vec::new();
    let mut i: usize = 0;
    while i < n
        invariant
            i <= n,
            n == s@.len(),
            is_latin1(s@.subrange(0, i as int)),
            v@ == latin1_of(s@.subrange(0, i as int)),
            chars_of(v@) == s@.subrange(0, i as int),
        decreases n - i,
    {
        let c = s.get_char(i);
        if !((c as u32) <= 255) {
            proof {
                assert(s@[i as int] as u32 > 255);
            }
            return None;
        }
        v.push(c as u8);
        proof {
            assert(latin1_of(s@.subrange(0, i as int)).push(s@[i as int] as u8) =~= latin1_of(
                s@.subrange(0, i + 1),
            ));
            assert forall|j: int| 0 <= j < i + 1 implies #[trigger] (s@.subrange(0, i + 1)[j]
                as u32) <= 255 by {
                if j < i {
                    assert((s@.subrange(0, i as int)[j] as u32) <= 255);
                }
            }
            lemma_byte_char_round_trip(c);
            assert(chars_of(v@) =~= s@.subrange(0, i + 1));
        }
        i = i + 1;
    }
    proof {
        assert(s@.subrange(0, n as int) =~= s@);
    }
    Some(v)
}

/// Build the string of a character range.
pub fn chars_to_string(v: &Vec<char>, from: usize, to: usize) -> (s: String)
    requires
        from <= to <= v@.len(),
    ensures
        s@ == v@.subrange(from as int, to as int),
{
    let mut s = String::new();
    let mut i: usize = from;
    while i < to
        invariant
            from <= i <= to <= v@.len(),
            s@ == v@.subrange(from as int, i as int),
        decreases to - i,
    {
        s.push(v[i]);
        proof {
            assert(v@.subrange(from as int, i as int).push(v@[i as int]) =~= v@.subrange(
                from as int,
                i + 1,
            ));
        }
        i = i + 1;
    }
    s
}

/// Collect a string's characters.
pub fn str_chars(s: &str) -> (v: Vec<char>)
    ensures
        v@ == s@,
{
    let n = s.unicode_len();
    let mut v: Vec<char> = Vec::new();
    let mut i: usize = 0;
    while i < n
        invariant
            i <= n,
            n == s@.len(),
            v@ == s@.subrange(0, i as int),
        decreases n - i,
    {
        v.push(s.get_char(i));
        proof {
            assert(s@.subrange(0, i as int).push(s@[i as int]) =~= s@.subrange(0, i + 1));
        }
        i = i + 1;
    }
    proof {
        assert(s@.subrange(0, n as int) =~= s@);
    }
    v
}

/// How one character is shown inside a timeout report: line breaks and the
/// escape character are replaced by printable markers.
pub open spec fn sanitize_char(c: char) -> Seq<char> {
    if c == '\n' {
        seq!['`', '\\', 'n', '`', '\n']
    } else if c == '\r' {
        seq!['`', '\\', 'r', '`']
    } else if c == '\u{1b}' {
        seq!['`', '^', '`']
    } else {
        seq![c]
    }
}

/// The sanitized form of a whole character sequence.
pub open spec fn sanitized(s: Seq<char>) -> Seq<char>
    decreases s.len(),
{
    if s.len() == 0 {
        Seq::empty()
    } else {
        sanitize_char(s[0]) + sanitized(s.drop_first())
    }
}

pub proof fn lemma_sanitized_push(s: Seq<char>, c: char)
    ensures
        sanitized(s.push(c)) == sanitized(s) + sanitize_char(c),
    decreases s.len(),
{
    if s.len() == 0 {
        assert(s.push(c)[0] == c);
        assert(s.push(c).drop_first() =~= Seq::<char>::empty());
        assert(sanitized(s.push(c)) == sanitize_char(c) + sanitized(Seq::<char>::empty()));
        assert(sanitized(Seq::<char>::empty()) == Seq::<char>::empty());
        assert(sanitize_char(c) + Seq::<char>::empty() =~= sanitize_char(c));
        assert(sanitized(s) + sanitize_char(c) =~= sanitize_char(c));
    } else {
        assert(s.push(c).drop_first() =~= s.drop_first().push(c));
        lemma_sanitized_push(s.drop_first(), c);
        assert(sanitize_char(s[0]) + (sanitized(s.drop_first()) + sanitize_char(c))
            =~= (sanitize_char(s[0]) + sanitized(s.drop_first())) + sanitize_char(c));
    }
}

/// Render a byte buffer for a timeout report, replacing line breaks and the
/// escape character with printable markers.
pub fn sanitize(b: &[u8]) -> (s: String)
    ensures
        s@ == sanitized(chars_of(b@)),
{
    let mut s = String::new();
    let mut i: usize = 0;
    while i < b.len()
        invariant
            i <= b@.len(),
            s@ == sanitized(chars_of(b@.subrange(0, i as int))),
        decreases b@.len() - i,
    {
        let c = b[i] as char;
        if c == '\n' {
            s.push('`');
            s.push('\\');
            s.push('n');
            s.push('`');
            s.push('\n');
        } else if c == '\r' {
            s.push('`');
            s.push('\\');
            s.push('r');
            s.push('`');
        } else if c == '\u{1b}' {
            s.push('`');
            s.push('^');
            s.push('`');
        } else {
            s.push(c);
        }
        proof {
            let pre = chars_of(b@.subrange(0, i as int));
            lemma_sanitized_push(pre, c);
            assert(pre.push(c) =~= chars_of(b@.subrange(0, i + 1)));
            assert(s@ =~= sanitized(pre) + sanitize_char(c));
        }
        i = i + 1;
    }
    proof {
        assert(b@.subrange(0, b@.len() as int) =~= b@);
    }
    s
}

/// Decimal digits of a number, most significant first.
pub open spec fn spec_decimal(n: nat) -> Seq<char>
    decreases n,
{
    let digit = ((n % 10) as u8 + ('0' as u8)) as char;
    if n < 10 {
        seq![digit]
    } else {
        spec_decimal(n / 10).push(digit)
    }
}

/// Render a number in decimal.
pub fn u64_decimal(n: u64) -> (s: String)
    ensures
        s@ == spec_decimal(n as nat),
{
    let mut digits: Vec<char> = Vec::new();
    let mut rest: u64 = n;
    proof {
        assert(spec_decimal(n as nat) + digits@ =~= spec_decimal(n as nat));
    }
    loop
        invariant
            spec_decimal(n as nat) == spec_decimal(rest as nat) + digits@,
        decreases rest,
    {
        let d = ((rest % 10) as u8 + ('0' as u8)) as char;
        if rest < 10 {
            let mut s = String::new();
            s.push(d);
            let mut i: usize = 0;
            while i < digits.len()
                invariant
                    i <= digits@.len(),
                    s@ == seq![d] + digits@.subrange(0, i as int),
                decreases digits@.len() - i,
            {
                s.push(digits[i]);
                proof {
                    assert((seq![d] + digits@.subrange(0, i as int)).push(digits@[i as int])
                        =~= seq![d] + digits@.subrange(0, i + 1));
                }
                i = i + 1;
            }
            proof {
                assert(digits@.subrange(0, digits@.len() as int) =~= digits@);
                assert(spec_decimal(rest as nat) =~= seq![d]);
                assert(seq![d] + digits@ =~= spec_decimal(n as nat));
            }
            return s;
        }
        let ghost prev = rest;
        digits.insert(0, d);
        rest = rest / 10;
        proof {
            assert(spec_decimal(prev as nat) == spec_decimal(rest as nat).push(d));
            assert(spec_decimal(rest as nat).push(d) + digits@.drop_first() =~= spec_decimal(
                rest as nat,
            ) + digits@);
        }
    }
}

} // verus!
