//! Splitting a command line into program and arguments.
//!
//! Tokens are runs of characters without spaces or quotes, or single- or
//! double-quoted groups with a non-empty body (the quotes stay part of the
//! token).  A quote that never closes, or closes at once, is skipped and the
//! scan resumes one character later — the earliest well-formed token wins.
//! Escaping inside quotes and nested quotes are not supported; callers that
//! need richer parsing assemble the argument list themselves.

use vstd::prelude::*;
use crate::Error;
use crate::text::chars_to_string;
use crate::text::str_chars;

verus! {

/// A character that can stand inside an unquoted token.
pub open spec fn is_plain_char(c: char) -> bool {
    c != ' ' && c != '\'' && c != '"'
}

/// The first position at or after `from` holding `c`, if any.
pub open spec fn first_index_of(s: Seq<char>, from: int, c: char) -> Option<int>
    decreases s.len() - from when 0 <= from <= s.len()
{
    if from >= s.len() {
        None
    } else if s[from] == c {
        Some(from)
    } else {
        first_index_of(s, from + 1, c)
    }
}

pub proof fn lemma_first_index_of(s: Seq<char>, from: int, c: char)
    requires
        0 <= from <= s.len(),
    ensures
        match first_index_of(s, from, c) {
            Some(j) => from <= j < s.len() && s[j] == c && forall|k: int|
                from <= k < j ==> s[k] != c,
            None => forall|k: int| from <= k < s.len() ==> s[k] != c,
        },
    decreases s.len() - from,
{
    if from >= s.len() {
    } else if s[from] == c {
    } else {
        lemma_first_index_of(s, from + 1, c);
    }
}

/// Where the run of plain characters beginning at `from` ends.
pub open spec fn plain_run_end(s: Seq<char>, from: int) -> int
    decreases s.len() - from when 0 <= from <= s.len()
{
    if from >= s.len() {
        from
    } else if is_plain_char(s[from]) {
        plain_run_end(s, from + 1)
    } else {
        from
    }
}

pub proof fn lemma_plain_run_end(s: Seq<char>, from: int)
    requires
        0 <= from <= s.len(),
    ensures
        from <= plain_run_end(s, from) <= s.len(),
        forall|k: int| from <= k < plain_run_end(s, from) ==> is_plain_char(s[k]),
        plain_run_end(s, from) < s.len() ==> !is_plain_char(s[plain_run_end(s, from)]),
    decreases s.len() - from,
{
    if from < s.len() && is_plain_char(s[from]) {
        lemma_plain_run_end(s, from + 1);
    }
}

/// The tokens of `s` from position `i` on.  At a quote, the token runs to
/// the earliest closing quote and keeps both quotes, provided the body is
/// non-empty; otherwise the quote is skipped.  At a space, the scan moves
/// on.  At any other character, the token is the run of plain characters.
pub open spec fn spec_tokens_from(s: Seq<char>, i: int) -> Seq<Seq<char>>
    decreases s.len() - i when 0 <= i <= s.len() via spec_tokens_from_decreases
{
    if i >= s.len() {
        Seq::empty()
    } else if s[i] == '"' || s[i] == '\'' {
        match first_index_of(s, i + 1, s[i]) {
            Some(j) => {
                if j > i + 1 {
                    seq![s.subrange(i, j + 1)] + spec_tokens_from(s, j + 1)
                } else {
                    spec_tokens_from(s, i + 1)
                }
            },
            None => spec_tokens_from(s, i + 1),
        }
    } else if s[i] == ' ' {
        spec_tokens_from(s, i + 1)
    } else {
        seq![s.subrange(i, plain_run_end(s, i + 1))] + spec_tokens_from(
            s,
            plain_run_end(s, i + 1),
        )
    }
}

#[via_fn]
proof fn spec_tokens_from_decreases(s: Seq<char>, i: int) {
    if 0 <= i < s.len() {
        if s[i] == '"' || s[i] == '\'' {
            lemma_first_index_of(s, i + 1, s[i]);
        } else if s[i] != ' ' {
            lemma_plain_run_end(s, i + 1);
        }
    }
}

/// The tokens of a whole command line.
pub open spec fn spec_tokenize(s: Seq<char>) -> Seq<Seq<char>> {
    spec_tokens_from(s, 0)
}

/// Search a character vector for the first `c` at or after `from`.
fn find_char(chars: &Vec<char>, from: usize, c: char) -> (r: Option<usize>)
    requires
        from <= chars@.len(),
    ensures
        match r {
            Some(j) => first_index_of(chars@, from as int, c) == Some(j as int) && from <= j
                < chars@.len(),
            None => first_index_of(chars@, from as int, c) is None,
        },
{
    let mut k = from;
    while k < chars.len()
        invariant
            from <= k <= chars@.len(),
            first_index_of(chars@, from as int, c) == first_index_of(chars@, k as int, c),
        decreases chars@.len() - k,
    {
        if chars[k] == c {
            return Some(k);
        }
        k = k + 1;
    }
    None
}

/// The end of the run of plain characters beginning at `from`.
fn plain_end(chars: &Vec<char>, from: usize) -> (r: usize)
    requires
        from <= chars@.len(),
    ensures
        r as int == plain_run_end(chars@, from as int),
        from <= r <= chars@.len(),
{
    proof {
        lemma_plain_run_end(chars@, from as int);
    }
    let mut k = from;
    loop
        invariant
            from <= k <= chars@.len(),
            plain_run_end(chars@, from as int) == plain_run_end(chars@, k as int),
        decreases chars@.len() - k,
    {
        if k >= chars.len() {
            return k;
        }
        let c = chars[k];
        if c == ' ' || c == '\'' || c == '"' {
            return k;
        }
        k = k + 1;
    }
}

/// Split a command line into its tokens, e.g. `prog arg1 arg2` into
/// `["prog", "arg1", "arg2"]`, keeping single- or double-quoted groups (with
/// their quotes) as one token.
pub fn tokenize_command(program: &str) -> (r: Vec<String>)
    ensures
        r.deep_view() == spec_tokenize(program@),
{
    let chars = str_chars(program);
    let n = chars.len();
    let mut res: Vec<String> = Vec::new();
    proof {
        assert(res.deep_view() + spec_tokens_from(program@, 0) =~= spec_tokens_from(program@, 0));
    }
    let mut i: usize = 0;
    while i < n
        invariant
            n == chars@.len(),
            chars@ == program@,
            i <= n,
            spec_tokenize(program@) == res.deep_view() + spec_tokens_from(program@, i as int),
        decreases n - i,
    {
        let ghost old_dv = res.deep_view();
        let c = chars[i];
        if c == '"' || c == '\'' {
            match find_char(&chars, i + 1, c) {
                Some(j) => {
                    if j > i + 1 {
                        let tok = chars_to_string(&chars, i, j + 1);
                        res.push(tok);
                        proof {
                            assert(res.deep_view() =~= old_dv.push(tok@));
                            assert(old_dv.push(tok@) + spec_tokens_from(program@, j + 1)
                                =~= old_dv + (seq![tok@] + spec_tokens_from(program@, j + 1)));
                        }
                        i = j + 1;
                    } else {
                        i = i + 1;
                    }
                },
                None => {
                    i = i + 1;
                },
            }
        } else if c == ' ' {
            i = i + 1;
        } else {
            let e = plain_end(&chars, i + 1);
            let tok = chars_to_string(&chars, i, e);
            res.push(tok);
            proof {
                assert(res.deep_view() =~= old_dv.push(tok@));
                assert(old_dv.push(tok@) + spec_tokens_from(program@, e as int) =~= old_dv + (
                seq![tok@] + spec_tokens_from(program@, e as int)));
            }
            i = e;
        }
    }
    proof {
        assert(spec_tokens_from(program@, n as int) =~= Seq::<Seq<char>>::empty());
        assert(res.deep_view() + Seq::<Seq<char>>::empty() =~= res.deep_view());
    }
    res
}

/// Split a command line into the program and its arguments.  Fails with
/// `EmptyProgramName` exactly when the line holds no token at all.
pub fn spawn_args(program: &str) -> (r: Result<(String, Vec<String>), Error>)
    ensures
        match r {
            Ok((prog, args)) => {
                &&& spec_tokenize(program@).len() > 0
                &&& prog@ == spec_tokenize(program@)[0]
                &&& args.deep_view() == spec_tokenize(program@).drop_first()
            },
            Err(e) => e is EmptyProgramName && (program@.len() == 0 || spec_tokenize(
                program@,
            ).len() == 0),
        },
{
    if program.is_empty() {
        return Err(Error::EmptyProgramName);
    }
    let mut toks = tokenize_command(program);
    if toks.len() == 0 {
        proof {
            assert(spec_tokenize(program@).len() == toks.deep_view().len());
        }
        return Err(Error::EmptyProgramName);
    }
    let prog = toks.remove(0);
    proof {
        assert(toks.deep_view() =~= spec_tokenize(program@).drop_first());
    }
    Ok((prog, toks))
}

} // verus!
