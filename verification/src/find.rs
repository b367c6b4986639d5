//! First-occurrence substring search over byte sequences.
//!
//! The literal needle and the line reader both reduce to "the earliest index
//! where one byte sequence occurs inside another"; this module gives that
//! notion a specification, an executable search, and the lemmas relating the
//! two.

use vstd::prelude::*;

verus! {

/// `needle` occurs in `hay` starting at `i`.
pub open spec fn matches_at(hay: Seq<u8>, needle: Seq<u8>, i: int) -> bool {
    &&& 0 <= i
    &&& i + needle.len() <= hay.len()
    &&& hay.subrange(i, i + needle.len() as int) == needle
}

/// The earliest index where `needle` occurs in `hay`, if any.
pub open spec fn spec_find_first(hay: Seq<u8>, needle: Seq<u8>) -> Option<int>
    decreases hay.len(),
{
    if needle.len() > hay.len() {
        None
    } else if hay.subrange(0, needle.len() as int) == needle {
        Some(0)
    } else if hay.len() == 0 {
        None
    } else {
        match spec_find_first(hay.drop_first(), needle) {
            Some(i) => Some(i + 1),
            None => None,
        }
    }
}

/// An occurrence one step into `hay` is an occurrence in `hay.drop_first()`.
proof fn lemma_matches_at_shift(hay: Seq<u8>, needle: Seq<u8>, i: int)
    requires
        hay.len() > 0,
        i >= 1,
    ensures
        matches_at(hay, needle, i) == matches_at(hay.drop_first(), needle, i - 1),
{
    if 0 <= i - 1 && i - 1 + needle.len() <= hay.drop_first().len() {
        assert(hay.subrange(i, i + needle.len() as int) =~= hay.drop_first().subrange(
            i - 1,
            i - 1 + needle.len() as int,
        ));
    }
}

/// `spec_find_first` returns exactly the first occurrence: a hit is an
/// occurrence with none before it, and a miss means there is none at all.
pub proof fn lemma_find_first(hay: Seq<u8>, needle: Seq<u8>)
    ensures
        match spec_find_first(hay, needle) {
            Some(i) => matches_at(hay, needle, i) && forall|j: int|
                0 <= j < i ==> !matches_at(hay, needle, j),
            None => forall|j: int| !matches_at(hay, needle, j),
        },
    decreases hay.len(),
{
    if needle.len() > hay.len() {
        assert forall|j: int| !matches_at(hay, needle, j) by {}
    } else if hay.subrange(0, needle.len() as int) == needle {
        assert(matches_at(hay, needle, 0));
    } else if hay.len() == 0 {
        assert forall|j: int| !matches_at(hay, needle, j) by {
            if matches_at(hay, needle, j) {
                assert(hay.subrange(j, j + needle.len() as int) =~= hay.subrange(
                    0,
                    needle.len() as int,
                ));
            }
        }
    } else {
        lemma_find_first(hay.drop_first(), needle);
        match spec_find_first(hay.drop_first(), needle) {
            Some(i) => {
                lemma_matches_at_shift(hay, needle, i + 1);
                assert(matches_at(hay, needle, i + 1));
                assert forall|j: int| 0 <= j < i + 1 implies !matches_at(hay, needle, j) by {
                    if j == 0 {
                        if matches_at(hay, needle, 0) {
                            assert(hay.subrange(0, needle.len() as int) == needle);
                        }
                    } else {
                        lemma_matches_at_shift(hay, needle, j);
                    }
                }
            },
            None => {
                assert forall|j: int| !matches_at(hay, needle, j) by {
                    if j == 0 {
                        if matches_at(hay, needle, 0) {
                            assert(hay.subrange(0, needle.len() as int) == needle);
                        }
                    } else if j >= 1 {
                        lemma_matches_at_shift(hay, needle, j);
                    }
                }
            },
        }
    }
}

/// The first occurrence is no earlier than any occurrence.
pub proof fn lemma_find_first_some(hay: Seq<u8>, needle: Seq<u8>, i: int)
    requires
        matches_at(hay, needle, i),
        forall|j: int| 0 <= j < i ==> !matches_at(hay, needle, j),
    ensures
        spec_find_first(hay, needle) == Some(i),
{
    lemma_find_first(hay, needle);
    match spec_find_first(hay, needle) {
        Some(k) => {
            if k < i {
                assert(!matches_at(hay, needle, k));
            }
            if i < k {
                assert(!matches_at(hay, needle, i));
            }
        },
        None => {
            assert(!matches_at(hay, needle, i));
        },
    }
}

/// Search `hay` for the earliest occurrence of `needle`.
pub fn find_first(hay: &[u8], needle: &[u8]) -> (r: Option<usize>)
    ensures
        match r {
            Some(i) => spec_find_first(hay@, needle@) == Some(i as int),
            None => spec_find_first(hay@, needle@) is None,
        },
{
    if needle.len() > hay.len() {
        proof {
            lemma_find_first(hay@, needle@);
            match spec_find_first(hay@, needle@) {
                Some(k) => {
                    assert(matches_at(hay@, needle@, k));
                },
                None => {},
            }
        }
        return None;
    }
    let hlen = hay.len();
    let nlen = needle.len();
    let last = hlen - nlen;
    let mut i: usize = 0;
    while i <= last
        invariant
            hlen == hay@.len(),
            nlen == needle@.len(),
            nlen <= hlen,
            last == hlen - nlen,
            i <= last + 1,
            forall|j: int| 0 <= j < i ==> !matches_at(hay@, needle@, j),
        decreases last + 1 - i,
    {
        let mut k: usize = 0;
        let mut hit = true;
        while k < nlen
            invariant
                hlen == hay@.len(),
                nlen == needle@.len(),
                i + nlen <= hlen,
                k <= nlen,
                hit ==> forall|m: int| 0 <= m < k ==> hay@[i + m] == needle@[m],
                !hit ==> !matches_at(hay@, needle@, i as int),
            decreases nlen - k,
        {
            if hay[i + k] != needle[k] {
                proof {
                    if matches_at(hay@, needle@, i as int) {
                        assert(hay@.subrange(i as int, i + needle@.len() as int)[k as int]
                            == needle@[k as int]);
                    }
                }
                hit = false;
                k = nlen;
            } else {
                k = k + 1;
            }
        }
        if hit {
            proof {
                assert(hay@.subrange(i as int, i + needle@.len() as int) =~= needle@);
                lemma_find_first_some(hay@, needle@, i as int);
            }
            return Some(i);
        }
        proof {
            if needle@.len() == 0 {
                assert(hay@.subrange(i as int, i as int) =~= needle@);
                assert(matches_at(hay@, needle@, i as int));
            }
        }
        i = i + 1;
    }
    proof {
        lemma_find_first(hay@, needle@);
        match spec_find_first(hay@, needle@) {
            Some(k) => {
                assert(matches_at(hay@, needle@, k));
                assert(k <= last);
                assert(!matches_at(hay@, needle@, k));
            },
            None => {},
        }
    }
    None
}

} // verus!
