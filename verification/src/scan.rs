//! Substring search over `&str`, with a specification of the first
//! occurrence that the parsing functions build on.

use vstd::prelude::*;

verus! {

/// `pat` occurs in `s` starting at index `i`.
pub open spec fn contains_at(s: Seq<char>, pat: Seq<char>, i: int) -> bool {
    0 <= i && i + pat.len() <= s.len() && s.subrange(i, i + pat.len()) == pat
}

/// Index of the first occurrence of `pat` in `s`, or `None` when `pat`
/// does not occur in `s`.
pub open spec fn spec_find(s: Seq<char>, pat: Seq<char>) -> Option<int>
    decreases s.len(),
{
    if pat.len() > s.len() {
        None
    } else if s.subrange(0, pat.len() as int) == pat {
        Some(0)
    } else if s.len() == 0 {
        None
    } else {
        match spec_find(s.subrange(1, s.len() as int), pat) {
            None => None,
            Some(i) => Some(i + 1),
        }
    }
}

/// `spec_find` returns exactly the first occurrence: a `Some(i)` is an
/// occurrence with none before it, and a `None` means no occurrence at all.
pub proof fn lemma_spec_find(s: Seq<char>, pat: Seq<char>)
    ensures
        match spec_find(s, pat) {
            Some(i) => contains_at(s, pat, i) && (forall|j: int| 0 <= j < i ==> !contains_at(
                s,
                pat,
                j,
            )),
            None => forall|j: int| !contains_at(s, pat, j),
        },
    decreases s.len(),
{
    if pat.len() > s.len() {
        assert(forall|j: int| !contains_at(s, pat, j));
    } else if s.subrange(0, pat.len() as int) == pat {
        assert(contains_at(s, pat, 0));
    } else if s.len() == 0 {
        assert(forall|j: int| !contains_at(s, pat, j));
    } else {
        let tail = s.subrange(1, s.len() as int);
        lemma_spec_find(tail, pat);
        assert forall|j: int| 1 <= j implies contains_at(s, pat, j) == contains_at(
            tail,
            pat,
            j - 1,
        ) by {
            if 0 <= j - 1 && j - 1 + pat.len() <= tail.len() {
                assert(s.subrange(j, j + pat.len()) =~= tail.subrange(j - 1, j - 1 + pat.len()));
            }
        }
        assert(!contains_at(s, pat, 0));
        match spec_find(tail, pat) {
            None => {
                assert forall|j: int| !contains_at(s, pat, j) by {
                    if 1 <= j {
                        assert(!contains_at(tail, pat, j - 1));
                    }
                }
            },
            Some(i) => {
                assert(contains_at(tail, pat, i));
                assert(contains_at(s, pat, i + 1));
                assert forall|j: int| 0 <= j < i + 1 implies !contains_at(s, pat, j) by {
                    if 1 <= j {
                        assert(!contains_at(tail, pat, j - 1));
                    }
                }
            },
        }
    }
}

/// `pat` compares equal to `s` at position `i`, character by character.
fn match_at(s: &str, pat: &str, i: usize, m: usize) -> (r: bool)
    requires
        m == pat@.len(),
        i + m <= s@.len(),
        s@.len() <= usize::MAX,
    ensures
        r == contains_at(s@, pat@, i as int),
{
    let mut k: usize = 0;
    while k < m
        invariant
            m == pat@.len(),
            i + m <= s@.len(),
            s@.len() <= usize::MAX,
            0 <= k <= m,
            forall|t: int| 0 <= t < k ==> s@[i + t] == pat@[t],
        decreases m - k,
    {
        if s.get_char(i + k) != pat.get_char(k) {
            proof {
                if contains_at(s@, pat@, i as int) {
                    assert(s@.subrange(i as int, i + pat@.len())[k as int] == pat@[k as int]);
                }
            }
            return false;
        }
        k += 1;
    }
    proof {
        assert(s@.subrange(i as int, i + pat@.len()) =~= pat@);
    }
    true
}

/// First occurrence of `pat` in `s`, scanning left to right.
pub fn find_str(s: &str, pat: &str) -> (r: Option<usize>)
    ensures
        match r {
            Some(i) => spec_find(s@, pat@) == Some(i as int),
            None => spec_find(s@, pat@) is None,
        },
{
    let n = s.unicode_len();
    let m = pat.unicode_len();
    proof {
        lemma_spec_find(s@, pat@);
    }
    if m > n {
        return None;
    }
    if m == 0 {
        proof {
            assert(s@.subrange(0, 0) =~= pat@);
        }
        return Some(0);
    }
    let mut i: usize = 0;
    while i <= n - m
        invariant
            n == s@.len(),
            m == pat@.len(),
            0 < m <= n,
            i <= n - m + 1,
            forall|j: int| 0 <= j < i ==> !contains_at(s@, pat@, j),
        decreases n - i,
    {
        if match_at(s, pat, i, m) {
            proof {
                lemma_spec_find(s@, pat@);
                match spec_find(s@, pat@) {
                    Some(f) => {
                        if f < i {
                            assert(!contains_at(s@, pat@, f));
                        }
                        if f > i {
                            assert(!contains_at(s@, pat@, i as int));
                        }
                    },
                    None => {
                        assert(!contains_at(s@, pat@, i as int));
                    },
                }
            }
            return Some(i);
        }
        i += 1;
    }
    proof {
        lemma_spec_find(s@, pat@);
        assert forall|j: int| !contains_at(s@, pat@, j) by {
            if 0 <= j && j + pat@.len() <= s@.len() {
                assert(j < i);
            }
        }
    }
    None
}

} // verus!
