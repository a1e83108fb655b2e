//! Unicode case-insensitive comparison, and plain sequence matching on
//! the folded text.
//!
//! Matching deck names must fold case beyond ASCII ("Ä" matches "ä"),
//! so equality, prefix and substring tests all go through the folded
//! form of both sides.

use vstd::prelude::*;
use vstd::string::StrSliceExecFns;

verus! {

/// The Unicode case-folded form of a character sequence, as computed by
/// the unicase crate. Two strings compare equal ignoring case exactly
/// when their folded forms are equal.
pub uninterp spec fn fold_of(s: Seq<char>) -> Seq<char>;

/// Relies on unicase: `UniCase::new(s).to_folded_case()` maps each
/// character to its Unicode case folding (ASCII lowercasing on all-ASCII
/// strings); the result depends on the characters alone.
#[verifier::external_body]
pub(crate) fn fold_case(s: &str) -> (r: String)
    ensures
        r@ == fold_of(s@),
{
    unicase::UniCase::new(s).to_folded_case()
}

/// `p` is an initial run of `s`.
pub open spec fn is_prefix_of(p: Seq<char>, s: Seq<char>) -> bool {
    p.len() <= s.len() && p == s.subrange(0, p.len() as int)
}

/// `n` occurs in `h` starting at position `i`.
pub open spec fn occurs_at(h: Seq<char>, n: Seq<char>, i: int) -> bool {
    0 <= i && i + n.len() <= h.len() && n == h.subrange(i, i + n.len())
}

/// `n` occurs somewhere in `h` as a contiguous run.
pub open spec fn contains_seq(h: Seq<char>, n: Seq<char>) -> bool {
    exists|i: int| occurs_at(h, n, i)
}

/// Whether `n` occurs in `h` starting at `i`.
fn occurs_at_exec(h: &str, n: &str, i: usize) -> (r: bool)
    requires
        h@.len() <= usize::MAX,
        i + n@.len() <= h@.len(),
    ensures
        r == occurs_at(h@, n@, i as int),
{
    let nl = n.unicode_len();
    let mut j: usize = 0;
    while j < nl
        invariant
            j <= nl,
            nl == n@.len(),
            i + nl <= h@.len(),
            h@.len() <= usize::MAX,
            forall|k: int| 0 <= k < j ==> n@[k] == h@[i + k],
        decreases nl - j,
    {
        if n.get_char(j) != h.get_char(i + j) {
            assert(n@[j as int] != h@.subrange(i as int, i + nl)[j as int]);
            return false;
        }
        j = j + 1;
    }
    proof {
        assert(n@ =~= h@.subrange(i as int, i + nl));
    }
    true
}

/// Whether `n` occurs anywhere in `h`.
pub fn str_contains(h: &str, n: &str) -> (r: bool)
    ensures
        r == contains_seq(h@, n@),
{
    let hl = h.unicode_len();
    let nl = n.unicode_len();
    if nl > hl {
        assert(forall|i: int| !occurs_at(h@, n@, i));
        return false;
    }
    if nl == 0 {
        assert(occurs_at(h@, n@, 0)) by {
            assert(n@ =~= h@.subrange(0, 0));
        }
        return true;
    }
    let mut i: usize = 0;
    while i <= hl - nl
        invariant
            1 <= nl <= hl,
            hl == h@.len(),
            nl == n@.len(),
            i <= hl - nl + 1,
            forall|k: int| 0 <= k < i ==> !occurs_at(h@, n@, k),
        decreases hl - nl + 1 - i,
    {
        if occurs_at_exec(h, n, i) {
            return true;
        }
        i = i + 1;
    }
    assert(forall|k: int| !occurs_at(h@, n@, k));
    false
}

/// Whether `p` is an initial run of `s`.
pub fn str_is_prefix(p: &str, s: &str) -> (r: bool)
    ensures
        r == is_prefix_of(p@, s@),
{
    let pl = p.unicode_len();
    let sl = s.unicode_len();
    if pl > sl {
        return false;
    }
    occurs_at_exec(s, p, 0)
}

} // verus!
