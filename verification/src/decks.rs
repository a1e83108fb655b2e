//! Resolving an operator-supplied deck name to the decks an operation
//! targets, under Unicode case-insensitive matching.
//!
//! Two lookup policies exist, chosen by an explicit mode:
//! - `Substring`: every deck whose name contains the query anywhere;
//!   more than one match is an ambiguity the operator must resolve.
//! - `Subtree`: the deck named exactly like the query plus all its
//!   descendants (names extending the query with the hierarchy
//!   delimiter). The whole matched set is the scope; when no deck bears
//!   the exact name but descendants exist, the descendants alone form
//!   the scope.

use vstd::prelude::*;
use crate::casefold::contains_seq;
use crate::casefold::fold_case;
use crate::casefold::fold_of;
use crate::casefold::is_prefix_of;
use crate::casefold::str_contains;
use crate::casefold::str_is_prefix;
use crate::utils::deck_delimiter;
use crate::utils::display_form;
use crate::utils::replace_deck_delimiter;

verus! {

/// One row of the deck table: a stable id and the stored hierarchical name.
#[derive(Debug, PartialEq)]
pub struct DeckRow {
    pub id: i64,
    pub name: String,
}

/// Which lookup policy a resolution uses.
#[derive(Clone, Copy, PartialEq, Eq, Structural, Debug)]
pub enum ResolveMode {
    Substring,
    Subtree,
}

/// The name contains the query anywhere, compared case-folded.
pub open spec fn substring_match(name: Seq<char>, query: Seq<char>) -> bool {
    contains_seq(fold_of(name), fold_of(query))
}

/// The name equals the query, or extends it with the hierarchy
/// delimiter, compared case-folded.
pub open spec fn subtree_match(name: Seq<char>, query: Seq<char>) -> bool {
    ||| fold_of(name) == fold_of(query)
    ||| is_prefix_of(fold_of(query + seq![deck_delimiter()]), fold_of(name))
}

pub open spec fn deck_matches(d: DeckRow, query: Seq<char>, mode: ResolveMode) -> bool {
    match mode {
        ResolveMode::Substring => substring_match(d.name@, query),
        ResolveMode::Subtree => subtree_match(d.name@, query),
    }
}

/// The decks of the table that match the query under `mode`, in table order.
pub open spec fn decks_matching(decks: Seq<DeckRow>, query: Seq<char>, mode: ResolveMode) -> Seq<
    DeckRow,
>
    decreases decks.len(),
{
    if decks.len() == 0 {
        Seq::empty()
    } else {
        let rest = decks_matching(decks.drop_last(), query, mode);
        if deck_matches(decks.last(), query, mode) {
            rest.push(decks.last())
        } else {
            rest
        }
    }
}

/// Lists every deck matching the query under the given policy, keeping
/// table order.
pub fn find_matching_decks(decks: &Vec<DeckRow>, query: &str, mode: ResolveMode) -> (r: Vec<
    DeckRow,
>)
    ensures
        r@ == decks_matching(decks@, query@, mode),
{
    let fq = fold_case(query);
    let mut qd = String::new();
    qd.append(query);
    qd.push('\u{001F}');
    proof {
        assert(qd@ =~= query@ + seq![deck_delimiter()]);
    }
    let fqd = fold_case(qd.as_str());
    let mut out: Vec<DeckRow> = Vec::new();
    let mut i: usize = 0;
    while i < decks.len()
        invariant
            i <= decks@.len(),
            fq@ == fold_of(query@),
            fqd@ == fold_of(query@ + seq![deck_delimiter()]),
            out@ == decks_matching(decks@.subrange(0, i as int), query@, mode),
        decreases decks@.len() - i,
    {
        let d = &decks[i];
        let fname = fold_case(d.name.as_str());
        let hit = match mode {
            ResolveMode::Substring => str_contains(fname.as_str(), fq.as_str()),
            ResolveMode::Subtree => fname == fq || str_is_prefix(fqd.as_str(), fname.as_str()),
        };
        if hit {
            let nd = DeckRow { id: d.id, name: d.name.clone() };
            assert(nd == decks@[i as int]);
            out.push(nd);
        }
        proof {
            let pre = decks@.subrange(0, i as int);
            let cur = decks@.subrange(0, i + 1);
            assert(cur.drop_last() =~= pre);
            assert(cur.last() == decks@[i as int]);
        }
        i = i + 1;
    }
    proof {
        assert(decks@.subrange(0, decks@.len() as int) =~= decks@);
    }
    out
}

/// Why a deck lookup produced no scope.
#[derive(Debug)]
pub enum ResolveError {
    /// Nothing matched the query.
    NotFound,
    /// Several decks matched a substring query; the operator must pick
    /// one. Carries every candidate's human-readable name.
    Ambiguous(Vec<String>),
}

/// Resolves a deck query to the scope of decks an operation targets.
///
/// Substring mode accepts exactly one match and reports several as an
/// ambiguity, enumerating every candidate in readable form. Subtree
/// mode accepts the whole matched set.
pub fn resolve_decks(decks: &Vec<DeckRow>, query: &str, mode: ResolveMode) -> (r: Result<
    Vec<DeckRow>,
    ResolveError,
>)
    ensures
        ({
            let ms = decks_matching(decks@, query@, mode);
            match r {
                Ok(sel) => sel@ == ms && ms.len() >= 1 && (mode == ResolveMode::Substring
                    ==> ms.len() == 1),
                Err(e) => match e {
                    ResolveError::NotFound => ms.len() == 0,
                    ResolveError::Ambiguous(c) => {
                        &&& mode == ResolveMode::Substring
                        &&& ms.len() > 1
                        &&& c@.len() == ms.len()
                        &&& forall|i: int|
                            0 <= i < ms.len() ==> c@[i]@ == display_form(ms[i].name@)
                    },
                },
            }
        }),
{
    let ms = find_matching_decks(decks, query, mode);
    if ms.len() == 0 {
        return Err(ResolveError::NotFound);
    }
    match mode {
        ResolveMode::Subtree => Ok(ms),
        ResolveMode::Substring => {
            if ms.len() == 1 {
                Ok(ms)
            } else {
                let mut candidates: Vec<String> = Vec::new();
                let mut i: usize = 0;
                while i < ms.len()
                    invariant
                        i <= ms@.len(),
                        candidates@.len() == i,
                        forall|k: int|
                            0 <= k < i ==> candidates@[k]@ == display_form(ms@[k].name@),
                    decreases ms@.len() - i,
                {
                    candidates.push(replace_deck_delimiter(ms[i].name.as_str()));
                    i = i + 1;
                }
                Err(ResolveError::Ambiguous(candidates))
            }
        },
    }
}

} // verus!
