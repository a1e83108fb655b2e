//! Selecting the notes that were reviewed inside a millisecond window.
//!
//! A note qualifies when at least one of its cards lies in the deck
//! scope and owns a review-log entry whose identifier (its timestamp)
//! falls in the half-open window. The result is the qualifying note ids
//! in ascending order, optionally capped to the first few.

use vstd::prelude::*;

verus! {

/// One row of the card table.
#[derive(Clone, Copy, PartialEq, Eq, Structural, Debug)]
pub struct CardRow {
    pub id: i64,
    /// Owning note id.
    pub nid: i64,
    /// Owning deck id.
    pub did: i64,
    /// Last-modified time, epoch seconds.
    pub mod_secs: i64,
    /// Sync sequence marker; `-1` means "needs push".
    pub usn: i64,
}

/// One row of the review log: the id is the review's timestamp in epoch
/// milliseconds and also the primary key.
#[derive(Clone, Copy, PartialEq, Eq, Structural, Debug)]
pub struct RevlogRow {
    pub id: i64,
    /// Owning card id.
    pub cid: i64,
}

/// Which decks an operation touches: every deck, or a resolved set.
#[derive(Debug, PartialEq)]
pub enum Scope {
    All,
    Decks(Vec<i64>),
}

pub open spec fn scope_admits(scope: &Scope, did: i64) -> bool {
    match scope {
        Scope::All => true,
        Scope::Decks(ids) => ids@.contains(did),
    }
}

/// The review id falls in the half-open window.
pub open spec fn in_window(id: i64, start: i64, end: i64) -> bool {
    start <= id < end
}

/// The note has at least one review inside the window through a card in
/// the scope.
pub open spec fn note_reviewed_in_window(
    cards: Seq<CardRow>,
    revlog: Seq<RevlogRow>,
    scope: &Scope,
    start: i64,
    end: i64,
    nid: i64,
) -> bool {
    exists|ci: int, ri: int|
        {
            &&& 0 <= ci < cards.len()
            &&& 0 <= ri < revlog.len()
            &&& cards[ci].nid == nid
            &&& scope_admits(scope, cards[ci].did)
            &&& revlog[ri].cid == cards[ci].id
            &&& in_window(revlog[ri].id, start, end)
        }
}

pub open spec fn strictly_sorted(s: Seq<i64>) -> bool {
    forall|i: int, j: int| 0 <= i < j < s.len() ==> s[i] < s[j]
}

/// What the selector returns: the qualifying note ids in ascending
/// order; with a positive limit, the smallest ones up to the cap.
pub open spec fn selection_ok(
    cards: Seq<CardRow>,
    revlog: Seq<RevlogRow>,
    scope: &Scope,
    start: i64,
    end: i64,
    limit: i64,
    r: Seq<i64>,
) -> bool {
    &&& strictly_sorted(r)
    &&& forall|i: int|
        0 <= i < r.len() ==> note_reviewed_in_window(cards, revlog, scope, start, end, r[i])
    &&& (limit > 0 ==> r.len() <= limit)
    &&& forall|nid: i64|
        note_reviewed_in_window(cards, revlog, scope, start, end, nid) && !r.contains(nid) ==> {
            &&& limit > 0
            &&& r.len() == limit
            &&& forall|j: int| 0 <= j < r.len() ==> r[j] < nid
        }
}

/// Like `note_reviewed_in_window`, but only through the pairs the scan
/// has already visited: entries before `rdone`, and for the entry at
/// `rdone` only cards before `cdone`.
spec fn seen_pair(
    cards: Seq<CardRow>,
    revlog: Seq<RevlogRow>,
    scope: &Scope,
    start: i64,
    end: i64,
    nid: i64,
    rdone: int,
    cdone: int,
) -> bool {
    exists|ci: int, ri: int|
        {
            &&& 0 <= ci < cards.len()
            &&& 0 <= ri < revlog.len()
            &&& (ri < rdone || (ri == rdone && ci < cdone))
            &&& cards[ci].nid == nid
            &&& scope_admits(scope, cards[ci].did)
            &&& revlog[ri].cid == cards[ci].id
            &&& in_window(revlog[ri].id, start, end)
        }
}

/// Inserts `x` into an ascending duplicate-free vector, keeping it so.
fn insert_sorted_unique(v: &mut Vec<i64>, x: i64)
    requires
        strictly_sorted(old(v)@),
    ensures
        strictly_sorted(final(v)@),
        forall|y: i64| final(v)@.contains(y) <==> (old(v)@.contains(y) || y == x),
{
    let mut i: usize = 0;
    while i < v.len() && v[i] < x
        invariant
            i <= v@.len(),
            strictly_sorted(v@),
            forall|k: int| 0 <= k < i ==> v@[k] < x,
        decreases v@.len() - i,
    {
        i = i + 1;
    }
    if i < v.len() && v[i] == x {
        proof {
            assert(v@.contains(v@[i as int]));
        }
        return;
    }
    let ghost pre = v@;
    v.insert(i, x);
    proof {
        assert(forall|k: int| 0 <= k < i ==> v@[k] == pre[k]);
        assert(forall|k: int| i < k < v@.len() ==> v@[k] == pre[k - 1]);
        assert(v@[i as int] == x);
        // Everything at or past the insertion point was at least x before.
        assert(forall|k: int| i <= k < pre.len() ==> pre[k] > x) by {
            if i < pre.len() {
                assert(pre[i as int] != x);
                assert(pre[i as int] >= x);
            }
        }
        assert(forall|y: i64| v@.contains(y) ==> (pre.contains(y) || y == x)) by {
            assert(forall|k: int| 0 <= k < v@.len() ==> v@[k] == x || pre.contains(v@[k])) by {
                assert(forall|k: int| 0 <= k < i ==> pre.contains(v@[k]));
                assert(forall|k: int| i < k < v@.len() ==> pre.contains(v@[k]));
            }
        }
        assert(forall|y: i64| pre.contains(y) ==> v@.contains(y)) by {
            assert(forall|k: int| 0 <= k < pre.len() ==> v@.contains(pre[k])) by {
                assert(forall|k: int| 0 <= k < i ==> v@[k] == pre[k]);
                assert(forall|k: int| i <= k < pre.len() ==> v@[k + 1] == pre[k]);
            }
        }
        assert(v@.contains(x)) by {
            assert(v@[i as int] == x);
        }
    }
}

/// Selects the distinct note ids with a review in the window through a
/// card in the scope, ascending; a positive limit keeps only the first
/// `limit` of them, and a limit of zero or below means no cap.
pub fn select_reviewed_notes(
    cards: &Vec<CardRow>,
    revlog: &Vec<RevlogRow>,
    scope: &Scope,
    start: i64,
    end: i64,
    limit: i64,
) -> (r: Vec<i64>)
    ensures
        selection_ok(cards@, revlog@, scope, start, end, limit, r@),
{
    let mut sel: Vec<i64> = Vec::new();
    let mut ri: usize = 0;
    while ri < revlog.len()
        invariant
            ri <= revlog@.len(),
            strictly_sorted(sel@),
            forall|nid: i64|
                sel@.contains(nid) <==> seen_pair(
                    cards@,
                    revlog@,
                    scope,
                    start,
                    end,
                    nid,
                    ri as int,
                    0,
                ),
        decreases revlog@.len() - ri,
    {
        let e = revlog[ri];
        if start <= e.id && e.id < end {
            let mut ci: usize = 0;
            while ci < cards.len()
                invariant
                    ri < revlog@.len(),
                    ci <= cards@.len(),
                    e == revlog@[ri as int],
                    in_window(e.id, start, end),
                    strictly_sorted(sel@),
                    forall|nid: i64|
                        sel@.contains(nid) <==> seen_pair(
                            cards@,
                            revlog@,
                            scope,
                            start,
                            end,
                            nid,
                            ri as int,
                            ci as int,
                        ),
                decreases cards@.len() - ci,
            {
                let c = cards[ci];
                let admitted = match scope {
                    Scope::All => true,
                    Scope::Decks(ids) => contains_i64(ids, c.did),
                };
                if c.id == e.cid && admitted {
                    insert_sorted_unique(&mut sel, c.nid);
                }
                proof {
                    let rdone = ri as int;
                    let cdone = ci as int;
                    assert forall|nid: i64|
                        sel@.contains(nid) <==> seen_pair(
                            cards@,
                            revlog@,
                            scope,
                            start,
                            end,
                            nid,
                            rdone,
                            cdone + 1,
                        ) by {
                        if seen_pair(cards@, revlog@, scope, start, end, nid, rdone, cdone + 1) {
                            let (ci0, ri0) = choose|ci0: int, ri0: int|
                                {
                                    &&& 0 <= ci0 < cards@.len()
                                    &&& 0 <= ri0 < revlog@.len()
                                    &&& (ri0 < rdone || (ri0 == rdone && ci0 < cdone + 1))
                                    &&& cards@[ci0].nid == nid
                                    &&& scope_admits(scope, cards@[ci0].did)
                                    &&& revlog@[ri0].cid == cards@[ci0].id
                                    &&& in_window(revlog@[ri0].id, start, end)
                                };
                            if ri0 < rdone || (ri0 == rdone && ci0 < cdone) {
                                assert(seen_pair(
                                    cards@,
                                    revlog@,
                                    scope,
                                    start,
                                    end,
                                    nid,
                                    rdone,
                                    cdone,
                                ));
                            } else {
                                assert(ri0 == rdone && ci0 == cdone);
                                assert(nid == cards@[cdone].nid);
                            }
                        }
                        if sel@.contains(nid) {
                            if seen_pair(cards@, revlog@, scope, start, end, nid, rdone, cdone) {
                                let (ci0, ri0) = choose|ci0: int, ri0: int|
                                    {
                                        &&& 0 <= ci0 < cards@.len()
                                        &&& 0 <= ri0 < revlog@.len()
                                        &&& (ri0 < rdone || (ri0 == rdone && ci0 < cdone))
                                        &&& cards@[ci0].nid == nid
                                        &&& scope_admits(scope, cards@[ci0].did)
                                        &&& revlog@[ri0].cid == cards@[ci0].id
                                        &&& in_window(revlog@[ri0].id, start, end)
                                    };
                                assert(seen_pair(
                                    cards@,
                                    revlog@,
                                    scope,
                                    start,
                                    end,
                                    nid,
                                    rdone,
                                    cdone + 1,
                                ));
                            }
                        }
                    }
                }
                ci = ci + 1;
            }
            proof {
                lemma_seen_pair_row_done(cards@, revlog@, scope, start, end, ri as int);
            }
        } else {
            proof {
                let rdone = ri as int;
                assert forall|nid: i64|
                    seen_pair(cards@, revlog@, scope, start, end, nid, rdone + 1, 0) implies
                    seen_pair(cards@, revlog@, scope, start, end, nid, rdone, 0) by {
                    let (ci0, ri0) = choose|ci0: int, ri0: int|
                        {
                            &&& 0 <= ci0 < cards@.len()
                            &&& 0 <= ri0 < revlog@.len()
                            &&& (ri0 < rdone + 1 || (ri0 == rdone + 1 && ci0 < 0))
                            &&& cards@[ci0].nid == nid
                            &&& scope_admits(scope, cards@[ci0].did)
                            &&& revlog@[ri0].cid == cards@[ci0].id
                            &&& in_window(revlog@[ri0].id, start, end)
                        };
                    assert(ri0 != rdone);
                }
            }
        }
        ri = ri + 1;
    }
    proof {
        assert forall|nid: i64|
            sel@.contains(nid) <==> note_reviewed_in_window(
                cards@,
                revlog@,
                scope,
                start,
                end,
                nid,
            ) by {
            let rdone = revlog@.len() as int;
            if sel@.contains(nid) {
                assert(seen_pair(cards@, revlog@, scope, start, end, nid, rdone, 0));
            }
            if note_reviewed_in_window(cards@, revlog@, scope, start, end, nid) {
                let (ci0, ri0) = choose|ci0: int, ri0: int|
                    {
                        &&& 0 <= ci0 < cards@.len()
                        &&& 0 <= ri0 < revlog@.len()
                        &&& cards@[ci0].nid == nid
                        &&& scope_admits(scope, cards@[ci0].did)
                        &&& revlog@[ri0].cid == cards@[ci0].id
                        &&& in_window(revlog@[ri0].id, start, end)
                    };
                assert(seen_pair(cards@, revlog@, scope, start, end, nid, rdone, 0));
            }
        }
    }
    if limit <= 0 {
        proof {
            assert(forall|i: int| 0 <= i < sel@.len() ==> sel@.contains(#[trigger] sel@[i]));
        }
        return sel;
    }
    let mut out: Vec<i64> = Vec::new();
    let mut i: usize = 0;
    while i < sel.len() && (out.len() as i64) < limit
        invariant
            i == out@.len(),
            i <= sel@.len(),
            i as int <= limit,
            limit > 0,
            out@ == sel@.subrange(0, i as int),
            strictly_sorted(sel@),
            forall|nid: i64|
                sel@.contains(nid) <==> note_reviewed_in_window(
                    cards@,
                    revlog@,
                    scope,
                    start,
                    end,
                    nid,
                ),
        decreases sel@.len() - i,
    {
        out.push(sel[i]);
        proof {
            assert(out@ =~= sel@.subrange(0, i + 1));
        }
        i = i + 1;
    }
    proof {
        assert(forall|k: int| 0 <= k < out@.len() ==> out@[k] == sel@[k]);
        assert(forall|k: int| 0 <= k < out@.len() ==> sel@.contains(#[trigger] out@[k]));
        assert(strictly_sorted(out@));
        assert forall|nid: i64|
            note_reviewed_in_window(cards@, revlog@, scope, start, end, nid) && !out@.contains(
                nid,
            ) implies {
            &&& limit > 0
            &&& out@.len() == limit
            &&& forall|j: int| 0 <= j < out@.len() ==> out@[j] < nid
        } by {
            assert(sel@.contains(nid));
            let k = choose|k: int| 0 <= k < sel@.len() && sel@[k] == nid;
            if i == sel@.len() {
                assert(out@ =~= sel@);
                assert(out@.contains(nid));
            } else {
                assert(out@.len() == limit);
                assert(k >= out@.len()) by {
                    if k < out@.len() {
                        assert(out@[k] == nid);
                        assert(out@.contains(nid));
                    }
                }
                assert(forall|j: int| 0 <= j < out@.len() ==> sel@[j] < sel@[k]);
            }
        }
    }
    out
}

/// The selector never returns a note id without a review-log entry
/// inside the window: every selected note has at least one entry in
/// `[start, end)` through a card in the scope.
pub proof fn lemma_selected_note_reviewed(
    cards: Seq<CardRow>,
    revlog: Seq<RevlogRow>,
    scope: &Scope,
    start: i64,
    end: i64,
    limit: i64,
    sel: Seq<i64>,
    i: int,
)
    requires
        selection_ok(cards, revlog, scope, start, end, limit, sel),
        0 <= i < sel.len(),
    ensures
        note_reviewed_in_window(cards, revlog, scope, start, end, sel[i]),
{
}

/// When no review-log entry lies inside the window at all, the selector
/// selects nothing, whatever the scope and the limit.
pub proof fn lemma_no_window_review_selects_none(
    cards: Seq<CardRow>,
    revlog: Seq<RevlogRow>,
    scope: &Scope,
    start: i64,
    end: i64,
    limit: i64,
    sel: Seq<i64>,
)
    requires
        selection_ok(cards, revlog, scope, start, end, limit, sel),
        forall|ri: int| 0 <= ri < revlog.len() ==> !in_window(#[trigger] revlog[ri].id, start, end),
    ensures
        sel.len() == 0,
{
    if sel.len() > 0 {
        assert(note_reviewed_in_window(cards, revlog, scope, start, end, sel[0]));
        let (ci, ri) = choose|ci: int, ri: int|
            {
                &&& 0 <= ci < cards.len()
                &&& 0 <= ri < revlog.len()
                &&& cards[ci].nid == sel[0]
                &&& scope_admits(scope, cards[ci].did)
                &&& revlog[ri].cid == cards[ci].id
                &&& in_window(revlog[ri].id, start, end)
            };
        assert(!in_window(revlog[ri].id, start, end));
    }
}

/// The deck scope holding exactly the ids of the given decks.
pub fn scope_from_decks(decks: &Vec<crate::decks::DeckRow>) -> (r: Scope)
    ensures
        r matches Scope::Decks(ids) && ids@.len() == decks@.len() && (forall|i: int|
            0 <= i < decks@.len() ==> ids@[i] == decks@[i].id),
{
    let mut ids: Vec<i64> = Vec::new();
    let mut i: usize = 0;
    while i < decks.len()
        invariant
            i <= decks@.len(),
            ids@.len() == i,
            forall|k: int| 0 <= k < i ==> ids@[k] == decks@[k].id,
        decreases decks@.len() - i,
    {
        ids.push(decks[i].id);
        i = i + 1;
    }
    Scope::Decks(ids)
}

/// Whether any entry of the vector equals `x`.
fn contains_i64(v: &Vec<i64>, x: i64) -> (r: bool)
    ensures
        r == v@.contains(x),
{
    let mut i: usize = 0;
    while i < v.len()
        invariant
            i <= v@.len(),
            forall|k: int| 0 <= k < i ==> v@[k] != x,
        decreases v@.len() - i,
    {
        if v[i] == x {
            proof {
                assert(v@.contains(v@[i as int]));
            }
            return true;
        }
        i = i + 1;
    }
    false
}

/// No pair through the row at `rdone` exists beyond the ones already
/// counted once every card has been checked against it.
proof fn lemma_seen_pair_row_done(
    cards: Seq<CardRow>,
    revlog: Seq<RevlogRow>,
    scope: &Scope,
    start: i64,
    end: i64,
    rdone: int,
)
    requires
        0 <= rdone < revlog.len(),
    ensures
        forall|nid: i64|
            seen_pair(cards, revlog, scope, start, end, nid, rdone, cards.len() as int)
                <==> seen_pair(cards, revlog, scope, start, end, nid, rdone + 1, 0),
{
    assert forall|nid: i64|
        seen_pair(cards, revlog, scope, start, end, nid, rdone, cards.len() as int) <==> seen_pair(
            cards,
            revlog,
            scope,
            start,
            end,
            nid,
            rdone + 1,
            0,
        ) by {
        if seen_pair(cards, revlog, scope, start, end, nid, rdone, cards.len() as int) {
            let (ci0, ri0) = choose|ci0: int, ri0: int|
                {
                    &&& 0 <= ci0 < cards.len()
                    &&& 0 <= ri0 < revlog.len()
                    &&& (ri0 < rdone || (ri0 == rdone && ci0 < cards.len() as int))
                    &&& cards[ci0].nid == nid
                    &&& scope_admits(scope, cards[ci0].did)
                    &&& revlog[ri0].cid == cards[ci0].id
                    &&& in_window(revlog[ri0].id, start, end)
                };
            assert(ri0 < rdone + 1);
            assert(seen_pair(cards, revlog, scope, start, end, nid, rdone + 1, 0));
        }
        if seen_pair(cards, revlog, scope, start, end, nid, rdone + 1, 0) {
            let (ci0, ri0) = choose|ci0: int, ri0: int|
                {
                    &&& 0 <= ci0 < cards.len()
                    &&& 0 <= ri0 < revlog.len()
                    &&& (ri0 < rdone + 1 || (ri0 == rdone + 1 && ci0 < 0))
                    &&& cards[ci0].nid == nid
                    &&& scope_admits(scope, cards[ci0].did)
                    &&& revlog[ri0].cid == cards[ci0].id
                    &&& in_window(revlog[ri0].id, start, end)
                };
            assert(ri0 < rdone || (ri0 == rdone && ci0 < cards.len() as int));
            assert(seen_pair(cards, revlog, scope, start, end, nid, rdone, cards.len() as int));
        }
    }
}

} // verus!
