//! Rewriting the review timestamps of the selected notes, and the
//! dependent-row updates that keep the store consistent.
//!
//! For every selected note, each review-log entry of one of its cards
//! whose id lies in the window moves back by the offset. Every card
//! that owned such an entry is marked modified and needing sync, and
//! the global sync counter is bumped once per note that produced at
//! least one rewrite. Simulation computes the same per-note plans but
//! leaves every table untouched.

use vstd::prelude::*;
use crate::review::CardRow;
use crate::review::RevlogRow;
use crate::review::in_window;
use crate::review::strictly_sorted;

verus! {

/// One planned rewrite of a review-log entry.
#[derive(Clone, Copy, PartialEq, Eq, Structural, Debug)]
pub struct RevlogChange {
    pub old_id: i64,
    pub new_id: i64,
    pub cid: i64,
}

/// The planned work for one note: the entry rewrites, the cards to mark
/// as needing sync, and the day-offset magnitude for reporting.
#[derive(Debug, PartialEq)]
pub struct NotePlan {
    pub note_id: i64,
    pub changes: Vec<RevlogChange>,
    pub card_ids: Vec<i64>,
    pub days: i64,
}

/// The result of a shift: the table contents afterwards, the number of
/// sync-counter bumps, and the per-note plans.
#[derive(Debug, PartialEq)]
pub struct ShiftOutcome {
    pub revlog: Vec<RevlogRow>,
    pub cards: Vec<CardRow>,
    pub scm_bumps: u64,
    pub plans: Vec<NotePlan>,
}

/// The entry sits in the window and belongs to a card of the note.
pub open spec fn entry_of_note(
    cards: Seq<CardRow>,
    nid: i64,
    e: RevlogRow,
    start: i64,
    end: i64,
) -> bool {
    &&& in_window(e.id, start, end)
    &&& exists|ci: int| 0 <= ci < cards.len() && cards[ci].id == e.cid && cards[ci].nid == nid
}

/// The entry sits in the window and belongs to a card of any selected note.
pub open spec fn entry_targeted(
    cards: Seq<CardRow>,
    notes: Seq<i64>,
    e: RevlogRow,
    start: i64,
    end: i64,
) -> bool {
    &&& in_window(e.id, start, end)
    &&& exists|ci: int|
        0 <= ci < cards.len() && cards[ci].id == e.cid && notes.contains(cards[ci].nid)
}

/// Some entry of this card sits in the window.
pub open spec fn has_window_entry(revlog: Seq<RevlogRow>, cid: i64, start: i64, end: i64) -> bool {
    exists|ri: int| 0 <= ri < revlog.len() && revlog[ri].cid == cid && in_window(
        revlog[ri].id,
        start,
        end,
    )
}

/// The card belongs to a selected note and owned a rewritten entry.
pub open spec fn card_touched(
    c: CardRow,
    revlog: Seq<RevlogRow>,
    notes: Seq<i64>,
    start: i64,
    end: i64,
) -> bool {
    notes.contains(c.nid) && has_window_entry(revlog, c.id, start, end)
}

/// The note owns at least one in-window entry through one of its cards.
pub open spec fn note_produces(
    cards: Seq<CardRow>,
    revlog: Seq<RevlogRow>,
    nid: i64,
    start: i64,
    end: i64,
) -> bool {
    exists|ri: int| 0 <= ri < revlog.len() && entry_of_note(cards, nid, revlog[ri], start, end)
}

/// The rewrites for one note, in review-log order.
pub open spec fn note_changes(
    cards: Seq<CardRow>,
    revlog: Seq<RevlogRow>,
    nid: i64,
    start: i64,
    end: i64,
    offset: int,
) -> Seq<RevlogChange>
    decreases revlog.len(),
{
    if revlog.len() == 0 {
        Seq::empty()
    } else {
        let rest = note_changes(cards, revlog.drop_last(), nid, start, end, offset);
        let e = revlog.last();
        if entry_of_note(cards, nid, e, start, end) {
            rest.push(RevlogChange { old_id: e.id, new_id: (e.id - offset) as i64, cid: e.cid })
        } else {
            rest
        }
    }
}

/// The ids of the note's cards that owned a rewritten entry, in card-table order.
pub open spec fn note_cards(
    cards: Seq<CardRow>,
    revlog: Seq<RevlogRow>,
    nid: i64,
    start: i64,
    end: i64,
) -> Seq<i64>
    decreases cards.len(),
{
    if cards.len() == 0 {
        Seq::empty()
    } else {
        let rest = note_cards(cards.drop_last(), revlog, nid, start, end);
        let c = cards.last();
        if c.nid == nid && has_window_entry(revlog, c.id, start, end) {
            rest.push(c.id)
        } else {
            rest
        }
    }
}

/// How many of the notes own at least one in-window entry.
pub open spec fn count_notes_producing(
    cards: Seq<CardRow>,
    revlog: Seq<RevlogRow>,
    notes: Seq<i64>,
    start: i64,
    end: i64,
) -> int
    decreases notes.len(),
{
    if notes.len() == 0 {
        0
    } else {
        count_notes_producing(cards, revlog, notes.drop_last(), start, end) + if note_produces(
            cards,
            revlog,
            notes.last(),
            start,
            end,
        ) {
            1int
        } else {
            0int
        }
    }
}

/// The plan computed for one note.
pub open spec fn plan_ok(
    p: NotePlan,
    nid: i64,
    cards: Seq<CardRow>,
    revlog: Seq<RevlogRow>,
    start: i64,
    end: i64,
    offset: int,
    days: i64,
) -> bool {
    &&& p.note_id == nid
    &&& p.days == days
    &&& p.changes@ == note_changes(cards, revlog, nid, start, end, offset)
    &&& p.card_ids@ == note_cards(cards, revlog, nid, start, end)
}

/// How the tables read after a real (non-simulated) shift: targeted
/// entries moved back by the offset, touched cards marked modified and
/// needing sync, everything else untouched.
pub open spec fn shift_applied(
    cards: Seq<CardRow>,
    revlog: Seq<RevlogRow>,
    notes: Seq<i64>,
    start: i64,
    end: i64,
    offset: int,
    now: i64,
    out_revlog: Seq<RevlogRow>,
    out_cards: Seq<CardRow>,
) -> bool {
    &&& out_revlog.len() == revlog.len()
    &&& forall|i: int|
        0 <= i < revlog.len() ==> out_revlog[i] == (if entry_targeted(
            cards,
            notes,
            revlog[i],
            start,
            end,
        ) {
            RevlogRow { id: (revlog[i].id - offset) as i64, cid: revlog[i].cid }
        } else {
            revlog[i]
        })
    &&& out_cards.len() == cards.len()
    &&& forall|i: int|
        0 <= i < cards.len() ==> out_cards[i] == (if card_touched(
            cards[i],
            revlog,
            notes,
            start,
            end,
        ) {
            CardRow {
                id: cards[i].id,
                nid: cards[i].nid,
                did: cards[i].did,
                mod_secs: now,
                usn: -1i64,
            }
        } else {
            cards[i]
        })
}

/// Whether the entry belongs to a card of the note and sits in the window.
fn entry_of_note_exec(cards: &Vec<CardRow>, nid: i64, e: RevlogRow, start: i64, end: i64) -> (r:
    bool)
    ensures
        r == entry_of_note(cards@, nid, e, start, end),
{
    if !(start <= e.id && e.id < end) {
        return false;
    }
    let mut ci: usize = 0;
    while ci < cards.len()
        invariant
            ci <= cards@.len(),
            in_window(e.id, start, end),
            forall|k: int| 0 <= k < ci ==> !(cards@[k].id == e.cid && cards@[k].nid == nid),
        decreases cards@.len() - ci,
    {
        if cards[ci].id == e.cid && cards[ci].nid == nid {
            proof {
                let w = ci as int;
                assert(0 <= w < cards@.len() && cards@[w].id == e.cid && cards@[w].nid == nid);
            }
            return true;
        }
        ci = ci + 1;
    }
    false
}

/// Whether the entry is rewritten: in the window and owned through a
/// card by any of the selected notes.
fn entry_targeted_exec(
    cards: &Vec<CardRow>,
    notes: &Vec<i64>,
    e: RevlogRow,
    start: i64,
    end: i64,
) -> (r: bool)
    ensures
        r == entry_targeted(cards@, notes@, e, start, end),
{
    if !(start <= e.id && e.id < end) {
        return false;
    }
    let mut ci: usize = 0;
    while ci < cards.len()
        invariant
            ci <= cards@.len(),
            in_window(e.id, start, end),
            forall|k: int|
                0 <= k < ci ==> !(cards@[k].id == e.cid && notes@.contains(cards@[k].nid)),
        decreases cards@.len() - ci,
    {
        if cards[ci].id == e.cid && contains_note(notes, cards[ci].nid) {
            proof {
                let w = ci as int;
                assert(0 <= w < cards@.len() && cards@[w].id == e.cid && notes@.contains(
                    cards@[w].nid,
                ));
            }
            return true;
        }
        ci = ci + 1;
    }
    false
}

/// Whether some entry of this card sits in the window.
fn has_window_entry_exec(revlog: &Vec<RevlogRow>, cid: i64, start: i64, end: i64) -> (r: bool)
    ensures
        r == has_window_entry(revlog@, cid, start, end),
{
    let mut ri: usize = 0;
    while ri < revlog.len()
        invariant
            ri <= revlog@.len(),
            forall|k: int|
                0 <= k < ri ==> !(revlog@[k].cid == cid && in_window(revlog@[k].id, start, end)),
        decreases revlog@.len() - ri,
    {
        if revlog[ri].cid == cid && start <= revlog[ri].id && revlog[ri].id < end {
            return true;
        }
        ri = ri + 1;
    }
    false
}

/// Whether the note owns at least one in-window entry.
fn note_produces_exec(
    cards: &Vec<CardRow>,
    revlog: &Vec<RevlogRow>,
    nid: i64,
    start: i64,
    end: i64,
) -> (r: bool)
    ensures
        r == note_produces(cards@, revlog@, nid, start, end),
{
    let mut ri: usize = 0;
    while ri < revlog.len()
        invariant
            ri <= revlog@.len(),
            forall|k: int| 0 <= k < ri ==> !entry_of_note(cards@, nid, revlog@[k], start, end),
        decreases revlog@.len() - ri,
    {
        if entry_of_note_exec(cards, nid, revlog[ri], start, end) {
            return true;
        }
        ri = ri + 1;
    }
    false
}

/// Whether any entry of the vector equals `x`.
fn contains_note(v: &Vec<i64>, x: i64) -> (r: bool)
    ensures
        r == v@.contains(x),
{
    let mut i: usize = 0;
    while i < v.len()
        invariant
            i <= v@.len(),
            forall|k: int| 0 <= k < i ==> v@[k] != x,
        decreases v@.len() - i,
    {
        if v[i] == x {
            proof {
                assert(v@.contains(v@[i as int]));
            }
            return true;
        }
        i = i + 1;
    }
    false
}

/// The plan for one note: its rewrites and the cards they touch.
fn plan_for_note(
    cards: &Vec<CardRow>,
    revlog: &Vec<RevlogRow>,
    nid: i64,
    start: i64,
    end: i64,
    days: i64,
) -> (p: NotePlan)
    requires
        -1_000_000_000_000_000 <= start <= end <= 1_000_000_000_000_000,
        -4_000_000 <= days <= 4_000_000,
    ensures
        plan_ok(p, nid, cards@, revlog@, start, end, (days * 86_400_000) as int, days),
{
    let offset: i64 = days * 86_400_000;
    let mut changes: Vec<RevlogChange> = Vec::new();
    let mut ri: usize = 0;
    while ri < revlog.len()
        invariant
            ri <= revlog@.len(),
            -1_000_000_000_000_000 <= start <= end <= 1_000_000_000_000_000,
            offset == days * 86_400_000,
            -4_000_000 <= days <= 4_000_000,
            changes@ == note_changes(
                cards@,
                revlog@.subrange(0, ri as int),
                nid,
                start,
                end,
                offset as int,
            ),
        decreases revlog@.len() - ri,
    {
        let e = revlog[ri];
        if entry_of_note_exec(cards, nid, e, start, end) {
            changes.push(RevlogChange { old_id: e.id, new_id: e.id - offset, cid: e.cid });
        }
        proof {
            let pre = revlog@.subrange(0, ri as int);
            let cur = revlog@.subrange(0, ri + 1);
            assert(cur.drop_last() =~= pre);
            assert(cur.last() == revlog@[ri as int]);
        }
        ri = ri + 1;
    }
    let mut card_ids: Vec<i64> = Vec::new();
    let mut ci: usize = 0;
    while ci < cards.len()
        invariant
            ci <= cards@.len(),
            card_ids@ == note_cards(cards@.subrange(0, ci as int), revlog@, nid, start, end),
        decreases cards@.len() - ci,
    {
        let c = cards[ci];
        if c.nid == nid && has_window_entry_exec(revlog, c.id, start, end) {
            card_ids.push(c.id);
        }
        proof {
            let pre = cards@.subrange(0, ci as int);
            let cur = cards@.subrange(0, ci + 1);
            assert(cur.drop_last() =~= pre);
            assert(cur.last() == cards@[ci as int]);
        }
        ci = ci + 1;
    }
    proof {
        assert(revlog@.subrange(0, revlog@.len() as int) =~= revlog@);
        assert(cards@.subrange(0, cards@.len() as int) =~= cards@);
    }
    NotePlan { note_id: nid, changes, card_ids, days }
}

/// Shifts the in-window reviews of the selected notes back by `days`
/// whole days and marks the owning cards and the sync counter, or, in
/// simulation, computes the same plans while leaving every table
/// exactly as it was.
pub fn shift_reviews(
    cards: &Vec<CardRow>,
    revlog: &Vec<RevlogRow>,
    notes: &Vec<i64>,
    start: i64,
    end: i64,
    days: i64,
    now: i64,
    simulate: bool,
) -> (r: ShiftOutcome)
    requires
        strictly_sorted(notes@),
        -1_000_000_000_000_000 <= start <= end <= 1_000_000_000_000_000,
        -4_000_000 <= days <= 4_000_000,
    ensures
        r.plans@.len() == notes@.len(),
        forall|k: int|
            0 <= k < notes@.len() ==> plan_ok(
                r.plans@[k],
                notes@[k],
                cards@,
                revlog@,
                start,
                end,
                (days * 86_400_000) as int,
                days,
            ),
        simulate ==> r.revlog@ == revlog@ && r.cards@ == cards@ && r.scm_bumps == 0,
        !simulate ==> shift_applied(
            cards@,
            revlog@,
            notes@,
            start,
            end,
            (days * 86_400_000) as int,
            now,
            r.revlog@,
            r.cards@,
        ),
        !simulate ==> r.scm_bumps as int == count_notes_producing(
            cards@,
            revlog@,
            notes@,
            start,
            end,
        ),
{
    let offset: i64 = days * 86_400_000;
    let mut plans: Vec<NotePlan> = Vec::new();
    let mut k: usize = 0;
    while k < notes.len()
        invariant
            k <= notes@.len(),
            plans@.len() == k,
            -1_000_000_000_000_000 <= start <= end <= 1_000_000_000_000_000,
            -4_000_000 <= days <= 4_000_000,
            offset == days * 86_400_000,
            forall|t: int|
                0 <= t < k ==> plan_ok(
                    plans@[t],
                    notes@[t],
                    cards@,
                    revlog@,
                    start,
                    end,
                    offset as int,
                    days,
                ),
        decreases notes@.len() - k,
    {
        plans.push(plan_for_note(cards, revlog, notes[k], start, end, days));
        k = k + 1;
    }
    let mut out_revlog: Vec<RevlogRow> = Vec::new();
    let mut i: usize = 0;
    while i < revlog.len()
        invariant
            i <= revlog@.len(),
            out_revlog@.len() == i,
            -1_000_000_000_000_000 <= start <= end <= 1_000_000_000_000_000,
            -4_000_000 <= days <= 4_000_000,
            offset == days * 86_400_000,
            forall|j: int|
                0 <= j < i ==> out_revlog@[j] == (if !simulate && entry_targeted(
                    cards@,
                    notes@,
                    revlog@[j],
                    start,
                    end,
                ) {
                    RevlogRow { id: (revlog@[j].id - offset as int) as i64, cid: revlog@[j].cid }
                } else {
                    revlog@[j]
                }),
        decreases revlog@.len() - i,
    {
        let e = revlog[i];
        if !simulate && entry_targeted_exec(cards, notes, e, start, end) {
            out_revlog.push(RevlogRow { id: e.id - offset, cid: e.cid });
        } else {
            out_revlog.push(e);
        }
        i = i + 1;
    }
    let mut out_cards: Vec<CardRow> = Vec::new();
    let mut i: usize = 0;
    while i < cards.len()
        invariant
            i <= cards@.len(),
            out_cards@.len() == i,
            forall|j: int|
                0 <= j < i ==> out_cards@[j] == (if !simulate && card_touched(
                    cards@[j],
                    revlog@,
                    notes@,
                    start,
                    end,
                ) {
                    CardRow {
                        id: cards@[j].id,
                        nid: cards@[j].nid,
                        did: cards@[j].did,
                        mod_secs: now,
                        usn: -1i64,
                    }
                } else {
                    cards@[j]
                }),
        decreases cards@.len() - i,
    {
        let c = cards[i];
        if !simulate && contains_note(notes, c.nid) && has_window_entry_exec(
            revlog,
            c.id,
            start,
            end,
        ) {
            out_cards.push(
                CardRow { id: c.id, nid: c.nid, did: c.did, mod_secs: now, usn: -1 },
            );
        } else {
            out_cards.push(c);
        }
        i = i + 1;
    }
    let mut scm: u64 = 0;
    if !simulate {
        let mut k: usize = 0;
        while k < notes.len()
            invariant
                k <= notes@.len(),
                scm as int <= k as int,
                scm as int == count_notes_producing(
                    cards@,
                    revlog@,
                    notes@.subrange(0, k as int),
                    start,
                    end,
                ),
            decreases notes@.len() - k,
        {
            if note_produces_exec(cards, revlog, notes[k], start, end) {
                scm = scm + 1;
            }
            proof {
                let pre = notes@.subrange(0, k as int);
                let cur = notes@.subrange(0, k + 1);
                assert(cur.drop_last() =~= pre);
                assert(cur.last() == notes@[k as int]);
            }
            k = k + 1;
        }
        proof {
            assert(notes@.subrange(0, notes@.len() as int) =~= notes@);
        }
    }
    proof {
        if simulate {
            assert(out_revlog@ =~= revlog@);
            assert(out_cards@ =~= cards@);
        }
    }
    ShiftOutcome { revlog: out_revlog, cards: out_cards, scm_bumps: scm, plans }
}

/// A real shift over the notes of a full-scope, uncapped selection, by
/// at least the window's width, leaves no owned entry inside the
/// window: every in-window entry of a present card was selected and
/// moved out, and no rewrite lands back inside.
pub proof fn lemma_shift_clears_window(
    cards: Seq<CardRow>,
    revlog: Seq<RevlogRow>,
    notes: Seq<i64>,
    start: i64,
    end: i64,
    offset: int,
    now: i64,
    out_revlog: Seq<RevlogRow>,
    out_cards: Seq<CardRow>,
)
    requires
        crate::review::selection_ok(cards, revlog, &crate::review::Scope::All, start, end, 0, notes),
        shift_applied(cards, revlog, notes, start, end, offset, now, out_revlog, out_cards),
        end - start <= offset <= 400_000_000_000_000,
        -1_000_000_000_000_000 <= start <= end <= 1_000_000_000_000_000,
        forall|ri: int|
            0 <= ri < revlog.len() && in_window(#[trigger] revlog[ri].id, start, end)
                ==> exists|ci: int| 0 <= ci < cards.len() && cards[ci].id == revlog[ri].cid,
    ensures
        forall|ri: int|
            0 <= ri < out_revlog.len() ==> !in_window(#[trigger] out_revlog[ri].id, start, end),
{
    assert forall|ri: int| 0 <= ri < out_revlog.len() implies !in_window(
        out_revlog[ri].id,
        start,
        end,
    ) by {
        let e = revlog[ri];
        if entry_targeted(cards, notes, e, start, end) {
            assert(out_revlog[ri].id == e.id - offset);
            assert(e.id - offset < start);
        } else if in_window(e.id, start, end) {
            let ci = choose|ci: int| 0 <= ci < cards.len() && cards[ci].id == e.cid;
            let nid = cards[ci].nid;
            assert(crate::review::note_reviewed_in_window(
                cards,
                revlog,
                &crate::review::Scope::All,
                start,
                end,
                nid,
            )) by {
                assert(crate::review::scope_admits(&crate::review::Scope::All, cards[ci].did));
                assert({
                    &&& 0 <= ci < cards.len()
                    &&& 0 <= ri < revlog.len()
                    &&& cards[ci].nid == nid
                    &&& crate::review::scope_admits(&crate::review::Scope::All, cards[ci].did)
                    &&& revlog[ri].cid == cards[ci].id
                    &&& in_window(revlog[ri].id, start, end)
                });
            }
            assert(notes.contains(nid));
            assert(entry_targeted(cards, notes, e, start, end));
        }
    }
}

/// No entry moves twice: after a real shift over a full-scope,
/// uncapped selection by at least the window's width, selecting over
/// the same window on the shifted tables - under any scope and any
/// limit - returns no notes at all.
pub proof fn lemma_shift_then_reselect_empty(
    cards: Seq<CardRow>,
    revlog: Seq<RevlogRow>,
    notes: Seq<i64>,
    start: i64,
    end: i64,
    offset: int,
    now: i64,
    out_revlog: Seq<RevlogRow>,
    out_cards: Seq<CardRow>,
    scope2: &crate::review::Scope,
    limit2: i64,
    sel2: Seq<i64>,
)
    requires
        crate::review::selection_ok(cards, revlog, &crate::review::Scope::All, start, end, 0, notes),
        shift_applied(cards, revlog, notes, start, end, offset, now, out_revlog, out_cards),
        end - start <= offset <= 400_000_000_000_000,
        -1_000_000_000_000_000 <= start <= end <= 1_000_000_000_000_000,
        forall|ri: int|
            0 <= ri < revlog.len() && in_window(#[trigger] revlog[ri].id, start, end)
                ==> exists|ci: int| 0 <= ci < cards.len() && cards[ci].id == revlog[ri].cid,
        crate::review::selection_ok(out_cards, out_revlog, scope2, start, end, limit2, sel2),
    ensures
        sel2.len() == 0,
{
    lemma_shift_clears_window(
        cards,
        revlog,
        notes,
        start,
        end,
        offset,
        now,
        out_revlog,
        out_cards,
    );
    crate::review::lemma_no_window_review_selects_none(
        out_cards,
        out_revlog,
        scope2,
        start,
        end,
        limit2,
        sel2,
    );
}

} // verus!
