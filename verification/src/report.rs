//! The operating mode and the exact lines reported to the operator.
//!
//! The surrounding binary only prints what these functions build; every
//! message is pinned down to the character.

use vstd::prelude::*;
use vstd::string::StringExecFns;
use crate::date::Date;
use crate::date::date_display;
use crate::date::push_date;
use crate::date::valid_date;
use crate::utils::int_dec;
use crate::utils::push_i64_dec;

verus! {

/// What the run operates on: one named deck, or every deck.
#[derive(Debug, PartialEq)]
pub enum AppMode {
    Deck(String),
    All,
}

pub open spec fn no_notes_all_msg(date: Date) -> Seq<char> {
    "No notes found in any deck for "@ + date_display(date)
}

pub open spec fn no_notes_deck_msg(deck_name: Seq<char>, date: Date) -> Seq<char> {
    "No notes found in the deck '"@ + deck_name + "' for "@ + date_display(date)
}

/// The no-op outcome line: an empty selection is not an error, and the
/// message names the scope and the date that yielded nothing.
pub fn no_notes_message(mode: &AppMode, date: &Date) -> (r: String)
    requires
        valid_date(*date),
    ensures
        match mode {
            AppMode::All => r@ == no_notes_all_msg(*date),
            AppMode::Deck(name) => r@ == no_notes_deck_msg(name@, *date),
        },
{
    match mode {
        AppMode::All => {
            let mut s = String::from_str("No notes found in any deck for ");
            push_date(&mut s, date);
            s
        },
        AppMode::Deck(name) => {
            let mut s = String::from_str("No notes found in the deck '");
            s.append(name.as_str());
            s.append("' for ");
            push_date(&mut s, date);
            s
        },
    }
}

pub open spec fn simulation_line_spec(note_id: int, start: int, end: int, days: int) -> Seq<char> {
    "Simulating update for note "@ + int_dec(note_id) + " (from "@ + int_dec(start) + " to "@
        + int_dec(end) + "), moving back "@ + int_dec(days) + " days."@
}

/// The per-note simulation report: the note, the window it was matched
/// in, and how many days its reviews would move back.
pub fn simulation_line(note_id: i64, start: i64, end: i64, days: i64) -> (r: String)
    requires
        note_id > i64::MIN,
        start > i64::MIN,
        end > i64::MIN,
        days > i64::MIN,
    ensures
        r@ == simulation_line_spec(note_id as int, start as int, end as int, days as int),
{
    let mut s = String::from_str("Simulating update for note ");
    push_i64_dec(&mut s, note_id);
    s.append(" (from ");
    push_i64_dec(&mut s, start);
    s.append(" to ");
    push_i64_dec(&mut s, end);
    s.append("), moving back ");
    push_i64_dec(&mut s, days);
    s.append(" days.");
    s
}

pub open spec fn update_line_spec(note_id: int) -> Seq<char> {
    "Note date updated successfully for "@ + int_dec(note_id) + "."@
}

/// The per-note success line of a real run.
pub fn update_line(note_id: i64) -> (r: String)
    requires
        note_id > i64::MIN,
    ensures
        r@ == update_line_spec(note_id as int),
{
    let mut s = String::from_str("Note date updated successfully for ");
    push_i64_dec(&mut s, note_id);
    s.append(".");
    s
}

/// The day offset a run moves reviews by: the exact day distance when
/// an explicit range was supplied, and one day otherwise.
pub fn planned_shift_days(from_date: &Option<Date>, to_date: &Option<Date>) -> (r: i64)
    requires
        from_date matches Some(f) ==> valid_date(*f),
        to_date matches Some(t) ==> valid_date(*t),
    ensures
        match (from_date, to_date) {
            (Some(f), Some(t)) => r == crate::date::day_index(*f) - crate::date::day_index(*t),
            _ => r == 1,
        },
{
    match (from_date, to_date) {
        (Some(f), Some(t)) => crate::date::days_between(*t, *f),
        _ => 1,
    }
}

} // verus!
