use anki_rewind::collection::AnkiCollection;
use anki_rewind::date::Date;
use anki_rewind::report::{no_notes_message, planned_shift_days, simulation_line, update_line,
    AppMode};
use anki_rewind::review::{select_reviewed_notes, CardRow, RevlogRow, Scope};
use anki_rewind::rollover::{generate_rid_string, generate_rid_string_at_offset, parse_rollover,
    rid_string_for_window, rollover_window, ConfigError};
use anki_rewind::shift::shift_reviews;

fn ymd(y: i32, m: u32, d: u32) -> Date {
    Date::from_ymd_opt(y, m, d).unwrap()
}

#[test]
fn test_generate_rid_string() {
    // The fixed offset of five hours west of UTC that the expected
    // values below assume.
    let tz_offset_ms: i64 = -18_000_000;
    let date = ymd(2025, 1, 1);
    let rid_string = generate_rid_string_at_offset(&date, 1, tz_offset_ms);

    assert!(rid_string.starts_with("rid:"));
    let parts: Vec<&str> = rid_string.split(':').collect();
    assert_eq!(parts.len(), 3);
    assert_eq!(parts[1], "1735711200000"); // Expected timestamp for 2025-01-01 01:00:00 local time
    assert_eq!(parts[2], "1735797600000"); // Expected timestamp for 2025-01-02 01:00:00 local

    let date2 = ymd(2025, 1, 1);
    let rid_string2 = generate_rid_string_at_offset(&date2, 1, tz_offset_ms);
    assert_eq!(rid_string2, "rid:1735711200000:1735797600000");
}

#[test]
fn test_rollover_window_utc() {
    // 2025-01-01, rollover hour 1, in a UTC+0 environment.
    let (start, end) = rollover_window(&ymd(2025, 1, 1), 1, 0);
    assert_eq!(start, 1_735_693_200_000);
    assert_eq!(end, start + 86_400_000);
    // The width is always exactly one day, whatever the offset.
    let (s2, e2) = rollover_window(&ymd(1999, 7, 23), 23, 7_200_000);
    assert_eq!(e2 - s2, 86_400_000);
}

#[test]
fn test_generate_rid_string_local_is_one_day_wide() {
    // The window anchors at the machine's local timezone, so only its
    // shape and width are fixed here.
    let s = generate_rid_string(&ymd(2025, 1, 1), 1).unwrap();
    let parts: Vec<&str> = s.split(':').collect();
    assert_eq!(parts.len(), 3);
    assert_eq!(parts[0], "rid");
    let start: i64 = parts[1].parse().unwrap();
    let end: i64 = parts[2].parse().unwrap();
    assert_eq!(end - start, 86_400_000);
}

#[test]
fn test_rid_string_renders_negative_timestamps() {
    assert_eq!(rid_string_for_window(-5, 10), "rid:-5:10");
}

#[test]
fn test_parse_rollover_values() {
    assert_eq!(parse_rollover(&b"4".to_vec()), Ok(4));
    assert_eq!(parse_rollover(&b"0".to_vec()), Ok(0));
    assert_eq!(parse_rollover(&b"23".to_vec()), Ok(23));
    assert_eq!(parse_rollover(&b"04".to_vec()), Ok(4));
    assert_eq!(parse_rollover(&b"24".to_vec()), Err(ConfigError::Corrupt));
    assert_eq!(parse_rollover(&b"".to_vec()), Err(ConfigError::Corrupt));
    assert_eq!(parse_rollover(&b"120".to_vec()), Err(ConfigError::Corrupt));
    assert_eq!(parse_rollover(&vec![0x04u8]), Err(ConfigError::Corrupt));
    assert_eq!(parse_rollover(&b"-1".to_vec()), Err(ConfigError::Corrupt));
}

fn math_tables() -> (Vec<CardRow>, Vec<RevlogRow>) {
    // Deck "Math" is deck 10; one note (100) with one card (1000)
    // reviewed at X inside the window, plus unrelated rows.
    let cards = vec![
        CardRow { id: 1000, nid: 100, did: 10, mod_secs: 5, usn: 3 },
        CardRow { id: 2000, nid: 200, did: 20, mod_secs: 6, usn: 0 },
    ];
    let revlog = vec![
        RevlogRow { id: 1_735_700_000_000, cid: 1000 }, // X, inside the window
        RevlogRow { id: 1_735_600_000_000, cid: 2000 }, // before the window
    ];
    (cards, revlog)
}

const START: i64 = 1_735_693_200_000;
const END: i64 = START + 86_400_000;

#[test]
fn test_selector_all_and_deck_scope() {
    let (cards, revlog) = math_tables();
    assert_eq!(select_reviewed_notes(&cards, &revlog, &Scope::All, START, END, 0), vec![100]);
    assert_eq!(
        select_reviewed_notes(&cards, &revlog, &Scope::Decks(vec![10]), START, END, 0),
        vec![100]
    );
    // A scope of other decks excludes the note.
    assert_eq!(
        select_reviewed_notes(&cards, &revlog, &Scope::Decks(vec![20]), START, END, 0),
        Vec::<i64>::new()
    );
}

#[test]
fn test_selector_never_returns_note_reviewed_outside_window() {
    let (cards, revlog) = math_tables();
    // Note 200's only entry lies before the window: it is never selected.
    let sel = select_reviewed_notes(&cards, &revlog, &Scope::All, START, END, 0);
    assert!(!sel.contains(&200));
}

#[test]
fn test_selector_orders_and_limits() {
    let cards = vec![
        CardRow { id: 1, nid: 30, did: 1, mod_secs: 0, usn: 0 },
        CardRow { id: 2, nid: 10, did: 1, mod_secs: 0, usn: 0 },
        CardRow { id: 3, nid: 20, did: 1, mod_secs: 0, usn: 0 },
    ];
    let revlog = vec![
        RevlogRow { id: START + 5, cid: 1 },
        RevlogRow { id: START + 2, cid: 2 },
        RevlogRow { id: START + 9, cid: 3 },
        RevlogRow { id: START + 1, cid: 2 }, // second entry of note 10
    ];
    let all = select_reviewed_notes(&cards, &revlog, &Scope::All, START, END, 0);
    assert_eq!(all, vec![10, 20, 30]);
    let capped = select_reviewed_notes(&cards, &revlog, &Scope::All, START, END, 2);
    assert_eq!(capped, vec![10, 20]);
}

#[test]
fn test_end_to_end_scenario() {
    let (cards, revlog) = math_tables();
    let x: i64 = 1_735_700_000_000;
    let notes = select_reviewed_notes(&cards, &revlog, &Scope::Decks(vec![10]), START, END, 0);
    assert_eq!(notes, vec![100]);
    let now: i64 = 1_736_000_000;
    let out = shift_reviews(&cards, &revlog, &notes, START, END, 1, now, false);
    // The review moved back exactly one day.
    assert_eq!(out.revlog[0], RevlogRow { id: x - 86_400_000, cid: 1000 });
    // The unrelated entry is untouched.
    assert_eq!(out.revlog[1], revlog[1]);
    // The owning card is marked modified and needing sync.
    assert_eq!(out.cards[0], CardRow { id: 1000, nid: 100, did: 10, mod_secs: now, usn: -1 });
    assert_eq!(out.cards[1], cards[1]);
    // The sync counter is bumped exactly once.
    assert_eq!(out.scm_bumps, 1);
    // The plan reports the rewrite.
    assert_eq!(out.plans.len(), 1);
    assert_eq!(out.plans[0].note_id, 100);
    assert_eq!(out.plans[0].days, 1);
    assert_eq!(out.plans[0].changes.len(), 1);
    assert_eq!(out.plans[0].changes[0].old_id, x);
    assert_eq!(out.plans[0].changes[0].new_id, x - 86_400_000);
    assert_eq!(out.plans[0].changes[0].cid, 1000);
    assert_eq!(out.plans[0].card_ids, vec![1000]);
}

#[test]
fn test_simulation_performs_zero_writes() {
    let (cards, revlog) = math_tables();
    let notes = select_reviewed_notes(&cards, &revlog, &Scope::All, START, END, 0);
    let out = shift_reviews(&cards, &revlog, &notes, START, END, 1, 99, true);
    // Full table contents before and after are identical.
    assert_eq!(out.revlog, revlog);
    assert_eq!(out.cards, cards);
    assert_eq!(out.scm_bumps, 0);
    // The plans still report what a real run would do.
    assert_eq!(out.plans.len(), 1);
    assert_eq!(out.plans[0].changes.len(), 1);
}

#[test]
fn test_shift_twice_selects_nothing() {
    let (cards, revlog) = math_tables();
    let notes = select_reviewed_notes(&cards, &revlog, &Scope::All, START, END, 0);
    let out = shift_reviews(&cards, &revlog, &notes, START, END, 1, 42, false);
    // The first run moved every in-window entry out; a second selection
    // over the same window finds nothing, in any scope.
    let again_all = select_reviewed_notes(&out.cards, &out.revlog, &Scope::All, START, END, 0);
    assert_eq!(again_all, Vec::<i64>::new());
    let again_deck =
        select_reviewed_notes(&out.cards, &out.revlog, &Scope::Decks(vec![10]), START, END, 0);
    assert_eq!(again_deck, Vec::<i64>::new());
}

#[test]
fn test_shift_uses_explicit_range_offset() {
    let (cards, revlog) = math_tables();
    let x: i64 = 1_735_700_000_000;
    let days = planned_shift_days(&Some(ymd(2025, 1, 8)), &Some(ymd(2025, 1, 5)));
    assert_eq!(days, 3);
    let out = shift_reviews(&cards, &revlog, &vec![100], START, END, days, 7, false);
    assert_eq!(out.revlog[0].id, x - 3 * 86_400_000);
}

#[test]
fn test_planned_shift_days_defaults_to_one() {
    assert_eq!(planned_shift_days(&None, &None), 1);
    assert_eq!(planned_shift_days(&Some(ymd(2025, 1, 8)), &None), 1);
}

#[test]
fn test_report_lines() {
    assert_eq!(
        no_notes_message(&AppMode::All, &ymd(2025, 1, 5)),
        "No notes found in any deck for 2025-01-05"
    );
    assert_eq!(
        no_notes_message(&AppMode::Deck("Math".to_string()), &ymd(2025, 1, 5)),
        "No notes found in the deck 'Math' for 2025-01-05"
    );
    assert_eq!(
        simulation_line(100, START, END, 1),
        "Simulating update for note 100 (from 1735693200000 to 1735779600000), moving back 1 days."
    );
    assert_eq!(update_line(100), "Note date updated successfully for 100.");
}

#[test]
fn test_collection_keeps_its_name() {
    let collection = AnkiCollection::new("test_collection");
    assert_eq!(collection.collection_name, "test_collection");
}
