use anki_rewind::decks::{find_matching_decks, resolve_decks, DeckRow, ResolveError, ResolveMode};
use anki_rewind::utils::{green_text, red_text, replace_deck_delimiter};

#[test]
fn test_replace_deck_delimiter_single_occurrence() {
    let input = "Deck\u{001F}SubDeck";
    let expected = "Deck::SubDeck";
    assert_eq!(replace_deck_delimiter(input), expected);
}

#[test]
fn test_replace_deck_delimiter_multiple_occurrences() {
    let input = "Deck\u{001F}SubDeck\u{001F}SubSubDeck";
    let expected = "Deck::SubDeck::SubSubDeck";
    assert_eq!(replace_deck_delimiter(input), expected);
}

#[test]
fn test_replace_deck_delimiter_no_occurrence() {
    let input = "Deck::SubDeck";
    let expected = "Deck::SubDeck";
    assert_eq!(replace_deck_delimiter(input), expected);
}

#[test]
fn test_replace_deck_delimiter_empty_string() {
    let input = "";
    let expected = "";
    assert_eq!(replace_deck_delimiter(input), expected);
}

#[test]
fn test_red_green_text() {
    assert_eq!(red_text("oops"), "\x1b[31moops\x1b[0m");
    assert_eq!(green_text("fine"), "\x1b[32mfine\x1b[0m");
}

fn sample_decks() -> Vec<DeckRow> {
    vec![
        DeckRow { id: 1, name: "Spanish".to_string() },
        DeckRow { id: 2, name: "Spanish\u{001F}Verbs".to_string() },
        DeckRow { id: 3, name: "Spanish\u{001F}Nouns".to_string() },
        DeckRow { id: 4, name: "French".to_string() },
    ]
}

fn names(decks: &[DeckRow]) -> Vec<&str> {
    decks.iter().map(|d| d.name.as_str()).collect()
}

#[test]
fn test_subtree_lookup_takes_descendants() {
    let decks = sample_decks();
    let ms = find_matching_decks(&decks, "Spanish", ResolveMode::Subtree);
    assert_eq!(
        names(&ms),
        vec!["Spanish", "Spanish\u{001F}Verbs", "Spanish\u{001F}Nouns"]
    );
}

#[test]
fn test_substring_lookup_is_case_insensitive() {
    let decks = sample_decks();
    let lower = find_matching_decks(&decks, "span", ResolveMode::Substring);
    assert_eq!(
        names(&lower),
        vec!["Spanish", "Spanish\u{001F}Verbs", "Spanish\u{001F}Nouns"]
    );
    let upper = find_matching_decks(&decks, "SPAN", ResolveMode::Substring);
    assert_eq!(names(&upper), names(&lower));
}

#[test]
fn test_subtree_lookup_is_case_insensitive_beyond_ascii() {
    let decks = vec![
        DeckRow { id: 1, name: "Wörter".to_string() },
        DeckRow { id: 2, name: "Wörter\u{001F}Nomen".to_string() },
        DeckRow { id: 3, name: "Andere".to_string() },
    ];
    let ms = find_matching_decks(&decks, "WÖRTER", ResolveMode::Subtree);
    assert_eq!(names(&ms), vec!["Wörter", "Wörter\u{001F}Nomen"]);
}

#[test]
fn test_resolve_substring_ambiguous_enumerates_candidates() {
    let decks = sample_decks();
    match resolve_decks(&decks, "span", ResolveMode::Substring) {
        Err(ResolveError::Ambiguous(candidates)) => {
            assert_eq!(
                candidates,
                vec!["Spanish", "Spanish::Verbs", "Spanish::Nouns"]
            );
        }
        other => panic!("expected an ambiguous lookup, got {:?}", other),
    }
}

#[test]
fn test_resolve_substring_single_match() {
    let decks = sample_decks();
    let sel = resolve_decks(&decks, "fren", ResolveMode::Substring).unwrap();
    assert_eq!(names(&sel), vec!["French"]);
}

#[test]
fn test_resolve_not_found() {
    let decks = sample_decks();
    assert!(matches!(
        resolve_decks(&decks, "German", ResolveMode::Substring),
        Err(ResolveError::NotFound)
    ));
    assert!(matches!(
        resolve_decks(&decks, "German", ResolveMode::Subtree),
        Err(ResolveError::NotFound)
    ));
}

#[test]
fn test_subtree_does_not_match_bare_prefixes() {
    // "Spanish" names no subtree of "Span": a name must extend the
    // query with the delimiter to count as a descendant.
    let decks = sample_decks();
    assert!(matches!(
        resolve_decks(&decks, "Span", ResolveMode::Subtree),
        Err(ResolveError::NotFound)
    ));
}
