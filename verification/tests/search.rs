use notia::search::{filter_notes, note_matches_terms, split_words, text_is_blank};
use notia::text::char_is_space;
use notia::{search_notes, Note};

fn note(id: &str, title: &str, content: Option<&str>, tags: Option<Vec<&str>>) -> Note {
    Note {
        id: id.to_string(),
        title: title.to_string(),
        content: content.map(|s| s.to_string()),
        tags: tags.map(|v| v.into_iter().map(|s| s.to_string()).collect()),
        reminders: None,
    }
}

fn sample() -> Vec<Note> {
    vec![
        note("1", "Alice in Wonderland", Some("A rabbit hole"), Some(vec!["Books", "Homework"])),
        note("2", "Groceries", Some("Call ALICE about milk"), Some(vec!["home"])),
        note("3", "Meeting notes", None, Some(vec!["WORK"])),
        note("4", "alice and bob", Some("budget"), None),
        note("5", "Empty tags", Some("alice"), Some(vec![])),
    ]
}

fn ids(v: &[&str]) -> Vec<String> {
    v.iter().map(|s| s.to_string()).collect()
}

#[test]
fn test_search_notes() {
    let notes = vec![Note {
        id: "1".to_string(),
        title: "Alice".to_string(),
        content: None,
        tags: None,
        reminders: None,
    }];
    let res = search_notes(notes, "Alice".to_string());
    assert_eq!(res, vec!["1"]);
}

#[test]
fn empty_query_returns_every_id_in_order() {
    assert_eq!(search_notes(sample(), String::new()), ids(&["1", "2", "3", "4", "5"]));
}

#[test]
fn blank_query_returns_every_id_in_order() {
    assert_eq!(search_notes(sample(), " \t\n ".to_string()), ids(&["1", "2", "3", "4", "5"]));
}

#[test]
fn text_term_looks_in_title_and_content_whatever_the_case() {
    assert_eq!(search_notes(sample(), "ALICE".to_string()), ids(&["1", "2", "4", "5"]));
    assert_eq!(search_notes(sample(), "rabbit".to_string()), ids(&["1"]));
    assert_eq!(search_notes(sample(), "zebra".to_string()), ids(&[]));
}

#[test]
fn tag_term_looks_for_a_tag_that_holds_it() {
    assert_eq!(search_notes(sample(), "#work".to_string()), ids(&["1", "3"]));
    assert_eq!(search_notes(sample(), "#WoRk".to_string()), ids(&["1", "3"]));
    assert_eq!(search_notes(sample(), "#home".to_string()), ids(&["1", "2"]));
}

#[test]
fn tag_term_does_not_look_in_the_text() {
    assert_eq!(search_notes(sample(), "#alice".to_string()), ids(&[]));
    assert_eq!(search_notes(sample(), "home".to_string()), ids(&[]));
}

#[test]
fn bare_hash_asks_for_any_tag() {
    assert_eq!(search_notes(sample(), "#".to_string()), ids(&["1", "2", "3"]));
}

#[test]
fn every_term_must_be_met() {
    assert_eq!(search_notes(sample(), "alice #work".to_string()), ids(&["1"]));
    assert_eq!(search_notes(sample(), "  #work   alice ".to_string()), ids(&["1"]));
    assert_eq!(search_notes(sample(), "alice milk".to_string()), ids(&["2"]));
    assert_eq!(search_notes(sample(), "alice bob budget".to_string()), ids(&["4"]));
    assert_eq!(search_notes(sample(), "alice #work #home".to_string()), ids(&["1"]));
    assert_eq!(search_notes(sample(), "meeting #home".to_string()), ids(&[]));
}

#[test]
fn words_are_split_at_any_white_space() {
    assert_eq!(split_words(""), ids(&[]));
    assert_eq!(split_words("   "), ids(&[]));
    assert_eq!(split_words("one"), ids(&["one"]));
    assert_eq!(split_words(" one  two\tthree\n"), ids(&["one", "two", "three"]));
    assert_eq!(split_words("a\u{3000}b\u{a0}c\u{2003}d\u{85}e"), ids(&["a", "b", "c", "d", "e"]));
    assert_eq!(split_words("a\u{200b}b"), ids(&["a\u{200b}b"]));
    let expected: Vec<String> = "x \u{1680}y\u{2028}z".split_whitespace().map(|s| s.to_string()).collect();
    assert_eq!(split_words("x \u{1680}y\u{2028}z"), expected);
}

#[test]
fn terms_are_taken_as_they_are() {
    let n = note("1", "alice", None, Some(vec!["Work"]));
    assert!(note_matches_terms(&n, &ids(&["alice", "#work"])));
    assert!(!note_matches_terms(&n, &ids(&["Alice"])));
    assert!(note_matches_terms(&n, &ids(&[])));
    assert_eq!(filter_notes(&sample(), &ids(&["alice", "#work"])), ids(&["1"]));
    assert_eq!(filter_notes(&sample(), &ids(&[])), ids(&["1", "2", "3", "4", "5"]));
}

#[test]
fn white_space_is_what_unicode_says() {
    for n in 0..=0x10FFFFu32 {
        if let Some(c) = char::from_u32(n) {
            assert_eq!(char_is_space(c), c.is_whitespace());
        }
    }
}

#[test]
fn blank_texts_are_told_apart() {
    assert!(text_is_blank(""));
    assert!(text_is_blank(" \t\r\n\u{3000}\u{2028}"));
    assert!(!text_is_blank(" a "));
    assert!(!text_is_blank("\u{200b}"));
    assert_eq!(search_notes(sample(), "\u{3000}\u{a0}".to_string()), ids(&["1", "2", "3", "4", "5"]));
}
