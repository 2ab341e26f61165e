use portobello::text::{contains_text, join, same_text};

fn strings(parts: &[&str]) -> Vec<String> {
    parts.iter().map(|part| part.to_string()).collect()
}

#[test]
fn join_puts_the_separator_between_neighbours() {
    assert_eq!(join(&strings(&[]), ", "), "");
    assert_eq!(join(&strings(&["a"]), ", "), "a");
    assert_eq!(join(&strings(&["a", "b"]), ", "), "a, b");
    assert_eq!(join(&strings(&["a", "b", "c"]), ", "), "a, b, c");
    assert_eq!(join(&strings(&["a", "", "c"]), "-"), "a--c");
    assert_eq!(join(&strings(&["", ""]), "-"), "-");
    assert_eq!(join(&strings(&["a", "b"]), ""), "ab");
}

#[test]
fn same_text_compares_character_by_character() {
    assert!(same_text("", ""));
    assert!(same_text("col0", "col0"));
    assert!(same_text("caf\u{e9}", "caf\u{e9}"));

    assert!(!same_text("col0", "col1"));
    assert!(!same_text("col0", "col"));
    assert!(!same_text("col", "col0"));
    assert!(!same_text("", "a"));
    assert!(!same_text("Col0", "col0"));
    assert!(!same_text("cafe", "caf\u{e9}"));
}

#[test]
fn contains_text_looks_for_the_whole_string() {
    let names = strings(&["id", "name", "description"]);

    assert!(contains_text(&names, &"id".to_string()));
    assert!(contains_text(&names, &"description".to_string()));
    assert!(!contains_text(&names, &"nam".to_string()));
    assert!(!contains_text(&names, &"".to_string()));
    assert!(!contains_text(&strings(&[]), &"id".to_string()));
}
