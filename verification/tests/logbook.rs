use notebook::logbook::{content, entry};

#[test]
fn a_missing_logbook_reads_as_nothing() {
    assert_eq!(content(None), None);
}

#[test]
fn an_empty_logbook_reads_as_nothing() {
    assert_eq!(content(Some(String::new())), None);
}

#[test]
fn a_logbook_with_text_reads_as_that_text() {
    assert_eq!(
        content(Some("Day 1: My mock text".to_string())),
        Some("Day 1: My mock text".to_string())
    );
}

#[test]
fn an_entry_is_the_message_and_a_line_feed() {
    assert_eq!(entry("Day 25: My new mock text"), "Day 25: My new mock text\n");
    assert_eq!(entry(""), "\n");
}

#[test]
fn entries_accumulate_in_order() {
    let mut file = String::new();
    file.push_str(&entry("Day 25: My new mock text"));
    assert_eq!(
        content(Some(file.clone())),
        Some("Day 25: My new mock text\n".to_string())
    );
    file.push_str(&entry("Day 26: My other new mock text"));
    assert_eq!(
        content(Some(file)),
        Some("Day 25: My new mock text\nDay 26: My other new mock text\n".to_string())
    );
}

#[test]
fn an_empty_message_still_makes_the_logbook_readable() {
    assert_eq!(content(Some(entry(""))), Some("\n".to_string()));
}
