use word_slicer::words::{extract_first_word, extract_word, get_first, get_word, WordError};

#[test]
fn extract_word_first_word_of_phrase() {
    let text = "Hello, world! From Rust lang";
    assert_eq!(extract_word(text, 0), Ok("Hello,"));
}

#[test]
fn extract_word_indexes_every_word() {
    let text = "Hello, world! From Rust lang";
    assert_eq!(extract_word(text, 1), Ok("world!"));
    assert_eq!(extract_word(text, 2), Ok("From"));
    assert_eq!(extract_word(text, 3), Ok("Rust"));
    assert_eq!(extract_word(text, 4), Ok("lang"));
    assert_eq!(extract_word(text, 5), Err(WordError::IndexOutOfRange));
}

#[test]
fn extract_word_single_word_is_whole_trimmed_text() {
    assert_eq!(extract_word("single", 0), Ok("single"));
    assert_eq!(extract_word("  solo  ", 0), Ok("solo"));
    assert_eq!(extract_word("\t NoSpacesHere \n", 0), Ok("NoSpacesHere"));
}

#[test]
fn extract_word_strips_edge_whitespace() {
    let text = "  hi there \n";
    assert_eq!(extract_word(text, 0), Ok("hi"));
    assert_eq!(extract_word(text, 1), Ok("there"));
    let first = extract_word(text, 0).unwrap();
    assert!(!first.contains(' '));
    assert!(!first.contains('\n'));
}

#[test]
fn extract_word_out_of_range_is_reported() {
    assert_eq!(extract_word("one two", 2), Err(WordError::IndexOutOfRange));
    assert_eq!(extract_word("", 0), Err(WordError::IndexOutOfRange));
    assert_eq!(extract_word("   ", 0), Err(WordError::IndexOutOfRange));
    assert_eq!(extract_word("lonely", 1), Err(WordError::IndexOutOfRange));
}

#[test]
fn extract_word_same_inputs_same_result() {
    let text = "repeat the call twice";
    let once = extract_word(text, 2);
    let again = extract_word(text, 2);
    assert_eq!(once, again);
    assert_eq!(once, Ok("call"));
}

#[test]
fn extract_word_collapses_whitespace_runs() {
    let text = "a\t\tb  c";
    assert_eq!(extract_word(text, 0), Ok("a"));
    assert_eq!(extract_word(text, 1), Ok("b"));
    assert_eq!(extract_word(text, 2), Ok("c"));
    assert_eq!(extract_word(text, 3), Err(WordError::IndexOutOfRange));
}

#[test]
fn extract_first_word_before_first_space() {
    assert_eq!(extract_first_word("Hello, world!"), "Hello,");
}

#[test]
fn extract_first_word_without_spaces() {
    assert_eq!(extract_first_word("NoSpacesHere"), "NoSpacesHere");
}

#[test]
fn extract_first_word_empty_and_blank() {
    assert_eq!(extract_first_word(""), "");
    assert_eq!(extract_first_word(" \t "), "");
}

#[test]
fn get_first_like_extract_first_word() {
    assert_eq!(get_first("Hello, world!"), "Hello,");
    assert_eq!(get_first("NoSpacesHere"), "NoSpacesHere");
    assert_eq!(get_first("  padded words  "), "padded");
}

#[test]
fn get_word_by_index() {
    let phrase = String::from("Hello, world! From Rust lang");
    assert_eq!(get_word(&phrase, 0), Ok("Hello,"));
    assert_eq!(get_word(&phrase, 3), Ok("Rust"));
    assert_eq!(get_word(&phrase, 5), Err(WordError::IndexOutOfRange));
}

#[test]
fn get_word_negative_index_is_out_of_range() {
    let phrase = String::from("some words here");
    assert_eq!(get_word(&phrase, -1), Err(WordError::IndexOutOfRange));
}
