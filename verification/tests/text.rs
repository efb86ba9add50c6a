use multimpaste::text::{badge_label, entry_count, flatten, is_blank, is_space_char, preview};

#[test]
fn preview_collapses_whitespace_into_one_line() {
    assert_eq!(preview("hello\n\n  world\t!"), "hello world !");
}

#[test]
fn preview_truncates_long_text() {
    let long = "x".repeat(200);
    let shown = preview(&long);
    assert_eq!(shown.chars().count(), 54);
    assert!(shown.ends_with('…'));
}

#[test]
fn preview_counts_characters_not_bytes() {
    // Multi-byte input must not panic or cut a character in half.
    let turkish = "şğüöçı".repeat(30);
    assert_eq!(preview(&turkish).chars().count(), 54);
}

#[test]
fn entry_count_is_singular_for_one() {
    assert_eq!(entry_count(1), "1 entry");
    assert_eq!(entry_count(0), "0 entries");
    assert_eq!(entry_count(12), "12 entries");
}

#[test]
fn entry_count_writes_large_numbers_in_full() {
    assert_eq!(entry_count(200), "200 entries");
    assert_eq!(entry_count(10), "10 entries");
    assert_eq!(entry_count(1_000_007), "1000007 entries");
}

#[test]
fn preview_keeps_text_of_exactly_the_limit() {
    let exact = "y".repeat(54);
    assert_eq!(preview(&exact), exact);
    let over = "y".repeat(55);
    let shown = preview(&over);
    assert_eq!(shown, format!("{}…", "y".repeat(53)));
}

#[test]
fn preview_cut_keeps_the_first_characters() {
    let text = format!("{} tail", "ab ".repeat(30));
    let shown = preview(&text);
    let expected: String = "ab ".repeat(30).chars().take(53).collect::<String>() + "…";
    assert_eq!(shown, expected);
}

#[test]
fn preview_trims_both_ends_and_unicode_spaces() {
    assert_eq!(preview("  \u{3000}a\u{00A0}\u{2003}b\r\n"), "a b");
    assert_eq!(preview(" \t\n "), "");
    assert_eq!(preview(""), "");
}

#[test]
fn preview_of_a_preview_is_the_same() {
    let once = preview(&format!("{}  \n end", "word ".repeat(40)));
    assert_eq!(preview(&once), once);
}

#[test]
fn flatten_joins_words_with_single_spaces() {
    let chars = flatten("\tone  two\nthree ");
    assert_eq!(chars.into_iter().collect::<String>(), "one two three");
}

#[test]
fn blank_text_is_only_whitespace() {
    assert!(is_blank(""));
    assert!(is_blank(" \n\t\u{2028}"));
    assert!(!is_blank("  x "));
}

#[test]
fn whitespace_matches_std() {
    for v in 0u32..0x3100 {
        if let Some(c) = char::from_u32(v) {
            assert_eq!(is_space_char(c), c.is_whitespace(), "U+{:04X}", v);
        }
    }
}

#[test]
fn badges_number_the_first_nine_rows() {
    assert_eq!(badge_label(0).as_deref(), Some("1"));
    assert_eq!(badge_label(8).as_deref(), Some("9"));
    assert_eq!(badge_label(9), None);
}
