use rust_math::headers::normalize_header;
use rust_math::lev::levenshtein;
use rust_math::materials::{close, normalize};
use rust_math::state::Sessions;

fn chars(s: &str) -> Vec<char> {
    s.chars().collect()
}

#[test]
fn bot_headers_ignore_spaces_dashes_and_script() {
    let expected: Vec<char> = chars("1qavat");
    assert_eq!(normalize_header(&chars("1 ҚАВАТ")), expected);
    assert_eq!(normalize_header(&chars("1-қават")), expected);
    assert_eq!(normalize_header(&chars("1QAVAT")), expected);
}

#[test]
fn lower_case_reaches_beyond_ascii() {
    // The Kelvin sign lowers to an ASCII `k`.
    assert_eq!(normalize("\u{212A}G"), "kg");
    assert_eq!(normalize(" PE-PR "), "pe-pr");
}

#[test]
fn edit_distance_and_closeness() {
    assert_eq!(levenshtein("pett", "pet"), 1);
    assert_eq!(levenshtein("kitten", "sitting"), 3);
    assert_eq!(levenshtein("", "abc"), 3);
    // A right side that is not ASCII gives its length in bytes.
    assert_eq!(levenshtein("ab", "é"), 2);
    assert!(close("pwt", "pet"));
    assert!(!close("pe", "pet"));
    assert!(!close("pé", "pe"));
}

#[test]
fn a_new_order_is_dated() {
    let draft = Sessions::initial_draft();
    assert!(draft.date.as_deref().is_some_and(|d| d.len() == 8));
    assert!(draft.order_number.is_none());
}
