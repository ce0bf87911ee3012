use indoor_map_lib::attributes::Attributes;
use indoor_map_lib::text::{chars_of, keep_filled, same_text, split, trimmed, Separator, Span};

#[test]
fn later_pairs_override_earlier_ones() {
    let attributes = Attributes::from_pairs(vec![
        ("a".to_string(), "1".to_string()),
        ("b".to_string(), "2".to_string()),
        ("a".to_string(), "3".to_string()),
    ]);
    assert_eq!(attributes.get("a").unwrap(), "3");
    assert_eq!(attributes.get("b").unwrap(), "2");
    assert!(attributes.get("c").is_none());
}

#[test]
fn insert_and_remove() {
    let mut attributes = Attributes::new();
    attributes.insert("a".to_string(), "1".to_string());
    attributes.insert("b".to_string(), "2".to_string());
    attributes.insert("a".to_string(), "3".to_string());
    assert_eq!(attributes.pairs().len(), 2);
    assert_eq!(attributes.get("a").unwrap(), "3");
    attributes.remove("a");
    assert!(attributes.get("a").is_none());
    assert_eq!(attributes.get("b").unwrap(), "2");
    attributes.remove("zzz");
    let copy = attributes.copy();
    assert_eq!(copy.pairs(), attributes.pairs());
}

fn parts(text: &str, separator: Separator) -> Vec<String> {
    let chars = chars_of(text);
    let whole = Span { from: 0, to: chars.len() };
    split(&chars, whole, separator).iter().map(|span| chars[span.from..span.to].iter().collect()).collect()
}

#[test]
fn pieces_between_separators() {
    assert_eq!(parts("1,2 3", Separator::SpaceOrComma), vec!["1", "2", "3"]);
    assert_eq!(parts("1, 2", Separator::SpaceOrComma), vec!["1", "", "2"]);
    assert_eq!(parts("", Separator::SpaceOrComma), vec![""]);
    assert_eq!(parts(",", Separator::Comma), vec!["", ""]);
    assert_eq!(parts("1 2,3", Separator::Comma), vec!["1 2", "3"]);
    assert_eq!(parts("a\tb\u{a0}c d", Separator::Whitespace), vec!["a", "b", "c", "d"]);
}

#[test]
fn words_are_the_filled_pieces() {
    let chars = chars_of("  one \n two  ");
    let all = split(&chars, Span { from: 0, to: chars.len() }, Separator::Whitespace);
    let words: Vec<String> = keep_filled(&chars, &all)
        .iter()
        .map(|span| chars[span.from..span.to].iter().collect())
        .collect();
    assert_eq!(words, vec!["one", "two"]);
}

#[test]
fn repeated_prefix_and_suffix_are_trimmed() {
    let trim = |text: &str, prefix: &str, suffix: &str| -> String {
        let chars = chars_of(text);
        let span = trimmed(&chars, &chars_of(prefix), &chars_of(suffix));
        chars[span.from..span.to].iter().collect()
    };
    assert_eq!(trim("scale(scale(2))", "scale(", ")"), "2");
    assert_eq!(trim("10mmmm", "", "mm"), "10");
    assert_eq!(trim("10mmm", "", "mm"), "10m");
    assert_eq!(trim("mm", "", "mm"), "");
    assert_eq!(trim("abab", "ab", "ab"), "");
    assert_eq!(trim("xabab", "ab", ""), "xabab");
    assert!(same_text("größe", "größe"));
    assert!(!same_text("a", "ab"));
}
