use aquarium::text::{decimal_string, pad_right_str, sort_names, str_lt, trim_str};

#[test]
fn names_sort_like_strings() {
    let names: Vec<String> = ["status.json", "b", "B", "a", "ab", "", "é", "a"]
        .iter()
        .map(|s| s.to_string())
        .collect();
    let mut expected = names.clone();
    expected.sort();
    assert_eq!(sort_names(names), expected);
    assert!(sort_names(Vec::new()).is_empty());
}

#[test]
fn text_order() {
    for (a, b) in [("a", "b"), ("", "a"), ("ab", "abc"), ("Z", "a"), ("z", "é"), ("abc", "abd")] {
        assert!(str_lt(a, b), "{a} < {b}");
        assert!(!str_lt(b, a), "{b} < {a}");
        assert_eq!(str_lt(a, b), a < b);
    }
    assert!(!str_lt("same", "same"));
}

#[test]
fn trimming() {
    assert_eq!(trim_str("  renderer next \t\n"), "renderer next");
    assert_eq!(trim_str("\u{3000}x\u{a0}"), "x");
    assert_eq!(trim_str("   "), "");
    assert_eq!(trim_str(""), "");
}

#[test]
fn decimal_text() {
    assert_eq!(decimal_string(0), "0");
    assert_eq!(decimal_string(7), "7");
    assert_eq!(decimal_string(1700000000123), "1700000000123");
    assert_eq!(decimal_string(u128::MAX), u128::MAX.to_string());
}

#[test]
fn padding() {
    assert_eq!(pad_right_str("help", 10), "help      ");
    assert_eq!(pad_right_str("renderer [mode|next|list]", 24), "renderer [mode|next|list]");
}
