use petto::text;

#[test]
fn whitespace_is_that_of_unicode() {
    for code in 0..=0x10ffffu32 {
        if let Some(c) = char::from_u32(code) {
            assert_eq!(text::white(c), c.is_whitespace(), "{:x}", code);
        }
    }
}

#[test]
fn trim_drops_whitespace_at_both_ends() {
    for s in ["", " ", "a", "  a b\t\n", "\u{a0}x\u{3000}", "\u{200b}x", "é ü "] {
        assert_eq!(text::trim(s), s.trim());
        assert_eq!(text::trim(&text::trim(s)), s.trim());
    }
}

#[test]
fn slashes_at_the_end_are_dropped() {
    assert_eq!(text::trim_end_slashes("http://x//"), "http://x");
    assert_eq!(text::trim_end_slashes("///"), "");
    assert_eq!(text::trim_end_slashes("/a"), "/a");
}

#[test]
fn split_leaves_no_separator() {
    let parts = text::split("a\n\nb\n\n\n\nc\n", "\n\n");
    let expected: Vec<&str> = "a\n\nb\n\n\n\nc\n".split("\n\n").collect();
    assert_eq!(parts, expected);
    assert_eq!(text::split("", "\n"), vec![""]);
    assert_eq!(text::split("\n\n\n", "\n\n"), vec!["", "\n"]);
}

#[test]
fn join_undoes_split() {
    let parts = text::split("one, two, , three", ", ");
    assert_eq!(parts.len(), 4);
    assert_eq!(text::join(&parts, ", "), "one, two, , three");
    assert_eq!(text::join(&Vec::new(), ", "), "");
    assert_eq!(text::join(&vec!["x".to_string()], ", "), "x");
}

#[test]
fn prefix_is_stripped_where_it_stands() {
    assert_eq!(text::strip_prefix("User: hi", "User:"), Some(" hi".to_string()));
    assert_eq!(text::strip_prefix("user: hi", "User:"), None);
    assert_eq!(text::strip_prefix("Us", "User:"), None);
}

#[test]
fn texts_are_compared_and_found() {
    assert!(text::same("é", "é"));
    assert!(!text::same("é", "e"));
    let list = vec!["a".to_string(), "b".to_string()];
    assert!(text::has(&list, "b"));
    assert!(!text::has(&list, "c"));
}

#[test]
fn decimals_are_written_out() {
    for n in [0u64, 7, 10, 99, 100, 1_234_567_890, u64::MAX] {
        assert_eq!(text::decimal_of(n), n.to_string());
    }
}

#[test]
fn rounding_goes_to_the_nearest_and_from_the_middle_to_even() {
    for (n, rounded) in [(0u64, 0u64), (49, 0), (50, 0), (51, 1), (149, 1), (150, 2), (250, 2)] {
        assert_eq!(text::nearest_of(n, 100), rounded);
        assert_eq!(format!("{:.0}", n as f64 / 100.0), rounded.to_string());
    }
}

#[test]
fn characters_and_back() {
    let chars = text::chars_of("aé😀");
    assert_eq!(chars, vec!['a', 'é', '😀']);
    assert_eq!(text::string_of(&chars, 1, 3), "é😀");
}
