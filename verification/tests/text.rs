use audio2mqtt::text::{
    ascii_lowercase, char_is_alphanumeric, char_is_white_space, concat2, concat3, contains_str,
    decimal_string, ends_with_str, is_blank, join_strs, lowercase_char, lowercase_str, split_str,
    starts_with_str,
    str_before, str_eq, trim_slashes_str, trim_str,
};

#[test]
fn white_space_is_that_of_std() {
    for code in 0..=0x10ffffu32 {
        if let Some(c) = char::from_u32(code) {
            assert_eq!(char_is_white_space(c), c.is_whitespace(), "{code:x}");
        }
    }
}

#[test]
fn ascii_letters_and_digits_are_those_of_std() {
    for code in 0..=0x10ffffu32 {
        if let Some(c) = char::from_u32(code) {
            assert_eq!(char_is_alphanumeric(c), c.is_ascii_alphanumeric(), "{code:x}");
        }
    }
}

#[test]
fn trimming_agrees_with_std() {
    for s in [
        "",
        " ",
        "a",
        "  a b  ",
        "\u{a0}\u{2003}x\u{3000}",
        "\t\r\nx y\u{85}",
        "no space",
        "\u{200b}x",
    ] {
        assert_eq!(trim_str(s), s.trim());
        assert_eq!(trim_str(trim_str(s)), s.trim());
        assert_eq!(is_blank(s), s.trim().is_empty());
    }
    for s in ["", "/", "//a/b//", "a/b", " /a/ ", "/ a/"] {
        assert_eq!(trim_slashes_str(s), s.trim_matches('/'));
    }
}

#[test]
fn lower_case_agrees_with_std() {
    for s in ["", "ABC xyz 09", "ÄÖÅ", "İstanbul", "ΑΣ", "straße", "WaV"] {
        assert_eq!(lowercase_str(s), s.to_lowercase());
        assert_eq!(ascii_lowercase(s), s.to_ascii_lowercase());
    }
}

#[test]
fn searching_agrees_with_std() {
    for s in ["", "a", "aab", "abcabc", "äöå", "aaaa"] {
        for p in ["", "a", "ab", "bc", "c", "öå", "aaaaa", "aa"] {
            assert_eq!(contains_str(s, p), s.contains(p), "{s} {p}");
            assert_eq!(starts_with_str(s, p), s.starts_with(p), "{s} {p}");
            assert_eq!(ends_with_str(s, p), s.ends_with(p), "{s} {p}");
        }
    }
}

#[test]
fn splitting_and_joining_agree_with_std() {
    for s in ["", "/", "a", "a/b", "/a//b/", "ä/ö"] {
        let parts = split_str(s, '/');
        let expected: Vec<&str> = s.split('/').collect();
        assert_eq!(parts, expected);
        assert_eq!(join_strs(&parts, "/"), s);
    }
    assert_eq!(join_strs(&vec![], ", "), "");
    assert_eq!(join_strs(&vec!["a".to_string(), "b".to_string()], ", "), "a, b");
}

#[test]
fn ordering_agrees_with_std() {
    let texts = ["", "a", "aa", "ab", "b", "B", "ä", "z", "\u{ffff}", "\u{10000}", "a/b", "a b"];
    for a in texts {
        for b in texts {
            assert_eq!(str_before(a, b), a < b, "{a} {b}");
            assert_eq!(str_eq(a, b), a == b);
        }
    }
}

#[test]
fn numbers_are_written_in_decimal() {
    for n in [0u64, 1, 9, 10, 99, 100, 16000, 4294967296, u64::MAX] {
        assert_eq!(decimal_string(n), n.to_string());
    }
}

#[test]
fn texts_are_put_together() {
    assert_eq!(concat2("a", "b"), "ab");
    assert_eq!(concat3("a", "", "c"), "ac");
}

#[test]
fn no_lower_case_holds_an_ascii_capital() {
    for c in '\0'..=char::MAX {
        let small = lowercase_char(c);
        assert_eq!(small, c.to_lowercase().collect::<Vec<char>>());
        assert!(!small.iter().any(|s| s.is_ascii_uppercase()), "{c:?}");
    }
}

#[test]
fn the_case_of_ascii_letters_does_not_matter_for_lower_case() {
    for c in '\0'..=char::MAX {
        for text in [format!("A{c}b"), format!("{c}B"), format!("a{c}"), format!("Z{c}{c} Q'{c}")] {
            let upper = lowercase_str(&text.to_ascii_uppercase());
            assert_eq!(upper, lowercase_str(&text), "{c:?}");
            assert_eq!(lowercase_str(&text.to_ascii_lowercase()), upper, "{c:?}");
        }
    }
    let sigmas = "AΣ ΣA aΣ. Σ AΣ\u{301}B AΣ\u{301}";
    assert_eq!(lowercase_str(sigmas), sigmas.to_lowercase());
    assert_eq!(lowercase_str(&sigmas.to_ascii_uppercase()), lowercase_str(sigmas));
}
