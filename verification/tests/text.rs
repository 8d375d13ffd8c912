use pathwarp::text::{chars_equal, chars_of, contains_chars, lowered_chars, to_ascii_lower_char, white_space};

#[test]
fn white_space_matches_std() {
    for u in 0u32..=0x10FFFF {
        if let Some(c) = char::from_u32(u) {
            assert_eq!(white_space(c), c.is_whitespace(), "U+{u:04X}");
        }
    }
}

#[test]
fn ascii_lowering_matches_std() {
    for u in 0u32..0x3000 {
        if let Some(c) = char::from_u32(u) {
            assert_eq!(to_ascii_lower_char(c), c.to_ascii_lowercase(), "U+{u:04X}");
        }
    }
}

#[test]
fn substring_search_matches_std() {
    let hays = ["", "a", "abc", "aaab", "C:\\Work\\repo", "über straße", "ababab"];
    let needles = ["", "a", "b", "ab", "aab", "abc", "Work", "ß", "über s", "bab", "x"];
    for h in hays {
        for n in needles {
            let hv = chars_of(h);
            let nv = chars_of(n);
            assert_eq!(contains_chars(&hv, &nv), h.contains(n), "{h:?} / {n:?}");
        }
    }
}

#[test]
fn chars_and_lowercase() {
    assert_eq!(chars_of("aé中"), vec!['a', 'é', '中']);
    assert_eq!(lowered_chars("ÄbC"), vec!['ä', 'b', 'c']);
    assert!(lowered_chars("").is_empty());
    assert!(chars_equal(&['a', 'b'], &['a', 'b']));
    assert!(!chars_equal(&['a', 'b'], &['a']));
    assert!(!chars_equal(&['a', 'b'], &['a', 'c']));
}
