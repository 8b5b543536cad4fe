use quicken::names::NameMap;
use quicken::order::bytes_precede;
use quicken::{json, paths, split, text};

#[test]
fn white_space_is_what_unicode_says() {
    for n in 0..=0x10ffffu32 {
        if let Some(c) = char::from_u32(n) {
            assert_eq!(text::whitespace(c), c.is_whitespace(), "{n:x}");
        }
    }
}

#[test]
fn trimming_agrees_with_std() {
    for s in ["", " ", "a", " a ", "\u{2003}a b\u{a0}\n", "\t\r\n", "\u{200b}x", "a\u{85}"] {
        assert_eq!(text::trimmed(s), s.trim());
    }
}

#[test]
fn lines_agree_with_std() {
    for s in ["", "a", "a\n", "a\nb", "a\r\nb\r", "\n", "\n\n", "\r\n", "a\r\r\nb", "é\nü\n\n"] {
        let expected: Vec<String> = s.lines().map(str::to_owned).collect();
        assert_eq!(split::lines_of(s), expected, "{s:?}");
    }
}

#[test]
fn words_agree_with_std() {
    for s in ["", " ", "a", " a  b\tc\n", "\u{2003}é\u{a0}x", "1 2 3"] {
        let expected: Vec<String> = s.split_whitespace().map(str::to_owned).collect();
        assert_eq!(split::words_of(s), expected, "{s:?}");
    }
}

#[test]
fn numbers_agree_with_std() {
    for n in [0u64, 1, 9, 10, 15, 16, 99, 100, 255, 4096, u64::from(u32::MAX), u64::MAX] {
        assert_eq!(text::decimal_text(n), n.to_string());
        assert_eq!(text::number_text(n, 16), format!("{n:x}"));
        assert_eq!(text::number_text(n, 8), format!("{n:o}"));
        assert_eq!(text::number_text(n, 2), format!("{n:b}"));
    }
    for n in [0i32, 1, -1, 42, i32::MAX, i32::MIN] {
        assert_eq!(text::signed_text(n), n.to_string());
    }
    for s in [
        "", "+", "-1", "0", "+7", "007", "4294967295", "4294967296", "99999999999999999999", "1 ",
        "++1", "１",
    ] {
        assert_eq!(text::u32_of(s), s.parse::<u32>().ok(), "{s:?}");
    }
    for n in [0u32, 7, 10, 12345, u32::MAX] {
        assert_eq!(text::u32_of(&text::decimal_text(u64::from(n))), Some(n));
    }
}

#[test]
fn padding_agrees_with_std() {
    for s in ["", "a", "abc", "é—", "abcdef"] {
        assert_eq!(text::pad(s, 4), format!("{s:<4}"));
    }
    assert_eq!(text::zero_fill("7", 3), "007");
    assert_eq!(text::zero_fill("1234", 3), "1234");
    assert_eq!(text::dashes(5), "-----");
}

#[test]
fn prefixes_and_suffixes_agree_with_std() {
    for s in ["", "a", "ab", "ba", "éa", "aé"] {
        for p in ["", "a", "b", "é", "abc"] {
            assert_eq!(text::has_prefix(s, p), s.starts_with(p));
            assert_eq!(text::has_suffix(s, p), s.ends_with(p));
            assert_eq!(text::same(s, p), s == p);
        }
    }
}

#[test]
fn joining() {
    let list = |items: &[&str]| items.iter().map(|s| s.to_string()).collect::<Vec<String>>();
    assert_eq!(text::join(&list(&[]), ", "), "");
    assert_eq!(text::join(&list(&["a"]), ", "), "a");
    assert_eq!(text::join(&list(&["a", "", "b"]), ", "), "a, , b");
    assert_eq!(json::strings(&list(&["a", "\n"])), "[\"a\",\"\\n\"]");
    assert_eq!(json::strings(&list(&[])), "[]");
}

#[test]
fn paths_agree_with_std() {
    for base in ["", "/", "/a", "/a/", "a", "a/b//"] {
        for rest in ["x", "x/y"] {
            let expected = std::path::Path::new(base).join(rest);
            assert_eq!(paths::join(base, rest), expected.to_str().unwrap());
        }
    }
}

#[test]
fn bytes_are_ordered_as_in_std() {
    let names: Vec<Vec<u8>> = ["", "a", "ab", "b", "a\u{ff}", "\u{10ffff}", "A"]
        .iter()
        .map(|s| s.as_bytes().to_vec())
        .collect();
    for a in &names {
        for b in &names {
            assert_eq!(bytes_precede(a, b), a < b);
        }
    }
}

#[test]
fn maps_keep_one_value_by_name() {
    let mut map: NameMap<u32> = NameMap::new();
    assert!(map.is_empty());
    map.insert("a".into(), 1);
    map.insert("b".into(), 2);
    map.insert("a".into(), 3);
    assert_eq!(map.get("a"), Some(&3));
    assert_eq!(map.get("b"), Some(&2));
    assert_eq!(map.get("c"), None);
    assert_eq!(map.names(), vec!["a", "b"]);
    map.remove("a");
    map.remove("c");
    assert_eq!(map.get("a"), None);
    assert_eq!(map.get("b"), Some(&2));
    assert!(!map.is_empty());
    map.remove("b");
    assert!(map.is_empty());
}
