//! The text functions against those of the standard library.

use dsh_shell::text;

/// Every text of up to `len` characters over an alphabet.
fn texts(alphabet: &[char], len: usize) -> Vec<String> {
    let mut all = vec![String::new()];
    let mut last = all.clone();
    for _ in 0..len {
        let mut longer = Vec::new();
        for text in &last {
            for c in alphabet {
                longer.push(format!("{text}{c}"));
            }
        }
        all.extend(longer.iter().cloned());
        last = longer;
    }
    all
}

#[test]
fn white_space_is_what_unicode_says() {
    for c in '\0'..=char::MAX {
        assert_eq!(text::white(c), c.is_whitespace(), "{c:?}");
    }
}

#[test]
fn letters_change_case_as_ascii_does() {
    for c in '\0'..='\u{2ff}' {
        assert_eq!(text::to_lower(c), c.to_ascii_lowercase(), "{c:?}");
        assert_eq!(text::to_upper(c), c.to_ascii_uppercase(), "{c:?}");
    }
    assert_eq!(text::lower("ÀB-中"), "ÀB-中".to_ascii_lowercase());
}

#[test]
fn texts_are_taken_apart_as_the_standard_library_does() {
    for s in texts(&['a', 'b', ' ', '中'], 5) {
        assert_eq!(text::trim(&s), s.trim());
        assert_eq!(text::split(&s, 'a'), s.split('a').collect::<Vec<_>>());
        assert_eq!(
            text::split_once(&s, 'a'),
            s.split_once('a').map(|(x, y)| (x.to_string(), y.to_string()))
        );
        for pat in ["a", "ab", "aa", "中a"] {
            assert_eq!(text::replace(&s, pat, "<a>"), s.replace(pat, "<a>"), "{s:?} {pat:?}");
            assert_eq!(text::contains(&s, pat), s.contains(pat));
            assert_eq!(text::starts_with(&s, pat), s.starts_with(pat));
        }
        let parts = text::split(&s, 'a');
        assert_eq!(text::join(&parts, "a"), s);
        assert!(text::same_list(&parts, &text::copy_list(&parts)));
    }
    assert!(!text::same_list(&vec!["a".into()], &vec!["b".into()]));
    assert!(!text::same_list(&vec!["a".into()], &vec![]));
}

#[test]
fn numbers_are_read_as_the_standard_library_does() {
    for s in texts(&['0', '9', '+', '-', 'a'], 5) {
        assert_eq!(text::parse_number(&s), s.parse::<u64>().ok(), "{s:?}");
    }
    for s in [
        "18446744073709551615",
        "18446744073709551616",
        "18446744073709551620",
        "99999999999999999999999",
        "00000000000000000000000007",
        "+18446744073709551615",
        "٣",
    ] {
        assert_eq!(text::parse_number(s), s.parse::<u64>().ok(), "{s:?}");
    }
    for n in [0, 9, 10, 4180, u64::MAX] {
        assert_eq!(text::decimal(n), n.to_string());
        assert_eq!(text::parse_number(&text::decimal(n)), Some(n));
    }
}
