use erm::casing::{apply_case, is_whitespace_char, CaseTransform};
use erm::listing::{lex_le_chars, listed_files, sort_names, visible_only};
use erm::number::{decimal_chars, pad_zeros_chars, parse_u32, parse_usize};
use erm::text::{chars_of, replace_chars, string_of};

fn v(x: &str) -> Vec<char> {
    x.chars().collect()
}

#[test]
fn replace_chars_cases() {
    assert_eq!(string_of(&replace_chars(&v("a.b.c"), &v("."), &v("::"))), "a::b::c");
    assert_eq!(string_of(&replace_chars(&v("aaaa"), &v("aa"), &v("b"))), "bb");
    assert_eq!(string_of(&replace_chars(&v(""), &v(""), &v("x"))), "x");
    assert_eq!(string_of(&replace_chars(&v("abc"), &v("abcd"), &v("x"))), "abc");
    assert_eq!("h\u{e9}llo".replace("\u{e9}", "e"), string_of(&replace_chars(&v("h\u{e9}llo"), &v("\u{e9}"), &v("e"))));
}

#[test]
fn chars_of_unicode() {
    assert_eq!(chars_of("a\u{e9}\u{1f600}"), vec!['a', '\u{e9}', '\u{1f600}']);
}

#[test]
fn decimal_and_padding() {
    assert_eq!(string_of(&decimal_chars(0)), "0");
    assert_eq!(string_of(&decimal_chars(907)), "907");
    assert_eq!(string_of(&decimal_chars(u64::MAX)), u64::MAX.to_string());
    assert_eq!(string_of(&pad_zeros_chars(&v("7"), 3)), "007");
    assert_eq!(string_of(&pad_zeros_chars(&v("1234"), 3)), "1234");
    assert_eq!(string_of(&pad_zeros_chars(&v("5"), 0)), "5");
}

#[test]
fn parse_like_std() {
    for text in ["42", "+7", "-1", "", "+", "007", " 1", "1 ", "4294967295", "4294967296", "12a", "++1"] {
        assert_eq!(parse_u32(text), text.parse::<u32>().ok(), "u32 {:?}", text);
        assert_eq!(parse_usize(text), text.parse::<usize>().ok(), "usize {:?}", text);
    }
    assert_eq!(parse_u32("4294967295"), Some(u32::MAX));
    assert_eq!(parse_u32("4294967296"), None);
    assert_eq!(parse_usize("18446744073709551615"), Some(usize::MAX));
    assert_eq!(parse_usize("18446744073709551616"), None);
}

#[test]
fn decimal_reads_back() {
    for n in [0u32, 9, 10, 99, 100, 65535, u32::MAX] {
        let text = string_of(&decimal_chars(n as u64));
        assert_eq!(parse_u32(&text), Some(n));
    }
}

#[test]
fn lexicographic_order() {
    assert!(lex_le_chars(&v("a"), &v("b")));
    assert!(lex_le_chars(&v("ab"), &v("abc")));
    assert!(!lex_le_chars(&v("abc"), &v("ab")));
    assert!(lex_le_chars(&v("B"), &v("a")));
    assert!(lex_le_chars(&v(""), &v("")));
}

#[test]
fn listing_hides_dot_files_and_sorts() {
    let names = vec!["b".to_string(), ".hidden".to_string(), "a".to_string(), "C".to_string(), "a".to_string()];
    assert_eq!(listed_files(names.clone()), vec!["C", "a", "a", "b"]);
    assert_eq!(visible_only(names), vec!["b", "a", "C", "a"]);
    let mut expected = vec!["\u{e9}t\u{e9}".to_string(), "zeta".to_string(), "alpha".to_string(), "Zulu".to_string()];
    let sorted = sort_names(expected.clone());
    expected.sort();
    assert_eq!(sorted, expected);
}

#[test]
fn title_and_toggle_case() {
    assert_eq!(apply_case("the QUICK  brown-fox", &CaseTransform::Title), "The Quick  Brown-Fox");
    assert_eq!(apply_case("__x", &CaseTransform::Title), "__X");
    assert_eq!(apply_case("aBc", &CaseTransform::Toggle), "AbC");
    assert_eq!(apply_case("\u{3a3}A", &CaseTransform::Lower), "\u{3a3}A".to_lowercase());
}

#[test]
fn whitespace_matches_std() {
    for code in 0u32..0x3100 {
        if let Some(c) = char::from_u32(code) {
            assert_eq!(is_whitespace_char(c), c.is_whitespace(), "{:?}", c);
        }
    }
    assert!(!is_whitespace_char('\u{10ffff}'));
}

#[test]
fn toggle_twice_gives_ascii_back() {
    for text in ["Hello World_42", "", "ABCxyz-09", "~!@#"] {
        let once = apply_case(text, &CaseTransform::Toggle);
        assert_eq!(once.len(), text.len());
        assert_eq!(apply_case(&once, &CaseTransform::Toggle), text);
    }
}

#[test]
fn ascii_cases_match_std() {
    for text in ["hello world", "MiXeD_case-Words here", "a", "", "  lead", "x-y_z 1a"] {
        assert_eq!(apply_case(text, &CaseTransform::Upper), text.to_ascii_uppercase());
        assert_eq!(apply_case(text, &CaseTransform::Lower), text.to_ascii_lowercase());
        let title = apply_case(text, &CaseTransform::Title);
        assert_eq!(title.len(), text.len());
        assert_eq!(apply_case(&title, &CaseTransform::Title), title);
    }
    assert_eq!(apply_case("MiXeD_case-Words here", &CaseTransform::Title), "Mixed_Case-Words Here");
}
