use iscp::text::{
    char_is_whitespace, chars_find, chars_occur_at, chars_of, joined, str_contains, str_trim,
};
use iscp::{Json, Member};

#[test]
fn chars_are_handed_out_in_order() {
    assert_eq!(chars_of("a\u{e9}z"), vec!['a', '\u{e9}', 'z']);
    assert!(chars_of("").is_empty());
}

#[test]
fn substring_search_finds_the_first_occurrence() {
    let hay = chars_of("abcabc");
    assert_eq!(chars_find(&hay, &chars_of("bc")), Some(1));
    assert_eq!(chars_find(&hay, &chars_of("abc")), Some(0));
    assert_eq!(chars_find(&hay, &chars_of("cab")), Some(2));
    assert_eq!(chars_find(&hay, &chars_of("")), Some(0));
    assert_eq!(chars_find(&hay, &chars_of("abcabca")), None);
    assert_eq!(chars_find(&hay, &chars_of("x")), None);
    assert_eq!(chars_find(&chars_of(""), &chars_of("")), Some(0));
    assert!(chars_occur_at(&hay, &chars_of("abc"), 3));
    assert!(!chars_occur_at(&hay, &chars_of("abc"), 4));
    assert!(!chars_occur_at(&hay, &chars_of("abc"), 1));
    assert!(chars_occur_at(&hay, &chars_of(""), 6));
    assert!(!chars_occur_at(&hay, &chars_of(""), 7));
}

#[test]
fn contains_agrees_with_std() {
    for (hay, needle) in [
        ("https://etherscan.io", "etherscan"),
        ("https://etherscan.io", "optimistic"),
        ("", ""),
        ("abc", ""),
        ("", "a"),
        ("a/import.sol", "/import.sol"),
        ("import.sol", "/import.sol"),
        ("\u{e9}\u{e9}x", "\u{e9}x"),
    ] {
        assert_eq!(str_contains(hay, needle), hay.contains(needle));
    }
}

#[test]
fn whitespace_agrees_with_std_on_every_character() {
    for code in 0..=0x10FFFFu32 {
        if let Some(c) = char::from_u32(code) {
            assert_eq!(char_is_whitespace(c), c.is_whitespace(), "U+{:04X}", code);
        }
    }
}

#[test]
fn trim_agrees_with_std() {
    for s in [" a ", "\u{85}a\u{1680}", "\u{2028}\u{2029}\u{202f}\u{205f}x", "a\u{b}\u{c}", "\u{180e}a", "\u{feff}a"] {
        assert_eq!(str_trim(s), s.trim());
    }
}

#[test]
fn trim_removes_whitespace_at_both_ends_only() {
    assert_eq!(str_trim("  a b \n"), "a b");
    assert_eq!(str_trim("\u{a0}\u{2003}x\u{3000}"), "x");
    assert_eq!(str_trim("x"), "x");
    assert_eq!(str_trim(""), "");
    assert_eq!(str_trim(" \t\r\n"), "");
    assert_eq!(str_trim("\u{200b}x"), "\u{200b}x");
}

#[test]
fn concat_puts_one_text_after_the_other() {
    assert_eq!(joined("ab", "cd"), "abcd");
    assert_eq!(joined("", ""), "");
}

#[test]
fn json_text_is_read_into_a_tree() {
    let doc = Json::parse(" {\"b\": [1, \"two\", null, true, 2.50], \"a\": {\"k\": \"v\"}} ").unwrap();
    assert_eq!(doc.member("a").unwrap().member("k").unwrap().as_str(), Some("v"));
    assert!(doc.member("c").is_none());
    let b = doc.member("b").unwrap();
    assert!(matches!(b.element(0), Some(Json::Number(n)) if n == "1"));
    assert_eq!(b.element(1).unwrap().as_str(), Some("two"));
    assert!(matches!(b.element(2), Some(Json::Null)));
    assert!(matches!(b.element(3), Some(Json::Bool(true))));
    assert!(matches!(b.element(4), Some(Json::Number(n)) if n == "2.5"));
    assert!(b.element(5).is_none());
    assert!(b.member("a").is_none());
    assert!(doc.element(0).is_none());
    assert!(doc.as_str().is_none());
    assert!(b.as_object().is_none());
    let names: Vec<&str> = doc.as_object().unwrap().iter().map(|m| m.name.as_str()).collect();
    assert_eq!(names, vec!["a", "b"]);
}

#[test]
fn escapes_are_decoded() {
    let doc = Json::parse("\"a\\n\\\"b\\\" \\u00e9\"").unwrap();
    assert_eq!(doc.as_str(), Some("a\n\"b\" \u{e9}"));
}

#[test]
fn what_is_no_json_is_refused() {
    for text in ["", "{", "{\"a\":}", "[1,]", "{} x", "'a'", "{{\"a\":1}}"] {
        assert!(Json::parse(text).is_err());
    }
}

#[test]
fn the_first_member_of_a_name_is_found() {
    let doc = Json::Object(vec![
        Member { name: "k".to_owned(), value: Json::Text("first".to_owned()) },
        Member { name: "k".to_owned(), value: Json::Text("second".to_owned()) },
    ]);
    assert_eq!(doc.member("k").unwrap().as_str(), Some("first"));
    assert!(doc.member("K").is_none());
}
