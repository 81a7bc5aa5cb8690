use histdb::text::ends_with;
use histdb::text::from_chars;
use histdb::text::matches_at;
use histdb::text::parse_i32;
use histdb::text::parse_i32_text;
use histdb::text::replace;
use histdb::text::starts_with;
use histdb::text::to_chars;

fn chars(s: &str) -> Vec<char> {
    s.chars().collect()
}

#[test]
fn texts_go_to_characters_and_back() {
    assert_eq!(to_chars("héllo"), vec!['h', 'é', 'l', 'l', 'o']);
    assert_eq!(to_chars(""), Vec::<char>::new());
    assert_eq!(from_chars(&vec!['a', 'ß', 'c']), "aßc");
    assert_eq!(from_chars(&to_chars("round trip ✓")), "round trip ✓");
}

#[test]
fn replace_agrees_with_the_standard_library() {
    let cases = [
        ("", "", ""),
        ("", "", "x"),
        ("", "a", "x"),
        ("abc", "", "-"),
        ("abc", "", ""),
        ("aaa", "aa", "b"),
        ("aaaa", "aa", "b"),
        ("abcabc", "bc", "X"),
        ("abcabc", "abcabc", ""),
        ("abc", "abcd", "X"),
        ("/dev/pts/12", "/dev/pts/", ""),
        ("grep foo | grep bar", "grep", "<grep>"),
        ("ababab", "aba", "c"),
        ("héllo wörld", "ö", "oe"),
        ("xx", "x", "xx"),
    ];
    for (s, from, to) in cases {
        assert_eq!(replace(s, from, to), s.replace(from, to), "{:?} {:?} {:?}", s, from, to);
    }
}

#[test]
fn replace_takes_the_leftmost_matches() {
    assert_eq!(replace("aaa", "aa", "b"), "ba");
    assert_eq!(replace("abc", "", "-"), "-a-b-c-");
}

#[test]
fn prefixes_and_suffixes() {
    assert!(starts_with(&chars("grep foo"), &chars("gr")));
    assert!(starts_with(&chars("grep"), &chars("")));
    assert!(starts_with(&chars("grep"), &chars("grep")));
    assert!(!starts_with(&chars("gr"), &chars("grep")));
    assert!(!starts_with(&chars("ls | grep"), &chars("gr")));
    assert!(ends_with(&chars("/bin/bash"), &chars("bash")));
    assert!(ends_with(&chars("bash"), &chars("bash")));
    assert!(!ends_with(&chars("/bin/zsh"), &chars("bash")));
    assert!(!ends_with(&chars("sh"), &chars("bash")));
    assert!(matches_at(&chars("abcdef"), &chars("cd"), 2));
    assert!(!matches_at(&chars("abcdef"), &chars("cd"), 3));
    assert!(!matches_at(&chars("abc"), &chars("c"), 7));
    assert!(matches_at(&chars("abc"), &chars(""), 3));
}

#[test]
fn decimal_integers_are_read_as_the_standard_library_reads_them() {
    let cases = [
        "0", "7", "-7", "+7", "007", "-0", "2147483647", "2147483648", "-2147483648",
        "-2147483649", "99999999999999999999", "0000000000000000000001", "", "-", "+", "+-1",
        "--1", " 1", "1 ", "1a", "a1", "1.0", "１", "0x10", "-00000000002147483648",
    ];
    for s in cases {
        assert_eq!(parse_i32(s.as_bytes()), s.parse::<i32>().ok(), "{:?}", s);
        assert_eq!(parse_i32_text(&chars(s)), s.parse::<i32>().ok(), "{:?}", s);
    }
}

#[test]
fn decimal_integers_have_their_values() {
    assert_eq!(parse_i32(b"42"), Some(42));
    assert_eq!(parse_i32(b"-2147483648"), Some(i32::MIN));
    assert_eq!(parse_i32(b"2147483647"), Some(i32::MAX));
    assert_eq!(parse_i32(b"2147483648"), None);
    assert_eq!(parse_i32(b"\xff"), None);
    assert_eq!(parse_i32_text(&chars("é")), None);
}
