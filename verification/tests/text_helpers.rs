use vramancer::text::{
    chars_of, contains_str, decimal_string, find, first_piece, first_word_exec, last_piece,
    lines, parse_u64, split, string_of, trim,
};

fn v(s: &str) -> Vec<char> {
    s.chars().collect()
}

fn s(v: &[char]) -> String {
    v.iter().collect()
}

#[test]
fn chars_round_trip() {
    let c = chars_of("héllo wörld");
    assert_eq!(c.len(), 11);
    assert_eq!(string_of(&c), "héllo wörld");
}

#[test]
fn find_and_contains() {
    assert_eq!(find(&v("abcabc"), &v("ca")), Some(2));
    assert_eq!(find(&v("abc"), &v("abcd")), None);
    assert_eq!(find(&v("abc"), &v("")), Some(0));
    assert!(contains_str(&v("llama3:8b"), "llama"));
    assert!(!contains_str(&v("llam"), "llama"));
}

#[test]
fn split_pieces() {
    let parts = split(&v("a,b,,c"), &v(","));
    let texts: Vec<String> = parts.iter().map(|p| s(p)).collect();
    assert_eq!(texts, vec!["a", "b", "", "c"]);
    assert_eq!(s(&last_piece(&v("TheBloke/Llama-2"), &v("/"))), "Llama-2");
    assert_eq!(s(&last_piece(&v("noslash"), &v("/"))), "noslash");
    assert_eq!(s(&first_piece(&v("name?x=1?y"), &v("?"))), "name");
    // non-overlapping occurrences, found from the left
    let parts = split(&v("aaa"), &v("aa"));
    let texts: Vec<String> = parts.iter().map(|p| s(p)).collect();
    assert_eq!(texts, vec!["", "a"]);
}

#[test]
fn trim_unicode_space() {
    assert_eq!(s(&trim(&v("  \t hi there \n"))), "hi there");
    assert_eq!(s(&trim(&v("\u{3000}x\u{a0}"))), "x");
    assert_eq!(s(&trim(&v("   "))), "");
    assert_eq!(s(&trim(&v(""))), "");
    assert_eq!("\u{2003}y\u{85}".trim(), s(&trim(&v("\u{2003}y\u{85}"))));
}

#[test]
fn first_words() {
    assert_eq!(first_word_exec(&v("  llama3:8b   abc")).map(|w| s(&w)), Some("llama3:8b".to_string()));
    assert_eq!(first_word_exec(&v(" \t ")), None);
}

#[test]
fn lines_like_std() {
    for text in ["a\nb", "a\r\nb\r\n", "", "\n", "a\n\n", "x\r", "a\rb\nc"] {
        let ours: Vec<String> = lines(&v(text)).iter().map(|l| s(l)).collect();
        let std_lines: Vec<String> = text.lines().map(|l| l.to_string()).collect();
        assert_eq!(ours, std_lines, "lines of {:?}", text);
    }
}

#[test]
fn parse_u64_like_std() {
    for text in ["0", "42", "+7", "", "+", "-1", "12a", "18446744073709551615", "18446744073709551616", "007", "٣"] {
        assert_eq!(parse_u64(&v(text)), text.parse::<u64>().ok(), "parse of {:?}", text);
    }
}

#[test]
fn decimal_strings() {
    assert_eq!(s(&decimal_string(0)), "0");
    assert_eq!(s(&decimal_string(1024)), "1024");
    assert_eq!(s(&decimal_string(u64::MAX)), u64::MAX.to_string());
    assert_eq!(parse_u64(&decimal_string(987654321)), Some(987654321));
}
