use speedtest::text::{chars_of, decimal_string, split_lines, split_words, trim_chars, after_last_exec, before_first_exec, contains_str, str_eq};

fn lines_of(s: &str) -> Vec<String> {
    split_lines(&chars_of(s)).into_iter().map(|l| l.into_iter().collect()).collect()
}

fn words_of(s: &str) -> Vec<String> {
    split_words(&chars_of(s)).into_iter().map(|l| l.into_iter().collect()).collect()
}

#[test]
fn decimal_string_renders_like_to_string() {
    for n in [0u64, 5, 9, 10, 99, 100, 5201, 65535, u64::MAX] {
        assert_eq!(decimal_string(n), n.to_string());
    }
}

#[test]
fn split_lines_matches_str_lines() {
    let cases = ["", "a", "a\n", "a\nb", "a\r\nb\r\n", "\n\n", "x\r", "one\ntwo\r\n\nthree", "\r\n"];
    for c in cases {
        let expected: Vec<String> = c.lines().map(|l| l.to_string()).collect();
        assert_eq!(lines_of(c), expected, "input {:?}", c);
    }
}

#[test]
fn split_words_matches_split_whitespace() {
    let cases = ["", "   ", "a", " a  b\tc\n", "Admin State    State          Type             Interface Name", "\u{3000}x\u{a0}y "];
    for c in cases {
        let expected: Vec<String> = c.split_whitespace().map(|w| w.to_string()).collect();
        assert_eq!(words_of(c), expected, "input {:?}", c);
    }
}

#[test]
fn trim_matches_str_trim() {
    let cases = ["", "  ", " a ", "\t a b \r\n", "\u{2003}x\u{3000}", "abc"];
    for c in cases {
        let t: String = trim_chars(&chars_of(c)).into_iter().collect();
        assert_eq!(t, c.trim(), "input {:?}", c);
    }
}

#[test]
fn after_last_and_before_first_match_split() {
    let cases = ["", "a:b:c", "no colon", ":", "x:"];
    for c in cases {
        let after: String = after_last_exec(&chars_of(c), ':').into_iter().collect();
        assert_eq!(after, c.split(':').last().unwrap());
        let before: String = before_first_exec(&chars_of(c), ':').into_iter().collect();
        assert_eq!(before, c.split(':').next().unwrap());
    }
}

#[test]
fn contains_and_equality() {
    assert!(contains_str(&chars_of("Hardware Port: Wi-Fi"), "Wi-Fi"));
    assert!(!contains_str(&chars_of("Hardware Port: Ethernet"), "Wi-Fi"));
    assert!(contains_str(&chars_of("abc"), ""));
    assert!(str_eq("udp", "udp"));
    assert!(!str_eq("udp", "tcp"));
}
