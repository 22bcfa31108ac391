use sys_switch::text::{decimal_string, join_strings, split_str, str_contains, trim_str};

#[test]
fn split_on_blank_lines() {
    let pieces = split_str("a\n\nb\n\n\nc", "\n\n");
    assert_eq!(pieces, vec!["a".to_string(), "b".to_string(), "\nc".to_string()]);
}

#[test]
fn split_without_separator_gives_whole_text() {
    assert_eq!(split_str("abc", "\r\n\r\n"), vec!["abc".to_string()]);
    assert_eq!(split_str("", "\n\n"), vec!["".to_string()]);
}

#[test]
fn split_matches_std_split() {
    for (text, sep) in [
        ("x\r\n\r\ny\r\n\r\n", "\r\n\r\n"),
        ("\n\n\n\n", "\n\n"),
        ("aaa", "aa"),
        ("恢复\n\n环境", "\n\n"),
    ] {
        let expected: Vec<String> = text.split(sep).map(|s| s.to_string()).collect();
        assert_eq!(split_str(text, sep), expected);
    }
}

#[test]
fn split_then_join_gives_back_text() {
    let text = "one\n\ntwo\n\n\n\nthree";
    let pieces = split_str(text, "\n\n");
    assert_eq!(join_strings(&pieces, "\n\n"), text);
}

#[test]
fn trim_matches_std_trim() {
    for s in ["  a b  ", "\t\u{3000}x\u{a0}\r", "", "   ", "no-space", "\u{85}y\u{2028}"] {
        assert_eq!(trim_str(s), s.trim());
    }
}

#[test]
fn contains_finds_substrings() {
    assert!(str_contains("windows recovery environment", "recovery"));
    assert!(str_contains("abc", ""));
    assert!(!str_contains("abc", "abcd"));
    assert!(!str_contains("", "a"));
    assert!(str_contains("固件启动管理器", "启动"));
}

#[test]
fn decimal_matches_to_string() {
    for n in [0usize, 7, 10, 42, 1000, 98765, usize::MAX] {
        assert_eq!(decimal_string(n), n.to_string());
    }
}

#[test]
fn join_with_spaces() {
    let args = vec!["--cli".to_string(), "list".to_string()];
    assert_eq!(join_strings(&args, " "), "--cli list");
    assert_eq!(join_strings(&Vec::new(), " "), "");
}
