use nostr_bridge::text::{chars_of, is_whitespace, parse_i64, same_text, split_list, trim_bounds};

fn trimmed(s: &str) -> String {
    let chars = chars_of(s);
    let (a, b) = trim_bounds(&chars, 0, chars.len());
    chars[a..b].iter().collect()
}

#[test]
fn whitespace_is_what_std_calls_whitespace() {
    let mut code: u32 = 0;
    while code <= 0x10FFFF {
        if let Some(c) = char::from_u32(code) {
            assert_eq!(is_whitespace(c), c.is_whitespace(), "U+{:04X}", code);
        }
        code += 1;
    }
}

#[test]
fn whitespace_edge_code_points() {
    assert!(is_whitespace(' '));
    assert!(is_whitespace('\t'));
    assert!(is_whitespace('\n'));
    assert!(is_whitespace('\u{0085}'));
    assert!(is_whitespace('\u{00A0}'));
    assert!(is_whitespace('\u{3000}'));
    assert!(!is_whitespace('\u{200B}'));
    assert!(!is_whitespace('a'));
    assert!(!is_whitespace('\u{0008}'));
    assert!(!is_whitespace('\u{000E}'));
}

#[test]
fn chars_of_keeps_every_character() {
    assert_eq!(chars_of(""), Vec::<char>::new());
    assert_eq!(chars_of("aä📱"), vec!['a', 'ä', '📱']);
}

#[test]
fn same_text_compares_letter_for_letter() {
    assert!(same_text("", ""));
    assert!(same_text("relay", "relay"));
    assert!(!same_text("relay", "Relay"));
    assert!(!same_text("relay", "relay "));
}

#[test]
fn trim_agrees_with_std() {
    let samples = [
        "",
        " ",
        "   ",
        "a",
        " a",
        "a ",
        "  a b  ",
        "\t\nwss://relay.example\r\n",
        "\u{00A0}x\u{3000}",
        "\u{200B}x\u{200B}",
        " ä 📱 ",
    ];
    for s in samples {
        assert_eq!(trimmed(s), s.trim(), "{:?}", s);
    }
}

#[test]
fn trim_bounds_of_an_inner_range() {
    let chars = chars_of("ab,  cd  ,ef");
    assert_eq!(trim_bounds(&chars, 3, 9), (5, 7));
    assert_eq!(trim_bounds(&chars, 3, 5), (5, 5));
    assert_eq!(trim_bounds(&chars, 0, 2), (0, 2));
}

#[test]
fn split_list_exact_values() {
    assert_eq!(split_list("a,b"), vec!["a".to_string(), "b".to_string()]);
    assert_eq!(split_list(" a , b "), vec!["a".to_string(), "b".to_string()]);
    assert_eq!(split_list(""), vec!["".to_string()]);
    assert_eq!(split_list(","), vec!["".to_string(), "".to_string()]);
    assert_eq!(split_list("a,,b"), vec!["a".to_string(), "".to_string(), "b".to_string()]);
    assert_eq!(split_list("a,"), vec!["a".to_string(), "".to_string()]);
    assert_eq!(split_list("wss://one"), vec!["wss://one".to_string()]);
}

#[test]
fn split_list_agrees_with_std() {
    let samples = [
        "",
        ",",
        ",,",
        "a",
        "a,b,c",
        " a ,\tb\n, c ",
        "wss://relay.damus.io, wss://nos.lol ,wss://relay.nostr.band",
        "ä,📱 , \u{00A0}",
    ];
    for s in samples {
        let expected: Vec<String> = s.split(',').map(|f| f.trim().to_string()).collect();
        assert_eq!(split_list(s), expected, "{:?}", s);
    }
}

#[test]
fn parse_i64_exact_values() {
    assert_eq!(parse_i64("0"), Some(0));
    assert_eq!(parse_i64("42"), Some(42));
    assert_eq!(parse_i64("+42"), Some(42));
    assert_eq!(parse_i64("-42"), Some(-42));
    assert_eq!(parse_i64("-1001234567890"), Some(-1001234567890));
    assert_eq!(parse_i64("007"), Some(7));
    assert_eq!(parse_i64("-0"), Some(0));
    assert_eq!(parse_i64("9223372036854775807"), Some(i64::MAX));
    assert_eq!(parse_i64("-9223372036854775808"), Some(i64::MIN));
    assert_eq!(parse_i64("0000000000000000000000000000000000000001"), Some(1));
}

#[test]
fn parse_i64_rejects_what_is_no_number() {
    assert_eq!(parse_i64(""), None);
    assert_eq!(parse_i64("+"), None);
    assert_eq!(parse_i64("-"), None);
    assert_eq!(parse_i64("--1"), None);
    assert_eq!(parse_i64("+-1"), None);
    assert_eq!(parse_i64(" 1"), None);
    assert_eq!(parse_i64("1 "), None);
    assert_eq!(parse_i64("1_000"), None);
    assert_eq!(parse_i64("12a"), None);
    assert_eq!(parse_i64("1.5"), None);
    assert_eq!(parse_i64("٣"), None);
    assert_eq!(parse_i64("9223372036854775808"), None);
    assert_eq!(parse_i64("-9223372036854775809"), None);
    assert_eq!(parse_i64("99999999999999999999999999999999999999999999"), None);
    assert_eq!(parse_i64("99999999999999999999999999999999999999999999x"), None);
}

#[test]
fn parse_i64_agrees_with_std() {
    let samples = [
        "", "0", "-0", "+0", "1", "-1", "+1", "10", "0010", "abc", "1e3", "0x10", "١٢٣",
        "9223372036854775806", "9223372036854775807", "9223372036854775808",
        "-9223372036854775807", "-9223372036854775808", "-9223372036854775809",
        "18446744073709551616", "-", "+", "1-", "1+1", "\t5",
    ];
    for s in samples {
        assert_eq!(parse_i64(s), s.parse::<i64>().ok(), "{:?}", s);
    }
}
