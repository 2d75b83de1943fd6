use status_pages::status::{is_status_code, status_line};
use status_pages::text::{char_is_whitespace, parse_u16, same_text, trim};

#[test]
fn whitespace_is_what_unicode_says() {
    for code in 0..=0x10FFFFu32 {
        if let Some(c) = char::from_u32(code) {
            assert_eq!(char_is_whitespace(c), c.is_whitespace(), "U+{code:04X}");
        }
    }
}

#[test]
fn trim_drops_whitespace_at_both_ends() {
    for s in [
        "", " ", "  \t\n", "a", " a", "a ", "  a b  ", "\u{3000}x\u{2003}", "\u{200b}x\u{200b}",
        "\u{85}200\u{a0}", "favicon.ico", "é \u{1680}", "\r\n\u{b}\u{c}z",
    ] {
        assert_eq!(trim(s), s.trim(), "{s:?}");
    }
    assert_eq!(trim("  a b  "), "a b");
    assert_eq!(trim("\u{200b}x"), "\u{200b}x");
}

#[test]
fn parse_u16_reads_numbers() {
    assert_eq!(parse_u16("0"), Some(0));
    assert_eq!(parse_u16("200"), Some(200));
    assert_eq!(parse_u16("+200"), Some(200));
    assert_eq!(parse_u16("000404"), Some(404));
    assert_eq!(parse_u16("65535"), Some(65535));
    assert_eq!(parse_u16("0000000000000000000065535"), Some(65535));
    assert_eq!(parse_u16("65536"), None);
    assert_eq!(parse_u16("99999"), None);
    assert_eq!(parse_u16("4294967296"), None);
    assert_eq!(parse_u16(""), None);
    assert_eq!(parse_u16("+"), None);
    assert_eq!(parse_u16("-"), None);
    assert_eq!(parse_u16("-1"), None);
    assert_eq!(parse_u16("++1"), None);
    assert_eq!(parse_u16("1+"), None);
    assert_eq!(parse_u16(" 1"), None);
    assert_eq!(parse_u16("12a"), None);
    assert_eq!(parse_u16("1.0"), None);
    assert_eq!(parse_u16("٣"), None);
}

#[test]
fn parse_u16_agrees_with_std() {
    for n in 0..=70000u32 {
        let s = n.to_string();
        assert_eq!(parse_u16(&s), s.parse::<u16>().ok());
        let signed = format!("+{n}");
        assert_eq!(parse_u16(&signed), signed.parse::<u16>().ok());
    }
    for s in ["", "+", "-0", "0x10", "1e3", "１２", "1_000", "+-1", "18446744073709551616"] {
        assert_eq!(parse_u16(s), s.parse::<u16>().ok(), "{s:?}");
    }
}

#[test]
fn same_text_compares_characters() {
    assert!(same_text("", ""));
    assert!(same_text("img/dab.png", "img/dab.png"));
    assert!(same_text("é", "é"));
    assert!(!same_text("a", "b"));
    assert!(!same_text("a", "ab"));
    assert!(!same_text("ab", "a"));
    assert!(!same_text("é", "e"));
}

#[test]
fn registered_codes() {
    for code in [100u16, 102, 200, 226, 308, 404, 418, 431, 451, 511] {
        assert!(is_status_code(code), "{code}");
    }
    for code in [0u16, 1, 99, 104, 209, 306, 419, 512, 600, 999, 1000, 65535] {
        assert!(!is_status_code(code), "{code}");
    }
}

#[test]
fn status_line_writes_code_and_reason() {
    assert_eq!(status_line(200), Some("200 OK".to_string()));
    assert_eq!(status_line(404), Some("404 Not Found".to_string()));
    assert_eq!(status_line(418), Some("418 I'm a teapot".to_string()));
    assert_eq!(status_line(500), Some("500 Internal Server Error".to_string()));
    assert_eq!(status_line(999), None);
    assert_eq!(status_line(99), None);
    assert_eq!(status_line(0), None);
    assert_eq!(status_line(65535), None);
}

#[test]
fn long_texts_are_read_in_one_pass() {
    let zeros = "0".repeat(200_000);
    assert_eq!(parse_u16(&format!("{zeros}404")), Some(404));
    assert_eq!(parse_u16(&format!("+{zeros}65536")), None);
    let blanks = " ".repeat(200_000);
    assert_eq!(trim(&format!("{blanks}x{blanks}")), "x");
    assert_eq!(trim(&blanks), "");
    let long = "a".repeat(200_000);
    assert!(same_text(&long, &long.clone()));
}
