use eurocore::encode::encode;
use eurocore::text::{decimal_text, is_whitespace, replace};

#[test]
fn ascii_passes_through() {
    assert_eq!(encode(""), "");
    assert_eq!(encode("Hello, World! <b>&amp;</b> ~\u{7f}\n"), "Hello, World! <b>&amp;</b> ~\u{7f}\n");
}

#[test]
fn other_characters_become_decimal_references() {
    assert_eq!(encode("Héllo"), "H&#233;llo");
    assert_eq!(encode("\u{80}"), "&#128;");
    assert_eq!(encode("naïve café"), "na&#239;ve caf&#233;");
    assert_eq!(encode("日本"), "&#26085;&#26412;");
    assert_eq!(encode("a😀b"), "a&#128512;b");
    assert_eq!(encode("\u{10FFFF}"), "&#1114111;");
    assert_eq!(encode("—"), "&#8212;");
    assert_eq!(encode("<é>"), "<&#233;>");
}

#[test]
fn encoded_text_is_ascii() {
    let out = encode("Ünïcödé ✓ テスト");
    assert!(out.is_ascii());
    assert_eq!(out, "&#220;n&#239;c&#246;d&#233; &#10003; &#12486;&#12473;&#12488;");
}

#[test]
fn decimal_text_writes_integers() {
    assert_eq!(decimal_text(0), "0");
    assert_eq!(decimal_text(7), "7");
    assert_eq!(decimal_text(42), "42");
    assert_eq!(decimal_text(-42), "-42");
    assert_eq!(decimal_text(1000), "1000");
    assert_eq!(decimal_text(i64::MAX), "9223372036854775807");
    assert_eq!(decimal_text(i64::MIN), "-9223372036854775808");
    for n in -1000..1000i64 {
        assert_eq!(decimal_text(n), n.to_string());
    }
}

#[test]
fn whitespace_is_what_std_calls_whitespace() {
    for code in 0..0x11_0000u32 {
        if let Some(c) = char::from_u32(code) {
            assert_eq!(is_whitespace(c), c.is_whitespace());
        }
    }
}

#[test]
fn replace_swaps_every_occurrence() {
    assert_eq!(replace("a b  c", ' ', '_'), "a_b__c");
    assert_eq!(replace("", ' ', '_'), "");
    assert_eq!(replace("abc", ' ', '_'), "abc");
}

#[test]
fn join_puts_the_separator_between() {
    assert_eq!(eurocore::text::join(&Vec::new(), ','), "");
    assert_eq!(eurocore::text::join(&vec!["a".to_string()], ','), "a");
    assert_eq!(
        eurocore::text::join(&vec!["a".to_string(), String::new(), "b c".to_string()], ','),
        "a,,b c"
    );
}
