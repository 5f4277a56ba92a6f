use audio_import::text::{is_white_space_char, text_eq, to_decimal, trim_text};
use audio_import::units::Seconds;

#[test]
fn trimming_cuts_white_space_at_both_ends_only() {
    assert_eq!(trim_text("  Hello world \n"), "Hello world");
    assert_eq!(trim_text("Hello world"), "Hello world");
    assert_eq!(trim_text("\t a \t b \t"), "a \t b");
    assert_eq!(trim_text("x"), "x");
    assert_eq!(trim_text(" x"), "x");
    assert_eq!(trim_text("x "), "x");
    assert_eq!(trim_text(""), "");
    assert_eq!(trim_text(" \r\n\t "), "");
    assert_eq!(trim_text("\u{a0}\u{3000}né\u{2003}"), "né");
    assert_eq!(trim_text("\u{200b}a\u{200b}"), "\u{200b}a\u{200b}");
}

#[test]
fn trimming_agrees_with_the_standard_library() {
    for code in 0..=0x3100u32 {
        if let Some(c) = char::from_u32(code) {
            assert_eq!(is_white_space_char(c), c.is_whitespace(), "U+{:04X}", code);
            let text = format!("{}a{}b{}", c, c, c);
            assert_eq!(trim_text(&text), text.trim(), "U+{:04X}", code);
        }
    }
    for c in ['\u{feff}', '\u{1680}', '\u{180e}', '\u{e000}', '\u{10ffff}'] {
        assert_eq!(is_white_space_char(c), c.is_whitespace());
    }
}

#[test]
fn texts_are_compared_character_by_character() {
    assert!(text_eq("parakeet", "parakeet"));
    assert!(text_eq("", ""));
    assert!(!text_eq("parakeet", "Parakeet"));
    assert!(!text_eq("a", "ab"));
}

#[test]
fn numbers_are_written_in_decimal() {
    assert_eq!(to_decimal(0), "0");
    assert_eq!(to_decimal(7), "7");
    assert_eq!(to_decimal(10), "10");
    assert_eq!(to_decimal(409), "409");
    assert_eq!(to_decimal(1_000_000), "1000000");
    assert_eq!(to_decimal(u64::MAX), "18446744073709551615");
}

#[test]
fn seconds_are_counted_in_thousandths() {
    let span = Seconds::from_millis(61_250);
    assert_eq!(span, Seconds { thousandths: 61_250 });
    assert_eq!(span.thousandths as f64 / 1000.0, 61.25);
    assert_eq!(Seconds::from_millis(u64::MAX).thousandths, u64::MAX as i128);
    assert_eq!(Seconds::between(250, 1750), Seconds { thousandths: 1500 });
    assert_eq!(Seconds::between(1750, 250), Seconds { thousandths: -1500 });
    assert_eq!(Seconds::between(7, 7), Seconds { thousandths: 0 });
}
