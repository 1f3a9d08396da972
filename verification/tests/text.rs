use otpc::text::{chars_of, fit_line, push_decimal, push_repeated, safe_text, starts_with, trim};

#[test]
fn control_codes_become_spaces() {
    assert_eq!(safe_text("a\tb\nc\u{7f}d\u{9b}e"), "a b c d e");
    assert_eq!(safe_text(""), "");
    assert_eq!(safe_text("plain – ünïcode"), "plain – ünïcode");
    assert_eq!(safe_text(&safe_text("a\tb")), safe_text("a\tb"));
}

#[test]
fn lines_are_cut_or_filled_to_the_width() {
    assert_eq!(fit_line("abcdef", 4), "abcd");
    assert_eq!(fit_line("ab", 4), "ab  ");
    assert_eq!(fit_line("abcd", 4), "abcd");
    assert_eq!(fit_line("a\tb", 5), "a b  ");
    assert_eq!(fit_line("äöü", 2), "äö");
    assert_eq!(fit_line("anything", 0), "");
    assert_eq!(fit_line("", 3), "   ");
    assert_eq!(fit_line(&fit_line("abcdef", 4), 4), "abcd");
}

#[test]
fn trimming_takes_white_space_off_both_ends() {
    for text in ["  a b\t\n", "", " \t ", "abc", "\u{a0}x\u{3000}", "\u{85}y\u{2028}", "\u{200b}z"] {
        assert_eq!(trim(text), text.trim());
        assert_eq!(trim(&trim(text)), trim(text));
    }
}

#[test]
fn prefixes_are_found() {
    assert!(starts_with("otpauth://totp", "otpauth://"));
    assert!(!starts_with("otpauth:", "otpauth://"));
    assert!(starts_with("äb", "ä"));
    assert!(starts_with("x", ""));
    assert!(!starts_with("", "x"));
}

#[test]
fn numbers_are_written_in_decimal() {
    for value in [0, 7, 10, 99, 100, 12_345, u64::MAX] {
        let mut text = "n=".to_owned();
        push_decimal(&mut text, value);
        assert_eq!(text, format!("n={value}"));
    }
}

#[test]
fn characters_are_repeated_and_listed() {
    let mut text = "x".to_owned();
    push_repeated(&mut text, '─', 3);
    push_repeated(&mut text, 'y', 0);
    assert_eq!(text, "x───");
    assert_eq!(chars_of("aäb"), vec!['a', 'ä', 'b']);
}
