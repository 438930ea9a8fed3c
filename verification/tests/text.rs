use thalamic_relay::text::{
    comma_joined, comma_parts, decimal_text, describe_cell, parse_number, text_lines, trim,
    NumberError,
};

#[test]
fn decimal_text_writes_plain_digits() {
    assert_eq!(decimal_text(0), "0");
    assert_eq!(decimal_text(10), "10");
    assert_eq!(decimal_text(1_700_000_000_000), "1700000000000");
    assert_eq!(decimal_text(u128::MAX), u128::MAX.to_string());
}

#[test]
fn trim_removes_every_kind_of_white_space_at_both_ends() {
    for text in ["", " ", "\t a b \r\n", "\u{a0}x\u{2003}", "\u{3000}", "a\u{85}", "\u{200b}x"] {
        assert_eq!(trim(text), text.trim(), "{text:?}");
    }
}

#[test]
fn every_white_space_character_is_trimmed_and_no_other() {
    for code in 0..0x3100u32 {
        if let Some(c) = char::from_u32(code) {
            let text = format!("{c}x");
            assert_eq!(trim(&text), text.trim(), "{code:#x}");
        }
    }
}

#[test]
fn comma_parts_keep_empty_cells() {
    for text in ["", ",", "a", "a,b", "a,,b,", ",a"] {
        let expected: Vec<&str> = text.split(',').collect();
        assert_eq!(comma_parts(text), expected, "{text:?}");
    }
}

#[test]
fn comma_joined_undoes_comma_parts() {
    for text in ["", "a", "a,b", "a,,b,"] {
        assert_eq!(comma_joined(&comma_parts(text)), text);
    }
    assert_eq!(comma_joined(&Vec::new()), "");
}

#[test]
fn text_lines_end_at_line_feeds_with_or_without_carriage_returns() {
    for text in ["", "\n", "a", "a\n", "a\r\nb", "a\r\n\r\nb\r", "\r\r\n", "a\n\n"] {
        let expected: Vec<&str> = text.lines().collect();
        assert_eq!(text_lines(text), expected, "{text:?}");
    }
}

#[test]
fn parse_number_reads_what_the_standard_reader_reads() {
    let texts = [
        "", "+", "-", "-0", "+0", "0", "007", "+18446744073709551615", "18446744073709551615",
        "18446744073709551616", "99999999999999999999999", "1 ", " 1", "1_000", "12a", "++1",
        "\u{661}", "184467440737095516160x",
    ];
    for text in texts {
        match (parse_number(text), text.parse::<u64>()) {
            (Ok(got), Ok(want)) => assert_eq!(got, want, "{text:?}"),
            (Err(got), Err(want)) => assert_eq!(got.as_str(), want.to_string(), "{text:?}"),
            (got, want) => panic!("{text:?}: {got:?} against {want:?}"),
        }
    }
}

#[test]
fn number_errors_are_told_apart() {
    assert_eq!(parse_number(""), Err(NumberError::Empty));
    assert_eq!(parse_number("x"), Err(NumberError::InvalidDigit));
    assert_eq!(parse_number("18446744073709551616"), Err(NumberError::TooLarge));
}

#[test]
fn written_numbers_read_back() {
    for n in [0u64, 9, 10, 1_000, u64::MAX] {
        assert_eq!(parse_number(&decimal_text(n as u128)), Ok(n));
    }
}

#[test]
fn cell_messages_have_three_parts() {
    assert_eq!(describe_cell("power_w", "\"x\"", "no number"), "invalid power_w \"x\": no number");
}
