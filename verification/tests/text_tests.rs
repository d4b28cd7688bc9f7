use tic_tac_toe::text::{parse_number, position, trim};

#[test]
fn trim_removes_white_space_at_both_ends() {
    assert_eq!(trim("  play \n"), "play");
    assert_eq!(trim("play"), "play");
    assert_eq!(trim("\t a b \r\n"), "a b");
    assert_eq!(trim(""), "");
    assert_eq!(trim(" \t\n\u{b}\u{c}\r"), "");
    assert_eq!(trim("\u{3000}x\u{a0}"), "x");
    assert_eq!(trim("\u{85}\u{1680}\u{2000}\u{200a}é\u{2028}\u{2029}\u{202f}\u{205f}"), "é");
}

#[test]
fn trim_keeps_what_is_no_white_space() {
    assert_eq!(trim("\u{200b}x"), "\u{200b}x");
    assert_eq!(trim("\u{1c}x\u{1f}"), "\u{1c}x\u{1f}");
    assert_eq!(trim("_ x _"), "_ x _");
}

#[test]
fn trim_agrees_with_the_standard_library_on_every_single_character() {
    for code in 0..=0x3100u32 {
        if let Some(c) = char::from_u32(code) {
            let text = format!("{}a{}", c, c);
            assert_eq!(trim(&text), text.trim());
        }
    }
}

#[test]
fn parse_number_reads_decimal_digits() {
    assert_eq!(parse_number("0"), Some(0));
    assert_eq!(parse_number("12"), Some(12));
    assert_eq!(parse_number("007"), Some(7));
    assert_eq!(parse_number("+7"), Some(7));
    assert_eq!(parse_number(&usize::MAX.to_string()), Some(usize::MAX));
}

#[test]
fn parse_number_refuses_everything_else() {
    assert_eq!(parse_number(""), None);
    assert_eq!(parse_number("+"), None);
    assert_eq!(parse_number("-"), None);
    assert_eq!(parse_number("-1"), None);
    assert_eq!(parse_number("++1"), None);
    assert_eq!(parse_number("1+"), None);
    assert_eq!(parse_number("1a"), None);
    assert_eq!(parse_number(" 1"), None);
    assert_eq!(parse_number("1.0"), None);
    assert_eq!(parse_number("١"), None);
    assert_eq!(parse_number("340282366920938463463374607431768211456"), None);
    let mut too_large = usize::MAX.to_string();
    too_large.push('0');
    assert_eq!(parse_number(&too_large), None);
}

#[test]
fn parse_number_agrees_with_the_standard_library() {
    let samples = [
        "", "+", "-", "0", "+0", "-0", "1", "2", "10", "99", "0001", "+12", "1 ", " 1", "1,2",
        "x", "12x", "x12", "18446744073709551615", "18446744073709551616", "4294967295",
        "4294967296", "+4294967295", "99999999999999999999999",
    ];
    for sample in samples {
        assert_eq!(parse_number(sample), sample.parse::<usize>().ok());
    }
}

#[test]
fn position_is_a_row_and_a_column_with_one_comma_between() {
    assert_eq!(position("1,2"), Some((1, 2)));
    assert_eq!(position(" 1 , 2 "), Some((1, 2)));
    assert_eq!(position("0,0"), Some((0, 0)));
    assert_eq!(position("2,\t0"), Some((2, 0)));
    assert_eq!(position("10,+3"), Some((10, 3)));
    assert_eq!(position("007,3"), Some((7, 3)));
    assert_eq!(position(&format!("{},0", usize::MAX)), Some((usize::MAX, 0)));
}

#[test]
fn position_needs_exactly_two_fields() {
    assert_eq!(position(""), None);
    assert_eq!(position("7"), None);
    assert_eq!(position("1 2"), None);
    assert_eq!(position("1;2"), None);
    assert_eq!(position("exit"), None);
    assert_eq!(position("1,2,3"), None);
    assert_eq!(position("1,2,"), None);
    assert_eq!(position(",1,2"), None);
    assert_eq!(position("1,,2"), None);
    assert_eq!(position(",,1,,2"), None);
    assert_eq!(position("a,1,2"), None);
    assert_eq!(position("1,x,2"), None);
}

#[test]
fn position_needs_a_number_in_both_fields() {
    assert_eq!(position(","), None);
    assert_eq!(position("1,"), None);
    assert_eq!(position(",2"), None);
    assert_eq!(position("a,2"), None);
    assert_eq!(position("1,b"), None);
    assert_eq!(position("-1,2"), None);
    assert_eq!(position("1,2.0"), None);
    assert_eq!(position("1 1,2"), None);
    assert_eq!(position("1,99999999999999999999999"), None);
}
