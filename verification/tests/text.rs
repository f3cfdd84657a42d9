use tictactoe::text::{format_usize, parse_usize};

#[test]
fn formats_zero_and_small_numbers() {
    assert_eq!("0", format_usize(0));
    assert_eq!("7", format_usize(7));
    assert_eq!("10", format_usize(10));
    assert_eq!("12345", format_usize(12345));
}

#[test]
fn formats_the_largest_machine_word() {
    assert_eq!(usize::MAX.to_string(), format_usize(usize::MAX));
}

#[test]
fn parses_plain_and_signed_numbers() {
    assert_eq!(Some(0), parse_usize("0"));
    assert_eq!(Some(42), parse_usize("42"));
    assert_eq!(Some(7), parse_usize("+7"));
    assert_eq!(Some(10), parse_usize("010"));
}

#[test]
fn rejects_what_is_not_a_number() {
    assert_eq!(None, parse_usize(""));
    assert_eq!(None, parse_usize("+"));
    assert_eq!(None, parse_usize("abc"));
    assert_eq!(None, parse_usize("12a"));
    assert_eq!(None, parse_usize(" 1"));
    assert_eq!(None, parse_usize("-1"));
}

#[test]
fn rejects_values_beyond_the_machine_word() {
    let too_large = format!("{}0", usize::MAX);
    assert_eq!(None, parse_usize(&too_large));
    assert_eq!(Some(usize::MAX), parse_usize(&usize::MAX.to_string()));
}

#[test]
fn formatting_then_parsing_round_trips() {
    for n in [0usize, 1, 9, 10, 99, 100, 4096, usize::MAX] {
        assert_eq!(Some(n), parse_usize(&format_usize(n)));
    }
}
