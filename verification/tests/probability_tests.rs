use botd_edge::probability::{format_probability, parse_probability};

#[test]
fn parses_two_place_fractions() {
    assert_eq!(parse_probability("0.83"), Some(8300));
    assert_eq!(parse_probability("0.91"), Some(9100));
    assert_eq!(parse_probability("0.2"), Some(2000));
    assert_eq!(parse_probability("0.5"), Some(5000));
}

#[test]
fn parses_whole_numbers_and_bare_fractions() {
    assert_eq!(parse_probability("1"), Some(10000));
    assert_eq!(parse_probability("0"), Some(0));
    assert_eq!(parse_probability(".5"), Some(5000));
    assert_eq!(parse_probability("1."), Some(10000));
}

#[test]
fn ignores_digits_past_the_fourth_place() {
    assert_eq!(parse_probability("0.49999"), Some(4999));
    assert_eq!(parse_probability("0.00001"), Some(0));
}

#[test]
fn rejects_malformed_numerals() {
    assert_eq!(parse_probability(""), None);
    assert_eq!(parse_probability("."), None);
    assert_eq!(parse_probability("abc"), None);
    assert_eq!(parse_probability("0.8a"), None);
    assert_eq!(parse_probability("1.2.3"), None);
    assert_eq!(parse_probability("-0.5"), None);
    assert_eq!(parse_probability("12345"), None);
}

#[test]
fn formats_two_places() {
    assert_eq!(format_probability(8300), "0.83");
    assert_eq!(format_probability(2000), "0.20");
    assert_eq!(format_probability(9100), "0.91");
    assert_eq!(format_probability(10000), "1.00");
    assert_eq!(format_probability(0), "0.00");
}

#[test]
fn formats_round_half_up() {
    assert_eq!(format_probability(4999), "0.50");
    assert_eq!(format_probability(4949), "0.49");
    assert_eq!(format_probability(123), "0.01");
    assert_eq!(format_probability(49), "0.00");
    assert_eq!(format_probability(50), "0.01");
}

#[test]
fn round_trip_on_whole_hundredths() {
    for bp in [0u32, 100, 2000, 5000, 8300, 9900, 10000] {
        let s = format_probability(bp);
        assert_eq!(parse_probability(&s), Some(bp));
    }
}
