use neuron_core::decimal::decimal_text;
use neuron_core::decimal::parse_number;
use neuron_core::error::UpdateCheckError;
use neuron_core::version::parse_version;
use neuron_core::version::render_version;
use neuron_core::version::Version;

#[test]
fn numbers_are_written_in_decimal() {
    assert_eq!(decimal_text(0), b"0".to_vec());
    assert_eq!(decimal_text(9), b"9".to_vec());
    assert_eq!(decimal_text(10), b"10".to_vec());
    assert_eq!(decimal_text(90210), b"90210".to_vec());
    assert_eq!(decimal_text(u64::MAX), b"18446744073709551615".to_vec());
}

#[test]
fn numerals_are_read() {
    assert_eq!(parse_number(b"0"), Some(0));
    assert_eq!(parse_number(b"7"), Some(7));
    assert_eq!(parse_number(b"10"), Some(10));
    assert_eq!(parse_number(b"90210"), Some(90210));
    assert_eq!(parse_number(b"18446744073709551615"), Some(u64::MAX));
}

#[test]
fn text_that_is_no_numeral_is_refused() {
    assert_eq!(parse_number(b""), None);
    assert_eq!(parse_number(b"00"), None);
    assert_eq!(parse_number(b"07"), None);
    assert_eq!(parse_number(b"-1"), None);
    assert_eq!(parse_number(b"+1"), None);
    assert_eq!(parse_number(b"1a"), None);
    assert_eq!(parse_number(b"a1"), None);
    assert_eq!(parse_number(b" 1"), None);
    assert_eq!(parse_number(b"1 "), None);
    assert_eq!(parse_number(b"1/"), None);
    assert_eq!(parse_number(b"1:"), None);
}

#[test]
fn numerals_beyond_sixty_four_bits_are_refused() {
    assert_eq!(parse_number(b"18446744073709551616"), None);
    assert_eq!(parse_number(b"18446744073709551620"), None);
    assert_eq!(parse_number(b"99999999999999999999"), None);
    assert_eq!(parse_number(b"184467440737095516150"), None);
}

#[test]
fn reading_what_was_written_gives_the_number_back() {
    for n in [0u64, 1, 9, 10, 11, 99, 100, 12345678901234567890, u64::MAX - 1, u64::MAX] {
        assert_eq!(parse_number(&decimal_text(n)), Some(n));
    }
}

#[test]
fn versions_are_written_with_dots() {
    assert_eq!(render_version(&Version::new(1, 4, 2)), b"1.4.2".to_vec());
    assert_eq!(render_version(&Version::new(0, 0, 0)), b"0.0.0".to_vec());
    assert_eq!(render_version(&Version::new(10, 200, 3000)), b"10.200.3000".to_vec());
}

#[test]
fn versions_are_read() {
    assert_eq!(parse_version(b"1.4.2"), Ok(Version::new(1, 4, 2)));
    assert_eq!(parse_version(b"0.0.0"), Ok(Version::new(0, 0, 0)));
    assert_eq!(parse_version(b"10.200.3000"), Ok(Version::new(10, 200, 3000)));
    assert_eq!(
        parse_version(b"18446744073709551615.0.1"),
        Ok(Version::new(u64::MAX, 0, 1))
    );
}

#[test]
fn text_that_is_no_version_is_a_parse_error() {
    let refused: [&[u8]; 16] = [
        b"",
        b"1",
        b"1.4",
        b"1.4.2.0",
        b"1..2",
        b".4.2",
        b"1.4.",
        b"..",
        b"v1.4.2",
        b"1.4.2\n",
        b"1.04.2",
        b"1.4.x",
        b"1,4,2",
        b"1.4.2-rc1",
        b"18446744073709551616.0.0",
        b" 1.4.2",
    ];
    for text in refused {
        assert_eq!(parse_version(text), Err(UpdateCheckError::Parse));
    }
}

#[test]
fn reading_a_written_version_gives_it_back() {
    for version in [
        Version::new(0, 0, 0),
        Version::new(1, 4, 2),
        Version::new(u64::MAX, u64::MAX, u64::MAX),
        Version::new(7, 0, 19),
    ] {
        assert_eq!(parse_version(&render_version(&version)), Ok(version));
    }
}
