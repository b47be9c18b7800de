use git_odb::object::parsed::{parse_timezone_offset, Error};
use git_odb::Sign;

fn expect_parse_error<T: std::fmt::Debug>(result: Result<T, Error>, reason: &str, bytes: &[u8]) {
    match result {
        Err(Error::ParseError(found_reason, found_bytes)) => {
            assert_eq!(found_reason, reason);
            assert_eq!(found_bytes, bytes);
        }
        other => panic!("expected a parse error, found {:?}", other),
    }
}

#[test]
fn offset_of_utc_is_zero() {
    assert_eq!(parse_timezone_offset(b"+0000").unwrap(), (0, Sign::Plus));
}

#[test]
fn offset_of_two_hours_east() {
    assert_eq!(parse_timezone_offset(b"+0200").unwrap(), (7200, Sign::Plus));
}

#[test]
fn offset_with_minutes_east() {
    assert_eq!(parse_timezone_offset(b"+0530").unwrap(), (5 * 3600 + 30 * 60, Sign::Plus));
}

#[test]
fn offset_west_is_negative() {
    assert_eq!(parse_timezone_offset(b"-0700").unwrap(), (-25200, Sign::Minus));
}

#[test]
fn offset_west_counts_the_minutes_westwards() {
    assert_eq!(parse_timezone_offset(b"-0130").unwrap(), (-5400, Sign::Minus));
    assert_eq!(parse_timezone_offset(b"-0030").unwrap(), (-1800, Sign::Minus));
}

#[test]
fn offset_west_negates_offset_east() {
    for digits in ["0000", "0130", "0545", "1200", "9959"] {
        let east = parse_timezone_offset(format!("+{}", digits).as_bytes()).unwrap();
        let west = parse_timezone_offset(format!("-{}", digits).as_bytes()).unwrap();
        assert_eq!(west.0, -east.0);
        assert_eq!(east.1, Sign::Plus);
        assert_eq!(west.1, Sign::Minus);
    }
}

#[test]
fn offset_keeps_the_sign_of_minus_zero() {
    assert_eq!(parse_timezone_offset(b"-0000").unwrap(), (0, Sign::Minus));
}

#[test]
fn offset_of_largest_hours_and_minutes() {
    assert_eq!(parse_timezone_offset(b"+9959").unwrap(), (99 * 3600 + 59 * 60, Sign::Plus));
}

#[test]
fn offset_shorter_than_five_bytes_is_rejected() {
    for short in [&b""[..], b"+", b"+0", b"+02", b"+020", b"-020"] {
        expect_parse_error(parse_timezone_offset(short), "invalid timezone offset", short);
    }
}

#[test]
fn offset_without_sign_is_rejected() {
    for unsigned in [&b"00200"[..], b" 0200", b"02000", b"*0200"] {
        expect_parse_error(parse_timezone_offset(unsigned), "invalid timezone offset", unsigned);
    }
}

#[test]
fn offset_with_bad_hours_is_rejected() {
    expect_parse_error(parse_timezone_offset(b"+0a00"), "invalid 'hours' string", b"+0a");
    expect_parse_error(parse_timezone_offset(b"+ 200"), "invalid 'hours' string", b"+ 2");
    expect_parse_error(parse_timezone_offset(b"--200"), "invalid 'hours' string", b"--2");
}

#[test]
fn offset_with_bad_minutes_is_rejected() {
    expect_parse_error(parse_timezone_offset(b"+02x0"), "invalid 'minutes' string", b"x0");
    expect_parse_error(parse_timezone_offset(b"+020 "), "invalid 'minutes' string", b"0 ");
    expect_parse_error(parse_timezone_offset(b"+02-30"), "invalid 'minutes' string", b"-30");
}

#[test]
fn offset_reads_all_bytes_behind_the_hours_as_minutes() {
    assert_eq!(parse_timezone_offset(b"+020030").unwrap(), (7200 + 30 * 60, Sign::Plus));
    assert_eq!(parse_timezone_offset(b"+02120").unwrap(), (7200 + 120 * 60, Sign::Plus));
}

#[test]
fn offset_beyond_32_bits_is_rejected() {
    expect_parse_error(
        parse_timezone_offset(b"+0099999999"),
        "invalid 'minutes' string",
        b"99999999",
    );
    expect_parse_error(
        parse_timezone_offset(b"-004294967295"),
        "invalid 'minutes' string",
        b"4294967295",
    );
    expect_parse_error(
        parse_timezone_offset(b"+0099999999999"),
        "invalid 'minutes' string",
        b"99999999999",
    );
}

#[test]
fn offset_at_the_edge_of_32_bits() {
    // 35791394 * 60 = 2147483640
    assert_eq!(parse_timezone_offset(b"+0035791394").unwrap(), (2147483640, Sign::Plus));
    assert_eq!(parse_timezone_offset(b"-0035791394").unwrap(), (-2147483640, Sign::Minus));
    expect_parse_error(
        parse_timezone_offset(b"+0035791395"),
        "invalid 'minutes' string",
        b"35791395",
    );
    expect_parse_error(
        parse_timezone_offset(b"+0135791394"),
        "invalid 'minutes' string",
        b"35791394",
    );
}
