use git_odb::bytes::{bytes_eq, find_byte, starts_with};
use git_odb::decimal::parse_u32;
use git_odb::lines::Lines;
use git_odb::object;
use git_odb::object::Kind;

#[test]
fn find_byte_gives_the_first_of_many() {
    assert_eq!(find_byte(b"a b c", b' '), 1);
    assert_eq!(find_byte(b" a", b' '), 0);
}

#[test]
fn find_byte_gives_the_length_where_there_is_none() {
    assert_eq!(find_byte(b"abc", b' '), 3);
    assert_eq!(find_byte(b"", b' '), 0);
}

#[test]
fn bytes_eq_compares_length_and_contents() {
    assert!(bytes_eq(b"tag", b"tag"));
    assert!(bytes_eq(b"", b""));
    assert!(!bytes_eq(b"tag", b"tagger"));
    assert!(!bytes_eq(b"tag", b"tab"));
}

#[test]
fn starts_with_compares_the_first_bytes() {
    assert!(starts_with(b"tagger", b"tag"));
    assert!(starts_with(b"tag", b"tag"));
    assert!(starts_with(b"tag", b""));
    assert!(!starts_with(b"ta", b"tag"));
    assert!(!starts_with(b"tbg", b"tag"));
}

#[test]
fn parse_u32_reads_digits() {
    assert_eq!(parse_u32(b"0"), Some(0));
    assert_eq!(parse_u32(b"1112911993"), Some(1112911993));
    assert_eq!(parse_u32(b"4294967295"), Some(u32::MAX));
}

#[test]
fn parse_u32_accepts_one_plus_and_leading_zeros() {
    assert_eq!(parse_u32(b"+5"), Some(5));
    assert_eq!(parse_u32(b"007"), Some(7));
    assert_eq!(parse_u32(b"+000000000000000000012"), Some(12));
    assert_eq!(parse_u32(b"00000000004294967295"), Some(u32::MAX));
}

#[test]
fn parse_u32_agrees_with_the_standard_library() {
    for text in [
        "", "+", "-", "0", "+0", "-0", "12", " 12", "12 ", "1_2", "++1", "4294967295",
        "4294967296", "99999999999",
    ] {
        assert_eq!(parse_u32(text.as_bytes()), text.parse::<u32>().ok(), "{:?}", text);
    }
}

#[test]
fn parse_u32_refuses_what_is_no_number() {
    assert_eq!(parse_u32(b""), None);
    assert_eq!(parse_u32(b"+"), None);
    assert_eq!(parse_u32(b"-1"), None);
    assert_eq!(parse_u32(b"1a"), None);
    assert_eq!(parse_u32(b"\xff"), None);
}

#[test]
fn parse_u32_refuses_what_does_not_fit() {
    assert_eq!(parse_u32(b"4294967296"), None);
    assert_eq!(parse_u32(b"18446744073709551616"), None);
    assert_eq!(parse_u32(b"42949672950"), None);
}

#[test]
fn lines_of_a_buffer_that_ends_in_a_newline() {
    let mut lines = Lines::new(b"a\nbc\n");
    assert_eq!(lines.remainder(), Some(&b"a\nbc\n"[..]));
    assert_eq!(lines.next(), Some(&b"a"[..]));
    assert_eq!(lines.remainder(), Some(&b"bc\n"[..]));
    assert_eq!(lines.next(), Some(&b"bc"[..]));
    assert_eq!(lines.remainder(), Some(&b""[..]));
    assert_eq!(lines.next(), Some(&b""[..]));
    assert_eq!(lines.remainder(), None);
    assert_eq!(lines.next(), None);
    assert_eq!(lines.next(), None);
}

#[test]
fn lines_of_a_buffer_without_last_newline() {
    let mut lines = Lines::new(b"a\n\nb");
    assert_eq!(lines.next(), Some(&b"a"[..]));
    assert_eq!(lines.next(), Some(&b""[..]));
    assert_eq!(lines.next(), Some(&b"b"[..]));
    assert_eq!(lines.next(), None);
}

#[test]
fn lines_of_an_empty_buffer() {
    let mut lines = Lines::new(b"");
    assert_eq!(lines.next(), Some(&b""[..]));
    assert_eq!(lines.next(), None);
}

#[test]
fn lines_agree_with_the_standard_library() {
    for text in ["", "\n", "a", "a\n", "\na", "a\nb", "a\n\n", "\n\n\n", "ab\ncd\nef"] {
        let mut lines = Lines::new(text.as_bytes());
        for expected in text.as_bytes().split(|&b| b == b'\n') {
            assert_eq!(lines.next(), Some(expected), "{:?}", text);
        }
        assert_eq!(lines.next(), None, "{:?}", text);
    }
}

#[test]
fn kind_of_each_name() {
    assert_eq!(Kind::from_bytes(b"tag").unwrap(), Kind::Tag);
    assert_eq!(Kind::from_bytes(b"commit").unwrap(), Kind::Commit);
    assert_eq!(Kind::from_bytes(b"tree").unwrap(), Kind::Tree);
    assert_eq!(Kind::from_bytes(b"blob").unwrap(), Kind::Blob);
}

#[test]
fn kind_of_unknown_name_fails_with_the_name() {
    for name in [&b""[..], b"Tag", b"tags", b"ta", b"commit "] {
        match Kind::from_bytes(name) {
            Err(object::Error::InvalidObjectKind(found)) => assert_eq!(found, name),
            other => panic!("expected an unknown kind, found {:?}", other),
        }
    }
}
