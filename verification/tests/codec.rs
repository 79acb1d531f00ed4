use nickmass_com::bytes::{ascii_text, find_first, find_last, same_bytes};
use nickmass_com::codec::{bind, frame, parse, plain_text, unframe};
use nickmass_com::decimal::{decimal_text, parse_u64};

#[test]
fn plain_text_is_key_dot_address() {
    assert_eq!(plain_text("key", "::1"), b"key.::1".to_vec());
    assert_eq!(plain_text("", ""), b".".to_vec());
    assert_eq!(plain_text("a.b", "1.2"), b"a.b.1.2".to_vec());
    assert_eq!(plain_text("\u{e9}", "x"), vec![0xc3, 0xa9, 0x2e, b'x']);
}

#[test]
fn bind_splits_at_the_last_dot() {
    assert_eq!(bind(b"key.::1", "::1"), Some("key".to_string()));
    assert_eq!(bind(b"a.b.::1", "::1"), Some("a.b".to_string()));
    assert_eq!(bind(b".", ""), Some(String::new()));
    assert_eq!(bind(b"key.", ""), Some("key".to_string()));
    assert_eq!(bind(b".addr", "addr"), Some(String::new()));
}

#[test]
fn bind_refuses_another_address() {
    assert_eq!(bind(b"key.::1", "::2"), None);
    assert_eq!(bind(b"key.::1", ""), None);
    assert_eq!(bind(b"key.::1", "::10"), None);
    assert_eq!(bind(b"key.::1", "key.::1"), None);
    assert_eq!(bind(b"key.1.2.3.4", "1.2.3.4"), None);
    assert_eq!(bind(b"key.1.2.3.4", "4"), Some("key.1.2.3".to_string()));
}

#[test]
fn bind_refuses_text_without_a_dot() {
    assert_eq!(bind(b"", ""), None);
    assert_eq!(bind(b"key", "key"), None);
    assert_eq!(bind(b"key", ""), None);
}

#[test]
fn bind_refuses_a_key_that_is_not_text() {
    assert_eq!(bind(&[0xff, 0x2e, b'a'], "a"), None);
    assert_eq!(bind(&[0xc3, 0x2e, b'a'], "a"), None);
    assert_eq!(bind(&[0xc3, 0xa9, 0x2e, b'a'], "a"), Some("\u{e9}".to_string()));
}

#[test]
fn unframe_splits_at_the_first_dot() {
    assert_eq!(unframe(b"ab.cd"), Some((&b"ab"[..], &b"cd"[..])));
    assert_eq!(unframe(b"ab.cd.ef"), Some((&b"ab"[..], &b"cd.ef"[..])));
    assert_eq!(unframe(b"."), Some((&b""[..], &b""[..])));
    assert_eq!(unframe(b".x"), Some((&b""[..], &b"x"[..])));
    assert_eq!(unframe(b"abcd"), None);
    assert_eq!(unframe(b""), None);
}

#[test]
fn frame_writes_base64_around_a_dot() {
    assert_eq!(frame(&[0u8; 12], b"hi"), Some("AAAAAAAAAAAAAAAA.aGk=".to_string()));
    assert_eq!(frame(&[0u8; 12], b""), Some("AAAAAAAAAAAAAAAA.".to_string()));
    assert_eq!(
        frame(&[0xff; 12], &[0xfb, 0xff, 0xfe]),
        Some("////////////////.+//+".to_string())
    );
    assert_eq!(frame(b"hello world!", b"hello world"), Some("aGVsbG8gd29ybGQh.aGVsbG8gd29ybGQ=".to_string()));
}

#[test]
fn parse_reads_what_frame_writes() {
    let sealed: Vec<u8> = (0u8..=255).collect();
    let nonce = [1u8, 2, 3, 4, 5, 6, 7, 8, 9, 10, 11, 12];
    let token = frame(&nonce, &sealed).unwrap();
    assert_eq!(parse(&token), Some((nonce.to_vec(), sealed)));
    assert_eq!(parse("AAAAAAAAAAAAAAAA.aGk="), Some((vec![0u8; 12], b"hi".to_vec())));
    assert_eq!(parse("AAAAAAAAAAAAAAAA."), Some((vec![0u8; 12], Vec::new())));
}

#[test]
fn parse_refuses_malformed_framing() {
    assert_eq!(parse(""), None);
    assert_eq!(parse("AAAAAAAAAAAAAAAA"), None);
    assert_eq!(parse("AAAAAAAAAAAAAAAAaGk="), None);
    assert_eq!(parse("AAAAAAAAAAAAAAAA.aGk=.aGk="), None);
}

#[test]
fn parse_refuses_a_nonce_of_the_wrong_length() {
    assert_eq!(parse("AAAA.aGk="), None);
    assert_eq!(parse(".aGk="), None);
    assert_eq!(parse("AAAAAAAAAAAAAAAAAAAA.aGk="), None);
}

#[test]
fn parse_refuses_what_is_not_base64() {
    assert_eq!(parse("AAAAAAAAAAAAAAA*.aGk="), None);
    assert_eq!(parse("AAAAAAAAAAAAAAAA.a"), None);
    assert_eq!(parse("AAAAAAAAAAAAAAAA.aGl="), None);
    assert_eq!(parse("AAAAAAAAAAAAAAAA.a k="), None);
    assert_eq!(parse("AAAAAAAAAAAAAAAA.\u{e9}"), None);
}

#[test]
fn find_first_and_last() {
    assert_eq!(find_first(b"a.b.c", b'.'), Some(1));
    assert_eq!(find_last(b"a.b.c", b'.'), Some(3));
    assert_eq!(find_first(b"abc", b'.'), None);
    assert_eq!(find_last(b"abc", b'.'), None);
    assert_eq!(find_first(b"", b'.'), None);
    assert_eq!(find_last(b"", b'.'), None);
    assert_eq!(find_first(b".", b'.'), Some(0));
    assert_eq!(find_last(b".", b'.'), Some(0));
}

#[test]
fn same_bytes_compares_contents() {
    assert!(same_bytes(b"", b""));
    assert!(same_bytes(b"abc", b"abc"));
    assert!(!same_bytes(b"abc", b"abd"));
    assert!(!same_bytes(b"abc", b"ab"));
    assert!(!same_bytes(b"", b"a"));
}

#[test]
fn ascii_text_keeps_every_byte() {
    assert_eq!(ascii_text(b"hello 123".to_vec()), "hello 123");
    assert_eq!(ascii_text(Vec::new()), "");
    assert_eq!(ascii_text(vec![0, 127]), "\u{0}\u{7f}");
}

#[test]
fn decimal_text_writes_numbers() {
    assert_eq!(decimal_text(0), "0");
    assert_eq!(decimal_text(7), "7");
    assert_eq!(decimal_text(10), "10");
    assert_eq!(decimal_text(1234567890), "1234567890");
    assert_eq!(decimal_text(u64::MAX), "18446744073709551615");
}

#[test]
fn parse_u64_reads_numbers() {
    assert_eq!(parse_u64("0"), Some(0));
    assert_eq!(parse_u64("42"), Some(42));
    assert_eq!(parse_u64("+42"), Some(42));
    assert_eq!(parse_u64("007"), Some(7));
    assert_eq!(parse_u64("18446744073709551615"), Some(u64::MAX));
    assert_eq!(parse_u64("00018446744073709551615"), Some(u64::MAX));
}

#[test]
fn parse_u64_refuses_what_is_no_number() {
    for text in ["", "+", "-", "-0", "-1", "++1", "1+", " 1", "1 ", "1.0", "0x10", "1e3", "\u{663}", "12a"] {
        assert_eq!(parse_u64(text), None, "{:?}", text);
        assert_eq!(text.parse::<u64>().ok(), None, "{:?}", text);
    }
}

#[test]
fn parse_u64_refuses_what_does_not_fit() {
    assert_eq!(parse_u64("18446744073709551616"), None);
    assert_eq!(parse_u64("99999999999999999999"), None);
    assert_eq!(parse_u64("184467440737095516150"), None);
}

#[test]
fn parse_u64_reads_what_decimal_text_writes() {
    for n in [0u64, 1, 9, 10, 99, 100, 65535, 1 << 40, u64::MAX - 1, u64::MAX] {
        assert_eq!(parse_u64(&decimal_text(n)), Some(n));
        assert_eq!(decimal_text(n), n.to_string());
    }
}
