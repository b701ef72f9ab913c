//! Bytes that may be UTF-8, and numbers as texts.
use aishell::bytes::{bytes_of, utf8_prefix};
use aishell::number::{in_base, pad_zeros, to_decimal, to_signed_decimal};
use aishell::pieces::{lines_of, replace, words_of, Separator};
use aishell::text::{trimmed, to_lower};

#[test]
fn texts_are_read_part_by_part() {
    let text = "aé€😀z";
    let bytes = bytes_of(text);
    for n in 0..=bytes.len() {
        let part = utf8_prefix(&bytes[..n].to_vec()).unwrap();
        assert!(text.starts_with(&part));
        assert!(part.len() <= n && n <= part.len() + 3);
    }
}

#[test]
fn other_bytes_are_refused() {
    for bytes in [
        vec![0x80],
        vec![0xc0],
        vec![0xc1],
        vec![0xf5],
        vec![0xe0, 0x80],
        vec![0xed, 0xa0],
        vec![0xf0, 0x8f],
        vec![0xf4, 0x90],
        vec![b'a', 0xff, b'b'],
        vec![0xe2, 0x82, b'a'],
        vec![0xe2, 0x28],
    ] {
        assert_eq!(utf8_prefix(&bytes).unwrap_err().message(), "file is not valid UTF-8");
    }
    assert_eq!(utf8_prefix(&vec![b'a', 0xf0, 0x9f, 0x98]).unwrap(), "a");
}

#[test]
fn numbers_are_written_out() {
    assert_eq!(to_decimal(0), "0");
    assert_eq!(to_decimal(u64::MAX), "18446744073709551615");
    assert_eq!(to_signed_decimal(i64::MIN), "-9223372036854775808");
    assert_eq!(to_signed_decimal(42), "42");
    assert_eq!(in_base(0x1f916, 16), "1F916");
    assert_eq!(in_base(0o640, 8), "640");
    assert_eq!(pad_zeros("7".into(), 3), "007");
    assert_eq!(pad_zeros("1234".into(), 3), "1234");
}

#[test]
fn texts_are_taken_apart() {
    assert_eq!(lines_of("a\r\nb\n\nc"), vec!["a", "b", "", "c"]);
    assert_eq!(lines_of("a\n"), vec!["a"]);
    assert_eq!(words_of(" a\u{a0}b\tc ", Separator::Whitespace), vec!["a", "b", "c"]);
    assert_eq!(words_of(" a\u{a0}b\tc ", Separator::AsciiWhitespace), vec!["a\u{a0}b", "c"]);
    assert_eq!(replace("aaa", "aa", "b"), "ba");
    assert_eq!(trimmed("\u{3000} a b \n"), "a b");
    assert_eq!(to_lower("ÀBC"), "Àbc");
}
