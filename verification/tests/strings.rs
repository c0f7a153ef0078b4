use const_format::fmt::{FormattingFlags, FormattingLength, StrWriter};
use const_format::formatting::{
    get_backslash_escape, hex_as_ascii, needs_backslash, needs_escape, IS_BACKSLASH_ESCAPED,
    IS_ESCAPED,
};
use const_format::PWrapper;

fn debug_of(text: &str) -> String {
    let len = PWrapper(text).compute_debug_len(FormattingFlags::new());
    let mut writer = StrWriter::new([0u8; 1024]);
    let mut f = writer.make_formatter(FormattingFlags::new());
    PWrapper(text).const_debug_fmt(&mut f).unwrap();
    assert_eq!(writer.len(), len);
    writer.as_str().to_string()
}

// Reads a quoted and escaped text back.
fn unescape(quoted: &str) -> Vec<u8> {
    let bytes = quoted.as_bytes();
    assert_eq!(bytes[0], b'"');
    assert_eq!(bytes[bytes.len() - 1], b'"');
    let inner = &bytes[1..bytes.len() - 1];
    let mut out = Vec::new();
    let mut i = 0;
    while i < inner.len() {
        if inner[i] != b'\\' {
            out.push(inner[i]);
            i += 1;
        } else if inner[i + 1] == b'x' {
            let digits = std::str::from_utf8(&inner[i + 2..i + 4]).unwrap();
            out.push(u8::from_str_radix(digits, 16).unwrap());
            i += 4;
        } else {
            out.push(match inner[i + 1] {
                b'0' => 0,
                b't' => b'\t',
                b'n' => b'\n',
                b'r' => b'\r',
                other => other,
            });
            i += 2;
        }
    }
    out
}

#[test]
fn every_escaped_byte_has_its_escape() {
    let mut text = String::new();
    for b in 0u8..32 {
        text.push(b as char);
    }
    text.push('"');
    text.push('\\');
    text.push(127 as char);
    let quoted = debug_of(&text);
    let mut expected = String::from("\"");
    for b in 0u8..32 {
        match b {
            0 => expected.push_str("\\0"),
            b'\t' => expected.push_str("\\t"),
            b'\n' => expected.push_str("\\n"),
            b'\r' => expected.push_str("\\r"),
            _ => expected.push_str(&format!("\\x{:02X}", b)),
        }
    }
    expected.push_str("\\\"");
    expected.push_str("\\\\");
    expected.push_str("\\x7F");
    expected.push('"');
    assert_eq!(quoted, expected);
    assert_eq!(unescape(&quoted), text.as_bytes());
}

#[test]
fn escaped_text_reads_back() {
    for text in [
        "",
        "plain",
        "it's",
        "a\\x41b",
        "\\\\",
        "tab\there",
        "quote\"d",
        "¡🧡🧠₀₁ and \u{7f} and \0",
        "\\n is not \n",
    ] {
        assert_eq!(unescape(&debug_of(text)), text.as_bytes());
    }
}

#[test]
fn single_quote_takes_a_backslash() {
    assert_eq!(debug_of("it's"), "\"it\\'s\"");
}

#[test]
fn bytes_from_128_on_are_never_escaped() {
    assert_eq!(debug_of("!Aq¡🧡🧠₀₁"), "\"!Aq¡🧡🧠₀₁\"");
    assert_eq!(
        PWrapper("¡🧡".as_bytes()).compute_utf8_debug_len(),
        "¡🧡".len() + 2
    );
    for b in 128u8..=255 {
        assert!(!needs_escape(b));
        assert!(!needs_backslash(b));
    }
}

#[test]
fn debug_length_by_the_formula() {
    // the bytes, three more for every `\x` escape, one more for every backslash escape,
    // and two for the quotes
    assert_eq!(PWrapper(&b""[..]).compute_utf8_debug_len(), 2);
    assert_eq!(PWrapper(&b"abc"[..]).compute_utf8_debug_len(), 5);
    assert_eq!(PWrapper(&b"\x01"[..]).compute_utf8_debug_len(), 1 + 3 + 2);
    assert_eq!(PWrapper(&b"\n"[..]).compute_utf8_debug_len(), 1 + 1 + 2);
    assert_eq!(
        PWrapper(&b"a\tb\x00c\"d\\e'f\x7f"[..]).compute_utf8_debug_len(),
        12 + 1 + 1 + 1 + 1 + 1 + 3 + 2
    );
    assert_eq!(PWrapper(&[200u8, 255, 128][..]).compute_utf8_debug_len(), 5);
    assert_eq!(PWrapper::slice(&[1u8, 2, 3]).compute_utf8_debug_len(), 3 + 9 + 2);
    let flags = FormattingFlags::new();
    assert_eq!(PWrapper("foo\nbar\tbaz\x00").compute_debug_len(flags), 12 + 1 + 1 + 1 + 2);
    assert_eq!(PWrapper("foo\nbar\tbaz\x00").compute_display_len(flags), 12);
    assert_eq!(PWrapper("¡🧡").compute_display_len(flags), 6);
}

#[test]
fn the_tables_agree_with_the_escapes() {
    for b in 0u8..128 {
        let escaped = b < 32 || b == b'"' || b == b'\'' || b == b'\\' || b == 127;
        let backslash = matches!(b, 0 | b'\t' | b'\n' | b'\r' | b'"' | b'\'' | b'\\');
        assert_eq!(needs_escape(b), escaped, "{}", b);
        assert_eq!(needs_backslash(b), backslash, "{}", b);
        assert_eq!(IS_ESCAPED & (1u128 << b) != 0, escaped);
        assert_eq!(IS_BACKSLASH_ESCAPED & (1u128 << b) != 0, backslash);
    }
    assert_eq!(get_backslash_escape(0), b'0');
    assert_eq!(get_backslash_escape(b'\t'), b't');
    assert_eq!(get_backslash_escape(b'\n'), b'n');
    assert_eq!(get_backslash_escape(b'\r'), b'r');
    assert_eq!(get_backslash_escape(b'"'), b'"');
    assert_eq!(get_backslash_escape(b'\''), b'\'');
    assert_eq!(get_backslash_escape(b'\\'), b'\\');
    for n in 0u8..16 {
        assert_eq!(hex_as_ascii(n), format!("{:X}", n).as_bytes()[0]);
    }
}

#[test]
fn strings_are_counted_and_written_in_both_styles() {
    let text = "a\"b\n";
    let mut count = FormattingLength::new(FormattingFlags::new());
    PWrapper(text).const_display_len(&mut count);
    assert_eq!(count.len(), 4);
    PWrapper(text).const_debug_len(&mut count);
    assert_eq!(count.len(), 4 + 8);
    let mut writer = StrWriter::new([0u8; 12]);
    let mut f = writer.make_formatter(FormattingFlags::new());
    PWrapper(text).const_display_fmt(&mut f).unwrap();
    PWrapper(text).const_debug_fmt(&mut f).unwrap();
    assert_eq!(writer.as_str(), "a\"b\n\"a\\\"b\\n\"");
    assert_eq!(writer.len(), count.len());
}

#[test]
fn quoted_text_is_written_whole_or_not_at_all() {
    let mut writer = StrWriter::new([0u8; 7]);
    writer.write_str("ab").unwrap();
    // `"x\n"` takes five bytes with quotes and escape, `"xy\n"` six
    assert!(writer.write_str_debug("xy\n").is_err());
    assert_eq!(writer.as_str(), "ab");
    writer.write_str_debug("x\n").unwrap();
    assert_eq!(writer.as_str(), "ab\"x\\n\"");
    assert!(writer.write_str_debug("").is_err());
    assert_eq!(writer.len(), 7);
}

#[test]
fn characters_in_both_styles() {
    let flags = FormattingFlags::new();
    for c in [
        'a', '\n', '\'', '"', '\\', '\0', '\u{7f}', '¡', 'ß', '₀', '€', '🧡', '\u{10FFFF}',
        '\u{80}', '\u{7FF}', '\u{800}', '\u{FFFF}', '\u{10000}',
    ] {
        let mut buffer = [0u8; 4];
        let expected = c.encode_utf8(&mut buffer).to_string();
        let (len, bytes) = PWrapper(c).to_utf8();
        assert_eq!(&bytes[..len], expected.as_bytes());
        assert_eq!(PWrapper(c).compute_display_len(flags), expected.len());

        let mut writer = StrWriter::new([0u8; 16]);
        let mut f = writer.make_formatter(flags);
        PWrapper(c).const_display_fmt(&mut f).unwrap();
        assert_eq!(writer.as_str(), expected);

        writer.clear();
        let mut f = writer.make_formatter(flags);
        PWrapper(c).const_debug_fmt(&mut f).unwrap();
        assert_eq!(writer.len(), PWrapper(c).compute_debug_len(flags));
        let quoted = writer.as_str();
        assert!(quoted.starts_with('\'') && quoted.ends_with('\''));
        let inner = format!("\"{}\"", &quoted[1..quoted.len() - 1]);
        assert_eq!(unescape(&inner), expected.as_bytes());
    }
    let mut writer = StrWriter::new([0u8; 16]);
    let mut f = writer.make_formatter(flags);
    PWrapper('\n').const_debug_fmt(&mut f).unwrap();
    PWrapper('x').const_debug_fmt(&mut f).unwrap();
    PWrapper('\'').const_debug_fmt(&mut f).unwrap();
    assert_eq!(writer.as_str(), "'\\n''x''\\''");
}

#[test]
fn booleans_in_both_styles() {
    let flags = FormattingFlags::new();
    assert_eq!(PWrapper(true).compute_display_len(flags), 4);
    assert_eq!(PWrapper(false).compute_debug_len(flags), 5);
    let mut count = FormattingLength::new(flags);
    PWrapper(true).const_display_len(&mut count);
    PWrapper(false).const_debug_len(&mut count);
    assert_eq!(count.len(), 9);
    let mut writer = StrWriter::new([0u8; 9]);
    let mut f = writer.make_formatter(flags);
    PWrapper(true).const_display_fmt(&mut f).unwrap();
    PWrapper(false).const_debug_fmt(&mut f).unwrap();
    assert_eq!(writer.as_str(), "truefalse");
}
