use const_format::fmt::{Error, FormattingFlags, FormattingMode, StrWriter};
use const_format::PWrapper;

#[test]
fn a_new_writer_is_empty() {
    let writer = StrWriter::new([7u8; 12]);
    assert_eq!(writer.len(), 0);
    assert_eq!(writer.capacity(), 12);
    assert_eq!(writer.remaining_capacity(), 12);
    assert_eq!(writer.as_str(), "");
    assert_eq!(writer.as_bytes(), b"");
}

#[test]
fn a_write_is_whole_or_not_at_all() {
    let mut writer = StrWriter::new([0u8; 5]);
    assert_eq!(writer.write_str("abc"), Ok(()));
    assert_eq!(writer.len(), 3);
    assert_eq!(writer.remaining_capacity(), 2);
    assert_eq!(writer.write_str("def"), Err(Error::NotEnoughSpace));
    assert_eq!(writer.len(), 3);
    assert_eq!(writer.as_str(), "abc");
    assert_eq!(writer.write_bytes(b"de"), Ok(()));
    assert_eq!(writer.as_str(), "abcde");
    assert_eq!(writer.as_bytes(), b"abcde");
    assert_eq!(writer.write_bytes(b"f"), Err(Error::NotEnoughSpace));
    assert_eq!(writer.write_str(""), Ok(()));
    assert_eq!(writer.as_str(), "abcde");
}

#[test]
fn text_of_several_bytes_comes_back_as_text() {
    let mut writer = StrWriter::new([0u8; 32]);
    writer.write_str("!Aq¡🧡🧠₀₁").unwrap();
    writer.write_str_debug("₀\n").unwrap();
    assert_eq!(writer.as_str(), "!Aq¡🧡🧠₀₁\"₀\\n\"");
    assert_eq!(writer.as_bytes(), "!Aq¡🧡🧠₀₁\"₀\\n\"".as_bytes());
}

#[test]
fn exactly_enough_room_is_enough_and_a_byte_less_is_not() {
    let flags = FormattingFlags::new()
        .set_mode(FormattingMode::Hexadecimal)
        .set_alternate(true);
    let len = PWrapper(-1i16).compute_debug_len(flags);
    assert_eq!(len, 6);

    let mut exact = StrWriter::new([0u8; 6]);
    assert_eq!(
        PWrapper(-1i16).const_debug_fmt(&mut exact.make_formatter(flags)),
        Ok(())
    );
    assert_eq!(exact.as_str(), "0xFFFF");
    assert_eq!(exact.len(), len);

    let mut short = StrWriter::new([0u8; 5]);
    assert_eq!(
        PWrapper(-1i16).const_debug_fmt(&mut short.make_formatter(flags)),
        Err(Error::NotEnoughSpace)
    );
    assert_eq!(short.len(), 0);

    // the same with text in the writer before
    let mut exact = StrWriter::new([0u8; 9]);
    exact.write_str("ab:").unwrap();
    assert_eq!(
        PWrapper(-1i16).const_debug_fmt(&mut exact.make_formatter(flags)),
        Ok(())
    );
    assert_eq!(exact.as_str(), "ab:0xFFFF");
    let mut short = StrWriter::new([0u8; 8]);
    short.write_str("ab:").unwrap();
    assert_eq!(
        PWrapper(-1i16).const_debug_fmt(&mut short.make_formatter(flags)),
        Err(Error::NotEnoughSpace)
    );
    assert_eq!(short.len(), 3);
    assert_eq!(short.as_str(), "ab:");
}

#[test]
fn the_boundary_for_strings() {
    let text = "a\tb";
    let plain = FormattingFlags::new();
    let display = PWrapper(text).compute_display_len(plain);
    let debug = PWrapper(text).compute_debug_len(plain);
    assert_eq!((display, debug), (3, 6));
    let mut exact = StrWriter::new([0u8; 3]);
    assert!(PWrapper(text)
        .const_display_fmt(&mut exact.make_formatter(plain))
        .is_ok());
    let mut short = StrWriter::new([0u8; 2]);
    assert!(PWrapper(text)
        .const_display_fmt(&mut short.make_formatter(plain))
        .is_err());
    assert_eq!(short.len(), 0);
    let mut exact = StrWriter::new([0u8; 6]);
    assert!(PWrapper(text)
        .const_debug_fmt(&mut exact.make_formatter(plain))
        .is_ok());
    assert_eq!(exact.as_str(), "\"a\\tb\"");
    let mut short = StrWriter::new([0u8; 5]);
    assert!(PWrapper(text)
        .const_debug_fmt(&mut short.make_formatter(plain))
        .is_err());
    assert_eq!(short.len(), 0);
}

fn pass<const N: usize>(writer: &mut StrWriter<N>) -> Result<(), Error> {
    let mut f = writer.make_formatter(FormattingFlags::new());
    PWrapper(-45i32).const_display_fmt(&mut f)?;
    f.write_str(" ")?;
    PWrapper("x\ny").const_debug_fmt(&mut f)?;
    f.write_str(" ")?;
    PWrapper(1usize..=2).const_debug_fmt(&mut f)?;
    Ok(())
}

#[test]
fn a_cleared_writer_writes_as_a_new_one() {
    let mut new = StrWriter::new([0u8; 32]);
    pass(&mut new).unwrap();

    let mut used = StrWriter::new([0xFFu8; 32]);
    used.write_str("something else that was here before").unwrap_err();
    used.write_str("something else that was here").unwrap();
    used.clear();
    assert_eq!(used.len(), 0);
    assert_eq!(used.as_str(), "");
    pass(&mut used).unwrap();
    assert_eq!(used.as_str(), new.as_str());
    assert_eq!(used.as_str(), "-45 \"x\\ny\" 1..=2");

    // also where the pass does not fit
    let mut new = StrWriter::new([0u8; 12]);
    let mut used = StrWriter::new([0u8; 12]);
    used.write_str("0123456789").unwrap();
    used.clear();
    assert_eq!(pass(&mut new), Err(Error::NotEnoughSpace));
    assert_eq!(pass(&mut used), Err(Error::NotEnoughSpace));
    assert_eq!(used.as_str(), new.as_str());
    used.clear();
    used.clear();
    assert_eq!(used.as_str(), "");
}

#[test]
fn a_formatter_writes_into_its_writer() {
    let mut writer = StrWriter::new([0u8; 8]);
    {
        let mut f = const_format::fmt::Formatter::from_sw(&mut writer, FormattingFlags::new());
        assert_eq!(f.flags(), FormattingFlags::new());
        f.write_str("ab").unwrap();
        f.write_bytes(b"cd").unwrap();
        f.write_quoted(b"e", b'\'').unwrap();
        assert_eq!(f.write_str("fgh"), Err(Error::NotEnoughSpace));
    }
    assert_eq!(writer.as_str(), "abcd'e'");
}

#[test]
fn flags_are_made_by_value() {
    let plain = FormattingFlags::new();
    assert_eq!(plain.mode(), FormattingMode::Regular);
    assert!(!plain.is_alternate());
    let hex = plain.set_mode(FormattingMode::Hexadecimal);
    assert_eq!(hex.mode(), FormattingMode::Hexadecimal);
    assert!(!hex.is_alternate());
    let alternate = hex.set_alternate(true);
    assert_eq!(alternate.mode(), FormattingMode::Hexadecimal);
    assert!(alternate.is_alternate());
    assert_eq!(alternate.set_mode(FormattingMode::Binary).is_alternate(), true);
    assert_eq!(plain, FormattingFlags::new());
    assert_eq!(alternate.set_alternate(false), hex);
}
