use const_format::fmt::{Error, FormattingFlags, FormattingLength, FormattingMode, StrWriter};
use const_format::marker_traits::{IsNotStdKind, IsStdKind, TypeKindMarker};
use const_format::PWrapper;
use std::ops::{Range, RangeFrom, RangeFull, RangeInclusive, RangeTo, RangeToInclusive};

fn plain() -> FormattingFlags {
    FormattingFlags::new()
}

#[test]
fn ranges_as_debug_formatting_writes_them() {
    let mut writer = StrWriter::new([0u8; 64]);
    let mut f = writer.make_formatter(plain());
    PWrapper(0usize..5).const_debug_fmt(&mut f).unwrap();
    f.write_str(" ").unwrap();
    PWrapper(..=5usize).const_debug_fmt(&mut f).unwrap();
    f.write_str(" ").unwrap();
    PWrapper(..).const_debug_fmt(&mut f).unwrap();
    f.write_str(" ").unwrap();
    PWrapper(3usize..).const_debug_fmt(&mut f).unwrap();
    f.write_str(" ").unwrap();
    PWrapper(..7usize).const_debug_fmt(&mut f).unwrap();
    f.write_str(" ").unwrap();
    PWrapper(2usize..=9).const_debug_fmt(&mut f).unwrap();
    assert_eq!(writer.as_str(), "0..5 ..=5 .. 3.. ..7 2..=9");
}

#[test]
fn a_backwards_range_is_written_as_it_stands() {
    let mut writer = StrWriter::new([0u8; 16]);
    let mut f = writer.make_formatter(plain());
    PWrapper(9usize..2).const_debug_fmt(&mut f).unwrap();
    f.write_str(",").unwrap();
    PWrapper(9usize..=2).const_debug_fmt(&mut f).unwrap();
    assert_eq!(writer.as_str(), "9..2,9..=2");
}

#[test]
fn the_flags_choose_the_base_of_the_bounds() {
    let flags = plain().set_mode(FormattingMode::Hexadecimal).set_alternate(true);
    let mut writer = StrWriter::new([0u8; 16]);
    let mut f = writer.make_formatter(flags);
    PWrapper(10usize..255).const_debug_fmt(&mut f).unwrap();
    assert_eq!(writer.as_str(), "0xA..0xFF");
    let mut count = FormattingLength::new(flags);
    PWrapper(10usize..255).const_debug_len(&mut count);
    assert_eq!(count.len(), 9);
}

#[test]
fn ranges_are_counted_as_they_are_written() {
    let mut count = FormattingLength::new(plain());
    PWrapper(0usize..5).const_debug_len(&mut count);
    assert_eq!(count.len(), 4);
    PWrapper(..=5usize).const_debug_len(&mut count);
    assert_eq!(count.len(), 8);
    PWrapper(..).const_debug_len(&mut count);
    assert_eq!(count.len(), 10);
    PWrapper(30usize..).const_debug_len(&mut count);
    assert_eq!(count.len(), 14);
    PWrapper(..700usize).const_debug_len(&mut count);
    assert_eq!(count.len(), 19);
    PWrapper(2usize..=usize::MAX).const_debug_len(&mut count);
    assert_eq!(count.len(), 19 + 1 + 3 + format!("{}", usize::MAX).len());
}

#[test]
fn a_range_is_written_part_after_part() {
    // "0..5" takes four bytes: in three, the start and the dots are written and the end
    // fails; the writer stands where the end would have begun
    let mut writer = StrWriter::new([0u8; 3]);
    let mut f = writer.make_formatter(plain());
    assert_eq!(PWrapper(0usize..5).const_debug_fmt(&mut f), Err(Error::NotEnoughSpace));
    assert_eq!(writer.as_str(), "0..");
    let mut writer = StrWriter::new([0u8; 2]);
    let mut f = writer.make_formatter(plain());
    assert_eq!(PWrapper(0usize..5).const_debug_fmt(&mut f), Err(Error::NotEnoughSpace));
    assert_eq!(writer.as_str(), "0");
    let mut writer = StrWriter::new([0u8; 4]);
    let mut f = writer.make_formatter(plain());
    assert_eq!(PWrapper(0usize..5).const_debug_fmt(&mut f), Ok(()));
    assert_eq!(writer.as_str(), "0..5");
    let mut writer = StrWriter::new([0u8; 2]);
    let mut f = writer.make_formatter(plain());
    assert_eq!(PWrapper(..=5usize).const_debug_fmt(&mut f), Err(Error::NotEnoughSpace));
    assert_eq!(writer.as_str(), "");
    let mut writer = StrWriter::new([0u8; 1]);
    let mut f = writer.make_formatter(plain());
    assert_eq!(PWrapper(..).const_debug_fmt(&mut f), Err(Error::NotEnoughSpace));
    assert_eq!(writer.as_str(), "");
}

#[test]
fn coercing_keeps_the_value() {
    let range = 3usize..8;
    let wrapped = TypeKindMarker::<IsStdKind, Range<usize>, ()>::new().coerce(&range);
    assert_eq!(wrapped.0, range);
    let from = 3usize..;
    let wrapped = TypeKindMarker::<IsStdKind, RangeFrom<usize>, ()>::new().coerce(&from);
    assert_eq!(wrapped.0, from);
    let to = ..8usize;
    let wrapped = TypeKindMarker::<IsStdKind, RangeTo<usize>, ()>::new().coerce(&to);
    assert_eq!(wrapped.0, to);
    let to_inclusive = ..=8usize;
    let wrapped =
        TypeKindMarker::<IsStdKind, RangeToInclusive<usize>, ()>::new().coerce(&to_inclusive);
    assert_eq!(wrapped.0, to_inclusive);
    let inclusive = 3usize..=8;
    let wrapped =
        TypeKindMarker::<IsStdKind, RangeInclusive<usize>, ()>::new().coerce(&inclusive);
    assert_eq!(wrapped.0, inclusive);
    let wrapped = TypeKindMarker::<IsStdKind, RangeFull, ()>::new().coerce(&(..));
    assert_eq!(wrapped.0, ..);

    let number = 77u16;
    assert_eq!(
        TypeKindMarker::<IsStdKind, u16, ()>::new().coerce(&number).0,
        77
    );
    assert_eq!(
        TypeKindMarker::<IsStdKind, str, ()>::new().coerce("abc").0,
        "abc"
    );
    assert_eq!(
        TypeKindMarker::<IsStdKind, char, ()>::new().coerce(&'x').0,
        'x'
    );
    let other = vec![1u8, 2];
    let same: &Vec<u8> = TypeKindMarker::<IsNotStdKind, Vec<u8>, ()>::new().coerce(&other);
    assert!(std::ptr::eq(same, &other));
}

#[test]
fn formatting_a_coerced_range_is_formatting_the_range() {
    let range = 12usize..=34;
    let mut direct = StrWriter::new([0u8; 16]);
    PWrapper(12usize..=34)
        .const_debug_fmt(&mut direct.make_formatter(plain()))
        .unwrap();
    let mut coerced = StrWriter::new([0u8; 16]);
    TypeKindMarker::<IsStdKind, RangeInclusive<usize>, ()>::new()
        .coerce(&range)
        .const_debug_fmt(&mut coerced.make_formatter(plain()))
        .unwrap();
    assert_eq!(direct.as_str(), "12..=34");
    assert_eq!(coerced.as_str(), direct.as_str());
}
