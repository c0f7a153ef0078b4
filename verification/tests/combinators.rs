use const_format::fmt::std_type_impls::combinators::Newtype;
use const_format::fmt::{Error, FormattingFlags, FormattingLength, FormattingMode, StrWriter};
use const_format::marker_traits::ConstDebug;

fn debug_of<T: ConstDebug + ?Sized>(value: &T, flags: FormattingFlags) -> String {
    let mut count = FormattingLength::new(flags);
    value.const_debug_len(&mut count);
    let mut writer = StrWriter::new([0u8; 256]);
    value
        .const_debug_fmt(&mut writer.make_formatter(flags))
        .unwrap();
    assert_eq!(writer.len(), count.len());
    writer.as_str().to_string()
}

fn plain() -> FormattingFlags {
    FormattingFlags::new()
}

#[test]
fn primitives_through_the_interface() {
    assert_eq!(debug_of(&-5i8, plain()), "-5");
    assert_eq!(debug_of(&255u8, plain().set_mode(FormattingMode::Hexadecimal)), "FF");
    assert_eq!(debug_of(&i128::MIN, plain()), format!("{:?}", i128::MIN));
    assert_eq!(debug_of(&usize::MAX, plain()), format!("{:?}", usize::MAX));
    assert_eq!(
        debug_of(&-1isize, plain().set_mode(FormattingMode::Binary)),
        format!("{:b}", -1isize)
    );
    assert_eq!(debug_of(&true, plain()), "true");
    assert_eq!(debug_of(&'a', plain()), "'a'");
    assert_eq!(debug_of(&"a\nb", plain()), "\"a\\nb\"");
    assert_eq!(debug_of(&(1usize..2), plain()), "1..2");
    assert_eq!(debug_of(&(1usize..), plain()), "1..");
    assert_eq!(debug_of(&(..2usize), plain()), "..2");
    assert_eq!(debug_of(&(..=2usize), plain()), "..=2");
    assert_eq!(debug_of(&(1usize..=2), plain()), "1..=2");
    assert_eq!(debug_of(&(..), plain()), "..");
}

#[test]
fn options() {
    assert_eq!(debug_of(&Some(5u8), plain()), "Some(5)");
    assert_eq!(debug_of(&None::<u8>, plain()), "None");
    assert_eq!(debug_of(&Some(Some("x")), plain()), "Some(Some(\"x\"))");
    assert_eq!(debug_of(&Some(None::<bool>), plain()), "Some(None)");
    assert_eq!(
        debug_of(&Some(255u8), plain().set_mode(FormattingMode::Hexadecimal).set_alternate(true)),
        "Some(0xFF)"
    );
}

#[test]
fn slices_and_arrays() {
    assert_eq!(debug_of(&[0u8, 1][..], plain()), "[0, 1]");
    assert_eq!(debug_of(&[0u8, 1], plain()), "[0, 1]");
    assert_eq!(debug_of::<[u8]>(&[], plain()), "[]");
    assert_eq!(debug_of(&[7i32], plain()), "[7]");
    assert_eq!(debug_of(&[Some(1u8), None, Some(3)], plain()), "[Some(1), None, Some(3)]");
    assert_eq!(debug_of(&[[1u8, 2], [3, 4]], plain()), "[[1, 2], [3, 4]]");
    assert_eq!(debug_of(&["a", "b\t"][..], plain()), "[\"a\", \"b\\t\"]");
    assert_eq!(
        debug_of(&[10u8, 11][..], plain().set_mode(FormattingMode::Binary)),
        "[1010, 1011]"
    );
}

#[test]
fn pairs() {
    assert_eq!(debug_of(&(1u8, "x"), plain()), "(1, \"x\")");
    assert_eq!(debug_of(&((1u8, 2u8), [false]), plain()), "((1, 2), [false])");
}

#[test]
fn structs_of_one_field() {
    let wrapped = 255u16;
    assert_eq!(
        debug_of(&Newtype { name: "NumWrapping", field: &wrapped }, plain()),
        "NumWrapping(255)"
    );
    let inner = Some([1u8, 2]);
    assert_eq!(
        debug_of(&Newtype { name: "Foo", field: &inner }, plain()),
        "Foo(Some([1, 2]))"
    );
}

fn written_into<const N: usize, T: ConstDebug + ?Sized>(value: &T) -> (Result<(), Error>, String) {
    let mut writer = StrWriter::new([0u8; N]);
    let res = value.const_debug_fmt(&mut writer.make_formatter(plain()));
    (res, writer.as_str().to_string())
}

#[test]
fn what_is_built_from_values_is_written_part_after_part() {
    let list = [10u8, 200, 3];
    assert_eq!(written_into::<12, _>(&list), (Ok(()), "[10, 200, 3]".to_string()));
    assert_eq!(
        written_into::<11, _>(&list),
        (Err(Error::NotEnoughSpace), "[10, 200, 3".to_string())
    );
    assert_eq!(
        written_into::<7, _>(&list),
        (Err(Error::NotEnoughSpace), "[10, ".to_string())
    );
    assert_eq!(written_into::<0, _>(&list), (Err(Error::NotEnoughSpace), String::new()));
    assert_eq!(
        written_into::<6, _>(&Some(100u8)),
        (Err(Error::NotEnoughSpace), "Some(".to_string())
    );
    assert_eq!(
        written_into::<3, _>(&Some(100u8)),
        (Err(Error::NotEnoughSpace), String::new())
    );
    assert_eq!(
        written_into::<3, _>(&None::<u8>),
        (Err(Error::NotEnoughSpace), String::new())
    );
    assert_eq!(
        written_into::<4, _>(&(1u8, 22u8)),
        (Err(Error::NotEnoughSpace), "(1, ".to_string())
    );
}
