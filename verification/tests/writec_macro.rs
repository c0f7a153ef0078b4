use const_format::fmt::{Argument, Error, Formatter, FormattingFlags, StrWriter};
use const_format::format_args::{ArgsError, ArgsProblem};
use const_format::format_str_parsing::{ParseError, ParseErrorKind};
use const_format::writec::{writec, WriteError};
use const_format::PWrapper;

struct Foo {
    x: u32,
    y: &'static str,
}

fn fmt_error(res: Result<(), WriteError>) -> Result<(), Error> {
    match res {
        Ok(()) => Ok(()),
        Err(WriteError::Fmt(e)) => Err(e),
        Err(other) => panic!("the format string and the arguments do not match: {:?}", other),
    }
}

fn write_to_writer<const N: usize>(
    writer: &mut StrWriter<N>,
    format: &str,
    args: &[Argument<'_>],
    names: &[Option<&str>],
) -> Result<(), Error> {
    let mut f = writer.make_formatter(FormattingFlags::new());
    fmt_error(writec(&mut f, format, args, names))
}

#[test]
fn basic() {
    fn inner_0(writer: &mut StrWriter<40>) -> Result<(), Error> {
        writer.clear();
        write_to_writer(writer, "10", &[], &[])?;
        write_to_writer(writer, "-", &[], &[])?;
        write_to_writer(writer, "20", &[], &[])?;
        Ok(())
    }
    fn inner_1(writer: &mut StrWriter<40>) -> Result<(), Error> {
        writer.clear();
        write_to_writer(writer, "", &[], &[])?;
        Ok(())
    }

    let writer: &mut StrWriter<40> = &mut StrWriter::new([0; 40]);
    inner_0(writer).unwrap();
    assert_eq!(writer.as_str(), "10-20");

    inner_1(writer).unwrap();
    assert_eq!(writer.as_str(), "");
}

#[test]
fn repeated_positional_args() {
    fn inner(foo: &Foo, writer: &mut StrWriter<256>) -> Result<(), Error> {
        writer.clear();
        write_to_writer(
            writer,
            "{0:},{0:?},{0:#x},{0:#b},{1},{1:?}",
            &[
                Argument::Int(PWrapper(foo.x).to_integer()),
                Argument::Str(foo.y),
            ],
            &[None, None],
        )?;
        Ok(())
    }

    let foo = Foo {
        x: 13,
        y: "foo\nbar\tbaz\x00",
    };

    let writer: &mut StrWriter<256> = &mut StrWriter::new([0; 256]);
    inner(&foo, writer).unwrap();
    assert_eq!(
        writer.as_str(),
        "13,13,0xD,0b1101,foo\nbar\tbaz\x00,\"foo\\nbar\\tbaz\\0\""
    );
}

#[test]
fn write_from_consts() {
    const FOO: Foo = Foo {
        x: 13,
        y: "foo\nbar\tbaz\x00",
    };

    fn inner(f: &mut Formatter<'_, 256>) -> Result<(), Error> {
        const X: u32 = FOO.x;
        const Y: &str = FOO.y;
        fmt_error(writec(
            f,
            "{X:},{X:?},{X:#x},{X:#b},{Y},{Y:?}",
            &[
                Argument::Int(PWrapper(X).to_integer()),
                Argument::Str(Y),
            ],
            &[Some("X"), Some("Y")],
        ))?;
        Ok(())
    }

    let writer: &mut StrWriter<256> = &mut StrWriter::new([0; 256]);
    inner(&mut writer.make_formatter(FormattingFlags::new())).unwrap();
    assert_eq!(
        writer.as_str(),
        "13,13,0xD,0b1101,foo\nbar\tbaz\x00,\"foo\\nbar\\tbaz\\0\""
    );
}

#[test]
fn named_parameters() {
    fn inner(f: &mut Formatter<'_, 256>) -> Result<(), Error> {
        fmt_error(writec(
            f,
            "{x},{y},{},{},{x:b},{y:x},{:?}",
            &[
                Argument::Int(PWrapper(21u8).to_integer()),
                Argument::Int(PWrapper(34u8).to_integer()),
                Argument::Range(55..89),
                Argument::Int(PWrapper(8u8).to_integer()),
                Argument::Int(PWrapper(13u8).to_integer()),
            ],
            &[None, None, None, Some("x"), Some("y")],
        ))?;
        Ok(())
    }

    let writer: &mut StrWriter<256> = &mut StrWriter::new([0; 256]);
    inner(&mut writer.make_formatter(FormattingFlags::new())).unwrap();
    assert_eq!(writer.as_str(), "8,13,21,34,1000,D,55..89");
}

fn outcome(
    capacity_text: &mut StrWriter<16>,
    format: &str,
    args: &[Argument<'_>],
    names: &[Option<&str>],
) -> Result<(), WriteError> {
    let mut f = capacity_text.make_formatter(FormattingFlags::new());
    writec(&mut f, format, args, names)
}

#[test]
fn writec_doubled_braces_are_literal() {
    let mut writer = StrWriter::new([0; 16]);
    outcome(&mut writer, "{{{}}}|}}{{", &[Argument::Bool(true)], &[None]).unwrap();
    assert_eq!(writer.as_str(), "{true}|}{");
}

#[test]
fn writec_keeps_text_of_several_bytes() {
    let mut writer = StrWriter::new([0; 16]);
    outcome(&mut writer, "é{}ß{{ü", &[Argument::Str("ö")], &[None]).unwrap();
    assert_eq!(writer.as_str(), "éöß{ü");
}

#[test]
fn writec_reports_a_wrong_format_string() {
    let mut writer = StrWriter::new([0; 16]);
    let cases: [(&str, usize, ParseErrorKind); 7] = [
        ("ab{", 2, ParseErrorKind::UnclosedArg),
        ("ab}c", 2, ParseErrorKind::InvalidClosedArg),
        ("{0a}", 0, ParseErrorKind::NotANumber),
        ("{99999999999999999999999999}", 0, ParseErrorKind::NotANumber),
        ("x{a-b}", 1, ParseErrorKind::NotAnIdent),
        ("{:q}", 0, ParseErrorKind::UnknownFormatting),
        ("{:xb}", 0, ParseErrorKind::UnknownFormatting),
    ];
    for (format, pos, kind) in cases {
        match outcome(&mut writer, format, &[], &[]) {
            Err(WriteError::Format(e)) => assert_eq!(e, ParseError { pos, kind }),
            other => panic!("{:?} gave {:?}", format, other),
        }
        assert_eq!(writer.as_str(), "");
    }
}

#[test]
fn writec_reports_a_positional_argument_behind_a_named_one() {
    let mut writer = StrWriter::new([0; 16]);
    let res = outcome(
        &mut writer,
        "{a}{}{}",
        &[
            Argument::Bool(true),
            Argument::Bool(false),
            Argument::Bool(true),
        ],
        &[None, Some("a"), None],
    );
    assert!(matches!(
        res,
        Err(WriteError::Arguments(ArgsError::PositionalAfterNamed(2)))
    ));
    assert_eq!(writer.as_str(), "");
}

#[test]
fn writec_collects_what_is_wrong_with_the_arguments() {
    let mut writer = StrWriter::new([0; 16]);
    let res = outcome(
        &mut writer,
        "{5}{}{}{b}",
        &[
            Argument::Bool(true),
            Argument::Bool(false),
            Argument::Bool(true),
        ],
        &[None, Some("a"), Some("b")],
    );
    match res {
        Err(WriteError::Arguments(ArgsError::Problems(list))) => assert_eq!(
            list,
            vec![
                ArgsProblem::NonexistentPositional(5),
                ArgsProblem::NonexistentPositional(1),
                ArgsProblem::Unused(1),
            ]
        ),
        other => panic!("{:?}", other),
    }
    assert_eq!(writer.as_str(), "");
}

#[test]
fn writec_reports_a_name_that_is_no_argument() {
    let mut writer = StrWriter::new([0; 16]);
    let res = outcome(&mut writer, "{}, {FOO:?}", &[Argument::Bool(true)], &[None]);
    assert!(matches!(
        res,
        Err(WriteError::NotAnArgument { start: 5, end: 8 })
    ));
    assert_eq!(writer.as_str(), "");
}

#[test]
fn writec_stops_at_the_first_part_that_does_not_fit() {
    let mut writer = StrWriter::new([0; 16]);
    let res = outcome(
        &mut writer,
        "ab{}cd{}ef",
        &[Argument::Range(10..200), Argument::Str("0123456789")],
        &[None, None],
    );
    assert!(matches!(res, Err(WriteError::Fmt(Error::NotEnoughSpace))));
    assert_eq!(writer.as_str(), "ab10..200cd");
}

#[test]
fn writec_uses_the_first_argument_of_a_name() {
    let mut writer = StrWriter::new([0; 16]);
    outcome(
        &mut writer,
        "{a}{1}",
        &[Argument::Str("x"), Argument::Str("y")],
        &[Some("a"), Some("a")],
    )
    .unwrap_err();
    let res = outcome(
        &mut writer,
        "{a}",
        &[Argument::Str("x"), Argument::Str("y")],
        &[Some("a"), Some("a")],
    );
    match res {
        Err(WriteError::Arguments(ArgsError::Problems(list))) => {
            assert_eq!(list, vec![ArgsProblem::Unused(1)])
        }
        other => panic!("{:?}", other),
    }
}

#[test]
fn writec_display_with_number_sign_and_debug_letters() {
    let mut writer = StrWriter::new([0; 64]);
    let mut f = writer.make_formatter(FormattingFlags::new());
    writec(
        &mut f,
        "{0:#},{0:X},{0:#X?},{0:b?},{0:#?},{1:#},{1:x}",
        &[
            Argument::Int(PWrapper(-3i8).to_integer()),
            Argument::Str("a\"b"),
        ],
        &[None, None],
    )
    .unwrap();
    assert_eq!(writer.as_str(), "-3,FD,0xFD,11111101,-3,a\"b,\"a\\\"b\"");
}
