use const_format::fmt::{Argument, FormattingFlags, FormattingMode, StrWriter};
use const_format::format_args::{
    bytes_eq, expand, ArgsError, ArgsProblem, ExpandFormatted, ExpandInto, Variable,
};
use const_format::format_str_parsing::{
    parse_format_str, FmtArg, FmtStrComponent, ParseError, ParseErrorKind, WhichArg,
};
use const_format::formatting::Formatting;
use const_format::PWrapper;

fn display(which_arg: WhichArg) -> FmtStrComponent {
    FmtStrComponent::Arg(FmtArg {
        which_arg,
        formatting: Formatting::Display,
        flags: FormattingFlags::new(),
    })
}

fn debug(which_arg: WhichArg, mode: FormattingMode, alternate: bool) -> FmtStrComponent {
    FmtStrComponent::Arg(FmtArg {
        which_arg,
        formatting: Formatting::Debug,
        flags: FormattingFlags::new().set_mode(mode).set_alternate(alternate),
    })
}

#[test]
fn pieces_of_a_format_string() {
    assert_eq!(parse_format_str(b""), Ok(vec![]));
    assert_eq!(
        parse_format_str(b"abc"),
        Ok(vec![FmtStrComponent::Str { start: 0, end: 3 }])
    );
    assert_eq!(
        parse_format_str(b"a{}b{{c}}{0}{x_1:?}"),
        Ok(vec![
            FmtStrComponent::Str { start: 0, end: 1 },
            display(WhichArg::Positional(None)),
            FmtStrComponent::Str { start: 3, end: 4 },
            FmtStrComponent::Str { start: 4, end: 5 },
            FmtStrComponent::Str { start: 6, end: 7 },
            FmtStrComponent::Str { start: 7, end: 8 },
            display(WhichArg::Positional(Some(0))),
            debug(WhichArg::Ident { start: 13, end: 16 }, FormattingMode::Regular, false),
        ])
    );
}

#[test]
fn what_stands_behind_the_colon() {
    let cases: [(&[u8], FmtStrComponent); 12] = [
        (b"{:}", display(WhichArg::Positional(None))),
        (
            b"{:#}",
            FmtStrComponent::Arg(FmtArg {
                which_arg: WhichArg::Positional(None),
                formatting: Formatting::Display,
                flags: FormattingFlags::new().set_alternate(true),
            }),
        ),
        (b"{:?}", debug(WhichArg::Positional(None), FormattingMode::Regular, false)),
        (b"{:#?}", debug(WhichArg::Positional(None), FormattingMode::Regular, true)),
        (b"{:x}", debug(WhichArg::Positional(None), FormattingMode::Hexadecimal, false)),
        (b"{:X}", debug(WhichArg::Positional(None), FormattingMode::Hexadecimal, false)),
        (b"{:x?}", debug(WhichArg::Positional(None), FormattingMode::Hexadecimal, false)),
        (b"{:#x}", debug(WhichArg::Positional(None), FormattingMode::Hexadecimal, true)),
        (b"{:x#}", debug(WhichArg::Positional(None), FormattingMode::Hexadecimal, true)),
        (b"{:b}", debug(WhichArg::Positional(None), FormattingMode::Binary, false)),
        (b"{:#b?}", debug(WhichArg::Positional(None), FormattingMode::Binary, true)),
        (b"{007:##}", debug(WhichArg::Positional(Some(7)), FormattingMode::Regular, true)),
    ];
    for (format, expected) in cases {
        assert_eq!(parse_format_str(format), Ok(vec![expected]), "{:?}", format);
    }
}

#[test]
fn what_is_wrong_with_a_format_string() {
    let cases: [(&[u8], usize, ParseErrorKind); 12] = [
        (b"{", 0, ParseErrorKind::UnclosedArg),
        (b"a{b", 1, ParseErrorKind::UnclosedArg),
        (b"{}{{{", 4, ParseErrorKind::UnclosedArg),
        (b"}", 0, ParseErrorKind::InvalidClosedArg),
        (b"{}}", 2, ParseErrorKind::InvalidClosedArg),
        (b"{1x}", 0, ParseErrorKind::NotANumber),
        (b"{-1}", 0, ParseErrorKind::NotAnIdent),
        (b"{ }", 0, ParseErrorKind::NotAnIdent),
        (b"ab{a b}", 2, ParseErrorKind::NotAnIdent),
        (b"{:??}", 0, ParseErrorKind::UnknownFormatting),
        (b"{:bx}", 0, ParseErrorKind::UnknownFormatting),
        (b"{a:b:x}", 0, ParseErrorKind::UnknownFormatting),
    ];
    for (format, pos, kind) in cases {
        assert_eq!(
            parse_format_str(format),
            Err(ParseError { pos, kind }),
            "{:?}",
            format
        );
    }
    let too_large = format!("{{{}0}}", usize::MAX);
    assert_eq!(
        parse_format_str(too_large.as_bytes()),
        Err(ParseError { pos: 0, kind: ParseErrorKind::NotANumber })
    );
    let largest = format!("{{{}}}", usize::MAX);
    assert_eq!(
        parse_format_str(largest.as_bytes()),
        Ok(vec![display(WhichArg::Positional(Some(usize::MAX)))])
    );
}

fn formatted(variable: Variable) -> ExpandInto {
    ExpandInto::Formatted(ExpandFormatted {
        variable,
        formatting: Formatting::Display,
        flags: FormattingFlags::new(),
    })
}

#[test]
fn directives_are_matched_with_arguments() {
    let format = b"{b}-{}{1}{}{a}{C}";
    let components = parse_format_str(format).unwrap();
    let matched = expand(format, &components, &[None, None, Some("a"), Some("b")]).unwrap();
    assert_eq!(
        matched,
        vec![
            formatted(Variable::Local(3)),
            ExpandInto::Str { start: 3, end: 4 },
            formatted(Variable::Local(0)),
            formatted(Variable::Local(1)),
            formatted(Variable::Local(1)),
            formatted(Variable::Local(2)),
            formatted(Variable::InScope { start: 15, end: 16 }),
        ]
    );
}

fn problems(format: &[u8], names: &[Option<&str>]) -> Result<Vec<ExpandInto>, ArgsError> {
    let components = parse_format_str(format).unwrap();
    expand(format, &components, names)
}

#[test]
fn what_is_wrong_between_directives_and_arguments() {
    assert!(matches!(
        problems(b"{}", &[Some("a"), None]),
        Err(ArgsError::PositionalAfterNamed(1))
    ));
    assert!(matches!(
        problems(b"", &[None, Some("a"), Some("b"), None, None]),
        Err(ArgsError::PositionalAfterNamed(3))
    ));
    match problems(b"{}{}", &[None]) {
        Err(ArgsError::Problems(list)) => {
            assert_eq!(list, vec![ArgsProblem::NonexistentPositional(1)])
        }
        other => panic!("{:?}", other),
    }
    match problems(b"{3}{}{0}{a}", &[None, None, Some("a"), Some("b")]) {
        Err(ArgsError::Problems(list)) => assert_eq!(
            list,
            vec![
                ArgsProblem::NonexistentPositional(3),
                ArgsProblem::Unused(1),
                ArgsProblem::Unused(3)
            ]
        ),
        other => panic!("{:?}", other),
    }
    match problems(b"", &[None]) {
        Err(ArgsError::Problems(list)) => assert_eq!(list, vec![ArgsProblem::Unused(0)]),
        other => panic!("{:?}", other),
    }
    // a named argument is not reached by position
    match problems(b"{0}{a}", &[Some("a")]) {
        Err(ArgsError::Problems(list)) => {
            assert_eq!(list, vec![ArgsProblem::NonexistentPositional(0)])
        }
        other => panic!("{:?}", other),
    }
    assert_eq!(problems(b"", &[]).unwrap(), vec![]);
}

#[test]
fn byte_strings_are_compared_byte_by_byte() {
    assert!(bytes_eq(b"", b""));
    assert!(bytes_eq(b"abc", b"abc"));
    assert!(!bytes_eq(b"abc", b"abd"));
    assert!(!bytes_eq(b"abc", b"ab"));
    assert!(!bytes_eq(b"", b"a"));
}

#[test]
fn arguments_are_counted_as_they_are_written() {
    let hex = FormattingFlags::new()
        .set_mode(FormattingMode::Hexadecimal)
        .set_alternate(true);
    let args = [
        Argument::Int(PWrapper(-1i8).to_integer()),
        Argument::Int(PWrapper(u128::MAX).to_integer()),
        Argument::Str("a\nb"),
        Argument::Bool(false),
        Argument::Char('\t'),
        Argument::Char('🧡'),
        Argument::Range(1..20),
        Argument::RangeFrom(1..),
        Argument::RangeTo(..20),
        Argument::RangeToInclusive(..=20),
        Argument::RangeInclusive(1..=20),
        Argument::RangeFull(..),
    ];
    let expected = [
        ("-1", "0xFF"),
        ("340282366920938463463374607431768211455", "0xFFFFFFFFFFFFFFFFFFFFFFFFFFFFFFFF"),
        ("a\nb", "\"a\\nb\""),
        ("false", "false"),
        ("\t", "'\\t'"),
        ("🧡", "'🧡'"),
        ("0x1..0x14", "0x1..0x14"),
        ("0x1..", "0x1.."),
        ("..0x14", "..0x14"),
        ("..=0x14", "..=0x14"),
        ("0x1..=0x14", "0x1..=0x14"),
        ("..", ".."),
    ];
    for (arg, (display, debug)) in args.iter().zip(expected) {
        for (formatting, text) in [(Formatting::Display, display), (Formatting::Debug, debug)] {
            let len = arg.compute_len(formatting, hex);
            assert_eq!(len, text.len());
            let mut writer = StrWriter::new([0u8; 64]);
            let mut f = writer.make_formatter(FormattingFlags::new());
            arg.write(formatting, hex, &mut f).unwrap();
            assert_eq!(f.flags(), FormattingFlags::new());
            assert_eq!(writer.as_str(), text);
            assert_eq!(writer.len(), len);
        }
    }
}
