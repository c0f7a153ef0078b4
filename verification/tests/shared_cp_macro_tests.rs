use const_format::fmt::{FormattingFlags, StrWriter};
use const_format::pargument::{concatenate, PArgument, PConvWrapper};

fn concat<const LEN: usize>(args: &[PArgument<'_>]) -> StrWriter<LEN> {
    assert_eq!(PArgument::calc_len(args), LEN);
    concatenate::<LEN>(args).unwrap()
}

fn all_args() -> Vec<(PArgument<'static>, String)> {
    let flags = FormattingFlags::new();
    let space = || (PConvWrapper(" ").to_pargument_display(flags), " ".to_string());
    let mut list = Vec::new();
    list.push((PConvWrapper(i8::MIN).to_pargument_display(flags), format!("{}", i8::MIN)));
    list.push(space());
    list.push((PConvWrapper(i8::MAX).to_pargument_display(flags), format!("{}", i8::MAX)));
    list.push(space());
    list.push((PConvWrapper(i16::MIN).to_pargument_display(flags), format!("{}", i16::MIN)));
    list.push(space());
    list.push((PConvWrapper(i16::MAX).to_pargument_display(flags), format!("{}", i16::MAX)));
    list.push(space());
    list.push((PConvWrapper(i32::MIN).to_pargument_display(flags), format!("{}", i32::MIN)));
    list.push(space());
    list.push((PConvWrapper(i32::MAX).to_pargument_display(flags), format!("{}", i32::MAX)));
    list.push(space());
    list.push((PConvWrapper(i64::MIN).to_pargument_display(flags), format!("{}", i64::MIN)));
    list.push(space());
    list.push((PConvWrapper(i64::MAX).to_pargument_display(flags), format!("{}", i64::MAX)));
    list.push(space());
    list.push((PConvWrapper(i128::MIN).to_pargument_display(flags), format!("{}", i128::MIN)));
    list.push(space());
    list.push((PConvWrapper(i128::MAX).to_pargument_display(flags), format!("{}", i128::MAX)));
    list.push(space());
    list.push((PConvWrapper(isize::MIN).to_pargument_display(flags), format!("{}", isize::MIN)));
    list.push(space());
    list.push((PConvWrapper(isize::MAX).to_pargument_display(flags), format!("{}", isize::MAX)));
    list.push(space());
    list.push((
        PConvWrapper("!Aq¡🧡🧠₀₁").to_pargument_display(flags),
        "!Aq¡🧡🧠₀₁".to_string(),
    ));
    list.push((PConvWrapper("").to_pargument_display(flags), String::new()));
    list.push((PConvWrapper(u8::MIN).to_pargument_display(flags), format!("{}", u8::MIN)));
    list.push(space());
    list.push((PConvWrapper(u8::MAX).to_pargument_display(flags), format!("{}", u8::MAX)));
    list.push(space());
    list.push((PConvWrapper(u16::MIN).to_pargument_display(flags), format!("{}", u16::MIN)));
    list.push(space());
    list.push((PConvWrapper(u16::MAX).to_pargument_display(flags), format!("{}", u16::MAX)));
    list.push(space());
    list.push((PConvWrapper(u32::MIN).to_pargument_display(flags), format!("{}", u32::MIN)));
    list.push(space());
    list.push((PConvWrapper(u32::MAX).to_pargument_display(flags), format!("{}", u32::MAX)));
    list.push(space());
    list.push((PConvWrapper(u64::MIN).to_pargument_display(flags), format!("{}", u64::MIN)));
    list.push(space());
    list.push((PConvWrapper(u64::MAX).to_pargument_display(flags), format!("{}", u64::MAX)));
    list.push(space());
    list.push((PConvWrapper(u128::MIN).to_pargument_display(flags), format!("{}", u128::MIN)));
    list.push(space());
    list.push((PConvWrapper(u128::MAX).to_pargument_display(flags), format!("{}", u128::MAX)));
    list.push(space());
    list.push((PConvWrapper(usize::MIN).to_pargument_display(flags), format!("{}", usize::MIN)));
    list.push(space());
    list.push((PConvWrapper(usize::MAX).to_pargument_display(flags), format!("{}", usize::MAX)));
    list.push(space());
    list.push((PConvWrapper(false).to_pargument_display(flags), format!("{}", false)));
    list.push((PConvWrapper(true).to_pargument_display(flags), format!("{}", true)));
    list
}

#[test]
fn all_types() {
    let list = all_args();
    let args: Vec<PArgument<'static>> = list.iter().map(|(arg, _)| *arg).collect();
    let expected: String = list.iter().map(|(_, text)| text.as_str()).collect();
    let len = PArgument::calc_len(&args);
    assert_eq!(len, expected.len());
    let writer = concatenate::<1024>(&args).unwrap();
    assert_eq!(writer.as_str(), expected);
    assert_eq!(writer.len(), len);
}

#[test]
fn each_type() {
    for (arg, expected) in all_args() {
        assert_eq!(arg.fmt_len, expected.len());
        let writer = concatenate::<64>(&[arg]).unwrap();
        assert_eq!(writer.as_str(), expected);
    }
}

#[test]
fn other_tests() {
    let empty: StrWriter<0> = concat(&[]);
    assert_eq!(empty.as_str(), "");
}

#[test]
fn concatenate_needs_the_counted_length() {
    let flags = FormattingFlags::new();
    let args = [
        PConvWrapper("ab").to_pargument_debug(flags),
        PConvWrapper(-12i16).to_pargument_display(flags),
        PConvWrapper(255u8).to_pargument_debug(
            flags
                .set_mode(const_format::FormattingMode::Hexadecimal)
                .set_alternate(true),
        ),
    ];
    assert_eq!(PArgument::calc_len(&args), 11);
    let exact: StrWriter<11> = concat(&args);
    assert_eq!(exact.as_str(), "\"ab\"-120xFF");
    assert!(concatenate::<10>(&args).is_err());
}
