use const_format::fmt::{FormattingFlags, FormattingMode, StrWriter};
use const_format::pargument::Integer;
use const_format::PWrapper;

fn all_flags() -> [FormattingFlags; 6] {
    let plain = FormattingFlags::new();
    [
        plain,
        plain.set_alternate(true),
        plain.set_mode(FormattingMode::Hexadecimal),
        plain.set_mode(FormattingMode::Hexadecimal).set_alternate(true),
        plain.set_mode(FormattingMode::Binary),
        plain.set_mode(FormattingMode::Binary).set_alternate(true),
    ]
}

fn expected(flags: FormattingFlags, decimal: String, hex: String, binary: String) -> String {
    match (flags.mode(), flags.is_alternate()) {
        (FormattingMode::Regular, _) => decimal,
        (FormattingMode::Hexadecimal, false) => hex,
        (FormattingMode::Hexadecimal, true) => format!("0x{}", hex),
        (FormattingMode::Binary, false) => binary,
        (FormattingMode::Binary, true) => format!("0b{}", binary),
    }
}

// Writes `number` into a writer with exactly `len` bytes of room, and into one with a
// byte less, which must fail and stay empty.
fn check(number: Integer, flags: FormattingFlags, len: usize, want: &str) {
    assert_eq!(len, want.len(), "{}", want);
    assert_eq!(number.compute_debug_len(flags), len, "{}", want);
    let mut writer = StrWriter::new([0u8; 130]);
    writer.write_bytes(&[b' '; 130][..130 - len]).unwrap();
    writer
        .make_formatter(flags)
        .write_integer_debug(number)
        .unwrap();
    assert_eq!(&writer.as_str()[130 - len..], want);
    let mut short = StrWriter::new([0u8; 130]);
    short.write_bytes(&[b' '; 130][..131 - len]).unwrap();
    assert!(short
        .make_formatter(flags)
        .write_integer_debug(number)
        .is_err());
    assert_eq!(short.len(), 131 - len);
}

struct Numbers(u128);

impl Numbers {
    // a generator of the kind of Knuth's, enough to visit many bit patterns
    fn next(&mut self) -> u128 {
        self.0 = self
            .0
            .wrapping_mul(0x2360_ED05_1FC6_5DA4_4385_DF64_9FCC_F645)
            .wrapping_add(0x5851_F42D_4C95_7F2D_1405_7B7E_F767_814F);
        let shift = (self.0 >> 121) as u32;
        (self.0 ^ (self.0 >> 64)) >> shift
    }
}

#[test]
fn every_number_of_eight_bits() {
    for flags in all_flags() {
        for v in i8::MIN..=i8::MAX {
            let want = expected(flags, format!("{}", v), format!("{:X}", v), format!("{:b}", v));
            check(PWrapper(v).to_integer(), flags, PWrapper(v).compute_debug_len(flags), &want);
        }
        for v in u8::MIN..=u8::MAX {
            let want = expected(flags, format!("{}", v), format!("{:X}", v), format!("{:b}", v));
            check(PWrapper(v).to_integer(), flags, PWrapper(v).compute_debug_len(flags), &want);
        }
    }
}

#[test]
fn every_number_of_sixteen_bits() {
    for flags in all_flags() {
        for v in i16::MIN..=i16::MAX {
            let want = expected(flags, format!("{}", v), format!("{:X}", v), format!("{:b}", v));
            assert_eq!(PWrapper(v).compute_debug_len(flags), want.len());
            assert_eq!(PWrapper(v).to_integer().compute_debug_len(flags), want.len());
        }
        for v in u16::MIN..=u16::MAX {
            let want = expected(flags, format!("{}", v), format!("{:X}", v), format!("{:b}", v));
            assert_eq!(PWrapper(v).compute_debug_len(flags), want.len());
        }
    }
    for v in (i16::MIN..=i16::MAX).step_by(7) {
        for flags in all_flags() {
            let want = expected(flags, format!("{}", v), format!("{:X}", v), format!("{:b}", v));
            check(PWrapper(v).to_integer(), flags, PWrapper(v).compute_debug_len(flags), &want);
        }
    }
}

#[test]
fn many_numbers_of_the_wider_types() {
    let mut numbers = Numbers(0x1234_5678_9ABC_DEF0);
    for _ in 0..3000 {
        let bits = numbers.next();
        for flags in all_flags() {
            let v = bits as u32;
            let want = expected(flags, format!("{}", v), format!("{:X}", v), format!("{:b}", v));
            check(PWrapper(v).to_integer(), flags, PWrapper(v).compute_debug_len(flags), &want);
            let v = bits as i32;
            let want = expected(flags, format!("{}", v), format!("{:X}", v), format!("{:b}", v));
            check(PWrapper(v).to_integer(), flags, PWrapper(v).compute_debug_len(flags), &want);
            let v = bits as u64;
            let want = expected(flags, format!("{}", v), format!("{:X}", v), format!("{:b}", v));
            check(PWrapper(v).to_integer(), flags, PWrapper(v).compute_debug_len(flags), &want);
            let v = bits as i64;
            let want = expected(flags, format!("{}", v), format!("{:X}", v), format!("{:b}", v));
            check(PWrapper(v).to_integer(), flags, PWrapper(v).compute_debug_len(flags), &want);
            let v = bits;
            let want = expected(flags, format!("{}", v), format!("{:X}", v), format!("{:b}", v));
            check(PWrapper(v).to_integer(), flags, PWrapper(v).compute_debug_len(flags), &want);
            let v = bits as i128;
            let want = expected(flags, format!("{}", v), format!("{:X}", v), format!("{:b}", v));
            check(PWrapper(v).to_integer(), flags, PWrapper(v).compute_debug_len(flags), &want);
            let v = bits as usize;
            let want = expected(flags, format!("{}", v), format!("{:X}", v), format!("{:b}", v));
            check(PWrapper(v).to_integer(), flags, PWrapper(v).compute_debug_len(flags), &want);
            let v = bits as isize;
            let want = expected(flags, format!("{}", v), format!("{:X}", v), format!("{:b}", v));
            check(PWrapper(v).to_integer(), flags, PWrapper(v).compute_debug_len(flags), &want);
        }
    }
}

#[test]
fn every_power_of_ten_and_of_two() {
    let plain = FormattingFlags::new();
    let mut power: u128 = 1;
    for digits in 1..=39 {
        assert_eq!(PWrapper(power).compute_display_len(plain), digits);
        assert_eq!(PWrapper(power - 1).compute_display_len(plain), (digits - 1).max(1));
        if power <= u64::MAX as u128 {
            assert_eq!(PWrapper(power as u64).compute_display_len(plain), digits);
            assert_eq!(PWrapper(power as usize).compute_display_len(plain), digits);
        }
        if power <= i64::MAX as u128 {
            assert_eq!(PWrapper(-(power as i64)).compute_display_len(plain), digits + 1);
        }
        if digits < 39 {
            power *= 10;
        }
    }
    let hex = plain.set_mode(FormattingMode::Hexadecimal);
    let binary = plain.set_mode(FormattingMode::Binary);
    for bit in 0..128u32 {
        let v = 1u128 << bit;
        assert_eq!(PWrapper(v).binary_len(binary), bit as usize + 1);
        assert_eq!(PWrapper(v).hexadecimal_len(hex), bit as usize / 4 + 1);
        assert_eq!(PWrapper(v - 1).binary_len(binary), (bit as usize).max(1));
        if bit < 64 {
            assert_eq!(PWrapper(v as u64).binary_len(binary), bit as usize + 1);
            assert_eq!(PWrapper((v as u64) as i64).binary_len(binary), bit as usize + 1);
        }
    }
}

#[test]
fn many_strings_read_back_from_their_escapes() {
    let mut numbers = Numbers(42);
    for _ in 0..2000 {
        let len = (numbers.next() % 12) as usize;
        let mut text = String::new();
        for _ in 0..len {
            let pick = numbers.next();
            let c = match pick % 4 {
                0 => char::from((pick >> 8) as u8 % 128),
                1 => ['\\', '"', '\'', 'x', '0', 'n', '\n', '\0'][(pick >> 8) as usize % 8],
                2 => ['é', 'ß', '€', '🧡', '\u{80}', '\u{7ff}'][(pick >> 8) as usize % 6],
                _ => char::from(b'a' + ((pick >> 8) % 26) as u8),
            };
            text.push(c);
        }
        let flags = FormattingFlags::new();
        let len = PWrapper(text.as_str()).compute_debug_len(flags);
        let mut writer = StrWriter::new([0u8; 64]);
        PWrapper(text.as_str())
            .const_debug_fmt(&mut writer.make_formatter(flags))
            .unwrap();
        assert_eq!(writer.len(), len);
        let quoted = writer.as_bytes();
        // read the escapes back
        let inner = &quoted[1..quoted.len() - 1];
        let mut back = Vec::new();
        let mut i = 0;
        while i < inner.len() {
            if inner[i] != b'\\' {
                back.push(inner[i]);
                i += 1;
            } else if inner[i + 1] == b'x' {
                let digits = std::str::from_utf8(&inner[i + 2..i + 4]).unwrap();
                back.push(u8::from_str_radix(digits, 16).unwrap());
                i += 4;
            } else {
                back.push(match inner[i + 1] {
                    b'0' => 0,
                    b't' => b'\t',
                    b'n' => b'\n',
                    b'r' => b'\r',
                    other => other,
                });
                i += 2;
            }
        }
        assert_eq!(back, text.as_bytes());
        // nothing that needs an escape is left as it is
        assert!(inner
            .iter()
            .all(|b| *b >= 32 && *b != 127 || *b >= 128));
    }
}
