use const_format::fmt::{FormattingFlags, FormattingLength, FormattingMode, StrWriter};
use const_format::pargument::Integer;
use const_format::PWrapper;

fn flags(mode: FormattingMode, alternate: bool) -> FormattingFlags {
    FormattingFlags::new().set_mode(mode).set_alternate(alternate)
}

fn all_flags() -> [FormattingFlags; 6] {
    [
        flags(FormattingMode::Regular, false),
        flags(FormattingMode::Regular, true),
        flags(FormattingMode::Hexadecimal, false),
        flags(FormattingMode::Hexadecimal, true),
        flags(FormattingMode::Binary, false),
        flags(FormattingMode::Binary, true),
    ]
}

// The text of `number` under `flags`, written into a writer of exactly `len` bytes.
fn written(number: Integer, flags: FormattingFlags, len: usize) -> String {
    let mut writer = StrWriter::new([0u8; 140]);
    let mut f = writer.make_formatter(flags);
    f.write_integer_debug(number).unwrap();
    assert_eq!(writer.len(), len);
    writer.as_str().to_string()
}

fn expected(
    mode: FormattingMode,
    alternate: bool,
    decimal: String,
    hex: String,
    binary: String,
) -> String {
    match (mode, alternate) {
        (FormattingMode::Regular, _) => decimal,
        (FormattingMode::Hexadecimal, false) => hex,
        (FormattingMode::Hexadecimal, true) => format!("0x{}", hex),
        (FormattingMode::Binary, false) => binary,
        (FormattingMode::Binary, true) => format!("0b{}", binary),
    }
}

#[test]
fn counted_length_is_written_length_i8() {
    for value in [0i8, 1, -1, i8::MIN, i8::MAX, 10, -10, 99, 100, -100] {
        for fl in all_flags() {
            let len = PWrapper(value).compute_debug_len(fl);
            let text = written(PWrapper(value).to_integer(), fl, len);
            let want = expected(
                fl.mode(),
                fl.is_alternate(),
                format!("{}", value),
                format!("{:X}", value),
                format!("{:b}", value),
            );
            assert_eq!(text, want);
            assert_eq!(PWrapper(value).compute_display_len(fl), format!("{}", value).len());
        }
    }
}

#[test]
fn counted_length_is_written_length_i16() {
    for value in [0i16, 1, -1, i16::MIN, i16::MAX, 9999, 10000, -9999, -10000] {
        for fl in all_flags() {
            let len = PWrapper(value).compute_debug_len(fl);
            let text = written(PWrapper(value).to_integer(), fl, len);
            let want = expected(
                fl.mode(),
                fl.is_alternate(),
                format!("{}", value),
                format!("{:X}", value),
                format!("{:b}", value),
            );
            assert_eq!(text, want);
        }
    }
}

#[test]
fn counted_length_is_written_length_i32() {
    for value in [0i32, 1, -1, i32::MIN, i32::MAX, 99_999_999, 100_000_000, -100_000_000] {
        for fl in all_flags() {
            let len = PWrapper(value).compute_debug_len(fl);
            let text = written(PWrapper(value).to_integer(), fl, len);
            let want = expected(
                fl.mode(),
                fl.is_alternate(),
                format!("{}", value),
                format!("{:X}", value),
                format!("{:b}", value),
            );
            assert_eq!(text, want);
        }
    }
}

#[test]
fn counted_length_is_written_length_i64() {
    for value in [
        0i64,
        1,
        -1,
        i64::MIN,
        i64::MAX,
        999_999_999_999,
        1_000_000_000_000,
        -1_000_000_000_000,
    ] {
        for fl in all_flags() {
            let len = PWrapper(value).compute_debug_len(fl);
            let text = written(PWrapper(value).to_integer(), fl, len);
            let want = expected(
                fl.mode(),
                fl.is_alternate(),
                format!("{}", value),
                format!("{:X}", value),
                format!("{:b}", value),
            );
            assert_eq!(text, want);
        }
    }
}

#[test]
fn counted_length_is_written_length_i128() {
    for value in [
        0i128,
        1,
        -1,
        i128::MIN,
        i128::MAX,
        9_999_999_999_999_999,
        10_000_000_000_000_000,
        -10_000_000_000_000_000,
        10i128.pow(38),
        10i128.pow(33),
    ] {
        for fl in all_flags() {
            let len = PWrapper(value).compute_debug_len(fl);
            let text = written(PWrapper(value).to_integer(), fl, len);
            let want = expected(
                fl.mode(),
                fl.is_alternate(),
                format!("{}", value),
                format!("{:X}", value),
                format!("{:b}", value),
            );
            assert_eq!(text, want);
        }
    }
}

#[test]
fn counted_length_is_written_length_isize() {
    for value in [0isize, 1, -1, isize::MIN, isize::MAX] {
        for fl in all_flags() {
            let len = PWrapper(value).compute_debug_len(fl);
            let text = written(PWrapper(value).to_integer(), fl, len);
            let want = expected(
                fl.mode(),
                fl.is_alternate(),
                format!("{}", value),
                format!("{:X}", value),
                format!("{:b}", value),
            );
            assert_eq!(text, want);
        }
    }
}

#[test]
fn counted_length_is_written_length_unsigned() {
    for fl in all_flags() {
        for value in [0u8, 1, u8::MAX, 9, 10, 99, 100] {
            let len = PWrapper(value).compute_debug_len(fl);
            assert_eq!(
                written(PWrapper(value).to_integer(), fl, len),
                expected(
                    fl.mode(),
                    fl.is_alternate(),
                    format!("{}", value),
                    format!("{:X}", value),
                    format!("{:b}", value)
                )
            );
        }
        for value in [0u16, 1, u16::MAX, 9999, 10000] {
            let len = PWrapper(value).compute_debug_len(fl);
            assert_eq!(
                written(PWrapper(value).to_integer(), fl, len),
                expected(
                    fl.mode(),
                    fl.is_alternate(),
                    format!("{}", value),
                    format!("{:X}", value),
                    format!("{:b}", value)
                )
            );
        }
        for value in [0u32, 1, u32::MAX, 99_999_999, 100_000_000] {
            let len = PWrapper(value).compute_debug_len(fl);
            assert_eq!(
                written(PWrapper(value).to_integer(), fl, len),
                expected(
                    fl.mode(),
                    fl.is_alternate(),
                    format!("{}", value),
                    format!("{:X}", value),
                    format!("{:b}", value)
                )
            );
        }
        for value in [0u64, 1, u64::MAX, 999_999_999_999, 1_000_000_000_000] {
            let len = PWrapper(value).compute_debug_len(fl);
            assert_eq!(
                written(PWrapper(value).to_integer(), fl, len),
                expected(
                    fl.mode(),
                    fl.is_alternate(),
                    format!("{}", value),
                    format!("{:X}", value),
                    format!("{:b}", value)
                )
            );
        }
        for value in [
            0u128,
            1,
            u128::MAX,
            9_999_999_999_999_999,
            10_000_000_000_000_000,
            10u128.pow(38),
            1 << 64,
            (1 << 64) - 1,
        ] {
            let len = PWrapper(value).compute_debug_len(fl);
            assert_eq!(
                written(PWrapper(value).to_integer(), fl, len),
                expected(
                    fl.mode(),
                    fl.is_alternate(),
                    format!("{}", value),
                    format!("{:X}", value),
                    format!("{:b}", value)
                )
            );
        }
        for value in [0usize, 1, usize::MAX] {
            let len = PWrapper(value).compute_debug_len(fl);
            assert_eq!(
                written(PWrapper(value).to_integer(), fl, len),
                expected(
                    fl.mode(),
                    fl.is_alternate(),
                    format!("{}", value),
                    format!("{:X}", value),
                    format!("{:b}", value)
                )
            );
        }
    }
}

fn display_of(number: Integer) -> String {
    let mut writer = StrWriter::new([0u8; 40]);
    let mut f = writer.make_formatter(FormattingFlags::new());
    f.write_integer_display(number).unwrap();
    writer.as_str().to_string()
}

#[test]
fn decimal_text_parses_back_to_the_number() {
    for v in [0i8, 1, -1, i8::MIN, i8::MAX] {
        assert_eq!(display_of(PWrapper(v).to_integer()).parse::<i8>().unwrap(), v);
    }
    for v in [0i16, 1, -1, i16::MIN, i16::MAX] {
        assert_eq!(display_of(PWrapper(v).to_integer()).parse::<i16>().unwrap(), v);
    }
    for v in [0i32, 1, -1, i32::MIN, i32::MAX] {
        assert_eq!(display_of(PWrapper(v).to_integer()).parse::<i32>().unwrap(), v);
    }
    for v in [0i64, 1, -1, i64::MIN, i64::MAX] {
        assert_eq!(display_of(PWrapper(v).to_integer()).parse::<i64>().unwrap(), v);
    }
    for v in [0i128, 1, -1, i128::MIN, i128::MAX] {
        assert_eq!(display_of(PWrapper(v).to_integer()).parse::<i128>().unwrap(), v);
    }
    for v in [0u8, 1, u8::MAX] {
        assert_eq!(display_of(PWrapper(v).to_integer()).parse::<u8>().unwrap(), v);
    }
    for v in [0u16, 1, u16::MAX] {
        assert_eq!(display_of(PWrapper(v).to_integer()).parse::<u16>().unwrap(), v);
    }
    for v in [0u32, 1, u32::MAX] {
        assert_eq!(display_of(PWrapper(v).to_integer()).parse::<u32>().unwrap(), v);
    }
    for v in [0u64, 1, u64::MAX] {
        assert_eq!(display_of(PWrapper(v).to_integer()).parse::<u64>().unwrap(), v);
    }
    for v in [0u128, 1, u128::MAX] {
        assert_eq!(display_of(PWrapper(v).to_integer()).parse::<u128>().unwrap(), v);
    }
}

#[test]
fn hexadecimal_and_binary_show_the_bits_of_the_width() {
    let alt_hex = flags(FormattingMode::Hexadecimal, true);
    assert_eq!(written(PWrapper(-1i8).to_integer(), alt_hex, 4), "0xFF");
    assert_eq!(written(PWrapper(-1i16).to_integer(), alt_hex, 6), "0xFFFF");
    assert_eq!(written(PWrapper(-1i32).to_integer(), alt_hex, 10), "0xFFFFFFFF");
    assert_eq!(written(PWrapper(-1i64).to_integer(), alt_hex, 18), "0xFFFFFFFFFFFFFFFF");
    assert_eq!(
        written(PWrapper(-1i128).to_integer(), alt_hex, 34),
        "0xFFFFFFFFFFFFFFFFFFFFFFFFFFFFFFFF"
    );
    let binary = flags(FormattingMode::Binary, false);
    assert_eq!(written(PWrapper(-2i8).to_integer(), binary, 8), "11111110");
    assert_eq!(written(PWrapper(i8::MIN).to_integer(), binary, 8), "10000000");
    assert_eq!(PWrapper(-1i8).hexadecimal_len(alt_hex), 4);
    assert_eq!(PWrapper(-1i16).hexadecimal_len(alt_hex), 6);
    assert_eq!(PWrapper(-1i8).binary_len(flags(FormattingMode::Binary, true)), 10);
}

#[test]
fn digit_counts_by_the_formulas() {
    let plain = FormattingFlags::new();
    // decimal: one digit for zero, one more for every power of ten
    assert_eq!(PWrapper(0u64).compute_display_len(plain), 1);
    assert_eq!(PWrapper(9u64).compute_display_len(plain), 1);
    assert_eq!(PWrapper(10u64).compute_display_len(plain), 2);
    assert_eq!(PWrapper(u64::MAX).compute_display_len(plain), 20);
    assert_eq!(PWrapper(u128::MAX).compute_display_len(plain), 39);
    assert_eq!(PWrapper(i128::MIN).compute_display_len(plain), 40);
    assert_eq!(PWrapper(-10i32).compute_display_len(plain), 3);
    // hexadecimal: a quarter of the bits in use, rounded up, at least one
    let hex = flags(FormattingMode::Hexadecimal, false);
    assert_eq!(PWrapper(0u32).hexadecimal_len(hex), 1);
    assert_eq!(PWrapper(0xFu32).hexadecimal_len(hex), 1);
    assert_eq!(PWrapper(0x10u32).hexadecimal_len(hex), 2);
    assert_eq!(PWrapper(0x1FFu32).hexadecimal_len(hex), 3);
    assert_eq!(PWrapper(u128::MAX).hexadecimal_len(flags(FormattingMode::Hexadecimal, true)), 34);
    // binary: the bits in use, at least one
    let binary = flags(FormattingMode::Binary, false);
    assert_eq!(PWrapper(0u8).binary_len(binary), 1);
    assert_eq!(PWrapper(1u8).binary_len(binary), 1);
    assert_eq!(PWrapper(5u8).binary_len(binary), 3);
    assert_eq!(PWrapper(u128::MAX).binary_len(flags(FormattingMode::Binary, true)), 130);
}

#[test]
fn start_arrays_hold_the_text_at_their_end() {
    let thirteen = PWrapper(Integer {
        unsigned: 13,
        is_negative: false,
        mask: 0xFF,
    });
    let out = thirteen.to_start_array_display();
    assert_eq!(&out.array[out.start..], b"13");
    assert_eq!(out.start, 38);
    let out = thirteen.to_start_array_debug();
    assert_eq!(&out.array[out.start..], b"13");
    let out = thirteen.to_start_array_hexadecimal(flags(FormattingMode::Hexadecimal, true));
    assert_eq!(&out.array[out.start..], b"0xD");
    let out = thirteen.to_start_array_hexadecimal(flags(FormattingMode::Hexadecimal, false));
    assert_eq!(&out.array[out.start..], b"D");
    let out = thirteen.to_start_array_binary(flags(FormattingMode::Binary, true));
    assert_eq!(&out.array[out.start..], b"0b1101");
    let out = thirteen.to_start_array_binary(flags(FormattingMode::Binary, false));
    assert_eq!(&out.array[out.start..], b"1101");

    let least = PWrapper(PWrapper(i128::MIN).to_integer());
    let out = least.to_start_array_display();
    assert_eq!(out.start, 0);
    assert_eq!(
        &out.array[..],
        b"-170141183460469231731687303715884105728"
    );
    let all_bits = PWrapper(PWrapper(u128::MAX).to_integer());
    let out = all_bits.to_start_array_binary(flags(FormattingMode::Binary, true));
    assert_eq!(out.start, 0);
    assert_eq!(&out.array[..2], b"0b");
    assert!(out.array[2..].iter().all(|b| *b == b'1'));
    let out = all_bits.to_start_array_hexadecimal(flags(FormattingMode::Hexadecimal, true));
    assert_eq!(out.start, 0);
    assert_eq!(&out.array[..], b"0xFFFFFFFFFFFFFFFFFFFFFFFFFFFFFFFF");
}

#[test]
fn the_mask_is_applied_when_the_bits_are_written() {
    // a magnitude with bits outside the mask: decimal shows all of it, the other bases
    // what the mask lets through
    let wide = Integer {
        unsigned: 0x1234,
        is_negative: false,
        mask: 0xFF,
    };
    assert_eq!(written(wide, flags(FormattingMode::Regular, false), 4), "4660");
    assert_eq!(written(wide, flags(FormattingMode::Hexadecimal, false), 2), "34");
    assert_eq!(written(wide, flags(FormattingMode::Binary, false), 6), "110100");
    assert_eq!(wide.bits(), 0x34);
    assert_eq!(wide.compute_debug_len(flags(FormattingMode::Hexadecimal, true)), 4);
    // a negative zero keeps its sign in decimal
    let negative_zero = Integer {
        unsigned: 0,
        is_negative: true,
        mask: 0xFF,
    };
    assert_eq!(display_of(negative_zero), "-0");
    assert_eq!(negative_zero.compute_display_len(), 2);
    assert_eq!(written(negative_zero, flags(FormattingMode::Hexadecimal, true), 3), "0x0");
}

#[test]
fn unsigned_abs_of_every_width() {
    assert_eq!(PWrapper(i8::MIN).unsigned_abs(), 128u8);
    assert_eq!(PWrapper(-1i8).unsigned_abs(), 1u8);
    assert_eq!(PWrapper(i8::MAX).unsigned_abs(), 127u8);
    assert_eq!(PWrapper(i16::MIN).unsigned_abs(), i16::MIN.unsigned_abs());
    assert_eq!(PWrapper(i32::MIN).unsigned_abs(), i32::MIN.unsigned_abs());
    assert_eq!(PWrapper(i64::MIN).unsigned_abs(), i64::MIN.unsigned_abs());
    assert_eq!(PWrapper(i128::MIN).unsigned_abs(), i128::MIN.unsigned_abs());
    assert_eq!(PWrapper(isize::MIN).unsigned_abs(), isize::MIN.unsigned_abs());
    assert_eq!(PWrapper(-7isize).unsigned_abs(), 7usize);
    assert_eq!(PWrapper(7isize).unsigned_abs(), 7usize);
    assert_eq!(PWrapper(0isize).unsigned_abs(), 0usize);
    assert_eq!(PWrapper(usize::MAX).unsigned_abs(), usize::MAX);
    assert_eq!(PWrapper(0usize).unsigned_abs(), 0usize);
    assert_eq!(PWrapper(200u8).unsigned_abs(), 200u8);
    assert_eq!(PWrapper(u128::MAX).unsigned_abs(), u128::MAX);
}

#[test]
fn bits_of_signed_numbers() {
    assert_eq!(PWrapper(-1i8).to_bits(), 0xFF);
    assert_eq!(PWrapper(i8::MIN).to_bits(), 0x80);
    assert_eq!(PWrapper(5i8).to_bits(), 5);
    assert_eq!(PWrapper(-1i128).to_bits(), u128::MAX);
    assert_eq!(PWrapper(-2isize).to_bits(), usize::MAX - 1);
    assert_eq!(PWrapper(i64::MIN).to_bits(), 1u64 << 63);
}

#[test]
fn counting_adds_to_the_length_so_far() {
    let mut count = FormattingLength::new(flags(FormattingMode::Hexadecimal, true));
    PWrapper(255u8).const_debug_len(&mut count);
    assert_eq!(count.len(), 4);
    PWrapper(-255i32).const_display_len(&mut count);
    assert_eq!(count.len(), 8);
    PWrapper(usize::MAX).const_debug_len(&mut count);
    assert_eq!(count.len(), 8 + 2 + (usize::BITS as usize) / 4);
    assert_eq!(count.flags().mode(), FormattingMode::Hexadecimal);
    assert!(count.flags().is_alternate());
    count.add_len(5);
    assert_eq!(count.len(), 13 + 2 + (usize::BITS as usize) / 4);
}

#[test]
fn typed_writing_matches_the_carrier() {
    let mut writer = StrWriter::new([0u8; 64]);
    let mut f = writer.make_formatter(flags(FormattingMode::Binary, true));
    PWrapper(-3i16).const_display_fmt(&mut f).unwrap();
    f.write_str(" ").unwrap();
    PWrapper(-3i16).const_debug_fmt(&mut f).unwrap();
    f.write_str(" ").unwrap();
    PWrapper(200u8).const_debug_fmt(&mut f).unwrap();
    assert_eq!(writer.as_str(), "-3 0b1111111111111101 0b11001000");
}
