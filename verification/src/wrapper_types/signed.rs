//! Measuring and writing the signed integers, one width after the other.

use crate::fmt::error::Error;
use crate::fmt::formatter::{counted, wrote, Formatter, FormattingLength};
use crate::formatting::{integer_debug_text, FormattingFlags, FormattingMode};
use crate::pargument::{lemma_carrier_text, Integer};
use crate::text::{
    binary_text, hexadecimal_text, integer_display_text, lemma_digits_len_split,
    lemma_powers_of_ten, magnitude, modulus, twos_complement,
};
use crate::wrapper_types::digit_count::{
    bit_width_u128, bit_width_u64, compute_binary_count, compute_hex_count,
};
use crate::wrapper_types::pwrapper::PWrapper;
use vstd::prelude::*;

verus! {

impl PWrapper<i8> {
    /// The magnitude of the number. That of the least number does not fit in the signed
    /// type, which is why the result is unsigned.
    pub fn unsigned_abs(self) -> (abs: u8)
        ensures
            abs == magnitude(self.0 as int),
    {
        if self.0 == i8::MIN {
            0x80
        } else if self.0 < 0 {
            (-self.0) as u8
        } else {
            self.0 as u8
        }
    }

    /// The bits of the number, read as an unsigned number: its two's complement.
    pub fn to_bits(self) -> (pattern: u8)
        ensures
            pattern == twos_complement(self.0 as int, modulus(8)),
    {
        if self.0 < 0 {
            u8::MAX - ((-(self.0 + 1)) as u8)
        } else {
            self.0 as u8
        }
    }

    /// The number in the carrier that the digits are made from.
    pub fn to_integer(self) -> (number: Integer)
        ensures
            number.fits_width(),
            number.value() == self.0,
            number.mask == 0xFF,
    {
        Integer {
            unsigned: self.unsigned_abs() as u128,
            is_negative: self.0 < 0,
            mask: 0xFF,
        }
    }

    /// The number of decimal digits of the magnitude, and one more for the sign of a
    /// negative number. The flags play no part.
    pub fn compute_display_len(self, _flags: FormattingFlags) -> (len: usize)
        ensures
            len == integer_display_text(self.0 as int).len(),
    {
        let mut n: u8 = self.unsigned_abs();
        let mut len: usize = if self.0 < 0 {
            2
        } else {
            1
        };
        proof {
            lemma_powers_of_ten();
        }
        if n >= 100 {
            proof {
                lemma_digits_len_split(n as nat, 10, 2);
            }
            n /= 100;
            len += 2;
        }
        if n >= 10 {
            proof {
                lemma_digits_len_split(n as nat, 10, 1);
            }
            len += 1;
        }
        len
    }

    /// The length of the number as debug formatting writes it under `flags`: that of
    /// [`Self::compute_display_len`] in decimal, else that of its bits in the base asked
    /// for.
    pub fn compute_debug_len(self, flags: FormattingFlags) -> (len: usize)
        ensures
            len == integer_debug_text(self.0 as int, modulus(8), flags).len(),
    {
        match flags.mode() {
            FormattingMode::Regular => self.compute_display_len(flags),
            FormattingMode::Hexadecimal => self.hexadecimal_len(flags),
            FormattingMode::Binary => self.binary_len(flags),
        }
    }

    /// The length of the two's complement of the number in hexadecimal: a digit for every four
    /// bits up to the highest one that is set, and `0x` in the alternate form.
    pub fn hexadecimal_len(self, flags: FormattingFlags) -> (len: usize)
        ensures
            len == hexadecimal_text(
                twos_complement(self.0 as int, modulus(8)),
                flags.is_alternate,
            ).len(),
    {
        compute_hex_count(bit_width_u64(self.to_bits() as u64), flags.is_alternate())
    }

    /// The length of the two's complement of the number in binary: a digit for every bit up to
    /// the highest one that is set, and `0b` in the alternate form.
    pub fn binary_len(self, flags: FormattingFlags) -> (len: usize)
        ensures
            len == binary_text(
                twos_complement(self.0 as int, modulus(8)),
                flags.is_alternate,
            ).len(),
    {
        compute_binary_count(bit_width_u64(self.to_bits() as u64), flags.is_alternate())
    }

    /// Counts the number as display formatting writes it.
    pub fn const_display_len(&self, f: &mut FormattingLength)
        requires
            old(f).len + integer_display_text(self.0 as int).len() <= usize::MAX,
        ensures
            counted(*old(f), *final(f), integer_display_text(self.0 as int)),
    {
        let len = self.compute_display_len(f.flags());
        f.add_len(len);
    }

    /// Counts the number as debug formatting writes it under the flags of `f`.
    pub fn const_debug_len(&self, f: &mut FormattingLength)
        requires
            old(f).len + integer_debug_text(self.0 as int, modulus(8), old(f).flags).len()
                <= usize::MAX,
        ensures
            counted(
                *old(f),
                *final(f),
                integer_debug_text(self.0 as int, modulus(8), old(f).flags),
            ),
    {
        let len = self.compute_debug_len(f.flags());
        f.add_len(len);
    }

    /// Writes the number in decimal with its sign, whatever the flags.
    pub fn const_display_fmt<const N: usize>(&self, f: &mut Formatter<'_, N>) -> (res: Result<
        (),
        Error,
    >)
        ensures
            wrote(*old(f), *final(f), integer_display_text(self.0 as int), res),
            *final(final(f).writer) == *final(old(f).writer),
    {
        let number = self.to_integer();
        proof {
            lemma_carrier_text(number, f.flags);
        }
        f.write_integer_display(number)
    }

    /// Writes the number in the base that the flags of `f` ask for.
    pub fn const_debug_fmt<const N: usize>(&self, f: &mut Formatter<'_, N>) -> (res: Result<
        (),
        Error,
    >)
        ensures
            wrote(
                *old(f),
                *final(f),
                integer_debug_text(self.0 as int, modulus(8), old(f).flags),
                res,
            ),
            *final(final(f).writer) == *final(old(f).writer),
    {
        let number = self.to_integer();
        proof {
            lemma_carrier_text(number, f.flags);
        }
        f.write_integer_debug(number)
    }
}

impl PWrapper<i16> {
    /// The magnitude of the number. That of the least number does not fit in the signed
    /// type, which is why the result is unsigned.
    pub fn unsigned_abs(self) -> (abs: u16)
        ensures
            abs == magnitude(self.0 as int),
    {
        if self.0 == i16::MIN {
            0x8000
        } else if self.0 < 0 {
            (-self.0) as u16
        } else {
            self.0 as u16
        }
    }

    /// The bits of the number, read as an unsigned number: its two's complement.
    pub fn to_bits(self) -> (pattern: u16)
        ensures
            pattern == twos_complement(self.0 as int, modulus(16)),
    {
        if self.0 < 0 {
            u16::MAX - ((-(self.0 + 1)) as u16)
        } else {
            self.0 as u16
        }
    }

    /// The number in the carrier that the digits are made from.
    pub fn to_integer(self) -> (number: Integer)
        ensures
            number.fits_width(),
            number.value() == self.0,
            number.mask == 0xFFFF,
    {
        Integer {
            unsigned: self.unsigned_abs() as u128,
            is_negative: self.0 < 0,
            mask: 0xFFFF,
        }
    }

    /// The number of decimal digits of the magnitude, and one more for the sign of a
    /// negative number. The flags play no part.
    pub fn compute_display_len(self, _flags: FormattingFlags) -> (len: usize)
        ensures
            len == integer_display_text(self.0 as int).len(),
    {
        let mut n: u16 = self.unsigned_abs();
        let mut len: usize = if self.0 < 0 {
            2
        } else {
            1
        };
        proof {
            lemma_powers_of_ten();
        }
        if n >= 1_0000 {
            proof {
                lemma_digits_len_split(n as nat, 10, 4);
            }
            n /= 1_0000;
            len += 4;
        }
        if n >= 100 {
            proof {
                lemma_digits_len_split(n as nat, 10, 2);
            }
            n /= 100;
            len += 2;
        }
        if n >= 10 {
            proof {
                lemma_digits_len_split(n as nat, 10, 1);
            }
            len += 1;
        }
        len
    }

    /// The length of the number as debug formatting writes it under `flags`: that of
    /// [`Self::compute_display_len`] in decimal, else that of its bits in the base asked
    /// for.
    pub fn compute_debug_len(self, flags: FormattingFlags) -> (len: usize)
        ensures
            len == integer_debug_text(self.0 as int, modulus(16), flags).len(),
    {
        match flags.mode() {
            FormattingMode::Regular => self.compute_display_len(flags),
            FormattingMode::Hexadecimal => self.hexadecimal_len(flags),
            FormattingMode::Binary => self.binary_len(flags),
        }
    }

    /// The length of the two's complement of the number in hexadecimal: a digit for every four
    /// bits up to the highest one that is set, and `0x` in the alternate form.
    pub fn hexadecimal_len(self, flags: FormattingFlags) -> (len: usize)
        ensures
            len == hexadecimal_text(
                twos_complement(self.0 as int, modulus(16)),
                flags.is_alternate,
            ).len(),
    {
        compute_hex_count(bit_width_u64(self.to_bits() as u64), flags.is_alternate())
    }

    /// The length of the two's complement of the number in binary: a digit for every bit up to
    /// the highest one that is set, and `0b` in the alternate form.
    pub fn binary_len(self, flags: FormattingFlags) -> (len: usize)
        ensures
            len == binary_text(
                twos_complement(self.0 as int, modulus(16)),
                flags.is_alternate,
            ).len(),
    {
        compute_binary_count(bit_width_u64(self.to_bits() as u64), flags.is_alternate())
    }

    /// Counts the number as display formatting writes it.
    pub fn const_display_len(&self, f: &mut FormattingLength)
        requires
            old(f).len + integer_display_text(self.0 as int).len() <= usize::MAX,
        ensures
            counted(*old(f), *final(f), integer_display_text(self.0 as int)),
    {
        let len = self.compute_display_len(f.flags());
        f.add_len(len);
    }

    /// Counts the number as debug formatting writes it under the flags of `f`.
    pub fn const_debug_len(&self, f: &mut FormattingLength)
        requires
            old(f).len + integer_debug_text(self.0 as int, modulus(16), old(f).flags).len()
                <= usize::MAX,
        ensures
            counted(
                *old(f),
                *final(f),
                integer_debug_text(self.0 as int, modulus(16), old(f).flags),
            ),
    {
        let len = self.compute_debug_len(f.flags());
        f.add_len(len);
    }

    /// Writes the number in decimal with its sign, whatever the flags.
    pub fn const_display_fmt<const N: usize>(&self, f: &mut Formatter<'_, N>) -> (res: Result<
        (),
        Error,
    >)
        ensures
            wrote(*old(f), *final(f), integer_display_text(self.0 as int), res),
            *final(final(f).writer) == *final(old(f).writer),
    {
        let number = self.to_integer();
        proof {
            lemma_carrier_text(number, f.flags);
        }
        f.write_integer_display(number)
    }

    /// Writes the number in the base that the flags of `f` ask for.
    pub fn const_debug_fmt<const N: usize>(&self, f: &mut Formatter<'_, N>) -> (res: Result<
        (),
        Error,
    >)
        ensures
            wrote(
                *old(f),
                *final(f),
                integer_debug_text(self.0 as int, modulus(16), old(f).flags),
                res,
            ),
            *final(final(f).writer) == *final(old(f).writer),
    {
        let number = self.to_integer();
        proof {
            lemma_carrier_text(number, f.flags);
        }
        f.write_integer_debug(number)
    }
}

impl PWrapper<i32> {
    /// The magnitude of the number. That of the least number does not fit in the signed
    /// type, which is why the result is unsigned.
    pub fn unsigned_abs(self) -> (abs: u32)
        ensures
            abs == magnitude(self.0 as int),
    {
        if self.0 == i32::MIN {
            0x8000_0000
        } else if self.0 < 0 {
            (-self.0) as u32
        } else {
            self.0 as u32
        }
    }

    /// The bits of the number, read as an unsigned number: its two's complement.
    pub fn to_bits(self) -> (pattern: u32)
        ensures
            pattern == twos_complement(self.0 as int, modulus(32)),
    {
        if self.0 < 0 {
            u32::MAX - ((-(self.0 + 1)) as u32)
        } else {
            self.0 as u32
        }
    }

    /// The number in the carrier that the digits are made from.
    pub fn to_integer(self) -> (number: Integer)
        ensures
            number.fits_width(),
            number.value() == self.0,
            number.mask == 0xFFFF_FFFF,
    {
        Integer {
            unsigned: self.unsigned_abs() as u128,
            is_negative: self.0 < 0,
            mask: 0xFFFF_FFFF,
        }
    }

    /// The number of decimal digits of the magnitude, and one more for the sign of a
    /// negative number. The flags play no part.
    pub fn compute_display_len(self, _flags: FormattingFlags) -> (len: usize)
        ensures
            len == integer_display_text(self.0 as int).len(),
    {
        let mut n: u32 = self.unsigned_abs();
        let mut len: usize = if self.0 < 0 {
            2
        } else {
            1
        };
        proof {
            lemma_powers_of_ten();
        }
        if n >= 1_0000_0000 {
            proof {
                lemma_digits_len_split(n as nat, 10, 8);
            }
            n /= 1_0000_0000;
            len += 8;
        }
        if n >= 1_0000 {
            proof {
                lemma_digits_len_split(n as nat, 10, 4);
            }
            n /= 1_0000;
            len += 4;
        }
        if n >= 100 {
            proof {
                lemma_digits_len_split(n as nat, 10, 2);
            }
            n /= 100;
            len += 2;
        }
        if n >= 10 {
            proof {
                lemma_digits_len_split(n as nat, 10, 1);
            }
            len += 1;
        }
        len
    }

    /// The length of the number as debug formatting writes it under `flags`: that of
    /// [`Self::compute_display_len`] in decimal, else that of its bits in the base asked
    /// for.
    pub fn compute_debug_len(self, flags: FormattingFlags) -> (len: usize)
        ensures
            len == integer_debug_text(self.0 as int, modulus(32), flags).len(),
    {
        match flags.mode() {
            FormattingMode::Regular => self.compute_display_len(flags),
            FormattingMode::Hexadecimal => self.hexadecimal_len(flags),
            FormattingMode::Binary => self.binary_len(flags),
        }
    }

    /// The length of the two's complement of the number in hexadecimal: a digit for every four
    /// bits up to the highest one that is set, and `0x` in the alternate form.
    pub fn hexadecimal_len(self, flags: FormattingFlags) -> (len: usize)
        ensures
            len == hexadecimal_text(
                twos_complement(self.0 as int, modulus(32)),
                flags.is_alternate,
            ).len(),
    {
        compute_hex_count(bit_width_u64(self.to_bits() as u64), flags.is_alternate())
    }

    /// The length of the two's complement of the number in binary: a digit for every bit up to
    /// the highest one that is set, and `0b` in the alternate form.
    pub fn binary_len(self, flags: FormattingFlags) -> (len: usize)
        ensures
            len == binary_text(
                twos_complement(self.0 as int, modulus(32)),
                flags.is_alternate,
            ).len(),
    {
        compute_binary_count(bit_width_u64(self.to_bits() as u64), flags.is_alternate())
    }

    /// Counts the number as display formatting writes it.
    pub fn const_display_len(&self, f: &mut FormattingLength)
        requires
            old(f).len + integer_display_text(self.0 as int).len() <= usize::MAX,
        ensures
            counted(*old(f), *final(f), integer_display_text(self.0 as int)),
    {
        let len = self.compute_display_len(f.flags());
        f.add_len(len);
    }

    /// Counts the number as debug formatting writes it under the flags of `f`.
    pub fn const_debug_len(&self, f: &mut FormattingLength)
        requires
            old(f).len + integer_debug_text(self.0 as int, modulus(32), old(f).flags).len()
                <= usize::MAX,
        ensures
            counted(
                *old(f),
                *final(f),
                integer_debug_text(self.0 as int, modulus(32), old(f).flags),
            ),
    {
        let len = self.compute_debug_len(f.flags());
        f.add_len(len);
    }

    /// Writes the number in decimal with its sign, whatever the flags.
    pub fn const_display_fmt<const N: usize>(&self, f: &mut Formatter<'_, N>) -> (res: Result<
        (),
        Error,
    >)
        ensures
            wrote(*old(f), *final(f), integer_display_text(self.0 as int), res),
            *final(final(f).writer) == *final(old(f).writer),
    {
        let number = self.to_integer();
        proof {
            lemma_carrier_text(number, f.flags);
        }
        f.write_integer_display(number)
    }

    /// Writes the number in the base that the flags of `f` ask for.
    pub fn const_debug_fmt<const N: usize>(&self, f: &mut Formatter<'_, N>) -> (res: Result<
        (),
        Error,
    >)
        ensures
            wrote(
                *old(f),
                *final(f),
                integer_debug_text(self.0 as int, modulus(32), old(f).flags),
                res,
            ),
            *final(final(f).writer) == *final(old(f).writer),
    {
        let number = self.to_integer();
        proof {
            lemma_carrier_text(number, f.flags);
        }
        f.write_integer_debug(number)
    }
}

impl PWrapper<i64> {
    /// The magnitude of the number. That of the least number does not fit in the signed
    /// type, which is why the result is unsigned.
    pub fn unsigned_abs(self) -> (abs: u64)
        ensures
            abs == magnitude(self.0 as int),
    {
        if self.0 == i64::MIN {
            0x8000_0000_0000_0000
        } else if self.0 < 0 {
            (-self.0) as u64
        } else {
            self.0 as u64
        }
    }

    /// The bits of the number, read as an unsigned number: its two's complement.
    pub fn to_bits(self) -> (pattern: u64)
        ensures
            pattern == twos_complement(self.0 as int, modulus(64)),
    {
        if self.0 < 0 {
            u64::MAX - ((-(self.0 + 1)) as u64)
        } else {
            self.0 as u64
        }
    }

    /// The number in the carrier that the digits are made from.
    pub fn to_integer(self) -> (number: Integer)
        ensures
            number.fits_width(),
            number.value() == self.0,
            number.mask == 0xFFFF_FFFF_FFFF_FFFF,
    {
        Integer {
            unsigned: self.unsigned_abs() as u128,
            is_negative: self.0 < 0,
            mask: 0xFFFF_FFFF_FFFF_FFFF,
        }
    }

    /// The number of decimal digits of the magnitude, and one more for the sign of a
    /// negative number. The flags play no part.
    pub fn compute_display_len(self, _flags: FormattingFlags) -> (len: usize)
        ensures
            len == integer_display_text(self.0 as int).len(),
    {
        let mut n: u64 = self.unsigned_abs();
        let mut len: usize = if self.0 < 0 {
            2
        } else {
            1
        };
        proof {
            lemma_powers_of_ten();
        }
        if n >= 1_0000_0000_0000 {
            proof {
                lemma_digits_len_split(n as nat, 10, 12);
            }
            n /= 1_0000_0000_0000;
            len += 12;
        }
        if n >= 1_0000_0000 {
            proof {
                lemma_digits_len_split(n as nat, 10, 8);
            }
            n /= 1_0000_0000;
            len += 8;
        }
        if n >= 1_0000 {
            proof {
                lemma_digits_len_split(n as nat, 10, 4);
            }
            n /= 1_0000;
            len += 4;
        }
        if n >= 100 {
            proof {
                lemma_digits_len_split(n as nat, 10, 2);
            }
            n /= 100;
            len += 2;
        }
        if n >= 10 {
            proof {
                lemma_digits_len_split(n as nat, 10, 1);
            }
            len += 1;
        }
        len
    }

    /// The length of the number as debug formatting writes it under `flags`: that of
    /// [`Self::compute_display_len`] in decimal, else that of its bits in the base asked
    /// for.
    pub fn compute_debug_len(self, flags: FormattingFlags) -> (len: usize)
        ensures
            len == integer_debug_text(self.0 as int, modulus(64), flags).len(),
    {
        match flags.mode() {
            FormattingMode::Regular => self.compute_display_len(flags),
            FormattingMode::Hexadecimal => self.hexadecimal_len(flags),
            FormattingMode::Binary => self.binary_len(flags),
        }
    }

    /// The length of the two's complement of the number in hexadecimal: a digit for every four
    /// bits up to the highest one that is set, and `0x` in the alternate form.
    pub fn hexadecimal_len(self, flags: FormattingFlags) -> (len: usize)
        ensures
            len == hexadecimal_text(
                twos_complement(self.0 as int, modulus(64)),
                flags.is_alternate,
            ).len(),
    {
        compute_hex_count(bit_width_u64(self.to_bits()), flags.is_alternate())
    }

    /// The length of the two's complement of the number in binary: a digit for every bit up to
    /// the highest one that is set, and `0b` in the alternate form.
    pub fn binary_len(self, flags: FormattingFlags) -> (len: usize)
        ensures
            len == binary_text(
                twos_complement(self.0 as int, modulus(64)),
                flags.is_alternate,
            ).len(),
    {
        compute_binary_count(bit_width_u64(self.to_bits()), flags.is_alternate())
    }

    /// Counts the number as display formatting writes it.
    pub fn const_display_len(&self, f: &mut FormattingLength)
        requires
            old(f).len + integer_display_text(self.0 as int).len() <= usize::MAX,
        ensures
            counted(*old(f), *final(f), integer_display_text(self.0 as int)),
    {
        let len = self.compute_display_len(f.flags());
        f.add_len(len);
    }

    /// Counts the number as debug formatting writes it under the flags of `f`.
    pub fn const_debug_len(&self, f: &mut FormattingLength)
        requires
            old(f).len + integer_debug_text(self.0 as int, modulus(64), old(f).flags).len()
                <= usize::MAX,
        ensures
            counted(
                *old(f),
                *final(f),
                integer_debug_text(self.0 as int, modulus(64), old(f).flags),
            ),
    {
        let len = self.compute_debug_len(f.flags());
        f.add_len(len);
    }

    /// Writes the number in decimal with its sign, whatever the flags.
    pub fn const_display_fmt<const N: usize>(&self, f: &mut Formatter<'_, N>) -> (res: Result<
        (),
        Error,
    >)
        ensures
            wrote(*old(f), *final(f), integer_display_text(self.0 as int), res),
            *final(final(f).writer) == *final(old(f).writer),
    {
        let number = self.to_integer();
        proof {
            lemma_carrier_text(number, f.flags);
        }
        f.write_integer_display(number)
    }

    /// Writes the number in the base that the flags of `f` ask for.
    pub fn const_debug_fmt<const N: usize>(&self, f: &mut Formatter<'_, N>) -> (res: Result<
        (),
        Error,
    >)
        ensures
            wrote(
                *old(f),
                *final(f),
                integer_debug_text(self.0 as int, modulus(64), old(f).flags),
                res,
            ),
            *final(final(f).writer) == *final(old(f).writer),
    {
        let number = self.to_integer();
        proof {
            lemma_carrier_text(number, f.flags);
        }
        f.write_integer_debug(number)
    }
}

impl PWrapper<i128> {
    /// The magnitude of the number. That of the least number does not fit in the signed
    /// type, which is why the result is unsigned.
    pub fn unsigned_abs(self) -> (abs: u128)
        ensures
            abs == magnitude(self.0 as int),
    {
        if self.0 == i128::MIN {
            0x8000_0000_0000_0000_0000_0000_0000_0000
        } else if self.0 < 0 {
            (-self.0) as u128
        } else {
            self.0 as u128
        }
    }

    /// The bits of the number, read as an unsigned number: its two's complement.
    pub fn to_bits(self) -> (pattern: u128)
        ensures
            pattern == twos_complement(self.0 as int, modulus(128)),
    {
        if self.0 < 0 {
            u128::MAX - ((-(self.0 + 1)) as u128)
        } else {
            self.0 as u128
        }
    }

    /// The number in the carrier that the digits are made from.
    pub fn to_integer(self) -> (number: Integer)
        ensures
            number.fits_width(),
            number.value() == self.0,
            number.mask == 0xFFFF_FFFF_FFFF_FFFF_FFFF_FFFF_FFFF_FFFF,
    {
        Integer {
            unsigned: self.unsigned_abs(),
            is_negative: self.0 < 0,
            mask: 0xFFFF_FFFF_FFFF_FFFF_FFFF_FFFF_FFFF_FFFF,
        }
    }

    /// The number of decimal digits of the magnitude, and one more for the sign of a
    /// negative number. The flags play no part.
    pub fn compute_display_len(self, _flags: FormattingFlags) -> (len: usize)
        ensures
            len == integer_display_text(self.0 as int).len(),
    {
        let mut n: u128 = self.unsigned_abs();
        let mut len: usize = if self.0 < 0 {
            2
        } else {
            1
        };
        proof {
            lemma_powers_of_ten();
        }
        if n >= 1_0000_0000_0000_0000 {
            proof {
                lemma_digits_len_split(n as nat, 10, 16);
            }
            n /= 1_0000_0000_0000_0000;
            len += 16;
        }
        if n >= 1_0000_0000_0000 {
            proof {
                lemma_digits_len_split(n as nat, 10, 12);
            }
            n /= 1_0000_0000_0000;
            len += 12;
        }
        if n >= 1_0000_0000 {
            proof {
                lemma_digits_len_split(n as nat, 10, 8);
            }
            n /= 1_0000_0000;
            len += 8;
        }
        if n >= 1_0000 {
            proof {
                lemma_digits_len_split(n as nat, 10, 4);
            }
            n /= 1_0000;
            len += 4;
        }
        if n >= 100 {
            proof {
                lemma_digits_len_split(n as nat, 10, 2);
            }
            n /= 100;
            len += 2;
        }
        if n >= 10 {
            proof {
                lemma_digits_len_split(n as nat, 10, 1);
            }
            len += 1;
        }
        len
    }

    /// The length of the number as debug formatting writes it under `flags`: that of
    /// [`Self::compute_display_len`] in decimal, else that of its bits in the base asked
    /// for.
    pub fn compute_debug_len(self, flags: FormattingFlags) -> (len: usize)
        ensures
            len == integer_debug_text(self.0 as int, modulus(128), flags).len(),
    {
        match flags.mode() {
            FormattingMode::Regular => self.compute_display_len(flags),
            FormattingMode::Hexadecimal => self.hexadecimal_len(flags),
            FormattingMode::Binary => self.binary_len(flags),
        }
    }

    /// The length of the two's complement of the number in hexadecimal: a digit for every four
    /// bits up to the highest one that is set, and `0x` in the alternate form.
    pub fn hexadecimal_len(self, flags: FormattingFlags) -> (len: usize)
        ensures
            len == hexadecimal_text(
                twos_complement(self.0 as int, modulus(128)),
                flags.is_alternate,
            ).len(),
    {
        compute_hex_count(bit_width_u128(self.to_bits()), flags.is_alternate())
    }

    /// The length of the two's complement of the number in binary: a digit for every bit up to
    /// the highest one that is set, and `0b` in the alternate form.
    pub fn binary_len(self, flags: FormattingFlags) -> (len: usize)
        ensures
            len == binary_text(
                twos_complement(self.0 as int, modulus(128)),
                flags.is_alternate,
            ).len(),
    {
        compute_binary_count(bit_width_u128(self.to_bits()), flags.is_alternate())
    }

    /// Counts the number as display formatting writes it.
    pub fn const_display_len(&self, f: &mut FormattingLength)
        requires
            old(f).len + integer_display_text(self.0 as int).len() <= usize::MAX,
        ensures
            counted(*old(f), *final(f), integer_display_text(self.0 as int)),
    {
        let len = self.compute_display_len(f.flags());
        f.add_len(len);
    }

    /// Counts the number as debug formatting writes it under the flags of `f`.
    pub fn const_debug_len(&self, f: &mut FormattingLength)
        requires
            old(f).len + integer_debug_text(self.0 as int, modulus(128), old(f).flags).len()
                <= usize::MAX,
        ensures
            counted(
                *old(f),
                *final(f),
                integer_debug_text(self.0 as int, modulus(128), old(f).flags),
            ),
    {
        let len = self.compute_debug_len(f.flags());
        f.add_len(len);
    }

    /// Writes the number in decimal with its sign, whatever the flags.
    pub fn const_display_fmt<const N: usize>(&self, f: &mut Formatter<'_, N>) -> (res: Result<
        (),
        Error,
    >)
        ensures
            wrote(*old(f), *final(f), integer_display_text(self.0 as int), res),
            *final(final(f).writer) == *final(old(f).writer),
    {
        let number = self.to_integer();
        proof {
            lemma_carrier_text(number, f.flags);
        }
        f.write_integer_display(number)
    }

    /// Writes the number in the base that the flags of `f` ask for.
    pub fn const_debug_fmt<const N: usize>(&self, f: &mut Formatter<'_, N>) -> (res: Result<
        (),
        Error,
    >)
        ensures
            wrote(
                *old(f),
                *final(f),
                integer_debug_text(self.0 as int, modulus(128), old(f).flags),
                res,
            ),
            *final(final(f).writer) == *final(old(f).writer),
    {
        let number = self.to_integer();
        proof {
            lemma_carrier_text(number, f.flags);
        }
        f.write_integer_debug(number)
    }
}

impl PWrapper<isize> {
    /// The magnitude of the number. That of the least number does not fit in the signed
    /// type, which is why the result is unsigned.
    pub fn unsigned_abs(self) -> (abs: usize)
        ensures
            abs == magnitude(self.0 as int),
    {
        if self.0 < 0 {
            ((-(self.0 + 1)) as usize) + 1
        } else {
            self.0 as usize
        }
    }

    /// The bits of the number, read as an unsigned number: its two's complement.
    pub fn to_bits(self) -> (pattern: usize)
        ensures
            pattern == twos_complement(self.0 as int, usize::MAX + 1),
    {
        if self.0 < 0 {
            usize::MAX - ((-(self.0 + 1)) as usize)
        } else {
            self.0 as usize
        }
    }

    /// The number in the carrier that the digits are made from.
    pub fn to_integer(self) -> (number: Integer)
        ensures
            number.fits_width(),
            number.value() == self.0,
            number.mask == usize::MAX,
    {
        Integer {
            unsigned: self.unsigned_abs() as u128,
            is_negative: self.0 < 0,
            mask: usize::MAX as u128,
        }
    }

    /// The number of decimal digits of the magnitude, and one more for the sign of a
    /// negative number. The flags play no part.
    pub fn compute_display_len(self, flags: FormattingFlags) -> (len: usize)
        ensures
            len == integer_display_text(self.0 as int).len(),
    {
        PWrapper(self.0 as i64).compute_display_len(flags)
    }

    /// The length of the number as debug formatting writes it under `flags`: that of
    /// [`Self::compute_display_len`] in decimal, else that of its bits in the base asked
    /// for.
    pub fn compute_debug_len(self, flags: FormattingFlags) -> (len: usize)
        ensures
            len == integer_debug_text(self.0 as int, usize::MAX + 1, flags).len(),
    {
        match flags.mode() {
            FormattingMode::Regular => self.compute_display_len(flags),
            FormattingMode::Hexadecimal => self.hexadecimal_len(flags),
            FormattingMode::Binary => self.binary_len(flags),
        }
    }

    /// The length of the two's complement of the number in hexadecimal: a digit for every four
    /// bits up to the highest one that is set, and `0x` in the alternate form.
    pub fn hexadecimal_len(self, flags: FormattingFlags) -> (len: usize)
        ensures
            len == hexadecimal_text(
                twos_complement(self.0 as int, usize::MAX + 1),
                flags.is_alternate,
            ).len(),
    {
        compute_hex_count(bit_width_u64(self.to_bits() as u64), flags.is_alternate())
    }

    /// The length of the two's complement of the number in binary: a digit for every bit up to
    /// the highest one that is set, and `0b` in the alternate form.
    pub fn binary_len(self, flags: FormattingFlags) -> (len: usize)
        ensures
            len == binary_text(
                twos_complement(self.0 as int, usize::MAX + 1),
                flags.is_alternate,
            ).len(),
    {
        compute_binary_count(bit_width_u64(self.to_bits() as u64), flags.is_alternate())
    }

    /// Counts the number as display formatting writes it.
    pub fn const_display_len(&self, f: &mut FormattingLength)
        requires
            old(f).len + integer_display_text(self.0 as int).len() <= usize::MAX,
        ensures
            counted(*old(f), *final(f), integer_display_text(self.0 as int)),
    {
        let len = self.compute_display_len(f.flags());
        f.add_len(len);
    }

    /// Counts the number as debug formatting writes it under the flags of `f`.
    pub fn const_debug_len(&self, f: &mut FormattingLength)
        requires
            old(f).len + integer_debug_text(self.0 as int, usize::MAX + 1, old(f).flags).len()
                <= usize::MAX,
        ensures
            counted(
                *old(f),
                *final(f),
                integer_debug_text(self.0 as int, usize::MAX + 1, old(f).flags),
            ),
    {
        let len = self.compute_debug_len(f.flags());
        f.add_len(len);
    }

    /// Writes the number in decimal with its sign, whatever the flags.
    pub fn const_display_fmt<const N: usize>(&self, f: &mut Formatter<'_, N>) -> (res: Result<
        (),
        Error,
    >)
        ensures
            wrote(*old(f), *final(f), integer_display_text(self.0 as int), res),
            *final(final(f).writer) == *final(old(f).writer),
    {
        let number = self.to_integer();
        proof {
            lemma_carrier_text(number, f.flags);
        }
        f.write_integer_display(number)
    }

    /// Writes the number in the base that the flags of `f` ask for.
    pub fn const_debug_fmt<const N: usize>(&self, f: &mut Formatter<'_, N>) -> (res: Result<
        (),
        Error,
    >)
        ensures
            wrote(
                *old(f),
                *final(f),
                integer_debug_text(self.0 as int, usize::MAX + 1, old(f).flags),
                res,
            ),
            *final(final(f).writer) == *final(old(f).writer),
    {
        let number = self.to_integer();
        proof {
            lemma_carrier_text(number, f.flags);
        }
        f.write_integer_debug(number)
    }
}

} // verus!
