//! Measuring and writing the unsigned integers, one width after the other.

use crate::fmt::error::Error;
use crate::fmt::formatter::{counted, wrote, Formatter, FormattingLength};
use crate::formatting::{integer_debug_text, FormattingFlags, FormattingMode};
use crate::pargument::{lemma_carrier_text, Integer};
use crate::text::{
    binary_text, hexadecimal_text, integer_display_text, lemma_digits_len_split,
    lemma_powers_of_ten, magnitude, modulus, twos_complement,
};
use crate::wrapper_types::digit_count::{
    bit_width_u128, bit_width_u64, compute_binary_count, compute_hex_count,
};
use crate::wrapper_types::pwrapper::PWrapper;
use vstd::prelude::*;

verus! {

impl PWrapper<u8> {
    /// The number itself: an unsigned number is its own magnitude.
    pub fn unsigned_abs(self) -> (abs: u8)
        ensures
            abs == magnitude(self.0 as int),
    {
        self.0
    }

    /// The number in the carrier that the digits are made from.
    pub fn to_integer(self) -> (number: Integer)
        ensures
            number.fits_width(),
            number.value() == self.0,
            number.mask == 0xFF,
    {
        Integer { unsigned: self.0 as u128, is_negative: false, mask: 0xFF }
    }

    /// The number of decimal digits of the number. The flags play no part.
    pub fn compute_display_len(self, _flags: FormattingFlags) -> (len: usize)
        ensures
            len == integer_display_text(self.0 as int).len(),
    {
        let mut n: u8 = self.0;
        let mut len: usize = 1;
        proof {
            lemma_powers_of_ten();
        }
        if n >= 100 {
            proof {
                lemma_digits_len_split(n as nat, 10, 2);
            }
            n /= 100;
            len += 2;
        }
        if n >= 10 {
            proof {
                lemma_digits_len_split(n as nat, 10, 1);
            }
            len += 1;
        }
        len
    }

    /// The length of the number as debug formatting writes it under `flags`: that of
    /// [`Self::compute_display_len`] in decimal, else that of its bits in the base asked
    /// for.
    pub fn compute_debug_len(self, flags: FormattingFlags) -> (len: usize)
        ensures
            len == integer_debug_text(self.0 as int, modulus(8), flags).len(),
    {
        match flags.mode() {
            FormattingMode::Regular => self.compute_display_len(flags),
            FormattingMode::Hexadecimal => self.hexadecimal_len(flags),
            FormattingMode::Binary => self.binary_len(flags),
        }
    }

    /// The length of the bits of the number in hexadecimal: a digit for every four
    /// bits up to the highest one that is set, and `0x` in the alternate form.
    pub fn hexadecimal_len(self, flags: FormattingFlags) -> (len: usize)
        ensures
            len == hexadecimal_text(
                twos_complement(self.0 as int, modulus(8)),
                flags.is_alternate,
            ).len(),
    {
        compute_hex_count(bit_width_u64(self.0 as u64), flags.is_alternate())
    }

    /// The length of the bits of the number in binary: a digit for every bit up to
    /// the highest one that is set, and `0b` in the alternate form.
    pub fn binary_len(self, flags: FormattingFlags) -> (len: usize)
        ensures
            len == binary_text(
                twos_complement(self.0 as int, modulus(8)),
                flags.is_alternate,
            ).len(),
    {
        compute_binary_count(bit_width_u64(self.0 as u64), flags.is_alternate())
    }

    /// Counts the number as display formatting writes it.
    pub fn const_display_len(&self, f: &mut FormattingLength)
        requires
            old(f).len + integer_display_text(self.0 as int).len() <= usize::MAX,
        ensures
            counted(*old(f), *final(f), integer_display_text(self.0 as int)),
    {
        let len = self.compute_display_len(f.flags());
        f.add_len(len);
    }

    /// Counts the number as debug formatting writes it under the flags of `f`.
    pub fn const_debug_len(&self, f: &mut FormattingLength)
        requires
            old(f).len + integer_debug_text(self.0 as int, modulus(8), old(f).flags).len()
                <= usize::MAX,
        ensures
            counted(
                *old(f),
                *final(f),
                integer_debug_text(self.0 as int, modulus(8), old(f).flags),
            ),
    {
        let len = self.compute_debug_len(f.flags());
        f.add_len(len);
    }

    /// Writes the number in decimal with its sign, whatever the flags.
    pub fn const_display_fmt<const N: usize>(&self, f: &mut Formatter<'_, N>) -> (res: Result<
        (),
        Error,
    >)
        ensures
            wrote(*old(f), *final(f), integer_display_text(self.0 as int), res),
            *final(final(f).writer) == *final(old(f).writer),
    {
        let number = self.to_integer();
        proof {
            lemma_carrier_text(number, f.flags);
        }
        f.write_integer_display(number)
    }

    /// Writes the number in the base that the flags of `f` ask for.
    pub fn const_debug_fmt<const N: usize>(&self, f: &mut Formatter<'_, N>) -> (res: Result<
        (),
        Error,
    >)
        ensures
            wrote(
                *old(f),
                *final(f),
                integer_debug_text(self.0 as int, modulus(8), old(f).flags),
                res,
            ),
            *final(final(f).writer) == *final(old(f).writer),
    {
        let number = self.to_integer();
        proof {
            lemma_carrier_text(number, f.flags);
        }
        f.write_integer_debug(number)
    }
}

impl PWrapper<u16> {
    /// The number itself: an unsigned number is its own magnitude.
    pub fn unsigned_abs(self) -> (abs: u16)
        ensures
            abs == magnitude(self.0 as int),
    {
        self.0
    }

    /// The number in the carrier that the digits are made from.
    pub fn to_integer(self) -> (number: Integer)
        ensures
            number.fits_width(),
            number.value() == self.0,
            number.mask == 0xFFFF,
    {
        Integer { unsigned: self.0 as u128, is_negative: false, mask: 0xFFFF }
    }

    /// The number of decimal digits of the number. The flags play no part.
    pub fn compute_display_len(self, _flags: FormattingFlags) -> (len: usize)
        ensures
            len == integer_display_text(self.0 as int).len(),
    {
        let mut n: u16 = self.0;
        let mut len: usize = 1;
        proof {
            lemma_powers_of_ten();
        }
        if n >= 1_0000 {
            proof {
                lemma_digits_len_split(n as nat, 10, 4);
            }
            n /= 1_0000;
            len += 4;
        }
        if n >= 100 {
            proof {
                lemma_digits_len_split(n as nat, 10, 2);
            }
            n /= 100;
            len += 2;
        }
        if n >= 10 {
            proof {
                lemma_digits_len_split(n as nat, 10, 1);
            }
            len += 1;
        }
        len
    }

    /// The length of the number as debug formatting writes it under `flags`: that of
    /// [`Self::compute_display_len`] in decimal, else that of its bits in the base asked
    /// for.
    pub fn compute_debug_len(self, flags: FormattingFlags) -> (len: usize)
        ensures
            len == integer_debug_text(self.0 as int, modulus(16), flags).len(),
    {
        match flags.mode() {
            FormattingMode::Regular => self.compute_display_len(flags),
            FormattingMode::Hexadecimal => self.hexadecimal_len(flags),
            FormattingMode::Binary => self.binary_len(flags),
        }
    }

    /// The length of the bits of the number in hexadecimal: a digit for every four
    /// bits up to the highest one that is set, and `0x` in the alternate form.
    pub fn hexadecimal_len(self, flags: FormattingFlags) -> (len: usize)
        ensures
            len == hexadecimal_text(
                twos_complement(self.0 as int, modulus(16)),
                flags.is_alternate,
            ).len(),
    {
        compute_hex_count(bit_width_u64(self.0 as u64), flags.is_alternate())
    }

    /// The length of the bits of the number in binary: a digit for every bit up to
    /// the highest one that is set, and `0b` in the alternate form.
    pub fn binary_len(self, flags: FormattingFlags) -> (len: usize)
        ensures
            len == binary_text(
                twos_complement(self.0 as int, modulus(16)),
                flags.is_alternate,
            ).len(),
    {
        compute_binary_count(bit_width_u64(self.0 as u64), flags.is_alternate())
    }

    /// Counts the number as display formatting writes it.
    pub fn const_display_len(&self, f: &mut FormattingLength)
        requires
            old(f).len + integer_display_text(self.0 as int).len() <= usize::MAX,
        ensures
            counted(*old(f), *final(f), integer_display_text(self.0 as int)),
    {
        let len = self.compute_display_len(f.flags());
        f.add_len(len);
    }

    /// Counts the number as debug formatting writes it under the flags of `f`.
    pub fn const_debug_len(&self, f: &mut FormattingLength)
        requires
            old(f).len + integer_debug_text(self.0 as int, modulus(16), old(f).flags).len()
                <= usize::MAX,
        ensures
            counted(
                *old(f),
                *final(f),
                integer_debug_text(self.0 as int, modulus(16), old(f).flags),
            ),
    {
        let len = self.compute_debug_len(f.flags());
        f.add_len(len);
    }

    /// Writes the number in decimal with its sign, whatever the flags.
    pub fn const_display_fmt<const N: usize>(&self, f: &mut Formatter<'_, N>) -> (res: Result<
        (),
        Error,
    >)
        ensures
            wrote(*old(f), *final(f), integer_display_text(self.0 as int), res),
            *final(final(f).writer) == *final(old(f).writer),
    {
        let number = self.to_integer();
        proof {
            lemma_carrier_text(number, f.flags);
        }
        f.write_integer_display(number)
    }

    /// Writes the number in the base that the flags of `f` ask for.
    pub fn const_debug_fmt<const N: usize>(&self, f: &mut Formatter<'_, N>) -> (res: Result<
        (),
        Error,
    >)
        ensures
            wrote(
                *old(f),
                *final(f),
                integer_debug_text(self.0 as int, modulus(16), old(f).flags),
                res,
            ),
            *final(final(f).writer) == *final(old(f).writer),
    {
        let number = self.to_integer();
        proof {
            lemma_carrier_text(number, f.flags);
        }
        f.write_integer_debug(number)
    }
}

impl PWrapper<u32> {
    /// The number itself: an unsigned number is its own magnitude.
    pub fn unsigned_abs(self) -> (abs: u32)
        ensures
            abs == magnitude(self.0 as int),
    {
        self.0
    }

    /// The number in the carrier that the digits are made from.
    pub fn to_integer(self) -> (number: Integer)
        ensures
            number.fits_width(),
            number.value() == self.0,
            number.mask == 0xFFFF_FFFF,
    {
        Integer { unsigned: self.0 as u128, is_negative: false, mask: 0xFFFF_FFFF }
    }

    /// The number of decimal digits of the number. The flags play no part.
    pub fn compute_display_len(self, _flags: FormattingFlags) -> (len: usize)
        ensures
            len == integer_display_text(self.0 as int).len(),
    {
        let mut n: u32 = self.0;
        let mut len: usize = 1;
        proof {
            lemma_powers_of_ten();
        }
        if n >= 1_0000_0000 {
            proof {
                lemma_digits_len_split(n as nat, 10, 8);
            }
            n /= 1_0000_0000;
            len += 8;
        }
        if n >= 1_0000 {
            proof {
                lemma_digits_len_split(n as nat, 10, 4);
            }
            n /= 1_0000;
            len += 4;
        }
        if n >= 100 {
            proof {
                lemma_digits_len_split(n as nat, 10, 2);
            }
            n /= 100;
            len += 2;
        }
        if n >= 10 {
            proof {
                lemma_digits_len_split(n as nat, 10, 1);
            }
            len += 1;
        }
        len
    }

    /// The length of the number as debug formatting writes it under `flags`: that of
    /// [`Self::compute_display_len`] in decimal, else that of its bits in the base asked
    /// for.
    pub fn compute_debug_len(self, flags: FormattingFlags) -> (len: usize)
        ensures
            len == integer_debug_text(self.0 as int, modulus(32), flags).len(),
    {
        match flags.mode() {
            FormattingMode::Regular => self.compute_display_len(flags),
            FormattingMode::Hexadecimal => self.hexadecimal_len(flags),
            FormattingMode::Binary => self.binary_len(flags),
        }
    }

    /// The length of the bits of the number in hexadecimal: a digit for every four
    /// bits up to the highest one that is set, and `0x` in the alternate form.
    pub fn hexadecimal_len(self, flags: FormattingFlags) -> (len: usize)
        ensures
            len == hexadecimal_text(
                twos_complement(self.0 as int, modulus(32)),
                flags.is_alternate,
            ).len(),
    {
        compute_hex_count(bit_width_u64(self.0 as u64), flags.is_alternate())
    }

    /// The length of the bits of the number in binary: a digit for every bit up to
    /// the highest one that is set, and `0b` in the alternate form.
    pub fn binary_len(self, flags: FormattingFlags) -> (len: usize)
        ensures
            len == binary_text(
                twos_complement(self.0 as int, modulus(32)),
                flags.is_alternate,
            ).len(),
    {
        compute_binary_count(bit_width_u64(self.0 as u64), flags.is_alternate())
    }

    /// Counts the number as display formatting writes it.
    pub fn const_display_len(&self, f: &mut FormattingLength)
        requires
            old(f).len + integer_display_text(self.0 as int).len() <= usize::MAX,
        ensures
            counted(*old(f), *final(f), integer_display_text(self.0 as int)),
    {
        let len = self.compute_display_len(f.flags());
        f.add_len(len);
    }

    /// Counts the number as debug formatting writes it under the flags of `f`.
    pub fn const_debug_len(&self, f: &mut FormattingLength)
        requires
            old(f).len + integer_debug_text(self.0 as int, modulus(32), old(f).flags).len()
                <= usize::MAX,
        ensures
            counted(
                *old(f),
                *final(f),
                integer_debug_text(self.0 as int, modulus(32), old(f).flags),
            ),
    {
        let len = self.compute_debug_len(f.flags());
        f.add_len(len);
    }

    /// Writes the number in decimal with its sign, whatever the flags.
    pub fn const_display_fmt<const N: usize>(&self, f: &mut Formatter<'_, N>) -> (res: Result<
        (),
        Error,
    >)
        ensures
            wrote(*old(f), *final(f), integer_display_text(self.0 as int), res),
            *final(final(f).writer) == *final(old(f).writer),
    {
        let number = self.to_integer();
        proof {
            lemma_carrier_text(number, f.flags);
        }
        f.write_integer_display(number)
    }

    /// Writes the number in the base that the flags of `f` ask for.
    pub fn const_debug_fmt<const N: usize>(&self, f: &mut Formatter<'_, N>) -> (res: Result<
        (),
        Error,
    >)
        ensures
            wrote(
                *old(f),
                *final(f),
                integer_debug_text(self.0 as int, modulus(32), old(f).flags),
                res,
            ),
            *final(final(f).writer) == *final(old(f).writer),
    {
        let number = self.to_integer();
        proof {
            lemma_carrier_text(number, f.flags);
        }
        f.write_integer_debug(number)
    }
}

impl PWrapper<u64> {
    /// The number itself: an unsigned number is its own magnitude.
    pub fn unsigned_abs(self) -> (abs: u64)
        ensures
            abs == magnitude(self.0 as int),
    {
        self.0
    }

    /// The number in the carrier that the digits are made from.
    pub fn to_integer(self) -> (number: Integer)
        ensures
            number.fits_width(),
            number.value() == self.0,
            number.mask == 0xFFFF_FFFF_FFFF_FFFF,
    {
        Integer { unsigned: self.0 as u128, is_negative: false, mask: 0xFFFF_FFFF_FFFF_FFFF }
    }

    /// The number of decimal digits of the number. The flags play no part.
    pub fn compute_display_len(self, _flags: FormattingFlags) -> (len: usize)
        ensures
            len == integer_display_text(self.0 as int).len(),
    {
        let mut n: u64 = self.0;
        let mut len: usize = 1;
        proof {
            lemma_powers_of_ten();
        }
        if n >= 1_0000_0000_0000 {
            proof {
                lemma_digits_len_split(n as nat, 10, 12);
            }
            n /= 1_0000_0000_0000;
            len += 12;
        }
        if n >= 1_0000_0000 {
            proof {
                lemma_digits_len_split(n as nat, 10, 8);
            }
            n /= 1_0000_0000;
            len += 8;
        }
        if n >= 1_0000 {
            proof {
                lemma_digits_len_split(n as nat, 10, 4);
            }
            n /= 1_0000;
            len += 4;
        }
        if n >= 100 {
            proof {
                lemma_digits_len_split(n as nat, 10, 2);
            }
            n /= 100;
            len += 2;
        }
        if n >= 10 {
            proof {
                lemma_digits_len_split(n as nat, 10, 1);
            }
            len += 1;
        }
        len
    }

    /// The length of the number as debug formatting writes it under `flags`: that of
    /// [`Self::compute_display_len`] in decimal, else that of its bits in the base asked
    /// for.
    pub fn compute_debug_len(self, flags: FormattingFlags) -> (len: usize)
        ensures
            len == integer_debug_text(self.0 as int, modulus(64), flags).len(),
    {
        match flags.mode() {
            FormattingMode::Regular => self.compute_display_len(flags),
            FormattingMode::Hexadecimal => self.hexadecimal_len(flags),
            FormattingMode::Binary => self.binary_len(flags),
        }
    }

    /// The length of the bits of the number in hexadecimal: a digit for every four
    /// bits up to the highest one that is set, and `0x` in the alternate form.
    pub fn hexadecimal_len(self, flags: FormattingFlags) -> (len: usize)
        ensures
            len == hexadecimal_text(
                twos_complement(self.0 as int, modulus(64)),
                flags.is_alternate,
            ).len(),
    {
        compute_hex_count(bit_width_u64(self.0), flags.is_alternate())
    }

    /// The length of the bits of the number in binary: a digit for every bit up to
    /// the highest one that is set, and `0b` in the alternate form.
    pub fn binary_len(self, flags: FormattingFlags) -> (len: usize)
        ensures
            len == binary_text(
                twos_complement(self.0 as int, modulus(64)),
                flags.is_alternate,
            ).len(),
    {
        compute_binary_count(bit_width_u64(self.0), flags.is_alternate())
    }

    /// Counts the number as display formatting writes it.
    pub fn const_display_len(&self, f: &mut FormattingLength)
        requires
            old(f).len + integer_display_text(self.0 as int).len() <= usize::MAX,
        ensures
            counted(*old(f), *final(f), integer_display_text(self.0 as int)),
    {
        let len = self.compute_display_len(f.flags());
        f.add_len(len);
    }

    /// Counts the number as debug formatting writes it under the flags of `f`.
    pub fn const_debug_len(&self, f: &mut FormattingLength)
        requires
            old(f).len + integer_debug_text(self.0 as int, modulus(64), old(f).flags).len()
                <= usize::MAX,
        ensures
            counted(
                *old(f),
                *final(f),
                integer_debug_text(self.0 as int, modulus(64), old(f).flags),
            ),
    {
        let len = self.compute_debug_len(f.flags());
        f.add_len(len);
    }

    /// Writes the number in decimal with its sign, whatever the flags.
    pub fn const_display_fmt<const N: usize>(&self, f: &mut Formatter<'_, N>) -> (res: Result<
        (),
        Error,
    >)
        ensures
            wrote(*old(f), *final(f), integer_display_text(self.0 as int), res),
            *final(final(f).writer) == *final(old(f).writer),
    {
        let number = self.to_integer();
        proof {
            lemma_carrier_text(number, f.flags);
        }
        f.write_integer_display(number)
    }

    /// Writes the number in the base that the flags of `f` ask for.
    pub fn const_debug_fmt<const N: usize>(&self, f: &mut Formatter<'_, N>) -> (res: Result<
        (),
        Error,
    >)
        ensures
            wrote(
                *old(f),
                *final(f),
                integer_debug_text(self.0 as int, modulus(64), old(f).flags),
                res,
            ),
            *final(final(f).writer) == *final(old(f).writer),
    {
        let number = self.to_integer();
        proof {
            lemma_carrier_text(number, f.flags);
        }
        f.write_integer_debug(number)
    }
}

impl PWrapper<u128> {
    /// The number itself: an unsigned number is its own magnitude.
    pub fn unsigned_abs(self) -> (abs: u128)
        ensures
            abs == magnitude(self.0 as int),
    {
        self.0
    }

    /// The number in the carrier that the digits are made from.
    pub fn to_integer(self) -> (number: Integer)
        ensures
            number.fits_width(),
            number.value() == self.0,
            number.mask == 0xFFFF_FFFF_FFFF_FFFF_FFFF_FFFF_FFFF_FFFF,
    {
        Integer {
            unsigned: self.0,
            is_negative: false,
            mask: 0xFFFF_FFFF_FFFF_FFFF_FFFF_FFFF_FFFF_FFFF,
        }
    }

    /// The number of decimal digits of the number. The flags play no part.
    pub fn compute_display_len(self, _flags: FormattingFlags) -> (len: usize)
        ensures
            len == integer_display_text(self.0 as int).len(),
    {
        let mut n: u128 = self.0;
        let mut len: usize = 1;
        proof {
            lemma_powers_of_ten();
        }
        if n >= 1_0000_0000_0000_0000 {
            proof {
                lemma_digits_len_split(n as nat, 10, 16);
            }
            n /= 1_0000_0000_0000_0000;
            len += 16;
        }
        if n >= 1_0000_0000_0000 {
            proof {
                lemma_digits_len_split(n as nat, 10, 12);
            }
            n /= 1_0000_0000_0000;
            len += 12;
        }
        if n >= 1_0000_0000 {
            proof {
                lemma_digits_len_split(n as nat, 10, 8);
            }
            n /= 1_0000_0000;
            len += 8;
        }
        if n >= 1_0000 {
            proof {
                lemma_digits_len_split(n as nat, 10, 4);
            }
            n /= 1_0000;
            len += 4;
        }
        if n >= 100 {
            proof {
                lemma_digits_len_split(n as nat, 10, 2);
            }
            n /= 100;
            len += 2;
        }
        if n >= 10 {
            proof {
                lemma_digits_len_split(n as nat, 10, 1);
            }
            len += 1;
        }
        len
    }

    /// The length of the number as debug formatting writes it under `flags`: that of
    /// [`Self::compute_display_len`] in decimal, else that of its bits in the base asked
    /// for.
    pub fn compute_debug_len(self, flags: FormattingFlags) -> (len: usize)
        ensures
            len == integer_debug_text(self.0 as int, modulus(128), flags).len(),
    {
        match flags.mode() {
            FormattingMode::Regular => self.compute_display_len(flags),
            FormattingMode::Hexadecimal => self.hexadecimal_len(flags),
            FormattingMode::Binary => self.binary_len(flags),
        }
    }

    /// The length of the bits of the number in hexadecimal: a digit for every four
    /// bits up to the highest one that is set, and `0x` in the alternate form.
    pub fn hexadecimal_len(self, flags: FormattingFlags) -> (len: usize)
        ensures
            len == hexadecimal_text(
                twos_complement(self.0 as int, modulus(128)),
                flags.is_alternate,
            ).len(),
    {
        compute_hex_count(bit_width_u128(self.0), flags.is_alternate())
    }

    /// The length of the bits of the number in binary: a digit for every bit up to
    /// the highest one that is set, and `0b` in the alternate form.
    pub fn binary_len(self, flags: FormattingFlags) -> (len: usize)
        ensures
            len == binary_text(
                twos_complement(self.0 as int, modulus(128)),
                flags.is_alternate,
            ).len(),
    {
        compute_binary_count(bit_width_u128(self.0), flags.is_alternate())
    }

    /// Counts the number as display formatting writes it.
    pub fn const_display_len(&self, f: &mut FormattingLength)
        requires
            old(f).len + integer_display_text(self.0 as int).len() <= usize::MAX,
        ensures
            counted(*old(f), *final(f), integer_display_text(self.0 as int)),
    {
        let len = self.compute_display_len(f.flags());
        f.add_len(len);
    }

    /// Counts the number as debug formatting writes it under the flags of `f`.
    pub fn const_debug_len(&self, f: &mut FormattingLength)
        requires
            old(f).len + integer_debug_text(self.0 as int, modulus(128), old(f).flags).len()
                <= usize::MAX,
        ensures
            counted(
                *old(f),
                *final(f),
                integer_debug_text(self.0 as int, modulus(128), old(f).flags),
            ),
    {
        let len = self.compute_debug_len(f.flags());
        f.add_len(len);
    }

    /// Writes the number in decimal with its sign, whatever the flags.
    pub fn const_display_fmt<const N: usize>(&self, f: &mut Formatter<'_, N>) -> (res: Result<
        (),
        Error,
    >)
        ensures
            wrote(*old(f), *final(f), integer_display_text(self.0 as int), res),
            *final(final(f).writer) == *final(old(f).writer),
    {
        let number = self.to_integer();
        proof {
            lemma_carrier_text(number, f.flags);
        }
        f.write_integer_display(number)
    }

    /// Writes the number in the base that the flags of `f` ask for.
    pub fn const_debug_fmt<const N: usize>(&self, f: &mut Formatter<'_, N>) -> (res: Result<
        (),
        Error,
    >)
        ensures
            wrote(
                *old(f),
                *final(f),
                integer_debug_text(self.0 as int, modulus(128), old(f).flags),
                res,
            ),
            *final(final(f).writer) == *final(old(f).writer),
    {
        let number = self.to_integer();
        proof {
            lemma_carrier_text(number, f.flags);
        }
        f.write_integer_debug(number)
    }
}

impl PWrapper<usize> {
    /// The number itself: an unsigned number is its own magnitude.
    pub fn unsigned_abs(self) -> (abs: usize)
        ensures
            abs == magnitude(self.0 as int),
    {
        self.0
    }

    /// The number in the carrier that the digits are made from.
    pub fn to_integer(self) -> (number: Integer)
        ensures
            number.fits_width(),
            number.value() == self.0,
            number.mask == usize::MAX,
    {
        Integer { unsigned: self.0 as u128, is_negative: false, mask: usize::MAX as u128 }
    }

    /// The number of decimal digits of the number. The flags play no part.
    pub fn compute_display_len(self, flags: FormattingFlags) -> (len: usize)
        ensures
            len == integer_display_text(self.0 as int).len(),
    {
        PWrapper(self.0 as u64).compute_display_len(flags)
    }

    /// The length of the number as debug formatting writes it under `flags`: that of
    /// [`Self::compute_display_len`] in decimal, else that of its bits in the base asked
    /// for.
    pub fn compute_debug_len(self, flags: FormattingFlags) -> (len: usize)
        ensures
            len == integer_debug_text(self.0 as int, usize::MAX + 1, flags).len(),
    {
        match flags.mode() {
            FormattingMode::Regular => self.compute_display_len(flags),
            FormattingMode::Hexadecimal => self.hexadecimal_len(flags),
            FormattingMode::Binary => self.binary_len(flags),
        }
    }

    /// The length of the bits of the number in hexadecimal: a digit for every four
    /// bits up to the highest one that is set, and `0x` in the alternate form.
    pub fn hexadecimal_len(self, flags: FormattingFlags) -> (len: usize)
        ensures
            len == hexadecimal_text(
                twos_complement(self.0 as int, usize::MAX + 1),
                flags.is_alternate,
            ).len(),
    {
        compute_hex_count(bit_width_u64(self.0 as u64), flags.is_alternate())
    }

    /// The length of the bits of the number in binary: a digit for every bit up to
    /// the highest one that is set, and `0b` in the alternate form.
    pub fn binary_len(self, flags: FormattingFlags) -> (len: usize)
        ensures
            len == binary_text(
                twos_complement(self.0 as int, usize::MAX + 1),
                flags.is_alternate,
            ).len(),
    {
        compute_binary_count(bit_width_u64(self.0 as u64), flags.is_alternate())
    }

    /// Counts the number as display formatting writes it.
    pub fn const_display_len(&self, f: &mut FormattingLength)
        requires
            old(f).len + integer_display_text(self.0 as int).len() <= usize::MAX,
        ensures
            counted(*old(f), *final(f), integer_display_text(self.0 as int)),
    {
        let len = self.compute_display_len(f.flags());
        f.add_len(len);
    }

    /// Counts the number as debug formatting writes it under the flags of `f`.
    pub fn const_debug_len(&self, f: &mut FormattingLength)
        requires
            old(f).len + integer_debug_text(self.0 as int, usize::MAX + 1, old(f).flags).len()
                <= usize::MAX,
        ensures
            counted(
                *old(f),
                *final(f),
                integer_debug_text(self.0 as int, usize::MAX + 1, old(f).flags),
            ),
    {
        let len = self.compute_debug_len(f.flags());
        f.add_len(len);
    }

    /// Writes the number in decimal with its sign, whatever the flags.
    pub fn const_display_fmt<const N: usize>(&self, f: &mut Formatter<'_, N>) -> (res: Result<
        (),
        Error,
    >)
        ensures
            wrote(*old(f), *final(f), integer_display_text(self.0 as int), res),
            *final(final(f).writer) == *final(old(f).writer),
    {
        let number = self.to_integer();
        proof {
            lemma_carrier_text(number, f.flags);
        }
        f.write_integer_display(number)
    }

    /// Writes the number in the base that the flags of `f` ask for.
    pub fn const_debug_fmt<const N: usize>(&self, f: &mut Formatter<'_, N>) -> (res: Result<
        (),
        Error,
    >)
        ensures
            wrote(
                *old(f),
                *final(f),
                integer_debug_text(self.0 as int, usize::MAX + 1, old(f).flags),
                res,
            ),
            *final(final(f).writer) == *final(old(f).writer),
    {
        let number = self.to_integer();
        proof {
            lemma_carrier_text(number, f.flags);
        }
        f.write_integer_debug(number)
    }
}

} // verus!
