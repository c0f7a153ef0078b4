//! The switches that every formatting call reads, the tables that say which bytes are
//! escaped inside quotes, and the scratch buffer that digits are written into.

use crate::text::{
    backslash_escape, binary_text, digit_byte, hexadecimal_text, integer_display_text,
    is_backslash_escaped, is_escaped, twos_complement,
};
use vstd::prelude::*;

verus! {

/// One bit for each of the 128 ASCII values: set where the byte is written as an escape
/// inside quotes.
pub const IS_ESCAPED: u128 = 0x8000_0000_1000_0000_0000_0084_FFFF_FFFF;

/// The bits of [`IS_ESCAPED`] whose byte is escaped by a backslash and one letter; the
/// others take `\x` and two hexadecimal digits.
pub const IS_BACKSLASH_ESCAPED: u128 = 0x0000_0000_1000_0000_0000_0084_0000_2601;

/// The two tables say of every ASCII value what the model of escaping says.
pub proof fn lemma_escape_tables(c: u8)
    requires
        c < 128,
    ensures
        (IS_ESCAPED & (1u128 << c)) != 0 <==> is_escaped(c),
        (IS_BACKSLASH_ESCAPED & (1u128 << c)) != 0 <==> is_backslash_escaped(c),
        is_backslash_escaped(c) ==> is_escaped(c),
{
    assert((0x8000_0000_1000_0000_0000_0084_FFFF_FFFFu128 & (1u128 << c)) != 0 <==> (c < 32 || c
        == 34 || c == 39 || c == 92 || c == 127)) by (bit_vector)
        requires
            c < 128,
    ;
    assert((0x0000_0000_1000_0000_0000_0084_0000_2601u128 & (1u128 << c)) != 0 <==> (c == 0 || c
        == 9 || c == 10 || c == 13 || c == 34 || c == 39 || c == 92)) by (bit_vector)
        requires
            c < 128,
    ;
}

/// Whether `b` is written as an escape inside quotes, by the table.
pub fn needs_escape(b: u8) -> (escaped: bool)
    ensures
        escaped == is_escaped(b),
{
    if b < 128 {
        proof {
            lemma_escape_tables(b);
        }
        (IS_ESCAPED & (1u128 << b)) != 0
    } else {
        false
    }
}

/// Whether `b` is escaped by a backslash and one letter, by the table.
pub fn needs_backslash(b: u8) -> (escaped: bool)
    ensures
        escaped == is_backslash_escaped(b),
{
    if b < 128 {
        proof {
            lemma_escape_tables(b);
        }
        (IS_BACKSLASH_ESCAPED & (1u128 << b)) != 0
    } else {
        false
    }
}

/// The letter that follows the backslash in the escape of `b`.
pub fn get_backslash_escape(b: u8) -> (letter: u8)
    requires
        is_backslash_escaped(b),
    ensures
        letter == backslash_escape(b),
{
    if b == 0 {
        48
    } else if b == 9 {
        116
    } else if b == 10 {
        110
    } else if b == 13 {
        114
    } else {
        b
    }
}

/// The upper-case hexadecimal digit of a number below 16.
pub fn hex_as_ascii(n: u8) -> (digit: u8)
    requires
        n < 16,
    ensures
        digit == digit_byte(n as nat),
{
    if n < 10 {
        48 + n
    } else {
        55 + n
    }
}

/// The two styles of formatting.
#[derive(Clone, Copy, Debug, PartialEq, Eq, Structural)]
pub enum Formatting {
    /// For diagnostics: strings between quotes and escaped, numbers in the base of the
    /// flags.
    Debug,
    /// Plain: strings as they are, numbers in decimal.
    Display,
}

/// The base in which numbers are written.
#[derive(Clone, Copy, Debug, PartialEq, Eq, Structural)]
pub enum FormattingMode {
    /// Decimal, with a sign.
    Regular,
    /// Upper-case hexadecimal of the two's complement bit pattern.
    Hexadecimal,
    /// Binary of the two's complement bit pattern.
    Binary,
}

/// How a value is to be written. A flags value is never changed in place: the setters
/// return a new one.
#[derive(Clone, Copy, Debug, PartialEq, Eq, Structural)]
pub struct FormattingFlags {
    pub mode: FormattingMode,
    pub is_alternate: bool,
}

impl FormattingFlags {
    /// Decimal numbers, no alternate form.
    pub fn new() -> (flags: Self)
        ensures
            flags == (FormattingFlags { mode: FormattingMode::Regular, is_alternate: false }),
    {
        FormattingFlags { mode: FormattingMode::Regular, is_alternate: false }
    }

    pub fn mode(self) -> (mode: FormattingMode)
        ensures
            mode == self.mode,
    {
        self.mode
    }

    pub fn is_alternate(self) -> (alternate: bool)
        ensures
            alternate == self.is_alternate,
    {
        self.is_alternate
    }

    pub fn set_mode(self, mode: FormattingMode) -> (flags: Self)
        ensures
            flags == (FormattingFlags { mode, is_alternate: self.is_alternate }),
    {
        FormattingFlags { mode, is_alternate: self.is_alternate }
    }

    pub fn set_alternate(self, is_alternate: bool) -> (flags: Self)
        ensures
            flags == (FormattingFlags { mode: self.mode, is_alternate }),
    {
        FormattingFlags { mode: self.mode, is_alternate }
    }
}

/// An integer as debug formatting writes it under `flags`: as display formatting does, or
/// the bit pattern of its type, which holds `modulus` different values, in hexadecimal or
/// binary. No sign is written in these two.
pub open spec fn integer_debug_text(value: int, modulus: int, flags: FormattingFlags) -> Seq<u8> {
    match flags.mode {
        FormattingMode::Regular => integer_display_text(value),
        FormattingMode::Hexadecimal => hexadecimal_text(
            twos_complement(value, modulus),
            flags.is_alternate,
        ),
        FormattingMode::Binary => binary_text(twos_complement(value, modulus), flags.is_alternate),
    }
}

/// An array whose content starts at `start` and runs to the end of the array. Digits are
/// produced least significant first, so they are written from the end towards the front.
pub struct StartAndArray<T> {
    pub start: usize,
    pub array: T,
}

impl<const N: usize> StartAndArray<[u8; N]> {
    /// The content: the bytes from `start` to the end.
    pub open spec fn view(&self) -> Seq<u8> {
        self.array@.subrange(self.start as int, N as int)
    }
}

} // verus!
