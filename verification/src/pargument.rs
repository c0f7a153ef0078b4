//! The carrier that every integer argument is turned into before it is written, and the
//! arguments of a concatenation.

pub mod conversions;

pub use conversions::PConvWrapper;

use crate::fmt::error::Error;
use crate::fmt::formatter::{Formatter, FormattingLength};
use crate::fmt::str_writer::StrWriter;
use crate::formatting::{integer_debug_text, Formatting, FormattingFlags, FormattingMode};
use crate::text::{
    binary_text, decimal_text, hexadecimal_text, integer_display_text, quoted_text,
};
use crate::wrapper_types::digit_count::{bit_width_u128, compute_binary_count, compute_hex_count};
use crate::wrapper_types::pwrapper::PWrapper;
use vstd::prelude::*;
use vstd::string::StringSliceAdditionalSpecFns;

verus! {

/// An integer of any width: its magnitude, its sign, and the mask of the bits that its
/// type has. The mask is applied when the number is written in hexadecimal or binary, so
/// a negative number shows the two's complement pattern of its own width.
///
/// Nothing is required of the fields: a magnitude with bits outside the mask is
/// written in full in decimal and masked in the other two bases.
#[derive(Clone, Copy)]
pub struct Integer {
    pub unsigned: u128,
    pub is_negative: bool,
    pub mask: u128,
}

/// What an argument of a concatenation holds: a string or a number.
#[derive(Clone, Copy)]
pub enum PVariant<'a> {
    Str(&'a str),
    Int(Integer),
}

/// One argument of a concatenation: the value, the length of its text, and the style and
/// flags under which the text is made.
#[derive(Clone, Copy)]
pub struct PArgument<'a> {
    pub elem: PVariant<'a>,
    pub fmt_len: usize,
    pub fmt: Formatting,
    pub fmt_flags: FormattingFlags,
}

/// The two's complement of `n` in 128 bits.
pub open spec fn negated(n: u128) -> u128 {
    if n == 0 {
        0
    } else {
        (0x1_0000_0000_0000_0000_0000_0000_0000_0000 - n) as u128
    }
}

impl Integer {
    /// The bits that hexadecimal and binary show.
    pub open spec fn bit_pattern(self) -> u128 {
        (if self.is_negative {
            negated(self.unsigned)
        } else {
            self.unsigned
        }) & self.mask
    }

    /// The number that the carrier stands for.
    pub open spec fn value(self) -> int {
        if self.is_negative {
            -(self.unsigned as int)
        } else {
            self.unsigned as int
        }
    }

    /// Whether the carrier holds a number of one of the integer types: the mask is that
    /// of 8, 16, 32, 64 or 128 bits, and the number lies in the signed or the unsigned
    /// range of that width. A negative zero is not in it.
    pub open spec fn fits_width(self) -> bool {
        &&& self.mask == 0xFF || self.mask == 0xFFFF || self.mask == 0xFFFF_FFFF || self.mask
            == 0xFFFF_FFFF_FFFF_FFFF || self.mask == 0xFFFF_FFFF_FFFF_FFFF_FFFF_FFFF_FFFF_FFFF
        &&& self.is_negative ==> 1 <= self.unsigned <= self.mask / 2 + 1
        &&& !self.is_negative ==> self.unsigned <= self.mask
    }

    /// The number as display formatting writes it: in decimal with its sign.
    pub open spec fn display_text(self) -> Seq<u8> {
        decimal_text(self.unsigned as nat, self.is_negative)
    }

    /// The number as debug formatting writes it under `flags`: as display formatting
    /// does, or its masked bits in hexadecimal or binary.
    pub open spec fn debug_text(self, flags: FormattingFlags) -> Seq<u8> {
        match flags.mode {
            FormattingMode::Regular => self.display_text(),
            FormattingMode::Hexadecimal => hexadecimal_text(
                self.bit_pattern() as nat,
                flags.is_alternate,
            ),
            FormattingMode::Binary => binary_text(self.bit_pattern() as nat, flags.is_alternate),
        }
    }

    /// The bits that hexadecimal and binary show.
    pub fn bits(self) -> (pattern: u128)
        ensures
            pattern == self.bit_pattern(),
    {
        let n: u128 = if self.is_negative {
            let r: i128 = self.as_negative();
            proof {
                lemma_negative_as_unsigned(r, self.unsigned);
            }
            #[verifier::truncate]
            (r as u128)
        } else {
            self.unsigned
        };
        n & self.mask
    }

    /// The length of the number in decimal with its sign.
    pub fn compute_display_len(self) -> (len: usize)
        ensures
            len == self.display_text().len(),
    {
        let digits = PWrapper(self.unsigned).compute_display_len(FormattingFlags::new());
        proof {
            crate::text::lemma_decimal_digits_bound(self.unsigned);
        }
        if self.is_negative {
            digits + 1
        } else {
            digits
        }
    }

    /// The length of the number in the base that the flags ask for.
    pub fn compute_debug_len(self, flags: FormattingFlags) -> (len: usize)
        ensures
            len == self.debug_text(flags).len(),
    {
        match flags.mode() {
            FormattingMode::Regular => self.compute_display_len(),
            FormattingMode::Hexadecimal => compute_hex_count(
                bit_width_u128(self.bits()),
                flags.is_alternate(),
            ),
            FormattingMode::Binary => compute_binary_count(
                bit_width_u128(self.bits()),
                flags.is_alternate(),
            ),
        }
    }

    /// The magnitude negated in 128 bits, read as a signed number.
    pub(crate) fn as_negative(self) -> (r: i128)
        ensures
            self.unsigned <= 0x8000_0000_0000_0000_0000_0000_0000_0000 ==> r == -(
            self.unsigned as int),
            self.unsigned > 0x8000_0000_0000_0000_0000_0000_0000_0000 ==> r
                == 0x1_0000_0000_0000_0000_0000_0000_0000_0000 - self.unsigned,
    {
        let n: u128 = self.unsigned;
        if n == 0 {
            0
        } else if n <= 0x8000_0000_0000_0000_0000_0000_0000_0000 {
            -((n - 1) as i128) - 1
        } else {
            (u128::MAX - n + 1) as i128
        }
    }
}

/// Reading a signed number as unsigned keeps its 128 bits.
pub(crate) proof fn lemma_negative_as_unsigned(r: i128, n: u128)
    requires
        n <= 0x8000_0000_0000_0000_0000_0000_0000_0000 ==> r == -(n as int),
        n > 0x8000_0000_0000_0000_0000_0000_0000_0000 ==> r
            == 0x1_0000_0000_0000_0000_0000_0000_0000_0000 - n,
    ensures
        r as u128 == negated(n),
{
    if r < 0 {
        assert((r as u128) == r + 0x1_0000_0000_0000_0000_0000_0000_0000_0000) by (bit_vector)
            requires
                r < 0,
        ;
    } else {
        assert((r as u128) == r) by (bit_vector)
            requires
                r >= 0,
        ;
    }
}

/// The masked bits of a number of one of the integer types are its two's complement in
/// that type, so the carrier is written as the number is.
pub proof fn lemma_carrier_text(number: Integer, flags: FormattingFlags)
    requires
        number.fits_width(),
    ensures
        number.bit_pattern() == crate::text::twos_complement(number.value(), number.mask + 1),
        number.display_text() == integer_display_text(number.value()),
        number.debug_text(flags) == integer_debug_text(number.value(), number.mask + 1, flags),
{
    let n: u128 = number.unsigned;
    let mask: u128 = number.mask;
    if number.is_negative {
        let neg: u128 = negated(n);
        assert(neg & mask == mask - n + 1) by (bit_vector)
            requires
                mask == 0xFF || mask == 0xFFFF || mask == 0xFFFF_FFFF || mask
                    == 0xFFFF_FFFF_FFFF_FFFF || mask == 0xFFFF_FFFF_FFFF_FFFF_FFFF_FFFF_FFFF_FFFF,
                1 <= n <= mask / 2 + 1,
                neg == (0x1_0000_0000_0000_0000_0000_0000_0000_0000 - n) as u128,
        ;
    } else {
        assert(n & mask == n) by (bit_vector)
            requires
                mask == 0xFF || mask == 0xFFFF || mask == 0xFFFF_FFFF || mask
                    == 0xFFFF_FFFF_FFFF_FFFF || mask == 0xFFFF_FFFF_FFFF_FFFF_FFFF_FFFF_FFFF_FFFF,
                n <= mask,
        ;
    }
}

impl<'a> PVariant<'a> {
    /// The text of the value in style `fmt` under `flags`.
    pub open spec fn text(self, fmt: Formatting, flags: FormattingFlags) -> Seq<u8> {
        match (self, fmt) {
            (PVariant::Str(s), Formatting::Display) => s.spec_bytes(),
            (PVariant::Str(s), Formatting::Debug) => quoted_text(s.spec_bytes()),
            (PVariant::Int(number), Formatting::Display) => number.display_text(),
            (PVariant::Int(number), Formatting::Debug) => number.debug_text(flags),
        }
    }
}

impl<'a> PArgument<'a> {
    /// The text of the argument.
    pub open spec fn text(self) -> Seq<u8> {
        self.elem.text(self.fmt, self.fmt_flags)
    }

    /// Whether the argument holds the length of its own text.
    pub open spec fn well_formed(self) -> bool {
        self.fmt_len == self.text().len()
    }

    /// The sum of the lengths that the arguments hold.
    pub open spec fn total_len(args: Seq<PArgument<'a>>) -> nat
        decreases args.len(),
    {
        if args.len() == 0 {
            0
        } else {
            Self::total_len(args.drop_last()) + args.last().fmt_len as nat
        }
    }

    /// The texts of the arguments, one after the other.
    pub open spec fn joined_text(args: Seq<PArgument<'a>>) -> Seq<u8>
        decreases args.len(),
    {
        if args.len() == 0 {
            Seq::<u8>::empty()
        } else {
            Self::joined_text(args.drop_last()) + args.last().text()
        }
    }

    /// The length that the concatenation of the arguments takes: the sum of the lengths
    /// that they hold.
    pub fn calc_len(args: &[PArgument<'a>]) -> (len: usize)
        requires
            Self::total_len(args@) <= usize::MAX,
        ensures
            len == Self::total_len(args@),
    {
        let mut len: usize = 0;
        let mut i: usize = 0;
        proof {
            assert(args@.subrange(0, 0) =~= Seq::<PArgument<'a>>::empty());
            Self::lemma_total_len_grows(args@, 0);
        }
        while i < args.len()
            invariant
                0 <= i <= args@.len(),
                len == Self::total_len(args@.subrange(0, i as int)),
                Self::total_len(args@) <= usize::MAX,
            decreases args@.len() - i,
        {
            proof {
                Self::lemma_total_len_grows(args@, i + 1);
                assert(args@.subrange(0, i + 1).drop_last() =~= args@.subrange(0, i as int));
            }
            len += args[i].fmt_len;
            i += 1;
        }
        proof {
            assert(args@.subrange(0, i as int) =~= args@);
        }
        len
    }

    /// The lengths of the first arguments come to no more than those of all.
    pub proof fn lemma_total_len_grows(args: Seq<PArgument<'a>>, i: int)
        requires
            0 <= i <= args.len(),
        ensures
            Self::total_len(args.subrange(0, i)) <= Self::total_len(args),
        decreases args.len(),
    {
        if i == args.len() {
            assert(args.subrange(0, i) =~= args);
        } else {
            Self::lemma_total_len_grows(args.drop_last(), i);
            assert(args.drop_last().subrange(0, i) =~= args.subrange(0, i));
        }
    }

    /// Where every argument holds the length of its text, the sum of the lengths is the
    /// length of the concatenation.
    pub proof fn lemma_total_len_is_text_len(args: Seq<PArgument<'a>>)
        requires
            forall|i: int| 0 <= i < args.len() ==> (#[trigger] args[i]).well_formed(),
        ensures
            Self::total_len(args) == Self::joined_text(args).len(),
        decreases args.len(),
    {
        if args.len() > 0 {
            Self::lemma_total_len_is_text_len(args.drop_last());
        }
    }

    /// Writes the text of the argument whole, or nothing where it does not fit.
    pub fn write_to<const N: usize>(&self, writer: &mut StrWriter<N>) -> (res: Result<(), Error>)
        ensures
            res is Ok <==> old(writer).fits(self.text().len()),
            res is Ok ==> final(writer)@ == old(writer)@ + self.text(),
            res is Err ==> final(writer)@ == old(writer)@,
    {
        let mut f = Formatter::from_sw(writer, self.fmt_flags);
        match (self.elem, self.fmt) {
            (PVariant::Str(s), Formatting::Display) => f.write_str(s),
            (PVariant::Str(s), Formatting::Debug) => f.write_str_debug(s),
            (PVariant::Int(number), Formatting::Display) => f.write_integer_display(number),
            (PVariant::Int(number), Formatting::Debug) => f.write_integer_debug(number),
        }
    }
}

/// The texts of the arguments one after the other, in a writer of capacity `LEN`. The
/// capacity is meant to be what [`PArgument::calc_len`] gives; with less, the
/// concatenation fails.
pub fn concatenate<'a, const LEN: usize>(args: &[PArgument<'a>]) -> (res: Result<
    StrWriter<LEN>,
    Error,
>)
    ensures
        res is Ok <==> PArgument::joined_text(args@).len() <= LEN,
        res matches Ok(writer) ==> writer@ == PArgument::joined_text(args@),
{
    let mut writer = StrWriter::new([0u8; LEN]);
    let mut i: usize = 0;
    proof {
        assert(args@.subrange(0, 0) =~= Seq::<PArgument<'a>>::empty());
    }
    while i < args.len()
        invariant
            0 <= i <= args@.len(),
            writer@ == PArgument::joined_text(args@.subrange(0, i as int)),
            writer@.len() <= LEN,
        decreases args@.len() - i,
    {
        proof {
            assert(args@.subrange(0, i + 1).drop_last() =~= args@.subrange(0, i as int));
            lemma_joined_text_grows(args@, i + 1);
        }
        match args[i].write_to(&mut writer) {
            Ok(()) => {},
            Err(e) => {
                return Err(e);
            },
        }
        i += 1;
    }
    proof {
        assert(args@.subrange(0, i as int) =~= args@);
    }
    Ok(writer)
}

/// The texts of the first arguments are no longer than those of all.
pub proof fn lemma_joined_text_grows<'a>(args: Seq<PArgument<'a>>, i: int)
    requires
        0 <= i <= args.len(),
    ensures
        PArgument::joined_text(args.subrange(0, i)).len() <= PArgument::joined_text(args).len(),
    decreases args.len(),
{
    if i == args.len() {
        assert(args.subrange(0, i) =~= args);
    } else {
        lemma_joined_text_grows(args.drop_last(), i);
        assert(args.drop_last().subrange(0, i) =~= args.subrange(0, i));
    }
}

} // verus!
