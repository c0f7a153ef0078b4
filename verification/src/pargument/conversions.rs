//! Making the arguments of a concatenation from values of the supported types.

use crate::fmt::std_type_impls::bool_text;
use crate::formatting::{integer_debug_text, Formatting, FormattingFlags};
use crate::pargument::{lemma_carrier_text, Integer, PArgument, PVariant};
use crate::text::{integer_display_text, modulus, quoted_text};
use crate::wrapper_types::pwrapper::PWrapper;
use vstd::prelude::*;
use vstd::string::StringSliceAdditionalSpecFns;

verus! {

/// The entry point for making arguments: the wrapper of a supported type has the methods
/// that make an argument of its value.
pub struct PConvWrapper<T>(pub T);

impl PConvWrapper<u8> {
    /// The number in the carrier that the digits are made from.
    pub fn to_integer(self) -> (number: Integer)
        ensures
            number.fits_width(),
            number.value() == self.0,
            number.mask + 1 == modulus(8),
    {
        PWrapper(self.0).to_integer()
    }

    /// The argument that writes the number in decimal with its sign.
    pub fn to_pargument_display(self, fmt_flags: FormattingFlags) -> (arg: PArgument<'static>)
        ensures
            arg.well_formed(),
            arg.text() == integer_display_text(self.0 as int),
            arg.fmt == Formatting::Display,
            arg.fmt_flags == fmt_flags,
    {
        let number = PWrapper(self.0).to_integer();
        proof {
            lemma_carrier_text(number, fmt_flags);
        }
        PArgument {
            elem: PVariant::Int(number),
            fmt_len: PWrapper(self.0).compute_display_len(fmt_flags),
            fmt: Formatting::Display,
            fmt_flags,
        }
    }

    /// The argument that writes the number in the base that the flags ask for.
    pub fn to_pargument_debug(self, fmt_flags: FormattingFlags) -> (arg: PArgument<'static>)
        ensures
            arg.well_formed(),
            arg.text() == integer_debug_text(self.0 as int, modulus(8), fmt_flags),
            arg.fmt == Formatting::Debug,
            arg.fmt_flags == fmt_flags,
    {
        let number = PWrapper(self.0).to_integer();
        proof {
            lemma_carrier_text(number, fmt_flags);
        }
        PArgument {
            elem: PVariant::Int(number),
            fmt_len: PWrapper(self.0).compute_debug_len(fmt_flags),
            fmt: Formatting::Debug,
            fmt_flags,
        }
    }
}

impl PConvWrapper<u16> {
    /// The number in the carrier that the digits are made from.
    pub fn to_integer(self) -> (number: Integer)
        ensures
            number.fits_width(),
            number.value() == self.0,
            number.mask + 1 == modulus(16),
    {
        PWrapper(self.0).to_integer()
    }

    /// The argument that writes the number in decimal with its sign.
    pub fn to_pargument_display(self, fmt_flags: FormattingFlags) -> (arg: PArgument<'static>)
        ensures
            arg.well_formed(),
            arg.text() == integer_display_text(self.0 as int),
            arg.fmt == Formatting::Display,
            arg.fmt_flags == fmt_flags,
    {
        let number = PWrapper(self.0).to_integer();
        proof {
            lemma_carrier_text(number, fmt_flags);
        }
        PArgument {
            elem: PVariant::Int(number),
            fmt_len: PWrapper(self.0).compute_display_len(fmt_flags),
            fmt: Formatting::Display,
            fmt_flags,
        }
    }

    /// The argument that writes the number in the base that the flags ask for.
    pub fn to_pargument_debug(self, fmt_flags: FormattingFlags) -> (arg: PArgument<'static>)
        ensures
            arg.well_formed(),
            arg.text() == integer_debug_text(self.0 as int, modulus(16), fmt_flags),
            arg.fmt == Formatting::Debug,
            arg.fmt_flags == fmt_flags,
    {
        let number = PWrapper(self.0).to_integer();
        proof {
            lemma_carrier_text(number, fmt_flags);
        }
        PArgument {
            elem: PVariant::Int(number),
            fmt_len: PWrapper(self.0).compute_debug_len(fmt_flags),
            fmt: Formatting::Debug,
            fmt_flags,
        }
    }
}

impl PConvWrapper<u32> {
    /// The number in the carrier that the digits are made from.
    pub fn to_integer(self) -> (number: Integer)
        ensures
            number.fits_width(),
            number.value() == self.0,
            number.mask + 1 == modulus(32),
    {
        PWrapper(self.0).to_integer()
    }

    /// The argument that writes the number in decimal with its sign.
    pub fn to_pargument_display(self, fmt_flags: FormattingFlags) -> (arg: PArgument<'static>)
        ensures
            arg.well_formed(),
            arg.text() == integer_display_text(self.0 as int),
            arg.fmt == Formatting::Display,
            arg.fmt_flags == fmt_flags,
    {
        let number = PWrapper(self.0).to_integer();
        proof {
            lemma_carrier_text(number, fmt_flags);
        }
        PArgument {
            elem: PVariant::Int(number),
            fmt_len: PWrapper(self.0).compute_display_len(fmt_flags),
            fmt: Formatting::Display,
            fmt_flags,
        }
    }

    /// The argument that writes the number in the base that the flags ask for.
    pub fn to_pargument_debug(self, fmt_flags: FormattingFlags) -> (arg: PArgument<'static>)
        ensures
            arg.well_formed(),
            arg.text() == integer_debug_text(self.0 as int, modulus(32), fmt_flags),
            arg.fmt == Formatting::Debug,
            arg.fmt_flags == fmt_flags,
    {
        let number = PWrapper(self.0).to_integer();
        proof {
            lemma_carrier_text(number, fmt_flags);
        }
        PArgument {
            elem: PVariant::Int(number),
            fmt_len: PWrapper(self.0).compute_debug_len(fmt_flags),
            fmt: Formatting::Debug,
            fmt_flags,
        }
    }
}

impl PConvWrapper<u64> {
    /// The number in the carrier that the digits are made from.
    pub fn to_integer(self) -> (number: Integer)
        ensures
            number.fits_width(),
            number.value() == self.0,
            number.mask + 1 == modulus(64),
    {
        PWrapper(self.0).to_integer()
    }

    /// The argument that writes the number in decimal with its sign.
    pub fn to_pargument_display(self, fmt_flags: FormattingFlags) -> (arg: PArgument<'static>)
        ensures
            arg.well_formed(),
            arg.text() == integer_display_text(self.0 as int),
            arg.fmt == Formatting::Display,
            arg.fmt_flags == fmt_flags,
    {
        let number = PWrapper(self.0).to_integer();
        proof {
            lemma_carrier_text(number, fmt_flags);
        }
        PArgument {
            elem: PVariant::Int(number),
            fmt_len: PWrapper(self.0).compute_display_len(fmt_flags),
            fmt: Formatting::Display,
            fmt_flags,
        }
    }

    /// The argument that writes the number in the base that the flags ask for.
    pub fn to_pargument_debug(self, fmt_flags: FormattingFlags) -> (arg: PArgument<'static>)
        ensures
            arg.well_formed(),
            arg.text() == integer_debug_text(self.0 as int, modulus(64), fmt_flags),
            arg.fmt == Formatting::Debug,
            arg.fmt_flags == fmt_flags,
    {
        let number = PWrapper(self.0).to_integer();
        proof {
            lemma_carrier_text(number, fmt_flags);
        }
        PArgument {
            elem: PVariant::Int(number),
            fmt_len: PWrapper(self.0).compute_debug_len(fmt_flags),
            fmt: Formatting::Debug,
            fmt_flags,
        }
    }
}

impl PConvWrapper<u128> {
    /// The number in the carrier that the digits are made from.
    pub fn to_integer(self) -> (number: Integer)
        ensures
            number.fits_width(),
            number.value() == self.0,
            number.mask + 1 == modulus(128),
    {
        PWrapper(self.0).to_integer()
    }

    /// The argument that writes the number in decimal with its sign.
    pub fn to_pargument_display(self, fmt_flags: FormattingFlags) -> (arg: PArgument<'static>)
        ensures
            arg.well_formed(),
            arg.text() == integer_display_text(self.0 as int),
            arg.fmt == Formatting::Display,
            arg.fmt_flags == fmt_flags,
    {
        let number = PWrapper(self.0).to_integer();
        proof {
            lemma_carrier_text(number, fmt_flags);
        }
        PArgument {
            elem: PVariant::Int(number),
            fmt_len: PWrapper(self.0).compute_display_len(fmt_flags),
            fmt: Formatting::Display,
            fmt_flags,
        }
    }

    /// The argument that writes the number in the base that the flags ask for.
    pub fn to_pargument_debug(self, fmt_flags: FormattingFlags) -> (arg: PArgument<'static>)
        ensures
            arg.well_formed(),
            arg.text() == integer_debug_text(self.0 as int, modulus(128), fmt_flags),
            arg.fmt == Formatting::Debug,
            arg.fmt_flags == fmt_flags,
    {
        let number = PWrapper(self.0).to_integer();
        proof {
            lemma_carrier_text(number, fmt_flags);
        }
        PArgument {
            elem: PVariant::Int(number),
            fmt_len: PWrapper(self.0).compute_debug_len(fmt_flags),
            fmt: Formatting::Debug,
            fmt_flags,
        }
    }
}

impl PConvWrapper<usize> {
    /// The number in the carrier that the digits are made from.
    pub fn to_integer(self) -> (number: Integer)
        ensures
            number.fits_width(),
            number.value() == self.0,
            number.mask + 1 == usize::MAX + 1,
    {
        PWrapper(self.0).to_integer()
    }

    /// The argument that writes the number in decimal with its sign.
    pub fn to_pargument_display(self, fmt_flags: FormattingFlags) -> (arg: PArgument<'static>)
        ensures
            arg.well_formed(),
            arg.text() == integer_display_text(self.0 as int),
            arg.fmt == Formatting::Display,
            arg.fmt_flags == fmt_flags,
    {
        let number = PWrapper(self.0).to_integer();
        proof {
            lemma_carrier_text(number, fmt_flags);
        }
        PArgument {
            elem: PVariant::Int(number),
            fmt_len: PWrapper(self.0).compute_display_len(fmt_flags),
            fmt: Formatting::Display,
            fmt_flags,
        }
    }

    /// The argument that writes the number in the base that the flags ask for.
    pub fn to_pargument_debug(self, fmt_flags: FormattingFlags) -> (arg: PArgument<'static>)
        ensures
            arg.well_formed(),
            arg.text() == integer_debug_text(self.0 as int, usize::MAX + 1, fmt_flags),
            arg.fmt == Formatting::Debug,
            arg.fmt_flags == fmt_flags,
    {
        let number = PWrapper(self.0).to_integer();
        proof {
            lemma_carrier_text(number, fmt_flags);
        }
        PArgument {
            elem: PVariant::Int(number),
            fmt_len: PWrapper(self.0).compute_debug_len(fmt_flags),
            fmt: Formatting::Debug,
            fmt_flags,
        }
    }
}

impl PConvWrapper<i8> {
    /// The number in the carrier that the digits are made from.
    pub fn to_integer(self) -> (number: Integer)
        ensures
            number.fits_width(),
            number.value() == self.0,
            number.mask + 1 == modulus(8),
    {
        PWrapper(self.0).to_integer()
    }

    /// The argument that writes the number in decimal with its sign.
    pub fn to_pargument_display(self, fmt_flags: FormattingFlags) -> (arg: PArgument<'static>)
        ensures
            arg.well_formed(),
            arg.text() == integer_display_text(self.0 as int),
            arg.fmt == Formatting::Display,
            arg.fmt_flags == fmt_flags,
    {
        let number = PWrapper(self.0).to_integer();
        proof {
            lemma_carrier_text(number, fmt_flags);
        }
        PArgument {
            elem: PVariant::Int(number),
            fmt_len: PWrapper(self.0).compute_display_len(fmt_flags),
            fmt: Formatting::Display,
            fmt_flags,
        }
    }

    /// The argument that writes the number in the base that the flags ask for.
    pub fn to_pargument_debug(self, fmt_flags: FormattingFlags) -> (arg: PArgument<'static>)
        ensures
            arg.well_formed(),
            arg.text() == integer_debug_text(self.0 as int, modulus(8), fmt_flags),
            arg.fmt == Formatting::Debug,
            arg.fmt_flags == fmt_flags,
    {
        let number = PWrapper(self.0).to_integer();
        proof {
            lemma_carrier_text(number, fmt_flags);
        }
        PArgument {
            elem: PVariant::Int(number),
            fmt_len: PWrapper(self.0).compute_debug_len(fmt_flags),
            fmt: Formatting::Debug,
            fmt_flags,
        }
    }
}

impl PConvWrapper<i16> {
    /// The number in the carrier that the digits are made from.
    pub fn to_integer(self) -> (number: Integer)
        ensures
            number.fits_width(),
            number.value() == self.0,
            number.mask + 1 == modulus(16),
    {
        PWrapper(self.0).to_integer()
    }

    /// The argument that writes the number in decimal with its sign.
    pub fn to_pargument_display(self, fmt_flags: FormattingFlags) -> (arg: PArgument<'static>)
        ensures
            arg.well_formed(),
            arg.text() == integer_display_text(self.0 as int),
            arg.fmt == Formatting::Display,
            arg.fmt_flags == fmt_flags,
    {
        let number = PWrapper(self.0).to_integer();
        proof {
            lemma_carrier_text(number, fmt_flags);
        }
        PArgument {
            elem: PVariant::Int(number),
            fmt_len: PWrapper(self.0).compute_display_len(fmt_flags),
            fmt: Formatting::Display,
            fmt_flags,
        }
    }

    /// The argument that writes the number in the base that the flags ask for.
    pub fn to_pargument_debug(self, fmt_flags: FormattingFlags) -> (arg: PArgument<'static>)
        ensures
            arg.well_formed(),
            arg.text() == integer_debug_text(self.0 as int, modulus(16), fmt_flags),
            arg.fmt == Formatting::Debug,
            arg.fmt_flags == fmt_flags,
    {
        let number = PWrapper(self.0).to_integer();
        proof {
            lemma_carrier_text(number, fmt_flags);
        }
        PArgument {
            elem: PVariant::Int(number),
            fmt_len: PWrapper(self.0).compute_debug_len(fmt_flags),
            fmt: Formatting::Debug,
            fmt_flags,
        }
    }
}

impl PConvWrapper<i32> {
    /// The number in the carrier that the digits are made from.
    pub fn to_integer(self) -> (number: Integer)
        ensures
            number.fits_width(),
            number.value() == self.0,
            number.mask + 1 == modulus(32),
    {
        PWrapper(self.0).to_integer()
    }

    /// The argument that writes the number in decimal with its sign.
    pub fn to_pargument_display(self, fmt_flags: FormattingFlags) -> (arg: PArgument<'static>)
        ensures
            arg.well_formed(),
            arg.text() == integer_display_text(self.0 as int),
            arg.fmt == Formatting::Display,
            arg.fmt_flags == fmt_flags,
    {
        let number = PWrapper(self.0).to_integer();
        proof {
            lemma_carrier_text(number, fmt_flags);
        }
        PArgument {
            elem: PVariant::Int(number),
            fmt_len: PWrapper(self.0).compute_display_len(fmt_flags),
            fmt: Formatting::Display,
            fmt_flags,
        }
    }

    /// The argument that writes the number in the base that the flags ask for.
    pub fn to_pargument_debug(self, fmt_flags: FormattingFlags) -> (arg: PArgument<'static>)
        ensures
            arg.well_formed(),
            arg.text() == integer_debug_text(self.0 as int, modulus(32), fmt_flags),
            arg.fmt == Formatting::Debug,
            arg.fmt_flags == fmt_flags,
    {
        let number = PWrapper(self.0).to_integer();
        proof {
            lemma_carrier_text(number, fmt_flags);
        }
        PArgument {
            elem: PVariant::Int(number),
            fmt_len: PWrapper(self.0).compute_debug_len(fmt_flags),
            fmt: Formatting::Debug,
            fmt_flags,
        }
    }
}

impl PConvWrapper<i64> {
    /// The number in the carrier that the digits are made from.
    pub fn to_integer(self) -> (number: Integer)
        ensures
            number.fits_width(),
            number.value() == self.0,
            number.mask + 1 == modulus(64),
    {
        PWrapper(self.0).to_integer()
    }

    /// The argument that writes the number in decimal with its sign.
    pub fn to_pargument_display(self, fmt_flags: FormattingFlags) -> (arg: PArgument<'static>)
        ensures
            arg.well_formed(),
            arg.text() == integer_display_text(self.0 as int),
            arg.fmt == Formatting::Display,
            arg.fmt_flags == fmt_flags,
    {
        let number = PWrapper(self.0).to_integer();
        proof {
            lemma_carrier_text(number, fmt_flags);
        }
        PArgument {
            elem: PVariant::Int(number),
            fmt_len: PWrapper(self.0).compute_display_len(fmt_flags),
            fmt: Formatting::Display,
            fmt_flags,
        }
    }

    /// The argument that writes the number in the base that the flags ask for.
    pub fn to_pargument_debug(self, fmt_flags: FormattingFlags) -> (arg: PArgument<'static>)
        ensures
            arg.well_formed(),
            arg.text() == integer_debug_text(self.0 as int, modulus(64), fmt_flags),
            arg.fmt == Formatting::Debug,
            arg.fmt_flags == fmt_flags,
    {
        let number = PWrapper(self.0).to_integer();
        proof {
            lemma_carrier_text(number, fmt_flags);
        }
        PArgument {
            elem: PVariant::Int(number),
            fmt_len: PWrapper(self.0).compute_debug_len(fmt_flags),
            fmt: Formatting::Debug,
            fmt_flags,
        }
    }
}

impl PConvWrapper<i128> {
    /// The number in the carrier that the digits are made from.
    pub fn to_integer(self) -> (number: Integer)
        ensures
            number.fits_width(),
            number.value() == self.0,
            number.mask + 1 == modulus(128),
    {
        PWrapper(self.0).to_integer()
    }

    /// The argument that writes the number in decimal with its sign.
    pub fn to_pargument_display(self, fmt_flags: FormattingFlags) -> (arg: PArgument<'static>)
        ensures
            arg.well_formed(),
            arg.text() == integer_display_text(self.0 as int),
            arg.fmt == Formatting::Display,
            arg.fmt_flags == fmt_flags,
    {
        let number = PWrapper(self.0).to_integer();
        proof {
            lemma_carrier_text(number, fmt_flags);
        }
        PArgument {
            elem: PVariant::Int(number),
            fmt_len: PWrapper(self.0).compute_display_len(fmt_flags),
            fmt: Formatting::Display,
            fmt_flags,
        }
    }

    /// The argument that writes the number in the base that the flags ask for.
    pub fn to_pargument_debug(self, fmt_flags: FormattingFlags) -> (arg: PArgument<'static>)
        ensures
            arg.well_formed(),
            arg.text() == integer_debug_text(self.0 as int, modulus(128), fmt_flags),
            arg.fmt == Formatting::Debug,
            arg.fmt_flags == fmt_flags,
    {
        let number = PWrapper(self.0).to_integer();
        proof {
            lemma_carrier_text(number, fmt_flags);
        }
        PArgument {
            elem: PVariant::Int(number),
            fmt_len: PWrapper(self.0).compute_debug_len(fmt_flags),
            fmt: Formatting::Debug,
            fmt_flags,
        }
    }
}

impl PConvWrapper<isize> {
    /// The number in the carrier that the digits are made from.
    pub fn to_integer(self) -> (number: Integer)
        ensures
            number.fits_width(),
            number.value() == self.0,
            number.mask + 1 == usize::MAX + 1,
    {
        PWrapper(self.0).to_integer()
    }

    /// The argument that writes the number in decimal with its sign.
    pub fn to_pargument_display(self, fmt_flags: FormattingFlags) -> (arg: PArgument<'static>)
        ensures
            arg.well_formed(),
            arg.text() == integer_display_text(self.0 as int),
            arg.fmt == Formatting::Display,
            arg.fmt_flags == fmt_flags,
    {
        let number = PWrapper(self.0).to_integer();
        proof {
            lemma_carrier_text(number, fmt_flags);
        }
        PArgument {
            elem: PVariant::Int(number),
            fmt_len: PWrapper(self.0).compute_display_len(fmt_flags),
            fmt: Formatting::Display,
            fmt_flags,
        }
    }

    /// The argument that writes the number in the base that the flags ask for.
    pub fn to_pargument_debug(self, fmt_flags: FormattingFlags) -> (arg: PArgument<'static>)
        ensures
            arg.well_formed(),
            arg.text() == integer_debug_text(self.0 as int, usize::MAX + 1, fmt_flags),
            arg.fmt == Formatting::Debug,
            arg.fmt_flags == fmt_flags,
    {
        let number = PWrapper(self.0).to_integer();
        proof {
            lemma_carrier_text(number, fmt_flags);
        }
        PArgument {
            elem: PVariant::Int(number),
            fmt_len: PWrapper(self.0).compute_debug_len(fmt_flags),
            fmt: Formatting::Debug,
            fmt_flags,
        }
    }
}

impl<'a> PConvWrapper<&'a str> {
    /// The argument that writes the string as it is.
    pub fn to_pargument_display(self, fmt_flags: FormattingFlags) -> (arg: PArgument<'a>)
        ensures
            arg.well_formed(),
            arg.text() == self.0.spec_bytes(),
            arg.fmt == Formatting::Display,
            arg.fmt_flags == fmt_flags,
    {
        PArgument {
            elem: PVariant::Str(self.0),
            fmt_len: PWrapper(self.0).compute_display_len(fmt_flags),
            fmt: Formatting::Display,
            fmt_flags,
        }
    }

    /// The argument that writes the string between quotes and escaped.
    pub fn to_pargument_debug(self, fmt_flags: FormattingFlags) -> (arg: PArgument<'a>)
        requires
            quoted_text(self.0.spec_bytes()).len() <= usize::MAX,
        ensures
            arg.well_formed(),
            arg.text() == quoted_text(self.0.spec_bytes()),
            arg.fmt == Formatting::Debug,
            arg.fmt_flags == fmt_flags,
    {
        PArgument {
            elem: PVariant::Str(self.0),
            fmt_len: PWrapper(self.0).compute_debug_len(fmt_flags),
            fmt: Formatting::Debug,
            fmt_flags,
        }
    }
}

impl PConvWrapper<bool> {
    /// The argument that writes `true` or `false`.
    pub fn to_pargument_display(self, fmt_flags: FormattingFlags) -> (arg: PArgument<'static>)
        ensures
            arg.well_formed(),
            arg.text() == bool_text(self.0),
            arg.fmt == Formatting::Display,
            arg.fmt_flags == fmt_flags,
    {
        proof {
            crate::fmt::std_type_impls::lemma_bool_literals();
        }
        PArgument {
            elem: PVariant::Str(
                if self.0 {
                    "true"
                } else {
                    "false"
                },
            ),
            fmt_len: PWrapper(self.0).compute_display_len(fmt_flags),
            fmt: Formatting::Display,
            fmt_flags,
        }
    }

    /// The same argument as [`Self::to_pargument_display`] makes: a boolean is not put
    /// between quotes.
    pub fn to_pargument_debug(self, fmt_flags: FormattingFlags) -> (arg: PArgument<'static>)
        ensures
            arg.well_formed(),
            arg.text() == bool_text(self.0),
            arg.fmt == Formatting::Display,
            arg.fmt_flags == fmt_flags,
    {
        self.to_pargument_display(fmt_flags)
    }
}

} // verus!
