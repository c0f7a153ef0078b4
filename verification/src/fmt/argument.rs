//! The values that a format string can be given at run time: a closed list of kinds, each
//! with its length and its writing in the two styles.

use crate::fmt::error::Error;
use crate::fmt::formatter::{lemma_wrote_one_part, wrote_in_turn, Formatter, FormattingLength};
use crate::fmt::std_type_impls::bool_text;
use crate::fmt::std_type_impls::const_debug::lemma_one_part;
use crate::formatting::{Formatting, FormattingFlags};
use crate::marker_traits::const_debug::ConstDebug;
use crate::pargument::Integer;
use crate::text::{char_text, quoted_char_text, quoted_text};
use crate::wrapper_types::pwrapper::PWrapper;
use core::ops::{Range, RangeFrom, RangeFull, RangeInclusive, RangeTo, RangeToInclusive};
use vstd::prelude::*;
use vstd::string::StringSliceAdditionalSpecFns;

verus! {

/// A value of one of the supported kinds.
pub enum Argument<'a> {
    /// An integer of any width, in its carrier.
    Int(Integer),
    Str(&'a str),
    Bool(bool),
    Char(char),
    Range(Range<usize>),
    RangeFrom(RangeFrom<usize>),
    RangeTo(RangeTo<usize>),
    RangeToInclusive(RangeToInclusive<usize>),
    RangeInclusive(RangeInclusive<usize>),
    RangeFull(RangeFull),
}

impl<'a> Argument<'a> {
    /// The text of the value in style `formatting` under `flags`, in the parts in which
    /// it is written. A range has the same text in both styles.
    pub open spec fn parts(self, formatting: Formatting, flags: FormattingFlags) -> Seq<Seq<u8>> {
        match self {
            Argument::Int(number) => match formatting {
                Formatting::Display => seq![number.display_text()],
                Formatting::Debug => seq![number.debug_text(flags)],
            },
            Argument::Str(text) => match formatting {
                Formatting::Display => seq![text.spec_bytes()],
                Formatting::Debug => seq![quoted_text(text.spec_bytes())],
            },
            Argument::Bool(value) => seq![bool_text(value)],
            Argument::Char(c) => match formatting {
                Formatting::Display => seq![char_text(c)],
                Formatting::Debug => seq![quoted_char_text(c)],
            },
            Argument::Range(range) => range.debug_parts(flags),
            Argument::RangeFrom(range) => range.debug_parts(flags),
            Argument::RangeTo(range) => range.debug_parts(flags),
            Argument::RangeToInclusive(range) => range.debug_parts(flags),
            Argument::RangeInclusive(range) => range.debug_parts(flags),
            Argument::RangeFull(range) => range.debug_parts(flags),
        }
    }

    /// The text of the value in style `formatting` under `flags`.
    pub open spec fn text(self, formatting: Formatting, flags: FormattingFlags) -> Seq<u8> {
        self.parts(formatting, flags).flatten()
    }

    /// The length of the text of the value in style `formatting` under `flags`.
    pub fn compute_len(&self, formatting: Formatting, flags: FormattingFlags) -> (len: usize)
        requires
            self.text(formatting, flags).len() <= usize::MAX,
        ensures
            len == self.text(formatting, flags).len(),
    {
        proof {
            lemma_one_part(self.parts(formatting, flags)[0]);
        }
        match self {
            Argument::Int(number) => {
                proof {
                    assert(self.parts(formatting, flags) =~= seq![
                        self.parts(formatting, flags)[0],
                    ]);
                }
                match formatting {
                    Formatting::Display => number.compute_display_len(),
                    Formatting::Debug => number.compute_debug_len(flags),
                }
            },
            Argument::Str(text) => {
                proof {
                    assert(self.parts(formatting, flags) =~= seq![
                        self.parts(formatting, flags)[0],
                    ]);
                }
                match formatting {
                    Formatting::Display => PWrapper(*text).compute_display_len(flags),
                    Formatting::Debug => PWrapper(*text).compute_debug_len(flags),
                }
            },
            Argument::Bool(value) => PWrapper(*value).compute_display_len(flags),
            Argument::Char(c) => {
                proof {
                    assert(self.parts(formatting, flags) =~= seq![
                        self.parts(formatting, flags)[0],
                    ]);
                }
                match formatting {
                    Formatting::Display => PWrapper(*c).compute_display_len(flags),
                    Formatting::Debug => PWrapper(*c).compute_debug_len(flags),
                }
            },
            Argument::Range(range) => {
                let mut count = FormattingLength::new(flags);
                range.const_debug_len(&mut count);
                count.len()
            },
            Argument::RangeFrom(range) => {
                let mut count = FormattingLength::new(flags);
                range.const_debug_len(&mut count);
                count.len()
            },
            Argument::RangeTo(range) => {
                let mut count = FormattingLength::new(flags);
                range.const_debug_len(&mut count);
                count.len()
            },
            Argument::RangeToInclusive(range) => {
                let mut count = FormattingLength::new(flags);
                range.const_debug_len(&mut count);
                count.len()
            },
            Argument::RangeInclusive(range) => {
                let mut count = FormattingLength::new(flags);
                range.const_debug_len(&mut count);
                count.len()
            },
            Argument::RangeFull(range) => {
                let mut count = FormattingLength::new(flags);
                range.const_debug_len(&mut count);
                count.len()
            },
        }
    }

    /// Writes the value in style `formatting` under `flags`, part after part, and stops
    /// at the first part that does not fit. The flags of `f` are the same afterwards as
    /// before.
    pub fn write<const N: usize>(
        &self,
        formatting: Formatting,
        flags: FormattingFlags,
        f: &mut Formatter<'_, N>,
    ) -> (res: Result<(), Error>)
        ensures
            wrote_in_turn(*old(f), *final(f), self.parts(formatting, flags), res),
            *final(final(f).writer) == *final(old(f).writer),
    {
        let kept = f.flags;
        f.flags = flags;
        let ghost start = *f;
        let res = match self {
            Argument::Int(number) => {
                let res = match formatting {
                    Formatting::Display => f.write_integer_display(*number),
                    Formatting::Debug => f.write_integer_debug(*number),
                };
                proof {
                    lemma_wrote_one_part(start, *f, self.parts(formatting, flags)[0], res);
                    assert(self.parts(formatting, flags) =~= seq![
                        self.parts(formatting, flags)[0],
                    ]);
                }
                res
            },
            Argument::Str(text) => {
                let res = match formatting {
                    Formatting::Display => f.write_str(text),
                    Formatting::Debug => f.write_str_debug(text),
                };
                proof {
                    lemma_wrote_one_part(start, *f, self.parts(formatting, flags)[0], res);
                    assert(self.parts(formatting, flags) =~= seq![
                        self.parts(formatting, flags)[0],
                    ]);
                }
                res
            },
            Argument::Bool(value) => {
                let res = PWrapper(*value).const_display_fmt(f);
                proof {
                    lemma_wrote_one_part(start, *f, bool_text(*value), res);
                }
                res
            },
            Argument::Char(c) => {
                let res = match formatting {
                    Formatting::Display => PWrapper(*c).const_display_fmt(f),
                    Formatting::Debug => PWrapper(*c).const_debug_fmt(f),
                };
                proof {
                    lemma_wrote_one_part(start, *f, self.parts(formatting, flags)[0], res);
                    assert(self.parts(formatting, flags) =~= seq![
                        self.parts(formatting, flags)[0],
                    ]);
                }
                res
            },
            Argument::Range(range) => range.const_debug_fmt(f),
            Argument::RangeFrom(range) => range.const_debug_fmt(f),
            Argument::RangeTo(range) => range.const_debug_fmt(f),
            Argument::RangeToInclusive(range) => range.const_debug_fmt(f),
            Argument::RangeInclusive(range) => range.const_debug_fmt(f),
            Argument::RangeFull(range) => range.const_debug_fmt(f),
        };
        f.flags = kept;
        res
    }
}

} // verus!
