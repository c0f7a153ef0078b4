//! Counting and writing the six range types of the standard library, with `usize` bounds.
//! A bound is written as debug formatting writes a `usize`, so the flags choose its base;
//! the dots between the bounds are always the same. Nothing asks that the start be below
//! the end: a range is written as it stands.

use crate::fmt::error::Error;
use crate::fmt::formatter::{
    counted, fitting_parts, lemma_wrote_one_part, wrote_in_turn, Formatter, FormattingLength,
};
use crate::formatting::{integer_debug_text, FormattingFlags};
use crate::marker_traits::type_kind::{GetTypeKind, IsStdKind, TypeKindMarker};
use crate::wrapper_types::pwrapper::PWrapper;
use core::ops::{Range, RangeFrom, RangeFull, RangeInclusive, RangeTo, RangeToInclusive};
use vstd::prelude::*;
use vstd::string::StringSliceAdditionalSpecFns;

verus! {

/// Makes `std::ops::RangeFrom` known, with its one public field `start`. Nothing is
/// claimed of the type beyond its definition.
#[verifier::external_type_specification]
#[verifier::reject_recursive_types(Idx)]
pub struct ExRangeFrom<Idx>(std::ops::RangeFrom<Idx>);

/// Makes `std::ops::RangeTo` known, with its one public field `end`. Nothing is claimed of
/// the type beyond its definition.
#[verifier::external_type_specification]
#[verifier::reject_recursive_types(Idx)]
pub struct ExRangeTo<Idx>(std::ops::RangeTo<Idx>);

/// Makes `std::ops::RangeToInclusive` known, with its one public field `end`. Nothing is
/// claimed of the type beyond its definition.
#[verifier::external_type_specification]
#[verifier::reject_recursive_types(Idx)]
pub struct ExRangeToInclusive<Idx>(std::ops::RangeToInclusive<Idx>);

/// Makes `std::ops::RangeFull` known, which has no fields.
#[verifier::external_type_specification]
pub struct ExRangeFull(std::ops::RangeFull);

/// `std::ops::RangeInclusive::start` returns a reference to the lower bound that the
/// range holds. Believed, not proved: the fields of the type are private.
pub assume_specification<Idx>[ std::ops::RangeInclusive::<Idx>::start ](
    bounds: &std::ops::RangeInclusive<Idx>,
) -> (lower: &Idx)
    ensures
        *lower == bounds@.start,
;

/// `std::ops::RangeInclusive::end` returns a reference to the upper bound that the range
/// holds. Believed, not proved: the fields of the type are private.
pub assume_specification<Idx>[ std::ops::RangeInclusive::<Idx>::end ](
    bounds: &std::ops::RangeInclusive<Idx>,
) -> (upper: &Idx)
    ensures
        *upper == bounds@.end,
;

/// The length of `..`.
pub const RANGE_LEN: usize = 2;

/// The length of `..=`.
pub const RANGE_INCLUSIVE_LEN: usize = 3;

/// A bound of a range as debug formatting writes it under `flags`.
pub open spec fn bound_text(bound: usize, flags: FormattingFlags) -> Seq<u8> {
    integer_debug_text(bound as int, usize::MAX + 1, flags)
}

/// The two dots of a range that ends before its upper bound, or has none.
pub open spec fn dots() -> Seq<u8> {
    seq![46u8, 46u8]
}

/// The two dots and the equals sign of a range that holds its upper bound.
pub open spec fn dots_equals() -> Seq<u8> {
    seq![46u8, 46u8, 61u8]
}

/// The bytes of the two separators.
proof fn lemma_separators()
    ensures
        "..".spec_bytes() == dots(),
        "..=".spec_bytes() == dots_equals(),
{
    reveal_strlit("..");
    reveal_strlit("..=");
    vstd::utf8::is_ascii_chars_encode_utf8(".."@);
    vstd::utf8::is_ascii_chars_encode_utf8("..="@);
    assert("..".spec_bytes() =~= dots());
    assert("..=".spec_bytes() =~= dots_equals());
}

/// Three parts written in turn, and what that comes to as a whole.
proof fn lemma_three_parts(len: nat, capacity: nat, a: Seq<u8>, b: Seq<u8>, c: Seq<u8>)
    ensures
        seq![a, b, c].flatten() == a + b + c,
        fitting_parts(len, capacity, seq![a, b, c]) == if len + a.len() > capacity {
            Seq::<u8>::empty()
        } else if len + a.len() + b.len() > capacity {
            a
        } else if len + a.len() + b.len() + c.len() > capacity {
            a + b
        } else {
            a + b + c
        },
{
    reveal_with_fuel(fitting_parts, 4);
    let parts = seq![a, b, c];
    assert(parts.drop_first() =~= seq![b, c]);
    assert(seq![b, c].drop_first() =~= seq![c]);
    assert(seq![c].drop_first() =~= Seq::<Seq<u8>>::empty());
    lemma_two_parts(len + a.len(), capacity, b, c);
    assert(parts.flatten() =~= a + b + c) by {
        reveal_with_fuel(Seq::flatten, 4);
    }
    assert(a + (b + c) =~= a + b + c);
    assert(a + b =~= a + b + Seq::<u8>::empty());
}

/// Two parts written in turn, and what that comes to as a whole.
proof fn lemma_two_parts(len: nat, capacity: nat, a: Seq<u8>, b: Seq<u8>)
    ensures
        seq![a, b].flatten() == a + b,
        fitting_parts(len, capacity, seq![a, b]) == if len + a.len() > capacity {
            Seq::<u8>::empty()
        } else if len + a.len() + b.len() > capacity {
            a
        } else {
            a + b
        },
{
    reveal_with_fuel(fitting_parts, 3);
    let parts = seq![a, b];
    assert(parts.drop_first() =~= seq![b]);
    assert(seq![b].drop_first() =~= Seq::<Seq<u8>>::empty());
    assert(parts.flatten() =~= a + b) by {
        reveal_with_fuel(Seq::flatten, 3);
    }
    assert(a =~= a + Seq::<u8>::empty());
    assert(b =~= b + Seq::<u8>::empty());
}

impl GetTypeKind for Range<usize> {
    type Kind = IsStdKind;

    type This = Self;
}

impl<T> TypeKindMarker<IsStdKind, Range<usize>, T> {
    /// A range is formatted through the wrapper of a copy of it.
    pub fn coerce(self, range: &Range<usize>) -> (wrapped: PWrapper<Range<usize>>)
        ensures
            wrapped.0 == *range,
    {
        PWrapper(Range { start: range.start, end: range.end })
    }
}

impl PWrapper<Range<usize>> {
    /// The start, two dots, the end.
    pub open spec fn debug_parts(self, flags: FormattingFlags) -> Seq<Seq<u8>> {
        seq![bound_text(self.0.start, flags), dots(), bound_text(self.0.end, flags)]
    }

    /// The range as debug formatting writes it under `flags`: its parts one after the
    /// other.
    pub open spec fn debug_text(self, flags: FormattingFlags) -> Seq<u8> {
        self.debug_parts(flags).flatten()
    }

    /// Counts the parts of the range under the flags of `f`.
    pub fn const_debug_len(&self, f: &mut FormattingLength)
        requires
            old(f).len + self.debug_text(old(f).flags).len() <= usize::MAX,
        ensures
            counted(*old(f), *final(f), self.debug_text(old(f).flags)),
    {
        proof {
            lemma_three_parts(
                0,
                0,
                bound_text(self.0.start, f.flags),
                dots(),
                bound_text(self.0.end, f.flags),
            );
        }
        PWrapper(self.0.start).const_debug_len(f);
        f.add_len(RANGE_LEN);
        PWrapper(self.0.end).const_debug_len(f);
    }

    /// Writes the parts of the range in their order under the flags of `f`, and stops at
    /// the first that does not fit.
    pub fn const_debug_fmt<const N: usize>(&self, f: &mut Formatter<'_, N>) -> (res: Result<
        (),
        Error,
    >)
        ensures
            wrote_in_turn(*old(f), *final(f), self.debug_parts(old(f).flags), res),
            *final(final(f).writer) == *final(old(f).writer),
    {
        proof {
            lemma_separators();
            lemma_three_parts(
                f.writer@.len(),
                N as nat,
                bound_text(self.0.start, f.flags),
                dots(),
                bound_text(self.0.end, f.flags),
            );
        }
        match PWrapper(self.0.start).const_debug_fmt(f) {
            Ok(()) => {},
            Err(e) => {
                proof {
                    assert(f.writer@ =~= old(f).writer@ + fitting_parts(
                        old(f).writer@.len(),
                        N as nat,
                        self.debug_parts(f.flags),
                    ));
                }
                return Err(e);
            },
        }
        match PWrapper("..").const_display_fmt(f) {
            Ok(()) => {},
            Err(e) => {
                proof {
                    assert(f.writer@ =~= old(f).writer@ + fitting_parts(
                        old(f).writer@.len(),
                        N as nat,
                        self.debug_parts(f.flags),
                    ));
                }
                return Err(e);
            },
        }
        match PWrapper(self.0.end).const_debug_fmt(f) {
            Ok(()) => {},
            Err(e) => {
                proof {
                    assert(f.writer@ =~= old(f).writer@ + fitting_parts(
                        old(f).writer@.len(),
                        N as nat,
                        self.debug_parts(f.flags),
                    ));
                }
                return Err(e);
            },
        }
        proof {
            assert(f.writer@ =~= old(f).writer@ + self.debug_parts(f.flags).flatten());
        }
        Ok(())
    }
}

impl GetTypeKind for RangeFrom<usize> {
    type Kind = IsStdKind;

    type This = Self;
}

impl<T> TypeKindMarker<IsStdKind, RangeFrom<usize>, T> {
    /// A range is formatted through the wrapper of a copy of it.
    pub fn coerce(self, range: &RangeFrom<usize>) -> (wrapped: PWrapper<RangeFrom<usize>>)
        ensures
            wrapped.0 == *range,
    {
        PWrapper(RangeFrom { start: range.start })
    }
}

impl PWrapper<RangeFrom<usize>> {
    /// The start, two dots.
    pub open spec fn debug_parts(self, flags: FormattingFlags) -> Seq<Seq<u8>> {
        seq![bound_text(self.0.start, flags), dots()]
    }

    /// The range as debug formatting writes it under `flags`: its parts one after the
    /// other.
    pub open spec fn debug_text(self, flags: FormattingFlags) -> Seq<u8> {
        self.debug_parts(flags).flatten()
    }

    /// Counts the parts of the range under the flags of `f`.
    pub fn const_debug_len(&self, f: &mut FormattingLength)
        requires
            old(f).len + self.debug_text(old(f).flags).len() <= usize::MAX,
        ensures
            counted(*old(f), *final(f), self.debug_text(old(f).flags)),
    {
        proof {
            lemma_two_parts(0, 0, bound_text(self.0.start, f.flags), dots());
        }
        PWrapper(self.0.start).const_debug_len(f);
        f.add_len(RANGE_LEN);
    }

    /// Writes the parts of the range in their order under the flags of `f`, and stops at
    /// the first that does not fit.
    pub fn const_debug_fmt<const N: usize>(&self, f: &mut Formatter<'_, N>) -> (res: Result<
        (),
        Error,
    >)
        ensures
            wrote_in_turn(*old(f), *final(f), self.debug_parts(old(f).flags), res),
            *final(final(f).writer) == *final(old(f).writer),
    {
        proof {
            lemma_separators();
            lemma_two_parts(f.writer@.len(), N as nat, bound_text(self.0.start, f.flags), dots());
        }
        match PWrapper(self.0.start).const_debug_fmt(f) {
            Ok(()) => {},
            Err(e) => {
                proof {
                    assert(f.writer@ =~= old(f).writer@ + fitting_parts(
                        old(f).writer@.len(),
                        N as nat,
                        self.debug_parts(f.flags),
                    ));
                }
                return Err(e);
            },
        }
        match PWrapper("..").const_display_fmt(f) {
            Ok(()) => {},
            Err(e) => {
                proof {
                    assert(f.writer@ =~= old(f).writer@ + fitting_parts(
                        old(f).writer@.len(),
                        N as nat,
                        self.debug_parts(f.flags),
                    ));
                }
                return Err(e);
            },
        }
        proof {
            assert(f.writer@ =~= old(f).writer@ + self.debug_parts(f.flags).flatten());
        }
        Ok(())
    }
}

impl GetTypeKind for RangeTo<usize> {
    type Kind = IsStdKind;

    type This = Self;
}

impl<T> TypeKindMarker<IsStdKind, RangeTo<usize>, T> {
    /// A range is formatted through the wrapper of a copy of it.
    pub fn coerce(self, range: &RangeTo<usize>) -> (wrapped: PWrapper<RangeTo<usize>>)
        ensures
            wrapped.0 == *range,
    {
        PWrapper(RangeTo { end: range.end })
    }
}

impl PWrapper<RangeTo<usize>> {
    /// Two dots, the end.
    pub open spec fn debug_parts(self, flags: FormattingFlags) -> Seq<Seq<u8>> {
        seq![dots(), bound_text(self.0.end, flags)]
    }

    /// The range as debug formatting writes it under `flags`: its parts one after the
    /// other.
    pub open spec fn debug_text(self, flags: FormattingFlags) -> Seq<u8> {
        self.debug_parts(flags).flatten()
    }

    /// Counts the parts of the range under the flags of `f`.
    pub fn const_debug_len(&self, f: &mut FormattingLength)
        requires
            old(f).len + self.debug_text(old(f).flags).len() <= usize::MAX,
        ensures
            counted(*old(f), *final(f), self.debug_text(old(f).flags)),
    {
        proof {
            lemma_two_parts(0, 0, dots(), bound_text(self.0.end, f.flags));
        }
        f.add_len(RANGE_LEN);
        PWrapper(self.0.end).const_debug_len(f);
    }

    /// Writes the parts of the range in their order under the flags of `f`, and stops at
    /// the first that does not fit.
    pub fn const_debug_fmt<const N: usize>(&self, f: &mut Formatter<'_, N>) -> (res: Result<
        (),
        Error,
    >)
        ensures
            wrote_in_turn(*old(f), *final(f), self.debug_parts(old(f).flags), res),
            *final(final(f).writer) == *final(old(f).writer),
    {
        proof {
            lemma_separators();
            lemma_two_parts(f.writer@.len(), N as nat, dots(), bound_text(self.0.end, f.flags));
        }
        match PWrapper("..").const_display_fmt(f) {
            Ok(()) => {},
            Err(e) => {
                proof {
                    assert(f.writer@ =~= old(f).writer@ + fitting_parts(
                        old(f).writer@.len(),
                        N as nat,
                        self.debug_parts(f.flags),
                    ));
                }
                return Err(e);
            },
        }
        match PWrapper(self.0.end).const_debug_fmt(f) {
            Ok(()) => {},
            Err(e) => {
                proof {
                    assert(f.writer@ =~= old(f).writer@ + fitting_parts(
                        old(f).writer@.len(),
                        N as nat,
                        self.debug_parts(f.flags),
                    ));
                }
                return Err(e);
            },
        }
        proof {
            assert(f.writer@ =~= old(f).writer@ + self.debug_parts(f.flags).flatten());
        }
        Ok(())
    }
}

impl GetTypeKind for RangeToInclusive<usize> {
    type Kind = IsStdKind;

    type This = Self;
}

impl<T> TypeKindMarker<IsStdKind, RangeToInclusive<usize>, T> {
    /// A range is formatted through the wrapper of a copy of it.
    pub fn coerce(self, range: &RangeToInclusive<usize>) -> (wrapped: PWrapper<
        RangeToInclusive<usize>,
    >)
        ensures
            wrapped.0 == *range,
    {
        PWrapper(RangeToInclusive { end: range.end })
    }
}

impl PWrapper<RangeToInclusive<usize>> {
    /// Two dots and an equals sign, the end.
    pub open spec fn debug_parts(self, flags: FormattingFlags) -> Seq<Seq<u8>> {
        seq![dots_equals(), bound_text(self.0.end, flags)]
    }

    /// The range as debug formatting writes it under `flags`: its parts one after the
    /// other.
    pub open spec fn debug_text(self, flags: FormattingFlags) -> Seq<u8> {
        self.debug_parts(flags).flatten()
    }

    /// Counts the parts of the range under the flags of `f`.
    pub fn const_debug_len(&self, f: &mut FormattingLength)
        requires
            old(f).len + self.debug_text(old(f).flags).len() <= usize::MAX,
        ensures
            counted(*old(f), *final(f), self.debug_text(old(f).flags)),
    {
        proof {
            lemma_two_parts(0, 0, dots_equals(), bound_text(self.0.end, f.flags));
        }
        f.add_len(RANGE_INCLUSIVE_LEN);
        PWrapper(self.0.end).const_debug_len(f);
    }

    /// Writes the parts of the range in their order under the flags of `f`, and stops at
    /// the first that does not fit.
    pub fn const_debug_fmt<const N: usize>(&self, f: &mut Formatter<'_, N>) -> (res: Result<
        (),
        Error,
    >)
        ensures
            wrote_in_turn(*old(f), *final(f), self.debug_parts(old(f).flags), res),
            *final(final(f).writer) == *final(old(f).writer),
    {
        proof {
            lemma_separators();
            lemma_two_parts(
                f.writer@.len(),
                N as nat,
                dots_equals(),
                bound_text(self.0.end, f.flags),
            );
        }
        match PWrapper("..=").const_display_fmt(f) {
            Ok(()) => {},
            Err(e) => {
                proof {
                    assert(f.writer@ =~= old(f).writer@ + fitting_parts(
                        old(f).writer@.len(),
                        N as nat,
                        self.debug_parts(f.flags),
                    ));
                }
                return Err(e);
            },
        }
        match PWrapper(self.0.end).const_debug_fmt(f) {
            Ok(()) => {},
            Err(e) => {
                proof {
                    assert(f.writer@ =~= old(f).writer@ + fitting_parts(
                        old(f).writer@.len(),
                        N as nat,
                        self.debug_parts(f.flags),
                    ));
                }
                return Err(e);
            },
        }
        proof {
            assert(f.writer@ =~= old(f).writer@ + self.debug_parts(f.flags).flatten());
        }
        Ok(())
    }
}

impl GetTypeKind for RangeInclusive<usize> {
    type Kind = IsStdKind;

    type This = Self;
}

impl<T> TypeKindMarker<IsStdKind, RangeInclusive<usize>, T> {
    /// A range is formatted through the wrapper of a new range with the same bounds.
    pub fn coerce(self, range: &RangeInclusive<usize>) -> (wrapped: PWrapper<RangeInclusive<usize>>)
        ensures
            wrapped.0@.start == range@.start,
            wrapped.0@.end == range@.end,
    {
        PWrapper(RangeInclusive::new(*range.start(), *range.end()))
    }
}

impl PWrapper<RangeInclusive<usize>> {
    /// The start, two dots and an equals sign, the end.
    pub open spec fn debug_parts(self, flags: FormattingFlags) -> Seq<Seq<u8>> {
        seq![bound_text(self.0@.start, flags), dots_equals(), bound_text(self.0@.end, flags)]
    }

    /// The range as debug formatting writes it under `flags`: its parts one after the
    /// other.
    pub open spec fn debug_text(self, flags: FormattingFlags) -> Seq<u8> {
        self.debug_parts(flags).flatten()
    }

    /// Counts the parts of the range under the flags of `f`.
    pub fn const_debug_len(&self, f: &mut FormattingLength)
        requires
            old(f).len + self.debug_text(old(f).flags).len() <= usize::MAX,
        ensures
            counted(*old(f), *final(f), self.debug_text(old(f).flags)),
    {
        proof {
            lemma_three_parts(
                0,
                0,
                bound_text(self.0@.start, f.flags),
                dots_equals(),
                bound_text(self.0@.end, f.flags),
            );
        }
        PWrapper(*self.0.start()).const_debug_len(f);
        f.add_len(RANGE_INCLUSIVE_LEN);
        PWrapper(*self.0.end()).const_debug_len(f);
    }

    /// Writes the parts of the range in their order under the flags of `f`, and stops at
    /// the first that does not fit.
    pub fn const_debug_fmt<const N: usize>(&self, f: &mut Formatter<'_, N>) -> (res: Result<
        (),
        Error,
    >)
        ensures
            wrote_in_turn(*old(f), *final(f), self.debug_parts(old(f).flags), res),
            *final(final(f).writer) == *final(old(f).writer),
    {
        proof {
            lemma_separators();
            lemma_three_parts(
                f.writer@.len(),
                N as nat,
                bound_text(self.0@.start, f.flags),
                dots_equals(),
                bound_text(self.0@.end, f.flags),
            );
        }
        match PWrapper(*self.0.start()).const_debug_fmt(f) {
            Ok(()) => {},
            Err(e) => {
                proof {
                    assert(f.writer@ =~= old(f).writer@ + fitting_parts(
                        old(f).writer@.len(),
                        N as nat,
                        self.debug_parts(f.flags),
                    ));
                }
                return Err(e);
            },
        }
        match PWrapper("..=").const_display_fmt(f) {
            Ok(()) => {},
            Err(e) => {
                proof {
                    assert(f.writer@ =~= old(f).writer@ + fitting_parts(
                        old(f).writer@.len(),
                        N as nat,
                        self.debug_parts(f.flags),
                    ));
                }
                return Err(e);
            },
        }
        match PWrapper(*self.0.end()).const_debug_fmt(f) {
            Ok(()) => {},
            Err(e) => {
                proof {
                    assert(f.writer@ =~= old(f).writer@ + fitting_parts(
                        old(f).writer@.len(),
                        N as nat,
                        self.debug_parts(f.flags),
                    ));
                }
                return Err(e);
            },
        }
        proof {
            assert(f.writer@ =~= old(f).writer@ + self.debug_parts(f.flags).flatten());
        }
        Ok(())
    }
}

impl GetTypeKind for RangeFull {
    type Kind = IsStdKind;

    type This = Self;
}

impl<T> TypeKindMarker<IsStdKind, RangeFull, T> {
    /// The full range has nothing to copy.
    pub fn coerce(self, range: &RangeFull) -> (wrapped: PWrapper<RangeFull>)
        ensures
            wrapped.0 == *range,
    {
        PWrapper(RangeFull)
    }
}

impl PWrapper<RangeFull> {
    /// Two dots.
    pub open spec fn debug_parts(self, flags: FormattingFlags) -> Seq<Seq<u8>> {
        seq![dots()]
    }

    /// The range as debug formatting writes it under `flags`: its parts one after the
    /// other.
    pub open spec fn debug_text(self, flags: FormattingFlags) -> Seq<u8> {
        self.debug_parts(flags).flatten()
    }

    /// Counts the parts of the range under the flags of `f`.
    pub fn const_debug_len(&self, f: &mut FormattingLength)
        requires
            old(f).len + self.debug_text(old(f).flags).len() <= usize::MAX,
        ensures
            counted(*old(f), *final(f), self.debug_text(old(f).flags)),
    {
        proof {
            assert(self.debug_parts(f.flags).flatten() =~= dots()) by {
                reveal_with_fuel(Seq::flatten, 2);
                assert(self.debug_parts(f.flags).drop_first() =~= Seq::<Seq<u8>>::empty());
            }
        }
        f.add_len(RANGE_LEN);
    }

    /// Writes the two dots, whatever the flags of `f`.
    pub fn const_debug_fmt<const N: usize>(&self, f: &mut Formatter<'_, N>) -> (res: Result<
        (),
        Error,
    >)
        ensures
            wrote_in_turn(*old(f), *final(f), self.debug_parts(old(f).flags), res),
            *final(final(f).writer) == *final(old(f).writer),
    {
        proof {
            lemma_separators();
        }
        let res = PWrapper("..").const_display_fmt(f);
        proof {
            lemma_wrote_one_part(*old(f), *f, dots(), res);
        }
        res
    }
}

} // verus!
