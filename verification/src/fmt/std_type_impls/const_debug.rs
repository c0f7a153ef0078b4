//! Debug formatting of the supported types through one interface. A type of the standard
//! library is handed to its wrapper, which has the methods.

use crate::fmt::error::Error;
use crate::fmt::formatter::{lemma_wrote_one_part, Formatter, FormattingLength};
use crate::fmt::std_type_impls::bool_text;
use crate::fmt::std_type_impls::ranges::{bound_text, dots_equals};
use crate::formatting::{integer_debug_text, FormattingFlags};
use crate::marker_traits::const_debug::ConstDebug;
use crate::marker_traits::type_kind::{IsStdKind, TypeKindMarker};
use crate::text::{modulus, quoted_char_text, quoted_text};
use crate::wrapper_types::pwrapper::PWrapper;
use core::ops::{Range, RangeFrom, RangeFull, RangeInclusive, RangeTo, RangeToInclusive};
use vstd::prelude::*;
use vstd::string::StringSliceAdditionalSpecFns;

verus! {

/// One part is its own text.
pub proof fn lemma_one_part(text: Seq<u8>)
    ensures
        seq![text].flatten() == text,
{
    reveal_with_fuel(Seq::flatten, 2);
    assert(seq![text].drop_first() =~= Seq::<Seq<u8>>::empty());
    assert(seq![text].flatten() =~= text);
}


impl ConstDebug for u8 {
    /// One part: the number in the base that the flags ask for.
    open spec fn debug_parts(&self, flags: FormattingFlags) -> Seq<Seq<u8>> {
        seq![integer_debug_text(*self as int, modulus(8), flags)]
    }

    fn const_debug_len(&self, f: &mut FormattingLength) {
        proof {
            lemma_one_part(integer_debug_text(*self as int, modulus(8), f.flags));
        }
        PWrapper(*self).const_debug_len(f)
    }

    fn const_debug_fmt<const N: usize>(&self, f: &mut Formatter<'_, N>) -> (res: Result<
        (),
        Error,
    >) {
        let res = PWrapper(*self).const_debug_fmt(f);
        proof {
            lemma_wrote_one_part(
                *old(f),
                *f,
                integer_debug_text(*self as int, modulus(8), f.flags),
                res,
            );
        }
        res
    }
}

impl ConstDebug for u16 {
    /// One part: the number in the base that the flags ask for.
    open spec fn debug_parts(&self, flags: FormattingFlags) -> Seq<Seq<u8>> {
        seq![integer_debug_text(*self as int, modulus(16), flags)]
    }

    fn const_debug_len(&self, f: &mut FormattingLength) {
        proof {
            lemma_one_part(integer_debug_text(*self as int, modulus(16), f.flags));
        }
        PWrapper(*self).const_debug_len(f)
    }

    fn const_debug_fmt<const N: usize>(&self, f: &mut Formatter<'_, N>) -> (res: Result<
        (),
        Error,
    >) {
        let res = PWrapper(*self).const_debug_fmt(f);
        proof {
            lemma_wrote_one_part(
                *old(f),
                *f,
                integer_debug_text(*self as int, modulus(16), f.flags),
                res,
            );
        }
        res
    }
}

impl ConstDebug for u32 {
    /// One part: the number in the base that the flags ask for.
    open spec fn debug_parts(&self, flags: FormattingFlags) -> Seq<Seq<u8>> {
        seq![integer_debug_text(*self as int, modulus(32), flags)]
    }

    fn const_debug_len(&self, f: &mut FormattingLength) {
        proof {
            lemma_one_part(integer_debug_text(*self as int, modulus(32), f.flags));
        }
        PWrapper(*self).const_debug_len(f)
    }

    fn const_debug_fmt<const N: usize>(&self, f: &mut Formatter<'_, N>) -> (res: Result<
        (),
        Error,
    >) {
        let res = PWrapper(*self).const_debug_fmt(f);
        proof {
            lemma_wrote_one_part(
                *old(f),
                *f,
                integer_debug_text(*self as int, modulus(32), f.flags),
                res,
            );
        }
        res
    }
}

impl ConstDebug for u64 {
    /// One part: the number in the base that the flags ask for.
    open spec fn debug_parts(&self, flags: FormattingFlags) -> Seq<Seq<u8>> {
        seq![integer_debug_text(*self as int, modulus(64), flags)]
    }

    fn const_debug_len(&self, f: &mut FormattingLength) {
        proof {
            lemma_one_part(integer_debug_text(*self as int, modulus(64), f.flags));
        }
        PWrapper(*self).const_debug_len(f)
    }

    fn const_debug_fmt<const N: usize>(&self, f: &mut Formatter<'_, N>) -> (res: Result<
        (),
        Error,
    >) {
        let res = PWrapper(*self).const_debug_fmt(f);
        proof {
            lemma_wrote_one_part(
                *old(f),
                *f,
                integer_debug_text(*self as int, modulus(64), f.flags),
                res,
            );
        }
        res
    }
}

impl ConstDebug for u128 {
    /// One part: the number in the base that the flags ask for.
    open spec fn debug_parts(&self, flags: FormattingFlags) -> Seq<Seq<u8>> {
        seq![integer_debug_text(*self as int, modulus(128), flags)]
    }

    fn const_debug_len(&self, f: &mut FormattingLength) {
        proof {
            lemma_one_part(integer_debug_text(*self as int, modulus(128), f.flags));
        }
        PWrapper(*self).const_debug_len(f)
    }

    fn const_debug_fmt<const N: usize>(&self, f: &mut Formatter<'_, N>) -> (res: Result<
        (),
        Error,
    >) {
        let res = PWrapper(*self).const_debug_fmt(f);
        proof {
            lemma_wrote_one_part(
                *old(f),
                *f,
                integer_debug_text(*self as int, modulus(128), f.flags),
                res,
            );
        }
        res
    }
}

impl ConstDebug for usize {
    /// One part: the number in the base that the flags ask for.
    open spec fn debug_parts(&self, flags: FormattingFlags) -> Seq<Seq<u8>> {
        seq![integer_debug_text(*self as int, usize::MAX + 1, flags)]
    }

    fn const_debug_len(&self, f: &mut FormattingLength) {
        proof {
            lemma_one_part(integer_debug_text(*self as int, usize::MAX + 1, f.flags));
        }
        PWrapper(*self).const_debug_len(f)
    }

    fn const_debug_fmt<const N: usize>(&self, f: &mut Formatter<'_, N>) -> (res: Result<
        (),
        Error,
    >) {
        let res = PWrapper(*self).const_debug_fmt(f);
        proof {
            lemma_wrote_one_part(
                *old(f),
                *f,
                integer_debug_text(*self as int, usize::MAX + 1, f.flags),
                res,
            );
        }
        res
    }
}

impl ConstDebug for i8 {
    /// One part: the number in the base that the flags ask for.
    open spec fn debug_parts(&self, flags: FormattingFlags) -> Seq<Seq<u8>> {
        seq![integer_debug_text(*self as int, modulus(8), flags)]
    }

    fn const_debug_len(&self, f: &mut FormattingLength) {
        proof {
            lemma_one_part(integer_debug_text(*self as int, modulus(8), f.flags));
        }
        PWrapper(*self).const_debug_len(f)
    }

    fn const_debug_fmt<const N: usize>(&self, f: &mut Formatter<'_, N>) -> (res: Result<
        (),
        Error,
    >) {
        let res = PWrapper(*self).const_debug_fmt(f);
        proof {
            lemma_wrote_one_part(
                *old(f),
                *f,
                integer_debug_text(*self as int, modulus(8), f.flags),
                res,
            );
        }
        res
    }
}

impl ConstDebug for i16 {
    /// One part: the number in the base that the flags ask for.
    open spec fn debug_parts(&self, flags: FormattingFlags) -> Seq<Seq<u8>> {
        seq![integer_debug_text(*self as int, modulus(16), flags)]
    }

    fn const_debug_len(&self, f: &mut FormattingLength) {
        proof {
            lemma_one_part(integer_debug_text(*self as int, modulus(16), f.flags));
        }
        PWrapper(*self).const_debug_len(f)
    }

    fn const_debug_fmt<const N: usize>(&self, f: &mut Formatter<'_, N>) -> (res: Result<
        (),
        Error,
    >) {
        let res = PWrapper(*self).const_debug_fmt(f);
        proof {
            lemma_wrote_one_part(
                *old(f),
                *f,
                integer_debug_text(*self as int, modulus(16), f.flags),
                res,
            );
        }
        res
    }
}

impl ConstDebug for i32 {
    /// One part: the number in the base that the flags ask for.
    open spec fn debug_parts(&self, flags: FormattingFlags) -> Seq<Seq<u8>> {
        seq![integer_debug_text(*self as int, modulus(32), flags)]
    }

    fn const_debug_len(&self, f: &mut FormattingLength) {
        proof {
            lemma_one_part(integer_debug_text(*self as int, modulus(32), f.flags));
        }
        PWrapper(*self).const_debug_len(f)
    }

    fn const_debug_fmt<const N: usize>(&self, f: &mut Formatter<'_, N>) -> (res: Result<
        (),
        Error,
    >) {
        let res = PWrapper(*self).const_debug_fmt(f);
        proof {
            lemma_wrote_one_part(
                *old(f),
                *f,
                integer_debug_text(*self as int, modulus(32), f.flags),
                res,
            );
        }
        res
    }
}

impl ConstDebug for i64 {
    /// One part: the number in the base that the flags ask for.
    open spec fn debug_parts(&self, flags: FormattingFlags) -> Seq<Seq<u8>> {
        seq![integer_debug_text(*self as int, modulus(64), flags)]
    }

    fn const_debug_len(&self, f: &mut FormattingLength) {
        proof {
            lemma_one_part(integer_debug_text(*self as int, modulus(64), f.flags));
        }
        PWrapper(*self).const_debug_len(f)
    }

    fn const_debug_fmt<const N: usize>(&self, f: &mut Formatter<'_, N>) -> (res: Result<
        (),
        Error,
    >) {
        let res = PWrapper(*self).const_debug_fmt(f);
        proof {
            lemma_wrote_one_part(
                *old(f),
                *f,
                integer_debug_text(*self as int, modulus(64), f.flags),
                res,
            );
        }
        res
    }
}

impl ConstDebug for i128 {
    /// One part: the number in the base that the flags ask for.
    open spec fn debug_parts(&self, flags: FormattingFlags) -> Seq<Seq<u8>> {
        seq![integer_debug_text(*self as int, modulus(128), flags)]
    }

    fn const_debug_len(&self, f: &mut FormattingLength) {
        proof {
            lemma_one_part(integer_debug_text(*self as int, modulus(128), f.flags));
        }
        PWrapper(*self).const_debug_len(f)
    }

    fn const_debug_fmt<const N: usize>(&self, f: &mut Formatter<'_, N>) -> (res: Result<
        (),
        Error,
    >) {
        let res = PWrapper(*self).const_debug_fmt(f);
        proof {
            lemma_wrote_one_part(
                *old(f),
                *f,
                integer_debug_text(*self as int, modulus(128), f.flags),
                res,
            );
        }
        res
    }
}

impl ConstDebug for isize {
    /// One part: the number in the base that the flags ask for.
    open spec fn debug_parts(&self, flags: FormattingFlags) -> Seq<Seq<u8>> {
        seq![integer_debug_text(*self as int, usize::MAX + 1, flags)]
    }

    fn const_debug_len(&self, f: &mut FormattingLength) {
        proof {
            lemma_one_part(integer_debug_text(*self as int, usize::MAX + 1, f.flags));
        }
        PWrapper(*self).const_debug_len(f)
    }

    fn const_debug_fmt<const N: usize>(&self, f: &mut Formatter<'_, N>) -> (res: Result<
        (),
        Error,
    >) {
        let res = PWrapper(*self).const_debug_fmt(f);
        proof {
            lemma_wrote_one_part(
                *old(f),
                *f,
                integer_debug_text(*self as int, usize::MAX + 1, f.flags),
                res,
            );
        }
        res
    }
}

impl ConstDebug for bool {
    /// One part: `true` or `false`.
    open spec fn debug_parts(&self, flags: FormattingFlags) -> Seq<Seq<u8>> {
        seq![bool_text(*self)]
    }

    fn const_debug_len(&self, f: &mut FormattingLength) {
        proof {
            lemma_one_part(bool_text(*self));
        }
        PWrapper(*self).const_debug_len(f)
    }

    fn const_debug_fmt<const N: usize>(&self, f: &mut Formatter<'_, N>) -> (res: Result<
        (),
        Error,
    >) {
        let res = PWrapper(*self).const_debug_fmt(f);
        proof {
            lemma_wrote_one_part(*old(f), *f, bool_text(*self), res);
        }
        res
    }
}

impl ConstDebug for char {
    /// One part: the character between single quotes and escaped.
    open spec fn debug_parts(&self, flags: FormattingFlags) -> Seq<Seq<u8>> {
        seq![quoted_char_text(*self)]
    }

    fn const_debug_len(&self, f: &mut FormattingLength) {
        proof {
            lemma_one_part(quoted_char_text(*self));
        }
        PWrapper(*self).const_debug_len(f)
    }

    fn const_debug_fmt<const N: usize>(&self, f: &mut Formatter<'_, N>) -> (res: Result<
        (),
        Error,
    >) {
        let res = PWrapper(*self).const_debug_fmt(f);
        proof {
            lemma_wrote_one_part(*old(f), *f, quoted_char_text(*self), res);
        }
        res
    }
}

impl ConstDebug for &str {
    /// One part: the string between quotes and escaped.
    open spec fn debug_parts(&self, flags: FormattingFlags) -> Seq<Seq<u8>> {
        seq![quoted_text(self.spec_bytes())]
    }

    fn const_debug_len(&self, f: &mut FormattingLength) {
        proof {
            lemma_one_part(quoted_text(self.spec_bytes()));
        }
        PWrapper(*self).const_debug_len(f)
    }

    fn const_debug_fmt<const N: usize>(&self, f: &mut Formatter<'_, N>) -> (res: Result<
        (),
        Error,
    >) {
        let res = PWrapper(*self).const_debug_fmt(f);
        proof {
            lemma_wrote_one_part(*old(f), *f, quoted_text(self.spec_bytes()), res);
        }
        res
    }
}

impl ConstDebug for Range<usize> {
    /// The parts of the range as its wrapper writes them.
    open spec fn debug_parts(&self, flags: FormattingFlags) -> Seq<Seq<u8>> {
        PWrapper(*self).debug_parts(flags)
    }

    fn const_debug_len(&self, f: &mut FormattingLength) {
        TypeKindMarker::<IsStdKind, Range<usize>, Range<usize>>::new().coerce(
            self,
        ).const_debug_len(f)
    }

    fn const_debug_fmt<const N: usize>(&self, f: &mut Formatter<'_, N>) -> (res: Result<
        (),
        Error,
    >) {
        TypeKindMarker::<IsStdKind, Range<usize>, Range<usize>>::new().coerce(
            self,
        ).const_debug_fmt(f)
    }
}

impl ConstDebug for RangeFrom<usize> {
    /// The parts of the range as its wrapper writes them.
    open spec fn debug_parts(&self, flags: FormattingFlags) -> Seq<Seq<u8>> {
        PWrapper(*self).debug_parts(flags)
    }

    fn const_debug_len(&self, f: &mut FormattingLength) {
        TypeKindMarker::<IsStdKind, RangeFrom<usize>, RangeFrom<usize>>::new().coerce(
            self,
        ).const_debug_len(f)
    }

    fn const_debug_fmt<const N: usize>(&self, f: &mut Formatter<'_, N>) -> (res: Result<
        (),
        Error,
    >) {
        TypeKindMarker::<IsStdKind, RangeFrom<usize>, RangeFrom<usize>>::new().coerce(
            self,
        ).const_debug_fmt(f)
    }
}

impl ConstDebug for RangeTo<usize> {
    /// The parts of the range as its wrapper writes them.
    open spec fn debug_parts(&self, flags: FormattingFlags) -> Seq<Seq<u8>> {
        PWrapper(*self).debug_parts(flags)
    }

    fn const_debug_len(&self, f: &mut FormattingLength) {
        TypeKindMarker::<IsStdKind, RangeTo<usize>, RangeTo<usize>>::new().coerce(
            self,
        ).const_debug_len(f)
    }

    fn const_debug_fmt<const N: usize>(&self, f: &mut Formatter<'_, N>) -> (res: Result<
        (),
        Error,
    >) {
        TypeKindMarker::<IsStdKind, RangeTo<usize>, RangeTo<usize>>::new().coerce(
            self,
        ).const_debug_fmt(f)
    }
}

impl ConstDebug for RangeToInclusive<usize> {
    /// The parts of the range as its wrapper writes them.
    open spec fn debug_parts(&self, flags: FormattingFlags) -> Seq<Seq<u8>> {
        PWrapper(*self).debug_parts(flags)
    }

    fn const_debug_len(&self, f: &mut FormattingLength) {
        TypeKindMarker::<IsStdKind, RangeToInclusive<usize>, RangeToInclusive<usize>>::new().coerce(
            self,
        ).const_debug_len(f)
    }

    fn const_debug_fmt<const N: usize>(&self, f: &mut Formatter<'_, N>) -> (res: Result<
        (),
        Error,
    >) {
        TypeKindMarker::<IsStdKind, RangeToInclusive<usize>, RangeToInclusive<usize>>::new().coerce(
            self,
        ).const_debug_fmt(f)
    }
}

impl ConstDebug for RangeFull {
    /// The parts of the range as its wrapper writes them.
    open spec fn debug_parts(&self, flags: FormattingFlags) -> Seq<Seq<u8>> {
        PWrapper(*self).debug_parts(flags)
    }

    fn const_debug_len(&self, f: &mut FormattingLength) {
        TypeKindMarker::<IsStdKind, RangeFull, RangeFull>::new().coerce(self).const_debug_len(f)
    }

    fn const_debug_fmt<const N: usize>(&self, f: &mut Formatter<'_, N>) -> (res: Result<
        (),
        Error,
    >) {
        TypeKindMarker::<IsStdKind, RangeFull, RangeFull>::new().coerce(self).const_debug_fmt(f)
    }
}

impl ConstDebug for RangeInclusive<usize> {
    /// The parts of the range as its wrapper writes them.
    open spec fn debug_parts(&self, flags: FormattingFlags) -> Seq<Seq<u8>> {
        seq![bound_text(self@.start, flags), dots_equals(), bound_text(self@.end, flags)]
    }

    fn const_debug_len(&self, f: &mut FormattingLength) {
        TypeKindMarker::<IsStdKind, RangeInclusive<usize>, RangeInclusive<usize>>::new().coerce(
            self,
        ).const_debug_len(f)
    }

    fn const_debug_fmt<const N: usize>(&self, f: &mut Formatter<'_, N>) -> (res: Result<
        (),
        Error,
    >) {
        TypeKindMarker::<IsStdKind, RangeInclusive<usize>, RangeInclusive<usize>>::new().coerce(
            self,
        ).const_debug_fmt(f)
    }
}

} // verus!
