//! The capability that debug formatting asks of a type: to say how long its text is, and
//! to write it.

use crate::fmt::error::Error;
use crate::fmt::formatter::{
    counted, lemma_capacity_boundary, wrote_in_turn, Formatter, FormattingLength,
};
use crate::formatting::FormattingFlags;
use vstd::prelude::*;

verus! {

/// A type whose values can be counted and written by debug formatting. The two passes
/// are held to one model of the text, so what the first counts is what the second
/// writes.
pub trait ConstDebug {
    /// The text of the value under `flags`, in the parts in which it is written.
    spec fn debug_parts(&self, flags: FormattingFlags) -> Seq<Seq<u8>>;

    /// Counts the text of the value under the flags of `f`.
    fn const_debug_len(&self, f: &mut FormattingLength)
        requires
            old(f).len + self.debug_parts(old(f).flags).flatten().len() <= usize::MAX,
        ensures
            counted(*old(f), *final(f), self.debug_parts(old(f).flags).flatten()),
    ;

    /// Writes the parts of the value in their order under the flags of `f`, and stops at
    /// the first that does not fit.
    fn const_debug_fmt<const N: usize>(&self, f: &mut Formatter<'_, N>) -> (res: Result<
        (),
        Error,
    >)
        ensures
            wrote_in_turn(*old(f), *final(f), self.debug_parts(old(f).flags), res),
            *final(final(f).writer) == *final(old(f).writer),
    ;
}

/// For a value of any type with the capability, under any flags: where the first pass
/// counted the value and the second wrote it, the writer has grown by exactly what the
/// count has grown.
pub proof fn lemma_length_is_written_length<T: ConstDebug, const N: usize>(
    value: &T,
    count_before: FormattingLength,
    count_after: FormattingLength,
    before: Formatter<'_, N>,
    after: Formatter<'_, N>,
    res: Result<(), Error>,
)
    requires
        count_before.flags == before.flags,
        counted(count_before, count_after, value.debug_parts(before.flags).flatten()),
        wrote_in_turn(before, after, value.debug_parts(before.flags), res),
        res is Ok,
    ensures
        after@.len() - before@.len() == count_after.len - count_before.len,
{
}

/// For a value of any type with the capability, under any flags: a writer with exactly
/// the room that was counted takes the value, and a writer with a byte less does not.
pub proof fn lemma_counted_room_is_needed<T: ConstDebug, const N: usize>(
    value: &T,
    count_before: FormattingLength,
    count_after: FormattingLength,
    before: Formatter<'_, N>,
    after: Formatter<'_, N>,
    res: Result<(), Error>,
)
    requires
        before@.len() <= N,
        count_before.flags == before.flags,
        counted(count_before, count_after, value.debug_parts(before.flags).flatten()),
        wrote_in_turn(before, after, value.debug_parts(before.flags), res),
    ensures
        N - before@.len() == count_after.len - count_before.len ==> res is Ok,
        N - before@.len() + 1 == count_after.len - count_before.len ==> res is Err,
{
    lemma_capacity_boundary(before, after, value.debug_parts(before.flags), res);
}

} // verus!
