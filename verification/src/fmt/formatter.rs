//! The two passes of formatting: a length that is added up, and a formatter that writes
//! into a borrowed writer. What a write does is said once here, for text that is written
//! whole and for values that are written part after part.

use crate::fmt::error::Error;
use crate::fmt::str_writer::StrWriter;
use crate::formatting::{FormattingFlags, FormattingMode};
use crate::pargument::Integer;
use crate::text::{lemma_number_text_utf8, quoted_text};
use crate::wrapper_types::pwrapper::PWrapper;
use vstd::prelude::*;
use vstd::string::StringSliceAdditionalSpecFns;

verus! {

/// The first pass of formatting: adds up the lengths of what the second pass will write,
/// under the same flags.
pub struct FormattingLength {
    pub flags: FormattingFlags,
    pub len: usize,
}

impl FormattingLength {
    /// A length of zero under `flags`.
    pub fn new(flags: FormattingFlags) -> (length: Self)
        ensures
            length.flags == flags,
            length.len == 0,
    {
        FormattingLength { flags, len: 0 }
    }

    pub fn flags(&self) -> (flags: FormattingFlags)
        ensures
            flags == self.flags,
    {
        self.flags
    }

    pub fn len(&self) -> (len: usize)
        ensures
            len == self.len,
    {
        self.len
    }

    /// Counts `len` more bytes.
    pub fn add_len(&mut self, len: usize)
        requires
            old(self).len + len <= usize::MAX,
        ensures
            final(self).flags == old(self).flags,
            final(self).len == old(self).len + len,
    {
        self.len += len;
    }
}

/// What counting `text` does: its length is added, and the flags stay.
pub open spec fn counted(before: FormattingLength, after: FormattingLength, text: Seq<u8>) -> bool {
    &&& after.flags == before.flags
    &&& after.len == before.len + text.len()
}

/// The second pass of formatting: a writer, borrowed for the pass, and the flags under
/// which values are written into it.
///
/// What is written through the formatter is in the writer once the formatter is gone.
/// For that to be known, every function that takes a formatter by `&mut` says in its
/// last clause that the formatter borrows the same writer afterwards as before.
pub struct Formatter<'w, const N: usize> {
    pub flags: FormattingFlags,
    pub writer: &'w mut StrWriter<N>,
}

impl<'w, const N: usize> Formatter<'w, N> {
    /// The text in the writer of the formatter.
    pub open spec fn view(&self) -> Seq<u8> {
        self.writer@
    }
}

/// What one write through a formatter does: the text is appended whole when it fits and
/// the writer is left alone when it does not, and the flags stay.
pub open spec fn wrote<const N: usize>(
    before: Formatter<'_, N>,
    after: Formatter<'_, N>,
    text: Seq<u8>,
    res: Result<(), Error>,
) -> bool {
    &&& after.flags == before.flags
    &&& res is Ok <==> before.writer@.len() + text.len() <= N
    &&& res is Ok ==> after.writer@ == before.writer@ + text
    &&& res is Err ==> after.writer@ == before.writer@
}

/// What is appended when `parts` are written one after the other into a writer that
/// holds `len` bytes of `capacity`, each part whole and none after the first that does not
/// fit.
pub open spec fn fitting_parts(len: nat, capacity: nat, parts: Seq<Seq<u8>>) -> Seq<u8>
    decreases parts.len(),
{
    if parts.len() == 0 || len + parts[0].len() > capacity {
        Seq::<u8>::empty()
    } else {
        parts[0] + fitting_parts(len + parts[0].len(), capacity, parts.drop_first())
    }
}

/// What writing a value of several parts does: the parts are written in their order, and
/// the first that does not fit ends the writing with an error. What was written before it
/// stays in the writer.
pub open spec fn wrote_in_turn<const N: usize>(
    before: Formatter<'_, N>,
    after: Formatter<'_, N>,
    parts: Seq<Seq<u8>>,
    res: Result<(), Error>,
) -> bool {
    &&& after.flags == before.flags
    &&& res is Ok <==> before.writer@.len() + parts.flatten().len() <= N
    &&& res is Ok ==> after.writer@ == before.writer@ + parts.flatten()
    &&& after.writer@ == before.writer@ + fitting_parts(before.writer@.len(), N as nat, parts)
}

/// Parts written in turn, split in two: where the first parts all fit, the second ones
/// follow behind them; where they do not, the second ones are never reached.
pub proof fn lemma_fitting_parts_concat(
    len: nat,
    capacity: nat,
    first: Seq<Seq<u8>>,
    second: Seq<Seq<u8>>,
)
    ensures
        (first + second).flatten() == first.flatten() + second.flatten(),
        len + first.flatten().len() <= capacity ==> fitting_parts(len, capacity, first)
            == first.flatten() && fitting_parts(len, capacity, first + second) == first.flatten()
            + fitting_parts(len + first.flatten().len(), capacity, second),
        len + first.flatten().len() > capacity ==> fitting_parts(len, capacity, first + second)
            == fitting_parts(len, capacity, first),
    decreases first.len(),
{
    vstd::seq_lib::lemma_flatten_concat(first, second);
    if first.len() == 0 {
        assert(first + second =~= second);
        assert(first.flatten() =~= Seq::<u8>::empty());
        assert(first.flatten() + fitting_parts(len, capacity, second) =~= fitting_parts(
            len,
            capacity,
            second,
        ));
    } else {
        let head = first[0];
        let tail = first.drop_first();
        assert((first + second).drop_first() =~= tail + second);
        assert((first + second)[0] == head);
        assert(first.flatten() == head + tail.flatten());
        if len + head.len() <= capacity {
            lemma_fitting_parts_concat(len + head.len(), capacity, tail, second);
            if len + first.flatten().len() <= capacity {
                assert(fitting_parts(len, capacity, first) =~= first.flatten());
                assert(fitting_parts(len, capacity, first + second) =~= first.flatten()
                    + fitting_parts(len + first.flatten().len(), capacity, second));
            }
        }
    }
}

/// A write of one part is a write of parts in turn.
pub proof fn lemma_wrote_one_part<const N: usize>(
    before: Formatter<'_, N>,
    after: Formatter<'_, N>,
    text: Seq<u8>,
    res: Result<(), Error>,
)
    requires
        wrote(before, after, text, res),
    ensures
        wrote_in_turn(before, after, seq![text], res),
{
    reveal_with_fuel(fitting_parts, 2);
    reveal_with_fuel(Seq::flatten, 2);
    assert(seq![text].drop_first() =~= Seq::<Seq<u8>>::empty());
    assert(seq![text].flatten() =~= text);
    assert(text + Seq::<u8>::empty() =~= text);
    assert(before.writer@ + Seq::<u8>::empty() =~= before.writer@);
}

/// Two writes of parts in turn, the second after the first went through, are one write
/// of all the parts in turn.
pub proof fn lemma_wrote_in_turn_then<const N: usize>(
    before: Formatter<'_, N>,
    between: Formatter<'_, N>,
    after: Formatter<'_, N>,
    first: Seq<Seq<u8>>,
    second: Seq<Seq<u8>>,
    res: Result<(), Error>,
)
    requires
        wrote_in_turn(before, between, first, Ok(())),
        wrote_in_turn(between, after, second, res),
    ensures
        wrote_in_turn(before, after, first + second, res),
{
    lemma_fitting_parts_concat(before.writer@.len(), N as nat, first, second);
    assert(before.writer@ + first.flatten() + second.flatten() =~= before.writer@ + (
    first.flatten() + second.flatten()));
    assert(before.writer@ + first.flatten() + fitting_parts(
        between.writer@.len(),
        N as nat,
        second,
    ) =~= before.writer@ + (first.flatten() + fitting_parts(
        between.writer@.len(),
        N as nat,
        second,
    )));
}

/// A write of parts in turn that failed is also the failed write of these parts and any
/// more behind them.
pub proof fn lemma_wrote_in_turn_stopped<const N: usize>(
    before: Formatter<'_, N>,
    after: Formatter<'_, N>,
    first: Seq<Seq<u8>>,
    second: Seq<Seq<u8>>,
    res: Result<(), Error>,
)
    requires
        wrote_in_turn(before, after, first, res),
        res is Err,
    ensures
        wrote_in_turn(before, after, first + second, res),
{
    lemma_fitting_parts_concat(before.writer@.len(), N as nat, first, second);
}

/// The two passes agree: where the first pass counted a text and the second wrote it, the
/// writer has grown by what the count has grown.
pub proof fn lemma_counted_is_written<const N: usize>(
    count_before: FormattingLength,
    count_after: FormattingLength,
    before: Formatter<'_, N>,
    after: Formatter<'_, N>,
    parts: Seq<Seq<u8>>,
    res: Result<(), Error>,
)
    requires
        counted(count_before, count_after, parts.flatten()),
        wrote_in_turn(before, after, parts, res),
        res is Ok,
    ensures
        after@.len() - before@.len() == count_after.len - count_before.len,
{
}

/// The two passes agree on text that is written whole: where the first pass counted it
/// and the second wrote it, the writer has grown by what the count has grown.
pub proof fn lemma_counted_is_written_whole<const N: usize>(
    count_before: FormattingLength,
    count_after: FormattingLength,
    before: Formatter<'_, N>,
    after: Formatter<'_, N>,
    text: Seq<u8>,
    res: Result<(), Error>,
)
    requires
        counted(count_before, count_after, text),
        wrote(before, after, text, res),
        res is Ok,
    ensures
        after@.len() - before@.len() == count_after.len - count_before.len,
{
}

/// Whether writing `parts` in turn stops at part `k`: the parts before it are what gets
/// written, and part `k` does not fit behind them.
pub open spec fn stops_at(len: nat, capacity: nat, parts: Seq<Seq<u8>>, k: int) -> bool {
    &&& 0 <= k < parts.len()
    &&& parts.take(k).flatten() == fitting_parts(len, capacity, parts)
    &&& len + parts.take(k).flatten().len() + parts[k].len() > capacity
}

/// Parts that do not all fit stop at one of them.
pub proof fn lemma_fitting_parts_stop(len: nat, capacity: nat, parts: Seq<Seq<u8>>)
    requires
        len <= capacity,
        len + parts.flatten().len() > capacity,
    ensures
        exists|k: int| stops_at(len, capacity, parts, k),
    decreases parts.len(),
{
    if parts.len() == 0 {
        assert(parts.flatten() =~= Seq::<u8>::empty());
    } else if len + parts[0].len() > capacity {
        assert(parts.take(0) =~= Seq::<Seq<u8>>::empty());
        assert(parts.take(0).flatten() =~= Seq::<u8>::empty());
        assert(stops_at(len, capacity, parts, 0));
    } else {
        let tail = parts.drop_first();
        assert(parts.flatten() == parts[0] + tail.flatten());
        let longer = len + parts[0].len();
        lemma_fitting_parts_stop(longer, capacity, tail);
        let j = choose|j: int| stops_at(longer, capacity, tail, j);
        assert(parts.take(j + 1) =~= seq![parts[0]] + tail.take(j));
        vstd::seq_lib::lemma_flatten_concat(seq![parts[0]], tail.take(j));
        assert(seq![parts[0]].flatten() =~= parts[0]) by {
            reveal_with_fuel(Seq::flatten, 2);
            assert(seq![parts[0]].drop_first() =~= Seq::<Seq<u8>>::empty());
        }
        assert(tail[j] == parts[j + 1]);
        assert(stops_at(len, capacity, parts, j + 1));
    }
}

/// The boundary of the capacity: a write into a writer that has exactly the room that the
/// text takes goes through, and a write into one that has a byte less fails. A failed
/// write leaves the writer where the part that did not fit would have begun; for a value
/// of one part that is where it was.
pub proof fn lemma_capacity_boundary<const N: usize>(
    before: Formatter<'_, N>,
    after: Formatter<'_, N>,
    parts: Seq<Seq<u8>>,
    res: Result<(), Error>,
)
    requires
        before@.len() <= N,
        wrote_in_turn(before, after, parts, res),
    ensures
        before@.len() + parts.flatten().len() == N ==> res is Ok && after@.len() == N,
        before@.len() + parts.flatten().len() == N + 1 ==> res is Err,
        res is Err ==> exists|k: int|
            #[trigger] stops_at(before@.len(), N as nat, parts, k) && after@ == before@
                + parts.take(k).flatten(),
        res is Err && parts.len() == 1 ==> after@ == before@,
{
    if res is Err {
        let len = before@.len();
        let capacity = N as nat;
        lemma_fitting_parts_stop(len, capacity, parts);
        let k = choose|k: int| stops_at(len, capacity, parts, k);
        assert(stops_at(before@.len(), N as nat, parts, k) && after@ == before@ + parts.take(
            k,
        ).flatten());
        if parts.len() == 1 {
            assert(parts.take(0) =~= Seq::<Seq<u8>>::empty());
            assert(parts.take(0).flatten() =~= Seq::<u8>::empty());
            assert(before@ + Seq::<u8>::empty() =~= before@);
        }
    }
}

/// A writer that was cleared is as good as a new one: the same writes do the same to
/// both, whatever the cleared one held before.
pub proof fn lemma_cleared_as_new<const N: usize>(
    cleared: Formatter<'_, N>,
    cleared_after: Formatter<'_, N>,
    new: Formatter<'_, N>,
    new_after: Formatter<'_, N>,
    parts: Seq<Seq<u8>>,
    cleared_res: Result<(), Error>,
    new_res: Result<(), Error>,
)
    requires
        cleared@ == Seq::<u8>::empty(),
        new@ == Seq::<u8>::empty(),
        wrote_in_turn(cleared, cleared_after, parts, cleared_res),
        wrote_in_turn(new, new_after, parts, new_res),
    ensures
        cleared_after@ == new_after@,
        cleared_res is Ok <==> new_res is Ok,
{
}

impl<'w, const N: usize> Formatter<'w, N> {
    /// A formatter that writes into `writer` under `flags`. What it writes is in `writer`
    /// once the formatter is gone.
    pub fn from_sw(writer: &'w mut StrWriter<N>, flags: FormattingFlags) -> (f: Self)
        ensures
            f.flags == flags,
            f.writer@ == old(writer)@,
            *final(writer) == *final(f.writer),
    {
        Formatter { flags, writer }
    }

    pub fn flags(&self) -> (flags: FormattingFlags)
        ensures
            flags == self.flags,
    {
        self.flags
    }

    /// Appends `bytes`, which are valid text, as they are.
    pub fn write_bytes(&mut self, bytes: &[u8]) -> (res: Result<(), Error>)
        requires
            vstd::utf8::valid_utf8(bytes@),
        ensures
            wrote(*old(self), *final(self), bytes@, res),
            *final(final(self).writer) == *final(old(self).writer),
    {
        self.writer.write_bytes(bytes)
    }

    /// Appends `text` as it is.
    pub fn write_str(&mut self, text: &str) -> (res: Result<(), Error>)
        ensures
            wrote(*old(self), *final(self), text.spec_bytes(), res),
            *final(final(self).writer) == *final(old(self).writer),
    {
        self.writer.write_str(text)
    }

    /// Appends `text` between double quotes, with its bytes escaped.
    pub fn write_str_debug(&mut self, text: &str) -> (res: Result<(), Error>)
        ensures
            wrote(*old(self), *final(self), quoted_text(text.spec_bytes()), res),
            *final(final(self).writer) == *final(old(self).writer),
    {
        self.writer.write_str_debug(text)
    }

    /// Appends `bytes`, which are valid text, between two `quote` characters, with the
    /// bytes escaped.
    pub fn write_quoted(&mut self, bytes: &[u8], quote: u8) -> (res: Result<(), Error>)
        requires
            vstd::utf8::valid_utf8(bytes@),
            quote < 128,
        ensures
            wrote(*old(self), *final(self), crate::text::quoted_with(bytes@, quote), res),
            *final(final(self).writer) == *final(old(self).writer),
    {
        self.writer.write_quoted(bytes, quote)
    }

    /// Appends `number` in decimal with its sign, whatever the flags.
    pub fn write_integer_display(&mut self, number: Integer) -> (res: Result<(), Error>)
        ensures
            wrote(*old(self), *final(self), number.display_text(), res),
            *final(final(self).writer) == *final(old(self).writer),
    {
        let digits = PWrapper(number).to_start_array_display();
        proof {
            lemma_number_text_utf8(number.unsigned as nat, number.is_negative);
        }
        self.writer.write_bytes(
            vstd::slice::slice_subrange(digits.array.as_slice(), digits.start, 40),
        )
    }

    /// Appends `number` in the base that the flags ask for.
    pub fn write_integer_debug(&mut self, number: Integer) -> (res: Result<(), Error>)
        ensures
            wrote(*old(self), *final(self), number.debug_text(old(self).flags), res),
            *final(final(self).writer) == *final(old(self).writer),
    {
        proof {
            lemma_number_text_utf8(number.unsigned as nat, number.is_negative);
            lemma_number_text_utf8(number.bit_pattern() as nat, self.flags.is_alternate);
        }
        match self.flags.mode() {
            FormattingMode::Regular => {
                let digits = PWrapper(number).to_start_array_debug();
                self.writer.write_bytes(
                    vstd::slice::slice_subrange(digits.array.as_slice(), digits.start, 40),
                )
            },
            FormattingMode::Hexadecimal => {
                let digits = PWrapper(number).to_start_array_hexadecimal(self.flags);
                self.writer.write_bytes(
                    vstd::slice::slice_subrange(digits.array.as_slice(), digits.start, 34),
                )
            },
            FormattingMode::Binary => {
                let digits = PWrapper(number).to_start_array_binary(self.flags);
                self.writer.write_bytes(
                    vstd::slice::slice_subrange(digits.array.as_slice(), digits.start, 130),
                )
            },
        }
    }
}

impl<const N: usize> StrWriter<N> {
    /// A formatter that writes into this writer under `flags`.
    pub fn make_formatter(&mut self, flags: FormattingFlags) -> (f: Formatter<'_, N>)
        ensures
            f.flags == flags,
            f.writer@ == old(self)@,
            *final(self) == *final(f.writer),
    {
        Formatter { flags, writer: self }
    }
}

} // verus!
