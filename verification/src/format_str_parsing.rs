//! Format strings: literal text with directives in braces. A directive names the argument
//! that it stands for, by position or by name, and may say how the argument is written.

use crate::formatting::{Formatting, FormattingFlags, FormattingMode};
use crate::text::{digit_value, digits_value};
use vstd::prelude::*;
use vstd::utf8::{
    is_char_boundary_iff_not_is_continuation_byte, is_char_boundary_start_end_of_seq,
    pop_first_scalar, valid_utf8, valid_utf8_concat, valid_utf8_split,
};

verus! {

/// Which argument a directive stands for.
#[derive(Clone, Copy, Debug, PartialEq, Eq)]
pub enum WhichArg {
    /// The argument of this name. The name is the bytes of the format string from
    /// `start` to `end`.
    Ident { start: usize, end: usize },
    /// The argument at this position, or, with `None`, the next in the order of the
    /// directives that give no position.
    Positional(Option<usize>),
}

/// One directive: the argument, and the style and flags under which it is written.
#[derive(Clone, Copy, Debug, PartialEq, Eq)]
pub struct FmtArg {
    pub which_arg: WhichArg,
    pub formatting: Formatting,
    pub flags: FormattingFlags,
}

/// One piece of a format string.
#[derive(Clone, Copy, Debug, PartialEq, Eq)]
pub enum FmtStrComponent {
    /// Literal text: the bytes of the format string from `start` to `end`.
    Str { start: usize, end: usize },
    /// A directive.
    Arg(FmtArg),
}

/// What is wrong with a format string.
#[derive(Clone, Copy, Debug, PartialEq, Eq)]
pub enum ParseErrorKind {
    /// A `{` without a `}` behind it.
    UnclosedArg,
    /// A `}` that closes nothing and is not doubled.
    InvalidClosedArg,
    /// A directive that begins with a digit and is no position: it holds something
    /// else than digits, or a number that is too large.
    NotANumber,
    /// A directive that is neither empty, nor a position, nor a name made of ASCII
    /// letters, digits and `_`.
    NotAnIdent,
    /// Something behind the `:` of a directive that does not say how to write.
    UnknownFormatting,
}

/// An error in a format string: what is wrong, and the index of the brace at which the
/// piece begins that is wrong.
#[derive(Clone, Copy, Debug, PartialEq, Eq)]
pub struct ParseError {
    pub pos: usize,
    pub kind: ParseErrorKind,
}

/// The least index from `from` on at which a brace stands, or the length of the text.
pub open spec fn next_brace(text: Seq<u8>, from: int) -> int
    decreases text.len() - from,
{
    if from < 0 || from >= text.len() || text[from] == 123 || text[from] == 125 {
        from
    } else {
        next_brace(text, from + 1)
    }
}

/// The least index from `from` on at which `byte` stands, or `to` where it does not stand
/// before `to`.
pub open spec fn next_byte(text: Seq<u8>, byte: u8, from: int, to: int) -> int
    decreases to - from,
{
    if from < 0 || from >= to || from >= text.len() || text[from] == byte {
        from
    } else {
        next_byte(text, byte, from + 1, to)
    }
}

/// Whether a byte is an ASCII digit.
pub open spec fn is_digit(b: u8) -> bool {
    48 <= b <= 57
}

/// Whether a byte can begin a name: an ASCII letter or `_`.
pub open spec fn is_ident_start(b: u8) -> bool {
    65 <= b <= 90 || 97 <= b <= 122 || b == 95
}

/// Whether a byte can stand in a name: an ASCII letter, a digit or `_`.
pub open spec fn is_ident_continue(b: u8) -> bool {
    is_ident_start(b) || is_digit(b)
}

/// What stands before the `:` of a directive, or in all of a directive without one.
pub open spec fn which_arg_of(text: Seq<u8>, from: int, to: int) -> Result<
    WhichArg,
    ParseErrorKind,
> {
    let inner = text.subrange(from, to);
    if from >= to {
        Ok(WhichArg::Positional(None))
    } else if is_digit(text[from]) {
        if (forall|i: int| from <= i < to ==> is_digit(text[i])) && digits_value(inner, 10)
            <= usize::MAX {
            Ok(WhichArg::Positional(Some(digits_value(inner, 10) as usize)))
        } else {
            Err(ParseErrorKind::NotANumber)
        }
    } else if is_ident_start(text[from]) && (forall|i: int|
        from <= i < to ==> is_ident_continue(text[i])) {
        Ok(WhichArg::Ident { start: from as usize, end: to as usize })
    } else {
        Err(ParseErrorKind::NotAnIdent)
    }
}

/// What the letters of a directive ask for, one letter after the other: `b` for binary
/// and `x` or `X` for hexadecimal, each only where no base was asked for before, and `#`
/// for the alternate form.
pub open spec fn flags_of(text: Seq<u8>, from: int, to: int, flags: FormattingFlags) -> Result<
    FormattingFlags,
    ParseErrorKind,
>
    decreases to - from,
{
    if from >= to {
        Ok(flags)
    } else if text[from] == 35 {
        flags_of(text, from + 1, to, FormattingFlags { mode: flags.mode, is_alternate: true })
    } else if text[from] == 98 && flags.mode == FormattingMode::Regular {
        flags_of(
            text,
            from + 1,
            to,
            FormattingFlags { mode: FormattingMode::Binary, is_alternate: flags.is_alternate },
        )
    } else if (text[from] == 120 || text[from] == 88) && flags.mode == FormattingMode::Regular {
        flags_of(
            text,
            from + 1,
            to,
            FormattingFlags { mode: FormattingMode::Hexadecimal, is_alternate: flags.is_alternate },
        )
    } else {
        Err(ParseErrorKind::UnknownFormatting)
    }
}

/// The flags that nothing has been asked of yet.
pub open spec fn plain_flags() -> FormattingFlags {
    FormattingFlags { mode: FormattingMode::Regular, is_alternate: false }
}

/// What stands behind the `:` of a directive: nothing or `#` for display formatting,
/// anything else for debug formatting, with letters as [`flags_of`] reads them and an
/// optional `?` behind them.
pub open spec fn formatting_of(text: Seq<u8>, from: int, to: int) -> Result<
    (Formatting, FormattingFlags),
    ParseErrorKind,
> {
    if from >= to {
        Ok((Formatting::Display, plain_flags()))
    } else if to == from + 1 && text[from] == 35 {
        Ok(
            (
                Formatting::Display,
                FormattingFlags { mode: FormattingMode::Regular, is_alternate: true },
            ),
        )
    } else {
        let letters_end = if text[to - 1] == 63 {
            to - 1
        } else {
            to
        };
        match flags_of(text, from, letters_end, plain_flags()) {
            Ok(flags) => Ok((Formatting::Debug, flags)),
            Err(kind) => Err(kind),
        }
    }
}

/// The directive that stands between the braces, from `from` to `to`.
pub open spec fn arg_of(text: Seq<u8>, from: int, to: int) -> Result<FmtArg, ParseErrorKind> {
    let colon = next_byte(text, 58, from, to);
    match which_arg_of(text, from, colon) {
        Err(kind) => Err(kind),
        Ok(which_arg) => match formatting_of(
            text,
            if colon < to {
                colon + 1
            } else {
                to
            },
            to,
        ) {
            Err(kind) => Err(kind),
            Ok((formatting, flags)) => Ok(FmtArg { which_arg, formatting, flags }),
        },
    }
}

/// The pieces of a format string from `pos` on, behind the pieces `done` that stand
/// before `pos`. A doubled brace is the literal text of one brace; other literal text
/// runs up to the next brace; a directive runs from `{` to the next `}`.
///
/// The next brace never stands before `pos`, nor behind the end of the text: where the
/// definition asks whether it does, it only makes plain that it goes forward.
pub open spec fn pieces_from(text: Seq<u8>, pos: int, done: Seq<FmtStrComponent>) -> Result<
    Seq<FmtStrComponent>,
    ParseError,
>
    decreases text.len() - pos,
{
    if pos < 0 || pos >= text.len() {
        Ok(done)
    } else if text[pos] == 123 {
        if pos + 1 < text.len() && text[pos + 1] == 123 {
            pieces_from(
                text,
                pos + 2,
                done.push(FmtStrComponent::Str { start: pos as usize, end: (pos + 1) as usize }),
            )
        } else {
            let close = next_byte(text, 125, pos + 1, text.len() as int);
            if close >= text.len() || close <= pos {
                Err(ParseError { pos: pos as usize, kind: ParseErrorKind::UnclosedArg })
            } else {
                match arg_of(text, pos + 1, close) {
                    Err(kind) => Err(ParseError { pos: pos as usize, kind }),
                    Ok(arg) => pieces_from(text, close + 1, done.push(FmtStrComponent::Arg(arg))),
                }
            }
        }
    } else if text[pos] == 125 {
        if pos + 1 < text.len() && text[pos + 1] == 125 {
            pieces_from(
                text,
                pos + 2,
                done.push(FmtStrComponent::Str { start: pos as usize, end: (pos + 1) as usize }),
            )
        } else {
            Err(ParseError { pos: pos as usize, kind: ParseErrorKind::InvalidClosedArg })
        }
    } else {
        let end = next_brace(text, pos);
        if end <= pos || end > text.len() {
            Ok(done)
        } else {
            pieces_from(
                text,
                end,
                done.push(FmtStrComponent::Str { start: pos as usize, end: end as usize }),
            )
        }
    }
}

/// The pieces of a format string.
pub open spec fn pieces(text: Seq<u8>) -> Result<Seq<FmtStrComponent>, ParseError> {
    pieces_from(text, 0, Seq::<FmtStrComponent>::empty())
}

/// The number that the first digits stand for is no more than the number that all stand
/// for.
pub proof fn lemma_digits_value_prefix(text: Seq<u8>, i: int)
    requires
        0 <= i <= text.len(),
    ensures
        digits_value(text.subrange(0, i), 10) <= digits_value(text, 10),
    decreases text.len(),
{
    if i == text.len() {
        assert(text.subrange(0, i) =~= text);
    } else {
        lemma_digits_value_prefix(text.drop_last(), i);
        assert(text.drop_last().subrange(0, i) =~= text.subrange(0, i));
        assert(digits_value(text.drop_last(), 10) * 10 >= digits_value(text.drop_last(), 10))
            by (nonlinear_arith);
    }
}

/// The index of the next brace from `from` on.
fn find_brace(text: &[u8], from: usize) -> (at: usize)
    requires
        from <= text@.len(),
    ensures
        at == next_brace(text@, from as int),
        from <= at <= text@.len(),
        at < text@.len() ==> text@[at as int] == 123 || text@[at as int] == 125,
        forall|i: int| from <= i < at ==> text@[i] != 123 && text@[i] != 125,
{
    let mut at: usize = from;
    while at < text.len() && text[at] != 123 && text[at] != 125
        invariant
            from <= at <= text@.len(),
            next_brace(text@, from as int) == next_brace(text@, at as int),
            forall|i: int| from <= i < at ==> text@[i] != 123 && text@[i] != 125,
        decreases text@.len() - at,
    {
        at += 1;
    }
    at
}

/// The index of the next `byte` from `from` on and before `to`, or `to`.
fn find_byte(text: &[u8], byte: u8, from: usize, to: usize) -> (at: usize)
    requires
        from <= to <= text@.len(),
    ensures
        at == next_byte(text@, byte, from as int, to as int),
        from <= at <= to,
        at < to ==> text@[at as int] == byte,
        forall|i: int| from <= i < at ==> text@[i] != byte,
{
    let mut at: usize = from;
    while at < to && text[at] != byte
        invariant
            from <= at <= to <= text@.len(),
            next_byte(text@, byte, from as int, to as int) == next_byte(
                text@,
                byte,
                at as int,
                to as int,
            ),
            forall|i: int| from <= i < at ==> text@[i] != byte,
        decreases to - at,
    {
        at += 1;
    }
    at
}

/// Reads what stands before the `:` of a directive.
fn parse_which_arg(text: &[u8], from: usize, to: usize) -> (res: Result<WhichArg, ParseErrorKind>)
    requires
        from <= to <= text@.len(),
    ensures
        res == which_arg_of(text@, from as int, to as int),
{
    if from >= to {
        return Ok(WhichArg::Positional(None));
    }
    let ghost inner = text@.subrange(from as int, to as int);
    let first: u8 = text[from];
    if 48 <= first && first <= 57 {
        let mut value: usize = 0;
        let mut i: usize = from;
        proof {
            assert(text@.subrange(from as int, from as int) =~= Seq::<u8>::empty());
        }
        while i < to
            invariant
                from <= i <= to <= text@.len(),
                from < to,
                is_digit(text@[from as int]),
                inner == text@.subrange(from as int, to as int),
                forall|j: int| from <= j < i ==> is_digit(text@[j]),
                value == digits_value(text@.subrange(from as int, i as int), 10),
            decreases to - i,
        {
            let b: u8 = text[i];
            if b < 48 || b > 57 {
                proof {
                    if forall|j: int| from <= j < to ==> is_digit(text@[j]) {
                        assert(is_digit(text@[i as int]));
                    }
                }
                return Err(ParseErrorKind::NotANumber);
            }
            let digit: usize = (b - 48) as usize;
            proof {
                assert(text@.subrange(from as int, i + 1).drop_last() =~= text@.subrange(
                    from as int,
                    i as int,
                ));
                assert(inner.subrange(0, i + 1 - from) =~= text@.subrange(from as int, i + 1));
                lemma_digits_value_prefix(inner, i + 1 - from);
            }
            if value > (usize::MAX - digit) / 10 {
                return Err(ParseErrorKind::NotANumber);
            }
            value = value * 10 + digit;
            i += 1;
        }
        Ok(WhichArg::Positional(Some(value)))
    } else if (65 <= first && first <= 90) || (97 <= first && first <= 122) || first == 95 {
        let mut i: usize = from;
        while i < to
            invariant
                from <= i <= to <= text@.len(),
                from < to,
                is_ident_start(text@[from as int]),
                forall|j: int| from <= j < i ==> is_ident_continue(text@[j]),
            decreases to - i,
        {
            let b: u8 = text[i];
            if !((65 <= b && b <= 90) || (97 <= b && b <= 122) || b == 95 || (48 <= b && b
                <= 57)) {
                proof {
                    if forall|j: int| from <= j < to ==> is_ident_continue(text@[j]) {
                        assert(is_ident_continue(text@[i as int]));
                    }
                }
                return Err(ParseErrorKind::NotAnIdent);
            }
            i += 1;
        }
        Ok(WhichArg::Ident { start: from, end: to })
    } else {
        Err(ParseErrorKind::NotAnIdent)
    }
}

/// Reads the letters of a directive.
fn parse_flags(text: &[u8], from: usize, to: usize) -> (res: Result<
    FormattingFlags,
    ParseErrorKind,
>)
    requires
        from <= to <= text@.len(),
    ensures
        res == flags_of(text@, from as int, to as int, plain_flags()),
{
    let mut flags = FormattingFlags::new();
    let mut i: usize = from;
    while i < to
        invariant
            from <= i <= to <= text@.len(),
            flags_of(text@, from as int, to as int, plain_flags()) == flags_of(
                text@,
                i as int,
                to as int,
                flags,
            ),
        decreases to - i,
    {
        let b: u8 = text[i];
        if b == 35 {
            flags = flags.set_alternate(true);
        } else if b == 98 && matches!(flags.mode(), FormattingMode::Regular) {
            flags = flags.set_mode(FormattingMode::Binary);
        } else if (b == 120 || b == 88) && matches!(flags.mode(), FormattingMode::Regular) {
            flags = flags.set_mode(FormattingMode::Hexadecimal);
        } else {
            return Err(ParseErrorKind::UnknownFormatting);
        }
        i += 1;
    }
    Ok(flags)
}

/// Reads what stands behind the `:` of a directive.
fn parse_formatting(text: &[u8], from: usize, to: usize) -> (res: Result<
    (Formatting, FormattingFlags),
    ParseErrorKind,
>)
    requires
        from <= to <= text@.len(),
    ensures
        res == formatting_of(text@, from as int, to as int),
{
    if from >= to {
        Ok((Formatting::Display, FormattingFlags::new()))
    } else if to == from + 1 && text[from] == 35 {
        Ok((Formatting::Display, FormattingFlags::new().set_alternate(true)))
    } else {
        let letters_end: usize = if text[to - 1] == 63 {
            to - 1
        } else {
            to
        };
        match parse_flags(text, from, letters_end) {
            Ok(flags) => Ok((Formatting::Debug, flags)),
            Err(kind) => Err(kind),
        }
    }
}

/// Reads the directive that stands between the braces.
fn parse_arg(text: &[u8], from: usize, to: usize) -> (res: Result<FmtArg, ParseErrorKind>)
    requires
        from <= to <= text@.len(),
    ensures
        res == arg_of(text@, from as int, to as int),
{
    let colon = find_byte(text, 58, from, to);
    let which_arg = match parse_which_arg(text, from, colon) {
        Ok(which_arg) => which_arg,
        Err(kind) => {
            return Err(kind);
        },
    };
    let start: usize = if colon < to {
        colon + 1
    } else {
        to
    };
    match parse_formatting(text, start, to) {
        Ok((formatting, flags)) => Ok(FmtArg { which_arg, formatting, flags }),
        Err(kind) => Err(kind),
    }
}

/// Whether the range of a piece lies in a text of `len` bytes.
pub open spec fn piece_in_bounds(component: FmtStrComponent, len: int) -> bool {
    match component {
        FmtStrComponent::Str { start, end } => start <= end <= len,
        FmtStrComponent::Arg(arg) => match arg.which_arg {
            WhichArg::Ident { start, end } => start <= end <= len,
            WhichArg::Positional(_) => true,
        },
    }
}

/// Whether an index of a text stands at an end of the text or beside a byte below 128.
/// Characters of several bytes hold no such byte, so none is cut there.
pub open spec fn is_edge(text: Seq<u8>, i: int) -> bool {
    0 <= i <= text.len() && (i == 0 || i == text.len() || text[i] < 128 || text[i - 1] < 128)
}

/// Whether the literal text of a piece begins and ends at edges of the text.
pub open spec fn piece_on_edges(text: Seq<u8>, component: FmtStrComponent) -> bool {
    component matches FmtStrComponent::Str { start, end } ==> is_edge(text, start as int)
        && is_edge(text, end as int)
}

/// Valid text cut at an edge is valid text on both sides.
pub proof fn lemma_edge_splits(text: Seq<u8>, i: int)
    requires
        valid_utf8(text),
        is_edge(text, i),
    ensures
        valid_utf8(text.subrange(0, i)),
        valid_utf8(text.subrange(i, text.len() as int)),
{
    is_char_boundary_start_end_of_seq(text);
    if i == 0 || i == text.len() {
        valid_utf8_split(text, i);
    } else if text[i] < 128 {
        is_char_boundary_iff_not_is_continuation_byte(text, i);
        valid_utf8_split(text, i);
    } else {
        is_char_boundary_iff_not_is_continuation_byte(text, i - 1);
        valid_utf8_split(text, i - 1);
        let suffix = text.subrange(i - 1, text.len() as int);
        assert(suffix[0] == text[i - 1]);
        assert(pop_first_scalar(suffix) =~= text.subrange(i, text.len() as int));
        let one = seq![text[i - 1]];
        crate::text::lemma_ascii_is_utf8(one);
        valid_utf8_concat(text.subrange(0, i - 1), one);
        assert(text.subrange(0, i - 1) + one =~= text.subrange(0, i));
    }
}

/// Valid text between two edges is valid text.
pub proof fn lemma_between_edges(text: Seq<u8>, start: int, end: int)
    requires
        valid_utf8(text),
        is_edge(text, start),
        is_edge(text, end),
        start <= end,
    ensures
        valid_utf8(text.subrange(start, end)),
{
    lemma_edge_splits(text, end);
    let front = text.subrange(0, end);
    assert(is_edge(front, start));
    lemma_edge_splits(front, start);
    assert(front.subrange(start, front.len() as int) =~= text.subrange(start, end));
}

/// Splits a format string into its pieces, or says what is wrong with the first piece
/// that is wrong.
pub fn parse_format_str(text: &[u8]) -> (res: Result<Vec<FmtStrComponent>, ParseError>)
    ensures
        match res {
            Ok(list) => pieces(text@) == Ok::<Seq<FmtStrComponent>, ParseError>(list@),
            Err(e) => pieces(text@) == Err::<Seq<FmtStrComponent>, ParseError>(e),
        },
        res matches Ok(list) ==> forall|k: int|
            0 <= k < list@.len() ==> piece_in_bounds(#[trigger] list@[k], text@.len() as int)
                && piece_on_edges(text@, list@[k]),
{
    let mut list: Vec<FmtStrComponent> = Vec::new();
    let mut pos: usize = 0;
    while pos < text.len()
        invariant
            0 <= pos <= text@.len(),
            pieces(text@) == pieces_from(text@, pos as int, list@),
            is_edge(text@, pos as int),
            forall|k: int|
                0 <= k < list@.len() ==> piece_in_bounds(#[trigger] list@[k], text@.len() as int)
                    && piece_on_edges(text@, list@[k]),
        decreases text@.len() - pos,
    {
        let b: u8 = text[pos];
        if b == 123 {
            if pos + 1 < text.len() && text[pos + 1] == 123 {
                list.push(FmtStrComponent::Str { start: pos, end: pos + 1 });
                pos += 2;
            } else {
                let close = find_byte(text, 125, pos + 1, text.len());
                if close >= text.len() {
                    return Err(ParseError { pos, kind: ParseErrorKind::UnclosedArg });
                }
                match parse_arg(text, pos + 1, close) {
                    Ok(arg) => {
                        list.push(FmtStrComponent::Arg(arg));
                    },
                    Err(kind) => {
                        return Err(ParseError { pos, kind });
                    },
                }
                pos = close + 1;
            }
        } else if b == 125 {
            if pos + 1 < text.len() && text[pos + 1] == 125 {
                list.push(FmtStrComponent::Str { start: pos, end: pos + 1 });
                pos += 2;
            } else {
                return Err(ParseError { pos, kind: ParseErrorKind::InvalidClosedArg });
            }
        } else {
            let end = find_brace(text, pos);
            list.push(FmtStrComponent::Str { start: pos, end });
            pos = end;
        }
    }
    Ok(list)
}

} // verus!
