//! Writing by a format string at run time: the format string is split into its pieces,
//! the directives are matched with the arguments, and the pieces are written in their
//! order.

use crate::fmt::argument::Argument;
use crate::fmt::error::Error;
use crate::fmt::formatter::{
    lemma_wrote_in_turn_stopped, lemma_wrote_in_turn_then, lemma_wrote_one_part, wrote_in_turn,
    Formatter,
};
use crate::format_args::{
    describes, expand, expand_one, expanded, lemma_expanded, lemma_first_named,
    matches_arguments, ArgsError, ExpandInto, Variable,
};
use crate::format_str_parsing::{
    lemma_between_edges, parse_format_str, piece_in_bounds, piece_on_edges, pieces,
    FmtStrComponent, ParseError,
};
use vstd::prelude::*;
use vstd::string::StringSliceAdditionalSpecFns;

verus! {

/// Why nothing, or not everything, was written.
#[derive(Debug)]
pub enum WriteError {
    /// The format string is wrong.
    Format(ParseError),
    /// The directives and the arguments do not match.
    Arguments(ArgsError),
    /// A directive has a name that no argument has: the name in the format string from
    /// `start` to `end`.
    NotAnArgument { start: usize, end: usize },
    /// The text does not fit into the writer.
    Fmt(Error),
}

/// Whether a matched piece is a directive that stands for no argument.
pub open spec fn is_in_scope(piece: ExpandInto) -> bool {
    piece matches ExpandInto::Formatted(formatted) && formatted.variable is InScope
}

/// The least index from `from` on of a directive that stands for no argument, or the
/// number of pieces where there is none.
pub open spec fn next_in_scope(list: Seq<ExpandInto>, from: int) -> int
    decreases list.len() - from,
{
    if from < 0 || from >= list.len() || is_in_scope(list[from]) {
        from
    } else {
        next_in_scope(list, from + 1)
    }
}

/// The parts in which a matched piece is written: literal text in one part, a directive
/// in the parts of its argument.
pub open spec fn piece_parts(format: Seq<u8>, piece: ExpandInto, args: Seq<Argument<'_>>) -> Seq<
    Seq<u8>,
> {
    match piece {
        ExpandInto::Str { start, end } => seq![format.subrange(start as int, end as int)],
        ExpandInto::Formatted(formatted) => match formatted.variable {
            Variable::Local(i) => args[i as int].parts(formatted.formatting, formatted.flags),
            Variable::InScope { .. } => Seq::<Seq<u8>>::empty(),
        },
    }
}

/// The parts in which the matched pieces from index `from` on are written.
pub open spec fn expansion_parts(
    format: Seq<u8>,
    list: Seq<ExpandInto>,
    args: Seq<Argument<'_>>,
    from: int,
) -> Seq<Seq<u8>>
    decreases list.len() - from,
{
    if from < 0 || from >= list.len() {
        Seq::<Seq<u8>>::empty()
    } else {
        piece_parts(format, list[from], args) + expansion_parts(format, list, args, from + 1)
    }
}

/// Whether a result is that of the writer: success, or the one error of writing.
pub open spec fn from_writer(res: Result<(), WriteError>) -> bool {
    match res {
        Ok(()) => true,
        Err(WriteError::Fmt(_)) => true,
        Err(_) => false,
    }
}

/// The result of the writer in a result of this module.
pub open spec fn as_write_result(res: Result<(), WriteError>) -> Result<(), Error> {
    match res {
        Ok(()) => Ok(()),
        Err(_) => Err(Error::NotEnoughSpace),
    }
}

/// Writes by `format`. The arguments are given with their names, `None` for one that is
/// given by position; those without a name come first.
///
/// Nothing is written unless the format string is right, the directives and the
/// arguments match, and every name in the format string is the name of an argument. Then
/// the pieces are written in their order: literal text as it is, a directive as its
/// argument in the style and under the flags that the directive gives. The first part
/// that does not fit ends the writing.
pub fn writec<const N: usize>(
    f: &mut Formatter<'_, N>,
    format: &str,
    args: &[Argument<'_>],
    names: &[Option<&str>],
) -> (res: Result<(), WriteError>)
    requires
        args@.len() == names@.len(),
    ensures
        final(f).flags == old(f).flags,
        *final(final(f).writer) == *final(old(f).writer),
        match pieces(format.spec_bytes()) {
            Err(e) => res matches Err(WriteError::Format(found)) && found == e && final(f)@
                == old(f)@,
            Ok(components) => {
                let text = format.spec_bytes();
                let list = expanded(text, names@, components);
                if !matches_arguments(text, names@, components) {
                    &&& final(f)@ == old(f)@
                    &&& res matches Err(WriteError::Arguments(error)) && describes(
                        error,
                        text,
                        names@,
                        components,
                    )
                } else if next_in_scope(list, 0) < list.len() {
                    &&& final(f)@ == old(f)@
                    &&& res matches Err(WriteError::NotAnArgument { start, end })
                        && list[next_in_scope(list, 0)] matches ExpandInto::Formatted(formatted)
                        && formatted.variable == (Variable::InScope { start, end })
                } else {
                    &&& from_writer(res)
                    &&& wrote_in_turn(
                        *old(f),
                        *final(f),
                        expansion_parts(text, list, args@, 0),
                        as_write_result(res),
                    )
                }
            },
        },
{
    let text = format.as_bytes();
    proof {
        vstd::utf8::encode_utf8_valid_utf8(format@);
    }
    let components = match parse_format_str(text) {
        Ok(components) => components,
        Err(e) => {
            return Err(WriteError::Format(e));
        },
    };
    let list = match expand(text, components.as_slice(), names) {
        Ok(list) => list,
        Err(e) => {
            return Err(WriteError::Arguments(e));
        },
    };
    proof {
        crate::format_args::lemma_expanded_len(text@, names@, components@);
    }
    let mut k: usize = 0;
    while k < list.len()
        invariant
            0 <= k <= list@.len(),
            *f == *old(f),
            text@ == format.spec_bytes(),
            pieces(text@) == Ok::<Seq<FmtStrComponent>, ParseError>(components@),
            list@ == expanded(text@, names@, components@),
            matches_arguments(text@, names@, components@),
            next_in_scope(list@, 0) == next_in_scope(list@, k as int),
        decreases list@.len() - k,
    {
        match list[k] {
            ExpandInto::Formatted(formatted) => match formatted.variable {
                Variable::InScope { start, end } => {
                    return Err(WriteError::NotAnArgument { start, end });
                },
                Variable::Local(_) => {},
            },
            ExpandInto::Str { .. } => {},
        }
        k += 1;
    }
    let ghost all = expansion_parts(text@, list@, args@, 0);
    let ghost mut done: Seq<Seq<u8>> = Seq::empty();
    // the length is asked for what it says of the writer: the text in it is within the
    // capacity
    let _: usize = f.writer.len();
    let mut k: usize = 0;
    proof {
        assert(done + all =~= all);
        assert(done.flatten() =~= Seq::<u8>::empty());
        assert(crate::fmt::formatter::fitting_parts(f@.len(), N as nat, done)
            =~= Seq::<u8>::empty());
        assert(f@ + Seq::<u8>::empty() =~= f@);
        assert(f@.len() <= N);
        assert(wrote_in_turn(*old(f), *f, done, Ok(())));
    }
    while k < list.len()
        invariant
            0 <= k <= list@.len(),
            list@.len() == components@.len(),
            args@.len() == names@.len(),
            vstd::utf8::valid_utf8(text@),
            text@ == format.spec_bytes(),
            pieces(text@) == Ok::<Seq<FmtStrComponent>, ParseError>(components@),
            list@ == expanded(text@, names@, components@),
            matches_arguments(text@, names@, components@),
            next_in_scope(list@, 0) >= list@.len(),
            forall|j: int|
                0 <= j < components@.len() ==> piece_in_bounds(
                    #[trigger] components@[j],
                    text@.len() as int,
                ) && piece_on_edges(text@, components@[j]),
            all == expansion_parts(text@, list@, args@, 0),
            done + expansion_parts(text@, list@, args@, k as int) == all,
            wrote_in_turn(*old(f), *f, done, Ok(())),
            *final(f.writer) == *final(old(f).writer),
        decreases list@.len() - k,
    {
        let ghost before = *f;
        let ghost parts = piece_parts(text@, list@[k as int], args@);
        let ghost rest = expansion_parts(text@, list@, args@, k + 1);
        proof {
            lemma_expanded(text@, names@, components@, k as int);
            lemma_first_named(names@);
            lemma_no_in_scope(list@, 0, k as int);
            assert(done + (parts + rest) =~= (done + parts) + rest);
            let implicit = crate::format_args::implicit_count(components@.subrange(0, k as int));
            let used = crate::format_args::used_argument(
                text@,
                names@,
                components@[k as int],
                implicit,
            );
            assert(list@[k as int] == expand_one(text@, names@, components@[k as int], implicit));
            assert(crate::format_args::missing_position(names@, components@[k as int], implicit)
                is None);
            match components@[k as int] {
                FmtStrComponent::Arg(arg) => match arg.which_arg {
                    crate::format_str_parsing::WhichArg::Ident { start, end } => {
                        crate::format_args::lemma_position_of(
                            names@,
                            text@.subrange(start as int, end as int),
                            0,
                        );
                    },
                    _ => {},
                },
                _ => {},
            }
            assert(used matches Some(i) ==> 0 <= i < names@.len());
            assert(list@[k as int] matches ExpandInto::Formatted(formatted)
                ==> used is Some && formatted.variable == Variable::Local(used->0 as usize));
        }
        let res = match list[k] {
            ExpandInto::Str { start, end } => {
                proof {
                    lemma_between_edges(text@, start as int, end as int);
                }
                let res = f.write_bytes(vstd::slice::slice_subrange(text, start, end));
                proof {
                    lemma_wrote_one_part(
                        before,
                        *f,
                        text@.subrange(start as int, end as int),
                        res,
                    );
                }
                res
            },
            ExpandInto::Formatted(formatted) => match formatted.variable {
                Variable::Local(i) => args[i].write(formatted.formatting, formatted.flags, f),
                Variable::InScope { .. } => Ok(()),
            },
        };
        match res {
            Ok(()) => {
                proof {
                    lemma_wrote_in_turn_then(*old(f), before, *f, done, parts, res);
                    done = done + parts;
                }
            },
            Err(e) => {
                proof {
                    lemma_wrote_in_turn_stopped(before, *f, parts, rest, res);
                    lemma_wrote_in_turn_then(*old(f), before, *f, done, parts + rest, res);
                }
                return Err(WriteError::Fmt(e));
            },
        }
        k += 1;
    }
    proof {
        assert(done + Seq::<Seq<u8>>::empty() =~= done);
    }
    Ok(())
}

/// No piece before the first directive that stands for no argument is one.
pub proof fn lemma_no_in_scope(list: Seq<ExpandInto>, from: int, k: int)
    requires
        0 <= from <= k < list.len(),
        next_in_scope(list, from) >= list.len(),
    ensures
        !is_in_scope(list[k]),
    decreases k - from,
{
    if from < k {
        lemma_no_in_scope(list, from + 1, k);
    }
}

} // verus!
