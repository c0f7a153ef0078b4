//! Matching the directives of a format string with the arguments that were given.
//!
//! The arguments come by position first and by name after that. A directive with a name
//! stands for the argument of that name, or, where no argument has it, for something of
//! that name that the caller has in scope. A directive with a position stands for the
//! positional argument there; one without stands for the next positional argument. Every
//! argument must be used by some directive.

pub mod idents;

use crate::format_str_parsing::{
    is_digit, is_ident_continue, is_ident_start, piece_in_bounds, FmtArg, FmtStrComponent,
    WhichArg,
};
use crate::formatting::{Formatting, FormattingFlags};
use crate::pargument::Integer;
use crate::text::{decimal_text, digits};
use crate::wrapper_types::pwrapper::PWrapper;
use vstd::prelude::*;
use vstd::string::StringSliceAdditionalSpecFns;

verus! {

/// What a directive was matched with.
#[derive(Clone, Copy, Debug, PartialEq, Eq)]
pub enum Variable {
    /// The argument at this index, counted over all arguments.
    Local(usize),
    /// No argument: the name in the format string from `start` to `end`, which the
    /// caller is to find in scope.
    InScope { start: usize, end: usize },
}

/// A directive after matching.
#[derive(Clone, Copy, Debug, PartialEq, Eq)]
pub struct ExpandFormatted {
    pub variable: Variable,
    pub formatting: Formatting,
    pub flags: FormattingFlags,
}

/// One piece of a format string after matching.
#[derive(Clone, Copy, Debug, PartialEq, Eq)]
pub enum ExpandInto {
    /// Literal text: the bytes of the format string from `start` to `end`.
    Str { start: usize, end: usize },
    /// A directive and what it stands for.
    Formatted(ExpandFormatted),
}

/// One thing that is wrong between the directives and the arguments.
#[derive(Clone, Copy, Debug, PartialEq, Eq)]
pub enum ArgsProblem {
    /// A directive asks for the positional argument at this position, and there is
    /// none.
    NonexistentPositional(usize),
    /// No directive uses the argument at this index.
    Unused(usize),
}

/// Why the directives and the arguments do not match.
#[derive(Debug)]
pub enum ArgsError {
    /// The argument at this index has no name and stands behind one that has.
    PositionalAfterNamed(usize),
    /// Everything else that is wrong: first the directives without an argument, in the
    /// order of the directives, then the arguments without a directive, in the order of
    /// the arguments.
    Problems(Vec<ArgsProblem>),
}

/// The name of argument `i`, where it has one.
pub open spec fn name_at(names: Seq<Option<&str>>, i: int) -> Option<Seq<u8>> {
    match names[i] {
        Some(name) => Some(name.spec_bytes()),
        None => None,
    }
}

/// The number of positional arguments: the index of the first argument with a name, or
/// the number of arguments where none has one.
pub open spec fn first_named(names: Seq<Option<&str>>) -> int
    decreases names.len(),
{
    if names.len() == 0 || names[0] is Some {
        0
    } else {
        1 + first_named(names.drop_first())
    }
}

/// The least index from `from` on of an argument without a name, or the number of
/// arguments where all from there on have one.
pub open spec fn next_unnamed(names: Seq<Option<&str>>, from: int) -> int
    decreases names.len() - from,
{
    if from < 0 || from >= names.len() || names[from] is None {
        from
    } else {
        next_unnamed(names, from + 1)
    }
}

/// The index of the first argument without a name behind one with a name, where there
/// is one.
pub open spec fn misplaced(names: Seq<Option<&str>>) -> Option<int> {
    let i = next_unnamed(names, first_named(names));
    if i < names.len() {
        Some(i)
    } else {
        None
    }
}

/// The least index from `from` on of an argument with the name `name`, or the number of
/// arguments where there is none.
pub open spec fn position_of(names: Seq<Option<&str>>, name: Seq<u8>, from: int) -> int
    decreases names.len() - from,
{
    if from < 0 || from >= names.len() {
        names.len() as int
    } else if name_at(names, from) == Some(name) {
        from
    } else {
        position_of(names, name, from + 1)
    }
}

/// Whether a component is a directive that gives neither name nor position.
pub open spec fn is_implicit(component: FmtStrComponent) -> bool {
    component matches FmtStrComponent::Arg(arg) && arg.which_arg == WhichArg::Positional(None)
}

/// The number of directives among `components` that give neither name nor position.
pub open spec fn implicit_count(components: Seq<FmtStrComponent>) -> nat
    decreases components.len(),
{
    if components.len() == 0 {
        0
    } else {
        implicit_count(components.drop_last()) + if is_implicit(components.last()) {
            1nat
        } else {
            0nat
        }
    }
}

/// The position that a positional directive asks for: the one it gives, or `implicit`,
/// the number of directives before it that gave none.
pub open spec fn asked_position(position: Option<usize>, implicit: nat) -> nat {
    match position {
        Some(p) => p as nat,
        None => implicit,
    }
}

/// The position that a directive asks for in vain: one at which there is no positional
/// argument.
pub open spec fn missing_position(
    names: Seq<Option<&str>>,
    component: FmtStrComponent,
    implicit: nat,
) -> Option<nat> {
    match component {
        FmtStrComponent::Arg(FmtArg { which_arg: WhichArg::Positional(position), .. }) => {
            let p = asked_position(position, implicit);
            if p >= first_named(names) {
                Some(p)
            } else {
                None
            }
        },
        _ => None,
    }
}

/// The argument that a directive uses, where it uses one.
pub open spec fn used_argument(
    format: Seq<u8>,
    names: Seq<Option<&str>>,
    component: FmtStrComponent,
    implicit: nat,
) -> Option<int> {
    match component {
        FmtStrComponent::Str { .. } => None,
        FmtStrComponent::Arg(arg) => match arg.which_arg {
            WhichArg::Ident { start, end } => {
                let at = position_of(names, format.subrange(start as int, end as int), 0);
                if at < names.len() {
                    Some(at)
                } else {
                    None
                }
            },
            WhichArg::Positional(position) => {
                let p = asked_position(position, implicit);
                if p < first_named(names) {
                    Some(p as int)
                } else {
                    None
                }
            },
        },
    }
}

/// What a component is matched with. A directive that asks for a position in vain has
/// nothing to stand for; it is given the position it asks for.
pub open spec fn expand_one(
    format: Seq<u8>,
    names: Seq<Option<&str>>,
    component: FmtStrComponent,
    implicit: nat,
) -> ExpandInto {
    match component {
        FmtStrComponent::Str { start, end } => ExpandInto::Str { start, end },
        FmtStrComponent::Arg(arg) => ExpandInto::Formatted(
            ExpandFormatted {
                variable: match used_argument(format, names, component, implicit) {
                    Some(i) => Variable::Local(i as usize),
                    None => match arg.which_arg {
                        WhichArg::Ident { start, end } => Variable::InScope { start, end },
                        WhichArg::Positional(position) => Variable::Local(
                            asked_position(position, implicit) as usize,
                        ),
                    },
                },
                formatting: arg.formatting,
                flags: arg.flags,
            },
        ),
    }
}

/// What the components are matched with, one for one.
pub open spec fn expanded(
    format: Seq<u8>,
    names: Seq<Option<&str>>,
    components: Seq<FmtStrComponent>,
) -> Seq<ExpandInto>
    decreases components.len(),
{
    if components.len() == 0 {
        Seq::<ExpandInto>::empty()
    } else {
        expanded(format, names, components.drop_last()).push(
            expand_one(
                format,
                names,
                components.last(),
                implicit_count(components.drop_last()),
            ),
        )
    }
}

/// The positions that directives ask for in vain, in the order of the directives.
pub open spec fn missing(names: Seq<Option<&str>>, components: Seq<FmtStrComponent>) -> Seq<
    ArgsProblem,
>
    decreases components.len(),
{
    if components.len() == 0 {
        Seq::<ArgsProblem>::empty()
    } else {
        let before = missing(names, components.drop_last());
        match missing_position(
            names,
            components.last(),
            implicit_count(components.drop_last()),
        ) {
            Some(p) => before.push(ArgsProblem::NonexistentPositional(p as usize)),
            None => before,
        }
    }
}

/// Whether some directive among `components` uses argument `i`.
pub open spec fn is_used(
    format: Seq<u8>,
    names: Seq<Option<&str>>,
    components: Seq<FmtStrComponent>,
    i: int,
) -> bool
    decreases components.len(),
{
    components.len() > 0 && (is_used(format, names, components.drop_last(), i) || used_argument(
        format,
        names,
        components.last(),
        implicit_count(components.drop_last()),
    ) == Some(i))
}

/// The arguments before index `upto` that no directive uses, in the order of the
/// arguments.
pub open spec fn unused(
    format: Seq<u8>,
    names: Seq<Option<&str>>,
    components: Seq<FmtStrComponent>,
    upto: int,
) -> Seq<ArgsProblem>
    decreases upto,
{
    if upto <= 0 {
        Seq::<ArgsProblem>::empty()
    } else {
        let before = unused(format, names, components, upto - 1);
        if is_used(format, names, components, upto - 1) {
            before
        } else {
            before.push(ArgsProblem::Unused((upto - 1) as usize))
        }
    }
}

/// Whether an error says what is wrong between these directives and arguments: the
/// misplaced argument where there is one, else everything else that is wrong, in its
/// order.
pub open spec fn describes(
    error: ArgsError,
    format: Seq<u8>,
    names: Seq<Option<&str>>,
    components: Seq<FmtStrComponent>,
) -> bool {
    match error {
        ArgsError::PositionalAfterNamed(i) => misplaced(names) == Some(i as int),
        ArgsError::Problems(list) => {
            &&& misplaced(names) is None
            &&& list@.len() > 0
            &&& list@ == missing(names, components) + unused(
                format,
                names,
                components,
                names.len() as int,
            )
        },
    }
}

/// Whether the directives and the arguments match: no argument is misplaced, no
/// position is asked for in vain, and no argument is left unused.
pub open spec fn matches_arguments(
    format: Seq<u8>,
    names: Seq<Option<&str>>,
    components: Seq<FmtStrComponent>,
) -> bool {
    &&& misplaced(names) is None
    &&& missing(names, components).len() == 0
    &&& unused(format, names, components, names.len() as int).len() == 0
}

/// Every component is matched on its own, given the number of directives before it that
/// gave neither name nor position.
pub proof fn lemma_expanded(
    format: Seq<u8>,
    names: Seq<Option<&str>>,
    components: Seq<FmtStrComponent>,
    k: int,
)
    requires
        0 <= k < components.len(),
    ensures
        expanded(format, names, components).len() == components.len(),
        expanded(format, names, components)[k] == expand_one(
            format,
            names,
            components[k],
            implicit_count(components.subrange(0, k)),
        ),
        missing(names, components).len() == 0 ==> missing_position(
            names,
            components[k],
            implicit_count(components.subrange(0, k)),
        ) is None,
    decreases components.len(),
{
    let shorter = components.drop_last();
    lemma_expanded_len(format, names, components);
    lemma_expanded_len(format, names, shorter);
    if k == components.len() - 1 {
        assert(components.subrange(0, k) =~= shorter);
    } else {
        lemma_expanded(format, names, shorter, k);
        assert(shorter.subrange(0, k) =~= components.subrange(0, k));
    }
}

/// There are as many matched pieces as components.
pub proof fn lemma_expanded_len(
    format: Seq<u8>,
    names: Seq<Option<&str>>,
    components: Seq<FmtStrComponent>,
)
    ensures
        expanded(format, names, components).len() == components.len(),
    decreases components.len(),
{
    if components.len() > 0 {
        lemma_expanded_len(format, names, components.drop_last());
    }
}

/// The index of an argument of some name is an index from `from` on, or the number of
/// arguments.
pub proof fn lemma_position_of(names: Seq<Option<&str>>, name: Seq<u8>, from: int)
    requires
        0 <= from <= names.len(),
    ensures
        from <= position_of(names, name, from) <= names.len(),
    decreases names.len() - from,
{
    if from < names.len() && name_at(names, from) != Some(name) {
        lemma_position_of(names, name, from + 1);
    }
}

/// The positional arguments are those before the first argument with a name.
pub proof fn lemma_first_named(names: Seq<Option<&str>>)
    ensures
        0 <= first_named(names) <= names.len(),
        forall|j: int| 0 <= j < first_named(names) ==> names[j] is None,
        first_named(names) < names.len() ==> names[first_named(names)] is Some,
    decreases names.len(),
{
    if names.len() > 0 && names[0] is None {
        let tail = names.drop_first();
        lemma_first_named(tail);
        assert forall|j: int| 0 <= j < first_named(names) implies names[j] is None by {
            if j > 0 {
                assert(names[j] == tail[j - 1]);
            }
        }
        if first_named(names) < names.len() {
            assert(names[first_named(names)] == tail[first_named(tail)]);
        }
    }
}

/// The next argument without a name is the first from `from` on.
pub proof fn lemma_next_unnamed(names: Seq<Option<&str>>, from: int)
    requires
        0 <= from <= names.len(),
    ensures
        from <= next_unnamed(names, from) <= names.len(),
        forall|j: int| from <= j < next_unnamed(names, from) ==> names[j] is Some,
        next_unnamed(names, from) < names.len() ==> names[next_unnamed(names, from)] is None,
    decreases names.len() - from,
{
    if from < names.len() && names[from] is Some {
        lemma_next_unnamed(names, from + 1);
    }
}

/// The arguments before `upto` that no directive uses are never more than `upto`.
pub proof fn lemma_unused_len(
    format: Seq<u8>,
    names: Seq<Option<&str>>,
    components: Seq<FmtStrComponent>,
    upto: int,
)
    requires
        0 <= upto,
    ensures
        unused(format, names, components, upto).len() <= upto,
    decreases upto,
{
    if upto > 0 {
        lemma_unused_len(format, names, components, upto - 1);
    }
}

/// The directives among the first components that give neither name nor position are
/// never more than these components.
pub proof fn lemma_implicit_count(components: Seq<FmtStrComponent>)
    ensures
        implicit_count(components) <= components.len(),
    decreases components.len(),
{
    if components.len() > 0 {
        lemma_implicit_count(components.drop_last());
    }
}

/// The positions asked for in vain are never more than the components.
pub proof fn lemma_missing_len(names: Seq<Option<&str>>, components: Seq<FmtStrComponent>)
    ensures
        missing(names, components).len() <= components.len(),
    decreases components.len(),
{
    if components.len() > 0 {
        lemma_missing_len(names, components.drop_last());
    }
}

/// The index of the first argument of the name that the format string holds from `start`
/// to `end`, or the number of arguments where none has that name.
fn find_name(format: &[u8], start: usize, end: usize, names: &[Option<&str>]) -> (at: usize)
    requires
        start <= end <= format@.len(),
    ensures
        at == position_of(names@, format@.subrange(start as int, end as int), 0),
        at <= names@.len(),
{
    let name = vstd::slice::slice_subrange(format, start, end);
    let mut j: usize = 0;
    while j < names.len()
        invariant
            0 <= j <= names@.len(),
            name@ == format@.subrange(start as int, end as int),
            position_of(names@, name@, 0) == position_of(names@, name@, j as int),
        decreases names@.len() - j,
    {
        match names[j] {
            Some(other) => {
                if bytes_eq(other.as_bytes(), name) {
                    return j;
                }
            },
            None => {},
        }
        j += 1;
    }
    j
}

/// Matches the directives of a format string with the arguments, which are given by
/// their names: `None` for one that is given by position.
///
/// The arguments without a name must come first. That checked, every directive is
/// matched, and what is wrong is collected: the positions asked for in vain, then the
/// arguments that are not used.
pub fn expand(format: &[u8], components: &[FmtStrComponent], names: &[Option<&str>]) -> (res:
    Result<Vec<ExpandInto>, ArgsError>)
    requires
        forall|k: int|
            0 <= k < components@.len() ==> piece_in_bounds(
                #[trigger] components@[k],
                format@.len() as int,
            ),
    ensures
        res is Ok <==> matches_arguments(format@, names@, components@),
        res matches Ok(list) ==> list@ == expanded(format@, names@, components@),
        res matches Err(error) ==> describes(error, format@, names@, components@),
{
    let mut first_named_arg: usize = names.len();
    let mut prev_is_named_arg: bool = false;
    let mut i: usize = 0;
    proof {
        lemma_first_named(names@);
    }
    while i < names.len()
        invariant
            0 <= i <= names@.len(),
            0 <= first_named(names@) <= names@.len(),
            forall|j: int| 0 <= j < first_named(names@) ==> names@[j] is None,
            first_named(names@) < names@.len() ==> names@[first_named(names@)] is Some,
            !prev_is_named_arg ==> first_named_arg == names@.len() && i <= first_named(names@),
            prev_is_named_arg ==> first_named_arg == first_named(names@) && first_named_arg < i
                && next_unnamed(names@, first_named_arg as int) == next_unnamed(names@, i as int),
        decreases names@.len() - i,
    {
        let is_named_arg = names[i].is_some();
        if is_named_arg {
            if !prev_is_named_arg {
                first_named_arg = i;
                proof {
                    lemma_next_unnamed(names@, i as int);
                }
            }
        } else if prev_is_named_arg {
            return Err(ArgsError::PositionalAfterNamed(i));
        }
        prev_is_named_arg = is_named_arg;
        i += 1;
    }
    proof {
        lemma_next_unnamed(names@, first_named(names@));
    }

    let mut unused_args: Vec<bool> = Vec::new();
    let mut i: usize = 0;
    while i < names.len()
        invariant
            0 <= i <= names@.len(),
            unused_args@.len() == i,
            forall|j: int| 0 <= j < i ==> unused_args@[j],
        decreases names@.len() - i,
    {
        unused_args.push(true);
        i += 1;
    }

    let mut current_pos_arg: usize = 0;
    let mut problems: Vec<ArgsProblem> = Vec::new();
    let mut list: Vec<ExpandInto> = Vec::new();
    let mut k: usize = 0;
    proof {
        assert(components@.subrange(0, 0) =~= Seq::<FmtStrComponent>::empty());
    }
    while k < components.len()
        invariant
            0 <= k <= components@.len(),
            first_named_arg == first_named(names@),
            first_named_arg <= names@.len(),
            unused_args@.len() == names@.len(),
            forall|k: int|
                0 <= k < components@.len() ==> piece_in_bounds(
                    #[trigger] components@[k],
                    format@.len() as int,
                ),
            current_pos_arg == implicit_count(components@.subrange(0, k as int)),
            list@ == expanded(format@, names@, components@.subrange(0, k as int)),
            problems@ == missing(names@, components@.subrange(0, k as int)),
            forall|j: int|
                0 <= j < names@.len() ==> unused_args@[j] == !is_used(
                    format@,
                    names@,
                    components@.subrange(0, k as int),
                    j,
                ),
        decreases components@.len() - k,
    {
        let ghost before = components@.subrange(0, k as int);
        let ghost now = components@.subrange(0, k + 1);
        let ghost implicit = implicit_count(before);
        let ghost was_unused = unused_args@;
        proof {
            assert(now.drop_last() =~= before);
            assert(now.last() == components@[k as int]);
            lemma_implicit_count(before);
        }
        let component = components[k];
        let mut used: Option<usize> = None;
        match component {
            FmtStrComponent::Str { start, end } => {
                list.push(ExpandInto::Str { start, end });
            },
            FmtStrComponent::Arg(arg) => {
                let variable = match arg.which_arg {
                    WhichArg::Ident { start, end } => {
                        let at = find_name(format, start, end, names);
                        if at < names.len() {
                            used = Some(at);
                            Variable::Local(at)
                        } else {
                            Variable::InScope { start, end }
                        }
                    },
                    WhichArg::Positional(position) => {
                        let at = match position {
                            Some(at) => at,
                            None => {
                                let at = current_pos_arg;
                                current_pos_arg += 1;
                                at
                            },
                        };
                        if at < first_named_arg {
                            used = Some(at);
                        } else {
                            problems.push(ArgsProblem::NonexistentPositional(at));
                        }
                        Variable::Local(at)
                    },
                };
                list.push(
                    ExpandInto::Formatted(
                        ExpandFormatted { variable, formatting: arg.formatting, flags: arg.flags },
                    ),
                );
            },
        }
        proof {
            assert(used matches Some(at) ==> used_argument(format@, names@, component, implicit)
                == Some(at as int));
            assert(used is None ==> used_argument(format@, names@, component, implicit) is None);
        }
        match used {
            Some(at) => {
                unused_args[at] = false;
            },
            None => {},
        }
        proof {
            assert forall|j: int| 0 <= j < names@.len() implies unused_args@[j] == !is_used(
                format@,
                names@,
                now,
                j,
            ) by {
                assert(was_unused[j] == !is_used(format@, names@, before, j));
            }
        }
        k += 1;
    }
    proof {
        assert(components@.subrange(0, k as int) =~= components@);
        lemma_missing_len(names@, components@);
    }

    let ghost all_missing = problems@;
    let mut i: usize = 0;
    while i < names.len()
        invariant
            0 <= i <= names@.len(),
            unused_args@.len() == names@.len(),
            all_missing == missing(names@, components@),
            all_missing.len() <= components@.len(),
            forall|j: int|
                0 <= j < names@.len() ==> unused_args@[j] == !is_used(
                    format@,
                    names@,
                    components@,
                    j,
                ),
            problems@ == all_missing + unused(format@, names@, components@, i as int),
        decreases names@.len() - i,
    {
        proof {
            lemma_unused_len(format@, names@, components@, i as int);
        }
        if unused_args[i] {
            problems.push(ArgsProblem::Unused(i));
        }
        proof {
            let before = unused(format@, names@, components@, i as int);
            if unused_args@[i as int] {
                assert(all_missing + before.push(ArgsProblem::Unused(i)) =~= (all_missing
                    + before).push(ArgsProblem::Unused(i)));
            }
        }
        i += 1;
    }

    if problems.len() > 0 {
        Err(ArgsError::Problems(problems))
    } else {
        proof {
            assert(problems@.len() == 0);
            assert(all_missing.len() == 0);
        }
        Ok(list)
    }
}

/// The name of the local variable that holds the value of argument `index` where a
/// format string is expanded into code: the prefix, and behind it the name of the
/// argument or, for one without a name, its index in decimal.
pub open spec fn local_name(prefix: Seq<u8>, index: nat, name: Option<Seq<u8>>) -> Seq<u8> {
    prefix + match name {
        Some(name) => name,
        None => digits(index, 10),
    }
}

/// Whether a byte string is a name: an ASCII letter or `_`, then ASCII letters, digits
/// and `_`.
pub open spec fn is_ident(name: Seq<u8>) -> bool {
    &&& name.len() > 0
    &&& is_ident_start(name[0])
    &&& forall|i: int| 0 <= i < name.len() ==> is_ident_continue(#[trigger] name[i])
}

/// The name of a local variable is a name where the prefix is one and the name of the
/// argument, where it has one, is one too.
pub proof fn lemma_local_name_is_ident(prefix: Seq<u8>, index: nat, name: Option<Seq<u8>>)
    requires
        is_ident(prefix),
        name matches Some(given) ==> is_ident(given),
    ensures
        is_ident(local_name(prefix, index, name)),
{
    let whole = local_name(prefix, index, name);
    let tail = match name {
        Some(given) => given,
        None => digits(index, 10),
    };
    lemma_decimal_digits_are_digits(index);
    assert forall|i: int| 0 <= i < whole.len() implies is_ident_continue(#[trigger] whole[i]) by {
        if i >= prefix.len() {
            assert(whole[i] == tail[i - prefix.len()]);
        }
    }
}

/// Decimal digits are ASCII digits.
pub proof fn lemma_decimal_digits_are_digits(n: nat)
    ensures
        forall|i: int| 0 <= i < digits(n, 10).len() ==> is_digit(#[trigger] digits(n, 10)[i]),
    decreases n,
{
    if n >= 10 {
        lemma_decimal_digits_are_digits(n / 10);
        let shorter = digits(n / 10, 10);
        assert forall|i: int| 0 <= i < digits(n, 10).len() implies is_digit(
            #[trigger] digits(n, 10)[i],
        ) by {
            if i < shorter.len() {
                assert(digits(n, 10)[i] == shorter[i]);
            }
        }
    }
}

/// Makes the name of the local variable of argument `index`.
pub fn local_variable_name(prefix: &[u8], index: usize, name: Option<&[u8]>) -> (out: Vec<u8>)
    ensures
        out@ == local_name(
            prefix@,
            index as nat,
            match name {
                Some(name) => Some(name@),
                None => None,
            },
        ),
{
    let mut out: Vec<u8> = Vec::new();
    append(&mut out, prefix);
    match name {
        Some(name) => {
            append(&mut out, name);
        },
        None => {
            let number = PWrapper(
                Integer { unsigned: index as u128, is_negative: false, mask: u128::MAX },
            ).to_start_array_display();
            append(
                &mut out,
                vstd::slice::slice_subrange(number.array.as_slice(), number.start, 40),
            );
            proof {
                assert(decimal_text(index as nat, false) =~= digits(index as nat, 10));
            }
        },
    }
    proof {
        assert(Seq::<u8>::empty() + prefix@ =~= prefix@);
    }
    out
}

/// Appends `bytes` to `out`.
fn append(out: &mut Vec<u8>, bytes: &[u8])
    ensures
        final(out)@ == old(out)@ + bytes@,
{
    let mut i: usize = 0;
    proof {
        assert(out@ =~= old(out)@ + bytes@.subrange(0, 0));
    }
    while i < bytes.len()
        invariant
            0 <= i <= bytes@.len(),
            out@ == old(out)@ + bytes@.subrange(0, i as int),
        decreases bytes@.len() - i,
    {
        out.push(bytes[i]);
        proof {
            assert(out@ =~= old(out)@ + bytes@.subrange(0, i + 1));
        }
        i += 1;
    }
    proof {
        assert(bytes@.subrange(0, i as int) =~= bytes@);
    }
}

/// Whether two byte strings are the same.
pub fn bytes_eq(a: &[u8], b: &[u8]) -> (same: bool)
    ensures
        same == (a@ == b@),
{
    if a.len() != b.len() {
        return false;
    }
    let mut i: usize = 0;
    while i < a.len()
        invariant
            0 <= i <= a@.len(),
            a@.len() == b@.len(),
            a@.subrange(0, i as int) == b@.subrange(0, i as int),
        decreases a@.len() - i,
    {
        if a[i] != b[i] {
            return false;
        }
        proof {
            assert(a@.subrange(0, i + 1) =~= a@.subrange(0, i as int).push(a@[i as int]));
            assert(b@.subrange(0, i + 1) =~= b@.subrange(0, i as int).push(b@[i as int]));
        }
        i += 1;
    }
    proof {
        assert(a@.subrange(0, i as int) =~= a@);
        assert(b@.subrange(0, i as int) =~= b@);
    }
    true
}

} // verus!
