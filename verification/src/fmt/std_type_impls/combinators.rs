//! Debug formatting of what is built from the supported types: options, slices and
//! arrays, and structs of one field.

use crate::fmt::error::Error;
use crate::fmt::formatter::{
    lemma_wrote_in_turn_stopped, lemma_wrote_in_turn_then, lemma_wrote_one_part, wrote_in_turn,
    Formatter, FormattingLength,
};
use crate::fmt::std_type_impls::const_debug::lemma_one_part;
use crate::formatting::FormattingFlags;
use crate::marker_traits::const_debug::ConstDebug;
use vstd::prelude::*;
use vstd::string::StringSliceAdditionalSpecFns;

verus! {

/// `Some`.
pub open spec fn some_text() -> Seq<u8> {
    seq![83u8, 111u8, 109u8, 101u8]
}

/// `None`.
pub open spec fn none_text() -> Seq<u8> {
    seq![78u8, 111u8, 110u8, 101u8]
}

/// `(`.
pub open spec fn open_paren() -> Seq<u8> {
    seq![40u8]
}

/// `)`.
pub open spec fn close_paren() -> Seq<u8> {
    seq![41u8]
}

proof fn lemma_option_literals()
    ensures
        "Some".spec_bytes() == some_text(),
        "None".spec_bytes() == none_text(),
        "(".spec_bytes() == open_paren(),
        ")".spec_bytes() == close_paren(),
{
    reveal_strlit("Some");
    reveal_strlit("None");
    reveal_strlit("(");
    reveal_strlit(")");
    vstd::utf8::is_ascii_chars_encode_utf8("Some"@);
    vstd::utf8::is_ascii_chars_encode_utf8("None"@);
    vstd::utf8::is_ascii_chars_encode_utf8("("@);
    vstd::utf8::is_ascii_chars_encode_utf8(")"@);
    assert("Some".spec_bytes() =~= some_text());
    assert("None".spec_bytes() =~= none_text());
    assert("(".spec_bytes() =~= open_paren());
    assert(")".spec_bytes() =~= close_paren());
}

impl<T: ConstDebug> ConstDebug for Option<T> {
    /// `None`, or `Some`, a parenthesis, the parts of the value, a parenthesis.
    open spec fn debug_parts(&self, flags: FormattingFlags) -> Seq<Seq<u8>> {
        match self {
            Some(value) => seq![some_text(), open_paren()] + value.debug_parts(flags)
                + seq![close_paren()],
            None => seq![none_text()],
        }
    }

    fn const_debug_len(&self, f: &mut FormattingLength) {
        match self {
            Some(value) => {
                proof {
                    let inner = value.debug_parts(f.flags);
                    vstd::seq_lib::lemma_flatten_concat(seq![some_text(), open_paren()], inner);
                    vstd::seq_lib::lemma_flatten_concat(
                        seq![some_text(), open_paren()] + inner,
                        seq![close_paren()],
                    );
                    lemma_one_part(close_paren());
                    assert(seq![some_text(), open_paren()].flatten() =~= some_text()
                        + open_paren()) by {
                        reveal_with_fuel(Seq::flatten, 3);
                        assert(seq![some_text(), open_paren()].drop_first() =~= seq![open_paren()]);
                        assert(seq![open_paren()].drop_first() =~= Seq::<Seq<u8>>::empty());
                    }
                }
                f.add_len(5);
                value.const_debug_len(f);
                f.add_len(1);
            },
            None => {
                proof {
                    lemma_one_part(none_text());
                }
                f.add_len(4);
            },
        }
    }

    fn const_debug_fmt<const N: usize>(&self, f: &mut Formatter<'_, N>) -> (res: Result<
        (),
        Error,
    >) {
        proof {
            lemma_option_literals();
        }
        match self {
            Some(value) => {
                let ghost inner = value.debug_parts(f.flags);
                let ghost rest = seq![open_paren()] + inner + seq![close_paren()];
                let ghost rest2 = inner + seq![close_paren()];
                proof {
                    assert(self.debug_parts(f.flags) =~= seq![some_text()] + rest);
                    assert(rest =~= seq![open_paren()] + rest2);
                }
                let r0 = f.write_str("Some");
                proof {
                    lemma_wrote_one_part(*old(f), *f, some_text(), r0);
                }
                if r0.is_err() {
                    proof {
                        lemma_wrote_in_turn_stopped(*old(f), *f, seq![some_text()], rest, r0);
                    }
                    return r0;
                }
                let ghost f1 = *f;
                let r1 = f.write_str("(");
                proof {
                    lemma_wrote_one_part(f1, *f, open_paren(), r1);
                }
                if r1.is_err() {
                    proof {
                        lemma_wrote_in_turn_stopped(f1, *f, seq![open_paren()], rest2, r1);
                        lemma_wrote_in_turn_then(*old(f), f1, *f, seq![some_text()], rest, r1);
                    }
                    return r1;
                }
                let ghost f2 = *f;
                let r2 = value.const_debug_fmt(f);
                if r2.is_err() {
                    proof {
                        lemma_wrote_in_turn_stopped(f2, *f, inner, seq![close_paren()], r2);
                        lemma_wrote_in_turn_then(f1, f2, *f, seq![open_paren()], rest2, r2);
                        lemma_wrote_in_turn_then(*old(f), f1, *f, seq![some_text()], rest, r2);
                    }
                    return r2;
                }
                let ghost f3 = *f;
                let r3 = f.write_str(")");
                proof {
                    lemma_wrote_one_part(f3, *f, close_paren(), r3);
                    lemma_wrote_in_turn_then(f2, f3, *f, inner, seq![close_paren()], r3);
                    lemma_wrote_in_turn_then(f1, f2, *f, seq![open_paren()], rest2, r3);
                    lemma_wrote_in_turn_then(*old(f), f1, *f, seq![some_text()], rest, r3);
                }
                r3
            },
            None => {
                let res = f.write_str("None");
                proof {
                    lemma_wrote_one_part(*old(f), *f, none_text(), res);
                }
                res
            },
        }
    }
}

/// `[`.
pub open spec fn open_bracket() -> Seq<u8> {
    seq![91u8]
}

/// `]`.
pub open spec fn close_bracket() -> Seq<u8> {
    seq![93u8]
}

/// A comma and a space.
pub open spec fn comma_text() -> Seq<u8> {
    seq![44u8, 32u8]
}

proof fn lemma_list_literals()
    ensures
        "[".spec_bytes() == open_bracket(),
        "]".spec_bytes() == close_bracket(),
        ", ".spec_bytes() == comma_text(),
{
    reveal_strlit("[");
    reveal_strlit("]");
    reveal_strlit(", ");
    vstd::utf8::is_ascii_chars_encode_utf8("["@);
    vstd::utf8::is_ascii_chars_encode_utf8("]"@);
    vstd::utf8::is_ascii_chars_encode_utf8(", "@);
    assert("[".spec_bytes() =~= open_bracket());
    assert("]".spec_bytes() =~= close_bracket());
    assert(", ".spec_bytes() =~= comma_text());
}

/// What stands before an item of a list: nothing before the first, a comma and a space
/// before the others.
pub open spec fn separator_parts(index: int) -> Seq<Seq<u8>> {
    if index > 0 {
        seq![comma_text()]
    } else {
        Seq::<Seq<u8>>::empty()
    }
}

/// The parts of the items of a list from index `from` on, each behind its separator.
pub open spec fn items_parts<T: ConstDebug>(
    items: Seq<T>,
    from: int,
    flags: FormattingFlags,
) -> Seq<Seq<u8>>
    decreases items.len() - from,
{
    if from < 0 || from >= items.len() {
        Seq::<Seq<u8>>::empty()
    } else {
        separator_parts(from) + items[from].debug_parts(flags) + items_parts(
            items,
            from + 1,
            flags,
        )
    }
}

/// The parts of a list: a bracket, the items with their separators, a bracket.
pub open spec fn list_parts<T: ConstDebug>(items: Seq<T>, flags: FormattingFlags) -> Seq<Seq<u8>> {
    seq![open_bracket()] + items_parts(items, 0, flags) + seq![close_bracket()]
}

impl<T: ConstDebug> ConstDebug for [T] {
    open spec fn debug_parts(&self, flags: FormattingFlags) -> Seq<Seq<u8>> {
        list_parts(self@, flags)
    }

    fn const_debug_len(&self, f: &mut FormattingLength) {
        let ghost flags = f.flags;
        let ghost all = items_parts(self@, 0, flags);
        let ghost mut done: Seq<Seq<u8>> = Seq::empty();
        proof {
            lemma_one_part(open_bracket());
            lemma_one_part(close_bracket());
            lemma_one_part(comma_text());
            vstd::seq_lib::lemma_flatten_concat(seq![open_bracket()], all);
            vstd::seq_lib::lemma_flatten_concat(seq![open_bracket()] + all, seq![close_bracket()]);
            assert(done + all =~= all);
            assert(done.flatten() =~= Seq::<u8>::empty());
        }
        f.add_len(1);
        let mut n: usize = 0;
        while n < self.len()
            invariant
                0 <= n <= self@.len(),
                flags == old(f).flags,
                f.flags == flags,
                all == items_parts(self@, 0, flags),
                done + items_parts(self@, n as int, flags) == all,
                f.len == old(f).len + 1 + done.flatten().len(),
                old(f).len + 1 + all.flatten().len() + 1 <= usize::MAX,
            decreases self@.len() - n,
        {
            let ghost sep = separator_parts(n as int);
            let ghost item = self@[n as int].debug_parts(flags);
            let ghost rest = items_parts(self@, n + 1, flags);
            proof {
                assert(done + (sep + item + rest) =~= (done + sep + item) + rest);
                vstd::seq_lib::lemma_flatten_concat(done + sep + item, rest);
                vstd::seq_lib::lemma_flatten_concat(done + sep, item);
                vstd::seq_lib::lemma_flatten_concat(done, sep);
                lemma_one_part(comma_text());
                assert(Seq::<Seq<u8>>::empty().flatten() =~= Seq::<u8>::empty());
            }
            if n > 0 {
                f.add_len(2);
            }
            self[n].const_debug_len(f);
            proof {
                done = done + sep + item;
            }
            n += 1;
        }
        proof {
            assert(done + Seq::<Seq<u8>>::empty() =~= done);
        }
        f.add_len(1);
    }

    fn const_debug_fmt<const N: usize>(&self, f: &mut Formatter<'_, N>) -> (res: Result<
        (),
        Error,
    >) {
        let ghost flags = f.flags;
        let ghost all = items_parts(self@, 0, flags);
        let ghost close = seq![close_bracket()];
        let ghost mut done: Seq<Seq<u8>> = seq![open_bracket()];
        proof {
            lemma_list_literals();
            assert(list_parts(self@, flags) =~= done + (all + close));
        }
        let r0 = f.write_str("[");
        proof {
            lemma_wrote_one_part(*old(f), *f, open_bracket(), r0);
        }
        if r0.is_err() {
            proof {
                lemma_wrote_in_turn_stopped(*old(f), *f, done, all + close, r0);
            }
            return r0;
        }
        let mut n: usize = 0;
        while n < self.len()
            invariant
                0 <= n <= self@.len(),
                flags == old(f).flags,
                all == items_parts(self@, 0, flags),
                close == seq![close_bracket()],
                ", ".spec_bytes() == comma_text(),
                "]".spec_bytes() == close_bracket(),
                done + items_parts(self@, n as int, flags) + close == list_parts(self@, flags),
                wrote_in_turn(*old(f), *f, done, Ok(())),
                *final(f.writer) == *final(old(f).writer),
            decreases self@.len() - n,
        {
            let ghost sep = separator_parts(n as int);
            let ghost item = self@[n as int].debug_parts(flags);
            let ghost rest = items_parts(self@, n + 1, flags);
            let ghost start = *f;
            proof {
                assert(done + (sep + item + rest) + close =~= done + (sep + (item + rest + close)));
                assert(done + (sep + item + rest) + close =~= (done + sep) + (item + (rest
                    + close)));
                assert(done + (sep + item + rest) + close =~= (done + sep + item) + rest + close);
            }
            if n > 0 {
                let r1 = f.write_str(", ");
                proof {
                    lemma_wrote_one_part(start, *f, comma_text(), r1);
                }
                if r1.is_err() {
                    proof {
                        lemma_wrote_in_turn_stopped(start, *f, sep, item + rest + close, r1);
                        lemma_wrote_in_turn_then(
                            *old(f),
                            start,
                            *f,
                            done,
                            sep + (item + rest + close),
                            r1,
                        );
                    }
                    return r1;
                }
                proof {
                    lemma_wrote_in_turn_then(*old(f), start, *f, done, sep, r1);
                }
            } else {
                proof {
                    assert(done + sep =~= done);
                }
            }
            let ghost middle = *f;
            let r2 = self[n].const_debug_fmt(f);
            if r2.is_err() {
                proof {
                    lemma_wrote_in_turn_stopped(middle, *f, item, rest + close, r2);
                    lemma_wrote_in_turn_then(
                        *old(f),
                        middle,
                        *f,
                        done + sep,
                        item + (rest + close),
                        r2,
                    );
                }
                return r2;
            }
            proof {
                lemma_wrote_in_turn_then(*old(f), middle, *f, done + sep, item, r2);
                done = done + sep + item;
            }
            n += 1;
        }
        let ghost last = *f;
        let r3 = f.write_str("]");
        proof {
            lemma_wrote_one_part(last, *f, close_bracket(), r3);
            lemma_wrote_in_turn_then(*old(f), last, *f, done, close, r3);
            assert(done + Seq::<Seq<u8>>::empty() + close =~= done + close);
        }
        r3
    }
}

impl<T: ConstDebug, const M: usize> ConstDebug for [T; M] {
    /// An array is written as the slice of its items.
    open spec fn debug_parts(&self, flags: FormattingFlags) -> Seq<Seq<u8>> {
        list_parts(self@, flags)
    }

    fn const_debug_len(&self, f: &mut FormattingLength) {
        self.as_slice().const_debug_len(f)
    }

    fn const_debug_fmt<const N: usize>(&self, f: &mut Formatter<'_, N>) -> (res: Result<
        (),
        Error,
    >) {
        self.as_slice().const_debug_fmt(f)
    }
}

impl<A: ConstDebug, B: ConstDebug> ConstDebug for (A, B) {
    /// A parenthesis, the parts of the first value, a comma and a space, the parts of the
    /// second value, a parenthesis.
    open spec fn debug_parts(&self, flags: FormattingFlags) -> Seq<Seq<u8>> {
        seq![open_paren()] + self.0.debug_parts(flags) + seq![comma_text()] + self.1.debug_parts(
            flags,
        ) + seq![close_paren()]
    }

    fn const_debug_len(&self, f: &mut FormattingLength) {
        proof {
            let first = self.0.debug_parts(f.flags);
            let second = self.1.debug_parts(f.flags);
            lemma_one_part(open_paren());
            lemma_one_part(comma_text());
            lemma_one_part(close_paren());
            vstd::seq_lib::lemma_flatten_concat(seq![open_paren()], first);
            vstd::seq_lib::lemma_flatten_concat(seq![open_paren()] + first, seq![comma_text()]);
            vstd::seq_lib::lemma_flatten_concat(
                seq![open_paren()] + first + seq![comma_text()],
                second,
            );
            vstd::seq_lib::lemma_flatten_concat(
                seq![open_paren()] + first + seq![comma_text()] + second,
                seq![close_paren()],
            );
        }
        f.add_len(1);
        self.0.const_debug_len(f);
        f.add_len(2);
        self.1.const_debug_len(f);
        f.add_len(1);
    }

    fn const_debug_fmt<const N: usize>(&self, f: &mut Formatter<'_, N>) -> (res: Result<
        (),
        Error,
    >) {
        proof {
            lemma_option_literals();
            lemma_list_literals();
        }
        let ghost first = self.0.debug_parts(f.flags);
        let ghost second = self.1.debug_parts(f.flags);
        let ghost rest4 = seq![close_paren()];
        let ghost rest3 = second + rest4;
        let ghost rest2 = seq![comma_text()] + rest3;
        let ghost rest1 = first + rest2;
        proof {
            assert(self.debug_parts(f.flags) =~= seq![open_paren()] + rest1);
        }
        let r0 = f.write_str("(");
        proof {
            lemma_wrote_one_part(*old(f), *f, open_paren(), r0);
        }
        if r0.is_err() {
            proof {
                lemma_wrote_in_turn_stopped(*old(f), *f, seq![open_paren()], rest1, r0);
            }
            return r0;
        }
        let ghost f1 = *f;
        let r1 = self.0.const_debug_fmt(f);
        if r1.is_err() {
            proof {
                lemma_wrote_in_turn_stopped(f1, *f, first, rest2, r1);
                lemma_wrote_in_turn_then(*old(f), f1, *f, seq![open_paren()], rest1, r1);
            }
            return r1;
        }
        let ghost f2 = *f;
        let r2 = f.write_str(", ");
        proof {
            lemma_wrote_one_part(f2, *f, comma_text(), r2);
        }
        if r2.is_err() {
            proof {
                lemma_wrote_in_turn_stopped(f2, *f, seq![comma_text()], rest3, r2);
                lemma_wrote_in_turn_then(f1, f2, *f, first, rest2, r2);
                lemma_wrote_in_turn_then(*old(f), f1, *f, seq![open_paren()], rest1, r2);
            }
            return r2;
        }
        let ghost f3 = *f;
        let r3 = self.1.const_debug_fmt(f);
        if r3.is_err() {
            proof {
                lemma_wrote_in_turn_stopped(f3, *f, second, rest4, r3);
                lemma_wrote_in_turn_then(f2, f3, *f, seq![comma_text()], rest3, r3);
                lemma_wrote_in_turn_then(f1, f2, *f, first, rest2, r3);
                lemma_wrote_in_turn_then(*old(f), f1, *f, seq![open_paren()], rest1, r3);
            }
            return r3;
        }
        let ghost f4 = *f;
        let r4 = f.write_str(")");
        proof {
            lemma_wrote_one_part(f4, *f, close_paren(), r4);
            lemma_wrote_in_turn_then(f3, f4, *f, second, rest4, r4);
            lemma_wrote_in_turn_then(f2, f3, *f, seq![comma_text()], rest3, r4);
            lemma_wrote_in_turn_then(f1, f2, *f, first, rest2, r4);
            lemma_wrote_in_turn_then(*old(f), f1, *f, seq![open_paren()], rest1, r4);
        }
        r4
    }
}

/// A struct of one field, for debug formatting: the name of the struct and the field.
pub struct Newtype<'a, T> {
    pub name: &'a str,
    pub field: &'a T,
}

impl<'a, T: ConstDebug> ConstDebug for Newtype<'a, T> {
    /// The name, a parenthesis, the parts of the field, a parenthesis.
    open spec fn debug_parts(&self, flags: FormattingFlags) -> Seq<Seq<u8>> {
        seq![self.name.spec_bytes(), open_paren()] + self.field.debug_parts(flags)
            + seq![close_paren()]
    }

    fn const_debug_len(&self, f: &mut FormattingLength) {
        proof {
            let inner = self.field.debug_parts(f.flags);
            let front = seq![self.name.spec_bytes(), open_paren()];
            vstd::seq_lib::lemma_flatten_concat(front, inner);
            vstd::seq_lib::lemma_flatten_concat(front + inner, seq![close_paren()]);
            lemma_one_part(close_paren());
            assert(front.flatten() =~= self.name.spec_bytes() + open_paren()) by {
                reveal_with_fuel(Seq::flatten, 3);
                assert(front.drop_first() =~= seq![open_paren()]);
                assert(seq![open_paren()].drop_first() =~= Seq::<Seq<u8>>::empty());
            }
        }
        f.add_len(self.name.as_bytes().len());
        f.add_len(1);
        self.field.const_debug_len(f);
        f.add_len(1);
    }

    fn const_debug_fmt<const N: usize>(&self, f: &mut Formatter<'_, N>) -> (res: Result<
        (),
        Error,
    >) {
        proof {
            lemma_option_literals();
        }
        let ghost name = self.name.spec_bytes();
        let ghost inner = self.field.debug_parts(f.flags);
        let ghost rest = seq![open_paren()] + inner + seq![close_paren()];
        let ghost rest2 = inner + seq![close_paren()];
        proof {
            assert(self.debug_parts(f.flags) =~= seq![name] + rest);
            assert(rest =~= seq![open_paren()] + rest2);
        }
        let r0 = f.write_str(self.name);
        proof {
            lemma_wrote_one_part(*old(f), *f, name, r0);
        }
        if r0.is_err() {
            proof {
                lemma_wrote_in_turn_stopped(*old(f), *f, seq![name], rest, r0);
            }
            return r0;
        }
        let ghost f1 = *f;
        let r1 = f.write_str("(");
        proof {
            lemma_wrote_one_part(f1, *f, open_paren(), r1);
        }
        if r1.is_err() {
            proof {
                lemma_wrote_in_turn_stopped(f1, *f, seq![open_paren()], rest2, r1);
                lemma_wrote_in_turn_then(*old(f), f1, *f, seq![name], rest, r1);
            }
            return r1;
        }
        let ghost f2 = *f;
        let r2 = self.field.const_debug_fmt(f);
        if r2.is_err() {
            proof {
                lemma_wrote_in_turn_stopped(f2, *f, inner, seq![close_paren()], r2);
                lemma_wrote_in_turn_then(f1, f2, *f, seq![open_paren()], rest2, r2);
                lemma_wrote_in_turn_then(*old(f), f1, *f, seq![name], rest, r2);
            }
            return r2;
        }
        let ghost f3 = *f;
        let r3 = f.write_str(")");
        proof {
            lemma_wrote_one_part(f3, *f, close_paren(), r3);
            lemma_wrote_in_turn_then(f2, f3, *f, inner, seq![close_paren()], r3);
            lemma_wrote_in_turn_then(f1, f2, *f, seq![open_paren()], rest2, r3);
            lemma_wrote_in_turn_then(*old(f), f1, *f, seq![name], rest, r3);
        }
        r3
    }
}

} // verus!
