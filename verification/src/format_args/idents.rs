//! Making the identifiers of the local variables that a format string is expanded into.
//!
//! An identifier of `proc_macro2` can only be made from text that is an identifier;
//! from other text the making panics. Here the text is tested first, so the call is
//! never made with text that it panics on.

use crate::format_args::{is_ident, local_name, local_variable_name};
use crate::format_str_parsing::{is_ident_continue, is_ident_start};
use crate::fmt::str_writer::str_from_utf8;
use crate::text::lemma_ascii_is_utf8;
use proc_macro2::{Ident, Span};
use vstd::prelude::*;
use vstd::string::StringSliceAdditionalSpecFns;

verus! {

/// `proc_macro2::Ident`, an identifier with the place in the source that it belongs to.
/// Nothing is known of what a value holds.
#[verifier::external_type_specification]
#[verifier::external_body]
pub struct ExIdent(proc_macro2::Ident);

/// `proc_macro2::Span`, a place in the source. Nothing is known of what a value holds.
#[verifier::external_type_specification]
#[verifier::external_body]
pub struct ExSpan(proc_macro2::Span);

/// Whether a byte string can name a variable: it is a name, and not `_` alone.
pub open spec fn is_variable_name(name: Seq<u8>) -> bool {
    is_ident(name) && name != seq![95u8]
}

/// Calls `proc_macro2::Ident::new`, which panics unless the text is a keyword or a legal
/// name of a variable. The text asked for here is one of the two: ASCII letters, digits
/// and `_`, not beginning with a digit, and not `_` alone. Nothing is claimed of the
/// identifier that comes back.
#[verifier::external_body]
fn new_ident(text: &str, span: Span) -> Ident
    requires
        is_variable_name(text.spec_bytes()),
{
    Ident::new(text, span)
}

/// The text of an identifier: what `to_string` of `proc_macro2::Ident` returns for it.
/// It is the symbol that the identifier holds, behind `r#` for a raw identifier, so it
/// is the same whenever it is asked for. Nothing else is known of it.
pub uninterp spec fn ident_name(ident: Ident) -> Seq<char>;

/// The text of an identifier. Calls `to_string` of `proc_macro2::Ident`, and claims only
/// that the text is the one that the identifier has.
#[verifier::external_body]
fn ident_text(ident: &Ident) -> (text: String)
    ensures
        text@ == ident_name(*ident),
{
    ident.to_string()
}

/// The text of an identifier as bytes.
pub open spec fn ident_bytes(ident: Ident) -> Seq<u8> {
    vstd::utf8::encode_utf8(ident_name(ident))
}

/// Whether `name` can name a variable.
pub fn can_name_variable(name: &[u8]) -> (yes: bool)
    ensures
        yes == is_variable_name(name@),
{
    if name.len() == 0 {
        return false;
    }
    let first: u8 = name[0];
    if !((65 <= first && first <= 90) || (97 <= first && first <= 122) || first == 95) {
        return false;
    }
    if name.len() == 1 && first == 95 {
        proof {
            assert(name@ =~= seq![95u8]);
        }
        return false;
    }
    let mut i: usize = 0;
    while i < name.len()
        invariant
            0 <= i <= name@.len(),
            name@.len() > 0,
            is_ident_start(name@[0]),
            forall|j: int| 0 <= j < i ==> is_ident_continue(#[trigger] name@[j]),
        decreases name@.len() - i,
    {
        let b: u8 = name[i];
        if !((65 <= b && b <= 90) || (97 <= b && b <= 122) || b == 95 || (48 <= b && b <= 57)) {
            return false;
        }
        i += 1;
    }
    proof {
        if name@ == seq![95u8] {
            assert(name@.len() == 1);
        }
    }
    true
}

/// The identifier of the local variable of argument `index`: the prefix, and behind it
/// the name of the argument or, for one without a name, its index. `None` where that is
/// no name of a variable.
pub fn local_variable_from_text(
    prefix: &str,
    index: usize,
    name: Option<&str>,
    span: Span,
) -> (made: Option<Ident>)
    ensures
        made is Some <==> is_variable_name(
            local_name(
                prefix.spec_bytes(),
                index as nat,
                match name {
                    Some(name) => Some(name.spec_bytes()),
                    None => None,
                },
            ),
        ),
{
    let bytes = local_variable_name(
        prefix.as_bytes(),
        index,
        match name {
            Some(name) => Some(name.as_bytes()),
            None => None,
        },
    );
    variable_from_bytes(bytes.as_slice(), span)
}

/// The identifier with the name `name`. `None` where that is no name of a variable.
pub fn variable_from_bytes(name: &[u8], span: Span) -> (made: Option<Ident>)
    ensures
        made is Some <==> is_variable_name(name@),
{
    if !can_name_variable(name) {
        return None;
    }
    proof {
        assert forall|i: int| 0 <= i < name@.len() implies name@[i] < 128 by {
            assert(is_ident_continue(name@[i]));
        }
        lemma_ascii_is_utf8(name@);
    }
    match str_from_utf8(name) {
        Some(text) => Some(new_ident(text, span)),
        None => None,
    }
}

/// The identifier of the local variable of argument `index`, made from the identifier
/// that is the prefix and the identifier that is the name of the argument. `None` where
/// the texts of the two do not make a name of a variable.
pub fn local_variable(prefix: &Ident, index: usize, name: Option<&Ident>, span: Span) -> (made:
    Option<Ident>)
    ensures
        made is Some <==> is_variable_name(
            local_name(
                ident_bytes(*prefix),
                index as nat,
                match name {
                    Some(name) => Some(ident_bytes(*name)),
                    None => None,
                },
            ),
        ),
{
    let prefix_text = ident_text(prefix);
    match name {
        Some(name) => {
            let name_text = ident_text(name);
            local_variable_from_text(prefix_text.as_str(), index, Some(name_text.as_str()), span)
        },
        None => local_variable_from_text(prefix_text.as_str(), index, None, span),
    }
}

} // verus!
