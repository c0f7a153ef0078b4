//! Counting and writing the string slices and the booleans, and in the modules below the
//! ranges and what is built from other values.

pub mod combinators;
pub mod const_debug;
pub mod ranges;

use crate::fmt::error::Error;
use crate::fmt::formatter::{counted, wrote, Formatter, FormattingLength};
use crate::text::{
    char_text, lemma_char_text, lemma_escaped_text_len, quoted_char_text, quoted_text,
};
use crate::wrapper_types::pwrapper::PWrapper;
use vstd::prelude::*;
use vstd::string::StringSliceAdditionalSpecFns;

verus! {

impl PWrapper<&str> {
    /// Counts the string as it is.
    pub fn const_display_len(&self, f: &mut FormattingLength)
        requires
            old(f).len + self.0.spec_bytes().len() <= usize::MAX,
        ensures
            counted(*old(f), *final(f), self.0.spec_bytes()),
    {
        let len = self.compute_display_len(f.flags());
        f.add_len(len);
    }

    /// Counts the string between quotes and escaped.
    pub fn const_debug_len(&self, f: &mut FormattingLength)
        requires
            old(f).len + quoted_text(self.0.spec_bytes()).len() <= usize::MAX,
        ensures
            counted(*old(f), *final(f), quoted_text(self.0.spec_bytes())),
    {
        let len = self.compute_debug_len(f.flags());
        f.add_len(len);
    }

    /// Writes the string as it is.
    pub fn const_display_fmt<const N: usize>(&self, f: &mut Formatter<'_, N>) -> (res: Result<
        (),
        Error,
    >)
        ensures
            wrote(*old(f), *final(f), self.0.spec_bytes(), res),
            *final(final(f).writer) == *final(old(f).writer),
    {
        f.write_str(self.0)
    }

    /// Writes the string between quotes and escaped.
    pub fn const_debug_fmt<const N: usize>(&self, f: &mut Formatter<'_, N>) -> (res: Result<
        (),
        Error,
    >)
        ensures
            wrote(*old(f), *final(f), quoted_text(self.0.spec_bytes()), res),
            *final(final(f).writer) == *final(old(f).writer),
    {
        f.write_str_debug(self.0)
    }
}

/// `true` or `false`.
pub open spec fn bool_text(value: bool) -> Seq<u8> {
    if value {
        seq![116u8, 114u8, 117u8, 101u8]
    } else {
        seq![102u8, 97u8, 108u8, 115u8, 101u8]
    }
}

pub proof fn lemma_bool_literals()
    ensures
        "true".spec_bytes() == bool_text(true),
        "false".spec_bytes() == bool_text(false),
{
    reveal_strlit("true");
    reveal_strlit("false");
    vstd::utf8::is_ascii_chars_encode_utf8("true"@);
    vstd::utf8::is_ascii_chars_encode_utf8("false"@);
    assert("true".spec_bytes() =~= bool_text(true));
    assert("false".spec_bytes() =~= bool_text(false));
}

impl PWrapper<bool> {
    /// The length of `true` or of `false`. The flags play no part.
    pub fn compute_display_len(self, _flags: crate::formatting::FormattingFlags) -> (len: usize)
        ensures
            len == bool_text(self.0).len(),
    {
        if self.0 {
            4
        } else {
            5
        }
    }

    /// The same as [`Self::compute_display_len`].
    pub fn compute_debug_len(self, flags: crate::formatting::FormattingFlags) -> (len: usize)
        ensures
            len == bool_text(self.0).len(),
    {
        self.compute_display_len(flags)
    }

    /// Counts `true` or `false`.
    pub fn const_display_len(&self, f: &mut FormattingLength)
        requires
            old(f).len + bool_text(self.0).len() <= usize::MAX,
        ensures
            counted(*old(f), *final(f), bool_text(self.0)),
    {
        let len = self.compute_display_len(f.flags());
        f.add_len(len);
    }

    /// Counts `true` or `false`.
    pub fn const_debug_len(&self, f: &mut FormattingLength)
        requires
            old(f).len + bool_text(self.0).len() <= usize::MAX,
        ensures
            counted(*old(f), *final(f), bool_text(self.0)),
    {
        self.const_display_len(f)
    }

    /// Writes `true` or `false`.
    pub fn const_display_fmt<const N: usize>(&self, f: &mut Formatter<'_, N>) -> (res: Result<
        (),
        Error,
    >)
        ensures
            wrote(*old(f), *final(f), bool_text(self.0), res),
            *final(final(f).writer) == *final(old(f).writer),
    {
        proof {
            lemma_bool_literals();
        }
        f.write_str(
            if self.0 {
                "true"
            } else {
                "false"
            },
        )
    }

    /// Writes `true` or `false`.
    pub fn const_debug_fmt<const N: usize>(&self, f: &mut Formatter<'_, N>) -> (res: Result<
        (),
        Error,
    >)
        ensures
            wrote(*old(f), *final(f), bool_text(self.0), res),
            *final(final(f).writer) == *final(old(f).writer),
    {
        self.const_display_fmt(f)
    }
}

impl PWrapper<char> {
    /// The bytes of the character as text: one to four of them, at the front of the
    /// array.
    pub fn to_utf8(self) -> (out: (usize, [u8; 4]))
        ensures
            1 <= out.0 <= 4,
            out.1@.subrange(0, out.0 as int) == char_text(self.0),
    {
        let scalar: u32 = self.0 as u32;
        proof {
            vstd::utf8::char_is_scalar(self.0);
        }
        let out = if scalar <= 0x7F {
            (
                1usize,
                [
                    #[verifier::truncate]
                    ((scalar & 0x7F) as u8),
                    0u8,
                    0u8,
                    0u8,
                ],
            )
        } else if scalar <= 0x7FF {
            (
                2usize,
                [
                    0xC0 | #[verifier::truncate]
                    (((scalar >> 6) & 0x1F) as u8),
                    0x80 | #[verifier::truncate]
                    ((scalar & 0x3F) as u8),
                    0u8,
                    0u8,
                ],
            )
        } else if scalar <= 0xFFFF {
            (
                3usize,
                [
                    0xE0 | #[verifier::truncate]
                    (((scalar >> 12) & 0x0F) as u8),
                    0x80 | #[verifier::truncate]
                    (((scalar >> 6) & 0x3F) as u8),
                    0x80 | #[verifier::truncate]
                    ((scalar & 0x3F) as u8),
                    0u8,
                ],
            )
        } else {
            (
                4usize,
                [
                    0xF0 | #[verifier::truncate]
                    (((scalar >> 18) & 0x7) as u8),
                    0x80 | #[verifier::truncate]
                    (((scalar >> 12) & 0x3F) as u8),
                    0x80 | #[verifier::truncate]
                    (((scalar >> 6) & 0x3F) as u8),
                    0x80 | #[verifier::truncate]
                    ((scalar & 0x3F) as u8),
                ],
            )
        };
        proof {
            assert(out.1@.subrange(0, out.0 as int) =~= char_text(self.0));
        }
        out
    }

    /// The number of bytes of the character as text. The flags play no part.
    pub fn compute_display_len(self, _flags: crate::formatting::FormattingFlags) -> (len: usize)
        ensures
            len == char_text(self.0).len(),
    {
        self.to_utf8().0
    }

    /// The length of the character between single quotes and escaped. The flags play no
    /// part.
    pub fn compute_debug_len(self, _flags: crate::formatting::FormattingFlags) -> (len: usize)
        ensures
            len == quoted_char_text(self.0).len(),
    {
        let (len, bytes) = self.to_utf8();
        proof {
            lemma_escaped_text_len(char_text(self.0), 0);
        }
        PWrapper(vstd::slice::slice_subrange(bytes.as_slice(), 0, len)).compute_utf8_debug_len()
    }

    /// Counts the character as it is.
    pub fn const_display_len(&self, f: &mut FormattingLength)
        requires
            old(f).len + char_text(self.0).len() <= usize::MAX,
        ensures
            counted(*old(f), *final(f), char_text(self.0)),
    {
        let len = self.compute_display_len(f.flags());
        f.add_len(len);
    }

    /// Counts the character between single quotes and escaped.
    pub fn const_debug_len(&self, f: &mut FormattingLength)
        requires
            old(f).len + quoted_char_text(self.0).len() <= usize::MAX,
        ensures
            counted(*old(f), *final(f), quoted_char_text(self.0)),
    {
        let len = self.compute_debug_len(f.flags());
        f.add_len(len);
    }

    /// Writes the character as it is.
    pub fn const_display_fmt<const N: usize>(&self, f: &mut Formatter<'_, N>) -> (res: Result<
        (),
        Error,
    >)
        ensures
            wrote(*old(f), *final(f), char_text(self.0), res),
            *final(final(f).writer) == *final(old(f).writer),
    {
        let (len, bytes) = self.to_utf8();
        proof {
            lemma_char_text(self.0);
        }
        f.write_bytes(vstd::slice::slice_subrange(bytes.as_slice(), 0, len))
    }

    /// Writes the character between single quotes and escaped.
    pub fn const_debug_fmt<const N: usize>(&self, f: &mut Formatter<'_, N>) -> (res: Result<
        (),
        Error,
    >)
        ensures
            wrote(*old(f), *final(f), quoted_char_text(self.0), res),
            *final(final(f).writer) == *final(old(f).writer),
    {
        let (len, bytes) = self.to_utf8();
        proof {
            lemma_char_text(self.0);
        }
        f.write_quoted(vstd::slice::slice_subrange(bytes.as_slice(), 0, len), 39u8)
    }
}

} // verus!
