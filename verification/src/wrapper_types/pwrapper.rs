//! The wrapper itself, the digits of integers in the three bases, and the lengths of
//! strings.

use crate::formatting::{
    lemma_escape_tables, FormattingFlags, StartAndArray, IS_BACKSLASH_ESCAPED, IS_ESCAPED,
};
use crate::pargument::{lemma_negative_as_unsigned, Integer};
use crate::text::{
    binary_text, decimal_text, digit_byte, digits, escaped_text, hexadecimal_text,
    lemma_decimal_digits_bound, lemma_digits_nonempty, lemma_escaped_text_len,
    lemma_escaped_text_push, quoted_text,
};
use vstd::string::StringSliceAdditionalSpecFns;
use vstd::prelude::*;

verus! {

/// The one entry point for measuring and writing: the wrapper of a supported type has the
/// methods, so their names cannot collide with methods of the type itself.
pub struct PWrapper<T>(pub T);

impl<T: Copy> Copy for PWrapper<T> {

}

impl<T: Copy> Clone for PWrapper<T> {
    fn clone(&self) -> (copy: Self)
        ensures
            copy == *self,
    {
        *self
    }
}

impl<'a, T> PWrapper<&'a [T]> {
    /// Wraps a slice. Meant for a reference to an array, which becomes a slice here.
    pub fn slice(x: &'a [T]) -> (wrapped: Self)
        ensures
            wrapped.0 == x,
    {
        PWrapper(x)
    }
}

impl PWrapper<Integer> {
    /// The number in binary, as the two's complement pattern of its width, behind `0b` in
    /// the alternate form.
    pub fn to_start_array_binary(self, flags: FormattingFlags) -> (out: StartAndArray<[u8; 130]>)
        ensures
            out.start <= 130,
            out@ == binary_text(self.0.bit_pattern() as nat, flags.is_alternate),
    {
        let mut n: u128 = if self.0.is_negative {
            let r: i128 = self.0.as_negative();
            proof {
                lemma_negative_as_unsigned(r, self.0.unsigned);
            }
            #[verifier::truncate]
            (r as u128)
        } else {
            self.0.unsigned
        };

        n &= self.0.mask;

        let mut out = StartAndArray { start: 130, array: [0u8; 130] };
        let ghost pattern: u128 = n;
        let ghost mut count: u32 = 0;
        proof {
            assert(n <= u128::MAX >> 0u32) by (bit_vector);
        }

        loop
            invariant_except_break
                count <= 127,
                out.start == 130 - count,
                n <= u128::MAX >> count,
                digits(pattern as nat, 2) == digits(n as nat, 2) + out@,
            ensures
                2 <= out.start <= 129,
                out@ == digits(pattern as nat, 2),
            decreases out.start,
        {
            let ghost before = out@;
            proof {
                assert(n & 1 == n % 2) by (bit_vector);
                assert(n >> 1 == n / 2) by (bit_vector);
                assert((n >> 1) <= (u128::MAX >> ((count + 1) as u32))) by (bit_vector)
                    requires
                        count <= 127,
                        n <= (u128::MAX >> count),
                ;
                assert(count == 127 ==> (n >> 1) == 0) by (bit_vector)
                    requires
                        n <= (u128::MAX >> count),
                ;
            }
            out.start -= 1;
            let digit: u8 = (n & 1) as u8;
            out.array[out.start] = 48 + digit;
            n = n >> 1;
            proof {
                count = (count + 1) as u32;
                assert(out@ =~= seq![digit_byte(digit as nat)] + before);
            }
            if n == 0 {
                break ;
            }
        }

        if flags.is_alternate() {
            out.start -= 1;
            out.array[out.start] = 98u8;
            out.start -= 1;
            out.array[out.start] = 48u8;
        }
        proof {
            assert(out@ =~= binary_text(pattern as nat, flags.is_alternate));
        }
        out
    }

    /// The number in upper-case hexadecimal, as the two's complement pattern of its
    /// width, behind `0x` in the alternate form.
    pub fn to_start_array_hexadecimal(self, flags: FormattingFlags) -> (out: StartAndArray<
        [u8; 34],
    >)
        ensures
            out.start <= 34,
            out@ == hexadecimal_text(self.0.bit_pattern() as nat, flags.is_alternate),
    {
        let mut n: u128 = if self.0.is_negative {
            let r: i128 = self.0.as_negative();
            proof {
                lemma_negative_as_unsigned(r, self.0.unsigned);
            }
            #[verifier::truncate]
            (r as u128)
        } else {
            self.0.unsigned
        };

        n &= self.0.mask;

        let mut out = StartAndArray { start: 34, array: [0u8; 34] };
        let ghost pattern: u128 = n;
        let ghost mut count: u32 = 0;
        proof {
            assert(n <= u128::MAX >> 0u32) by (bit_vector);
        }

        loop
            invariant_except_break
                count <= 31,
                out.start == 34 - count,
                n <= u128::MAX >> ((4 * count) as u32),
                digits(pattern as nat, 16) == digits(n as nat, 16) + out@,
            ensures
                2 <= out.start <= 33,
                out@ == digits(pattern as nat, 16),
            decreases out.start,
        {
            let ghost before = out@;
            let ghost shift: u32 = (4 * count) as u32;
            proof {
                assert(n & 0xF == n % 16) by (bit_vector);
                assert(n >> 4 == n / 16) by (bit_vector);
                assert((n >> 4) <= (u128::MAX >> ((shift + 4) as u32))) by (bit_vector)
                    requires
                        shift <= 124,
                        n <= (u128::MAX >> shift),
                ;
                assert(shift == 124 ==> (n >> 4) == 0) by (bit_vector)
                    requires
                        n <= (u128::MAX >> shift),
                ;
            }
            out.start -= 1;
            let digit: u8 = (n & 0xF) as u8;
            out.array[out.start] = if digit < 10 {
                48 + digit
            } else {
                65 - 10 + digit
            };
            n = n >> 4;
            proof {
                count = (count + 1) as u32;
                assert(out@ =~= seq![digit_byte(digit as nat)] + before);
            }
            if n == 0 {
                break ;
            }
        }

        if flags.is_alternate() {
            out.start -= 1;
            out.array[out.start] = 120u8;
            out.start -= 1;
            out.array[out.start] = 48u8;
        }
        proof {
            assert(out@ =~= hexadecimal_text(pattern as nat, flags.is_alternate));
        }
        out
    }

    /// The number in decimal: the digits of the magnitude, behind `-` where it is
    /// negative. The mask plays no part.
    pub fn to_start_array_display(self) -> (out: StartAndArray<[u8; 40]>)
        ensures
            out.start <= 40,
            out@ == decimal_text(self.0.unsigned as nat, self.0.is_negative),
    {
        let mut out = StartAndArray { start: 40, array: [0u8; 40] };

        let mut n: u128 = self.0.unsigned;
        proof {
            lemma_decimal_digits_bound(n);
        }

        loop
            invariant_except_break
                out.start <= 40,
                out@.len() == 40 - out.start,
                digits(self.0.unsigned as nat, 10).len() <= 39,
                digits(self.0.unsigned as nat, 10) == digits(n as nat, 10) + out@,
            ensures
                1 <= out.start <= 39,
                out@ == digits(self.0.unsigned as nat, 10),
            decreases out.start,
        {
            let ghost before = out@;
            proof {
                lemma_digits_nonempty(n as nat, 10);
            }
            out.start -= 1;
            let digit: u8 = (n % 10) as u8;
            out.array[out.start] = 48 + digit;
            n /= 10;
            proof {
                assert(out@ =~= seq![digit_byte(digit as nat)] + before);
            }
            if n == 0 {
                break ;
            }
        }

        if self.0.is_negative {
            out.start -= 1;
            out.array[out.start] = 45u8;
        }
        proof {
            assert(out@ =~= decimal_text(self.0.unsigned as nat, self.0.is_negative));
        }
        out
    }

    /// The same text as [`Self::to_start_array_display`].
    pub fn to_start_array_debug(self) -> (out: StartAndArray<[u8; 40]>)
        ensures
            out.start <= 40,
            out@ == decimal_text(self.0.unsigned as nat, self.0.is_negative),
    {
        self.to_start_array_display()
    }
}

impl PWrapper<&[u8]> {
    /// The length of the bytes as debug formatting writes them: every byte, what the
    /// escapes add (three for `\x` and two digits, one for a backslash), and the two
    /// quotes.
    pub fn compute_utf8_debug_len(self) -> (len: usize)
        requires
            quoted_text(self.0@).len() <= usize::MAX,
        ensures
            len == quoted_text(self.0@).len(),
    {
        let mut sum: usize = self.0.len();
        let mut i: usize = 0;
        proof {
            assert(self.0@.subrange(0, 0) =~= Seq::<u8>::empty());
        }
        while i < self.0.len()
            invariant
                0 <= i <= self.0@.len(),
                quoted_text(self.0@).len() <= usize::MAX,
                sum + i == self.0@.len() + escaped_text(self.0@.subrange(0, i as int)).len(),
            decreases self.0@.len() - i,
        {
            let c: u8 = self.0[i];
            proof {
                lemma_escaped_text_push(self.0@.subrange(0, i as int), c);
                assert(self.0@.subrange(0, i + 1) =~= self.0@.subrange(0, i as int).push(c));
                lemma_escaped_text_len(self.0@, i + 1);
            }
            if c < 128 {
                let shifted: u128 = 1u128 << c;
                proof {
                    lemma_escape_tables(c);
                }
                if (IS_ESCAPED & shifted) != 0 {
                    sum += if (IS_BACKSLASH_ESCAPED & shifted) == 0 {
                        3  // two hexadecimal digits behind `\x`
                    } else {
                        1  // one letter behind a backslash
                    };
                }
            }
            i += 1;
        }
        proof {
            assert(self.0@.subrange(0, i as int) =~= self.0@);
        }
        sum + 2  // the quotes
    }
}

impl PWrapper<&str> {
    /// The length of the string as debug formatting writes it, quotes and escapes
    /// included. The flags play no part.
    pub fn compute_debug_len(self, _flags: FormattingFlags) -> (len: usize)
        requires
            quoted_text(self.0.spec_bytes()).len() <= usize::MAX,
        ensures
            len == quoted_text(self.0.spec_bytes()).len(),
    {
        PWrapper(self.0.as_bytes()).compute_utf8_debug_len()
    }

    /// The length of the string in bytes. The flags play no part.
    pub fn compute_display_len(self, _flags: FormattingFlags) -> (len: usize)
        ensures
            len == self.0.spec_bytes().len(),
    {
        self.0.as_bytes().len()
    }
}

} // verus!
