//! How many digits a bit pattern takes in hexadecimal and in binary, from the number of
//! bits that it uses.

use crate::text::{
    binary_text, bit_length, hexadecimal_text, lemma_binary_digit_count, lemma_bit_length_split,
    lemma_hexadecimal_digit_count,
};
use vstd::prelude::*;
use vstd::std_specs::bits::u64_leading_zeros;

verus! {

/// The bits of a 64-bit number are the 64 without its leading zeros.
proof fn lemma_leading_zeros(n: u64)
    ensures
        64 - u64_leading_zeros(n) == bit_length(n as nat),
    decreases n,
{
    reveal(u64_leading_zeros);
    if n != 0 {
        lemma_leading_zeros(n / 2);
    }
}

/// The number of bits that `n` uses: 64 less its leading zeros.
pub fn bit_width_u64(n: u64) -> (bits: u32)
    ensures
        bits == bit_length(n as nat),
        bits <= 64,
{
    proof {
        lemma_leading_zeros(n);
        vstd::std_specs::bits::axiom_u64_leading_zeros(n);
    }
    64 - n.leading_zeros()
}

/// The number of bits that `n` uses: 128 less its leading zeros.
pub fn bit_width_u128(n: u128) -> (bits: u32)
    ensures
        bits == bit_length(n as nat),
        bits <= 128,
{
    let high: u128 = n >> 64;
    proof {
        assert(n >> 64 == n / 0x1_0000_0000_0000_0000) by (bit_vector);
        assert(vstd::arithmetic::power::pow(2, 64) == 0x1_0000_0000_0000_0000) by {
            vstd::arithmetic::power2::lemma2_to64();
            vstd::arithmetic::power2::lemma_pow2(64);
        }
        if high != 0 {
            lemma_bit_length_split(n as nat, 64);
        }
    }
    if high != 0 {
        64 + bit_width_u64(high as u64)
    } else {
        bit_width_u64(n as u64)
    }
}

/// The length in hexadecimal of a pattern of `bits` bits: a digit for every four bits or
/// part of four, one digit for zero, and two bytes more for `0x`.
pub fn compute_hex_count(bits: u32, with_0x: bool) -> (len: usize)
    requires
        bits <= 128,
    ensures
        len == (if bits == 0 {
            1int
        } else {
            (bits + 3) / 4
        }) + (if with_0x {
            2int
        } else {
            0int
        }),
        forall|n: nat| bit_length(n) == bits ==> len == #[trigger] hexadecimal_text(
            n,
            with_0x,
        ).len(),
{
    let prefix: usize = if with_0x {
        2
    } else {
        0
    };
    let i: usize = bits as usize;
    proof {
        assert(i >> 2 == i / 4) by (bit_vector);
        assert((i & 3) != 0 <==> i % 4 != 0) by (bit_vector);
        assert forall|n: nat| bit_length(n) == bits implies (if i == 0 {
            1
        } else {
            (i + 3) / 4
        }) + prefix == #[trigger] hexadecimal_text(n, with_0x).len() by {
            lemma_hexadecimal_digit_count(n);
        }
    }
    (if i == 0 {
        1
    } else {
        (i >> 2) + (if (i & 3) != 0 {
            1
        } else {
            0
        })
    }) + prefix
}

/// The length in binary of a pattern of `bits` bits: a digit for every bit, one digit for
/// zero, and two bytes more for `0b`.
pub fn compute_binary_count(bits: u32, with_0b: bool) -> (len: usize)
    requires
        bits <= 128,
    ensures
        len == (if bits == 0 {
            1int
        } else {
            bits as int
        }) + (if with_0b {
            2int
        } else {
            0int
        }),
        forall|n: nat| bit_length(n) == bits ==> len == #[trigger] binary_text(n, with_0b).len(),
{
    let prefix: usize = if with_0b {
        2
    } else {
        0
    };
    let i: usize = bits as usize;
    proof {
        assert forall|n: nat| bit_length(n) == bits implies (if i == 0 {
            1
        } else {
            i
        }) + prefix == #[trigger] binary_text(n, with_0b).len() by {
            lemma_binary_digit_count(n);
        }
    }
    (if i == 0 {
        1
    } else {
        i
    }) + prefix
}

} // verus!
