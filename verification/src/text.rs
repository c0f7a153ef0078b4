//! The mathematical model of formatted text: what each supported value looks like once
//! written, as a sequence of bytes. The executable layers are specified against these
//! functions, the length layer by their lengths and the writing layer by their contents.

use vstd::arithmetic::div_mod::{
    lemma_div_decreases, lemma_div_denominator, lemma_div_is_ordered,
    lemma_div_multiples_vanish, lemma_div_pos_is_pos, lemma_multiply_divide_lt,
};
use vstd::arithmetic::power::{lemma_pow0, lemma_pow1, lemma_pow_positive, pow};
use vstd::prelude::*;
use vstd::utf8::{
    is_leading_byte_width_1, partial_valid_utf8_extend_ascii_block, pop_first_scalar,
    take_first_scalar, valid_utf8, valid_utf8_concat,
};

verus! {

/// The ASCII character of one digit: `0` to `9`, then `A` to `F`.
pub open spec fn digit_byte(d: nat) -> u8 {
    if d < 10 {
        (48 + d) as u8
    } else {
        (55 + d) as u8
    }
}

/// The digits of `n` in `base`, most significant first, without leading zeros.
/// Zero is the single digit `0`.
pub open spec fn digits(n: nat, base: nat) -> Seq<u8>
    decreases n,
{
    if base < 2 || n < base {
        seq![digit_byte(n)]
    } else {
        proof {
            lemma_div_decreases(n as int, base as int);
            lemma_div_pos_is_pos(n as int, base as int);
        }
        digits(n / base, base).push(digit_byte(n % base))
    }
}

/// `-` for a negative number, nothing otherwise.
pub open spec fn sign_text(negative: bool) -> Seq<u8> {
    if negative {
        seq![45u8]
    } else {
        Seq::<u8>::empty()
    }
}

/// `0` and `letter` where the alternate form is asked for, nothing otherwise.
pub open spec fn prefix_text(alternate: bool, letter: u8) -> Seq<u8> {
    if alternate {
        seq![48u8, letter]
    } else {
        Seq::<u8>::empty()
    }
}

/// A number in decimal, with its sign.
pub open spec fn decimal_text(magnitude: nat, negative: bool) -> Seq<u8> {
    sign_text(negative) + digits(magnitude, 10)
}

/// A bit pattern in upper-case hexadecimal, behind `0x` in the alternate form.
pub open spec fn hexadecimal_text(pattern: nat, alternate: bool) -> Seq<u8> {
    prefix_text(alternate, 120u8) + digits(pattern, 16)
}

/// A bit pattern in binary, behind `0b` in the alternate form.
pub open spec fn binary_text(pattern: nat, alternate: bool) -> Seq<u8> {
    prefix_text(alternate, 98u8) + digits(pattern, 2)
}

/// The absolute value of a number.
pub open spec fn magnitude(value: int) -> nat {
    if value < 0 {
        (-value) as nat
    } else {
        value as nat
    }
}

/// The bit pattern of `value` in a type that holds `modulus` different values: the value
/// itself, and for a negative one its two's complement.
pub open spec fn twos_complement(value: int, modulus: int) -> nat {
    if value < 0 {
        (value + modulus) as nat
    } else {
        value as nat
    }
}

/// The number of different values of an integer type of `bits` bits, for the widths 8,
/// 16, 32, 64 and 128.
pub open spec fn modulus(bits: nat) -> int {
    if bits == 8 {
        0x100
    } else if bits == 16 {
        0x1_0000
    } else if bits == 32 {
        0x1_0000_0000
    } else if bits == 64 {
        0x1_0000_0000_0000_0000
    } else {
        0x1_0000_0000_0000_0000_0000_0000_0000_0000int
    }
}

/// An integer as display formatting writes it: in decimal with its sign.
pub open spec fn integer_display_text(value: int) -> Seq<u8> {
    decimal_text(magnitude(value), value < 0)
}

/// Whether a byte is written as an escape inside quotes: the control characters, the two
/// quote characters, the backslash and DEL. Bytes from 128 on are parts of longer
/// characters and are never escaped.
pub open spec fn is_escaped(b: u8) -> bool {
    b < 32 || b == 34 || b == 39 || b == 92 || b == 127
}

/// Whether a byte is escaped by a backslash and one letter: the zero byte, tab, line
/// feed, carriage return, the two quote characters and the backslash.
pub open spec fn is_backslash_escaped(b: u8) -> bool {
    b == 0 || b == 9 || b == 10 || b == 13 || b == 34 || b == 39 || b == 92
}

/// The letter behind the backslash, for a byte that is escaped by one.
pub open spec fn backslash_escape(b: u8) -> u8 {
    if b == 0 {
        48
    } else if b == 9 {
        116
    } else if b == 10 {
        110
    } else if b == 13 {
        114
    } else {
        b
    }
}

/// One byte as it stands inside quotes: `\0`, `\t`, `\n`, `\r`, `\'`, `\"`, `\\`,
/// the other escaped bytes as `\x` and two upper-case hexadecimal digits, every other
/// byte as itself.
pub open spec fn escaped_byte(b: u8) -> Seq<u8> {
    if is_backslash_escaped(b) {
        seq![92u8, backslash_escape(b)]
    } else if is_escaped(b) {
        seq![92u8, 120u8, digit_byte((b / 16) as nat), digit_byte((b % 16) as nat)]
    } else {
        seq![b]
    }
}

/// A byte string with every byte escaped as [`escaped_byte`] says.
pub open spec fn escaped_text(bytes: Seq<u8>) -> Seq<u8>
    decreases bytes.len(),
{
    if bytes.len() == 0 {
        Seq::<u8>::empty()
    } else {
        escaped_text(bytes.drop_last()) + escaped_byte(bytes.last())
    }
}

/// A byte string escaped and between two quote characters.
pub open spec fn quoted_with(bytes: Seq<u8>, quote: u8) -> Seq<u8> {
    seq![quote] + escaped_text(bytes) + seq![quote]
}

/// A byte string as debug formatting shows it: escaped, between double quotes.
pub open spec fn quoted_text(bytes: Seq<u8>) -> Seq<u8> {
    quoted_with(bytes, 34)
}

/// The bytes of a character as text.
pub open spec fn char_text(c: char) -> Seq<u8> {
    vstd::utf8::encode_scalar(c as u32)
}

/// A character as debug formatting shows it: escaped, between single quotes.
pub open spec fn quoted_char_text(c: char) -> Seq<u8> {
    quoted_with(char_text(c), 39)
}

/// The number that one digit stands for: the inverse of [`digit_byte`].
pub open spec fn digit_value(b: u8) -> nat {
    if 48 <= b <= 57 {
        (b - 48) as nat
    } else if 65 <= b <= 70 {
        (b - 55) as nat
    } else {
        0
    }
}

/// The number that a run of digits in `base` stands for.
pub open spec fn digits_value(text: Seq<u8>, base: nat) -> nat
    decreases text.len(),
{
    if text.len() == 0 {
        0
    } else {
        digits_value(text.drop_last(), base) * base + digit_value(text.last())
    }
}

/// The number that a decimal text with an optional `-` in front stands for.
pub open spec fn parsed_decimal(text: Seq<u8>) -> int {
    if text.len() > 0 && text[0] == 45 {
        -(digits_value(text.drop_first(), 10) as int)
    } else {
        digits_value(text, 10) as int
    }
}

/// The byte that the letter behind a backslash stands for: the inverse of
/// [`backslash_escape`].
pub open spec fn escape_meaning(letter: u8) -> u8 {
    if letter == 48 {
        0
    } else if letter == 116 {
        9
    } else if letter == 110 {
        10
    } else if letter == 114 {
        13
    } else {
        letter
    }
}

/// The bytes that an escaped text stands for: `\x` and two digits are one byte, a
/// backslash and another letter are one byte, every other byte is itself.
pub open spec fn unescaped_text(text: Seq<u8>) -> Seq<u8>
    decreases text.len(),
{
    if text.len() == 0 {
        Seq::<u8>::empty()
    } else if text[0] != 92 {
        seq![text[0]] + unescaped_text(text.drop_first())
    } else if text.len() >= 4 && text[1] == 120 {
        seq![(digit_value(text[2]) * 16 + digit_value(text[3])) as u8] + unescaped_text(
            text.subrange(4, text.len() as int),
        )
    } else if text.len() >= 2 {
        seq![escape_meaning(text[1])] + unescaped_text(text.subrange(2, text.len() as int))
    } else {
        text
    }
}

/// The number of bits needed to write `n`: zero for zero.
pub open spec fn bit_length(n: nat) -> nat
    decreases n,
{
    if n == 0 {
        0
    } else {
        1 + bit_length(n / 2)
    }
}

/// A number below `base` to the `k` has at most `k` digits.
pub proof fn lemma_digits_len_bound(n: nat, base: nat, k: nat)
    requires
        base >= 2,
        k >= 1,
        n < pow(base as int, k),
    ensures
        1 <= digits(n, base).len() <= k,
    decreases k,
{
    lemma_digits_nonempty(n, base);
    if n >= base {
        lemma_pow1(base as int);
        assert(k >= 2);
        let rest = pow(base as int, (k - 1) as nat);
        assert(pow(base as int, k) == base * rest) by {
            reveal(pow);
        }
        lemma_pow_positive(base as int, (k - 1) as nat);
        assert(rest * base == base * rest) by (nonlinear_arith);
        lemma_multiply_divide_lt(n as int, base as int, rest);
        lemma_div_pos_is_pos(n as int, base as int);
        lemma_digits_len_bound(n / base, base, (k - 1) as nat);
    }
}

/// Every number has at least one digit.
pub proof fn lemma_digits_nonempty(n: nat, base: nat)
    ensures
        digits(n, base).len() >= 1,
    decreases n,
{
    if !(base < 2 || n < base) {
        lemma_div_decreases(n as int, base as int);
        lemma_div_pos_is_pos(n as int, base as int);
        lemma_digits_nonempty(n / base, base);
    }
}

/// Dividing by `base` to the `k` takes `k` digits off a number that is at least that
/// large.
pub proof fn lemma_digits_len_split(n: nat, base: nat, k: nat)
    requires
        base >= 2,
        n >= pow(base as int, k),
    ensures
        pow(base as int, k) > 0,
        digits(n, base).len() == k + digits((n / (pow(base as int, k) as nat)) as nat, base).len(),
    decreases k,
{
    lemma_pow_positive(base as int, k);
    if k == 0 {
        lemma_pow0(base as int);
    } else {
        let rest = pow(base as int, (k - 1) as nat);
        lemma_pow_positive(base as int, (k - 1) as nat);
        assert(pow(base as int, k) == base * rest) by {
            reveal(pow);
        }
        assert(base * rest >= base) by (nonlinear_arith)
            requires
                rest >= 1,
                base >= 2,
        ;
        assert(n >= base);
        lemma_div_pos_is_pos(n as int, base as int);
        lemma_div_is_ordered(base * rest, n as int, base as int);
        lemma_div_multiples_vanish(rest, base as int);
        assert((base * rest) / (base as int) == rest) by {
            assert(base * rest == rest * base) by (nonlinear_arith);
        }
        lemma_digits_len_split(n / base, base, (k - 1) as nat);
        lemma_div_denominator(n as int, base as int, rest);
    }
}

/// The powers of ten that the digit count is taken by.
pub proof fn lemma_powers_of_ten()
    ensures
        pow(10, 1) == 10,
        pow(10, 2) == 100,
        pow(10, 4) == 1_0000,
        pow(10, 8) == 1_0000_0000,
        pow(10, 12) == 1_0000_0000_0000,
        pow(10, 16) == 1_0000_0000_0000_0000,
        pow(10, 39) == 1_000_000_000_000_000_000_000_000_000_000_000_000_000,
{
    reveal_with_fuel(pow, 40);
}

/// The powers of two and of sixteen that bound a 128-bit number.
pub proof fn lemma_powers_of_two()
    ensures
        pow(2, 128) == 0x1_0000_0000_0000_0000_0000_0000_0000_0000,
        pow(16, 32) == 0x1_0000_0000_0000_0000_0000_0000_0000_0000,
{
    reveal_with_fuel(pow, 33);
    assert(pow(16, 32) == 0x1_0000_0000_0000_0000_0000_0000_0000_0000);
    vstd::arithmetic::power2::lemma2_to64();
    vstd::arithmetic::power2::lemma_pow2(64);
    vstd::arithmetic::power::lemma_pow_adds(2, 64, 64);
    assert(pow(2, 64) * pow(2, 64) == 0x1_0000_0000_0000_0000_0000_0000_0000_0000) by {
        assert(0x1_0000_0000_0000_0000int * 0x1_0000_0000_0000_0000int
            == 0x1_0000_0000_0000_0000_0000_0000_0000_0000) by (nonlinear_arith);
    }
}

/// A 128-bit number takes at most 40 bytes in decimal, 34 in hexadecimal and 130 in
/// binary, sign and prefix included.
pub proof fn lemma_number_text_len(n: u128, flag: bool)
    ensures
        1 <= decimal_text(n as nat, flag).len() <= 40,
        1 <= hexadecimal_text(n as nat, flag).len() <= 34,
        1 <= binary_text(n as nat, flag).len() <= 130,
{
    lemma_decimal_digits_bound(n);
    lemma_powers_of_two();
    lemma_digits_len_bound(n as nat, 16, 32);
    lemma_digits_len_bound(n as nat, 2, 128);
}

/// A 128-bit number has at most 39 decimal digits.
pub proof fn lemma_decimal_digits_bound(n: u128)
    ensures
        1 <= digits(n as nat, 10).len() <= 39,
{
    lemma_powers_of_ten();
    lemma_digits_len_bound(n as nat, 10, 39);
}

/// Escaping goes byte by byte, so it goes through a concatenation.
pub proof fn lemma_escaped_text_concat(a: Seq<u8>, b: Seq<u8>)
    ensures
        escaped_text(a + b) == escaped_text(a) + escaped_text(b),
    decreases b.len(),
{
    if b.len() == 0 {
        assert(a + b =~= a);
        assert(escaped_text(a) + escaped_text(b) =~= escaped_text(a));
    } else {
        lemma_escaped_text_concat(a, b.drop_last());
        assert((a + b).drop_last() =~= a + b.drop_last());
        assert((a + b).last() == b.last());
        assert(escaped_text(a + b) =~= escaped_text(a) + escaped_text(b));
    }
}

/// One more byte adds its escape to the end.
pub proof fn lemma_escaped_text_push(prefix: Seq<u8>, b: u8)
    ensures
        escaped_text(prefix.push(b)) == escaped_text(prefix) + escaped_byte(b),
{
    assert(prefix.push(b).drop_last() =~= prefix);
}

/// Escaping never shortens, and what it adds grows with the text.
pub proof fn lemma_escaped_text_len(bytes: Seq<u8>, i: int)
    requires
        0 <= i <= bytes.len(),
    ensures
        i <= escaped_text(bytes.subrange(0, i)).len(),
        escaped_text(bytes.subrange(0, i)).len() - i <= escaped_text(bytes).len() - bytes.len(),
        escaped_text(bytes).len() <= 4 * bytes.len(),
    decreases bytes.len(),
{
    if bytes.len() == 0 {
        assert(bytes.subrange(0, i) =~= bytes);
    } else if i == bytes.len() {
        assert(bytes.subrange(0, i) =~= bytes);
        lemma_escaped_text_len(bytes.drop_last(), i - 1);
        assert(bytes.drop_last().subrange(0, i - 1) =~= bytes.drop_last());
    } else {
        lemma_escaped_text_len(bytes.drop_last(), i);
        assert(bytes.drop_last().subrange(0, i) =~= bytes.subrange(0, i));
    }
}

/// A number has as many binary digits as it has bits, and zero has one.
pub proof fn lemma_binary_digit_count(n: nat)
    ensures
        digits(n, 2).len() == if n == 0 {
            1
        } else {
            bit_length(n)
        },
    decreases n,
{
    if n >= 2 {
        lemma_binary_digit_count(n / 2);
    } else if n == 1 {
        assert(bit_length(0) == 0);
    }
}

/// A hexadecimal digit holds four bits: a number has a quarter as many digits as bits,
/// rounded up, and zero has one.
pub proof fn lemma_hexadecimal_digit_count(n: nat)
    ensures
        digits(n, 16).len() == if n == 0 {
            1
        } else {
            (bit_length(n) + 3) / 4
        },
    decreases n,
{
    reveal_with_fuel(bit_length, 5);
    if n >= 16 {
        lemma_hexadecimal_digit_count(n / 16);
        assert(n / 2 / 2 / 2 / 2 == n / 16);
    }
}

/// A number that is at least two to the `k` has `k` bits more than its quotient by it.
pub proof fn lemma_bit_length_split(n: nat, k: nat)
    requires
        n >= pow(2, k),
    ensures
        pow(2, k) > 0,
        bit_length(n) == k + bit_length((n / (pow(2, k) as nat)) as nat),
{
    lemma_pow_positive(2, k);
    lemma_digits_len_split(n, 2, k);
    lemma_binary_digit_count(n);
    let q = (n / (pow(2, k) as nat)) as nat;
    lemma_binary_digit_count(q);
    assert(q >= 1) by {
        lemma_div_is_ordered(pow(2, k), n as int, pow(2, k));
        vstd::arithmetic::div_mod::lemma_div_by_self(pow(2, k));
    }
}

/// Reading the digits of a number gives the number back.
pub proof fn lemma_digits_value(n: nat, base: nat)
    requires
        2 <= base <= 16,
    ensures
        digits_value(digits(n, base), base) == n,
    decreases n,
{
    if n < base {
        assert(digits(n, base).drop_last() =~= Seq::<u8>::empty());
        assert(digits_value(Seq::<u8>::empty(), base) == 0);
        assert(digits_value(digits(n, base), base) == 0 * base + digit_value(digit_byte(n)));
        assert(0 * base == 0) by (nonlinear_arith);
    } else {
        lemma_div_decreases(n as int, base as int);
        lemma_div_pos_is_pos(n as int, base as int);
        lemma_digits_value(n / base, base);
        let shorter = digits(n / base, base);
        assert(digits(n, base).drop_last() =~= shorter);
        assert(n % base < base) by (nonlinear_arith)
            requires
                base > 0,
        ;
        vstd::arithmetic::div_mod::lemma_fundamental_div_mod(n as int, base as int);
        assert((n / base) * base == base * (n / base)) by (nonlinear_arith);
    }
}

/// Formatting an integer in decimal and reading the text gives the integer back.
pub proof fn lemma_decimal_round_trip(value: int)
    ensures
        parsed_decimal(integer_display_text(value)) == value,
{
    let text = integer_display_text(value);
    lemma_digits_value(magnitude(value), 10);
    lemma_digits_nonempty(magnitude(value), 10);
    if value < 0 {
        assert(text.drop_first() =~= digits(magnitude(value), 10));
    } else {
        assert(text =~= digits(magnitude(value), 10));
        lemma_digits_ascii(magnitude(value), 10);
        lemma_first_digit(magnitude(value), 10);
    }
}

/// The first digit of a number is a digit, not a sign.
pub proof fn lemma_first_digit(n: nat, base: nat)
    requires
        2 <= base <= 16,
    ensures
        digits(n, base).len() > 0,
        digits(n, base)[0] >= 48,
    decreases n,
{
    lemma_digits_nonempty(n, base);
    if n >= base {
        lemma_div_decreases(n as int, base as int);
        lemma_div_pos_is_pos(n as int, base as int);
        lemma_first_digit(n / base, base);
    }
}

/// Reading the bits of a number in hexadecimal or binary gives the bits back.
pub proof fn lemma_bits_round_trip(pattern: nat)
    ensures
        digits_value(digits(pattern, 16), 16) == pattern,
        digits_value(digits(pattern, 2), 2) == pattern,
{
    lemma_digits_value(pattern, 16);
    lemma_digits_value(pattern, 2);
}

/// The escape of one byte is read back as that byte.
pub proof fn lemma_unescaped_byte(b: u8, rest: Seq<u8>)
    ensures
        unescaped_text(escaped_byte(b) + rest) == seq![b] + unescaped_text(rest),
{
    let text = escaped_byte(b) + rest;
    if is_backslash_escaped(b) {
        assert(text.subrange(2, text.len() as int) =~= rest);
    } else if is_escaped(b) {
        assert(text.subrange(4, text.len() as int) =~= rest);
        assert(text[2] == digit_byte((b / 16) as nat));
        assert(text[3] == digit_byte((b % 16) as nat));
    } else {
        assert(text.drop_first() =~= rest);
    }
}

/// Escaping a text and reading the escapes gives the text back.
pub proof fn lemma_escape_round_trip(bytes: Seq<u8>)
    ensures
        unescaped_text(escaped_text(bytes)) == bytes,
    decreases bytes.len(),
{
    if bytes.len() > 0 {
        let first = seq![bytes[0]];
        let rest = bytes.drop_first();
        assert(bytes =~= first + rest);
        lemma_escaped_text_concat(first, rest);
        assert(first =~= Seq::<u8>::empty().push(bytes[0]));
        lemma_escaped_text_push(Seq::<u8>::empty(), bytes[0]);
        assert(escaped_text(first) =~= escaped_byte(bytes[0]));
        lemma_unescaped_byte(bytes[0], escaped_text(rest));
        lemma_escape_round_trip(rest);
    }
}

/// Bytes below 128 are text of one-byte characters.
pub proof fn lemma_ascii_is_utf8(bytes: Seq<u8>)
    requires
        forall|i: int| 0 <= i < bytes.len() ==> bytes[i] < 128,
    ensures
        valid_utf8(bytes),
{
    assert(bytes.subrange(0, 0) =~= Seq::<u8>::empty());
    assert forall|i: int| 0 <= 0 <= i < bytes.len() <= bytes.len() implies #[trigger]
        is_leading_byte_width_1(bytes[i]) by {}
    partial_valid_utf8_extend_ascii_block(bytes, 0, bytes.len() as int);
    assert(bytes.subrange(0, bytes.len() as int) =~= bytes);
}

/// Digits are ASCII.
pub proof fn lemma_digits_ascii(n: nat, base: nat)
    requires
        2 <= base <= 16,
    ensures
        forall|i: int| 0 <= i < digits(n, base).len() ==> #[trigger] digits(n, base)[i] < 128,
    decreases n,
{
    if n >= base {
        lemma_div_decreases(n as int, base as int);
        lemma_div_pos_is_pos(n as int, base as int);
        lemma_digits_ascii(n / base, base);
        assert(n % base < base) by (nonlinear_arith)
            requires
                base > 0,
        ;
        let shorter = digits(n / base, base);
        assert forall|i: int| 0 <= i < digits(n, base).len() implies #[trigger] digits(
            n,
            base,
        )[i] < 128 by {
            if i < shorter.len() {
                assert(digits(n, base)[i] == shorter[i]);
            }
        }
    }
}

/// A number in any of the three bases is valid text.
pub proof fn lemma_number_text_utf8(n: nat, flag: bool)
    ensures
        valid_utf8(decimal_text(n, flag)),
        valid_utf8(hexadecimal_text(n, flag)),
        valid_utf8(binary_text(n, flag)),
{
    lemma_digits_ascii(n, 10);
    lemma_digits_ascii(n, 16);
    lemma_digits_ascii(n, 2);
    lemma_ascii_is_utf8(decimal_text(n, flag));
    lemma_ascii_is_utf8(hexadecimal_text(n, flag));
    lemma_ascii_is_utf8(binary_text(n, flag));
}

/// Bytes that need no escape stand for themselves.
pub proof fn lemma_escaped_text_plain(bytes: Seq<u8>)
    requires
        forall|i: int| 0 <= i < bytes.len() ==> !is_escaped(#[trigger] bytes[i]),
    ensures
        escaped_text(bytes) == bytes,
    decreases bytes.len(),
{
    if bytes.len() > 0 {
        lemma_escaped_text_plain(bytes.drop_last());
        assert(escaped_text(bytes) =~= bytes);
    }
}

/// Escaping keeps text valid: it replaces one-byte characters by one-byte characters and
/// leaves the longer ones alone.
pub proof fn lemma_escaped_text_utf8(bytes: Seq<u8>)
    requires
        valid_utf8(bytes),
    ensures
        valid_utf8(escaped_text(bytes)),
    decreases bytes.len(),
{
    if bytes.len() > 0 {
        let first = take_first_scalar(bytes);
        let rest = pop_first_scalar(bytes);
        assert(bytes =~= first + rest);
        lemma_escaped_text_concat(first, rest);
        lemma_escaped_text_utf8(rest);
        if is_leading_byte_width_1(bytes[0]) {
            assert(first =~= Seq::<u8>::empty().push(bytes[0]));
            lemma_escaped_text_push(Seq::<u8>::empty(), bytes[0]);
            assert(escaped_text(first) =~= escaped_byte(bytes[0]));
            lemma_ascii_is_utf8(escaped_text(first));
        } else {
            lemma_escaped_text_plain(first);
            assert(vstd::utf8::valid_first_scalar(first));
            assert(pop_first_scalar(first) =~= Seq::<u8>::empty());
            assert(valid_utf8(first)) by {
                reveal_with_fuel(valid_utf8, 2);
            }
        }
        valid_utf8_concat(escaped_text(first), escaped_text(rest));
    }
}

/// Quoted text is valid where the text inside the quotes is.
pub proof fn lemma_quoted_text_utf8(bytes: Seq<u8>, quote: u8)
    requires
        valid_utf8(bytes),
        quote < 128,
    ensures
        valid_utf8(quoted_with(bytes, quote)),
{
    lemma_escaped_text_utf8(bytes);
    lemma_ascii_is_utf8(seq![quote]);
    valid_utf8_concat(seq![quote], escaped_text(bytes));
    valid_utf8_concat(seq![quote] + escaped_text(bytes), seq![quote]);
}

/// The bytes of a character are valid text, one to four bytes long.
pub proof fn lemma_char_text(c: char)
    ensures
        valid_utf8(char_text(c)),
        1 <= char_text(c).len() <= 4,
        char_text(c) == vstd::utf8::encode_utf8(seq![c]),
{
    let chars = seq![c];
    assert(chars.drop_first() =~= Seq::<char>::empty());
    assert(vstd::utf8::encode_utf8(chars) =~= char_text(c)) by {
        reveal_with_fuel(vstd::utf8::encode_utf8, 2);
    }
    vstd::utf8::encode_utf8_valid_utf8(chars);
}

} // verus!
