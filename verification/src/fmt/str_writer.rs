//! The writer: a byte buffer of fixed capacity and the number of bytes that are written
//! to it. A write appends all of its bytes or none, so the bytes written are valid text
//! after every operation.

use crate::fmt::error::Error;
use crate::formatting::{get_backslash_escape, hex_as_ascii, needs_backslash, needs_escape};
use crate::text::{
    escaped_byte, escaped_text, lemma_escaped_text_len, lemma_escaped_text_push,
    lemma_quoted_text_utf8, quoted_text, quoted_with,
};
use vstd::prelude::*;
use vstd::string::StringSliceAdditionalSpecFns;
use vstd::utf8::valid_utf8;

verus! {

/// A cursor over a byte buffer of fixed capacity `N`.
///
/// The bytes before the cursor are the text written so far; they are valid UTF-8 after every
/// operation. The bytes behind the cursor are never exposed.
pub struct StrWriter<const N: usize> {
    len: usize,
    buffer: [u8; N],
}

/// Reads a byte slice as text. Calls `core::str::from_utf8`, which accepts exactly the
/// slices that hold valid UTF-8 and then returns a string slice over the same bytes.
/// Believed, not proved.
#[verifier::external_body]
pub(crate) fn str_from_utf8(bytes: &[u8]) -> (text: Option<&str>)
    ensures
        text is Some <==> valid_utf8(bytes@),
        text matches Some(s) ==> s.spec_bytes() == bytes@,
{
    core::str::from_utf8(bytes).ok()
}

/// The length of `bytes` between quotes and escaped, where it is at most `limit`.
fn quoted_len_within(bytes: &[u8], limit: usize) -> (len: Option<usize>)
    ensures
        len is Some <==> quoted_text(bytes@).len() <= limit,
        len matches Some(n) ==> n == quoted_text(bytes@).len(),
{
    proof {
        lemma_escaped_text_len(bytes@, 0);
    }
    if limit < 2 || bytes.len() > limit - 2 {
        return None;
    }
    let mut sum: usize = bytes.len() + 2;
    let mut i: usize = 0;
    proof {
        assert(bytes@.subrange(0, 0) =~= Seq::<u8>::empty());
    }
    while i < bytes.len()
        invariant
            0 <= i <= bytes@.len(),
            sum <= limit,
            sum + i == bytes@.len() + 2 + escaped_text(bytes@.subrange(0, i as int)).len(),
        decreases bytes@.len() - i,
    {
        let c: u8 = bytes[i];
        proof {
            lemma_escaped_text_push(bytes@.subrange(0, i as int), c);
            assert(bytes@.subrange(0, i + 1) =~= bytes@.subrange(0, i as int).push(c));
            lemma_escaped_text_len(bytes@, i + 1);
        }
        let extra: usize = if needs_backslash(c) {
            1
        } else if needs_escape(c) {
            3
        } else {
            0
        };
        if extra > limit - sum {
            return None;
        }
        sum += extra;
        i += 1;
    }
    proof {
        assert(bytes@.subrange(0, i as int) =~= bytes@);
    }
    Some(sum)
}

impl<const N: usize> StrWriter<N> {
    #[verifier::type_invariant]
    spec fn well_formed(&self) -> bool {
        &&& self.len <= N
        &&& valid_utf8(self.buffer@.subrange(0, self.len as int))
    }

    /// The text written so far, as bytes.
    pub closed spec fn view(&self) -> Seq<u8> {
        self.buffer@.subrange(0, self.len as int)
    }

    /// Whether `extra` more bytes fit behind the text written so far.
    pub open spec fn fits(&self, extra: nat) -> bool {
        self@.len() + extra <= N
    }

    /// An empty writer over `array`. What the array holds is never read.
    pub fn new(array: [u8; N]) -> (writer: Self)
        ensures
            writer@ == Seq::<u8>::empty(),
    {
        StrWriter { len: 0, buffer: array }
    }

    pub fn capacity(&self) -> (n: usize)
        ensures
            n == N,
    {
        N
    }

    pub fn len(&self) -> (n: usize)
        ensures
            n == self@.len(),
            n <= N,
    {
        proof {
            use_type_invariant(self);
        }
        self.len
    }

    pub fn remaining_capacity(&self) -> (n: usize)
        ensures
            n == N - self@.len(),
    {
        proof {
            use_type_invariant(self);
        }
        N - self.len
    }

    /// Forgets the text written so far. The buffer is kept and reused.
    pub fn clear(&mut self)
        ensures
            final(self)@ == Seq::<u8>::empty(),
    {
        self.len = 0;
    }

    /// Appends `bytes` whole, or leaves the writer as it was when they do not fit.
    pub fn write_bytes(&mut self, bytes: &[u8]) -> (res: Result<(), Error>)
        requires
            valid_utf8(bytes@),
        ensures
            res is Ok <==> old(self).fits(bytes@.len()),
            res is Ok ==> final(self)@ == old(self)@ + bytes@,
            res is Err ==> final(self)@ == old(self)@,
    {
        proof {
            use_type_invariant(&*self);
        }
        let n = bytes.len();
        if n > N - self.len {
            return Err(Error::NotEnoughSpace);
        }
        let start = self.len;
        let mut i: usize = 0;
        while i < n
            invariant
                0 <= i <= n,
                n == bytes@.len(),
                start + n <= N,
                self.len == start,
                self.buffer@.subrange(0, start as int) == old(self)@,
                valid_utf8(old(self)@),
                self.buffer@.subrange(start as int, start + i) == bytes@.subrange(0, i as int),
            decreases n - i,
        {
            let ghost before = self.buffer@;
            let b = bytes[i];
            proof {
                assert(before.update(start + i, b).subrange(0, start as int) =~= before.subrange(
                    0,
                    start as int,
                ));
            }
            self.buffer[start + i] = b;
            i += 1;
            proof {
                assert(self.buffer@.subrange(start as int, start + i) =~= bytes@.subrange(
                    0,
                    i as int,
                )) by {
                    assert forall|k: int| 0 <= k < i implies self.buffer@[start + k]
                        == bytes@[k] by {
                        if k < i - 1 {
                            assert(before.subrange(start as int, start + i - 1)[k]
                                == bytes@.subrange(0, i - 1)[k]);
                        }
                    }
                }
            }
        }
        proof {
            let prefix = old(self)@;
            assert(bytes@.subrange(0, n as int) =~= bytes@);
            assert(self.buffer@.subrange(0, start + n) =~= prefix + bytes@);
            vstd::utf8::valid_utf8_concat(prefix, bytes@);
        }
        self.len = start + n;
        Ok(())
    }

    /// Appends `text` whole, or leaves the writer as it was when it does not fit.
    pub fn write_str(&mut self, text: &str) -> (res: Result<(), Error>)
        ensures
            res is Ok <==> old(self).fits(text.spec_bytes().len()),
            res is Ok ==> final(self)@ == old(self)@ + text.spec_bytes(),
            res is Err ==> final(self)@ == old(self)@,
    {
        proof {
            vstd::utf8::encode_utf8_valid_utf8(text@);
        }
        self.write_bytes(text.as_bytes())
    }

    /// Puts `b` at index `at`, behind the text written so far, which stays as it is.
    fn put(&mut self, at: usize, b: u8)
        requires
            old(self).len <= at < N,
        ensures
            final(self).len == old(self).len,
            final(self).buffer@ == old(self).buffer@.update(at as int, b),
    {
        proof {
            use_type_invariant(&*self);
            assert(self.buffer@.update(at as int, b).subrange(0, self.len as int)
                =~= self.buffer@.subrange(0, self.len as int));
        }
        self.buffer[at] = b;
    }

    /// Appends `text` between double quotes, with its bytes escaped, or leaves the writer
    /// as it was when that does not fit.
    pub fn write_str_debug(&mut self, text: &str) -> (res: Result<(), Error>)
        ensures
            res is Ok <==> old(self).fits(quoted_text(text.spec_bytes()).len()),
            res is Ok ==> final(self)@ == old(self)@ + quoted_text(text.spec_bytes()),
            res is Err ==> final(self)@ == old(self)@,
    {
        proof {
            vstd::utf8::encode_utf8_valid_utf8(text@);
        }
        self.write_quoted(text.as_bytes(), 34u8)
    }

    /// Appends `bytes`, which are valid text, between two `quote` characters, with the
    /// bytes escaped, or leaves the writer as it was when that does not fit.
    pub fn write_quoted(&mut self, bytes: &[u8], quote: u8) -> (res: Result<(), Error>)
        requires
            valid_utf8(bytes@),
            quote < 128,
        ensures
            res is Ok <==> old(self).fits(quoted_with(bytes@, quote).len()),
            res is Ok ==> final(self)@ == old(self)@ + quoted_with(bytes@, quote),
            res is Err ==> final(self)@ == old(self)@,
    {
        proof {
            use_type_invariant(&*self);
        }
        let start: usize = self.len;
        if quoted_len_within(bytes, N - start).is_none() {
            return Err(Error::NotEnoughSpace);
        }
        let ghost needed = quoted_with(bytes@, quote).len();
        let ghost prefix = self@;
        self.put(start, quote);
        let mut at: usize = start + 1;
        let mut i: usize = 0;
        proof {
            assert(bytes@.subrange(0, 0) =~= Seq::<u8>::empty());
            lemma_escaped_text_len(bytes@, 0);
        }
        while i < bytes.len()
            invariant
                0 <= i <= bytes@.len(),
                self.len == start,
                needed == quoted_with(bytes@, quote).len(),
                start + needed <= N,
                at == start + 1 + escaped_text(bytes@.subrange(0, i as int)).len(),
                at + (bytes@.len() - i) + 1 <= start + needed,
                self.buffer@.subrange(0, start as int) == prefix,
                self.buffer@.subrange(start as int, at as int) == seq![quote] + escaped_text(
                    bytes@.subrange(0, i as int),
                ),
            decreases bytes@.len() - i,
        {
            let c: u8 = bytes[i];
            let ghost before = self.buffer@;
            let ghost old_at = at;
            proof {
                lemma_escaped_text_push(bytes@.subrange(0, i as int), c);
                assert(bytes@.subrange(0, i + 1) =~= bytes@.subrange(0, i as int).push(c));
                lemma_escaped_text_len(bytes@, i + 1);
            }
            if needs_backslash(c) {
                self.put(at, 92u8);
                self.put(at + 1, get_backslash_escape(c));
                at += 2;
            } else if needs_escape(c) {
                self.put(at, 92u8);
                self.put(at + 1, 120u8);
                self.put(at + 2, hex_as_ascii(c / 16));
                self.put(at + 3, hex_as_ascii(c % 16));
                at += 4;
            } else {
                self.put(at, c);
                at += 1;
            }
            i += 1;
            proof {
                assert(self.buffer@.subrange(0, start as int) =~= before.subrange(0, start as int));
                assert(self.buffer@.subrange(old_at as int, at as int) =~= escaped_byte(c));
                assert(self.buffer@.subrange(start as int, at as int) =~= before.subrange(
                    start as int,
                    old_at as int,
                ) + escaped_byte(c));
            }
        }
        self.put(at, quote);
        proof {
            assert(bytes@.subrange(0, i as int) =~= bytes@);
            assert(self.buffer@.subrange(0, at + 1) =~= prefix + quoted_with(bytes@, quote));
            lemma_quoted_text_utf8(bytes@, quote);
            vstd::utf8::valid_utf8_concat(prefix, quoted_with(bytes@, quote));
        }
        self.len = at + 1;
        Ok(())
    }

    /// The text written so far.
    pub fn as_str(&self) -> (text: &str)
        ensures
            text.spec_bytes() == self@,
    {
        proof {
            use_type_invariant(self);
        }
        match str_from_utf8(self.as_bytes()) {
            Some(text) => text,
            None => "",
        }
    }

    /// The text written so far, as bytes.
    pub fn as_bytes(&self) -> (bytes: &[u8])
        ensures
            bytes@ == self@,
    {
        proof {
            use_type_invariant(self);
        }
        vstd::slice::slice_subrange(self.buffer.as_slice(), 0, self.len)
    }
}

} // verus!
