//! Text codecs: the one-byte character codec and the length-prefixed
//! `String` codec built on it.  Only code points 0–255 survive the one-byte
//! character width; wider characters are truncated on encode.

use vstd::prelude::*;

use vstd::string::StrSliceExecFns;

use crate::collections::{
    dec_elems, enc_elems, lemma_dec_elems_len, lemma_dec_elems_suffix, lemma_elems_round_trip,
    lemma_enc_elems_push,
};
use crate::le::{
    decode_le, encode_le, le_bytes_of, le_dec, lemma_le_dec_suffix, lemma_le_round_trip,
    lemma_pow256_widths,
};
use crate::primitives::{lemma_pow256_usize, usize_width};
use crate::{lemma_suffix_trans, Arbitrary, MAX_COLLECTIONS_SIZE};

verus! {

/// The single byte a character encodes to: its code point truncated to
/// the one-byte range.
pub open spec fn char_byte(c: char) -> u8 {
    ((c as u32) % 256) as u8
}

impl Arbitrary for char {
    type Model = char;

    open spec fn model(&self) -> char {
        *self
    }

    open spec fn enc(m: char) -> Seq<u8> {
        seq![char_byte(m)]
    }

    open spec fn dec(data: Seq<u8>) -> (char, Seq<u8>) {
        ((le_dec(data, 1).0 as u8) as char, le_dec(data, 1).1)
    }

    open spec fn round_trippable(m: char) -> bool {
        (m as u32) < 256
    }

    proof fn lemma_dec_suffix(data: Seq<u8>) {
        lemma_le_dec_suffix(data, 1);
    }

    proof fn lemma_round_trip(m: char, rest: Seq<u8>) {
        let b = char_byte(m);
        reveal_with_fuel(le_bytes_of, 2);
        assert(Self::enc(m) =~= le_bytes_of(b as nat, 1));
        lemma_pow256_widths();
        lemma_le_round_trip(b as nat, 1, rest);
        assert(b as u32 == m as u32);
        vstd::utf8::char_u32_cast(m, b as u32);
    }

    fn to_bytes(&self) -> (r: Vec<u8>) {
        let x: u32 = *self as u32;
        let b: u8 = (x % 256) as u8;
        proof {
            reveal_with_fuel(le_bytes_of, 2);
            assert(Self::enc(*self) =~= le_bytes_of(b as nat, 1));
        }
        encode_le(b as u128, 1)
    }

    fn build_from_bytes<'a>(data: &'a [u8]) -> (r: (Self, &'a [u8])) {
        let (v, rest) = decode_le(data, 1);
        proof {
            lemma_pow256_widths();
        }
        let b: u8 = v as u8;
        (b as char, rest)
    }
}

/// Law: whatever character count an adversarial length prefix claims, a
/// text decode materializes at most `MAX_COLLECTIONS_SIZE` characters.
pub proof fn lemma_string_dec_len_clamped(data: Seq<u8>)
    ensures
        <String as Arbitrary>::dec(data).0.len() <= MAX_COLLECTIONS_SIZE,
{
    let (l, r0) = le_dec(data, usize_width());
    let n = if l < (MAX_COLLECTIONS_SIZE as nat) {
        l
    } else {
        MAX_COLLECTIONS_SIZE as nat
    };
    lemma_dec_elems_len::<char>(r0, n);
}

/// Relies on `String::push`: it appends exactly the one character to the
/// string's character sequence.
#[verifier::external_body]
fn push_char(s: &mut String, c: char)
    ensures
        final (s)@ == old(s)@.push(c),
{
    s.push(c);
}

impl Arbitrary for String {
    type Model = Seq<char>;

    open spec fn model(&self) -> Seq<char> {
        self@
    }

    open spec fn enc(m: Seq<char>) -> Seq<u8> {
        let n = if m.len() < (MAX_COLLECTIONS_SIZE as nat) {
            m.len()
        } else {
            MAX_COLLECTIONS_SIZE as nat
        };
        le_bytes_of(n, usize_width()) + enc_elems::<char>(m.take(n as int))
    }

    open spec fn dec(data: Seq<u8>) -> (Seq<char>, Seq<u8>) {
        let (l, r0) = le_dec(data, usize_width());
        let n = if l < (MAX_COLLECTIONS_SIZE as nat) {
            l
        } else {
            MAX_COLLECTIONS_SIZE as nat
        };
        dec_elems::<char>(r0, n)
    }

    open spec fn round_trippable(m: Seq<char>) -> bool {
        &&& m.len() <= MAX_COLLECTIONS_SIZE
        &&& forall|i: int| 0 <= i < m.len() ==> ((#[trigger] m[i]) as u32) < 256
    }

    proof fn lemma_dec_suffix(data: Seq<u8>) {
        let w = usize_width();
        let (l, r0) = le_dec(data, w);
        let n = if l < (MAX_COLLECTIONS_SIZE as nat) {
            l
        } else {
            MAX_COLLECTIONS_SIZE as nat
        };
        lemma_le_dec_suffix(data, w);
        lemma_dec_elems_suffix::<char>(r0, n);
        lemma_suffix_trans(data, r0, dec_elems::<char>(r0, n).1);
    }

    proof fn lemma_round_trip(m: Seq<char>, rest: Seq<u8>) {
        let w = usize_width();
        let n = m.len();
        let body = enc_elems::<char>(m.take(n as int)) + rest;
        lemma_pow256_usize();
        lemma_pow256_widths();
        assert(m.take(n as int) =~= m);
        assert((le_bytes_of(n, w) + enc_elems::<char>(m)) + rest =~= le_bytes_of(n, w) + body);
        lemma_le_round_trip(n, w, body);
        lemma_elems_round_trip::<char>(m, rest);
    }

    fn to_bytes(&self) -> (r: Vec<u8>) {
        let n_chars = self.as_str().unicode_len();
        let len: usize = if n_chars < MAX_COLLECTIONS_SIZE {
            n_chars
        } else {
            MAX_COLLECTIONS_SIZE
        };
        let w: usize = (usize::BITS / 8) as usize;
        let mut r = encode_le(len as u128, w);
        let mut i: usize = 0;
        while i < len
            invariant
                i <= len,
                len <= self@.len(),
                r@ == le_bytes_of(len as nat, usize_width()) + enc_elems::<char>(
                    self@.subrange(0, i as int),
                ),
            decreases len - i,
        {
            let c = self.as_str().get_char(i);
            let x: u32 = c as u32;
            let b: u8 = (x % 256) as u8;
            proof {
                let done = self@.subrange(0, i as int);
                lemma_enc_elems_push::<char>(done, c);
                assert(self@.subrange(0, i + 1) =~= done.push(c));
                assert(<char as Arbitrary>::enc(c) =~= seq![b]);
                assert((le_bytes_of(len as nat, usize_width()) + enc_elems::<char>(done)).push(b)
                    =~= le_bytes_of(len as nat, usize_width()) + (enc_elems::<char>(done)
                    + seq![b]));
            }
            r.push(b);
            i = i + 1;
        }
        proof {
            assert(self@.subrange(0, len as int) =~= self@.take(len as int));
        }
        r
    }

    fn build_from_bytes<'a>(data: &'a [u8]) -> (r: (Self, &'a [u8])) {
        let w: usize = (usize::BITS / 8) as usize;
        let (l128, first) = decode_le(data, w);
        proof {
            lemma_pow256_usize();
        }
        let l: usize = l128 as usize;
        let len: usize = if l < MAX_COLLECTIONS_SIZE {
            l
        } else {
            MAX_COLLECTIONS_SIZE
        };
        let ghost r0 = first@;
        let mut cur: &[u8] = first;
        let mut s = String::new();
        let mut i: usize = 0;
        while i < len
            invariant
                i <= len,
                s@ + dec_elems::<char>(cur@, (len - i) as nat).0 == dec_elems::<char>(
                    r0,
                    len as nat,
                ).0,
                dec_elems::<char>(cur@, (len - i) as nat).1 == dec_elems::<char>(r0, len as nat).1,
            decreases len - i,
        {
            let (c, rest) = <char as Arbitrary>::build_from_bytes(cur);
            proof {
                let k = (len - i) as nat;
                let (v, r1) = <char as Arbitrary>::dec(cur@);
                assert(dec_elems::<char>(cur@, k).0 == seq![v] + dec_elems::<char>(
                    r1,
                    (k - 1) as nat,
                ).0);
                assert(s@.push(c) + dec_elems::<char>(rest@, (k - 1) as nat).0 =~= s@ + (seq![v]
                    + dec_elems::<char>(r1, (k - 1) as nat).0));
            }
            push_char(&mut s, c);
            cur = rest;
            i = i + 1;
        }
        proof {
            assert(s@ + dec_elems::<char>(cur@, 0).0 =~= s@);
        }
        (s, cur)
    }
}

} // verus!
