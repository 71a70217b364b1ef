//! Scalar codecs: fixed-width little-endian encode/decode for the native
//! integer types and for `bool`.  A buffer too short for the full width
//! yields a zero value with no bytes consumed.

use vstd::prelude::*;

use crate::le::{
    decode_le, encode_le, le_bytes_of, le_dec, lemma_le_dec_suffix, lemma_le_round_trip,
    lemma_pow256_widths, pow256,
};
use crate::Arbitrary;

verus! {

impl Arbitrary for u8 {
    type Model = u8;

    open spec fn model(&self) -> u8 {
        *self
    }

    open spec fn enc(m: u8) -> Seq<u8> {
        le_bytes_of(m as nat, 1)
    }

    open spec fn dec(data: Seq<u8>) -> (u8, Seq<u8>) {
        (le_dec(data, 1).0 as u8, le_dec(data, 1).1)
    }

    open spec fn round_trippable(m: u8) -> bool {
        true
    }

    proof fn lemma_dec_suffix(data: Seq<u8>) {
        lemma_le_dec_suffix(data, 1);
    }

    proof fn lemma_round_trip(m: u8, rest: Seq<u8>) {
        lemma_pow256_widths();
        lemma_le_round_trip(m as nat, 1, rest);
    }

    fn to_bytes(&self) -> (r: Vec<u8>) {
        encode_le(*self as u128, 1)
    }

    fn build_from_bytes<'a>(data: &'a [u8]) -> (r: (Self, &'a [u8])) {
        let (v, rest) = decode_le(data, 1);
        proof {
            lemma_pow256_widths();
        }
        (v as u8, rest)
    }
}

impl Arbitrary for u16 {
    type Model = u16;

    open spec fn model(&self) -> u16 {
        *self
    }

    open spec fn enc(m: u16) -> Seq<u8> {
        le_bytes_of(m as nat, 2)
    }

    open spec fn dec(data: Seq<u8>) -> (u16, Seq<u8>) {
        (le_dec(data, 2).0 as u16, le_dec(data, 2).1)
    }

    open spec fn round_trippable(m: u16) -> bool {
        true
    }

    proof fn lemma_dec_suffix(data: Seq<u8>) {
        lemma_le_dec_suffix(data, 2);
    }

    proof fn lemma_round_trip(m: u16, rest: Seq<u8>) {
        lemma_pow256_widths();
        lemma_le_round_trip(m as nat, 2, rest);
    }

    fn to_bytes(&self) -> (r: Vec<u8>) {
        encode_le(*self as u128, 2)
    }

    fn build_from_bytes<'a>(data: &'a [u8]) -> (r: (Self, &'a [u8])) {
        let (v, rest) = decode_le(data, 2);
        proof {
            lemma_pow256_widths();
        }
        (v as u16, rest)
    }
}

impl Arbitrary for u32 {
    type Model = u32;

    open spec fn model(&self) -> u32 {
        *self
    }

    open spec fn enc(m: u32) -> Seq<u8> {
        le_bytes_of(m as nat, 4)
    }

    open spec fn dec(data: Seq<u8>) -> (u32, Seq<u8>) {
        (le_dec(data, 4).0 as u32, le_dec(data, 4).1)
    }

    open spec fn round_trippable(m: u32) -> bool {
        true
    }

    proof fn lemma_dec_suffix(data: Seq<u8>) {
        lemma_le_dec_suffix(data, 4);
    }

    proof fn lemma_round_trip(m: u32, rest: Seq<u8>) {
        lemma_pow256_widths();
        lemma_le_round_trip(m as nat, 4, rest);
    }

    fn to_bytes(&self) -> (r: Vec<u8>) {
        encode_le(*self as u128, 4)
    }

    fn build_from_bytes<'a>(data: &'a [u8]) -> (r: (Self, &'a [u8])) {
        let (v, rest) = decode_le(data, 4);
        proof {
            lemma_pow256_widths();
        }
        (v as u32, rest)
    }
}

impl Arbitrary for u64 {
    type Model = u64;

    open spec fn model(&self) -> u64 {
        *self
    }

    open spec fn enc(m: u64) -> Seq<u8> {
        le_bytes_of(m as nat, 8)
    }

    open spec fn dec(data: Seq<u8>) -> (u64, Seq<u8>) {
        (le_dec(data, 8).0 as u64, le_dec(data, 8).1)
    }

    open spec fn round_trippable(m: u64) -> bool {
        true
    }

    proof fn lemma_dec_suffix(data: Seq<u8>) {
        lemma_le_dec_suffix(data, 8);
    }

    proof fn lemma_round_trip(m: u64, rest: Seq<u8>) {
        lemma_pow256_widths();
        lemma_le_round_trip(m as nat, 8, rest);
    }

    fn to_bytes(&self) -> (r: Vec<u8>) {
        encode_le(*self as u128, 8)
    }

    fn build_from_bytes<'a>(data: &'a [u8]) -> (r: (Self, &'a [u8])) {
        let (v, rest) = decode_le(data, 8);
        proof {
            lemma_pow256_widths();
        }
        (v as u64, rest)
    }
}

impl Arbitrary for u128 {
    type Model = u128;

    open spec fn model(&self) -> u128 {
        *self
    }

    open spec fn enc(m: u128) -> Seq<u8> {
        le_bytes_of(m as nat, 16)
    }

    open spec fn dec(data: Seq<u8>) -> (u128, Seq<u8>) {
        (le_dec(data, 16).0 as u128, le_dec(data, 16).1)
    }

    open spec fn round_trippable(m: u128) -> bool {
        true
    }

    proof fn lemma_dec_suffix(data: Seq<u8>) {
        lemma_le_dec_suffix(data, 16);
    }

    proof fn lemma_round_trip(m: u128, rest: Seq<u8>) {
        lemma_pow256_widths();
        lemma_le_round_trip(m as nat, 16, rest);
    }

    fn to_bytes(&self) -> (r: Vec<u8>) {
        encode_le(*self, 16)
    }

    fn build_from_bytes<'a>(data: &'a [u8]) -> (r: (Self, &'a [u8])) {
        let (v, rest) = decode_le(data, 16);
        proof {
            lemma_pow256_widths();
        }
        (v, rest)
    }
}

/// The byte width of the platform's pointer-sized integers: their natural
/// width, so the length prefix of sequences and text is platform-width.
pub open spec fn usize_width() -> nat {
    (usize::BITS / 8) as nat
}

/// The platform width is 4 or 8 bytes, and a `usize` fills it exactly.
pub proof fn lemma_pow256_usize()
    ensures
        usize_width() == 4 || usize_width() == 8,
        pow256(usize_width()) == usize::MAX as nat + 1,
{
    assert(usize::BITS == 32 || usize::BITS == 64);
    lemma_pow256_widths();
}

impl Arbitrary for usize {
    type Model = usize;

    open spec fn model(&self) -> usize {
        *self
    }

    open spec fn enc(m: usize) -> Seq<u8> {
        le_bytes_of(m as nat, usize_width())
    }

    open spec fn dec(data: Seq<u8>) -> (usize, Seq<u8>) {
        (le_dec(data, usize_width()).0 as usize, le_dec(data, usize_width()).1)
    }

    open spec fn round_trippable(m: usize) -> bool {
        true
    }

    proof fn lemma_dec_suffix(data: Seq<u8>) {
        lemma_le_dec_suffix(data, usize_width());
    }

    proof fn lemma_round_trip(m: usize, rest: Seq<u8>) {
        lemma_pow256_usize();
        lemma_le_round_trip(m as nat, usize_width(), rest);
    }

    fn to_bytes(&self) -> (r: Vec<u8>) {
        let w: usize = (usize::BITS / 8) as usize;
        encode_le(*self as u128, w)
    }

    fn build_from_bytes<'a>(data: &'a [u8]) -> (r: (Self, &'a [u8])) {
        let w: usize = (usize::BITS / 8) as usize;
        let (v, rest) = decode_le(data, w);
        proof {
            lemma_pow256_usize();
        }
        (v as usize, rest)
    }
}

/// The two's-complement image of a signed value in a `w`-byte range.
pub open spec fn to_unsigned(v: int, w: nat) -> nat {
    if v >= 0 {
        v as nat
    } else {
        (v + pow256(w)) as nat
    }
}

/// The signed value a `w`-byte two's-complement image stands for.
pub open spec fn from_unsigned(u: nat, w: nat) -> int {
    if u < pow256(w) / 2 {
        u as int
    } else {
        u - pow256(w)
    }
}

impl Arbitrary for i8 {
    type Model = i8;

    open spec fn model(&self) -> i8 {
        *self
    }

    open spec fn enc(m: i8) -> Seq<u8> {
        le_bytes_of(to_unsigned(m as int, 1), 1)
    }

    open spec fn dec(data: Seq<u8>) -> (i8, Seq<u8>) {
        (from_unsigned(le_dec(data, 1).0, 1) as i8, le_dec(data, 1).1)
    }

    open spec fn round_trippable(m: i8) -> bool {
        true
    }

    proof fn lemma_dec_suffix(data: Seq<u8>) {
        lemma_le_dec_suffix(data, 1);
    }

    proof fn lemma_round_trip(m: i8, rest: Seq<u8>) {
        lemma_pow256_widths();
        lemma_le_round_trip(to_unsigned(m as int, 1), 1, rest);
    }

    fn to_bytes(&self) -> (r: Vec<u8>) {
        let m = *self;
        let u: u8 = if m >= 0 {
            m as u8
        } else {
            ((m as i16) + 0x100) as u8
        };
        proof {
            lemma_pow256_widths();
        }
        encode_le(u as u128, 1)
    }

    fn build_from_bytes<'a>(data: &'a [u8]) -> (r: (Self, &'a [u8])) {
        let (v, rest) = decode_le(data, 1);
        proof {
            lemma_pow256_widths();
        }
        let val: i8 = if v < 0x80 {
            v as i8
        } else {
            ((v as i16) - 0x100) as i8
        };
        (val, rest)
    }
}

impl Arbitrary for i16 {
    type Model = i16;

    open spec fn model(&self) -> i16 {
        *self
    }

    open spec fn enc(m: i16) -> Seq<u8> {
        le_bytes_of(to_unsigned(m as int, 2), 2)
    }

    open spec fn dec(data: Seq<u8>) -> (i16, Seq<u8>) {
        (from_unsigned(le_dec(data, 2).0, 2) as i16, le_dec(data, 2).1)
    }

    open spec fn round_trippable(m: i16) -> bool {
        true
    }

    proof fn lemma_dec_suffix(data: Seq<u8>) {
        lemma_le_dec_suffix(data, 2);
    }

    proof fn lemma_round_trip(m: i16, rest: Seq<u8>) {
        lemma_pow256_widths();
        lemma_le_round_trip(to_unsigned(m as int, 2), 2, rest);
    }

    fn to_bytes(&self) -> (r: Vec<u8>) {
        let m = *self;
        let u: u16 = if m >= 0 {
            m as u16
        } else {
            ((m as i32) + 0x10000) as u16
        };
        proof {
            lemma_pow256_widths();
        }
        encode_le(u as u128, 2)
    }

    fn build_from_bytes<'a>(data: &'a [u8]) -> (r: (Self, &'a [u8])) {
        let (v, rest) = decode_le(data, 2);
        proof {
            lemma_pow256_widths();
        }
        let val: i16 = if v < 0x8000 {
            v as i16
        } else {
            ((v as i32) - 0x10000) as i16
        };
        (val, rest)
    }
}

impl Arbitrary for i32 {
    type Model = i32;

    open spec fn model(&self) -> i32 {
        *self
    }

    open spec fn enc(m: i32) -> Seq<u8> {
        le_bytes_of(to_unsigned(m as int, 4), 4)
    }

    open spec fn dec(data: Seq<u8>) -> (i32, Seq<u8>) {
        (from_unsigned(le_dec(data, 4).0, 4) as i32, le_dec(data, 4).1)
    }

    open spec fn round_trippable(m: i32) -> bool {
        true
    }

    proof fn lemma_dec_suffix(data: Seq<u8>) {
        lemma_le_dec_suffix(data, 4);
    }

    proof fn lemma_round_trip(m: i32, rest: Seq<u8>) {
        lemma_pow256_widths();
        lemma_le_round_trip(to_unsigned(m as int, 4), 4, rest);
    }

    fn to_bytes(&self) -> (r: Vec<u8>) {
        let m = *self;
        let u: u32 = if m >= 0 {
            m as u32
        } else {
            ((m as i64) + 0x100000000) as u32
        };
        proof {
            lemma_pow256_widths();
        }
        encode_le(u as u128, 4)
    }

    fn build_from_bytes<'a>(data: &'a [u8]) -> (r: (Self, &'a [u8])) {
        let (v, rest) = decode_le(data, 4);
        proof {
            lemma_pow256_widths();
        }
        let val: i32 = if v < 0x80000000 {
            v as i32
        } else {
            ((v as i64) - 0x100000000) as i32
        };
        (val, rest)
    }
}

impl Arbitrary for i64 {
    type Model = i64;

    open spec fn model(&self) -> i64 {
        *self
    }

    open spec fn enc(m: i64) -> Seq<u8> {
        le_bytes_of(to_unsigned(m as int, 8), 8)
    }

    open spec fn dec(data: Seq<u8>) -> (i64, Seq<u8>) {
        (from_unsigned(le_dec(data, 8).0, 8) as i64, le_dec(data, 8).1)
    }

    open spec fn round_trippable(m: i64) -> bool {
        true
    }

    proof fn lemma_dec_suffix(data: Seq<u8>) {
        lemma_le_dec_suffix(data, 8);
    }

    proof fn lemma_round_trip(m: i64, rest: Seq<u8>) {
        lemma_pow256_widths();
        lemma_le_round_trip(to_unsigned(m as int, 8), 8, rest);
    }

    fn to_bytes(&self) -> (r: Vec<u8>) {
        let m = *self;
        let u: u64 = if m >= 0 {
            m as u64
        } else {
            ((m as i128) + 0x10000000000000000) as u64
        };
        proof {
            lemma_pow256_widths();
        }
        encode_le(u as u128, 8)
    }

    fn build_from_bytes<'a>(data: &'a [u8]) -> (r: (Self, &'a [u8])) {
        let (v, rest) = decode_le(data, 8);
        proof {
            lemma_pow256_widths();
        }
        let val: i64 = if v < 0x8000000000000000 {
            v as i64
        } else {
            ((v as i128) - 0x10000000000000000) as i64
        };
        (val, rest)
    }
}

impl Arbitrary for i128 {
    type Model = i128;

    open spec fn model(&self) -> i128 {
        *self
    }

    open spec fn enc(m: i128) -> Seq<u8> {
        le_bytes_of(to_unsigned(m as int, 16), 16)
    }

    open spec fn dec(data: Seq<u8>) -> (i128, Seq<u8>) {
        (from_unsigned(le_dec(data, 16).0, 16) as i128, le_dec(data, 16).1)
    }

    open spec fn round_trippable(m: i128) -> bool {
        true
    }

    proof fn lemma_dec_suffix(data: Seq<u8>) {
        lemma_le_dec_suffix(data, 16);
    }

    proof fn lemma_round_trip(m: i128, rest: Seq<u8>) {
        lemma_pow256_widths();
        lemma_le_round_trip(to_unsigned(m as int, 16), 16, rest);
    }

    fn to_bytes(&self) -> (r: Vec<u8>) {
        let m = *self;
        let u: u128 = if m >= 0 {
            m as u128
        } else {
            u128::MAX - ((-(m + 1)) as u128)
        };
        proof {
            lemma_pow256_widths();
        }
        encode_le(u, 16)
    }

    fn build_from_bytes<'a>(data: &'a [u8]) -> (r: (Self, &'a [u8])) {
        let (v, rest) = decode_le(data, 16);
        proof {
            lemma_pow256_widths();
        }
        let val: i128 = if v < 0x80000000000000000000000000000000 {
            v as i128
        } else {
            -((u128::MAX - v) as i128) - 1
        };
        (val, rest)
    }
}

impl Arbitrary for isize {
    type Model = isize;

    open spec fn model(&self) -> isize {
        *self
    }

    open spec fn enc(m: isize) -> Seq<u8> {
        le_bytes_of(to_unsigned(m as int, usize_width()), usize_width())
    }

    open spec fn dec(data: Seq<u8>) -> (isize, Seq<u8>) {
        (
            from_unsigned(le_dec(data, usize_width()).0, usize_width()) as isize,
            le_dec(data, usize_width()).1,
        )
    }

    open spec fn round_trippable(m: isize) -> bool {
        true
    }

    proof fn lemma_dec_suffix(data: Seq<u8>) {
        lemma_le_dec_suffix(data, usize_width());
    }

    proof fn lemma_round_trip(m: isize, rest: Seq<u8>) {
        lemma_pow256_usize();
        lemma_le_round_trip(to_unsigned(m as int, usize_width()), usize_width(), rest);
    }

    fn to_bytes(&self) -> (r: Vec<u8>) {
        let m = *self;
        let w: usize = (usize::BITS / 8) as usize;
        let u: u128 = if m >= 0 {
            m as u128
        } else {
            ((m as i128) + (usize::MAX as i128) + 1) as u128
        };
        proof {
            lemma_pow256_usize();
        }
        encode_le(u, w)
    }

    fn build_from_bytes<'a>(data: &'a [u8]) -> (r: (Self, &'a [u8])) {
        let w: usize = (usize::BITS / 8) as usize;
        let (v, rest) = decode_le(data, w);
        proof {
            lemma_pow256_usize();
        }
        let half: u128 = (usize::MAX as u128) / 2 + 1;
        let val: isize = if v < half {
            v as isize
        } else {
            ((v as i128) - (usize::MAX as i128) - 1) as isize
        };
        (val, rest)
    }
}

impl Arbitrary for bool {
    type Model = bool;

    open spec fn model(&self) -> bool {
        *self
    }

    open spec fn enc(m: bool) -> Seq<u8> {
        seq![if m { 0xffu8 } else { 0x00u8 }]
    }

    open spec fn dec(data: Seq<u8>) -> (bool, Seq<u8>) {
        (le_dec(data, 1).0 == 0xff, le_dec(data, 1).1)
    }

    open spec fn round_trippable(m: bool) -> bool {
        true
    }

    proof fn lemma_dec_suffix(data: Seq<u8>) {
        lemma_le_dec_suffix(data, 1);
    }

    proof fn lemma_round_trip(m: bool, rest: Seq<u8>) {
        let b: u8 = if m { 0xff } else { 0x00 };
        reveal_with_fuel(le_bytes_of, 2);
        assert(Self::enc(m) =~= le_bytes_of(b as nat, 1));
        lemma_pow256_widths();
        lemma_le_round_trip(b as nat, 1, rest);
    }

    fn to_bytes(&self) -> (r: Vec<u8>) {
        let b: u8 = if *self { 0xff } else { 0x00 };
        proof {
            reveal_with_fuel(le_bytes_of, 2);
            assert(Self::enc(*self) =~= le_bytes_of(b as nat, 1));
        }
        encode_le(b as u128, 1)
    }

    fn build_from_bytes<'a>(data: &'a [u8]) -> (r: (Self, &'a [u8])) {
        let (v, rest) = decode_le(data, 1);
        (v == 0xff, rest)
    }
}

} // verus!
