//! Little-endian byte strings for unsigned integers: the mathematical model
//! of every fixed-width scalar encoding, plus the exec encoder and decoder
//! that all scalar codecs share.

use vstd::prelude::*;

verus! {

/// `256^w`: the number of values a `w`-byte little-endian string can carry.
pub open spec fn pow256(w: nat) -> nat
    decreases w,
{
    if w == 0 {
        1
    } else {
        256 * pow256((w - 1) as nat)
    }
}

/// The `w`-byte little-endian representation of `v % 256^w`.
pub open spec fn le_bytes_of(v: nat, w: nat) -> Seq<u8>
    decreases w,
{
    if w == 0 {
        Seq::empty()
    } else {
        seq![(v % 256) as u8] + le_bytes_of(v / 256, (w - 1) as nat)
    }
}

/// The value a little-endian byte string stands for.
pub open spec fn le_val_of(s: Seq<u8>) -> nat
    decreases s.len(),
{
    if s.len() == 0 {
        0
    } else {
        s[0] as nat + 256 * le_val_of(s.drop_first())
    }
}

pub proof fn lemma_le_bytes_of_len(v: nat, w: nat)
    ensures
        le_bytes_of(v, w).len() == w,
    decreases w,
{
    if w > 0 {
        lemma_le_bytes_of_len(v / 256, (w - 1) as nat);
    }
}

pub proof fn lemma_le_val_of_bound(s: Seq<u8>)
    ensures
        le_val_of(s) < pow256(s.len()),
    decreases s.len(),
{
    if s.len() > 0 {
        lemma_le_val_of_bound(s.drop_first());
    }
}

/// What decoding a `w`-byte scalar from `data` yields: the value of the
/// first `w` bytes and the suffix after them, or a zero value with `data`
/// unconsumed when fewer than `w` bytes remain.
pub open spec fn le_dec(data: Seq<u8>, w: nat) -> (nat, Seq<u8>) {
    if data.len() >= w {
        (le_val_of(data.take(w as int)), data.skip(w as int))
    } else {
        (0, data)
    }
}

/// Reading back the `w`-byte string of an in-range value recovers the value.
pub proof fn lemma_le_val_of_le_bytes_of(v: nat, w: nat)
    requires
        v < pow256(w),
    ensures
        le_val_of(le_bytes_of(v, w)) == v,
    decreases w,
{
    if w > 0 {
        let s = le_bytes_of(v, w);
        lemma_le_bytes_of_len(v, w);
        assert(s.drop_first() =~= le_bytes_of(v / 256, (w - 1) as nat));
        lemma_le_val_of_le_bytes_of(v / 256, (w - 1) as nat);
    }
}

/// Decoding `w` bytes right after encoding `w` bytes of an in-range value
/// recovers the value and leaves exactly the trailing bytes.
pub proof fn lemma_le_round_trip(v: nat, w: nat, rest: Seq<u8>)
    requires
        v < pow256(w),
    ensures
        le_dec(le_bytes_of(v, w) + rest, w).0 == v,
        le_dec(le_bytes_of(v, w) + rest, w).1 == rest,
{
    let enc = le_bytes_of(v, w);
    lemma_le_bytes_of_len(v, w);
    assert((enc + rest).take(w as int) =~= enc);
    assert((enc + rest).skip(w as int) =~= rest);
    lemma_le_val_of_le_bytes_of(v, w);
}

/// Writes the `w`-byte little-endian form of `v`.
pub fn encode_le(v: u128, w: usize) -> (r: Vec<u8>)
    ensures
        r@ == le_bytes_of(v as nat, w as nat),
{
    let mut r: Vec<u8> = Vec::new();
    let mut cur: u128 = v;
    let mut i: usize = 0;
    while i < w
        invariant
            i <= w,
            r@.len() == i,
            r@ + le_bytes_of(cur as nat, (w - i) as nat) == le_bytes_of(v as nat, w as nat),
        decreases w - i,
    {
        let b: u8 = (cur % 256) as u8;
        proof {
            assert(le_bytes_of(cur as nat, (w - i) as nat) == seq![b] + le_bytes_of(
                cur as nat / 256,
                (w - i - 1) as nat,
            ));
            assert(r@.push(b) + le_bytes_of(cur as nat / 256, (w - i - 1) as nat) =~= r@
                + le_bytes_of(cur as nat, (w - i) as nat));
        }
        r.push(b);
        cur = cur / 256;
        i = i + 1;
    }
    proof {
        assert(r@ + le_bytes_of(cur as nat, 0) =~= r@);
    }
    r
}

/// Reads a `w`-byte little-endian scalar from the front of `data`,
/// returning the value and the unconsumed suffix; a short buffer yields
/// zero with no bytes consumed.
pub fn decode_le<'a>(data: &'a [u8], w: usize) -> (r: (u128, &'a [u8]))
    requires
        w <= 16,
    ensures
        r.0 as nat == le_dec(data@, w as nat).0,
        r.1@ == le_dec(data@, w as nat).1,
        (r.0 as nat) < pow256(w as nat),
{
    if data.len() < w {
        proof {
            lemma_pow256_le(0, w as nat);
        }
        return (0, data);
    }
    let (head, rest) = data.split_at(w);
    let mut acc: u128 = 0;
    let mut i: usize = w;
    proof {
        assert(head@.subrange(w as int, w as int) =~= Seq::<u8>::empty());
    }
    while i > 0
        invariant
            i <= w,
            w <= 16,
            head@ == data@.take(w as int),
            head@.len() == w,
            acc as nat == le_val_of(head@.subrange(i as int, w as int)),
        decreases i,
    {
        i = i - 1;
        let b: u8 = head[i];
        proof {
            let tail = head@.subrange(i + 1, w as int);
            lemma_le_val_of_bound(tail);
            lemma_pow256_le(((w - i) - 1) as nat, 15);
            lemma_pow256_16();
            assert(pow256(16) == 256 * pow256(15));
            assert(head@.subrange(i as int, w as int).drop_first() =~= tail);
            assert(le_val_of(head@.subrange(i as int, w as int)) == b as nat + 256 * le_val_of(
                tail,
            ));
        }
        acc = acc * 256 + (b as u128);
    }
    proof {
        assert(head@.subrange(0, w as int) =~= head@);
        lemma_le_val_of_bound(head@);
    }
    (acc, rest)
}

/// The largest width any scalar here uses still fits the widest machine
/// integer: `256^16` is one past `u128::MAX`.
pub proof fn lemma_pow256_16()
    ensures
        pow256(16) == 0x100000000000000000000000000000000,
{
    reveal_with_fuel(pow256, 17);
}

/// The concrete range of every scalar width the codec uses.
pub proof fn lemma_pow256_widths()
    ensures
        pow256(1) == 0x100,
        pow256(2) == 0x10000,
        pow256(4) == 0x100000000,
        pow256(8) == 0x10000000000000000,
        pow256(16) == 0x100000000000000000000000000000000,
{
    reveal_with_fuel(pow256, 17);
}

/// Reading one byte off a buffer that starts with `b` yields `b` and the
/// tail: the tag-byte step every variant codec takes.
pub proof fn lemma_le_dec_byte(b: u8, rest: Seq<u8>)
    ensures
        le_dec(seq![b] + rest, 1).0 == b as nat,
        le_dec(seq![b] + rest, 1).1 == rest,
{
    reveal_with_fuel(le_bytes_of, 2);
    lemma_pow256_widths();
    assert(seq![b] =~= le_bytes_of(b as nat, 1));
    lemma_le_round_trip(b as nat, 1, rest);
}

/// A scalar decode hands back a tail of its input.
pub proof fn lemma_le_dec_suffix(data: Seq<u8>, w: nat)
    ensures
        crate::is_suffix_of(le_dec(data, w).1, data),
{
    if data.len() < w {
        assert(data.skip(0) =~= data);
    }
}

/// `pow256` is monotone in its exponent.
pub proof fn lemma_pow256_le(a: nat, b: nat)
    requires
        a <= b,
    ensures
        pow256(a) <= pow256(b),
    decreases b,
{
    if a < b {
        lemma_pow256_le(a, (b - 1) as nat);
    }
}

} // verus!
