//! Homogeneous element runs: the spec-level codec for "each element's
//! encoding in order", shared by the sequence and text codecs, and the
//! codecs for length-prefixed `Vec`, tag-prefixed `Option` and `Result`.

use vstd::prelude::*;

use crate::le::{
    decode_le, encode_le, le_bytes_of, le_dec, lemma_le_dec_byte, lemma_le_dec_suffix,
    lemma_le_round_trip, pow256,
};
use crate::primitives::{lemma_pow256_usize, usize_width};
use crate::{is_suffix_of, lemma_suffix_trans, Arbitrary, MAX_COLLECTIONS_SIZE};

verus! {

/// Each element's encoding, concatenated in order.
pub open spec fn enc_elems<T: Arbitrary>(m: Seq<T::Model>) -> Seq<u8>
    decreases m.len(),
{
    if m.len() == 0 {
        Seq::empty()
    } else {
        T::enc(m[0]) + enc_elems::<T>(m.drop_first())
    }
}

/// Decoding `n` elements in order, threading the unconsumed suffix
/// through each component decode.
pub open spec fn dec_elems<T: Arbitrary>(data: Seq<u8>, n: nat) -> (Seq<T::Model>, Seq<u8>)
    decreases n,
{
    if n == 0 {
        (Seq::empty(), data)
    } else {
        let (v, r1) = T::dec(data);
        let (s, r2) = dec_elems::<T>(r1, (n - 1) as nat);
        (seq![v] + s, r2)
    }
}

/// Decoding `n` elements yields exactly `n` elements, whatever the input.
pub proof fn lemma_dec_elems_len<T: Arbitrary>(data: Seq<u8>, n: nat)
    ensures
        dec_elems::<T>(data, n).0.len() == n,
    decreases n,
{
    if n > 0 {
        lemma_dec_elems_len::<T>(T::dec(data).1, (n - 1) as nat);
    }
}

/// Decoding a run of elements consumes a prefix of the input.
pub proof fn lemma_dec_elems_suffix<T: Arbitrary>(data: Seq<u8>, n: nat)
    ensures
        is_suffix_of(dec_elems::<T>(data, n).1, data),
    decreases n,
{
    if n == 0 {
        assert(data.skip(0) =~= data);
    } else {
        let r1 = T::dec(data).1;
        T::lemma_dec_suffix(data);
        lemma_dec_elems_suffix::<T>(r1, (n - 1) as nat);
        lemma_suffix_trans(data, r1, dec_elems::<T>(r1, (n - 1) as nat).1);
    }
}

/// Appending one element to a run appends its encoding.
pub proof fn lemma_enc_elems_push<T: Arbitrary>(m: Seq<T::Model>, v: T::Model)
    ensures
        enc_elems::<T>(m.push(v)) == enc_elems::<T>(m) + T::enc(v),
    decreases m.len(),
{
    if m.len() == 0 {
        assert(m.push(v).drop_first() =~= Seq::<T::Model>::empty());
        assert(m.push(v)[0] == v);
        assert(enc_elems::<T>(Seq::<T::Model>::empty()) == Seq::<u8>::empty());
        assert(enc_elems::<T>(m) == Seq::<u8>::empty());
        assert(T::enc(v) + Seq::<u8>::empty() =~= T::enc(v));
        assert(Seq::<u8>::empty() + T::enc(v) =~= T::enc(v));
        assert(enc_elems::<T>(m.push(v)) =~= enc_elems::<T>(m) + T::enc(v));
    } else {
        assert(m.push(v).drop_first() =~= m.drop_first().push(v));
        lemma_enc_elems_push::<T>(m.drop_first(), v);
        assert((T::enc(m[0]) + enc_elems::<T>(m.drop_first())) + T::enc(v) =~= T::enc(m[0]) + (
        enc_elems::<T>(m.drop_first()) + T::enc(v)));
        assert(enc_elems::<T>(m.push(v)) =~= enc_elems::<T>(m) + T::enc(v));
    }
}

/// Round trip for a run of round-trippable elements: decoding right after
/// encoding recovers every element in order and hands back exactly the
/// trailing bytes.
pub proof fn lemma_elems_round_trip<T: Arbitrary>(m: Seq<T::Model>, rest: Seq<u8>)
    requires
        forall|i: int| 0 <= i < m.len() ==> T::round_trippable(#[trigger] m[i]),
    ensures
        dec_elems::<T>(enc_elems::<T>(m) + rest, m.len()).0 == m,
        dec_elems::<T>(enc_elems::<T>(m) + rest, m.len()).1 == rest,
    decreases m.len(),
{
    if m.len() == 0 {
        assert(Seq::<u8>::empty() + rest =~= rest);
        assert(dec_elems::<T>(rest, 0).0 =~= m);
    } else {
        let tail = m.drop_first();
        let tail_bytes = enc_elems::<T>(tail) + rest;
        assert((T::enc(m[0]) + enc_elems::<T>(tail)) + rest =~= T::enc(m[0]) + tail_bytes);
        T::lemma_round_trip(m[0], tail_bytes);
        lemma_elems_round_trip::<T>(tail, rest);
        assert(seq![m[0]] + tail =~= m);
    }
}

/// How many elements of in-memory width `size_of::<T>()` the byte budget
/// `MAX_COLLECTIONS_SIZE` admits: the cap divides by the element width, so
/// the same budget yields fewer elements for wider types.  A zero-sized
/// element costs no memory, so it gets the flat budget.
pub open spec fn elem_cap<T>() -> nat {
    if vstd::layout::size_of::<T>() == 0 {
        MAX_COLLECTIONS_SIZE as nat
    } else {
        (MAX_COLLECTIONS_SIZE as nat) / vstd::layout::size_of::<T>()
    }
}

/// The cap never exceeds the flat budget, which fits every platform's
/// length prefix.
pub proof fn lemma_elem_cap_bound<T>()
    ensures
        elem_cap::<T>() <= MAX_COLLECTIONS_SIZE as nat,
        elem_cap::<T>() < pow256(usize_width()),
{
    let sz = vstd::layout::size_of::<T>();
    if sz != 0 {
        assert((MAX_COLLECTIONS_SIZE as nat) / sz <= MAX_COLLECTIONS_SIZE as nat)
            by (nonlinear_arith)
            requires
                sz >= 1,
        ;
    }
    lemma_pow256_usize();
}

impl<T: Arbitrary> Arbitrary for Vec<T> {
    type Model = Seq<T::Model>;

    open spec fn model(&self) -> Seq<T::Model> {
        self@.map_values(|t: T| t.model())
    }

    open spec fn enc(m: Seq<T::Model>) -> Seq<u8> {
        le_bytes_of(m.len(), usize_width()) + enc_elems::<T>(m)
    }

    open spec fn dec(data: Seq<u8>) -> (Seq<T::Model>, Seq<u8>) {
        let (l, r0) = le_dec(data, usize_width());
        let n = if l < elem_cap::<T>() {
            l
        } else {
            elem_cap::<T>()
        };
        dec_elems::<T>(r0, n)
    }

    open spec fn round_trippable(m: Seq<T::Model>) -> bool {
        &&& m.len() <= elem_cap::<T>()
        &&& forall|i: int| 0 <= i < m.len() ==> T::round_trippable(#[trigger] m[i])
    }

    proof fn lemma_dec_suffix(data: Seq<u8>) {
        let w = usize_width();
        let (l, r0) = le_dec(data, w);
        let n = if l < elem_cap::<T>() {
            l
        } else {
            elem_cap::<T>()
        };
        lemma_le_dec_suffix(data, w);
        lemma_dec_elems_suffix::<T>(r0, n);
        lemma_suffix_trans(data, r0, dec_elems::<T>(r0, n).1);
    }

    proof fn lemma_round_trip(m: Seq<T::Model>, rest: Seq<u8>) {
        let w = usize_width();
        let n = m.len();
        let body = enc_elems::<T>(m) + rest;
        lemma_elem_cap_bound::<T>();
        assert((le_bytes_of(n, w) + enc_elems::<T>(m)) + rest =~= le_bytes_of(n, w) + body);
        lemma_le_round_trip(n, w, body);
        lemma_elems_round_trip::<T>(m, rest);
    }

    fn to_bytes(&self) -> (r: Vec<u8>) {
        let w: usize = (usize::BITS / 8) as usize;
        let mut r = encode_le(self.len() as u128, w);
        proof {
            lemma_pow256_usize();
            assert(self.model().subrange(0, 0) =~= Seq::<T::Model>::empty());
            assert(r@ + Seq::<u8>::empty() =~= r@);
        }
        let mut i: usize = 0;
        while i < self.len()
            invariant
                i <= self@.len(),
                r@ == le_bytes_of(self@.len() as nat, usize_width()) + enc_elems::<T>(
                    self.model().subrange(0, i as int),
                ),
            decreases self@.len() - i,
        {
            let mut eb = (&self[i]).to_bytes();
            proof {
                let done = self.model().subrange(0, i as int);
                lemma_enc_elems_push::<T>(done, self@[i as int].model());
                assert(self.model().subrange(0, i + 1) =~= done.push(self@[i as int].model()));
                assert((le_bytes_of(self@.len() as nat, usize_width()) + enc_elems::<T>(done))
                    + eb@ =~= le_bytes_of(self@.len() as nat, usize_width()) + (enc_elems::<T>(
                    done,
                ) + eb@));
            }
            r.append(&mut eb);
            i = i + 1;
        }
        proof {
            assert(self.model().subrange(0, self@.len() as int) =~= self.model());
        }
        r
    }

    fn build_from_bytes<'a>(data: &'a [u8]) -> (r: (Self, &'a [u8])) {
        let w: usize = (usize::BITS / 8) as usize;
        let (l128, first) = decode_le(data, w);
        proof {
            lemma_pow256_usize();
        }
        let l: usize = l128 as usize;
        let sz: usize = core::mem::size_of::<T>();
        let cap: usize = if sz == 0 {
            MAX_COLLECTIONS_SIZE
        } else {
            MAX_COLLECTIONS_SIZE / sz
        };
        let len: usize = if l < cap {
            l
        } else {
            cap
        };
        let ghost r0 = first@;
        let mut result: Vec<T> = Vec::new();
        let mut cur: &[u8] = first;
        let mut i: usize = 0;
        proof {
            assert(result.model() =~= Seq::<T::Model>::empty());
            assert(result.model() + dec_elems::<T>(cur@, len as nat).0 =~= dec_elems::<T>(
                r0,
                len as nat,
            ).0);
        }
        while i < len
            invariant
                i <= len,
                result.model() + dec_elems::<T>(cur@, (len - i) as nat).0 == dec_elems::<T>(
                    r0,
                    len as nat,
                ).0,
                dec_elems::<T>(cur@, (len - i) as nat).1 == dec_elems::<T>(r0, len as nat).1,
            decreases len - i,
        {
            let (v, rest) = T::build_from_bytes(cur);
            proof {
                let k = (len - i) as nat;
                let (vm, r1) = T::dec(cur@);
                assert(dec_elems::<T>(cur@, k).0 == seq![vm] + dec_elems::<T>(
                    r1,
                    (k - 1) as nat,
                ).0);
                assert(result@.push(v).map_values(|t: T| t.model()) =~= result.model().push(
                    v.model(),
                ));
                assert(result.model().push(v.model()) + dec_elems::<T>(rest@, (k - 1) as nat).0
                    =~= result.model() + (seq![vm] + dec_elems::<T>(r1, (k - 1) as nat).0));
            }
            result.push(v);
            cur = rest;
            i = i + 1;
        }
        proof {
            assert(result.model() + dec_elems::<T>(cur@, 0).0 =~= result.model());
        }
        (result, cur)
    }
}

/// Law: whatever element count an adversarial length prefix claims, a
/// sequence decode materializes at most `elem_cap::<T>()` elements, so the
/// memory a decode allocates is bounded independently of the claimed value.
pub proof fn lemma_vec_dec_len_clamped<T: Arbitrary>(data: Seq<u8>)
    ensures
        <Vec<T> as Arbitrary>::dec(data).0.len() <= elem_cap::<T>(),
        <Vec<T> as Arbitrary>::dec(data).0.len() <= MAX_COLLECTIONS_SIZE,
{
    let (l, r0) = le_dec(data, usize_width());
    let n = if l < elem_cap::<T>() {
        l
    } else {
        elem_cap::<T>()
    };
    lemma_dec_elems_len::<T>(r0, n);
    lemma_elem_cap_bound::<T>();
}

/// Law: a present/absent tag is "absent" only when it is exactly zero —
/// any other tag byte, not just the canonical one encode writes, decodes
/// as present, followed by one payload decode on the tail.
pub proof fn lemma_option_nonzero_tag<T: Arbitrary>(tag: u8, data: Seq<u8>)
    requires
        tag != 0,
    ensures
        <Option<T> as Arbitrary>::dec(seq![tag] + data).0 == Some(T::dec(data).0),
        <Option<T> as Arbitrary>::dec(seq![tag] + data).1 == T::dec(data).1,
{
    lemma_le_dec_byte(tag, data);
}

impl<T: Arbitrary> Arbitrary for Option<T> {
    type Model = Option<T::Model>;

    open spec fn model(&self) -> Option<T::Model> {
        match *self {
            Some(v) => Some(v.model()),
            None => None,
        }
    }

    open spec fn enc(m: Option<T::Model>) -> Seq<u8> {
        match m {
            Some(v) => seq![0xffu8] + T::enc(v),
            None => seq![0x00u8],
        }
    }

    open spec fn dec(data: Seq<u8>) -> (Option<T::Model>, Seq<u8>) {
        let (t, r0) = le_dec(data, 1);
        if t == 0 {
            (None, r0)
        } else {
            let (v, r1) = T::dec(r0);
            (Some(v), r1)
        }
    }

    open spec fn round_trippable(m: Option<T::Model>) -> bool {
        match m {
            Some(v) => T::round_trippable(v),
            None => true,
        }
    }

    proof fn lemma_dec_suffix(data: Seq<u8>) {
        let (t, r0) = le_dec(data, 1);
        lemma_le_dec_suffix(data, 1);
        if t != 0 {
            T::lemma_dec_suffix(r0);
            lemma_suffix_trans(data, r0, T::dec(r0).1);
        }
    }

    proof fn lemma_round_trip(m: Option<T::Model>, rest: Seq<u8>) {
        match m {
            Some(v) => {
                let body = T::enc(v) + rest;
                assert((seq![0xffu8] + T::enc(v)) + rest =~= seq![0xffu8] + body);
                lemma_le_dec_byte(0xff, body);
                T::lemma_round_trip(v, rest);
            },
            None => {
                assert(seq![0x00u8] + rest =~= seq![0x00u8] + rest);
                lemma_le_dec_byte(0x00, rest);
            },
        }
    }

    fn to_bytes(&self) -> (r: Vec<u8>) {
        let mut r: Vec<u8> = Vec::new();
        match self {
            Some(val) => {
                r.push(0xffu8);
                let mut vb = val.to_bytes();
                proof {
                    assert(r@ + vb@ =~= seq![0xffu8] + T::enc(val.model()));
                }
                r.append(&mut vb);
            },
            None => {
                r.push(0x00u8);
                proof {
                    assert(r@ =~= seq![0x00u8]);
                }
            },
        }
        r
    }

    fn build_from_bytes<'a>(data: &'a [u8]) -> (r: (Self, &'a [u8])) {
        let (tag, r0) = decode_le(data, 1);
        if tag == 0 {
            (None, r0)
        } else {
            let (v, r1) = T::build_from_bytes(r0);
            (Some(v), r1)
        }
    }
}

impl<T: Arbitrary, K: Arbitrary> Arbitrary for Result<T, K> {
    type Model = Result<T::Model, K::Model>;

    open spec fn model(&self) -> Result<T::Model, K::Model> {
        match *self {
            Ok(v) => Ok(v.model()),
            Err(e) => Err(e.model()),
        }
    }

    open spec fn enc(m: Result<T::Model, K::Model>) -> Seq<u8> {
        match m {
            Ok(v) => seq![0xffu8] + T::enc(v),
            Err(e) => seq![0x00u8] + K::enc(e),
        }
    }

    open spec fn dec(data: Seq<u8>) -> (Result<T::Model, K::Model>, Seq<u8>) {
        let (t, r0) = le_dec(data, 1);
        if t == 0 {
            let (e, r1) = K::dec(r0);
            (Err(e), r1)
        } else {
            let (v, r1) = T::dec(r0);
            (Ok(v), r1)
        }
    }

    open spec fn round_trippable(m: Result<T::Model, K::Model>) -> bool {
        match m {
            Ok(v) => T::round_trippable(v),
            Err(e) => K::round_trippable(e),
        }
    }

    proof fn lemma_dec_suffix(data: Seq<u8>) {
        let (t, r0) = le_dec(data, 1);
        lemma_le_dec_suffix(data, 1);
        if t == 0 {
            K::lemma_dec_suffix(r0);
            lemma_suffix_trans(data, r0, K::dec(r0).1);
        } else {
            T::lemma_dec_suffix(r0);
            lemma_suffix_trans(data, r0, T::dec(r0).1);
        }
    }

    proof fn lemma_round_trip(m: Result<T::Model, K::Model>, rest: Seq<u8>) {
        match m {
            Ok(v) => {
                let body = T::enc(v) + rest;
                assert((seq![0xffu8] + T::enc(v)) + rest =~= seq![0xffu8] + body);
                lemma_le_dec_byte(0xff, body);
                T::lemma_round_trip(v, rest);
            },
            Err(e) => {
                let body = K::enc(e) + rest;
                assert((seq![0x00u8] + K::enc(e)) + rest =~= seq![0x00u8] + body);
                lemma_le_dec_byte(0x00, body);
                K::lemma_round_trip(e, rest);
            },
        }
    }

    fn to_bytes(&self) -> (r: Vec<u8>) {
        let mut r: Vec<u8> = Vec::new();
        match self {
            Ok(val) => {
                r.push(0xffu8);
                let mut vb = val.to_bytes();
                proof {
                    assert(r@ + vb@ =~= seq![0xffu8] + T::enc(val.model()));
                }
                r.append(&mut vb);
            },
            Err(err) => {
                r.push(0x00u8);
                let mut eb = err.to_bytes();
                proof {
                    assert(r@ + eb@ =~= seq![0x00u8] + K::enc(err.model()));
                }
                r.append(&mut eb);
            },
        }
        r
    }

    fn build_from_bytes<'a>(data: &'a [u8]) -> (r: (Self, &'a [u8])) {
        let (tag, r0) = decode_le(data, 1);
        if tag == 0 {
            let (e, r1) = K::build_from_bytes(r0);
            (Err(e), r1)
        } else {
            let (v, r1) = T::build_from_bytes(r0);
            (Ok(v), r1)
        }
    }
}

} // verus!
