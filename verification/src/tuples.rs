//! Tuple codecs, arities 0 through 5: the encoding is the concatenation of
//! each positional element's encoding, and decoding threads the unconsumed
//! suffix through each positional decode in order.  Arity 0 is zero bytes.

use vstd::prelude::*;

use crate::{lemma_suffix_trans, Arbitrary};

verus! {

impl Arbitrary for () {
    type Model = ();

    open spec fn model(&self) -> () {
        ()
    }

    open spec fn enc(m: ()) -> Seq<u8> {
        Seq::empty()
    }

    open spec fn dec(data: Seq<u8>) -> ((), Seq<u8>) {
        ((), data)
    }

    open spec fn round_trippable(m: ()) -> bool {
        true
    }

    proof fn lemma_dec_suffix(data: Seq<u8>) {
        assert(data.skip(0) =~= data);
    }

    proof fn lemma_round_trip(m: (), rest: Seq<u8>) {
        assert(Seq::<u8>::empty() + rest =~= rest);
    }

    fn to_bytes(&self) -> (r: Vec<u8>) {
        Vec::new()
    }

    fn build_from_bytes<'a>(data: &'a [u8]) -> (r: (Self, &'a [u8])) {
        ((), data)
    }
}

impl<T0: Arbitrary> Arbitrary for (T0,) {
    type Model = (T0::Model,);

    open spec fn model(&self) -> (T0::Model,) {
        (self.0.model(),)
    }

    open spec fn enc(m: (T0::Model,)) -> Seq<u8> {
        T0::enc(m.0)
    }

    open spec fn dec(data: Seq<u8>) -> ((T0::Model,), Seq<u8>) {
        let (v0, r0) = T0::dec(data);
        ((v0,), r0)
    }

    open spec fn round_trippable(m: (T0::Model,)) -> bool {
        T0::round_trippable(m.0)
    }

    proof fn lemma_dec_suffix(data: Seq<u8>) {
        T0::lemma_dec_suffix(data);
    }

    proof fn lemma_round_trip(m: (T0::Model,), rest: Seq<u8>) {
        T0::lemma_round_trip(m.0, rest);
    }

    fn to_bytes(&self) -> (r: Vec<u8>) {
        self.0.to_bytes()
    }

    fn build_from_bytes<'a>(data: &'a [u8]) -> (r: (Self, &'a [u8])) {
        let (v0, r0) = T0::build_from_bytes(data);
        ((v0,), r0)
    }
}

impl<T0: Arbitrary, T1: Arbitrary> Arbitrary for (T0, T1) {
    type Model = (T0::Model, T1::Model);

    open spec fn model(&self) -> (T0::Model, T1::Model) {
        (self.0.model(), self.1.model())
    }

    open spec fn enc(m: (T0::Model, T1::Model)) -> Seq<u8> {
        T0::enc(m.0) + T1::enc(m.1)
    }

    open spec fn dec(data: Seq<u8>) -> ((T0::Model, T1::Model), Seq<u8>) {
        let (v0, r0) = T0::dec(data);
        let (v1, r1) = T1::dec(r0);
        ((v0, v1), r1)
    }

    open spec fn round_trippable(m: (T0::Model, T1::Model)) -> bool {
        T0::round_trippable(m.0) && T1::round_trippable(m.1)
    }

    proof fn lemma_dec_suffix(data: Seq<u8>) {
        let r0 = T0::dec(data).1;
        T0::lemma_dec_suffix(data);
        T1::lemma_dec_suffix(r0);
        lemma_suffix_trans(data, r0, T1::dec(r0).1);
    }

    proof fn lemma_round_trip(m: (T0::Model, T1::Model), rest: Seq<u8>) {
        assert((T0::enc(m.0) + T1::enc(m.1)) + rest =~= T0::enc(m.0) + (T1::enc(m.1) + rest));
        T0::lemma_round_trip(m.0, T1::enc(m.1) + rest);
        T1::lemma_round_trip(m.1, rest);
    }

    fn to_bytes(&self) -> (r: Vec<u8>) {
        let mut r = self.0.to_bytes();
        let mut b1 = self.1.to_bytes();
        r.append(&mut b1);
        r
    }

    fn build_from_bytes<'a>(data: &'a [u8]) -> (r: (Self, &'a [u8])) {
        let (v0, r0) = T0::build_from_bytes(data);
        let (v1, r1) = T1::build_from_bytes(r0);
        ((v0, v1), r1)
    }
}

impl<T0: Arbitrary, T1: Arbitrary, T2: Arbitrary> Arbitrary for (T0, T1, T2) {
    type Model = (T0::Model, T1::Model, T2::Model);

    open spec fn model(&self) -> (T0::Model, T1::Model, T2::Model) {
        (self.0.model(), self.1.model(), self.2.model())
    }

    open spec fn enc(m: (T0::Model, T1::Model, T2::Model)) -> Seq<u8> {
        T0::enc(m.0) + T1::enc(m.1) + T2::enc(m.2)
    }

    open spec fn dec(data: Seq<u8>) -> ((T0::Model, T1::Model, T2::Model), Seq<u8>) {
        let (v0, r0) = T0::dec(data);
        let (v1, r1) = T1::dec(r0);
        let (v2, r2) = T2::dec(r1);
        ((v0, v1, v2), r2)
    }

    open spec fn round_trippable(m: (T0::Model, T1::Model, T2::Model)) -> bool {
        T0::round_trippable(m.0) && T1::round_trippable(m.1) && T2::round_trippable(m.2)
    }

    proof fn lemma_dec_suffix(data: Seq<u8>) {
        let r0 = T0::dec(data).1;
        let r1 = T1::dec(r0).1;
        T0::lemma_dec_suffix(data);
        T1::lemma_dec_suffix(r0);
        lemma_suffix_trans(data, r0, r1);
        T2::lemma_dec_suffix(r1);
        lemma_suffix_trans(data, r1, T2::dec(r1).1);
    }

    proof fn lemma_round_trip(m: (T0::Model, T1::Model, T2::Model), rest: Seq<u8>) {
        let e0 = T0::enc(m.0);
        let e1 = T1::enc(m.1);
        let e2 = T2::enc(m.2);
        assert((e0 + e1 + e2) + rest =~= e0 + (e1 + (e2 + rest)));
        T0::lemma_round_trip(m.0, e1 + (e2 + rest));
        T1::lemma_round_trip(m.1, e2 + rest);
        T2::lemma_round_trip(m.2, rest);
    }

    fn to_bytes(&self) -> (r: Vec<u8>) {
        let mut r = self.0.to_bytes();
        let mut b1 = self.1.to_bytes();
        r.append(&mut b1);
        let mut b2 = self.2.to_bytes();
        r.append(&mut b2);
        r
    }

    fn build_from_bytes<'a>(data: &'a [u8]) -> (r: (Self, &'a [u8])) {
        let (v0, r0) = T0::build_from_bytes(data);
        let (v1, r1) = T1::build_from_bytes(r0);
        let (v2, r2) = T2::build_from_bytes(r1);
        ((v0, v1, v2), r2)
    }
}

impl<T0: Arbitrary, T1: Arbitrary, T2: Arbitrary, T3: Arbitrary> Arbitrary for (T0, T1, T2, T3) {
    type Model = (T0::Model, T1::Model, T2::Model, T3::Model);

    open spec fn model(&self) -> (T0::Model, T1::Model, T2::Model, T3::Model) {
        (self.0.model(), self.1.model(), self.2.model(), self.3.model())
    }

    open spec fn enc(m: (T0::Model, T1::Model, T2::Model, T3::Model)) -> Seq<u8> {
        T0::enc(m.0) + T1::enc(m.1) + T2::enc(m.2) + T3::enc(m.3)
    }

    open spec fn dec(data: Seq<u8>) -> ((T0::Model, T1::Model, T2::Model, T3::Model), Seq<u8>) {
        let (v0, r0) = T0::dec(data);
        let (v1, r1) = T1::dec(r0);
        let (v2, r2) = T2::dec(r1);
        let (v3, r3) = T3::dec(r2);
        ((v0, v1, v2, v3), r3)
    }

    open spec fn round_trippable(m: (T0::Model, T1::Model, T2::Model, T3::Model)) -> bool {
        &&& T0::round_trippable(m.0)
        &&& T1::round_trippable(m.1)
        &&& T2::round_trippable(m.2)
        &&& T3::round_trippable(m.3)
    }

    proof fn lemma_dec_suffix(data: Seq<u8>) {
        let r0 = T0::dec(data).1;
        let r1 = T1::dec(r0).1;
        let r2 = T2::dec(r1).1;
        T0::lemma_dec_suffix(data);
        T1::lemma_dec_suffix(r0);
        lemma_suffix_trans(data, r0, r1);
        T2::lemma_dec_suffix(r1);
        lemma_suffix_trans(data, r1, r2);
        T3::lemma_dec_suffix(r2);
        lemma_suffix_trans(data, r2, T3::dec(r2).1);
    }

    proof fn lemma_round_trip(m: (T0::Model, T1::Model, T2::Model, T3::Model), rest: Seq<u8>) {
        let e0 = T0::enc(m.0);
        let e1 = T1::enc(m.1);
        let e2 = T2::enc(m.2);
        let e3 = T3::enc(m.3);
        assert((e0 + e1 + e2 + e3) + rest =~= e0 + (e1 + (e2 + (e3 + rest))));
        T0::lemma_round_trip(m.0, e1 + (e2 + (e3 + rest)));
        T1::lemma_round_trip(m.1, e2 + (e3 + rest));
        T2::lemma_round_trip(m.2, e3 + rest);
        T3::lemma_round_trip(m.3, rest);
    }

    fn to_bytes(&self) -> (r: Vec<u8>) {
        let mut r = self.0.to_bytes();
        let mut b1 = self.1.to_bytes();
        r.append(&mut b1);
        let mut b2 = self.2.to_bytes();
        r.append(&mut b2);
        let mut b3 = self.3.to_bytes();
        r.append(&mut b3);
        r
    }

    fn build_from_bytes<'a>(data: &'a [u8]) -> (r: (Self, &'a [u8])) {
        let (v0, r0) = T0::build_from_bytes(data);
        let (v1, r1) = T1::build_from_bytes(r0);
        let (v2, r2) = T2::build_from_bytes(r1);
        let (v3, r3) = T3::build_from_bytes(r2);
        ((v0, v1, v2, v3), r3)
    }
}

impl<T0: Arbitrary, T1: Arbitrary, T2: Arbitrary, T3: Arbitrary, T4: Arbitrary> Arbitrary for (
    T0,
    T1,
    T2,
    T3,
    T4,
) {
    type Model = (T0::Model, T1::Model, T2::Model, T3::Model, T4::Model);

    open spec fn model(&self) -> (T0::Model, T1::Model, T2::Model, T3::Model, T4::Model) {
        (self.0.model(), self.1.model(), self.2.model(), self.3.model(), self.4.model())
    }

    open spec fn enc(m: (T0::Model, T1::Model, T2::Model, T3::Model, T4::Model)) -> Seq<u8> {
        T0::enc(m.0) + T1::enc(m.1) + T2::enc(m.2) + T3::enc(m.3) + T4::enc(m.4)
    }

    open spec fn dec(data: Seq<u8>) -> (
        (T0::Model, T1::Model, T2::Model, T3::Model, T4::Model),
        Seq<u8>,
    ) {
        let (v0, r0) = T0::dec(data);
        let (v1, r1) = T1::dec(r0);
        let (v2, r2) = T2::dec(r1);
        let (v3, r3) = T3::dec(r2);
        let (v4, r4) = T4::dec(r3);
        ((v0, v1, v2, v3, v4), r4)
    }

    open spec fn round_trippable(
        m: (T0::Model, T1::Model, T2::Model, T3::Model, T4::Model),
    ) -> bool {
        &&& T0::round_trippable(m.0)
        &&& T1::round_trippable(m.1)
        &&& T2::round_trippable(m.2)
        &&& T3::round_trippable(m.3)
        &&& T4::round_trippable(m.4)
    }

    proof fn lemma_dec_suffix(data: Seq<u8>) {
        let r0 = T0::dec(data).1;
        let r1 = T1::dec(r0).1;
        let r2 = T2::dec(r1).1;
        let r3 = T3::dec(r2).1;
        T0::lemma_dec_suffix(data);
        T1::lemma_dec_suffix(r0);
        lemma_suffix_trans(data, r0, r1);
        T2::lemma_dec_suffix(r1);
        lemma_suffix_trans(data, r1, r2);
        T3::lemma_dec_suffix(r2);
        lemma_suffix_trans(data, r2, r3);
        T4::lemma_dec_suffix(r3);
        lemma_suffix_trans(data, r3, T4::dec(r3).1);
    }

    proof fn lemma_round_trip(
        m: (T0::Model, T1::Model, T2::Model, T3::Model, T4::Model),
        rest: Seq<u8>,
    ) {
        let e0 = T0::enc(m.0);
        let e1 = T1::enc(m.1);
        let e2 = T2::enc(m.2);
        let e3 = T3::enc(m.3);
        let e4 = T4::enc(m.4);
        assert((e0 + e1 + e2 + e3 + e4) + rest =~= e0 + (e1 + (e2 + (e3 + (e4 + rest)))));
        T0::lemma_round_trip(m.0, e1 + (e2 + (e3 + (e4 + rest))));
        T1::lemma_round_trip(m.1, e2 + (e3 + (e4 + rest)));
        T2::lemma_round_trip(m.2, e3 + (e4 + rest));
        T3::lemma_round_trip(m.3, e4 + rest);
        T4::lemma_round_trip(m.4, rest);
    }

    fn to_bytes(&self) -> (r: Vec<u8>) {
        let mut r = self.0.to_bytes();
        let mut b1 = self.1.to_bytes();
        r.append(&mut b1);
        let mut b2 = self.2.to_bytes();
        r.append(&mut b2);
        let mut b3 = self.3.to_bytes();
        r.append(&mut b3);
        let mut b4 = self.4.to_bytes();
        r.append(&mut b4);
        r
    }

    fn build_from_bytes<'a>(data: &'a [u8]) -> (r: (Self, &'a [u8])) {
        let (v0, r0) = T0::build_from_bytes(data);
        let (v1, r1) = T1::build_from_bytes(r0);
        let (v2, r2) = T2::build_from_bytes(r1);
        let (v3, r3) = T3::build_from_bytes(r2);
        let (v4, r4) = T4::build_from_bytes(r3);
        ((v0, v1, v2, v3, v4), r4)
    }
}

} // verus!
