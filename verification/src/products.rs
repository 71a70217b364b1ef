//! Product-type extension: a user-defined product type joins the protocol
//! by encoding its fields in declaration order and decoding them in that
//! same order, threading the unconsumed suffix through each field decode.
//!
//! Generated code for a product type follows exactly the shape written out
//! here by hand for two example types: a leaf product type (`Nested`) and a
//! product type whose fields are themselves composite (`Record`).

use vstd::prelude::*;

use crate::{lemma_suffix_trans, Arbitrary};

verus! {

/// A product type of an optional scalar and a text field.
#[derive(Debug, PartialEq, Eq)]
pub struct Nested {
    pub nested: Option<u64>,
    pub name: String,
}

/// The mathematical model of a `Nested` value, field for field.
pub struct NestedModel {
    pub nested: Option<u64>,
    pub name: Seq<char>,
}

impl Arbitrary for Nested {
    type Model = NestedModel;

    open spec fn model(&self) -> NestedModel {
        NestedModel { nested: self.nested.model(), name: self.name.model() }
    }

    open spec fn enc(m: NestedModel) -> Seq<u8> {
        <Option<u64> as Arbitrary>::enc(m.nested) + <String as Arbitrary>::enc(m.name)
    }

    open spec fn dec(data: Seq<u8>) -> (NestedModel, Seq<u8>) {
        let (nested, r0) = <Option<u64> as Arbitrary>::dec(data);
        let (name, r1) = <String as Arbitrary>::dec(r0);
        (NestedModel { nested, name }, r1)
    }

    open spec fn round_trippable(m: NestedModel) -> bool {
        &&& <Option<u64> as Arbitrary>::round_trippable(m.nested)
        &&& <String as Arbitrary>::round_trippable(m.name)
    }

    proof fn lemma_dec_suffix(data: Seq<u8>) {
        let r0 = <Option<u64> as Arbitrary>::dec(data).1;
        <Option<u64> as Arbitrary>::lemma_dec_suffix(data);
        <String as Arbitrary>::lemma_dec_suffix(r0);
        lemma_suffix_trans(data, r0, <String as Arbitrary>::dec(r0).1);
    }

    proof fn lemma_round_trip(m: NestedModel, rest: Seq<u8>) {
        let e0 = <Option<u64> as Arbitrary>::enc(m.nested);
        let e1 = <String as Arbitrary>::enc(m.name);
        assert((e0 + e1) + rest =~= e0 + (e1 + rest));
        <Option<u64> as Arbitrary>::lemma_round_trip(m.nested, e1 + rest);
        <String as Arbitrary>::lemma_round_trip(m.name, rest);
    }

    fn to_bytes(&self) -> (r: Vec<u8>) {
        let mut r = self.nested.to_bytes();
        let mut b1 = self.name.to_bytes();
        r.append(&mut b1);
        r
    }

    fn build_from_bytes<'a>(data: &'a [u8]) -> (r: (Self, &'a [u8])) {
        let (nested, r0) = <Option<u64> as Arbitrary>::build_from_bytes(data);
        let (name, r1) = <String as Arbitrary>::build_from_bytes(r0);
        (Nested { nested, name }, r1)
    }
}

/// A product type whose fields are themselves composite: a nested product
/// type, a success-or-failure field, and a sequence of wide integers.
#[derive(Debug, PartialEq, Eq)]
pub struct Record {
    pub nested: Nested,
    pub result: Result<u64, bool>,
    pub array: Vec<i128>,
}

/// The mathematical model of a `Record` value, field for field.
pub struct RecordModel {
    pub nested: NestedModel,
    pub result: Result<u64, bool>,
    pub array: Seq<i128>,
}

impl Arbitrary for Record {
    type Model = RecordModel;

    open spec fn model(&self) -> RecordModel {
        RecordModel {
            nested: self.nested.model(),
            result: self.result.model(),
            array: self.array.model(),
        }
    }

    open spec fn enc(m: RecordModel) -> Seq<u8> {
        <Nested as Arbitrary>::enc(m.nested) + <Result<u64, bool> as Arbitrary>::enc(m.result)
            + <Vec<i128> as Arbitrary>::enc(m.array)
    }

    open spec fn dec(data: Seq<u8>) -> (RecordModel, Seq<u8>) {
        let (nested, r0) = <Nested as Arbitrary>::dec(data);
        let (result, r1) = <Result<u64, bool> as Arbitrary>::dec(r0);
        let (array, r2) = <Vec<i128> as Arbitrary>::dec(r1);
        (RecordModel { nested, result, array }, r2)
    }

    open spec fn round_trippable(m: RecordModel) -> bool {
        &&& <Nested as Arbitrary>::round_trippable(m.nested)
        &&& <Result<u64, bool> as Arbitrary>::round_trippable(m.result)
        &&& <Vec<i128> as Arbitrary>::round_trippable(m.array)
    }

    proof fn lemma_dec_suffix(data: Seq<u8>) {
        let r0 = <Nested as Arbitrary>::dec(data).1;
        let r1 = <Result<u64, bool> as Arbitrary>::dec(r0).1;
        <Nested as Arbitrary>::lemma_dec_suffix(data);
        <Result<u64, bool> as Arbitrary>::lemma_dec_suffix(r0);
        lemma_suffix_trans(data, r0, r1);
        <Vec<i128> as Arbitrary>::lemma_dec_suffix(r1);
        lemma_suffix_trans(data, r1, <Vec<i128> as Arbitrary>::dec(r1).1);
    }

    proof fn lemma_round_trip(m: RecordModel, rest: Seq<u8>) {
        let e0 = <Nested as Arbitrary>::enc(m.nested);
        let e1 = <Result<u64, bool> as Arbitrary>::enc(m.result);
        let e2 = <Vec<i128> as Arbitrary>::enc(m.array);
        assert((e0 + e1 + e2) + rest =~= e0 + (e1 + (e2 + rest)));
        <Nested as Arbitrary>::lemma_round_trip(m.nested, e1 + (e2 + rest));
        <Result<u64, bool> as Arbitrary>::lemma_round_trip(m.result, e2 + rest);
        <Vec<i128> as Arbitrary>::lemma_round_trip(m.array, rest);
    }

    fn to_bytes(&self) -> (r: Vec<u8>) {
        let mut r = self.nested.to_bytes();
        let mut b1 = self.result.to_bytes();
        r.append(&mut b1);
        let mut b2 = self.array.to_bytes();
        r.append(&mut b2);
        r
    }

    fn build_from_bytes<'a>(data: &'a [u8]) -> (r: (Self, &'a [u8])) {
        let (nested, r0) = <Nested as Arbitrary>::build_from_bytes(data);
        let (result, r1) = <Result<u64, bool> as Arbitrary>::build_from_bytes(r0);
        let (array, r2) = <Vec<i128> as Arbitrary>::build_from_bytes(r1);
        (Record { nested, result, array }, r2)
    }
}

} // verus!
