//! A deterministic, self-describing binary codec for native value types.
//!
//! Values are serialized to little-endian bytes and rebuilt from a possibly
//! truncated or adversarial byte slice.  Every decode consumes a prefix of
//! its input and returns the unconsumed suffix, so composite decoders chain
//! component decodes without knowing any component's encoded width, and no
//! decode ever panics or allocates unboundedly on malformed input.

use vstd::prelude::*;

pub mod collections;
pub mod le;
pub mod primitives;
pub mod products;
pub mod strings;
pub mod tuples;

verus! {

/// Upper bound on the element count materialized from an untrusted length
/// prefix: an adversarial prefix must never pre-size memory proportionally.
pub const MAX_COLLECTIONS_SIZE: usize = 1024 * 1024;

/// `suf` is a tail of `data`: what a decode may hand back as the
/// unconsumed remainder of its input.
pub open spec fn is_suffix_of(suf: Seq<u8>, data: Seq<u8>) -> bool {
    &&& suf.len() <= data.len()
    &&& suf == data.skip(data.len() - suf.len())
}

/// A tail of a tail is a tail of the whole.
pub proof fn lemma_suffix_trans(a: Seq<u8>, b: Seq<u8>, c: Seq<u8>)
    requires
        is_suffix_of(b, a),
        is_suffix_of(c, b),
    ensures
        is_suffix_of(c, a),
{
    assert(a.skip(a.len() - c.len()) =~= c);
}

/// A type that takes part in the codec: it can write itself as bytes and
/// rebuild itself from any byte slice, consuming a prefix and handing back
/// the unconsumed suffix.
///
/// The executable methods are pinned to the spec-level codec `Self::enc` /
/// `Self::dec` over the type's mathematical model, and every implementation
/// proves two laws: decoding consumes a prefix of its input, and decoding
/// right after encoding a round-trippable value recovers that value exactly.
pub trait Arbitrary: Sized {
    /// The mathematical model a value of this type abstracts to.
    type Model;

    /// The model of this value.
    spec fn model(&self) -> Self::Model;

    /// The canonical byte encoding of a model.
    spec fn enc(m: Self::Model) -> Seq<u8>;

    /// What decoding any byte string yields: a model and the unconsumed
    /// suffix.  Total: malformed or truncated input degrades to a zero
    /// valued or clamped result, never an error.
    spec fn dec(data: Seq<u8>) -> (Self::Model, Seq<u8>);

    /// The models whose encoding decodes back to themselves: everything
    /// except values past a codec limit (an over-long collection, a
    /// character above the one-byte range).
    spec fn round_trippable(m: Self::Model) -> bool;

    /// Law: decoding consumes a prefix — the suffix handed back is a tail
    /// of the input, so it is never longer than the input.
    proof fn lemma_dec_suffix(data: Seq<u8>)
        ensures
            is_suffix_of(Self::dec(data).1, data),
    ;

    /// Law: decoding an encoding followed by arbitrary trailing bytes
    /// recovers the encoded value and hands back exactly those trailing
    /// bytes.  This is what lets composite decoders chain component
    /// decodes without knowing any component's encoded width.
    proof fn lemma_round_trip(m: Self::Model, rest: Seq<u8>)
        requires
            Self::round_trippable(m),
        ensures
            Self::dec(Self::enc(m) + rest).0 == m,
            Self::dec(Self::enc(m) + rest).1 == rest,
    ;

    /// Convert the object to bytes.
    fn to_bytes(&self) -> (r: Vec<u8>)
        ensures
            r@ == Self::enc(self.model()),
    ;

    /// Rebuild an object from a prefix of `data`, returning it together
    /// with the unconsumed suffix.
    fn build_from_bytes<'a>(data: &'a [u8]) -> (r: (Self, &'a [u8]))
        ensures
            r.0.model() == Self::dec(data@).0,
            r.1@ == Self::dec(data@).1,
    ;

    /// Build an object from bytes, discarding the unconsumed suffix.
    fn from_bytes(data: Vec<u8>) -> (r: Self)
        ensures
            r.model() == Self::dec(data@).0,
    {
        let (v, _) = Self::build_from_bytes(data.as_slice());
        v
    }
}

/// Law: for every round-trippable value, decoding its bare encoding gives
/// the value back.
pub proof fn lemma_encode_decode_identity<T: Arbitrary>(m: T::Model)
    requires
        T::round_trippable(m),
    ensures
        T::dec(T::enc(m)).0 == m,
        T::dec(T::enc(m)).1 == Seq::<u8>::empty(),
{
    assert(T::enc(m) + Seq::<u8>::empty() =~= T::enc(m));
    T::lemma_round_trip(m, Seq::<u8>::empty());
}

} // verus!

