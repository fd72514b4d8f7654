//! Field elements of the proof system's scalar field, modelled as four
//! little-endian 64-bit words, together with the sponge hash that the
//! transaction layer feeds with sequences of scalars.
use vstd::prelude::*;
use vstd::bytes::{spec_u64_to_le_bytes, spec_u64_from_le_bytes, u64_to_le_bytes};
use vstd::wrapping::u64_specs;

verus! {

/// Serialized width of one scalar on the wire, in bytes.
pub const SCALAR_SERIALIZED_SIZE: usize = 32;

/// A scalar value: note hashes, nullifiers, Merkle roots and sponge digests
/// are all carried as scalars. The four words are the little-endian limbs of
/// the 256-bit value.
#[derive(Clone, Copy, Debug, PartialEq, Eq, Structural, Hash)]
pub struct Scalar {
    pub w0: u64,
    pub w1: u64,
    pub w2: u64,
    pub w3: u64,
}

impl Scalar {
    /// The zero scalar.
    pub open spec fn spec_zero() -> Scalar {
        Scalar { w0: 0, w1: 0, w2: 0, w3: 0 }
    }

    /// Return the zero scalar.
    pub fn zero() -> (r: Scalar)
        ensures
            r == Scalar::spec_zero(),
    {
        Scalar { w0: 0, w1: 0, w2: 0, w3: 0 }
    }

    /// A scalar holding a machine word in its lowest limb.
    pub open spec fn spec_from_u64(v: u64) -> Scalar {
        Scalar { w0: v, w1: 0, w2: 0, w3: 0 }
    }

    /// Widen a machine word into a scalar.
    pub fn from_u64(v: u64) -> (r: Scalar)
        ensures
            r == Scalar::spec_from_u64(v),
    {
        Scalar { w0: v, w1: 0, w2: 0, w3: 0 }
    }

    /// The 32-byte little-endian encoding of this scalar.
    pub open spec fn spec_bytes(self) -> Seq<u8> {
        spec_u64_to_le_bytes(self.w0) + spec_u64_to_le_bytes(self.w1)
            + spec_u64_to_le_bytes(self.w2) + spec_u64_to_le_bytes(self.w3)
    }

    /// The scalar read back from a 32-byte little-endian encoding.
    pub open spec fn spec_from_bytes(s: Seq<u8>) -> Scalar
        recommends
            s.len() == 32,
    {
        Scalar {
            w0: spec_u64_from_le_bytes(s.subrange(0, 8)),
            w1: spec_u64_from_le_bytes(s.subrange(8, 16)),
            w2: spec_u64_from_le_bytes(s.subrange(16, 24)),
            w3: spec_u64_from_le_bytes(s.subrange(24, 32)),
        }
    }

    /// Serialize this scalar as 32 little-endian bytes.
    pub fn to_bytes(&self) -> (r: Vec<u8>)
        ensures
            r@ == self.spec_bytes(),
            r@.len() == SCALAR_SERIALIZED_SIZE,
    {
        let mut out = u64_to_le_bytes(self.w0);
        let mut b1 = u64_to_le_bytes(self.w1);
        let mut b2 = u64_to_le_bytes(self.w2);
        let mut b3 = u64_to_le_bytes(self.w3);
        out.append(&mut b1);
        out.append(&mut b2);
        out.append(&mut b3);
        out
    }

    /// Every 32-byte encoding decodes back to the scalar it came from.
    pub proof fn lemma_bytes_roundtrip(self)
        ensures
            self.spec_bytes().len() == 32,
            Scalar::spec_from_bytes(self.spec_bytes()) == self,
    {
        vstd::bytes::lemma_auto_spec_u64_to_from_le_bytes();
        let b = self.spec_bytes();
        assert(b.subrange(0, 8) =~= spec_u64_to_le_bytes(self.w0));
        assert(b.subrange(8, 16) =~= spec_u64_to_le_bytes(self.w1));
        assert(b.subrange(16, 24) =~= spec_u64_to_le_bytes(self.w2));
        assert(b.subrange(24, 32) =~= spec_u64_to_le_bytes(self.w3));
    }

    /// Total order over scalars by numeric value: the most significant limb
    /// decides first.
    pub open spec fn spec_le(a: Scalar, b: Scalar) -> bool {
        if a.w3 != b.w3 {
            a.w3 < b.w3
        } else if a.w2 != b.w2 {
            a.w2 < b.w2
        } else if a.w1 != b.w1 {
            a.w1 < b.w1
        } else {
            a.w0 <= b.w0
        }
    }

    /// Compare two scalars under the numeric total order.
    pub fn le(&self, other: &Scalar) -> (r: bool)
        ensures
            r == Scalar::spec_le(*self, *other),
    {
        if self.w3 != other.w3 {
            self.w3 < other.w3
        } else if self.w2 != other.w2 {
            self.w2 < other.w2
        } else if self.w1 != other.w1 {
            self.w1 < other.w1
        } else {
            self.w0 <= other.w0
        }
    }

    /// The scalar order relates every pair of scalars.
    pub proof fn lemma_le_total(a: Scalar, b: Scalar)
        ensures
            Scalar::spec_le(a, b) || Scalar::spec_le(b, a),
    {
    }

    /// Two scalars below each other are the same scalar.
    pub proof fn lemma_le_antisymmetric(a: Scalar, b: Scalar)
        requires
            Scalar::spec_le(a, b),
            Scalar::spec_le(b, a),
        ensures
            a == b,
    {
    }
}

/// First word of the sponge's initial state.
pub const SPONGE_IV_W0: u64 = 0x243f6a8885a308d3;

/// Second word of the sponge's initial state.
pub const SPONGE_IV_W1: u64 = 0x13198a2e03707344;

/// Third word of the sponge's initial state.
pub const SPONGE_IV_W2: u64 = 0xa4093822299f31d0;

/// Fourth word of the sponge's initial state.
pub const SPONGE_IV_W3: u64 = 0x082efa98ec4e6c89;

/// Odd additive constant of the sponge's mixing step.
pub const SPONGE_ADD: u64 = 0x9e3779b97f4a7c15;

/// Odd multiplicative constant of the sponge's mixing step.
pub const SPONGE_MUL: u64 = 0x6c62272e07bb0145;

/// One mixing step of the sponge: combine a state word with an input word.
pub closed spec fn spec_mix(a: u64, b: u64) -> u64 {
    u64_specs::wrapping_mul(u64_specs::wrapping_add(a ^ b, SPONGE_ADD), SPONGE_MUL)
}

/// Absorb one scalar into the sponge state, chaining the limbs so that every
/// input limb influences the limbs after it.
pub closed spec fn spec_absorb(state: Scalar, input: Scalar) -> Scalar {
    let t0 = spec_mix(state.w0, input.w0);
    let t1 = spec_mix(state.w1, spec_mix(t0, input.w1));
    let t2 = spec_mix(state.w2, spec_mix(t1, input.w2));
    let t3 = spec_mix(state.w3, spec_mix(t2, input.w3));
    Scalar { w0: t0, w1: t1, w2: t2, w3: t3 }
}

/// The sponge state after absorbing a sequence of scalars, starting from the
/// fixed initial state.
pub closed spec fn spec_sponge_state(items: Seq<Scalar>) -> Scalar
    decreases items.len(),
{
    if items.len() == 0 {
        Scalar { w0: SPONGE_IV_W0, w1: SPONGE_IV_W1, w2: SPONGE_IV_W2, w3: SPONGE_IV_W3 }
    } else {
        spec_absorb(spec_sponge_state(items.drop_last()), items.last())
    }
}

/// The sponge hash of a sequence of scalars: absorb every item, then absorb
/// the length so that sequences that are prefixes of one another separate.
pub closed spec fn spec_sponge(items: Seq<Scalar>) -> Scalar {
    spec_absorb(spec_sponge_state(items), Scalar::spec_from_u64(items.len() as u64))
}

/// One exec mixing step; mirrors [`spec_mix`].
fn mix(a: u64, b: u64) -> (r: u64)
    ensures
        r == spec_mix(a, b),
{
    (a ^ b).wrapping_add(SPONGE_ADD).wrapping_mul(SPONGE_MUL)
}

/// Absorb one scalar into the sponge state; mirrors [`spec_absorb`].
fn absorb(state: Scalar, input: Scalar) -> (r: Scalar)
    ensures
        r == spec_absorb(state, input),
{
    let t0 = mix(state.w0, input.w0);
    let t1 = mix(state.w1, mix(t0, input.w1));
    let t2 = mix(state.w2, mix(t1, input.w2));
    let t3 = mix(state.w3, mix(t2, input.w3));
    Scalar { w0: t0, w1: t1, w2: t2, w3: t3 }
}

/// The one-way hash over a variable-length sequence of scalars that the
/// transaction hash and the note model rely on.
///
/// The protocol's real sponge is an external cryptographic permutation; this
/// core carries a deterministic stand-in with the same interface, so that the
/// properties the ledger needs of it (a single scalar, a function of the
/// absorbed sequence alone) hold by construction.
pub fn sponge_hash(items: &Vec<Scalar>) -> (r: Scalar)
    requires
        items@.len() <= u64::MAX,
    ensures
        r == spec_sponge(items@),
{
    let mut state = Scalar {
        w0: SPONGE_IV_W0,
        w1: SPONGE_IV_W1,
        w2: SPONGE_IV_W2,
        w3: SPONGE_IV_W3,
    };
    let mut i: usize = 0;
    while i < items.len()
        invariant
            0 <= i <= items@.len(),
            items@.len() <= u64::MAX,
            state == spec_sponge_state(items@.take(i as int)),
        decreases items@.len() - i,
    {
        state = absorb(state, items[i]);
        proof {
            assert(items@.take(i + 1 as int).drop_last() =~= items@.take(i as int));
            assert(items@.take(i + 1 as int).last() == items@[i as int]);
        }
        i = i + 1;
    }
    proof {
        assert(items@.take(items@.len() as int) =~= items@);
    }
    absorb(state, Scalar::from_u64(items.len() as u64))
}

} // verus!
