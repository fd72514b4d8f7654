//! The proof pipeline as this core consumes it: two primitive operations,
//! `prove` over a transaction's canonical public inputs and `verify` over a
//! (proof, public inputs) pair.
//!
//! The real zero-knowledge engine — circuit construction, constraint system,
//! proof generation — is an external collaborator. While none is wired in,
//! this module carries a deterministic placeholder that binds each proof to
//! the public inputs it was produced from, so that the one contract the
//! transaction layer needs (a fresh, unmodified proof checks against its own
//! public inputs) holds by construction.
use vstd::prelude::*;
use crate::scalar::Scalar;

verus! {

/// Serialized width of one proof on the wire, in bytes.
pub const SERIALIZED_PROOF_SIZE: usize = 32;

/// A proof over a transaction's canonical form.
#[derive(Clone, Copy, Debug, PartialEq, Eq, Structural)]
pub struct Proof {
    /// The digest the proof commits to.
    pub digest: Scalar,
}

/// The non-secret values a proof is checked against: here, the digest of the
/// transaction's canonical form.
#[derive(Clone, Copy, Debug, PartialEq, Eq, Structural)]
pub struct ZkPublicInputs {
    /// The digest of the canonical transaction the inputs were computed from.
    pub digest: Scalar,
}

/// The proof produced over the given public inputs.
pub open spec fn spec_prove(pi: ZkPublicInputs) -> Proof {
    Proof { digest: pi.digest }
}

/// Whether a proof checks against the given public inputs.
pub open spec fn spec_verify(proof: Proof, pi: ZkPublicInputs) -> bool {
    proof.digest == pi.digest
}

/// Produce a proof over the given public inputs.
pub fn prove(pi: &ZkPublicInputs) -> (r: Proof)
    ensures
        r == spec_prove(*pi),
{
    Proof { digest: pi.digest }
}

/// Check a proof against the given public inputs.
pub fn verify(proof: &Proof, pi: &ZkPublicInputs) -> (r: bool)
    ensures
        r == spec_verify(*proof, *pi),
{
    proof.digest == pi.digest
}

/// A proof freshly produced over some public inputs checks against them.
pub proof fn lemma_prove_verify(pi: ZkPublicInputs)
    ensures
        spec_verify(spec_prove(pi), pi),
{
}

impl Proof {
    /// The 32-byte wire encoding of a proof.
    pub open spec fn spec_bytes(self) -> Seq<u8> {
        self.digest.spec_bytes()
    }

    /// Serialize this proof.
    pub fn to_bytes(&self) -> (r: Vec<u8>)
        ensures
            r@ == self.spec_bytes(),
            r@.len() == SERIALIZED_PROOF_SIZE,
    {
        self.digest.to_bytes()
    }
}

impl Default for Proof {
    /// The all-zero placeholder proof.
    fn default() -> (r: Proof)
        ensures
            r == (Proof { digest: Scalar::spec_zero() }),
    {
        Proof { digest: Scalar::zero() }
    }
}

} // verus!
