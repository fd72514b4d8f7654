//! The note model: value-carrying units that are either fully visible
//! (transparent) or value-hidden (obfuscated).
//!
//! The commitment scheme, blinding and nullifier derivation are external
//! cryptography; this core models them over the [`sponge`](crate::scalar)
//! stand-in, so that the contracts the ledger relies on — a nullifier is a
//! function of its note alone, a note hash survives the clearing of secret
//! material — hold by construction.
use vstd::prelude::*;
use crate::scalar::{Scalar, spec_sponge, sponge_hash};
use crate::Error;
use crate::rng::random_u64;

verus! {

/// Domain tag a transparent note hashes under.
pub const TAG_TRANSPARENT: u64 = 1;

/// Domain tag an obfuscated note hashes under.
pub const TAG_OBFUSCATED: u64 = 2;

/// Domain tag of nullifier derivation.
pub const TAG_NULLIFIER: u64 = 3;

/// Domain tag of value commitments.
pub const TAG_COMMITMENT: u64 = 4;

/// A note whose value is visible on the ledger.
#[derive(Clone, Copy, Debug, PartialEq, Eq, Structural)]
pub struct TransparentNote {
    /// Position in the ledger store, stamped when the note is stored.
    pub idx: u64,
    /// Recipient's public key.
    pub pk: u64,
    /// The publicly visible value.
    pub value: u64,
}

/// A note whose value is blinded behind a commitment.
#[derive(Clone, Copy, Debug, PartialEq, Eq, Structural)]
pub struct ObfuscatedNote {
    /// Position in the ledger store, stamped when the note is stored.
    pub idx: u64,
    /// Recipient's public key.
    pub pk: u64,
    /// The value commitment, fixed at creation; it survives the clearing of
    /// the secret material below.
    pub commitment: Scalar,
    /// The hidden value: secret material, zeroed before transmission.
    pub value: u64,
    /// The blinding factor: secret material, zeroed before transmission.
    pub blinding: u64,
}

/// The tagged union over the concrete note kinds.
#[derive(Clone, Copy, Debug, PartialEq, Eq, Structural)]
pub enum NoteVariant {
    /// Value visible.
    Transparent(TransparentNote),
    /// Value blinded.
    Obfuscated(ObfuscatedNote),
}

/// The value commitment of an obfuscated note: a function of the hidden value
/// and the blinding factor.
pub open spec fn spec_commitment(value: u64, blinding: u64) -> Scalar {
    spec_sponge(
        seq![
            Scalar::spec_from_u64(TAG_COMMITMENT),
            Scalar::spec_from_u64(value),
            Scalar::spec_from_u64(blinding),
        ],
    )
}

/// Compute the value commitment of an obfuscated note.
pub fn commitment(value: u64, blinding: u64) -> (r: Scalar)
    ensures
        r == spec_commitment(value, blinding),
{
    let mut items: Vec<Scalar> = Vec::new();
    items.push(Scalar::from_u64(TAG_COMMITMENT));
    items.push(Scalar::from_u64(value));
    items.push(Scalar::from_u64(blinding));
    proof {
        assert(items@ =~= seq![
            Scalar::spec_from_u64(TAG_COMMITMENT),
            Scalar::spec_from_u64(value),
            Scalar::spec_from_u64(blinding),
        ]);
    }
    sponge_hash(&items)
}

impl NoteVariant {
    /// The canonical default note: an obfuscated note with every field zero.
    pub open spec fn spec_default() -> NoteVariant {
        NoteVariant::Obfuscated(
            ObfuscatedNote {
                idx: 0,
                pk: 0,
                commitment: Scalar::spec_zero(),
                value: 0,
                blinding: 0,
            },
        )
    }

    /// Create a fresh transparent note for `pk` over `value`.
    pub fn transparent(pk: u64, value: u64) -> (r: NoteVariant)
        ensures
            r == NoteVariant::Transparent(TransparentNote { idx: 0, pk, value }),
    {
        NoteVariant::Transparent(TransparentNote { idx: 0, pk, value })
    }

    /// Create a fresh obfuscated note for `pk` over `value` with the given
    /// blinding factor.
    pub fn obfuscated(pk: u64, value: u64, blinding: u64) -> (r: NoteVariant)
        ensures
            r == NoteVariant::Obfuscated(
                ObfuscatedNote {
                    idx: 0,
                    pk,
                    commitment: spec_commitment(value, blinding),
                    value,
                    blinding,
                },
            ),
    {
        NoteVariant::Obfuscated(
            ObfuscatedNote { idx: 0, pk, commitment: commitment(value, blinding), value, blinding },
        )
    }

    /// Create a fresh obfuscated note with a randomly drawn blinding factor,
    /// returning the note together with the factor.
    pub fn obfuscated_output(pk: u64, value: u64) -> (r: (NoteVariant, u64))
        ensures
            r.0 == NoteVariant::Obfuscated(
                ObfuscatedNote {
                    idx: 0,
                    pk,
                    commitment: spec_commitment(value, r.1),
                    value,
                    blinding: r.1,
                },
            ),
    {
        let blinding = random_u64();
        (NoteVariant::obfuscated(pk, value, blinding), blinding)
    }

    /// The position stamped on this note.
    pub open spec fn spec_idx(self) -> u64 {
        match self {
            NoteVariant::Transparent(n) => n.idx,
            NoteVariant::Obfuscated(n) => n.idx,
        }
    }

    /// Return the position stamped on this note.
    pub fn idx(&self) -> (r: u64)
        ensures
            r == self.spec_idx(),
    {
        match self {
            NoteVariant::Transparent(n) => n.idx,
            NoteVariant::Obfuscated(n) => n.idx,
        }
    }

    /// This note with its position replaced.
    pub open spec fn spec_with_idx(self, idx: u64) -> NoteVariant {
        match self {
            NoteVariant::Transparent(n) => NoteVariant::Transparent(
                TransparentNote { idx, ..n },
            ),
            NoteVariant::Obfuscated(n) => NoteVariant::Obfuscated(ObfuscatedNote { idx, ..n }),
        }
    }

    /// Stamp this note with its position in the ledger store.
    pub fn set_idx(&mut self, idx: u64)
        ensures
            *final(self) == old(self).spec_with_idx(idx),
    {
        match self {
            NoteVariant::Transparent(n) => {
                n.idx = idx;
            },
            NoteVariant::Obfuscated(n) => {
                n.idx = idx;
            },
        }
    }

    /// The note's value as this core sees it: visible for transparent notes,
    /// the hidden pre-image (zero once cleared) for obfuscated ones.
    pub open spec fn spec_value(self) -> u64 {
        match self {
            NoteVariant::Transparent(n) => n.value,
            NoteVariant::Obfuscated(n) => n.value,
        }
    }

    /// Return the note's value.
    pub fn value(&self) -> (r: u64)
        ensures
            r == self.spec_value(),
    {
        match self {
            NoteVariant::Transparent(n) => n.value,
            NoteVariant::Obfuscated(n) => n.value,
        }
    }

    /// The note's one-way hash. It depends only on the kind, the recipient
    /// and the public value or commitment — never on secret material or on
    /// the stamped position, so it is stable across clearing and storing.
    pub open spec fn spec_hash(self) -> Scalar {
        match self {
            NoteVariant::Transparent(n) => spec_sponge(
                seq![
                    Scalar::spec_from_u64(TAG_TRANSPARENT),
                    Scalar::spec_from_u64(n.pk),
                    Scalar::spec_from_u64(n.value),
                ],
            ),
            NoteVariant::Obfuscated(n) => spec_sponge(
                seq![
                    Scalar::spec_from_u64(TAG_OBFUSCATED),
                    Scalar::spec_from_u64(n.pk),
                    n.commitment,
                ],
            ),
        }
    }

    /// Hash this note.
    pub fn hash(&self) -> (r: Scalar)
        ensures
            r == self.spec_hash(),
    {
        let mut items: Vec<Scalar> = Vec::new();
        match self {
            NoteVariant::Transparent(n) => {
                items.push(Scalar::from_u64(TAG_TRANSPARENT));
                items.push(Scalar::from_u64(n.pk));
                items.push(Scalar::from_u64(n.value));
                proof {
                    assert(items@ =~= seq![
                        Scalar::spec_from_u64(TAG_TRANSPARENT),
                        Scalar::spec_from_u64(n.pk),
                        Scalar::spec_from_u64(n.value),
                    ]);
                }
            },
            NoteVariant::Obfuscated(n) => {
                items.push(Scalar::from_u64(TAG_OBFUSCATED));
                items.push(Scalar::from_u64(n.pk));
                items.push(n.commitment);
                proof {
                    assert(items@ =~= seq![
                        Scalar::spec_from_u64(TAG_OBFUSCATED),
                        Scalar::spec_from_u64(n.pk),
                        n.commitment,
                    ]);
                }
            },
        }
        sponge_hash(&items)
    }

    /// The nullifier that marks this note as spent: a one-way value derived
    /// from the note alone, so two spends of the same note produce the same
    /// nullifier.
    pub open spec fn spec_nullifier(self) -> Scalar {
        spec_sponge(seq![Scalar::spec_from_u64(TAG_NULLIFIER), self.spec_hash()])
    }

    /// Derive the nullifier of this note.
    pub fn nullifier(&self) -> (r: Scalar)
        ensures
            r == self.spec_nullifier(),
    {
        let mut items: Vec<Scalar> = Vec::new();
        items.push(Scalar::from_u64(TAG_NULLIFIER));
        items.push(self.hash());
        proof {
            assert(items@ =~= seq![Scalar::spec_from_u64(TAG_NULLIFIER), self.spec_hash()]);
        }
        sponge_hash(&items)
    }

    /// Check that a claimed nullifier is the one derived from this note.
    pub fn validate_nullifier(&self, nullifier: &Scalar) -> (r: Result<(), Error>)
        ensures
            r is Ok <==> *nullifier == self.spec_nullifier(),
            r is Err ==> r == Err::<(), Error>(Error::InvalidParameters),
    {
        let expected = self.nullifier();
        if expected == *nullifier {
            Ok(())
        } else {
            Err(Error::InvalidParameters)
        }
    }

    /// This note with its secret material erased: the hidden value and the
    /// blinding factor of an obfuscated note; a transparent note carries
    /// none.
    pub open spec fn spec_cleared(self) -> NoteVariant {
        match self {
            NoteVariant::Transparent(n) => NoteVariant::Transparent(n),
            NoteVariant::Obfuscated(n) => NoteVariant::Obfuscated(
                ObfuscatedNote { value: 0, blinding: 0, ..n },
            ),
        }
    }

    /// Erase the secret material of this note. Irreversible and idempotent;
    /// the note can still be hashed afterwards.
    pub fn clear_sensitive_info(&mut self)
        ensures
            *final(self) == old(self).spec_cleared(),
    {
        match self {
            NoteVariant::Transparent(_) => {},
            NoteVariant::Obfuscated(n) => {
                n.value = 0;
                n.blinding = 0;
            },
        }
    }

    /// Clearing never changes a note's hash.
    pub proof fn lemma_hash_stable_under_clear(self)
        ensures
            self.spec_cleared().spec_hash() == self.spec_hash(),
    {
    }
}

impl Default for NoteVariant {
    /// The canonical default note.
    fn default() -> (r: NoteVariant)
        ensures
            r == NoteVariant::spec_default(),
    {
        NoteVariant::Obfuscated(
            ObfuscatedNote { idx: 0, pk: 0, commitment: Scalar::zero(), value: 0, blinding: 0 },
        )
    }
}

} // verus!
