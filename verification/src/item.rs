//! Transaction items: one note plus its spend or creation context.
//!
//! Items carry a total order, lexicographic over the fields that survive the
//! clearing of secret material, scalars compared numerically; the transaction
//! layer sorts its active slots under it so that the hash and the wire format
//! are reproducible across processes and stable across clearing.
use vstd::prelude::*;
use crate::scalar::Scalar;
use crate::note::NoteVariant;

verus! {

/// Whether an item spends a note or creates one.
#[derive(Clone, Copy, Debug, PartialEq, Eq, Structural)]
pub enum NoteUtxoType {
    /// The item spends a note.
    Input,
    /// The item creates a note.
    Output,
}

/// A spend: the consumed note, its nullifier and the root of the Merkle
/// opening that places the note in the commitment tree.
#[derive(Clone, Copy, Debug, PartialEq, Eq, Structural)]
pub struct TransactionInput {
    /// The note being spent.
    pub note: NoteVariant,
    /// The nullifier that marks the note as spent; must validate against the
    /// note before the ledger accepts the spend.
    pub nullifier: Scalar,
    /// The root of the Merkle opening of the spent note.
    pub merkle_root: Scalar,
}

/// A creation: the new note together with its plain-value context.
#[derive(Clone, Copy, Debug, PartialEq, Eq, Structural)]
pub struct TransactionOutput {
    /// The note being created.
    pub note: NoteVariant,
    /// The value carried by the output.
    pub value: u64,
    /// The blinding factor behind the note's commitment: secret material.
    pub blinding_factor: u64,
    /// The recipient's public key.
    pub pk: u64,
}

/// An item of a transaction, tagged input or output.
#[derive(Clone, Copy, Debug, PartialEq, Eq, Structural)]
pub enum TransactionItem {
    /// A spend.
    Input(TransactionInput),
    /// A creation.
    Output(TransactionOutput),
}

/// The ordering rank of a note's kind.
pub open spec fn spec_note_rank(n: NoteVariant) -> u64 {
    match n {
        NoteVariant::Transparent(_) => 0,
        NoteVariant::Obfuscated(_) => 1,
    }
}

/// Total order over notes: by kind, then lexicographically over the fields
/// that survive the clearing of secret material — the position, the key, and
/// the visible value or the commitment. Keying only on surviving fields
/// keeps the canonical order, and with it the transaction hash and the wire
/// order, stable across [`NoteVariant::clear_sensitive_info`].
pub open spec fn spec_note_le(a: NoteVariant, b: NoteVariant) -> bool {
    if spec_note_rank(a) != spec_note_rank(b) {
        spec_note_rank(a) < spec_note_rank(b)
    } else {
        match (a, b) {
            (NoteVariant::Transparent(x), NoteVariant::Transparent(y)) => {
                if x.idx != y.idx {
                    x.idx < y.idx
                } else if x.pk != y.pk {
                    x.pk < y.pk
                } else {
                    x.value <= y.value
                }
            },
            (NoteVariant::Obfuscated(x), NoteVariant::Obfuscated(y)) => {
                if x.idx != y.idx {
                    x.idx < y.idx
                } else if x.pk != y.pk {
                    x.pk < y.pk
                } else {
                    Scalar::spec_le(x.commitment, y.commitment)
                }
            },
            _ => true,
        }
    }
}

/// Compare two notes under the canonical order.
pub fn note_le(a: &NoteVariant, b: &NoteVariant) -> (r: bool)
    ensures
        r == spec_note_le(*a, *b),
{
    match (a, b) {
        (NoteVariant::Transparent(x), NoteVariant::Transparent(y)) => {
            if x.idx != y.idx {
                x.idx < y.idx
            } else if x.pk != y.pk {
                x.pk < y.pk
            } else {
                x.value <= y.value
            }
        },
        (NoteVariant::Obfuscated(x), NoteVariant::Obfuscated(y)) => {
            if x.idx != y.idx {
                x.idx < y.idx
            } else if x.pk != y.pk {
                x.pk < y.pk
            } else {
                x.commitment.le(&y.commitment)
            }
        },
        (NoteVariant::Transparent(_), NoteVariant::Obfuscated(_)) => true,
        (NoteVariant::Obfuscated(_), NoteVariant::Transparent(_)) => false,
    }
}

/// The note order relates every pair of notes.
pub proof fn lemma_note_le_total(a: NoteVariant, b: NoteVariant)
    ensures
        spec_note_le(a, b) || spec_note_le(b, a),
{
}

/// Two notes below each other hash identically: they share the kind, the
/// position, the key and the visible value or commitment, and the hash
/// reads nothing else. (They may still differ in secret material, so the
/// order is total but not antisymmetric.)
pub proof fn lemma_note_le_tie(a: NoteVariant, b: NoteVariant)
    requires
        spec_note_le(a, b),
        spec_note_le(b, a),
    ensures
        a.spec_hash() == b.spec_hash(),
        a.spec_idx() == b.spec_idx(),
{
    Scalar::lemma_le_antisymmetric(
        match a {
            NoteVariant::Transparent(_) => Scalar::spec_zero(),
            NoteVariant::Obfuscated(x) => x.commitment,
        },
        match b {
            NoteVariant::Transparent(_) => Scalar::spec_zero(),
            NoteVariant::Obfuscated(y) => y.commitment,
        },
    );
}

/// Clearing secret material never changes how two notes compare.
pub proof fn lemma_note_le_clear_stable(a: NoteVariant, b: NoteVariant)
    ensures
        spec_note_le(a.spec_cleared(), b.spec_cleared()) == spec_note_le(a, b),
{
}

impl TransactionInput {
    /// The canonical default input: the default note with zero nullifier and
    /// zero Merkle root.
    pub open spec fn spec_default() -> TransactionInput {
        TransactionInput {
            note: NoteVariant::spec_default(),
            nullifier: Scalar::spec_zero(),
            merkle_root: Scalar::spec_zero(),
        }
    }

    /// An opaque input as it arrives over the wire: only the Merkle root and
    /// the nullifier are known; the note is the canonical default.
    pub open spec fn spec_obfuscated(nullifier: Scalar, merkle_root: Scalar) -> TransactionInput {
        TransactionInput { note: NoteVariant::spec_default(), nullifier, merkle_root }
    }

    /// Build an opaque input from its wire fields.
    pub fn obfuscated(nullifier: Scalar, merkle_root: Scalar) -> (r: TransactionInput)
        ensures
            r == TransactionInput::spec_obfuscated(nullifier, merkle_root),
    {
        TransactionInput { note: NoteVariant::default(), nullifier, merkle_root }
    }

    /// The value of the spent note.
    pub fn value(&self) -> (r: u64)
        ensures
            r == self.note.spec_value(),
    {
        self.note.value()
    }

    /// This input with its note's secret material erased.
    pub open spec fn spec_cleared(self) -> TransactionInput {
        TransactionInput { note: self.note.spec_cleared(), ..self }
    }

    /// Erase the secret material of the spent note.
    pub fn clear_sensitive_info(&mut self)
        ensures
            *final(self) == old(self).spec_cleared(),
    {
        self.note.clear_sensitive_info();
    }
}

impl Default for TransactionInput {
    /// The canonical default input.
    fn default() -> (r: TransactionInput)
        ensures
            r == TransactionInput::spec_default(),
    {
        TransactionInput {
            note: NoteVariant::default(),
            nullifier: Scalar::zero(),
            merkle_root: Scalar::zero(),
        }
    }
}

/// Total order over inputs: by nullifier, then Merkle root, then note.
pub open spec fn spec_input_le(a: TransactionInput, b: TransactionInput) -> bool {
    if a.nullifier != b.nullifier {
        Scalar::spec_le(a.nullifier, b.nullifier)
    } else if a.merkle_root != b.merkle_root {
        Scalar::spec_le(a.merkle_root, b.merkle_root)
    } else {
        spec_note_le(a.note, b.note)
    }
}

/// Compare two inputs under the canonical order.
pub fn input_le(a: &TransactionInput, b: &TransactionInput) -> (r: bool)
    ensures
        r == spec_input_le(*a, *b),
{
    if a.nullifier != b.nullifier {
        a.nullifier.le(&b.nullifier)
    } else if a.merkle_root != b.merkle_root {
        a.merkle_root.le(&b.merkle_root)
    } else {
        note_le(&a.note, &b.note)
    }
}

/// The input order relates every pair of inputs.
pub proof fn lemma_input_le_total(a: TransactionInput, b: TransactionInput)
    ensures
        spec_input_le(a, b) || spec_input_le(b, a),
{
    Scalar::lemma_le_total(a.nullifier, b.nullifier);
    Scalar::lemma_le_total(a.merkle_root, b.merkle_root);
    lemma_note_le_total(a.note, b.note);
}

/// Two inputs below each other agree on everything the ledger and the wire
/// read of them: the nullifier, the Merkle root, and the note's hash.
pub proof fn lemma_input_le_tie(a: TransactionInput, b: TransactionInput)
    requires
        spec_input_le(a, b),
        spec_input_le(b, a),
    ensures
        a.nullifier == b.nullifier,
        a.merkle_root == b.merkle_root,
        a.note.spec_hash() == b.note.spec_hash(),
{
    Scalar::lemma_le_antisymmetric(a.nullifier, b.nullifier);
    Scalar::lemma_le_antisymmetric(a.merkle_root, b.merkle_root);
    lemma_note_le_tie(a.note, b.note);
}

impl TransactionOutput {
    /// The canonical default output: the default note with zero context.
    pub open spec fn spec_default() -> TransactionOutput {
        TransactionOutput {
            note: NoteVariant::spec_default(),
            value: 0,
            blinding_factor: 0,
            pk: 0,
        }
    }

    /// The value carried by the output.
    pub fn value(&self) -> (r: u64)
        ensures
            r == self.value,
    {
        self.value
    }

    /// The hash of the created note.
    pub fn hash(&self) -> (r: Scalar)
        ensures
            r == self.note.spec_hash(),
    {
        self.note.hash()
    }

    /// This output with its secret material erased: the note's secrets and
    /// the blinding factor it was created with.
    pub open spec fn spec_cleared(self) -> TransactionOutput {
        TransactionOutput { note: self.note.spec_cleared(), blinding_factor: 0, ..self }
    }

    /// Erase the secret material of the created note.
    pub fn clear_sensitive_info(&mut self)
        ensures
            *final(self) == old(self).spec_cleared(),
    {
        self.note.clear_sensitive_info();
        self.blinding_factor = 0;
    }
}

impl Default for TransactionOutput {
    /// The canonical default output.
    fn default() -> (r: TransactionOutput)
        ensures
            r == TransactionOutput::spec_default(),
    {
        TransactionOutput { note: NoteVariant::default(), value: 0, blinding_factor: 0, pk: 0 }
    }
}

/// Total order over outputs: by value, then key, then note — fields that
/// survive the clearing of secret material, so the canonical order is
/// stable across [`TransactionOutput::clear_sensitive_info`].
pub open spec fn spec_output_le(a: TransactionOutput, b: TransactionOutput) -> bool {
    if a.value != b.value {
        a.value < b.value
    } else if a.pk != b.pk {
        a.pk < b.pk
    } else {
        spec_note_le(a.note, b.note)
    }
}

/// Compare two outputs under the canonical order.
pub fn output_le(a: &TransactionOutput, b: &TransactionOutput) -> (r: bool)
    ensures
        r == spec_output_le(*a, *b),
{
    if a.value != b.value {
        a.value < b.value
    } else if a.pk != b.pk {
        a.pk < b.pk
    } else {
        note_le(&a.note, &b.note)
    }
}

/// The output order relates every pair of outputs.
pub proof fn lemma_output_le_total(a: TransactionOutput, b: TransactionOutput)
    ensures
        spec_output_le(a, b) || spec_output_le(b, a),
{
    lemma_note_le_total(a.note, b.note);
}

/// Two outputs below each other agree on their value, their key and their
/// note's hash — everything the transaction hash reads of them.
pub proof fn lemma_output_le_tie(a: TransactionOutput, b: TransactionOutput)
    requires
        spec_output_le(a, b),
        spec_output_le(b, a),
    ensures
        a.value == b.value,
        a.pk == b.pk,
        a.note.spec_hash() == b.note.spec_hash(),
{
    lemma_note_le_tie(a.note, b.note);
}

/// Clearing secret material never changes how two outputs compare.
pub proof fn lemma_output_le_clear_stable(a: TransactionOutput, b: TransactionOutput)
    ensures
        spec_output_le(a.spec_cleared(), b.spec_cleared()) == spec_output_le(a, b),
{
    lemma_note_le_clear_stable(a.note, b.note);
}

impl NoteVariant {
    /// Turn this note into a spend: the nullifier is derived from the note,
    /// and the Merkle opening is carried by its root.
    pub fn to_transaction_input(self, merkle_root: Scalar) -> (r: TransactionInput)
        ensures
            r == (TransactionInput {
                note: self,
                nullifier: self.spec_nullifier(),
                merkle_root,
            }),
    {
        let nullifier = self.nullifier();
        TransactionInput { note: self, nullifier, merkle_root }
    }

    /// Turn this note into a creation, keeping its plain-value context.
    pub fn to_transaction_output(self, value: u64, blinding_factor: u64, pk: u64) -> (r:
        TransactionOutput)
        ensures
            r == (TransactionOutput { note: self, value, blinding_factor, pk }),
    {
        TransactionOutput { note: self, value, blinding_factor, pk }
    }
}

impl TransactionItem {
    /// Whether the item spends or creates a note.
    pub open spec fn spec_utxo(self) -> NoteUtxoType {
        match self {
            TransactionItem::Input(_) => NoteUtxoType::Input,
            TransactionItem::Output(_) => NoteUtxoType::Output,
        }
    }

    /// Return whether the item spends or creates a note.
    pub fn utxo(&self) -> (r: NoteUtxoType)
        ensures
            r == self.spec_utxo(),
    {
        match self {
            TransactionItem::Input(_) => NoteUtxoType::Input,
            TransactionItem::Output(_) => NoteUtxoType::Output,
        }
    }

    /// The note the item carries.
    pub open spec fn spec_note(self) -> NoteVariant {
        match self {
            TransactionItem::Input(i) => i.note,
            TransactionItem::Output(o) => o.note,
        }
    }

    /// Return the note the item carries.
    pub fn note(&self) -> (r: NoteVariant)
        ensures
            r == self.spec_note(),
    {
        match self {
            TransactionItem::Input(i) => i.note,
            TransactionItem::Output(o) => o.note,
        }
    }

    /// The item's nullifier: meaningful only for inputs; zero for outputs.
    pub open spec fn spec_nullifier(self) -> Scalar {
        match self {
            TransactionItem::Input(i) => i.nullifier,
            TransactionItem::Output(_) => Scalar::spec_zero(),
        }
    }

    /// Return the item's nullifier.
    pub fn nullifier(&self) -> (r: Scalar)
        ensures
            r == self.spec_nullifier(),
    {
        match self {
            TransactionItem::Input(i) => i.nullifier,
            TransactionItem::Output(_) => Scalar::zero(),
        }
    }
}

} // verus!
