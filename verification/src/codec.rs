//! The wire codec: a byte-exact, fixed-size layout for a transaction, used
//! for both transmission and any persisted representation.
//!
//! The total encoded size is the constant [`TX_SERIALIZED_SIZE`], independent
//! of how many optional or active fields are populated: every slot is always
//! written. In order, each field little-endian fixed-width: the proof count
//! and the fixed proof slots (zero-padded when unoccupied); the active-input
//! count and the full fixed input slot (a default slot when unoccupied); a
//! presence byte and a reserved block for the crossover output (the default
//! output when absent); the same for the contract output; the active-output
//! count and both fixed output slots; the fee output. Secret material is
//! cleared before any byte is produced, and a decoded input slot is always
//! the opaque (root, nullifier) form.
use vstd::prelude::*;
use vstd::bytes::{spec_u64_to_le_bytes, spec_u64_from_le_bytes, u64_to_le_bytes, u64_from_le_bytes};
use vstd::slice::slice_subrange;
use crate::Error;
use crate::scalar::Scalar;
use crate::note::{NoteVariant, TransparentNote, ObfuscatedNote};
use crate::item::{TransactionInput, TransactionOutput};
use crate::zk::Proof;
use crate::transaction::{Transaction, TransactionView};

verus! {

/// Serialized width of one note.
pub const NOTE_SERIALIZED_SIZE: usize = 65;

/// Serialized width of one transaction output.
pub const OUTPUT_SERIALIZED_SIZE: usize = 89;

/// The proof slots the wire format reserves: one for each note slot of a
/// transaction. A transaction carrying more proofs cannot be serialized.
pub const MAX_PROOFS_PER_TRANSACTION: usize = 3;

/// The fixed total serialized size of a transaction: the proof count word
/// and the reserved proof slots, the input count word and the input slot,
/// two presence bytes each followed by a reserved output block, the output
/// count word, the two output slots, and the fee output.
pub const TX_SERIALIZED_SIZE: usize = 631;

/// The word read at `off`.
pub open spec fn spec_parse_u64(s: Seq<u8>, off: int) -> u64 {
    spec_u64_from_le_bytes(s.subrange(off, off + 8))
}

/// The scalar read at `off`.
pub open spec fn spec_parse_scalar(s: Seq<u8>, off: int) -> Scalar {
    Scalar::spec_from_bytes(s.subrange(off, off + 32))
}

/// The note read at `off`, or nothing on an unknown kind byte.
pub open spec fn spec_parse_note(s: Seq<u8>, off: int) -> Option<NoteVariant> {
    let kind = s[off];
    let idx = spec_parse_u64(s, off + 1);
    let pk = spec_parse_u64(s, off + 9);
    let value = spec_parse_u64(s, off + 17);
    let blinding = spec_parse_u64(s, off + 25);
    let commitment = spec_parse_scalar(s, off + 33);
    if kind == 0 {
        Some(NoteVariant::Transparent(TransparentNote { idx, pk, value }))
    } else if kind == 1 {
        Some(NoteVariant::Obfuscated(ObfuscatedNote { idx, pk, commitment, value, blinding }))
    } else {
        None
    }
}

/// The output read at `off`, or nothing when its note is malformed.
pub open spec fn spec_parse_output(s: Seq<u8>, off: int) -> Option<TransactionOutput> {
    match spec_parse_note(s, off) {
        None => None,
        Some(note) => Some(
            TransactionOutput {
                note,
                value: spec_parse_u64(s, off + 65),
                blinding_factor: spec_parse_u64(s, off + 73),
                pk: spec_parse_u64(s, off + 81),
            },
        ),
    }
}

/// The byte encoding of one note. A transparent note has no blinding or
/// commitment; its slots are written as zeroes and ignored on decode.
pub open spec fn spec_note_bytes(n: NoteVariant) -> Seq<u8> {
    match n {
        NoteVariant::Transparent(t) => seq![0u8] + spec_u64_to_le_bytes(t.idx)
            + spec_u64_to_le_bytes(t.pk) + spec_u64_to_le_bytes(t.value) + spec_u64_to_le_bytes(0)
            + Scalar::spec_zero().spec_bytes(),
        NoteVariant::Obfuscated(o) => seq![1u8] + spec_u64_to_le_bytes(o.idx)
            + spec_u64_to_le_bytes(o.pk) + spec_u64_to_le_bytes(o.value) + spec_u64_to_le_bytes(
            o.blinding,
        ) + o.commitment.spec_bytes(),
    }
}

/// The byte encoding of one output: its note, then the plain-value context.
pub open spec fn spec_output_bytes(o: TransactionOutput) -> Seq<u8> {
    spec_note_bytes(o.note) + spec_u64_to_le_bytes(o.value) + spec_u64_to_le_bytes(
        o.blinding_factor,
    ) + spec_u64_to_le_bytes(o.pk)
}

/// The byte encoding of the fixed input slot: the Merkle root scalar, then
/// the nullifier scalar. An unoccupied slot is written as the default slot.
pub open spec fn spec_input_slot_bytes(inputs: Seq<TransactionInput>) -> Seq<u8> {
    if inputs.len() >= 1 {
        inputs[0].merkle_root.spec_bytes() + inputs[0].nullifier.spec_bytes()
    } else {
        Scalar::spec_zero().spec_bytes() + Scalar::spec_zero().spec_bytes()
    }
}

/// The byte encoding of one fixed proof slot: the proof's digest, or the
/// zero scalar when the slot is unoccupied.
pub open spec fn spec_proof_slot_bytes(ps: Seq<Proof>, k: int) -> Seq<u8> {
    if ps.len() > k {
        ps[k].digest.spec_bytes()
    } else {
        Scalar::spec_zero().spec_bytes()
    }
}

/// A presence byte followed by the reserved output block: the output's
/// encoding when present, the default output's when absent. Always written,
/// so the optional outputs never change the encoded size.
pub open spec fn spec_opt_block_bytes(o: Option<TransactionOutput>) -> Seq<u8> {
    match o {
        None => seq![0u8] + spec_output_bytes(TransactionOutput::spec_default()),
        Some(out) => seq![1u8] + spec_output_bytes(out),
    }
}

/// The byte encoding of one fixed output slot, the default output when the
/// slot is unoccupied.
pub open spec fn spec_output_slot_bytes(outputs: Seq<TransactionOutput>, k: int) -> Seq<u8> {
    spec_output_bytes(spec_output_slot(outputs, k))
}

/// The output an output slot holds: the active item or the default.
pub open spec fn spec_output_slot(outputs: Seq<TransactionOutput>, k: int) -> TransactionOutput {
    if outputs.len() > k {
        outputs[k]
    } else {
        TransactionOutput::spec_default()
    }
}

/// The full wire encoding of a transaction: always exactly
/// [`TX_SERIALIZED_SIZE`] bytes.
pub open spec fn spec_encode(v: TransactionView) -> Seq<u8> {
    spec_u64_to_le_bytes(v.proofs.len() as u64) + spec_proof_slot_bytes(v.proofs, 0)
        + spec_proof_slot_bytes(v.proofs, 1) + spec_proof_slot_bytes(v.proofs, 2)
        + spec_u64_to_le_bytes(v.inputs.len() as u64) + spec_input_slot_bytes(v.inputs)
        + spec_opt_block_bytes(v.crossover) + spec_opt_block_bytes(v.contract_output)
        + spec_u64_to_le_bytes(v.outputs.len() as u64) + spec_output_slot_bytes(v.outputs, 0)
        + spec_output_slot_bytes(v.outputs, 1) + spec_output_bytes(v.fee)
}

/// The wire decoding of a byte sequence: the exact mirror of
/// [`spec_encode`] at its fixed offsets, reading the first
/// [`TX_SERIALIZED_SIZE`] bytes and rejecting malformed input.
pub open spec fn spec_decode(s: Seq<u8>) -> Option<TransactionView> {
    if s.len() < TX_SERIALIZED_SIZE {
        None
    } else {
        let p = spec_parse_u64(s, 0);
        if p > MAX_PROOFS_PER_TRANSACTION {
            None
        } else {
            let proofs = Seq::new(
                p as nat,
                |i: int| Proof { digest: spec_parse_scalar(s, 8 + 32 * i) },
            );
            let ic = spec_parse_u64(s, 104);
            if ic > 1 {
                None
            } else {
                let root = spec_parse_scalar(s, 112);
                let nullifier = spec_parse_scalar(s, 144);
                let inputs: Seq<TransactionInput> = if ic == 0 {
                    Seq::empty()
                } else {
                    seq![TransactionInput::spec_obfuscated(nullifier, root)]
                };
                let crossover = if s[176] != 0 {
                    spec_parse_output(s, 177)
                } else {
                    None
                };
                if s[176] != 0 && crossover is None {
                    None
                } else {
                    let contract_output = if s[266] != 0 {
                        spec_parse_output(s, 267)
                    } else {
                        None
                    };
                    if s[266] != 0 && contract_output is None {
                        None
                    } else {
                        let oc = spec_parse_u64(s, 356);
                        if oc > 2 {
                            None
                        } else {
                            let out0 = spec_parse_output(s, 364);
                            let out1 = spec_parse_output(s, 453);
                            let fee = spec_parse_output(s, 542);
                            if out0 is None || out1 is None || fee is None {
                                None
                            } else {
                                let outputs: Seq<TransactionOutput> = if oc == 0 {
                                    Seq::empty()
                                } else if oc == 1 {
                                    seq![out0->Some_0]
                                } else {
                                    seq![out0->Some_0, out1->Some_0]
                                };
                                Some(
                                    TransactionView {
                                        inputs,
                                        outputs,
                                        crossover,
                                        contract_output,
                                        fee: fee->Some_0,
                                        proofs,
                                        public_inputs: Seq::empty(),
                                    },
                                )
                            }
                        }
                    }
                }
            }
        }
    }
}

/// What a transaction looks like after one trip over the wire: the items'
/// secret material is gone (the encoder cleared it), each input slot is the
/// opaque (root, nullifier) form, and the public inputs are empty.
pub open spec fn spec_wire_form(t: TransactionView) -> TransactionView {
    TransactionView {
        inputs: if t.inputs.len() == 0 {
            Seq::empty()
        } else {
            seq![
                TransactionInput::spec_obfuscated(t.inputs[0].nullifier, t.inputs[0].merkle_root),
            ]
        },
        outputs: t.outputs.map_values(|o: TransactionOutput| o.spec_cleared()),
        crossover: t.crossover,
        contract_output: t.contract_output,
        fee: t.fee,
        proofs: t.proofs,
        public_inputs: Seq::empty(),
    }
}

proof fn lemma_scalar_bytes_len(sc: Scalar)
    ensures
        sc.spec_bytes().len() == 32,
{
    vstd::bytes::lemma_auto_spec_u64_to_from_le_bytes();
}

proof fn lemma_note_bytes_len(n: NoteVariant)
    ensures
        spec_note_bytes(n).len() == 65,
{
    vstd::bytes::lemma_auto_spec_u64_to_from_le_bytes();
    match n {
        NoteVariant::Transparent(_) => {
            lemma_scalar_bytes_len(Scalar::spec_zero());
        },
        NoteVariant::Obfuscated(o) => {
            lemma_scalar_bytes_len(o.commitment);
        },
    }
}

proof fn lemma_output_bytes_len(o: TransactionOutput)
    ensures
        spec_output_bytes(o).len() == 89,
{
    vstd::bytes::lemma_auto_spec_u64_to_from_le_bytes();
    lemma_note_bytes_len(o.note);
}

proof fn lemma_proof_slot_bytes_len(ps: Seq<Proof>, k: int)
    ensures
        spec_proof_slot_bytes(ps, k).len() == 32,
{
    if ps.len() > k {
        lemma_scalar_bytes_len(ps[k].digest);
    } else {
        lemma_scalar_bytes_len(Scalar::spec_zero());
    }
}

proof fn lemma_opt_block_bytes_len(o: Option<TransactionOutput>)
    ensures
        spec_opt_block_bytes(o).len() == 90,
{
    match o {
        None => {
            lemma_output_bytes_len(TransactionOutput::spec_default());
        },
        Some(out) => {
            lemma_output_bytes_len(out);
        },
    }
}

proof fn lemma_input_slot_bytes_len(inputs: Seq<TransactionInput>)
    ensures
        spec_input_slot_bytes(inputs).len() == 64,
{
    if inputs.len() >= 1 {
        lemma_scalar_bytes_len(inputs[0].merkle_root);
        lemma_scalar_bytes_len(inputs[0].nullifier);
    } else {
        lemma_scalar_bytes_len(Scalar::spec_zero());
    }
}

/// Every transaction encodes to exactly the fixed size.
pub proof fn lemma_encode_len(v: TransactionView)
    ensures
        spec_encode(v).len() == TX_SERIALIZED_SIZE,
{
    vstd::bytes::lemma_auto_spec_u64_to_from_le_bytes();
    lemma_proof_slot_bytes_len(v.proofs, 0);
    lemma_proof_slot_bytes_len(v.proofs, 1);
    lemma_proof_slot_bytes_len(v.proofs, 2);
    lemma_input_slot_bytes_len(v.inputs);
    lemma_opt_block_bytes_len(v.crossover);
    lemma_opt_block_bytes_len(v.contract_output);
    lemma_output_bytes_len(spec_output_slot(v.outputs, 0));
    lemma_output_bytes_len(spec_output_slot(v.outputs, 1));
    lemma_output_bytes_len(v.fee);
}

/// A word written between two contexts reads back as itself.
proof fn lemma_parse_u64_after(pre: Seq<u8>, x: u64, post: Seq<u8>)
    ensures
        spec_parse_u64(pre + spec_u64_to_le_bytes(x) + post, pre.len() as int) == x,
{
    vstd::bytes::lemma_auto_spec_u64_to_from_le_bytes();
    let s = pre + spec_u64_to_le_bytes(x) + post;
    assert(s.subrange(pre.len() as int, pre.len() as int + 8) =~= spec_u64_to_le_bytes(x));
}

/// A scalar written between two contexts reads back as itself.
proof fn lemma_parse_scalar_after(pre: Seq<u8>, sc: Scalar, post: Seq<u8>)
    ensures
        spec_parse_scalar(pre + sc.spec_bytes() + post, pre.len() as int) == sc,
{
    lemma_scalar_bytes_len(sc);
    let s = pre + sc.spec_bytes() + post;
    assert(s.subrange(pre.len() as int, pre.len() as int + 32) =~= sc.spec_bytes());
    sc.lemma_bytes_roundtrip();
}

/// A note written between two contexts reads back as itself.
proof fn lemma_parse_note_after(pre: Seq<u8>, n: NoteVariant, post: Seq<u8>)
    ensures
        spec_parse_note(pre + spec_note_bytes(n) + post, pre.len() as int) == Some(n),
{
    vstd::bytes::lemma_auto_spec_u64_to_from_le_bytes();
    let s = pre + spec_note_bytes(n) + post;
    let off = pre.len() as int;
    lemma_note_bytes_len(n);
    match n {
        NoteVariant::Transparent(t) => {
            assert(s[off] == 0);
            assert(s =~= (pre + seq![0u8]) + spec_u64_to_le_bytes(t.idx) + (spec_u64_to_le_bytes(
                t.pk,
            ) + spec_u64_to_le_bytes(t.value) + spec_u64_to_le_bytes(0)
                + Scalar::spec_zero().spec_bytes() + post));
            lemma_parse_u64_after(
                pre + seq![0u8],
                t.idx,
                spec_u64_to_le_bytes(t.pk) + spec_u64_to_le_bytes(t.value) + spec_u64_to_le_bytes(
                    0,
                ) + Scalar::spec_zero().spec_bytes() + post,
            );
            assert(s =~= (pre + seq![0u8] + spec_u64_to_le_bytes(t.idx)) + spec_u64_to_le_bytes(
                t.pk,
            ) + (spec_u64_to_le_bytes(t.value) + spec_u64_to_le_bytes(0)
                + Scalar::spec_zero().spec_bytes() + post));
            lemma_parse_u64_after(
                pre + seq![0u8] + spec_u64_to_le_bytes(t.idx),
                t.pk,
                spec_u64_to_le_bytes(t.value) + spec_u64_to_le_bytes(0)
                    + Scalar::spec_zero().spec_bytes() + post,
            );
            assert(s =~= (pre + seq![0u8] + spec_u64_to_le_bytes(t.idx) + spec_u64_to_le_bytes(
                t.pk,
            )) + spec_u64_to_le_bytes(t.value) + (spec_u64_to_le_bytes(0)
                + Scalar::spec_zero().spec_bytes() + post));
            lemma_parse_u64_after(
                pre + seq![0u8] + spec_u64_to_le_bytes(t.idx) + spec_u64_to_le_bytes(t.pk),
                t.value,
                spec_u64_to_le_bytes(0) + Scalar::spec_zero().spec_bytes() + post,
            );
        },
        NoteVariant::Obfuscated(o) => {
            assert(s[off] == 1);
            assert(s =~= (pre + seq![1u8]) + spec_u64_to_le_bytes(o.idx) + (spec_u64_to_le_bytes(
                o.pk,
            ) + spec_u64_to_le_bytes(o.value) + spec_u64_to_le_bytes(o.blinding)
                + o.commitment.spec_bytes() + post));
            lemma_parse_u64_after(
                pre + seq![1u8],
                o.idx,
                spec_u64_to_le_bytes(o.pk) + spec_u64_to_le_bytes(o.value) + spec_u64_to_le_bytes(
                    o.blinding,
                ) + o.commitment.spec_bytes() + post,
            );
            assert(s =~= (pre + seq![1u8] + spec_u64_to_le_bytes(o.idx)) + spec_u64_to_le_bytes(
                o.pk,
            ) + (spec_u64_to_le_bytes(o.value) + spec_u64_to_le_bytes(o.blinding)
                + o.commitment.spec_bytes() + post));
            lemma_parse_u64_after(
                pre + seq![1u8] + spec_u64_to_le_bytes(o.idx),
                o.pk,
                spec_u64_to_le_bytes(o.value) + spec_u64_to_le_bytes(o.blinding)
                    + o.commitment.spec_bytes() + post,
            );
            assert(s =~= (pre + seq![1u8] + spec_u64_to_le_bytes(o.idx) + spec_u64_to_le_bytes(
                o.pk,
            )) + spec_u64_to_le_bytes(o.value) + (spec_u64_to_le_bytes(o.blinding)
                + o.commitment.spec_bytes() + post));
            lemma_parse_u64_after(
                pre + seq![1u8] + spec_u64_to_le_bytes(o.idx) + spec_u64_to_le_bytes(o.pk),
                o.value,
                spec_u64_to_le_bytes(o.blinding) + o.commitment.spec_bytes() + post,
            );
            assert(s =~= (pre + seq![1u8] + spec_u64_to_le_bytes(o.idx) + spec_u64_to_le_bytes(
                o.pk,
            ) + spec_u64_to_le_bytes(o.value)) + spec_u64_to_le_bytes(o.blinding) + (
            o.commitment.spec_bytes() + post));
            lemma_parse_u64_after(
                pre + seq![1u8] + spec_u64_to_le_bytes(o.idx) + spec_u64_to_le_bytes(o.pk)
                    + spec_u64_to_le_bytes(o.value),
                o.blinding,
                o.commitment.spec_bytes() + post,
            );
            assert(s =~= (pre + seq![1u8] + spec_u64_to_le_bytes(o.idx) + spec_u64_to_le_bytes(
                o.pk,
            ) + spec_u64_to_le_bytes(o.value) + spec_u64_to_le_bytes(o.blinding))
                + o.commitment.spec_bytes() + post);
            lemma_parse_scalar_after(
                pre + seq![1u8] + spec_u64_to_le_bytes(o.idx) + spec_u64_to_le_bytes(o.pk)
                    + spec_u64_to_le_bytes(o.value) + spec_u64_to_le_bytes(o.blinding),
                o.commitment,
                post,
            );
        },
    }
}

/// An output written between two contexts reads back as itself.
proof fn lemma_parse_output_after(pre: Seq<u8>, o: TransactionOutput, post: Seq<u8>)
    ensures
        spec_parse_output(pre + spec_output_bytes(o) + post, pre.len() as int) == Some(o),
{
    vstd::bytes::lemma_auto_spec_u64_to_from_le_bytes();
    let s = pre + spec_output_bytes(o) + post;
    lemma_note_bytes_len(o.note);
    assert(s =~= pre + spec_note_bytes(o.note) + (spec_u64_to_le_bytes(o.value)
        + spec_u64_to_le_bytes(o.blinding_factor) + spec_u64_to_le_bytes(o.pk) + post));
    lemma_parse_note_after(
        pre,
        o.note,
        spec_u64_to_le_bytes(o.value) + spec_u64_to_le_bytes(o.blinding_factor)
            + spec_u64_to_le_bytes(o.pk) + post,
    );
    assert(s =~= (pre + spec_note_bytes(o.note)) + spec_u64_to_le_bytes(o.value) + (
    spec_u64_to_le_bytes(o.blinding_factor) + spec_u64_to_le_bytes(o.pk) + post));
    lemma_parse_u64_after(
        pre + spec_note_bytes(o.note),
        o.value,
        spec_u64_to_le_bytes(o.blinding_factor) + spec_u64_to_le_bytes(o.pk) + post,
    );
    assert(s =~= (pre + spec_note_bytes(o.note) + spec_u64_to_le_bytes(o.value))
        + spec_u64_to_le_bytes(o.blinding_factor) + (spec_u64_to_le_bytes(o.pk) + post));
    lemma_parse_u64_after(
        pre + spec_note_bytes(o.note) + spec_u64_to_le_bytes(o.value),
        o.blinding_factor,
        spec_u64_to_le_bytes(o.pk) + post,
    );
    assert(s =~= (pre + spec_note_bytes(o.note) + spec_u64_to_le_bytes(o.value)
        + spec_u64_to_le_bytes(o.blinding_factor)) + spec_u64_to_le_bytes(o.pk) + post);
    lemma_parse_u64_after(
        pre + spec_note_bytes(o.note) + spec_u64_to_le_bytes(o.value) + spec_u64_to_le_bytes(
            o.blinding_factor,
        ),
        o.pk,
        post,
    );
}

/// The head of an encoding parses back: the proof count, every proof slot,
/// the input count and the input slot scalars.
#[verifier::rlimit(100)]
#[verifier::spinoff_prover]
proof fn lemma_encode_parses_head(v: TransactionView)
    requires
        v.proofs.len() <= MAX_PROOFS_PER_TRANSACTION,
    ensures
        ({
            let e = spec_encode(v);
            &&& spec_parse_u64(e, 0) == v.proofs.len() as u64
            &&& forall|i: int|
                0 <= i < v.proofs.len() ==> spec_parse_scalar(e, 8 + 32 * i)
                    == v.proofs[i].digest
            &&& spec_parse_u64(e, 104) == v.inputs.len() as u64
            &&& v.inputs.len() >= 1 ==> spec_parse_scalar(e, 112) == v.inputs[0].merkle_root
                && spec_parse_scalar(e, 144) == v.inputs[0].nullifier
        }),
{
    vstd::bytes::lemma_auto_spec_u64_to_from_le_bytes();
    let e = spec_encode(v);
    lemma_encode_len(v);
    let seg_pc = spec_u64_to_le_bytes(v.proofs.len() as u64);
    let seg_p0 = spec_proof_slot_bytes(v.proofs, 0);
    let seg_p1 = spec_proof_slot_bytes(v.proofs, 1);
    let seg_p2 = spec_proof_slot_bytes(v.proofs, 2);
    let seg_ic = spec_u64_to_le_bytes(v.inputs.len() as u64);
    let seg_slot = spec_input_slot_bytes(v.inputs);
    let seg_cross = spec_opt_block_bytes(v.crossover);
    let seg_contract = spec_opt_block_bytes(v.contract_output);
    let seg_oc = spec_u64_to_le_bytes(v.outputs.len() as u64);
    let seg_out0 = spec_output_slot_bytes(v.outputs, 0);
    let seg_out1 = spec_output_slot_bytes(v.outputs, 1);
    let seg_fee = spec_output_bytes(v.fee);
    lemma_proof_slot_bytes_len(v.proofs, 0);
    lemma_proof_slot_bytes_len(v.proofs, 1);
    lemma_proof_slot_bytes_len(v.proofs, 2);
    lemma_input_slot_bytes_len(v.inputs);
    lemma_opt_block_bytes_len(v.crossover);
    lemma_opt_block_bytes_len(v.contract_output);
    lemma_output_bytes_len(spec_output_slot(v.outputs, 0));
    lemma_output_bytes_len(spec_output_slot(v.outputs, 1));
    lemma_output_bytes_len(v.fee);

    // the proof count
    assert(e =~= Seq::<u8>::empty() + seg_pc + (seg_p0 + seg_p1 + seg_p2 + seg_ic + seg_slot
        + seg_cross + seg_contract + seg_oc + seg_out0 + seg_out1 + seg_fee));
    lemma_parse_u64_after(
        Seq::<u8>::empty(),
        v.proofs.len() as u64,
        seg_p0 + seg_p1 + seg_p2 + seg_ic + seg_slot + seg_cross + seg_contract + seg_oc + seg_out0
            + seg_out1 + seg_fee,
    );
    assert(Seq::<u8>::empty().len() == 0);
    assert(spec_parse_u64(e, 0) == v.proofs.len() as u64);

    // the proof slots
    if v.proofs.len() >= 1 {
        assert(e =~= seg_pc + v.proofs[0].digest.spec_bytes() + (seg_p1 + seg_p2 + seg_ic
            + seg_slot + seg_cross + seg_contract + seg_oc + seg_out0 + seg_out1 + seg_fee));
        lemma_parse_scalar_after(
            seg_pc,
            v.proofs[0].digest,
            seg_p1 + seg_p2 + seg_ic + seg_slot + seg_cross + seg_contract + seg_oc + seg_out0
                + seg_out1 + seg_fee,
        );
    }
    if v.proofs.len() >= 2 {
        assert(e =~= (seg_pc + seg_p0) + v.proofs[1].digest.spec_bytes() + (seg_p2 + seg_ic
            + seg_slot + seg_cross + seg_contract + seg_oc + seg_out0 + seg_out1 + seg_fee));
        lemma_parse_scalar_after(
            seg_pc + seg_p0,
            v.proofs[1].digest,
            seg_p2 + seg_ic + seg_slot + seg_cross + seg_contract + seg_oc + seg_out0 + seg_out1
                + seg_fee,
        );
    }
    if v.proofs.len() >= 3 {
        assert(e =~= (seg_pc + seg_p0 + seg_p1) + v.proofs[2].digest.spec_bytes() + (seg_ic
            + seg_slot + seg_cross + seg_contract + seg_oc + seg_out0 + seg_out1 + seg_fee));
        lemma_parse_scalar_after(
            seg_pc + seg_p0 + seg_p1,
            v.proofs[2].digest,
            seg_ic + seg_slot + seg_cross + seg_contract + seg_oc + seg_out0 + seg_out1 + seg_fee,
        );
    }

    // the input count and the input slot
    assert(e =~= (seg_pc + seg_p0 + seg_p1 + seg_p2) + seg_ic + (seg_slot + seg_cross
        + seg_contract + seg_oc + seg_out0 + seg_out1 + seg_fee));
    lemma_parse_u64_after(
        seg_pc + seg_p0 + seg_p1 + seg_p2,
        v.inputs.len() as u64,
        seg_slot + seg_cross + seg_contract + seg_oc + seg_out0 + seg_out1 + seg_fee,
    );
    assert(spec_parse_u64(e, 104) == v.inputs.len() as u64);
    if v.inputs.len() >= 1 {
        let slot_root = v.inputs[0].merkle_root;
        let slot_null = v.inputs[0].nullifier;
        lemma_scalar_bytes_len(slot_root);
        lemma_scalar_bytes_len(slot_null);
        assert(e =~= (seg_pc + seg_p0 + seg_p1 + seg_p2 + seg_ic) + slot_root.spec_bytes() + (
        slot_null.spec_bytes() + seg_cross + seg_contract + seg_oc + seg_out0 + seg_out1
            + seg_fee));
        lemma_parse_scalar_after(
            seg_pc + seg_p0 + seg_p1 + seg_p2 + seg_ic,
            slot_root,
            slot_null.spec_bytes() + seg_cross + seg_contract + seg_oc + seg_out0 + seg_out1
                + seg_fee,
        );
        assert(e =~= (seg_pc + seg_p0 + seg_p1 + seg_p2 + seg_ic + slot_root.spec_bytes())
            + slot_null.spec_bytes() + (seg_cross + seg_contract + seg_oc + seg_out0 + seg_out1
            + seg_fee));
        lemma_parse_scalar_after(
            seg_pc + seg_p0 + seg_p1 + seg_p2 + seg_ic + slot_root.spec_bytes(),
            slot_null,
            seg_cross + seg_contract + seg_oc + seg_out0 + seg_out1 + seg_fee,
        );
        assert(spec_parse_scalar(e, 112) == slot_root);
        assert(spec_parse_scalar(e, 144) == slot_null);
    }
}

/// The tail of an encoding parses back: the presence bytes, the optional
/// outputs, the output count, the two output slots and the fee.
#[verifier::rlimit(100)]
#[verifier::spinoff_prover]
proof fn lemma_encode_parses_tail(v: TransactionView)
    ensures
        ({
            let e = spec_encode(v);
            &&& e[176] == (if v.crossover is Some {
                1u8
            } else {
                0u8
            })
            &&& (v.crossover matches Some(c) ==> spec_parse_output(e, 177) == Some(c))
            &&& e[266] == (if v.contract_output is Some {
                1u8
            } else {
                0u8
            })
            &&& (v.contract_output matches Some(c) ==> spec_parse_output(e, 267) == Some(c))
            &&& spec_parse_u64(e, 356) == v.outputs.len() as u64
            &&& spec_parse_output(e, 364) == Some(spec_output_slot(v.outputs, 0))
            &&& spec_parse_output(e, 453) == Some(spec_output_slot(v.outputs, 1))
            &&& spec_parse_output(e, 542) == Some(v.fee)
        }),
{
    vstd::bytes::lemma_auto_spec_u64_to_from_le_bytes();
    let e = spec_encode(v);
    lemma_encode_len(v);
    let seg_pc = spec_u64_to_le_bytes(v.proofs.len() as u64);
    let seg_p0 = spec_proof_slot_bytes(v.proofs, 0);
    let seg_p1 = spec_proof_slot_bytes(v.proofs, 1);
    let seg_p2 = spec_proof_slot_bytes(v.proofs, 2);
    let seg_ic = spec_u64_to_le_bytes(v.inputs.len() as u64);
    let seg_slot = spec_input_slot_bytes(v.inputs);
    let seg_cross = spec_opt_block_bytes(v.crossover);
    let seg_contract = spec_opt_block_bytes(v.contract_output);
    let seg_oc = spec_u64_to_le_bytes(v.outputs.len() as u64);
    let seg_out0 = spec_output_slot_bytes(v.outputs, 0);
    let seg_out1 = spec_output_slot_bytes(v.outputs, 1);
    let seg_fee = spec_output_bytes(v.fee);
    lemma_proof_slot_bytes_len(v.proofs, 0);
    lemma_proof_slot_bytes_len(v.proofs, 1);
    lemma_proof_slot_bytes_len(v.proofs, 2);
    lemma_input_slot_bytes_len(v.inputs);
    lemma_opt_block_bytes_len(v.crossover);
    lemma_opt_block_bytes_len(v.contract_output);
    lemma_output_bytes_len(spec_output_slot(v.outputs, 0));
    lemma_output_bytes_len(spec_output_slot(v.outputs, 1));
    lemma_output_bytes_len(v.fee);
    lemma_output_bytes_len(TransactionOutput::spec_default());

    // the crossover presence byte and block
    let pre_cross = seg_pc + seg_p0 + seg_p1 + seg_p2 + seg_ic + seg_slot;
    assert(pre_cross.len() == 176);
    assert(e =~= pre_cross + seg_cross + (seg_contract + seg_oc + seg_out0 + seg_out1 + seg_fee));
    match v.crossover {
        None => {
            assert(e[176] == 0);
        },
        Some(c) => {
            assert(e[176] == 1);
            assert(e =~= (pre_cross + seq![1u8]) + spec_output_bytes(c) + (seg_contract + seg_oc
                + seg_out0 + seg_out1 + seg_fee));
            lemma_parse_output_after(
                pre_cross + seq![1u8],
                c,
                seg_contract + seg_oc + seg_out0 + seg_out1 + seg_fee,
            );
            assert(spec_parse_output(e, 177) == Some(c));
        },
    }

    // the contract presence byte and block
    let pre_contract = pre_cross + seg_cross;
    assert(pre_contract.len() == 266);
    assert(e =~= pre_contract + seg_contract + (seg_oc + seg_out0 + seg_out1 + seg_fee));
    match v.contract_output {
        None => {
            assert(e[266] == 0);
        },
        Some(c) => {
            assert(e[266] == 1);
            assert(e =~= (pre_contract + seq![1u8]) + spec_output_bytes(c) + (seg_oc + seg_out0
                + seg_out1 + seg_fee));
            lemma_parse_output_after(pre_contract + seq![1u8], c, seg_oc + seg_out0 + seg_out1 + seg_fee);
            assert(spec_parse_output(e, 267) == Some(c));
        },
    }

    // the output count and the three trailing outputs
    let pre_oc = pre_contract + seg_contract;
    assert(pre_oc.len() == 356);
    assert(e =~= pre_oc + seg_oc + (seg_out0 + seg_out1 + seg_fee));
    lemma_parse_u64_after(pre_oc, v.outputs.len() as u64, seg_out0 + seg_out1 + seg_fee);
    assert(spec_parse_u64(e, 356) == v.outputs.len() as u64);
    let out0 = spec_output_slot(v.outputs, 0);
    let out1 = spec_output_slot(v.outputs, 1);
    assert(e =~= (pre_oc + seg_oc) + spec_output_bytes(out0) + (seg_out1 + seg_fee));
    lemma_parse_output_after(pre_oc + seg_oc, out0, seg_out1 + seg_fee);
    assert(spec_parse_output(e, 364) == Some(out0));
    assert(e =~= (pre_oc + seg_oc + seg_out0) + spec_output_bytes(out1) + seg_fee);
    lemma_parse_output_after(pre_oc + seg_oc + seg_out0, out1, seg_fee);
    assert(spec_parse_output(e, 453) == Some(out1));
    assert(e =~= (pre_oc + seg_oc + seg_out0 + seg_out1) + spec_output_bytes(v.fee)
        + Seq::<u8>::empty());
    lemma_parse_output_after(pre_oc + seg_oc + seg_out0 + seg_out1, v.fee, Seq::<u8>::empty());
    assert(spec_parse_output(e, 542) == Some(v.fee));
}

/// Law: the codec round-trips. Decoding the encoding of any well-formed
/// transaction reproduces every field except the secret material, which the
/// encoder must already have cleared, and except the input slots, which come
/// back in the opaque (root, nullifier) form; the public inputs start empty
/// on the decoded side.
#[verifier::rlimit(100)]
#[verifier::spinoff_prover]
pub proof fn lemma_codec_roundtrip(t: TransactionView)
    requires
        t.wf(),
        t.proofs.len() <= MAX_PROOFS_PER_TRANSACTION,
    ensures
        spec_decode(spec_encode(t.spec_cleared())) == Some(spec_wire_form(t)),
{
    let v = t.spec_cleared();
    let e = spec_encode(v);
    lemma_encode_len(v);
    lemma_encode_parses_head(v);
    lemma_encode_parses_tail(v);
    let p = v.proofs.len() as int;
    assert((v.proofs.len() as u64) as int == p);
    assert(Seq::new(p as nat, |i: int| Proof { digest: spec_parse_scalar(e, 8 + 32 * i) })
        =~= v.proofs);
    let decoded = spec_decode(e);
    assert(decoded is Some);
    assert(decoded->Some_0 =~= spec_wire_form(t)) by {
        assert(v.outputs =~= t.outputs.map_values(|o: TransactionOutput| o.spec_cleared()));
        if t.outputs.len() >= 1 {
            assert(v.outputs[0] == t.outputs[0].spec_cleared());
        }
        if t.outputs.len() >= 2 {
            assert(v.outputs[1] == t.outputs[1].spec_cleared());
        }
        if t.inputs.len() >= 1 {
            assert(v.inputs[0] == t.inputs[0].spec_cleared());
        }
    }
}

/// Read the word at `off`.
fn read_u64(bytes: &Vec<u8>, off: usize) -> (r: u64)
    requires
        off + 8 <= bytes@.len(),
    ensures
        r == spec_parse_u64(bytes@, off as int),
{
    let total = bytes.len();
    proof {
        assert(off + 8 <= total);
    }
    let s = slice_subrange(bytes.as_slice(), off, off + 8);
    u64_from_le_bytes(s)
}

/// Read the scalar at `off`.
fn read_scalar(bytes: &Vec<u8>, off: usize) -> (r: Scalar)
    requires
        off + 32 <= bytes@.len(),
    ensures
        r == spec_parse_scalar(bytes@, off as int),
{
    let total = bytes.len();
    proof {
        assert(off + 32 <= total);
    }
    let w0 = read_u64(bytes, off);
    let w1 = read_u64(bytes, off + 8);
    let w2 = read_u64(bytes, off + 16);
    let w3 = read_u64(bytes, off + 24);
    proof {
        let sub = bytes@.subrange(off as int, off + 32);
        assert(sub.subrange(0, 8) =~= bytes@.subrange(off as int, off + 8));
        assert(sub.subrange(8, 16) =~= bytes@.subrange(off + 8, off + 16));
        assert(sub.subrange(16, 24) =~= bytes@.subrange(off + 16, off + 24));
        assert(sub.subrange(24, 32) =~= bytes@.subrange(off + 24, off + 32));
    }
    Scalar { w0, w1, w2, w3 }
}

/// Read the note at `off`.
fn read_note(bytes: &Vec<u8>, off: usize) -> (r: Option<NoteVariant>)
    requires
        off + 65 <= bytes@.len(),
    ensures
        r == spec_parse_note(bytes@, off as int),
{
    let total = bytes.len();
    proof {
        assert(off + 65 <= total);
    }
    let kind = bytes[off];
    let idx = read_u64(bytes, off + 1);
    let pk = read_u64(bytes, off + 9);
    let value = read_u64(bytes, off + 17);
    let blinding = read_u64(bytes, off + 25);
    let commitment = read_scalar(bytes, off + 33);
    if kind == 0 {
        Some(NoteVariant::Transparent(TransparentNote { idx, pk, value }))
    } else if kind == 1 {
        Some(NoteVariant::Obfuscated(ObfuscatedNote { idx, pk, commitment, value, blinding }))
    } else {
        None
    }
}

/// Read the output at `off`.
fn read_output(bytes: &Vec<u8>, off: usize) -> (r: Option<TransactionOutput>)
    requires
        off + 89 <= bytes@.len(),
    ensures
        r == spec_parse_output(bytes@, off as int),
{
    let total = bytes.len();
    proof {
        assert(off + 89 <= total);
    }
    let note = match read_note(bytes, off) {
        Some(n) => n,
        None => {
            return None;
        },
    };
    let value = read_u64(bytes, off + 65);
    let blinding_factor = read_u64(bytes, off + 73);
    let pk = read_u64(bytes, off + 81);
    Some(TransactionOutput { note, value, blinding_factor, pk })
}

/// Append the word encoding of `x`.
fn write_u64(out: &mut Vec<u8>, x: u64)
    ensures
        final(out)@ == old(out)@ + spec_u64_to_le_bytes(x),
{
    let mut b = u64_to_le_bytes(x);
    out.append(&mut b);
}

/// Append the scalar encoding of `sc`.
fn write_scalar(out: &mut Vec<u8>, sc: &Scalar)
    ensures
        final(out)@ == old(out)@ + sc.spec_bytes(),
{
    let mut b = sc.to_bytes();
    out.append(&mut b);
}

/// Append the note encoding of `n`.
fn write_note(out: &mut Vec<u8>, n: &NoteVariant)
    ensures
        final(out)@ == old(out)@ + spec_note_bytes(*n),
{
    match n {
        NoteVariant::Transparent(t) => {
            out.push(0);
            write_u64(out, t.idx);
            write_u64(out, t.pk);
            write_u64(out, t.value);
            write_u64(out, 0);
            let zero = Scalar::zero();
            write_scalar(out, &zero);
            proof {
                assert(final(out)@ =~= old(out)@ + spec_note_bytes(*n));
            }
        },
        NoteVariant::Obfuscated(o) => {
            out.push(1);
            write_u64(out, o.idx);
            write_u64(out, o.pk);
            write_u64(out, o.value);
            write_u64(out, o.blinding);
            write_scalar(out, &o.commitment);
            proof {
                assert(final(out)@ =~= old(out)@ + spec_note_bytes(*n));
            }
        },
    }
}

/// Append the output encoding of `o`.
fn write_output(out: &mut Vec<u8>, o: &TransactionOutput)
    ensures
        final(out)@ == old(out)@ + spec_output_bytes(*o),
{
    write_note(out, &o.note);
    write_u64(out, o.value);
    write_u64(out, o.blinding_factor);
    write_u64(out, o.pk);
    proof {
        assert(final(out)@ =~= old(out)@ + spec_output_bytes(*o));
    }
}

/// Append a presence byte and the reserved output block.
fn write_opt_block(out: &mut Vec<u8>, o: &Option<TransactionOutput>)
    ensures
        final(out)@ == old(out)@ + spec_opt_block_bytes(*o),
{
    match o {
        None => {
            out.push(0);
            let d = TransactionOutput::default();
            write_output(out, &d);
            proof {
                assert(final(out)@ =~= old(out)@ + spec_opt_block_bytes(*o));
            }
        },
        Some(output) => {
            out.push(1);
            write_output(out, output);
            proof {
                assert(final(out)@ =~= old(out)@ + spec_opt_block_bytes(*o));
            }
        },
    }
}

impl Transaction {
    /// Serialize this transaction for transport or storage: always exactly
    /// [`TX_SERIALIZED_SIZE`] bytes, whatever is populated.
    ///
    /// The secret material of every input and output item is cleared first:
    /// the encode path never leaks it. The wire format reserves
    /// [`MAX_PROOFS_PER_TRANSACTION`] proof slots, so a transaction carrying
    /// more proofs cannot be serialized.
    #[verifier::rlimit(100)]
    #[verifier::spinoff_prover]
    pub fn to_bytes(&mut self) -> (r: Vec<u8>)
        requires
            old(self)@.wf(),
            old(self)@.proofs.len() <= MAX_PROOFS_PER_TRANSACTION,
        ensures
            final(self)@ == old(self)@.spec_cleared(),
            r@ == spec_encode(old(self)@.spec_cleared()),
            r@.len() == TX_SERIALIZED_SIZE,
    {
        self.clear_sensitive_info();
        let ghost v = old(self)@.spec_cleared();
        let mut out: Vec<u8> = Vec::new();
        write_u64(&mut out, self.proofs.len() as u64);
        proof {
            assert(out@ =~= spec_u64_to_le_bytes(v.proofs.len() as u64));
        }
        let zero = Scalar::zero();
        if self.proofs.len() >= 1 {
            let d = self.proofs[0].digest;
            write_scalar(&mut out, &d);
        } else {
            write_scalar(&mut out, &zero);
        }
        proof {
            assert(out@ =~= spec_u64_to_le_bytes(v.proofs.len() as u64) + spec_proof_slot_bytes(
                v.proofs,
                0,
            ));
        }
        if self.proofs.len() >= 2 {
            let d = self.proofs[1].digest;
            write_scalar(&mut out, &d);
        } else {
            write_scalar(&mut out, &zero);
        }
        if self.proofs.len() >= 3 {
            let d = self.proofs[2].digest;
            write_scalar(&mut out, &d);
        } else {
            write_scalar(&mut out, &zero);
        }
        proof {
            assert(out@ =~= spec_u64_to_le_bytes(v.proofs.len() as u64) + spec_proof_slot_bytes(
                v.proofs,
                0,
            ) + spec_proof_slot_bytes(v.proofs, 1) + spec_proof_slot_bytes(v.proofs, 2));
        }
        let ghost head = out@;
        write_u64(&mut out, self.inputs.len() as u64);
        if self.inputs.len() >= 1 {
            let root = self.inputs[0].merkle_root;
            let nullifier = self.inputs[0].nullifier;
            write_scalar(&mut out, &root);
            write_scalar(&mut out, &nullifier);
        } else {
            write_scalar(&mut out, &zero);
            write_scalar(&mut out, &zero);
        }
        proof {
            assert(out@ =~= head + spec_u64_to_le_bytes(v.inputs.len() as u64)
                + spec_input_slot_bytes(v.inputs));
        }
        write_opt_block(&mut out, &self.crossover);
        write_opt_block(&mut out, &self.contract_output);
        proof {
            assert(out@ =~= head + spec_u64_to_le_bytes(v.inputs.len() as u64)
                + spec_input_slot_bytes(v.inputs) + spec_opt_block_bytes(v.crossover)
                + spec_opt_block_bytes(v.contract_output));
        }
        let ghost mid = out@;
        write_u64(&mut out, self.outputs.len() as u64);
        if self.outputs.len() >= 1 {
            let o = self.outputs[0];
            write_output(&mut out, &o);
        } else {
            let d = TransactionOutput::default();
            write_output(&mut out, &d);
        }
        proof {
            assert(out@ =~= mid + spec_u64_to_le_bytes(v.outputs.len() as u64)
                + spec_output_slot_bytes(v.outputs, 0));
        }
        if self.outputs.len() >= 2 {
            let o = self.outputs[1];
            write_output(&mut out, &o);
        } else {
            let d = TransactionOutput::default();
            write_output(&mut out, &d);
        }
        let fee = self.fee;
        write_output(&mut out, &fee);
        proof {
            assert(out@ =~= mid + spec_u64_to_le_bytes(v.outputs.len() as u64)
                + spec_output_slot_bytes(v.outputs, 0) + spec_output_slot_bytes(v.outputs, 1)
                + spec_output_bytes(v.fee));
            assert(out@ =~= spec_encode(v));
            lemma_encode_len(v);
        }
        out
    }

    /// Decode a transaction from its wire bytes, rejecting malformed input
    /// with a parameter error: decoding succeeds exactly on the byte
    /// sequences the mirror of the encoder accepts.
    pub fn from_bytes(bytes: &Vec<u8>) -> (r: Result<Transaction, Error>)
        ensures
            spec_decode(bytes@) is Some ==> (r matches Ok(t) && t@ == spec_decode(bytes@)->Some_0
                && t@.wf()),
            spec_decode(bytes@) is None ==> r == Err::<Transaction, Error>(
                Error::InvalidParameters,
            ),
    {
        let n = bytes.len();
        if n < TX_SERIALIZED_SIZE {
            return Err(Error::InvalidParameters);
        }
        let p = read_u64(bytes, 0);
        if p > MAX_PROOFS_PER_TRANSACTION as u64 {
            return Err(Error::InvalidParameters);
        }
        let mut proofs: Vec<Proof> = Vec::new();
        if p >= 1 {
            proofs.push(Proof { digest: read_scalar(bytes, 8) });
        }
        if p >= 2 {
            proofs.push(Proof { digest: read_scalar(bytes, 40) });
        }
        if p >= 3 {
            proofs.push(Proof { digest: read_scalar(bytes, 72) });
        }
        proof {
            assert(proofs@ =~= Seq::new(
                p as nat,
                |i: int| Proof { digest: spec_parse_scalar(bytes@, 8 + 32 * i) },
            ));
        }
        let ic = read_u64(bytes, 104);
        if ic > 1 {
            return Err(Error::InvalidParameters);
        }
        let root = read_scalar(bytes, 112);
        let nullifier = read_scalar(bytes, 144);
        let mut inputs: Vec<TransactionInput> = Vec::new();
        if ic == 1 {
            inputs.push(TransactionInput::obfuscated(nullifier, root));
        }
        let crossover = if bytes[176] != 0 {
            match read_output(bytes, 177) {
                Some(o) => Some(o),
                None => {
                    return Err(Error::InvalidParameters);
                },
            }
        } else {
            None
        };
        let contract_output = if bytes[266] != 0 {
            match read_output(bytes, 267) {
                Some(o) => Some(o),
                None => {
                    return Err(Error::InvalidParameters);
                },
            }
        } else {
            None
        };
        let oc = read_u64(bytes, 356);
        if oc > 2 {
            return Err(Error::InvalidParameters);
        }
        let out0 = match read_output(bytes, 364) {
            Some(o) => o,
            None => {
                return Err(Error::InvalidParameters);
            },
        };
        let out1 = match read_output(bytes, 453) {
            Some(o) => o,
            None => {
                return Err(Error::InvalidParameters);
            },
        };
        let fee = match read_output(bytes, 542) {
            Some(o) => o,
            None => {
                return Err(Error::InvalidParameters);
            },
        };
        let mut outputs: Vec<TransactionOutput> = Vec::new();
        if oc >= 1 {
            outputs.push(out0);
        }
        if oc == 2 {
            outputs.push(out1);
        }
        let t = Transaction {
            inputs,
            outputs,
            crossover,
            contract_output,
            fee,
            proofs,
            public_inputs: Vec::new(),
        };
        proof {
            assert(t@ =~= spec_decode(bytes@)->Some_0);
        }
        Ok(t)
    }
}

} // verus!
