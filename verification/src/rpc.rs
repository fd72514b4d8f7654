//! The RPC conversion surface: the external wire-message schema and the
//! bidirectional, field-by-field validated mapping between it and the
//! transaction type.
//!
//! Each sub-message is validated independently; the conversion fails fast
//! with a parameter error on the first malformed field, and with the fee
//! error when the mandatory fee is absent.
use vstd::prelude::*;
use crate::Error;
use crate::scalar::Scalar;
use crate::note::{NoteVariant, TransparentNote, ObfuscatedNote};
use crate::item::{TransactionInput, TransactionOutput};
use crate::zk::Proof;
use crate::transaction::{Transaction, TransactionView};
use crate::db::Db;

verus! {

/// A transaction input as the message schema carries it: the position of
/// the spent note in the ledger, and the opaque wire fields.
pub struct RpcTransactionInput {
    /// Position of the spent note in the ledger store.
    pub pos: u64,
    /// The Merkle root scalar, as 32 little-endian bytes.
    pub merkle_root: Vec<u8>,
    /// The nullifier scalar, as 32 little-endian bytes.
    pub nullifier: Vec<u8>,
}

/// The mathematical image of an RPC input message.
pub struct RpcInputView {
    /// Position of the spent note.
    pub pos: u64,
    /// The Merkle root bytes.
    pub merkle_root: Seq<u8>,
    /// The nullifier bytes.
    pub nullifier: Seq<u8>,
}

impl View for RpcTransactionInput {
    type V = RpcInputView;

    open spec fn view(&self) -> RpcInputView {
        RpcInputView { pos: self.pos, merkle_root: self.merkle_root@, nullifier: self.nullifier@ }
    }
}

/// A transaction output as the message schema carries it, its note
/// flattened into plain fields.
pub struct RpcTransactionOutput {
    /// The note kind: 0 transparent, 1 obfuscated.
    pub kind: u32,
    /// The note's stamped position.
    pub idx: u64,
    /// The recipient's public key.
    pub pk: u64,
    /// The value carried by the output.
    pub value: u64,
    /// The blinding factor.
    pub blinding_factor: u64,
    /// The value commitment, as 32 little-endian bytes; ignored for a
    /// transparent note.
    pub commitment: Vec<u8>,
}

/// The mathematical image of an RPC output message.
pub struct RpcOutputView {
    /// The note kind.
    pub kind: u32,
    /// The note's stamped position.
    pub idx: u64,
    /// The recipient's public key.
    pub pk: u64,
    /// The value carried.
    pub value: u64,
    /// The blinding factor.
    pub blinding_factor: u64,
    /// The commitment bytes.
    pub commitment: Seq<u8>,
}

impl View for RpcTransactionOutput {
    type V = RpcOutputView;

    open spec fn view(&self) -> RpcOutputView {
        RpcOutputView {
            kind: self.kind,
            idx: self.idx,
            pk: self.pk,
            value: self.value,
            blinding_factor: self.blinding_factor,
            commitment: self.commitment@,
        }
    }
}

/// A transaction as the message schema carries it.
pub struct RpcTransaction {
    /// The input messages.
    pub inputs: Vec<RpcTransactionInput>,
    /// The output messages.
    pub outputs: Vec<RpcTransactionOutput>,
    /// The mandatory fee output; its absence is an error on decode.
    pub fee: Option<RpcTransactionOutput>,
    /// The optional crossover output.
    pub crossover: Option<RpcTransactionOutput>,
    /// The optional contract output.
    pub contract_output: Option<RpcTransactionOutput>,
    /// The serialized proofs.
    pub proofs: Vec<Vec<u8>>,
    /// Opaque auxiliary data, carried through untouched.
    pub data: Vec<u8>,
}

/// The input a well-formed RPC input message converts to: the opaque
/// (root, nullifier) form, or nothing when a scalar field has the wrong
/// width.
pub open spec fn spec_input_from_rpc(i: RpcInputView) -> Option<TransactionInput> {
    if i.merkle_root.len() == 32 && i.nullifier.len() == 32 {
        Some(
            TransactionInput::spec_obfuscated(
                Scalar::spec_from_bytes(i.nullifier),
                Scalar::spec_from_bytes(i.merkle_root),
            ),
        )
    } else {
        None
    }
}

/// The output a well-formed RPC output message converts to, or nothing on
/// an unknown kind or a malformed commitment.
pub open spec fn spec_output_from_rpc(o: RpcOutputView) -> Option<TransactionOutput> {
    if o.kind == 0 {
        Some(
            TransactionOutput {
                note: NoteVariant::Transparent(
                    TransparentNote { idx: o.idx, pk: o.pk, value: o.value },
                ),
                value: o.value,
                blinding_factor: o.blinding_factor,
                pk: o.pk,
            },
        )
    } else if o.kind == 1 && o.commitment.len() == 32 {
        Some(
            TransactionOutput {
                note: NoteVariant::Obfuscated(
                    ObfuscatedNote {
                        idx: o.idx,
                        pk: o.pk,
                        commitment: Scalar::spec_from_bytes(o.commitment),
                        value: o.value,
                        blinding: o.blinding_factor,
                    },
                ),
                value: o.value,
                blinding_factor: o.blinding_factor,
                pk: o.pk,
            },
        )
    } else {
        None
    }
}

/// The proof a serialized proof field converts to, or nothing when it has
/// the wrong width.
pub open spec fn spec_proof_from_rpc(b: Seq<u8>) -> Option<Proof> {
    if b.len() == 32 {
        Some(Proof { digest: Scalar::spec_from_bytes(b) })
    } else {
        None
    }
}

impl TransactionInput {
    /// Convert an RPC input message into the opaque input it denotes,
    /// validating the scalar widths.
    pub fn try_from_rpc(item: &RpcTransactionInput) -> (r: Result<TransactionInput, Error>)
        ensures
            spec_input_from_rpc(item@) matches Some(inp) ==> r == Ok::<TransactionInput, Error>(
                inp,
            ),
            spec_input_from_rpc(item@) is None ==> r == Err::<TransactionInput, Error>(
                Error::InvalidParameters,
            ),
    {
        if item.merkle_root.len() != 32 || item.nullifier.len() != 32 {
            return Err(Error::InvalidParameters);
        }
        let nullifier = read_scalar_vec(&item.nullifier);
        let root = read_scalar_vec(&item.merkle_root);
        Ok(TransactionInput::obfuscated(nullifier, root))
    }

    /// Resolve an RPC input message against the ledger: fetch the spent
    /// note at the given position and derive its spend, with the Merkle
    /// root taken from the message.
    pub fn try_from_rpc_db(db: &Db, item: &RpcTransactionInput) -> (r: Result<
        TransactionInput,
        Error,
    >)
        ensures
            r == spec_input_from_rpc_db(db@, item@),
    {
        let note = match db.fetch_note(item.pos) {
            Ok(n) => n,
            Err(e) => {
                return Err(e);
            },
        };
        if item.merkle_root.len() != 32 {
            return Err(Error::InvalidParameters);
        }
        let root = read_scalar_vec(&item.merkle_root);
        Ok(note.to_transaction_input(root))
    }
}

/// The input an RPC input message resolves to against a ledger: the note at
/// its position with the derived nullifier, a generic error when the
/// position was never assigned, a parameter error on a malformed root.
pub open spec fn spec_input_from_rpc_db(db: crate::db::DbView, i: RpcInputView) -> Result<
    TransactionInput,
    Error,
> {
    if i.pos >= db.notes.len() {
        Err(Error::Generic)
    } else if i.merkle_root.len() != 32 {
        Err(Error::InvalidParameters)
    } else {
        let note = db.notes[i.pos as int];
        Ok(
            TransactionInput {
                note,
                nullifier: note.spec_nullifier(),
                merkle_root: Scalar::spec_from_bytes(i.merkle_root),
            },
        )
    }
}

impl TransactionOutput {
    /// Convert an RPC output message into the output it denotes, validating
    /// the kind and the commitment width.
    pub fn try_from_rpc(item: &RpcTransactionOutput) -> (r: Result<TransactionOutput, Error>)
        ensures
            spec_output_from_rpc(item@) matches Some(out) ==> r == Ok::<TransactionOutput, Error>(
                out,
            ),
            spec_output_from_rpc(item@) is None ==> r == Err::<TransactionOutput, Error>(
                Error::InvalidParameters,
            ),
    {
        if item.kind == 0 {
            let note = NoteVariant::Transparent(
                TransparentNote { idx: item.idx, pk: item.pk, value: item.value },
            );
            Ok(
                TransactionOutput {
                    note,
                    value: item.value,
                    blinding_factor: item.blinding_factor,
                    pk: item.pk,
                },
            )
        } else if item.kind == 1 {
            if item.commitment.len() != 32 {
                return Err(Error::InvalidParameters);
            }
            let commitment = read_scalar_vec(&item.commitment);
            let note = NoteVariant::Obfuscated(
                ObfuscatedNote {
                    idx: item.idx,
                    pk: item.pk,
                    commitment,
                    value: item.value,
                    blinding: item.blinding_factor,
                },
            );
            Ok(
                TransactionOutput {
                    note,
                    value: item.value,
                    blinding_factor: item.blinding_factor,
                    pk: item.pk,
                },
            )
        } else {
            Err(Error::InvalidParameters)
        }
    }

    /// Render this output as an RPC output message.
    pub fn to_rpc(&self) -> (r: RpcTransactionOutput)
        ensures
            r@ == spec_rpc_of_output(*self),
    {
        match self.note {
            NoteVariant::Transparent(t) => RpcTransactionOutput {
                kind: 0,
                idx: t.idx,
                pk: self.pk,
                value: self.value,
                blinding_factor: self.blinding_factor,
                commitment: Scalar::zero().to_bytes(),
            },
            NoteVariant::Obfuscated(o) => RpcTransactionOutput {
                kind: 1,
                idx: o.idx,
                pk: self.pk,
                value: self.value,
                blinding_factor: self.blinding_factor,
                commitment: o.commitment.to_bytes(),
            },
        }
    }
}

/// The RPC output message an output renders to.
pub open spec fn spec_rpc_of_output(o: TransactionOutput) -> RpcOutputView {
    match o.note {
        NoteVariant::Transparent(t) => RpcOutputView {
            kind: 0,
            idx: t.idx,
            pk: o.pk,
            value: o.value,
            blinding_factor: o.blinding_factor,
            commitment: Scalar::spec_zero().spec_bytes(),
        },
        NoteVariant::Obfuscated(ob) => RpcOutputView {
            kind: 1,
            idx: ob.idx,
            pk: o.pk,
            value: o.value,
            blinding_factor: o.blinding_factor,
            commitment: ob.commitment.spec_bytes(),
        },
    }
}

/// The RPC input message an input renders to.
pub open spec fn spec_rpc_of_input(i: TransactionInput) -> RpcInputView {
    RpcInputView {
        pos: i.note.spec_idx(),
        merkle_root: i.merkle_root.spec_bytes(),
        nullifier: i.nullifier.spec_bytes(),
    }
}

/// Read a scalar from a 32-byte vector.
fn read_scalar_vec(bytes: &Vec<u8>) -> (r: Scalar)
    requires
        bytes@.len() == 32,
    ensures
        r == Scalar::spec_from_bytes(bytes@),
{
    let w0 = vstd::bytes::u64_from_le_bytes(vstd::slice::slice_subrange(bytes.as_slice(), 0, 8));
    let w1 = vstd::bytes::u64_from_le_bytes(vstd::slice::slice_subrange(bytes.as_slice(), 8, 16));
    let w2 = vstd::bytes::u64_from_le_bytes(vstd::slice::slice_subrange(bytes.as_slice(), 16, 24));
    let w3 = vstd::bytes::u64_from_le_bytes(vstd::slice::slice_subrange(bytes.as_slice(), 24, 32));
    Scalar { w0, w1, w2, w3 }
}

/// The transaction a whole RPC message converts to, or the error of its
/// first malformed field: the fee is taken first (its absence is the fee
/// error), then every input, every output, the optional outputs, and the
/// proofs, each capacity-checked as it is pushed.
pub open spec fn spec_tx_from_rpc(
    inputs: Seq<RpcInputView>,
    outputs: Seq<RpcOutputView>,
    fee: Option<RpcOutputView>,
    crossover: Option<RpcOutputView>,
    contract_output: Option<RpcOutputView>,
    proofs: Seq<Seq<u8>>,
) -> Result<TransactionView, Error> {
    match fee {
        None => Err(Error::FeeOutput),
        Some(f) => match spec_output_from_rpc(f) {
            None => Err(Error::InvalidParameters),
            Some(fee_out) => {
                let t0 = TransactionView { fee: fee_out, ..TransactionView::spec_default() };
                match spec_add_inputs(t0, inputs) {
                    Err(e) => Err(e),
                    Ok(t1) => match spec_add_outputs(t1, outputs) {
                        Err(e) => Err(e),
                        Ok(t2) => match spec_add_opt(t2, crossover, true) {
                            Err(e) => Err(e),
                            Ok(t3) => match spec_add_opt(t3, contract_output, false) {
                                Err(e) => Err(e),
                                Ok(t4) => spec_add_proofs(t4, proofs),
                            },
                        },
                    },
                }
            },
        },
    }
}

/// Convert and push a sequence of RPC inputs in order, capacity-checked.
pub open spec fn spec_add_inputs(t: TransactionView, items: Seq<RpcInputView>) -> Result<
    TransactionView,
    Error,
>
    decreases items.len(),
{
    if items.len() == 0 {
        Ok(t)
    } else {
        match spec_add_inputs(t, items.drop_last()) {
            Err(e) => Err(e),
            Ok(t2) => match spec_input_from_rpc(items.last()) {
                None => Err(Error::InvalidParameters),
                Some(inp) => {
                    if t2.inputs.len() < crate::MAX_INPUT_NOTES_PER_TRANSACTION {
                        Ok(TransactionView { inputs: t2.inputs.push(inp), ..t2 })
                    } else {
                        Err(Error::MaximumNotes)
                    }
                },
            },
        }
    }
}

/// Convert and push a sequence of RPC outputs in order, capacity-checked.
pub open spec fn spec_add_outputs(t: TransactionView, items: Seq<RpcOutputView>) -> Result<
    TransactionView,
    Error,
>
    decreases items.len(),
{
    if items.len() == 0 {
        Ok(t)
    } else {
        match spec_add_outputs(t, items.drop_last()) {
            Err(e) => Err(e),
            Ok(t2) => match spec_output_from_rpc(items.last()) {
                None => Err(Error::InvalidParameters),
                Some(out) => {
                    if t2.outputs.len() < crate::MAX_OUTPUT_NOTES_PER_TRANSACTION {
                        Ok(TransactionView { outputs: t2.outputs.push(out), ..t2 })
                    } else {
                        Err(Error::MaximumNotes)
                    }
                },
            },
        }
    }
}

/// Convert and set an optional auxiliary output: the crossover when
/// `is_crossover`, the contract output otherwise.
pub open spec fn spec_add_opt(
    t: TransactionView,
    item: Option<RpcOutputView>,
    is_crossover: bool,
) -> Result<TransactionView, Error> {
    match item {
        None => Ok(t),
        Some(o) => match spec_output_from_rpc(o) {
            None => Err(Error::InvalidParameters),
            Some(out) => {
                if is_crossover {
                    Ok(TransactionView { crossover: Some(out), ..t })
                } else {
                    Ok(TransactionView { contract_output: Some(out), ..t })
                }
            },
        },
    }
}

/// Deserialize and append a sequence of proofs in order.
pub open spec fn spec_add_proofs(t: TransactionView, proofs: Seq<Seq<u8>>) -> Result<
    TransactionView,
    Error,
>
    decreases proofs.len(),
{
    if proofs.len() == 0 {
        Ok(t)
    } else {
        match spec_add_proofs(t, proofs.drop_last()) {
            Err(e) => Err(e),
            Ok(t2) => match spec_proof_from_rpc(proofs.last()) {
                None => Err(Error::InvalidParameters),
                Some(p) => Ok(TransactionView { proofs: t2.proofs.push(p), ..t2 }),
            },
        }
    }
}

/// The sequence of RPC input views a vector of messages denotes.
pub open spec fn spec_rpc_input_views(items: Seq<RpcTransactionInput>) -> Seq<RpcInputView> {
    items.map_values(|i: RpcTransactionInput| i@)
}

/// The sequence of RPC output views a vector of messages denotes.
pub open spec fn spec_rpc_output_views(items: Seq<RpcTransactionOutput>) -> Seq<RpcOutputView> {
    items.map_values(|o: RpcTransactionOutput| o@)
}

/// The view of an optional RPC output message.
pub open spec fn spec_rpc_opt_view(o: Option<RpcTransactionOutput>) -> Option<RpcOutputView> {
    match o {
        None => None,
        Some(x) => Some(x@),
    }
}

/// The sequence of proof byte views a vector of serialized proofs denotes.
pub open spec fn spec_rpc_proof_views(proofs: Seq<Vec<u8>>) -> Seq<Seq<u8>> {
    proofs.map_values(|b: Vec<u8>| b@)
}

impl Transaction {
    /// Attempt to create a transaction from an RPC message, each field
    /// validated independently: the mandatory fee first, then every input,
    /// output, auxiliary output and proof, failing fast on the first bad
    /// field.
    pub fn try_from_rpc(tx: &RpcTransaction) -> (r: Result<Transaction, Error>)
        ensures
            spec_tx_from_rpc(
                spec_rpc_input_views(tx.inputs@),
                spec_rpc_output_views(tx.outputs@),
                spec_rpc_opt_view(tx.fee),
                spec_rpc_opt_view(tx.crossover),
                spec_rpc_opt_view(tx.contract_output),
                spec_rpc_proof_views(tx.proofs@),
            ) matches Ok(v) ==> (r matches Ok(t) && t@ == v),
            spec_tx_from_rpc(
                spec_rpc_input_views(tx.inputs@),
                spec_rpc_output_views(tx.outputs@),
                spec_rpc_opt_view(tx.fee),
                spec_rpc_opt_view(tx.crossover),
                spec_rpc_opt_view(tx.contract_output),
                spec_rpc_proof_views(tx.proofs@),
            ) matches Err(e) ==> r == Err::<Transaction, Error>(e),
    {
        let mut transaction = Transaction::default();
        let fee = match &tx.fee {
            None => {
                return Err(Error::FeeOutput);
            },
            Some(f) => match TransactionOutput::try_from_rpc(f) {
                Ok(out) => out,
                Err(e) => {
                    return Err(e);
                },
            },
        };
        transaction.set_fee(fee);
        let ghost t0 = transaction@;
        let mut i: usize = 0;
        while i < tx.inputs.len()
            invariant
                0 <= i <= tx.inputs@.len(),
                spec_rpc_opt_view(tx.fee) is Some,
                spec_output_from_rpc(spec_rpc_opt_view(tx.fee)->Some_0) is Some,
                t0 == (TransactionView {
                    fee: spec_output_from_rpc(spec_rpc_opt_view(tx.fee)->Some_0)->Some_0,
                    ..TransactionView::spec_default()
                }),
                spec_add_inputs(t0, spec_rpc_input_views(tx.inputs@.take(i as int))) == Ok::<
                    TransactionView,
                    Error,
                >(transaction@),
            decreases tx.inputs@.len() - i,
        {
            let inp = match TransactionInput::try_from_rpc(&tx.inputs[i]) {
                Ok(x) => x,
                Err(e) => {
                    proof {
                        lemma_add_inputs_step(t0, tx.inputs@, i as int);
                        assert(spec_rpc_input_views(tx.inputs@).take(i + 1)
                            =~= spec_rpc_input_views(tx.inputs@.take(i + 1)));
                        assert(spec_add_inputs(
                            t0,
                            spec_rpc_input_views(tx.inputs@).take(i + 1),
                        ) is Err);
                        lemma_add_inputs_err_propagates(
                            t0,
                            spec_rpc_input_views(tx.inputs@),
                            i + 1,
                        );
                    }
                    return Err(e);
                },
            };
            let pushed = transaction.push_input(inp);
            proof {
                lemma_add_inputs_step(t0, tx.inputs@, i as int);
                assert(spec_rpc_input_views(tx.inputs@).take(i + 1) =~= spec_rpc_input_views(
                    tx.inputs@.take(i + 1),
                ));
            }
            match pushed {
                Ok(()) => {},
                Err(e) => {
                    proof {
                        assert(spec_add_inputs(
                            t0,
                            spec_rpc_input_views(tx.inputs@).take(i + 1),
                        ) is Err);
                        lemma_add_inputs_err_propagates(
                            t0,
                            spec_rpc_input_views(tx.inputs@),
                            i + 1,
                        );
                    }
                    return Err(e);
                },
            }
            i = i + 1;
        }
        proof {
            assert(tx.inputs@.take(tx.inputs@.len() as int) =~= tx.inputs@);
        }
        let ghost t1 = transaction@;
        let mut j: usize = 0;
        while j < tx.outputs.len()
            invariant
                0 <= j <= tx.outputs@.len(),
                spec_rpc_opt_view(tx.fee) is Some,
                spec_output_from_rpc(spec_rpc_opt_view(tx.fee)->Some_0) is Some,
                t0 == (TransactionView {
                    fee: spec_output_from_rpc(spec_rpc_opt_view(tx.fee)->Some_0)->Some_0,
                    ..TransactionView::spec_default()
                }),
                spec_add_inputs(t0, spec_rpc_input_views(tx.inputs@)) == Ok::<
                    TransactionView,
                    Error,
                >(t1),
                spec_add_outputs(t1, spec_rpc_output_views(tx.outputs@.take(j as int))) == Ok::<
                    TransactionView,
                    Error,
                >(transaction@),
            decreases tx.outputs@.len() - j,
        {
            let out = match TransactionOutput::try_from_rpc(&tx.outputs[j]) {
                Ok(x) => x,
                Err(e) => {
                    proof {
                        lemma_add_outputs_step(t1, tx.outputs@, j as int);
                        assert(spec_rpc_output_views(tx.outputs@).take(j + 1)
                            =~= spec_rpc_output_views(tx.outputs@.take(j + 1)));
                        assert(spec_add_outputs(
                            t1,
                            spec_rpc_output_views(tx.outputs@).take(j + 1),
                        ) is Err);
                        lemma_add_outputs_err_propagates(
                            t1,
                            spec_rpc_output_views(tx.outputs@),
                            j + 1,
                        );
                    }
                    return Err(e);
                },
            };
            let pushed = transaction.push_output(out);
            proof {
                lemma_add_outputs_step(t1, tx.outputs@, j as int);
                assert(spec_rpc_output_views(tx.outputs@).take(j + 1) =~= spec_rpc_output_views(
                    tx.outputs@.take(j + 1),
                ));
            }
            match pushed {
                Ok(()) => {},
                Err(e) => {
                    proof {
                        assert(spec_add_outputs(
                            t1,
                            spec_rpc_output_views(tx.outputs@).take(j + 1),
                        ) is Err);
                        lemma_add_outputs_err_propagates(
                            t1,
                            spec_rpc_output_views(tx.outputs@),
                            j + 1,
                        );
                    }
                    return Err(e);
                },
            }
            j = j + 1;
        }
        proof {
            assert(tx.outputs@.take(tx.outputs@.len() as int) =~= tx.outputs@);
        }
        let ghost t2 = transaction@;
        match &tx.crossover {
            None => {},
            Some(c) => match TransactionOutput::try_from_rpc(c) {
                Ok(out) => {
                    transaction.set_crossover(out);
                },
                Err(e) => {
                    return Err(e);
                },
            },
        }
        let ghost t2c = transaction@;
        match &tx.contract_output {
            None => {},
            Some(c) => match TransactionOutput::try_from_rpc(c) {
                Ok(out) => {
                    transaction.set_contract_output(out);
                },
                Err(e) => {
                    return Err(e);
                },
            },
        }
        let ghost t3 = transaction@;
        let mut k: usize = 0;
        while k < tx.proofs.len()
            invariant
                0 <= k <= tx.proofs@.len(),
                spec_rpc_opt_view(tx.fee) is Some,
                spec_output_from_rpc(spec_rpc_opt_view(tx.fee)->Some_0) is Some,
                t0 == (TransactionView {
                    fee: spec_output_from_rpc(spec_rpc_opt_view(tx.fee)->Some_0)->Some_0,
                    ..TransactionView::spec_default()
                }),
                spec_add_inputs(t0, spec_rpc_input_views(tx.inputs@)) == Ok::<
                    TransactionView,
                    Error,
                >(t1),
                spec_add_outputs(t1, spec_rpc_output_views(tx.outputs@)) == Ok::<
                    TransactionView,
                    Error,
                >(t2),
                spec_add_opt(t2, spec_rpc_opt_view(tx.crossover), true) == Ok::<
                    TransactionView,
                    Error,
                >(t2c),
                spec_add_opt(t2c, spec_rpc_opt_view(tx.contract_output), false) == Ok::<
                    TransactionView,
                    Error,
                >(t3),
                spec_add_proofs(t3, spec_rpc_proof_views(tx.proofs@.take(k as int))) == Ok::<
                    TransactionView,
                    Error,
                >(transaction@),
            decreases tx.proofs@.len() - k,
        {
            if tx.proofs[k].len() != 32 {
                proof {
                    lemma_add_proofs_step(t3, tx.proofs@, k + 0);
                    assert(spec_rpc_proof_views(tx.proofs@).take(k + 1) =~= spec_rpc_proof_views(
                        tx.proofs@.take(k + 1),
                    ));
                    assert(spec_add_proofs(
                        t3,
                        spec_rpc_proof_views(tx.proofs@).take(k + 1),
                    ) is Err);
                    lemma_add_proofs_err_propagates(t3, spec_rpc_proof_views(tx.proofs@), k + 1);
                }
                return Err(Error::InvalidParameters);
            }
            let digest = read_scalar_vec(&tx.proofs[k]);
            transaction.add_proof(Proof { digest });
            proof {
                lemma_add_proofs_step(t3, tx.proofs@, k as int);
            }
            k = k + 1;
        }
        proof {
            assert(tx.proofs@.take(tx.proofs@.len() as int) =~= tx.proofs@);
        }
        Ok(transaction)
    }

    /// Render this transaction as an RPC message. Inputs and outputs whose
    /// value is zero are dropped; the proofs are serialized in order; the
    /// auxiliary data field is left empty.
    pub fn to_rpc(&self) -> (r: RpcTransaction)
        requires
            self@.wf(),
        ensures
            r.inputs@.len() == (if self@.inputs.len() >= 1 && self@.inputs[0].note.spec_value()
                > 0 {
                1int
            } else {
                0int
            }),
            self@.inputs.len() >= 1 && self@.inputs[0].note.spec_value() > 0 ==> r.inputs@[0]@
                == spec_rpc_of_input(self@.inputs[0]),
            spec_rpc_output_views(r.outputs@) == spec_rpc_outputs_nonzero(self@.outputs),
            spec_rpc_opt_view(r.fee) == Some(spec_rpc_of_output(self@.fee)),
            spec_rpc_opt_view(r.crossover) == (match self@.crossover {
                None => None::<RpcOutputView>,
                Some(c) => Some(spec_rpc_of_output(c)),
            }),
            spec_rpc_opt_view(r.contract_output) == (match self@.contract_output {
                None => None::<RpcOutputView>,
                Some(c) => Some(spec_rpc_of_output(c)),
            }),
            spec_rpc_proof_views(r.proofs@).len() == self@.proofs.len(),
            forall|k: int|
                0 <= k < self@.proofs.len() ==> #[trigger] r.proofs@[k]@
                    == self@.proofs[k].digest.spec_bytes(),
            r.data@.len() == 0,
    {
        let mut inputs: Vec<RpcTransactionInput> = Vec::new();
        if self.inputs.len() >= 1 {
            let inp = self.inputs[0];
            if inp.value() > 0 {
                inputs.push(
                    RpcTransactionInput {
                        pos: inp.note.idx(),
                        merkle_root: inp.merkle_root.to_bytes(),
                        nullifier: inp.nullifier.to_bytes(),
                    },
                );
            }
        }
        let mut outputs: Vec<RpcTransactionOutput> = Vec::new();
        if self.outputs.len() >= 1 {
            let o = self.outputs[0];
            if o.value > 0 {
                outputs.push(o.to_rpc());
            }
        }
        if self.outputs.len() >= 2 {
            let o = self.outputs[1];
            if o.value > 0 {
                outputs.push(o.to_rpc());
            }
        }
        proof {
            assert(spec_rpc_output_views(outputs@) =~= spec_rpc_outputs_nonzero(self@.outputs));
        }
        let fee = Some(self.fee().to_rpc());
        let crossover = match self.crossover() {
            None => None,
            Some(c) => Some(c.to_rpc()),
        };
        let contract_output = match self.contract_output() {
            None => None,
            Some(c) => Some(c.to_rpc()),
        };
        let mut proofs: Vec<Vec<u8>> = Vec::new();
        let mut k: usize = 0;
        while k < self.proofs.len()
            invariant
                0 <= k <= self@.proofs.len(),
                proofs@.len() == k,
                forall|q: int|
                    0 <= q < k ==> #[trigger] proofs@[q]@ == self@.proofs[q].digest.spec_bytes(),
            decreases self@.proofs.len() - k,
        {
            let p = self.proofs[k];
            proofs.push(p.to_bytes());
            k = k + 1;
        }
        RpcTransaction { inputs, outputs, fee, crossover, contract_output, proofs, data: Vec::new() }
    }
}

/// The RPC output messages the nonzero-valued outputs of a slot sequence
/// render to, in order.
pub open spec fn spec_rpc_outputs_nonzero(outputs: Seq<TransactionOutput>) -> Seq<RpcOutputView> {
    let first: Seq<RpcOutputView> = if outputs.len() >= 1 && outputs[0].value > 0 {
        seq![spec_rpc_of_output(outputs[0])]
    } else {
        Seq::empty()
    };
    let second: Seq<RpcOutputView> = if outputs.len() >= 2 && outputs[1].value > 0 {
        seq![spec_rpc_of_output(outputs[1])]
    } else {
        Seq::empty()
    };
    first + second
}

/// One conversion step commutes with taking one more input message.
proof fn lemma_add_inputs_step(t: TransactionView, items: Seq<RpcTransactionInput>, i: int)
    requires
        0 <= i < items.len(),
    ensures
        spec_rpc_input_views(items.take(i + 1)).drop_last() == spec_rpc_input_views(items.take(i)),
        spec_rpc_input_views(items.take(i + 1)).last() == items[i]@,
        spec_rpc_input_views(items.take(i + 1)).len() == i + 1,
{
    assert(items.take(i + 1).drop_last() =~= items.take(i));
    assert(spec_rpc_input_views(items.take(i + 1)).drop_last() =~= spec_rpc_input_views(
        items.take(i),
    ));
}

/// One conversion step commutes with taking one more output message.
proof fn lemma_add_outputs_step(t: TransactionView, items: Seq<RpcTransactionOutput>, i: int)
    requires
        0 <= i < items.len(),
    ensures
        spec_rpc_output_views(items.take(i + 1)).drop_last() == spec_rpc_output_views(
            items.take(i),
        ),
        spec_rpc_output_views(items.take(i + 1)).last() == items[i]@,
        spec_rpc_output_views(items.take(i + 1)).len() == i + 1,
{
    assert(items.take(i + 1).drop_last() =~= items.take(i));
    assert(spec_rpc_output_views(items.take(i + 1)).drop_last() =~= spec_rpc_output_views(
        items.take(i),
    ));
}

/// One conversion step commutes with taking one more serialized proof.
proof fn lemma_add_proofs_step(t: TransactionView, proofs: Seq<Vec<u8>>, i: int)
    requires
        0 <= i < proofs.len(),
    ensures
        spec_rpc_proof_views(proofs.take(i + 1)).drop_last() == spec_rpc_proof_views(
            proofs.take(i),
        ),
        spec_rpc_proof_views(proofs.take(i + 1)).last() == proofs[i]@,
        spec_rpc_proof_views(proofs.take(i + 1)).len() == i + 1,
{
    assert(proofs.take(i + 1).drop_last() =~= proofs.take(i));
    assert(spec_rpc_proof_views(proofs.take(i + 1)).drop_last() =~= spec_rpc_proof_views(
        proofs.take(i),
    ));
}


/// An error in a prefix of the input messages decides the whole chain.
proof fn lemma_add_inputs_err_propagates(t: TransactionView, views: Seq<RpcInputView>, i: int)
    requires
        0 <= i <= views.len(),
        spec_add_inputs(t, views.take(i)) is Err,
    ensures
        spec_add_inputs(t, views) == spec_add_inputs(t, views.take(i)),
    decreases views.len() - i,
{
    if i < views.len() {
        assert(views.take(i + 1).drop_last() =~= views.take(i));
        lemma_add_inputs_err_propagates(t, views, i + 1);
    } else {
        assert(views.take(i) =~= views);
    }
}

/// An error in a prefix of the output messages decides the whole chain.
proof fn lemma_add_outputs_err_propagates(t: TransactionView, views: Seq<RpcOutputView>, i: int)
    requires
        0 <= i <= views.len(),
        spec_add_outputs(t, views.take(i)) is Err,
    ensures
        spec_add_outputs(t, views) == spec_add_outputs(t, views.take(i)),
    decreases views.len() - i,
{
    if i < views.len() {
        assert(views.take(i + 1).drop_last() =~= views.take(i));
        lemma_add_outputs_err_propagates(t, views, i + 1);
    } else {
        assert(views.take(i) =~= views);
    }
}

/// An error in a prefix of the serialized proofs decides the whole chain.
proof fn lemma_add_proofs_err_propagates(t: TransactionView, views: Seq<Seq<u8>>, i: int)
    requires
        0 <= i <= views.len(),
        spec_add_proofs(t, views.take(i)) is Err,
    ensures
        spec_add_proofs(t, views) == spec_add_proofs(t, views.take(i)),
    decreases views.len() - i,
{
    if i < views.len() {
        assert(views.take(i + 1).drop_last() =~= views.take(i));
        lemma_add_proofs_err_propagates(t, views, i + 1);
    } else {
        assert(views.take(i) =~= views);
    }
}


/// Resolve and push a sequence of RPC inputs against a ledger, in order,
/// capacity-checked.
pub open spec fn spec_add_inputs_db(
    db: crate::db::DbView,
    t: TransactionView,
    items: Seq<RpcInputView>,
) -> Result<TransactionView, Error>
    decreases items.len(),
{
    if items.len() == 0 {
        Ok(t)
    } else {
        match spec_add_inputs_db(db, t, items.drop_last()) {
            Err(e) => Err(e),
            Ok(t2) => match spec_input_from_rpc_db(db, items.last()) {
                Err(e) => Err(e),
                Ok(inp) => {
                    if t2.inputs.len() < crate::MAX_INPUT_NOTES_PER_TRANSACTION {
                        Ok(TransactionView { inputs: t2.inputs.push(inp), ..t2 })
                    } else {
                        Err(Error::MaximumNotes)
                    }
                },
            },
        }
    }
}

/// An error in a prefix of the ledger-resolved inputs decides the whole
/// chain.
proof fn lemma_add_inputs_db_err_propagates(
    db: crate::db::DbView,
    t: TransactionView,
    views: Seq<RpcInputView>,
    i: int,
)
    requires
        0 <= i <= views.len(),
        spec_add_inputs_db(db, t, views.take(i)) is Err,
    ensures
        spec_add_inputs_db(db, t, views) == spec_add_inputs_db(db, t, views.take(i)),
    decreases views.len() - i,
{
    if i < views.len() {
        assert(views.take(i + 1).drop_last() =~= views.take(i));
        lemma_add_inputs_db_err_propagates(db, t, views, i + 1);
    } else {
        assert(views.take(i) =~= views);
    }
}

/// The fee output a transparent fee note over `fee_value` yields, with the
/// default public key.
pub open spec fn spec_io_fee(fee_value: u64) -> TransactionOutput {
    TransactionOutput {
        note: NoteVariant::Transparent(TransparentNote { idx: 0, pk: 0, value: fee_value }),
        value: fee_value,
        blinding_factor: 0,
        pk: 0,
    }
}

/// The proved transaction an RPC input/output listing and a fee value
/// build: every input resolved against the ledger and pushed, every output
/// converted and pushed, the transparent fee set, and the whole proved.
pub open spec fn spec_tx_from_rpc_io(
    db: crate::db::DbView,
    inputs: Seq<RpcInputView>,
    outputs: Seq<RpcOutputView>,
    fee_value: u64,
) -> Result<TransactionView, Error> {
    match spec_add_inputs_db(db, TransactionView::spec_default(), inputs) {
        Err(e) => Err(e),
        Ok(t1) => match spec_add_outputs(t1, outputs) {
            Err(e) => Err(e),
            Ok(t2) => Ok(
                TransactionView { fee: spec_io_fee(fee_value), ..t2 }.spec_proved(),
            ),
        },
    }
}

/// The transaction a whole RPC message resolves to against a ledger: as
/// [`spec_tx_from_rpc`], with every input fetched from the store by its
/// position.
pub open spec fn spec_tx_from_rpc_db(
    db: crate::db::DbView,
    inputs: Seq<RpcInputView>,
    outputs: Seq<RpcOutputView>,
    fee: Option<RpcOutputView>,
    crossover: Option<RpcOutputView>,
    contract_output: Option<RpcOutputView>,
    proofs: Seq<Seq<u8>>,
) -> Result<TransactionView, Error> {
    match fee {
        None => Err(Error::FeeOutput),
        Some(f) => match spec_output_from_rpc(f) {
            None => Err(Error::InvalidParameters),
            Some(fee_out) => {
                let t0 = TransactionView { fee: fee_out, ..TransactionView::spec_default() };
                match spec_add_inputs_db(db, t0, inputs) {
                    Err(e) => Err(e),
                    Ok(t1) => match spec_add_outputs(t1, outputs) {
                        Err(e) => Err(e),
                        Ok(t2) => match spec_add_opt(t2, crossover, true) {
                            Err(e) => Err(e),
                            Ok(t3) => match spec_add_opt(t3, contract_output, false) {
                                Err(e) => Err(e),
                                Ok(t4) => spec_add_proofs(t4, proofs),
                            },
                        },
                    },
                }
            },
        },
    }
}

impl Transaction {
    /// Create a transaction from inputs and outputs defined by an RPC
    /// source, resolving each input against the ledger, then prove and
    /// verify it.
    pub fn try_from_rpc_io(
        db: &Db,
        fee_value: u64,
        inputs: &Vec<RpcTransactionInput>,
        outputs: &Vec<RpcTransactionOutput>,
    ) -> (r: Result<Transaction, Error>)
        ensures
            spec_tx_from_rpc_io(
                db@,
                spec_rpc_input_views(inputs@),
                spec_rpc_output_views(outputs@),
                fee_value,
            ) matches Ok(v) ==> (r matches Ok(t) && t@ == v),
            spec_tx_from_rpc_io(
                db@,
                spec_rpc_input_views(inputs@),
                spec_rpc_output_views(outputs@),
                fee_value,
            ) matches Err(e) ==> r == Err::<Transaction, Error>(e),
    {
        let mut transaction = Transaction::default();
        let ghost t0 = transaction@;
        let mut i: usize = 0;
        while i < inputs.len()
            invariant
                0 <= i <= inputs@.len(),
                t0 == TransactionView::spec_default(),
                spec_add_inputs_db(db@, t0, spec_rpc_input_views(inputs@.take(i as int))) == Ok::<
                    TransactionView,
                    Error,
                >(transaction@),
                transaction@.proofs == Seq::<Proof>::empty(),
                transaction@.wf(),
            decreases inputs@.len() - i,
        {
            let inp = match TransactionInput::try_from_rpc_db(db, &inputs[i]) {
                Ok(x) => x,
                Err(e) => {
                    proof {
                        lemma_add_inputs_db_step(db@, t0, inputs@, i as int);
                        assert(spec_rpc_input_views(inputs@).take(i + 1) =~= spec_rpc_input_views(
                            inputs@.take(i + 1),
                        ));
                        assert(spec_add_inputs_db(
                            db@,
                            t0,
                            spec_rpc_input_views(inputs@).take(i + 1),
                        ) is Err);
                        lemma_add_inputs_db_err_propagates(
                            db@,
                            t0,
                            spec_rpc_input_views(inputs@),
                            i + 1,
                        );
                    }
                    return Err(e);
                },
            };
            let pushed = transaction.push_input(inp);
            proof {
                lemma_add_inputs_db_step(db@, t0, inputs@, i as int);
                assert(spec_rpc_input_views(inputs@).take(i + 1) =~= spec_rpc_input_views(
                    inputs@.take(i + 1),
                ));
            }
            match pushed {
                Ok(()) => {},
                Err(e) => {
                    proof {
                        assert(spec_add_inputs_db(
                            db@,
                            t0,
                            spec_rpc_input_views(inputs@).take(i + 1),
                        ) is Err);
                        lemma_add_inputs_db_err_propagates(
                            db@,
                            t0,
                            spec_rpc_input_views(inputs@),
                            i + 1,
                        );
                    }
                    return Err(e);
                },
            }
            i = i + 1;
        }
        proof {
            assert(inputs@.take(inputs@.len() as int) =~= inputs@);
        }
        let ghost t1 = transaction@;
        let mut j: usize = 0;
        while j < outputs.len()
            invariant
                0 <= j <= outputs@.len(),
                t0 == TransactionView::spec_default(),
                spec_add_inputs_db(db@, t0, spec_rpc_input_views(inputs@)) == Ok::<
                    TransactionView,
                    Error,
                >(t1),
                spec_add_outputs(t1, spec_rpc_output_views(outputs@.take(j as int))) == Ok::<
                    TransactionView,
                    Error,
                >(transaction@),
                transaction@.proofs == Seq::<Proof>::empty(),
                transaction@.wf(),
            decreases outputs@.len() - j,
        {
            let out = match TransactionOutput::try_from_rpc(&outputs[j]) {
                Ok(x) => x,
                Err(e) => {
                    proof {
                        lemma_add_outputs_step(t1, outputs@, j as int);
                        assert(spec_rpc_output_views(outputs@).take(j + 1)
                            =~= spec_rpc_output_views(outputs@.take(j + 1)));
                        assert(spec_add_outputs(
                            t1,
                            spec_rpc_output_views(outputs@).take(j + 1),
                        ) is Err);
                        lemma_add_outputs_err_propagates(
                            t1,
                            spec_rpc_output_views(outputs@),
                            j + 1,
                        );
                    }
                    return Err(e);
                },
            };
            let pushed = transaction.push_output(out);
            proof {
                lemma_add_outputs_step(t1, outputs@, j as int);
                assert(spec_rpc_output_views(outputs@).take(j + 1) =~= spec_rpc_output_views(
                    outputs@.take(j + 1),
                ));
            }
            match pushed {
                Ok(()) => {},
                Err(e) => {
                    proof {
                        assert(spec_add_outputs(
                            t1,
                            spec_rpc_output_views(outputs@).take(j + 1),
                        ) is Err);
                        lemma_add_outputs_err_propagates(
                            t1,
                            spec_rpc_output_views(outputs@),
                            j + 1,
                        );
                    }
                    return Err(e);
                },
            }
            j = j + 1;
        }
        proof {
            assert(outputs@.take(outputs@.len() as int) =~= outputs@);
        }
        let fee_note = NoteVariant::transparent(0, fee_value);
        transaction.set_fee(fee_note.to_transaction_output(fee_value, 0, 0));
        let ghost pre = transaction@;
        let proved = transaction.prove();
        proof {
            assert(proved is Ok);
            crate::transaction::lemma_verify_after_prove(pre);
        }
        match transaction.verify() {
            Ok(()) => {},
            Err(e) => {
                return Err(e);
            },
        }
        Ok(transaction)
    }

    /// Attempt to create a transaction from an RPC message, resolving each
    /// input against the ledger by its position.
    pub fn try_from_rpc_transaction_db(db: &Db, tx: &RpcTransaction) -> (r: Result<
        Transaction,
        Error,
    >)
        ensures
            spec_tx_from_rpc_db(
                db@,
                spec_rpc_input_views(tx.inputs@),
                spec_rpc_output_views(tx.outputs@),
                spec_rpc_opt_view(tx.fee),
                spec_rpc_opt_view(tx.crossover),
                spec_rpc_opt_view(tx.contract_output),
                spec_rpc_proof_views(tx.proofs@),
            ) matches Ok(v) ==> (r matches Ok(t) && t@ == v),
            spec_tx_from_rpc_db(
                db@,
                spec_rpc_input_views(tx.inputs@),
                spec_rpc_output_views(tx.outputs@),
                spec_rpc_opt_view(tx.fee),
                spec_rpc_opt_view(tx.crossover),
                spec_rpc_opt_view(tx.contract_output),
                spec_rpc_proof_views(tx.proofs@),
            ) matches Err(e) ==> r == Err::<Transaction, Error>(e),
    {
        let mut transaction = Transaction::default();
        let fee = match &tx.fee {
            None => {
                return Err(Error::FeeOutput);
            },
            Some(f) => match TransactionOutput::try_from_rpc(f) {
                Ok(out) => out,
                Err(e) => {
                    return Err(e);
                },
            },
        };
        transaction.set_fee(fee);
        let ghost t0 = transaction@;
        let mut i: usize = 0;
        while i < tx.inputs.len()
            invariant
                0 <= i <= tx.inputs@.len(),
                spec_rpc_opt_view(tx.fee) is Some,
                spec_output_from_rpc(spec_rpc_opt_view(tx.fee)->Some_0) is Some,
                t0 == (TransactionView {
                    fee: spec_output_from_rpc(spec_rpc_opt_view(tx.fee)->Some_0)->Some_0,
                    ..TransactionView::spec_default()
                }),
                spec_add_inputs_db(db@, t0, spec_rpc_input_views(tx.inputs@.take(i as int)))
                    == Ok::<TransactionView, Error>(transaction@),
            decreases tx.inputs@.len() - i,
        {
            let inp = match TransactionInput::try_from_rpc_db(db, &tx.inputs[i]) {
                Ok(x) => x,
                Err(e) => {
                    proof {
                        lemma_add_inputs_db_step(db@, t0, tx.inputs@, i as int);
                        assert(spec_rpc_input_views(tx.inputs@).take(i + 1)
                            =~= spec_rpc_input_views(tx.inputs@.take(i + 1)));
                        assert(spec_add_inputs_db(
                            db@,
                            t0,
                            spec_rpc_input_views(tx.inputs@).take(i + 1),
                        ) is Err);
                        lemma_add_inputs_db_err_propagates(
                            db@,
                            t0,
                            spec_rpc_input_views(tx.inputs@),
                            i + 1,
                        );
                    }
                    return Err(e);
                },
            };
            let pushed = transaction.push_input(inp);
            proof {
                lemma_add_inputs_db_step(db@, t0, tx.inputs@, i as int);
                assert(spec_rpc_input_views(tx.inputs@).take(i + 1) =~= spec_rpc_input_views(
                    tx.inputs@.take(i + 1),
                ));
            }
            match pushed {
                Ok(()) => {},
                Err(e) => {
                    proof {
                        assert(spec_add_inputs_db(
                            db@,
                            t0,
                            spec_rpc_input_views(tx.inputs@).take(i + 1),
                        ) is Err);
                        lemma_add_inputs_db_err_propagates(
                            db@,
                            t0,
                            spec_rpc_input_views(tx.inputs@),
                            i + 1,
                        );
                    }
                    return Err(e);
                },
            }
            i = i + 1;
        }
        proof {
            assert(tx.inputs@.take(tx.inputs@.len() as int) =~= tx.inputs@);
        }
        let ghost t1 = transaction@;
        let mut j: usize = 0;
        while j < tx.outputs.len()
            invariant
                0 <= j <= tx.outputs@.len(),
                spec_rpc_opt_view(tx.fee) is Some,
                spec_output_from_rpc(spec_rpc_opt_view(tx.fee)->Some_0) is Some,
                t0 == (TransactionView {
                    fee: spec_output_from_rpc(spec_rpc_opt_view(tx.fee)->Some_0)->Some_0,
                    ..TransactionView::spec_default()
                }),
                spec_add_inputs_db(db@, t0, spec_rpc_input_views(tx.inputs@)) == Ok::<
                    TransactionView,
                    Error,
                >(t1),
                spec_add_outputs(t1, spec_rpc_output_views(tx.outputs@.take(j as int))) == Ok::<
                    TransactionView,
                    Error,
                >(transaction@),
            decreases tx.outputs@.len() - j,
        {
            let out = match TransactionOutput::try_from_rpc(&tx.outputs[j]) {
                Ok(x) => x,
                Err(e) => {
                    proof {
                        lemma_add_outputs_step(t1, tx.outputs@, j as int);
                        assert(spec_rpc_output_views(tx.outputs@).take(j + 1)
                            =~= spec_rpc_output_views(tx.outputs@.take(j + 1)));
                        assert(spec_add_outputs(
                            t1,
                            spec_rpc_output_views(tx.outputs@).take(j + 1),
                        ) is Err);
                        lemma_add_outputs_err_propagates(
                            t1,
                            spec_rpc_output_views(tx.outputs@),
                            j + 1,
                        );
                    }
                    return Err(e);
                },
            };
            let pushed = transaction.push_output(out);
            proof {
                lemma_add_outputs_step(t1, tx.outputs@, j as int);
                assert(spec_rpc_output_views(tx.outputs@).take(j + 1) =~= spec_rpc_output_views(
                    tx.outputs@.take(j + 1),
                ));
            }
            match pushed {
                Ok(()) => {},
                Err(e) => {
                    proof {
                        assert(spec_add_outputs(
                            t1,
                            spec_rpc_output_views(tx.outputs@).take(j + 1),
                        ) is Err);
                        lemma_add_outputs_err_propagates(
                            t1,
                            spec_rpc_output_views(tx.outputs@),
                            j + 1,
                        );
                    }
                    return Err(e);
                },
            }
            j = j + 1;
        }
        proof {
            assert(tx.outputs@.take(tx.outputs@.len() as int) =~= tx.outputs@);
        }
        let ghost t2 = transaction@;
        match &tx.crossover {
            None => {},
            Some(c) => match TransactionOutput::try_from_rpc(c) {
                Ok(out) => {
                    transaction.set_crossover(out);
                },
                Err(e) => {
                    return Err(e);
                },
            },
        }
        let ghost t2c = transaction@;
        match &tx.contract_output {
            None => {},
            Some(c) => match TransactionOutput::try_from_rpc(c) {
                Ok(out) => {
                    transaction.set_contract_output(out);
                },
                Err(e) => {
                    return Err(e);
                },
            },
        }
        let ghost t3 = transaction@;
        let mut k: usize = 0;
        while k < tx.proofs.len()
            invariant
                0 <= k <= tx.proofs@.len(),
                spec_rpc_opt_view(tx.fee) is Some,
                spec_output_from_rpc(spec_rpc_opt_view(tx.fee)->Some_0) is Some,
                t0 == (TransactionView {
                    fee: spec_output_from_rpc(spec_rpc_opt_view(tx.fee)->Some_0)->Some_0,
                    ..TransactionView::spec_default()
                }),
                spec_add_inputs_db(db@, t0, spec_rpc_input_views(tx.inputs@)) == Ok::<
                    TransactionView,
                    Error,
                >(t1),
                spec_add_outputs(t1, spec_rpc_output_views(tx.outputs@)) == Ok::<
                    TransactionView,
                    Error,
                >(t2),
                spec_add_opt(t2, spec_rpc_opt_view(tx.crossover), true) == Ok::<
                    TransactionView,
                    Error,
                >(t2c),
                spec_add_opt(t2c, spec_rpc_opt_view(tx.contract_output), false) == Ok::<
                    TransactionView,
                    Error,
                >(t3),
                spec_add_proofs(t3, spec_rpc_proof_views(tx.proofs@.take(k as int))) == Ok::<
                    TransactionView,
                    Error,
                >(transaction@),
            decreases tx.proofs@.len() - k,
        {
            if tx.proofs[k].len() != 32 {
                proof {
                    lemma_add_proofs_step(t3, tx.proofs@, k + 0);
                    assert(spec_rpc_proof_views(tx.proofs@).take(k + 1) =~= spec_rpc_proof_views(
                        tx.proofs@.take(k + 1),
                    ));
                    assert(spec_add_proofs(
                        t3,
                        spec_rpc_proof_views(tx.proofs@).take(k + 1),
                    ) is Err);
                    lemma_add_proofs_err_propagates(t3, spec_rpc_proof_views(tx.proofs@), k + 1);
                }
                return Err(Error::InvalidParameters);
            }
            let digest = read_scalar_vec(&tx.proofs[k]);
            transaction.add_proof(Proof { digest });
            proof {
                lemma_add_proofs_step(t3, tx.proofs@, k + 0);
                assert(spec_rpc_proof_views(tx.proofs@).take(k + 1) =~= spec_rpc_proof_views(
                    tx.proofs@.take(k + 1),
                ));
            }
            k = k + 1;
        }
        proof {
            assert(tx.proofs@.take(tx.proofs@.len() as int) =~= tx.proofs@);
        }
        Ok(transaction)
    }
}

/// One ledger-resolved conversion step commutes with taking one more input
/// message.
proof fn lemma_add_inputs_db_step(
    db: crate::db::DbView,
    t: TransactionView,
    items: Seq<RpcTransactionInput>,
    i: int,
)
    requires
        0 <= i < items.len(),
    ensures
        spec_rpc_input_views(items.take(i + 1)).drop_last() == spec_rpc_input_views(items.take(i)),
        spec_rpc_input_views(items.take(i + 1)).last() == items[i]@,
        spec_rpc_input_views(items.take(i + 1)).len() == i + 1,
{
    assert(items.take(i + 1).drop_last() =~= items.take(i));
    assert(spec_rpc_input_views(items.take(i + 1)).drop_last() =~= spec_rpc_input_views(
        items.take(i),
    ));
}

} // verus!
