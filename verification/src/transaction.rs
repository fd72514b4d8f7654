//! The transaction type: an ordered bundle of up to one input, up to two
//! outputs, one mandatory fee output, optional crossover and contract
//! outputs, plus accumulated proofs and public inputs.
//!
//! Contracts speak over [`TransactionView`], the mathematical image of a
//! transaction; every method pins its effect on that view.
use vstd::prelude::*;
use crate::{Error, MAX_INPUT_NOTES_PER_TRANSACTION, MAX_OUTPUT_NOTES_PER_TRANSACTION};
use crate::scalar::{Scalar, spec_sponge, sponge_hash};
use crate::note::NoteVariant;
use crate::item::{
    TransactionInput, TransactionItem, TransactionOutput, output_le, spec_output_le,
    lemma_output_le_total, lemma_output_le_tie, lemma_output_le_clear_stable,
};
use crate::zk::{Proof, ZkPublicInputs, spec_prove, spec_verify};
use crate::rng::random_u64_below;

verus! {

/// A transaction: fixed-capacity slots, canonical ordering, deterministic
/// hash. The well-formedness predicate [`TransactionView::wf`] bounds the
/// slot vectors; every constructor establishes it and every method preserves
/// it.
#[derive(Debug)]
pub struct Transaction {
    /// Active input slots, at most one.
    pub(crate) inputs: Vec<TransactionInput>,
    /// Active output slots, at most two.
    pub(crate) outputs: Vec<TransactionOutput>,
    /// Auxiliary output for cross-contract value flows; outside the hash
    /// domain.
    pub(crate) crossover: Option<TransactionOutput>,
    /// Auxiliary contract output; outside the hash domain.
    pub(crate) contract_output: Option<TransactionOutput>,
    /// The mandatory fee output, always present (possibly zero-value).
    pub(crate) fee: TransactionOutput,
    /// Proofs accumulated by `prove`.
    pub(crate) proofs: Vec<Proof>,
    /// Public inputs recomputed from the canonical form.
    pub(crate) public_inputs: Vec<ZkPublicInputs>,
}

/// The mathematical image of a transaction.
#[verifier::ext_equal]
pub struct TransactionView {
    /// Active input slots.
    pub inputs: Seq<TransactionInput>,
    /// Active output slots.
    pub outputs: Seq<TransactionOutput>,
    /// Auxiliary crossover output.
    pub crossover: Option<TransactionOutput>,
    /// Auxiliary contract output.
    pub contract_output: Option<TransactionOutput>,
    /// The mandatory fee output.
    pub fee: TransactionOutput,
    /// Accumulated proofs.
    pub proofs: Seq<Proof>,
    /// Public inputs of the canonical form.
    pub public_inputs: Seq<ZkPublicInputs>,
}

impl View for Transaction {
    type V = TransactionView;

    open(crate) spec fn view(&self) -> TransactionView {
        TransactionView {
            inputs: self.inputs@,
            outputs: self.outputs@,
            crossover: self.crossover,
            contract_output: self.contract_output,
            fee: self.fee,
            proofs: self.proofs@,
            public_inputs: self.public_inputs@,
        }
    }
}

/// Active output slots in canonical ascending order. Capacity is two, so
/// sorting is at most one comparison; longer sequences (excluded by
/// well-formedness) are left as they are.
pub open spec fn spec_sort_outputs(s: Seq<TransactionOutput>) -> Seq<TransactionOutput> {
    if s.len() == 2 {
        if spec_output_le(s[0], s[1]) {
            s
        } else {
            seq![s[1], s[0]]
        }
    } else {
        s
    }
}

/// Sorting outputs keeps the multiset of items.
pub proof fn lemma_sort_outputs_multiset(s: Seq<TransactionOutput>)
    ensures
        spec_sort_outputs(s).to_multiset() == s.to_multiset(),
{
    if s.len() == 2 && !spec_output_le(s[0], s[1]) {
        let t = spec_sort_outputs(s);
        assert(s =~= seq![s[0]] + seq![s[1]]);
        assert(t =~= seq![s[1]] + seq![s[0]]);
        seq![s[0]].to_multiset_ensures();
        seq![s[1]].to_multiset_ensures();
        vstd::seq_lib::lemma_multiset_commutative(seq![s[0]], seq![s[1]]);
        vstd::seq_lib::lemma_multiset_commutative(seq![s[1]], seq![s[0]]);
        assert(s.to_multiset() =~= t.to_multiset());
    }
}

/// Sorting is idempotent.
pub proof fn lemma_sort_outputs_idempotent(s: Seq<TransactionOutput>)
    ensures
        spec_sort_outputs(spec_sort_outputs(s)) == spec_sort_outputs(s),
{
    if s.len() == 2 && !spec_output_le(s[0], s[1]) {
        lemma_output_le_total(s[0], s[1]);
        assert(spec_sort_outputs(spec_sort_outputs(s)) =~= spec_sort_outputs(s));
    }
}

impl TransactionView {
    /// Slot counts within the fixed capacities.
    pub open spec fn wf(self) -> bool {
        self.inputs.len() <= MAX_INPUT_NOTES_PER_TRANSACTION
            && self.outputs.len() <= MAX_OUTPUT_NOTES_PER_TRANSACTION
    }

    /// The empty transaction: no active slots, a default fee, no auxiliary
    /// outputs, no proofs.
    pub open spec fn spec_default() -> TransactionView {
        TransactionView {
            inputs: Seq::empty(),
            outputs: Seq::empty(),
            crossover: None,
            contract_output: None,
            fee: TransactionOutput::spec_default(),
            proofs: Seq::empty(),
            public_inputs: Seq::empty(),
        }
    }

    /// This transaction with its active slots in canonical order. Inputs
    /// have capacity one and are already in order.
    pub open spec fn spec_sorted(self) -> TransactionView {
        TransactionView { outputs: spec_sort_outputs(self.outputs), ..self }
    }

    /// The sequence of scalars the transaction hash absorbs: the fee note's
    /// hash, then the sorted input note hashes, then the sorted output note
    /// hashes — only the slots actually populated, and at most the fixed
    /// capacity of each kind.
    pub open spec fn spec_hash_domain(self) -> Seq<Scalar> {
        let base = seq![self.fee.note.spec_hash()];
        let with_inputs = if self.inputs.len() >= 1 {
            base.push(self.inputs[0].note.spec_hash())
        } else {
            base
        };
        let sorted = spec_sort_outputs(self.outputs);
        if sorted.len() >= 2 {
            with_inputs.push(sorted[0].note.spec_hash()).push(sorted[1].note.spec_hash())
        } else if sorted.len() == 1 {
            with_inputs.push(sorted[0].note.spec_hash())
        } else {
            with_inputs
        }
    }

    /// The transaction hash: the sponge over the hash domain. Defined only
    /// over the fee and the active inputs and outputs; the crossover and
    /// contract outputs are excluded by design, and so are the proofs.
    pub open spec fn spec_hash(self) -> Scalar {
        spec_sponge(self.spec_hash_domain())
    }

    /// The items of this transaction, inputs first, fee excluded.
    pub open spec fn spec_items(self) -> Seq<TransactionItem> {
        self.inputs.map_values(|i: TransactionInput| TransactionItem::Input(i))
            + self.outputs.map_values(|o: TransactionOutput| TransactionItem::Output(o))
    }

    /// This transaction with every input and output item's secret material
    /// erased. The fee and the auxiliary outputs are left as they are.
    pub open spec fn spec_cleared(self) -> TransactionView {
        TransactionView {
            inputs: self.inputs.map_values(|i: TransactionInput| i.spec_cleared()),
            outputs: self.outputs.map_values(|o: TransactionOutput| o.spec_cleared()),
            ..self
        }
    }

    /// This transaction canonicalized, with its public inputs recomputed
    /// from the canonical form: a single entry holding the canonical digest.
    pub open spec fn spec_recalculated(self) -> TransactionView {
        let s = self.spec_sorted();
        TransactionView {
            public_inputs: seq![ZkPublicInputs { digest: s.spec_hash() }],
            ..s
        }
    }

    /// The state after `prove`: recomputed public inputs and the fresh proof
    /// appended.
    pub open spec fn spec_proved(self) -> TransactionView {
        let r = self.spec_recalculated();
        TransactionView { proofs: r.proofs.push(spec_prove(r.public_inputs[0])), ..r }
    }

    /// The state after `verify`: public inputs are recomputed only if
    /// absent.
    pub open spec fn spec_verify_pre(self) -> TransactionView {
        if self.public_inputs.len() == 0 {
            self.spec_recalculated()
        } else {
            self
        }
    }

    /// The outcome of checking the stored proofs of a state against its
    /// stored public inputs, pair by pair.
    pub open spec fn spec_verify_outcome(self) -> Result<(), Error> {
        if self.public_inputs.len() != self.proofs.len() {
            Err(Error::InvalidParameters)
        } else if forall|i: int|
            0 <= i < self.proofs.len() ==> spec_verify(
                #[trigger] self.proofs[i],
                self.public_inputs[i],
            ) {
            Ok(())
        } else {
            Err(Error::Generic)
        }
    }

    /// What `verify` returns on this transaction.
    pub open spec fn spec_verify_result(self) -> Result<(), Error> {
        self.spec_verify_pre().spec_verify_outcome()
    }

    /// Sum of the values of the spent notes.
    pub open spec fn spec_input_value_sum(self) -> int {
        spec_inputs_value(self.inputs)
    }

    /// Sum of the values of the created outputs.
    pub open spec fn spec_output_value_sum(self) -> int {
        spec_outputs_value(self.outputs)
    }
}

/// Sum of the values of the notes a sequence of inputs spends.
pub open spec fn spec_inputs_value(s: Seq<TransactionInput>) -> int
    decreases s.len(),
{
    if s.len() == 0 {
        0
    } else {
        spec_inputs_value(s.drop_last()) + s.last().note.spec_value()
    }
}

/// Sum of the values a sequence of outputs creates.
pub open spec fn spec_outputs_value(s: Seq<TransactionOutput>) -> int
    decreases s.len(),
{
    if s.len() == 0 {
        0
    } else {
        spec_outputs_value(s.drop_last()) + s.last().value
    }
}

impl Default for Transaction {
    /// The empty transaction. Slots hold no items at all rather than
    /// pre-filled sentinel defaults; the capacity lives in the push
    /// contracts.
    fn default() -> (r: Transaction)
        ensures
            r@ == TransactionView::spec_default(),
            r@.wf(),
    {
        let r = Transaction {
            inputs: Vec::new(),
            outputs: Vec::new(),
            crossover: None,
            contract_output: None,
            fee: TransactionOutput::default(),
            proofs: Vec::new(),
            public_inputs: Vec::new(),
        };
        proof {
            assert(r@ =~= TransactionView::spec_default());
        }
        r
    }
}

impl Transaction {
    /// Perform a hash of the inputs, outputs and fee.
    ///
    /// The active items are hashed in canonical order whatever order they
    /// were pushed in, so two transactions holding the same fee and the same
    /// item multisets hash identically.
    pub fn hash(&self) -> (r: Scalar)
        ensures
            r == self@.spec_hash(),
    {
        let mut items: Vec<Scalar> = Vec::new();
        items.push(self.fee.hash());
        if self.inputs.len() >= 1 {
            items.push(self.inputs[0].note.hash());
        }
        if self.outputs.len() >= 2 {
            if output_le(&self.outputs[0], &self.outputs[1]) || self.outputs.len() > 2 {
                items.push(self.outputs[0].note.hash());
                items.push(self.outputs[1].note.hash());
            } else {
                items.push(self.outputs[1].note.hash());
                items.push(self.outputs[0].note.hash());
            }
        } else if self.outputs.len() == 1 {
            items.push(self.outputs[0].note.hash());
        }
        proof {
            assert(items@ =~= self@.spec_hash_domain());
        }
        sponge_hash(&items)
    }

    /// Append an input to the transaction; rejected once the input slot
    /// count reaches the capacity, leaving the transaction unchanged.
    pub fn push_input(&mut self, item: TransactionInput) -> (r: Result<(), Error>)
        ensures
            old(self)@.inputs.len() < MAX_INPUT_NOTES_PER_TRANSACTION ==> r == Ok::<(), Error>(())
                && final(self)@ == (TransactionView {
                inputs: old(self)@.inputs.push(item),
                ..old(self)@
            }),
            old(self)@.inputs.len() >= MAX_INPUT_NOTES_PER_TRANSACTION ==> r == Err::<(), Error>(
                Error::MaximumNotes,
            ) && final(self)@ == old(self)@,
            old(self)@.wf() ==> final(self)@.wf(),
    {
        if self.inputs.len() >= MAX_INPUT_NOTES_PER_TRANSACTION {
            return Err(Error::MaximumNotes);
        }
        self.inputs.push(item);
        proof {
            assert(self@ =~= (TransactionView { inputs: old(self)@.inputs.push(item), ..old(self)@ }));
        }
        Ok(())
    }

    /// Append an output to the transaction; rejected once the output slot
    /// count reaches the capacity, leaving the transaction unchanged.
    pub fn push_output(&mut self, item: TransactionOutput) -> (r: Result<(), Error>)
        ensures
            old(self)@.outputs.len() < MAX_OUTPUT_NOTES_PER_TRANSACTION ==> r == Ok::<(), Error>(
                (),
            ) && final(self)@ == (TransactionView {
                outputs: old(self)@.outputs.push(item),
                ..old(self)@
            }),
            old(self)@.outputs.len() >= MAX_OUTPUT_NOTES_PER_TRANSACTION ==> r == Err::<(), Error>(
                Error::MaximumNotes,
            ) && final(self)@ == old(self)@,
            old(self)@.wf() ==> final(self)@.wf(),
    {
        if self.outputs.len() >= MAX_OUTPUT_NOTES_PER_TRANSACTION {
            return Err(Error::MaximumNotes);
        }
        self.outputs.push(item);
        proof {
            assert(self@ =~= (TransactionView {
                outputs: old(self)@.outputs.push(item),
                ..old(self)@
            }));
        }
        Ok(())
    }

    /// Return the crossover value.
    pub fn crossover(&self) -> (r: Option<TransactionOutput>)
        ensures
            r == self@.crossover,
    {
        self.crossover
    }

    /// Set the crossover value.
    pub fn set_crossover(&mut self, crossover: TransactionOutput)
        ensures
            final(self)@ == (TransactionView { crossover: Some(crossover), ..old(self)@ }),
    {
        self.crossover = Some(crossover);
        proof {
            assert(self@ =~= (TransactionView { crossover: Some(crossover), ..old(self)@ }));
        }
    }

    /// Return the contract output value.
    pub fn contract_output(&self) -> (r: Option<TransactionOutput>)
        ensures
            r == self@.contract_output,
    {
        self.contract_output
    }

    /// Set the contract output value.
    pub fn set_contract_output(&mut self, contract_output: TransactionOutput)
        ensures
            final(self)@ == (TransactionView {
                contract_output: Some(contract_output),
                ..old(self)@
            }),
    {
        self.contract_output = Some(contract_output);
        proof {
            assert(self@ =~= (TransactionView {
                contract_output: Some(contract_output),
                ..old(self)@
            }));
        }
    }

    /// Return the fee output.
    ///
    /// A transaction is created with a default fee; the fee note's public
    /// key can later be changed by a block generator without touching the
    /// proofs.
    pub fn fee(&self) -> (r: TransactionOutput)
        ensures
            r == self@.fee,
    {
        self.fee
    }

    /// Set the fee output.
    pub fn set_fee(&mut self, fee: TransactionOutput)
        ensures
            final(self)@ == (TransactionView { fee, ..old(self)@ }),
    {
        self.fee = fee;
        proof {
            assert(self@ =~= (TransactionView { fee, ..old(self)@ }));
        }
    }

    /// Set the public key of a block generator on the fee output, keeping
    /// the fee value.
    pub fn set_fee_pk(&mut self, pk: u64)
        ensures
            final(self)@ == (TransactionView {
                fee: TransactionOutput {
                    note: NoteVariant::Transparent(
                        crate::note::TransparentNote { idx: 0, pk, value: old(self)@.fee.value },
                    ),
                    value: old(self)@.fee.value,
                    blinding_factor: 0,
                    pk,
                },
                ..old(self)@
            }),
    {
        let value = self.fee.value;
        let note = NoteVariant::transparent(pk, value);
        self.fee = TransactionOutput { note, value, blinding_factor: 0, pk };
        proof {
            assert(self@ =~= (TransactionView { fee: self.fee, ..old(self)@ }));
        }
    }

    /// All transaction input slots up to the capacity, the unoccupied ones
    /// filled with the canonical default item.
    pub fn all_inputs(&self) -> (r: Vec<TransactionInput>)
        requires
            self@.wf(),
        ensures
            r@.len() == MAX_INPUT_NOTES_PER_TRANSACTION,
            forall|i: int| 0 <= i < self@.inputs.len() ==> r@[i] == self@.inputs[i],
            forall|i: int|
                self@.inputs.len() <= i < MAX_INPUT_NOTES_PER_TRANSACTION ==> r@[i]
                    == TransactionInput::spec_default(),
    {
        let mut r: Vec<TransactionInput> = Vec::new();
        let mut i: usize = 0;
        while i < self.inputs.len()
            invariant
                0 <= i <= self.inputs@.len(),
                r@ =~= self.inputs@.take(i as int),
            decreases self.inputs@.len() - i,
        {
            r.push(self.inputs[i]);
            proof {
                assert(self.inputs@.take(i + 1 as int) =~= self.inputs@.take(i as int).push(
                    self.inputs@[i as int],
                ));
            }
            i = i + 1;
        }
        proof {
            assert(self.inputs@.take(self.inputs@.len() as int) =~= self.inputs@);
        }
        while r.len() < MAX_INPUT_NOTES_PER_TRANSACTION
            invariant
                self@.inputs.len() <= r@.len() <= MAX_INPUT_NOTES_PER_TRANSACTION,
                forall|i: int| 0 <= i < self@.inputs.len() ==> r@[i] == self@.inputs[i],
                forall|i: int|
                    self@.inputs.len() <= i < r@.len() ==> r@[i]
                        == TransactionInput::spec_default(),
            decreases MAX_INPUT_NOTES_PER_TRANSACTION - r@.len(),
        {
            r.push(TransactionInput::default());
        }
        r
    }

    /// The active transaction inputs.
    pub fn inputs(&self) -> (r: &[TransactionInput])
        ensures
            r@ == self@.inputs,
    {
        self.inputs.as_slice()
    }

    /// All transaction output slots up to the capacity, the unoccupied ones
    /// filled with the canonical default item.
    pub fn all_outputs(&self) -> (r: Vec<TransactionOutput>)
        requires
            self@.wf(),
        ensures
            r@.len() == MAX_OUTPUT_NOTES_PER_TRANSACTION,
            forall|i: int| 0 <= i < self@.outputs.len() ==> r@[i] == self@.outputs[i],
            forall|i: int|
                self@.outputs.len() <= i < MAX_OUTPUT_NOTES_PER_TRANSACTION ==> r@[i]
                    == TransactionOutput::spec_default(),
    {
        let mut r: Vec<TransactionOutput> = Vec::new();
        let mut i: usize = 0;
        while i < self.outputs.len()
            invariant
                0 <= i <= self.outputs@.len(),
                r@ =~= self.outputs@.take(i as int),
            decreases self.outputs@.len() - i,
        {
            r.push(self.outputs[i]);
            proof {
                assert(self.outputs@.take(i + 1 as int) =~= self.outputs@.take(i as int).push(
                    self.outputs@[i as int],
                ));
            }
            i = i + 1;
        }
        proof {
            assert(self.outputs@.take(self.outputs@.len() as int) =~= self.outputs@);
        }
        while r.len() < MAX_OUTPUT_NOTES_PER_TRANSACTION
            invariant
                self@.outputs.len() <= r@.len() <= MAX_OUTPUT_NOTES_PER_TRANSACTION,
                forall|i: int| 0 <= i < self@.outputs.len() ==> r@[i] == self@.outputs[i],
                forall|i: int|
                    self@.outputs.len() <= i < r@.len() ==> r@[i]
                        == TransactionOutput::spec_default(),
            decreases MAX_OUTPUT_NOTES_PER_TRANSACTION - r@.len(),
        {
            r.push(TransactionOutput::default());
        }
        r
    }

    /// The active transaction outputs.
    pub fn outputs(&self) -> (r: &[TransactionOutput])
        ensures
            r@ == self@.outputs,
    {
        self.outputs.as_slice()
    }

    /// The items of this transaction, inputs first, fee excluded.
    pub fn items(&self) -> (r: Vec<TransactionItem>)
        ensures
            r@ == self@.spec_items(),
    {
        let mut r: Vec<TransactionItem> = Vec::new();
        let mut i: usize = 0;
        while i < self.inputs.len()
            invariant
                0 <= i <= self.inputs@.len(),
                r@ =~= self.inputs@.take(i as int).map_values(
                    |x: TransactionInput| TransactionItem::Input(x),
                ),
            decreases self.inputs@.len() - i,
        {
            r.push(TransactionItem::Input(self.inputs[i]));
            proof {
                assert(self.inputs@.take(i + 1 as int) =~= self.inputs@.take(i as int).push(
                    self.inputs@[i as int],
                ));
                assert(self.inputs@.take(i + 1 as int).map_values(
                    |x: TransactionInput| TransactionItem::Input(x),
                ) =~= self.inputs@.take(i as int).map_values(
                    |x: TransactionInput| TransactionItem::Input(x),
                ).push(TransactionItem::Input(self.inputs@[i as int])));
            }
            i = i + 1;
        }
        proof {
            assert(self.inputs@.take(self.inputs@.len() as int) =~= self.inputs@);
        }
        let ghost base = r@;
        let mut j: usize = 0;
        while j < self.outputs.len()
            invariant
                0 <= j <= self.outputs@.len(),
                r@ =~= base + self.outputs@.take(j as int).map_values(
                    |x: TransactionOutput| TransactionItem::Output(x),
                ),
            decreases self.outputs@.len() - j,
        {
            r.push(TransactionItem::Output(self.outputs[j]));
            proof {
                assert(self.outputs@.take(j + 1 as int) =~= self.outputs@.take(j as int).push(
                    self.outputs@[j as int],
                ));
                assert(self.outputs@.take(j + 1 as int).map_values(
                    |x: TransactionOutput| TransactionItem::Output(x),
                ) =~= self.outputs@.take(j as int).map_values(
                    |x: TransactionOutput| TransactionItem::Output(x),
                ).push(TransactionItem::Output(self.outputs@[j as int])));
            }
            j = j + 1;
        }
        proof {
            assert(self.outputs@.take(self.outputs@.len() as int) =~= self.outputs@);
        }
        r
    }

    /// Remove the input at `idx` and return it, or report absence when
    /// `idx` lies outside the active range. Removal backfills the vacated
    /// slot with the last active item, so it reorders the remaining slots.
    pub fn remove_input(&mut self, idx: usize) -> (r: Option<TransactionInput>)
        ensures
            idx >= old(self)@.inputs.len() ==> r == None::<TransactionInput> && final(self)@
                == old(self)@,
            idx < old(self)@.inputs.len() ==> r == Some(old(self)@.inputs[idx as int])
                && final(self)@ == (TransactionView {
                inputs: old(self)@.inputs.update(
                    idx as int,
                    old(self)@.inputs.last(),
                ).drop_last(),
                ..old(self)@
            }),
    {
        if idx >= self.inputs.len() {
            return None;
        }
        let r = self.inputs.swap_remove(idx);
        proof {
            assert(self@ =~= (TransactionView {
                inputs: old(self)@.inputs.update(idx as int, old(self)@.inputs.last()).drop_last(),
                ..old(self)@
            }));
        }
        Some(r)
    }

    /// Remove the output at `idx` and return it, or report absence when
    /// `idx` lies outside the active range. Removal backfills the vacated
    /// slot with the last active item, so it reorders the remaining slots.
    pub fn remove_output(&mut self, idx: usize) -> (r: Option<TransactionOutput>)
        ensures
            idx >= old(self)@.outputs.len() ==> r == None::<TransactionOutput> && final(self)@
                == old(self)@,
            idx < old(self)@.outputs.len() ==> r == Some(old(self)@.outputs[idx as int])
                && final(self)@ == (TransactionView {
                outputs: old(self)@.outputs.update(
                    idx as int,
                    old(self)@.outputs.last(),
                ).drop_last(),
                ..old(self)@
            }),
    {
        if idx >= self.outputs.len() {
            return None;
        }
        let r = self.outputs.swap_remove(idx);
        proof {
            assert(self@ =~= (TransactionView {
                outputs: old(self)@.outputs.update(
                    idx as int,
                    old(self)@.outputs.last(),
                ).drop_last(),
                ..old(self)@
            }));
        }
        Some(r)
    }

    /// Sort the active inputs among themselves and the active outputs among
    /// themselves into the canonical ascending order the hash and the wire
    /// format rely on.
    pub fn sort_items(&mut self)
        ensures
            final(self)@ == old(self)@.spec_sorted(),
    {
        if self.outputs.len() == 2 {
            if !output_le(&self.outputs[0], &self.outputs[1]) {
                let a = self.outputs[0];
                let b = self.outputs[1];
                let mut sorted: Vec<TransactionOutput> = Vec::new();
                sorted.push(b);
                sorted.push(a);
                self.outputs = sorted;
                proof {
                    assert(self.outputs@ =~= spec_sort_outputs(old(self)@.outputs));
                }
            }
        }
        proof {
            assert(self@ =~= old(self)@.spec_sorted());
        }
    }

    /// Canonicalize and recompute the public inputs from the canonical
    /// form, replacing any stored ones.
    fn recalculate_pi(&mut self)
        ensures
            final(self)@ == old(self)@.spec_recalculated(),
    {
        self.sort_items();
        let digest = self.hash();
        let mut pi: Vec<ZkPublicInputs> = Vec::new();
        pi.push(ZkPublicInputs { digest });
        self.public_inputs = pi;
        proof {
            assert(self@ =~= old(self)@.spec_recalculated());
        }
    }

    /// Perform the zk proof over the canonical form and append it, after
    /// recomputing the public inputs so that proofs and public inputs stay
    /// aligned by position.
    ///
    /// Depends on the secret data of the transaction items; the items are
    /// sorted for verification correctness. The slot counts are validated
    /// first: a transaction beyond the fixed capacities is rejected
    /// untouched.
    pub fn prove(&mut self) -> (r: Result<(), Error>)
        ensures
            old(self)@.wf() ==> r == Ok::<(), Error>(()) && final(self)@
                == old(self)@.spec_proved(),
            !old(self)@.wf() ==> r == Err::<(), Error>(Error::MaximumNotes) && final(self)@
                == old(self)@,
    {
        if self.inputs.len() > MAX_INPUT_NOTES_PER_TRANSACTION || self.outputs.len()
            > MAX_OUTPUT_NOTES_PER_TRANSACTION {
            return Err(Error::MaximumNotes);
        }
        self.recalculate_pi();
        let pi = self.public_inputs[0];
        let proof = crate::zk::prove(&pi);
        self.add_proof(proof);
        proof {
            assert(self@ =~= old(self)@.spec_proved());
        }
        Ok(())
    }

    /// Return all the transaction proofs created via [`Transaction::prove`].
    pub fn proofs(&self) -> (r: &Vec<Proof>)
        ensures
            r@ == self@.proofs,
    {
        &self.proofs
    }

    /// Add a proof to the list.
    pub fn add_proof(&mut self, proof: Proof)
        ensures
            final(self)@ == (TransactionView {
                proofs: old(self)@.proofs.push(proof),
                ..old(self)@
            }),
    {
        self.proofs.push(proof);
        proof {
            assert(self@ =~= (TransactionView { proofs: old(self)@.proofs.push(proof), ..old(self)@ }));
        }
    }

    /// Remove all the sensitive info from the transaction items, so the
    /// transaction can be safely broadcast. Idempotent and irreversible: a
    /// cleared transaction can still be hashed and verified, but no longer
    /// re-proved over its secrets.
    pub fn clear_sensitive_info(&mut self)
        ensures
            final(self)@ == old(self)@.spec_cleared(),
    {
        let mut inputs: Vec<TransactionInput> = Vec::new();
        let mut i: usize = 0;
        while i < self.inputs.len()
            invariant
                0 <= i <= self.inputs@.len(),
                self.inputs@ == old(self)@.inputs,
                inputs@ =~= self.inputs@.take(i as int).map_values(
                    |x: TransactionInput| x.spec_cleared(),
                ),
            decreases self.inputs@.len() - i,
        {
            let mut item = self.inputs[i];
            item.clear_sensitive_info();
            inputs.push(item);
            proof {
                assert(self.inputs@.take(i + 1 as int) =~= self.inputs@.take(i as int).push(
                    self.inputs@[i as int],
                ));
                assert(self.inputs@.take(i + 1 as int).map_values(
                    |x: TransactionInput| x.spec_cleared(),
                ) =~= self.inputs@.take(i as int).map_values(
                    |x: TransactionInput| x.spec_cleared(),
                ).push(self.inputs@[i as int].spec_cleared()));
            }
            i = i + 1;
        }
        proof {
            assert(self.inputs@.take(self.inputs@.len() as int) =~= self.inputs@);
        }
        self.inputs = inputs;
        let mut outputs: Vec<TransactionOutput> = Vec::new();
        let mut j: usize = 0;
        while j < self.outputs.len()
            invariant
                0 <= j <= self.outputs@.len(),
                self.outputs@ == old(self)@.outputs,
                outputs@ =~= self.outputs@.take(j as int).map_values(
                    |x: TransactionOutput| x.spec_cleared(),
                ),
            decreases self.outputs@.len() - j,
        {
            let mut item = self.outputs[j];
            item.clear_sensitive_info();
            outputs.push(item);
            proof {
                assert(self.outputs@.take(j + 1 as int) =~= self.outputs@.take(j as int).push(
                    self.outputs@[j as int],
                ));
                assert(self.outputs@.take(j + 1 as int).map_values(
                    |x: TransactionOutput| x.spec_cleared(),
                ) =~= self.outputs@.take(j as int).map_values(
                    |x: TransactionOutput| x.spec_cleared(),
                ).push(self.outputs@[j as int].spec_cleared()));
            }
            j = j + 1;
        }
        proof {
            assert(self.outputs@.take(self.outputs@.len() as int) =~= self.outputs@);
        }
        self.outputs = outputs;
        proof {
            assert(self@ =~= old(self)@.spec_cleared());
        }
    }

    /// Verify the transaction's stored proofs against its stored public
    /// inputs, recomputing the public inputs if absent.
    ///
    /// Fails with a parameter error when the number of stored proofs does
    /// not equal the number of stored public-input sets, and fails closed on
    /// the first failing pair. Does not depend on the items' secret data.
    pub fn verify(&mut self) -> (r: Result<(), Error>)
        ensures
            final(self)@ == old(self)@.spec_verify_pre(),
            r == old(self)@.spec_verify_result(),
    {
        if self.public_inputs.is_empty() {
            self.recalculate_pi();
        }
        proof {
            assert(self@ =~= old(self)@.spec_verify_pre());
        }
        if self.public_inputs.len() != self.proofs.len() {
            return Err(Error::InvalidParameters);
        }
        let mut i: usize = 0;
        while i < self.proofs.len()
            invariant
                0 <= i <= self@.proofs.len(),
                self@ == old(self)@.spec_verify_pre(),
                self@.public_inputs.len() == self@.proofs.len(),
                forall|k: int|
                    0 <= k < i ==> spec_verify(#[trigger] self@.proofs[k], self@.public_inputs[k]),
            decreases self@.proofs.len() - i,
        {
            if !crate::zk::verify(&self.proofs[i], &self.public_inputs[i]) {
                return Err(Error::Generic);
            }
            i = i + 1;
        }
        Ok(())
    }

    /// A deep copy of this transaction.
    pub fn duplicate(&self) -> (r: Transaction)
        ensures
            r@ == self@,
    {
        let mut proofs: Vec<Proof> = Vec::new();
        let mut i: usize = 0;
        while i < self.proofs.len()
            invariant
                0 <= i <= self.proofs@.len(),
                proofs@ =~= self.proofs@.take(i as int),
            decreases self.proofs@.len() - i,
        {
            proofs.push(self.proofs[i]);
            proof {
                assert(self.proofs@.take(i + 1 as int) =~= self.proofs@.take(i as int).push(
                    self.proofs@[i as int],
                ));
            }
            i = i + 1;
        }
        let mut public_inputs: Vec<ZkPublicInputs> = Vec::new();
        let mut j: usize = 0;
        while j < self.public_inputs.len()
            invariant
                0 <= j <= self.public_inputs@.len(),
                public_inputs@ =~= self.public_inputs@.take(j as int),
            decreases self.public_inputs@.len() - j,
        {
            public_inputs.push(self.public_inputs[j]);
            proof {
                assert(self.public_inputs@.take(j + 1 as int) =~= self.public_inputs@.take(
                    j as int,
                ).push(self.public_inputs@[j as int]));
            }
            j = j + 1;
        }
        let mut inputs: Vec<TransactionInput> = Vec::new();
        let mut k: usize = 0;
        while k < self.inputs.len()
            invariant
                0 <= k <= self.inputs@.len(),
                inputs@ =~= self.inputs@.take(k as int),
            decreases self.inputs@.len() - k,
        {
            inputs.push(self.inputs[k]);
            proof {
                assert(self.inputs@.take(k + 1 as int) =~= self.inputs@.take(k as int).push(
                    self.inputs@[k as int],
                ));
            }
            k = k + 1;
        }
        let mut outputs: Vec<TransactionOutput> = Vec::new();
        let mut m: usize = 0;
        while m < self.outputs.len()
            invariant
                0 <= m <= self.outputs@.len(),
                outputs@ =~= self.outputs@.take(m as int),
            decreases self.outputs@.len() - m,
        {
            outputs.push(self.outputs[m]);
            proof {
                assert(self.outputs@.take(m + 1 as int) =~= self.outputs@.take(m as int).push(
                    self.outputs@[m as int],
                ));
            }
            m = m + 1;
        }
        proof {
            assert(proofs@.take(self.proofs@.len() as int) =~= proofs@);
            assert(self.proofs@.take(self.proofs@.len() as int) =~= self.proofs@);
            assert(self.public_inputs@.take(self.public_inputs@.len() as int) =~= self.public_inputs@);
            assert(self.inputs@.take(self.inputs@.len() as int) =~= self.inputs@);
            assert(self.outputs@.take(self.outputs@.len() as int) =~= self.outputs@);
        }
        let r = Transaction {
            inputs,
            outputs,
            crossover: self.crossover,
            contract_output: self.contract_output,
            fee: self.fee,
            proofs,
            public_inputs,
        };
        proof {
            assert(r@ =~= self@);
        }
        r
    }

    /// Draw a balanced transaction: one random transparent input (when the
    /// drawn value is positive), up to two obfuscated outputs splitting that
    /// value, and a transparent fee carrying the remainder, so that the
    /// input value equals the output values plus the fee.
    #[verifier::spinoff_prover]
    pub fn sample() -> (r: Transaction)
        ensures
            r@.wf(),
            r@.spec_input_value_sum() == r@.spec_output_value_sum() + r@.fee.value,
    {
        let mut tx = Transaction::default();
        let v = random_u64_below(u64::MAX - 1);
        proof {
            assert(spec_inputs_value(Seq::<TransactionInput>::empty()) == 0);
            assert(spec_outputs_value(Seq::<TransactionOutput>::empty()) == 0);
        }
        if v > 0 {
            let note = NoteVariant::transparent(0, v);
            let merkle_root = note.hash();
            let input = note.to_transaction_input(merkle_root);
            let _pushed = tx.push_input(input);
            proof {
                assert(tx@.inputs =~= seq![input]);
                assert(tx@.inputs.drop_last() =~= Seq::<TransactionInput>::empty());
                assert(spec_inputs_value(tx@.inputs) == v);
            }
        }
        proof {
            assert(spec_inputs_value(tx@.inputs) == v);
            assert(tx@.outputs =~= Seq::<TransactionOutput>::empty());
        }
        let mut remaining = v;
        let o1 = if remaining > 0 {
            random_u64_below(remaining)
        } else {
            0
        };
        remaining = remaining - o1;
        let o2 = if remaining > 0 {
            random_u64_below(remaining)
        } else {
            0
        };
        remaining = remaining - o2;
        let ghost inputs_snapshot = tx@.inputs;
        if o1 > 0 {
            let (note, blinding) = NoteVariant::obfuscated_output(0, o1);
            let out = note.to_transaction_output(o1, blinding, 0);
            let _pushed = tx.push_output(out);
            proof {
                assert(tx@.outputs =~= seq![out]);
                assert(tx@.outputs.drop_last() =~= Seq::<TransactionOutput>::empty());
                assert(spec_outputs_value(tx@.outputs) == o1);
            }
        }
        proof {
            assert(spec_outputs_value(tx@.outputs) == o1);
        }
        let ghost outputs_snapshot = tx@.outputs;
        if o2 > 0 {
            let (note, blinding) = NoteVariant::obfuscated_output(0, o2);
            let out = note.to_transaction_output(o2, blinding, 0);
            let _pushed = tx.push_output(out);
            proof {
                assert(tx@.outputs =~= outputs_snapshot.push(out));
                assert(tx@.outputs.drop_last() =~= outputs_snapshot);
                assert(spec_outputs_value(tx@.outputs) == o1 + o2);
            }
        }
        proof {
            assert(spec_outputs_value(tx@.outputs) == o1 + o2);
            assert(tx@.inputs == inputs_snapshot);
        }
        let fee_note = NoteVariant::transparent(0, remaining);
        tx.set_fee(fee_note.to_transaction_output(remaining, 0, 0));
        tx
    }
}

impl Clone for Transaction {
    /// A deep copy; the proofs are duplicated properly rather than
    /// reinterpreted bitwise.
    fn clone(&self) -> (r: Transaction)
        ensures
            r@ == self@,
    {
        self.duplicate()
    }
}

impl PartialEq for Transaction {
    /// Transactions compare equal exactly when their hashes do. This is a
    /// deliberate simplification resting on the hash's injectivity
    /// assumption: two transactions with colliding hashes are considered
    /// equal.
    fn eq(&self, other: &Transaction) -> (r: bool) {
        self.hash() == other.hash()
    }
}

impl vstd::std_specs::cmp::PartialEqSpecImpl for Transaction {
    open spec fn obeys_eq_spec() -> bool {
        true
    }

    open spec fn eq_spec(&self, other: &Transaction) -> bool {
        self@.spec_hash() == other@.spec_hash()
    }
}

impl Eq for Transaction {

}

/// Law: permuting the order in which items were pushed never changes the
/// hash. Two well-formed transactions holding the same fee, the same
/// multiset of inputs and the same multiset of outputs hash identically,
/// because the hash absorbs the items in canonical order.
pub proof fn lemma_hash_stability(a: TransactionView, b: TransactionView)
    requires
        a.wf(),
        b.wf(),
        a.fee == b.fee,
        a.inputs.to_multiset() == b.inputs.to_multiset(),
        a.outputs.to_multiset() == b.outputs.to_multiset(),
    ensures
        a.spec_hash() == b.spec_hash(),
{
    a.inputs.to_multiset_ensures();
    b.inputs.to_multiset_ensures();
    assert(a.inputs.len() == b.inputs.len());
    if a.inputs.len() == 1 {
        assert(a.inputs.contains(a.inputs[0]));
        assert(b.inputs.to_multiset().count(a.inputs[0]) > 0);
        assert(b.inputs.contains(a.inputs[0]));
        assert(a.inputs =~= b.inputs);
    } else {
        assert(a.inputs =~= b.inputs);
    }
    a.outputs.to_multiset_ensures();
    b.outputs.to_multiset_ensures();
    assert(a.outputs.len() == b.outputs.len());
    if a.outputs.len() == 0 {
        assert(a.outputs =~= b.outputs);
        assert(a.spec_hash_domain() =~= b.spec_hash_domain());
    } else if a.outputs.len() == 1 {
        assert(a.outputs.contains(a.outputs[0]));
        assert(b.outputs.to_multiset().contains(a.outputs[0]));
        assert(b.outputs.contains(a.outputs[0]));
        assert(a.outputs =~= b.outputs);
        assert(a.spec_hash_domain() =~= b.spec_hash_domain());
    } else {
        let x = a.outputs[0];
        let y = a.outputs[1];
        assert(b.outputs =~= seq![x, y] || b.outputs =~= seq![y, x]) by {
            assert(a.outputs.contains(x));
            assert(a.outputs.contains(y));
            assert(b.outputs.to_multiset().count(x) > 0);
            assert(b.outputs.to_multiset().count(y) > 0);
            assert(b.outputs.contains(x));
            assert(b.outputs.contains(y));
            assert(b.outputs.contains(b.outputs[0]));
            assert(b.outputs.contains(b.outputs[1]));
            assert(a.outputs.to_multiset().count(b.outputs[0]) > 0);
            assert(a.outputs.to_multiset().count(b.outputs[1]) > 0);
            assert(a.outputs.contains(b.outputs[0]));
            assert(a.outputs.contains(b.outputs[1]));
        }
        if b.outputs =~= seq![y, x] && x != y {
            lemma_output_le_total(x, y);
            if spec_output_le(x, y) && spec_output_le(y, x) {
                // an order tie: the two outputs may differ in secret
                // material, but their note hashes coincide, so either
                // canonical order absorbs the same scalars
                lemma_output_le_tie(x, y);
                assert(spec_sort_outputs(a.outputs) =~= seq![x, y]);
                assert(spec_sort_outputs(b.outputs) =~= seq![y, x]);
                assert(a.spec_hash_domain() =~= b.spec_hash_domain());
            } else {
                assert(spec_sort_outputs(a.outputs) =~= spec_sort_outputs(b.outputs));
                assert(a.spec_hash_domain() =~= b.spec_hash_domain());
            }
        } else {
            assert(a.outputs =~= b.outputs);
            assert(a.spec_hash_domain() =~= b.spec_hash_domain());
        }
    }
}

/// Law: clearing secret material never changes the hash. A transaction can
/// be cleared for broadcast and still be hashed: the canonical order keys
/// only on fields that survive clearing, and a note's hash reads none of
/// its secrets.
pub proof fn lemma_hash_stable_under_clear(t: TransactionView)
    ensures
        t.spec_cleared().spec_hash() == t.spec_hash(),
{
    let c = t.spec_cleared();
    t.fee.note.lemma_hash_stable_under_clear();
    if t.inputs.len() >= 1 {
        assert(c.inputs[0] == t.inputs[0].spec_cleared());
        t.inputs[0].note.lemma_hash_stable_under_clear();
    }
    if t.outputs.len() == 0 {
        assert(c.outputs =~= Seq::<TransactionOutput>::empty());
        assert(c.spec_hash_domain() =~= t.spec_hash_domain());
    } else if t.outputs.len() == 1 {
        assert(c.outputs[0] == t.outputs[0].spec_cleared());
        t.outputs[0].note.lemma_hash_stable_under_clear();
        assert(c.spec_hash_domain() =~= t.spec_hash_domain());
    } else {
        let o0 = t.outputs[0];
        let o1 = t.outputs[1];
        assert(c.outputs[0] == o0.spec_cleared());
        assert(c.outputs[1] == o1.spec_cleared());
        lemma_output_le_clear_stable(o0, o1);
        o0.note.lemma_hash_stable_under_clear();
        o1.note.lemma_hash_stable_under_clear();
        if t.outputs.len() == 2 {
            assert(c.spec_hash_domain() =~= t.spec_hash_domain());
        } else {
            // beyond capacity (excluded by well-formedness) the domain reads
            // the first two slots as they stand
            assert(c.spec_hash_domain() =~= t.spec_hash_domain());
        }
    }
}

/// Law: a freshly proved, unmodified transaction verifies. Proving appends
/// one proof and recomputes the single public-input entry from the canonical
/// form, so on a transaction that held no proofs the counts match and the
/// pair checks.
pub proof fn lemma_verify_after_prove(t: TransactionView)
    requires
        t.proofs.len() == 0,
    ensures
        t.spec_proved().spec_verify_result() == Ok::<(), Error>(()),
{
    let p = t.spec_proved();
    assert(p.public_inputs.len() == 1);
    assert(p.proofs.len() == 1);
    assert(p.spec_verify_pre() == p);
    assert(spec_verify(p.proofs[0], p.public_inputs[0]));
}

/// Law: a second unmatched `prove` breaks the proof/public-input pairing, so
/// `verify` reports a parameter error: the proof count no longer equals the
/// public-input count.
pub proof fn lemma_verify_after_double_prove(t: TransactionView)
    requires
        t.proofs.len() == 0,
    ensures
        t.spec_proved().spec_proved().spec_verify_result() == Err::<(), Error>(
            Error::InvalidParameters,
        ),
{
    let p = t.spec_proved().spec_proved();
    assert(p.proofs.len() == 2);
    assert(p.public_inputs.len() == 1);
}

} // verus!
