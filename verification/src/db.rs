//! The ledger store: the mapping from index to unspent note (the UTXO set)
//! and the set of consumed nullifiers.
//!
//! Both collections grow monotonically: notes are never removed and spends
//! are permanent. Index assignment is purely sequential, never
//! content-addressed. The store demands exclusive access (`&mut`), so the
//! non-blocking contention failure of a shared store cannot arise here;
//! applying a transaction validates every spend first and only then writes,
//! so a rejected transaction leaves the store untouched.
use vstd::prelude::*;
use crate::Error;
use crate::scalar::Scalar;
use crate::note::NoteVariant;
use crate::item::{TransactionInput, TransactionItem, TransactionOutput};
use crate::transaction::{Transaction, TransactionView};

verus! {

/// The ledger store.
pub struct Db {
    /// The stored notes; the position in this vector is the note's index,
    /// and the note is stamped with it.
    pub(crate) notes: Vec<NoteVariant>,
    /// The consumed nullifiers, each held at most once.
    pub(crate) nullifiers: Vec<Scalar>,
}

/// The mathematical image of the store.
#[verifier::ext_equal]
pub struct DbView {
    /// The stored notes in index order.
    pub notes: Seq<NoteVariant>,
    /// The consumed nullifiers in insertion order, free of duplicates.
    pub nullifiers: Seq<Scalar>,
}

impl View for Db {
    type V = DbView;

    open(crate) spec fn view(&self) -> DbView {
        DbView { notes: self.notes@, nullifiers: self.nullifiers@ }
    }
}

impl DbView {
    /// The fresh, empty store.
    pub open spec fn spec_empty() -> DbView {
        DbView { notes: Seq::empty(), nullifiers: Seq::empty() }
    }

    /// Every stored note is stamped with its position, and no nullifier is
    /// registered twice.
    pub open spec fn wf(self) -> bool {
        (forall|i: int| 0 <= i < self.notes.len() ==> #[trigger] self.notes[i].spec_idx() == i)
            && (forall|i: int, j: int|
            0 <= i < j < self.nullifiers.len() ==> self.nullifiers[i] != self.nullifiers[j])
    }

    /// The set of consumed nullifiers.
    pub open spec fn spec_nullifier_set(self) -> Set<Scalar> {
        self.nullifiers.to_set()
    }
}

/// Register a nullifier: the sequence is unchanged when the nullifier is
/// already present, so the collection keeps set semantics.
pub open spec fn spec_insert_nullifier(s: Seq<Scalar>, nullifier: Scalar) -> Seq<Scalar> {
    if s.contains(nullifier) {
        s
    } else {
        s.push(nullifier)
    }
}

/// Register the nullifiers of a sequence of inputs, in order.
pub open spec fn spec_insert_all(s: Seq<Scalar>, inputs: Seq<TransactionInput>) -> Seq<Scalar>
    decreases inputs.len(),
{
    if inputs.len() == 0 {
        s
    } else {
        spec_insert_nullifier(spec_insert_all(s, inputs.drop_last()), inputs.last().nullifier)
    }
}

/// Append the notes of a sequence of outputs, stamping each with the index
/// it lands on.
pub open spec fn spec_append_notes(notes: Seq<NoteVariant>, outs: Seq<TransactionOutput>) -> Seq<
    NoteVariant,
>
    decreases outs.len(),
{
    if outs.len() == 0 {
        notes
    } else {
        spec_append_notes(notes, outs.drop_last()).push(
            outs.last().note.spec_with_idx((notes.len() + outs.len() - 1) as u64),
        )
    }
}

/// Appending outputs grows the note sequence by exactly their count.
pub proof fn lemma_append_notes_len(notes: Seq<NoteVariant>, outs: Seq<TransactionOutput>)
    ensures
        spec_append_notes(notes, outs).len() == notes.len() + outs.len(),
    decreases outs.len(),
{
    if outs.len() > 0 {
        lemma_append_notes_len(notes, outs.drop_last());
    }
}

/// Appending a concatenation appends the two parts one after the other.
pub proof fn lemma_append_notes_concat(
    notes: Seq<NoteVariant>,
    a: Seq<TransactionOutput>,
    b: Seq<TransactionOutput>,
)
    ensures
        spec_append_notes(notes, a + b) == spec_append_notes(spec_append_notes(notes, a), b),
    decreases b.len(),
{
    if b.len() == 0 {
        assert(a + b =~= a);
    } else {
        assert((a + b).drop_last() =~= a + b.drop_last());
        assert((a + b).last() == b.last());
        lemma_append_notes_concat(notes, a, b.drop_last());
        lemma_append_notes_len(notes, a);
    }
}

/// A transaction is acceptable to the store when every input's nullifier is
/// the one derived from its note.
pub open spec fn spec_tx_valid(t: TransactionView) -> bool {
    forall|k: int|
        0 <= k < t.inputs.len() ==> #[trigger] t.inputs[k].nullifier
            == t.inputs[k].note.spec_nullifier()
}

/// The store after a valid transaction is applied: the fee note first, then
/// every item in declaration order — nullifiers registered for the inputs,
/// notes appended for the outputs.
pub open spec fn spec_store_effect(db: DbView, t: TransactionView) -> DbView {
    DbView {
        notes: spec_append_notes(db.notes, seq![t.fee] + t.outputs),
        nullifiers: spec_insert_all(db.nullifiers, t.inputs),
    }
}

/// The indices a valid transaction's stored notes land on: the fee's index
/// first, then one for each output, consecutively.
pub open spec fn spec_store_idxs(db: DbView, t: TransactionView) -> Seq<u64> {
    Seq::new(1 + t.outputs.len(), |q: int| (db.notes.len() + q) as u64)
}

/// The store after a sequence of valid transactions is applied in order.
pub open spec fn spec_bulk_effect(db: DbView, ts: Seq<Transaction>) -> DbView
    decreases ts.len(),
{
    if ts.len() == 0 {
        db
    } else {
        spec_store_effect(spec_bulk_effect(db, ts.drop_last()), ts.last()@)
    }
}

/// The indices a sequence of valid transactions' stored notes land on.
pub open spec fn spec_bulk_idxs(db: DbView, ts: Seq<Transaction>) -> Seq<u64>
    decreases ts.len(),
{
    if ts.len() == 0 {
        Seq::empty()
    } else {
        spec_bulk_idxs(db, ts.drop_last()) + spec_store_idxs(
            spec_bulk_effect(db, ts.drop_last()),
            ts.last()@,
        )
    }
}

impl Db {
    /// Create a fresh, empty store.
    pub fn new() -> (r: Result<Db, Error>)
        ensures
            r is Ok,
            r matches Ok(db) ==> db@ == DbView::spec_empty() && db@.wf(),
    {
        let db = Db { notes: Vec::new(), nullifiers: Vec::new() };
        proof {
            assert(db@ =~= DbView::spec_empty());
        }
        Ok(db)
    }

    /// The stored notes in index order. The store owns its collections;
    /// callers only read.
    pub fn notes(&self) -> (r: &[NoteVariant])
        ensures
            r@ == self@.notes,
    {
        self.notes.as_slice()
    }

    /// The consumed nullifiers, each held at most once. The store owns its
    /// collections; callers only read.
    pub fn nullifiers(&self) -> (r: &[Scalar])
        ensures
            r@ == self@.nullifiers,
    {
        self.nullifiers.as_slice()
    }

    /// Return the current Merkle root: a pass-through to the external
    /// commitment tree, fixed at the default scalar while no tree is wired
    /// in.
    pub fn root(&self) -> (r: Scalar)
        ensures
            r == Scalar::spec_zero(),
    {
        Scalar::zero()
    }

    /// Whether a nullifier is registered.
    fn nullifier_present(&self, nullifier: &Scalar) -> (r: bool)
        ensures
            r == self@.nullifiers.contains(*nullifier),
    {
        let mut i: usize = 0;
        while i < self.nullifiers.len()
            invariant
                0 <= i <= self@.nullifiers.len(),
                forall|k: int| 0 <= k < i ==> self@.nullifiers[k] != *nullifier,
            decreases self@.nullifiers.len() - i,
        {
            if self.nullifiers[i] == *nullifier {
                return true;
            }
            i = i + 1;
        }
        false
    }

    /// Store a note: assign the next sequential index, stamp the note with
    /// it, insert it, and return the index. Assignment is purely
    /// positional; indices are never reused.
    pub fn store_unspent_note(&mut self, note: NoteVariant) -> (r: Result<u64, Error>)
        ensures
            r == Ok::<u64, Error>(old(self)@.notes.len() as u64),
            final(self)@ == (DbView {
                notes: old(self)@.notes.push(
                    note.spec_with_idx(old(self)@.notes.len() as u64),
                ),
                ..old(self)@
            }),
            old(self)@.wf() ==> final(self)@.wf(),
    {
        let idx: u64 = self.notes.len() as u64;
        let mut stamped = note;
        stamped.set_idx(idx);
        self.notes.push(stamped);
        proof {
            assert(self@ =~= (DbView {
                notes: old(self)@.notes.push(note.spec_with_idx(old(self)@.notes.len() as u64)),
                ..old(self)@
            }));
        }
        Ok(idx)
    }

    /// Attempt to store a transaction item.
    ///
    /// An input has its nullifier validated against its note and then
    /// registered (at most once — set semantics), producing no index; an
    /// output has its note stored and returns the freshly assigned index.
    pub fn store_transaction_item(&mut self, item: &TransactionItem) -> (r: Result<
        Option<u64>,
        Error,
    >)
        ensures
            item matches TransactionItem::Input(i) ==> (i.nullifier == i.note.spec_nullifier()
                ==> r == Ok::<Option<u64>, Error>(None) && final(self)@ == (DbView {
                nullifiers: spec_insert_nullifier(old(self)@.nullifiers, i.nullifier),
                ..old(self)@
            })),
            item matches TransactionItem::Input(i) ==> (i.nullifier != i.note.spec_nullifier()
                ==> r == Err::<Option<u64>, Error>(Error::InvalidParameters) && final(self)@
                == old(self)@),
            item matches TransactionItem::Output(o) ==> r == Ok::<Option<u64>, Error>(
                Some(old(self)@.notes.len() as u64),
            ) && final(self)@ == (DbView {
                notes: old(self)@.notes.push(
                    o.note.spec_with_idx(old(self)@.notes.len() as u64),
                ),
                ..old(self)@
            }),
            old(self)@.wf() ==> final(self)@.wf(),
    {
        match item {
            TransactionItem::Input(input) => {
                match input.note.validate_nullifier(&input.nullifier) {
                    Ok(()) => {},
                    Err(_) => {
                        return Err(Error::InvalidParameters);
                    },
                }
                proof {
                    assert(input.nullifier == input.note.spec_nullifier());
                }
                if !self.nullifier_present(&input.nullifier) {
                    self.nullifiers.push(input.nullifier);
                }
                proof {
                    assert(self@ =~= (DbView {
                        nullifiers: spec_insert_nullifier(
                            old(self)@.nullifiers,
                            input.nullifier,
                        ),
                        ..old(self)@
                    }));
                    if old(self)@.wf() && !old(self)@.nullifiers.contains(input.nullifier) {
                        assert(forall|i: int, j: int|
                            0 <= i < j < self@.nullifiers.len() ==> self@.nullifiers[i]
                                != self@.nullifiers[j]) by {
                            assert(forall|i: int|
                                0 <= i < old(self)@.nullifiers.len()
                                    ==> old(self)@.nullifiers[i] != input.nullifier) by {
                                assert(forall|i: int|
                                    0 <= i < old(self)@.nullifiers.len()
                                        ==> old(self)@.nullifiers.contains(#[trigger] old(
                                        self,
                                    )@.nullifiers[i]));
                            }
                        }
                    }
                }
                Ok(None)
            },
            TransactionItem::Output(output) => {
                match self.store_unspent_note(output.note) {
                    Ok(idx) => Ok(Some(idx)),
                    Err(e) => Err(e),
                }
            },
        }
    }

    /// Store a transaction: the fee output first (a fee that yields no
    /// stored index is the hard error [`Error::FeeOutput`]), then every item
    /// in declaration order, returning the indices of all stored notes.
    ///
    /// Every spend is validated before anything is written, so a rejected
    /// transaction leaves the store exactly as it was.
    pub fn store(&mut self, transaction: &Transaction) -> (r: Result<Vec<u64>, Error>)
        ensures
            spec_tx_valid(transaction@) ==> (r matches Ok(idxs) && idxs@ == spec_store_idxs(
                old(self)@,
                transaction@,
            ) && final(self)@ == spec_store_effect(old(self)@, transaction@)),
            !spec_tx_valid(transaction@) ==> r == Err::<Vec<u64>, Error>(Error::InvalidParameters)
                && final(self)@ == old(self)@,
            r is Err ==> final(self)@ == old(self)@,
            old(self)@.wf() ==> final(self)@.wf(),
    {
        let mut k: usize = 0;
        while k < transaction.inputs.len()
            invariant
                0 <= k <= transaction@.inputs.len(),
                forall|j: int|
                    0 <= j < k ==> #[trigger] transaction@.inputs[j].nullifier
                        == transaction@.inputs[j].note.spec_nullifier(),
            decreases transaction@.inputs.len() - k,
        {
            let inp = transaction.inputs[k];
            match inp.note.validate_nullifier(&inp.nullifier) {
                Ok(()) => {},
                Err(_) => {
                    return Err(Error::InvalidParameters);
                },
            }
            proof {
                assert(inp == transaction@.inputs[k as int]);
                assert(transaction@.inputs[k as int].nullifier == transaction@.inputs[
                    k as int
                ].note.spec_nullifier());
            }
            k = k + 1;
        }
        let fee_item = TransactionItem::Output(transaction.fee());
        let fee_idx = match self.store_transaction_item(&fee_item) {
            Ok(Some(idx)) => idx,
            Ok(None) => {
                return Err(Error::FeeOutput);
            },
            Err(e) => {
                return Err(e);
            },
        };
        let ghost after_fee = self@;
        let mut idxs: Vec<u64> = Vec::new();
        idxs.push(fee_idx);
        let mut i: usize = 0;
        while i < transaction.inputs.len()
            invariant
                0 <= i <= transaction@.inputs.len(),
                spec_tx_valid(transaction@),
                self@.notes == after_fee.notes,
                self@.nullifiers == spec_insert_all(
                    after_fee.nullifiers,
                    transaction@.inputs.take(i as int),
                ),
                old(self)@.wf() ==> self@.wf(),
                after_fee.wf() ==> self@.wf(),
            decreases transaction@.inputs.len() - i,
        {
            let item = TransactionItem::Input(transaction.inputs[i]);
            match self.store_transaction_item(&item) {
                Ok(_) => {},
                Err(e) => {
                    return Err(e);
                },
            }
            proof {
                assert(transaction@.inputs.take(i + 1 as int).drop_last()
                    =~= transaction@.inputs.take(i as int));
                assert(transaction@.inputs.take(i + 1 as int).last() == transaction@.inputs[
                    i as int
                ]);
            }
            i = i + 1;
        }
        proof {
            assert(transaction@.inputs.take(transaction@.inputs.len() as int)
                =~= transaction@.inputs);
        }
        let ghost after_inputs = self@;
        let mut j: usize = 0;
        while j < transaction.outputs.len()
            invariant
                0 <= j <= transaction@.outputs.len(),
                self@.notes == spec_append_notes(
                    after_inputs.notes,
                    transaction@.outputs.take(j as int),
                ),
                self@.nullifiers == after_inputs.nullifiers,
                idxs@ == seq![old(self)@.notes.len() as u64] + Seq::new(
                    j as nat,
                    |q: int| (old(self)@.notes.len() + 1 + q) as u64,
                ),
                after_inputs.notes.len() == old(self)@.notes.len() + 1,
                after_inputs.wf() ==> self@.wf(),
            decreases transaction@.outputs.len() - j,
        {
            proof {
                lemma_append_notes_len(after_inputs.notes, transaction@.outputs.take(j as int));
            }
            let item = TransactionItem::Output(transaction.outputs[j]);
            match self.store_transaction_item(&item) {
                Ok(Some(idx)) => {
                    idxs.push(idx);
                },
                Ok(None) => {},
                Err(e) => {
                    return Err(e);
                },
            }
            proof {
                assert(transaction@.outputs.take(j + 1 as int).drop_last()
                    =~= transaction@.outputs.take(j as int));
                assert(transaction@.outputs.take(j + 1 as int).last() == transaction@.outputs[
                    j as int
                ]);
                assert(idxs@ =~= seq![old(self)@.notes.len() as u64] + Seq::new(
                    (j + 1) as nat,
                    |q: int| (old(self)@.notes.len() + 1 + q) as u64,
                ));
            }
            j = j + 1;
        }
        proof {
            assert(transaction@.outputs.take(transaction@.outputs.len() as int)
                =~= transaction@.outputs);
            assert(seq![transaction@.fee] + transaction@.outputs =~= seq![transaction@.fee].add(
                transaction@.outputs,
            ));
            lemma_append_notes_concat(old(self)@.notes, seq![transaction@.fee], transaction@.outputs);
            let fees = seq![transaction@.fee];
            assert(fees.drop_last() =~= Seq::<TransactionOutput>::empty());
            assert(spec_append_notes(old(self)@.notes, fees.drop_last()) == old(self)@.notes);
            assert(spec_append_notes(old(self)@.notes, fees) == old(self)@.notes.push(
                fees.last().note.spec_with_idx(old(self)@.notes.len() as u64),
            ));
            assert(spec_append_notes(old(self)@.notes, fees) =~= after_fee.notes);
            assert(self@ =~= spec_store_effect(old(self)@, transaction@));
            assert(idxs@ =~= spec_store_idxs(old(self)@, transaction@));
        }
        Ok(idxs)
    }

    /// Store a sequence of transactions in order, concatenating the
    /// returned indices.
    ///
    /// Each transaction is applied atomically, but the sequence as a whole
    /// is not: a rejected transaction leaves every earlier one applied, and
    /// the store reports which prefix went through in its final state.
    pub fn store_bulk_transactions(&mut self, transactions: &Vec<Transaction>) -> (r: Result<
        Vec<u64>,
        Error,
    >)
        ensures
            (forall|k: int|
                0 <= k < transactions@.len() ==> spec_tx_valid(
                    #[trigger] transactions@[k]@,
                )) ==> (r matches Ok(idxs) && idxs@ == spec_bulk_idxs(old(self)@, transactions@)
                && final(self)@ == spec_bulk_effect(old(self)@, transactions@)),
            r is Err ==> r == Err::<Vec<u64>, Error>(Error::InvalidParameters) && exists|k: int|
                0 <= k < transactions@.len() && !spec_tx_valid(#[trigger] transactions@[k]@)
                    && final(self)@ == spec_bulk_effect(old(self)@, transactions@.take(k)),
            old(self)@.wf() ==> final(self)@.wf(),
    {
        let mut idxs: Vec<u64> = Vec::new();
        let mut i: usize = 0;
        while i < transactions.len()
            invariant
                0 <= i <= transactions@.len(),
                forall|k: int| 0 <= k < i ==> spec_tx_valid(#[trigger] transactions@[k]@),
                self@ == spec_bulk_effect(old(self)@, transactions@.take(i as int)),
                idxs@ == spec_bulk_idxs(old(self)@, transactions@.take(i as int)),
                old(self)@.wf() ==> self@.wf(),
            decreases transactions@.len() - i,
        {
            let mut got = match self.store(&transactions[i]) {
                Ok(v) => v,
                Err(e) => {
                    proof {
                        assert(!spec_tx_valid(transactions@[i as int]@));
                    }
                    return Err(e);
                },
            };
            idxs.append(&mut got);
            proof {
                assert(transactions@.take(i + 1 as int).drop_last() =~= transactions@.take(
                    i as int,
                ));
                assert(transactions@.take(i + 1 as int).last() == transactions@[i as int]);
            }
            i = i + 1;
        }
        proof {
            assert(transactions@.take(transactions@.len() as int) =~= transactions@);
        }
        Ok(idxs)
    }

    /// Return the note stored at the given position, or a generic error
    /// when the position was never assigned.
    pub fn fetch_note(&self, idx: u64) -> (r: Result<NoteVariant, Error>)
        ensures
            idx < self@.notes.len() ==> r == Ok::<NoteVariant, Error>(self@.notes[idx as int]),
            idx >= self@.notes.len() ==> r == Err::<NoteVariant, Error>(Error::Generic),
    {
        if idx < self.notes.len() as u64 {
            Ok(self.notes[idx as usize])
        } else {
            Err(Error::Generic)
        }
    }

    /// Check whether a nullifier has been consumed: a presence check only,
    /// never dereferenced to its note.
    pub fn fetch_nullifier(&self, nullifier: &Scalar) -> (r: Result<Option<()>, Error>)
        ensures
            r == Ok::<Option<()>, Error>(
                if self@.spec_nullifier_set().contains(*nullifier) {
                    Some(())
                } else {
                    None
                },
            ),
    {
        proof {
            assert(self@.nullifiers.contains(*nullifier) == self@.spec_nullifier_set().contains(
                *nullifier,
            ));
        }
        if self.nullifier_present(nullifier) {
            Ok(Some(()))
        } else {
            Ok(None)
        }
    }

    /// Run `filter` over every stored note in index order and collect the
    /// hits. An O(n) scan by design: note discovery keeps no index of its
    /// own.
    pub fn filter_all_notes<F: Fn(&NoteVariant) -> Option<NoteVariant>>(&self, filter: F) -> (r:
        Result<Vec<NoteVariant>, Error>)
        requires
            forall|i: int|
                0 <= i < self@.notes.len() ==> call_requires(filter, (&self@.notes[i],)),
        ensures
            r is Ok,
            spec_all_filter_hits(filter, self@.notes, r->Ok_0@),
            exists|decisions: Seq<Option<NoteVariant>>|
                #[trigger] spec_collect_hits(decisions) == r->Ok_0@ && decisions.len()
                    == self@.notes.len() && forall|i: int|
                    0 <= i < decisions.len() ==> call_ensures(
                        filter,
                        (&self@.notes[i],),
                        #[trigger] decisions[i],
                    ),
    {
        let mut hits: Vec<NoteVariant> = Vec::new();
        let ghost mut decisions: Seq<Option<NoteVariant>> = Seq::empty();
        let mut i: usize = 0;
        while i < self.notes.len()
            invariant
                0 <= i <= self@.notes.len(),
                forall|q: int|
                    0 <= q < self@.notes.len() ==> call_requires(filter, (&self@.notes[q],)),
                spec_all_filter_hits(filter, self@.notes, hits@),
                decisions.len() == i,
                forall|q: int|
                    0 <= q < decisions.len() ==> call_ensures(
                        filter,
                        (&self@.notes[q],),
                        #[trigger] decisions[q],
                    ),
                hits@ == spec_collect_hits(decisions),
            decreases self@.notes.len() - i,
        {
            let ghost prev = hits@;
            let ghost prev_decisions = decisions;
            let hit = filter(&self.notes[i]);
            proof {
                decisions = decisions.push(hit);
                assert(decisions.drop_last() =~= prev_decisions);
            }
            match hit {
                Some(note) => {
                    hits.push(note);
                    proof {
                        assert(decisions.drop_last() =~= prev_decisions);
                        assert(hits@ == spec_collect_hits(decisions));
                        assert((i as int) < self@.notes.len() && call_ensures(
                            filter,
                            (&self@.notes[i as int],),
                            Some(hits@[hits@.len() - 1]),
                        ));
                        assert forall|k: int| 0 <= k < hits@.len() implies exists|q: int|
                            0 <= q < self@.notes.len() && call_ensures(
                                filter,
                                (&self@.notes[q],),
                                Some(#[trigger] hits@[k]),
                            ) by {
                            if k < hits@.len() - 1 {
                                assert(hits@[k] == prev[k]);
                                assert(exists|q: int|
                                    0 <= q < self@.notes.len() && call_ensures(
                                        filter,
                                        (&self@.notes[q],),
                                        Some(#[trigger] prev[k]),
                                    ));
                            }
                        }
                        assert(spec_all_filter_hits(filter, self@.notes, hits@));
                    }
                },
                None => {
                    proof {
                        assert(decisions.drop_last() =~= prev_decisions);
                        assert(hits@ == spec_collect_hits(decisions));
                    }
                },
            }
            i = i + 1;
        }
        let ghost collected = hits@;
        let res: Result<Vec<NoteVariant>, Error> = Ok(hits);
        proof {
            assert(res->Ok_0@ == collected);
            assert(spec_all_filter_hits(filter, self@.notes, res->Ok_0@));
            assert(spec_collect_hits(decisions) == res->Ok_0@);
        }
        res
    }
}


/// The hits a sequence of per-note filter decisions collects, in note
/// order.
pub open spec fn spec_collect_hits(decisions: Seq<Option<NoteVariant>>) -> Seq<NoteVariant>
    decreases decisions.len(),
{
    if decisions.len() == 0 {
        Seq::empty()
    } else {
        let prev = spec_collect_hits(decisions.drop_last());
        match decisions.last() {
            None => prev,
            Some(n) => prev.push(n),
        }
    }
}

/// Every collected hit is an outcome of the filter on some stored note.
pub open spec fn spec_all_filter_hits<F: Fn(&NoteVariant) -> Option<NoteVariant>>(
    filter: F,
    notes: Seq<NoteVariant>,
    hits: Seq<NoteVariant>,
) -> bool {
    forall|k: int|
        0 <= k < hits.len() ==> exists|i: int|
            0 <= i < notes.len() && call_ensures(filter, (&notes[i],), Some(#[trigger] hits[k]))
}

/// The notes a fresh store holds after a batch of notes is stored one by
/// one.
pub open spec fn spec_notes_after(batch: Seq<NoteVariant>) -> Seq<NoteVariant>
    decreases batch.len(),
{
    if batch.len() == 0 {
        Seq::empty()
    } else {
        let prev = spec_notes_after(batch.drop_last());
        prev.push(batch.last().spec_with_idx(prev.len() as u64))
    }
}

/// Storing notes one by one grows the store by exactly one note each time.
pub proof fn lemma_notes_after_len(batch: Seq<NoteVariant>)
    ensures
        spec_notes_after(batch).len() == batch.len(),
    decreases batch.len(),
{
    if batch.len() > 0 {
        lemma_notes_after_len(batch.drop_last());
    }
}

/// Law: index assignment is monotonic. Storing a batch of notes one by one
/// on a fresh store assigns the indices `0, 1, …, N-1` in order, with no
/// gaps and no reuse: the index handed out at step `k` — the size of the
/// store at that point, as [`Db::store_unspent_note`] ensures — is exactly
/// `k`, and the note it stamps sits at position `k` forever after.
pub proof fn lemma_store_monotonic(batch: Seq<NoteVariant>, k: int)
    requires
        0 <= k < batch.len(),
    ensures
        spec_notes_after(batch.take(k)).len() == k,
        spec_notes_after(batch.take(k + 1)) == spec_notes_after(batch.take(k)).push(
            batch[k].spec_with_idx(k as u64),
        ),
    decreases batch.len(),
{
    lemma_notes_after_len(batch.take(k));
    assert(batch.take(k + 1).drop_last() =~= batch.take(k));
    assert(batch.take(k + 1).last() == batch[k]);
}

/// Law: double spends collapse. Registering the same nullifier twice leaves
/// the nullifier sequence exactly as after the first registration, the
/// nullifier is present afterwards (so a caller checking before the second
/// store detects the collision), and on a fresh store the two registrations
/// leave exactly one entry.
pub proof fn lemma_double_spend(s: Seq<Scalar>, nullifier: Scalar)
    ensures
        spec_insert_nullifier(spec_insert_nullifier(s, nullifier), nullifier)
            == spec_insert_nullifier(s, nullifier),
        spec_insert_nullifier(s, nullifier).contains(nullifier),
        spec_insert_nullifier(
            spec_insert_nullifier(Seq::<Scalar>::empty(), nullifier),
            nullifier,
        ).len() == 1,
{
    if !s.contains(nullifier) {
        assert(s.push(nullifier)[s.len() as int] == nullifier);
        assert(s.push(nullifier).contains(nullifier));
    }
    let e = Seq::<Scalar>::empty();
    assert(!e.contains(nullifier));
    assert(e.push(nullifier)[0] == nullifier);
    assert(e.push(nullifier).contains(nullifier));
}

} // verus!
