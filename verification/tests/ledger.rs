use phoenix_core::db::Db;
use phoenix_core::item::TransactionItem;
use phoenix_core::note::NoteVariant;
use phoenix_core::scalar::Scalar;
use phoenix_core::transaction::Transaction;
use phoenix_core::Error;

fn transparent_output(pk: u64, value: u64) -> phoenix_core::item::TransactionOutput {
    NoteVariant::transparent(pk, value).to_transaction_output(value, 0, pk)
}

#[test]
fn store_unspent_note_assigns_sequential_indices() {
    let mut db = Db::new().unwrap();
    for expected in 0u64..4 {
        let idx = db
            .store_unspent_note(NoteVariant::transparent(1, 10 * (expected + 1)))
            .unwrap();
        assert_eq!(idx, expected);
    }
    // fetching in between does not disturb the sequence
    let fetched = db.fetch_note(2).unwrap();
    assert_eq!(fetched.idx(), 2);
    assert_eq!(fetched.value(), 30);
    let idx = db.store_unspent_note(NoteVariant::transparent(1, 99)).unwrap();
    assert_eq!(idx, 4);
}

#[test]
fn fetch_note_rejects_unassigned_positions() {
    let db = Db::new().unwrap();
    assert_eq!(db.fetch_note(0), Err(Error::Generic));
}

#[test]
fn double_spend_leaves_a_single_nullifier() {
    let mut db = Db::new().unwrap();
    let note = NoteVariant::transparent(1, 50);
    // two distinct input items spending the same note: same nullifier,
    // different Merkle openings
    let first = note.to_transaction_input(note.hash());
    let second = note.to_transaction_input(Scalar::from_u64(1234));
    assert_ne!(first, second);
    assert_eq!(first.nullifier, second.nullifier);

    assert_eq!(
        db.store_transaction_item(&TransactionItem::Input(first)),
        Ok(None)
    );
    // a caller checking before the second store detects the collision
    assert_eq!(db.fetch_nullifier(&second.nullifier), Ok(Some(())));
    assert_eq!(
        db.store_transaction_item(&TransactionItem::Input(second)),
        Ok(None)
    );
    assert_eq!(db.nullifiers().len(), 1);
}

#[test]
fn store_transaction_item_validates_the_nullifier() {
    let mut db = Db::new().unwrap();
    let note = NoteVariant::transparent(1, 50);
    let mut input = note.to_transaction_input(note.hash());
    input.nullifier = Scalar::zero();
    assert_eq!(
        db.store_transaction_item(&TransactionItem::Input(input)),
        Err(Error::InvalidParameters)
    );
    assert_eq!(db.nullifiers().len(), 0);
}

#[test]
fn store_applies_fee_inputs_and_outputs() {
    let mut db = Db::new().unwrap();
    let spent = NoteVariant::transparent(1, 100);
    let input = spent.to_transaction_input(spent.hash());
    let mut tx = Transaction::default();
    tx.set_fee(transparent_output(0, 5));
    tx.push_input(input).unwrap();
    tx.push_output(transparent_output(2, 60)).unwrap();
    tx.push_output(transparent_output(3, 35)).unwrap();

    let idxs = db.store(&tx).unwrap();
    // the fee lands first, then the outputs, consecutively
    assert_eq!(idxs, vec![0, 1, 2]);
    assert_eq!(db.fetch_note(0).unwrap().value(), 5);
    assert_eq!(db.fetch_note(1).unwrap().value(), 60);
    assert_eq!(db.fetch_note(2).unwrap().value(), 35);
    assert_eq!(db.fetch_nullifier(&input.nullifier), Ok(Some(())));
}

#[test]
fn rejected_store_leaves_the_ledger_untouched() {
    let mut db = Db::new().unwrap();
    let note = NoteVariant::transparent(1, 100);
    let mut bad_input = note.to_transaction_input(note.hash());
    bad_input.nullifier = Scalar::from_u64(42);
    let mut tx = Transaction::default();
    tx.set_fee(transparent_output(0, 5));
    tx.push_input(bad_input).unwrap();
    tx.push_output(transparent_output(2, 95)).unwrap();

    assert_eq!(db.store(&tx), Err(Error::InvalidParameters));
    // nothing was stored: not the fee, not the output, not the nullifier
    assert_eq!(db.notes().len(), 0);
    assert_eq!(db.nullifiers().len(), 0);
    assert_eq!(db.fetch_nullifier(&bad_input.nullifier), Ok(None));
}

#[test]
fn an_input_item_produces_no_index() {
    let mut db = Db::new().unwrap();
    let note = NoteVariant::transparent(1, 100);
    let input = note.to_transaction_input(note.hash());
    // the "no index produced" outcome that a fee output must never take
    assert_eq!(
        db.store_transaction_item(&TransactionItem::Input(input)),
        Ok(None)
    );
    let out = transparent_output(2, 7);
    assert_eq!(
        db.store_transaction_item(&TransactionItem::Output(out)),
        Ok(Some(0))
    );
}

#[test]
fn store_bulk_concatenates_indices() {
    let mut db = Db::new().unwrap();
    let mut t1 = Transaction::default();
    t1.set_fee(transparent_output(0, 5));
    t1.push_output(transparent_output(1, 10)).unwrap();
    let mut t2 = Transaction::default();
    t2.set_fee(transparent_output(0, 3));
    let idxs = db
        .store_bulk_transactions(&vec![t1, t2])
        .unwrap();
    assert_eq!(idxs, vec![0, 1, 2]);
    assert_eq!(db.notes().len(), 3);
}

#[test]
fn filter_all_notes_scans_in_index_order() {
    let mut db = Db::new().unwrap();
    db.store_unspent_note(NoteVariant::transparent(1, 10)).unwrap();
    db.store_unspent_note(NoteVariant::transparent(2, 20)).unwrap();
    db.store_unspent_note(NoteVariant::transparent(1, 30)).unwrap();
    let hits = db
        .filter_all_notes(|n: &NoteVariant| {
            if n.value() > 15 {
                Some(*n)
            } else {
                None
            }
        })
        .unwrap();
    assert_eq!(hits.len(), 2);
    assert_eq!(hits[0].value(), 20);
    assert_eq!(hits[1].value(), 30);
}

#[test]
fn root_is_the_default_scalar_while_no_tree_is_wired() {
    let db = Db::new().unwrap();
    assert_eq!(db.root(), Scalar::zero());
}

#[test]
fn stored_notes_are_stamped_with_their_index() {
    let mut db = Db::new().unwrap();
    let note = NoteVariant::transparent(9, 1);
    assert_eq!(note.idx(), 0);
    db.store_unspent_note(note).unwrap();
    db.store_unspent_note(note).unwrap();
    assert_eq!(db.fetch_note(1).unwrap().idx(), 1);
}
