use phoenix_core::note::NoteVariant;
use phoenix_core::scalar::Scalar;
use phoenix_core::transaction::Transaction;
use phoenix_core::Error;

fn transparent_output(pk: u64, value: u64) -> phoenix_core::item::TransactionOutput {
    NoteVariant::transparent(pk, value).to_transaction_output(value, 0, pk)
}

fn obfuscated_output(pk: u64, value: u64, blinding: u64) -> phoenix_core::item::TransactionOutput {
    NoteVariant::obfuscated(pk, value, blinding).to_transaction_output(value, blinding, pk)
}

fn transparent_input(pk: u64, value: u64) -> phoenix_core::item::TransactionInput {
    let note = NoteVariant::transparent(pk, value);
    let root = note.hash();
    note.to_transaction_input(root)
}

#[test]
fn push_input_beyond_capacity_is_rejected() {
    let mut tx = Transaction::default();
    assert_eq!(tx.push_input(transparent_input(1, 100)), Ok(()));
    let before = tx.hash();
    assert_eq!(
        tx.push_input(transparent_input(2, 200)),
        Err(Error::MaximumNotes)
    );
    assert_eq!(tx.inputs().len(), 1);
    assert_eq!(tx.hash(), before);
}

#[test]
fn push_output_beyond_capacity_is_rejected() {
    let mut tx = Transaction::default();
    assert_eq!(tx.push_output(transparent_output(1, 10)), Ok(()));
    assert_eq!(tx.push_output(transparent_output(2, 20)), Ok(()));
    let before = tx.hash();
    assert_eq!(
        tx.push_output(transparent_output(3, 30)),
        Err(Error::MaximumNotes)
    );
    assert_eq!(tx.outputs().len(), 2);
    assert_eq!(tx.hash(), before);
}

#[test]
fn hash_ignores_push_order_of_outputs() {
    let a = obfuscated_output(1, 10, 7);
    let b = obfuscated_output(2, 20, 9);
    let fee = transparent_output(0, 5);

    let mut t1 = Transaction::default();
    t1.set_fee(fee);
    t1.push_output(a).unwrap();
    t1.push_output(b).unwrap();
    t1.sort_items();

    let mut t2 = Transaction::default();
    t2.set_fee(fee);
    t2.push_output(b).unwrap();
    t2.push_output(a).unwrap();
    t2.sort_items();

    assert_eq!(t1.hash(), t2.hash());
    assert!(t1 == t2);
}

#[test]
fn sort_items_orders_outputs_and_keeps_them() {
    let small = transparent_output(9, 1);
    let big = obfuscated_output(1, 500, 3);
    let mut tx = Transaction::default();
    tx.push_output(big).unwrap();
    tx.push_output(small).unwrap();
    tx.sort_items();
    assert_eq!(tx.outputs().len(), 2);
    assert_eq!(tx.outputs()[0], small);
    assert_eq!(tx.outputs()[1], big);
    // sorting again changes nothing
    tx.sort_items();
    assert_eq!(tx.outputs()[0], small);
    assert_eq!(tx.outputs()[1], big);
}

#[test]
fn hash_depends_on_fee_and_items() {
    let mut t1 = Transaction::default();
    t1.set_fee(transparent_output(0, 5));
    let mut t2 = Transaction::default();
    t2.set_fee(transparent_output(0, 6));
    assert_ne!(t1.hash(), t2.hash());

    let mut t3 = Transaction::default();
    t3.set_fee(transparent_output(0, 5));
    t3.push_output(transparent_output(1, 10)).unwrap();
    assert_ne!(t1.hash(), t3.hash());
}

#[test]
fn verify_succeeds_on_freshly_proved_transaction() {
    let mut tx = Transaction::default();
    tx.set_fee(transparent_output(0, 5));
    tx.push_output(obfuscated_output(1, 10, 3)).unwrap();
    assert_eq!(tx.prove(), Ok(()));
    assert_eq!(tx.proofs().len(), 1);
    assert_eq!(tx.verify(), Ok(()));
}

#[test]
fn verify_rejects_unmatched_second_prove() {
    let mut tx = Transaction::default();
    tx.set_fee(transparent_output(0, 5));
    assert_eq!(tx.prove(), Ok(()));
    assert_eq!(tx.prove(), Ok(()));
    assert_eq!(tx.verify(), Err(Error::InvalidParameters));
}

#[test]
fn verify_fails_on_foreign_proof() {
    let mut tx = Transaction::default();
    tx.set_fee(transparent_output(0, 5));
    assert_eq!(tx.prove(), Ok(()));
    let mut other = Transaction::default();
    other.set_fee(transparent_output(0, 99));
    other.add_proof(tx.proofs()[0]);
    // one stored proof, public inputs recomputed from the other transaction
    assert_eq!(other.verify(), Err(Error::Generic));
}

#[test]
fn clear_sensitive_info_zeroes_secrets_and_keeps_hash() {
    let mut tx = Transaction::default();
    tx.set_fee(transparent_output(0, 5));
    tx.push_output(obfuscated_output(1, 10, 3)).unwrap();
    let before = tx.hash();
    tx.clear_sensitive_info();
    let out = tx.outputs()[0];
    assert_eq!(out.blinding_factor, 0);
    match out.note {
        NoteVariant::Obfuscated(n) => {
            assert_eq!(n.value, 0);
            assert_eq!(n.blinding, 0);
        }
        NoteVariant::Transparent(_) => panic!("expected an obfuscated note"),
    }
    assert_eq!(tx.hash(), before);
    // idempotent
    let cleared = tx.outputs()[0];
    tx.clear_sensitive_info();
    assert_eq!(tx.outputs()[0], cleared);
}

#[test]
fn clearing_keeps_the_hash_even_for_tied_outputs() {
    // two outputs with equal values and keys but different blinding
    // factors: the canonical order keys only on fields that survive
    // clearing, so the hash stays put
    let a = obfuscated_output(1, 10, 3);
    let b = obfuscated_output(1, 10, 8);
    let mut tx = Transaction::default();
    tx.set_fee(transparent_output(0, 5));
    tx.push_output(a).unwrap();
    tx.push_output(b).unwrap();
    let before = tx.hash();
    tx.clear_sensitive_info();
    assert_eq!(tx.hash(), before);
}

#[test]
fn remove_output_returns_the_removed_item() {
    let a = transparent_output(1, 10);
    let b = transparent_output(2, 20);
    let mut tx = Transaction::default();
    tx.push_output(a).unwrap();
    tx.push_output(b).unwrap();
    assert_eq!(tx.remove_output(5), None);
    assert_eq!(tx.remove_output(0), Some(a));
    // swap-remove backfills the vacated slot with the last item
    assert_eq!(tx.outputs().len(), 1);
    assert_eq!(tx.outputs()[0], b);
    assert_eq!(tx.remove_output(0), Some(b));
    assert_eq!(tx.outputs().len(), 0);
}

#[test]
fn remove_input_returns_the_removed_item() {
    let i = transparent_input(1, 100);
    let mut tx = Transaction::default();
    assert_eq!(tx.remove_input(0), None);
    tx.push_input(i).unwrap();
    assert_eq!(tx.remove_input(0), Some(i));
    assert_eq!(tx.inputs().len(), 0);
}

#[test]
fn set_fee_pk_keeps_the_fee_value() {
    let mut tx = Transaction::default();
    tx.set_fee(transparent_output(7, 42));
    tx.set_fee_pk(9);
    assert_eq!(tx.fee().value, 42);
    assert_eq!(tx.fee().pk, 9);
    match tx.fee().note {
        NoteVariant::Transparent(n) => {
            assert_eq!(n.pk, 9);
            assert_eq!(n.value, 42);
        }
        NoteVariant::Obfuscated(_) => panic!("the fee note must stay transparent"),
    }
}

#[test]
fn all_slots_are_padded_with_defaults() {
    let tx = Transaction::default();
    assert_eq!(tx.all_inputs().len(), 1);
    assert_eq!(tx.all_outputs().len(), 2);
    assert_eq!(
        tx.all_outputs()[0],
        phoenix_core::item::TransactionOutput::default()
    );
}

#[test]
fn items_lists_inputs_then_outputs() {
    let mut tx = Transaction::default();
    let i = transparent_input(1, 100);
    let o = transparent_output(2, 50);
    tx.push_input(i).unwrap();
    tx.push_output(o).unwrap();
    let items = tx.items();
    assert_eq!(items.len(), 2);
    assert_eq!(
        items[0].utxo(),
        phoenix_core::item::NoteUtxoType::Input
    );
    assert_eq!(
        items[1].utxo(),
        phoenix_core::item::NoteUtxoType::Output
    );
    assert_eq!(items[0].nullifier(), i.nullifier);
    assert_eq!(items[1].note(), o.note);
}

#[test]
fn duplicate_preserves_every_field() {
    let mut tx = Transaction::default();
    tx.set_fee(transparent_output(0, 5));
    tx.push_output(obfuscated_output(1, 10, 3)).unwrap();
    tx.prove().unwrap();
    let copy = tx.clone();
    assert_eq!(copy.hash(), tx.hash());
    assert_eq!(copy.proofs().len(), tx.proofs().len());
    assert_eq!(copy.proofs()[0], tx.proofs()[0]);
    assert_eq!(copy.fee(), tx.fee());
}

#[test]
fn sample_balances_inputs_outputs_and_fee() {
    for _ in 0..16 {
        let tx = Transaction::sample();
        let input_sum: u64 = tx.inputs().iter().map(|i| i.value()).sum();
        let output_sum: u64 = tx.outputs().iter().map(|o| o.value).sum();
        assert_eq!(input_sum, output_sum + tx.fee().value);
    }
}

#[test]
fn hash_hex_renders_the_hash_bytes() {
    let mut tx = Transaction::default();
    tx.set_fee(transparent_output(0, 5));
    let hex = tx.hash_hex();
    let upper = tx.hash_hex_upper();
    let bytes = tx.hash().to_bytes();
    assert_eq!(bytes.len(), 32);
    assert_eq!(hex.len(), 64);
    let mut expected = String::new();
    let digits = b"0123456789abcdef";
    for b in bytes.iter() {
        expected.push(digits[(b >> 4) as usize] as char);
        expected.push(digits[(b & 0x0f) as usize] as char);
    }
    assert_eq!(hex, expected);
    assert_eq!(upper, expected.to_uppercase());
}

#[test]
fn scalar_order_is_by_numeric_value() {
    let small = Scalar::from_u64(5);
    let big = Scalar {
        w0: 0,
        w1: 0,
        w2: 0,
        w3: 1,
    };
    assert!(small.le(&big));
    assert!(!big.le(&small));
    assert!(small.le(&small));
}

#[test]
fn validate_nullifier_accepts_only_the_derived_value() {
    let note = NoteVariant::transparent(1, 7);
    let nf = note.nullifier();
    assert_eq!(note.validate_nullifier(&nf), Ok(()));
    assert_eq!(
        note.validate_nullifier(&Scalar::zero()),
        Err(Error::InvalidParameters)
    );
}

#[test]
fn note_hash_survives_clearing() {
    let (mut note, blinding) = NoteVariant::obfuscated_output(3, 77);
    let before = note.hash();
    match note {
        NoteVariant::Obfuscated(n) => {
            assert_eq!(n.value, 77);
            assert_eq!(n.blinding, blinding);
            assert_eq!(n.commitment, phoenix_core::note::commitment(77, blinding));
        }
        NoteVariant::Transparent(_) => panic!("expected an obfuscated note"),
    }
    note.clear_sensitive_info();
    assert_eq!(note.hash(), before);
    assert_eq!(note.value(), 0);
}
