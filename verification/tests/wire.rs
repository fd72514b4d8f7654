use phoenix_core::codec::TX_SERIALIZED_SIZE;
use phoenix_core::db::Db;
use phoenix_core::note::NoteVariant;
use phoenix_core::rpc::{RpcTransaction, RpcTransactionInput, RpcTransactionOutput};
use phoenix_core::item::{TransactionInput, TransactionOutput};
use phoenix_core::scalar::Scalar;
use phoenix_core::transaction::Transaction;
use phoenix_core::Error;

fn transparent_output(pk: u64, value: u64) -> TransactionOutput {
    NoteVariant::transparent(pk, value).to_transaction_output(value, 0, pk)
}

fn obfuscated_output(pk: u64, value: u64, blinding: u64) -> TransactionOutput {
    NoteVariant::obfuscated(pk, value, blinding).to_transaction_output(value, blinding, pk)
}

fn full_transaction() -> Transaction {
    let spent = NoteVariant::transparent(1, 100);
    let mut tx = Transaction::default();
    tx.set_fee(transparent_output(0, 5));
    tx.push_input(spent.to_transaction_input(spent.hash())).unwrap();
    tx.push_output(obfuscated_output(2, 60, 11)).unwrap();
    tx.push_output(transparent_output(3, 35)).unwrap();
    tx.set_crossover(transparent_output(4, 1));
    tx.set_contract_output(transparent_output(5, 2));
    tx.prove().unwrap();
    tx
}

#[test]
fn every_transaction_encodes_to_the_fixed_size() {
    let mut full = full_transaction();
    assert_eq!(full.to_bytes().len(), TX_SERIALIZED_SIZE);
    // the size is independent of how many optional or active fields are
    // populated
    let mut minimal = Transaction::default();
    minimal.set_fee(transparent_output(0, 9));
    assert_eq!(minimal.to_bytes().len(), TX_SERIALIZED_SIZE);
}

#[test]
fn decode_reproduces_everything_but_secrets_and_input_notes() {
    let mut tx = full_transaction();
    let input = tx.inputs()[0];
    let proofs_before = tx.proofs().clone();
    let bytes = tx.to_bytes();
    // encoding already cleared the secret material of the sender's copy
    assert_eq!(tx.outputs()[0].blinding_factor, 0);

    let decoded = Transaction::from_bytes(&bytes).unwrap();
    // proofs, counts and the auxiliary outputs round-trip
    assert_eq!(decoded.proofs().len(), proofs_before.len());
    assert_eq!(decoded.proofs()[0], proofs_before[0]);
    assert_eq!(decoded.fee(), tx.fee());
    assert_eq!(decoded.crossover(), tx.crossover());
    assert_eq!(decoded.contract_output(), tx.contract_output());
    // outputs come back exactly as the cleared items
    assert_eq!(decoded.outputs().len(), 2);
    assert_eq!(decoded.outputs()[0], tx.outputs()[0]);
    assert_eq!(decoded.outputs()[1], tx.outputs()[1]);
    // the input slot is the opaque (root, nullifier) form
    assert_eq!(decoded.inputs().len(), 1);
    assert_eq!(decoded.inputs()[0].nullifier, input.nullifier);
    assert_eq!(decoded.inputs()[0].merkle_root, input.merkle_root);
    assert_eq!(decoded.inputs()[0].note, NoteVariant::default());
    // secret material is never present on the wire; the canonical order
    // put the smaller-valued transparent output first
    match decoded.outputs()[1].note {
        NoteVariant::Obfuscated(n) => {
            assert_eq!(n.value, 0);
            assert_eq!(n.blinding, 0);
        }
        NoteVariant::Transparent(_) => panic!("expected an obfuscated note"),
    }
}

#[test]
fn decode_rejects_truncated_input() {
    assert_eq!(
        Transaction::from_bytes(&vec![0u8; 4]),
        Err(Error::InvalidParameters)
    );
    let mut tx = full_transaction();
    let mut bytes = tx.to_bytes();
    bytes.truncate(bytes.len() - 1);
    assert_eq!(Transaction::from_bytes(&bytes), Err(Error::InvalidParameters));
}

#[test]
fn decode_rejects_oversized_counts() {
    let mut tx = full_transaction();
    let mut bytes = tx.to_bytes();
    // the input count sits right after the fixed proof area
    let input_count_off = 104;
    assert_eq!(bytes[input_count_off], 1);
    bytes[input_count_off] = 3;
    assert_eq!(Transaction::from_bytes(&bytes), Err(Error::InvalidParameters));

    // and a proof count beyond the reserved slots is rejected too
    let mut bytes = full_transaction().to_bytes();
    bytes[0] = 9;
    assert_eq!(Transaction::from_bytes(&bytes), Err(Error::InvalidParameters));
}

#[test]
fn decode_rejects_an_unknown_note_kind() {
    let mut tx = Transaction::default();
    tx.set_fee(transparent_output(0, 5));
    let mut bytes = tx.to_bytes();
    // the first output slot's kind byte sits at a fixed offset
    let first_output_kind = 364;
    assert_eq!(bytes[first_output_kind], 1, "the default slot is obfuscated");
    bytes[first_output_kind] = 7;
    assert_eq!(Transaction::from_bytes(&bytes), Err(Error::InvalidParameters));
}

#[test]
fn minimal_transaction_round_trips() {
    let mut tx = Transaction::default();
    tx.set_fee(transparent_output(0, 9));
    let bytes = tx.to_bytes();
    assert_eq!(bytes.len(), TX_SERIALIZED_SIZE);
    let decoded = Transaction::from_bytes(&bytes).unwrap();
    assert_eq!(decoded.fee(), tx.fee());
    assert_eq!(decoded.inputs().len(), 0);
    assert_eq!(decoded.outputs().len(), 0);
    assert_eq!(decoded.proofs().len(), 0);
    assert!(decoded == tx);
}

#[test]
fn rpc_output_round_trips() {
    let out = obfuscated_output(2, 60, 11);
    let msg = out.to_rpc();
    assert_eq!(msg.kind, 1);
    let back = TransactionOutput::try_from_rpc(&msg).unwrap();
    assert_eq!(back, out);

    let t = transparent_output(3, 35);
    let back = TransactionOutput::try_from_rpc(&t.to_rpc()).unwrap();
    assert_eq!(back, t);
}

#[test]
fn rpc_output_rejects_unknown_kind_and_bad_commitment() {
    let mut msg = obfuscated_output(2, 60, 11).to_rpc();
    msg.kind = 9;
    assert_eq!(
        TransactionOutput::try_from_rpc(&msg),
        Err(Error::InvalidParameters)
    );
    let mut msg = obfuscated_output(2, 60, 11).to_rpc();
    msg.commitment = vec![0u8; 5];
    assert_eq!(
        TransactionOutput::try_from_rpc(&msg),
        Err(Error::InvalidParameters)
    );
}

#[test]
fn rpc_input_requires_exact_scalar_widths() {
    let good = RpcTransactionInput {
        pos: 0,
        merkle_root: vec![1u8; 32],
        nullifier: vec![2u8; 32],
    };
    let input = TransactionInput::try_from_rpc(&good).unwrap();
    assert_eq!(input.note, NoteVariant::default());
    let bad = RpcTransactionInput {
        pos: 0,
        merkle_root: vec![1u8; 31],
        nullifier: vec![2u8; 32],
    };
    assert_eq!(
        TransactionInput::try_from_rpc(&bad),
        Err(Error::InvalidParameters)
    );
}

#[test]
fn rpc_transaction_requires_a_fee() {
    let msg = RpcTransaction {
        inputs: vec![],
        outputs: vec![],
        fee: None,
        crossover: None,
        contract_output: None,
        proofs: vec![],
        data: vec![],
    };
    assert_eq!(Transaction::try_from_rpc(&msg), Err(Error::FeeOutput));
}

#[test]
fn rpc_transaction_converts_field_by_field() {
    let out = transparent_output(3, 35);
    let msg = RpcTransaction {
        inputs: vec![],
        outputs: vec![out.to_rpc()],
        fee: Some(transparent_output(0, 5).to_rpc()),
        crossover: Some(transparent_output(4, 1).to_rpc()),
        contract_output: None,
        proofs: vec![vec![0u8; 32]],
        data: vec![],
    };
    let tx = Transaction::try_from_rpc(&msg).unwrap();
    assert_eq!(tx.fee(), transparent_output(0, 5));
    assert_eq!(tx.outputs().len(), 1);
    assert_eq!(tx.outputs()[0], out);
    assert_eq!(tx.crossover(), Some(transparent_output(4, 1)));
    assert_eq!(tx.contract_output(), None);
    assert_eq!(tx.proofs().len(), 1);
}

#[test]
fn rpc_transaction_rejects_a_malformed_proof() {
    let msg = RpcTransaction {
        inputs: vec![],
        outputs: vec![],
        fee: Some(transparent_output(0, 5).to_rpc()),
        crossover: None,
        contract_output: None,
        proofs: vec![vec![0u8; 7]],
        data: vec![],
    };
    assert_eq!(
        Transaction::try_from_rpc(&msg),
        Err(Error::InvalidParameters)
    );
}

#[test]
fn rpc_io_builds_proves_and_verifies() {
    let mut db = Db::new().unwrap();
    let idx = db
        .store_unspent_note(NoteVariant::transparent(1, 100))
        .unwrap();
    let inputs = vec![RpcTransactionInput {
        pos: idx,
        merkle_root: Scalar::from_u64(77).to_bytes(),
        nullifier: vec![0u8; 32],
    }];
    let outputs = vec![transparent_output(2, 60).to_rpc()];
    let mut tx = Transaction::try_from_rpc_io(&db, 40, &inputs, &outputs).unwrap();
    assert_eq!(tx.fee().value, 40);
    assert_eq!(tx.inputs().len(), 1);
    assert_eq!(tx.outputs().len(), 1);
    assert_eq!(tx.proofs().len(), 1);
    // the spend was resolved against the ledger and its nullifier derived
    let spent = db.fetch_note(idx).unwrap();
    assert_eq!(tx.inputs()[0].nullifier, spent.nullifier());
    assert_eq!(tx.verify(), Ok(()));
}

#[test]
fn rpc_io_rejects_an_unknown_position() {
    let db = Db::new().unwrap();
    let inputs = vec![RpcTransactionInput {
        pos: 3,
        merkle_root: vec![0u8; 32],
        nullifier: vec![0u8; 32],
    }];
    assert_eq!(
        Transaction::try_from_rpc_io(&db, 1, &inputs, &vec![]),
        Err(Error::Generic)
    );
}

#[test]
fn rpc_transaction_db_resolves_inputs_against_the_ledger() {
    let mut db = Db::new().unwrap();
    let idx = db
        .store_unspent_note(NoteVariant::transparent(1, 100))
        .unwrap();
    let msg = RpcTransaction {
        inputs: vec![RpcTransactionInput {
            pos: idx,
            merkle_root: Scalar::from_u64(5).to_bytes(),
            nullifier: vec![0u8; 32],
        }],
        outputs: vec![],
        fee: Some(transparent_output(0, 5).to_rpc()),
        crossover: None,
        contract_output: None,
        proofs: vec![],
        data: vec![],
    };
    let tx = Transaction::try_from_rpc_transaction_db(&db, &msg).unwrap();
    assert_eq!(tx.inputs().len(), 1);
    assert_eq!(tx.inputs()[0].merkle_root, Scalar::from_u64(5));
    let spent = db.fetch_note(idx).unwrap();
    assert_eq!(tx.inputs()[0].nullifier, spent.nullifier());
}

#[test]
fn to_rpc_drops_zero_valued_items() {
    let mut tx = Transaction::default();
    tx.set_fee(transparent_output(0, 5));
    tx.push_output(transparent_output(1, 0)).unwrap();
    tx.push_output(transparent_output(2, 20)).unwrap();
    tx.prove().unwrap();
    let msg = tx.to_rpc();
    assert_eq!(msg.inputs.len(), 0);
    assert_eq!(msg.outputs.len(), 1);
    assert_eq!(msg.outputs[0].value, 20);
    assert_eq!(msg.fee.as_ref().unwrap().value, 5);
    assert_eq!(msg.proofs.len(), 1);
    assert_eq!(msg.proofs[0].len(), 32);
    assert_eq!(msg.data.len(), 0);
}
