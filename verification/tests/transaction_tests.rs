use centichain::amount::Amount;
use centichain::hashing::{create_hash, create_pair_hash};
use centichain::ledger::{UtxoData, UTXO};
use centichain::transaction::{
    admit_transaction, check_block_transactions, Admission, InputData, OutputData, OutputUnspent, OutputUtxo,
    Transaction, TransactionScript, TxEncoding, TxInput, TxOutput,
};
use sp_core::crypto::{Ss58AddressFormatRegistry, Ss58Codec};
use sp_core::{ecdsa, Pair};

fn utxo(out: &str) -> UtxoData {
    UtxoData {
        transaction_hash: "prev".to_string(),
        unspent: Amount::new(10, 0),
        output_hash: out.to_string(),
        block_number: 4,
    }
}

fn address_of(pair: &ecdsa::Pair) -> String {
    pair.public().to_ss58check_with_version(Ss58AddressFormatRegistry::SubstrateAccount.into())
}

/// A transaction signed by `pair`, spending `inputs`, paying each of `payees`.
fn signed_tx(pair: &ecdsa::Pair, inputs: &[&str], payees: &[String], input_json: &str, output_json: &str) -> Transaction {
    let input_hash = create_hash(input_json.to_string());
    let output_hash = create_hash(output_json.to_string());
    let tx_hash = create_pair_hash(&input_hash, &output_hash);
    let sig = pair.sign(tx_hash.as_bytes()).0;
    let public = pair.public();
    let key: &[u8] = public.as_ref();
    Transaction {
        tx_hash,
        input: TxInput {
            input_hash,
            input_data: InputData {
                number: inputs.len() as u8,
                utxos: inputs.iter().map(|h| utxo(h)).collect(),
                script: TransactionScript::SingleSig,
            },
            signatures: vec![sig.to_vec()],
        },
        output: TxOutput {
            output_hash,
            output_data: OutputData {
                number: payees.len() as u8,
                utxos: payees
                    .iter()
                    .map(|p| OutputUtxo {
                        hash: format!("o-{}", p),
                        output_unspent: OutputUnspent { public_key: p.clone(), unspent: Amount::new(5, 0), rnum: 7 },
                    })
                    .collect(),
                sigenr_public_keys: vec![key.to_vec()],
                fee: Amount::zero(),
            },
        },
        value: Amount::new(250, 0),
        fee: Amount::zero(),
        date: "2024-01-01".to_string(),
    }
}

fn alice() -> ecdsa::Pair {
    ecdsa::Pair::from_seed(&[7u8; 32])
}

fn bob() -> ecdsa::Pair {
    ecdsa::Pair::from_seed(&[9u8; 32])
}

#[test]
fn signer_address_is_the_ss58_text_of_the_first_key() {
    let tx = signed_tx(&alice(), &["a"], &[address_of(&bob())], "in", "out");
    assert_eq!(tx.signer_address(), address_of(&alice()));
    assert_ne!(tx.signer_address(), address_of(&bob()));
}

#[test]
fn a_well_signed_transaction_paying_another_wallet_verifies() {
    let tx = signed_tx(&alice(), &["a"], &[address_of(&bob())], "in", "out");
    assert!(tx.check_hashes(&"in".to_string(), &"out".to_string()));
    assert!(tx.verify(&"in".to_string(), &"out".to_string()));
}

#[test]
fn a_transaction_paying_only_its_signer_does_not_verify() {
    let tx = signed_tx(&alice(), &["a"], &[address_of(&alice())], "in", "out");
    assert!(tx.check_hashes(&"in".to_string(), &"out".to_string()));
    assert!(!tx.verify(&"in".to_string(), &"out".to_string()));
}

#[test]
fn wrong_input_data_fails_the_hash_checks() {
    let tx = signed_tx(&alice(), &["a"], &[address_of(&bob())], "in", "out");
    assert!(!tx.check_hashes(&"other".to_string(), &"out".to_string()));
    assert!(!tx.check_hashes(&"in".to_string(), &"other".to_string()));
}

#[test]
fn a_signature_by_another_key_fails() {
    let mut tx = signed_tx(&alice(), &["a"], &[address_of(&bob())], "in", "out");
    let forged = bob().sign(tx.tx_hash.as_bytes()).0.to_vec();
    tx.input.signatures[0] = forged;
    assert!(!tx.check_hashes(&"in".to_string(), &"out".to_string()));
}

#[test]
fn a_tampered_transaction_hash_fails() {
    let mut tx = signed_tx(&alice(), &["a"], &[address_of(&bob())], "in", "out");
    tx.tx_hash = create_hash("something else".to_string());
    assert!(!tx.check_hashes(&"in".to_string(), &"out".to_string()));
}

#[test]
fn the_fee_is_one_percent_of_the_value() {
    let mut tx = signed_tx(&alice(), &["a"], &[address_of(&bob())], "in", "out");
    assert!(tx.charge_fee());
    assert!(tx.fee.eq_value(&Amount::new(25, 1)));
    assert!(tx.value.eq_value(&Amount::new(250, 0)));
}

#[test]
fn admitted_transaction_spends_the_signers_outputs() {
    let tx = signed_tx(&alice(), &["a", "c"], &[address_of(&bob())], "in", "out");
    let account = UTXO { public_key: address_of(&alice()), utxos: vec![utxo("a"), utxo("b"), utxo("c")] };
    match admit_transaction(&tx, &"in".to_string(), &"out".to_string(), Some(&account)) {
        Admission::Pending(left) => {
            let hashes: Vec<String> = left.utxos.iter().map(|u| u.output_hash.clone()).collect();
            assert_eq!(hashes, vec!["b".to_string()]);
        }
        Admission::Rejected(r) => panic!("refused: {}", r),
    }
}

#[test]
fn transaction_failing_verification_is_refused() {
    let tx = signed_tx(&alice(), &["a"], &[address_of(&bob())], "in", "out");
    let account = UTXO { public_key: address_of(&alice()), utxos: vec![utxo("a")] };
    match admit_transaction(&tx, &"bad".to_string(), &"out".to_string(), Some(&account)) {
        Admission::Rejected(r) => assert_eq!(r, "Transaction verify problem!"),
        Admission::Pending(_) => panic!("admitted"),
    }
}

#[test]
fn transaction_without_unspent_inputs_is_refused() {
    let tx = signed_tx(&alice(), &["a", "zz"], &[address_of(&bob())], "in", "out");
    let account = UTXO { public_key: address_of(&alice()), utxos: vec![utxo("a")] };
    match admit_transaction(&tx, &"in".to_string(), &"out".to_string(), Some(&account)) {
        Admission::Rejected(r) => assert_eq!(r, "There is not input UTXOs"),
        Admission::Pending(_) => panic!("admitted"),
    }
    match admit_transaction(&tx, &"in".to_string(), &"out".to_string(), None) {
        Admission::Rejected(r) => assert_eq!(r, "There is not input UTXOs"),
        Admission::Pending(_) => panic!("admitted"),
    }
}

#[test]
fn block_transactions_are_checked_in_order_and_spend_what_they_can() {
    let good = signed_tx(&alice(), &["a", "missing"], &[address_of(&bob())], "in1", "out1");
    let bad = signed_tx(&bob(), &["b"], &[address_of(&alice())], "in2", "out2");
    let encodings = vec![
        TxEncoding { input_json: "in1".to_string(), output_json: "out1".to_string() },
        TxEncoding { input_json: "wrong".to_string(), output_json: "out2".to_string() },
    ];
    let mut accounts = vec![
        UTXO { public_key: address_of(&bob()), utxos: vec![utxo("b")] },
        UTXO { public_key: address_of(&alice()), utxos: vec![utxo("a"), utxo("x")] },
    ];
    let ok = check_block_transactions(&vec![good, bad], &encodings, &mut accounts);
    assert!(!ok);
    assert_eq!(accounts[0].utxos.len(), 1);
    let hashes: Vec<String> = accounts[1].utxos.iter().map(|u| u.output_hash.clone()).collect();
    assert_eq!(hashes, vec!["x".to_string()]);
}

#[test]
fn a_block_of_good_transactions_passes() {
    let t1 = signed_tx(&alice(), &["a"], &[address_of(&bob())], "i", "o");
    let encodings = vec![TxEncoding { input_json: "i".to_string(), output_json: "o".to_string() }];
    let mut accounts: Vec<UTXO> = Vec::new();
    assert!(check_block_transactions(&vec![t1], &encodings, &mut accounts));
    assert!(accounts.is_empty());
}
