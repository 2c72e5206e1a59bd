use centichain::amount::Amount;
use centichain::ledger::{credit_output, duplicate_utxos, find_account, UtxoData, UTXO};

fn utxo(tx: &str, out: &str, value: i128) -> UtxoData {
    UtxoData {
        transaction_hash: tx.to_string(),
        unspent: Amount::new(value, 0),
        output_hash: out.to_string(),
        block_number: 1,
    }
}

fn account(pk: &str, outs: &[&str]) -> UTXO {
    UTXO { public_key: pk.to_string(), utxos: outs.iter().map(|o| utxo("t", o, 1)).collect() }
}

fn out_hashes(a: &UTXO) -> Vec<String> {
    a.utxos.iter().map(|u| u.output_hash.clone()).collect()
}

#[test]
fn spending_all_inputs_takes_each_out_once() {
    let acc = account("pk", &["a", "b", "a", "c"]);
    let inputs = vec![utxo("t", "a", 1), utxo("t", "c", 1)];
    let left = acc.spend_inputs(&inputs).unwrap();
    assert_eq!(out_hashes(&left), vec!["b", "a"]);
    assert_eq!(left.public_key, "pk");
}

#[test]
fn spending_an_unknown_input_spends_nothing() {
    let acc = account("pk", &["a", "b"]);
    let inputs = vec![utxo("t", "a", 1), utxo("t", "zz", 1)];
    assert!(acc.spend_inputs(&inputs).is_none());
    assert_eq!(out_hashes(&acc), vec!["a", "b"]);
}

#[test]
fn spending_available_passes_over_unknown_inputs() {
    let mut acc = account("pk", &["a", "b"]);
    acc.spend_available(&vec![utxo("t", "zz", 1), utxo("t", "b", 1)]);
    assert_eq!(out_hashes(&acc), vec!["a"]);
}

#[test]
fn crediting_a_new_key_opens_an_account_at_the_end() {
    let mut accounts = vec![account("k1", &["a"])];
    credit_output(&mut accounts, &"k2".to_string(), utxo("t", "x", 3));
    assert_eq!(accounts.len(), 2);
    assert_eq!(accounts[1].public_key, "k2");
    assert_eq!(out_hashes(&accounts[1]), vec!["x"]);
}

#[test]
fn crediting_an_existing_key_appends_the_output() {
    let mut accounts = vec![account("k1", &["a"]), account("k2", &["b"])];
    credit_output(&mut accounts, &"k2".to_string(), utxo("t", "x", 3));
    assert_eq!(accounts.len(), 2);
    assert_eq!(out_hashes(&accounts[1]), vec!["b", "x"]);
}

#[test]
fn crediting_the_same_output_twice_changes_nothing_more() {
    let mut accounts = vec![account("k1", &["a"])];
    credit_output(&mut accounts, &"k1".to_string(), utxo("t", "x", 3));
    credit_output(&mut accounts, &"k1".to_string(), utxo("t", "x", 3));
    assert_eq!(out_hashes(&accounts[0]), vec!["a", "x"]);
}

#[test]
fn find_account_gives_the_first_index() {
    let accounts = vec![account("k1", &[]), account("k2", &[]), account("k2", &["z"])];
    assert_eq!(find_account(&accounts, &"k2".to_string()), Some(1));
    assert_eq!(find_account(&accounts, &"k9".to_string()), None);
}

#[test]
fn duplicating_outputs_keeps_them() {
    let v = vec![utxo("t1", "a", 5), utxo("t2", "b", 7)];
    let d = duplicate_utxos(&v);
    assert_eq!(d.len(), 2);
    assert_eq!(d[1].transaction_hash, "t2");
    assert!(d[0].unspent.eq_value(&Amount::new(5, 0)));
}

#[test]
fn spending_all_and_spending_available_agree_when_inputs_are_there() {
    let acc = account("pk", &["a", "b", "c", "b"]);
    let inputs = vec![utxo("t", "b", 1), utxo("t", "c", 1)];
    let all = acc.spend_inputs(&inputs).unwrap();
    let mut avail = account("pk", &["a", "b", "c", "b"]);
    avail.spend_available(&inputs);
    assert_eq!(out_hashes(&all), out_hashes(&avail));
}

#[test]
fn spending_a_credited_output_restores_the_account() {
    let mut accounts = vec![account("k1", &["a", "b"])];
    credit_output(&mut accounts, &"k1".to_string(), utxo("t", "n", 2));
    let left = accounts[0].spend_inputs(&vec![utxo("t", "n", 2)]).unwrap();
    assert_eq!(out_hashes(&left), vec!["a", "b"]);
}

#[test]
fn the_balance_is_the_sum_of_the_outputs() {
    let acc = UTXO {
        public_key: "pk".to_string(),
        utxos: vec![
            UtxoData { transaction_hash: "t".to_string(), unspent: Amount::new(15, 1), output_hash: "a".to_string(), block_number: 1 },
            UtxoData { transaction_hash: "t".to_string(), unspent: Amount::new(25, 2), output_hash: "b".to_string(), block_number: 1 },
        ],
    };
    assert!(acc.balance().unwrap().eq_value(&Amount::new(175, 2)));
    assert!(account("empty", &[]).balance().unwrap().eq_value(&Amount::zero()));
}

#[test]
fn a_balance_that_overflows_is_none() {
    let max = Amount::new(79_228_162_514_264_337_593_543_950_335, 0);
    let acc = UTXO {
        public_key: "pk".to_string(),
        utxos: vec![
            UtxoData { transaction_hash: "t".to_string(), unspent: max, output_hash: "a".to_string(), block_number: 1 },
            UtxoData { transaction_hash: "t".to_string(), unspent: max, output_hash: "b".to_string(), block_number: 1 },
        ],
    };
    assert!(acc.balance().is_none());
}
