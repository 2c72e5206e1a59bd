use centichain::receipts::error_reciept;
use centichain::amount::Amount;
use centichain::ledger::UTXO;
use centichain::receipts::{coinbase_reciepts, credit_block_outputs, make_reciept, CoinbaseTransaction};
use centichain::transaction::{
    InputData, OutputData, OutputUnspent, OutputUtxo, Transaction, TransactionScript, TxInput, TxOutput,
};
use sp_core::crypto::{Ss58AddressFormatRegistry, Ss58Codec};
use sp_core::{ecdsa, Pair};

fn out(hash: &str, to: &str, mantissa: i128, scale: u32) -> OutputUtxo {
    OutputUtxo {
        hash: hash.to_string(),
        output_unspent: OutputUnspent { public_key: to.to_string(), unspent: Amount::new(mantissa, scale), rnum: 1 },
    }
}

fn tx_from(pair: &ecdsa::Pair, outs: Vec<OutputUtxo>) -> Transaction {
    let public = pair.public();
    let key: &[u8] = public.as_ref();
    Transaction {
        tx_hash: "txh".to_string(),
        input: TxInput {
            input_hash: "ih".to_string(),
            input_data: InputData { number: 0, utxos: Vec::new(), script: TransactionScript::SingleSig },
            signatures: vec![vec![0u8; 65]],
        },
        output: TxOutput {
            output_hash: "oh".to_string(),
            output_data: OutputData { number: 1, utxos: outs, sigenr_public_keys: vec![key.to_vec()], fee: Amount::zero() },
        },
        value: Amount::new(12, 0),
        fee: Amount::new(12, 2),
        date: "today".to_string(),
    }
}

#[test]
fn a_receipt_goes_from_the_signer_to_the_other_payees() {
    let pair = ecdsa::Pair::from_seed(&[3u8; 32]);
    let me = pair.public().to_ss58check_with_version(Ss58AddressFormatRegistry::SubstrateAccount.into());
    let tx = tx_from(&pair, vec![out("o1", "bob", 5, 0), out("o2", &me, 7, 0), out("o3", "carol", 1, 0)]);
    let r = make_reciept(&tx, Some(9), "Confirmed".to_string(), "ok".to_string());
    assert_eq!(r.from, me);
    assert_eq!(r.to, "bobcarol");
    assert_eq!(r.hash, "txh");
    assert_eq!(r.block_number, Some(9));
    assert!(r.value.eq_value(&Amount::new(12, 0)));
    assert!(r.fee.eq_value(&Amount::new(12, 2)));
    assert_eq!(r.status, "Confirmed");
    assert_eq!(r.description, "ok");
    assert_eq!(r.date, "today");
}

#[test]
fn coinbase_receipts_are_one_per_output() {
    let cb = CoinbaseTransaction { tx_hash: "cbh".to_string(), utxos: vec![out("o1", "v", 45, 1), out("o2", "r", 5, 1)] };
    let rs = coinbase_reciepts(&cb, None, &"Pending".to_string(), &"".to_string(), &"d".to_string());
    assert_eq!(rs.len(), 2);
    assert_eq!(rs[0].from, "Coinbase");
    assert_eq!(rs[1].to, "r");
    assert!(rs[0].value.eq_value(&Amount::new(45, 1)));
    assert!(rs[1].fee.eq_value(&Amount::zero()));
    assert_eq!(rs[1].hash, "cbh");
    assert_eq!(rs[0].block_number, None);
}

#[test]
fn confirmed_outputs_are_credited_rounded_to_twelve_digits() {
    let mut accounts: Vec<UTXO> = Vec::new();
    let outs = vec![out("o1", "alice", 1_234_567_890_123_456, 15), out("o2", "bob", 3, 0), out("o3", "alice", 1, 0)];
    credit_block_outputs(&mut accounts, &"tx".to_string(), &outs, 11);
    assert_eq!(accounts.len(), 2);
    assert_eq!(accounts[0].public_key, "alice");
    assert_eq!(accounts[0].utxos.len(), 2);
    assert!(accounts[0].utxos[0].unspent.eq_value(&Amount::new(1_234_567_890_123, 12)));
    assert_eq!(accounts[0].utxos[0].transaction_hash, "tx");
    assert_eq!(accounts[0].utxos[1].output_hash, "o3");
    assert_eq!(accounts[1].utxos[0].block_number, 11);
}

#[test]
fn crediting_an_output_already_recorded_changes_nothing() {
    let mut accounts: Vec<UTXO> = Vec::new();
    let outs = vec![out("o1", "alice", 2, 0)];
    credit_block_outputs(&mut accounts, &"tx".to_string(), &outs, 1);
    credit_block_outputs(&mut accounts, &"tx".to_string(), &outs, 1);
    assert_eq!(accounts.len(), 1);
    assert_eq!(accounts[0].utxos.len(), 1);
}

#[test]
fn an_error_receipt_names_only_the_hash_and_the_reason() {
    let r = error_reciept("h1".to_string(), "Transaction not found!".to_string());
    assert_eq!(r.hash, "h1");
    assert_eq!(r.status, "Error");
    assert_eq!(r.description, "Transaction not found!");
    assert!(r.from.is_empty() && r.to.is_empty() && r.date.is_empty());
    assert_eq!(r.block_number, None);
    assert!(r.value.eq_value(&Amount::zero()) && r.fee.eq_value(&Amount::zero()));
}
