use centichain::amount::Amount;
use centichain::block::{
    Block, BlockError, Body, Coinbase, Header, HeaderSignature, Output, Reward, Transaction, Unspent, UnspentData,
};
use centichain::hashing::MerkelRoot;

fn output(values: &[Amount]) -> Output {
    Output {
        hash: "out".to_string(),
        unspents: values
            .iter()
            .map(|v| Unspent { hash: "u".to_string(), data: UnspentData { wallet: "w".to_string(), value: *v } })
            .collect(),
    }
}

fn tx(hash: &str, fee: Amount) -> Transaction {
    Transaction { hash: hash.to_string(), fee, output: output(&[]) }
}

fn coinbase(reward: Amount, merkel: String, fees: Amount, relay_fee: Amount, validator_fee: Amount, out: Output) -> Coinbase {
    Coinbase { hash: "cb".to_string(), size: 1, merkel, reward, output: out, fees, relay_fee, validator_fee }
}

fn block(number: i64, hash: &str, previous: &str, cb: Coinbase, txs: Vec<Transaction>) -> Block {
    Block {
        header: Header {
            number,
            hash: hash.to_string(),
            previous: previous.to_string(),
            peerid: "peer".to_string(),
            signature: HeaderSignature { signatgure: vec![0u8; 64], key: vec![0u8; 32] },
        },
        body: Body { coinbase: cb, transactions: txs },
    }
}

fn last_block(number: i64, reward: Amount) -> Vec<Block> {
    let cb = coinbase(reward, String::new(), Amount::zero(), Amount::zero(), Amount::zero(), output(&[]));
    vec![block(number, "h0", "", cb, Vec::new())]
}

#[test]
fn reward_stays_between_halvings() {
    let mut last = last_block(7, Amount::new(500, 1));
    let r = Reward::calculate(&mut last).unwrap();
    assert!(r.eq_value(&Amount::new(50, 0)));
}

#[test]
fn reward_halves_at_multiples_of_the_interval() {
    let mut last = last_block(1_500_000, Amount::new(500, 1));
    let r = Reward::calculate(&mut last).unwrap();
    assert!(r.eq_value(&Amount::new(25, 0)));
    let mut first = last_block(0, Amount::new(500, 1));
    assert!(Reward::calculate(&mut first).unwrap().eq_value(&Amount::new(25, 0)));
}

fn good_setup() -> (Vec<Block>, Coinbase, Vec<Transaction>) {
    let last = last_block(3, Amount::new(500, 1));
    let txs = vec![tx("t1", Amount::new(5, 0)), tx("t2", Amount::new(55, 1))]; // fees 10.5
    let hashes: Vec<String> = txs.iter().map(|t| t.hash.clone()).collect();
    let root = MerkelRoot::make(hashes.iter().collect())[0].clone();
    let cb = coinbase(
        Amount::new(50, 0),
        root,
        Amount::new(105, 1),
        Amount::new(105, 2),
        Amount::new(945, 2),
        output(&[Amount::new(945, 2), Amount::new(1050, 3)]),
    );
    (last, cb, txs)
}

#[test]
fn coinbase_with_right_reward_root_and_fees_is_accepted() {
    let (mut last, cb, txs) = good_setup();
    assert!(cb.validation(&mut last, &txs).is_ok());
}

#[test]
fn coinbase_with_wrong_reward_is_refused() {
    let (mut last, mut cb, txs) = good_setup();
    cb.reward = Amount::new(51, 0);
    assert!(matches!(cb.validation(&mut last, &txs), Err(BlockError::Reward)));
}

#[test]
fn coinbase_with_wrong_merkle_root_is_refused() {
    let (mut last, mut cb, txs) = good_setup();
    cb.merkel = "not the root".to_string();
    assert!(matches!(cb.validation(&mut last, &txs), Err(BlockError::MerkleRoot)));
}

#[test]
fn coinbase_with_wrong_fee_split_is_refused() {
    let (mut last, mut cb, txs) = good_setup();
    cb.relay_fee = Amount::new(1, 0);
    assert!(matches!(cb.validation(&mut last, &txs), Err(BlockError::Fees)));
    let (mut last, mut cb, txs) = good_setup();
    cb.fees = Amount::new(10, 0);
    assert!(matches!(cb.validation(&mut last, &txs), Err(BlockError::Fees)));
}

#[test]
fn coinbase_that_does_not_pay_the_relay_fee_is_refused() {
    let (mut last, mut cb, txs) = good_setup();
    cb.output = output(&[Amount::new(945, 2)]);
    assert!(matches!(cb.validation(&mut last, &txs), Err(BlockError::RelayFee)));
}

#[test]
fn coinbase_without_fees_needs_no_relay_output() {
    let last_v = last_block(3, Amount::new(500, 1));
    let mut last = last_v;
    let txs = vec![tx("t1", Amount::new(0, 1))];
    let root = MerkelRoot::make(vec![&txs[0].hash])[0].clone();
    let cb = coinbase(Amount::new(50, 0), root, Amount::zero(), Amount::zero(), Amount::zero(), output(&[]));
    assert!(cb.validation(&mut last, &txs).is_ok());
}

#[test]
fn error_messages_are_the_nodes_log_texts() {
    assert_eq!(BlockError::MerkleRoot.message(), "Merkel root of coinbase is wrong!");
    assert_eq!(BlockError::Transaction("bad".to_string()).message(), "bad");
}
