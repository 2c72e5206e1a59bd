//! Receipts of transactions, and recording the outputs of a confirmed block as unspent.
use vstd::prelude::*;

use crate::amount::{Amount, rounded};
use crate::ledger::{UTXO, UtxoData, UtxoDataView, UtxoView, account_views, credit, credit_output, ledger_distinct, law_credit_keeps_outputs_distinct, holds_output, law_credit_holds_output, law_credit_keeps_held};
use crate::transaction::{OutputUtxo, Transaction};

verus! {

/// What the node records of a transaction: who paid whom, how much, and how it went.
#[derive(Clone, Debug)]
pub struct Reciept {
    pub block_number: Option<i64>,
    pub hash: String,
    pub from: String,
    pub to: String,
    pub value: Amount,
    pub fee: Amount,
    pub status: String,
    pub description: String,
    pub date: String,
}

/// The addresses of the outputs other than `signer`, written one after the other.
pub open spec fn payees(outs: Seq<OutputUtxo>, signer: Seq<char>) -> Seq<char>
    decreases outs.len(),
{
    if outs.len() == 0 {
        Seq::empty()
    } else {
        let rest = payees(outs.drop_last(), signer);
        if outs.last().output_unspent.public_key@ != signer {
            rest + outs.last().output_unspent.public_key@
        } else {
            rest
        }
    }
}

/// The receipt of `transaction`: from its signer, to the addresses of its outputs that
/// are not the signer's (written one after the other), with its value, fee and date.
pub fn make_reciept(transaction: &Transaction, block_number: Option<i64>, status: String, description: String) -> (r: Reciept)
    requires
        transaction.has_signer(),
    ensures
        r.block_number == block_number,
        r.hash@ == transaction.tx_hash@,
        r.from@ == transaction.signer(),
        r.to@ == payees(transaction.output.output_data.utxos@, transaction.signer()),
        r.value == transaction.value,
        r.fee == transaction.fee,
        r.status@ == status@,
        r.description@ == description@,
        r.date@ == transaction.date@,
{
    let signer = transaction.signer_address();
    let outs = &transaction.output.output_data.utxos;
    let mut to = String::new();
    let mut i: usize = 0;
    while i < outs.len()
        invariant
            i <= outs@.len(),
            to@ == payees(outs@.take(i as int), signer@),
        decreases outs.len() - i,
    {
        assert(outs@.take(i + 1).drop_last() =~= outs@.take(i as int));
        if outs[i].output_unspent.public_key != signer {
            to = crate::text::concat(to.as_str(), outs[i].output_unspent.public_key.as_str());
        }
        i = i + 1;
    }
    assert(outs@.take(outs@.len() as int) =~= outs@);
    Reciept {
        block_number,
        hash: transaction.tx_hash.clone(),
        from: signer,
        to,
        value: transaction.value,
        fee: transaction.fee,
        status,
        description,
        date: transaction.date.clone(),
    }
}

/// The receipt the RPC server answers when it cannot report on the transaction `hash`:
/// status "Error" with `description`, no block, no parties, zero amounts, no date.
pub fn error_reciept(hash: String, description: String) -> (r: Reciept)
    ensures
        r.block_number is None,
        r.hash == hash,
        r.from@.len() == 0,
        r.to@.len() == 0,
        r.value == (Amount { mantissa: 0, scale: 1 }),
        r.fee == (Amount { mantissa: 0, scale: 1 }),
        r.status@ == "Error"@,
        r.description == description,
        r.date@.len() == 0,
{
    Reciept {
        block_number: None,
        hash,
        from: String::new(),
        to: String::new(),
        value: Amount::new(0, 1),
        fee: Amount::new(0, 1),
        status: String::from_str("Error"),
        description,
        date: String::new(),
    }
}

/// The coinbase transaction of a block, as the ledger sees it.
#[derive(Clone, Debug)]
pub struct CoinbaseTransaction {
    pub tx_hash: String,
    pub utxos: Vec<OutputUtxo>,
}

fn coinbase_text() -> (s: String)
    ensures
        s@ == seq!['C', 'o', 'i', 'n', 'b', 'a', 's', 'e'],
{
    let v: Vec<char> = vec!['C', 'o', 'i', 'n', 'b', 'a', 's', 'e'];
    crate::text::string_from_chars(&v)
}

/// The receipts of a coinbase transaction: one per output, from "Coinbase" to the
/// output's address, for the output's amount, with a zero fee and the block's date.
pub fn coinbase_reciepts(transaction: &CoinbaseTransaction, block_number: Option<i64>, status: &String, description: &String, date: &String) -> (r: Vec<Reciept>)
    ensures
        r@.len() == transaction.utxos@.len(),
        forall|i: int| 0 <= i < r@.len() ==> {
            &&& (#[trigger] r@[i]).block_number == block_number
            &&& r@[i].hash@ == transaction.tx_hash@
            &&& r@[i].from@ == seq!['C', 'o', 'i', 'n', 'b', 'a', 's', 'e']
            &&& r@[i].to@ == transaction.utxos@[i].output_unspent.public_key@
            &&& r@[i].value == transaction.utxos@[i].output_unspent.unspent
            &&& r@[i].fee == (Amount { mantissa: 0, scale: 1 })
            &&& r@[i].status@ == status@
            &&& r@[i].description@ == description@
            &&& r@[i].date@ == date@
        },
{
    let mut r: Vec<Reciept> = Vec::new();
    let mut i: usize = 0;
    while i < transaction.utxos.len()
        invariant
            i <= transaction.utxos@.len(),
            r@.len() == i,
            forall|j: int| 0 <= j < i ==> {
                &&& (#[trigger] r@[j]).block_number == block_number
                &&& r@[j].hash@ == transaction.tx_hash@
                &&& r@[j].from@ == seq!['C', 'o', 'i', 'n', 'b', 'a', 's', 'e']
                &&& r@[j].to@ == transaction.utxos@[j].output_unspent.public_key@
                &&& r@[j].value == transaction.utxos@[j].output_unspent.unspent
                &&& r@[j].fee == (Amount { mantissa: 0, scale: 1 })
                &&& r@[j].status@ == status@
                &&& r@[j].description@ == description@
                &&& r@[j].date@ == date@
            },
        decreases transaction.utxos.len() - i,
    {
        let out = &transaction.utxos[i];
        r.push(Reciept {
            block_number,
            hash: transaction.tx_hash.clone(),
            from: coinbase_text(),
            to: out.output_unspent.public_key.clone(),
            value: out.output_unspent.unspent,
            fee: Amount::new(0, 1),
            status: status.clone(),
            description: description.clone(),
            date: date.clone(),
        });
        i = i + 1;
    }
    r
}

/// The unspent output an output of a confirmed block becomes: its amount rounded to 12
/// fractional digits, with the transaction's hash, the output's hash and the block number.
pub open spec fn confirmed_output(tx_hash: Seq<char>, out: OutputUtxo, block_number: i64) -> UtxoDataView {
    UtxoDataView {
        transaction_hash: tx_hash,
        unspent: rounded(out.output_unspent.unspent, 12),
        output_hash: out.hash@,
        block_number,
    }
}

/// Crediting the first `n` outputs, in order (see `credit`).
pub open spec fn credit_all(accounts: Seq<UtxoView>, tx_hash: Seq<char>, outs: Seq<OutputUtxo>, block_number: i64, n: int) -> Seq<UtxoView>
    decreases n,
{
    if n <= 0 {
        accounts
    } else {
        let before = credit_all(accounts, tx_hash, outs, block_number, n - 1);
        credit(before, outs[n - 1].output_unspent.public_key@, confirmed_output(tx_hash, outs[n - 1], block_number))
    }
}

/// Recording a confirmed block's outputs keeps the output hashes of every account
/// distinct.
pub proof fn law_credit_all_keeps_outputs_distinct(accounts: Seq<UtxoView>, tx_hash: Seq<char>, outs: Seq<OutputUtxo>, block_number: i64, n: int)
    requires
        ledger_distinct(accounts),
    ensures
        ledger_distinct(credit_all(accounts, tx_hash, outs, block_number, n)),
    decreases n,
{
    if n > 0 {
        law_credit_all_keeps_outputs_distinct(accounts, tx_hash, outs, block_number, n - 1);
        law_credit_keeps_outputs_distinct(
            credit_all(accounts, tx_hash, outs, block_number, n - 1),
            outs[n - 1].output_unspent.public_key@,
            confirmed_output(tx_hash, outs[n - 1], block_number),
        );
    }
}

/// After a confirmed block's outputs are recorded, the account of each output's address
/// holds an output with that output's hash.
pub proof fn law_credit_all_outputs_present(accounts: Seq<UtxoView>, tx_hash: Seq<char>, outs: Seq<OutputUtxo>, block_number: i64, n: int)
    requires
        0 <= n <= outs.len(),
    ensures
        forall|j: int| 0 <= j < n ==> holds_output(credit_all(accounts, tx_hash, outs, block_number, n),
            (#[trigger] outs[j]).output_unspent.public_key@, outs[j].hash@),
    decreases n,
{
    if n > 0 {
        law_credit_all_outputs_present(accounts, tx_hash, outs, block_number, n - 1);
        let before = credit_all(accounts, tx_hash, outs, block_number, n - 1);
        let u = confirmed_output(tx_hash, outs[n - 1], block_number);
        let pk = outs[n - 1].output_unspent.public_key@;
        law_credit_holds_output(before, pk, u);
        assert forall|j: int| 0 <= j < n implies holds_output(credit_all(accounts, tx_hash, outs, block_number, n),
            (#[trigger] outs[j]).output_unspent.public_key@, outs[j].hash@) by {
            if j < n - 1 {
                law_credit_keeps_held(before, pk, u, outs[j].output_unspent.public_key@, outs[j].hash@);
            }
        }
    }
}

/// Records the outputs of a transaction (or coinbase) of the confirmed block
/// `block_number` as unspent outputs of their addresses (see `credit_all`).
pub fn credit_block_outputs(accounts: &mut Vec<UTXO>, tx_hash: &String, outputs: &Vec<OutputUtxo>, block_number: i64)
    requires
        forall|i: int| 0 <= i < outputs@.len() ==> (#[trigger] outputs@[i]).output_unspent.unspent.wf(),
    ensures
        account_views(final(accounts)@) == credit_all(account_views(old(accounts)@), tx_hash@, outputs@, block_number, outputs@.len() as int),
{
    let mut i: usize = 0;
    while i < outputs.len()
        invariant
            i <= outputs@.len(),
            forall|j: int| 0 <= j < outputs@.len() ==> (#[trigger] outputs@[j]).output_unspent.unspent.wf(),
            account_views(accounts@) == credit_all(account_views(old(accounts)@), tx_hash@, outputs@, block_number, i as int),
        decreases outputs.len() - i,
    {
        let out = &outputs[i];
        let u = UtxoData {
            transaction_hash: tx_hash.clone(),
            unspent: out.output_unspent.unspent.round_dp(12),
            output_hash: out.hash.clone(),
            block_number,
        };
        credit_output(accounts, &out.output_unspent.public_key, u);
        i = i + 1;
    }
}

} // verus!
