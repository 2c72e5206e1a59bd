//! Wallet transactions: their hash and signature checks, the fee the node charges,
//! admitting them against the signer's unspent outputs, and their receipts.
use vstd::prelude::*;
use vstd::utf8::encode_utf8;
use sp_core::crypto::{Ss58AddressFormatRegistry, Ss58Codec};
use sp_core::ecdsa;

use crate::amount::{Amount, decimal_checked_mul, lift};
use crate::crypto::{ecdsa_valid, ecdsa_verify};
use crate::hashing::{create_hash, create_pair_hash, hash_pair, hash_text, hex_lower, sha256_of};
use crate::ledger::{UtxoData, UTXO, UtxoView, spend_all, spend_found, utxo_views, account_views, account_position, find_account};

verus! {

#[derive(Clone, Copy, Debug, PartialEq, Eq, Structural)]
pub enum TransactionScript {
    SingleSig,
    MultiSig,
}

#[derive(Clone, Debug)]
pub struct InputData {
    pub number: u8,
    pub utxos: Vec<UtxoData>,
    pub script: TransactionScript,
}

/// The inputs of a transaction and the signer's signatures (65-byte ecdsa signatures).
#[derive(Clone, Debug)]
pub struct TxInput {
    pub input_hash: String,
    pub input_data: InputData,
    pub signatures: Vec<Vec<u8>>,
}

#[derive(Clone, Debug)]
pub struct OutputUnspent {
    pub public_key: String,
    pub unspent: Amount,
    pub rnum: u32,
}

#[derive(Clone, Debug)]
pub struct OutputUtxo {
    pub hash: String,
    pub output_unspent: OutputUnspent,
}

/// The outputs of a transaction and the signers' public keys (33-byte ecdsa keys).
#[derive(Clone, Debug)]
pub struct OutputData {
    pub number: u8,
    pub utxos: Vec<OutputUtxo>,
    pub sigenr_public_keys: Vec<Vec<u8>>,
    pub fee: Amount,
}

#[derive(Clone, Debug)]
pub struct TxOutput {
    pub output_hash: String,
    pub output_data: OutputData,
}

#[derive(Clone, Debug)]
pub struct Transaction {
    pub tx_hash: String,
    pub input: TxInput,
    pub output: TxOutput,
    pub value: Amount,
    pub fee: Amount,
    pub date: String,
}

/// The SS58 address text of a 33-byte ecdsa public key, in the Substrate address format.
pub uninterp spec fn ss58_of(key: Seq<u8>) -> Seq<char>;

/// `Ss58Codec::to_ss58check_with_version` on an ecdsa public key, with the Substrate
/// account format: the text `Public::to_string` gives in a process that never changes
/// sp-core's default address format. Claims: the text is the named `ss58_of` of the key.
#[verifier::external_body]
fn ss58_address(key: &[u8]) -> (s: String)
    requires
        key@.len() == 33,
    ensures
        s@ == ss58_of(key@),
{
    let k = ecdsa::Public::from_raw(key.try_into().unwrap());
    k.to_ss58check_with_version(Ss58AddressFormatRegistry::SubstrateAccount.into())
}

impl Transaction {
    /// A first signature and a first signer key are there, with ecdsa sizes; amounts are valid.
    pub open spec fn wf(self) -> bool {
        &&& self.input.signatures@.len() > 0
        &&& self.input.signatures@[0]@.len() == 65
        &&& self.has_signer()
        &&& self.value.wf()
        &&& self.fee.wf()
    }

    /// A first signer key is there, with the ecdsa size.
    pub open spec fn has_signer(self) -> bool {
        &&& self.output.output_data.sigenr_public_keys@.len() > 0
        &&& self.output.output_data.sigenr_public_keys@[0]@.len() == 33
    }

    /// The address of the (first) signer.
    pub open spec fn signer(self) -> Seq<char> {
        ss58_of(self.output.output_data.sigenr_public_keys@[0]@)
    }

    /// The transaction hash is the hash of the input hash and the output hash; the input
    /// hash is the hash of `input_json` (the input data as JSON); the output hash is the
    /// hash of `output_json` (the output data as JSON); and the first signature signs the
    /// transaction hash under the first signer key.
    pub open spec fn checks_pass(self, input_json: Seq<char>, output_json: Seq<char>) -> bool {
        &&& ecdsa_valid(self.input.signatures@[0]@, encode_utf8(self.tx_hash@), self.output.output_data.sigenr_public_keys@[0]@)
        &&& hash_text(input_json) == self.input.input_hash@
        &&& hash_text(output_json) == self.output.output_hash@
        &&& hash_pair(self.input.input_hash@, self.output.output_hash@) == self.tx_hash@
    }

    /// Some output pays an address other than the signer's.
    pub open spec fn pays_someone_else(self) -> bool {
        exists|i: int| 0 <= i < self.output.output_data.utxos@.len()
            && (#[trigger] self.output.output_data.utxos@[i]).output_unspent.public_key@ != self.signer()
    }

    /// The checks of `checks_pass` (used on the transactions of a received block).
    pub fn check_hashes(&self, input_json: &String, output_json: &String) -> (ok: bool)
        requires
            self.wf(),
        ensures
            ok == self.checks_pass(input_json@, output_json@),
    {
        let check_hash = create_pair_hash(&self.input.input_hash, &self.output.output_hash);
        let input_hash = create_hash(input_json.clone());
        let output_hash = create_hash(output_json.clone());
        let sign_verify = ecdsa_verify(
            self.input.signatures[0].as_slice(),
            self.tx_hash.as_str().as_bytes(),
            self.output.output_data.sigenr_public_keys[0].as_slice(),
        );
        let outputhash_check = output_hash == self.output.output_hash;
        let inputhash_check = input_hash == self.input.input_hash;
        let hash_verify = self.tx_hash == check_hash;
        sign_verify && hash_verify && inputhash_check && outputhash_check
    }

    /// The address text of the first signer.
    pub fn signer_address(&self) -> (s: String)
        requires
            self.has_signer(),
        ensures
            s@ == self.signer(),
    {
        ss58_address(self.output.output_data.sigenr_public_keys[0].as_slice())
    }

    /// Whether some output pays an address other than `signer`.
    fn pays_other_than(&self, signer: &String) -> (r: bool)
        ensures
            r == exists|i: int| 0 <= i < self.output.output_data.utxos@.len()
                && (#[trigger] self.output.output_data.utxos@[i]).output_unspent.public_key@ != signer@,
    {
        let outs = &self.output.output_data.utxos;
        let mut i: usize = 0;
        while i < outs.len()
            invariant
                i <= outs@.len(),
                outs@ == self.output.output_data.utxos@,
                forall|j: int| 0 <= j < i ==> (#[trigger] outs@[j]).output_unspent.public_key@ == signer@,
            decreases outs.len() - i,
        {
            if outs[i].output_unspent.public_key != *signer {
                assert(self.output.output_data.utxos@[i as int].output_unspent.public_key@ != signer@);
                return true;
            }
            i = i + 1;
        }
        false
    }

    /// A new transaction is accepted for the mempool when its checks pass (see
    /// `checks_pass`) and it pays someone other than its signer.
    pub fn verify(&self, input_json: &String, output_json: &String) -> (ok: bool)
        requires
            self.wf(),
        ensures
            ok == (self.checks_pass(input_json@, output_json@) && self.pays_someone_else()),
    {
        let checks = self.check_hashes(input_json, output_json);
        let signer = self.signer_address();
        let trx_validity = self.pays_other_than(&signer);
        trx_validity && checks
    }

    /// Sets the fee the node charges: 1% of the value (`value * 0.01`). Gives false, and
    /// leaves the transaction as it was, when the product overflows.
    pub fn charge_fee(&mut self) -> (ok: bool)
        requires
            old(self).value.wf(),
        ensures
            match lift(decimal_checked_mul(old(self).value.pair(), (Amount { mantissa: 1, scale: 2 }).pair())) {
                Some(f) => ok && *final(self) == (Transaction { fee: f, ..*old(self) }) && f.wf(),
                None => !ok && *final(self) == *old(self),
            },
    {
        let rate = Amount::new(1, 2);
        match self.value.checked_mul(&rate) {
            Some(f) => {
                self.fee = f;
                true
            },
            None => false,
        }
    }
}

/// A transaction passes its checks only when its hashes are linked and its signature
/// holds: the transaction hash is the hex SHA-256 of the input hash followed by the
/// output hash, the input hash is the hex SHA-256 of the input data, the output hash that
/// of the output data, and the first signature signs the transaction hash under the
/// first signer key.
pub proof fn law_checked_transaction_is_linked(tx: Transaction, input_json: Seq<char>, output_json: Seq<char>)
    requires
        tx.checks_pass(input_json, output_json),
    ensures
        tx.tx_hash@ == hex_lower(sha256_of(encode_utf8(tx.input.input_hash@) + encode_utf8(tx.output.output_hash@))),
        tx.input.input_hash@ == hex_lower(sha256_of(encode_utf8(input_json))),
        tx.output.output_hash@ == hex_lower(sha256_of(encode_utf8(output_json))),
        ecdsa_valid(tx.input.signatures@[0]@, encode_utf8(tx.tx_hash@), tx.output.output_data.sigenr_public_keys@[0]@),
{
}

/// A transaction whose hash is not the hash of its input hash and output hash fails its
/// checks, is not verified and is refused as failing verification, whatever else holds.
pub proof fn law_unlinked_transaction_refused(tx: Transaction, input_json: Seq<char>, output_json: Seq<char>)
    requires
        tx.tx_hash@ != hex_lower(sha256_of(encode_utf8(tx.input.input_hash@) + encode_utf8(tx.output.output_hash@))),
    ensures
        !tx.checks_pass(input_json, output_json),
{
}

/// What becomes of a new transaction.
#[derive(Debug)]
pub enum Admission {
    /// It is pending; the signer's account becomes `account` (its inputs spent).
    Pending(UTXO),
    /// It is refused, for this reason.
    Rejected(String),
}

/// The reason given when a transaction fails its checks.
pub open spec fn verify_problem() -> Seq<char> {
    seq!['T', 'r', 'a', 'n', 's', 'a', 'c', 't', 'i', 'o', 'n', ' ', 'v', 'e', 'r', 'i', 'f', 'y', ' ', 'p', 'r', 'o', 'b', 'l', 'e', 'm', '!']
}

/// The reason given when the signer's unspent outputs do not cover the inputs.
pub open spec fn missing_inputs() -> Seq<char> {
    seq!['T', 'h', 'e', 'r', 'e', ' ', 'i', 's', ' ', 'n', 'o', 't', ' ', 'i', 'n', 'p', 'u', 't', ' ', 'U', 'T', 'X', 'O', 's']
}

fn text_of(c: &Vec<char>) -> (s: String)
    ensures
        s@ == c@,
{
    crate::text::string_from_chars(c)
}

fn verify_problem_text() -> (s: String)
    ensures
        s@ == verify_problem(),
{
    let v: Vec<char> = vec!['T', 'r', 'a', 'n', 's', 'a', 'c', 't', 'i', 'o', 'n', ' ', 'v', 'e', 'r', 'i', 'f', 'y', ' ', 'p', 'r', 'o', 'b', 'l', 'e', 'm', '!'];
    assert(v@ =~= verify_problem());
    text_of(&v)
}

fn missing_inputs_text() -> (s: String)
    ensures
        s@ == missing_inputs(),
{
    let v: Vec<char> = vec!['T', 'h', 'e', 'r', 'e', ' ', 'i', 's', ' ', 'n', 'o', 't', ' ', 'i', 'n', 'p', 'u', 't', ' ', 'U', 'T', 'X', 'O', 's'];
    assert(v@ =~= missing_inputs());
    text_of(&v)
}

/// Decides on a new transaction: when it verifies (see `Transaction::verify`) and the
/// signer's account `account` (looked up by the signer's address) holds unspent outputs
/// for all its inputs, it is pending and the account loses those outputs; when it does
/// not verify it is refused as failing verification; otherwise as missing inputs.
pub fn admit_transaction(tx: &Transaction, input_json: &String, output_json: &String, account: Option<&UTXO>) -> (r: Admission)
    requires
        tx.wf(),
    ensures
        !(tx.checks_pass(input_json@, output_json@) && tx.pays_someone_else()) ==>
            (r matches Admission::Rejected(reason) && reason@ == verify_problem()),
        (tx.checks_pass(input_json@, output_json@) && tx.pays_someone_else()) ==> match account {
            None => (r matches Admission::Rejected(reason) && reason@ == missing_inputs()),
            Some(a) => match spend_all(a@.utxos, utxo_views(tx.input.input_data.utxos@)) {
                Some(left) => (r matches Admission::Pending(b) && b@ == (UtxoView { public_key: a@.public_key, utxos: left })),
                None => (r matches Admission::Rejected(reason) && reason@ == missing_inputs()),
            },
        },
{
    if !tx.verify(input_json, output_json) {
        return Admission::Rejected(verify_problem_text());
    }
    match account {
        None => Admission::Rejected(missing_inputs_text()),
        Some(a) => match a.spend_inputs(&tx.input.input_data.utxos) {
            Some(b) => Admission::Pending(b),
            None => Admission::Rejected(missing_inputs_text()),
        },
    }
}

/// The serialized input data and output data of a transaction, as its hashes cover them.
pub struct TxEncoding {
    pub input_json: String,
    pub output_json: String,
}

/// Checks the transactions of a received block, in order: a transaction whose checks pass
/// (see `checks_pass`) spends what it can of its inputs from its signer's account (the
/// first one with the signer's address), when there is one; the answer is whether all
/// transactions passed.
pub fn check_block_transactions(txs: &Vec<Transaction>, encodings: &Vec<TxEncoding>, accounts: &mut Vec<UTXO>) -> (ok: bool)
    requires
        txs@.len() == encodings@.len(),
        forall|i: int| 0 <= i < txs@.len() ==> (#[trigger] txs@[i]).wf(),
    ensures
        ok == forall|i: int| 0 <= i < txs@.len() ==> (#[trigger] txs@[i]).checks_pass(encodings@[i].input_json@, encodings@[i].output_json@),
        account_views(final(accounts)@) == apply_block_spends(account_views(old(accounts)@), txs@, encodings@, txs@.len() as int),
{
    let mut block_verify = true;
    let mut i: usize = 0;
    while i < txs.len()
        invariant
            i <= txs@.len(),
            txs@.len() == encodings@.len(),
            forall|j: int| 0 <= j < txs@.len() ==> (#[trigger] txs@[j]).wf(),
            block_verify == forall|j: int| 0 <= j < i ==> (#[trigger] txs@[j]).checks_pass(encodings@[j].input_json@, encodings@[j].output_json@),
            account_views(accounts@) == apply_block_spends(account_views(old(accounts)@), txs@, encodings@, i as int),
        decreases txs.len() - i,
    {
        let tx = &txs[i];
        if tx.check_hashes(&encodings[i].input_json, &encodings[i].output_json) {
            let signer = tx.signer_address();
            match find_account(accounts, &signer) {
                Some(k) => {
                    proof { crate::ledger::lemma_account_position_bounds(account_views(accounts@), signer@); }
                    let ghost before = account_views(accounts@);
                    let mut acc = accounts.remove(k);
                    acc.spend_available(&tx.input.input_data.utxos);
                    accounts.insert(k, acc);
                    assert(account_views(accounts@) =~= before.update(k as int, UtxoView {
                        public_key: before[k as int].public_key,
                        utxos: spend_found(before[k as int].utxos, utxo_views(tx.input.input_data.utxos@)),
                    }));
                },
                None => {},
            }
        } else {
            block_verify = false;
        }
        i = i + 1;
    }
    block_verify
}

/// The accounts after the spends of the first `n` transactions of a received block
/// (see `check_block_transactions`).
pub open spec fn apply_block_spends(accounts: Seq<UtxoView>, txs: Seq<Transaction>, encodings: Seq<TxEncoding>, n: int) -> Seq<UtxoView>
    decreases n,
{
    if n <= 0 {
        accounts
    } else {
        let before = apply_block_spends(accounts, txs, encodings, n - 1);
        let tx = txs[n - 1];
        if tx.checks_pass(encodings[n - 1].input_json@, encodings[n - 1].output_json@) {
            match account_position(before, tx.signer(), 0) {
                Some(k) => before.update(k, UtxoView {
                    public_key: before[k].public_key,
                    utxos: spend_found(before[k].utxos, utxo_views(tx.input.input_data.utxos@)),
                }),
                None => before,
            }
        } else {
            before
        }
    }
}

} // verus!
