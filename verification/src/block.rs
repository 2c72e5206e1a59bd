//! Blocks, their coinbase transaction, the block reward and the coinbase checks.
use vstd::prelude::*;

use crate::amount::{Amount, decimal_checked_add, decimal_checked_div, decimal_checked_mul, decimal_checked_sub, lift};
use crate::hashing::{merkle_queue, MerkelRoot};

verus! {

/// What an output of a transaction pays: a wallet and a value.
#[derive(Clone, Debug)]
pub struct UnspentData {
    pub wallet: String,
    pub value: Amount,
}

/// One output of a transaction.
#[derive(Clone, Debug)]
pub struct Unspent {
    pub hash: String,
    pub data: UnspentData,
}

/// The outputs of a transaction.
#[derive(Clone, Debug)]
pub struct Output {
    pub hash: String,
    pub unspents: Vec<Unspent>,
}

/// A transaction as a block carries it: its hash, its fee and its outputs.
#[derive(Clone, Debug)]
pub struct Transaction {
    pub hash: String,
    pub fee: Amount,
    pub output: Output,
}

/// The coinbase transaction of a block: the reward of the block's validator, the Merkle
/// root of the block's transactions, the sum of their fees, the relay's 10% of the fees
/// and the validator's remaining 90%.
#[derive(Clone, Debug)]
pub struct Coinbase {
    pub hash: String,
    pub size: u8,
    pub merkel: String,
    pub reward: Amount,
    pub output: Output,
    pub fees: Amount,
    pub relay_fee: Amount,
    pub validator_fee: Amount,
}

/// The validator's signature of a block body and the validator's ed25519 public key.
#[derive(Clone, Debug)]
pub struct HeaderSignature {
    pub signatgure: Vec<u8>,
    pub key: Vec<u8>,
}

#[derive(Clone, Debug)]
pub struct Header {
    pub number: i64,
    pub hash: String,
    pub previous: String,
    pub peerid: String,
    pub signature: HeaderSignature,
}

#[derive(Clone, Debug)]
pub struct Body {
    pub coinbase: Coinbase,
    pub transactions: Vec<Transaction>,
}

#[derive(Clone, Debug)]
pub struct Block {
    pub header: Header,
    pub body: Body,
}

/// Why a block or its coinbase was refused.
#[derive(Clone, Debug)]
pub enum BlockError {
    PreviousHash,
    Signature,
    Reward,
    MerkleRoot,
    Fees,
    RelayFee,
    /// A transaction of the block failed its check against the ledger.
    Transaction(String),
    /// Recording an output of the block failed.
    Utxo(String),
    /// Updating the validators' waiting turns failed.
    Waiting(String),
}

impl BlockError {
    /// The text the node logs for this refusal.
    pub open spec fn text(self) -> Seq<char> {
        match self {
            BlockError::PreviousHash => "Block validation problem!, previous hash doesn't match and Block rejected."@,
            BlockError::Signature => "Block signature is wrong and Block rejected."@,
            BlockError::Reward => "Recieved block's reward in coinbase is incorrect!"@,
            BlockError::MerkleRoot => "Merkel root of coinbase is wrong!"@,
            BlockError::Fees => "fees of coinbase transaction is wrong!"@,
            BlockError::RelayFee => "Coinbase's relay fee is wrong!"@,
            BlockError::Transaction(e) => e@,
            BlockError::Utxo(e) => e@,
            BlockError::Waiting(e) => e@,
        }
    }

    /// The log text of the error (see `text`).
    pub fn message(&self) -> (m: String)
        ensures
            m@ == self.text(),
    {
        match self {
            BlockError::PreviousHash => String::from_str("Block validation problem!, previous hash doesn't match and Block rejected."),
            BlockError::Signature => String::from_str("Block signature is wrong and Block rejected."),
            BlockError::Reward => String::from_str("Recieved block's reward in coinbase is incorrect!"),
            BlockError::MerkleRoot => String::from_str("Merkel root of coinbase is wrong!"),
            BlockError::Fees => String::from_str("fees of coinbase transaction is wrong!"),
            BlockError::RelayFee => String::from_str("Coinbase's relay fee is wrong!"),
            BlockError::Transaction(e) => e.clone(),
            BlockError::Utxo(e) => e.clone(),
            BlockError::Waiting(e) => e.clone(),
        }
    }
}

impl Output {
    pub open spec fn wf(self) -> bool {
        forall|i: int| 0 <= i < self.unspents@.len() ==> (#[trigger] self.unspents@[i]).data.value.wf()
    }
}

impl Transaction {
    pub open spec fn wf(self) -> bool {
        self.fee.wf() && self.output.wf()
    }
}

impl Coinbase {
    pub open spec fn wf(self) -> bool {
        &&& self.reward.wf()
        &&& self.fees.wf()
        &&& self.relay_fee.wf()
        &&& self.validator_fee.wf()
        &&& self.output.wf()
    }
}

impl Block {
    /// Amounts are valid decimals and the signature and key have ed25519 sizes.
    pub open spec fn wf(self) -> bool {
        &&& self.body.coinbase.wf()
        &&& forall|i: int| 0 <= i < self.body.transactions@.len() ==> (#[trigger] self.body.transactions@[i]).wf()
        &&& self.header.signature.signatgure@.len() == 64
        &&& self.header.signature.key@.len() == 32
    }
}

/// Every how many blocks the reward halves.
pub open spec fn halving_interval() -> int {
    1500000
}

/// `2.0`, with one fractional digit.
pub open spec fn two() -> Amount {
    Amount { mantissa: 20, scale: 1 }
}

/// `0.10`: the relay's share of the fees.
pub open spec fn relay_share() -> Amount {
    Amount { mantissa: 10, scale: 2 }
}

/// `0.0`.
pub open spec fn zero_amount() -> Amount {
    Amount { mantissa: 0, scale: 1 }
}

/// The reward a block after `last` must carry: half of the last reward when the last
/// block's number is a multiple of the halving interval, else the same reward.
pub open spec fn next_reward(last: Block) -> Option<Amount> {
    if (last.header.number as int) % halving_interval() == 0 {
        lift(decimal_checked_div(last.body.coinbase.reward.pair(), two().pair()))
    } else {
        Some(last.body.coinbase.reward)
    }
}

/// The sum of the fees of `txs`, added from the first on, starting from zero; nothing
/// when a sum overflows.
pub open spec fn fee_sum(txs: Seq<Transaction>) -> Option<Amount>
    decreases txs.len(),
{
    if txs.len() == 0 {
        Some(Amount { mantissa: 0, scale: 0 })
    } else {
        match fee_sum(txs.drop_last()) {
            Some(total) => lift(decimal_checked_add(total.pair(), txs.last().fee.pair())),
            None => None,
        }
    }
}

/// The hashes of `txs`, in order.
pub open spec fn tx_hashes(txs: Seq<Transaction>) -> Seq<Seq<char>> {
    txs.map_values(|t: Transaction| t.hash@)
}

/// Some output of `out` pays exactly (numerically) `value`.
pub open spec fn pays(out: Output, value: Amount) -> bool {
    exists|i: int| 0 <= i < out.unspents@.len() && (#[trigger] out.unspents@[i]).data.value.same_value(value)
}

/// The checks of the fee split: the relay's fee is `fees * 0.10` and the validator's
/// fee is the rest; a positive relay fee must be paid by one of the coinbase's outputs.
pub open spec fn fee_verdict(cb: Coinbase, txs: Seq<Transaction>) -> Result<(), BlockError> {
    match fee_sum(txs) {
        None => Err(BlockError::Fees),
        Some(fees) => match lift(decimal_checked_mul(fees.pair(), relay_share().pair())) {
            None => Err(BlockError::Fees),
            Some(relay_fee) => match lift(decimal_checked_sub(fees.pair(), relay_fee.pair())) {
                None => Err(BlockError::Fees),
                Some(validator_fee) => {
                    if !(fees.same_value(cb.fees) && relay_fee.same_value(cb.relay_fee)
                        && validator_fee.same_value(cb.validator_fee)) {
                        Err(BlockError::Fees)
                    } else if relay_fee.compare(zero_amount()) == 1 && !pays(cb.output, relay_fee) {
                        Err(BlockError::RelayFee)
                    } else {
                        Ok(())
                    }
                },
            },
        },
    }
}

/// The verdict on a coinbase that follows `last` and covers `txs` (at least one).
pub open spec fn coinbase_verdict(cb: Coinbase, last: Block, txs: Seq<Transaction>) -> Result<(), BlockError> {
    match next_reward(last) {
        None => Err(BlockError::Reward),
        Some(reward) => {
            if !cb.reward.same_value(reward) {
                Err(BlockError::Reward)
            } else if merkle_queue(tx_hashes(txs))[0] != cb.merkel@ {
                Err(BlockError::MerkleRoot)
            } else {
                fee_verdict(cb, txs)
            }
        },
    }
}

/// A coinbase is accepted only when everything it claims holds: its reward is the reward
/// due after `last` (halved on the interval), its Merkle root is the root of the
/// transactions' hashes, its fees are their sum, its relay fee is 10% of that sum and its
/// validator fee the sum less the relay fee (all compared by value), and a positive relay
/// fee is paid by one of its outputs.
pub proof fn law_accepted_coinbase(cb: Coinbase, last: Block, txs: Seq<Transaction>)
    requires
        txs.len() > 0,
        coinbase_verdict(cb, last, txs) is Ok,
    ensures
        next_reward(last) matches Some(reward) && cb.reward.same_value(reward),
        merkle_queue(txs.map_values(|t: Transaction| t.hash@))[0] == cb.merkel@,
        fee_sum(txs) matches Some(fees) && {
            &&& cb.fees.same_value(fees)
            &&& lift(decimal_checked_mul(fees.pair(), (Amount { mantissa: 10, scale: 2 }).pair())) matches Some(relay)
            &&& cb.relay_fee.same_value(relay)
            &&& lift(decimal_checked_sub(fees.pair(), relay.pair())) matches Some(validator)
            &&& cb.validator_fee.same_value(validator)
            &&& (relay.compare(Amount { mantissa: 0, scale: 1 }) == 1 ==> exists|i: int|
                    0 <= i < cb.output.unspents@.len() && (#[trigger] cb.output.unspents@[i]).data.value.same_value(relay))
        },
{
}

/// A coinbase whose validator fee differs in value from the fee sum less the relay fee
/// (10% of it) is refused for its fees, whatever else it holds.
pub proof fn law_wrong_validator_fee_refused(cb: Coinbase, last: Block, txs: Seq<Transaction>, fees: Amount, relay: Amount, validator: Amount)
    requires
        txs.len() > 0,
        next_reward(last) matches Some(reward) && cb.reward.same_value(reward),
        merkle_queue(txs.map_values(|t: Transaction| t.hash@))[0] == cb.merkel@,
        fee_sum(txs) == Some(fees),
        lift(decimal_checked_mul(fees.pair(), (Amount { mantissa: 10, scale: 2 }).pair())) == Some(relay),
        lift(decimal_checked_sub(fees.pair(), relay.pair())) == Some(validator),
        !cb.validator_fee.same_value(validator),
    ensures
        coinbase_verdict(cb, last, txs) == Err::<(), BlockError>(BlockError::Fees),
{
    assert(tx_hashes(txs) =~= txs.map_values(|t: Transaction| t.hash@));
}

pub struct Reward;

impl Reward {
    /// The reward the next block must carry after `last_block[0]` (see `next_reward`);
    /// nothing when halving the reward overflows.
    pub fn calculate(last_block: &mut Vec<Block>) -> (r: Option<Amount>)
        requires
            old(last_block)@.len() > 0,
            old(last_block)@[0].wf(),
        ensures
            *final(last_block) == *old(last_block),
            r == next_reward(old(last_block)@[0]),
            r matches Some(x) ==> x.wf(),
    {
        let last = &last_block[0];
        if last.header.number % 1500000 == 0 {
            let two = Amount::new(20, 1);
            last.body.coinbase.reward.checked_div(&two)
        } else {
            Some(last.body.coinbase.reward)
        }
    }
}


proof fn lemma_fee_sum_none_stays(txs: Seq<Transaction>, j: int, k: int)
    requires
        0 <= j <= k <= txs.len(),
        fee_sum(txs.take(j)) is None,
    ensures
        fee_sum(txs.take(k)) is None,
    decreases k - j,
{
    if j < k {
        lemma_fee_sum_none_stays(txs, j, k - 1);
        assert(txs.take(k).drop_last() =~= txs.take(k - 1));
    }
}

impl Coinbase {
    /// Checks the coinbase of a block that follows `last_block[0]` and carries
    /// `transactions` (see `coinbase_verdict`): the reward, the Merkle root of the
    /// transaction hashes, the fees and the relay's share of them. The block carries at
    /// least one transaction: the Merkle root of none does not exist.
    #[verifier::loop_isolation(false)]
    pub fn validation(&self, last_block: &mut Vec<Block>, transactions: &Vec<Transaction>) -> (r: Result<(), BlockError>)
        requires
            old(last_block)@.len() > 0,
            old(last_block)@[0].wf(),
            self.wf(),
            transactions@.len() > 0,
            forall|i: int| 0 <= i < transactions@.len() ==> (#[trigger] transactions@[i]).wf(),
        ensures
            *final(last_block) == *old(last_block),
            r == coinbase_verdict(*self, old(last_block)@[0], transactions@),
    {
        let reward = match Reward::calculate(last_block) {
            Some(x) => x,
            None => return Err(BlockError::Reward),
        };
        if !self.reward.eq_value(&reward) {
            return Err(BlockError::Reward);
        }

        // Merkle root of the transaction hashes.
        let mut trx_hashes: Vec<&String> = Vec::new();
        let mut i: usize = 0;
        while i < transactions.len()
            invariant
                i <= transactions@.len(),
                trx_hashes@.len() == i,
                forall|j: int| 0 <= j < i ==> (#[trigger] trx_hashes@[j])@ == transactions@[j].hash@,
            decreases transactions.len() - i,
        {
            trx_hashes.push(&transactions[i].hash);
            i = i + 1;
        }
        assert(trx_hashes@.map_values(|s: &String| s@) =~= tx_hashes(transactions@));
        let merkel = MerkelRoot::make(trx_hashes);
        assert(merkel@[0]@ == merkle_queue(tx_hashes(transactions@))[0]);
        if merkel[0] != self.merkel {
            return Err(BlockError::MerkleRoot);
        }

        // Sum of the fees.
        let mut fees = Amount::zero();
        let mut k: usize = 0;
        while k < transactions.len()
            invariant
                k <= transactions@.len(),
                fees.wf(),
                fee_sum(transactions@.take(k as int)) == Some(fees),
                forall|i: int| 0 <= i < transactions@.len() ==> (#[trigger] transactions@[i]).wf(),
            decreases transactions.len() - k,
        {
            assert(transactions@.take(k + 1).drop_last() =~= transactions@.take(k as int));
            match fees.checked_add(&transactions[k].fee) {
                Some(t) => {
                    fees = t;
                },
                None => {
                    proof {
                        lemma_fee_sum_none_stays(transactions@, k + 1, transactions@.len() as int);
                        assert(transactions@.take(transactions@.len() as int) =~= transactions@);
                    }
                    return Err(BlockError::Fees);
                },
            }
            k = k + 1;
        }
        assert(transactions@.take(transactions@.len() as int) =~= transactions@);

        let share = Amount::new(10, 2);
        let relay_fee = match fees.checked_mul(&share) {
            Some(x) => x,
            None => return Err(BlockError::Fees),
        };
        let validator_fee = match fees.checked_sub(&relay_fee) {
            Some(x) => x,
            None => return Err(BlockError::Fees),
        };
        if !(fees.eq_value(&self.fees) && relay_fee.eq_value(&self.relay_fee)
            && validator_fee.eq_value(&self.validator_fee)) {
            return Err(BlockError::Fees);
        }
        let zero = Amount::new(0, 1);
        if relay_fee.gt_value(&zero) {
            let mut found = false;
            let mut u: usize = 0;
            while u < self.output.unspents.len()
                invariant
                    u <= self.output.unspents@.len(),
                    self.wf(),
                    relay_fee.wf(),
                    found == exists|j: int| 0 <= j < u && (#[trigger] self.output.unspents@[j]).data.value.same_value(relay_fee),
                decreases self.output.unspents.len() - u,
            {
                if self.output.unspents[u].data.value.eq_value(&relay_fee) {
                    found = true;
                }
                u = u + 1;
            }
            if !found {
                return Err(BlockError::RelayFee);
            }
        }
        Ok(())
    }
}

} // verus!
