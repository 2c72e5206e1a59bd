//! The steps of accepting a block received from a validator: the header checks, taking
//! the block's transactions out of the mempool, the coinbase checks, and the ledger
//! work the node does between the steps.
use vstd::prelude::*;
use vstd::utf8::encode_utf8;

use crate::block::{Block, BlockError, Transaction, coinbase_verdict};
use crate::crypto::{ed25519_valid, ed25519_verify};

verus! {

broadcast use vstd::seq_lib::group_to_multiset_ensures;

/// What the node does next while it validates a block.
#[derive(Debug)]
pub enum ValidationAction {
    /// The header is good: go through the block's transactions in the mempool (see
    /// `BlockValidation::scan`).
    ScanMempool,
    /// Check transaction `i` of the block against the ledger: it was not in the mempool.
    ValidateTransaction(usize),
    /// Record the outputs of the coinbase and of the block's transactions as unspent.
    GenerateUtxos,
    /// Update the validators' waiting turns for the block's producer.
    UpdateWaiting,
    /// The block is valid.
    Accepted,
    /// The block is refused.
    Rejected(BlockError),
}

/// Where a validation stands.
#[derive(Clone, Copy, Debug, PartialEq, Eq, Structural)]
pub enum Stage {
    Transactions,
    Utxos,
    Waiting,
    Finished,
}

/// The index of the first transaction of `m`, from index `i` on, with hash `h`.
pub open spec fn position_from(m: Seq<Transaction>, h: Seq<char>, i: int) -> Option<int>
    decreases m.len() - i,
{
    if i < 0 || i >= m.len() {
        None
    } else if m[i].hash@ == h {
        Some(i)
    } else {
        position_from(m, h, i + 1)
    }
}

/// Going through the block's transactions from index `i`: each one whose hash is in the
/// mempool `m` is taken out of it (its first occurrence), until one is not there or the
/// transactions end. Gives the index where it stopped, the mempool left, and the
/// transactions taken, in order.
pub open spec fn scan_mempool(txs: Seq<Transaction>, i: int, m: Seq<Transaction>) -> (int, Seq<Transaction>, Seq<Transaction>)
    decreases txs.len() - i,
{
    if i < 0 || i >= txs.len() {
        (i, m, Seq::empty())
    } else {
        match position_from(m, txs[i].hash@, 0) {
            Some(p) => {
                let r = scan_mempool(txs, i + 1, m.remove(p));
                (r.0, r.1, seq![m[p]] + r.2)
            },
            None => (i, m, Seq::empty()),
        }
    }
}

proof fn lemma_position_from_bounds(m: Seq<Transaction>, h: Seq<char>, i: int)
    ensures
        position_from(m, h, i) matches Some(p) ==> 0 <= p < m.len() && m[p].hash@ == h,
    decreases m.len() - i,
{
    if 0 <= i < m.len() && m[i].hash@ != h {
        lemma_position_from_bounds(m, h, i + 1);
    }
}

proof fn lemma_scan_bounds(txs: Seq<Transaction>, i: int, m: Seq<Transaction>)
    requires
        0 <= i <= txs.len(),
    ensures
        i <= scan_mempool(txs, i, m).0 <= txs.len(),
    decreases txs.len() - i,
{
    if i < txs.len() {
        match position_from(m, txs[i].hash@, 0) {
            Some(p) => {
                lemma_scan_bounds(txs, i + 1, m.remove(p));
            },
            None => {},
        }
    }
}

/// The first index of a transaction with hash `h` in `m`.
fn find_in_mempool(m: &Vec<Transaction>, h: &String) -> (r: Option<usize>)
    ensures
        r matches Some(p) ==> position_from(m@, h@, 0) == Some(p as int),
        r is None ==> position_from(m@, h@, 0) is None,
{
    let mut i: usize = 0;
    while i < m.len()
        invariant
            i <= m@.len(),
            position_from(m@, h@, 0) == position_from(m@, h@, i as int),
        decreases m.len() - i,
    {
        if m[i].hash == *h {
            return Some(i);
        }
        i = i + 1;
    }
    None
}

/// A block validation under way.
pub struct BlockValidation {
    next_tx: usize,
    backup: Vec<Transaction>,
    stage: Stage,
    block: Ghost<Block>,
    start_mempool: Ghost<Seq<Transaction>>,
}

impl BlockValidation {
    /// The index of the next transaction of the block to go through.
    pub closed spec fn next_tx(&self) -> int {
        self.next_tx as int
    }

    /// The transactions taken out of the mempool so far, in order.
    pub closed spec fn taken(&self) -> Seq<Transaction> {
        self.backup@
    }

    pub closed spec fn stage(&self) -> Stage {
        self.stage
    }

    /// The block under validation.
    pub closed spec fn block(&self) -> Block {
        self.block@
    }

    /// The mempool as it was when the validation began.
    pub closed spec fn start_mempool(&self) -> Seq<Transaction> {
        self.start_mempool@
    }

    /// The state is consistent with `mempool`: what was taken plus what is left is what
    /// the mempool held at the start.
    pub open spec fn consistent(&self, mempool: Seq<Transaction>) -> bool {
        &&& 0 <= self.next_tx() <= self.block().body.transactions@.len()
        &&& mempool.to_multiset().add(self.taken().to_multiset()) == self.start_mempool().to_multiset()
    }

    /// The current stage.
    pub fn current_stage(&self) -> (s: Stage)
        ensures
            s == self.stage(),
    {
        self.stage
    }

    /// Goes on through the block's transactions (see `scan_mempool`); at their end, checks
    /// the coinbase. The block carries at least one transaction.
    pub fn scan(&mut self, block: &Block, last_block: &mut Vec<Block>, mempool: &mut Vec<Transaction>) -> (action: ValidationAction)
        requires
            old(self).stage() == Stage::Transactions,
            old(self).block() == *block,
            old(self).consistent(old(mempool)@),
            block.wf(),
            block.body.transactions@.len() > 0,
            old(last_block)@.len() > 0,
            old(last_block)@[0].wf(),
        ensures
            *final(last_block) == *old(last_block),
            final(self).block() == old(self).block(),
            final(self).start_mempool() == old(self).start_mempool(),
            final(self).consistent(final(mempool)@),
            ({
                let r = scan_mempool(block.body.transactions@, old(self).next_tx(), old(mempool)@);
                &&& final(mempool)@ == r.1
                &&& final(self).taken() == old(self).taken() + r.2
                &&& final(self).next_tx() == r.0
                &&& if r.0 < block.body.transactions@.len() {
                    &&& action == ValidationAction::ValidateTransaction(r.0 as usize)
                    &&& final(self).stage() == Stage::Transactions
                } else {
                    match coinbase_verdict(block.body.coinbase, old(last_block)@[0], block.body.transactions@) {
                        Ok(()) => action == ValidationAction::GenerateUtxos && final(self).stage() == Stage::Utxos,
                        Err(e) => action == ValidationAction::Rejected(e) && final(self).stage() == Stage::Finished,
                    }
                }
            }),
    {
        let ghost txs = block.body.transactions@;
        let ghost start = old(self).next_tx();
        let ghost m0 = mempool@;
        let ghost b0 = self.backup@;
        let n = block.body.transactions.len();
        proof { lemma_scan_bounds(txs, start, m0); }
        while self.next_tx < n
            invariant
                self.block() == *block,
                self.start_mempool() == old(self).start_mempool(),
                self.stage == Stage::Transactions,
                n == txs.len(),
                start <= self.next_tx <= n,
                self.consistent(mempool@),
                *last_block == *old(last_block),
                old(self).stage() == Stage::Transactions,
                old(self).block() == *block,
                txs == block.body.transactions@,
                m0 == old(mempool)@,
                start == old(self).next_tx(),
                b0 == old(self).taken(),
                scan_mempool(txs, start, m0).0 == scan_mempool(txs, self.next_tx as int, mempool@).0,
                scan_mempool(txs, start, m0).1 == scan_mempool(txs, self.next_tx as int, mempool@).1,
                b0 + scan_mempool(txs, start, m0).2 == self.backup@ + scan_mempool(txs, self.next_tx as int, mempool@).2,
            ensures
                self.next_tx == n,
                scan_mempool(txs, start, m0).0 == self.next_tx,
                scan_mempool(txs, start, m0).1 == mempool@,
                b0 + scan_mempool(txs, start, m0).2 == self.backup@,
                self.consistent(mempool@),
            decreases n - self.next_tx,
        {
            let i = self.next_tx;
            match find_in_mempool(mempool, &block.body.transactions[i].hash) {
                Some(p) => {
                    proof { lemma_position_from_bounds(mempool@, txs[i as int].hash@, 0); }
                    let ghost before = mempool@;
                    let ghost taken_before = self.backup@;
                    let t = mempool.remove(p);
                    self.backup.push(t);
                    self.next_tx = i + 1;
                    proof {
                        assert(self.backup@ == taken_before.push(before[p as int]));
                        assert(seq![before[p as int]] + scan_mempool(txs, i + 1, mempool@).2
                            == scan_mempool(txs, i as int, before).2);
                        assert(taken_before.push(before[p as int]) + scan_mempool(txs, i + 1, mempool@).2
                            =~= taken_before + (seq![before[p as int]] + scan_mempool(txs, i + 1, mempool@).2));
                        assert(before.remove(p as int) == mempool@);
                        assert(before.to_multiset() =~= mempool@.to_multiset().insert(before[p as int]));
                        assert(self.backup@.to_multiset() =~= taken_before.to_multiset().insert(before[p as int]));
                        assert(mempool@.to_multiset().add(self.backup@.to_multiset())
                            =~= before.to_multiset().add(taken_before.to_multiset()));
                    }
                },
                None => {
                    proof {
                        assert(scan_mempool(txs, i as int, mempool@) == (i as int, mempool@, Seq::<Transaction>::empty()));
                        assert(self.backup@ + Seq::<Transaction>::empty() =~= self.backup@);
                    }
                    return ValidationAction::ValidateTransaction(i);
                },
            }
        }
        proof {
            assert(scan_mempool(txs, n as int, mempool@) == (n as int, mempool@, Seq::<Transaction>::empty()));
            assert(self.backup@ + Seq::<Transaction>::empty() =~= self.backup@);
        }
        match block.body.coinbase.validation(last_block, &block.body.transactions) {
            Ok(()) => {
                self.stage = Stage::Utxos;
                ValidationAction::GenerateUtxos
            },
            Err(e) => {
                self.stage = Stage::Finished;
                ValidationAction::Rejected(e)
            },
        }
    }
    /// The ledger check of the pending transaction came back: on success, goes on through
    /// the block; on failure, every transaction taken out of the mempool goes back to it,
    /// in the order taken, and the block is refused.
    pub fn on_transaction_checked(&mut self, block: &Block, last_block: &mut Vec<Block>, mempool: &mut Vec<Transaction>, result: Result<(), String>) -> (action: ValidationAction)
        requires
            old(self).stage() == Stage::Transactions,
            old(self).block() == *block,
            old(self).consistent(old(mempool)@),
            old(self).next_tx() < block.body.transactions@.len(),
            block.wf(),
            old(last_block)@.len() > 0,
            old(last_block)@[0].wf(),
        ensures
            *final(last_block) == *old(last_block),
            final(self).block() == old(self).block(),
            final(self).start_mempool() == old(self).start_mempool(),
            final(self).consistent(final(mempool)@),
            match result {
                Ok(()) => {
                    let r = scan_mempool(block.body.transactions@, old(self).next_tx() + 1, old(mempool)@);
                    &&& final(mempool)@ == r.1
                    &&& final(self).taken() == old(self).taken() + r.2
                    &&& final(self).next_tx() == r.0
                    &&& if r.0 < block.body.transactions@.len() {
                        &&& action == ValidationAction::ValidateTransaction(r.0 as usize)
                        &&& final(self).stage() == Stage::Transactions
                    } else {
                        match coinbase_verdict(block.body.coinbase, old(last_block)@[0], block.body.transactions@) {
                            Ok(()) => action == ValidationAction::GenerateUtxos && final(self).stage() == Stage::Utxos,
                            Err(e) => action == ValidationAction::Rejected(e) && final(self).stage() == Stage::Finished,
                        }
                    }
                },
                Err(e) => {
                    &&& action == ValidationAction::Rejected(BlockError::Transaction(e))
                    &&& final(self).stage() == Stage::Finished
                    &&& final(mempool)@ == old(mempool)@ + old(self).taken()
                    &&& final(mempool)@.to_multiset() == old(self).start_mempool().to_multiset()
                },
            },
    {
        match result {
            Ok(()) => {
                let n = block.body.transactions.len();
                assert(self.next_tx < n);
                self.next_tx = self.next_tx + 1;
                assert(self.block() == old(self).block());
                assert(self.start_mempool() == old(self).start_mempool());
                self.scan(block, last_block, mempool)
            },
            Err(e) => {
                let ghost m0 = mempool@;
                let ghost b0 = self.backup@;
                while self.backup.len() > 0
                    invariant
                        m0 + b0 == mempool@ + self.backup@,
                        self.block() == old(self).block(),
                        self.start_mempool() == old(self).start_mempool(),
                        self.next_tx() == old(self).next_tx(),
                        m0 == old(mempool)@,
                        b0 == old(self).taken(),
                        old(self).consistent(old(mempool)@),
                        old(self).next_tx() < block.body.transactions@.len(),
                    decreases self.backup.len(),
                {
                    let ghost before_m = mempool@;
                    let ghost before_b = self.backup@;
                    let t = self.backup.remove(0);
                    mempool.push(t);
                    assert(before_m + before_b =~= mempool@ + self.backup@);
                }
                proof {
                    assert(mempool@ + self.backup@ =~= mempool@);
                    vstd::seq_lib::lemma_multiset_commutative(m0, b0);
                    assert(mempool@.to_multiset().add(self.backup@.to_multiset()) =~= mempool@.to_multiset());
                }
                self.stage = Stage::Finished;
                ValidationAction::Rejected(BlockError::Transaction(e))
            },
        }
    }

    /// The outputs of the block were recorded, or recording them failed.
    pub fn on_utxos_generated(&mut self, result: Result<(), String>) -> (action: ValidationAction)
        requires
            old(self).stage() == Stage::Utxos,
        ensures
            final(self).block() == old(self).block(),
            final(self).start_mempool() == old(self).start_mempool(),
            final(self).taken() == old(self).taken(),
            final(self).next_tx() == old(self).next_tx(),
            match result {
                Ok(()) => action == ValidationAction::UpdateWaiting && final(self).stage() == Stage::Waiting,
                Err(e) => action == ValidationAction::Rejected(BlockError::Utxo(e)) && final(self).stage() == Stage::Finished,
            },
    {
        match result {
            Ok(()) => {
                self.stage = Stage::Waiting;
                ValidationAction::UpdateWaiting
            },
            Err(e) => {
                self.stage = Stage::Finished;
                ValidationAction::Rejected(BlockError::Utxo(e))
            },
        }
    }

    /// The validators' waiting turns were updated, or updating them failed.
    pub fn on_waiting_updated(&mut self, result: Result<(), String>) -> (action: ValidationAction)
        requires
            old(self).stage() == Stage::Waiting,
        ensures
            final(self).block() == old(self).block(),
            final(self).start_mempool() == old(self).start_mempool(),
            final(self).taken() == old(self).taken(),
            final(self).next_tx() == old(self).next_tx(),
            final(self).stage() == Stage::Finished,
            match result {
                Ok(()) => action == ValidationAction::Accepted,
                Err(e) => action == ValidationAction::Rejected(BlockError::Waiting(e)),
            },
    {
        self.stage = Stage::Finished;
        match result {
            Ok(()) => ValidationAction::Accepted,
            Err(e) => ValidationAction::Rejected(BlockError::Waiting(e)),
        }
    }
}

impl Block {
    /// Begins validating this block, received after `last_block[0]`: its previous hash
    /// must be the last block's hash, and its header signature must sign `body_json`
    /// (the block body as JSON) under the header key. When both hold, the block's
    /// transactions are next looked up in the mempool (`BlockValidation::scan`).
    pub fn begin_validation(&self, last_block: &mut Vec<Block>, body_json: &String, mempool: &mut Vec<Transaction>) -> (r: (BlockValidation, ValidationAction))
        requires
            old(last_block)@.len() > 0,
            old(last_block)@[0].wf(),
            self.wf(),
        ensures
            *final(last_block) == *old(last_block),
            *final(mempool) == *old(mempool),
            r.0.block() == *self,
            r.0.start_mempool() == old(mempool)@,
            r.0.consistent(final(mempool)@),
            r.0.next_tx() == 0,
            r.0.taken().len() == 0,
            if old(last_block)@[0].header.hash@ != self.header.previous@ {
                &&& r.1 == ValidationAction::Rejected(BlockError::PreviousHash)
                &&& r.0.stage() == Stage::Finished
            } else if !ed25519_valid(self.header.signature.signatgure@, encode_utf8(body_json@), self.header.signature.key@) {
                &&& r.1 == ValidationAction::Rejected(BlockError::Signature)
                &&& r.0.stage() == Stage::Finished
            } else {
                &&& r.1 == ValidationAction::ScanMempool
                &&& r.0.stage() == Stage::Transactions
            },
    {
        let mut state = BlockValidation {
            next_tx: 0,
            backup: Vec::new(),
            stage: Stage::Transactions,
            block: Ghost(*self),
            start_mempool: Ghost(mempool@),
        };
        proof {
            assert(Seq::<Transaction>::empty().to_multiset() =~= vstd::multiset::Multiset::empty());
            assert(mempool@.to_multiset().add(state.backup@.to_multiset()) =~= mempool@.to_multiset());
        }
        if last_block[0].header.hash != self.header.previous {
            state.stage = Stage::Finished;
            return (state, ValidationAction::Rejected(BlockError::PreviousHash));
        }
        let sign_check = ed25519_verify(
            self.header.signature.signatgure.as_slice(),
            body_json.as_str().as_bytes(),
            self.header.signature.key.as_slice(),
        );
        if !sign_check {
            state.stage = Stage::Finished;
            return (state, ValidationAction::Rejected(BlockError::Signature));
        }
        (state, ValidationAction::ScanMempool)
    }
}

} // verus!