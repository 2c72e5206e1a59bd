//! The validators the relay knows and their turns: after each block, the block's
//! producer waits as many blocks as there are validators, and the others come one
//! block closer to their turn.
use vstd::prelude::*;

verus! {

#[derive(Clone, Debug)]
pub struct Validator {
    pub peerid: String,
    pub relay: String,
    pub wallet: String,
    pub waiting: u64,
}

/// A validator's waiting after a block produced by `generator`, with `count` validators.
pub open spec fn waiting_after(v: Validator, generator: Seq<char>, count: u64) -> u64 {
    if v.peerid@ == generator {
        count
    } else if v.waiting > 0 {
        (v.waiting - 1) as u64
    } else {
        0
    }
}

pub struct Waiting;

impl Waiting {
    /// Updates every validator's waiting after a block produced by `block_generator`:
    /// the producer waits as many blocks as there are validators; every other waiting
    /// validator comes one block closer.
    pub fn update(validators: &mut Vec<Validator>, block_generator: &String)
        ensures
            final(validators)@.len() == old(validators)@.len(),
            forall|i: int| 0 <= i < final(validators)@.len() ==> {
                &&& (#[trigger] final(validators)@[i]).peerid == old(validators)@[i].peerid
                &&& final(validators)@[i].relay == old(validators)@[i].relay
                &&& final(validators)@[i].wallet == old(validators)@[i].wallet
                &&& final(validators)@[i].waiting == waiting_after(old(validators)@[i], block_generator@, old(validators)@.len() as u64)
            },
    {
        let count = validators.len() as u64;
        let mut i: usize = 0;
        while i < validators.len()
            invariant
                i <= validators@.len(),
                validators@.len() == old(validators)@.len(),
                count == old(validators)@.len() as u64,
                forall|j: int| i <= j < validators@.len() ==> (#[trigger] validators@[j]) == old(validators)@[j],
                forall|j: int| 0 <= j < i ==> {
                    &&& (#[trigger] validators@[j]).peerid == old(validators)@[j].peerid
                    &&& validators@[j].relay == old(validators)@[j].relay
                    &&& validators@[j].wallet == old(validators)@[j].wallet
                    &&& validators@[j].waiting == waiting_after(old(validators)@[j], block_generator@, count)
                },
            decreases validators.len() - i,
        {
            let mut v = validators.remove(i);
            if v.peerid == *block_generator {
                v.waiting = count;
            } else if v.waiting > 0 {
                v.waiting = v.waiting - 1;
            }
            validators.insert(i, v);
            i = i + 1;
        }
    }

    /// The waiting of a validator that joins when `validators_count` validators are known:
    /// twice their number.
    pub fn for_new_validator(validators_count: u64) -> (w: u64)
        requires
            validators_count <= u64::MAX / 2,
        ensures
            w == 2 * validators_count,
    {
        if validators_count > 0 {
            validators_count * 2
        } else {
            0
        }
    }
}

/// A validator that announces it synced joins the validators, with the waiting of a new
/// validator (see `Waiting::for_new_validator`), unless it is a node that left (`left`)
/// or a validator already known (`known`); then nothing is added.
pub fn joining_waiting(left: bool, known: bool, validators_count: u64) -> (w: Option<u64>)
    requires
        !left && !known ==> validators_count <= u64::MAX / 2,
    ensures
        w == if left || known { None } else { Some((2 * validators_count) as u64) },
{
    if left || known {
        None
    } else {
        Some(Waiting::for_new_validator(validators_count))
    }
}

/// After a block, no validator waits longer than there are validators, when none did
/// before.
pub proof fn law_waiting_bounded(v: Validator, generator: Seq<char>, count: u64)
    requires
        v.waiting <= count,
    ensures
        waiting_after(v, generator, count) <= count,
{
}

} // verus!
