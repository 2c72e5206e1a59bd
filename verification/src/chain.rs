//! Blocks as validators gossip them: who may produce the next block, the checks on a
//! gossiped block, when it is added to the chain, and the hash links of a downloaded chain.
use vstd::prelude::*;
use vstd::utf8::encode_utf8;

use crate::crypto::{ecdsa_valid, ecdsa_verify, peer_id_of_key, peer_id_from_protobuf_key};
use crate::hashing::{create_hash, hash_text};
use crate::receipts::CoinbaseTransaction;
use crate::transaction::Transaction;

verus! {

/// The text the first block of the chain carries as its previous hash.
pub open spec fn genesis_marker() -> Seq<char> {
    "This block is Genesis"@
}

/// `genesis_marker` as a `String`.
pub fn genesis_text() -> (s: String)
    ensures
        s@ == genesis_marker(),
{
    String::from_str("This block is Genesis")
}

/// The producer's signatures and its protobuf-encoded libp2p public key.
#[derive(Clone, Debug)]
pub struct BlockSignature {
    pub public: Vec<u8>,
    pub signature: Vec<Vec<u8>>,
}

#[derive(Clone, Debug)]
pub struct BlockHeader {
    pub number: i64,
    pub blockhash: String,
    pub prevhash: String,
    pub validator: String,
    pub block_signature: BlockSignature,
    pub date: String,
}

#[derive(Clone, Debug)]
pub struct BlockBody {
    pub coinbase: CoinbaseTransaction,
    pub transactions: Vec<Transaction>,
}

#[derive(Clone, Debug)]
pub struct Block {
    pub header: BlockHeader,
    pub body: BlockBody,
}

/// A block as a validator announces it, with the validator it names as the next leader.
#[derive(Clone, Debug)]
pub struct GossipMessage {
    pub block: Block,
    pub next_leader: String,
}

/// A validator's announcement of the next leader.
#[derive(Clone, Debug)]
pub struct NextLeader {
    pub identifier_peer_id: String,
    pub next_leader: String,
}

/// A validator the node knows, with its ecdsa public key (33 bytes).
#[derive(Clone, Debug)]
pub struct FullNodes {
    pub peer_id: String,
    pub public_key: Vec<u8>,
}

impl FullNodes {
    pub open spec fn wf(self) -> bool {
        self.public_key@.len() == 33
    }
}

impl Block {
    /// A first signature of ecdsa size is there.
    pub open spec fn wf(self) -> bool {
        &&& self.header.block_signature.signature@.len() > 0
        &&& self.header.block_signature.signature@[0]@.len() == 65
    }
}

/// Why a gossiped block is not submitted.
#[derive(Clone, Copy, Debug, PartialEq, Eq, Structural)]
pub enum GossipRejection {
    /// A leader is known and the block's validator is not it.
    NotLeader,
    /// The block's public key does not decode.
    PublicKey,
    /// The block's public key is not the validator's.
    PeerIdMismatch,
    /// The block's signature is wrong, or its validator is unknown.
    Signature,
}

/// The first known validator with peer id `p`, from index `i` on.
pub open spec fn fullnode_position(nodes: Seq<FullNodes>, p: Seq<char>, i: int) -> Option<int>
    decreases nodes.len() - i,
{
    if i < 0 || i >= nodes.len() {
        None
    } else if nodes[i].peer_id@ == p {
        Some(i)
    } else {
        fullnode_position(nodes, p, i + 1)
    }
}

/// The block signature holds: a genesis block needs none; another block's first
/// signature must sign its coinbase hash under the key of the first known validator
/// with the block's validator id (and there must be one).
pub open spec fn block_signature_holds(gm: GossipMessage, nodes: Seq<FullNodes>) -> bool {
    if gm.block.header.prevhash@ == genesis_marker() {
        true
    } else {
        match fullnode_position(nodes, gm.block.header.validator@, 0) {
            Some(k) => ecdsa_valid(gm.block.header.block_signature.signature@[0]@,
                encode_utf8(gm.block.body.coinbase.tx_hash@), nodes[k].public_key@),
            None => false,
        }
    }
}

/// The verdict on a gossiped block, in the order the checks are made.
pub open spec fn gossip_verdict(gm: GossipMessage, leader: Seq<char>, nodes: Seq<FullNodes>) -> Result<(), GossipRejection> {
    if leader.len() > 0 && leader != gm.block.header.validator@ {
        Err(GossipRejection::NotLeader)
    } else {
        match peer_id_of_key(gm.block.header.block_signature.public@) {
            None => Err(GossipRejection::PublicKey),
            Some(pid) => {
                if pid != gm.block.header.validator@ {
                    Err(GossipRejection::PeerIdMismatch)
                } else if !block_signature_holds(gm, nodes) {
                    Err(GossipRejection::Signature)
                } else {
                    Ok(())
                }
            },
        }
    }
}

proof fn lemma_fullnode_position(nodes: Seq<FullNodes>, p: Seq<char>, i: int)
    requires
        0 <= i,
    ensures
        fullnode_position(nodes, p, i) matches Some(k) ==> i <= k < nodes.len() && nodes[k].peer_id@ == p,
    decreases nodes.len() - i,
{
    if i < nodes.len() && nodes[i].peer_id@ != p {
        lemma_fullnode_position(nodes, p, i + 1);
    }
}

/// The first known validator with peer id `p`.
fn find_fullnode(nodes: &Vec<FullNodes>, p: &String) -> (r: Option<usize>)
    ensures
        r matches Some(k) ==> fullnode_position(nodes@, p@, 0) == Some(k as int),
        r is None ==> fullnode_position(nodes@, p@, 0) is None,
{
    let mut i: usize = 0;
    while i < nodes.len()
        invariant
            i <= nodes@.len(),
            fullnode_position(nodes@, p@, 0) == fullnode_position(nodes@, p@, i as int),
        decreases nodes.len() - i,
    {
        if nodes[i].peer_id == *p {
            return Some(i);
        }
        i = i + 1;
    }
    None
}

/// Checks a gossiped block before it is submitted (see `gossip_verdict`): the block's
/// validator is the current leader (when one is known), its public key is the
/// validator's, and its signature holds.
pub fn verifying_block(gm: &GossipMessage, leader: &String, fullnode_subs: &Vec<FullNodes>) -> (r: Result<(), GossipRejection>)
    requires
        gm.block.wf(),
        forall|i: int| 0 <= i < fullnode_subs@.len() ==> (#[trigger] fullnode_subs@[i]).wf(),
    ensures
        r == gossip_verdict(*gm, leader@, fullnode_subs@),
{
    if !leader.as_str().is_empty() && *leader != gm.block.header.validator {
        return Err(GossipRejection::NotLeader);
    }
    let pid = match peer_id_from_protobuf_key(gm.block.header.block_signature.public.as_slice()) {
        Some(p) => p,
        None => return Err(GossipRejection::PublicKey),
    };
    let check_pid_with_public_key = pid == gm.block.header.validator;
    let genesis = genesis_text();
    let mut verify_block_sign = false;
    if gm.block.header.prevhash != genesis {
        match find_fullnode(fullnode_subs, &gm.block.header.validator) {
            Some(k) => {
                proof { lemma_fullnode_position(fullnode_subs@, gm.block.header.validator@, 0); }
                verify_block_sign = ecdsa_verify(
                    gm.block.header.block_signature.signature[0].as_slice(),
                    gm.block.body.coinbase.tx_hash.as_str().as_bytes(),
                    fullnode_subs[k].public_key.as_slice(),
                );
            },
            None => {},
        }
    } else {
        verify_block_sign = true;
    }
    if check_pid_with_public_key {
        if verify_block_sign {
            Ok(())
        } else {
            Err(GossipRejection::Signature)
        }
    } else {
        Err(GossipRejection::PeerIdMismatch)
    }
}

/// A gossiped block passes only when it comes from the current leader (when one is
/// known), its public key is its validator's, and, unless it is a genesis block, its
/// first signature is a valid ecdsa signature of its coinbase hash under the key of the
/// first known full node with its validator's id, whatever the current leader is.
pub proof fn law_accepted_gossip(gm: GossipMessage, leader: Seq<char>, nodes: Seq<FullNodes>)
    requires
        gossip_verdict(gm, leader, nodes) is Ok,
    ensures
        leader.len() == 0 || leader == gm.block.header.validator@,
        peer_id_of_key(gm.block.header.block_signature.public@) == Some(gm.block.header.validator@),
        gm.block.header.prevhash@ != "This block is Genesis"@ ==> (
            fullnode_position(nodes, gm.block.header.validator@, 0) matches Some(k)
            && nodes[k].peer_id@ == gm.block.header.validator@
            && ecdsa_valid(gm.block.header.block_signature.signature@[0]@,
                encode_utf8(gm.block.body.coinbase.tx_hash@), nodes[k].public_key@)),
{
    lemma_fullnode_position(nodes, gm.block.header.validator@, 0);
}

/// A block is added only when it belongs at the end of the chain: with a last block, its
/// transactions passed, it is not in the chain yet and its previous hash is the last
/// block's hash (a genesis block included); with none, it is a genesis block.
pub proof fn law_added_block_follows(prevhash: Seq<char>, last: LastBlock, same_block: bool, transactions_ok: bool)
    requires
        submit_verdict(prevhash, last, same_block, transactions_ok) is Ok,
    ensures
        match last {
            LastBlock::Found(h) => h@ == prevhash && transactions_ok && !same_block,
            _ => prevhash == "This block is Genesis"@,
        },
{
}

/// A refusal that is the validator's fault: any but a block from someone other than the
/// current leader.
pub open spec fn blames(verdict: Result<(), GossipRejection>) -> bool {
    verdict matches Err(e) && e != GossipRejection::NotLeader
}

/// Whether a refusal is the validator's fault (see `blames`): its validator entry goes,
/// and the peer is treated as a node that left.
pub fn blames_validator(verdict: &Result<(), GossipRejection>) -> (r: bool)
    ensures
        r == blames(*verdict),
{
    match verdict {
        Ok(()) => false,
        Err(GossipRejection::NotLeader) => false,
        Err(_) => true,
    }
}

/// The blocks kept while syncing were fine when re-checked after the sync: none was
/// refused for its validator's fault (see `blames`).
pub open spec fn kept_blocks_fine(verdicts: Seq<Result<(), GossipRejection>>) -> bool {
    forall|i: int| 0 <= i < verdicts.len() ==> !blames(#[trigger] verdicts[i])
}

/// Whether the node stays in sync after re-checking the blocks it kept while syncing
/// (see `kept_blocks_fine`); otherwise it starts over.
pub fn kept_blocks_fine_of(verdicts: &Vec<Result<(), GossipRejection>>) -> (r: bool)
    ensures
        r == kept_blocks_fine(verdicts@),
{
    let mut i: usize = 0;
    while i < verdicts.len()
        invariant
            i <= verdicts@.len(),
            forall|j: int| 0 <= j < i ==> !blames(#[trigger] verdicts@[j]),
        decreases verdicts.len() - i,
    {
        if blames_validator(&verdicts[i]) {
            return false;
        }
        i = i + 1;
    }
    true
}

/// A next-leader announcement from the current leader hands the leadership on; any
/// other leaves the leader as it is.
pub fn apply_next_leader(leader: &mut String, identifier: &NextLeader)
    ensures
        final(leader)@ == if old(leader)@.len() > 0 && identifier.identifier_peer_id@ == old(leader)@ {
            identifier.next_leader@
        } else {
            old(leader)@
        },
{
    if !leader.as_str().is_empty() && identifier.identifier_peer_id == *leader {
        *leader = identifier.next_leader.clone();
    }
}

/// What the database gave for the last block of the chain.
#[derive(Clone, Debug)]
pub enum LastBlock {
    /// The last block, by its hash.
    Found(String),
    /// The chain is empty.
    Missing,
    /// The lookup failed.
    Unavailable,
}

/// Why a verified block is not added to the chain.
#[derive(Clone, Copy, Debug, PartialEq, Eq, Structural)]
pub enum SubmitRejection {
    /// A transaction of the block failed its checks.
    Transactions,
    /// The block is already in the chain.
    SameBlock,
    /// The block does not follow the last block.
    PreviousHash,
    /// There is no last block and this one is not the first of the chain.
    NotGenesis,
}

/// Whether a verified block is added to the chain. With a last block, the block's
/// transactions must have passed their checks (`transactions_ok`), the block must not
/// be in the chain yet, and it must follow the last block; without one (or when it
/// cannot be read), only a genesis block is added.
pub open spec fn submit_verdict(prevhash: Seq<char>, last: LastBlock, same_block: bool, transactions_ok: bool) -> Result<(), SubmitRejection> {
    match last {
        LastBlock::Found(h) => {
            if !transactions_ok {
                Err(SubmitRejection::Transactions)
            } else if same_block {
                Err(SubmitRejection::SameBlock)
            } else if h@ != prevhash {
                Err(SubmitRejection::PreviousHash)
            } else {
                Ok(())
            }
        },
        _ => {
            if prevhash == genesis_marker() {
                Ok(())
            } else {
                Err(SubmitRejection::NotGenesis)
            }
        },
    }
}

/// Decides whether a verified block is added to the chain (see `submit_verdict`). When
/// it is, the leader becomes the validator the block names as next.
pub fn submit_block(gm: &GossipMessage, last: &LastBlock, same_block: bool, transactions_ok: bool, leader: &mut String) -> (r: Result<(), SubmitRejection>)
    ensures
        r == submit_verdict(gm.block.header.prevhash@, *last, same_block, transactions_ok),
        r is Ok ==> final(leader)@ == gm.next_leader@,
        r is Err ==> final(leader)@ == old(leader)@,
{
    let r = match last {
        LastBlock::Found(h) => {
            if !transactions_ok {
                Err(SubmitRejection::Transactions)
            } else if same_block {
                Err(SubmitRejection::SameBlock)
            } else if *h != gm.block.header.prevhash {
                Err(SubmitRejection::PreviousHash)
            } else {
                Ok(())
            }
        },
        _ => {
            if gm.block.header.prevhash == genesis_text() {
                Ok(())
            } else {
                Err(SubmitRejection::NotGenesis)
            }
        },
    };
    if r.is_ok() {
        *leader = gm.next_leader.clone();
    }
    r
}

/// A block of a downloaded chain: the previous hash it names and its body as JSON.
#[derive(Clone, Debug)]
pub struct ChainLink {
    pub prevhash: String,
    pub body_json: String,
}

/// The previous hash block `j` of a downloaded chain must name: nothing for the first,
/// then the hash of the body of the block before.
pub open spec fn expected_prevhash(links: Seq<ChainLink>, j: int) -> Seq<char> {
    if j == 0 {
        Seq::empty()
    } else {
        hash_text(links[j - 1].body_json@)
    }
}

/// Block `j` of a downloaded chain is taken: it is a genesis block or it names the
/// expected previous hash.
pub open spec fn link_accepted(links: Seq<ChainLink>, j: int) -> bool {
    links[j].prevhash@ == genesis_marker() || links[j].prevhash@ == expected_prevhash(links, j)
}

/// Goes through a downloaded chain, block by block, as it is inserted: `Ok` when every
/// block is taken (see `link_accepted`), else the index of the first block refused (the
/// blocks before it are taken).
pub fn check_chain(links: &Vec<ChainLink>) -> (r: Result<(), usize>)
    ensures
        r is Ok <==> forall|j: int| 0 <= j < links@.len() ==> link_accepted(links@, j),
        r matches Err(i) ==> i < links@.len() && !link_accepted(links@, i as int)
            && forall|j: int| 0 <= j < i ==> link_accepted(links@, j),
{
    let genesis = genesis_text();
    let mut prev_hash = String::new();
    let mut i: usize = 0;
    while i < links.len()
        invariant
            i <= links@.len(),
            genesis@ == genesis_marker(),
            prev_hash@ == expected_prevhash(links@, i as int),
            forall|j: int| 0 <= j < i ==> link_accepted(links@, j),
        decreases links.len() - i,
    {
        let link = &links[i];
        if link.prevhash != genesis && link.prevhash == prev_hash {
            prev_hash = create_hash(link.body_json.clone());
        } else if link.prevhash == genesis {
            prev_hash = create_hash(link.body_json.clone());
        } else {
            assert(!link_accepted(links@, i as int));
            return Err(i);
        }
        i = i + 1;
    }
    Ok(())
}

} // verus!
