use centichain::node::RelayState;
use centichain::chain::{blames_validator, kept_blocks_fine_of};
use centichain::chain::{
    apply_next_leader, check_chain, genesis_text, submit_block, verifying_block, Block, BlockBody, BlockHeader,
    BlockSignature, ChainLink, FullNodes, GossipMessage, GossipRejection, LastBlock, NextLeader, SubmitRejection,
};
use centichain::hashing::create_hash;
use centichain::receipts::CoinbaseTransaction;
use libp2p::identity::Keypair;
use sp_core::{ecdsa, Pair};

struct Producer {
    peer: String,
    protobuf_key: Vec<u8>,
    signer: ecdsa::Pair,
}

fn producer(seed: u8) -> Producer {
    let kp = Keypair::ed25519_from_bytes([seed; 32]).unwrap();
    Producer {
        peer: kp.public().to_peer_id().to_string(),
        protobuf_key: kp.public().encode_protobuf(),
        signer: ecdsa::Pair::from_seed(&[seed; 32]),
    }
}

fn fullnode(p: &Producer) -> FullNodes {
    let public = p.signer.public();
    let key: &[u8] = public.as_ref();
    FullNodes { peer_id: p.peer.clone(), public_key: key.to_vec() }
}

fn gossip(p: &Producer, prevhash: &str, coinbase_hash: &str, next_leader: &str) -> GossipMessage {
    let sig = p.signer.sign(coinbase_hash.as_bytes()).0.to_vec();
    GossipMessage {
        block: Block {
            header: BlockHeader {
                number: 2,
                blockhash: "bh".to_string(),
                prevhash: prevhash.to_string(),
                validator: p.peer.clone(),
                block_signature: BlockSignature { public: p.protobuf_key.clone(), signature: vec![sig] },
                date: "d".to_string(),
            },
            body: BlockBody {
                coinbase: CoinbaseTransaction { tx_hash: coinbase_hash.to_string(), utxos: Vec::new() },
                transactions: Vec::new(),
            },
        },
        next_leader: next_leader.to_string(),
    }
}

#[test]
fn a_block_from_the_leader_signed_with_its_key_passes() {
    let p = producer(1);
    let gm = gossip(&p, "prev", "cbhash", "next");
    assert_eq!(verifying_block(&gm, &p.peer, &vec![fullnode(&p)]), Ok(()));
    assert_eq!(verifying_block(&gm, &String::new(), &vec![fullnode(&p)]), Ok(()));
}

#[test]
fn a_block_from_another_validator_than_the_leader_is_refused() {
    let p = producer(1);
    let gm = gossip(&p, "prev", "cbhash", "next");
    assert_eq!(verifying_block(&gm, &"someone".to_string(), &vec![fullnode(&p)]), Err(GossipRejection::NotLeader));
}

#[test]
fn a_key_that_does_not_decode_is_refused() {
    let p = producer(1);
    let mut gm = gossip(&p, "prev", "cbhash", "next");
    gm.block.header.block_signature.public = vec![1, 2, 3];
    assert_eq!(verifying_block(&gm, &String::new(), &vec![fullnode(&p)]), Err(GossipRejection::PublicKey));
}

#[test]
fn a_key_of_another_peer_is_refused() {
    let p = producer(1);
    let q = producer(2);
    let mut gm = gossip(&p, "prev", "cbhash", "next");
    gm.block.header.block_signature.public = q.protobuf_key.clone();
    assert_eq!(verifying_block(&gm, &String::new(), &vec![fullnode(&p)]), Err(GossipRejection::PeerIdMismatch));
}

#[test]
fn a_wrong_signature_or_unknown_validator_is_refused() {
    let p = producer(1);
    let q = producer(2);
    let gm = gossip(&p, "prev", "cbhash", "next");
    let mut wrong_key = fullnode(&q);
    wrong_key.peer_id = p.peer.clone();
    assert_eq!(verifying_block(&gm, &String::new(), &vec![wrong_key]), Err(GossipRejection::Signature));
    assert_eq!(verifying_block(&gm, &String::new(), &vec![fullnode(&q)]), Err(GossipRejection::Signature));
}

#[test]
fn a_genesis_block_needs_no_known_signer() {
    let p = producer(1);
    let gm = gossip(&p, "This block is Genesis", "cbhash", "next");
    assert_eq!(verifying_block(&gm, &String::new(), &Vec::new()), Ok(()));
}

#[test]
fn only_the_leader_hands_leadership_on() {
    let mut leader = "A".to_string();
    apply_next_leader(&mut leader, &NextLeader { identifier_peer_id: "B".to_string(), next_leader: "C".to_string() });
    assert_eq!(leader, "A");
    apply_next_leader(&mut leader, &NextLeader { identifier_peer_id: "A".to_string(), next_leader: "C".to_string() });
    assert_eq!(leader, "C");
    let mut none = String::new();
    apply_next_leader(&mut none, &NextLeader { identifier_peer_id: String::new(), next_leader: "C".to_string() });
    assert_eq!(none, "");
}

#[test]
fn a_block_following_the_last_is_added_and_names_the_next_leader() {
    let p = producer(1);
    let gm = gossip(&p, "lasthash", "cb", "N");
    let mut leader = "old".to_string();
    assert_eq!(submit_block(&gm, &LastBlock::Found("lasthash".to_string()), false, true, &mut leader), Ok(()));
    assert_eq!(leader, "N");
}

#[test]
fn submit_refusals_keep_the_leader() {
    let p = producer(1);
    let gm = gossip(&p, "lasthash", "cb", "N");
    let found = LastBlock::Found("lasthash".to_string());
    let mut leader = "old".to_string();
    assert_eq!(submit_block(&gm, &found, false, false, &mut leader), Err(SubmitRejection::Transactions));
    assert_eq!(submit_block(&gm, &found, true, true, &mut leader), Err(SubmitRejection::SameBlock));
    assert_eq!(
        submit_block(&gm, &LastBlock::Found("other".to_string()), false, true, &mut leader),
        Err(SubmitRejection::PreviousHash)
    );
    assert_eq!(submit_block(&gm, &LastBlock::Missing, false, true, &mut leader), Err(SubmitRejection::NotGenesis));
    assert_eq!(leader, "old");
}

#[test]
fn without_a_last_block_only_genesis_is_added() {
    let p = producer(1);
    let gm = gossip(&p, "This block is Genesis", "cb", "N");
    let mut leader = String::new();
    assert_eq!(submit_block(&gm, &LastBlock::Unavailable, false, false, &mut leader), Ok(()));
    assert_eq!(leader, "N");
}

#[test]
fn genesis_text_is_the_marker() {
    assert_eq!(genesis_text(), "This block is Genesis");
}

#[test]
fn a_linked_chain_is_accepted() {
    let links = vec![
        ChainLink { prevhash: "This block is Genesis".to_string(), body_json: "b0".to_string() },
        ChainLink { prevhash: create_hash("b0".to_string()), body_json: "b1".to_string() },
        ChainLink { prevhash: create_hash("b1".to_string()), body_json: "b2".to_string() },
    ];
    assert_eq!(check_chain(&links), Ok(()));
}

#[test]
fn a_broken_link_is_reported_by_index() {
    let links = vec![
        ChainLink { prevhash: "This block is Genesis".to_string(), body_json: "b0".to_string() },
        ChainLink { prevhash: create_hash("b0".to_string()), body_json: "b1".to_string() },
        ChainLink { prevhash: create_hash("b0".to_string()), body_json: "b2".to_string() },
    ];
    assert_eq!(check_chain(&links), Err(2));
    let first = vec![ChainLink { prevhash: "x".to_string(), body_json: "b".to_string() }];
    assert_eq!(check_chain(&first), Err(0));
}

#[test]
fn only_refusals_that_are_the_validators_fault_end_the_sync() {
    assert!(!blames_validator(&Ok(())));
    assert!(!blames_validator(&Err(GossipRejection::NotLeader)));
    assert!(blames_validator(&Err(GossipRejection::Signature)));
    assert!(kept_blocks_fine_of(&vec![Ok(()), Err(GossipRejection::NotLeader)]));
    assert!(!kept_blocks_fine_of(&vec![Ok(()), Err(GossipRejection::PeerIdMismatch)]));
    assert!(kept_blocks_fine_of(&Vec::new()));
}

#[test]
fn blocks_gossiped_before_the_sync_are_kept() {
    let p = producer(1);
    let mut st = RelayState::new(Vec::new(), false);
    st.keep_for_after_sync(gossip(&p, "prev", "cb", "N"), "src".to_string());
    assert_eq!(st.syncing_blocks.len(), 1);
    assert_eq!(st.syncing_blocks[0].propagation_source, "src");
    assert_eq!(st.syncing_blocks[0].gossip.next_leader, "N");
}
