//! The messages nodes exchange and the requests the RPC server answers, as plain values
//! (the node's I/O layer turns them into JSON and back).
use vstd::prelude::*;

use crate::block::Block;
use crate::practical::{Relay, RelayView};
use crate::receipts::Reciept;

verus! {

/// A request between nodes: its text (JSON of the actual request).
#[derive(Clone, Debug)]
pub struct Req {
    pub req: String,
}

/// A response between nodes: its text.
#[derive(Clone, Debug)]
pub struct Res {
    pub res: String,
}

/// A request passed on through `peer`, the last peer nearest.
#[derive(Clone, Debug)]
pub struct ReqForReq {
    pub peer: Vec<String>,
    pub req: String,
}

/// A response to pass back through `peer`, the last peer nearest.
#[derive(Clone, Debug)]
pub struct ResForReq {
    pub peer: Vec<String>,
    pub res: Res,
}

/// A wallet's request for its unspent outputs.
#[derive(Clone, Debug)]
pub struct ReqForUtxo {
    pub wallet: String,
    pub request: String,
}

/// A request for the receipt of a transaction.
#[derive(Clone, Debug)]
pub struct TxReq {
    pub tx_hash: String,
}

/// A request for the receipts of a wallet.
#[derive(Clone, Debug)]
pub struct RcptReq {
    pub public_key: String,
}

/// A request for a block by number.
#[derive(Clone, Debug)]
pub struct BlockReq {
    pub block_number: i64,
}

/// The answer to a submitted transaction.
#[derive(Clone, Debug)]
pub struct TxRes {
    pub hash: String,
    pub status: String,
    pub description: String,
}

/// The RPC answer with the receipts of a wallet.
#[derive(Clone, Debug)]
pub struct RcptRes {
    pub all: Vec<Reciept>,
    pub status: String,
}

/// The RPC answer to a block request.
#[derive(Clone, Debug)]
pub struct BlockRes {
    pub block: Option<Block>,
    pub status: String,
}

/// A node that left the network.
#[derive(Clone, Debug)]
pub struct OutNode {
    pub peer_id: String,
}

/// A validator's announcement that it is in sync, through `relay`.
#[derive(Clone, Debug)]
pub struct VSync {
    pub relay: String,
    pub peerid: String,
    pub msg: String,
    pub wallet: String,
}

/// A handshake answer as the relay sends it: its wallet and "yes" or "no" for whether
/// the validator is the first of the network.
#[derive(Clone, Debug)]
pub struct Handshake {
    pub wallet: String,
    pub first_node: String,
}

impl Handshake {
    /// The answer: "no" when there are validators or blocks, "yes" otherwise.
    pub fn answer(wallet: String, validators_count: u64, blocks_count: u64) -> (h: Handshake)
        ensures
            h.wallet == wallet,
            h.first_node@ == if validators_count > 0 || blocks_count > 0 { "no"@ } else { "yes"@ },
    {
        let first_node = if validators_count > 0 || blocks_count > 0 {
            String::from_str("no")
        } else {
            String::from_str("yes")
        };
        Handshake { wallet, first_node }
    }
}

/// One address of the address server's relay listing.
#[derive(Clone, Debug)]
pub struct Address {
    pub addr: String,
}

/// The address server's relay listing.
#[derive(Clone, Debug)]
pub struct Addresses {
    pub status: String,
    pub data: Vec<Address>,
}

impl Addresses {
    /// The relays of the listing: relays at the listed addresses (no peer id, no wallet)
    /// when the status is "success" and the listing is not empty; nothing otherwise,
    /// which means this relay is the first of the network.
    pub fn relays(&self) -> (r: Option<Vec<Relay>>)
        ensures
            (self.status@ == "success"@ && self.data@.len() > 0) ==> (r matches Some(v) && v@.len() == self.data@.len()
                && forall|i: int| 0 <= i < v@.len() ==> (#[trigger] v@[i])@ == (RelayView { peerid: None, wallet: Seq::empty(), addr: self.data@[i].addr@ })),
            !(self.status@ == "success"@ && self.data@.len() > 0) ==> r is None,
    {
        let success = String::from_str("success");
        if !(self.status == success && self.data.len() > 0) {
            return None;
        }
        let mut relays: Vec<Relay> = Vec::new();
        let mut i: usize = 0;
        while i < self.data.len()
            invariant
                i <= self.data@.len(),
                relays@.len() == i,
                forall|j: int| 0 <= j < i ==> (#[trigger] relays@[j])@ == (RelayView { peerid: None, wallet: Seq::empty(), addr: self.data@[j].addr@ }),
            decreases self.data.len() - i,
        {
            relays.push(Relay::new(None, String::new(), self.data[i].addr.clone()));
            i = i + 1;
        }
        Some(relays)
    }
}

} // verus!
