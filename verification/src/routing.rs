//! Passing responses back along the chain of peers a request came through, and the
//! address a node downloads the chain from.
use vstd::prelude::*;

use crate::node::{texts, contains_id};
use crate::text::concat;

verus! {

/// Where a response goes. The response names the peers its request came through, the
/// last one nearest. When that is this node, it takes itself off and forwards to the
/// peer before it, if that peer subscribes to the client or relay topic (the answer);
/// otherwise the response goes on, unchanged, to the last peer.
pub fn route_response(peers: &mut Vec<String>, local: &String, client_topic_subscribers: &Vec<String>, relay_topic_subscribers: &Vec<String>) -> (send: bool)
    requires
        old(peers)@.len() > 0,
        old(peers)@.last()@ == local@ ==> old(peers)@.len() >= 2,
    ensures
        old(peers)@.last()@ == local@ ==> {
            &&& final(peers)@ == old(peers)@.drop_last()
            &&& send == (texts(client_topic_subscribers@).contains(final(peers)@.last()@)
                || texts(relay_topic_subscribers@).contains(final(peers)@.last()@))
        },
        old(peers)@.last()@ != local@ ==> final(peers)@ == old(peers)@ && send,
        final(peers)@.len() > 0,
{
    let n = peers.len();
    if peers[n - 1] == *local {
        peers.pop();
        let m = peers.len();
        let target = &peers[m - 1];
        contains_id(client_topic_subscribers, target) || contains_id(relay_topic_subscribers, target)
    } else {
        true
    }
}

/// The index of the response channel kept for `peer` (the first one).
pub fn channel_index(channel_peers: &Vec<String>, peer: &String) -> (i: usize)
    requires
        texts(channel_peers@).contains(peer@),
    ensures
        i < channel_peers@.len(),
        channel_peers@[i as int]@ == peer@,
        forall|j: int| 0 <= j < i ==> channel_peers@[j]@ != peer@,
{
    let mut i: usize = 0;
    while i < channel_peers.len()
        invariant
            i <= channel_peers@.len(),
            texts(channel_peers@).contains(peer@),
            forall|j: int| 0 <= j < i ==> channel_peers@[j]@ != peer@,
        decreases channel_peers.len() - i,
    {
        if channel_peers[i] == *peer {
            return i;
        }
        i = i + 1;
    }
    proof {
        let k = choose|k: int| 0 <= k < texts(channel_peers@).len() && texts(channel_peers@)[k] == peer@;
        assert(channel_peers@[k]@ == peer@);
    }
    0
}

/// The address of a relay's chain archive: on its HTTP port 33369.
pub fn blockchain_url(ip: &String) -> (url: String)
    ensures
        url@ == "http://"@ + ip@ + ":33369/blockchain/blockchain.zip"@,
{
    let head = concat("http://", ip.as_str());
    concat(head.as_str(), ":33369/blockchain/blockchain.zip")
}

} // verus!
