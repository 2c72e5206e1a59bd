//! The relay node's view of the network while it runs: the peers it is connected to,
//! which of them subscribe to the relay and client topics, which are relays with
//! clients and which are clients, the addresses it dialed, and whether it is in sync.
//! Each event the network delivers updates that view and tells the node what to do.
use vstd::prelude::*;

use crate::chain::GossipMessage;
use crate::text::{contains_text, has_substring};

verus! {

/// The texts of a list of strings.
pub open spec fn texts(v: Seq<String>) -> Seq<Seq<char>> {
    v.map_values(|s: String| s@)
}

/// No text occurs twice.
pub open spec fn no_dup(v: Seq<Seq<char>>) -> bool {
    forall|i: int, j: int| 0 <= i < v.len() && 0 <= j < v.len() && i != j ==> v[i] != v[j]
}

/// The first index, from `i` on, of `x` in `v`.
pub open spec fn index_from(v: Seq<Seq<char>>, x: Seq<char>, i: int) -> Option<int>
    decreases v.len() - i,
{
    if i < 0 || i >= v.len() {
        None
    } else if v[i] == x {
        Some(i)
    } else {
        index_from(v, x, i + 1)
    }
}

/// `v` without the first occurrence of `x` (`v` itself when `x` is not there).
pub open spec fn without_first(v: Seq<Seq<char>>, x: Seq<char>) -> Seq<Seq<char>> {
    match index_from(v, x, 0) {
        Some(i) => v.remove(i),
        None => v,
    }
}

/// The first index, from `i` on, of an element of `v` in which `needle` occurs.
pub open spec fn index_containing(v: Seq<Seq<char>>, needle: Seq<char>, i: int) -> Option<int>
    decreases v.len() - i,
{
    if i < 0 || i >= v.len() {
        None
    } else if has_substring(v[i], needle) {
        Some(i)
    } else {
        index_containing(v, needle, i + 1)
    }
}

/// `v` without its first element in which `needle` occurs.
pub open spec fn without_first_containing(v: Seq<Seq<char>>, needle: Seq<char>) -> Seq<Seq<char>> {
    match index_containing(v, needle, 0) {
        Some(i) => v.remove(i),
        None => v,
    }
}

proof fn lemma_index_from(v: Seq<Seq<char>>, x: Seq<char>, i: int)
    requires
        0 <= i,
    ensures
        index_from(v, x, i) matches Some(k) ==> i <= k < v.len() && v[k] == x,
        index_from(v, x, i) is None ==> forall|j: int| i <= j < v.len() ==> v[j] != x,
    decreases v.len() - i,
{
    if i < v.len() && v[i] != x {
        lemma_index_from(v, x, i + 1);
    }
}

proof fn lemma_index_containing(v: Seq<Seq<char>>, n: Seq<char>, i: int)
    requires
        0 <= i,
    ensures
        index_containing(v, n, i) matches Some(k) ==> i <= k < v.len(),
    decreases v.len() - i,
{
    if i < v.len() && !has_substring(v[i], n) {
        lemma_index_containing(v, n, i + 1);
    }
}

/// Whether `x` is in `v`.
pub fn contains_id(v: &Vec<String>, x: &String) -> (r: bool)
    ensures
        r == texts(v@).contains(x@),
{
    let mut i: usize = 0;
    while i < v.len()
        invariant
            i <= v@.len(),
            forall|j: int| 0 <= j < i ==> v@[j]@ != x@,
        decreases v.len() - i,
    {
        if v[i] == *x {
            assert(texts(v@)[i as int] == x@);
            return true;
        }
        i = i + 1;
    }
    assert(!texts(v@).contains(x@)) by {
        if texts(v@).contains(x@) {
            let k = choose|k: int| 0 <= k < texts(v@).len() && texts(v@)[k] == x@;
            assert(v@[k]@ == x@);
        }
    }
    false
}

/// Takes out the first occurrence of `x`; whether there was one.
pub fn remove_first(v: &mut Vec<String>, x: &String) -> (found: bool)
    ensures
        texts(final(v)@) == without_first(texts(old(v)@), x@),
        found == (index_from(texts(old(v)@), x@, 0) is Some),
{
    let ghost t = texts(v@);
    let mut i: usize = 0;
    while i < v.len()
        invariant
            i <= v@.len(),
            t == texts(v@),
            *v == *old(v),
            index_from(t, x@, 0) == index_from(t, x@, i as int),
        decreases v.len() - i,
    {
        if v[i] == *x {
            v.remove(i);
            assert(texts(v@) =~= t.remove(i as int));
            return true;
        }
        i = i + 1;
    }
    false
}

/// Takes out the first element in which `needle` occurs.
pub fn remove_first_containing(v: &mut Vec<String>, needle: &String)
    ensures
        texts(final(v)@) == without_first_containing(texts(old(v)@), needle@),
{
    let ghost t = texts(v@);
    let mut i: usize = 0;
    while i < v.len()
        invariant
            i <= v@.len(),
            t == texts(v@),
            *v == *old(v),
            index_containing(t, needle@, 0) == index_containing(t, needle@, i as int),
        decreases v.len() - i,
    {
        if contains_text(&v[i], needle) {
            v.remove(i);
            assert(texts(v@) =~= t.remove(i as int));
            return;
        }
        i = i + 1;
    }
}

/// The first element in which `needle` occurs, or an empty text.
pub fn first_containing(v: &Vec<String>, needle: &String) -> (r: String)
    ensures
        match index_containing(texts(v@), needle@, 0) {
            Some(k) => r@ == texts(v@)[k],
            None => r@ == Seq::<char>::empty(),
        },
{
    let ghost t = texts(v@);
    let mut i: usize = 0;
    while i < v.len()
        invariant
            i <= v@.len(),
            t == texts(v@),
            index_containing(t, needle@, 0) == index_containing(t, needle@, i as int),
        decreases v.len() - i,
    {
        if contains_text(&v[i], needle) {
            return v[i].clone();
        }
        i = i + 1;
    }
    String::new()
}

proof fn lemma_remove_keeps_no_dup(v: Seq<Seq<char>>, i: int)
    requires
        no_dup(v),
        0 <= i < v.len(),
    ensures
        no_dup(v.remove(i)),
{
    let r = v.remove(i);
    assert forall|a: int, b: int| 0 <= a < r.len() && 0 <= b < r.len() && a != b implies r[a] != r[b] by {
        let a2 = if a < i { a } else { a + 1 };
        let b2 = if b < i { b } else { b + 1 };
        assert(r[a] == v[a2]);
        assert(r[b] == v[b2]);
    }
}

proof fn lemma_without_first_no_dup(v: Seq<Seq<char>>, x: Seq<char>)
    requires
        no_dup(v),
    ensures
        no_dup(without_first(v, x)),
{
    lemma_index_from(v, x, 0);
    if let Some(i) = index_from(v, x, 0) {
        lemma_remove_keeps_no_dup(v, i);
    }
}

proof fn lemma_push_new_no_dup(v: Seq<Seq<char>>, x: Seq<char>)
    requires
        no_dup(v),
        !v.contains(x),
    ensures
        no_dup(v.push(x)),
{
    let r = v.push(x);
    assert forall|a: int, b: int| 0 <= a < r.len() && 0 <= b < r.len() && a != b implies r[a] != r[b] by {
        if a == v.len() {
            assert(r[b] == v[b]);
        } else if b == v.len() {
            assert(r[a] == v[a]);
        }
    }
}

/// A block received while the node is not in sync, kept for after syncing.
#[derive(Clone, Debug)]
pub struct GetGossipMsg {
    pub gossip: GossipMessage,
    pub propagation_source: String,
}

/// The node's view of the network.
pub struct RelayState {
    pub connections: Vec<String>,
    pub relay_topic_subscribers: Vec<String>,
    pub client_topic_subscribers: Vec<String>,
    pub clients: Vec<String>,
    pub relays: Vec<String>,
    pub leader: String,
    pub dialed_addr: Vec<String>,
    pub my_addresses: Vec<String>,
    pub syncing_blocks: Vec<GetGossipMsg>,
    pub sync: bool,
    pub im_first: bool,
    /// A relay with clients has been heard of while syncing, and which one first.
    pub have_client: bool,
    pub have_client_pid: String,
    pub in_syncing: bool,
}

/// What the node does when a peer's connection closes.
#[derive(Debug)]
pub struct PeerLeft {
    /// The peer was a relay with clients: its addresses are to be removed from the
    /// address server and from the relays file.
    pub was_relay: bool,
    /// Tell the other relays that this relay has no clients any more.
    pub announce_no_clients: bool,
}

/// How a sync that finished ends.
#[derive(Debug)]
pub enum SyncEnd {
    /// The sync failed: the node may try again.
    Retry,
    /// The node is in sync: announce this address.
    Synced(String),
    /// A block kept during the sync was wrong: disconnect these peers and start again.
    Restart(Vec<String>),
}

/// Which parts of a `RelayState` a step may change.
pub struct Changes {
    pub connections: bool,
    pub relay_topic_subscribers: bool,
    pub client_topic_subscribers: bool,
    pub clients: bool,
    pub relays: bool,
    pub leader: bool,
    pub dialed_addr: bool,
    pub my_addresses: bool,
    pub syncing_blocks: bool,
    pub sync: bool,
    pub im_first: bool,
    /// `have_client` and `have_client_pid`.
    pub have_client: bool,
    pub in_syncing: bool,
}

impl Changes {
    /// Nothing may change.
    pub open spec fn none() -> Changes {
        Changes {
            connections: false,
            relay_topic_subscribers: false,
            client_topic_subscribers: false,
            clients: false,
            relays: false,
            leader: false,
            dialed_addr: false,
            my_addresses: false,
            syncing_blocks: false,
            sync: false,
            im_first: false,
            have_client: false,
            in_syncing: false,
        }
    }
}

impl RelayState {
    /// Relays and clients are held at most once.
    pub open spec fn wf(&self) -> bool {
        &&& no_dup(texts(self.relays@))
        &&& no_dup(texts(self.clients@))
    }

    /// Every part of the state that `c` does not mark is as in `before`.
    pub open spec fn unchanged_except(&self, before: RelayState, c: Changes) -> bool {
        &&& (!c.connections ==> self.connections == before.connections)
        &&& (!c.relay_topic_subscribers ==> self.relay_topic_subscribers == before.relay_topic_subscribers)
        &&& (!c.client_topic_subscribers ==> self.client_topic_subscribers == before.client_topic_subscribers)
        &&& (!c.clients ==> self.clients == before.clients)
        &&& (!c.relays ==> self.relays == before.relays)
        &&& (!c.leader ==> self.leader == before.leader)
        &&& (!c.dialed_addr ==> self.dialed_addr == before.dialed_addr)
        &&& (!c.my_addresses ==> self.my_addresses == before.my_addresses)
        &&& (!c.syncing_blocks ==> self.syncing_blocks == before.syncing_blocks)
        &&& (!c.sync ==> self.sync == before.sync)
        &&& (!c.im_first ==> self.im_first == before.im_first)
        &&& (!c.have_client ==> self.have_client == before.have_client && self.have_client_pid == before.have_client_pid)
        &&& (!c.in_syncing ==> self.in_syncing == before.in_syncing)
    }

    /// Everything the node learnt of the network is forgotten.
    pub open spec fn is_reset(&self) -> bool {
        &&& self.connections@.len() == 0
        &&& self.relay_topic_subscribers@.len() == 0
        &&& self.client_topic_subscribers@.len() == 0
        &&& self.clients@.len() == 0
        &&& self.relays@.len() == 0
        &&& self.leader@.len() == 0
        &&& self.dialed_addr@.len() == 0
        &&& self.my_addresses@.len() == 0
        &&& self.syncing_blocks@.len() == 0
        &&& !self.sync
        &&& !self.have_client
        &&& self.have_client_pid@.len() == 0
        &&& !self.in_syncing
    }

    /// A node that dialed `dialed_addr` and has learnt nothing else yet; `im_first` tells
    /// whether it is the first relay of the network.
    pub fn new(dialed_addr: Vec<String>, im_first: bool) -> (s: RelayState)
        ensures
            s.wf(),
            s.dialed_addr@ == dialed_addr@,
            s.im_first == im_first,
            s.connections@.len() == 0,
            s.relays@.len() == 0,
            s.clients@.len() == 0,
            s.leader@.len() == 0,
            !s.sync,
    {
        RelayState {
            connections: Vec::new(),
            relay_topic_subscribers: Vec::new(),
            client_topic_subscribers: Vec::new(),
            clients: Vec::new(),
            relays: Vec::new(),
            leader: String::new(),
            dialed_addr,
            my_addresses: Vec::new(),
            syncing_blocks: Vec::new(),
            sync: false,
            im_first,
            have_client: false,
            have_client_pid: String::new(),
            in_syncing: false,
        }
    }

    /// Forgets everything learnt of the network (whether the node is first stays).
    pub fn reset(&mut self)
        ensures
            final(self).is_reset(),
            final(self).wf(),
            final(self).im_first == old(self).im_first,
    {
        self.leader = String::new();
        self.connections.clear();
        self.client_topic_subscribers.clear();
        self.relay_topic_subscribers.clear();
        self.clients.clear();
        self.relays.clear();
        self.dialed_addr.clear();
        self.syncing_blocks.clear();
        self.my_addresses.clear();
        self.sync = false;
        self.have_client = false;
        self.have_client_pid = String::new();
        self.in_syncing = false;
    }

    /// The node listens on a new public address: it keeps its full address, and posts it
    /// to the address server when it is in sync (the answer).
    pub fn on_listen_address(&mut self, full_address: String) -> (post: bool)
        ensures
            texts(final(self).my_addresses@) == texts(old(self).my_addresses@).push(full_address@),
            post == old(self).sync,
            final(self).sync == old(self).sync,
            final(self).wf() == old(self).wf(),
            final(self).relays == old(self).relays,
            final(self).clients == old(self).clients,
            final(self).unchanged_except(*old(self), (Changes { my_addresses: true, ..Changes::none() })),
    {
        self.my_addresses.push(full_address);
        assert(texts(self.my_addresses@) =~= texts(old(self).my_addresses@).push(full_address@));
        self.sync
    }

    /// A connection is established with `peer`: it joins the connections; a node in sync
    /// then takes a dump of its chain for the newcomer (the answer).
    pub fn on_connection_established(&mut self, peer: String) -> (dump: bool)
        ensures
            texts(final(self).connections@) == texts(old(self).connections@).push(peer@),
            dump == old(self).sync,
            final(self).relays == old(self).relays,
            final(self).clients == old(self).clients,
            final(self).dialed_addr == old(self).dialed_addr,
            final(self).sync == old(self).sync,
            final(self).unchanged_except(*old(self), (Changes { connections: true, ..Changes::none() })),
    {
        self.connections.push(peer);
        assert(texts(self.connections@) =~= texts(old(self).connections@).push(peer@));
        self.sync
    }

    /// Dialing `peer` failed: its dialed address goes; with no dialed address left the
    /// node forgets everything and dials again (the answer).
    pub fn on_dial_failed(&mut self, peer: &String) -> (redial: bool)
        requires
            old(self).wf(),
        ensures
            final(self).wf(),
            final(self).im_first == old(self).im_first,
            redial == (without_first_containing(texts(old(self).dialed_addr@), peer@).len() < 1),
            redial ==> final(self).is_reset(),
            !redial ==> texts(final(self).dialed_addr@) == without_first_containing(texts(old(self).dialed_addr@), peer@),
            !redial ==> final(self).relays == old(self).relays && final(self).clients == old(self).clients,
            !redial ==> final(self).unchanged_except(*old(self), (Changes { dialed_addr: true, ..Changes::none() })),
    {
        remove_first_containing(&mut self.dialed_addr, peer);
        if self.dialed_addr.len() < 1 {
            self.reset();
            true
        } else {
            false
        }
    }

    /// `peer` subscribed to `topic`. To "relay": it joins the relay topic's subscribers,
    /// and when it is connected and this relay has clients, this relay tells the topic
    /// it has a client (the answer). To "client", when it is connected: it joins the
    /// client topic's subscribers.
    pub fn on_subscribed(&mut self, topic: &String, peer: String) -> (announce_client: bool)
        requires
            old(self).wf(),
        ensures
            final(self).wf(),
            final(self).relays == old(self).relays,
            final(self).clients == old(self).clients,
            final(self).connections == old(self).connections,
            topic@ == "relay"@ ==> {
                &&& texts(final(self).relay_topic_subscribers@) == texts(old(self).relay_topic_subscribers@).push(peer@)
                &&& announce_client == (texts(old(self).connections@).contains(peer@) && old(self).clients@.len() > 0)
            },
            topic@ != "relay"@ ==> final(self).relay_topic_subscribers == old(self).relay_topic_subscribers && !announce_client,
            (topic@ == "client"@ && texts(old(self).connections@).contains(peer@)) ==>
                texts(final(self).client_topic_subscribers@) == texts(old(self).client_topic_subscribers@).push(peer@),
            !(topic@ == "client"@ && texts(old(self).connections@).contains(peer@)) ==>
                final(self).client_topic_subscribers == old(self).client_topic_subscribers,
            final(self).unchanged_except(*old(self), (Changes { relay_topic_subscribers: true, client_topic_subscribers: true, ..Changes::none() })),
    {
        let relay_topic = String::from_str("relay");
        let client_topic = String::from_str("client");
        let mut announce = false;
        if *topic == relay_topic {
            let connected = contains_id(&self.connections, &peer);
            self.relay_topic_subscribers.push(peer.clone());
            assert(texts(self.relay_topic_subscribers@) =~= texts(old(self).relay_topic_subscribers@).push(peer@));
            if connected && self.clients.len() > 0 {
                announce = true;
            }
        }
        if *topic == client_topic && contains_id(&self.connections, &peer) {
            self.client_topic_subscribers.push(peer);
            assert(texts(self.client_topic_subscribers@) =~= texts(old(self).client_topic_subscribers@).push(peer@));
        }
        proof {
            if topic@ == "relay"@ {
                reveal_strlit("relay");
                reveal_strlit("client");
                assert("relay"@[0] != "client"@[0]);
                assert(topic@ != "client"@);
            }
        }
        announce
    }

    /// A relay says it has a client: when it is connected and not yet known as a relay
    /// with clients, it becomes one.
    pub fn on_have_client(&mut self, source: &String)
        requires
            old(self).wf(),
        ensures
            final(self).wf(),
            final(self).clients == old(self).clients,
            final(self).connections == old(self).connections,
            texts(final(self).relays@) == if texts(old(self).connections@).contains(source@) && !texts(old(self).relays@).contains(source@) {
                texts(old(self).relays@).push(source@)
            } else {
                texts(old(self).relays@)
            },
            final(self).unchanged_except(*old(self), (Changes { relays: true, ..Changes::none() })),
    {
        if contains_id(&self.connections, source) && !contains_id(&self.relays, source) {
            self.relays.push(source.clone());
            proof {
                assert(texts(self.relays@) =~= texts(old(self).relays@).push(source@));
                lemma_push_new_no_dup(texts(old(self).relays@), source@);
            }
        }
    }

    /// A relay says it has no clients any more: it stops being a relay with clients.
    pub fn on_no_clients(&mut self, source: &String)
        requires
            old(self).wf(),
        ensures
            final(self).wf(),
            final(self).clients == old(self).clients,
            texts(final(self).relays@) == without_first(texts(old(self).relays@), source@),
            final(self).unchanged_except(*old(self), (Changes { relays: true, ..Changes::none() })),
    {
        remove_first(&mut self.relays, source);
        proof { lemma_without_first_no_dup(texts(old(self).relays@), source@); }
    }

    /// A validator `new_peer` announces that it synced, through `source`, and it is not a
    /// node that left. When `source` is not a relay, a connected validator not yet a
    /// client becomes one; the answer says whether to tell the relay topic that this
    /// relay has a client (it has exactly one, and there are relays to tell).
    pub fn on_validator_synced(&mut self, source: &String, new_peer: &String) -> (announce_client: bool)
        requires
            old(self).wf(),
        ensures
            final(self).wf(),
            final(self).relays == old(self).relays,
            final(self).relay_topic_subscribers == old(self).relay_topic_subscribers,
            texts(old(self).relay_topic_subscribers@).contains(source@) ==> final(self).clients == old(self).clients && !announce_client,
            !texts(old(self).relay_topic_subscribers@).contains(source@) ==> {
                &&& texts(final(self).clients@) == if texts(old(self).connections@).contains(new_peer@) && !texts(old(self).clients@).contains(new_peer@) {
                    texts(old(self).clients@).push(new_peer@)
                } else {
                    texts(old(self).clients@)
                }
                &&& announce_client == (old(self).relay_topic_subscribers@.len() > 0 && final(self).clients@.len() == 1)
            },
            final(self).unchanged_except(*old(self), (Changes { clients: true, ..Changes::none() })),
    {
        if contains_id(&self.relay_topic_subscribers, source) {
            return false;
        }
        if contains_id(&self.connections, new_peer) && !contains_id(&self.clients, new_peer) {
            self.clients.push(new_peer.clone());
            proof {
                assert(texts(self.clients@) =~= texts(old(self).clients@).push(new_peer@));
                lemma_push_new_no_dup(texts(old(self).clients@), new_peer@);
            }
        }
        self.relay_topic_subscribers.len() > 0 && self.clients.len() == 1
    }

    /// The connection with `peer` closed. It stops being a client-topic subscriber, a
    /// relay-topic subscriber (when that leaves none, this relay is the first), a relay
    /// with clients, a client and a dialed address (first occurrence of each); the leader
    /// is forgotten when `validators_left` (the validators the ledger keeps once the
    /// peer's are gone) is zero. Nothing else changes.
    pub fn on_peer_left(&mut self, peer: &String, validators_left: u64) -> (r: PeerLeft)
        requires
            old(self).wf(),
        ensures
            final(self).wf(),
            final(self).im_first == (old(self).im_first || (index_from(texts(old(self).relay_topic_subscribers@), peer@, 0) is Some
                && without_first(texts(old(self).relay_topic_subscribers@), peer@).len() == 0)),
            r.was_relay == (index_from(texts(old(self).relays@), peer@, 0) is Some),
            r.announce_no_clients == (without_first(texts(old(self).relays@), peer@).len() > 0
                && without_first(texts(old(self).clients@), peer@).len() == 0),
            texts(final(self).relays@) == without_first(texts(old(self).relays@), peer@),
            texts(final(self).clients@) == without_first(texts(old(self).clients@), peer@),
            texts(final(self).client_topic_subscribers@) == without_first(texts(old(self).client_topic_subscribers@), peer@),
            texts(final(self).relay_topic_subscribers@) == without_first(texts(old(self).relay_topic_subscribers@), peer@),
            texts(final(self).dialed_addr@) == without_first_containing(texts(old(self).dialed_addr@), peer@),
            final(self).leader@ == if validators_left == 0 { Seq::<char>::empty() } else { old(self).leader@ },
            final(self).connections == old(self).connections,
            final(self).my_addresses == old(self).my_addresses,
            final(self).syncing_blocks == old(self).syncing_blocks,
            final(self).sync == old(self).sync,
            final(self).have_client == old(self).have_client,
            final(self).have_client_pid == old(self).have_client_pid,
            final(self).in_syncing == old(self).in_syncing,
    {
        remove_first(&mut self.client_topic_subscribers, peer);
        if remove_first(&mut self.relay_topic_subscribers, peer) {
            if self.relay_topic_subscribers.len() == 0 {
                self.im_first = true;
            }
        }
        let was_relay = remove_first(&mut self.relays, peer);
        proof { lemma_without_first_no_dup(texts(old(self).relays@), peer@); }
        if validators_left == 0 {
            self.leader = String::new();
        }
        remove_first(&mut self.clients, peer);
        proof { lemma_without_first_no_dup(texts(old(self).clients@), peer@); }
        remove_first_containing(&mut self.dialed_addr, peer);
        let announce_no_clients = self.relays.len() > 0 && self.clients.len() == 0;
        PeerLeft { was_relay, announce_no_clients }
    }

    /// After a connection closed: when this relay is not the first and no relay with
    /// clients is left, it forgets everything and dials again, disconnecting the peers it
    /// was connected to (the answer); otherwise nothing changes.
    pub fn redial_if_no_relay(&mut self) -> (redial: Option<Vec<String>>)
        requires
            old(self).wf(),
        ensures
            final(self).wf(),
            final(self).im_first == old(self).im_first,
            (!old(self).im_first && old(self).relays@.len() < 1) ==> {
                &&& final(self).is_reset()
                &&& redial matches Some(d) && texts(d@) == texts(old(self).connections@)
            },
            !(!old(self).im_first && old(self).relays@.len() < 1) ==> redial is None && *final(self) == *old(self),
    {
        if !self.im_first && self.relays.len() < 1 {
            let mut connected: Vec<String> = Vec::new();
            let mut i: usize = 0;
            while i < self.connections.len()
                invariant
                    i <= self.connections@.len(),
                    connected@.len() == i,
                    forall|j: int| 0 <= j < i ==> (#[trigger] connected@[j])@ == self.connections@[j]@,
                decreases self.connections.len() - i,
            {
                connected.push(self.connections[i].clone());
                i = i + 1;
            }
            assert(texts(connected@) =~= texts(self.connections@));
            self.reset();
            Some(connected)
        } else {
            None
        }
    }

    /// While the node is not in sync, a relay says it has a client: it becomes a relay
    /// with clients when it is connected and not known yet, and the first such relay is
    /// the one to sync from.
    pub fn on_have_client_while_syncing(&mut self, source: &String)
        requires
            old(self).wf(),
        ensures
            final(self).wf(),
            final(self).clients == old(self).clients,
            final(self).connections == old(self).connections,
            final(self).sync == old(self).sync,
            final(self).in_syncing == old(self).in_syncing,
            ({
                let added = texts(old(self).connections@).contains(source@) && !texts(old(self).relays@).contains(source@);
                &&& texts(final(self).relays@) == if added { texts(old(self).relays@).push(source@) } else { texts(old(self).relays@) }
                &&& final(self).have_client == (old(self).have_client || added)
                &&& final(self).have_client_pid@ == if added && !old(self).have_client { source@ } else { old(self).have_client_pid@ }
            }),
            final(self).unchanged_except(*old(self), (Changes { relays: true, have_client: true, ..Changes::none() })),
    {
        if contains_id(&self.connections, source) && !contains_id(&self.relays, source) {
            self.relays.push(source.clone());
            proof {
                assert(texts(self.relays@) =~= texts(old(self).relays@).push(source@));
                lemma_push_new_no_dup(texts(old(self).relays@), source@);
            }
            if !self.have_client {
                self.have_client = true;
                self.have_client_pid = source.clone();
            }
        }
    }

    /// Whether to start syncing now: a relay with clients is known, someone subscribes to
    /// the client topic, and the node is neither in sync nor syncing. If so, the node is
    /// syncing from then on, from the first dialed address of that relay (or from an
    /// empty address when none was dialed), the answer.
    pub fn start_sync(&mut self) -> (from: Option<String>)
        ensures
            final(self).wf() == old(self).wf(),
            final(self).relays == old(self).relays,
            final(self).clients == old(self).clients,
            ({
                let start = old(self).have_client && old(self).client_topic_subscribers@.len() > 0
                    && !old(self).sync && !old(self).in_syncing;
                &&& start ==> final(self).in_syncing && (from matches Some(a) && match index_containing(texts(old(self).dialed_addr@), old(self).have_client_pid@, 0) {
                    Some(k) => a@ == texts(old(self).dialed_addr@)[k],
                    None => a@ == Seq::<char>::empty(),
                })
                &&& !start ==> from is None && final(self).in_syncing == old(self).in_syncing
            }),
            final(self).unchanged_except(*old(self), (Changes { in_syncing: true, ..Changes::none() })),
    {
        if self.have_client && self.client_topic_subscribers.len() > 0 && !self.sync && !self.in_syncing {
            self.in_syncing = true;
            Some(first_containing(&self.dialed_addr, &self.have_client_pid))
        } else {
            None
        }
    }

    /// A sync finished. If it failed, the node may start again later. If it worked and
    /// every block kept during the sync was fine (`blocks_fine`), the node is in sync and
    /// announces its first address; otherwise it disconnects and starts over.
    pub fn finish_sync(&mut self, synced: bool, blocks_fine: bool) -> (r: SyncEnd)
        requires
            old(self).wf(),
            synced && blocks_fine ==> old(self).my_addresses@.len() > 0,
        ensures
            final(self).wf(),
            !synced ==> r is Retry && !final(self).in_syncing && final(self).sync == old(self).sync,
            synced && blocks_fine ==> (r matches SyncEnd::Synced(a) && a@ == old(self).my_addresses@[0]@) && final(self).sync,
            synced && !blocks_fine ==> (r matches SyncEnd::Restart(d) && texts(d@) == texts(old(self).connections@)) && final(self).is_reset(),
            !synced ==> final(self).unchanged_except(*old(self), (Changes { in_syncing: true, ..Changes::none() })),
            synced && blocks_fine ==> final(self).unchanged_except(*old(self), (Changes { sync: true, ..Changes::none() })),
    {
        if !synced {
            self.in_syncing = false;
            return SyncEnd::Retry;
        }
        if blocks_fine {
            self.sync = true;
            SyncEnd::Synced(self.my_addresses[0].clone())
        } else {
            let mut connected: Vec<String> = Vec::new();
            let mut i: usize = 0;
            while i < self.connections.len()
                invariant
                    i <= self.connections@.len(),
                    connected@.len() == i,
                    forall|j: int| 0 <= j < i ==> (#[trigger] connected@[j])@ == self.connections@[j]@,
                decreases self.connections.len() - i,
            {
                connected.push(self.connections[i].clone());
                i = i + 1;
            }
            assert(texts(connected@) =~= texts(self.connections@));
            self.reset();
            SyncEnd::Restart(connected)
        }
    }

    /// Gossip is handled as it comes only in sync; before that, blocks are kept.
    pub fn handles_gossip_now(&self) -> (r: bool)
        ensures
            r == self.sync,
    {
        self.sync
    }

    /// Requests from validators and relays are answered only in sync.
    pub fn answers_requests(&self) -> (r: bool)
        ensures
            r == self.sync,
    {
        self.sync
    }

    /// A block gossiped while the node is not in sync, from `source`, is kept to be
    /// checked once the sync is done.
    pub fn keep_for_after_sync(&mut self, gossip: GossipMessage, source: String)
        ensures
            final(self).syncing_blocks@ == old(self).syncing_blocks@.push(GetGossipMsg { gossip, propagation_source: source }),
            final(self).unchanged_except(*old(self), (Changes { syncing_blocks: true, ..Changes::none() })),
            final(self).wf() == old(self).wf(),
    {
        self.syncing_blocks.push(GetGossipMsg { gossip, propagation_source: source });
    }

    /// The current leader hands over to `next_leader`: when both the announcing validator
    /// and the next leader are known validators (`both_known`), the old leader's
    /// validator entry goes (the answer) and `next_leader` leads.
    pub fn hand_over_leadership(&mut self, next_leader: &String, both_known: bool) -> (remove_old_leader: bool)
        ensures
            remove_old_leader == both_known,
            both_known ==> final(self).leader@ == next_leader@,
            !both_known ==> final(self).leader@ == old(self).leader@,
            final(self).relays == old(self).relays,
            final(self).clients == old(self).clients,
            final(self).unchanged_except(*old(self), (Changes { leader: true, ..Changes::none() })),
    {
        if both_known {
            self.leader = next_leader.clone();
        }
        both_known
    }
}

/// Forgetting everything leaves nothing of the network known, and the relay and client
/// lists without repeats.
pub proof fn law_reset_forgets(s: RelayState)
    requires
        s.is_reset(),
    ensures
        s.wf(),
{
    assert(texts(s.relays@).len() == 0);
    assert(texts(s.clients@).len() == 0);
}

/// A peer that left is forgotten: in a list without repeats (such as the relays or the
/// clients, see `RelayState::wf`), taking out its first occurrence leaves none.
pub proof fn law_left_peer_forgotten(v: Seq<Seq<char>>, x: Seq<char>)
    requires
        no_dup(v),
    ensures
        !without_first(v, x).contains(x),
{
    lemma_index_from(v, x, 0);
    match index_from(v, x, 0) {
        Some(k) => {
            let r = v.remove(k);
            assert forall|j: int| 0 <= j < r.len() implies r[j] != x by {
                let j2 = if j < k { j } else { j + 1 };
                assert(r[j] == v[j2]);
                assert(j2 != k);
            }
        },
        None => {},
    }
}

/// The full address of this node on a listener: the listener address, then `/p2p/` and
/// the node's peer id.
pub fn full_address(address: &String, peer: &String) -> (r: String)
    ensures
        r@ == address@ + "/p2p/"@ + peer@,
{
    let mut v = crate::text::chars_of(address.as_str());
    let sep = crate::text::chars_of("/p2p/");
    let p = crate::text::chars_of(peer.as_str());
    let mut w: Vec<char> = Vec::new();
    let mut i: usize = 0;
    while i < v.len()
        invariant
            i <= v@.len(),
            w@ == v@.take(i as int),
        decreases v.len() - i,
    {
        w.push(v[i]);
        i = i + 1;
        assert(w@ =~= v@.take(i as int));
    }
    let mut j: usize = 0;
    while j < sep.len()
        invariant
            j <= sep@.len(),
            w@ == v@ + sep@.take(j as int),
        decreases sep.len() - j,
    {
        w.push(sep[j]);
        j = j + 1;
        assert(w@ =~= v@ + sep@.take(j as int));
    }
    let mut k: usize = 0;
    while k < p.len()
        invariant
            k <= p@.len(),
            w@ == v@ + sep@ + p@.take(k as int),
        decreases p.len() - k,
    {
        w.push(p[k]);
        k = k + 1;
        assert(w@ =~= v@ + sep@ + p@.take(k as int));
    }
    assert(v@.take(v@.len() as int) =~= v@);
    assert(sep@.take(sep@.len() as int) =~= sep@);
    assert(p@.take(p@.len() as int) =~= p@);
    crate::text::string_from_chars(&w)
}

} // verus!
