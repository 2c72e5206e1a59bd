//! The relay's own bookkeeping of its connections and of the relays it dialed, and its
//! answer to a validator's handshake.
use vstd::prelude::*;
use rand::seq::IteratorRandom;

use crate::text::{contains_text, has_substring, ip_of, ip_of_address};

verus! {

/// What a connected peer turned out to be, by the topic it subscribed to.
#[derive(Clone, Copy, Debug, PartialEq, Eq, Structural)]
pub enum Kind {
    Relay,
    Validator,
}

/// A connection with a peer, and what the peer is once known.
#[derive(Clone, Debug)]
pub struct Connection {
    pub peerid: String,
    pub kind: Option<Kind>,
}

impl Connection {
    pub fn new(peerid: String, kind: Option<Kind>) -> (c: Connection)
        ensures
            c.peerid == peerid,
            c.kind == kind,
    {
        Connection { peerid, kind }
    }

    /// Records what the peer is, unless that is known already.
    pub fn update(&mut self, kind: Kind)
        ensures
            final(self).peerid == old(self).peerid,
            final(self).kind == match old(self).kind {
                Some(k) => Some(k),
                None => Some(kind),
            },
    {
        if self.kind.is_none() {
            self.kind = Some(kind);
        }
    }
}

/// The connections the relay has with peers that it did not dial.
pub struct ConnectionsHandler {
    pub connections: Vec<Connection>,
}

/// The first connection, from index `i` on, with the peer `p`.
pub open spec fn connection_position(c: Seq<Connection>, p: Seq<char>, i: int) -> Option<int>
    decreases c.len() - i,
{
    if i < 0 || i >= c.len() {
        None
    } else if c[i].peerid@ == p {
        Some(i)
    } else {
        connection_position(c, p, i + 1)
    }
}

proof fn lemma_connection_position(c: Seq<Connection>, p: Seq<char>, i: int)
    requires
        0 <= i,
    ensures
        connection_position(c, p, i) matches Some(k) ==> i <= k < c.len() && c[k].peerid@ == p,
        connection_position(c, p, i) is None ==> forall|j: int| i <= j < c.len() ==> c[j].peerid@ != p,
    decreases c.len() - i,
{
    if i < c.len() && c[i].peerid@ != p {
        lemma_connection_position(c, p, i + 1);
    }
}

/// The number of connections known to be with relays.
pub open spec fn relay_count(c: Seq<Connection>) -> nat
    decreases c.len(),
{
    if c.len() == 0 {
        0
    } else {
        relay_count(c.drop_last()) + if c.last().kind == Some(Kind::Relay) { 1nat } else { 0nat }
    }
}

/// The connections after recording that the first connection with `p` is of `kind`,
/// unless its kind is known already; unchanged when there is no connection with `p`.
pub open spec fn with_kind(c: Seq<Connection>, p: Seq<char>, kind: Kind) -> Seq<Connection> {
    match connection_position(c, p, 0) {
        Some(k) => c.update(k, Connection {
            peerid: c[k].peerid,
            kind: match c[k].kind {
                Some(x) => Some(x),
                None => Some(kind),
            },
        }),
        None => c,
    }
}

impl ConnectionsHandler {
    pub fn new() -> (h: ConnectionsHandler)
        ensures
            h.connections@.len() == 0,
    {
        ConnectionsHandler { connections: Vec::new() }
    }

    fn find(&self, peerid: &String) -> (r: Option<usize>)
        ensures
            r matches Some(k) ==> connection_position(self.connections@, peerid@, 0) == Some(k as int),
            r is None ==> connection_position(self.connections@, peerid@, 0) is None,
    {
        let mut i: usize = 0;
        while i < self.connections.len()
            invariant
                i <= self.connections@.len(),
                connection_position(self.connections@, peerid@, 0) == connection_position(self.connections@, peerid@, i as int),
            decreases self.connections.len() - i,
        {
            if self.connections[i].peerid == *peerid {
                return Some(i);
            }
            i = i + 1;
        }
        None
    }

    /// A new connection with `peerid`, of a kind not known yet.
    pub fn push_new_connection(&mut self, peerid: String)
        ensures
            final(self).connections@.len() == old(self).connections@.len() + 1,
            final(self).connections@.take(old(self).connections@.len() as int) == old(self).connections@,
            final(self).connections@.last().peerid == peerid,
            final(self).connections@.last().kind is None,
    {
        let c = Connection::new(peerid, None);
        self.connections.push(c);
        assert(self.connections@.take(old(self).connections@.len() as int) =~= old(self).connections@);
    }

    /// Records the kind of the first connection with `peerid`, unless known already; a
    /// peer the relay has no connection with is passed over.
    pub fn update_connection(&mut self, peerid: String, kind: Kind)
        ensures
            final(self).connections@ == with_kind(old(self).connections@, peerid@, kind),
    {
        match self.find(&peerid) {
            Some(i) => {
                proof { lemma_connection_position(self.connections@, peerid@, 0); }
                let mut c = self.connections.remove(i);
                c.update(kind);
                self.connections.insert(i, c);
                assert(self.connections@ =~= old(self).connections@.update(i as int, c));
            },
            None => {},
        }
    }

    /// The kind of the first connection with `peerid`.
    pub fn kind_of(&self, peerid: &String) -> (k: Kind)
        requires
            connection_position(self.connections@, peerid@, 0) matches Some(i) && self.connections@[i].kind is Some,
        ensures
            connection_position(self.connections@, peerid@, 0) matches Some(i) && self.connections@[i].kind == Some(k),
    {
        proof { lemma_connection_position(self.connections@, peerid@, 0); }
        let i = self.find(peerid).unwrap();
        self.connections[i].kind.unwrap()
    }

    /// Drops the first connection with `peerid`, once the ledger no longer has it.
    pub fn drop_connection(&mut self, peerid: &String)
        requires
            connection_position(old(self).connections@, peerid@, 0) is Some,
        ensures
            final(self).connections@ == old(self).connections@.remove(connection_position(old(self).connections@, peerid@, 0).unwrap()),
    {
        proof { lemma_connection_position(self.connections@, peerid@, 0); }
        let i = self.find(peerid).unwrap();
        self.connections.remove(i);
    }

    /// No connection left is with a relay (none at all included): the relay must dial
    /// again. Every connection's kind must be known.
    pub fn no_relay_left(&self) -> (r: bool)
        requires
            forall|i: int| 0 <= i < self.connections@.len() ==> (#[trigger] self.connections@[i]).kind is Some,
        ensures
            r == (relay_count(self.connections@) == 0),
    {
        let mut count: usize = 0;
        let mut i: usize = 0;
        while i < self.connections.len()
            invariant
                i <= self.connections@.len(),
                count == relay_count(self.connections@.take(i as int)),
                count <= i,
            decreases self.connections.len() - i,
        {
            assert(self.connections@.take(i + 1).drop_last() =~= self.connections@.take(i as int));
            match self.connections[i].kind {
                Some(Kind::Relay) => {
                    count = count + 1;
                },
                _ => {},
            }
            i = i + 1;
        }
        assert(self.connections@.take(self.connections@.len() as int) =~= self.connections@);
        count == 0
    }
}

/// Whether this relay is the first of the network.
#[derive(Clone, Copy, Debug, PartialEq, Eq, Structural)]
pub enum First {
    Yes,
    No,
}

impl First {
    pub fn is(&self) -> (r: bool)
        ensures
            r == (*self == First::Yes),
    {
        match self {
            First::Yes => true,
            First::No => false,
        }
    }
}

/// A relay of the network: its peer id once connected, its wallet and its address.
#[derive(Clone, Debug)]
pub struct Relay {
    pub peerid: Option<String>,
    pub wallet: String,
    pub addr: String,
}

pub struct RelayView {
    pub peerid: Option<Seq<char>>,
    pub wallet: Seq<char>,
    pub addr: Seq<char>,
}

impl View for Relay {
    type V = RelayView;

    open spec fn view(&self) -> RelayView {
        RelayView {
            peerid: match self.peerid {
                Some(p) => Some(p@),
                None => None,
            },
            wallet: self.wallet@,
            addr: self.addr@,
        }
    }
}

pub open spec fn relay_views(v: Seq<Relay>) -> Seq<RelayView> {
    v.map_values(|r: Relay| r@)
}

impl Relay {
    pub fn new(peerid: Option<String>, wallet: String, addr: String) -> (r: Relay)
        ensures
            r.peerid == peerid,
            r.wallet == wallet,
            r.addr == addr,
    {
        Relay { peerid, wallet, addr }
    }

    /// A copy of this relay.
    pub fn duplicate(&self) -> (r: Relay)
        ensures
            r@ == self@,
    {
        let peerid = match &self.peerid {
            Some(p) => Some(p.clone()),
            None => None,
        };
        Relay { peerid, wallet: self.wallet.clone(), addr: self.addr.clone() }
    }

    /// Records the relay's peer id once it connects (a known one stays), or else adds
    /// to its wallet text.
    pub fn apply_update(&mut self, peerid: Option<String>, wallet: Option<String>)
        requires
            peerid is Some || wallet is Some,
        ensures
            final(self).addr == old(self).addr,
            peerid is Some ==> final(self)@ == (RelayView {
                peerid: match old(self)@.peerid {
                    Some(p) => Some(p),
                    None => Some(peerid.unwrap()@),
                },
                ..old(self)@
            }),
            peerid is None ==> final(self)@ == (RelayView { wallet: old(self)@.wallet + wallet.unwrap()@, ..old(self)@ }),
    {
        match peerid {
            Some(p) => {
                if self.peerid.is_none() {
                    self.peerid = Some(p);
                }
            },
            None => {
                let w = wallet.unwrap();
                let mut v = crate::text::chars_of(self.wallet.as_str());
                let extra = crate::text::chars_of(w.as_str());
                let mut i: usize = 0;
                let ghost start = v@;
                while i < extra.len()
                    invariant
                        i <= extra@.len(),
                        v@ == start + extra@.take(i as int),
                    decreases extra.len() - i,
                {
                    v.push(extra[i]);
                    i = i + 1;
                    assert(v@ =~= start + extra@.take(i as int));
                }
                assert(extra@.take(extra@.len() as int) =~= extra@);
                self.wallet = crate::text::string_from_chars(&v);
            },
        }
    }
}

/// The relays this relay dialed, and whether it is the first of the network.
pub struct DialedRelays {
    pub first: First,
    pub relays: Vec<Relay>,
}

/// The first relay, from index `i` on, equal to `r`.
pub open spec fn relay_position(v: Seq<RelayView>, r: RelayView, i: int) -> Option<int>
    decreases v.len() - i,
{
    if i < 0 || i >= v.len() {
        None
    } else if v[i] == r {
        Some(i)
    } else {
        relay_position(v, r, i + 1)
    }
}

/// The first relay, from index `i` on, whose address has `p` in it.
pub open spec fn relay_with_peer(v: Seq<RelayView>, p: Seq<char>, i: int) -> Option<int>
    decreases v.len() - i,
{
    if i < 0 || i >= v.len() {
        None
    } else if has_substring(v[i].addr, p) {
        Some(i)
    } else {
        relay_with_peer(v, p, i + 1)
    }
}

proof fn lemma_relay_position(v: Seq<RelayView>, r: RelayView, i: int)
    requires
        0 <= i,
    ensures
        relay_position(v, r, i) matches Some(k) ==> i <= k < v.len() && v[k] == r,
    decreases v.len() - i,
{
    if i < v.len() && v[i] != r {
        lemma_relay_position(v, r, i + 1);
    }
}

fn same_relay(a: &Relay, b: &Relay) -> (r: bool)
    ensures
        r == (a@ == b@),
{
    let same_peer = match (&a.peerid, &b.peerid) {
        (Some(x), Some(y)) => *x == *y,
        (None, None) => true,
        _ => false,
    };
    same_peer && a.wallet == b.wallet && a.addr == b.addr
}

impl DialedRelays {
    pub fn new(first: First, relays: Vec<Relay>) -> (d: DialedRelays)
        ensures
            d.first == first,
            d.relays == relays,
    {
        DialedRelays { first, relays }
    }

    pub fn is_first(&self) -> (r: bool)
        ensures
            r == (self.first == First::Yes),
    {
        self.first.is()
    }

    /// The first dialed relay whose address has the peer id `peer` in it: the relay
    /// that a new connection with `peer` was dialed to.
    pub fn dialed_with(&self, peer: &String) -> (r: Option<usize>)
        ensures
            r matches Some(k) ==> relay_with_peer(relay_views(self.relays@), peer@, 0) == Some(k as int),
            r is None ==> relay_with_peer(relay_views(self.relays@), peer@, 0) is None,
    {
        let ghost v = relay_views(self.relays@);
        let mut i: usize = 0;
        while i < self.relays.len()
            invariant
                i <= self.relays@.len(),
                v == relay_views(self.relays@),
                relay_with_peer(v, peer@, 0) == relay_with_peer(v, peer@, i as int),
            decreases self.relays.len() - i,
        {
            if contains_text(&self.relays[i].addr, peer) {
                return Some(i);
            }
            i = i + 1;
        }
        None
    }

    /// Takes the dialed relay equal to `relay` (the first such) off the list, once the
    /// ledger no longer has it.
    pub fn remove_relay(&mut self, relay: &Relay)
        requires
            relay_position(relay_views(old(self).relays@), relay@, 0) is Some,
        ensures
            final(self).first == old(self).first,
            relay_views(final(self).relays@) == relay_views(old(self).relays@).remove(
                relay_position(relay_views(old(self).relays@), relay@, 0).unwrap()),
    {
        let ghost v = relay_views(self.relays@);
        proof { lemma_relay_position(v, relay@, 0); }
        let mut i: usize = 0;
        while i < self.relays.len()
            invariant
                i <= self.relays@.len(),
                v == relay_views(self.relays@),
                relay_position(v, relay@, 0) == relay_position(v, relay@, i as int),
                relay_position(v, relay@, 0) is Some,
                self.first == old(self).first,
                v == relay_views(old(self).relays@),
            decreases self.relays.len() - i,
        {
            if same_relay(&self.relays[i], relay) {
                self.relays.remove(i);
                assert(relay_views(self.relays@) =~= v.remove(i as int));
                return;
            }
            i = i + 1;
        }
        proof { lemma_relay_position(v, relay@, i as int); }
    }
}

/// A uniformly random index below `n` (`IteratorRandom::choose` on `0..n` with the
/// thread's random generator). Claims only that the index is below `n`.
#[verifier::external_body]
fn random_index(n: usize) -> (i: usize)
    requires
        n > 0,
    ensures
        i < n,
{
    (0..n).choose(&mut rand::thread_rng()).unwrap()
}

/// The IP of one of the relays with addresses `addrs`, picked at random.
pub fn random_relay_ip(addrs: &Vec<String>) -> (ip: String)
    requires
        addrs@.len() > 0,
    ensures
        exists|i: int| 0 <= i < addrs@.len() && ip@ == ip_of(#[trigger] addrs@[i]@),
{
    let i = random_index(addrs.len());
    ip_of_address(&addrs[i])
}

/// Some relay of `v` equals `r`.
pub open spec fn holds_relay(v: Seq<RelayView>, r: RelayView) -> bool {
    exists|i: int| 0 <= i < v.len() && v[i] == r
}

fn holds_relay_exec(v: &Vec<Relay>, r: &Relay) -> (b: bool)
    ensures
        b == holds_relay(relay_views(v@), r@),
{
    let mut i: usize = 0;
    while i < v.len()
        invariant
            i <= v@.len(),
            forall|j: int| 0 <= j < i ==> v@[j]@ != r@,
        decreases v.len() - i,
    {
        if same_relay(&v[i], r) {
            assert(relay_views(v@)[i as int] == r@);
            return true;
        }
        i = i + 1;
    }
    false
}

/// The relays to dial: all of them when there are at most six; otherwise six
/// different ones picked at random (fewer when fewer different relays are listed).
pub fn choose_relays(relays: &Vec<Relay>) -> (chosen: Vec<Relay>)
    ensures
        relays@.len() <= 6 ==> relay_views(chosen@) == relay_views(relays@),
        relays@.len() > 6 ==> {
            &&& chosen@.len() <= 6
            &&& forall|i: int| 0 <= i < chosen@.len() ==> holds_relay(relay_views(relays@), #[trigger] chosen@[i]@)
            &&& forall|i: int, j: int| 0 <= i < chosen@.len() && 0 <= j < chosen@.len() && i != j ==> chosen@[i]@ != chosen@[j]@
            &&& (chosen@.len() < 6 ==> forall|i: int| 0 <= i < relays@.len() ==> holds_relay(relay_views(chosen@), #[trigger] relays@[i]@))
        },
{
    let mut chosen: Vec<Relay> = Vec::new();
    if relays.len() <= 6 {
        let mut i: usize = 0;
        while i < relays.len()
            invariant
                i <= relays@.len(),
                chosen@.len() == i,
                forall|j: int| 0 <= j < i ==> (#[trigger] chosen@[j])@ == relays@[j]@,
            decreases relays.len() - i,
        {
            chosen.push(relays[i].duplicate());
            i = i + 1;
        }
        assert(relay_views(chosen@) =~= relay_views(relays@));
        return chosen;
    }
    let mut done = false;
    while chosen.len() < 6 && !done
        invariant
            relays@.len() > 6,
            chosen@.len() <= 6,
            forall|i: int| 0 <= i < chosen@.len() ==> holds_relay(relay_views(relays@), #[trigger] chosen@[i]@),
            forall|i: int, j: int| 0 <= i < chosen@.len() && 0 <= j < chosen@.len() && i != j ==> chosen@[i]@ != chosen@[j]@,
            done ==> forall|i: int| 0 <= i < relays@.len() ==> holds_relay(relay_views(chosen@), #[trigger] relays@[i]@),
        decreases 6 - chosen@.len() + (if done { 0int } else { 1int }),
    {
        // the positions of relays not chosen yet
        let mut candidates: Vec<usize> = Vec::new();
        let mut i: usize = 0;
        while i < relays.len()
            invariant
                i <= relays@.len(),
                forall|k: int| 0 <= k < candidates@.len() ==> (#[trigger] candidates@[k]) < relays@.len()
                    && !holds_relay(relay_views(chosen@), relays@[candidates@[k] as int]@),
                forall|j: int| 0 <= j < i && !holds_relay(relay_views(chosen@), (#[trigger] relays@[j])@) ==>
                    candidates@.contains(j as usize),
            decreases relays.len() - i,
        {
            let ghost old_c = candidates@;
            if !holds_relay_exec(&chosen, &relays[i]) {
                candidates.push(i);
            }
            proof {
                assert forall|j: int| 0 <= j < i + 1 && !holds_relay(relay_views(chosen@), (#[trigger] relays@[j])@)
                    implies candidates@.contains(j as usize) by {
                    if j < i {
                        assert(old_c.contains(j as usize));
                        let k = choose|k: int| 0 <= k < old_c.len() && old_c[k] == j as usize;
                        assert(candidates@[k] == j as usize);
                    } else {
                        assert(candidates@[candidates@.len() - 1] == i);
                    }
                }
            }
            i = i + 1;
        }
        if candidates.len() == 0 {
            done = true;
            assert forall|j: int| 0 <= j < relays@.len() implies holds_relay(relay_views(chosen@), #[trigger] relays@[j]@) by {
                if !holds_relay(relay_views(chosen@), relays@[j]@) {
                    assert(candidates@.contains(j as usize));
                }
            }
        } else {
            let pick = candidates[random_index(candidates.len())];
            let r = relays[pick].duplicate();
            proof {
                assert(relay_views(relays@)[pick as int] == r@);
                assert forall|i: int| 0 <= i < chosen@.len() implies chosen@[i]@ != r@ by {
                    assert(relay_views(chosen@)[i] == chosen@[i]@);
                }
            }
            chosen.push(r);
        }
    }
    chosen
}

/// Whether the relay is in sync with the network.
#[derive(Clone, Copy, Debug, PartialEq, Eq, Structural)]
pub enum SyncState {
    Synced,
    NotSynced,
}

/// What the relay does when a connection is established with a relay it dialed: record
/// the relay's peer id, and sync with the network first when it is not in sync.
#[derive(Clone, Copy, Debug, PartialEq, Eq, Structural)]
pub struct DialedConnection {
    /// The position of the dialed relay.
    pub index: usize,
    /// The relay is not in sync: download the chain, then post the kept listen address.
    pub sync_first: bool,
}

/// The records that go when a connection closes.
#[derive(Clone, Copy, Debug, PartialEq, Eq, Structural)]
pub enum ClosedRecords {
    /// A relay: its relay record and the validators connected through it.
    RelayAndItsValidators,
    /// A validator: its validator record.
    Validator,
}

/// The validator-facing relay's state between network events: whether it is in sync,
/// the listen address kept for after syncing, its connections and the relays it dialed.
pub struct State {
    pub sync: SyncState,
    pub multiaddress: String,
    pub connections: ConnectionsHandler,
    pub dialed_relays: DialedRelays,
}

impl State {
    /// A relay that dialed `dialed_relays` and is not in sync yet.
    pub fn new(dialed_relays: DialedRelays) -> (s: State)
        ensures
            s.sync == SyncState::NotSynced,
            s.multiaddress@.len() == 0,
            s.connections.connections@.len() == 0,
            s.dialed_relays == dialed_relays,
    {
        State { sync: SyncState::NotSynced, multiaddress: String::new(), connections: ConnectionsHandler::new(), dialed_relays }
    }

    /// A new listen address: the first relay of the network posts it now (the answer);
    /// any other keeps it, to post once it is in sync.
    pub fn on_listen_address(&mut self, address: &String) -> (post_now: bool)
        ensures
            post_now == (old(self).dialed_relays.first == First::Yes),
            post_now ==> final(self).multiaddress == old(self).multiaddress,
            !post_now ==> final(self).multiaddress@ == old(self).multiaddress@ + address@,
            final(self).sync == old(self).sync,
            final(self).connections == old(self).connections,
            final(self).dialed_relays == old(self).dialed_relays,
    {
        if self.dialed_relays.is_first() {
            true
        } else {
            self.multiaddress = crate::text::concat(self.multiaddress.as_str(), address.as_str());
            false
        }
    }

    /// The relay synced with the network (or, first of the network, posted its address).
    pub fn on_synced(&mut self)
        ensures
            final(self).sync == SyncState::Synced,
            final(self).multiaddress == old(self).multiaddress,
            final(self).connections == old(self).connections,
            final(self).dialed_relays == old(self).dialed_relays,
    {
        self.sync = SyncState::Synced;
    }

    /// A connection was established with `peer`. With a relay it dialed (the first whose
    /// address names `peer`), the answer says which one and whether to sync first;
    /// otherwise the connection is recorded, of a kind not known yet.
    pub fn on_connection_established(&mut self, peer: String) -> (r: Option<DialedConnection>)
        ensures
            final(self).sync == old(self).sync,
            final(self).multiaddress == old(self).multiaddress,
            final(self).dialed_relays == old(self).dialed_relays,
            match relay_with_peer(relay_views(old(self).dialed_relays.relays@), peer@, 0) {
                Some(k) => {
                    &&& r == Some(DialedConnection { index: k as usize, sync_first: old(self).sync == SyncState::NotSynced })
                    &&& final(self).connections == old(self).connections
                },
                None => {
                    &&& r is None
                    &&& final(self).connections.connections@ == old(self).connections.connections@.push(Connection { peerid: peer, kind: None })
                },
            },
    {
        match self.dialed_relays.dialed_with(&peer) {
            Some(k) => Some(DialedConnection { index: k, sync_first: self.sync == SyncState::NotSynced }),
            None => {
                self.connections.push_new_connection(peer);
                assert(self.connections.connections@ =~= old(self).connections.connections@.push(self.connections.connections@.last()));
                None
            },
        }
    }

    /// A dialed relay that could not be reached was forgotten: it leaves the dialed
    /// relays, and with none left the relay dials again (the answer).
    pub fn on_dialed_relay_removed(&mut self, relay: &Relay) -> (dial_again: bool)
        requires
            relay_position(relay_views(old(self).dialed_relays.relays@), relay@, 0) is Some,
        ensures
            relay_views(final(self).dialed_relays.relays@) == relay_views(old(self).dialed_relays.relays@).remove(
                relay_position(relay_views(old(self).dialed_relays.relays@), relay@, 0).unwrap()),
            final(self).dialed_relays.first == old(self).dialed_relays.first,
            dial_again == (final(self).dialed_relays.relays@.len() == 0),
            final(self).sync == old(self).sync,
            final(self).multiaddress == old(self).multiaddress,
            final(self).connections == old(self).connections,
    {
        self.dialed_relays.remove_relay(relay);
        self.dialed_relays.relays.len() == 0
    }

    /// Which records go when the connection with `peer` closes, by what the peer is.
    pub fn closed_records(&self, peer: &String) -> (r: ClosedRecords)
        requires
            connection_position(self.connections.connections@, peer@, 0) matches Some(i)
                && self.connections.connections@[i].kind is Some,
        ensures
            connection_position(self.connections.connections@, peer@, 0) matches Some(i)
                && r == if self.connections.connections@[i].kind == Some(Kind::Relay) {
                    ClosedRecords::RelayAndItsValidators
                } else {
                    ClosedRecords::Validator
                },
    {
        match self.connections.kind_of(peer) {
            Kind::Relay => ClosedRecords::RelayAndItsValidators,
            Kind::Validator => ClosedRecords::Validator,
        }
    }

    /// A connection closed and its records are gone: it leaves the connections, and when
    /// no remaining connection is with a relay the relay dials again (the answer).
    pub fn on_connection_closed(&mut self, peer: &String) -> (dial_again: bool)
        requires
            connection_position(old(self).connections.connections@, peer@, 0) is Some,
            forall|i: int| 0 <= i < old(self).connections.connections@.len() ==> (#[trigger] old(self).connections.connections@[i]).kind is Some,
        ensures
            final(self).connections.connections@ == old(self).connections.connections@.remove(
                connection_position(old(self).connections.connections@, peer@, 0).unwrap()),
            dial_again == (relay_count(final(self).connections.connections@) == 0),
            final(self).sync == old(self).sync,
            final(self).multiaddress == old(self).multiaddress,
            final(self).dialed_relays == old(self).dialed_relays,
    {
        proof { lemma_connection_position(self.connections.connections@, peer@, 0); }
        self.connections.drop_connection(peer);
        assert forall|i: int| 0 <= i < self.connections.connections@.len() implies (#[trigger] self.connections.connections@[i]).kind is Some by {
            let p = connection_position(old(self).connections.connections@, peer@, 0).unwrap();
            if i >= p {
                assert(self.connections.connections@[i] == old(self).connections.connections@[i + 1]);
            } else {
                assert(self.connections.connections@[i] == old(self).connections.connections@[i]);
            }
        }
        self.connections.no_relay_left()
    }

    /// Requests are answered only in sync.
    pub fn answers_requests(&self) -> (r: bool)
        ensures
            r == (self.sync == SyncState::Synced),
    {
        self.sync == SyncState::Synced
    }

    /// `peer` subscribed to `topic`: to "relay" it is a relay, to "validator" a validator
    /// (see `with_kind`); other topics change nothing.
    pub fn on_subscribed(&mut self, topic: &String, peer: String)
        ensures
            final(self).connections.connections@ == if topic@ == "relay"@ {
                with_kind(old(self).connections.connections@, peer@, Kind::Relay)
            } else if topic@ == "validator"@ {
                with_kind(old(self).connections.connections@, peer@, Kind::Validator)
            } else {
                old(self).connections.connections@
            },
            final(self).sync == old(self).sync,
            final(self).multiaddress == old(self).multiaddress,
            final(self).dialed_relays == old(self).dialed_relays,
    {
        let relay_topic = String::from_str("relay");
        let validator_topic = String::from_str("validator");
        proof {
            reveal_strlit("relay");
            reveal_strlit("validator");
        }
        if *topic == relay_topic {
            self.connections.update_connection(peer, Kind::Relay);
        } else if *topic == validator_topic {
            self.connections.update_connection(peer, Kind::Validator);
        }
    }
}

/// The answer to a validator's handshake: this relay's wallet and whether the validator
/// is the first of the network.
#[derive(Clone, Copy, Debug, PartialEq, Eq, Structural)]
pub enum FirstChecker {
    Yes,
    No,
}

#[derive(Clone, Debug)]
pub struct HandshakeResponse {
    pub wallet: String,
    pub first_node: FirstChecker,
}

impl HandshakeResponse {
    pub fn new(wallet: String) -> (r: HandshakeResponse)
        ensures
            r.wallet == wallet,
            r.first_node == FirstChecker::No,
    {
        HandshakeResponse { wallet, first_node: FirstChecker::No }
    }

    pub fn set_is_first(&mut self)
        ensures
            final(self).wallet == old(self).wallet,
            final(self).first_node == FirstChecker::Yes,
    {
        self.first_node = FirstChecker::Yes;
    }
}

pub struct Requests;

impl Requests {
    /// The handshake answer: the validator is the first of the network exactly when the
    /// chain has no blocks and there are no validators.
    pub fn handshake_response(wallet: String, blocks_count: u64, validators_count: u64) -> (r: HandshakeResponse)
        ensures
            r.wallet == wallet,
            r.first_node == if blocks_count == 0 && validators_count == 0 { FirstChecker::Yes } else { FirstChecker::No },
    {
        let mut response = HandshakeResponse::new(wallet);
        if blocks_count == 0 && validators_count == 0 {
            response.set_is_first();
        }
        response
    }
}

/// This relay's address as posted to the address server.
#[derive(Clone, Debug)]
pub struct MyAddress {
    pub addr: String,
}

impl MyAddress {
    pub fn new(addr: String) -> (a: MyAddress)
        ensures
            a.addr == addr,
    {
        MyAddress { addr }
    }
}

} // verus!
