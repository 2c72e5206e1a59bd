use centichain::practical::ClosedRecords;
use centichain::messages::{Address, Addresses, Handshake};
use centichain::practical::{
    choose_relays, random_relay_ip, Connection, ConnectionsHandler, DialedRelays, First, FirstChecker,
    HandshakeResponse, Kind, MyAddress, Relay, Requests, State, SyncState, DialedConnection,
};

fn relay(addr: &str) -> Relay {
    Relay::new(None, String::new(), addr.to_string())
}

#[test]
fn a_connection_kind_is_recorded_once() {
    let mut c = Connection::new("p".to_string(), None);
    c.update(Kind::Validator);
    c.update(Kind::Relay);
    assert_eq!(c.kind, Some(Kind::Validator));
    assert_eq!(c.peerid, "p");
}

#[test]
fn connections_are_tracked_by_peer() {
    let mut h = ConnectionsHandler::new();
    h.push_new_connection("a".to_string());
    h.push_new_connection("b".to_string());
    h.update_connection("b".to_string(), Kind::Relay);
    h.update_connection("zz".to_string(), Kind::Relay);
    h.update_connection("a".to_string(), Kind::Validator);
    assert_eq!(h.kind_of(&"b".to_string()), Kind::Relay);
    assert_eq!(h.kind_of(&"a".to_string()), Kind::Validator);
    assert!(!h.no_relay_left());
    h.drop_connection(&"b".to_string());
    assert_eq!(h.connections.len(), 1);
    assert!(h.no_relay_left());
}

#[test]
fn no_connections_means_dial_again() {
    let h = ConnectionsHandler::new();
    assert!(h.no_relay_left());
}

#[test]
fn first_is_yes_only() {
    assert!(First::Yes.is());
    assert!(!First::No.is());
}

#[test]
fn relay_updates_set_the_peer_once_or_extend_the_wallet() {
    let mut r = relay("/ip4/1.1.1.1/tcp/1/p2p/P");
    r.apply_update(Some("P".to_string()), None);
    r.apply_update(Some("Q".to_string()), None);
    assert_eq!(r.peerid, Some("P".to_string()));
    r.apply_update(None, Some("w1".to_string()));
    r.apply_update(None, Some("w2".to_string()));
    assert_eq!(r.wallet, "w1w2");
    assert_eq!(r.addr, "/ip4/1.1.1.1/tcp/1/p2p/P");
    let d = r.duplicate();
    assert_eq!(d.wallet, r.wallet);
}

#[test]
fn dialed_relays_find_and_forget_relays() {
    let mut d = DialedRelays::new(First::No, vec![relay("x/p2p/A"), relay("y/p2p/B"), relay("z/p2p/B")]);
    assert!(!d.is_first());
    assert_eq!(d.dialed_with(&"B".to_string()), Some(1));
    assert_eq!(d.dialed_with(&"C".to_string()), None);
    d.remove_relay(&relay("y/p2p/B"));
    let addrs: Vec<String> = d.relays.iter().map(|r| r.addr.clone()).collect();
    assert_eq!(addrs, vec!["x/p2p/A", "z/p2p/B"]);
}

#[test]
fn few_relays_are_all_dialed() {
    let rs: Vec<Relay> = (0..5).map(|i| relay(&format!("r{}", i))).collect();
    let chosen = choose_relays(&rs);
    let addrs: Vec<String> = chosen.iter().map(|r| r.addr.clone()).collect();
    assert_eq!(addrs, vec!["r0", "r1", "r2", "r3", "r4"]);
}

#[test]
fn many_relays_give_six_different_ones() {
    let rs: Vec<Relay> = (0..12).map(|i| relay(&format!("r{}", i))).collect();
    let chosen = choose_relays(&rs);
    assert_eq!(chosen.len(), 6);
    for (i, a) in chosen.iter().enumerate() {
        assert!(rs.iter().any(|r| r.addr == a.addr));
        for b in chosen.iter().skip(i + 1) {
            assert_ne!(a.addr, b.addr);
        }
    }
}

#[test]
fn listings_with_repeated_relays_give_each_once() {
    let rs: Vec<Relay> = (0..9).map(|i| relay(&format!("r{}", i % 3))).collect();
    let chosen = choose_relays(&rs);
    let mut addrs: Vec<String> = chosen.iter().map(|r| r.addr.clone()).collect();
    addrs.sort();
    assert_eq!(addrs, vec!["r0", "r1", "r2"]);
}

#[test]
fn a_random_relay_ip_is_one_of_theirs() {
    let addrs = vec!["/ip4/1.1.1.1/tcp/1".to_string(), "/ip4/2.2.2.2/tcp/1".to_string()];
    let ip = random_relay_ip(&addrs);
    assert!(ip == "1.1.1.1" || ip == "2.2.2.2");
}

#[test]
fn handshake_says_first_only_on_an_empty_network() {
    let r = Requests::handshake_response("w".to_string(), 0, 0);
    assert_eq!(r.first_node, FirstChecker::Yes);
    assert_eq!(r.wallet, "w");
    assert_eq!(Requests::handshake_response("w".to_string(), 1, 0).first_node, FirstChecker::No);
    assert_eq!(Requests::handshake_response("w".to_string(), 0, 3).first_node, FirstChecker::No);
    let mut h = HandshakeResponse::new("v".to_string());
    assert_eq!(h.first_node, FirstChecker::No);
    h.set_is_first();
    assert_eq!(h.first_node, FirstChecker::Yes);
    assert_eq!(Handshake::answer("w".to_string(), 0, 0).first_node, "yes");
    assert_eq!(Handshake::answer("w".to_string(), 2, 0).first_node, "no");
}

#[test]
fn my_address_keeps_its_text() {
    assert_eq!(MyAddress::new("/ip4/1.1.1.1".to_string()).addr, "/ip4/1.1.1.1");
}

#[test]
fn a_successful_listing_gives_relays_at_its_addresses() {
    let l = Addresses { status: "success".to_string(), data: vec![Address { addr: "a1".to_string() }, Address { addr: "a2".to_string() }] };
    let rs = l.relays().unwrap();
    assert_eq!(rs.len(), 2);
    assert_eq!(rs[1].addr, "a2");
    assert_eq!(rs[0].peerid, None);
    let empty = Addresses { status: "success".to_string(), data: Vec::new() };
    assert!(empty.relays().is_none());
    let failed = Addresses { status: "error".to_string(), data: vec![Address { addr: "a".to_string() }] };
    assert!(failed.relays().is_none());
}

#[test]
fn a_first_relay_posts_its_listen_address_at_once() {
    let mut st = State::new(DialedRelays::new(First::Yes, Vec::new()));
    assert!(st.on_listen_address(&"/ip4/1.1.1.1/tcp/1".to_string()));
    assert_eq!(st.multiaddress, "");
    assert!(!st.answers_requests());
    st.on_synced();
    assert!(st.answers_requests());
}

#[test]
fn another_relay_keeps_its_address_until_synced() {
    let mut st = State::new(DialedRelays::new(First::No, vec![relay("/ip4/2.2.2.2/tcp/1/p2p/R")]));
    assert!(!st.on_listen_address(&"/ip4/1.1.1.1/tcp/1".to_string()));
    assert_eq!(st.multiaddress, "/ip4/1.1.1.1/tcp/1");
    assert_eq!(st.sync, SyncState::NotSynced);
}

#[test]
fn connecting_to_a_dialed_relay_asks_to_sync_once() {
    let mut st = State::new(DialedRelays::new(First::No, vec![relay("/ip4/2.2.2.2/tcp/1/p2p/R")]));
    assert_eq!(st.on_connection_established("R".to_string()), Some(DialedConnection { index: 0, sync_first: true }));
    st.on_synced();
    assert_eq!(st.on_connection_established("R".to_string()), Some(DialedConnection { index: 0, sync_first: false }));
    assert_eq!(st.on_connection_established("V".to_string()), None);
    assert_eq!(st.connections.connections.len(), 1);
}

#[test]
fn losing_every_dialed_relay_means_dialing_again() {
    let mut st = State::new(DialedRelays::new(First::No, vec![relay("a/p2p/A"), relay("b/p2p/B")]));
    assert!(!st.on_dialed_relay_removed(&relay("a/p2p/A")));
    assert!(st.on_dialed_relay_removed(&relay("b/p2p/B")));
}

#[test]
fn the_last_relay_connection_closing_means_dialing_again() {
    let mut st = State::new(DialedRelays::new(First::No, Vec::new()));
    st.on_connection_established("r".to_string());
    st.on_connection_established("v".to_string());
    st.on_subscribed(&"relay".to_string(), "r".to_string());
    st.on_subscribed(&"validator".to_string(), "v".to_string());
    st.on_subscribed(&"other".to_string(), "v".to_string());
    assert_eq!(st.connections.kind_of(&"v".to_string()), Kind::Validator);
    assert!(!st.on_connection_closed(&"v".to_string()));
    assert!(st.on_connection_closed(&"r".to_string()));
}

#[test]
fn a_closed_relay_takes_its_validators_with_it() {
    let mut st = State::new(DialedRelays::new(First::No, Vec::new()));
    st.on_connection_established("r".to_string());
    st.on_connection_established("v".to_string());
    st.on_subscribed(&"relay".to_string(), "r".to_string());
    st.on_subscribed(&"validator".to_string(), "v".to_string());
    assert_eq!(st.closed_records(&"r".to_string()), ClosedRecords::RelayAndItsValidators);
    assert_eq!(st.closed_records(&"v".to_string()), ClosedRecords::Validator);
}
