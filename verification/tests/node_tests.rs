use centichain::node::{
    contains_id, first_containing, full_address, remove_first, remove_first_containing, RelayState, SyncEnd,
};

fn s(v: &[&str]) -> Vec<String> {
    v.iter().map(|x| x.to_string()).collect()
}

fn connected(peers: &[&str]) -> RelayState {
    let mut st = RelayState::new(s(&["/ip4/1.1.1.1/tcp/1/p2p/R1", "/ip4/2.2.2.2/tcp/1/p2p/R2"]), false);
    for p in peers {
        st.on_connection_established(p.to_string());
    }
    st
}

#[test]
fn list_helpers_work_on_first_occurrences() {
    let mut v = s(&["a", "b", "a"]);
    assert!(contains_id(&v, &"b".to_string()));
    assert!(remove_first(&mut v, &"a".to_string()));
    assert_eq!(v, s(&["b", "a"]));
    assert!(!remove_first(&mut v, &"z".to_string()));
    let mut w = s(&["x/p2p/A", "y/p2p/B"]);
    assert_eq!(first_containing(&w, &"B".to_string()), "y/p2p/B");
    assert_eq!(first_containing(&w, &"C".to_string()), "");
    remove_first_containing(&mut w, &"A".to_string());
    assert_eq!(w, s(&["y/p2p/B"]));
}

#[test]
fn full_address_appends_the_peer() {
    assert_eq!(full_address(&"/ip4/1.2.3.4/tcp/9".to_string(), &"PID".to_string()), "/ip4/1.2.3.4/tcp/9/p2p/PID");
}

#[test]
fn a_node_in_sync_posts_addresses_and_dumps_for_newcomers() {
    let mut st = connected(&[]);
    assert!(!st.on_listen_address("/ip4/1/p2p/me".to_string()));
    assert!(!st.on_connection_established("p".to_string()));
    st.sync = true;
    assert!(st.on_listen_address("/ip4/2/p2p/me".to_string()));
    assert!(st.on_connection_established("q".to_string()));
    assert_eq!(st.my_addresses.len(), 2);
    assert_eq!(st.connections, s(&["p", "q"]));
}

#[test]
fn losing_every_dialed_address_resets_the_node() {
    let mut st = connected(&["R1"]);
    assert!(!st.on_dial_failed(&"R1".to_string()));
    assert_eq!(st.dialed_addr, s(&["/ip4/2.2.2.2/tcp/1/p2p/R2"]));
    assert!(st.on_dial_failed(&"R2".to_string()));
    assert!(st.connections.is_empty());
    assert!(st.dialed_addr.is_empty());
}

#[test]
fn subscriptions_are_recorded_by_topic() {
    let mut st = connected(&["v1", "r1"]);
    assert!(!st.on_subscribed(&"relay".to_string(), "r1".to_string()));
    st.on_subscribed(&"client".to_string(), "v1".to_string());
    st.on_subscribed(&"client".to_string(), "stranger".to_string());
    assert_eq!(st.relay_topic_subscribers, s(&["r1"]));
    assert_eq!(st.client_topic_subscribers, s(&["v1"]));
    st.clients.push("v1".to_string());
    assert!(st.on_subscribed(&"relay".to_string(), "r1".to_string()));
    assert!(!st.on_subscribed(&"relay".to_string(), "stranger".to_string()));
}

#[test]
fn relays_with_clients_are_held_once() {
    let mut st = connected(&["r1"]);
    st.on_have_client(&"r1".to_string());
    st.on_have_client(&"r1".to_string());
    st.on_have_client(&"unknown".to_string());
    assert_eq!(st.relays, s(&["r1"]));
    st.on_no_clients(&"r1".to_string());
    assert!(st.relays.is_empty());
}

#[test]
fn a_synced_validator_becomes_a_client_once() {
    let mut st = connected(&["v1", "r1"]);
    st.on_subscribed(&"relay".to_string(), "r1".to_string());
    assert!(st.on_validator_synced(&"v1".to_string(), &"v1".to_string()));
    // still exactly one client: the announcement is made again
    assert!(st.on_validator_synced(&"v1".to_string(), &"v1".to_string()));
    assert_eq!(st.clients, s(&["v1"]));
    assert!(!st.on_validator_synced(&"r1".to_string(), &"v2".to_string()));
    assert_eq!(st.clients, s(&["v1"]));
}

#[test]
fn a_leaving_client_is_forgotten() {
    let mut st = connected(&["v1", "r1"]);
    st.on_subscribed(&"relay".to_string(), "r1".to_string());
    st.on_have_client(&"r1".to_string());
    st.on_validator_synced(&"v1".to_string(), &"v1".to_string());
    st.leader = "v1".to_string();
    let left = st.on_peer_left(&"v1".to_string(), 0);
    assert!(!left.was_relay);
    assert!(left.announce_no_clients);
    assert!(st.redial_if_no_relay().is_none());
    assert!(st.clients.is_empty());
    assert_eq!(st.leader, "");
    assert_eq!(st.relays, s(&["r1"]));
}

#[test]
fn when_the_last_relay_leaves_the_node_redials() {
    let mut st = connected(&["R1", "x"]);
    st.on_subscribed(&"relay".to_string(), "R1".to_string());
    st.on_subscribed(&"relay".to_string(), "x".to_string());
    st.on_have_client(&"R1".to_string());
    st.leader = "L".to_string();
    let left = st.on_peer_left(&"R1".to_string(), 3);
    assert!(left.was_relay);
    // the removal alone keeps everything else, the leader included
    assert_eq!(st.connections, s(&["R1", "x"]));
    assert_eq!(st.leader, "L");
    assert_eq!(st.relay_topic_subscribers, s(&["x"]));
    assert_eq!(st.redial_if_no_relay(), Some(s(&["R1", "x"])));
    assert!(st.connections.is_empty());
    assert_eq!(st.leader, "");
}

#[test]
fn the_last_relay_subscriber_leaving_makes_this_relay_first() {
    let mut st = connected(&["R1"]);
    st.on_subscribed(&"relay".to_string(), "R1".to_string());
    st.on_peer_left(&"R1".to_string(), 1);
    assert!(st.im_first);
    assert!(st.redial_if_no_relay().is_none());
}

#[test]
fn syncing_starts_from_the_first_relay_with_clients() {
    let mut st = connected(&["R2", "v"]);
    st.on_subscribed(&"client".to_string(), "v".to_string());
    assert!(st.start_sync().is_none());
    st.on_have_client_while_syncing(&"R2".to_string());
    assert!(st.have_client);
    assert_eq!(st.have_client_pid, "R2");
    assert_eq!(st.start_sync(), Some("/ip4/2.2.2.2/tcp/1/p2p/R2".to_string()));
    assert!(st.in_syncing);
    assert!(st.start_sync().is_none());
}

#[test]
fn finishing_a_sync() {
    let mut st = connected(&["a"]);
    st.on_listen_address("/ip4/9/p2p/me".to_string());
    st.in_syncing = true;
    assert!(matches!(st.finish_sync(false, true), SyncEnd::Retry));
    assert!(!st.in_syncing);
    match st.finish_sync(true, true) {
        SyncEnd::Synced(a) => assert_eq!(a, "/ip4/9/p2p/me"),
        other => panic!("unexpected {:?}", other),
    }
    assert!(st.sync);
    match st.finish_sync(true, false) {
        SyncEnd::Restart(d) => assert_eq!(d, s(&["a"])),
        other => panic!("unexpected {:?}", other),
    }
    assert!(!st.sync);
    assert!(st.connections.is_empty());
}

#[test]
fn leadership_passes_when_both_are_known() {
    let mut st = connected(&[]);
    st.leader = "old".to_string();
    assert!(!st.hand_over_leadership(&"new".to_string(), false));
    assert_eq!(st.leader, "old");
    assert!(st.hand_over_leadership(&"new".to_string(), true));
    assert_eq!(st.leader, "new");
}

#[test]
fn reset_forgets_all_but_being_first() {
    let mut st = RelayState::new(s(&["d"]), true);
    st.on_connection_established("p".to_string());
    st.reset();
    assert!(st.im_first);
    assert!(st.dialed_addr.is_empty() && st.connections.is_empty() && !st.sync);
}

#[test]
fn a_relay_that_left_is_no_longer_held() {
    let mut st = connected(&["R1", "R2", "v"]);
    st.on_have_client(&"R1".to_string());
    st.on_have_client(&"R2".to_string());
    let left = st.on_peer_left(&"R1".to_string(), 2);
    assert!(left.was_relay);
    assert!(st.redial_if_no_relay().is_none());
    assert!(!st.relays.contains(&"R1".to_string()));
    assert_eq!(st.relays, s(&["R2"]));
}

#[test]
fn gossip_and_requests_wait_for_the_sync() {
    let mut st = connected(&["a"]);
    assert!(!st.handles_gossip_now());
    assert!(!st.answers_requests());
    st.sync = true;
    assert!(st.handles_gossip_now());
    assert!(st.answers_requests());
}
