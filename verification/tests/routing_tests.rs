use centichain::routing::{blockchain_url, channel_index, route_response};

fn s(v: &[&str]) -> Vec<String> {
    v.iter().map(|x| x.to_string()).collect()
}

#[test]
fn a_response_for_this_node_goes_back_to_a_subscribed_peer() {
    let mut peers = s(&["client", "relay1", "me"]);
    let send = route_response(&mut peers, &"me".to_string(), &s(&["x"]), &s(&["relay1"]));
    assert!(send);
    assert_eq!(peers, s(&["client", "relay1"]));
}

#[test]
fn a_response_to_an_unsubscribed_peer_is_dropped() {
    let mut peers = s(&["client", "gone", "me"]);
    let send = route_response(&mut peers, &"me".to_string(), &s(&["client"]), &s(&[]));
    assert!(!send);
    assert_eq!(peers, s(&["client", "gone"]));
}

#[test]
fn a_response_for_another_peer_goes_on_unchanged() {
    let mut peers = s(&["client", "relay1"]);
    assert!(route_response(&mut peers, &"me".to_string(), &s(&[]), &s(&[])));
    assert_eq!(peers, s(&["client", "relay1"]));
}

#[test]
fn channel_index_is_the_first_match() {
    assert_eq!(channel_index(&s(&["a", "b", "b"]), &"b".to_string()), 1);
}

#[test]
fn blockchain_url_points_at_the_archive() {
    assert_eq!(blockchain_url(&"1.2.3.4".to_string()), "http://1.2.3.4:33369/blockchain/blockchain.zip");
}
