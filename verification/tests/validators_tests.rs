use centichain::validators::joining_waiting;
use centichain::validators::{Validator, Waiting};

fn v(peer: &str, waiting: u64) -> Validator {
    Validator { peerid: peer.to_string(), relay: "r".to_string(), wallet: "w".to_string(), waiting }
}

#[test]
fn the_producer_waits_as_many_blocks_as_there_are_validators() {
    let mut vs = vec![v("a", 0), v("b", 2), v("c", 1)];
    Waiting::update(&mut vs, &"a".to_string());
    let w: Vec<u64> = vs.iter().map(|x| x.waiting).collect();
    assert_eq!(w, vec![3, 1, 0]);
    assert_eq!(vs[1].peerid, "b");
}

#[test]
fn validators_not_waiting_stay_at_zero() {
    let mut vs = vec![v("a", 0), v("b", 0)];
    Waiting::update(&mut vs, &"zz".to_string());
    assert!(vs.iter().all(|x| x.waiting == 0));
}

#[test]
fn after_a_block_no_one_waits_longer_than_the_number_of_validators() {
    let mut vs = vec![v("a", 3), v("b", 2), v("c", 1)];
    Waiting::update(&mut vs, &"b".to_string());
    assert!(vs.iter().all(|x| x.waiting <= 3));
}

#[test]
fn a_new_validator_waits_twice_the_count() {
    assert_eq!(Waiting::for_new_validator(4), 8);
    assert_eq!(Waiting::for_new_validator(0), 0);
}

#[test]
fn a_synced_node_joins_unless_it_left_or_is_known() {
    assert_eq!(joining_waiting(false, false, 3), Some(6));
    assert_eq!(joining_waiting(false, false, 0), Some(0));
    assert_eq!(joining_waiting(true, false, 3), None);
    assert_eq!(joining_waiting(false, true, 3), None);
}
