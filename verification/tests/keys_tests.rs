use centichain::crypto::{phrase_public, wallet_of_answer, wants_new_keys};
use sp_core::crypto::{Ss58AddressFormatRegistry, Ss58Codec};
use sp_core::{ecdsa, Pair};

const PHRASE: &str = "bottom drive obey lake curtain smoke basket hold race lonely fit walk";

fn expected_wallet() -> String {
    let (pair, _) = ecdsa::Pair::from_phrase(PHRASE, None).unwrap();
    pair.public().to_ss58check_with_version(Ss58AddressFormatRegistry::SubstrateAccount.into())
}

#[test]
fn n_asks_for_new_keys() {
    assert!(wants_new_keys(&"n".to_string()));
    assert!(wants_new_keys(&"N".to_string()));
    assert!(!wants_new_keys(&"no".to_string()));
}

#[test]
fn on_n_the_generated_key_is_the_wallet() {
    assert_eq!(wallet_of_answer(&"n".to_string(), &"GEN".to_string()), "GEN");
    assert_eq!(wallet_of_answer(&"N".to_string(), &"GEN".to_string()), "GEN");
}

#[test]
fn a_phrase_gives_its_public_key() {
    assert_eq!(phrase_public(&PHRASE.to_string()), Some(expected_wallet()));
    assert_eq!(wallet_of_answer(&PHRASE.to_string(), &"GEN".to_string()), expected_wallet());
}

#[test]
fn a_wrong_phrase_gives_emptey() {
    assert_eq!(phrase_public(&"not a phrase".to_string()), None);
    assert_eq!(wallet_of_answer(&"not a phrase".to_string(), &"GEN".to_string()), "emptey");
}
