//! Signature checks (sp-core) and peer ids derived from public keys (libp2p).
use vstd::prelude::*;
use libp2p::identity::{PeerId, PublicKey};
use sp_core::crypto::{Ss58AddressFormatRegistry, Ss58Codec};
use sp_core::{ecdsa, ed25519, Pair};

verus! {

/// Whether an ed25519 signature of `msg` is valid under `key`, as sp-core decides it.
pub uninterp spec fn ed25519_valid(sig: Seq<u8>, msg: Seq<u8>, key: Seq<u8>) -> bool;

/// Whether an ecdsa signature of `msg` is valid under `key`, as sp-core decides it.
pub uninterp spec fn ecdsa_valid(sig: Seq<u8>, msg: Seq<u8>, key: Seq<u8>) -> bool;

/// The text of the peer id derived from a protobuf-encoded libp2p public key, or
/// nothing when the bytes do not decode to a public key.
pub uninterp spec fn peer_id_of_key(protobuf_key: Seq<u8>) -> Option<Seq<char>>;

/// `sp_core::ed25519::Pair::verify` on a 64-byte signature and a 32-byte public key.
/// Claims: the answer is the named `ed25519_valid` of the three byte strings.
#[verifier::external_body]
pub(crate) fn ed25519_verify(sig: &[u8], msg: &[u8], key: &[u8]) -> (ok: bool)
    requires
        sig@.len() == 64,
        key@.len() == 32,
    ensures
        ok == ed25519_valid(sig@, msg@, key@),
{
    let s = ed25519::Signature::from_raw(sig.try_into().unwrap());
    let k = ed25519::Public::from_raw(key.try_into().unwrap());
    ed25519::Pair::verify(&s, msg, &k)
}

/// `sp_core::ecdsa::Pair::verify` on a 65-byte signature and a 33-byte public key.
/// Claims: the answer is the named `ecdsa_valid` of the three byte strings.
#[verifier::external_body]
pub(crate) fn ecdsa_verify(sig: &[u8], msg: &[u8], key: &[u8]) -> (ok: bool)
    requires
        sig@.len() == 65,
        key@.len() == 33,
    ensures
        ok == ecdsa_valid(sig@, msg@, key@),
{
    let s = ecdsa::Signature::from_raw(sig.try_into().unwrap());
    let k = ecdsa::Public::from_raw(key.try_into().unwrap());
    ecdsa::Pair::verify(&s, msg, &k)
}

/// `PublicKey::try_decode_protobuf` followed by `PeerId::from_public_key`, the peer id
/// given as its base-58 text. Claims: the answer is the named `peer_id_of_key` of the bytes.
#[verifier::external_body]
pub(crate) fn peer_id_from_protobuf_key(protobuf_key: &[u8]) -> (id: Option<String>)
    ensures
        id matches Some(s) ==> peer_id_of_key(protobuf_key@) == Some(s@),
        id is None ==> peer_id_of_key(protobuf_key@) is None,
{
    match PublicKey::try_decode_protobuf(protobuf_key) {
        Ok(key) => Some(PeerId::from_public_key(&key).to_string()),
        Err(_) => None,
    }
}

/// The SS58 text (Substrate format) of the ecdsa public key that an English BIP39
/// phrase gives with no password, or nothing when the phrase is not a valid one.
pub uninterp spec fn ecdsa_public_of_phrase(phrase: Seq<char>) -> Option<Seq<char>>;

/// `Pair::from_phrase` for ecdsa (no password), the public key given as its SS58 text
/// (`to_ss58check_with_version`, Substrate format). Claims: the answer is the named
/// `ecdsa_public_of_phrase` of the phrase.
#[verifier::external_body]
fn ecdsa_public_from_phrase(phrase: &str) -> (r: Option<String>)
    ensures
        r matches Some(k) ==> ecdsa_public_of_phrase(phrase@) == Some(k@),
        r is None ==> ecdsa_public_of_phrase(phrase@) is None,
{
    match ecdsa::Pair::from_phrase(phrase, None) {
        Ok((pair, _)) => Some(pair.public().to_ss58check_with_version(Ss58AddressFormatRegistry::SubstrateAccount.into())),
        Err(_) => None,
    }
}

/// The wallet address of a key phrase: the SS58 text of its ecdsa public key, or nothing
/// when the phrase is not valid.
pub fn phrase_public(phrase: &String) -> (r: Option<String>)
    ensures
        r matches Some(k) ==> ecdsa_public_of_phrase(phrase@) == Some(k@),
        r is None ==> ecdsa_public_of_phrase(phrase@) is None,
{
    ecdsa_public_from_phrase(phrase.as_str())
}

/// Whether the operator's answer asks for new keys: "n" or "N".
pub fn wants_new_keys(answer: &String) -> (r: bool)
    ensures
        r == (answer@ == "n"@ || answer@ == "N"@),
{
    let lower = String::from_str("n");
    let upper = String::from_str("N");
    *answer == lower || *answer == upper
}

/// The wallet the node uses after asking the operator for a key phrase: on "n" or "N",
/// the key generated for it (`generated_public`); otherwise the public key of the phrase
/// entered, or "emptey" when that phrase is not valid.
pub fn wallet_of_answer(answer: &String, generated_public: &String) -> (w: String)
    ensures
        (answer@ == "n"@ || answer@ == "N"@) ==> w@ == generated_public@,
        !(answer@ == "n"@ || answer@ == "N"@) ==> match ecdsa_public_of_phrase(answer@) {
            Some(k) => w@ == k,
            None => w@ == "emptey"@,
        },
{
    if wants_new_keys(answer) {
        generated_public.clone()
    } else {
        match phrase_public(answer) {
            Some(k) => k,
            None => String::from_str("emptey"),
        }
    }
}

} // verus!
