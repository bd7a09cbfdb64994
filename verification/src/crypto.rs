//! The cryptographic capabilities that the event model consumes: hashing,
//! signing and signature verification. Each is a call into `secp256k1`
//! whose contract is stated here and taken on trust.

use vstd::prelude::*;

verus! {

#[verifier::external_type_specification]
#[verifier::external_body]
pub struct ExKeyPair(secp256k1::KeyPair);

/// The SHA-256 digest of the UTF-8 encoding of a text.
pub uninterp spec fn sha256(text: Seq<char>) -> Seq<u8>;

/// Whether a BIP-340 signature over a 32-byte message verifies against an
/// x-only public key, all three given as bytes. It is false where the key
/// bytes are no valid key.
pub uninterp spec fn schnorr_verifies(sig: Seq<u8>, digest: Seq<u8>, pubkey: Seq<u8>) -> bool;

/// Hashes a text with `secp256k1::hashes::sha256::Hash::hash`. The contract
/// names the digest as a function of the text and says that it has 32 bytes,
/// the size of the array that a `sha256::Hash` holds.
#[verifier::external_body]
pub(crate) fn sha256_digest(text: &str) -> (r: Vec<u8>)
    ensures
        r@ == sha256(text@),
        r@.len() == 32,
{
    <secp256k1::hashes::sha256::Hash as secp256k1::hashes::Hash>::hash(
        text.as_bytes(),
    )[..].to_vec()
}

/// Verifies a signature with `Secp256k1::verify_schnorr`, after turning the
/// three byte strings into `Signature`, `Message` and `XOnlyPublicKey` by
/// their `from_slice`. The contract names the outcome as a function of the
/// three byte strings. `Signature::from_slice` and `Message::from_slice`
/// accept exactly 64 and 32 bytes; key bytes that `XOnlyPublicKey::from_slice`
/// refuses count as a failed verification.
#[verifier::external_body]
pub(crate) fn verify_schnorr(sig: &[u8], digest: &[u8], pubkey: &[u8]) -> (r: bool)
    requires
        sig@.len() == 64,
        digest@.len() == 32,
        pubkey@.len() == 32,
    ensures
        r == schnorr_verifies(sig@, digest@, pubkey@),
{
    match (
        secp256k1::schnorr::Signature::from_slice(sig),
        secp256k1::Message::from_slice(digest),
        secp256k1::XOnlyPublicKey::from_slice(pubkey),
    ) {
        (Ok(s), Ok(m), Ok(k)) => secp256k1::Secp256k1::verification_only().verify_schnorr(
            &s,
            &m,
            &k,
        ).is_ok(),
        _ => false,
    }
}

/// Signs a message with `Secp256k1::sign_schnorr`, which draws auxiliary
/// randomness, so the contract fixes only what holds of every outcome: a
/// signature of 64 bytes comes back exactly when the message has the 32 bytes
/// that `Message::from_slice` asks for.
#[verifier::external_body]
pub(crate) fn sign_schnorr(keypair: &secp256k1::KeyPair, digest: &[u8]) -> (r: Option<Vec<u8>>)
    ensures
        match r {
            Some(sig) => digest@.len() == 32 && sig@.len() == 64,
            None => digest@.len() != 32,
        },
{
    match secp256k1::Message::from_slice(digest) {
        Ok(m) => Some(secp256k1::Secp256k1::signing_only().sign_schnorr(&m, keypair)[..].to_vec()),
        Err(_) => None,
    }
}

/// The x-only public key of a key pair, by `KeyPair::x_only_public_key` and
/// `XOnlyPublicKey::serialize`, which returns an array of 32 bytes.
#[verifier::external_body]
pub(crate) fn public_key_bytes(keypair: &secp256k1::KeyPair) -> (r: Vec<u8>)
    ensures
        r@.len() == 32,
{
    keypair.x_only_public_key().0.serialize().to_vec()
}

/// Seconds since the Unix epoch by `SystemTime::elapsed` of the standard
/// library, and zero where the clock stands before the epoch. Nothing is
/// promised of the value.
#[verifier::external_body]
pub(crate) fn unix_timestamp() -> u64 {
    match std::time::UNIX_EPOCH.elapsed() {
        Ok(d) => d.as_secs(),
        Err(_) => 0,
    }
}

} // verus!
