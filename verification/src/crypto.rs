//! The primitives that the library builds on.
//!
//! Hashing, signing, key agreement, encryption and random numbers are the
//! work of outside crates. Each is reached through one function here, whose
//! contract is taken on trust: it says what the outside function is
//! documented to return, and no more. Where the result is a function of the
//! arguments alone, it is given a name, so that the contracts built on it can
//! be exact.

use aes_ctr::cipher::stream::{NewStreamCipher, SyncStreamCipher};
use rand::{Rng, RngCore, SeedableRng};
use ring::rand::SecureRandom;
use vstd::prelude::*;

verus! {

/// The SHA-256 digest of `data`.
pub uninterp spec fn sha256_digest(data: Seq<u8>) -> Seq<u8>;

/// `ring::digest::digest` with `ring::digest::SHA256`: the SHA-256 digest of
/// `data`, which is 32 bytes long.
#[verifier::external_body]
pub(crate) fn sha256(data: &[u8]) -> (digest: Vec<u8>)
    ensures
        digest@ == sha256_digest(data@),
        digest@.len() == 32,
{
    ring::digest::digest(&ring::digest::SHA256, data).as_ref().to_vec()
}

/// The HMAC-SHA-256 tag of `data` under `key`.
pub uninterp spec fn hmac_sha256_tag(key: Seq<u8>, data: Seq<u8>) -> Seq<u8>;

/// `ring::hmac::sign` with a key made by `ring::hmac::Key::new` for
/// `ring::hmac::HMAC_SHA256`: the tag of `data` under `key`, which is 32
/// bytes long.
#[verifier::external_body]
pub(crate) fn hmac_sha256(key: &[u8], data: &[u8]) -> (tag: Vec<u8>)
    ensures
        tag@ == hmac_sha256_tag(key@, data@),
        tag@.len() == 32,
{
    let key = ring::hmac::Key::new(ring::hmac::HMAC_SHA256, key);
    ring::hmac::sign(&key, data).as_ref().to_vec()
}

/// The tag and the contents of the first PEM block in `text`, if `text`
/// holds a well-formed one.
pub uninterp spec fn pem_decoded(text: Seq<u8>) -> Option<(Seq<char>, Seq<u8>)>;

/// `pem::parse`: the tag and the decoded contents of the PEM block in
/// `text`, or nothing where the framing or the encoding is malformed.
#[verifier::external_body]
pub(crate) fn pem_parse(text: &[u8]) -> (pem: Option<(String, Vec<u8>)>)
    ensures
        match pem {
            Some((tag, contents)) => pem_decoded(text@) == Some((tag@, contents@)),
            None => pem_decoded(text@) is None,
        },
{
    pem::parse(text).ok().map(|pem| (pem.tag, pem.contents))
}

/// The length in bytes of the public modulus of the RSA key pair in
/// `key_der`.
pub uninterp spec fn rsa_modulus_len(key_der: Seq<u8>) -> nat;

/// `signature` is one of the signatures that `ring`'s `RsaKeyPair::sign`
/// with `RSA_PSS_SHA256` gives for `message` under the key pair that
/// `from_der` reads from `key_der`. Which of them a call gives, chance
/// decides; nothing else is claimed of the relation.
pub uninterp spec fn rsa_pss_signed(key_der: Seq<u8>, message: Seq<u8>, signature: Seq<u8>) -> bool;

/// `ring::signature::RsaKeyPair::from_der`, then `sign` with
/// `ring::signature::RSA_PSS_SHA256` into a buffer of
/// `public_modulus_len()` bytes: an RSA-PSS signature of `message`, or
/// nothing where the key is rejected or signing fails. The padding is salted
/// at random, so of the signature only this is claimed: it has the length
/// of the key's public modulus, and it is one that this call gives for this
/// key and this message.
#[verifier::external_body]
pub(crate) fn rsa_pss_sign(key_der: &[u8], message: &[u8]) -> (signature: Option<Vec<u8>>)
    ensures
        signature matches Some(s) ==> s@.len() == rsa_modulus_len(key_der@) && rsa_pss_signed(
            key_der@,
            message@,
            s@,
        ),
{
    let key = ring::signature::RsaKeyPair::from_der(key_der).ok()?;
    let mut signature = vec![0u8; key.public_modulus_len()];
    let rng = ring::rand::SystemRandom::new();
    key.sign(&ring::signature::RSA_PSS_SHA256, &rng, message, &mut signature).ok()?;
    Some(signature)
}

/// `signature` is one of the signatures that `ring`'s `EcdsaKeyPair::sign`
/// gives for `message` under the key pair that `from_pkcs8` reads from
/// `pkcs8` for `ECDSA_P256_SHA256_ASN1_SIGNING`. Which of them a call
/// gives, chance decides; nothing else is claimed of the relation.
pub uninterp spec fn ecdsa_p256_signed(pkcs8: Seq<u8>, message: Seq<u8>, signature: Seq<u8>) -> bool;

/// `ring::signature::EcdsaKeyPair::from_pkcs8` for
/// `ECDSA_P256_SHA256_ASN1_SIGNING`, then `sign`: an ECDSA signature of
/// `message` in ASN.1 form, or nothing where the key is rejected or signing
/// fails. The nonce is random, so of the signature only this is claimed: it
/// has not more than the 105 bytes that a signature of `ring` can hold, and
/// it is one that this call gives for this key and this message.
#[verifier::external_body]
pub(crate) fn ecdsa_p256_sign(pkcs8: &[u8], message: &[u8]) -> (signature: Option<Vec<u8>>)
    ensures
        signature matches Some(s) ==> s@.len() <= 105 && ecdsa_p256_signed(pkcs8@, message@, s@),
{
    let alg = &ring::signature::ECDSA_P256_SHA256_ASN1_SIGNING;
    let key = ring::signature::EcdsaKeyPair::from_pkcs8(alg, pkcs8).ok()?;
    let signature = key.sign(&ring::rand::SystemRandom::new(), message).ok()?;
    Some(signature.as_ref().to_vec())
}

/// The Ed25519 signature of `message` by the key pair with private seed
/// `seed` and public key `public_key`, if the two make a key pair.
pub uninterp spec fn ed25519_signature(
    seed: Seq<u8>,
    public_key: Seq<u8>,
    message: Seq<u8>,
) -> Option<Seq<u8>>;

/// `ring::signature::Ed25519KeyPair::from_seed_and_public_key`, then `sign`:
/// the Ed25519 signature of `message`, which has 64 bytes, or nothing where
/// the seed and the public key are rejected.
#[verifier::external_body]
pub(crate) fn ed25519_sign(seed: &[u8], public_key: &[u8], message: &[u8]) -> (signature: Option<
    Vec<u8>,
>)
    ensures
        match signature {
            Some(s) => ed25519_signature(seed@, public_key@, message@) == Some(s@) && s@.len()
                == 64,
            None => ed25519_signature(seed@, public_key@, message@) is None,
        },
{
    let key = ring::signature::Ed25519KeyPair::from_seed_and_public_key(seed, public_key).ok()?;
    Some(key.sign(message).as_ref().to_vec())
}

/// `public` is the public half of one of the key pairs that `ring`'s
/// `EphemeralPrivateKey::generate` makes for `ECDH_P256`, and `secret` what
/// `agree_ephemeral` gives for this key pair and the peer whose public key
/// is `peer_public`. Which key pair a call makes, chance decides; nothing
/// else is claimed of the relation.
pub uninterp spec fn ecdh_p256_agreed(peer_public: Seq<u8>, public: Seq<u8>, secret: Seq<u8>) -> bool;

/// As `ecdh_p256_agreed`, for `ring::agreement::X25519`.
pub uninterp spec fn x25519_agreed(peer_public: Seq<u8>, public: Seq<u8>, secret: Seq<u8>) -> bool;

/// `ring::agreement::EphemeralPrivateKey::generate` for `ECDH_P256`, then
/// `compute_public_key` and `agree_ephemeral` with `peer_public`: the public
/// half of a fresh key pair and the secret it shares with the peer, or
/// nothing where any step fails. The key pair is random, so only this is
/// claimed: the public key has 65 bytes, a point in uncompressed form, the
/// secret has 32, and the two are what this call gives for this peer.
#[verifier::external_body]
pub(crate) fn ecdh_p256_ephemeral(peer_public: &[u8]) -> (shared: Option<(Vec<u8>, Vec<u8>)>)
    ensures
        shared matches Some((public, secret)) ==> public@.len() == 65 && secret@.len() == 32
            && ecdh_p256_agreed(peer_public@, public@, secret@),
{
    let alg = &ring::agreement::ECDH_P256;
    let rng = ring::rand::SystemRandom::new();
    let key = ring::agreement::EphemeralPrivateKey::generate(alg, &rng).ok()?;
    let public = key.compute_public_key().ok()?.as_ref().to_vec();
    let peer = ring::agreement::UnparsedPublicKey::new(alg, peer_public);
    let failed = ring::error::Unspecified;
    let secret = ring::agreement::agree_ephemeral(key, &peer, failed, |s| Ok(s.to_vec())).ok()?;
    Some((public, secret))
}

/// As `ecdh_p256_ephemeral`, for `ring::agreement::X25519`, whose public
/// keys and secrets have 32 bytes.
#[verifier::external_body]
pub(crate) fn x25519_ephemeral(peer_public: &[u8]) -> (shared: Option<(Vec<u8>, Vec<u8>)>)
    ensures
        shared matches Some((public, secret)) ==> public@.len() == 32 && secret@.len() == 32
            && x25519_agreed(peer_public@, public@, secret@),
{
    let alg = &ring::agreement::X25519;
    let rng = ring::rand::SystemRandom::new();
    let key = ring::agreement::EphemeralPrivateKey::generate(alg, &rng).ok()?;
    let public = key.compute_public_key().ok()?.as_ref().to_vec();
    let peer = ring::agreement::UnparsedPublicKey::new(alg, peer_public);
    let failed = ring::error::Unspecified;
    let secret = ring::agreement::agree_ephemeral(key, &peer, failed, |s| Ok(s.to_vec())).ok()?;
    Some((public, secret))
}

/// The 48 bytes that HKDF with SHA-256 and an empty salt derives from
/// `secret` for the context `info`.
pub uninterp spec fn hkdf_sha256_okm(secret: Seq<u8>, info: Seq<u8>) -> Option<Seq<u8>>;

/// `ring::hkdf::Salt::new` for `HKDF_SHA256` with an empty salt, then
/// `extract`, `expand` and `fill`: 48 bytes of key material derived from
/// `secret` for `info`, or nothing where the expansion is refused. The
/// length is handed to `expand` as `HKDF_SHA384`, a value whose `len()` is
/// 48; the digest that expands is the salt's, SHA-256.
#[verifier::external_body]
pub(crate) fn hkdf_sha256(secret: &[u8], info: &[u8]) -> (okm: Option<Vec<u8>>)
    ensures
        match okm {
            Some(k) => hkdf_sha256_okm(secret@, info@) == Some(k@) && k@.len() == 48,
            None => hkdf_sha256_okm(secret@, info@) is None,
        },
{
    let prk = ring::hkdf::Salt::new(ring::hkdf::HKDF_SHA256, &[]).extract(secret);
    let mut out = vec![0u8; 48];
    prk.expand(&[info], ring::hkdf::HKDF_SHA384).ok()?.fill(&mut out).ok()?;
    Some(out)
}

/// `data` encrypted (or, the same, decrypted) with AES-128 in counter mode
/// under `key`, counting from `nonce`; nothing where the key or the nonce
/// has the wrong length or the data outruns the counter.
pub uninterp spec fn aes128_ctr_stream(key: Seq<u8>, nonce: Seq<u8>, data: Seq<u8>) -> Option<
    Seq<u8>,
>;

/// `aes_ctr::Aes128Ctr::new_var`, then `try_apply_keystream` on a copy of
/// `data`: the data with the key stream applied, as long as the data.
#[verifier::external_body]
pub(crate) fn aes128_ctr(key: &[u8], nonce: &[u8], data: &[u8]) -> (out: Option<Vec<u8>>)
    ensures
        match out {
            Some(o) => aes128_ctr_stream(key@, nonce@, data@) == Some(o@) && o@.len()
                == data@.len(),
            None => aes128_ctr_stream(key@, nonce@, data@) is None,
        },
{
    let mut cipher = aes_ctr::Aes128Ctr::new_var(key, nonce).ok()?;
    let mut out = data.to_vec();
    cipher.try_apply_keystream(&mut out).ok()?;
    Some(out)
}

/// `ring::rand::SystemRandom::fill`: `len` bytes from the system's secure
/// random source, or nothing where the source fails.
#[verifier::external_body]
pub(crate) fn random_bytes(len: usize) -> (bytes: Option<Vec<u8>>)
    ensures
        bytes matches Some(b) ==> b@.len() == len,
{
    let mut bytes = vec![0u8; len];
    ring::rand::SystemRandom::new().fill(&mut bytes).ok()?;
    Some(bytes)
}

/// The first `len` bytes that `rand::rngs::SmallRng`, seeded with `seed`,
/// gives on a machine whose words have `word_bits` bits. (The generator
/// behind `SmallRng` depends on the width of the machine's words.)
pub uninterp spec fn small_rng_bytes(seed: Seq<u8>, len: nat, word_bits: u32) -> Seq<u8>;

/// `rand::rngs::SmallRng::from_seed` with the sixteen bytes of `seed`, then
/// `fill_bytes` on a buffer of `len` bytes.
#[verifier::external_body]
pub(crate) fn seeded_bytes(seed: &[u8], len: usize) -> (bytes: Vec<u8>)
    requires
        seed@.len() == 16,
    ensures
        bytes@ == small_rng_bytes(seed@, len as nat, usize::BITS),
        bytes@.len() == len,
{
    let mut block = [0u8; 16];
    block.copy_from_slice(seed);
    let mut rng = rand::rngs::SmallRng::from_seed(block);
    let mut bytes = vec![0u8; len];
    rng.fill_bytes(&mut bytes);
    bytes
}

/// `rand::thread_rng().gen_range(low, high)`: a random number from `low` up
/// to, but not including, `high`.
#[verifier::external_body]
pub(crate) fn random_between(low: i32, high: i32) -> (n: i32)
    requires
        low < high,
    ensures
        low <= n < high,
{
    rand::thread_rng().gen_range(low, high)
}

/// `rand::thread_rng().next_u32()`: the next 32 bits of the thread's random
/// number generator. Nothing is claimed of the value.
#[verifier::external_body]
pub(crate) fn random_word() -> u32 {
    rand::thread_rng().next_u32()
}

} // verus!
