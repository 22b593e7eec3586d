//! The primitives this crate takes from other crates.
//!
//! Every function in this module is a thin call into an outside crate. Its
//! contract is believed, not proved. The results of the deterministic
//! primitives are given names, so that the rest of the crate can state exactly
//! which bytes it signs and which checks it runs, while nothing is claimed
//! about what those bytes are.

use vstd::prelude::*;

verus! {

/// Length in bytes of a secret key and of a public key.
pub const KEY_LENGTH: usize = 32;

/// Length in bytes of a signature.
pub const SIGNATURE_LENGTH: usize = 64;

/// The Ed25519 verifying key that belongs to a 32-byte secret key.
pub uninterp spec fn ed25519_verifying_key(secret: Seq<u8>) -> Seq<u8>;

/// The Ed25519 signature that a 32-byte secret key produces over a message.
pub uninterp spec fn ed25519_signature(secret: Seq<u8>, message: Seq<u8>) -> Seq<u8>;

/// Whether a 64-byte signature over a message is accepted under a 32-byte
/// Ed25519 verifying key.
pub uninterp spec fn ed25519_accepts(public: Seq<u8>, message: Seq<u8>, signature: Seq<u8>) -> bool;

/// The X25519 public key that belongs to a 32-byte key-exchange secret.
pub uninterp spec fn x25519_public_key(secret: Seq<u8>) -> Seq<u8>;

/// The bytes that a text stands for in padded standard-alphabet base64, or
/// `None` where the text is not such an encoding.
pub uninterp spec fn base64_decoding(text: Seq<char>) -> Option<Seq<u8>>;

#[verifier::external_type_specification]
#[verifier::external_body]
pub struct ExSignatureError(ed25519_dalek::SignatureError);

#[verifier::external_type_specification]
#[verifier::external_body]
pub struct ExDecodeError(base64::DecodeError);

/// Calls `ed25519_dalek::SigningKey::generate` with the operating system's
/// random number generator and hands back the secret bytes of the new key.
/// Nothing is claimed about which bytes come back. The outside call aborts
/// where the operating system cannot supply randomness.
#[verifier::external_body]
pub(crate) fn fresh_signing_secret() -> (secret: [u8; 32]) {
    ed25519_dalek::SigningKey::generate(&mut rand::rngs::OsRng).to_bytes()
}

/// Calls `crypto_box::SecretKey::generate` with the operating system's random
/// number generator and hands back the secret bytes of the new key. Nothing is
/// claimed about which bytes come back. The outside call aborts where the
/// operating system cannot supply randomness.
#[verifier::external_body]
pub(crate) fn fresh_encrypting_secret() -> (secret: [u8; 32]) {
    crypto_box::SecretKey::generate(&mut rand::rngs::OsRng).to_bytes()
}

/// Calls `ed25519_dalek::SigningKey::from_bytes` and reads the verifying key
/// of the result: the public half that the outside crate derives from
/// `secret`.
#[verifier::external_body]
pub(crate) fn derive_verifying_key(secret: &[u8; 32]) -> (public: [u8; 32])
    ensures
        public@ == ed25519_verifying_key(secret@),
{
    ed25519_dalek::SigningKey::from_bytes(secret).verifying_key().to_bytes()
}

/// Calls `crypto_box::SecretKey::from_bytes` and `SecretKey::public_key`: the
/// public half that the outside crate derives from `secret`.
#[verifier::external_body]
pub(crate) fn derive_encrypting_public_key(secret: &[u8; 32]) -> (public: [u8; 32])
    ensures
        public@ == x25519_public_key(secret@),
{
    crypto_box::SecretKey::from_bytes(*secret).public_key().to_bytes()
}

/// Calls `ed25519_dalek::Signer::sign` on the signing key that
/// `ed25519_dalek::SigningKey::from_bytes` makes of `secret`. The outside
/// crate signs without randomness, so the signature is a function of the key
/// and the message.
#[verifier::external_body]
pub(crate) fn ed25519_sign(secret: &[u8; 32], message: &[u8]) -> (signature: [u8; 64])
    ensures
        signature@ == ed25519_signature(secret@, message@),
{
    let key = ed25519_dalek::SigningKey::from_bytes(secret);
    ed25519_dalek::Signer::sign(&key, message).to_bytes()
}

/// Calls `ed25519_dalek::VerifyingKey::from_bytes`,
/// `ed25519_dalek::Signature::from_slice` and
/// `ed25519_dalek::Verifier::verify`. The outside crate fails on a signature
/// that is not 64 bytes long, on a key that is no curve point, and on a
/// signature that does not match; the latter two are what `ed25519_accepts`
/// names.
#[verifier::external_body]
pub(crate) fn ed25519_verify(public: &[u8; 32], message: &[u8], signature: &[u8]) -> (outcome: Result<(), ed25519_dalek::SignatureError>)
    ensures
        outcome is Ok <==> (signature@.len() == 64 && ed25519_accepts(public@, message@, signature@)),
{
    let key = ed25519_dalek::VerifyingKey::from_bytes(public)?;
    let signature = ed25519_dalek::Signature::from_slice(signature)?;
    ed25519_dalek::Verifier::verify(&key, message, &signature)
}

/// Calls `base64::Engine::decode` on `base64::prelude::BASE64_STANDARD`. The
/// decoded bytes, or the fact that the text does not decode, depend on the
/// text alone.
#[verifier::external_body]
pub(crate) fn base64_decode(text: &str) -> (outcome: Result<Vec<u8>, base64::DecodeError>)
    ensures
        outcome is Ok <==> base64_decoding(text@) is Some,
        outcome is Ok ==> base64_decoding(text@) == Some(outcome->Ok_0@),
{
    base64::Engine::decode(&base64::prelude::BASE64_STANDARD, text)
}

} // verus!
