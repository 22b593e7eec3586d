//! The signing primitive and the verifier.

use vstd::prelude::*;
use crate::crypto::{
    derive_verifying_key, ed25519_accepts, ed25519_sign, ed25519_signature, ed25519_verify,
    ed25519_verifying_key, SIGNATURE_LENGTH,
};
use crate::error::PkiError;

verus! {

/// Whether `signature` validates under the verifying key `public` over exactly
/// `message`.
pub open spec fn verifies(public: Seq<u8>, message: Seq<u8>, signature: Seq<u8>) -> bool {
    signature.len() == SIGNATURE_LENGTH && ed25519_accepts(public, message, signature)
}

/// What a check of a signature reports: success where the signature
/// validates, `SignatureInvalid` where it does not.
pub open spec fn verdict(valid: bool) -> Result<(), PkiError> {
    if valid {
        Ok(())
    } else {
        Err(PkiError::SignatureInvalid)
    }
}

/// What signing `message` with `secret` yields: the signature, provided it
/// validates under the verifying key of `secret`.
pub open spec fn signing_outcome(secret: Seq<u8>, message: Seq<u8>) -> Result<Seq<u8>, PkiError> {
    let signature = ed25519_signature(secret, message);
    if verifies(ed25519_verifying_key(secret), message, signature) {
        Ok(signature)
    } else {
        Err(PkiError::SelfCheckFailed)
    }
}

/// Checks `signature` over `message` against the verifying key `public`.
pub fn verify(public: &[u8; 32], message: &[u8], signature: &[u8]) -> (outcome: Result<(), PkiError>)
    ensures
        outcome == verdict(verifies(public@, message@, signature@)),
{
    match ed25519_verify(public, message, signature) {
        Ok(_) => Ok(()),
        Err(_) => Err(PkiError::SignatureInvalid),
    }
}

/// Hands out a signature that passed the signer's own check, and refuses one
/// that did not.
pub fn checked_signature(signature: [u8; 64], self_check: Result<(), PkiError>) -> (outcome: Result<[u8; 64], PkiError>)
    ensures
        self_check is Ok ==> outcome == Ok::<[u8; 64], PkiError>(signature),
        self_check is Err ==> outcome == Err::<[u8; 64], PkiError>(PkiError::SelfCheckFailed),
{
    match self_check {
        Ok(_) => Ok(signature),
        Err(_) => Err(PkiError::SelfCheckFailed),
    }
}

/// A key that signs: the secret half of a signing key pair. Its verifying key
/// is derived from the secret whenever it is needed.
pub struct SigningKey {
    secret: [u8; 32],
}

impl SigningKey {
    /// The secret bytes of this key.
    pub closed spec fn secret_bytes(&self) -> Seq<u8> {
        self.secret@
    }

    /// The verifying key that belongs to this key.
    pub open spec fn verifying_key_bytes(&self) -> Seq<u8> {
        ed25519_verifying_key(self.secret_bytes())
    }

    /// The signing key with the given secret bytes.
    pub fn from_bytes(secret: &[u8; 32]) -> (key: SigningKey)
        ensures
            key.secret_bytes() == secret@,
    {
        SigningKey { secret: *secret }
    }

    /// The secret bytes of this key.
    pub fn to_bytes(&self) -> (secret: [u8; 32])
        ensures
            secret@ == self.secret_bytes(),
    {
        self.secret
    }

    /// The verifying key that belongs to this key.
    pub fn verifying_key(&self) -> (public: [u8; 32])
        ensures
            public@ == self.verifying_key_bytes(),
    {
        derive_verifying_key(&self.secret)
    }

    /// Checks `signature` over `message` against this key's verifying key.
    pub fn verify(&self, message: &[u8], signature: &[u8]) -> (outcome: Result<(), PkiError>)
        ensures
            outcome == verdict(verifies(self.verifying_key_bytes(), message@, signature@)),
    {
        let public = self.verifying_key();
        verify(&public, message, signature)
    }
}

/// Signs `bytes` exactly as given with `signer`, then checks the new
/// signature against the signer's own verifying key before handing it out.
///
/// Every signature that is handed out validates under the signer's verifying
/// key over `bytes`.
pub fn sign_data(signer: &mut SigningKey, bytes: &[u8]) -> (outcome: Result<[u8; 64], PkiError>)
    ensures
        *final(signer) == *old(signer),
        outcome is Ok <==> signing_outcome(old(signer).secret_bytes(), bytes@) is Ok,
        outcome matches Ok(signature) ==> {
            &&& signing_outcome(old(signer).secret_bytes(), bytes@) == Ok::<Seq<u8>, PkiError>(signature@)
            &&& signature@ == ed25519_signature(old(signer).secret_bytes(), bytes@)
            &&& verifies(old(signer).verifying_key_bytes(), bytes@, signature@)
        },
        outcome matches Err(error) ==> error == PkiError::SelfCheckFailed,
{
    let signature = ed25519_sign(&signer.secret, bytes);
    let self_check = signer.verify(bytes, &signature);
    checked_signature(signature, self_check)
}

/// A signature that `signing_outcome` hands out validates under the verifying
/// key of the secret that made it, over the message that was signed.
pub proof fn lemma_signed_then_verified(secret: Seq<u8>, message: Seq<u8>, signature: Seq<u8>)
    requires
        signing_outcome(secret, message) == Ok::<Seq<u8>, PkiError>(signature),
    ensures
        verifies(ed25519_verifying_key(secret), message, signature),
        verdict(verifies(ed25519_verifying_key(secret), message, signature)) is Ok,
{
}

} // verus!
