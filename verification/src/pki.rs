//! Building and checking the chain of trust: root, intermediate, journalist.
//!
//! Generation draws a fresh secret from the operating system for every key
//! and never uses one twice. What happens after the draw is a function of the
//! secret, and is offered on its own under a name that ends in
//! `_from_secret` or `_from_secrets`.

use vstd::prelude::*;
use crate::crypto::{
    derive_encrypting_public_key, derive_verifying_key, ed25519_verifying_key,
    fresh_encrypting_secret, fresh_signing_secret, x25519_public_key,
};
use crate::error::PkiError;
use crate::keys::{JournalistMaterial, KeyMaterial, SignedKeyMaterial};
use crate::record::{
    decode_journalist, decode_root, decode_signed, lemma_root_record_round_trip,
    lemma_signed_record_round_trip, parse_journalist_record, parse_root_record,
    parse_signed_record, root_record, signed_record, KIND_SIGNING,
};
use crate::signing::{signing_outcome, verdict, verifies};
use crate::store::{KeyId, KeyStore};

pub use crate::keys::{EncryptingKeyPair, Journalist, PublicJournalist, RootKeyPair, SignedKeyPair};
pub use crate::signing::{sign_data, verify, SigningKey};

verus! {

/// The root pair with the given secret half.
pub open spec fn root_pair(secret: Seq<u8>) -> KeyMaterial {
    KeyMaterial { secret, public: ed25519_verifying_key(secret) }
}

/// What attesting the signing pair with the given secret half yields: the
/// pair with the signer's signature over its public half, provided the
/// signature passes the signer's own check.
pub open spec fn signed_pair_outcome(signer: Seq<u8>, secret: Seq<u8>) -> Result<
    SignedKeyMaterial,
    PkiError,
> {
    let public = ed25519_verifying_key(secret);
    match signing_outcome(signer, public) {
        Ok(signature) => Ok(SignedKeyMaterial { secret, public, signature }),
        Err(error) => Err(error),
    }
}

/// What attesting the encrypting pair with the given secret half yields.
pub open spec fn encrypting_pair_outcome(signer: Seq<u8>, secret: Seq<u8>) -> Result<
    SignedKeyMaterial,
    PkiError,
> {
    let public = x25519_public_key(secret);
    match signing_outcome(signer, public) {
        Ok(signature) => Ok(SignedKeyMaterial { secret, public, signature }),
        Err(error) => Err(error),
    }
}

/// What attesting a journalist with the given secret halves yields: the
/// signing pair is attested first, the encrypting pair second.
pub open spec fn journalist_outcome(
    intermediate: Seq<u8>,
    signing_secret: Seq<u8>,
    encrypting_secret: Seq<u8>,
) -> Result<JournalistMaterial, PkiError> {
    match signed_pair_outcome(intermediate, signing_secret) {
        Err(error) => Err(error),
        Ok(signing) => match encrypting_pair_outcome(intermediate, encrypting_secret) {
            Err(error) => Err(error),
            Ok(encrypting) => Ok(JournalistMaterial { signing, encrypting }),
        },
    }
}

/// The root pair that a store holds.
pub open spec fn stored_root(store: Map<KeyId, Seq<u8>>) -> Result<KeyMaterial, PkiError> {
    if !store.dom().contains(KeyId::Root) {
        Err(PkiError::MissingRecord(KeyId::Root))
    } else {
        match parse_root_record(store[KeyId::Root]) {
            Some(root) => Ok(root),
            None => Err(PkiError::MalformedRecord(KeyId::Root)),
        }
    }
}

/// The intermediate pair that a store holds.
pub open spec fn stored_intermediate(store: Map<KeyId, Seq<u8>>) -> Result<
    SignedKeyMaterial,
    PkiError,
> {
    if !store.dom().contains(KeyId::Intermediate) {
        Err(PkiError::MissingRecord(KeyId::Intermediate))
    } else {
        match parse_signed_record(KIND_SIGNING, store[KeyId::Intermediate]) {
            Some(intermediate) => Ok(intermediate),
            None => Err(PkiError::MalformedRecord(KeyId::Intermediate)),
        }
    }
}

/// The journalist that a store holds under the given number.
pub open spec fn stored_journalist(store: Map<KeyId, Seq<u8>>, number: u32) -> Result<
    JournalistMaterial,
    PkiError,
> {
    if !store.dom().contains(KeyId::Journalist(number)) {
        Err(PkiError::MissingRecord(KeyId::Journalist(number)))
    } else {
        match parse_journalist_record(store[KeyId::Journalist(number)]) {
            Some(journalist) => Ok(journalist),
            None => Err(PkiError::MalformedRecord(KeyId::Journalist(number))),
        }
    }
}

/// What checking a signature against the stored intermediate key reports. A
/// store without a readable intermediate record is one failure, a signature
/// that does not validate is another.
pub open spec fn intermediate_check(
    store: Map<KeyId, Seq<u8>>,
    contents: Seq<u8>,
    signature: Seq<u8>,
) -> Result<(), PkiError> {
    match stored_intermediate(store) {
        Err(error) => Err(error),
        Ok(intermediate) => verdict(
            verifies(ed25519_verifying_key(intermediate.secret), contents, signature),
        ),
    }
}

/// What checking the stored intermediate pair against the stored root
/// reports: success exactly where both records parse and the intermediate's
/// signature validates under the verifying key of the root's secret over the
/// intermediate's public bytes.
pub open spec fn root_intermediate_check(store: Map<KeyId, Seq<u8>>) -> Result<(), PkiError> {
    match stored_root(store) {
        Err(error) => Err(error),
        Ok(root) => match stored_intermediate(store) {
            Err(error) => Err(error),
            Ok(intermediate) => verdict(
                intermediate.attested_by(ed25519_verifying_key(root.secret)),
            ),
        },
    }
}

/// The root pair with the given secret half.
pub fn root_keypair_from_secret(secret: [u8; 32]) -> (pair: RootKeyPair)
    ensures
        pair@ == root_pair(secret@),
{
    let public = derive_verifying_key(&secret);
    RootKeyPair::from_parts(secret, public)
}

/// A fresh root pair.
pub fn generate_root_keypair() -> (pair: RootKeyPair)
    ensures
        pair@.is_signing_pair(),
        pair@ == root_pair(pair@.secret),
{
    root_keypair_from_secret(fresh_signing_secret())
}

/// The signing pair with the given secret half, attested by `signer`.
pub fn signed_keypair_from_secret(signer: &mut SigningKey, secret: [u8; 32]) -> (outcome: Result<
    SignedKeyPair,
    PkiError,
>)
    ensures
        *final(signer) == *old(signer),
        match outcome {
            Ok(pair) => signed_pair_outcome(old(signer).secret_bytes(), secret@) == Ok::<
                SignedKeyMaterial,
                PkiError,
            >(pair@),
            Err(error) => signed_pair_outcome(old(signer).secret_bytes(), secret@) == Err::<
                SignedKeyMaterial,
                PkiError,
            >(error),
        },
{
    let public = derive_verifying_key(&secret);
    match sign_data(signer, &public) {
        Ok(signature) => Ok(SignedKeyPair::from_parts(secret, public, signature)),
        Err(error) => Err(error),
    }
}

/// A fresh signing pair, attested by `signer`. Used for the intermediate key
/// and for a journalist's signing key.
///
/// A pair that is handed out is a signing pair whose signature validates
/// under the signer's verifying key over exactly its public bytes.
pub fn generate_signed_keypair(signer: &mut SigningKey) -> (outcome: Result<SignedKeyPair, PkiError>)
    ensures
        *final(signer) == *old(signer),
        outcome matches Ok(pair) ==> {
            &&& signed_pair_outcome(old(signer).secret_bytes(), pair@.secret) == Ok::<
                SignedKeyMaterial,
                PkiError,
            >(pair@)
            &&& pair@.is_signing_pair()
            &&& pair@.attested_by(old(signer).verifying_key_bytes())
        },
        outcome matches Err(error) ==> error == PkiError::SelfCheckFailed,
{
    let secret = fresh_signing_secret();
    signed_keypair_from_secret(signer, secret)
}

/// The encrypting pair with the given secret half, attested by `signer`.
pub fn encrypting_keypair_from_secret(signer: &mut SigningKey, secret: [u8; 32]) -> (outcome:
    Result<EncryptingKeyPair, PkiError>)
    ensures
        *final(signer) == *old(signer),
        match outcome {
            Ok(pair) => encrypting_pair_outcome(old(signer).secret_bytes(), secret@) == Ok::<
                SignedKeyMaterial,
                PkiError,
            >(pair@),
            Err(error) => encrypting_pair_outcome(old(signer).secret_bytes(), secret@) == Err::<
                SignedKeyMaterial,
                PkiError,
            >(error),
        },
{
    let public = derive_encrypting_public_key(&secret);
    match sign_data(signer, &public) {
        Ok(signature) => Ok(EncryptingKeyPair::from_parts(secret, public, signature)),
        Err(error) => Err(error),
    }
}

/// A fresh encrypting pair, attested by `signer`.
///
/// A pair that is handed out is an encrypting pair whose signature validates
/// under the signer's verifying key over exactly its public bytes.
pub fn generate_encrypting_keypair(signer: &mut SigningKey) -> (outcome: Result<
    EncryptingKeyPair,
    PkiError,
>)
    ensures
        *final(signer) == *old(signer),
        outcome matches Ok(pair) ==> {
            &&& encrypting_pair_outcome(old(signer).secret_bytes(), pair@.secret) == Ok::<
                SignedKeyMaterial,
                PkiError,
            >(pair@)
            &&& pair@.is_encrypting_pair()
            &&& pair@.attested_by(old(signer).verifying_key_bytes())
        },
        outcome matches Err(error) ==> error == PkiError::SelfCheckFailed,
{
    let secret = fresh_encrypting_secret();
    encrypting_keypair_from_secret(signer, secret)
}

/// The journalist with the given secret halves, both pairs attested by
/// `intermediate`.
pub fn journalist_from_secrets(
    intermediate: &SignedKeyPair,
    signing_secret: [u8; 32],
    encrypting_secret: [u8; 32],
) -> (outcome: Result<Journalist, PkiError>)
    ensures
        match outcome {
            Ok(journalist) => journalist_outcome(
                intermediate@.secret,
                signing_secret@,
                encrypting_secret@,
            ) == Ok::<JournalistMaterial, PkiError>(journalist@),
            Err(error) => journalist_outcome(
                intermediate@.secret,
                signing_secret@,
                encrypting_secret@,
            ) == Err::<JournalistMaterial, PkiError>(error),
        },
{
    let signing = match signed_keypair_from_secret(
        &mut intermediate.as_signing_key(),
        signing_secret,
    ) {
        Ok(pair) => pair,
        Err(error) => {
            return Err(error);
        },
    };
    let encrypting = match encrypting_keypair_from_secret(
        &mut intermediate.as_signing_key(),
        encrypting_secret,
    ) {
        Ok(pair) => pair,
        Err(error) => {
            return Err(error);
        },
    };
    Ok(Journalist::from_parts(signing, encrypting))
}

/// Fresh keys for a journalist: a signing pair and an encrypting pair, both
/// attested by `intermediate`.
///
/// Both signatures of a journalist that is handed out validate under the
/// verifying key of the intermediate's secret.
pub fn generate_journalist(intermediate: &SignedKeyPair) -> (outcome: Result<Journalist, PkiError>)
    ensures
        outcome matches Ok(journalist) ==> {
            &&& journalist_outcome(
                intermediate@.secret,
                journalist@.signing.secret,
                journalist@.encrypting.secret,
            ) == Ok::<JournalistMaterial, PkiError>(journalist@)
            &&& journalist@.attested_by(ed25519_verifying_key(intermediate@.secret))
        },
        outcome matches Err(error) ==> error == PkiError::SelfCheckFailed,
{
    let signing_secret = fresh_signing_secret();
    let encrypting_secret = fresh_encrypting_secret();
    journalist_from_secrets(intermediate, signing_secret, encrypting_secret)
}

/// Reads the root pair from `store`.
pub fn load_root_key(store: &KeyStore) -> (outcome: Result<RootKeyPair, PkiError>)
    ensures
        match outcome {
            Ok(root) => stored_root(store@) == Ok::<KeyMaterial, PkiError>(root@),
            Err(error) => stored_root(store@) == Err::<KeyMaterial, PkiError>(error),
        },
{
    match store.get(KeyId::Root) {
        None => Err(PkiError::MissingRecord(KeyId::Root)),
        Some(record) => match decode_root(record.as_slice()) {
            Some(root) => Ok(root),
            None => Err(PkiError::MalformedRecord(KeyId::Root)),
        },
    }
}

/// Reads the intermediate pair from `store`.
pub fn load_intermediate_key(store: &KeyStore) -> (outcome: Result<SignedKeyPair, PkiError>)
    ensures
        match outcome {
            Ok(intermediate) => stored_intermediate(store@) == Ok::<SignedKeyMaterial, PkiError>(
                intermediate@,
            ),
            Err(error) => stored_intermediate(store@) == Err::<SignedKeyMaterial, PkiError>(error),
        },
{
    match store.get(KeyId::Intermediate) {
        None => Err(PkiError::MissingRecord(KeyId::Intermediate)),
        Some(record) => match decode_signed(record.as_slice()) {
            Some(intermediate) => Ok(intermediate),
            None => Err(PkiError::MalformedRecord(KeyId::Intermediate)),
        },
    }
}

/// Reads the journalist with the given number from `store`.
pub fn load_journalist(store: &KeyStore, number: u32) -> (outcome: Result<Journalist, PkiError>)
    ensures
        match outcome {
            Ok(journalist) => stored_journalist(store@, number) == Ok::<
                JournalistMaterial,
                PkiError,
            >(journalist@),
            Err(error) => stored_journalist(store@, number) == Err::<JournalistMaterial, PkiError>(
                error,
            ),
        },
{
    match store.get(KeyId::Journalist(number)) {
        None => Err(PkiError::MissingRecord(KeyId::Journalist(number))),
        Some(record) => match decode_journalist(record.as_slice()) {
            Some(journalist) => Ok(journalist),
            None => Err(PkiError::MalformedRecord(KeyId::Journalist(number))),
        },
    }
}

/// Checks `signature` over `contents` against the intermediate key that
/// `store` holds at the time of the call.
pub fn verify_intermediate_signature(store: &KeyStore, contents: &[u8], signature: &[u8]) -> (outcome:
    Result<(), PkiError>)
    ensures
        outcome == intermediate_check(store@, contents@, signature@),
{
    let intermediate = match load_intermediate_key(store) {
        Ok(intermediate) => intermediate,
        Err(error) => {
            return Err(error);
        },
    };
    intermediate.as_signing_key().verify(contents, signature)
}

/// Checks the intermediate pair that `store` holds against the root pair that
/// it holds.
pub fn verify_root_intermediate(store: &KeyStore) -> (outcome: Result<(), PkiError>)
    ensures
        outcome == root_intermediate_check(store@),
{
    let root = match load_root_key(store) {
        Ok(root) => root,
        Err(error) => {
            return Err(error);
        },
    };
    let intermediate = match load_intermediate_key(store) {
        Ok(intermediate) => intermediate,
        Err(error) => {
            return Err(error);
        },
    };
    intermediate.verify(&mut root.as_signing_key())
}

/// A pair that attestation hands out has the secret it was made of, is a
/// signing pair, and carries a signature that validates under the signer's
/// verifying key over exactly its public bytes.
pub proof fn lemma_signed_pair_is_attested(signer: Seq<u8>, secret: Seq<u8>)
    requires
        signed_pair_outcome(signer, secret) is Ok,
    ensures
        signed_pair_outcome(signer, secret)->Ok_0.secret == secret,
        signed_pair_outcome(signer, secret)->Ok_0.is_signing_pair(),
        signed_pair_outcome(signer, secret)->Ok_0.attested_by(ed25519_verifying_key(signer)),
{
}

/// Both pairs of a journalist that attestation hands out are of their kinds
/// and attested by the intermediate.
pub proof fn lemma_journalist_is_attested(
    intermediate: Seq<u8>,
    signing_secret: Seq<u8>,
    encrypting_secret: Seq<u8>,
)
    requires
        journalist_outcome(intermediate, signing_secret, encrypting_secret) is Ok,
    ensures
        journalist_outcome(intermediate, signing_secret, encrypting_secret)->Ok_0.attested_by(
            ed25519_verifying_key(intermediate),
        ),
{
}

/// The check of the stored intermediate against the stored root succeeds
/// exactly where both records parse and the intermediate's signature
/// validates under the verifying key of the root's secret over the
/// intermediate's public bytes.
pub proof fn lemma_root_intermediate_check(store: Map<KeyId, Seq<u8>>)
    ensures
        root_intermediate_check(store) is Ok <==> {
            &&& stored_root(store) matches Ok(root)
            &&& stored_intermediate(store) matches Ok(intermediate)
            &&& verifies(
                ed25519_verifying_key(root.secret),
                intermediate.public,
                intermediate.signature,
            )
        },
{
}

/// A store that holds the records of a root and of an intermediate whose
/// signature the root's secret made over the intermediate's public bytes
/// passes the check.
pub proof fn lemma_attested_intermediate_passes(
    store: Map<KeyId, Seq<u8>>,
    root: KeyMaterial,
    intermediate: SignedKeyMaterial,
)
    requires
        root.well_formed(),
        intermediate.well_formed(),
        store.dom().contains(KeyId::Root),
        store[KeyId::Root] == root_record(root),
        store.dom().contains(KeyId::Intermediate),
        store[KeyId::Intermediate] == signed_record(KIND_SIGNING, intermediate),
        signing_outcome(root.secret, intermediate.public) == Ok::<Seq<u8>, PkiError>(
            intermediate.signature,
        ),
    ensures
        root_intermediate_check(store) == Ok::<(), PkiError>(()),
{
    lemma_root_record_round_trip(root);
    lemma_signed_record_round_trip(KIND_SIGNING, intermediate);
}

/// A store in which the records of the root and of the intermediate have
/// changed places fails the check: neither record parses as the other.
pub proof fn lemma_swapped_records_rejected(
    store: Map<KeyId, Seq<u8>>,
    root: KeyMaterial,
    intermediate: SignedKeyMaterial,
)
    requires
        root.well_formed(),
        intermediate.well_formed(),
        store.dom().contains(KeyId::Root),
        store[KeyId::Root] == signed_record(KIND_SIGNING, intermediate),
        store.dom().contains(KeyId::Intermediate),
        store[KeyId::Intermediate] == root_record(root),
    ensures
        root_intermediate_check(store) == Err::<(), PkiError>(
            PkiError::MalformedRecord(KeyId::Root),
        ),
{
}

} // verus!
