//! The key material of each principal.
//!
//! A key pair is 32 secret bytes and 32 public bytes. Signing pairs and
//! encrypting pairs are distinct types and cannot stand in for one another.
//! Every pair but the root's carries the 64-byte signature that its parent
//! made over exactly its public bytes.

use vstd::prelude::*;
use vstd::slice::slice_to_vec;
use crate::crypto::{ed25519_verifying_key, x25519_public_key, KEY_LENGTH, SIGNATURE_LENGTH};
use crate::error::PkiError;
use crate::signing::{verdict, verifies, SigningKey};

verus! {

/// The bytes of a key pair without a signature.
pub struct KeyMaterial {
    pub secret: Seq<u8>,
    pub public: Seq<u8>,
}

/// The bytes of a key pair with the signature over its public half.
pub struct SignedKeyMaterial {
    pub secret: Seq<u8>,
    pub public: Seq<u8>,
    pub signature: Seq<u8>,
}

/// The bytes of a journalist's two key pairs.
pub struct JournalistMaterial {
    pub signing: SignedKeyMaterial,
    pub encrypting: SignedKeyMaterial,
}

/// The bytes of a journalist's public keys and their signatures.
pub struct PublicJournalistView {
    pub signing_key: Seq<u8>,
    pub signing_signature: Seq<u8>,
    pub encrypting_key: Seq<u8>,
    pub encrypting_signature: Seq<u8>,
}

impl KeyMaterial {
    /// Both halves have the length of a key.
    pub open spec fn well_formed(self) -> bool {
        self.secret.len() == KEY_LENGTH && self.public.len() == KEY_LENGTH
    }

    /// The public half is the verifying key of the secret half.
    pub open spec fn is_signing_pair(self) -> bool {
        self.public == ed25519_verifying_key(self.secret)
    }
}

impl SignedKeyMaterial {
    /// Both halves have the length of a key, and the signature that of a
    /// signature.
    pub open spec fn well_formed(self) -> bool {
        &&& self.secret.len() == KEY_LENGTH
        &&& self.public.len() == KEY_LENGTH
        &&& self.signature.len() == SIGNATURE_LENGTH
    }

    /// The public half is the verifying key of the secret half.
    pub open spec fn is_signing_pair(self) -> bool {
        self.public == ed25519_verifying_key(self.secret)
    }

    /// The public half is the key-exchange public key of the secret half.
    pub open spec fn is_encrypting_pair(self) -> bool {
        self.public == x25519_public_key(self.secret)
    }

    /// The signature validates under `parent` over exactly the public half.
    pub open spec fn attested_by(self, parent: Seq<u8>) -> bool {
        verifies(parent, self.public, self.signature)
    }
}

impl JournalistMaterial {
    /// Both pairs are of their kind and both are attested by `parent`.
    pub open spec fn attested_by(self, parent: Seq<u8>) -> bool {
        &&& self.signing.is_signing_pair()
        &&& self.signing.attested_by(parent)
        &&& self.encrypting.is_encrypting_pair()
        &&& self.encrypting.attested_by(parent)
    }

    /// The public keys and signatures of this journalist.
    pub open spec fn public(self) -> PublicJournalistView {
        PublicJournalistView {
            signing_key: self.signing.public,
            signing_signature: self.signing.signature,
            encrypting_key: self.encrypting.public,
            encrypting_signature: self.encrypting.signature,
        }
    }
}

impl PublicJournalistView {
    /// Both keys have the length of a key, and both signatures that of a
    /// signature.
    pub open spec fn well_formed(self) -> bool {
        &&& self.signing_key.len() == KEY_LENGTH
        &&& self.signing_signature.len() == SIGNATURE_LENGTH
        &&& self.encrypting_key.len() == KEY_LENGTH
        &&& self.encrypting_signature.len() == SIGNATURE_LENGTH
    }

    /// Both signatures validate under `parent`, each over exactly its key.
    pub open spec fn attested_by(self, parent: Seq<u8>) -> bool {
        &&& verifies(parent, self.signing_key, self.signing_signature)
        &&& verifies(parent, self.encrypting_key, self.encrypting_signature)
    }
}

/// The trust anchor: a signing key pair without a signature.
pub struct RootKeyPair {
    secret: [u8; 32],
    public: [u8; 32],
}

impl View for RootKeyPair {
    type V = KeyMaterial;

    closed spec fn view(&self) -> KeyMaterial {
        KeyMaterial { secret: self.secret@, public: self.public@ }
    }
}

impl RootKeyPair {
    /// The bytes of every root key pair are well formed.
    pub proof fn lemma_well_formed(&self)
        ensures
            self@.well_formed(),
    {
    }

    /// The pair with the given halves, as they are.
    pub fn from_parts(secret: [u8; 32], public: [u8; 32]) -> (pair: RootKeyPair)
        ensures
            pair@ == (KeyMaterial { secret: secret@, public: public@ }),
    {
        RootKeyPair { secret, public }
    }

    /// The secret half.
    pub fn secret_key(&self) -> (secret: [u8; 32])
        ensures
            secret@ == self@.secret,
    {
        self.secret
    }

    /// The public half.
    pub fn public_key(&self) -> (public: [u8; 32])
        ensures
            public@ == self@.public,
    {
        self.public
    }

    /// The key that signs with this pair's secret half.
    pub fn as_signing_key(&self) -> (key: SigningKey)
        ensures
            key.secret_bytes() == self@.secret,
    {
        SigningKey::from_bytes(&self.secret)
    }
}

/// A signing key pair with its parent's signature over the public half.
pub struct SignedKeyPair {
    secret: [u8; 32],
    public: [u8; 32],
    signature: [u8; 64],
}

impl View for SignedKeyPair {
    type V = SignedKeyMaterial;

    closed spec fn view(&self) -> SignedKeyMaterial {
        SignedKeyMaterial { secret: self.secret@, public: self.public@, signature: self.signature@ }
    }
}

impl SignedKeyPair {
    /// The bytes of every signed key pair are well formed.
    pub proof fn lemma_well_formed(&self)
        ensures
            self@.well_formed(),
    {
    }

    /// The pair with the given halves and signature, as they are.
    pub fn from_parts(secret: [u8; 32], public: [u8; 32], signature: [u8; 64]) -> (pair: SignedKeyPair)
        ensures
            pair@ == (SignedKeyMaterial { secret: secret@, public: public@, signature: signature@ }),
    {
        SignedKeyPair { secret, public, signature }
    }

    /// The secret half.
    pub fn secret_key(&self) -> (secret: [u8; 32])
        ensures
            secret@ == self@.secret,
    {
        self.secret
    }

    /// The public half.
    pub fn public_key(&self) -> (public: [u8; 32])
        ensures
            public@ == self@.public,
    {
        self.public
    }

    /// The parent's signature over the public half.
    pub fn signature(&self) -> (signature: [u8; 64])
        ensures
            signature@ == self@.signature,
    {
        self.signature
    }

    /// The key that signs with this pair's secret half.
    pub fn as_signing_key(&self) -> (key: SigningKey)
        ensures
            key.secret_bytes() == self@.secret,
    {
        SigningKey::from_bytes(&self.secret)
    }

    /// Checks this pair's signature against the verifying key of `signer`:
    /// it succeeds exactly where the signature validates under that key over
    /// this pair's public half.
    pub fn verify(&self, signer: &mut SigningKey) -> (outcome: Result<(), PkiError>)
        ensures
            *final(signer) == *old(signer),
            outcome == verdict(self@.attested_by(old(signer).verifying_key_bytes())),
    {
        signer.verify(&self.public, &self.signature)
    }
}

/// A key-exchange key pair with the signature that a signing key made over
/// the public half.
pub struct EncryptingKeyPair {
    secret: [u8; 32],
    public: [u8; 32],
    signature: [u8; 64],
}

impl View for EncryptingKeyPair {
    type V = SignedKeyMaterial;

    closed spec fn view(&self) -> SignedKeyMaterial {
        SignedKeyMaterial { secret: self.secret@, public: self.public@, signature: self.signature@ }
    }
}

impl EncryptingKeyPair {
    /// The bytes of every encrypting key pair are well formed.
    pub proof fn lemma_well_formed(&self)
        ensures
            self@.well_formed(),
    {
    }

    /// The pair with the given halves and signature, as they are.
    pub fn from_parts(secret: [u8; 32], public: [u8; 32], signature: [u8; 64]) -> (pair: EncryptingKeyPair)
        ensures
            pair@ == (SignedKeyMaterial { secret: secret@, public: public@, signature: signature@ }),
    {
        EncryptingKeyPair { secret, public, signature }
    }

    /// The secret half.
    pub fn secret_key(&self) -> (secret: [u8; 32])
        ensures
            secret@ == self@.secret,
    {
        self.secret
    }

    /// The public half.
    pub fn public_key(&self) -> (public: [u8; 32])
        ensures
            public@ == self@.public,
    {
        self.public
    }

    /// The signature over the public half.
    pub fn signature(&self) -> (signature: [u8; 64])
        ensures
            signature@ == self@.signature,
    {
        self.signature
    }
}

/// A journalist: a signing key pair and an encrypting key pair, both attested
/// by the intermediate key.
pub struct Journalist {
    signing: SignedKeyPair,
    encrypting: EncryptingKeyPair,
}

impl View for Journalist {
    type V = JournalistMaterial;

    closed spec fn view(&self) -> JournalistMaterial {
        JournalistMaterial { signing: self.signing@, encrypting: self.encrypting@ }
    }
}

impl Journalist {
    /// The bytes of every journalist's pairs are well formed.
    pub proof fn lemma_well_formed(&self)
        ensures
            self@.signing.well_formed(),
            self@.encrypting.well_formed(),
    {
        self.signing.lemma_well_formed();
        self.encrypting.lemma_well_formed();
    }

    /// The journalist with the given pairs, as they are.
    pub fn from_parts(signing: SignedKeyPair, encrypting: EncryptingKeyPair) -> (journalist: Journalist)
        ensures
            journalist@ == (JournalistMaterial { signing: signing@, encrypting: encrypting@ }),
    {
        Journalist { signing, encrypting }
    }

    /// The signing key pair.
    pub fn signing(&self) -> (pair: &SignedKeyPair)
        ensures
            pair@ == self@.signing,
    {
        &self.signing
    }

    /// The encrypting key pair.
    pub fn encrypting(&self) -> (pair: &EncryptingKeyPair)
        ensures
            pair@ == self@.encrypting,
    {
        &self.encrypting
    }

    /// The part of this journalist that may leave the key store: the two
    /// public keys and their signatures, without any secret.
    pub fn to_public(&self) -> (public: PublicJournalist)
        ensures
            public@ == self@.public(),
            public@.well_formed(),
    {
        proof {
            self.lemma_well_formed();
        }
        PublicJournalist {
            signing_key: self.signing.public_key(),
            signing_signature: slice_to_vec(self.signing.signature().as_slice()),
            encrypting_key: self.encrypting.public_key(),
            encrypting_signature: slice_to_vec(self.encrypting.signature().as_slice()),
        }
    }
}

/// The wire form of a journalist: public keys and signatures only.
#[derive(Debug, PartialEq, Eq)]
pub struct PublicJournalist {
    pub signing_key: [u8; 32],
    pub signing_signature: Vec<u8>,
    pub encrypting_key: [u8; 32],
    pub encrypting_signature: Vec<u8>,
}

impl View for PublicJournalist {
    type V = PublicJournalistView;

    open spec fn view(&self) -> PublicJournalistView {
        PublicJournalistView {
            signing_key: self.signing_key@,
            signing_signature: self.signing_signature@,
            encrypting_key: self.encrypting_key@,
            encrypting_signature: self.encrypting_signature@,
        }
    }
}

} // verus!
