//! The stored form of key material.
//!
//! One layout, with a version byte in front so that a later layout can be
//! told apart from it:
//!
//! ```text
//! root record        version  kind  secret[32]  public[32]
//! signed record      version  kind  secret[32]  public[32]  signature[64]
//! journalist record  signed record of the signing pair,
//!                    then signed record of the encrypting pair
//! ```
//!
//! The kind byte tells a root pair, a signed signing pair and a signed
//! encrypting pair apart, so that no record parses as a pair of another kind.
//! Secret bytes are stored as they are.

use vstd::prelude::*;
use crate::keys::{
    EncryptingKeyPair, Journalist, JournalistMaterial, KeyMaterial, RootKeyPair, SignedKeyMaterial,
    SignedKeyPair,
};

verus! {

/// The version of the layout that this module writes and reads.
pub const RECORD_VERSION: u8 = 1;

/// The kind byte of a root record.
pub const KIND_ROOT: u8 = 0;

/// The kind byte of the record of a signed signing pair.
pub const KIND_SIGNING: u8 = 1;

/// The kind byte of the record of a signed encrypting pair.
pub const KIND_ENCRYPTING: u8 = 2;

/// Length in bytes of a root record.
pub const ROOT_RECORD_LENGTH: usize = 66;

/// Length in bytes of a signed record.
pub const SIGNED_RECORD_LENGTH: usize = 130;

/// Length in bytes of a journalist record.
pub const JOURNALIST_RECORD_LENGTH: usize = 260;

/// The record of a root pair.
pub open spec fn root_record(material: KeyMaterial) -> Seq<u8> {
    seq![RECORD_VERSION, KIND_ROOT] + material.secret + material.public
}

/// The record of a signed pair of the given kind.
pub open spec fn signed_record(kind: u8, material: SignedKeyMaterial) -> Seq<u8> {
    seq![RECORD_VERSION, kind] + material.secret + material.public + material.signature
}

/// The record of a journalist.
pub open spec fn journalist_record(material: JournalistMaterial) -> Seq<u8> {
    signed_record(KIND_SIGNING, material.signing) + signed_record(
        KIND_ENCRYPTING,
        material.encrypting,
    )
}

/// The root pair that `bytes` is the record of, if it is one.
pub open spec fn parse_root_record(bytes: Seq<u8>) -> Option<KeyMaterial> {
    if bytes.len() == ROOT_RECORD_LENGTH && bytes[0] == RECORD_VERSION && bytes[1] == KIND_ROOT {
        Some(KeyMaterial { secret: bytes.subrange(2, 34), public: bytes.subrange(34, 66) })
    } else {
        None
    }
}

/// The signed pair of the given kind that `bytes` is the record of, if it is
/// one.
pub open spec fn parse_signed_record(kind: u8, bytes: Seq<u8>) -> Option<SignedKeyMaterial> {
    if bytes.len() == SIGNED_RECORD_LENGTH && bytes[0] == RECORD_VERSION && bytes[1] == kind {
        Some(
            SignedKeyMaterial {
                secret: bytes.subrange(2, 34),
                public: bytes.subrange(34, 66),
                signature: bytes.subrange(66, 130),
            },
        )
    } else {
        None
    }
}

/// The journalist that `bytes` is the record of, if it is one.
pub open spec fn parse_journalist_record(bytes: Seq<u8>) -> Option<JournalistMaterial> {
    if bytes.len() == JOURNALIST_RECORD_LENGTH {
        match (
            parse_signed_record(KIND_SIGNING, bytes.subrange(0, 130)),
            parse_signed_record(KIND_ENCRYPTING, bytes.subrange(130, 260)),
        ) {
            (Some(signing), Some(encrypting)) => Some(JournalistMaterial { signing, encrypting }),
            _ => None,
        }
    } else {
        None
    }
}

/// Parsing the record of a well-formed root pair gives the pair back.
pub proof fn lemma_root_record_round_trip(material: KeyMaterial)
    requires
        material.well_formed(),
    ensures
        parse_root_record(root_record(material)) == Some(material),
{
    let bytes = root_record(material);
    assert(bytes.subrange(2, 34) =~= material.secret);
    assert(bytes.subrange(34, 66) =~= material.public);
}

/// A root record is the only encoding of the pair it parses to: writing that
/// pair gives the same bytes.
pub proof fn lemma_root_record_canonical(bytes: Seq<u8>)
    requires
        parse_root_record(bytes) is Some,
    ensures
        parse_root_record(bytes)->0.well_formed(),
        root_record(parse_root_record(bytes)->0) == bytes,
{
    assert(root_record(parse_root_record(bytes)->0) =~= bytes);
}

/// Parsing the record of a well-formed signed pair, as the kind it was
/// written as, gives the pair back.
pub proof fn lemma_signed_record_round_trip(kind: u8, material: SignedKeyMaterial)
    requires
        material.well_formed(),
    ensures
        parse_signed_record(kind, signed_record(kind, material)) == Some(material),
{
    let bytes = signed_record(kind, material);
    assert(bytes.subrange(2, 34) =~= material.secret);
    assert(bytes.subrange(34, 66) =~= material.public);
    assert(bytes.subrange(66, 130) =~= material.signature);
}

/// A signed record is the only encoding of the pair it parses to.
pub proof fn lemma_signed_record_canonical(kind: u8, bytes: Seq<u8>)
    requires
        parse_signed_record(kind, bytes) is Some,
    ensures
        parse_signed_record(kind, bytes)->0.well_formed(),
        signed_record(kind, parse_signed_record(kind, bytes)->0) == bytes,
{
    assert(signed_record(kind, parse_signed_record(kind, bytes)->0) =~= bytes);
}

/// A record written as one kind does not parse as another.
pub proof fn lemma_signed_record_kinds_apart(written: u8, read: u8, material: SignedKeyMaterial)
    requires
        written != read,
    ensures
        parse_signed_record(read, signed_record(written, material)) is None,
{
}

/// Parsing the record of a journalist with well-formed pairs gives the
/// journalist back.
pub proof fn lemma_journalist_record_round_trip(material: JournalistMaterial)
    requires
        material.signing.well_formed(),
        material.encrypting.well_formed(),
    ensures
        parse_journalist_record(journalist_record(material)) == Some(material),
{
    let bytes = journalist_record(material);
    assert(bytes.subrange(0, 130) =~= signed_record(KIND_SIGNING, material.signing));
    assert(bytes.subrange(130, 260) =~= signed_record(KIND_ENCRYPTING, material.encrypting));
    lemma_signed_record_round_trip(KIND_SIGNING, material.signing);
    lemma_signed_record_round_trip(KIND_ENCRYPTING, material.encrypting);
}

/// A journalist record is the only encoding of the journalist it parses to.
pub proof fn lemma_journalist_record_canonical(bytes: Seq<u8>)
    requires
        parse_journalist_record(bytes) is Some,
    ensures
        journalist_record(parse_journalist_record(bytes)->0) == bytes,
{
    lemma_signed_record_canonical(KIND_SIGNING, bytes.subrange(0, 130));
    lemma_signed_record_canonical(KIND_ENCRYPTING, bytes.subrange(130, 260));
    assert(bytes.subrange(0, 130) + bytes.subrange(130, 260) =~= bytes);
}

/// Copies `N` bytes of `bytes`, from `start` on.
fn read_array<const N: usize>(bytes: &[u8], start: usize) -> (array: [u8; N])
    requires
        start + N <= bytes@.len(),
    ensures
        array@ == bytes@.subrange(start as int, start + N),
{
    let length = bytes.len();
    let mut array = [0u8; N];
    let mut i: usize = 0;
    while i < N
        invariant
            i <= N,
            start + N <= length,
            length == bytes@.len(),
            forall|j: int| 0 <= j < i ==> array@[j] == bytes@[start + j],
        decreases N - i,
    {
        array[i] = bytes[start + i];
        i += 1;
    }
    assert(array@ =~= bytes@.subrange(start as int, start + N));
    array
}

/// Writes a signed record of the given kind.
fn write_signed(kind: u8, secret: &[u8; 32], public: &[u8; 32], signature: &[u8; 64]) -> (record: Vec<u8>)
    ensures
        record@ == signed_record(
            kind,
            SignedKeyMaterial { secret: secret@, public: public@, signature: signature@ },
        ),
{
    let mut record: Vec<u8> = Vec::with_capacity(SIGNED_RECORD_LENGTH);
    record.push(RECORD_VERSION);
    record.push(kind);
    record.extend_from_slice(secret);
    record.extend_from_slice(public);
    record.extend_from_slice(signature);
    assert(record@ =~= seq![RECORD_VERSION, kind] + secret@ + public@ + signature@);
    record
}

/// Writes the record of a root pair.
pub fn encode_root(pair: &RootKeyPair) -> (record: Vec<u8>)
    ensures
        record@ == root_record(pair@),
        parse_root_record(record@) == Some(pair@),
{
    let secret = pair.secret_key();
    let public = pair.public_key();
    let mut record: Vec<u8> = Vec::with_capacity(ROOT_RECORD_LENGTH);
    record.push(RECORD_VERSION);
    record.push(KIND_ROOT);
    record.extend_from_slice(&secret);
    record.extend_from_slice(&public);
    proof {
        assert(record@ =~= root_record(pair@));
        pair.lemma_well_formed();
        lemma_root_record_round_trip(pair@);
    }
    record
}

/// Reads the record of a root pair. It succeeds exactly on the bytes that
/// `encode_root` writes.
pub fn decode_root(bytes: &[u8]) -> (pair: Option<RootKeyPair>)
    ensures
        match pair {
            Some(pair) => parse_root_record(bytes@) == Some(pair@),
            None => parse_root_record(bytes@) is None,
        },
{
    if bytes.len() != ROOT_RECORD_LENGTH || bytes[0] != RECORD_VERSION || bytes[1] != KIND_ROOT {
        return None;
    }
    let secret: [u8; 32] = read_array(bytes, 2);
    let public: [u8; 32] = read_array(bytes, 34);
    Some(RootKeyPair::from_parts(secret, public))
}

/// Writes the record of a signed signing pair.
pub fn encode_signed(pair: &SignedKeyPair) -> (record: Vec<u8>)
    ensures
        record@ == signed_record(KIND_SIGNING, pair@),
        parse_signed_record(KIND_SIGNING, record@) == Some(pair@),
{
    proof {
        pair.lemma_well_formed();
        lemma_signed_record_round_trip(KIND_SIGNING, pair@);
    }
    write_signed(KIND_SIGNING, &pair.secret_key(), &pair.public_key(), &pair.signature())
}

/// Reads the record of a signed signing pair. It succeeds exactly on the
/// bytes that `encode_signed` writes.
pub fn decode_signed(bytes: &[u8]) -> (pair: Option<SignedKeyPair>)
    ensures
        match pair {
            Some(pair) => parse_signed_record(KIND_SIGNING, bytes@) == Some(pair@),
            None => parse_signed_record(KIND_SIGNING, bytes@) is None,
        },
{
    if bytes.len() != SIGNED_RECORD_LENGTH || bytes[0] != RECORD_VERSION || bytes[1]
        != KIND_SIGNING {
        return None;
    }
    let secret: [u8; 32] = read_array(bytes, 2);
    let public: [u8; 32] = read_array(bytes, 34);
    let signature: [u8; 64] = read_array(bytes, 66);
    Some(SignedKeyPair::from_parts(secret, public, signature))
}

/// Writes the record of a signed encrypting pair.
pub fn encode_encrypting(pair: &EncryptingKeyPair) -> (record: Vec<u8>)
    ensures
        record@ == signed_record(KIND_ENCRYPTING, pair@),
        parse_signed_record(KIND_ENCRYPTING, record@) == Some(pair@),
{
    proof {
        pair.lemma_well_formed();
        lemma_signed_record_round_trip(KIND_ENCRYPTING, pair@);
    }
    write_signed(KIND_ENCRYPTING, &pair.secret_key(), &pair.public_key(), &pair.signature())
}

/// Reads the record of a signed encrypting pair. It succeeds exactly on the
/// bytes that `encode_encrypting` writes.
pub fn decode_encrypting(bytes: &[u8]) -> (pair: Option<EncryptingKeyPair>)
    ensures
        match pair {
            Some(pair) => parse_signed_record(KIND_ENCRYPTING, bytes@) == Some(pair@),
            None => parse_signed_record(KIND_ENCRYPTING, bytes@) is None,
        },
{
    if bytes.len() != SIGNED_RECORD_LENGTH || bytes[0] != RECORD_VERSION || bytes[1]
        != KIND_ENCRYPTING {
        return None;
    }
    let secret: [u8; 32] = read_array(bytes, 2);
    let public: [u8; 32] = read_array(bytes, 34);
    let signature: [u8; 64] = read_array(bytes, 66);
    Some(EncryptingKeyPair::from_parts(secret, public, signature))
}

/// Writes the record of a journalist.
pub fn encode_journalist(journalist: &Journalist) -> (record: Vec<u8>)
    ensures
        record@ == journalist_record(journalist@),
        parse_journalist_record(record@) == Some(journalist@),
{
    let mut record = encode_signed(journalist.signing());
    let encrypting = encode_encrypting(journalist.encrypting());
    record.extend_from_slice(encrypting.as_slice());
    proof {
        assert(record@ =~= journalist_record(journalist@));
        journalist.lemma_well_formed();
        lemma_journalist_record_round_trip(journalist@);
    }
    record
}

/// Reads the record of a journalist. It succeeds exactly on the bytes that
/// `encode_journalist` writes.
pub fn decode_journalist(bytes: &[u8]) -> (journalist: Option<Journalist>)
    ensures
        match journalist {
            Some(journalist) => parse_journalist_record(bytes@) == Some(journalist@),
            None => parse_journalist_record(bytes@) is None,
        },
{
    if bytes.len() != JOURNALIST_RECORD_LENGTH {
        return None;
    }
    let signing = decode_signed(vstd::slice::slice_subrange(bytes, 0, SIGNED_RECORD_LENGTH));
    let encrypting = decode_encrypting(
        vstd::slice::slice_subrange(bytes, SIGNED_RECORD_LENGTH, JOURNALIST_RECORD_LENGTH),
    );
    match (signing, encrypting) {
        (Some(signing), Some(encrypting)) => Some(Journalist::from_parts(signing, encrypting)),
        _ => None,
    }
}

} // verus!
