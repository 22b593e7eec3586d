use base64::prelude::BASE64_STANDARD;
use base64::Engine;
use securedrop_protocol::error::{ErrorKind, PkiError};
use securedrop_protocol::keys::{Journalist, PublicJournalist, SignedKeyPair};
use securedrop_protocol::pki::{generate_journalist, generate_root_keypair, generate_signed_keypair};
use securedrop_protocol::record::encode_signed;
use securedrop_protocol::store::{KeyId, KeyStore};
use securedrop_protocol::submission::{
    add_journalist, assemble_submission, decode_submission, index, key_from_decoded,
    post_journalists, response_for, signature_from_decoded, validate_journalist,
    AddJournalistRequest, SubmissionField,
};

fn intermediate() -> SignedKeyPair {
    let root = generate_root_keypair();
    generate_signed_keypair(&mut root.as_signing_key()).unwrap()
}

fn store_with(intermediate: &SignedKeyPair) -> KeyStore {
    let mut store = KeyStore::new();
    store.put(KeyId::Intermediate, encode_signed(intermediate));
    store
}

fn request_of(journalist: &PublicJournalist) -> AddJournalistRequest {
    AddJournalistRequest {
        journalist_key: BASE64_STANDARD.encode(journalist.signing_key),
        journalist_sig: BASE64_STANDARD.encode(&journalist.signing_signature),
        journalist_fetching_key: BASE64_STANDARD.encode(journalist.encrypting_key),
        journalist_fetching_sig: BASE64_STANDARD.encode(&journalist.encrypting_signature),
    }
}

fn request_for(journalist: &Journalist) -> AddJournalistRequest {
    request_of(&journalist.to_public())
}

fn copy_of(request: &AddJournalistRequest) -> AddJournalistRequest {
    AddJournalistRequest {
        journalist_key: request.journalist_key.clone(),
        journalist_sig: request.journalist_sig.clone(),
        journalist_fetching_key: request.journalist_fetching_key.clone(),
        journalist_fetching_sig: request.journalist_fetching_sig.clone(),
    }
}

#[test]
fn liveness_probe_answers_ok() {
    assert_eq!(index().status, "OK");
}

#[test]
fn public_projection_holds_no_secret() {
    let intermediate = intermediate();
    let journalist = generate_journalist(&intermediate).unwrap();
    let public = journalist.to_public();
    assert_eq!(public.signing_key, journalist.signing().public_key());
    assert_eq!(public.signing_signature, journalist.signing().signature().to_vec());
    assert_eq!(public.encrypting_key, journalist.encrypting().public_key());
    assert_eq!(public.encrypting_signature, journalist.encrypting().signature().to_vec());
    assert_eq!(public.signing_signature.len(), 64);
    assert_eq!(public.encrypting_signature.len(), 64);
}

#[test]
fn base64_text_is_decoded() {
    let request = AddJournalistRequest {
        journalist_key: "AAECAwQFBgcICQoLDA0ODxAREhMUFRYXGBkaGxwdHh8=".to_string(),
        journalist_sig: BASE64_STANDARD.encode([0xffu8; 64]),
        journalist_fetching_key: BASE64_STANDARD.encode([7u8; 32]),
        journalist_fetching_sig: BASE64_STANDARD.encode([9u8; 64]),
    };
    let journalist = decode_submission(&request).unwrap();
    let mut expected = [0u8; 32];
    for (i, byte) in expected.iter_mut().enumerate() {
        *byte = i as u8;
    }
    assert_eq!(journalist.signing_key, expected);
    assert_eq!(journalist.signing_signature, vec![0xffu8; 64]);
    assert_eq!(journalist.encrypting_key, [7u8; 32]);
    assert_eq!(journalist.encrypting_signature, vec![9u8; 64]);
}

#[test]
fn correctly_signed_submission_is_accepted() {
    let intermediate = intermediate();
    let store = store_with(&intermediate);
    let journalist = generate_journalist(&intermediate).unwrap();
    let accepted = add_journalist(&store, request_for(&journalist));
    assert_eq!(accepted, Ok(journalist.to_public()));
    assert_eq!(response_for(&accepted).status, "OK");
    assert_eq!(post_journalists(&store, request_for(&journalist)).status, "OK");
    assert_eq!(validate_journalist(&intermediate.public_key(), &journalist.to_public()), Ok(()));
}

#[test]
fn submission_signed_by_another_intermediate_is_rejected() {
    let current = intermediate();
    let other = intermediate();
    let store = store_with(&current);
    let ours = generate_journalist(&current).unwrap().to_public();
    let theirs = generate_journalist(&other).unwrap().to_public();
    assert_eq!(
        add_journalist(&store, request_of(&theirs)),
        Err(PkiError::SignatureInvalid)
    );
    assert_eq!(post_journalists(&store, request_of(&theirs)).status, "KO");
    let signing_from_other = PublicJournalist {
        signing_key: theirs.signing_key,
        signing_signature: theirs.signing_signature.clone(),
        encrypting_key: ours.encrypting_key,
        encrypting_signature: ours.encrypting_signature.clone(),
    };
    assert_eq!(post_journalists(&store, request_of(&signing_from_other)).status, "KO");
    let encrypting_from_other = PublicJournalist {
        signing_key: ours.signing_key,
        signing_signature: ours.signing_signature.clone(),
        encrypting_key: theirs.encrypting_key,
        encrypting_signature: theirs.encrypting_signature.clone(),
    };
    assert_eq!(
        add_journalist(&store, request_of(&encrypting_from_other)),
        Err(PkiError::SignatureInvalid)
    );
    assert_eq!(
        validate_journalist(&current.public_key(), &encrypting_from_other),
        Err(PkiError::SignatureInvalid)
    );
    assert_eq!(post_journalists(&store, request_of(&ours)).status, "OK");
}

#[test]
fn signatures_that_changed_places_are_rejected() {
    let intermediate = intermediate();
    let store = store_with(&intermediate);
    let public = generate_journalist(&intermediate).unwrap().to_public();
    let crossed = PublicJournalist {
        signing_key: public.signing_key,
        signing_signature: public.encrypting_signature.clone(),
        encrypting_key: public.encrypting_key,
        encrypting_signature: public.signing_signature.clone(),
    };
    assert_eq!(add_journalist(&store, request_of(&crossed)), Err(PkiError::SignatureInvalid));
}

#[test]
fn flipped_bit_in_a_key_is_rejected() {
    let intermediate = intermediate();
    let store = store_with(&intermediate);
    let journalist = generate_journalist(&intermediate).unwrap();
    for i in 0..32 {
        let mut public = journalist.to_public();
        public.signing_key[i] ^= 1 << (i % 8);
        assert_eq!(add_journalist(&store, request_of(&public)), Err(PkiError::SignatureInvalid));
        let mut public = journalist.to_public();
        public.encrypting_key[i] ^= 1 << (i % 8);
        assert_eq!(post_journalists(&store, request_of(&public)).status, "KO");
    }
}

#[test]
fn flipped_bit_in_a_signature_is_rejected() {
    let intermediate = intermediate();
    let store = store_with(&intermediate);
    let journalist = generate_journalist(&intermediate).unwrap();
    for i in 0..64 {
        let mut public = journalist.to_public();
        public.signing_signature[i] ^= 1 << (i % 8);
        assert_eq!(post_journalists(&store, request_of(&public)).status, "KO");
        let mut public = journalist.to_public();
        public.encrypting_signature[i] ^= 1 << (i % 8);
        assert_eq!(add_journalist(&store, request_of(&public)), Err(PkiError::SignatureInvalid));
    }
}

#[test]
fn tampered_signing_key_with_the_untouched_signature_is_rejected() {
    let root = generate_root_keypair();
    let intermediate = generate_signed_keypair(&mut root.as_signing_key()).unwrap();
    let store = store_with(&intermediate);
    let journalist1 = generate_journalist(&intermediate).unwrap();
    let mut public = journalist1.signing().public_key();
    public[0] ^= 0x01;
    let tampered = Journalist::from_parts(
        SignedKeyPair::from_parts(
            journalist1.signing().secret_key(),
            public,
            journalist1.signing().signature(),
        ),
        securedrop_protocol::keys::EncryptingKeyPair::from_parts(
            journalist1.encrypting().secret_key(),
            journalist1.encrypting().public_key(),
            journalist1.encrypting().signature(),
        ),
    );
    assert_eq!(add_journalist(&store, request_for(&tampered)), Err(PkiError::SignatureInvalid));
    assert_eq!(post_journalists(&store, request_for(&tampered)).status, "KO");
    assert_eq!(post_journalists(&store, request_for(&journalist1)).status, "OK");
}

#[test]
fn text_that_is_not_base64_is_rejected_field_by_field() {
    let intermediate = intermediate();
    let store = store_with(&intermediate);
    let good = request_for(&generate_journalist(&intermediate).unwrap());
    for bad in ["not base64!", "AAA", "AA=A", "====", "\u{00e9}"] {
        let mut request = copy_of(&good);
        request.journalist_key = bad.to_string();
        assert_eq!(
            add_journalist(&store, request),
            Err(PkiError::InvalidEncoding(SubmissionField::JournalistKey))
        );
        let mut request = copy_of(&good);
        request.journalist_sig = bad.to_string();
        assert_eq!(
            add_journalist(&store, request),
            Err(PkiError::InvalidEncoding(SubmissionField::JournalistSig))
        );
        let mut request = copy_of(&good);
        request.journalist_fetching_key = bad.to_string();
        assert_eq!(
            add_journalist(&store, request),
            Err(PkiError::InvalidEncoding(SubmissionField::JournalistFetchingKey))
        );
        let mut request = copy_of(&good);
        request.journalist_fetching_sig = bad.to_string();
        assert_eq!(
            decode_submission(&request),
            Err(PkiError::InvalidEncoding(SubmissionField::JournalistFetchingSig))
        );
        assert_eq!(post_journalists(&store, request).status, "KO");
    }
}

#[test]
fn field_of_wrong_length_is_rejected() {
    let intermediate = intermediate();
    let store = store_with(&intermediate);
    let good = request_for(&generate_journalist(&intermediate).unwrap());
    for length in [0usize, 1, 31, 33, 64] {
        let mut request = copy_of(&good);
        request.journalist_key = BASE64_STANDARD.encode(vec![1u8; length]);
        assert_eq!(
            add_journalist(&store, request),
            Err(PkiError::InvalidLength(SubmissionField::JournalistKey))
        );
        let mut request = copy_of(&good);
        request.journalist_fetching_key = BASE64_STANDARD.encode(vec![1u8; length]);
        assert_eq!(
            add_journalist(&store, request),
            Err(PkiError::InvalidLength(SubmissionField::JournalistFetchingKey))
        );
    }
    for length in [0usize, 32, 63, 65, 128] {
        let mut request = copy_of(&good);
        request.journalist_sig = BASE64_STANDARD.encode(vec![1u8; length]);
        assert_eq!(
            add_journalist(&store, request),
            Err(PkiError::InvalidLength(SubmissionField::JournalistSig))
        );
        let mut request = copy_of(&good);
        request.journalist_fetching_sig = BASE64_STANDARD.encode(vec![1u8; length]);
        assert_eq!(
            add_journalist(&store, request),
            Err(PkiError::InvalidLength(SubmissionField::JournalistFetchingSig))
        );
    }
}

#[test]
fn first_malformed_field_decides() {
    let request = AddJournalistRequest {
        journalist_key: BASE64_STANDARD.encode([0u8; 31]),
        journalist_sig: "?".to_string(),
        journalist_fetching_key: "?".to_string(),
        journalist_fetching_sig: String::new(),
    };
    assert_eq!(
        decode_submission(&request),
        Err(PkiError::InvalidLength(SubmissionField::JournalistKey))
    );
    let request = AddJournalistRequest {
        journalist_key: BASE64_STANDARD.encode([0u8; 32]),
        journalist_sig: "?".to_string(),
        journalist_fetching_key: BASE64_STANDARD.encode([0u8; 2]),
        journalist_fetching_sig: String::new(),
    };
    assert_eq!(
        decode_submission(&request),
        Err(PkiError::InvalidEncoding(SubmissionField::JournalistSig))
    );
}

#[test]
fn malformed_submission_is_rejected_before_any_check_of_a_signature() {
    let malformed = AddJournalistRequest {
        journalist_key: BASE64_STANDARD.encode([0u8; 32]),
        journalist_sig: BASE64_STANDARD.encode([0u8; 64]),
        journalist_fetching_key: BASE64_STANDARD.encode([0u8; 32]),
        journalist_fetching_sig: BASE64_STANDARD.encode([0u8; 63]),
    };
    let expected = Err(PkiError::InvalidLength(SubmissionField::JournalistFetchingSig));
    let empty = KeyStore::new();
    assert_eq!(add_journalist(&empty, copy_of(&malformed)), expected);
    let mut broken = KeyStore::new();
    broken.put(KeyId::Intermediate, vec![1, 2, 3]);
    assert_eq!(add_journalist(&broken, copy_of(&malformed)), expected);
    let sound = store_with(&intermediate());
    assert_eq!(add_journalist(&sound, copy_of(&malformed)), expected);
    assert_eq!(expected.as_ref().unwrap_err().kind(), ErrorKind::Decode);
    let well_formed = AddJournalistRequest {
        journalist_key: BASE64_STANDARD.encode([0u8; 32]),
        journalist_sig: BASE64_STANDARD.encode([0u8; 64]),
        journalist_fetching_key: BASE64_STANDARD.encode([0u8; 32]),
        journalist_fetching_sig: BASE64_STANDARD.encode([0u8; 64]),
    };
    assert_eq!(
        add_journalist(&empty, copy_of(&well_formed)),
        Err(PkiError::MissingRecord(KeyId::Intermediate))
    );
    assert_eq!(
        add_journalist(&broken, copy_of(&well_formed)),
        Err(PkiError::MalformedRecord(KeyId::Intermediate))
    );
    assert_eq!(add_journalist(&sound, well_formed), Err(PkiError::SignatureInvalid));
}

#[test]
fn every_failure_gets_the_same_answer() {
    let failures = [
        PkiError::SelfCheckFailed,
        PkiError::SignatureInvalid,
        PkiError::MissingRecord(KeyId::Intermediate),
        PkiError::MalformedRecord(KeyId::Intermediate),
        PkiError::InvalidEncoding(SubmissionField::JournalistKey),
        PkiError::InvalidLength(SubmissionField::JournalistFetchingSig),
    ];
    for failure in failures {
        assert_eq!(response_for(&Err(failure)).status, "KO");
    }
}

#[test]
fn decoded_fields_are_measured() {
    assert_eq!(key_from_decoded(SubmissionField::JournalistKey, Some(vec![5; 32])), Ok([5; 32]));
    assert_eq!(
        key_from_decoded(SubmissionField::JournalistFetchingKey, Some(vec![5; 33])),
        Err(PkiError::InvalidLength(SubmissionField::JournalistFetchingKey))
    );
    assert_eq!(
        key_from_decoded(SubmissionField::JournalistKey, None),
        Err(PkiError::InvalidEncoding(SubmissionField::JournalistKey))
    );
    assert_eq!(
        signature_from_decoded(SubmissionField::JournalistSig, Some(vec![6; 64])),
        Ok(vec![6; 64])
    );
    assert_eq!(
        signature_from_decoded(SubmissionField::JournalistSig, Some(vec![])),
        Err(PkiError::InvalidLength(SubmissionField::JournalistSig))
    );
    assert_eq!(
        signature_from_decoded(SubmissionField::JournalistFetchingSig, None),
        Err(PkiError::InvalidEncoding(SubmissionField::JournalistFetchingSig))
    );
    let assembled =
        assemble_submission(Some(vec![1; 32]), Some(vec![2; 64]), Some(vec![3; 32]), Some(vec![4; 64]));
    assert_eq!(
        assembled,
        Ok(PublicJournalist {
            signing_key: [1; 32],
            signing_signature: vec![2; 64],
            encrypting_key: [3; 32],
            encrypting_signature: vec![4; 64],
        })
    );
}
