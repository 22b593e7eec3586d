use securedrop_protocol::bootstrap::{
    initialize_keys, key_store_from_secrets, JournalistSecrets, JOURNALIST_COUNT,
};
use securedrop_protocol::chain::{three_level_chain, verify_chain};
use securedrop_protocol::error::PkiError;
use securedrop_protocol::pki::{
    generate_journalist, load_intermediate_key, load_journalist, load_root_key,
    verify_intermediate_signature, verify_root_intermediate,
};
use securedrop_protocol::record::{encode_journalist, encode_signed};
use securedrop_protocol::store::{KeyId, KeyStore};

fn secrets(seed: u8) -> JournalistSecrets {
    JournalistSecrets { signing: [seed; 32], encrypting: [seed.wrapping_add(100); 32] }
}

fn records(store: &KeyStore) -> Vec<(KeyId, Vec<u8>)> {
    store.ids().into_iter().map(|id| (id, store.get(id).unwrap().clone())).collect()
}

#[test]
fn bootstrap_makes_one_root_one_intermediate_and_three_journalists() {
    let store = initialize_keys().ok().unwrap();
    assert_eq!(JOURNALIST_COUNT, 3);
    assert_eq!(
        store.ids(),
        vec![
            KeyId::Root,
            KeyId::Intermediate,
            KeyId::Journalist(1),
            KeyId::Journalist(2),
            KeyId::Journalist(3),
        ]
    );
    assert_eq!(store.get(KeyId::Root).unwrap().len(), 66);
    assert_eq!(store.get(KeyId::Intermediate).unwrap().len(), 130);
    for number in 1..=3 {
        assert_eq!(store.get(KeyId::Journalist(number)).unwrap().len(), 260);
    }
    assert!(!store.contains(KeyId::Journalist(0)));
    assert!(!store.contains(KeyId::Journalist(4)));
}

#[test]
fn bootstrapped_hierarchy_verifies_end_to_end() {
    let store = initialize_keys().ok().unwrap();
    assert_eq!(verify_root_intermediate(&store), Ok(()));
    let root = load_root_key(&store).ok().unwrap();
    let intermediate = load_intermediate_key(&store).ok().unwrap();
    assert_eq!(root.as_signing_key().verifying_key(), root.public_key());
    assert_eq!(intermediate.as_signing_key().verifying_key(), intermediate.public_key());
    for number in 1..=3 {
        let journalist = load_journalist(&store, number).ok().unwrap();
        assert_eq!(
            verify_intermediate_signature(
                &store,
                &journalist.signing().public_key(),
                &journalist.signing().signature()
            ),
            Ok(())
        );
        assert_eq!(
            verify_intermediate_signature(
                &store,
                &journalist.encrypting().public_key(),
                &journalist.encrypting().signature()
            ),
            Ok(())
        );
        assert_eq!(
            journalist.signing().as_signing_key().verifying_key(),
            journalist.signing().public_key()
        );
        let nodes = three_level_chain(&root, &intermediate, &journalist);
        assert_eq!(verify_chain(&nodes, 0, 2, 2), Ok(()));
        assert_eq!(verify_chain(&nodes, 0, 3, 2), Ok(()));
    }
}

#[test]
fn two_bootstraps_share_no_key() {
    let first = initialize_keys().ok().unwrap();
    let second = initialize_keys().ok().unwrap();
    assert_eq!(verify_root_intermediate(&first), Ok(()));
    assert_eq!(verify_root_intermediate(&second), Ok(()));
    assert_eq!(first.ids(), second.ids());
    for id in first.ids() {
        assert_ne!(first.get(id), second.get(id));
    }
    let mut secrets = Vec::new();
    let mut publics = Vec::new();
    for store in [&first, &second] {
        let root = load_root_key(store).ok().unwrap();
        let intermediate = load_intermediate_key(store).ok().unwrap();
        secrets.push(root.secret_key());
        publics.push(root.public_key());
        secrets.push(intermediate.secret_key());
        publics.push(intermediate.public_key());
        for number in 1..=3 {
            let journalist = load_journalist(store, number).ok().unwrap();
            secrets.push(journalist.signing().secret_key());
            publics.push(journalist.signing().public_key());
            secrets.push(journalist.encrypting().secret_key());
            publics.push(journalist.encrypting().public_key());
        }
    }
    assert_eq!(secrets.len(), 16);
    for i in 0..16 {
        for j in 0..i {
            assert_ne!(secrets[i], secrets[j]);
            assert_ne!(publics[i], publics[j]);
        }
    }
}

#[test]
fn journalist_of_one_bootstrap_does_not_verify_in_another() {
    let first = initialize_keys().ok().unwrap();
    let second = initialize_keys().ok().unwrap();
    let journalist = load_journalist(&first, 1).ok().unwrap();
    assert_eq!(
        verify_intermediate_signature(
            &second,
            &journalist.signing().public_key(),
            &journalist.signing().signature()
        ),
        Err(PkiError::SignatureInvalid)
    );
    let mut mixed = KeyStore::new();
    mixed.put(KeyId::Root, first.get(KeyId::Root).unwrap().clone());
    mixed.put(KeyId::Intermediate, second.get(KeyId::Intermediate).unwrap().clone());
    assert_eq!(verify_root_intermediate(&mixed), Err(PkiError::SignatureInvalid));
}

#[test]
fn the_secrets_decide_the_store() {
    let journalists = vec![secrets(3), secrets(4)];
    let first = key_store_from_secrets([1; 32], [2; 32], &journalists).ok().unwrap();
    let second = key_store_from_secrets([1; 32], [2; 32], &journalists).ok().unwrap();
    assert_eq!(records(&first), records(&second));
    assert_eq!(
        first.ids(),
        vec![KeyId::Root, KeyId::Intermediate, KeyId::Journalist(1), KeyId::Journalist(2)]
    );
    assert_eq!(load_root_key(&first).ok().unwrap().secret_key(), [1; 32]);
    let intermediate = load_intermediate_key(&first).ok().unwrap();
    assert_eq!(intermediate.secret_key(), [2; 32]);
    let journalist = load_journalist(&first, 2).ok().unwrap();
    assert_eq!(journalist.signing().secret_key(), [4; 32]);
    assert_eq!(journalist.encrypting().secret_key(), [104; 32]);
    assert_eq!(verify_root_intermediate(&first), Ok(()));
    let again = securedrop_protocol::pki::journalist_from_secrets(&intermediate, [4; 32], [104; 32])
        .ok()
        .unwrap();
    assert_eq!(first.get(KeyId::Journalist(2)), Some(&encode_journalist(&again)));
    let other_root = key_store_from_secrets([9; 32], [2; 32], &journalists).ok().unwrap();
    assert_ne!(first.get(KeyId::Intermediate), other_root.get(KeyId::Intermediate));
    assert_eq!(first.get(KeyId::Journalist(1)), other_root.get(KeyId::Journalist(1)));
}

#[test]
fn hierarchy_without_journalists() {
    let store = key_store_from_secrets([1; 32], [2; 32], &Vec::new()).ok().unwrap();
    assert_eq!(store.ids(), vec![KeyId::Root, KeyId::Intermediate]);
    assert_eq!(verify_root_intermediate(&store), Ok(()));
}

#[test]
fn replaced_intermediate_orphans_the_journalists() {
    let mut store = initialize_keys().ok().unwrap();
    let root = load_root_key(&store).ok().unwrap();
    let journalist = load_journalist(&store, 3).ok().unwrap();
    let replacement =
        securedrop_protocol::pki::generate_signed_keypair(&mut root.as_signing_key()).ok().unwrap();
    store.put(KeyId::Intermediate, encode_signed(&replacement));
    assert_eq!(store.ids().len(), 5);
    assert_eq!(verify_root_intermediate(&store), Ok(()));
    assert_eq!(
        verify_intermediate_signature(
            &store,
            &journalist.encrypting().public_key(),
            &journalist.encrypting().signature()
        ),
        Err(PkiError::SignatureInvalid)
    );
    let fresh = generate_journalist(&replacement).ok().unwrap();
    assert_eq!(
        verify_intermediate_signature(
            &store,
            &fresh.signing().public_key(),
            &fresh.signing().signature()
        ),
        Ok(())
    );
}
