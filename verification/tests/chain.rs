use securedrop_protocol::chain::{
    path_to_anchor, three_level_chain, verify_chain, ChainError, ChainNode,
};
use securedrop_protocol::keys::{RootKeyPair, SignedKeyPair};
use securedrop_protocol::pki::{
    generate_journalist, generate_root_keypair, generate_signed_keypair, sign_data, SigningKey,
};

fn anchor(key: &SigningKey) -> ChainNode {
    ChainNode { public_key: key.verifying_key(), parent: None, signature: Vec::new() }
}

fn child(key: &SigningKey, parent_place: usize, parent: &SigningKey) -> ChainNode {
    let mut signer = SigningKey::from_bytes(&parent.to_bytes());
    let public_key = key.verifying_key();
    let signature = sign_data(&mut signer, &public_key).unwrap();
    ChainNode { public_key, parent: Some(parent_place), signature: signature.to_vec() }
}

fn key(seed: u8) -> SigningKey {
    SigningKey::from_bytes(&[seed; 32])
}

/// Place 0 is the anchor, and every later place is signed by the one before.
fn line(length: usize) -> Vec<ChainNode> {
    let mut nodes = vec![anchor(&key(0))];
    for place in 1..length {
        nodes.push(child(&key(place as u8), place - 1, &key(place as u8 - 1)));
    }
    nodes
}

#[test]
fn anchor_is_trusted_without_a_signature() {
    let nodes = line(1);
    assert_eq!(verify_chain(&nodes, 0, 0, 0), Ok(()));
    assert_eq!(path_to_anchor(&nodes, 0, 0, 0), Ok(vec![0]));
}

#[test]
fn path_runs_from_key_to_anchor() {
    let nodes = line(5);
    assert_eq!(path_to_anchor(&nodes, 0, 4, 4), Ok(vec![4, 3, 2, 1, 0]));
    assert_eq!(path_to_anchor(&nodes, 0, 2, 10), Ok(vec![2, 1, 0]));
    assert_eq!(path_to_anchor(&nodes, 2, 4, 2), Ok(vec![4, 3, 2]));
}

#[test]
fn chain_of_any_depth_is_verified() {
    let nodes = line(6);
    for leaf in 0..6 {
        assert_eq!(verify_chain(&nodes, 0, leaf, leaf), Ok(()));
        assert_eq!(verify_chain(&nodes, 0, leaf, 100), Ok(()));
    }
}

#[test]
fn depth_bound_is_the_number_of_links() {
    let nodes = line(4);
    assert_eq!(verify_chain(&nodes, 0, 3, 3), Ok(()));
    assert_eq!(verify_chain(&nodes, 0, 3, 2), Err(ChainError::TooDeep));
    assert_eq!(verify_chain(&nodes, 0, 1, 0), Err(ChainError::TooDeep));
    assert_eq!(path_to_anchor(&nodes, 0, 3, 2), Err(ChainError::TooDeep));
}

#[test]
fn cycle_is_cut_by_the_depth_bound() {
    let mut nodes = line(3);
    nodes.push(child(&key(3), 4, &key(4)));
    nodes.push(child(&key(4), 3, &key(3)));
    assert_eq!(verify_chain(&nodes, 0, 3, 1000), Err(ChainError::TooDeep));
    assert_eq!(verify_chain(&nodes, 0, 4, usize::MAX), Err(ChainError::TooDeep));
    let own_parent = vec![anchor(&key(0)), child(&key(1), 1, &key(1))];
    assert_eq!(verify_chain(&own_parent, 0, 1, 50), Err(ChainError::TooDeep));
}

#[test]
fn places_without_nodes_are_reported() {
    let mut nodes = line(2);
    assert_eq!(verify_chain(&nodes, 0, 2, 5), Err(ChainError::UnknownKey(2)));
    assert_eq!(verify_chain(&Vec::new(), 0, 0, 5), Err(ChainError::UnknownKey(0)));
    nodes.push(child(&key(2), 9, &key(1)));
    assert_eq!(verify_chain(&nodes, 0, 2, 5), Err(ChainError::UnknownKey(9)));
}

#[test]
fn node_without_parent_that_is_not_the_anchor_is_reported() {
    let mut nodes = line(2);
    nodes.push(anchor(&key(7)));
    nodes.push(child(&key(8), 2, &key(7)));
    assert_eq!(verify_chain(&nodes, 0, 2, 5), Err(ChainError::NoParent(2)));
    assert_eq!(verify_chain(&nodes, 0, 3, 5), Err(ChainError::NoParent(2)));
    assert_eq!(verify_chain(&nodes, 2, 3, 5), Ok(()));
    assert_eq!(verify_chain(&nodes, 5, 1, 5), Err(ChainError::NoParent(0)));
}

#[test]
fn first_broken_link_from_the_key_is_reported() {
    let mut nodes = line(5);
    nodes[2].signature[10] ^= 1;
    assert_eq!(verify_chain(&nodes, 0, 1, 5), Ok(()));
    assert_eq!(verify_chain(&nodes, 0, 2, 5), Err(ChainError::BrokenLink(2)));
    assert_eq!(verify_chain(&nodes, 0, 4, 5), Err(ChainError::BrokenLink(2)));
    assert_eq!(verify_chain(&nodes, 2, 4, 5), Ok(()));
    nodes[4].public_key[0] ^= 1;
    assert_eq!(verify_chain(&nodes, 0, 4, 5), Err(ChainError::BrokenLink(4)));
    assert_eq!(verify_chain(&nodes, 0, 3, 5), Err(ChainError::BrokenLink(2)));
}

#[test]
fn missing_signature_breaks_the_link() {
    let mut nodes = line(2);
    nodes[1].signature.clear();
    assert_eq!(verify_chain(&nodes, 0, 1, 1), Err(ChainError::BrokenLink(1)));
}

#[test]
fn structure_is_checked_before_any_signature() {
    let mut nodes = line(4);
    nodes[3].signature[0] ^= 1;
    assert_eq!(verify_chain(&nodes, 0, 3, 2), Err(ChainError::TooDeep));
    assert_eq!(verify_chain(&nodes, 0, 3, 3), Err(ChainError::BrokenLink(3)));
}

#[test]
fn signature_by_a_key_that_is_not_the_parent_breaks_the_link() {
    let nodes = vec![anchor(&key(0)), child(&key(1), 0, &key(0)), child(&key(2), 1, &key(0))];
    assert_eq!(verify_chain(&nodes, 0, 1, 2), Ok(()));
    assert_eq!(verify_chain(&nodes, 0, 2, 2), Err(ChainError::BrokenLink(2)));
}

#[test]
fn generated_hierarchy_is_a_chain_of_three_levels() {
    let root = generate_root_keypair();
    let intermediate = generate_signed_keypair(&mut root.as_signing_key()).unwrap();
    let journalist = generate_journalist(&intermediate).unwrap();
    let nodes = three_level_chain(&root, &intermediate, &journalist);
    assert_eq!(nodes.len(), 4);
    assert_eq!(nodes[0].public_key, root.public_key());
    assert_eq!(nodes[0].parent, None);
    assert!(nodes[0].signature.is_empty());
    assert_eq!(nodes[1].public_key, intermediate.public_key());
    assert_eq!(nodes[1].parent, Some(0));
    assert_eq!(nodes[1].signature, intermediate.signature().to_vec());
    assert_eq!(nodes[2].public_key, journalist.signing().public_key());
    assert_eq!(nodes[2].parent, Some(1));
    assert_eq!(nodes[2].signature, journalist.signing().signature().to_vec());
    assert_eq!(nodes[3].public_key, journalist.encrypting().public_key());
    assert_eq!(nodes[3].parent, Some(1));
    assert_eq!(nodes[3].signature, journalist.encrypting().signature().to_vec());
    for place in 0..4 {
        assert_eq!(verify_chain(&nodes, 0, place, 2), Ok(()));
    }
    assert_eq!(verify_chain(&nodes, 0, 2, 1), Err(ChainError::TooDeep));
    assert_eq!(verify_chain(&nodes, 0, 3, 1), Err(ChainError::TooDeep));
}

#[test]
fn journalist_under_another_hierarchy_is_not_trusted() {
    let root = generate_root_keypair();
    let intermediate = generate_signed_keypair(&mut root.as_signing_key()).unwrap();
    let other_root = generate_root_keypair();
    let other_intermediate = generate_signed_keypair(&mut other_root.as_signing_key()).unwrap();
    let stranger = generate_journalist(&other_intermediate).unwrap();
    let nodes = three_level_chain(&root, &intermediate, &stranger);
    assert_eq!(verify_chain(&nodes, 0, 1, 2), Ok(()));
    assert_eq!(verify_chain(&nodes, 0, 2, 2), Err(ChainError::BrokenLink(2)));
    assert_eq!(verify_chain(&nodes, 0, 3, 2), Err(ChainError::BrokenLink(3)));
    let forged = SignedKeyPair::from_parts(
        intermediate.secret_key(),
        intermediate.public_key(),
        other_intermediate.signature(),
    );
    let journalist = generate_journalist(&intermediate).unwrap();
    let nodes = three_level_chain(&root, &forged, &journalist);
    assert_eq!(verify_chain(&nodes, 1, 2, 2), Ok(()));
    assert_eq!(verify_chain(&nodes, 0, 2, 2), Err(ChainError::BrokenLink(1)));
    let unrelated = RootKeyPair::from_parts(other_root.secret_key(), other_root.public_key());
    let nodes = three_level_chain(&unrelated, &intermediate, &journalist);
    assert_eq!(verify_chain(&nodes, 0, 3, 2), Err(ChainError::BrokenLink(1)));
}
