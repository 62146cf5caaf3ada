//! The two metadata stores: uniqueness of keys, lookups, and removal.

use tipbot_core::error::Error;
use tipbot_core::owned_wallet_metadata::{OwnedWalletMetadata, OwnedWalletMetadataStore};
use tipbot_core::transition_wallet_metadata::{
    TransitionWalletMetadata, TransitionWalletMetadataStore,
};

fn owned(owner: &str, address: &str) -> OwnedWalletMetadata {
    OwnedWalletMetadata::new(owner.to_string(), address.to_string())
}

fn escrow(initiator: &str, target: &str, address: &str, secret: &str) -> TransitionWalletMetadata {
    TransitionWalletMetadata::new(
        tipbot_core::utils::build_transition_wallet_identifier(target, initiator),
        target.to_string(),
        initiator.to_string(),
        address.to_string(),
        secret.to_string(),
    )
}

#[test]
fn owned_store_add_then_find() {
    let mut store = OwnedWalletMetadataStore::new(Vec::new()).unwrap();
    store.add(&owned("alice", "spectre:a")).unwrap();
    store.add(&owned("bob", "spectre:b")).unwrap();

    let by_owner = store
        .find_owned_wallet_metadata_by_owner_identifier("alice")
        .unwrap();
    assert_eq!(by_owner.receive_address, "spectre:a");

    let by_address = store
        .find_owned_wallet_metadata_by_recipient_address("spectre:b")
        .unwrap();
    assert_eq!(by_address.owner_identifier, "bob");

    let missing = store.find_owned_wallet_metadata_by_owner_identifier("carol");
    assert_eq!(missing.unwrap_err(), Error::OwnedWalletNotFound);
}

#[test]
fn owned_store_rejects_a_duplicate_owner() {
    let mut store = OwnedWalletMetadataStore::new(Vec::new()).unwrap();
    store.add(&owned("alice", "spectre:a")).unwrap();
    let duplicate = store.add(&owned("alice", "spectre:other"));
    assert_eq!(duplicate.unwrap_err(), Error::OwnedWalletAlreadyExists);
    assert_eq!(store.records().len(), 1);
    assert_eq!(
        store
            .find_owned_wallet_metadata_by_owner_identifier("alice")
            .unwrap()
            .receive_address,
        "spectre:a"
    );
}

#[test]
fn owned_store_remove_is_a_no_op_for_an_absent_owner() {
    let mut store = OwnedWalletMetadataStore::new(Vec::new()).unwrap();
    store.add(&owned("alice", "spectre:a")).unwrap();
    store.remove_by_owner_identifier("bob");
    assert_eq!(store.records().len(), 1);
    store.remove_by_owner_identifier("alice");
    assert_eq!(store.records().len(), 0);
}

#[test]
fn owned_store_refuses_a_malformed_file() {
    let records = vec![owned("alice", "spectre:a"), owned("alice", "spectre:b")];
    let refused = OwnedWalletMetadataStore::new(records);
    assert!(matches!(refused.unwrap_err(), Error::Serialization(_)));
}

#[test]
fn transition_store_add_then_query() {
    let mut store = TransitionWalletMetadataStore::new(Vec::new()).unwrap();
    store
        .add(&escrow("alice", "carol", "spectre:e1", "secret-one"))
        .unwrap();
    store
        .add(&escrow("bob", "carol", "spectre:e2", "secret-two"))
        .unwrap();
    store
        .add(&escrow("alice", "dave", "spectre:e3", "secret-three"))
        .unwrap();

    let to_carol = store.find_transition_wallet_metadata_by_target_identifier("carol");
    assert_eq!(to_carol.len(), 2);
    assert_eq!(to_carol[0].initiator_identifier, "alice");
    assert_eq!(to_carol[1].initiator_identifier, "bob");

    let couple = store
        .find_transition_wallet_metadata_by_identifier_couple("alice", "dave")
        .unwrap();
    assert_eq!(couple.receive_address, "spectre:e3");
    assert_eq!(couple.secret, "secret-three");

    assert!(store
        .find_transition_wallet_metadata_by_identifier_couple("dave", "alice")
        .is_none());

    let by_address = store.find_transition_wallet_metadata_by_recipiant("spectre:e2");
    assert_eq!(by_address.len(), 1);
    assert_eq!(by_address[0].initiator_identifier, "bob");
}

#[test]
fn transition_store_rejects_a_duplicate_pair() {
    let mut store = TransitionWalletMetadataStore::new(Vec::new()).unwrap();
    store
        .add(&escrow("alice", "carol", "spectre:e1", "secret-one"))
        .unwrap();
    let duplicate = store.add(&escrow("alice", "carol", "spectre:e9", "secret-nine"));
    assert_eq!(duplicate.unwrap_err(), Error::TransitionWalletAlreadyExists);
    assert_eq!(store.records().len(), 1);
}

#[test]
fn transition_store_refuses_a_malformed_file() {
    let records = vec![
        escrow("alice", "carol", "spectre:e1", "secret-one"),
        escrow("alice", "carol", "spectre:e2", "secret-two"),
    ];
    let refused = TransitionWalletMetadataStore::new(records);
    assert!(matches!(refused.unwrap_err(), Error::Serialization(_)));
}
