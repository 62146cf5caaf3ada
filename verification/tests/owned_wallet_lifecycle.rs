//! The owned-wallet lifecycle, driven through a tiny in-memory stand-in for
//! the wallet engine: a map from identity to the secret its key material is
//! encrypted under.

use std::collections::HashMap;

use tipbot_core::error::Error;
use tipbot_core::owned_wallet_metadata::OwnedWalletMetadataStore;
use tipbot_core::tip_context::TipContext;
use tipbot_core::tip_owned_wallet::{
    BalanceSnapshot, SecretChangeOutcome, TipOwnedWallet, WalletOpenOutcome,
};
use tipbot_core::transition_wallet_metadata::TransitionWalletMetadataStore;

fn fresh_context() -> TipContext {
    let owned = OwnedWalletMetadataStore::new(Vec::new()).unwrap();
    let transition = TransitionWalletMetadataStore::new(Vec::new()).unwrap();
    TipContext::new("mainnet".to_string(), None, owned, transition)
}

fn fake_address(identifier: &str) -> String {
    format!("spectre:{}", identifier)
}

/// The engine's create: remembers which secret guards the identity's key
/// material and hands back the recovery phrase and receive address.
fn engine_create(
    wallets: &mut HashMap<String, String>,
    secret: &str,
    identifier: &str,
) -> (String, String) {
    wallets.insert(identifier.to_string(), secret.to_string());
    (
        "abandon abandon abandon abandon abandon abandon abandon abandon abandon abandon abandon about".to_string(),
        fake_address(identifier),
    )
}

/// The engine's open: no persisted wallet, a wrong secret, or success.
fn engine_open(
    wallets: &HashMap<String, String>,
    secret: &str,
    identifier: &str,
    wallet_handle: u64,
) -> WalletOpenOutcome {
    match wallets.get(identifier) {
        None => WalletOpenOutcome::NotFound,
        Some(stored) if stored == secret => WalletOpenOutcome::Opened {
            receive_address: fake_address(identifier),
            wallet_handle,
        },
        Some(_) => WalletOpenOutcome::DecryptFailed("wrong wallet secret".to_string()),
    }
}

#[test]
fn test_create_wallet() {
    let mut wallets = HashMap::new();
    let mut ctx = fresh_context();
    let (mnemonic, address) = engine_create(&mut wallets, "value", "identifier");
    TipOwnedWallet::create(&mut ctx, "identifier", mnemonic, address, 1, 0).unwrap();
}

#[test]
fn test_open_wallet() {
    let mut wallets = HashMap::new();
    let mut ctx = fresh_context();
    let (mnemonic, address) = engine_create(&mut wallets, "value", "identifier2");
    TipOwnedWallet::create(&mut ctx, "identifier2", mnemonic, address, 1, 0).unwrap();
    let mut ctx2 = fresh_context();
    let outcome = engine_open(&wallets, "value", "identifier2", 2);
    TipOwnedWallet::open(&mut ctx2, "identifier2", outcome, 1).unwrap();
}

#[test]
#[should_panic]
fn test_open_wallet_with_wrong_secret() {
    let mut wallets = HashMap::new();
    let mut ctx = fresh_context();
    let (mnemonic, address) = engine_create(&mut wallets, "value", "identifier3");
    let _ = TipOwnedWallet::create(&mut ctx, "identifier3", mnemonic, address, 1, 0);
    let mut ctx2 = fresh_context();
    let outcome = engine_open(&wallets, "value2", "identifier3", 2);
    TipOwnedWallet::open(&mut ctx2, "identifier3", outcome, 1).unwrap();
}

#[test]
#[should_panic]
fn test_open_wallet_with_innexistant_wallet() {
    let wallets = HashMap::new();
    let mut ctx = fresh_context();
    let outcome = engine_open(&wallets, "value2", "identifier_innexistant", 1);
    TipOwnedWallet::open(&mut ctx, "identifier_innexistant", outcome, 1).unwrap();
}

#[test]
fn tip_wallet_test_create_wallet() {
    let mut wallets = HashMap::new();
    let mut ctx = fresh_context();
    let (mnemonic, address) = engine_create(&mut wallets, "value", "identifier");
    TipOwnedWallet::create(&mut ctx, "identifier", mnemonic, address, 1, 0).unwrap();
}

#[test]
fn tip_wallet_test_open_wallet() {
    let mut wallets = HashMap::new();
    let mut ctx = fresh_context();
    let (mnemonic, address) = engine_create(&mut wallets, "value", "identifier2");
    TipOwnedWallet::create(&mut ctx, "identifier2", mnemonic, address, 1, 0).unwrap();
    let mut ctx2 = fresh_context();
    let outcome = engine_open(&wallets, "value", "identifier2", 2);
    TipOwnedWallet::open(&mut ctx2, "identifier2", outcome, 1).unwrap();
}

#[test]
#[should_panic]
fn tip_wallet_test_open_wallet_with_wrong_secret() {
    let mut wallets = HashMap::new();
    let mut ctx = fresh_context();
    let (mnemonic, address) = engine_create(&mut wallets, "value", "identifier3");
    let _ = TipOwnedWallet::create(&mut ctx, "identifier3", mnemonic, address, 1, 0);
    let mut ctx2 = fresh_context();
    let outcome = engine_open(&wallets, "value2", "identifier3", 2);
    TipOwnedWallet::open(&mut ctx2, "identifier3", outcome, 1).unwrap();
}

#[test]
#[should_panic]
fn tip_wallet_test_open_wallet_with_innexistant_wallet() {
    let wallets = HashMap::new();
    let mut ctx = fresh_context();
    let outcome = engine_open(&wallets, "value2", "identifier_innexistant", 1);
    TipOwnedWallet::open(&mut ctx, "identifier_innexistant", outcome, 1).unwrap();
}

#[test]
fn create_twice_returns_already_exists_and_changes_nothing() {
    let mut wallets = HashMap::new();
    let mut ctx = fresh_context();
    let (mnemonic, address) = engine_create(&mut wallets, "value", "alice");
    TipOwnedWallet::create(&mut ctx, "alice", mnemonic, address, 1, 0).unwrap();

    let records_before = ctx.owned_wallet_metadata_store.records().clone();
    let entry_before = ctx.get_opened_owned_wallet("alice").unwrap();

    // A second create in any state reachable from the first: here both open
    // and closed.
    let (mnemonic2, address2) = engine_create(&mut wallets, "other", "alice");
    let second = TipOwnedWallet::create(&mut ctx, "alice", mnemonic2, address2, 7, 9);
    assert_eq!(second.unwrap_err(), Error::OwnedWalletAlreadyExists);
    assert_eq!(ctx.owned_wallet_metadata_store.records(), &records_before);
    assert_eq!(ctx.get_opened_owned_wallet("alice").unwrap(), entry_before);

    ctx.remove_opened_owned_wallet("alice");
    let (mnemonic3, address3) = engine_create(&mut wallets, "third", "alice");
    let third = TipOwnedWallet::create(&mut ctx, "alice", mnemonic3, address3, 8, 10);
    assert_eq!(third.unwrap_err(), Error::OwnedWalletAlreadyExists);
    assert_eq!(ctx.owned_wallet_metadata_store.records(), &records_before);
}

#[test]
fn open_with_wrong_secret_mutates_nothing() {
    let mut wallets = HashMap::new();
    let mut ctx = fresh_context();
    let (mnemonic, address) = engine_create(&mut wallets, "value", "bob");
    TipOwnedWallet::create(&mut ctx, "bob", mnemonic, address, 1, 0).unwrap();
    ctx.remove_opened_owned_wallet("bob");

    let records_before = ctx.owned_wallet_metadata_store.records().clone();
    let outcome = engine_open(&wallets, "not-the-secret", "bob", 2);
    let result = TipOwnedWallet::open(&mut ctx, "bob", outcome, 5);
    assert_eq!(
        result.unwrap_err(),
        Error::WalletDecrypt("wrong wallet secret".to_string())
    );
    assert_eq!(ctx.owned_wallet_metadata_store.records(), &records_before);
    assert!(!ctx.does_opened_owned_wallet_exists("bob"));
}

#[test]
fn destroy_initiated_but_not_open_wallet() {
    let mut wallets = HashMap::new();
    let mut ctx = fresh_context();
    let (mnemonic, address) = engine_create(&mut wallets, "value", "carol");
    TipOwnedWallet::create(&mut ctx, "carol", mnemonic, address, 1, 0).unwrap();
    ctx.remove_opened_owned_wallet("carol");

    let status_before = TipOwnedWallet::status(&ctx, "carol", None, 0);
    assert!(status_before.is_initiated);
    assert!(!status_before.is_opened);

    let prior = TipOwnedWallet::destroy(&mut ctx, "carol").unwrap();
    assert!(prior.is_none());

    let status_after = TipOwnedWallet::status(&ctx, "carol", None, 0);
    assert!(!status_after.is_initiated);
    assert!(!status_after.is_opened);
}

#[test]
fn destroy_uninitiated_wallet_is_refused() {
    let mut ctx = fresh_context();
    let result = TipOwnedWallet::destroy(&mut ctx, "nobody");
    assert_eq!(result.unwrap_err(), Error::NotInitiated);
}

#[test]
fn open_is_idempotent_for_an_open_wallet() {
    let mut wallets = HashMap::new();
    let mut ctx = fresh_context();
    let (mnemonic, address) = engine_create(&mut wallets, "value", "dave");
    let (created, _) =
        TipOwnedWallet::create(&mut ctx, "dave", mnemonic, address, 11, 3).unwrap();
    // Whatever outcome the engine would have produced is ignored.
    let again = TipOwnedWallet::open(
        &mut ctx,
        "dave",
        WalletOpenOutcome::Failed("engine must not be consulted".to_string()),
        99,
    )
    .unwrap();
    assert_eq!(again, created);
    assert_eq!(again.wallet(), 11);
}

#[test]
fn restore_overwrites_the_previous_metadata() {
    let mut wallets = HashMap::new();
    let mut ctx = fresh_context();
    let (mnemonic, address) = engine_create(&mut wallets, "value", "erin");
    TipOwnedWallet::create(&mut ctx, "erin", mnemonic, address, 1, 0).unwrap();

    let restored =
        TipOwnedWallet::restore(&mut ctx, "erin", "spectre:fresh-erin".to_string(), 21, 8)
            .unwrap();
    assert_eq!(restored.receive_address(), "spectre:fresh-erin");
    let record = ctx
        .owned_wallet_metadata_store
        .find_owned_wallet_metadata_by_owner_identifier("erin")
        .unwrap();
    assert_eq!(record.receive_address, "spectre:fresh-erin");
    assert_eq!(ctx.owned_wallet_metadata_store.records().len(), 1);
    assert_eq!(ctx.get_opened_owned_wallet("erin").unwrap(), restored);
}

#[test]
fn change_secret_needs_an_open_wallet() {
    let ctx = fresh_context();
    let refused = TipOwnedWallet::change_secret(&ctx, "frank", SecretChangeOutcome::Changed);
    assert_eq!(refused.unwrap_err(), Error::WalletNotOpen);
}

#[test]
fn change_secret_reports_a_wrong_old_secret() {
    let mut wallets = HashMap::new();
    let mut ctx = fresh_context();
    let (mnemonic, address) = engine_create(&mut wallets, "value", "grace");
    TipOwnedWallet::create(&mut ctx, "grace", mnemonic, address, 1, 0).unwrap();

    let ok = TipOwnedWallet::change_secret(&ctx, "grace", SecretChangeOutcome::Changed);
    assert!(ok.is_ok());
    let wrong = TipOwnedWallet::change_secret(
        &ctx,
        "grace",
        SecretChangeOutcome::DecryptFailed("old secret is wrong".to_string()),
    );
    assert_eq!(
        wrong.unwrap_err(),
        Error::WalletDecrypt("old secret is wrong".to_string())
    );
}

#[test]
fn status_reports_the_balances_it_was_given() {
    let mut wallets = HashMap::new();
    let mut ctx = fresh_context();
    let (mnemonic, address) = engine_create(&mut wallets, "value", "heidi");
    TipOwnedWallet::create(&mut ctx, "heidi", mnemonic, address, 1, 0).unwrap();

    let balance = BalanceSnapshot {
        mature: 700,
        pending: 55,
        mature_utxo_count: 2,
        pending_utxo_count: 1,
    };
    let status = TipOwnedWallet::status(&ctx, "heidi", Some(&balance), 500_000);
    assert!(status.is_opened);
    assert!(status.is_initiated);
    assert_eq!(status.mature_balance, 700);
    assert_eq!(status.pending_balance, 55);
    assert_eq!(status.pending_escrow_balance, 500_000);
}

#[test]
fn opening_two_identities_keeps_their_entries_independent() {
    let mut wallets = HashMap::new();
    let mut ctx = fresh_context();
    let (m1, a1) = engine_create(&mut wallets, "s1", "user-one");
    let (m2, a2) = engine_create(&mut wallets, "s2", "user-two");
    let (w1, _) = TipOwnedWallet::create(&mut ctx, "user-one", m1, a1, 1, 0).unwrap();
    let (w2, _) = TipOwnedWallet::create(&mut ctx, "user-two", m2, a2, 2, 0).unwrap();

    assert_eq!(ctx.get_opened_owned_wallet("user-one").unwrap(), w1);
    assert_eq!(ctx.get_opened_owned_wallet("user-two").unwrap(), w2);

    ctx.remove_opened_owned_wallet("user-one");
    assert!(!ctx.does_opened_owned_wallet_exists("user-one"));
    assert_eq!(ctx.get_opened_owned_wallet("user-two").unwrap(), w2);
}

#[test]
fn open_passes_other_engine_failures_through_opaquely() {
    let mut ctx = fresh_context();
    // The owner is initiated but closed, so the outcome decides.
    let mut wallets = HashMap::new();
    let (mnemonic, address) = engine_create(&mut wallets, "value", "ivan");
    TipOwnedWallet::create(&mut ctx, "ivan", mnemonic, address, 1, 0).unwrap();
    ctx.remove_opened_owned_wallet("ivan");
    let result = TipOwnedWallet::open(
        &mut ctx,
        "ivan",
        WalletOpenOutcome::Failed("node connection lost".to_string()),
        2,
    );
    assert_eq!(result.unwrap_err(), Error::Engine("node connection lost".to_string()));
}

#[test]
fn custom_errors_carry_their_message() {
    let error = Error::custom("anything else");
    assert_eq!(error, Error::Custom("anything else".to_string()));
}

#[test]
fn create_returns_the_recovery_phrase_and_never_stores_it() {
    let mut wallets = HashMap::new();
    let mut ctx = fresh_context();
    let (mnemonic, address) = engine_create(&mut wallets, "value", "judy");
    let (wallet, returned) =
        TipOwnedWallet::create(&mut ctx, "judy", mnemonic.clone(), address, 1, 0).unwrap();
    assert_eq!(returned, mnemonic);
    assert_eq!(wallet.receive_address(), "spectre:judy");
    // Neither the metadata record nor the registry entry carries the phrase.
    let record = ctx
        .owned_wallet_metadata_store
        .find_owned_wallet_metadata_by_owner_identifier("judy")
        .unwrap();
    assert_ne!(record.receive_address, mnemonic);
    assert_eq!(record.owner_identifier, "judy");
    assert_ne!(wallet.owned_identifier(), mnemonic);
}
