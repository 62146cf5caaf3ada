//! Amount parsing, the deterministic escrow identifier, recovery-phrase
//! shapes, the explorer URL, and the send preparation around them.

use tipbot_core::error::Error;
use tipbot_core::owned_wallet_metadata::OwnedWalletMetadataStore;
use tipbot_core::send::{prepare_send, resolve_recipient_address, RecipientResolution};
use tipbot_core::tip_context::TipContext;
use tipbot_core::tip_owned_wallet::TipOwnedWallet;
use tipbot_core::tip_transition_wallet::TipTransitionWallet;
use tipbot_core::transition_wallet_metadata::TransitionWalletMetadataStore;
use tipbot_core::utils::{
    build_transition_wallet_identifier, check_mnemonic_word_count, check_node_status,
    get_tx_explorer_url, try_parse_required_nonzero_spectre_as_sompi_u64, NetworkKind,
    SOMPI_PER_SPECTRE,
};

fn fresh_context() -> TipContext {
    let owned = OwnedWalletMetadataStore::new(Vec::new()).unwrap();
    let transition = TransitionWalletMetadataStore::new(Vec::new()).unwrap();
    TipContext::new("mainnet".to_string(), None, owned, transition)
}

#[test]
fn ten_point_five_parses_to_sompi() {
    let parsed = try_parse_required_nonzero_spectre_as_sompi_u64(Some("10.5"));
    assert_eq!(parsed.unwrap(), 1_050_000_000);
}

#[test]
fn zero_negative_and_nonsense_amounts_are_refused() {
    for bad in ["0", "0.0", "0.00000000", "-1", "-0.5", "abc", "", ".", "1e3", "1.2.3", "+1"] {
        let refused = try_parse_required_nonzero_spectre_as_sompi_u64(Some(bad));
        assert_eq!(refused.unwrap_err(), Error::InvalidAmount, "amount {:?}", bad);
    }
    let missing = try_parse_required_nonzero_spectre_as_sompi_u64(None);
    assert_eq!(missing.unwrap_err(), Error::InvalidAmount);
}

#[test]
fn amount_parsing_edges() {
    assert_eq!(SOMPI_PER_SPECTRE, 100_000_000);
    assert_eq!(
        try_parse_required_nonzero_spectre_as_sompi_u64(Some("1")).unwrap(),
        100_000_000
    );
    assert_eq!(
        try_parse_required_nonzero_spectre_as_sompi_u64(Some(".5")).unwrap(),
        50_000_000
    );
    assert_eq!(
        try_parse_required_nonzero_spectre_as_sompi_u64(Some("5.")).unwrap(),
        500_000_000
    );
    assert_eq!(
        try_parse_required_nonzero_spectre_as_sompi_u64(Some("0.00000001")).unwrap(),
        1
    );
    // The ninth decimal place is below one sompi and is truncated away.
    assert_eq!(
        try_parse_required_nonzero_spectre_as_sompi_u64(Some("0.000000019")).unwrap(),
        1
    );
    assert_eq!(
        try_parse_required_nonzero_spectre_as_sompi_u64(Some("0.000000001")).unwrap_err(),
        Error::InvalidAmount
    );
    // The largest representable amount, and one sompi beyond it.
    assert_eq!(
        try_parse_required_nonzero_spectre_as_sompi_u64(Some("184467440737.09551615")).unwrap(),
        u64::MAX
    );
    assert_eq!(
        try_parse_required_nonzero_spectre_as_sompi_u64(Some("184467440737.09551616"))
            .unwrap_err(),
        Error::InvalidAmount
    );
}

#[test]
fn identifier_is_deterministic_and_directional() {
    let first = build_transition_wallet_identifier("carol", "alice");
    let second = build_transition_wallet_identifier("carol", "alice");
    assert_eq!(first, second);
    assert_eq!(first, "transition-carol-alice");
    let swapped = build_transition_wallet_identifier("alice", "carol");
    assert_ne!(first, swapped);
}

#[test]
fn recovery_phrase_must_have_twelve_or_twenty_four_words() {
    let twelve = "w w w w w w w w w w w w";
    assert!(check_mnemonic_word_count(twelve).is_ok());
    let twenty_four = "w w w w w w w w w w w w w w w w w w w w w w w w";
    assert!(check_mnemonic_word_count(twenty_four).is_ok());
    let eleven = "w w w w w w w w w w w";
    assert_eq!(
        check_mnemonic_word_count(eleven).unwrap_err(),
        Error::InvalidMnemonic
    );
    assert_eq!(
        check_mnemonic_word_count("").unwrap_err(),
        Error::InvalidMnemonic
    );
}

#[test]
fn explorer_url_depends_on_the_network() {
    assert_eq!(
        get_tx_explorer_url("deadbeef", NetworkKind::Mainnet),
        "https://explorer.spectre-network.org/txs/deadbeef"
    );
    assert_eq!(
        get_tx_explorer_url("deadbeef", NetworkKind::Testnet),
        "https://explorer-tn.spectre-network.org/txs/deadbeef"
    );
}

#[test]
fn prepare_send_needs_an_initiated_open_wallet() {
    let mut ctx = fresh_context();
    let refused = prepare_send(&ctx, "alice", "carol", "10.5");
    assert_eq!(refused.unwrap_err(), Error::NotInitiated);

    TipOwnedWallet::create(
        &mut ctx,
        "alice",
        "the phrase".to_string(),
        "spectre:alice".to_string(),
        1,
        0,
    )
    .unwrap();
    ctx.remove_opened_owned_wallet("alice");
    let closed = prepare_send(&ctx, "alice", "carol", "10.5");
    assert_eq!(closed.unwrap_err(), Error::WalletNotOpen);
}

#[test]
fn prepare_send_refuses_a_bad_amount_before_anything_else() {
    let mut ctx = fresh_context();
    TipOwnedWallet::create(
        &mut ctx,
        "alice",
        "the phrase".to_string(),
        "spectre:alice".to_string(),
        1,
        0,
    )
    .unwrap();
    let refused = prepare_send(&ctx, "alice", "carol", "-3");
    assert_eq!(refused.unwrap_err(), Error::InvalidAmount);
}

#[test]
fn prepare_send_resolves_the_recipient() {
    let mut ctx = fresh_context();
    TipOwnedWallet::create(
        &mut ctx,
        "alice",
        "the phrase".to_string(),
        "spectre:alice".to_string(),
        1,
        0,
    )
    .unwrap();

    // No wallet, no escrow yet.
    let plan = prepare_send(&ctx, "alice", "carol", "10.5").unwrap();
    assert_eq!(plan.amount_sompi, 1_050_000_000);
    assert_eq!(plan.resolution, RecipientResolution::TransitionWalletNeeded);

    // An escrow wallet for the pair exists now.
    TipTransitionWallet::create(
        &mut ctx,
        "alice",
        "carol",
        "generated-secret".to_string(),
        "spectre:escrow".to_string(),
        2,
    )
    .unwrap();
    let via_escrow = resolve_recipient_address(&ctx, "alice", "carol");
    assert_eq!(
        via_escrow,
        RecipientResolution::ExistingTransitionWallet {
            receive_address: "spectre:escrow".to_string(),
        }
    );
    // The escrow is directional: it serves alice's tips to carol only, so a
    // different initiator tipping carol still needs an escrow of their own.
    assert_eq!(
        resolve_recipient_address(&ctx, "bob", "carol"),
        RecipientResolution::TransitionWalletNeeded
    );

    // Once the recipient owns a wallet, it wins over the escrow.
    TipOwnedWallet::create(
        &mut ctx,
        "carol",
        "another phrase".to_string(),
        "spectre:carol".to_string(),
        3,
        0,
    )
    .unwrap();
    assert_eq!(
        resolve_recipient_address(&ctx, "alice", "carol"),
        RecipientResolution::OwnedWallet {
            receive_address: "spectre:carol".to_string(),
        }
    );
}

#[test]
fn node_must_be_synced_and_carry_a_utxo_index() {
    assert!(check_node_status(true, true).is_ok());
    assert_eq!(
        check_node_status(false, true).unwrap_err(),
        Error::Engine("node is not synced".to_string())
    );
    assert_eq!(
        check_node_status(true, false).unwrap_err(),
        Error::Engine("node is running without UTXO index".to_string())
    );
}
