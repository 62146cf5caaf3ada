//! The claim consolidator and the escrow lifecycle, with a per-test count of
//! how many sends the engine stand-in would perform.

use tipbot_core::claim::{
    aggregate_transition_balance, claim_plan, claim_precheck, forward_amount_after_fee,
    summarize_claim, ClaimAction, ClaimSourceResult, ClaimSourceStatus, EscrowBalance,
};
use tipbot_core::error::Error;
use tipbot_core::owned_wallet_metadata::OwnedWalletMetadataStore;
use tipbot_core::tip_context::TipContext;
use tipbot_core::tip_owned_wallet::{TipOwnedWallet, WalletOpenOutcome};
use tipbot_core::tip_transition_wallet::TipTransitionWallet;
use tipbot_core::transition_wallet_metadata::TransitionWalletMetadataStore;

fn fresh_context() -> TipContext {
    let owned = OwnedWalletMetadataStore::new(Vec::new()).unwrap();
    let transition = TransitionWalletMetadataStore::new(Vec::new()).unwrap();
    TipContext::new("mainnet".to_string(), None, owned, transition)
}

fn reading(identifier: &str, balance: Option<u64>) -> EscrowBalance {
    EscrowBalance {
        wallet_identifier: identifier.to_string(),
        balance,
    }
}

#[test]
fn claim_needs_the_target_wallet_open() {
    let ctx = fresh_context();
    let refused = claim_precheck(&ctx, "carol");
    assert_eq!(refused.unwrap_err(), Error::WalletNotOpen);
}

#[test]
fn claim_finds_the_open_target_wallet() {
    let mut ctx = fresh_context();
    let (wallet, _) = TipOwnedWallet::create(
        &mut ctx,
        "carol",
        "the phrase".to_string(),
        "spectre:carol".to_string(),
        4,
        0,
    )
    .unwrap();
    assert_eq!(claim_precheck(&ctx, "carol").unwrap(), wallet);
}

#[test]
fn claim_aggregates_and_attempts_only_the_funded_source() {
    // Escrow balances [500000, 0] sompi: the aggregate is 500000, exactly one
    // send is attempted, and the zero source is skipped, not failed.
    let reads = vec![
        reading("transition-carol-alice", Some(500_000)),
        reading("transition-carol-bob", Some(0)),
    ];
    assert_eq!(aggregate_transition_balance(&reads), 500_000u128);

    let plan = claim_plan(&reads).unwrap();
    assert_eq!(plan.len(), 2);
    assert_eq!(
        plan[0],
        ClaimAction::Attempt {
            wallet_identifier: "transition-carol-alice".to_string(),
            balance: 500_000,
        }
    );
    assert_eq!(
        plan[1],
        ClaimAction::Skipped {
            wallet_identifier: "transition-carol-bob".to_string(),
        }
    );

    // The engine stand-in: one send per Attempt in the plan.
    let mut sends = 0;
    for action in &plan {
        if let ClaimAction::Attempt { .. } = action {
            sends += 1;
        }
    }
    assert_eq!(sends, 1);
}

#[test]
fn claim_with_nothing_to_move_returns_no_funds_and_sends_nothing() {
    let reads = vec![
        reading("transition-carol-alice", Some(0)),
        reading("transition-carol-bob", None),
    ];
    assert_eq!(aggregate_transition_balance(&reads), 0u128);
    let refused = claim_plan(&reads);
    assert_eq!(refused.unwrap_err(), Error::NoFundsToClaim);
    // No plan exists, so the engine stand-in performs zero sends.
}

#[test]
fn claim_reports_an_unreadable_source_without_aborting_the_batch() {
    let reads = vec![
        reading("transition-carol-alice", None),
        reading("transition-carol-bob", Some(70)),
    ];
    assert_eq!(aggregate_transition_balance(&reads), 70u128);
    let plan = claim_plan(&reads).unwrap();
    assert_eq!(
        plan[0],
        ClaimAction::ReadFailed {
            wallet_identifier: "transition-carol-alice".to_string(),
        }
    );
    assert_eq!(
        plan[1],
        ClaimAction::Attempt {
            wallet_identifier: "transition-carol-bob".to_string(),
            balance: 70,
        }
    );
}

#[test]
fn forward_amount_subtracts_the_fee() {
    assert_eq!(forward_amount_after_fee(500_000, Some(10_000)), Some(490_000));
    assert_eq!(forward_amount_after_fee(500_000, Some(500_000)), None);
    assert_eq!(forward_amount_after_fee(500_000, Some(600_000)), None);
    assert_eq!(forward_amount_after_fee(500_000, None), None);
}

#[test]
fn claim_summary_enumerates_every_source() {
    let results = vec![
        ClaimSourceResult {
            wallet_identifier: "transition-carol-alice".to_string(),
            status: ClaimSourceStatus::Sent {
                tx_id: "tx-one".to_string(),
                amount: 490_000,
            },
        },
        ClaimSourceResult {
            wallet_identifier: "transition-carol-bob".to_string(),
            status: ClaimSourceStatus::Skipped,
        },
        ClaimSourceResult {
            wallet_identifier: "transition-carol-dave".to_string(),
            status: ClaimSourceStatus::ReadFailed,
        },
        ClaimSourceResult {
            wallet_identifier: "transition-carol-erin".to_string(),
            status: ClaimSourceStatus::SendFailed {
                reason: "fee estimation failed".to_string(),
            },
        },
    ];
    let summary = summarize_claim(&results);
    assert_eq!(summary.sent, 1);
    assert_eq!(summary.skipped, 1);
    assert_eq!(summary.read_failed, 1);
    assert_eq!(summary.send_failed, 1);
    assert_eq!(summary.total_swept, 490_000u128);
}

#[test]
fn escrow_create_persists_the_cleartext_secret() {
    let mut ctx = fresh_context();
    let wallet = TipTransitionWallet::create(
        &mut ctx,
        "alice",
        "carol",
        "generated-secret".to_string(),
        "spectre:escrow".to_string(),
        9,
    )
    .unwrap();
    assert_eq!(wallet.wallet_identifier(), "transition-carol-alice");
    assert_eq!(wallet.receive_address(), "spectre:escrow");
    assert_eq!(wallet.target_identifier(), "carol");

    let record = ctx
        .transition_wallet_metadata_store
        .find_transition_wallet_metadata_by_identifier_couple("alice", "carol")
        .unwrap();
    assert_eq!(record.secret, "generated-secret");
    assert_eq!(record.identifier, "transition-carol-alice");
}

#[test]
fn escrow_create_refuses_a_second_wallet_for_the_same_pair() {
    let mut ctx = fresh_context();
    TipTransitionWallet::create(
        &mut ctx,
        "alice",
        "carol",
        "first-secret".to_string(),
        "spectre:escrow".to_string(),
        9,
    )
    .unwrap();
    let duplicate = TipTransitionWallet::create(
        &mut ctx,
        "alice",
        "carol",
        "second-secret".to_string(),
        "spectre:other".to_string(),
        10,
    );
    assert_eq!(duplicate.unwrap_err(), Error::TransitionWalletAlreadyExists);
    assert_eq!(ctx.transition_wallet_metadata_store.records().len(), 1);
}

#[test]
fn escrow_open_maps_the_engine_outcomes() {
    let opened = TipTransitionWallet::open(
        "alice",
        "carol",
        WalletOpenOutcome::Opened {
            receive_address: "spectre:escrow".to_string(),
            wallet_handle: 12,
        },
    )
    .unwrap();
    assert_eq!(opened.wallet(), 12);
    assert_eq!(opened.wallet_identifier(), "transition-carol-alice");

    let wrong = TipTransitionWallet::open(
        "alice",
        "carol",
        WalletOpenOutcome::DecryptFailed("stored secret refused".to_string()),
    );
    assert_eq!(
        wrong.unwrap_err(),
        Error::WalletDecrypt("stored secret refused".to_string())
    );

    let missing = TipTransitionWallet::open("alice", "carol", WalletOpenOutcome::NotFound);
    assert_eq!(missing.unwrap_err(), Error::NotInitiated);
}
