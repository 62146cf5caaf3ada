//! Preparing a tip from one chat identity to another.
//!
//! A send needs the sender's wallet to be initiated and open, a positive
//! well-formed amount, and an address to pay: the recipient's own wallet if
//! they have one, otherwise the escrow wallet of this (sender, recipient)
//! pair — an existing one, or a fresh one the caller must create first. All
//! of that is decided here; building, signing and broadcasting the
//! transaction happen outside.

use vstd::prelude::*;

use crate::error::Error;
use crate::keyed_seq::find_first;
use crate::owned_wallet_metadata::owner_is;
use crate::tip_context::{wallet_is_initiated, wallet_is_open, TipContext};
use crate::transition_wallet_metadata::transition_couple_is;
use crate::utils::{
    spectre_amount_sompi, try_parse_required_nonzero_spectre_as_sompi_u64, valid_spectre_amount,
};

verus! {

/// Where a tip to the recipient must be paid.
#[derive(Debug, PartialEq, Eq)]
pub enum RecipientResolution {
    /// The recipient owns a wallet: pay its receive address directly.
    OwnedWallet { receive_address: String },
    /// No owned wallet, but this (sender, recipient) pair already has an
    /// escrow wallet: pay its receive address.
    ExistingTransitionWallet { receive_address: String },
    /// Neither exists yet: an escrow wallet must be created for the pair
    /// before the tip can be paid.
    TransitionWalletNeeded,
}

/// What `prepare_send` settled on: the amount in sompi and where it goes.
#[derive(Debug, PartialEq, Eq)]
pub struct SendPlan {
    pub amount_sompi: u64,
    pub resolution: RecipientResolution,
}

/// Where the resolution must point, given the two stores.
pub open spec fn resolution_matches(
    tip_context: &TipContext,
    initiator_identifier: Seq<char>,
    recipient_identifier: Seq<char>,
    r: RecipientResolution,
) -> bool {
    match find_first(tip_context.owned_wallet_metadata_store@, owner_is(recipient_identifier)) {
        Some(m) => r matches RecipientResolution::OwnedWallet { receive_address }
            && receive_address == m.receive_address,
        None => match find_first(
            tip_context.transition_wallet_metadata_store@,
            transition_couple_is(initiator_identifier, recipient_identifier),
        ) {
            Some(t) => r matches RecipientResolution::ExistingTransitionWallet { receive_address }
                && receive_address == t.receive_address,
            None => r is TransitionWalletNeeded,
        },
    }
}

/// Finds where a tip from `initiator_identifier` to `recipient_identifier`
/// must be paid: the recipient's own wallet when one is initiated, otherwise
/// the pair's existing escrow wallet, otherwise nowhere yet.
pub fn resolve_recipient_address(
    tip_context: &TipContext,
    initiator_identifier: &str,
    recipient_identifier: &str,
) -> (r: RecipientResolution)
    ensures
        resolution_matches(tip_context, initiator_identifier@, recipient_identifier@, r),
{
    match tip_context
        .owned_wallet_metadata_store
        .find_owned_wallet_metadata_by_owner_identifier(recipient_identifier) {
        Ok(metadata) => RecipientResolution::OwnedWallet {
            receive_address: metadata.receive_address,
        },
        Err(_) => {
            match tip_context
                .transition_wallet_metadata_store
                .find_transition_wallet_metadata_by_identifier_couple(
                initiator_identifier,
                recipient_identifier,
            ) {
                Some(metadata) => RecipientResolution::ExistingTransitionWallet {
                    receive_address: metadata.receive_address,
                },
                None => RecipientResolution::TransitionWalletNeeded,
            }
        },
    }
}

/// Prepares a tip: the sender must be initiated (`NotInitiated`) and open
/// (`WalletNotOpen`); the amount must be a positive well-formed decimal that
/// fits in sompi (`InvalidAmount`), refused before anything else is
/// consulted; and the recipient's address is resolved as
/// `resolve_recipient_address` does. Nothing is mutated: creating a missing
/// escrow wallet and paying the plan are the caller's next steps.
pub fn prepare_send(
    tip_context: &TipContext,
    from_owner_identifier: &str,
    to_recipient_identifier: &str,
    amount: &str,
) -> (r: Result<SendPlan, Error>)
    ensures
        !wallet_is_initiated(tip_context, from_owner_identifier@) && !wallet_is_open(
            tip_context,
            from_owner_identifier@,
        ) ==> (r matches Err(e) && e == Error::NotInitiated),
        wallet_is_initiated(tip_context, from_owner_identifier@) && !wallet_is_open(
            tip_context,
            from_owner_identifier@,
        ) ==> (r matches Err(e) && e == Error::WalletNotOpen),
        wallet_is_open(tip_context, from_owner_identifier@) ==> {
            let ok = valid_spectre_amount(amount@) && 0 < spectre_amount_sompi(amount@)
                <= u64::MAX as int;
            &&& !ok ==> (r matches Err(e) && e == Error::InvalidAmount)
            &&& ok ==> (r matches Ok(plan) && plan.amount_sompi as int == spectre_amount_sompi(
                amount@,
            ) && resolution_matches(
                tip_context,
                from_owner_identifier@,
                to_recipient_identifier@,
                plan.resolution,
            ))
        },
{
    let is_opened = tip_context.does_opened_owned_wallet_exists(from_owner_identifier);
    let is_initiated = tip_context
        .owned_wallet_metadata_store
        .find_owned_wallet_metadata_by_owner_identifier(from_owner_identifier)
        .is_ok();
    if !is_initiated && !is_opened {
        return Err(Error::NotInitiated);
    }
    if !is_opened {
        return Err(Error::WalletNotOpen);
    }
    let amount_sompi = match try_parse_required_nonzero_spectre_as_sompi_u64(Some(amount)) {
        Ok(v) => v,
        Err(e) => {
            return Err(e);
        },
    };
    let resolution = resolve_recipient_address(
        tip_context,
        from_owner_identifier,
        to_recipient_identifier,
    );
    Ok(SendPlan { amount_sompi, resolution })
}

} // verus!
