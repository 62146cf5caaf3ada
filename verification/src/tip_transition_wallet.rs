//! Escrow ("transition") wallets: short-lived, system-generated wallets that
//! receive a tip on behalf of a recipient who has no owned wallet yet.
//!
//! An escrow wallet is keyed by the directional (initiator, target) identity
//! pair through the deterministic identifier. Its unlock secret is generated
//! by the system, not the user, and is persisted in cleartext alongside the
//! metadata so that any process instance can reopen the wallet later — for
//! the claim that drains it into the target's own wallet.

use vstd::prelude::*;

use crate::error::Error;
use crate::keyed_seq::{find_first, has_match, lemma_find_first_push};
use crate::tip_context::{context_unchanged, tip_context_wf, TipContext};
use crate::tip_owned_wallet::WalletOpenOutcome;
use crate::transition_wallet_metadata::{
    transition_identifier_is, TransitionWalletMetadata,
};
use crate::utils::{build_transition_wallet_identifier, transition_wallet_identifier};

verus! {

/// A live escrow wallet between one initiator and one target.
#[derive(Debug, PartialEq, Eq)]
pub struct TipTransitionWallet {
    pub target_identifier: String,
    pub initiator_identifier: String,
    /// The opaque ticket under which the caller keeps the engine handle.
    pub wallet_handle: u64,
    /// The escrow wallet's receive address.
    pub receive_address: String,
}

impl Clone for TipTransitionWallet {
    /// A clone is the same escrow entry.
    fn clone(&self) -> (r: Self)
        ensures
            r == *self,
    {
        TipTransitionWallet {
            target_identifier: self.target_identifier.clone(),
            initiator_identifier: self.initiator_identifier.clone(),
            wallet_handle: self.wallet_handle,
            receive_address: self.receive_address.clone(),
        }
    }
}

impl TipTransitionWallet {
    /// Builds the runtime value for an escrow wallet.
    pub fn new(
        initiator_identifier: String,
        target_identifier: String,
        wallet_handle: u64,
        receive_address: String,
    ) -> (r: Self)
        ensures
            r.initiator_identifier == initiator_identifier,
            r.target_identifier == target_identifier,
            r.wallet_handle == wallet_handle,
            r.receive_address == receive_address,
    {
        TipTransitionWallet { initiator_identifier, target_identifier, receive_address, wallet_handle }
    }

    /// The identity the escrowed funds are addressed to.
    pub fn target_identifier(&self) -> (r: &str)
        ensures
            r@ == self.target_identifier@,
    {
        self.target_identifier.as_str()
    }

    /// The ticket of the engine handle.
    pub fn wallet(&self) -> (r: u64)
        ensures
            r == self.wallet_handle,
    {
        self.wallet_handle
    }

    /// The escrow wallet's receive address.
    pub fn receive_address(&self) -> (r: String)
        ensures
            r@ == self.receive_address@,
    {
        self.receive_address.clone()
    }

    /// The deterministic identifier this escrow wallet is stored under.
    pub fn wallet_identifier(&self) -> (r: String)
        ensures
            r@ == transition_wallet_identifier(self.target_identifier@, self.initiator_identifier@),
    {
        build_transition_wallet_identifier(
            self.target_identifier.as_str(),
            self.initiator_identifier.as_str(),
        )
    }

    /// Creates the escrow wallet for a directional (initiator, target) pair:
    /// persists its metadata record — deterministic identifier, both
    /// identities, receive address, and the system-generated unlock secret in
    /// cleartext — and returns the live value. Refused with
    /// `TransitionWalletAlreadyExists`, with nothing changed, when the pair
    /// already has a record; a caller racing another send should treat that
    /// as "use the existing one", not as fatal.
    ///
    /// The engine has already derived the key material, encrypted under the
    /// generated secret, and the receive address; the caller passes those in.
    pub fn create(
        tip_context: &mut TipContext,
        initiator_identifier: &str,
        target_identifier: &str,
        secret: String,
        receive_address: String,
        wallet_handle: u64,
    ) -> (r: Result<TipTransitionWallet, Error>)
        requires
            tip_context_wf(old(tip_context)),
        ensures
            tip_context_wf(final(tip_context)),
            ({
                let identifier = transition_wallet_identifier(
                    target_identifier@,
                    initiator_identifier@,
                );
                &&& has_match(
                    old(tip_context).transition_wallet_metadata_store@,
                    transition_identifier_is(identifier),
                ) ==> (r matches Err(e) && e == Error::TransitionWalletAlreadyExists
                    && context_unchanged(old(tip_context), final(tip_context)))
                &&& !has_match(
                    old(tip_context).transition_wallet_metadata_store@,
                    transition_identifier_is(identifier),
                ) ==> (r matches Ok(w) && {
                    let trans = final(tip_context).transition_wallet_metadata_store@;
                    &&& w.initiator_identifier@ == initiator_identifier@
                    &&& w.target_identifier@ == target_identifier@
                    &&& w.receive_address == receive_address
                    &&& w.wallet_handle == wallet_handle
                    &&& trans == old(tip_context).transition_wallet_metadata_store@.push(
                        trans.last(),
                    )
                    &&& trans.last().identifier@ == identifier
                    &&& trans.last().target_identifier@ == target_identifier@
                    &&& trans.last().initiator_identifier@ == initiator_identifier@
                    &&& trans.last().receive_address@ == receive_address@
                    &&& trans.last().secret == secret
                    &&& find_first(trans, transition_identifier_is(identifier)) == Some(
                        trans.last(),
                    )
                    &&& forall|k: Seq<char>|
                        k != identifier ==> #[trigger] find_first(
                            trans,
                            transition_identifier_is(k),
                        ) == find_first(
                            old(tip_context).transition_wallet_metadata_store@,
                            transition_identifier_is(k),
                        )
                    &&& final(tip_context).opened_wallets() == old(tip_context).opened_wallets()
                    &&& final(tip_context).owned_wallet_metadata_store@ == old(
                        tip_context,
                    ).owned_wallet_metadata_store@
                    &&& final(tip_context).network_id == old(tip_context).network_id
                    &&& final(tip_context).forced_node_url == old(tip_context).forced_node_url
                })
            }),
    {
        let wallet_identifier = build_transition_wallet_identifier(
            target_identifier,
            initiator_identifier,
        );
        let record = TransitionWalletMetadata::new(
            wallet_identifier,
            String::from_str(target_identifier),
            String::from_str(initiator_identifier),
            receive_address.clone(),
            secret,
        );
        let ghost pre_trans = tip_context.transition_wallet_metadata_store@;
        match tip_context.transition_wallet_metadata_store.add(&record) {
            Ok(_) => (),
            Err(_) => {
                return Err(Error::TransitionWalletAlreadyExists);
            },
        }
        proof {
            let identifier = transition_wallet_identifier(
                target_identifier@,
                initiator_identifier@,
            );
            assert forall|k: Seq<char>| k != identifier implies #[trigger] find_first(
                tip_context.transition_wallet_metadata_store@,
                transition_identifier_is(k),
            ) == find_first(pre_trans, transition_identifier_is(k)) by {
                lemma_find_first_push(pre_trans, transition_identifier_is(k), record);
            }
            lemma_find_first_push(pre_trans, transition_identifier_is(identifier), record);
        }
        Ok(
            TipTransitionWallet::new(
                String::from_str(initiator_identifier),
                String::from_str(target_identifier),
                wallet_handle,
                receive_address,
            ),
        )
    }

    /// Opens an existing escrow wallet from the engine's outcome, obtained
    /// with the stored secret under the pair's deterministic identifier. A
    /// refused secret is reported as `WalletDecrypt`; a missing persisted
    /// wallet as `NotInitiated`; anything else passes through as `Engine`.
    pub fn open(
        initiator_identifier: &str,
        target_identifier: &str,
        outcome: WalletOpenOutcome,
    ) -> (r: Result<TipTransitionWallet, Error>)
        ensures
            match outcome {
                WalletOpenOutcome::Opened { receive_address, wallet_handle } => r matches Ok(w) && {
                    &&& w.initiator_identifier@ == initiator_identifier@
                    &&& w.target_identifier@ == target_identifier@
                    &&& w.receive_address == receive_address
                    &&& w.wallet_handle == wallet_handle
                },
                WalletOpenOutcome::DecryptFailed(cause) => r matches Err(e) && e
                    == Error::WalletDecrypt(cause),
                WalletOpenOutcome::NotFound => r matches Err(e) && e == Error::NotInitiated,
                WalletOpenOutcome::Failed(cause) => r matches Err(e) && e == Error::Engine(cause),
            },
    {
        match outcome {
            WalletOpenOutcome::Opened { receive_address, wallet_handle } => Ok(
                TipTransitionWallet::new(
                    String::from_str(initiator_identifier),
                    String::from_str(target_identifier),
                    wallet_handle,
                    receive_address,
                ),
            ),
            WalletOpenOutcome::DecryptFailed(cause) => Err(Error::WalletDecrypt(cause)),
            WalletOpenOutcome::NotFound => Err(Error::NotInitiated),
            WalletOpenOutcome::Failed(cause) => Err(Error::Engine(cause)),
        }
    }
}

} // verus!
