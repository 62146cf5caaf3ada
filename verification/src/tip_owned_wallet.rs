//! A user's durable, secret-protected wallet, and its lifecycle.
//!
//! The runtime value pairs the owner's identity with the engine handle and
//! the wallet's primary receive address. The lifecycle operations move an
//! owner through `Unknown -> Initiated -> Open -> Initiated | Destroyed`:
//! each takes the relevant wallet-engine outcome as a plain value and decides
//! what the registry and the metadata store do with it.

use vstd::prelude::*;

use crate::error::Error;
use crate::keyed_seq::{
    find_first, has_match, lemma_find_first_push, lemma_remove_first_none, remove_first,
};
use crate::owned_wallet_metadata::{owner_is, OwnedWalletMetadata};
use crate::tip_context::{
    context_unchanged, tip_context_wf, wallet_is_initiated, wallet_is_open, wallet_owner_is,
    TipContext,
};

verus! {

/// What the wallet engine reported when asked to open (or create) a wallet
/// for an identity: the derived receive address and the caller's ticket for
/// the live handle, or how the attempt failed.
#[derive(Debug, PartialEq, Eq)]
pub enum WalletOpenOutcome {
    /// The engine opened the wallet; the caller holds the handle under the
    /// given ticket.
    Opened { receive_address: String, wallet_handle: u64 },
    /// The engine refused the supplied secret; its message rides along.
    DecryptFailed(String),
    /// The engine has no persisted wallet for the identity.
    NotFound,
    /// Any other engine failure, with its message.
    Failed(String),
}

/// What the wallet engine reported when asked to re-encrypt a wallet's key
/// material under a new secret.
#[derive(Debug, PartialEq, Eq)]
pub enum SecretChangeOutcome {
    /// The key material is now encrypted under the new secret.
    Changed,
    /// The engine refused the old secret; its message rides along.
    DecryptFailed(String),
    /// Any other engine failure, with its message.
    Failed(String),
}

/// A balance as the wallet engine reports it.
#[derive(Debug, Clone, Copy, PartialEq, Eq, Structural)]
pub struct BalanceSnapshot {
    /// Confirmed, spendable sompi.
    pub mature: u64,
    /// Sompi still awaiting confirmation.
    pub pending: u64,
    pub mature_utxo_count: u64,
    pub pending_utxo_count: u64,
}

/// What `status` reports for one owner identity.
#[derive(Debug, Clone, Copy, PartialEq, Eq, Structural)]
pub struct WalletStatus {
    /// Whether a live registry entry exists.
    pub is_opened: bool,
    /// Whether a durable metadata record exists.
    pub is_initiated: bool,
    /// Confirmed balance of the owned wallet, in sompi.
    pub mature_balance: u64,
    /// Unconfirmed balance of the owned wallet, in sompi.
    pub pending_balance: u64,
    /// Aggregate escrow balance still waiting to be claimed, in sompi.
    pub pending_escrow_balance: u64,
}

/// A live, open owned wallet: the registry entry for one owner identity.
#[derive(Debug, PartialEq, Eq)]
pub struct TipOwnedWallet {
    /// The owner's external chat identity; the registry key.
    pub owned_identifier: String,
    /// The opaque ticket under which the caller keeps the engine handle.
    pub wallet_handle: u64,
    /// The wallet's primary receive address.
    pub receive_address: String,
    /// When the wallet was opened, in milliseconds of the caller's clock.
    pub opened_at: u64,
}

impl Clone for TipOwnedWallet {
    /// A clone is the same wallet entry.
    fn clone(&self) -> (r: Self)
        ensures
            r == *self,
    {
        TipOwnedWallet {
            owned_identifier: self.owned_identifier.clone(),
            wallet_handle: self.wallet_handle,
            receive_address: self.receive_address.clone(),
            opened_at: self.opened_at,
        }
    }
}

impl TipOwnedWallet {
    /// Builds the registry entry for an owner.
    pub fn new(
        owned_identifier: String,
        wallet_handle: u64,
        receive_address: String,
        opened_at: u64,
    ) -> (r: Self)
        ensures
            r.owned_identifier == owned_identifier,
            r.wallet_handle == wallet_handle,
            r.receive_address == receive_address,
            r.opened_at == opened_at,
    {
        TipOwnedWallet { owned_identifier, wallet_handle, receive_address, opened_at }
    }

    /// The owner's identity.
    pub fn owned_identifier(&self) -> (r: &str)
        ensures
            r@ == self.owned_identifier@,
    {
        self.owned_identifier.as_str()
    }

    /// The ticket of the engine handle.
    pub fn wallet(&self) -> (r: u64)
        ensures
            r == self.wallet_handle,
    {
        self.wallet_handle
    }

    /// The wallet's primary receive address.
    pub fn receive_address(&self) -> (r: String)
        ensures
            r@ == self.receive_address@,
    {
        self.receive_address.clone()
    }

    /// Creates an owner's durable wallet: persists the metadata record and
    /// registers the live handle, returning the wallet and the recovery
    /// phrase. The phrase is returned exactly once and never kept: no state
    /// component holds it afterwards.
    ///
    /// Refused with `OwnedWalletAlreadyExists`, with nothing changed, when
    /// the owner is already initiated or already open — so a repeated
    /// `create` for the same owner, from any state in which the first one
    /// succeeded, is always refused.
    ///
    /// The engine has already derived the key material (encrypted at rest
    /// under the user's secret), the recovery phrase and the primary receive
    /// address; the caller passes those results in.
    pub fn create(
        tip_context: &mut TipContext,
        owned_identifier: &str,
        mnemonic: String,
        receive_address: String,
        wallet_handle: u64,
        opened_at: u64,
    ) -> (r: Result<(TipOwnedWallet, String), Error>)
        requires
            tip_context_wf(old(tip_context)),
        ensures
            tip_context_wf(final(tip_context)),
            wallet_is_initiated(old(tip_context), owned_identifier@) || wallet_is_open(
                old(tip_context),
                owned_identifier@,
            ) ==> (r matches Err(e) && e == Error::OwnedWalletAlreadyExists && context_unchanged(
                old(tip_context),
                final(tip_context),
            )),
            !wallet_is_initiated(old(tip_context), owned_identifier@) && !wallet_is_open(
                old(tip_context),
                owned_identifier@,
            ) ==> (r matches Ok(created) && {
                let meta = final(tip_context).owned_wallet_metadata_store@;
                &&& created.0.owned_identifier@ == owned_identifier@
                &&& created.0.receive_address == receive_address
                &&& created.0.wallet_handle == wallet_handle
                &&& created.0.opened_at == opened_at
                &&& created.1 == mnemonic
                &&& meta == old(tip_context).owned_wallet_metadata_store@.push(meta.last())
                &&& meta.last().owner_identifier@ == owned_identifier@
                &&& meta.last().receive_address@ == receive_address@
                &&& wallet_is_initiated(final(tip_context), owned_identifier@)
                &&& final(tip_context).opened_wallets() == old(
                    tip_context,
                ).opened_wallets().push(created.0)
                &&& find_first(
                    final(tip_context).opened_wallets(),
                    wallet_owner_is(owned_identifier@),
                ) == Some(created.0)
                &&& forall|k: Seq<char>|
                    k != owned_identifier@ ==> #[trigger] find_first(
                        final(tip_context).owned_wallet_metadata_store@,
                        owner_is(k),
                    ) == find_first(old(tip_context).owned_wallet_metadata_store@, owner_is(k))
                &&& forall|k: Seq<char>|
                    k != owned_identifier@ ==> #[trigger] find_first(
                        final(tip_context).opened_wallets(),
                        wallet_owner_is(k),
                    ) == find_first(old(tip_context).opened_wallets(), wallet_owner_is(k))
                &&& final(tip_context).transition_wallet_metadata_store@ == old(
                    tip_context,
                ).transition_wallet_metadata_store@
                &&& final(tip_context).network_id == old(tip_context).network_id
                &&& final(tip_context).forced_node_url == old(tip_context).forced_node_url
            }),
    {
        let is_open = tip_context.does_opened_owned_wallet_exists(owned_identifier);
        let is_initiated = tip_context
            .owned_wallet_metadata_store
            .find_owned_wallet_metadata_by_owner_identifier(owned_identifier)
            .is_ok();
        if is_open || is_initiated {
            return Err(Error::OwnedWalletAlreadyExists);
        }
        let record = OwnedWalletMetadata::new(
            String::from_str(owned_identifier),
            receive_address.clone(),
        );
        let ghost pre_meta = tip_context.owned_wallet_metadata_store@;
        match tip_context.owned_wallet_metadata_store.add(&record) {
            Ok(_) => (),
            // The owner was just checked absent, so the store cannot refuse.
            Err(_) => {
                proof {
                    assert(false);
                }
                return Err(Error::OwnedWalletAlreadyExists);
            },
        }
        proof {
            assert forall|k: Seq<char>| k != owned_identifier@ implies #[trigger] find_first(
                tip_context.owned_wallet_metadata_store@,
                owner_is(k),
            ) == find_first(pre_meta, owner_is(k)) by {
                lemma_find_first_push(pre_meta, owner_is(k), record);
            }
            lemma_find_first_push(pre_meta, owner_is(owned_identifier@), record);
            lemma_remove_first_none(
                tip_context.opened_wallets(),
                wallet_owner_is(owned_identifier@),
            );
        }
        let wallet = TipOwnedWallet::new(
            String::from_str(owned_identifier),
            wallet_handle,
            receive_address,
            opened_at,
        );
        let stored = tip_context.add_opened_owned_wallet(String::from_str(owned_identifier), wallet);
        Ok((stored, mnemonic))
    }

    /// Opens an owner's wallet from the engine's outcome. If the owner is
    /// already open, the existing live entry is returned untouched and the
    /// outcome is ignored: nothing is re-derived. A refused secret is
    /// reported as `WalletDecrypt` — always distinguishable from every other
    /// failure — and, like every failure, mutates neither the registry nor
    /// any store. A missing persisted wallet is reported as `NotInitiated`.
    pub fn open(
        tip_context: &mut TipContext,
        owned_identifier: &str,
        outcome: WalletOpenOutcome,
        opened_at: u64,
    ) -> (r: Result<TipOwnedWallet, Error>)
        requires
            tip_context_wf(old(tip_context)),
        ensures
            tip_context_wf(final(tip_context)),
            wallet_is_open(old(tip_context), owned_identifier@) ==> (r matches Ok(w) && Some(w)
                == find_first(
                old(tip_context).opened_wallets(),
                wallet_owner_is(owned_identifier@),
            ) && context_unchanged(old(tip_context), final(tip_context))),
            !wallet_is_open(old(tip_context), owned_identifier@) ==> match outcome {
                WalletOpenOutcome::Opened { receive_address, wallet_handle } => r matches Ok(w) && {
                    &&& w.owned_identifier@ == owned_identifier@
                    &&& w.receive_address == receive_address
                    &&& w.wallet_handle == wallet_handle
                    &&& w.opened_at == opened_at
                    &&& final(tip_context).opened_wallets() == old(
                        tip_context,
                    ).opened_wallets().push(w)
                    &&& find_first(
                        final(tip_context).opened_wallets(),
                        wallet_owner_is(owned_identifier@),
                    ) == Some(w)
                    &&& forall|k: Seq<char>|
                        k != owned_identifier@ ==> #[trigger] find_first(
                            final(tip_context).opened_wallets(),
                            wallet_owner_is(k),
                        ) == find_first(old(tip_context).opened_wallets(), wallet_owner_is(k))
                    &&& final(tip_context).owned_wallet_metadata_store@ == old(
                        tip_context,
                    ).owned_wallet_metadata_store@
                    &&& final(tip_context).transition_wallet_metadata_store@ == old(
                        tip_context,
                    ).transition_wallet_metadata_store@
                    &&& final(tip_context).network_id == old(tip_context).network_id
                    &&& final(tip_context).forced_node_url == old(tip_context).forced_node_url
                },
                WalletOpenOutcome::DecryptFailed(cause) => r matches Err(e) && e
                    == Error::WalletDecrypt(cause) && context_unchanged(
                    old(tip_context),
                    final(tip_context),
                ),
                WalletOpenOutcome::NotFound => r matches Err(e) && e == Error::NotInitiated
                    && context_unchanged(old(tip_context), final(tip_context)),
                WalletOpenOutcome::Failed(cause) => r matches Err(e) && e == Error::Engine(cause)
                    && context_unchanged(old(tip_context), final(tip_context)),
            },
    {
        if let Some(existing) = tip_context.get_opened_owned_wallet(owned_identifier) {
            return Ok(existing);
        }
        proof {
            lemma_remove_first_none(
                tip_context.opened_wallets(),
                wallet_owner_is(owned_identifier@),
            );
        }
        match outcome {
            WalletOpenOutcome::Opened { receive_address, wallet_handle } => {
                let wallet = TipOwnedWallet::new(
                    String::from_str(owned_identifier),
                    wallet_handle,
                    receive_address,
                    opened_at,
                );
                let stored = tip_context.add_opened_owned_wallet(
                    String::from_str(owned_identifier),
                    wallet,
                );
                Ok(stored)
            },
            WalletOpenOutcome::DecryptFailed(cause) => Err(Error::WalletDecrypt(cause)),
            WalletOpenOutcome::NotFound => Err(Error::NotInitiated),
            WalletOpenOutcome::Failed(cause) => Err(Error::Engine(cause)),
        }
    }

    /// Restores an owner's wallet from a recovery phrase the engine has
    /// already turned into fresh key material: deletes any prior metadata
    /// record for the owner, persists the new one, and registers the live
    /// handle. Destructive and unconditional by design — it never checks for
    /// an existing wallet, and always succeeds; any warning or confirmation
    /// belongs to the calling layer.
    pub fn restore(
        tip_context: &mut TipContext,
        owned_identifier: &str,
        receive_address: String,
        wallet_handle: u64,
        opened_at: u64,
    ) -> (r: Result<TipOwnedWallet, Error>)
        requires
            tip_context_wf(old(tip_context)),
        ensures
            tip_context_wf(final(tip_context)),
            r matches Ok(w) && {
                let meta = final(tip_context).owned_wallet_metadata_store@;
                let pre_meta = old(tip_context).owned_wallet_metadata_store@;
                &&& w.owned_identifier@ == owned_identifier@
                &&& w.receive_address == receive_address
                &&& w.wallet_handle == wallet_handle
                &&& w.opened_at == opened_at
                &&& meta == remove_first(pre_meta, owner_is(owned_identifier@)).push(meta.last())
                &&& meta.last().owner_identifier@ == owned_identifier@
                &&& meta.last().receive_address@ == receive_address@
                &&& wallet_is_initiated(final(tip_context), owned_identifier@)
                &&& final(tip_context).opened_wallets() == remove_first(
                    old(tip_context).opened_wallets(),
                    wallet_owner_is(owned_identifier@),
                ).push(w)
                &&& find_first(
                    final(tip_context).opened_wallets(),
                    wallet_owner_is(owned_identifier@),
                ) == Some(w)
                &&& forall|k: Seq<char>|
                    k != owned_identifier@ ==> #[trigger] find_first(
                        final(tip_context).owned_wallet_metadata_store@,
                        owner_is(k),
                    ) == find_first(old(tip_context).owned_wallet_metadata_store@, owner_is(k))
                &&& forall|k: Seq<char>|
                    k != owned_identifier@ ==> #[trigger] find_first(
                        final(tip_context).opened_wallets(),
                        wallet_owner_is(k),
                    ) == find_first(old(tip_context).opened_wallets(), wallet_owner_is(k))
                &&& final(tip_context).transition_wallet_metadata_store@ == old(
                    tip_context,
                ).transition_wallet_metadata_store@
                &&& final(tip_context).network_id == old(tip_context).network_id
                &&& final(tip_context).forced_node_url == old(tip_context).forced_node_url
            },
    {
        tip_context.owned_wallet_metadata_store.remove_by_owner_identifier(owned_identifier);
        let record = OwnedWalletMetadata::new(
            String::from_str(owned_identifier),
            receive_address.clone(),
        );
        let ghost mid_meta = tip_context.owned_wallet_metadata_store@;
        match tip_context.owned_wallet_metadata_store.add(&record) {
            Ok(_) => (),
            // The owner's record was just removed, so the store cannot refuse.
            Err(_) => {
                proof {
                    assert(false);
                }
                return Err(Error::OwnedWalletAlreadyExists);
            },
        }
        proof {
            assert forall|k: Seq<char>| k != owned_identifier@ implies #[trigger] find_first(
                tip_context.owned_wallet_metadata_store@,
                owner_is(k),
            ) == find_first(old(tip_context).owned_wallet_metadata_store@, owner_is(k)) by {
                lemma_find_first_push(mid_meta, owner_is(k), record);
            }
            lemma_find_first_push(mid_meta, owner_is(owned_identifier@), record);
        }
        let wallet = TipOwnedWallet::new(
            String::from_str(owned_identifier),
            wallet_handle,
            receive_address,
            opened_at,
        );
        let stored = tip_context.add_opened_owned_wallet(String::from_str(owned_identifier), wallet);
        Ok(stored)
    }

    /// Destroys an owner's wallet: removes the live registry entry, if any,
    /// and deletes the metadata record. Afterwards the owner is neither
    /// initiated nor open, so `status` reports both as false. The removed
    /// entry is handed back so the caller can close the engine handle and
    /// delete the persisted key material. Fails with `NotInitiated`, with
    /// nothing changed, when no metadata record and no live entry exist.
    pub fn destroy(tip_context: &mut TipContext, owned_identifier: &str) -> (r: Result<
        Option<TipOwnedWallet>,
        Error,
    >)
        requires
            tip_context_wf(old(tip_context)),
        ensures
            tip_context_wf(final(tip_context)),
            !wallet_is_initiated(old(tip_context), owned_identifier@) && !wallet_is_open(
                old(tip_context),
                owned_identifier@,
            ) ==> (r matches Err(e) && e == Error::NotInitiated && context_unchanged(
                old(tip_context),
                final(tip_context),
            )),
            wallet_is_initiated(old(tip_context), owned_identifier@) || wallet_is_open(
                old(tip_context),
                owned_identifier@,
            ) ==> (r matches Ok(prior) && {
                &&& prior == find_first(
                    old(tip_context).opened_wallets(),
                    wallet_owner_is(owned_identifier@),
                )
                &&& !wallet_is_initiated(final(tip_context), owned_identifier@)
                &&& !wallet_is_open(final(tip_context), owned_identifier@)
                &&& final(tip_context).owned_wallet_metadata_store@ == remove_first(
                    old(tip_context).owned_wallet_metadata_store@,
                    owner_is(owned_identifier@),
                )
                &&& final(tip_context).opened_wallets() == remove_first(
                    old(tip_context).opened_wallets(),
                    wallet_owner_is(owned_identifier@),
                )
                &&& forall|k: Seq<char>|
                    k != owned_identifier@ ==> #[trigger] find_first(
                        final(tip_context).owned_wallet_metadata_store@,
                        owner_is(k),
                    ) == find_first(old(tip_context).owned_wallet_metadata_store@, owner_is(k))
                &&& forall|k: Seq<char>|
                    k != owned_identifier@ ==> #[trigger] find_first(
                        final(tip_context).opened_wallets(),
                        wallet_owner_is(k),
                    ) == find_first(old(tip_context).opened_wallets(), wallet_owner_is(k))
                &&& final(tip_context).transition_wallet_metadata_store@ == old(
                    tip_context,
                ).transition_wallet_metadata_store@
                &&& final(tip_context).network_id == old(tip_context).network_id
                &&& final(tip_context).forced_node_url == old(tip_context).forced_node_url
            }),
    {
        let is_open = tip_context.does_opened_owned_wallet_exists(owned_identifier);
        let is_initiated = tip_context
            .owned_wallet_metadata_store
            .find_owned_wallet_metadata_by_owner_identifier(owned_identifier)
            .is_ok();
        if !is_open && !is_initiated {
            return Err(Error::NotInitiated);
        }
        let prior = tip_context.remove_opened_owned_wallet(owned_identifier);
        tip_context.owned_wallet_metadata_store.remove_by_owner_identifier(owned_identifier);
        Ok(prior)
    }

    /// Reports one owner's status: whether a live registry entry exists,
    /// whether a durable metadata record exists (the two are independent),
    /// the engine-reported balances — zero when the caller has none, as for
    /// a wallet that is not open — and the aggregate escrow balance still
    /// addressed to the owner.
    pub fn status(
        tip_context: &TipContext,
        owned_identifier: &str,
        balance: Option<&BalanceSnapshot>,
        pending_escrow_balance: u64,
    ) -> (r: WalletStatus)
        ensures
            r.is_opened == wallet_is_open(tip_context, owned_identifier@),
            r.is_initiated == wallet_is_initiated(tip_context, owned_identifier@),
            r.mature_balance == match balance {
                Some(b) => b.mature,
                None => 0u64,
            },
            r.pending_balance == match balance {
                Some(b) => b.pending,
                None => 0u64,
            },
            r.pending_escrow_balance == pending_escrow_balance,
    {
        let is_opened = tip_context.does_opened_owned_wallet_exists(owned_identifier);
        let is_initiated = tip_context
            .owned_wallet_metadata_store
            .find_owned_wallet_metadata_by_owner_identifier(owned_identifier)
            .is_ok();
        let (mature_balance, pending_balance) = match balance {
            Some(b) => (b.mature, b.pending),
            None => (0u64, 0u64),
        };
        WalletStatus {
            is_opened,
            is_initiated,
            mature_balance,
            pending_balance,
            pending_escrow_balance,
        }
    }

    /// Decides a secret change for one owner: refused with `WalletNotOpen`
    /// when the owner has no live entry — in that case the engine outcome is
    /// ignored and the caller need not have consulted the engine at all.
    /// Otherwise the engine outcome decides: a refused old secret is
    /// `WalletDecrypt`, any other failure passes through as `Engine`.
    pub fn change_secret(
        tip_context: &TipContext,
        owned_identifier: &str,
        outcome: SecretChangeOutcome,
    ) -> (r: Result<(), Error>)
        ensures
            !wallet_is_open(tip_context, owned_identifier@) ==> (r matches Err(e) && e
                == Error::WalletNotOpen),
            wallet_is_open(tip_context, owned_identifier@) ==> match outcome {
                SecretChangeOutcome::Changed => r is Ok,
                SecretChangeOutcome::DecryptFailed(cause) => r matches Err(e) && e
                    == Error::WalletDecrypt(cause),
                SecretChangeOutcome::Failed(cause) => r matches Err(e) && e == Error::Engine(
                    cause,
                ),
            },
    {
        if !tip_context.does_opened_owned_wallet_exists(owned_identifier) {
            return Err(Error::WalletNotOpen);
        }
        match outcome {
            SecretChangeOutcome::Changed => Ok(()),
            SecretChangeOutcome::DecryptFailed(cause) => Err(Error::WalletDecrypt(cause)),
            SecretChangeOutcome::Failed(cause) => Err(Error::Engine(cause)),
        }
    }
}

/// A wallet created once stays initiated: a successful `create` appends the
/// owner's metadata record, so in the resulting state — and in every later
/// state whose owned-wallet store still holds a record for the owner, which
/// every operation but `destroy` and `restore` preserves — a second `create`
/// for the same owner meets its already-initiated case and is refused with
/// `OwnedWalletAlreadyExists`, changing nothing.
pub proof fn lemma_created_owner_stays_initiated(
    pre_meta: Seq<OwnedWalletMetadata>,
    record: OwnedWalletMetadata,
    owner_identifier: Seq<char>,
)
    requires
        record.owner_identifier@ == owner_identifier,
    ensures
        find_first(pre_meta.push(record), owner_is(owner_identifier)) is Some,
{
    lemma_find_first_push(pre_meta, owner_is(owner_identifier), record);
}

/// Why the refusal of a repeated `create` carries through every state
/// reachable without `destroy` or `restore`: each of those operations either
/// leaves the owned-wallet store untouched (`open`, `close`, escrow
/// creation, claims, `status`) or appends one record — and neither step can
/// un-initiate an owner.
pub proof fn lemma_initiated_is_preserved(
    pre_meta: Seq<OwnedWalletMetadata>,
    post_meta: Seq<OwnedWalletMetadata>,
    owner_identifier: Seq<char>,
)
    requires
        has_match(pre_meta, owner_is(owner_identifier)),
        post_meta == pre_meta || (exists|record: OwnedWalletMetadata|
            post_meta == pre_meta.push(record)),
    ensures
        has_match(post_meta, owner_is(owner_identifier)),
{
    if post_meta != pre_meta {
        let record = choose|record: OwnedWalletMetadata| post_meta == pre_meta.push(record);
        lemma_find_first_push(pre_meta, owner_is(owner_identifier), record);
    }
}

} // verus!
