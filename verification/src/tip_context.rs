//! The composition root: the registry of currently open owned wallets and
//! the two metadata stores.
//!
//! The registry never holds two live entries for the same owner identity;
//! `add_opened_owned_wallet` overwrites any prior entry under that key, and
//! removal hands the entry back so that the caller can close the engine
//! handle itself — the registry never closes anything on the caller's behalf.

use vstd::prelude::*;

use crate::keyed_seq::{
    find_first, first_match_at, has_match, lemma_find_first_at, lemma_find_first_none,
    lemma_find_first_push, lemma_push_preserves_unique, lemma_remove_first_at,
    lemma_remove_first_gone, lemma_remove_first_none, lemma_remove_first_other,
    lemma_remove_preserves_unique, remove_first, unique_keys,
};
use crate::owned_wallet_metadata::{owned_store_wf, owner_is, OwnedWalletMetadataStore};
use crate::tip_owned_wallet::TipOwnedWallet;
use crate::transition_wallet_metadata::{transition_store_wf, TransitionWalletMetadataStore};

verus! {

/// The registry entry's unique key.
pub open spec fn wallet_key() -> spec_fn(TipOwnedWallet) -> Seq<char> {
    |w: TipOwnedWallet| w.owned_identifier@
}

/// Matches the registry entry of the given owner.
pub open spec fn wallet_owner_is(owner_identifier: Seq<char>) -> spec_fn(TipOwnedWallet) -> bool {
    |w: TipOwnedWallet| w.owned_identifier@ == owner_identifier
}

/// The registry's invariant: at most one live entry per owner identity.
pub open spec fn registry_wf(s: Seq<TipOwnedWallet>) -> bool {
    unique_keys(s, wallet_key())
}

/// The process-wide context: registry plus the two stores.
#[derive(Debug)]
pub struct TipContext {
    /// The network this context talks to, as its identifier string.
    pub network_id: String,
    /// A node URL forced by configuration, if any.
    pub forced_node_url: Option<String>,
    pub opened_owned_wallets: Vec<TipOwnedWallet>,
    pub transition_wallet_metadata_store: TransitionWalletMetadataStore,
    pub owned_wallet_metadata_store: OwnedWalletMetadataStore,
}

/// The context's combined invariant.
pub open spec fn tip_context_wf(ctx: &TipContext) -> bool {
    &&& registry_wf(ctx.opened_wallets())
    &&& owned_store_wf(ctx.owned_wallet_metadata_store@)
    &&& transition_store_wf(ctx.transition_wallet_metadata_store@)
}

/// Nothing observable about the context differs between the two states.
pub open spec fn context_unchanged(pre: &TipContext, post: &TipContext) -> bool {
    &&& post.opened_wallets() == pre.opened_wallets()
    &&& post.owned_wallet_metadata_store@ == pre.owned_wallet_metadata_store@
    &&& post.transition_wallet_metadata_store@ == pre.transition_wallet_metadata_store@
    &&& post.network_id == pre.network_id
    &&& post.forced_node_url == pre.forced_node_url
}

/// Whether the owner's wallet is live in the registry.
pub open spec fn wallet_is_open(ctx: &TipContext, owner_identifier: Seq<char>) -> bool {
    has_match(ctx.opened_wallets(), wallet_owner_is(owner_identifier))
}

/// Whether the owner's wallet is initiated: a durable metadata record exists.
/// Independent of being open; the two are queried separately.
pub open spec fn wallet_is_initiated(ctx: &TipContext, owner_identifier: Seq<char>) -> bool {
    has_match(ctx.owned_wallet_metadata_store@, owner_is(owner_identifier))
}

impl TipContext {
    /// The live registry entries, in insertion order.
    pub open spec fn opened_wallets(&self) -> Seq<TipOwnedWallet> {
        self.opened_owned_wallets@
    }

    /// Builds a context around freshly loaded stores; no wallet is open yet.
    pub fn new(
        network_id: String,
        forced_node_url: Option<String>,
        owned_wallet_metadata_store: OwnedWalletMetadataStore,
        transition_wallet_metadata_store: TransitionWalletMetadataStore,
    ) -> (r: Self)
        requires
            owned_store_wf(owned_wallet_metadata_store@),
            transition_store_wf(transition_wallet_metadata_store@),
        ensures
            tip_context_wf(&r),
            r.opened_wallets() == Seq::<TipOwnedWallet>::empty(),
            r.owned_wallet_metadata_store@ == owned_wallet_metadata_store@,
            r.transition_wallet_metadata_store@ == transition_wallet_metadata_store@,
            r.network_id == network_id,
            r.forced_node_url == forced_node_url,
    {
        TipContext {
            network_id,
            forced_node_url,
            opened_owned_wallets: Vec::new(),
            transition_wallet_metadata_store,
            owned_wallet_metadata_store,
        }
    }

    /// The identifier of the network this context talks to.
    pub fn network_id(&self) -> (r: &String)
        ensures
            r == &self.network_id,
    {
        &self.network_id
    }

    /// The node URL forced by configuration, if any.
    pub fn forced_node_url(&self) -> (r: &Option<String>)
        ensures
            r == &self.forced_node_url,
    {
        &self.forced_node_url
    }

    /// Whether the owner has a live registry entry.
    pub fn does_opened_owned_wallet_exists(&self, identifier: &str) -> (r: bool)
        ensures
            r == wallet_is_open(self, identifier@),
    {
        let ghost p = wallet_owner_is(identifier@);
        let key = String::from_str(identifier);
        let n = self.opened_owned_wallets.len();
        let mut i: usize = 0;
        while i < n
            invariant
                0 <= i <= n == self.opened_wallets().len(),
                forall|j: int| 0 <= j < i ==> !p(#[trigger] self.opened_wallets()[j]),
            decreases n - i,
        {
            if self.opened_owned_wallets[i].owned_identifier == key {
                proof {
                    lemma_find_first_at(self.opened_wallets(), p, i as int);
                }
                return true;
            }
            i += 1;
        }
        proof {
            lemma_find_first_none(self.opened_wallets(), p);
        }
        false
    }

    /// A copy of the owner's live entry, if one exists. The copy shares the
    /// handle ticket, not any engine state.
    pub fn get_opened_owned_wallet(&self, identifier: &str) -> (r: Option<TipOwnedWallet>)
        ensures
            r == find_first(self.opened_wallets(), wallet_owner_is(identifier@)),
    {
        let ghost p = wallet_owner_is(identifier@);
        let key = String::from_str(identifier);
        let n = self.opened_owned_wallets.len();
        let mut i: usize = 0;
        while i < n
            invariant
                0 <= i <= n == self.opened_wallets().len(),
                forall|j: int| 0 <= j < i ==> !p(#[trigger] self.opened_wallets()[j]),
            decreases n - i,
        {
            if self.opened_owned_wallets[i].owned_identifier == key {
                proof {
                    lemma_find_first_at(self.opened_wallets(), p, i as int);
                }
                return Some(self.opened_owned_wallets[i].clone());
            }
            i += 1;
        }
        proof {
            lemma_find_first_none(self.opened_wallets(), p);
        }
        None
    }

    /// Removes the owner's live entry and hands it back; the caller is
    /// responsible for closing the engine handle afterwards. Every other
    /// owner's entry and both stores are untouched.
    pub fn remove_opened_owned_wallet(&mut self, identifier: &str) -> (r: Option<TipOwnedWallet>)
        requires
            tip_context_wf(old(self)),
        ensures
            tip_context_wf(final(self)),
            r == find_first(old(self).opened_wallets(), wallet_owner_is(identifier@)),
            final(self).opened_wallets() == remove_first(
                old(self).opened_wallets(),
                wallet_owner_is(identifier@),
            ),
            !wallet_is_open(final(self), identifier@),
            forall|k: Seq<char>|
                k != identifier@ ==> #[trigger] find_first(
                    final(self).opened_wallets(),
                    wallet_owner_is(k),
                ) == find_first(old(self).opened_wallets(), wallet_owner_is(k)),
            final(self).owned_wallet_metadata_store@ == old(self).owned_wallet_metadata_store@,
            final(self).transition_wallet_metadata_store@ == old(
                self,
            ).transition_wallet_metadata_store@,
            final(self).network_id == old(self).network_id,
            final(self).forced_node_url == old(self).forced_node_url,
    {
        let ghost p = wallet_owner_is(identifier@);
        let key = String::from_str(identifier);
        let n = self.opened_owned_wallets.len();
        let mut i: usize = 0;
        while i < n
            invariant
                0 <= i <= n == self.opened_wallets().len(),
                self == old(self),
                forall|j: int| 0 <= j < i ==> !p(#[trigger] self.opened_wallets()[j]),
            decreases n - i,
        {
            if self.opened_owned_wallets[i].owned_identifier == key {
                proof {
                    let s = self.opened_wallets();
                    assert(first_match_at(s, p, i as int));
                    lemma_find_first_at(s, p, i as int);
                    assert forall|j: int| 0 <= j < s.len() && j != i as int implies !p(
                        #[trigger] s[j],
                    ) by {
                        if j < i as int {
                            assert(wallet_key()(s[j]) != wallet_key()(s[i as int]));
                        } else {
                            assert(wallet_key()(s[i as int]) != wallet_key()(s[j]));
                        }
                    }
                    lemma_remove_first_at(s, p, i as int);
                    lemma_remove_preserves_unique(s, wallet_key(), i as int);
                    lemma_remove_first_gone(s, p, i as int);
                    assert forall|k: Seq<char>| k != identifier@ implies #[trigger] find_first(
                        s.remove(i as int),
                        wallet_owner_is(k),
                    ) == find_first(s, wallet_owner_is(k)) by {
                        lemma_remove_first_other(s, p, wallet_owner_is(k));
                    }
                }
                let removed = self.opened_owned_wallets.remove(i);
                return Some(removed);
            }
            i += 1;
        }
        proof {
            lemma_find_first_none(self.opened_wallets(), p);
            lemma_remove_first_none(self.opened_wallets(), p);
        }
        None
    }

    /// Inserts or replaces the owner's live entry and returns the stored
    /// value for chaining. Every other owner's entry and both stores are
    /// untouched.
    pub fn add_opened_owned_wallet(&mut self, identifier: String, wallet: TipOwnedWallet) -> (r:
        TipOwnedWallet)
        requires
            tip_context_wf(old(self)),
            identifier@ == wallet.owned_identifier@,
        ensures
            tip_context_wf(final(self)),
            r == wallet,
            final(self).opened_wallets() == remove_first(
                old(self).opened_wallets(),
                wallet_owner_is(wallet.owned_identifier@),
            ).push(wallet),
            find_first(final(self).opened_wallets(), wallet_owner_is(wallet.owned_identifier@))
                == Some(wallet),
            forall|k: Seq<char>|
                k != wallet.owned_identifier@ ==> #[trigger] find_first(
                    final(self).opened_wallets(),
                    wallet_owner_is(k),
                ) == find_first(old(self).opened_wallets(), wallet_owner_is(k)),
            final(self).owned_wallet_metadata_store@ == old(self).owned_wallet_metadata_store@,
            final(self).transition_wallet_metadata_store@ == old(
                self,
            ).transition_wallet_metadata_store@,
            final(self).network_id == old(self).network_id,
            final(self).forced_node_url == old(self).forced_node_url,
    {
        let ghost p = wallet_owner_is(wallet.owned_identifier@);
        let _ = self.remove_opened_owned_wallet(identifier.as_str());
        proof {
            let s = self.opened_wallets();
            lemma_find_first_push(s, p, wallet);
            crate::keyed_seq::lemma_find_first_none_inverted(s, p);
            assert forall|j: int| 0 <= j < s.len() implies wallet_key()(#[trigger] s[j])
                != wallet_key()(wallet) by {
                assert(!p(s[j]));
            }
            lemma_push_preserves_unique(s, wallet_key(), wallet);
            assert forall|k: Seq<char>| k != wallet.owned_identifier@ implies #[trigger] find_first(
                s.push(wallet),
                wallet_owner_is(k),
            ) == find_first(s, wallet_owner_is(k)) by {
                lemma_find_first_push(s, wallet_owner_is(k), wallet);
            }
        }
        let stored = wallet.clone();
        self.opened_owned_wallets.push(wallet);
        stored
    }
}

} // verus!
