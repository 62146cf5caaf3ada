//! Durable records of escrow ("transition") wallets.
//!
//! One record exists per (initiator, target) pair, under the deterministic
//! identifier built from the two identities. The record keeps the escrow's
//! unlock secret in cleartext so that any process instance can reopen the
//! wallet later; records are never deleted by the core. Loading and rewriting
//! the backing file happen outside this crate.

use vstd::prelude::*;

use crate::error::Error;
use crate::keyed_seq::{
    find_first, has_match, lemma_find_first_at, lemma_find_first_none,
    lemma_push_preserves_unique, unique_keys,
};

verus! {

/// A durable escrow-wallet record.
#[derive(Debug, PartialEq, Eq)]
pub struct TransitionWalletMetadata {
    /// The unique key: the deterministic identifier of the (target,
    /// initiator) pair.
    pub identifier: String,
    pub target_identifier: String,
    pub initiator_identifier: String,
    pub receive_address: String,
    /// The system-generated unlock passphrase, kept in cleartext.
    pub secret: String,
}

/// The record's unique key.
pub open spec fn transition_key() -> spec_fn(TransitionWalletMetadata) -> Seq<char> {
    |m: TransitionWalletMetadata| m.identifier@
}

/// Matches the record with the given identifier.
pub open spec fn transition_identifier_is(
    identifier: Seq<char>,
) -> spec_fn(TransitionWalletMetadata) -> bool {
    |m: TransitionWalletMetadata| m.identifier@ == identifier
}

/// Matches every record addressed to the given target identity.
pub open spec fn transition_target_is(
    target_identifier: Seq<char>,
) -> spec_fn(TransitionWalletMetadata) -> bool {
    |m: TransitionWalletMetadata| m.target_identifier@ == target_identifier
}

/// Matches every record whose escrow receive address is the given one.
pub open spec fn transition_address_is(
    receive_address: Seq<char>,
) -> spec_fn(TransitionWalletMetadata) -> bool {
    |m: TransitionWalletMetadata| m.receive_address@ == receive_address
}

/// Matches the record of the given directional (initiator, target) pair.
pub open spec fn transition_couple_is(
    initiator_identifier: Seq<char>,
    target_identifier: Seq<char>,
) -> spec_fn(TransitionWalletMetadata) -> bool {
    |m: TransitionWalletMetadata|
        m.initiator_identifier@ == initiator_identifier && m.target_identifier@
            == target_identifier
}

/// The store's invariant: no two records share an identifier.
pub open spec fn transition_store_wf(s: Seq<TransitionWalletMetadata>) -> bool {
    unique_keys(s, transition_key())
}

impl Clone for TransitionWalletMetadata {
    /// A clone is the same record.
    fn clone(&self) -> (r: Self)
        ensures
            r == *self,
    {
        TransitionWalletMetadata {
            identifier: self.identifier.clone(),
            target_identifier: self.target_identifier.clone(),
            initiator_identifier: self.initiator_identifier.clone(),
            receive_address: self.receive_address.clone(),
            secret: self.secret.clone(),
        }
    }
}

impl TransitionWalletMetadata {
    /// Builds the record for an escrow wallet.
    pub fn new(
        identifier: String,
        target_identifier: String,
        initiator_identifier: String,
        receive_address: String,
        secret: String,
    ) -> (r: Self)
        ensures
            r.identifier == identifier,
            r.target_identifier == target_identifier,
            r.initiator_identifier == initiator_identifier,
            r.receive_address == receive_address,
            r.secret == secret,
    {
        TransitionWalletMetadata {
            identifier,
            initiator_identifier,
            receive_address,
            secret,
            target_identifier,
        }
    }
}

/// The in-memory collection of escrow-wallet records.
#[derive(Debug, PartialEq, Eq)]
pub struct TransitionWalletMetadataStore {
    metadata: Vec<TransitionWalletMetadata>,
}

impl View for TransitionWalletMetadataStore {
    type V = Seq<TransitionWalletMetadata>;

    closed spec fn view(&self) -> Seq<TransitionWalletMetadata> {
        self.metadata@
    }
}

impl TransitionWalletMetadataStore {
    /// Adopts the records read from the backing file. Records whose
    /// identifiers collide are malformed content and are rejected.
    pub fn new(records: Vec<TransitionWalletMetadata>) -> (r: Result<Self, Error>)
        ensures
            match r {
                Ok(s) => s@ == records@ && transition_store_wf(s@),
                Err(e) => !transition_store_wf(records@) && e matches Error::Serialization(_),
            },
    {
        let n = records.len();
        for i in 0..n
            invariant
                unique_keys(records@.take(i as int), transition_key()),
        {
            let mut j: usize = 0;
            while j < i
                invariant
                    0 <= j <= i < n,
                    forall|t: int|
                        0 <= t < j ==> transition_key()(#[trigger] records@[t]) != transition_key()(
                            records@[i as int],
                        ),
                decreases i - j,
            {
                if records[j].identifier == records[i].identifier {
                    return Err(
                        Error::Serialization(
                            String::from_str("duplicate escrow identifier in the store file"),
                        ),
                    );
                }
                j += 1;
            }
            assert forall|a: int, b: int| 0 <= a < b < i + 1 implies transition_key()(
                #[trigger] records@.take(i + 1)[a],
            ) != transition_key()(#[trigger] records@.take(i + 1)[b]) by {
                if b < i {
                    assert(records@.take(i as int)[a] == records@.take(i + 1)[a]);
                    assert(records@.take(i as int)[b] == records@.take(i + 1)[b]);
                }
            }
        }
        assert(records@.take(n as int) =~= records@);
        Ok(TransitionWalletMetadataStore { metadata: records })
    }

    /// The records as they must be written back to the backing file.
    pub fn records(&self) -> (r: &Vec<TransitionWalletMetadata>)
        ensures
            r@ == self@,
    {
        &self.metadata
    }

    /// Appends the record, refusing an identifier that already has one; the
    /// collection is untouched on refusal.
    pub fn add(&mut self, transition_wallet_metadata: &TransitionWalletMetadata) -> (r: Result<
        (),
        Error,
    >)
        requires
            transition_store_wf(old(self)@),
        ensures
            transition_store_wf(final(self)@),
            has_match(old(self)@, transition_identifier_is(transition_wallet_metadata.identifier@))
                ==> (r matches Err(e) && e == Error::TransitionWalletAlreadyExists && final(self)@
                == old(self)@),
            !has_match(old(self)@, transition_identifier_is(transition_wallet_metadata.identifier@))
                ==> (r is Ok && final(self)@ == old(self)@.push(*transition_wallet_metadata)),
    {
        let ghost p = transition_identifier_is(transition_wallet_metadata.identifier@);
        let n = self.metadata.len();
        for i in 0..n
            invariant
                forall|j: int| 0 <= j < i ==> !p(#[trigger] self@[j]),
        {
            if self.metadata[i].identifier == transition_wallet_metadata.identifier {
                proof {
                    lemma_find_first_at(self@, p, i as int);
                }
                return Err(Error::TransitionWalletAlreadyExists);
            }
        }
        proof {
            lemma_find_first_none(self@, p);
            lemma_push_preserves_unique(self@, transition_key(), *transition_wallet_metadata);
        }
        self.metadata.push(transition_wallet_metadata.clone());
        Ok(())
    }

    /// Every record whose escrow receive address is the given one, in store
    /// order.
    pub fn find_transition_wallet_metadata_by_recipiant(&self, recipiant: &str) -> (r: Vec<
        TransitionWalletMetadata,
    >)
        ensures
            r@ == self@.filter(transition_address_is(recipiant@)),
    {
        let ghost p = transition_address_is(recipiant@);
        let key = String::from_str(recipiant);
        let mut found: Vec<TransitionWalletMetadata> = Vec::new();
        let n = self.metadata.len();
        for i in 0..n
            invariant
                found@ == self@.take(i as int).filter(p),
        {
            proof {
                reveal(Seq::filter);
                assert(self@.take(i + 1).drop_last() =~= self@.take(i as int));
                assert(self@.take(i + 1).last() == self@[i as int]);
            }
            if self.metadata[i].receive_address == key {
                found.push(self.metadata[i].clone());
            }
        }
        proof {
            assert(self@.take(n as int) =~= self@);
        }
        found
    }

    /// Every record addressed to the given target identity, in store order.
    pub fn find_transition_wallet_metadata_by_target_identifier(
        &self,
        target_identifier: &str,
    ) -> (r: Vec<TransitionWalletMetadata>)
        ensures
            r@ == self@.filter(transition_target_is(target_identifier@)),
    {
        let ghost p = transition_target_is(target_identifier@);
        let key = String::from_str(target_identifier);
        let mut found: Vec<TransitionWalletMetadata> = Vec::new();
        let n = self.metadata.len();
        for i in 0..n
            invariant
                found@ == self@.take(i as int).filter(p),
        {
            proof {
                reveal(Seq::filter);
                assert(self@.take(i + 1).drop_last() =~= self@.take(i as int));
                assert(self@.take(i + 1).last() == self@[i as int]);
            }
            if self.metadata[i].target_identifier == key {
                found.push(self.metadata[i].clone());
            }
        }
        proof {
            assert(self@.take(n as int) =~= self@);
        }
        found
    }

    /// The record of the directional (initiator, target) pair, if one exists.
    pub fn find_transition_wallet_metadata_by_identifier_couple(
        &self,
        initiator_identifier: &str,
        target_identifier: &str,
    ) -> (r: Option<TransitionWalletMetadata>)
        ensures
            r == find_first(self@, transition_couple_is(initiator_identifier@, target_identifier@)),
    {
        let ghost p = transition_couple_is(initiator_identifier@, target_identifier@);
        let initiator_key = String::from_str(initiator_identifier);
        let target_key = String::from_str(target_identifier);
        let n = self.metadata.len();
        let mut i: usize = 0;
        while i < n
            invariant
                0 <= i <= n,
                forall|j: int| 0 <= j < i ==> !p(#[trigger] self@[j]),
            decreases n - i,
        {
            if self.metadata[i].initiator_identifier == initiator_key
                && self.metadata[i].target_identifier == target_key {
                proof {
                    lemma_find_first_at(self@, p, i as int);
                }
                return Some(self.metadata[i].clone());
            }
            i += 1;
        }
        proof {
            lemma_find_first_none(self@, p);
        }
        None
    }
}

} // verus!
