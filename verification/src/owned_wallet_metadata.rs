//! Durable records of owned wallets, keyed by the owner's identity.
//!
//! The store is the in-memory collection behind the owned-wallet metadata
//! file: one record per owner, created at first `create` or `restore`, never
//! updated by `open`, deleted only by `destroy`. Loading the backing file and
//! rewriting it after a mutation happen outside this crate; the store itself
//! guarantees the collection's single invariant, at most one record per
//! owner identifier.

use vstd::prelude::*;

use crate::error::Error;
use crate::keyed_seq::{
    find_first, first_match_at, has_match, lemma_find_first_at, lemma_find_first_none,
    lemma_push_preserves_unique, lemma_remove_first_at, lemma_remove_first_gone,
    lemma_remove_first_none, lemma_remove_preserves_unique, remove_first, unique_keys,
};

verus! {

/// A durable owned-wallet record: the owner's identity and the wallet's
/// primary receive address.
#[derive(Debug, PartialEq, Eq)]
pub struct OwnedWalletMetadata {
    pub owner_identifier: String,
    pub receive_address: String,
}

/// The record's unique key.
pub open spec fn owner_key() -> spec_fn(OwnedWalletMetadata) -> Seq<char> {
    |m: OwnedWalletMetadata| m.owner_identifier@
}

/// Matches the record of the given owner.
pub open spec fn owner_is(owner_identifier: Seq<char>) -> spec_fn(OwnedWalletMetadata) -> bool {
    |m: OwnedWalletMetadata| m.owner_identifier@ == owner_identifier
}

/// Matches the record with the given receive address.
pub open spec fn owned_address_is(
    receive_address: Seq<char>,
) -> spec_fn(OwnedWalletMetadata) -> bool {
    |m: OwnedWalletMetadata| m.receive_address@ == receive_address
}

/// The store's invariant: no two records share an owner identifier.
pub open spec fn owned_store_wf(s: Seq<OwnedWalletMetadata>) -> bool {
    unique_keys(s, owner_key())
}

impl Clone for OwnedWalletMetadata {
    /// A clone is the same record.
    fn clone(&self) -> (r: Self)
        ensures
            r == *self,
    {
        OwnedWalletMetadata {
            owner_identifier: self.owner_identifier.clone(),
            receive_address: self.receive_address.clone(),
        }
    }
}

impl OwnedWalletMetadata {
    /// Builds the record for an owner and their receive address.
    pub fn new(owner_identifier: String, receive_address: String) -> (r: Self)
        ensures
            r.owner_identifier == owner_identifier,
            r.receive_address == receive_address,
    {
        OwnedWalletMetadata { owner_identifier, receive_address }
    }
}

/// The in-memory collection of owned-wallet records.
#[derive(Debug, PartialEq, Eq)]
pub struct OwnedWalletMetadataStore {
    metadata: Vec<OwnedWalletMetadata>,
}

impl View for OwnedWalletMetadataStore {
    type V = Seq<OwnedWalletMetadata>;

    closed spec fn view(&self) -> Seq<OwnedWalletMetadata> {
        self.metadata@
    }
}

impl OwnedWalletMetadataStore {
    /// Adopts the records read from the backing file. Records whose owner
    /// identifiers collide are malformed content and are rejected.
    pub fn new(records: Vec<OwnedWalletMetadata>) -> (r: Result<Self, Error>)
        ensures
            match r {
                Ok(s) => s@ == records@ && owned_store_wf(s@),
                Err(e) => !owned_store_wf(records@) && e matches Error::Serialization(_),
            },
    {
        let n = records.len();
        for i in 0..n
            invariant
                n == records@.len(),
                unique_keys(records@.take(i as int), owner_key()),
        {
            let mut j: usize = 0;
            while j < i
                invariant
                    0 <= j <= i < n == records@.len(),
                    unique_keys(records@.take(i as int), owner_key()),
                    forall|t: int|
                        0 <= t < j ==> owner_key()(#[trigger] records@[t]) != owner_key()(
                            records@[i as int],
                        ),
                decreases i - j,
            {
                if records[j].owner_identifier == records[i].owner_identifier {
                    return Err(
                        Error::Serialization(
                            String::from_str("duplicate owner identifier in the store file"),
                        ),
                    );
                }
                j += 1;
            }
            assert forall|a: int, b: int| 0 <= a < b < i + 1 implies owner_key()(
                #[trigger] records@.take(i + 1)[a],
            ) != owner_key()(#[trigger] records@.take(i + 1)[b]) by {
                if b < i {
                    assert(records@.take(i as int)[a] == records@.take(i + 1)[a]);
                    assert(records@.take(i as int)[b] == records@.take(i + 1)[b]);
                }
            }
        }
        assert(records@.take(n as int) =~= records@);
        Ok(OwnedWalletMetadataStore { metadata: records })
    }

    /// The records as they must be written back to the backing file.
    pub fn records(&self) -> (r: &Vec<OwnedWalletMetadata>)
        ensures
            r@ == self@,
    {
        &self.metadata
    }

    /// Appends the record, refusing an owner that already has one; the
    /// collection is untouched on refusal.
    pub fn add(&mut self, owned_wallet_metadata: &OwnedWalletMetadata) -> (r: Result<(), Error>)
        requires
            owned_store_wf(old(self)@),
        ensures
            owned_store_wf(final(self)@),
            has_match(old(self)@, owner_is(owned_wallet_metadata.owner_identifier@)) ==> (r
                matches Err(e) && e == Error::OwnedWalletAlreadyExists && final(self)@ == old(
                self,
            )@),
            !has_match(old(self)@, owner_is(owned_wallet_metadata.owner_identifier@)) ==> (r
                is Ok && final(self)@ == old(self)@.push(*owned_wallet_metadata)),
    {
        let ghost p = owner_is(owned_wallet_metadata.owner_identifier@);
        let n = self.metadata.len();
        for i in 0..n
            invariant
                n == self@.len(),
                owned_store_wf(self@),
                self@ == old(self)@,
                forall|j: int| 0 <= j < i ==> !p(#[trigger] self@[j]),
        {
            if self.metadata[i].owner_identifier == owned_wallet_metadata.owner_identifier {
                proof {
                    lemma_find_first_at(self@, p, i as int);
                }
                return Err(Error::OwnedWalletAlreadyExists);
            }
        }
        proof {
            lemma_find_first_none(self@, p);
            lemma_push_preserves_unique(self@, owner_key(), *owned_wallet_metadata);
        }
        self.metadata.push(owned_wallet_metadata.clone());
        Ok(())
    }

    /// Removes the record of the given owner; removing an absent owner is a
    /// no-op, not an error. Afterwards the owner has no record.
    pub fn remove_by_owner_identifier(&mut self, owner_identifier: &str)
        requires
            owned_store_wf(old(self)@),
        ensures
            owned_store_wf(final(self)@),
            final(self)@ == remove_first(old(self)@, owner_is(owner_identifier@)),
            !has_match(final(self)@, owner_is(owner_identifier@)),
            forall|k: Seq<char>|
                k != owner_identifier@ ==> #[trigger] find_first(final(self)@, owner_is(k))
                    == find_first(old(self)@, owner_is(k)),
    {
        let ghost p = owner_is(owner_identifier@);
        let key = String::from_str(owner_identifier);
        let n = self.metadata.len();
        let mut i: usize = 0;
        while i < n
            invariant
                n == self@.len(),
                0 <= i <= n,
                key@ == owner_identifier@,
                owned_store_wf(self@),
                self@ == old(self)@,
                forall|j: int| 0 <= j < i ==> !p(#[trigger] self@[j]),
            decreases n - i,
        {
            if self.metadata[i].owner_identifier == key {
                proof {
                    assert(first_match_at(self@, p, i as int));
                    assert forall|j: int| 0 <= j < self@.len() && j != i as int implies !p(
                        #[trigger] self@[j],
                    ) by {
                        if j < i as int {
                            assert(owner_key()(self@[j]) != owner_key()(self@[i as int]));
                        } else {
                            assert(owner_key()(self@[i as int]) != owner_key()(self@[j]));
                        }
                    }
                    lemma_remove_first_at(self@, p, i as int);
                    lemma_remove_preserves_unique(self@, owner_key(), i as int);
                    lemma_remove_first_gone(self@, p, i as int);
                    assert forall|k: Seq<char>| k != owner_identifier@ implies #[trigger]
                    find_first(self@.remove(i as int), owner_is(k)) == find_first(
                        self@,
                        owner_is(k),
                    ) by {
                        crate::keyed_seq::lemma_remove_first_other(self@, p, owner_is(k));
                    }
                }
                self.metadata.remove(i);
                return ;
            }
            i += 1;
        }
        proof {
            lemma_find_first_none(self@, p);
            lemma_remove_first_none(self@, p);
        }
    }

    /// The record whose receive address is the given one, or
    /// `OwnedWalletNotFound`.
    pub fn find_owned_wallet_metadata_by_recipient_address(&self, recipient: &str) -> (r: Result<
        OwnedWalletMetadata,
        Error,
    >)
        ensures
            match find_first(self@, owned_address_is(recipient@)) {
                Some(m) => r matches Ok(found) && found == m,
                None => r matches Err(e) && e == Error::OwnedWalletNotFound,
            },
    {
        let ghost p = owned_address_is(recipient@);
        let key = String::from_str(recipient);
        let n = self.metadata.len();
        let mut i: usize = 0;
        while i < n
            invariant
                n == self@.len(),
                0 <= i <= n,
                key@ == recipient@,
                forall|j: int| 0 <= j < i ==> !p(#[trigger] self@[j]),
            decreases n - i,
        {
            if self.metadata[i].receive_address == key {
                proof {
                    lemma_find_first_at(self@, p, i as int);
                }
                return Ok(self.metadata[i].clone());
            }
            i += 1;
        }
        proof {
            lemma_find_first_none(self@, p);
        }
        Err(Error::OwnedWalletNotFound)
    }

    /// The record of the given owner, or `OwnedWalletNotFound`.
    pub fn find_owned_wallet_metadata_by_owner_identifier(&self, owner_identifier: &str) -> (r:
        Result<OwnedWalletMetadata, Error>)
        ensures
            match find_first(self@, owner_is(owner_identifier@)) {
                Some(m) => r matches Ok(found) && found == m,
                None => r matches Err(e) && e == Error::OwnedWalletNotFound,
            },
    {
        let ghost p = owner_is(owner_identifier@);
        let key = String::from_str(owner_identifier);
        let n = self.metadata.len();
        let mut i: usize = 0;
        while i < n
            invariant
                n == self@.len(),
                0 <= i <= n,
                key@ == owner_identifier@,
                forall|j: int| 0 <= j < i ==> !p(#[trigger] self@[j]),
            decreases n - i,
        {
            if self.metadata[i].owner_identifier == key {
                proof {
                    lemma_find_first_at(self@, p, i as int);
                }
                return Ok(self.metadata[i].clone());
            }
            i += 1;
        }
        proof {
            lemma_find_first_none(self@, p);
        }
        Err(Error::OwnedWalletNotFound)
    }
}

} // verus!
