//! The error taxonomy of the core.
//!
//! Every failure a core operation can report is one variant here, so callers
//! can pattern-match on the kind without depending on any engine type. Where
//! an underlying engine or I/O error is passed through, its rendered message
//! rides along as the wrapped cause; no variant ever carries a secret or a
//! mnemonic.

use vstd::prelude::*;

verus! {

/// What a core operation can fail with.
#[derive(Debug, Clone, PartialEq, Eq)]
pub enum Error {
    /// A failure that only carries a message.
    Custom(String),
    /// `create` was asked for an owner that is already initiated or open.
    OwnedWalletAlreadyExists,
    /// An escrow wallet for the same (initiator, target) pair already exists.
    TransitionWalletAlreadyExists,
    /// A lookup by key found no owned-wallet record.
    OwnedWalletNotFound,
    /// The operation needs an initiated wallet and none exists.
    NotInitiated,
    /// The operation needs the owner's wallet to be open in the registry.
    WalletNotOpen,
    /// The engine refused the supplied secret; the cause is its message.
    /// Always distinguishable from every other failure kind.
    WalletDecrypt(String),
    /// The supplied amount string is not a positive decimal amount.
    InvalidAmount,
    /// The supplied recovery phrase is not a valid mnemonic.
    InvalidMnemonic,
    /// A claim found no escrow funds addressed to the target.
    NoFundsToClaim,
    /// Reading or writing a metadata store file failed; the cause rides along.
    Persistence(String),
    /// A metadata store file held malformed content; the cause rides along.
    Serialization(String),
    /// Any other engine or node failure, passed through opaquely.
    Engine(String),
}

impl Error {
    /// Wraps a plain message, as the catch-all failure.
    pub fn custom(msg: &str) -> (r: Self)
        ensures
            r matches Error::Custom(m) && m@ == msg@,
    {
        Error::Custom(msg.to_string())
    }
}

} // verus!
