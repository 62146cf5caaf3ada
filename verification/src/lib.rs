//! Identity-to-wallet registry and escrow-ledger core for a custodial tipping
//! service on a UTXO network.
//!
//! The library maps an external chat identity to a durable, secret-protected
//! wallet, creates escrow ("transition") wallets when a tip's recipient has no
//! wallet yet, and consolidates escrow funds into the recipient's own wallet
//! once they onboard. Everything that talks to the wallet engine, the node or
//! the disk lives outside this crate; the functions here receive those
//! outcomes as plain values and decide what the registry and the metadata
//! stores do with them.

#![verifier::loop_isolation(false)]

pub mod claim;
pub mod error;
pub mod keyed_seq;
pub mod owned_wallet_metadata;
pub mod send;
pub mod tip_context;
pub mod tip_owned_wallet;
pub mod tip_transition_wallet;
pub mod transition_wallet_metadata;
pub mod utils;
