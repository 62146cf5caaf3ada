//! Consolidating escrow funds: the claim operation.
//!
//! A claim moves everything sitting in escrow wallets addressed to one
//! target into the target's own open wallet. The store query, the balance
//! aggregation, the per-source decisions and the final report are decided
//! here; opening each escrow wallet, estimating fees and broadcasting the
//! sweeps happen outside, one outcome per source, and a single source's
//! failure never aborts its siblings.

use vstd::prelude::*;

use crate::error::Error;
use crate::keyed_seq::find_first;
use crate::tip_context::{wallet_owner_is, TipContext};
use crate::tip_owned_wallet::TipOwnedWallet;

verus! {

/// One escrow source's balance as read during a claim: the wallet's
/// deterministic identifier and its mature balance, or nothing when opening
/// or reading the wallet failed.
#[derive(Debug, PartialEq, Eq)]
pub struct EscrowBalance {
    pub wallet_identifier: String,
    pub balance: Option<u64>,
}

impl Clone for EscrowBalance {
    /// A clone is the same reading.
    fn clone(&self) -> (r: Self)
        ensures
            r == *self,
    {
        EscrowBalance {
            wallet_identifier: self.wallet_identifier.clone(),
            balance: self.balance,
        }
    }
}

/// What a claim decides to do with one escrow source.
#[derive(Debug, PartialEq, Eq)]
pub enum ClaimAction {
    /// The source holds funds: attempt to sweep `balance` to the target.
    Attempt { wallet_identifier: String, balance: u64 },
    /// The source was read and holds nothing: skipped, deliberately not a
    /// failure.
    Skipped { wallet_identifier: String },
    /// The source could not be opened or read: zero contribution, reported
    /// so the caller can see it was not silently dropped.
    ReadFailed { wallet_identifier: String },
}

/// How one escrow source's claim ended.
#[derive(Debug, PartialEq, Eq)]
pub enum ClaimSourceStatus {
    /// The sweep was broadcast; the transaction id and the amount moved.
    Sent { tx_id: String, amount: u64 },
    /// Nothing to move; no send was attempted.
    Skipped,
    /// The source could not be opened or read.
    ReadFailed,
    /// Fee estimation or the send itself failed; the reason rides along.
    SendFailed { reason: String },
}

/// One line of the aggregate claim report.
#[derive(Debug, PartialEq, Eq)]
pub struct ClaimSourceResult {
    pub wallet_identifier: String,
    pub status: ClaimSourceStatus,
}

/// The aggregate outcome of a claim batch: every source is enumerated, so a
/// partial failure is visible instead of failing or succeeding as a unit.
#[derive(Debug, Clone, Copy, PartialEq, Eq, Structural)]
pub struct ClaimSummary {
    /// Sources whose sweep was broadcast.
    pub sent: usize,
    /// Sources skipped for holding nothing.
    pub skipped: usize,
    /// Sources that could not be read.
    pub read_failed: usize,
    /// Sources whose fee estimation or send failed.
    pub send_failed: usize,
    /// Sompi moved by the broadcast sweeps.
    pub total_swept: u128,
}

/// The sum of the mature balances read, a failed reading contributing zero.
pub open spec fn aggregate_balance(s: Seq<EscrowBalance>) -> int
    decreases s.len(),
{
    if s.len() == 0 {
        0
    } else {
        aggregate_balance(s.drop_last()) + match s.last().balance {
            Some(b) => b as int,
            None => 0,
        }
    }
}

/// What a claim decides for one reading: non-zero balances are attempted,
/// zero balances are skipped, failed readings are reported as such.
pub open spec fn action_of(read: EscrowBalance) -> ClaimAction {
    match read.balance {
        Some(b) => if b > 0 {
            ClaimAction::Attempt { wallet_identifier: read.wallet_identifier, balance: b }
        } else {
            ClaimAction::Skipped { wallet_identifier: read.wallet_identifier }
        },
        None => ClaimAction::ReadFailed { wallet_identifier: read.wallet_identifier },
    }
}

/// The whole batch's decisions, one per reading, in order.
pub open spec fn claim_actions(s: Seq<EscrowBalance>) -> Seq<ClaimAction> {
    s.map_values(|read: EscrowBalance| action_of(read))
}

/// The target's open wallet, into which a claim consolidates; a claim for a
/// target whose wallet is not open fails with `WalletNotOpen`.
pub fn claim_precheck(tip_context: &TipContext, target_identifier: &str) -> (r: Result<
    TipOwnedWallet,
    Error,
>)
    ensures
        match find_first(tip_context.opened_wallets(), wallet_owner_is(target_identifier@)) {
            Some(w) => r matches Ok(wallet) && wallet == w,
            None => r matches Err(e) && e == Error::WalletNotOpen,
        },
{
    match tip_context.get_opened_owned_wallet(target_identifier) {
        Some(wallet) => Ok(wallet),
        None => Err(Error::WalletNotOpen),
    }
}

/// The aggregate escrow balance addressed to the target, as read: failed
/// readings contribute zero. Wide enough that no number of sources can
/// overflow it.
pub fn aggregate_transition_balance(reads: &Vec<EscrowBalance>) -> (total: u128)
    ensures
        total as int == aggregate_balance(reads@),
{
    let n = reads.len();
    let mut total: u128 = 0;
    let mut i: usize = 0;
    while i < n
        invariant
            0 <= i <= n == reads@.len(),
            total as int == aggregate_balance(reads@.take(i as int)),
            total as int <= i * (u64::MAX as int),
        decreases n - i,
    {
        proof {
            assert(reads@.take(i + 1).drop_last() =~= reads@.take(i as int));
            assert(reads@.take(i + 1).last() == reads@[i as int]);
            assert(i * (u64::MAX as int) + (u64::MAX as int) == (i + 1) * (u64::MAX as int))
                by (nonlinear_arith);
            assert((i + 1) * (u64::MAX as int) <= n * (u64::MAX as int)) by (nonlinear_arith)
                requires
                    0 <= i < n,
            ;
            assert(n * (u64::MAX as int) < u128::MAX as int) by (nonlinear_arith)
                requires
                    n <= usize::MAX,
            ;
        }
        match reads[i].balance {
            Some(b) => {
                total = total + (b as u128);
            },
            None => (),
        }
        i += 1;
    }
    proof {
        assert(reads@.take(n as int) =~= reads@);
    }
    total
}

/// Decides the whole claim batch. When the aggregate balance is zero there
/// is nothing to claim: the claim fails with `NoFundsToClaim` and decides no
/// send — an idempotent no-op for repeated attempts. Otherwise every reading
/// gets its decision, in order: exactly the non-zero sources are attempted,
/// zero sources are skipped, unreadable sources are reported.
pub fn claim_plan(reads: &Vec<EscrowBalance>) -> (r: Result<Vec<ClaimAction>, Error>)
    ensures
        aggregate_balance(reads@) == 0 ==> (r matches Err(e) && e == Error::NoFundsToClaim),
        aggregate_balance(reads@) != 0 ==> (r matches Ok(plan) && plan@ == claim_actions(reads@)),
{
    let total = aggregate_transition_balance(reads);
    if total == 0 {
        return Err(Error::NoFundsToClaim);
    }
    let n = reads.len();
    let mut plan: Vec<ClaimAction> = Vec::new();
    let mut i: usize = 0;
    while i < n
        invariant
            0 <= i <= n == reads@.len(),
            plan@ == claim_actions(reads@.take(i as int)),
        decreases n - i,
    {
        proof {
            assert(claim_actions(reads@.take(i + 1)) =~= claim_actions(reads@.take(i as int)).push(
                action_of(reads@[i as int]),
            ));
        }
        let identifier = reads[i].wallet_identifier.clone();
        match reads[i].balance {
            Some(b) => {
                if b > 0 {
                    plan.push(ClaimAction::Attempt { wallet_identifier: identifier, balance: b });
                } else {
                    plan.push(ClaimAction::Skipped { wallet_identifier: identifier });
                }
            },
            None => {
                plan.push(ClaimAction::ReadFailed { wallet_identifier: identifier });
            },
        }
        i += 1;
    }
    proof {
        assert(reads@.take(n as int) =~= reads@);
    }
    Ok(plan)
}

/// The amount one escrow sweep forwards: the full balance minus the
/// estimated fee, paid by the escrow side. Nothing is forwarded when the
/// estimate failed or the fee eats the whole balance; that source's claim is
/// then reported as failed, not silently dropped.
pub fn forward_amount_after_fee(balance: u64, fee_estimate: Option<u64>) -> (r: Option<u64>)
    ensures
        match fee_estimate {
            Some(fee) => if fee < balance {
                r == Some((balance - fee) as u64)
            } else {
                r is None
            },
            None => r is None,
        },
{
    match fee_estimate {
        Some(fee) => {
            if fee < balance {
                Some(balance - fee)
            } else {
                None
            }
        },
        None => None,
    }
}

/// How many lines of the report are `Sent`.
pub open spec fn count_sent(s: Seq<ClaimSourceResult>) -> int
    decreases s.len(),
{
    if s.len() == 0 {
        0
    } else {
        count_sent(s.drop_last()) + if s.last().status is Sent {
            1int
        } else {
            0int
        }
    }
}

/// How many lines of the report are `Skipped`.
pub open spec fn count_skipped(s: Seq<ClaimSourceResult>) -> int
    decreases s.len(),
{
    if s.len() == 0 {
        0
    } else {
        count_skipped(s.drop_last()) + if s.last().status is Skipped {
            1int
        } else {
            0int
        }
    }
}

/// How many lines of the report are `ReadFailed`.
pub open spec fn count_read_failed(s: Seq<ClaimSourceResult>) -> int
    decreases s.len(),
{
    if s.len() == 0 {
        0
    } else {
        count_read_failed(s.drop_last()) + if s.last().status is ReadFailed {
            1int
        } else {
            0int
        }
    }
}

/// How many lines of the report are `SendFailed`.
pub open spec fn count_send_failed(s: Seq<ClaimSourceResult>) -> int
    decreases s.len(),
{
    if s.len() == 0 {
        0
    } else {
        count_send_failed(s.drop_last()) + if s.last().status is SendFailed {
            1int
        } else {
            0int
        }
    }
}

/// The sompi moved by the report's `Sent` lines.
pub open spec fn total_swept(s: Seq<ClaimSourceResult>) -> int
    decreases s.len(),
{
    if s.len() == 0 {
        0
    } else {
        total_swept(s.drop_last()) + match s.last().status {
            ClaimSourceStatus::Sent { tx_id, amount } => amount as int,
            _ => 0,
        }
    }
}

/// Every counter counts its own lines, so together they cover the report.
pub proof fn lemma_claim_counts_partition(s: Seq<ClaimSourceResult>)
    ensures
        count_sent(s) + count_skipped(s) + count_read_failed(s) + count_send_failed(s) == s.len(),
        0 <= count_sent(s),
        0 <= count_skipped(s),
        0 <= count_read_failed(s),
        0 <= count_send_failed(s),
        0 <= total_swept(s) <= s.len() * (u64::MAX as int),
    decreases s.len(),
{
    if s.len() > 0 {
        lemma_claim_counts_partition(s.drop_last());
        assert((s.len() - 1) * (u64::MAX as int) + (u64::MAX as int) == s.len() * (
        u64::MAX as int)) by (nonlinear_arith);
    }
}

/// Folds the per-source outcomes into the aggregate report the caller shows:
/// the claim completes once every source's attempt has finished, and reports
/// successes and failures side by side rather than as a unit.
pub fn summarize_claim(results: &Vec<ClaimSourceResult>) -> (r: ClaimSummary)
    ensures
        r.sent == count_sent(results@),
        r.skipped == count_skipped(results@),
        r.read_failed == count_read_failed(results@),
        r.send_failed == count_send_failed(results@),
        r.total_swept as int == total_swept(results@),
{
    let n = results.len();
    let mut summary = ClaimSummary { sent: 0, skipped: 0, read_failed: 0, send_failed: 0, total_swept: 0 };
    let mut i: usize = 0;
    while i < n
        invariant
            0 <= i <= n == results@.len(),
            summary.sent == count_sent(results@.take(i as int)),
            summary.skipped == count_skipped(results@.take(i as int)),
            summary.read_failed == count_read_failed(results@.take(i as int)),
            summary.send_failed == count_send_failed(results@.take(i as int)),
            summary.total_swept as int == total_swept(results@.take(i as int)),
            summary.sent + summary.skipped + summary.read_failed + summary.send_failed == i,
            summary.total_swept as int <= i * (u64::MAX as int),
        decreases n - i,
    {
        proof {
            assert(results@.take(i + 1).drop_last() =~= results@.take(i as int));
            assert(results@.take(i + 1).last() == results@[i as int]);
            assert(i * (u64::MAX as int) + (u64::MAX as int) == (i + 1) * (u64::MAX as int))
                by (nonlinear_arith);
            assert((i + 1) * (u64::MAX as int) <= n * (u64::MAX as int)) by (nonlinear_arith)
                requires
                    0 <= i < n,
            ;
            assert(n * (u64::MAX as int) < u128::MAX as int) by (nonlinear_arith)
                requires
                    n <= usize::MAX,
            ;
        }
        match &results[i].status {
            ClaimSourceStatus::Sent { tx_id: _, amount } => {
                summary.sent = summary.sent + 1;
                summary.total_swept = summary.total_swept + (*amount as u128);
            },
            ClaimSourceStatus::Skipped => {
                summary.skipped = summary.skipped + 1;
            },
            ClaimSourceStatus::ReadFailed => {
                summary.read_failed = summary.read_failed + 1;
            },
            ClaimSourceStatus::SendFailed { reason: _ } => {
                summary.send_failed = summary.send_failed + 1;
            },
        }
        i += 1;
    }
    proof {
        assert(results@.take(n as int) =~= results@);
    }
    summary
}

} // verus!
