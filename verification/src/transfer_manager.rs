//! Deciding when a stream's transfers fail too often and must be restarted.
use vstd::prelude::*;

verus! {

/// Counts of the isochronous transfers of a stream.
#[derive(Debug, Clone, Copy, PartialEq, Eq, Structural)]
pub struct TransferStats {
    pub total_submitted: u64,
    pub total_failed: u64,
}

/// More than one in ten submitted transfers failed.
pub open spec fn failure_rate_too_high(stats: TransferStats) -> bool {
    stats.total_submitted > 0 && 10 * stats.total_failed > stats.total_submitted
}

/// Decides whether a stream's transfers must be restarted.
pub struct TransferRecovery;

impl TransferRecovery {
    /// Whether more than a tenth of the submitted transfers failed; never before any
    /// transfer was submitted.
    pub fn should_recover(stats: &TransferStats) -> (r: bool)
        ensures
            r == failure_rate_too_high(*stats),
    {
        if stats.total_submitted == 0 {
            return false;
        }
        let failed = stats.total_failed as u128;
        let submitted = stats.total_submitted as u128;
        10 * failed > submitted
    }
}

/// Transfers are restarted exactly when some were submitted and the failed ones are more
/// than a tenth of them; more failures among as many submissions never turn it off.
pub proof fn law_recover_above_a_tenth(stats: TransferStats, more_failed: u64)
    ensures
        failure_rate_too_high(stats) <==> (stats.total_submitted > 0 && stats.total_failed * 10
            > stats.total_submitted),
        failure_rate_too_high(stats) && more_failed >= stats.total_failed ==> failure_rate_too_high(
            TransferStats { total_failed: more_failed, ..stats },
        ),
{
}

} // verus!
