//! Progress events pushed to the host while a transfer runs.

use vstd::prelude::*;

use crate::stats::{model_step, TransferStats};

verus! {

/// One progress event: cumulative bytes moved, the total if known (zero
/// otherwise), and the last computed transfer speed.
#[derive(Clone)]
pub struct ProgressPayload {
    pub progress: u64,
    pub total: u64,
    pub transfer_speed: u64,
}

/// Records one transferred chunk against the shared statistics and builds
/// the progress event to emit for it: the new cumulative total, the
/// caller's fixed `total`, and the current speed.
pub fn record_progress(stats: &mut TransferStats, chunk_len: usize, total: u64) -> (p:
    ProgressPayload)
    requires
        old(stats).well_formed(),
        old(stats).total_transferred + chunk_len <= u64::MAX,
        old(stats).total_transferred + chunk_len <= usize::MAX,
    ensures
        final(stats).well_formed(),
        final(stats).total_transferred == old(stats).total_transferred + chunk_len,
        final(stats)@.granularity == old(stats)@.granularity,
        exists|e: int| 0 <= e && final(stats)@ == model_step(old(stats)@, chunk_len as int, e),
        p.progress == final(stats).total_transferred,
        p.total == total,
        p.transfer_speed == final(stats).transfer_speed,
{
    stats.record_chunk_transfer(chunk_len);
    ProgressPayload {
        progress: stats.total_transferred,
        total,
        transfer_speed: stats.transfer_speed,
    }
}

} // verus!
