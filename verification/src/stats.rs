//! Rolling throughput estimation and cumulative progress accounting.
//!
//! A `TransferStats` value counts every byte moved by one transfer and
//! recomputes the reported speed once enough time has accumulated to fill a
//! granularity window; between recomputations the previously computed speed
//! is reported unchanged.

use vstd::prelude::*;

use crate::clock::{duration_between, duration_millis, instant_now, MAX_DURATION_MILLIS};

verus! {

/// Mathematical state of the estimator: the accumulators of the current
/// window, the last computed speed, the cumulative total, and the window
/// length in milliseconds.
pub ghost struct StatsModel {
    pub acc_bytes: int,
    pub acc_millis: int,
    pub speed: int,
    pub total: int,
    pub granularity: int,
}

/// The estimator states reachable from `TransferStats::start`: a window of
/// at least one millisecond, accumulators that reset as soon as a window
/// fills, and window byte counts never ahead of the cumulative total.
pub open spec fn model_wf(m: StatsModel) -> bool {
    &&& m.granularity >= 1
    &&& 0 <= m.acc_millis
    &&& (m.acc_millis == 0 || m.acc_millis < m.granularity)
    &&& 0 <= m.acc_bytes <= m.total
    &&& 0 <= m.speed < 0x1_0000_0000_0000_0000
    &&& m.total <= u64::MAX
    &&& m.granularity <= u32::MAX
}

/// Speed computed when a window closes on `bytes` bytes over `millis`
/// milliseconds: integer division first, then the fixed scale factor of
/// 1024, truncated to 64 bits.
pub open spec fn computed_speed(bytes: int, millis: int) -> int {
    ((bytes / millis) * 1024) % 0x1_0000_0000_0000_0000
}

/// One recorded chunk of `chunk` bytes after `elapsed` milliseconds: both
/// accumulators grow and the cumulative total grows by the chunk; if the
/// accumulated time now reaches the granularity the speed is recomputed and
/// the accumulators reset, otherwise the speed is left as it was.
pub open spec fn model_step(m: StatsModel, chunk: int, elapsed: int) -> StatsModel {
    let grown = StatsModel {
        acc_bytes: m.acc_bytes + chunk,
        acc_millis: m.acc_millis + elapsed,
        speed: m.speed,
        total: m.total + chunk,
        granularity: m.granularity,
    };
    if grown.acc_millis >= m.granularity {
        StatsModel {
            acc_bytes: 0,
            acc_millis: 0,
            speed: computed_speed(grown.acc_bytes, grown.acc_millis),
            ..grown
        }
    } else {
        grown
    }
}

/// Tracks both transfer speed and cumulative transfer progress for one
/// transfer.
pub struct TransferStats {
    pub accumulated_chunk_len: usize,
    pub accumulated_time: u128,
    pub transfer_speed: u64,
    pub total_transferred: u64,
    pub start_time: std::time::Instant,
    pub granularity: u32,
}

impl View for TransferStats {
    type V = StatsModel;

    open spec fn view(&self) -> StatsModel {
        StatsModel {
            acc_bytes: self.accumulated_chunk_len as int,
            acc_millis: self.accumulated_time as int,
            speed: self.transfer_speed as int,
            total: self.total_transferred as int,
            granularity: self.granularity as int,
        }
    }
}

impl TransferStats {
    /// The states the estimator keeps itself in.
    pub open spec fn well_formed(self) -> bool {
        model_wf(self@)
    }

    /// Starts a fresh estimator whose speed is recomputed at most once per
    /// `granularity` milliseconds.
    pub fn start(granularity: u32) -> (s: Self)
        requires
            granularity >= 1,
        ensures
            s.well_formed(),
            s@ == (StatsModel {
                acc_bytes: 0,
                acc_millis: 0,
                speed: 0,
                total: 0,
                granularity: granularity as int,
            }),
    {
        Self {
            accumulated_chunk_len: 0,
            accumulated_time: 0,
            transfer_speed: 0,
            total_transferred: 0,
            start_time: instant_now(),
            granularity,
        }
    }

    /// Applies one recorded chunk with an explicit elapsed time, following
    /// the model step exactly.
    pub fn apply_chunk(&mut self, chunk_len: usize, elapsed_millis: u128)
        requires
            old(self).well_formed(),
            elapsed_millis <= MAX_DURATION_MILLIS,
            old(self).total_transferred + chunk_len <= u64::MAX,
            old(self).total_transferred + chunk_len <= usize::MAX,
        ensures
            final(self).well_formed(),
            final(self)@ == model_step(old(self)@, chunk_len as int, elapsed_millis as int),
            final(self).total_transferred == old(self).total_transferred + chunk_len,
            final(self).transfer_speed as int == final(self)@.speed,
    {
        self.accumulated_chunk_len = self.accumulated_chunk_len + chunk_len;
        self.total_transferred = self.total_transferred + chunk_len as u64;
        self.accumulated_time = self.accumulated_time + elapsed_millis;

        if self.accumulated_time >= self.granularity as u128 {
            let quotient: u128 = self.accumulated_chunk_len as u128 / self.accumulated_time;
            let scaled: u128 = quotient * 1024;
            let reduced: u128 = scaled % 0x1_0000_0000_0000_0000u128;
            self.transfer_speed = reduced as u64;
            self.accumulated_chunk_len = 0;
            self.accumulated_time = 0;
        }
    }

    /// Records the transfer of a data chunk, stamping it with the time
    /// elapsed since the previous record, and updates both transfer speed
    /// and total progress. The elapsed time is read from the clock, so the
    /// outcome is one model step under some nonnegative elapsed time.
    pub fn record_chunk_transfer(&mut self, chunk_len: usize)
        requires
            old(self).well_formed(),
            old(self).total_transferred + chunk_len <= u64::MAX,
            old(self).total_transferred + chunk_len <= usize::MAX,
        ensures
            final(self).well_formed(),
            final(self).total_transferred == old(self).total_transferred + chunk_len,
            final(self).transfer_speed as int == final(self)@.speed,
            final(self)@.granularity == old(self)@.granularity,
            exists|e: int|
                0 <= e && final(self)@ == model_step(old(self)@, chunk_len as int, e),
    {
        let now = instant_now();
        let took = duration_between(&self.start_time, &now);
        let elapsed = duration_millis(&took);
        self.apply_chunk(chunk_len, elapsed);
        self.start_time = now;
    }
}

/// The estimator state after a whole run of recorded chunks, each a pair of
/// the chunk length and the elapsed milliseconds stamped on it.
pub open spec fn model_run(m: StatsModel, records: Seq<(int, int)>) -> StatsModel
    decreases records.len(),
{
    if records.len() == 0 {
        m
    } else {
        model_run(model_step(m, records[0].0, records[0].1), records.drop_first())
    }
}

/// Sum of the chunk lengths of a run.
pub open spec fn sum_lens(records: Seq<(int, int)>) -> int
    decreases records.len(),
{
    if records.len() == 0 {
        0
    } else {
        records[0].0 + sum_lens(records.drop_first())
    }
}

/// Law: after any run of recorded chunks the cumulative total equals the
/// initial total plus the sum of the chunk lengths, whatever the timing of
/// the chunks.
pub proof fn lemma_total_is_sum(m: StatsModel, records: Seq<(int, int)>)
    ensures
        model_run(m, records).total == m.total + sum_lens(records),
    decreases records.len(),
{
    if records.len() > 0 {
        lemma_total_is_sum(model_step(m, records[0].0, records[0].1), records.drop_first());
    }
}

/// A run of chunks of nonnegative length moves a nonnegative byte count.
proof fn lemma_sum_lens_nonneg(records: Seq<(int, int)>)
    requires
        forall|i: int| 0 <= i < records.len() ==> (#[trigger] records[i]).0 >= 0,
    ensures
        sum_lens(records) >= 0,
    decreases records.len(),
{
    if records.len() > 0 {
        assert forall|i: int| 0 <= i < records.drop_first().len() implies (#[trigger] records.drop_first()[i]).0
            >= 0 by {
            assert(records.drop_first()[i] == records[i + 1]);
        }
        lemma_sum_lens_nonneg(records.drop_first());
    }
}

/// Law: the cumulative total never decreases over the lifetime of one
/// transfer.
pub proof fn lemma_total_monotone(m: StatsModel, records: Seq<(int, int)>)
    requires
        forall|i: int| 0 <= i < records.len() ==> (#[trigger] records[i]).0 >= 0,
    ensures
        model_run(m, records).total >= m.total,
{
    lemma_sum_lens_nonneg(records);
    lemma_total_is_sum(m, records);
}

/// The granularity window never changes over a run.
pub proof fn lemma_granularity_constant(m: StatsModel, records: Seq<(int, int)>)
    ensures
        model_run(m, records).granularity == m.granularity,
    decreases records.len(),
{
    if records.len() > 0 {
        lemma_granularity_constant(model_step(m, records[0].0, records[0].1), records.drop_first());
    }
}

/// Law: one recorded chunk changes the reported speed only if its elapsed
/// time fills the granularity window.
pub proof fn lemma_speed_changes_only_at_window(m: StatsModel, chunk: int, elapsed: int)
    ensures
        model_step(m, chunk, elapsed).speed != m.speed ==> m.acc_millis + elapsed
            >= m.granularity,
{
}

/// A run is its prefix followed by one last step.
proof fn lemma_run_snoc(m: StatsModel, records: Seq<(int, int)>)
    requires
        records.len() > 0,
    ensures
        model_run(m, records) == model_step(
            model_run(m, records.drop_last()),
            records.last().0,
            records.last().1,
        ),
    decreases records.len(),
{
    if records.len() == 1 {
        assert(records.drop_last() =~= Seq::<(int, int)>::empty());
        assert(records.drop_first() =~= Seq::<(int, int)>::empty());
        assert(model_run(m, records) == model_run(
            model_step(m, records[0].0, records[0].1),
            records.drop_first(),
        ));
        assert(model_run(model_step(m, records[0].0, records[0].1), records.drop_first())
            == model_step(m, records[0].0, records[0].1));
        assert(model_run(m, records.drop_last()) == m);
        assert(records.last() == records[0]);
    } else {
        let stepped = model_step(m, records[0].0, records[0].1);
        lemma_run_snoc(stepped, records.drop_first());
        assert(records.drop_first().drop_last() =~= records.drop_last().drop_first());
        assert(records.drop_first().last() == records.last());
        assert(records.drop_last()[0] == records[0]);
        assert(records.drop_last().len() > 0);
        assert(model_run(m, records.drop_last()) == model_run(
            stepped,
            records.drop_last().drop_first(),
        ));
    }
}

/// Law: the reported speed changes only at a record whose accumulated
/// elapsed time reaches the granularity window; over a run in which no
/// record fills the window, the speed stays what it was.
pub proof fn lemma_speed_stable(m: StatsModel, records: Seq<(int, int)>)
    requires
        forall|i: int|
            0 <= i < records.len() ==> model_run(m, #[trigger] records.take(i)).acc_millis
                + records[i].1 < m.granularity,
    ensures
        model_run(m, records).speed == m.speed,
    decreases records.len(),
{
    if records.len() > 0 {
        let prefix = records.drop_last();
        assert forall|i: int| 0 <= i < prefix.len() implies model_run(
            m,
            #[trigger] prefix.take(i),
        ).acc_millis + prefix[i].1 < m.granularity by {
            assert(prefix.take(i) =~= records.take(i));
            assert(prefix[i] == records[i]);
        }
        lemma_speed_stable(m, prefix);
        lemma_granularity_constant(m, prefix);
        lemma_run_snoc(m, records);
        assert(records.take(records.len() - 1) =~= prefix);
        assert(model_run(m, prefix).acc_millis + records[records.len() - 1].1 < m.granularity);
    }
}

/// A fresh estimator over the default granularity window of 500 ms.
impl Default for TransferStats {
    fn default() -> (s: Self)
        ensures
            s.well_formed(),
            s@ == (StatsModel { acc_bytes: 0, acc_millis: 0, speed: 0, total: 0, granularity: 500 }),
    {
        Self::start(500)
    }
}

} // verus!
