use std::collections::VecDeque;

use vstd::prelude::*;

use crate::error::RuntimeError;
use crate::time::TimeSpan;

verus! {

/// One transfer: the moment it happened, in nanoseconds on a monotonic
/// clock, and its size.
#[derive(Clone, Copy, Debug, PartialEq, Eq, Structural)]
pub struct RateSample {
    pub at: u64,
    pub bytes: u64,
}

/// Transfer rate over a sliding window.
#[derive(Debug)]
pub struct RateCounter {
    window: TimeSpan,
    samples: VecDeque<RateSample>,
}

/// The value of a rate counter.
pub struct RateCounterView {
    pub window: TimeSpan,
    pub samples: Seq<RateSample>,
}

/// The time from `earlier` to `now`, zero when `earlier` is later.
pub open spec fn elapsed(now: u64, earlier: u64) -> nat {
    if now >= earlier { (now - earlier) as nat } else { 0 }
}

/// Drops the samples at the front that are older than the window, up to the
/// first one that is not.
pub open spec fn pruned(samples: Seq<RateSample>, now: u64, window: nat) -> Seq<RateSample>
    decreases samples.len(),
{
    if samples.len() > 0 && elapsed(now, samples[0].at) > window {
        pruned(samples.drop_first(), now, window)
    } else {
        samples
    }
}

/// The bytes of all samples.
pub open spec fn total_bytes(samples: Seq<RateSample>) -> nat
    decreases samples.len(),
{
    if samples.len() == 0 {
        0
    } else {
        total_bytes(samples.drop_last()) + samples.last().bytes as nat
    }
}

/// The larger of `secs` and one.
pub open spec fn window_divisor(window: TimeSpan) -> nat {
    if window.spec_secs() >= 1 { window.spec_secs() } else { 1 }
}

impl View for RateCounter {
    type V = RateCounterView;

    closed spec fn view(&self) -> RateCounterView {
        RateCounterView { window: self.window, samples: self.samples@ }
    }
}

impl RateCounter {
    /// A counter over a non-empty window.
    pub fn new(window: TimeSpan) -> (res: Result<Self, RuntimeError>)
        ensures
            window@ == 0 ==> res == Err::<RateCounter, RuntimeError>(
                RuntimeError::InvalidConfig("rate window must be greater than zero"),
            ),
            window@ != 0 ==> (res matches Ok(c) && c@.window == window && c@.samples.len() == 0),
    {
        if window.is_zero() {
            return Err(RuntimeError::InvalidConfig("rate window must be greater than zero"));
        }
        Ok(RateCounter { window, samples: VecDeque::new() })
    }

    /// Records a transfer of `bytes` at `at`, then drops the samples the
    /// window no longer covers as of `at`.
    pub fn record(&mut self, at: u64, bytes: u64)
        ensures
            final(self)@.window == old(self)@.window,
            final(self)@.samples == pruned(old(self)@.samples.push(RateSample { at, bytes }), at, old(self)@.window@),
    {
        self.samples.push_back(RateSample { at, bytes });
        self.prune(at);
    }

    /// Bytes per second over the window as of `now`: the bytes of the samples
    /// the window still covers, divided by the window's whole seconds (at
    /// least one). Drops the samples it no longer covers.
    pub fn bytes_per_second(&mut self, now: u64) -> (rate: u64)
        requires
            total_bytes(pruned(old(self)@.samples, now, old(self)@.window@)) <= u64::MAX,
        ensures
            final(self)@.window == old(self)@.window,
            final(self)@.samples == pruned(old(self)@.samples, now, old(self)@.window@),
            rate == total_bytes(final(self)@.samples) / window_divisor(old(self)@.window),
    {
        self.prune(now);
        let mut sum: u64 = 0;
        let mut i: usize = 0;
        let ghost s = self.samples@;
        while i < self.samples.len()
            invariant
                s == self.samples@,
                total_bytes(s) <= u64::MAX,
                i <= s.len(),
                sum == total_bytes(s.take(i as int)),
            decreases s.len() - i,
        {
            proof {
                assert(s.take(i as int + 1).drop_last() =~= s.take(i as int));
                lemma_total_prefix(s, i as nat + 1);
            }
            sum = sum + self.samples[i].bytes;
            i = i + 1;
        }
        assert(s.take(s.len() as int) =~= s);
        let secs = self.window.as_secs();
        let divisor = if secs >= 1 { secs } else { 1 };
        sum / divisor
    }

    /// Drops the samples at the front that the window no longer covers as of `now`.
    pub fn prune(&mut self, now: u64)
        ensures
            final(self)@.window == old(self)@.window,
            final(self)@.samples == pruned(old(self)@.samples, now, old(self)@.window@),
    {
        let window = self.window.as_nanos();
        loop
            invariant
                self.window == old(self).window,
                window == self.window@,
                pruned(self.samples@, now, window as nat) == pruned(old(self)@.samples, now, old(self)@.window@),
            ensures
                self.window == old(self).window,
                self.samples@ == pruned(old(self)@.samples, now, old(self)@.window@),
            decreases self.samples@.len(),
        {
            if self.samples.len() == 0 {
                assert(pruned(self.samples@, now, window as nat) == self.samples@);
                break;
            }
            let front = self.samples[0];
            let age: u64 = if now >= front.at { now - front.at } else { 0 };
            if (age as u128) > window {
                let ghost before = self.samples@;
                let _ = self.samples.pop_front();
                assert(self.samples@ =~= before.drop_first());
            } else {
                assert(self.samples@[0] == front);
                assert(elapsed(now, front.at) == age);
                assert(pruned(self.samples@, now, window as nat) == self.samples@);
                break;
            }
        }
    }
}

proof fn lemma_total_prefix(s: Seq<RateSample>, n: nat)
    requires
        n <= s.len(),
    ensures
        total_bytes(s.take(n as int)) <= total_bytes(s),
    decreases s.len(),
{
    if n < s.len() {
        assert(s.drop_last().take(n as int) =~= s.take(n as int));
        lemma_total_prefix(s.drop_last(), n);
    } else {
        assert(s.take(n as int) =~= s);
    }
}

/// What pruning leaves is the samples from some point on.
proof fn lemma_pruned_suffix(samples: Seq<RateSample>, now: u64, window: nat) -> (k: int)
    ensures
        0 <= k <= samples.len(),
        pruned(samples, now, window) == samples.subrange(k, samples.len() as int),
        k < samples.len() ==> elapsed(now, samples[k].at) <= window,
        forall|i: int| 0 <= i < k ==> elapsed(now, #[trigger] samples[i].at) > window,
    decreases samples.len(),
{
    if samples.len() > 0 && elapsed(now, samples[0].at) > window {
        let j = lemma_pruned_suffix(samples.drop_first(), now, window);
        assert forall|i: int| 0 <= i < j + 1 implies elapsed(now, #[trigger] samples[i].at) > window by {
            if i > 0 {
                assert(samples[i] == samples.drop_first()[i - 1]);
            }
        }
        assert(samples.drop_first().subrange(j, samples.drop_first().len() as int) =~= samples.subrange(
            j + 1,
            samples.len() as int,
        ));
        j + 1
    } else {
        assert(samples.subrange(0, samples.len() as int) =~= samples);
        0
    }
}

/// The bytes of a sequence are those of its first sample and of the rest.
proof fn lemma_total_first(samples: Seq<RateSample>)
    requires
        samples.len() > 0,
    ensures
        total_bytes(samples) == samples[0].bytes + total_bytes(samples.drop_first()),
    decreases samples.len(),
{
    if samples.len() > 1 {
        lemma_total_first(samples.drop_last());
        assert(samples.drop_last().drop_first() =~= samples.drop_first().drop_last());
        assert(samples.drop_first().last() == samples.last());
        assert(samples.drop_last()[0] == samples[0]);
        assert(total_bytes(samples) == total_bytes(samples.drop_last()) + samples.last().bytes);
        assert(total_bytes(samples.drop_first()) == total_bytes(samples.drop_first().drop_last())
            + samples.drop_first().last().bytes);
    } else {
        assert(samples.drop_first().len() == 0);
        assert(samples.drop_last().len() == 0);
        assert(total_bytes(samples.drop_first()) == 0);
        assert(total_bytes(samples.drop_last()) == 0);
        assert(samples.last() == samples[0]);
    }
}

/// A later part of a sequence holds no more bytes than the whole.
proof fn lemma_total_suffix(samples: Seq<RateSample>, k: int)
    requires
        0 <= k <= samples.len(),
    ensures
        total_bytes(samples.subrange(k, samples.len() as int)) <= total_bytes(samples),
    decreases k,
{
    if k > 0 {
        lemma_total_first(samples);
        lemma_total_suffix(samples.drop_first(), k - 1);
        assert(samples.drop_first().subrange(k - 1, samples.drop_first().len() as int) =~= samples.subrange(
            k,
            samples.len() as int,
        ));
    } else {
        assert(samples.subrange(0, samples.len() as int) =~= samples);
    }
}

/// Law: two readings at the same moment agree. The first reading drops
/// what the window no longer covers; the second finds nothing more to drop,
/// so both count the same bytes and give the same rate.
pub proof fn law_rate_reading_is_repeatable(samples: Seq<RateSample>, window: TimeSpan, now: u64)
    ensures
        pruned(pruned(samples, now, window@), now, window@) == pruned(samples, now, window@),
        total_bytes(pruned(pruned(samples, now, window@), now, window@)) / window_divisor(window)
            == total_bytes(pruned(samples, now, window@)) / window_divisor(window),
{
    let once = pruned(samples, now, window@);
    let k = lemma_pruned_suffix(samples, now, window@);
    if once.len() > 0 {
        assert(once[0] == samples[k]);
    }
}

/// Law: with no transfer recorded in between, a reading never exceeds the
/// reading before it, whenever it is taken: readings only drop samples.
pub proof fn law_rate_never_grows_without_record(samples: Seq<RateSample>, window: TimeSpan, now: u64, later: u64)
    ensures
        total_bytes(pruned(pruned(samples, now, window@), later, window@)) <= total_bytes(pruned(samples, now, window@)),
        total_bytes(pruned(pruned(samples, now, window@), later, window@)) / window_divisor(window)
            <= total_bytes(pruned(samples, now, window@)) / window_divisor(window),
{
    let once = pruned(samples, now, window@);
    let k = lemma_pruned_suffix(once, later, window@);
    lemma_total_suffix(once, k);
    let a = total_bytes(pruned(once, later, window@));
    let b = total_bytes(once);
    let d = window_divisor(window);
    assert(a / d <= b / d) by (nonlinear_arith)
        requires
            a <= b,
            d >= 1,
    ;
}

/// The samples that a run of calls records, in order: each call is made at
/// a moment and records that many bytes (`Some`) or takes a reading (`None`).
pub open spec fn recorded(calls: Seq<(u64, Option<u64>)>) -> Seq<RateSample>
    decreases calls.len(),
{
    if calls.len() == 0 {
        Seq::empty()
    } else {
        let c = calls.last();
        match c.1 {
            Some(bytes) => recorded(calls.drop_last()).push(RateSample { at: c.0, bytes }),
            None => recorded(calls.drop_last()),
        }
    }
}

/// The samples a counter over `window` holds after a run of calls, made on
/// a counter that held none.
pub open spec fn replay_rate(calls: Seq<(u64, Option<u64>)>, window: nat) -> Seq<RateSample>
    decreases calls.len(),
{
    if calls.len() == 0 {
        Seq::empty()
    } else {
        let c = calls.last();
        let before = replay_rate(calls.drop_last(), window);
        match c.1 {
            Some(bytes) => pruned(before.push(RateSample { at: c.0, bytes }), c.0, window),
            None => pruned(before, c.0, window),
        }
    }
}

/// The calls are made at moments that never go back.
pub open spec fn calls_in_order(calls: Seq<(u64, Option<u64>)>) -> bool {
    forall|i: int, j: int| 0 <= i < j < calls.len() ==> calls[i].0 <= calls[j].0
}

/// After calls in order, the counter holds the recorded samples from some
/// point on: those before it are older than the window as of the last
/// call, those after are not; and the samples are in time order, none
/// later than the last call.
proof fn lemma_replay_rate(calls: Seq<(u64, Option<u64>)>, window: nat) -> (k: int)
    requires
        calls_in_order(calls),
        calls.len() > 0,
    ensures
        0 <= k <= recorded(calls).len(),
        replay_rate(calls, window) == recorded(calls).subrange(k, recorded(calls).len() as int),
        forall|i: int| 0 <= i < k ==> elapsed(calls.last().0, #[trigger] recorded(calls)[i].at) > window,
        forall|i: int| k <= i < recorded(calls).len() ==> elapsed(calls.last().0, #[trigger] recorded(calls)[i].at) <= window,
        forall|i: int| 0 <= i < recorded(calls).len() ==> #[trigger] recorded(calls)[i].at <= calls.last().0,
        forall|i: int, j: int| 0 <= i < j < recorded(calls).len() ==> recorded(calls)[i].at <= recorded(calls)[j].at,
    decreases calls.len(),
{
    let c = calls.last();
    let earlier = calls.drop_last();
    let rec0 = recorded(earlier);
    let rec = recorded(calls);
    let (k0, base): (int, Seq<RateSample>) = if earlier.len() == 0 {
        (0, Seq::empty())
    } else {
        assert(calls_in_order(earlier)) by {
            assert forall|i: int, j: int| 0 <= i < j < earlier.len() implies earlier[i].0 <= earlier[j].0 by {
                assert(earlier[i] == calls[i] && earlier[j] == calls[j]);
            }
        }
        let k0 = lemma_replay_rate(earlier, window);
        assert(earlier.last() == calls[calls.len() - 2]);
        (k0, replay_rate(earlier, window))
    };
    let t = c.0;
    // Every earlier sample is no later than this call, and those that had
    // left the window are still out of it.
    assert forall|i: int| 0 <= i < rec0.len() implies #[trigger] rec0[i].at <= t by {
        assert(earlier.last() == calls[calls.len() - 2]);
    }
    assert(base == rec0.subrange(k0, rec0.len() as int));
    let grown = match c.1 {
        Some(bytes) => base.push(RateSample { at: t, bytes }),
        None => base,
    };
    assert(rec == match c.1 {
        Some(bytes) => rec0.push(RateSample { at: t, bytes }),
        None => rec0,
    });
    assert(grown =~= rec.subrange(k0, rec.len() as int));
    let j = lemma_pruned_suffix(grown, t, window);
    assert(replay_rate(calls, window) == pruned(grown, t, window));
    assert(replay_rate(calls, window) =~= rec.subrange(k0 + j, rec.len() as int));
    assert forall|i: int| 0 <= i < rec.len() implies #[trigger] rec[i].at <= t by {
        if i < rec0.len() {
            assert(rec[i] == rec0[i]);
        }
    }
    assert forall|a: int, b: int| 0 <= a < b < rec.len() implies rec[a].at <= rec[b].at by {
        assert(rec[a] == rec0[a]);
        if b < rec0.len() {
            assert(rec[b] == rec0[b]);
        }
    }
    assert forall|i: int| 0 <= i < k0 + j implies elapsed(t, #[trigger] rec[i].at) > window by {
        if i < k0 {
            assert(rec[i] == rec0[i]);
            assert(earlier.last() == calls[calls.len() - 2]);
        } else {
            assert(rec[i] == grown[i - k0]);
        }
    }
    assert forall|i: int| k0 + j <= i < rec.len() implies elapsed(t, #[trigger] rec[i].at) <= window by {
        assert(rec[k0 + j] == grown[j]);
        assert(rec[k0 + j].at <= rec[i].at);
    }
    k0 + j
}

/// Law: a reading taken when a transfer is recorded counts exactly that
/// transfer and the earlier transfers still in the window. On a counter
/// that started empty, after calls whose moments never go back, recording
/// `bytes` at `at` (no earlier than any call) and reading at `at` gives the
/// bytes of the recorded transfers from some point on, exactly those
/// within the window as of `at`, plus `bytes`, over the window's whole
/// seconds (at least one).
pub proof fn law_rate_reading_after_record(calls: Seq<(u64, Option<u64>)>, window: TimeSpan, at: u64, bytes: u64)
    requires
        calls_in_order(calls),
        forall|i: int| 0 <= i < calls.len() ==> #[trigger] calls[i].0 <= at,
    ensures
        exists|k: int| {
            &&& 0 <= k <= recorded(calls).len()
            &&& forall|i: int| 0 <= i < k ==> elapsed(at, #[trigger] recorded(calls)[i].at) > window@
            &&& forall|i: int| k <= i < recorded(calls).len() ==> elapsed(at, #[trigger] recorded(calls)[i].at) <= window@
            &&& total_bytes(pruned(replay_rate(calls.push((at, Some(bytes))), window@), at, window@))
                == total_bytes(recorded(calls).subrange(k, recorded(calls).len() as int)) + bytes
        },
{
    let all = calls.push((at, Some(bytes)));
    assert(all.drop_last() =~= calls);
    assert(calls_in_order(all)) by {
        assert forall|i: int, j: int| 0 <= i < j < all.len() implies all[i].0 <= all[j].0 by {
            if j < calls.len() {
                assert(all[i] == calls[i] && all[j] == calls[j]);
            } else {
                assert(all[i] == calls[i]);
            }
        }
    }
    let k = lemma_replay_rate(all, window@);
    let rec = recorded(calls);
    let rec_all = recorded(all);
    assert(rec_all == rec.push(RateSample { at, bytes }));
    let held = replay_rate(all, window@);
    law_rate_reading_is_repeatable(held, window, at);
    assert(pruned(held, at, window@) == pruned(pruned(held, at, window@), at, window@));
    // The reading finds nothing more to drop.
    let j = lemma_pruned_suffix(held, at, window@);
    assert(j == 0) by {
        if j > 0 {
            assert(held[0] == rec_all[k]);
        }
    }
    assert(held.subrange(0, held.len() as int) =~= held);
    assert(k <= rec.len()) by {
        assert(elapsed(at, rec_all[rec.len() as int].at) == 0);
    }
    assert(held =~= rec.subrange(k, rec.len() as int).push(RateSample { at, bytes }));
    assert(held.drop_last() =~= rec.subrange(k, rec.len() as int));
    assert forall|i: int| 0 <= i < k implies elapsed(at, #[trigger] rec[i].at) > window@ by {
        assert(rec_all[i] == rec[i]);
    }
    assert forall|i: int| k <= i < rec.len() implies elapsed(at, #[trigger] rec[i].at) <= window@ by {
        assert(rec_all[i] == rec[i]);
    }
}

} // verus!
