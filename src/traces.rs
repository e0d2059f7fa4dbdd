//! What a whole run of steps does, stated over `LoopView::run`.

use vstd::prelude::*;

use crate::clock::{Duration, Timestamp};
use crate::game_loop::{gap, LoopView, Phase};

verus! {

/// The gaps between consecutive readings of `ts`.
pub open spec fn gaps(ts: Seq<Timestamp>) -> Seq<Duration>
    recommends
        ts.len() > 0,
{
    Seq::new((ts.len() - 1) as nat, |i: int| gap(ts[i], ts[i + 1]))
}

/// One step per reading of `ts`, with `update` returning `true` each time.
pub open spec fn continuing(ts: Seq<Timestamp>) -> Seq<(Timestamp, bool)> {
    Seq::new(ts.len(), |i: int| (ts[i], true))
}

/// The clock readings of `steps`, in order.
pub open spec fn readings_of(steps: Seq<(Timestamp, bool)>) -> Seq<Timestamp> {
    Seq::new(steps.len(), |i: int| steps[i].0)
}

/// A run whose updates all return `true` (the first step makes none) is
/// still going from its last reading, with one frame per pair of readings.
proof fn lemma_continuing_run(steps: Seq<(Timestamp, bool)>)
    requires
        steps.len() > 0,
        forall|i: int| 1 <= i < steps.len() ==> #[trigger] steps[i].1,
    ensures
        LoopView::initial().run(steps) == (LoopView {
            phase: Phase::Running { last: steps.last().0 },
            readings: readings_of(steps),
            frames: gaps(readings_of(steps)),
        }),
    decreases steps.len(),
{
    let ts = readings_of(steps);
    if steps.len() == 1 {
        assert(LoopView::initial().run(steps.drop_last()) == LoopView::initial());
        assert(Seq::<Timestamp>::empty().push(ts[0]) =~= ts);
        assert(gaps(ts) =~= Seq::<Duration>::empty());
    } else {
        let prev = steps.drop_last();
        lemma_continuing_run(prev);
        assert(readings_of(prev).push(steps.last().0) =~= ts);
        assert(gaps(readings_of(prev)).push(gap(prev.last().0, steps.last().0)) =~= gaps(ts));
        assert(steps.last().1);
    }
}

/// While `update` keeps returning `true`, a loop fed the readings
/// `T0, T1, ..., Tn` has called `update` exactly `n` times, with
/// `T1 - T0, ..., Tn - Tn-1`, and is still running from `Tn`.
pub proof fn lemma_updates_get_gaps(ts: Seq<Timestamp>)
    requires
        ts.len() > 0,
    ensures
        LoopView::initial().run(continuing(ts)) == (LoopView {
            phase: Phase::Running { last: ts.last() },
            readings: ts,
            frames: gaps(ts),
        }),
{
    lemma_continuing_run(continuing(ts));
    assert(readings_of(continuing(ts)) =~= ts);
}

/// Once a run has stopped, later steps change nothing.
proof fn lemma_stopped_stays(steps: Seq<(Timestamp, bool)>, n: int)
    requires
        0 <= n <= steps.len(),
        LoopView::initial().run(steps.take(n)).phase is Stopped,
    ensures
        LoopView::initial().run(steps) == LoopView::initial().run(steps.take(n)),
    decreases steps.len() - n,
{
    if n < steps.len() {
        let prev = steps.drop_last();
        assert(prev.take(n) =~= steps.take(n));
        lemma_stopped_stays(prev, n);
    } else {
        assert(steps.take(n) =~= steps);
    }
}

/// If `update` returns `true` on its first `k - 1` calls and `false` on the
/// `k`-th, the loop stops right there: exactly `k` frames, and no reading
/// after the one that the `k`-th frame was measured to, whatever later steps
/// would have brought.
pub proof fn lemma_stops_after_false(steps: Seq<(Timestamp, bool)>, k: int)
    requires
        1 <= k < steps.len(),
        forall|i: int| 1 <= i < k ==> #[trigger] steps[i].1,
        !steps[k].1,
    ensures
        LoopView::initial().run(steps) == (LoopView {
            phase: Phase::Stopped,
            readings: readings_of(steps).take(k + 1),
            frames: gaps(readings_of(steps).take(k + 1)),
        }),
{
    let head = steps.take(k + 1);
    let before = steps.take(k);
    assert(head.drop_last() =~= before);
    lemma_continuing_run(before);
    let ts = readings_of(steps).take(k + 1);
    assert(readings_of(before).push(steps[k].0) =~= ts);
    assert(gaps(readings_of(before)).push(gap(steps[k - 1].0, steps[k].0)) =~= gaps(ts));
    assert(LoopView::initial().run(head) == LoopView::initial().run(before).next(steps[k].0, false));
    lemma_stopped_stays(steps, k + 1);
}

/// A loop whose `update` keeps returning `true` never stops.
pub proof fn lemma_runs_while_updates_continue(ts: Seq<Timestamp>)
    ensures
        !(LoopView::initial().run(continuing(ts)).phase is Stopped),
{
    if ts.len() > 0 {
        lemma_updates_get_gaps(ts);
    }
}

/// Readings that repeat give a frame of zero nanoseconds.
pub proof fn lemma_repeated_reading_gives_zero(ts: Seq<Timestamp>, i: int)
    requires
        0 <= i < ts.len() - 1,
        ts[i] == ts[i + 1],
    ensures
        LoopView::initial().run(continuing(ts)).frames[i].nanos == 0,
{
    lemma_updates_get_gaps(ts);
}

} // verus!
