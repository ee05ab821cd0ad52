//! The segmentation engine as a mathematical model: one step per tick of the
//! sampling loop, runs of ticks, and what holds of the segments a run emits.

use vstd::prelude::*;
use crate::activity::ActivitySnapshotView;
use crate::activity::key::{sample_key, ActivityKeyView};
use crate::database::queries::ActivityView;

verus! {

/// What the engine holds between two ticks: the key of the open segment, if
/// the user is doing anything, and the instant at which that segment started.
pub struct EngineState {
    pub current_key: Option<ActivityKeyView>,
    pub segment_started_at: int,
}

impl EngineState {
    /// The state of a freshly created engine.
    pub open spec fn initial(now: int) -> EngineState {
        EngineState { current_key: None, segment_started_at: now }
    }
}

/// One tick of the sampling loop: what the sampler saw, and when.
pub struct Tick {
    pub sample: Option<ActivitySnapshotView>,
    pub now: int,
}

impl Tick {
    /// The key of the sampled activity; `None` where nothing is in the foreground.
    pub open spec fn key(self) -> Option<ActivityKeyView> {
        sample_key(self.sample)
    }
}

/// The segment that is recorded when the open segment of `s` is closed at
/// `now`: the application and the window title of the open key, from the
/// start of the open segment up to `now`. Nothing is recorded for an idle
/// period, nor where the elapsed time is not positive or does not fit the
/// duration field.
pub open spec fn closing_segment(s: EngineState, now: int) -> Option<ActivityView> {
    let duration = now - s.segment_started_at;
    if s.current_key is Some && 0 < duration <= u32::MAX {
        Some(
            ActivityView {
                id: None,
                timestamp: s.segment_started_at,
                app_name: s.current_key->0.app_name,
                window_title: Some(s.current_key->0.window_title),
                duration_seconds: duration as nat,
                is_idle: false,
                category: None,
            },
        )
    } else {
        None
    }
}

/// The state after one tick. A sample with the key of the open segment leaves
/// the state as it is; any other sample opens a new segment at `t.now`.
pub open spec fn next_state(s: EngineState, t: Tick) -> EngineState {
    if t.key() == s.current_key {
        s
    } else {
        EngineState { current_key: t.key(), segment_started_at: t.now }
    }
}

/// The segment that one tick emits, if any.
pub open spec fn emission(s: EngineState, t: Tick) -> Option<ActivityView> {
    if t.key() == s.current_key {
        None
    } else {
        closing_segment(s, t.now)
    }
}

/// When a tick emits a segment: when it brings another key than that of the
/// open segment, the open segment belongs to an activity, and the time since
/// it started is positive and fits the duration field.
pub proof fn lemma_emission_is_owed(s: EngineState, t: Tick)
    ensures
        emission(s, t) is Some <==> {
            &&& t.key() != s.current_key
            &&& s.current_key is Some
            &&& 0 < t.now - s.segment_started_at <= u32::MAX
        },
{
}

/// The state after a run of ticks.
pub open spec fn state_after(s: EngineState, ticks: Seq<Tick>) -> EngineState
    decreases ticks.len(),
{
    if ticks.len() == 0 {
        s
    } else {
        next_state(state_after(s, ticks.drop_last()), ticks.last())
    }
}

/// The segments that a run of ticks emits, in the order of their emission.
pub open spec fn emitted(s: EngineState, ticks: Seq<Tick>) -> Seq<ActivityView>
    decreases ticks.len(),
{
    if ticks.len() == 0 {
        Seq::empty()
    } else {
        let earlier = emitted(s, ticks.drop_last());
        match emission(state_after(s, ticks.drop_last()), ticks.last()) {
            Some(segment) => earlier.push(segment),
            None => earlier,
        }
    }
}

/// The state in which tick `i` of a run finds the engine.
pub open spec fn state_before(s: EngineState, ticks: Seq<Tick>, i: int) -> EngineState {
    state_after(s, ticks.take(i))
}

/// The segment that tick `i` of a run emits, if any.
pub open spec fn emitted_by(s: EngineState, ticks: Seq<Tick>, i: int) -> Option<ActivityView> {
    emission(state_before(s, ticks, i), ticks[i])
}

/// The clock of a run never goes back, and the run starts no earlier than the
/// open segment of `s`.
pub open spec fn clock_never_goes_back(s: EngineState, ticks: Seq<Tick>) -> bool {
    &&& forall|i: int| 0 <= i < ticks.len() ==> s.segment_started_at <= (#[trigger] ticks[i]).now
    &&& forall|i: int, j: int|
        0 <= i <= j < ticks.len() ==> (#[trigger] ticks[i]).now <= (#[trigger] ticks[j]).now
}

/// No zero-duration segments and no idle records: every segment that a tick
/// emits lasts some time, records an activity, and has no identity yet.
pub proof fn lemma_emission_is_storable(s: EngineState, t: Tick)
    ensures
        emission(s, t) matches Some(segment) ==> {
            &&& segment.storable()
            &&& !segment.is_idle
            &&& segment.id is None
            &&& segment.timestamp == s.segment_started_at
            &&& segment.end() == t.now
            &&& s.current_key is Some
            &&& t.key() != s.current_key
        },
        s.current_key is None ==> emission(s, t) is None,
{
}

/// No zero-duration segments and no idle records, of every segment of a run.
pub proof fn lemma_emitted_are_storable(s: EngineState, ticks: Seq<Tick>, k: int)
    requires
        0 <= k < emitted(s, ticks).len(),
    ensures
        emitted(s, ticks)[k].storable(),
        !emitted(s, ticks)[k].is_idle,
    decreases ticks.len(),
{
    if ticks.len() > 0 {
        let earlier = emitted(s, ticks.drop_last());
        if k < earlier.len() {
            lemma_emitted_are_storable(s, ticks.drop_last(), k);
        }
    }
}

/// Where the clock never goes back, the open segment of a run starts no
/// earlier than it did before the run and no later than the last tick, and
/// every emitted segment ends before the open segment starts.
proof fn lemma_run_is_ordered(s: EngineState, ticks: Seq<Tick>)
    requires
        clock_never_goes_back(s, ticks),
    ensures
        s.segment_started_at <= state_after(s, ticks).segment_started_at,
        ticks.len() > 0 ==> state_after(s, ticks).segment_started_at <= ticks.last().now,
        forall|k: int|
            0 <= k < emitted(s, ticks).len() ==> (#[trigger] emitted(s, ticks)[k]).end()
                <= state_after(s, ticks).segment_started_at,
        forall|k: int, l: int|
            0 <= k < l < emitted(s, ticks).len() ==> (#[trigger] emitted(s, ticks)[k]).end() <= (
            #[trigger] emitted(s, ticks)[l]).timestamp,
    decreases ticks.len(),
{
    if ticks.len() > 0 {
        let before = ticks.drop_last();
        assert forall|i: int| 0 <= i < before.len() implies s.segment_started_at <= (
        #[trigger] before[i]).now by {
            assert(before[i] == ticks[i]);
        }
        assert forall|i: int, j: int| 0 <= i <= j < before.len() implies (#[trigger] before[i]).now
            <= (#[trigger] before[j]).now by {
            assert(before[i] == ticks[i]);
            assert(before[j] == ticks[j]);
        }
        lemma_run_is_ordered(s, before);
        if before.len() > 0 {
            assert(before.last() == ticks[before.len() - 1]);
            assert(ticks.last() == ticks[ticks.len() - 1]);
        } else {
            assert(ticks.last() == ticks[0]);
        }
    }
}

/// No overlap: where the clock never goes back, a segment that a run emits
/// ends before any later segment of the run starts.
pub proof fn lemma_segments_never_overlap(s: EngineState, ticks: Seq<Tick>, k: int, l: int)
    requires
        clock_never_goes_back(s, ticks),
        0 <= k < l < emitted(s, ticks).len(),
    ensures
        emitted(s, ticks)[k].end() <= emitted(s, ticks)[l].timestamp,
{
    lemma_run_is_ordered(s, ticks);
}

/// The state after tick `i` of a run.
proof fn lemma_state_before_next(s: EngineState, ticks: Seq<Tick>, i: int)
    requires
        0 <= i < ticks.len(),
    ensures
        state_before(s, ticks, i + 1) == next_state(state_before(s, ticks, i), ticks[i]),
{
    let upto = ticks.take(i + 1);
    assert(upto.drop_last() =~= ticks.take(i));
    assert(upto.last() == ticks[i]);
}

/// The clock advances with every tick of the run.
pub open spec fn clock_advances(ticks: Seq<Tick>) -> bool {
    forall|i: int| 0 < i < ticks.len() ==> ticks[i - 1].now < (#[trigger] ticks[i]).now
}

/// A clock that advances with every tick advances over any stretch of ticks.
proof fn lemma_clock_advances(ticks: Seq<Tick>, i: int, j: int)
    requires
        clock_advances(ticks),
        0 <= i <= j < ticks.len(),
    ensures
        ticks[i].now <= ticks[j].now,
        i < j ==> ticks[i].now < ticks[j].now,
    decreases j - i,
{
    if i < j {
        lemma_clock_advances(ticks, i, j - 1);
    }
}

/// After a tick `i` that emits a segment, and as long as the ticks that
/// follow sample an activity and emit nothing, the open segment stays the one
/// that tick `i` opened.
proof fn lemma_open_segment_kept(s: EngineState, ticks: Seq<Tick>, i: int, j: int, n: int)
    requires
        clock_advances(ticks),
        0 <= i < n <= j < ticks.len(),
        emitted_by(s, ticks, i) is Some,
        forall|m: int| i < m < j ==> (#[trigger] emitted_by(s, ticks, m)) is None,
        forall|m: int| i <= m < j ==> (#[trigger] ticks[m]).sample is Some,
        ticks[j].now - ticks[i].now <= u32::MAX,
    ensures
        state_before(s, ticks, n) == (EngineState {
            current_key: ticks[i].key(),
            segment_started_at: ticks[i].now,
        }),
    decreases n - i,
{
    lemma_state_before_next(s, ticks, n - 1);
    if n - 1 > i {
        lemma_open_segment_kept(s, ticks, i, j, n - 1);
        lemma_clock_advances(ticks, i, n - 1);
        lemma_clock_advances(ticks, n - 1, j);
        assert(emitted_by(s, ticks, n - 1) is None);
        assert(ticks[n - 1].sample is Some);
    }
}

/// No overlap and no gap: let the clock advance with every tick, let tick `i`
/// emit a segment and tick `j` the next one, with no more than fits a
/// duration between the two, and let no tick from `i` up to `j` sample
/// "nothing in the foreground". Then the first segment ends exactly where
/// the second starts.
///
/// An idle sample from the first closing tick on is left out: the idle time
/// is not recorded, and the segment after it starts later.
pub proof fn lemma_consecutive_segments_meet(s: EngineState, ticks: Seq<Tick>, i: int, j: int)
    requires
        clock_advances(ticks),
        0 <= i < j < ticks.len(),
        emitted_by(s, ticks, i) is Some,
        emitted_by(s, ticks, j) is Some,
        forall|m: int| i < m < j ==> (#[trigger] emitted_by(s, ticks, m)) is None,
        forall|m: int| i <= m < j ==> (#[trigger] ticks[m]).sample is Some,
        ticks[j].now - ticks[i].now <= u32::MAX,
    ensures
        emitted_by(s, ticks, i)->0.end() == emitted_by(s, ticks, j)->0.timestamp,
{
    lemma_open_segment_kept(s, ticks, i, j, j);
}

/// A tick leaves a gap where it changes the key, records nothing, and moves
/// the start of the open segment: an idle period ends, or the clock went back.
pub open spec fn leaves_gap(s: EngineState, t: Tick) -> bool {
    t.key() != s.current_key && emission(s, t) is None && t.now != s.segment_started_at
}

/// After its first emitted segment, no tick of the run leaves a gap.
pub open spec fn unbroken(s: EngineState, ticks: Seq<Tick>) -> bool {
    forall|m: int|
        0 <= m < ticks.len() && emitted(s, ticks.take(m)).len() > 0 ==> !leaves_gap(
            #[trigger] state_before(s, ticks, m),
            ticks[m],
        )
}

/// Between its first and its last emitted segment, no tick of the run leaves
/// a gap.
pub open spec fn gapless(s: EngineState, ticks: Seq<Tick>) -> bool {
    forall|m: int|
        0 <= m < ticks.len() && 0 < emitted(s, ticks.take(m)).len() < emitted(s, ticks).len()
            ==> !leaves_gap(#[trigger] state_before(s, ticks, m), ticks[m])
}

/// A part of a run emits no more segments than the whole run.
proof fn lemma_emitted_grows(s: EngineState, ticks: Seq<Tick>, m: int)
    requires
        0 <= m <= ticks.len(),
    ensures
        emitted(s, ticks.take(m)).len() <= emitted(s, ticks).len(),
    decreases ticks.len(),
{
    if m == ticks.len() {
        assert(ticks.take(m) =~= ticks);
    } else {
        let before = ticks.drop_last();
        assert(before.take(m) =~= ticks.take(m));
        lemma_emitted_grows(s, before, m);
    }
}

/// In an unbroken run the last emitted segment ends where the open segment
/// starts.
proof fn lemma_unbroken_run(s: EngineState, ticks: Seq<Tick>)
    requires
        unbroken(s, ticks),
    ensures
        emitted(s, ticks).len() > 0 ==> emitted(s, ticks).last().end() == state_after(
            s,
            ticks,
        ).segment_started_at,
    decreases ticks.len(),
{
    if ticks.len() > 0 {
        let before = ticks.drop_last();
        let last = ticks.len() - 1;
        assert forall|m: int|
            0 <= m < before.len() && emitted(s, before.take(m)).len() > 0 implies !leaves_gap(
            #[trigger] state_before(s, before, m),
            before[m],
        ) by {
            assert(before.take(m) =~= ticks.take(m));
            assert(before[m] == ticks[m]);
            assert(!leaves_gap(state_before(s, ticks, m), ticks[m]));
        }
        lemma_unbroken_run(s, before);
        assert(ticks.take(last) =~= before);
        assert(ticks.last() == ticks[last]);
        if emitted(s, before).len() > 0 {
            assert(!leaves_gap(state_before(s, ticks, last), ticks[last]));
        }
    }
}

/// In a gapless run each emitted segment ends where the next one starts.
proof fn lemma_gapless_run(s: EngineState, ticks: Seq<Tick>)
    requires
        gapless(s, ticks),
    ensures
        forall|k: int|
            0 <= k && k + 1 < emitted(s, ticks).len() ==> (#[trigger] emitted(s, ticks)[k]).end()
                == emitted(s, ticks)[k + 1].timestamp,
    decreases ticks.len(),
{
    if ticks.len() > 0 {
        let before = ticks.drop_last();
        let last = ticks.len() - 1;
        assert(ticks.take(last) =~= before);
        assert(ticks.last() == ticks[last]);
        assert forall|m: int|
            0 <= m < before.len() implies before.take(m) == ticks.take(m) && before[m]
                == ticks[m] by {
            assert(before.take(m) =~= ticks.take(m));
        }
        assert(gapless(s, before)) by {
            assert forall|m: int|
                0 <= m < before.len() && 0 < emitted(s, before.take(m)).len() < emitted(
                    s,
                    before,
                ).len() implies !leaves_gap(#[trigger] state_before(s, before, m), before[m]) by {
                assert(!leaves_gap(state_before(s, ticks, m), ticks[m]));
            }
        }
        lemma_gapless_run(s, before);
        if emission(state_after(s, before), ticks.last()) is Some {
            assert(unbroken(s, before)) by {
                assert forall|m: int|
                    0 <= m < before.len() && emitted(s, before.take(m)).len()
                        > 0 implies !leaves_gap(
                    #[trigger] state_before(s, before, m),
                    before[m],
                ) by {
                    lemma_emitted_grows(s, before, m);
                    assert(!leaves_gap(state_before(s, ticks, m), ticks[m]));
                }
            }
            lemma_unbroken_run(s, before);
        }
    }
}

/// Consecutive segments meet: in a run in which no tick between the first and
/// the last emitted segment leaves a gap, the segment at position `k` of
/// those emitted ends exactly where the segment at position `k + 1` starts.
///
/// A run with an idle period between two recorded activities does leave a
/// gap, so it is left out: nothing is recorded for the idle time.
pub proof fn lemma_emitted_segments_meet(s: EngineState, ticks: Seq<Tick>, k: int)
    requires
        gapless(s, ticks),
        0 <= k,
        k + 1 < emitted(s, ticks).len(),
    ensures
        emitted(s, ticks)[k].end() == emitted(s, ticks)[k + 1].timestamp,
{
    lemma_gapless_run(s, ticks);
}

/// From the tick that emits the first segment of the run on, every tick
/// samples an activity.
pub open spec fn busy_once_recording(s: EngineState, ticks: Seq<Tick>) -> bool {
    forall|m: int|
        0 <= m < ticks.len() && emitted(s, ticks.take(m + 1)).len() > 0 ==> (
        #[trigger] ticks[m]).sample is Some
}

/// A run leaves no gap after its first emitted segment where, from the tick
/// that emits it on, every tick samples an activity, the clock advances with
/// every tick, and the whole run takes no longer than fits a duration.
pub proof fn lemma_busy_run_is_gapless(s: EngineState, ticks: Seq<Tick>)
    requires
        busy_once_recording(s, ticks),
        clock_advances(ticks),
        ticks.len() > 0 ==> ticks.last().now - ticks[0].now <= u32::MAX,
    ensures
        unbroken(s, ticks),
        gapless(s, ticks),
{
    assert forall|m: int|
        0 <= m < ticks.len() && emitted(s, ticks.take(m)).len() > 0 implies !leaves_gap(
        #[trigger] state_before(s, ticks, m),
        ticks[m],
    ) by {
        lemma_busy_run_state(s, ticks, m);
    }
}

/// In such a run, once a segment is emitted, the open segment belongs to the
/// activity of the tick just passed and started at one of the ticks so far,
/// so that the next tick leaves no gap.
proof fn lemma_busy_run_state(s: EngineState, ticks: Seq<Tick>, m: int)
    requires
        busy_once_recording(s, ticks),
        clock_advances(ticks),
        ticks.len() > 0 ==> ticks.last().now - ticks[0].now <= u32::MAX,
        0 <= m < ticks.len(),
    ensures
        m > 0 ==> state_before(s, ticks, m).current_key == ticks[m - 1].key(),
        emitted(s, ticks.take(m)).len() > 0 ==> {
            &&& m > 0
            &&& ticks[m - 1].sample is Some
            &&& ticks[0].now <= state_before(s, ticks, m).segment_started_at <= ticks[m - 1].now
            &&& !leaves_gap(state_before(s, ticks, m), ticks[m])
        },
    decreases m,
{
    if m > 0 {
        let upto = ticks.take(m);
        assert(upto.drop_last() =~= ticks.take(m - 1));
        assert(upto.last() == ticks[m - 1]);
        lemma_state_before_next(s, ticks, m - 1);
        lemma_busy_run_state(s, ticks, m - 1);
        lemma_clock_advances(ticks, 0, m - 1);
        lemma_clock_advances(ticks, m - 1, m);
        lemma_clock_advances(ticks, m, ticks.len() - 1);
        assert(ticks.last() == ticks[ticks.len() - 1]);
        if m > 1 {
            lemma_clock_advances(ticks, m - 2, m - 1);
        }
        if emitted(s, upto).len() > 0 {
            assert(emitted(s, ticks.take((m - 1) + 1)).len() > 0);
            assert(ticks[m - 1].sample is Some);
        }
    } else {
        assert(ticks.take(0) =~= Seq::<Tick>::empty());
    }
}

/// No overlap and no gap, of a whole run: where, from the tick that emits the
/// first segment on, every tick samples an activity, the clock advances with
/// every tick, and the whole run takes no longer than fits a duration, each
/// emitted segment ends exactly where the next one starts.
pub proof fn lemma_busy_run_segments_meet(s: EngineState, ticks: Seq<Tick>, k: int)
    requires
        busy_once_recording(s, ticks),
        clock_advances(ticks),
        ticks.len() > 0 ==> ticks.last().now - ticks[0].now <= u32::MAX,
        0 <= k,
        k + 1 < emitted(s, ticks).len(),
    ensures
        emitted(s, ticks)[k].end() == emitted(s, ticks)[k + 1].timestamp,
{
    lemma_busy_run_is_gapless(s, ticks);
    lemma_emitted_segments_meet(s, ticks, k);
}

/// Debounce, first half: ticks that repeat the key of the open segment emit
/// nothing and leave the engine as it is.
pub proof fn lemma_repeated_key_is_silent(s: EngineState, ticks: Seq<Tick>)
    requires
        forall|i: int| 0 <= i < ticks.len() ==> (#[trigger] ticks[i]).key() == s.current_key,
    ensures
        state_after(s, ticks) == s,
        emitted(s, ticks).len() == 0,
    decreases ticks.len(),
{
    if ticks.len() > 0 {
        let before = ticks.drop_last();
        assert forall|i: int| 0 <= i < before.len() implies (#[trigger] before[i]).key()
            == s.current_key by {
            assert(before[i] == ticks[i]);
        }
        lemma_repeated_key_is_silent(s, before);
        assert(ticks.last() == ticks[ticks.len() - 1]);
    }
}

/// Debounce, second half: an activity that opens at `first.now`, is seen again
/// on every tick of `repeats`, and is replaced by another key at `change.now`
/// gives exactly one segment: the sampled application and window title, from
/// `first.now` up to `change.now`.
pub proof fn lemma_debounce(s: EngineState, first: Tick, repeats: Seq<Tick>, change: Tick)
    requires
        first.sample is Some,
        first.key() != s.current_key,
        forall|i: int| 0 <= i < repeats.len() ==> (#[trigger] repeats[i]).key() == first.key(),
        change.key() != first.key(),
        0 < change.now - first.now <= u32::MAX,
    ensures
        emitted(next_state(s, first), repeats.push(change)) == seq![
            ActivityView {
                id: None,
                timestamp: first.now,
                app_name: first.sample->0.app_name,
                window_title: Some(first.sample->0.window_title),
                duration_seconds: (change.now - first.now) as nat,
                is_idle: false,
                category: None,
            },
        ],
{
    let opened = next_state(s, first);
    let run = repeats.push(change);
    assert(run.drop_last() =~= repeats);
    assert(run.last() == change);
    lemma_repeated_key_is_silent(opened, repeats);
    assert(emitted(opened, run) =~= Seq::<ActivityView>::empty().push(
        closing_segment(opened, change.now)->0,
    ));
}

} // verus!
