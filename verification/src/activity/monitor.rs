//! The activity monitor: the run flag that `start` and `stop` set, the one
//! background worker that it allows, and the segmentation engine that the
//! worker drives on every tick.
//!
//! The monitor decides; its caller acts. The caller spawns the worker when
//! `start` says so, lets the worker sleep one tick, ask `should_continue`,
//! take a sample, hand it to `on_sample`, and store the segment that comes back.

use vstd::prelude::*;
use crate::activity::ActivitySnapshot;
use crate::activity::key::{opt_key_view, ActivityKey};
use crate::activity::segmentation::{closing_segment, emission, next_state, EngineState, Tick};
use crate::commands::get_current_time;
use crate::database::queries::{opt_activity_view, Activity};

verus! {

/// The seconds that the worker sleeps between two ticks.
pub const TICK_INTERVAL_SECS: u64 = 10;

/// The monitor as a mathematical value.
pub struct MonitorState {
    /// The run flag: set by `start`, cleared by `stop`.
    pub running: bool,
    /// Whether a background worker exists that has not yet seen the flag cleared.
    pub worker_alive: bool,
    /// The state of the segmentation engine.
    pub engine: EngineState,
}

impl MonitorState {
    /// A monitor that was created at `now`: stopped, without a worker, idle.
    pub open spec fn created_at(now: int) -> MonitorState {
        MonitorState { running: false, worker_alive: false, engine: EngineState::initial(now) }
    }

    /// While the flag is set, a worker is alive.
    pub open spec fn wf(self) -> bool {
        self.running ==> self.worker_alive
    }

    /// The monitor after `start`.
    pub open spec fn started(self) -> MonitorState {
        MonitorState { running: true, worker_alive: true, engine: self.engine }
    }

    /// Whether `start` asks for a new worker: only where none is alive.
    pub open spec fn spawns_on_start(self) -> bool {
        !self.worker_alive
    }

    /// The monitor after `stop`. The open segment stays open.
    pub open spec fn stopped(self) -> MonitorState {
        MonitorState { running: false, worker_alive: self.worker_alive, engine: self.engine }
    }

    /// The monitor after its worker has looked at the run flag: a worker that
    /// finds the flag cleared ends.
    pub open spec fn polled(self) -> MonitorState {
        MonitorState {
            running: self.running,
            worker_alive: self.worker_alive && self.running,
            engine: self.engine,
        }
    }

    /// The monitor after its worker has handed one tick to the engine.
    pub open spec fn sampled(self, t: Tick) -> MonitorState {
        MonitorState {
            running: self.running,
            worker_alive: self.worker_alive,
            engine: next_state(self.engine, t),
        }
    }
}

/// The tick that a sample taken at `now` makes.
pub open spec fn tick_of(sample: Option<ActivitySnapshot>, now: i64) -> Tick {
    Tick {
        sample: match sample {
            Some(s) => Some(s@),
            None => None,
        },
        now: now as int,
    }
}

/// Idempotent start: a second `start` in a row changes nothing and asks for
/// no second worker.
pub proof fn lemma_start_is_idempotent(m: MonitorState)
    ensures
        m.started().started() == m.started(),
        !m.started().spawns_on_start(),
        m.started().running,
        m.wf() ==> m.started().wf(),
{
}

/// Idempotent stop: a second `stop` in a row changes nothing.
pub proof fn lemma_stop_is_idempotent(m: MonitorState)
    ensures
        m.stopped().stopped() == m.stopped(),
        !m.stopped().running,
        m.wf() ==> m.stopped().wf(),
{
}

/// A `start` that follows a `stop` before the worker has looked at the flag
/// keeps that worker and asks for no other.
pub proof fn lemma_restart_keeps_the_worker(m: MonitorState)
    requires
        m.wf(),
        m.running,
    ensures
        !m.stopped().spawns_on_start(),
        m.stopped().started() == m,
{
}

/// The activity monitor.
pub struct ActivityMonitor {
    is_running: bool,
    worker_alive: bool,
    last_activity: Option<ActivityKey>,
    last_timestamp: i64,
}

impl ActivityMonitor {
    /// What holds of every monitor: while the flag is set a worker is alive.
    #[verifier::type_invariant]
    spec fn valid(&self) -> bool {
        self.is_running ==> self.worker_alive
    }
}

impl View for ActivityMonitor {
    type V = MonitorState;

    closed spec fn view(&self) -> MonitorState {
        MonitorState {
            running: self.is_running,
            worker_alive: self.worker_alive,
            engine: EngineState {
                current_key: opt_key_view(self.last_activity),
                segment_started_at: self.last_timestamp as int,
            },
        }
    }
}

/// Whether two optional keys are the same.
fn same_key(a: &Option<ActivityKey>, b: &Option<ActivityKey>) -> (same: bool)
    ensures
        same == (opt_key_view(*a) == opt_key_view(*b)),
{
    match (a, b) {
        (Some(a), Some(b)) => a.same_as(b),
        (None, None) => true,
        _ => false,
    }
}

/// The segment to record when the open segment with the given key and start
/// is closed at `now`.
fn close_segment(key: &Option<ActivityKey>, started_at: i64, now: i64) -> (segment: Option<
    Activity,
>)
    ensures
        opt_activity_view(segment) == closing_segment(
            EngineState { current_key: opt_key_view(*key), segment_started_at: started_at as int },
            now as int,
        ),
{
    let elapsed: i128 = now as i128 - started_at as i128;
    if elapsed <= 0 || elapsed > u32::MAX as i128 {
        return None;
    }
    match key {
        None => None,
        Some(key) => Some(
            Activity {
                id: None,
                timestamp: started_at,
                app_name: key.app_name.clone(),
                window_title: Some(key.window_title.clone()),
                duration_seconds: elapsed as u32,
                is_idle: false,
                category: None,
            },
        ),
    }
}

impl ActivityMonitor {
    /// A monitor whose engine starts at `now`: stopped, without a worker, idle.
    pub fn starting_at(now: i64) -> (monitor: Self)
        ensures
            monitor@ == MonitorState::created_at(now as int),
            monitor@.wf(),
    {
        ActivityMonitor {
            is_running: false,
            worker_alive: false,
            last_activity: None,
            last_timestamp: now,
        }
    }

    /// A monitor whose engine starts at the current time, whatever the clock says.
    pub fn new() -> (monitor: Self)
        ensures
            exists|now: i64| monitor@ == MonitorState::created_at(now as int),
            monitor@.wf(),
    {
        let now = get_current_time();
        let monitor = Self::starting_at(now);
        assert(monitor@ == MonitorState::created_at(now as int));
        monitor
    }

    /// Sets the run flag. Returns whether the caller must spawn the background
    /// worker: only where no worker is alive, so that there is never a second one.
    pub fn start(&mut self) -> (spawn: bool)
        ensures
            final(self)@ == old(self)@.started(),
            spawn == old(self)@.spawns_on_start(),
            final(self)@.wf(),
    {
        proof {
            use_type_invariant(&*self);
        }
        let spawn = !self.worker_alive;
        self.worker_alive = true;
        self.is_running = true;
        spawn
    }

    /// Clears the run flag. The worker ends when it next looks at the flag;
    /// the open segment is left as it is.
    pub fn stop(&mut self)
        ensures
            final(self)@ == old(self)@.stopped(),
            final(self)@.wf(),
    {
        proof {
            use_type_invariant(&*self);
        }
        self.is_running = false;
    }

    /// Whether the run flag is set.
    pub fn is_running(&self) -> (running: bool)
        ensures
            running == self@.running,
            self@.wf(),
    {
        proof {
            use_type_invariant(self);
        }
        self.is_running
    }

    /// The worker's look at the run flag after each sleep: whether it goes on
    /// to take a sample. A worker that is told to stop ends, and is no longer alive.
    pub fn should_continue(&mut self) -> (go_on: bool)
        ensures
            go_on == old(self)@.running,
            final(self)@ == old(self)@.polled(),
            final(self)@.wf(),
    {
        proof {
            use_type_invariant(&*self);
        }
        let go_on = self.is_running;
        if !go_on {
            self.worker_alive = false;
        }
        go_on
    }

    /// Takes one sample into the engine. A sample with the key of the open
    /// segment changes nothing. Any other sample, "nothing in the foreground"
    /// too, opens a new segment at `now`, and the segment that it closes is
    /// returned for storing, with the application and the window title that
    /// were sampled when it opened, unless that was an idle period, or the
    /// time that passed is not positive or does not fit the duration field.
    pub fn on_sample(&mut self, sample: &Option<ActivitySnapshot>, now: i64) -> (segment: Option<
        Activity,
    >)
        ensures
            final(self)@ == old(self)@.sampled(tick_of(*sample, now)),
            opt_activity_view(segment) == emission(old(self)@.engine, tick_of(*sample, now)),
            segment matches Some(a) ==> a@.storable() && !a.is_idle && a.id is None
                && a@.timestamp == old(self)@.engine.segment_started_at && a@.end() == now
                && a@.app_name == old(self)@.engine.current_key->0.app_name
                && a@.window_title == Some(old(self)@.engine.current_key->0.window_title),
            segment is Some <==> {
                &&& tick_of(*sample, now).key() != old(self)@.engine.current_key
                &&& old(self)@.engine.current_key is Some
                &&& 0 < now - old(self)@.engine.segment_started_at <= u32::MAX
            },
            final(self)@.wf(),
    {
        proof {
            use_type_invariant(&*self);
        }
        let key = match sample {
            Some(snapshot) => Some(ActivityKey::of(snapshot)),
            None => None,
        };
        if same_key(&key, &self.last_activity) {
            return None;
        }
        let segment = close_segment(&self.last_activity, self.last_timestamp, now);
        self.last_activity = key;
        self.last_timestamp = now;
        segment
    }
}

} // verus!
