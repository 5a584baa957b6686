//! The lap stopwatch: start and stop, laps, and the time between them.
use vstd::prelude::*;
use crate::clock::DisplayData;
use crate::duration::{duration_hands, duration_text, fast_sweep, format_duration};
use crate::instant::{local_now, valid_instant};
use crate::keys::{Key, KeyCode};
use crate::timer_tab::{status_text, status_title};

verus! {

/// The stopwatch; times are in milliseconds since the Unix epoch.
#[derive(Debug)]
pub struct StopWatchState {
    /// When the session started.
    pub start_time: Option<i64>,
    /// When the session stopped; unset while running.
    pub stop_time: Option<i64>,
    /// The laps of this session, in the order they were taken.
    pub lap_time: Vec<i64>,
    pub running: bool,
}

impl StopWatchState {
    pub open spec fn wf(&self) -> bool {
        &&& self.running ==> self.start_time.is_some() && self.stop_time.is_none()
        &&& self.stop_time.is_some() ==> self.start_time.is_some() && !self.running
        &&& self.lap_time.len() > 0 ==> self.start_time.is_some()
        &&& self.start_time matches Some(t) ==> valid_instant(t as int)
        &&& self.stop_time matches Some(t) ==> valid_instant(t as int)
        &&& forall|i: int| 0 <= i < self.lap_time.len() ==> valid_instant(#[trigger] self.lap_time@[i] as int)
    }
}

impl Default for StopWatchState {
    /// No session yet.
    fn default() -> (r: StopWatchState)
        ensures
            r.wf(),
            r.start_time.is_none() && r.stop_time.is_none(),
            r.lap_time@.len() == 0,
            !r.running,
    {
        StopWatchState { start_time: None, stop_time: None, lap_time: Vec::new(), running: false }
    }
}

/// The time that elapsed time is measured to: the stop, or else `now`.
pub open spec fn reference_time(s: &StopWatchState, now: int) -> int {
    match s.stop_time {
        Some(t) => t as int,
        None => now,
    }
}

/// The time since the start of the session, or zero before any session.
pub open spec fn elapsed(s: &StopWatchState, now: int) -> int {
    match s.start_time {
        Some(t) => reference_time(s, now) - t,
        None => 0,
    }
}

/// Where lap `i` (counted from 0) begins: the start, or the lap before.
pub open spec fn lap_begin(start: int, laps: Seq<i64>, i: int) -> int {
    if i == 0 { start } else { laps[i - 1] as int }
}

/// The length of each lap, then, once a session has started, the time from
/// the last lap (or the start) to the reference time.
pub open spec fn lap_durations(s: &StopWatchState, now: int) -> Seq<int> {
    let laps = s.lap_time@;
    match s.start_time {
        Some(t) => Seq::new(laps.len(), |i: int| laps[i] - lap_begin(t as int, laps, i)).push(
            reference_time(s, now) - lap_begin(t as int, laps, laps.len() as int),
        ),
        None => Seq::empty(),
    }
}

/// `after` is the stopwatch `before` once a key was pressed at time `now`:
/// Space starts a new session or stops the running one, `m` takes a lap
/// while running, and nothing else changes anything.
pub open spec fn stopwatch_after_key(
    before: &StopWatchState,
    after: &StopWatchState,
    code: KeyCode,
    now: int,
) -> bool {
    if code == KeyCode::Char(' ') && before.running {
        &&& !after.running
        &&& after.stop_time == Some(now as i64)
        &&& after.start_time == before.start_time
        &&& after.lap_time@ == before.lap_time@
    } else if code == KeyCode::Char(' ') {
        &&& after.running
        &&& after.stop_time.is_none()
        &&& after.start_time == Some(now as i64)
        &&& after.lap_time@.len() == 0
    } else if code == KeyCode::Char('m') && before.running {
        &&& after.running
        &&& after.stop_time == before.stop_time
        &&& after.start_time == before.start_time
        &&& after.lap_time@ == before.lap_time@.push(now as i64)
    } else {
        &&& after.running == before.running
        &&& after.stop_time == before.stop_time
        &&& after.start_time == before.start_time
        &&& after.lap_time@ == before.lap_time@
    }
}

/// Applies a key press at time `now`: Space starts a new session or stops
/// the running one, and `m` takes a lap while running.
pub fn handle_key_event_at(state: &mut StopWatchState, key: &Key, now: i64)
    requires
        old(state).wf(),
        valid_instant(now as int),
    ensures
        final(state).wf(),
        stopwatch_after_key(old(state), final(state), key.code, now as int),
{
    match key.code {
        KeyCode::Char(' ') => {
            if state.running {
                state.running = false;
                state.stop_time = Some(now);
            } else {
                state.running = true;
                state.stop_time = None;
                state.start_time = Some(now);
                state.lap_time = Vec::new();
            }
        },
        KeyCode::Char('m') => {
            if state.running {
                state.lap_time.push(now);
            }
        },
        _ => {},
    }
    assert(forall|i: int| 0 <= i < state.lap_time.len() ==> valid_instant(#[trigger] state.lap_time@[i] as int));
}

/// Applies a key press at the time the wall clock reads.
pub fn handle_key_event(state: &mut StopWatchState, key: &Key)
    requires
        old(state).wf(),
    ensures
        final(state).wf(),
        exists|now: int| valid_instant(now) && stopwatch_after_key(old(state), final(state), key.code, now),
{
    let now = local_now().timestamp_ms;
    handle_key_event_at(state, key, now);
}

/// The stopwatch's display at time `now`: the elapsed time and fast-sweep
/// hands.
pub fn update_sw_at(state: &StopWatchState, now: i64) -> (r: DisplayData)
    requires
        state.wf(),
        valid_instant(now as int),
    ensures
        r.block_title@ == status_text(state.running),
        r.block_content@ == duration_text(elapsed(state, now as int)),
        r.analog_state == fast_sweep(elapsed(state, now as int)),
{
    let reference = match state.stop_time {
        Some(t) => t,
        None => now,
    };
    let elapsed = match state.start_time {
        Some(t) => reference - t,
        None => 0,
    };
    DisplayData {
        block_title: status_title(state.running),
        block_content: format_duration(elapsed),
        analog_state: duration_hands(elapsed),
    }
}

/// The stopwatch's display at the time the wall clock reads.
pub fn update_sw(state: &StopWatchState) -> (r: DisplayData)
    requires
        state.wf(),
    ensures
        r.block_title@ == status_text(state.running),
        exists|now: int|
            valid_instant(now) && r.block_content@ == duration_text(elapsed(state, now))
                && r.analog_state == fast_sweep(elapsed(state, now)),
{
    let now = local_now().timestamp_ms;
    update_sw_at(state, now)
}

/// The rows of the lap panel at time `now`, in milliseconds: each lap's
/// length, then the running interval once a session has started.
pub fn lap_durations_at(state: &StopWatchState, now: i64) -> (r: Vec<i64>)
    requires
        state.wf(),
        valid_instant(now as int),
    ensures
        r@.map_values(|d: i64| d as int) == lap_durations(state, now as int),
{
    let mut r: Vec<i64> = Vec::new();
    let start = match state.start_time {
        Some(t) => t,
        None => {
            assert(r@.map_values(|d: i64| d as int) =~= lap_durations(state, now as int));
            return r;
        },
    };
    let ghost laps = state.lap_time@;
    let mut prev = start;
    let mut i: usize = 0;
    while i < state.lap_time.len()
        invariant
            state.wf(),
            state.start_time == Some(start),
            laps == state.lap_time@,
            i <= laps.len(),
            prev == lap_begin(start as int, laps, i as int),
            valid_instant(prev as int),
            r@.len() == i,
            forall|k: int| 0 <= k < i ==> #[trigger] r@[k] == laps[k] - lap_begin(start as int, laps, k),
        decreases laps.len() - i,
    {
        let t = state.lap_time[i];
        assert(valid_instant(laps[i as int] as int));
        r.push(t - prev);
        prev = t;
        i = i + 1;
    }
    let reference = match state.stop_time {
        Some(t) => t,
        None => now,
    };
    r.push(reference - prev);
    assert(r@.map_values(|d: i64| d as int) =~= lap_durations(state, now as int));
    r
}

/// The rows of the lap panel at the time the wall clock reads.
pub fn lap_durations_now(state: &StopWatchState) -> (r: Vec<i64>)
    requires
        state.wf(),
    ensures
        exists|now: int|
            valid_instant(now) && r@.map_values(|d: i64| d as int) == lap_durations(state, now),
{
    let now = local_now().timestamp_ms;
    lap_durations_at(state, now)
}


/// The sum of a sequence of integers.
pub open spec fn total(s: Seq<int>) -> int
    decreases s.len(),
{
    if s.len() == 0 { 0 } else { total(s.drop_last()) + s.last() }
}

/// With laps taken in time order after the start, each lap's length is not
/// negative, and the lengths add up to the time from the start to the last
/// lap.
pub proof fn lemma_laps_add_up(s: &StopWatchState, now: int)
    requires
        s.wf(),
        s.start_time.is_some(),
        s.lap_time@.len() > 0 ==> s.start_time.unwrap() <= s.lap_time@[0],
        forall|i: int| 0 < i < s.lap_time@.len() ==> s.lap_time@[i - 1] <= #[trigger] s.lap_time@[i],
    ensures
        forall|i: int| 0 <= i < s.lap_time@.len() ==> #[trigger] lap_durations(s, now)[i] >= 0,
        total(lap_durations(s, now).take(s.lap_time@.len() as int)) == lap_begin(
            s.start_time.unwrap() as int,
            s.lap_time@,
            s.lap_time@.len() as int,
        ) - s.start_time.unwrap(),
{
    let laps = s.lap_time@;
    let t0 = s.start_time.unwrap() as int;
    lemma_prefix_total(t0, laps, lap_durations(s, now), laps.len() as int);
}

proof fn lemma_prefix_total(t0: int, laps: Seq<i64>, d: Seq<int>, k: int)
    requires
        0 <= k <= laps.len(),
        k <= d.len(),
        forall|i: int| 0 <= i < k ==> d[i] == laps[i] - lap_begin(t0, laps, i),
    ensures
        total(d.take(k)) == lap_begin(t0, laps, k) - t0,
    decreases k,
{
    if k > 0 {
        lemma_prefix_total(t0, laps, d, k - 1);
        assert(d.take(k).drop_last() =~= d.take(k - 1));
    }
}

/// Once a running stopwatch is stopped at `t_stop`, the elapsed time is
/// `t_stop` less the start at every later refresh.
pub proof fn lemma_stop_freezes_elapsed(
    before: &StopWatchState,
    after: &StopWatchState,
    t_stop: int,
    now: int,
)
    requires
        before.wf(),
        before.running,
        valid_instant(t_stop),
        stopwatch_after_key(before, after, KeyCode::Char(' '), t_stop),
        now > t_stop,
    ensures
        elapsed(after, now) == t_stop - before.start_time.unwrap(),
        elapsed(after, now) == elapsed(before, t_stop),
{
}

} // verus!
