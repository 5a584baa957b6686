//! The countdown timer: an editable target, start and stop, and a bell when
//! the countdown has run out.
use vstd::prelude::*;
use vstd::string::*;
use crate::clock::DisplayData;
use crate::duration::{duration_hands, duration_text, fast_sweep, format_duration};
use crate::instant::{MAX_INSTANT_MS, local_now, valid_instant};
use crate::keys::{Key, KeyCode};
use crate::text::{decimal, push_decimal, push_space_padded, space_padded};

verus! {

/// The longest target, in milliseconds.
pub const MAX_TARGET_MS: i64 = 10_000_000_000_000_000;

/// The least time, in milliseconds, between two rings of the bell.
pub const BELL_INTERVAL_MS: i64 = 250;

/// The field of the target that Up and Down change.
#[derive(Debug, Clone, Copy, PartialEq, Eq, Structural)]
pub enum CursorPos {
    /// Whole minutes.
    Min1,
    /// Tens of seconds.
    Sec10,
    /// Seconds.
    Sec1,
}

/// What one step of Up or Down adds or takes, in milliseconds.
pub open spec fn step_ms(c: CursorPos) -> int {
    match c {
        CursorPos::Min1 => 60000,
        CursorPos::Sec10 => 10000,
        CursorPos::Sec1 => 1000,
    }
}

/// The countdown timer; times are in milliseconds.
#[derive(Debug)]
pub struct TimerState {
    /// When the countdown runs out; set exactly while running.
    pub end_time: Option<i64>,
    /// When the bell last rang in this run.
    pub last_bell_time: Option<i64>,
    /// The target that the next start counts down from.
    pub duration: i64,
    /// What was left at the last refresh.
    pub remaining: i64,
    pub cursor_pos: CursorPos,
    pub running: bool,
}

impl TimerState {
    pub open spec fn wf(&self) -> bool {
        &&& 0 <= self.duration <= MAX_TARGET_MS
        &&& 0 <= self.remaining
        &&& self.end_time.is_some() == self.running
        &&& self.end_time matches Some(e) ==> -MAX_INSTANT_MS <= e <= MAX_INSTANT_MS
            + MAX_TARGET_MS
        &&& self.last_bell_time matches Some(b) ==> valid_instant(b as int)
    }
}

impl Default for TimerState {
    /// Idle, with a target of zero and the cursor on the minutes.
    fn default() -> (r: TimerState)
        ensures
            r.wf(),
            r.end_time.is_none() && r.last_bell_time.is_none(),
            r.duration == 0 && r.remaining == 0,
            r.cursor_pos == CursorPos::Min1,
            !r.running,
    {
        TimerState {
            end_time: None,
            last_bell_time: None,
            duration: 0,
            remaining: 0,
            cursor_pos: CursorPos::Min1,
            running: false,
        }
    }
}

/// The timer after a key press at time `now`.
pub open spec fn timer_after_key(s: TimerState, code: KeyCode, now: int) -> TimerState {
    match code {
        KeyCode::Char(' ') => if s.running {
            TimerState { running: false, end_time: None, ..s }
        } else {
            TimerState {
                running: true,
                end_time: Some((now + s.duration) as i64),
                last_bell_time: None,
                ..s
            }
        },
        KeyCode::Up => TimerState {
            duration: if s.duration + step_ms(s.cursor_pos) > MAX_TARGET_MS {
                MAX_TARGET_MS
            } else {
                (s.duration + step_ms(s.cursor_pos)) as i64
            },
            ..s
        },
        KeyCode::Down => TimerState {
            duration: if s.duration - step_ms(s.cursor_pos) < 0 {
                0
            } else {
                (s.duration - step_ms(s.cursor_pos)) as i64
            },
            ..s
        },
        KeyCode::Left => TimerState {
            cursor_pos: match s.cursor_pos {
                CursorPos::Sec1 => CursorPos::Sec10,
                _ => CursorPos::Min1,
            },
            ..s
        },
        KeyCode::Right => TimerState {
            cursor_pos: match s.cursor_pos {
                CursorPos::Min1 => CursorPos::Sec10,
                _ => CursorPos::Sec1,
            },
            ..s
        },
        _ => s,
    }
}

/// Whether a refresh at `now` rings the bell: the countdown has run out and
/// the bell has not rung in this run, or rang more than 250 ms ago.
pub open spec fn bell_due(s: TimerState, now: int) -> bool {
    &&& s.end_time matches Some(e) && now >= e
    &&& s.last_bell_time matches Some(b) ==> now - b > BELL_INTERVAL_MS
}

/// The timer after a refresh at `now`.
pub open spec fn timer_after_tick(s: TimerState, now: int) -> TimerState {
    match s.end_time {
        None => s,
        Some(e) => if now >= e {
            TimerState {
                remaining: 0,
                last_bell_time: if bell_due(s, now) { Some(now as i64) } else { s.last_bell_time },
                ..s
            }
        } else {
            TimerState { remaining: (e - now) as i64, ..s }
        },
    }
}

/// The title of a running or idle timer or stopwatch.
pub open spec fn status_text(running: bool) -> Seq<char> {
    if running { "Started"@ } else { "Idle"@ }
}

pub(crate) fn status_title(running: bool) -> (r: String)
    ensures
        r@ == status_text(running),
{
    if running {
        String::from_str("Started")
    } else {
        String::from_str("Idle")
    }
}

/// The target as the editor shows it: `"MM : S S"`, the minutes right-aligned
/// in two places, then the tens and the ones of the seconds.
pub open spec fn target_text(duration: int) -> Seq<char> {
    space_padded((duration / 60000) as nat, 2) + " : "@ + decimal(((duration / 1000) / 10 % 6) as nat)
        + seq![' '] + decimal((duration / 1000 % 10) as nat)
}

impl TimerState {
    /// The target, for the editor.
    pub fn target_text(&self) -> (r: String)
        requires
            self.wf(),
        ensures
            r@ == target_text(self.duration as int),
    {
        let secs = (self.duration / 1000) as u64;
        let mut s = String::new();
        push_space_padded(&mut s, (self.duration / 60000) as u64, 2);
        s.append(" : ");
        push_decimal(&mut s, secs / 10 % 6);
        proof {
            reveal_strlit(" ");
        }
        s.append(" ");
        push_decimal(&mut s, secs % 10);
        assert(s@ =~= target_text(self.duration as int));
        s
    }
}

/// Applies a key press at time `now` to the timer.
pub fn handle_key_event_at(state: &mut TimerState, key: &Key, now: i64)
    requires
        old(state).wf(),
        valid_instant(now as int),
    ensures
        final(state).wf(),
        *final(state) == timer_after_key(*old(state), key.code, now as int),
{
    match key.code {
        KeyCode::Char(' ') => {
            if state.running {
                state.running = false;
                state.end_time = None;
            } else {
                state.running = true;
                state.end_time = Some(now + state.duration);
                state.last_bell_time = None;
            }
        },
        KeyCode::Up => {
            let step: i64 = match state.cursor_pos {
                CursorPos::Min1 => 60000,
                CursorPos::Sec10 => 10000,
                CursorPos::Sec1 => 1000,
            };
            state.duration = if state.duration > MAX_TARGET_MS - step {
                MAX_TARGET_MS
            } else {
                state.duration + step
            };
        },
        KeyCode::Down => {
            let step: i64 = match state.cursor_pos {
                CursorPos::Min1 => 60000,
                CursorPos::Sec10 => 10000,
                CursorPos::Sec1 => 1000,
            };
            state.duration = if state.duration < step {
                0
            } else {
                state.duration - step
            };
        },
        KeyCode::Left => {
            state.cursor_pos = match state.cursor_pos {
                CursorPos::Sec1 => CursorPos::Sec10,
                _ => CursorPos::Min1,
            };
        },
        KeyCode::Right => {
            state.cursor_pos = match state.cursor_pos {
                CursorPos::Min1 => CursorPos::Sec10,
                _ => CursorPos::Sec1,
            };
        },
        _ => {},
    }
}

/// Applies a key press to the timer, at the time the wall clock reads.
pub fn handle_key_event(state: &mut TimerState, key: &Key)
    requires
        old(state).wf(),
    ensures
        final(state).wf(),
        exists|now: int|
            valid_instant(now) && *final(state) == timer_after_key(*old(state), key.code, now),
{
    let now = local_now().timestamp_ms;
    handle_key_event_at(state, key, now);
}

/// Refreshes the timer at time `now`: counts down, and says whether the bell
/// is to ring. The display shows the time left and fast-sweep hands.
pub fn update_timer_at(state: &mut TimerState, now: i64) -> (r: (DisplayData, bool))
    requires
        old(state).wf(),
        valid_instant(now as int),
    ensures
        final(state).wf(),
        *final(state) == timer_after_tick(*old(state), now as int),
        r.1 == bell_due(*old(state), now as int),
        r.0.block_title@ == status_text(old(state).running),
        r.0.block_content@ == duration_text(final(state).remaining as int),
        r.0.analog_state == fast_sweep(final(state).remaining as int),
{
    let block_title = status_title(state.running);
    let mut bell = false;
    if let Some(end) = state.end_time {
        if now >= end {
            let due = match state.last_bell_time {
                Some(b) => now - b > BELL_INTERVAL_MS,
                None => true,
            };
            if due {
                bell = true;
                state.last_bell_time = Some(now);
            }
            state.remaining = 0;
        } else {
            state.remaining = end - now;
        }
    }
    let block_content = format_duration(state.remaining);
    let analog_state = duration_hands(state.remaining);
    (DisplayData { block_title, block_content, analog_state }, bell)
}

/// Refreshes the timer at the time the wall clock reads.
pub fn update_timer(state: &mut TimerState) -> (r: (DisplayData, bool))
    requires
        old(state).wf(),
    ensures
        final(state).wf(),
        exists|now: int|
            valid_instant(now) && *final(state) == timer_after_tick(*old(state), now) && r.1
                == bell_due(*old(state), now),
        r.0.block_title@ == status_text(old(state).running),
        r.0.block_content@ == duration_text(final(state).remaining as int),
        r.0.analog_state == fast_sweep(final(state).remaining as int),
{
    let now = local_now().timestamp_ms;
    update_timer_at(state, now)
}


/// Down never takes the target below zero: from zero it stays at zero, and
/// from any well-formed state it stays within its bounds.
pub proof fn lemma_down_clamps_at_zero(s: TimerState, now: int)
    requires
        s.wf(),
        valid_instant(now),
    ensures
        timer_after_key(s, KeyCode::Down, now).duration >= 0,
        s.duration == 0 ==> timer_after_key(s, KeyCode::Down, now).duration == 0,
        s.duration >= step_ms(s.cursor_pos) ==> timer_after_key(s, KeyCode::Down, now).duration
            == s.duration - step_ms(s.cursor_pos),
{
}

/// After the bell rings at `t1`, it does not ring again at any refresh up to
/// 250 ms later.
pub proof fn lemma_bell_spacing(s: TimerState, t1: int, t2: int)
    requires
        s.wf(),
        valid_instant(t1),
        bell_due(s, t1),
        t1 <= t2 <= t1 + BELL_INTERVAL_MS,
    ensures
        !bell_due(timer_after_tick(s, t1), t2),
        timer_after_tick(s, t1).remaining == 0,
{
}


/// The timer after a refresh at each of `times` in turn, with no key pressed.
pub open spec fn after_ticks(s: TimerState, times: Seq<int>) -> TimerState
    decreases times.len(),
{
    if times.len() == 0 {
        s
    } else {
        timer_after_tick(after_ticks(s, times.drop_last()), times.last())
    }
}

/// How many of the refreshes at `times` ring the bell.
pub open spec fn rings(s: TimerState, times: Seq<int>) -> nat
    decreases times.len(),
{
    if times.len() == 0 {
        0
    } else {
        rings(s, times.drop_last()) + if bell_due(after_ticks(s, times.drop_last()), times.last()) {
            1nat
        } else {
            0nat
        }
    }
}

proof fn lemma_rings_spread(s: TimerState, times: Seq<int>, lo: int)
    requires
        forall|i: int| 0 <= i < times.len() ==> lo <= #[trigger] times[i] && valid_instant(times[i]),
        forall|i: int, j: int| 0 <= i < j < times.len() ==> times[i] <= times[j],
    ensures
        rings(s, times) > 0 ==> {
            &&& after_ticks(s, times).last_bell_time matches Some(b)
            &&& lo + (BELL_INTERVAL_MS + 1) * (rings(s, times) - 1) <= b
            &&& b <= times.last()
        },
    decreases times.len(),
{
    if times.len() > 0 {
        let before = times.drop_last();
        lemma_rings_spread(s, before, lo);
        let now = times.last();
        assert(lo <= now && valid_instant(now));
        if rings(s, before) > 0 {
            assert(before.last() == times[times.len() - 2]);
        }
    }
}

/// However the refreshes fall within a window from `lo` to `hi`, the bell
/// rings at most once in any 250 ms: `k` rings take more than `250 * (k - 1)`
/// ms.
pub proof fn lemma_bell_rings_bounded(s: TimerState, times: Seq<int>, lo: int, hi: int)
    requires
        forall|i: int| 0 <= i < times.len() ==> lo <= #[trigger] times[i] <= hi && valid_instant(times[i]),
        forall|i: int, j: int| 0 <= i < j < times.len() ==> times[i] <= times[j],
    ensures
        rings(s, times) <= 1 || BELL_INTERVAL_MS * (rings(s, times) - 1) < hi - lo,
{
    lemma_rings_spread(s, times, lo);
}

} // verus!
