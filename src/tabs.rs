//! The application: which mode is shown, the keys that every mode shares,
//! and the dispatch of refreshes and key presses to the active mode.
use vstd::prelude::*;
use crate::clock::DisplayData;
use crate::clock_tab::{clock_display, date_text, live_hands, time_text};
use crate::instant::{LocalTime, local_now, valid_instant};
use crate::keys::{Key, KeyCode};
use crate::stopwatch_tab::{self, StopWatchState, update_sw_at};
use crate::timer_tab::{self, TimerState, update_timer_at};

verus! {

/// The three modes, in the order that Tab walks through them.
#[derive(Debug, Clone, Copy, PartialEq, Eq, Structural)]
pub enum AppTab {
    Clock,
    Timer,
    StopWatch,
}

/// The mode after `t`, going round.
pub open spec fn next_tab(t: AppTab) -> AppTab {
    match t {
        AppTab::Clock => AppTab::Timer,
        AppTab::Timer => AppTab::StopWatch,
        AppTab::StopWatch => AppTab::Clock,
    }
}

/// The mode before `t`, going round.
pub open spec fn previous_tab(t: AppTab) -> AppTab {
    match t {
        AppTab::Clock => AppTab::StopWatch,
        AppTab::Timer => AppTab::Clock,
        AppTab::StopWatch => AppTab::Timer,
    }
}

/// Esc or `q` with any modifiers, or `c` / `C` with Control alone.
pub open spec fn is_quit_key(k: Key) -> bool {
    k.code == KeyCode::Esc || k.code == KeyCode::Char('q') || (k.control_only() && (k.code
        == KeyCode::Char('c') || k.code == KeyCode::Char('C')))
}

/// `after` is the application `before` once `key` was pressed at time
/// `now`: the quit keys end the loop, Tab changes the mode (backwards with
/// Shift alone held, forwards otherwise), and
/// any other key goes to the timer or the stopwatch when that mode is shown.
pub open spec fn app_after_key(before: &App, after: &App, key: Key, now: int) -> bool {
    let to_mode = !is_quit_key(key) && key.code != KeyCode::Tab;
    &&& after.running == (before.running && !is_quit_key(key))
    &&& after.selected_tab == if !is_quit_key(key) && key.code == KeyCode::Tab {
        if key.shift_only() {
            previous_tab(before.selected_tab)
        } else {
            next_tab(before.selected_tab)
        }
    } else {
        before.selected_tab
    }
    &&& after.timer == if to_mode && before.selected_tab == AppTab::Timer {
        timer_tab::timer_after_key(before.timer, key.code, now)
    } else {
        before.timer
    }
    &&& if to_mode && before.selected_tab == AppTab::StopWatch {
        stopwatch_tab::stopwatch_after_key(&before.stopwatch, &after.stopwatch, key.code, now)
    } else {
        after.stopwatch == before.stopwatch
    }
}

/// The application state.
#[derive(Debug)]
pub struct App {
    /// Whether the main loop goes on.
    pub running: bool,
    pub selected_tab: AppTab,
    pub timer: TimerState,
    pub stopwatch: StopWatchState,
}

impl App {
    pub open spec fn wf(&self) -> bool {
        self.timer.wf() && self.stopwatch.wf()
    }

    /// Not yet running, on the clock, with an idle timer and stopwatch.
    pub fn new() -> (r: App)
        ensures
            r.wf(),
            !r.running,
            r.selected_tab == AppTab::Clock,
            !r.timer.running && r.timer.duration == 0,
            !r.stopwatch.running && r.stopwatch.start_time.is_none(),
    {
        App {
            running: false,
            selected_tab: AppTab::Clock,
            timer: TimerState::default(),
            stopwatch: StopWatchState::default(),
        }
    }

    /// Ends the main loop.
    pub fn quit(&mut self)
        ensures
            !final(self).running,
            final(self).selected_tab == old(self).selected_tab,
            final(self).timer == old(self).timer,
            final(self).stopwatch == old(self).stopwatch,
    {
        self.running = false;
    }

    /// The display of the active mode for a reading `t` of the wall clock,
    /// and whether the timer's bell is to ring. Only the active mode is
    /// refreshed.
    pub fn update_at(&mut self, t: &LocalTime) -> (r: (DisplayData, bool))
        requires
            old(self).wf(),
            t.wf(),
        ensures
            final(self).wf(),
            final(self).running == old(self).running,
            final(self).selected_tab == old(self).selected_tab,
            final(self).stopwatch == old(self).stopwatch,
            old(self).selected_tab == AppTab::Clock ==> {
                &&& final(self).timer == old(self).timer
                &&& r.0.block_title@ == date_text(*t)
                &&& r.0.block_content@ == time_text(*t)
                &&& r.0.analog_state == live_hands(t.hour as int, t.minute as int, t.second as int)
                &&& !r.1
            },
            old(self).selected_tab == AppTab::Timer ==> {
                &&& final(self).timer == timer_tab::timer_after_tick(
                    old(self).timer,
                    t.timestamp_ms as int,
                )
                &&& r.1 == timer_tab::bell_due(old(self).timer, t.timestamp_ms as int)
                &&& r.0.block_title@ == timer_tab::status_text(old(self).timer.running)
                &&& r.0.block_content@ == crate::duration::duration_text(
                    final(self).timer.remaining as int,
                )
                &&& r.0.analog_state == crate::duration::fast_sweep(
                    final(self).timer.remaining as int,
                )
            },
            old(self).selected_tab == AppTab::StopWatch ==> {
                &&& final(self).timer == old(self).timer
                &&& r.0.block_title@ == timer_tab::status_text(old(self).stopwatch.running)
                &&& r.0.block_content@ == crate::duration::duration_text(
                    stopwatch_tab::elapsed(&old(self).stopwatch, t.timestamp_ms as int),
                )
                &&& r.0.analog_state == crate::duration::fast_sweep(
                    stopwatch_tab::elapsed(&old(self).stopwatch, t.timestamp_ms as int),
                )
                &&& !r.1
            },
    {
        match self.selected_tab {
            AppTab::Clock => (clock_display(t), false),
            AppTab::Timer => update_timer_at(&mut self.timer, t.timestamp_ms),
            AppTab::StopWatch => (update_sw_at(&self.stopwatch, t.timestamp_ms), false),
        }
    }

    /// Handles a key press at time `now`: the quit keys end the loop, Tab and
    /// Shift+Tab change the mode, and any other key goes to the active timer
    /// or stopwatch.
    pub fn on_key_event_at(&mut self, key: &Key, now: i64)
        requires
            old(self).wf(),
            valid_instant(now as int),
        ensures
            final(self).wf(),
            app_after_key(old(self), final(self), *key, now as int),
    {
        let quit = match key.code {
            KeyCode::Esc => true,
            KeyCode::Char('q') => true,
            KeyCode::Char('c') => key.ctrl && !key.shift && !key.alt,
            KeyCode::Char('C') => key.ctrl && !key.shift && !key.alt,
            _ => false,
        };
        if quit {
            self.quit();
        } else if key.code == KeyCode::Tab {
            self.selected_tab = if key.shift && !key.ctrl && !key.alt {
                match self.selected_tab {
                    AppTab::Clock => AppTab::StopWatch,
                    AppTab::Timer => AppTab::Clock,
                    AppTab::StopWatch => AppTab::Timer,
                }
            } else {
                match self.selected_tab {
                    AppTab::Clock => AppTab::Timer,
                    AppTab::Timer => AppTab::StopWatch,
                    AppTab::StopWatch => AppTab::Clock,
                }
            };
        } else {
            match self.selected_tab {
                AppTab::Clock => {},
                AppTab::Timer => timer_tab::handle_key_event_at(&mut self.timer, key, now),
                AppTab::StopWatch => stopwatch_tab::handle_key_event_at(
                    &mut self.stopwatch,
                    key,
                    now,
                ),
            }
        }
    }

    /// Handles a key press at the time the wall clock reads.
    pub fn on_key_event(&mut self, key: &Key)
        requires
            old(self).wf(),
        ensures
            final(self).wf(),
            exists|now: int| valid_instant(now) && app_after_key(old(self), final(self), *key, now),
    {
        let now = local_now().timestamp_ms;
        self.on_key_event_at(key, now);
    }
}

/// Tab three times comes back to the same mode, Shift+Tab undoes Tab, and
/// Shift+Tab from the clock goes to the stopwatch.
pub proof fn lemma_tab_cycle(t: AppTab)
    ensures
        next_tab(next_tab(next_tab(t))) == t,
        previous_tab(next_tab(t)) == t,
        next_tab(previous_tab(t)) == t,
        previous_tab(AppTab::Clock) == AppTab::StopWatch,
        next_tab(AppTab::Clock) == AppTab::Timer,
{
}

} // verus!
