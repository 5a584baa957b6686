use tui_clock::keys::{Key, KeyCode};
use tui_clock::stopwatch_tab::{handle_key_event_at, lap_durations_at, update_sw_at, StopWatchState};

fn key(c: char) -> Key {
    Key { code: KeyCode::Char(c), ctrl: false, shift: false, alt: false }
}

#[test]
fn laps_measure_the_time_between_marks() {
    let mut s = StopWatchState::default();
    handle_key_event_at(&mut s, &key(' '), 1_000);
    handle_key_event_at(&mut s, &key('m'), 3_500);
    handle_key_event_at(&mut s, &key('m'), 4_000);
    handle_key_event_at(&mut s, &key('m'), 9_250);
    let rows = lap_durations_at(&s, 10_000);
    assert_eq!(rows, vec![2_500, 500, 5_250, 750]);
    assert!(rows[..3].iter().all(|d| *d >= 0));
    assert_eq!(rows[..3].iter().sum::<i64>(), 9_250 - 1_000);
}

#[test]
fn no_rows_before_a_session() {
    let s = StopWatchState::default();
    assert_eq!(lap_durations_at(&s, 5_000), Vec::<i64>::new());
    let d = update_sw_at(&s, 5_000);
    assert_eq!(d.block_title, "Idle");
    assert_eq!(d.block_content, "0:00.000");
}

#[test]
fn one_row_without_laps() {
    let mut s = StopWatchState::default();
    handle_key_event_at(&mut s, &key(' '), 1_000);
    assert_eq!(lap_durations_at(&s, 2_200), vec![1_200]);
}

#[test]
fn stop_freezes_elapsed() {
    let mut s = StopWatchState::default();
    handle_key_event_at(&mut s, &key(' '), 1_000);
    let d = update_sw_at(&s, 126_430);
    assert_eq!(d.block_title, "Started");
    assert_eq!(d.block_content, "2:05.430");
    handle_key_event_at(&mut s, &key(' '), 2_000);
    assert!(!s.running);
    for now in [2_001, 5_000, 1_000_000] {
        let d = update_sw_at(&s, now);
        assert_eq!(d.block_title, "Idle");
        assert_eq!(d.block_content, "0:01.000");
        assert_eq!(lap_durations_at(&s, now), vec![1_000]);
    }
}

#[test]
fn laps_only_while_running() {
    let mut s = StopWatchState::default();
    handle_key_event_at(&mut s, &key('m'), 1_000);
    assert!(s.lap_time.is_empty());
    handle_key_event_at(&mut s, &key(' '), 2_000);
    handle_key_event_at(&mut s, &key(' '), 3_000);
    handle_key_event_at(&mut s, &key('m'), 4_000);
    assert!(s.lap_time.is_empty());
}

#[test]
fn restart_clears_laps_and_stop() {
    let mut s = StopWatchState::default();
    handle_key_event_at(&mut s, &key(' '), 0);
    handle_key_event_at(&mut s, &key('m'), 10);
    handle_key_event_at(&mut s, &key(' '), 20);
    handle_key_event_at(&mut s, &key(' '), 100);
    assert!(s.running);
    assert_eq!(s.start_time, Some(100));
    assert_eq!(s.stop_time, None);
    assert!(s.lap_time.is_empty());
    let d = update_sw_at(&s, 1_100);
    assert_eq!(d.block_content, "0:01.000");
    assert_eq!(d.analog_state.min.num, 1_000);
}

#[test]
fn clock_running_backwards_shows_a_negative_time() {
    let mut s = StopWatchState::default();
    handle_key_event_at(&mut s, &key(' '), 10_000);
    let d = update_sw_at(&s, 8_500);
    assert_eq!(d.block_content, "0:-1.-500");
}
