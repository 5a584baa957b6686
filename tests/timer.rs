use tui_clock::keys::{Key, KeyCode};
use tui_clock::timer_tab::{handle_key_event_at, update_timer_at, CursorPos, TimerState};

fn key(code: KeyCode) -> Key {
    Key { code, ctrl: false, shift: false, alt: false }
}

#[test]
fn down_at_zero_stays_at_zero() {
    let mut t = TimerState::default();
    t.cursor_pos = CursorPos::Sec1;
    handle_key_event_at(&mut t, &key(KeyCode::Down), 0);
    assert_eq!(t.duration, 0);
    t.cursor_pos = CursorPos::Min1;
    handle_key_event_at(&mut t, &key(KeyCode::Down), 0);
    assert_eq!(t.duration, 0);
}

#[test]
fn down_below_zero_clamps() {
    let mut t = TimerState::default();
    t.duration = 5_000;
    t.cursor_pos = CursorPos::Sec10;
    handle_key_event_at(&mut t, &key(KeyCode::Down), 0);
    assert_eq!(t.duration, 0);
}

#[test]
fn up_adds_the_step_of_the_field() {
    let mut t = TimerState::default();
    handle_key_event_at(&mut t, &key(KeyCode::Up), 0);
    assert_eq!(t.duration, 60_000);
    handle_key_event_at(&mut t, &key(KeyCode::Right), 0);
    handle_key_event_at(&mut t, &key(KeyCode::Up), 0);
    assert_eq!(t.duration, 70_000);
    handle_key_event_at(&mut t, &key(KeyCode::Right), 0);
    handle_key_event_at(&mut t, &key(KeyCode::Up), 0);
    assert_eq!(t.duration, 71_000);
    handle_key_event_at(&mut t, &key(KeyCode::Down), 0);
    assert_eq!(t.duration, 70_000);
}

#[test]
fn cursor_saturates_at_both_ends() {
    let mut t = TimerState::default();
    handle_key_event_at(&mut t, &key(KeyCode::Left), 0);
    assert_eq!(t.cursor_pos, CursorPos::Min1);
    for _ in 0..5 {
        handle_key_event_at(&mut t, &key(KeyCode::Right), 0);
    }
    assert_eq!(t.cursor_pos, CursorPos::Sec1);
    handle_key_event_at(&mut t, &key(KeyCode::Left), 0);
    assert_eq!(t.cursor_pos, CursorPos::Sec10);
}

#[test]
fn space_starts_and_stops() {
    let mut t = TimerState::default();
    t.duration = 90_000;
    handle_key_event_at(&mut t, &key(KeyCode::Char(' ')), 1_000);
    assert!(t.running);
    assert_eq!(t.end_time, Some(91_000));
    assert_eq!(t.last_bell_time, None);
    handle_key_event_at(&mut t, &key(KeyCode::Char(' ')), 2_000);
    assert!(!t.running);
    assert_eq!(t.end_time, None);
}

#[test]
fn countdown_shows_the_time_left() {
    let mut t = TimerState::default();
    t.duration = 125_430;
    handle_key_event_at(&mut t, &key(KeyCode::Char(' ')), 10_000);
    let (d, bell) = update_timer_at(&mut t, 10_000);
    assert!(!bell);
    assert_eq!(d.block_title, "Started");
    assert_eq!(d.block_content, "2:05.430");
    assert_eq!(t.remaining, 125_430);
    let (d, _) = update_timer_at(&mut t, 70_000);
    assert_eq!(d.block_content, "1:05.430");
    assert_eq!(d.analog_state.sec.num, 430);
}

#[test]
fn idle_timer_keeps_its_last_remaining() {
    let mut t = TimerState::default();
    t.duration = 10_000;
    handle_key_event_at(&mut t, &key(KeyCode::Char(' ')), 0);
    update_timer_at(&mut t, 4_000);
    handle_key_event_at(&mut t, &key(KeyCode::Char(' ')), 4_000);
    let (d, bell) = update_timer_at(&mut t, 9_000);
    assert!(!bell);
    assert_eq!(d.block_title, "Idle");
    assert_eq!(d.block_content, "0:06.000");
}

#[test]
fn expired_countdown_clamps_to_zero_and_rings() {
    let mut t = TimerState::default();
    t.duration = 1_000;
    handle_key_event_at(&mut t, &key(KeyCode::Char(' ')), 0);
    let (d, bell) = update_timer_at(&mut t, 1_000);
    assert!(bell);
    assert_eq!(t.remaining, 0);
    assert_eq!(d.block_content, "0:00.000");
    assert_eq!(t.last_bell_time, Some(1_000));
}

#[test]
fn bell_rings_at_most_every_250_ms() {
    let mut t = TimerState::default();
    t.duration = 1_000;
    handle_key_event_at(&mut t, &key(KeyCode::Char(' ')), 0);
    let mut rings = 0;
    for i in 0..10 {
        let (_, bell) = update_timer_at(&mut t, 1_000 + 30 * i);
        if bell {
            rings += 1;
        }
    }
    assert!(rings >= 1 && rings <= 2);
    assert_eq!(rings, 2);
}

#[test]
fn bell_does_not_ring_again_at_exactly_250_ms() {
    let mut t = TimerState::default();
    handle_key_event_at(&mut t, &key(KeyCode::Char(' ')), 0);
    assert!(update_timer_at(&mut t, 0).1);
    assert!(!update_timer_at(&mut t, 250).1);
    assert!(update_timer_at(&mut t, 251).1);
}

#[test]
fn restart_clears_the_bell() {
    let mut t = TimerState::default();
    handle_key_event_at(&mut t, &key(KeyCode::Char(' ')), 0);
    assert!(update_timer_at(&mut t, 0).1);
    handle_key_event_at(&mut t, &key(KeyCode::Char(' ')), 10);
    handle_key_event_at(&mut t, &key(KeyCode::Char(' ')), 20);
    assert_eq!(t.last_bell_time, None);
    assert!(update_timer_at(&mut t, 30).1);
}

#[test]
fn target_editor_text() {
    let mut t = TimerState::default();
    t.duration = 125_000;
    assert_eq!(t.target_text(), " 2 : 0 5");
    t.duration = 0;
    assert_eq!(t.target_text(), " 0 : 0 0");
    t.duration = 754_000;
    assert_eq!(t.target_text(), "12 : 3 4");
    t.duration = 6_000_000;
    assert_eq!(t.target_text(), "100 : 0 0");
}

#[test]
fn up_stops_at_the_longest_target() {
    let mut t = TimerState::default();
    t.duration = tui_clock::timer_tab::MAX_TARGET_MS - 30_000;
    handle_key_event_at(&mut t, &key(KeyCode::Up), 0);
    assert_eq!(t.duration, tui_clock::timer_tab::MAX_TARGET_MS);
}
