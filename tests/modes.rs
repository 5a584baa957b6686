use tui_clock::clock_tab::{clock_display, update_chrono};
use tui_clock::instant::LocalTime;
use tui_clock::keys::{Key, KeyCode};
use tui_clock::tabs::{App, AppTab};

fn key(code: KeyCode) -> Key {
    Key { code, ctrl: false, shift: false, alt: false }
}

fn reading(year: i32, hour: u32, minute: u32, second: u32) -> LocalTime {
    LocalTime {
        timestamp_ms: 1_709_643_229_000,
        year,
        month: 3,
        day: 5,
        weekday: 2,
        hour,
        minute,
        second,
    }
}

#[test]
fn clock_title_and_time() {
    let d = clock_display(&reading(2024, 13, 7, 9));
    assert_eq!(d.block_title, "2024-03-05 Tue");
    assert_eq!(d.block_content, "01:07:09 PM");
    assert_eq!((d.analog_state.sec.num, d.analog_state.sec.den), (9, 60));
    assert_eq!((d.analog_state.min.num, d.analog_state.min.den), (429, 3600));
    assert_eq!((d.analog_state.hour.num, d.analog_state.hour.den), (4029, 43200));
}

#[test]
fn midnight_and_noon() {
    let d = clock_display(&reading(2024, 0, 0, 0));
    assert_eq!(d.block_content, "12:00:00 AM");
    assert_eq!(d.analog_state.hour.num, 0);
    let d = clock_display(&reading(2024, 12, 30, 0));
    assert_eq!(d.block_content, "12:30:00 PM");
    assert_eq!(d.analog_state.hour.num, 1800);
}

#[test]
fn years_outside_four_digits() {
    assert_eq!(clock_display(&reading(5, 1, 0, 0)).block_title, "0005-03-05 Tue");
    assert_eq!(clock_display(&reading(12345, 1, 0, 0)).block_title, "+12345-03-05 Tue");
    assert_eq!(clock_display(&reading(-44, 1, 0, 0)).block_title, "-0044-03-05 Tue");
}

#[test]
fn second_and_minute_hands_advance() {
    let mut last_sec = None;
    for s in 0..60 {
        let d = clock_display(&reading(2024, 10, 15, s));
        if let Some(prev) = last_sec {
            assert!(d.analog_state.sec.num > prev);
        }
        last_sec = Some(d.analog_state.sec.num);
    }
    let a = clock_display(&reading(2024, 10, 15, 59)).analog_state.min.num;
    let b = clock_display(&reading(2024, 10, 16, 0)).analog_state.min.num;
    assert!(a < b);
}

#[test]
fn live_clock_reads_the_wall_clock() {
    let d = update_chrono();
    let title: Vec<char> = d.block_title.chars().collect();
    assert_eq!(title.len(), 14);
    assert_eq!(title[4], '-');
    assert_eq!(title[7], '-');
    let content: Vec<char> = d.block_content.chars().collect();
    assert_eq!(content.len(), 11);
    assert_eq!(content[2], ':');
    assert!(d.block_content.ends_with("AM") || d.block_content.ends_with("PM"));
    assert_eq!(d.analog_state.sec.den, 60);
}

#[test]
fn tab_cycles_through_the_modes() {
    let mut app = App::new();
    assert_eq!(app.selected_tab, AppTab::Clock);
    app.on_key_event_at(&key(KeyCode::Tab), 0);
    assert_eq!(app.selected_tab, AppTab::Timer);
    app.on_key_event_at(&key(KeyCode::Tab), 0);
    assert_eq!(app.selected_tab, AppTab::StopWatch);
    app.on_key_event_at(&key(KeyCode::Tab), 0);
    assert_eq!(app.selected_tab, AppTab::Clock);
    app.on_key_event_at(&key(KeyCode::Tab), 0);
    assert_eq!(app.selected_tab, AppTab::Timer);
}

#[test]
fn shift_tab_goes_back() {
    let mut app = App::new();
    app.on_key_event_at(&Key { code: KeyCode::Tab, ctrl: false, shift: true, alt: false }, 0);
    assert_eq!(app.selected_tab, AppTab::StopWatch);
    app.on_key_event_at(&Key { code: KeyCode::Tab, ctrl: false, shift: true, alt: false }, 0);
    assert_eq!(app.selected_tab, AppTab::Timer);
}

#[test]
fn quit_keys_end_the_loop() {
    for k in [
        key(KeyCode::Esc),
        key(KeyCode::Char('q')),
        Key { code: KeyCode::Char('c'), ctrl: true, shift: false, alt: false },
        Key { code: KeyCode::Char('C'), ctrl: true, shift: false, alt: false },
    ] {
        let mut app = App::new();
        app.running = true;
        app.on_key_event_at(&k, 0);
        assert!(!app.running);
    }
    let mut app = App::new();
    app.running = true;
    app.on_key_event_at(&key(KeyCode::Char('c')), 0);
    assert!(app.running);
    app.quit();
    assert!(!app.running);
}

#[test]
fn keys_go_to_the_active_mode() {
    let mut app = App::new();
    app.on_key_event_at(&key(KeyCode::Up), 0);
    assert_eq!(app.timer.duration, 0);
    app.on_key_event_at(&key(KeyCode::Tab), 0);
    app.on_key_event_at(&key(KeyCode::Up), 0);
    assert_eq!(app.timer.duration, 60_000);
    app.on_key_event_at(&key(KeyCode::Char(' ')), 1_000);
    assert!(app.timer.running);
    assert!(!app.stopwatch.running);
    app.on_key_event_at(&key(KeyCode::Tab), 2_000);
    app.on_key_event_at(&key(KeyCode::Char(' ')), 3_000);
    assert!(app.stopwatch.running);
    let (d, bell) = app.update_at(&LocalTime { timestamp_ms: 4_500, ..reading(2024, 1, 0, 0) });
    assert!(!bell);
    assert_eq!(d.block_content, "0:01.500");
    app.on_key_event_at(&Key { code: KeyCode::Tab, ctrl: false, shift: true, alt: false }, 5_000);
    assert_eq!(app.selected_tab, AppTab::Timer);
    let (d, bell) = app.update_at(&LocalTime { timestamp_ms: 61_000, ..reading(2024, 1, 0, 0) });
    assert!(bell);
    assert_eq!(d.block_content, "0:00.000");
}

#[test]
fn ctrl_c_with_other_modifiers_does_not_quit() {
    for k in [
        Key { code: KeyCode::Char('C'), ctrl: true, shift: true, alt: false },
        Key { code: KeyCode::Char('c'), ctrl: true, shift: true, alt: false },
        Key { code: KeyCode::Char('c'), ctrl: true, shift: false, alt: true },
    ] {
        let mut app = App::new();
        app.running = true;
        app.on_key_event_at(&k, 0);
        assert!(app.running);
        assert_eq!(app.selected_tab, AppTab::Clock);
    }
}

#[test]
fn q_and_esc_quit_with_any_modifiers() {
    for k in [
        Key { code: KeyCode::Char('q'), ctrl: true, shift: true, alt: true },
        Key { code: KeyCode::Esc, ctrl: false, shift: true, alt: false },
    ] {
        let mut app = App::new();
        app.running = true;
        app.on_key_event_at(&k, 0);
        assert!(!app.running);
    }
}

#[test]
fn tab_with_control_goes_forward() {
    let mut app = App::new();
    app.on_key_event_at(&Key { code: KeyCode::Tab, ctrl: true, shift: true, alt: false }, 0);
    assert_eq!(app.selected_tab, AppTab::Timer);
}
