//! The live clock: today's date, the time on a 12-hour dial, and hands at
//! their true angles.
use vstd::prelude::*;
use vstd::string::*;
use crate::clock::{ClockState, DisplayData, HandAngle};
use crate::instant::{LocalTime, local_now};
use crate::text::{push_zero_padded, zero_padded};

verus! {

/// The year as chrono's `%Y` writes it: four digits at least, with a sign
/// outside `0..=9999`.
pub open spec fn year_text(y: int) -> Seq<char> {
    if 0 <= y <= 9999 {
        zero_padded(y as nat, 4)
    } else if y > 9999 {
        seq!['+'] + zero_padded(y as nat, 4)
    } else {
        seq!['-'] + zero_padded((-y) as nat, 4)
    }
}

/// The short name of a day of the week counted from Sunday.
pub open spec fn weekday_name(d: int) -> Seq<char> {
    if d == 0 { "Sun"@ }
    else if d == 1 { "Mon"@ }
    else if d == 2 { "Tue"@ }
    else if d == 3 { "Wed"@ }
    else if d == 4 { "Thu"@ }
    else if d == 5 { "Fri"@ }
    else { "Sat"@ }
}

/// `"YYYY-MM-DD Www"`.
pub open spec fn date_text(t: LocalTime) -> Seq<char> {
    year_text(t.year as int) + seq!['-'] + zero_padded(t.month as nat, 2) + seq!['-']
        + zero_padded(t.day as nat, 2) + seq![' '] + weekday_name(t.weekday as int)
}

/// The hour on a 12-hour dial, `1..=12`.
pub open spec fn hour12(h: int) -> int {
    if h % 12 == 0 { 12 } else { h % 12 }
}

/// `"HH:MM:SS AM"` on a 12-hour dial.
pub open spec fn time_text(t: LocalTime) -> Seq<char> {
    zero_padded(hour12(t.hour as int) as nat, 2) + seq![':'] + zero_padded(t.minute as nat, 2)
        + seq![':'] + zero_padded(t.second as nat, 2) + seq![' '] + (if t.hour >= 12 {
        "PM"@
    } else {
        "AM"@
    })
}

/// True clock hands: the second hand turns once a minute, the minute hand
/// once an hour (moving with the seconds) and the hour hand once in twelve
/// hours (moving with the minutes and seconds).
pub open spec fn live_hands(hour: int, minute: int, second: int) -> ClockState {
    ClockState {
        hour: HandAngle { num: ((hour % 12) * 3600 + minute * 60 + second) as u32, den: 43200 },
        min: HandAngle { num: (minute * 60 + second) as u32, den: 3600 },
        sec: HandAngle { num: second as u32, den: 60 },
    }
}

/// The live clock's display for a reading of the wall clock.
pub fn clock_display(t: &LocalTime) -> (r: DisplayData)
    requires
        t.wf(),
    ensures
        r.block_title@ == date_text(*t),
        r.block_content@ == time_text(*t),
        r.analog_state == live_hands(t.hour as int, t.minute as int, t.second as int),
        r.analog_state.wf(),
{
    proof {
        reveal_strlit("+");
        reveal_strlit("-");
        reveal_strlit(":");
        reveal_strlit(" ");
    }
    let mut title = String::new();
    if t.year >= 0 && t.year <= 9999 {
        push_zero_padded(&mut title, t.year as u64, 4);
    } else if t.year > 9999 {
        title.append("+");
        push_zero_padded(&mut title, t.year as u64, 4);
    } else {
        title.append("-");
        push_zero_padded(&mut title, (-(t.year as i64)) as u64, 4);
    }
    title.append("-");
    push_zero_padded(&mut title, t.month as u64, 2);
    title.append("-");
    push_zero_padded(&mut title, t.day as u64, 2);
    title.append(" ");
    title.append(
        if t.weekday == 0 { "Sun" }
        else if t.weekday == 1 { "Mon" }
        else if t.weekday == 2 { "Tue" }
        else if t.weekday == 3 { "Wed" }
        else if t.weekday == 4 { "Thu" }
        else if t.weekday == 5 { "Fri" }
        else { "Sat" },
    );
    assert(title@ =~= date_text(*t));

    let mut content = String::new();
    let h = t.hour % 12;
    push_zero_padded(&mut content, if h == 0 { 12 } else { h as u64 }, 2);
    content.append(":");
    push_zero_padded(&mut content, t.minute as u64, 2);
    content.append(":");
    push_zero_padded(&mut content, t.second as u64, 2);
    content.append(" ");
    content.append(if t.hour >= 12 { "PM" } else { "AM" });
    assert(content@ =~= time_text(*t));

    let hands = ClockState {
        hour: HandAngle { num: h * 3600 + t.minute * 60 + t.second, den: 43200 },
        min: HandAngle { num: t.minute * 60 + t.second, den: 3600 },
        sec: HandAngle { num: t.second, den: 60 },
    };
    DisplayData { block_title: title, block_content: content, analog_state: hands }
}

/// Reads the local wall clock and returns the live clock's display for it.
pub fn update_chrono() -> (r: DisplayData)
    ensures
        exists|t: LocalTime|
            t.wf() && r.block_title@ == date_text(t) && r.block_content@ == time_text(t)
                && r.analog_state == live_hands(t.hour as int, t.minute as int, t.second as int),
{
    let t = local_now();
    clock_display(&t)
}

/// On the live clock the second hand moves forward with each second of a
/// minute, and the minute hand with each later minute and second of an hour.
pub proof fn lemma_live_hands_advance(h1: int, m1: int, s1: int, h2: int, m2: int, s2: int)
    requires
        0 <= h1 <= 23 && 0 <= h2 <= 23,
        0 <= m1 <= 59 && 0 <= m2 <= 59,
        0 <= s1 <= 59 && 0 <= s2 <= 59,
    ensures
        s1 < s2 ==> live_hands(h1, m1, s1).sec.num < live_hands(h2, m2, s2).sec.num,
        m1 < m2 || (m1 == m2 && s1 < s2) ==> live_hands(h1, m1, s1).min.num < live_hands(
            h2,
            m2,
            s2,
        ).min.num,
        live_hands(h1, m1, s1).sec.den == live_hands(h2, m2, s2).sec.den,
        live_hands(h1, m1, s1).min.den == live_hands(h2, m2, s2).min.den,
        live_hands(h1, m1, s1).wf(),
{
}

} // verus!
