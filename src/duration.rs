//! Durations in milliseconds: their "M:SS.mmm" text and the fast-sweep hand
//! angles of the timer and stopwatch faces.
use vstd::prelude::*;
use vstd::string::*;
use crate::clock::{ClockState, HandAngle, turn_fraction};
use crate::text::{magnitude, push_signed_padded, signed_padded};

verus! {

/// Division rounding towards zero, as Rust's `/` on integers does (`b > 0`).
pub open spec fn trunc_div(a: int, b: int) -> int {
    if a >= 0 { a / b } else { -((-a) / b) }
}

/// The remainder that goes with `trunc_div`; it has the sign of `a`.
pub open spec fn trunc_rem(a: int, b: int) -> int {
    a - b * trunc_div(a, b)
}

/// Whole minutes of a duration, rounded towards zero; not bounded by 60.
pub open spec fn whole_minutes(ms: int) -> int {
    trunc_div(ms, 60000)
}

/// The seconds within the minute, `-59..=59`.
pub open spec fn seconds_part(ms: int) -> int {
    trunc_rem(trunc_div(ms, 1000), 60)
}

/// The milliseconds within the second, `-999..=999`.
pub open spec fn millis_part(ms: int) -> int {
    trunc_rem(ms, 1000)
}

/// The text `"<minutes>:<seconds, two digits>.<milliseconds, three digits>"`;
/// each field of a negative duration carries its own minus sign.
pub open spec fn duration_text(ms: int) -> Seq<char> {
    signed_padded(whole_minutes(ms), 0) + seq![':'] + signed_padded(seconds_part(ms), 2)
        + seq!['.'] + signed_padded(millis_part(ms), 3)
}

/// Fast-sweep hands: the second hand turns once a second, the minute hand
/// once a minute and the hour hand once an hour.
pub open spec fn fast_sweep(ms: int) -> ClockState {
    ClockState {
        hour: turn_fraction(ms, 3600000),
        min: turn_fraction(ms, 60000),
        sec: turn_fraction(ms, 1000),
    }
}

/// Writes a duration as `"M:SS.mmm"`, truncating each field.
pub fn format_duration(ms: i64) -> (r: String)
    ensures
        r@ == duration_text(ms as int),
{
    let neg = ms < 0;
    let magnitude = magnitude(ms);
    let minutes: i64 = (magnitude / 60000) as i64;
    let seconds: i64 = ((magnitude / 1000) % 60) as i64;
    let millis: i64 = (magnitude % 1000) as i64;
    let (minutes, seconds, millis) = if neg {
        (-minutes, -seconds, -millis)
    } else {
        (minutes, seconds, millis)
    };
    assert(minutes == whole_minutes(ms as int));
    assert(seconds == seconds_part(ms as int));
    assert(millis == millis_part(ms as int));
    let mut s = String::new();
    push_signed_padded(&mut s, minutes, 0);
    proof {
        reveal_strlit(":");
        reveal_strlit(".");
    }
    s.append(":");
    push_signed_padded(&mut s, seconds, 2);
    s.append(".");
    push_signed_padded(&mut s, millis, 3);
    assert(s@ =~= duration_text(ms as int));
    s
}

/// `t / den` of a turn, reduced to one turn.
fn reduced_turn(t: i64, den: u32) -> (r: HandAngle)
    requires
        den > 0,
    ensures
        r == turn_fraction(t as int, den as int),
        r.wf(),
{
    let magnitude = magnitude(t);
    let r = magnitude % (den as u64);
    let m: u64 = if t >= 0 || r == 0 { r } else { den as u64 - r };
    proof {
        let u = magnitude as int;
        let dd = den as int;
        let q = u / dd;
        assert(u == q * dd + r) by (nonlinear_arith)
            requires
                dd > 0,
                q == u / dd,
                r == u % dd,
        ;
        if t < 0 {
            if r == 0 {
                assert((t as int) == -u);
                assert((t as int) == (-q) * dd) by (nonlinear_arith)
                    requires
                        t == -u,
                        u == q * dd + r,
                        r == 0,
                ;
                assert(((-q) * dd) % dd == 0) by (nonlinear_arith)
                    requires
                        dd > 0,
                ;
            } else {
                assert((t as int) == -u);
                assert((t as int) == (-q - 1) * dd + (dd - r)) by (nonlinear_arith)
                    requires
                        t == -u,
                        u == q * dd + r,
                ;
                assert(((-q - 1) * dd + (dd - r)) % dd == dd - r) by (nonlinear_arith)
                    requires
                        dd > 0,
                        0 < dd - r < dd,
                ;
            }
        }
    }
    HandAngle { num: m as u32, den }
}

/// The fast-sweep hand angles of a duration.
pub fn duration_hands(ms: i64) -> (r: ClockState)
    ensures
        r == fast_sweep(ms as int),
        r.wf(),
{
    ClockState {
        hour: reduced_turn(ms, 3600000),
        min: reduced_turn(ms, 60000),
        sec: reduced_turn(ms, 1000),
    }
}

} // verus!
