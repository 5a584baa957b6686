//! The analog face: hand angles and where the twelve numerals stand on a
//! character grid.
use vstd::prelude::*;

verus! {

/// An angle measured clockwise from 12 o'clock, as the fraction `num / den` of
/// a full turn.
#[derive(Debug, Clone, Copy, PartialEq, Eq, Structural)]
pub struct HandAngle {
    pub num: u32,
    pub den: u32,
}

impl HandAngle {
    /// Within one turn: `0 <= num / den < 1`.
    pub open spec fn wf(self) -> bool {
        0 < self.den && self.num < self.den
    }
}

/// The angle of `t / den` of a turn, reduced to one turn.
pub open spec fn turn_fraction(t: int, den: int) -> HandAngle {
    HandAngle { num: (t % den) as u32, den: den as u32 }
}

/// The three hands of the face.
#[derive(Debug, Clone, Copy, PartialEq, Eq, Structural)]
pub struct ClockState {
    pub hour: HandAngle,
    pub min: HandAngle,
    pub sec: HandAngle,
}

impl ClockState {
    pub open spec fn wf(self) -> bool {
        self.hour.wf() && self.min.wf() && self.sec.wf()
    }
}

/// What a mode shows for one refresh: a title, a line of text and the hands.
#[derive(Debug)]
pub struct DisplayData {
    pub block_title: String,
    pub block_content: String,
    pub analog_state: ClockState,
}

/// `2·sin(n·π/6)` for the numerals `n` in `1..=12`, as the pair `(a, b)` that
/// stands for `a + b·√3`.
pub open spec fn sin2(n: int) -> (int, int) {
    if n == 1 || n == 5 { (1, 0) }
    else if n == 2 || n == 4 { (0, 1) }
    else if n == 3 { (2, 0) }
    else if n == 7 || n == 11 { (-1, 0) }
    else if n == 8 || n == 10 { (0, -1) }
    else if n == 9 { (-2, 0) }
    else { (0, 0) }
}

/// `2·cos(n·π/6)` for the numerals `n` in `1..=12`, in the form of `sin2`.
pub open spec fn cos2(n: int) -> (int, int) {
    if n == 1 || n == 11 { (0, 1) }
    else if n == 2 || n == 10 { (1, 0) }
    else if n == 4 || n == 8 { (-1, 0) }
    else if n == 5 || n == 7 { (0, -1) }
    else if n == 6 { (-2, 0) }
    else if n == 12 { (2, 0) }
    else { (0, 0) }
}

/// `b·√3 >= t`, decided on integers.
pub open spec fn sqrt3_times_at_least(b: int, t: int) -> bool {
    if b >= 0 {
        t <= 0 || t * t <= 3 * (b * b)
    } else {
        t < 0 && t * t >= 3 * (b * b)
    }
}

/// `m` is `v = (a + b·√3) / d` rounded half up: `m - 1/2 <= v < m + 1/2`.
pub open spec fn rounds_to(m: int, a: int, b: int, d: int) -> bool {
    sqrt3_times_at_least(2 * b, (2 * m - 1) * d - 2 * a)
        && !sqrt3_times_at_least(2 * b, (2 * m + 1) * d - 2 * a)
}

/// Numeral `n` stands in column `x` of a grid `w` cells wide, counted from
/// the centre: `x` is `sin(n·π/6)·(⌈w/2⌉ − 2.5) + 0.4999`, less `0.5` for the
/// two-digit numerals, rounded half up. The value is taken times 20000, which makes it
/// `a + b·√3` on integers.
pub open spec fn numeral_x_at(n: int, w: int, x: int) -> bool {
    let r = 5000 * (2 * ((w + 1) / 2) - 5);
    rounds_to(
        x,
        r * sin2(n).0 + 9998 - (if n >= 10 { 10000int } else { 0 }),
        r * sin2(n).1,
        20000,
    )
}

/// Numeral `n` stands in row `y` of a grid `h` cells high, counted upwards
/// from the centre: `y` is `cos(n·π/6)·(⌈h/2⌉ − 1.5) − 0.4999`, rounded half
/// up, on integers as for `numeral_x_at`.
pub open spec fn numeral_y_at(n: int, h: int, y: int) -> bool {
    let r = 5000 * (2 * ((h + 1) / 2) - 3);
    rounds_to(y, r * cos2(n).0 - 9998, r * cos2(n).1, 20000)
}

/// The largest `r` with `r * r <= n`.
fn isqrt(n: u64) -> (r: u64)
    ensures
        r * r <= n < (r + 1) * (r + 1),
{
    let mut lo: u128 = 0;
    let mut hi: u128 = 0x1_0000_0000;
    while lo + 1 < hi
        invariant
            lo < hi <= 0x1_0000_0000,
            lo * lo <= n,
            n < hi * hi,
        decreases hi - lo,
    {
        let mid = lo + (hi - lo) / 2;
        assert(mid * mid <= 0x1_0000_0000 * 0x1_0000_0000) by (nonlinear_arith)
            requires
                mid < 0x1_0000_0000,
        ;
        if mid * mid <= n as u128 {
            lo = mid;
        } else {
            hi = mid;
        }
    }
    assert(hi == lo + 1);
    lo as u64
}

/// `n / m` rounded down.
fn floor_div(n: i64, m: i64) -> (q: i64)
    requires
        0 < m,
        n > i64::MIN,
    ensures
        q * m <= n < (q + 1) * m,
{
    if n >= 0 {
        let q = n / m;
        assert(q * m <= n < (q + 1) * m) by (nonlinear_arith)
            requires
                q == n as int / m as int,
                n >= 0,
                m > 0,
        ;
        q
    } else {
        let u: i64 = -n;
        let p = (u - 1) / m + 1;
        assert(p * m - m < u <= p * m) by (nonlinear_arith)
            requires
                p == (u - 1) as int / m as int + 1,
                u >= 1,
                m > 0,
        ;
        assert((-p) * m <= n < (-p + 1) * m) by (nonlinear_arith)
            requires
                p * m - m < u <= p * m,
                n == -u,
        ;
        -p
    }
}


proof fn lemma_square_le(x: int, y: int)
    requires
        0 <= x <= y,
    ensures
        x * x <= y * y,
        (-x) * (-x) == x * x,
        (-y) * (-y) == y * y,
{
    assert(x * x <= y * y) by (nonlinear_arith)
        requires
            0 <= x <= y,
    ;
    assert((-x) * (-x) == x * x) by (nonlinear_arith);
    assert((-y) * (-y) == y * y) by (nonlinear_arith);
}

/// `(a + b·√3) / d` rounded half up.
fn round_sqrt3(a: i64, b: i64, d: i64) -> (m: i64)
    requires
        -1_000_000_000 <= a <= 1_000_000_000,
        -1_000_000_000 <= b <= 1_000_000_000,
        0 < d <= 1_000_000,
    ensures
        rounds_to(m as int, a as int, b as int, d as int),
{
    let t: i64 = 2 * b;
    let ta: u64 = if t >= 0 { t as u64 } else { (-t) as u64 };
    assert(ta * ta <= 2_000_000_000 * 2_000_000_000) by (nonlinear_arith)
        requires
            ta <= 2_000_000_000,
    ;
    let s: u64 = 3 * (ta * ta);
    let f = isqrt(s);
    assert(f <= 4_000_000_000) by (nonlinear_arith)
        requires
            f * f <= s,
            s <= 12_000_000_000_000_000_000,
    ;
    let fi = f as i64;
    let exact = f * f == s;
    let n: i64 = if t >= 0 {
        2 * a + d + fi
    } else if exact {
        2 * a + d - fi
    } else {
        2 * a + d - fi - 1
    };
    let m = floor_div(n, 2 * d);
    proof {
        let ti = t as int;
        let fl = f as int;
        let t1 = (2 * m - 1) * d - 2 * a;
        let t2 = (2 * m + 1) * d - 2 * a;
        assert(t1 == m * (2 * d) - d - 2 * a) by (nonlinear_arith)
            requires
                t1 == (2 * m - 1) * d - 2 * a,
        ;
        assert(t2 == (m + 1) * (2 * d) - d - 2 * a) by (nonlinear_arith)
            requires
                t2 == (2 * m + 1) * d - 2 * a,
        ;
        assert(ti * ti == (ta as int) * (ta as int)) by (nonlinear_arith)
            requires
                ti == ta || ti == -ta,
        ;
        assert(3 * (ti * ti) == s);
        assert(fl * fl <= 3 * (ti * ti) < (fl + 1) * (fl + 1));
        if t >= 0 {
            // f <= b·√3 < f + 1
            assert(t1 <= fl);
            if t1 > 0 {
                lemma_square_le(t1, fl);
            }
            assert(t2 >= fl + 1);
            lemma_square_le(fl + 1, t2);
            assert(sqrt3_times_at_least(ti, t1));
            assert(!sqrt3_times_at_least(ti, t2));
        } else {
            assert(ti * ti > 0) by (nonlinear_arith)
                requires
                    ti < 0,
            ;
            if exact {
                // b·√3 == -f
                assert(fl * fl == 3 * (ti * ti));
                assert(fl > 0) by (nonlinear_arith)
                    requires
                        fl * fl > 0,
                        fl >= 0,
                ;
                assert(t1 <= -fl);
                lemma_square_le(fl, -t1);
                assert(t2 >= -fl + 1);
                if t2 < 0 {
                    lemma_square_le(-t2, fl - 1);
                    assert((fl - 1) * (fl - 1) < fl * fl) by (nonlinear_arith)
                        requires
                            fl > 0,
                    ;
                }
            } else {
                // -(f + 1) < b·√3 < -f
                assert(fl * fl < 3 * (ti * ti));
                assert(t1 <= -fl - 1);
                lemma_square_le(fl + 1, -t1);
                assert(t2 >= -fl);
                if t2 < 0 {
                    lemma_square_le(-t2, fl);
                }
            }
            assert(sqrt3_times_at_least(ti, t1));
            assert(!sqrt3_times_at_least(ti, t2));
        }
    }
    assert(sqrt3_times_at_least(2 * b, (2 * m - 1) * d - 2 * a));
    assert(!sqrt3_times_at_least(2 * b, (2 * m + 1) * d - 2 * a));
    m
}

/// The twelve numerals, from 1 to 12, each with its column and row on a grid
/// of `w` by `h` cells; both are counted from the centre, rows upwards.
pub fn numeral_layout(w: u16, h: u16) -> (r: Vec<(i64, i64)>)
    ensures
        r.len() == 12,
        forall|i: int|
            0 <= i < 12 ==> numeral_x_at(i + 1, w as int, #[trigger] r[i].0 as int)
                && numeral_y_at(i + 1, h as int, r[i].1 as int),
{
    let rx: i64 = 5000 * (2 * ((w as i64 + 1) / 2) - 5);
    let ry: i64 = 5000 * (2 * ((h as i64 + 1) / 2) - 3);
    let mut r: Vec<(i64, i64)> = Vec::new();
    let mut n: i64 = 1;
    while n <= 12
        invariant
            1 <= n <= 13,
            r.len() == n - 1,
            rx == 5000 * (2 * ((w as int + 1) / 2) - 5),
            ry == 5000 * (2 * ((h as int + 1) / 2) - 3),
            forall|i: int|
                0 <= i < n - 1 ==> numeral_x_at(i + 1, w as int, #[trigger] r[i].0 as int)
                    && numeral_y_at(i + 1, h as int, r[i].1 as int),
        decreases 13 - n,
    {
        let (sa, sb) = sin2_exec(n);
        let (ca, cb) = cos2_exec(n);
        proof {
            lemma_small_product(rx as int, sa as int);
            lemma_small_product(rx as int, sb as int);
            lemma_small_product(ry as int, ca as int);
            lemma_small_product(ry as int, cb as int);
        }
        let shift: i64 = if n >= 10 { 10000 } else { 0 };
        let x = round_sqrt3(rx * sa + 9998 - shift, rx * sb, 20000);
        let y = round_sqrt3(ry * ca - 9998, ry * cb, 20000);
        r.push((x, y));
        n = n + 1;
    }
    r
}

proof fn lemma_small_product(r: int, c: int)
    requires
        -400_000_000 <= r <= 400_000_000,
        -2 <= c <= 2,
    ensures
        -800_000_000 <= r * c <= 800_000_000,
{
    assert(-800_000_000 <= r * c <= 800_000_000) by (nonlinear_arith)
        requires
            -400_000_000 <= r <= 400_000_000,
            -2 <= c <= 2,
    ;
}

fn sin2_exec(n: i64) -> (r: (i64, i64))
    ensures
        -2 <= r.0 <= 2 && -2 <= r.1 <= 2,
        r.0 == sin2(n as int).0,
        r.1 == sin2(n as int).1,
{
    if n == 1 || n == 5 { (1, 0) }
    else if n == 2 || n == 4 { (0, 1) }
    else if n == 3 { (2, 0) }
    else if n == 7 || n == 11 { (-1, 0) }
    else if n == 8 || n == 10 { (0, -1) }
    else if n == 9 { (-2, 0) }
    else { (0, 0) }
}

fn cos2_exec(n: i64) -> (r: (i64, i64))
    ensures
        -2 <= r.0 <= 2 && -2 <= r.1 <= 2,
        r.0 == cos2(n as int).0,
        r.1 == cos2(n as int).1,
{
    if n == 1 || n == 11 { (0, 1) }
    else if n == 2 || n == 10 { (1, 0) }
    else if n == 4 || n == 8 { (-1, 0) }
    else if n == 5 || n == 7 { (0, -1) }
    else if n == 6 { (-2, 0) }
    else if n == 12 { (2, 0) }
    else { (0, 0) }
}


proof fn lemma_at_least_smaller(b: int, t: int, u: int)
    requires
        sqrt3_times_at_least(b, t),
        u <= t,
    ensures
        sqrt3_times_at_least(b, u),
{
    if b >= 0 {
        if u > 0 {
            lemma_square_le(u, t);
        }
    } else {
        lemma_square_le(-t, -u);
    }
}

/// A rounded value is unique.
proof fn lemma_rounds_unique(m1: int, m2: int, a: int, b: int, d: int)
    requires
        d > 0,
        rounds_to(m1, a, b, d),
        rounds_to(m2, a, b, d),
    ensures
        m1 == m2,
{
    if m1 < m2 {
        assert((2 * m1 + 1) * d <= (2 * m2 - 1) * d) by (nonlinear_arith)
            requires
                m1 < m2,
                d > 0,
        ;
        lemma_at_least_smaller(2 * b, (2 * m2 - 1) * d - 2 * a, (2 * m1 + 1) * d - 2 * a);
    } else if m2 < m1 {
        assert((2 * m2 + 1) * d <= (2 * m1 - 1) * d) by (nonlinear_arith)
            requires
                m2 < m1,
                d > 0,
        ;
        lemma_at_least_smaller(2 * b, (2 * m1 - 1) * d - 2 * a, (2 * m2 + 1) * d - 2 * a);
    }
}

/// Bounds on a rounded value from `1.7320 < √3 < 1.7321`.
proof fn lemma_rounds_bounds(m: int, a: int, b: int)
    requires
        rounds_to(m, a, b, 20000),
    ensures
        b >= 0 ==> 10000 * ((2 * m - 1) * 20000 - 2 * a) <= 34642 * b,
        b >= 0 ==> 10000 * ((2 * m + 1) * 20000 - 2 * a) >= 34640 * b,
        b < 0 ==> 10000 * ((2 * m - 1) * 20000 - 2 * a) <= 34640 * b,
        b < 0 ==> 10000 * ((2 * m + 1) * 20000 - 2 * a) >= 34642 * b,
{
    let t1 = (2 * m - 1) * 20000 - 2 * a;
    let t2 = (2 * m + 1) * 20000 - 2 * a;
    let c = 2 * b;
    if b >= 0 {
        if t1 > 0 {
            assert(10000 * t1 <= 34642 * b) by (nonlinear_arith)
                requires
                    t1 > 0,
                    b >= 0,
                    t1 * t1 <= 3 * (c * c),
                    c == 2 * b,
            ;
        }
        assert(10000 * t2 >= 34640 * b) by (nonlinear_arith)
            requires
                t2 > 0,
                b >= 0,
                t2 * t2 > 3 * (c * c),
                c == 2 * b,
        ;
    } else {
        assert(10000 * t1 <= 34640 * b) by (nonlinear_arith)
            requires
                t1 < 0,
                b < 0,
                t1 * t1 >= 3 * (c * c),
                c == 2 * b,
        ;
        if t2 < 0 {
            assert(10000 * t2 >= 34642 * b) by (nonlinear_arith)
                requires
                    t2 < 0,
                    b < 0,
                    t2 * t2 < 3 * (c * c),
                    c == 2 * b,
            ;
        }
    }
}


/// The side of the centre that each numeral's column falls on.
proof fn lemma_column_signs(w: int, x: Seq<int>)
    requires
        w >= 9,
        x.len() == 12,
        forall|i: int| 0 <= i < 12 ==> numeral_x_at(i + 1, w, #[trigger] x[i]),
    ensures
        x[0] >= 1 && x[1] >= 1 && x[2] >= 1 && x[3] >= 1 && x[4] >= 1,
        x[5] == 0 && x[11] == 0,
        x[6] <= -1 && x[7] <= -1 && x[8] <= -1 && x[9] <= -1 && x[10] <= -1,
{
    let r = 5000 * (2 * ((w + 1) / 2) - 5);
    assert(r >= 25000);
    assert(r * 1 == r && r * 0 == 0 && r * (-1) == -r && r * 2 == 2 * r && r * (-2) == -2 * r)
        by (nonlinear_arith);
    lemma_rounds_bounds(x[0], r + 9998, 0);
    lemma_rounds_bounds(x[1], 9998, r);
    lemma_rounds_bounds(x[2], 2 * r + 9998, 0);
    lemma_rounds_bounds(x[3], 9998, r);
    lemma_rounds_bounds(x[4], r + 9998, 0);
    lemma_rounds_bounds(x[5], 9998, 0);
    lemma_rounds_bounds(x[6], -r + 9998, 0);
    lemma_rounds_bounds(x[7], 9998, -r);
    lemma_rounds_bounds(x[8], -2 * r + 9998, 0);
    lemma_rounds_bounds(x[9], -2, -r);
    lemma_rounds_bounds(x[10], -r - 2, 0);
    lemma_rounds_bounds(x[11], -2, 0);
}

/// The rows of the numerals: above the centre for 10 to 2, on it for 3 and
/// 9, below it for 4 to 8, and 1 and 11 above 2 and 10, 5 and 7 below 4 and 8.
proof fn lemma_row_order(h: int, y: Seq<int>)
    requires
        h >= 7,
        y.len() == 12,
        forall|i: int| 0 <= i < 12 ==> numeral_y_at(i + 1, h, #[trigger] y[i]),
    ensures
        y[11] >= 1 && y[0] >= 1 && y[1] >= 1 && y[9] >= 1 && y[10] >= 1,
        y[2] == 0 && y[8] == 0,
        y[3] <= -1 && y[4] <= -1 && y[5] <= -1 && y[6] <= -1 && y[7] <= -1,
        y[0] > y[1] && y[10] > y[9],
        y[3] > y[4] && y[7] > y[6],
{
    let r = 5000 * (2 * ((h + 1) / 2) - 3);
    assert(r >= 25000);
    assert(r * 1 == r && r * 0 == 0 && r * (-1) == -r && r * 2 == 2 * r && r * (-2) == -2 * r)
        by (nonlinear_arith);
    lemma_rounds_bounds(y[0], -9998, r);
    lemma_rounds_bounds(y[1], r - 9998, 0);
    lemma_rounds_bounds(y[2], -9998, 0);
    lemma_rounds_bounds(y[3], -r - 9998, 0);
    lemma_rounds_bounds(y[4], -9998, -r);
    lemma_rounds_bounds(y[5], -2 * r - 9998, 0);
    lemma_rounds_bounds(y[6], -9998, -r);
    lemma_rounds_bounds(y[7], -r - 9998, 0);
    lemma_rounds_bounds(y[8], -9998, 0);
    lemma_rounds_bounds(y[9], r - 9998, 0);
    lemma_rounds_bounds(y[10], -9998, r);
    lemma_rounds_bounds(y[11], 2 * r - 9998, 0);
}


/// On a grid at least 5 cells wide, numerals 1 to 5 stand right of the
/// centre column and 6 to 12 on it or left of it.
proof fn lemma_column_sides(w: int, x: Seq<int>)
    requires
        w >= 5,
        x.len() == 12,
        forall|i: int| 0 <= i < 12 ==> numeral_x_at(i + 1, w, #[trigger] x[i]),
    ensures
        x[0] >= 1 && x[1] >= 1 && x[2] >= 1 && x[3] >= 1 && x[4] >= 1,
        x[5] <= 0 && x[6] <= 0 && x[7] <= 0 && x[8] <= 0 && x[9] <= 0 && x[10] <= 0 && x[11] <= 0,
{
    let r = 5000 * (2 * ((w + 1) / 2) - 5);
    assert(r >= 5000);
    assert(r * 1 == r && r * 0 == 0 && r * (-1) == -r && r * 2 == 2 * r && r * (-2) == -2 * r)
        by (nonlinear_arith);
    lemma_rounds_bounds(x[0], r + 9998, 0);
    lemma_rounds_bounds(x[1], 9998, r);
    lemma_rounds_bounds(x[2], 2 * r + 9998, 0);
    lemma_rounds_bounds(x[3], 9998, r);
    lemma_rounds_bounds(x[4], r + 9998, 0);
    lemma_rounds_bounds(x[5], 9998, 0);
    lemma_rounds_bounds(x[6], -r + 9998, 0);
    lemma_rounds_bounds(x[7], 9998, -r);
    lemma_rounds_bounds(x[8], -2 * r + 9998, 0);
    lemma_rounds_bounds(x[9], -2, -r);
    lemma_rounds_bounds(x[10], -r - 2, 0);
    lemma_rounds_bounds(x[11], -2, 0);
}

/// On a grid at least 11 cells high, each half of the dial has its numerals
/// in rows that go strictly down: 12 to 6 on the left, 1 to 5 on the right.
proof fn lemma_row_chain(h: int, y: Seq<int>)
    requires
        h >= 11,
        y.len() == 12,
        forall|i: int| 0 <= i < 12 ==> numeral_y_at(i + 1, h, #[trigger] y[i]),
    ensures
        y[11] > y[10] && y[10] > y[9] && y[9] > y[8] && y[8] > y[7] && y[7] > y[6] && y[6] > y[5],
        y[0] > y[1] && y[1] > y[2] && y[2] > y[3] && y[3] > y[4],
{
    let r = 5000 * (2 * ((h + 1) / 2) - 3);
    assert(r >= 45000);
    assert(r * 1 == r && r * 0 == 0 && r * (-1) == -r && r * 2 == 2 * r && r * (-2) == -2 * r)
        by (nonlinear_arith);
    lemma_rounds_bounds(y[0], -9998, r);
    lemma_rounds_bounds(y[1], r - 9998, 0);
    lemma_rounds_bounds(y[2], -9998, 0);
    lemma_rounds_bounds(y[3], -r - 9998, 0);
    lemma_rounds_bounds(y[4], -9998, -r);
    lemma_rounds_bounds(y[5], -2 * r - 9998, 0);
    lemma_rounds_bounds(y[6], -9998, -r);
    lemma_rounds_bounds(y[7], -r - 9998, 0);
    lemma_rounds_bounds(y[8], -9998, 0);
    lemma_rounds_bounds(y[9], r - 9998, 0);
    lemma_rounds_bounds(y[10], -9998, r);
    lemma_rounds_bounds(y[11], 2 * r - 9998, 0);
}

/// The grid size alone decides where the numerals stand (two layouts that
/// meet `numeral_layout`'s contract are equal), and on a grid at least 9
/// cells wide and 7 high, or at least 5 wide and 11 high, no two numerals
/// share a cell.
pub proof fn lemma_numeral_layout_stable(w: int, h: int, p: Seq<(i64, i64)>, q: Seq<(i64, i64)>)
    requires
        p.len() == 12,
        q.len() == 12,
        forall|i: int|
            0 <= i < 12 ==> numeral_x_at(i + 1, w, #[trigger] p[i].0 as int) && numeral_y_at(
                i + 1,
                h,
                p[i].1 as int,
            ),
        forall|i: int|
            0 <= i < 12 ==> numeral_x_at(i + 1, w, #[trigger] q[i].0 as int) && numeral_y_at(
                i + 1,
                h,
                q[i].1 as int,
            ),
    ensures
        p == q,
        (w >= 9 && h >= 7) || (w >= 5 && h >= 11) ==> forall|i: int, j: int|
            0 <= i < j < 12 ==> p[i] != p[j],
{
    assert forall|i: int| 0 <= i < 12 implies p[i] == q[i] by {
        let n = i + 1;
        let rx = 5000 * (2 * ((w + 1) / 2) - 5);
        let ry = 5000 * (2 * ((h + 1) / 2) - 3);
        assert(numeral_x_at(n, w, p[i].0 as int) && numeral_x_at(n, w, q[i].0 as int));
        assert(numeral_y_at(n, h, p[i].1 as int) && numeral_y_at(n, h, q[i].1 as int));
        lemma_rounds_unique(
            p[i].0 as int,
            q[i].0 as int,
            rx * sin2(n).0 + 9998 - (if n >= 10 { 10000int } else { 0 }),
            rx * sin2(n).1,
            20000,
        );
        lemma_rounds_unique(
            p[i].1 as int,
            q[i].1 as int,
            ry * cos2(n).0 - 9998,
            ry * cos2(n).1,
            20000,
        );
    }
    assert(p =~= q);
    let x = Seq::new(12, |i: int| p[i].0 as int);
    let y = Seq::new(12, |i: int| p[i].1 as int);
    assert forall|i: int| 0 <= i < 12 implies numeral_x_at(i + 1, w, #[trigger] x[i])
        && numeral_y_at(i + 1, h, y[i]) by {
        assert(numeral_x_at(i + 1, w, p[i].0 as int));
    }
    if w >= 9 && h >= 7 {
        lemma_column_signs(w, x);
        lemma_row_order(h, y);
        assert forall|i: int, j: int| 0 <= i < j < 12 implies p[i] != p[j] by {
            assert(x[i] == p[i].0 && x[j] == p[j].0 && y[i] == p[i].1 && y[j] == p[j].1);
        }
    } else if w >= 5 && h >= 11 {
        lemma_column_sides(w, x);
        lemma_row_chain(h, y);
        assert forall|i: int, j: int| 0 <= i < j < 12 implies p[i] != p[j] by {
            assert(x[i] == p[i].0 && x[j] == p[j].0 && y[i] == p[i].1 && y[j] == p[j].1);
        }
    }
}


/// On a grid at least 3 cells wide and high, every numeral stands within
/// `-w/2 + 1 <= x <= w/2` and `-h/2 <= y <= h/2 - 1`.
pub proof fn lemma_numerals_within_grid(w: int, h: int, p: Seq<(i64, i64)>)
    requires
        w >= 3,
        h >= 3,
        p.len() == 12,
        forall|i: int|
            0 <= i < 12 ==> numeral_x_at(i + 1, w, #[trigger] p[i].0 as int) && numeral_y_at(
                i + 1,
                h,
                p[i].1 as int,
            ),
    ensures
        forall|i: int|
            0 <= i < 12 ==> 2 - w <= 2 * #[trigger] p[i].0 && 2 * p[i].0 <= w && -h <= 2 * p[i].1
                && 2 * p[i].1 <= h - 2,
{
    let rx = 5000 * (2 * ((w + 1) / 2) - 5);
    let ry = 5000 * (2 * ((h + 1) / 2) - 3);
    assert(rx * 1 == rx && rx * 0 == 0 && rx * (-1) == -rx && rx * 2 == 2 * rx && rx * (-2) == -2
        * rx) by (nonlinear_arith);
    assert(ry * 1 == ry && ry * 0 == 0 && ry * (-1) == -ry && ry * 2 == 2 * ry && ry * (-2) == -2
        * ry) by (nonlinear_arith);
    assert forall|i: int| 0 <= i < 12 implies 2 - w <= 2 * #[trigger] p[i].0 && 2 * p[i].0 <= w
        && -h <= 2 * p[i].1 && 2 * p[i].1 <= h - 2 by {
        let n = i + 1;
        let x = p[i].0 as int;
        let y = p[i].1 as int;
        assert(numeral_x_at(n, w, x) && numeral_y_at(n, h, y));
        lemma_rounds_bounds(
            x,
            rx * sin2(n).0 + 9998 - (if n >= 10 { 10000int } else { 0 }),
            rx * sin2(n).1,
        );
        lemma_rounds_bounds(y, ry * cos2(n).0 - 9998, ry * cos2(n).1);
    }
}

} // verus!
