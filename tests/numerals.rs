use std::f64::consts::PI;

use tui_clock::clock::numeral_layout;

fn float_layout(w: u16, h: u16) -> Vec<(i64, i64)> {
    let w = w as f64;
    let h = h as f64;
    (1..13)
        .map(|num| {
            let x = (num as f64 * PI / 6.).sin() * ((w / 2.).ceil() - 2.5) + 0.4999
                - (if num >= 10 { 0.5 } else { 0. });
            let y = (num as f64 * PI / 6.).cos() * ((h / 2.).ceil() - 1.5) - 0.4999;
            (x.round() as i64, y.round() as i64)
        })
        .collect()
}

#[test]
fn matches_the_floating_point_placement() {
    for w in 0..120u16 {
        for h in 0..80u16 {
            assert_eq!(numeral_layout(w, h), float_layout(w, h), "at {}x{}", w, h);
        }
    }
    for &(w, h) in &[(500u16, 300u16), (1000, 999), (4097, 2049), (65535, 65535), (65534, 3)] {
        assert_eq!(numeral_layout(w, h), float_layout(w, h), "at {}x{}", w, h);
    }
}

#[test]
fn positions_are_distinct_on_narrow_tall_grids() {
    for w in 5..12u16 {
        for h in 11..70u16 {
            let p = numeral_layout(w, h);
            for i in 0..12 {
                for j in (i + 1)..12 {
                    assert_ne!(p[i], p[j], "numerals {} and {} at {}x{}", i + 1, j + 1, w, h);
                }
            }
        }
    }
}

#[test]
fn small_grids_can_put_two_numerals_in_one_cell() {
    let p = numeral_layout(8, 7);
    assert_eq!(p[5], p[6]);
    let p = numeral_layout(3, 3);
    assert_eq!(p[0], p[1]);
}

#[test]
fn layout_is_the_same_on_every_call() {
    assert_eq!(numeral_layout(40, 20), numeral_layout(40, 20));
}

#[test]
fn positions_are_distinct_on_supported_grids() {
    for w in 9..80u16 {
        for h in 7..60u16 {
            let p = numeral_layout(w, h);
            for i in 0..12 {
                for j in (i + 1)..12 {
                    assert_ne!(p[i], p[j], "numerals {} and {} at {}x{}", i + 1, j + 1, w, h);
                }
            }
        }
    }
}

#[test]
fn positions_stay_within_the_grid() {
    for w in 3..100u16 {
        for h in 3..60u16 {
            for (x, y) in numeral_layout(w, h) {
                let (wf, hf) = (w as f64, h as f64);
                assert!(-wf / 2. + 1. <= x as f64 && x as f64 <= wf / 2.);
                assert!(-hf / 2. <= y as f64 && y as f64 <= hf / 2. - 1.);
            }
        }
    }
}

#[test]
fn a_known_layout() {
    // 21 wide, 11 high: radii 8.5 and 4.5
    let p = numeral_layout(21, 11);
    assert_eq!(p[11], (0, 4));
    assert_eq!(p[2], (9, 0));
    assert_eq!(p[5], (0, -5));
    assert_eq!(p[8], (-8, 0));
}
