use dust::error::ControlError;
use dust::frequency::{synthesize_frequency, SEARCH_WINDOW};

/// The rounded square root of `clock / target`, by floating point.
fn seed(clock: u32, target: u32) -> i64 {
    (clock as f64 / target as f64).sqrt().round() as i64
}

/// The pair that an exhaustive search of the window keeps, by exact cross-multiplication.
fn reference(clock: u32, target: u32) -> Option<(u32, u32)> {
    let s = seed(clock, target);
    let half = (SEARCH_WINDOW / 2) as i64;
    let mut best: Option<(u128, u128)> = None;
    for p in (s - half)..(s + half) {
        if p < 1 {
            continue;
        }
        let p = p as u128;
        let per = clock as u128 / (target as u128 * p);
        if per < 1 {
            continue;
        }
        let better = match best {
            None => true,
            Some((bp, bper)) => {
                let d = p * per;
                let bd = bp * bper;
                let e = clock as u128 - target as u128 * d;
                let be = clock as u128 - target as u128 * bd;
                e * bd < be * d
            }
        };
        if better {
            best = Some((p, per));
        }
    }
    best.map(|(p, per)| (p as u32, per as u32))
}

#[test]
fn fifty_hertz_on_the_board_clock_is_exact() {
    assert_eq!(synthesize_frequency(72_000_000, 50), Ok((1200, 1200)));
}

#[test]
fn exact_divisors_are_found_at_the_lowest_prescaler() {
    // ratio 100, seed 10, window 5..15: 5 * 20 hits the target and comes first
    assert_eq!(synthesize_frequency(1000, 10), Ok((5, 20)));
    // ratio 10, seed 3, window 1..8
    assert_eq!(synthesize_frequency(10, 1), Ok((1, 10)));
}

#[test]
fn a_target_as_fast_as_the_clock_gets_one_and_one() {
    assert_eq!(synthesize_frequency(1, 1), Ok((1, 1)));
    assert_eq!(synthesize_frequency(72_000_000, 72_000_000), Ok((1, 1)));
}

#[test]
fn inexact_targets_get_the_nearest_pair() {
    // ratio 101 is prime: seed 10, window 5..15; 5 * 20 = 10 * 10 = 100 is the nearest
    // product below, and prescaler 5 comes first
    assert_eq!(synthesize_frequency(101, 1), Ok((5, 20)));
    // ratio 7: seed 3, window 1..8, 1 * 7 is exact
    assert_eq!(synthesize_frequency(7, 1), Ok((1, 7)));
}

#[test]
fn zero_and_too_fast_targets_are_rejected() {
    assert_eq!(synthesize_frequency(72_000_000, 0), Err(ControlError::InvalidParameter));
    assert_eq!(synthesize_frequency(0, 50), Err(ControlError::InvalidParameter));
    assert_eq!(synthesize_frequency(0, 0), Err(ControlError::InvalidParameter));
    assert_eq!(synthesize_frequency(49, 50), Err(ControlError::InvalidParameter));
}

#[test]
fn result_is_the_best_of_the_window() {
    let clocks: [u32; 7] = [10, 1000, 65_536, 1_000_003, 72_000_000, 0x4000_0000, u32::MAX];
    let targets: [u32; 9] = [1, 2, 3, 7, 50, 333, 1000, 44_100, 65_535];
    for clock in clocks {
        for target in targets {
            let got = synthesize_frequency(clock, target);
            if target > clock {
                assert_eq!(got, Err(ControlError::InvalidParameter));
            } else {
                let want = reference(clock, target);
                assert!(want.is_some());
                assert_eq!(got.ok(), want, "clock {} target {}", clock, target);
            }
        }
    }
}

#[test]
fn result_has_no_larger_error_than_any_pair_of_the_window() {
    for target in 1..=2000u32 {
        let clock = 72_000_000u32;
        let (p, per) = synthesize_frequency(clock, target).unwrap();
        assert!(p >= 1 && per >= 1);
        let error = (clock as f64 / (p as f64 * per as f64) - target as f64).abs();
        let s = seed(clock, target);
        for q in (s - 5)..(s + 5) {
            if q < 1 {
                continue;
            }
            let qper = clock as i64 / (target as i64 * q);
            if qper < 1 {
                continue;
            }
            let other = (clock as f64 / (q as f64 * qper as f64) - target as f64).abs();
            assert!(error <= other + 1e-9);
        }
    }
}

#[test]
fn board_clock_divisors_fit_sixteen_bits() {
    for target in 1..=65_535u32 {
        let (p, per) = synthesize_frequency(72_000_000, target).unwrap();
        assert!(p <= 65_535 && per <= 65_535);
    }
}
