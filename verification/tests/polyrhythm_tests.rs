use music21_rs::exception::Exception;
use music21_rs::polyrhythm::{checked_lcm, Polyrhythm};

#[test]
fn test_new_with_time_signature() {
    let poly = Polyrhythm::new_with_time_signature(4, 120, &[2, 3]).unwrap();
    // For subdivisions 2 and 3, lcm is 6 ticks per measure.
    assert_eq!(poly.cycle_duration(), 6);
    // tick_duration = (4 * 60 / 120) / 6 = (4 * 0.5) / 6 = 2 / 6, about 0.3333 sec.
    let (seconds, ticks) = poly.tick_duration().unwrap();
    let tick_dur = seconds as f64 / ticks as f64;
    assert!((tick_dur - 0.3333).abs() < 0.01);
}

#[test]
fn subdivisions_must_be_there_and_not_zero() {
    let none = Polyrhythm::new_with_time_signature(4, 120, &[]).unwrap_err();
    assert!(matches!(none, Exception::Polyrhythm(_)));
    assert_eq!(none.describe(), "Polyrhythm At least one subdivision is required");
    let zero = Polyrhythm::new_with_time_signature(4, 120, &[3, 0]).unwrap_err();
    assert_eq!(zero.describe(), "Polyrhythm Subdivision must be nonzero");
    let huge = Polyrhythm::new_with_time_signature(4, 120, &[u64::MAX, u64::MAX - 1]);
    assert!(huge.is_err());
}

#[test]
fn least_common_multiples() {
    assert_eq!(checked_lcm(4, 6), Some(12));
    assert_eq!(checked_lcm(0, 0), Some(0));
    assert_eq!(checked_lcm(0, 7), Some(0));
    assert_eq!(checked_lcm(u64::MAX, 2), None);
    let poly = Polyrhythm::new_with_time_signature(3, 90, &[4, 6, 10]).unwrap();
    assert_eq!(poly.cycle, 60);
    assert_eq!(poly.components, vec![4, 6, 10]);
}

#[test]
fn ticks_go_round_the_cycle() {
    let mut poly = Polyrhythm::new_with_time_signature(4, 120, &[2, 3]).unwrap();
    let mut seen = Vec::new();
    for _ in 0..7 {
        seen.push(poly.next().unwrap());
    }
    assert_eq!(seen[0], (0, vec![true, true]));
    assert_eq!(seen[1], (1, vec![false, false]));
    assert_eq!(seen[2], (2, vec![false, true]));
    assert_eq!(seen[3], (3, vec![true, false]));
    assert_eq!(seen[4], (4, vec![false, true]));
    assert_eq!(seen[5], (5, vec![false, false]));
    assert_eq!(seen[6], (0, vec![true, true]));
}

#[test]
fn durations_are_exact() {
    let mut poly = Polyrhythm::new_with_time_signature(4, 120, &[2, 3]).unwrap();
    assert_eq!(poly.measure_duration().unwrap(), (240, 120));
    assert_eq!(poly.tick_duration().unwrap(), (240, 720));
    assert_eq!(poly.beat_timings().unwrap(), vec![vec![0, 1], vec![0, 1, 2]]);
    poly.tempo = None;
    assert_eq!(poly.measure_duration().unwrap_err().describe(), "Polyrhythm Tempo not set");
    assert!(poly.tick_duration().is_err());
    assert!(poly.beat_timings().is_err());
}
