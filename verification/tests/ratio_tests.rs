use music21_rs::fraction_pow::{Fraction, Sign};
use music21_rs::interval::pythagorean::{interval_to_pythagorean_ratio, RatioCache};
use music21_rs::interval::Interval;
use music21_rs::pitch::accidental::Accidental;
use music21_rs::pitch::Pitch;
use music21_rs::stepname::StepName;

fn pitch(step: StepName, semitones: i8, octave: i64) -> Pitch {
    let mut p = Pitch::natural(step, Some(octave));
    p.accidental = Accidental::from_int(semitones).unwrap();
    p
}

fn ratio_between(a: Pitch, b: Pitch) -> Fraction {
    let interval = Interval::between(&a, &b).unwrap();
    interval_to_pythagorean_ratio(&interval).unwrap()
}

#[test]
fn fifth_above_the_reference_is_three_to_two() {
    let c1 = pitch(StepName::C, 0, 1);
    assert_eq!(ratio_between(c1, pitch(StepName::G, 0, 1)), Fraction::Rational(Sign::Plus, 3, 2));
    assert_eq!(ratio_between(c1, pitch(StepName::G, 0, 4)), Fraction::Rational(Sign::Plus, 12, 1));
    assert_eq!(ratio_between(c1, pitch(StepName::G, 0, 0)), Fraction::Rational(Sign::Plus, 3, 4));
    assert_eq!(ratio_between(c1, pitch(StepName::F, 0, 1)), Fraction::Rational(Sign::Plus, 4, 3));
    assert_eq!(ratio_between(c1, pitch(StepName::E, 0, 1)), Fraction::Rational(Sign::Plus, 81, 64));
    assert_eq!(ratio_between(c1, pitch(StepName::C, 0, 1)), Fraction::Rational(Sign::Plus, 1, 1));
    assert_eq!(
        ratio_between(c1, pitch(StepName::D, -2, 1)),
        Fraction::Rational(Sign::Plus, 524288, 531441)
    );
}

#[test]
fn repeated_lookups_give_the_same_ratio() {
    let mut cache = RatioCache::new();
    let g4 = pitch(StepName::G, 0, 4);
    let first = cache.ratio_of_pitch(&g4).unwrap();
    assert_eq!(cache.len(), 1);
    assert!(cache.contains(&g4));
    let second = cache.ratio_of_pitch(&g4).unwrap();
    assert_eq!(cache.len(), 1);
    assert_eq!(first, second);
    assert_eq!(first, Fraction::Rational(Sign::Plus, 12, 1));
    let g2 = cache.ratio_of_pitch(&pitch(StepName::G, 0, 2)).unwrap();
    assert_eq!(g2, Fraction::Rational(Sign::Plus, 3, 1));
    assert_eq!(cache.len(), 1);
}

#[test]
fn quarter_tone_names_have_no_ratio() {
    let mut cache = RatioCache::new();
    let mut p = pitch(StepName::C, 0, 4);
    p.accidental = Accidental::from_alter(500_000).unwrap();
    let err = cache.ratio_of_pitch(&p).unwrap_err();
    assert!(matches!(err, music21_rs::exception::Exception::Interval(_)));
    assert_eq!(cache.len(), 0);
}

#[test]
fn far_names_are_found_within_the_bound() {
    let mut cache = RatioCache::new();
    assert!(cache.ratio_of_pitch(&pitch(StepName::B, 4, 4)).is_ok());
    assert!(cache.ratio_of_pitch(&pitch(StepName::F, -4, 4)).is_ok());
}

#[test]
fn a_failed_search_leaves_the_cache_as_it_was() {
    let mut cache = RatioCache::new();
    let g4 = pitch(StepName::G, 0, 4);
    cache.ratio_of_pitch(&g4).unwrap();
    assert_eq!(cache.len(), 1);
    let mut quarter = pitch(StepName::D, 0, 4);
    quarter.accidental = Accidental::from_alter(-500_000).unwrap();
    assert!(cache.ratio_of_pitch(&quarter).is_err());
    assert_eq!(cache.len(), 1);
    assert!(cache.contains(&g4));
    assert!(!cache.contains(&quarter));
    // a name that is found is added, once
    let a4 = pitch(StepName::A, 0, 4);
    cache.ratio_of_pitch(&a4).unwrap();
    assert_eq!(cache.len(), 2);
    cache.ratio_of_pitch(&a4).unwrap();
    assert_eq!(cache.len(), 2);
    let fifth = Interval::between(&pitch(StepName::C, 0, 4), &g4).unwrap();
    cache.interval_to_pythagorean_ratio(&fifth).unwrap();
    assert_eq!(cache.len(), 2);
}
