use music21_rs::pitch::accidental::Accidental;
use music21_rs::pitch::dissonance::{
    count_factor, denominator_penalty, dissonance_score, DissonanceScorer, Scorer,
};
use music21_rs::pitch::Pitch;
use music21_rs::stepname::StepName;

fn pitch(step: StepName, semitones: i8, octave: i64) -> Pitch {
    let mut p = Pitch::natural(step, Some(octave));
    p.accidental = Accidental::from_int(semitones).unwrap();
    p
}

#[test]
fn no_pitches_score_nothing() {
    assert_eq!(dissonance_score(&vec![], true, true, true).unwrap(), 0);
    assert_eq!(dissonance_score(&vec![], false, false, false).unwrap(), 0);
    let mut scorer = DissonanceScorer::new();
    assert_eq!(scorer.score(&vec![]).unwrap(), 0);
}

#[test]
fn accidental_term_counts_only_more_than_a_semitone() {
    let e = vec![pitch(StepName::E, 0, 4), pitch(StepName::F, 1, 4), pitch(StepName::A, 1, 4)];
    let d = vec![pitch(StepName::D, 2, 4), pitch(StepName::F, 1, 4), pitch(StepName::A, 1, 4)];
    assert_eq!(dissonance_score(&e, false, true, false).unwrap(), 0);
    // one alteration of two semitones among three pitches
    assert_eq!(dissonance_score(&d, false, true, false).unwrap(), 666_666);
    assert!(dissonance_score(&e, true, true, true).unwrap() < dissonance_score(&d, true, true, true).unwrap());
}

#[test]
fn triad_term_rewards_thirds() {
    let triad = vec![pitch(StepName::C, 0, 4), pitch(StepName::E, 0, 4), pitch(StepName::G, 0, 4)];
    // C-E and E-G are thirds, C-G is not: two of three pairs
    assert_eq!(dissonance_score(&triad, false, false, true).unwrap(), -666_666);
    // C-E 81/64, C-G 3/2, E-G 32/27: six twos, one two, three threes over three pairs
    assert_eq!(
        dissonance_score(&triad, true, false, false).unwrap(),
        (7 * 26_289 + 3 * 41_667) / 3
    );
    assert_eq!(
        dissonance_score(&triad, true, true, true).unwrap(),
        ((7 * 26_289 + 3 * 41_667) / 3 - 666_666) / 3
    );
}

#[test]
fn one_pitch_has_no_pairs() {
    let one = vec![pitch(StepName::C, 3, 4)];
    assert_eq!(dissonance_score(&one, true, true, true).unwrap(), 1_000_000);
    assert_eq!(dissonance_score(&one, true, false, true).unwrap(), 0);
}

#[test]
fn pairs_without_interval_fail_the_score() {
    let far = vec![pitch(StepName::C, 4, 4), pitch(StepName::D, -4, 4)];
    assert!(dissonance_score(&far, true, true, true).is_err());
    assert!(dissonance_score(&far, false, false, true).is_err());
    assert_eq!(dissonance_score(&far, false, true, false).unwrap(), 4_000_000);
}

#[test]
fn weights_of_denominators() {
    assert_eq!(count_factor(64, 2), 6);
    assert_eq!(count_factor(64, 3), 0);
    assert_eq!(count_factor(531441, 3), 12);
    assert_eq!(denominator_penalty(1), 0);
    assert_eq!(denominator_penalty(531441), 12 * 41_667);
    assert_eq!(denominator_penalty(96), 5 * 26_289 + 41_667);
}

#[test]
fn a_new_scorer_has_an_empty_cache() {
    assert_eq!(DissonanceScorer::new().cached_names(), 0);
    assert_eq!(DissonanceScorer::with_terms(true, false, false).cached_names(), 0);
    let mut scorer = DissonanceScorer::new();
    scorer.score(&vec![pitch(StepName::C, 0, 4), pitch(StepName::G, 0, 4)]).unwrap();
    assert!(scorer.cached_names() > 0);
}

#[test]
fn more_than_a_million_pitches_are_scored() {
    let mut pitches = vec![pitch(StepName::C, 2, 4); 1_000_001];
    pitches[0] = pitch(StepName::C, 0, 4);
    // a million alterations of two semitones among a million and one pitches
    assert_eq!(dissonance_score(&pitches, false, true, false).unwrap(), 1_999_998);
    assert_eq!(dissonance_score(&pitches, false, false, false).unwrap(), 0);
}

#[test]
fn means_over_many_pairs_are_exact() {
    let mut pitches = Vec::new();
    for _ in 0..30 {
        pitches.push(pitch(StepName::C, 0, 4));
        pitches.push(pitch(StepName::E, 0, 4));
    }
    // of 1770 pairs, 465 lead from a C to a later E, a third up
    assert_eq!(dissonance_score(&pitches, false, false, true).unwrap(), -262_711);
    // a C and an E are 81 to 64 or 128 to 81 apart, two equal pitches 1 to 1
    let up = 6 * 26_289i64;
    let down = 4 * 41_667i64;
    let sum = 465 * up + 435 * down;
    assert_eq!(dissonance_score(&pitches, true, false, false).unwrap(), sum / 1770);
    let all = (sum / 1770 - 262_711) / 3;
    assert_eq!(dissonance_score(&pitches, true, true, true).unwrap(), all);
}
