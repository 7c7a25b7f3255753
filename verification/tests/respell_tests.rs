use music21_rs::exception::Exception;
use music21_rs::key::keysignature::KeySignature;
use music21_rs::pitch::accidental::Accidental;
use music21_rs::pitch::dissonance::{
    dissonance_score, DissonanceScorer, FnScorer, Score, Scorer,
};
use music21_rs::pitch::naming::PitchName;
use music21_rs::pitch::respell::{respell, simplify_multiple_enharmonics};
use music21_rs::pitch::search::{
    brute_force_enharmonics_search, candidates, greedy_enharmonics_search,
};
use music21_rs::pitch::Pitch;
use music21_rs::stepname::StepName;

fn pitch(step: StepName, semitones: i8, octave: i64) -> Pitch {
    let mut p = Pitch::natural(step, Some(octave));
    p.accidental = Accidental::from_int(semitones).unwrap();
    p
}

fn names(pitches: &[Pitch]) -> Vec<String> {
    pitches.iter().map(|p| p.name_with_octave()).collect()
}

fn default_respell(pitches: &Vec<Pitch>) -> Vec<Pitch> {
    simplify_multiple_enharmonics(pitches, None::<DissonanceScorer>, None).unwrap()
}

#[test]
fn major_triad_stays_as_it_is() {
    let triad = vec![pitch(StepName::C, 0, 4), pitch(StepName::E, 0, 4), pitch(StepName::G, 0, 4)];
    assert_eq!(default_respell(&triad), triad);
    assert_eq!(names(&default_respell(&triad)), vec!["C4", "E4", "G4"]);
}

#[test]
fn double_sharp_gives_way_to_the_natural() {
    let d = pitch(StepName::D, 2, 4);
    let spellings = candidates(&d).unwrap();
    assert_eq!(names(&spellings), vec!["D##4", "E4"]);
    let found = default_respell(&vec![pitch(StepName::F, 1, 4), d, pitch(StepName::A, 1, 4)]);
    assert_eq!(found[1], pitch(StepName::E, 0, 4));
    // with the accidental term alone the E spelling is the better one
    let mut accidentals_only = DissonanceScorer::with_terms(false, true, false);
    let found = respell(
        &vec![pitch(StepName::F, 1, 4), d, pitch(StepName::A, 1, 4)],
        &mut accidentals_only,
        None,
    )
    .unwrap();
    assert_eq!(names(&found), vec!["F#4", "E4", "A#4"]);
    let with_d = vec![d, pitch(StepName::F, 1, 4), pitch(StepName::A, 1, 4)];
    let with_e = vec![pitch(StepName::E, 0, 4), pitch(StepName::F, 1, 4), pitch(StepName::A, 1, 4)];
    assert!(
        dissonance_score(&with_e, false, true, false).unwrap()
            < dissonance_score(&with_d, false, true, false).unwrap()
    );
}

#[test]
fn diminished_seventh_loses_its_double_accidentals() {
    // C, E flat as D sharp, G flat, B double flat
    let chord = vec![
        pitch(StepName::C, 0, 4),
        pitch(StepName::D, 1, 4),
        pitch(StepName::G, -1, 4),
        pitch(StepName::B, -2, 4),
    ];
    let mut scorer = DissonanceScorer::new();
    let exhaustive = brute_force_enharmonics_search(&chord, &mut scorer).unwrap();
    let greedy = greedy_enharmonics_search(&chord, &mut scorer).unwrap();
    for found in [&exhaustive, &greedy] {
        assert_eq!(found.len(), 4);
        assert_eq!(found[0], chord[0]);
        for p in found.iter() {
            assert!(p.accidental.alter().abs() <= 1_000_000);
        }
    }
    let best = scorer.score(&exhaustive).unwrap();
    let quick = scorer.score(&greedy).unwrap();
    assert!(best <= quick);
    assert!(best <= scorer.score(&chord).unwrap());
}

#[test]
fn respelling_what_was_respelled_changes_nothing_here() {
    let chords = vec![
        vec![pitch(StepName::C, 0, 4), pitch(StepName::E, 0, 4), pitch(StepName::G, 0, 4)],
        vec![pitch(StepName::C, 0, 4), pitch(StepName::D, 1, 4), pitch(StepName::G, -1, 4)],
        vec![
            pitch(StepName::C, 0, 4),
            pitch(StepName::D, 0, 4),
            pitch(StepName::E, 0, 4),
            pitch(StepName::F, 1, 4),
            pitch(StepName::G, 1, 4),
            pitch(StepName::B, -1, 4),
        ],
    ];
    for chord in chords {
        let once = default_respell(&chord);
        let twice = default_respell(&once);
        assert_eq!(once, twice);
    }
}

#[test]
fn no_pitches_respell_to_no_pitches() {
    assert_eq!(default_respell(&vec![]), vec![]);
    let mut scorer = DissonanceScorer::new();
    assert_eq!(brute_force_enharmonics_search(&vec![], &mut scorer).unwrap(), vec![]);
    let err = greedy_enharmonics_search(&vec![], &mut scorer).unwrap_err();
    assert!(matches!(err, Exception::Pitch(_)));
}

#[test]
fn one_pitch_is_its_own_anchor() {
    let one = vec![pitch(StepName::D, 2, 4)];
    assert_eq!(default_respell(&one), one);
}

#[test]
fn key_context_anchors_the_search_and_leaves() {
    let pitches = vec![pitch(StepName::D, 1, 4), pitch(StepName::G, 0, 4)];
    let in_e_flat =
        simplify_multiple_enharmonics(&pitches, None::<DissonanceScorer>, Some(KeySignature::new(-3)))
            .unwrap();
    assert_eq!(names(&in_e_flat), vec!["E-4", "G4"]);
    let in_e = simplify_multiple_enharmonics(
        &vec![pitch(StepName::E, -1, 4)],
        None::<DissonanceScorer>,
        Some(KeySignature::new(4)),
    )
    .unwrap();
    assert_eq!(names(&in_e), vec!["D#4"]);
    let too_many = simplify_multiple_enharmonics(
        &pitches,
        None::<DissonanceScorer>,
        Some(KeySignature::new(40)),
    );
    assert!(matches!(too_many.unwrap_err(), Exception::Accidental(_)));
}

#[test]
fn inferred_marks_follow_the_input() {
    let mut marked = pitch(StepName::D, 2, 4);
    marked.spelling_is_inferred = true;
    let plain = pitch(StepName::D, 2, 4);
    let found = default_respell(&vec![pitch(StepName::C, 0, 4), marked, plain]);
    assert!(found[1].spelling_is_inferred);
    assert!(!found[2].spelling_is_inferred);
    assert!(!found[0].spelling_is_inferred);
}

#[test]
fn scoring_errors_abort_the_search() {
    let far = vec![pitch(StepName::C, 4, 4), pitch(StepName::D, -4, 4)];
    assert!(simplify_multiple_enharmonics(&far, None::<DissonanceScorer>, None).is_err());
}

fn fewest_sharps(pitches: &Vec<Pitch>) -> Result<Score, Exception> {
    Ok(pitches.iter().map(|p| p.accidental.alter().max(0)).sum())
}

#[test]
fn another_scorer_decides_otherwise() {
    let found = simplify_multiple_enharmonics(
        &vec![pitch(StepName::C, 0, 4), pitch(StepName::F, 1, 4)],
        Some(FnScorer::new(fewest_sharps)),
        None,
    )
    .unwrap();
    assert_eq!(names(&found), vec!["C4", "G-4"]);
}

#[test]
fn ties_go_to_the_first_spelling() {
    let indifferent = |_pitches: &Vec<Pitch>| -> Result<Score, Exception> { Ok(7) };
    let pitches = vec![pitch(StepName::C, 0, 4), pitch(StepName::F, 1, 4), pitch(StepName::E, 1, 4)];
    let found =
        simplify_multiple_enharmonics(&pitches, Some(FnScorer::new(indifferent)), None).unwrap();
    assert_eq!(found, pitches);
    let long = vec![
        pitch(StepName::C, 0, 4),
        pitch(StepName::F, 1, 4),
        pitch(StepName::E, 1, 4),
        pitch(StepName::D, 2, 4),
        pitch(StepName::B, -2, 4),
    ];
    let found = simplify_multiple_enharmonics(&long, Some(FnScorer::new(indifferent)), None).unwrap();
    assert_eq!(found, long);
}

#[test]
fn a_failing_scorer_fails_the_search() {
    let failing = |_pitches: &Vec<Pitch>| -> Result<Score, Exception> {
        Err(Exception::Chord("no".to_string()))
    };
    let pitches = vec![pitch(StepName::C, 0, 4), pitch(StepName::F, 1, 4)];
    let err = simplify_multiple_enharmonics(&pitches, Some(FnScorer::new(failing)), None).unwrap_err();
    assert!(matches!(err, Exception::Chord(_)));
}

fn numbered(number: i64) -> Pitch {
    Pitch::new(Some(PitchName::Number(number)), None, None, None, None, None, None, None).unwrap()
}

#[test]
fn simplify_multiple_enharmonics_test() {
    let more_than_five = vec![
        numbered(0),
        numbered(1),
        numbered(2),
        numbered(3),
        numbered(4),
        numbered(5),
        numbered(12),
        numbered(13),
    ];

    let x = simplify_multiple_enharmonics(&more_than_five, None::<DissonanceScorer>, None);
    assert_eq!(x.unwrap().len(), 8);
    let less_than_five = vec![numbered(0), numbered(1), numbered(2), numbered(12), numbered(13)];
    let y = simplify_multiple_enharmonics(&less_than_five[..4].to_vec(), None::<DissonanceScorer>, None);
    assert_eq!(names(&y.unwrap()), vec!["C", "D-", "D", "C0"]);
}

#[test]
fn few_pitches_never_have_too_many_combinations() {
    let steps = [
        StepName::C,
        StepName::D,
        StepName::E,
        StepName::F,
        StepName::G,
        StepName::A,
        StepName::B,
    ];
    let mut most = 0;
    for step in steps {
        for semitones in -4i8..=4 {
            let spellings = candidates(&pitch(step, semitones, 4)).unwrap();
            assert!(spellings.len() >= 1 && spellings.len() <= 20);
            assert_eq!(spellings[0], pitch(step, semitones, 4));
            most = most.max(spellings.len());
        }
    }
    assert!(most * most * most <= 8000);
    // four pitches with three spellings each: the exhaustive search answers, and not worse
    // than the greedy one
    let chord = vec![
        pitch(StepName::C, 0, 4),
        pitch(StepName::E, 0, 4),
        pitch(StepName::G, 1, 4),
        pitch(StepName::B, 0, 4),
    ];
    let mut scorer = DissonanceScorer::new();
    let exhaustive = brute_force_enharmonics_search(&chord, &mut scorer).unwrap();
    let greedy = greedy_enharmonics_search(&chord, &mut scorer).unwrap();
    assert!(scorer.score(&exhaustive).unwrap() <= scorer.score(&greedy).unwrap());
}

#[test]
fn diminished_sevenths_in_far_spellings_settle_without_double_accidentals() {
    // on C sharp: E as F flat, G as F double sharp, B flat as C double flat
    let on_c_sharp = vec![
        pitch(StepName::C, 1, 4),
        pitch(StepName::F, -1, 4),
        pitch(StepName::F, 2, 4),
        pitch(StepName::C, -2, 5),
    ];
    // on B: D as C double sharp, F as E sharp, A flat as G sharp
    let on_b = vec![
        pitch(StepName::B, 0, 3),
        pitch(StepName::C, 2, 4),
        pitch(StepName::E, 1, 4),
        pitch(StepName::G, 1, 4),
    ];
    for chord in [on_c_sharp, on_b] {
        let mut scorer = DissonanceScorer::new();
        let exhaustive = brute_force_enharmonics_search(&chord, &mut scorer).unwrap();
        let greedy = greedy_enharmonics_search(&chord, &mut scorer).unwrap();
        for found in [&exhaustive, &greedy] {
            assert_eq!(found.len(), 4);
            assert_eq!(found[0], chord[0]);
            for (p, given) in found.iter().zip(chord.iter()) {
                assert!(p.alter().abs() < 2_000_000);
                assert_eq!(p.ps(), given.ps());
            }
        }
        assert!(scorer.score(&exhaustive).unwrap() <= scorer.score(&greedy).unwrap());
    }
}

#[test]
fn a_combination_without_a_score_fails_the_exhaustive_search() {
    // a diminished seventh on C whose far spellings have no interval between them
    let chord = vec![
        pitch(StepName::C, 0, 4),
        pitch(StepName::F, -2, 4),
        pitch(StepName::E, 2, 4),
        pitch(StepName::C, -3, 5),
    ];
    assert_eq!(names(&candidates(&chord[3]).unwrap()), vec!["C---5", "A4", "B--4"]);
    let mut scorer = DissonanceScorer::new();
    assert!(scorer.score(&vec![chord[2], chord[3]]).is_err());
    let err = brute_force_enharmonics_search(&chord, &mut scorer).unwrap_err();
    assert!(matches!(err, Exception::Interval(_)));
    // the greedy search never tries that pair
    let greedy = greedy_enharmonics_search(&chord, &mut scorer).unwrap();
    assert_eq!(names(&greedy), vec!["C4", "E-4", "F#4", "A4"]);
}
