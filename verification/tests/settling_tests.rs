use music21_rs::pitch::accidental::Accidental;
use music21_rs::pitch::dissonance::{DissonanceScorer, Scorer};
use music21_rs::pitch::respell::simplify_multiple_enharmonics;
use music21_rs::pitch::search::candidates;
use music21_rs::pitch::Pitch;
use music21_rs::stepname::StepName;

fn spelled(step: StepName, semitones: i8) -> Pitch {
    let mut p = Pitch::natural(step, Some(4));
    p.accidental = Accidental::from_int(semitones).unwrap();
    p
}

#[test]
fn respelling_moves_on_where_a_new_spelling_comes_in_reach() {
    // From D double sharp the search reaches E alone; from E it reaches F
    // flat, which makes a third with C flat.
    let given = vec![spelled(StepName::C, -1), spelled(StepName::D, 2)];
    let once = simplify_multiple_enharmonics(&given, None::<DissonanceScorer>, None).unwrap();
    assert_eq!(once, vec![spelled(StepName::C, -1), spelled(StepName::E, 0)]);
    let twice = simplify_multiple_enharmonics(&once, None::<DissonanceScorer>, None).unwrap();
    assert_eq!(twice, vec![spelled(StepName::C, -1), spelled(StepName::F, -1)]);
    let thrice = simplify_multiple_enharmonics(&twice, None::<DissonanceScorer>, None).unwrap();
    assert_eq!(thrice, twice);
    assert!(!candidates(&given[1]).unwrap().contains(&twice[1]));
    assert!(candidates(&once[1]).unwrap().contains(&twice[1]));
    let mut scorer = DissonanceScorer::new();
    assert!(scorer.score(&twice).unwrap() < scorer.score(&once).unwrap());
}
