use music21_rs::pitch::accidental::{Accidental, AccidentalEnum};
use music21_rs::pitch::Pitch;
use music21_rs::stepname::StepName;

fn pitch(step: StepName, semitones: i8, octave: i64) -> Pitch {
    let mut p = Pitch::natural(step, Some(octave));
    p.accidental = Accidental::from_int(semitones).unwrap();
    p
}

#[test]
fn double_sharp_d_has_e_among_its_enharmonics() {
    let d = pitch(StepName::D, 2, 4);
    let others = d.get_all_common_enharmonics(2_000_000).unwrap();
    let e = pitch(StepName::E, 0, 4);
    assert!(others.contains(&e));
    assert_eq!(others.len(), 1);
}

#[test]
fn enharmonics_of_e_walk_both_ways() {
    let e = pitch(StepName::E, 0, 4);
    let others = e.get_all_common_enharmonics(2_000_000).unwrap();
    assert_eq!(others, vec![pitch(StepName::F, -1, 4), pitch(StepName::D, 2, 4)]);
}

#[test]
fn pitch_space_of_middle_c() {
    assert_eq!(pitch(StepName::C, 0, 4).ps(), 60_000_000);
    assert_eq!(pitch(StepName::B, 1, 3).ps(), 60_000_000);
    let c = Pitch::from_ps(61_000_000).unwrap();
    assert_eq!(c.step, StepName::C);
    assert_eq!(c.accidental.kind, AccidentalEnum::Sharp);
    assert_eq!(c.octave, Some(4));
}

#[test]
fn simple_spelling_beyond_the_limit_is_left_out() {
    // the simple spelling of C triple sharp is E flat, a semitone from its step
    let c = pitch(StepName::C, 3, 4);
    assert_eq!(c.simplify_enharmonic(false).unwrap(), pitch(StepName::E, -1, 4));
    assert_eq!(c.get_all_common_enharmonics(500_000).unwrap(), vec![]);
    assert_eq!(c.get_all_common_enharmonics(999_999).unwrap(), vec![]);
    assert_eq!(
        c.get_all_common_enharmonics(1_000_000).unwrap(),
        vec![pitch(StepName::E, -1, 4), pitch(StepName::D, 1, 4)]
    );
    assert_eq!(c.get_all_common_enharmonics(0).unwrap(), vec![]);
}

#[test]
fn enharmonics_stay_within_the_limit() {
    let steps = [
        StepName::C,
        StepName::D,
        StepName::E,
        StepName::F,
        StepName::G,
        StepName::A,
        StepName::B,
    ];
    for step in steps {
        for semitones in -4i8..=4 {
            let p = pitch(step, semitones, 4);
            for limit in [0i64, 500_000, 1_000_000, 1_500_000, 2_000_000, 3_000_000, 4_000_000] {
                let others = p.get_all_common_enharmonics(limit).unwrap();
                assert!(others.len() <= 19);
                for (i, q) in others.iter().enumerate() {
                    assert!(q.alter().abs() <= limit);
                    assert_eq!(q.ps(), p.ps());
                    assert!(!others[..i].contains(q));
                }
            }
        }
    }
}

#[test]
fn microtone_of_the_simple_spelling_counts_towards_the_limit() {
    // B sharp and a fifth of a semitone more: simply C with that microtone
    let mut p = pitch(StepName::B, 1, 3);
    p.microtone = Some(music21_rs::pitch::microtone::Microtone::new(Some(20)).unwrap());
    let simple = p.simplify_enharmonic(false).unwrap();
    assert_eq!(simple.step, StepName::C);
    assert_eq!(simple.alter(), 200_000);
    for q in p.get_all_common_enharmonics(100_000).unwrap() {
        assert!(q.alter().abs() <= 100_000);
    }
    assert!(!p.get_all_common_enharmonics(100_000).unwrap().contains(&simple));
    assert!(p.get_all_common_enharmonics(200_000).unwrap().contains(&simple));
}
