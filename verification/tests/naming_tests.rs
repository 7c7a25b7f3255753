use music21_rs::exception::Exception;
use music21_rs::pitch::accidental::{Accidental, AccidentalEnum};
use music21_rs::pitch::microtone::Microtone;
use music21_rs::pitch::naming::{read_pitch_name, PitchName};
use music21_rs::pitch::pitchclassstring::PitchClassString;
use music21_rs::pitch::Pitch;
use music21_rs::stepname::StepName;

#[test]
fn names_read_as_step_accidental_octave() {
    let p = Pitch::from_name("D#4").unwrap();
    assert_eq!(p.step, StepName::D);
    assert_eq!(p.accidental.kind, AccidentalEnum::Sharp);
    assert_eq!(p.octave, Some(4));
    assert_eq!(p.name(), "D#");
    assert_eq!(p.name_with_octave(), "D#4");
    assert_eq!(p.ps(), 63_000_000);
    let q = Pitch::from_name("  e--  ").unwrap();
    assert_eq!((q.step, q.accidental.kind, q.octave), (StepName::E, AccidentalEnum::DoubleFlat, None));
    assert_eq!(q.name_with_octave(), "E--");
    let r = Pitch::from_name("C-1").unwrap();
    assert_eq!((r.step, r.accidental.kind, r.octave), (StepName::C, AccidentalEnum::Flat, Some(1)));
    let s = Pitch::from_name("Bb12").unwrap();
    assert_eq!((s.step, s.accidental.kind, s.octave), (StepName::B, AccidentalEnum::Flat, Some(12)));
    assert_eq!(
        read_pitch_name("G~3").unwrap(),
        (StepName::G, Accidental { kind: AccidentalEnum::HalfSharp }, Some(3))
    );
}

#[test]
fn names_that_cannot_be_read() {
    assert!(matches!(Pitch::from_name("4C").unwrap_err(), Exception::Pitch(_)));
    assert!(matches!(Pitch::from_name("").unwrap_err(), Exception::Pitch(_)));
    assert!(matches!(Pitch::from_name("   ").unwrap_err(), Exception::Pitch(_)));
    assert!(matches!(Pitch::from_name("H4").unwrap_err(), Exception::StepName(_)));
    assert!(matches!(Pitch::from_name("Cx4").unwrap_err(), Exception::Accidental(_)));
    assert!(matches!(Pitch::from_name("C4x").unwrap_err(), Exception::Pitch(_)));
    assert!(matches!(
        Pitch::from_name("C99999999999999999999").unwrap_err(),
        Exception::Pitch(_)
    ));
    let err = Pitch::from_name("4C").unwrap_err();
    assert_eq!(
        err.describe(),
        "Pitch error: Cannot have octave given before pitch name in \"4C\""
    );
}

#[test]
fn a_name_that_fails_changes_nothing() {
    let mut p = Pitch::from_name("F#5").unwrap();
    let before = p;
    assert!(p.name_setter("Hx").is_err());
    assert_eq!(p, before);
    assert_eq!(p.spelling_is_inferred, before.spelling_is_inferred);
    p.name_setter("G").unwrap();
    assert_eq!(p.name_with_octave(), "G5");
}

#[test]
fn new_takes_the_later_over_the_earlier() {
    let named = Pitch::new(Some(PitchName::Name("D#4".to_string())), None, None, None, None, None, None, None)
        .unwrap();
    assert_eq!(named.name_with_octave(), "D#4");
    let with_octave =
        Pitch::new(Some(PitchName::Name("D#4".to_string())), None, Some(2), None, None, None, None, None)
            .unwrap();
    assert_eq!(with_octave.name_with_octave(), "D#2");
    let stepped = Pitch::new(None, Some(StepName::A), Some(3), Some(Accidental::flat()), None, None, None, None)
        .unwrap();
    assert_eq!(stepped.name_with_octave(), "A-3");
    let bare = Pitch::new(None, None, None, None, None, None, None, None).unwrap();
    assert_eq!(bare.name_with_octave(), "C");
    let by_class =
        Pitch::new(None, None, Some(4), None, None, Some(PitchClassString::t), None, None).unwrap();
    assert_eq!(by_class.name_with_octave(), "B-4");
    let by_midi = Pitch::new(None, None, None, None, None, None, Some(61), None).unwrap();
    assert_eq!(by_midi.name_with_octave(), "C#4");
    let by_ps = Pitch::new(None, None, None, None, None, None, Some(61), Some(70_200_000)).unwrap();
    assert_eq!(by_ps.name_with_octave(), "B-4");
    assert_eq!(by_ps.microtone, Some(Microtone { cent_shift: 200_000 }));
    assert_eq!(by_ps.ps(), 70_200_000);
    let with_microtone = Pitch::new(
        Some(PitchName::Name("C4".to_string())),
        None,
        None,
        None,
        Some(Microtone::new(Some(25)).unwrap()),
        None,
        None,
        None,
    )
    .unwrap();
    assert_eq!(with_microtone.alter(), 250_000);
    assert!(Pitch::new(Some(PitchName::Name("?".to_string())), None, None, None, None, None, None, None).is_err());
}

#[test]
fn numbers_name_pitches_by_their_semitones() {
    let zero = Pitch::new(Some(PitchName::Number(0)), None, None, None, None, None, None, None).unwrap();
    assert_eq!(zero.name_with_octave(), "C");
    let one = Pitch::new(Some(PitchName::Number(1)), None, None, None, None, None, None, None).unwrap();
    assert_eq!(one.name_with_octave(), "C#");
    let thirteen = Pitch::new(Some(PitchName::Number(13)), None, None, None, None, None, None, None).unwrap();
    assert_eq!(thirteen.name_with_octave(), "C#0");
    let sixty = Pitch::new(Some(PitchName::Number(63)), None, None, None, None, None, None, None).unwrap();
    assert_eq!(sixty.name_with_octave(), "E-4");
    assert!(sixty.spelling_is_inferred);
}

#[test]
fn pitch_space_round_trip_spells_simply() {
    for (ps, name) in [
        (60_000_000, "C4"),
        (66_000_000, "F#4"),
        (68_000_000, "G#4"),
        (-2_000_000, "B--2"),
        (60_500_000, "C~4"),
        (62_500_000, "D~4"),
        (135_000_000, "E-10"),
        (70_500_000, "B`4"),
        (71_750_000, "C5"),
        (64_800_000, "F4"),
    ] {
        let p = Pitch::from_ps(ps).unwrap();
        if ps == -2_000_000 {
            assert_eq!(p.step, StepName::B);
            assert_eq!(p.accidental.kind, AccidentalEnum::Flat);
            assert_eq!(p.octave, Some(-2));
        } else {
            assert_eq!(p.name_with_octave(), name);
        }
        assert_eq!(p.ps(), ps);
    }
    assert!(Pitch::from_ps(i128::MAX).is_err());
}

#[test]
fn simplifying_collapses_what_needs_it() {
    let b_sharp = Pitch::from_name("B#4").unwrap();
    assert_eq!(b_sharp.simplify_enharmonic(false).unwrap().name_with_octave(), "C5");
    let c_flat = Pitch::from_name("C-").unwrap();
    assert_eq!(c_flat.simplify_enharmonic(false).unwrap().name_with_octave(), "B");
    let d_sharp = Pitch::from_name("D#4").unwrap();
    assert_eq!(d_sharp.simplify_enharmonic(false).unwrap().name_with_octave(), "D#4");
    assert_eq!(d_sharp.simplify_enharmonic(true).unwrap().name_with_octave(), "E-4");
    let g_flat = Pitch::from_name("G-2").unwrap();
    assert_eq!(g_flat.simplify_enharmonic(true).unwrap().name_with_octave(), "F#2");
    let triple = Pitch::from_name("F###3").unwrap();
    assert_eq!(triple.simplify_enharmonic(false).unwrap().name_with_octave(), "G#3");
    assert_eq!(triple.get_higher_enharmonic().unwrap().name_with_octave(), "G#3");
    assert_eq!(triple.get_lower_enharmonic().unwrap().name_with_octave(), "E####3");
    let quad = Pitch::from_name("E####3").unwrap();
    assert!(matches!(quad.get_lower_enharmonic().unwrap_err(), Exception::Accidental(_)));
    let b = Pitch::from_name("B4").unwrap();
    assert_eq!(b.get_higher_enharmonic().unwrap().name_with_octave(), "C-5");
    let octaveless = Pitch::from_name("B").unwrap();
    assert_eq!(octaveless.get_higher_enharmonic().unwrap().name_with_octave(), "C-");
}
