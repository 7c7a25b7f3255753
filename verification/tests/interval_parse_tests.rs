use music21_rs::exception::Exception;
use music21_rs::interval::chromaticinterval::ChromaticInterval;
use music21_rs::interval::diatonicinterval::semitones_generic;
use music21_rs::interval::direction::Direction;
use music21_rs::interval::genericinterval::{convert_generic, GenericInterval};
use music21_rs::interval::intervalstring::IntervalString;
use music21_rs::common::stringtools::{decimal_text, signed_decimal_text};
use music21_rs::interval::parse::{
    contains_text, interval_from_parts, string_to_diatonic_chromatic,
};
use music21_rs::interval::specifier::Specifier;
use music21_rs::interval::{Interval, IntervalArgument};
use music21_rs::pitch::Pitch;

fn read(name: &str) -> (i64, Specifier, i64, bool) {
    let (d, c, inferred) = string_to_diatonic_chromatic(name).unwrap();
    (d.generic.directed(), d.specifier, c.semitones, inferred)
}

#[test]
fn interval_names_are_read() {
    assert_eq!(read("M3"), (3, Specifier::Major, 4, false));
    assert_eq!(read("m3"), (3, Specifier::Minor, 3, false));
    assert_eq!(read("p5"), (5, Specifier::Perfect, 7, false));
    assert_eq!(read("-p5"), (-5, Specifier::Perfect, -7, false));
    assert_eq!(read("d2"), (2, Specifier::Diminished, 0, false));
    assert_eq!(read("-d2"), (-2, Specifier::Diminished, 0, false));
    assert_eq!(read("p8"), (8, Specifier::Perfect, 12, false));
    assert_eq!(read("M9"), (9, Specifier::Major, 14, false));
    assert_eq!(read("a4"), (4, Specifier::Augmented, 6, false));
    assert_eq!(read("dd5"), (5, Specifier::DoubleDiminished, 5, false));
    assert_eq!(read("P15"), (15, Specifier::Perfect, 24, false));
    assert_eq!(read("descending M3"), (-3, Specifier::Major, -4, false));
    assert_eq!(read("Ascending p4"), (4, Specifier::Perfect, 5, false));
    assert_eq!(read("half"), (2, Specifier::Minor, 1, true));
    assert_eq!(read("W"), (2, Specifier::Major, 2, true));
    assert_eq!(read("Major Third"), (3, Specifier::Major, 4, false));
    assert_eq!(read("Perfect octave"), (8, Specifier::Perfect, 12, false));
}

#[test]
fn interval_names_that_cannot_be_read() {
    for name in ["", "M", "3", "x3", "M0", "p3", "M5", "major third", "M99999999999999999999"] {
        let err = string_to_diatonic_chromatic(name).unwrap_err();
        assert!(matches!(err, Exception::Interval(_)), "{name}");
    }
    assert!(interval_from_parts("3", "M", 1).is_ok());
    assert!(interval_from_parts("3", "p", 1).is_err());
    assert_eq!(interval_from_parts("6", "m", -1).unwrap().1.semitones, -8);
}

#[test]
fn intervals_from_their_arguments() {
    let third = Interval::new(IntervalArgument::Str("M3".to_string())).unwrap();
    assert!(!third.implicit_diatonic);
    assert_eq!(third.chromatic.semitones, 4);
    assert_eq!(third.generic().directed(), 3);
    let tone = Interval::new(IntervalArgument::Str("whole".to_string())).unwrap();
    assert!(tone.implicit_diatonic);
    let seven = Interval::new(IntervalArgument::Int(7)).unwrap();
    assert!(seven.implicit_diatonic);
    assert_eq!((seven.generic().directed(), seven.diatonic.specifier), (5, Specifier::Perfect));
    let six = Interval::new(IntervalArgument::Int(6)).unwrap();
    assert_eq!((six.generic().directed(), six.diatonic.specifier), (5, Specifier::Diminished));
    let far = Interval::new(IntervalArgument::Int(25)).unwrap();
    assert_eq!((far.generic().directed(), far.diatonic.specifier), (16, Specifier::Minor));
    assert!(Interval::new(IntervalArgument::Int(u64::MAX)).is_err());
    assert!(Interval::new(IntervalArgument::Pitch(Pitch::from_name("C4").unwrap())).is_err());
}

#[test]
fn intervals_between_pitches() {
    let c = Pitch::from_name("C4").unwrap();
    let e = Pitch::from_name("E4").unwrap();
    let up = Interval::between(&c, &e).unwrap();
    assert_eq!((up.generic().directed(), up.diatonic.specifier, up.chromatic.semitones), (3, Specifier::Major, 4));
    let down = up.reverse().unwrap();
    assert_eq!((down.generic().directed(), down.diatonic.specifier, down.chromatic.semitones), (-3, Specifier::Major, -4));
    let unison = Interval::between(&c, &c).unwrap();
    assert_eq!(unison.reverse().unwrap().generic().directed(), 1);
    assert_eq!(unison.chromatic.semitones, 0);
    let d2 = Interval::between(&Pitch::from_name("D##4").unwrap(), &e).unwrap();
    assert_eq!((d2.generic().directed(), d2.diatonic.specifier, d2.chromatic.semitones), (2, Specifier::Diminished, 0));
    let tritone = Interval::between(&Pitch::from_name("F4").unwrap(), &Pitch::from_name("B4").unwrap()).unwrap();
    assert_eq!((tritone.diatonic.specifier, tritone.chromatic.semitones), (Specifier::Augmented, 6));
    let octave = Interval::between(&c, &Pitch::from_name("C5").unwrap()).unwrap();
    assert_eq!((octave.generic().directed(), octave.diatonic.specifier), (8, Specifier::Perfect));
    assert_eq!(octave.generic().simple_undirected(), 1);
    assert_eq!(octave.generic().undirected_octaves(), 1);
    assert!(Interval::between(&Pitch::from_name("C####4").unwrap(), &Pitch::from_name("D----4").unwrap()).is_err());
    let named = Interval::new(IntervalArgument::Str("-m6".to_string())).unwrap();
    let back = named.reverse().unwrap();
    assert_eq!((back.generic().directed(), back.chromatic.semitones), (6, 8));
}

#[test]
fn pitches_move_by_intervals() {
    let c = Pitch::from_name("C4").unwrap();
    let fifth = Interval::new(IntervalArgument::Str("p5".to_string())).unwrap();
    assert_eq!(c.transpose(&fifth).unwrap().name_with_octave(), "G4");
    assert_eq!(fifth.transpose_pitch(&c, true, None).unwrap().name_with_octave(), "F3");
    let b = Pitch::from_name("B4").unwrap();
    assert_eq!(b.transpose(&fifth).unwrap().name_with_octave(), "F#5");
    let aug = Interval::new(IntervalArgument::Str("a1".to_string())).unwrap();
    let mut p = Pitch::from_name("C###4").unwrap();
    p = p.transpose(&aug).unwrap();
    assert_eq!(p.name_with_octave(), "C####4");
    // a fifth sharp gives way to the simplest spelling
    assert_eq!(p.transpose(&aug).unwrap().name_with_octave(), "F4");
    assert!(matches!(aug.transpose_pitch(&p, false, None).unwrap_err(), Exception::Accidental(_)));
    let semis = Interval::new(IntervalArgument::Int(6)).unwrap();
    assert_eq!(c.transpose(&semis).unwrap().name_with_octave(), "F#4");
    let octaveless = Pitch::from_name("A").unwrap();
    assert_eq!(octaveless.transpose(&fifth).unwrap().name_with_octave(), "E");
    let top = Pitch::new(None, None, Some(i64::MAX), None, None, None, None, None).unwrap();
    let octave = Interval::new(IntervalArgument::Str("p8".to_string())).unwrap();
    assert!(matches!(top.transpose(&octave).unwrap_err(), Exception::Pitch(_)));
}

#[test]
fn sizes_and_qualities() {
    let seventh = GenericInterval::from_int(-14).unwrap();
    assert_eq!(seventh.undirected(), 14);
    assert_eq!(seventh.simple_undirected(), 7);
    assert_eq!(seventh.simple_directed(), -7);
    assert_eq!(seventh.undirected_octaves(), 1);
    assert_eq!(seventh.staff_distance(), -13);
    assert_eq!(seventh.direction(), Direction::Descending);
    assert!(!seventh.is_perfectable());
    assert_eq!(seventh.reverse().directed(), 14);
    assert!(GenericInterval::from_int(0).is_err());
    assert!(GenericInterval::from_int(i64::MIN).is_err());
    assert!(GenericInterval::from_int(12).unwrap().is_perfectable());
    assert_eq!(GenericInterval::unison().direction(), Direction::Oblique);
    let mut g = GenericInterval::unison();
    assert!(g.value_setter(0).is_err());
    assert_eq!(g.directed(), 1);
    g.value_setter(-3).unwrap();
    assert_eq!(g.directed(), -3);
    assert_eq!(convert_generic(-5), -5);
    assert_eq!(semitones_generic(5).unwrap(), 7);
    assert!(semitones_generic(8).is_err());
    assert_eq!(Specifier::parse("Double Augmented").unwrap(), Specifier::DoubleAugmented);
    assert!(Specifier::parse("major").is_err());
    assert_eq!(Specifier::Major.semitones_above_perfect(), None);
    assert_eq!(Specifier::Diminished.semitones_above_major(), Some(-2));
    assert_eq!(Specifier::from_semitones_above_major(-1), Some(Specifier::Minor));
    assert_eq!(Specifier::from_semitones_above_perfect(5), None);
    assert_eq!(ChromaticInterval::new(-13).get_diatonic().generic.directed(), -9);
    assert!(ChromaticInterval::new(i64::MIN).reverse().is_err());
    assert_eq!(ChromaticInterval::new(0).direction(), Direction::Oblique);
    assert_eq!(IntervalString::Up.string(), "d2");
    assert_eq!(IntervalString::Down.string(), "-d2");
    assert_eq!(decimal_text(0), "0");
    assert_eq!(decimal_text(22), "22");
    assert_eq!(decimal_text(1905), "1905");
    assert_eq!(signed_decimal_text(-40), "-40");
    assert_eq!(signed_decimal_text(i64::MIN), "-9223372036854775808");
    assert_eq!(signed_decimal_text(7), "7");
}

#[test]
fn a_part_is_found_wherever_it_stands() {
    assert!(contains_text("perfect octave", "octave"));
    assert!(contains_text("perfect octave", "perfect"));
    assert!(contains_text("perfect octave", "t o"));
    assert!(contains_text("aab", "ab"));
    assert!(contains_text("abc", ""));
    assert!(contains_text("", ""));
    assert!(contains_text("dièse", "è"));
    assert!(!contains_text("ab", "abc"));
    assert!(!contains_text("", "a"));
    assert!(!contains_text("perfect octave", "octaves"));
    assert!(!contains_text("abab", "aa"));
}
