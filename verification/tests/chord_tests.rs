use music21_rs::chord::{split_names, Chord, ChordNotes};
use music21_rs::duration::Duration;
use music21_rs::exception::Exception;
use music21_rs::key::keysignature::KeySignature;
use music21_rs::key::{Key, Mode};
use music21_rs::note::Note;
use music21_rs::pitch::Pitch;

fn names(chord: &Chord) -> Vec<String> {
    chord.pitches().iter().map(|p| p.name_with_octave()).collect()
}

#[test]
fn chords_are_made_of_names() {
    let chord = Chord::new(Some(ChordNotes::Names("C E G".to_string()))).unwrap();
    assert_eq!(names(&chord), vec!["C", "E", "G"]);
    let spelled = Chord::new(Some(ChordNotes::Names("C4 D##4 G4".to_string()))).unwrap();
    assert_eq!(names(&spelled), vec!["C4", "E4", "G4"]);
    let empty = Chord::new(None).unwrap();
    assert!(empty.pitches().is_empty());
    assert_eq!(empty.duration(), None);
}

#[test]
fn chords_are_made_of_pitches_and_notes() {
    let pitches = vec![Pitch::from_name("F#4").unwrap(), Pitch::from_name("A#4").unwrap()];
    let chord = Chord::new(Some(ChordNotes::Pitches(pitches.clone()))).unwrap();
    assert_eq!(chord.pitches(), pitches);
    let note = Note::new(Some(pitches[0]), Some(Duration::new()), None, None).unwrap();
    let from_notes = Chord::new(Some(ChordNotes::Notes(vec![note]))).unwrap();
    assert_eq!(from_notes.duration(), Some(Duration::new()));
    assert_eq!(from_notes.pitches(), vec![pitches[0]]);
}

#[test]
fn what_cannot_be_read_or_respelled_is_an_error() {
    let unread = Chord::new(Some(ChordNotes::Names("C  E".to_string()))).unwrap_err();
    assert!(matches!(unread, Exception::Pitch(_)));
    let unnamed = Chord::new(Some(ChordNotes::Names("C H".to_string()))).unwrap_err();
    assert!(matches!(unnamed, Exception::StepName(_)));
    let far = Chord::new(Some(ChordNotes::Names("C####4 D----4".to_string()))).unwrap_err();
    assert!(matches!(far, Exception::Chord(_)));
    assert!(far.describe().starts_with(
        "Chord error: simplifying multiple enharmonics failed because of Interval error: "
    ));
}

#[test]
fn chords_respell_in_a_key() {
    let mut chord = Chord::new(Some(ChordNotes::Names("D#4".to_string()))).unwrap();
    assert_eq!(names(&chord), vec!["D#4"]);
    chord.simplify_enharmonics_in_place(Some(KeySignature::new(-3))).unwrap();
    assert_eq!(names(&chord), vec!["E-4"]);
    let failed = chord.simplify_enharmonics_in_place(Some(KeySignature::new(-40)));
    assert!(matches!(failed.unwrap_err(), Exception::Chord(_)));
    assert_eq!(names(&chord), vec!["E-4"]);
}

#[test]
fn names_split_at_every_space() {
    assert_eq!(split_names("C E G"), vec!["C", "E", "G"]);
    assert_eq!(split_names(""), vec![""]);
    assert_eq!(split_names(" a  b "), vec!["", "a", "", "b", ""]);
}

#[test]
fn notes_take_a_pitch_or_a_name() {
    let default = Note::new(None, None, None, None).unwrap();
    assert_eq!(default.pitch.name_with_octave(), "C4");
    let named = Note::new(None, None, Some("E-".to_string()), None).unwrap();
    assert_eq!(named.pitch.name_with_octave(), "E-");
    let with_octave =
        Note::new(None, None, Some("E-".to_string()), Some("F#3".to_string())).unwrap();
    assert_eq!(with_octave.pitch.name_with_octave(), "F#3");
    assert!(Note::new(None, None, Some("3".to_string()), None).is_err());
    let mut note = named;
    assert_eq!(*note.duration(), None);
    note.set_duration(&Duration::new());
    assert_eq!(*note.duration(), Some(Duration::new()));
}

#[test]
fn tonics_of_keys() {
    let tonic = |sharps: i64, mode: &str| {
        KeySignature::new(sharps).as_key(mode).tonic().map(|p| p.name_with_octave())
    };
    assert_eq!(tonic(0, "major").unwrap(), "C");
    assert_eq!(tonic(1, "major").unwrap(), "G");
    assert_eq!(tonic(-1, "major").unwrap(), "F");
    assert_eq!(tonic(-3, "major").unwrap(), "E-");
    assert_eq!(tonic(7, "major").unwrap(), "C#");
    assert_eq!(tonic(0, "minor").unwrap(), "A");
    assert_eq!(tonic(-3, "minor").unwrap(), "C");
    assert_eq!(tonic(4, "dorian").unwrap(), "E");
    assert_eq!(tonic(33, "major").unwrap(), "B####");
    assert_eq!(tonic(-29, "major").unwrap(), "F----");
    assert!(matches!(tonic(34, "major").unwrap_err(), Exception::Accidental(_)));
    assert!(tonic(-30, "major").is_err());
    assert!(tonic(i64::MAX, "minor").is_err());
    assert_eq!(KeySignature::new(2).as_key("minor"), Key { sharps: 2, mode: Mode::Minor });
}
