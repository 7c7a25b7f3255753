use music21_rs::exception::Exception;

#[test]
fn test_display_music21object() {
    let err = Exception::Music21Object("error message".to_string());
    assert_eq!(err.describe(), "Music21Object error: error message");
}

#[test]
fn test_display_chord() {
    let err = Exception::Chord("chord error".to_string());
    assert_eq!(err.describe(), "Chord error: chord error");
}

#[test]
fn test_display_pitch() {
    let err = Exception::Pitch("pitch error".to_string());
    assert_eq!(err.describe(), "Pitch error: pitch error");
}

#[test]
fn test_display_microtone() {
    let err = Exception::Microtone("microtone error".to_string());
    assert_eq!(err.describe(), "Microtone error: microtone error");
}

#[test]
fn test_display_accidental() {
    let err = Exception::Accidental("accidental error".to_string());
    assert_eq!(err.describe(), "Accidental error: accidental error");
}

#[test]
fn test_display_chordtables() {
    let err = Exception::ChordTables("chordtables error".to_string());
    assert_eq!(err.describe(), "ChordTables error: chordtables error");
}

#[test]
fn test_display_interval() {
    let err = Exception::Interval("interval error".to_string());
    assert_eq!(err.describe(), "Interval error: interval error");
}

#[test]
fn test_display_stepname() {
    let err = Exception::StepName("step name error".to_string());
    assert_eq!(err.describe(), "StepName error: step name error");
}

#[test]
fn test_display_pitchclassstring() {
    let err = Exception::PitchClassString("pitch class error".to_string());
    assert_eq!(err.describe(), "PitchClassString error: pitch class error");
}

#[test]
fn test_display_ordinal() {
    let err = Exception::Ordinal("ordinal error".to_string());
    assert_eq!(err.describe(), "Ordinal error: ordinal error");
}

#[test]
fn test_source_none() {
    let exceptions = [
        Exception::Music21Object("music21".to_string()),
        Exception::Chord("chord".to_string()),
        Exception::Pitch("pitch".to_string()),
        Exception::Microtone("microtone".to_string()),
        Exception::Accidental("accidental".to_string()),
        Exception::ChordTables("chordtables".to_string()),
        Exception::Interval("interval".to_string()),
        Exception::StepName("step".to_string()),
        Exception::PitchClassString("pitch class".to_string()),
        Exception::Ordinal("ordinal".to_string()),
    ];

    for err in exceptions.iter() {
        // Ensure that source() returns None for each exception.
        assert!(err.source().is_none(), "Expected None for source() in {err:?}");
    }
}

#[test]
fn test_all_exceptions_display() {
    let cases = [
        (Exception::Music21Object("music21".to_string()), "Music21Object error: music21"),
        (Exception::Chord("chord".to_string()), "Chord error: chord"),
        (Exception::Pitch("pitch".to_string()), "Pitch error: pitch"),
        (Exception::Microtone("microtone".to_string()), "Microtone error: microtone"),
        (Exception::Accidental("accidental".to_string()), "Accidental error: accidental"),
        (Exception::ChordTables("chordtables".to_string()), "ChordTables error: chordtables"),
        (Exception::Interval("interval".to_string()), "Interval error: interval"),
        (Exception::StepName("step".to_string()), "StepName error: step"),
        (
            Exception::PitchClassString("pitchclass".to_string()),
            "PitchClassString error: pitchclass",
        ),
        (Exception::Ordinal("ordinal".to_string()), "Ordinal error: ordinal"),
    ];

    for (err, expected) in cases.iter() {
        assert_eq!(err.describe(), *expected);
        assert!(err.source().is_none());
    }
}

#[test]
fn pitch_class_and_polyrhythm_errors_have_their_own_prefix() {
    assert_eq!(Exception::PitchClass("x".to_string()).describe(), "PitchClass error: x");
    assert_eq!(Exception::Polyrhythm("Tempo not set".to_string()).describe(), "Polyrhythm Tempo not set");
    assert_eq!(Exception::Pitch("msg".to_string()).message(), "msg");
}
