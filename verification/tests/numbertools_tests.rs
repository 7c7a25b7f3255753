use music21_rs::common::numbertools::{
    musical_ordinal_strings, ordinal_strings, MusicOrdinals, Ordinal,
};
use music21_rs::exception::Exception;
use std::convert::TryFrom;

// Tests for Ordinal
#[test]
fn test_ordinal_try_from_integer_valid() {
    let cases = [
        (0, Ordinal::Zeroth),
        (1, Ordinal::First),
        (2, Ordinal::Second),
        (22, Ordinal::TwentySecond),
    ];
    for (input, expected) in cases {
        let ordinal = Ordinal::try_from(input).unwrap();
        assert_eq!(ordinal, expected);
    }
}

#[test]
fn test_ordinal_try_from_integer_invalid() {
    let result = Ordinal::try_from(23);
    assert!(result.is_err());
    if let Err(Exception::Ordinal(msg)) = result {
        assert!(msg.contains("Invalid Ordinal value: 23"));
    } else {
        panic!("Expected Exception::Ordinal error");
    }
}

#[test]
fn test_ordinal_try_from_str_valid() {
    let cases = [
        ("zeroth", Ordinal::Zeroth),
        ("First", Ordinal::First),
        ("SECOND", Ordinal::Second),
        ("twenty-first", Ordinal::TwentyFirst),
        ("Twenty-Second", Ordinal::TwentySecond),
    ];
    for (input, expected) in cases {
        let ordinal = Ordinal::try_from(input).unwrap();
        assert_eq!(ordinal, expected);
    }
}

#[test]
fn test_ordinal_try_from_str_invalid() {
    let result = Ordinal::try_from("invalid");
    assert!(result.is_err());
    if let Err(Exception::Ordinal(msg)) = result {
        assert!(msg.contains("Invalid Ordinal string: invalid"));
    } else {
        panic!("Expected Exception::Ordinal error");
    }
}

#[test]
fn test_ordinal_display() {
    let ordinal = Ordinal::TwentyFirst;
    assert_eq!(ordinal.name().to_string(), "Twenty-first");
}

#[test]
fn test_music_ordinal_try_from_integer_valid() {
    let cases = [
        (0, MusicOrdinals::Zeroth),
        (1, MusicOrdinals::Unison),
        (2, MusicOrdinals::Second),
        (8, MusicOrdinals::Octave),
        (15, MusicOrdinals::DoubleOctave),
        (22, MusicOrdinals::TripleOctave),
    ];
    for (input, expected) in cases {
        let ordinal = MusicOrdinals::try_from(input).unwrap();
        assert_eq!(ordinal, expected);
    }
}

#[test]
fn test_music_ordinal_try_from_integer_invalid() {
    let result = MusicOrdinals::try_from(23);
    assert!(result.is_err());
    if let Err(Exception::Ordinal(msg)) = result {
        assert!(msg.contains("Invalid MusicOrdinals value: 23"));
    } else {
        panic!("Expected Exception::Ordinal error");
    }
}

#[test]
fn test_music_ordinal_try_from_str_valid() {
    let cases = [
        ("zeroth", MusicOrdinals::Zeroth),
        ("Unison", MusicOrdinals::Unison),
        ("SECOND", MusicOrdinals::Second),
        ("octave", MusicOrdinals::Octave),
        ("double-octave", MusicOrdinals::DoubleOctave),
        ("triple-octave", MusicOrdinals::TripleOctave),
    ];
    for (input, expected) in cases {
        let ordinal = MusicOrdinals::try_from(input).unwrap();
        assert_eq!(ordinal, expected);
    }
}

#[test]
fn test_music_ordinal_try_from_str_invalid() {
    let result = MusicOrdinals::try_from("invalid");
    assert!(result.is_err());
    if let Err(Exception::Ordinal(msg)) = result {
        assert!(msg.contains("Invalid MusicOrdinals string: invalid"));
    } else {
        panic!("Expected Exception::Ordinal error");
    }
}

#[test]
fn test_music_ordinal_display() {
    let ordinal = MusicOrdinals::TwentyFirst;
    assert_eq!(ordinal.name().to_string(), "Twenty-first");
}

#[test]
fn test_static_arrays() {
    let ordinal_strings: Vec<_> = ordinal_strings().iter().cloned().collect();
    assert_eq!(ordinal_strings[0], "Zeroth");
    assert_eq!(ordinal_strings[1], "First");
    assert_eq!(ordinal_strings[22], "Twenty-second");

    let musical_strings: Vec<_> = musical_ordinal_strings().iter().cloned().collect();
    assert_eq!(musical_strings[0], "Zeroth");
    assert_eq!(musical_strings[1], "Unison");
    assert_eq!(musical_strings[8], "Octave");
    assert_eq!(musical_strings[15], "Double-octave");
    assert_eq!(musical_strings[22], "Triple-octave");
}

#[test]
fn ordinals_of_music_do_not_name_the_plain_ones() {
    assert!(MusicOrdinals::try_from("first").is_err());
    assert!(MusicOrdinals::try_from("eighth").is_err());
    assert!(Ordinal::try_from("octave").is_err());
    assert_eq!(ordinal_strings().len(), 23);
}
