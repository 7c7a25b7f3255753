use music21_rs::pitch::pitchclass::{convert_pitch_class_to_str, convert_ps_to_oct, PitchClass};
use music21_rs::pitch::pitchclassstring::PitchClassString;
use std::convert::TryFrom;

#[test]
fn test_positive() {
    assert_eq!(convert_pitch_class_to_str(3), "3");
    assert_eq!(convert_pitch_class_to_str(10), "A");
}

#[test]
fn test_wraparound() {
    assert_eq!(convert_pitch_class_to_str(12), "0");
    assert_eq!(convert_pitch_class_to_str(13), "1");
}

#[test]
fn test_negative() {
    // -1 modulo 12 is 11, so expect "B"
    assert_eq!(convert_pitch_class_to_str(-1), "B");
}

#[test]
fn test_as_char() {
    assert_eq!(PitchClassString::a.as_char(), 'a');
    assert_eq!(PitchClassString::A.as_char(), 'A');
    assert_eq!(PitchClassString::t.as_char(), 't');
    assert_eq!(PitchClassString::T.as_char(), 'T');
    assert_eq!(PitchClassString::b.as_char(), 'b');
    assert_eq!(PitchClassString::B.as_char(), 'B');
    assert_eq!(PitchClassString::e.as_char(), 'e');
    assert_eq!(PitchClassString::E.as_char(), 'E');
}

#[test]
fn test_to_uppercase() {
    assert_eq!(PitchClassString::a.to_uppercase(), PitchClassString::A);
    assert_eq!(PitchClassString::A.to_uppercase(), PitchClassString::A);
    assert_eq!(PitchClassString::t.to_uppercase(), PitchClassString::T);
    assert_eq!(PitchClassString::T.to_uppercase(), PitchClassString::T);
    assert_eq!(PitchClassString::b.to_uppercase(), PitchClassString::B);
    assert_eq!(PitchClassString::B.to_uppercase(), PitchClassString::B);
    assert_eq!(PitchClassString::e.to_uppercase(), PitchClassString::E);
    assert_eq!(PitchClassString::E.to_uppercase(), PitchClassString::E);
}

#[test]
fn test_to_lowercase() {
    assert_eq!(PitchClassString::a.to_lowercase(), PitchClassString::a);
    assert_eq!(PitchClassString::A.to_lowercase(), PitchClassString::a);
    assert_eq!(PitchClassString::t.to_lowercase(), PitchClassString::t);
    assert_eq!(PitchClassString::T.to_lowercase(), PitchClassString::t);
    assert_eq!(PitchClassString::b.to_lowercase(), PitchClassString::b);
    assert_eq!(PitchClassString::B.to_lowercase(), PitchClassString::b);
    assert_eq!(PitchClassString::e.to_lowercase(), PitchClassString::e);
    assert_eq!(PitchClassString::E.to_lowercase(), PitchClassString::e);
}

#[test]
fn pitchclassstring_test_try_from_char() {
    assert_eq!(PitchClassString::try_from('a').unwrap(), PitchClassString::a);
    assert_eq!(PitchClassString::try_from('A').unwrap(), PitchClassString::A);
    assert_eq!(PitchClassString::try_from('t').unwrap(), PitchClassString::t);
    assert_eq!(PitchClassString::try_from('T').unwrap(), PitchClassString::T);
    assert_eq!(PitchClassString::try_from('b').unwrap(), PitchClassString::b);
    assert_eq!(PitchClassString::try_from('B').unwrap(), PitchClassString::B);
    assert_eq!(PitchClassString::try_from('e').unwrap(), PitchClassString::e);
    assert_eq!(PitchClassString::try_from('E').unwrap(), PitchClassString::E);

    // Verify error for an invalid character.
    assert!(PitchClassString::try_from('X').is_err());
}

#[test]
fn letters_stand_for_ten_and_eleven() {
    assert_eq!(PitchClassString::t.to_number(), 10);
    assert_eq!(PitchClassString::E.to_number(), 11);
    assert_eq!(PitchClass::PitchClassString(PitchClassString::b).value(), 11_000_000);
    assert_eq!(PitchClass::Integer(3).value(), 3_000_000);
    assert_eq!(PitchClass::PitchSpace(3_500_000).value(), 3_500_000);
    assert_eq!(convert_pitch_class_to_str(-13), "B");
    assert_eq!(convert_pitch_class_to_str(23), "B");
}

#[test]
fn octave_of_a_pitch_space_value() {
    assert_eq!(convert_ps_to_oct(60_000_000), 4);
    assert_eq!(convert_ps_to_oct(59_999_999), 3);
    assert_eq!(convert_ps_to_oct(0), -1);
    assert_eq!(convert_ps_to_oct(-1), -2);
}
