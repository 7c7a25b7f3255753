use music21_rs::interval::direction::Direction;
use music21_rs::interval::specifier::Specifier;

#[test]
fn test_direction_int() {
    assert_eq!(Direction::Descending.as_int(), -1);
    assert_eq!(Direction::Oblique.as_int(), 0);
    assert_eq!(Direction::Ascending.as_int(), 1);
}

#[test]
fn test_direction_term() {
    assert_eq!(Direction::Descending.term(), "Descending");
    assert_eq!(Direction::Oblique.term(), "Oblique");
    assert_eq!(Direction::Ascending.term(), "Ascending");
}

#[test]
fn test_specifier_nice_name() {
    assert_eq!(Specifier::Perfect.nice_name(), "Perfect");
    assert_eq!(Specifier::Major.nice_name(), "Major");
    assert_eq!(Specifier::Minor.nice_name(), "Minor");
    assert_eq!(Specifier::Augmented.nice_name(), "Augmented");
    assert_eq!(Specifier::Diminished.nice_name(), "Diminished");
    assert_eq!(Specifier::DoubleAugmented.nice_name(), "Double Augmented");
    assert_eq!(Specifier::DoubleDiminished.nice_name(), "Double Diminished");
    assert_eq!(Specifier::TripleAugmented.nice_name(), "Triple Augmented");
    assert_eq!(Specifier::TripleDiminished.nice_name(), "Triple Diminished");
    assert_eq!(Specifier::QuadrupleAugmented.nice_name(), "Quadruple Augmented");
    assert_eq!(Specifier::QuadrupleDiminished.nice_name(), "Quadruple Diminished");
}
