use music21_rs::pitch::accidental::{Accidental, AccidentalEnum};

#[test]
fn test_natural() {
    let acc = Accidental::natural();
    assert_eq!(acc.name(), "natural");
    assert_eq!(acc.alter() as f64 / 1e6, 0.0);
    assert_eq!(acc.modifier(), "");
}

#[test]
fn test_sharp() {
    let acc = Accidental::sharp();
    assert_eq!(acc.name(), "sharp");
    assert_eq!(acc.alter() as f64 / 1e6, 1.0);
    assert_eq!(acc.modifier(), "#");
}

#[test]
fn test_flat() {
    let acc = Accidental::flat();
    assert_eq!(acc.name(), "flat");
    assert_eq!(acc.alter() as f64 / 1e6, -1.0);
    assert_eq!(acc.modifier(), "-");
}

#[test]
fn test_creation_from_int() {
    let acc_sharp = Accidental::from_int(1).unwrap();
    assert_eq!(acc_sharp.name(), "sharp");
    assert_eq!(acc_sharp.alter() as f64 / 1e6, 1.0);

    let acc_flat = Accidental::from_int(-1).unwrap();
    assert_eq!(acc_flat.name(), "flat");
    assert_eq!(acc_flat.alter() as f64 / 1e6, -1.0);

    let acc_natural = Accidental::from_int(0).unwrap();
    assert_eq!(acc_natural.name(), "natural");
    assert_eq!(acc_natural.alter() as f64 / 1e6, 0.0);
}

#[test]
fn test_creation_from_float() {
    let acc_double_sharp: Accidental = Accidental::from_alter((2.0 * 1e6) as i64).unwrap();
    assert_eq!(acc_double_sharp.name(), "double-sharp");
    assert_eq!(acc_double_sharp.alter() as f64 / 1e6, 2.0);

    let acc_half_flat: Accidental = Accidental::from_alter((-0.5 * 1e6) as i64).unwrap();
    assert_eq!(acc_half_flat.name(), "half-flat");
    assert_eq!(acc_half_flat.alter() as f64 / 1e6, -0.5);
}

#[test]
fn test_creation_from_str() {
    let acc1: Accidental = Accidental::new("sharp").unwrap();
    assert_eq!(acc1.name(), "sharp");
    assert_eq!(acc1.alter() as f64 / 1e6, 1.0);

    // Case insensitivity: "Flat" should be accepted as "flat"
    let acc2: Accidental = Accidental::new("Flat").unwrap();
    assert_eq!(acc2.name(), "flat");
    assert_eq!(acc2.alter() as f64 / 1e6, -1.0);
}

#[test]
fn test_creation_from_string() {
    let acc: Accidental = Accidental::new("double-flat".to_string().as_str()).unwrap();
    assert_eq!(acc.name(), "double-flat");
    assert_eq!(acc.alter() as f64 / 1e6, -2.0);
}

#[test]
fn test_invalid_accidental() {
    let result = Accidental::new("invalid");
    assert!(result.is_err(), "An invalid accidental should return an error");
}

#[test]
fn test_display_trait() {
    let acc = Accidental::sharp();
    assert_eq!(acc.name().to_string(), "sharp");
}

#[test]
fn test_equality() {
    let acc1 = Accidental::sharp();
    let acc2 = Accidental::sharp();
    let acc3 = Accidental::flat();
    assert_eq!(acc1, acc2);
    assert_ne!(acc1, acc3);
}

#[test]
fn test_alternate_names() {
    // Using alternate names from AccidentalEnum::from_alternate_name
    let acc_sharp: Accidental = Accidental::new("is").unwrap();
    assert_eq!(acc_sharp.name(), "sharp");
    assert_eq!(acc_sharp.alter() as f64 / 1e6, 1.0);

    let acc_double_sharp: Accidental = Accidental::new("isis").unwrap();
    assert_eq!(acc_double_sharp.name(), "double-sharp");
    assert_eq!(acc_double_sharp.alter() as f64 / 1e6, 2.0);

    let acc_triple_sharp: Accidental = Accidental::new("isisis").unwrap();
    assert_eq!(acc_triple_sharp.name(), "triple-sharp");
    assert_eq!(acc_triple_sharp.alter() as f64 / 1e6, 3.0);

    let acc_double_flat: Accidental = Accidental::new("eses").unwrap();
    assert_eq!(acc_double_flat.name(), "double-flat");
    assert_eq!(acc_double_flat.alter() as f64 / 1e6, -2.0);
}

#[test]
fn accidental_error_names_the_text_as_given() {
    let err = Accidental::new("Invalid").unwrap_err();
    assert_eq!(err.describe(), "Accidental error: Invalid is not a supported accidental type");
    assert!(Accidental::from_int(5).is_err());
    assert!(Accidental::from_alter(2_500_000).is_err());
}

#[test]
fn accidental_tables_read_both_ways() {
    assert_eq!(AccidentalEnum::from_modifier("#~"), Some(AccidentalEnum::OneAndAHalfSharp));
    assert_eq!(AccidentalEnum::from_alter_str("-1.5"), Some(AccidentalEnum::OneAndAHalfFlat));
    assert_eq!(AccidentalEnum::from_unicode("\u{266d}"), Some(AccidentalEnum::TripleFlat));
    assert_eq!(AccidentalEnum::from_unicode("\u{1d132}"), Some(AccidentalEnum::HalfSharp));
    assert_eq!(AccidentalEnum::from_string("sesquiflat"), Some(AccidentalEnum::OneAndAHalfFlat));
    assert_eq!(AccidentalEnum::QuadrupleSharp.to_unicode(), "\u{1d12a}\u{1d12a}");
    assert_eq!(AccidentalEnum::HalfFlat.to_alter_str(), "-0.5");
    assert_eq!(AccidentalEnum::from_string("h"), None);
    let mut acc = Accidental::natural();
    assert!(acc.set("SHARP").is_ok());
    assert_eq!(acc, Accidental::sharp());
    assert!(acc.set("nothing").is_err());
    assert_eq!(acc, Accidental::sharp());
}
