use music21_rs::exception::Exception;
use music21_rs::pitch::microtone::{parse_decimal_cents, Microtone};

#[test]
fn cents_are_read_with_and_without_sign() {
    assert_eq!(Microtone::parse_string("(+25c)").unwrap(), 250_000);
    assert_eq!(Microtone::parse_string("25").unwrap(), 250_000);
    assert_eq!(Microtone::parse_string("-12.5c").unwrap(), -125_000);
    assert_eq!(Microtone::parse_string("+0.12345").unwrap(), 1_234);
    assert_eq!(Microtone::parse_string("(-.5)").unwrap(), -5_000);
    assert_eq!(Microtone::parse_string("7.").unwrap(), 70_000);
    assert_eq!(Microtone::parse_string("c25").unwrap(), 0);
    assert_eq!(Microtone::parse_string("+1c2").unwrap(), 120_000);
}

#[test]
fn what_is_no_number_is_an_error() {
    for text in ["", "()", "+", "-", "+c", "-.", "1.2.3", "+999999999999999999999"] {
        let err = Microtone::parse_string(text).unwrap_err();
        assert!(matches!(err, Exception::Microtone(_)), "{text}");
    }
    assert_eq!(
        Microtone::parse_string("()").unwrap_err().describe(),
        "Microtone error: input to Microtone was empty: ()"
    );
}

#[test]
fn microtones_hold_what_fits() {
    let m = Microtone::from_string("(+20c)").unwrap();
    assert_eq!(m.alter(), 200_000);
    assert_eq!(m.cents(), 20);
    assert_eq!(Microtone::new(None).unwrap().alter(), 0);
    assert_eq!(Microtone::new(Some(-50)).unwrap().cents(), -50);
    assert_eq!(Microtone::from_alter(-15_000).unwrap().cents(), -1);
    assert!(Microtone::new(Some(214_749)).is_err());
    assert!(Microtone::new(Some(214_748)).is_ok());
    assert!(Microtone::from_alter(2_147_483_648).is_err());
    assert!(Microtone::from_string("300000").is_err());
    assert_eq!(parse_decimal_cents(&"12.34567".chars().collect()), Some(123_456));
    assert_eq!(parse_decimal_cents(&".".chars().collect()), None);
}
