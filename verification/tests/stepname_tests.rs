use music21_rs::exception::Exception;
use music21_rs::stepname::StepName;
use std::convert::TryFrom;

#[test]
fn test_dnn_offset_to_step() {
    // Valid offsets: 0..=6 map to C, D, E, F, G, A, B respectively.
    assert_eq!(StepName::dnn_offset_to_step(0).unwrap(), StepName::C);
    assert_eq!(StepName::dnn_offset_to_step(1).unwrap(), StepName::D);
    assert_eq!(StepName::dnn_offset_to_step(2).unwrap(), StepName::E);
    assert_eq!(StepName::dnn_offset_to_step(3).unwrap(), StepName::F);
    assert_eq!(StepName::dnn_offset_to_step(4).unwrap(), StepName::G);
    assert_eq!(StepName::dnn_offset_to_step(5).unwrap(), StepName::A);
    assert_eq!(StepName::dnn_offset_to_step(6).unwrap(), StepName::B);

    // Invalid offset.
    let err = StepName::dnn_offset_to_step(7).unwrap_err();
    if let Exception::StepName(msg) = err {
        assert!(msg.contains("dnn offset doesn't match step"));
    } else {
        panic!("Unexpected error variant");
    }
}

#[test]
fn test_step_to_dnn_offset() {
    assert_eq!(StepName::C.step_to_dnn_offset(), 1);
    assert_eq!(StepName::D.step_to_dnn_offset(), 2);
    assert_eq!(StepName::E.step_to_dnn_offset(), 3);
    assert_eq!(StepName::F.step_to_dnn_offset(), 4);
    assert_eq!(StepName::G.step_to_dnn_offset(), 5);
    assert_eq!(StepName::A.step_to_dnn_offset(), 6);
    assert_eq!(StepName::B.step_to_dnn_offset(), 7);
}

#[test]
fn test_step_ref() {
    assert_eq!(StepName::C.step_ref(), 0);
    assert_eq!(StepName::D.step_ref(), 2);
    assert_eq!(StepName::E.step_ref(), 4);
    assert_eq!(StepName::F.step_ref(), 5);
    assert_eq!(StepName::G.step_ref(), 7);
    assert_eq!(StepName::A.step_ref(), 9);
    assert_eq!(StepName::B.step_ref(), 11);
}

#[test]
fn test_ref_to_step() {
    assert_eq!(StepName::ref_to_step(0).unwrap(), StepName::C);
    assert_eq!(StepName::ref_to_step(2).unwrap(), StepName::D);
    assert_eq!(StepName::ref_to_step(4).unwrap(), StepName::E);
    assert_eq!(StepName::ref_to_step(5).unwrap(), StepName::F);
    assert_eq!(StepName::ref_to_step(7).unwrap(), StepName::G);
    assert_eq!(StepName::ref_to_step(9).unwrap(), StepName::A);
    assert_eq!(StepName::ref_to_step(11).unwrap(), StepName::B);

    let err = StepName::ref_to_step(1).unwrap_err();
    if let Exception::StepName(msg) = err {
        assert!(msg.contains("ref doesn't match any step"));
    } else {
        panic!("Unexpected error variant");
    }
}

#[test]
fn stepname_test_try_from_char() {
    assert_eq!(StepName::try_from('C').unwrap(), StepName::C);
    assert_eq!(StepName::try_from('d').unwrap(), StepName::D);
    assert_eq!(StepName::try_from('E').unwrap(), StepName::E);
    assert_eq!(StepName::try_from('f').unwrap(), StepName::F);
    assert_eq!(StepName::try_from('G').unwrap(), StepName::G);
    assert_eq!(StepName::try_from('a').unwrap(), StepName::A);
    assert_eq!(StepName::try_from('B').unwrap(), StepName::B);

    let err = StepName::try_from('H').unwrap_err();
    if let Exception::StepName(msg) = err {
        assert!(msg.contains("cannot make StepName out of"));
    } else {
        panic!("Unexpected error variant");
    }
}

#[test]
fn step_from_its_number_on_the_staff() {
    assert_eq!(StepName::try_from(1u8).unwrap(), StepName::C);
    assert_eq!(StepName::try_from(7u8).unwrap(), StepName::B);
    let err = StepName::try_from(8u8).unwrap_err();
    if let Exception::StepName(msg) = err {
        assert_eq!(msg, "Invalid value for StepName: 8");
    } else {
        panic!("Unexpected error variant");
    }
    assert!(StepName::try_from(0u8).is_err());
}
