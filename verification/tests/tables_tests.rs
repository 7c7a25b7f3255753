use music21_rs::chord::tables::{ChordTableAddress, Sign};

#[test]
fn test() {
    for i in 1..12 {
        println!("{}", i);
    }
}

#[test]
fn address_keeps_what_it_is_given() {
    let address = ChordTableAddress::new(3, 11, -1, Some(4));
    assert_eq!(address.cardinality, 3);
    assert_eq!(address.forte_class, 11);
    assert_eq!(address.inversion, -1);
    assert_eq!(address.pc_original, Some(4));
}

#[test]
fn signs_of_inversions() {
    assert_eq!(Sign::from_i8(0), Some(Sign::Zero));
    assert_eq!(Sign::from_i8(1), Some(Sign::One));
    assert_eq!(Sign::from_i8(-1), Some(Sign::NegativeOne));
    assert_eq!(Sign::from_i8(2), None);
    assert_eq!(Sign::NegativeOne.as_i8(), -1);
}
