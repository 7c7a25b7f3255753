use music21_rs::common::stringtools::get_num_from_str;

#[test]
fn test_basic() {
    let (nums, rest) = get_num_from_str("23a", "0123456789");
    assert_eq!(nums, "23");
    assert_eq!(rest, "a");
}

#[test]
fn test_multiple_numbers() {
    let (nums, rest) = get_num_from_str("23a954Hello", "0123456789");
    assert_eq!(nums, "23954");
    assert_eq!(rest, "aHello");
}

#[test]
fn test_empty_string() {
    let (nums, rest) = get_num_from_str("", "0123456789");
    assert_eq!(nums, "");
    assert_eq!(rest, "");
}

#[test]
fn test_no_numbers() {
    let (nums, rest) = get_num_from_str("Hello", "0123456789");
    assert_eq!(nums, "");
    assert_eq!(rest, "Hello");
}
