use crate::common::stringtools::{
    chars_between, chars_remaining, contains_char, digit_value, digits_value, is_digit,
    is_number, parse_number, signed_decimal_text, split_chars, str_to_chars,
};
use crate::defaults::IntegerType;
use crate::exception::{Exception, ExceptionResult};
use vstd::prelude::*;
use vstd::string::*;

verus! {

/// Millionths of a semitone in one cent.
pub const CENT: IntegerType = 10_000;

/// A shift of pitch smaller than the accidentals can say, kept in millionths
/// of a semitone: one cent is 10 000 of them.
#[derive(Debug, PartialEq, Eq, Clone, Copy, Structural)]
pub struct Microtone {
    pub cent_shift: i32,
}

impl Microtone {
    /// The alteration that the microtone adds, in millionths of a semitone.
    pub open spec fn alter_spec(&self) -> int {
        self.cent_shift as int
    }

    /// The microtone of a whole number of cents; `None` is no shift at all.
    /// A shift that the microtone cannot hold is an error.
    pub fn new(cents: Option<IntegerType>) -> (r: ExceptionResult<Self>)
        ensures
            cents is None ==> r is Ok && r->Ok_0.alter_spec() == 0,
            cents is Some ==> (r is Ok <==> i32::MIN <= cents->Some_0 * CENT <= i32::MAX),
            cents is Some && r is Ok ==> r->Ok_0.alter_spec() == cents->Some_0 * CENT,
            r is Err ==> r->Err_0 is Microtone,
    {
        match cents {
            None => Ok(Microtone { cent_shift: 0 }),
            Some(c) => {
                if -214_748 <= c && c <= 214_748 {
                    Microtone::from_alter(c * CENT)
                } else {
                    Err(
                        Exception::Microtone(
                            String::from_str("a microtone cannot hold so many cents: ").concat(
                                signed_decimal_text(c).as_str(),
                            ),
                        ),
                    )
                }
            },
        }
    }

    /// The microtone that adds a given alteration, in millionths of a semitone.
    pub fn from_alter(alter: IntegerType) -> (r: ExceptionResult<Self>)
        ensures
            r is Ok <==> i32::MIN <= alter <= i32::MAX,
            r is Ok ==> r->Ok_0.alter_spec() == alter,
            r is Err ==> r->Err_0 is Microtone,
    {
        if -2_147_483_648 <= alter && alter <= 2_147_483_647 {
            Ok(Microtone { cent_shift: alter as i32 })
        } else {
            Err(
                Exception::Microtone(
                    String::from_str("a microtone cannot hold so large a shift: ").concat(
                        signed_decimal_text(alter).as_str(),
                    ),
                ),
            )
        }
    }

    /// The alteration that the microtone adds, in millionths of a semitone.
    pub fn alter(&self) -> (alter: IntegerType)
        ensures
            alter == self.alter_spec(),
    {
        self.cent_shift as IntegerType
    }

    /// The whole cents of the shift, rounded towards zero.
    pub fn cents(&self) -> (cents: IntegerType)
        ensures
            self.alter_spec() >= 0 ==> cents == self.alter_spec() / CENT as int,
            self.alter_spec() < 0 ==> cents == -((-self.alter_spec()) / CENT as int),
    {
        (self.cent_shift as IntegerType) / CENT
    }
}

/// The place of the first point in a text, or the length of the text where
/// it holds none.
pub open spec fn first_point(text: Seq<char>) -> int
    decreases text.len(),
{
    if text.len() == 0 {
        0
    } else if text[0] == '.' {
        0
    } else {
        1 + first_point(text.drop_first())
    }
}

/// The first four digits after the point as ten-thousandths: digits that
/// are missing count as 0, and digits beyond the fourth are left out.
pub open spec fn ten_thousandths(digits: Seq<char>, places: int) -> int
    decreases places,
{
    if places <= 0 || digits.len() == 0 {
        0
    } else if places == 1 {
        digit_value(digits[0])
    } else if places == 2 {
        digit_value(digits[0]) * 10 + ten_thousandths(digits.drop_first(), 1)
    } else if places == 3 {
        digit_value(digits[0]) * 100 + ten_thousandths(digits.drop_first(), 2)
    } else {
        digit_value(digits[0]) * 1000 + ten_thousandths(digits.drop_first(), 3)
    }
}

/// Whether a text is made of digits alone; it may be empty.
pub open spec fn all_digits(text: Seq<char>) -> bool {
    forall|i: int| 0 <= i < text.len() ==> is_digit(#[trigger] text[i])
}

/// The cents that a decimal number writes, in ten-thousandths of a cent:
/// digits, with at most one point among them. `None` where the text is no
/// such number or the number does not fit.
pub open spec fn decimal_cents(text: Seq<char>) -> Option<int> {
    let point = first_point(text);
    let whole = text.subrange(0, point);
    let part = if point < text.len() {
        text.subrange(point + 1, text.len() as int)
    } else {
        Seq::<char>::empty()
    };
    if all_digits(whole) && all_digits(part) && whole.len() + part.len() > 0 && digits_value(whole)
        * 10_000 + ten_thousandths(part, 4) <= IntegerType::MAX {
        Some(digits_value(whole) * 10_000 + ten_thousandths(part, 4))
    } else {
        None
    }
}

/// What is left of a text when its brackets are taken out.
pub open spec fn without_brackets(text: Seq<char>) -> Seq<char> {
    chars_remaining(text, seq!['(', ')'])
}

/// The shift that a text names, in ten-thousandths of a cent: a number,
/// with a sign or without one; a text that begins with anything else names
/// no shift at all. Brackets do not count, and of what follows the sign
/// only the digits and the point are read. `None` where there is no number
/// to read.
pub open spec fn parsed_cents(value: Seq<char>) -> Option<int> {
    let text = without_brackets(value);
    if text.len() == 0 {
        None
    } else if text[0] == '+' || is_digit(text[0]) {
        decimal_cents(crate::common::stringtools::chars_found(text, NUMBER_CHARS@))
    } else if text[0] == '-' {
        match decimal_cents(
            crate::common::stringtools::chars_found(text.drop_first(), NUMBER_CHARS@),
        ) {
            Some(cents) => Some(-cents),
            None => None,
        }
    } else {
        Some(0)
    }
}

/// The characters that a number is written with.
pub const NUMBER_CHARS: &'static str = "0123456789.";

/// The place of the first point in a text, or the length of the text where
/// it holds none.
pub fn find_first_point(text: &Vec<char>) -> (place: usize)
    ensures
        place == first_point(text@),
        place <= text@.len(),
{
    let mut i: usize = 0;
    assert(text@.skip(0) == text@);
    while i < text.len()
        invariant
            i <= text.len(),
            first_point(text@) == i + first_point(text@.skip(i as int)),
        decreases text.len() - i,
    {
        assert(text@.skip(i as int)[0] == text@[i as int]);
        if text[i] == '.' {
            return i;
        }
        proof {
            assert(text@.skip(i as int).drop_first() == text@.skip(i + 1));
        }
        i = i + 1;
    }
    assert(text@.skip(text@.len() as int).len() == 0);
    i
}

/// Whether a text is made of digits alone.
pub fn is_all_digits(text: &Vec<char>) -> (all: bool)
    ensures
        all == all_digits(text@),
{
    let mut i: usize = 0;
    while i < text.len()
        invariant
            i <= text.len(),
            forall|j: int| 0 <= j < i ==> is_digit(#[trigger] text@[j]),
        decreases text.len() - i,
    {
        if !crate::common::stringtools::char_is_digit(text[i]) {
            return false;
        }
        i = i + 1;
    }
    true
}

/// The first four digits after the point as ten-thousandths.
pub fn read_ten_thousandths(digits: &Vec<char>) -> (value: IntegerType)
    requires
        all_digits(digits@),
    ensures
        value == ten_thousandths(digits@, 4),
        0 <= value <= 9_999,
{
    let mut value: IntegerType = 0;
    let mut weight: IntegerType = 1000;
    let mut i: usize = 0;
    assert(digits@.skip(0) == digits@);
    while i < 4 && i < digits.len()
        invariant
            i <= 4,
            i <= digits.len(),
            all_digits(digits@),
            weight == (if i == 0 {
                1000int
            } else if i == 1 {
                100int
            } else if i == 2 {
                10int
            } else if i == 3 {
                1int
            } else {
                0int
            }),
            0 <= value,
            value <= 9_999 - (if weight > 0 {
                10 * weight - 1
            } else {
                0
            }),
            value + ten_thousandths(digits@.skip(i as int), 4 - i) == ten_thousandths(digits@, 4),
        decreases 4 - i,
    {
        let c = digits[i];
        assert(is_digit(digits@[i as int]));
        assert(digits@.skip(i as int)[0] == c);
        assert(digits@.skip(i as int).drop_first() == digits@.skip(i + 1));
        let digit = (c as u32 - '0' as u32) as IntegerType;
        value = value + digit * weight;
        weight = weight / 10;
        i = i + 1;
    }
    assert(ten_thousandths(digits@.skip(i as int), 4 - i) == 0);
    value
}

/// The cents that a decimal number writes, in ten-thousandths of a cent.
pub fn parse_decimal_cents(text: &Vec<char>) -> (cents: Option<IntegerType>)
    ensures
        cents is Some <==> decimal_cents(text@) is Some,
        cents is Some ==> Some(cents->Some_0 as int) == decimal_cents(text@),
        cents is Some ==> cents->Some_0 >= 0,
{
    let point = find_first_point(text);
    let whole = chars_between(text, 0, point);
    let part = if point < text.len() {
        chars_between(text, point + 1, text.len())
    } else {
        Vec::new()
    };
    if !is_all_digits(&whole) || !is_all_digits(&part) || whole.len() + part.len() == 0 {
        return None;
    }
    let fraction = read_ten_thousandths(&part);
    proof {
        crate::common::stringtools::lemma_digits_not_negative(whole@);
    }
    let whole_cents: IntegerType = if whole.len() == 0 {
        0
    } else {
        match parse_number(&whole) {
            Some(value) => value,
            None => {
                return None;
            },
        }
    };
    if whole_cents > (IntegerType::MAX - fraction) / 10_000 {
        return None;
    }
    Some(whole_cents * 10_000 + fraction)
}

impl Microtone {
    /// Reads the shift that a text names, in ten-thousandths of a cent.
    pub fn parse_string(value: &str) -> (r: ExceptionResult<IntegerType>)
        ensures
            r is Ok <==> parsed_cents(value@) is Some,
            r is Ok ==> Some(r->Ok_0 as int) == parsed_cents(value@),
            r is Err ==> r->Err_0 is Microtone,
    {
        let given = str_to_chars(value);
        let mut brackets: Vec<char> = Vec::new();
        brackets.push('(');
        brackets.push(')');
        assert(brackets@ == seq!['(', ')']);
        let (_, text) = split_chars(&given, &brackets);
        if text.len() == 0 {
            return Err(
                Exception::Microtone(
                    String::from_str("input to Microtone was empty: ").concat(value),
                ),
            );
        }
        let first = text[0];
        let numbers = str_to_chars(NUMBER_CHARS);
        let cent_value = if first == '+' || crate::common::stringtools::char_is_digit(first) {
            let (num, _) = split_chars(&text, &numbers);
            match parse_decimal_cents(&num) {
                Some(cents) => cents,
                None => {
                    return Err(
                        Exception::Microtone(
                            String::from_str("no number found in string value: ").concat(value),
                        ),
                    );
                },
            }
        } else if first == '-' {
            let trimmed = chars_between(&text, 1, text.len());
            assert(trimmed@ == text@.drop_first());
            let (num, _) = split_chars(&trimmed, &numbers);
            match parse_decimal_cents(&num) {
                Some(cents) => -cents,
                None => {
                    return Err(
                        Exception::Microtone(
                            String::from_str("no number found in string value: ").concat(value),
                        ),
                    );
                },
            }
        } else {
            0
        };
        Ok(cent_value)
    }

    /// The microtone that a text names.
    pub fn from_string(value: &str) -> (r: ExceptionResult<Self>)
        ensures
            r is Ok <==> parsed_cents(value@) is Some && i32::MIN <= parsed_cents(value@)->Some_0
                <= i32::MAX,
            r is Ok ==> Some(r->Ok_0.alter_spec()) == parsed_cents(value@),
            r is Err ==> r->Err_0 is Microtone,
    {
        match Microtone::parse_string(value) {
            Ok(cents) => Microtone::from_alter(cents),
            Err(e) => Err(e),
        }
    }
}

} // verus!
