use vstd::prelude::*;
use vstd::string::*;

verus! {

/// What `str::to_lowercase` makes of a text.
pub uninterp spec fn lowercase_of(text: Seq<char>) -> Seq<char>;

/// Calls `str::to_lowercase`: the text in lower case, as Unicode defines it.
#[verifier::external_body]
pub(crate) fn to_lowercase(text: &str) -> (lower: String)
    ensures
        lower@ == lowercase_of(text@),
{
    text.to_lowercase()
}

/// Calls `String::from_iter` on the characters of a vector: the text that
/// holds these characters in this order.
#[verifier::external_body]
pub(crate) fn string_from_chars(chars: &Vec<char>) -> (text: String)
    ensures
        text@ == chars@,
{
    String::from_iter(chars.iter())
}

/// The characters of a text, in order.
pub fn str_to_chars(text: &str) -> (chars: Vec<char>)
    ensures
        chars@ == text@,
{
    let n = text.unicode_len();
    let mut chars: Vec<char> = Vec::new();
    let mut i: usize = 0;
    while i < n
        invariant
            n == text@.len(),
            i <= n,
            chars@ == text@.take(i as int),
        decreases n - i,
    {
        let c = text.get_char(i);
        chars.push(c);
        assert(text@.take(i as int).push(c) == text@.take(i + 1));
        i = i + 1;
    }
    assert(text@.take(n as int) == text@);
    chars
}

/// Whether two texts hold the same characters.
pub fn str_eq(a: &str, b: &str) -> (same: bool)
    ensures
        same == (a@ == b@),
{
    String::from_str(a) == String::from_str(b)
}

/// Whether `c` occurs in `chars`.
pub fn contains_char(chars: &Vec<char>, c: char) -> (found: bool)
    ensures
        found == chars@.contains(c),
{
    let mut i: usize = 0;
    while i < chars.len()
        invariant
            i <= chars.len(),
            !chars@.take(i as int).contains(c),
        decreases chars.len() - i,
    {
        if chars[i] == c {
            return true;
        }
        assert(chars@.take(i as int).push(chars@[i as int]) == chars@.take(i + 1));
        i = i + 1;
    }
    assert(chars@.take(chars.len() as int) == chars@);
    false
}

/// The characters of `text` that occur in `numbers`, in their order.
pub open spec fn chars_found(text: Seq<char>, numbers: Seq<char>) -> Seq<char> {
    text.filter(|c: char| numbers.contains(c))
}

/// The characters of `text` that do not occur in `numbers`, in their order.
pub open spec fn chars_remaining(text: Seq<char>, numbers: Seq<char>) -> Seq<char> {
    text.filter(|c: char| !numbers.contains(c))
}

/// Splits the characters of `chars` in two: those that occur in `numbers`,
/// and the others, each part in the order of the text.
pub fn split_chars(chars: &Vec<char>, numbers: &Vec<char>) -> (parts: (Vec<char>, Vec<char>))
    ensures
        parts.0@ == chars_found(chars@, numbers@),
        parts.1@ == chars_remaining(chars@, numbers@),
{
    let mut found: Vec<char> = Vec::new();
    let mut remain: Vec<char> = Vec::new();
    let ghost is_number = |c: char| numbers@.contains(c);
    let ghost is_other = |c: char| !numbers@.contains(c);
    let mut i: usize = 0;
    while i < chars.len()
        invariant
            i <= chars.len(),
            is_number == (|c: char| numbers@.contains(c)),
            is_other == (|c: char| !numbers@.contains(c)),
            found@ == chars@.take(i as int).filter(is_number),
            remain@ == chars@.take(i as int).filter(is_other),
        decreases chars.len() - i,
    {
        let c = chars[i];
        proof {
            let before = chars@.take(i as int);
            assert(before.push(c) == chars@.take(i + 1));
            assert(before.push(c).drop_last() == before);
            reveal(Seq::filter);
        }
        if contains_char(numbers, c) {
            found.push(c);
        } else {
            remain.push(c);
        }
        i = i + 1;
    }
    assert(chars@.take(chars.len() as int) == chars@);
    (found, remain)
}

/// Splits a text in two: the characters that occur in `numbers`, and the
/// others, each part in the order of the text.
pub fn get_num_from_str(usr_str: &str, numbers: &str) -> (parts: (String, String))
    ensures
        parts.0@ == chars_found(usr_str@, numbers@),
        parts.1@ == chars_remaining(usr_str@, numbers@),
{
    let chars = str_to_chars(usr_str);
    let number_chars = str_to_chars(numbers);
    let (found, remain) = split_chars(&chars, &number_chars);
    (string_from_chars(&found), string_from_chars(&remain))
}

/// What `str::trim` leaves of a text.
pub uninterp spec fn trimmed_of(text: Seq<char>) -> Seq<char>;

/// Calls `str::trim`: the text without the white space at its beginning and
/// at its end.
#[verifier::external_body]
pub(crate) fn trim(text: &str) -> (trimmed: String)
    ensures
        trimmed@ == trimmed_of(text@),
{
    text.trim().to_string()
}

/// Whether a character is one of the digits from 0 to 9.
pub open spec fn is_digit(c: char) -> bool {
    '0' <= c <= '9'
}

/// The value of a digit.
pub open spec fn digit_value(c: char) -> int {
    c as int - '0' as int
}

/// The number that some digits write in base ten; no digits write 0.
pub open spec fn digits_value(digits: Seq<char>) -> int
    decreases digits.len(),
{
    if digits.len() == 0 {
        0
    } else {
        digits_value(digits.drop_last()) * 10 + digit_value(digits.last())
    }
}

/// Whether a text is made of digits alone, and of one at least.
pub open spec fn is_number(text: Seq<char>) -> bool {
    text.len() > 0 && forall|i: int| 0 <= i < text.len() ==> is_digit(#[trigger] text[i])
}

/// Whether a character is one of the digits from 0 to 9.
pub fn char_is_digit(c: char) -> (digit: bool)
    ensures
        digit == is_digit(c),
{
    '0' <= c && c <= '9'
}

/// The number that a text of digits writes in base ten, unless the text is
/// empty, holds something else than digits, or writes a number too large.
pub fn parse_number(text: &Vec<char>) -> (value: Option<i64>)
    ensures
        value is Some <==> is_number(text@) && digits_value(text@) <= i64::MAX,
        value is Some ==> value->Some_0 == digits_value(text@),
        value is Some ==> value->Some_0 >= 0,
{
    if text.len() == 0 {
        return None;
    }
    let mut value: i64 = 0;
    let mut i: usize = 0;
    while i < text.len()
        invariant
            i <= text.len(),
            forall|j: int| 0 <= j < i ==> is_digit(#[trigger] text@[j]),
            value == digits_value(text@.take(i as int)),
            0 <= value,
        decreases text.len() - i,
    {
        let c = text[i];
        if !char_is_digit(c) {
            return None;
        }
        let digit = (c as u32 - '0' as u32) as i64;
        proof {
            assert(text@.take(i + 1).drop_last() == text@.take(i as int));
            assert(text@.take(i + 1).last() == c);
        }
        if value > (i64::MAX - digit) / 10 {
            proof {
                assert(digits_value(text@.take(i + 1)) > i64::MAX);
                if is_number(text@) {
                    lemma_digits_grow(text@, i + 1);
                }
            }
            return None;
        }
        value = value * 10 + digit;
        i = i + 1;
    }
    assert(text@.take(text@.len() as int) == text@);
    Some(value)
}

/// The number that a beginning of some digits writes is not larger than
/// the number that all of them write.
pub proof fn lemma_digits_grow(text: Seq<char>, n: int)
    requires
        0 <= n <= text.len(),
        forall|j: int| 0 <= j < text.len() ==> is_digit(#[trigger] text[j]),
    ensures
        0 <= digits_value(text.take(n)) <= digits_value(text),
    decreases text.len() - n,
{
    lemma_digits_not_negative(text.take(n));
    if n == text.len() {
        assert(text.take(n) == text);
    } else {
        lemma_digits_grow(text, n + 1);
        assert(text.take(n + 1).drop_last() == text.take(n));
        assert(is_digit(text[n]));
        assert(text.take(n + 1).last() == text[n]);
    }
}

/// Digits write a number that is not negative.
pub proof fn lemma_digits_not_negative(text: Seq<char>)
    requires
        forall|j: int| 0 <= j < text.len() ==> is_digit(#[trigger] text[j]),
    ensures
        digits_value(text) >= 0,
    decreases text.len(),
{
    if text.len() > 0 {
        assert forall|j: int| 0 <= j < text.drop_last().len() implies is_digit(
            #[trigger] text.drop_last()[j],
        ) by {
            assert(text.drop_last()[j] == text[j]);
        }
        lemma_digits_not_negative(text.drop_last());
        assert(is_digit(text[text.len() - 1]));
    }
}

/// The characters of a text from one place up to another.
pub fn chars_between(text: &Vec<char>, from: usize, to: usize) -> (part: Vec<char>)
    requires
        from <= to <= text@.len(),
    ensures
        part@ == text@.subrange(from as int, to as int),
{
    let mut part: Vec<char> = Vec::new();
    let mut i: usize = from;
    while i < to
        invariant
            from <= i <= to,
            to <= text@.len(),
            part@ == text@.subrange(from as int, i as int),
        decreases to - i,
    {
        part.push(text[i]);
        assert(text@.subrange(from as int, i as int).push(text@[i as int]) == text@.subrange(
            from as int,
            i + 1,
        ));
        i = i + 1;
    }
    part
}

/// The place of the first digit in a text, or the length of the text where
/// it holds none.
pub open spec fn first_digit(text: Seq<char>) -> int
    decreases text.len(),
{
    if text.len() == 0 {
        0
    } else if is_digit(text[0]) {
        0
    } else {
        1 + first_digit(text.drop_first())
    }
}

/// The place of the first digit in a text, or the length of the text where
/// it holds none.
pub fn find_first_digit(text: &Vec<char>) -> (place: usize)
    ensures
        place == first_digit(text@),
        place <= text@.len(),
        place < text@.len() ==> is_digit(text@[place as int]),
        forall|j: int| 0 <= j < place ==> !is_digit(#[trigger] text@[j]),
{
    let mut i: usize = 0;
    assert(text@.skip(0) == text@);
    while i < text.len()
        invariant
            i <= text.len(),
            forall|j: int| 0 <= j < i ==> !is_digit(#[trigger] text@[j]),
            first_digit(text@) == i + first_digit(text@.skip(i as int)),
        decreases text.len() - i,
    {
        if char_is_digit(text[i]) {
            assert(text@.skip(i as int)[0] == text@[i as int]);
            return i;
        }
        proof {
            assert(text@.skip(i as int)[0] == text@[i as int]);
            assert(text@.skip(i as int).drop_first() == text@.skip(i + 1));
        }
        i = i + 1;
    }
    assert(text@.skip(text@.len() as int).len() == 0);
    i
}

/// The digit of a number below ten.
pub open spec fn digit_char(n: int) -> char {
    if n == 0 {
        '0'
    } else if n == 1 {
        '1'
    } else if n == 2 {
        '2'
    } else if n == 3 {
        '3'
    } else if n == 4 {
        '4'
    } else if n == 5 {
        '5'
    } else if n == 6 {
        '6'
    } else if n == 7 {
        '7'
    } else if n == 8 {
        '8'
    } else {
        '9'
    }
}

/// A number written in base ten.
pub open spec fn decimal_of(n: nat) -> Seq<char>
    decreases n,
{
    if n < 10 {
        seq![digit_char(n as int)]
    } else {
        decimal_of(n / 10).push(digit_char((n % 10) as int))
    }
}

/// Writes a number in base ten after what is written already.
pub fn push_decimal(n: u64, out: &mut Vec<char>)
    ensures
        final(out)@ == old(out)@ + decimal_of(n as nat),
    decreases n,
{
    if n >= 10 {
        push_decimal(n / 10, out);
    }
    let digit = n % 10;
    let c = if digit == 0 {
        '0'
    } else if digit == 1 {
        '1'
    } else if digit == 2 {
        '2'
    } else if digit == 3 {
        '3'
    } else if digit == 4 {
        '4'
    } else if digit == 5 {
        '5'
    } else if digit == 6 {
        '6'
    } else if digit == 7 {
        '7'
    } else if digit == 8 {
        '8'
    } else {
        '9'
    };
    out.push(c);
    proof {
        if n >= 10 {
            assert(old(out)@ + decimal_of((n / 10) as nat).push(c) == (old(out)@ + decimal_of(
                (n / 10) as nat,
            )).push(c));
        } else {
            assert(old(out)@ + seq![c] == old(out)@.push(c));
        }
    }
}

/// A number written in base ten.
pub fn decimal_text(n: u64) -> (text: String)
    ensures
        text@ == decimal_of(n as nat),
{
    let mut chars: Vec<char> = Vec::new();
    push_decimal(n, &mut chars);
    assert(Seq::<char>::empty() + decimal_of(n as nat) == decimal_of(n as nat));
    string_from_chars(&chars)
}

/// A whole number written in base ten, with a minus sign where it is
/// negative.
pub open spec fn signed_decimal_of(n: int) -> Seq<char> {
    if n < 0 {
        seq!['-'] + decimal_of((-n) as nat)
    } else {
        decimal_of(n as nat)
    }
}

/// A whole number written in base ten, with a minus sign where it is
/// negative.
pub fn signed_decimal_text(n: i64) -> (text: String)
    ensures
        text@ == signed_decimal_of(n as int),
{
    let mut chars: Vec<char> = Vec::new();
    if n < 0 {
        chars.push('-');
        let size = (-(n as i128)) as u64;
        push_decimal(size, &mut chars);
        assert(seq!['-'] =~= Seq::<char>::empty().push('-'));
    } else {
        push_decimal(n as u64, &mut chars);
        assert(Seq::<char>::empty() + decimal_of(n as nat) == decimal_of(n as nat));
    }
    string_from_chars(&chars)
}

/// The text of one character.
pub fn char_text(c: char) -> (text: String)
    ensures
        text@ == seq![c],
{
    let mut chars: Vec<char> = Vec::new();
    chars.push(c);
    assert(chars@ == seq![c]);
    string_from_chars(&chars)
}

} // verus!
