use super::chromaticinterval::ChromaticInterval;
use super::diatonicinterval::{diatonic_semitones, DiatonicInterval};
use super::genericinterval::GenericInterval;
use super::specifier::Specifier;
use super::{Interval, IntervalArgument};
use crate::common::numbertools::{musical_ordinal_strings, MusicOrdinals};
use crate::common::stringtools::{
    chars_found, chars_remaining, contains_char, decimal_of, decimal_text, digits_value,
    get_num_from_str, is_number, lowercase_of, parse_number, split_chars, str_eq, str_to_chars,
    string_from_chars, to_lowercase,
};
use crate::defaults::IntegerType;
use crate::exception::{Exception, ExceptionResult};
use regex::Regex;
use vstd::prelude::*;
use vstd::string::*;

verus! {

/// Whether the regular expression `pattern` matches somewhere in `text`;
/// `None` where the pattern is no regular expression.
pub uninterp spec fn regex_match(pattern: Seq<char>, text: Seq<char>) -> Option<bool>;

/// What is left of `text` when every match of the regular expression
/// `pattern` is replaced by `replacement`; `None` where the pattern is no
/// regular expression.
pub uninterp spec fn regex_replaced(
    pattern: Seq<char>,
    text: Seq<char>,
    replacement: Seq<char>,
) -> Option<Seq<char>>;

/// Whether a character means something in a regular expression.
pub open spec fn is_meta_character(c: char) -> bool {
    c == '\\' || c == '.' || c == '+' || c == '*' || c == '?' || c == '(' || c == ')' || c == '|'
        || c == '[' || c == ']' || c == '{' || c == '}' || c == '^' || c == '$' || c == '#' || c
        == '&' || c == '-' || c == '~'
}

/// A text with a backslash before each of its characters that mean
/// something in a regular expression.
pub open spec fn regex_escaped(text: Seq<char>) -> Seq<char>
    decreases text.len(),
{
    if text.len() == 0 {
        Seq::<char>::empty()
    } else if is_meta_character(text.last()) {
        regex_escaped(text.drop_last()).push('\\').push(text.last())
    } else {
        regex_escaped(text.drop_last()).push(text.last())
    }
}

/// Calls `Regex::new` and `Regex::is_match`: whether the pattern matches
/// somewhere in the text.
#[verifier::external_body]
fn regex_is_match(pattern: &str, text: &str) -> (found: Option<bool>)
    ensures
        found == regex_match(pattern@, text@),
{
    match Regex::new(pattern) {
        Ok(re) => Some(re.is_match(text)),
        Err(_) => None,
    }
}

/// Calls `Regex::new` and `Regex::replace_all`: the text with every match
/// of the pattern replaced.
#[verifier::external_body]
fn regex_replace_all(pattern: &str, text: &str, replacement: &str) -> (replaced: Option<String>)
    ensures
        replaced is Some <==> regex_replaced(pattern@, text@, replacement@) is Some,
        replaced is Some ==> Some(replaced->Some_0@) == regex_replaced(
            pattern@,
            text@,
            replacement@,
        ),
{
    match Regex::new(pattern) {
        Ok(re) => Some(re.replace_all(text, replacement).into_owned()),
        Err(_) => None,
    }
}

/// Calls `regex::escape`: the text as a literal of a regular expression,
/// which is the text with a backslash before each of the eighteen
/// characters that mean something there.
#[verifier::external_body]
fn regex_escape(text: &str) -> (escaped: String)
    ensures
        escaped@ == regex_escaped(text@),
{
    regex::escape(text)
}

/// Whether `part` stands somewhere in `text`.
pub open spec fn has_part(text: Seq<char>, part: Seq<char>) -> bool {
    exists|i: int|
        0 <= i && i + part.len() <= text.len() && #[trigger] text.subrange(
            i,
            i + part.len() as int,
        ) == part
}

/// Whether `part` stands somewhere in `text`.
pub fn contains_text(text: &str, part: &str) -> (found: bool)
    ensures
        found == has_part(text@, part@),
{
    let whole = str_to_chars(text);
    let wanted = str_to_chars(part);
    let n = whole.len();
    let m = wanted.len();
    if m > n {
        return false;
    }
    let mut i: usize = 0;
    while i <= n - m
        invariant
            n == whole@.len(),
            m == wanted@.len(),
            m <= n,
            i <= n - m + 1,
            whole@ == text@,
            wanted@ == part@,
            forall|k: int| 0 <= k < i ==> #[trigger] whole@.subrange(k, k + m) != wanted@,
        decreases n - m + 1 - i,
    {
        let mut j: usize = 0;
        while j < m && whole[i + j] == wanted[j]
            invariant
                n == whole@.len(),
                m == wanted@.len(),
                i + m <= n,
                j <= m,
                forall|k: int| 0 <= k < j ==> whole@[i + k] == #[trigger] wanted@[k],
            decreases m - j,
        {
            j = j + 1;
        }
        if j == m {
            assert(whole@.subrange(i as int, i + m) =~= wanted@);
            return true;
        }
        assert(whole@.subrange(i as int, i + m)[j as int] != wanted@[j as int]);
        i = i + 1;
    }
    false
}

/// The name of an interval with its direction taken out: the text without
/// its minus signs and without the word for its direction, and -1 where it
/// had a minus sign or was called descending. `None` where a regular
/// expression fails.
pub open spec fn without_direction(value: Seq<char>) -> Option<(Seq<char>, int)> {
    let signless = chars_remaining(value, seq!['-']);
    let scale: int = if value.contains('-') {
        -1
    } else {
        1
    };
    match regex_match(DESCENDING@, signless) {
        None => None,
        Some(true) => match regex_replaced(DESCENDING@, signless, ""@) {
            None => None,
            Some(text) => Some((text, -1)),
        },
        Some(false) => match regex_match(ASCENDING@, signless) {
            None => None,
            Some(true) => match regex_replaced(ASCENDING@, signless, ""@) {
                None => None,
                Some(text) => Some((text, scale)),
            },
            Some(false) => Some((signless, scale)),
        },
    }
}

/// The regular expression for the word that calls an interval descending.
pub const DESCENDING: &'static str = "(?i)descending\\s*";

/// The regular expression for the word that calls an interval ascending.
pub const ASCENDING: &'static str = "(?i)ascending\\s*";

/// The short names of the whole tone and of the semitone read as the major
/// and the minor second; any other name stays what it is. The second part
/// says whether the name was a short one.
pub open spec fn without_abbreviation(value: Seq<char>) -> (Seq<char>, bool) {
    let lower = lowercase_of(value);
    if lower == "w"@ || lower == "whole"@ || lower == "tone"@ {
        ("M2"@, true)
    } else if lower == "h"@ || lower == "half"@ || lower == "semitone"@ {
        ("m2"@, true)
    } else {
        (value, false)
    }
}

/// The regular expression for an ordinal with the white space around it.
pub open spec fn ordinal_pattern(ordinal: Seq<char>) -> Seq<char> {
    "(?i)\\s*"@ + regex_escaped(ordinal) + "\\s*"@
}

/// A name in which the first `n` ordinals of music, where they stand in it,
/// whatever their case, are replaced by their numbers. `None` where a
/// regular expression fails.
pub open spec fn with_ordinals_numbered(value: Seq<char>, n: int) -> Option<Seq<char>>
    decreases n,
{
    if n <= 0 {
        Some(value)
    } else {
        match with_ordinals_numbered(value, n - 1) {
            None => None,
            Some(text) => {
                let ordinal = MusicOrdinals::at(n - 1).name_spec();
                if has_part(lowercase_of(text), lowercase_of(ordinal)) {
                    regex_replaced(ordinal_pattern(ordinal), text, decimal_of((n - 1) as nat))
                } else {
                    Some(text)
                }
            },
        }
    }
}

/// What the name of an interval comes to before its number and its quality
/// are read: the text, the scale of its direction, and whether it was a
/// short name.
pub open spec fn prepared_name(value: Seq<char>) -> Option<(Seq<char>, int, bool)> {
    match without_direction(value) {
        None => None,
        Some((text, scale)) => {
            let (text, inferred) = without_abbreviation(text);
            match with_ordinals_numbered(text, 23) {
                None => None,
                Some(text) => Some((text, scale, inferred)),
            }
        },
    }
}

/// The size and the quality that a prepared name gives: its digits are the
/// size, times the scale of the direction, and the rest is the quality.
/// `None` where the digits are no number that fits, the rest names no
/// quality, or there is no such interval.
pub open spec fn interval_of_parts(digits: Seq<char>, quality: Seq<char>, scale: int) -> Option<
    (int, Specifier, int),
> {
    if !is_number(digits) || digits_value(digits) > IntegerType::MAX {
        None
    } else {
        let size = digits_value(digits) * scale;
        match Specifier::parse_spec(quality) {
            None => None,
            Some(specifier) => if size == 0 {
                None
            } else {
                match diatonic_semitones(size, specifier) {
                    None => None,
                    Some(semitones) => if IntegerType::MIN <= semitones <= IntegerType::MAX {
                        Some((size, specifier, semitones))
                    } else {
                        None
                    },
                }
            },
        }
    }
}

/// The interval of a size and a quality as they are written: the digits of
/// the size, and the name or the letters of the quality. `dir_scale` is 1,
/// or -1 for an interval that descends.
pub fn interval_from_parts(digits: &str, quality: &str, dir_scale: IntegerType) -> (r: ExceptionResult<
    (DiatonicInterval, ChromaticInterval),
>)
    requires
        dir_scale == 1 || dir_scale == -1,
    ensures
        r is Ok <==> interval_of_parts(digits@, quality@, dir_scale as int) is Some,
        r is Ok ==> {
            let parts = interval_of_parts(digits@, quality@, dir_scale as int)->Some_0;
            &&& r->Ok_0.0.generic.value_spec() == parts.0
            &&& r->Ok_0.0.specifier == parts.1
            &&& r->Ok_0.1.semitones == parts.2
        },
        r is Err ==> r->Err_0 is Interval,
{
    let found = str_to_chars(digits);
    let generic_number: IntegerType = match parse_number(&found) {
        Some(number) => if dir_scale == 1 {
            number
        } else {
            -number
        },
        None => {
            return Err(
                Exception::Interval(String::from_str("Failed to parse number in ").concat(digits)),
            );
        },
    };
    assert(generic_number == digits_value(digits@) * dir_scale) by (nonlinear_arith)
        requires
            dir_scale == 1 && generic_number == digits_value(digits@) || dir_scale == -1
                && generic_number == -digits_value(digits@),
    ;
    let spec_name = match Specifier::parse(quality) {
        Ok(spec_name) => spec_name,
        Err(e) => {
            return Err(e);
        },
    };
    let g_interval = match GenericInterval::from_int(generic_number) {
        Ok(g_interval) => g_interval,
        Err(e) => {
            return Err(e);
        },
    };
    let d_interval = g_interval.get_diatonic(spec_name);
    let c_interval = match d_interval.get_chromatic() {
        Ok(c_interval) => c_interval,
        Err(e) => {
            return Err(e);
        },
    };
    Ok((d_interval, c_interval))
}

/// Takes the direction out of the name of an interval.
pub fn strip_direction(value: &str) -> (r: ExceptionResult<(String, IntegerType)>)
    ensures
        r is Ok <==> without_direction(value@) is Some,
        r is Ok ==> without_direction(value@) == Some((r->Ok_0.0@, r->Ok_0.1 as int)),
        r is Ok ==> r->Ok_0.1 == 1 || r->Ok_0.1 == -1,
        r is Err ==> r->Err_0 is Interval,
{
    let mut dir_scale: IntegerType = 1;
    let chars = str_to_chars(value);
    let mut minus: Vec<char> = Vec::new();
    minus.push('-');
    assert(minus@ == seq!['-']);
    // Check for '-' and remove them:
    if contains_char(&chars, '-') {
        dir_scale = -1;
    }
    let (_, remain) = split_chars(&chars, &minus);
    let signless = string_from_chars(&remain);
    // Remove directional words:
    let descending = match regex_is_match(DESCENDING, signless.as_str()) {
        Some(found) => found,
        None => {
            return Err(Exception::Interval(String::from_str("the pattern for descending failed")));
        },
    };
    if descending {
        match regex_replace_all(DESCENDING, signless.as_str(), "") {
            Some(text) => Ok((text, -1)),
            None => Err(Exception::Interval(String::from_str("the pattern for descending failed"))),
        }
    } else {
        let ascending = match regex_is_match(ASCENDING, signless.as_str()) {
            Some(found) => found,
            None => {
                return Err(
                    Exception::Interval(String::from_str("the pattern for ascending failed")),
                );
            },
        };
        if ascending {
            match regex_replace_all(ASCENDING, signless.as_str(), "") {
                Some(text) => Ok((text, dir_scale)),
                None => Err(
                    Exception::Interval(String::from_str("the pattern for ascending failed")),
                ),
            }
        } else {
            Ok((signless, dir_scale))
        }
    }
}

/// Reads the short names of the whole tone and of the semitone; `lower` is
/// the name in lower case.
pub fn expand_abbreviation(value: String, lower: &str) -> (r: (String, bool))
    requires
        lower@ == lowercase_of(value@),
    ensures
        (r.0@, r.1) == without_abbreviation(value@),
{
    // Handle whole/half abbreviations:
    if str_eq(lower, "w") || str_eq(lower, "whole") || str_eq(lower, "tone") {
        (String::from_str("M2"), true)
    } else if str_eq(lower, "h") || str_eq(lower, "half") || str_eq(lower, "semitone") {
        (String::from_str("m2"), true)
    } else {
        (value, false)
    }
}

/// Replaces the ordinals of music in a name by their numbers.
pub fn number_ordinals(value: String) -> (r: ExceptionResult<String>)
    ensures
        r is Ok <==> with_ordinals_numbered(value@, 23) is Some,
        r is Ok ==> Some(r->Ok_0@) == with_ordinals_numbered(value@, 23),
        r is Err ==> r->Err_0 is Interval,
{
    let ordinals = musical_ordinal_strings();
    let mut text = value;
    let mut i: usize = 0;
    while i < 23
        invariant
            i <= 23,
            ordinals@.len() == 23,
            forall|j: int|
                0 <= j < 23 ==> (#[trigger] ordinals@[j])@ == MusicOrdinals::at(j).name_spec(),
            with_ordinals_numbered(value@, i as int) == Some(text@),
        decreases 23 - i,
    {
        let ordinal = &ordinals[i];
        let lower_text = to_lowercase(text.as_str());
        let lower_ordinal = to_lowercase(ordinal.as_str());
        if contains_text(lower_text.as_str(), lower_ordinal.as_str()) {
            let pattern = String::from_str("(?i)\\s*").concat(
                regex_escape(ordinal.as_str()).as_str(),
            ).concat("\\s*");
            let number = decimal_text(i as u64);
            text = match regex_replace_all(pattern.as_str(), text.as_str(), number.as_str()) {
                Some(replaced) => replaced,
                None => {
                    proof {
                        assert(with_ordinals_numbered(value@, i + 1) is None);
                        lemma_ordinals_fail_on(value@, i + 1, 23);
                    }
                    return Err(
                        Exception::Interval(String::from_str("the pattern for an ordinal failed")),
                    );
                },
            };
        }
        i = i + 1;
    }
    Ok(text)
}

/// Where numbering the ordinals fails up to one of them, it fails up to
/// every later one.
pub proof fn lemma_ordinals_fail_on(value: Seq<char>, n: int, later: int)
    requires
        n <= later,
        with_ordinals_numbered(value, n) is None,
    ensures
        with_ordinals_numbered(value, later) is None,
    decreases later - n,
{
    if n < later {
        lemma_ordinals_fail_on(value, n, later - 1);
    }
}

/// What reading the name of an interval comes to: its size with its
/// direction, its quality, its semitones, and whether the name was a short
/// one. `None` where the name cannot be read.
pub open spec fn read_interval_name(value: Seq<char>) -> Option<(int, Specifier, int, bool)> {
    match prepared_name(value) {
        None => None,
        Some((text, scale, inferred)) => match interval_of_parts(
            chars_found(text, DIGITS@),
            chars_remaining(text, DIGITS@),
            scale,
        ) {
            None => None,
            Some((size, specifier, semitones)) => Some((size, specifier, semitones, inferred)),
        },
    }
}

/// The digits.
pub const DIGITS: &'static str = "0123456789";

/// Reads the name of an interval, such as "M3", "-A4", "descending minor
/// third" or "half": its size and quality, its semitones, and whether the
/// name was a short one.
pub fn string_to_diatonic_chromatic(value: &str) -> (r: ExceptionResult<
    (DiatonicInterval, ChromaticInterval, bool),
>)
    ensures
        r is Ok <==> read_interval_name(value@) is Some,
        r is Ok ==> {
            let read = read_interval_name(value@)->Some_0;
            &&& r->Ok_0.0.generic.value_spec() == read.0
            &&& r->Ok_0.0.specifier == read.1
            &&& r->Ok_0.1.semitones == read.2
            &&& r->Ok_0.2 == read.3
        },
        r is Err ==> r->Err_0 is Interval,
{
    let (value, dir_scale) = match strip_direction(value) {
        Ok(stripped) => stripped,
        Err(e) => {
            return Err(e);
        },
    };
    let value_lower = to_lowercase(value.as_str());
    let (value, inferred) = expand_abbreviation(value, value_lower.as_str());
    // Replace any music ordinal in the string with its index.
    let value = match number_ordinals(value) {
        Ok(numbered) => numbered,
        Err(e) => {
            return Err(e);
        },
    };
    // Extract number and remaining spec:
    let (found, remain) = get_num_from_str(value.as_str(), DIGITS);
    match interval_from_parts(found.as_str(), remain.as_str(), dir_scale) {
        Ok((d_interval, c_interval)) => Ok((d_interval, c_interval, inferred)),
        Err(e) => Err(e),
    }
}

impl Interval {
    /// An interval from its name, or from a number of semitones upwards.
    /// An interval needs two pitches: one alone makes none.
    pub fn new(arg: IntervalArgument) -> (r: ExceptionResult<Interval>)
        ensures
            match arg {
                IntervalArgument::Str(name) => {
                    &&& r is Ok <==> read_interval_name(name@) is Some
                    &&& r is Ok ==> {
                        let read = read_interval_name(name@)->Some_0;
                        &&& r->Ok_0.diatonic.generic.value_spec() == read.0
                        &&& r->Ok_0.diatonic.specifier == read.1
                        &&& r->Ok_0.chromatic.semitones == read.2
                        &&& r->Ok_0.implicit_diatonic == read.3
                        &&& r->Ok_0.pitch_start is None
                        &&& r->Ok_0.pitch_end is None
                    }
                },
                IntervalArgument::Int(semitones) => {
                    &&& r is Ok <==> semitones <= IntegerType::MAX
                    &&& r is Ok ==> r->Ok_0.chromatic.semitones == semitones
                        && r->Ok_0.implicit_diatonic
                        && r->Ok_0.diatonic.generic.value_spec()
                        == super::chromaticinterval::chromatic_to_generic(semitones as int)
                },
                IntervalArgument::Pitch(_) => r is Err,
            },
            r is Err ==> r->Err_0 is Interval,
    {
        match arg {
            IntervalArgument::Str(name) => {
                let (diatonic, chromatic, inferred) = match string_to_diatonic_chromatic(
                    name.as_str(),
                ) {
                    Ok(read) => read,
                    Err(e) => {
                        return Err(e);
                    },
                };
                Ok(
                    Interval {
                        implicit_diatonic: inferred,
                        diatonic,
                        chromatic,
                        pitch_start: None,
                        pitch_end: None,
                    },
                )
            },
            IntervalArgument::Int(semitones) => {
                if semitones > IntegerType::MAX as u64 {
                    return Err(Exception::Interval(String::from_str("Interval is out of range")));
                }
                Ok(Interval::from_semitones(semitones as IntegerType))
            },
            IntervalArgument::Pitch(_) => Err(
                Exception::Interval(String::from_str("an interval needs two pitches")),
            ),
        }
    }
}

} // verus!
