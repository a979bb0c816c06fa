use vstd::prelude::*;
use std::num::ParseIntError;

verus! {

#[verifier::external_type_specification]
#[verifier::external_body]
pub struct ExParseIntError(ParseIntError);

/// Whether `c` is one of the ASCII digits.
pub open spec fn is_digit(c: char) -> bool {
    '0' <= c && c <= '9'
}

/// A non-empty run of ASCII digits.
pub open spec fn all_digits(ds: Seq<char>) -> bool {
    ds.len() > 0 && forall|i: int| 0 <= i < ds.len() ==> is_digit(#[trigger] ds[i])
}

/// The decimal value of a run of digits.
pub open spec fn digits_value(ds: Seq<char>) -> int
    decreases ds.len(),
{
    if ds.len() == 0 {
        0
    } else {
        digits_value(ds.drop_last()) * 10 + (ds.last() as int - '0' as int)
    }
}

/// The integer that `s` writes: an optional `+` or `-` and then digits,
/// nothing else.
pub open spec fn decimal_of(s: Seq<char>) -> Option<int> {
    if s.len() > 0 && s[0] == '-' && all_digits(s.drop_first()) {
        Some(-digits_value(s.drop_first()))
    } else if s.len() > 0 && s[0] == '+' && all_digits(s.drop_first()) {
        Some(digits_value(s.drop_first()))
    } else if all_digits(s) {
        Some(digits_value(s))
    } else {
        None
    }
}

/// The `i8` that `s` writes, where it is in range.
pub open spec fn i8_of(s: Seq<char>) -> Option<i8> {
    match decimal_of(s) {
        Some(v) => if i8::MIN <= v <= i8::MAX {
            Some(v as i8)
        } else {
            None
        },
        None => None,
    }
}

/// Relies on `str::parse::<i8>` (`i8::from_str`): an optional sign followed
/// by decimal digits, in range; any other character is an error.
#[verifier::external_body]
fn parse_i8(s: &str) -> (r: Result<i8, ParseIntError>)
    ensures
        r is Ok <==> i8_of(s@) is Some,
        r matches Ok(v) ==> i8_of(s@) == Some(v),
{
    s.parse::<i8>()
}

/// What `str::trim` leaves of a text.
pub uninterp spec fn trimmed_of(s: Seq<char>) -> Seq<char>;

/// Relies on `str::trim`: the text without leading and trailing whitespace.
#[verifier::external_body]
fn trim(s: &str) -> (r: &str)
    ensures
        r@ == trimmed_of(s@),
{
    s.trim()
}

/// Reads a provider id written in decimal.
pub fn parse_provider(s: &str) -> (r: Result<i8, ParseIntError>)
    ensures
        r is Ok <==> i8_of(s@) is Some,
        r matches Ok(v) ==> i8_of(s@) == Some(v),
{
    parse_i8(s)
}

/// The provider id from the contents of the provider file: `0` where the
/// file could not be read (`None`), else its trimmed text in decimal. Text
/// that is there but not a number is an error.
pub fn load_provider(contents: &Option<String>) -> (r: Result<i8, ParseIntError>)
    ensures
        contents is None ==> r == Ok::<i8, ParseIntError>(0),
        contents matches Some(s) ==> {
            &&& r is Ok <==> i8_of(trimmed_of(s@)) is Some
            &&& r matches Ok(v) ==> i8_of(trimmed_of(s@)) == Some(v)
        },
{
    match contents {
        None => Ok(0),
        Some(s) => parse_provider(trim(s.as_str())),
    }
}

} // verus!
