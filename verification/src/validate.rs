//! Checks of single option values, made before any network activity.

use crate::text::{
    all_digits, chars_of, decimal_value, is_digit, parse_u16_range, starts_with, unsigned_digits,
};
use vstd::prelude::*;
use vstd::string::*;

verus! {

/// Why an input reference was refused.
#[derive(Debug, Clone, Copy, PartialEq, Eq, Structural)]
pub enum InputError {
    /// The input points at a video site that is not supported.
    UnsupportedSite,
}

/// Why a thread count was refused.
#[derive(Debug, Clone, Copy, PartialEq, Eq, Structural)]
pub enum ThreadsError {
    /// The text is no decimal number.
    NotANumber,
    /// The number is not between 1 and 16.
    OutOfRange,
}

/// Whether an input points at a site that is refused.
pub open spec fn is_unsupported_site(s: Seq<char>) -> bool {
    "https://youtube.com"@.is_prefix_of(s) || "https://www.youtube.com"@.is_prefix_of(s)
        || "https://youtu.be"@.is_prefix_of(s)
}

/// Refuses inputs of the sites that are not supported.
pub fn input_validator(s: &str) -> (r: Result<(), InputError>)
    ensures
        r is Err <==> is_unsupported_site(s@),
{
    let v = chars_of(s);
    if starts_with(&v, "https://youtube.com") || starts_with(&v, "https://www.youtube.com")
        || starts_with(&v, "https://youtu.be") {
        Err(InputError::UnsupportedSite)
    } else {
        Ok(())
    }
}

/// Whether a text is a decimal number: an optional `+`, then digits.
pub open spec fn is_number(s: Seq<char>) -> bool {
    unsigned_digits(s).len() > 0 && all_digits(unsigned_digits(s))
}

/// The judgement on a thread count given as text.
pub open spec fn threads_fault(s: Seq<char>) -> Option<ThreadsError> {
    if !is_number(s) {
        Some(ThreadsError::NotANumber)
    } else if 1 <= decimal_value(unsigned_digits(s)) <= 16 {
        None
    } else {
        Some(ThreadsError::OutOfRange)
    }
}

fn number_text(v: &Vec<char>) -> (b: bool)
    ensures
        b == is_number(v@),
{
    let start: usize = if v.len() > 0 && v[0] == '+' {
        1
    } else {
        0
    };
    let ghost d = unsigned_digits(v@);
    assert(d =~= v@.subrange(start as int, v@.len() as int));
    if start == v.len() {
        return false;
    }
    let mut i: usize = start;
    while i < v.len()
        invariant
            start <= i <= v.len(),
            d == unsigned_digits(v@),
            d == v@.subrange(start as int, v@.len() as int),
            forall|j: int| 0 <= j < i - start ==> is_digit(#[trigger] d[j]),
        decreases v.len() - i,
    {
        let c: char = v[i];
        assert(d[i - start] == c);
        if !('0' <= c && c <= '9') {
            assert(!is_digit(d[i - start]));
            return false;
        }
        i = i + 1;
    }
    true
}

/// Accepts a thread count from 1 to 16.
pub fn threads_validator(s: &str) -> (r: Result<(), ThreadsError>)
    ensures
        r is Ok <==> threads_fault(s@) is None,
        r is Err ==> threads_fault(s@) == Some(r->Err_0),
{
    let v = chars_of(s);
    if !number_text(&v) {
        return Err(ThreadsError::NotANumber);
    }
    assert(v@.subrange(0, v@.len() as int) =~= v@);
    match parse_u16_range(&v, 0, v.len()) {
        Some(n) => {
            if 1 <= n && n <= 16 {
                Ok(())
            } else {
                Err(ThreadsError::OutOfRange)
            }
        },
        None => Err(ThreadsError::OutOfRange),
    }
}

impl InputError {
    /// The text shown to the user for this failure.
    pub fn message(&self) -> (r: String)
        ensures
            r@ == "Youtube links aren't supported yet"@,
    {
        String::from_str("Youtube links aren't supported yet")
    }
}

impl ThreadsError {
    /// The text shown to the user for this failure; `value` is what was
    /// given.
    pub fn message(&self, value: &str) -> (r: String)
        ensures
            *self == ThreadsError::NotANumber ==> r@ == "`"@ + value@ + "` isn't a number"@,
            *self == ThreadsError::OutOfRange ==> r@
                == "number of threads should be in range `1-16`"@,
    {
        match self {
            ThreadsError::NotANumber => {
                let mut r = String::from_str("`");
                r.append(value);
                r.append("` isn't a number");
                r
            },
            ThreadsError::OutOfRange => String::from_str(
                "number of threads should be in range `1-16`",
            ),
        }
    }
}

} // verus!
