//! The quality-selection grammar.

use crate::text::{after_first, before_first, chars_of, equals, find_first, lemma_first_index_bounds, lowercase_of, parse_u16, parse_u16_range, to_lowercase};
use vstd::prelude::*;
use vstd::string::*;

verus! {

/// Which variant stream the engine should pick.
#[derive(Debug, Clone, Copy, PartialEq, Eq, Structural)]
pub enum Quality {
    Lowest,
    Highest,
    Resolution(u16, u16),
    Youtube144p,
    Youtube240p,
    Youtube360p,
    Youtube480p,
    Youtube720p,
    Youtube1080p,
    Youtube2k,
    Youtube1440p,
    Youtube4k,
    Youtube8k,
}

/// Why a quality token was rejected.
#[derive(Debug, Clone, Copy, PartialEq, Eq, Structural)]
pub enum QualityError {
    /// The part in front of the first `x` is no 16-bit number.
    InvalidWidth,
    /// The part behind the first `x` is no 16-bit number.
    InvalidHeight,
    /// The token is no known literal and holds no `x`.
    UnknownToken,
}

/// The preset that a lower-case literal token stands for, if any.
pub open spec fn preset_of(t: Seq<char>) -> Option<Quality> {
    if t == "lowest"@ || t == "min"@ {
        Some(Quality::Lowest)
    } else if t == "144p"@ {
        Some(Quality::Youtube144p)
    } else if t == "240p"@ {
        Some(Quality::Youtube240p)
    } else if t == "360p"@ {
        Some(Quality::Youtube360p)
    } else if t == "480p"@ {
        Some(Quality::Youtube480p)
    } else if t == "720p"@ || t == "hd"@ {
        Some(Quality::Youtube720p)
    } else if t == "1080p"@ || t == "fhd"@ {
        Some(Quality::Youtube1080p)
    } else if t == "2k"@ {
        Some(Quality::Youtube2k)
    } else if t == "1440p"@ || t == "qhd"@ {
        Some(Quality::Youtube1440p)
    } else if t == "4k"@ {
        Some(Quality::Youtube4k)
    } else if t == "8k"@ {
        Some(Quality::Youtube8k)
    } else if t == "highest"@ || t == "max"@ {
        Some(Quality::Highest)
    } else {
        None
    }
}

/// The reading of a `WIDTHxHEIGHT` token: split once at the first `x`,
/// the width judged before the height.
pub open spec fn resolution_of(t: Seq<char>) -> Result<Quality, QualityError> {
    match parse_u16(before_first(t, 'x')) {
        None => Err(QualityError::InvalidWidth),
        Some(w) => match parse_u16(after_first(t, 'x')) {
            None => Err(QualityError::InvalidHeight),
            Some(h) => Ok(Quality::Resolution(w, h)),
        },
    }
}

/// The selector that a lower-case token denotes.
pub open spec fn quality_of_lowercase(t: Seq<char>) -> Result<Quality, QualityError> {
    match preset_of(t) {
        Some(q) => Ok(q),
        None => if t.contains('x') {
            resolution_of(t)
        } else {
            Err(QualityError::UnknownToken)
        },
    }
}

/// The selector that a token denotes, whatever its case.
pub open spec fn quality_of(s: Seq<char>) -> Result<Quality, QualityError> {
    quality_of_lowercase(lowercase_of(s))
}

fn preset(t: &Vec<char>) -> (r: Option<Quality>)
    ensures
        r == preset_of(t@),
{
    if equals(t, "lowest") || equals(t, "min") {
        Some(Quality::Lowest)
    } else if equals(t, "144p") {
        Some(Quality::Youtube144p)
    } else if equals(t, "240p") {
        Some(Quality::Youtube240p)
    } else if equals(t, "360p") {
        Some(Quality::Youtube360p)
    } else if equals(t, "480p") {
        Some(Quality::Youtube480p)
    } else if equals(t, "720p") || equals(t, "hd") {
        Some(Quality::Youtube720p)
    } else if equals(t, "1080p") || equals(t, "fhd") {
        Some(Quality::Youtube1080p)
    } else if equals(t, "2k") {
        Some(Quality::Youtube2k)
    } else if equals(t, "1440p") || equals(t, "qhd") {
        Some(Quality::Youtube1440p)
    } else if equals(t, "4k") {
        Some(Quality::Youtube4k)
    } else if equals(t, "8k") {
        Some(Quality::Youtube8k)
    } else if equals(t, "highest") || equals(t, "max") {
        Some(Quality::Highest)
    } else {
        None
    }
}

/// Parses a token that is already in lower case.
pub fn parse_lowercase_quality(t: &str) -> (r: Result<Quality, QualityError>)
    ensures
        r == quality_of_lowercase(t@),
{
    let v = chars_of(t);
    match preset(&v) {
        Some(q) => Ok(q),
        None => {
            let i = find_first(&v, 'x');
            proof {
                lemma_first_index_bounds(v@, 'x');
            }
            if i < v.len() {
                assert(v@.contains('x'));
                assert(v@.take(i as int) =~= v@.subrange(0, i as int));
                assert(v@.skip(i as int + 1) =~= v@.subrange(i as int + 1, v@.len() as int));
                match parse_u16_range(&v, 0, i) {
                    None => Err(QualityError::InvalidWidth),
                    Some(w) => match parse_u16_range(&v, i + 1, v.len()) {
                        None => Err(QualityError::InvalidHeight),
                        Some(h) => Ok(Quality::Resolution(w, h)),
                    },
                }
            } else {
                assert(!v@.contains('x'));
                Err(QualityError::UnknownToken)
            }
        },
    }
}

/// Parses the quality option, case-insensitively: the token is put in
/// lower case and then read by `parse_lowercase_quality`.
pub fn quality_parser(s: &str) -> (r: Result<Quality, QualityError>)
    ensures
        r == quality_of(s@),
{
    let t = to_lowercase(s);
    parse_lowercase_quality(t.as_str())
}

/// Accepts exactly the tokens that `quality_parser` accepts.
pub fn quality_validator(s: &str) -> (r: Result<(), QualityError>)
    ensures
        r is Ok <==> quality_of(s@) is Ok,
        r is Err ==> quality_of(s@) == Err::<Quality, QualityError>(r->Err_0),
{
    match quality_parser(s) {
        Ok(_) => Ok(()),
        Err(e) => Err(e),
    }
}

impl QualityError {
    /// The text shown to the user for this failure.
    pub fn message(&self) -> (r: String)
        ensures
            *self == QualityError::InvalidWidth ==> r@ == "invalid width"@,
            *self == QualityError::InvalidHeight ==> r@ == "invalid height"@,
            *self == QualityError::UnknownToken ==> r@
                == "\npossible values: [lowest, min, 144p, 240p, 360p, 480p, 720p, hd, 1080p, fhd, 2k, 1440p, qhd, 4k, 8k, highest, max]\nFor custom resolution use WIDTHxHEIGHT"@,
    {
        match self {
            QualityError::InvalidWidth => String::from_str("invalid width"),
            QualityError::InvalidHeight => String::from_str("invalid height"),
            QualityError::UnknownToken => String::from_str(
                "\npossible values: [lowest, min, 144p, 240p, 360p, 480p, 720p, hd, 1080p, fhd, 2k, 1440p, qhd, 4k, 8k, highest, max]\nFor custom resolution use WIDTHxHEIGHT",
            ),
        }
    }
}

} // verus!
