//! The last step of a numeric decoder: a matched token has been handed to
//! the parser of the number's type, and the parser's answer is joined with
//! the rest of the input.

use std::num::ParseFloatError;
use std::num::ParseIntError;
use vstd::prelude::*;

use crate::container::decode::error::DecodeError;

verus! {

/// What [`parse_int`] gives for the rest `s` of the input and the answer
/// `parsed` of the integer parser.
pub open spec fn spec_parse_int<'s, T>(s: &'s str, parsed: Result<T, ParseIntError>) -> Result<
    (&'s str, T),
    DecodeError,
> {
    match parsed {
        Ok(v) => Ok((s, v)),
        Err(e) => Err(DecodeError::ParseIntError(e)),
    }
}

/// What [`parse_float`] gives for the rest `s` of the input and the answer
/// `parsed` of the floating parser.
pub open spec fn spec_parse_float<'s, T>(s: &'s str, parsed: Result<T, ParseFloatError>) -> Result<
    (&'s str, T),
    DecodeError,
> {
    match parsed {
        Ok(v) => Ok((s, v)),
        Err(e) => Err(DecodeError::ParseFloatError(e)),
    }
}

/// As [`parse_int`], with `None` in place of the error.
pub fn try_parse_int<'s, T>(pair: (&'s str, Result<T, ParseIntError>)) -> (r: Option<(&'s str, T)>)
    ensures
        r == match pair.1 {
            Ok(v) => Some((pair.0, v)),
            Err(_) => None,
        },
{
    parse_int(pair).ok()
}

/// Joins the rest of the input with the integer that the token was parsed
/// to, or gives the parser's error as a [`DecodeError`].
pub fn parse_int<'s, T>(pair: (&'s str, Result<T, ParseIntError>)) -> (r: Result<
    (&'s str, T),
    DecodeError,
>)
    ensures
        r == spec_parse_int(pair.0, pair.1),
{
    let (s, parsed) = pair;
    match parsed {
        Ok(v) => Ok((s, v)),
        Err(e) => Err(DecodeError::from(e)),
    }
}

/// Joins the rest of the input with the floating value that the token was
/// parsed to, or gives the parser's error as a [`DecodeError`].
pub fn parse_float<'s, T>(pair: (&'s str, Result<T, ParseFloatError>)) -> (r: Result<
    (&'s str, T),
    DecodeError,
>)
    ensures
        r == spec_parse_float(pair.0, pair.1),
{
    let (s, parsed) = pair;
    match parsed {
        Ok(v) => Ok((s, v)),
        Err(e) => Err(DecodeError::from(e)),
    }
}

} // verus!
