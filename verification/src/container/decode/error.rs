//! Why a token could not be decoded.

use std::num::ParseFloatError;
use std::num::ParseIntError;
use vstd::prelude::*;
use vstd::std_specs::convert::FromSpecImpl;

verus! {

/// `std::num::ParseIntError`, carried through as it came from the parser.
#[verifier::external_type_specification]
#[verifier::external_body]
pub struct ExParseIntError(ParseIntError);

/// `std::num::ParseFloatError`, carried through as it came from the parser.
#[verifier::external_type_specification]
#[verifier::external_body]
pub struct ExParseFloatError(ParseFloatError);

/// The failure of a decoder, with the error of the parser that refused the
/// token.
#[derive(Debug, PartialEq)]
pub enum DecodeError {
    /// The token is not an integer literal of the type asked for.
    ParseIntError(ParseIntError),
    /// The token is not a floating literal of the type asked for.
    ParseFloatError(ParseFloatError),
}

impl From<ParseIntError> for DecodeError {
    fn from(e: ParseIntError) -> (r: Self) {
        DecodeError::ParseIntError(e)
    }
}

impl FromSpecImpl<ParseIntError> for DecodeError {
    open spec fn obeys_from_spec() -> bool {
        true
    }

    open spec fn from_spec(e: ParseIntError) -> Self {
        DecodeError::ParseIntError(e)
    }
}

impl From<ParseFloatError> for DecodeError {
    fn from(e: ParseFloatError) -> (r: Self) {
        DecodeError::ParseFloatError(e)
    }
}

impl FromSpecImpl<ParseFloatError> for DecodeError {
    open spec fn obeys_from_spec() -> bool {
        true
    }

    open spec fn from_spec(e: ParseFloatError) -> Self {
        DecodeError::ParseFloatError(e)
    }
}

} // verus!
