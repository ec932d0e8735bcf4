use vstd::prelude::*;
use vstd::string::StringExecFns;
use core::str::Utf8Error;

verus! {

/// Why a request could not be parsed. Parsing stops at the first failure.
#[derive(Clone, Copy, Debug, PartialEq, Eq, Structural)]
pub enum ParseError {
    /// The request line lacks one of its three delimited tokens.
    InvalidRequest,
    /// The bytes are not UTF-8.
    InvalidEncoding,
    /// The protocol token is not `HTTP/1.1`.
    InvalidProtocol,
    /// The method token is none of the known verbs.
    InvalidMethod,
}

impl ParseError {
    /// The human-readable text of each failure.
    pub open spec fn spec_message(&self) -> Seq<char> {
        match self {
            ParseError::InvalidRequest => "Invalid Request"@,
            ParseError::InvalidEncoding => "Invalid Encoding"@,
            ParseError::InvalidProtocol => "Invalid Protocol"@,
            ParseError::InvalidMethod => "Invalid Method"@,
        }
    }

    /// Returns the human-readable text of the failure.
    pub fn message(&self) -> (r: &'static str)
        ensures
            r@ == self.spec_message(),
    {
        match self {
            ParseError::InvalidRequest => "Invalid Request",
            ParseError::InvalidEncoding => "Invalid Encoding",
            ParseError::InvalidProtocol => "Invalid Protocol",
            ParseError::InvalidMethod => "Invalid Method",
        }
    }

    /// Returns the text of the failure as an owned string.
    pub fn to_string(&self) -> (r: String)
        ensures
            r@ == self.spec_message(),
    {
        String::from_str(self.message())
    }
}

impl From<Utf8Error> for ParseError {
    /// Bytes that do not decode are an encoding failure, wherever they stop decoding.
    fn from(e: Utf8Error) -> (r: ParseError) {
        ParseError::InvalidEncoding
    }
}

impl vstd::std_specs::convert::FromSpecImpl<Utf8Error> for ParseError {
    open spec fn obeys_from_spec() -> bool {
        true
    }

    open spec fn from_spec(e: Utf8Error) -> ParseError {
        ParseError::InvalidEncoding
    }
}

} // verus!
