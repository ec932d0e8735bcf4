use vstd::prelude::*;
use vstd::string::StringExecFns;

verus! {

/// The status of a response: a numeric code with its reason phrase.
#[derive(Clone, Copy, Debug, PartialEq, Eq, Structural)]
pub enum StatusCode {
    Okay,
    BadRequest,
    PermissionDenied,
    NotFound,
}

impl StatusCode {
    /// The numeric code of each status.
    pub open spec fn spec_code(&self) -> u16 {
        match self {
            StatusCode::Okay => 200,
            StatusCode::BadRequest => 400,
            StatusCode::PermissionDenied => 403,
            StatusCode::NotFound => 404,
        }
    }

    /// The reason phrase of each status.
    pub open spec fn spec_reason(&self) -> Seq<char> {
        match self {
            StatusCode::Okay => "Ok"@,
            StatusCode::BadRequest => "Bad Request"@,
            StatusCode::PermissionDenied => "Permission Denied"@,
            StatusCode::NotFound => "Not Found"@,
        }
    }

    /// Returns the numeric status code.
    #[verifier::when_used_as_spec(spec_code)]
    pub fn code(&self) -> (c: u16)
        ensures
            c == self.spec_code(),
    {
        match self {
            StatusCode::Okay => 200,
            StatusCode::BadRequest => 400,
            StatusCode::PermissionDenied => 403,
            StatusCode::NotFound => 404,
        }
    }

    /// Returns the reason phrase that goes with the code.
    pub fn reason(&self) -> (r: &'static str)
        ensures
            r@ == self.spec_reason(),
    {
        match self {
            StatusCode::Okay => "Ok",
            StatusCode::BadRequest => "Bad Request",
            StatusCode::PermissionDenied => "Permission Denied",
            StatusCode::NotFound => "Not Found",
        }
    }

    /// Returns the reason phrase as an owned string.
    pub fn to_string(&self) -> (r: String)
        ensures
            r@ == self.spec_reason(),
    {
        String::from_str(self.reason())
    }

    /// The code tells the status, and with it the reason phrase: a code and
    /// its phrase are one fixed pair.
    pub proof fn lemma_code_fixes_reason(a: StatusCode, b: StatusCode)
        requires
            a.spec_code() == b.spec_code(),
        ensures
            a == b,
            a.spec_reason() == b.spec_reason(),
    {
    }
}

} // verus!
