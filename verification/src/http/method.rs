use vstd::prelude::*;
use vstd::string::StringExecFns;
use crate::http::parse_error::ParseError;
use crate::http::text::str_eq;

verus! {

/// The HTTP verbs this server knows.
#[derive(Clone, Copy, Debug, PartialEq, Eq, Structural)]
pub enum Method {
    GET,
    DELETE,
    POST,
    PUT,
    HEAD,
    CONNECT,
    OPTIONS,
    TRACE,
    PATCH,
}

impl Method {
    /// The token of each verb: its name in upper case.
    pub open spec fn token(&self) -> Seq<char> {
        match self {
            Method::GET => "GET"@,
            Method::DELETE => "DELETE"@,
            Method::POST => "POST"@,
            Method::PUT => "PUT"@,
            Method::HEAD => "HEAD"@,
            Method::CONNECT => "CONNECT"@,
            Method::OPTIONS => "OPTIONS"@,
            Method::TRACE => "TRACE"@,
            Method::PATCH => "PATCH"@,
        }
    }

    /// The verb that a token names: the one whose token it is, letter for
    /// letter. No trimming, no folding of case.
    pub open spec fn of_token(s: Seq<char>) -> Option<Method> {
        if s == "GET"@ {
            Some(Method::GET)
        } else if s == "DELETE"@ {
            Some(Method::DELETE)
        } else if s == "POST"@ {
            Some(Method::POST)
        } else if s == "PUT"@ {
            Some(Method::PUT)
        } else if s == "HEAD"@ {
            Some(Method::HEAD)
        } else if s == "CONNECT"@ {
            Some(Method::CONNECT)
        } else if s == "OPTIONS"@ {
            Some(Method::OPTIONS)
        } else if s == "TRACE"@ {
            Some(Method::TRACE)
        } else if s == "PATCH"@ {
            Some(Method::PATCH)
        } else {
            None
        }
    }

    /// Returns the verb's token.
    pub fn as_str(&self) -> (r: &'static str)
        ensures
            r@ == self.token(),
    {
        match self {
            Method::GET => "GET",
            Method::DELETE => "DELETE",
            Method::POST => "POST",
            Method::PUT => "PUT",
            Method::HEAD => "HEAD",
            Method::CONNECT => "CONNECT",
            Method::OPTIONS => "OPTIONS",
            Method::TRACE => "TRACE",
            Method::PATCH => "PATCH",
        }
    }

    /// Returns the verb's token as an owned string.
    pub fn to_string(&self) -> (r: String)
        ensures
            r@ == self.token(),
    {
        String::from_str(self.as_str())
    }

    /// Reads a verb from its token. Any other text is an invalid method.
    pub fn from_str(s: &str) -> (r: Result<Method, ParseError>)
        ensures
            r == match Method::of_token(s@) {
                Some(m) => Ok::<Method, ParseError>(m),
                None => Err(ParseError::InvalidMethod),
            },
    {
        if str_eq(s, "GET") {
            Ok(Method::GET)
        } else if str_eq(s, "DELETE") {
            Ok(Method::DELETE)
        } else if str_eq(s, "POST") {
            Ok(Method::POST)
        } else if str_eq(s, "PUT") {
            Ok(Method::PUT)
        } else if str_eq(s, "HEAD") {
            Ok(Method::HEAD)
        } else if str_eq(s, "CONNECT") {
            Ok(Method::CONNECT)
        } else if str_eq(s, "OPTIONS") {
            Ok(Method::OPTIONS)
        } else if str_eq(s, "TRACE") {
            Ok(Method::TRACE)
        } else if str_eq(s, "PATCH") {
            Ok(Method::PATCH)
        } else {
            Err(ParseError::InvalidMethod)
        }
    }

    /// A text names a verb only where it is that verb's token.
    pub proof fn lemma_of_token_exact(s: Seq<char>, m: Method)
        requires
            Method::of_token(s) == Some(m),
        ensures
            s == m.token(),
    {
    }

    /// A text with a character that is no upper-case letter names no verb:
    /// not one in lower case, not one with a blank before or after it.
    pub proof fn lemma_tokens_are_upper_case(s: Seq<char>, k: int)
        requires
            0 <= k < s.len(),
            !('A' <= s[k] <= 'Z'),
        ensures
            Method::of_token(s) is None,
    {
        reveal_strlit("GET");
        reveal_strlit("DELETE");
        reveal_strlit("POST");
        reveal_strlit("PUT");
        reveal_strlit("HEAD");
        reveal_strlit("CONNECT");
        reveal_strlit("OPTIONS");
        reveal_strlit("TRACE");
        reveal_strlit("PATCH");
    }

    /// Reading a verb's own token gives that verb back.
    pub proof fn lemma_token_round_trip(m: Method)
        ensures
            Method::of_token(m.token()) == Some(m),
    {
        reveal_strlit("GET");
        reveal_strlit("DELETE");
        reveal_strlit("POST");
        reveal_strlit("PUT");
        reveal_strlit("HEAD");
        reveal_strlit("CONNECT");
        reveal_strlit("OPTIONS");
        reveal_strlit("TRACE");
        reveal_strlit("PATCH");
        assert("GET"@.len() == 3 && "PUT"@.len() == 3);
        assert("POST"@.len() == 4 && "HEAD"@.len() == 4);
        assert("TRACE"@.len() == 5 && "PATCH"@.len() == 5);
        assert("DELETE"@.len() == 6);
        assert("CONNECT"@.len() == 7 && "OPTIONS"@.len() == 7);
        assert("GET"@[0] != "PUT"@[0]);
        assert("POST"@[0] != "HEAD"@[0]);
        assert("CONNECT"@[0] != "OPTIONS"@[0]);
        assert("TRACE"@[0] != "PATCH"@[0]);
    }
}

impl core::str::FromStr for Method {
    type Err = ParseError;

    /// Reads a verb from its token, as `Method::from_str` does: the verb
    /// whose token the text is, letter for letter, and an invalid method for
    /// any other text.
    fn from_str(s: &str) -> (r: Result<Method, ParseError>)
        ensures
            r == match Method::of_token(s@) {
                Some(m) => Ok::<Method, ParseError>(m),
                None => Err(ParseError::InvalidMethod),
            },
    {
        Method::from_str(s)
    }
}

} // verus!
