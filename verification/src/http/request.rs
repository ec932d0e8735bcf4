use vstd::prelude::*;
use vstd::string::StringSliceAdditionalSpecFns;
use vstd::utf8::{decode_utf8, encode_utf8, valid_utf8};
use crate::http::method::Method;
use crate::http::parse_error::ParseError;
use crate::http::query_string::{parse_query, QueryString, Shape};
use crate::http::text::{
    first_of, lemma_first_of_bounds, lemma_first_of_is, lemma_split_first_of_concat, split_first,
    split_once, str_eq,
};

verus! {

/// A parsed request. Its texts are views into the bytes it was parsed from.
#[derive(Debug)]
pub struct Request<'rs> {
    path: &'rs str,
    method: Method,
    query: Option<QueryString<'rs>>,
    body: Option<&'rs str>,
}

/// A request as plain values.
pub struct RequestView {
    pub method: Method,
    pub path: Seq<char>,
    pub query: Option<Map<Seq<char>, Shape>>,
    pub body: Option<Seq<char>>,
}

impl<'rs> View for Request<'rs> {
    type V = RequestView;

    closed spec fn view(&self) -> RequestView {
        RequestView {
            method: self.method,
            path: self.path@,
            query: match self.query {
                Some(q) => Some(q@),
                None => None,
            },
            body: match self.body {
                Some(b) => Some(b@),
                None => None,
            },
        }
    }
}

/// The first word of a text and what follows it. A word ends at the first
/// space or carriage return, which belongs to neither part. A text without
/// either has no first word.
pub open spec fn next_word(s: Seq<char>) -> Option<(Seq<char>, Seq<char>)> {
    split_first(s, ' ', '\r')
}

/// Whether a text is free of the characters that end a word.
pub open spec fn is_word(s: Seq<char>) -> bool {
    forall|k: int| 0 <= k < s.len() ==> s[k] != ' ' && s[k] != '\r'
}

/// Whether a character ends a word.
pub open spec fn ends_word(c: char) -> bool {
    c == ' ' || c == '\r'
}

/// The number of characters of a text that end a word.
pub open spec fn word_ends(s: Seq<char>) -> nat
    decreases s.len(),
{
    if s.len() == 0 {
        0
    } else if ends_word(s[0]) {
        1 + word_ends(s.drop_first())
    } else {
        word_ends(s.drop_first())
    }
}

/// A request target as path and query: cut at the first `?`, where it has one.
pub open spec fn parse_target(method: Method, target: Seq<char>) -> RequestView {
    match split_first(target, '?', '?') {
        Some((path, query)) => RequestView {
            method,
            path,
            query: Some(parse_query(query)),
            body: None,
        },
        None => RequestView { method, path: target, query: None, body: None },
    }
}

/// What a request text parses to: three words are taken off its front, the
/// method, the target and the protocol. The protocol is checked before the
/// method is read. What follows the third word is not looked at.
pub open spec fn parse_text(text: Seq<char>) -> Result<RequestView, ParseError> {
    match next_word(text) {
        None => Err(ParseError::InvalidRequest),
        Some((method, rest)) => match next_word(rest) {
            None => Err(ParseError::InvalidRequest),
            Some((target, rest)) => match next_word(rest) {
                None => Err(ParseError::InvalidRequest),
                Some((protocol, _)) => if protocol != "HTTP/1.1"@ {
                    Err(ParseError::InvalidProtocol)
                } else {
                    match Method::of_token(method) {
                        None => Err(ParseError::InvalidMethod),
                        Some(m) => Ok(parse_target(m, target)),
                    }
                },
            },
        },
    }
}

/// What the bytes of a request parse to: they are decoded as UTF-8, and the
/// text is parsed.
pub open spec fn parse_request(bytes: Seq<u8>) -> Result<RequestView, ParseError> {
    if valid_utf8(bytes) {
        parse_text(decode_utf8(bytes))
    } else {
        Err(ParseError::InvalidEncoding)
    }
}

/// The line that asks for `path`, with `query` where there is one, by
/// `method`: the three words with a space between them, then carriage
/// return and line feed.
pub open spec fn request_line(method: Method, path: Seq<char>, query: Option<Seq<char>>) -> Seq<char> {
    let target = match query {
        Some(q) => path + seq!['?'] + q,
        None => path,
    };
    method.token() + seq![' '] + target + seq![' '] + "HTTP/1.1"@ + seq!['\r', '\n']
}

/// The first word is what stands before the first space or carriage return:
/// it holds neither, one of them follows it, and the rest follows that.
pub proof fn lemma_next_word(s: Seq<char>)
    ensures
        match next_word(s) {
            Some((word, rest)) => {
                &&& is_word(word)
                &&& s == word + seq![' '] + rest || s == word + seq!['\r'] + rest
            },
            None => is_word(s),
        },
{
    lemma_first_of_bounds(s, ' ', '\r');
    let i = first_of(s, ' ', '\r');
    if i < s.len() {
        let word = s.take(i);
        let rest = s.skip(i + 1);
        assert(s =~= word + seq![s[i]] + rest);
        assert forall|k: int| 0 <= k < word.len() implies word[k] != ' ' && word[k] != '\r' by {
            assert(word[k] == s[k]);
        }
    }
}

/// Taking the first word off a text takes one word end off it; a text
/// without a first word has none.
pub proof fn lemma_word_ends(s: Seq<char>)
    ensures
        match next_word(s) {
            Some((_, rest)) => word_ends(s) == 1 + word_ends(rest),
            None => word_ends(s) == 0,
        },
    decreases s.len(),
{
    if s.len() == 0 {
    } else if ends_word(s[0]) {
        assert(s.skip(1) =~= s.drop_first());
    } else {
        let t = s.drop_first();
        lemma_word_ends(t);
        lemma_first_of_bounds(t, ' ', '\r');
        let i = first_of(t, ' ', '\r');
        if i < t.len() {
            assert(s.skip(i + 2) =~= t.skip(i + 1));
        }
    }
}

/// A text is rejected as no request line where it holds fewer than three
/// word ends, and there only.
pub proof fn lemma_invalid_request(s: Seq<char>)
    ensures
        parse_text(s) == Err::<RequestView, ParseError>(ParseError::InvalidRequest) <==> word_ends(s)
            < 3,
{
    lemma_word_ends(s);
    match next_word(s) {
        Some((_, rest)) => {
            lemma_word_ends(rest);
            match next_word(rest) {
                Some((_, rest)) => {
                    lemma_word_ends(rest);
                },
                None => {},
            }
        },
        None => {},
    }
}

/// A text that begins with three words, each ended, parses by those words
/// alone: a protocol other than `HTTP/1.1` is rejected first, then a method
/// that is no verb's token; else the request is the verb with the target.
pub proof fn lemma_parse_three_words(
    method: Seq<char>,
    target: Seq<char>,
    protocol: Seq<char>,
    ends: (char, char, char),
    rest: Seq<char>,
)
    requires
        is_word(method),
        is_word(target),
        is_word(protocol),
        ends_word(ends.0),
        ends_word(ends.1),
        ends_word(ends.2),
    ensures
        parse_text(
            method + seq![ends.0] + target + seq![ends.1] + protocol + seq![ends.2] + rest,
        ) == if protocol != "HTTP/1.1"@ {
            Err::<RequestView, ParseError>(ParseError::InvalidProtocol)
        } else {
            match Method::of_token(method) {
                None => Err(ParseError::InvalidMethod),
                Some(m) => Ok(parse_target(m, target)),
            }
        },
{
    let after_target = protocol + seq![ends.2] + rest;
    let after_method = target + seq![ends.1] + after_target;
    let text = method + seq![ends.0] + target + seq![ends.1] + protocol + seq![ends.2] + rest;
    assert(text =~= method + seq![ends.0] + after_method);
    lemma_split_first_of_concat(method, ends.0, after_method, ' ', '\r');
    lemma_split_first_of_concat(target, ends.1, after_target, ' ', '\r');
    lemma_split_first_of_concat(protocol, ends.2, rest, ' ', '\r');
}

/// A request line parses to what it was made of, whatever follows it: the
/// path and the query are read back as they were put, where they are words
/// and the path holds no `?`.
pub proof fn lemma_parse_request_line(
    method: Method,
    path: Seq<char>,
    query: Option<Seq<char>>,
    rest: Seq<char>,
)
    requires
        is_word(path),
        forall|k: int| 0 <= k < path.len() ==> path[k] != '?',
        query matches Some(q) ==> is_word(q),
    ensures
        parse_text(request_line(method, path, query) + rest) == Ok::<RequestView, ParseError>(
            RequestView {
                method,
                path,
                query: match query {
                    Some(q) => Some(parse_query(q)),
                    None => None,
                },
                body: None,
            },
        ),
{
    let token = method.token();
    let target = match query {
        Some(q) => path + seq!['?'] + q,
        None => path,
    };
    assert(is_word(token)) by {
        reveal_strlit("GET");
        reveal_strlit("DELETE");
        reveal_strlit("POST");
        reveal_strlit("PUT");
        reveal_strlit("HEAD");
        reveal_strlit("CONNECT");
        reveal_strlit("OPTIONS");
        reveal_strlit("TRACE");
        reveal_strlit("PATCH");
    }
    assert(is_word("HTTP/1.1"@)) by {
        reveal_strlit("HTTP/1.1");
    }
    assert(is_word(target)) by {
        assert forall|k: int| 0 <= k < target.len() implies target[k] != ' ' && target[k] != '\r' by {
            match query {
                Some(q) => {
                    if k < path.len() {
                        assert(target[k] == path[k]);
                    } else if k > path.len() {
                        assert(target[k] == q[k - path.len() - 1]);
                    }
                },
                None => {},
            }
        }
    }
    lemma_parse_three_words(token, target, "HTTP/1.1"@, (' ', ' ', '\r'), seq!['\n'] + rest);
    assert(request_line(method, path, query) + rest =~= token + seq![' '] + target + seq![' ']
        + "HTTP/1.1"@ + seq!['\r'] + (seq!['\n'] + rest));
    Method::lemma_token_round_trip(method);
    match query {
        Some(q) => {
            lemma_split_first_of_concat(path, '?', q, '?', '?');
        },
        None => {
            lemma_first_of_is(path, '?', '?', path.len() as int);
        },
    }
}

/// The path of a request that parsed is a word, and holds no `?`.
pub proof fn lemma_parsed_path(text: Seq<char>)
    ensures
        parse_text(text) matches Ok(request) ==> is_word(request.path) && forall|k: int|
            0 <= k < request.path.len() ==> request.path[k] != '?',
{
    if let Some((_, rest)) = next_word(text) {
        if let Some((target, _)) = next_word(rest) {
            lemma_next_word(rest);
            lemma_first_of_bounds(target, '?', '?');
            let i = first_of(target, '?', '?');
            let path = target.take(i);
            assert forall|k: int| 0 <= k < path.len() implies path[k] != ' ' && path[k] != '\r'
                && path[k] != '?' by {
                assert(path[k] == target[k]);
            }
            assert(target.take(target.len() as int) =~= target);
        }
    }
}

/// Bytes are rejected for their encoding where they are not UTF-8, and
/// there only.
pub proof fn lemma_invalid_encoding(bytes: Seq<u8>)
    ensures
        parse_request(bytes) == Err::<RequestView, ParseError>(ParseError::InvalidEncoding)
            <==> !valid_utf8(bytes),
{
}

/// The UTF-8 bytes of a text parse as the text does.
pub proof fn lemma_parse_request_of_text(text: Seq<char>)
    ensures
        parse_request(encode_utf8(text)) == parse_text(text),
{
    vstd::utf8::encode_utf8_valid_utf8(text);
    vstd::utf8::encode_utf8_decode_utf8(text);
}

/// Takes the first word off a text: the word, and the text after the space
/// or carriage return that ends it.
pub fn get_next_word(input: &str) -> (r: Option<(&str, &str)>)
    ensures
        match r {
            Some((word, rest)) => next_word(input@) == Some((word@, rest@)),
            None => next_word(input@) is None,
        },
{
    split_once(input, 0x20, 0x0d)
}

impl<'rs> Request<'rs> {
    /// The path: the target up to its first `?`.
    pub fn path(&self) -> (r: &str)
        ensures
            r@ == self@.path,
    {
        self.path
    }

    /// The method.
    pub fn method(&self) -> (r: &Method)
        ensures
            *r == self@.method,
    {
        &self.method
    }

    /// The query, where the target has one.
    pub fn query(&self) -> (r: Option<&QueryString<'rs>>)
        ensures
            match r {
                Some(q) => self@.query == Some(q@),
                None => self@.query is None,
            },
    {
        self.query.as_ref()
    }

    /// The body. No request has one: bodies are not parsed.
    pub fn body(&self) -> (r: Option<&str>)
        ensures
            match r {
                Some(b) => self@.body == Some(b@),
                None => self@.body is None,
            },
    {
        self.body
    }

    /// Parses the bytes of a request. Only the request line is read.
    ///
    /// Fails with `InvalidEncoding` on bytes that are not UTF-8, with
    /// `InvalidRequest` where the line has fewer than three delimited words,
    /// with `InvalidProtocol` where the third is not `HTTP/1.1`, and with
    /// `InvalidMethod` where the first is no known verb; in that order.
    pub fn try_from(bytes: &'rs [u8]) -> (r: Result<Request<'rs>, ParseError>)
        ensures
            match r {
                Ok(request) => parse_request(bytes@) == Ok::<RequestView, ParseError>(request@),
                Err(e) => parse_request(bytes@) == Err::<RequestView, ParseError>(e),
            },
            r is Ok ==> r->Ok_0@.body is None,
    {
        let text = match core::str::from_utf8(bytes) {
            Ok(text) => text,
            Err(e) => {
                return Err(ParseError::from(e));
            },
        };
        proof {
            vstd::utf8::encode_utf8_decode_utf8(text@);
            assert(text.spec_bytes() == encode_utf8(text@));
        }
        let (method, rest) = match get_next_word(text) {
            Some(found) => found,
            None => {
                return Err(ParseError::InvalidRequest);
            },
        };
        let (target, rest) = match get_next_word(rest) {
            Some(found) => found,
            None => {
                return Err(ParseError::InvalidRequest);
            },
        };
        let (protocol, _) = match get_next_word(rest) {
            Some(found) => found,
            None => {
                return Err(ParseError::InvalidRequest);
            },
        };
        if !str_eq(protocol, "HTTP/1.1") {
            return Err(ParseError::InvalidProtocol);
        }
        let method = match Method::from_str(method) {
            Ok(method) => method,
            Err(e) => {
                return Err(e);
            },
        };
        let request = match split_once(target, 0x3f, 0x3f) {
            Some((path, query)) => Request {
                path,
                method,
                query: Some(QueryString::from(query)),
                body: None,
            },
            None => Request { path: target, method, query: None, body: None },
        };
        Ok(request)
    }
}

impl<'rs> TryFrom<&'rs [u8]> for Request<'rs> {
    type Error = ParseError;

    /// Parses the bytes of a request, as `Request::try_from` does.
    fn try_from(bytes: &'rs [u8]) -> (r: Result<Request<'rs>, ParseError>)
        ensures
            match r {
                Ok(request) => parse_request(bytes@) == Ok::<RequestView, ParseError>(request@),
                Err(e) => parse_request(bytes@) == Err::<RequestView, ParseError>(e),
            },
    {
        Request::try_from(bytes)
    }
}

/// A request holds references, and no spec function makes one: what
/// `try_from` returns is said in its own contract, by its view.
impl<'rs> vstd::std_specs::convert::TryFromSpecImpl<&'rs [u8]> for Request<'rs> {
    open spec fn obeys_try_from_spec() -> bool {
        false
    }

    open spec fn try_from_spec(bytes: &'rs [u8]) -> Result<Request<'rs>, ParseError> {
        arbitrary()
    }
}

} // verus!
