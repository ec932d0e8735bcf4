use http_server::http::server::{
    addr, answer, decode, pool_size, serve, DecodeError, QUEUE_CAPACITY, READ_BUFFER_SIZE,
};
use http_server::http::{Method, ParseError, Request, RequestHandler, Response};

const PAGE_404: &str =
    "<h1>404 Not Found</h1><p>The page you requested could not be found on this server.</p>";

fn text(bytes: &[u8]) -> String {
    String::from_utf8_lossy(bytes).into_owned()
}

struct Paths;

impl RequestHandler for Paths {
    fn get(&self, req: &Request, res: &mut Response) {
        res.ok(Some(req.path().to_string()))
    }
}

fn served(read: Option<&[u8]>) -> String {
    let mut out: Vec<u8> = Vec::new();
    let mut res = Response::new(&mut out);
    let _ = serve(&Paths, read, &mut res);
    text(&out)
}

fn outcome(read: Option<&[u8]>) -> Result<(), DecodeError> {
    let mut out: Vec<u8> = Vec::new();
    let mut res = Response::new(&mut out);
    serve(&Paths, read, &mut res)
}

#[test]
fn serve_says_why_it_answered_400() {
    assert_eq!(outcome(Some(b"GET / HTTP/1.1\r\n")), Ok(()));
    assert_eq!(outcome(Some(b"PUT / HTTP/1.1\r\n")), Ok(()));
    assert_eq!(outcome(None), Err(DecodeError::Read));
    assert_eq!(
        outcome(Some(b"GET /")),
        Err(DecodeError::Parse(ParseError::InvalidRequest))
    );
    assert_eq!(
        outcome(Some(b"GET / HTTP/1.2\r\n")),
        Err(DecodeError::Parse(ParseError::InvalidProtocol))
    );
    assert_eq!(
        outcome(Some(b"FETCH / HTTP/1.1\r\n")),
        Err(DecodeError::Parse(ParseError::InvalidMethod))
    );
    assert_eq!(
        outcome(Some(b"\xff")),
        Err(DecodeError::Parse(ParseError::InvalidEncoding))
    );
}

#[test]
fn the_sizes_are_fixed() {
    assert_eq!(READ_BUFFER_SIZE, 1024);
    assert_eq!(QUEUE_CAPACITY, 100);
}

#[test]
fn the_pool_has_one_worker_at_least() {
    assert_eq!(pool_size(None), 1);
    assert_eq!(pool_size(Some(0)), 1);
    assert_eq!(pool_size(Some(1)), 1);
    assert_eq!(pool_size(Some(8)), 8);
    assert_eq!(pool_size(Some(usize::MAX)), usize::MAX);
}

#[test]
fn the_address_is_host_colon_port() {
    assert_eq!(addr("127.0.0.1", 8080), "127.0.0.1:8080");
    assert_eq!(addr("localhost", 0), "localhost:0");
    assert_eq!(addr("::1", 65535), "::1:65535");
    assert_eq!(addr("", 7), ":7");
    assert_eq!(addr("h", 10), "h:10");
    assert_eq!(addr("h", 100), "h:100");
    assert_eq!(addr("h", 1009), "h:1009");
    assert_eq!(addr("h", 40000), "h:40000");
}

#[test]
fn a_failed_read_decodes_to_a_read_error() {
    match decode(None) {
        Err(e) => {
            assert_eq!(e, DecodeError::Read);
            assert_eq!(e.message(), "Failed to read request bytes");
        }
        Ok(request) => panic!("decoded: {:?}", request),
    }
}

#[test]
fn bytes_that_are_no_request_decode_to_the_parse_error() {
    let cases: [(&[u8], ParseError); 4] = [
        (b"GET /", ParseError::InvalidRequest),
        (b"GET / HTTP/1.2\r\n", ParseError::InvalidProtocol),
        (b"FETCH / HTTP/1.1\r\n", ParseError::InvalidMethod),
        (b"GET /\xff HTTP/1.1\r\n", ParseError::InvalidEncoding),
    ];
    for (bytes, expected) in cases {
        match decode(Some(bytes)) {
            Err(e) => {
                assert_eq!(e, DecodeError::Parse(expected));
                assert_eq!(e.message(), "Error converting bytes to result!");
            }
            Ok(request) => panic!("decoded: {:?}", request),
        }
    }
}

#[test]
fn the_bytes_of_a_request_decode_to_it() {
    let request = decode(Some(b"PATCH /p?x=1 HTTP/1.1\r\n")).expect("request");
    assert_eq!(*request.method(), Method::PATCH);
    assert_eq!(request.path(), "/p");
    assert_eq!(request.query().expect("query").len(), 1);
}

#[test]
fn a_request_is_answered_by_the_handler() {
    assert_eq!(
        served(Some(b"GET /index?lang=en HTTP/1.1\r\nHost: x\r\n\r\n")),
        "HTTP/1.1 200 Ok\r\nTODO: HEADERS\r\n\r\n/index"
    );
    assert_eq!(
        served(Some(b"PUT /index HTTP/1.1\r\n")),
        format!("HTTP/1.1 404 Not Found\r\nTODO: HEADERS\r\n\r\n{}", PAGE_404)
    );
}

#[test]
fn a_failed_read_is_answered_with_400() {
    assert_eq!(
        served(None),
        "HTTP/1.1 400 Bad Request\r\nTODO: HEADERS\r\n\r\n<h1>400 Bad Request</h1><p>Failed to read request bytes</p>"
    );
}

#[test]
fn a_truncated_request_is_answered_with_400() {
    let expected = "HTTP/1.1 400 Bad Request\r\nTODO: HEADERS\r\n\r\n<h1>400 Bad Request</h1><p>Error converting bytes to result!</p>";
    assert_eq!(served(Some(b"")), expected);
    assert_eq!(served(Some(b"GET /index HTT")), expected);
    assert_eq!(served(Some(b"GET /index HTTP/1.0\r\n")), expected);
    assert_eq!(served(Some(b"YELL /index HTTP/1.1\r\n")), expected);
    assert_eq!(served(Some(b"\xff\xff\xff")), expected);
}

#[test]
fn each_connection_gets_one_response_in_its_own_sink() {
    let reads: Vec<Option<Vec<u8>>> = vec![
        Some(b"GET /a HTTP/1.1\r\n".to_vec()),
        None,
        Some(b"GET /b HTTP/1.1\r\n".to_vec()),
        Some(b"nonsense".to_vec()),
        Some(b"GET /c HTTP/1.1\r\n".to_vec()),
    ];
    let answers: Vec<String> = reads.iter().map(|read| served(read.as_deref())).collect();
    assert_eq!(answers.len(), 5);
    assert_eq!(answers[0], "HTTP/1.1 200 Ok\r\nTODO: HEADERS\r\n\r\n/a");
    assert!(answers[1].starts_with("HTTP/1.1 400 Bad Request\r\n"));
    assert_eq!(answers[2], "HTTP/1.1 200 Ok\r\nTODO: HEADERS\r\n\r\n/b");
    assert!(answers[3].starts_with("HTTP/1.1 400 Bad Request\r\n"));
    assert_eq!(answers[4], "HTTP/1.1 200 Ok\r\nTODO: HEADERS\r\n\r\n/c");
    for answer in &answers {
        assert_eq!(answer.matches("HTTP/1.1 ").count(), 1);
    }
}

#[test]
fn answer_serves_a_fresh_response_on_the_sink() {
    let mut sink: Vec<u8> = Vec::new();
    assert_eq!(answer(&Paths, Some(b"GET /here?x=1 HTTP/1.1\r\n"), &mut sink), Ok(()));
    assert_eq!(text(&sink), "HTTP/1.1 200 Ok\r\nTODO: HEADERS\r\n\r\n/here");

    let mut sink: Vec<u8> = Vec::new();
    assert_eq!(answer(&Paths, Some(b"DELETE /here HTTP/1.1\r\n"), &mut sink), Ok(()));
    assert_eq!(
        text(&sink),
        format!("HTTP/1.1 404 Not Found\r\nTODO: HEADERS\r\n\r\n{}", PAGE_404)
    );
}

#[test]
fn answer_says_why_it_answered_400() {
    let mut sink: Vec<u8> = Vec::new();
    assert_eq!(answer(&Paths, None, &mut sink), Err(DecodeError::Read));
    assert_eq!(
        text(&sink),
        "HTTP/1.1 400 Bad Request\r\nTODO: HEADERS\r\n\r\n<h1>400 Bad Request</h1><p>Failed to read request bytes</p>"
    );

    let mut sink: Vec<u8> = Vec::new();
    assert_eq!(
        answer(&Paths, Some(b"GET / HTTP/1.2\r\n"), &mut sink),
        Err(DecodeError::Parse(ParseError::InvalidProtocol))
    );
    assert_eq!(
        text(&sink),
        "HTTP/1.1 400 Bad Request\r\nTODO: HEADERS\r\n\r\n<h1>400 Bad Request</h1><p>Error converting bytes to result!</p>"
    );
}

#[test]
fn answer_adds_to_what_the_sink_held() {
    let mut sink: Vec<u8> = b"before".to_vec();
    let _ = answer(&Paths, Some(b"GET /a HTTP/1.1\r\n"), &mut sink);
    assert_eq!(text(&sink), "beforeHTTP/1.1 200 Ok\r\nTODO: HEADERS\r\n\r\n/a");
}

#[test]
fn the_answer_to_a_connection_does_not_depend_on_the_others() {
    let reads: Vec<Option<&[u8]>> = vec![
        Some(b"GET /a HTTP/1.1\r\n"),
        None,
        Some(b"PUT /b HTTP/1.1\r\n"),
        Some(b"rubbish"),
    ];
    let alone: Vec<Vec<u8>> = reads
        .iter()
        .map(|read| {
            let mut sink: Vec<u8> = Vec::new();
            let _ = answer(&Paths, *read, &mut sink);
            sink
        })
        .collect();
    let mut sinks: Vec<Vec<u8>> = vec![Vec::new(); reads.len()];
    for i in (0..reads.len()).rev() {
        let _ = answer(&Paths, reads[i], &mut sinks[i]);
    }
    assert_eq!(sinks, alone);
}
