use http_server::http::{Response, StatusCode};

const PAGE_404: &str =
    "<h1>404 Not Found</h1><p>The page you requested could not be found on this server.</p>";
const PAGE_403: &str = "<h1>403 Permission Denied</h1><p>You do not have permission to access the requested resource.</p>";

fn text(bytes: &[u8]) -> String {
    String::from_utf8_lossy(bytes).into_owned()
}

#[test]
fn test_response() {
    let mut b: Vec<u8> = Vec::new();
    let mut res = Response::new(&mut b);

    res.gen_404().append("Apples".to_string()).send();

    let buf_str = String::from_utf8_lossy(&b);
    println!("buffer: {:?}", buf_str);
    assert_eq!(
        buf_str,
        "HTTP/1.1 404 Not Found\r\nTODO: HEADERS\r\n\r\n<h1>404 Not Found</h1><p>The page you requested could not be found on this server.</p>Apples"
    );
}

#[test]
fn a_fresh_response_is_ok_and_empty() {
    let mut b: Vec<u8> = Vec::new();
    let res = Response::new(&mut b);
    assert_eq!(res.status, StatusCode::Okay);
    assert_eq!(res.body, None);
    assert!(res.writer().is_empty());
    assert!(b.is_empty());
}

#[test]
fn a_fresh_response_sends_the_bare_status_line() {
    let mut b: Vec<u8> = Vec::new();
    Response::new(&mut b).send();
    assert_eq!(text(&b), "HTTP/1.1 200 Ok\r\nTODO: HEADERS\r\n\r\n");
}

#[test]
fn ok_sends_200_with_the_body() {
    let mut b: Vec<u8> = Vec::new();
    let mut res = Response::new(&mut b);
    res.ok(Some("hello".to_string()));
    assert_eq!(res.status, StatusCode::Okay);
    assert_eq!(res.body.as_deref(), Some("hello"));
    assert_eq!(text(&b), "HTTP/1.1 200 Ok\r\nTODO: HEADERS\r\n\r\nhello");
}

#[test]
fn ok_without_body_takes_the_body_away() {
    let mut b: Vec<u8> = Vec::new();
    let mut res = Response::new(&mut b);
    res.gen_404();
    res.ok(None);
    assert_eq!(res.body, None);
    assert_eq!(text(&b), "HTTP/1.1 200 Ok\r\nTODO: HEADERS\r\n\r\n");
}

#[test]
fn bad_request_sends_400_with_the_body() {
    let mut b: Vec<u8> = Vec::new();
    let mut res = Response::new(&mut b);
    res.bad_request(Some("no".to_string()));
    assert_eq!(res.status, StatusCode::BadRequest);
    assert_eq!(text(&b), "HTTP/1.1 400 Bad Request\r\nTODO: HEADERS\r\n\r\nno");
}

#[test]
fn not_found_sends_404_with_the_body() {
    let mut b: Vec<u8> = Vec::new();
    let mut res = Response::new(&mut b);
    res.not_found(Some("gone".to_string()));
    assert_eq!(res.status, StatusCode::NotFound);
    assert_eq!(text(&b), "HTTP/1.1 404 Not Found\r\nTODO: HEADERS\r\n\r\ngone");
}

#[test]
fn send_403_sends_the_403_page() {
    let mut b: Vec<u8> = Vec::new();
    let mut res = Response::new(&mut b);
    res.send_403();
    assert_eq!(res.status, StatusCode::PermissionDenied);
    assert_eq!(
        text(&b),
        format!("HTTP/1.1 403 Permission Denied\r\nTODO: HEADERS\r\n\r\n{}", PAGE_403)
    );
}

#[test]
fn send_404_sends_the_404_page() {
    let mut b: Vec<u8> = Vec::new();
    let mut res = Response::new(&mut b);
    res.send_404();
    assert_eq!(res.status, StatusCode::NotFound);
    assert_eq!(
        text(&b),
        format!("HTTP/1.1 404 Not Found\r\nTODO: HEADERS\r\n\r\n{}", PAGE_404)
    );
}

#[test]
fn gen_sets_status_and_page_and_sends_nothing() {
    let mut b: Vec<u8> = Vec::new();
    let mut res = Response::new(&mut b);
    res.gen_403();
    assert_eq!(res.status, StatusCode::PermissionDenied);
    assert_eq!(res.body.as_deref(), Some(PAGE_403));
    res.gen_404();
    assert_eq!(res.status, StatusCode::NotFound);
    assert_eq!(res.body.as_deref(), Some(PAGE_404));
    assert!(res.writer().is_empty());
}

#[test]
fn append_to_no_body_sets_the_body() {
    let mut b: Vec<u8> = Vec::new();
    let mut res = Response::new(&mut b);
    res.append("first".to_string());
    assert_eq!(res.body.as_deref(), Some("first"));
    assert_eq!(res.status, StatusCode::Okay);
    res.append(String::new()).append(" second".to_string());
    assert_eq!(res.body.as_deref(), Some("first second"));
    assert!(res.writer().is_empty());
}

#[test]
fn status_and_body_may_be_set_again_before_sending() {
    let mut b: Vec<u8> = Vec::new();
    let mut res = Response::new(&mut b);
    res.gen_403().append("x".to_string());
    res.status = StatusCode::BadRequest;
    res.body = Some("y".to_string());
    res.send();
    assert_eq!(text(&b), "HTTP/1.1 400 Bad Request\r\nTODO: HEADERS\r\n\r\ny");
}

#[test]
fn a_second_send_writes_a_second_response_after_the_first() {
    let mut b: Vec<u8> = Vec::new();
    let mut res = Response::new(&mut b);
    res.ok(Some("a".to_string()));
    res.send();
    assert_eq!(
        text(res.writer()),
        "HTTP/1.1 200 Ok\r\nTODO: HEADERS\r\n\r\naHTTP/1.1 200 Ok\r\nTODO: HEADERS\r\n\r\na"
    );
}

#[test]
fn what_the_sink_held_stays_in_front() {
    let mut b: Vec<u8> = b"earlier".to_vec();
    Response::new(&mut b).not_found(None);
    assert_eq!(text(&b), "earlierHTTP/1.1 404 Not Found\r\nTODO: HEADERS\r\n\r\n");
}

#[test]
fn a_body_beyond_ascii_goes_out_as_utf8() {
    let mut b: Vec<u8> = Vec::new();
    Response::new(&mut b).ok(Some("gr\u{fc}\u{df}e \u{20ac}".to_string()));
    let mut expected = b"HTTP/1.1 200 Ok\r\nTODO: HEADERS\r\n\r\ngr".to_vec();
    expected.extend_from_slice(&[0xc3, 0xbc, 0xc3, 0x9f, b'e', b' ', 0xe2, 0x82, 0xac]);
    assert_eq!(b, expected);
}
