use http_server::http::{Request, RequestHandler, Response, StatusCode};

const PAGE_404: &str =
    "<h1>404 Not Found</h1><p>The page you requested could not be found on this server.</p>";

fn text(bytes: &[u8]) -> String {
    String::from_utf8_lossy(bytes).into_owned()
}

struct Nothing;

impl RequestHandler for Nothing {}

/// Answers each verb it defines with the verb's name and the path.
struct Echo;

impl RequestHandler for Echo {
    fn get(&self, req: &Request, res: &mut Response) {
        res.ok(Some(format!("get {}", req.path())))
    }

    fn delete(&self, req: &Request, res: &mut Response) {
        res.ok(Some(format!("delete {}", req.path())))
    }

    fn post(&self, req: &Request, res: &mut Response) {
        res.ok(Some(format!("post {}", req.path())))
    }

    fn put(&self, req: &Request, res: &mut Response) {
        res.ok(Some(format!("put {}", req.path())))
    }

    fn head(&self, req: &Request, res: &mut Response) {
        res.ok(Some(format!("head {}", req.path())))
    }

    fn connect(&self, req: &Request, res: &mut Response) {
        res.ok(Some(format!("connect {}", req.path())))
    }

    fn options(&self, req: &Request, res: &mut Response) {
        res.ok(Some(format!("options {}", req.path())))
    }

    fn trace(&self, req: &Request, res: &mut Response) {
        res.ok(Some(format!("trace {}", req.path())))
    }

    fn patch(&self, req: &Request, res: &mut Response) {
        res.ok(Some(format!("patch {}", req.path())))
    }
}

/// Defines one verb only.
struct OnlyPost;

impl RequestHandler for OnlyPost {
    fn post(&self, _req: &Request, res: &mut Response) {
        res.bad_request(Some("posted".to_string()))
    }
}

fn answer<H: RequestHandler>(handler: &H, line: &str) -> String {
    let mut out: Vec<u8> = Vec::new();
    let req = Request::try_from(line.as_bytes()).expect("request");
    let mut res = Response::new(&mut out);
    handler.handle(&req, &mut res);
    text(&out)
}

#[test]
fn handle_calls_the_operation_of_the_method() {
    let verbs = [
        "GET", "DELETE", "POST", "PUT", "HEAD", "CONNECT", "OPTIONS", "TRACE", "PATCH",
    ];
    for verb in verbs {
        let line = format!("{} /here HTTP/1.1\r\n", verb);
        assert_eq!(
            answer(&Echo, &line),
            format!(
                "HTTP/1.1 200 Ok\r\nTODO: HEADERS\r\n\r\n{} /here",
                verb.to_lowercase()
            )
        );
    }
}

#[test]
fn an_operation_left_undefined_answers_404() {
    let verbs = [
        "GET", "DELETE", "POST", "PUT", "HEAD", "CONNECT", "OPTIONS", "TRACE", "PATCH",
    ];
    for verb in verbs {
        let line = format!("{} /here HTTP/1.1\r\n", verb);
        assert_eq!(
            answer(&Nothing, &line),
            format!("HTTP/1.1 404 Not Found\r\nTODO: HEADERS\r\n\r\n{}", PAGE_404)
        );
    }
}

#[test]
fn only_the_defined_operation_differs() {
    assert_eq!(
        answer(&OnlyPost, "POST / HTTP/1.1\r\n"),
        "HTTP/1.1 400 Bad Request\r\nTODO: HEADERS\r\n\r\nposted"
    );
    assert_eq!(
        answer(&OnlyPost, "GET / HTTP/1.1\r\n"),
        format!("HTTP/1.1 404 Not Found\r\nTODO: HEADERS\r\n\r\n{}", PAGE_404)
    );
}

#[test]
fn handle_bad_sends_400_with_the_message_framed() {
    let mut out: Vec<u8> = Vec::new();
    let mut res = Response::new(&mut out);
    Nothing.handle_bad(&mut res, "it broke");
    assert_eq!(res.status, StatusCode::BadRequest);
    assert_eq!(
        res.body.as_deref(),
        Some("<h1>400 Bad Request</h1><p>it broke</p>")
    );
    assert_eq!(
        text(&out),
        "HTTP/1.1 400 Bad Request\r\nTODO: HEADERS\r\n\r\n<h1>400 Bad Request</h1><p>it broke</p>"
    );
}

#[test]
fn handle_bad_with_no_message_sends_the_empty_frame() {
    let mut out: Vec<u8> = Vec::new();
    let mut res = Response::new(&mut out);
    Echo.handle_bad(&mut res, "");
    assert_eq!(
        text(&out),
        "HTTP/1.1 400 Bad Request\r\nTODO: HEADERS\r\n\r\n<h1>400 Bad Request</h1><p></p>"
    );
}
