use http_server::http::{ParseError, StatusCode};

#[test]
fn every_status_has_its_code_and_reason() {
    assert_eq!(StatusCode::Okay.code(), 200);
    assert_eq!(StatusCode::Okay.reason(), "Ok");
    assert_eq!(StatusCode::BadRequest.code(), 400);
    assert_eq!(StatusCode::BadRequest.reason(), "Bad Request");
    assert_eq!(StatusCode::PermissionDenied.code(), 403);
    assert_eq!(StatusCode::PermissionDenied.reason(), "Permission Denied");
    assert_eq!(StatusCode::NotFound.code(), 404);
    assert_eq!(StatusCode::NotFound.reason(), "Not Found");
}

#[test]
fn not_found_is_404_not_found() {
    let status = StatusCode::NotFound;
    assert_eq!((status.code(), status.reason()), (404, "Not Found"));
    assert_eq!(status.to_string(), "Not Found");
}

#[test]
fn no_two_statuses_share_a_code() {
    let all = [
        StatusCode::Okay,
        StatusCode::BadRequest,
        StatusCode::PermissionDenied,
        StatusCode::NotFound,
    ];
    for a in all {
        for b in all {
            assert_eq!(a.code() == b.code(), a == b);
            assert_eq!(a.reason() == b.reason(), a == b);
        }
    }
}

#[test]
fn every_parse_error_has_its_message() {
    assert_eq!(ParseError::InvalidRequest.message(), "Invalid Request");
    assert_eq!(ParseError::InvalidEncoding.message(), "Invalid Encoding");
    assert_eq!(ParseError::InvalidProtocol.message(), "Invalid Protocol");
    assert_eq!(ParseError::InvalidMethod.message(), "Invalid Method");
    assert_eq!(ParseError::InvalidMethod.to_string(), "Invalid Method");
}

#[test]
fn a_decoding_failure_is_an_encoding_error() {
    let bytes = vec![0xffu8, 0xfe];
    let failure = std::str::from_utf8(&bytes).expect_err("not UTF-8");
    assert_eq!(ParseError::from(failure), ParseError::InvalidEncoding);
}
