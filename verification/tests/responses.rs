use std::io::{Error, ErrorKind};

use connect_proxy::parse_req::ParseError;
use connect_proxy::resp::{
    make_status_response, status_from_parse_error, status_from_upstream_connect_error, Status,
};

const ALL: [Status; 4] =
    [Status::Okay, Status::BadRequest, Status::MethodNotAllowed, Status::BadGateway];

#[test]
fn responses_are_written_out() {
    assert_eq!(Status::Okay.as_http_resp(), b"HTTP/1.1 200 Ok\r\n\r\n");
    assert_eq!(Status::BadRequest.as_http_resp(), b"HTTP/1.1 400 Bad request\r\n\r\n");
    assert_eq!(
        Status::MethodNotAllowed.as_http_resp(),
        b"HTTP/1.1 405 Method not allowed\r\n\r\n"
    );
    assert_eq!(Status::BadGateway.as_http_resp(), b"HTTP/1.1 502 Bad gateway\r\n\r\n");
    for status in ALL {
        assert_eq!(make_status_response(status), status.as_http_resp());
    }
}

#[test]
fn responses_end_at_the_first_empty_line_and_differ() {
    for a in ALL {
        let text = String::from_utf8(a.as_http_resp()).unwrap();
        assert_eq!(text.find("\r\n\r\n"), Some(text.len() - 4));
        assert!(text.starts_with(&format!("HTTP/1.1 {} ", a.code())));
        for b in ALL {
            assert_eq!(a.as_http_resp() == b.as_http_resp(), a == b);
        }
    }
}

#[test]
fn statuses_have_numbers_and_phrases() {
    assert_eq!((Status::Okay.code(), Status::Okay.description()), (200, "Ok"));
    assert_eq!((Status::BadRequest.code(), Status::BadRequest.description()), (400, "Bad request"));
    assert_eq!(
        (Status::MethodNotAllowed.code(), Status::MethodNotAllowed.description()),
        (405, "Method not allowed")
    );
    assert_eq!((Status::BadGateway.code(), Status::BadGateway.description()), (502, "Bad gateway"));
}

#[test]
fn mistakes_have_their_status() {
    let text = || "x".to_string();
    let cases = [
        (ParseError::InvalidMethod, Some(Status::MethodNotAllowed)),
        (ParseError::NoMethod, Some(Status::BadRequest)),
        (ParseError::NoPath, Some(Status::BadRequest)),
        (ParseError::Invalid { e: text() }, Some(Status::BadRequest)),
        (ParseError::ReqTooLarge, Some(Status::BadRequest)),
        (ParseError::Io { e: text() }, Some(Status::BadRequest)),
        (ParseError::Closed, None),
        (ParseError::Incomplete, None),
    ];
    for (err, status) in cases {
        assert_eq!(status_from_parse_error(&err), status);
        assert_eq!(Status::try_from(err), status.ok_or(()));
    }
}

#[test]
fn an_unreachable_target_is_a_bad_gateway() {
    let e = Error::new(ErrorKind::ConnectionRefused, "no");
    assert_eq!(status_from_upstream_connect_error(&e), Status::BadGateway);
}
