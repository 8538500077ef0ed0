use std::io::{Error, ErrorKind};
use std::str::FromStr;

use connect_proxy::connect::{MAX_HEADERS_PER_REQ, MAX_HEADER_BYTES};
use connect_proxy::outside::Head;
use connect_proxy::parse_req::{
    decided_after, parse_req_from_buf, request_from_head, InvalidMethod, Method, ParseError,
    Progress, RequestReader,
};

type Request = (Method, String, Option<Vec<u8>>);

/// Reads a request from a client that sends `raw`, at most `chunk` bytes at a time, and then stops.
fn read_in_chunks(
    raw: &[u8],
    chunk: usize,
    max_headers: usize,
    max_header_bytes: usize,
) -> Result<Request, ParseError> {
    let mut reader = RequestReader::new(max_headers, max_header_bytes);
    let mut sent = 0;
    let mut progress = reader.more();
    loop {
        match progress {
            Progress::Read(room) => {
                let n = room.min(chunk).min(raw.len() - sent);
                let data = raw[sent..sent + n].to_vec();
                sent += n;
                progress = reader.after_read(data);
            }
            Progress::Done(result) => return result,
        }
    }
}

fn read_and_parse(raw: &[u8], max_header_bytes: usize) -> Result<Request, ParseError> {
    read_in_chunks(raw, raw.len(), MAX_HEADERS_PER_REQ, max_header_bytes)
}

fn invalid(text: &str) -> ParseError {
    ParseError::Invalid { e: text.to_string() }
}

#[test]
fn test_parse_connect_ok() {
    let raw = b"CONNECT google.com:443 HTTP/1.1\r\nHost: google.com:443\r\n\r\n";
    let (method, path, parsed_len) = parse_req_from_buf(raw, MAX_HEADERS_PER_REQ).unwrap();

    assert_eq!(method, Method::Connect);
    assert_eq!(path, "google.com:443");
    assert_eq!(parsed_len, raw.len());
}

#[test]
fn test_parse_connect_with_leftover() {
    let raw = b"CONNECT google.com:443 HTTP/1.1\r\n\r\nTLSBYTES";
    let (_method, _path, parsed_len) = parse_req_from_buf(raw, MAX_HEADERS_PER_REQ).unwrap();

    assert_eq!(parsed_len, raw.len() - "TLSBYTES".len());
}

#[test]
fn test_parse_incorrect_method() {
    let raw = b"GET / HTTP/1.1\r\n\r\n";
    let err = parse_req_from_buf(raw, MAX_HEADERS_PER_REQ).unwrap_err();

    assert_eq!(err, ParseError::InvalidMethod);
}

#[test]
fn test_read_and_parse_simple_connect_no_leftover() {
    let raw = b"CONNECT google.com:443 HTTP/1.1\r\nHost: google.com:443\r\n\r\n";
    let (method, path, leftover) = read_and_parse(raw, MAX_HEADER_BYTES).unwrap();

    assert_eq!(method, Method::Connect);
    assert_eq!(path, "google.com:443");
    assert!(leftover.is_none());
}

#[test]
fn test_read_and_parse_connect_with_leftover_bytes() {
    let raw = b"CONNECT google.com:443 HTTP/1.1\r\n\r\nTLSBYTES";
    let (method, path, leftover) = read_and_parse(raw, MAX_HEADER_BYTES).unwrap();

    assert_eq!(method, Method::Connect);
    assert_eq!(path, "google.com:443");

    let leftover = leftover.expect("expected leftover bytes");
    assert_eq!(leftover, b"TLSBYTES");
}

#[test]
fn test_read_and_parse_closed_before_any_data() {
    let res = read_and_parse(b"", MAX_HEADER_BYTES);
    assert_eq!(res.unwrap_err(), ParseError::Closed);
}

#[test]
fn test_read_and_parse_eof_mid_request() {
    let raw = b"CONNECT google.com:443 HTTP/1.1\r\nHost: google.com:443\r\n";
    let res = read_and_parse(raw, MAX_HEADER_BYTES);
    assert!(matches!(res, Err(ParseError::Invalid { e }) if e == "eof"));
}

#[test]
fn test_read_and_parse_req_too_large() {
    let raw = b"CONNECT google.com:443 HTTP/1.1\r\nHost: google.com:443\r\n";
    let res = read_and_parse(raw, 16);
    assert_eq!(res.unwrap_err(), ParseError::ReqTooLarge);
}

#[test]
fn test_read_and_parse_invalid_method_propagates() {
    let raw = b"GET / HTTP/1.1\r\nHost: google.com\r\n\r\n";
    let res = read_and_parse(raw, MAX_HEADER_BYTES);
    assert_eq!(res.unwrap_err(), ParseError::InvalidMethod);
}

#[test]
fn test_read_and_parse_no_path() {
    let raw = b"CONNECT  HTTP/1.1\r\nHost: google.com\r\n\r\n";
    let res = read_and_parse(raw, MAX_HEADER_BYTES);
    assert!(matches!(res, Err(ParseError::Invalid { e: _e })));
}

#[test]
fn test_read_and_parse_io_error() {
    let reader = RequestReader::new(MAX_HEADERS_PER_REQ, MAX_HEADER_BYTES);
    let res = reader.read_failed(&Error::new(ErrorKind::Other, "ohmy"));
    assert!(matches!(res, Progress::Done(Err(ParseError::Io { e })) if e == "ohmy"));
}

#[test]
fn only_connect_is_a_method() {
    assert_eq!(Method::from_str("CONNECT"), Ok(Method::Connect));
    assert_eq!(Method::try_from("CONNECT"), Ok(Method::Connect));
    for name in ["", "GET", "connect", "CONNECT ", "CONNECTS", "CONNEC", "CONNECt"] {
        assert_eq!(Method::from_str(name), Err(InvalidMethod));
        assert_eq!(Method::try_from(name), Err(InvalidMethod));
    }
    assert_eq!(ParseError::from(InvalidMethod), ParseError::InvalidMethod);
}

#[test]
fn heads_are_turned_into_requests() {
    let text = |s: &str| Some(s.to_string());
    let head = |method, path| Ok(Head::Complete { len: 7, method, path });

    assert_eq!(
        request_from_head(head(text("CONNECT"), text("a:1"))),
        Ok((Method::Connect, "a:1".to_string(), 7))
    );
    assert_eq!(request_from_head(head(None, text("a:1"))), Err(ParseError::NoMethod));
    assert_eq!(request_from_head(head(text("CONNECT"), None)), Err(ParseError::NoPath));
    // The method is looked at before the path.
    assert_eq!(request_from_head(head(text("PUT"), None)), Err(ParseError::InvalidMethod));
    assert_eq!(request_from_head(Ok(Head::Partial)), Err(ParseError::Incomplete));
}

#[test]
fn errors_are_worded_by_the_parser() {
    let parse = |raw: &[u8]| parse_req_from_buf(raw, 1).unwrap_err();

    assert_eq!(parse(b"CONN(CT a:1 HTTP/1.1\r\n\r\n"), invalid("invalid token"));
    assert_eq!(parse(b"CONNECT a:1 HTTP/3.0\r\n\r\n"), invalid("invalid HTTP version"));
    assert_eq!(parse(b"CONNECT a:1 HTTP/1.1x\r\n\r\n"), invalid("invalid new line"));
    assert_eq!(parse(b"CONNECT a:1 HTTP/1.1\r\nA(: b\r\n\r\n"), invalid("invalid header name"));
    assert_eq!(parse(b"CONNECT a:1 HTTP/1.1\r\nA: \0\r\n\r\n"), invalid("invalid header value"));
    assert_eq!(
        parse(b"CONNECT a:1 HTTP/1.1\r\nA: b\r\nC: d\r\n\r\n"),
        invalid("too many headers")
    );
    assert_eq!(
        request_from_head(Err(httparse::Error::Status)),
        Err(invalid("invalid response status"))
    );
}

#[test]
fn the_limit_on_headers_is_exact() {
    let raw = b"CONNECT a:1 HTTP/1.1\r\nA: b\r\nC: d\r\n\r\n";
    assert_eq!(parse_req_from_buf(raw, 1), Err(invalid("too many headers")));
    assert_eq!(
        parse_req_from_buf(raw, 2),
        Ok((Method::Connect, "a:1".to_string(), raw.len()))
    );
    let bare = b"CONNECT a:1 HTTP/1.1\r\n\r\n";
    assert_eq!(
        parse_req_from_buf(bare, 0),
        Ok((Method::Connect, "a:1".to_string(), bare.len()))
    );
}

#[test]
fn a_conclusion_stands_whatever_follows() {
    for raw in [
        &b"\r\n\r\nCONNECT a:1 HTTP/1.1\r\nHost: a\r\n\r\n"[..],
        &b"GET /\xc3\xa4 HTTP/1.0\n\n"[..],
        &b"CONNECT a:1 HTTP/1.1\r\nA\t"[..],
        &b"CONNECT a:1 HTTX"[..],
    ] {
        // No conclusion comes before the last byte.
        for n in 0..raw.len() {
            assert_eq!(parse_req_from_buf(&raw[..n], 4), Err(ParseError::Incomplete));
        }
        let concluded = parse_req_from_buf(raw, 4);
        assert!(concluded != Err(ParseError::Incomplete));
        for more in [&b"\r\n"[..], &b"x"[..], &b"\0\0\0\0\0\0\0\0\0\0"[..], &raw[..]] {
            assert_eq!(parse_req_from_buf(&[raw, more].concat(), 4), concluded);
        }
    }
}

#[test]
fn a_head_is_enough_without_the_rest() {
    let raw = b"\n\r\nCONNECT a:1 HTTP/1.0\nHost: a\r\n\nTLSBYTES";
    let whole = parse_req_from_buf(raw, 4).unwrap();
    assert_eq!(whole.2, raw.len() - "TLSBYTES".len());
    assert_eq!(parse_req_from_buf(&raw[..whole.2], 4), Ok(whole));
}

#[test]
fn it_takes_the_head_to_decide() {
    let raw = b"CONNECT a:1 HTTP/1.1\r\nHost: a\r\n\r\nTLSBYTES";
    let head = raw.len() - "TLSBYTES".len();
    assert_eq!(decided_after(raw, 4), Some(head));
    assert_eq!(decided_after(&raw[..head], 4), Some(head));
    assert_eq!(decided_after(&raw[..head - 1], 4), None);
    assert_eq!(decided_after(b"", 4), None);
    // One header too many shows at the end of its line.
    assert_eq!(decided_after(raw, 0), Some(head - 2));
    assert_eq!(decided_after(b"CON(NECT a:1", 4), Some(4));
}

#[test]
fn longer_input_never_changes_a_conclusion() {
    let long = "x".repeat(70);
    for bad in ["", "\t", "\0", "\x7f", "\u{e4}", " ", "\r", "\n", "\r\n", ":", "("] {
        for at in 0..5 {
            let mut parts = [
                "CONNECT ".to_string(),
                format!("{long}:443"),
                " HTTP/1.1\r\n".to_string(),
                format!("{long}: {long}\t{long}\r\n"),
                "A: b\r\n\r\nmore bytes behind the head".to_string(),
            ];
            let middle = parts[at].len() / 2;
            parts[at].insert_str(middle, bad);
            let raw = parts.concat().into_bytes();
            let mut concluded = None;
            for n in 0..=raw.len() {
                let parsed = parse_req_from_buf(&raw[..n], 4);
                if concluded.is_none() && parsed != Err(ParseError::Incomplete) {
                    concluded = Some(parsed);
                } else if let Some(concluded) = &concluded {
                    assert_eq!(&parsed, concluded);
                }
            }
            assert!(concluded.is_some());
        }
    }
}

#[test]
fn splitting_the_request_makes_no_difference() {
    let raw = b"CONNECT google.com:443 HTTP/1.1\r\nHost: google.com:443\r\n\r\nhello";
    let head = raw.len() - 5;
    for chunk in 1..=raw.len() {
        let (method, path, leftover) =
            read_in_chunks(raw, chunk, MAX_HEADERS_PER_REQ, MAX_HEADER_BYTES).unwrap();
        assert_eq!(method, Method::Connect);
        assert_eq!(path, "google.com:443");
        // What came with the read that completed the head, behind the head.
        let read = ((head + chunk - 1) / chunk * chunk).min(raw.len());
        let expected = if read > head { Some(raw[head..read].to_vec()) } else { None };
        assert_eq!(leftover, expected);
    }
}

#[test]
fn the_limit_on_bytes_is_exact() {
    let raw = b"CONNECT a:1 HTTP/1.1\r\n\r\n";
    assert!(read_and_parse(raw, raw.len()).is_ok());
    assert_eq!(read_and_parse(raw, raw.len() - 1), Err(ParseError::ReqTooLarge));
    // With no room at all, nothing is read.
    assert_eq!(read_and_parse(raw, 0), Err(ParseError::ReqTooLarge));
}

#[test]
fn the_reader_asks_for_what_it_has_room_for() {
    let mut reader = RequestReader::new(4, 10);
    assert!(matches!(reader.more(), Progress::Read(10)));
    assert!(matches!(reader.after_read(b"CONN".to_vec()), Progress::Read(6)));
    assert!(matches!(
        reader.parsed(Ok((Method::Connect, "a:1".to_string(), 3))),
        Progress::Done(Ok((Method::Connect, path, Some(rest)))) if path == "a:1" && rest == b"N"
    ));
    assert!(matches!(
        reader.parsed(Ok((Method::Connect, "a:1".to_string(), 4))),
        Progress::Done(Ok((Method::Connect, _, None)))
    ));
    assert!(matches!(reader.parsed(Err(ParseError::Incomplete)), Progress::Read(6)));
    assert!(matches!(
        reader.parsed(Err(ParseError::NoPath)),
        Progress::Done(Err(ParseError::NoPath))
    ));
    assert!(matches!(
        reader.after_read(b"ECT a:".to_vec()),
        Progress::Done(Err(ParseError::ReqTooLarge))
    ));
}
