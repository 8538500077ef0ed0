use std::io::{Error, ErrorKind};

use connect_proxy::connect::{
    Action, Connection, Error as ProxyError, Event, MAX_HEADERS_PER_REQ, MAX_HEADER_BYTES,
};
use connect_proxy::parse_req::{Method, ParseError};
use connect_proxy::resp::Status;

/// What the outside world does to a connection.
struct World {
    /// What the client sends; a read fails where it is an error.
    sends: Vec<Result<Vec<u8>, Error>>,
    /// Whether the target can be reached.
    target: Result<(), Error>,
    /// How the writes go; those not listed succeed.
    writes: Vec<Result<(), Error>>,
    /// How the tunnel ends.
    tunnel: Result<(), Error>,
}

/// What a connection did to the outside world.
#[derive(Debug, Default)]
struct Trace {
    targets: Vec<String>,
    client: Vec<u8>,
    upstream: Vec<u8>,
    tunnels: usize,
    result: Option<Result<(), String>>,
}

fn fault(text: &str) -> Error {
    Error::new(ErrorKind::Other, text)
}

fn well() -> World {
    World { sends: Vec::new(), target: Ok(()), writes: Vec::new(), tunnel: Ok(()) }
}

fn client_sends(raw: &[u8]) -> World {
    World { sends: vec![Ok(raw.to_vec())], ..well() }
}

fn written(write: Result<(), Error>) -> Event {
    match write {
        Ok(()) => Event::Written,
        Err(e) => Event::WriteFailed(e),
    }
}

fn serve_with(world: World, max_headers: usize, max_header_bytes: usize) -> Trace {
    let mut trace = Trace::default();
    let mut sends = world.sends.into_iter();
    let mut writes = world.writes.into_iter();
    let mut target = Some(world.target);
    let mut tunnel = Some(world.tunnel);
    let (mut connection, mut action) = Connection::start(max_headers, max_header_bytes);
    loop {
        let event = match action {
            Action::Read(room) => match sends.next() {
                None => Event::Received(Vec::new()),
                Some(Ok(data)) => {
                    assert!(data.len() <= room);
                    Event::Received(data)
                }
                Some(Err(e)) => Event::ReadFailed(e),
            },
            Action::Connect(method, path) => {
                assert_eq!(method, Method::Connect);
                trace.targets.push(path);
                match target.take().unwrap() {
                    Ok(()) => Event::Connected,
                    Err(e) => Event::ConnectFailed(e),
                }
            }
            Action::WriteClient(bytes) => {
                trace.client.extend(bytes);
                written(writes.next().unwrap_or(Ok(())))
            }
            Action::WriteUpstream(bytes) => {
                trace.upstream.extend(bytes);
                written(writes.next().unwrap_or(Ok(())))
            }
            Action::Tunnel => {
                trace.tunnels += 1;
                match tunnel.take().unwrap() {
                    Ok(()) => Event::TunnelClosed,
                    Err(e) => Event::TunnelFailed(e),
                }
            }
            Action::Finish(result) => {
                trace.result = Some(result.map_err(|e| e.to_string()));
                return trace;
            }
        };
        (connection, action) = connection.step(event);
    }
}

fn serve(world: World) -> Trace {
    serve_with(world, MAX_HEADERS_PER_REQ, MAX_HEADER_BYTES)
}

#[test]
fn connect_test_invalid_method_returns_405() {
    let trace = serve(client_sends(b"GET / HTTP/1.1\r\nHost: google.com\r\n\r\n"));

    let resp = std::str::from_utf8(&trace.client).unwrap();
    assert!(resp.starts_with("HTTP/1.1 405"));
    assert!(trace.targets.is_empty());
    assert!(trace.result.unwrap().is_ok());
}

#[test]
fn connect_test_upstream_connect_error_returns_502() {
    let trace = serve(World {
        target: Err(fault("no upstream")),
        ..client_sends(b"CONNECT google.com:443 HTTP/1.1\r\n\r\n")
    });

    let resp = std::str::from_utf8(&trace.client).unwrap();
    assert!(resp.starts_with("HTTP/1.1 502"));
    assert_eq!(trace.tunnels, 0);
    assert!(trace.result.unwrap().is_ok());
}

#[test]
fn connect_test_successful_connect_sends_200_leftover_and_tunnels_data() {
    let trace = serve(client_sends(b"CONNECT google.com:443 HTTP/1.1\r\n\r\nhello"));

    let resp = std::str::from_utf8(&trace.client).unwrap();
    assert!(resp.starts_with("HTTP/1.1 200"));
    assert_eq!(trace.targets, ["google.com:443"]);
    assert_eq!(trace.upstream, b"hello");
    assert_eq!(trace.tunnels, 1);
    assert!(trace.result.unwrap().is_ok());
}

#[test]
fn without_leftover_the_tunnel_follows_the_ok() {
    let (connection, action) =
        Connection::requested(Ok((Method::Connect, "a:1".to_string(), None)));
    assert!(matches!(action, Action::Connect(Method::Connect, path) if path == "a:1"));
    let (connection, action) = connection.step(Event::Connected);
    assert!(matches!(action, Action::WriteClient(b) if b == b"HTTP/1.1 200 Ok\r\n\r\n"));
    let (connection, action) = connection.step(Event::Written);
    assert!(matches!(action, Action::Tunnel));
    let (_, action) = connection.step(Event::TunnelClosed);
    assert!(matches!(action, Action::Finish(Ok(()))));
}

#[test]
fn leftover_is_forwarded_between_the_ok_and_the_tunnel() {
    let rest = Some(b"hi".to_vec());
    let (connection, _) = Connection::requested(Ok((Method::Connect, "a:1".to_string(), rest)));
    let (connection, _) = connection.step(Event::Connected);
    let (connection, action) = connection.step(Event::Written);
    assert!(matches!(action, Action::WriteUpstream(b) if b == b"hi"));
    let (_, action) = connection.step(Event::Written);
    assert!(matches!(action, Action::Tunnel));
}

#[test]
fn a_silent_client_gets_no_answer() {
    let trace = serve(well());
    assert!(trace.client.is_empty());
    assert!(trace.targets.is_empty());
    assert_eq!(trace.result, Some(Ok(())));
}

#[test]
fn a_request_that_is_not_complete_is_a_bad_request() {
    let raw = b"CONNECT google.com:443 HTTP/1.1\r\n";
    let bad_request = Status::BadRequest.as_http_resp();

    let stopped = serve(client_sends(raw));
    assert_eq!(stopped.client, bad_request);

    let failed =
        serve(World { sends: vec![Ok(raw.to_vec()), Err(fault("gone"))], ..well() });
    assert_eq!(failed.client, bad_request);

    let too_large = serve_with(client_sends(raw), MAX_HEADERS_PER_REQ, raw.len());
    assert_eq!(too_large.client, bad_request);

    let no_room = serve_with(well(), MAX_HEADERS_PER_REQ, 0);
    assert_eq!(no_room.client, bad_request);

    for trace in [stopped, failed, too_large, no_room] {
        assert!(trace.targets.is_empty());
        assert_eq!(trace.result, Some(Ok(())));
    }
}

#[test]
fn a_request_that_is_not_understood_is_a_bad_request() {
    let trace = serve(client_sends(b"CONNECT  HTTP/1.1\r\nHost: google.com\r\n\r\n"));
    assert_eq!(trace.client, Status::BadRequest.as_http_resp());
    assert!(trace.targets.is_empty());
    assert!(trace.upstream.is_empty());
}

#[test]
fn failures_after_the_target_was_reached_are_reported() {
    let raw = b"CONNECT google.com:443 HTTP/1.1\r\n\r\nhello";
    let ok = Status::Okay.as_http_resp();

    let no_ok = serve(World { writes: vec![Err(fault("first"))], ..client_sends(raw) });
    assert_eq!(no_ok.result, Some(Err("first".to_string())));
    assert_eq!((no_ok.client, no_ok.upstream, no_ok.tunnels), (ok.clone(), Vec::new(), 0));

    let no_leftover =
        serve(World { writes: vec![Ok(()), Err(fault("second"))], ..client_sends(raw) });
    assert_eq!(no_leftover.result, Some(Err("second".to_string())));
    assert_eq!((no_leftover.client, no_leftover.tunnels), (ok.clone(), 0));

    let broken = serve(World { tunnel: Err(fault("third")), ..client_sends(raw) });
    assert_eq!(broken.result, Some(Err("third".to_string())));
    assert_eq!((broken.client, broken.upstream), (ok, b"hello".to_vec()));
}

#[test]
fn a_failure_to_answer_is_reported() {
    let refused = serve(World {
        writes: vec![Err(fault("gone"))],
        ..client_sends(b"GET / HTTP/1.1\r\n\r\n")
    });
    assert_eq!(refused.result, Some(Err("gone".to_string())));

    let unreachable = serve(World {
        target: Err(fault("no upstream")),
        writes: vec![Err(fault("gone too"))],
        ..client_sends(b"CONNECT a:1 HTTP/1.1\r\n\r\n")
    });
    assert_eq!(unreachable.result, Some(Err("gone too".to_string())));
}

#[test]
fn a_trickle_of_bytes_is_served_the_same() {
    let raw = b"CONNECT google.com:443 HTTP/1.1\r\nHost: google.com:443\r\n\r\n";
    let sends = raw.iter().map(|b| Ok(vec![*b])).collect();
    let trace = serve_with(World { sends, ..well() }, 1, raw.len());
    assert_eq!(trace.targets, ["google.com:443"]);
    assert_eq!(trace.client, Status::Okay.as_http_resp());
    assert!(trace.upstream.is_empty());
    assert_eq!(trace.tunnels, 1);
}

#[test]
fn however_it_is_split_a_head_within_the_limit_is_served() {
    let head = b"CONNECT google.com:443 HTTP/1.1\r\nHost: google.com:443\r\n\r\n";
    let stream = [&head[..], &b"hello world"[..]].concat();
    for limit in [head.len(), head.len() + 3, MAX_HEADER_BYTES] {
        for chunk in 1..=stream.len() {
            let mut sent = 0;
            let mut upstream = Vec::new();
            let mut client = Vec::new();
            let (mut connection, mut action) = Connection::start(1, limit);
            loop {
                let event = match action {
                    Action::Read(room) => {
                        let n = room.min(chunk).min(stream.len() - sent);
                        sent += n;
                        Event::Received(stream[sent - n..sent].to_vec())
                    }
                    Action::Connect(_, path) => {
                        assert_eq!(path, "google.com:443");
                        Event::Connected
                    }
                    Action::WriteClient(bytes) => {
                        client.extend(bytes);
                        Event::Written
                    }
                    Action::WriteUpstream(bytes) => {
                        upstream.extend(bytes);
                        Event::Written
                    }
                    Action::Tunnel => {
                        upstream.extend(&stream[sent..]);
                        Event::TunnelClosed
                    }
                    Action::Finish(result) => {
                        assert!(result.is_ok());
                        break;
                    }
                };
                (connection, action) = connection.step(event);
            }
            assert_eq!(client, Status::Okay.as_http_resp());
            assert_eq!(upstream, b"hello world");
        }
    }
    // One byte less, and there is no room for the head.
    let refused = serve_with(client_sends(&head[..head.len() - 1]), 1, head.len() - 1);
    assert_eq!(refused.client, Status::BadRequest.as_http_resp());
}

#[test]
fn outcomes_are_concluded() {
    let answer = |outcome| match Connection::concluded(outcome).1 {
        Action::WriteClient(bytes) => Some(bytes),
        Action::Finish(Ok(())) => None,
        other => panic!("unexpected: {:?}", other),
    };
    assert_eq!(answer(Ok(())), None);
    assert_eq!(answer(Err(ProxyError::from(ParseError::Closed))), None);
    assert_eq!(answer(Err(ProxyError::from(ParseError::Incomplete))), None);
    assert_eq!(
        answer(Err(ProxyError::from(ParseError::InvalidMethod))),
        Some(Status::MethodNotAllowed.as_http_resp())
    );
    assert_eq!(
        answer(Err(ProxyError::UpstreamConnect(fault("no")))),
        Some(Status::BadGateway.as_http_resp())
    );
    let (_, action) = Connection::concluded(Err(ProxyError::from(fault("broken"))));
    assert!(matches!(action, Action::Finish(Err(e)) if e.to_string() == "broken"));
}
