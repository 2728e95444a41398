use sslb::lb::{
    BackendCmd, ClientCmd, Engine, EngineAction, FrameStatus, Framer, Relay,
    HTTP_SERVICE_UNAVAILABLE, INITIAL_CAPACITY, MAX_REQUEST_SIZE,
};
use sslb::policy::SimpleRoundRobinPolicy;

const EXPECTED_UNAVAILABLE: &'static str =
  "HTTP/1.1 503 Service Unavailable Content-Type: text/plain

  503 Service Unavailable
  The server is temporarily unable to service your request due to maintenance downtime or capacity problems. Please try again later.\r\n";

fn endpoints(names: &[&str]) -> Vec<String> {
    names.iter().map(|s| s.to_string()).collect()
}

#[test]
fn read_completes_at_trailing_crlf() {
    let mut framer = Framer::new();
    let status = framer.push_chunk(b"GET / HTTP/1.1\r\n");
    assert!(matches!(status, FrameStatus::Complete));
    assert_eq!(framer.into_bytes(), b"GET / HTTP/1.1\r\n".to_vec());
}

#[test]
fn read_does_not_stop_at_an_embedded_crlf() {
    let mut framer = Framer::new();
    let status = framer.push_chunk(b"GET / HTTP/1.1\r\nHost: x");
    assert!(matches!(status, FrameStatus::NeedMore));
    let status = framer.push_chunk(b"y");
    assert!(matches!(status, FrameStatus::NeedMore));
    let status = framer.push_chunk(b"z\r\n");
    assert!(matches!(status, FrameStatus::Complete));
    assert_eq!(framer.into_bytes(), b"GET / HTTP/1.1\r\nHost: xyz\r\n".to_vec());
}

#[test]
fn read_fails_on_empty_chunk() {
    let mut framer = Framer::new();
    let status = framer.push_chunk(b"partial request");
    assert!(matches!(status, FrameStatus::NeedMore));
    let status = framer.push_chunk(b"");
    assert!(matches!(status, FrameStatus::PrematureEof));
}

#[test]
fn read_without_crlf_fails_as_oversize_before_the_limit() {
    let mut framer = Framer::new();
    let chunk = [b'a'; INITIAL_CAPACITY];
    let mut total: usize = 0;
    let mut oversize_at: Option<usize> = None;
    for i in 0..1024 {
        total += chunk.len();
        match framer.push_chunk(&chunk) {
            FrameStatus::NeedMore => {},
            FrameStatus::Oversize => {
                oversize_at = Some(i);
                break;
            },
            other => panic!("unexpected status {:?}", other),
        }
    }
    assert_eq!(oversize_at, Some(511));
    assert!(total < MAX_REQUEST_SIZE);
}

#[test]
fn relay_hands_both_messages_through_verbatim() {
    let mut relay = Relay::new();
    let forwarded = match relay.on_client_chunk(b"GET / HTTP/1.1\r\n") {
        ClientCmd::ForwardRequest(b) => b,
        _ => panic!("a complete request must be forwarded"),
    };
    assert_eq!(forwarded, b"GET / HTTP/1.1\r\n".to_vec());
    assert!(matches!(relay.on_backend_chunk(b"HTTP/1.1 "), BackendCmd::ReadBackend));
    let returned = match relay.on_backend_chunk(b"200 OK\r\n") {
        BackendCmd::ReturnResponse(b) => b,
        _ => panic!("a complete response must be returned"),
    };
    assert_eq!(returned, b"HTTP/1.1 200 OK\r\n".to_vec());
}

#[test]
fn relay_aborts_when_the_client_stream_ends_early() {
    let mut relay = Relay::new();
    assert!(matches!(relay.on_client_chunk(b"GET / HT"), ClientCmd::ReadClient));
    match relay.on_client_chunk(b"") {
        ClientCmd::Abort(status) => assert!(matches!(status, FrameStatus::PrematureEof)),
        _ => panic!("an empty read must abort the exchange"),
    }
}

#[test]
fn unavailable_response_matches_the_wire_format() {
    assert_eq!(HTTP_SERVICE_UNAVAILABLE, EXPECTED_UNAVAILABLE);
    assert!(HTTP_SERVICE_UNAVAILABLE.starts_with("HTTP/1.1 503 Service Unavailable"));
    assert!(HTTP_SERVICE_UNAVAILABLE.ends_with("\r\n"));
}

#[test]
fn engine_connects_to_selectable_endpoints() {
    let eps = endpoints(&["e1:80", "e2:80", "e3:80", "e4:80"]);
    let policy = SimpleRoundRobinPolicy::new(eps.clone());
    let mut engine = Engine::new(policy);
    match engine.on_accept("127.0.0.1:5000") {
        EngineAction::Connect(e) => assert!(eps.contains(&e)),
        EngineAction::SendUnavailableAndStop => panic!("endpoints were available"),
    }
}

#[test]
fn engine_evicts_failed_endpoints_then_stops() {
    let eps = endpoints(&["e1:80", "e2:80", "e3:80", "e4:80"]);
    let policy = SimpleRoundRobinPolicy::new(eps.clone());
    let mut engine = Engine::new(policy);
    let mut action = engine.on_accept("127.0.0.1:5000");
    let mut failed: Vec<String> = Vec::new();
    loop {
        match action {
            EngineAction::Connect(e) => {
                assert!(eps.contains(&e), "selected an unknown endpoint");
                assert!(!failed.contains(&e), "selected an evicted endpoint");
                failed.push(e.clone());
                action = engine.on_connect_failed("127.0.0.1:5000", &e);
            },
            EngineAction::SendUnavailableAndStop => break,
        }
    }
    assert_eq!(failed.len(), eps.len(), "every endpoint is tried exactly once");
}

#[test]
fn max_message_size_is_fixed() {
    assert_eq!(MAX_REQUEST_SIZE, 1_024_000);
    assert_eq!(INITIAL_CAPACITY, 1024);
}
