use tunnel_relay::encoder::{EncodingError, Header, RawRequest};
use tunnel_relay::identifier::IdentifierParseError;
use tunnel_relay::message::WsMessage;
use tunnel_relay::registry::{Delivery, State};
use tunnel_relay::relay::{relay, relay_message, relay_reply, RelayError};
use tunnel_relay::reply::Reply;
use tunnel_relay::tunnel::handle_ws;

fn get(target: &str, headers: &[(&str, &str)], body: &[u8]) -> RawRequest {
    RawRequest {
        method: "GET".to_string(),
        target: target.to_string(),
        version: "HTTP/1.1".to_string(),
        headers: headers
            .iter()
            .map(|(name, value)| Header { name: name.to_string(), value: value.as_bytes().to_vec() })
            .collect(),
        body: body.to_vec(),
    }
}

fn ok_reply() -> Reply {
    Reply { status: 200, headers: vec![], body: b"OK".to_vec() }
}

#[test]
fn relayed_request_reaches_the_registered_tunnel_as_text() {
    let mut state = State::new();
    let mut rx = handle_ws(&mut state, 42);
    let outcome = relay(&state, b"42", get("/foo?x=1", &[("Host", "example.com")], b""));
    assert_eq!(outcome, Ok(Delivery::Queued));
    assert_eq!(relay_reply(outcome), ok_reply());
    assert_eq!(rx.try_recv().ok(), Some(WsMessage::Binary(vec![0, 0, 0, 0, 0, 0, 0, 42])));
    assert_eq!(
        rx.try_recv().ok(),
        Some(WsMessage::Text("GET /foo?x=1 HTTP/1.1\r\nHost: example.com\r\n\r\n".to_string()))
    );
    assert_eq!(rx.try_recv().ok(), None);
}

#[test]
fn relay_to_an_unknown_identifier_succeeds_and_changes_nothing() {
    let mut state = State::new();
    let mut rx = handle_ws(&mut state, 7);
    assert!(rx.try_recv().is_ok());
    let outcome = relay(&state, b"8", get("/", &[], b""));
    assert_eq!(outcome, Ok(Delivery::NoTunnel));
    assert_eq!(relay_reply(outcome), ok_reply());
    assert_eq!(state.len(), 1);
    assert!(state.lookup(8).is_none());
    assert_eq!(rx.try_recv().ok(), None);
}

#[test]
fn relay_to_an_empty_registry_succeeds() {
    let state = State::new();
    let outcome = relay(&state, b"1", get("/", &[], b""));
    assert_eq!(outcome, Ok(Delivery::NoTunnel));
    assert_eq!(relay_reply(outcome).status, 200);
    assert_eq!(state.len(), 0);
}

#[test]
fn request_with_invalid_utf8_body_is_refused_and_queue_untouched() {
    let mut state = State::new();
    let mut rx = handle_ws(&mut state, 42);
    assert!(rx.try_recv().is_ok());
    let outcome = relay(&state, b"42", get("/", &[("Host", "example.com")], &[0xc3, 0x28]));
    assert_eq!(outcome, Err(RelayError::Encoding(EncodingError::BodyNotUtf8)));
    let reply = relay_reply(outcome);
    assert_eq!(reply.status, 400);
    assert_eq!(reply.body, b"Request cannot be relayed".to_vec());
    assert!(reply.headers.is_empty());
    assert_eq!(rx.try_recv().ok(), None);
}

#[test]
fn request_with_opaque_header_is_refused_and_queue_untouched() {
    let mut state = State::new();
    let mut rx = handle_ws(&mut state, 42);
    assert!(rx.try_recv().is_ok());
    let mut request = get("/", &[("Host", "example.com")], b"");
    request.headers.push(Header { name: "X".to_string(), value: vec![0xff] });
    let outcome = relay(&state, b"42", request);
    assert_eq!(outcome, Err(RelayError::Encoding(EncodingError::HeaderNotText { index: 1 })));
    assert_eq!(relay_reply(outcome).status, 400);
    assert_eq!(rx.try_recv().ok(), None);
}

#[test]
fn segment_that_names_no_identifier_is_refused() {
    let mut state = State::new();
    let mut rx = handle_ws(&mut state, 42);
    assert!(rx.try_recv().is_ok());
    for segment in [&b""[..], &b"abc"[..], &b"42/"[..], &b"18446744073709551616"[..]] {
        let outcome = relay(&state, segment, get("/", &[], b""));
        assert_eq!(outcome, Err(RelayError::Identifier(IdentifierParseError)));
        let reply = relay_reply(outcome);
        assert_eq!(reply.status, 400);
        assert_eq!(reply.body, b"Invalid identifier".to_vec());
    }
    assert_eq!(rx.try_recv().ok(), None);
}

#[test]
fn identifier_is_read_before_the_request_is_encoded() {
    let state = State::new();
    let outcome = relay(&state, b"nope", get("/", &[], &[0xff]));
    assert_eq!(outcome, Err(RelayError::Identifier(IdentifierParseError)));
}

#[test]
fn relay_message_is_the_encoded_request_as_text() {
    let result = relay_message(b"+9", get("/a", &[("K", "v")], b"body"));
    assert_eq!(
        result,
        Ok((9, WsMessage::Text("GET /a HTTP/1.1\r\nK: v\r\n\r\nbody".to_string())))
    );
}

#[test]
fn relay_message_reports_each_failure() {
    assert_eq!(
        relay_message(b"", get("/", &[], b"")),
        Err(RelayError::Identifier(IdentifierParseError))
    );
    assert_eq!(
        relay_message(b"1", get("/", &[], &[0x80])),
        Err(RelayError::Encoding(EncodingError::BodyNotUtf8))
    );
}

#[test]
fn relay_after_the_tunnel_closed_still_succeeds() {
    let mut state = State::new();
    let rx = handle_ws(&mut state, 42);
    drop(rx);
    state.unregister(42);
    assert!(state.lookup(42).is_none());
    assert_eq!(state.len(), 0);
    let outcome = relay(&state, b"42", get("/", &[], b""));
    assert_eq!(outcome, Ok(Delivery::NoTunnel));
    assert_eq!(relay_reply(outcome), ok_reply());
}

#[test]
fn relay_to_a_closed_queue_still_succeeds() {
    let mut state = State::new();
    let rx = handle_ws(&mut state, 42);
    drop(rx);
    let outcome = relay(&state, b"42", get("/", &[], b""));
    assert_eq!(outcome, Ok(Delivery::QueueClosed));
    assert_eq!(relay_reply(outcome), ok_reply());
}

#[test]
fn stalled_tunnel_does_not_hold_up_another() {
    let mut state = State::new();
    let mut rx_a = handle_ws(&mut state, 1);
    let mut rx_b = handle_ws(&mut state, 2);
    for n in 0..1000 {
        let outcome = relay(&state, b"1", get(&format!("/a/{}", n), &[], b""));
        assert_eq!(outcome, Ok(Delivery::Queued));
    }
    let outcome = relay(&state, b"2", get("/b", &[], b""));
    assert_eq!(outcome, Ok(Delivery::Queued));
    assert!(rx_b.try_recv().is_ok());
    assert_eq!(
        rx_b.try_recv().ok(),
        Some(WsMessage::Text("GET /b HTTP/1.1\r\n\r\n".to_string()))
    );
    assert_eq!(rx_b.try_recv().ok(), None);
    assert!(rx_a.try_recv().is_ok());
    for n in 0..1000 {
        assert_eq!(
            rx_a.try_recv().ok(),
            Some(WsMessage::Text(format!("GET /a/{} HTTP/1.1\r\n\r\n", n)))
        );
    }
    assert_eq!(rx_a.try_recv().ok(), None);
}

#[test]
fn messages_for_one_identifier_keep_their_order() {
    let mut state = State::new();
    let mut rx = handle_ws(&mut state, 5);
    assert_eq!(state.send(5, WsMessage::Text("one".to_string())), Delivery::Queued);
    assert_eq!(state.send(5, WsMessage::Pong(vec![2])), Delivery::Queued);
    assert_eq!(state.send(5, WsMessage::Close(1001, "three".to_string())), Delivery::Queued);
    assert!(rx.try_recv().is_ok());
    assert_eq!(rx.try_recv().ok(), Some(WsMessage::Text("one".to_string())));
    assert_eq!(rx.try_recv().ok(), Some(WsMessage::Pong(vec![2])));
    assert_eq!(rx.try_recv().ok(), Some(WsMessage::Close(1001, "three".to_string())));
    assert_eq!(rx.try_recv().ok(), None);
}

#[test]
fn reply_is_success_whatever_became_of_the_message() {
    assert_eq!(relay_reply(Ok(Delivery::Queued)), ok_reply());
    assert_eq!(relay_reply(Ok(Delivery::QueueClosed)), ok_reply());
    assert_eq!(relay_reply(Ok(Delivery::NoTunnel)), ok_reply());
}
