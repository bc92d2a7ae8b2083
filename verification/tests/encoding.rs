use tunnel_relay::encoder::{request_to_raw_http, EncodingError, Header, RawRequest};

fn header(name: &str, value: &[u8]) -> Header {
    Header { name: name.to_string(), value: value.to_vec() }
}

fn request(method: &str, target: &str, headers: Vec<Header>, body: &[u8]) -> RawRequest {
    RawRequest {
        method: method.to_string(),
        target: target.to_string(),
        version: "HTTP/1.1".to_string(),
        headers,
        body: body.to_vec(),
    }
}

#[test]
fn encodes_request_line_headers_blank_line_and_body() {
    let req = request(
        "POST",
        "/hook?a=1&b=2",
        vec![header("Host", b"example.com"), header("Content-Type", b"application/json")],
        b"{\"ok\":true}",
    );
    assert_eq!(
        request_to_raw_http(req),
        Ok("POST /hook?a=1&b=2 HTTP/1.1\r\nHost: example.com\r\nContent-Type: application/json\r\n\r\n{\"ok\":true}".to_string())
    );
}

#[test]
fn encodes_request_without_headers_or_body() {
    let req = request("GET", "/", vec![], b"");
    assert_eq!(request_to_raw_http(req), Ok("GET / HTTP/1.1\r\n\r\n".to_string()));
}

#[test]
fn keeps_headers_in_their_order_and_repeats() {
    let req = request(
        "GET",
        "/",
        vec![header("b", b"2"), header("a", b"1"), header("b", b"3")],
        b"",
    );
    assert_eq!(
        request_to_raw_http(req),
        Ok("GET / HTTP/1.1\r\nb: 2\r\na: 1\r\nb: 3\r\n\r\n".to_string())
    );
}

#[test]
fn keeps_the_version_as_given() {
    let mut req = request("GET", "/", vec![], b"");
    req.version = "HTTP/1.0".to_string();
    assert_eq!(request_to_raw_http(req), Ok("GET / HTTP/1.0\r\n\r\n".to_string()));
}

#[test]
fn decodes_a_utf8_body() {
    let req = request("PUT", "/x", vec![], "gr\u{fc}\u{df}e \u{1f600}".as_bytes());
    assert_eq!(
        request_to_raw_http(req),
        Ok("PUT /x HTTP/1.1\r\n\r\ngr\u{fc}\u{df}e \u{1f600}".to_string())
    );
}

#[test]
fn body_bytes_survive_the_encoding() {
    let body = "line one\r\nline two\n\ttabbed \u{2603}";
    let req = request("POST", "/", vec![header("X", b"y")], body.as_bytes());
    let raw = request_to_raw_http(req).unwrap();
    assert!(raw.as_bytes().ends_with(body.as_bytes()));
    assert_eq!(raw.len(), "POST / HTTP/1.1\r\nX: y\r\n\r\n".len() + body.len());
}

#[test]
fn rejects_a_body_that_is_not_utf8() {
    let req = request("POST", "/", vec![header("Host", b"example.com")], &[0x66, 0xff, 0x6f]);
    assert_eq!(request_to_raw_http(req), Err(EncodingError::BodyNotUtf8));
}

#[test]
fn rejects_a_truncated_utf8_body() {
    let req = request("POST", "/", vec![], &[0xe2, 0x98]);
    assert_eq!(request_to_raw_http(req), Err(EncodingError::BodyNotUtf8));
}

#[test]
fn rejects_a_header_value_that_is_not_text() {
    let req = request("GET", "/", vec![header("Host", b"example.com"), header("X-Bin", b"caf\xe9")], b"");
    assert_eq!(request_to_raw_http(req), Err(EncodingError::HeaderNotText { index: 1 }));
}

#[test]
fn reports_the_first_header_that_is_not_text() {
    let req = request(
        "GET",
        "/",
        vec![header("A", b"\x80"), header("B", b"fine"), header("C", b"\xff")],
        b"",
    );
    assert_eq!(request_to_raw_http(req), Err(EncodingError::HeaderNotText { index: 0 }));
}

#[test]
fn header_error_comes_before_body_error() {
    let req = request("GET", "/", vec![header("A", b"\x80")], &[0xff]);
    assert_eq!(request_to_raw_http(req), Err(EncodingError::HeaderNotText { index: 0 }));
}

#[test]
fn header_value_may_hold_tab_and_space_but_no_control_or_delete() {
    let ok = request("GET", "/", vec![header("A", b"a \tb~")], b"");
    assert_eq!(request_to_raw_http(ok), Ok("GET / HTTP/1.1\r\nA: a \tb~\r\n\r\n".to_string()));
    for bad in [&b"a\nb"[..], &b"a\rb"[..], &b"\x00"[..], &b"\x1f"[..], &b"\x7f"[..], &b"\x80"[..]] {
        let req = request("GET", "/", vec![header("A", bad)], b"");
        assert_eq!(request_to_raw_http(req), Err(EncodingError::HeaderNotText { index: 0 }));
    }
}

#[test]
fn empty_header_value_is_text() {
    let req = request("GET", "/", vec![header("Empty", b"")], b"");
    assert_eq!(request_to_raw_http(req), Ok("GET / HTTP/1.1\r\nEmpty: \r\n\r\n".to_string()));
}

#[test]
fn encoded_text_reads_back_to_the_request() {
    let req = request(
        "POST",
        "/hook?a=1",
        vec![header("Host", b"example.com"), header("X-Empty", b""), header("Host", b"again")],
        b"first\r\n\r\nsecond",
    );
    let raw = request_to_raw_http(req.clone()).unwrap();
    let end = raw.find("\r\n\r\n").unwrap();
    let lines: Vec<&str> = raw[..end].split("\r\n").collect();
    assert_eq!(lines, vec!["POST /hook?a=1 HTTP/1.1", "Host: example.com", "X-Empty: ", "Host: again"]);
    assert_eq!(raw[end + 4..].as_bytes(), &req.body[..]);
}

#[test]
fn encoded_text_without_headers_reads_back() {
    let req = request("GET", "/", vec![], b"\r\n\r\n");
    let raw = request_to_raw_http(req).unwrap();
    let end = raw.find("\r\n\r\n").unwrap();
    assert_eq!(&raw[..end], "GET / HTTP/1.1");
    assert_eq!(&raw[end + 4..], "\r\n\r\n");
}
