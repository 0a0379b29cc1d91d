//! The HTTP/1.1 client against scripted connections, and the request and
//! body renderers.

use docker_run::docker::{
    attach_container_request, create_body, create_container_request, default_container_config,
    remove_container_request, start_container_request, version, version_request,
};
use docker_run::http_extra::{
    Error, ParseError, ReadChunkError, TransferEncoding, render_request, send_request,
};
use docker_run::scripted::{ScriptedConn, ScriptedSocket};
use docker_run::unix_stream::{Config, StreamSocket};

fn test_config() -> Config {
    Config {
        path: "/var/run/docker.sock".to_owned(),
        read_timeout_ms: 1000,
        write_timeout_ms: 1000,
    }
}

fn open_socket(serves: Vec<u8>, blocks_after: bool) -> ScriptedSocket {
    let conn = if blocks_after {
        ScriptedConn::serving_then_blocking(serves)
    } else {
        ScriptedConn::serving(serves)
    };
    let mut s = ScriptedSocket::new(vec![conn]);
    s.connect(&test_config()).unwrap();
    s
}

#[test]
fn version_request_renders_exactly() {
    let req = version_request();
    let wire = render_request(&req);
    let expected = b"GET /version HTTP/1.1\r\nAccept: application/json\r\nHost: 127.0.0.1\r\nConnection: close\r\n\r\n";
    assert_eq!(wire, expected.to_vec());
}

#[test]
fn start_remove_attach_requests_render_exactly() {
    let start = render_request(&start_container_request("abc"));
    assert!(start.starts_with(b"POST /containers/abc/start HTTP/1.1\r\n"));
    let remove = render_request(&remove_container_request("abc"));
    assert!(remove.starts_with(b"DELETE /containers/abc?v=1&force=1 HTTP/1.1\r\n"));
    let attach = render_request(&attach_container_request("abc"));
    let expected =
        b"POST /containers/abc/attach?stream=1&stdout=1&stdin=1&stderr=1 HTTP/1.1\r\nHost: 127.0.0.1\r\n\r\n";
    assert_eq!(attach, expected.to_vec());
}

#[test]
fn create_body_matches_serde_output() {
    let config = default_container_config("python:3".to_owned());
    let body = create_body(&config);
    let expected = "{\"Hostname\":\"glot-runner\",\"User\":\"glot\",\"AttachStdin\":true,\"AttachStdout\":true,\"AttachStderr\":true,\"Tty\":false,\"OpenStdin\":true,\"StdinOnce\":true,\"Image\":\"python:3\",\"NetworkDisabled\":true,\"HostConfig\":{\"Memory\":500000000,\"Privileged\":false,\"CapAdd\":[],\"CapDrop\":[\"MKNOD\"],\"Ulimits\":[{\"Name\":\"nofile\",\"Soft\":90,\"Hard\":100},{\"Name\":\"nproc\",\"Soft\":90,\"Hard\":100}],\"ReadonlyRootfs\":false,\"Tmpfs\":{}}}";
    assert_eq!(String::from_utf8(body.clone()).unwrap(), expected);
    // and the daemon-side decoder agrees it is one JSON object
    let parsed: serde_json::Value = serde_json::from_slice(&body).unwrap();
    assert_eq!(parsed["Hostname"], serde_json::Value::String("glot-runner".to_owned()));
    assert_eq!(parsed["HostConfig"]["Memory"], serde_json::Value::from(500000000i64));
}

#[test]
fn create_request_announces_body_length() {
    let config = default_container_config("img".to_owned());
    let req = create_container_request(&config);
    let wire = render_request(&req);
    let body = create_body(&config);
    let text = String::from_utf8(wire).unwrap();
    assert!(text.starts_with("POST /containers/create HTTP/1.1\r\n"));
    assert!(text.contains(&format!("Content-Length: {}\r\n", body.len())));
    assert!(text.ends_with(&String::from_utf8(body).unwrap()));
}

#[test]
fn content_length_zero_reads_no_body() {
    let mut serves = b"HTTP/1.1 200 OK\r\nContent-Length: 0\r\n\r\n".to_vec();
    serves.extend_from_slice(b"LEFTOVER");
    let mut s = open_socket(serves, false);
    let resp = send_request(&mut s, &version_request()).unwrap();
    assert_eq!(resp.status, 200);
    assert!(resp.body.is_empty());
    // nothing past the head was read
    assert_eq!(s.open_conn.as_ref().unwrap().serves, b"LEFTOVER".to_vec());
}

#[test]
fn content_length_body_is_read_exactly() {
    let serves = b"HTTP/1.1 200 OK\r\nContent-Length: 5\r\n\r\nhelloXX".to_vec();
    let mut s = open_socket(serves, false);
    let resp = send_request(&mut s, &version_request()).unwrap();
    assert_eq!(resp.body, b"hello".to_vec());
    assert_eq!(s.open_conn.as_ref().unwrap().serves, b"XX".to_vec());
}

#[test]
fn chunked_body_concatenates_chunks() {
    let serves =
        b"HTTP/1.1 200 OK\r\nTransfer-Encoding: chunked\r\n\r\n5\r\nhello\r\n0\r\n\r\n".to_vec();
    let mut s = open_socket(serves, false);
    let resp = send_request(&mut s, &version_request()).unwrap();
    assert_eq!(resp.body, b"hello".to_vec());
}

#[test]
fn chunked_body_multiple_chunks() {
    let serves = b"HTTP/1.1 200 OK\r\nTransfer-Encoding: chunked\r\n\r\n3\r\nabc\r\nA\r\n0123456789\r\n0\r\n\r\n"
        .to_vec();
    let mut s = open_socket(serves, false);
    let resp = send_request(&mut s, &version_request()).unwrap();
    assert_eq!(resp.body, b"abc0123456789".to_vec());
}

#[test]
fn chunked_bad_length_line_is_parse_error() {
    let serves = b"HTTP/1.1 200 OK\r\nTransfer-Encoding: chunked\r\n\r\nzz\r\n".to_vec();
    let mut s = open_socket(serves, false);
    match send_request(&mut s, &version_request()) {
        Err(Error::ReadChunkedBody(ReadChunkError::ParseChunkLength(t))) => {
            assert_eq!(t, b"zz".to_vec());
        },
        _ => panic!("expected the chunk length parse error"),
    }
}

#[test]
fn non_2xx_carries_status_and_exact_body() {
    let body = b"{\"message\":\"no such image\"}";
    let mut serves = format!("HTTP/1.1 404 Not Found\r\nContent-Length: {}\r\n\r\n", body.len())
        .into_bytes();
    serves.extend_from_slice(body);
    let mut s = open_socket(serves, false);
    match send_request(&mut s, &version_request()) {
        Err(Error::BadStatus(status, raw)) => {
            assert_eq!(status, 404);
            assert_eq!(raw, body.to_vec());
        },
        _ => panic!("expected the bad status error"),
    }
}

#[test]
fn empty_response_is_reported_empty() {
    let mut s = open_socket(Vec::new(), false);
    match send_request(&mut s, &version_request()) {
        Err(Error::ParseResponseHead(ParseError::Empty)) => {},
        _ => panic!("expected the empty response error"),
    }
}

#[test]
fn truncated_head_is_reported_partial() {
    let mut s = open_socket(b"HTTP/1.1 200 OK\r\nContent-".to_vec(), false);
    match send_request(&mut s, &version_request()) {
        Err(Error::ParseResponseHead(ParseError::Partial)) => {},
        _ => panic!("expected the partial response error"),
    }
}

#[test]
fn garbage_head_is_a_syntax_error() {
    let mut s = open_socket(b"NOT HTTP AT ALL\r\n\r\n".to_vec(), false);
    match send_request(&mut s, &version_request()) {
        Err(Error::ParseResponseHead(ParseError::Syntax(_))) => {},
        _ => panic!("expected the syntax error"),
    }
}

#[test]
fn blocked_head_read_is_read_response_error() {
    let mut s = open_socket(b"HTTP/1.1 200 OK\r\n".to_vec(), true);
    match send_request(&mut s, &version_request()) {
        Err(Error::ReadResponse(_)) => {},
        _ => panic!("expected the read response error"),
    }
}

#[test]
fn header_lookup_is_case_insensitive() {
    let serves = b"HTTP/1.1 200 OK\r\ncOnTeNt-LeNgTh: 2\r\n\r\nokXX".to_vec();
    let mut s = open_socket(serves, false);
    let resp = send_request(&mut s, &version_request()).unwrap();
    assert_eq!(resp.body, b"ok".to_vec());
}

#[test]
fn transfer_encoding_classification() {
    assert!(matches!(TransferEncoding::from_str("chunked"), TransferEncoding::Chunked()));
    assert!(matches!(TransferEncoding::from_str(""), TransferEncoding::NoEncoding()));
    match TransferEncoding::from_str("gzip") {
        TransferEncoding::Other(o) => assert_eq!(o, "gzip"),
        _ => panic!("expected another encoding"),
    }
}

#[test]
fn version_returns_the_raw_payload_of_a_2xx_response() {
    let body = b"{\"Version\":\"24.0.7\",\"ApiVersion\":\"1.43\"}";
    let mut serves = format!("HTTP/1.1 200 OK\r\nContent-Length: {}\r\n\r\n", body.len())
        .into_bytes();
    serves.extend_from_slice(body);
    let mut s = open_socket(serves, false);
    let raw = version(&mut s).unwrap();
    assert_eq!(raw, body.to_vec());
    // and the request that went out was the version request
    assert_eq!(
        s.open_conn.as_ref().unwrap().wrote,
        render_request(&version_request())
    );
}

#[test]
fn out_of_range_status_code_is_a_build_error() {
    let mut s = open_socket(b"HTTP/1.1 099 Odd\r\n\r\n".to_vec(), false);
    match send_request(&mut s, &version_request()) {
        Err(Error::ParseResponseHead(ParseError::BuildResponse)) => {},
        other => panic!("expected the status range error, got {:?}", other.err()),
    }
}
