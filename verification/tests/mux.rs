//! The attach-stream demultiplexer against scripted connections.

use docker_run::docker::{StreamError, read_stream};
use docker_run::scripted::{ScriptedConn, ScriptedSocket};
use docker_run::unix_stream::{Config, StreamSocket};

fn test_config() -> Config {
    Config {
        path: "/var/run/docker.sock".to_owned(),
        read_timeout_ms: 1000,
        write_timeout_ms: 1000,
    }
}

fn frame(channel: u8, payload: &[u8]) -> Vec<u8> {
    let mut f = vec![channel, 0, 0, 0];
    let len = payload.len() as u32;
    f.extend_from_slice(&[
        (len >> 24) as u8,
        (len >> 16) as u8,
        (len >> 8) as u8,
        len as u8,
    ]);
    f.extend_from_slice(payload);
    f
}

fn open_socket(serves: Vec<u8>, blocks_after: bool) -> ScriptedSocket {
    let conn = if blocks_after {
        ScriptedConn::serving_then_blocking(serves)
    } else {
        ScriptedConn::serving(serves)
    };
    let mut s = ScriptedSocket::new(vec![conn]);
    s.connect(&test_config()).unwrap();
    s
}

#[test]
fn demux_round_trip_by_channel_in_order() {
    let mut bytes = Vec::new();
    bytes.extend_from_slice(&frame(1, b"hello"));
    bytes.extend_from_slice(&frame(2, b"err!"));
    bytes.extend_from_slice(&frame(0, b"in"));
    bytes.extend_from_slice(&frame(1, b" world"));
    bytes.extend_from_slice(&frame(2, b""));
    let mut s = open_socket(bytes, false);
    let out = read_stream(&mut s, 1024).unwrap();
    assert_eq!(out.stdin, b"in".to_vec());
    assert_eq!(out.stdout, b"hello world".to_vec());
    assert_eq!(out.stderr, b"err!".to_vec());
}

#[test]
fn demux_empty_stream_is_empty_output() {
    let mut s = open_socket(Vec::new(), false);
    let out = read_stream(&mut s, 16).unwrap();
    assert!(out.stdin.is_empty());
    assert!(out.stdout.is_empty());
    assert!(out.stderr.is_empty());
}

#[test]
fn demux_exact_cap_succeeds() {
    let payload = vec![7u8; 1024];
    let mut s = open_socket(frame(1, &payload), false);
    let out = read_stream(&mut s, 1024).unwrap();
    assert_eq!(out.stdout.len(), 1024);
}

#[test]
fn demux_one_byte_over_cap_fails() {
    let payload = vec![7u8; 1025];
    let mut s = open_socket(frame(1, &payload), false);
    match read_stream(&mut s, 1024) {
        Err(StreamError::MaxReadSize(max)) => assert_eq!(max, 1024),
        _ => panic!("expected the output cap error"),
    }
}

#[test]
fn demux_cap_counts_across_frames() {
    let mut bytes = Vec::new();
    bytes.extend_from_slice(&frame(1, &vec![1u8; 600]));
    bytes.extend_from_slice(&frame(2, &vec![2u8; 425]));
    let mut s = open_socket(bytes, false);
    match read_stream(&mut s, 1024) {
        Err(StreamError::MaxReadSize(max)) => assert_eq!(max, 1024),
        _ => panic!("expected the output cap error"),
    }
}

#[test]
fn demux_blocking_read_is_execution_timeout_not_read() {
    let mut s = open_socket(Vec::new(), true);
    match read_stream(&mut s, 1024) {
        Err(StreamError::MaxExecutionTime) => {},
        Err(StreamError::Read(_)) => panic!("a blocked read must not be a read error"),
        _ => panic!("expected the execution deadline error"),
    }
}

#[test]
fn demux_blocking_mid_frame_is_execution_timeout() {
    // a full header announcing five bytes, but only two arrive
    let mut bytes = frame(1, b"hello");
    bytes.truncate(10);
    let mut s = open_socket(bytes, true);
    match read_stream(&mut s, 1024) {
        Err(StreamError::MaxExecutionTime) => {},
        _ => panic!("expected the execution deadline error"),
    }
}

#[test]
fn demux_unknown_channel_is_rejected() {
    let mut s = open_socket(frame(3, b"x"), false);
    match read_stream(&mut s, 1024) {
        Err(StreamError::UnknownStreamType(b)) => assert_eq!(b, 3),
        _ => panic!("expected the unknown channel error"),
    }
}

#[test]
fn demux_eof_inside_prefix_is_type_read_error() {
    let mut s = open_socket(vec![1, 0], false);
    match read_stream(&mut s, 1024) {
        Err(StreamError::ReadStreamType(_)) => {},
        _ => panic!("expected the channel prefix error"),
    }
}

#[test]
fn demux_eof_inside_length_is_length_read_error() {
    let mut s = open_socket(vec![1, 0, 0, 0, 0, 0], false);
    match read_stream(&mut s, 1024) {
        Err(StreamError::ReadStreamLength(_)) => {},
        _ => panic!("expected the length error"),
    }
}

#[test]
fn demux_eof_inside_payload_is_read_error() {
    let mut bytes = frame(1, b"hello");
    bytes.truncate(10);
    let mut s = open_socket(bytes, false);
    match read_stream(&mut s, 1024) {
        Err(StreamError::Read(_)) => {},
        _ => panic!("expected the payload read error"),
    }
}

#[test]
fn be32_reads_big_endian() {
    assert_eq!(docker_run::read_be32(0, 0, 0, 13), 13);
    assert_eq!(docker_run::read_be32(1, 2, 3, 4), 0x01020304);
    assert_eq!(docker_run::read_be32(0xFF, 0xFF, 0xFF, 0xFF), u32::MAX);
}
