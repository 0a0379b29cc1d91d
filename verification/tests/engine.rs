//! End-to-end runs against a scripted daemon, and the error mapping of
//! the run endpoint.

use docker_run::api;
use docker_run::config::{Config as ServiceConfig, ServerConfig};
use docker_run::debug;
use docker_run::docker;
use docker_run::docker::{StreamError, default_container_config};
use docker_run::run::{Error, Limits, RunRequest, run};
use docker_run::scripted::{PlannedConnect, ScriptedConn, ScriptedSocket};
use docker_run::unix_stream::{Config, IoFailure, IoKind};

fn test_config() -> Config {
    Config {
        path: "/var/run/docker.sock".to_owned(),
        read_timeout_ms: 1000,
        write_timeout_ms: 1000,
    }
}

fn no_keep() -> debug::Config {
    debug::Config { keep_container: false }
}

fn request(max_output_size: usize) -> RunRequest {
    RunRequest {
        container_config: default_container_config("python:3".to_owned()),
        payload: b"{}".to_vec(),
        limits: Limits { max_execution_time_ms: 700, max_output_size },
    }
}

fn response_with_body(status_line: &str, body: &[u8]) -> Vec<u8> {
    let mut r = format!("{}\r\nContent-Length: {}\r\n\r\n", status_line, body.len()).into_bytes();
    r.extend_from_slice(body);
    r
}

fn frame(channel: u8, payload: &[u8]) -> Vec<u8> {
    let mut f = vec![channel, 0, 0, 0];
    let len = payload.len() as u32;
    f.extend_from_slice(&[
        (len >> 24) as u8,
        (len >> 16) as u8,
        (len >> 8) as u8,
        len as u8,
    ]);
    f.extend_from_slice(payload);
    f
}

fn created_response() -> Vec<u8> {
    response_with_body("HTTP/1.1 201 Created", b"{\"Id\":\"abc\",\"Warnings\":[]}")
}

fn start_response() -> Vec<u8> {
    b"HTTP/1.1 204 No Content\r\n\r\n".to_vec()
}

fn attach_response(mux: &[u8], blocks_after: bool) -> ScriptedConn {
    let mut serves = b"HTTP/1.1 200 OK\r\n\r\n".to_vec();
    serves.extend_from_slice(mux);
    if blocks_after {
        ScriptedConn::serving_then_blocking(serves)
    } else {
        ScriptedConn::serving(serves)
    }
}

fn count_deletes(s: &ScriptedSocket) -> usize {
    s.finished.iter().filter(|w| w.0.starts_with(b"DELETE ")).count()
}

#[test]
fn happy_path_returns_decoded_stdout_and_deletes_once() {
    let mux = frame(1, b"{\"stdout\":\"hi\"}");
    let mut s = ScriptedSocket::new(vec![
        ScriptedConn::serving(created_response()),
        ScriptedConn::serving(start_response()),
        attach_response(&mux, false),
        ScriptedConn::serving(start_response()),
    ]);
    let result = run(&mut s, &test_config(), request(1024), &no_keep()).unwrap();
    assert_eq!(
        result.get("stdout"),
        Some(&serde_json::Value::String("hi".to_owned()))
    );
    assert_eq!(s.finished.len(), 4);
    assert_eq!(count_deletes(&s), 1);
    assert!(s.finished[3].0.starts_with(b"DELETE /containers/abc?v=1&force=1 HTTP/1.1\r\n"));
    // the attach connection carried the attach request, then the payload
    assert!(s.finished[2]
        .0
        .starts_with(b"POST /containers/abc/attach?stream=1&stdout=1&stdin=1&stderr=1 HTTP/1.1"));
    assert!(s.finished[2].0.ends_with(b"\r\n\r\n{}"));
    // the start connection named the created container
    assert!(s.finished[1].0.starts_with(b"POST /containers/abc/start HTTP/1.1"));
    // only the attach connection runs under the execution deadline
    assert_eq!(s.finished[0].1, 1000);
    assert_eq!(s.finished[1].1, 1000);
    assert_eq!(s.finished[2].1, 700);
    assert_eq!(s.finished[3].1, 1000);
}

#[test]
fn blocked_attach_stream_is_execution_timeout_and_still_deletes() {
    let mut s = ScriptedSocket::new(vec![
        ScriptedConn::serving(created_response()),
        ScriptedConn::serving(start_response()),
        attach_response(b"", true),
        ScriptedConn::serving(start_response()),
    ]);
    match run(&mut s, &test_config(), request(1024), &no_keep()) {
        Err(Error::ReadStream(StreamError::MaxExecutionTime)) => {},
        _ => panic!("expected the execution deadline error"),
    }
    assert_eq!(count_deletes(&s), 1);
}

#[test]
fn oversized_output_is_the_cap_error() {
    let mux = frame(1, &vec![b'x'; 1025]);
    let mut s = ScriptedSocket::new(vec![
        ScriptedConn::serving(created_response()),
        ScriptedConn::serving(start_response()),
        attach_response(&mux, false),
        ScriptedConn::serving(start_response()),
    ]);
    match run(&mut s, &test_config(), request(1024), &no_keep()) {
        Err(Error::ReadStream(StreamError::MaxReadSize(max))) => assert_eq!(max, 1024),
        _ => panic!("expected the output cap error"),
    }
    assert_eq!(count_deletes(&s), 1);
}

#[test]
fn stderr_output_fails_the_run_with_its_bytes() {
    let mux = frame(2, b"boom\n");
    let mut s = ScriptedSocket::new(vec![
        ScriptedConn::serving(created_response()),
        ScriptedConn::serving(start_response()),
        attach_response(&mux, false),
        ScriptedConn::serving(start_response()),
    ]);
    match run(&mut s, &test_config(), request(1024), &no_keep()) {
        Err(Error::StreamStderr(bytes)) => assert_eq!(bytes, b"boom\n".to_vec()),
        _ => panic!("expected the stderr error"),
    }
}

#[test]
fn stdin_echo_fails_the_run_with_its_bytes() {
    let mux = frame(0, b"echo");
    let mut s = ScriptedSocket::new(vec![
        ScriptedConn::serving(created_response()),
        ScriptedConn::serving(start_response()),
        attach_response(&mux, false),
        ScriptedConn::serving(start_response()),
    ]);
    match run(&mut s, &test_config(), request(1024), &no_keep()) {
        Err(Error::StreamStdinUnexpected(bytes)) => assert_eq!(bytes, b"echo".to_vec()),
        _ => panic!("expected the stdin error"),
    }
}

#[test]
fn non_json_stdout_is_a_decode_error() {
    let mux = frame(1, b"not json");
    let mut s = ScriptedSocket::new(vec![
        ScriptedConn::serving(created_response()),
        ScriptedConn::serving(start_response()),
        attach_response(&mux, false),
        ScriptedConn::serving(start_response()),
    ]);
    match run(&mut s, &test_config(), request(1024), &no_keep()) {
        Err(Error::StreamStdoutDecode(_)) => {},
        _ => panic!("expected the stdout decode error"),
    }
}

#[test]
fn failed_create_surfaces_bad_status_and_never_deletes() {
    let body = b"{\"message\":\"no such image\"}";
    let mut s = ScriptedSocket::new(vec![ScriptedConn::serving(response_with_body(
        "HTTP/1.1 404 Not Found",
        body,
    ))]);
    match run(&mut s, &test_config(), request(1024), &no_keep()) {
        Err(Error::CreateContainer(docker::Error::SendRequest(
            docker_run::http_extra::Error::BadStatus(status, raw),
        ))) => {
            assert_eq!(status, 404);
            assert_eq!(raw, body.to_vec());
        },
        _ => panic!("expected the create failure"),
    }
    assert_eq!(s.finished.len(), 1);
    assert_eq!(count_deletes(&s), 0);
}

#[test]
fn keep_container_skips_the_delete() {
    let mux = frame(1, b"{}");
    let mut s = ScriptedSocket::new(vec![
        ScriptedConn::serving(created_response()),
        ScriptedConn::serving(start_response()),
        attach_response(&mux, false),
        ScriptedConn::serving(start_response()),
    ]);
    let keep = debug::Config { keep_container: true };
    run(&mut s, &test_config(), request(1024), &keep).unwrap();
    assert_eq!(s.finished.len(), 3);
    assert_eq!(count_deletes(&s), 0);
}

#[test]
fn failed_start_still_deletes() {
    let body = b"{\"message\":\"cannot start\"}";
    let mut s = ScriptedSocket::new(vec![
        ScriptedConn::serving(created_response()),
        ScriptedConn::serving(response_with_body("HTTP/1.1 500 Internal Server Error", body)),
        ScriptedConn::serving(start_response()),
    ]);
    match run(&mut s, &test_config(), request(1024), &no_keep()) {
        Err(Error::StartContainer(_)) => {},
        _ => panic!("expected the start failure"),
    }
    assert_eq!(count_deletes(&s), 1);
}

#[test]
fn refused_connect_is_a_socket_error() {
    let mut s = ScriptedSocket::new(vec![ScriptedConn {
        connect: PlannedConnect::RefuseConnect,
        accepts_writes: true,
        serves: Vec::new(),
        blocks_after: false,
    }]);
    match run(&mut s, &test_config(), request(1024), &no_keep()) {
        Err(Error::UnixStream(docker_run::unix_stream::Error::Connect(_))) => {},
        _ => panic!("expected the connect error"),
    }
    assert_eq!(count_deletes(&s), 0);
}

#[test]
fn failed_connect_is_a_socket_error() {
    let mut s = ScriptedSocket::new(Vec::new());
    match run(&mut s, &test_config(), request(1024), &no_keep()) {
        Err(Error::UnixStream(_)) => {},
        _ => panic!("expected the socket error"),
    }
    assert_eq!(count_deletes(&s), 0);
}

fn io(kind: IoKind) -> IoFailure {
    IoFailure { kind, message: String::new() }
}

#[test]
fn error_mapping_follows_the_table() {
    let cases: Vec<(Error, u16, &str)> = vec![
        (
            Error::UnixStream(docker_run::unix_stream::Error::Connect(io(IoKind::Other))),
            500,
            "docker.unixsocket",
        ),
        (
            Error::CreateContainer(docker::Error::SendRequest(
                docker_run::http_extra::Error::BadStatus(404, Vec::new()),
            )),
            400,
            "docker.container.create",
        ),
        (
            Error::StartContainer(docker::Error::SendRequest(
                docker_run::http_extra::Error::BadStatus(500, Vec::new()),
            )),
            500,
            "docker.container.start",
        ),
        (
            Error::AttachContainer(docker::Error::SendRequest(
                docker_run::http_extra::Error::BadStatus(500, Vec::new()),
            )),
            500,
            "docker.container.attach",
        ),
        (
            Error::SerializePayload(io(IoKind::Other)),
            400,
            "docker.container.stream.payload.serialize",
        ),
        (
            Error::ReadStream(StreamError::MaxExecutionTime),
            400,
            "limits.execution_time",
        ),
        (
            Error::ReadStream(StreamError::MaxReadSize(1024)),
            400,
            "limits.read.size",
        ),
        (
            Error::ReadStream(StreamError::Read(io(IoKind::Other))),
            500,
            "docker.container.stream.read",
        ),
        (
            Error::StreamStdinUnexpected(Vec::new()),
            500,
            "coderunner.stdin",
        ),
        (Error::StreamStderr(Vec::new()), 500, "coderunner.stderr"),
        (
            Error::StreamStdoutDecode(docker_run::http_extra::JsonFailure {
                message: String::new(),
            }),
            500,
            "coderunner.stdout.decode",
        ),
    ];
    for (err, status, code) in cases {
        let resp = api::run::handle_error(&err);
        assert_eq!(resp.status_code, status);
        assert_eq!(resp.body.error, code);
    }
}

#[test]
fn run_error_messages_name_the_phase() {
    let err = Error::UnixStream(docker_run::unix_stream::Error::Connect(IoFailure {
        kind: IoKind::Other,
        message: "denied".to_owned(),
    }));
    assert_eq!(
        err.message(),
        "Unix socket failure: Failed to connect to docker unix socket: denied"
    );
    let timeout = Error::ReadStream(StreamError::MaxExecutionTime);
    assert_eq!(timeout.message(), "Failed while reading stream: Max execution time exceeded");
}

#[test]
fn stream_error_messages_carry_the_captured_text() {
    let err = Error::StreamStderr(b"boom\n".to_vec());
    assert_eq!(err.message(), "Code runner failed with the following message: boom\n");
    let err = Error::StreamStdinUnexpected(b"echo".to_vec());
    assert_eq!(err.message(), "Code runner returned unexpected stdin data: echo");
    // bytes that are not text leave the description bare
    let err = Error::StreamStderr(vec![0xFF, 0xFE]);
    assert_eq!(err.message(), "Code runner failed with the following message: ");
}

fn service_config() -> ServiceConfig {
    ServiceConfig {
        server: ServerConfig {
            listen_addr: "127.0.0.1".to_owned(),
            listen_port: 8088,
            worker_threads: 4,
        },
        api: api::ApiConfig { access_token: "test-token".to_owned() },
        unix_socket: test_config(),
        container: docker_run::run::ContainerConfig {
            hostname: "runner".to_owned(),
            user: "glot".to_owned(),
            memory: 500000000,
            network_disabled: true,
            ulimit_nofile_soft: 90,
            ulimit_nofile_hard: 100,
            ulimit_nproc_soft: 90,
            ulimit_nproc_hard: 100,
            cap_add: Vec::new(),
            cap_drop: vec!["MKNOD".to_owned()],
            readonly_rootfs: false,
            tmp_dir: None,
            work_dir: None,
        },
        run: Limits { max_execution_time_ms: 1000, max_output_size: 1024 },
        debug: no_keep(),
    }
}

#[test]
fn run_endpoint_returns_the_result_as_minimal_json() {
    let mux = frame(1, b"{\"stdout\":\"hi\"}");
    let mut s = ScriptedSocket::new(vec![
        ScriptedConn::serving(created_response()),
        ScriptedConn::serving(start_response()),
        attach_response(&mux, false),
        ScriptedConn::serving(start_response()),
    ]);
    let config = service_config();
    let payload = serde_json::Map::new();
    let resp = api::run::handle(&mut s, &config, "python:3".to_owned(), &payload).unwrap();
    assert_eq!(resp.status_code, 200);
    assert_eq!(resp.body, b"{\"stdout\":\"hi\"}".to_vec());
    assert_eq!(count_deletes(&s), 1);
}

#[test]
fn run_endpoint_maps_a_timeout_to_its_status_and_code() {
    let mut s = ScriptedSocket::new(vec![
        ScriptedConn::serving(created_response()),
        ScriptedConn::serving(start_response()),
        attach_response(b"", true),
        ScriptedConn::serving(start_response()),
    ]);
    let config = service_config();
    let payload = serde_json::Map::new();
    match api::run::handle(&mut s, &config, "python:3".to_owned(), &payload) {
        Err(resp) => {
            assert_eq!(resp.status_code, 400);
            assert_eq!(resp.body.error, "limits.execution_time");
        },
        Ok(_) => panic!("expected the deadline failure"),
    }
}
