//! The small verified pieces: number parsing and formatting, JSON text
//! rendering, configuration preparation, environment lookup, and the
//! informational endpoint.

use docker_run::api;
use docker_run::docker::StreamOutput;
use docker_run::environment::{
    Environment, Error as EnvError, lookup, lookup_bool, lookup_optional, lookup_u64,
    space_separated_string,
};
use docker_run::json_text::write_json_string_bytes;
use docker_run::numeric::{format_i64, format_u64, parse_dec_u64, parse_dec_usize, parse_hex_usize, trim_end};
use docker_run::run::{ContainerConfig, Error, Tmpfs, classify_output, prepare_container_config};

#[test]
fn decimal_parsing_accepts_digits_only() {
    assert_eq!(parse_dec_usize(b"0"), Some(0));
    assert_eq!(parse_dec_usize(b"1024"), Some(1024));
    assert_eq!(parse_dec_usize(b""), None);
    assert_eq!(parse_dec_usize(b"12a"), None);
    assert_eq!(parse_dec_usize(b"-1"), None);
    assert_eq!(parse_dec_usize(b" 1"), None);
    assert_eq!(parse_dec_u64(b"18446744073709551615"), Some(u64::MAX));
    assert_eq!(parse_dec_u64(b"18446744073709551616"), None);
}

#[test]
fn hex_parsing_accepts_both_cases() {
    assert_eq!(parse_hex_usize(b"0"), Some(0));
    assert_eq!(parse_hex_usize(b"ff"), Some(255));
    assert_eq!(parse_hex_usize(b"FF"), Some(255));
    assert_eq!(parse_hex_usize(b"1A"), Some(26));
    assert_eq!(parse_hex_usize(b""), None);
    assert_eq!(parse_hex_usize(b"g"), None);
}

#[test]
fn trim_end_removes_trailing_whitespace_only() {
    assert_eq!(trim_end(b"5\r\n"), b"5".to_vec());
    assert_eq!(trim_end(b"  a b \t\r\n"), b"  a b".to_vec());
    assert_eq!(trim_end(b""), Vec::<u8>::new());
    assert_eq!(trim_end(b" \r\n"), Vec::<u8>::new());
}

#[test]
fn number_rendering_is_decimal() {
    assert_eq!(format_u64(0), b"0".to_vec());
    assert_eq!(format_u64(500000000), b"500000000".to_vec());
    assert_eq!(format_i64(-90), b"-90".to_vec());
    assert_eq!(format_i64(i64::MIN), b"-9223372036854775808".to_vec());
    assert_eq!(format_i64(i64::MAX), b"9223372036854775807".to_vec());
}

#[test]
fn json_strings_are_escaped_like_serde() {
    let cases: Vec<&[u8]> = vec![
        b"plain",
        b"with \"quotes\"",
        b"back\\slash",
        b"line\nbreak\ttab\rret",
        b"ctl\x01\x1f",
        b"",
    ];
    for case in cases {
        let mut mine = Vec::new();
        write_json_string_bytes(&mut mine, case);
        let expected = serde_json::to_vec(&String::from_utf8(case.to_vec()).unwrap()).unwrap();
        assert_eq!(mine, expected, "escaping differs for {:?}", case);
    }
}

fn output(stdout: &[u8]) -> StreamOutput {
    StreamOutput { stdin: Vec::new(), stdout: stdout.to_vec(), stderr: Vec::new() }
}

#[test]
fn classification_accepts_only_json_objects_on_stdout() {
    assert!(classify_output(output(b"{}")).is_ok());
    let m = classify_output(output(b"{\"a\": [1, 2]}")).unwrap();
    assert_eq!(m.get("a"), Some(&serde_json::Value::from(vec![1, 2])));
    assert!(matches!(classify_output(output(b"[1]")), Err(Error::StreamStdoutDecode(_))));
    assert!(matches!(classify_output(output(b"42")), Err(Error::StreamStdoutDecode(_))));
    assert!(matches!(classify_output(output(b"not json")), Err(Error::StreamStdoutDecode(_))));
    assert!(matches!(classify_output(output(b"")), Err(Error::StreamStdoutDecode(_))));
}

fn policy() -> ContainerConfig {
    ContainerConfig {
        hostname: "host".to_owned(),
        user: "user".to_owned(),
        memory: 1000000,
        network_disabled: true,
        ulimit_nofile_soft: 90,
        ulimit_nofile_hard: 100,
        ulimit_nproc_soft: 90,
        ulimit_nproc_hard: 100,
        cap_add: vec!["SETUID".to_owned()],
        cap_drop: vec!["MKNOD".to_owned()],
        readonly_rootfs: true,
        tmp_dir: Some(Tmpfs { path: "/tmp".to_owned(), options: "rw,size=65536k".to_owned() }),
        work_dir: Some(Tmpfs { path: "/home/glot".to_owned(), options: "rw".to_owned() }),
    }
}

#[test]
fn prepare_container_config_maps_the_policy() {
    let wire = prepare_container_config("rust:1".to_owned(), policy());
    assert_eq!(wire.image, "rust:1");
    assert_eq!(wire.hostname, "host");
    assert!(wire.attach_stdin && wire.attach_stdout && wire.attach_stderr);
    assert!(!wire.tty && wire.open_stdin && wire.stdin_once);
    assert!(!wire.host_config.privileged);
    assert_eq!(wire.host_config.ulimits.len(), 2);
    assert_eq!(wire.host_config.ulimits[0].name, "nofile");
    assert_eq!(wire.host_config.ulimits[1].name, "nproc");
    assert_eq!(
        wire.host_config.tmpfs,
        vec![
            ("/tmp".to_owned(), "rw,size=65536k".to_owned()),
            ("/home/glot".to_owned(), "rw".to_owned()),
        ]
    );
}

#[test]
fn tmpfs_mounts_lets_the_work_dir_win_on_equal_paths() {
    let mut p = policy();
    p.tmp_dir = Some(Tmpfs { path: "/same".to_owned(), options: "a".to_owned() });
    p.work_dir = Some(Tmpfs { path: "/same".to_owned(), options: "b".to_owned() });
    assert_eq!(p.tmpfs_mounts(), vec![("/same".to_owned(), "b".to_owned())]);
    p.work_dir = None;
    assert_eq!(p.tmpfs_mounts(), vec![("/same".to_owned(), "a".to_owned())]);
    p.tmp_dir = None;
    assert_eq!(p.tmpfs_mounts(), Vec::<(String, String)>::new());
}

fn env(pairs: &[(&str, &str)]) -> Environment {
    Environment {
        vars: pairs.iter().map(|(k, v)| (k.to_string(), v.to_string())).collect(),
    }
}

#[test]
fn lookup_finds_the_first_match() {
    let e = env(&[("A", "1"), ("B", "two"), ("A", "3")]);
    assert_eq!(lookup(&e, "A").unwrap(), "1");
    assert_eq!(lookup(&e, "B").unwrap(), "two");
    assert!(matches!(lookup(&e, "C"), Err(EnvError::KeyNotFound(_))));
    assert_eq!(lookup_optional(&e, "C"), None);
    assert_eq!(lookup_optional(&e, "B"), Some("two".to_owned()));
}

#[test]
fn typed_lookups_parse_or_reject() {
    let e = env(&[("N", "42"), ("BAD", "4x"), ("T", "true"), ("F", "false"), ("X", "yes")]);
    assert_eq!(lookup_u64(&e, "N").unwrap(), 42);
    assert!(matches!(lookup_u64(&e, "BAD"), Err(EnvError::Parse(_))));
    assert_eq!(lookup_bool(&e, "T").unwrap(), true);
    assert_eq!(lookup_bool(&e, "F").unwrap(), false);
    assert!(matches!(lookup_bool(&e, "X"), Err(EnvError::Parse(_))));
}

#[test]
fn space_separated_strings_drop_empty_pieces() {
    assert_eq!(
        space_separated_string("CAP_ONE CAP_TWO".to_owned()),
        vec!["CAP_ONE".to_owned(), "CAP_TWO".to_owned()]
    );
    assert_eq!(
        space_separated_string("  a   b ".to_owned()),
        vec!["a".to_owned(), "b".to_owned()]
    );
    assert_eq!(space_separated_string("".to_owned()), Vec::<String>::new());
    assert_eq!(space_separated_string("   ".to_owned()), Vec::<String>::new());
}

#[test]
fn space_separated_strings_trim_each_piece() {
    assert_eq!(
        space_separated_string("CHOWN  DAC_OVERRIDE ".to_owned()),
        vec!["CHOWN".to_owned(), "DAC_OVERRIDE".to_owned()]
    );
    assert_eq!(space_separated_string("\tx\t y".to_owned()), vec!["x".to_owned(), "y".to_owned()]);
    assert_eq!(space_separated_string(" \t \n ".to_owned()), Vec::<String>::new());
}

#[test]
fn root_endpoint_describes_the_service() {
    let resp = api::root::handle().unwrap();
    assert_eq!(resp.status_code, 200);
    let text = String::from_utf8(resp.body).unwrap();
    assert!(text.contains("\"name\": \"docker-run\""));
    let parsed: serde_json::Value = serde_json::from_str(&text).unwrap();
    assert_eq!(parsed["name"], serde_json::Value::String("docker-run".to_owned()));
}

#[test]
fn authorization_error_is_401() {
    let resp = api::authorization_error();
    assert_eq!(resp.status_code, 401);
    assert_eq!(resp.body.error, "access_token");
}

#[test]
fn error_bodies_render_as_pretty_json() {
    let body = api::ErrorBody {
        error: "some.code".to_owned(),
        message: "something \"quoted\" failed".to_owned(),
    };
    let mine = body.to_json_pretty();
    let parsed: serde_json::Value = serde_json::from_slice(&mine).unwrap();
    assert_eq!(parsed["error"], serde_json::Value::String("some.code".to_owned()));
    assert_eq!(
        parsed["message"],
        serde_json::Value::String("something \"quoted\" failed".to_owned())
    );
}

#[test]
fn prepare_json_response_renders_the_map() {
    let mut m = serde_json::Map::new();
    m.insert("stdout".to_owned(), serde_json::Value::String("hi".to_owned()));
    let resp = api::prepare_json_response(&m, api::JsonFormat::Minimal).unwrap();
    assert_eq!(resp.status_code, 200);
    assert_eq!(resp.body, b"{\"stdout\":\"hi\"}".to_vec());
    let pretty = api::prepare_json_response(&m, api::JsonFormat::Pretty).unwrap();
    assert_eq!(pretty.body, serde_json::to_vec_pretty(&m).unwrap());
}
