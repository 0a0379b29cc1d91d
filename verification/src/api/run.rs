//! The run endpoint: map a parsed request onto one container run, and a
//! run failure onto a status code and stable error code.

use vstd::prelude::*;
use vstd::string::StringExecFns;

use crate::api::{
    ErrorBody, ErrorResponse, JsonFormat, SuccessResponse, map_json_min, prepare_json_response,
};
use crate::config::Config;
use crate::docker;
use crate::run;
use crate::run::{RunRequest, count_removes, run_matches};
use crate::unix_stream::{IoFailure, IoKind, StreamSocket};

verus! {

/// The status code and stable error code for a run failure, as the
/// front-end surfaces it.
pub open spec fn error_mapping(err: &run::Error) -> (u16, Seq<char>) {
    match err {
        run::Error::UnixStream(_) => (500, "docker.unixsocket"@),
        run::Error::CreateContainer(_) => (400, "docker.container.create"@),
        run::Error::StartContainer(_) => (500, "docker.container.start"@),
        run::Error::AttachContainer(_) => (500, "docker.container.attach"@),
        run::Error::SerializePayload(_) => (400, "docker.container.stream.payload.serialize"@),
        run::Error::ReadStream(stream_error) => match stream_error {
            docker::StreamError::MaxExecutionTime => (400, "limits.execution_time"@),
            docker::StreamError::MaxReadSize(_) => (400, "limits.read.size"@),
            _ => (500, "docker.container.stream.read"@),
        },
        run::Error::StreamStdinUnexpected(_) => (500, "coderunner.stdin"@),
        run::Error::StreamStderr(_) => (500, "coderunner.stderr"@),
        run::Error::StreamStdoutDecode(_) => (500, "coderunner.stdout.decode"@),
    }
}

/// Maps a run failure onto the response the front-end sends: the status
/// code and error code of the table, and the failure's description.
pub fn handle_error(err: &run::Error) -> (r: ErrorResponse)
    ensures
        r.status_code == error_mapping(err).0,
        r.body.error@ == error_mapping(err).1,
        r.body.message@ == err.message_spec(),
{
    let message = err.message();
    let code: &str = match err {
        run::Error::UnixStream(_) => "docker.unixsocket",
        run::Error::CreateContainer(_) => "docker.container.create",
        run::Error::StartContainer(_) => "docker.container.start",
        run::Error::AttachContainer(_) => "docker.container.attach",
        run::Error::SerializePayload(_) => "docker.container.stream.payload.serialize",
        run::Error::ReadStream(stream_error) => match stream_error {
            docker::StreamError::MaxExecutionTime => "limits.execution_time",
            docker::StreamError::MaxReadSize(_) => "limits.read.size",
            _ => "docker.container.stream.read",
        },
        run::Error::StreamStdinUnexpected(_) => "coderunner.stdin",
        run::Error::StreamStderr(_) => "coderunner.stderr",
        run::Error::StreamStdoutDecode(_) => "coderunner.stdout.decode",
    };
    let status_code: u16 = match err {
        run::Error::UnixStream(_) => 500,
        run::Error::CreateContainer(_) => 400,
        run::Error::StartContainer(_) => 500,
        run::Error::AttachContainer(_) => 500,
        run::Error::SerializePayload(_) => 400,
        run::Error::ReadStream(stream_error) => match stream_error {
            docker::StreamError::MaxExecutionTime => 400,
            docker::StreamError::MaxReadSize(_) => 400,
            _ => 500,
        },
        run::Error::StreamStdinUnexpected(_) => 500,
        run::Error::StreamStderr(_) => 500,
        run::Error::StreamStdoutDecode(_) => 500,
    };
    ErrorResponse {
        status_code,
        body: ErrorBody { error: String::from_str(code), message },
    }
}

/// Duplicates the container policy, field for field.
fn clone_policy(c: &run::ContainerConfig) -> (r: run::ContainerConfig)
    ensures
        r.hostname@ == c.hostname@,
        r.user@ == c.user@,
        r.memory == c.memory,
        r.network_disabled == c.network_disabled,
        r.ulimit_nofile_soft == c.ulimit_nofile_soft,
        r.ulimit_nofile_hard == c.ulimit_nofile_hard,
        r.ulimit_nproc_soft == c.ulimit_nproc_soft,
        r.ulimit_nproc_hard == c.ulimit_nproc_hard,
        r.cap_add@.map_values(|s: String| s@) == c.cap_add@.map_values(|s: String| s@),
        r.cap_drop@.map_values(|s: String| s@) == c.cap_drop@.map_values(|s: String| s@),
        r.readonly_rootfs == c.readonly_rootfs,
        match (r.tmp_dir, c.tmp_dir) {
            (Option::None, Option::None) => true,
            (Option::Some(a), Option::Some(b)) => a.path@ == b.path@ && a.options@ == b.options@,
            _ => false,
        },
        match (r.work_dir, c.work_dir) {
            (Option::None, Option::None) => true,
            (Option::Some(a), Option::Some(b)) => a.path@ == b.path@ && a.options@ == b.options@,
            _ => false,
        },
{
    run::ContainerConfig {
        hostname: c.hostname.clone(),
        user: c.user.clone(),
        memory: c.memory,
        network_disabled: c.network_disabled,
        ulimit_nofile_soft: c.ulimit_nofile_soft,
        ulimit_nofile_hard: c.ulimit_nofile_hard,
        ulimit_nproc_soft: c.ulimit_nproc_soft,
        ulimit_nproc_hard: c.ulimit_nproc_hard,
        cap_add: clone_strings(&c.cap_add),
        cap_drop: clone_strings(&c.cap_drop),
        readonly_rootfs: c.readonly_rootfs,
        tmp_dir: clone_tmpfs(&c.tmp_dir),
        work_dir: clone_tmpfs(&c.work_dir),
    }
}

/// Duplicates a list of strings.
fn clone_strings(v: &Vec<String>) -> (r: Vec<String>)
    ensures
        r@.map_values(|s: String| s@) == v@.map_values(|s: String| s@),
{
    let mut r: Vec<String> = Vec::new();
    let mut i: usize = 0;
    while i < v.len()
        invariant
            0 <= i <= v@.len(),
            r@.map_values(|s: String| s@) == v@.take(i as int).map_values(|s: String| s@),
        decreases v@.len() - i,
    {
        let c = v[i].clone();
        let ghost prev = r@;
        r.push(c);
        proof {
            let f = |s: String| s@;
            assert(r@ == prev.push(c));
            assert(r@.map_values(f) =~= prev.map_values(f).push(c@));
            assert(v@.take(i as int + 1) =~= v@.take(i as int).push(v@[i as int]));
            assert(v@.take(i as int + 1).map_values(f) =~= v@.take(i as int).map_values(f).push(
                v@[i as int]@,
            ));
            assert(r@.map_values(f) =~= v@.take(i as int + 1).map_values(f));
        }
        i = i + 1;
    }
    proof {
        assert(v@.take(v@.len() as int) =~= v@);
    }
    r
}

/// Duplicates an optional tmpfs mount.
fn clone_tmpfs(t: &Option<run::Tmpfs>) -> (r: Option<run::Tmpfs>)
    ensures
        match (r, t) {
            (Option::None, Option::None) => true,
            (Option::Some(a), Option::Some(b)) => a.path@ == b.path@ && a.options@ == b.options@,
            _ => false,
        },
{
    match t {
        Option::None => Option::None,
        Option::Some(m) => Option::Some(
            run::Tmpfs { path: m.path.clone(), options: m.options.clone() },
        ),
    }
}

/// Handles one run request: map the policy and image onto the wire
/// configuration, encode the payload, drive the run, and surface the
/// outcome. On a run the script lets succeed the response is the 200
/// with the decoded object rendered minimally; on a run failure the
/// status code, stable error code and message follow [`error_mapping`]
/// of the error the script forced.
pub fn handle<S: StreamSocket>(
    s: &mut S,
    config: &Config,
    image: String,
    payload: &serde_json::Map<String, serde_json::Value>,
) -> (r: Result<SuccessResponse, ErrorResponse>)
    requires
        old(s).current() is None,
    ensures
        final(s).current() is None,
        old(s).used().len() <= final(s).used().len(),
        old(s).used() == final(s).used().take(old(s).used().len() as int),
        count_removes(final(s).used().skip(old(s).used().len() as int)) <= 1,
        config.debug.keep_container ==> count_removes(
            final(s).used().skip(old(s).used().len() as int),
        ) == 0,
        ({
            let max = config.run.max_output_size as nat;
            ||| (exists|m: serde_json::Map<String, serde_json::Value>|
                #[trigger] run_matches(
                    Result::Ok(m),
                    old(s).future(),
                    max,
                    config.run.max_execution_time_ms,
                ) && (r matches Ok(resp) && resp.status_code == 200 && resp.body@ == map_json_min(
                    m,
                )))
            ||| (exists|err: run::Error|
                #[trigger] run_matches(
                    Result::Err(err),
                    old(s).future(),
                    max,
                    config.run.max_execution_time_ms,
                ) && (r matches Err(resp) && resp.status_code == error_mapping(&err).0
                    && resp.body.error@ == error_mapping(&err).1 && resp.body.message@
                    == err.message_spec()))
        }),
{
    let container_config = run::prepare_container_config(image, clone_policy(&config.container));
    let payload_bytes = match crate::api::map_to_vec(payload) {
        Ok(b) => b,
        Err(jf) => {
            proof {
                assert(false);
            }
            return Err(
                handle_error(
                    &run::Error::SerializePayload(
                        IoFailure { kind: IoKind::Other, message: jf.message },
                    ),
                ),
            );
        },
    };
    let run_request = RunRequest {
        container_config,
        payload: payload_bytes,
        limits: run::Limits {
            max_execution_time_ms: config.run.max_execution_time_ms,
            max_output_size: config.run.max_output_size,
        },
    };
    match run::run(s, &config.unix_socket, run_request, &config.debug) {
        Ok(result) => {
            let r = prepare_json_response(&result, JsonFormat::Minimal);
            proof {
                assert(run_matches(
                    Result::Ok(result),
                    old(s).future(),
                    config.run.max_output_size as nat,
                    config.run.max_execution_time_ms,
                ));
            }
            r
        },
        Err(err) => {
            let resp = handle_error(&err);
            proof {
                assert(run_matches(
                    Result::Err(err),
                    old(s).future(),
                    config.run.max_output_size as nat,
                    config.run.max_execution_time_ms,
                ));
            }
            Err(resp)
        },
    }
}

} // verus!
