//! The run orchestrator: drive one container run from request to result.
//!
//! One run is create, then start, then attach (send the payload, read the
//! demultiplexed output), and in every case that created a container a
//! final best-effort remove, each on a fresh connection.

use vstd::prelude::*;
use vstd::string::StringSliceAdditionalSpecFns;

use crate::docker;
use crate::docker::{
    DemuxOutcome, StreamError, StreamOutput, created_view, demux, is_json_object,
    remove_request_wire,
};
use crate::http_extra::{HttpView, JsonFailure, http_read};
use crate::json_text::lit_bytes;
use crate::unix_stream;
use crate::unix_stream::{ConnPlan, ConnRecord, ConnectOutcome, IoFailure, LiveConn, StreamSocket};

verus! {

/// The per-run limits: a wall-clock deadline for the attach phase, in
/// milliseconds, and a cap on the total bytes of container output.
#[derive(Clone)]
pub struct Limits {
    pub max_execution_time_ms: u64,
    pub max_output_size: usize,
}

/// A tmpfs mount: path and mount options.
#[derive(Clone)]
pub struct Tmpfs {
    pub path: String,
    pub options: String,
}

/// The service-wide container policy, mapped onto the wire configuration
/// by [`prepare_container_config`].
#[derive(Clone)]
pub struct ContainerConfig {
    pub hostname: String,
    pub user: String,
    pub memory: i64,
    pub network_disabled: bool,
    pub ulimit_nofile_soft: i64,
    pub ulimit_nofile_hard: i64,
    pub ulimit_nproc_soft: i64,
    pub ulimit_nproc_hard: i64,
    pub cap_add: Vec<String>,
    pub cap_drop: Vec<String>,
    pub readonly_rootfs: bool,
    pub tmp_dir: Option<Tmpfs>,
    pub work_dir: Option<Tmpfs>,
}

impl ContainerConfig {
    /// The tmpfs mounts of this policy, path to options: the temporary
    /// directory, then the work directory; if both name the same path,
    /// the work directory's options win.
    pub fn tmpfs_mounts(&self) -> (r: Vec<(String, String)>)
        ensures
            ({
                let rv = r@.map_values(|e: (String, String)| (e.0@, e.1@));
                match (self.tmp_dir, self.work_dir) {
                    (Option::None, Option::None) => rv == Seq::<(Seq<char>, Seq<char>)>::empty(),
                    (Option::Some(t), Option::None) => rv == seq![(t.path@, t.options@)],
                    (Option::None, Option::Some(w)) => rv == seq![(w.path@, w.options@)],
                    (Option::Some(t), Option::Some(w)) => if t.path@ == w.path@ {
                        rv == seq![(w.path@, w.options@)]
                    } else {
                        rv == seq![(t.path@, t.options@), (w.path@, w.options@)]
                    },
                }
            }),
    {
        let mut r: Vec<(String, String)> = Vec::new();
        match (&self.tmp_dir, &self.work_dir) {
            (Option::None, Option::None) => {},
            (Option::Some(t), Option::None) => {
                r.push((t.path.clone(), t.options.clone()));
            },
            (Option::None, Option::Some(w)) => {
                r.push((w.path.clone(), w.options.clone()));
            },
            (Option::Some(t), Option::Some(w)) => {
                if t.path.as_str().as_bytes().len() == w.path.as_str().as_bytes().len()
                    && crate::http_extra::bytes_eq(
                    t.path.as_str().as_bytes(),
                    w.path.as_str().as_bytes(),
                ) {
                    proof {
                        vstd::utf8::encode_utf8_decode_utf8(t.path@);
                        vstd::utf8::encode_utf8_decode_utf8(w.path@);
                    }
                    r.push((w.path.clone(), w.options.clone()));
                } else {
                    proof {
                        if t.path@ == w.path@ {
                            assert(vstd::utf8::encode_utf8(t.path@) == vstd::utf8::encode_utf8(
                                w.path@,
                            ));
                        }
                    }
                    r.push((t.path.clone(), t.options.clone()));
                    r.push((w.path.clone(), w.options.clone()));
                }
            },
        }
        proof {
            assert(r@.map_values(|e: (String, String)| (e.0@, e.1@)) =~= r@.map_values(
                |e: (String, String)| (e.0@, e.1@),
            ));
        }
        r
    }
}

/// Maps the container policy and an image name onto the wire
/// configuration: stdio attached without a terminal, stdin open for one
/// payload, never privileged, and the two ulimit entries `nofile` then
/// `nproc`.
pub fn prepare_container_config(image_name: String, config: ContainerConfig) -> (r:
    docker::ContainerConfig)
    ensures
        r.hostname@ == config.hostname@,
        r.user@ == config.user@,
        r.attach_stdin && r.attach_stdout && r.attach_stderr,
        !r.tty,
        r.open_stdin && r.stdin_once,
        r.image@ == image_name@,
        r.network_disabled == config.network_disabled,
        r.host_config.memory == config.memory,
        !r.host_config.privileged,
        r.host_config.cap_add@ == config.cap_add@,
        r.host_config.cap_drop@ == config.cap_drop@,
        r.host_config.ulimits@.len() == 2,
        r.host_config.ulimits@[0].name@ == "nofile"@ && r.host_config.ulimits@[0].soft
            == config.ulimit_nofile_soft && r.host_config.ulimits@[0].hard
            == config.ulimit_nofile_hard,
        r.host_config.ulimits@[1].name@ == "nproc"@ && r.host_config.ulimits@[1].soft
            == config.ulimit_nproc_soft && r.host_config.ulimits@[1].hard
            == config.ulimit_nproc_hard,
        r.host_config.readonly_rootfs == config.readonly_rootfs,
        ({
            let tv = r.host_config.tmpfs@.map_values(|e: (String, String)| (e.0@, e.1@));
            match (config.tmp_dir, config.work_dir) {
                (Option::None, Option::None) => tv == Seq::<(Seq<char>, Seq<char>)>::empty(),
                (Option::Some(t), Option::None) => tv == seq![(t.path@, t.options@)],
                (Option::None, Option::Some(w)) => tv == seq![(w.path@, w.options@)],
                (Option::Some(t), Option::Some(w)) => if t.path@ == w.path@ {
                    tv == seq![(w.path@, w.options@)]
                } else {
                    tv == seq![(t.path@, t.options@), (w.path@, w.options@)]
                },
            }
        }),
{
    let tmpfs = config.tmpfs_mounts();
    let mut ulimits: Vec<docker::Ulimit> = Vec::new();
    ulimits.push(
        docker::Ulimit {
            name: "nofile".to_owned(),
            soft: config.ulimit_nofile_soft,
            hard: config.ulimit_nofile_hard,
        },
    );
    ulimits.push(
        docker::Ulimit {
            name: "nproc".to_owned(),
            soft: config.ulimit_nproc_soft,
            hard: config.ulimit_nproc_hard,
        },
    );
    docker::ContainerConfig {
        hostname: config.hostname,
        user: config.user,
        attach_stdin: true,
        attach_stdout: true,
        attach_stderr: true,
        tty: false,
        open_stdin: true,
        stdin_once: true,
        image: image_name,
        network_disabled: config.network_disabled,
        host_config: docker::HostConfig {
            memory: config.memory,
            privileged: false,
            cap_add: config.cap_add,
            cap_drop: config.cap_drop,
            ulimits,
            readonly_rootfs: config.readonly_rootfs,
            tmpfs,
        },
    }
}

/// One run request: the wire configuration, the payload already encoded
/// as JSON bytes, and the limits.
pub struct RunRequest {
    pub container_config: docker::ContainerConfig,
    pub payload: Vec<u8>,
    pub limits: Limits,
}

/// Failure of one run.
#[derive(Debug)]
pub enum Error {
    /// A connection to the daemon socket could not be opened.
    UnixStream(unix_stream::Error),
    /// The daemon rejected the create call.
    CreateContainer(docker::Error),
    /// The daemon could not start the container.
    StartContainer(docker::Error),
    /// The daemon rejected the attach call.
    AttachContainer(docker::Error),
    /// The payload could not be written to the attached stream.
    SerializePayload(IoFailure),
    /// Decoding the attach stream failed.
    ReadStream(StreamError),
    /// The container wrote to the stdin channel (carried here).
    StreamStdinUnexpected(Vec<u8>),
    /// The container wrote to stderr (carried here).
    StreamStderr(Vec<u8>),
    /// The container's stdout was not one JSON object.
    StreamStdoutDecode(JsonFailure),
}

/// Classifies the demultiplexed output: a run succeeds exactly when the
/// stdin and stderr accumulators are empty and stdout holds one JSON
/// object, which is returned decoded.
pub fn classify_output(output: StreamOutput) -> (r: Result<
    serde_json::Map<String, serde_json::Value>,
    Error,
>)
    ensures
        r is Ok <==> (output.stdin@.len() == 0 && output.stderr@.len() == 0 && is_json_object(
            output.stdout@,
        )),
        output.stdin@.len() > 0 ==> (r matches Err(Error::StreamStdinUnexpected(b)) && b@
            == output.stdin@),
        output.stdin@.len() == 0 && output.stderr@.len() > 0 ==> (r matches Err(
            Error::StreamStderr(b),
        ) && b@ == output.stderr@),
        output.stdin@.len() == 0 && output.stderr@.len() == 0 && !is_json_object(output.stdout@)
            ==> r matches Err(Error::StreamStdoutDecode(_)),
{
    if output.stdin.len() > 0 {
        return Err(Error::StreamStdinUnexpected(output.stdin));
    }
    if output.stderr.len() > 0 {
        return Err(Error::StreamStderr(output.stderr));
    }
    match docker::decode_object(output.stdout.as_slice()) {
        Ok(m) => Ok(m),
        Err(jf) => Err(Error::StreamStdoutDecode(jf)),
    }
}

/// True when `s` begins with `p`.
pub open spec fn starts_with(s: Seq<u8>, p: Seq<u8>) -> bool {
    p.len() <= s.len() && s.take(p.len() as int) == p
}

/// True when the bytes written on a connection begin a container remove.
pub open spec fn is_remove_write(w: Seq<u8>) -> bool {
    starts_with(w, lit_bytes("DELETE "))
}

/// How many finished connections wrote a remove request.
pub open spec fn count_removes(rs: Seq<ConnRecord>) -> nat
    decreases rs.len(),
{
    if rs.len() == 0 {
        0
    } else {
        count_removes(rs.drop_last()) + (if is_remove_write(rs.last().wrote) {
            1 as nat
        } else {
            0 as nat
        })
    }
}

proof fn lemma_count_removes_push(rs: Seq<ConnRecord>, rec: ConnRecord)
    ensures
        count_removes(rs.push(rec)) == count_removes(rs) + (if is_remove_write(rec.wrote) {
            1 as nat
        } else {
            0 as nat
        }),
{
    assert(rs.push(rec).drop_last() =~= rs);
    assert(rs.push(rec).last() == rec);
}

proof fn lemma_count_removes_concat(a: Seq<ConnRecord>, b: Seq<ConnRecord>)
    ensures
        count_removes(a + b) == count_removes(a) + count_removes(b),
    decreases b.len(),
{
    if b.len() == 0 {
        assert(a + b =~= a);
    } else {
        assert((a + b).drop_last() =~= a + b.drop_last());
        assert((a + b).last() == b.last());
        lemma_count_removes_concat(a, b.drop_last());
    }
}

proof fn lemma_count_removes_all_clear(rs: Seq<ConnRecord>)
    requires
        forall|k: int| 0 <= k < rs.len() ==> !is_remove_write(#[trigger] rs[k].wrote),
    ensures
        count_removes(rs) == 0,
    decreases rs.len(),
{
    if rs.len() > 0 {
        lemma_count_removes_all_clear(rs.drop_last());
    }
}

proof fn lemma_count_removes_zero(rs: Seq<ConnRecord>)
    requires
        count_removes(rs) == 0,
    ensures
        forall|k: int| 0 <= k < rs.len() ==> !is_remove_write(#[trigger] rs[k].wrote),
    decreases rs.len(),
{
    if rs.len() > 0 {
        lemma_count_removes_zero(rs.drop_last());
        assert forall|k: int| 0 <= k < rs.len() implies !is_remove_write(rs[k].wrote) by {
            if k < rs.len() - 1 {
                assert(rs.drop_last()[k] == rs[k]);
            } else {
                assert(rs[k] == rs.last());
            }
        }
    }
}

/// The byte values of the method words on the wire.
proof fn lemma_method_bytes()
    ensures
        lit_bytes("DELETE ").len() == 7,
        lit_bytes("DELETE ")[0] == 68,
        lit_bytes("DELETE") + lit_bytes(" ") == lit_bytes("DELETE "),
        lit_bytes("POST").len() == 4,
        lit_bytes("POST")[0] == 80,
        lit_bytes("GET").len() == 3,
        lit_bytes("GET")[0] == 71,
{
    reveal_strlit("DELETE ");
    reveal_strlit("DELETE");
    reveal_strlit(" ");
    reveal_strlit("POST");
    reveal_strlit("GET");
    assert(vstd::utf8::is_ascii_chars("DELETE "@));
    assert(vstd::utf8::is_ascii_chars("DELETE"@));
    assert(vstd::utf8::is_ascii_chars(" "@));
    assert(vstd::utf8::is_ascii_chars("POST"@));
    assert(vstd::utf8::is_ascii_chars("GET"@));
    vstd::utf8::is_ascii_chars_encode_utf8("DELETE "@);
    vstd::utf8::is_ascii_chars_encode_utf8("DELETE"@);
    vstd::utf8::is_ascii_chars_encode_utf8(" "@);
    vstd::utf8::is_ascii_chars_encode_utf8("POST"@);
    vstd::utf8::is_ascii_chars_encode_utf8("GET"@);
    assert(lit_bytes("DELETE") + lit_bytes(" ") =~= lit_bytes("DELETE "));
}

/// A write whose first byte is not `D`, or which is empty, is no remove.
proof fn lemma_not_remove(w: Seq<u8>)
    requires
        w.len() == 0 || w[0] != 68,
    ensures
        !is_remove_write(w),
{
    lemma_method_bytes();
    if is_remove_write(w) {
        assert(w.take(7)[0] == w[0]);
        assert(lit_bytes("DELETE ")[0] == 68);
    }
}

/// The remove request is recognized as a remove write.
proof fn lemma_remove_wire_is_remove(id: Seq<u8>)
    ensures
        is_remove_write(remove_request_wire(id)),
{
    lemma_method_bytes();
    reveal(crate::docker::remove_request_wire);
    assert(remove_request_wire(id).take(7) =~= lit_bytes("DELETE "));
}

/// What the attach phase yields for an open connection in the model:
/// the demultiplexed output of whatever follows the attach response.
#[verifier::opaque]
pub open spec fn attach_read_matches(
    r: Result<StreamOutput, Error>,
    c: LiveConn,
    id: Seq<u8>,
    max: nat,
) -> bool {
    if !(c.accepts_writes && !c.write_closed) {
        r matches Err(Error::AttachContainer(_))
    } else {
        match http_read(c.serves, c.blocks_after) {
            HttpView::Success { rest, .. } => match demux(rest, c.blocks_after, max) {
                DemuxOutcome::Done { stdin, stdout, stderr } => r matches Ok(out) && out.stdin@
                    == stdin && out.stdout@ == stdout && out.stderr@ == stderr,
                m => r matches Err(Error::ReadStream(e)) && docker::stream_err_matches(e, m),
            },
            v => r matches Err(Error::AttachContainer(docker::Error::SendRequest(e2)))
                && crate::http_extra::http_err_matches(e2, v),
        }
    }
}

/// Attaches to the container, writes the payload after the attach
/// request, and half-closes the write side so the container sees end of
/// input, all before demultiplexing the reply under the output cap: on
/// the success path the connection ends with exactly the attach request
/// then the payload written, and the write side closed.
fn attach_and_read<S: StreamSocket>(s: &mut S, container_id: &str, run_request: &RunRequest) -> (r:
    Result<StreamOutput, Error>)
    requires
        old(s).current() is Some,
    ensures
        final(s).future() == old(s).future(),
        final(s).used() == old(s).used(),
        final(s).current() is Some,
        final(s).current().unwrap().read_timeout_ms == old(
            s,
        ).current().unwrap().read_timeout_ms,
        ({
            let c = old(s).current().unwrap();
            let cc = final(s).current().unwrap();
            let wire = docker::attach_request_wire(container_id.spec_bytes());
            if !(c.accepts_writes && !c.write_closed) {
                cc.wrote == c.wrote && cc.write_closed == c.write_closed
            } else {
                match http_read(c.serves, c.blocks_after) {
                    HttpView::Success { .. } => cc.wrote == c.wrote + wire
                        + run_request.payload@ && cc.write_closed,
                    _ => cc.wrote == c.wrote + wire && cc.write_closed == c.write_closed,
                }
            }
        }),
        attach_read_matches(
            r,
            old(s).current().unwrap(),
            container_id.spec_bytes(),
            run_request.limits.max_output_size as nat,
        ),
{
    proof {
        reveal(attach_read_matches);
    }
    match docker::attach_container(s, container_id) {
        Ok(()) => {},
        Err(e) => {
            return Err(Error::AttachContainer(e));
        },
    }
    match s.write_all(run_request.payload.as_slice()) {
        Ok(()) => {},
        Err(f) => {
            proof {
                assert(false);
            }
            return Err(Error::SerializePayload(f));
        },
    }
    s.shutdown_write();
    match docker::read_stream(s, run_request.limits.max_output_size) {
        Ok(o) => Ok(o),
        Err(e) => Err(Error::ReadStream(e)),
    }
}

/// What the whole attach phase decides, classification included.
#[verifier::opaque]
pub open spec fn run_code_matches(
    r: Result<serde_json::Map<String, serde_json::Value>, Error>,
    c: LiveConn,
    max: nat,
) -> bool {
    if !(c.accepts_writes && !c.write_closed) {
        r matches Err(Error::AttachContainer(_))
    } else {
        match http_read(c.serves, c.blocks_after) {
            HttpView::Success { rest, .. } => match demux(rest, c.blocks_after, max) {
                DemuxOutcome::Done { stdin, stdout, stderr } => {
                    if stdin.len() > 0 {
                        r matches Err(Error::StreamStdinUnexpected(b)) && b@ == stdin
                    } else if stderr.len() > 0 {
                        r matches Err(Error::StreamStderr(b)) && b@ == stderr
                    } else if is_json_object(stdout) {
                        r is Ok
                    } else {
                        r matches Err(Error::StreamStdoutDecode(_))
                    }
                },
                m => r matches Err(Error::ReadStream(e)) && docker::stream_err_matches(e, m),
            },
            v => r matches Err(Error::AttachContainer(docker::Error::SendRequest(e2)))
                && crate::http_extra::http_err_matches(e2, v),
        }
    }
}

/// Drives the attach phase on the open connection: attach, write the
/// payload, half-close the write side so the container sees end of
/// input, demultiplex the reply under the output cap, and classify it.
fn run_code<S: StreamSocket>(s: &mut S, container_id: &str, run_request: &RunRequest) -> (r:
    Result<serde_json::Map<String, serde_json::Value>, Error>)
    requires
        old(s).current() is Some,
    ensures
        final(s).future() == old(s).future(),
        final(s).used() == old(s).used(),
        final(s).current() is Some,
        final(s).current().unwrap().read_timeout_ms == old(
            s,
        ).current().unwrap().read_timeout_ms,
        ({
            let c = old(s).current().unwrap();
            let cc = final(s).current().unwrap();
            let wire = docker::attach_request_wire(container_id.spec_bytes());
            if !(c.accepts_writes && !c.write_closed) {
                cc.wrote == c.wrote && cc.write_closed == c.write_closed
            } else {
                match http_read(c.serves, c.blocks_after) {
                    HttpView::Success { .. } => cc.wrote == c.wrote + wire
                        + run_request.payload@ && cc.write_closed,
                    _ => cc.wrote == c.wrote + wire && cc.write_closed == c.write_closed,
                }
            }
        }),
        run_code_matches(
            r,
            old(s).current().unwrap(),
            run_request.limits.max_output_size as nat,
        ),
        !(r matches Err(Error::CreateContainer(_))),
        !(r matches Err(Error::UnixStream(_))),
        !(r matches Err(Error::StartContainer(_))),
        r is Ok ==> exists|t: (Seq<u8>, Seq<u8>, Seq<u8>)|
            #[trigger] is_json_object(t.1) && t.0.len() == 0 && t.2.len() == 0 && t.1.len()
                <= run_request.limits.max_output_size,
{
    proof {
        reveal(attach_read_matches);
        reveal(run_code_matches);
    }
    let ghost c = old(s).current().unwrap();
    let ghost max = run_request.limits.max_output_size as nat;
    let output = match attach_and_read(s, container_id, run_request) {
        Ok(o) => o,
        Err(e) => {
            return Err(e);
        },
    };
    proof {
        docker::lemma_demux_done_within_cap(
            (match http_read(c.serves, c.blocks_after) {
                HttpView::Success { rest, .. } => rest,
                _ => Seq::<u8>::empty(),
            }),
            c.blocks_after,
            max,
        );
    }
    let r = classify_output(output);
    proof {
        if r is Ok {
            assert(is_json_object((output.stdin@, output.stdout@, output.stderr@).1) && (
            output.stdin@,
            output.stdout@,
            output.stderr@,
            ).0.len() == 0 && (output.stdin@, output.stdout@, output.stderr@).2.len() == 0 && (
            output.stdin@,
            output.stdout@,
            output.stderr@,
            ).1.len() <= run_request.limits.max_output_size);
        }
    }
    r
}

/// Errors that can only arise once a container was created.
pub open spec fn after_create_error(
    r: Result<serde_json::Map<String, serde_json::Value>, Error>,
) -> bool {
    match r {
        Result::Err(e) => e is StartContainer || e is AttachContainer || e is SerializePayload
            || e is ReadStream || e is StreamStdinUnexpected || e is StreamStderr
            || e is StreamStdoutDecode,
        Result::Ok(_) => false,
    }
}

/// A daemon script that answers every planned connection and accepts
/// every write.
pub open spec fn plans_accepting(ps: Seq<ConnPlan>) -> bool {
    forall|i: int|
        0 <= i < ps.len() ==> (#[trigger] ps[i].connect is Accept) && ps[i].accepts_writes
}

/// The connection a plan opens, freshly connected with the given read
/// timeout.
pub open spec fn fresh_conn(p: ConnPlan, read_timeout_ms: u64) -> LiveConn {
    LiveConn {
        read_timeout_ms,
        serves: p.serves,
        blocks_after: p.blocks_after,
        accepts_writes: p.accepts_writes,
        wrote: Seq::<u8>::empty(),
        write_closed: false,
    }
}

/// What starting and running the container yields against the daemon
/// script: the start exchange happens on the first planned connection,
/// the attach phase on the second.
#[verifier::opaque]
pub open spec fn run_with_container_matches(
    r: Result<serde_json::Map<String, serde_json::Value>, Error>,
    future: Seq<ConnPlan>,
    max: nat,
    attach_timeout_ms: u64,
) -> bool {
    if future.len() == 0 {
        r matches Err(Error::UnixStream(unix_stream::Error::Connect(_)))
    } else {
        match future[0].connect {
            ConnectOutcome::Accept => if !future[0].accepts_writes {
                r matches Err(
                    Error::StartContainer(
                        docker::Error::SendRequest(crate::http_extra::Error::WriteRequest(_)),
                    ),
                )
            } else {
                match http_read(future[0].serves, future[0].blocks_after) {
                    HttpView::Success { .. } => if future.len() == 1 {
                        r matches Err(Error::UnixStream(unix_stream::Error::Connect(_)))
                    } else {
                        match future[1].connect {
                            ConnectOutcome::Accept => run_code_matches(
                                r,
                                fresh_conn(future[1], attach_timeout_ms),
                                max,
                            ),
                            ConnectOutcome::RefuseConnect => r matches Err(
                                Error::UnixStream(unix_stream::Error::Connect(_)),
                            ),
                            ConnectOutcome::RefuseTimeout => r matches Err(
                                Error::UnixStream(unix_stream::Error::SetStreamTimeout(_)),
                            ),
                        }
                    },
                    v => r matches Err(Error::StartContainer(docker::Error::SendRequest(e)))
                        && crate::http_extra::http_err_matches(e, v),
                }
            },
            ConnectOutcome::RefuseConnect => r matches Err(
                Error::UnixStream(unix_stream::Error::Connect(_)),
            ),
            ConnectOutcome::RefuseTimeout => r matches Err(
                Error::UnixStream(unix_stream::Error::SetStreamTimeout(_)),
            ),
        }
    }
}

/// Starts the created container and drives the attach phase, each on a
/// fresh connection; the attach connection's read timeout is the run's
/// execution deadline. The result is exactly what the script says, and
/// no connection of this part writes a remove request.
#[verifier::rlimit(100)]
#[verifier::spinoff_prover]
pub fn run_with_container<S: StreamSocket>(
    s: &mut S,
    stream_config: &unix_stream::Config,
    run_request: &RunRequest,
    container_id: &str,
) -> (r: Result<serde_json::Map<String, serde_json::Value>, Error>)
    requires
        old(s).current() is None,
    ensures
        final(s).current() is None,
        old(s).used().len() <= final(s).used().len(),
        old(s).used() == final(s).used().take(old(s).used().len() as int),
        forall|k: int|
            old(s).used().len() <= k < final(s).used().len() ==> !is_remove_write(
                #[trigger] final(s).used()[k].wrote,
            ),
        exists|k: int|
            0 <= k <= 2 && final(s).future() == #[trigger] old(s).future().skip(k) && k <= old(
                s,
            ).future().len(),
        run_with_container_matches(
            r,
            old(s).future(),
            run_request.limits.max_output_size as nat,
            run_request.limits.max_execution_time_ms,
        ),
        !(r matches Err(Error::CreateContainer(_))),
        plans_accepting(old(s).future()) && old(s).future().len() >= 2 ==> ({
            let new_records = final(s).used().skip(old(s).used().len() as int);
            let id = container_id.spec_bytes();
            match http_read(old(s).future()[0].serves, old(s).future()[0].blocks_after) {
                HttpView::Success { .. } => new_records.len() == 2 && new_records[0].wrote
                    == docker::start_request_wire(id) && new_records[0].read_timeout_ms
                    == stream_config.read_timeout_ms && new_records[1].read_timeout_ms
                    == run_request.limits.max_execution_time_ms && (match http_read(
                    old(s).future()[1].serves,
                    old(s).future()[1].blocks_after,
                ) {
                    HttpView::Success { .. } => new_records[1].wrote
                        == docker::attach_request_wire(id) + run_request.payload@,
                    _ => new_records[1].wrote == docker::attach_request_wire(id),
                }),
                _ => new_records.len() == 1 && new_records[0].wrote
                    == docker::start_request_wire(id) && new_records[0].read_timeout_ms
                    == stream_config.read_timeout_ms,
            }
        }),
        r is Ok ==> exists|t: (Seq<u8>, Seq<u8>, Seq<u8>)|
            #[trigger] is_json_object(t.1) && t.0.len() == 0 && t.2.len() == 0 && t.1.len()
                <= run_request.limits.max_output_size,
{
    proof {
        reveal(run_with_container_matches);
    }
    let ghost u0 = s.used();
    let ghost f0 = s.future();
    match s.connect(stream_config) {
        Ok(()) => {},
        Err(e) => {
            proof {
                if f0.len() == 0 {
                    assert(f0.skip(0) =~= f0);
                } else {
                    assert(s.used() =~= u0.push(
                        unix_stream::ConnRecord {
                            wrote: Seq::<u8>::empty(),
                            read_timeout_ms: stream_config.read_timeout_ms,
                        },
                    ));
                    assert(u0 =~= s.used().take(u0.len() as int));
                    lemma_not_remove(Seq::<u8>::empty());
                }
            }
            return Err(Error::UnixStream(e));
        },
    }
    let ghost u_start = s.used();
    let start_result = docker::start_container(s, container_id);
    let ghost start_wrote = s.current().unwrap().wrote;
    s.close();
    proof {
        lemma_method_bytes();
        assert(start_wrote.len() == 0 || start_wrote[0] == 80) by {
            if start_wrote.len() > 0 {
                reveal(crate::docker::start_request_wire);
                assert(start_wrote == docker::start_request_wire(container_id.spec_bytes()));
                assert(start_wrote[0] == lit_bytes("POST")[0]);
            }
        }
        lemma_not_remove(start_wrote);
        assert(s.used() =~= u0.push(
            unix_stream::ConnRecord {
                wrote: start_wrote,
                read_timeout_ms: stream_config.read_timeout_ms,
            },
        ));
        assert(u0 =~= s.used().take(u0.len() as int));
    }
    match start_result {
        Ok(()) => {},
        Err(e) => {
            proof {
                assert(s.future() =~= f0.skip(1));
            }
            return Err(Error::StartContainer(e));
        },
    }
    let run_config = stream_config.with_read_timeout(run_request.limits.max_execution_time_ms);
    let ghost u1 = s.used();
    match s.connect(&run_config) {
        Ok(()) => {},
        Err(e) => {
            proof {
                if s.future() == f0.skip(1) {
                    assert(f0.skip(1) =~= f0.skip(1));
                } else {
                    assert(f0.skip(1).drop_first() =~= f0.skip(2));
                }
                if s.used().len() > u1.len() {
                    assert(s.used() =~= u1.push(
                        unix_stream::ConnRecord {
                            wrote: Seq::<u8>::empty(),
                            read_timeout_ms: run_request.limits.max_execution_time_ms,
                        },
                    ));
                    lemma_not_remove(Seq::<u8>::empty());
                }
                assert(u0 =~= s.used().take(u0.len() as int));
            }
            return Err(Error::UnixStream(e));
        },
    }
    proof {
        assert(f0.skip(1).drop_first() =~= f0.skip(2));
    }
    let result = run_code(s, container_id, run_request);
    let ghost code_wrote = s.current().unwrap().wrote;
    s.close();
    proof {
        lemma_method_bytes();
        assert(code_wrote.len() == 0 || code_wrote[0] == 80) by {
            if code_wrote.len() > 0 {
                reveal(crate::docker::attach_request_wire);
                let wire = docker::attach_request_wire(container_id.spec_bytes());
                assert(wire[0] == lit_bytes("POST")[0]);
                assert(code_wrote[0] == wire[0]);
            }
        }
        lemma_not_remove(code_wrote);
        assert(s.used() =~= u1.push(
            unix_stream::ConnRecord {
                wrote: code_wrote,
                read_timeout_ms: run_request.limits.max_execution_time_ms,
            },
        ));
        assert(u0 =~= s.used().take(u0.len() as int));
        assert(s.future() =~= f0.skip(2));
    }
    result
}

/// Accepting scripts stay accepting when a prefix is consumed.
proof fn lemma_accepting_skip(ps: Seq<ConnPlan>, j: int)
    requires
        plans_accepting(ps),
        0 <= j <= ps.len(),
    ensures
        plans_accepting(ps.skip(j)),
{
    assert forall|i: int| 0 <= i < ps.skip(j).len() implies (#[trigger] ps.skip(j)[i].connect
        is Accept) && ps.skip(j)[i].accepts_writes by {
        assert(ps.skip(j)[i] == ps[j + i]);
        assert(ps[j + i].connect is Accept && ps[j + i].accepts_writes);
    }
}

/// What the create phase yields against the daemon script: the create
/// exchange on the first planned connection, its 2xx body decoded as the
/// created response.
#[verifier::opaque]
pub open spec fn create_phase_matches(
    r: Result<docker::ContainerCreatedResponse, Error>,
    future: Seq<ConnPlan>,
) -> bool {
    if future.len() == 0 {
        r matches Err(Error::UnixStream(unix_stream::Error::Connect(_)))
    } else {
        match future[0].connect {
            ConnectOutcome::Accept => if !future[0].accepts_writes {
                r matches Err(
                    Error::CreateContainer(
                        docker::Error::SendRequest(crate::http_extra::Error::WriteRequest(_)),
                    ),
                )
            } else {
                match http_read(future[0].serves, future[0].blocks_after) {
                    HttpView::Success { body, .. } => match created_view(body) {
                        Some(v) => r matches Ok(c) && c.id@ == v.0 && c.warnings@.map_values(
                            |w: String| w@,
                        ) == v.1,
                        None => r matches Err(
                            Error::CreateContainer(
                                docker::Error::SendRequest(
                                    crate::http_extra::Error::DeserializeBody(_),
                                ),
                            ),
                        ),
                    },
                    v => r matches Err(Error::CreateContainer(docker::Error::SendRequest(e)))
                        && crate::http_extra::http_err_matches(e, v),
                }
            },
            ConnectOutcome::RefuseConnect => r matches Err(
                Error::UnixStream(unix_stream::Error::Connect(_)),
            ),
            ConnectOutcome::RefuseTimeout => r matches Err(
                Error::UnixStream(unix_stream::Error::SetStreamTimeout(_)),
            ),
        }
    }
}

/// The create phase: one fresh connection, one create call, close.
fn create_phase<S: StreamSocket>(
    s: &mut S,
    stream_config: &unix_stream::Config,
    config: &docker::ContainerConfig,
) -> (r: Result<docker::ContainerCreatedResponse, Error>)
    requires
        old(s).current() is None,
    ensures
        final(s).current() is None,
        old(s).used().len() <= final(s).used().len(),
        old(s).used() == final(s).used().take(old(s).used().len() as int),
        count_removes(final(s).used().skip(old(s).used().len() as int)) == 0,
        final(s).used().len() <= old(s).used().len() + 1,
        exists|k: int|
            0 <= k <= 1 && final(s).future() == #[trigger] old(s).future().skip(k) && k <= old(
                s,
            ).future().len(),
        r is Ok ==> final(s).future() == old(s).future().skip(1),
        r matches Err(e) ==> (e is UnixStream || e is CreateContainer),
        create_phase_matches(r, old(s).future()),
        ({
            let f = old(s).future();
            if f.len() > 0 && f[0].connect is Accept && f[0].accepts_writes {
                match http_read(f[0].serves, f[0].blocks_after) {
                    HttpView::Success { body, .. } => match created_view(body) {
                        Some(v) => r matches Ok(c) && c.id@ == v.0,
                        None => r is Err,
                    },
                    _ => r is Err,
                }
            } else {
                r is Err
            }
        }),
        old(s).future().len() > 0 && old(s).future()[0].connect is Accept ==> final(s).used()
            == old(s).used().push(
            ConnRecord {
                wrote: if old(s).future()[0].accepts_writes {
                    docker::create_request_wire(*config)
                } else {
                    Seq::<u8>::empty()
                },
                read_timeout_ms: stream_config.read_timeout_ms,
            },
        ),
{
    proof {
        reveal(create_phase_matches);
    }
    let ghost u0 = s.used();
    let ghost f0 = s.future();
    match s.connect(stream_config) {
        Ok(()) => {},
        Err(e) => {
            proof {
                let fresh = s.used().skip(u0.len() as int);
                if f0.len() == 0 {
                    assert(fresh =~= Seq::<ConnRecord>::empty());
                    assert(f0.skip(0) =~= f0);
                } else {
                    assert(s.used() =~= u0.push(
                        unix_stream::ConnRecord {
                            wrote: Seq::<u8>::empty(),
                            read_timeout_ms: stream_config.read_timeout_ms,
                        },
                    ));
                    assert(fresh =~= seq![
                        unix_stream::ConnRecord {
                            wrote: Seq::<u8>::empty(),
                            read_timeout_ms: stream_config.read_timeout_ms,
                        },
                    ]);
                    lemma_not_remove(Seq::<u8>::empty());
                    lemma_count_removes_push(Seq::<ConnRecord>::empty(), fresh[0]);
                    assert(Seq::<ConnRecord>::empty().push(fresh[0]) =~= fresh);
                    assert(f0.drop_first() =~= f0.skip(1));
                }
                assert(u0 =~= s.used().take(u0.len() as int));
            }
            return Err(Error::UnixStream(e));
        },
    }
    let create_result = docker::create_container(s, config);
    let ghost create_wrote = s.current().unwrap().wrote;
    s.close();
    proof {
        lemma_method_bytes();
        assert(create_wrote.len() == 0 || create_wrote[0] == 80) by {
            if create_wrote.len() > 0 {
                reveal(crate::docker::create_request_wire);
                assert(create_wrote == docker::create_request_wire(*config));
                assert(create_wrote[0] == lit_bytes("POST")[0]);
            }
        }
        lemma_not_remove(create_wrote);
        assert(s.used() =~= u0.push(
            unix_stream::ConnRecord {
                wrote: create_wrote,
                read_timeout_ms: stream_config.read_timeout_ms,
            },
        ));
        assert(u0 =~= s.used().take(u0.len() as int));
        let fresh = s.used().skip(u0.len() as int);
        assert(fresh =~= seq![
            unix_stream::ConnRecord {
                wrote: create_wrote,
                read_timeout_ms: stream_config.read_timeout_ms,
            },
        ]);
        lemma_count_removes_push(Seq::<ConnRecord>::empty(), fresh[0]);
        assert(Seq::<ConnRecord>::empty().push(fresh[0]) =~= fresh);
        assert(f0.drop_first() =~= f0.skip(1));
    }
    match create_result {
        Ok(c) => Ok(c),
        Err(e) => Err(Error::CreateContainer(e)),
    }
}

/// The cleanup phase: one fresh connection and one remove call, whose
/// failure is swallowed. Skipped entirely when the container is kept.
fn remove_phase<S: StreamSocket>(
    s: &mut S,
    stream_config: &unix_stream::Config,
    container_id: &str,
    keep_container: bool,
)
    requires
        old(s).current() is None,
    ensures
        final(s).current() is None,
        old(s).used().len() <= final(s).used().len(),
        old(s).used() == final(s).used().take(old(s).used().len() as int),
        count_removes(final(s).used().skip(old(s).used().len() as int)) <= 1,
        keep_container ==> final(s).used() == old(s).used(),
        !keep_container && old(s).future().len() >= 1 && old(s).future()[0].connect is Accept
            && old(s).future()[0].accepts_writes ==> final(s).used() == old(s).used().push(
            ConnRecord {
                wrote: remove_request_wire(container_id.spec_bytes()),
                read_timeout_ms: stream_config.read_timeout_ms,
            },
        ),
        !keep_container && plans_accepting(old(s).future()) && old(s).future().len() >= 1
            ==> count_removes(final(s).used().skip(old(s).used().len() as int)) == 1,
{
    let ghost u0 = s.used();
    let ghost f0 = s.future();
    if keep_container {
        proof {
            assert(u0 =~= s.used().take(u0.len() as int));
            assert(s.used().skip(u0.len() as int) =~= Seq::<ConnRecord>::empty());
        }
        return ;
    }
    match s.connect(stream_config) {
        Ok(()) => {},
        Err(_) => {
            proof {
                let fresh = s.used().skip(u0.len() as int);
                if f0.len() == 0 {
                    assert(fresh =~= Seq::<ConnRecord>::empty());
                } else {
                    assert(s.used() =~= u0.push(
                        unix_stream::ConnRecord {
                            wrote: Seq::<u8>::empty(),
                            read_timeout_ms: stream_config.read_timeout_ms,
                        },
                    ));
                    assert(fresh =~= seq![
                        unix_stream::ConnRecord {
                            wrote: Seq::<u8>::empty(),
                            read_timeout_ms: stream_config.read_timeout_ms,
                        },
                    ]);
                    lemma_not_remove(Seq::<u8>::empty());
                    lemma_count_removes_push(Seq::<ConnRecord>::empty(), fresh[0]);
                    assert(Seq::<ConnRecord>::empty().push(fresh[0]) =~= fresh);
                }
                assert(u0 =~= s.used().take(u0.len() as int));
            }
            return ;
        },
    }
    let _ = docker::remove_container(s, container_id);
    let ghost remove_wrote = s.current().unwrap().wrote;
    s.close();
    proof {
        assert(s.used() =~= u0.push(
            unix_stream::ConnRecord {
                wrote: remove_wrote,
                read_timeout_ms: stream_config.read_timeout_ms,
            },
        ));
        assert(u0 =~= s.used().take(u0.len() as int));
        let fresh = s.used().skip(u0.len() as int);
        assert(fresh =~= seq![
            unix_stream::ConnRecord {
                wrote: remove_wrote,
                read_timeout_ms: stream_config.read_timeout_ms,
            },
        ]);
        lemma_count_removes_push(Seq::<ConnRecord>::empty(), fresh[0]);
        assert(Seq::<ConnRecord>::empty().push(fresh[0]) =~= fresh);
        if plans_accepting(f0) && f0.len() >= 1 {
            assert(f0[0].connect is Accept && f0[0].accepts_writes);
            assert(remove_wrote =~= Seq::<u8>::empty() + docker::remove_request_wire(
                container_id.spec_bytes(),
            ));
            assert(remove_wrote =~= docker::remove_request_wire(container_id.spec_bytes()));
            lemma_remove_wire_is_remove(container_id.spec_bytes());
        } else {
            lemma_method_bytes();
            if !is_remove_write(remove_wrote) {
            }
        }
    }
}

/// What one full run yields against the daemon script: the create
/// exchange on the first planned connection, then the started run on the
/// following connections. The cleanup phase never changes the result: a
/// remove failure is swallowed, so the outcome is decided before it.
#[verifier::opaque]
pub open spec fn run_matches(
    r: Result<serde_json::Map<String, serde_json::Value>, Error>,
    future: Seq<ConnPlan>,
    max: nat,
    attach_timeout_ms: u64,
) -> bool {
    if future.len() == 0 {
        r matches Err(Error::UnixStream(unix_stream::Error::Connect(_)))
    } else {
        match future[0].connect {
            ConnectOutcome::Accept => if !future[0].accepts_writes {
                r matches Err(
                    Error::CreateContainer(
                        docker::Error::SendRequest(crate::http_extra::Error::WriteRequest(_)),
                    ),
                )
            } else {
                match http_read(future[0].serves, future[0].blocks_after) {
                    HttpView::Success { body, .. } => match created_view(body) {
                        Some(_) => run_with_container_matches(
                            r,
                            future.skip(1),
                            max,
                            attach_timeout_ms,
                        ),
                        None => r matches Err(
                            Error::CreateContainer(
                                docker::Error::SendRequest(
                                    crate::http_extra::Error::DeserializeBody(_),
                                ),
                            ),
                        ),
                    },
                    v => r matches Err(Error::CreateContainer(docker::Error::SendRequest(e)))
                        && crate::http_extra::http_err_matches(e, v),
                }
            },
            ConnectOutcome::RefuseConnect => r matches Err(
                Error::UnixStream(unix_stream::Error::Connect(_)),
            ),
            ConnectOutcome::RefuseTimeout => r matches Err(
                Error::UnixStream(unix_stream::Error::SetStreamTimeout(_)),
            ),
        }
    }
}

/// The records the create and run phases leave under an accepting
/// script: the create request, the start request, and (when the start
/// exchange succeeded) the attach request with the payload, each on a
/// connection opened with the right read timeout — the attach connection
/// under the execution deadline, the others under the configured one.
#[verifier::opaque]
pub open spec fn phase_records_pinned(
    fresh: Seq<ConnRecord>,
    config: docker::ContainerConfig,
    payload: Seq<u8>,
    id: Seq<u8>,
    stream_rt: u64,
    exec_rt: u64,
) -> bool {
    &&& (fresh.len() == 2 || fresh.len() == 3)
    &&& fresh[0].wrote == docker::create_request_wire(config)
    &&& fresh[0].read_timeout_ms == stream_rt
    &&& fresh[1].wrote == docker::start_request_wire(id)
    &&& fresh[1].read_timeout_ms == stream_rt
    &&& (fresh.len() == 3 ==> (fresh[2].wrote == docker::attach_request_wire(id) + payload
        || fresh[2].wrote == docker::attach_request_wire(id)))
    &&& (fresh.len() == 3 ==> fresh[2].read_timeout_ms == exec_rt)
}

proof fn lemma_pin_phase_records(
    u0: Seq<ConnRecord>,
    u1: Seq<ConnRecord>,
    u2: Seq<ConnRecord>,
    config: docker::ContainerConfig,
    payload: Seq<u8>,
    id: Seq<u8>,
    stream_rt: u64,
    exec_rt: u64,
)
    requires
        u1 == u0.push(
            ConnRecord {
                wrote: docker::create_request_wire(config),
                read_timeout_ms: stream_rt,
            },
        ),
        u1.len() <= u2.len(),
        u1 == u2.take(u1.len() as int),
        ({
            let new2 = u2.skip(u1.len() as int);
            &&& (new2.len() == 1 || new2.len() == 2)
            &&& new2[0].wrote == docker::start_request_wire(id)
            &&& new2[0].read_timeout_ms == stream_rt
            &&& (new2.len() == 2 ==> (new2[1].wrote == docker::attach_request_wire(id) + payload
                || new2[1].wrote == docker::attach_request_wire(id)))
            &&& (new2.len() == 2 ==> new2[1].read_timeout_ms == exec_rt)
        }),
    ensures
        phase_records_pinned(u2.skip(u0.len() as int), config, payload, id, stream_rt, exec_rt),
{
    reveal(phase_records_pinned);
    let fresh = u2.skip(u0.len() as int);
    let new2 = u2.skip(u1.len() as int);
    assert(fresh.len() == 1 + new2.len());
    assert forall|j: int| 0 <= j < fresh.len() implies fresh[j] == (seq![u1.last()] + new2)[j] by {
        if j == 0 {
            assert(u1[u0.len() as int] == u2.take(u1.len() as int)[u0.len() as int]);
            assert(u1.last() == u1[u0.len() as int]);
        }
    }
    assert(fresh =~= seq![u1.last()] + new2);
    assert(fresh[0] == u1.last());
    assert(fresh[1] == new2[0]);
    if new2.len() == 2 {
        assert(fresh[2] == new2[1]);
    }
}

/// One run's outcome is the create outcome followed, on success, by the
/// started run's outcome.
proof fn lemma_run_matches_compose(
    cr: Result<docker::ContainerCreatedResponse, Error>,
    r: Result<serde_json::Map<String, serde_json::Value>, Error>,
    future: Seq<ConnPlan>,
    max: nat,
    attach_timeout_ms: u64,
)
    requires
        create_phase_matches(cr, future),
        (match (cr, r) {
            (Result::Ok(_), _) => run_with_container_matches(
                r,
                future.skip(1),
                max,
                attach_timeout_ms,
            ),
            (Result::Err(e1), Result::Err(e2)) => e1 == e2,
            _ => false,
        }),
    ensures
        run_matches(r, future, max, attach_timeout_ms),
{
    reveal(run_matches);
    reveal(create_phase_matches);
    reveal(run_with_container_matches);
}

/// Creates the container and runs it: everything of one run except the
/// terminating remove. Returns the run outcome and, when a container was
/// created, its id.
#[verifier::rlimit(100)]
#[verifier::spinoff_prover]
fn run_phases<S: StreamSocket>(
    s: &mut S,
    stream_config: &unix_stream::Config,
    run_request: &RunRequest,
) -> (r: (Result<serde_json::Map<String, serde_json::Value>, Error>, Option<String>))
    requires
        old(s).current() is None,
    ensures
        final(s).current() is None,
        old(s).used().len() <= final(s).used().len(),
        old(s).used() == final(s).used().take(old(s).used().len() as int),
        forall|k: int|
            old(s).used().len() <= k < final(s).used().len() ==> !is_remove_write(
                #[trigger] final(s).used()[k].wrote,
            ),
        run_matches(
            r.0,
            old(s).future(),
            run_request.limits.max_output_size as nat,
            run_request.limits.max_execution_time_ms,
        ),
        ({
            let f = old(s).future();
            if f.len() > 0 && f[0].connect is Accept && f[0].accepts_writes {
                match http_read(f[0].serves, f[0].blocks_after) {
                    HttpView::Success { body, .. } => match created_view(body) {
                        Some(v) => r.1 matches Some(id) && id@ == v.0,
                        None => r.1 is None,
                    },
                    _ => r.1 is None,
                }
            } else {
                r.1 is None
            }
        }),
        r.1 is Some ==> exists|k: int|
            1 <= k <= 3 && final(s).future() == #[trigger] old(s).future().skip(k) && k <= old(
                s,
            ).future().len(),
        r.1 is None ==> final(s).used().len() <= old(s).used().len() + 1,
        r.1 is Some ==> !(r.0 matches Err(Error::CreateContainer(_))),
        r.1 is None ==> (r.0 matches Err(e) && (e is UnixStream || e is CreateContainer)),
        plans_accepting(old(s).future()) && old(s).future().len() >= 3 && r.1 is Some
            ==> phase_records_pinned(
            final(s).used().skip(old(s).used().len() as int),
            run_request.container_config,
            run_request.payload@,
            vstd::utf8::encode_utf8(r.1.unwrap()@),
            stream_config.read_timeout_ms,
            run_request.limits.max_execution_time_ms,
        ),
        r.0 is Ok ==> exists|t: (Seq<u8>, Seq<u8>, Seq<u8>)|
            #[trigger] is_json_object(t.1) && t.0.len() == 0 && t.2.len() == 0 && t.1.len()
                <= run_request.limits.max_output_size,
{
    let ghost u0 = s.used();
    let ghost f0 = s.future();
    let created = match create_phase(s, stream_config, &run_request.container_config) {
        Ok(c) => c,
        Err(e) => {
            proof {
                lemma_count_removes_zero(s.used().skip(u0.len() as int));
                lemma_run_matches_compose(
                    Err(e),
                    Err(e),
                    f0,
                    run_request.limits.max_output_size as nat,
                    run_request.limits.max_execution_time_ms,
                );
            }
            return (Err(e), None);
        },
    };
    let ghost u1 = s.used();
    let ghost f1 = s.future();
    let result = run_with_container(s, stream_config, run_request, created.id.as_str());
    proof {
        let fresh = s.used().skip(u0.len() as int);
        let seg1 = u1.skip(u0.len() as int);
        let seg2 = s.used().skip(u1.len() as int);
        assert(u1 =~= s.used().take(u1.len() as int));
        assert(fresh =~= seg1 + seg2);
        lemma_count_removes_zero(seg1);
        assert(forall|j: int| 0 <= j < seg1.len() ==> fresh[j] == seg1[j]);
        assert(forall|j: int| 0 <= j < seg2.len() ==> fresh[seg1.len() + j] == seg2[j]);
        if plans_accepting(f0) && f0.len() >= 3 {
            lemma_accepting_skip(f0, 1);
            assert(seg1.len() == 1);
            lemma_pin_phase_records(
                u0,
                u1,
                s.used(),
                run_request.container_config,
                run_request.payload@,
                vstd::utf8::encode_utf8(created.id@),
                stream_config.read_timeout_ms,
                run_request.limits.max_execution_time_ms,
            );
        }
        let kk = choose|k: int| 0 <= k <= 2 && s.future() == #[trigger] f1.skip(k) && k <= f1.len();
        assert(s.future() =~= f0.skip(1 + kk));
        lemma_run_matches_compose(
            Ok(docker::ContainerCreatedResponse { id: created.id, warnings: created.warnings }),
            result,
            f0,
            run_request.limits.max_output_size as nat,
            run_request.limits.max_execution_time_ms,
        );
    }
    (result, Some(created.id))
}

/// Drives one full run: create the container, run it, and in every case
/// that created a container attempt exactly one remove, whose failure is
/// never surfaced. The result is exactly what the script says, through
/// [`run_matches`]; when the debug switch keeps the container, no remove
/// is attempted.
#[verifier::rlimit(100)]
pub fn run<S: StreamSocket>(
    s: &mut S,
    stream_config: &unix_stream::Config,
    run_request: RunRequest,
    debug: &crate::debug::Config,
) -> (r: Result<serde_json::Map<String, serde_json::Value>, Error>)
    requires
        old(s).current() is None,
    ensures
        final(s).current() is None,
        old(s).used().len() <= final(s).used().len(),
        old(s).used() == final(s).used().take(old(s).used().len() as int),
        run_matches(
            r,
            old(s).future(),
            run_request.limits.max_output_size as nat,
            run_request.limits.max_execution_time_ms,
        ),
        ({
            let fresh = final(s).used().skip(old(s).used().len() as int);
            &&& count_removes(fresh) <= 1
            &&& (debug.keep_container ==> count_removes(fresh) == 0)
            &&& (r matches Err(Error::CreateContainer(_)) ==> count_removes(fresh) == 0)
            &&& ((r is Ok || after_create_error(r)) && !debug.keep_container && plans_accepting(
                old(s).future(),
            ) && old(s).future().len() >= 4 ==> count_removes(fresh) == 1)
        }),
        ((r is Ok || after_create_error(r)) && !debug.keep_container && plans_accepting(
            old(s).future(),
        ) && old(s).future().len() >= 4) ==> ({
            let f = old(s).future();
            let fresh = final(s).used().skip(old(s).used().len() as int);
            match http_read(f[0].serves, f[0].blocks_after) {
                HttpView::Success { body, .. } => match created_view(body) {
                    Some(v) => ({
                        let id = vstd::utf8::encode_utf8(v.0);
                        &&& (fresh.len() == 3 || fresh.len() == 4)
                        &&& fresh[0].wrote == docker::create_request_wire(
                            run_request.container_config,
                        )
                        &&& fresh[0].read_timeout_ms == stream_config.read_timeout_ms
                        &&& fresh[1].wrote == docker::start_request_wire(id)
                        &&& fresh[1].read_timeout_ms == stream_config.read_timeout_ms
                        &&& fresh.last().wrote == remove_request_wire(id)
                        &&& fresh.last().read_timeout_ms == stream_config.read_timeout_ms
                        &&& (fresh.len() == 4 ==> (fresh[2].wrote == docker::attach_request_wire(
                            id,
                        ) + run_request.payload@ || fresh[2].wrote == docker::attach_request_wire(
                            id,
                        )))
                        &&& (fresh.len() == 4 ==> fresh[2].read_timeout_ms
                            == run_request.limits.max_execution_time_ms)
                    }),
                    None => true,
                },
                _ => true,
            }
        }),
        r is Ok ==> exists|t: (Seq<u8>, Seq<u8>, Seq<u8>)|
            #[trigger] is_json_object(t.1) && t.0.len() == 0 && t.2.len() == 0 && t.1.len()
                <= run_request.limits.max_output_size,
{
    let ghost u0 = s.used();
    let ghost f0 = s.future();
    let (result, created_id) = run_phases(s, stream_config, &run_request);
    let ghost u2 = s.used();
    let ghost f2 = s.future();
    let id = match created_id {
        Some(id) => id,
        None => {
            proof {
                let fresh = s.used().skip(u0.len() as int);
                if fresh.len() == 0 {
                    assert(count_removes(fresh) == 0);
                } else {
                    assert(fresh.len() == 1);
                    lemma_count_removes_push(Seq::<ConnRecord>::empty(), fresh[0]);
                    assert(Seq::<ConnRecord>::empty().push(fresh[0]) =~= fresh);
                }
            }
            return result;
        },
    };
    remove_phase(s, stream_config, id.as_str(), debug.keep_container);
    proof {
        let u3 = s.used();
        let fresh = u3.skip(u0.len() as int);
        let seg12 = u2.skip(u0.len() as int);
        let seg3 = u3.skip(u2.len() as int);
        assert(fresh =~= seg12 + seg3);
        lemma_count_removes_concat(seg12, seg3);
        lemma_count_removes_all_clear(seg12);
        assert(count_removes(seg3) <= 1);
        assert(u0 =~= u3.take(u0.len() as int));
        if debug.keep_container {
            assert(seg3 =~= Seq::<ConnRecord>::empty());
        }
        if (result is Ok || after_create_error(result)) && !debug.keep_container
            && plans_accepting(f0) && f0.len() >= 4 {
            reveal(phase_records_pinned);
            let kk = choose|k: int|
                1 <= k <= 3 && f2 == #[trigger] f0.skip(k) && k <= f0.len();
            lemma_accepting_skip(f0, kk);
            assert(f2.len() >= 1);
            assert(f2[0].connect is Accept && f2[0].accepts_writes);
            assert(u3 =~= u2.push(
                ConnRecord {
                    wrote: remove_request_wire(vstd::utf8::encode_utf8(id@)),
                    read_timeout_ms: stream_config.read_timeout_ms,
                },
            ));
            assert(seg3 =~= seq![
                ConnRecord {
                    wrote: remove_request_wire(vstd::utf8::encode_utf8(id@)),
                    read_timeout_ms: stream_config.read_timeout_ms,
                },
            ]);
            assert(seg3.len() == 1);
            assert(is_remove_write(seg3[0].wrote)) by {
                lemma_remove_wire_is_remove(vstd::utf8::encode_utf8(id@));
            }
            lemma_count_removes_push(Seq::<ConnRecord>::empty(), seg3[0]);
            assert(Seq::<ConnRecord>::empty().push(seg3[0]) =~= seg3);
            assert(count_removes(seg3) == 1);
            assert(forall|j: int| 0 <= j < seg12.len() ==> fresh[j] == seg12[j]);
            assert(fresh.last() == seg3[0]);
            assert(f0[0].connect is Accept && f0[0].accepts_writes);
            match http_read(f0[0].serves, f0[0].blocks_after) {
                HttpView::Success { body, .. } => match created_view(body) {
                    Some(v) => {
                        assert(id@ == v.0);
                        assert(phase_records_pinned(
                            seg12,
                            run_request.container_config,
                            run_request.payload@,
                            vstd::utf8::encode_utf8(id@),
                            stream_config.read_timeout_ms,
                            run_request.limits.max_execution_time_ms,
                        ));
                        assert(seg12.len() == 2 || seg12.len() == 3);
                        assert(fresh.len() == seg12.len() + 1);
                    },
                    None => {
                        assert(false);
                    },
                },
                _ => {
                    assert(false);
                },
            }
        }
    }
    result
}

impl Error {
    /// A human-readable description of the failure.
    pub open spec fn message_spec(&self) -> Seq<char> {
        match self {
            Error::UnixStream(e) => "Unix socket failure: "@ + e.message_spec(),
            Error::CreateContainer(e) => "Failed to create container: "@ + e.message_spec(),
            Error::StartContainer(e) => "Failed to start container: "@ + e.message_spec(),
            Error::AttachContainer(e) => "Failed to attach to container: "@ + e.message_spec(),
            Error::SerializePayload(f) => "Failed to send payload to stream: "@ + f.message@,
            Error::ReadStream(e) => "Failed while reading stream: "@ + e.message_spec(),
            Error::StreamStdinUnexpected(b) => "Code runner returned unexpected stdin data: "@
                + crate::http_extra::utf8_text_or_empty(b@),
            Error::StreamStderr(b) => "Code runner failed with the following message: "@
                + crate::http_extra::utf8_text_or_empty(b@),
            Error::StreamStdoutDecode(j) => "Failed to decode json returned from code runner: "@
                + j.message@,
        }
    }

    /// Describes the failure.
    pub fn message(&self) -> (r: String)
        ensures
            r@ == self.message_spec(),
    {
        match self {
            Error::UnixStream(e) => {
                let mut m = <String as vstd::string::StringExecFns>::from_str(
                    "Unix socket failure: ",
                );
                let detail = e.message();
                m.append(detail.as_str());
                m
            },
            Error::CreateContainer(e) => {
                let mut m = <String as vstd::string::StringExecFns>::from_str(
                    "Failed to create container: ",
                );
                let detail = e.message();
                m.append(detail.as_str());
                m
            },
            Error::StartContainer(e) => {
                let mut m = <String as vstd::string::StringExecFns>::from_str(
                    "Failed to start container: ",
                );
                let detail = e.message();
                m.append(detail.as_str());
                m
            },
            Error::AttachContainer(e) => {
                let mut m = <String as vstd::string::StringExecFns>::from_str(
                    "Failed to attach to container: ",
                );
                let detail = e.message();
                m.append(detail.as_str());
                m
            },
            Error::SerializePayload(f) => {
                let mut m = <String as vstd::string::StringExecFns>::from_str(
                    "Failed to send payload to stream: ",
                );
                m.append(f.message.as_str());
                m
            },
            Error::ReadStream(e) => {
                let mut m = <String as vstd::string::StringExecFns>::from_str(
                    "Failed while reading stream: ",
                );
                let detail = e.message();
                m.append(detail.as_str());
                m
            },
            Error::StreamStdinUnexpected(b) => {
                let mut m = <String as vstd::string::StringExecFns>::from_str(
                    "Code runner returned unexpected stdin data: ",
                );
                let text = crate::http_extra::bytes_text(b.as_slice());
                m.append(text.as_str());
                m
            },
            Error::StreamStderr(b) => {
                let mut m = <String as vstd::string::StringExecFns>::from_str(
                    "Code runner failed with the following message: ",
                );
                let text = crate::http_extra::bytes_text(b.as_slice());
                m.append(text.as_str());
                m
            },
            Error::StreamStdoutDecode(j) => {
                let mut m = <String as vstd::string::StringExecFns>::from_str(
                    "Failed to decode json returned from code runner: ",
                );
                m.append(j.message.as_str());
                m
            },
        }
    }
}

} // verus!
