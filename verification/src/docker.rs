//! The Docker Engine API layer: the attach-stream demultiplexer, the wire
//! structs for container creation, and the five requests the engine issues.
//!
//! The attach stream is a sequence of framed records: one byte of channel
//! id (0 = stdin, 1 = stdout, 2 = stderr), three reserved zero bytes, a
//! big-endian 32-bit payload length, then the payload. [`read_stream`]
//! decodes it under an output-size cap, and [`demux`] is its mathematical
//! model.

use vstd::prelude::*;

use crate::be32;
use crate::read_be32;
use crate::json_text::{
    append_bytes, json_bool, json_string, json_string_array, lit_bytes, write_json_bool,
    write_json_i64, write_json_string, write_json_string_array, write_lit,
};
use crate::http_extra::{
    Body, HttpView, JsonFailure, Method, Request, headers_join, http_err_matches, http_read,
    method_bytes, send_request,
};
use crate::numeric::{dec_bytes, dec_bytes_i64};
use crate::unix_stream::{IoFailure, IoKind, StreamSocket};
use vstd::string::StringSliceAdditionalSpecFns;

verus! {

/// Failure while decoding the attach stream.
#[derive(Debug)]
pub enum StreamError {
    /// A payload read failed, or ended before the frame was complete.
    Read(IoFailure),
    /// The 4-byte channel prefix could not be read in full.
    ReadStreamType(IoFailure),
    /// The channel id was not 0, 1 or 2.
    UnknownStreamType(u8),
    /// The 4-byte length could not be read in full.
    ReadStreamLength(IoFailure),
    /// The frame length did not fit the host's `usize`.
    InvalidStreamLength,
    /// A read would have blocked: execution exceeded its deadline.
    MaxExecutionTime,
    /// The accumulated output exceeded the cap (carried here).
    MaxReadSize(usize),
}

/// The three per-channel output buffers accumulated from the attach mux.
#[derive(Debug)]
pub struct StreamOutput {
    pub stdin: Vec<u8>,
    pub stdout: Vec<u8>,
    pub stderr: Vec<u8>,
}

/// Outcome of demultiplexing, in the model.
pub ghost enum DemuxOutcome {
    /// Clean end of stream at a frame boundary: the three accumulators.
    Done { stdin: Seq<u8>, stdout: Seq<u8>, stderr: Seq<u8> },
    /// A read would have blocked: the execution deadline elapsed.
    FailTimeout,
    /// End of stream inside the 4-byte channel prefix.
    FailReadType,
    /// A channel id outside 0, 1, 2 (carried here).
    FailUnknownType(u8),
    /// End of stream inside the 4-byte length.
    FailReadLength,
    /// End of stream inside a payload.
    FailPayloadEof,
    /// The output cap (carried here) was exceeded.
    FailCap(nat),
}

/// One step of the demultiplexer model: `serves` is what the daemon still
/// serves, `blocks` whether it blocks after that, `max` the output cap,
/// the three sequences the accumulators so far, and `read_size` the total
/// payload bytes read so far.
pub open spec fn demux_step(
    serves: Seq<u8>,
    blocks: bool,
    max: nat,
    sin: Seq<u8>,
    sout: Seq<u8>,
    serr: Seq<u8>,
    read_size: nat,
) -> DemuxOutcome
    decreases serves.len(),
{
    if serves.len() == 0 {
        if blocks {
            DemuxOutcome::FailTimeout
        } else {
            DemuxOutcome::Done { stdin: sin, stdout: sout, stderr: serr }
        }
    } else if serves.len() < 4 {
        if blocks {
            DemuxOutcome::FailTimeout
        } else {
            DemuxOutcome::FailReadType
        }
    } else if serves[0] > 2 {
        DemuxOutcome::FailUnknownType(serves[0])
    } else if serves.len() < 8 {
        if blocks {
            DemuxOutcome::FailTimeout
        } else {
            DemuxOutcome::FailReadLength
        }
    } else {
        let len = be32(serves[4], serves[5], serves[6], serves[7]);
        if serves.len() < 8 + len {
            if blocks {
                DemuxOutcome::FailTimeout
            } else {
                DemuxOutcome::FailPayloadEof
            }
        } else {
            let payload = serves.subrange(8, 8 + len as int);
            let rest = serves.skip(8 + len as int);
            let sin2 = if serves[0] == 0 {
                sin + payload
            } else {
                sin
            };
            let sout2 = if serves[0] == 1 {
                sout + payload
            } else {
                sout
            };
            let serr2 = if serves[0] == 2 {
                serr + payload
            } else {
                serr
            };
            if read_size + len > max {
                DemuxOutcome::FailCap(max)
            } else {
                demux_step(rest, blocks, max, sin2, sout2, serr2, read_size + len)
            }
        }
    }
}

/// The demultiplexer model from an empty start.
pub open spec fn demux(serves: Seq<u8>, blocks: bool, max: nat) -> DemuxOutcome {
    demux_step(
        serves,
        blocks,
        max,
        Seq::<u8>::empty(),
        Seq::<u8>::empty(),
        Seq::<u8>::empty(),
        0,
    )
}

/// How an executable result corresponds to a model outcome.
pub open spec fn stream_result_matches(
    r: Result<StreamOutput, StreamError>,
    m: DemuxOutcome,
) -> bool {
    match m {
        DemuxOutcome::Done { stdin, stdout, stderr } => r matches Ok(out) && out.stdin@ == stdin
            && out.stdout@ == stdout && out.stderr@ == stderr,
        DemuxOutcome::FailTimeout => r matches Err(StreamError::MaxExecutionTime),
        DemuxOutcome::FailReadType => r matches Err(StreamError::ReadStreamType(f)) && f.kind
            == IoKind::UnexpectedEof,
        DemuxOutcome::FailUnknownType(b) => r matches Err(StreamError::UnknownStreamType(b2))
            && b2 == b,
        DemuxOutcome::FailReadLength => r matches Err(StreamError::ReadStreamLength(f)) && f.kind
            == IoKind::UnexpectedEof,
        DemuxOutcome::FailPayloadEof => r matches Err(StreamError::Read(f)) && f.kind
            == IoKind::UnexpectedEof,
        DemuxOutcome::FailCap(m2) => r matches Err(StreamError::MaxReadSize(mx)) && mx as nat
            == m2,
    }
}

/// One frame of the attach mux, in the model: a channel id and a payload.
pub ghost struct Frame {
    pub channel: u8,
    pub payload: Seq<u8>,
}

/// A frame the daemon could emit: a known channel and a length that fits
/// the 32-bit length field.
pub open spec fn frame_wf(f: Frame) -> bool {
    f.channel <= 2 && f.payload.len() <= 0xFFFFFFFF
}

/// All frames well-formed.
pub open spec fn frames_wf(fs: Seq<Frame>) -> bool {
    forall|i: int| 0 <= i < fs.len() ==> frame_wf(#[trigger] fs[i])
}

/// The four big-endian bytes of a 32-bit value.
pub open spec fn be32_bytes(n: nat) -> Seq<u8> {
    seq![
        ((n / 0x1000000) % 0x100) as u8,
        ((n / 0x10000) % 0x100) as u8,
        ((n / 0x100) % 0x100) as u8,
        (n % 0x100) as u8,
    ]
}

proof fn lemma_be32_decompose_u32(n: u32)
    ensures
        (n / 0x1000000) % 0x100 * 0x1000000 + (n / 0x10000) % 0x100 * 0x10000 + (n / 0x100)
            % 0x100 * 0x100 + n % 0x100 == n,
{
    assert((n / 0x1000000) % 0x100 * 0x1000000 + (n / 0x10000) % 0x100 * 0x10000 + (n / 0x100)
        % 0x100 * 0x100 + n % 0x100 == n) by (bit_vector);
}

/// Reading back the four big-endian bytes of `n` gives `n`.
pub proof fn lemma_be32_roundtrip(n: nat)
    requires
        n <= 0xFFFFFFFF,
    ensures
        be32(be32_bytes(n)[0], be32_bytes(n)[1], be32_bytes(n)[2], be32_bytes(n)[3]) == n,
{
    lemma_be32_decompose_u32(n as u32);
}

/// The on-wire encoding of one frame: channel id, three zero bytes,
/// big-endian length, payload.
pub open spec fn encode_frame(f: Frame) -> Seq<u8> {
    seq![f.channel, 0u8, 0u8, 0u8] + be32_bytes(f.payload.len()) + f.payload
}

/// The on-wire encoding of a sequence of frames.
pub open spec fn encode_frames(fs: Seq<Frame>) -> Seq<u8>
    decreases fs.len(),
{
    if fs.len() == 0 {
        Seq::<u8>::empty()
    } else {
        encode_frame(fs[0]) + encode_frames(fs.drop_first())
    }
}

/// The payloads of channel `ch`, concatenated in frame order.
pub open spec fn channel_bytes(fs: Seq<Frame>, ch: u8) -> Seq<u8>
    decreases fs.len(),
{
    if fs.len() == 0 {
        Seq::<u8>::empty()
    } else {
        (if fs[0].channel == ch {
            fs[0].payload
        } else {
            Seq::<u8>::empty()
        }) + channel_bytes(fs.drop_first(), ch)
    }
}

/// Total payload bytes over all frames.
pub open spec fn total_payload(fs: Seq<Frame>) -> nat
    decreases fs.len(),
{
    if fs.len() == 0 {
        0
    } else {
        fs[0].payload.len() + total_payload(fs.drop_first())
    }
}

proof fn lemma_demux_frames(
    fs: Seq<Frame>,
    max: nat,
    sin: Seq<u8>,
    sout: Seq<u8>,
    serr: Seq<u8>,
    rs: nat,
)
    requires
        frames_wf(fs),
        rs + total_payload(fs) <= max,
    ensures
        demux_step(encode_frames(fs), false, max, sin, sout, serr, rs) == (DemuxOutcome::Done {
            stdin: sin + channel_bytes(fs, 0),
            stdout: sout + channel_bytes(fs, 1),
            stderr: serr + channel_bytes(fs, 2),
        }),
    decreases fs.len(),
{
    if fs.len() == 0 {
        assert(sin + channel_bytes(fs, 0) =~= sin);
        assert(sout + channel_bytes(fs, 1) =~= sout);
        assert(serr + channel_bytes(fs, 2) =~= serr);
    } else {
        let f0 = fs[0];
        let rest = fs.drop_first();
        let len = f0.payload.len();
        let sv = encode_frames(fs);
        assert(frame_wf(f0));
        assert(sv == encode_frame(f0) + encode_frames(rest));
        assert(encode_frame(f0).len() == 8 + len);
        assert(sv[0] == f0.channel);
        assert(sv[4] == be32_bytes(len)[0] && sv[5] == be32_bytes(len)[1] && sv[6] == be32_bytes(
            len,
        )[2] && sv[7] == be32_bytes(len)[3]);
        lemma_be32_roundtrip(len);
        assert(be32(sv[4], sv[5], sv[6], sv[7]) == len);
        assert(sv.subrange(8, 8 + len as int) =~= f0.payload);
        assert(sv.skip(8 + len as int) =~= encode_frames(rest));
        let sin2 = if f0.channel == 0 {
            sin + f0.payload
        } else {
            sin
        };
        let sout2 = if f0.channel == 1 {
            sout + f0.payload
        } else {
            sout
        };
        let serr2 = if f0.channel == 2 {
            serr + f0.payload
        } else {
            serr
        };
        lemma_demux_frames(rest, max, sin2, sout2, serr2, rs + len);
        assert(sin2 + channel_bytes(rest, 0) =~= sin + channel_bytes(fs, 0));
        assert(sout2 + channel_bytes(rest, 1) =~= sout + channel_bytes(fs, 1));
        assert(serr2 + channel_bytes(rest, 2) =~= serr + channel_bytes(fs, 2));
    }
}

/// Round trip: demultiplexing the encoding of any well-formed frame
/// sequence whose payloads fit the cap reproduces, per channel, the
/// concatenation of that channel's payloads in frame order.
pub proof fn lemma_demux_round_trip(fs: Seq<Frame>, max: nat)
    requires
        frames_wf(fs),
        total_payload(fs) <= max,
    ensures
        demux(encode_frames(fs), false, max) == (DemuxOutcome::Done {
            stdin: channel_bytes(fs, 0),
            stdout: channel_bytes(fs, 1),
            stderr: channel_bytes(fs, 2),
        }),
{
    lemma_demux_frames(fs, max, Seq::<u8>::empty(), Seq::<u8>::empty(), Seq::<u8>::empty(), 0);
    assert(Seq::<u8>::empty() + channel_bytes(fs, 0) =~= channel_bytes(fs, 0));
    assert(Seq::<u8>::empty() + channel_bytes(fs, 1) =~= channel_bytes(fs, 1));
    assert(Seq::<u8>::empty() + channel_bytes(fs, 2) =~= channel_bytes(fs, 2));
}

proof fn lemma_demux_frames_cap(
    fs: Seq<Frame>,
    max: nat,
    sin: Seq<u8>,
    sout: Seq<u8>,
    serr: Seq<u8>,
    rs: nat,
)
    requires
        frames_wf(fs),
        rs <= max,
        rs + total_payload(fs) > max,
    ensures
        demux_step(encode_frames(fs), false, max, sin, sout, serr, rs)
            == DemuxOutcome::FailCap(max),
    decreases fs.len(),
{
    assert(fs.len() > 0);
    let f0 = fs[0];
    let rest = fs.drop_first();
    let len = f0.payload.len();
    let sv = encode_frames(fs);
    assert(frame_wf(f0));
    assert(sv == encode_frame(f0) + encode_frames(rest));
    assert(encode_frame(f0).len() == 8 + len);
    assert(sv[0] == f0.channel);
    assert(sv[4] == be32_bytes(len)[0] && sv[5] == be32_bytes(len)[1] && sv[6] == be32_bytes(
        len,
    )[2] && sv[7] == be32_bytes(len)[3]);
    lemma_be32_roundtrip(len);
    assert(sv.subrange(8, 8 + len as int) =~= f0.payload);
    assert(sv.skip(8 + len as int) =~= encode_frames(rest));
    if rs + len > max {
    } else {
        let sin2 = if f0.channel == 0 {
            sin + f0.payload
        } else {
            sin
        };
        let sout2 = if f0.channel == 1 {
            sout + f0.payload
        } else {
            sout
        };
        let serr2 = if f0.channel == 2 {
            serr + f0.payload
        } else {
            serr
        };
        lemma_demux_frames_cap(rest, max, sin2, sout2, serr2, rs + len);
    }
}

/// Output cap boundary: an encoded stream whose payloads sum to the cap
/// or less is decoded cleanly; one whose payloads sum past the cap fails
/// with the cap error, whatever else the stream holds.
pub proof fn lemma_output_cap_boundary(fs: Seq<Frame>, max: nat)
    requires
        frames_wf(fs),
    ensures
        total_payload(fs) <= max ==> demux(encode_frames(fs), false, max) is Done,
        total_payload(fs) > max ==> demux(encode_frames(fs), false, max)
            == DemuxOutcome::FailCap(max),
{
    if total_payload(fs) <= max {
        lemma_demux_round_trip(fs, max);
    } else {
        lemma_demux_frames_cap(
            fs,
            max,
            Seq::<u8>::empty(),
            Seq::<u8>::empty(),
            Seq::<u8>::empty(),
            0,
        );
    }
}

proof fn lemma_demux_step_blocking(
    serves: Seq<u8>,
    max: nat,
    sin: Seq<u8>,
    sout: Seq<u8>,
    serr: Seq<u8>,
    rs: nat,
)
    ensures
        ({
            let m = demux_step(serves, true, max, sin, sout, serr, rs);
            !(m is Done) && !(m is FailReadType) && !(m is FailReadLength) && !(m
                is FailPayloadEof)
        }),
    decreases serves.len(),
{
    if serves.len() >= 8 && serves[0] <= 2 {
        let len = be32(serves[4], serves[5], serves[6], serves[7]);
        if serves.len() >= 8 + len && rs + len <= max {
            let payload = serves.subrange(8, 8 + len as int);
            let sin2 = if serves[0] == 0 {
                sin + payload
            } else {
                sin
            };
            let sout2 = if serves[0] == 1 {
                sout + payload
            } else {
                sout
            };
            let serr2 = if serves[0] == 2 {
                serr + payload
            } else {
                serr
            };
            lemma_demux_step_blocking(
                serves.skip(8 + len as int),
                max,
                sin2,
                sout2,
                serr2,
                rs + len,
            );
        }
    }
}

/// On a stream that ends by blocking rather than closing, demultiplexing
/// never reports an end-of-input read failure: where bytes run out it
/// reports that the execution deadline elapsed.
pub proof fn lemma_blocking_stream_times_out(serves: Seq<u8>, max: nat)
    ensures
        ({
            let m = demux(serves, true, max);
            !(m is Done) && !(m is FailReadType) && !(m is FailReadLength) && !(m
                is FailPayloadEof)
        }),
{
    lemma_demux_step_blocking(
        serves,
        max,
        Seq::<u8>::empty(),
        Seq::<u8>::empty(),
        Seq::<u8>::empty(),
        0,
    );
}

/// Reads the attach stream until end of input, demultiplexing each frame
/// into the per-channel buffers, under the output cap `max_read_size`.
/// A read that would block means the execution deadline elapsed. The
/// result is exactly what the model [`demux`] says for the bytes the
/// daemon serves on the open connection.
pub fn read_stream<S: StreamSocket>(s: &mut S, max_read_size: usize) -> (r: Result<
    StreamOutput,
    StreamError,
>)
    requires
        old(s).current() is Some,
    ensures
        final(s).future() == old(s).future(),
        final(s).used() == old(s).used(),
        final(s).current() is Some,
        ({
            let c = old(s).current().unwrap();
            let cc = final(s).current().unwrap();
            cc.wrote == c.wrote && cc.write_closed == c.write_closed && cc.accepts_writes
                == c.accepts_writes && cc.blocks_after == c.blocks_after && cc.read_timeout_ms
                == c.read_timeout_ms
        }),
        stream_result_matches(
            r,
            demux(
                old(s).current().unwrap().serves,
                old(s).current().unwrap().blocks_after,
                max_read_size as nat,
            ),
        ),
{
    let ghost c0 = old(s).current().unwrap();
    let ghost blocks = c0.blocks_after;
    let ghost max = max_read_size as nat;
    let mut stdin: Vec<u8> = Vec::new();
    let mut stdout: Vec<u8> = Vec::new();
    let mut stderr: Vec<u8> = Vec::new();
    let mut read_size: usize = 0;
    loop
        invariant
            s.current() is Some,
            s.future() == old(s).future(),
            s.used() == old(s).used(),
            ({
                let cc = s.current().unwrap();
                cc.wrote == c0.wrote && cc.write_closed == c0.write_closed && cc.accepts_writes
                    == c0.accepts_writes && cc.blocks_after == blocks && cc.read_timeout_ms
                    == c0.read_timeout_ms
            }),
            demux(c0.serves, blocks, max) == demux_step(
                s.current().unwrap().serves,
                blocks,
                max,
                stdin@,
                stdout@,
                stderr@,
                read_size as nat,
            ),
            read_size <= max_read_size,
            max == max_read_size as nat,
            blocks == c0.blocks_after,
            c0 == old(s).current().unwrap(),
            old(s).current() is Some,
        decreases s.current().unwrap().serves.len(),
    {
        let ghost sv = s.current().unwrap().serves;
        match s.at_eof() {
            Ok(true) => {
                return Ok(StreamOutput { stdin, stdout, stderr });
            },
            Ok(false) => {},
            Err(f) => {
                let e = if f.kind == IoKind::WouldBlock {
                    StreamError::MaxExecutionTime
                } else {
                    StreamError::Read(f)
                };
                return Err(e);
            },
        }
        // The stream is not at end of input: at least one byte remains.
        let hdr = match s.read_exact(4) {
            Ok(v) => v,
            Err(f) => {
                let e = if f.kind == IoKind::WouldBlock {
                    StreamError::MaxExecutionTime
                } else {
                    StreamError::ReadStreamType(f)
                };
                return Err(e);
            },
        };
        let b0 = hdr[0];
        proof {
            assert(b0 == sv[0]);
        }
        if b0 > 2 {
            return Err(StreamError::UnknownStreamType(b0));
        }
        let lenb = match s.read_exact(4) {
            Ok(v) => v,
            Err(f) => {
                let e = if f.kind == IoKind::WouldBlock {
                    StreamError::MaxExecutionTime
                } else {
                    StreamError::ReadStreamLength(f)
                };
                return Err(e);
            },
        };
        proof {
            assert(lenb@[0] == sv[4] && lenb@[1] == sv[5] && lenb@[2] == sv[6] && lenb@[3]
                == sv[7]);
        }
        let len32 = read_be32(lenb[0], lenb[1], lenb[2], lenb[3]);
        let stream_length = len32 as usize;
        let ghost flen = be32(sv[4], sv[5], sv[6], sv[7]);
        let mut payload = match s.read_exact(stream_length) {
            Ok(v) => v,
            Err(f) => {
                let e = if f.kind == IoKind::WouldBlock {
                    StreamError::MaxExecutionTime
                } else {
                    StreamError::Read(f)
                };
                return Err(e);
            },
        };
        proof {
            assert(payload@ =~= sv.subrange(8, 8 + flen as int));
            assert(s.current().unwrap().serves =~= sv.skip(8 + flen as int));
        }
        if b0 == 0 {
            stdin.append(&mut payload);
        } else if b0 == 1 {
            stdout.append(&mut payload);
        } else {
            stderr.append(&mut payload);
        }
        let new_size = match read_size.checked_add(stream_length) {
            Some(ns) => ns,
            None => {
                return Err(StreamError::MaxReadSize(max_read_size));
            },
        };
        if new_size > max_read_size {
            return Err(StreamError::MaxReadSize(max_read_size));
        }
        read_size = new_size;
    }
}

/// A process resource limit entry of the create body.
pub struct Ulimit {
    pub name: String,
    pub soft: i64,
    pub hard: i64,
}

/// The `HostConfig` part of the create body.
pub struct HostConfig {
    pub memory: i64,
    pub privileged: bool,
    pub cap_add: Vec<String>,
    pub cap_drop: Vec<String>,
    pub ulimits: Vec<Ulimit>,
    pub readonly_rootfs: bool,
    /// Mount path to options, in insertion order.
    pub tmpfs: Vec<(String, String)>,
}

/// The on-wire body of `POST /containers/create`, with PascalCase keys.
pub struct ContainerConfig {
    pub hostname: String,
    pub user: String,
    pub attach_stdin: bool,
    pub attach_stdout: bool,
    pub attach_stderr: bool,
    pub tty: bool,
    pub open_stdin: bool,
    pub stdin_once: bool,
    pub image: String,
    pub network_disabled: bool,
    pub host_config: HostConfig,
}

/// The JSON string literal for a string value.
pub open spec fn json_str_of(s: Seq<char>) -> Seq<u8> {
    json_string(vstd::utf8::encode_utf8(s))
}

/// The JSON object for one ulimit entry.
pub open spec fn ulimit_json(u: Ulimit) -> Seq<u8> {
    lit_bytes("{\"Name\":") + json_str_of(u.name@) + lit_bytes(",\"Soft\":") + dec_bytes_i64(
        u.soft as int,
    ) + lit_bytes(",\"Hard\":") + dec_bytes_i64(u.hard as int) + lit_bytes("}")
}

/// The first `k` ulimit objects, joined by commas.
pub open spec fn ulimits_json(us: Seq<Ulimit>, k: int) -> Seq<u8>
    decreases k,
{
    if k <= 0 {
        Seq::<u8>::empty()
    } else if k == 1 {
        ulimit_json(us[0])
    } else {
        ulimits_json(us, k - 1) + lit_bytes(",") + ulimit_json(us[k - 1])
    }
}

/// One tmpfs entry: path to options.
pub open spec fn tmpfs_entry_json(e: (Seq<char>, Seq<char>)) -> Seq<u8> {
    json_str_of(e.0) + lit_bytes(":") + json_str_of(e.1)
}

/// The first `k` tmpfs entries, joined by commas.
pub open spec fn tmpfs_json(ts: Seq<(Seq<char>, Seq<char>)>, k: int) -> Seq<u8>
    decreases k,
{
    if k <= 0 {
        Seq::<u8>::empty()
    } else if k == 1 {
        tmpfs_entry_json(ts[0])
    } else {
        tmpfs_json(ts, k - 1) + lit_bytes(",") + tmpfs_entry_json(ts[k - 1])
    }
}

impl HostConfig {
    /// The tmpfs entries as sequences.
    pub open spec fn tmpfs_view(&self) -> Seq<(Seq<char>, Seq<char>)> {
        self.tmpfs@.map_values(|e: (String, String)| (e.0@, e.1@))
    }

    /// The JSON object this `HostConfig` serializes to.
    pub open spec fn to_json(&self) -> Seq<u8> {
        lit_bytes("{\"Memory\":") + dec_bytes_i64(self.memory as int) + lit_bytes(
            ",\"Privileged\":",
        ) + json_bool(self.privileged) + lit_bytes(",\"CapAdd\":") + json_string_array(
            self.cap_add@.map_values(|s: String| vstd::utf8::encode_utf8(s@)),
        ) + lit_bytes(",\"CapDrop\":") + json_string_array(
            self.cap_drop@.map_values(|s: String| vstd::utf8::encode_utf8(s@)),
        ) + lit_bytes(",\"Ulimits\":[") + ulimits_json(self.ulimits@, self.ulimits@.len() as int)
            + lit_bytes("],\"ReadonlyRootfs\":") + json_bool(self.readonly_rootfs) + lit_bytes(
            ",\"Tmpfs\":{",
        ) + tmpfs_json(self.tmpfs_view(), self.tmpfs_view().len() as int) + lit_bytes("}}")
    }
}

impl ContainerConfig {
    /// The JSON object this configuration serializes to: the exact bytes
    /// of the create request body.
    pub open spec fn to_json(&self) -> Seq<u8> {
        lit_bytes("{\"Hostname\":") + json_str_of(self.hostname@) + lit_bytes(",\"User\":")
            + json_str_of(self.user@) + lit_bytes(",\"AttachStdin\":") + json_bool(
            self.attach_stdin,
        ) + lit_bytes(",\"AttachStdout\":") + json_bool(self.attach_stdout) + lit_bytes(
            ",\"AttachStderr\":",
        ) + json_bool(self.attach_stderr) + lit_bytes(",\"Tty\":") + json_bool(self.tty)
            + lit_bytes(",\"OpenStdin\":") + json_bool(self.open_stdin) + lit_bytes(
            ",\"StdinOnce\":",
        ) + json_bool(self.stdin_once) + lit_bytes(",\"Image\":") + json_str_of(self.image@)
            + lit_bytes(",\"NetworkDisabled\":") + json_bool(self.network_disabled) + lit_bytes(
            ",\"HostConfig\":",
        ) + self.host_config.to_json() + lit_bytes("}")
    }
}

/// Appends one ulimit object to `out`.
fn write_ulimit(out: &mut Vec<u8>, u: &Ulimit)
    ensures
        final(out)@ == old(out)@ + ulimit_json(*u),
{
    write_lit(out, "{\"Name\":");
    write_json_string(out, u.name.as_str());
    write_lit(out, ",\"Soft\":");
    write_json_i64(out, u.soft);
    write_lit(out, ",\"Hard\":");
    write_json_i64(out, u.hard);
    write_lit(out, "}");
    proof {
        assert(out@ =~= old(out)@ + ulimit_json(*u));
    }
}

/// Concatenation of byte strings is associative.
proof fn seq_assoc(a: Seq<u8>, b: Seq<u8>, c: Seq<u8>)
    ensures
        (a + b) + c == a + (b + c),
{
    assert((a + b) + c =~= a + (b + c));
}

/// Appends the host configuration object to `out`.
fn write_host_config(out: &mut Vec<u8>, h: &HostConfig)
    ensures
        final(out)@ == old(out)@ + h.to_json(),
{
    let ghost o0 = out@;
    write_lit(out, "{\"Memory\":");
    let ghost t = lit_bytes("{\"Memory\":");
    write_json_i64(out, h.memory);
    proof {
        seq_assoc(o0, t, dec_bytes_i64(h.memory as int));
    }
    let ghost t = t + dec_bytes_i64(h.memory as int);
    write_lit(out, ",\"Privileged\":");
    proof {
        seq_assoc(o0, t, lit_bytes(",\"Privileged\":"));
    }
    let ghost t = t + lit_bytes(",\"Privileged\":");
    write_json_bool(out, h.privileged);
    proof {
        seq_assoc(o0, t, json_bool(h.privileged));
    }
    let ghost t = t + json_bool(h.privileged);
    write_lit(out, ",\"CapAdd\":");
    proof {
        seq_assoc(o0, t, lit_bytes(",\"CapAdd\":"));
    }
    let ghost t = t + lit_bytes(",\"CapAdd\":");
    write_json_string_array(out, &h.cap_add);
    let ghost cap_add_json = json_string_array(
        h.cap_add@.map_values(|s: String| vstd::utf8::encode_utf8(s@)),
    );
    proof {
        seq_assoc(o0, t, cap_add_json);
    }
    let ghost t = t + cap_add_json;
    write_lit(out, ",\"CapDrop\":");
    proof {
        seq_assoc(o0, t, lit_bytes(",\"CapDrop\":"));
    }
    let ghost t = t + lit_bytes(",\"CapDrop\":");
    write_json_string_array(out, &h.cap_drop);
    let ghost cap_drop_json = json_string_array(
        h.cap_drop@.map_values(|s: String| vstd::utf8::encode_utf8(s@)),
    );
    proof {
        seq_assoc(o0, t, cap_drop_json);
    }
    let ghost t = t + cap_drop_json;
    write_lit(out, ",\"Ulimits\":[");
    proof {
        seq_assoc(o0, t, lit_bytes(",\"Ulimits\":["));
    }
    let ghost t = t + lit_bytes(",\"Ulimits\":[");
    let ghost us = h.ulimits@;
    let ghost base = out@;
    let mut i: usize = 0;
    while i < h.ulimits.len()
        invariant
            0 <= i <= h.ulimits@.len(),
            us == h.ulimits@,
            out@ == base + ulimits_json(us, i as int),
        decreases h.ulimits@.len() - i,
    {
        if i > 0 {
            write_lit(out, ",");
        }
        write_ulimit(out, &h.ulimits[i]);
        proof {
            assert(out@ =~= base + ulimits_json(us, i as int + 1));
        }
        i = i + 1;
    }
    proof {
        seq_assoc(o0, t, ulimits_json(us, us.len() as int));
    }
    let ghost t = t + ulimits_json(us, us.len() as int);
    write_lit(out, "],\"ReadonlyRootfs\":");
    proof {
        seq_assoc(o0, t, lit_bytes("],\"ReadonlyRootfs\":"));
    }
    let ghost t = t + lit_bytes("],\"ReadonlyRootfs\":");
    write_json_bool(out, h.readonly_rootfs);
    proof {
        seq_assoc(o0, t, json_bool(h.readonly_rootfs));
    }
    let ghost t = t + json_bool(h.readonly_rootfs);
    write_lit(out, ",\"Tmpfs\":{");
    proof {
        seq_assoc(o0, t, lit_bytes(",\"Tmpfs\":{"));
    }
    let ghost t = t + lit_bytes(",\"Tmpfs\":{");
    let ghost ts = h.tmpfs_view();
    let ghost base2 = out@;
    let mut j: usize = 0;
    while j < h.tmpfs.len()
        invariant
            0 <= j <= h.tmpfs@.len(),
            ts == h.tmpfs_view(),
            ts.len() == h.tmpfs@.len(),
            out@ == base2 + tmpfs_json(ts, j as int),
        decreases h.tmpfs@.len() - j,
    {
        if j > 0 {
            write_lit(out, ",");
        }
        let ghost pre = out@;
        write_json_string(out, h.tmpfs[j].0.as_str());
        write_lit(out, ":");
        write_json_string(out, h.tmpfs[j].1.as_str());
        proof {
            assert(ts[j as int] == (h.tmpfs@[j as int].0@, h.tmpfs@[j as int].1@));
            assert(out@ =~= base2 + tmpfs_json(ts, j as int + 1));
        }
        j = j + 1;
    }
    proof {
        seq_assoc(o0, t, tmpfs_json(ts, ts.len() as int));
    }
    let ghost t = t + tmpfs_json(ts, ts.len() as int);
    write_lit(out, "}}");
    proof {
        assert(out@ =~= o0 + (t + lit_bytes("}}")));
        assert(o0 + (t + lit_bytes("}}")) == o0 + h.to_json());
    }
}

/// Renders the create request body: the exact serialization of the
/// configuration, with PascalCase keys and no extra whitespace.
pub fn create_body(c: &ContainerConfig) -> (r: Vec<u8>)
    ensures
        r@ == c.to_json(),
{
    let mut out: Vec<u8> = Vec::new();
    let ghost o0 = out@;
    write_lit(&mut out, "{\"Hostname\":");
    let ghost t = lit_bytes("{\"Hostname\":");
    write_json_string(&mut out, c.hostname.as_str());
    proof {
        seq_assoc(o0, t, json_str_of(c.hostname@));
    }
    let ghost t = t + json_str_of(c.hostname@);
    write_lit(&mut out, ",\"User\":");
    proof {
        seq_assoc(o0, t, lit_bytes(",\"User\":"));
    }
    let ghost t = t + lit_bytes(",\"User\":");
    write_json_string(&mut out, c.user.as_str());
    proof {
        seq_assoc(o0, t, json_str_of(c.user@));
    }
    let ghost t = t + json_str_of(c.user@);
    write_lit(&mut out, ",\"AttachStdin\":");
    proof {
        seq_assoc(o0, t, lit_bytes(",\"AttachStdin\":"));
    }
    let ghost t = t + lit_bytes(",\"AttachStdin\":");
    write_json_bool(&mut out, c.attach_stdin);
    proof {
        seq_assoc(o0, t, json_bool(c.attach_stdin));
    }
    let ghost t = t + json_bool(c.attach_stdin);
    write_lit(&mut out, ",\"AttachStdout\":");
    proof {
        seq_assoc(o0, t, lit_bytes(",\"AttachStdout\":"));
    }
    let ghost t = t + lit_bytes(",\"AttachStdout\":");
    write_json_bool(&mut out, c.attach_stdout);
    proof {
        seq_assoc(o0, t, json_bool(c.attach_stdout));
    }
    let ghost t = t + json_bool(c.attach_stdout);
    write_lit(&mut out, ",\"AttachStderr\":");
    proof {
        seq_assoc(o0, t, lit_bytes(",\"AttachStderr\":"));
    }
    let ghost t = t + lit_bytes(",\"AttachStderr\":");
    write_json_bool(&mut out, c.attach_stderr);
    proof {
        seq_assoc(o0, t, json_bool(c.attach_stderr));
    }
    let ghost t = t + json_bool(c.attach_stderr);
    write_lit(&mut out, ",\"Tty\":");
    proof {
        seq_assoc(o0, t, lit_bytes(",\"Tty\":"));
    }
    let ghost t = t + lit_bytes(",\"Tty\":");
    write_json_bool(&mut out, c.tty);
    proof {
        seq_assoc(o0, t, json_bool(c.tty));
    }
    let ghost t = t + json_bool(c.tty);
    write_lit(&mut out, ",\"OpenStdin\":");
    proof {
        seq_assoc(o0, t, lit_bytes(",\"OpenStdin\":"));
    }
    let ghost t = t + lit_bytes(",\"OpenStdin\":");
    write_json_bool(&mut out, c.open_stdin);
    proof {
        seq_assoc(o0, t, json_bool(c.open_stdin));
    }
    let ghost t = t + json_bool(c.open_stdin);
    write_lit(&mut out, ",\"StdinOnce\":");
    proof {
        seq_assoc(o0, t, lit_bytes(",\"StdinOnce\":"));
    }
    let ghost t = t + lit_bytes(",\"StdinOnce\":");
    write_json_bool(&mut out, c.stdin_once);
    proof {
        seq_assoc(o0, t, json_bool(c.stdin_once));
    }
    let ghost t = t + json_bool(c.stdin_once);
    write_lit(&mut out, ",\"Image\":");
    proof {
        seq_assoc(o0, t, lit_bytes(",\"Image\":"));
    }
    let ghost t = t + lit_bytes(",\"Image\":");
    write_json_string(&mut out, c.image.as_str());
    proof {
        seq_assoc(o0, t, json_str_of(c.image@));
    }
    let ghost t = t + json_str_of(c.image@);
    write_lit(&mut out, ",\"NetworkDisabled\":");
    proof {
        seq_assoc(o0, t, lit_bytes(",\"NetworkDisabled\":"));
    }
    let ghost t = t + lit_bytes(",\"NetworkDisabled\":");
    write_json_bool(&mut out, c.network_disabled);
    proof {
        seq_assoc(o0, t, json_bool(c.network_disabled));
    }
    let ghost t = t + json_bool(c.network_disabled);
    write_lit(&mut out, ",\"HostConfig\":");
    proof {
        seq_assoc(o0, t, lit_bytes(",\"HostConfig\":"));
    }
    let ghost t = t + lit_bytes(",\"HostConfig\":");
    write_host_config(&mut out, &c.host_config);
    proof {
        seq_assoc(o0, t, c.host_config.to_json());
    }
    let ghost t = t + c.host_config.to_json();
    write_lit(&mut out, "}");
    proof {
        assert(out@ =~= o0 + (t + lit_bytes("}")));
        assert(o0 + (t + lit_bytes("}")) == o0 + c.to_json());
        assert(o0 + c.to_json() =~= c.to_json());
    }
    out
}

/// The default container shape: attached stdio without a terminal, one
/// payload on stdin, no network, bounded memory, `MKNOD` dropped, file
/// and process limits set.
pub fn default_container_config(image_name: String) -> (r: ContainerConfig)
    ensures
        r.hostname@ == "glot-runner"@,
        r.user@ == "glot"@,
        r.attach_stdin && r.attach_stdout && r.attach_stderr,
        !r.tty,
        r.open_stdin && r.stdin_once,
        r.image@ == image_name@,
        r.network_disabled,
        r.host_config.memory == 500000000,
        !r.host_config.privileged,
        r.host_config.cap_add@.len() == 0,
        r.host_config.cap_drop@.len() == 1 && r.host_config.cap_drop@[0]@ == "MKNOD"@,
        r.host_config.ulimits@.len() == 2,
        r.host_config.ulimits@[0].name@ == "nofile"@ && r.host_config.ulimits@[0].soft == 90
            && r.host_config.ulimits@[0].hard == 100,
        r.host_config.ulimits@[1].name@ == "nproc"@ && r.host_config.ulimits@[1].soft == 90
            && r.host_config.ulimits@[1].hard == 100,
        !r.host_config.readonly_rootfs,
        r.host_config.tmpfs@.len() == 0,
{
    let mut cap_drop: Vec<String> = Vec::new();
    cap_drop.push("MKNOD".to_owned());
    let mut ulimits: Vec<Ulimit> = Vec::new();
    ulimits.push(Ulimit { name: "nofile".to_owned(), soft: 90, hard: 100 });
    ulimits.push(Ulimit { name: "nproc".to_owned(), soft: 90, hard: 100 });
    ContainerConfig {
        hostname: "glot-runner".to_owned(),
        user: "glot".to_owned(),
        attach_stdin: true,
        attach_stdout: true,
        attach_stderr: true,
        tty: false,
        open_stdin: true,
        stdin_once: true,
        image: image_name,
        network_disabled: true,
        host_config: HostConfig {
            memory: 500000000,
            privileged: false,
            cap_add: Vec::new(),
            cap_drop,
            ulimits,
            readonly_rootfs: false,
            tmpfs: Vec::new(),
        },
    }
}

/// The UTF-8 bytes of a string, as a vector.
fn bytes_of(s: &str) -> (r: Vec<u8>)
    ensures
        r@ == lit_bytes(s),
{
    let mut v: Vec<u8> = Vec::new();
    append_bytes(&mut v, s.as_bytes());
    v
}

/// The headers common to the JSON requests: accept JSON from the local
/// daemon and close the connection after one exchange.
pub open spec fn standard_headers() -> Seq<(Seq<u8>, Seq<u8>)> {
    seq![
        (lit_bytes("Accept"), lit_bytes("application/json")),
        (lit_bytes("Host"), lit_bytes("127.0.0.1")),
        (lit_bytes("Connection"), lit_bytes("close")),
    ]
}

fn push_standard_headers(headers: &mut Vec<(Vec<u8>, Vec<u8>)>)
    requires
        old(headers)@.len() == 0,
    ensures
        final(headers)@.map_values(|h: (Vec<u8>, Vec<u8>)| (h.0@, h.1@)) == standard_headers(),
{
    headers.push((bytes_of("Accept"), bytes_of("application/json")));
    headers.push((bytes_of("Host"), bytes_of("127.0.0.1")));
    headers.push((bytes_of("Connection"), bytes_of("close")));
    proof {
        assert(headers@.map_values(|h: (Vec<u8>, Vec<u8>)| (h.0@, h.1@)) =~= standard_headers());
    }
}

/// Builds `GET /version`.
pub fn version_request() -> (r: Request)
    ensures
        r.method == Method::Get,
        r.path@ == lit_bytes("/version"),
        r.header_view() == standard_headers(),
        r.body is Empty,
{
    let mut headers: Vec<(Vec<u8>, Vec<u8>)> = Vec::new();
    push_standard_headers(&mut headers);
    Request { method: Method::Get, path: bytes_of("/version"), headers, body: Body::Empty() }
}

/// The headers of the create request: a JSON body of the given length.
pub open spec fn create_headers(body_len: nat) -> Seq<(Seq<u8>, Seq<u8>)> {
    seq![
        (lit_bytes("Content-Type"), lit_bytes("application/json")),
        (lit_bytes("Accept"), lit_bytes("application/json")),
        (lit_bytes("Host"), lit_bytes("127.0.0.1")),
        (lit_bytes("Content-Length"), dec_bytes(body_len)),
        (lit_bytes("Connection"), lit_bytes("close")),
    ]
}

/// Builds `POST /containers/create` with the serialized configuration
/// as body and its length announced.
pub fn create_container_request(config: &ContainerConfig) -> (r: Request)
    ensures
        r.method == Method::Post,
        r.path@ == lit_bytes("/containers/create"),
        r.header_view() == create_headers(config.to_json().len()),
        r.body matches Body::Bytes(b) && b@ == config.to_json(),
{
    let body = create_body(config);
    let mut headers: Vec<(Vec<u8>, Vec<u8>)> = Vec::new();
    headers.push((bytes_of("Content-Type"), bytes_of("application/json")));
    headers.push((bytes_of("Accept"), bytes_of("application/json")));
    headers.push((bytes_of("Host"), bytes_of("127.0.0.1")));
    let len_bytes = crate::numeric::format_u64(body.len() as u64);
    headers.push((bytes_of("Content-Length"), len_bytes));
    headers.push((bytes_of("Connection"), bytes_of("close")));
    proof {
        assert(headers@.map_values(|h: (Vec<u8>, Vec<u8>)| (h.0@, h.1@)) =~= create_headers(
            config.to_json().len(),
        ));
    }
    Request {
        method: Method::Post,
        path: bytes_of("/containers/create"),
        headers,
        body: Body::Bytes(body),
    }
}

/// Builds `POST /containers/{id}/start`.
pub fn start_container_request(container_id: &str) -> (r: Request)
    ensures
        r.method == Method::Post,
        r.path@ == lit_bytes("/containers/") + container_id.spec_bytes() + lit_bytes("/start"),
        r.header_view() == standard_headers(),
        r.body is Empty,
{
    let mut path = bytes_of("/containers/");
    append_bytes(&mut path, container_id.as_bytes());
    write_lit(&mut path, "/start");
    let mut headers: Vec<(Vec<u8>, Vec<u8>)> = Vec::new();
    push_standard_headers(&mut headers);
    Request { method: Method::Post, path, headers, body: Body::Empty() }
}

/// Builds `DELETE /containers/{id}?v=1&force=1`: remove the container
/// and its volumes, stopping it first if need be.
pub fn remove_container_request(container_id: &str) -> (r: Request)
    ensures
        r.method == Method::Delete,
        r.path@ == lit_bytes("/containers/") + container_id.spec_bytes() + lit_bytes(
            "?v=1&force=1",
        ),
        r.header_view() == standard_headers(),
        r.body is Empty,
{
    let mut path = bytes_of("/containers/");
    append_bytes(&mut path, container_id.as_bytes());
    write_lit(&mut path, "?v=1&force=1");
    let mut headers: Vec<(Vec<u8>, Vec<u8>)> = Vec::new();
    push_standard_headers(&mut headers);
    Request { method: Method::Delete, path, headers, body: Body::Empty() }
}

/// Builds `POST /containers/{id}/attach?stream=1&stdout=1&stdin=1&stderr=1`.
pub fn attach_container_request(container_id: &str) -> (r: Request)
    ensures
        r.method == Method::Post,
        r.path@ == lit_bytes("/containers/") + container_id.spec_bytes() + lit_bytes(
            "/attach?stream=1&stdout=1&stdin=1&stderr=1",
        ),
        r.header_view() == seq![(lit_bytes("Host"), lit_bytes("127.0.0.1"))],
        r.body is Empty,
{
    let mut path = bytes_of("/containers/");
    append_bytes(&mut path, container_id.as_bytes());
    write_lit(&mut path, "/attach?stream=1&stdout=1&stdin=1&stderr=1");
    let mut headers: Vec<(Vec<u8>, Vec<u8>)> = Vec::new();
    headers.push((bytes_of("Host"), bytes_of("127.0.0.1")));
    proof {
        assert(headers@.map_values(|h: (Vec<u8>, Vec<u8>)| (h.0@, h.1@)) =~= seq![
            (lit_bytes("Host"), lit_bytes("127.0.0.1")),
        ]);
    }
    Request { method: Method::Post, path, headers, body: Body::Empty() }
}

/// Failure of one Docker API call.
#[derive(Debug)]
pub enum Error {
    /// The HTTP exchange failed (request building here cannot fail).
    SendRequest(crate::http_extra::Error),
}

/// The create response: the new container's id and any warnings.
#[derive(Debug)]
pub struct ContainerCreatedResponse {
    pub id: String,
    pub warnings: Vec<String>,
}

#[verifier::external_type_specification]
#[verifier::external_body]
pub struct ExJsonValue(serde_json::Value);

#[verifier::external_type_specification]
#[verifier::external_body]
#[verifier::reject_recursive_types(K)]
#[verifier::reject_recursive_types(V)]
pub struct ExJsonMap<K, V>(serde_json::Map<K, V>);

/// Whether `serde_json` decodes these bytes as one JSON object.
pub uninterp spec fn is_json_object(bytes: Seq<u8>) -> bool;

/// Relies on `serde_json::from_slice` into a map of string to value: it
/// succeeds exactly when the bytes hold one JSON object, a function of
/// the bytes alone.
#[verifier::external_body]
pub(crate) fn decode_object(bytes: &[u8]) -> (r: Result<
    serde_json::Map<String, serde_json::Value>,
    JsonFailure,
>)
    ensures
        r is Ok <==> is_json_object(bytes@),
{
    serde_json::from_slice(bytes).map_err(|e| JsonFailure { message: format!("{}", e) })
}

/// What the create response decodes to, if the bytes hold one JSON
/// object with a string `Id` and an array of strings `Warnings`: the id
/// and the warnings. A function of the bytes alone.
pub uninterp spec fn created_view(bytes: Seq<u8>) -> Option<(Seq<char>, Seq<Seq<char>>)>;

/// Relies on `serde_json` to decode the create response, as one JSON
/// value whose `Id` field is a string and whose `Warnings` field is an
/// array of strings; the outcome is a function of the bytes alone.
#[verifier::external_body]
fn decode_created(bytes: &Vec<u8>) -> (r: Result<ContainerCreatedResponse, JsonFailure>)
    ensures
        match created_view(bytes@) {
            Some(v) => r matches Ok(c) && c.id@ == v.0 && c.warnings@.map_values(
                |w: String| w@,
            ) == v.1,
            None => r is Err,
        },
{
    let value: serde_json::Value = serde_json::from_slice(bytes)
        .map_err(|e| JsonFailure { message: format!("{}", e) })?;
    let id = value.get("Id").and_then(|f| f.as_str()).map(|s| s.to_owned())
        .ok_or(JsonFailure { message: "missing string field Id".to_owned() })?;
    let warnings = value.get("Warnings").and_then(|f| f.as_array())
        .ok_or(JsonFailure { message: "missing array field Warnings".to_owned() })?
        .iter().map(|w| w.as_str().map(|s| s.to_owned()))
        .collect::<Option<Vec<String>>>()
        .ok_or(JsonFailure { message: "warning is not a string".to_owned() })?;
    Ok(ContainerCreatedResponse { id, warnings })
}

/// Asks the daemon for its version description: `GET /version`, returning
/// the raw JSON body of a 2xx response.
pub fn version<S: StreamSocket>(s: &mut S) -> (r: Result<Vec<u8>, Error>)
    requires
        old(s).current() is Some,
    ensures
        final(s).future() == old(s).future(),
        final(s).used() == old(s).used(),
        final(s).current() is Some,
        ({
            let c = old(s).current().unwrap();
            let cc = final(s).current().unwrap();
            cc.write_closed == c.write_closed && cc.accepts_writes == c.accepts_writes
                && cc.blocks_after == c.blocks_after && cc.read_timeout_ms == c.read_timeout_ms
        }),
        ({
            let c = old(s).current().unwrap();
            if !(c.accepts_writes && !c.write_closed) {
                r matches Err(Error::SendRequest(crate::http_extra::Error::WriteRequest(_)))
                    && final(s).current().unwrap().wrote == c.wrote
            } else {
                final(s).current().unwrap().wrote == c.wrote + version_request_wire()
                    && (match http_read(c.serves, c.blocks_after) {
                    HttpView::Success { body, .. } => r matches Ok(b) && b@ == body,
                    v => r matches Err(Error::SendRequest(e)) && http_err_matches(e, v),
                })
            }
        }),
{
    proof {
        reveal(version_request_wire);
    }
    let req = version_request();
    match send_request(s, &req) {
        Ok(resp) => Ok(resp.body),
        Err(e) => Err(Error::SendRequest(e)),
    }
}

/// The wire bytes of the version request.
#[verifier::opaque]
pub open spec fn version_request_wire() -> Seq<u8> {
    method_bytes(Method::Get) + lit_bytes(" ") + lit_bytes("/version") + lit_bytes(
        " HTTP/1.1\r\n",
    ) + headers_join(standard_headers(), 3) + lit_bytes("\r\n\r\n")
}

/// The wire bytes of the create request for a configuration.
#[verifier::opaque]
pub open spec fn create_request_wire(c: ContainerConfig) -> Seq<u8> {
    method_bytes(Method::Post) + lit_bytes(" ") + lit_bytes("/containers/create") + lit_bytes(
        " HTTP/1.1\r\n",
    ) + headers_join(create_headers(c.to_json().len()), 5) + lit_bytes("\r\n\r\n") + c.to_json()
}

/// The wire bytes of the start request for a container id.
#[verifier::opaque]
pub open spec fn start_request_wire(id: Seq<u8>) -> Seq<u8> {
    method_bytes(Method::Post) + lit_bytes(" ") + (lit_bytes("/containers/") + id + lit_bytes(
        "/start",
    )) + lit_bytes(" HTTP/1.1\r\n") + headers_join(standard_headers(), 3) + lit_bytes("\r\n\r\n")
}

/// The wire bytes of the remove request for a container id.
#[verifier::opaque]
pub open spec fn remove_request_wire(id: Seq<u8>) -> Seq<u8> {
    method_bytes(Method::Delete) + lit_bytes(" ") + (lit_bytes("/containers/") + id + lit_bytes(
        "?v=1&force=1",
    )) + lit_bytes(" HTTP/1.1\r\n") + headers_join(standard_headers(), 3) + lit_bytes("\r\n\r\n")
}

/// The wire bytes of the attach request for a container id.
#[verifier::opaque]
pub open spec fn attach_request_wire(id: Seq<u8>) -> Seq<u8> {
    method_bytes(Method::Post) + lit_bytes(" ") + (lit_bytes("/containers/") + id + lit_bytes(
        "/attach?stream=1&stdout=1&stdin=1&stderr=1",
    )) + lit_bytes(" HTTP/1.1\r\n") + headers_join(
        seq![(lit_bytes("Host"), lit_bytes("127.0.0.1"))],
        1,
    ) + lit_bytes("\r\n\r\n")
}

/// Creates a container: `POST /containers/create` with the serialized
/// configuration. On a 2xx response the body is decoded as the created
/// response: its id and warnings are exactly what [`created_view`] reads
/// out of the body the daemon sent.
pub fn create_container<S: StreamSocket>(s: &mut S, config: &ContainerConfig) -> (r: Result<
    ContainerCreatedResponse,
    Error,
>)
    requires
        old(s).current() is Some,
    ensures
        final(s).future() == old(s).future(),
        final(s).used() == old(s).used(),
        final(s).current() is Some,
        ({
            let c = old(s).current().unwrap();
            let cc = final(s).current().unwrap();
            cc.write_closed == c.write_closed && cc.accepts_writes == c.accepts_writes
                && cc.blocks_after == c.blocks_after && cc.read_timeout_ms == c.read_timeout_ms
        }),
        ({
            let c = old(s).current().unwrap();
            if !(c.accepts_writes && !c.write_closed) {
                r matches Err(Error::SendRequest(crate::http_extra::Error::WriteRequest(_)))
                    && final(s).current().unwrap().wrote == c.wrote
            } else {
                final(s).current().unwrap().wrote == c.wrote + create_request_wire(*config)
                    && (match http_read(c.serves, c.blocks_after) {
                    HttpView::Success { body, .. } => match created_view(body) {
                        Some(v) => r matches Ok(created) && created.id@ == v.0
                            && created.warnings@.map_values(|w: String| w@) == v.1,
                        None => r matches Err(
                            Error::SendRequest(crate::http_extra::Error::DeserializeBody(_)),
                        ),
                    },
                    v => r matches Err(Error::SendRequest(e)) && http_err_matches(e, v),
                })
            }
        }),
{
    proof {
        reveal(create_request_wire);
    }
    let req = create_container_request(config);
    proof {
        assert(req.wire() == create_request_wire(*config));
    }
    match send_request(s, &req) {
        Ok(resp) => match decode_created(&resp.body) {
            Ok(created) => Ok(created),
            Err(jf) => Err(Error::SendRequest(crate::http_extra::Error::DeserializeBody(jf))),
        },
        Err(e) => Err(Error::SendRequest(e)),
    }
}

/// How a body-less call's result corresponds to the exchange model.
pub open spec fn empty_result_matches(r: Result<(), Error>, v: HttpView) -> bool {
    match v {
        HttpView::Success { .. } => r is Ok,
        _ => r matches Err(Error::SendRequest(e)) && http_err_matches(e, v),
    }
}

/// Starts a container: `POST /containers/{id}/start`, expecting a 2xx
/// response with no meaningful body.
pub fn start_container<S: StreamSocket>(s: &mut S, container_id: &str) -> (r: Result<(), Error>)
    requires
        old(s).current() is Some,
    ensures
        final(s).future() == old(s).future(),
        final(s).used() == old(s).used(),
        final(s).current() is Some,
        ({
            let c = old(s).current().unwrap();
            let cc = final(s).current().unwrap();
            cc.write_closed == c.write_closed && cc.accepts_writes == c.accepts_writes
                && cc.blocks_after == c.blocks_after && cc.read_timeout_ms == c.read_timeout_ms
        }),
        ({
            let c = old(s).current().unwrap();
            if !(c.accepts_writes && !c.write_closed) {
                r matches Err(Error::SendRequest(crate::http_extra::Error::WriteRequest(_)))
                    && final(s).current().unwrap().wrote == c.wrote
            } else {
                final(s).current().unwrap().wrote == c.wrote + start_request_wire(
                    container_id.spec_bytes(),
                ) && empty_result_matches(r, http_read(c.serves, c.blocks_after))
            }
        }),
{
    proof {
        reveal(start_request_wire);
    }
    let req = start_container_request(container_id);
    match send_request(s, &req) {
        Ok(_) => Ok(()),
        Err(e) => Err(Error::SendRequest(e)),
    }
}

/// Removes a container and its volumes, by force if it still runs:
/// `DELETE /containers/{id}?v=1&force=1`.
pub fn remove_container<S: StreamSocket>(s: &mut S, container_id: &str) -> (r: Result<(), Error>)
    requires
        old(s).current() is Some,
    ensures
        final(s).future() == old(s).future(),
        final(s).used() == old(s).used(),
        final(s).current() is Some,
        ({
            let c = old(s).current().unwrap();
            let cc = final(s).current().unwrap();
            cc.write_closed == c.write_closed && cc.accepts_writes == c.accepts_writes
                && cc.blocks_after == c.blocks_after && cc.read_timeout_ms == c.read_timeout_ms
        }),
        ({
            let c = old(s).current().unwrap();
            if !(c.accepts_writes && !c.write_closed) {
                r matches Err(Error::SendRequest(crate::http_extra::Error::WriteRequest(_)))
                    && final(s).current().unwrap().wrote == c.wrote
            } else {
                final(s).current().unwrap().wrote == c.wrote + remove_request_wire(
                    container_id.spec_bytes(),
                ) && empty_result_matches(r, http_read(c.serves, c.blocks_after))
            }
        }),
{
    proof {
        reveal(remove_request_wire);
    }
    let req = remove_container_request(container_id);
    match send_request(s, &req) {
        Ok(_) => Ok(()),
        Err(e) => Err(Error::SendRequest(e)),
    }
}

/// Attaches to a container's stdio:
/// `POST /containers/{id}/attach?stream=1&stdout=1&stdin=1&stderr=1`.
/// After the 2xx head the same connection carries the mux stream: the
/// attach response announces no body, so on success the connection rests
/// exactly where the mux begins.
pub fn attach_container<S: StreamSocket>(s: &mut S, container_id: &str) -> (r: Result<(), Error>)
    requires
        old(s).current() is Some,
    ensures
        final(s).future() == old(s).future(),
        final(s).used() == old(s).used(),
        final(s).current() is Some,
        ({
            let c = old(s).current().unwrap();
            let cc = final(s).current().unwrap();
            cc.write_closed == c.write_closed && cc.accepts_writes == c.accepts_writes
                && cc.blocks_after == c.blocks_after && cc.read_timeout_ms == c.read_timeout_ms
        }),
        ({
            let c = old(s).current().unwrap();
            if !(c.accepts_writes && !c.write_closed) {
                r matches Err(Error::SendRequest(crate::http_extra::Error::WriteRequest(_)))
                    && final(s).current().unwrap().wrote == c.wrote
            } else {
                final(s).current().unwrap().wrote == c.wrote + attach_request_wire(
                    container_id.spec_bytes(),
                ) && empty_result_matches(r, http_read(c.serves, c.blocks_after)) && (
                match http_read(c.serves, c.blocks_after) {
                    HttpView::Success { rest, .. } => final(s).current().unwrap().serves == rest,
                    _ => true,
                })
            }
        }),
{
    proof {
        reveal(attach_request_wire);
    }
    let req = attach_container_request(container_id);
    match send_request(s, &req) {
        Ok(_) => Ok(()),
        Err(e) => Err(Error::SendRequest(e)),
    }
}

/// How an error corresponds to a failed demultiplex in the model (a
/// clean end of stream never maps to an error).
pub open spec fn stream_err_matches(e: StreamError, m: DemuxOutcome) -> bool {
    match m {
        DemuxOutcome::Done { .. } => false,
        DemuxOutcome::FailTimeout => e is MaxExecutionTime,
        DemuxOutcome::FailReadType => e matches StreamError::ReadStreamType(f) && f.kind
            == IoKind::UnexpectedEof,
        DemuxOutcome::FailUnknownType(b) => e matches StreamError::UnknownStreamType(b2) && b2
            == b,
        DemuxOutcome::FailReadLength => e matches StreamError::ReadStreamLength(f) && f.kind
            == IoKind::UnexpectedEof,
        DemuxOutcome::FailPayloadEof => e matches StreamError::Read(f) && f.kind
            == IoKind::UnexpectedEof,
        DemuxOutcome::FailCap(m2) => e matches StreamError::MaxReadSize(mx) && mx as nat == m2,
    }
}

proof fn lemma_demux_step_within_cap(
    serves: Seq<u8>,
    blocks: bool,
    max: nat,
    sin: Seq<u8>,
    sout: Seq<u8>,
    serr: Seq<u8>,
    rs: nat,
)
    requires
        rs == sin.len() + sout.len() + serr.len(),
        rs <= max,
    ensures
        ({
            match demux_step(serves, blocks, max, sin, sout, serr, rs) {
                DemuxOutcome::Done { stdin, stdout, stderr } => stdin.len() + stdout.len()
                    + stderr.len() <= max,
                _ => true,
            }
        }),
    decreases serves.len(),
{
    if serves.len() >= 8 && serves[0] <= 2 {
        let len = be32(serves[4], serves[5], serves[6], serves[7]);
        if serves.len() >= 8 + len && rs + len <= max {
            let payload = serves.subrange(8, 8 + len as int);
            let sin2 = if serves[0] == 0 {
                sin + payload
            } else {
                sin
            };
            let sout2 = if serves[0] == 1 {
                sout + payload
            } else {
                sout
            };
            let serr2 = if serves[0] == 2 {
                serr + payload
            } else {
                serr
            };
            lemma_demux_step_within_cap(
                serves.skip(8 + len as int),
                blocks,
                max,
                sin2,
                sout2,
                serr2,
                rs + len,
            );
        }
    }
}

/// A cleanly demultiplexed stream respects the output cap: the three
/// accumulators together never exceed it.
pub proof fn lemma_demux_done_within_cap(serves: Seq<u8>, blocks: bool, max: nat)
    ensures
        ({
            match demux(serves, blocks, max) {
                DemuxOutcome::Done { stdin, stdout, stderr } => stdin.len() + stdout.len()
                    + stderr.len() <= max,
                _ => true,
            }
        }),
{
    lemma_demux_step_within_cap(
        serves,
        blocks,
        max,
        Seq::<u8>::empty(),
        Seq::<u8>::empty(),
        Seq::<u8>::empty(),
        0,
    );
}

impl Error {
    /// A human-readable description of the failure.
    pub open spec fn message_spec(&self) -> Seq<char> {
        match self {
            Error::SendRequest(e) => "Failed while sending request: "@ + e.message_spec(),
        }
    }

    /// Describes the failure.
    pub fn message(&self) -> (r: String)
        ensures
            r@ == self.message_spec(),
    {
        match self {
            Error::SendRequest(e) => {
                let mut m = <String as vstd::string::StringExecFns>::from_str(
                    "Failed while sending request: ",
                );
                let detail = e.message();
                m.append( detail.as_str());
                m
            },
        }
    }
}

impl StreamError {
    /// A human-readable description of the failure.
    pub open spec fn message_spec(&self) -> Seq<char> {
        match self {
            StreamError::Read(f) => f.message@,
            StreamError::ReadStreamType(f) => "Failed to read stream type: "@ + f.message@,
            StreamError::UnknownStreamType(_) => "Unknown stream type"@,
            StreamError::ReadStreamLength(f) => "Failed to read stream length: "@ + f.message@,
            StreamError::InvalidStreamLength => "Failed to parse stream length"@,
            StreamError::MaxExecutionTime => "Max execution time exceeded"@,
            StreamError::MaxReadSize(_) => "Max output size exceeded"@,
        }
    }

    /// Describes the failure.
    pub fn message(&self) -> (r: String)
        ensures
            r@ == self.message_spec(),
    {
        match self {
            StreamError::Read(f) => f.message.clone(),
            StreamError::ReadStreamType(f) => {
                let mut m = <String as vstd::string::StringExecFns>::from_str(
                    "Failed to read stream type: ",
                );
                m.append( f.message.as_str());
                m
            },
            StreamError::UnknownStreamType(_) => <String as vstd::string::StringExecFns>::from_str(
                "Unknown stream type",
            ),
            StreamError::ReadStreamLength(f) => {
                let mut m = <String as vstd::string::StringExecFns>::from_str(
                    "Failed to read stream length: ",
                );
                m.append( f.message.as_str());
                m
            },
            StreamError::InvalidStreamLength => <String as vstd::string::StringExecFns>::from_str(
                "Failed to parse stream length",
            ),
            StreamError::MaxExecutionTime => <String as vstd::string::StringExecFns>::from_str(
                "Max execution time exceeded",
            ),
            StreamError::MaxReadSize(_) => <String as vstd::string::StringExecFns>::from_str(
                "Max output size exceeded",
            ),
        }
    }
}

/// The daemon's version description, as the `GET /version` payload names
/// it. The engine hands the raw JSON through; this shape is for callers
/// that decode it.
pub struct VersionResponse {
    pub version: String,
    pub api_version: String,
    pub git_commit: String,
    pub go_version: String,
    pub os: String,
    pub arch: String,
    pub kernel_version: String,
    pub build_time: String,
    pub platform: VersionPlatformResponse,
    pub components: Vec<VersionComponentResponse>,
}

/// The platform part of the version description.
pub struct VersionPlatformResponse {
    pub name: String,
}

/// One component of the version description.
pub struct VersionComponentResponse {
    pub name: String,
    pub version: String,
}

} // verus!
