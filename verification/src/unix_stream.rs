//! Connections to the Docker daemon's local stream socket.
//!
//! The engine never touches a socket directly: it goes through the
//! [`StreamSocket`] trait, whose specification models the daemon side as a
//! script of planned connections. Each planned connection says whether the
//! connect succeeds, whether writes are accepted, which bytes the daemon
//! serves, and whether the daemon blocks after those bytes instead of
//! closing. Every contract of the engine is stated against that model; an
//! unverified implementation over a real unix socket provides the trait in
//! production, and [`crate::scripted::ScriptedSocket`] provides a verified
//! in-memory implementation for exercising the engine.

use vstd::prelude::*;

verus! {

/// Socket path and per-connection timeouts. Both timeouts are positive.
pub struct Config {
    pub path: String,
    pub read_timeout_ms: u64,
    pub write_timeout_ms: u64,
}

impl Config {
    /// Invariant: both timeouts are positive.
    pub open spec fn wf(&self) -> bool {
        self.read_timeout_ms > 0 && self.write_timeout_ms > 0
    }

    /// The same configuration with the read timeout replaced, as the run
    /// phase does to bound execution time.
    pub fn with_read_timeout(&self, read_timeout_ms: u64) -> (r: Config)
        ensures
            r.path@ == self.path@,
            r.read_timeout_ms == read_timeout_ms,
            r.write_timeout_ms == self.write_timeout_ms,
    {
        Config {
            path: self.path.clone(),
            read_timeout_ms,
            write_timeout_ms: self.write_timeout_ms,
        }
    }
}

/// How a single read or write on an open stream failed.
#[derive(Clone, Copy, PartialEq, Eq, Structural, Debug)]
pub enum IoKind {
    /// The operation would have blocked past the configured timeout.
    WouldBlock,
    /// The peer closed the stream before enough bytes arrived.
    UnexpectedEof,
    /// Any other stream failure.
    Other,
}

/// A failed read or write: its kind, and a human-readable detail.
#[derive(Debug)]
pub struct IoFailure {
    pub kind: IoKind,
    pub message: String,
}

impl IoFailure {
    /// A failure of the given kind with no detail text.
    pub fn new(kind: IoKind) -> (r: IoFailure)
        ensures
            r.kind == kind,
    {
        IoFailure { kind, message: String::new() }
    }
}

/// Failure to open and configure a connection.
#[derive(Debug)]
pub enum Error {
    /// Could not connect to the socket.
    Connect(IoFailure),
    /// Could not set the read or write timeout.
    SetStreamTimeout(IoFailure),
}

/// In the model: how a planned connection answers the connect call.
pub ghost enum ConnectOutcome {
    /// The connection opens.
    Accept,
    /// Connecting fails.
    RefuseConnect,
    /// Connecting succeeds but setting timeouts fails.
    RefuseTimeout,
}

/// In the model: one planned connection of the daemon script.
pub ghost struct ConnPlan {
    /// How the connect call is answered.
    pub connect: ConnectOutcome,
    /// Whether writes are accepted (a refusal models a write timeout).
    pub accepts_writes: bool,
    /// The bytes the daemon serves on this connection.
    pub serves: Seq<u8>,
    /// After `serves` is exhausted: block (true) or close cleanly (false).
    pub blocks_after: bool,
}

/// In the model: the state of the open connection.
pub ghost struct LiveConn {
    /// The read timeout the connection was opened with, in milliseconds.
    pub read_timeout_ms: u64,
    /// Bytes the daemon still has to serve.
    pub serves: Seq<u8>,
    /// Whether the daemon blocks once `serves` is exhausted.
    pub blocks_after: bool,
    /// Whether writes are accepted.
    pub accepts_writes: bool,
    /// Everything written so far on this connection.
    pub wrote: Seq<u8>,
    /// Whether the write side has been shut down.
    pub write_closed: bool,
}

/// In the model: the trace left by a finished connection.
pub ghost struct ConnRecord {
    /// Everything that was written on the connection.
    pub wrote: Seq<u8>,
    /// The read timeout the connection was opened with, in milliseconds.
    pub read_timeout_ms: u64,
}

/// Index of the first line feed in `s`, if any.
pub open spec fn find_lf(s: Seq<u8>) -> Option<int>
    decreases s.len(),
{
    if s.len() == 0 {
        None
    } else if s[0] == 0x0A {
        Some(0)
    } else {
        match find_lf(s.drop_first()) {
            Some(j) => Some(j + 1),
            None => None,
        }
    }
}

/// The position found by [`find_lf`] is in range and holds a line feed,
/// and no earlier position does.
pub proof fn lemma_find_lf(s: Seq<u8>)
    ensures
        match find_lf(s) {
            Some(i) => 0 <= i < s.len() && s[i] == 0x0A && forall|j: int|
                0 <= j < i ==> s[j] != 0x0A,
            None => forall|j: int| 0 <= j < s.len() ==> s[j] != 0x0A,
        },
    decreases s.len(),
{
    if s.len() > 0 && s[0] != 0x0A {
        let t = s.drop_first();
        lemma_find_lf(t);
        match find_lf(t) {
            Some(i) => {
                assert(s[i + 1] == t[i]);
                assert forall|j: int| 0 <= j < i + 1 implies s[j] != 0x0A by {
                    if j > 0 {
                        assert(t[j - 1] == s[j]);
                    }
                }
            },
            None => {
                assert forall|j: int| 0 <= j < s.len() implies s[j] != 0x0A by {
                    if j > 0 {
                        assert(t[j - 1] == s[j]);
                    }
                }
            },
        }
    }
}

/// A connection to the Docker daemon, specified against a script of planned
/// connections. `future` holds the connections not yet made, `current` the
/// open one, `used` the trace of finished ones, oldest first.
pub trait StreamSocket {
    /// Planned connections not yet made. An implementation over a real
    /// socket has no script; it leaves these defaults in place, and
    /// nothing is proved about calls through it.
    open spec fn future(&self) -> Seq<ConnPlan> {
        Seq::<ConnPlan>::empty()
    }

    /// The open connection, if any.
    open spec fn current(&self) -> Option<LiveConn> {
        None
    }

    /// Finished connections, oldest first.
    open spec fn used(&self) -> Seq<ConnRecord> {
        Seq::<ConnRecord>::empty()
    }

    /// Opens the next planned connection with the given timeouts.
    fn connect(&mut self, config: &Config) -> (r: Result<(), Error>)
        requires
            old(self).current() is None,
        ensures
            match r {
                Ok(()) => old(self).future().len() > 0 && old(self).future()[0].connect
                    is Accept && final(self).current() == Some(
                    LiveConn {
                        read_timeout_ms: config.read_timeout_ms,
                        serves: old(self).future()[0].serves,
                        blocks_after: old(self).future()[0].blocks_after,
                        accepts_writes: old(self).future()[0].accepts_writes,
                        wrote: Seq::<u8>::empty(),
                        write_closed: false,
                    },
                ) && final(self).future() == old(self).future().drop_first() && final(self).used() == old(
                    self,
                ).used(),
                Err(e) => final(self).current() is None && if old(self).future().len() == 0 {
                    e is Connect && final(self).future() == old(self).future() && final(self).used() == old(
                        self,
                    ).used()
                } else {
                    !(old(self).future()[0].connect is Accept) && (e is Connect <==> old(
                        self,
                    ).future()[0].connect is RefuseConnect) && final(self).future() == old(
                        self,
                    ).future().drop_first() && final(self).used() == old(self).used().push(
                        ConnRecord {
                            wrote: Seq::<u8>::empty(),
                            read_timeout_ms: config.read_timeout_ms,
                        },
                    )
                },
            },
    ;

    /// Writes all of `data` to the open connection.
    fn write_all(&mut self, data: &[u8]) -> (r: Result<(), IoFailure>)
        requires
            old(self).current() is Some,
        ensures
            final(self).future() == old(self).future(),
            final(self).used() == old(self).used(),
            ({
                let c = old(self).current().unwrap();
                if c.accepts_writes && !c.write_closed {
                    r is Ok && final(self).current() == Some(
                        LiveConn { wrote: c.wrote + data@, ..c },
                    )
                } else {
                    r matches Err(e) && e.kind == IoKind::WouldBlock && final(self).current() == old(
                        self,
                    ).current()
                }
            }),
    ;

    /// Reads exactly `n` bytes from the open connection.
    fn read_exact(&mut self, n: usize) -> (r: Result<Vec<u8>, IoFailure>)
        requires
            old(self).current() is Some,
        ensures
            final(self).future() == old(self).future(),
            final(self).used() == old(self).used(),
            ({
                let c = old(self).current().unwrap();
                if n <= c.serves.len() {
                    r matches Ok(v) && v@ == c.serves.take(n as int) && final(self).current() == Some(
                        LiveConn { serves: c.serves.skip(n as int), ..c },
                    )
                } else {
                    r matches Err(e) && e.kind == (if c.blocks_after {
                        IoKind::WouldBlock
                    } else {
                        IoKind::UnexpectedEof
                    }) && final(self).current() == old(self).current()
                }
            }),
    ;

    /// Reads up to and including the next line feed. At a clean end of
    /// input the remaining bytes (possibly none) are returned; input that
    /// ends by blocking fails instead.
    fn read_line_lf(&mut self) -> (r: Result<Vec<u8>, IoFailure>)
        requires
            old(self).current() is Some,
        ensures
            final(self).future() == old(self).future(),
            final(self).used() == old(self).used(),
            ({
                let c = old(self).current().unwrap();
                match find_lf(c.serves) {
                    Some(i) => r matches Ok(v) && v@ == c.serves.take(i + 1) && final(self).current()
                        == Some(LiveConn { serves: c.serves.skip(i + 1), ..c }),
                    None => if c.blocks_after {
                        r matches Err(e) && e.kind == IoKind::WouldBlock && final(self).current() == old(
                            self,
                        ).current()
                    } else {
                        r matches Ok(v) && v@ == c.serves && final(self).current() == Some(
                            LiveConn { serves: Seq::<u8>::empty(), ..c },
                        )
                    },
                }
            }),
    ;

    /// Whether the open connection is at a clean end of input, determined
    /// by peeking one byte. Blocks (and fails) if the daemon blocks.
    fn at_eof(&mut self) -> (r: Result<bool, IoFailure>)
        requires
            old(self).current() is Some,
        ensures
            final(self).future() == old(self).future(),
            final(self).used() == old(self).used(),
            final(self).current() == old(self).current(),
            ({
                let c = old(self).current().unwrap();
                if c.serves.len() > 0 {
                    r matches Ok(b) && b == false
                } else if c.blocks_after {
                    r matches Err(e) && e.kind == IoKind::WouldBlock
                } else {
                    r matches Ok(b) && b == true
                }
            }),
    ;

    /// Shuts down the write side, so the peer observes end of input.
    fn shutdown_write(&mut self)
        requires
            old(self).current() is Some,
        ensures
            final(self).future() == old(self).future(),
            final(self).used() == old(self).used(),
            final(self).current() == Some(
                LiveConn { write_closed: true, ..old(self).current().unwrap() },
            ),
    ;

    /// Closes the open connection, recording what was written on it.
    fn close(&mut self)
        requires
            old(self).current() is Some,
        ensures
            final(self).current() is None,
            final(self).future() == old(self).future(),
            final(self).used() == old(self).used().push(
                ConnRecord {
                    wrote: old(self).current().unwrap().wrote,
                    read_timeout_ms: old(self).current().unwrap().read_timeout_ms,
                },
            ),
    ;
}

impl Error {
    /// A human-readable description of the failure.
    pub open spec fn message_spec(&self) -> Seq<char> {
        match self {
            Error::Connect(f) => "Failed to connect to docker unix socket: "@ + f.message@,
            Error::SetStreamTimeout(f) => "Failed set timeout on unix socket: "@ + f.message@,
        }
    }

    /// Describes the failure.
    pub fn message(&self) -> (r: String)
        ensures
            r@ == self.message_spec(),
    {
        match self {
            Error::Connect(f) => {
                let mut m = <String as vstd::string::StringExecFns>::from_str(
                    "Failed to connect to docker unix socket: ",
                );
                m.append( f.message.as_str());
                m
            },
            Error::SetStreamTimeout(f) => {
                let mut m = <String as vstd::string::StringExecFns>::from_str(
                    "Failed set timeout on unix socket: ",
                );
                m.append( f.message.as_str());
                m
            },
        }
    }
}

} // verus!
