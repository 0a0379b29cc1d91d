//! A verified in-memory implementation of [`StreamSocket`], driven by an
//! explicit script of planned connections. It stands in for the Docker
//! daemon when exercising the engine.

use vstd::prelude::*;

use crate::unix_stream::{
    Config, ConnPlan, ConnRecord, ConnectOutcome, Error, IoFailure, IoKind, LiveConn, StreamSocket,
    find_lf, lemma_find_lf,
};

verus! {

/// How a planned connection answers the connect call.
pub enum PlannedConnect {
    /// The connection opens.
    Accept,
    /// Connecting fails.
    RefuseConnect,
    /// Connecting succeeds but setting timeouts fails.
    RefuseTimeout,
}

/// One planned connection: what the daemon does on it.
pub struct ScriptedConn {
    /// How the connect call is answered.
    pub connect: PlannedConnect,
    /// Whether writes are accepted.
    pub accepts_writes: bool,
    /// The bytes served on this connection.
    pub serves: Vec<u8>,
    /// After `serves` is exhausted: block (true) or close cleanly (false).
    pub blocks_after: bool,
}

impl ScriptedConn {
    /// The planned connection as the model sees it.
    pub open spec fn plan(&self) -> ConnPlan {
        ConnPlan {
            connect: match self.connect {
                PlannedConnect::Accept => ConnectOutcome::Accept,
                PlannedConnect::RefuseConnect => ConnectOutcome::RefuseConnect,
                PlannedConnect::RefuseTimeout => ConnectOutcome::RefuseTimeout,
            },
            accepts_writes: self.accepts_writes,
            serves: self.serves@,
            blocks_after: self.blocks_after,
        }
    }

    /// A connection that accepts writes, serves `serves`, then closes.
    pub fn serving(serves: Vec<u8>) -> (r: ScriptedConn)
        ensures
            r.plan() == (ConnPlan {
                connect: ConnectOutcome::Accept,
                accepts_writes: true,
                serves: serves@,
                blocks_after: false,
            }),
    {
        ScriptedConn {
            connect: PlannedConnect::Accept,
            accepts_writes: true,
            serves,
            blocks_after: false,
        }
    }

    /// A connection that accepts writes, serves `serves`, then blocks.
    pub fn serving_then_blocking(serves: Vec<u8>) -> (r: ScriptedConn)
        ensures
            r.plan() == (ConnPlan {
                connect: ConnectOutcome::Accept,
                accepts_writes: true,
                serves: serves@,
                blocks_after: true,
            }),
    {
        ScriptedConn {
            connect: PlannedConnect::Accept,
            accepts_writes: true,
            serves,
            blocks_after: true,
        }
    }
}

/// The open scripted connection.
pub struct OpenConn {
    /// The read timeout the connection was opened with, in milliseconds.
    pub read_timeout_ms: u64,
    /// Bytes still to be served, next byte first.
    pub serves: Vec<u8>,
    /// Whether reads block once `serves` is exhausted.
    pub blocks_after: bool,
    /// Whether writes are accepted.
    pub accepts_writes: bool,
    /// Everything written so far.
    pub wrote: Vec<u8>,
    /// Whether the write side has been shut down.
    pub write_closed: bool,
}

/// A scripted stand-in for the daemon socket: connections are answered from
/// `plans`, in order, and the bytes written on finished connections are
/// collected in `finished`.
pub struct ScriptedSocket {
    /// Planned connections not yet made, next first.
    pub plans: Vec<ScriptedConn>,
    /// The open connection, if any.
    pub open_conn: Option<OpenConn>,
    /// What was written on each finished connection, with the read
    /// timeout it was opened with, oldest first.
    pub finished: Vec<(Vec<u8>, u64)>,
}

impl ScriptedSocket {
    /// A socket that will answer connections from `plans`, in order.
    pub fn new(plans: Vec<ScriptedConn>) -> (r: ScriptedSocket)
        ensures
            r.future() == plans@.map_values(|p: ScriptedConn| p.plan()),
            r.current() is None,
            r.used() == Seq::<ConnRecord>::empty(),
    {
        let r = ScriptedSocket { plans, open_conn: None, finished: Vec::new() };
        proof {
            assert(r.used() =~= Seq::<ConnRecord>::empty());
        }
        r
    }
}

/// Removes and returns the first `n` bytes of `v`.
fn take_front(v: &mut Vec<u8>, n: usize) -> (r: Vec<u8>)
    requires
        n <= old(v)@.len(),
    ensures
        r@ == old(v)@.take(n as int),
        final(v)@ == old(v)@.skip(n as int),
{
    let mut head: Vec<u8> = Vec::new();
    let mut i: usize = 0;
    while i < n
        invariant
            0 <= i <= n <= v@.len(),
            v@ == old(v)@,
            head@ == v@.take(i as int),
        decreases n - i,
    {
        head.push(v[i]);
        proof {
            assert(v@.take(i as int + 1) =~= v@.take(i as int).push(v@[i as int]));
        }
        i = i + 1;
    }
    let mut tail: Vec<u8> = Vec::new();
    let mut j: usize = n;
    while j < v.len()
        invariant
            n <= j <= v@.len(),
            v@ == old(v)@,
            tail@ == v@.subrange(n as int, j as int),
        decreases v@.len() - j,
    {
        tail.push(v[j]);
        proof {
            assert(v@.subrange(n as int, j as int + 1) =~= v@.subrange(n as int, j as int).push(
                v@[j as int],
            ));
        }
        j = j + 1;
    }
    proof {
        assert(tail@ =~= old(v)@.skip(n as int));
    }
    *v = tail;
    head
}

/// Appends all of `data` to `v`.
fn append_bytes(v: &mut Vec<u8>, data: &[u8])
    ensures
        final(v)@ == old(v)@ + data@,
{
    let mut i: usize = 0;
    while i < data.len()
        invariant
            0 <= i <= data@.len(),
            v@ == old(v)@ + data@.take(i as int),
        decreases data@.len() - i,
    {
        v.push(data[i]);
        proof {
            assert(old(v)@ + data@.take(i as int + 1) =~= (old(v)@ + data@.take(i as int)).push(
                data@[i as int],
            ));
        }
        i = i + 1;
    }
    proof {
        assert(old(v)@ + data@.take(data@.len() as int) =~= old(v)@ + data@);
    }
}

impl StreamSocket for ScriptedSocket {
    open spec fn future(&self) -> Seq<ConnPlan> {
        self.plans@.map_values(|p: ScriptedConn| p.plan())
    }

    open spec fn current(&self) -> Option<LiveConn> {
        match self.open_conn {
            Some(o) => Some(
                LiveConn {
                    read_timeout_ms: o.read_timeout_ms,
                    serves: o.serves@,
                    blocks_after: o.blocks_after,
                    accepts_writes: o.accepts_writes,
                    wrote: o.wrote@,
                    write_closed: o.write_closed,
                },
            ),
            None => None,
        }
    }

    open spec fn used(&self) -> Seq<ConnRecord> {
        self.finished@.map_values(
            |w: (Vec<u8>, u64)| ConnRecord { wrote: w.0@, read_timeout_ms: w.1 },
        )
    }

    fn connect(&mut self, config: &Config) -> (r: Result<(), Error>) {
        if self.plans.len() == 0 {
            return Err(Error::Connect(IoFailure::new(IoKind::Other)));
        }
        let plan = self.plans.remove(0);
        proof {
            let f = |p: ScriptedConn| p.plan();
            assert(self.plans@.map_values(f) =~= old(self).plans@.map_values(f).drop_first());
            assert(old(self).future()[0] == plan.plan());
        }
        match plan.connect {
            PlannedConnect::Accept => {
                self.open_conn = Some(
                    OpenConn {
                        read_timeout_ms: config.read_timeout_ms,
                        serves: plan.serves,
                        blocks_after: plan.blocks_after,
                        accepts_writes: plan.accepts_writes,
                        wrote: Vec::new(),
                        write_closed: false,
                    },
                );
                Ok(())
            },
            PlannedConnect::RefuseConnect => {
                self.finished.push((Vec::new(), config.read_timeout_ms));
                proof {
                    let g = |w: (Vec<u8>, u64)| ConnRecord { wrote: w.0@, read_timeout_ms: w.1 };
                    assert(self.finished@.map_values(g) =~= old(self).finished@.map_values(g).push(
                        ConnRecord {
                            wrote: Seq::<u8>::empty(),
                            read_timeout_ms: config.read_timeout_ms,
                        },
                    ));
                }
                Err(Error::Connect(IoFailure::new(IoKind::Other)))
            },
            PlannedConnect::RefuseTimeout => {
                self.finished.push((Vec::new(), config.read_timeout_ms));
                proof {
                    let g = |w: (Vec<u8>, u64)| ConnRecord { wrote: w.0@, read_timeout_ms: w.1 };
                    assert(self.finished@.map_values(g) =~= old(self).finished@.map_values(g).push(
                        ConnRecord {
                            wrote: Seq::<u8>::empty(),
                            read_timeout_ms: config.read_timeout_ms,
                        },
                    ));
                }
                Err(Error::SetStreamTimeout(IoFailure::new(IoKind::Other)))
            },
        }
    }

    fn write_all(&mut self, data: &[u8]) -> (r: Result<(), IoFailure>) {
        if let Some(o) = &mut self.open_conn {
            if o.accepts_writes && !o.write_closed {
                append_bytes(&mut o.wrote, data);
                Ok(())
            } else {
                Err(IoFailure::new(IoKind::WouldBlock))
            }
        } else {
            proof {
                assert(false);
            }
            Err(IoFailure::new(IoKind::Other))
        }
    }

    fn read_exact(&mut self, n: usize) -> (r: Result<Vec<u8>, IoFailure>) {
        if let Some(o) = &mut self.open_conn {
            if n <= o.serves.len() {
                let head = take_front(&mut o.serves, n);
                Ok(head)
            } else if o.blocks_after {
                Err(IoFailure::new(IoKind::WouldBlock))
            } else {
                Err(IoFailure::new(IoKind::UnexpectedEof))
            }
        } else {
            proof {
                assert(false);
            }
            Err(IoFailure::new(IoKind::Other))
        }
    }

    fn read_line_lf(&mut self) -> (r: Result<Vec<u8>, IoFailure>) {
        if let Some(o) = &mut self.open_conn {
            let mut i: usize = 0;
            while i < o.serves.len() && o.serves[i] != 0x0A
                invariant
                    0 <= i <= o.serves@.len(),
                    forall|j: int| 0 <= j < i ==> o.serves@[j] != 0x0A,
                decreases o.serves@.len() - i,
            {
                i = i + 1;
            }
            proof {
                lemma_find_lf(o.serves@);
            }
            if i < o.serves.len() {
                // serves[i] is the first line feed.
                proof {
                    match find_lf(o.serves@) {
                        Some(k) => {
                            if k < i {
                            } else if k > i {
                            }
                            assert(k == i);
                        },
                        None => {
                            assert(false);
                        },
                    }
                }
                let head = take_front(&mut o.serves, i + 1);
                Ok(head)
            } else {
                // No line feed in the remaining bytes.
                proof {
                    match find_lf(o.serves@) {
                        Some(k) => {
                            assert(false);
                        },
                        None => {},
                    }
                }
                if o.blocks_after {
                    Err(IoFailure::new(IoKind::WouldBlock))
                } else {
                    let len = o.serves.len();
                    let head = take_front(&mut o.serves, len);
                    proof {
                        assert(head@ =~= old(self).current().unwrap().serves);
                        assert(o.serves@ =~= Seq::<u8>::empty());
                    }
                    Ok(head)
                }
            }
        } else {
            proof {
                assert(false);
            }
            Err(IoFailure::new(IoKind::Other))
        }
    }

    fn at_eof(&mut self) -> (r: Result<bool, IoFailure>) {
        if let Some(o) = &self.open_conn {
            if o.serves.len() > 0 {
                Ok(false)
            } else if o.blocks_after {
                Err(IoFailure::new(IoKind::WouldBlock))
            } else {
                Ok(true)
            }
        } else {
            proof {
                assert(false);
            }
            Err(IoFailure::new(IoKind::Other))
        }
    }

    fn shutdown_write(&mut self) {
        if let Some(o) = &mut self.open_conn {
            o.write_closed = true;
        } else {
            proof {
                assert(false);
            }
        }
    }

    fn close(&mut self) {
        let o = self.open_conn.take();
        if let Some(o) = o {
            self.finished.push((o.wrote, o.read_timeout_ms));
            proof {
                let g = |w: (Vec<u8>, u64)| ConnRecord { wrote: w.0@, read_timeout_ms: w.1 };
                assert(self.finished@.map_values(g) =~= old(self).finished@.map_values(g).push(
                    ConnRecord {
                        wrote: old(self).current().unwrap().wrote,
                        read_timeout_ms: old(self).current().unwrap().read_timeout_ms,
                    },
                ));
            }
        } else {
            proof {
                assert(false);
            }
        }
    }
}

} // verus!
