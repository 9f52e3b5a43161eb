use vstd::prelude::*;
use crate::frame::{Frame, Opcode};

verus! {

/// Lifecycle phase of one upgraded connection.
#[derive(Clone, Copy, PartialEq, Eq, Structural, Debug)]
pub enum Phase {
    /// Frames are read and answered.
    Open,
    /// This side sent a Close and awaits the peer's Close.
    ClosingLocal,
    /// The peer sent a Close; its echo is owed before the end.
    ClosingRemote,
    /// Terminal: nothing is read or written any more.
    Closed,
}

/// The transient protocol state of one upgraded connection.
pub struct Connection {
    pub phase: Phase,
}

/// A frame as a pure value: what contracts say about frames.
pub ghost struct FrameView {
    pub fin: bool,
    pub opcode: Opcode,
    pub payload: Seq<u8>,
}

/// The value of an executable frame.
pub open spec fn fview(f: Frame) -> FrameView {
    FrameView { fin: f.fin, opcode: f.opcode, payload: f.payload@ }
}

/// The Pong that echoes a Ping carrying `payload`.
pub open spec fn pong_of(payload: Seq<u8>) -> FrameView {
    FrameView { fin: true, opcode: Opcode::Pong, payload }
}

/// The Close that echoes a received Close carrying `payload`.
pub open spec fn close_of(payload: Seq<u8>) -> FrameView {
    FrameView { fin: true, opcode: Opcode::Close, payload }
}

/// `reply` is exactly one Pong echoing `payload`.
pub open spec fn is_pong_echo(reply: Option<Frame>, payload: Seq<u8>) -> bool {
    match reply {
        Some(p) => fview(p) == pong_of(payload),
        None => false,
    }
}

/// `reply` is exactly one Close echoing `payload`.
pub open spec fn is_close_echo(reply: Option<Frame>, payload: Seq<u8>) -> bool {
    match reply {
        Some(p) => fview(p) == close_of(payload),
        None => false,
    }
}

/// Copy payload bytes.
fn copy_bytes(src: &Vec<u8>) -> (r: Vec<u8>)
    ensures
        r@ == src@,
{
    let mut r: Vec<u8> = Vec::new();
    let mut i: usize = 0;
    while i < src.len()
        invariant
            i <= src@.len(),
            r@ == src@.take(i as int),
        decreases src@.len() - i,
    {
        r.push(src[i]);
        proof {
            assert(src@.take(i as int) + seq![src@[i as int]] =~= src@.take(i as int + 1));
        }
        i = i + 1;
    }
    proof {
        assert(src@.take(src@.len() as int) =~= src@);
    }
    r
}

impl Connection {
    /// A freshly upgraded connection starts out open.
    pub fn new() -> (c: Connection)
        ensures
            c.phase == Phase::Open,
    {
        Connection { phase: Phase::Open }
    }

    /// Whether the connection has reached its terminal phase.
    pub fn is_closed(&self) -> (r: bool)
        ensures
            r == (self.phase == Phase::Closed),
    {
        self.phase == Phase::Closed
    }

    /// React to one inbound frame. Frames are only read while the
    /// connection is open or awaiting the peer's answer to its own Close:
    /// a Ping is answered by exactly one Pong echoing its payload; a Close
    /// received while open is answered by echoing it back, after which the
    /// connection is closing on the remote's initiative; every other frame
    /// is consumed without a reply. A Close received while closing locally
    /// completes the close handshake.
    pub fn on_frame(&mut self, f: &Frame) -> (reply: Option<Frame>)
        requires
            old(self).phase == Phase::Open || old(self).phase == Phase::ClosingLocal,
        ensures
            old(self).phase == Phase::Open && f.opcode == Opcode::Ping ==> final(self).phase
                == Phase::Open && is_pong_echo(reply, f.payload@),
            old(self).phase == Phase::Open && f.opcode == Opcode::Close ==> final(self).phase
                == Phase::ClosingRemote && is_close_echo(reply, f.payload@),
            old(self).phase == Phase::Open && f.opcode != Opcode::Ping && f.opcode
                != Opcode::Close ==> final(self).phase == Phase::Open && reply is None,
            old(self).phase == Phase::ClosingLocal && f.opcode == Opcode::Close
                ==> final(self).phase == Phase::Closed && reply is None,
            old(self).phase == Phase::ClosingLocal && f.opcode != Opcode::Close
                ==> final(self).phase == Phase::ClosingLocal && reply is None,
    {
        if self.phase == Phase::Open {
            if f.opcode == Opcode::Ping {
                Some(Frame { fin: true, opcode: Opcode::Pong, payload: copy_bytes(&f.payload) })
            } else if f.opcode == Opcode::Close {
                self.phase = Phase::ClosingRemote;
                Some(Frame { fin: true, opcode: Opcode::Close, payload: copy_bytes(&f.payload) })
            } else {
                None
            }
        } else {
            if f.opcode == Opcode::Close {
                self.phase = Phase::Closed;
            }
            None
        }
    }

    /// The echo Close owed after a remote Close has been written: the
    /// connection is now closed for good.
    pub fn close_sent(&mut self)
        requires
            old(self).phase == Phase::ClosingRemote,
        ensures
            final(self).phase == Phase::Closed,
    {
        self.phase = Phase::Closed;
    }

    /// Start a close from this side: the returned empty Close frame is to
    /// be sent, and the connection then awaits the peer's Close.
    pub fn initiate_close(&mut self) -> (f: Frame)
        requires
            old(self).phase == Phase::Open,
        ensures
            final(self).phase == Phase::ClosingLocal,
            fview(f) == close_of(Seq::<u8>::empty()),
    {
        self.phase = Phase::ClosingLocal;
        let f = Frame { fin: true, opcode: Opcode::Close, payload: Vec::new() };
        proof {
            assert(f.payload@ =~= Seq::<u8>::empty());
        }
        f
    }

    /// The transport failed or ended: the connection is dropped, with no
    /// close handshake.
    pub fn transport_failed(&mut self)
        ensures
            final(self).phase == Phase::Closed,
    {
        self.phase = Phase::Closed;
    }
}

/// Everything an open connection sends back for a sequence of inbound
/// frames, reading them in order until the first Close or the end: one
/// Pong per Ping, the echo of the first Close, nothing else.
pub open spec fn session_outputs(ins: Seq<FrameView>) -> Seq<FrameView>
    decreases ins.len(),
{
    if ins.len() == 0 {
        Seq::empty()
    } else if ins[0].opcode == Opcode::Close {
        seq![close_of(ins[0].payload)]
    } else if ins[0].opcode == Opcode::Ping {
        seq![pong_of(ins[0].payload)] + session_outputs(ins.skip(1))
    } else {
        session_outputs(ins.skip(1))
    }
}

/// How many inbound frames are read: everything up to and including the
/// first Close, or all of them when none closes.
pub open spec fn session_reads(ins: Seq<FrameView>) -> int
    decreases ins.len(),
{
    if ins.len() == 0 {
        0
    } else if ins[0].opcode == Opcode::Close {
        1
    } else {
        1 + session_reads(ins.skip(1))
    }
}

/// Whether the inbound sequence closes the connection.
pub open spec fn session_closes(ins: Seq<FrameView>) -> bool
    decreases ins.len(),
{
    if ins.len() == 0 {
        false
    } else if ins[0].opcode == Opcode::Close {
        true
    } else {
        session_closes(ins.skip(1))
    }
}

/// Drive one fresh connection over a sequence of inbound frames, as the
/// per-connection loop does: returns the frames sent in order, how many
/// inbound frames were read, and the connection, closed exactly when a
/// Close arrived.
pub fn run_session(inputs: &Vec<Frame>) -> (r: (Vec<Frame>, usize, Connection))
    ensures
        r.0@.map_values(|f: Frame| fview(f)) == session_outputs(
            inputs@.map_values(|f: Frame| fview(f)),
        ),
        r.1 as int == session_reads(inputs@.map_values(|f: Frame| fview(f))),
        r.2.phase == (if session_closes(inputs@.map_values(|f: Frame| fview(f))) {
            Phase::Closed
        } else {
            Phase::Open
        }),
{
    let ghost ins = inputs@.map_values(|f: Frame| fview(f));
    let mut conn = Connection::new();
    let mut sent: Vec<Frame> = Vec::new();
    let mut i: usize = 0;
    proof {
        assert(ins.skip(0) =~= ins);
    }
    while i < inputs.len()
        invariant
            ins == inputs@.map_values(|f: Frame| fview(f)),
            i <= ins.len(),
            conn.phase == Phase::Open,
            sent@.map_values(|f: Frame| fview(f)) + session_outputs(ins.skip(i as int))
                =~= session_outputs(ins),
            session_reads(ins) == i + session_reads(ins.skip(i as int)),
            session_closes(ins) == session_closes(ins.skip(i as int)),
        decreases ins.len() - i,
    {
        let f = &inputs[i];
        proof {
            assert(ins.skip(i as int)[0] == ins[i as int]);
            assert(ins[i as int] == fview(inputs@[i as int]));
            assert(ins.skip(i as int).skip(1) =~= ins.skip(i as int + 1));
        }
        let reply = conn.on_frame(f);
        let is_close = f.opcode == Opcode::Close;
        match reply {
            Some(rf) => {
                proof {
                    assert((sent@.push(rf)).map_values(|g: Frame| fview(g)) =~= sent@.map_values(
                        |g: Frame| fview(g),
                    ).push(fview(rf)));
                }
                sent.push(rf);
            },
            None => {},
        }
        i = i + 1;
        if is_close {
            conn.close_sent();
            proof {
                assert(sent@.map_values(|g: Frame| fview(g)) =~= session_outputs(ins));
                assert(session_reads(ins) == i as int);
                assert(session_closes(ins));
            }
            return (sent, i, conn);
        }
    }
    proof {
        assert(ins.skip(i as int) =~= Seq::<FrameView>::empty());
        assert(sent@.map_values(|g: Frame| fview(g)) =~= session_outputs(ins));
    }
    (sent, i, conn)
}

/// The number of Close frames in a sequence.
pub open spec fn count_closes(outs: Seq<FrameView>) -> int
    decreases outs.len(),
{
    if outs.len() == 0 {
        0
    } else {
        (if outs[0].opcode == Opcode::Close {
            1int
        } else {
            0int
        }) + count_closes(outs.skip(1))
    }
}

/// Every Ping gets exactly one Pong: a session whose inbound frames are
/// all Pings answers with exactly one Pong per Ping, in order, each
/// echoing its Ping's payload, and nothing else.
pub proof fn lemma_ping_pong_echo(ins: Seq<FrameView>)
    requires
        forall|i: int| 0 <= i < ins.len() ==> ins[i].opcode == Opcode::Ping,
    ensures
        session_outputs(ins).len() == ins.len(),
        forall|i: int|
            0 <= i < ins.len() ==> session_outputs(ins)[i] == pong_of(ins[i].payload),
    decreases ins.len(),
{
    if ins.len() > 0 {
        assert(ins[0].opcode == Opcode::Ping);
        assert(forall|i: int| 0 <= i < ins.skip(1).len() ==> ins.skip(1)[i] == ins[i + 1]);
        lemma_ping_pong_echo(ins.skip(1));
        assert forall|i: int| 0 <= i < ins.len() implies session_outputs(ins)[i] == pong_of(
            ins[i].payload,
        ) by {
            if i > 0 {
                assert(session_outputs(ins)[i] == session_outputs(ins.skip(1))[i - 1]);
                assert(ins.skip(1)[i - 1] == ins[i]);
            }
        }
    }
}

/// A Close terminates the session: when some inbound frame is a Close,
/// the frames up to the first Close are read and nothing after it, and
/// exactly one Close is sent back.
pub proof fn lemma_close_terminates(ins: Seq<FrameView>)
    requires
        session_closes(ins),
    ensures
        1 <= session_reads(ins) <= ins.len(),
        ins[session_reads(ins) - 1].opcode == Opcode::Close,
        forall|k: int| 0 <= k < session_reads(ins) - 1 ==> ins[k].opcode != Opcode::Close,
        count_closes(session_outputs(ins)) == 1,
    decreases ins.len(),
{
    if ins[0].opcode == Opcode::Close {
        let outs = session_outputs(ins);
        assert(outs =~= seq![close_of(ins[0].payload)]);
        assert(outs.skip(1) =~= Seq::<FrameView>::empty());
        assert(count_closes(outs.skip(1)) == 0);
        assert(count_closes(outs) == 1);
    } else {
        lemma_close_terminates(ins.skip(1));
        let tail = ins.skip(1);
        assert(forall|i: int| 0 <= i < tail.len() ==> tail[i] == ins[i + 1]);
        assert(session_reads(ins) == 1 + session_reads(tail));
        assert(ins[session_reads(ins) - 1] == tail[session_reads(tail) - 1]);
        assert forall|k: int| 0 <= k < session_reads(ins) - 1 implies ins[k].opcode
            != Opcode::Close by {
            if k > 0 {
                assert(ins[k] == tail[k - 1]);
                assert(tail[k - 1].opcode != Opcode::Close);
            }
        }
        let outs = session_outputs(ins);
        if ins[0].opcode == Opcode::Ping {
            assert(outs == seq![pong_of(ins[0].payload)] + session_outputs(tail));
            assert(outs.skip(1) =~= session_outputs(tail));
            assert(outs[0] == pong_of(ins[0].payload));
            assert(count_closes(outs) == count_closes(session_outputs(tail)));
        } else {
            assert(outs == session_outputs(tail));
        }
    }
}

/// A session none of whose inbound frames is a Close reads them all and
/// never sends a Close.
pub proof fn lemma_no_close_no_close_sent(ins: Seq<FrameView>)
    requires
        !session_closes(ins),
    ensures
        session_reads(ins) == ins.len(),
        count_closes(session_outputs(ins)) == 0,
    decreases ins.len(),
{
    if ins.len() > 0 {
        lemma_no_close_no_close_sent(ins.skip(1));
        if ins[0].opcode == Opcode::Ping {
            let outs = session_outputs(ins);
            assert(outs == seq![pong_of(ins[0].payload)] + session_outputs(ins.skip(1)));
            assert(outs.skip(1) =~= session_outputs(ins.skip(1)));
        }
    }
}

} // verus!

