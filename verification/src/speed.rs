//! Short burst over the tunnel transport to estimate the Type-C / Thunderbolt
//! *link* capacity. This is not an Internet speed test: the packets never
//! leave the two machines.
//!
//! Protocol (guest is the initiator, host the responder):
//! 1. Guest pushes [`Frame::SpeedChunk`]s then [`Frame::SpeedDone`].
//! 2. Host replies [`Frame::SpeedResult`] (guest → host) and immediately
//!    pushes its own burst the other way.
//! 3. Guest replies [`Frame::SpeedResult`] (host → guest).
//!
//! An old peer that does not speak these frames simply ignores them (host)
//! or times out (guest); the tunnel continues either way.
//!
//! [`Probe`] is the protocol of one side as a state machine: its caller asks
//! [`Probe::work`] what to do, writes or reads, and reports what was read to
//! [`Probe::received`].

use crate::buffer;
use crate::frame::{Frame, FrameKind, FrameView};
use vstd::prelude::*;

verus! {

/// Tunables of one burst. Production values fill the pipe for a fraction of
/// a second; tests use [`Params::for_tests`].
#[derive(Clone, Copy, Debug, PartialEq, Eq, Structural)]
pub struct Params {
    /// Size of each [`Frame::SpeedChunk`] payload.
    pub chunk: usize,
    /// Stop sending once this much wall time in nanoseconds has elapsed (and at
    /// least one chunk has gone out).
    pub budget_nanos: u64,
    /// Hard cap on payload bytes per direction.
    pub max_bytes: u64,
    /// How long the host waits for the guest to start the test, in
    /// milliseconds. On timeout it proceeds with the tunnel.
    pub idle_ms: u64,
    /// How long either side waits for the next expected frame, in milliseconds.
    pub timeout_ms: u64,
}

impl Default for Params {
    fn default() -> (r: Self)
        ensures
            r == (Params {
                chunk: 32768,
                budget_nanos: 280_000_000,
                max_bytes: 16_777_216,
                idle_ms: 200,
                timeout_ms: 3_000,
            }),
            r.wf(),
    {
        Params {
            chunk: 32 * 1024,
            budget_nanos: 280_000_000,
            max_bytes: 16 * 1024 * 1024,
            idle_ms: 200,
            timeout_ms: 3_000,
        }
    }
}

impl Params {
    /// Tiny burst so that tests on an in-memory duplex finish in milliseconds.
    pub fn for_tests() -> (r: Self)
        ensures
            r == (Params {
                chunk: 1024,
                budget_nanos: 30_000_000,
                max_bytes: 4096,
                idle_ms: 80,
                timeout_ms: 1_000,
            }),
            r.wf(),
    {
        Params {
            chunk: 1024,
            budget_nanos: 30_000_000,
            max_bytes: 4 * 1024,
            idle_ms: 80,
            timeout_ms: 1_000,
        }
    }

    /// Bytes in a chunk: at least one.
    pub open spec fn chunk_len(self) -> nat {
        if self.chunk == 0 {
            1
        } else {
            self.chunk as nat
        }
    }

    /// The byte counts of a burst fit their fields.
    pub open spec fn wf(self) -> bool {
        &&& self.max_bytes + self.chunk_len() <= u64::MAX
        &&& 4 * self.chunk_len() <= u64::MAX
    }
}

/// Result of one link-capacity probe: the bytes of each direction and how long
/// they took. Eight times the bytes over the seconds is the rate; a duration of
/// zero stands for no rate.
#[derive(Clone, Copy, Debug, PartialEq, Eq, Structural)]
pub struct LinkSpeed {
    /// Guest → host.
    pub up_bytes: u64,
    pub up_nanos: u64,
    /// Host → guest.
    pub down_bytes: u64,
    pub down_nanos: u64,
}

/// Failures of a speed probe. The tunnel is only in trouble when the
/// connection itself died (`Codec` / `Closed`).
#[derive(Clone, Copy, Debug, PartialEq, Eq, Structural)]
pub enum SpeedError {
    Timeout,
    Closed,
    Unexpected(FrameKind),
    Codec,
}

/// What reading the next frame gave.
#[derive(Debug)]
pub enum Received {
    Frame(Frame),
    /// The transport or the codec failed.
    Failed,
    /// The peer closed the connection.
    Closed,
    /// Nothing came in time.
    TimedOut,
}

/// [`Received`] with the frame's buffers taken as byte sequences.
pub enum ReceivedView {
    Frame(FrameView),
    Failed,
    Closed,
    TimedOut,
}

impl View for Received {
    type V = ReceivedView;

    open spec fn view(&self) -> ReceivedView {
        match *self {
            Received::Frame(f) => ReceivedView::Frame(f@),
            Received::Failed => ReceivedView::Failed,
            Received::Closed => ReceivedView::Closed,
            Received::TimedOut => ReceivedView::TimedOut,
        }
    }
}

/// The frame that was read, or why there is none; a `Bye` is an end.
pub open spec fn next_frame(r: ReceivedView) -> Result<FrameView, SpeedError> {
    match r {
        ReceivedView::TimedOut => Err(SpeedError::Timeout),
        ReceivedView::Closed => Err(SpeedError::Closed),
        ReceivedView::Failed => Err(SpeedError::Codec),
        ReceivedView::Frame(f) => if f == FrameView::Bye {
            Err(SpeedError::Closed)
        } else {
            Ok(f)
        },
    }
}

/// Which side of the probe this is.
#[derive(Clone, Copy, Debug, PartialEq, Eq, Structural)]
pub enum Role {
    Initiator,
    Responder,
}

/// Where a probe stands.
#[derive(Clone, Copy, Debug, PartialEq, Eq, Structural)]
pub enum Phase {
    /// The responder waits for the first frame.
    Idle,
    /// A burst is going out; so many bytes have.
    Sending(u64),
    /// The peer's measurement of our burst is due.
    AwaitResult,
    /// The first frame of the peer's burst is due.
    AwaitFirst,
    /// The peer's burst is coming in: bytes so far, and when the first came.
    Receiving { bytes: u64, started: Option<u64> },
    /// Both directions were measured.
    Measured,
    /// The guest never started the test; carry on with the tunnel.
    Skipped,
    Failed(SpeedError),
}

/// What the caller does next.
#[derive(Clone, Copy, Debug, PartialEq, Eq, Structural)]
pub enum Work {
    /// Write one chunk of this many bytes, and flush if asked to.
    Chunk { len: u64, flush: bool },
    /// Flush and write a `SpeedDone` with this count.
    Done(u64),
    /// Read a frame, waiting at most this long.
    Read { wait_ms: u64 },
    /// The probe is over.
    Stop,
}

/// What a probe does with a frame.
#[derive(Clone, Copy, Debug, PartialEq, Eq, Structural)]
pub enum Reply {
    Nothing,
    /// Answer a keep-alive.
    Pong(u64),
    /// Tell the peer what its burst measured.
    Result { bytes: u64, nanos: u64 },
    /// The frame was not part of a test: it belongs to the regular pump.
    HandOver,
}

/// One side of a link-capacity probe.
#[derive(Clone, Copy, Debug, PartialEq, Eq, Structural)]
pub struct Probe {
    pub role: Role,
    pub params: Params,
    pub phase: Phase,
    pub speed: LinkSpeed,
}

/// The next action of a burst of which `sent` bytes are out: another chunk, or
/// the end once the cap is reached or, after the first chunk, the time is up.
pub open spec fn burst_work(p: Params, sent: u64, elapsed: u64) -> Work {
    if sent >= p.max_bytes || (sent > 0 && elapsed >= p.budget_nanos) {
        Work::Done(sent)
    } else {
        Work::Chunk {
            len: p.chunk_len() as u64,
            flush: (sent as nat + p.chunk_len()) % (4 * p.chunk_len()) == 0,
        }
    }
}

impl Probe {
    /// The state before anything was sent or read.
    pub open spec fn start(role: Role, params: Params) -> Probe {
        Probe {
            role,
            params,
            phase: match role {
                Role::Initiator => Phase::Sending(0),
                Role::Responder => Phase::Idle,
            },
            speed: LinkSpeed { up_bytes: 0, up_nanos: 0, down_bytes: 0, down_nanos: 0 },
        }
    }

    /// The byte counts fit their fields.
    pub open spec fn wf(self) -> bool {
        &&& self.params.wf()
        &&& self.phase matches Phase::Sending(sent) ==> sent < self.params.max_bytes
            + self.params.chunk_len()
    }

    /// What the caller does, and the state once it has.
    pub open spec fn spec_work(self, elapsed: u64) -> (Probe, Work) {
        match self.phase {
            Phase::Idle => (self, Work::Read { wait_ms: self.params.idle_ms }),
            Phase::Sending(sent) => {
                let w = burst_work(self.params, sent, elapsed);
                let phase = match w {
                    Work::Chunk { len, .. } => Phase::Sending((sent + len) as u64),
                    _ => Phase::AwaitResult,
                };
                (Probe { phase, ..self }, w)
            },
            Phase::AwaitResult | Phase::AwaitFirst | Phase::Receiving { .. } => (
                self,
                Work::Read { wait_ms: self.params.timeout_ms },
            ),
            _ => (self, Work::Stop),
        }
    }

    /// The peer's burst has been measured.
    pub open spec fn burst_measured(self, bytes: u64, nanos: u64) -> Probe {
        match self.role {
            Role::Initiator => Probe {
                phase: Phase::Measured,
                speed: LinkSpeed { down_bytes: bytes, down_nanos: nanos, ..self.speed },
                ..self
            },
            Role::Responder => Probe {
                phase: Phase::Sending(0),
                speed: LinkSpeed { up_bytes: bytes, up_nanos: nanos, ..self.speed },
                ..self
            },
        }
    }

    /// The peer has told what our burst measured.
    pub open spec fn result_told(self, bytes: u64, nanos: u64) -> Probe {
        match self.role {
            Role::Initiator => Probe {
                phase: Phase::AwaitFirst,
                speed: LinkSpeed { up_bytes: bytes, up_nanos: nanos, ..self.speed },
                ..self
            },
            Role::Responder => Probe {
                phase: Phase::Measured,
                speed: LinkSpeed { down_bytes: bytes, down_nanos: nanos, ..self.speed },
                ..self
            },
        }
    }

    /// The state and the reply after a frame of the expected kind.
    pub open spec fn on_frame(self, f: FrameView, now: u64) -> (Probe, Reply) {
        let unexpected = (
            Probe { phase: Phase::Failed(SpeedError::Unexpected(f.kind())), ..self },
            Reply::Nothing,
        );
        match self.phase {
            Phase::Idle => match f {
                FrameView::SpeedChunk(p) => (
                    Probe {
                        phase: Phase::Receiving { bytes: p.len() as u64, started: Some(now) },
                        ..self
                    },
                    Reply::Nothing,
                ),
                FrameView::SpeedDone(_) => (
                    Probe { phase: Phase::Receiving { bytes: 0, started: None }, ..self },
                    Reply::Nothing,
                ),
                _ => (Probe { phase: Phase::Skipped, ..self }, Reply::HandOver),
            },
            Phase::AwaitResult => match f {
                FrameView::SpeedResult { bytes, nanos } => (
                    self.result_told(bytes, nanos),
                    Reply::Nothing,
                ),
                _ => unexpected,
            },
            Phase::AwaitFirst => match f {
                FrameView::SpeedChunk(p) => (
                    Probe {
                        phase: Phase::Receiving { bytes: p.len() as u64, started: Some(now) },
                        ..self
                    },
                    Reply::Nothing,
                ),
                FrameView::SpeedDone(_) => (
                    Probe { phase: Phase::Receiving { bytes: 0, started: None }, ..self },
                    Reply::Nothing,
                ),
                _ => unexpected,
            },
            Phase::Receiving { bytes, started } => match f {
                FrameView::SpeedChunk(p) => (
                    Probe {
                        phase: Phase::Receiving {
                            bytes: (bytes + p.len()) as u64,
                            started: Some(
                                match started {
                                    Some(s) => s,
                                    None => now,
                                },
                            ),
                        },
                        ..self
                    },
                    Reply::Nothing,
                ),
                FrameView::SpeedDone(_) => {
                    let nanos = match started {
                        Some(s) => if now >= s {
                            (now - s) as u64
                        } else {
                            0
                        },
                        None => 0,
                    };
                    (self.burst_measured(bytes, nanos), Reply::Result { bytes, nanos })
                },
                FrameView::Ping(t) => (self, Reply::Pong(t)),
                FrameView::Pong(_) => (self, Reply::Nothing),
                _ => unexpected,
            },
            _ => (self, Reply::Nothing),
        }
    }

    /// The state and the reply after a read. While the responder is idle,
    /// running out of time only means that the guest did not want a test.
    pub open spec fn spec_received(self, r: ReceivedView, now: u64) -> (Probe, Reply) {
        match self.phase {
            Phase::Idle | Phase::AwaitResult | Phase::AwaitFirst | Phase::Receiving { .. } => {
                match next_frame(r) {
                    Ok(f) => self.on_frame(f, now),
                    Err(e) => if self.phase == Phase::Idle && e == SpeedError::Timeout {
                        (Probe { phase: Phase::Skipped, ..self }, Reply::Nothing)
                    } else {
                        (Probe { phase: Phase::Failed(e), ..self }, Reply::Nothing)
                    },
                }
            },
            _ => (self, Reply::Nothing),
        }
    }

    /// Starts a probe.
    pub fn new(role: Role, params: Params) -> (r: Self)
        requires
            params.wf(),
        ensures
            r == Probe::start(role, params),
            r.wf(),
    {
        Probe {
            role,
            params,
            phase: match role {
                Role::Initiator => Phase::Sending(0),
                Role::Responder => Phase::Idle,
            },
            speed: LinkSpeed { up_bytes: 0, up_nanos: 0, down_bytes: 0, down_nanos: 0 },
        }
    }

    /// What to do now; `elapsed` is the time in nanoseconds since the burst
    /// began to go out.
    pub fn work(&mut self, elapsed: u64) -> (w: Work)
        requires
            old(self).wf(),
        ensures
            (*final(self), w) == old(self).spec_work(elapsed),
            final(self).wf(),
    {
        match self.phase {
            Phase::Idle => Work::Read { wait_ms: self.params.idle_ms },
            Phase::Sending(sent) => {
                let chunk: u64 = if self.params.chunk == 0 {
                    1
                } else {
                    self.params.chunk as u64
                };
                if sent >= self.params.max_bytes || (sent > 0 && elapsed
                    >= self.params.budget_nanos) {
                    self.phase = Phase::AwaitResult;
                    Work::Done(sent)
                } else {
                    let total: u64 = sent + chunk;
                    self.phase = Phase::Sending(total);
                    Work::Chunk { len: chunk, flush: total % (4 * chunk) == 0 }
                }
            },
            Phase::AwaitResult | Phase::AwaitFirst | Phase::Receiving { .. } => Work::Read {
                wait_ms: self.params.timeout_ms,
            },
            Phase::Measured | Phase::Skipped | Phase::Failed(_) => Work::Stop,
        }
    }

    /// Takes what was read at `now`.
    pub fn received(&mut self, r: &Received, now: u64) -> (reply: Reply)
        requires
            old(self).wf(),
            old(self).phase matches Phase::Receiving { bytes, .. } ==> (
            r@ matches ReceivedView::Frame(FrameView::SpeedChunk(p)) ==> bytes + p.len()
                <= u64::MAX),
        ensures
            (*final(self), reply) == old(self).spec_received(r@, now),
            final(self).wf(),
    {
        match self.phase {
            Phase::Sending(_) | Phase::Measured | Phase::Skipped | Phase::Failed(_) => {
                return Reply::Nothing;
            },
            _ => {},
        }
        let frame = match r {
            Received::TimedOut => {
                self.phase = if self.phase == Phase::Idle {
                    Phase::Skipped
                } else {
                    Phase::Failed(SpeedError::Timeout)
                };
                return Reply::Nothing;
            },
            Received::Closed | Received::Frame(Frame::Bye) => {
                self.phase = Phase::Failed(SpeedError::Closed);
                return Reply::Nothing;
            },
            Received::Failed => {
                self.phase = Phase::Failed(SpeedError::Codec);
                return Reply::Nothing;
            },
            Received::Frame(f) => f,
        };
        match (self.phase, frame) {
            (Phase::Idle, Frame::SpeedChunk(p)) | (Phase::AwaitFirst, Frame::SpeedChunk(p)) => {
                let bytes: u64 = buffer::bytes_len(p) as u64;
                self.phase = Phase::Receiving { bytes, started: Some(now) };
                Reply::Nothing
            },
            (Phase::Idle, Frame::SpeedDone(_)) | (Phase::AwaitFirst, Frame::SpeedDone(_)) => {
                self.phase = Phase::Receiving { bytes: 0, started: None };
                Reply::Nothing
            },
            (Phase::Idle, _) => {
                self.phase = Phase::Skipped;
                Reply::HandOver
            },
            (Phase::AwaitResult, Frame::SpeedResult { bytes, nanos }) => {
                match self.role {
                    Role::Initiator => {
                        self.speed.up_bytes = *bytes;
                        self.speed.up_nanos = *nanos;
                        self.phase = Phase::AwaitFirst;
                    },
                    Role::Responder => {
                        self.speed.down_bytes = *bytes;
                        self.speed.down_nanos = *nanos;
                        self.phase = Phase::Measured;
                    },
                }
                Reply::Nothing
            },
            (Phase::Receiving { bytes, started }, Frame::SpeedChunk(p)) => {
                let more: u64 = buffer::bytes_len(p) as u64;
                let since: u64 = match started {
                    Some(s) => s,
                    None => now,
                };
                self.phase = Phase::Receiving { bytes: bytes + more, started: Some(since) };
                Reply::Nothing
            },
            (Phase::Receiving { bytes, started }, Frame::SpeedDone(_)) => {
                let nanos: u64 = match started {
                    Some(s) => if now >= s {
                        now - s
                    } else {
                        0
                    },
                    None => 0,
                };
                match self.role {
                    Role::Initiator => {
                        self.speed.down_bytes = bytes;
                        self.speed.down_nanos = nanos;
                        self.phase = Phase::Measured;
                    },
                    Role::Responder => {
                        self.speed.up_bytes = bytes;
                        self.speed.up_nanos = nanos;
                        self.phase = Phase::Sending(0);
                    },
                }
                Reply::Result { bytes, nanos }
            },
            (Phase::Receiving { .. }, Frame::Ping(t)) => Reply::Pong(*t),
            (Phase::Receiving { .. }, Frame::Pong(_)) => Reply::Nothing,
            (_, other) => {
                self.phase = Phase::Failed(SpeedError::Unexpected(other.kind()));
                Reply::Nothing
            },
        }
    }
}

/// A burst ends: as long as chunks go out the bytes left under the cap shrink,
/// and when none are left the burst is announced as done. The first chunk goes
/// out whatever the time, and only whole chunks count.
pub proof fn a_burst_ends(p: Params, sent: u64, elapsed: u64)
    requires
        p.wf(),
        sent < p.max_bytes + p.chunk_len(),
        sent as nat % p.chunk_len() == 0,
    ensures
        match burst_work(p, sent, elapsed) {
            Work::Chunk { len, .. } => {
                &&& sent < p.max_bytes
                &&& len > 0
                &&& sent + len < p.max_bytes + p.chunk_len()
                &&& ((sent + len) as nat) % p.chunk_len() == 0
            },
            Work::Done(n) => n == sent && (sent >= p.max_bytes || sent > 0),
            _ => false,
        },
{
    let c = p.chunk_len();
    vstd::arithmetic::div_mod::lemma_mod_add_multiples_vanish(sent as int, c as int);
}

/// Both sides keep the same figures: what the receiver of a burst measured is
/// what it tells, and what it tells is what the sender of the burst keeps.
pub proof fn both_sides_keep_the_same_figures(
    receiver: Probe,
    sender: Probe,
    count: u64,
    now: u64,
    later: u64,
)
    requires
        receiver.role != sender.role,
        receiver.phase is Receiving,
        sender.phase == Phase::AwaitResult,
    ensures
        ({
            let (r, reply) = receiver.on_frame(FrameView::SpeedDone(count), now);
            match reply {
                Reply::Result { bytes, nanos } => {
                    let (s, _) = sender.on_frame(FrameView::SpeedResult { bytes, nanos }, later);
                    match sender.role {
                        Role::Initiator => s.speed.up_bytes == r.speed.up_bytes && s.speed.up_nanos
                            == r.speed.up_nanos,
                        Role::Responder => s.speed.down_bytes == r.speed.down_bytes
                            && s.speed.down_nanos == r.speed.down_nanos,
                    }
                },
                _ => false,
            }
        }),
{
}

/// The bytes in some chunks.
pub open spec fn total_len(chunks: Seq<Seq<u8>>) -> nat
    decreases chunks.len(),
{
    if chunks.len() == 0 {
        0
    } else {
        total_len(chunks.drop_last()) + chunks.last().len()
    }
}

/// The state after some chunks came in, all at `now`.
pub open spec fn after_chunks(p: Probe, chunks: Seq<Seq<u8>>, now: u64) -> Probe
    decreases chunks.len(),
{
    if chunks.len() == 0 {
        p
    } else {
        after_chunks(p, chunks.drop_last(), now).on_frame(
            FrameView::SpeedChunk(chunks.last()),
            now,
        ).0
    }
}

/// The bytes of a burst are those of its chunks.
pub proof fn chunks_add_up(p: Probe, chunks: Seq<Seq<u8>>, now: u64)
    requires
        p.phase matches Phase::Receiving { bytes, .. } && bytes + total_len(chunks) <= u64::MAX,
    ensures
        after_chunks(p, chunks, now).phase matches Phase::Receiving { bytes, .. } && bytes
            == p.phase->Receiving_bytes + total_len(chunks),
    decreases chunks.len(),
{
    if chunks.len() > 0 {
        chunks_add_up(p, chunks.drop_last(), now);
    }
}

/// A guest that does not start a test costs nothing but the wait: the host
/// carries on, and a frame that came instead is handed to the regular pump.
pub proof fn no_test_is_no_failure(p: Probe, r: ReceivedView, now: u64)
    requires
        p.phase == Phase::Idle,
    ensures
        r == ReceivedView::TimedOut ==> p.spec_received(r, now).0.phase == Phase::Skipped,
        r matches ReceivedView::Frame(f) ==> (f.kind() != FrameKind::Bye && f.kind()
            != FrameKind::SpeedChunk && f.kind() != FrameKind::SpeedDone ==> p.spec_received(
            r,
            now,
        ).0.phase == Phase::Skipped && p.spec_received(r, now).1 == Reply::HandOver),
{
}

/// A chunk and when it came, in nanoseconds.
pub struct Arrival {
    pub chunk: Seq<u8>,
    pub at: u64,
}

/// The state after some chunks came in.
pub open spec fn after_arrivals(p: Probe, chunks: Seq<Arrival>) -> Probe
    decreases chunks.len(),
{
    if chunks.len() == 0 {
        p
    } else {
        after_arrivals(p, chunks.drop_last()).spec_received(
            ReceivedView::Frame(FrameView::SpeedChunk(chunks.last().chunk)),
            chunks.last().at,
        ).0
    }
}

/// The bytes in some chunks.
pub open spec fn arrived(chunks: Seq<Arrival>) -> nat
    decreases chunks.len(),
{
    if chunks.len() == 0 {
        0
    } else {
        arrived(chunks.drop_last()) + chunks.last().chunk.len()
    }
}

proof fn arrivals_are_kept(p: Probe, chunks: Seq<Arrival>)
    requires
        p.phase == Phase::Idle || p.phase == Phase::AwaitFirst,
        chunks.len() > 0,
        arrived(chunks) <= u64::MAX,
    ensures
        after_arrivals(p, chunks) == (Probe {
            phase: Phase::Receiving {
                bytes: arrived(chunks) as u64,
                started: Some(chunks[0].at),
            },
            ..p
        }),
    decreases chunks.len(),
{
    let front = chunks.drop_last();
    reveal_with_fuel(after_arrivals, 2);
    reveal_with_fuel(arrived, 2);
    if front.len() > 0 {
        arrivals_are_kept(p, front);
        assert(front[0] == chunks[0]);
    } else {
        assert(chunks.last() == chunks[0]);
    }
}

/// A burst is measured from its first chunk to its end: however many chunks
/// come in, and whatever the sender claims to have sent, the result is the bytes
/// that came and the time from the first chunk to the `SpeedDone`. The result is
/// told to the sender and kept for the direction of the burst. The host then
/// sends its own; the guest is done.
pub proof fn a_burst_is_timed_from_its_first_chunk(
    p: Probe,
    chunks: Seq<Arrival>,
    claimed: u64,
    end: u64,
)
    requires
        p.phase == Phase::Idle || p.phase == Phase::AwaitFirst,
        chunks.len() > 0,
        arrived(chunks) <= u64::MAX,
        chunks[0].at <= end,
    ensures
        ({
            let (after, reply) = after_arrivals(p, chunks).spec_received(
                ReceivedView::Frame(FrameView::SpeedDone(claimed)),
                end,
            );
            let took = (end - chunks[0].at) as u64;
            let came = arrived(chunks) as u64;
            &&& reply == Reply::Result { bytes: came, nanos: took }
            &&& p.role == Role::Responder ==> {
                &&& after.phase == Phase::Sending(0)
                &&& after.speed == LinkSpeed { up_bytes: came, up_nanos: took, ..p.speed }
            }
            &&& p.role == Role::Initiator ==> {
                &&& after.phase == Phase::Measured
                &&& after.speed == LinkSpeed { down_bytes: came, down_nanos: took, ..p.speed }
            }
        }),
{
    arrivals_are_kept(p, chunks);
}

/// Keep-alives may come in between: a `Ping` is answered with its token, and
/// neither it nor a `Pong` disturbs the burst.
pub proof fn keepalives_do_not_disturb_a_burst(p: Probe, token: u64, now: u64)
    requires
        p.phase is Receiving,
    ensures
        p.spec_received(ReceivedView::Frame(FrameView::Ping(token)), now) == (
            p,
            Reply::Pong(token),
        ),
        p.spec_received(ReceivedView::Frame(FrameView::Pong(token)), now) == (p, Reply::Nothing),
{
}

/// The bytes of a burst that goes out are counted: a chunk adds its own length,
/// which is the configured one, and the end announces just what went out and
/// waits for the result. The first chunk always goes out if any may; then chunks
/// go out until the cap or the time is reached, and no longer.
pub proof fn a_burst_goes_out(p: Probe, sent: u64, elapsed: u64)
    requires
        p.wf(),
        p.phase == Phase::Sending(sent),
    ensures
        ({
            let (after, work) = p.spec_work(elapsed);
            let more = sent < p.params.max_bytes && (sent == 0 || elapsed < p.params.budget_nanos);
            &&& more ==> (work matches Work::Chunk { len, .. } && len == p.params.chunk_len()
                && after == Probe { phase: Phase::Sending((sent + len) as u64), ..p })
            &&& !more ==> work == Work::Done(sent) && after == (Probe {
                phase: Phase::AwaitResult,
                ..p
            })
        }),
        p.params.chunk > 0 ==> p.params.chunk_len() == p.params.chunk,
        p.params.chunk_len() > 0,
{
}

/// What is written is flushed with every fourth chunk.
pub proof fn every_fourth_chunk_is_flushed(p: Params, chunks: nat, elapsed: u64)
    requires
        p.wf(),
        chunks * p.chunk_len() <= u64::MAX,
        burst_work(p, (chunks * p.chunk_len()) as u64, elapsed) is Chunk,
    ensures
        burst_work(p, (chunks * p.chunk_len()) as u64, elapsed)->flush <==> (chunks + 1) % 4 == 0,
{
    let c = p.chunk_len() as int;
    let n = chunks as int;
    assert(n * c + c == (n + 1) * c) by (nonlinear_arith);
    vstd::arithmetic::mul::lemma_mul_is_commutative(n + 1, c);
    vstd::arithmetic::mul::lemma_mul_is_commutative(4, c);
    vstd::arithmetic::div_mod::lemma_truncate_middle(n + 1, c, 4);
    let r = (n + 1) % 4;
    assert(c * r == 0 <==> r == 0) by (nonlinear_arith)
        requires
            c > 0,
            r >= 0,
    ;
}

/// While something is due it is waited for, for as long as the parameters say;
/// a probe that is over has nothing more to do.
pub proof fn what_is_due_is_waited_for(p: Probe, elapsed: u64)
    ensures
        p.phase == Phase::Idle ==> p.spec_work(elapsed) == (
            p,
            Work::Read { wait_ms: p.params.idle_ms },
        ),
        p.phase == Phase::AwaitResult || p.phase == Phase::AwaitFirst || p.phase is Receiving
            ==> p.spec_work(elapsed) == (p, Work::Read { wait_ms: p.params.timeout_ms }),
        p.phase == Phase::Measured || p.phase == Phase::Skipped || p.phase is Failed
            ==> p.spec_work(elapsed) == (p, Work::Stop),
{
}

/// What the peer says of our burst is kept for the direction that we sent in:
/// the guest's is up, the host's is down. The guest then waits for the host's
/// burst; the host is done.
pub proof fn the_result_is_kept(p: Probe, bytes: u64, nanos: u64, now: u64)
    requires
        p.phase == Phase::AwaitResult,
    ensures
        ({
            let told = ReceivedView::Frame(FrameView::SpeedResult { bytes, nanos });
            let (after, reply) = p.spec_received(told, now);
            &&& reply == Reply::Nothing
            &&& p.role == Role::Initiator ==> {
                &&& after.phase == Phase::AwaitFirst
                &&& after.speed == LinkSpeed { up_bytes: bytes, up_nanos: nanos, ..p.speed }
            }
            &&& p.role == Role::Responder ==> {
                &&& after.phase == Phase::Measured
                &&& after.speed == LinkSpeed { down_bytes: bytes, down_nanos: nanos, ..p.speed }
            }
        }),
{
}

/// The guest begins, with its burst; the host waits for it.
pub proof fn the_guest_begins(params: Params)
    ensures
        Probe::start(Role::Initiator, params).phase == Phase::Sending(0),
        Probe::start(Role::Responder, params).phase == Phase::Idle,
        Probe::start(Role::Initiator, params).speed == (LinkSpeed {
            up_bytes: 0,
            up_nanos: 0,
            down_bytes: 0,
            down_nanos: 0,
        }),
        Probe::start(Role::Responder, params).speed == Probe::start(
            Role::Initiator,
            params,
        ).speed,
{
}

/// A test that is under way fails for what happened: the connection ended or
/// failed, nothing came in time, or a frame came that has no place there.
pub proof fn a_test_fails_for_a_reason(p: Probe, f: FrameView, now: u64)
    requires
        p.phase == Phase::AwaitResult || p.phase == Phase::AwaitFirst || p.phase is Receiving,
    ensures
        p.spec_received(ReceivedView::TimedOut, now).0.phase == Phase::Failed(SpeedError::Timeout),
        p.spec_received(ReceivedView::Closed, now).0.phase == Phase::Failed(SpeedError::Closed),
        p.spec_received(ReceivedView::Failed, now).0.phase == Phase::Failed(SpeedError::Codec),
        p.spec_received(ReceivedView::Frame(FrameView::Bye), now).0.phase == Phase::Failed(
            SpeedError::Closed,
        ),
        f is Hello || f is Config || f is IpPacket ==> p.spec_received(
            ReceivedView::Frame(f),
            now,
        ).0.phase == Phase::Failed(SpeedError::Unexpected(f.kind())),
{
}

/// Without a test that has begun, the end of the connection is still one.
pub proof fn an_idle_host_notices_the_end(p: Probe, now: u64)
    requires
        p.phase == Phase::Idle,
    ensures
        p.spec_received(ReceivedView::Closed, now).0.phase == Phase::Failed(SpeedError::Closed),
        p.spec_received(ReceivedView::Failed, now).0.phase == Phase::Failed(SpeedError::Codec),
        p.spec_received(ReceivedView::Frame(FrameView::Bye), now).0.phase == Phase::Failed(
            SpeedError::Closed,
        ),
{
}

/// Whatever does not belong to the test where it comes fails it.
pub proof fn what_does_not_belong_fails_the_test(p: Probe, f: FrameView, now: u64)
    requires
        !(f is Bye),
    ensures
        ({
            let (after, reply) = p.spec_received(ReceivedView::Frame(f), now);
            let failed = after == (Probe {
                phase: Phase::Failed(SpeedError::Unexpected(f.kind())),
                ..p
            }) && reply == Reply::Nothing;
            &&& p.phase == Phase::AwaitResult ==> (failed <==> !(f is SpeedResult))
            &&& p.phase == Phase::AwaitFirst ==> (failed <==> !(f is SpeedChunk) && !(
            f is SpeedDone))
            &&& p.phase is Receiving ==> (failed <==> !(f is SpeedChunk) && !(f is SpeedDone) && !(
            f is Ping) && !(f is Pong))
        }),
{
}

/// An end before the first chunk begins a burst that has nothing yet; its clock
/// starts with the first chunk that comes.
pub proof fn an_early_end_begins_the_burst(p: Probe, claimed: u64, chunk: Seq<u8>, now: u64)
    ensures
        p.phase == Phase::Idle || p.phase == Phase::AwaitFirst ==> p.spec_received(
            ReceivedView::Frame(FrameView::SpeedDone(claimed)),
            now,
        ) == (
            Probe { phase: Phase::Receiving { bytes: 0, started: None }, ..p },
            Reply::Nothing,
        ),
        p.phase == (Phase::Receiving { bytes: 0, started: None }) && chunk.len() <= u64::MAX ==> {
            &&& p.spec_received(ReceivedView::Frame(FrameView::SpeedChunk(chunk)), now).0.phase == (
            Phase::Receiving { bytes: chunk.len() as u64, started: Some(now) })
            &&& p.spec_received(ReceivedView::Frame(FrameView::SpeedDone(claimed)), now).1 == (
            Reply::Result { bytes: 0, nanos: 0 })
        },
{
}

/// A test that is over, and one that is sending, is not changed by what comes.
pub proof fn what_comes_late_changes_nothing(p: Probe, r: ReceivedView, now: u64)
    requires
        p.phase is Sending || p.phase is Measured || p.phase is Skipped || p.phase is Failed,
    ensures
        p.spec_received(r, now) == (p, Reply::Nothing),
{
}

} // verus!
