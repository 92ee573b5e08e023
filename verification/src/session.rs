//! One guest session on the host: handshake, frame pump, keep-alive and the
//! writer.
//!
//! ```text
//!   guest ──TCP/serial──▶ frames ─┬─ IpPacket ──▶ IP stack ──▶ flows ──▶ real sockets
//!                                 ├─ Ping ──────▶ Pong
//!                                 └─ Bye
//!   guest ◀──TCP/serial── frames ◀── writer ◀── {control frames, IpPackets from the stack}
//! ```

use crate::frame::{Frame, FrameView};
use crate::host::{GuestInfo, HostEvent, Shared};
use crate::net::Endpoint;
use crate::speed::{LinkSpeed, Phase, Probe, SpeedError};
use crate::text;
use crate::PROTOCOL_VERSION;
use vstd::prelude::*;
use vstd::string::StringExecFns;

verus! {

/// Time the guest gets to send its `Hello`, in milliseconds.
pub const HANDSHAKE_TIMEOUT_MS: u64 = 5_000;

/// Keep-alive interval, in milliseconds.
pub const PING_INTERVAL_MS: u64 = 10_000;

/// Consecutive unanswered pings after which the guest is considered gone.
pub const MAX_MISSED_PINGS: u32 = 3;

/// Packets queued in each direction between the frame pump and the stack.
pub const PACKET_QUEUE: usize = 1024;

/// Frames that one flush may cover besides the first.
pub const WRITE_BATCH: u32 = 64;

/// Outcome of validating the guest's first frame.
#[derive(Debug, PartialEq, Eq)]
pub enum HelloCheck {
    /// Valid `Hello`; carries the guest name.
    Accept(String),
    /// Reject with a human readable reason (a `Bye` is sent).
    Reject(String),
}

/// Why the first frame is not accepted, or `None` if it is.
pub open spec fn hello_fault(first: Option<Result<Frame, String>>) -> Option<Seq<char>> {
    match first {
        Some(Ok(f)) => match f {
            Frame::Hello { version, name } => if version == PROTOCOL_VERSION {
                None
            } else {
                Some(
                    "protocol version mismatch (guest "@ + text::dec(version as nat) + ", host "@
                        + text::dec(PROTOCOL_VERSION as nat) + ")"@,
                )
            },
            _ => Some("expected Hello, got "@ + f@.kind().spec_name()),
        },
        Some(Err(e)) => Some("frame error: "@ + e@),
        None => Some("connection closed before Hello"@),
    }
}

/// Pure handshake decision: the first frame must be a `Hello` with our
/// protocol version. An error is described by its text.
pub fn check_hello(first: Option<Result<Frame, String>>) -> (r: HelloCheck)
    ensures
        match r {
            HelloCheck::Accept(n) => hello_fault(first) is None && (first matches Some(
                Ok(Frame::Hello { version, name }),
            ) && name == n),
            HelloCheck::Reject(reason) => hello_fault(first) == Some(reason@),
        },
{
    match first {
        Some(Ok(Frame::Hello { version, name })) => {
            if version == PROTOCOL_VERSION {
                HelloCheck::Accept(name)
            } else {
                let mut s = text::cat3(
                    "protocol version mismatch (guest ",
                    text::decimal(version as u64).as_str(),
                    ", host ",
                );
                s.append(text::decimal(PROTOCOL_VERSION as u64).as_str());
                s.append(")");
                HelloCheck::Reject(s)
            }
        },
        Some(Ok(other)) => HelloCheck::Reject(
            text::cat2("expected Hello, got ", other.kind().name()),
        ),
        Some(Err(e)) => HelloCheck::Reject(text::cat2("frame error: ", e.as_str())),
        None => HelloCheck::Reject("connection closed before Hello".to_owned()),
    }
}

/// Frames the host answers a valid `Hello` with.
pub open spec fn welcome(shared: Shared) -> Seq<FrameView> {
    seq![
        FrameView::Hello { version: PROTOCOL_VERSION, name: shared.host_name@ },
        FrameView::Config(shared.tunnel),
    ]
}

/// What some frames say.
pub open spec fn frames_view(v: Seq<Frame>) -> Seq<FrameView> {
    v.map_values(|f: Frame| f@)
}

/// Frames the host answers a valid `Hello` with.
pub fn hello_reply(shared: &Shared) -> (r: Vec<Frame>)
    ensures
        frames_view(r@) == welcome(*shared),
{
    let mut r: Vec<Frame> = Vec::new();
    r.push(Frame::Hello { version: PROTOCOL_VERSION, name: shared.host_name.clone() });
    r.push(Frame::Config(shared.tunnel));
    assert(frames_view(r@) =~= welcome(*shared));
    r
}

/// What came while the host waits for a `Hello`.
#[derive(Debug)]
pub enum Opening {
    Frame(Frame),
    /// The transport or the codec failed.
    Failed(String),
    /// The peer closed the connection.
    Closed,
    /// Nothing came in time.
    TimedOut,
    /// The host is shutting down.
    Cancelled,
}

/// What the host does about it.
#[derive(Debug)]
pub enum Greeting {
    /// Send these frames: the guest of this name is welcome.
    Welcome { name: String, replies: Vec<Frame> },
    /// Send the frame (a `Bye`), waiting at most so long if a limit is given,
    /// and give up.
    Dismiss { reason: String, reply: Frame, bye_limit_ms: Option<u64> },
    /// Log the text, send the frame (a `Bye`), and wait on.
    Refuse { log: String, reply: Frame },
    /// Wait on.
    Ignore,
    /// Give up without a word.
    Abandon { reason: String },
    /// Stop waiting, in order.
    Stop,
}

/// The first frame as the handshake decision takes it.
pub open spec fn as_first(o: Opening) -> Option<Result<Frame, String>> {
    match o {
        Opening::Frame(f) => Some(Ok(f)),
        Opening::Failed(e) => Some(Err(e)),
        _ => None,
    }
}

/// What a handshake with a limited wait comes to: a guest that says `Hello` in
/// time and in our version is welcome, anybody else is sent away.
pub open spec fn handshake_outcome(shared: Shared, o: Opening, g: Greeting) -> bool {
    match o {
        Opening::TimedOut => g matches Greeting::Dismiss { reason, reply, bye_limit_ms } && reason@
            == "handshake timed out"@ && reply == Frame::Bye && bye_limit_ms is None,
        Opening::Cancelled => g is Stop,
        _ => match hello_fault(as_first(o)) {
            None => (g matches Greeting::Welcome { name, replies } && frames_view(replies@)
                == welcome(shared) && (o matches Opening::Frame(Frame::Hello { name: n, .. }) && n
                == name)),
            Some(fault) => g matches Greeting::Dismiss { reason, reply, bye_limit_ms } && reason@
                == fault && reply == Frame::Bye && bye_limit_ms == Some(1000u64),
        },
    }
}

/// Runs the handshake on what came first.
pub fn handshake(shared: &Shared, o: Opening) -> (g: Greeting)
    ensures
        handshake_outcome(*shared, o, g),
{
    let first = match o {
        Opening::TimedOut => {
            return Greeting::Dismiss {
                reason: "handshake timed out".to_owned(),
                reply: Frame::Bye,
                bye_limit_ms: None,
            };
        },
        Opening::Cancelled => {
            return Greeting::Stop;
        },
        Opening::Frame(f) => Some(Ok(f)),
        Opening::Failed(e) => Some(Err(e)),
        Opening::Closed => None,
    };
    match check_hello(first) {
        HelloCheck::Accept(name) => Greeting::Welcome { name, replies: hello_reply(shared) },
        HelloCheck::Reject(reason) => Greeting::Dismiss {
            reason,
            reply: Frame::Bye,
            bye_limit_ms: Some(1000),
        },
    }
}

/// What one event comes to while waiting, without a limit, for a `Hello` on a
/// link that stays open between sessions (serial): frames that are not a
/// `Hello` are leftovers of an earlier session or noise; a `Hello` of another
/// version is refused and the wait goes on.
pub open spec fn wait_outcome(shared: Shared, o: Opening, g: Greeting) -> bool {
    match o {
        Opening::Cancelled => g is Stop,
        Opening::Closed => g matches Greeting::Abandon { reason } && reason@ == "link closed"@,
        Opening::Failed(e) => g matches Greeting::Abandon { reason } && reason@ == "read error: "@
            + e@,
        Opening::TimedOut => g is Ignore,
        Opening::Frame(f) => match f {
            Frame::Hello { version, name } => match hello_fault(Some(Ok(f))) {
                None => g matches Greeting::Welcome { name: n, replies } && n == name
                    && frames_view(replies@) == welcome(shared),
                Some(fault) => g matches Greeting::Refuse { log, reply } && log@
                    == "serial guest rejected: "@ + fault && reply == Frame::Bye,
            },
            _ => g is Ignore,
        },
    }
}

/// Takes what came while waiting for a `Hello` on a link that stays open.
pub fn wait_for_hello(shared: &Shared, o: Opening) -> (g: Greeting)
    ensures
        wait_outcome(*shared, o, g),
{
    match o {
        Opening::Cancelled => Greeting::Stop,
        Opening::Closed => Greeting::Abandon { reason: "link closed".to_owned() },
        Opening::Failed(e) => Greeting::Abandon { reason: text::cat2("read error: ", e.as_str()) },
        Opening::TimedOut => Greeting::Ignore,
        Opening::Frame(Frame::Hello { version, name }) => {
            match check_hello(Some(Ok(Frame::Hello { version, name }))) {
                HelloCheck::Accept(name) => Greeting::Welcome {
                    name,
                    replies: hello_reply(shared),
                },
                HelloCheck::Reject(reason) => Greeting::Refuse {
                    log: text::cat2("serial guest rejected: ", reason.as_str()),
                    reply: Frame::Bye,
                },
            }
        },
        Opening::Frame(_) => Greeting::Ignore,
    }
}

/// The tunnel configuration is given to nobody who has not said `Hello` in our
/// protocol version.
pub proof fn only_our_version_is_welcome(shared: Shared, o: Opening, g: Greeting)
    requires
        handshake_outcome(shared, o, g) || wait_outcome(shared, o, g),
        g is Welcome,
    ensures
        o matches Opening::Frame(Frame::Hello { version, .. }) && version == PROTOCOL_VERSION,
{
}

// From the handshake to the end.

/// What follows on a handshake that succeeded.
#[derive(Debug)]
pub enum Admission {
    /// Another guest holds the slot: log the text and send the frame (a `Bye`).
    Busy { log: String, reply: Frame },
    /// Report the guest and log the text; then pump.
    Serve { event: HostEvent, log: String },
}

/// The line about a guest that came too late.
pub open spec fn busy_text(name: Seq<char>, peer: Endpoint, active: Endpoint) -> Seq<char> {
    "rejecting guest \""@ + name + "\" from "@ + peer.spec_text() + ": "@ + active.spec_text()
        + " is already connected"@
}

/// The line about a guest that is served.
pub open spec fn connected_text(shared: Shared, name: Seq<char>, peer: Endpoint) -> Seq<char> {
    "guest \""@ + name + "\" connected from "@ + peer.spec_text() + ", assigned "@
        + shared.tunnel.guest_ip.spec_text() + "/"@ + text::dec(shared.tunnel.prefix_len as nat)
}

/// What a handshake that succeeded comes to: the guest is served if the slot is
/// free, and sent away otherwise.
pub open spec fn admitted(
    shared: Shared,
    peer: Endpoint,
    name: String,
    now: u64,
    a: Admission,
) -> bool {
    match a {
        Admission::Busy { log, reply } => shared.guest is Some && log@ == busy_text(
            name@,
            peer,
            shared.guest->0,
        ) && reply == Frame::Bye,
        Admission::Serve { event, log } => {
            &&& shared.guest is None
            &&& event == HostEvent::GuestConnected(
                GuestInfo {
                    peer,
                    name,
                    connected_at: now,
                    assigned_ip: shared.tunnel.guest_ip,
                },
            )
            &&& log@ == connected_text(shared, name@, peer)
        },
    }
}

/// Claims the single guest slot for a guest that has shaken hands.
pub fn serve_connected(shared: &mut Shared, peer: &Endpoint, name: &String, now: u64) -> (r: Admission)
    ensures
        *final(shared) == old(shared).claimed(*peer).0,
        admitted(*old(shared), *peer, *name, now, r),
{
    if !shared.claim_guest(peer) {
        let mut log = text::cat3("rejecting guest \"", name.as_str(), "\" from ");
        log.append(peer.text().as_str());
        log.append(": ");
        match &shared.guest {
            Some(active) => {
                log.append(active.text().as_str());
            },
            None => {},
        }
        log.append(" is already connected");
        return Admission::Busy { log, reply: Frame::Bye };
    }
    let mut log = text::cat3("guest \"", name.as_str(), "\" connected from ");
    log.append(peer.text().as_str());
    log.append(", assigned ");
    log.append(shared.tunnel.guest_ip.text().as_str());
    log.append("/");
    log.append(text::decimal(shared.tunnel.prefix_len as u64).as_str());
    let event = HostEvent::GuestConnected(
        GuestInfo {
            peer: peer.copy(),
            name: name.clone(),
            connected_at: now,
            assigned_ip: shared.tunnel.guest_ip,
        },
    );
    Admission::Serve { event, log }
}

/// The end of a session: the slot is freed, and the end is logged and reported.
pub fn end_session(shared: &mut Shared, peer: &Endpoint, name: &str, reason: &String) -> (r: (
    String,
    HostEvent,
))
    ensures
        *final(shared) == old(shared).released(*peer),
        r.0@ == "guest \""@ + name@ + "\" ("@ + peer.spec_text() + ") disconnected: "@ + reason@,
        r.1 == (HostEvent::GuestDisconnected { peer: *peer, reason: *reason }),
{
    shared.release_guest(peer);
    let mut log = text::cat3("guest \"", name, "\" (");
    log.append(peer.text().as_str());
    log.append(") disconnected: ");
    log.append(reason.as_str());
    (log, HostEvent::GuestDisconnected { peer: peer.copy(), reason: reason.clone() })
}

/// The line about a guest whose handshake failed.
pub fn rejected_line(peer: &Endpoint, reason: &str) -> (r: String)
    ensures
        r@ == "guest "@ + peer.spec_text() + " rejected: "@ + reason@,
{
    let mut s = text::cat3("guest ", peer.text().as_str(), " rejected: ");
    s.append(reason);
    s
}

// The link-capacity probe.

/// What follows on the link-capacity probe of a guest.
#[derive(Debug)]
pub enum AfterProbe {
    /// Both directions were measured: report the figures and pump.
    Report(LinkSpeed),
    /// There was no test, or it failed on a connection that is alive: pump.
    CarryOn,
    /// The connection died: the session ends for this reason.
    End(String),
}

/// Why a failed probe ends the session, if it does: the tunnel is only in
/// trouble when the connection itself died.
pub open spec fn probe_ends(phase: Phase, detail: Seq<char>) -> Option<Seq<char>> {
    match phase {
        Phase::Failed(e) => if e == SpeedError::Closed || e == SpeedError::Codec {
            Some("link capacity probe: "@ + e.spec_text(detail))
        } else {
            None
        },
        _ => None,
    }
}

/// What follows on a probe that is over; `detail` is what the codec said.
pub fn after_probe(probe: &Probe, detail: &str) -> (r: AfterProbe)
    ensures
        match r {
            AfterProbe::Report(speed) => probe.phase == Phase::Measured && speed == probe.speed,
            AfterProbe::CarryOn => probe.phase != Phase::Measured && probe_ends(
                probe.phase,
                detail@,
            ) is None,
            AfterProbe::End(reason) => probe_ends(probe.phase, detail@) == Some(reason@),
        },
{
    match probe.phase {
        Phase::Measured => AfterProbe::Report(probe.speed),
        Phase::Failed(e) => {
            if e == SpeedError::Closed || e == SpeedError::Codec {
                AfterProbe::End(text::cat2("link capacity probe: ", e.text(detail).as_str()))
            } else {
                AfterProbe::CarryOn
            }
        },
        _ => AfterProbe::CarryOn,
    }
}

// The frame pump.

/// Something that happened while a guest is served.
#[derive(Debug)]
pub enum PumpEvent {
    /// The host is shutting down.
    Cancelled,
    Frame(Frame),
    ReadFailed(String),
    Closed,
    /// The keep-alive timer fired.
    PingTick,
    /// The IP stack stopped.
    StackFailed(String),
    WriteFailed(String),
    WriterDone,
    WriterDied(String),
}

/// What the caller does about it.
#[derive(Debug)]
pub enum PumpAction {
    Nothing,
    /// Count the packet as received and hand it to the stack; if its queue is
    /// full the packet is dropped.
    ToStack,
    /// Queue an answer to a keep-alive.
    Pong(u64),
    /// Queue a keep-alive carrying the time.
    Ping,
    /// End the session for this reason: stop the flows, send a `Bye`, stop the
    /// stack and the writer.
    End(String),
}

/// The reason for which an event ends the session, if it does.
pub open spec fn end_reason(missed: u32, ev: PumpEvent) -> Option<Seq<char>> {
    match ev {
        PumpEvent::Cancelled => Some("host shutting down"@),
        PumpEvent::Frame(f) => match f {
            Frame::Bye => Some("guest sent Bye"@),
            Frame::Hello { .. } => Some("guest restarted (new Hello)"@),
            _ => None,
        },
        PumpEvent::ReadFailed(e) => Some("read error: "@ + e@),
        PumpEvent::Closed => Some("connection closed by guest"@),
        PumpEvent::PingTick => if missed >= MAX_MISSED_PINGS {
            Some(
                "keep-alive timeout ("@ + text::dec(MAX_MISSED_PINGS as nat)
                    + " pings unanswered)"@,
            )
        } else {
            None
        },
        PumpEvent::StackFailed(e) => Some("ip stack stopped: "@ + e@),
        PumpEvent::WriteFailed(e) => Some("write error: "@ + e@),
        PumpEvent::WriterDone => Some("writer finished"@),
        PumpEvent::WriterDied(e) => Some("writer task failed: "@ + e@),
    }
}

/// How many pings are unanswered after an event.
pub open spec fn missed_after(missed: u32, ev: PumpEvent) -> u32 {
    match ev {
        PumpEvent::Frame(Frame::Pong(_)) => 0,
        PumpEvent::PingTick => if missed >= MAX_MISSED_PINGS {
            missed
        } else {
            (missed + 1) as u32
        },
        _ => missed,
    }
}

/// What is done about an event.
pub open spec fn pump_action(missed: u32, ev: PumpEvent, a: PumpAction) -> bool {
    match end_reason(missed, ev) {
        Some(reason) => a matches PumpAction::End(r) && r@ == reason,
        None => match ev {
            PumpEvent::Frame(f) => match f {
                Frame::IpPacket(_) => a is ToStack,
                Frame::Ping(t) => a == PumpAction::Pong(t),
                _ => a is Nothing,
            },
            PumpEvent::PingTick => a is Ping,
            _ => false,
        },
    }
}

/// The frame pump of one session.
#[derive(Clone, Copy, Debug, PartialEq, Eq, Structural)]
pub struct Pump {
    /// Pings since the last `Pong`.
    pub missed_pings: u32,
}

impl Pump {
    /// The pump of a session that begins.
    pub fn new() -> (r: Self)
        ensures
            r == (Pump { missed_pings: 0 }),
    {
        Pump { missed_pings: 0 }
    }

    /// Takes an event and says what to do about it.
    pub fn on(&mut self, ev: &PumpEvent) -> (a: PumpAction)
        ensures
            pump_action(old(self).missed_pings, *ev, a),
            final(self).missed_pings == missed_after(old(self).missed_pings, *ev),
    {
        match ev {
            PumpEvent::Cancelled => PumpAction::End("host shutting down".to_owned()),
            PumpEvent::Frame(f) => match f {
                Frame::IpPacket(_) => PumpAction::ToStack,
                Frame::Ping(t) => PumpAction::Pong(*t),
                Frame::Pong(_) => {
                    self.missed_pings = 0;
                    PumpAction::Nothing
                },
                Frame::Bye => PumpAction::End("guest sent Bye".to_owned()),
                // On a link that persists across sessions (serial) a new Hello
                // means the guest restarted: end this session so the next
                // handshake can be answered.
                Frame::Hello { .. } => PumpAction::End("guest restarted (new Hello)".to_owned()),
                _ => PumpAction::Nothing,
            },
            PumpEvent::ReadFailed(e) => PumpAction::End(text::cat2("read error: ", e.as_str())),
            PumpEvent::Closed => PumpAction::End("connection closed by guest".to_owned()),
            PumpEvent::PingTick => {
                if self.missed_pings >= MAX_MISSED_PINGS {
                    PumpAction::End(
                        text::cat3(
                            "keep-alive timeout (",
                            text::decimal(MAX_MISSED_PINGS as u64).as_str(),
                            " pings unanswered)",
                        ),
                    )
                } else {
                    self.missed_pings = self.missed_pings + 1;
                    PumpAction::Ping
                }
            },
            PumpEvent::StackFailed(e) => PumpAction::End(
                text::cat2("ip stack stopped: ", e.as_str()),
            ),
            PumpEvent::WriteFailed(e) => PumpAction::End(text::cat2("write error: ", e.as_str())),
            PumpEvent::WriterDone => PumpAction::End("writer finished".to_owned()),
            PumpEvent::WriterDied(e) => PumpAction::End(
                text::cat2("writer task failed: ", e.as_str()),
            ),
        }
    }
}

/// How many pings are unanswered after some events.
pub open spec fn missed_after_all(missed: u32, evs: Seq<PumpEvent>) -> u32
    decreases evs.len(),
{
    if evs.len() == 0 {
        missed
    } else {
        missed_after(missed_after_all(missed, evs.drop_last()), evs.last())
    }
}

/// How many times the keep-alive timer fired after the last `Pong`.
pub open spec fn ticks_since_pong(evs: Seq<PumpEvent>) -> nat
    decreases evs.len(),
{
    if evs.len() == 0 {
        0
    } else if evs.last() matches PumpEvent::Frame(Frame::Pong(_)) {
        0
    } else if evs.last() is PingTick {
        ticks_since_pong(evs.drop_last()) + 1
    } else {
        ticks_since_pong(evs.drop_last())
    }
}

/// A guest is considered gone exactly when the keep-alive timer fires after
/// that many pings in a row went without a `Pong`, whatever else it sent: a
/// guest that answers every ping is never given up by it.
pub proof fn missed_pings_are_counted(evs: Seq<PumpEvent>)
    ensures
        missed_after_all(0, evs) == if ticks_since_pong(evs) < MAX_MISSED_PINGS {
            ticks_since_pong(evs)
        } else {
            MAX_MISSED_PINGS as nat
        },
        end_reason(missed_after_all(0, evs), PumpEvent::PingTick) is Some <==> ticks_since_pong(evs)
            >= MAX_MISSED_PINGS,
    decreases evs.len(),
{
    if evs.len() > 0 {
        missed_pings_are_counted(evs.drop_last());
    }
}

// The writer.

/// Merges control frames (which have priority) and packets from the stack,
/// batching what is immediately available before each flush.
#[derive(Clone, Copy, Debug, PartialEq, Eq, Structural)]
pub struct Writer {
    pub ctrl_open: bool,
    pub packets_open: bool,
    pub stage: Stage,
}

/// Where the writer stands.
#[derive(Clone, Copy, Debug, PartialEq, Eq, Structural)]
pub enum Stage {
    /// Waiting for the first frame of a batch.
    Wait,
    /// So many more frames may join the batch; a control frame is looked for.
    DrainControl(u32),
    /// No control frame is ready; a packet is looked for.
    DrainPacket(u32),
    /// The batch is complete.
    Flush,
}

/// What the writer does next.
#[derive(Clone, Copy, Debug, PartialEq, Eq, Structural)]
pub enum WriterWork {
    /// Wait for a frame on the queues that are still open, control first.
    Await { ctrl: bool, packets: bool },
    /// Look for a control frame without waiting.
    TryControl,
    /// Look for a packet without waiting.
    TryPacket,
    Flush,
    /// Close the connection: nothing more will come.
    Close,
}

/// What came of it. A frame that came is written; a packet is counted as sent.
#[derive(Clone, Copy, Debug, PartialEq, Eq, Structural)]
pub enum WriterEvent {
    Control,
    ControlClosed,
    ControlEmpty,
    Packet,
    PacketsClosed,
    PacketsEmpty,
    Flushed,
}

impl Writer {
    /// What the writer does next.
    pub open spec fn spec_work(self) -> WriterWork {
        match self.stage {
            Stage::Wait => if self.ctrl_open || self.packets_open {
                WriterWork::Await { ctrl: self.ctrl_open, packets: self.packets_open }
            } else {
                WriterWork::Close
            },
            Stage::DrainControl(_) => WriterWork::TryControl,
            Stage::DrainPacket(_) => WriterWork::TryPacket,
            Stage::Flush => WriterWork::Flush,
        }
    }

    /// The stage after another frame joined a batch that had room for `left`.
    pub open spec fn drained(left: u32) -> Stage {
        if left <= 1 {
            Stage::Flush
        } else {
            Stage::DrainControl((left - 1) as u32)
        }
    }

    /// The writer after an event.
    pub open spec fn after(self, ev: WriterEvent) -> Writer {
        match (self.stage, ev) {
            (Stage::Wait, WriterEvent::Control) => Writer {
                stage: Stage::DrainControl(WRITE_BATCH),
                ..self
            },
            (Stage::Wait, WriterEvent::Packet) => Writer {
                stage: Stage::DrainControl(WRITE_BATCH),
                ..self
            },
            (Stage::Wait, WriterEvent::ControlClosed) => Writer { ctrl_open: false, ..self },
            (Stage::Wait, WriterEvent::PacketsClosed) => Writer { packets_open: false, ..self },
            (Stage::DrainControl(left), WriterEvent::Control) => Writer {
                stage: Writer::drained(left),
                ..self
            },
            (Stage::DrainControl(left), WriterEvent::ControlEmpty) => Writer {
                stage: Stage::DrainPacket(left),
                ..self
            },
            (Stage::DrainPacket(left), WriterEvent::Packet) => Writer {
                stage: Writer::drained(left),
                ..self
            },
            (Stage::DrainPacket(_), WriterEvent::PacketsEmpty) => Writer {
                stage: Stage::Flush,
                ..self
            },
            (Stage::Flush, WriterEvent::Flushed) => Writer { stage: Stage::Wait, ..self },
            _ => self,
        }
    }

    /// A writer with both queues open.
    pub fn new() -> (r: Self)
        ensures
            r == (Writer { ctrl_open: true, packets_open: true, stage: Stage::Wait }),
    {
        Writer { ctrl_open: true, packets_open: true, stage: Stage::Wait }
    }

    /// What the writer does next.
    pub fn work(&self) -> (r: WriterWork)
        ensures
            r == self.spec_work(),
    {
        match self.stage {
            Stage::Wait => if self.ctrl_open || self.packets_open {
                WriterWork::Await { ctrl: self.ctrl_open, packets: self.packets_open }
            } else {
                WriterWork::Close
            },
            Stage::DrainControl(_) => WriterWork::TryControl,
            Stage::DrainPacket(_) => WriterWork::TryPacket,
            Stage::Flush => WriterWork::Flush,
        }
    }

    /// Takes what came of it.
    pub fn on(&mut self, ev: WriterEvent)
        ensures
            *final(self) == old(self).after(ev),
    {
        match (self.stage, ev) {
            (Stage::Wait, WriterEvent::Control) | (Stage::Wait, WriterEvent::Packet) => {
                self.stage = Stage::DrainControl(WRITE_BATCH);
            },
            (Stage::Wait, WriterEvent::ControlClosed) => {
                self.ctrl_open = false;
            },
            (Stage::Wait, WriterEvent::PacketsClosed) => {
                self.packets_open = false;
            },
            (Stage::DrainControl(left), WriterEvent::Control) => {
                self.stage = if left <= 1 {
                    Stage::Flush
                } else {
                    Stage::DrainControl(left - 1)
                };
            },
            (Stage::DrainControl(left), WriterEvent::ControlEmpty) => {
                self.stage = Stage::DrainPacket(left);
            },
            (Stage::DrainPacket(left), WriterEvent::Packet) => {
                self.stage = if left <= 1 {
                    Stage::Flush
                } else {
                    Stage::DrainControl(left - 1)
                };
            },
            (Stage::DrainPacket(_), WriterEvent::PacketsEmpty) => {
                self.stage = Stage::Flush;
            },
            (Stage::Flush, WriterEvent::Flushed) => {
                self.stage = Stage::Wait;
            },
            _ => {},
        }
    }
}

/// How many more frames a batch may take.
pub open spec fn room(s: Stage) -> int {
    match s {
        Stage::Wait => WRITE_BATCH + 1,
        Stage::DrainControl(left) => left as int,
        Stage::DrainPacket(left) => left as int,
        Stage::Flush => 0,
    }
}

/// A batch is flushed after a bounded number of frames: every frame that joins
/// one takes room, and a batch without room is flushed. A packet joins a batch
/// only when no control frame was ready.
pub proof fn a_batch_is_bounded(w: Writer, ev: WriterEvent)
    requires
        0 <= room(w.stage) <= WRITE_BATCH + 1,
        w.stage matches Stage::DrainControl(left) ==> left > 0,
        w.stage matches Stage::DrainPacket(left) ==> left > 0,
        w.stage is DrainControl ==> ev is Control || ev is ControlEmpty,
        w.stage is DrainPacket ==> ev is Packet || ev is PacketsEmpty,
    ensures
        (ev is Control || ev is Packet) && !(w.stage is Flush) ==> room(w.after(ev).stage) < room(
            w.stage,
        ),
        room(w.after(ev).stage) == 0 <==> w.after(ev).stage is Flush,
        w.after(ev).stage is DrainPacket && !(w.stage is DrainPacket) ==> ev is ControlEmpty,
{
}

/// While a guest is served, every IP packet of its is handed to the stack, and
/// nothing else is; every keep-alive is answered with its token, and nothing
/// else is.
pub proof fn packets_go_to_the_stack(missed: u32, ev: PumpEvent, a: PumpAction)
    requires
        pump_action(missed, ev, a),
    ensures
        a is ToStack <==> (ev matches PumpEvent::Frame(f) && f@ is IpPacket),
        a matches PumpAction::Pong(t) ==> (ev matches PumpEvent::Frame(f) && f@ == FrameView::Ping(
            t,
        )),
        (ev matches PumpEvent::Frame(f) && f@ is Ping) ==> a is Pong,
        a is Ping <==> ev is PingTick && missed < MAX_MISSED_PINGS,
{
}

/// What ends the session of a guest, and nothing else does: the host shuts
/// down; the guest says `Bye`, greets anew, closes or fails; it has left three
/// pings unanswered; or the stack or the writer stops. The reason says which.
pub proof fn a_served_session_ends_for_a_reason(missed: u32, ev: PumpEvent, a: PumpAction)
    requires
        pump_action(missed, ev, a),
    ensures
        a is End <==> {
            ||| ev is Cancelled
            ||| (ev matches PumpEvent::Frame(f) && (f@ is Bye || f@ is Hello))
            ||| ev is ReadFailed
            ||| ev is Closed
            ||| ev is PingTick && missed >= 3
            ||| ev is StackFailed
            ||| ev is WriteFailed
            ||| ev is WriterDone
            ||| ev is WriterDied
        },
        ev matches PumpEvent::ReadFailed(e) ==> (a matches PumpAction::End(r) && ends_with(r@, e@)),
        ev matches PumpEvent::StackFailed(e) ==> (a matches PumpAction::End(r) && ends_with(r@, e@)),
        ev matches PumpEvent::WriteFailed(e) ==> (a matches PumpAction::End(r) && ends_with(r@, e@)),
        ev matches PumpEvent::WriterDied(e) ==> (a matches PumpAction::End(r) && ends_with(r@, e@)),
{
    match ev {
        PumpEvent::ReadFailed(e) => assert(("read error: "@ + e@).skip("read error: "@.len() as int)
            =~= e@),
        PumpEvent::StackFailed(e) => assert(("ip stack stopped: "@ + e@).skip(
            "ip stack stopped: "@.len() as int,
        ) =~= e@),
        PumpEvent::WriteFailed(e) => assert(("write error: "@ + e@).skip(
            "write error: "@.len() as int,
        ) =~= e@),
        PumpEvent::WriterDied(e) => assert(("writer task failed: "@ + e@).skip(
            "writer task failed: "@.len() as int,
        ) =~= e@),
        _ => {},
    }
}

/// `s` ends with `tail`.
pub open spec fn ends_with(s: Seq<char>, tail: Seq<char>) -> bool {
    tail.len() <= s.len() && s.skip(s.len() - tail.len()) == tail
}

/// A guest that says `Hello` in our version is welcome under its own name, and
/// is sent the host's `Hello`, with our version and the host's name, and then
/// the tunnel configuration; on a link that stays open just as on a new one.
pub proof fn our_version_is_welcome(shared: Shared, name: String, g: Greeting)
    requires
        handshake_outcome(
            shared,
            Opening::Frame(Frame::Hello { version: PROTOCOL_VERSION, name }),
            g,
        ) || wait_outcome(
            shared,
            Opening::Frame(Frame::Hello { version: PROTOCOL_VERSION, name }),
            g,
        ),
    ensures
        g matches Greeting::Welcome { name: n, replies } && {
            &&& n == name
            &&& replies@.len() == 2
            &&& replies@[0]@ == (FrameView::Hello {
                version: PROTOCOL_VERSION,
                name: shared.host_name@,
            })
            &&& replies@[1]@ == FrameView::Config(shared.tunnel)
        },
{
    if let Greeting::Welcome { replies, .. } = g {
        let v = frames_view(replies@);
        assert(v.len() == replies@.len());
        assert(v[0] == replies@[0]@);
        assert(v[1] == replies@[1]@);
    }
}

/// On a new connection, whatever else comes, or nothing, is answered with a
/// `Bye`; only a shutdown is not.
pub proof fn anybody_else_is_dismissed(shared: Shared, o: Opening, g: Greeting)
    requires
        handshake_outcome(shared, o, g),
        !(o matches Opening::Frame(Frame::Hello { version, .. }) && version == PROTOCOL_VERSION),
    ensures
        o is Cancelled ==> g is Stop,
        !(o is Cancelled) ==> (g matches Greeting::Dismiss { reply, .. } && reply == Frame::Bye),
{
}

/// On a link that stays open, a `Hello` of another version is refused with a
/// `Bye`, other frames and silence are ignored, and only the end of the link
/// gives up the wait.
pub proof fn an_open_link_waits_on(shared: Shared, o: Opening, g: Greeting)
    requires
        wait_outcome(shared, o, g),
    ensures
        (o matches Opening::Frame(Frame::Hello { version, .. }) && version != PROTOCOL_VERSION)
            ==> (g matches Greeting::Refuse { reply, .. } && reply == Frame::Bye),
        (o matches Opening::Frame(f) && !(f@ is Hello)) ==> g is Ignore,
        o is TimedOut ==> g is Ignore,
        o is Closed || o is Failed ==> g is Abandon,
        o is Cancelled ==> g is Stop,
{
}

/// Why a first frame is not a proper `Hello`: there is a fault exactly unless
/// it is one of our version.
pub proof fn only_our_hello_has_no_fault(first: Option<Result<Frame, String>>)
    ensures
        hello_fault(first) is None <==> (first matches Some(Ok(f)) && (f@ matches FrameView::Hello {
            version,
            ..
        } && version == PROTOCOL_VERSION)),
{
}

/// A failed probe ends the session exactly when the connection died.
pub proof fn a_probe_that_fails_is_survived(phase: Phase, detail: Seq<char>)
    ensures
        probe_ends(phase, detail) is Some <==> phase == Phase::Failed(SpeedError::Closed) || phase
            == Phase::Failed(SpeedError::Codec),
{
}

/// The writer waits on exactly the queues that are open, and closes the
/// connection once, and only when, both are closed and everything is flushed.
/// A queue counts as closed only after it said so.
pub proof fn the_writer_closes_last(w: Writer, ev: WriterEvent)
    ensures
        w.spec_work() == WriterWork::Close <==> w.stage == Stage::Wait && !w.ctrl_open
            && !w.packets_open,
        w.spec_work() matches WriterWork::Await { ctrl, packets } ==> ctrl == w.ctrl_open && packets
            == w.packets_open,
        w.stage == Stage::Wait && (w.ctrl_open || w.packets_open) ==> w.spec_work() is Await,
        w.ctrl_open && !w.after(ev).ctrl_open ==> ev == WriterEvent::ControlClosed,
        w.packets_open && !w.after(ev).packets_open ==> ev == WriterEvent::PacketsClosed,
        w.stage == Stage::Wait && ev == WriterEvent::ControlClosed ==> w.after(ev) == (Writer {
            ctrl_open: false,
            ..w
        }),
        w.stage == Stage::Wait && ev == WriterEvent::PacketsClosed ==> w.after(ev) == (Writer {
            packets_open: false,
            ..w
        }),
        !w.ctrl_open ==> !w.after(ev).ctrl_open,
        !w.packets_open ==> !w.after(ev).packets_open,
{
}

/// What was written is flushed before the writer waits again: once a frame has
/// come it first looks for a control frame, then for a packet, until there is
/// neither or the batch is full; then it flushes.
pub proof fn what_is_written_is_flushed(w: Writer, ev: WriterEvent)
    ensures
        w.stage == Stage::Wait && (ev == WriterEvent::Control || ev == WriterEvent::Packet)
            ==> w.after(ev).spec_work() == WriterWork::TryControl,
        w.spec_work() == WriterWork::TryControl && ev == WriterEvent::ControlEmpty ==> w.after(
            ev,
        ).spec_work() == WriterWork::TryPacket,
        w.spec_work() == WriterWork::TryPacket && ev == WriterEvent::PacketsEmpty ==> w.after(
            ev,
        ).spec_work() == WriterWork::Flush,
        w.stage matches Stage::DrainControl(left) && (left > 1 && ev == WriterEvent::Control)
            ==> w.after(ev).spec_work() == WriterWork::TryControl,
        w.stage matches Stage::DrainPacket(left) && (left > 1 && ev == WriterEvent::Packet)
            ==> w.after(ev).spec_work() == WriterWork::TryControl,
        w.stage != Stage::Wait && w.after(ev).stage == Stage::Wait ==> w.spec_work()
            == WriterWork::Flush && ev == WriterEvent::Flushed,
        w.spec_work() == WriterWork::Flush && ev == WriterEvent::Flushed ==> w.after(ev).stage
            == Stage::Wait,
{
}

/// Each end of a session has its own reason.
pub proof fn why_a_session_ends(missed: u32, ev: PumpEvent, a: PumpAction)
    requires
        pump_action(missed, ev, a),
    ensures
        ev is Cancelled ==> (a matches PumpAction::End(r) && r@ == "host shutting down"@),
        (ev matches PumpEvent::Frame(f) && f@ is Bye) ==> (a matches PumpAction::End(r) && r@
            == "guest sent Bye"@),
        (ev matches PumpEvent::Frame(f) && f@ is Hello) ==> (a matches PumpAction::End(r) && r@
            == "guest restarted (new Hello)"@),
        ev is Closed ==> (a matches PumpAction::End(r) && r@ == "connection closed by guest"@),
        ev is WriterDone ==> (a matches PumpAction::End(r) && r@ == "writer finished"@),
        ev is PingTick && missed >= 3 ==> (a matches PumpAction::End(r) && r@
            == "keep-alive timeout ("@ + text::dec(3) + " pings unanswered)"@),
{
}

/// Anything but a proper greeting is dismissed for its fault, and has a second
/// to take the `Bye`; silence is dismissed without delay.
pub proof fn why_a_greeting_is_dismissed(shared: Shared, o: Opening, g: Greeting)
    requires
        handshake_outcome(shared, o, g),
    ensures
        o is TimedOut ==> (g matches Greeting::Dismiss { reason, bye_limit_ms, .. } && reason@
            == "handshake timed out"@ && bye_limit_ms is None),
        (g matches Greeting::Dismiss { bye_limit_ms, .. } && !(o is TimedOut)) ==> (
        g matches Greeting::Dismiss { bye_limit_ms, .. } && bye_limit_ms == Some(1000u64)),
        o is Closed ==> (g matches Greeting::Dismiss { reason, .. } && reason@
            == "connection closed before Hello"@),
        o matches Opening::Failed(e) ==> (g matches Greeting::Dismiss { reason, .. } && ends_with(
            reason@,
            e@,
        )),
        o matches Opening::Frame(Frame::Hello { version, .. }) ==> (version != PROTOCOL_VERSION ==> (
        g matches Greeting::Dismiss { reason, .. } && text::holds(
            reason@,
            text::dec(version as nat),
        ))),
        o matches Opening::Frame(f) ==> (!(f@ is Hello) ==> (g matches Greeting::Dismiss {
            reason,
            ..
        } && ends_with(reason@, f@.kind().spec_name()))),
{
    match o {
        Opening::Failed(e) => {
            let s = "frame error: "@ + e@;
            assert(s.skip(s.len() - e@.len()) =~= e@);
        },
        Opening::Frame(f) => {
            if let Frame::Hello { version, .. } = f {
                let (a, v) = ("protocol version mismatch (guest "@, text::dec(version as nat));
                let b = ", host "@ + text::dec(PROTOCOL_VERSION as nat) + ")"@;
                text::an_inner_text_is_held(a, v, b);
                assert(a + v + b =~= a + v + ", host "@ + text::dec(PROTOCOL_VERSION as nat)
                    + ")"@);
            } else {
                let n = f@.kind().spec_name();
                let s = "expected Hello, got "@ + n;
                assert(s.skip(s.len() - n.len()) =~= n);
            }
        },
        _ => {},
    }
}

/// A guest is served exactly when no other is: it is announced under its name,
/// from where it connected, with the address that it is given; a second one is
/// turned away with a `Bye`, and the log names both.
pub proof fn a_free_slot_admits(
    shared: Shared,
    peer: Endpoint,
    name: String,
    now: u64,
    a: Admission,
)
    requires
        admitted(shared, peer, name, now, a),
    ensures
        a is Serve <==> shared.guest is None,
        a matches Admission::Serve { event, .. } ==> (event matches HostEvent::GuestConnected(g)
            && g.peer == peer && g.name == name && g.connected_at == now && g.assigned_ip
            == shared.tunnel.guest_ip),
        a matches Admission::Busy { log, reply } ==> {
            &&& reply == Frame::Bye
            &&& text::holds(log@, name@)
            &&& text::holds(log@, peer.spec_text())
            &&& text::holds(log@, shared.guest->0.spec_text())
        },
        a matches Admission::Serve { log, .. } ==> {
            &&& text::holds(log@, name@)
            &&& text::holds(log@, peer.spec_text())
        },
{
    let (n, p) = (name@, peer.spec_text());
    match a {
        Admission::Busy { log, .. } => {
            let q = shared.guest->0.spec_text();
            let (a0, a1, a2) = ("rejecting guest \""@, "\" from "@, ": "@);
            let a3 = " is already connected"@;
            let all = a0 + n + a1 + p + a2 + q + a3;
            text::an_inner_text_is_held(a0, n, a1 + p + a2 + q + a3);
            assert(a0 + n + (a1 + p + a2 + q + a3) =~= all);
            text::an_inner_text_is_held(a0 + n + a1, p, a2 + q + a3);
            assert(a0 + n + a1 + p + (a2 + q + a3) =~= all);
            text::an_inner_text_is_held(a0 + n + a1 + p + a2, q, a3);
        },
        Admission::Serve { log, .. } => {
            let (a0, a1, a2) = ("guest \""@, "\" connected from "@, ", assigned "@);
            let t = shared.tunnel;
            let ip = t.guest_ip.spec_text();
            let d = text::dec(t.prefix_len as nat);
            let all = a0 + n + a1 + p + a2 + ip + "/"@ + d;
            text::an_inner_text_is_held(a0, n, a1 + p + a2 + ip + "/"@ + d);
            assert(a0 + n + (a1 + p + a2 + ip + "/"@ + d) =~= all);
            text::an_inner_text_is_held(a0 + n + a1, p, a2 + ip + "/"@ + d);
            assert(a0 + n + a1 + p + (a2 + ip + "/"@ + d) =~= all);
        },
    }
}

/// A batch begins with the first thing to write and takes up to 64 more.
pub proof fn a_batch_has_its_size(w: Writer, ev: WriterEvent)
    ensures
        w.stage == Stage::Wait && (ev == WriterEvent::Control || ev == WriterEvent::Packet)
            ==> w.after(ev).stage == Stage::DrainControl(64),
        w.stage matches Stage::DrainControl(left) ==> {
            &&& left > 1 && ev == WriterEvent::Control ==> w.after(ev).stage
                == Stage::DrainControl((left - 1) as u32)
            &&& left <= 1 && ev == WriterEvent::Control ==> w.after(ev).stage == Stage::Flush
            &&& ev == WriterEvent::ControlEmpty ==> w.after(ev).stage == Stage::DrainPacket(left)
        },
        w.stage matches Stage::DrainPacket(left) ==> {
            &&& left > 1 && ev == WriterEvent::Packet ==> w.after(ev).stage
                == Stage::DrainControl((left - 1) as u32)
            &&& left <= 1 && ev == WriterEvent::Packet ==> w.after(ev).stage == Stage::Flush
        },
{
}

} // verus!
