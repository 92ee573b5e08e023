//! The guest state machine: link watching → discovery → connect → handshake
//! → TUN + platform config → packet pump → teardown (→ reconnect).
//!
//! [`Guest::step`] takes the report on the work that was last asked for, and
//! gives the effects to carry out in order and the next work.

use crate::cidr::{self, write_nets};
use crate::cli;
use crate::frame::TunnelConfig;
use crate::guest::{
    next_retry_backoff, GuestConfig, GuestEvent, GuestState, HandshakeFailure, HostTarget, Reason,
    RouteMode, SessionEnd, Timings,
};
use crate::guest;
use crate::link::{self, LinkInterface, LinkView};
use crate::net::{Endpoint, SocketAddr};
use crate::speed::{LinkSpeed, SpeedError};
use crate::text::{self, copy_option};
use vstd::prelude::*;
use vstd::string::StringExecFns;

verus! {

/// Where to connect, produced by the discovery phase.
#[derive(Debug)]
pub struct Target {
    pub host: Endpoint,
    /// Baud rate of a serial port; zero for a network peer.
    pub baud: u32,
    pub host_name: Option<String>,
    /// Interface whose link-local presence is watched while connected.
    pub link_iface: Option<String>,
}

/// What a session has learnt before its TUN exists.
#[derive(Debug)]
pub struct Greeting {
    pub target: Target,
    pub host_name: String,
    pub config: TunnelConfig,
}

/// What the guest is waiting for.
#[derive(Debug)]
pub enum Phase {
    /// The local egress interface, at the very start.
    FirstEgress,
    /// Whether a shutdown was requested.
    Polling,
    /// The interface list.
    Listing,
    /// The carrier of a manual target's interface.
    CheckingLink { addr: SocketAddr, iface: String },
    /// The answer of a host on interface number `at` of the list.
    Probing { at: usize },
    /// A neighbour on interface number `at` of the list.
    AskingNeighbor { at: usize },
    /// The end of a pause.
    Resting,
    Connecting(Target),
    Handshaking(Target),
    Measuring(Greeting),
    OpeningTun(Greeting),
    Applying { greeting: Greeting, tun: String },
    /// The revert after a configuration that failed.
    Undoing(Reason),
    Pumping { tun: String },
    /// The revert at the end of a session.
    Reverting { end: SessionEnd, tun: String },
    /// The local egress interface, after a session.
    LastEgress(SessionEnd),
    Over,
}

/// Report on the work that was asked for.
#[derive(Debug)]
pub enum Report {
    Egress(Option<String>),
    /// Whether a shutdown was requested.
    Polled(bool),
    /// The interface list; empty if it could not be read.
    Listed(Vec<LinkInterface>),
    /// Whether the interface has a carrier, if that can be told.
    Carrier(Option<bool>),
    /// The host that answered: its name and address.
    Probed(Option<(String, SocketAddr)>),
    ProbeFailed,
    Neighbor(Option<SocketAddr>),
    Rested,
    Connected,
    ConnectFailed(String),
    Greeted(String, TunnelConfig),
    HandshakeFailed(HandshakeFailure),
    Measured(LinkSpeed),
    /// The probe failed; `detail` is what the codec said.
    NotMeasured { error: SpeedError, detail: String },
    TunOpened(String),
    TunFailed(String),
    /// The configuration is in place; `now` is the time in milliseconds.
    Applied { now: u64 },
    ApplyFailed(String),
    /// The revert is done; the error is that of the first step that failed.
    Reverted(Option<String>),
    Ended(SessionEnd),
    /// A shutdown was requested while waiting.
    Shutdown,
}

/// Observable state of the guest.
#[derive(Debug)]
pub enum StateNote {
    NotStarted,
    WaitingForLink,
    Discovering(String),
    Connecting(Endpoint),
    Connected { host: Endpoint, host_name: String, tun: String, config: TunnelConfig, since: u64 },
    Disconnected(Reason),
}

/// A line for the log.
#[derive(Debug)]
pub enum LogNote {
    LocalEgress(Option<String>),
    Discovered { host_name: String, addr: SocketAddr, iface: String },
    NeighborFound { iface: String, addr: SocketAddr },
    HandshakeOk { host_name: String, config: TunnelConfig },
    ProbeSkipped { error: SpeedError, detail: String },
    TunnelUp(String),
    TornDown(String),
    Disconnected { reason: Reason, reconnecting: bool },
    Stopped,
}

/// Something to carry out.
#[derive(Debug)]
pub enum Effect {
    State(StateNote),
    /// The interface list has changed.
    Interfaces,
    LocalEgress(Option<String>),
    LinkSpeed(LinkSpeed),
    Log(LogNote),
    Error(Reason),
    RevertError(String),
    /// Send a `Bye`, waiting at most so many milliseconds.
    Bye(u64),
    /// Close the connection.
    Disconnect,
    /// Close the TUN device.
    CloseTun,
}

/// What to do next and report on.
#[derive(Debug)]
pub enum Work {
    ReadEgress,
    PollShutdown,
    ListInterfaces,
    CheckLink(String),
    /// Probe interface number `at` of the list.
    Probe { at: usize, timeout: u64 },
    AskNeighbor { at: usize },
    Sleep(u64),
    Connect { host: Endpoint, baud: u32, timeout: u64 },
    Handshake { timeout: u64 },
    MeasureLink,
    OpenTun(TunnelConfig),
    /// Configure the system for the tunnel: its address, these routes and, if
    /// so chosen, its resolver.
    Apply { tun: String, config: TunnelConfig, routes: RouteMode, set_dns: bool },
    Revert,
    Pump { link_iface: Option<String> },
    /// Go on with the work that was asked for before.
    Continue,
    /// The guest has stopped; the error is why, where it did not stop orderly.
    Return(Option<Reason>),
}

/// The same work; routes are the same where their prefixes are.
pub open spec fn same_work(a: Work, b: Work) -> bool {
    match (a, b) {
        (
            Work::Apply { tun, config, routes, set_dns },
            Work::Apply { tun: tun_b, config: config_b, routes: routes_b, set_dns: set_dns_b },
        ) => {
            &&& tun == tun_b
            &&& config == config_b
            &&& cli::routed(routes) == cli::routed(routes_b)
            &&& set_dns == set_dns_b
        },
        _ => a == b,
    }
}

/// What the guest knows, apart from what it is waiting for.
#[derive(Debug)]
pub struct Core {
    pub cfg: GuestConfig,
    pub timings: Timings,
    pub state: StateNote,
    /// The interfaces as last listed.
    pub ifaces: Vec<LinkInterface>,
    /// Whether they have been listed at all.
    pub listed: bool,
    /// The pause after the next failure.
    pub delay: u64,
}

/// The guest.
#[derive(Debug)]
pub struct Guest {
    pub core: Core,
    pub phase: Phase,
}

/// Whether two states are the same to an observer.
pub open spec fn same_state(a: StateNote, b: StateNote) -> bool {
    match (a, b) {
        (StateNote::NotStarted, StateNote::NotStarted) => true,
        (StateNote::WaitingForLink, StateNote::WaitingForLink) => true,
        (StateNote::Discovering(x), StateNote::Discovering(y)) => x@ == y@,
        (StateNote::Connecting(x), StateNote::Connecting(y)) => same_endpoint(x, y),
        (StateNote::Disconnected(x), StateNote::Disconnected(y)) => x.spec_text() == y.spec_text(),
        _ => false,
    }
}

/// Whether two endpoints are the same.
pub open spec fn same_endpoint(a: Endpoint, b: Endpoint) -> bool {
    match (a, b) {
        (Endpoint::Tcp(x), Endpoint::Tcp(y)) => x == y,
        (Endpoint::Serial(x), Endpoint::Serial(y)) => x@ == y@,
        _ => false,
    }
}

/// Whether two endpoints are the same.
pub fn endpoints_equal(a: &Endpoint, b: &Endpoint) -> (r: bool)
    ensures
        r == same_endpoint(*a, *b),
{
    match (a, b) {
        (Endpoint::Tcp(x), Endpoint::Tcp(y)) => *x == *y,
        (Endpoint::Serial(x), Endpoint::Serial(y)) => text::same(x.as_str(), y.as_str()),
        _ => false,
    }
}

fn states_equal(a: &StateNote, b: &StateNote) -> (r: bool)
    ensures
        r == same_state(*a, *b),
{
    match (a, b) {
        (StateNote::NotStarted, StateNote::NotStarted) => true,
        (StateNote::WaitingForLink, StateNote::WaitingForLink) => true,
        (StateNote::Discovering(x), StateNote::Discovering(y)) => text::same(
            x.as_str(),
            y.as_str(),
        ),
        (StateNote::Connecting(x), StateNote::Connecting(y)) => endpoints_equal(x, y),
        (StateNote::Disconnected(x), StateNote::Disconnected(y)) => {
            let s = x.text();
            let t = y.text();
            text::same(s.as_str(), t.as_str())
        },
        _ => false,
    }
}

impl StateNote {
    /// The same state once more.
    pub fn copy(&self) -> (r: Self)
        ensures
            r == *self,
    {
        match self {
            StateNote::NotStarted => StateNote::NotStarted,
            StateNote::WaitingForLink => StateNote::WaitingForLink,
            StateNote::Discovering(i) => StateNote::Discovering(i.clone()),
            StateNote::Connecting(h) => StateNote::Connecting(h.copy()),
            StateNote::Connected { host, host_name, tun, config, since } => StateNote::Connected {
                host: host.copy(),
                host_name: host_name.clone(),
                tun: tun.clone(),
                config: *config,
                since: *since,
            },
            StateNote::Disconnected(r) => StateNote::Disconnected(r.copy()),
        }
    }
}

/// The effects of moving to `new`: it is reported only if it is a change.
pub open spec fn state_effects(old: StateNote, new: StateNote) -> Seq<Effect> {
    if same_state(old, new) {
        Seq::empty()
    } else {
        seq![Effect::State(new)]
    }
}

/// The state that is kept when moving to `new`.
pub open spec fn moved(old: StateNote, new: StateNote) -> StateNote {
    if same_state(old, new) {
        old
    } else {
        new
    }
}

/// The first interface at or after `from` that is ready, or the end.
pub open spec fn next_ready(list: Seq<LinkView>, from: int) -> int
    decreases list.len() - from,
{
    if from < 0 || from >= list.len() || list[from].ready() {
        from
    } else {
        next_ready(list, from + 1)
    }
}

/// The name of the interface with the given index.
pub open spec fn iface_with_index(list: Seq<LinkInterface>, index: u32) -> Option<String>
    decreases list.len(),
{
    if list.len() == 0 {
        None
    } else if list[0].index == index {
        Some(list[0].name)
    } else {
        iface_with_index(list.skip(1), index)
    }
}

/// The interface that a link-local address belongs to, if it is listed.
pub open spec fn iface_for(addr: SocketAddr, list: Seq<LinkInterface>) -> Option<String> {
    match addr {
        SocketAddr::V6 { scope_id, .. } => if scope_id != 0 {
            iface_with_index(list, scope_id)
        } else {
            None
        },
        _ => None,
    }
}

fn find_index(list: &Vec<LinkInterface>, index: u32) -> (r: Option<String>)
    ensures
        r == iface_with_index(list@, index),
{
    let mut i: usize = 0;
    assert(list@.skip(0) =~= list@);
    while i < list.len()
        invariant
            i <= list@.len(),
            iface_with_index(list@, index) == iface_with_index(list@.skip(i as int), index),
        decreases list@.len() - i,
    {
        let ghost rest = list@.skip(i as int);
        assert(rest[0] == list@[i as int]);
        if list[i].index == index {
            return Some(list[i].name.clone());
        }
        assert(rest.skip(1) =~= list@.skip(i + 1));
        i = i + 1;
    }
    None
}

/// Interface name for the scope id of a link-local manual target, if any.
pub fn iface_for_addr(addr: &SocketAddr, list: &Vec<LinkInterface>) -> (r: Option<String>)
    ensures
        r == iface_for(*addr, list@),
{
    match addr {
        SocketAddr::V6 { scope_id, .. } => if *scope_id == 0 {
            None
        } else {
            find_index(list, *scope_id)
        },
        _ => None,
    }
}

fn find_ready(list: &Vec<LinkInterface>, from: usize) -> (r: usize)
    requires
        from <= list@.len(),
    ensures
        r == next_ready(link::views(list@), from as int),
        from <= r <= list@.len(),
{
    let mut i: usize = from;
    while i < list.len() && !list[i].is_ready()
        invariant
            from <= i <= list@.len(),
            next_ready(link::views(list@), from as int) == next_ready(
                link::views(list@),
                i as int,
            ),
        decreases list@.len() - i,
    {
        assert(link::views(list@)[i as int] == list@[i as int]@);
        i = i + 1;
    }
    proof {
        if i < list@.len() {
            assert(link::views(list@)[i as int] == list@[i as int]@);
        }
    }
    i
}

// The transitions.

/// The next state, the effects, and the next work.
pub struct Next {
    pub core: Core,
    pub phase: Phase,
    pub effects: Seq<Effect>,
    pub work: Work,
}

impl Core {
    /// The guest stops.
    pub open spec fn stop(self, before: Seq<Effect>) -> Next {
        Next {
            core: self,
            phase: Phase::Over,
            effects: before.push(Effect::Log(LogNote::Stopped)),
            work: Work::Return(None),
        }
    }

    /// No link: wait for one.
    pub open spec fn wait_for_link(self, before: Seq<Effect>) -> Next {
        Next {
            core: Core {
                state: moved(self.state, StateNote::WaitingForLink),
                ..self
            },
            phase: Phase::Resting,
            effects: before + state_effects(self.state, StateNote::WaitingForLink),
            work: Work::Sleep(self.timings.retry_backoff),
        }
    }

    /// Probe interface `at` of the list, or, if it is the end, pause: longer
    /// with every round that found nobody.
    pub open spec fn probe(self, at: int, before: Seq<Effect>) -> Next {
        if at < self.ifaces@.len() {
            let note = StateNote::Discovering(self.ifaces@[at].name);
            Next {
                core: Core {
                    state: moved(self.state, note),
                    ..self
                },
                phase: Phase::Probing { at: at as usize },
                effects: before + state_effects(self.state, note),
                work: Work::Probe { at: at as usize, timeout: self.timings.probe_timeout },
            }
        } else {
            Next {
                core: Core {
                    delay: guest::doubled(
                        self.delay as nat,
                        self.timings.max_retry_backoff as nat,
                    ) as u64,
                    ..self
                },
                phase: Phase::Resting,
                effects: before,
                work: Work::Sleep(self.delay),
            }
        }
    }

    /// Connect to `target`.
    pub open spec fn connect(self, target: Target, before: Seq<Effect>) -> Next {
        let note = StateNote::Connecting(target.host);
        Next {
            core: Core {
                state: moved(self.state, note),
                ..self
            },
            phase: Phase::Connecting(target),
            effects: before + state_effects(self.state, note),
            work: Work::Connect {
                host: target.host,
                baud: target.baud,
                timeout: self.timings.connect_timeout,
            },
        }
    }

    /// The session could not be brought up: report it, and try again after a
    /// pause, longer with every failure, or give up.
    pub open spec fn fail(self, reason: Reason, before: Seq<Effect>) -> Next {
        let down = StateNote::Disconnected(reason);
        let state = moved(self.state, down);
        let effects = before.push(Effect::Error(reason)) + state_effects(self.state, down);
        if self.cfg.reconnect {
            Next {
                core: Core {
                    state: moved(state, StateNote::WaitingForLink),
                    delay: guest::doubled(
                        self.delay as nat,
                        self.timings.max_retry_backoff as nat,
                    ) as u64,
                    ..self
                },
                phase: Phase::Resting,
                effects: effects + state_effects(state, StateNote::WaitingForLink),
                work: Work::Sleep(self.delay),
            }
        } else {
            Next {
                core: Core { state, ..self },
                phase: Phase::Over,
                effects,
                work: Work::Return(Some(reason)),
            }
        }
    }

    /// A session that was up is over: report it, and connect again after the
    /// shortest pause, or stop.
    pub open spec fn lose(self, reason: Reason, before: Seq<Effect>) -> Next {
        let down = StateNote::Disconnected(reason);
        let state = moved(self.state, down);
        let effects = (before + state_effects(self.state, down)).push(
            Effect::Log(LogNote::Disconnected { reason, reconnecting: self.cfg.reconnect }),
        );
        if self.cfg.reconnect {
            Next {
                core: Core {
                    state: moved(state, StateNote::WaitingForLink),
                    delay: self.timings.retry_backoff,
                    ..self
                },
                phase: Phase::Resting,
                effects: effects + state_effects(state, StateNote::WaitingForLink),
                work: Work::Sleep(self.timings.retry_backoff),
            }
        } else {
            Next {
                core: Core { state, ..self },
                phase: Phase::Over,
                effects,
                work: Work::Return(None),
            }
        }
    }

    /// The effects of learning which interface carries the traffic.
    pub open spec fn egress_effects(iface: Option<String>) -> Seq<Effect> {
        seq![Effect::Log(LogNote::LocalEgress(iface)), Effect::LocalEgress(iface)]
    }

    /// Whether a new interface list is a change.
    pub open spec fn list_changed(self, list: Seq<LinkInterface>) -> bool {
        !self.listed || link::views(self.ifaces@) != link::views(list)
    }

    /// The guest with a new interface list.
    pub open spec fn with_list(self, list: Vec<LinkInterface>) -> Core {
        if self.list_changed(list@) {
            Core { ifaces: list, listed: true, ..self }
        } else {
            self
        }
    }

    /// The effects of a new interface list.
    pub open spec fn list_effects(self, list: Vec<LinkInterface>) -> Seq<Effect> {
        if self.list_changed(list@) {
            seq![Effect::Interfaces]
        } else {
            Seq::empty()
        }
    }

    /// With the interfaces listed, look for the host.
    pub open spec fn find_target(self, before: Seq<Effect>) -> Next {
        match self.cfg.host {
            HostTarget::Manual(addr) => match iface_for(addr, self.ifaces@) {
                Some(iface) => Next {
                    core: self,
                    phase: Phase::CheckingLink { addr, iface },
                    effects: before,
                    work: Work::CheckLink(iface),
                },
                None => self.connect(
                    Target {
                        host: Endpoint::Tcp(addr),
                        baud: 0,
                        host_name: None,
                        link_iface: None,
                    },
                    before,
                ),
            },
            HostTarget::Serial { path, baud } => {
                let note = StateNote::Discovering(path);
                (Core { state: moved(self.state, note), ..self }).connect(
                    Target {
                        host: Endpoint::Serial(path),
                        baud,
                        host_name: None,
                        link_iface: None,
                    },
                    before + state_effects(self.state, note),
                )
            },
            HostTarget::Auto => {
                let first = next_ready(link::views(self.ifaces@), 0);
                if first < self.ifaces@.len() {
                    self.probe(first, before)
                } else {
                    self.wait_for_link(before)
                }
            },
        }
    }

    /// What follows on a report in a phase. A report on something that was not
    /// asked for changes nothing.
    pub open spec fn next(self, phase: Phase, r: Report) -> Next {
        let none = Seq::<Effect>::empty();
        let leave = seq![Effect::Bye(200), Effect::Disconnect];
        match (phase, r) {
            (Phase::FirstEgress, Report::Egress(iface)) => Next {
                core: self,
                phase: Phase::Polling,
                effects: Core::egress_effects(iface),
                work: Work::PollShutdown,
            },
            (Phase::Polling, Report::Polled(shutdown)) => if shutdown {
                self.stop(none)
            } else {
                Next {
                    core: self,
                    phase: Phase::Listing,
                    effects: none,
                    work: Work::ListInterfaces,
                }
            },
            (Phase::Listing, Report::Listed(list)) => self.with_list(list).find_target(
                self.list_effects(list),
            ),
            (Phase::CheckingLink { addr, iface }, Report::Carrier(c)) => if c == Some(false) {
                self.wait_for_link(none)
            } else {
                self.connect(
                    Target {
                        host: Endpoint::Tcp(addr),
                        baud: 0,
                        host_name: None,
                        link_iface: Some(iface),
                    },
                    none,
                )
            },
            (Phase::Probing { at }, Report::Probed(Some((host_name, addr)))) => {
                let iface = self.ifaces@[at as int].name;
                self.connect(
                    Target {
                        host: Endpoint::Tcp(addr),
                        baud: 0,
                        host_name: Some(host_name),
                        link_iface: Some(iface),
                    },
                    seq![Effect::Log(LogNote::Discovered { host_name, addr, iface })],
                )
            },
            (Phase::Probing { at }, Report::Probed(None)) => Next {
                core: self,
                phase: Phase::AskingNeighbor { at },
                effects: none,
                work: Work::AskNeighbor { at },
            },
            (Phase::Probing { at }, Report::ProbeFailed) => self.probe(
                next_ready(link::views(self.ifaces@), at + 1),
                none,
            ),
            (Phase::AskingNeighbor { at }, Report::Neighbor(Some(addr))) => {
                let iface = self.ifaces@[at as int].name;
                self.connect(
                    Target {
                        host: Endpoint::Tcp(addr),
                        baud: 0,
                        host_name: None,
                        link_iface: Some(iface),
                    },
                    seq![Effect::Log(LogNote::NeighborFound { iface, addr })],
                )
            },
            (Phase::AskingNeighbor { at }, Report::Neighbor(None)) => self.probe(
                next_ready(link::views(self.ifaces@), at + 1),
                none,
            ),
            (Phase::Resting, Report::Rested) => Next {
                core: self,
                phase: Phase::Polling,
                effects: none,
                work: Work::PollShutdown,
            },
            (Phase::Probing { .. }, Report::Shutdown) => self.stop(none),
            (Phase::Resting, Report::Shutdown) => self.stop(none),
            (Phase::Connecting(_), Report::Shutdown) => self.stop(none),
            (Phase::Connecting(target), Report::Connected) => Next {
                core: self,
                phase: Phase::Handshaking(target),
                effects: none,
                work: Work::Handshake { timeout: self.timings.handshake_timeout },
            },
            (Phase::Connecting(target), Report::ConnectFailed(error)) => self.fail(
                Reason::Connecting { host: target.host, error },
                none,
            ),
            (Phase::Handshaking(_), Report::Shutdown) => self.stop(leave),
            (Phase::Handshaking(_), Report::HandshakeFailed(f)) => self.fail(
                Reason::Handshake(f),
                seq![Effect::Disconnect],
            ),
            (Phase::Handshaking(target), Report::Greeted(said, config)) => {
                let host_name = match target.host_name {
                    Some(n) => n,
                    None => said,
                };
                Next {
                    core: self,
                    phase: Phase::Measuring(Greeting { target, host_name, config }),
                    effects: seq![Effect::Log(LogNote::HandshakeOk { host_name, config })],
                    work: Work::MeasureLink,
                }
            },
            (Phase::Measuring(_), Report::Shutdown) => self.stop(leave),
            (Phase::Measuring(g), Report::Measured(speed)) => Next {
                core: self,
                phase: Phase::OpeningTun(g),
                effects: seq![Effect::LinkSpeed(speed)],
                work: Work::OpenTun(g.config),
            },
            (Phase::Measuring(g), Report::NotMeasured { error, detail }) => {
                let skipped = Effect::Log(LogNote::ProbeSkipped { error, detail });
                if error == SpeedError::Closed || error == SpeedError::Codec {
                    self.fail(
                        Reason::SpeedProbe { error, detail },
                        seq![skipped, Effect::Disconnect],
                    )
                } else {
                    Next {
                        core: self,
                        phase: Phase::OpeningTun(g),
                        effects: seq![skipped],
                        work: Work::OpenTun(g.config),
                    }
                }
            },
            (Phase::OpeningTun(_), Report::Shutdown) => self.stop(leave),
            (Phase::OpeningTun(_), Report::TunFailed(e)) => self.fail(
                Reason::TunCreate(e),
                leave,
            ),
            (Phase::OpeningTun(g), Report::TunOpened(tun)) => Next {
                core: self,
                phase: Phase::Applying { greeting: g, tun },
                effects: none,
                work: Work::Apply {
                    tun,
                    config: g.config,
                    routes: self.cfg.routes,
                    set_dns: self.cfg.set_dns,
                },
            },
            (Phase::Applying { .. }, Report::ApplyFailed(e)) => Next {
                core: self,
                phase: Phase::Undoing(Reason::Apply(e)),
                effects: none,
                work: Work::Revert,
            },
            (Phase::Undoing(reason), Report::Reverted(_)) => self.fail(
                reason,
                seq![Effect::Bye(200), Effect::Disconnect, Effect::CloseTun],
            ),
            (Phase::Applying { greeting: g, tun }, Report::Applied { now }) => {
                let up = StateNote::Connected {
                    host: g.target.host,
                    host_name: g.host_name,
                    tun,
                    config: g.config,
                    since: now,
                };
                Next {
                    core: Core {
                        state: moved(self.state, up),
                        ..self
                    },
                    phase: Phase::Pumping { tun },
                    effects: seq![Effect::Log(LogNote::TunnelUp(tun))] + state_effects(
                        self.state,
                        up,
                    ),
                    work: Work::Pump { link_iface: g.target.link_iface },
                }
            },
            (Phase::Pumping { tun }, Report::Listed(list)) => Next {
                core: self.with_list(list),
                phase,
                effects: self.list_effects(list),
                work: Work::Continue,
            },
            (Phase::Pumping { tun }, Report::Ended(end)) => Next {
                core: self,
                phase: Phase::Reverting { end, tun },
                effects: match end {
                    SessionEnd::HostClosed(_) => seq![Effect::Disconnect],
                    _ => seq![Effect::Bye(500), Effect::Disconnect],
                },
                work: Work::Revert,
            },
            (Phase::Reverting { end, tun }, Report::Reverted(error)) => Next {
                core: self,
                phase: Phase::LastEgress(end),
                effects: (match error {
                    Some(e) => seq![Effect::RevertError(e)],
                    None => none,
                }).push(Effect::CloseTun).push(Effect::Log(LogNote::TornDown(tun))),
                work: Work::ReadEgress,
            },
            (Phase::LastEgress(end), Report::Egress(iface)) => match end {
                SessionEnd::Shutdown => self.stop(Core::egress_effects(iface)),
                SessionEnd::Lost(reason) => self.lose(reason, Core::egress_effects(iface)),
                SessionEnd::HostClosed(reason) => self.lose(reason, Core::egress_effects(iface)),
            },
            _ => Next { core: self, phase, effects: none, work: Work::Continue },
        }
    }
}

// Carrying them out.

/// A step as its parts.
type Step = (Core, Phase, Vec<Effect>, Work);

/// A step as one value.
pub open spec fn step_view(s: (Core, Phase, Vec<Effect>, Work)) -> Next {
    Next { core: s.0, phase: s.1, effects: s.2@, work: s.3 }
}

impl Core {
    fn set_state(&mut self, new: StateNote, effects: &mut Vec<Effect>)
        ensures
            *final(self) == (Core { state: moved(old(self).state, new), ..*old(self) }),
            final(effects)@ == old(effects)@ + state_effects(old(self).state, new),
    {
        let ghost before = effects@;
        if states_equal(&self.state, &new) {
            assert(before + Seq::<Effect>::empty() =~= before);
        } else {
            effects.push(Effect::State(new.copy()));
            self.state = new;
            assert(effects@ =~= before + seq![Effect::State(new)]);
        }
    }

    fn do_stop(self, before: Vec<Effect>) -> (r: Step)
        ensures
            step_view(r) == self.stop(before@),
            (Guest { core: r.0, phase: r.1 }).wf(),
    {
        let mut effects = before;
        effects.push(Effect::Log(LogNote::Stopped));
        (self, Phase::Over, effects, Work::Return(None))
    }

    fn do_wait_for_link(self, before: Vec<Effect>) -> (r: Step)
        ensures
            step_view(r) == self.wait_for_link(before@),
            (Guest { core: r.0, phase: r.1 }).wf(),
    {
        let mut core = self;
        let mut effects = before;
        core.set_state(StateNote::WaitingForLink, &mut effects);
        let pause: u64 = core.timings.retry_backoff;
        (core, Phase::Resting, effects, Work::Sleep(pause))
    }

    fn do_probe(self, at: usize, before: Vec<Effect>) -> (r: Step)
        ensures
            step_view(r) == self.probe(at as int, before@),
            (Guest { core: r.0, phase: r.1 }).wf(),
    {
        let mut core = self;
        let mut effects = before;
        if at < core.ifaces.len() {
            let name = core.ifaces[at].name.clone();
            core.set_state(StateNote::Discovering(name), &mut effects);
            let timeout: u64 = core.timings.probe_timeout;
            (core, Phase::Probing { at }, effects, Work::Probe { at, timeout })
        } else {
            let pause: u64 = core.delay;
            core.delay = next_retry_backoff(pause, core.timings.max_retry_backoff);
            (core, Phase::Resting, effects, Work::Sleep(pause))
        }
    }

    fn do_connect(self, target: Target, before: Vec<Effect>) -> (r: Step)
        ensures
            step_view(r) == self.connect(target, before@),
            (Guest { core: r.0, phase: r.1 }).wf(),
    {
        let mut core = self;
        let mut effects = before;
        core.set_state(StateNote::Connecting(target.host.copy()), &mut effects);
        let work = Work::Connect {
            host: target.host.copy(),
            baud: target.baud,
            timeout: core.timings.connect_timeout,
        };
        (core, Phase::Connecting(target), effects, work)
    }

    fn do_fail(self, reason: Reason, before: Vec<Effect>) -> (r: Step)
        ensures
            step_view(r) == self.fail(reason, before@),
            (Guest { core: r.0, phase: r.1 }).wf(),
    {
        let mut core = self;
        let mut effects = before;
        effects.push(Effect::Error(reason.copy()));
        core.set_state(StateNote::Disconnected(reason.copy()), &mut effects);
        if core.cfg.reconnect {
            core.set_state(StateNote::WaitingForLink, &mut effects);
            let pause: u64 = core.delay;
            core.delay = next_retry_backoff(pause, core.timings.max_retry_backoff);
            (core, Phase::Resting, effects, Work::Sleep(pause))
        } else {
            (core, Phase::Over, effects, Work::Return(Some(reason)))
        }
    }

    fn do_lose(self, reason: Reason, before: Vec<Effect>) -> (r: Step)
        ensures
            step_view(r) == self.lose(reason, before@),
            (Guest { core: r.0, phase: r.1 }).wf(),
    {
        let mut core = self;
        let mut effects = before;
        core.set_state(StateNote::Disconnected(reason.copy()), &mut effects);
        let reconnecting: bool = core.cfg.reconnect;
        effects.push(Effect::Log(LogNote::Disconnected { reason, reconnecting }));
        if reconnecting {
            core.set_state(StateNote::WaitingForLink, &mut effects);
            core.delay = core.timings.retry_backoff;
            let pause: u64 = core.timings.retry_backoff;
            (core, Phase::Resting, effects, Work::Sleep(pause))
        } else {
            (core, Phase::Over, effects, Work::Return(None))
        }
    }

    fn do_find_target(self, before: Vec<Effect>) -> (r: Step)
        ensures
            step_view(r) == self.find_target(before@),
            (Guest { core: r.0, phase: r.1 }).wf(),
    {
        let mut core = self;
        let manual: Option<SocketAddr> = match &core.cfg.host {
            HostTarget::Manual(addr) => Some(*addr),
            _ => None,
        };
        let serial: Option<(String, u32)> = match &core.cfg.host {
            HostTarget::Serial { path, baud } => Some((path.clone(), *baud)),
            _ => None,
        };
        if let Some(addr) = manual {
            match iface_for_addr(&addr, &core.ifaces) {
                // A link-local target is unreachable until its interface has a
                // carrier; retrying regardless just fills the log with
                // "No route to host" once a second.
                Some(iface) => (
                    core,
                    Phase::CheckingLink { addr, iface: iface.clone() },
                    before,
                    Work::CheckLink(iface),
                ),
                None => core.do_connect(
                    Target {
                        host: Endpoint::Tcp(addr),
                        baud: 0,
                        host_name: None,
                        link_iface: None,
                    },
                    before,
                ),
            }
        } else if let Some((path, baud)) = serial {
            let mut effects = before;
            core.set_state(StateNote::Discovering(path.clone()), &mut effects);
            core.do_connect(
                Target { host: Endpoint::Serial(path), baud, host_name: None, link_iface: None },
                effects,
            )
        } else {
            let first: usize = find_ready(&core.ifaces, 0);
            if first < core.ifaces.len() {
                core.do_probe(first, before)
            } else {
                core.do_wait_for_link(before)
            }
        }
    }
}

fn egress_notes(iface: Option<String>) -> (r: Vec<Effect>)
    ensures
        r@ == Core::egress_effects(iface),
{
    let mut effects: Vec<Effect> = Vec::new();
    effects.push(Effect::Log(LogNote::LocalEgress(copy_option(&iface))));
    effects.push(Effect::LocalEgress(iface));
    assert(effects@ =~= Core::egress_effects(iface));
    effects
}

fn leave_notes() -> (r: Vec<Effect>)
    ensures
        r@ == seq![Effect::Bye(200), Effect::Disconnect],
{
    let mut effects: Vec<Effect> = Vec::new();
    effects.push(Effect::Bye(200));
    effects.push(Effect::Disconnect);
    assert(effects@ =~= seq![Effect::Bye(200), Effect::Disconnect]);
    effects
}

fn one(e: Effect) -> (r: Vec<Effect>)
    ensures
        r@ == seq![e],
{
    let mut effects: Vec<Effect> = Vec::new();
    effects.push(e);
    assert(effects@ =~= seq![e]);
    effects
}

impl Guest {
    /// The interface that is being looked at is on the list.
    pub open spec fn wf(self) -> bool {
        match self.phase {
            Phase::Probing { at } => at < self.core.ifaces@.len(),
            Phase::AskingNeighbor { at } => at < self.core.ifaces@.len(),
            _ => true,
        }
    }

    /// A guest that has not started. Its first work is to read the local
    /// egress interface.
    pub fn new(cfg: GuestConfig, timings: Timings) -> (r: Self)
        ensures
            r.wf(),
            r.phase == Phase::FirstEgress,
            r.core.cfg == cfg,
            r.core.timings == timings,
            r.core.state == StateNote::NotStarted,
            r.core.ifaces@ == Seq::<LinkInterface>::empty(),
            !r.core.listed,
            r.core.delay == timings.retry_backoff,
    {
        Guest {
            core: Core {
                cfg,
                timings,
                state: StateNote::NotStarted,
                ifaces: Vec::new(),
                listed: false,
                delay: timings.retry_backoff,
            },
            phase: Phase::FirstEgress,
        }
    }

    /// Takes the report on the work that was asked for: the guest after it, the
    /// effects to carry out in order, and the next work.
    pub fn step(self, r: Report) -> (next: (Guest, Vec<Effect>, Work))
        requires
            self.wf(),
        ensures
            ({
                let n = self.core.next(self.phase, r);
                &&& n.core == next.0.core
                &&& n.phase == next.0.phase
                &&& n.effects == next.1@
                &&& same_work(n.work, next.2)
            }),
            next.0.wf(),
    {
        let (core, phase, effects, work) = advance(self.core, self.phase, r);
        (Guest { core, phase }, effects, work)
    }
}

#[verifier::rlimit(40)]
fn advance(core: Core, phase: Phase, r: Report) -> (next: Step)
    requires
        (Guest { core, phase }).wf(),
    ensures
        ({
            let n = core.next(phase, r);
            &&& n == (Next { work: n.work, ..step_view(next) })
            &&& same_work(n.work, next.3)
        }),
        (Guest { core: next.0, phase: next.1 }).wf(),
{
    match (phase, r) {
        (Phase::FirstEgress, Report::Egress(iface)) => (
            core,
            Phase::Polling,
            egress_notes(iface),
            Work::PollShutdown,
        ),
        (Phase::Polling, Report::Polled(shutdown)) => if shutdown {
            core.do_stop(Vec::new())
        } else {
            (core, Phase::Listing, Vec::new(), Work::ListInterfaces)
        },
        (Phase::Listing, Report::Listed(list)) => {
            let mut core = core;
            let changed: bool = !core.listed || !link::same_links(&core.ifaces, &list);
            if changed {
                core.ifaces = list;
                core.listed = true;
                core.do_find_target(one(Effect::Interfaces))
            } else {
                core.do_find_target(Vec::new())
            }
        },
        (Phase::CheckingLink { addr, iface }, Report::Carrier(c)) => {
            let dead: bool = match c {
                Some(up) => !up,
                None => false,
            };
            if dead {
                core.do_wait_for_link(Vec::new())
            } else {
                core.do_connect(
                    Target {
                        host: Endpoint::Tcp(addr),
                        baud: 0,
                        host_name: None,
                        link_iface: Some(iface),
                    },
                    Vec::new(),
                )
            }
        },
        (Phase::Probing { at }, Report::Probed(Some((host_name, addr)))) => {
            let iface = core.ifaces[at].name.clone();
            let note = LogNote::Discovered {
                host_name: host_name.clone(),
                addr,
                iface: iface.clone(),
            };
            core.do_connect(
                Target {
                    host: Endpoint::Tcp(addr),
                    baud: 0,
                    host_name: Some(host_name),
                    link_iface: Some(iface),
                },
                one(Effect::Log(note)),
            )
        },
        (Phase::Probing { at }, Report::Probed(None)) => (
            core,
            Phase::AskingNeighbor { at },
            Vec::new(),
            Work::AskNeighbor { at },
        ),
        (Phase::Probing { at }, Report::ProbeFailed) => {
            let n: usize = core.ifaces.len();
            assert(at < n);
            let further: usize = find_ready(&core.ifaces, at + 1);
            core.do_probe(further, Vec::new())
        },
        (Phase::AskingNeighbor { at }, Report::Neighbor(Some(addr))) => {
            let iface = core.ifaces[at].name.clone();
            let note = LogNote::NeighborFound { iface: iface.clone(), addr };
            core.do_connect(
                Target {
                    host: Endpoint::Tcp(addr),
                    baud: 0,
                    host_name: None,
                    link_iface: Some(iface),
                },
                one(Effect::Log(note)),
            )
        },
        (Phase::AskingNeighbor { at }, Report::Neighbor(None)) => {
            let n: usize = core.ifaces.len();
            assert(at < n);
            let further: usize = find_ready(&core.ifaces, at + 1);
            core.do_probe(further, Vec::new())
        },
        (Phase::Resting, Report::Rested) => (core, Phase::Polling, Vec::new(), Work::PollShutdown),
        (Phase::Probing { .. }, Report::Shutdown) => core.do_stop(Vec::new()),
        (Phase::Resting, Report::Shutdown) => core.do_stop(Vec::new()),
        (Phase::Connecting(_), Report::Shutdown) => core.do_stop(Vec::new()),
        (Phase::Connecting(target), Report::Connected) => {
            let timeout: u64 = core.timings.handshake_timeout;
            (core, Phase::Handshaking(target), Vec::new(), Work::Handshake { timeout })
        },
        (Phase::Connecting(target), Report::ConnectFailed(error)) => core.do_fail(
            Reason::Connecting { host: target.host, error },
            Vec::new(),
        ),
        (Phase::Handshaking(_), Report::Shutdown) => core.do_stop(leave_notes()),
        (Phase::Handshaking(_), Report::HandshakeFailed(f)) => core.do_fail(
            Reason::Handshake(f),
            one(Effect::Disconnect),
        ),
        (Phase::Handshaking(target), Report::Greeted(said, config)) => {
            let host_name = match &target.host_name {
                Some(n) => n.clone(),
                None => said,
            };
            let note = LogNote::HandshakeOk { host_name: host_name.clone(), config };
            (
                core,
                Phase::Measuring(Greeting { target, host_name, config }),
                one(Effect::Log(note)),
                Work::MeasureLink,
            )
        },
        (Phase::Measuring(_), Report::Shutdown) => core.do_stop(leave_notes()),
        (Phase::Measuring(g), Report::Measured(speed)) => {
            let config = g.config;
            (core, Phase::OpeningTun(g), one(Effect::LinkSpeed(speed)), Work::OpenTun(config))
        },
        (Phase::Measuring(g), Report::NotMeasured { error, detail }) => {
            let skipped = Effect::Log(LogNote::ProbeSkipped { error, detail: detail.clone() });
            let ghost note = skipped;
            let mut effects = one(skipped);
            if error == SpeedError::Closed || error == SpeedError::Codec {
                effects.push(Effect::Disconnect);
                assert(effects@ =~= seq![note, Effect::Disconnect]);
                core.do_fail(Reason::SpeedProbe { error, detail }, effects)
            } else {
                let config = g.config;
                (core, Phase::OpeningTun(g), effects, Work::OpenTun(config))
            }
        },
        (Phase::OpeningTun(_), Report::Shutdown) => core.do_stop(leave_notes()),
        (Phase::OpeningTun(_), Report::TunFailed(e)) => core.do_fail(
            Reason::TunCreate(e),
            leave_notes(),
        ),
        (Phase::OpeningTun(g), Report::TunOpened(tun)) => {
            let work = Work::Apply {
                tun: tun.clone(),
                config: g.config,
                routes: core.cfg.routes.copy(),
                set_dns: core.cfg.set_dns,
            };
            (core, Phase::Applying { greeting: g, tun }, Vec::new(), work)
        },
        (Phase::Applying { .. }, Report::ApplyFailed(e)) => (
            core,
            Phase::Undoing(Reason::Apply(e)),
            Vec::new(),
            Work::Revert,
        ),
        (Phase::Undoing(reason), Report::Reverted(_)) => {
            let mut effects = leave_notes();
            effects.push(Effect::CloseTun);
            assert(effects@ =~= seq![Effect::Bye(200), Effect::Disconnect, Effect::CloseTun]);
            core.do_fail(reason, effects)
        },
        (Phase::Applying { greeting: g, tun }, Report::Applied { now }) => {
            let mut core = core;
            let mut effects = one(Effect::Log(LogNote::TunnelUp(tun.clone())));
            let Greeting { target, host_name, config } = g;
            let Target { host, baud: _, host_name: _, link_iface } = target;
            core.set_state(
                StateNote::Connected { host, host_name, tun: tun.clone(), config, since: now },
                &mut effects,
            );
            (core, Phase::Pumping { tun }, effects, Work::Pump { link_iface })
        },
        (Phase::Pumping { tun }, Report::Listed(list)) => {
            let mut core = core;
            let changed: bool = !core.listed || !link::same_links(&core.ifaces, &list);
            let effects: Vec<Effect> = if changed {
                core.ifaces = list;
                core.listed = true;
                one(Effect::Interfaces)
            } else {
                Vec::new()
            };
            (core, Phase::Pumping { tun }, effects, Work::Continue)
        },
        (Phase::Pumping { tun }, Report::Ended(end)) => {
            let mut effects: Vec<Effect> = Vec::new();
            match &end {
                SessionEnd::HostClosed(_) => {},
                _ => {
                    effects.push(Effect::Bye(500));
                },
            }
            effects.push(Effect::Disconnect);
            proof {
                if end is HostClosed {
                    assert(effects@ =~= seq![Effect::Disconnect]);
                } else {
                    assert(effects@ =~= seq![Effect::Bye(500), Effect::Disconnect]);
                }
            }
            (core, Phase::Reverting { end, tun }, effects, Work::Revert)
        },
        (Phase::Reverting { end, tun }, Report::Reverted(error)) => {
            let mut effects: Vec<Effect> = match error {
                Some(e) => one(Effect::RevertError(e)),
                None => Vec::new(),
            };
            effects.push(Effect::CloseTun);
            effects.push(Effect::Log(LogNote::TornDown(tun)));
            (core, Phase::LastEgress(end), effects, Work::ReadEgress)
        },
        (Phase::LastEgress(end), Report::Egress(iface)) => {
            // The user was just routing everything through a cable that is now
            // gone; say where their traffic goes instead, otherwise a dropped
            // tunnel looks exactly like a broken machine.
            let effects = egress_notes(iface);
            match end {
                SessionEnd::Shutdown => core.do_stop(effects),
                SessionEnd::Lost(reason) => core.do_lose(reason, effects),
                SessionEnd::HostClosed(reason) => core.do_lose(reason, effects),
            }
        },
        (phase, _) => (core, phase, Vec::new(), Work::Continue),
    }
}

// What holds of every run.

/// How many configurations are in place that nothing has been asked to revert.
pub open spec fn outstanding(phase: Phase) -> int {
    match phase {
        Phase::Applying { .. } => 1,
        Phase::Pumping { .. } => 1,
        _ => 0,
    }
}

/// The works that a guest asks for while it takes some reports.
pub open spec fn works(core: Core, phase: Phase, reports: Seq<Report>) -> Seq<Work>
    decreases reports.len(),
{
    if reports.len() == 0 {
        Seq::empty()
    } else {
        let n = core.next(phase, reports[0]);
        seq![n.work] + works(n.core, n.phase, reports.skip(1))
    }
}

/// Where a guest is after some reports.
pub open spec fn phase_after(core: Core, phase: Phase, reports: Seq<Report>) -> Phase
    decreases reports.len(),
{
    if reports.len() == 0 {
        phase
    } else {
        let n = core.next(phase, reports[0]);
        phase_after(n.core, n.phase, reports.skip(1))
    }
}

/// How many configurations are asked for in some works.
pub open spec fn applies(w: Seq<Work>) -> int
    decreases w.len(),
{
    if w.len() == 0 {
        0
    } else {
        (if w[0] is Apply {
            1int
        } else {
            0
        }) + applies(w.skip(1))
    }
}

/// How many reverts are asked for in some works.
pub open spec fn reverts(w: Seq<Work>) -> int
    decreases w.len(),
{
    if w.len() == 0 {
        0
    } else {
        (if w[0] is Revert {
            1int
        } else {
            0
        }) + reverts(w.skip(1))
    }
}

/// One step keeps the books.
proof fn step_balance(core: Core, phase: Phase, r: Report)
    ensures
        ({
            let n = core.next(phase, r);
            outstanding(n.phase) == outstanding(phase) + (if n.work is Apply {
                1int
            } else {
                0
            }) - (if n.work is Revert {
                1int
            } else {
                0
            })
        }),
        core.next(phase, r).work is Return ==> core.next(phase, r).phase == Phase::Over,
{
}

/// Whatever happens, every configuration that is asked for is asked to be
/// reverted, once: in any run the reverts never outnumber the configurations,
/// at most one of these is in place, and when the guest has stopped none is.
pub proof fn every_configuration_is_reverted(core: Core, phase: Phase, reports: Seq<Report>)
    ensures
        applies(works(core, phase, reports)) - reverts(works(core, phase, reports))
            == outstanding(phase_after(core, phase, reports)) - outstanding(phase),
        0 <= outstanding(phase_after(core, phase, reports)) <= 1,
        phase_after(core, phase, reports) == Phase::Over ==> outstanding(
            phase_after(core, phase, reports),
        ) == 0,
    decreases reports.len(),
{
    if reports.len() > 0 {
        let n = core.next(phase, reports[0]);
        step_balance(core, phase, reports[0]);
        every_configuration_is_reverted(n.core, n.phase, reports.skip(1));
        let w = works(core, phase, reports);
        assert(w.skip(1) =~= works(n.core, n.phase, reports.skip(1)));
        assert(w[0] == n.work);
    }
}

/// Nothing is configured before a handshake has succeeded: the configuration
/// is asked for only once the TUN is open, and that only after the host has
/// given its configuration, which is the one that is applied, with the routes
/// and the choice of resolver that the guest was started with.
pub proof fn no_configuration_before_handshake(core: Core, phase: Phase, r: Report)
    requires
        core.next(phase, r).work is Apply,
    ensures
        phase matches Phase::OpeningTun(g) && (core.next(phase, r).work matches Work::Apply {
            config,
            routes,
            set_dns,
            ..
        } && config == g.config && routes == core.cfg.routes && set_dns == core.cfg.set_dns),
{
}

/// The guest keeps the configuration that it was started with.
pub proof fn the_configuration_stays(core: Core, phase: Phase, r: Report)
    ensures
        core.next(phase, r).core.cfg == core.cfg,
{
}

/// A shutdown is honoured at once wherever the guest waits for the outside:
/// it stops without asking for anything more, or, where the tunnel is up, it
/// says goodbye and asks for the revert.
pub proof fn shutdown_is_honoured(core: Core, phase: Phase)
    ensures
        phase is Probing || phase is Resting || phase is Connecting || phase is Handshaking
            || phase is Measuring || phase is OpeningTun ==> core.next(phase, Report::Shutdown).work
            == Work::Return(None),
        core.next(Phase::Polling, Report::Polled(true)).work == Work::Return(None),
        phase is Pumping ==> {
            let n = core.next(phase, Report::Ended(SessionEnd::Shutdown));
            n.work == Work::Revert && n.effects == seq![Effect::Bye(500), Effect::Disconnect]
        },
{
}

/// A host that closed the tunnel is not sent a `Bye`; in every other case the
/// end of a session sends one.
pub proof fn bye_unless_the_host_closed(core: Core, tun: String, end: SessionEnd)
    ensures
        core.next(Phase::Pumping { tun }, Report::Ended(end)).effects.contains(Effect::Bye(500))
            <==> !(end is HostClosed),
{
    let e = core.next(Phase::Pumping { tun }, Report::Ended(end)).effects;
    if !(end is HostClosed) {
        assert(e[0] == Effect::Bye(500));
    }
}

/// A state is reported only when it differs from the one before.
pub proof fn states_are_reported_on_change(old: StateNote, new: StateNote)
    ensures
        state_effects(old, new).len() > 0 <==> !same_state(old, new),
        same_state(old, new) ==> moved(old, new) == old,
        !same_state(old, new) ==> moved(old, new) == new && state_effects(old, new)
            == seq![Effect::State(new)],
{
}

/// After a session that was up, the pause is the shortest again; after an
/// attempt that failed, or a round in which nobody answered, the next pause is
/// the doubled one.
pub proof fn pauses_grow_until_a_session_comes_up(core: Core, reason: Reason, before: Seq<Effect>)
    requires
        core.cfg.reconnect,
    ensures
        core.fail(reason, before).work == Work::Sleep(core.delay),
        core.fail(reason, before).core.delay == guest::doubled(
            core.delay as nat,
            core.timings.max_retry_backoff as nat,
        ),
        core.probe(core.ifaces@.len() as int, before).work == Work::Sleep(core.delay),
        core.probe(core.ifaces@.len() as int, before).core.delay == guest::doubled(
            core.delay as nat,
            core.timings.max_retry_backoff as nat,
        ),
        core.lose(reason, before).work == Work::Sleep(core.timings.retry_backoff),
        core.lose(reason, before).core.delay == core.timings.retry_backoff,
{
}

/// A guest with a manual or a serial target never probes.
pub proof fn only_auto_probes(core: Core, phase: Phase, r: Report)
    requires
        !(core.cfg.host is Auto),
        !(phase is Probing),
        !(phase is AskingNeighbor),
    ensures
        !(core.next(phase, r).work is Probe),
        !(core.next(phase, r).phase is Probing),
        !(core.next(phase, r).phase is AskingNeighbor),
        core.next(phase, r).core.cfg == core.cfg,
{
}

/// An interface without a link is not probed.
pub proof fn only_ready_links_are_probed(list: Seq<LinkView>, from: int)
    requires
        0 <= from <= list.len(),
    ensures
        from <= next_ready(list, from) <= list.len(),
        next_ready(list, from) < list.len() ==> list[next_ready(list, from)].ready(),
        forall|k: int| from <= k < next_ready(list, from) ==> !(#[trigger] list[k]).ready(),
    decreases list.len() - from,
{
    if from < list.len() && !list[from].ready() {
        only_ready_links_are_probed(list, from + 1);
    }
}

// In words.

/// The routes as they appear in the log.
pub open spec fn routes_text(routes: RouteMode) -> Seq<char> {
    match routes {
        RouteMode::Full => "Full"@,
        RouteMode::Custom(nets) => "Custom(["@ + cidr::nets_text(nets@) + "])"@,
    }
}

/// The routes as they appear in the log.
pub fn write_routes(routes: &RouteMode) -> (r: String)
    ensures
        r@ == routes_text(*routes),
{
    match routes {
        RouteMode::Full => "Full".to_owned(),
        RouteMode::Custom(nets) => text::cat3("Custom([", write_nets(nets).as_str(), "])"),
    }
}

impl LogNote {
    /// The line in words.
    pub open spec fn spec_text(self, cfg: GuestConfig) -> Seq<char> {
        match self {
            LogNote::LocalEgress(Some(name)) => "traffic goes through the local network via "@
                + name@,
            LogNote::LocalEgress(None) =>
                "traffic goes through the local network (Wi-Fi / Ethernet)"@,
            LogNote::Discovered { host_name, addr, iface } => "discovered host "@ + host_name@
                + " at "@ + addr.spec_text() + " via "@ + iface@,
            LogNote::NeighborFound { iface, addr } => "组播未应答，改为直连 "@ + iface@
                + " 上的邻居 "@ + addr.spec_text(),
            LogNote::HandshakeOk { host_name, config } => "handshake with "@ + host_name@ + " ok: "@
                + config.guest_ip.spec_text() + "/"@ + text::dec(config.prefix_len as nat) + " via "@
                + config.gateway_ip.spec_text() + " dns "@ + config.dns.spec_text() + " mtu "@
                + text::dec(config.mtu as nat),
            LogNote::ProbeSkipped { error, detail } => "link capacity probe skipped: "@
                + error.spec_text(detail@),
            LogNote::TunnelUp(tun) => "tunnel up on "@ + tun@ + ": routes "@ + routes_text(
                cfg.routes,
            ) + (if cfg.set_dns {
                ", dns set"@
            } else {
                ", dns untouched"@
            }),
            LogNote::TornDown(tun) => "tunnel "@ + tun@ + " torn down"@,
            LogNote::Disconnected { reason, reconnecting } => "disconnected ("@ + reason.spec_text()
                + (if reconnecting {
                "); reconnecting"@
            } else {
                "); reconnect disabled"@
            }),
            LogNote::Stopped => "guest stopped"@,
        }
    }

    /// The line in words.
    pub fn text(&self, cfg: &GuestConfig) -> (r: String)
        ensures
            r@ == self.spec_text(*cfg),
    {
        match self {
            LogNote::LocalEgress(Some(name)) => text::cat2(
                "traffic goes through the local network via ",
                name.as_str(),
            ),
            LogNote::LocalEgress(None) =>
                "traffic goes through the local network (Wi-Fi / Ethernet)".to_owned(),
            LogNote::Discovered { host_name, addr, iface } => {
                let mut s = text::cat3("discovered host ", host_name.as_str(), " at ");
                s.append(addr.text().as_str());
                s.append(" via ");
                s.append(iface.as_str());
                s
            },
            LogNote::NeighborFound { iface, addr } => {
                let mut s = text::cat3("组播未应答，改为直连 ", iface.as_str(), " 上的邻居 ");
                s.append(addr.text().as_str());
                s
            },
            LogNote::HandshakeOk { host_name, config } => {
                let mut s = text::cat3("handshake with ", host_name.as_str(), " ok: ");
                s.append(config.guest_ip.text().as_str());
                s.append("/");
                s.append(text::decimal(config.prefix_len as u64).as_str());
                s.append(" via ");
                s.append(config.gateway_ip.text().as_str());
                s.append(" dns ");
                s.append(config.dns.text().as_str());
                s.append(" mtu ");
                s.append(text::decimal(config.mtu as u64).as_str());
                s
            },
            LogNote::ProbeSkipped { error, detail } => text::cat2(
                "link capacity probe skipped: ",
                error.text(detail.as_str()).as_str(),
            ),
            LogNote::TunnelUp(tun) => {
                let mut s = text::cat3("tunnel up on ", tun.as_str(), ": routes ");
                s.append(write_routes(&cfg.routes).as_str());
                s.append(
                    if cfg.set_dns {
                        ", dns set"
                    } else {
                        ", dns untouched"
                    },
                );
                s
            },
            LogNote::TornDown(tun) => text::cat3("tunnel ", tun.as_str(), " torn down"),
            LogNote::Disconnected { reason, reconnecting } => text::cat3(
                "disconnected (",
                reason.text().as_str(),
                if *reconnecting {
                    "); reconnecting"
                } else {
                    "); reconnect disabled"
                },
            ),
            LogNote::Stopped => "guest stopped".to_owned(),
        }
    }
}

/// The state that an observer sees for a note.
pub open spec fn shows(note: StateNote, state: GuestState) -> bool {
    match (note, state) {
        (StateNote::NotStarted, GuestState::Disconnected { reason }) => reason@
            == "not started"@,
        (StateNote::WaitingForLink, GuestState::WaitingForLink) => true,
        (StateNote::Discovering(x), GuestState::Discovering { iface }) => x == iface,
        (StateNote::Connecting(x), GuestState::Connecting { host }) => x == host,
        (
            StateNote::Connected { host, host_name, tun, config, since },
            GuestState::Connected { host: h, host_name: n, tun: t, config: c, since: s },
        ) => host == h && host_name == n && tun == t && config == c && since == s,
        (StateNote::Disconnected(r), GuestState::Disconnected { reason }) => reason@
            == r.spec_text(),
        _ => false,
    }
}

impl StateNote {
    /// The state that an observer sees.
    pub fn shown(&self) -> (r: GuestState)
        ensures
            shows(*self, r),
    {
        match self {
            StateNote::NotStarted => GuestState::Disconnected { reason: "not started".to_owned() },
            StateNote::WaitingForLink => GuestState::WaitingForLink,
            StateNote::Discovering(x) => GuestState::Discovering { iface: x.clone() },
            StateNote::Connecting(x) => GuestState::Connecting { host: x.copy() },
            StateNote::Connected { host, host_name, tun, config, since } => GuestState::Connected {
                host: host.copy(),
                host_name: host_name.clone(),
                tun: tun.clone(),
                config: *config,
                since: *since,
            },
            StateNote::Disconnected(r) => GuestState::Disconnected { reason: r.text() },
        }
    }
}

/// The event that an effect is to an observer.
pub open spec fn announces(e: Effect, core: Core, ev: Option<GuestEvent>) -> bool {
    match e {
        Effect::State(note) => ev matches Some(GuestEvent::StateChanged(s)) && shows(note, s),
        Effect::Interfaces => ev matches Some(GuestEvent::Interfaces(l)) && l@ == core.ifaces@,
        Effect::LocalEgress(i) => ev matches Some(GuestEvent::LocalEgress(j)) && i == j,
        Effect::LinkSpeed(s) => ev == Some(GuestEvent::LinkSpeed(s)),
        Effect::Log(note) => ev matches Some(GuestEvent::Log(t)) && t@ == note.spec_text(core.cfg),
        Effect::Error(r) => ev matches Some(GuestEvent::Error(t)) && t@ == r.spec_text(),
        Effect::RevertError(x) => ev matches Some(GuestEvent::Error(t)) && t@
            == "reverting platform configuration: "@ + x@,
        Effect::Bye(_) | Effect::Disconnect | Effect::CloseTun => ev is None,
    }
}

impl Effect {
    /// The event that the effect is to an observer; `None` if it is none.
    pub fn event(&self, core: &Core) -> (ev: Option<GuestEvent>)
        ensures
            announces(*self, *core, ev),
    {
        match self {
            Effect::State(note) => Some(GuestEvent::StateChanged(note.shown())),
            Effect::Interfaces => Some(GuestEvent::Interfaces(link::copy_links(&core.ifaces))),
            Effect::LocalEgress(i) => Some(GuestEvent::LocalEgress(copy_option(i))),
            Effect::LinkSpeed(s) => Some(GuestEvent::LinkSpeed(*s)),
            Effect::Log(note) => Some(GuestEvent::Log(note.text(&core.cfg))),
            Effect::Error(r) => Some(GuestEvent::Error(r.text())),
            Effect::RevertError(x) => Some(
                GuestEvent::Error(text::cat2("reverting platform configuration: ", x.as_str())),
            ),
            Effect::Bye(_) | Effect::Disconnect | Effect::CloseTun => None,
        }
    }
}

// What the guest is for.

/// A session that was up and ended, for whatever reason but a shutdown, is
/// reported as disconnected with that reason, and then the guest waits for the
/// link again: after the shortest pause it goes into another round, which
/// begins with the question whether to shut down and with a new list of the
/// interfaces. Without reconnecting it is reported just the same, and the guest
/// returns in order.
pub proof fn a_session_that_ended_is_followed_by_another(
    core: Core,
    end: SessionEnd,
    reason: Reason,
    iface: Option<String>,
)
    requires
        end == SessionEnd::Lost(reason) || end == SessionEnd::HostClosed(reason),
        core.state is Connected,
    ensures
        ({
            let n = core.next(Phase::LastEgress(end), Report::Egress(iface));
            let told = seq![
                Effect::Log(LogNote::LocalEgress(iface)),
                Effect::LocalEgress(iface),
                Effect::State(StateNote::Disconnected(reason)),
                Effect::Log(
                    LogNote::Disconnected { reason, reconnecting: core.cfg.reconnect },
                ),
            ];
            &&& core.cfg.reconnect ==> {
                &&& n.effects == told.push(Effect::State(StateNote::WaitingForLink))
                &&& n.core.state == StateNote::WaitingForLink
                &&& n.phase == Phase::Resting
                &&& n.work == Work::Sleep(core.timings.retry_backoff)
                &&& n.core.delay == core.timings.retry_backoff
                &&& n.core.next(n.phase, Report::Rested).work == Work::PollShutdown
                &&& n.core.next(
                    n.core.next(n.phase, Report::Rested).phase,
                    Report::Polled(false),
                ).work == Work::ListInterfaces
            }
            &&& !core.cfg.reconnect ==> {
                &&& n.effects == told
                &&& n.core.state == StateNote::Disconnected(reason)
                &&& n.work == Work::Return(None)
            }
        }),
{
    let n = core.next(Phase::LastEgress(end), Report::Egress(iface));
    let told = seq![
        Effect::Log(LogNote::LocalEgress(iface)),
        Effect::LocalEgress(iface),
        Effect::State(StateNote::Disconnected(reason)),
        Effect::Log(LogNote::Disconnected { reason, reconnecting: core.cfg.reconnect }),
    ];
    if core.cfg.reconnect {
        assert(n.effects =~= told.push(Effect::State(StateNote::WaitingForLink)));
    } else {
        assert(n.effects =~= told);
    }
}

/// With reconnecting, nothing stops the guest but a shutdown; it returns an
/// error only without, and then the reason of the attempt that failed.
pub proof fn only_a_shutdown_stops_the_guest(core: Core, phase: Phase, r: Report)
    requires
        core.next(phase, r).work is Return,
    ensures
        core.cfg.reconnect ==> {
            ||| r is Shutdown
            ||| r == Report::Polled(true)
            ||| phase == Phase::LastEgress(SessionEnd::Shutdown)
        },
        core.next(phase, r).work == Work::Return(None) || !core.cfg.reconnect,
        core.next(phase, r).phase == Phase::Over,
{
}

/// A session that was ended by a shutdown is followed by nothing but the end.
pub proof fn a_shutdown_session_is_the_last(core: Core, iface: Option<String>)
    ensures
        ({
            let n = core.next(Phase::LastEgress(SessionEnd::Shutdown), Report::Egress(iface));
            &&& n.work == Work::Return(None)
            &&& n.effects == seq![
                Effect::Log(LogNote::LocalEgress(iface)),
                Effect::LocalEgress(iface),
                Effect::Log(LogNote::Stopped),
            ]
        }),
{
    let n = core.next(Phase::LastEgress(SessionEnd::Shutdown), Report::Egress(iface));
    assert(n.effects =~= seq![
        Effect::Log(LogNote::LocalEgress(iface)),
        Effect::LocalEgress(iface),
        Effect::Log(LogNote::Stopped),
    ]);
}

/// The attempt failed for this reason: the error and the state are reported,
/// and the guest tries again after the pause that is due, or returns the error.
pub open spec fn failed_for(core: Core, n: Next, reason: Reason) -> bool {
    &&& n.effects.contains(Effect::Error(reason))
    &&& core.cfg.reconnect ==> n.phase == Phase::Resting && n.work == Work::Sleep(core.delay)
        && n.core.state is WaitingForLink
    &&& !core.cfg.reconnect ==> n.work == Work::Return(Some(reason))
    &&& !same_state(core.state, StateNote::Disconnected(reason)) ==> n.effects.contains(
        Effect::State(StateNote::Disconnected(reason)),
    )
}

proof fn failing_is_told(core: Core, reason: Reason, before: Seq<Effect>)
    ensures
        failed_for(core, core.fail(reason, before), reason),
        forall|i: int|
            0 <= i < before.len() ==> (#[trigger] core.fail(reason, before).effects[i])
                == before[i],
{
    let n = core.fail(reason, before);
    assert(n.effects[before.len() as int] == Effect::Error(reason));
    if !same_state(core.state, StateNote::Disconnected(reason)) {
        assert(n.effects[before.len() as int + 1] == Effect::State(StateNote::Disconnected(reason)));
    }
}

/// An attempt that fails, at whatever point, is reported with its reason and
/// tried again: the host does not answer, the handshake fails, the connection
/// dies during the measurement, the TUN cannot be opened, or the system cannot
/// be configured.
pub proof fn an_attempt_that_fails_is_tried_again(
    core: Core,
    target: Target,
    g: Greeting,
    error: String,
    f: HandshakeFailure,
    speed: SpeedError,
    reason: Reason,
    reverted: Option<String>,
)
    ensures
        failed_for(
            core,
            core.next(Phase::Connecting(target), Report::ConnectFailed(error)),
            Reason::Connecting { host: target.host, error },
        ),
        failed_for(
            core,
            core.next(Phase::Handshaking(target), Report::HandshakeFailed(f)),
            Reason::Handshake(f),
        ),
        speed == SpeedError::Closed || speed == SpeedError::Codec ==> failed_for(
            core,
            core.next(Phase::Measuring(g), Report::NotMeasured { error: speed, detail: error }),
            Reason::SpeedProbe { error: speed, detail: error },
        ),
        failed_for(
            core,
            core.next(Phase::OpeningTun(g), Report::TunFailed(error)),
            Reason::TunCreate(error),
        ),
        failed_for(core, core.next(Phase::Undoing(reason), Report::Reverted(reverted)), reason),
{
    let leave = seq![Effect::Bye(200), Effect::Disconnect];
    failing_is_told(core, Reason::Connecting { host: target.host, error }, Seq::empty());
    failing_is_told(core, Reason::Handshake(f), seq![Effect::Disconnect]);
    failing_is_told(
        core,
        Reason::SpeedProbe { error: speed, detail: error },
        seq![
            Effect::Log(LogNote::ProbeSkipped { error: speed, detail: error }),
            Effect::Disconnect,
        ],
    );
    failing_is_told(core, Reason::TunCreate(error), leave);
    failing_is_told(
        core,
        reason,
        seq![Effect::Bye(200), Effect::Disconnect, Effect::CloseTun],
    );
}

/// A connection that is given up is closed: wherever an attempt fails after the
/// connection was made, or is cut short by a shutdown, it is disconnected, with
/// a `Bye` before unless the host is to blame; a TUN that was open is closed.
pub proof fn what_was_opened_is_closed(
    core: Core,
    target: Target,
    g: Greeting,
    error: String,
    f: HandshakeFailure,
    reason: Reason,
    reverted: Option<String>,
)
    ensures
        core.next(Phase::Handshaking(target), Report::HandshakeFailed(f)).effects[0]
            == Effect::Disconnect,
        ({
            let e = core.next(Phase::OpeningTun(g), Report::TunFailed(error)).effects;
            e[0] == Effect::Bye(200) && e[1] == Effect::Disconnect
        }),
        ({
            let e = core.next(Phase::Undoing(reason), Report::Reverted(reverted)).effects;
            e[0] == Effect::Bye(200) && e[1] == Effect::Disconnect && e[2] == Effect::CloseTun
        }),
        ({
            let e = core.next(Phase::Handshaking(target), Report::Shutdown).effects;
            e[0] == Effect::Bye(200) && e[1] == Effect::Disconnect
        }),
        ({
            let e = core.next(Phase::Measuring(g), Report::Shutdown).effects;
            e[0] == Effect::Bye(200) && e[1] == Effect::Disconnect
        }),
        ({
            let e = core.next(Phase::OpeningTun(g), Report::Shutdown).effects;
            e[0] == Effect::Bye(200) && e[1] == Effect::Disconnect
        }),
{
    let leave = seq![Effect::Bye(200), Effect::Disconnect];
    let all = seq![Effect::Bye(200), Effect::Disconnect, Effect::CloseTun];
    let one = seq![Effect::Disconnect];
    failing_is_told(core, Reason::Handshake(f), one);
    assert(core.fail(Reason::Handshake(f), one).effects[0] == one[0]);
    failing_is_told(core, Reason::TunCreate(error), leave);
    assert(core.fail(Reason::TunCreate(error), leave).effects[0] == leave[0]);
    assert(core.fail(Reason::TunCreate(error), leave).effects[1] == leave[1]);
    failing_is_told(core, reason, all);
    assert(core.fail(reason, all).effects[0] == all[0]);
    assert(core.fail(reason, all).effects[1] == all[1]);
    assert(core.fail(reason, all).effects[2] == all[2]);
}

/// The way up: connected, the guest shakes hands; greeted, it measures the
/// link; then it opens the TUN and configures the system, both as the host
/// said; and then the tunnel is up, is shown as connected to that host under
/// the name that discovery or the host gave, and is pumped, with an eye on the
/// interface that the host was found on. A measurement that fails on a living
/// connection changes nothing of this.
pub proof fn the_way_up(
    core: Core,
    target: Target,
    said: String,
    config: TunnelConfig,
    speed: LinkSpeed,
    error: SpeedError,
    detail: String,
    tun: String,
    now: u64,
)
    requires
        error != SpeedError::Closed,
        error != SpeedError::Codec,
    ensures
        ({
            let connected = core.next(Phase::Connecting(target), Report::Connected);
            let greeted = connected.core.next(connected.phase, Report::Greeted(said, config));
            let measured = greeted.core.next(greeted.phase, Report::Measured(speed));
            let unmeasured = greeted.core.next(
                greeted.phase,
                Report::NotMeasured { error, detail },
            );
            let opened = measured.core.next(measured.phase, Report::TunOpened(tun));
            let applied = opened.core.next(opened.phase, Report::Applied { now });
            let host_name = match target.host_name {
                Some(n) => n,
                None => said,
            };
            &&& connected.work == Work::Handshake { timeout: core.timings.handshake_timeout }
            &&& connected.effects.len() == 0
            &&& greeted.work == Work::MeasureLink
            &&& greeted.effects == seq![Effect::Log(LogNote::HandshakeOk { host_name, config })]
            &&& measured.work == Work::OpenTun(config)
            &&& measured.effects == seq![Effect::LinkSpeed(speed)]
            &&& unmeasured.work == Work::OpenTun(config)
            &&& unmeasured.phase == measured.phase
            &&& unmeasured.effects == seq![Effect::Log(LogNote::ProbeSkipped { error, detail })]
            &&& opened.work == Work::Apply {
                tun,
                config,
                routes: core.cfg.routes,
                set_dns: core.cfg.set_dns,
            }
            &&& applied.work == Work::Pump { link_iface: target.link_iface }
            &&& applied.phase == Phase::Pumping { tun }
            &&& applied.core.state == StateNote::Connected {
                host: target.host,
                host_name,
                tun,
                config,
                since: now,
            }
            &&& applied.effects == seq![
                Effect::Log(LogNote::TunnelUp(tun)),
                Effect::State(applied.core.state),
            ]
        }),
{
    let connected = core.next(Phase::Connecting(target), Report::Connected);
    let greeted = connected.core.next(connected.phase, Report::Greeted(said, config));
    let measured = greeted.core.next(greeted.phase, Report::Measured(speed));
    let opened = measured.core.next(measured.phase, Report::TunOpened(tun));
    let applied = opened.core.next(opened.phase, Report::Applied { now });
    assert(applied.effects =~= seq![
        Effect::Log(LogNote::TunnelUp(tun)),
        Effect::State(applied.core.state),
    ]);
}

/// The way down: whatever ended the session, the connection is closed first,
/// then the system is reverted, then the TUN is closed, an error of the revert
/// is reported, and the local egress is looked up again.
pub proof fn the_way_down(core: Core, tun: String, end: SessionEnd, error: Option<String>)
    ensures
        ({
            let ended = core.next(Phase::Pumping { tun }, Report::Ended(end));
            let reverted = ended.core.next(ended.phase, Report::Reverted(error));
            &&& ended.work == Work::Revert
            &&& ended.effects.last() == Effect::Disconnect
            &&& reverted.work == Work::ReadEgress
            &&& reverted.phase == Phase::LastEgress(end)
            &&& reverted.effects == (match error {
                Some(e) => seq![
                    Effect::RevertError(e),
                    Effect::CloseTun,
                    Effect::Log(LogNote::TornDown(tun)),
                ],
                None => seq![Effect::CloseTun, Effect::Log(LogNote::TornDown(tun))],
            })
        }),
{
    let ended = core.next(Phase::Pumping { tun }, Report::Ended(end));
    let reverted = ended.core.next(ended.phase, Report::Reverted(error));
    match error {
        Some(e) => {
            assert(reverted.effects =~= seq![
                Effect::RevertError(e),
                Effect::CloseTun,
                Effect::Log(LogNote::TornDown(tun)),
            ]);
        },
        None => {
            assert(reverted.effects =~= seq![
                Effect::CloseTun,
                Effect::Log(LogNote::TornDown(tun)),
            ]);
        },
    }
}

/// A configuration that fails is undone before anything else.
pub proof fn a_failed_configuration_is_undone(core: Core, g: Greeting, tun: String, e: String)
    ensures
        ({
            let n = core.next(Phase::Applying { greeting: g, tun }, Report::ApplyFailed(e));
            n.work == Work::Revert && n.phase == Phase::Undoing(Reason::Apply(e))
                && n.effects.len() == 0
        }),
{
}

/// A guest starts with the local egress, and goes round by round: it asks
/// whether to shut down, and if not lists the interfaces.
pub proof fn a_round_begins(core: Core, iface: Option<String>)
    ensures
        ({
            let n = core.next(Phase::FirstEgress, Report::Egress(iface));
            &&& n.work == Work::PollShutdown
            &&& n.phase == Phase::Polling
            &&& n.effects == seq![
                Effect::Log(LogNote::LocalEgress(iface)),
                Effect::LocalEgress(iface),
            ]
        }),
        core.next(Phase::Polling, Report::Polled(false)).work == Work::ListInterfaces,
        core.next(Phase::Polling, Report::Polled(false)).phase == Phase::Listing,
        core.next(Phase::Resting, Report::Rested).work == Work::PollShutdown,
        core.next(Phase::Resting, Report::Rested).phase == Phase::Polling,
{
}

/// In each round the guest with automatic discovery probes the first interface
/// that is ready, and shows that it does; if there is none it waits for a link,
/// and shows that. What it knows of the interfaces is the new list.
pub proof fn discovery_begins_with_the_first_ready_link(core: Core, list: Vec<LinkInterface>)
    requires
        core.cfg.host is Auto,
    ensures
        ({
            let n = core.next(Phase::Listing, Report::Listed(list));
            let v = link::views(list@);
            &&& forall|i: int|
                #![trigger v[i]]
                0 <= i < v.len() && v[i].ready() && (forall|k: int|
                    0 <= k < i ==> !(#[trigger] v[k]).ready()) ==> {
                    &&& n.work == Work::Probe { at: i as usize, timeout: core.timings.probe_timeout }
                    &&& n.phase == Phase::Probing { at: i as usize }
                    &&& same_state(
                        n.core.state,
                        StateNote::Discovering(n.core.ifaces@[i].name),
                    )
                }
            &&& (forall|k: int| 0 <= k < v.len() ==> !(#[trigger] v[k]).ready()) ==> {
                &&& n.work == Work::Sleep(core.timings.retry_backoff)
                &&& n.phase == Phase::Resting
                &&& n.core.state is WaitingForLink
            }
            &&& link::views(n.core.ifaces@) == v || (core.listed && link::views(core.ifaces@) == v)
        }),
{
    let v = link::views(list@);
    let c = core.with_list(list);
    assert(link::views(c.ifaces@) == v);
    assert(v.len() == c.ifaces@.len());
    only_ready_links_are_probed(v, 0);
    let first = next_ready(v, 0);
    assert(first < v.len() ==> v[first].ready());
    assert forall|i: int|
        #![trigger v[i]]
        0 <= i < v.len() && v[i].ready() && (forall|k: int|
            0 <= k < i ==> !(#[trigger] v[k]).ready()) implies first == i by {
        if first < i {
            assert(!v[first].ready());
        } else if first > i {
            assert(!v[i].ready());
        }
    }
}

/// Every ready interface gets its turn: after one on which neither a host nor a
/// neighbour answered, or whose probe failed, the next ready one is probed; no
/// ready one in between is left out. After the last the guest pauses.
pub proof fn every_ready_link_gets_its_turn(core: Core, at: usize, r: Report, phase: Phase)
    requires
        at < core.ifaces@.len(),
        (phase == (Phase::Probing { at }) && r is ProbeFailed) || (phase == (
        Phase::AskingNeighbor { at }) && r == Report::Neighbor(None)),
    ensures
        ({
            let n = core.next(phase, r);
            let v = link::views(core.ifaces@);
            &&& forall|i: int|
                #![trigger v[i]]
                at < i < v.len() && v[i].ready() && (forall|k: int|
                    at < k < i ==> !(#[trigger] v[k]).ready()) ==> {
                    &&& n.work == Work::Probe { at: i as usize, timeout: core.timings.probe_timeout }
                    &&& n.phase == Phase::Probing { at: i as usize }
                    &&& same_state(n.core.state, StateNote::Discovering(core.ifaces@[i].name))
                }
            &&& (forall|k: int| at < k < v.len() ==> !(#[trigger] v[k]).ready()) ==> {
                &&& n.work == Work::Sleep(core.delay)
                &&& n.phase == Phase::Resting
            }
        }),
{
    let v = link::views(core.ifaces@);
    assert(v.len() == core.ifaces@.len());
    let from = at + 1;
    only_ready_links_are_probed(v, from);
    let next = next_ready(v, from);
    assert(next < v.len() ==> v[next].ready());
    assert forall|i: int|
        #![trigger v[i]]
        at < i < v.len() && v[i].ready() && (forall|k: int|
            at < k < i ==> !(#[trigger] v[k]).ready()) implies next == i by {
        if next < i {
            assert(!v[next].ready());
        } else if next > i {
            assert(!v[i].ready());
        }
    }
}

/// Where no host answers a probe, the neighbours on that interface are asked.
pub proof fn silence_asks_the_neighbours(core: Core, at: usize)
    ensures
        core.next(Phase::Probing { at }, Report::Probed(None)).work == (Work::AskNeighbor { at }),
        core.next(Phase::Probing { at }, Report::Probed(None)).phase == (Phase::AskingNeighbor {
            at,
        }),
{
}

/// The guest connects to this address, and shows that it does.
pub open spec fn connects_to(core: Core, n: Next, host: Endpoint, baud: u32) -> bool {
    &&& n.work == Work::Connect { host, baud, timeout: core.timings.connect_timeout }
    &&& n.phase matches Phase::Connecting(t) && t.host == host && t.baud == baud
    &&& same_state(n.core.state, StateNote::Connecting(host))
}

/// A host that answers is connected to, at the address that it answered from,
/// under the name that it gave, and the interface on which it answered is
/// watched; a neighbour likewise, but for its name.
pub proof fn who_answers_is_connected_to(
    core: Core,
    at: usize,
    host_name: String,
    addr: SocketAddr,
)
    requires
        at < core.ifaces@.len(),
    ensures
        ({
            let n = core.next(Phase::Probing { at }, Report::Probed(Some((host_name, addr))));
            &&& connects_to(core, n, Endpoint::Tcp(addr), 0)
            &&& n.phase->Connecting_0.host_name == Some(host_name)
            &&& n.phase->Connecting_0.link_iface == Some(core.ifaces@[at as int].name)
        }),
        ({
            let n = core.next(Phase::AskingNeighbor { at }, Report::Neighbor(Some(addr)));
            &&& connects_to(core, n, Endpoint::Tcp(addr), 0)
            &&& n.phase->Connecting_0.host_name is None
            &&& n.phase->Connecting_0.link_iface == Some(core.ifaces@[at as int].name)
        }),
{
}

/// A guest that was given an address connects to it: at once where the address
/// belongs to no interface that is listed, and otherwise unless that interface
/// has no carrier, in which case it waits for the link.
pub proof fn a_given_host_is_connected_to(
    core: Core,
    addr: SocketAddr,
    list: Vec<LinkInterface>,
    iface: String,
    carrier: Option<bool>,
)
    requires
        core.cfg.host == HostTarget::Manual(addr),
    ensures
        ({
            let n = core.next(Phase::Listing, Report::Listed(list));
            match iface_for(addr, n.core.ifaces@) {
                None => connects_to(core, n, Endpoint::Tcp(addr), 0)
                    && n.phase->Connecting_0.link_iface is None,
                Some(i) => n.work == Work::CheckLink(i) && n.phase == Phase::CheckingLink {
                    addr,
                    iface: i,
                },
            }
        }),
        ({
            let n = core.next(Phase::CheckingLink { addr, iface }, Report::Carrier(carrier));
            &&& carrier == Some(false) ==> n.work == Work::Sleep(core.timings.retry_backoff)
                && n.phase == Phase::Resting && n.core.state is WaitingForLink
            &&& carrier != Some(false) ==> connects_to(core, n, Endpoint::Tcp(addr), 0)
                && n.phase->Connecting_0.link_iface == Some(iface)
        }),
{
}

/// The interface of a link-local address is the first listed one of its scope;
/// other addresses belong to none.
pub proof fn a_scope_names_its_interface(addr: SocketAddr, list: Seq<LinkInterface>, i: int)
    requires
        0 <= i < list.len(),
    ensures
        addr is V4 ==> iface_for(addr, list) is None,
        addr matches SocketAddr::V6 { scope_id, .. } ==> {
            &&& scope_id == 0 ==> iface_for(addr, list) is None
            &&& scope_id != 0 && list[i].index == scope_id && (forall|k: int|
                0 <= k < i ==> (#[trigger] list[k]).index != scope_id) ==> iface_for(addr, list)
                == Some(list[i].name)
        },
    decreases list.len(),
{
    if let SocketAddr::V6 { scope_id, .. } = addr {
        if i > 0 && scope_id != 0 && list[i].index == scope_id && (forall|k: int|
            0 <= k < i ==> (#[trigger] list[k]).index != scope_id) {
            let rest = list.skip(1);
            assert(rest[i - 1] == list[i]);
            assert forall|k: int| 0 <= k < i - 1 implies (#[trigger] rest[k]).index
                != scope_id by {
                assert(rest[k] == list[k + 1]);
            }
            assert(list[0].index != scope_id);
            a_scope_names_its_interface(addr, rest, i - 1);
        }
    }
}

/// A guest that was given a serial port connects to it, at its baud rate.
pub proof fn a_given_port_is_connected_to(
    core: Core,
    path: String,
    baud: u32,
    list: Vec<LinkInterface>,
)
    requires
        core.cfg.host == (HostTarget::Serial { path, baud }),
    ensures
        connects_to(
            core,
            core.next(Phase::Listing, Report::Listed(list)),
            Endpoint::Serial(path),
            baud,
        ),
{
}

/// A new list of interfaces is reported exactly when it differs from the last,
/// or is the first; also while the tunnel is up, where it changes nothing else.
pub proof fn a_new_list_is_reported(core: Core, list: Vec<LinkInterface>, tun: String)
    ensures
        ({
            let n = core.next(Phase::Pumping { tun }, Report::Listed(list));
            let news = !core.listed || link::views(core.ifaces@) != link::views(list@);
            &&& news ==> n.effects == seq![Effect::Interfaces] && n.core.ifaces == list
                && n.core.listed
            &&& !news ==> n.effects.len() == 0 && n.core == core
            &&& n.phase == Phase::Pumping { tun }
            &&& n.work == Work::Continue
            &&& n.core.state == core.state
        }),
        ({
            let n = core.next(Phase::Listing, Report::Listed(list));
            let news = !core.listed || link::views(core.ifaces@) != link::views(list@);
            &&& news ==> n.effects.len() > 0 && n.effects[0] == Effect::Interfaces
                && n.core.ifaces == list
            &&& !news ==> !n.effects.contains(Effect::Interfaces)
        }),
{
    let n = core.next(Phase::Listing, Report::Listed(list));
    if core.list_changed(list@) {
        assert(n.effects[0] == core.list_effects(list)[0]);
    } else {
        assert forall|i: int| 0 <= i < n.effects.len() implies n.effects[i]
            != Effect::Interfaces by {
            assert(n.effects[i] is State);
        }
    }
}

/// What an observer is told: a state as that state, with the reason in words
/// where there is one; a line of the log as its text; an error as its text; the
/// interfaces as they were last listed; nothing of what only closes things.
pub proof fn an_observer_is_told(e: Effect, core: Core, ev: Option<GuestEvent>)
    requires
        announces(e, core, ev),
    ensures
        e is State <==> (ev matches Some(x) && x is StateChanged),
        e == Effect::State(StateNote::WaitingForLink) ==> ev == Some(
            GuestEvent::StateChanged(GuestState::WaitingForLink),
        ),
        e matches Effect::State(StateNote::Disconnected(r)) ==> (ev matches Some(
            GuestEvent::StateChanged(GuestState::Disconnected { reason }),
        ) && reason@ == r.spec_text()),
        e matches Effect::State(StateNote::Connecting(h)) ==> (ev matches Some(
            GuestEvent::StateChanged(GuestState::Connecting { host }),
        ) && host == h),
        e matches Effect::State(StateNote::Discovering(i)) ==> (ev matches Some(
            GuestEvent::StateChanged(GuestState::Discovering { iface }),
        ) && iface == i),
        e matches Effect::State(
            StateNote::Connected { host, host_name, tun, config, since },
        ) ==> ev == Some(
            GuestEvent::StateChanged(
                GuestState::Connected { host, host_name, tun, config, since },
            ),
        ),
        e is Interfaces ==> (ev matches Some(GuestEvent::Interfaces(l)) && l@ == core.ifaces@),
        e matches Effect::LocalEgress(i) ==> ev == Some(GuestEvent::LocalEgress(i)),
        e matches Effect::LinkSpeed(s) ==> ev == Some(GuestEvent::LinkSpeed(s)),
        e is Log <==> (ev matches Some(x) && x is Log),
        e is Error || e is RevertError <==> (ev matches Some(x) && x is Error),
        e matches Effect::Error(r) ==> (ev matches Some(GuestEvent::Error(t)) && t@
            == r.spec_text()),
        e is Bye || e is Disconnect || e is CloseTun <==> ev is None,
{
}

/// States are the same to an observer exactly when they look the same; a tunnel
/// that came up is always news.
pub proof fn states_that_look_the_same(a: StateNote, b: StateNote)
    ensures
        same_state(a, b) ==> !(a is Connected) && !(b is Connected),
        a is WaitingForLink && b is WaitingForLink ==> same_state(a, b),
        a is WaitingForLink && same_state(a, b) ==> b is WaitingForLink,
        a is Discovering && same_state(a, b) ==> b is Discovering,
        a is Connecting && same_state(a, b) ==> b is Connecting,
        a is Disconnected && same_state(a, b) ==> b is Disconnected,
        (a matches StateNote::Disconnected(x) && b matches StateNote::Disconnected(y)) ==> (
        same_state(a, b) <==> a->Disconnected_0.spec_text() == b->Disconnected_0.spec_text()),
        (a matches StateNote::Discovering(x) && b matches StateNote::Discovering(y)) ==> (
        same_state(a, b) <==> a->Discovering_0@ == b->Discovering_0@),
        (a matches StateNote::Connecting(x) && b matches StateNote::Connecting(y)) ==> (same_state(
            a,
            b,
        ) <==> same_endpoint(a->Connecting_0, b->Connecting_0)),
{
}

/// A report on something that was not asked for changes nothing.
pub proof fn unasked_reports_change_nothing(core: Core, phase: Phase, r: Report)
    requires
        phase is Over || (phase is Pumping && !(r is Listed) && !(r is Ended)) || (phase is Applying
            && !(r is Applied) && !(r is ApplyFailed)) || (phase is Reverting && !(r is Reverted)),
    ensures
        ({
            let n = core.next(phase, r);
            n.core == core && n.phase == phase && n.effects.len() == 0 && n.work == Work::Continue
        }),
{
}

/// Whatever happens, a state that is new is told, and the last state that is
/// told is the one that holds.
#[verifier::rlimit(90)]
pub proof fn a_new_state_is_told(core: Core, phase: Phase, r: Report)
    requires
        core.next(phase, r).core.state != core.state,
    ensures
        core.next(phase, r).effects.contains(Effect::State(core.next(phase, r).core.state)),
        core.next(phase, r).effects.last() == Effect::State(core.next(phase, r).core.state)
            || core.next(phase, r).core.state is Disconnected,
{
    let e = core.next(phase, r).effects;
    let state = core.next(phase, r).core.state;
    if e.last() == Effect::State(state) {
        assert(e[e.len() - 1] == Effect::State(state));
    } else {
        assert(e[e.len() - 2] == Effect::State(state));
    }
}

/// The pause doubles, up to the longest, with every attempt that failed and
/// with every round in which nobody was found, and nothing else makes it grow.
pub proof fn the_pause_doubles(core: Core, phase: Phase, r: Report)
    requires
        0 < core.delay <= core.timings.max_retry_backoff,
        core.timings.retry_backoff <= core.timings.max_retry_backoff,
    ensures
        ({
            let n = core.next(phase, r);
            let twice = if 2 * core.delay <= core.timings.max_retry_backoff {
                2 * core.delay as int
            } else {
                core.timings.max_retry_backoff as int
            };
            &&& n.core.delay == core.delay || n.core.delay == twice || n.core.delay
                == core.timings.retry_backoff
            &&& n.effects.len() > 0 && n.work is Sleep && n.effects[0] is Error ==> n.core.delay
                == twice && n.work == Work::Sleep(core.delay)
            &&& phase is Probing && n.work is Sleep ==> n.core.delay == twice && n.work
                == Work::Sleep(core.delay)
            &&& phase is AskingNeighbor && n.work is Sleep ==> n.core.delay == twice && n.work
                == Work::Sleep(core.delay)
        }),
{
}

/// A host that was found is named in the log.
pub proof fn who_is_found_is_logged(
    core: Core,
    at: usize,
    host_name: String,
    addr: SocketAddr,
)
    requires
        at < core.ifaces@.len(),
    ensures
        ({
            let n = core.next(Phase::Probing { at }, Report::Probed(Some((host_name, addr))));
            n.effects.len() > 0 && n.effects[0] == Effect::Log(
                LogNote::Discovered { host_name, addr, iface: core.ifaces@[at as int].name },
            )
        }),
        ({
            let n = core.next(Phase::AskingNeighbor { at }, Report::Neighbor(Some(addr)));
            n.effects.len() > 0 && n.effects[0] == Effect::Log(
                LogNote::NeighborFound { iface: core.ifaces@[at as int].name, addr },
            )
        }),
{
}

/// Endpoints are the same exactly when they have the same address or the same
/// path.
pub proof fn endpoints_with_one_address_are_the_same(a: Endpoint, b: Endpoint)
    ensures
        same_endpoint(a, b) ==> (a is Tcp <==> b is Tcp),
        a is Tcp && b is Tcp ==> (same_endpoint(a, b) <==> a->Tcp_0 == b->Tcp_0),
        a is Serial && b is Serial ==> (same_endpoint(a, b) <==> a->Serial_0@ == b->Serial_0@),
{
}

/// The same work is the same in all that it says.
pub proof fn the_same_work_is_the_same(a: Work, b: Work)
    requires
        same_work(a, b),
    ensures
        !(a is Apply) ==> a == b,
        a matches Work::Apply { tun, config, routes, set_dns } ==> (b matches Work::Apply {
            tun: tun_b,
            config: config_b,
            routes: routes_b,
            set_dns: set_dns_b,
        } && tun == tun_b && config == config_b && cli::routed(routes) == cli::routed(routes_b)
            && set_dns == set_dns_b),
{
}

/// What a step does is all that it returns.
pub proof fn a_step_is_what_it_returns(s: (Core, Phase, Vec<Effect>, Work))
    ensures
        step_view(s).core == s.0,
        step_view(s).phase == s.1,
        step_view(s).effects == s.2@,
        step_view(s).work == s.3,
{
}

/// The log names what it is about: an interface, a tunnel, or a reason.
pub proof fn the_log_names_what_it_is_about(note: LogNote, cfg: GuestConfig)
    ensures
        note matches LogNote::LocalEgress(Some(name)) ==> text::holds(note.spec_text(cfg), name@),
        note matches LogNote::TornDown(tun) ==> text::holds(note.spec_text(cfg), tun@),
        note matches LogNote::Disconnected { reason, .. } ==> text::holds(
            note.spec_text(cfg),
            reason.spec_text(),
        ),
{
    let all = note.spec_text(cfg);
    assert(all.take(all.len() as int) =~= all);
    match note {
        LogNote::LocalEgress(Some(name)) => {
            let a = "traffic goes through the local network via "@;
            text::what_a_prefix_ends_with_is_held(a, name@, all);
        },
        LogNote::TornDown(tun) => {
            text::a_front_is_a_prefix("tunnel "@ + tun@, " torn down"@, all);
            text::what_a_prefix_ends_with_is_held("tunnel "@, tun@, all);
        },
        LogNote::Disconnected { reason, reconnecting } => {
            let d = if reconnecting {
                "); reconnecting"@
            } else {
                "); reconnect disabled"@
            };
            let a = "disconnected ("@;
            text::a_front_is_a_prefix(a + reason.spec_text(), d, all);
            text::what_a_prefix_ends_with_is_held(a, reason.spec_text(), all);
        },
        _ => {},
    }
}

/// The log names the host that was found, where it is, and on which interface.
pub proof fn the_log_names_who_was_found(
    host_name: String,
    addr: SocketAddr,
    iface: String,
    cfg: GuestConfig,
)
    ensures
        ({
            let t = (LogNote::Discovered { host_name, addr, iface }).spec_text(cfg);
            text::holds(t, host_name@) && text::holds(t, addr.spec_text()) && text::holds(t, iface@)
        }),
        ({
            let t = (LogNote::NeighborFound { iface, addr }).spec_text(cfg);
            text::holds(t, addr.spec_text()) && text::holds(t, iface@)
        }),
{
    let (h, x, i) = (host_name@, addr.spec_text(), iface@);
    let all = (LogNote::Discovered { host_name, addr, iface }).spec_text(cfg);
    assert(all.take(all.len() as int) =~= all);
    let a = "discovered host "@;
    let a1 = a + h + " at "@;
    let a2 = a1 + x + " via "@;
    text::what_a_prefix_ends_with_is_held(a2, i, all);
    text::a_front_is_a_prefix(a2, i, all);
    text::a_front_is_a_prefix(a1 + x, " via "@, all);
    text::what_a_prefix_ends_with_is_held(a1, x, all);
    text::a_front_is_a_prefix(a1, x, all);
    text::a_front_is_a_prefix(a + h, " at "@, all);
    text::what_a_prefix_ends_with_is_held(a, h, all);
    let near = (LogNote::NeighborFound { iface, addr }).spec_text(cfg);
    assert(near.take(near.len() as int) =~= near);
    let b = "组播未应答，改为直连 "@;
    let b1 = b + i + " 上的邻居 "@;
    text::what_a_prefix_ends_with_is_held(b1, x, near);
    text::a_front_is_a_prefix(b1, x, near);
    text::a_front_is_a_prefix(b + i, " 上的邻居 "@, near);
    text::what_a_prefix_ends_with_is_held(b, i, near);
}

/// The log names the host that greeted, and the tunnel that came up with its
/// routes.
pub proof fn the_log_names_the_tunnel(
    host_name: String,
    config: TunnelConfig,
    tun: String,
    cfg: GuestConfig,
)
    ensures
        ({
            let t = (LogNote::HandshakeOk { host_name, config }).spec_text(cfg);
            text::holds(t, host_name@) && text::holds(t, config.guest_ip.spec_text())
                && text::holds(t, config.gateway_ip.spec_text()) && text::holds(
                t,
                config.dns.spec_text(),
            )
        }),
        ({
            let t = LogNote::TunnelUp(tun).spec_text(cfg);
            text::holds(t, tun@) && text::holds(t, routes_text(cfg.routes)) && text::holds(
                t,
                if cfg.set_dns {
                    ", dns set"@
                } else {
                    ", dns untouched"@
                },
            )
        }),
{
    let all = (LogNote::HandshakeOk { host_name, config }).spec_text(cfg);
    assert(all.take(all.len() as int) =~= all);
    let h = host_name@;
    let (ip, gw) = (config.guest_ip.spec_text(), config.gateway_ip.spec_text());
    let (len, dns) = (text::dec(config.prefix_len as nat), config.dns.spec_text());
    let mtu = text::dec(config.mtu as nat);
    let a = "handshake with "@;
    let a1 = a + h + " ok: "@;
    let a2 = a1 + ip + "/"@ + len + " via "@;
    let a3 = a2 + gw + " dns "@;
    let a4 = a3 + dns + " mtu "@;
    text::a_front_is_a_prefix(a4, mtu, all);
    text::a_front_is_a_prefix(a3 + dns, " mtu "@, all);
    text::what_a_prefix_ends_with_is_held(a3, dns, all);
    text::a_front_is_a_prefix(a3, dns, all);
    text::a_front_is_a_prefix(a2 + gw, " dns "@, all);
    text::what_a_prefix_ends_with_is_held(a2, gw, all);
    text::a_front_is_a_prefix(a2, gw, all);
    text::a_front_is_a_prefix(a1 + ip + "/"@ + len, " via "@, all);
    text::a_front_is_a_prefix(a1 + ip + "/"@, len, all);
    text::a_front_is_a_prefix(a1 + ip, "/"@, all);
    text::what_a_prefix_ends_with_is_held(a1, ip, all);
    text::a_front_is_a_prefix(a1, ip, all);
    text::a_front_is_a_prefix(a + h, " ok: "@, all);
    text::what_a_prefix_ends_with_is_held(a, h, all);
    let up = LogNote::TunnelUp(tun).spec_text(cfg);
    assert(up.take(up.len() as int) =~= up);
    let d = if cfg.set_dns {
        ", dns set"@
    } else {
        ", dns untouched"@
    };
    let r = routes_text(cfg.routes);
    let b = "tunnel up on "@;
    let b1 = b + tun@ + ": routes "@;
    text::what_a_prefix_ends_with_is_held(b1 + r, d, up);
    text::a_front_is_a_prefix(b1 + r, d, up);
    text::what_a_prefix_ends_with_is_held(b1, r, up);
    text::a_front_is_a_prefix(b1, r, up);
    text::a_front_is_a_prefix(b + tun@, ": routes "@, up);
    text::what_a_prefix_ends_with_is_held(b, tun@, up);
}

/// The routes are named in the log as what they are.
pub proof fn the_log_names_the_routes(routes: RouteMode)
    ensures
        routes is Full ==> routes_text(routes) == "Full"@,
        routes matches RouteMode::Custom(nets) ==> text::holds(
            routes_text(routes),
            cidr::nets_text(nets@),
        ),
{
    if let RouteMode::Custom(nets) = routes {
        text::an_inner_text_is_held("Custom(["@, cidr::nets_text(nets@), "])"@);
    }
}

} // verus!
