//! Guest (client) side of the tunnel: configuration, what it reports, the
//! handshake and the packet pump.
//!
//! The guest waits for a Type-C link, discovers the host, connects, creates a
//! TUN interface and forwards every IP packet through the host.

use crate::cidr::{copy_nets, Ipv4Net};
use crate::cli;
use crate::frame::{Frame, FrameView, TunnelConfig};
use crate::link::LinkInterface;
use crate::net::{Endpoint, SocketAddr};
use crate::speed::{LinkSpeed, Params, SpeedError};
use crate::stats::{Counters, Rate};
use crate::text;
use crate::PROTOCOL_VERSION;
use vstd::prelude::*;
use vstd::string::StringExecFns;

verus! {

/// Which traffic is sent through the tunnel.
#[derive(Clone, Debug)]
pub enum RouteMode {
    /// Everything: `0.0.0.0/1` + `128.0.0.0/1` via the TUN (the default
    /// route itself is left untouched, so the link-local transport keeps
    /// working).
    Full,
    /// Only these prefixes (e.g. `1.1.1.1/32` for a single-machine test).
    Custom(Vec<Ipv4Net>),
}

impl RouteMode {
    /// The prefixes are prefixes.
    pub open spec fn wf(&self) -> bool {
        *self matches RouteMode::Custom(nets) ==> forall|i: int|
            0 <= i < nets@.len() ==> (#[trigger] nets@[i]).wf()
    }

    /// The same routes once more.
    pub fn copy(&self) -> (r: Self)
        ensures
            cli::routed(r) == cli::routed(*self),
    {
        match self {
            RouteMode::Full => RouteMode::Full,
            RouteMode::Custom(nets) => RouteMode::Custom(copy_nets(nets)),
        }
    }

    /// Recommended `set_dns` for this mode: `true` for [`RouteMode::Full`],
    /// `false` for [`RouteMode::Custom`] (DNS would otherwise go through the
    /// tunnel while most traffic does not).
    pub fn default_set_dns(&self) -> (r: bool)
        ensures
            r == (*self is Full),
    {
        match self {
            RouteMode::Full => true,
            RouteMode::Custom(_) => false,
        }
    }
}

/// Default serial baud rate (USB CDC devices usually ignore it).
pub const DEFAULT_BAUD: u32 = 921_600;

/// How to find the host.
#[derive(Clone, Debug)]
pub enum HostTarget {
    /// Multicast discovery over every candidate link (Thunderbolt bridge
    /// first).
    Auto,
    /// Connect to this address directly. For a link-local IPv6 address the
    /// `scope_id` must be set to the interface index.
    Manual(SocketAddr),
    /// Talk to the host over a serial port.
    Serial { path: String, baud: u32 },
}

/// Guest configuration.
#[derive(Clone, Debug)]
pub struct GuestConfig {
    /// Name announced in the `Hello` frame (default: hostname).
    pub name: String,
    pub host: HostTarget,
    pub routes: RouteMode,
    /// Point the system resolver at the tunnel DNS while connected
    /// (default `true`; see [`RouteMode::default_set_dns`]).
    pub set_dns: bool,
    /// Go back to waiting for a link after a disconnect (default `true`).
    /// When `false`, the guest stops after the first disconnect or failure.
    pub reconnect: bool,
}

impl GuestConfig {
    /// The default configuration on a machine whose host name is `hostname`,
    /// or `netm-guest` where that is unknown or empty.
    pub fn for_host(hostname: Option<String>) -> (r: Self)
        ensures
            r.name@ == default_name_text(hostname),
            r.host == HostTarget::Auto,
            r.routes == RouteMode::Full,
            r.set_dns,
            r.reconnect,
    {
        GuestConfig {
            name: default_name(hostname),
            host: HostTarget::Auto,
            routes: RouteMode::Full,
            set_dns: true,
            reconnect: true,
        }
    }
}

/// The host name, or `netm-guest` where it is unknown or empty.
pub open spec fn default_name_text(hostname: Option<String>) -> Seq<char> {
    match hostname {
        Some(h) => if h@.len() > 0 {
            h@
        } else {
            "netm-guest"@
        },
        None => "netm-guest"@,
    }
}

/// The host name, or `netm-guest` where it is unknown or empty.
pub fn default_name(hostname: Option<String>) -> (r: String)
    ensures
        r@ == default_name_text(hostname),
{
    match hostname {
        Some(h) => if !h.as_str().is_empty() {
            h
        } else {
            "netm-guest".to_owned()
        },
        None => "netm-guest".to_owned(),
    }
}

/// Observable state of the guest.
#[derive(Clone, Debug, PartialEq, Eq)]
pub enum GuestState {
    /// No candidate interface has a link-local address yet (cable unplugged).
    WaitingForLink,
    /// A link is present; probing it for a host.
    Discovering { iface: String },
    Connecting { host: Endpoint },
    Connected {
        host: Endpoint,
        host_name: String,
        /// OS name of the TUN interface (`utun4`).
        tun: String,
        config: TunnelConfig,
        /// When the tunnel came up, in milliseconds on the caller's clock.
        since: u64,
    },
    /// Transient; followed by [`GuestState::WaitingForLink`] when
    /// `reconnect` is on.
    Disconnected { reason: String },
}

impl GuestState {
    /// The same state once more.
    pub fn copy(&self) -> (r: Self)
        ensures
            r == *self,
    {
        match self {
            GuestState::WaitingForLink => GuestState::WaitingForLink,
            GuestState::Discovering { iface } => GuestState::Discovering { iface: iface.clone() },
            GuestState::Connecting { host } => GuestState::Connecting { host: host.copy() },
            GuestState::Connected { host, host_name, tun, config, since } => {
                GuestState::Connected {
                    host: host.copy(),
                    host_name: host_name.clone(),
                    tun: tun.clone(),
                    config: *config,
                    since: *since,
                }
            },
            GuestState::Disconnected { reason } => GuestState::Disconnected {
                reason: reason.clone(),
            },
        }
    }
}

/// Events reported by the guest.
#[derive(Clone, Debug)]
pub enum GuestEvent {
    StateChanged(GuestState),
    /// Candidate interfaces (sent whenever the list changes).
    Interfaces(Vec<LinkInterface>),
    /// Every 500 ms while connected; dropped when the channel is full.
    Stats {
        counters: Counters,
        /// Bits per second into the tunnel (guest → host).
        tx_bps: Rate,
        /// Bits per second out of the tunnel (host → guest).
        rx_bps: Rate,
    },
    /// Interface that carries traffic while no tunnel is up, if known.
    LocalEgress(Option<String>),
    /// Link-capacity probe (not Internet).
    LinkSpeed(LinkSpeed),
    Log(String),
    Error(String),
}

/// Commands for the guest.
#[derive(Clone, Copy, Debug, PartialEq, Eq, Structural)]
pub enum GuestCommand {
    Run,
    /// Tear everything down and return. Honoured from any state within
    /// ~200 ms.
    Shutdown,
}

/// Tunables of the state machine, in milliseconds (shrunk in tests).
#[derive(Clone, Copy, Debug, PartialEq, Eq, Structural)]
pub struct Timings {
    /// Pause between link/discovery rounds and before a reconnect attempt.
    pub retry_backoff: u64,
    /// Longest such pause.
    pub max_retry_backoff: u64,
    /// Discovery probe timeout per interface.
    pub probe_timeout: u64,
    /// Connect timeout.
    pub connect_timeout: u64,
    /// Handshake (Hello/Config) timeout.
    pub handshake_timeout: u64,
    /// Our keep-alive `Ping` interval.
    pub ping_interval: u64,
    /// No frame received for this long ⇒ connection considered dead.
    pub keepalive_timeout: u64,
    /// Stats event interval while connected.
    pub stats_interval: u64,
    /// How often the carrier of the link interface is re-checked while
    /// connected.
    pub link_poll: u64,
    /// How often the full interface list is refreshed for the UI while
    /// connected (spawns `networksetup` on macOS, so much slower than
    /// [`Self::link_poll`]).
    pub iface_refresh: u64,
    /// Timeout for a single frame write (dead peer with a full TCP window).
    pub send_timeout: u64,
    /// Link-capacity probe run once after the handshake.
    pub speed: Params,
}

impl Default for Timings {
    fn default() -> (r: Self)
        ensures
            r.retry_backoff == 1_000,
            r.max_retry_backoff == 30_000,
            r.probe_timeout == 2_000,
            r.connect_timeout == 3_000,
            r.handshake_timeout == 5_000,
            r.ping_interval == 2_000,
            r.keepalive_timeout == 6_000,
            r.stats_interval == 500,
            r.link_poll == 400,
            r.iface_refresh == 3_000,
            r.send_timeout == 2_000,
            r.speed == (Params {
                chunk: 32768,
                budget_nanos: 280_000_000,
                max_bytes: 16_777_216,
                idle_ms: 200,
                timeout_ms: 3_000,
            }),
            r.speed.wf(),
    {
        Timings {
            retry_backoff: 1_000,
            max_retry_backoff: 30_000,
            probe_timeout: 2_000,
            connect_timeout: 3_000,
            handshake_timeout: 5_000,
            // While the tunnel carries the default route, every second spent
            // not noticing that it is dead is a second of no network at all,
            // so the keep-alive is aggressive: a dead peer is detected in
            // ~6s, an unplugged cable in ~400ms via the carrier poll.
            ping_interval: 2_000,
            keepalive_timeout: 6_000,
            stats_interval: 500,
            link_poll: 400,
            iface_refresh: 3_000,
            send_timeout: 2_000,
            speed: Params::default(),
        }
    }
}

/// The pause after the next failure: twice as long, up to a limit.
pub open spec fn doubled(delay: nat, max: nat) -> nat {
    if 2 * delay < max {
        2 * delay
    } else {
        max
    }
}

/// The pause after the next failure: twice as long, up to a limit.
pub fn next_retry_backoff(delay: u64, max: u64) -> (r: u64)
    ensures
        r == doubled(delay as nat, max as nat),
{
    if delay < max && delay < max - delay {
        delay * 2
    } else {
        max
    }
}

/// The pause after `n` failures in a row.
pub open spec fn backoff_after(first: nat, max: nat, n: nat) -> nat
    decreases n,
{
    if n == 0 {
        first
    } else {
        doubled(backoff_after(first, max, (n - 1) as nat), max)
    }
}

/// Two to the power of `n`.
pub open spec fn power_of_two(n: nat) -> nat
    decreases n,
{
    if n == 0 {
        1
    } else {
        2 * power_of_two((n - 1) as nat)
    }
}

/// The pause doubles with every failure until it reaches the limit, and stays
/// there.
pub proof fn backoff_doubles_and_caps(first: nat, max: nat, n: nat)
    requires
        0 < first <= max,
    ensures
        backoff_after(first, max, n) == if first * power_of_two(n) < max {
            first * power_of_two(n)
        } else {
            max
        },
        first <= backoff_after(first, max, n) <= max,
    decreases n,
{
    if n == 0 {
        assert(first * power_of_two(n) == first) by (nonlinear_arith)
            requires
                power_of_two(n) == 1,
        ;
    } else {
        let m = (n - 1) as nat;
        backoff_doubles_and_caps(first, max, m);
        assert(first * power_of_two(n) == 2 * (first * power_of_two(m))) by (nonlinear_arith)
            requires
                power_of_two(n) == 2 * power_of_two(m),
        ;
        assert(power_of_two(m) >= 1) by {
            power_is_positive(m);
        }
        assert(first * power_of_two(m) >= first) by (nonlinear_arith)
            requires
                power_of_two(m) >= 1,
        ;
    }
}

proof fn power_is_positive(n: nat)
    ensures
        power_of_two(n) >= 1,
    decreases n,
{
    if n > 0 {
        power_is_positive((n - 1) as nat);
    }
}

// Why a session ended.

/// Why a handshake failed.
#[derive(Debug)]
pub enum HandshakeFailure {
    SendTimedOut,
    SendFailed(String),
    HelloTimedOut,
    /// The host speaks this version.
    VersionMismatch(u16),
    ExpectedHello(String),
    HelloError(String),
    Closed,
    ConfigTimedOut,
    ExpectedConfig(String),
    ConfigError(String),
}

impl HandshakeFailure {
    /// The failure in words.
    pub open spec fn spec_text(self) -> Seq<char> {
        match self {
            HandshakeFailure::SendTimedOut => "handshake timed out sending Hello"@,
            HandshakeFailure::SendFailed(e) => "sending Hello: "@ + e@,
            HandshakeFailure::HelloTimedOut => "handshake timed out waiting for Hello"@,
            HandshakeFailure::VersionMismatch(v) => "protocol version mismatch: host "@ + text::dec(
                v as nat,
            ) + ", guest "@ + text::dec(PROTOCOL_VERSION as nat),
            HandshakeFailure::ExpectedHello(f) => "expected Hello, got "@ + f@,
            HandshakeFailure::HelloError(e) => "receiving Hello: "@ + e@,
            HandshakeFailure::Closed => "connection closed during handshake"@,
            HandshakeFailure::ConfigTimedOut => "handshake timed out waiting for Config"@,
            HandshakeFailure::ExpectedConfig(f) => "expected Config, got "@ + f@,
            HandshakeFailure::ConfigError(e) => "receiving Config: "@ + e@,
        }
    }

    /// The failure in words.
    pub fn text(&self) -> (r: String)
        ensures
            r@ == self.spec_text(),
    {
        match self {
            HandshakeFailure::SendTimedOut => "handshake timed out sending Hello".to_owned(),
            HandshakeFailure::SendFailed(e) => text::cat2("sending Hello: ", e.as_str()),
            HandshakeFailure::HelloTimedOut => "handshake timed out waiting for Hello".to_owned(),
            HandshakeFailure::VersionMismatch(v) => {
                let mut s = text::cat3(
                    "protocol version mismatch: host ",
                    text::decimal(*v as u64).as_str(),
                    ", guest ",
                );
                s.append(text::decimal(PROTOCOL_VERSION as u64).as_str());
                s
            },
            HandshakeFailure::ExpectedHello(f) => text::cat2("expected Hello, got ", f.as_str()),
            HandshakeFailure::HelloError(e) => text::cat2("receiving Hello: ", e.as_str()),
            HandshakeFailure::Closed => "connection closed during handshake".to_owned(),
            HandshakeFailure::ConfigTimedOut => "handshake timed out waiting for Config".to_owned(),
            HandshakeFailure::ExpectedConfig(f) => text::cat2("expected Config, got ", f.as_str()),
            HandshakeFailure::ConfigError(e) => text::cat2("receiving Config: ", e.as_str()),
        }
    }

    /// The same failure once more.
    pub fn copy(&self) -> (r: Self)
        ensures
            r == *self,
    {
        match self {
            HandshakeFailure::SendTimedOut => HandshakeFailure::SendTimedOut,
            HandshakeFailure::SendFailed(e) => HandshakeFailure::SendFailed(e.clone()),
            HandshakeFailure::HelloTimedOut => HandshakeFailure::HelloTimedOut,
            HandshakeFailure::VersionMismatch(v) => HandshakeFailure::VersionMismatch(*v),
            HandshakeFailure::ExpectedHello(f) => HandshakeFailure::ExpectedHello(f.clone()),
            HandshakeFailure::HelloError(e) => HandshakeFailure::HelloError(e.clone()),
            HandshakeFailure::Closed => HandshakeFailure::Closed,
            HandshakeFailure::ConfigTimedOut => HandshakeFailure::ConfigTimedOut,
            HandshakeFailure::ExpectedConfig(f) => HandshakeFailure::ExpectedConfig(f.clone()),
            HandshakeFailure::ConfigError(e) => HandshakeFailure::ConfigError(e.clone()),
        }
    }
}

impl SpeedError {
    /// The failure in words; `detail` is what the codec said.
    pub open spec fn spec_text(self, detail: Seq<char>) -> Seq<char> {
        match self {
            SpeedError::Timeout => "speed test timed out"@,
            SpeedError::Closed => "connection closed during speed test"@,
            SpeedError::Unexpected(k) => "unexpected frame during speed test: "@ + k.spec_name(),
            SpeedError::Codec => detail,
        }
    }

    /// The failure in words; `detail` is what the codec said.
    pub fn text(&self, detail: &str) -> (r: String)
        ensures
            r@ == self.spec_text(detail@),
    {
        match self {
            SpeedError::Timeout => "speed test timed out".to_owned(),
            SpeedError::Closed => "connection closed during speed test".to_owned(),
            SpeedError::Unexpected(k) => text::cat2(
                "unexpected frame during speed test: ",
                k.name(),
            ),
            SpeedError::Codec => detail.to_owned(),
        }
    }
}

/// Why a session ended, or never came up.
#[derive(Debug)]
pub enum Reason {
    HostBye,
    ConnectionError(String),
    ConnectionClosed,
    SendFailed(String),
    SendTimedOut,
    TunRead(String),
    /// No frame came for this many seconds.
    KeepaliveTimeout(u64),
    /// The interface lost its carrier.
    LinkLost(String),
    Connecting { host: Endpoint, error: String },
    Handshake(HandshakeFailure),
    SpeedProbe { error: SpeedError, detail: String },
    TunCreate(String),
    Apply(String),
}

impl Endpoint {
    /// The same endpoint once more.
    pub fn copy(&self) -> (r: Self)
        ensures
            r == *self,
    {
        match self {
            Endpoint::Tcp(a) => Endpoint::Tcp(*a),
            Endpoint::Serial(p) => Endpoint::Serial(p.clone()),
        }
    }
}

impl Reason {
    /// The reason in words.
    pub open spec fn spec_text(self) -> Seq<char> {
        match self {
            Reason::HostBye => "host closed the tunnel (Bye)"@,
            Reason::ConnectionError(e) => "connection error: "@ + e@,
            Reason::ConnectionClosed => "connection closed by host"@,
            Reason::SendFailed(e) => "send failed: "@ + e@,
            Reason::SendTimedOut => "send timed out"@,
            Reason::TunRead(e) => "tun read error: "@ + e@,
            Reason::KeepaliveTimeout(s) => "no data from host for "@ + text::dec(s as nat)
                + "s (keep-alive timeout)"@,
            Reason::LinkLost(name) => "link "@ + name@ + " lost (cable unplugged)"@,
            Reason::Connecting { host, error } => "connecting to "@ + host.spec_text() + ": "@
                + error@,
            Reason::Handshake(f) => "handshake: "@ + f.spec_text(),
            Reason::SpeedProbe { error, detail } => "link capacity probe: "@ + error.spec_text(
                detail@,
            ),
            Reason::TunCreate(e) => "creating TUN device: "@ + e@,
            Reason::Apply(e) => "applying platform configuration: "@ + e@,
        }
    }

    /// The reason in words.
    pub fn text(&self) -> (r: String)
        ensures
            r@ == self.spec_text(),
    {
        match self {
            Reason::HostBye => "host closed the tunnel (Bye)".to_owned(),
            Reason::ConnectionError(e) => text::cat2("connection error: ", e.as_str()),
            Reason::ConnectionClosed => "connection closed by host".to_owned(),
            Reason::SendFailed(e) => text::cat2("send failed: ", e.as_str()),
            Reason::SendTimedOut => "send timed out".to_owned(),
            Reason::TunRead(e) => text::cat2("tun read error: ", e.as_str()),
            Reason::KeepaliveTimeout(s) => text::cat3(
                "no data from host for ",
                text::decimal(*s).as_str(),
                "s (keep-alive timeout)",
            ),
            Reason::LinkLost(name) => text::cat3("link ", name.as_str(), " lost (cable unplugged)"),
            Reason::Connecting { host, error } => {
                let mut s = text::cat3("connecting to ", host.text().as_str(), ": ");
                s.append(error.as_str());
                s
            },
            Reason::Handshake(f) => text::cat2("handshake: ", f.text().as_str()),
            Reason::SpeedProbe { error, detail } => text::cat2(
                "link capacity probe: ",
                error.text(detail.as_str()).as_str(),
            ),
            Reason::TunCreate(e) => text::cat2("creating TUN device: ", e.as_str()),
            Reason::Apply(e) => text::cat2("applying platform configuration: ", e.as_str()),
        }
    }

    /// The same reason once more.
    pub fn copy(&self) -> (r: Self)
        ensures
            r == *self,
    {
        match self {
            Reason::HostBye => Reason::HostBye,
            Reason::ConnectionError(e) => Reason::ConnectionError(e.clone()),
            Reason::ConnectionClosed => Reason::ConnectionClosed,
            Reason::SendFailed(e) => Reason::SendFailed(e.clone()),
            Reason::SendTimedOut => Reason::SendTimedOut,
            Reason::TunRead(e) => Reason::TunRead(e.clone()),
            Reason::KeepaliveTimeout(s) => Reason::KeepaliveTimeout(*s),
            Reason::LinkLost(n) => Reason::LinkLost(n.clone()),
            Reason::Connecting { host, error } => Reason::Connecting {
                host: host.copy(),
                error: error.clone(),
            },
            Reason::Handshake(f) => Reason::Handshake(f.copy()),
            Reason::SpeedProbe { error, detail } => Reason::SpeedProbe {
                error: *error,
                detail: detail.clone(),
            },
            Reason::TunCreate(e) => Reason::TunCreate(e.clone()),
            Reason::Apply(e) => Reason::Apply(e.clone()),
        }
    }
}

// The guest's side of the handshake.

/// What reading a frame gave during the handshake.
#[derive(Debug)]
pub enum HandshakeRead {
    Frame(Frame),
    Failed(String),
    Closed,
    TimedOut,
}

/// What writing the `Hello` gave.
#[derive(Debug)]
pub enum HandshakeSent {
    Done,
    Failed(String),
    TimedOut,
}

/// Guest side of the handshake: `Hello` → expect `Hello` then `Config`.
#[derive(Debug)]
pub enum Handshake {
    /// The `Hello` is to be written.
    Greeting,
    /// The host's `Hello` is due.
    AwaitHello,
    /// The host has given its name; its `Config` is due.
    AwaitConfig(String),
    /// The host's name and the tunnel configuration.
    Done(String, TunnelConfig),
    Failed(HandshakeFailure),
}

impl Handshake {
    /// The state after the `Hello` was written, or was not.
    pub open spec fn spec_sent(self, r: HandshakeSent) -> Handshake {
        match self {
            Handshake::Greeting => match r {
                HandshakeSent::Done => Handshake::AwaitHello,
                HandshakeSent::Failed(e) => Handshake::Failed(HandshakeFailure::SendFailed(e)),
                HandshakeSent::TimedOut => Handshake::Failed(HandshakeFailure::SendTimedOut),
            },
            _ => self,
        }
    }

    /// The state after a read; `shown` is how an unexpected frame is described.
    pub open spec fn spec_received(self, r: HandshakeRead, shown: String) -> Handshake {
        match self {
            Handshake::AwaitHello => match r {
                HandshakeRead::Frame(Frame::Hello { version, name }) => if version
                    == PROTOCOL_VERSION {
                    Handshake::AwaitConfig(name)
                } else {
                    Handshake::Failed(HandshakeFailure::VersionMismatch(version))
                },
                HandshakeRead::Frame(_) => Handshake::Failed(HandshakeFailure::ExpectedHello(shown)),
                HandshakeRead::Failed(e) => Handshake::Failed(HandshakeFailure::HelloError(e)),
                HandshakeRead::Closed => Handshake::Failed(HandshakeFailure::Closed),
                HandshakeRead::TimedOut => Handshake::Failed(HandshakeFailure::HelloTimedOut),
            },
            Handshake::AwaitConfig(name) => match r {
                HandshakeRead::Frame(Frame::Config(c)) => Handshake::Done(name, c),
                HandshakeRead::Frame(_) => Handshake::Failed(
                    HandshakeFailure::ExpectedConfig(shown),
                ),
                HandshakeRead::Failed(e) => Handshake::Failed(HandshakeFailure::ConfigError(e)),
                HandshakeRead::Closed => Handshake::Failed(HandshakeFailure::Closed),
                HandshakeRead::TimedOut => Handshake::Failed(HandshakeFailure::ConfigTimedOut),
            },
            _ => self,
        }
    }

    /// The frame that opens the handshake.
    pub fn hello(name: &str) -> (r: Frame)
        ensures
            r@ == (FrameView::Hello { version: PROTOCOL_VERSION, name: name@ }),
    {
        Frame::Hello { version: PROTOCOL_VERSION, name: name.to_owned() }
    }

    /// Takes the outcome of writing the `Hello`.
    pub fn sent(self, r: HandshakeSent) -> (next: Self)
        ensures
            next == self.spec_sent(r),
    {
        match self {
            Handshake::Greeting => match r {
                HandshakeSent::Done => Handshake::AwaitHello,
                HandshakeSent::Failed(e) => Handshake::Failed(HandshakeFailure::SendFailed(e)),
                HandshakeSent::TimedOut => Handshake::Failed(HandshakeFailure::SendTimedOut),
            },
            other => other,
        }
    }

    /// Takes the outcome of a read; `shown` describes the frame, for the case
    /// that it is not the one that is due.
    pub fn received(self, r: HandshakeRead, shown: String) -> (next: Self)
        ensures
            next == self.spec_received(r, shown),
    {
        match self {
            Handshake::AwaitHello => match r {
                HandshakeRead::Frame(Frame::Hello { version, name }) => {
                    if version == PROTOCOL_VERSION {
                        Handshake::AwaitConfig(name)
                    } else {
                        Handshake::Failed(HandshakeFailure::VersionMismatch(version))
                    }
                },
                HandshakeRead::Frame(_) => Handshake::Failed(HandshakeFailure::ExpectedHello(shown)),
                HandshakeRead::Failed(e) => Handshake::Failed(HandshakeFailure::HelloError(e)),
                HandshakeRead::Closed => Handshake::Failed(HandshakeFailure::Closed),
                HandshakeRead::TimedOut => Handshake::Failed(HandshakeFailure::HelloTimedOut),
            },
            Handshake::AwaitConfig(name) => match r {
                HandshakeRead::Frame(Frame::Config(c)) => Handshake::Done(name, c),
                HandshakeRead::Frame(_) => Handshake::Failed(
                    HandshakeFailure::ExpectedConfig(shown),
                ),
                HandshakeRead::Failed(e) => Handshake::Failed(HandshakeFailure::ConfigError(e)),
                HandshakeRead::Closed => Handshake::Failed(HandshakeFailure::Closed),
                HandshakeRead::TimedOut => Handshake::Failed(HandshakeFailure::ConfigTimedOut),
            },
            other => other,
        }
    }
}

/// A handshake is done only after the host greeted with our protocol version
/// and then sent a configuration, and it keeps what the host said.
pub proof fn handshake_needs_hello_then_config(
    h: Handshake,
    r: HandshakeRead,
    shown: String,
)
    requires
        !(h is Done),
        h.spec_received(r, shown) is Done,
    ensures
        h is AwaitConfig,
        r matches HandshakeRead::Frame(Frame::Config(c)) && h.spec_received(r, shown)
            == Handshake::Done(h->AwaitConfig_0, c),
{
}

/// A host of another version is refused before it is told anything more.
pub proof fn other_version_is_refused(version: u16, name: String, shown: String)
    requires
        version != PROTOCOL_VERSION,
    ensures
        Handshake::AwaitHello.spec_received(
            HandshakeRead::Frame(Frame::Hello { version, name }),
            shown,
        ) == Handshake::Failed(HandshakeFailure::VersionMismatch(version)),
{
}

// The packet pump.

/// How a session that was up ended.
#[derive(Debug)]
pub enum SessionEnd {
    Shutdown,
    Lost(Reason),
    /// Host sent `Bye` or closed; no need to send our own `Bye`.
    HostClosed(Reason),
}

/// Something that happened while the tunnel is up.
#[derive(Debug)]
pub enum PumpEvent {
    Shutdown,
    /// A frame arrived.
    Frame(Frame),
    /// The transport or the codec failed.
    ReadFailed(String),
    /// The host closed the connection.
    Closed,
    /// The TUN gave a packet of this many bytes.
    TunPacket(usize),
    TunFailed(String),
    /// The keep-alive timer fired.
    PingTick,
    /// The statistics timer fired.
    StatsTick,
    /// The carrier was polled: whether the interface has one, if that can be
    /// told.
    LinkTick(Option<bool>),
    /// The interface timer fired.
    IfaceTick,
    /// A frame could not be written.
    SendFailed(String),
    SendTimedOut,
}

/// What the caller does about it.
#[derive(Debug)]
pub enum PumpAction {
    Nothing,
    /// Write the packet to the TUN; if that works, count it as received.
    Deliver,
    /// Send the packet that the TUN gave; if that works, count it as sent.
    Forward,
    /// Answer a keep-alive with its token.
    Pong(u64),
    /// Send a keep-alive carrying the time.
    Ping,
    ReportStats,
    RefreshInterfaces,
    End(SessionEnd),
}

/// Packet pump: TUN ⇄ frames, keep-alives, stats, link watch.
#[derive(Debug)]
pub struct Pump {
    /// When the last frame came, in milliseconds.
    pub last_rx: u64,
    /// Silence for longer than this many milliseconds ends the session.
    pub keepalive_timeout: u64,
    /// Interface whose carrier is watched.
    pub link_iface: Option<String>,
}

/// When the last frame came, after `ev` at `now`.
pub open spec fn heard(last_rx: u64, ev: PumpEvent, now: u64) -> u64 {
    match ev {
        PumpEvent::Frame(f) => match f {
            Frame::Bye => last_rx,
            _ => now,
        },
        _ => last_rx,
    }
}

/// What is done about `ev` at `now`.
pub open spec fn pump_action(p: Pump, ev: PumpEvent, now: u64) -> PumpAction {
    match ev {
        PumpEvent::Shutdown => PumpAction::End(SessionEnd::Shutdown),
        PumpEvent::Frame(f) => match f {
            Frame::IpPacket(_) => PumpAction::Deliver,
            Frame::Ping(t) => PumpAction::Pong(t),
            Frame::Bye => PumpAction::End(SessionEnd::HostClosed(Reason::HostBye)),
            _ => PumpAction::Nothing,
        },
        PumpEvent::ReadFailed(e) => PumpAction::End(
            SessionEnd::HostClosed(Reason::ConnectionError(e)),
        ),
        PumpEvent::Closed => PumpAction::End(SessionEnd::HostClosed(Reason::ConnectionClosed)),
        PumpEvent::TunPacket(n) => if n == 0 {
            PumpAction::Nothing
        } else {
            PumpAction::Forward
        },
        PumpEvent::TunFailed(e) => PumpAction::End(SessionEnd::Lost(Reason::TunRead(e))),
        PumpEvent::PingTick => if now - p.last_rx > p.keepalive_timeout {
            PumpAction::End(
                SessionEnd::Lost(Reason::KeepaliveTimeout(p.keepalive_timeout / 1000)),
            )
        } else {
            PumpAction::Ping
        },
        PumpEvent::StatsTick => PumpAction::ReportStats,
        PumpEvent::LinkTick(carrier) => match p.link_iface {
            Some(name) => if carrier == Some(false) {
                PumpAction::End(SessionEnd::Lost(Reason::LinkLost(name)))
            } else {
                PumpAction::Nothing
            },
            None => PumpAction::Nothing,
        },
        PumpEvent::IfaceTick => PumpAction::RefreshInterfaces,
        PumpEvent::SendFailed(e) => PumpAction::End(SessionEnd::Lost(Reason::SendFailed(e))),
        PumpEvent::SendTimedOut => PumpAction::End(SessionEnd::Lost(Reason::SendTimedOut)),
    }
}

impl Pump {
    /// The pump of a session that came up at `now`.
    pub fn new(now: u64, keepalive_timeout: u64, link_iface: Option<String>) -> (r: Self)
        ensures
            r == (Pump { last_rx: now, keepalive_timeout, link_iface }),
    {
        Pump { last_rx: now, keepalive_timeout, link_iface }
    }

    /// Takes an event at `now` and says what to do about it.
    pub fn on(&mut self, ev: &PumpEvent, now: u64) -> (a: PumpAction)
        ensures
            a == pump_action(*old(self), *ev, now),
            *final(self) == (Pump { last_rx: heard(old(self).last_rx, *ev, now), ..*old(self) }),
    {
        match ev {
            PumpEvent::Shutdown => PumpAction::End(SessionEnd::Shutdown),
            PumpEvent::Frame(f) => match f {
                Frame::IpPacket(_) => {
                    self.last_rx = now;
                    PumpAction::Deliver
                },
                Frame::Ping(t) => {
                    self.last_rx = now;
                    PumpAction::Pong(*t)
                },
                Frame::Bye => PumpAction::End(SessionEnd::HostClosed(Reason::HostBye)),
                _ => {
                    self.last_rx = now;
                    PumpAction::Nothing
                },
            },
            PumpEvent::ReadFailed(e) => PumpAction::End(
                SessionEnd::HostClosed(Reason::ConnectionError(e.clone())),
            ),
            PumpEvent::Closed => PumpAction::End(SessionEnd::HostClosed(Reason::ConnectionClosed)),
            PumpEvent::TunPacket(n) => if *n == 0 {
                PumpAction::Nothing
            } else {
                PumpAction::Forward
            },
            PumpEvent::TunFailed(e) => PumpAction::End(SessionEnd::Lost(Reason::TunRead(e.clone()))),
            PumpEvent::PingTick => {
                if now >= self.last_rx && now - self.last_rx > self.keepalive_timeout {
                    PumpAction::End(
                        SessionEnd::Lost(Reason::KeepaliveTimeout(self.keepalive_timeout / 1000)),
                    )
                } else {
                    PumpAction::Ping
                }
            },
            PumpEvent::StatsTick => PumpAction::ReportStats,
            // Carrier poll: the cheapest and by far the fastest way to notice
            // that the cable was pulled. Waiting for the keep-alive to expire
            // instead would black-hole every packet the default route sends
            // into the dead tunnel meanwhile.
            PumpEvent::LinkTick(carrier) => match (&self.link_iface, carrier) {
                (Some(name), Some(false)) => PumpAction::End(
                    SessionEnd::Lost(Reason::LinkLost(name.clone())),
                ),
                _ => PumpAction::Nothing,
            },
            PumpEvent::IfaceTick => PumpAction::RefreshInterfaces,
            PumpEvent::SendFailed(e) => PumpAction::End(
                SessionEnd::Lost(Reason::SendFailed(e.clone())),
            ),
            PumpEvent::SendTimedOut => PumpAction::End(SessionEnd::Lost(Reason::SendTimedOut)),
        }
    }
}

/// A session is not given up while the host is heard: if the last frame came
/// within the timeout, a tick of the keep-alive timer only sends a `Ping`.
pub proof fn a_host_that_talks_is_kept(p: Pump, now: u64)
    requires
        now <= p.last_rx + p.keepalive_timeout,
    ensures
        pump_action(p, PumpEvent::PingTick, now) == PumpAction::Ping,
{
}

/// Every frame but `Bye` counts as a sign of life.
pub proof fn every_frame_is_a_sign_of_life(last_rx: u64, f: Frame, now: u64)
    requires
        f@ != FrameView::Bye,
    ensures
        heard(last_rx, PumpEvent::Frame(f), now) == now,
{
}

/// A keep-alive is answered with the token that it carried.
pub proof fn a_ping_is_answered_with_its_token(p: Pump, token: u64, now: u64)
    ensures
        pump_action(p, PumpEvent::Frame(Frame::Ping(token)), now) == PumpAction::Pong(token),
{
}

/// While the tunnel is up, every IP packet of the host is delivered to the TUN
/// and every packet that the TUN gives is forwarded to the host; nothing else
/// is delivered or forwarded.
pub proof fn packets_are_carried(p: Pump, ev: PumpEvent, now: u64)
    ensures
        pump_action(p, ev, now) == PumpAction::Deliver <==> (ev matches PumpEvent::Frame(f)
            && f@ is IpPacket),
        pump_action(p, ev, now) == PumpAction::Forward <==> (ev matches PumpEvent::TunPacket(n)
            && n > 0),
{
}

/// The timers do what they are for: statistics are reported and interfaces
/// refreshed exactly when their timers fire, and a keep-alive is sent only when
/// its timer fires.
pub proof fn timers_are_served(p: Pump, ev: PumpEvent, now: u64)
    ensures
        pump_action(p, ev, now) == PumpAction::ReportStats <==> ev is StatsTick,
        pump_action(p, ev, now) == PumpAction::RefreshInterfaces <==> ev is IfaceTick,
        pump_action(p, ev, now) == PumpAction::Ping ==> ev is PingTick,
        pump_action(p, ev, now) is Pong ==> (ev matches PumpEvent::Frame(f) && f@ is Ping),
{
}

/// What ends a session, and how: a shutdown in order; a `Bye`, an error or the
/// end of the connection as closed by the host; a TUN that fails, a frame that
/// cannot be sent, a cable without a carrier or a host that has been silent for
/// longer than the timeout as lost. Nothing else ends it.
pub proof fn a_session_ends_for_a_reason(p: Pump, ev: PumpEvent, now: u64)
    ensures
        ev is Shutdown ==> pump_action(p, ev, now) == PumpAction::End(SessionEnd::Shutdown),
        (ev matches PumpEvent::Frame(f) && f@ == FrameView::Bye) ==> pump_action(p, ev, now)
            == PumpAction::End(SessionEnd::HostClosed(Reason::HostBye)),
        ev matches PumpEvent::ReadFailed(e) ==> pump_action(p, ev, now) == PumpAction::End(
            SessionEnd::HostClosed(Reason::ConnectionError(e)),
        ),
        ev is Closed ==> pump_action(p, ev, now) == PumpAction::End(
            SessionEnd::HostClosed(Reason::ConnectionClosed),
        ),
        ev matches PumpEvent::TunFailed(e) ==> pump_action(p, ev, now) == PumpAction::End(
            SessionEnd::Lost(Reason::TunRead(e)),
        ),
        ev matches PumpEvent::SendFailed(e) ==> pump_action(p, ev, now) == PumpAction::End(
            SessionEnd::Lost(Reason::SendFailed(e)),
        ),
        ev is SendTimedOut ==> pump_action(p, ev, now) == PumpAction::End(
            SessionEnd::Lost(Reason::SendTimedOut),
        ),
        pump_action(p, ev, now) is End ==> {
            ||| ev is Shutdown
            ||| (ev matches PumpEvent::Frame(f) && f@ == FrameView::Bye)
            ||| ev is ReadFailed
            ||| ev is Closed
            ||| ev is TunFailed
            ||| ev is SendFailed
            ||| ev is SendTimedOut
            ||| ev is PingTick && now > p.last_rx + p.keepalive_timeout
            ||| ev == PumpEvent::LinkTick(Some(false)) && p.link_iface is Some
        },
{
}

/// A host that has been silent for longer than the timeout is given up when the
/// keep-alive timer fires.
pub proof fn a_silent_host_is_given_up(p: Pump, now: u64)
    requires
        now > p.last_rx + p.keepalive_timeout,
    ensures
        pump_action(p, PumpEvent::PingTick, now) == PumpAction::End(
            SessionEnd::Lost(Reason::KeepaliveTimeout((p.keepalive_timeout / 1000) as u64)),
        ),
{
}

/// A pulled cable ends the session at the next look at the carrier, and names
/// the interface; a cable that is in, a carrier that cannot be told, and a link
/// that is not watched leave it alone.
pub proof fn a_pulled_cable_is_noticed(p: Pump, name: String, carrier: Option<bool>, now: u64)
    ensures
        p.link_iface == Some(name) ==> pump_action(p, PumpEvent::LinkTick(Some(false)), now)
            == PumpAction::End(SessionEnd::Lost(Reason::LinkLost(name))),
        carrier != Some(false) || p.link_iface is None ==> pump_action(
            p,
            PumpEvent::LinkTick(carrier),
            now,
        ) == PumpAction::Nothing,
{
}

/// An event at a moment in milliseconds.
pub struct Timed {
    pub ev: PumpEvent,
    pub at: u64,
}

/// When the host was last heard, after some events of a session that came up
/// at `start`.
pub open spec fn heard_after(start: u64, evs: Seq<Timed>) -> u64
    decreases evs.len(),
{
    if evs.len() == 0 {
        start
    } else {
        heard(heard_after(start, evs.drop_last()), evs.last().ev, evs.last().at)
    }
}

/// The silence of the host is counted from its last frame: if event number `i`
/// is a frame other than a `Bye`, and none after it is a frame, the host was
/// last heard then; if no event is a frame, when the session came up.
pub proof fn silence_counts_from_the_last_frame(start: u64, evs: Seq<Timed>, i: int)
    requires
        -1 <= i < evs.len(),
        i >= 0 ==> (evs[i].ev matches PumpEvent::Frame(f) && f@ != FrameView::Bye),
        forall|k: int| i < k < evs.len() ==> !((#[trigger] evs[k]).ev is Frame),
    ensures
        heard_after(start, evs) == if i < 0 {
            start
        } else {
            evs[i].at
        },
    decreases evs.len(),
{
    if evs.len() > 0 {
        let front = evs.drop_last();
        if i < evs.len() - 1 {
            assert forall|k: int| i < k < front.len() implies !((#[trigger] front[k]).ev is Frame) by {
                assert(front[k] == evs[k]);
            }
            assert(!(evs[evs.len() - 1].ev is Frame));
            silence_counts_from_the_last_frame(start, front, i);
        }
    }
}

/// A host that answers the `Hello` with one of our version and then gives a
/// configuration has shaken hands: its name and its configuration are kept.
pub proof fn a_proper_handshake_succeeds(
    name: String,
    config: TunnelConfig,
    shown: String,
)
    ensures
        Handshake::Greeting.spec_sent(HandshakeSent::Done).spec_received(
            HandshakeRead::Frame(Frame::Hello { version: PROTOCOL_VERSION, name }),
            shown,
        ).spec_received(HandshakeRead::Frame(Frame::Config(config)), shown) == Handshake::Done(
            name,
            config,
        ),
{
}

/// Whatever else happens fails the handshake, for what happened: a `Hello` that
/// is not written, a connection that ends or fails or stays silent, and a frame
/// that is not the one that is due. A handshake that is over stays as it is.
pub proof fn anything_else_fails_the_handshake(
    h: Handshake,
    s: HandshakeSent,
    r: HandshakeRead,
    shown: String,
)
    ensures
        h is Greeting ==> {
            &&& s matches HandshakeSent::Failed(e) ==> h.spec_sent(s) == Handshake::Failed(
                HandshakeFailure::SendFailed(e),
            )
            &&& s is TimedOut ==> h.spec_sent(s) == Handshake::Failed(
                HandshakeFailure::SendTimedOut,
            )
        },
        h is AwaitHello ==> {
            &&& r matches HandshakeRead::Failed(e) ==> h.spec_received(r, shown)
                == Handshake::Failed(HandshakeFailure::HelloError(e))
            &&& r is Closed ==> h.spec_received(r, shown) == Handshake::Failed(
                HandshakeFailure::Closed,
            )
            &&& r is TimedOut ==> h.spec_received(r, shown) == Handshake::Failed(
                HandshakeFailure::HelloTimedOut,
            )
            &&& (r matches HandshakeRead::Frame(f) && !(f@ is Hello)) ==> h.spec_received(r, shown)
                == Handshake::Failed(HandshakeFailure::ExpectedHello(shown))
        },
        h is AwaitConfig ==> {
            &&& r matches HandshakeRead::Failed(e) ==> h.spec_received(r, shown)
                == Handshake::Failed(HandshakeFailure::ConfigError(e))
            &&& r is Closed ==> h.spec_received(r, shown) == Handshake::Failed(
                HandshakeFailure::Closed,
            )
            &&& r is TimedOut ==> h.spec_received(r, shown) == Handshake::Failed(
                HandshakeFailure::ConfigTimedOut,
            )
            &&& (r matches HandshakeRead::Frame(f) && !(f@ is Config)) ==> h.spec_received(
                r,
                shown,
            ) == Handshake::Failed(HandshakeFailure::ExpectedConfig(shown))
        },
        h is Done || h is Failed ==> h.spec_sent(s) == h && h.spec_received(r, shown) == h,
{
}

/// The guest goes by the machine's name where it has one.
pub proof fn a_guest_goes_by_its_name(hostname: Option<String>)
    ensures
        hostname matches Some(h) && h@.len() > 0 ==> default_name_text(hostname) == hostname->0@,
        hostname is None || hostname->0@.len() == 0 ==> default_name_text(hostname)
            == "netm-guest"@,
{
}

/// A reason tells its cause: what failed, or which link, host or time it was.
pub proof fn reasons_tell_their_cause(r: Reason, cause: String, host: Endpoint)
    ensures
        r == Reason::ConnectionError(cause) || r == Reason::SendFailed(cause) || r
            == Reason::TunRead(cause) || r == Reason::LinkLost(cause) || r == Reason::TunCreate(
            cause,
        ) || r == Reason::Apply(cause) ==> text::holds(r.spec_text(), cause@),
        r == (Reason::Connecting { host, error: cause }) ==> text::holds(r.spec_text(), cause@)
            && text::holds(r.spec_text(), host.spec_text()),
        r matches Reason::KeepaliveTimeout(s) ==> text::holds(r.spec_text(), text::dec(s as nat)),
        r matches Reason::Handshake(f) ==> text::holds(r.spec_text(), f.spec_text()),
        r matches Reason::SpeedProbe { error, detail } ==> text::holds(
            r.spec_text(),
            error.spec_text(detail@),
        ),
{
    let all = r.spec_text();
    assert(all.take(all.len() as int) =~= all);
    match r {
        Reason::ConnectionError(e) => {
            text::what_a_prefix_ends_with_is_held("connection error: "@, e@, all);
        },
        Reason::SendFailed(e) => {
            text::what_a_prefix_ends_with_is_held("send failed: "@, e@, all);
        },
        Reason::TunRead(e) => {
            text::what_a_prefix_ends_with_is_held("tun read error: "@, e@, all);
        },
        Reason::KeepaliveTimeout(s) => {
            let (a, d) = ("no data from host for "@, text::dec(s as nat));
            text::a_front_is_a_prefix(a + d, "s (keep-alive timeout)"@, all);
            text::what_a_prefix_ends_with_is_held(a, d, all);
        },
        Reason::LinkLost(name) => {
            text::a_front_is_a_prefix("link "@ + name@, " lost (cable unplugged)"@, all);
            text::what_a_prefix_ends_with_is_held("link "@, name@, all);
        },
        Reason::Connecting { host: h, error } => {
            let (a, d) = ("connecting to "@, h.spec_text());
            text::what_a_prefix_ends_with_is_held(a + d + ": "@, error@, all);
            text::a_front_is_a_prefix(a + d + ": "@, error@, all);
            text::a_front_is_a_prefix(a + d, ": "@, all);
            text::what_a_prefix_ends_with_is_held(a, d, all);
        },
        Reason::Handshake(f) => {
            text::what_a_prefix_ends_with_is_held("handshake: "@, f.spec_text(), all);
        },
        Reason::SpeedProbe { error, detail } => {
            text::what_a_prefix_ends_with_is_held(
                "link capacity probe: "@,
                error.spec_text(detail@),
                all,
            );
        },
        Reason::TunCreate(e) => {
            text::what_a_prefix_ends_with_is_held("creating TUN device: "@, e@, all);
        },
        Reason::Apply(e) => {
            text::what_a_prefix_ends_with_is_held("applying platform configuration: "@, e@, all);
        },
        _ => {},
    }
}

/// A handshake that failed tells why.
pub proof fn failed_handshakes_tell_why(f: HandshakeFailure, cause: String)
    ensures
        f == HandshakeFailure::SendFailed(cause) || f == HandshakeFailure::ExpectedHello(cause) || f
            == HandshakeFailure::HelloError(cause) || f == HandshakeFailure::ExpectedConfig(cause)
            || f == HandshakeFailure::ConfigError(cause) ==> text::holds(f.spec_text(), cause@),
        f matches HandshakeFailure::VersionMismatch(v) ==> text::holds(
            f.spec_text(),
            text::dec(v as nat),
        ),
{
    let all = f.spec_text();
    assert(all.take(all.len() as int) =~= all);
    match f {
        HandshakeFailure::SendFailed(e) => {
            text::what_a_prefix_ends_with_is_held("sending Hello: "@, e@, all);
        },
        HandshakeFailure::ExpectedHello(e) => {
            text::what_a_prefix_ends_with_is_held("expected Hello, got "@, e@, all);
        },
        HandshakeFailure::HelloError(e) => {
            text::what_a_prefix_ends_with_is_held("receiving Hello: "@, e@, all);
        },
        HandshakeFailure::ExpectedConfig(e) => {
            text::what_a_prefix_ends_with_is_held("expected Config, got "@, e@, all);
        },
        HandshakeFailure::ConfigError(e) => {
            text::what_a_prefix_ends_with_is_held("receiving Config: "@, e@, all);
        },
        HandshakeFailure::VersionMismatch(v) => {
            let (a, d) = ("protocol version mismatch: host "@, text::dec(v as nat));
            let ours = text::dec(PROTOCOL_VERSION as nat);
            text::a_front_is_a_prefix(a + d + ", guest "@, ours, all);
            text::a_front_is_a_prefix(a + d, ", guest "@, all);
            text::what_a_prefix_ends_with_is_held(a, d, all);
        },
        _ => {},
    }
}

/// What has no cause of its own is told in its own words.
pub proof fn other_ends_have_their_own_words(detail: Seq<char>, k: crate::frame::FrameKind)
    ensures
        Reason::HostBye.spec_text() == "host closed the tunnel (Bye)"@,
        Reason::ConnectionClosed.spec_text() == "connection closed by host"@,
        Reason::SendTimedOut.spec_text() == "send timed out"@,
        HandshakeFailure::SendTimedOut.spec_text() == "handshake timed out sending Hello"@,
        HandshakeFailure::HelloTimedOut.spec_text() == "handshake timed out waiting for Hello"@,
        HandshakeFailure::ConfigTimedOut.spec_text() == "handshake timed out waiting for Config"@,
        HandshakeFailure::Closed.spec_text() == "connection closed during handshake"@,
        SpeedError::Timeout.spec_text(detail) == "speed test timed out"@,
        SpeedError::Closed.spec_text(detail) == "connection closed during speed test"@,
        SpeedError::Codec.spec_text(detail) == detail,
        text::holds(SpeedError::Unexpected(k).spec_text(detail), k.spec_name()),
{
    let all = SpeedError::Unexpected(k).spec_text(detail);
    assert(all.take(all.len() as int) =~= all);
    text::what_a_prefix_ends_with_is_held(
        "unexpected frame during speed test: "@,
        k.spec_name(),
        all,
    );
}

/// Routes are in order when every prefix is.
pub proof fn routes_are_prefixes(r: RouteMode, i: int)
    ensures
        r is Full ==> r.wf(),
        r.wf() ==> (r matches RouteMode::Custom(nets) ==> (0 <= i < nets@.len() ==> nets@[i].prefix_len
            <= 32)),
{
}

} // verus!
