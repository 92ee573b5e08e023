//! Per-flow forwarding: a stream accepted from the user-space stack is
//! bridged to a real socket on the host.
//!
//! - TCP: a connection to the original destination, then a counted
//!   bidirectional copy.
//! - UDP: a connected socket, pumped in both directions with an idle timeout.
//! - DNS (destination `<tunnel dns>:53`): relayed to the host's upstream
//!   resolvers (see [`crate::dns`]) instead of the literal destination.
//!
//! # Egress safety / single-machine testing
//!
//! Flows leave the host through its ordinary routing table. When guest and
//! host run on the **same machine** for testing, only a narrow test route
//! (e.g. `1.1.1.1/32`) must point at the TUN; if the whole default route were
//! hijacked, the host's egress sockets would themselves be routed back into
//! the TUN and the traffic would loop forever. Nothing in this module can
//! detect that situation, so keep single-machine tests to `/32` routes.

use crate::cidr;
use crate::dns::DNS_PORT;
use crate::frame::TunnelConfig;
use crate::net::{IpAddr, Ipv4Addr, Ipv6Addr, SocketAddr};
use crate::text;
use vstd::prelude::*;
use vstd::string::StringExecFns;

verus! {

/// TCP connect timeout towards the real destination, in milliseconds.
pub const TCP_CONNECT_TIMEOUT_MS: u64 = 10_000;

/// Idle timeout of generic UDP flows, in milliseconds.
pub const UDP_IDLE_TIMEOUT_MS: u64 = 60_000;

/// Idle timeout of UDP DNS flows, in milliseconds.
pub const DNS_IDLE_TIMEOUT_MS: u64 = 10_000;

/// How often an idle stack-side TCP read is re-polled, in milliseconds.
pub const STACK_READ_NUDGE_MS: u64 = 500;

/// Byte counters of one flow (`tx` = guest → internet). They wrap around.
#[derive(Clone, Copy, Debug, PartialEq, Eq, Structural)]
pub struct FlowCounters {
    pub tx: u64,
    pub rx: u64,
}

impl Default for FlowCounters {
    fn default() -> (r: Self)
        ensures
            r == (FlowCounters { tx: 0, rx: 0 }),
    {
        FlowCounters { tx: 0, rx: 0 }
    }
}

impl FlowCounters {
    /// Counts bytes from the guest.
    pub fn add_tx(&mut self, n: usize)
        ensures
            *final(self) == (FlowCounters {
                tx: old(self).tx.wrapping_add(n as u64),
                rx: old(self).rx,
            }),
    {
        self.tx = self.tx.wrapping_add(n as u64);
    }

    /// Counts bytes to the guest.
    pub fn add_rx(&mut self, n: usize)
        ensures
            *final(self) == (FlowCounters {
                tx: old(self).tx,
                rx: old(self).rx.wrapping_add(n as u64),
            }),
    {
        self.rx = self.rx.wrapping_add(n as u64);
    }
}

// Where flows may go.

impl IpAddr {
    /// An address of a group.
    pub open spec fn spec_multicast(self) -> bool {
        match self {
            IpAddr::V4(a) => 224 <= a.0 <= 239,
            IpAddr::V6(a) => a.0 >= 0xff00,
        }
    }

    /// The address of all zeros.
    pub open spec fn spec_unspecified(self) -> bool {
        match self {
            IpAddr::V4(a) => a == Ipv4Addr(0, 0, 0, 0),
            IpAddr::V6(a) => a == Ipv6Addr(0, 0, 0, 0, 0, 0, 0, 0),
        }
    }

    /// An address of a group.
    pub fn is_multicast(&self) -> (r: bool)
        ensures
            r == self.spec_multicast(),
    {
        match self {
            IpAddr::V4(a) => 224 <= a.0 && a.0 <= 239,
            IpAddr::V6(a) => a.0 >= 0xff00,
        }
    }

    /// The address of all zeros.
    pub fn is_unspecified(&self) -> (r: bool)
        ensures
            r == self.spec_unspecified(),
    {
        match self {
            IpAddr::V4(a) => *a == Ipv4Addr(0, 0, 0, 0),
            IpAddr::V6(a) => *a == Ipv6Addr(0, 0, 0, 0, 0, 0, 0, 0),
        }
    }
}

/// The last address of the subnet that `member` lies in.
pub open spec fn is_directed_broadcast(a: Ipv4Addr, member: Ipv4Addr, prefix_len: nat) -> bool {
    let size = cidr::block_size(prefix_len);
    &&& cidr::address_number(a) / size == cidr::address_number(member) / size
    &&& cidr::address_number(a) % size == size - 1
}

/// Whether a flow to `dst` should be forwarded at all: not to a group, to
/// nowhere, to everybody, or back to the guest.
pub open spec fn allowed(tunnel: TunnelConfig, dst: SocketAddr) -> bool {
    &&& !dst.spec_ip().spec_multicast()
    &&& !dst.spec_ip().spec_unspecified()
    &&& match dst.spec_ip() {
        IpAddr::V4(a) => {
            &&& a != Ipv4Addr(255, 255, 255, 255)
            &&& a != tunnel.guest_ip
            &&& !is_directed_broadcast(a, tunnel.gateway_ip, tunnel.prefix_len as nat)
        },
        IpAddr::V6(_) => true,
    }
}

fn block_len(prefix_len: u8) -> (r: u64)
    ensures
        r == cidr::block_size(prefix_len as nat),
        0 < r,
        prefix_len >= 32 ==> r == 1,
        prefix_len < 32 ==> r <= 0x1_0000_0000u64 >> (prefix_len as u64),
    decreases 32 - prefix_len,
{
    if prefix_len >= 32 {
        1
    } else {
        let half: u64 = block_len(prefix_len + 1);
        proof {
            let p = prefix_len as u64;
            assert(p < 32 ==> 2 * (0x1_0000_0000u64 >> ((p + 1) as u64)) <= 0x1_0000_0000u64 >> p)
                by (bit_vector);
            assert(p < 32 ==> 2u64 <= 0x1_0000_0000u64 >> p) by (bit_vector);
            assert(0x1_0000_0000u64 >> p <= 0x1_0000_0000u64) by (bit_vector);
            assert(p == 31 ==> 0x1_0000_0000u64 >> p == 2) by (bit_vector);
        }
        2 * half
    }
}

fn number_of(a: Ipv4Addr) -> (r: u64)
    ensures
        r == cidr::address_number(a),
{
    ((a.0 as u64 * 256 + a.1 as u64) * 256 + a.2 as u64) * 256 + a.3 as u64
}

/// Whether a flow to `dst` should be forwarded at all.
pub fn destination_allowed(tunnel: &TunnelConfig, dst: SocketAddr) -> (r: bool)
    ensures
        r == allowed(*tunnel, dst),
{
    let ip = dst.ip();
    if ip.is_multicast() || ip.is_unspecified() {
        return false;
    }
    match ip {
        IpAddr::V4(a) => {
            if a == Ipv4Addr(255, 255, 255, 255) || a == tunnel.guest_ip {
                return false;
            }
            // Directed broadcast of the tunnel subnet (e.g. 10.77.0.255).
            let size: u64 = block_len(tunnel.prefix_len);
            let n: u64 = number_of(a);
            let g: u64 = number_of(tunnel.gateway_ip);
            !(n / size == g / size && n % size == size - 1)
        },
        IpAddr::V6(_) => true,
    }
}

/// Is this flow addressed to the tunnel's DNS forwarder?
pub open spec fn asks_dns(tunnel: TunnelConfig, dst: SocketAddr) -> bool {
    dst.spec_port() == DNS_PORT && dst.spec_ip() == IpAddr::V4(tunnel.dns)
}

/// Is this flow addressed to the tunnel's DNS forwarder?
pub fn is_dns(tunnel: &TunnelConfig, dst: SocketAddr) -> (r: bool)
    ensures
        r == asks_dns(*tunnel, dst),
{
    dst.port() == DNS_PORT && dst.ip() == IpAddr::V4(tunnel.dns)
}

/// Where a flow to `dst` is actually connected.
pub open spec fn target_of(tunnel: TunnelConfig, dst: SocketAddr) -> SocketAddr {
    if dst.spec_ip() == IpAddr::V4(tunnel.gateway_ip) {
        SocketAddr::V4 { ip: Ipv4Addr(127, 0, 0, 1), port: dst.spec_port() }
    } else {
        dst
    }
}

/// Where a flow to `dst` is actually connected. Flows to the gateway address
/// itself are mapped to the host's loopback so the guest can reach services
/// running on the host via `10.77.0.1:<port>`.
pub fn remap_target(tunnel: &TunnelConfig, dst: SocketAddr) -> (r: SocketAddr)
    ensures
        r == target_of(*tunnel, dst),
{
    if dst.ip() == IpAddr::V4(tunnel.gateway_ip) {
        SocketAddr::V4 { ip: Ipv4Addr(127, 0, 0, 1), port: dst.port() }
    } else {
        dst
    }
}

/// Any local address and port of the family of `addr`.
pub open spec fn any_for(addr: SocketAddr) -> SocketAddr {
    match addr {
        SocketAddr::V4 { .. } => SocketAddr::V4 { ip: Ipv4Addr(0, 0, 0, 0), port: 0 },
        SocketAddr::V6 { .. } => SocketAddr::V6 {
            ip: Ipv6Addr(0, 0, 0, 0, 0, 0, 0, 0),
            port: 0,
            scope_id: 0,
        },
    }
}

/// Any local address and port of the family of `addr`.
pub fn unspecified_for(addr: SocketAddr) -> (r: SocketAddr)
    ensures
        r == any_for(addr),
{
    match addr {
        SocketAddr::V4 { .. } => SocketAddr::V4 { ip: Ipv4Addr(0, 0, 0, 0), port: 0 },
        SocketAddr::V6 { .. } => SocketAddr::V6 {
            ip: Ipv6Addr(0, 0, 0, 0, 0, 0, 0, 0),
            port: 0,
            scope_id: 0,
        },
    }
}

/// A stream that the stack accepted.
#[derive(Clone, Copy, Debug, PartialEq, Eq, Structural)]
pub enum Accepted {
    Tcp(SocketAddr),
    Udp(SocketAddr),
    /// Neither TCP nor UDP.
    UnknownTransport,
    /// Not an IP packet that the stack knows.
    UnknownNetwork,
}

/// What becomes of it.
#[derive(Clone, Copy, Debug, PartialEq, Eq, Structural)]
pub enum Dispatch {
    /// Connect to this address and copy.
    Tcp(SocketAddr),
    /// Connect to the first upstream resolver that accepts, and copy.
    TcpDns,
    /// Close the stream towards the guest.
    CloseTcp,
    /// Exchange datagrams with this address.
    Udp(SocketAddr),
    /// Relay each datagram to the upstream resolvers.
    UdpDns,
    /// Answer if it is a ping of the gateway.
    Icmp,
    /// Only count it.
    Count,
    Ignore,
}

/// What becomes of a stream that the stack accepted.
pub open spec fn dispatched(tunnel: TunnelConfig, s: Accepted) -> Dispatch {
    match s {
        Accepted::Tcp(dst) => if !allowed(tunnel, dst) {
            Dispatch::CloseTcp
        } else if asks_dns(tunnel, dst) {
            Dispatch::TcpDns
        } else {
            Dispatch::Tcp(target_of(tunnel, dst))
        },
        Accepted::Udp(dst) => if !allowed(tunnel, dst) {
            Dispatch::Ignore
        } else if asks_dns(tunnel, dst) {
            Dispatch::UdpDns
        } else {
            Dispatch::Udp(target_of(tunnel, dst))
        },
        Accepted::UnknownTransport => Dispatch::Icmp,
        Accepted::UnknownNetwork => Dispatch::Count,
    }
}

/// Hand an accepted stack stream to the right forwarder.
pub fn dispatch(tunnel: &TunnelConfig, s: Accepted) -> (r: Dispatch)
    ensures
        r == dispatched(*tunnel, s),
{
    match s {
        Accepted::Tcp(dst) => {
            if !destination_allowed(tunnel, dst) {
                Dispatch::CloseTcp
            } else if is_dns(tunnel, dst) {
                Dispatch::TcpDns
            } else {
                Dispatch::Tcp(remap_target(tunnel, dst))
            }
        },
        Accepted::Udp(dst) => {
            if !destination_allowed(tunnel, dst) {
                Dispatch::Ignore
            } else if is_dns(tunnel, dst) {
                Dispatch::UdpDns
            } else {
                Dispatch::Udp(remap_target(tunnel, dst))
            }
        },
        Accepted::UnknownTransport => Dispatch::Icmp,
        Accepted::UnknownNetwork => Dispatch::Count,
    }
}

/// No flow leaves the host towards the tunnel's own gateway address: what the
/// guest sends there reaches the resolver or the host's loopback.
pub proof fn the_gateway_is_never_dialled(tunnel: TunnelConfig, s: Accepted)
    requires
        tunnel.gateway_ip != Ipv4Addr(127, 0, 0, 1),
    ensures
        dispatched(tunnel, s) matches Dispatch::Tcp(a) ==> a.spec_ip() != IpAddr::V4(
            tunnel.gateway_ip,
        ),
        dispatched(tunnel, s) matches Dispatch::Udp(a) ==> a.spec_ip() != IpAddr::V4(
            tunnel.gateway_ip,
        ),
{
}

/// A query to the tunnel's resolver is never forwarded to its literal
/// destination.
pub proof fn dns_is_relayed(tunnel: TunnelConfig, dst: SocketAddr)
    requires
        asks_dns(tunnel, dst),
        allowed(tunnel, dst),
    ensures
        dispatched(tunnel, Accepted::Tcp(dst)) == Dispatch::TcpDns,
        dispatched(tunnel, Accepted::Udp(dst)) == Dispatch::UdpDns,
{
}

/// Only where a flow is allowed is anything sent.
pub proof fn disallowed_flows_go_nowhere(tunnel: TunnelConfig, dst: SocketAddr)
    requires
        !allowed(tunnel, dst),
    ensures
        dispatched(tunnel, Accepted::Tcp(dst)) == Dispatch::CloseTcp,
        dispatched(tunnel, Accepted::Udp(dst)) == Dispatch::Ignore,
{
}

// Why a flow ended.

/// Why a flow ended other than in order.
#[derive(Debug, PartialEq, Eq)]
pub enum FlowError {
    GuestToNet(String),
    NetToGuest(String),
    SessionClosed,
    Connect { dst: SocketAddr, cause: String },
    UdpBind(String),
    UdpConnect { target: SocketAddr, cause: String },
    UdpRead(String),
    UdpWrite(String),
    DnsRead(String),
}

impl FlowError {
    /// The error in words.
    pub open spec fn spec_text(self) -> Seq<char> {
        match self {
            FlowError::GuestToNet(e) => "guest->net: "@ + e@,
            FlowError::NetToGuest(e) => "net->guest: "@ + e@,
            FlowError::SessionClosed => "session closed"@,
            FlowError::Connect { dst, cause } => "connect "@ + dst.spec_text() + ": "@ + cause@,
            FlowError::UdpBind(e) => "udp bind: "@ + e@,
            FlowError::UdpConnect { target, cause } => "udp connect "@ + target.spec_text() + ": "@
                + cause@,
            FlowError::UdpRead(e) => "udp stack read: "@ + e@,
            FlowError::UdpWrite(e) => "udp stack write: "@ + e@,
            FlowError::DnsRead(e) => "dns stack read: "@ + e@,
        }
    }

    /// The error in words.
    pub fn text(&self) -> (r: String)
        ensures
            r@ == self.spec_text(),
    {
        match self {
            FlowError::GuestToNet(e) => text::cat2("guest->net: ", e.as_str()),
            FlowError::NetToGuest(e) => text::cat2("net->guest: ", e.as_str()),
            FlowError::SessionClosed => "session closed".to_owned(),
            FlowError::Connect { dst, cause } => {
                let mut s = text::cat3("connect ", dst.text().as_str(), ": ");
                s.append(cause.as_str());
                s
            },
            FlowError::UdpBind(e) => text::cat2("udp bind: ", e.as_str()),
            FlowError::UdpConnect { target, cause } => {
                let mut s = text::cat3("udp connect ", target.text().as_str(), ": ");
                s.append(cause.as_str());
                s
            },
            FlowError::UdpRead(e) => text::cat2("udp stack read: ", e.as_str()),
            FlowError::UdpWrite(e) => text::cat2("udp stack write: ", e.as_str()),
            FlowError::DnsRead(e) => text::cat2("dns stack read: ", e.as_str()),
        }
    }
}

// Copying a TCP connection.

/// Which way bytes go.
#[derive(Clone, Copy, Debug, PartialEq, Eq, Structural)]
pub enum Direction {
    GuestToNet,
    NetToGuest,
}

/// What happened in one direction of a TCP flow, or to the flow as a whole.
#[derive(Debug)]
pub enum TcpEvent {
    /// Nothing was read in time.
    Idle(Direction),
    /// So many bytes were read; zero is the end of the stream.
    Read(Direction, usize),
    ReadFailed(Direction, String),
    /// So many bytes were written.
    Written(Direction, usize),
    WriteFailed(Direction, String),
    /// The session is over.
    Cancelled,
}

/// What the caller does about it.
#[derive(Debug, PartialEq, Eq)]
pub enum TcpAction {
    /// Read on in this direction.
    Read(Direction),
    /// Write the bytes that were read.
    Write(Direction, usize),
    /// Pass the end of the stream on, and wait for the other direction.
    HalfClose(Direction),
    /// Both directions have ended.
    Finish,
    Abort(FlowError),
}

/// Bidirectional copy between the stack-side stream and the real socket with
/// proper half-close propagation.
///
/// The stack does not wake a pending reader when the guest sends FIN (or when
/// the session reaches `Closed`), so a purely wake-driven copy would hang until
/// the stack's session timeout. The guest → net direction is therefore
/// re-polled every [`STACK_READ_NUDGE_MS`] to observe the end promptly.
///
/// No explicit idle timer: the stack times out inactive TCP sessions itself.
#[derive(Clone, Copy, Debug, PartialEq, Eq, Structural)]
pub struct TcpPump {
    pub counters: FlowCounters,
    pub guest_done: bool,
    pub net_done: bool,
}

/// The error of one direction.
pub open spec fn copy_error(d: Direction, e: String) -> FlowError {
    match d {
        Direction::GuestToNet => FlowError::GuestToNet(e),
        Direction::NetToGuest => FlowError::NetToGuest(e),
    }
}

impl TcpPump {
    /// Whether the direction has ended.
    pub open spec fn done(self, d: Direction) -> bool {
        match d {
            Direction::GuestToNet => self.guest_done,
            Direction::NetToGuest => self.net_done,
        }
    }

    /// The pump after an event.
    pub open spec fn after(self, ev: TcpEvent) -> TcpPump {
        match ev {
            TcpEvent::Written(Direction::GuestToNet, n) => TcpPump {
                counters: FlowCounters {
                    tx: self.counters.tx.wrapping_add(n as u64),
                    rx: self.counters.rx,
                },
                ..self
            },
            TcpEvent::Written(Direction::NetToGuest, n) => TcpPump {
                counters: FlowCounters {
                    tx: self.counters.tx,
                    rx: self.counters.rx.wrapping_add(n as u64),
                },
                ..self
            },
            TcpEvent::Read(Direction::GuestToNet, n) => TcpPump {
                guest_done: self.guest_done || n == 0,
                ..self
            },
            TcpEvent::Read(Direction::NetToGuest, n) => TcpPump {
                net_done: self.net_done || n == 0,
                ..self
            },
            _ => self,
        }
    }

    /// What is done about an event.
    pub open spec fn action(self, ev: TcpEvent) -> TcpAction {
        match ev {
            TcpEvent::Idle(d) => TcpAction::Read(d),
            TcpEvent::Read(d, n) => if n > 0 {
                TcpAction::Write(d, n)
            } else if self.after(ev).guest_done && self.after(ev).net_done {
                TcpAction::Finish
            } else {
                TcpAction::HalfClose(d)
            },
            TcpEvent::ReadFailed(d, e) => TcpAction::Abort(copy_error(d, e)),
            TcpEvent::Written(d, _) => TcpAction::Read(d),
            TcpEvent::WriteFailed(d, e) => TcpAction::Abort(copy_error(d, e)),
            TcpEvent::Cancelled => TcpAction::Abort(FlowError::SessionClosed),
        }
    }

    /// A flow of which nothing was copied yet.
    pub fn new() -> (r: Self)
        ensures
            r == (TcpPump {
                counters: FlowCounters { tx: 0, rx: 0 },
                guest_done: false,
                net_done: false,
            }),
    {
        TcpPump { counters: FlowCounters::default(), guest_done: false, net_done: false }
    }

    /// Takes an event and says what to do about it.
    pub fn on(&mut self, ev: TcpEvent) -> (a: TcpAction)
        ensures
            *final(self) == old(self).after(ev),
            a == old(self).action(ev),
    {
        match ev {
            TcpEvent::Idle(d) => TcpAction::Read(d),
            TcpEvent::Read(d, n) => {
                if n > 0 {
                    return TcpAction::Write(d, n);
                }
                match d {
                    Direction::GuestToNet => {
                        self.guest_done = true;
                    },
                    Direction::NetToGuest => {
                        self.net_done = true;
                    },
                }
                if self.guest_done && self.net_done {
                    TcpAction::Finish
                } else {
                    TcpAction::HalfClose(d)
                }
            },
            TcpEvent::ReadFailed(d, e) | TcpEvent::WriteFailed(d, e) => TcpAction::Abort(
                match d {
                    Direction::GuestToNet => FlowError::GuestToNet(e),
                    Direction::NetToGuest => FlowError::NetToGuest(e),
                },
            ),
            TcpEvent::Written(d, n) => {
                match d {
                    Direction::GuestToNet => self.counters.add_tx(n),
                    Direction::NetToGuest => self.counters.add_rx(n),
                }
                TcpAction::Read(d)
            },
            TcpEvent::Cancelled => TcpAction::Abort(FlowError::SessionClosed),
        }
    }
}

/// A flow is finished exactly when both directions have ended: the end of one
/// leaves the other running.
pub proof fn a_flow_ends_with_both_directions(p: TcpPump, ev: TcpEvent)
    ensures
        p.action(ev) is Finish ==> p.after(ev).guest_done && p.after(ev).net_done,
        ev matches TcpEvent::Read(d, n) ==> (n == 0 ==> (p.action(ev) is Finish <==> (p.after(
            ev,
        ).guest_done && p.after(ev).net_done))),
        p.action(ev) matches TcpAction::HalfClose(d) ==> p.after(ev).done(d) && !(p.after(
            ev,
        ).guest_done && p.after(ev).net_done),
{
}

/// Only bytes that were written count, each in its own direction.
pub proof fn only_written_bytes_count(p: TcpPump, ev: TcpEvent)
    ensures
        p.after(ev).counters != p.counters ==> ev is Written,
{
}

// Exchanging UDP datagrams.

/// What happened to a UDP flow.
#[derive(Debug)]
pub enum UdpEvent {
    /// The guest sent nothing for the idle timeout.
    Idle,
    /// A datagram of so many bytes came from the guest; zero is the end.
    FromGuest(usize),
    /// The stack gave up on the flow after its own timeout.
    StackTimedOut,
    StackFailed(String),
    /// A datagram of so many bytes came from the network, or an answer from a
    /// resolver.
    FromNet(usize),
    /// Receiving from the network failed.
    NetFailed,
    /// Writing to the guest failed.
    WriteFailed(String),
    Cancelled,
}

/// What the caller does about it.
#[derive(Debug, PartialEq, Eq)]
pub enum UdpAction {
    /// Send the datagram on. That it cannot be sent does not end the flow: the
    /// guest may retry.
    Send,
    /// Write the datagram to the guest.
    Deliver,
    Nothing,
    Finish,
    Abort(FlowError),
}

/// What is done about an event of a UDP flow.
pub open spec fn udp_action(dns: bool, ev: UdpEvent) -> UdpAction {
    match ev {
        UdpEvent::Idle => UdpAction::Finish,
        UdpEvent::FromGuest(n) => if n == 0 {
            UdpAction::Finish
        } else {
            UdpAction::Send
        },
        UdpEvent::StackTimedOut => UdpAction::Finish,
        UdpEvent::StackFailed(e) => UdpAction::Abort(
            if dns {
                FlowError::DnsRead(e)
            } else {
                FlowError::UdpRead(e)
            },
        ),
        UdpEvent::FromNet(_) => UdpAction::Deliver,
        UdpEvent::NetFailed => UdpAction::Nothing,
        UdpEvent::WriteFailed(e) => if dns {
            UdpAction::Nothing
        } else {
            UdpAction::Abort(FlowError::UdpWrite(e))
        },
        UdpEvent::Cancelled => UdpAction::Abort(FlowError::SessionClosed),
    }
}

/// The counters of a UDP flow after an event.
pub open spec fn udp_counted(c: FlowCounters, ev: UdpEvent) -> FlowCounters {
    match ev {
        UdpEvent::FromGuest(n) => FlowCounters { tx: c.tx.wrapping_add(n as u64), rx: c.rx },
        UdpEvent::FromNet(n) => FlowCounters { tx: c.tx, rx: c.rx.wrapping_add(n as u64) },
        _ => c,
    }
}

/// Takes an event of a UDP flow and says what to do about it. With `dns`, each
/// datagram is one query, relayed to the upstreams; answers are written back on
/// the same flow, and an answer that cannot be written is dropped.
pub fn udp_step(counters: &mut FlowCounters, dns: bool, ev: UdpEvent) -> (a: UdpAction)
    ensures
        a == udp_action(dns, ev),
        *final(counters) == udp_counted(*old(counters), ev),
{
    match ev {
        UdpEvent::Idle => UdpAction::Finish,
        UdpEvent::FromGuest(n) => {
            counters.add_tx(n);
            if n == 0 {
                UdpAction::Finish
            } else {
                UdpAction::Send
            }
        },
        UdpEvent::StackTimedOut => UdpAction::Finish,
        UdpEvent::StackFailed(e) => UdpAction::Abort(
            if dns {
                FlowError::DnsRead(e)
            } else {
                FlowError::UdpRead(e)
            },
        ),
        UdpEvent::FromNet(n) => {
            counters.add_rx(n);
            UdpAction::Deliver
        },
        UdpEvent::NetFailed => UdpAction::Nothing,
        UdpEvent::WriteFailed(e) => if dns {
            UdpAction::Nothing
        } else {
            UdpAction::Abort(FlowError::UdpWrite(e))
        },
        UdpEvent::Cancelled => UdpAction::Abort(FlowError::SessionClosed),
    }
}

/// Every flow that is allowed and does not ask the tunnel's resolver is
/// forwarded to the address and port that the guest asked for, over the same
/// protocol; only the tunnel's gateway stands for the host itself, at the same
/// port of its loopback.
pub proof fn allowed_flows_reach_their_destination(tunnel: TunnelConfig, dst: SocketAddr)
    requires
        allowed(tunnel, dst),
        !(dst.spec_ip() == IpAddr::V4(tunnel.dns) && dst.spec_port() == 53),
    ensures
        dst.spec_ip() != IpAddr::V4(tunnel.gateway_ip) ==> {
            &&& dispatched(tunnel, Accepted::Tcp(dst)) == Dispatch::Tcp(dst)
            &&& dispatched(tunnel, Accepted::Udp(dst)) == Dispatch::Udp(dst)
        },
        dst.spec_ip() == IpAddr::V4(tunnel.gateway_ip) ==> {
            let loopback = SocketAddr::V4 { ip: Ipv4Addr(127, 0, 0, 1), port: dst.spec_port() };
            &&& dispatched(tunnel, Accepted::Tcp(dst)) == Dispatch::Tcp(loopback)
            &&& dispatched(tunnel, Accepted::Udp(dst)) == Dispatch::Udp(loopback)
        },
{
}

/// A query to port 53 of the tunnel's resolver is relayed to the upstream
/// resolvers, over the protocol that it came by, and nothing else is.
pub proof fn only_dns_is_relayed(tunnel: TunnelConfig, s: Accepted)
    ensures
        dispatched(tunnel, s) == Dispatch::TcpDns <==> (s matches Accepted::Tcp(dst) && allowed(
            tunnel,
            dst,
        ) && dst.spec_port() == 53 && dst.spec_ip() == IpAddr::V4(tunnel.dns)),
        dispatched(tunnel, s) == Dispatch::UdpDns <==> (s matches Accepted::Udp(dst) && allowed(
            tunnel,
            dst,
        ) && dst.spec_port() == 53 && dst.spec_ip() == IpAddr::V4(tunnel.dns)),
{
}

/// What is neither TCP nor UDP is looked at as a ping; what the stack does not
/// know is only counted.
pub proof fn other_traffic_is_looked_at(tunnel: TunnelConfig, s: Accepted)
    ensures
        dispatched(tunnel, s) == Dispatch::Icmp <==> s == Accepted::UnknownTransport,
        dispatched(tunnel, s) == Dispatch::Count <==> s == Accepted::UnknownNetwork,
{
}

/// Of IPv4, the guest reaches every address but groups (224.0.0.0/4), the
/// address of all zeros, the broadcast address, itself, and the last address of
/// the tunnel's subnet.
pub proof fn ipv4_destinations(tunnel: TunnelConfig, a: Ipv4Addr, port: u16)
    ensures
        ({
            let size = cidr::block_size(tunnel.prefix_len as nat);
            let first = cidr::address_number(tunnel.gateway_ip) / size * size;
            allowed(tunnel, SocketAddr::V4 { ip: a, port }) <==> {
                &&& !(224 <= a.0 && a.0 <= 239)
                &&& a != Ipv4Addr(0, 0, 0, 0)
                &&& a != Ipv4Addr(255, 255, 255, 255)
                &&& a != tunnel.guest_ip
                &&& cidr::address_number(a) != first + size - 1
            }
        }),
{
    let size = cidr::block_size(tunnel.prefix_len as nat);
    block_size_is_positive(tunnel.prefix_len as nat);
    let n = cidr::address_number(a) as int;
    let g = cidr::address_number(tunnel.gateway_ip) as int;
    let s = size as int;
    vstd::arithmetic::div_mod::lemma_fundamental_div_mod(n, s);
    vstd::arithmetic::mul::lemma_mul_is_commutative(n / s, s);
    vstd::arithmetic::mul::lemma_mul_is_commutative(g / s, s);
    if n == g / s * s + s - 1 {
        vstd::arithmetic::div_mod::lemma_fundamental_div_mod_converse(n, s, g / s, s - 1);
    }
}

proof fn block_size_is_positive(prefix_len: nat)
    ensures
        cidr::block_size(prefix_len) > 0,
    decreases 32 - prefix_len,
{
    if prefix_len < 32 {
        block_size_is_positive(prefix_len + 1);
    }
}

/// Of IPv6, the guest reaches every address but groups (ff00::/8) and the
/// address of all zeros.
pub proof fn ipv6_destinations(tunnel: TunnelConfig, a: Ipv6Addr, port: u16, scope_id: u32)
    ensures
        allowed(tunnel, SocketAddr::V6 { ip: a, port, scope_id }) <==> a.0 < 0xff00 && a
            != Ipv6Addr(0, 0, 0, 0, 0, 0, 0, 0),
{
}

/// The local side of a UDP flow is left open: any address and port, of the
/// family of the peer.
pub proof fn the_local_side_is_open(addr: SocketAddr)
    ensures
        any_for(addr).spec_port() == 0,
        any_for(addr).spec_ip().spec_unspecified(),
        (addr is V4 <==> any_for(addr) is V4) && (addr is V6 <==> any_for(addr) is V6),
        any_for(addr) matches SocketAddr::V4 { ip, .. } ==> ip == Ipv4Addr(0, 0, 0, 0),
        any_for(addr) matches SocketAddr::V6 { ip, scope_id, .. } ==> ip == Ipv6Addr(
            0,
            0,
            0,
            0,
            0,
            0,
            0,
            0,
        ) && scope_id == 0,
{
}

/// Bytes that were read in a direction are written in that direction and in
/// full, and once they are written the direction is read on. Nothing else is
/// ever written.
pub proof fn what_is_read_is_written(p: TcpPump, d: Direction, n: usize, ev: TcpEvent)
    ensures
        n > 0 ==> p.action(TcpEvent::Read(d, n)) == TcpAction::Write(d, n) && p.after(
            TcpEvent::Read(d, n),
        ) == p,
        p.action(TcpEvent::Written(d, n)) == TcpAction::Read(d),
        p.action(TcpEvent::Idle(d)) == TcpAction::Read(d),
        p.action(ev) matches TcpAction::Write(e, m) ==> ev == TcpEvent::Read(e, m) && m > 0,
{
}

/// The end of a stream is passed on in its direction, and the flow is finished
/// with the second end: whichever direction ends first, the other goes on.
pub proof fn an_end_is_passed_on(p: TcpPump)
    ensures
        !p.net_done ==> p.action(TcpEvent::Read(Direction::GuestToNet, 0)) == TcpAction::HalfClose(
            Direction::GuestToNet,
        ),
        p.net_done ==> p.action(TcpEvent::Read(Direction::GuestToNet, 0)) == TcpAction::Finish,
        !p.guest_done ==> p.action(TcpEvent::Read(Direction::NetToGuest, 0))
            == TcpAction::HalfClose(Direction::NetToGuest),
        p.guest_done ==> p.action(TcpEvent::Read(Direction::NetToGuest, 0)) == TcpAction::Finish,
        p.after(TcpEvent::Read(Direction::GuestToNet, 0)) == (TcpPump { guest_done: true, ..p }),
        p.after(TcpEvent::Read(Direction::NetToGuest, 0)) == (TcpPump { net_done: true, ..p }),
{
}

/// What fails in one direction ends the flow with an error that names the
/// direction; so does the end of the session. Nothing else does.
pub proof fn a_failure_ends_the_flow(p: TcpPump, e: String, ev: TcpEvent)
    ensures
        p.action(TcpEvent::ReadFailed(Direction::GuestToNet, e)) == TcpAction::Abort(
            FlowError::GuestToNet(e),
        ),
        p.action(TcpEvent::WriteFailed(Direction::GuestToNet, e)) == TcpAction::Abort(
            FlowError::GuestToNet(e),
        ),
        p.action(TcpEvent::ReadFailed(Direction::NetToGuest, e)) == TcpAction::Abort(
            FlowError::NetToGuest(e),
        ),
        p.action(TcpEvent::WriteFailed(Direction::NetToGuest, e)) == TcpAction::Abort(
            FlowError::NetToGuest(e),
        ),
        p.action(TcpEvent::Cancelled) == TcpAction::Abort(FlowError::SessionClosed),
        p.action(ev) is Abort ==> ev is ReadFailed || ev is WriteFailed || ev is Cancelled,
{
}

/// The pump after some events.
pub open spec fn after_all(p: TcpPump, evs: Seq<TcpEvent>) -> TcpPump
    decreases evs.len(),
{
    if evs.len() == 0 {
        p
    } else {
        after_all(p, evs.drop_last()).after(evs.last())
    }
}

/// How many bytes were written in a direction.
pub open spec fn written(evs: Seq<TcpEvent>, d: Direction) -> nat
    decreases evs.len(),
{
    if evs.len() == 0 {
        0
    } else {
        written(evs.drop_last(), d) + match evs.last() {
            TcpEvent::Written(e, n) => if e == d {
                n as nat
            } else {
                0
            },
            _ => 0,
        }
    }
}

/// The counters of a flow are the bytes that were written: those to the network
/// as sent, those to the guest as received.
pub proof fn a_flow_counts_what_was_written(evs: Seq<TcpEvent>)
    requires
        written(evs, Direction::GuestToNet) <= u64::MAX,
        written(evs, Direction::NetToGuest) <= u64::MAX,
    ensures
        ({
            let fresh = TcpPump {
                counters: FlowCounters { tx: 0, rx: 0 },
                guest_done: false,
                net_done: false,
            };
            let c = after_all(fresh, evs).counters;
            c.tx == written(evs, Direction::GuestToNet) && c.rx == written(
                evs,
                Direction::NetToGuest,
            )
        }),
    decreases evs.len(),
{
    if evs.len() > 0 {
        a_flow_counts_what_was_written(evs.drop_last());
    }
}

/// Datagrams are carried both ways: one of the guest is sent on, one of the
/// network is delivered to the guest, and nothing else is. A network that
/// refuses one does not end the flow.
pub proof fn datagrams_are_carried(dns: bool, n: usize, ev: UdpEvent)
    ensures
        n > 0 ==> udp_action(dns, UdpEvent::FromGuest(n)) == UdpAction::Send,
        udp_action(dns, UdpEvent::FromNet(n)) == UdpAction::Deliver,
        udp_action(dns, UdpEvent::NetFailed) == UdpAction::Nothing,
        udp_action(dns, ev) == UdpAction::Send ==> (ev matches UdpEvent::FromGuest(m) && m > 0),
        udp_action(dns, ev) == UdpAction::Deliver ==> ev is FromNet,
{
}

/// A UDP flow ends in order when the guest is idle or done or the stack gives
/// it up, and with an error when the stack fails or the session is over. An
/// answer that cannot be written ends it too, unless it is one to a query.
pub proof fn a_udp_flow_ends(dns: bool, e: String, ev: UdpEvent)
    ensures
        udp_action(dns, ev) == UdpAction::Finish <==> ev is Idle || ev is StackTimedOut || ev
            == UdpEvent::FromGuest(0),
        udp_action(false, UdpEvent::StackFailed(e)) == UdpAction::Abort(FlowError::UdpRead(e)),
        udp_action(true, UdpEvent::StackFailed(e)) == UdpAction::Abort(FlowError::DnsRead(e)),
        udp_action(false, UdpEvent::WriteFailed(e)) == UdpAction::Abort(FlowError::UdpWrite(e)),
        udp_action(true, UdpEvent::WriteFailed(e)) == UdpAction::Nothing,
        udp_action(dns, UdpEvent::Cancelled) == UdpAction::Abort(FlowError::SessionClosed),
        udp_action(dns, ev) is Abort ==> ev is StackFailed || ev is WriteFailed || ev is Cancelled,
{
}

/// The counters of a UDP flow after some events.
pub open spec fn udp_counted_all(c: FlowCounters, evs: Seq<UdpEvent>) -> FlowCounters
    decreases evs.len(),
{
    if evs.len() == 0 {
        c
    } else {
        udp_counted(udp_counted_all(c, evs.drop_last()), evs.last())
    }
}

/// The bytes of the datagrams from the guest and from the network.
pub open spec fn carried(evs: Seq<UdpEvent>) -> (nat, nat)
    decreases evs.len(),
{
    if evs.len() == 0 {
        (0, 0)
    } else {
        let (tx, rx) = carried(evs.drop_last());
        match evs.last() {
            UdpEvent::FromGuest(n) => (tx + n as nat, rx),
            UdpEvent::FromNet(n) => (tx, rx + n as nat),
            _ => (tx, rx),
        }
    }
}

/// The counters of a UDP flow are the bytes of its datagrams: those of the
/// guest as sent, those of the network as received.
pub proof fn a_udp_flow_counts_its_datagrams(evs: Seq<UdpEvent>)
    requires
        carried(evs).0 <= u64::MAX,
        carried(evs).1 <= u64::MAX,
    ensures
        udp_counted_all(FlowCounters { tx: 0, rx: 0 }, evs).tx == carried(evs).0,
        udp_counted_all(FlowCounters { tx: 0, rx: 0 }, evs).rx == carried(evs).1,
    decreases evs.len(),
{
    if evs.len() > 0 {
        a_udp_flow_counts_its_datagrams(evs.drop_last());
    }
}

/// A direction is over only when its end was read.
pub proof fn a_direction_ends_with_its_end(p: TcpPump, ev: TcpEvent)
    ensures
        p.after(ev).guest_done <==> p.guest_done || ev == TcpEvent::Read(Direction::GuestToNet, 0),
        p.after(ev).net_done <==> p.net_done || ev == TcpEvent::Read(Direction::NetToGuest, 0),
        p.done(Direction::GuestToNet) == p.guest_done,
        p.done(Direction::NetToGuest) == p.net_done,
{
}

/// An error tells its cause, and where it was going.
pub proof fn errors_tell_their_cause(e: FlowError, cause: String, addr: SocketAddr)
    ensures
        e == FlowError::GuestToNet(cause) || e == FlowError::NetToGuest(cause) || e
            == FlowError::UdpBind(cause) || e == FlowError::UdpRead(cause) || e
            == FlowError::UdpWrite(cause) || e == FlowError::DnsRead(cause) ==> text::holds(
            e.spec_text(),
            cause@,
        ),
        e == (FlowError::Connect { dst: addr, cause }) || e == (FlowError::UdpConnect {
            target: addr,
            cause,
        }) ==> text::holds(e.spec_text(), cause@) && text::holds(e.spec_text(), addr.spec_text()),
{
    let all = e.spec_text();
    assert(all.take(all.len() as int) =~= all);
    match e {
        FlowError::GuestToNet(x) => {
            text::what_a_prefix_ends_with_is_held("guest->net: "@, x@, all);
        },
        FlowError::NetToGuest(x) => {
            text::what_a_prefix_ends_with_is_held("net->guest: "@, x@, all);
        },
        FlowError::UdpBind(x) => {
            text::what_a_prefix_ends_with_is_held("udp bind: "@, x@, all);
        },
        FlowError::UdpRead(x) => {
            text::what_a_prefix_ends_with_is_held("udp stack read: "@, x@, all);
        },
        FlowError::UdpWrite(x) => {
            text::what_a_prefix_ends_with_is_held("udp stack write: "@, x@, all);
        },
        FlowError::DnsRead(x) => {
            text::what_a_prefix_ends_with_is_held("dns stack read: "@, x@, all);
        },
        FlowError::Connect { dst, cause: x } => {
            let (a, d) = ("connect "@, dst.spec_text());
            text::what_a_prefix_ends_with_is_held(a + d + ": "@, x@, all);
            text::a_front_is_a_prefix(a + d + ": "@, x@, all);
            text::a_front_is_a_prefix(a + d, ": "@, all);
            text::what_a_prefix_ends_with_is_held(a, d, all);
        },
        FlowError::UdpConnect { target, cause: x } => {
            let (a, d) = ("udp connect "@, target.spec_text());
            text::what_a_prefix_ends_with_is_held(a + d + ": "@, x@, all);
            text::a_front_is_a_prefix(a + d + ": "@, x@, all);
            text::a_front_is_a_prefix(a + d, ": "@, all);
            text::what_a_prefix_ends_with_is_held(a, d, all);
        },
        FlowError::SessionClosed => {},
    }
}

} // verus!
