//! Host side of the tunnel: configuration, what it reports, the single guest
//! slot, the accept loop and the interface watcher.
//!
//! The host accepts a guest session, answers link-local discovery probes, and
//! terminates the guest's IP packets in a user-space TCP/IP stack whose flows
//! are forwarded through ordinary sockets. No elevated privileges are required.

use crate::flow::FlowCounters;
use crate::frame::{Frame, TunnelConfig};
use crate::guest_loop::{self, endpoints_equal};
use crate::link::{self, LinkInterface, LinkView};
use crate::net::{Endpoint, IpAddr, Ipv4Addr, Ipv6Addr, SocketAddr};
use crate::platform;
use crate::speed::LinkSpeed;
use crate::stats::{Counters, Rate};
use crate::text;
use crate::{DATA_PORT, DISCOVERY_PORT};
use vstd::prelude::*;
use vstd::string::StringExecFns;

verus! {

/// Interval of `HostEvent::Stats`, in milliseconds.
pub const STATS_INTERVAL_MS: u64 = 500;

/// Interval at which candidate interfaces are re-enumerated, in milliseconds.
pub const INTERFACE_POLL_INTERVAL_MS: u64 = 3_000;

/// A serial port that the host also listens on.
#[derive(Clone, Debug, PartialEq, Eq)]
pub struct SerialSettings {
    pub path: String,
    pub baud: u32,
}

/// Host configuration.
#[derive(Clone, Debug)]
pub struct HostConfig {
    /// TCP port of the data listener (default [`DATA_PORT`]). See
    /// [`bind_addr`](Self::bind_addr) for how the two interact.
    pub data_port: u16,
    /// Exact socket address to bind the data listener to (default
    /// `[::]:DATA_PORT`, dual-stack). Port `0` picks an ephemeral port (used
    /// by tests). If this field still carries the default port while
    /// `data_port` was changed, `data_port` wins, so setting only `data_port`
    /// behaves as expected. Discovery always advertises the port actually
    /// bound.
    pub bind_addr: SocketAddr,
    /// Addressing handed to the guest in the `Config` frame.
    pub tunnel: TunnelConfig,
    /// Name announced in discovery offers and `Hello` (default: hostname).
    pub host_name: String,
    /// Upstream DNS resolvers. `None` = read the system resolvers and refresh
    /// them every 30 s.
    pub dns_upstreams: Option<Vec<SocketAddr>>,
    /// Serial port to wait for a guest on, besides the network.
    pub serial: Option<SerialSettings>,
}

/// The host name, or `netm-host` where it is unknown or empty.
pub open spec fn host_name_text(hostname: Option<String>) -> Seq<char> {
    match hostname {
        Some(h) => if h@.len() > 0 {
            h@
        } else {
            "netm-host"@
        },
        None => "netm-host"@,
    }
}

/// The machine's hostname, or `"netm-host"` if it cannot be determined.
pub fn default_host_name(hostname: Option<String>) -> (r: String)
    ensures
        r@ == host_name_text(hostname),
{
    match hostname {
        Some(h) => if !h.as_str().is_empty() {
            h
        } else {
            "netm-host".to_owned()
        },
        None => "netm-host".to_owned(),
    }
}

impl HostConfig {
    /// The default configuration on a machine with the given host name.
    pub fn for_host(hostname: Option<String>) -> (r: Self)
        ensures
            r.data_port == DATA_PORT,
            r.bind_addr == (SocketAddr::V6 {
                ip: Ipv6Addr(0, 0, 0, 0, 0, 0, 0, 0),
                port: DATA_PORT,
                scope_id: 0,
            }),
            r.tunnel == (TunnelConfig {
                guest_ip: Ipv4Addr(10, 77, 0, 2),
                gateway_ip: Ipv4Addr(10, 77, 0, 1),
                prefix_len: 24,
                dns: Ipv4Addr(10, 77, 0, 1),
                mtu: crate::DEFAULT_MTU,
            }),
            r.host_name@ == host_name_text(hostname),
            r.dns_upstreams is None,
            r.serial is None,
    {
        HostConfig {
            data_port: DATA_PORT,
            bind_addr: SocketAddr::V6 {
                ip: Ipv6Addr(0, 0, 0, 0, 0, 0, 0, 0),
                port: DATA_PORT,
                scope_id: 0,
            },
            tunnel: TunnelConfig::default(),
            host_name: default_host_name(hostname),
            dns_upstreams: None,
            serial: None,
        }
    }

    /// Set both `data_port` and the port of `bind_addr`.
    pub fn with_port(self, port: u16) -> (r: Self)
        ensures
            r == (HostConfig {
                data_port: port,
                bind_addr: self.bind_addr.spec_with_port(port),
                ..self
            }),
    {
        let bind_addr = self.bind_addr.with_port(port);
        HostConfig { data_port: port, bind_addr, ..self }
    }

    /// The address that is bound: `bind_addr`, unless only `data_port` was
    /// customised.
    pub open spec fn spec_effective(self) -> SocketAddr {
        if self.bind_addr.spec_port() == DATA_PORT && self.data_port != DATA_PORT {
            SocketAddr::of(self.bind_addr.spec_ip(), self.data_port)
        } else {
            self.bind_addr
        }
    }

    /// The address that is bound: `bind_addr`, unless only `data_port` was
    /// customised.
    pub fn effective_bind_addr(&self) -> (r: SocketAddr)
        ensures
            r == self.spec_effective(),
    {
        if self.bind_addr.port() == DATA_PORT && self.data_port != DATA_PORT {
            SocketAddr::new(self.bind_addr.ip(), self.data_port)
        } else {
            self.bind_addr
        }
    }
}

/// Setting only the port, one way or the other, binds that port.
pub proof fn the_chosen_port_is_bound(cfg: HostConfig, port: u16)
    ensures
        (HostConfig {
            data_port: port,
            bind_addr: cfg.bind_addr.spec_with_port(port),
            ..cfg
        }).spec_effective().spec_port() == port,
        cfg.bind_addr.spec_port() == DATA_PORT ==> (HostConfig {
            data_port: port,
            ..cfg
        }).spec_effective().spec_port() == port,
{
}

/// Transport protocol of a flow.
#[derive(Clone, Copy, Debug, PartialEq, Eq, Structural)]
pub enum Proto {
    Tcp,
    Udp,
}

/// A forwarded flow as seen when it was opened.
#[derive(Clone, Copy, Debug, PartialEq, Eq, Structural)]
pub struct FlowInfo {
    pub id: u64,
    pub proto: Proto,
    /// Guest-side endpoint (inside the tunnel).
    pub src: SocketAddr,
    /// Original destination requested by the guest.
    pub dst: SocketAddr,
    /// Bytes guest → internet (always `0` in `FlowOpened`; final value in
    /// `FlowClosed`).
    pub tx_bytes: u64,
    /// Bytes internet → guest.
    pub rx_bytes: u64,
    /// When the flow was opened, in milliseconds on the caller's clock.
    pub opened_at: u64,
}

/// A connected guest.
#[derive(Clone, Debug)]
pub struct GuestInfo {
    pub peer: Endpoint,
    pub name: String,
    /// When the guest connected, in milliseconds on the caller's clock.
    pub connected_at: u64,
    pub assigned_ip: Ipv4Addr,
}

impl GuestInfo {
    /// The same guest once more.
    pub fn copy(&self) -> (r: Self)
        ensures
            r == *self,
    {
        GuestInfo {
            peer: self.peer.copy(),
            name: self.name.clone(),
            connected_at: self.connected_at,
            assigned_ip: self.assigned_ip,
        }
    }
}

/// Events emitted by the host.
#[derive(Clone, Debug)]
pub enum HostEvent {
    /// The data listener is bound.
    Listening { addr: SocketAddr },
    /// Candidate link interfaces; emitted on start and whenever the list
    /// changes.
    Interfaces(Vec<LinkInterface>),
    GuestConnected(GuestInfo),
    GuestDisconnected { peer: Endpoint, reason: String },
    FlowOpened(FlowInfo),
    FlowClosed { id: u64, tx_bytes: u64, rx_bytes: u64 },
    /// Periodic (every 500 ms) traffic snapshot. `tx` = host → guest, `rx` =
    /// guest → host, rates in bit/s. Dropped (not queued) when the event
    /// channel is full.
    Stats { counters: Counters, tx_bps: Rate, rx_bps: Rate, active_flows: usize },
    /// Human readable log line.
    Log(String),
    /// One-shot Type-C / Thunderbolt link-capacity probe (not Internet).
    LinkSpeed(LinkSpeed),
    /// The serial port was opened or lost.
    Serial { path: String, open: bool },
    /// Non-fatal error description.
    Error(String),
}

/// Commands accepted by the host.
#[derive(Clone, Copy, Debug, PartialEq, Eq, Structural)]
pub enum HostCommand {
    Run,
    Shutdown,
}

/// State shared by the listener, the session and its flows.
#[derive(Debug)]
pub struct Shared {
    pub tunnel: TunnelConfig,
    pub host_name: String,
    /// The peer that holds the single guest slot.
    pub guest: Option<Endpoint>,
    pub active_flows: usize,
    pub next_flow_id: u64,
}

impl Shared {
    /// Nobody is connected and no flow was opened yet.
    pub fn new(tunnel: TunnelConfig, host_name: String) -> (r: Self)
        ensures
            r == (Shared { tunnel, host_name, guest: None, active_flows: 0, next_flow_id: 1 }),
    {
        Shared { tunnel, host_name, guest: None, active_flows: 0, next_flow_id: 1 }
    }

    /// Takes the guest slot for `peer`, if it is free.
    pub fn claim_guest(&mut self, peer: &Endpoint) -> (r: bool)
        ensures
            (*final(self), r) == old(self).claimed(*peer),
    {
        if self.guest.is_some() {
            return false;
        }
        self.guest = Some(peer.copy());
        true
    }

    /// Who holds the guest slot.
    pub fn active_guest(&self) -> (r: Option<Endpoint>)
        ensures
            r == self.guest,
    {
        match &self.guest {
            Some(e) => Some(e.copy()),
            None => None,
        }
    }

    /// Frees the guest slot if `peer` holds it; otherwise nothing changes.
    pub fn release_guest(&mut self, peer: &Endpoint)
        ensures
            *final(self) == old(self).released(*peer),
    {
        let held: bool = match &self.guest {
            Some(e) => endpoints_equal(e, peer),
            None => false,
        };
        if held {
            self.guest = None;
        }
    }

    /// The state after `peer` asked for the guest slot, and whether it got it.
    pub open spec fn claimed(self, peer: Endpoint) -> (Shared, bool) {
        if self.guest is None {
            (Shared { guest: Some(peer), ..self }, true)
        } else {
            (self, false)
        }
    }

    /// The state after `peer` gave the guest slot back.
    pub open spec fn released(self, peer: Endpoint) -> Shared {
        if self.holds(peer) {
            Shared { guest: None, ..self }
        } else {
            self
        }
    }

    /// `peer` holds the guest slot.
    pub open spec fn holds(self, peer: Endpoint) -> bool {
        match self.guest {
            Some(e) => guest_loop::same_endpoint(e, peer),
            None => false,
        }
    }

    /// Registers a flow that is being opened.
    pub fn open_flow(&mut self, proto: Proto, src: SocketAddr, dst: SocketAddr, now: u64) -> (r:
        FlowInfo)
        requires
            old(self).active_flows < usize::MAX,
        ensures
            r == (FlowInfo {
                id: old(self).next_flow_id,
                proto,
                src,
                dst,
                tx_bytes: 0,
                rx_bytes: 0,
                opened_at: now,
            }),
            *final(self) == (Shared {
                active_flows: (old(self).active_flows + 1) as usize,
                next_flow_id: old(self).next_flow_id.wrapping_add(1),
                ..*old(self)
            }),
    {
        let id: u64 = self.next_flow_id;
        self.next_flow_id = id.wrapping_add(1);
        self.active_flows = self.active_flows + 1;
        FlowInfo { id, proto, src, dst, tx_bytes: 0, rx_bytes: 0, opened_at: now }
    }

    /// A flow has ended; its bytes are reported with its number.
    pub fn close_flow(&mut self, id: u64, counters: FlowCounters) -> (r: HostEvent)
        requires
            old(self).active_flows > 0,
        ensures
            r == (HostEvent::FlowClosed { id, tx_bytes: counters.tx, rx_bytes: counters.rx }),
            *final(self) == (Shared {
                active_flows: (old(self).active_flows - 1) as usize,
                ..*old(self)
            }),
    {
        self.active_flows = self.active_flows - 1;
        HostEvent::FlowClosed { id, tx_bytes: counters.tx, rx_bytes: counters.rx }
    }
}

/// The guest slot is exclusive: who gets it holds it; while it is held nobody
/// gets it, and nobody but the holder can free it; once the holder has freed it
/// anybody gets it.
pub proof fn guest_slot_is_exclusive(s: Shared, holder: Endpoint, other: Endpoint)
    requires
        s.guest is None,
        !guest_loop::same_endpoint(holder, other),
    ensures
        ({
            let (held, won) = s.claimed(holder);
            &&& won
            &&& held.guest == Some(holder)
            &&& held.claimed(other) == (held, false)
            &&& held.claimed(holder) == (held, false)
            &&& held.released(other) == held
            &&& held.released(holder).guest is None
            &&& held.released(holder).claimed(other).1
        }),
{
}

// The accept loop.

/// Something that happened to the running host.
#[derive(Debug)]
pub enum AcceptEvent {
    /// The control channel changed; whether that asks for a shutdown (a
    /// channel without a sender does).
    Control { shutdown: bool },
    /// A connection came in; whether a session is running.
    Connection { peer: SocketAddr, busy: bool },
    /// A connection could not be accepted.
    Failed(String),
}

/// What the host does about it.
#[derive(Debug)]
pub enum AcceptAction {
    Continue,
    /// Log the text and stop.
    Stop { log: String },
    /// Serve the guest.
    Serve(SocketAddr),
    /// Log the text, send the frame (a `Bye`) alone and drop the connection.
    Reject { log: String, reply: Frame },
    /// Report the text and wait so many milliseconds: errors of this kind pass
    /// and should not kill the host.
    BackOff { error: String, pause: u64 },
}

/// The accept loop: only one guest is served at a time; further connections
/// receive `Bye`.
#[derive(Debug)]
pub struct AcceptLoop {
    /// The guest that was served last.
    pub current: Option<SocketAddr>,
}

/// The line about a connection that came while another was served.
pub open spec fn turned_away_text(peer: SocketAddr, active: SocketAddr) -> Seq<char> {
    "rejecting guest "@ + peer.spec_text() + ": "@ + active.spec_text() + " is already connected"@
}

/// What is done about an event.
pub open spec fn accept_action(l: AcceptLoop, ev: AcceptEvent, a: AcceptAction) -> bool {
    match ev {
        AcceptEvent::Control { shutdown } => if shutdown {
            a matches AcceptAction::Stop { log } && log@ == "shutdown requested"@
        } else {
            a is Continue
        },
        AcceptEvent::Connection { peer, busy } => if busy && l.current is Some {
            a matches AcceptAction::Reject { log, reply } && log@ == turned_away_text(
                peer,
                l.current->0,
            ) && reply == Frame::Bye
        } else {
            a == AcceptAction::Serve(peer)
        },
        AcceptEvent::Failed(e) => a matches AcceptAction::BackOff { error, pause } && error@
            == "accept failed: "@ + e@ && pause == 200,
    }
}

impl AcceptLoop {
    /// No guest has been served yet.
    pub fn new() -> (r: Self)
        ensures
            r.current is None,
    {
        AcceptLoop { current: None }
    }

    /// Takes an event and says what to do about it.
    pub fn on(&mut self, ev: AcceptEvent) -> (a: AcceptAction)
        ensures
            accept_action(*old(self), ev, a),
            final(self).current == match a {
                AcceptAction::Serve(peer) => Some(peer),
                _ => old(self).current,
            },
    {
        match ev {
            AcceptEvent::Control { shutdown } => if shutdown {
                AcceptAction::Stop { log: "shutdown requested".to_owned() }
            } else {
                AcceptAction::Continue
            },
            AcceptEvent::Connection { peer, busy } => match self.current {
                Some(active) if busy => {
                    let mut log = text::cat3("rejecting guest ", peer.text().as_str(), ": ");
                    log.append(active.text().as_str());
                    log.append(" is already connected");
                    AcceptAction::Reject { log, reply: Frame::Bye }
                },
                _ => {
                    self.current = Some(peer);
                    AcceptAction::Serve(peer)
                },
            },
            AcceptEvent::Failed(e) => AcceptAction::BackOff {
                error: text::cat2("accept failed: ", e.as_str()),
                pause: 200,
            },
        }
    }
}

/// The line that the host logs when it listens.
pub open spec fn listening_text(addr: SocketAddr, tunnel: TunnelConfig) -> Seq<char> {
    "listening on "@ + addr.spec_text() + " (guest "@ + tunnel.guest_ip.spec_text() + " gateway "@
        + tunnel.gateway_ip.spec_text() + " mtu "@ + text::dec(tunnel.mtu as nat) + ")"@
}

/// The line that the host logs when it listens.
pub fn listening_line(addr: &SocketAddr, tunnel: &TunnelConfig) -> (r: String)
    ensures
        r@ == listening_text(*addr, *tunnel),
{
    let mut s = text::cat3("listening on ", addr.text().as_str(), " (guest ");
    s.append(tunnel.guest_ip.text().as_str());
    s.append(" gateway ");
    s.append(tunnel.gateway_ip.text().as_str());
    s.append(" mtu ");
    s.append(text::decimal(tunnel.mtu as u64).as_str());
    s.append(")");
    s
}

/// The addresses that must not be asked as resolvers, because they are the
/// tunnel's own.
pub fn excluded_resolvers(tunnel: &TunnelConfig) -> (r: Vec<IpAddr>)
    ensures
        r@ == seq![IpAddr::V4(tunnel.dns), IpAddr::V4(tunnel.gateway_ip)],
{
    let r = vec![IpAddr::V4(tunnel.dns), IpAddr::V4(tunnel.gateway_ip)];
    assert(r@ =~= seq![IpAddr::V4(tunnel.dns), IpAddr::V4(tunnel.gateway_ip)]);
    r
}

/// Addresses with commas between them.
pub open spec fn addrs_text(list: Seq<SocketAddr>) -> Seq<char>
    decreases list.len(),
{
    if list.len() == 0 {
        Seq::empty()
    } else if list.len() == 1 {
        list[0].spec_text()
    } else {
        addrs_text(list.drop_last()) + ", "@ + list.last().spec_text()
    }
}

/// The line that the host logs about its resolvers.
pub fn upstreams_line(list: &Vec<SocketAddr>) -> (r: String)
    ensures
        r@ == "DNS upstreams: ["@ + addrs_text(list@) + "]"@,
{
    let mut out = String::new();
    let mut i: usize = 0;
    assert(list@.take(0) =~= Seq::empty());
    while i < list.len()
        invariant
            i <= list@.len(),
            out@ == addrs_text(list@.take(i as int)),
        decreases list@.len() - i,
    {
        let ghost sofar = out@;
        assert(list@.take(i + 1).drop_last() =~= list@.take(i as int));
        assert(list@.take(i + 1).last() == list@[i as int]);
        if i > 0 {
            out.append(", ");
        }
        out.append(list[i].text().as_str());
        proof {
            if i == 0 {
                assert(sofar + list@[0].spec_text() =~= list@[0].spec_text());
                assert(list@.take(1)[0] == list@[0]);
            }
        }
        i = i + 1;
    }
    assert(list@.take(i as int) =~= list@);
    text::cat3("DNS upstreams: [", out.as_str(), "]")
}

// The interface watcher.

/// Somewhere in `list` an interface called `name` is ready.
pub open spec fn ready_in(list: Seq<LinkView>, name: Seq<char>) -> bool {
    exists|i: int| 0 <= i < list.len() && (#[trigger] list[i]).name == name && list[i].ready()
}

fn is_ready_in(list: &Vec<LinkInterface>, name: &str) -> (r: bool)
    ensures
        r == ready_in(link::views(list@), name@),
{
    let mut i: usize = 0;
    while i < list.len()
        invariant
            i <= list@.len(),
            forall|k: int|
                0 <= k < i ==> !((#[trigger] link::views(list@)[k]).name == name@ && link::views(
                    list@,
                )[k].ready()),
        decreases list@.len() - i,
    {
        assert(link::views(list@)[i as int] == list@[i as int]@);
        if list[i].is_ready() && text::same(list[i].name.as_str(), name) {
            return true;
        }
        i = i + 1;
    }
    false
}

/// The line about a link that came up.
pub open spec fn up_text(l: LinkView) -> Seq<char> {
    "link "@ + l.name + " is up ("@ + (match l.link_local_v6 {
        Some(a) => crate::net::ipv6_text(a),
        None => Seq::empty(),
    }) + ")"@
}

/// The line about a link that went down.
pub open spec fn down_text(l: LinkView) -> Seq<char> {
    "link "@ + l.name + " is down"@
}

/// The lines about links that came up: those of `list` that are ready and were
/// not in `prev`.
pub open spec fn ups(prev: Seq<LinkView>, list: Seq<LinkView>) -> Seq<Seq<char>>
    decreases list.len(),
{
    if list.len() == 0 {
        Seq::empty()
    } else {
        let before = ups(prev, list.drop_last());
        if list.last().ready() && !ready_in(prev, list.last().name) {
            before.push(up_text(list.last()))
        } else {
            before
        }
    }
}

/// The lines about links that went down: those of `prev` that were ready and
/// are not in `list`.
pub open spec fn downs(prev: Seq<LinkView>, list: Seq<LinkView>) -> Seq<Seq<char>>
    decreases prev.len(),
{
    if prev.len() == 0 {
        Seq::empty()
    } else {
        let before = downs(prev.drop_last(), list);
        if prev.last().ready() && !ready_in(list, prev.last().name) {
            before.push(down_text(prev.last()))
        } else {
            before
        }
    }
}

fn link_changes(prev: &Vec<LinkInterface>, list: &Vec<LinkInterface>) -> (r: Vec<String>)
    ensures
        platform::strings_view(r@) == ups(link::views(prev@), link::views(list@)) + downs(
            link::views(prev@),
            link::views(list@),
        ),
{
    let ghost old_links = link::views(prev@);
    let ghost new_links = link::views(list@);
    let mut out: Vec<String> = Vec::new();
    let mut i: usize = 0;
    assert(new_links.take(0) =~= Seq::<LinkView>::empty());
    assert(platform::strings_view(out@) =~= Seq::<Seq<char>>::empty());
    while i < list.len()
        invariant
            i <= list@.len(),
            old_links == link::views(prev@),
            new_links == link::views(list@),
            platform::strings_view(out@) == ups(old_links, new_links.take(i as int)),
        decreases list@.len() - i,
    {
        let l = &list[i];
        let ghost before = out@;
        proof {
            assert(new_links.take(i + 1).drop_last() =~= new_links.take(i as int));
            assert(new_links.take(i + 1).last() == l@);
        }
        if l.is_ready() && !is_ready_in(prev, l.name.as_str()) {
            let mut s = text::cat3("link ", l.name.as_str(), " is up (");
            let ghost head = s@;
            match &l.link_local_v6 {
                Some(a) => {
                    s.append(a.text().as_str());
                },
                None => {
                    assert(head + Seq::<char>::empty() =~= head);
                },
            }
            s.append(")");
            assert(s@ == up_text(l@));
            out.push(s);
            assert(platform::strings_view(out@) =~= platform::strings_view(before).push(up_text(l@)));
        }
        i = i + 1;
    }
    assert(new_links.take(i as int) =~= new_links);
    let ghost came = platform::strings_view(out@);
    let mut k: usize = 0;
    assert(old_links.take(0) =~= Seq::<LinkView>::empty());
    assert(came + Seq::<Seq<char>>::empty() =~= came);
    while k < prev.len()
        invariant
            k <= prev@.len(),
            old_links == link::views(prev@),
            new_links == link::views(list@),
            platform::strings_view(out@) == came + downs(old_links.take(k as int), new_links),
        decreases prev@.len() - k,
    {
        let p = &prev[k];
        let ghost before = out@;
        proof {
            assert(old_links.take(k + 1).drop_last() =~= old_links.take(k as int));
            assert(old_links.take(k + 1).last() == p@);
        }
        if p.is_ready() && !is_ready_in(list, p.name.as_str()) {
            let s = text::cat3("link ", p.name.as_str(), " is down");
            out.push(s);
            proof {
                assert(platform::strings_view(out@) =~= platform::strings_view(before).push(down_text(p@)));
                assert(platform::strings_view(out@) =~= came + downs(old_links.take(k as int), new_links).push(
                    down_text(p@),
                ));
            }
        }
        k = k + 1;
    }
    assert(old_links.take(k as int) =~= old_links);
    out
}

/// The indices of some interfaces, without zeros, in order and each once.
pub open spec fn is_index_set(want: Seq<u32>, list: Seq<LinkView>) -> bool {
    &&& forall|i: int, j: int| 0 <= i < j < want.len() ==> want[i] < want[j]
    &&& forall|x: u32|
        want.contains(x) <==> x != 0 && exists|k: int|
            0 <= k < list.len() && (#[trigger] list[k]).index == x
}

/// Two such lists for the same interfaces are the same.
pub proof fn index_set_is_unique(a: Seq<u32>, b: Seq<u32>, list: Seq<LinkView>)
    requires
        is_index_set(a, list),
        is_index_set(b, list),
    ensures
        a == b,
{
    assert forall|x: u32| a.contains(x) == b.contains(x) by {}
    sorted_same(a, b);
}

proof fn sorted_same(a: Seq<u32>, b: Seq<u32>)
    requires
        forall|i: int, j: int| 0 <= i < j < a.len() ==> a[i] < a[j],
        forall|i: int, j: int| 0 <= i < j < b.len() ==> b[i] < b[j],
        forall|x: u32| #[trigger] a.contains(x) == b.contains(x),
    ensures
        a == b,
    decreases a.len(),
{
    if a.len() == 0 {
        if b.len() > 0 {
            assert(b.contains(b[0]));
            assert(a.contains(b[0]));
        }
        assert(a =~= b);
    } else {
        let x = a.last();
        assert(a.contains(x));
        assert(b.contains(x));
        let y = b.last();
        assert(b.contains(y));
        assert(a.contains(y));
        let i = choose|i: int| 0 <= i < a.len() && a[i] == y;
        let j = choose|j: int| 0 <= j < b.len() && b[j] == x;
        if i < a.len() - 1 {
            assert(a[i] < a[a.len() - 1]);
        }
        if j < b.len() - 1 {
            assert(b[j] < b[b.len() - 1]);
        }
        assert(x == y);
        let fa = a.drop_last();
        let fb = b.drop_last();
        assert forall|z: u32| #[trigger] fa.contains(z) == fb.contains(z) by {
            if fa.contains(z) {
                let k = choose|k: int| 0 <= k < fa.len() && fa[k] == z;
                assert(a[k] == z);
                assert(a.contains(z));
                let m = choose|m: int| 0 <= m < b.len() && b[m] == z;
                assert(a[k] < a[a.len() - 1]);
                assert(m < b.len() - 1);
                assert(fb[m] == z);
            }
            if fb.contains(z) {
                let k = choose|k: int| 0 <= k < fb.len() && fb[k] == z;
                assert(b[k] == z);
                assert(b.contains(z));
                assert(a.contains(z));
                let m = choose|m: int| 0 <= m < a.len() && a[m] == z;
                assert(b[k] < b[b.len() - 1]);
                assert(m < a.len() - 1);
                assert(fa[m] == z);
            }
        }
        sorted_same(fa, fb);
        assert(a =~= fa.push(x));
        assert(b =~= fb.push(y));
    }
}

/// The indices of the interfaces that a multicast group can be joined on.
pub fn join_indices(list: &Vec<LinkInterface>) -> (r: Vec<u32>)
    ensures
        is_index_set(r@, link::views(list@)),
{
    let ghost links = link::views(list@);
    let mut want: Vec<u32> = Vec::new();
    let mut i: usize = 0;
    while i < list.len()
        invariant
            i <= list@.len(),
            links == link::views(list@),
            is_index_set(want@, links.take(i as int)),
        decreases list@.len() - i,
    {
        let x: u32 = list[i].index;
        let ghost before = want@;
        let ghost sofar = links.take(i as int);
        let ghost next = links.take(i + 1);
        proof {
            assert(next =~= sofar.push(links[i as int]));
            assert(links[i as int].index == x);
        }
        if x != 0 {
            let mut at: usize = 0;
            while at < want.len() && want[at] < x
                invariant
                    at <= want@.len(),
                    want@ == before,
                    forall|k: int| 0 <= k < at ==> want@[k] < x,
                decreases want@.len() - at,
            {
                at = at + 1;
            }
            if at == want.len() || want[at] != x {
                want.insert(at, x);
                proof {
                    insert_keeps_order(before, at as int, x);
                    assert forall|z: u32| want@.contains(z) <==> z == x || before.contains(z) by {
                        if want@.contains(z) {
                            let k = choose|k: int| 0 <= k < want@.len() && want@[k] == z;
                            if k < at {
                                assert(before[k] == z);
                            } else if k > at {
                                assert(before[k - 1] == z);
                            }
                        }
                        if before.contains(z) {
                            let k = choose|k: int| 0 <= k < before.len() && before[k] == z;
                            if k < at {
                                assert(want@[k] == z);
                            } else {
                                assert(want@[k + 1] == z);
                            }
                        }
                        if z == x {
                            assert(want@[at as int] == z);
                        }
                    }
                }
            } else {
                proof {
                    assert(want@[at as int] == x);
                    assert(want@.contains(x));
                }
            }
        }
        proof {
            assert forall|z: u32|
                want@.contains(z) <==> z != 0 && exists|k: int|
                    0 <= k < next.len() && (#[trigger] next[k]).index == z by {
                if z != 0 && exists|k: int| 0 <= k < next.len() && (#[trigger] next[k]).index == z {
                    let k = choose|k: int|
                        0 <= k < next.len() && (#[trigger] next[k]).index == z;
                    if k < sofar.len() {
                        assert(sofar[k].index == z);
                        assert(before.contains(z));
                    }
                }
                if before.contains(z) {
                    let k = choose|k: int|
                        0 <= k < sofar.len() && (#[trigger] sofar[k]).index == z;
                    assert(next[k].index == z);
                }
                if z == x {
                    assert(next[i as int].index == z);
                }
            }
        }
        i = i + 1;
    }
    assert(links.take(i as int) =~= links);
    want
}

proof fn insert_keeps_order(s: Seq<u32>, at: int, x: u32)
    requires
        0 <= at <= s.len(),
        forall|i: int, j: int| 0 <= i < j < s.len() ==> s[i] < s[j],
        forall|k: int| 0 <= k < at ==> s[k] < x,
        at < s.len() ==> s[at] > x,
    ensures
        forall|i: int, j: int|
            0 <= i < j < s.insert(at, x).len() ==> s.insert(at, x)[i] < s.insert(at, x)[j],
{
    let t = s.insert(at, x);
    assert forall|i: int, j: int| 0 <= i < j < t.len() implies t[i] < t[j] by {
        if j < at {
            assert(t[i] == s[i] && t[j] == s[j]);
        } else if i < at && j == at {
            assert(t[i] == s[i]);
        } else if i < at {
            assert(t[i] == s[i] && t[j] == s[j - 1]);
        } else if i == at {
            assert(t[j] == s[j - 1]);
            if j - 1 > at {
                assert(s[at] < s[j - 1]);
            }
        } else {
            assert(t[i] == s[i - 1] && t[j] == s[j - 1]);
        }
    }
}

/// Keeps the interface list fresh and knows when the discovery responder has
/// to be bound anew, so that newly plugged links get their multicast join.
#[derive(Debug)]
pub struct Watcher {
    /// The list as last reported; `None` before the first.
    pub last: Option<Vec<LinkInterface>>,
    /// The interfaces that the responder has joined.
    pub joined: Vec<u32>,
    /// Whether it was reported that the responder cannot be bound.
    pub warned: bool,
}

/// What the watcher asks for after a look at the interfaces.
#[derive(Debug)]
pub struct WatchStep {
    /// The list changed: report it.
    pub changed: bool,
    /// Lines to log.
    pub log: Vec<String>,
    /// Bind the responder anew, after stopping the one that runs.
    pub rebind: bool,
}

/// What is known as a list; before the first it is not the same as any.
pub open spec fn list_differs(last: Option<Vec<LinkInterface>>, list: Seq<LinkInterface>) -> bool {
    match last {
        Some(p) => link::views(p@) != link::views(list),
        None => true,
    }
}

impl Watcher {
    /// Nothing has been seen.
    pub fn new() -> (r: Self)
        ensures
            r.last is None,
            r.joined@ == Seq::<u32>::empty(),
            !r.warned,
    {
        Watcher { last: None, joined: Vec::new(), warned: false }
    }

    /// The interfaces could not be listed. That is reported once, before any
    /// list is known.
    pub fn list_failed(&mut self, cause: &str) -> (r: Option<String>)
        ensures
            r is Some <==> old(self).last is None,
            r matches Some(t) ==> t@ == "cannot enumerate interfaces: "@ + cause@,
            final(self).last is Some,
            old(self).last is Some ==> *final(self) == *old(self),
            old(self).last is None ==> final(self).last->0@ == Seq::<LinkInterface>::empty(),
            final(self).joined == old(self).joined,
            final(self).warned == old(self).warned,
    {
        if self.last.is_none() {
            self.last = Some(Vec::new());
            Some(text::cat2("cannot enumerate interfaces: ", cause))
        } else {
            None
        }
    }

    /// The interfaces as they are now; `alive` tells whether a responder runs.
    /// A change is reported, with a line for every link that came up or went
    /// down since the list before; the responder is bound anew if it does not
    /// run or has not joined just these interfaces.
    pub fn look(&mut self, list: &Vec<LinkInterface>, alive: bool) -> (r: WatchStep)
        ensures
            r.changed == list_differs(old(self).last, list@),
            platform::strings_view(r.log@) == match old(self).last {
                Some(prev) => if r.changed {
                    ups(link::views(prev@), link::views(list@)) + downs(
                        link::views(prev@),
                        link::views(list@),
                    )
                } else {
                    Seq::empty()
                },
                None => Seq::empty(),
            },
            final(self).last is Some,
            r.changed ==> final(self).last->0@ == list@,
            !r.changed ==> final(self).last == old(self).last,
            r.rebind == !(alive && is_index_set(old(self).joined@, link::views(list@))),
            final(self).joined == old(self).joined,
            final(self).warned == old(self).warned,
    {
        let mut log: Vec<String> = Vec::new();
        assert(platform::strings_view(log@) =~= Seq::<Seq<char>>::empty());
        let changed: bool = match &self.last {
            Some(p) => !link::same_links(p, list),
            None => true,
        };
        if changed {
            if let Some(p) = &self.last {
                log = link_changes(p, list);
            }
            self.last = Some(link::copy_links(list));
        }
        let want = join_indices(list);
        let same: bool = same_indices(&want, &self.joined);
        proof {
            if is_index_set(self.joined@, link::views(list@)) {
                index_set_is_unique(self.joined@, want@, link::views(list@));
            }
        }
        WatchStep { changed, log, rebind: !(alive && same) }
    }

    /// The responder is bound on the interfaces of `list`.
    pub fn bound(&mut self, list: &Vec<LinkInterface>)
        ensures
            is_index_set(final(self).joined@, link::views(list@)),
            final(self).last == old(self).last,
            final(self).warned == old(self).warned,
    {
        self.joined = join_indices(list);
    }

    /// The responder could not be bound. That is reported once.
    pub fn bind_failed(&mut self, cause: &str) -> (r: Option<String>)
        ensures
            r is Some <==> !old(self).warned,
            r matches Some(t) ==> t@ == "discovery disabled (cannot bind UDP "@ + text::dec(
                DISCOVERY_PORT as nat,
            ) + "): "@ + cause@ + "; guests must connect manually"@,
            final(self).warned,
            final(self).last == old(self).last,
            final(self).joined == old(self).joined,
    {
        if self.warned {
            return None;
        }
        self.warned = true;
        let mut s = text::cat3(
            "discovery disabled (cannot bind UDP ",
            text::decimal(DISCOVERY_PORT as u64).as_str(),
            "): ",
        );
        s.append(cause);
        s.append("; guests must connect manually");
        Some(s)
    }
}

fn same_indices(a: &Vec<u32>, b: &Vec<u32>) -> (r: bool)
    ensures
        r == (a@ == b@),
{
    if a.len() != b.len() {
        return false;
    }
    let mut i: usize = 0;
    while i < a.len()
        invariant
            a@.len() == b@.len(),
            i <= a@.len(),
            forall|k: int| 0 <= k < i ==> a@[k] == b@[k],
        decreases a@.len() - i,
    {
        if a[i] != b[i] {
            return false;
        }
        i = i + 1;
    }
    assert(a@ =~= b@);
    true
}

// What a host does.

/// The host goes by the machine's name where it has one.
pub proof fn a_host_goes_by_its_name(hostname: Option<String>)
    ensures
        hostname matches Some(h) && h@.len() > 0 ==> host_name_text(hostname) == hostname->0@,
        hostname is None || hostname->0@.len() == 0 ==> host_name_text(hostname) == "netm-host"@,
{
}

/// An address that was given is bound as it is, and the port of one that was
/// not gives way to a port that was.
pub proof fn a_given_address_is_bound(cfg: HostConfig)
    ensures
        cfg.spec_effective().spec_ip() == cfg.bind_addr.spec_ip(),
        cfg.bind_addr.spec_port() != DATA_PORT ==> cfg.spec_effective() == cfg.bind_addr,
        cfg.bind_addr.spec_port() == DATA_PORT ==> cfg.spec_effective().spec_port()
            == cfg.data_port,
        cfg.data_port == DATA_PORT ==> cfg.spec_effective() == cfg.bind_addr,
{
}

/// A connection is served exactly when no guest is being served; else it is
/// turned away with a `Bye`, and the log names both. A failure of the listener
/// is reported and followed by a pause, and only a shutdown stops it.
pub proof fn one_guest_is_served_at_a_time(l: AcceptLoop, ev: AcceptEvent, a: AcceptAction)
    requires
        accept_action(l, ev, a),
    ensures
        forall|peer: SocketAddr|
            a == AcceptAction::Serve(peer) <==> (ev matches AcceptEvent::Connection {
                peer: p,
                busy,
            } && p == peer && !(busy && l.current is Some)),
        a is Reject <==> (ev matches AcceptEvent::Connection { busy, .. } && busy && l.current
            is Some),
        a matches AcceptAction::Reject { reply, .. } ==> reply == Frame::Bye,
        a is BackOff <==> ev is Failed,
        a matches AcceptAction::BackOff { pause, .. } ==> pause == 200,
        a is Stop <==> ev == (AcceptEvent::Control { shutdown: true }),
        a is Continue <==> ev == (AcceptEvent::Control { shutdown: false }),
{
}

/// A slot that is taken is refused to everybody and left as it is.
pub proof fn a_taken_slot_is_refused(s: Shared, peer: Endpoint)
    ensures
        s.claimed(peer).1 <==> s.guest is None,
        s.guest is Some ==> s.claimed(peer).0 == s,
        s.guest is None ==> s.claimed(peer).0.guest == Some(peer),
        s.claimed(peer).0.active_flows == s.active_flows,
        s.claimed(peer).0.next_flow_id == s.next_flow_id,
        s.claimed(peer).0.tunnel == s.tunnel,
        s.released(peer).guest is None <==> (s.guest is None || guest_loop::same_endpoint(
            s.guest->0,
            peer,
        )),
        s.released(peer).guest is Some ==> s.released(peer) == s,
        s.released(peer).active_flows == s.active_flows,
        s.released(peer).next_flow_id == s.next_flow_id,
{
}

/// Link `i` of the list is ready now, and was not before.
pub open spec fn came_up(prev: Seq<LinkView>, list: Seq<LinkView>, i: int) -> bool {
    0 <= i < list.len() && list[i].ready() && !ready_in(prev, list[i].name)
}

/// The log tells of every link that came up, and of no other.
pub proof fn links_that_came_up_are_logged(prev: Seq<LinkView>, list: Seq<LinkView>)
    ensures
        forall|i: int| #[trigger]
            came_up(prev, list, i) ==> ups(prev, list).contains(up_text(list[i])),
        forall|t: Seq<char>| #[trigger]
            ups(prev, list).contains(t) ==> exists|i: int| #[trigger]
                came_up(prev, list, i) && t == up_text(list[i]),
    decreases list.len(),
{
    if list.len() > 0 {
        let front = list.drop_last();
        let before = ups(prev, front);
        let all = ups(prev, list);
        links_that_came_up_are_logged(prev, front);
        assert forall|i: int| #[trigger] came_up(prev, list, i) implies all.contains(
            up_text(list[i]),
        ) by {
            if i < front.len() {
                assert(front[i] == list[i]);
                assert(came_up(prev, front, i));
                let k = choose|k: int| 0 <= k < before.len() && before[k] == up_text(front[i]);
                assert(all[k] == before[k]);
            } else {
                assert(all[all.len() - 1] == up_text(list[i]));
            }
        }
        assert forall|t: Seq<char>| #[trigger] all.contains(t) implies exists|i: int| #[trigger]
            came_up(prev, list, i) && t == up_text(list[i]) by {
            let k = choose|k: int| 0 <= k < all.len() && all[k] == t;
            if k < before.len() {
                assert(all[k] == before[k]);
                assert(before.contains(t));
                let i = choose|i: int| #[trigger]
                    came_up(prev, front, i) && t == up_text(front[i]);
                assert(list[i] == front[i]);
                assert(came_up(prev, list, i));
            } else {
                let i = list.len() - 1;
                assert(list[i] == list.last());
                assert(came_up(prev, list, i));
            }
        }
    }
}

/// Link `i` of the list before was ready, and is not now.
pub open spec fn went_down(prev: Seq<LinkView>, list: Seq<LinkView>, i: int) -> bool {
    0 <= i < prev.len() && prev[i].ready() && !ready_in(list, prev[i].name)
}

/// The log tells of every link that went down, and of no other.
pub proof fn links_that_went_down_are_logged(prev: Seq<LinkView>, list: Seq<LinkView>)
    ensures
        forall|i: int| #[trigger]
            went_down(prev, list, i) ==> downs(prev, list).contains(down_text(prev[i])),
        forall|t: Seq<char>| #[trigger]
            downs(prev, list).contains(t) ==> exists|i: int| #[trigger]
                went_down(prev, list, i) && t == down_text(prev[i]),
    decreases prev.len(),
{
    if prev.len() > 0 {
        let front = prev.drop_last();
        let before = downs(front, list);
        let all = downs(prev, list);
        links_that_went_down_are_logged(front, list);
        assert forall|i: int| #[trigger] went_down(prev, list, i) implies all.contains(
            down_text(prev[i]),
        ) by {
            if i < front.len() {
                assert(front[i] == prev[i]);
                assert(went_down(front, list, i));
                let k = choose|k: int| 0 <= k < before.len() && before[k] == down_text(front[i]);
                assert(all[k] == before[k]);
            } else {
                assert(all[all.len() - 1] == down_text(prev[i]));
            }
        }
        assert forall|t: Seq<char>| #[trigger] all.contains(t) implies exists|i: int| #[trigger]
            went_down(prev, list, i) && t == down_text(prev[i]) by {
            let k = choose|k: int| 0 <= k < all.len() && all[k] == t;
            if k < before.len() {
                assert(all[k] == before[k]);
                assert(before.contains(t));
                let i = choose|i: int| #[trigger]
                    went_down(front, list, i) && t == down_text(front[i]);
                assert(prev[i] == front[i]);
                assert(went_down(prev, list, i));
            } else {
                let i = prev.len() - 1;
                assert(prev[i] == prev.last());
                assert(went_down(prev, list, i));
            }
        }
    }
}

/// Where nothing changed, nothing is logged.
pub proof fn a_list_that_stays_is_silent(list: Seq<LinkView>)
    ensures
        ups(list, list).len() == 0,
        downs(list, list).len() == 0,
{
    links_that_came_up_are_logged(list, list);
    links_that_went_down_are_logged(list, list);
    if ups(list, list).len() > 0 {
        assert(ups(list, list).contains(ups(list, list)[0]));
    }
    if downs(list, list).len() > 0 {
        assert(downs(list, list).contains(downs(list, list)[0]));
    }
}

/// The first list is news, and any other exactly when it shows something else.
pub proof fn what_is_news(last: Option<Vec<LinkInterface>>, list: Seq<LinkInterface>)
    ensures
        last is None ==> list_differs(last, list),
        last matches Some(p) ==> (list_differs(last, list) <==> link::views(p@) != link::views(
            list,
        )),
{
}

/// Addresses are listed in order, with commas between them.
pub proof fn addresses_are_listed(list: Seq<SocketAddr>, a: SocketAddr)
    ensures
        addrs_text(Seq::empty()).len() == 0,
        addrs_text(seq![a]) == a.spec_text(),
        list.len() > 0 ==> addrs_text(list.push(a)) == addrs_text(list) + ", "@ + a.spec_text(),
{
    assert(list.push(a).drop_last() =~= list);
}

/// A link is ready in a list exactly when a link of that name in it is up and
/// has an address.
pub proof fn readiness_goes_by_name(list: Seq<LinkView>, name: Seq<char>, i: int)
    ensures
        0 <= i < list.len() && list[i].name == name && list[i].is_up && list[i].link_local_v6
            is Some ==> ready_in(list, name),
        ready_in(list, name) ==> exists|k: int|
            0 <= k < list.len() && (#[trigger] list[k]).name == name && list[k].is_up
                && list[k].link_local_v6 is Some,
{
    if ready_in(list, name) {
        let k = choose|k: int|
            0 <= k < list.len() && (#[trigger] list[k]).name == name && list[k].ready();
        assert(list[k].name == name && list[k].is_up && list[k].link_local_v6 is Some);
    }
}

/// The group is joined on every interface that has an index, once.
pub proof fn every_interface_is_joined_once(want: Seq<u32>, list: Seq<LinkView>, i: int)
    requires
        is_index_set(want, list),
        0 <= i < list.len(),
    ensures
        list[i].index != 0 <==> want.contains(list[i].index),
        want.no_duplicates(),
        !want.contains(0),
{
}

/// The line of the listener names the address and the tunnel.
pub proof fn the_listener_is_named(addr: SocketAddr, tunnel: TunnelConfig)
    ensures
        text::holds(listening_text(addr, tunnel), addr.spec_text()),
        text::holds(listening_text(addr, tunnel), tunnel.guest_ip.spec_text()),
        text::holds(listening_text(addr, tunnel), tunnel.gateway_ip.spec_text()),
{
    let (a, b, c) = ("listening on "@, " (guest "@, " gateway "@);
    let (x, y, z) = (addr.spec_text(), tunnel.guest_ip.spec_text(), tunnel.gateway_ip.spec_text());
    let d = " mtu "@ + text::dec(tunnel.mtu as nat) + ")"@;
    let all = listening_text(addr, tunnel);
    assert(all =~= a + x + b + y + c + z + d);
    text::an_inner_text_is_held(a, x, b + y + c + z + d);
    assert(a + x + (b + y + c + z + d) =~= all);
    text::an_inner_text_is_held(a + x + b, y, c + z + d);
    assert(a + x + b + y + (c + z + d) =~= all);
    text::an_inner_text_is_held(a + x + b + y + c, z, d);
}

/// What is logged of a link names it, and its address where it is up; and who is
/// turned away is named with who is being served.
pub proof fn log_lines_name_the_link(l: LinkView, peer: SocketAddr, active: SocketAddr)
    ensures
        text::holds(up_text(l), l.name),
        l.link_local_v6 matches Some(a) ==> text::holds(up_text(l), crate::net::ipv6_text(a)),
        down_text(l) == "link "@ + l.name + " is down"@,
        text::holds(turned_away_text(peer, active), peer.spec_text()),
        text::holds(turned_away_text(peer, active), active.spec_text()),
{
    let all = up_text(l);
    assert(all.take(all.len() as int) =~= all);
    let t = match l.link_local_v6 {
        Some(a) => crate::net::ipv6_text(a),
        None => Seq::empty(),
    };
    let a = "link "@ + l.name;
    text::a_front_is_a_prefix(a + " is up ("@ + t, ")"@, all);
    text::what_a_prefix_ends_with_is_held(a + " is up ("@, t, all);
    text::a_front_is_a_prefix(a + " is up ("@, t, all);
    text::a_front_is_a_prefix(a, " is up ("@, all);
    text::what_a_prefix_ends_with_is_held("link "@, l.name, all);
    let away = turned_away_text(peer, active);
    assert(away.take(away.len() as int) =~= away);
    let b = "rejecting guest "@;
    let b1 = b + peer.spec_text() + ": "@;
    text::a_front_is_a_prefix(b1 + active.spec_text(), " is already connected"@, away);
    text::what_a_prefix_ends_with_is_held(b1, active.spec_text(), away);
    text::a_front_is_a_prefix(b1, active.spec_text(), away);
    text::a_front_is_a_prefix(b + peer.spec_text(), ": "@, away);
    text::what_a_prefix_ends_with_is_held(b, peer.spec_text(), away);
}

} // verus!
