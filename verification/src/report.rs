//! The events of the running core, and the log lines that they become in both
//! the TUI log panel and headless mode.

use crate::frame::TunnelConfig;
use crate::guest::{GuestEvent, GuestState};
use crate::host::{FlowInfo, HostEvent, Proto};
use crate::link::{self, LinkInterface, LinkView};
use crate::net::Endpoint;
use crate::stats::{Counters, Rate};
use crate::text;
use vstd::prelude::*;
use vstd::string::StringExecFns;

verus! {

/// Event from either core.
#[derive(Clone, Debug)]
pub enum Event {
    Host(HostEvent),
    Guest(GuestEvent),
}

/// Severity of a log line.
#[derive(Clone, Copy, Debug, PartialEq, Eq, Structural)]
pub enum Level {
    Info,
    Warn,
    Error,
}

/// A line and its severity, if there is one.
pub open spec fn line_view(r: Option<(Level, String)>) -> Option<(Level, Seq<char>)> {
    match r {
        Some((level, msg)) => Some((level, msg@)),
        None => None,
    }
}

/// Some interface is ready.
pub open spec fn any_ready(list: Seq<LinkView>) -> bool {
    exists|i: int| 0 <= i < list.len() && (#[trigger] list[i]).ready()
}

/// The names of the ready interfaces with commas between them.
pub open spec fn ready_names(list: Seq<LinkView>) -> Seq<char>
    decreases list.len(),
{
    if list.len() == 0 {
        Seq::empty()
    } else if !list.last().ready() {
        ready_names(list.drop_last())
    } else if any_ready(list.drop_last()) {
        ready_names(list.drop_last()) + ", "@ + list.last().name
    } else {
        list.last().name
    }
}

fn ready_list(list: &Vec<LinkInterface>) -> (r: Option<String>)
    ensures
        r is Some <==> any_ready(link::views(list@)),
        r matches Some(s) ==> s@ == ready_names(link::views(list@)),
{
    let ghost all = link::views(list@);
    let mut out = String::new();
    let mut some: bool = false;
    let mut i: usize = 0;
    assert(all.take(0) =~= Seq::<LinkView>::empty());
    while i < list.len()
        invariant
            all == link::views(list@),
            i <= list@.len(),
            some == any_ready(all.take(i as int)),
            out@ == ready_names(all.take(i as int)),
            !some ==> out@.len() == 0,
        decreases list@.len() - i,
    {
        let ghost now = all.take(i + 1);
        let ghost before = out@;
        proof {
            assert(now.drop_last() =~= all.take(i as int));
            assert(now.last() == list@[i as int]@);
            assert forall|k: int| 0 <= k < i implies now[k] == all.take(i as int)[k] by {}
            if any_ready(now) && !any_ready(all.take(i as int)) {
                let k = choose|k: int| 0 <= k < now.len() && (#[trigger] now[k]).ready();
                if k < i {
                    assert(all.take(i as int)[k].ready());
                }
            }
            if any_ready(all.take(i as int)) {
                let k = choose|k: int|
                    0 <= k < i && (#[trigger] all.take(i as int)[k]).ready();
                assert(now[k].ready());
            }
        }
        if list[i].is_ready() {
            if some {
                out.append(", ");
            }
            out.append(list[i].name.as_str());
            proof {
                assert(now[i as int].ready());
                if !some {
                    assert(out@ =~= now.last().name);
                }
            }
            some = true;
        }
        i = i + 1;
    }
    assert(all.take(i as int) =~= all);
    if some {
        Some(out)
    } else {
        None
    }
}

// Host.

/// The line for a list of interfaces on a host.
pub open spec fn host_links_text(list: Seq<LinkView>) -> Seq<char> {
    if any_ready(list) {
        "已连线链路："@ + ready_names(list)
    } else {
        "候选网卡 "@ + text::dec(list.len()) + " 个，尚无已连线的链路"@
    }
}

/// The line for an event of the host.
pub open spec fn host_line(ev: HostEvent) -> Option<(Level, Seq<char>)> {
    match ev {
        HostEvent::Listening { addr } => Some((Level::Info, "开始监听 "@ + addr.spec_text())),
        HostEvent::Interfaces(list) => Some((Level::Info, host_links_text(link::views(list@)))),
        HostEvent::GuestConnected(g) => Some(
            (
                Level::Info,
                "客机 "@ + g.name@ + " 已连接（"@ + g.peer.spec_text() + "），分配 "@
                    + g.assigned_ip.spec_text(),
            ),
        ),
        HostEvent::GuestDisconnected { peer, reason } => Some(
            (Level::Warn, "客机 "@ + peer.spec_text() + " 已断开："@ + reason@),
        ),
        HostEvent::Log(m) => Some((Level::Info, m@)),
        HostEvent::Error(m) => Some((Level::Error, m@)),
        _ => None,
    }
}

fn describe_host(ev: &HostEvent) -> (r: Option<(Level, String)>)
    ensures
        line_view(r) == host_line(*ev),
{
    match ev {
        HostEvent::Listening { addr } => Some(
            (Level::Info, text::cat2("开始监听 ", addr.text().as_str())),
        ),
        HostEvent::Interfaces(list) => match ready_list(list) {
            Some(names) => Some((Level::Info, text::cat2("已连线链路：", names.as_str()))),
            None => Some(
                (
                    Level::Info,
                    text::cat3(
                        "候选网卡 ",
                        text::decimal(list.len() as u64).as_str(),
                        " 个，尚无已连线的链路",
                    ),
                ),
            ),
        },
        HostEvent::GuestConnected(g) => {
            let mut s = text::cat3("客机 ", g.name.as_str(), " 已连接（");
            s.append(g.peer.text().as_str());
            s.append("），分配 ");
            s.append(g.assigned_ip.text().as_str());
            Some((Level::Info, s))
        },
        HostEvent::GuestDisconnected { peer, reason } => {
            let mut s = text::cat3("客机 ", peer.text().as_str(), " 已断开：");
            s.append(reason.as_str());
            Some((Level::Warn, s))
        },
        HostEvent::Log(m) => Some((Level::Info, m.clone())),
        HostEvent::Error(m) => Some((Level::Error, m.clone())),
        _ => None,
    }
}

// Guest.

/// The line for a list of interfaces on a guest.
pub open spec fn guest_links_text(list: Seq<LinkView>) -> Seq<char> {
    if any_ready(list) {
        "检测到线缆："@ + ready_names(list)
    } else {
        "候选网卡 "@ + text::dec(list.len()) + " 个，尚未检测到线缆"@
    }
}

/// What a tunnel that is up is like.
pub open spec fn connected_text(
    host: Endpoint,
    host_name: Seq<char>,
    tun: Seq<char>,
    config: TunnelConfig,
) -> Seq<char> {
    "已连接宿主机 "@ + host_name + "（"@ + host.spec_text() + "），"@ + tun + " "@
        + config.guest_ip.spec_text() + "/"@ + text::dec(config.prefix_len as nat) + " 网关 "@
        + config.gateway_ip.spec_text() + " DNS "@ + config.dns.spec_text() + " MTU "@ + text::dec(
        config.mtu as nat,
    )
}

/// The line for a state of the guest.
pub open spec fn state_line(s: GuestState) -> (Level, Seq<char>) {
    match s {
        GuestState::WaitingForLink => (Level::Info, "等待 Type-C 连接"@),
        GuestState::Discovering { iface } => (Level::Info, "在 "@ + iface@ + " 上发现宿主机中"@),
        GuestState::Connecting { host } => (Level::Info, "正在连接 "@ + host.spec_text()),
        GuestState::Connected { host, host_name, tun, config, since } => (
            Level::Info,
            connected_text(host, host_name@, tun@, config),
        ),
        GuestState::Disconnected { reason } => (Level::Warn, "已断开："@ + reason@),
    }
}

/// The line for an event of the guest.
pub open spec fn guest_line(ev: GuestEvent) -> Option<(Level, Seq<char>)> {
    match ev {
        GuestEvent::StateChanged(s) => Some(state_line(s)),
        GuestEvent::Interfaces(list) => Some((Level::Info, guest_links_text(link::views(list@)))),
        GuestEvent::Log(m) => Some((Level::Info, m@)),
        GuestEvent::Error(m) => Some((Level::Error, m@)),
        _ => None,
    }
}

fn describe_state(s: &GuestState) -> (r: (Level, String))
    ensures
        r.0 == state_line(*s).0,
        r.1@ == state_line(*s).1,
{
    match s {
        GuestState::WaitingForLink => (Level::Info, "等待 Type-C 连接".to_owned()),
        GuestState::Discovering { iface } => (
            Level::Info,
            text::cat3("在 ", iface.as_str(), " 上发现宿主机中"),
        ),
        GuestState::Connecting { host } => (
            Level::Info,
            text::cat2("正在连接 ", host.text().as_str()),
        ),
        GuestState::Connected { host, host_name, tun, config, since: _ } => {
            let mut t = text::cat3("已连接宿主机 ", host_name.as_str(), "（");
            t.append(host.text().as_str());
            t.append("），");
            t.append(tun.as_str());
            t.append(" ");
            t.append(config.guest_ip.text().as_str());
            t.append("/");
            t.append(text::decimal(config.prefix_len as u64).as_str());
            t.append(" 网关 ");
            t.append(config.gateway_ip.text().as_str());
            t.append(" DNS ");
            t.append(config.dns.text().as_str());
            t.append(" MTU ");
            t.append(text::decimal(config.mtu as u64).as_str());
            (Level::Info, t)
        },
        GuestState::Disconnected { reason } => (
            Level::Warn,
            text::cat2("已断开：", reason.as_str()),
        ),
    }
}

fn describe_guest(ev: &GuestEvent) -> (r: Option<(Level, String)>)
    ensures
        line_view(r) == guest_line(*ev),
{
    match ev {
        GuestEvent::StateChanged(s) => Some(describe_state(s)),
        GuestEvent::Interfaces(list) => match ready_list(list) {
            Some(names) => Some((Level::Info, text::cat2("检测到线缆：", names.as_str()))),
            None => Some(
                (
                    Level::Info,
                    text::cat3(
                        "候选网卡 ",
                        text::decimal(list.len() as u64).as_str(),
                        " 个，尚未检测到线缆",
                    ),
                ),
            ),
        },
        GuestEvent::Log(m) => Some((Level::Info, m.clone())),
        GuestEvent::Error(m) => Some((Level::Error, m.clone())),
        _ => None,
    }
}

/// The line for an event.
pub open spec fn event_line(ev: Event) -> Option<(Level, Seq<char>)> {
    match ev {
        Event::Host(h) => host_line(h),
        Event::Guest(g) => guest_line(g),
    }
}

/// The log line for an event, in Chinese (if it is worth logging).
/// `Stats` yield `None`.
pub fn describe(ev: &Event) -> (r: Option<(Level, String)>)
    ensures
        line_view(r) == event_line(*ev),
{
    match ev {
        Event::Host(h) => describe_host(h),
        Event::Guest(g) => describe_guest(g),
    }
}

// Headless logging.

/// Pause between two lines about the traffic, in milliseconds.
pub const STATS_PAUSE_MS: u64 = 2000;

/// A line for the log of headless mode.
#[derive(Debug)]
pub enum Note {
    Line(Level, String),
    /// Only shown when debugging.
    Debug(String),
    /// Rates in bit/s, then the text behind them.
    Rates { tx_bps: Rate, rx_bps: Rate, rest: String },
}

/// Such a line with its text as characters.
pub enum NoteView {
    Line(Level, Seq<char>),
    Debug(Seq<char>),
    Rates { tx_bps: Rate, rx_bps: Rate, rest: Seq<char> },
}

impl View for Note {
    type V = NoteView;

    open spec fn view(&self) -> NoteView {
        match *self {
            Note::Line(level, msg) => NoteView::Line(level, msg@),
            Note::Debug(msg) => NoteView::Debug(msg@),
            Note::Rates { tx_bps, rx_bps, rest } => NoteView::Rates { tx_bps, rx_bps, rest: rest@ },
        }
    }
}

/// Such a line, if there is one.
pub open spec fn note_view(r: Option<Note>) -> Option<NoteView> {
    match r {
        Some(n) => Some(n@),
        None => None,
    }
}

/// Headless logging of events. Stats are summarised at most every two seconds
/// and only when traffic flows.
#[derive(Clone, Copy, Debug)]
pub struct HeadlessLogger {
    /// When stats were last shown, in milliseconds on the caller's clock.
    pub last_stats: Option<u64>,
}

impl Default for HeadlessLogger {
    fn default() -> (r: Self)
        ensures
            r.last_stats is None,
    {
        HeadlessLogger { last_stats: None }
    }
}

/// Name of a protocol.
pub open spec fn proto_name(p: Proto) -> Seq<char> {
    match p {
        Proto::Tcp => "Tcp"@,
        Proto::Udp => "Udp"@,
    }
}

/// The line for a flow that was opened.
pub open spec fn opened_text(f: FlowInfo) -> Seq<char> {
    "流 #"@ + text::dec(f.id as nat) + " "@ + proto_name(f.proto) + " "@ + f.src.spec_text()
        + " -> "@ + f.dst.spec_text() + " 打开"@
}

/// The line for a flow that was closed.
pub open spec fn closed_text(id: u64, tx_bytes: u64, rx_bytes: u64) -> Seq<char> {
    "流 #"@ + text::dec(id as nat) + " 关闭 tx "@ + text::dec(tx_bytes as nat) + " B rx "@
        + text::dec(rx_bytes as nat) + " B"@
}

/// The totals behind the rates.
pub open spec fn totals_text(c: Counters, active_flows: Option<nat>) -> Seq<char> {
    let totals = "（累计 tx "@ + text::dec(c.tx_bytes as nat) + " B / rx "@ + text::dec(
        c.rx_bytes as nat,
    ) + " B）"@;
    match active_flows {
        Some(n) => totals + " 活跃流 "@ + text::dec(n),
        None => totals,
    }
}

impl HeadlessLogger {
    /// Stats are due: there is traffic, and the last ones are old enough.
    pub open spec fn due(self, tx_bps: Rate, rx_bps: Rate, now: u64) -> bool {
        &&& tx_bps.bytes > 0 || rx_bps.bytes > 0
        &&& self.last_stats matches Some(t) ==> now - t >= STATS_PAUSE_MS
    }

    /// The logger after stats.
    pub open spec fn after_stats(self, tx_bps: Rate, rx_bps: Rate, now: u64) -> HeadlessLogger {
        if self.due(tx_bps, rx_bps, now) {
            HeadlessLogger { last_stats: Some(now) }
        } else {
            self
        }
    }

    /// The logger after an event, and the line for the event. What the cores
    /// log themselves is not repeated.
    pub open spec fn spec_log(self, ev: Event, now: u64) -> (HeadlessLogger, Option<NoteView>) {
        match ev {
            Event::Host(HostEvent::Log(_)) | Event::Host(HostEvent::Error(_))
            | Event::Guest(GuestEvent::Log(_)) | Event::Guest(GuestEvent::Error(_)) => (self, None),
            Event::Host(HostEvent::Stats { counters, tx_bps, rx_bps, active_flows }) => (
                self.after_stats(tx_bps, rx_bps, now),
                if self.due(tx_bps, rx_bps, now) {
                    Some(
                        NoteView::Rates {
                            tx_bps,
                            rx_bps,
                            rest: totals_text(counters, Some(active_flows as nat)),
                        },
                    )
                } else {
                    None
                },
            ),
            Event::Guest(GuestEvent::Stats { counters, tx_bps, rx_bps }) => (
                self.after_stats(tx_bps, rx_bps, now),
                if self.due(tx_bps, rx_bps, now) {
                    Some(NoteView::Rates { tx_bps, rx_bps, rest: totals_text(counters, None) })
                } else {
                    None
                },
            ),
            Event::Host(HostEvent::FlowOpened(f)) => (self, Some(NoteView::Debug(opened_text(f)))),
            Event::Host(HostEvent::FlowClosed { id, tx_bytes, rx_bytes }) => (
                self,
                Some(NoteView::Debug(closed_text(id, tx_bytes, rx_bytes))),
            ),
            _ => (
                self,
                match event_line(ev) {
                    Some((level, msg)) => Some(NoteView::Line(level, msg)),
                    None => None,
                },
            ),
        }
    }

    /// Headless logging of an event at the time `now`, in milliseconds.
    pub fn log(&mut self, ev: &Event, now: u64) -> (r: Option<Note>)
        ensures
            *final(self) == old(self).spec_log(*ev, now).0,
            note_view(r) == old(self).spec_log(*ev, now).1,
    {
        match ev {
            Event::Host(HostEvent::Log(_)) | Event::Host(HostEvent::Error(_))
            | Event::Guest(GuestEvent::Log(_)) | Event::Guest(GuestEvent::Error(_)) => None,
            Event::Host(HostEvent::Stats { counters, tx_bps, rx_bps, active_flows }) => {
                if !self.show_stats(*tx_bps, *rx_bps, now) {
                    return None;
                }
                let mut rest = totals(counters);
                rest.append(" 活跃流 ");
                rest.append(text::decimal(*active_flows as u64).as_str());
                Some(Note::Rates { tx_bps: *tx_bps, rx_bps: *rx_bps, rest })
            },
            Event::Guest(GuestEvent::Stats { counters, tx_bps, rx_bps }) => {
                if !self.show_stats(*tx_bps, *rx_bps, now) {
                    return None;
                }
                Some(Note::Rates { tx_bps: *tx_bps, rx_bps: *rx_bps, rest: totals(counters) })
            },
            Event::Host(HostEvent::FlowOpened(f)) => Some(Note::Debug(opened(f))),
            Event::Host(HostEvent::FlowClosed { id, tx_bytes, rx_bytes }) => Some(
                Note::Debug(closed(*id, *tx_bytes, *rx_bytes)),
            ),
            _ => match describe(ev) {
                Some((level, msg)) => Some(Note::Line(level, msg)),
                None => None,
            },
        }
    }

    fn show_stats(&mut self, tx_bps: Rate, rx_bps: Rate, now: u64) -> (r: bool)
        ensures
            r == old(self).due(tx_bps, rx_bps, now),
            *final(self) == old(self).after_stats(tx_bps, rx_bps, now),
    {
        let old_enough: bool = match self.last_stats {
            Some(t) => now >= t && now - t >= STATS_PAUSE_MS,
            None => true,
        };
        if old_enough && (tx_bps.bytes > 0 || rx_bps.bytes > 0) {
            self.last_stats = Some(now);
            true
        } else {
            false
        }
    }
}

fn totals(c: &Counters) -> (r: String)
    ensures
        r@ == totals_text(*c, None),
{
    let mut s = text::cat3("（累计 tx ", text::decimal(c.tx_bytes).as_str(), " B / rx ");
    s.append(text::decimal(c.rx_bytes).as_str());
    s.append(" B）");
    s
}

fn opened(f: &FlowInfo) -> (r: String)
    ensures
        r@ == opened_text(*f),
{
    let mut s = text::cat3("流 #", text::decimal(f.id).as_str(), " ");
    match f.proto {
        Proto::Tcp => s.append("Tcp"),
        Proto::Udp => s.append("Udp"),
    }
    s.append(" ");
    s.append(f.src.text().as_str());
    s.append(" -> ");
    s.append(f.dst.text().as_str());
    s.append(" 打开");
    s
}

fn closed(id: u64, tx_bytes: u64, rx_bytes: u64) -> (r: String)
    ensures
        r@ == closed_text(id, tx_bytes, rx_bytes),
{
    let mut s = text::cat3("流 #", text::decimal(id).as_str(), " 关闭 tx ");
    s.append(text::decimal(tx_bytes).as_str());
    s.append(" B rx ");
    s.append(text::decimal(rx_bytes).as_str());
    s.append(" B");
    s
}

/// Lines about the traffic are two seconds apart: once stats were shown, none
/// are shown before the pause is over.
pub proof fn stats_are_spaced(logger: HeadlessLogger, first: Event, second: Event, at: u64, then: u64)
    requires
        logger.spec_log(first, at).1 is Some,
        logger.spec_log(first, at).1->0 is Rates,
        then < at + STATS_PAUSE_MS,
    ensures
        !(logger.spec_log(first, at).0.spec_log(second, then).1 matches Some(n) && n is Rates),
{
}

/// Without traffic no stats are shown.
pub proof fn silence_is_not_reported(logger: HeadlessLogger, ev: Event, now: u64)
    ensures
        logger.spec_log(ev, now).1 matches Some(NoteView::Rates { tx_bps, rx_bps, .. }) ==> tx_bps.bytes
            > 0 || rx_bps.bytes > 0,
{
}

// What is told.

/// The host tells of listening, of its links, of a guest that comes and goes,
/// and what it logs; a guest that goes is a warning, and errors are errors.
pub proof fn what_a_host_tells(ev: HostEvent)
    ensures
        host_line(ev) is Some <==> ev is Listening || ev is Interfaces || ev is GuestConnected
            || ev is GuestDisconnected || ev is Log || ev is Error,
        host_line(ev) matches Some((level, _)) ==> {
            &&& level == Level::Error <==> ev is Error
            &&& level == Level::Warn <==> ev is GuestDisconnected
        },
        ev matches HostEvent::Log(m) ==> host_line(ev) == Some((Level::Info, m@)),
        ev matches HostEvent::Error(m) ==> host_line(ev) == Some((Level::Error, m@)),
        ev matches HostEvent::Listening { addr } ==> (host_line(ev) matches Some((_, t))
            && text::holds(t, addr.spec_text())),
        ev matches HostEvent::GuestConnected(g) ==> (host_line(ev) matches Some((_, t)) && {
            &&& text::holds(t, g.name@)
            &&& text::holds(t, g.peer.spec_text())
            &&& text::holds(t, g.assigned_ip.spec_text())
        }),
        ev matches HostEvent::GuestDisconnected { peer, reason } ==> (host_line(ev) matches Some(
            (_, t),
        ) && text::holds(t, peer.spec_text()) && text::holds(t, reason@)),
{
    let none = Seq::<char>::empty();
    match ev {
        HostEvent::Listening { addr } => {
            let t = addr.spec_text();
            text::an_inner_text_is_held("开始监听 "@, t, none);
            assert("开始监听 "@ + t + none =~= "开始监听 "@ + t);
        },
        HostEvent::GuestConnected(g) => {
            let (a, b, c) = ("客机 "@, " 已连接（"@, "），分配 "@);
            let (name, peer, ip) = (g.name@, g.peer.spec_text(), g.assigned_ip.spec_text());
            let all = a + name + b + peer + c + ip;
            text::an_inner_text_is_held(a, name, b + peer + c + ip);
            assert(a + name + (b + peer + c + ip) =~= all);
            text::an_inner_text_is_held(a + name + b, peer, c + ip);
            assert(a + name + b + peer + (c + ip) =~= all);
            text::an_inner_text_is_held(a + name + b + peer + c, ip, none);
            assert(all + none =~= all);
        },
        HostEvent::GuestDisconnected { peer, reason } => {
            let (a, b) = ("客机 "@, " 已断开："@);
            let (p, r) = (peer.spec_text(), reason@);
            let all = a + p + b + r;
            text::an_inner_text_is_held(a, p, b + r);
            assert(a + p + (b + r) =~= all);
            text::an_inner_text_is_held(a + p + b, r, none);
            assert(all + none =~= all);
        },
        _ => {},
    }
}

/// The guest tells of every state, of its links, and what it logs; a lost
/// connection is a warning, and errors are errors.
pub proof fn what_a_guest_tells(ev: GuestEvent)
    ensures
        guest_line(ev) is Some <==> ev is StateChanged || ev is Interfaces || ev is Log
            || ev is Error,
        guest_line(ev) matches Some((level, _)) ==> {
            &&& level == Level::Error <==> ev is Error
            &&& level == Level::Warn <==> (ev matches GuestEvent::StateChanged(s)
                && s is Disconnected)
        },
        ev matches GuestEvent::Log(m) ==> guest_line(ev) == Some((Level::Info, m@)),
        ev matches GuestEvent::Error(m) ==> guest_line(ev) == Some((Level::Error, m@)),
        ev matches GuestEvent::StateChanged(s) ==> guest_line(ev) == Some(state_line(s)),
{
}

/// A state names what it is about: the interface, the host, the tunnel, or the
/// reason.
pub proof fn what_a_state_tells(s: GuestState)
    ensures
        s matches GuestState::Discovering { iface } ==> text::holds(state_line(s).1, iface@),
        s matches GuestState::Connecting { host } ==> text::holds(
            state_line(s).1,
            host.spec_text(),
        ),
        s matches GuestState::Disconnected { reason } ==> text::holds(state_line(s).1, reason@),
        s matches GuestState::Connected { host, host_name, tun, config, .. } ==> {
            &&& text::holds(state_line(s).1, host_name@)
            &&& text::holds(state_line(s).1, host.spec_text())
            &&& text::holds(state_line(s).1, tun@)
            &&& text::holds(state_line(s).1, config.guest_ip.spec_text())
            &&& text::holds(state_line(s).1, config.gateway_ip.spec_text())
            &&& text::holds(state_line(s).1, config.dns.spec_text())
            &&& text::holds(state_line(s).1, text::dec(config.mtu as nat))
        },
{
    let none = Seq::<char>::empty();
    match s {
        GuestState::Discovering { iface } => {
            text::an_inner_text_is_held("在 "@, iface@, " 上发现宿主机中"@);
        },
        GuestState::Connecting { host } => {
            let t = host.spec_text();
            text::an_inner_text_is_held("正在连接 "@, t, none);
            assert("正在连接 "@ + t + none =~= "正在连接 "@ + t);
        },
        GuestState::Disconnected { reason } => {
            text::an_inner_text_is_held("已断开："@, reason@, none);
            assert("已断开："@ + reason@ + none =~= "已断开："@ + reason@);
        },
        GuestState::Connected { host, host_name, tun, config, .. } => {
            let a = "已连接宿主机 "@;
            let a1 = a + host_name@ + "（"@;
            let a2 = a1 + host.spec_text() + "），"@;
            let a3 = a2 + tun@ + " "@;
            let a4 = a3 + config.guest_ip.spec_text() + "/"@ + text::dec(config.prefix_len as nat)
                + " 网关 "@;
            let a5 = a4 + config.gateway_ip.spec_text() + " DNS "@;
            let a6 = a5 + config.dns.spec_text() + " MTU "@;
            let mtu = text::dec(config.mtu as nat);
            let all = a6 + mtu;
            assert(all == state_line(s).1);
            assert(all.is_prefix_of(all)) by {
                assert(all.take(all.len() as int) =~= all);
            }
            let m = config.dns.spec_text();
            text::a_front_is_a_prefix(a6, mtu, all);
            text::a_front_is_a_prefix(a5 + m, " MTU "@, all);
            text::a_front_is_a_prefix(a5, m, all);
            let g = config.gateway_ip.spec_text();
            text::a_front_is_a_prefix(a4 + g, " DNS "@, all);
            text::a_front_is_a_prefix(a4, g, all);
            let i = config.guest_ip.spec_text();
            let p = text::dec(config.prefix_len as nat);
            text::a_front_is_a_prefix(a3 + i + "/"@ + p, " 网关 "@, all);
            text::a_front_is_a_prefix(a3 + i + "/"@, p, all);
            text::a_front_is_a_prefix(a3 + i, "/"@, all);
            text::a_front_is_a_prefix(a3, i, all);
            text::a_front_is_a_prefix(a2 + tun@, " "@, all);
            text::a_front_is_a_prefix(a2, tun@, all);
            let h = host.spec_text();
            text::a_front_is_a_prefix(a1 + h, "），"@, all);
            text::a_front_is_a_prefix(a1, h, all);
            text::a_front_is_a_prefix(a + host_name@, "（"@, all);
            text::what_a_prefix_ends_with_is_held(a, host_name@, all);
            text::what_a_prefix_ends_with_is_held(a1, h, all);
            text::what_a_prefix_ends_with_is_held(a2, tun@, all);
            text::what_a_prefix_ends_with_is_held(a3, i, all);
            text::what_a_prefix_ends_with_is_held(a4, g, all);
            text::what_a_prefix_ends_with_is_held(a5, m, all);
            text::what_a_prefix_ends_with_is_held(a6, mtu, all);
        },
        _ => {},
    }
}

/// The ready links are told by name, in order; where there is none it is told
/// how many there are.
pub proof fn ready_links_are_named(list: Seq<LinkView>, l: LinkView)
    ensures
        any_ready(list.push(l)) <==> any_ready(list) || l.ready(),
        !l.ready() ==> ready_names(list.push(l)) == ready_names(list),
        l.ready() && !any_ready(list) ==> ready_names(list.push(l)) == l.name,
        l.ready() && any_ready(list) ==> ready_names(list.push(l)) == ready_names(list) + ", "@
            + l.name,
        any_ready(list) ==> text::holds(host_links_text(list), ready_names(list)) && text::holds(
            guest_links_text(list),
            ready_names(list),
        ),
        !any_ready(list) ==> text::holds(host_links_text(list), text::dec(list.len()))
            && text::holds(guest_links_text(list), text::dec(list.len())),
{
    let more = list.push(l);
    assert(more.drop_last() =~= list);
    if any_ready(list) {
        let i = choose|i: int| 0 <= i < list.len() && (#[trigger] list[i]).ready();
        assert(more[i] == list[i]);
    }
    if l.ready() {
        assert(more[list.len() as int] == l);
    }
    if any_ready(more) {
        let i = choose|i: int| 0 <= i < more.len() && (#[trigger] more[i]).ready();
        if i < list.len() {
            assert(list[i] == more[i]);
        }
    }
    let none = Seq::<char>::empty();
    let names = ready_names(list);
    text::an_inner_text_is_held("已连线链路："@, names, none);
    assert("已连线链路："@ + names + none =~= "已连线链路："@ + names);
    text::an_inner_text_is_held("检测到线缆："@, names, none);
    assert("检测到线缆："@ + names + none =~= "检测到线缆："@ + names);
    let n = text::dec(list.len());
    text::an_inner_text_is_held("候选网卡 "@, n, " 个，尚无已连线的链路"@);
    text::an_inner_text_is_held("候选网卡 "@, n, " 个，尚未检测到线缆"@);
}

/// Without a screen, lines that were logged already are not repeated, flows are
/// told only for debugging, the rates are told when they are due, and
/// everything else as on a screen.
pub proof fn what_is_told_without_a_screen(logger: HeadlessLogger, ev: Event, now: u64)
    ensures
        ({
            let r = logger.spec_log(ev, now).1;
            let logged = (ev matches Event::Host(h) && (h is Log || h is Error)) || (
            ev matches Event::Guest(g) && (g is Log || g is Error));
            let flow = ev matches Event::Host(h) && (h is FlowOpened || h is FlowClosed);
            let stats = (ev matches Event::Host(h) && h is Stats) || (ev matches Event::Guest(g)
                && g is Stats);
            &&& logged ==> r is None
            &&& flow <==> (r matches Some(n) && n is Debug)
            &&& (r matches Some(n) && n is Rates) ==> stats
            &&& !logged && !flow && !stats ==> r == (match event_line(ev) {
                Some((level, msg)) => Some(NoteView::Line(level, msg)),
                None => None,
            })
            &&& !stats ==> logger.spec_log(ev, now).0 == logger
        }),
{
}

/// The rates are told exactly when there was traffic and they were not told in
/// the last two seconds.
pub proof fn rates_are_told_when_due(
    logger: HeadlessLogger,
    counters: Counters,
    tx_bps: Rate,
    rx_bps: Rate,
    active_flows: usize,
    now: u64,
)
    ensures
        ({
            let traffic = tx_bps.bytes > 0 || rx_bps.bytes > 0;
            let rested = logger.last_stats matches Some(t) ==> now >= t + 2000;
            let h = Event::Host(HostEvent::Stats { counters, tx_bps, rx_bps, active_flows });
            let g = Event::Guest(GuestEvent::Stats { counters, tx_bps, rx_bps });
            &&& logger.spec_log(h, now).1 is Some <==> traffic && rested
            &&& logger.spec_log(g, now).1 is Some <==> traffic && rested
            &&& traffic && rested ==> {
                &&& logger.spec_log(h, now).0.last_stats == Some(now)
                &&& logger.spec_log(g, now).0.last_stats == Some(now)
                &&& logger.spec_log(h, now).1 matches Some(NoteView::Rates {
                    tx_bps: t,
                    rx_bps: r,
                    ..
                }) && t == tx_bps && r == rx_bps
                &&& logger.spec_log(g, now).1 matches Some(NoteView::Rates {
                    tx_bps: t,
                    rx_bps: r,
                    ..
                }) && t == tx_bps && r == rx_bps
            }
        }),
{
}

/// What is told of a flow names it, its ends and its bytes.
pub proof fn flows_are_told(f: FlowInfo, id: u64, tx_bytes: u64, rx_bytes: u64)
    ensures
        text::holds(opened_text(f), text::dec(f.id as nat)),
        text::holds(opened_text(f), f.src.spec_text()),
        text::holds(opened_text(f), f.dst.spec_text()),
        text::holds(closed_text(id, tx_bytes, rx_bytes), text::dec(id as nat)),
        text::holds(closed_text(id, tx_bytes, rx_bytes), text::dec(tx_bytes as nat)),
        text::holds(closed_text(id, tx_bytes, rx_bytes), text::dec(rx_bytes as nat)),
{
    let a = "流 #"@;
    let a1 = a + text::dec(f.id as nat) + " "@;
    let a2 = a1 + proto_name(f.proto) + " "@;
    let a3 = a2 + f.src.spec_text() + " -> "@;
    let all = opened_text(f);
    assert(all == a3 + f.dst.spec_text() + " 打开"@);
    assert(all.take(all.len() as int) =~= all);
    let (i, src, dst) = (text::dec(f.id as nat), f.src.spec_text(), f.dst.spec_text());
    text::a_front_is_a_prefix(a3 + dst, " 打开"@, all);
    text::a_front_is_a_prefix(a3, dst, all);
    text::a_front_is_a_prefix(a2 + src, " -> "@, all);
    text::a_front_is_a_prefix(a2, src, all);
    text::a_front_is_a_prefix(a1 + proto_name(f.proto), " "@, all);
    text::a_front_is_a_prefix(a1, proto_name(f.proto), all);
    text::a_front_is_a_prefix(a + i, " "@, all);
    text::what_a_prefix_ends_with_is_held(a, i, all);
    text::what_a_prefix_ends_with_is_held(a2, src, all);
    text::what_a_prefix_ends_with_is_held(a3, dst, all);
    let b1 = a + text::dec(id as nat) + " 关闭 tx "@;
    let b2 = b1 + text::dec(tx_bytes as nat) + " B rx "@;
    let end = closed_text(id, tx_bytes, rx_bytes);
    assert(end == b2 + text::dec(rx_bytes as nat) + " B"@);
    assert(end.take(end.len() as int) =~= end);
    let (k, tx, rx) = (
        text::dec(id as nat),
        text::dec(tx_bytes as nat),
        text::dec(rx_bytes as nat),
    );
    text::a_front_is_a_prefix(b2 + rx, " B"@, end);
    text::a_front_is_a_prefix(b2, rx, end);
    text::a_front_is_a_prefix(b1 + tx, " B rx "@, end);
    text::a_front_is_a_prefix(b1, tx, end);
    text::a_front_is_a_prefix(a + k, " 关闭 tx "@, end);
    text::what_a_prefix_ends_with_is_held(a, k, end);
    text::what_a_prefix_ends_with_is_held(b1, tx, end);
    text::what_a_prefix_ends_with_is_held(b2, rx, end);
}

/// The totals are told in bytes, and with them the flows where they are known.
pub proof fn totals_are_told(c: Counters, n: nat)
    ensures
        text::holds(totals_text(c, None), text::dec(c.tx_bytes as nat)),
        text::holds(totals_text(c, None), text::dec(c.rx_bytes as nat)),
        totals_text(c, Some(n)) == totals_text(c, None) + " 活跃流 "@ + text::dec(n),
{
    let (a, b, d) = ("（累计 tx "@, " B / rx "@, " B）"@);
    let (x, y) = (text::dec(c.tx_bytes as nat), text::dec(c.rx_bytes as nat));
    text::an_inner_text_is_held(a, x, b + y + d);
    assert(a + x + (b + y + d) =~= a + x + b + y + d);
    text::an_inner_text_is_held(a + x + b, y, d);
}

/// What is told is the line that was made.
pub proof fn a_line_is_what_was_made(r: Option<(Level, String)>, n: Option<Note>)
    ensures
        r matches Some((level, msg)) ==> line_view(r) == Some((level, msg@)),
        r is None ==> line_view(r) is None,
        n matches Some(x) ==> note_view(n) == Some(x@),
        n is None ==> note_view(n) is None,
{
}

} // verus!
