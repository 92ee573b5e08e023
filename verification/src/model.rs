//! Pure, renderer-independent state of the TUI screens. Everything here is
//! plain data updated from core events.

use crate::guest::{GuestEvent, GuestState};
use crate::host::{FlowInfo, GuestInfo, HostEvent, Proto};
use crate::link::{copy_links, LinkInterface, LinkKind};
use crate::net::SocketAddr;
use crate::platform;
use crate::report::Level;
use crate::speed::LinkSpeed;
use crate::stats::{Counters, Rate};
use crate::text;
use crate::units::{self, fmt_duration};
use std::collections::{BTreeMap, VecDeque};
use vstd::prelude::*;
use vstd::string::StringExecFns;

verus! {

/// Number of throughput samples kept for the sparkline.
pub const SPARK_SAMPLES: usize = 60;

/// Maximum log lines kept.
pub const LOG_CAPACITY: usize = 500;

// Log.

/// One line in the log panel.
#[derive(Clone, Debug, PartialEq, Eq)]
pub struct LogLine {
    pub time: String,
    pub level: Level,
    pub msg: String,
}

/// A line with its text as characters.
pub struct LineView {
    pub time: Seq<char>,
    pub level: Level,
    pub msg: Seq<char>,
}

impl View for LogLine {
    type V = LineView;

    open spec fn view(&self) -> LineView {
        LineView { time: self.time@, level: self.level, msg: self.msg@ }
    }
}

/// Bounded log buffer with an optional manual scroll position.
#[derive(Debug)]
pub struct LogBuffer {
    lines: VecDeque<LogLine>,
    /// Number of lines scrolled up from the tail; 0 follows it.
    scroll_up: usize,
}

/// The lines of a log and how far it is scrolled up.
pub struct LogView {
    pub lines: Seq<LineView>,
    pub up: nat,
}

impl View for LogBuffer {
    type V = LogView;

    closed spec fn view(&self) -> LogView {
        LogView { lines: self.lines@.map_values(|l: LogLine| l@), up: self.scroll_up as nat }
    }
}

impl Default for LogBuffer {
    fn default() -> (r: Self)
        ensures
            r@ == LogView::empty(),
            r.wf(),
    {
        let r = LogBuffer { lines: VecDeque::new(), scroll_up: 0 };
        assert(r@.lines =~= Seq::<LineView>::empty());
        r
    }
}

impl LogView {
    /// No lines.
    pub open spec fn empty() -> LogView {
        LogView { lines: Seq::empty(), up: 0 }
    }

    /// The log with one more line; the oldest goes when it is full.
    pub open spec fn pushed(self, line: LineView) -> LogView {
        if self.lines.len() == LOG_CAPACITY {
            LogView {
                lines: self.lines.skip(1).push(line),
                up: if self.up > 0 {
                    (self.up - 1) as nat
                } else {
                    0
                },
            }
        } else {
            LogView { lines: self.lines.push(line), up: self.up }
        }
    }

    /// The log scrolled by some lines, within its lines.
    pub open spec fn scrolled(self, delta: int) -> LogView {
        let max = if self.lines.len() > 0 {
            self.lines.len() - 1
        } else {
            0
        };
        LogView {
            lines: self.lines,
            up: (if self.up + delta < 0 {
                0
            } else if self.up + delta > max {
                max
            } else {
                self.up + delta
            }) as nat,
        }
    }

    /// The log at its tail.
    pub open spec fn followed(self) -> LogView {
        LogView { lines: self.lines, up: 0 }
    }

    /// Behind the last line shown.
    pub open spec fn shown_end(self) -> int {
        if self.lines.len() >= self.up {
            self.lines.len() - self.up
        } else {
            0
        }
    }

    /// The lines that `n` rows show.
    pub open spec fn shown(self, n: nat) -> Seq<LineView> {
        let end = self.shown_end();
        self.lines.subrange(
            if end >= n {
                end - n
            } else {
                0
            },
            end,
        )
    }
}

/// Lines as characters.
pub open spec fn line_views(v: Seq<&LogLine>) -> Seq<LineView> {
    v.map_values(|l: &LogLine| l@)
}

impl LogBuffer {
    /// The log is bounded.
    pub closed spec fn wf(&self) -> bool {
        &&& self.lines@.len() <= LOG_CAPACITY
        &&& self.scroll_up <= LOG_CAPACITY
    }

    /// What being bounded means.
    pub proof fn bounded(&self)
        requires
            self.wf(),
        ensures
            self@.lines.len() <= LOG_CAPACITY,
            self@.up <= LOG_CAPACITY,
    {
    }

    /// Add a line that was written at the wall-clock time `time`.
    pub fn push(&mut self, time: String, level: Level, msg: String)
        requires
            old(self).wf(),
        ensures
            final(self).wf(),
            final(self)@ == old(self)@.pushed(LineView { time: time@, level, msg: msg@ }),
    {
        let ghost before = self.lines@;
        let line = LogLine { time, level, msg };
        if self.lines.len() == LOG_CAPACITY {
            let _ = self.lines.pop_front();
            if self.scroll_up > 0 {
                self.scroll_up = self.scroll_up - 1;
            }
        }
        self.lines.push_back(line);
        proof {
            let spec = old(self)@.pushed(LineView { time: time@, level, msg: msg@ });
            assert(self@.lines =~= spec.lines);
        }
    }

    /// Number of lines.
    pub fn len(&self) -> (r: usize)
        ensures
            r == self@.lines.len(),
    {
        self.lines.len()
    }

    /// Lines scrolled up from the tail (0 when following).
    pub fn scroll_up(&self) -> (r: usize)
        ensures
            r == self@.up,
    {
        self.scroll_up
    }

    /// Scroll up by `delta` lines, or down where it is negative.
    pub fn scroll(&mut self, delta: isize)
        requires
            old(self).wf(),
            old(self)@.up + delta <= isize::MAX,
        ensures
            final(self).wf(),
            final(self)@ == old(self)@.scrolled(delta as int),
    {
        let max: isize = if self.lines.len() > 0 {
            self.lines.len() as isize - 1
        } else {
            0
        };
        let next: isize = self.scroll_up as isize + delta;
        self.scroll_up = if next < 0 {
            0
        } else if next > max {
            max as usize
        } else {
            next as usize
        };
        assert(self@.lines =~= old(self)@.lines);
    }

    /// Go back to the tail.
    pub fn follow(&mut self)
        requires
            old(self).wf(),
        ensures
            final(self).wf(),
            final(self)@ == old(self)@.followed(),
    {
        self.scroll_up = 0;
        assert(self@.lines =~= old(self)@.lines);
    }

    /// The `n` lines visible when the panel shows `n` rows, honouring the
    /// scroll offset.
    pub fn visible(&self, n: usize) -> (r: Vec<&LogLine>)
        ensures
            line_views(r@) == self@.shown(n as nat),
    {
        let total: usize = self.lines.len();
        let end: usize = if total >= self.scroll_up {
            total - self.scroll_up
        } else {
            0
        };
        let start: usize = if end >= n {
            end - n
        } else {
            0
        };
        let mut out: Vec<&LogLine> = Vec::new();
        let mut i: usize = start;
        while i < end
            invariant
                start <= i <= end,
                end <= self.lines@.len(),
                out@.len() == i - start,
                forall|k: int| 0 <= k < out@.len() ==> *(#[trigger] out@[k]) == self.lines@[start + k],
            decreases end - i,
        {
            out.push(&self.lines[i]);
            i = i + 1;
        }
        assert(line_views(out@) =~= self@.shown(n as nat));
        out
    }
}

// Throughput.

/// A history with one more sample; the oldest goes when it is full.
pub open spec fn sampled(hist: Seq<u64>, v: u64) -> Seq<u64> {
    if hist.len() == SPARK_SAMPLES {
        hist.skip(1).push(v)
    } else {
        hist.push(v)
    }
}

/// Sliding window of throughput samples, in whole bit/s, plus the latest
/// snapshot.
#[derive(Debug)]
pub struct Throughput {
    pub tx_bps: Rate,
    pub rx_bps: Rate,
    pub counters: Counters,
    /// Rates into the tunnel, oldest first.
    pub tx_hist: VecDeque<u64>,
    /// Rates out of the tunnel, oldest first.
    pub rx_hist: VecDeque<u64>,
}

/// Throughput with its histories as sequences, oldest first.
pub struct ThroughputView {
    pub tx_bps: Rate,
    pub rx_bps: Rate,
    pub counters: Counters,
    pub tx_hist: Seq<u64>,
    pub rx_hist: Seq<u64>,
}

impl View for Throughput {
    type V = ThroughputView;

    open spec fn view(&self) -> ThroughputView {
        ThroughputView {
            tx_bps: self.tx_bps,
            rx_bps: self.rx_bps,
            counters: self.counters,
            tx_hist: self.tx_hist@,
            rx_hist: self.rx_hist@,
        }
    }
}

impl ThroughputView {
    /// Nothing was sampled yet.
    pub open spec fn empty() -> ThroughputView {
        ThroughputView {
            tx_bps: Rate::zero(),
            rx_bps: Rate::zero(),
            counters: Counters { tx_bytes: 0, rx_bytes: 0, tx_packets: 0, rx_packets: 0 },
            tx_hist: Seq::empty(),
            rx_hist: Seq::empty(),
        }
    }

    /// The throughput with one more sample.
    pub open spec fn pushed(self, counters: Counters, tx_bps: Rate, rx_bps: Rate) -> ThroughputView {
        ThroughputView {
            tx_bps,
            rx_bps,
            counters,
            tx_hist: sampled(self.tx_hist, tx_bps.spec_bits()),
            rx_hist: sampled(self.rx_hist, rx_bps.spec_bits()),
        }
    }

    /// The throughput without its instantaneous rates.
    pub open spec fn idled(self) -> ThroughputView {
        ThroughputView { tx_bps: Rate::zero(), rx_bps: Rate::zero(), ..self }
    }
}

impl Default for Throughput {
    fn default() -> (r: Self)
        ensures
            r@ == ThroughputView::empty(),
    {
        let r = Throughput {
            tx_bps: Rate::default(),
            rx_bps: Rate::default(),
            counters: Counters { tx_bytes: 0, rx_bytes: 0, tx_packets: 0, rx_packets: 0 },
            tx_hist: VecDeque::new(),
            rx_hist: VecDeque::new(),
        };
        assert(r@.tx_hist =~= Seq::<u64>::empty());
        assert(r@.rx_hist =~= Seq::<u64>::empty());
        r
    }
}

fn push_sample(hist: &mut VecDeque<u64>, v: u64)
    ensures
        final(hist)@ == sampled(old(hist)@, v),
{
    if hist.len() == SPARK_SAMPLES {
        let _ = hist.pop_front();
    }
    hist.push_back(v);
    assert(hist@ =~= sampled(old(hist)@, v));
}

impl Throughput {
    /// Take a snapshot of the counters and the rates.
    pub fn push(&mut self, counters: Counters, tx_bps: Rate, rx_bps: Rate)
        ensures
            final(self)@ == old(self)@.pushed(counters, tx_bps, rx_bps),
    {
        self.counters = counters;
        self.tx_bps = tx_bps;
        self.rx_bps = rx_bps;
        push_sample(&mut self.tx_hist, tx_bps.bits());
        push_sample(&mut self.rx_hist, rx_bps.bits());
    }

    /// The rates into the tunnel, oldest first.
    pub fn tx_history(&self) -> (r: &VecDeque<u64>)
        ensures
            r@ == self@.tx_hist,
    {
        &self.tx_hist
    }

    /// The rates out of the tunnel, oldest first.
    pub fn rx_history(&self) -> (r: &VecDeque<u64>)
        ensures
            r@ == self@.rx_hist,
    {
        &self.rx_hist
    }

    /// Reset the instantaneous rates (e.g. after a disconnect) while keeping
    /// the history.
    pub fn idle(&mut self)
        ensures
            final(self)@ == old(self)@.idled(),
    {
        self.tx_bps = Rate::default();
        self.rx_bps = Rate::default();
    }
}

/// However long samples come in, a history stays bounded, and its last sample
/// is the one that came last.
pub proof fn histories_are_bounded(hist: Seq<u64>, v: u64)
    requires
        hist.len() <= SPARK_SAMPLES,
    ensures
        sampled(hist, v).len() <= SPARK_SAMPLES,
        sampled(hist, v).last() == v,
{
}

// Labels.

/// Chinese label of a guest state.
pub open spec fn state_label(state: GuestState) -> Seq<char> {
    match state {
        GuestState::WaitingForLink => "等待 Type-C 连接"@,
        GuestState::Discovering { .. } => "发现宿主机中"@,
        GuestState::Connecting { .. } => "正在连接"@,
        GuestState::Connected { .. } => "已连接"@,
        GuestState::Disconnected { .. } => "已断开"@,
    }
}

/// Chinese label of a guest state.
pub fn guest_state_label(state: &GuestState) -> (r: &'static str)
    ensures
        r@ == state_label(*state),
{
    match state {
        GuestState::WaitingForLink => "等待 Type-C 连接",
        GuestState::Discovering { .. } => "发现宿主机中",
        GuestState::Connecting { .. } => "正在连接",
        GuestState::Connected { .. } => "已连接",
        GuestState::Disconnected { .. } => "已断开",
    }
}

/// Extra detail shown next to the state label.
pub open spec fn state_detail(state: GuestState) -> Option<Seq<char>> {
    match state {
        GuestState::WaitingForLink => None,
        GuestState::Discovering { iface } => Some("网卡 "@ + iface@),
        GuestState::Connecting { host } => Some(host.spec_text()),
        GuestState::Connected { host_name, .. } => Some(host_name@),
        GuestState::Disconnected { reason } => Some(reason@),
    }
}

/// Extra detail shown next to the state label.
pub fn guest_state_detail(state: &GuestState) -> (r: Option<String>)
    ensures
        platform::opt_view(r) == state_detail(*state),
{
    match state {
        GuestState::WaitingForLink => None,
        GuestState::Discovering { iface } => Some(text::cat2("网卡 ", iface.as_str())),
        GuestState::Connecting { host } => Some(host.text()),
        GuestState::Connected { host_name, .. } => Some(host_name.clone()),
        GuestState::Disconnected { reason } => Some(reason.clone()),
    }
}

/// A state that is transient and deserves a spinner.
pub open spec fn state_busy(state: GuestState) -> bool {
    state is WaitingForLink || state is Discovering || state is Connecting
}

/// Whether the state is transient and deserves a spinner.
pub fn guest_state_busy(state: &GuestState) -> (r: bool)
    ensures
        r == state_busy(*state),
{
    match state {
        GuestState::WaitingForLink => true,
        GuestState::Discovering { .. } => true,
        GuestState::Connecting { .. } => true,
        GuestState::Connected { .. } => false,
        GuestState::Disconnected { .. } => false,
    }
}

/// Chinese label of a link kind.
pub open spec fn kind_label(kind: LinkKind) -> Seq<char> {
    match kind {
        LinkKind::ThunderboltBridge => "雷电网桥"@,
        LinkKind::Thunderbolt => "雷电口"@,
        LinkKind::UsbEthernet => "USB 网卡"@,
        LinkKind::Other => "其他"@,
    }
}

/// Chinese label of a link kind.
pub fn link_kind_label(kind: LinkKind) -> (r: &'static str)
    ensures
        r@ == kind_label(kind),
{
    match kind {
        LinkKind::ThunderboltBridge => "雷电网桥",
        LinkKind::Thunderbolt => "雷电口",
        LinkKind::UsbEthernet => "USB 网卡",
        LinkKind::Other => "其他",
    }
}

/// Short protocol label.
pub open spec fn proto_text(p: Proto) -> Seq<char> {
    match p {
        Proto::Tcp => "TCP"@,
        Proto::Udp => "UDP"@,
    }
}

/// Short protocol label.
pub fn proto_label(p: &Proto) -> (r: &'static str)
    ensures
        r@ == proto_text(*p),
{
    match p {
        Proto::Tcp => "TCP",
        Proto::Udp => "UDP",
    }
}

/// Seconds from one time to another, both in milliseconds.
pub open spec fn seconds_between(since: u64, now: u64) -> nat {
    if now >= since {
        ((now - since) / 1000) as nat
    } else {
        0
    }
}

/// Age, at the time `now`, of something that began at `since`, as a short
/// string. Both are milliseconds on the same clock.
pub fn age(since: u64, now: u64) -> (r: String)
    ensures
        r@ == units::duration_text(seconds_between(since, now)),
{
    let millis: u64 = if now >= since {
        now - since
    } else {
        0
    };
    fmt_duration(millis / 1000)
}

// Guest.

/// State of the guest screen.
#[derive(Debug)]
pub struct GuestModel {
    pub state: GuestState,
    pub interfaces: Vec<LinkInterface>,
    pub throughput: Throughput,
    /// Set when the core returned an error.
    pub fatal: Option<String>,
    /// Interface that carries traffic while no tunnel is up, if known.
    pub local_egress: Option<String>,
    /// A tunnel was up before.
    pub was_up: bool,
    /// What the link was measured at.
    pub link_speed: Option<LinkSpeed>,
}

/// State of the guest screen as mathematical values.
pub struct GuestModelView {
    pub state: GuestState,
    pub interfaces: Seq<LinkInterface>,
    pub throughput: ThroughputView,
    pub fatal: Option<Seq<char>>,
    pub local_egress: Option<Seq<char>>,
    pub was_up: bool,
    pub link_speed: Option<LinkSpeed>,
}

impl View for GuestModel {
    type V = GuestModelView;

    open spec fn view(&self) -> GuestModelView {
        GuestModelView {
            state: self.state,
            interfaces: self.interfaces@,
            throughput: self.throughput@,
            fatal: platform::opt_view(self.fatal),
            local_egress: platform::opt_view(self.local_egress),
            was_up: self.was_up,
            link_speed: self.link_speed,
        }
    }
}

impl Default for GuestModel {
    fn default() -> (r: Self)
        ensures
            r@ == GuestModelView::fresh(),
    {
        let r = GuestModel {
            state: GuestState::WaitingForLink,
            interfaces: Vec::new(),
            throughput: Throughput::default(),
            fatal: None,
            local_egress: None,
            was_up: false,
            link_speed: None,
        };
        assert(r@.interfaces =~= Seq::<LinkInterface>::empty());
        r
    }
}

impl GuestModelView {
    /// A screen that has seen no event.
    pub open spec fn fresh() -> GuestModelView {
        GuestModelView {
            state: GuestState::WaitingForLink,
            interfaces: Seq::empty(),
            throughput: ThroughputView::empty(),
            fatal: None,
            local_egress: None,
            was_up: false,
            link_speed: None,
        }
    }

    /// The screen after an event.
    pub open spec fn applied(self, ev: GuestEvent) -> GuestModelView {
        match ev {
            GuestEvent::StateChanged(s) => if s is Connected {
                GuestModelView { state: s, was_up: true, ..self }
            } else {
                GuestModelView {
                    state: s,
                    throughput: self.throughput.idled(),
                    link_speed: None,
                    ..self
                }
            },
            GuestEvent::Interfaces(list) => GuestModelView { interfaces: list@, ..self },
            GuestEvent::Stats { counters, tx_bps, rx_bps } => GuestModelView {
                throughput: self.throughput.pushed(counters, tx_bps, rx_bps),
                ..self
            },
            GuestEvent::LocalEgress(iface) => GuestModelView {
                local_egress: platform::opt_view(iface),
                ..self
            },
            GuestEvent::LinkSpeed(s) => GuestModelView { link_speed: Some(s), ..self },
            GuestEvent::Log(_) => self,
            GuestEvent::Error(_) => self,
        }
    }

    /// What the user is told after the tunnel went away.
    pub open spec fn warning(self) -> Option<Seq<char>> {
        if self.was_up && !(self.state is Connected) {
            Some(
                match self.local_egress {
                    Some(iface) => "隧道已撤销，流量已回到本机网络（"@ + iface + " / Wi-Fi）"@,
                    None => "隧道已撤销，流量已回到本机网络"@,
                },
            )
        } else {
            None
        }
    }
}

impl GuestModel {
    /// Apply an event; returns `true` if the screen should be redrawn.
    pub fn apply(&mut self, ev: &GuestEvent) -> (r: bool)
        ensures
            final(self)@ == old(self)@.applied(*ev),
            r,
    {
        match ev {
            GuestEvent::StateChanged(s) => {
                match s {
                    GuestState::Connected { .. } => {
                        self.was_up = true;
                    },
                    _ => {
                        self.throughput.idle();
                        self.link_speed = None;
                    },
                }
                self.state = s.copy();
            },
            GuestEvent::Interfaces(list) => {
                self.interfaces = copy_links(list);
            },
            GuestEvent::Stats { counters, tx_bps, rx_bps } => {
                self.throughput.push(*counters, *tx_bps, *rx_bps);
            },
            GuestEvent::LocalEgress(iface) => {
                self.local_egress = match iface {
                    Some(name) => Some(name.clone()),
                    None => None,
                };
            },
            GuestEvent::LinkSpeed(s) => {
                self.link_speed = Some(*s);
            },
            GuestEvent::Log(_) => {},
            GuestEvent::Error(_) => {},
        }
        true
    }

    /// Shown after the tunnel went away, so the user is never left guessing
    /// whether their machine still has network.
    pub fn egress_warning(&self) -> (r: Option<String>)
        ensures
            platform::opt_view(r) == self@.warning(),
    {
        if !self.was_up {
            return None;
        }
        match &self.state {
            GuestState::Connected { .. } => None,
            _ => match &self.local_egress {
                Some(iface) => Some(
                    text::cat3("隧道已撤销，流量已回到本机网络（", iface.as_str(), " / Wi-Fi）"),
                ),
                None => Some("隧道已撤销，流量已回到本机网络".to_owned()),
            },
        }
    }
}

/// Leaving the connected state resets the rates, keeps the history, and warns
/// the user when a tunnel was up.
pub proof fn a_lost_tunnel_is_shown(m: GuestModelView, s: GuestState)
    requires
        !(s is Connected),
    ensures
        ({
            let after = m.applied(GuestEvent::StateChanged(s));
            &&& after.throughput.tx_bps == Rate::zero()
            &&& after.throughput.rx_bps == Rate::zero()
            &&& after.throughput.tx_hist == m.throughput.tx_hist
            &&& after.throughput.rx_hist == m.throughput.rx_hist
            &&& m.was_up ==> after.warning() is Some
        }),
{
}

// Host.

/// Aggregate state of the host's flows.
#[derive(Debug)]
pub struct FlowTable {
    /// The active flows by id.
    pub active: BTreeMap<u64, FlowInfo>,
    pub closed_count: u64,
    pub closed_tx_bytes: u64,
    pub closed_rx_bytes: u64,
}

/// The flows with the active ones by id.
pub struct FlowsView {
    pub active: Map<u64, FlowInfo>,
    pub closed_count: u64,
    pub closed_tx_bytes: u64,
    pub closed_rx_bytes: u64,
}

impl View for FlowTable {
    type V = FlowsView;

    open spec fn view(&self) -> FlowsView {
        FlowsView {
            active: self.active@,
            closed_count: self.closed_count,
            closed_tx_bytes: self.closed_tx_bytes,
            closed_rx_bytes: self.closed_rx_bytes,
        }
    }
}

impl FlowsView {
    /// No flow was ever opened.
    pub open spec fn empty() -> FlowsView {
        FlowsView { active: Map::empty(), closed_count: 0, closed_tx_bytes: 0, closed_rx_bytes: 0 }
    }

    /// Flows are known by their own ids.
    pub open spec fn wf(self) -> bool {
        forall|id: u64| #[trigger]
            self.active.contains_key(id) ==> self.active[id].id == id
    }

    /// Bytes of all closed flows, in both directions.
    pub open spec fn total(self) -> nat {
        self.closed_tx_bytes as nat + self.closed_rx_bytes as nat
    }

    /// One more closed flow with these bytes can be counted.
    pub open spec fn fits(self, tx_bytes: u64, rx_bytes: u64) -> bool {
        &&& self.closed_count < u64::MAX
        &&& self.closed_tx_bytes + tx_bytes <= u64::MAX
        &&& self.closed_rx_bytes + rx_bytes <= u64::MAX
    }

    /// The flows with one more open.
    pub open spec fn opened(self, f: FlowInfo) -> FlowsView {
        FlowsView { active: self.active.insert(f.id, f), ..self }
    }

    /// The flows after one was closed. One that is not known is counted too.
    pub open spec fn closed(self, id: u64, tx_bytes: u64, rx_bytes: u64) -> FlowsView {
        FlowsView {
            active: self.active.remove(id),
            closed_count: (self.closed_count + 1) as u64,
            closed_tx_bytes: (self.closed_tx_bytes + tx_bytes) as u64,
            closed_rx_bytes: (self.closed_rx_bytes + rx_bytes) as u64,
        }
    }

    /// The flows with none active.
    pub open spec fn cleared(self) -> FlowsView {
        FlowsView { active: Map::empty(), ..self }
    }
}

/// All flows of a map, the newest (with the highest id) first.
pub open spec fn newest_first(r: Seq<FlowInfo>, active: Map<u64, FlowInfo>) -> bool {
    &&& r.len() == active.dom().len()
    &&& forall|i: int|
        0 <= i < r.len() ==> active.contains_key((#[trigger] r[i]).id) && active[r[i].id] == r[i]
    &&& forall|i: int, j: int| 0 <= i < j < r.len() ==> r[i].id > r[j].id
    &&& forall|id: u64| active.contains_key(id) ==> exists|i: int|
        0 <= i < r.len() && (#[trigger] r[i]).id == id
}

impl Default for FlowTable {
    fn default() -> (r: Self)
        ensures
            r@ == FlowsView::empty(),
            r@.wf(),
    {
        FlowTable {
            active: BTreeMap::new(),
            closed_count: 0,
            closed_tx_bytes: 0,
            closed_rx_bytes: 0,
        }
    }
}

impl FlowTable {
    /// A flow was opened.
    pub fn open(&mut self, f: FlowInfo)
        requires
            old(self)@.wf(),
        ensures
            final(self)@ == old(self)@.opened(f),
            final(self)@.wf(),
    {
        let _ = self.active.insert(f.id, f);
    }

    /// Returns `true` when the flow was known.
    pub fn close(&mut self, id: u64, tx_bytes: u64, rx_bytes: u64) -> (r: bool)
        requires
            old(self)@.wf(),
            old(self)@.fits(tx_bytes, rx_bytes),
        ensures
            r == old(self)@.active.contains_key(id),
            final(self)@ == old(self)@.closed(id, tx_bytes, rx_bytes),
            final(self)@.wf(),
    {
        let known: bool = self.active.remove(&id).is_some();
        self.closed_count = self.closed_count + 1;
        self.closed_tx_bytes = self.closed_tx_bytes + tx_bytes;
        self.closed_rx_bytes = self.closed_rx_bytes + rx_bytes;
        known
    }

    /// Forget the active flows.
    pub fn clear_active(&mut self)
        requires
            old(self)@.wf(),
        ensures
            final(self)@ == old(self)@.cleared(),
            final(self)@.wf(),
    {
        self.active.clear();
    }

    /// Number of active flows.
    pub fn active_len(&self) -> (r: usize)
        ensures
            r == self@.active.dom().len(),
    {
        self.active.len()
    }

    /// Active flows, newest first.
    pub fn active(&self) -> (r: Vec<FlowInfo>)
        requires
            self@.wf(),
        ensures
            newest_first(r@, self@.active),
    {
        let ghost m = self.active@;
        let ghost all = vstd::std_specs::iter::IteratorSpec::remaining(&self.active.iter());
        let ghost ids = all.map_values(|kv: (&u64, &FlowInfo)| *kv.0);
        let mut rising: Vec<FlowInfo> = Vec::new();
        let flows = self.active.iter();
        proof {
            broadcast use vstd::std_specs::btree::group_btree_axioms;
            broadcast use vstd::laws_cmp::group_laws_cmp;

            assert(vstd::std_specs::btree::increasing_seq(ids));
            assert forall|i: int, j: int| 0 <= i < j < all.len() implies *all[i].0 < *all[j].0 by {
                assert(vstd::std_specs::cmp::OrdSpec::cmp_spec(&ids[i], &ids[j]) is Less);
            }
        }
        for kv in it: flows
            invariant
                it.seq() == all,
                rising@.len() == it.index(),
                forall|k: int| 0 <= k < rising@.len() ==> rising@[k] == *all[k].1,
        {
            rising.push(*kv.1);
        }
        let mut out: Vec<FlowInfo> = Vec::new();
        let mut i: usize = rising.len();
        while i > 0
            invariant
                i <= rising@.len(),
                out@.len() == rising@.len() - i,
                forall|k: int| 0 <= k < out@.len() ==> out@[k] == rising@[rising@.len() - 1 - k],
            decreases i,
        {
            i = i - 1;
            out.push(rising[i]);
        }
        proof {
            assert forall|k: int| 0 <= k < out@.len() implies m.contains_key((#[trigger] out@[k]).id)
                && m[out@[k].id] == out@[k] by {
                let j = rising@.len() - 1 - k;
                assert(m.contains_key(*all[j].0) && m[*all[j].0] == *all[j].1);
            }
            assert forall|id: u64| m.contains_key(id) implies exists|k: int|
                0 <= k < out@.len() && (#[trigger] out@[k]).id == id by {
                assert(all.contains((&id, &m[id])));
                let j = choose|j: int| 0 <= j < all.len() && all[j] == (&id, &m[id]);
                assert(out@[all.len() - 1 - j].id == id);
            }
            assert forall|x: int, y: int| 0 <= x < y < out@.len() implies out@[x].id > out@[y].id by {
                let jx = all.len() - 1 - x;
                let jy = all.len() - 1 - y;
                assert(m.contains_key(*all[jx].0) && m[*all[jx].0] == *all[jx].1);
                assert(m.contains_key(*all[jy].0) && m[*all[jy].0] == *all[jy].1);
                assert(*all[jy].0 < *all[jx].0);
            }
        }
        out
    }

    /// Bytes of all closed flows, in both directions.
    pub fn total_bytes(&self) -> (r: u64)
        requires
            self@.total() <= u64::MAX,
        ensures
            r == self@.total(),
    {
        self.closed_tx_bytes + self.closed_rx_bytes
    }
}

/// State of the host dashboard.
#[derive(Debug)]
pub struct HostModel {
    pub listening: Option<SocketAddr>,
    pub host_name: String,
    pub interfaces: Vec<LinkInterface>,
    pub guest: Option<GuestInfo>,
    pub last_disconnect: Option<String>,
    pub flows: FlowTable,
    pub throughput: Throughput,
    pub active_flows_reported: usize,
    pub fatal: Option<String>,
    /// What the link was measured at.
    pub link_speed: Option<LinkSpeed>,
    /// Path of the serial port, and whether it is open.
    pub serial_state: Option<(String, bool)>,
}

/// State of the host dashboard as mathematical values.
pub struct HostModelView {
    pub listening: Option<SocketAddr>,
    pub host_name: Seq<char>,
    pub interfaces: Seq<LinkInterface>,
    pub guest: Option<GuestInfo>,
    pub last_disconnect: Option<Seq<char>>,
    pub flows: FlowsView,
    pub throughput: ThroughputView,
    pub active_flows_reported: usize,
    pub fatal: Option<Seq<char>>,
    pub link_speed: Option<LinkSpeed>,
    pub serial_state: Option<(Seq<char>, bool)>,
}

impl View for HostModel {
    type V = HostModelView;

    open spec fn view(&self) -> HostModelView {
        HostModelView {
            listening: self.listening,
            host_name: self.host_name@,
            interfaces: self.interfaces@,
            guest: self.guest,
            last_disconnect: platform::opt_view(self.last_disconnect),
            flows: self.flows@,
            throughput: self.throughput@,
            active_flows_reported: self.active_flows_reported,
            fatal: platform::opt_view(self.fatal),
            link_speed: self.link_speed,
            serial_state: match self.serial_state {
                Some((path, open)) => Some((path@, open)),
                None => None,
            },
        }
    }
}

impl HostModelView {
    /// A dashboard that has seen no event.
    pub open spec fn fresh(host_name: Seq<char>) -> HostModelView {
        HostModelView {
            listening: None,
            host_name,
            interfaces: Seq::empty(),
            guest: None,
            last_disconnect: None,
            flows: FlowsView::empty(),
            throughput: ThroughputView::empty(),
            active_flows_reported: 0,
            fatal: None,
            link_speed: None,
            serial_state: None,
        }
    }

    /// The event can be counted.
    pub open spec fn fits(self, ev: HostEvent) -> bool {
        ev matches HostEvent::FlowClosed { tx_bytes, rx_bytes, .. } ==> self.flows.fits(
            tx_bytes,
            rx_bytes,
        )
    }

    /// The dashboard after an event.
    pub open spec fn applied(self, ev: HostEvent) -> HostModelView {
        match ev {
            HostEvent::Listening { addr } => HostModelView { listening: Some(addr), ..self },
            HostEvent::Interfaces(list) => HostModelView { interfaces: list@, ..self },
            HostEvent::GuestConnected(g) => HostModelView {
                guest: Some(g),
                last_disconnect: None,
                flows: self.flows.cleared(),
                ..self
            },
            HostEvent::GuestDisconnected { peer, reason } => HostModelView {
                guest: None,
                last_disconnect: Some(reason@),
                flows: self.flows.cleared(),
                throughput: self.throughput.idled(),
                link_speed: None,
                ..self
            },
            HostEvent::FlowOpened(f) => HostModelView { flows: self.flows.opened(f), ..self },
            HostEvent::FlowClosed { id, tx_bytes, rx_bytes } => HostModelView {
                flows: self.flows.closed(id, tx_bytes, rx_bytes),
                ..self
            },
            HostEvent::Stats { counters, tx_bps, rx_bps, active_flows } => HostModelView {
                throughput: self.throughput.pushed(counters, tx_bps, rx_bps),
                active_flows_reported: active_flows,
                ..self
            },
            HostEvent::LinkSpeed(s) => HostModelView { link_speed: Some(s), ..self },
            HostEvent::Serial { path, open } => HostModelView {
                serial_state: Some((path@, open)),
                ..self
            },
            HostEvent::Log(_) => self,
            HostEvent::Error(_) => self,
        }
    }
}

impl HostModel {
    /// A dashboard that has seen no event.
    pub fn new(host_name: String) -> (r: Self)
        ensures
            r@ == HostModelView::fresh(host_name@),
            r@.flows.wf(),
    {
        let r = HostModel {
            listening: None,
            host_name,
            interfaces: Vec::new(),
            guest: None,
            last_disconnect: None,
            flows: FlowTable::default(),
            throughput: Throughput::default(),
            active_flows_reported: 0,
            fatal: None,
            link_speed: None,
            serial_state: None,
        };
        assert(r@.interfaces =~= Seq::<LinkInterface>::empty());
        r
    }

    /// Apply an event; returns `true` if the screen should be redrawn.
    pub fn apply(&mut self, ev: &HostEvent) -> (r: bool)
        requires
            old(self)@.flows.wf(),
            old(self)@.fits(*ev),
        ensures
            final(self)@ == old(self)@.applied(*ev),
            final(self)@.flows.wf(),
            r,
    {
        match ev {
            HostEvent::Listening { addr } => {
                self.listening = Some(*addr);
            },
            HostEvent::Interfaces(list) => {
                self.interfaces = copy_links(list);
            },
            HostEvent::GuestConnected(g) => {
                self.guest = Some(g.copy());
                self.last_disconnect = None;
                self.flows.clear_active();
            },
            HostEvent::GuestDisconnected { peer: _, reason } => {
                self.guest = None;
                self.last_disconnect = Some(reason.clone());
                self.flows.clear_active();
                self.throughput.idle();
                self.link_speed = None;
            },
            HostEvent::FlowOpened(f) => {
                self.flows.open(*f);
            },
            HostEvent::FlowClosed { id, tx_bytes, rx_bytes } => {
                let _ = self.flows.close(*id, *tx_bytes, *rx_bytes);
            },
            HostEvent::Stats { counters, tx_bps, rx_bps, active_flows } => {
                self.throughput.push(*counters, *tx_bps, *rx_bps);
                self.active_flows_reported = *active_flows;
            },
            HostEvent::LinkSpeed(s) => {
                self.link_speed = Some(*s);
            },
            HostEvent::Serial { path, open } => {
                self.serial_state = Some((path.clone(), *open));
            },
            HostEvent::Log(_) => {},
            HostEvent::Error(_) => {},
        }
        true
    }
}

/// When the guest goes, so do its flows and the rates; what closed flows moved
/// stays counted.
pub proof fn a_disconnect_clears_the_guest(m: HostModelView, ev: HostEvent)
    requires
        ev is GuestDisconnected,
    ensures
        m.applied(ev).guest is None,
        m.applied(ev).flows.active =~= Map::<u64, FlowInfo>::empty(),
        m.applied(ev).throughput.tx_bps == Rate::zero(),
        m.applied(ev).throughput.rx_bps == Rate::zero(),
        m.applied(ev).flows.closed_count == m.flows.closed_count,
        m.applied(ev).flows.closed_tx_bytes == m.flows.closed_tx_bytes,
        m.applied(ev).flows.closed_rx_bytes == m.flows.closed_rx_bytes,
{
}

/// A flow that was opened is active until it is closed.
pub proof fn an_open_flow_is_active(m: HostModelView, f: FlowInfo, tx_bytes: u64, rx_bytes: u64)
    ensures
        m.applied(HostEvent::FlowOpened(f)).flows.active.contains_key(f.id),
        !m.applied(HostEvent::FlowOpened(f)).applied(
            HostEvent::FlowClosed { id: f.id, tx_bytes, rx_bytes },
        ).flows.active.contains_key(f.id),
{
}

// What is shown.

/// What a guest's view shows is what the last event of its kind said: the
/// state, the interfaces, the figures, the egress and the speed of the link;
/// each event changes what it speaks of, and nothing else.
pub proof fn a_guest_view_follows_its_events(m: GuestModelView, ev: GuestEvent)
    ensures
        ({
            let n = m.applied(ev);
            &&& ev matches GuestEvent::StateChanged(s) ==> n.state == s
            &&& !(ev is StateChanged) ==> n.state == m.state
            &&& ev matches GuestEvent::Interfaces(l) ==> n.interfaces == l@
            &&& !(ev is Interfaces) ==> n.interfaces == m.interfaces
            &&& ev matches GuestEvent::LocalEgress(i) ==> n.local_egress == platform::opt_view(i)
            &&& !(ev is LocalEgress) ==> n.local_egress == m.local_egress
            &&& ev matches GuestEvent::LinkSpeed(s) ==> n.link_speed == Some(s)
            &&& ev matches GuestEvent::StateChanged(s) ==> n.link_speed == (if s is Connected {
                m.link_speed
            } else {
                None
            })
            &&& !(ev is LinkSpeed) && !(ev is StateChanged) ==> n.link_speed == m.link_speed
            &&& n.was_up <==> m.was_up || (ev matches GuestEvent::StateChanged(s)
                && s is Connected)
            &&& ev matches GuestEvent::Stats { counters, tx_bps, rx_bps } ==> {
                &&& n.throughput.counters == counters
                &&& n.throughput.tx_bps == tx_bps
                &&& n.throughput.rx_bps == rx_bps
                &&& n.throughput.tx_hist.last() == tx_bps.spec_bits()
                &&& n.throughput.rx_hist.last() == rx_bps.spec_bits()
            }
            &&& !(ev is Stats) && !(ev is StateChanged) ==> n.throughput == m.throughput
            &&& !(ev is Stats) ==> n.throughput.counters == m.throughput.counters
            &&& ev == GuestEvent::StateChanged(n.state) && n.state is Connected ==> n.throughput
                == m.throughput
            &&& n.fatal == m.fatal
        }),
{
}

/// The guest is warned that its traffic goes past the tunnel exactly when the
/// tunnel was up and is not.
pub proof fn a_warning_is_due_when_the_tunnel_is_gone(m: GuestModelView)
    ensures
        m.warning() is Some <==> m.was_up && !(m.state is Connected),
        m.warning() matches Some(t) ==> (m.local_egress matches Some(i) ==> text::holds(t, i)),
{
    if m.warning() is Some {
        if let Some(i) = m.local_egress {
            text::an_inner_text_is_held(
                "隧道已撤销，流量已回到本机网络（"@,
                i,
                " / Wi-Fi）"@,
            );
        }
    }
}

/// What a host's view shows is what the last event of its kind said, and each
/// event changes what it speaks of, and nothing else.
pub proof fn a_host_view_follows_its_events(m: HostModelView, ev: HostEvent)
    ensures
        ({
            let n = m.applied(ev);
            &&& ev matches HostEvent::Listening { addr } ==> n.listening == Some(addr)
            &&& !(ev is Listening) ==> n.listening == m.listening
            &&& ev matches HostEvent::Interfaces(l) ==> n.interfaces == l@
            &&& !(ev is Interfaces) ==> n.interfaces == m.interfaces
            &&& ev matches HostEvent::GuestConnected(g) ==> n.guest == Some(g)
                && n.last_disconnect is None && n.flows.active.dom() =~= Set::<u64>::empty()
            &&& ev matches HostEvent::GuestDisconnected { reason, .. } ==> n.guest is None
                && n.last_disconnect == Some(reason@) && n.link_speed is None
            &&& !(ev is GuestConnected) && !(ev is GuestDisconnected) ==> n.guest == m.guest
                && n.last_disconnect == m.last_disconnect
            &&& ev matches HostEvent::Stats { counters, tx_bps, rx_bps, active_flows } ==> {
                &&& n.throughput.counters == counters
                &&& n.throughput.tx_bps == tx_bps
                &&& n.throughput.rx_bps == rx_bps
                &&& n.throughput.tx_hist.last() == tx_bps.spec_bits()
                &&& n.throughput.rx_hist.last() == rx_bps.spec_bits()
                &&& n.active_flows_reported == active_flows
            }
            &&& !(ev is Stats) ==> n.active_flows_reported == m.active_flows_reported
                && n.throughput.counters == m.throughput.counters
            &&& !(ev is Stats) && !(ev is GuestDisconnected) ==> n.throughput == m.throughput
            &&& ev matches HostEvent::LinkSpeed(s) ==> n.link_speed == Some(s)
            &&& !(ev is LinkSpeed) && !(ev is GuestDisconnected) ==> n.link_speed == m.link_speed
            &&& ev matches HostEvent::Serial { path, open } ==> n.serial_state == Some(
                (path@, open),
            )
            &&& !(ev is Serial) ==> n.serial_state == m.serial_state
            &&& n.host_name == m.host_name
            &&& n.fatal == m.fatal
        }),
{
}

/// A flow that was opened is listed as it was opened, next to the others; one
/// that was closed is not listed, and is counted with its bytes.
pub proof fn flows_come_and_go(
    t: FlowsView,
    f: FlowInfo,
    id: u64,
    other: u64,
    tx_bytes: u64,
    rx_bytes: u64,
)
    requires
        t.fits(tx_bytes, rx_bytes),
        other != f.id,
        other != id,
    ensures
        t.opened(f).active.contains_key(f.id),
        t.opened(f).active[f.id] == f,
        t.opened(f).active.contains_key(other) <==> t.active.contains_key(other),
        t.active.contains_key(other) ==> t.opened(f).active[other] == t.active[other],
        t.opened(f).closed_count == t.closed_count,
        t.opened(f).total() == t.total(),
        !t.closed(id, tx_bytes, rx_bytes).active.contains_key(id),
        t.closed(id, tx_bytes, rx_bytes).active.contains_key(other) <==> t.active.contains_key(
            other,
        ),
        t.active.contains_key(other) ==> t.closed(id, tx_bytes, rx_bytes).active[other]
            == t.active[other],
        t.closed(id, tx_bytes, rx_bytes).closed_count == t.closed_count + 1,
        t.closed(id, tx_bytes, rx_bytes).closed_tx_bytes == t.closed_tx_bytes + tx_bytes,
        t.closed(id, tx_bytes, rx_bytes).closed_rx_bytes == t.closed_rx_bytes + rx_bytes,
        t.closed(id, tx_bytes, rx_bytes).total() == t.total() + tx_bytes + rx_bytes,
{
}

/// The log keeps the last lines in order: a new line is the last, and only the
/// oldest is dropped, when there is no more room.
pub proof fn the_log_keeps_the_last_lines(log: LogView, line: LineView)
    requires
        log.lines.len() <= LOG_CAPACITY,
    ensures
        log.pushed(line).lines.len() <= LOG_CAPACITY,
        log.pushed(line).lines.last() == line,
        log.lines.len() < LOG_CAPACITY ==> log.pushed(line).lines.drop_last() == log.lines
            && log.pushed(line).up == log.up,
        log.lines.len() == LOG_CAPACITY ==> log.pushed(line).lines.drop_last() == log.lines.skip(1)
            && log.pushed(line).up <= log.up <= log.pushed(line).up + 1,
        log.up == 0 ==> log.pushed(line).up == 0,
{
    assert(log.lines.push(line).drop_last() =~= log.lines);
    assert(log.lines.skip(1).push(line).drop_last() =~= log.lines.skip(1));
}

/// Scrolling moves by as many lines as were asked for, but not past either end,
/// and loses no line; following goes back to the end.
pub proof fn scrolling_stays_in_the_log(log: LogView, delta: int)
    ensures
        log.scrolled(delta).lines == log.lines,
        0 <= log.up + delta < log.lines.len() ==> log.scrolled(delta).up == log.up + delta,
        log.up + delta < 0 ==> log.scrolled(delta).up == 0,
        log.lines.len() > 0 ==> log.scrolled(delta).up < log.lines.len(),
        log.lines.len() > 0 && log.up + delta >= log.lines.len() ==> log.scrolled(delta).up
            == log.lines.len() - 1,
        log.followed().up == 0,
        log.followed().lines == log.lines,
{
}

/// What is shown are the lines before the place that was scrolled to, the last
/// of them last, as many as there is room for.
pub proof fn the_lines_before_are_shown(log: LogView, n: nat, i: int)
    requires
        log.up <= log.lines.len(),
    ensures
        log.shown(n).len() <= n,
        log.shown(n).len() == n || log.shown(n).len() == log.lines.len() - log.up,
        0 <= i < log.shown(n).len() ==> log.shown(n)[log.shown(n).len() - 1 - i]
            == log.lines[log.lines.len() - log.up - 1 - i],
{
}

/// A history keeps the last samples in order.
pub proof fn a_history_keeps_the_last_samples(hist: Seq<u64>, v: u64)
    ensures
        sampled(hist, v).last() == v,
        hist.len() < SPARK_SAMPLES ==> sampled(hist, v).drop_last() == hist,
        hist.len() == SPARK_SAMPLES ==> sampled(hist, v).drop_last() == hist.skip(1),
{
    assert(hist.push(v).drop_last() =~= hist);
    assert(hist.skip(1).push(v).drop_last() =~= hist.skip(1));
}

/// The age is in whole seconds, and never negative.
pub proof fn ages_are_in_seconds(since: u64, now: u64)
    ensures
        now < since ==> seconds_between(since, now) == 0,
        now >= since ==> 1000 * seconds_between(since, now) <= now - since < 1000 * (
        seconds_between(since, now) + 1),
{
}

/// A guest is busy until it is connected or has lost its connection, and its
/// state names what it is busy with.
pub proof fn states_name_what_they_are_about(state: GuestState)
    ensures
        state_busy(state) <==> !(state is Connected) && !(state is Disconnected),
        state_detail(state) is None <==> state is WaitingForLink,
        state matches GuestState::Discovering { iface } ==> text::holds(
            state_detail(state)->0,
            iface@,
        ),
        state matches GuestState::Connecting { host } ==> state_detail(state) == Some(
            host.spec_text(),
        ),
        state matches GuestState::Connected { host_name, .. } ==> state_detail(state) == Some(
            host_name@,
        ),
        state matches GuestState::Disconnected { reason } ==> state_detail(state) == Some(reason@),
{
    if let GuestState::Discovering { iface } = state {
        text::an_inner_text_is_held("网卡 "@, iface@, Seq::empty());
        assert("网卡 "@ + iface@ + Seq::<char>::empty() =~= "网卡 "@ + iface@);
    }
}

/// The flows are listed once each, the newest first.
pub proof fn flows_are_listed_newest_first(
    r: Seq<FlowInfo>,
    active: Map<u64, FlowInfo>,
    id: u64,
    i: int,
)
    requires
        newest_first(r, active),
    ensures
        active.contains_key(id) ==> r.contains(active[id]),
        0 <= i < r.len() ==> active.contains_key(r[i].id) && active[r[i].id] == r[i],
        0 < i < r.len() ==> r[i].id < r[i - 1].id,
        r.len() == active.dom().len(),
{
    if active.contains_key(id) {
        let k = choose|k: int| 0 <= k < r.len() && (#[trigger] r[k]).id == id;
        assert(r[k] == active[id]);
    }
}

/// A view begins with nothing: no lines, no figures, no flows, nobody.
pub proof fn a_view_begins_empty(host_name: Seq<char>)
    ensures
        LogView::empty().lines.len() == 0,
        LogView::empty().up == 0,
        ThroughputView::empty().tx_hist.len() == 0,
        ThroughputView::empty().rx_hist.len() == 0,
        ThroughputView::empty().counters.tx_bytes == 0,
        ThroughputView::empty().counters.rx_bytes == 0,
        ThroughputView::empty().tx_bps.bytes == 0,
        ThroughputView::empty().rx_bps.bytes == 0,
        FlowsView::empty().closed_count == 0,
        FlowsView::empty().total() == 0,
        GuestModelView::fresh().state is WaitingForLink,
        !GuestModelView::fresh().was_up,
        GuestModelView::fresh().fatal is None,
        HostModelView::fresh(host_name).host_name == host_name,
        HostModelView::fresh(host_name).guest is None,
        HostModelView::fresh(host_name).listening is None,
        HostModelView::fresh(host_name).fatal is None,
        HostModelView::fresh(host_name).active_flows_reported == 0,
{
}

/// States, kinds and protocols have their labels.
pub proof fn labels_say_what_it_is(state: GuestState, kind: LinkKind, p: Proto)
    ensures
        state is WaitingForLink ==> state_label(state) == "等待 Type-C 连接"@,
        state is Discovering ==> state_label(state) == "发现宿主机中"@,
        state is Connecting ==> state_label(state) == "正在连接"@,
        state is Connected ==> state_label(state) == "已连接"@,
        state is Disconnected ==> state_label(state) == "已断开"@,
        kind == LinkKind::ThunderboltBridge ==> kind_label(kind) == "雷电网桥"@,
        kind == LinkKind::Thunderbolt ==> kind_label(kind) == "雷电口"@,
        kind == LinkKind::UsbEthernet ==> kind_label(kind) == "USB 网卡"@,
        kind == LinkKind::Other ==> kind_label(kind) == "其他"@,
        p == Proto::Tcp ==> proto_text(p) == "TCP"@,
        p == Proto::Udp ==> proto_text(p) == "UDP"@,
{
}

} // verus!
