//! Physical link candidates (Thunderbolt bridge, Thunderbolt ports, USB
//! Ethernet adapters) the tunnel can run over.
//!
//! On macOS the hardware-port → device mapping comes from
//! `networksetup -listallhardwareports`, and `getifaddrs(3)` supplies the
//! up/running flags plus the `fe80::` link-local address. Other platforms get
//! a generic fallback that lists every up, non-loopback interface with a
//! link-local IPv6 address as [`LinkKind::Other`]; on macOS so is one that was
//! just plugged in and is no hardware port of the system's yet.

use crate::net::Ipv6Addr;
use crate::text;
use vstd::prelude::*;

verus! {

/// What kind of physical link an interface represents.
#[derive(Clone, Copy, Debug, PartialEq, Eq, Hash, PartialOrd, Ord, Structural)]
pub enum LinkKind {
    /// macOS "Thunderbolt Bridge" (`bridge0`) — the preferred link: it spans all
    /// Thunderbolt ports, so it does not matter which port the cable is in.
    ThunderboltBridge,
    /// An individual Thunderbolt/USB4 port (`en1`, `en2`, ...).
    Thunderbolt,
    /// USB Ethernet adapter / any "USB" or "Ethernet Adapter" hardware port.
    UsbEthernet,
    /// Anything else that could carry IPv6 link-local traffic.
    Other,
}

impl LinkKind {
    /// The place of the kind in the order of preference.
    pub open spec fn spec_rank(self) -> int {
        match self {
            LinkKind::ThunderboltBridge => 0,
            LinkKind::Thunderbolt => 1,
            LinkKind::UsbEthernet => 2,
            LinkKind::Other => 3,
        }
    }

    /// The place of the kind in the order of preference.
    pub fn rank(&self) -> (r: u8)
        ensures
            r == self.spec_rank(),
    {
        match self {
            LinkKind::ThunderboltBridge => 0,
            LinkKind::Thunderbolt => 1,
            LinkKind::UsbEthernet => 2,
            LinkKind::Other => 3,
        }
    }
}

/// A network interface that may carry the tunnel.
#[derive(Clone, Debug, PartialEq, Eq)]
pub struct LinkInterface {
    /// OS interface name (`bridge0`, `en1`, `eth0`, ...).
    pub name: String,
    /// Interface index (`if_nametoindex`). Use it as the `scope_id` of every
    /// link-local address and as the `IPV6_MULTICAST_IF`.
    pub index: u32,
    /// `IFF_UP && IFF_RUNNING`. **macOS quirk:** Thunderbolt ports report
    /// `RUNNING` even without a cable; treat `link_local_v6.is_some()` as the
    /// real "cable connected" signal and confirm with a discovery probe.
    pub is_up: bool,
    /// The interface's `fe80::/10` address, if it has one.
    pub link_local_v6: Option<Ipv6Addr>,
    /// Classification of the interface.
    pub kind: LinkKind,
}

/// An interface with its name as characters.
pub struct LinkView {
    pub name: Seq<char>,
    pub index: u32,
    pub is_up: bool,
    pub link_local_v6: Option<Ipv6Addr>,
    pub kind: LinkKind,
}

impl View for LinkInterface {
    type V = LinkView;

    open spec fn view(&self) -> LinkView {
        LinkView {
            name: self.name@,
            index: self.index,
            is_up: self.is_up,
            link_local_v6: self.link_local_v6,
            kind: self.kind,
        }
    }
}

/// A list of interfaces with their names as characters.
pub open spec fn views(list: Seq<LinkInterface>) -> Seq<LinkView> {
    list.map_values(|l: LinkInterface| l@)
}

impl LinkView {
    /// The interface is up and has a link-local IPv6 address.
    pub open spec fn ready(self) -> bool {
        self.is_up && self.link_local_v6 is Some
    }
}

impl LinkInterface {
    /// `true` when the interface is up and has a link-local IPv6 address, i.e.
    /// discovery/connection on it can be attempted right now.
    pub fn is_ready(&self) -> (r: bool)
        ensures
            r == self@.ready(),
    {
        self.is_up && self.link_local_v6.is_some()
    }

    /// The same interface once more.
    pub fn copy(&self) -> (r: Self)
        ensures
            r == *self,
    {
        LinkInterface {
            name: self.name.clone(),
            index: self.index,
            is_up: self.is_up,
            link_local_v6: self.link_local_v6,
            kind: self.kind,
        }
    }

    /// Whether two interfaces are the same in every respect.
    pub fn same_as(&self, other: &LinkInterface) -> (r: bool)
        ensures
            r == (self@ == other@),
    {
        let addresses: bool = match (&self.link_local_v6, &other.link_local_v6) {
            (Some(a), Some(b)) => *a == *b,
            (None, None) => true,
            _ => false,
        };
        addresses && text::same(self.name.as_str(), other.name.as_str()) && self.index
            == other.index && self.is_up == other.is_up && self.kind == other.kind
    }
}

/// The same list once more.
pub fn copy_links(list: &Vec<LinkInterface>) -> (r: Vec<LinkInterface>)
    ensures
        r@ == list@,
{
    let mut out: Vec<LinkInterface> = Vec::new();
    let mut i: usize = 0;
    while i < list.len()
        invariant
            i <= list@.len(),
            out@ == list@.take(i as int),
        decreases list@.len() - i,
    {
        out.push(list[i].copy());
        assert(list@.take(i + 1) =~= list@.take(i as int).push(list@[i as int]));
        i = i + 1;
    }
    assert(list@.take(i as int) =~= list@);
    out
}

/// Whether two lists hold the same interfaces in the same order.
pub fn same_links(a: &Vec<LinkInterface>, b: &Vec<LinkInterface>) -> (r: bool)
    ensures
        r == (views(a@) == views(b@)),
{
    if a.len() != b.len() {
        assert(views(a@).len() != views(b@).len());
        return false;
    }
    let mut i: usize = 0;
    while i < a.len()
        invariant
            a@.len() == b@.len(),
            i <= a@.len(),
            forall|k: int| 0 <= k < i ==> (#[trigger] a@[k])@ == b@[k]@,
        decreases a@.len() - i,
    {
        if !a[i].same_as(&b[i]) {
            assert(views(a@)[i as int] != views(b@)[i as int]);
            return false;
        }
        i = i + 1;
    }
    assert(views(a@) =~= views(b@));
    true
}

// Order of preference.

/// `a` comes before `b` in the dictionary, or is the same.
pub open spec fn dictionary(a: Seq<char>, b: Seq<char>) -> bool
    decreases a.len(),
{
    if a.len() == 0 {
        true
    } else if b.len() == 0 {
        false
    } else if a[0] != b[0] {
        a[0] < b[0]
    } else {
        dictionary(a.skip(1), b.skip(1))
    }
}

/// `a` is preferred to `b`, or stands on a par with it: by kind, and within a
/// kind by name.
pub open spec fn preferred(a: LinkView, b: LinkView) -> bool {
    if a.kind != b.kind {
        a.kind.spec_rank() < b.kind.spec_rank()
    } else {
        dictionary(a.name, b.name)
    }
}

fn in_dictionary(a: &[char], b: &[char]) -> (r: bool)
    ensures
        r == dictionary(a@, b@),
{
    let mut i: usize = 0;
    assert(a@.skip(0) =~= a@ && b@.skip(0) =~= b@);
    while i < a.len() && i < b.len()
        invariant
            i <= a@.len(),
            i <= b@.len(),
            dictionary(a@, b@) == dictionary(a@.skip(i as int), b@.skip(i as int)),
        decreases a@.len() - i,
    {
        if a[i] != b[i] {
            return a[i] < b[i];
        }
        assert(a@.skip(i as int).skip(1) =~= a@.skip(i + 1));
        assert(b@.skip(i as int).skip(1) =~= b@.skip(i + 1));
        i = i + 1;
    }
    i == a.len()
}

fn is_preferred(a: &LinkInterface, b: &LinkInterface) -> (r: bool)
    ensures
        r == preferred(a@, b@),
{
    if a.kind != b.kind {
        a.kind.rank() < b.kind.rank()
    } else {
        let x = text::chars(a.name.as_str());
        let y = text::chars(b.name.as_str());
        in_dictionary(x.as_slice(), y.as_slice())
    }
}

/// Where `x` goes in an ordered list: after everything that does not have to
/// come later.
pub open spec fn slot(s: Seq<LinkInterface>, x: LinkInterface) -> int
    decreases s.len(),
{
    if s.len() == 0 || preferred(s.last()@, x@) {
        s.len() as int
    } else {
        slot(s.drop_last(), x)
    }
}

/// The list in order of preference; interfaces on a par keep their order.
pub open spec fn ordered(s: Seq<LinkInterface>) -> Seq<LinkInterface>
    decreases s.len(),
{
    if s.len() == 0 {
        s
    } else {
        let front = ordered(s.drop_last());
        front.insert(slot(front, s.last()), s.last())
    }
}

/// Sorts by kind, and within a kind by name.
pub fn sort_links(list: Vec<LinkInterface>) -> (r: Vec<LinkInterface>)
    ensures
        r@ == ordered(list@),
{
    let ghost all = list@;
    let mut left = list;
    let mut out: Vec<LinkInterface> = Vec::new();
    let ghost mut done: int = 0;
    assert(all.take(0) =~= Seq::<LinkInterface>::empty());
    assert(all.skip(0) =~= all);
    while left.len() > 0
        invariant
            0 <= done <= all.len(),
            left@ == all.skip(done),
            out@ == ordered(all.take(done)),
        decreases left@.len(),
    {
        let x = left.remove(0);
        let ghost front = out@;
        let mut at: usize = out.len();
        assert(front.take(at as int) =~= front);
        while at > 0 && !is_preferred(&out[at - 1], &x)
            invariant
                at <= out@.len(),
                out@ == front,
                slot(front, x) == slot(front.take(at as int), x),
            decreases at,
        {
            assert(front.take(at as int).drop_last() =~= front.take(at - 1));
            at = at - 1;
        }
        assert(slot(front.take(at as int), x) == at) by {
            if at > 0 {
                assert(front.take(at as int).last() == front[at - 1]);
            }
        }
        out.insert(at, x);
        proof {
            assert(all.take(done + 1).drop_last() =~= all.take(done));
            assert(all.take(done + 1).last() == x);
            done = done + 1;
            assert(left@ =~= all.skip(done));
        }
    }
    assert(all.take(done) =~= all);
    out
}

proof fn dictionary_total(a: Seq<char>, b: Seq<char>)
    ensures
        dictionary(a, b) || dictionary(b, a),
    decreases a.len(),
{
    if a.len() > 0 && b.len() > 0 && a[0] == b[0] {
        dictionary_total(a.skip(1), b.skip(1));
    }
}

proof fn dictionary_chain(a: Seq<char>, b: Seq<char>, c: Seq<char>)
    requires
        dictionary(a, b),
        dictionary(b, c),
    ensures
        dictionary(a, c),
    decreases a.len(),
{
    if a.len() > 0 && b.len() > 0 && c.len() > 0 && a[0] == b[0] && b[0] == c[0] {
        dictionary_chain(a.skip(1), b.skip(1), c.skip(1));
    }
}

proof fn slot_splits(s: Seq<LinkInterface>, x: LinkInterface)
    requires
        forall|i: int, j: int|
            0 <= i < j < s.len() ==> preferred((#[trigger] s[i])@, (#[trigger] s[j])@),
    ensures
        0 <= slot(s, x) <= s.len(),
        forall|i: int| 0 <= i < slot(s, x) ==> preferred((#[trigger] s[i])@, x@),
        forall|i: int| slot(s, x) <= i < s.len() ==> preferred(x@, (#[trigger] s[i])@),
    decreases s.len(),
{
    if s.len() > 0 {
        if preferred(s.last()@, x@) {
            assert forall|i: int| 0 <= i < s.len() implies preferred((#[trigger] s[i])@, x@) by {
                if i < s.len() - 1 {
                    let l = s[s.len() - 1];
                    assert(preferred(s[i]@, l@));
                    if s[i]@.kind == l@.kind && l@.kind == x@.kind {
                        dictionary_chain(s[i]@.name, l@.name, x@.name);
                    }
                }
            }
        } else {
            let front = s.drop_last();
            assert forall|i: int, j: int| 0 <= i < j < front.len() implies preferred(
                (#[trigger] front[i])@,
                (#[trigger] front[j])@,
            ) by {
                assert(front[i] == s[i] && front[j] == s[j]);
            }
            slot_splits(front, x);
            dictionary_total(s.last()@.name, x@.name);
            assert forall|i: int| slot(s, x) <= i < s.len() implies preferred(
                x@,
                (#[trigger] s[i])@,
            ) by {
                if i < s.len() - 1 {
                    assert(front[i] == s[i]);
                }
            }
            assert forall|i: int| 0 <= i < slot(s, x) implies preferred((#[trigger] s[i])@, x@) by {
                assert(front[i] == s[i]);
            }
        }
    }
}

/// The list is in order of preference, the Thunderbolt bridge first, and holds
/// the same interfaces as before.
pub proof fn ordering_is_by_preference(s: Seq<LinkInterface>)
    ensures
        ordered(s).to_multiset() == s.to_multiset(),
        ordered(s).len() == s.len(),
        forall|i: int, j: int|
            0 <= i < j < s.len() ==> preferred(
                (#[trigger] ordered(s)[i])@,
                (#[trigger] ordered(s)[j])@,
            ),
    decreases s.len(),
{
    broadcast use vstd::seq_lib::group_to_multiset_ensures;

    if s.len() > 0 {
        let x = s.last();
        let front = ordered(s.drop_last());
        ordering_is_by_preference(s.drop_last());
        slot_splits(front, x);
        let at = slot(front, x);
        let all = ordered(s);
        assert(s.drop_last().push(x) =~= s);
        assert(all == front.insert(at, x));
        assert forall|i: int, j: int| 0 <= i < j < s.len() implies preferred(
            (#[trigger] all[i])@,
            (#[trigger] all[j])@,
        ) by {
            if i < at && j < at {
                assert(all[i] == front[i] && all[j] == front[j]);
            } else if i < at && j == at {
                assert(all[i] == front[i] && all[j] == x);
            } else if i < at {
                assert(all[i] == front[i] && all[j] == front[j - 1]);
            } else if i == at {
                assert(all[i] == x && all[j] == front[j - 1]);
            } else {
                assert(all[i] == front[i - 1] && all[j] == front[j - 1]);
            }
        }
    }
}

// Enumeration.

/// One `Hardware Port:` / `Device:` pair from `networksetup`.
#[derive(Debug, Clone, PartialEq, Eq)]
pub struct HardwarePort {
    pub port: String,
    pub device: String,
}

/// The port and the device of such a pair.
pub open spec fn port_views(list: Seq<HardwarePort>) -> Seq<(Seq<char>, Seq<char>)> {
    list.map_values(|p: HardwarePort| (p.port@, p.device@))
}

/// Where the reading of `networksetup` output stands: the pairs so far, and
/// the port that waits for its device.
pub struct PortState {
    pub out: Seq<(Seq<char>, Seq<char>)>,
    pub waiting: Option<Seq<char>>,
}

/// What a line does.
pub open spec fn port_step(st: PortState, raw: Seq<char>) -> PortState {
    let line = text::trimmed(raw);
    if text::without_prefix(line, "Hardware Port:"@) is Some {
        PortState {
            waiting: Some(text::trimmed(text::without_prefix(line, "Hardware Port:"@)->0)),
            ..st
        }
    } else if text::without_prefix(line, "Device:"@) is Some {
        let device = text::trimmed(text::without_prefix(line, "Device:"@)->0);
        PortState {
            out: if st.waiting is Some && device.len() > 0 {
                st.out.push((st.waiting->0, device))
            } else {
                st.out
            },
            waiting: None,
        }
    } else if line.len() == 0 {
        PortState { waiting: None, ..st }
    } else {
        st
    }
}

/// Where the reading stands after some lines.
pub open spec fn port_run(lines: Seq<Seq<char>>) -> PortState
    decreases lines.len(),
{
    if lines.len() == 0 {
        PortState { out: Seq::empty(), waiting: None }
    } else {
        port_step(port_run(lines.drop_last()), lines.last())
    }
}

/// The characters of a string that may be missing.
spec fn waiting_view(s: Option<String>) -> Option<Seq<char>> {
    match s {
        Some(t) => Some(t@),
        None => None,
    }
}

/// Parse the output of `networksetup -listallhardwareports`.
pub fn parse_hardware_ports(content: &str) -> (r: Vec<HardwarePort>)
    ensures
        port_views(r@) == port_run(text::lines_of(content@)).out,
{
    let c = text::chars(content);
    let lines = text::lines(c.as_slice());
    let ghost all = text::texts(lines@);
    let mut out: Vec<HardwarePort> = Vec::new();
    let mut waiting: Option<String> = None;
    let mut i: usize = 0;
    assert(all.take(0) =~= Seq::<Seq<char>>::empty());
    assert(port_views(out@) =~= Seq::<(Seq<char>, Seq<char>)>::empty());
    while i < lines.len()
        invariant
            all == text::texts(lines@),
            i <= lines@.len(),
            port_run(all.take(i as int)) == (PortState {
                out: port_views(out@),
                waiting: waiting_view(waiting),
            }),
        decreases lines@.len() - i,
    {
        let line = text::trim(lines[i]);
        proof {
            assert(all.take(i + 1).drop_last() =~= all.take(i as int));
            assert(all.take(i + 1).last() == lines@[i as int]@);
        }
        i = i + 1;
        if let Some(rest) = text::strip_prefix(line, "Hardware Port:") {
            waiting = Some(text::string(text::trim(rest)));
        } else if let Some(rest) = text::strip_prefix(line, "Device:") {
            let device = text::trim(rest);
            if let Some(port) = waiting {
                if device.len() > 0 {
                    let ghost before = out@;
                    out.push(HardwarePort { port, device: text::string(device) });
                    proof {
                        assert(port_views(out@) =~= port_views(before).push(
                            (out@.last().port@, out@.last().device@),
                        ));
                    }
                }
            }
            waiting = None;
        } else if line.len() == 0 {
            waiting = None;
        }
    }
    assert(all.take(i as int) =~= all);
    out
}

/// The kind of link behind a hardware port; `None` = not a candidate.
pub open spec fn kind_of_port(port: Seq<char>, device: Seq<char>) -> Option<LinkKind> {
    let lower = text::lowered(port);
    if lower == "thunderbolt bridge"@ || (text::holds(lower, "thunderbolt"@) && text::begins(
        device,
        "bridge"@,
    )) {
        Some(LinkKind::ThunderboltBridge)
    } else if text::begins(lower, "thunderbolt"@) {
        Some(LinkKind::Thunderbolt)
    } else if text::holds(lower, "usb"@) || text::holds(lower, "ethernet adapter"@) {
        Some(LinkKind::UsbEthernet)
    } else if text::holds(lower, "wi-fi"@) || text::holds(lower, "wifi"@) || text::holds(
        lower,
        "airport"@,
    ) || text::holds(lower, "bluetooth"@) || text::begins(device, "lo"@) || text::begins(
        device,
        "utun"@,
    ) || text::begins(device, "awdl"@) || text::begins(device, "llw"@) {
        None
    } else {
        Some(LinkKind::Other)
    }
}

/// Map a hardware-port name to a [`LinkKind`]; `None` = not a candidate
/// (Wi-Fi, Bluetooth PAN, ...).
pub fn classify(port: &str, device: &str) -> (r: Option<LinkKind>)
    ensures
        r == kind_of_port(port@, device@),
{
    let low = text::lower(text::chars(port).as_slice());
    let lower = low.as_slice();
    let dev = text::chars(device);
    let device = dev.as_slice();
    if text::is(lower, "thunderbolt bridge") || (text::contains(lower, "thunderbolt")
        && text::begins_with(device, "bridge")) {
        return Some(LinkKind::ThunderboltBridge);
    }
    if text::begins_with(lower, "thunderbolt") {
        return Some(LinkKind::Thunderbolt);
    }
    if text::contains(lower, "usb") || text::contains(lower, "ethernet adapter") {
        return Some(LinkKind::UsbEthernet);
    }
    if text::contains(lower, "wi-fi") || text::contains(lower, "wifi") || text::contains(
        lower,
        "airport",
    ) || text::contains(lower, "bluetooth") || text::begins_with(device, "lo") || text::begins_with(
        device,
        "utun",
    ) || text::begins_with(device, "awdl") || text::begins_with(device, "llw") {
        return None;
    }
    Some(LinkKind::Other)
}

/// One address entry of an interface, as `getifaddrs` lists it.
#[derive(Debug)]
pub struct IfEntry {
    pub name: String,
    pub up: bool,
    pub running: bool,
    pub is_loopback: bool,
    /// The address of the entry, if it is an IPv6 address.
    pub v6: Option<Ipv6Addr>,
}

/// Runtime address/flag state of one interface, aggregated over its
/// `getifaddrs` entries.
#[derive(Debug)]
pub struct IfState {
    pub name: String,
    pub index: u32,
    pub is_up: bool,
    pub is_loopback: bool,
    pub link_local_v6: Option<Ipv6Addr>,
}

/// An [`IfState`] without its name.
pub struct IfFacts {
    pub index: u32,
    pub is_up: bool,
    pub is_loopback: bool,
    pub link_local_v6: Option<Ipv6Addr>,
}

impl IfState {
    /// Everything but the name.
    pub open spec fn facts(self) -> IfFacts {
        IfFacts {
            index: self.index,
            is_up: self.is_up,
            is_loopback: self.is_loopback,
            link_local_v6: self.link_local_v6,
        }
    }
}

/// An address in `fe80::/10`.
pub open spec fn is_link_local(a: Ipv6Addr) -> bool {
    0xfe80 <= a.0 <= 0xfebf
}

/// What is known of the interface called `name` after some entries: the flags
/// of its last entry, and its first link-local address. The index is not
/// known yet.
pub open spec fn facts_of(entries: Seq<IfEntry>, name: Seq<char>) -> Option<IfFacts>
    decreases entries.len(),
{
    if entries.len() == 0 {
        None
    } else {
        let before = facts_of(entries.drop_last(), name);
        let e = entries.last();
        if e.name@ != name {
            before
        } else {
            let known = match before {
                Some(f) => f.link_local_v6,
                None => None,
            };
            Some(
                IfFacts {
                    index: 0,
                    is_up: e.up && e.running,
                    is_loopback: e.is_loopback,
                    link_local_v6: if known is Some {
                        known
                    } else {
                        match e.v6 {
                            Some(a) => if is_link_local(a) {
                                Some(a)
                            } else {
                                None
                            },
                            None => None,
                        }
                    },
                },
            )
        }
    }
}

/// The state listed first under `name`.
pub open spec fn state_named(states: Seq<IfState>, name: Seq<char>) -> Option<IfFacts>
    decreases states.len(),
{
    if states.len() == 0 {
        None
    } else if states[0].name@ == name {
        Some(states[0].facts())
    } else {
        state_named(states.skip(1), name)
    }
}

/// The states stand in the order of their names, and none twice.
pub open spec fn by_name(states: Seq<IfState>) -> bool {
    forall|i: int, j: int|
        0 <= i < j < states.len() ==> (#[trigger] states[i]).name@ != (#[trigger] states[j]).name@
            && dictionary(states[i].name@, states[j].name@)
}

/// The place of `name` among the states, if it is there.
fn find_state(states: &Vec<IfState>, name: &str) -> (r: Option<usize>)
    ensures
        match r {
            Some(i) => i < states@.len() && states@[i as int].name@ == name@ && state_named(
                states@,
                name@,
            ) == Some(states@[i as int].facts()),
            None => state_named(states@, name@) is None && forall|k: int|
                0 <= k < states@.len() ==> (#[trigger] states@[k]).name@ != name@,
        },
{
    let mut i: usize = 0;
    assert(states@.skip(0) =~= states@);
    while i < states.len()
        invariant
            i <= states@.len(),
            state_named(states@, name@) == state_named(states@.skip(i as int), name@),
            forall|k: int| 0 <= k < i ==> (#[trigger] states@[k]).name@ != name@,
        decreases states@.len() - i,
    {
        let ghost rest = states@.skip(i as int);
        assert(rest[0] == states@[i as int]);
        if text::same(states[i].name.as_str(), name) {
            return Some(i);
        }
        assert(rest.skip(1) =~= states@.skip(i + 1));
        i = i + 1;
    }
    None
}

proof fn unique_state(states: Seq<IfState>, i: int)
    requires
        by_name(states),
        0 <= i < states.len(),
    ensures
        state_named(states, states[i].name@) == Some(states[i].facts()),
    decreases states.len(),
{
    if i > 0 {
        assert(states[0].name@ != states[i].name@);
        let rest = states.skip(1);
        assert forall|a: int, b: int| 0 <= a < b < rest.len() implies (#[trigger] rest[a]).name@
            != (#[trigger] rest[b]).name@ && dictionary(rest[a].name@, rest[b].name@) by {
            assert(rest[a] == states[a + 1] && rest[b] == states[b + 1]);
        }
        assert(rest[i - 1] == states[i]);
        unique_state(rest, i - 1);
    }
}

proof fn other_state_kept(states: Seq<IfState>, k: int, st: IfState, name: Seq<char>)
    requires
        0 <= k < states.len(),
        states[k].name@ == st.name@,
        st.name@ != name,
    ensures
        state_named(states.update(k, st), name) == state_named(states, name),
    decreases states.len(),
{
    let changed = states.update(k, st);
    if k == 0 {
        assert(changed.skip(1) =~= states.skip(1));
    } else {
        assert(changed[0] == states[0]);
        assert(changed.skip(1) =~= states.skip(1).update(k - 1, st));
        assert(states.skip(1)[k - 1] == states[k]);
        other_state_kept(states.skip(1), k - 1, st, name);
    }
}

proof fn state_inserted(states: Seq<IfState>, at: int, st: IfState, name: Seq<char>)
    requires
        0 <= at <= states.len(),
        forall|k: int| 0 <= k < states.len() ==> (#[trigger] states[k]).name@ != st.name@,
    ensures
        state_named(states.insert(at, st), name) == if name == st.name@ {
            Some(st.facts())
        } else {
            state_named(states, name)
        },
    decreases at,
{
    let grown = states.insert(at, st);
    if at == 0 {
        assert(grown[0] == st);
        assert(grown.skip(1) =~= states);
    } else {
        let rest = states.skip(1);
        assert(grown[0] == states[0]);
        assert(states[0].name@ != st.name@);
        assert(grown.skip(1) =~= rest.insert(at - 1, st));
        assert forall|k: int| 0 <= k < rest.len() implies (#[trigger] rest[k]).name@ != st.name@ by {
            assert(rest[k] == states[k + 1]);
        }
        state_inserted(rest, at - 1, st, name);
    }
}

/// Puts the state of an interface in the place of what was known of it.
fn replace_state(states: &mut Vec<IfState>, k: usize, st: IfState)
    requires
        by_name(old(states)@),
        k < old(states)@.len(),
        old(states)@[k as int].name@ == st.name@,
    ensures
        by_name(final(states)@),
        forall|name: Seq<char>| #[trigger]
            state_named(final(states)@, name) == if name == st.name@ {
                Some(st.facts())
            } else {
                state_named(old(states)@, name)
            },
{
    let ghost before = states@;
    let ghost placed = st;
    states.set(k, st);
    proof {
        assert(states@ =~= before.update(k as int, placed));
        assert forall|a: int, b: int| 0 <= a < b < states@.len() implies (
        #[trigger] states@[a]).name@ != (#[trigger] states@[b]).name@ && dictionary(
            states@[a].name@,
            states@[b].name@,
        ) by {
            assert(before[a].name@ != before[b].name@);
        }
        assert forall|name: Seq<char>| #[trigger]
            state_named(states@, name) == if name == placed.name@ {
                Some(placed.facts())
            } else {
                state_named(before, name)
            } by {
            if name == placed.name@ {
                unique_state(states@, k as int);
            } else {
                other_state_kept(before, k as int, placed, name);
            }
        }
    }
}

/// Puts the state of an interface that was not known yet in its place.
fn add_state(states: &mut Vec<IfState>, st: IfState)
    requires
        by_name(old(states)@),
        forall|k: int| 0 <= k < old(states)@.len() ==> (#[trigger] old(states)@[k]).name@ != st.name@,
    ensures
        by_name(final(states)@),
        forall|name: Seq<char>| #[trigger]
            state_named(final(states)@, name) == if name == st.name@ {
                Some(st.facts())
            } else {
                state_named(old(states)@, name)
            },
{
    let ghost before = states@;
    let ghost placed = st;
    let new = text::chars(st.name.as_str());
    let mut at: usize = 0;
    let mut found: bool = false;
    while at < states.len() && !found
        invariant
            at <= states@.len(),
            states@ == before,
            new@ == placed.name@,
            forall|k: int| 0 <= k < at ==> dictionary((#[trigger] before[k]).name@, placed.name@),
            found ==> at < before.len() && !dictionary(before[at as int].name@, placed.name@),
        decreases states@.len() - at, if found { 0int } else { 1int },
    {
        let known = text::chars(states[at].name.as_str());
        if in_dictionary(known.as_slice(), new.as_slice()) {
            at = at + 1;
        } else {
            found = true;
        }
    }
    proof {
        assert forall|k: int| at <= k < before.len() implies dictionary(
            placed.name@,
            (#[trigger] before[k]).name@,
        ) by {
            dictionary_total(before[at as int].name@, placed.name@);
            if at < k {
                assert(before[at as int].name@ != before[k].name@);
                dictionary_chain(placed.name@, before[at as int].name@, before[k].name@);
            }
        }
    }
    states.insert(at, st);
    proof {
        assert(states@ =~= before.insert(at as int, placed));
        assert forall|a: int, b: int| 0 <= a < b < states@.len() implies (
        #[trigger] states@[a]).name@ != (#[trigger] states@[b]).name@ && dictionary(
            states@[a].name@,
            states@[b].name@,
        ) by {
            let x = if a < at { a } else { a - 1 };
            let y = if b < at { b } else { b - 1 };
            if a != at && b != at {
                assert(before[x].name@ != before[y].name@);
            } else if a == at {
                assert(before[y].name@ != placed.name@);
            } else {
                assert(before[x].name@ != placed.name@);
            }
        }
        assert forall|name: Seq<char>| #[trigger]
            state_named(states@, name) == if name == placed.name@ {
                Some(placed.facts())
            } else {
                state_named(before, name)
            } by {
            state_inserted(before, at as int, placed, name);
        }
    }
}

/// Aggregate the entries of `getifaddrs` per interface name.
pub fn collect(entries: &Vec<IfEntry>) -> (r: Vec<IfState>)
    ensures
        by_name(r@),
        forall|name: Seq<char>| #[trigger] state_named(r@, name) == facts_of(entries@, name),
{
    let mut out: Vec<IfState> = Vec::new();
    let mut i: usize = 0;
    assert(entries@.take(0) =~= Seq::<IfEntry>::empty());
    while i < entries.len()
        invariant
            i <= entries@.len(),
            by_name(out@),
            forall|name: Seq<char>| #[trigger]
                state_named(out@, name) == facts_of(entries@.take(i as int), name),
        decreases entries@.len() - i,
    {
        let e = &entries[i];
        let ghost before = out@;
        let ghost sofar = entries@.take(i as int);
        let ghost next = entries@.take(i + 1);
        assert(next.drop_last() =~= sofar);
        assert(next.last() == *e);
        assert(state_named(before, e.name@) == facts_of(sofar, e.name@));
        let address: Option<Ipv6Addr> = match e.v6 {
            Some(a) => if 0xfe80 <= a.0 && a.0 <= 0xfebf {
                Some(a)
            } else {
                None
            },
            None => None,
        };
        let at = find_state(&out, e.name.as_str());
        let known: Option<Ipv6Addr> = match at {
            Some(k) => out[k].link_local_v6,
            None => None,
        };
        let st = IfState {
            name: e.name.clone(),
            index: 0,
            is_up: e.up && e.running,
            is_loopback: e.is_loopback,
            link_local_v6: match known {
                Some(a) => Some(a),
                None => address,
            },
        };
        match at {
            Some(k) => replace_state(&mut out, k, st),
            None => add_state(&mut out, st),
        }
        assert forall|name: Seq<char>| #[trigger]
            state_named(out@, name) == facts_of(next, name) by {
            assert(state_named(before, name) == facts_of(sofar, name));
        }
        i = i + 1;
    }
    assert(entries@.take(i as int) =~= entries@);
    out
}

/// The candidate that a hardware port makes: none if the port is of no such
/// kind or a loopback; down and without an index if the system does not list
/// its device.
pub open spec fn candidate(
    port: (Seq<char>, Seq<char>),
    states: Seq<IfState>,
) -> Option<LinkView> {
    let st = match state_named(states, port.1) {
        Some(f) => f,
        None => IfFacts { index: 0, is_up: false, is_loopback: false, link_local_v6: None },
    };
    match kind_of_port(port.0, port.1) {
        Some(kind) => if st.is_loopback {
            None
        } else {
            Some(
                LinkView {
                    name: port.1,
                    index: st.index,
                    is_up: st.is_up,
                    link_local_v6: st.link_local_v6,
                    kind,
                },
            )
        },
        None => None,
    }
}

/// The candidates that hardware ports make, in order.
pub open spec fn candidates(
    ports: Seq<(Seq<char>, Seq<char>)>,
    states: Seq<IfState>,
) -> Seq<LinkView>
    decreases ports.len(),
{
    if ports.len() == 0 {
        Seq::empty()
    } else {
        let before = candidates(ports.drop_last(), states);
        match candidate(ports.last(), states) {
            Some(l) => before.push(l),
            None => before,
        }
    }
}

/// Joins hardware ports with the state of their devices.
pub fn merge(ports: &Vec<HardwarePort>, states: &Vec<IfState>) -> (r: Vec<LinkInterface>)
    ensures
        views(r@) == candidates(port_views(ports@), states@),
{
    let mut out: Vec<LinkInterface> = Vec::new();
    let ghost all = port_views(ports@);
    let mut i: usize = 0;
    assert(all.take(0) =~= Seq::<(Seq<char>, Seq<char>)>::empty());
    assert(views(out@) =~= Seq::<LinkView>::empty());
    while i < ports.len()
        invariant
            all == port_views(ports@),
            i <= ports@.len(),
            views(out@) == candidates(all.take(i as int), states@),
        decreases ports@.len() - i,
    {
        let hp = &ports[i];
        let ghost before = out@;
        proof {
            assert(all.take(i + 1).drop_last() =~= all.take(i as int));
            assert(all.take(i + 1).last() == (hp.port@, hp.device@));
        }
        i = i + 1;
        let kind = match classify(hp.port.as_str(), hp.device.as_str()) {
            Some(k) => k,
            None => continue,
        };
        // Interfaces listed by networksetup but absent from getifaddrs (e.g.
        // bridge0 while the Thunderbolt Bridge service is disabled) are
        // reported as down with index 0 so the UI can still show them.
        let link = match find_state(states, hp.device.as_str()) {
            Some(k) => {
                if states[k].is_loopback {
                    continue;
                }
                LinkInterface {
                    name: hp.device.clone(),
                    index: states[k].index,
                    is_up: states[k].is_up,
                    link_local_v6: states[k].link_local_v6,
                    kind,
                }
            },
            None => LinkInterface {
                name: hp.device.clone(),
                index: 0,
                is_up: false,
                link_local_v6: None,
                kind,
            },
        };
        let ghost v = link@;
        out.push(link);
        assert(views(out@) =~= views(before).push(v));
    }
    assert(all.take(i as int) =~= all);
    out
}

/// One address entry of an interface, as Windows lists it.
#[derive(Debug)]
pub struct WinEntry {
    pub name: String,
    /// Index of the interface; never 0.
    pub index: Option<u32>,
    pub up: bool,
    pub is_loopback: bool,
    /// The address of the entry, if it is an IPv6 address.
    pub v6: Option<Ipv6Addr>,
}

/// The address if it is link-local.
pub open spec fn link_local(v6: Option<Ipv6Addr>) -> Option<Ipv6Addr> {
    match v6 {
        Some(a) => if is_link_local(a) {
            Some(a)
        } else {
            None
        },
        None => None,
    }
}

/// What is known of the interface called `name` after some entries of Windows:
/// index and state of its first entry, and its first link-local address.
/// Loopback interfaces and entries without an index do not count.
pub open spec fn windows_facts(entries: Seq<WinEntry>, name: Seq<char>) -> Option<IfFacts>
    decreases entries.len(),
{
    if entries.len() == 0 {
        None
    } else {
        let before = windows_facts(entries.drop_last(), name);
        let e = entries.last();
        if e.name@ != name || e.is_loopback || e.index is None {
            before
        } else {
            match before {
                None => Some(
                    IfFacts {
                        index: e.index->0,
                        is_up: e.up,
                        is_loopback: false,
                        link_local_v6: link_local(e.v6),
                    },
                ),
                Some(f) => Some(
                    IfFacts {
                        link_local_v6: if f.link_local_v6 is Some {
                            f.link_local_v6
                        } else {
                            link_local(e.v6)
                        },
                        ..f
                    },
                ),
            }
        }
    }
}

/// Aggregate the entries of Windows per interface name.
pub fn collect_windows(entries: &Vec<WinEntry>) -> (r: Vec<IfState>)
    ensures
        by_name(r@),
        forall|name: Seq<char>| #[trigger] state_named(r@, name) == windows_facts(entries@, name),
{
    let mut out: Vec<IfState> = Vec::new();
    let mut i: usize = 0;
    assert(entries@.take(0) =~= Seq::<WinEntry>::empty());
    while i < entries.len()
        invariant
            i <= entries@.len(),
            by_name(out@),
            forall|name: Seq<char>| #[trigger]
                state_named(out@, name) == windows_facts(entries@.take(i as int), name),
        decreases entries@.len() - i,
    {
        let e = &entries[i];
        let ghost before = out@;
        let ghost sofar = entries@.take(i as int);
        let ghost next = entries@.take(i + 1);
        assert(next.drop_last() =~= sofar);
        assert(next.last() == *e);
        assert(state_named(before, e.name@) == windows_facts(sofar, e.name@));
        let address: Option<Ipv6Addr> = match e.v6 {
            Some(a) => if 0xfe80 <= a.0 && a.0 <= 0xfebf {
                Some(a)
            } else {
                None
            },
            None => None,
        };
        let index: Option<u32> = if e.is_loopback {
            None
        } else {
            e.index
        };
        match (index, find_state(&out, e.name.as_str())) {
            (None, _) => {},
            (Some(_), Some(k)) => {
                let st = IfState {
                    name: e.name.clone(),
                    index: out[k].index,
                    is_up: out[k].is_up,
                    is_loopback: out[k].is_loopback,
                    link_local_v6: match out[k].link_local_v6 {
                        Some(a) => Some(a),
                        None => address,
                    },
                };
                replace_state(&mut out, k, st);
            },
            (Some(index), None) => {
                let st = IfState {
                    name: e.name.clone(),
                    index,
                    is_up: e.up,
                    is_loopback: false,
                    link_local_v6: address,
                };
                add_state(&mut out, st);
            },
        }
        assert forall|name: Seq<char>| #[trigger]
            state_named(out@, name) == windows_facts(next, name) by {
            assert(state_named(before, name) == windows_facts(sofar, name));
        }
        i = i + 1;
    }
    assert(entries@.take(i as int) =~= entries@);
    out
}

/// The candidate that an interface makes where nothing is known of hardware
/// ports: it must be up, no loopback, and have a link-local address and an
/// index.
pub open spec fn generic_candidate(st: IfState) -> Option<LinkView> {
    if !st.is_loopback && st.is_up && st.link_local_v6 is Some && st.index != 0 {
        Some(
            LinkView {
                name: st.name@,
                index: st.index,
                is_up: st.is_up,
                link_local_v6: st.link_local_v6,
                kind: LinkKind::Other,
            },
        )
    } else {
        None
    }
}

/// The candidates among some interfaces, in order.
pub open spec fn generic_candidates(states: Seq<IfState>) -> Seq<LinkView>
    decreases states.len(),
{
    if states.len() == 0 {
        Seq::empty()
    } else {
        let before = generic_candidates(states.drop_last());
        match generic_candidate(states.last()) {
            Some(l) => before.push(l),
            None => before,
        }
    }
}

/// Fallback used where no hardware-port information exists: every up,
/// non-loopback interface that has a link-local IPv6 address, as `Other`.
pub fn generic_from_state(states: &Vec<IfState>) -> (r: Vec<LinkInterface>)
    ensures
        views(r@) == generic_candidates(states@),
{
    let mut out: Vec<LinkInterface> = Vec::new();
    let mut i: usize = 0;
    assert(states@.take(0) =~= Seq::<IfState>::empty());
    assert(views(out@) =~= Seq::<LinkView>::empty());
    while i < states.len()
        invariant
            i <= states@.len(),
            views(out@) == generic_candidates(states@.take(i as int)),
        decreases states@.len() - i,
    {
        let st = &states[i];
        let ghost before = out@;
        proof {
            assert(states@.take(i + 1).drop_last() =~= states@.take(i as int));
            assert(states@.take(i + 1).last() == *st);
        }
        if !st.is_loopback && st.is_up && st.link_local_v6.is_some() && st.index != 0 {
            let link = LinkInterface {
                name: st.name.clone(),
                index: st.index,
                is_up: st.is_up,
                link_local_v6: st.link_local_v6,
                kind: LinkKind::Other,
            };
            let ghost v = link@;
            out.push(link);
            assert(views(out@) =~= views(before).push(v));
        }
        i = i + 1;
    }
    assert(states@.take(i as int) =~= states@);
    out
}

/// Whether the system lists a device as one of its hardware ports.
pub open spec fn listed(ports: Seq<(Seq<char>, Seq<char>)>, name: Seq<char>) -> bool {
    exists|i: int| 0 <= i < ports.len() && (#[trigger] ports[i]).1 == name
}

/// The candidate that an interface makes which the system does not list as a
/// hardware port, or not yet: one that would do without hardware-port
/// information, unless its name says that it carries no cable.
pub open spec fn plugged_candidate(ports: Seq<(Seq<char>, Seq<char>)>, st: IfState) -> Option<
    LinkView,
> {
    if !listed(ports, st.name@) && kind_of_port(Seq::empty(), st.name@) is Some {
        generic_candidate(st)
    } else {
        None
    }
}

/// The unlisted candidates among some interfaces, in order.
pub open spec fn plugged_candidates(
    ports: Seq<(Seq<char>, Seq<char>)>,
    states: Seq<IfState>,
) -> Seq<LinkView>
    decreases states.len(),
{
    if states.len() == 0 {
        Seq::empty()
    } else {
        let before = plugged_candidates(ports, states.drop_last());
        match plugged_candidate(ports, states.last()) {
            Some(l) => before.push(l),
            None => before,
        }
    }
}

fn is_listed(ports: &Vec<HardwarePort>, name: &str) -> (r: bool)
    ensures
        r == listed(port_views(ports@), name@),
{
    let mut i: usize = 0;
    while i < ports.len()
        invariant
            i <= ports@.len(),
            forall|k: int| 0 <= k < i ==> (#[trigger] port_views(ports@)[k]).1 != name@,
        decreases ports@.len() - i,
    {
        assert(port_views(ports@)[i as int].1 == ports@[i as int].device@);
        if text::same(ports[i].device.as_str(), name) {
            return true;
        }
        i = i + 1;
    }
    false
}

/// Interfaces that were plugged in and are no hardware ports of the system's,
/// or not yet, as `Other`.
fn plugged_in(ports: &Vec<HardwarePort>, states: &Vec<IfState>) -> (r: Vec<LinkInterface>)
    ensures
        views(r@) == plugged_candidates(port_views(ports@), states@),
{
    let mut out: Vec<LinkInterface> = Vec::new();
    let mut i: usize = 0;
    let ghost p = port_views(ports@);
    assert(states@.take(0) =~= Seq::<IfState>::empty());
    assert(views(out@) =~= Seq::<LinkView>::empty());
    while i < states.len()
        invariant
            p == port_views(ports@),
            i <= states@.len(),
            views(out@) == plugged_candidates(p, states@.take(i as int)),
        decreases states@.len() - i,
    {
        let st = &states[i];
        let ghost before = out@;
        proof {
            assert(states@.take(i + 1).drop_last() =~= states@.take(i as int));
            assert(states@.take(i + 1).last() == *st);
            reveal_strlit("");
            assert(""@ =~= Seq::<char>::empty());
        }
        let could: bool = !st.is_loopback && st.is_up && st.link_local_v6.is_some() && st.index
            != 0;
        if could && !is_listed(ports, st.name.as_str()) && classify(
            "",
            st.name.as_str(),
        ).is_some() {
            let link = LinkInterface {
                name: st.name.clone(),
                index: st.index,
                is_up: st.is_up,
                link_local_v6: st.link_local_v6,
                kind: LinkKind::Other,
            };
            let ghost v = link@;
            out.push(link);
            assert(views(out@) =~= views(before).push(v));
        }
        i = i + 1;
    }
    assert(states@.take(i as int) =~= states@);
    out
}

/// The candidates, from what is known of hardware ports, where anything is,
/// and of interfaces.
pub open spec fn all_candidates(
    ports: Option<Seq<(Seq<char>, Seq<char>)>>,
    states: Seq<IfState>,
) -> Seq<LinkView> {
    match ports {
        Some(p) => candidates(p, states) + plugged_candidates(p, states),
        None => generic_candidates(states),
    }
}

/// The hardware ports, where any are known.
pub open spec fn known_ports(ports: Option<&Vec<HardwarePort>>) -> Option<
    Seq<(Seq<char>, Seq<char>)>,
> {
    match ports {
        Some(p) => Some(port_views(p@)),
        None => None,
    }
}

/// List candidate interfaces ordered by preference: [`LinkKind::ThunderboltBridge`]
/// first, then [`LinkKind::Thunderbolt`], [`LinkKind::UsbEthernet`], and
/// finally [`LinkKind::Other`]; interfaces of equal kind are sorted by name.
/// `ports` is what is known of hardware ports, where anything is; an interface
/// that was just plugged in need not be among them.
///
/// Interfaces are returned even when they are down or lack a link-local
/// address so callers can wait for a cable to be plugged in; check
/// [`LinkInterface::is_ready`] before using one.
pub fn list_candidate_interfaces(
    ports: Option<&Vec<HardwarePort>>,
    states: &Vec<IfState>,
) -> (r: Vec<LinkInterface>)
    ensures
        exists|found: Seq<LinkInterface>|
            r@ == ordered(found) && #[trigger] views(found) == all_candidates(
                known_ports(ports),
                states@,
            ),
{
    let found = match ports {
        Some(p) => {
            let mut all = merge(p, states);
            let mut more = plugged_in(p, states);
            let ghost (a, b) = (all@, more@);
            all.append(&mut more);
            assert(views(all@) =~= views(a) + views(b));
            all
        },
        None => generic_from_state(states),
    };
    assert(views(found@) == all_candidates(known_ports(ports), states@));
    sort_links(found)
}

/// An interface that was plugged in is listed, whether the system knows it as
/// a hardware port or not, unless its name says that it carries no cable.
pub proof fn a_plugged_interface_is_a_candidate(
    ports: Seq<(Seq<char>, Seq<char>)>,
    states: Seq<IfState>,
    i: int,
)
    requires
        0 <= i < states.len(),
        !listed(ports, states[i].name@),
        kind_of_port(Seq::empty(), states[i].name@) is Some,
        generic_candidate(states[i]) is Some,
    ensures
        all_candidates(Some(ports), states).contains(generic_candidate(states[i])->0),
{
    plugged_stays(ports, states, i);
    let more = plugged_candidates(ports, states);
    let known = candidates(ports, states);
    let l = generic_candidate(states[i])->0;
    let k = choose|k: int| 0 <= k < more.len() && more[k] == l;
    assert((known + more)[known.len() + k] == l);
}

proof fn plugged_stays(ports: Seq<(Seq<char>, Seq<char>)>, states: Seq<IfState>, i: int)
    requires
        0 <= i < states.len(),
        plugged_candidate(ports, states[i]) is Some,
    ensures
        plugged_candidates(ports, states).contains(plugged_candidate(ports, states[i])->0),
    decreases states.len(),
{
    let l = plugged_candidate(ports, states[i])->0;
    let all = plugged_candidates(ports, states);
    if i == states.len() - 1 {
        assert(all.last() == l);
    } else {
        let front = plugged_candidates(ports, states.drop_last());
        plugged_stays(ports, states.drop_last(), i);
        let k = choose|k: int| 0 <= k < front.len() && front[k] == l;
        assert(all[k] == l);
    }
}

/// A candidate without hardware-port information is always ready.
pub proof fn generic_candidates_are_ready(states: Seq<IfState>)
    ensures
        forall|i: int|
            0 <= i < generic_candidates(states).len() ==> (#[trigger] generic_candidates(
                states,
            )[i]).ready(),
    decreases states.len(),
{
    if states.len() > 0 {
        let front = generic_candidates(states.drop_last());
        generic_candidates_are_ready(states.drop_last());
        assert forall|i: int| 0 <= i < generic_candidates(states).len() implies (
        #[trigger] generic_candidates(states)[i]).ready() by {
            if i < front.len() {
                assert(front[i].ready());
            }
        }
    }
}

// What the rules say.

/// Interfaces look the same exactly when all that is known of them is the same,
/// and one is ready when it is up and has a link-local address.
pub proof fn interfaces_are_what_is_known_of_them(a: LinkInterface, b: LinkInterface)
    ensures
        a@ == b@ <==> {
            &&& a.name@ == b.name@
            &&& a.index == b.index
            &&& a.is_up == b.is_up
            &&& a.link_local_v6 == b.link_local_v6
            &&& a.kind == b.kind
        },
        a@.ready() <==> a.is_up && a.link_local_v6 is Some,
{
}

/// Addresses of fe80::/10 are link-local, and no others.
pub proof fn link_local_addresses(a: Ipv6Addr, v6: Option<Ipv6Addr>)
    ensures
        is_link_local(a) <==> a.0 / 64 == 0xfe80u16 / 64,
        v6 matches Some(x) && is_link_local(x) ==> link_local(v6) == v6,
        link_local(v6) is Some <==> (v6 matches Some(x) && is_link_local(x)),
{
}

/// A dictionary goes by the first letter that differs, and a shorter word stands
/// before what continues it.
pub proof fn the_first_difference_decides(
    p: Seq<char>,
    a: Seq<char>,
    b: Seq<char>,
    c: char,
    d: char,
)
    ensures
        dictionary(p, p + a),
        a.len() > 0 ==> !dictionary(p + a, p),
        c < d ==> dictionary(p.push(c) + a, p.push(d) + b) && !dictionary(
            p.push(d) + b,
            p.push(c) + a,
        ),
    decreases p.len(),
{
    if p.len() == 0 {
        assert(p + a =~= a);
    } else {
        let r = p.skip(1);
        the_first_difference_decides(r, a, b, c, d);
        assert((p + a).skip(1) =~= r + a);
        assert((p.push(c) + a).skip(1) =~= r.push(c) + a);
        assert((p.push(d) + b).skip(1) =~= r.push(d) + b);
        assert((p + a)[0] == p[0]);
        assert((p.push(c) + a)[0] == p[0]);
        assert((p.push(d) + b)[0] == p[0]);
    }
}

/// A bridge over Thunderbolt is preferred to plain Thunderbolt, that to
/// Ethernet over USB, and that to anything else; within a kind the names
/// decide.
pub proof fn kinds_are_preferred(a: LinkView, b: LinkView)
    ensures
        a.kind == LinkKind::ThunderboltBridge && b.kind != LinkKind::ThunderboltBridge ==> preferred(
            a,
            b,
        ) && !preferred(b, a),
        a.kind == LinkKind::Thunderbolt && (b.kind == LinkKind::UsbEthernet || b.kind
            == LinkKind::Other) ==> preferred(a, b) && !preferred(b, a),
        a.kind == LinkKind::UsbEthernet && b.kind == LinkKind::Other ==> preferred(a, b)
            && !preferred(b, a),
        a.kind == b.kind ==> (preferred(a, b) <==> dictionary(a.name, b.name)),
{
}

/// What kind of link a port is, by its name in any case and by its device.
pub proof fn ports_are_known_by_their_names(port: Seq<char>, device: Seq<char>)
    ensures
        ({
            let p = text::lowered(port);
            let k = kind_of_port(port, device);
            let bridge = p == "thunderbolt bridge"@ || (text::holds(p, "thunderbolt"@)
                && text::begins(device, "bridge"@));
            let thunderbolt = text::begins(p, "thunderbolt"@);
            let usb = text::holds(p, "usb"@) || text::holds(p, "ethernet adapter"@);
            let wireless = text::holds(p, "wi-fi"@) || text::holds(p, "wifi"@) || text::holds(
                p,
                "airport"@,
            ) || text::holds(p, "bluetooth"@);
            let internal = text::begins(device, "lo"@) || text::begins(device, "utun"@)
                || text::begins(device, "awdl"@) || text::begins(device, "llw"@);
            &&& k == Some(LinkKind::ThunderboltBridge) <==> bridge
            &&& k == Some(LinkKind::Thunderbolt) <==> thunderbolt && !bridge
            &&& k == Some(LinkKind::UsbEthernet) <==> usb && !thunderbolt && !bridge
            &&& k is None <==> (wireless || internal) && !usb && !thunderbolt && !bridge
            &&& k == Some(LinkKind::Other) <==> !wireless && !internal && !usb && !thunderbolt
                && !bridge
        }),
{
}

/// A port is listed when its name line is followed by its device line, whatever
/// stands between them but a blank line.
pub proof fn a_port_has_a_name_and_a_device(
    st: PortState,
    raw: Seq<char>,
    name: Seq<char>,
    device: Seq<char>,
)
    ensures
        text::trimmed(raw) == "Hardware Port:"@ + name ==> port_step(st, raw) == (PortState {
            out: st.out,
            waiting: Some(text::trimmed(name)),
        }),
        text::trimmed(raw) == "Device:"@ + device ==> {
            let r = port_step(st, raw);
            &&& r.waiting is None
            &&& text::trimmed(device).len() > 0 && st.waiting is Some ==> r.out == st.out.push(
                (st.waiting->0, text::trimmed(device)),
            )
            &&& text::trimmed(device).len() == 0 || st.waiting is None ==> r.out == st.out
        },
        text::trimmed(raw).len() == 0 ==> port_step(st, raw) == (PortState {
            out: st.out,
            waiting: None,
        }),
        text::trimmed(raw).len() > 0 && !text::begins(text::trimmed(raw), "Hardware Port:"@)
            && !text::begins(text::trimmed(raw), "Device:"@) ==> port_step(st, raw) == st,
{
    let line = text::trimmed(raw);
    text::a_prefix_comes_off("Hardware Port:"@, name, line);
    text::a_prefix_comes_off("Device:"@, device, line);
    reveal_strlit("Hardware Port:");
    reveal_strlit("Device:");
    if text::begins(line, "Hardware Port:"@) {
        assert(line.take("Hardware Port:"@.len() as int)[0] == line[0]);
    }
    if text::begins(line, "Device:"@) {
        assert(line.take("Device:"@.len() as int)[0] == line[0]);
    }
}

/// Of an interface with several entries the last says whether it is up and
/// whether it is the loopback.
pub proof fn the_last_entry_has_the_flags(entries: Seq<IfEntry>, name: Seq<char>, i: int)
    requires
        0 <= i < entries.len(),
        entries[i].name@ == name,
        forall|k: int| i < k < entries.len() ==> (#[trigger] entries[k]).name@ != name,
    ensures
        facts_of(entries, name) matches Some(f) && f.is_up == (entries[i].up && entries[i].running)
            && f.is_loopback == entries[i].is_loopback && f.index == 0,
    decreases entries.len(),
{
    let front = entries.drop_last();
    if i < front.len() {
        assert(entries[entries.len() - 1].name@ != name);
        assert(front[i] == entries[i]);
        assert forall|k: int| i < k < front.len() implies (#[trigger] front[k]).name@ != name by {
            assert(front[k] == entries[k]);
        }
        the_last_entry_has_the_flags(front, name, i);
    }
}

/// Its link-local address is the first of its entries that is one, and it has
/// none where no entry is one. What has no entry is not known.
pub proof fn the_first_link_local_address_counts(
    entries: Seq<IfEntry>,
    name: Seq<char>,
    i: int,
)
    ensures
        facts_of(entries, name) is Some <==> exists|k: int|
            0 <= k < entries.len() && (#[trigger] entries[k]).name@ == name,
        facts_of(entries, name) matches Some(f) ==> {
            &&& 0 <= i < entries.len() && entries[i].name@ == name && link_local(
                entries[i].v6,
            ) is Some && (forall|k: int|
                0 <= k < i && (#[trigger] entries[k]).name@ == name ==> link_local(
                    entries[k].v6,
                ) is None) ==> f.link_local_v6 == entries[i].v6
            &&& (forall|k: int|
                0 <= k < entries.len() && (#[trigger] entries[k]).name@ == name ==> link_local(
                    entries[k].v6,
                ) is None) ==> f.link_local_v6 is None
        },
    decreases entries.len(),
{
    if entries.len() > 0 {
        let front = entries.drop_last();
        the_first_link_local_address_counts(front, name, i);
        assert(forall|k: int| 0 <= k < front.len() ==> #[trigger] front[k] == entries[k]);
        let n = entries.len() - 1;
        assert(entries[n] == entries.last());
        if facts_of(front, name) is Some {
            let k = choose|k: int| 0 <= k < front.len() && (#[trigger] front[k]).name@ == name;
            assert(entries[k].name@ == name);
        }
        if i == n && (forall|k: int|
            0 <= k < i && (#[trigger] entries[k]).name@ == name ==> link_local(
                entries[k].v6,
            ) is None) {
            assert forall|k: int|
                0 <= k < front.len() && (#[trigger] front[k]).name@ == name implies link_local(
                front[k].v6,
            ) is None by {
                assert(front[k] == entries[k]);
            }
        }
        if facts_of(entries, name) is Some && facts_of(front, name) is None {
            assert forall|k: int| 0 <= k < n implies (#[trigger] entries[k]).name@ != name by {
                assert(front[k] == entries[k]);
            }
        }
        if exists|k: int| 0 <= k < entries.len() && (#[trigger] entries[k]).name@ == name {
            let k = choose|k: int| 0 <= k < entries.len() && (#[trigger] entries[k]).name@ == name;
            if k < n {
                assert(front[k] == entries[k]);
            }
        }
    }
}

/// On Windows the first entry of an interface that is no loopback and has an
/// index gives the index and says whether it is up.
pub proof fn the_first_windows_entry_counts(entries: Seq<WinEntry>, name: Seq<char>, i: int)
    requires
        0 <= i < entries.len(),
        entries[i].name@ == name,
        !entries[i].is_loopback,
        entries[i].index is Some,
        forall|k: int|
            0 <= k < i ==> (#[trigger] entries[k]).name@ != name || entries[k].is_loopback
                || entries[k].index is None,
    ensures
        windows_facts(entries, name) matches Some(f) && Some(f.index) == entries[i].index && f.is_up
            == entries[i].up && !f.is_loopback && (link_local(entries[i].v6) is Some
            ==> f.link_local_v6 == entries[i].v6),
    decreases entries.len(),
{
    let front = entries.drop_last();
    if i < front.len() {
        assert(front[i] == entries[i]);
        assert forall|k: int| 0 <= k < i implies (#[trigger] front[k]).name@ != name
            || front[k].is_loopback || front[k].index is None by {
            assert(front[k] == entries[k]);
        }
        the_first_windows_entry_counts(front, name, i);
    } else {
        assert forall|k: int| 0 <= k < front.len() implies (#[trigger] front[k]).name@ != name
            || front[k].is_loopback || front[k].index is None by {
            assert(front[k] == entries[k]);
        }
        no_windows_entry(front, name);
    }
}

proof fn no_windows_entry(entries: Seq<WinEntry>, name: Seq<char>)
    requires
        forall|k: int|
            0 <= k < entries.len() ==> (#[trigger] entries[k]).name@ != name
                || entries[k].is_loopback || entries[k].index is None,
    ensures
        windows_facts(entries, name) is None,
    decreases entries.len(),
{
    if entries.len() > 0 {
        let front = entries.drop_last();
        assert forall|k: int| 0 <= k < front.len() implies (#[trigger] front[k]).name@ != name
            || front[k].is_loopback || front[k].index is None by {
            assert(front[k] == entries[k]);
        }
        assert(entries[entries.len() - 1] == entries.last());
        no_windows_entry(front, name);
    }
}

/// An address that only a later entry has is taken up.
pub proof fn a_later_windows_address_is_taken(entries: Seq<WinEntry>, e: WinEntry)
    requires
        !e.is_loopback,
        e.index is Some,
        windows_facts(entries, e.name@) is Some,
    ensures
        windows_facts(entries.push(e), e.name@) matches Some(f) && {
            let before = windows_facts(entries, e.name@)->0;
            &&& before.link_local_v6 is None ==> f.link_local_v6 == link_local(e.v6)
            &&& before.link_local_v6 is Some ==> f.link_local_v6 == before.link_local_v6
            &&& f.index == before.index
            &&& f.is_up == before.is_up
        },
{
    assert(entries.push(e).drop_last() =~= entries);
}

/// The loopback and what has no index are not known on Windows.
pub proof fn loopbacks_are_left_out(entries: Seq<WinEntry>, e: WinEntry, name: Seq<char>)
    requires
        e.is_loopback || e.index is None || e.name@ != name,
    ensures
        windows_facts(entries.push(e), name) == windows_facts(entries, name),
{
    assert(entries.push(e).drop_last() =~= entries);
}

/// A port is a candidate exactly when it is of a kind that counts and is not
/// the loopback; it is what the system says of its device, and down where the
/// system says nothing.
pub proof fn ports_are_candidates(port: (Seq<char>, Seq<char>), states: Seq<IfState>)
    ensures
        ({
            let st = state_named(states, port.1);
            &&& candidate(port, states) is Some <==> kind_of_port(port.0, port.1) is Some && !(
            st matches Some(f) && f.is_loopback)
            &&& candidate(port, states) matches Some(l) ==> {
                &&& l.name == port.1
                &&& Some(l.kind) == kind_of_port(port.0, port.1)
                &&& st matches Some(f) ==> l.index == f.index && l.is_up == f.is_up
                    && l.link_local_v6 == f.link_local_v6
                &&& st is None ==> !l.is_up && l.index == 0 && l.link_local_v6 is None
            }
        }),
{
}

/// Every port that is a candidate is listed, in the order of the ports, and
/// nothing else is.
pub proof fn candidates_are_listed(
    a: Seq<(Seq<char>, Seq<char>)>,
    b: Seq<(Seq<char>, Seq<char>)>,
    port: (Seq<char>, Seq<char>),
    states: Seq<IfState>,
)
    ensures
        candidates(Seq::empty(), states).len() == 0,
        candidates(seq![port], states) == (match candidate(port, states) {
            Some(l) => seq![l],
            None => Seq::empty(),
        }),
        candidates(a + b, states) == candidates(a, states) + candidates(b, states),
    decreases b.len(),
{
    reveal_with_fuel(candidates, 2);
    assert(seq![port].drop_last() =~= Seq::<(Seq<char>, Seq<char>)>::empty());
    assert(seq![port].last() == port);
    if b.len() > 0 {
        candidates_are_listed(a, b.drop_last(), port, states);
        assert((a + b).drop_last() =~= a + b.drop_last());
        assert((a + b).last() == b.last());
        assert(candidates(a + b, states) =~= candidates(a, states) + candidates(b, states));
    } else {
        assert(a + b =~= a);
        assert(candidates(a, states) + candidates(b, states) =~= candidates(a, states));
    }
}

/// An interface without a port is a candidate exactly when it is up, no
/// loopback, and has a link-local address and an index; it is of no known kind.
pub proof fn ready_interfaces_are_candidates(st: IfState)
    ensures
        generic_candidate(st) is Some <==> st.is_up && !st.is_loopback && st.link_local_v6 is Some
            && st.index != 0,
        generic_candidate(st) matches Some(l) ==> {
            &&& l.name == st.name@
            &&& l.index == st.index
            &&& l.is_up
            &&& l.link_local_v6 == st.link_local_v6
            &&& l.kind == LinkKind::Other
        },
{
}

/// Every interface that is such a candidate is listed, in order, and nothing
/// else is.
pub proof fn generic_candidates_are_listed(a: Seq<IfState>, b: Seq<IfState>, st: IfState)
    ensures
        generic_candidates(Seq::empty()).len() == 0,
        generic_candidates(seq![st]) == (match generic_candidate(st) {
            Some(l) => seq![l],
            None => Seq::empty(),
        }),
        generic_candidates(a + b) == generic_candidates(a) + generic_candidates(b),
    decreases b.len(),
{
    reveal_with_fuel(generic_candidates, 2);
    assert(seq![st].drop_last() =~= Seq::<IfState>::empty());
    assert(seq![st].last() == st);
    if b.len() > 0 {
        generic_candidates_are_listed(a, b.drop_last(), st);
        assert((a + b).drop_last() =~= a + b.drop_last());
        assert((a + b).last() == b.last());
        assert(generic_candidates(a + b) =~= generic_candidates(a) + generic_candidates(b));
    } else {
        assert(a + b =~= a);
        assert(generic_candidates(a) + generic_candidates(b) =~= generic_candidates(a));
    }
}

/// Where the ports are known, an interface that is no port of theirs is a
/// candidate too, if its name is not that of an internal one.
pub proof fn plugged_interfaces_are_candidates(
    ports: Seq<(Seq<char>, Seq<char>)>,
    a: Seq<IfState>,
    b: Seq<IfState>,
    st: IfState,
)
    ensures
        plugged_candidate(ports, st) is Some <==> generic_candidate(st) is Some && !listed(
            ports,
            st.name@,
        ) && kind_of_port(Seq::empty(), st.name@) is Some,
        plugged_candidate(ports, st) is Some ==> plugged_candidate(ports, st)
            == generic_candidate(st),
        plugged_candidates(ports, Seq::empty()).len() == 0,
        plugged_candidates(ports, seq![st]) == (match plugged_candidate(ports, st) {
            Some(l) => seq![l],
            None => Seq::empty(),
        }),
        plugged_candidates(ports, a + b) == plugged_candidates(ports, a) + plugged_candidates(
            ports,
            b,
        ),
    decreases b.len(),
{
    reveal_with_fuel(plugged_candidates, 2);
    assert(seq![st].drop_last() =~= Seq::<IfState>::empty());
    assert(seq![st].last() == st);
    if b.len() > 0 {
        plugged_interfaces_are_candidates(ports, a, b.drop_last(), st);
        assert((a + b).drop_last() =~= a + b.drop_last());
        assert((a + b).last() == b.last());
        assert(plugged_candidates(ports, a + b) =~= plugged_candidates(ports, a)
            + plugged_candidates(ports, b));
    } else {
        assert(a + b =~= a);
        assert(plugged_candidates(ports, a) + plugged_candidates(ports, b) =~= plugged_candidates(
            ports,
            a,
        ));
    }
}

/// The candidates are the ports and the interfaces that were plugged in, or all
/// ready interfaces where no ports are known.
pub proof fn where_candidates_come_from(
    ports: Seq<(Seq<char>, Seq<char>)>,
    states: Seq<IfState>,
    l: LinkView,
)
    ensures
        all_candidates(None, states) == generic_candidates(states),
        all_candidates(Some(ports), states).contains(l) <==> candidates(ports, states).contains(l)
            || plugged_candidates(ports, states).contains(l),
{
    let (a, b) = (candidates(ports, states), plugged_candidates(ports, states));
    if a.contains(l) {
        let k = choose|k: int| 0 <= k < a.len() && a[k] == l;
        assert((a + b)[k] == l);
    }
    if b.contains(l) {
        let k = choose|k: int| 0 <= k < b.len() && b[k] == l;
        assert((a + b)[a.len() + k] == l);
    }
}

/// What is known of an interface is the state of that name.
pub proof fn a_state_is_found_by_its_name(states: Seq<IfState>, i: int)
    requires
        0 <= i < states.len(),
        forall|k: int| 0 <= k < i ==> (#[trigger] states[k]).name@ != states[i].name@,
    ensures
        state_named(states, states[i].name@) matches Some(f) && f.index == states[i].index
            && f.is_up == states[i].is_up && f.is_loopback == states[i].is_loopback
            && f.link_local_v6 == states[i].link_local_v6,
    decreases states.len(),
{
    if i > 0 {
        let rest = states.skip(1);
        assert(rest[i - 1] == states[i]);
        assert(states[0].name@ != states[i].name@);
        assert forall|k: int| 0 <= k < i - 1 implies (#[trigger] rest[k]).name@ != rest[i
            - 1].name@ by {
            assert(rest[k] == states[k + 1]);
        }
        a_state_is_found_by_its_name(rest, i - 1);
    }
}

/// A name that no state has is not known.
pub proof fn an_unknown_name_has_no_state(states: Seq<IfState>, name: Seq<char>)
    requires
        forall|k: int| 0 <= k < states.len() ==> (#[trigger] states[k]).name@ != name,
    ensures
        state_named(states, name) is None,
    decreases states.len(),
{
    if states.len() > 0 {
        let rest = states.skip(1);
        assert(states[0].name@ != name);
        assert forall|k: int| 0 <= k < rest.len() implies (#[trigger] rest[k]).name@ != name by {
            assert(rest[k] == states[k + 1]);
        }
        an_unknown_name_has_no_state(rest, name);
    }
}

/// The ports are read line by line.
pub proof fn ports_are_read_line_by_line(lines: Seq<Seq<char>>, line: Seq<char>)
    ensures
        port_run(Seq::empty()).out.len() == 0,
        port_run(Seq::empty()).waiting is None,
        port_run(lines.push(line)) == port_step(port_run(lines), line),
{
    assert(lines.push(line).drop_last() =~= lines);
}

/// What is known of a port is its name and its device.
pub proof fn ports_are_names_and_devices(list: Seq<HardwarePort>, i: int)
    requires
        0 <= i < list.len(),
    ensures
        port_views(list).len() == list.len(),
        port_views(list)[i] == (list[i].port@, list[i].device@),
        views(Seq::<LinkInterface>::empty()).len() == 0,
{
}

/// Ports that are known are what is listed of them.
pub proof fn known_ports_are_listed(ports: Option<&Vec<HardwarePort>>)
    ensures
        ports matches Some(p) ==> known_ports(ports) == Some(port_views(p@)),
        ports is None ==> known_ports(ports) is None,
{
}

/// A list looks like each of its interfaces in turn.
pub proof fn a_list_looks_like_its_interfaces(list: Seq<LinkInterface>, i: int)
    requires
        0 <= i < list.len(),
    ensures
        views(list).len() == list.len(),
        views(list)[i] == list[i]@,
        views(list)[i].name == list[i].name@,
{
}

} // verus!
