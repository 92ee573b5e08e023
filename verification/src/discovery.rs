//! IPv6 link-local multicast discovery.
//!
//! The guest multicasts a [`DiscoveryMessage::Probe`] to `[ff02::1%ifindex]:`
//! [`DISCOVERY_PORT`](crate::DISCOVERY_PORT) on a candidate interface; the
//! host answers every valid probe with a unicast [`DiscoveryMessage::Offer`]
//! sent back to the probe's source address. Because the offer is sent to a
//! link-local destination, the kernel sources it from the host's own `fe80::`
//! address on that link, so the guest learns the host address simply from the
//! source of the offer.
//!
//! Wire encoding: 4 magic bytes `b"NETM"` followed by the postcard encoding of
//! [`DiscoveryMessage`]. Datagrams without the magic prefix are ignored.

use crate::net::{Ipv6Addr, SocketAddr};
use crate::wire;
use crate::PROTOCOL_VERSION;
use vstd::prelude::*;
use vstd::slice::slice_subrange;

verus! {

/// Maximum size of a discovery datagram we are willing to parse.
pub const MAX_DATAGRAM: usize = 512;

/// Interval at which a [`Prober`] re-sends its `Probe` while waiting for an
/// `Offer`, in milliseconds.
pub const PROBE_RESEND_INTERVAL_MS: u64 = 500;

/// All-nodes link-local multicast group.
pub fn multicast_group() -> (r: Ipv6Addr)
    ensures
        r == Ipv6Addr(0xff02, 0, 0, 0, 0, 0, 0, 1),
{
    Ipv6Addr(0xff02, 0, 0, 0, 0, 0, 0, 1)
}

/// Magic prefix of every discovery datagram: `NETM`.
pub open spec fn magic() -> Seq<u8> {
    seq![78u8, 69u8, 84u8, 77u8]
}

/// Discovery datagram.
#[derive(Clone, Debug, PartialEq, Eq)]
pub enum DiscoveryMessage {
    /// Guest → `ff02::1`: "is there a NetM host on this link?"
    Probe {
        /// Must equal [`PROTOCOL_VERSION`].
        version: u16,
        /// Random token echoed back in the `Offer` so stale replies can be
        /// discarded.
        nonce: u64,
    },
    /// Host → guest (unicast): "yes, connect to me on `data_port`".
    Offer {
        version: u16,
        nonce: u64,
        /// TCP port of the host's data listener.
        data_port: u16,
        /// Human readable host name.
        host_name: String,
    },
}

/// What a discovery datagram says.
pub enum MessageView {
    Probe { version: u16, nonce: u64 },
    Offer { version: u16, nonce: u64, data_port: u16, host_name: Seq<char> },
}

impl View for DiscoveryMessage {
    type V = MessageView;

    open spec fn view(&self) -> MessageView {
        match *self {
            DiscoveryMessage::Probe { version, nonce } => MessageView::Probe { version, nonce },
            DiscoveryMessage::Offer { version, nonce, data_port, host_name } => MessageView::Offer {
                version,
                nonce,
                data_port,
                host_name: host_name@,
            },
        }
    }
}

/// Variant number of a probe.
pub const PROBE_VARIANT: u32 = 0;

/// Variant number of an offer.
pub const OFFER_VARIANT: u32 = 1;

/// The bytes of a discovery message.
pub open spec fn encoded(m: MessageView) -> Seq<u8> {
    match m {
        MessageView::Probe { version, nonce } => magic() + wire::probe_form(
            PROBE_VARIANT,
            version,
            nonce,
        ),
        MessageView::Offer { version, nonce, data_port, host_name } => magic() + wire::offer_form(
            OFFER_VARIANT,
            version,
            nonce,
            data_port,
            host_name,
        ),
    }
}

/// What a datagram says, if it is a discovery message.
pub open spec fn decoded(b: Seq<u8>) -> Option<MessageView> {
    if b.len() < 4 || b.take(4) != magic() {
        None
    } else {
        let body = b.skip(4);
        match wire::variant_at(body) {
            Some(0) => match wire::start_at(body) {
                Some((_, version, nonce, _)) => Some(MessageView::Probe { version, nonce }),
                None => None,
            },
            Some(1) => match wire::offer_at(body) {
                Some((_, version, nonce, data_port, host_name)) => Some(
                    MessageView::Offer { version, nonce, data_port, host_name },
                ),
                None => None,
            },
            _ => None,
        }
    }
}

impl DiscoveryMessage {
    /// Encode as `MAGIC ++ postcard(self)`.
    pub fn encode(&self) -> (r: Result<Vec<u8>, postcard::Error>)
        ensures
            r is Ok,
            r->Ok_0@ == encoded(self@),
    {
        let out: Vec<u8> = vec![78u8, 69u8, 84u8, 77u8];
        assert(out@ =~= magic());
        match self {
            DiscoveryMessage::Probe { version, nonce } => wire::append_probe(
                out,
                PROBE_VARIANT,
                *version,
                *nonce,
            ),
            DiscoveryMessage::Offer { version, nonce, data_port, host_name } => wire::append_offer(
                out,
                OFFER_VARIANT,
                *version,
                *nonce,
                *data_port,
                host_name.as_str(),
            ),
        }
    }

    /// Decode a datagram. Returns `None` for datagrams that are not NetM
    /// discovery messages (wrong magic or malformed body).
    pub fn decode(buf: &[u8]) -> (r: Option<Self>)
        ensures
            r is Some <==> decoded(buf@) is Some,
            r matches Some(m) ==> decoded(buf@) == Some(m@),
    {
        if buf.len() < 4 {
            return None;
        }
        proof {
            assert(buf@.take(4) == magic() <==> buf@[0] == 78 && buf@[1] == 69 && buf@[2] == 84
                && buf@[3] == 77) by {
                let t = buf@.take(4);
                if buf@[0] == 78 && buf@[1] == 69 && buf@[2] == 84 && buf@[3] == 77 {
                    assert(t =~= magic());
                } else {
                    assert(t[0] == buf@[0] && t[1] == buf@[1] && t[2] == buf@[2] && t[3]
                        == buf@[3]);
                }
            }
        }
        if buf[0] != 78 || buf[1] != 69 || buf[2] != 84 || buf[3] != 77 {
            return None;
        }
        let body = slice_subrange(buf, 4, buf.len());
        assert(body@ =~= buf@.skip(4));
        match wire::read_variant(body) {
            Ok(0) => match wire::read_probe(body) {
                Ok((_, version, nonce)) => Some(DiscoveryMessage::Probe { version, nonce }),
                Err(_) => None,
            },
            Ok(1) => match wire::read_offer(body) {
                Ok((_, version, nonce, data_port, host_name)) => Some(
                    DiscoveryMessage::Offer { version, nonce, data_port, host_name },
                ),
                Err(_) => None,
            },
            _ => None,
        }
    }
}

/// A message is read back from its bytes, whatever follows.
pub proof fn message_is_read_back(m: MessageView, tail: Seq<u8>)
    requires
        m matches MessageView::Offer { host_name, .. } ==> vstd::utf8::encode_utf8(host_name).len()
            <= usize::MAX,
    ensures
        decoded(encoded(m) + tail) == Some(m),
{
    let b = encoded(m) + tail;
    assert(b.take(4) =~= magic());
    match m {
        MessageView::Probe { version, nonce } => {
            wire::probe_read_back(PROBE_VARIANT, version, nonce, tail);
            assert(b.skip(4) =~= wire::probe_form(PROBE_VARIANT, version, nonce) + tail);
        },
        MessageView::Offer { version, nonce, data_port, host_name } => {
            wire::offer_read_back(OFFER_VARIANT, version, nonce, data_port, host_name, tail);
            assert(b.skip(4) =~= wire::offer_form(
                OFFER_VARIANT,
                version,
                nonce,
                data_port,
                host_name,
            ) + tail);
        },
    }
}

/// A datagram without the magic prefix is ignored.
pub proof fn no_magic_no_message(b: Seq<u8>)
    requires
        b.len() < 4 || b.take(4) != magic(),
    ensures
        decoded(b) is None,
{
}

// The host's side.

/// Host side: answers `Probe`s with `Offer`s.
#[derive(Debug)]
pub struct Responder {
    pub data_port: u16,
    pub host_name: String,
}

/// The answer to a datagram: an offer to every probe of our version, nothing to
/// anything else.
pub open spec fn offer_for(b: Seq<u8>, data_port: u16, host_name: Seq<char>) -> Option<
    MessageView,
> {
    match decoded(b) {
        Some(MessageView::Probe { version, nonce }) => if version == PROTOCOL_VERSION {
            Some(MessageView::Offer { version: PROTOCOL_VERSION, nonce, data_port, host_name })
        } else {
            None
        },
        _ => None,
    }
}

impl Responder {
    /// A host of this name whose data listener has this port.
    pub fn new(data_port: u16, host_name: String) -> (r: Self)
        ensures
            r == (Responder { data_port, host_name }),
    {
        Responder { data_port, host_name }
    }

    /// Whether the multicast group is joined on an interface of this index.
    pub fn joins(index: u32) -> (r: bool)
        ensures
            r == (index != 0),
    {
        index != 0
    }

    /// The datagram to send back to the sender of `datagram`, if any.
    pub fn answer(&self, datagram: &[u8]) -> (r: Result<Option<Vec<u8>>, postcard::Error>)
        ensures
            r matches Ok(a) && match offer_for(datagram@, self.data_port, self.host_name@) {
                Some(m) => a matches Some(v) && v@ == encoded(m),
                None => a is None,
            },
    {
        match DiscoveryMessage::decode(datagram) {
            Some(DiscoveryMessage::Probe { version, nonce }) => {
                if version == PROTOCOL_VERSION {
                    let offer = DiscoveryMessage::Offer {
                        version: PROTOCOL_VERSION,
                        nonce,
                        data_port: self.data_port,
                        host_name: self.host_name.clone(),
                    };
                    match offer.encode() {
                        Ok(v) => Ok(Some(v)),
                        Err(e) => Err(e),
                    }
                } else {
                    Ok(None)
                }
            },
            _ => Ok(None),
        }
    }
}

// The guest's side.

/// Result of a successful probe.
#[derive(Clone, Debug, PartialEq, Eq)]
pub struct Discovered {
    /// Host `fe80::` address with `scope_id` = the probed interface's index and
    /// `port` = the host's data port.
    pub host_addr: SocketAddr,
    /// Host name announced in the `Offer`.
    pub host_name: String,
}

/// Where a probe stands.
#[derive(Clone, Copy, Debug, PartialEq, Eq, Structural)]
pub enum ProbePhase {
    /// The probe is to be sent.
    Send,
    /// Offers are awaited; at this time in milliseconds the probe is sent again.
    Await(u64),
}

/// What the caller does next.
#[derive(Clone, Copy, Debug, PartialEq, Eq, Structural)]
pub enum ProbeWork {
    Send,
    /// Wait at most so many milliseconds for a datagram.
    Receive { wait: u64 },
    /// No host answered in time.
    GiveUp,
}

/// Guest side: sends a `Probe` on an interface and waits for the first matching
/// `Offer`. The probe is re-sent every 500 ms until an offer arrives or the
/// time is up.
#[derive(Clone, Copy, Debug, PartialEq, Eq, Structural)]
pub struct Prober {
    pub nonce: u64,
    /// Index of the probed interface.
    pub index: u32,
    /// When to give up, in milliseconds.
    pub deadline: u64,
    pub phase: ProbePhase,
}

/// The host that a datagram from `from` announces to a probe with this nonce on
/// the interface of this index: an offer of our version with our nonce.
pub open spec fn host_in(b: Seq<u8>, from: SocketAddr, nonce: u64, index: u32) -> Option<
    (SocketAddr, Seq<char>),
> {
    match (from, decoded(b)) {
        (
            SocketAddr::V6 { ip, scope_id, .. },
            Some(MessageView::Offer { version, nonce: got, data_port, host_name }),
        ) => if version == PROTOCOL_VERSION && got == nonce {
            Some(
                (
                    SocketAddr::V6 {
                        ip,
                        port: data_port,
                        scope_id: if scope_id != 0 {
                            scope_id
                        } else {
                            index
                        },
                    },
                    host_name,
                ),
            )
        } else {
            None
        },
        _ => None,
    }
}

impl Prober {
    /// What to do at `now`. After the last wait the probe is sent once more
    /// before giving up.
    pub open spec fn spec_work(self, now: u64) -> ProbeWork {
        match self.phase {
            ProbePhase::Send => ProbeWork::Send,
            ProbePhase::Await(resend) => if now >= self.deadline {
                ProbeWork::GiveUp
            } else {
                let end = if resend < self.deadline {
                    resend
                } else {
                    self.deadline
                };
                ProbeWork::Receive {
                    wait: if end >= now {
                        (end - now) as u64
                    } else {
                        0
                    },
                }
            },
        }
    }

    /// A probe that starts at `now` and may take `timeout` milliseconds.
    pub fn new(nonce: u64, index: u32, now: u64, timeout: u64) -> (r: Self)
        ensures
            r.nonce == nonce,
            r.index == index,
            r.deadline == if now + timeout <= u64::MAX {
                now + timeout
            } else {
                u64::MAX as int
            },
            r.phase == ProbePhase::Send,
    {
        let deadline: u64 = match now.checked_add(timeout) {
            Some(d) => d,
            None => u64::MAX,
        };
        Prober { nonce, index, deadline, phase: ProbePhase::Send }
    }

    /// The datagram that the probe sends.
    pub fn datagram(&self) -> (r: Result<Vec<u8>, postcard::Error>)
        ensures
            r is Ok,
            r->Ok_0@ == encoded(
                MessageView::Probe { version: PROTOCOL_VERSION, nonce: self.nonce },
            ),
    {
        DiscoveryMessage::Probe { version: PROTOCOL_VERSION, nonce: self.nonce }.encode()
    }

    /// What to do at `now`.
    pub fn work(&self, now: u64) -> (r: ProbeWork)
        ensures
            r == self.spec_work(now),
    {
        match self.phase {
            ProbePhase::Send => ProbeWork::Send,
            ProbePhase::Await(resend) => {
                if now >= self.deadline {
                    return ProbeWork::GiveUp;
                }
                let end: u64 = if resend < self.deadline {
                    resend
                } else {
                    self.deadline
                };
                ProbeWork::Receive {
                    wait: if end >= now {
                        end - now
                    } else {
                        0
                    },
                }
            },
        }
    }

    /// The probe was sent at `now`.
    pub fn sent(&mut self, now: u64)
        ensures
            *final(self) == (Prober {
                phase: ProbePhase::Await(
                    if now + PROBE_RESEND_INTERVAL_MS <= u64::MAX {
                        (now + PROBE_RESEND_INTERVAL_MS) as u64
                    } else {
                        u64::MAX
                    },
                ),
                ..*old(self)
            }),
    {
        let resend: u64 = match now.checked_add(PROBE_RESEND_INTERVAL_MS) {
            Some(d) => d,
            None => u64::MAX,
        };
        self.phase = ProbePhase::Await(resend);
    }

    /// Nothing came while waiting.
    pub fn timed_out(&mut self)
        ensures
            *final(self) == (Prober { phase: ProbePhase::Send, ..*old(self) }),
    {
        self.phase = ProbePhase::Send;
    }

    /// The host that a datagram from `from` announces, if it is the awaited
    /// offer; anything else is ignored.
    pub fn received(&self, datagram: &[u8], from: SocketAddr) -> (r: Option<Discovered>)
        ensures
            r is Some <==> host_in(datagram@, from, self.nonce, self.index) is Some,
            r matches Some(d) ==> host_in(datagram@, from, self.nonce, self.index) == Some(
                (d.host_addr, d.host_name@),
            ),
    {
        let (ip, scope) = match from {
            SocketAddr::V6 { ip, scope_id, .. } => (ip, scope_id),
            SocketAddr::V4 { .. } => {
                return None;
            },
        };
        match DiscoveryMessage::decode(datagram) {
            Some(DiscoveryMessage::Offer { version, nonce, data_port, host_name }) => {
                if version == PROTOCOL_VERSION && nonce == self.nonce {
                    let scope_id: u32 = if scope != 0 {
                        scope
                    } else {
                        self.index
                    };
                    Some(
                        Discovered {
                            host_addr: SocketAddr::V6 { ip, port: data_port, scope_id },
                            host_name,
                        },
                    )
                } else {
                    None
                }
            },
            _ => None,
        }
    }
}

/// Host and guest find each other: the answer to a probe, received by the one
/// that sent it, announces the host's address on the probed link, its data port
/// and its name.
pub proof fn a_probe_finds_its_host(
    nonce: u64,
    index: u32,
    data_port: u16,
    host_name: Seq<char>,
    ip: Ipv6Addr,
    port: u16,
)
    requires
        vstd::utf8::encode_utf8(host_name).len() <= usize::MAX,
    ensures
        offer_for(
            encoded(MessageView::Probe { version: PROTOCOL_VERSION, nonce }),
            data_port,
            host_name,
        ) matches Some(m) && host_in(
            encoded(m),
            SocketAddr::V6 { ip, port, scope_id: 0 },
            nonce,
            index,
        ) == Some((SocketAddr::V6 { ip, port: data_port, scope_id: index }, host_name)),
{
    let none = Seq::<u8>::empty();
    let probe = MessageView::Probe { version: PROTOCOL_VERSION, nonce };
    message_is_read_back(probe, none);
    assert(encoded(probe) + none =~= encoded(probe));
    let offer = MessageView::Offer { version: PROTOCOL_VERSION, nonce, data_port, host_name };
    message_is_read_back(offer, none);
    assert(encoded(offer) + none =~= encoded(offer));
}

/// An offer to another probe, or of another version, is ignored.
pub proof fn stale_offers_are_ignored(
    m: MessageView,
    from: SocketAddr,
    nonce: u64,
    index: u32,
)
    requires
        m matches MessageView::Offer { version, nonce: got, host_name, .. } && (version
            != PROTOCOL_VERSION || got != nonce) && vstd::utf8::encode_utf8(host_name).len()
            <= usize::MAX,
    ensures
        host_in(encoded(m), from, nonce, index) is None,
{
    let none = Seq::<u8>::empty();
    message_is_read_back(m, none);
    assert(encoded(m) + none =~= encoded(m));
}

/// A datagram is answered exactly when it is a probe of our version; the offer
/// returns the nonce of the probe, and gives our port and our name.
pub proof fn only_our_probes_are_answered(b: Seq<u8>, data_port: u16, host_name: Seq<char>)
    ensures
        offer_for(b, data_port, host_name) is Some <==> (decoded(b) matches Some(m)
            && m matches MessageView::Probe { version, .. } && version == PROTOCOL_VERSION),
        forall|nonce: u64|
            decoded(b) == Some(MessageView::Probe { version: PROTOCOL_VERSION, nonce })
                ==> #[trigger] offer_for(b, data_port, host_name) == Some(
                MessageView::Offer { version: PROTOCOL_VERSION, nonce, data_port, host_name },
            ),
{
}

/// A host is found in a datagram exactly when it is an offer of our version to
/// our probe that came over IPv6. Its address is the sender's, with the port of
/// the offer, on the interface that the sender's scope names, or else on ours.
pub proof fn a_host_is_found_in_an_offer(
    b: Seq<u8>,
    from: SocketAddr,
    nonce: u64,
    index: u32,
    data_port: u16,
    host_name: Seq<char>,
)
    ensures
        host_in(b, from, nonce, index) is Some ==> from is V6 && (decoded(b) matches Some(m)
            && m matches MessageView::Offer { version, nonce: got, .. } && version
            == PROTOCOL_VERSION && got == nonce),
        decoded(b) == Some(
            MessageView::Offer { version: PROTOCOL_VERSION, nonce, data_port, host_name },
        ) ==> {
            &&& forall|ip: Ipv6Addr, port: u16, scope_id: u32|
                from == (SocketAddr::V6 { ip, port, scope_id }) && scope_id != 0
                    ==> #[trigger] host_in(
                    b,
                    SocketAddr::V6 { ip, port, scope_id },
                    nonce,
                    index,
                ) == Some((SocketAddr::V6 { ip, port: data_port, scope_id }, host_name))
            &&& forall|ip: Ipv6Addr, port: u16|
                from == (SocketAddr::V6 { ip, port, scope_id: 0 }) ==> #[trigger] host_in(
                    b,
                    SocketAddr::V6 { ip, port, scope_id: 0 },
                    nonce,
                    index,
                ) == Some((SocketAddr::V6 { ip, port: data_port, scope_id: index }, host_name))
        },
{
}

/// A prober that has to send sends. One that waits receives until its probe is
/// due again or the time is over, whichever comes first, and gives up exactly
/// when the time is over.
pub proof fn a_prober_waits_and_gives_up(p: Prober, now: u64)
    ensures
        p.phase is Send <==> p.spec_work(now) is Send,
        p.phase is Await ==> (p.spec_work(now) is GiveUp <==> now >= p.deadline),
        p.phase matches ProbePhase::Await(resend) ==> (p.spec_work(now) matches
            ProbeWork::Receive { wait } ==> {
            &&& now + wait <= p.deadline
            &&& wait > 0 ==> now + wait <= resend
            &&& now <= resend && resend <= p.deadline ==> now + wait == resend
            &&& p.deadline <= resend ==> now + wait == p.deadline
            &&& resend < now ==> wait == 0
        }),
{
}

} // verus!
