//! Host and guest: resolvers, sessions, flows, echo replies and the guest's
//! state machine.

use bytes::Bytes;
use netm::device::{read_step, write_step, Inbound, Outbound, ReadStep, WriteStep};
use netm::dns::{
    fallback_upstreams, parse_ipconfig_all, parse_nameserver, parse_resolv_conf, parse_scutil_dns,
    system_resolvers, Attempts, ScopeTable, Upstreams,
};
use netm::flow::{
    dispatch, is_dns, remap_target, udp_step, Accepted, Direction, Dispatch, FlowCounters, FlowError,
    TcpAction, TcpEvent, TcpPump, UdpAction, UdpEvent,
};
use netm::frame::{Frame, FrameKind, TunnelConfig};
use netm::guest::{
    GuestConfig, GuestEvent, Handshake, HandshakeFailure, HandshakeRead, HandshakeSent, HostTarget,
    Pump, PumpAction, PumpEvent, Reason, RouteMode, SessionEnd, Timings,
};
use netm::guest_loop::{Effect, Guest, LogNote, Report, StateNote, Work};
use netm::host::{
    excluded_resolvers, join_indices, listening_line, AcceptAction, AcceptEvent, AcceptLoop,
    HostConfig, HostEvent, Proto, Shared, Watcher,
};
use netm::icmp::{handle_unknown_transport, reply_to, ICMP};
use netm::link::{LinkInterface, LinkKind};
use netm::net::{parse_ip, parse_ipv6, parse_socket, Endpoint, IpAddr, Ipv4Addr, SocketAddr};
use netm::session::{
    after_probe, check_hello, end_session, handshake, rejected_line, serve_connected,
    wait_for_hello, Admission, AfterProbe, Greeting, HelloCheck, Opening, Writer, WriterEvent,
    WriterWork,
};
use netm::speed::{LinkSpeed, Params, Phase, Probe, Role, SpeedError};
use netm::text::chars;
use netm::{session, DATA_PORT, PROTOCOL_VERSION};

fn sock(s: &str) -> SocketAddr {
    parse_socket(&chars(s)).unwrap()
}

fn ip(s: &str) -> IpAddr {
    parse_ip(&chars(s)).unwrap()
}

fn scopes() -> ScopeTable {
    ScopeTable {
        entries: vec![("en0".to_string(), 12)],
    }
}

// Addresses.

#[test]
fn addresses_are_written_as_they_are_read() {
    for (s, shown) in [
        ("127.0.0.1:53", "127.0.0.1:53"),
        ("[::]:27778", "[::]:27778"),
        ("[::1]:1", "[::1]:1"),
        ("[fe80::1%5]:27778", "[fe80::1%5]:27778"),
        ("[2606:4700:4700::1111]:53", "[2606:4700:4700::1111]:53"),
        ("[1:0:0:2:0:0:0:3]:9", "[1:0:0:2::3]:9"),
        ("[0:0:1:0:0:2:3:4]:9", "[::1:0:0:2:3:4]:9"),
        ("[::ffff:1.2.3.4]:80", "[::ffff:1.2.3.4]:80"),
        ("[1:2:3:4:5:6:7:8]:65535", "[1:2:3:4:5:6:7:8]:65535"),
        ("[2001:DB8:0:1::]:7", "[2001:db8:0:1::]:7"),
    ] {
        assert_eq!(sock(s).text(), shown, "{s}");
        assert_eq!(sock(&sock(s).text()), sock(s));
    }
    for bad in [
        "", "1.2.3.4", "1.2.3.4:", "1.2.3.4:65536", "01.2.3.4:5", "[::1]", "::1:5", "[fe80::1%x]:1",
    ] {
        assert!(parse_socket(&chars(bad)).is_none(), "{bad}");
    }
}

// Resolvers.

#[test]
fn parses_resolv_conf() {
    let text = "\
# Generated by configd
search example.com
nameserver 192.168.1.1
nameserver 192.168.1.1   # duplicate
nameserver fe80::1%1
nameserver 2606:4700:4700::1111
options ndots:1
nameserver 10.0.0.1:5353
";
    let list = parse_resolv_conf(text, &scopes());
    assert_eq!(
        list,
        vec![
            sock("192.168.1.1:53"),
            sock("[fe80::1%1]:53"),
            sock("[2606:4700:4700::1111]:53"),
            sock("10.0.0.1:5353"),
        ]
    );
}

#[test]
fn parses_scutil_dns() {
    let text = "\
DNS configuration

resolver #1
  search domain[0] : lan
  nameserver[0] : 192.168.50.1
  nameserver[1] : 1.1.1.1
  if_index : 12 (en0)
  flags    : Request A records
  reach    : 0x00020002 (Reachable,Directly Reachable Address)

resolver #2
  domain   : local
  options  : mdns
  timeout  : 5
  flags    : Request A records
  reach    : 0x00000000 (Not Reachable)
  order    : 300000

resolver #3
  nameserver[0] : 127.0.0.1
  port     : 5300

DNS configuration (for scoped queries)

resolver #1
  nameserver[0] : 9.9.9.9
  if_index : 12 (en0)
";
    let list = parse_scutil_dns(text, &scopes());
    assert_eq!(
        list,
        vec![
            sock("192.168.50.1:53"),
            sock("1.1.1.1:53"),
            sock("127.0.0.1:5300"),
        ]
    );
}

#[test]
fn parses_ipconfig_all() {
    let text = "\
Windows IP Configuration

   Host Name . . . . . . . . . . . . : DESKTOP
   Primary Dns Suffix  . . . . . . . :

Ethernet adapter Ethernet:

   Connection-specific DNS Suffix  . : lan
   IPv4 Address. . . . . . . . . . . : 192.168.1.20(Preferred)
   Default Gateway . . . . . . . . . : 192.168.1.1
   DNS Servers . . . . . . . . . . . : 192.168.1.1
                                       8.8.8.8
   NetBIOS over Tcpip. . . . . . . . : Enabled

Wireless LAN adapter Wi-Fi:

   DNS Servers . . . . . . . . . . . : fec0:0:0:ffff::1%1
                                       1.0.0.1
";
    let list = parse_ipconfig_all(text, &scopes());
    assert_eq!(
        list,
        vec![
            sock("192.168.1.1:53"),
            sock("8.8.8.8:53"),
            sock("[fec0:0:0:ffff::1%1]:53"),
            sock("1.0.0.1:53"),
        ]
    );
}

#[test]
fn excluded_and_fallback() {
    let gw = ip("10.77.0.1");
    let u = Upstreams::fixed(vec![SocketAddr::new(gw, 53)], vec![gw]);
    assert_eq!(u.get(), fallback_upstreams());
    let mut u = Upstreams::fixed(vec![sock("1.1.1.1:53"), SocketAddr::new(gw, 53)], vec![gw]);
    assert_eq!(u.get(), vec![sock("1.1.1.1:53")]);
    assert!(u.is_fixed());
    assert!(!u.refresh(vec![sock("9.9.9.9:53")]));
    assert_eq!(u.get(), vec![sock("1.1.1.1:53")]);
}

#[test]
fn system_resolvers_are_refreshed() {
    let list = system_resolvers(None, Some("DNS configuration\nresolver #1\n nameserver[0] : 8.8.4.4\n"), &scopes());
    assert_eq!(list, vec![sock("8.8.4.4:53")]);
    let mut u = Upstreams::from_system(list, vec![]);
    assert!(!u.is_fixed());
    assert!(!u.refresh(vec![sock("8.8.4.4:53")]));
    assert!(u.refresh(vec![sock("9.9.9.9:53")]));
    assert_eq!(u.get(), vec![sock("9.9.9.9:53")]);
    assert_eq!(
        parse_nameserver("fe80::1%en0", &scopes()).unwrap().text(),
        "[fe80::1%12]:53"
    );
    assert_eq!(
        parse_nameserver("fe80::1%nope", &scopes()).unwrap().text(),
        "[fe80::1]:53"
    );
    assert_eq!(
        parse_nameserver("[2001:db8::1]", &scopes()).unwrap().text(),
        "[2001:db8::1]:53"
    );
    assert_eq!(
        parse_nameserver("1.2.3.4#5353", &scopes()).unwrap().text(),
        "1.2.3.4:5353"
    );
    assert!(parse_nameserver("example.com", &scopes()).is_none());
}

#[test]
fn every_upstream_is_tried_once() {
    let mut a = Attempts::udp(vec![sock("1.1.1.1:53"), sock("8.8.8.8:53")]);
    assert_eq!(a.next(), Some(sock("1.1.1.1:53")));
    a.failed("refused".to_string());
    assert_eq!(a.next(), Some(sock("8.8.8.8:53")));
    a.failed("timeout".to_string());
    assert_eq!(a.next(), None);
    assert!(a.error().contains("timeout"));
}

// Host sessions.

fn shared() -> Shared {
    Shared::new(TunnelConfig::default(), "host-test".to_string())
}

#[test]
fn check_hello_decisions() {
    assert_eq!(
        check_hello(Some(Ok(Frame::Hello {
            version: PROTOCOL_VERSION,
            name: "g".into()
        }))),
        HelloCheck::Accept("g".into())
    );
    assert!(matches!(
        check_hello(Some(Ok(Frame::Hello { version: PROTOCOL_VERSION + 1, name: "g".into() }))),
        HelloCheck::Reject(r) if r.contains("version")
    ));
    assert!(matches!(
        check_hello(Some(Ok(Frame::Ping(1)))),
        HelloCheck::Reject(r) if r.contains("Ping")
    ));
    assert!(matches!(check_hello(None), HelloCheck::Reject(_)));
}

fn hello(version: u16, name: &str) -> Opening {
    Opening::Frame(Frame::Hello {
        version,
        name: name.to_string(),
    })
}

#[test]
fn a_handshake_is_answered_with_hello_and_config() {
    match handshake(&shared(), hello(PROTOCOL_VERSION, "guest-1")) {
        Greeting::Welcome { name, replies } => {
            assert_eq!(name, "guest-1");
            assert_eq!(
                replies,
                vec![
                    Frame::Hello {
                        version: PROTOCOL_VERSION,
                        name: "host-test".into()
                    },
                    Frame::Config(TunnelConfig::default()),
                ]
            );
        }
        g => panic!("{g:?}"),
    }
    assert!(matches!(
        handshake(&shared(), hello(99, "old")),
        Greeting::Dismiss { reason, reply: Frame::Bye, .. } if reason.contains("version")
    ));
    assert!(matches!(
        handshake(&shared(), Opening::TimedOut),
        Greeting::Dismiss { reason, reply: Frame::Bye, .. } if reason.contains("timed out")
    ));
    assert!(matches!(handshake(&shared(), Opening::Cancelled), Greeting::Stop));
}

#[test]
fn a_serial_link_waits_for_a_proper_hello() {
    assert!(matches!(
        wait_for_hello(&shared(), Opening::Frame(Frame::Ping(1))),
        Greeting::Ignore
    ));
    assert!(matches!(
        wait_for_hello(&shared(), hello(PROTOCOL_VERSION + 1, "old")),
        Greeting::Refuse { reply: Frame::Bye, .. }
    ));
    assert!(matches!(
        wait_for_hello(&shared(), hello(PROTOCOL_VERSION, "serial-guest")),
        Greeting::Welcome { name, .. } if name == "serial-guest"
    ));
    assert!(matches!(wait_for_hello(&shared(), Opening::Cancelled), Greeting::Stop));
    assert!(matches!(
        wait_for_hello(&shared(), Opening::Closed),
        Greeting::Abandon { reason } if reason.contains("closed")
    ));
}

#[test]
fn guest_slot_is_exclusive() {
    let mut shared = shared();
    let a = Endpoint::Serial("/dev/ttyA".into());
    let b = Endpoint::Tcp(sock("127.0.0.1:1"));
    assert!(shared.claim_guest(&a));
    assert!(!shared.claim_guest(&b));
    assert_eq!(shared.active_guest(), Some(a.clone()));
    shared.release_guest(&b); // not the holder: no effect
    assert_eq!(shared.active_guest(), Some(a.clone()));
    shared.release_guest(&a);
    assert!(shared.claim_guest(&b));
}

#[test]
fn a_second_guest_is_busy() {
    let mut s = shared();
    let a = Endpoint::Tcp(sock("127.0.0.1:1"));
    let b = Endpoint::Tcp(sock("127.0.0.1:2"));
    match serve_connected(&mut s, &a, &"one".to_string(), 5) {
        Admission::Serve {
            event: HostEvent::GuestConnected(g),
            log,
        } => {
            assert_eq!(g.name, "one");
            assert_eq!(g.connected_at, 5);
            assert_eq!(
                log,
                "guest \"one\" connected from 127.0.0.1:1, assigned 10.77.0.2/24"
            );
        }
        r => panic!("{r:?}"),
    }
    assert!(matches!(
        serve_connected(&mut s, &b, &"two".to_string(), 6),
        Admission::Busy { log, reply: Frame::Bye } if log == "rejecting guest \"two\" from 127.0.0.1:2: 127.0.0.1:1 is already connected"
    ));
    let (_, event) = end_session(&mut s, &a, "one", &"bye".to_string());
    assert!(matches!(event, HostEvent::GuestDisconnected { reason, .. } if reason == "bye"));
    assert_eq!(s.active_guest(), None);
}

#[test]
fn pings_that_stay_unanswered_end_the_session() {
    let mut p = session::Pump::new();
    let tick = session::PumpEvent::PingTick;
    let mut pings = 0;
    loop {
        match p.on(&tick) {
            session::PumpAction::Ping => pings += 1,
            session::PumpAction::End(r) => {
                assert!(r.contains("keep-alive timeout"), "{r}");
                break;
            }
            a => panic!("{a:?}"),
        }
    }
    assert_eq!(pings, session::MAX_MISSED_PINGS);
    let mut p = session::Pump::new();
    let _ = p.on(&tick);
    let _ = p.on(&session::PumpEvent::Frame(Frame::Pong(1)));
    assert_eq!(p.missed_pings, 0);
    assert!(matches!(
        p.on(&session::PumpEvent::Frame(Frame::Ping(42))),
        session::PumpAction::Pong(42)
    ));
    assert!(matches!(
        p.on(&session::PumpEvent::Frame(Frame::IpPacket(Bytes::from_static(b"x")))),
        session::PumpAction::ToStack
    ));
    assert!(matches!(
        p.on(&session::PumpEvent::Frame(Frame::Bye)),
        session::PumpAction::End(r) if r == "guest sent Bye"
    ));
}

#[test]
fn the_writer_flushes_and_closes() {
    let mut w = Writer::new();
    assert!(matches!(w.work(), WriterWork::Await { ctrl: true, packets: true }));
    w.on(WriterEvent::Packet);
    w.on(WriterEvent::ControlEmpty);
    w.on(WriterEvent::PacketsEmpty);
    while !matches!(w.work(), WriterWork::Flush) {
        match w.work() {
            WriterWork::TryControl => w.on(WriterEvent::ControlEmpty),
            WriterWork::TryPacket => w.on(WriterEvent::PacketsEmpty),
            x => panic!("{x:?}"),
        }
    }
    w.on(WriterEvent::Flushed);
    assert!(matches!(w.work(), WriterWork::Await { .. }));
    w.on(WriterEvent::ControlClosed);
    w.on(WriterEvent::PacketsClosed);
    assert!(matches!(w.work(), WriterWork::Close));
}

#[test]
fn connections_are_served_one_at_a_time() {
    let mut l = AcceptLoop::new();
    let a = sock("10.0.0.1:1");
    assert!(matches!(
        l.on(AcceptEvent::Connection { peer: a, busy: false }),
        AcceptAction::Serve(p) if p == a
    ));
    assert!(matches!(
        l.on(AcceptEvent::Connection { peer: sock("10.0.0.2:1"), busy: true }),
        AcceptAction::Reject { log, reply: Frame::Bye }
            if log == "rejecting guest 10.0.0.2:1: 10.0.0.1:1 is already connected"
    ));
    assert!(matches!(
        l.on(AcceptEvent::Failed("too many files".into())),
        AcceptAction::BackOff { error, .. } if error.contains("too many files")
    ));
    assert!(matches!(
        l.on(AcceptEvent::Control { shutdown: true }),
        AcceptAction::Stop { .. }
    ));
}

#[test]
fn a_second_guest_is_turned_away_and_a_third_is_served() {
    let (a, b, c) = (sock("10.0.0.1:1"), sock("10.0.0.2:1"), sock("10.0.0.3:1"));
    let mut l = AcceptLoop::new();
    let mut s = Shared::new(TunnelConfig::default(), "mac".to_string());
    assert!(matches!(
        l.on(AcceptEvent::Connection { peer: a, busy: false }),
        AcceptAction::Serve(p) if p == a
    ));
    let first = serve_connected(&mut s, &Endpoint::Tcp(a), &"one".to_string(), 1);
    assert!(matches!(
        first,
        Admission::Serve { event: HostEvent::GuestConnected(_), .. }
    ));
    let mut p = session::Pump::new();
    assert!(matches!(
        l.on(AcceptEvent::Connection { peer: b, busy: true }),
        AcceptAction::Reject { log, reply: Frame::Bye } if log.contains("rejecting guest")
    ));
    // The first guest is unaffected.
    assert!(matches!(
        p.on(&session::PumpEvent::Frame(Frame::Ping(42))),
        session::PumpAction::Pong(42)
    ));
    // Once it leaves, a new one is served.
    let (_, gone) = end_session(&mut s, &Endpoint::Tcp(a), "one", &"bye".to_string());
    assert!(matches!(gone, HostEvent::GuestDisconnected { .. }));
    assert!(matches!(
        l.on(AcceptEvent::Connection { peer: c, busy: false }),
        AcceptAction::Serve(q) if q == c
    ));
    assert!(matches!(
        serve_connected(&mut s, &Endpoint::Tcp(c), &"three".to_string(), 2),
        Admission::Serve { .. }
    ));
}

#[test]
fn host_configuration() {
    let cfg = HostConfig::for_host(Some("studio".to_string()));
    assert_eq!(cfg.host_name, "studio");
    assert_eq!(cfg.effective_bind_addr().text(), "[::]:27778");
    assert_eq!(
        HostConfig::for_host(None).with_port(9).effective_bind_addr().port(),
        9
    );
    assert_eq!(HostConfig::for_host(Some(String::new())).host_name, "netm-host");
    assert_eq!(excluded_resolvers(&cfg.tunnel), vec![ip("10.77.0.1"), ip("10.77.0.1")]);
    assert!(listening_line(&sock("[::]:27778"), &cfg.tunnel).contains("[::]:27778"));
}

fn link(name: &str, index: u32, ready: bool) -> LinkInterface {
    LinkInterface {
        name: name.to_string(),
        index,
        is_up: true,
        link_local_v6: if ready {
            parse_ipv6(&chars("fe80::3"))
        } else {
            None
        },
        kind: LinkKind::Other,
    }
}

#[test]
fn the_watcher_rebinds_when_links_change() {
    let mut w = Watcher::new();
    let list = vec![link("en2", 7, true), link("en1", 5, true), link("en9", 0, true)];
    let step = w.look(&list, false);
    assert!(step.changed && step.rebind);
    w.bound(&list);
    assert_eq!(w.joined, vec![5, 7]);
    let step = w.look(&list, true);
    assert!(!step.changed && !step.rebind);
    let step = w.look(&list, false);
    assert!(!step.changed && step.rebind);
    assert_eq!(join_indices(&list), vec![5, 7]);
    let first = w.bind_failed("address in use");
    assert!(first.unwrap().contains("address in use"));
    assert!(w.bind_failed("address in use").is_none());
}

#[test]
fn an_unreadable_interface_list_is_reported_once() {
    let mut w = Watcher::new();
    assert_eq!(
        w.list_failed("denied").as_deref(),
        Some("cannot enumerate interfaces: denied")
    );
    assert!(w.list_failed("denied").is_none());
}

#[test]
fn a_probe_ends_a_session_only_with_its_connection() {
    let speed = LinkSpeed {
        up_bytes: 10,
        up_nanos: 2,
        down_bytes: 30,
        down_nanos: 4,
    };
    let probe = |phase: Phase| Probe {
        role: Role::Responder,
        params: Params::default(),
        phase,
        speed,
    };
    assert!(matches!(
        after_probe(&probe(Phase::Measured), ""),
        AfterProbe::Report(s) if s == speed
    ));
    for phase in [
        Phase::Skipped,
        Phase::Failed(SpeedError::Timeout),
        Phase::Failed(SpeedError::Unexpected(FrameKind::Hello)),
    ] {
        assert!(matches!(after_probe(&probe(phase), ""), AfterProbe::CarryOn));
    }
    let closed = after_probe(&probe(Phase::Failed(SpeedError::Closed)), "");
    assert!(matches!(
        closed,
        AfterProbe::End(r) if r == "link capacity probe: connection closed during speed test"
    ));
    let broken = after_probe(&probe(Phase::Failed(SpeedError::Codec)), "unknown frame type 77");
    assert!(matches!(
        broken,
        AfterProbe::End(r) if r == "link capacity probe: unknown frame type 77"
    ));
    assert_eq!(
        rejected_line(&Endpoint::Tcp(sock("10.0.0.1:5")), "handshake timed out"),
        "guest 10.0.0.1:5 rejected: handshake timed out"
    );
}

// Flows.

#[test]
fn flows_are_dispatched() {
    let t = TunnelConfig::default();
    let to = |s: &str| sock(s);
    assert_eq!(
        dispatch(&t, Accepted::Tcp(to("1.1.1.1:443"))),
        Dispatch::Tcp(to("1.1.1.1:443"))
    );
    assert_eq!(dispatch(&t, Accepted::Tcp(to("10.77.0.1:53"))), Dispatch::TcpDns);
    assert_eq!(dispatch(&t, Accepted::Udp(to("10.77.0.1:53"))), Dispatch::UdpDns);
    assert_eq!(dispatch(&t, Accepted::Tcp(to("224.0.0.1:80"))), Dispatch::CloseTcp);
    assert_eq!(dispatch(&t, Accepted::UnknownTransport), Dispatch::Icmp);
    assert!(is_dns(&t, to("10.77.0.1:53")));
    assert!(!is_dns(&t, to("10.77.0.1:54")));
    assert_eq!(remap_target(&t, to("10.77.0.1:80")).text(), "127.0.0.1:80");
    assert_eq!(remap_target(&t, to("1.1.1.1:80")), to("1.1.1.1:80"));
}

#[test]
fn a_tcp_flow_ends_with_both_directions() {
    let mut p = TcpPump::new();
    assert_eq!(
        p.on(TcpEvent::Read(Direction::GuestToNet, 100)),
        TcpAction::Write(Direction::GuestToNet, 100)
    );
    assert_eq!(
        p.on(TcpEvent::Written(Direction::GuestToNet, 100)),
        TcpAction::Read(Direction::GuestToNet)
    );
    assert_eq!(p.counters, FlowCounters { tx: 100, rx: 0 });
    assert_eq!(
        p.on(TcpEvent::Read(Direction::GuestToNet, 0)),
        TcpAction::HalfClose(Direction::GuestToNet)
    );
    assert_eq!(
        p.on(TcpEvent::Read(Direction::NetToGuest, 0)),
        TcpAction::Finish
    );
    let mut p = TcpPump::new();
    match p.on(TcpEvent::ReadFailed(Direction::NetToGuest, "reset".into())) {
        TcpAction::Abort(e) => assert!(e.text().contains("reset")),
        a => panic!("{a:?}"),
    }
    match TcpPump::new().on(TcpEvent::Cancelled) {
        TcpAction::Abort(e) => assert!(matches!(e, FlowError::SessionClosed)),
        a => panic!("{a:?}"),
    }
}

#[test]
fn a_udp_flow_counts_and_ends() {
    let mut c = FlowCounters { tx: 0, rx: 0 };
    assert_eq!(udp_step(&mut c, false, UdpEvent::FromGuest(10)), UdpAction::Send);
    assert_eq!(udp_step(&mut c, false, UdpEvent::FromNet(20)), UdpAction::Deliver);
    assert_eq!(c, FlowCounters { tx: 10, rx: 20 });
    assert_eq!(udp_step(&mut c, false, UdpEvent::Idle), UdpAction::Finish);
    assert!(matches!(
        udp_step(&mut c, false, UdpEvent::WriteFailed("x".into())),
        UdpAction::Abort(_)
    ));
}

#[test]
fn flows_are_numbered() {
    let mut s = shared();
    let f = s.open_flow(Proto::Tcp, sock("10.77.0.2:5"), sock("1.1.1.1:443"), 9);
    assert_eq!((f.id, f.opened_at, s.active_flows), (1, 9, 1));
    let g = s.open_flow(Proto::Udp, sock("10.77.0.2:6"), sock("1.1.1.1:53"), 10);
    assert_eq!((g.id, s.active_flows), (2, 2));
    let ev = s.close_flow(f.id, FlowCounters { tx: 3, rx: 4 });
    assert!(matches!(
        ev,
        HostEvent::FlowClosed { id: 1, tx_bytes: 3, rx_bytes: 4 }
    ));
    assert_eq!(s.active_flows, 1);
}

// Echo replies.

fn sum(b: &[u8]) -> u16 {
    let mut s: u32 = 0;
    for c in b.chunks(2) {
        s += u32::from(c[0]) * 256 + u32::from(*c.get(1).unwrap_or(&0));
    }
    while s > 0xffff {
        s = (s & 0xffff) + (s >> 16);
    }
    s as u16
}

#[test]
fn an_echo_request_is_answered() {
    let mut request = vec![8, 0, 0, 0, 0x12, 0x34, 0, 7, b'p', b'i', b'n', b'g', b'!'];
    let check = !sum(&request);
    request[2..4].copy_from_slice(&check.to_be_bytes());
    let reply = reply_to(&request).unwrap();
    assert_eq!(reply[0], 0);
    assert_eq!(&reply[4..], &request[4..]);
    assert_eq!(sum(&reply), 0xffff);
    let gw = Ipv4Addr::new(10, 77, 0, 1);
    assert_eq!(
        handle_unknown_transport(ICMP, IpAddr::V4(gw), gw, &request),
        Some(reply)
    );
    assert_eq!(
        handle_unknown_transport(ICMP, ip("1.1.1.1"), gw, &request),
        None
    );
    assert_eq!(handle_unknown_transport(17, IpAddr::V4(gw), gw, &request), None);
    // Not an echo request, or not even a header.
    request[0] = 3;
    assert_eq!(reply_to(&request), None);
    assert_eq!(reply_to(&[8, 0, 1]), None);
}

// Packet device.

#[test]
fn packets_are_never_truncated() {
    assert_eq!(read_step(Inbound::Packet(1400), 1400), ReadStep::Deliver);
    assert_eq!(read_step(Inbound::Packet(1401), 1400), ReadStep::Drop);
    assert_eq!(read_step(Inbound::Closed, 1400), ReadStep::Park);
    assert_eq!(write_step(Outbound::Ready, 60), WriteStep::Send(60));
    assert_eq!(write_step(Outbound::Full, 60), WriteStep::Wait);
    assert_eq!(write_step(Outbound::Closed, 60), WriteStep::BrokenPipe);
}

// Guest.

#[test]
fn the_guest_shakes_hands() {
    assert_eq!(
        Handshake::hello("me"),
        Frame::Hello {
            version: PROTOCOL_VERSION,
            name: "me".into()
        }
    );
    let read = |f: Frame| HandshakeRead::Frame(f);
    let h = Handshake::Greeting.sent(HandshakeSent::Done);
    let h = h.received(
        read(Frame::Hello {
            version: PROTOCOL_VERSION,
            name: "mac".into(),
        }),
        String::new(),
    );
    let h = h.received(read(Frame::Config(TunnelConfig::default())), String::new());
    assert!(matches!(h, Handshake::Done(name, _) if name == "mac"));

    let other = Handshake::Greeting.sent(HandshakeSent::Done).received(
        read(Frame::Hello {
            version: 99,
            name: "mac".into(),
        }),
        String::new(),
    );
    assert!(matches!(
        other,
        Handshake::Failed(HandshakeFailure::VersionMismatch(99))
    ));
}

#[test]
fn the_guest_pump_watches_the_host() {
    let mut p = Pump::new(1000, 15_000, Some("en1".to_string()));
    assert!(matches!(
        p.on(&PumpEvent::Frame(Frame::Ping(9)), 2000),
        PumpAction::Pong(9)
    ));
    assert!(matches!(p.on(&PumpEvent::PingTick, 16_000), PumpAction::Ping));
    assert!(matches!(
        p.on(&PumpEvent::PingTick, 17_001),
        PumpAction::End(SessionEnd::Lost(Reason::KeepaliveTimeout(_)))
    ));
    assert!(matches!(
        p.on(&PumpEvent::Frame(Frame::Bye), 0),
        PumpAction::End(SessionEnd::HostClosed(Reason::HostBye))
    ));
    assert!(matches!(
        p.on(&PumpEvent::LinkTick(Some(false)), 0),
        PumpAction::End(SessionEnd::Lost(Reason::LinkLost(i))) if i == "en1"
    ));
    assert!(matches!(
        p.on(&PumpEvent::Shutdown, 0),
        PumpAction::End(SessionEnd::Shutdown)
    ));
}

fn guest(host: HostTarget, reconnect: bool) -> Guest {
    Guest::new(
        GuestConfig {
            host,
            reconnect,
            ..GuestConfig::for_host(Some("me".to_string()))
        },
        Timings::default(),
    )
}

fn states(effects: &[Effect]) -> Vec<&StateNote> {
    effects
        .iter()
        .filter_map(|e| match e {
            Effect::State(s) => Some(s),
            _ => None,
        })
        .collect()
}

/// Bring a guest to the point where it probes a ready interface.
fn probing(g: Guest) -> (Guest, Work) {
    let (g, _, w) = g.step(Report::Egress(Some("en0".to_string())));
    assert!(matches!(w, Work::PollShutdown));
    let (g, _, w) = g.step(Report::Polled(false));
    assert!(matches!(w, Work::ListInterfaces));
    let (g, effects, w) = g.step(Report::Listed(vec![link("bridge0", 20, true)]));
    assert!(matches!(effects[0], Effect::Interfaces));
    assert!(matches!(states(&effects)[..], [StateNote::Discovering(i)] if i == "bridge0"));
    (g, w)
}

#[test]
fn a_guest_session_from_discovery_to_shutdown() {
    let (g, w) = probing(guest(HostTarget::Auto, true));
    assert!(matches!(w, Work::Probe { at: 0, .. }));
    let host = sock("[fe80::1%20]:27778");
    let (g, _, w) = g.step(Report::Probed(Some(("mac".to_string(), host))));
    assert!(matches!(w, Work::Connect { host: Endpoint::Tcp(a), .. } if a == host));
    let (g, _, w) = g.step(Report::Connected);
    assert!(matches!(w, Work::Handshake { .. }));
    let (g, _, w) = g.step(Report::Greeted("mac".to_string(), TunnelConfig::default()));
    assert!(matches!(w, Work::MeasureLink));
    let speed = LinkSpeed {
        up_bytes: 1,
        up_nanos: 1,
        down_bytes: 1,
        down_nanos: 1,
    };
    let (g, effects, w) = g.step(Report::Measured(speed));
    assert!(matches!(effects[0], Effect::LinkSpeed(_)));
    assert!(matches!(w, Work::OpenTun(_)));
    let (g, _, w) = g.step(Report::TunOpened("utun4".to_string()));
    assert!(matches!(
        w,
        Work::Apply { ref tun, routes: RouteMode::Full, set_dns, .. }
            if tun == "utun4" && set_dns == g.core.cfg.set_dns
    ));
    let (g, effects, w) = g.step(Report::Applied { now: 77 });
    assert!(matches!(w, Work::Pump { link_iface: Some(i) } if i == "bridge0"));
    let up = effects.iter().find_map(|e| e.event(&g.core).filter(|e| matches!(e, GuestEvent::StateChanged(_))));
    assert!(up.is_some());
    // The interface list is refreshed while the tunnel is up.
    let (g, effects, w) = g.step(Report::Listed(vec![link("bridge0", 20, true)]));
    assert!(effects.is_empty() && matches!(w, Work::Continue));
    let (g, effects, w) = g.step(Report::Listed(vec![link("en7", 21, true)]));
    assert!(matches!(effects[..], [Effect::Interfaces]) && matches!(w, Work::Continue));
    let (g, effects, w) = g.step(Report::Ended(SessionEnd::Shutdown));
    assert!(matches!(effects[..], [Effect::Bye(500), Effect::Disconnect]));
    assert!(matches!(w, Work::Revert));
    let (g, effects, w) = g.step(Report::Reverted(None));
    assert!(matches!(effects[0], Effect::CloseTun));
    assert!(matches!(w, Work::ReadEgress));
    let (_, effects, w) = g.step(Report::Egress(None));
    assert!(matches!(effects.last(), Some(Effect::Log(LogNote::Stopped))));
    assert!(matches!(w, Work::Return(None)));
}

#[test]
fn a_silent_host_is_looked_for_ever_more_rarely() {
    let (mut g, _) = probing(guest(HostTarget::Auto, true));
    let mut pauses = vec![];
    for _ in 0..7 {
        let (next, _, w) = g.step(Report::Probed(None));
        assert!(matches!(w, Work::AskNeighbor { at: 0 }));
        let (next, _, w) = next.step(Report::Neighbor(None));
        let Work::Sleep(ms) = w else { panic!("{w:?}") };
        pauses.push(ms);
        let (next, _, _) = next.step(Report::Rested);
        let (next, _, _) = next.step(Report::Polled(false));
        let (next, effects, _) = next.step(Report::Listed(vec![link("bridge0", 20, true)]));
        // Nothing has changed, so nothing is reported.
        assert!(effects.is_empty());
        g = next;
    }
    assert_eq!(pauses, vec![1000, 2000, 4000, 8000, 16_000, 30_000, 30_000]);
}

#[test]
fn a_failed_configuration_is_undone() {
    let (g, _) = probing(guest(HostTarget::Auto, false));
    let (g, _, _) = g.step(Report::Probed(Some((
        "mac".to_string(),
        sock("[fe80::1%20]:27778"),
    ))));
    let (g, _, _) = g.step(Report::Connected);
    let (g, _, _) = g.step(Report::Greeted("mac".to_string(), TunnelConfig::default()));
    let (g, _, w) = g.step(Report::NotMeasured {
        error: SpeedError::Timeout,
        detail: String::new(),
    });
    assert!(matches!(w, Work::OpenTun(_)));
    let (g, _, _) = g.step(Report::TunOpened("utun4".to_string()));
    let (g, _, w) = g.step(Report::ApplyFailed("no route".to_string()));
    assert!(matches!(w, Work::Revert));
    let (_, effects, w) = g.step(Report::Reverted(None));
    assert!(effects.iter().any(|e| matches!(e, Effect::CloseTun)));
    assert!(matches!(w, Work::Return(Some(Reason::Apply(e))) if e == "no route"));
}

#[test]
fn a_guest_waits_for_a_cable() {
    let (g, _, _) = guest(HostTarget::Auto, true).step(Report::Egress(None));
    let (g, _, _) = g.step(Report::Polled(false));
    let (g, effects, w) = g.step(Report::Listed(vec![link("en1", 5, false)]));
    assert!(matches!(states(&effects)[..], [StateNote::WaitingForLink]));
    assert!(matches!(w, Work::Sleep(1000)));
    let (_, _, w) = g.step(Report::Shutdown);
    assert!(matches!(w, Work::Return(None)));
}

#[test]
fn a_manual_target_needs_its_carrier() {
    let addr = sock("[fe80::1%5]:27778");
    let (g, _, _) = guest(HostTarget::Manual(addr), true).step(Report::Egress(None));
    let (g, _, _) = g.step(Report::Polled(false));
    let (g, _, w) = g.step(Report::Listed(vec![link("en1", 5, true)]));
    assert!(matches!(w, Work::CheckLink(i) if i == "en1"));
    let (g, _, w) = g.step(Report::Carrier(Some(false)));
    assert!(matches!(w, Work::Sleep(_)));
    let (g, _, _) = g.step(Report::Rested);
    let (g, _, _) = g.step(Report::Polled(false));
    let (g, _, _) = g.step(Report::Listed(vec![link("en1", 5, true)]));
    let (_, _, w) = g.step(Report::Carrier(None));
    assert!(matches!(w, Work::Connect { .. }));
}

#[test]
fn a_serial_target_skips_discovery() {
    let target = HostTarget::Serial {
        path: "/dev/ttyA".to_string(),
        baud: 921_600,
    };
    let (g, _, _) = guest(target, true).step(Report::Egress(None));
    let (g, _, _) = g.step(Report::Polled(false));
    let (_, effects, w) = g.step(Report::Listed(vec![]));
    assert!(matches!(
        states(&effects)[..],
        [StateNote::Discovering(p), StateNote::Connecting(_)] if p == "/dev/ttyA"
    ));
    assert!(matches!(
        w,
        Work::Connect { host: Endpoint::Serial(p), baud: 921_600, .. } if p == "/dev/ttyA"
    ));
}

#[test]
fn defaults_of_the_protocol() {
    assert_eq!(DATA_PORT, 27778);
    assert!(matches!(
        GuestConfig::for_host(None).routes,
        RouteMode::Full
    ));
    assert_eq!(GuestConfig::for_host(None).name, "netm-guest");
}
