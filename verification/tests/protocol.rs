//! Frames, discovery messages, links, rates and the link probe.

use std::time::Duration;

use bytes::{BufMut, Bytes, BytesMut};
use netm::discovery::{
    multicast_group, Discovered, DiscoveryMessage, ProbeWork, Prober, Responder,
};
use netm::frame::{
    Frame, FrameCodec, FrameError, FrameKind, TunnelConfig, MAX_FRAME_SIZE, TYPE_BYE, TYPE_CONFIG,
    TYPE_HELLO, TYPE_IP_PACKET, TYPE_PING,
};
use netm::link::{
    classify, collect, collect_windows, generic_from_state, list_candidate_interfaces, merge,
    parse_hardware_ports, sort_links, IfEntry, IfState, LinkInterface, LinkKind, WinEntry,
};
use netm::net::{parse_ipv6, parse_socket, Ipv4Addr, Ipv6Addr, SocketAddr};
use netm::speed::{Params, Phase, Probe, Received, Reply, Role, SpeedError, Work};
use netm::stats::{Counters, Rate, RateMeter};
use netm::text::chars;
use netm::{DATA_PORT, PROTOCOL_VERSION};

fn sock(s: &str) -> SocketAddr {
    parse_socket(&chars(s)).unwrap()
}

fn v6(s: &str) -> Ipv6Addr {
    parse_ipv6(&chars(s)).unwrap()
}

// Frames.

fn sample_frames() -> Vec<Frame> {
    vec![
        Frame::Hello {
            version: 1,
            name: "guest-mbp".to_string(),
        },
        Frame::Config(TunnelConfig::default()),
        Frame::Config(TunnelConfig {
            guest_ip: Ipv4Addr::new(192, 168, 200, 9),
            gateway_ip: Ipv4Addr::new(192, 168, 200, 1),
            prefix_len: 16,
            dns: Ipv4Addr::new(1, 1, 1, 1),
            mtu: 1280,
        }),
        Frame::IpPacket(Bytes::from_static(&[0x45, 0x00, 0x00, 0x14, 1, 2, 3, 4])),
        Frame::IpPacket(Bytes::new()),
        Frame::Ping(0),
        Frame::Ping(u64::MAX),
        Frame::Pong(0xdead_beef_cafe_babe),
        Frame::Bye,
    ]
}

fn encode_all(frames: &[Frame]) -> BytesMut {
    let mut codec = FrameCodec;
    let mut buf = BytesMut::new();
    for f in frames {
        codec.encode(f.clone(), &mut buf).unwrap();
    }
    buf
}

#[test]
fn round_trip_every_variant() {
    let frames = sample_frames();
    let mut buf = encode_all(&frames);
    let mut codec = FrameCodec;
    let mut out = Vec::new();
    while let Some(f) = codec.decode(&mut buf).unwrap() {
        out.push(f);
    }
    assert_eq!(out, frames);
    assert!(buf.is_empty());
}

#[test]
fn speed_frames_round_trip() {
    let frames = vec![
        Frame::SpeedChunk(Bytes::from_static(b"0123456789")),
        Frame::SpeedDone(70_000),
        Frame::SpeedResult {
            bytes: 70_000,
            nanos: 1_234_567,
        },
    ];
    let mut buf = encode_all(&frames);
    let mut codec = FrameCodec;
    for f in frames {
        assert_eq!(codec.decode(&mut buf).unwrap(), Some(f));
    }
    assert_eq!(codec.decode(&mut buf).unwrap(), None);
}

#[test]
fn header_layout_matches_spec() {
    let mut buf = BytesMut::new();
    FrameCodec
        .encode(Frame::Ping(0x0102_0304_0506_0708), &mut buf)
        .unwrap();
    // length = 1 (type) + 8 (payload) = 9
    assert_eq!(&buf[..], &[0, 0, 0, 9, TYPE_PING, 1, 2, 3, 4, 5, 6, 7, 8]);

    let mut buf = BytesMut::new();
    FrameCodec.encode(Frame::Bye, &mut buf).unwrap();
    assert_eq!(&buf[..], &[0, 0, 0, 1, TYPE_BYE]);

    let pkt = Bytes::from_static(b"\x45abc");
    let mut buf = BytesMut::new();
    FrameCodec
        .encode(Frame::IpPacket(pkt.clone()), &mut buf)
        .unwrap();
    assert_eq!(&buf[..5], &[0, 0, 0, 5, TYPE_IP_PACKET]);
    assert_eq!(&buf[5..], &pkt[..]);
}

#[test]
fn hello_and_config_bytes() {
    let mut buf = BytesMut::new();
    FrameCodec
        .encode(
            Frame::Hello {
                version: 300,
                name: "ab".to_string(),
            },
            &mut buf,
        )
        .unwrap();
    assert_eq!(&buf[..], &[0, 0, 0, 6, TYPE_HELLO, 0xac, 0x02, 2, b'a', b'b']);

    let (kind, payload) = FrameCodec::encode_payload(&Frame::Config(TunnelConfig::default())).unwrap();
    assert_eq!(kind, TYPE_CONFIG);
    assert_eq!(
        &payload[..],
        &[10, 77, 0, 2, 10, 77, 0, 1, 24, 10, 77, 0, 1, 0xf8, 0x0a]
    );
    assert_eq!(
        FrameCodec::decode_payload(kind, payload).unwrap(),
        Frame::Config(TunnelConfig::default())
    );
}

#[test]
fn partial_reads_byte_by_byte() {
    let frames = sample_frames();
    let wire = encode_all(&frames);
    let mut codec = FrameCodec;
    let mut buf = BytesMut::new();
    let mut out = Vec::new();
    for (i, b) in wire.iter().enumerate() {
        buf.put_u8(*b);
        let is_last = i + 1 == wire.len();
        match codec.decode(&mut buf).unwrap() {
            Some(f) => out.push(f),
            None => assert!(!is_last || out.len() == frames.len()),
        }
    }
    assert_eq!(out, frames);
}

#[test]
fn oversized_frame_rejected() {
    let mut buf = BytesMut::new();
    buf.put_u32((MAX_FRAME_SIZE + 1) as u32);
    buf.put_u8(TYPE_IP_PACKET);
    let err = FrameCodec.decode(&mut buf).unwrap_err();
    assert!(matches!(err, FrameError::TooLarge(n) if n == MAX_FRAME_SIZE + 1));

    // Exactly MAX_FRAME_SIZE is allowed on encode (type byte + payload).
    let big = Bytes::from(vec![0u8; MAX_FRAME_SIZE - 1]);
    let mut buf = BytesMut::new();
    FrameCodec
        .encode(Frame::IpPacket(big.clone()), &mut buf)
        .unwrap();
    assert_eq!(
        FrameCodec.decode(&mut buf).unwrap(),
        Some(Frame::IpPacket(big))
    );

    // One more byte and the encoder refuses.
    let too_big = Bytes::from(vec![0u8; MAX_FRAME_SIZE]);
    let mut buf = BytesMut::new();
    let err = FrameCodec
        .encode(Frame::IpPacket(too_big), &mut buf)
        .unwrap_err();
    assert!(matches!(err, FrameError::TooLarge(_)));
}

#[test]
fn malformed_frames_rejected() {
    let mut buf = BytesMut::new();
    buf.put_u32(0);
    assert!(matches!(
        FrameCodec.decode(&mut buf).unwrap_err(),
        FrameError::Empty
    ));

    let mut buf = BytesMut::new();
    buf.put_u32(1);
    buf.put_u8(0x7f);
    assert!(matches!(
        FrameCodec.decode(&mut buf).unwrap_err(),
        FrameError::UnknownType(0x7f)
    ));

    let mut buf = BytesMut::new();
    buf.put_u32(3);
    buf.put_u8(TYPE_PING);
    buf.put_u16(0);
    assert!(matches!(
        FrameCodec.decode(&mut buf).unwrap_err(),
        FrameError::PayloadLength {
            kind: TYPE_PING,
            len: 2
        }
    ));

    let mut buf = BytesMut::new();
    buf.put_u32(2);
    buf.put_u8(TYPE_BYE);
    buf.put_u8(0);
    assert!(matches!(
        FrameCodec.decode(&mut buf).unwrap_err(),
        FrameError::PayloadLength {
            kind: TYPE_BYE,
            len: 1
        }
    ));
}

#[test]
fn a_broken_payload_is_reported() {
    let mut buf = BytesMut::new();
    buf.put_u32(2);
    buf.put_u8(TYPE_HELLO);
    buf.put_u8(0x80);
    assert!(matches!(
        FrameCodec.decode(&mut buf).unwrap_err(),
        FrameError::Payload {
            kind: TYPE_HELLO,
            ..
        }
    ));
    // A name that is no UTF-8.
    let mut buf = BytesMut::new();
    buf.put_u32(4);
    buf.put_u8(TYPE_HELLO);
    buf.put_slice(&[1, 1, 0xff]);
    assert!(matches!(
        FrameCodec.decode(&mut buf).unwrap_err(),
        FrameError::Payload {
            kind: TYPE_HELLO,
            ..
        }
    ));
}

#[test]
fn a_read_leaves_what_follows() {
    let mut buf = encode_all(&[Frame::Ping(7)]);
    buf.put_slice(&[0, 0, 0, 9, TYPE_PING, 1]);
    assert_eq!(FrameCodec.decode(&mut buf).unwrap(), Some(Frame::Ping(7)));
    assert_eq!(FrameCodec.decode(&mut buf).unwrap(), None);
    assert_eq!(&buf[..], &[0, 0, 0, 9, TYPE_PING, 1]);
}

#[test]
fn frame_kinds_have_names() {
    assert_eq!(Frame::Ping(1).kind(), FrameKind::Ping);
    assert_eq!(Frame::Ping(1).kind().name(), "Ping");
    assert_eq!(
        Frame::SpeedResult { bytes: 1, nanos: 1 }.kind().name(),
        "SpeedResult"
    );
}

// Discovery.

#[test]
fn probe_offer_round_trip() {
    let msgs = [
        DiscoveryMessage::Probe {
            version: PROTOCOL_VERSION,
            nonce: 0x0123_4567_89ab_cdef,
        },
        DiscoveryMessage::Offer {
            version: PROTOCOL_VERSION,
            nonce: u64::MAX,
            data_port: DATA_PORT,
            host_name: "studio".to_string(),
        },
    ];
    for m in msgs {
        let bytes = m.encode().unwrap();
        assert!(bytes.starts_with(b"NETM"));
        assert!(bytes.len() < 64, "discovery datagrams must stay tiny");
        assert_eq!(DiscoveryMessage::decode(&bytes), Some(m));
    }
}

#[test]
fn garbage_is_rejected() {
    assert_eq!(DiscoveryMessage::decode(b""), None);
    assert_eq!(DiscoveryMessage::decode(b"NETM"), None);
    assert_eq!(DiscoveryMessage::decode(b"XXXX\x00\x01"), None);
    assert_eq!(DiscoveryMessage::decode(b"NETM\x09"), None);
}

#[test]
fn a_probe_is_written_byte_for_byte() {
    let m = DiscoveryMessage::Probe {
        version: 1,
        nonce: 300,
    };
    assert_eq!(m.encode().unwrap(), b"NETM\x00\x01\xac\x02");
}

#[test]
fn the_responder_answers_probes_only() {
    let responder = Responder::new(4242, "test-host".to_string());
    let probe = DiscoveryMessage::Probe {
        version: PROTOCOL_VERSION,
        nonce: 99,
    };
    let reply = responder.answer(&probe.encode().unwrap()).unwrap().unwrap();
    assert_eq!(
        DiscoveryMessage::decode(&reply),
        Some(DiscoveryMessage::Offer {
            version: PROTOCOL_VERSION,
            nonce: 99,
            data_port: 4242,
            host_name: "test-host".to_string(),
        })
    );
    assert_eq!(responder.answer(&reply).unwrap(), None);
    assert_eq!(responder.answer(b"noise").unwrap(), None);
    let foreign = DiscoveryMessage::Probe {
        version: PROTOCOL_VERSION + 1,
        nonce: 99,
    };
    assert_eq!(responder.answer(&foreign.encode().unwrap()).unwrap(), None);
    assert!(Responder::joins(7));
    assert!(!Responder::joins(0));
    assert_eq!(multicast_group().text(), "ff02::1");
}

#[test]
fn a_prober_finds_its_host() {
    let mut prober = Prober::new(5, 20, 1000, 400);
    assert_eq!(prober.work(1000), ProbeWork::Send);
    let probe = prober.datagram().unwrap();
    prober.sent(1000);
    assert!(matches!(prober.work(1000), ProbeWork::Receive { .. }));
    let responder = Responder::new(27778, "mac".to_string());
    let offer = responder.answer(&probe).unwrap().unwrap();
    let from = sock("[fe80::2%20]:27777");
    let found: Discovered = prober.received(&offer, from).unwrap();
    assert_eq!(found.host_name, "mac");
    assert_eq!(found.host_addr.text(), "[fe80::2%20]:27778");
    // An offer for another probe is ignored.
    let stale = DiscoveryMessage::Offer {
        version: PROTOCOL_VERSION,
        nonce: 6,
        data_port: 1,
        host_name: "old".to_string(),
    };
    assert!(prober.received(&stale.encode().unwrap(), from).is_none());
    assert_eq!(prober.work(1400), ProbeWork::GiveUp);
}

#[test]
fn a_prober_sends_again_after_a_silence() {
    let mut prober = Prober::new(5, 20, 0, 2000);
    prober.sent(0);
    assert_eq!(prober.work(0), ProbeWork::Receive { wait: 500 });
    prober.timed_out();
    assert_eq!(prober.work(500), ProbeWork::Send);
    prober.sent(1800);
    assert_eq!(prober.work(1800), ProbeWork::Receive { wait: 200 });
}

#[test]
fn frame_errors_are_told_in_words() {
    assert_eq!(
        FrameError::TooLarge(70000).text(""),
        "frame too large: 70000 bytes (max 65536)"
    );
    assert_eq!(FrameError::Empty.text(""), "empty frame (length field is 0)");
    assert_eq!(FrameError::UnknownType(7).text(""), "unknown frame type 7");
    assert_eq!(
        FrameError::PayloadLength { kind: 4, len: 3 }.text(""),
        "invalid payload length 3 for frame type 4"
    );
    let broken = FrameCodec::decode_payload(TYPE_HELLO, Bytes::from_static(&[0xff])).unwrap_err();
    assert_eq!(
        broken.text("end of input"),
        "invalid payload for frame type 1: end of input"
    );
}

// Links.

const SAMPLE: &str = "\
Hardware Port: Ethernet Adapter (en4)
Device: en4
Ethernet Address: c6:cf:36:60:31:6a

Hardware Port: Thunderbolt Bridge
Device: bridge0
Ethernet Address: 36:40:d9:d4:d1:80

Hardware Port: Wi-Fi
Device: en0
Ethernet Address: ac:07:75:32:e2:7c

Hardware Port: Thunderbolt 1
Device: en1
Ethernet Address: 36:40:d9:d4:d1:80

Hardware Port: USB 10/100/1000 LAN
Device: en7
Ethernet Address: 00:e0:4c:68:00:01

VLAN Configurations
===================
";

#[test]
fn parses_networksetup_output() {
    let ports = parse_hardware_ports(SAMPLE);
    let names: Vec<_> = ports
        .iter()
        .map(|p| (p.port.as_str(), p.device.as_str()))
        .collect();
    assert_eq!(
        names,
        vec![
            ("Ethernet Adapter (en4)", "en4"),
            ("Thunderbolt Bridge", "bridge0"),
            ("Wi-Fi", "en0"),
            ("Thunderbolt 1", "en1"),
            ("USB 10/100/1000 LAN", "en7"),
        ]
    );
}

#[test]
fn classifies_ports() {
    assert_eq!(
        classify("Thunderbolt Bridge", "bridge0"),
        Some(LinkKind::ThunderboltBridge)
    );
    assert_eq!(
        classify("Thunderbolt 1", "en1"),
        Some(LinkKind::Thunderbolt)
    );
    assert_eq!(
        classify("Thunderbolt 4", "en3"),
        Some(LinkKind::Thunderbolt)
    );
    assert_eq!(
        classify("USB 10/100/1000 LAN", "en7"),
        Some(LinkKind::UsbEthernet)
    );
    assert_eq!(
        classify("Ethernet Adapter (en4)", "en4"),
        Some(LinkKind::UsbEthernet)
    );
    assert_eq!(classify("iPhone USB", "en8"), Some(LinkKind::UsbEthernet));
    assert_eq!(classify("Wi-Fi", "en0"), None);
    assert_eq!(classify("Bluetooth PAN", "en9"), None);
    assert_eq!(classify("Ethernet", "en10"), Some(LinkKind::Other));
}

#[test]
fn merge_orders_and_filters() {
    let ports = parse_hardware_ports(SAMPLE);
    let state = vec![IfState {
        name: "bridge0".to_string(),
        index: 20,
        is_up: true,
        is_loopback: false,
        link_local_v6: Some(v6("fe80::1")),
    }];
    let mut list = merge(&ports, &state);
    list.sort_by(|a, b| a.kind.cmp(&b.kind).then_with(|| a.name.cmp(&b.name)));
    let kinds: Vec<_> = list.iter().map(|l| (l.name.as_str(), l.kind)).collect();
    assert_eq!(
        kinds,
        vec![
            ("bridge0", LinkKind::ThunderboltBridge),
            ("en1", LinkKind::Thunderbolt),
            ("en4", LinkKind::UsbEthernet),
            ("en7", LinkKind::UsbEthernet),
        ]
    );
    assert_eq!(list[0].index, 20);
    assert!(list[0].is_ready());
    assert!(!list[1].is_ready());
    // The library's own order is the same.
    assert_eq!(list_candidate_interfaces(Some(&ports), &state), list);
}

#[test]
fn a_plugged_in_interface_need_not_be_a_hardware_port() {
    let ports = parse_hardware_ports(SAMPLE);
    let state = |name: &str, index: u32, up: bool| IfState {
        name: name.to_string(),
        index,
        is_up: up,
        is_loopback: name == "lo0",
        link_local_v6: Some(v6("fe80::1")),
    };
    let states = vec![
        state("awdl0", 3, true),
        state("en0", 4, true),
        state("en12", 9, true),
        state("en13", 10, false),
        state("lo0", 1, true),
        state("utun2", 8, true),
    ];
    let list = list_candidate_interfaces(Some(&ports), &states);
    let names: Vec<_> = list.iter().map(|l| l.name.as_str()).collect();
    assert_eq!(names, vec!["bridge0", "en1", "en4", "en7", "en12"]);
    assert_eq!((list[4].index, list[4].kind), (9, LinkKind::Other));
    assert!(list[4].is_ready());
}

#[test]
fn kinds_order_bridge_first() {
    assert!(LinkKind::ThunderboltBridge < LinkKind::Thunderbolt);
    assert!(LinkKind::Thunderbolt < LinkKind::UsbEthernet);
    assert!(LinkKind::UsbEthernet < LinkKind::Other);
}

fn entry(name: &str, up: bool, addr: Option<&str>) -> IfEntry {
    IfEntry {
        name: name.to_string(),
        up,
        running: up,
        is_loopback: name.starts_with("lo"),
        v6: addr.map(v6),
    }
}

#[test]
fn entries_are_collected_by_name() {
    let entries = vec![
        entry("eth1", true, None),
        entry("eth0", true, Some("2001:db8::1")),
        entry("eth0", true, Some("fe80::5")),
        entry("eth0", true, Some("fe80::6")),
        entry("lo", true, Some("fe80::9")),
    ];
    let mut states = collect(&entries);
    let names: Vec<_> = states.iter().map(|st| st.name.as_str()).collect();
    assert_eq!(names, vec!["eth0", "eth1", "lo"]);
    for st in states.iter_mut() {
        st.index = 4;
    }
    let list = generic_from_state(&states);
    assert_eq!(list.len(), 1);
    assert_eq!(list[0].name, "eth0");
    assert_eq!(list[0].link_local_v6, Some(v6("fe80::5")));
    assert_eq!(list[0].kind, LinkKind::Other);
}

#[test]
fn windows_entries_are_collected_by_name() {
    let win = |name: &str, index: Option<u32>, up: bool, addr: Option<&str>| WinEntry {
        name: name.to_string(),
        index,
        up,
        is_loopback: false,
        v6: addr.map(v6),
    };
    let entries = vec![
        win("Ethernet", Some(7), true, None),
        win("Ethernet", Some(9), false, Some("fe80::7")),
        win("Wi-Fi", None, true, Some("fe80::8")),
    ];
    let states = collect_windows(&entries);
    let list = list_candidate_interfaces(None, &states);
    assert_eq!(list.len(), 1);
    assert_eq!((list[0].index, list[0].is_up), (7, true));
    assert_eq!(list[0].link_local_v6, Some(v6("fe80::7")));
}

#[test]
fn links_are_sorted_by_kind_then_name() {
    let link = |name: &str, kind: LinkKind| LinkInterface {
        name: name.to_string(),
        index: 1,
        is_up: false,
        link_local_v6: None,
        kind,
    };
    let list = sort_links(vec![
        link("en9", LinkKind::Other),
        link("en7", LinkKind::UsbEthernet),
        link("en2", LinkKind::Thunderbolt),
        link("en1", LinkKind::Thunderbolt),
        link("bridge0", LinkKind::ThunderboltBridge),
    ]);
    let names: Vec<_> = list.iter().map(|l| l.name.as_str()).collect();
    assert_eq!(names, vec!["bridge0", "en1", "en2", "en7", "en9"]);
}

// Rates.

const SECOND: u64 = 1_000_000_000;

fn bps(rates: (Rate, Rate)) -> (f64, f64) {
    let one = |r: Rate| (r.bytes as f64) * 8.0 / Duration::from_nanos(r.nanos).as_secs_f64();
    (one(rates.0), one(rates.1))
}

/// Bytes in the window.
fn held(m: &mut RateMeter, now: u64) -> (u64, u64) {
    let (tx, rx) = m.rates(now);
    (tx.bytes, rx.bytes)
}

#[test]
fn counters_accumulate() {
    let mut m = RateMeter::default();
    assert_eq!(m.counters(), Counters::default());
    m.record_tx(100, 0);
    m.record_tx(50, 0);
    m.record_rx(7, 0);
    assert_eq!(
        m.counters(),
        Counters {
            tx_bytes: 150,
            rx_bytes: 7,
            tx_packets: 2,
            rx_packets: 1,
        }
    );
    m.reset();
    assert_eq!(m.counters(), Counters::default());
    assert_eq!(bps(m.rates(0)), (0.0, 0.0));
}

#[test]
fn counters_grow_by_what_is_recorded_until_they_wrap() {
    let mut m = RateMeter::default();
    m.record_tx(u64::MAX as usize - 10, 0);
    m.record_rx(3, 0);
    m.record_tx(10, 0);
    assert_eq!(
        m.counters(),
        Counters {
            tx_bytes: u64::MAX,
            rx_bytes: 3,
            tx_packets: 2,
            rx_packets: 1,
        }
    );
    assert_eq!(held(&mut m, 0), (u64::MAX, 3));
    // What was held is out of the window by now; the counter wraps around.
    m.record_tx(5, 10 * SECOND);
    assert_eq!(m.counters().tx_bytes, 4);
    assert_eq!(m.counters().tx_packets, 3);
    m.reset();
    assert_eq!(m.counters(), Counters::default());
    for now in [0, SECOND, u64::MAX] {
        assert_eq!(bps(m.rates(now)), (0.0, 0.0));
    }
}

#[test]
fn rates_reflect_window() {
    let mut m = RateMeter::new(SECOND);
    assert_eq!(bps(m.rates(0)), (0.0, 0.0));
    m.record_tx(1000, 5);
    m.record_rx(250, 5);
    let (tx, rx) = bps(m.rates(10));
    // 1000 bytes over a 1 s window = 8000 bit/s.
    assert!((tx - 8000.0).abs() < 1e-6, "tx = {tx}");
    assert!((rx - 2000.0).abs() < 1e-6, "rx = {rx}");
}

#[test]
fn rates_are_exact() {
    let mut m = RateMeter::new(3 * SECOND);
    m.record_tx(1, 0);
    let (tx, rx) = m.rates(0);
    assert_eq!(
        tx,
        Rate {
            bytes: 1,
            nanos: 3 * SECOND,
        }
    );
    assert_eq!(bps((tx, rx)), (8.0 / 3.0, 0.0));
    assert_eq!(tx.bits(), 2);
    assert_eq!(rx.bits(), 0);
    let most = Rate {
        bytes: u64::MAX,
        nanos: 1,
    };
    assert_eq!(most.bits(), u64::MAX);
    let at_once = |bytes: u64| Rate { bytes, nanos: 0 };
    assert_eq!(at_once(1).bits(), u64::MAX);
    assert_eq!(at_once(0).bits(), 0);
}

#[test]
fn a_full_window_wraps_around() {
    let mut m = RateMeter::default();
    m.record_rx(u64::MAX as usize, 0);
    m.record_rx(2, 0);
    assert_eq!(held(&mut m, 0), (0, 1));
    m.record_rx(5, SECOND / 2);
    assert_eq!(held(&mut m, SECOND / 2), (0, 6));
    assert_eq!(m.counters().rx_packets, 3);
}

#[test]
fn old_samples_expire() {
    let mut m = RateMeter::new(SECOND / 10);
    m.record_tx(1000, 0);
    assert!(bps(m.rates(0)).0 > 0.0);
    assert_eq!(bps(m.rates(SECOND / 4)), (0.0, 0.0));
    // Counters are cumulative and untouched by expiry.
    assert_eq!(m.counters().tx_bytes, 1000);
}

#[test]
fn samples_count_until_they_are_old() {
    let mut m = RateMeter::new(SECOND);
    m.record_tx(1000, 0);
    m.record_tx(500, SECOND / 2);
    assert_eq!(held(&mut m, SECOND / 2), (1500, 0));
    assert_eq!(held(&mut m, SECOND + SECOND / 4), (500, 0));
    assert_eq!(m.window(), SECOND);
}

// Link probe.

#[test]
fn both_sides_measure_the_same() {
    let params = Params::for_tests();
    let mut guest = Probe::new(Role::Initiator, params);
    let mut host = Probe::new(Role::Responder, params);
    let mut sent: u64 = 0;
    // Guest to host.
    loop {
        match guest.work(0) {
            Work::Chunk { len, .. } => {
                sent += len;
                let chunk = Received::Frame(Frame::SpeedChunk(Bytes::from(vec![0; len as usize])));
                assert!(matches!(host.received(&chunk, 10), Reply::Nothing));
            }
            Work::Done(n) => {
                assert_eq!(n, sent);
                break;
            }
            w => panic!("{w:?}"),
        }
    }
    assert_eq!(sent, params.max_bytes);
    let done = Received::Frame(Frame::SpeedDone(sent));
    let Reply::Result { bytes, nanos } = host.received(&done, 1010) else {
        panic!("no result");
    };
    assert_eq!((bytes, nanos), (sent, 1000));
    let told = Received::Frame(Frame::SpeedResult { bytes, nanos });
    assert!(matches!(guest.received(&told, 0), Reply::Nothing));
    // Host to guest.
    let mut back: u64 = 0;
    loop {
        match host.work(0) {
            Work::Chunk { len, .. } => {
                back += len;
                let chunk = Received::Frame(Frame::SpeedChunk(Bytes::from(vec![0; len as usize])));
                assert!(matches!(guest.received(&chunk, 2000), Reply::Nothing));
            }
            Work::Done(_) => break,
            w => panic!("{w:?}"),
        }
    }
    let done = Received::Frame(Frame::SpeedDone(back));
    let Reply::Result { bytes, nanos } = guest.received(&done, 4000) else {
        panic!("no result");
    };
    let told = Received::Frame(Frame::SpeedResult { bytes, nanos });
    let _ = host.received(&told, 0);
    assert_eq!(guest.phase, Phase::Measured);
    assert_eq!(host.phase, Phase::Measured);
    assert_eq!(guest.speed, host.speed);
    assert_eq!(guest.speed.up_bytes, sent);
    assert_eq!(guest.speed.down_bytes, back);
}

#[test]
fn a_silent_guest_is_no_failure() {
    let mut host = Probe::new(Role::Responder, Params::for_tests());
    let _ = host.received(&Received::TimedOut, 0);
    assert_eq!(host.phase, Phase::Skipped);
    let mut guest = Probe::new(Role::Initiator, Params::for_tests());
    while !matches!(guest.work(0), Work::Done(_)) {}
    let _ = guest.received(&Received::TimedOut, 0);
    assert_eq!(guest.phase, Phase::Failed(SpeedError::Timeout));
}
