//! The TUI: models, keys and what the screens show.

use netm::cidr::parse_net;
use netm::cli::{GuestArgs, HostArgs};
use netm::frame::TunnelConfig;
use netm::guest::{GuestConfig, GuestEvent, GuestState, RouteMode};
use netm::host::{FlowInfo, GuestInfo, HostEvent, Proto};
use netm::link::{LinkInterface, LinkKind};
use netm::model::{
    age, guest_state_busy, guest_state_detail, guest_state_label, link_kind_label, proto_label,
    FlowTable, GuestModel, HostModel, LogBuffer, Throughput, LOG_CAPACITY, SPARK_SAMPLES,
};
use netm::net::{parse_ipv6, parse_socket, Endpoint, Ipv4Addr, SocketAddr};
use netm::platform::Os;
use netm::report::{Event, Level};
use netm::settings::{Config, Mode};
use netm::speed::LinkSpeed;
use netm::stats::{Counters, Rate};
use netm::text::chars;
use netm::tui::{
    guest_summary, App, Input, KeyCode, KeyEvent, Machine, Moment, Outcome, Pending, Screen, Start,
    Wake, Work,
};
use netm::view::{self, Color, Content, Span, Style};

fn sock(s: &str) -> SocketAddr {
    parse_socket(&chars(s)).unwrap()
}

// Models.

fn flow(id: u64, proto: Proto) -> FlowInfo {
    FlowInfo {
        id,
        proto,
        src: sock("10.77.0.2:50000"),
        dst: sock("1.1.1.1:443"),
        tx_bytes: 0,
        rx_bytes: 0,
        opened_at: 0,
    }
}

/// So many bits per second.
fn per_second(bits: u64) -> Rate {
    Rate {
        bytes: bits,
        nanos: 8_000_000_000,
    }
}

#[test]
fn each_direction_is_counted_by_itself() {
    let mut t = FlowTable::default();
    assert!(!t.close(1, u64::MAX, 5));
    assert!(!t.close(2, 0, u64::MAX - 5));
    assert_eq!(t.closed_count, 2);
    assert_eq!(t.closed_tx_bytes, u64::MAX);
    assert_eq!(t.closed_rx_bytes, u64::MAX);
}

#[test]
fn flow_table_tracks_open_close_and_totals() {
    let mut t = FlowTable::default();
    t.open(flow(1, Proto::Tcp));
    t.open(flow(2, Proto::Udp));
    assert_eq!(t.active_len(), 2);
    // Newest first.
    let ids: Vec<u64> = t.active().iter().map(|f| f.id).collect();
    assert_eq!(ids, vec![2, 1]);

    assert!(t.close(1, 100, 200));
    assert_eq!(t.active_len(), 1);
    assert_eq!(t.closed_count, 1);
    assert_eq!(t.total_bytes(), 300);

    // Closing an unknown flow still counts bytes but reports unknown.
    assert!(!t.close(99, 1, 1));
    assert_eq!(t.closed_count, 2);
    assert_eq!(t.total_bytes(), 302);

    t.clear_active();
    assert_eq!(t.active_len(), 0);
}

#[test]
fn host_model_applies_events() {
    let mut m = HostModel::new("mac".into());
    let addr = sock("[::]:27778");
    m.apply(&HostEvent::Listening { addr });
    assert_eq!(m.listening, Some(addr));

    let peer = sock("[fe80::1]:5000");
    m.apply(&HostEvent::GuestConnected(GuestInfo {
        peer: Endpoint::Tcp(peer),
        name: "win".into(),
        connected_at: 0,
        assigned_ip: Ipv4Addr::new(10, 77, 0, 2),
    }));
    assert!(m.guest.is_some());
    m.apply(&HostEvent::FlowOpened(flow(7, Proto::Tcp)));
    assert_eq!(m.flows.active_len(), 1);
    m.apply(&HostEvent::FlowClosed {
        id: 7,
        tx_bytes: 10,
        rx_bytes: 20,
    });
    assert_eq!(m.flows.active_len(), 0);
    assert_eq!(m.flows.total_bytes(), 30);

    m.apply(&HostEvent::FlowOpened(flow(8, Proto::Udp)));
    m.apply(&HostEvent::GuestDisconnected {
        peer: Endpoint::Tcp(peer),
        reason: "bye".into(),
    });
    assert!(m.guest.is_none());
    assert_eq!(m.last_disconnect.as_deref(), Some("bye"));
    assert_eq!(
        m.flows.active_len(),
        0,
        "active flows cleared on disconnect"
    );

    m.apply(&HostEvent::Stats {
        counters: Counters::default(),
        tx_bps: per_second(8000),
        rx_bps: per_second(16000),
        active_flows: 3,
    });
    assert_eq!(m.active_flows_reported, 3);
    assert_eq!(m.throughput.tx_history().back(), Some(&8000));
}

#[test]
fn guest_state_labels() {
    assert_eq!(
        guest_state_label(&GuestState::WaitingForLink),
        "等待 Type-C 连接"
    );
    assert_eq!(
        guest_state_label(&GuestState::Discovering {
            iface: "bridge0".into()
        }),
        "发现宿主机中"
    );
    let host = Endpoint::Tcp(sock("[fe80::1%5]:27778"));
    assert_eq!(
        guest_state_label(&GuestState::Connecting { host: host.clone() }),
        "正在连接"
    );
    let connected = GuestState::Connected {
        host,
        host_name: "mac".into(),
        tun: "utun4".into(),
        config: Default::default(),
        since: 0,
    };
    assert_eq!(guest_state_label(&connected), "已连接");
    assert_eq!(guest_state_detail(&connected).as_deref(), Some("mac"));
    assert!(!guest_state_busy(&connected));
    assert!(guest_state_busy(&GuestState::WaitingForLink));
    assert_eq!(
        guest_state_label(&GuestState::Disconnected { reason: "x".into() }),
        "已断开"
    );
}

#[test]
fn guest_model_resets_rates_when_leaving_connected() {
    let mut m = GuestModel::default();
    m.apply(&GuestEvent::Stats {
        counters: Counters::default(),
        tx_bps: per_second(100),
        rx_bps: per_second(200),
    });
    assert_eq!(m.throughput.tx_bps.bits(), 100);
    m.apply(&GuestEvent::StateChanged(GuestState::Disconnected {
        reason: "cable".into(),
    }));
    assert_eq!(m.throughput.tx_bps, Rate::default());
    assert_eq!(m.throughput.tx_bps.bits(), 0);
    assert_eq!(m.throughput.tx_history().len(), 1, "history is kept");
}

fn connected() -> GuestState {
    GuestState::Connected {
        host: Endpoint::Tcp(sock("[fe80::1%20]:27778")),
        host_name: "mac-host".into(),
        tun: "utun4".into(),
        config: TunnelConfig::default(),
        since: 1000,
    }
}

#[test]
fn a_lost_tunnel_is_announced() {
    let mut m = GuestModel::default();
    assert_eq!(m.egress_warning(), None);
    m.apply(&GuestEvent::StateChanged(connected()));
    assert_eq!(m.egress_warning(), None);
    m.apply(&GuestEvent::LocalEgress(Some("en0".into())));
    m.apply(&GuestEvent::StateChanged(GuestState::WaitingForLink));
    assert_eq!(
        m.egress_warning().as_deref(),
        Some("隧道已撤销，流量已回到本机网络（en0 / Wi-Fi）")
    );
    m.apply(&GuestEvent::LocalEgress(None));
    assert_eq!(
        m.egress_warning().as_deref(),
        Some("隧道已撤销，流量已回到本机网络")
    );
}

#[test]
fn throughput_window_is_bounded() {
    let mut t = Throughput::default();
    for i in 0..(SPARK_SAMPLES as u64 + 10) {
        t.push(Counters::default(), per_second(i), Rate::default());
    }
    assert_eq!(t.tx_history().len(), SPARK_SAMPLES);
    assert_eq!(*t.tx_history().front().unwrap(), 10);
    assert_eq!(view::recent(t.tx_history(), 3), vec![67, 68, 69]);
    assert_eq!(view::recent(t.rx_history(), 100).len(), SPARK_SAMPLES);
}

fn push(l: &mut LogBuffer, level: Level, msg: String) {
    l.push("12:00:00".to_string(), level, msg);
}

#[test]
fn log_buffer_scroll_and_visible() {
    let mut l = LogBuffer::default();
    for i in 0..10 {
        push(&mut l, Level::Info, format!("line {i}"));
    }
    let tail: Vec<&str> = l.visible(3).iter().map(|x| x.msg.as_str()).collect();
    assert_eq!(tail, vec!["line 7", "line 8", "line 9"]);

    l.scroll(2);
    assert_eq!(l.scroll_up(), 2);
    let v: Vec<&str> = l.visible(3).iter().map(|x| x.msg.as_str()).collect();
    assert_eq!(v, vec!["line 5", "line 6", "line 7"]);

    l.scroll(100);
    assert_eq!(l.scroll_up(), 9);
    l.scroll(-100);
    assert_eq!(l.scroll_up(), 0);

    l.scroll(3);
    l.follow();
    assert_eq!(l.scroll_up(), 0);

    for i in 10..(LOG_CAPACITY + 20) {
        push(&mut l, Level::Warn, format!("line {i}"));
    }
    assert_eq!(l.len(), LOG_CAPACITY);
}

#[test]
fn ages_and_labels() {
    assert_eq!(age(1000, 64_500), "1m03s");
    assert_eq!(age(5000, 1000), "0s");
    assert_eq!(link_kind_label(LinkKind::UsbEthernet), "USB 网卡");
    assert_eq!(proto_label(&Proto::Udp), "UDP");
}

// Keys.

fn app() -> App {
    App::new(
        Config::default(),
        "/tmp/netm-view-test/config.toml".into(),
        Some("/tmp/netm-view-test/netm.log".into()),
        HostArgs::default(),
        GuestArgs::default(),
        Machine {
            os: Os::Linux,
            is_root: true,
            hostname: Some("box".into()),
        },
    )
}

fn at(millis: u64) -> Moment {
    Moment {
        millis,
        clock: "12:00:00".to_string(),
    }
}

fn key(code: KeyCode) -> KeyEvent {
    KeyEvent {
        code,
        ctrl: false,
        press: true,
    }
}

#[test]
fn onboarding_navigation_and_quit() {
    let mut a = app();
    a.start(Start::Onboarding, &at(0));
    assert!(matches!(a.screen, Screen::Onboarding { selected: 0 }));
    a.on_key(key(KeyCode::Down), &at(0));
    assert!(matches!(a.screen, Screen::Onboarding { selected: 1 }));
    a.on_key(key(KeyCode::Down), &at(0));
    assert!(matches!(a.screen, Screen::Onboarding { selected: 1 }));
    a.on_key(key(KeyCode::Up), &at(0));
    assert!(matches!(a.screen, Screen::Onboarding { selected: 0 }));
    a.on_key(key(KeyCode::Char('q')), &at(0));
    assert_eq!(a.take_outcome(), Some(Outcome::Quit));
}

#[test]
fn onboarding_preselects_saved_mode() {
    let mut a = app();
    a.config.default_mode = Some(Mode::Guest);
    a.start(Start::Onboarding, &at(0));
    assert!(matches!(a.screen, Screen::Onboarding { selected: 1 }));
}

#[test]
fn help_toggle_and_log_focus_scroll() {
    let mut a = app();
    a.start(Start::Onboarding, &at(0));
    a.on_key(key(KeyCode::Char('?')), &at(0));
    assert!(a.show_help);
    a.on_key(key(KeyCode::Esc), &at(0));
    assert!(!a.show_help);

    // Log focus is only available on the mode screens.
    a.screen = Screen::Host(HostModel::new("x".into()));
    for i in 0..20 {
        push(&mut a.log, Level::Info, format!("{i}"));
    }
    a.on_key(key(KeyCode::Char('l')), &at(0));
    assert!(a.log_focus);
    a.on_key(key(KeyCode::Up), &at(0));
    assert_eq!(a.log.scroll_up(), 1);
    a.on_key(key(KeyCode::PageUp), &at(0));
    assert_eq!(a.log.scroll_up(), 11);
    a.on_key(key(KeyCode::Home), &at(0));
    assert_eq!(a.log.scroll_up(), 19);
    a.on_key(key(KeyCode::Esc), &at(0));
    assert!(!a.log_focus);
    assert_eq!(a.log.scroll_up(), 0);
}

#[test]
fn ctrl_c_without_session_quits_immediately() {
    let mut a = app();
    a.screen = Screen::Host(HostModel::new("x".into()));
    a.on_key(
        KeyEvent {
            code: KeyCode::Char('c'),
            ctrl: true,
            press: true,
        },
        &at(0),
    );
    assert_eq!(a.take_outcome(), Some(Outcome::Quit));
}

#[test]
fn finished_with_error_records_it() {
    let mut a = app();
    a.screen = Screen::Guest(GuestModel::default());
    a.on_finished(Err("boom".to_string()), &at(0));
    assert_eq!(a.run_errors, vec!["boom".to_string()]);
    match &a.screen {
        Screen::Guest(m) => assert_eq!(m.fatal.as_deref(), Some("boom")),
        _ => panic!(),
    }
    assert!(a.notice.is_some());
    assert_eq!(a.take_outcome(), None);
}

#[test]
fn guest_summary_lists_routes_and_dns() {
    let cfg = GuestConfig {
        routes: RouteMode::Custom(vec![parse_net("1.1.1.1/32").unwrap()]),
        set_dns: false,
        ..GuestConfig::for_host(None)
    };
    let s = guest_summary(&cfg);
    assert_eq!(s[0].1, "1.1.1.1/32");
    assert_eq!(s[1].1, "不修改");
    assert_eq!(s[2].1, "自动发现");
}

#[test]
fn choosing_a_role_saves_and_starts_it() {
    let mut a = app();
    a.start(Start::Onboarding, &at(0));
    assert!(matches!(a.on_key(key(KeyCode::Enter), &at(0)), Work::Save));
    assert_eq!(a.config.default_mode, Some(Mode::Host));
    match a.saved(Ok(()), &at(0)) {
        Work::StartHost(cfg) => assert_eq!(cfg.host_name, "box"),
        w => panic!("{w:?}"),
    }
    let msgs: Vec<&str> = a.log.visible(10).iter().map(|l| l.msg.as_str()).collect();
    assert_eq!(
        msgs,
        vec![
            "已保存默认模式：宿主机（/tmp/netm-view-test/config.toml）",
            "启动宿主机模式，端口 27778"
        ]
    );
}

#[test]
fn switching_stops_the_mode_and_starts_the_other() {
    let mut a = app();
    assert!(matches!(
        a.start(Start::Mode(Mode::Host), &at(0)),
        Work::StartHost(_)
    ));
    assert!(matches!(
        a.on_key(key(KeyCode::Char('m')), &at(5)),
        Work::Save
    ));
    assert!(matches!(
        a.saved(Err("disk full".into()), &at(5)),
        Work::RequestShutdown
    ));
    assert_eq!(a.pending, Pending::Switch(Mode::Guest));
    assert!(a.is_quitting());
    assert!(matches!(
        a.wake(Wake::Finished(Ok(())), &at(6)),
        Work::StartGuest(_)
    ));
    assert_eq!(a.current_mode(), Some(Mode::Guest));
    assert_eq!(a.config.default_mode, Some(Mode::Guest));
    assert_eq!(a.guest_summary[1].1, "接管");
}

#[test]
fn quitting_waits_for_the_core_but_not_forever() {
    let mut a = app();
    let _ = a.start(Start::Mode(Mode::Host), &at(0));
    assert!(matches!(
        a.wake(Wake::Signal("SIGTERM".into()), &at(100)),
        Work::RequestShutdown
    ));
    assert!(matches!(
        a.wake(Wake::Input(Input::Closed), &at(200)),
        Work::Nothing
    ));
    assert_eq!(a.take_outcome(), None);
    let _ = a.wake(Wake::Tick, &at(11_100));
    assert_eq!(a.take_outcome(), None);
    let _ = a.wake(Wake::Tick, &at(11_101));
    assert_eq!(a.take_outcome(), Some(Outcome::Quit));
}

#[test]
fn an_unprivileged_guest_is_run_again() {
    let mut a = app();
    a.machine.is_root = false;
    assert!(matches!(
        a.start(Start::Mode(Mode::Guest), &at(0)),
        Work::Nothing
    ));
    assert_eq!(a.take_outcome(), Some(Outcome::ReexecGuest));
}

#[test]
fn a_bad_route_is_fatal_for_the_guest_screen() {
    let mut a = app();
    a.config.guest.routes = vec!["nope".into()];
    assert!(matches!(
        a.start(Start::Mode(Mode::Guest), &at(0)),
        Work::Nothing
    ));
    match &a.screen {
        Screen::Guest(m) => assert!(m.fatal.as_deref().unwrap().contains("nope")),
        _ => panic!(),
    }
}

#[test]
fn events_reach_the_log_and_the_screen() {
    let mut a = app();
    let _ = a.start(Start::Mode(Mode::Host), &at(0));
    a.dirty = false;
    a.on_event(&Event::Host(HostEvent::Error("oops".into())), &at(0));
    a.on_event(&Event::Host(HostEvent::FlowOpened(flow(1, Proto::Tcp))), &at(0));
    assert!(a.dirty);
    match &a.screen {
        Screen::Host(m) => assert_eq!(m.flows.active_len(), 1),
        _ => panic!(),
    }
    let last = a.log.visible(1)[0].clone();
    assert_eq!((last.level, last.msg.as_str()), (Level::Error, "oops"));
}

#[test]
fn the_spinner_turns() {
    let mut a = app();
    assert_eq!(a.spinner(), "⠋");
    let _ = a.on_tick(&at(0));
    assert_eq!(a.spinner(), "⠙");
    for _ in 0..9 {
        let _ = a.on_tick(&at(0));
    }
    assert_eq!(a.spinner(), "⠋");
}

// Screens.

fn text(line: &[Span]) -> String {
    line.iter()
        .map(|s| match &s.content {
            Content::Text(t) => t.clone(),
            Content::Rate(r) => format!("<{}>", r.bits()),
        })
        .collect()
}

fn all(lines: &[Vec<Span>]) -> String {
    lines.iter().map(|l| text(l) + "\n").collect()
}

fn ifaces() -> Vec<LinkInterface> {
    vec![
        LinkInterface {
            name: "bridge0".into(),
            index: 20,
            is_up: true,
            link_local_v6: parse_ipv6(&chars("fe80::1")),
            kind: LinkKind::ThunderboltBridge,
        },
        LinkInterface {
            name: "en1".into(),
            index: 10,
            is_up: true,
            link_local_v6: None,
            kind: LinkKind::Thunderbolt,
        },
    ]
}

#[test]
fn the_first_screen_shows_both_roles() {
    let mut a = app();
    a.start(Start::Onboarding, &at(0));
    let o = view::onboarding(&a, 1);
    assert_eq!(text(&view::title_line("0.1.0", "首次配置")), " NetM v0.1.0 · 首次配置 ");
    assert!(text(&o.roles[0]).contains("宿主机（服务端）"));
    assert!(text(&o.roles[1]).contains("客机"));
    assert_eq!(text(&o.keys), " ↑↓ 选择  Enter 确认  q/Esc 退出 ");
    assert_eq!(o.selected, 1);
    assert_eq!(
        text(&o.hint),
        "配置文件：/tmp/netm-view-test/config.toml"
    );
    assert_eq!(o.description.len(), 4);
}

#[test]
fn the_guest_screen_shows_its_state() {
    let mut a = app();
    let mut m = GuestModel {
        interfaces: ifaces(),
        ..GuestModel::default()
    };
    let status = view::guest_status(&a, &m);
    assert_eq!(all(&status.lines), " ⠋ 等待 Type-C 连接\n");
    assert_eq!(status.border, Color::Accent);
    let t = view::interfaces(&m.interfaces, "链路网卡", "线缆");
    assert_eq!(t.title, " 链路网卡 ");
    assert_eq!(text(&t.rows[0]), "bridge0雷电网桥是fe80::1");
    assert_eq!(text(&t.rows[1]), "en1雷电口否-");
    assert_eq!(
        t.rows[0][0].style,
        Style {
            fg: None,
            bold: true
        }
    );
    push(&mut a.log, Level::Info, "hello".into());
    let log = view::log_panel(&a.log, false, Some("/tmp/netm.log"), 5);
    assert_eq!(all(&log.lines), " 12:00:00 hello\n");
    assert_eq!(text(&log.bottom.unwrap()), " /tmp/netm.log ");

    m.state = connected();
    m.throughput
        .push(Counters::default(), per_second(1_500_000), per_second(3_000_000));
    m.link_speed = Some(LinkSpeed {
        up_bytes: 1,
        up_nanos: 1,
        down_bytes: 1,
        down_nanos: 1,
    });
    a.guest_summary = guest_summary(&GuestConfig::for_host(None));
    let status = view::guest_status(&a, &m);
    assert_eq!(all(&status.lines), " ● 已连接  mac-host\n");
    assert_eq!(status.border, Color::Good);
    let conn = all(&view::guest_connection(&a, &m, 64_000, "↑ a  ↓ b"));
    assert!(conn.contains("mac-host  [fe80::1%20]:27778"));
    assert!(conn.contains("utun4"));
    assert!(conn.contains("10.77.0.2/24"));
    assert!(conn.contains("1m03s"));
    assert!(conn.contains("↑ a  ↓ b"));
    assert!(conn.contains("全部流量"));
    assert!(!conn.contains("自动发现"));
    let rate = all(&view::rate_lines("↑", "上行", m.throughput.tx_bps, 3072));
    assert_eq!(rate, " ↑ <1500000>\n   上行 累计 3.0 KiB\n");

    let help = all(&view::help(&a));
    assert!(help.contains(" Enter       确认并保存为默认模式\n"));
    assert!(help.contains("/tmp/netm-view-test/netm.log"));
}

#[test]
fn a_guest_that_failed_says_why() {
    let a = app();
    let mut m = GuestModel {
        fatal: Some("boom".into()),
        ..GuestModel::default()
    };
    let status = view::guest_status(&a, &m);
    assert_eq!(all(&status.lines), " ● 运行出错  boom\n");
    assert_eq!(status.border, Color::Bad);
    m.fatal = None;
    let conn = all(&view::guest_connection(&a, &m, 0, ""));
    assert_eq!(conn, " 虚拟 IP -\n TUN　　 -\n");
    let warn = view::egress_warning("隧道已撤销");
    assert_eq!(all(&warn.lines), " 隧道已撤销\n");
}

#[test]
fn the_host_screen_shows_its_guest_and_flows() {
    let mut a = app();
    let mut m = HostModel::new("mac".into());
    let head = view::host_header(&a, &m);
    assert_eq!(
        all(&head.lines),
        " ⠋ 正在启动…   主机名 mac\n 链路 （未发现候选网卡）\n"
    );
    assert_eq!(all(&view::host_guest(&m, 0, "").lines), " 状态 等待客机连接\n");
    m.listening = Some(sock("[::]:27778"));
    m.interfaces = ifaces();
    m.serial_state = Some(("/dev/ttyA".into(), false));
    m.guest = Some(GuestInfo {
        peer: Endpoint::Tcp(sock("[fe80::2%20]:50000")),
        name: "win-guest".into(),
        connected_at: 0,
        assigned_ip: Ipv4Addr::new(10, 77, 0, 2),
    });
    m.flows.open(FlowInfo {
        id: 1,
        proto: Proto::Tcp,
        src: sock("10.77.0.2:51000"),
        dst: sock("1.1.1.1:443"),
        tx_bytes: 0,
        rx_bytes: 0,
        opened_at: 0,
    });
    m.flows.close(2, 1024, 2048);
    let head = view::host_header(&a, &m);
    assert_eq!(
        all(&head.lines),
        " ● 监听 [::]:27778   主机名 mac\n 链路 bridge0(已连线)  en1(未连线)  串口 /dev/ttyA(已关闭)\n"
    );
    assert_eq!(head.border, Color::Good);
    let guest = view::host_guest(&m, 3000, "");
    assert!(all(&guest.lines).contains("win-guest"));
    assert!(all(&guest.lines).contains("[fe80::2%20]:50000"));
    assert!(all(&guest.lines).contains("3s"));
    let flows = view::flows(&m.flows, 5000);
    assert_eq!(text(&flows.rows[0]), "TCP510001.1.1.1:4435s");
    assert_eq!(flows.title, " 活跃连接 1   已关闭 1   累计 3.0 KiB ");
    a.log_focus = true;
    assert_eq!(
        text(&view::footer_line(&a)),
        " ↑↓ PgUp PgDn 滚动日志  End 跟随最新  Esc/l 退出日志  q 退出 "
    );
    a.log_focus = false;
    assert_eq!(
        text(&view::footer_line(&a)),
        " q 退出  m 切换模式  l 日志  ? 帮助 "
    );
    a.notice = Some("正在清理".into());
    assert_eq!(text(&view::footer_line(&a)), " 正在清理 ");
    let log = view::log_panel(&a.log, true, None, 5);
    assert_eq!(log.title, " 日志 [滚动 ↑0] ");
    assert_eq!(log.border, Color::Accent);
}
