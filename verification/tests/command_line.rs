//! Units, settings, privileges, arguments and log lines.

use std::time::{Duration, SystemTime, UNIX_EPOCH};

use clap::{Arg, ArgAction};
use netm::cidr::{parse_net, Ipv4Net};
use netm::cli::{
    build_guest_config, build_host_config, parse_host, route_mode, Cli, Command, GuestArgs,
    HostArgs,
};
use netm::frame::TunnelConfig;
use netm::guest::{GuestConfig, GuestEvent, GuestState, HostTarget, RouteMode, DEFAULT_BAUD};
use netm::host::{FlowInfo, GuestInfo, HostEvent, Proto};
use netm::link::{LinkInterface, LinkKind};
use netm::net::{parse_ipv6, parse_socket, Endpoint, Ipv4Addr, SocketAddr};
use netm::platform::Os;
use netm::privilege::{guest_needs_elevation, manual_hint, shell_quote, sudo_command};
use netm::report::{describe, Event, HeadlessLogger, Level, Note};
use netm::settings::{
    config_dir_for, dir_of, lookup_user_home, parse_dscl_home, resolve_config_path, sudo_owner,
    Config, EnvInfo, GuestSettings, HostSettings, Mode,
};
use netm::speed::LinkSpeed;
use netm::startup::{
    default_level, exit_after_tui, finished_line, flatten, plan, reexec_failed, signal_line,
    start_for, started_line, CoreEnd, Plan,
};
use netm::stats::{Counters, Rate};
use netm::text::chars;
use netm::tui::{Machine, Outcome, Start};
use netm::units::{fmt_bytes, fmt_duration, now_hms, parse_utc_offset};
use netm::DATA_PORT;

fn sock(s: &str) -> SocketAddr {
    parse_socket(&chars(s)).unwrap()
}

/// So many bits per second.
fn per_second(bits: u64) -> Rate {
    Rate {
        bytes: bits,
        nanos: 8_000_000_000,
    }
}

fn net(s: &str) -> Ipv4Net {
    parse_net(s).unwrap()
}

// Units.

#[test]
fn byte_units() {
    assert_eq!(fmt_bytes(0), "0 B");
    assert_eq!(fmt_bytes(1023), "1023 B");
    assert_eq!(fmt_bytes(1024), "1.0 KiB");
    assert_eq!(fmt_bytes(1536 * 1024), "1.5 MiB");
}

#[test]
fn bytes_are_rounded_like_floating_point() {
    for n in [
        0u64,
        1024 + 256,
        1024 + 768,
        1_048_575,
        1_048_576,
        1_073_741_823,
        5_000_000_000,
        1 << 40,
        (1 << 53) + 1,
        (1 << 54) + 3,
        u64::MAX - 1024,
        u64::MAX,
        (1 << 62) + (1 << 38) + 1,
        (1 << 62) + (1 << 38) + 1025,
    ] {
        let units = ["B", "KiB", "MiB", "GiB", "TiB"];
        let mut v = n as f64;
        let mut i = 0;
        while v >= 1024.0 && i < units.len() - 1 {
            v /= 1024.0;
            i += 1;
        }
        let expected = if i == 0 {
            format!("{n} B")
        } else {
            format!("{v:.1} {}", units[i])
        };
        assert_eq!(fmt_bytes(n), expected);
    }
}

#[test]
fn durations() {
    assert_eq!(fmt_duration(Duration::from_secs(3).as_secs()), "3s");
    assert_eq!(fmt_duration(Duration::from_secs(123).as_secs()), "2m03s");
    assert_eq!(fmt_duration(Duration::from_secs(3723).as_secs()), "1h02m03s");
}

#[test]
fn utc_offsets() {
    assert_eq!(parse_utc_offset("+0800"), Some(28_800));
    assert_eq!(parse_utc_offset("-0430"), Some(-16_200));
    assert_eq!(parse_utc_offset("+00:00"), None);
    assert_eq!(parse_utc_offset(""), None);
}

#[test]
fn odd_utc_offsets() {
    assert_eq!(parse_utc_offset("+-1+2"), Some(-3_480));
    assert_eq!(parse_utc_offset("08000"), None);
    assert_eq!(parse_utc_offset("+08x0"), None);
}

#[test]
fn hms_shape() {
    let secs = SystemTime::now()
        .duration_since(UNIX_EPOCH)
        .map(|d| d.as_secs())
        .unwrap_or(0);
    let s = now_hms(secs, 28_800);
    assert_eq!(s.len(), 8);
    assert_eq!(&s[2..3], ":");
}

#[test]
fn clock_of_known_moments() {
    assert_eq!(now_hms(0, 0), "00:00:00");
    assert_eq!(now_hms(3_723, 0), "01:02:03");
    assert_eq!(now_hms(0, -1), "23:59:59");
    assert_eq!(now_hms(86_399, 28_800), "07:59:59");
    assert_eq!(now_hms(10, -16_200), "19:30:10");
}

// Settings.

#[test]
fn modes_have_labels_and_opposites() {
    assert_eq!(Mode::Host.label(), "宿主机");
    assert_eq!(Mode::Guest.label(), "客机");
    assert_eq!(Mode::Host.other(), Mode::Guest);
    assert_eq!(Mode::Guest.other(), Mode::Host);
}

#[test]
fn default_settings() {
    let cfg = Config::default();
    assert_eq!(cfg.default_mode, None);
    assert_eq!(cfg.host.port, DATA_PORT);
    assert_eq!(cfg.host.baud, DEFAULT_BAUD);
    assert_eq!(cfg.guest, GuestSettings::default());
    assert_eq!(cfg.guest.set_dns, None);
    assert!(cfg.guest.routes.is_empty());
}

fn env(netm_config: Option<&str>, sudo_user: Option<&str>, home: Option<&str>) -> EnvInfo {
    EnvInfo {
        netm_config: netm_config.map(String::from),
        sudo_user: sudo_user.map(String::from),
        home: home.map(String::from),
        appdata: Some(r"C:\Users\me\AppData\Roaming".into()),
    }
}

#[test]
fn explicit_path_wins_over_everything() {
    let p = resolve_config_path(
        Os::Linux,
        Some("/tmp/x.toml"),
        &env(Some("/env/c.toml"), Some("alice"), Some("/Users/root")),
        None,
        None,
    );
    assert_eq!(p, "/tmp/x.toml");
}

#[test]
fn netm_config_env_wins_over_home() {
    let p = resolve_config_path(
        Os::Linux,
        None,
        &env(Some("/env/c.toml"), Some("alice"), Some("/var/root")),
        None,
        None,
    );
    assert_eq!(p, "/env/c.toml");
}

#[test]
fn sudo_user_home_is_used_instead_of_root_home() {
    let p = resolve_config_path(
        Os::MacOs,
        None,
        &env(None, Some("alice"), Some("/var/root")),
        Some("/Users/alice"),
        None,
    );
    assert_eq!(p, "/Users/alice/.config/netm/config.toml");
}

#[test]
fn sudo_user_without_lookup_falls_back_to_users_dir() {
    let e = env(None, Some("bob"), Some("/var/root"));
    assert_eq!(
        resolve_config_path(Os::MacOs, None, &e, None, None),
        "/Users/bob/.config/netm/config.toml"
    );
    assert_eq!(
        resolve_config_path(Os::Linux, None, &e, None, None),
        "/home/bob/.config/netm/config.toml"
    );
}

#[test]
fn plain_home_when_not_under_sudo() {
    let p = resolve_config_path(
        Os::Linux,
        None,
        &env(None, None, Some("/Users/carol")),
        None,
        None,
    );
    assert_eq!(p, "/Users/carol/.config/netm/config.toml");
}

#[test]
fn sudo_user_root_uses_home() {
    let p = resolve_config_path(
        Os::Linux,
        None,
        &env(None, Some("root"), Some("/var/root")),
        None,
        None,
    );
    assert_eq!(p, "/var/root/.config/netm/config.toml");
}

#[test]
fn homes_of_last_resort() {
    let e = env(None, None, None);
    assert_eq!(
        config_dir_for(Os::Linux, &e, None, Some("/home/me/")),
        "/home/me/.config/netm"
    );
    assert_eq!(
        config_dir_for(Os::Linux, &e, None, None),
        "/tmp/.config/netm"
    );
    assert_eq!(
        config_dir_for(Os::Windows, &e, None, None),
        r"C:\Users\me\AppData\Roaming\netm"
    );
    let mut e = EnvInfo::default();
    assert_eq!(config_dir_for(Os::Windows, &e, None, None), r".\netm");
    e.home = Some(r"D:\me".to_string());
    assert_eq!(
        config_dir_for(Os::Windows, &e, None, None),
        r"D:\me\AppData/Roaming\netm"
    );
}

#[test]
fn a_verbatim_path_is_put_together_anew() {
    let below = |home: &str| {
        let e = EnvInfo {
            home: Some(home.to_string()),
            ..EnvInfo::default()
        };
        config_dir_for(Os::Windows, &e, None, None)
    };
    assert_eq!(
        below(r"\\?\C:\Users\me"),
        r"\\?\C:\Users\me\AppData\Roaming\netm"
    );
    // Only backslashes separate names; doubled and trailing ones go.
    assert_eq!(
        below(r"\\?\C:\a/b\\c\"),
        r"\\?\C:\a/b\c\AppData\Roaming\netm"
    );
    assert_eq!(below(r"\\?\C:"), r"\\?\C:\AppData\Roaming\netm");
    assert_eq!(
        below(r"\\?\UNC\server\share\me\"),
        r"\\?\UNC\server\share\me\AppData\Roaming\netm"
    );
    assert_eq!(
        below(r"\\?\pictures\kittens"),
        r"\\?\pictures\kittens\AppData\Roaming\netm"
    );
    let e = EnvInfo {
        appdata: Some(r"\\?\C:\data\".to_string()),
        ..EnvInfo::default()
    };
    assert_eq!(
        resolve_config_path(Os::Windows, None, &e, None, None),
        r"\\?\C:\data\netm\config.toml"
    );
    // With slashes in front it is an ordinary path.
    assert_eq!(below("//?/C:/me"), r"//?/C:/me\AppData/Roaming\netm");
}

#[test]
fn empty_variables_are_not_set() {
    let e = EnvInfo::from_process(
        Some(String::new()),
        Some("alice".to_string()),
        None,
        Some(String::new()),
    );
    assert_eq!(
        e,
        EnvInfo {
            sudo_user: Some("alice".to_string()),
            ..EnvInfo::default()
        }
    );
}

#[test]
fn parses_dscl_output() {
    let out = "NFSHomeDirectory: /Users/alice\n";
    assert_eq!(parse_dscl_home(out), Some("/Users/alice".to_string()));
    assert_eq!(parse_dscl_home("RecordName: alice\n"), None);
    assert_eq!(parse_dscl_home(""), None);
}

#[test]
fn the_account_database_is_asked_last() {
    let account = || Some("/home/alice".to_string());
    assert_eq!(
        lookup_user_home(Some("NFSHomeDirectory: /Users/alice"), account()),
        Some("/Users/alice".to_string())
    );
    assert_eq!(lookup_user_home(Some(""), account()), account());
    assert_eq!(lookup_user_home(None, None), None);
}

#[test]
fn dir_of_config() {
    assert_eq!(dir_of("/a/b/config.toml"), "/a/b");
}

#[test]
fn directories_of_odd_paths() {
    for p in [
        "config.toml", "", "/", "/x", "a//b", "a/./b", "a/.", "./a", ".", "..", "a/..", "//", "///a",
        "/a/b/", "/./a", "a/b/./", "./.", "/.",
    ] {
        let expected = std::path::Path::new(p)
            .parent()
            .map(|d| d.to_str().unwrap().to_string())
            .unwrap_or_else(|| ".".to_string());
        assert_eq!(dir_of(p), expected, "{p}");
    }
}

#[test]
fn the_sudo_invoker_owns_the_files() {
    assert_eq!(sudo_owner(true, Some("501"), Some("20")), Some((501, 20)));
    assert_eq!(sudo_owner(false, Some("501"), Some("20")), None);
    assert_eq!(sudo_owner(true, None, Some("20")), None);
    assert_eq!(sudo_owner(true, Some("4294967296"), Some("20")), None);
    assert_eq!(sudo_owner(true, Some("+5"), Some("x")), None);
}

// Privileges.

#[test]
fn sudo_command_shape() {
    let args = sudo_command(
        "/Users/alice/.config/netm/config.toml",
        Ok("/usr/local/bin/netm"),
        &vec!["guest".into(), "--route".into(), "1.1.1.1/32".into()],
    )
    .unwrap();
    assert_eq!(args[0], "sudo");
    assert_eq!(args[1], "-E");
    assert_eq!(args[2], "env");
    assert_eq!(args[3], "NETM_CONFIG=/Users/alice/.config/netm/config.toml");
    assert!(args[4].ends_with("netm") || args[4].contains("netm"));
    assert_eq!(&args[5..], &["guest", "--route", "1.1.1.1/32"]);
}

#[test]
fn an_unknown_program_cannot_be_run_again() {
    assert_eq!(
        sudo_command("/c", Err("gone"), &vec![]).unwrap_err(),
        "cannot locate own executable: gone"
    );
}

#[test]
fn quoting() {
    assert_eq!(shell_quote("1.1.1.1/32"), "1.1.1.1/32");
    assert_eq!(shell_quote("[fe80::1%5]:27778"), "[fe80::1%5]:27778");
    assert_eq!(shell_quote("/a b/c"), "'/a b/c'");
    assert_eq!(shell_quote("it's"), "'it'\\''s'");
    assert_eq!(shell_quote(""), "''");
}

#[test]
fn hint_mentions_sudo_and_config() {
    let h = manual_hint("/tmp/c.toml", Some("/usr/bin/netm"), &vec!["guest".into()]);
    assert!(h.contains("sudo -E env NETM_CONFIG=/tmp/c.toml"));
    assert!(h.ends_with(" guest"));
    assert_eq!(
        manual_hint("/tmp/a b", None, &vec!["guest".into(), "--no-dns".into()]),
        "请手动以管理员权限运行：\n  sudo -E env NETM_CONFIG='/tmp/a b' netm guest --no-dns"
    );
}

#[test]
fn elevation_is_needed_without_root() {
    assert!(guest_needs_elevation(Os::Linux, false));
    assert!(!guest_needs_elevation(Os::Linux, true));
    assert!(guest_needs_elevation(Os::Windows, false));
    assert!(!guest_needs_elevation(Os::Windows, true));
}

// Arguments.

fn cli(command: Option<Command>) -> Cli {
    Cli {
        config: None,
        verbose: 0,
        command,
    }
}

#[test]
fn no_args_means_tui_flow() {
    let cli = cli(None);
    assert_eq!(cli.command, None);
    assert_eq!(cli.fixed_mode(), None);
    assert!(!cli.headless());
}

#[test]
fn host_args_and_port() {
    let c = cli(Some(Command::Host(HostArgs {
        port: Some(30000),
        headless: true,
        ..HostArgs::default()
    })));
    assert_eq!(c.fixed_mode(), Some(Mode::Host));
    assert!(c.headless());
    let hc = build_host_config(&c.host_args(), &HostSettings::default(), None);
    assert_eq!(hc.effective_bind_addr().port(), 30000);

    let c = cli(Some(Command::Host(HostArgs::default())));
    let hc = build_host_config(
        &c.host_args(),
        &HostSettings {
            port: 31000,
            ..HostSettings::default()
        },
        None,
    );
    assert_eq!(hc.effective_bind_addr().port(), 31000);
}

#[test]
fn serial_transport_args_build_both_roles_and_survive_reexec() {
    let host = cli(Some(Command::Host(HostArgs {
        serial: Some("/dev/tty.usbmodem-host".to_string()),
        baud: Some(460_800),
        ..HostArgs::default()
    })));
    let hc = build_host_config(&host.host_args(), &HostSettings::default(), None);
    let serial = hc.serial.expect("host serial settings");
    assert_eq!(serial.path, "/dev/tty.usbmodem-host");
    assert_eq!(serial.baud, 460_800);

    let guest = cli(Some(Command::Guest(GuestArgs {
        serial: Some("/dev/tty.usbmodem-guest".to_string()),
        baud: Some(230_400),
        ..GuestArgs::default()
    })));
    let gc = build_guest_config(&guest.guest_args(), &Config::default(), None).unwrap();
    assert!(matches!(
        gc.host,
        HostTarget::Serial { ref path, baud }
            if path == "/dev/tty.usbmodem-guest" && baud == 230_400
    ));
    assert_eq!(
        guest.reexec_guest_args(),
        vec![
            "guest",
            "--serial",
            "/dev/tty.usbmodem-guest",
            "--baud",
            "230400"
        ]
    );
}

#[test]
fn guest_routes_become_custom_mode_and_dns_defaults_off() {
    let args = GuestArgs {
        routes: vec![net("1.1.1.1/32"), net("8.8.8.0/24")],
        ..GuestArgs::default()
    };
    let gc = build_guest_config(&args, &Config::default(), None).unwrap();
    match gc.routes {
        RouteMode::Custom(nets) => {
            assert_eq!(nets.len(), 2);
            assert_eq!(nets[0].text(), "1.1.1.1/32");
            assert_eq!(nets[1].text(), "8.8.8.0/24");
        }
        RouteMode::Full => panic!("expected custom routes"),
    }
    assert!(!gc.set_dns, "custom routes default to leaving DNS alone");
    assert!(matches!(gc.host, HostTarget::Auto));
}

#[test]
fn guest_full_mode_sets_dns_unless_no_dns() {
    let gc = build_guest_config(&GuestArgs::default(), &Config::default(), None).unwrap();
    assert!(matches!(gc.routes, RouteMode::Full));
    assert!(gc.set_dns);

    let args = GuestArgs {
        no_dns: true,
        ..GuestArgs::default()
    };
    let gc = build_guest_config(&args, &Config::default(), None).unwrap();
    assert!(!gc.set_dns);
}

#[test]
fn saved_settings_apply_when_cli_is_silent() {
    let saved = Config {
        guest: GuestSettings {
            set_dns: Some(true),
            routes: vec!["10.1.0.0/16".into()],
            ..GuestSettings::default()
        },
        ..Config::default()
    };
    let gc = build_guest_config(&GuestArgs::default(), &saved, None).unwrap();
    match &gc.routes {
        RouteMode::Custom(nets) => assert_eq!(nets[0].text(), "10.1.0.0/16"),
        RouteMode::Full => panic!(),
    }
    assert!(gc.set_dns, "explicit set_dns override wins");

    // CLI routes replace saved ones.
    let args = GuestArgs {
        routes: vec![net("1.1.1.1/32")],
        no_dns: true,
        ..GuestArgs::default()
    };
    let gc = build_guest_config(&args, &saved, None).unwrap();
    match &gc.routes {
        RouteMode::Custom(nets) => assert_eq!(nets, &vec![net("1.1.1.1/32")]),
        RouteMode::Full => panic!(),
    }
    assert!(!gc.set_dns);
}

#[test]
fn invalid_saved_route_is_reported() {
    let saved = Config {
        guest: GuestSettings {
            set_dns: None,
            routes: vec!["not-a-cidr".into()],
            ..GuestSettings::default()
        },
        ..Config::default()
    };
    let err = build_guest_config(&GuestArgs::default(), &saved, None).unwrap_err();
    assert!(err.text().contains("not-a-cidr"));
    assert_eq!(
        err.chain(),
        "invalid route `not-a-cidr` in config.toml [guest].routes: invalid IP address syntax"
    );
}

#[test]
fn the_first_bad_route_is_reported() {
    let saved = GuestSettings {
        routes: vec!["10.0.0.0/8".into(), "x".into(), "y".into()],
        ..GuestSettings::default()
    };
    assert_eq!(route_mode(&vec![], &saved).unwrap_err().route, "x");
}

#[test]
fn manual_host_with_numeric_scope() {
    let addr = parse_host("[fe80::1%5]:27778", Ok(&vec![])).unwrap();
    let args = GuestArgs {
        host: Some(addr),
        ..GuestArgs::default()
    };
    let gc = build_guest_config(&args, &Config::default(), None).unwrap();
    match gc.host {
        HostTarget::Manual(a) => assert_eq!(a.text(), "[fe80::1%5]:27778"),
        HostTarget::Auto | HostTarget::Serial { .. } => panic!(),
    }
}

#[test]
fn manual_host_with_an_interface_name() {
    let list = vec![LinkInterface {
        name: "bridge0".to_string(),
        index: 20,
        is_up: true,
        link_local_v6: None,
        kind: LinkKind::ThunderboltBridge,
    }];
    let host = |s: &str| parse_host(s, Ok(&list));
    assert_eq!(
        host("[fe80::1%bridge0]:27778").unwrap().text(),
        "[fe80::1%20]:27778"
    );
    assert_eq!(
        host("[fe80::1%en9]:27778").unwrap_err(),
        "unknown interface `en9`"
    );
    assert_eq!(host("nonsense").unwrap_err(), "invalid socket address `nonsense`");
    assert_eq!(
        host("]%[").unwrap_err(),
        "invalid socket address `]%[`"
    );
    assert_eq!(
        host("[oops%bridge0]:1").unwrap_err(),
        "invalid socket address `[oops%bridge0]:1`: invalid socket address syntax"
    );
    assert_eq!(
        parse_host("[fe80::1%en0]:1", Err("no interfaces")).unwrap_err(),
        "no interfaces"
    );
    assert_eq!(host("127.0.0.1:80").unwrap().text(), "127.0.0.1:80");
}

#[test]
fn bad_prefixes_are_rejected() {
    for bad in ["1.1.1.1/33", "1.1.1.1", "1.1.1/24", "256.0.0.0/8", "1.1.1.1/-1", "a/8"] {
        assert_eq!(parse_net(bad), None, "{bad}");
    }
    assert_eq!(net("10.1.2.3/16").trunc().text(), "10.1.0.0/16");
    assert_eq!(net("10.1.2.3/0").trunc().text(), "0.0.0.0/0");
}

#[test]
fn reexec_args_keep_globals_and_normalise_subcommand() {
    let c = Cli {
        config: Some("/tmp/c.toml".to_string()),
        verbose: 2,
        command: None,
    };
    assert_eq!(
        c.reexec_guest_args(),
        vec!["--config", "/tmp/c.toml", "-v", "-v", "guest"]
    );

    let c = cli(Some(Command::Guest(GuestArgs {
        routes: vec![net("1.1.1.1/32")],
        no_dns: true,
        headless: true,
        ..GuestArgs::default()
    })));
    assert_eq!(
        c.reexec_guest_args(),
        vec!["guest", "--route", "1.1.1.1/32", "--no-dns", "--headless"]
    );

    // `setup` followed by choosing guest re-execs a plain `guest`.
    let c = cli(Some(Command::Setup));
    assert_eq!(c.reexec_guest_args(), vec!["guest"]);
}

#[test]
fn a_host_address_survives_the_reexec() {
    let c = cli(Some(Command::Guest(GuestArgs {
        host: Some(sock("[fe80::1%5]:27778")),
        ..GuestArgs::default()
    })));
    let words = c.reexec_guest_args();
    assert_eq!(words, vec!["guest", "--host", "[fe80::1%5]:27778"]);
    assert_eq!(
        parse_host(&words[2], Ok(&vec![])).unwrap(),
        sock("[fe80::1%5]:27778")
    );
}

/// The options of the command line, for the parser.
fn parser() -> clap::Command {
    let guest = clap::Command::new("guest")
        .arg(Arg::new("route").long("route").action(ArgAction::Append))
        .arg(Arg::new("host").long("host").conflicts_with("serial"))
        .arg(Arg::new("serial").long("serial").conflicts_with("host"))
        .arg(Arg::new("baud").long("baud").requires("serial"))
        .arg(Arg::new("no_dns").long("no-dns").action(ArgAction::SetTrue))
        .arg(
            Arg::new("headless")
                .long("headless")
                .action(ArgAction::SetTrue),
        );
    clap::Command::new("netm")
        .arg(Arg::new("config").long("config").global(true))
        .arg(
            Arg::new("verbose")
                .short('v')
                .global(true)
                .action(ArgAction::Count),
        )
        .subcommand(guest)
}

fn read_back(words: Vec<String>) -> Cli {
    let all = std::iter::once("netm".to_string()).chain(words);
    let m = parser().try_get_matches_from(all).unwrap();
    let (name, g) = m.subcommand().unwrap();
    assert_eq!(name, "guest");
    let text = |id: &str| g.get_one::<String>(id).cloned();
    Cli {
        config: g.get_one::<String>("config").cloned(),
        verbose: g.get_count("verbose"),
        command: Some(Command::Guest(GuestArgs {
            routes: g
                .get_many::<String>("route")
                .map(|v| v.map(|r| net(r)).collect())
                .unwrap_or_default(),
            host: text("host").map(|h| parse_host(&h, Ok(&vec![])).unwrap()),
            serial: text("serial"),
            baud: text("baud").map(|b| b.parse().unwrap()),
            no_dns: g.get_flag("no_dns"),
            headless: g.get_flag("headless"),
        })),
    }
}

#[test]
fn options_survive_the_reexec() {
    let by_address = Cli {
        config: Some("/tmp/c.toml".into()),
        verbose: 3,
        command: Some(Command::Guest(GuestArgs {
            routes: vec![net("1.1.1.1/32"), net("192.168.50.77/24")],
            host: Some(sock("[fe80::1%5]:27778")),
            serial: None,
            baud: None,
            no_dns: true,
            headless: true,
        })),
    };
    assert_eq!(read_back(by_address.reexec_guest_args()), by_address);
    let over_serial = cli(Some(Command::Guest(GuestArgs {
        serial: Some("/dev/tty.usbmodem".into()),
        baud: Some(230_400),
        ..GuestArgs::default()
    })));
    assert_eq!(read_back(over_serial.reexec_guest_args()), over_serial);
    let plain = cli(Some(Command::Guest(GuestArgs::default())));
    assert_eq!(read_back(plain.reexec_guest_args()), plain);
    assert_eq!(
        read_back(cli(Some(Command::Host(HostArgs::default()))).reexec_guest_args()),
        plain
    );
}

// Start and end.

fn machine(is_root: bool) -> Machine {
    Machine {
        os: Os::Linux,
        is_root,
        hostname: Some("box".to_string()),
    }
}

#[test]
fn the_subcommand_decides_where_to_start() {
    let saved = Config {
        default_mode: Some(Mode::Guest),
        ..Config::default()
    };
    assert_eq!(start_for(&cli(None), &saved), Start::Mode(Mode::Guest));
    assert_eq!(start_for(&cli(None), &Config::default()), Start::Onboarding);
    assert_eq!(
        start_for(&cli(Some(Command::Setup)), &saved),
        Start::Onboarding
    );
    assert_eq!(
        start_for(&cli(Some(Command::Host(HostArgs::default()))), &saved),
        Start::Mode(Mode::Host)
    );
}

#[test]
fn plans_for_a_guest() {
    let headless = cli(Some(Command::Guest(GuestArgs {
        headless: true,
        ..GuestArgs::default()
    })));
    let cfg = Config::default();
    match plan(&headless, &cfg, "/c", Some("/netm"), &machine(false)) {
        Plan::Refuse { message } => {
            assert!(message.starts_with("错误：客机模式需要管理员权限"));
            assert!(message.ends_with("sudo -E env NETM_CONFIG=/c /netm guest --headless"));
        }
        p => panic!("{p:?}"),
    }
    match plan(&headless, &cfg, "/c", None, &machine(true)) {
        Plan::HeadlessGuest(g) => assert_eq!(g.name, "box"),
        p => panic!("{p:?}"),
    }
    let shown = cli(Some(Command::Guest(GuestArgs::default())));
    match plan(&shown, &cfg, "/c", None, &machine(false)) {
        Plan::Reexec { args } => assert_eq!(args, vec!["guest"]),
        p => panic!("{p:?}"),
    }
    assert!(matches!(
        plan(&shown, &cfg, "/c", None, &machine(true)),
        Plan::Tui(Start::Mode(Mode::Guest))
    ));
    let on_windows = Machine {
        os: Os::Windows,
        ..machine(false)
    };
    assert!(matches!(
        plan(&shown, &cfg, "/c", None, &on_windows),
        Plan::Reexec { .. }
    ));
    let bad = Config {
        guest: GuestSettings {
            routes: vec!["x".into()],
            ..GuestSettings::default()
        },
        ..Config::default()
    };
    assert!(matches!(
        plan(&headless, &bad, "/c", None, &machine(true)),
        Plan::BadRoute(e) if e.route == "x"
    ));
}

#[test]
fn plans_for_a_host() {
    let headless = cli(Some(Command::Host(HostArgs {
        headless: true,
        port: Some(9),
        ..HostArgs::default()
    })));
    match plan(&headless, &Config::default(), "/c", None, &machine(false)) {
        Plan::HeadlessHost(h) => {
            assert_eq!(h.effective_bind_addr().text(), "[::]:9");
            assert_eq!(h.host_name, "box");
        }
        p => panic!("{p:?}"),
    }
    assert!(matches!(
        plan(&cli(None), &Config::default(), "/c", None, &machine(false)),
        Plan::Tui(Start::Onboarding)
    ));
}

#[test]
fn exit_codes_and_last_words() {
    assert_eq!(exit_after_tui(Outcome::Quit, 0), Some(0));
    assert_eq!(exit_after_tui(Outcome::Quit, 2), Some(1));
    assert_eq!(exit_after_tui(Outcome::ReexecGuest, 0), None);
    assert_eq!(flatten(CoreEnd::Returned(Ok(()))), Ok(()));
    assert_eq!(
        flatten(CoreEnd::Returned(Err("boom".into()))),
        Err("boom".into())
    );
    assert_eq!(flatten(CoreEnd::Panicked), Err("core task panicked".into()));
    assert_eq!(
        flatten(CoreEnd::Cancelled),
        Err("core task was cancelled".into())
    );
    assert_eq!(
        flatten(CoreEnd::Overdue),
        Err("core did not stop within 10s".into())
    );
    assert_eq!(started_line(Mode::Host), "宿主机模式已启动（headless）");
    assert_eq!(finished_line(Mode::Guest, &Ok(())), "客机已停止");
    assert_eq!(
        finished_line(Mode::Guest, &Err("x".into())),
        "客机运行出错：x"
    );
    assert_eq!(signal_line("SIGTERM"), "收到 SIGTERM，正在清理并退出…");
    assert_eq!(
        reexec_failed("无法执行 sudo：x", "/c", None, &vec!["guest".into()]),
        "无法执行 sudo：x\n请手动以管理员权限运行：\n  sudo -E env NETM_CONFIG=/c netm guest"
    );
    assert_eq!(
        [default_level(0), default_level(1), default_level(2)],
        ["info", "debug", "trace"]
    );
}

// Log lines.

#[test]
fn stats_are_not_described() {
    let ev = Event::Guest(GuestEvent::Stats {
        counters: Default::default(),
        tx_bps: per_second(1),
        rx_bps: per_second(2),
    });
    assert!(describe(&ev).is_none());
    let ev = Event::Host(HostEvent::Stats {
        counters: Default::default(),
        tx_bps: per_second(1),
        rx_bps: per_second(2),
        active_flows: 3,
    });
    assert!(describe(&ev).is_none());
}

#[test]
fn guest_states_map_to_chinese_lines() {
    let (lvl, msg) = describe(&Event::Guest(GuestEvent::StateChanged(
        GuestState::WaitingForLink,
    )))
    .unwrap();
    assert_eq!(lvl, Level::Info);
    assert_eq!(msg, "等待 Type-C 连接");

    let (lvl, msg) = describe(&Event::Guest(GuestEvent::StateChanged(
        GuestState::Disconnected {
            reason: "host bye".into(),
        },
    )))
    .unwrap();
    assert_eq!(lvl, Level::Warn);
    assert!(msg.contains("host bye"));
}

#[test]
fn host_events_map_to_chinese_lines() {
    let addr = sock("[::]:27778");
    let (_, msg) = describe(&Event::Host(HostEvent::Listening { addr })).unwrap();
    assert!(msg.contains("27778"));
    let (lvl, msg) = describe(&Event::Host(HostEvent::GuestConnected(GuestInfo {
        peer: Endpoint::Tcp(addr),
        name: "mbp".into(),
        connected_at: 0,
        assigned_ip: Ipv4Addr::new(10, 77, 0, 2),
    })))
    .unwrap();
    assert_eq!(lvl, Level::Info);
    assert!(msg.contains("mbp") && msg.contains("10.77.0.2"));
    let (lvl, _) = describe(&Event::Host(HostEvent::Error("x".into()))).unwrap();
    assert_eq!(lvl, Level::Error);
}

fn link(name: &str, ready: bool) -> LinkInterface {
    LinkInterface {
        name: name.to_string(),
        index: 3,
        is_up: true,
        link_local_v6: if ready {
            parse_ipv6(&chars("fe80::3"))
        } else {
            None
        },
        kind: LinkKind::Other,
    }
}

#[test]
fn lines_for_every_kind_of_event() {
    let line = |ev: Event| describe(&ev).unwrap().1;
    let guest = |ev: GuestEvent| line(Event::Guest(ev));
    let host = |ev: HostEvent| line(Event::Host(ev));
    let two = || vec![link("en1", true), link("en2", false), link("en3", true)];
    let none = || vec![link("en2", false)];
    assert_eq!(host(HostEvent::Interfaces(two())), "已连线链路：en1, en3");
    assert_eq!(
        host(HostEvent::Interfaces(none())),
        "候选网卡 1 个，尚无已连线的链路"
    );
    assert_eq!(guest(GuestEvent::Interfaces(two())), "检测到线缆：en1, en3");
    assert_eq!(
        guest(GuestEvent::Interfaces(none())),
        "候选网卡 1 个，尚未检测到线缆"
    );
    assert_eq!(
        host(HostEvent::GuestDisconnected {
            peer: Endpoint::Tcp(sock("10.0.0.1:5")),
            reason: "bye".into()
        }),
        "客机 10.0.0.1:5 已断开：bye"
    );
    assert_eq!(
        guest(GuestEvent::StateChanged(GuestState::Connected {
            host: Endpoint::Tcp(sock("[fe80::1%20]:27778")),
            host_name: "mac".into(),
            tun: "utun4".into(),
            config: TunnelConfig::default(),
            since: 0,
        })),
        "已连接宿主机 mac（[fe80::1%20]:27778），utun4 10.77.0.2/24 网关 10.77.0.1 DNS 10.77.0.1 MTU 1400"
    );
    assert_eq!(
        guest(GuestEvent::StateChanged(GuestState::Discovering {
            iface: "en1".into()
        })),
        "在 en1 上发现宿主机中"
    );
    assert_eq!(host(HostEvent::Log("hello".into())), "hello");
    assert!(describe(&Event::Guest(GuestEvent::LocalEgress(None))).is_none());
    let speed = LinkSpeed {
        up_bytes: 1,
        up_nanos: 1,
        down_bytes: 1,
        down_nanos: 1,
    };
    assert!(describe(&Event::Host(HostEvent::LinkSpeed(speed))).is_none());
}

#[test]
fn headless_lines() {
    let mut logger = HeadlessLogger::default();
    assert!(logger.log(&Event::Host(HostEvent::Log("x".into())), 0).is_none());
    assert!(matches!(
        logger.log(
            &Event::Guest(GuestEvent::StateChanged(GuestState::WaitingForLink)),
            0
        ),
        Some(Note::Line(Level::Info, m)) if m == "等待 Type-C 连接"
    ));
    let flow = FlowInfo {
        id: 7,
        proto: Proto::Udp,
        src: sock("10.77.0.2:5"),
        dst: sock("1.1.1.1:53"),
        tx_bytes: 0,
        rx_bytes: 0,
        opened_at: 0,
    };
    assert!(matches!(
        logger.log(&Event::Host(HostEvent::FlowOpened(flow)), 0),
        Some(Note::Debug(m)) if m == "流 #7 Udp 10.77.0.2:5 -> 1.1.1.1:53 打开"
    ));
    assert!(matches!(
        logger.log(
            &Event::Host(HostEvent::FlowClosed { id: 7, tx_bytes: 1, rx_bytes: 2 }),
            0
        ),
        Some(Note::Debug(m)) if m == "流 #7 关闭 tx 1 B rx 2 B"
    ));
}

#[test]
fn headless_stats_are_spaced_and_need_traffic() {
    let mut logger = HeadlessLogger::default();
    let stats = |bps: u64| {
        Event::Host(HostEvent::Stats {
            counters: Counters {
                tx_bytes: 10,
                rx_bytes: 20,
                tx_packets: 1,
                rx_packets: 1,
            },
            tx_bps: per_second(bps),
            rx_bps: Rate::default(),
            active_flows: 3,
        })
    };
    assert!(logger.log(&stats(0), 100).is_none());
    assert!(matches!(
        logger.log(&stats(8), 100),
        Some(Note::Rates { tx_bps, rx_bps, rest })
            if tx_bps == per_second(8) && rx_bps == Rate::default() && rest == "（累计 tx 10 B / rx 20 B） 活跃流 3"
    ));
    assert!(logger.log(&stats(8), 2099).is_none());
    assert!(logger.log(&stats(8), 2100).is_some());
    let guest = Event::Guest(GuestEvent::Stats {
        counters: Counters::default(),
        tx_bps: Rate::default(),
        rx_bps: Rate {
            bytes: 1,
            nanos: u64::MAX,
        },
    });
    assert!(matches!(
        logger.log(&guest, 9000),
        Some(Note::Rates { rest, .. }) if rest == "（累计 tx 0 B / rx 0 B）"
    ));
}

#[test]
fn default_config_is_sane() {
    let c = GuestConfig::for_host(None);
    assert!(!c.name.is_empty());
    assert!(matches!(c.host, HostTarget::Auto));
    assert!(matches!(c.routes, RouteMode::Full));
    assert!(c.set_dns);
    assert!(c.reconnect);
    assert!(RouteMode::Full.default_set_dns());
    assert!(!RouteMode::Custom(vec![]).default_set_dns());
}
