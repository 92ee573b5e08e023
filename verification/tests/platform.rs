//! Commands of the guest's platform.

use netm::cidr::parse_net;
use netm::frame::TunnelConfig;
use netm::guest::{next_retry_backoff, RouteMode};
use netm::macos::{route_cidrs, resolver_seen, scutil_remove_script, MacosConfigurator, Resolver};
use netm::net::Ipv4Addr;
use netm::platform::{
    check_privileges, default_egress_interface, default_route_command, ifconfig_has_inet,
    parse_linux_default_route, parse_macos_default_route, prefix_to_netmask, requires_root,
    CommandOutput, CommandRunner, Execute, LinuxConfigurator, Os, PlatformConfigurator,
    RecordedCommand, RecordingRunner, SystemRunner, Unsupported, WindowsConfigurator,
};

#[test]
fn parses_macos_default_route() {
    let out = "   route to: default\ndestination: default\n       mask: default\n    gateway: 192.168.1.1\n  interface: en0\n      flags: <UP,GATEWAY,DONE,STATIC,PRCLONING,GLOBAL>\n";
    assert_eq!(parse_macos_default_route(out).as_deref(), Some("en0"));
    assert_eq!(
        parse_macos_default_route("route: writing to routing socket: not in table"),
        None
    );
}

#[test]
fn parses_linux_default_route() {
    let out = "default via 192.168.1.1 dev wlp2s0 proto dhcp metric 600\n";
    assert_eq!(parse_linux_default_route(out).as_deref(), Some("wlp2s0"));
    assert_eq!(parse_linux_default_route(""), None);
}

#[test]
fn the_default_route_is_asked_for_by_os() {
    assert_eq!(
        default_route_command(Os::MacOs),
        Some(vec!["route", "-n", "get", "default"])
    );
    assert_eq!(
        default_route_command(Os::Linux),
        Some(vec!["ip", "-4", "route", "show", "default"])
    );
    assert_eq!(default_route_command(Os::Windows), None);
    assert_eq!(
        default_egress_interface(Os::Linux, Some("default dev eth0")).as_deref(),
        Some("eth0")
    );
    assert_eq!(
        default_egress_interface(Os::MacOs, Some("interface: en0")).as_deref(),
        Some("en0")
    );
    assert_eq!(default_egress_interface(Os::Windows, Some("dev x")), None);
    assert_eq!(default_egress_interface(Os::Linux, None), None);
}

#[test]
fn root_is_required_on_every_system() {
    assert!(requires_root(Os::MacOs));
    assert!(requires_root(Os::Linux));
    assert!(requires_root(Os::OtherUnix));
    assert!(requires_root(Os::Windows));
    assert!(check_privileges(Os::Linux, true).is_ok());
    assert!(check_privileges(Os::Windows, true).is_ok());
    assert!(check_privileges(Os::Windows, false)
        .unwrap_err()
        .contains("root"));
    assert!(check_privileges(Os::MacOs, false)
        .unwrap_err()
        .contains("root"));
}

#[test]
fn netmask_from_prefix() {
    assert_eq!(prefix_to_netmask(24).text(), "255.255.255.0");
    assert_eq!(prefix_to_netmask(32).text(), "255.255.255.255");
    assert_eq!(prefix_to_netmask(0).text(), "0.0.0.0");
    assert_eq!(prefix_to_netmask(1).text(), "128.0.0.0");
    assert_eq!(prefix_to_netmask(30).text(), "255.255.255.252");
}

#[test]
fn recording_runner_records_and_scripts() {
    let mut r = RecordingRunner {
        responses: vec![(
            ("ifconfig".into(), "utun9".into()),
            CommandOutput {
                success: true,
                stdout: "inet 1.2.3.4".into(),
                stderr: String::new(),
            },
        )],
        failing: vec!["route -n add".into()],
        ..Default::default()
    };
    let out = r.run("ifconfig", &["utun9"], None).unwrap();
    assert!(out.stdout.contains("1.2.3.4"));
    let out = r.run("route", &["-n", "add", "x"], None).unwrap();
    assert!(!out.success);
    let out = r.run("scutil", &[], Some("quit\n")).unwrap();
    assert!(out.success);
    let rec = r.recorded();
    assert_eq!(rec.len(), 3);
    assert_eq!(rec[1].argv(), "route -n add x");
    assert_eq!(rec[2].stdin.as_deref(), Some("quit\n"));
}

#[test]
fn reconnect_backoff_doubles_and_caps() {
    let max = 30_000;
    let mut delay = 1_000;
    let mut seen = vec![delay];
    for _ in 0..6 {
        delay = next_retry_backoff(delay, max);
        seen.push(delay);
    }
    assert_eq!(seen, [1, 2, 4, 8, 16, 30, 30].map(|s| s * 1000));
}

fn cfg() -> TunnelConfig {
    TunnelConfig::default()
}

fn argvs(rec: &[RecordedCommand]) -> Vec<String> {
    rec.iter().map(|r| r.argv()).collect()
}

fn recorded(c: &MacosConfigurator<RecordingRunner>) -> Vec<RecordedCommand> {
    c.runner().recorded()
}

fn runner_with_address_set() -> RecordingRunner {
    RecordingRunner {
        responses: vec![
            (
                ("ifconfig".into(), "utun7".into()),
                CommandOutput {
                    success: true,
                    stdout: "utun7: flags=8051<UP,POINTOPOINT,RUNNING,MULTICAST> mtu 1400\n\
                             \tinet 10.77.0.2 --> 10.77.0.1 netmask 0xffffff00\n"
                        .into(),
                    stderr: String::new(),
                },
            ),
            (
                ("scutil".into(), "--dns".into()),
                CommandOutput {
                    success: true,
                    stdout: "resolver #1\n  nameserver[0] : 10.77.0.1\n".into(),
                    stderr: String::new(),
                },
            ),
        ],
        ..Default::default()
    }
}

#[test]
fn full_mode_with_dns_command_sequence() {
    let mut c = MacosConfigurator::new(runner_with_address_set());
    c.apply("utun7", &cfg(), &RouteMode::Full, true).unwrap();
    let rec = recorded(&c);
    assert_eq!(
        argvs(&rec),
        vec![
            "scutil",
            "ifconfig utun7",
            "route -n add -net 0.0.0.0/1 -interface utun7",
            "route -n add -net 128.0.0.0/1 -interface utun7",
            "scutil",
            "scutil --dns",
        ]
    );
    // Stale cleanup script.
    assert_eq!(
        rec[0].stdin.as_deref(),
        Some(
            "remove State:/Network/Service/netm/DNS\nremove State:/Network/Service/netm/IPv4\nquit\n"
        )
    );
    // DNS publish script.
    assert_eq!(
        rec[4].stdin.as_deref(),
        Some(
            "d.init\n\
             d.add ServerAddresses * 10.77.0.1\n\
             d.add SupplementalMatchDomains * \"\"\n\
             set State:/Network/Service/netm/DNS\n\
             d.init\n\
             d.add InterfaceName utun7\n\
             d.add Addresses * 10.77.0.2\n\
             d.add Router 10.77.0.1\n\
             set State:/Network/Service/netm/IPv4\n\
             quit\n"
        )
    );

    c.revert().unwrap();
    let rec = recorded(&c);
    assert_eq!(
        argvs(&rec[6..]),
        vec![
            "scutil",
            "route -n delete -net 128.0.0.0/1 -interface utun7",
            "route -n delete -net 0.0.0.0/1 -interface utun7",
        ]
    );
    assert_eq!(
        rec[6].stdin.as_deref(),
        Some(scutil_remove_script().as_str())
    );

    // Second revert is a no-op.
    c.revert().unwrap();
    assert_eq!(recorded(&c).len(), 9);
}

#[test]
fn custom_mode_without_dns_sets_address_when_missing() {
    // The ifconfig query returns empty stdout.
    let mut c = MacosConfigurator::new(RecordingRunner::default());
    let routes = RouteMode::Custom(vec![
        parse_net("1.1.1.1/32").unwrap(),
        parse_net("8.8.8.8/32").unwrap(),
        parse_net("192.168.50.77/24").unwrap(), // host bits are truncated
    ]);
    let mut tc = cfg();
    tc.mtu = 1380;
    tc.prefix_len = 30;
    c.apply("utun3", &tc, &routes, false).unwrap();
    assert_eq!(
        argvs(&recorded(&c)),
        vec![
            "scutil",
            "ifconfig utun3",
            "ifconfig utun3 inet 10.77.0.2 10.77.0.1 netmask 255.255.255.252 mtu 1380 up",
            "route -n add -net 1.1.1.1/32 -interface utun3",
            "route -n add -net 8.8.8.8/32 -interface utun3",
            "route -n add -net 192.168.50.0/24 -interface utun3",
        ]
    );
    c.revert().unwrap();
    assert_eq!(
        argvs(&recorded(&c)[6..]),
        vec![
            "route -n delete -net 192.168.50.0/24 -interface utun3",
            "route -n delete -net 8.8.8.8/32 -interface utun3",
            "route -n delete -net 1.1.1.1/32 -interface utun3",
        ]
    );
}

#[test]
fn failed_route_aborts_apply_and_reverts_partial_state() {
    let mut runner = RecordingRunner::default();
    runner
        .failing
        .push("route -n add -net 128.0.0.0/1".to_string());
    let mut c = MacosConfigurator::new(runner);
    let err = c
        .apply("utun1", &cfg(), &RouteMode::Full, true)
        .unwrap_err();
    assert!(err.contains("128.0.0.0/1"), "{err}");
    // Only the first route was installed; DNS never happened.
    c.revert().unwrap();
    let rec = argvs(&recorded(&c));
    assert_eq!(
        rec.last().unwrap(),
        "route -n delete -net 0.0.0.0/1 -interface utun1"
    );
    assert!(!rec.iter().any(|a| a == "scutil --dns"));
}

#[test]
fn existing_route_is_replaced() {
    let runner = RecordingRunner {
        responses: vec![(
            ("route".into(), "-n".into()),
            CommandOutput {
                success: false,
                stdout: String::new(),
                stderr: "route: writing to routing socket: File exists".into(),
            },
        )],
        ..Default::default()
    };
    // The canned response makes *every* route call fail with "exists",
    // so the retry fails too and apply must report an error...
    let mut c = MacosConfigurator::new(runner);
    let routes = RouteMode::Custom(vec![parse_net("1.1.1.1/32").unwrap()]);
    assert!(c.apply("utun1", &cfg(), &routes, false).is_err());
    // ...but it must have tried delete + add in between.
    let rec = argvs(&recorded(&c));
    assert_eq!(
        &rec[3..],
        &[
            "route -n add -net 1.1.1.1/32 -interface utun1",
            "route -n delete -net 1.1.1.1/32 -interface utun1",
            "route -n add -net 1.1.1.1/32 -interface utun1",
        ]
    );
}

#[test]
fn a_second_apply_reverts_the_first() {
    let mut c = MacosConfigurator::new(runner_with_address_set());
    c.apply("utun7", &cfg(), &RouteMode::Full, false).unwrap();
    let routes = RouteMode::Custom(vec![parse_net("1.1.1.1/32").unwrap()]);
    c.apply("utun7", &cfg(), &routes, false).unwrap();
    assert_eq!(
        argvs(&recorded(&c)[4..]),
        vec![
            "route -n delete -net 128.0.0.0/1 -interface utun7",
            "route -n delete -net 0.0.0.0/1 -interface utun7",
            "scutil",
            "ifconfig utun7",
            "route -n add -net 1.1.1.1/32 -interface utun7",
        ]
    );
}

#[test]
fn errors_say_what_was_run() {
    let mut runner = RecordingRunner::default();
    runner.failing.push("ifconfig utun1 inet".to_string());
    let mut c = MacosConfigurator::new(runner);
    let err = c
        .apply("utun1", &cfg(), &RouteMode::Full, false)
        .unwrap_err();
    assert!(
        err.starts_with(
            "assigning tunnel address: `ifconfig utun1 inet 10.77.0.2 10.77.0.1 netmask 255.255.255.0 mtu 1400 up` failed: "
        ),
        "{err}"
    );
    let mut runner = RecordingRunner::default();
    runner.failing.push("scutil".to_string());
    let mut c = MacosConfigurator::new(runner);
    let err = c
        .apply("utun1", &cfg(), &RouteMode::Full, true)
        .unwrap_err();
    assert!(err.starts_with("publishing DNS via scutil: `scutil ` failed: "), "{err}");
}

#[test]
fn ifconfig_inet_detection() {
    let out = "utun4: flags=8051 mtu 1400\n\tinet 10.77.0.22 --> 10.77.0.1 netmask 0xffffff00\n";
    assert!(ifconfig_has_inet(out, Ipv4Addr::new(10, 77, 0, 22)));
    assert!(!ifconfig_has_inet(out, Ipv4Addr::new(10, 77, 0, 2)));
    assert!(!ifconfig_has_inet("", Ipv4Addr::new(10, 77, 0, 2)));
}

#[test]
fn route_lists() {
    assert_eq!(
        route_cidrs(&RouteMode::Full),
        vec!["0.0.0.0/1", "128.0.0.0/1"]
    );
    assert_eq!(
        route_cidrs(&RouteMode::Custom(vec![parse_net("10.1.2.3/16").unwrap()])),
        vec!["10.1.0.0/16"]
    );
    assert!(route_cidrs(&RouteMode::Custom(vec![])).is_empty());
}

#[test]
fn other_systems_are_not_supported() {
    let mut l = LinuxConfigurator;
    assert_eq!(
        l.apply("tun0", &cfg(), &RouteMode::Full, true).unwrap_err(),
        "Linux guest is not yet supported"
    );
    assert!(l.revert().is_ok());
    let mut w = WindowsConfigurator;
    assert_eq!(
        w.apply("tun0", &cfg(), &RouteMode::Full, true).unwrap_err(),
        "Windows guest is not yet supported"
    );
    assert!(w.revert().is_ok());
    let mut u = Unsupported;
    assert_eq!(
        u.apply("tun0", &cfg(), &RouteMode::Full, true).unwrap_err(),
        "this platform is not yet supported"
    );
    assert!(u.revert().is_ok());
}

#[test]
fn white_space_is_that_of_unicode() {
    for c in [
        '\t', '\n', '\u{b}', '\u{c}', '\r', ' ', '\u{85}', '\u{a0}', '\u{1680}', '\u{2000}', '\u{200a}',
        '\u{2028}', '\u{2029}', '\u{202f}', '\u{205f}', '\u{3000}',
    ] {
        let line = format!("default{c}dev{c}eth0{c}");
        assert_eq!(
            parse_linux_default_route(&line).as_deref(),
            Some("eth0"),
            "{c:?}"
        );
    }
    for c in ['\u{8}', '\u{e}', '\u{180e}', '\u{200b}', '\u{2060}', '\u{feff}', 'x'] {
        let line = format!("default{c}dev{c}eth0");
        assert_eq!(parse_linux_default_route(&line), None, "{c:?}");
    }
}

#[test]
fn a_run_without_obstacles_is_whole() {
    let mut c = MacosConfigurator::new(RecordingRunner::default());
    let routes = RouteMode::Custom(vec![
        parse_net("1.1.1.1/32").unwrap(),
        parse_net("192.168.50.77/24").unwrap(),
    ]);
    let mut tc = cfg();
    tc.mtu = 1380;
    tc.prefix_len = 30;
    assert_eq!(c.apply("utun3", &tc, &routes, true), Ok(()));
    assert_eq!(
        argvs(&recorded(&c)),
        vec![
            "scutil",
            "ifconfig utun3",
            "ifconfig utun3 inet 10.77.0.2 10.77.0.1 netmask 255.255.255.252 mtu 1380 up",
            "route -n add -net 1.1.1.1/32 -interface utun3",
            "route -n add -net 192.168.50.0/24 -interface utun3",
            "scutil",
            "scutil --dns",
        ]
    );
}

#[test]
fn the_resolver_is_looked_for() {
    let said = |stdout: &str, success: bool| {
        Ok(CommandOutput {
            success,
            stdout: stdout.into(),
            stderr: String::new(),
        })
    };
    let dns = Ipv4Addr::new(10, 77, 0, 1);
    let list = "resolver #1\n  nameserver[0] : 10.77.0.1\n";
    assert_eq!(resolver_seen(said(list, true), dns), Resolver::Visible);
    assert_eq!(resolver_seen(said(list, false), dns), Resolver::Visible);
    assert_eq!(
        resolver_seen(said("nameserver[0] : 8.8.8.8", true), dns),
        Resolver::Hidden
    );
    assert_eq!(
        resolver_seen(Err("no such file".into()), dns),
        Resolver::Unknown("no such file".into())
    );

    let mut c = MacosConfigurator::new(RecordingRunner::default());
    assert_eq!(*c.resolver(), None);
    c.apply("utun7", &cfg(), &RouteMode::Full, true).unwrap();
    assert_eq!(*c.resolver(), Some(Resolver::Hidden));
    // A configuration without DNS does not look.
    c.apply("utun7", &cfg(), &RouteMode::Full, false).unwrap();
    assert_eq!(*c.resolver(), None);

    let mut c = MacosConfigurator::new(RecordingRunner {
        responses: vec![(
            ("scutil".into(), "--dns".into()),
            CommandOutput {
                success: true,
                stdout: list.into(),
                stderr: String::new(),
            },
        )],
        ..Default::default()
    });
    c.apply("utun7", &cfg(), &RouteMode::Full, true).unwrap();
    assert_eq!(*c.resolver(), Some(Resolver::Visible));
}

/// A machine without any program.
struct Bare {
    asked: usize,
}

impl Execute for Bare {
    fn execute(
        &mut self,
        program: &str,
        _: &[&str],
        _: Option<&str>,
    ) -> Result<CommandOutput, String> {
        self.asked += 1;
        Err(format!("no {program} ({})", self.asked))
    }
}

#[test]
fn commands_go_to_the_machine() {
    let mut r = SystemRunner::new(Bare { asked: 0 });
    assert_eq!(r.run("route", &["-n"], None), Err("no route (1)".into()));

    let mut c = MacosConfigurator::new(SystemRunner::new(Bare { asked: 0 }));
    assert_eq!(
        c.apply("utun7", &cfg(), &RouteMode::Full, true),
        Err("assigning tunnel address: failed to execute `ifconfig`: no ifconfig (3)".into())
    );
    assert_eq!(c.revert(), Ok(()));
}
