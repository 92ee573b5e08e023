//! How the program starts and ends: what it runs for its arguments and saved
//! settings, what it says, and with which exit code it ends.

use crate::cli::{
    self, build_guest_config, build_host_config, Cli, Command, RouteError,
};
use crate::guest::GuestConfig;
use crate::host::HostConfig;
use crate::platform::{self, Os};
use crate::privilege::{self, guest_needs_elevation, manual_hint};
use crate::settings::{Config, Mode, CONFIG_ENV};
use crate::text;
use crate::tui::{Machine, Outcome, Start};
use vstd::prelude::*;
use vstd::string::StringExecFns;

verus! {

/// Exit code of a run without an error.
pub const EXIT_OK: u8 = 0;

/// Exit code after an error.
pub const EXIT_ERROR: u8 = 1;

/// Exit code of a guest that lacks privileges.
pub const EXIT_PRIVILEGES: u8 = 2;

/// Where to start: as the subcommand says, else in the saved mode, else with
/// the choice of one.
pub open spec fn start_of(cli: Cli, default_mode: Option<Mode>) -> Start {
    match cli.command {
        Some(Command::Setup) => Start::Onboarding,
        Some(Command::Host(_)) => Start::Mode(Mode::Host),
        Some(Command::Guest(_)) => Start::Mode(Mode::Guest),
        None => match default_mode {
            Some(m) => Start::Mode(m),
            None => Start::Onboarding,
        },
    }
}

/// Where to start.
pub fn start_for(cli: &Cli, config: &Config) -> (r: Start)
    ensures
        r == start_of(*cli, config.default_mode),
{
    match &cli.command {
        Some(Command::Setup) => Start::Onboarding,
        Some(Command::Host(_)) => Start::Mode(Mode::Host),
        Some(Command::Guest(_)) => Start::Mode(Mode::Guest),
        None => match config.default_mode {
            Some(m) => Start::Mode(m),
            None => Start::Onboarding,
        },
    }
}

/// What the program does.
#[derive(Debug)]
pub enum Plan {
    /// Say why the guest cannot run and how it can, and end with
    /// [`EXIT_PRIVILEGES`].
    Refuse { message: String },
    /// Run the guest again under `sudo`, with these arguments.
    Reexec { args: Vec<String> },
    /// Run the host without the TUI.
    HeadlessHost(HostConfig),
    /// Run the guest without the TUI.
    HeadlessGuest(GuestConfig),
    /// A route of the config file is none: say so, and end with
    /// [`EXIT_ERROR`].
    BadRoute(RouteError),
    /// Show the TUI.
    Tui(Start),
}

/// The guest was asked for, and lacks privileges.
pub open spec fn lacks_privileges(start: Start, machine: Machine) -> bool {
    start == Start::Mode(Mode::Guest) && !machine.is_root
}

/// What a guest without privileges is told.
pub open spec fn refusal(config_path: Seq<char>, exe: Option<Seq<char>>, args: Seq<Seq<char>>) -> Seq<
    char,
> {
    "错误：客机模式需要管理员权限（创建 TUN、修改路由与 DNS），当前不是 root。\n"@ + (
    "请手动以管理员权限运行：\n  sudo -E env "@ + CONFIG_ENV@ + "="@ + privilege::quoted(config_path)
        + " "@ + privilege::quoted(privilege::exe_name(exe)) + " "@ + privilege::quoted_words(args))
}

/// What the program does for its arguments and saved settings. Without the
/// privileges for a guest it asks for them, where there is somebody to ask:
/// in headless mode it says what is missing.
pub fn plan(cli: &Cli, config: &Config, config_path: &str, exe: Option<&str>, machine: &Machine) -> (r:
    Plan)
    ensures
        ({
            let start = start_of(*cli, config.default_mode);
            match r {
                Plan::Refuse { message } => {
                    &&& lacks_privileges(start, *machine)
                    &&& cli.spec_headless()
                    &&& message@ == refusal(
                        config_path@,
                        platform::str_view(exe),
                        cli.reexec_words(),
                    )
                },
                Plan::Reexec { args } => {
                    &&& lacks_privileges(start, *machine)
                    &&& !cli.spec_headless()
                    &&& platform::strings_view(args@) == cli.reexec_words()
                },
                Plan::HeadlessHost(cfg) => {
                    &&& cli.spec_headless()
                    &&& start == Start::Mode(Mode::Host)
                    &&& cli::is_host_config(
                        cfg,
                        cli.spec_host_args(),
                        config.host,
                        machine.hostname,
                    )
                },
                Plan::HeadlessGuest(cfg) => {
                    &&& cli.spec_headless()
                    &&& start == Start::Mode(Mode::Guest)
                    &&& !lacks_privileges(start, *machine)
                    &&& exists|args: cli::GuestArgs|
                        args@ == cli.spec_guest_args() && #[trigger] cli::is_guest_config(
                            cfg,
                            args,
                            config.guest,
                            machine.hostname,
                        )
                },
                Plan::BadRoute(e) => {
                    &&& cli.spec_headless()
                    &&& start == Start::Mode(Mode::Guest)
                    &&& !lacks_privileges(start, *machine)
                    &&& cli::chosen_routes(cli.spec_guest_args().routes, config.guest.routes@)
                        == Err::<cli::Routed, String>(e.route)
                },
                Plan::Tui(s) => {
                    &&& !cli.spec_headless()
                    &&& !lacks_privileges(start, *machine)
                    &&& s == start
                },
            }
        }),
{
    let start = start_for(cli, config);
    let headless: bool = cli.headless();
    if start == Start::Mode(Mode::Guest) && guest_needs_elevation(machine.os, machine.is_root) {
        let args = cli.reexec_guest_args();
        if headless {
            let hint = manual_hint(config_path, exe, &args);
            return Plan::Refuse {
                message: text::cat2(
                    "错误：客机模式需要管理员权限（创建 TUN、修改路由与 DNS），当前不是 root。\n",
                    hint.as_str(),
                ),
            };
        }
        return Plan::Reexec { args };
    }
    if !headless {
        return Plan::Tui(start);
    }
    let hostname = match &machine.hostname {
        Some(h) => Some(h.clone()),
        None => None,
    };
    match start {
        Start::Mode(Mode::Guest) => {
            let args = cli.guest_args();
            match build_guest_config(&args, config, hostname) {
                Ok(cfg) => {
                    assert(cli::is_guest_config(cfg, args, config.guest, machine.hostname));
                    Plan::HeadlessGuest(cfg)
                },
                Err(e) => Plan::BadRoute(e),
            }
        },
        _ => Plan::HeadlessHost(build_host_config(&cli.host_args(), &config.host, hostname)),
    }
}

/// Headless mode always has a mode: only a subcommand asks for it.
pub proof fn headless_has_a_mode(cli: Cli, default_mode: Option<Mode>)
    requires
        cli.spec_headless(),
    ensures
        start_of(cli, default_mode) is Mode,
        cli.spec_fixed_mode() matches Some(m) && start_of(cli, default_mode) == Start::Mode(m),
{
}

/// A subcommand beats the saved mode.
pub proof fn a_subcommand_beats_the_saved_mode(cli: Cli, a: Option<Mode>, b: Option<Mode>)
    requires
        cli.command is Some,
    ensures
        start_of(cli, a) == start_of(cli, b),
{
}

/// What is said when the guest could not be run again under `sudo`.
pub fn reexec_failed(error: &str, config_path: &str, exe: Option<&str>, args: &Vec<String>) -> (r:
    String)
    ensures
        r@ == error@ + "\n"@ + ("请手动以管理员权限运行：\n  sudo -E env "@ + CONFIG_ENV@ + "="@
            + privilege::quoted(config_path@) + " "@ + privilege::quoted(
            privilege::exe_name(platform::str_view(exe)),
        ) + " "@ + privilege::quoted_words(platform::strings_view(args@))),
{
    text::cat3(error, "\n", manual_hint(config_path, exe, args).as_str())
}

/// Exit code after the TUI, of which the errors were `errors` in number;
/// `None` where the guest is run again instead.
pub fn exit_after_tui(outcome: Outcome, errors: usize) -> (r: Option<u8>)
    ensures
        r == (match outcome {
            Outcome::Quit => Some(
                if errors == 0 {
                    EXIT_OK
                } else {
                    EXIT_ERROR
                },
            ),
            Outcome::ReexecGuest => None,
        }),
{
    match outcome {
        Outcome::Quit => if errors == 0 {
            Some(EXIT_OK)
        } else {
            Some(EXIT_ERROR)
        },
        Outcome::ReexecGuest => None,
    }
}

/// Default level of the log for a number of `-v`.
pub fn default_level(verbose: u8) -> (r: &'static str)
    ensures
        r@ == (if verbose == 0 {
            "info"@
        } else if verbose == 1 {
            "debug"@
        } else {
            "trace"@
        }),
{
    if verbose == 0 {
        "info"
    } else if verbose == 1 {
        "debug"
    } else {
        "trace"
    }
}

// Headless mode.

/// How the core task ended.
#[derive(Debug)]
pub enum CoreEnd {
    /// It returned.
    Returned(Result<(), String>),
    Panicked,
    Cancelled,
    /// It was asked to stop and did not in time.
    Overdue,
}

/// What the end of a core task comes to.
pub open spec fn end_error(end: CoreEnd) -> Option<Seq<char>> {
    match end {
        CoreEnd::Returned(Ok(_)) => None,
        CoreEnd::Returned(Err(e)) => Some(e@),
        CoreEnd::Panicked => Some("core task panicked"@),
        CoreEnd::Cancelled => Some("core task was cancelled"@),
        CoreEnd::Overdue => Some("core did not stop within 10s"@),
    }
}

/// What the end of a core task comes to.
pub fn flatten(end: CoreEnd) -> (r: Result<(), String>)
    ensures
        match (r, end_error(end)) {
            (Ok(_), None) => true,
            (Err(e), Some(t)) => e@ == t,
            _ => false,
        },
{
    match end {
        CoreEnd::Returned(r) => r,
        CoreEnd::Panicked => Err("core task panicked".to_owned()),
        CoreEnd::Cancelled => Err("core task was cancelled".to_owned()),
        CoreEnd::Overdue => Err("core did not stop within 10s".to_owned()),
    }
}

/// The first line of the log in headless mode.
pub fn started_line(mode: Mode) -> (r: String)
    ensures
        r@ == mode.spec_label() + "模式已启动（headless）"@,
{
    text::cat2(mode.label(), "模式已启动（headless）")
}

/// The line about the end of the core in headless mode.
pub fn finished_line(mode: Mode, res: &Result<(), String>) -> (r: String)
    ensures
        r@ == (match *res {
            Ok(_) => mode.spec_label() + "已停止"@,
            Err(e) => mode.spec_label() + "运行出错："@ + e@,
        }),
{
    match res {
        Ok(_) => text::cat2(mode.label(), "已停止"),
        Err(e) => text::cat3(mode.label(), "运行出错：", e.as_str()),
    }
}

/// The line about a signal in headless mode.
pub fn signal_line(name: &str) -> (r: String)
    ensures
        r@ == "收到 "@ + name@ + "，正在清理并退出…"@,
{
    text::cat3("收到 ", name, "，正在清理并退出…")
}

/// What was asked for decides how the program starts, and what was saved where
/// nothing was asked for; without either it asks.
pub proof fn what_is_started(cli: Cli, default_mode: Option<Mode>, mode: Mode)
    ensures
        cli.command matches Some(Command::Host(_)) ==> start_of(cli, default_mode) == Start::Mode(
            Mode::Host,
        ),
        cli.command matches Some(Command::Guest(_)) ==> start_of(cli, default_mode)
            == Start::Mode(Mode::Guest),
        cli.command matches Some(Command::Setup) ==> start_of(cli, default_mode)
            == Start::Onboarding,
        cli.command is None && default_mode == Some(mode) ==> start_of(cli, default_mode)
            == Start::Mode(mode),
        cli.command is None && default_mode is None ==> start_of(cli, default_mode)
            == Start::Onboarding,
{
}

/// Only a guest lacks privileges, and only where it is not run by root.
pub proof fn only_a_guest_lacks_privileges(start: Start, machine: Machine)
    ensures
        machine.is_root ==> !lacks_privileges(start, machine),
        start == Start::Mode(Mode::Host) || start == Start::Onboarding ==> !lacks_privileges(
            start,
            machine,
        ),
        start == Start::Mode(Mode::Guest) && !machine.is_root ==> lacks_privileges(start, machine),
{
}

/// A core that returned in order is no error, and every other end is; its own
/// error is passed on.
pub proof fn only_an_orderly_end_is_no_error(end: CoreEnd)
    ensures
        end_error(end) is None <==> end matches CoreEnd::Returned(Ok(_)),
        end matches CoreEnd::Returned(Err(e)) ==> end_error(end) == Some(e@),
{
}

/// A refusal says how to run the program: with this configuration and these
/// words.
pub proof fn a_refusal_says_what_to_run(
    config_path: Seq<char>,
    exe: Option<Seq<char>>,
    args: Seq<Seq<char>>,
)
    ensures
        text::holds(refusal(config_path, exe, args), privilege::quoted(config_path)),
        text::holds(
            refusal(config_path, exe, args),
            privilege::quoted(privilege::exe_name(exe)),
        ),
        text::holds(refusal(config_path, exe, args), privilege::quoted_words(args)),
{
    let none = Seq::<char>::empty();
    let (c, e, w) = (
        privilege::quoted(config_path),
        privilege::quoted(privilege::exe_name(exe)),
        privilege::quoted_words(args),
    );
    let all = refusal(config_path, exe, args);
    let first = "错误：客机模式需要管理员权限（创建 TUN、修改路由与 DNS），当前不是 root。\n"@;
    let a = first + ("请手动以管理员权限运行：\n  sudo -E env "@ + CONFIG_ENV@ + "="@);
    let s = " "@;
    assert(all =~= a + c + s + e + s + w);
    text::an_inner_text_is_held(a, c, s + e + s + w);
    assert(a + c + (s + e + s + w) =~= all);
    text::an_inner_text_is_held(a + c + s, e, s + w);
    assert(a + c + s + e + (s + w) =~= all);
    text::an_inner_text_is_held(a + c + s + e + s, w, none);
    assert(a + c + s + e + s + w + none =~= all);
}

} // verus!
