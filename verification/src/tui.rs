//! TUI application state and key handling.
//!
//! The caller owns the terminal, the clock and the running core. It hands in
//! keys, core events and ticks, and does the [`Work`] that comes back.

use crate::cli::{self, build_guest_config, build_host_config, GuestArgs, HostArgs, Routed};
use crate::cidr::{self, write_nets};
use crate::guest::{GuestConfig, HostTarget, RouteMode};
use crate::host::{self, HostConfig};
use crate::model::{
    GuestModel, GuestModelView, HostModel, HostModelView, LineView, LogBuffer, LogView,
};
use crate::platform::{self, Os};
use crate::privilege::guest_needs_elevation;
use crate::report::{self, describe, Event, Level};
use crate::settings::{Config, Mode};
use crate::text;
use vstd::prelude::*;
use vstd::string::StringExecFns;

verus! {

/// How long to wait for the core to finish after `Shutdown`, in milliseconds.
pub const SHUTDOWN_TIMEOUT_MS: u64 = 10_000;

/// How long the screen waits for that, in milliseconds.
pub const WATCHDOG_MS: u64 = 11_000;

// Summary of a guest configuration.

/// What is routed, in words.
pub open spec fn routes_text(r: Routed) -> Seq<char> {
    match r {
        Routed::Full => "全部流量（0.0.0.0/1 + 128.0.0.0/1）"@,
        Routed::Custom(nets) => cidr::nets_text(nets),
    }
}

/// How the host is found, in words.
pub open spec fn target_text(t: HostTarget) -> Seq<char> {
    match t {
        HostTarget::Auto => "自动发现"@,
        HostTarget::Manual(a) => a.spec_text(),
        HostTarget::Serial { path, baud } => "串口 "@ + path@ + "（"@ + text::dec(baud as nat)
            + " baud）"@,
    }
}

/// Whether the resolver is taken over, in words.
pub open spec fn dns_text(set_dns: bool) -> Seq<char> {
    if set_dns {
        "接管"@
    } else {
        "不修改"@
    }
}

/// Pairs of texts.
pub open spec fn pairs_view(v: Seq<(String, String)>) -> Seq<(Seq<char>, Seq<char>)> {
    v.map_values(|p: (String, String)| (p.0@, p.1@))
}

/// Summary of a guest configuration.
pub open spec fn summary(routes: Routed, set_dns: bool, host: HostTarget) -> Seq<
    (Seq<char>, Seq<char>),
> {
    seq![
        ("路由"@, routes_text(routes)),
        ("系统 DNS"@, dns_text(set_dns)),
        ("宿主机"@, target_text(host)),
    ]
}

/// Human readable summary of the guest configuration.
pub fn guest_summary(cfg: &GuestConfig) -> (r: Vec<(String, String)>)
    ensures
        pairs_view(r@) == summary(cli::routed(cfg.routes), cfg.set_dns, cfg.host),
{
    let routes = match &cfg.routes {
        RouteMode::Full => "全部流量（0.0.0.0/1 + 128.0.0.0/1）".to_owned(),
        RouteMode::Custom(nets) => write_nets(nets),
    };
    let host = match &cfg.host {
        HostTarget::Auto => "自动发现".to_owned(),
        HostTarget::Manual(a) => a.text(),
        HostTarget::Serial { path, baud } => {
            let mut s = text::cat3("串口 ", path.as_str(), "（");
            s.append(text::decimal(*baud as u64).as_str());
            s.append(" baud）");
            s
        },
    };
    let dns = if cfg.set_dns {
        "接管".to_owned()
    } else {
        "不修改".to_owned()
    };
    let mut out: Vec<(String, String)> = Vec::new();
    out.push(("路由".to_owned(), routes));
    out.push(("系统 DNS".to_owned(), dns));
    out.push(("宿主机".to_owned(), host));
    assert(pairs_view(out@) =~= summary(cli::routed(cfg.routes), cfg.set_dns, cfg.host));
    out
}

// State.

/// Which screen is shown.
#[derive(Debug)]
pub enum Screen {
    Onboarding { selected: usize },
    Guest(GuestModel),
    Host(HostModel),
}

/// Which screen is shown, as mathematical values.
pub enum ScreenView {
    Onboarding { selected: usize },
    Guest(GuestModelView),
    Host(HostModelView),
}

impl View for Screen {
    type V = ScreenView;

    open spec fn view(&self) -> ScreenView {
        match *self {
            Screen::Onboarding { selected } => ScreenView::Onboarding { selected },
            Screen::Guest(m) => ScreenView::Guest(m@),
            Screen::Host(m) => ScreenView::Host(m@),
        }
    }
}

/// What happens once the current session has stopped.
#[derive(Clone, Copy, Debug, PartialEq, Eq, Structural)]
pub enum Pending {
    Nothing,
    Quit,
    Switch(Mode),
}

/// Why the TUI loop ended.
#[derive(Clone, Copy, Debug, PartialEq, Eq, Structural)]
pub enum Outcome {
    Quit,
    /// The user chose guest mode but the process is not root: the caller
    /// restores the terminal and re-executes under `sudo`.
    ReexecGuest,
}

/// Where to start.
#[derive(Clone, Copy, Debug, PartialEq, Eq, Structural)]
pub enum Start {
    Onboarding,
    Mode(Mode),
}

/// What follows once the configuration was saved.
#[derive(Clone, Copy, Debug, PartialEq, Eq, Structural)]
pub enum AfterSave {
    /// Start a mode.
    Start(Mode),
    /// Stop the current mode and start another.
    Switch(Mode),
}

/// The running core.
#[derive(Clone, Copy, Debug, PartialEq, Eq, Structural)]
pub struct Running {
    pub shutdown_requested: bool,
}

/// The machine that the program runs on.
#[derive(Clone, Debug)]
pub struct Machine {
    pub os: Os,
    pub is_root: bool,
    pub hostname: Option<String>,
}

/// A moment: milliseconds on the caller's clock, and the wall-clock time.
#[derive(Clone, Debug)]
pub struct Moment {
    pub millis: u64,
    pub clock: String,
}

/// What the caller does next.
#[derive(Debug)]
pub enum Work {
    Nothing,
    /// Save the configuration, then report with [`App::saved`].
    Save,
    /// Start the host core.
    StartHost(HostConfig),
    /// Start the guest core.
    StartGuest(GuestConfig),
    /// Ask the running core to stop.
    RequestShutdown,
}

/// What the caller does next, without the configurations.
pub enum WorkKind {
    Nothing,
    Save,
    StartHost,
    StartGuest,
    RequestShutdown,
}

/// A key.
#[derive(Clone, Copy, Debug, PartialEq, Eq, Structural)]
pub enum KeyCode {
    Up,
    Down,
    PageUp,
    PageDown,
    Home,
    End,
    Enter,
    Esc,
    Char(char),
    Other,
}

/// A key event of the terminal.
#[derive(Clone, Copy, Debug, PartialEq, Eq, Structural)]
pub struct KeyEvent {
    pub code: KeyCode,
    pub ctrl: bool,
    /// The key went down (and not up, nor is it repeated).
    pub press: bool,
}

/// State of the TUI.
#[derive(Debug)]
pub struct App {
    pub screen: Screen,
    pub log: LogBuffer,
    pub log_focus: bool,
    pub show_help: bool,
    pub pending: Pending,
    pub notice: Option<String>,
    pub ticks: u64,
    pub dirty: bool,
    pub config: Config,
    pub config_path: String,
    pub log_path: Option<String>,
    pub session: Option<Running>,
    pub host_args: HostArgs,
    pub guest_args: GuestArgs,
    /// Summary of the guest configuration for the connection panel.
    pub guest_summary: Vec<(String, String)>,
    /// Errors returned by the cores, printed after the terminal is restored.
    pub run_errors: Vec<String>,
    pub machine: Machine,
    pub after_save: Option<AfterSave>,
    pub outcome: Option<Outcome>,
    /// When the running core was asked to stop, in milliseconds.
    pub shutdown_started: Option<u64>,
}

/// State of the TUI as mathematical values.
pub struct AppView {
    pub screen: ScreenView,
    pub log: LogView,
    pub log_focus: bool,
    pub show_help: bool,
    pub pending: Pending,
    pub notice: Option<Seq<char>>,
    pub ticks: u64,
    pub dirty: bool,
    pub config: Config,
    pub config_path: Seq<char>,
    pub log_path: Option<Seq<char>>,
    pub session: Option<Running>,
    pub host_args: HostArgs,
    pub guest_args: GuestArgs,
    pub guest_summary: Seq<(Seq<char>, Seq<char>)>,
    pub run_errors: Seq<Seq<char>>,
    pub machine: Machine,
    pub after_save: Option<AfterSave>,
    pub outcome: Option<Outcome>,
    pub shutdown_started: Option<u64>,
}

impl View for App {
    type V = AppView;

    open spec fn view(&self) -> AppView {
        AppView {
            screen: self.screen@,
            log: self.log@,
            log_focus: self.log_focus,
            show_help: self.show_help,
            pending: self.pending,
            notice: platform::opt_view(self.notice),
            ticks: self.ticks,
            dirty: self.dirty,
            config: self.config,
            config_path: self.config_path@,
            log_path: platform::opt_view(self.log_path),
            session: self.session,
            host_args: self.host_args,
            guest_args: self.guest_args,
            guest_summary: pairs_view(self.guest_summary@),
            run_errors: platform::strings_view(self.run_errors@),
            machine: self.machine,
            after_save: self.after_save,
            outcome: self.outcome,
            shutdown_started: self.shutdown_started,
        }
    }
}

/// The `i`th frame of the spinner (Braille, not emoji).
pub open spec fn spinner_frame(i: nat) -> Seq<char> {
    if i == 0 {
        "⠋"@
    } else if i == 1 {
        "⠙"@
    } else if i == 2 {
        "⠹"@
    } else if i == 3 {
        "⠸"@
    } else if i == 4 {
        "⠼"@
    } else if i == 5 {
        "⠴"@
    } else if i == 6 {
        "⠦"@
    } else if i == 7 {
        "⠧"@
    } else if i == 8 {
        "⠇"@
    } else {
        "⠏"@
    }
}

// Transitions.

impl AppView {
    /// The role of the screen.
    pub open spec fn mode(self) -> Option<Mode> {
        match self.screen {
            ScreenView::Onboarding { .. } => None,
            ScreenView::Guest(_) => Some(Mode::Guest),
            ScreenView::Host(_) => Some(Mode::Host),
        }
    }

    /// The guest would lack privileges.
    pub open spec fn needs_elevation(self) -> bool {
        !self.machine.is_root
    }

    /// One more line in the log.
    pub open spec fn logged(self, level: Level, msg: Seq<char>, clock: Seq<char>) -> AppView {
        AppView { log: self.log.pushed(LineView { time: clock, level, msg }), ..self }
    }

    /// A mode was started.
    pub open spec fn mode_started(self, mode: Mode, clock: Seq<char>) -> (AppView, WorkKind) {
        let base = AppView { dirty: true, ..self };
        match mode {
            Mode::Host => (
                AppView {
                    screen: ScreenView::Host(
                        HostModelView::fresh(host::host_name_text(self.machine.hostname)),
                    ),
                    session: Some(Running { shutdown_requested: false }),
                    ..base
                }.logged(
                    Level::Info,
                    "启动宿主机模式，端口 "@ + text::dec(
                        cli::host_port(self.host_args, self.config.host) as nat,
                    ),
                    clock,
                ),
                WorkKind::StartHost,
            ),
            Mode::Guest => if self.needs_elevation() {
                (AppView { outcome: Some(Outcome::ReexecGuest), ..base }, WorkKind::Nothing)
            } else {
                match cli::chosen_routes(self.guest_args.routes@, self.config.guest.routes@) {
                    Err(route) => {
                        let e = cli::RouteError { route };
                        (
                            AppView {
                                screen: ScreenView::Guest(
                                    GuestModelView {
                                        fatal: Some(e.spec_text()),
                                        ..GuestModelView::fresh()
                                    },
                                ),
                                ..base
                            }.logged(
                                Level::Error,
                                "客机配置无效："@ + (e.spec_text() + ": invalid IP address syntax"@),
                                clock,
                            ),
                            WorkKind::Nothing,
                        )
                    },
                    Ok(routes) => (
                        AppView {
                            guest_summary: summary(
                                routes,
                                cli::dns_choice(
                                    self.guest_args.no_dns,
                                    self.config.guest.set_dns,
                                    routes,
                                ),
                                cli::host_target(self.guest_args@, self.config.guest),
                            ),
                            screen: ScreenView::Guest(GuestModelView::fresh()),
                            session: Some(Running { shutdown_requested: false }),
                            ..base
                        }.logged(Level::Info, "启动客机模式"@, clock),
                        WorkKind::StartGuest,
                    ),
                }
            },
        }
    }

    /// The first screen was entered.
    pub open spec fn started(self, start: Start, clock: Seq<char>) -> (AppView, WorkKind) {
        match start {
            Start::Onboarding => (
                AppView {
                    screen: ScreenView::Onboarding {
                        selected: if self.config.default_mode == Some(Mode::Guest) {
                            1
                        } else {
                            0
                        },
                    },
                    ..self
                },
                WorkKind::Nothing,
            ),
            Start::Mode(mode) => self.mode_started(mode, clock),
        }
    }

    /// An error is shown on the screen of the mode.
    pub open spec fn failed(self, error: Seq<char>) -> AppView {
        AppView {
            run_errors: self.run_errors.push(error),
            screen: match self.screen {
                ScreenView::Guest(m) => ScreenView::Guest(
                    GuestModelView { fatal: Some(error), ..m },
                ),
                ScreenView::Host(m) => ScreenView::Host(HostModelView { fatal: Some(error), ..m }),
                s => s,
            },
            ..self
        }
    }

    /// The core has returned, with or without an error.
    pub open spec fn finished(self, error: Option<Seq<char>>, clock: Seq<char>) -> (
        AppView,
        WorkKind,
    ) {
        let base = AppView { session: None, shutdown_started: None, dirty: true, ..self };
        let told = match error {
            Some(e) => base.logged(Level::Error, "运行出错："@ + e, clock).failed(e),
            None => base.logged(Level::Info, "已停止"@, clock),
        };
        let free = AppView { pending: Pending::Nothing, ..told };
        match self.pending {
            Pending::Quit => (AppView { outcome: Some(Outcome::Quit), ..free }, WorkKind::Nothing),
            Pending::Switch(mode) => AppView { notice: None, ..free }.mode_started(mode, clock),
            Pending::Nothing => (
                AppView { notice: Some("核心已停止，按 m 切换模式或 q 退出"@), ..free },
                WorkKind::Nothing,
            ),
        }
    }

    /// The running core is being stopped.
    pub open spec fn stopping(
        self,
        pending: Pending,
        notice: Seq<char>,
        millis: u64,
        clock: Seq<char>,
    ) -> (AppView, WorkKind) {
        let base = AppView { pending, dirty: true, ..self };
        match self.session {
            Some(s) => if s.shutdown_requested {
                (AppView { notice: Some(notice), ..base }, WorkKind::Nothing)
            } else {
                (
                    AppView {
                        notice: Some(notice),
                        session: Some(Running { shutdown_requested: true }),
                        shutdown_started: Some(millis),
                        ..base
                    },
                    WorkKind::RequestShutdown,
                )
            },
            None => base.finished(None, clock),
        }
    }

    /// The user wants to quit.
    pub open spec fn quit_requested(self, why: Seq<char>, millis: u64, clock: Seq<char>) -> (
        AppView,
        WorkKind,
    ) {
        if self.pending == Pending::Quit {
            (self, WorkKind::Nothing)
        } else {
            self.logged(
                Level::Info,
                "收到退出请求（"@ + why + "），正在清理…"@,
                clock,
            ).stopping(Pending::Quit, "正在清理并退出…"@, millis, clock)
        }
    }

    /// A mode becomes the default.
    pub open spec fn saving(self, mode: Mode, after: AfterSave) -> (AppView, WorkKind) {
        (
            AppView {
                config: Config { default_mode: Some(mode), ..self.config },
                after_save: Some(after),
                ..self
            },
            WorkKind::Save,
        )
    }

    /// The user wants the other mode.
    pub open spec fn switch_requested(self) -> (AppView, WorkKind) {
        match self.mode() {
            Some(cur) => if self.pending == Pending::Nothing {
                self.saving(cur.spec_other(), AfterSave::Switch(cur.spec_other()))
            } else {
                (self, WorkKind::Nothing)
            },
            None => (self, WorkKind::Nothing),
        }
    }

    /// What the log says of saving a default mode.
    pub open spec fn save_logged(
        self,
        mode: Mode,
        error: Option<Seq<char>>,
        clock: Seq<char>,
    ) -> AppView {
        match error {
            Some(e) => self.logged(
                Level::Error,
                "保存配置失败（"@ + self.config_path + "）："@ + e,
                clock,
            ),
            None => self.logged(
                Level::Info,
                "已保存默认模式："@ + mode.spec_label() + "（"@ + self.config_path + "）"@,
                clock,
            ),
        }
    }

    /// The configuration was saved, or could not be.
    pub open spec fn after_saving(
        self,
        error: Option<Seq<char>>,
        millis: u64,
        clock: Seq<char>,
    ) -> (AppView, WorkKind) {
        let base = AppView { after_save: None, ..self };
        match self.after_save {
            Some(AfterSave::Start(mode)) => base.save_logged(mode, error, clock).mode_started(
                mode,
                clock,
            ),
            Some(AfterSave::Switch(mode)) => base.save_logged(mode, error, clock).logged(
                Level::Info,
                "切换到"@ + mode.spec_label() + "模式…"@,
                clock,
            ).stopping(Pending::Switch(mode), "正在停止当前模式…"@, millis, clock),
            None => (base, WorkKind::Nothing),
        }
    }

    /// The core did not stop in time.
    pub open spec fn overdue(self, millis: u64) -> bool {
        self.shutdown_started matches Some(t) && millis - t > WATCHDOG_MS
    }

    /// A tick of the clock.
    pub open spec fn ticked(self, millis: u64, clock: Seq<char>) -> (AppView, WorkKind) {
        let base = AppView { ticks: (self.ticks + 1) as u64, dirty: true, ..self };
        if self.overdue(millis) {
            AppView { session: None, ..base.logged(
                Level::Error,
                "核心未能在限定时间内停止，强制退出"@,
                clock,
            ) }.finished(None, clock)
        } else {
            (base, WorkKind::Nothing)
        }
    }

    /// The event can be counted.
    pub open spec fn fits(self, ev: Event) -> bool {
        match (self.screen, ev) {
            (ScreenView::Host(m), Event::Host(h)) => m.fits(h),
            _ => true,
        }
    }

    /// An event of the core.
    pub open spec fn told(self, ev: Event, clock: Seq<char>) -> AppView {
        let base = match report::event_line(ev) {
            Some((level, msg)) => self.logged(level, msg, clock),
            None => self,
        };
        AppView {
            screen: match (self.screen, ev) {
                (ScreenView::Host(m), Event::Host(h)) => ScreenView::Host(m.applied(h)),
                (ScreenView::Guest(m), Event::Guest(g)) => ScreenView::Guest(m.applied(g)),
                (s, _) => s,
            },
            dirty: true,
            ..base
        }
    }

    /// A key while the log is scrolled.
    pub open spec fn log_key(self, code: KeyCode, millis: u64, clock: Seq<char>) -> (
        AppView,
        WorkKind,
    ) {
        match code {
            KeyCode::Up => (AppView { log: self.log.scrolled(1), ..self }, WorkKind::Nothing),
            KeyCode::Char('k') => (AppView { log: self.log.scrolled(1), ..self }, WorkKind::Nothing),
            KeyCode::Down => (AppView { log: self.log.scrolled(-1), ..self }, WorkKind::Nothing),
            KeyCode::Char('j') => (
                AppView { log: self.log.scrolled(-1), ..self },
                WorkKind::Nothing,
            ),
            KeyCode::PageUp => (AppView { log: self.log.scrolled(10), ..self }, WorkKind::Nothing),
            KeyCode::PageDown => (
                AppView { log: self.log.scrolled(-10), ..self },
                WorkKind::Nothing,
            ),
            KeyCode::Home => (
                AppView { log: self.log.scrolled(1_000_000), ..self },
                WorkKind::Nothing,
            ),
            KeyCode::End => (AppView { log: self.log.followed(), ..self }, WorkKind::Nothing),
            KeyCode::Esc => (
                AppView { log: self.log.followed(), log_focus: false, ..self },
                WorkKind::Nothing,
            ),
            KeyCode::Char('l') => (
                AppView { log: self.log.followed(), log_focus: false, ..self },
                WorkKind::Nothing,
            ),
            KeyCode::Char('q') => self.quit_requested("按键 q"@, millis, clock),
            KeyCode::Char('?') => (AppView { show_help: true, ..self }, WorkKind::Nothing),
            _ => (self, WorkKind::Nothing),
        }
    }

    /// A key on the first screen.
    pub open spec fn onboarding_key(self, selected: usize, code: KeyCode) -> (AppView, WorkKind) {
        match code {
            KeyCode::Up => (
                AppView { screen: ScreenView::Onboarding { selected: 0 }, ..self },
                WorkKind::Nothing,
            ),
            KeyCode::Char('k') => (
                AppView { screen: ScreenView::Onboarding { selected: 0 }, ..self },
                WorkKind::Nothing,
            ),
            KeyCode::Down => (
                AppView { screen: ScreenView::Onboarding { selected: 1 }, ..self },
                WorkKind::Nothing,
            ),
            KeyCode::Char('j') => (
                AppView { screen: ScreenView::Onboarding { selected: 1 }, ..self },
                WorkKind::Nothing,
            ),
            KeyCode::Enter => {
                let mode = if selected == 0 {
                    Mode::Host
                } else {
                    Mode::Guest
                };
                self.saving(mode, AfterSave::Start(mode))
            },
            KeyCode::Char('q') => (
                AppView { outcome: Some(Outcome::Quit), ..self },
                WorkKind::Nothing,
            ),
            KeyCode::Esc => (AppView { outcome: Some(Outcome::Quit), ..self }, WorkKind::Nothing),
            KeyCode::Char('?') => (AppView { show_help: true, ..self }, WorkKind::Nothing),
            _ => (self, WorkKind::Nothing),
        }
    }

    /// A key on the screen of a mode.
    pub open spec fn mode_key(self, code: KeyCode, millis: u64, clock: Seq<char>) -> (
        AppView,
        WorkKind,
    ) {
        match code {
            KeyCode::Char('q') => self.quit_requested("按键 q"@, millis, clock),
            KeyCode::Char('m') => self.switch_requested(),
            KeyCode::Char('l') => (AppView { log_focus: true, ..self }, WorkKind::Nothing),
            KeyCode::Char('?') => (AppView { show_help: true, ..self }, WorkKind::Nothing),
            _ => (self, WorkKind::Nothing),
        }
    }

    /// A key.
    pub open spec fn keyed(self, key: KeyEvent, millis: u64, clock: Seq<char>) -> (
        AppView,
        WorkKind,
    ) {
        let base = AppView { dirty: true, ..self };
        if !key.press {
            (self, WorkKind::Nothing)
        } else if key.ctrl && (key.code == KeyCode::Char('c') || key.code == KeyCode::Char('C')) {
            base.quit_requested("Ctrl-C"@, millis, clock)
        } else if self.show_help {
            if key.code == KeyCode::Char('q') {
                base.quit_requested("按键 q"@, millis, clock)
            } else {
                (AppView { show_help: false, ..base }, WorkKind::Nothing)
            }
        } else if self.log_focus {
            base.log_key(key.code, millis, clock)
        } else {
            match self.screen {
                ScreenView::Onboarding { selected } => base.onboarding_key(selected, key.code),
                _ => base.mode_key(key.code, millis, clock),
            }
        }
    }
}

impl Work {
    /// What the caller does next, without the configurations.
    pub open spec fn kind(&self) -> WorkKind {
        match *self {
            Work::Nothing => WorkKind::Nothing,
            Work::Save => WorkKind::Save,
            Work::StartHost(_) => WorkKind::StartHost,
            Work::StartGuest(_) => WorkKind::StartGuest,
            Work::RequestShutdown => WorkKind::RequestShutdown,
        }
    }

    /// Configurations come from the arguments and the saved settings.
    pub open spec fn fits(&self, app: AppView) -> bool {
        match *self {
            Work::StartHost(cfg) => cli::is_host_config(
                cfg,
                app.host_args,
                app.config.host,
                app.machine.hostname,
            ),
            Work::StartGuest(cfg) => cli::is_guest_config(
                cfg,
                app.guest_args,
                app.config.guest,
                app.machine.hostname,
            ),
            _ => true,
        }
    }

    /// The work that goes with a transition.
    pub open spec fn of(&self, t: (AppView, WorkKind)) -> bool {
        self.kind() == t.1 && self.fits(t.0)
    }
}

impl App {
    /// The log is bounded, the selection exists, and flows are known by their
    /// own ids.
    pub open spec fn wf(&self) -> bool {
        &&& self.log.wf()
        &&& self.screen matches Screen::Onboarding { selected } ==> selected <= 1
        &&& self.screen matches Screen::Host(m) ==> m@.flows.wf()
    }

    /// Nothing was shown yet.
    pub fn new(
        config: Config,
        config_path: String,
        log_path: Option<String>,
        host_args: HostArgs,
        guest_args: GuestArgs,
        machine: Machine,
    ) -> (r: Self)
        ensures
            r@ == (AppView {
                screen: ScreenView::Onboarding { selected: 0 },
                log: LogView::empty(),
                log_focus: false,
                show_help: false,
                pending: Pending::Nothing,
                notice: None,
                ticks: 0,
                dirty: true,
                config,
                config_path: config_path@,
                log_path: platform::opt_view(log_path),
                session: None,
                host_args,
                guest_args,
                guest_summary: Seq::empty(),
                run_errors: Seq::empty(),
                machine,
                after_save: None,
                outcome: None,
                shutdown_started: None,
            }),
            r.wf(),
    {
        let r = App {
            screen: Screen::Onboarding { selected: 0 },
            log: LogBuffer::default(),
            log_focus: false,
            show_help: false,
            pending: Pending::Nothing,
            notice: None,
            ticks: 0,
            dirty: true,
            config,
            config_path,
            log_path,
            session: None,
            host_args,
            guest_args,
            guest_summary: Vec::new(),
            run_errors: Vec::new(),
            machine,
            after_save: None,
            outcome: None,
            shutdown_started: None,
        };
        assert(r@.guest_summary =~= Seq::<(Seq<char>, Seq<char>)>::empty());
        assert(r@.run_errors =~= Seq::<Seq<char>>::empty());
        r
    }

    /// Enter the initial screen.
    pub fn start(&mut self, start: Start, at: &Moment) -> (r: Work)
        requires
            old(self).wf(),
        ensures
            final(self).wf(),
            final(self)@ == old(self)@.started(start, at.clock@).0,
            r.of(old(self)@.started(start, at.clock@)),
    {
        match start {
            Start::Onboarding => {
                let selected: usize = match self.config.default_mode {
                    Some(Mode::Guest) => 1,
                    _ => 0,
                };
                self.screen = Screen::Onboarding { selected };
                Work::Nothing
            },
            Start::Mode(mode) => self.start_mode(mode, at),
        }
    }

    /// Why the loop ends, if it does.
    pub fn take_outcome(&mut self) -> (r: Option<Outcome>)
        requires
            old(self).wf(),
        ensures
            final(self).wf(),
            r == old(self).outcome,
            final(self)@ == (AppView { outcome: None, ..old(self)@ }),
    {
        let o = self.outcome;
        self.outcome = None;
        o
    }

    /// The role of the screen.
    pub fn current_mode(&self) -> (r: Option<Mode>)
        ensures
            r == self@.mode(),
    {
        match &self.screen {
            Screen::Onboarding { .. } => None,
            Screen::Guest(_) => Some(Mode::Guest),
            Screen::Host(_) => Some(Mode::Host),
        }
    }

    /// The frame of the spinner to show.
    pub fn spinner(&self) -> (r: &'static str)
        ensures
            r@ == spinner_frame(self.ticks as nat % 10),
    {
        let i: u64 = self.ticks % 10;
        if i == 0 {
            "⠋"
        } else if i == 1 {
            "⠙"
        } else if i == 2 {
            "⠹"
        } else if i == 3 {
            "⠸"
        } else if i == 4 {
            "⠼"
        } else if i == 5 {
            "⠴"
        } else if i == 6 {
            "⠦"
        } else if i == 7 {
            "⠧"
        } else if i == 8 {
            "⠇"
        } else {
            "⠏"
        }
    }

    /// Whether the current mode is being stopped.
    pub fn is_quitting(&self) -> (r: bool)
        ensures
            r == (self.pending != Pending::Nothing),
    {
        self.pending != Pending::Nothing
    }

    fn note(&mut self, level: Level, msg: String, at: &Moment)
        requires
            old(self).wf(),
        ensures
            final(self).wf(),
            final(self)@ == old(self)@.logged(level, msg@, at.clock@),
    {
        self.log.push(at.clock.clone(), level, msg);
    }

    /// Switch to the screen of `mode`; the caller starts its core.
    pub fn start_mode(&mut self, mode: Mode, at: &Moment) -> (r: Work)
        requires
            old(self).wf(),
        ensures
            final(self).wf(),
            final(self)@ == old(self)@.mode_started(mode, at.clock@).0,
            r.of(old(self)@.mode_started(mode, at.clock@)),
    {
        self.dirty = true;
        match mode {
            Mode::Host => {
                let cfg = build_host_config(&self.host_args, &self.config.host, self.hostname());
                self.screen = Screen::Host(HostModel::new(cfg.host_name.clone()));
                self.session = Some(Running { shutdown_requested: false });
                let port: u16 = cfg.effective_bind_addr().port();
                self.note(
                    Level::Info,
                    text::cat2("启动宿主机模式，端口 ", text::decimal(port as u64).as_str()),
                    at,
                );
                Work::StartHost(cfg)
            },
            Mode::Guest => {
                if guest_needs_elevation(self.machine.os, self.machine.is_root) {
                    self.outcome = Some(Outcome::ReexecGuest);
                    return Work::Nothing;
                }
                let cfg = match build_guest_config(
                    &self.guest_args,
                    &self.config,
                    self.hostname(),
                ) {
                    Ok(c) => c,
                    Err(e) => {
                        let mut m = GuestModel::default();
                        m.fatal = Some(e.text());
                        self.screen = Screen::Guest(m);
                        self.note(
                            Level::Error,
                            text::cat2("客机配置无效：", e.chain().as_str()),
                            at,
                        );
                        return Work::Nothing;
                    },
                };
                self.guest_summary = guest_summary(&cfg);
                self.screen = Screen::Guest(GuestModel::default());
                self.session = Some(Running { shutdown_requested: false });
                self.note(Level::Info, "启动客机模式".to_owned(), at);
                Work::StartGuest(cfg)
            },
        }
    }

    fn hostname(&self) -> (r: Option<String>)
        ensures
            r == self.machine.hostname,
    {
        match &self.machine.hostname {
            Some(h) => Some(h.clone()),
            None => None,
        }
    }

    /// Handle a core event.
    pub fn on_event(&mut self, ev: &Event, at: &Moment)
        requires
            old(self).wf(),
            old(self)@.fits(*ev),
        ensures
            final(self).wf(),
            final(self)@ == old(self)@.told(*ev, at.clock@),
    {
        if let Some((level, msg)) = describe(ev) {
            self.note(level, msg, at);
        }
        match (&mut self.screen, ev) {
            (Screen::Host(m), Event::Host(h)) => {
                let _ = m.apply(h);
            },
            (Screen::Guest(m), Event::Guest(g)) => {
                let _ = m.apply(g);
            },
            _ => {},
        }
        self.dirty = true;
    }

    /// The core task returned.
    pub fn on_finished(&mut self, res: Result<(), String>, at: &Moment) -> (r: Work)
        requires
            old(self).wf(),
        ensures
            final(self).wf(),
            final(self)@ == old(self)@.finished(error_view(res), at.clock@).0,
            r.of(old(self)@.finished(error_view(res), at.clock@)),
    {
        self.session = None;
        self.shutdown_started = None;
        self.dirty = true;
        match res {
            Err(e) => {
                self.note(Level::Error, text::cat2("运行出错：", e.as_str()), at);
                let ghost before = self.run_errors@;
                self.run_errors.push(e.clone());
                proof {
                    assert(platform::strings_view(self.run_errors@) =~= platform::strings_view(
                        before,
                    ).push(e@));
                }
                match &mut self.screen {
                    Screen::Guest(m) => {
                        m.fatal = Some(e);
                    },
                    Screen::Host(m) => {
                        m.fatal = Some(e);
                    },
                    Screen::Onboarding { .. } => {},
                }
            },
            Ok(_) => {
                self.note(Level::Info, "已停止".to_owned(), at);
            },
        }
        let pending = self.pending;
        self.pending = Pending::Nothing;
        match pending {
            Pending::Quit => {
                self.outcome = Some(Outcome::Quit);
                Work::Nothing
            },
            Pending::Switch(mode) => {
                self.notice = None;
                self.start_mode(mode, at)
            },
            Pending::Nothing => {
                self.notice = Some("核心已停止，按 m 切换模式或 q 退出".to_owned());
                Work::Nothing
            },
        }
    }

    /// 100 ms tick: spinner, durations, shutdown watchdog.
    pub fn on_tick(&mut self, at: &Moment) -> (r: Work)
        requires
            old(self).wf(),
            old(self).ticks < u64::MAX,
        ensures
            final(self).wf(),
            final(self)@ == old(self)@.ticked(at.millis, at.clock@).0,
            r.of(old(self)@.ticked(at.millis, at.clock@)),
    {
        self.ticks = self.ticks + 1;
        self.dirty = true;
        if let Some(started) = self.shutdown_started {
            if at.millis >= started && at.millis - started > WATCHDOG_MS {
                self.note(
                    Level::Error,
                    "核心未能在限定时间内停止，强制退出".to_owned(),
                    at,
                );
                self.session = None;
                return self.on_finished(Ok(()), at);
            }
        }
        Work::Nothing
    }

    /// Begin shutting down the running core; `pending` decides what follows.
    fn stop_session(&mut self, pending: Pending, notice: &str, at: &Moment) -> (r: Work)
        requires
            old(self).wf(),
        ensures
            final(self).wf(),
            final(self)@ == old(self)@.stopping(pending, notice@, at.millis, at.clock@).0,
            r.of(old(self)@.stopping(pending, notice@, at.millis, at.clock@)),
    {
        self.pending = pending;
        self.dirty = true;
        match self.session {
            Some(s) => {
                self.notice = Some(notice.to_owned());
                if s.shutdown_requested {
                    return Work::Nothing;
                }
                self.session = Some(Running { shutdown_requested: true });
                self.shutdown_started = Some(at.millis);
                Work::RequestShutdown
            },
            None => self.on_finished(Ok(()), at),
        }
    }

    /// Graceful quit (key, Ctrl-C or signal).
    pub fn request_quit(&mut self, why: &str, at: &Moment) -> (r: Work)
        requires
            old(self).wf(),
        ensures
            final(self).wf(),
            final(self)@ == old(self)@.quit_requested(why@, at.millis, at.clock@).0,
            r.of(old(self)@.quit_requested(why@, at.millis, at.clock@)),
    {
        if self.pending == Pending::Quit {
            return Work::Nothing;
        }
        self.note(Level::Info, text::cat3("收到退出请求（", why, "），正在清理…"), at);
        self.stop_session(Pending::Quit, "正在清理并退出…", at)
    }

    /// `m`: stop the current mode, persist the other one as default and
    /// start it.
    fn request_switch(&mut self) -> (r: Work)
        requires
            old(self).wf(),
        ensures
            final(self).wf(),
            final(self)@ == old(self)@.switch_requested().0,
            r.of(old(self)@.switch_requested()),
    {
        match self.current_mode() {
            Some(cur) => {
                if self.pending != Pending::Nothing {
                    return Work::Nothing;
                }
                let next = cur.other();
                self.save_default(next, AfterSave::Switch(next))
            },
            None => Work::Nothing,
        }
    }

    fn save_default(&mut self, mode: Mode, after: AfterSave) -> (r: Work)
        requires
            old(self).wf(),
        ensures
            final(self).wf(),
            final(self)@ == old(self)@.saving(mode, after).0,
            r.of(old(self)@.saving(mode, after)),
    {
        self.config.default_mode = Some(mode);
        self.after_save = Some(after);
        Work::Save
    }

    fn note_saved(&mut self, mode: Mode, res: Result<(), String>, at: &Moment)
        requires
            old(self).wf(),
        ensures
            final(self).wf(),
            final(self)@ == old(self)@.save_logged(mode, error_view(res), at.clock@),
    {
        match res {
            Err(e) => {
                let mut s = text::cat3("保存配置失败（", self.config_path.as_str(), "）：");
                s.append(e.as_str());
                self.note(Level::Error, s, at);
            },
            Ok(_) => {
                let mut s = text::cat3("已保存默认模式：", mode.label(), "（");
                s.append(self.config_path.as_str());
                s.append("）");
                self.note(Level::Info, s, at);
            },
        }
    }

    /// The configuration was saved, or could not be.
    pub fn saved(&mut self, res: Result<(), String>, at: &Moment) -> (r: Work)
        requires
            old(self).wf(),
        ensures
            final(self).wf(),
            final(self)@ == old(self)@.after_saving(error_view(res), at.millis, at.clock@).0,
            r.of(old(self)@.after_saving(error_view(res), at.millis, at.clock@)),
    {
        let after = self.after_save;
        self.after_save = None;
        match after {
            Some(AfterSave::Start(mode)) => {
                self.note_saved(mode, res, at);
                self.start_mode(mode, at)
            },
            Some(AfterSave::Switch(mode)) => {
                self.note_saved(mode, res, at);
                self.note(Level::Info, text::cat3("切换到", mode.label(), "模式…"), at);
                self.stop_session(Pending::Switch(mode), "正在停止当前模式…", at)
            },
            None => Work::Nothing,
        }
    }

    /// Key event from the terminal.
    pub fn on_key(&mut self, key: KeyEvent, at: &Moment) -> (r: Work)
        requires
            old(self).wf(),
        ensures
            final(self).wf(),
            final(self)@ == old(self)@.keyed(key, at.millis, at.clock@).0,
            r.of(old(self)@.keyed(key, at.millis, at.clock@)),
    {
        if !key.press {
            return Work::Nothing;
        }
        self.dirty = true;
        if key.ctrl && (key.code == KeyCode::Char('c') || key.code == KeyCode::Char('C')) {
            return self.request_quit("Ctrl-C", at);
        }
        if self.show_help {
            if key.code == KeyCode::Char('q') {
                return self.request_quit("按键 q", at);
            }
            self.show_help = false;
            return Work::Nothing;
        }
        if self.log_focus {
            return self.on_log_key(key.code, at);
        }
        match &self.screen {
            Screen::Onboarding { selected } => self.on_onboarding_key(*selected, key.code),
            _ => self.on_mode_key(key.code, at),
        }
    }

    fn on_log_key(&mut self, code: KeyCode, at: &Moment) -> (r: Work)
        requires
            old(self).wf(),
        ensures
            final(self).wf(),
            final(self)@ == old(self)@.log_key(code, at.millis, at.clock@).0,
            r.of(old(self)@.log_key(code, at.millis, at.clock@)),
    {
        proof {
            self.log.bounded();
        }
        match code {
            KeyCode::Up => self.log.scroll(1),
            KeyCode::Char('k') => self.log.scroll(1),
            KeyCode::Down => self.log.scroll(-1),
            KeyCode::Char('j') => self.log.scroll(-1),
            KeyCode::PageUp => self.log.scroll(10),
            KeyCode::PageDown => self.log.scroll(-10),
            KeyCode::Home => self.log.scroll(1_000_000),
            KeyCode::End => self.log.follow(),
            KeyCode::Esc => {
                self.log_focus = false;
                self.log.follow();
            },
            KeyCode::Char('l') => {
                self.log_focus = false;
                self.log.follow();
            },
            KeyCode::Char('q') => {
                return self.request_quit("按键 q", at);
            },
            KeyCode::Char('?') => {
                self.show_help = true;
            },
            _ => {},
        }
        Work::Nothing
    }

    fn on_onboarding_key(&mut self, selected: usize, code: KeyCode) -> (r: Work)
        requires
            old(self).wf(),
            selected <= 1,
            old(self).screen == (Screen::Onboarding { selected }),
        ensures
            final(self).wf(),
            final(self)@ == old(self)@.onboarding_key(selected, code).0,
            r.of(old(self)@.onboarding_key(selected, code)),
    {
        match code {
            KeyCode::Up => {
                self.screen = Screen::Onboarding { selected: 0 };
            },
            KeyCode::Char('k') => {
                self.screen = Screen::Onboarding { selected: 0 };
            },
            KeyCode::Down => {
                self.screen = Screen::Onboarding { selected: 1 };
            },
            KeyCode::Char('j') => {
                self.screen = Screen::Onboarding { selected: 1 };
            },
            KeyCode::Enter => {
                let mode = if selected == 0 {
                    Mode::Host
                } else {
                    Mode::Guest
                };
                return self.save_default(mode, AfterSave::Start(mode));
            },
            KeyCode::Char('q') => {
                self.outcome = Some(Outcome::Quit);
            },
            KeyCode::Esc => {
                self.outcome = Some(Outcome::Quit);
            },
            KeyCode::Char('?') => {
                self.show_help = true;
            },
            _ => {},
        }
        Work::Nothing
    }

    fn on_mode_key(&mut self, code: KeyCode, at: &Moment) -> (r: Work)
        requires
            old(self).wf(),
        ensures
            final(self).wf(),
            final(self)@ == old(self)@.mode_key(code, at.millis, at.clock@).0,
            r.of(old(self)@.mode_key(code, at.millis, at.clock@)),
    {
        match code {
            KeyCode::Char('q') => {
                return self.request_quit("按键 q", at);
            },
            KeyCode::Char('m') => {
                return self.request_switch();
            },
            KeyCode::Char('l') => {
                self.log_focus = true;
            },
            KeyCode::Char('?') => {
                self.show_help = true;
            },
            _ => {},
        }
        Work::Nothing
    }
}

/// What the terminal sends.
#[derive(Clone, Copy, Debug, PartialEq, Eq, Structural)]
pub enum Input {
    Key(KeyEvent),
    Resize,
    /// Mouse, focus, paste.
    Other,
    /// The input ended or failed.
    Closed,
}

/// What wakes the loop of the TUI up.
#[derive(Debug)]
pub enum Wake {
    Input(Input),
    /// Every 100 ms.
    Tick,
    Core(Event),
    /// The core task returned.
    Finished(Result<(), String>),
    /// A signal that ends the program, by its name.
    Signal(String),
}

impl AppView {
    /// The tick and the event can be counted.
    pub open spec fn counts(self, wake: Wake) -> bool {
        match wake {
            Wake::Tick => self.ticks < u64::MAX,
            Wake::Core(ev) => self.fits(ev),
            _ => true,
        }
    }

    /// What follows when the loop wakes up.
    pub open spec fn woken(self, wake: Wake, millis: u64, clock: Seq<char>) -> (AppView, WorkKind) {
        match wake {
            Wake::Input(Input::Key(key)) => self.keyed(key, millis, clock),
            Wake::Input(Input::Resize) => (AppView { dirty: true, ..self }, WorkKind::Nothing),
            Wake::Input(Input::Other) => (self, WorkKind::Nothing),
            Wake::Input(Input::Closed) => self.quit_requested("终端输入已关闭"@, millis, clock),
            Wake::Tick => self.ticked(millis, clock),
            Wake::Core(ev) => (self.told(ev, clock), WorkKind::Nothing),
            Wake::Finished(res) => self.finished(error_view(res), clock),
            Wake::Signal(name) => self.quit_requested(name@, millis, clock),
        }
    }
}

impl App {
    /// One round of the event loop.
    pub fn wake(&mut self, wake: Wake, at: &Moment) -> (r: Work)
        requires
            old(self).wf(),
            old(self)@.counts(wake),
        ensures
            final(self).wf(),
            final(self)@ == old(self)@.woken(wake, at.millis, at.clock@).0,
            r.of(old(self)@.woken(wake, at.millis, at.clock@)),
    {
        match wake {
            Wake::Input(Input::Key(key)) => self.on_key(key, at),
            Wake::Input(Input::Resize) => {
                self.dirty = true;
                Work::Nothing
            },
            Wake::Input(Input::Other) => Work::Nothing,
            Wake::Input(Input::Closed) => self.request_quit("终端输入已关闭", at),
            Wake::Tick => self.on_tick(at),
            Wake::Core(ev) => {
                self.on_event(&ev, at);
                Work::Nothing
            },
            Wake::Finished(res) => self.on_finished(res, at),
            Wake::Signal(name) => self.request_quit(name.as_str(), at),
        }
    }
}

/// The error of a result.
pub open spec fn error_view(res: Result<(), String>) -> Option<Seq<char>> {
    match res {
        Ok(_) => None,
        Err(e) => Some(e@),
    }
}

// Laws.

/// Quitting waits for the running core: it is asked to stop, once, and the
/// loop ends only when it has finished.
pub proof fn quitting_waits_for_the_core(
    app: AppView,
    why: Seq<char>,
    millis: u64,
    clock: Seq<char>,
    error: Option<Seq<char>>,
    later: Seq<char>,
)
    requires
        app.session is Some,
        app.pending != Pending::Quit,
        app.outcome is None,
    ensures
        ({
            let (asked, work) = app.quit_requested(why, millis, clock);
            &&& work is RequestShutdown <==> !app.session->0.shutdown_requested
            &&& asked.outcome is None
            &&& asked.session == Some(Running { shutdown_requested: true })
            &&& asked.quit_requested(why, millis, clock) == (asked, WorkKind::Nothing)
            &&& asked.finished(error, later).0.outcome == Some(Outcome::Quit)
        }),
{
}

/// Without a running core the loop ends at once.
pub proof fn quitting_without_a_core_is_immediate(
    app: AppView,
    why: Seq<char>,
    millis: u64,
    clock: Seq<char>,
)
    requires
        app.session is None,
        app.pending != Pending::Quit,
    ensures
        app.quit_requested(why, millis, clock).0.outcome == Some(Outcome::Quit),
{
}

/// The guest core is never started without the privileges that it needs;
/// instead the program is executed again.
pub proof fn the_guest_is_not_started_unprivileged(app: AppView, clock: Seq<char>)
    requires
        app.needs_elevation(),
    ensures
        app.mode_started(Mode::Guest, clock).1 is Nothing,
        app.mode_started(Mode::Guest, clock).0.outcome == Some(Outcome::ReexecGuest),
        app.mode_started(Mode::Guest, clock).0.session == app.session,
{
}

/// Switching makes the other mode the default and starts it once the current
/// one has stopped.
pub proof fn switching_goes_to_the_other_mode(
    app: AppView,
    saved: Option<Seq<char>>,
    millis: u64,
    clock: Seq<char>,
    error: Option<Seq<char>>,
    later: Seq<char>,
)
    requires
        app.mode() is Some,
        app.pending == Pending::Nothing,
        app.session == Some(Running { shutdown_requested: false }),
    ensures
        ({
            let other = app.mode()->0.spec_other();
            let (saving, save) = app.switch_requested();
            let (stopping, stop) = saving.after_saving(saved, millis, clock);
            let (over, start) = stopping.finished(error, later);
            &&& save is Save
            &&& saving.config.default_mode == Some(other)
            &&& stop is RequestShutdown
            &&& stopping.pending == Pending::Switch(other)
            &&& over.config.default_mode == Some(other)
            &&& other == Mode::Host ==> start is StartHost
            &&& over.notice is None
        }),
{
}

/// A core runs only on the screen of a mode, and the first screen starts one
/// only from itself.
pub open spec fn sound(app: AppView) -> bool {
    &&& app.mode() is None ==> app.session is None
    &&& app.after_save matches Some(AfterSave::Start(_)) ==> app.mode() is None
}

/// A core starts.
pub open spec fn starts(w: WorkKind) -> bool {
    w is StartHost || w is StartGuest
}

/// There is one core at a time: no key and no saved configuration starts one
/// while another is running.
pub proof fn one_core_at_a_time(
    app: AppView,
    key: KeyEvent,
    error: Option<Seq<char>>,
    millis: u64,
    clock: Seq<char>,
)
    requires
        sound(app),
    ensures
        sound(app.keyed(key, millis, clock).0),
        sound(app.after_saving(error, millis, clock).0),
        starts(app.keyed(key, millis, clock).1) ==> app.session is None,
        starts(app.after_saving(error, millis, clock).1) ==> app.session is None,
{
}

/// Any key but `q` and Ctrl-C only closes the help.
pub proof fn a_key_closes_the_help(app: AppView, key: KeyEvent, millis: u64, clock: Seq<char>)
    requires
        app.show_help,
        key.press,
        key.code != KeyCode::Char('q'),
        !(key.ctrl && (key.code == KeyCode::Char('c') || key.code == KeyCode::Char('C'))),
    ensures
        app.keyed(key, millis, clock) == (
            AppView { show_help: false, dirty: true, ..app },
            WorkKind::Nothing,
        ),
{
}

/// The work that follows is the work that is asked for, with the configuration
/// that was asked for and saved.
pub proof fn the_work_is_what_was_asked(w: Work, app: AppView, kind: WorkKind)
    requires
        w.of((app, kind)),
    ensures
        w is Nothing <==> kind is Nothing,
        w is Save <==> kind is Save,
        w is RequestShutdown <==> kind is RequestShutdown,
        kind is StartHost <==> w is StartHost,
        kind is StartGuest <==> w is StartGuest,
        w matches Work::StartHost(cfg) ==> cli::is_host_config(
            cfg,
            app.host_args,
            app.config.host,
            app.machine.hostname,
        ),
        w matches Work::StartGuest(cfg) ==> cli::is_guest_config(
            cfg,
            app.guest_args,
            app.config.guest,
            app.machine.hostname,
        ),
{
}

/// What the core tells is shown on the screen of its mode and put in the log,
/// and asks for no work.
pub proof fn what_the_core_tells_is_shown(app: AppView, ev: Event, millis: u64, clock: Seq<char>)
    requires
        app.log.lines.len() <= crate::model::LOG_CAPACITY,
    ensures
        ({
            let (n, work) = app.woken(Wake::Core(ev), millis, clock);
            &&& work is Nothing
            &&& (app.screen matches ScreenView::Host(m) && ev matches Event::Host(h)) ==> n.screen
                == ScreenView::Host(app.screen->Host_0.applied(ev->Host_0))
            &&& (app.screen matches ScreenView::Guest(m) && ev matches Event::Guest(g)) ==> n.screen
                == ScreenView::Guest(app.screen->Guest_0.applied(ev->Guest_0))
            &&& (app.screen is Onboarding || (app.screen is Host && ev is Guest) || (
            app.screen is Guest && ev is Host)) ==> n.screen == app.screen
            &&& report::event_line(ev) matches Some((level, msg)) ==> n.log.lines.last()
                == (LineView { time: clock, level, msg })
            &&& report::event_line(ev) is None ==> n.log == app.log
            &&& n.dirty
            &&& n.session == app.session
            &&& n.pending == app.pending
            &&& n.outcome == app.outcome
        }),
{
}

/// A signal, Ctrl-C, a `q` and the end of the terminal's input all quit: with a
/// core that runs it is asked to stop, and without one the program is over.
pub proof fn all_ways_to_quit(
    app: AppView,
    name: String,
    key: KeyEvent,
    millis: u64,
    clock: Seq<char>,
    wake: Wake,
)
    requires
        app.pending != Pending::Quit,
        app.outcome is None,
        key.press,
        (key.ctrl && (key.code == KeyCode::Char('c') || key.code == KeyCode::Char('C'))) || (
        key.code == KeyCode::Char('q') && (app.mode() is Some || app.show_help || app.log_focus)),
        wake == Wake::Signal(name) || wake == Wake::Input(Input::Closed) || wake == Wake::Input(
            Input::Key(key),
        ),
    ensures
        ({
            let (n, work) = app.woken(wake, millis, clock);
            &&& app.session == Some(Running { shutdown_requested: false }) ==> {
                &&& work is RequestShutdown
                &&& n.pending == Pending::Quit
                &&& n.session == Some(Running { shutdown_requested: true })
                &&& n.shutdown_started == Some(millis)
                &&& n.outcome is None
            }
            &&& app.session == Some(Running { shutdown_requested: true }) ==> {
                &&& work is Nothing
                &&& n.pending == Pending::Quit
                &&& n.session == app.session
            }
            &&& app.session is None ==> n.outcome == Some(Outcome::Quit) && work is Nothing
        }),
{
}

/// A key that is released, and any other input, does nothing; a new size draws
/// the screen again.
pub proof fn other_input_does_nothing(app: AppView, key: KeyEvent, millis: u64, clock: Seq<char>)
    ensures
        !key.press ==> app.woken(Wake::Input(Input::Key(key)), millis, clock) == (
            app,
            WorkKind::Nothing,
        ),
        app.woken(Wake::Input(Input::Other), millis, clock) == (app, WorkKind::Nothing),
        app.woken(Wake::Input(Input::Resize), millis, clock) == (
            AppView { dirty: true, ..app },
            WorkKind::Nothing,
        ),
{
}

/// A core that was asked to stop and does not in time is given up: it is over,
/// and what was to follow follows. Before that a tick only counts.
pub proof fn a_core_that_hangs_is_given_up(app: AppView, millis: u64, clock: Seq<char>)
    requires
        app.ticks < u64::MAX,
    ensures
        ({
            let (n, work) = app.woken(Wake::Tick, millis, clock);
            &&& (app.shutdown_started matches Some(t) ==> millis <= t + 11_000) ==> n == (AppView {
                ticks: (app.ticks + 1) as u64,
                dirty: true,
                ..app
            }) && work is Nothing
            &&& (app.shutdown_started matches Some(t) && millis > t + 11_000) ==> {
                &&& n.ticks == app.ticks + 1
                &&& n.shutdown_started is None
                &&& n.pending == Pending::Nothing
                &&& app.pending == Pending::Quit ==> n.outcome == Some(Outcome::Quit)
                    && n.session is None
                &&& app.pending == Pending::Switch(Mode::Host) ==> work is StartHost
            }
        }),
{
}

/// When the core is over, its error is kept and shown, and what was to follow
/// follows: the end, the other mode, or a notice.
pub proof fn the_end_of_a_core_is_shown(
    app: AppView,
    res: Result<(), String>,
    millis: u64,
    clock: Seq<char>,
)
    requires
        app.log.lines.len() <= crate::model::LOG_CAPACITY,
    ensures
        ({
            let (n, work) = app.woken(Wake::Finished(res), millis, clock);
            &&& n.shutdown_started is None
            &&& n.pending == Pending::Nothing
            &&& n.dirty
            &&& res matches Err(e) ==> n.run_errors == app.run_errors.push(e@)
            &&& res is Ok ==> n.run_errors == app.run_errors
            &&& app.pending == Pending::Quit ==> {
                &&& n.outcome == Some(Outcome::Quit)
                &&& n.session is None
                &&& work is Nothing
            }
            &&& app.pending == Pending::Nothing ==> {
                &&& n.session is None
                &&& n.notice is Some
                &&& n.outcome == app.outcome
                &&& work is Nothing
                &&& n.mode() == app.mode()
                &&& n.log.lines.last().level == (if res is Err {
                    Level::Error
                } else {
                    Level::Info
                })
                &&& res matches Err(e) ==> {
                    &&& n.screen matches ScreenView::Guest(m) ==> m.fatal == Some(e@)
                    &&& n.screen matches ScreenView::Host(m) ==> m.fatal == Some(e@)
                }
                &&& res is Ok ==> n.screen == app.screen
            }
            &&& app.pending == Pending::Switch(Mode::Host) ==> work is StartHost && n.mode()
                == Some(Mode::Host)
            &&& app.pending == Pending::Switch(Mode::Guest) && app.machine.is_root
                && cli::chosen_routes(app.guest_args.routes@, app.config.guest.routes@) is Ok
                ==> work is StartGuest && n.mode() == Some(Mode::Guest)
            &&& app.pending == Pending::Switch(Mode::Guest) && !app.machine.is_root ==> n.outcome
                == Some(Outcome::ReexecGuest) && work is Nothing
        }),
{
}

/// A mode that is started shows a fresh screen and runs its core; a guest whose
/// saved routes cannot be read shows why it does not run.
pub proof fn a_mode_is_started(app: AppView, clock: Seq<char>)
    ensures
        ({
            let (n, work) = app.started(Start::Mode(Mode::Host), clock);
            &&& work is StartHost
            &&& n.session == Some(Running { shutdown_requested: false })
            &&& n.screen == ScreenView::Host(
                HostModelView::fresh(host::host_name_text(app.machine.hostname)),
            )
        }),
        app.machine.is_root ==> {
            let (n, work) = app.started(Start::Mode(Mode::Guest), clock);
            &&& cli::chosen_routes(app.guest_args.routes@, app.config.guest.routes@) is Ok ==> {
                &&& work is StartGuest
                &&& n.session == Some(Running { shutdown_requested: false })
                &&& n.screen == ScreenView::Guest(GuestModelView::fresh())
            }
            &&& cli::chosen_routes(app.guest_args.routes@, app.config.guest.routes@) is Err ==> {
                &&& work is Nothing
                &&& n.session == app.session
                &&& n.screen matches ScreenView::Guest(m) && m.fatal is Some
            }
        },
        ({
            let (n, work) = app.started(Start::Onboarding, clock);
            &&& work is Nothing
            &&& n.session == app.session
            &&& n.screen == (ScreenView::Onboarding {
                selected: if app.config.default_mode == Some(Mode::Guest) {
                    1
                } else {
                    0
                },
            })
        }),
{
}

/// The first screen: the arrows choose, Enter saves the choice as the default
/// and then starts it, whether it could be saved or not, and `q` and Esc leave.
pub proof fn the_first_screen_chooses_a_mode(
    app: AppView,
    code: KeyCode,
    selected: usize,
    saved: Option<Seq<char>>,
    millis: u64,
    clock: Seq<char>,
)
    requires
        app.screen == (ScreenView::Onboarding { selected }),
        !app.show_help,
        !app.log_focus,
    ensures
        ({
            let key = KeyEvent { code, ctrl: false, press: true };
            let (n, work) = app.woken(Wake::Input(Input::Key(key)), millis, clock);
            &&& code == KeyCode::Up || code == KeyCode::Char('k') ==> n.screen == (
            ScreenView::Onboarding { selected: 0 })
            &&& code == KeyCode::Down || code == KeyCode::Char('j') ==> n.screen == (
            ScreenView::Onboarding { selected: 1 })
            &&& code == KeyCode::Char('q') || code == KeyCode::Esc ==> n.outcome == Some(
                Outcome::Quit,
            )
            &&& n.outcome != app.outcome ==> code == KeyCode::Char('q') || code == KeyCode::Esc
            &&& code == KeyCode::Char('?') ==> n.show_help
            &&& work is Save <==> code == KeyCode::Enter
            &&& work is Save || work is Nothing
            &&& code == KeyCode::Enter ==> {
                let mode = if selected == 0 {
                    Mode::Host
                } else {
                    Mode::Guest
                };
                &&& n.config.default_mode == Some(mode)
                &&& n.after_saving(saved, millis, clock).1 == n.save_logged(
                    mode,
                    saved,
                    clock,
                ).mode_started(mode, clock).1
                &&& mode == Mode::Host ==> n.after_saving(saved, millis, clock).1 is StartHost
            }
        }),
{
}

/// On the screen of a mode `m` saves the other mode and goes to it, `l` goes to
/// the log, and `?` shows the help; other keys do nothing.
pub proof fn keys_of_a_mode(app: AppView, code: KeyCode, millis: u64, clock: Seq<char>)
    requires
        app.mode() is Some,
        !app.show_help,
        !app.log_focus,
    ensures
        ({
            let key = KeyEvent { code, ctrl: false, press: true };
            let (n, work) = app.woken(Wake::Input(Input::Key(key)), millis, clock);
            &&& code == KeyCode::Char('m') && app.pending == Pending::Nothing ==> {
                &&& work is Save
                &&& n.config.default_mode == Some(app.mode()->0.spec_other())
                &&& n.after_save == Some(AfterSave::Switch(app.mode()->0.spec_other()))
                &&& n.screen == app.screen
            }
            &&& work is Save ==> code == KeyCode::Char('m')
            &&& code == KeyCode::Char('l') <==> n.log_focus
            &&& code == KeyCode::Char('?') <==> n.show_help
            &&& code != KeyCode::Char('m') && code != KeyCode::Char('q') ==> work is Nothing
                && n.session == app.session && n.pending == app.pending && n.screen == app.screen
        }),
{
}

/// In the log the keys scroll, by a line, by ten, or to either end, and Esc and
/// `l` go back to following it.
pub proof fn keys_of_the_log(app: AppView, code: KeyCode, millis: u64, clock: Seq<char>)
    requires
        app.log_focus,
        !app.show_help,
        code != KeyCode::Char('q'),
    ensures
        ({
            let key = KeyEvent { code, ctrl: false, press: true };
            let (n, work) = app.woken(Wake::Input(Input::Key(key)), millis, clock);
            &&& work is Nothing
            &&& code == KeyCode::Up || code == KeyCode::Char('k') ==> n.log == app.log.scrolled(1)
            &&& code == KeyCode::Down || code == KeyCode::Char('j') ==> n.log == app.log.scrolled(
                -1,
            )
            &&& code == KeyCode::PageUp ==> n.log == app.log.scrolled(10)
            &&& code == KeyCode::PageDown ==> n.log == app.log.scrolled(-10)
            &&& code == KeyCode::Home && 0 < app.log.lines.len() <= 500 ==> n.log.up
                == app.log.lines.len() - 1
            &&& code == KeyCode::End || code == KeyCode::Esc || code == KeyCode::Char('l')
                ==> n.log.up == 0
            &&& n.log_focus <==> code != KeyCode::Esc && code != KeyCode::Char('l')
            &&& n.log.lines == app.log.lines
            &&& n.screen == app.screen
            &&& n.session == app.session
        }),
{
}

/// A configuration is summed up as what it is.
pub proof fn a_summary_says_what_is_configured(
    routes: Routed,
    set_dns: bool,
    host: HostTarget,
)
    ensures
        summary(routes, set_dns, host).len() == 3,
        routes matches Routed::Custom(nets) ==> summary(routes, set_dns, host)[0].1
            == cidr::nets_text(nets),
        host matches HostTarget::Manual(a) ==> summary(routes, set_dns, host)[2].1
            == a.spec_text(),
        host matches HostTarget::Serial { path, .. } ==> text::holds(
            summary(routes, set_dns, host)[2].1,
            path@,
        ),
{
    if let HostTarget::Serial { path, baud } = host {
        let (a, b) = ("串口 "@, "（"@ + text::dec(baud as nat) + " baud）"@);
        text::an_inner_text_is_held(a, path@, b);
        assert(a + path@ + b =~= target_text(host));
    }
}

/// The entries of a summary, in words.
pub proof fn a_summary_in_words(set_dns: bool)
    ensures
        set_dns ==> dns_text(set_dns) == "接管"@,
        !set_dns ==> dns_text(set_dns) == "不修改"@,
        summary(Routed::Full, set_dns, HostTarget::Auto)[0].1
            == "全部流量（0.0.0.0/1 + 128.0.0.0/1）"@,
        summary(Routed::Full, set_dns, HostTarget::Auto)[1].1 == dns_text(set_dns),
        summary(Routed::Full, set_dns, HostTarget::Auto)[2].1 == "自动发现"@,
{
}

/// The error of a core is its text, and none where it returned in order.
pub proof fn an_error_is_its_text(res: Result<(), String>)
    ensures
        res matches Err(e) ==> error_view(res) == Some(e@),
        res is Ok ==> error_view(res) is None,
{
}

/// The spinner goes through ten frames in turn.
pub proof fn the_spinner_turns()
    ensures
        spinner_frame(0) == "⠋"@,
        spinner_frame(1) == "⠙"@,
        spinner_frame(2) == "⠹"@,
        spinner_frame(3) == "⠸"@,
        spinner_frame(4) == "⠼"@,
        spinner_frame(5) == "⠴"@,
        spinner_frame(6) == "⠦"@,
        spinner_frame(7) == "⠧"@,
        spinner_frame(8) == "⠇"@,
        spinner_frame(9) == "⠏"@,
{
}

/// Everything that wakes the program can be taken up, short of a counter that
/// would run over.
pub proof fn what_can_be_taken_up(app: AppView, wake: Wake)
    ensures
        !(wake is Tick) && !(wake is Core) ==> app.counts(wake),
        wake is Tick ==> (app.counts(wake) <==> app.ticks < u64::MAX),
        wake matches Wake::Core(ev) ==> (!(app.screen is Host && ev is Host) ==> app.counts(wake)),
        wake matches Wake::Core(Event::Host(h)) ==> (app.screen matches ScreenView::Host(m) ==> (
        app.counts(wake) <==> m.fits(h))),
{
}

/// A screen shows its model, and a program all of its parts.
pub proof fn a_program_shows_its_parts(app: App)
    ensures
        app@.pending == app.pending,
        app@.session == app.session,
        app@.outcome == app.outcome,
        app@.config == app.config,
        app@.log == app.log@,
        app@.log_focus == app.log_focus,
        app@.show_help == app.show_help,
        app@.after_save == app.after_save,
        app@.shutdown_started == app.shutdown_started,
        app@.machine == app.machine,
        app.screen matches Screen::Host(m) ==> app@.screen == ScreenView::Host(m@),
        app.screen matches Screen::Guest(m) ==> app@.screen == ScreenView::Guest(m@),
        app.screen matches Screen::Onboarding { selected } ==> app@.screen == (
        ScreenView::Onboarding { selected }),
        app@.mode() == (match app.screen {
            Screen::Host(_) => Some(Mode::Host),
            Screen::Guest(_) => Some(Mode::Guest),
            Screen::Onboarding { .. } => None,
        }),
        app.notice matches Some(n) ==> app@.notice == Some(n@),
        app.notice is None ==> app@.notice is None,
{
}

} // verus!
