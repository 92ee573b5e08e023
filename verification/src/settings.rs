//! Persistent configuration (`config.toml`) and resolution of the
//! configuration directory.
//!
//! The configuration lives in `<config_dir>/netm/config.toml`. `config_dir`
//! is `~/.config` on Unix and `%APPDATA%` on Windows, where `~` is the home
//! directory of the *invoking* user: when the program is re-executed under
//! `sudo`, `SUDO_USER` is honoured so that root does not read/write
//! `/var/root/.config`. The `NETM_CONFIG` environment variable (set by the
//! `sudo` re-exec) and `--config` override the file path completely.

use crate::guest::DEFAULT_BAUD;
use crate::platform::{self, Os};
use crate::text;
use crate::DATA_PORT;
use vstd::prelude::*;
use vstd::string::StringExecFns;

verus! {

/// Environment variable carrying the resolved config file path across a
/// `sudo` re-exec.
pub const CONFIG_ENV: &'static str = "NETM_CONFIG";

/// Name of the config directory below `~/.config` / `%APPDATA%`.
pub const APP_DIR: &'static str = "netm";

/// File name of the configuration.
pub const CONFIG_FILE: &'static str = "config.toml";

/// File name of the TUI log.
pub const LOG_FILE: &'static str = "netm.log";

/// Which role this machine plays.
#[derive(Clone, Copy, Debug, PartialEq, Eq, Structural)]
pub enum Mode {
    Host,
    Guest,
}

impl Mode {
    /// Chinese label used throughout the UI.
    pub open spec fn spec_label(self) -> Seq<char> {
        match self {
            Mode::Host => "宿主机"@,
            Mode::Guest => "客机"@,
        }
    }

    /// Chinese label used throughout the UI.
    pub fn label(self) -> (r: &'static str)
        ensures
            r@ == self.spec_label(),
    {
        match self {
            Mode::Host => "宿主机",
            Mode::Guest => "客机",
        }
    }

    /// The other role.
    pub open spec fn spec_other(self) -> Mode {
        match self {
            Mode::Host => Mode::Guest,
            Mode::Guest => Mode::Host,
        }
    }

    /// The other role.
    pub fn other(self) -> (r: Mode)
        ensures
            r == self.spec_other(),
            r != self,
            r.spec_other() == self,
    {
        match self {
            Mode::Host => Mode::Guest,
            Mode::Guest => Mode::Host,
        }
    }
}

/// `[host]` section.
#[derive(Clone, Debug, PartialEq, Eq)]
pub struct HostSettings {
    /// TCP data port the host listens on.
    pub port: u16,
    /// Serial port to wait for a guest on.
    pub serial: Option<String>,
    /// Baud rate of the serial port.
    pub baud: u32,
}

impl Default for HostSettings {
    fn default() -> (r: Self)
        ensures
            r.port == DATA_PORT,
            r.serial is None,
            r.baud == DEFAULT_BAUD,
    {
        HostSettings { port: DATA_PORT, serial: None, baud: DEFAULT_BAUD }
    }
}

/// `[guest]` section.
#[derive(Clone, Debug, PartialEq, Eq)]
pub struct GuestSettings {
    /// Override for the DNS behaviour; `None` = decide from the route mode.
    pub set_dns: Option<bool>,
    /// IPv4 prefixes to route through the tunnel; empty = everything.
    pub routes: Vec<String>,
    /// Serial port to reach the host over.
    pub serial: Option<String>,
    /// Baud rate of the serial port.
    pub baud: u32,
}

impl Default for GuestSettings {
    fn default() -> (r: Self)
        ensures
            r.set_dns is None,
            r.routes@.len() == 0,
            r.serial is None,
            r.baud == DEFAULT_BAUD,
    {
        GuestSettings { set_dns: None, routes: Vec::new(), serial: None, baud: DEFAULT_BAUD }
    }
}

/// The whole `config.toml`.
#[derive(Clone, Debug, PartialEq, Eq)]
pub struct Config {
    /// Role entered directly by `netm` without a subcommand; `None` shows
    /// the onboarding screen.
    pub default_mode: Option<Mode>,
    pub host: HostSettings,
    pub guest: GuestSettings,
}

impl Default for Config {
    fn default() -> (r: Self)
        ensures
            r.default_mode is None,
            r.host.port == DATA_PORT,
            r.host.serial is None,
            r.host.baud == DEFAULT_BAUD,
            r.guest.set_dns is None,
            r.guest.routes@.len() == 0,
            r.guest.serial is None,
            r.guest.baud == DEFAULT_BAUD,
    {
        Config {
            default_mode: None,
            host: HostSettings::default(),
            guest: GuestSettings::default(),
        }
    }
}

// Where the configuration lives.

/// Environment inputs that decide where the config lives. Kept as a plain
/// struct so the resolution logic is a pure, testable function.
#[derive(Clone, Debug, PartialEq, Eq)]
pub struct EnvInfo {
    /// `NETM_CONFIG`: full path of the config file.
    pub netm_config: Option<String>,
    /// `SUDO_USER`: name of the user who ran `sudo`.
    pub sudo_user: Option<String>,
    /// `HOME` (Unix) — home directory of the current user.
    pub home: Option<String>,
    /// `APPDATA` (Windows).
    pub appdata: Option<String>,
}

/// A variable that is set to something.
pub open spec fn set_value(v: Option<String>) -> Option<String> {
    match v {
        Some(s) => if s@.len() > 0 {
            Some(s)
        } else {
            None
        },
        None => None,
    }
}

fn value_if_set(v: Option<String>) -> (r: Option<String>)
    ensures
        r == set_value(v),
{
    match v {
        Some(s) => if s.as_str().is_empty() {
            None
        } else {
            Some(s)
        },
        None => None,
    }
}

impl Default for EnvInfo {
    fn default() -> (r: Self)
        ensures
            r == (EnvInfo { netm_config: None, sudo_user: None, home: None, appdata: None }),
    {
        EnvInfo { netm_config: None, sudo_user: None, home: None, appdata: None }
    }
}

impl EnvInfo {
    /// Snapshot of the process environment, from its variables. An empty one
    /// counts as not set.
    pub fn from_process(
        netm_config: Option<String>,
        sudo_user: Option<String>,
        home: Option<String>,
        appdata: Option<String>,
    ) -> (r: Self)
        ensures
            r.netm_config == set_value(netm_config),
            r.sudo_user == set_value(sudo_user),
            r.home == set_value(home),
            r.appdata == set_value(appdata),
    {
        EnvInfo {
            netm_config: value_if_set(netm_config),
            sudo_user: value_if_set(sudo_user),
            home: value_if_set(home),
            appdata: value_if_set(appdata),
        }
    }
}

/// A Windows drive, such as `C:`.
pub open spec fn is_drive(s: Seq<char>) -> bool {
    s.len() == 2 && s[1] == ':' && ('a' <= s[0] <= 'z' || 'A' <= s[0] <= 'Z')
}

/// A separator of a Windows path.
pub open spec fn is_sep(c: char) -> bool {
    c == '/' || c == '\\'
}

/// A Windows path that is taken verbatim: it begins with `\\?\`, and only
/// backslashes separate its names.
pub open spec fn is_verbatim(s: Seq<char>) -> bool {
    s.len() >= 4 && s[0] == '\\' && s[1] == '\\' && s[2] == '?' && s[3] == '\\'
}

/// How long the prefix of a verbatim path is: `\\?\UNC\server\share`,
/// `\\?\C:`, or `\\?\` and one name.
pub open spec fn verbatim_prefix(s: Seq<char>) -> int {
    let rest = s.skip(4);
    if rest.len() >= 4 && rest[0] == 'U' && rest[1] == 'N' && rest[2] == 'C' && is_sep(rest[3]) {
        let body = rest.skip(4);
        let server = text::first_index(body, '\\');
        let share = if server < body.len() {
            text::first_index(body.skip(server + 1), '\\')
        } else {
            0
        };
        8 + server + if share > 0 {
            1 + share
        } else {
            0
        }
    } else if rest.len() >= 2 && is_drive(rest.take(2)) && (rest.len() == 2 || is_sep(rest[2])) {
        6
    } else {
        4 + text::first_index(rest, '\\')
    }
}

/// What follows the prefix of a verbatim path and the separator behind it.
pub open spec fn verbatim_body(s: Seq<char>) -> Seq<char> {
    let n = verbatim_prefix(s);
    if n < s.len() {
        s.skip(n + 1)
    } else {
        Seq::empty()
    }
}

/// Names below `base`, with a backslash before each; empty ones are left out.
pub open spec fn below(base: Seq<char>, names: Seq<Seq<char>>) -> Seq<char>
    decreases names.len(),
{
    if names.len() == 0 {
        base
    } else {
        let before = below(base, names.drop_last());
        if names.last().len() == 0 {
            before
        } else {
            before.push('\\') + names.last()
        }
    }
}

/// A path below another. An absolute one on Unix takes its place; behind a
/// separator, an empty path or a bare Windows drive no separator is put. A
/// verbatim Windows path is put together anew from its names and those of
/// `rel`, which are separated by slashes.
pub open spec fn joined(os: Os, base: Seq<char>, rel: Seq<char>) -> Seq<char> {
    if os == Os::Windows {
        if is_verbatim(base) {
            let start = base.take(verbatim_prefix(base));
            below(below(start, text::pieces(verbatim_body(base), '\\')), text::pieces(rel, '/'))
        } else if base.len() == 0 || base.last() == '/' || base.last() == '\\' || is_drive(base) {
            base + rel
        } else {
            base + "\\"@ + rel
        }
    } else if text::begins(rel, "/"@) {
        rel
    } else if base.len() == 0 || base.last() == '/' {
        base + rel
    } else {
        base + "/"@ + rel
    }
}

fn put_names(out: &mut String, names: &Vec<&[char]>)
    ensures
        final(out)@ == below(old(out)@, text::texts(names@)),
{
    let ghost base = out@;
    let ghost all = text::texts(names@);
    let mut i: usize = 0;
    assert(all.take(0) =~= Seq::<Seq<char>>::empty());
    while i < names.len()
        invariant
            all == text::texts(names@),
            i <= names@.len(),
            out@ == below(base, all.take(i as int)),
        decreases names@.len() - i,
    {
        assert(all.take(i + 1).drop_last() =~= all.take(i as int));
        assert(all.take(i + 1).last() == names@[i as int]@);
        if names[i].len() > 0 {
            out.push('\\');
            out.append(text::string(names[i]).as_str());
        }
        i = i + 1;
    }
    assert(all.take(i as int) =~= all);
}

fn prefix_length(s: &[char]) -> (r: usize)
    requires
        is_verbatim(s@),
    ensures
        r == verbatim_prefix(s@),
        r <= s@.len(),
{
    let rest = text::part(s, 4, s.len());
    assert(rest@ =~= s@.skip(4));
    let n: usize = rest.len();
    if n >= 4 && rest[0] == 'U' && rest[1] == 'N' && rest[2] == 'C' && (rest[3] == '/' || rest[3]
        == '\\') {
        let body = text::part(rest, 4, n);
        assert(body@ =~= rest@.skip(4));
        let server: usize = text::index_of(body, '\\');
        if server < body.len() {
            let after = text::part(body, server + 1, body.len());
            assert(after@ =~= body@.skip(server + 1));
            let share: usize = text::index_of(after, '\\');
            if share > 0 {
                return 8 + server + 1 + share;
            }
        }
        return 8 + server;
    }
    assert(n >= 2 ==> rest@.take(2)[0] == rest@[0] && rest@.take(2)[1] == rest@[1]);
    let drive: bool = n >= 2 && rest[1] == ':' && ('a' <= rest[0] && rest[0] <= 'z' || 'A'
        <= rest[0] && rest[0] <= 'Z');
    if drive && (n == 2 || rest[2] == '/' || rest[2] == '\\') {
        return 6;
    }
    4 + text::index_of(rest, '\\')
}

fn join_verbatim(base: &[char], rel: &str) -> (r: String)
    requires
        is_verbatim(base@),
    ensures
        r@ == joined(Os::Windows, base@, rel@),
{
    let n: usize = prefix_length(base);
    let start = text::part(base, 0, n);
    assert(start@ =~= base@.take(n as int));
    let mut out = text::string(start);
    let body = if n < base.len() {
        text::part(base, n + 1, base.len())
    } else {
        text::part(base, n, n)
    };
    assert(body@ =~= verbatim_body(base@));
    put_names(&mut out, &text::split(body, '\\'));
    let names = text::chars(rel);
    put_names(&mut out, &text::split(names.as_slice(), '/'));
    out
}

fn join(os: Os, base: &str, rel: &str) -> (r: String)
    ensures
        r@ == joined(os, base@, rel@),
{
    let b = text::chars(base);
    let n: usize = b.len();
    if os == Os::Windows {
        if n >= 4 && b[0] == '\\' && b[1] == '\\' && b[2] == '?' && b[3] == '\\' {
            return join_verbatim(b.as_slice(), rel);
        }
        let drive: bool = n == 2 && b[1] == ':' && ('a' <= b[0] && b[0] <= 'z' || 'A' <= b[0]
            && b[0] <= 'Z');
        if n == 0 || b[n - 1] == '/' || b[n - 1] == '\\' || drive {
            text::cat2(base, rel)
        } else {
            text::cat3(base, "\\", rel)
        }
    } else if text::begins_with(text::chars(rel).as_slice(), "/") {
        rel.to_owned()
    } else if n == 0 || b[n - 1] == '/' {
        text::cat2(base, rel)
    } else {
        text::cat3(base, "/", rel)
    }
}

/// Best guess of a user's home when the account database cannot be queried.
pub open spec fn guessed_home(os: Os, user: Seq<char>) -> Seq<char> {
    joined(
        os,
        if os == Os::MacOs {
            "/Users"@
        } else {
            "/home"@
        },
        user,
    )
}

fn fallback_home(os: Os, user: &str) -> (r: String)
    ensures
        r@ == guessed_home(os, user@),
{
    if os == Os::MacOs {
        join(os, "/Users", user)
    } else {
        join(os, "/home", user)
    }
}

/// The user that ran `sudo`, unless that is root.
pub open spec fn sudo_invoker(env: EnvInfo) -> Option<Seq<char>> {
    match env.sudo_user {
        Some(u) => if u@ != "root"@ {
            Some(u@)
        } else {
            None
        },
        None => None,
    }
}

/// The home that the configuration belongs to.
pub open spec fn config_home(
    os: Os,
    env: EnvInfo,
    sudo_home: Option<Seq<char>>,
    own_home: Option<Seq<char>>,
) -> Seq<char> {
    match (sudo_invoker(env), sudo_home, env.home, own_home) {
        (Some(_), Some(h), _, _) => h,
        (Some(u), None, _, _) => guessed_home(os, u),
        (None, _, Some(h), _) => h@,
        (None, _, None, Some(h)) => h,
        (None, _, None, None) => "/tmp"@,
    }
}

/// The directory that holds the configuration.
pub open spec fn config_dir(
    os: Os,
    env: EnvInfo,
    sudo_home: Option<Seq<char>>,
    own_home: Option<Seq<char>>,
) -> Seq<char> {
    if os == Os::Windows {
        let base = match (env.appdata, env.home) {
            (Some(a), _) => a@,
            (None, Some(h)) => joined(os, h@, "AppData/Roaming"@),
            (None, None) => "."@,
        };
        joined(os, base, "netm"@)
    } else {
        joined(
            os,
            joined(os, config_home(os, env, sudo_home, own_home), ".config"@),
            "netm"@,
        )
    }
}

/// Directory holding `config.toml` and `netm.log`. `sudo_home` is what the
/// account database says of the home of `SUDO_USER`, `own_home` of the home of
/// the current user.
pub fn config_dir_for(os: Os, env: &EnvInfo, sudo_home: Option<&str>, own_home: Option<&str>) -> (r:
    String)
    ensures
        r@ == config_dir(os, *env, platform::str_view(sudo_home), platform::str_view(own_home)),
{
    if os == Os::Windows {
        let base = match (&env.appdata, &env.home) {
            (Some(a), _) => a.clone(),
            (None, Some(h)) => join(os, h.as_str(), "AppData/Roaming"),
            (None, None) => ".".to_owned(),
        };
        return join(os, base.as_str(), APP_DIR);
    }
    let under_sudo: bool = match &env.sudo_user {
        Some(u) => !text::same(u.as_str(), "root"),
        None => false,
    };
    let home: String = if under_sudo {
        match (sudo_home, &env.sudo_user) {
            (Some(h), _) => h.to_owned(),
            (None, Some(u)) => fallback_home(os, u.as_str()),
            (None, None) => "/tmp".to_owned(),
        }
    } else {
        match (&env.home, own_home) {
            (Some(h), _) => h.clone(),
            (None, Some(h)) => h.to_owned(),
            (None, None) => "/tmp".to_owned(),
        }
    };
    join(os, join(os, home.as_str(), ".config").as_str(), APP_DIR)
}

/// The path of the configuration file.
pub open spec fn config_path(
    os: Os,
    explicit: Option<Seq<char>>,
    env: EnvInfo,
    sudo_home: Option<Seq<char>>,
    own_home: Option<Seq<char>>,
) -> Seq<char> {
    match (explicit, env.netm_config) {
        (Some(p), _) => p,
        (None, Some(p)) => p@,
        (None, None) => joined(os, config_dir(os, env, sudo_home, own_home), "config.toml"@),
    }
}

/// Resolve the config *file* path.
///
/// Order: explicit `--config`, `NETM_CONFIG`, then
/// `<home>/.config/netm/config.toml` (Unix) or `%APPDATA%\netm\config.toml`
/// (Windows). `sudo_home` is what the account database says of the home of
/// `SUDO_USER`, `own_home` of the home of the current user.
pub fn resolve_config_path(
    os: Os,
    explicit: Option<&str>,
    env: &EnvInfo,
    sudo_home: Option<&str>,
    own_home: Option<&str>,
) -> (r: String)
    ensures
        r@ == config_path(
            os,
            platform::str_view(explicit),
            *env,
            platform::str_view(sudo_home),
            platform::str_view(own_home),
        ),
{
    if let Some(p) = explicit {
        return p.to_owned();
    }
    if let Some(p) = &env.netm_config {
        return p.clone();
    }
    join(os, config_dir_for(os, env, sudo_home, own_home).as_str(), CONFIG_FILE)
}

/// The home that a line of `dscl` names.
pub open spec fn dscl_line(line: Seq<char>) -> Option<Seq<char>> {
    match text::without_prefix(line, "NFSHomeDirectory:"@) {
        Some(rest) => if text::trimmed(rest).len() > 0 {
            Some(text::trimmed(rest))
        } else {
            None
        },
        None => None,
    }
}

/// The first home that lines of `dscl` name.
pub open spec fn dscl_home(lines: Seq<Seq<char>>) -> Option<Seq<char>>
    decreases lines.len(),
{
    if lines.len() == 0 {
        None
    } else if dscl_line(lines[0]) is Some {
        dscl_line(lines[0])
    } else {
        dscl_home(lines.skip(1))
    }
}

/// Parse `dscl . -read /Users/<name> NFSHomeDirectory` output.
pub fn parse_dscl_home(output: &str) -> (r: Option<String>)
    ensures
        platform::opt_view(r) == dscl_home(text::lines_of(output@)),
{
    let c = text::chars(output);
    let lines = text::lines(c.as_slice());
    let ghost all = text::texts(lines@);
    let mut i: usize = 0;
    assert(all.skip(0) =~= all);
    while i < lines.len()
        invariant
            all == text::texts(lines@),
            all == text::lines_of(output@),
            i <= lines@.len(),
            dscl_home(all) == dscl_home(all.skip(i as int)),
        decreases lines@.len() - i,
    {
        let ghost rest = all.skip(i as int);
        assert(rest[0] == lines@[i as int]@);
        if let Some(v) = text::strip_prefix(lines[i], "NFSHomeDirectory:") {
            let home = text::trim(v);
            if home.len() > 0 {
                return Some(text::string(home));
            }
        }
        assert(rest.skip(1) =~= all.skip(i + 1));
        i = i + 1;
    }
    assert(all.skip(i as int) =~= Seq::<Seq<char>>::empty());
    None
}

/// Home directory of a user: what `dscl` printed, if it ran and named one,
/// else what the account database says.
pub fn lookup_user_home(dscl: Option<&str>, account: Option<String>) -> (r: Option<String>)
    ensures
        platform::opt_view(r) == (match platform::str_view(dscl) {
            Some(out) => if dscl_home(text::lines_of(out)) is Some {
                dscl_home(text::lines_of(out))
            } else {
                platform::opt_view(account)
            },
            None => platform::opt_view(account),
        }),
{
    if let Some(out) = dscl {
        let home = parse_dscl_home(out);
        if home.is_some() {
            return home;
        }
    }
    account
}

/// A Unix path without the separators and `.` components at its end.
pub open spec fn without_tail(s: Seq<char>) -> Seq<char>
    decreases s.len(),
{
    if s.len() >= 2 && (s.last() == '/' || (s.last() == '.' && s[s.len() - 2] == '/')) {
        without_tail(s.drop_last())
    } else {
        s
    }
}

/// The length of the part of a path that ends with its last separator.
pub open spec fn behind_last_slash(s: Seq<char>) -> nat
    decreases s.len(),
{
    if s.len() == 0 || s.last() == '/' {
        s.len()
    } else {
        behind_last_slash(s.drop_last())
    }
}

/// The parent of a Unix path; an empty path and the root have none.
pub open spec fn parent(s: Seq<char>) -> Option<Seq<char>> {
    let t = without_tail(s);
    if t.len() == 0 || t == "/"@ {
        None
    } else {
        Some(without_tail(t.take(behind_last_slash(t) as int)))
    }
}

fn cut_tail<'a>(s: &'a [char]) -> (r: &'a [char])
    ensures
        r@ == without_tail(s@),
        r@.len() <= s@.len(),
{
    let mut n: usize = s.len();
    assert(s@.take(n as int) =~= s@);
    while n >= 2 && (s[n - 1] == '/' || (s[n - 1] == '.' && s[n - 2] == '/'))
        invariant
            n <= s@.len(),
            without_tail(s@) == without_tail(s@.take(n as int)),
        decreases n,
    {
        assert(s@.take(n as int).drop_last() =~= s@.take(n - 1));
        n = n - 1;
    }
    let r = text::part(s, 0, n);
    assert(r@ =~= s@.take(n as int));
    r
}

/// Directory of a config path on Unix (where `netm.log` is written too).
pub fn dir_of(config_path: &str) -> (r: String)
    ensures
        r@ == (match parent(config_path@) {
            Some(p) => p,
            None => "."@,
        }),
{
    let c = text::chars(config_path);
    let t = cut_tail(c.as_slice());
    if t.len() == 0 || text::is(t, "/") {
        return ".".to_owned();
    }
    let mut n: usize = t.len();
    assert(t@.take(n as int) =~= t@);
    while n > 0 && t[n - 1] != '/'
        invariant
            n <= t@.len(),
            behind_last_slash(t@) == behind_last_slash(t@.take(n as int)),
        decreases n,
    {
        assert(t@.take(n as int).drop_last() =~= t@.take(n - 1));
        n = n - 1;
    }
    let above = text::part(t, 0, n);
    assert(above@ =~= t@.take(n as int));
    text::string(cut_tail(above))
}

/// An id out of an environment variable.
pub open spec fn id_of(v: Option<Seq<char>>) -> Option<nat> {
    match v {
        Some(s) => text::number_upto(s, u32::MAX as nat),
        None => None,
    }
}

fn read_id(v: Option<&str>) -> (r: Option<u32>)
    ensures
        r is Some <==> id_of(platform::str_view(v)) is Some,
        r matches Some(n) ==> id_of(platform::str_view(v)) == Some(n as nat),
{
    match v {
        Some(s) => {
            let c = text::chars(s);
            match text::parse_number(c.as_slice(), u32::MAX as u64) {
                Some(n) => Some(n as u32),
                None => None,
            }
        },
        None => None,
    }
}

/// `(uid, gid)` of the user who invoked `sudo`, when running as root, from
/// `SUDO_UID` and `SUDO_GID`.
pub fn sudo_owner(is_root: bool, uid: Option<&str>, gid: Option<&str>) -> (r: Option<(u32, u32)>)
    ensures
        r is Some <==> is_root && id_of(platform::str_view(uid)) is Some && id_of(
            platform::str_view(gid),
        ) is Some,
        r matches Some((u, g)) ==> id_of(platform::str_view(uid)) == Some(u as nat) && id_of(
            platform::str_view(gid),
        ) == Some(g as nat),
{
    if !is_root {
        return None;
    }
    match (read_id(uid), read_id(gid)) {
        (Some(u), Some(g)) => Some((u, g)),
        _ => None,
    }
}

/// An explicit path wins over everything else.
pub proof fn an_explicit_path_wins(
    os: Os,
    path: Seq<char>,
    env: EnvInfo,
    sudo_home: Option<Seq<char>>,
    own_home: Option<Seq<char>>,
)
    ensures
        config_path(os, Some(path), env, sudo_home, own_home) == path,
{
}

/// Under `sudo` the configuration is the invoking user's: where it lies does
/// not depend on the home of root.
pub proof fn the_invoker_owns_the_configuration(
    os: Os,
    env: EnvInfo,
    other: EnvInfo,
    sudo_home: Option<Seq<char>>,
    own_home: Option<Seq<char>>,
    other_home: Option<Seq<char>>,
)
    requires
        os != Os::Windows,
        sudo_invoker(env) is Some,
        other.sudo_user == env.sudo_user,
        other.netm_config == env.netm_config,
    ensures
        config_path(os, None, env, sudo_home, own_home) == config_path(
            os,
            None,
            other,
            sudo_home,
            other_home,
        ),
{
}

/// Each mode has the other, and its own label.
pub proof fn modes_are_two(m: Mode)
    ensures
        m.spec_other() != m,
        m.spec_other().spec_other() == m,
{
}

/// A variable counts when it is set to something.
pub proof fn an_empty_variable_is_not_set(v: Option<String>)
    ensures
        set_value(v) is Some <==> (v matches Some(s) && s@.len() > 0),
        set_value(v) is Some ==> set_value(v) == v,
{
}

/// Paths are joined with one separator between them; a path that is absolute
/// stands for itself.
pub proof fn paths_are_joined(base: Seq<char>, rel: Seq<char>, os: Os)
    requires
        base.len() > 0,
        rel.len() > 0,
    ensures
        os != Os::Windows && rel[0] == '/' ==> joined(os, base, rel) == rel,
        os != Os::Windows && rel[0] != '/' && base.last() != '/' ==> joined(os, base, rel) == base
            + seq!['/'] + rel,
        os != Os::Windows && rel[0] != '/' && base.last() == '/' ==> joined(os, base, rel) == base
            + rel,
        os == Os::Windows && !is_verbatim(base) && !is_sep(base.last()) && !is_drive(base)
            ==> joined(os, base, rel) == base + seq!['\\'] + rel,
        os == Os::Windows && !is_verbatim(base) && (is_sep(base.last()) || is_drive(base))
            ==> joined(os, base, rel) == base + rel,
{
    reveal_strlit("/");
    reveal_strlit("\\");
    assert("/"@ =~= seq!['/']);
    assert("\\"@ =~= seq!['\\']);
    if text::begins(rel, "/"@) {
        assert(rel.take(1)[0] == rel[0]);
    }
    if rel[0] == '/' {
        assert(rel.take(1) =~= seq!['/']);
    }
}

/// The configuration is where it was asked for, or where the environment says,
/// or else `config.toml` in the directory of the program.
pub proof fn where_the_configuration_is(
    os: Os,
    explicit: Option<Seq<char>>,
    env: EnvInfo,
    sudo_home: Option<Seq<char>>,
    own_home: Option<Seq<char>>,
)
    ensures
        explicit matches Some(p) ==> config_path(os, explicit, env, sudo_home, own_home) == p,
        explicit is None ==> (env.netm_config matches Some(p) ==> config_path(
            os,
            explicit,
            env,
            sudo_home,
            own_home,
        ) == p@),
        explicit is None && env.netm_config is None ==> config_path(
            os,
            explicit,
            env,
            sudo_home,
            own_home,
        ) == joined(os, config_dir(os, env, sudo_home, own_home), "config.toml"@),
{
}

/// The directory is `.config/netm` in the home of whoever called, also through
/// `sudo`, and `netm` in the roaming directory on Windows.
pub proof fn where_the_directory_is(
    os: Os,
    env: EnvInfo,
    sudo_home: Option<Seq<char>>,
    own_home: Option<Seq<char>>,
    home: Seq<char>,
)
    requires
        home.len() > 0,
        home.last() != '/',
        home == config_home(os, env, sudo_home, own_home),
    ensures
        os != Os::Windows ==> config_dir(os, env, sudo_home, own_home) == home + "/.config/netm"@,
        os == Os::Windows ==> (env.appdata matches Some(a) ==> config_dir(
            os,
            env,
            sudo_home,
            own_home,
        ) == joined(os, a@, "netm"@)),
{
    reveal_strlit(".config");
    reveal_strlit("netm");
    reveal_strlit("/.config/netm");
    if os != Os::Windows {
        paths_are_joined(home, ".config"@, os);
        let dir = home + seq!['/'] + ".config"@;
        assert(dir.last() == 'g');
        paths_are_joined(dir, "netm"@, os);
        assert(dir + seq!['/'] + "netm"@ =~= home + "/.config/netm"@);
    }
}

/// Whose home it is: that of the user who called `sudo`, found or guessed, or
/// else the one of the environment, or else the account's own.
pub proof fn whose_home_it_is(
    os: Os,
    env: EnvInfo,
    sudo_home: Option<Seq<char>>,
    own_home: Option<Seq<char>>,
)
    ensures
        sudo_invoker(env) is Some <==> (env.sudo_user matches Some(u) && u@ != "root"@),
        sudo_invoker(env) is Some ==> sudo_invoker(env) == Some(env.sudo_user->0@),
        sudo_invoker(env) is Some && sudo_home is Some ==> config_home(
            os,
            env,
            sudo_home,
            own_home,
        ) == sudo_home->0,
        sudo_invoker(env) is Some && sudo_home is None && sudo_invoker(env)->0.len() > 0
            && sudo_invoker(env)->0[0] != '/' && os != Os::Windows ==> config_home(
            os,
            env,
            sudo_home,
            own_home,
        ) == (if os == Os::MacOs {
            "/Users/"@
        } else {
            "/home/"@
        }) + sudo_invoker(env)->0,
        sudo_invoker(env) is None ==> (env.home matches Some(h) ==> config_home(
            os,
            env,
            sudo_home,
            own_home,
        ) == h@),
        sudo_invoker(env) is None && env.home is None ==> (own_home matches Some(h)
            ==> config_home(os, env, sudo_home, own_home) == h),
{
    reveal_strlit("/Users");
    reveal_strlit("/home");
    reveal_strlit("/Users/");
    reveal_strlit("/home/");
    if let Some(u) = sudo_invoker(env) {
        if u.len() > 0 {
            paths_are_joined("/Users"@, u, os);
            paths_are_joined("/home"@, u, os);
            assert("/Users"@ + seq!['/'] + u =~= "/Users/"@ + u);
            assert("/home"@ + seq!['/'] + u =~= "/home/"@ + u);
        }
    }
}

/// The home of an account is what its first such line says.
pub proof fn the_first_home_counts(lines: Seq<Seq<char>>, i: int, home: Seq<char>)
    ensures
        0 <= i < lines.len() && dscl_line(lines[i]) is Some && (forall|k: int|
            0 <= k < i ==> dscl_line(#[trigger] lines[k]) is None) ==> dscl_home(lines)
            == dscl_line(lines[i]),
        (forall|k: int| 0 <= k < lines.len() ==> dscl_line(#[trigger] lines[k]) is None)
            ==> dscl_home(lines) is None,
        text::trimmed(home).len() > 0 ==> dscl_line("NFSHomeDirectory:"@ + home) == Some(
            text::trimmed(home),
        ),
        text::trimmed(home).len() == 0 ==> dscl_line("NFSHomeDirectory:"@ + home) is None,
        !text::begins(home, "NFSHomeDirectory:"@) ==> dscl_line(home) is None,
    decreases lines.len(),
{
    text::a_prefix_comes_off("NFSHomeDirectory:"@, home, home);
    if lines.len() > 0 {
        let rest = lines.skip(1);
        the_first_home_counts(rest, i - 1, home);
        if 0 < i < lines.len() && (forall|k: int|
            0 <= k < i ==> dscl_line(#[trigger] lines[k]) is None) {
            assert(rest[i - 1] == lines[i]);
            assert(dscl_line(lines[0]) is None);
            assert forall|k: int| 0 <= k < i - 1 implies dscl_line(
                #[trigger] rest[k],
            ) is None by {
                assert(rest[k] == lines[k + 1]);
            }
        }
        if forall|k: int| 0 <= k < lines.len() ==> dscl_line(#[trigger] lines[k]) is None {
            assert(dscl_line(lines[0]) is None);
            assert forall|k: int| 0 <= k < rest.len() implies dscl_line(
                #[trigger] rest[k],
            ) is None by {
                assert(rest[k] == lines[k + 1]);
            }
        }
    }
}

/// The directory of a file is what stands before its name.
pub proof fn a_file_is_in_its_directory(dir: Seq<char>, name: Seq<char>)
    requires
        dir.len() > 0,
        dir.last() != '/',
        !(dir.len() >= 2 && dir.last() == '.' && dir[dir.len() - 2] == '/'),
        name.len() > 0,
        !name.contains('/'),
        name != seq!['.'],
    ensures
        parent(dir + seq!['/'] + name) == Some(dir),
        parent(seq!['/'] + name) == Some(seq!['/']),
        parent(name) == Some(Seq::<char>::empty()),
{
    reveal_strlit("/");
    let s = dir + seq!['/'] + name;
    let t = seq!['/'] + name;
    assert(name.contains(name.last()));
    assert(s.last() == name.last());
    assert(t.last() == name.last());
    if name.len() == 1 {
        assert(name.last() != '.') by {
            if name.last() == '.' {
                assert(name =~= seq!['.']);
            }
        }
    } else {
        assert(name.contains(name[name.len() - 2]));
        assert(s[s.len() - 2] == name[name.len() - 2]);
        assert(t[t.len() - 2] == name[name.len() - 2]);
    }
    assert(without_tail(s) == s);
    assert(without_tail(t) == t);
    assert(without_tail(name) == name);
    behind_the_name(dir + seq!['/'], name);
    behind_the_name(seq!['/'], name);
    behind_the_name(Seq::empty(), name);
    assert(Seq::<char>::empty() + name =~= name);
    assert(s.take(dir.len() as int + 1) =~= dir.push('/'));
    assert(t.take(1) =~= seq!['/']);
    assert(name.take(0) =~= Seq::<char>::empty());
    assert(dir.push('/').drop_last() =~= dir);
    assert(without_tail(dir) == dir);
    assert(t[1] == name[0]);
    assert(s != "/"@ && t != "/"@);
    assert(name != "/"@) by {
        if name == "/"@ {
            assert(name[0] == '/');
            assert(name.contains(name[0]));
        }
    }
}

proof fn behind_the_name(front: Seq<char>, name: Seq<char>)
    requires
        front.len() == 0 || front.last() == '/',
        !name.contains('/'),
    ensures
        behind_last_slash(front + name) == front.len(),
    decreases name.len(),
{
    if name.len() > 0 {
        assert((front + name).drop_last() =~= front + name.drop_last());
        assert(name.contains(name.last()));
        assert(!name.drop_last().contains('/')) by {
            if name.drop_last().contains('/') {
                let k = choose|k: int|
                    0 <= k < name.drop_last().len() && name.drop_last()[k] == '/';
                assert(name[k] == '/');
            }
        }
        behind_the_name(front, name.drop_last());
    } else {
        assert(front + name =~= front);
    }
}

/// Each mode has its label.
pub proof fn modes_have_labels(m: Mode)
    ensures
        m == Mode::Host ==> m.spec_label() == "宿主机"@,
        m == Mode::Guest ==> m.spec_label() == "客机"@,
{
}

/// Below a verbatim path every name gets its separator, and empty ones are left
/// out.
pub proof fn names_go_below_a_path(base: Seq<char>, names: Seq<Seq<char>>, name: Seq<char>)
    ensures
        below(base, Seq::empty()) == base,
        name.len() > 0 ==> below(base, names.push(name)) == below(base, names) + seq!['\\'] + name,
        name.len() == 0 ==> below(base, names.push(name)) == below(base, names),
{
    assert(names.push(name).drop_last() =~= names);
    assert(below(base, names).push('\\') + name =~= below(base, names) + seq!['\\'] + name);
}

/// An owner is known where its number is.
pub proof fn an_owner_is_a_number(v: Option<Seq<char>>)
    ensures
        v is None ==> id_of(v) is None,
        v matches Some(s) ==> id_of(v) == text::number_upto(s, 0xffff_ffff),
{
}

} // verus!
