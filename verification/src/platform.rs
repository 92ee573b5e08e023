//! Per-OS configuration of the tunnel interface: the commands that it runs and
//! what they print.
//!
//! Every configurator drives external tools through the [`CommandRunner`]
//! trait so the exact command sequences can be tested with a recording fake
//! (see [`RecordingRunner`]).

use crate::frame::TunnelConfig;
use crate::guest::RouteMode;
use crate::net::Ipv4Addr;
use crate::text;
use vstd::prelude::*;
use vstd::string::StringExecFns;

verus! {

// What commands print.

/// The interface that a line of `route -n get default` names.
pub open spec fn macos_route_line(line: Seq<char>) -> Option<Seq<char>> {
    match text::without_prefix(text::trimmed(line), "interface:"@) {
        Some(rest) => if text::trimmed(rest).len() > 0 {
            Some(text::trimmed(rest))
        } else {
            None
        },
        None => None,
    }
}

/// The first interface that lines of `route -n get default` name.
pub open spec fn macos_route(lines: Seq<Seq<char>>) -> Option<Seq<char>>
    decreases lines.len(),
{
    if lines.len() == 0 {
        None
    } else if macos_route_line(lines[0]) is Some {
        macos_route_line(lines[0])
    } else {
        macos_route(lines.skip(1))
    }
}

/// The contents of a string that may be missing.
pub open spec fn opt_view(s: Option<String>) -> Option<Seq<char>> {
    match s {
        Some(t) => Some(t@),
        None => None,
    }
}

/// Extract `interface: enN` from `route -n get default`.
pub fn parse_macos_default_route(content: &str) -> (r: Option<String>)
    ensures
        opt_view(r) == macos_route(text::lines_of(content@)),
{
    let c = text::chars(content);
    let lines = text::lines(c.as_slice());
    let ghost all = text::texts(lines@);
    let mut i: usize = 0;
    assert(all.skip(0) =~= all);
    while i < lines.len()
        invariant
            all == text::texts(lines@),
            all == text::lines_of(content@),
            i <= lines@.len(),
            macos_route(all) == macos_route(all.skip(i as int)),
        decreases lines@.len() - i,
    {
        let ghost rest = all.skip(i as int);
        assert(rest[0] == lines@[i as int]@);
        if let Some(v) = text::strip_prefix(text::trim(lines[i]), "interface:") {
            let name = text::trim(v);
            if name.len() > 0 {
                return Some(text::string(name));
            }
        }
        assert(rest.skip(1) =~= all.skip(i + 1));
        i = i + 1;
    }
    assert(all.skip(i as int) =~= Seq::<Seq<char>>::empty());
    None
}

/// The word after the first `dev`.
pub open spec fn after_dev(words: Seq<Seq<char>>) -> Option<Seq<char>>
    decreases words.len(),
{
    if words.len() == 0 {
        None
    } else if words[0] == "dev"@ {
        if words.len() > 1 {
            Some(words[1])
        } else {
            None
        }
    } else {
        after_dev(words.skip(1))
    }
}

/// Extract `dev <name>` from `ip route show default`.
pub fn parse_linux_default_route(content: &str) -> (r: Option<String>)
    ensures
        opt_view(r) == after_dev(text::words_of(content@)),
{
    let c = text::chars(content);
    let words = text::words(c.as_slice());
    let ghost all = text::texts(words@);
    let mut i: usize = 0;
    assert(all.skip(0) =~= all);
    while i < words.len()
        invariant
            all == text::texts(words@),
            all == text::words_of(content@),
            i <= words@.len(),
            after_dev(all) == after_dev(all.skip(i as int)),
        decreases words@.len() - i,
    {
        let ghost rest = all.skip(i as int);
        assert(rest[0] == words@[i as int]@);
        if text::is(words[i], "dev") {
            if i + 1 < words.len() {
                assert(rest[1] == words@[i + 1]@);
                return Some(text::string(words[i + 1]));
            }
            return None;
        }
        assert(rest.skip(1) =~= all.skip(i + 1));
        i = i + 1;
    }
    assert(all.skip(i as int) =~= Seq::<Seq<char>>::empty());
    None
}

/// Whether `inet` is followed by the address in some words. The word after an
/// `inet` is taken with it, so it is not itself looked at as an `inet`.
pub open spec fn has_inet(words: Seq<Seq<char>>, ip: Seq<char>) -> bool
    decreases words.len(),
{
    if words.len() == 0 {
        false
    } else if words[0] == "inet"@ {
        if words.len() > 1 {
            words[1] == ip || has_inet(words.skip(2), ip)
        } else {
            false
        }
    } else {
        has_inet(words.skip(1), ip)
    }
}

/// Does `ifconfig <tun>` output show `inet <ip>` assigned?
pub fn ifconfig_has_inet(output: &str, ip: Ipv4Addr) -> (r: bool)
    ensures
        r == has_inet(text::words_of(output@), ip.spec_text()),
{
    let want = ip.text();
    let c = text::chars(output);
    let words = text::words(c.as_slice());
    let ghost all = text::texts(words@);
    let mut i: usize = 0;
    assert(all.skip(0) =~= all);
    while i < words.len()
        invariant
            all == text::texts(words@),
            all == text::words_of(output@),
            i <= words@.len(),
            want@ == ip.spec_text(),
            has_inet(all, want@) == has_inet(all.skip(i as int), want@),
        decreases words@.len() - i,
    {
        let ghost rest = all.skip(i as int);
        assert(rest[0] == words@[i as int]@);
        if text::is(words[i], "inet") {
            if words.len() - i < 2 {
                return false;
            }
            assert(rest[1] == words@[i + 1]@);
            if text::is(words[i + 1], want.as_str()) {
                return true;
            }
            assert(rest.skip(2) =~= all.skip(i + 2));
            i = i + 2;
        } else {
            assert(rest.skip(1) =~= all.skip(i + 1));
            i = i + 1;
        }
    }
    assert(all.skip(i as int) =~= Seq::<Seq<char>>::empty());
    false
}

/// The address number of the netmask of a prefix: ones in front, zeros behind.
pub open spec fn netmask_number(prefix_len: nat) -> nat {
    (0x1_0000_0000 - crate::cidr::block_size(prefix_len)) as nat
}

/// The netmask of a prefix.
pub open spec fn netmask(prefix_len: nat) -> Ipv4Addr {
    crate::cidr::address_of(netmask_number(prefix_len))
}

/// Dotted-quad netmask for an IPv4 prefix length.
pub fn prefix_to_netmask(prefix_len: u8) -> (r: Ipv4Addr)
    ensures
        r == netmask(prefix_len as nat),
        crate::cidr::address_number(r) == netmask_number(prefix_len as nat),
{
    let mut size: u64 = 1;
    let mut p: u8 = 32;
    assert(1u64 << 0u64 == 1) by (bit_vector);
    while p > prefix_len
        invariant
            p <= 32,
            prefix_len > 32 ==> p == 32,
            prefix_len <= 32 ==> prefix_len <= p,
            size == crate::cidr::block_size(p as nat),
            size == 1u64 << ((32 - p) as u64),
        decreases p,
    {
        proof {
            let k = (32 - p) as u64;
            assert(k < 32 ==> 2 * (1u64 << k) == 1u64 << ((k + 1) as u64)) by (bit_vector);
            assert(k < 32 ==> 1u64 << k <= 0x8000_0000) by (bit_vector);
        }
        p = p - 1;
        size = size * 2;
    }
    proof {
        let k = (32 - p) as u64;
        assert(k <= 32 ==> 1u64 << k <= 0x1_0000_0000) by (bit_vector);
        assert(k <= 32 ==> 1u64 << k >= 1) by (bit_vector);
        if prefix_len >= 32 {
            assert(crate::cidr::block_size(prefix_len as nat) == 1);
        }
    }
    let n: u64 = 0x1_0000_0000 - size;
    let a: u64 = n / 0x100_0000;
    let b: u64 = n / 0x1_0000 % 256;
    let c: u64 = n / 0x100 % 256;
    let d: u64 = n % 256;
    proof {
        assert(n < 0x1_0000_0000);
        assert(a < 256);
        assert(((a * 256 + b) * 256 + c) * 256 + d == n);
    }
    Ipv4Addr(a as u8, b as u8, c as u8, d as u8)
}

// Operating systems.

/// A kind of operating system, as far as the guest tells them apart.
#[derive(Clone, Copy, Debug, PartialEq, Eq, Structural)]
pub enum Os {
    MacOs,
    Linux,
    OtherUnix,
    Windows,
}

/// Whether the guest needs root/administrator privileges on this OS: it does on
/// every one, to create the TUN device and to change routes.
pub fn requires_root(os: Os) -> (r: bool)
    ensures
        r,
{
    match os {
        Os::MacOs | Os::Linux | Os::OtherUnix | Os::Windows => true,
    }
}

/// What a guest without the privileges that it needs is told.
pub fn check_privileges(os: Os, is_root: bool) -> (r: Result<(), String>)
    ensures
        r is Ok <==> is_root,
        r matches Err(e) ==> e@
            == "netm guest needs root privileges to create the TUN device and change routes; re-run with `sudo`"@,
{
    if requires_root(os) && !is_root {
        return Err(
            "netm guest needs root privileges to create the TUN device and change routes; re-run with `sudo`".to_owned(),
        );
    }
    Ok(())
}

/// The words of the command that shows the default route, if it can be asked
/// for.
pub fn default_route_command(os: Os) -> (r: Option<Vec<&'static str>>)
    ensures
        match os {
            Os::MacOs => r matches Some(c) && args_view(c@) == seq![
                "route"@,
                "-n"@,
                "get"@,
                "default"@,
            ],
            Os::Linux => r matches Some(c) && args_view(c@) == seq![
                "ip"@,
                "-4"@,
                "route"@,
                "show"@,
                "default"@,
            ],
            _ => r is None,
        },
{
    let mut c: Vec<&'static str> = Vec::new();
    match os {
        Os::MacOs => {
            c.push("route");
            c.push("-n");
            c.push("get");
            c.push("default");
            assert(args_view(c@) =~= seq!["route"@, "-n"@, "get"@, "default"@]);
            Some(c)
        },
        Os::Linux => {
            c.push("ip");
            c.push("-4");
            c.push("route");
            c.push("show");
            c.push("default");
            assert(args_view(c@) =~= seq!["ip"@, "-4"@, "route"@, "show"@, "default"@]);
            Some(c)
        },
        _ => None,
    }
}

/// The interface that a default route goes through.
pub open spec fn egress(os: Os, output: Option<Seq<char>>) -> Option<Seq<char>> {
    match (os, output) {
        (Os::MacOs, Some(out)) => macos_route(text::lines_of(out)),
        (Os::Linux, Some(out)) => after_dev(text::words_of(out)),
        _ => None,
    }
}

/// Name of the interface the system's default route points at, i.e. where
/// traffic goes when no tunnel is up (`en0` for Wi-Fi on a MacBook), from what
/// the command of [`default_route_command`] printed.
///
/// Used to tell the user in plain words where their traffic went after the
/// tunnel was torn down. `None` when it cannot be determined, in which case
/// callers must not claim anything specific.
pub fn default_egress_interface(os: Os, output: Option<&str>) -> (r: Option<String>)
    ensures
        opt_view(r) == egress(os, str_view(output)),
{
    match (os, output) {
        (Os::MacOs, Some(out)) => parse_macos_default_route(out),
        (Os::Linux, Some(out)) => parse_linux_default_route(out),
        _ => None,
    }
}

// Running commands.

/// Output of an external command run through [`CommandRunner`].
#[derive(Clone, Debug, PartialEq, Eq)]
pub struct CommandOutput {
    pub success: bool,
    pub stdout: String,
    pub stderr: String,
}

impl Default for CommandOutput {
    fn default() -> (r: Self)
        ensures
            !r.success,
            r.stdout@ == Seq::<char>::empty(),
            r.stderr@ == Seq::<char>::empty(),
    {
        CommandOutput { success: false, stdout: String::new(), stderr: String::new() }
    }
}

/// A command: a program, its arguments and what it is fed.
pub struct CmdView {
    pub program: Seq<char>,
    pub args: Seq<Seq<char>>,
    pub stdin: Option<Seq<char>>,
}

/// What came of a command: it could not be executed, or it ended.
pub enum OutView {
    Failed(Seq<char>),
    Ended { success: bool, stdout: Seq<char>, stderr: Seq<char> },
}

/// The contents of some arguments.
pub open spec fn args_view(args: Seq<&str>) -> Seq<Seq<char>> {
    args.map_values(|s: &str| s@)
}

/// The contents of a string slice that may be missing.
pub open spec fn str_view(s: Option<&str>) -> Option<Seq<char>> {
    match s {
        Some(t) => Some(t@),
        None => None,
    }
}

/// What came of a command.
pub open spec fn out_view(r: Result<CommandOutput, String>) -> OutView {
    match r {
        Ok(o) => OutView::Ended { success: o.success, stdout: o.stdout@, stderr: o.stderr@ },
        Err(e) => OutView::Failed(e@),
    }
}

/// Runs an external command. Abstracted so tests can assert the exact
/// command lines without touching the system.
pub trait CommandRunner: Sized {
    /// The commands that were run, oldest first, and what came of them.
    spec fn history(&self) -> Seq<(CmdView, OutView)>;

    /// What may come of a command.
    spec fn answers(&self) -> spec_fn(CmdView, OutView) -> bool;

    /// Run `program` with `args`, feeding `stdin` (if any) to the process. The
    /// error says why it could not be executed.
    fn run(&mut self, program: &str, args: &[&str], stdin: Option<&str>) -> (r: Result<
        CommandOutput,
        String,
    >)
        ensures
            final(self).history() == old(self).history().push(
                (
                    CmdView {
                        program: program@,
                        args: args_view(args@),
                        stdin: str_view(stdin),
                    },
                    out_view(r),
                ),
            ),
            (old(self).answers())(
                CmdView { program: program@, args: args_view(args@), stdin: str_view(stdin) },
                out_view(r),
            ),
            final(self).answers() == old(self).answers(),
    ;
}

/// Executes a program on this machine. Whatever may come of it is an answer.
pub trait Execute: Sized {
    /// Execute `program` with `args`, feeding `stdin` (if any) to the process.
    /// The error says why it could not be executed.
    fn execute(&mut self, program: &str, args: &[&str], stdin: Option<&str>) -> Result<
        CommandOutput,
        String,
    >;
}

/// [`CommandRunner`] backed by the machine's own programs.
pub struct SystemRunner<E: Execute> {
    machine: E,
    log: Ghost<Seq<(CmdView, OutView)>>,
}

impl<E: Execute> SystemRunner<E> {
    /// A runner that has run nothing.
    pub fn new(machine: E) -> (r: Self)
        ensures
            r.history() == Seq::<(CmdView, OutView)>::empty(),
    {
        SystemRunner { machine, log: Ghost(Seq::empty()) }
    }
}

impl<E: Execute> CommandRunner for SystemRunner<E> {
    closed spec fn history(&self) -> Seq<(CmdView, OutView)> {
        self.log@
    }

    open spec fn answers(&self) -> spec_fn(CmdView, OutView) -> bool {
        |c: CmdView, o: OutView| true
    }

    fn run(&mut self, program: &str, args: &[&str], stdin: Option<&str>) -> (r: Result<
        CommandOutput,
        String,
    >) {
        let r = self.machine.execute(program, args, stdin);
        proof {
            self.log@ = self.log@.push(
                (
                    CmdView { program: program@, args: args_view(args@), stdin: str_view(stdin) },
                    out_view(r),
                ),
            );
        }
        r
    }
}

/// Applies and reverts the OS-level network configuration for a tunnel.
///
/// `apply` must be followed by exactly one `revert` (a second `revert` is a
/// no-op).
pub trait PlatformConfigurator: Sized {
    /// Configure `tun_name` with `cfg`, install the routes selected by
    /// `routes` and (when `set_dns`) point the system resolver at `cfg.dns`.
    fn apply(
        &mut self,
        tun_name: &str,
        cfg: &TunnelConfig,
        routes: &RouteMode,
        set_dns: bool,
    ) -> (r: Result<(), String>)
        requires
            routes.wf(),
    ;

    /// Undo everything `apply` did, in reverse order. The remaining steps
    /// still run when one fails; the first error is returned.
    fn revert(&mut self) -> (r: Result<(), String>);
}

/// Guests on Linux are not supported.
#[derive(Debug)]
pub struct LinuxConfigurator;

impl PlatformConfigurator for LinuxConfigurator {
    fn apply(&mut self, tun_name: &str, cfg: &TunnelConfig, routes: &RouteMode, set_dns: bool) -> (r:
        Result<(), String>)
        ensures
            r matches Err(e) && e@ == "Linux guest is not yet supported"@,
    {
        Err("Linux guest is not yet supported".to_owned())
    }

    fn revert(&mut self) -> (r: Result<(), String>)
        ensures
            r is Ok,
    {
        Ok(())
    }
}

/// Guests on Windows are not supported.
#[derive(Debug)]
pub struct WindowsConfigurator;

impl PlatformConfigurator for WindowsConfigurator {
    fn apply(&mut self, tun_name: &str, cfg: &TunnelConfig, routes: &RouteMode, set_dns: bool) -> (r:
        Result<(), String>)
        ensures
            r matches Err(e) && e@ == "Windows guest is not yet supported"@,
    {
        Err("Windows guest is not yet supported".to_owned())
    }

    fn revert(&mut self) -> (r: Result<(), String>)
        ensures
            r is Ok,
    {
        Ok(())
    }
}

/// Configurator used on platforms without an implementation.
#[derive(Debug)]
pub struct Unsupported;

impl PlatformConfigurator for Unsupported {
    fn apply(&mut self, tun_name: &str, cfg: &TunnelConfig, routes: &RouteMode, set_dns: bool) -> (r:
        Result<(), String>)
        ensures
            r matches Err(e) && e@ == "this platform is not yet supported"@,
    {
        Err("this platform is not yet supported".to_owned())
    }

    fn revert(&mut self) -> (r: Result<(), String>)
        ensures
            r is Ok,
    {
        Ok(())
    }
}

/// One recorded invocation (see [`RecordingRunner`]).
#[derive(Clone, Debug, PartialEq, Eq)]
pub struct RecordedCommand {
    pub program: String,
    pub args: Vec<String>,
    pub stdin: Option<String>,
}

/// The contents of some strings.
pub open spec fn strings_view(v: Seq<String>) -> Seq<Seq<char>> {
    v.map_values(|s: String| s@)
}

impl View for RecordedCommand {
    type V = CmdView;

    open spec fn view(&self) -> CmdView {
        CmdView {
            program: self.program@,
            args: strings_view(self.args@),
            stdin: opt_view(self.stdin),
        }
    }
}

/// A program followed by its arguments, space separated.
pub open spec fn command_line(program: Seq<char>, args: Seq<Seq<char>>) -> Seq<char>
    decreases args.len(),
{
    if args.len() == 0 {
        program
    } else {
        command_line(program, args.drop_last()).push(' ') + args.last()
    }
}

impl RecordedCommand {
    /// `program` followed by its arguments, space separated (for assertions).
    pub fn argv(&self) -> (r: String)
        ensures
            r@ == command_line(self@.program, self@.args),
    {
        let mut s = self.program.clone();
        let ghost all = strings_view(self.args@);
        let mut i: usize = 0;
        assert(all.take(0) =~= Seq::<Seq<char>>::empty());
        while i < self.args.len()
            invariant
                all == strings_view(self.args@),
                i <= self.args@.len(),
                s@ == command_line(self.program@, all.take(i as int)),
            decreases self.args@.len() - i,
        {
            s.push(' ');
            s.append(self.args[i].as_str());
            proof {
                assert(all.take(i + 1).drop_last() =~= all.take(i as int));
                assert(all.take(i + 1).last() == self.args@[i as int]@);
            }
            i = i + 1;
        }
        assert(all.take(i as int) =~= all);
        s
    }

    /// The same command once more.
    pub fn copy(&self) -> (r: Self)
        ensures
            r@ == self@,
    {
        let mut args: Vec<String> = Vec::new();
        let mut i: usize = 0;
        while i < self.args.len()
            invariant
                i <= self.args@.len(),
                args@ == self.args@.take(i as int),
            decreases self.args@.len() - i,
        {
            args.push(self.args[i].clone());
            assert(self.args@.take(i + 1) =~= self.args@.take(i as int).push(
                self.args@[i as int],
            ));
            i = i + 1;
        }
        assert(self.args@.take(i as int) =~= self.args@);
        RecordedCommand {
            program: self.program.clone(),
            args,
            stdin: match &self.stdin {
                Some(t) => Some(t.clone()),
                None => None,
            },
        }
    }
}

/// A [`CommandRunner`] that records every invocation and answers from a
/// scripted table.
#[derive(Debug)]
pub struct RecordingRunner {
    pub log: Vec<RecordedCommand>,
    /// `(program, first arg)` → canned response. Anything not listed
    /// succeeds with empty output.
    pub responses: Vec<((String, String), CommandOutput)>,
    /// `argv()` prefixes that should fail.
    pub failing: Vec<String>,
}

impl Default for RecordingRunner {
    fn default() -> (r: Self)
        ensures
            r.log@ == Seq::<RecordedCommand>::empty(),
            r.responses@ == Seq::<((String, String), CommandOutput)>::empty(),
            r.failing@ == Seq::<String>::empty(),
    {
        RecordingRunner { log: Vec::new(), responses: Vec::new(), failing: Vec::new() }
    }
}

/// A command line begins with one of those that should fail.
pub open spec fn must_fail(failing: Seq<String>, argv: Seq<char>) -> bool {
    exists|i: int| 0 <= i < failing.len() && text::begins(argv, (#[trigger] failing[i])@)
}

/// The first argument, or nothing.
pub open spec fn first_arg(args: Seq<Seq<char>>) -> Seq<char> {
    if args.len() > 0 {
        args[0]
    } else {
        Seq::empty()
    }
}

/// The first canned response for a program and its first argument, or success
/// without output.
pub open spec fn canned(
    responses: Seq<((String, String), CommandOutput)>,
    program: Seq<char>,
    first: Seq<char>,
) -> OutView
    decreases responses.len(),
{
    if responses.len() == 0 {
        OutView::Ended { success: true, stdout: Seq::empty(), stderr: Seq::empty() }
    } else if responses[0].0.0@ == program && responses[0].0.1@ == first {
        OutView::Ended {
            success: responses[0].1.success,
            stdout: responses[0].1.stdout@,
            stderr: responses[0].1.stderr@,
        }
    } else {
        canned(responses.skip(1), program, first)
    }
}

impl RecordingRunner {
    /// The answer to a command.
    pub open spec fn scripted(&self, c: CmdView) -> OutView {
        if must_fail(self.failing@, command_line(c.program, c.args)) {
            OutView::Ended {
                success: false,
                stdout: Seq::empty(),
                stderr: "simulated failure"@,
            }
        } else {
            canned(self.responses@, c.program, first_arg(c.args))
        }
    }

    /// The commands recorded so far.
    pub open spec fn commands(&self) -> Seq<CmdView> {
        self.log@.map_values(|c: RecordedCommand| c@)
    }

    /// Snapshot of everything recorded so far.
    pub fn recorded(&self) -> (r: Vec<RecordedCommand>)
        ensures
            r@.map_values(|c: RecordedCommand| c@) == self.commands(),
    {
        let mut out: Vec<RecordedCommand> = Vec::new();
        let mut i: usize = 0;
        while i < self.log.len()
            invariant
                i <= self.log@.len(),
                out@.len() == i,
                forall|k: int| 0 <= k < i ==> (#[trigger] out@[k])@ == self.log@[k]@,
            decreases self.log@.len() - i,
        {
            out.push(self.log[i].copy());
            i = i + 1;
        }
        assert(out@.map_values(|c: RecordedCommand| c@) =~= self.commands());
        out
    }

    fn find_response(&self, program: &str, first: &str) -> (r: CommandOutput)
        ensures
            out_view(Ok(r)) == canned(self.responses@, program@, first@),
    {
        let mut i: usize = 0;
        assert(self.responses@.skip(0) =~= self.responses@);
        while i < self.responses.len()
            invariant
                i <= self.responses@.len(),
                canned(self.responses@, program@, first@) == canned(
                    self.responses@.skip(i as int),
                    program@,
                    first@,
                ),
            decreases self.responses@.len() - i,
        {
            let ghost rest = self.responses@.skip(i as int);
            assert(rest[0] == self.responses@[i as int]);
            let entry = &self.responses[i];
            if text::same(entry.0.0.as_str(), program) && text::same(entry.0.1.as_str(), first) {
                return CommandOutput {
                    success: entry.1.success,
                    stdout: entry.1.stdout.clone(),
                    stderr: entry.1.stderr.clone(),
                };
            }
            assert(rest.skip(1) =~= self.responses@.skip(i + 1));
            i = i + 1;
        }
        let out = CommandOutput { success: true, stdout: String::new(), stderr: String::new() };
        assert(out.stdout@ =~= Seq::<char>::empty());
        out
    }

    fn is_failing(&self, argv: &str) -> (r: bool)
        ensures
            r == must_fail(self.failing@, argv@),
    {
        let line = text::chars(argv);
        let mut i: usize = 0;
        while i < self.failing.len()
            invariant
                line@ == argv@,
                i <= self.failing@.len(),
                forall|k: int|
                    0 <= k < i ==> !text::begins(argv@, (#[trigger] self.failing@[k])@),
            decreases self.failing@.len() - i,
        {
            if text::begins_with(line.as_slice(), self.failing[i].as_str()) {
                return true;
            }
            i = i + 1;
        }
        false
    }
}

impl CommandRunner for RecordingRunner {
    open spec fn history(&self) -> Seq<(CmdView, OutView)> {
        self.commands().map_values(|c: CmdView| (c, self.scripted(c)))
    }

    /// Only what the script says.
    open spec fn answers(&self) -> spec_fn(CmdView, OutView) -> bool {
        |c: CmdView, o: OutView| o == self.scripted(c)
    }

    /// Records the command and answers from the script.
    fn run(&mut self, program: &str, args: &[&str], stdin: Option<&str>) -> (r: Result<
        CommandOutput,
        String,
    >)
        ensures
            r is Ok,
            out_view(r) == old(self).scripted(
                CmdView { program: program@, args: args_view(args@), stdin: str_view(stdin) },
            ),
            final(self).commands() == old(self).commands().push(
                CmdView { program: program@, args: args_view(args@), stdin: str_view(stdin) },
            ),
            final(self).responses == old(self).responses,
            final(self).failing == old(self).failing,
    {
        let ghost c = CmdView {
            program: program@,
            args: args_view(args@),
            stdin: str_view(stdin),
        };
        let ghost before = *self;
        let mut list: Vec<String> = Vec::new();
        let mut i: usize = 0;
        while i < args.len()
            invariant
                i <= args@.len(),
                list@.len() == i,
                forall|k: int| 0 <= k < i ==> (#[trigger] list@[k])@ == args@[k]@,
            decreases args@.len() - i,
        {
            list.push(args[i].to_owned());
            i = i + 1;
        }
        assert(strings_view(list@) =~= args_view(args@));
        let rec = RecordedCommand {
            program: program.to_owned(),
            args: list,
            stdin: match stdin {
                Some(t) => Some(t.to_owned()),
                None => None,
            },
        };
        assert(rec@ == c);
        let argv = rec.argv();
        self.log.push(rec);
        proof {
            assert(self.commands() =~= before.commands().push(c));
            assert forall|x: CmdView| self.scripted(x) == before.scripted(x) by {}
        }
        let answer = if self.is_failing(argv.as_str()) {
            CommandOutput {
                success: false,
                stdout: String::new(),
                stderr: "simulated failure".to_owned(),
            }
        } else {
            let first = if args.len() > 0 {
                args[0].to_owned()
            } else {
                String::new()
            };
            assert(first@ =~= first_arg(c.args));
            self.find_response(program, first.as_str())
        };
        proof {
            assert(out_view(Ok(answer)) == before.scripted(c));
            assert(self.history() =~= before.history().push((c, out_view(Ok(answer)))));
            assert(self.answers() =~= before.answers());
        }
        Ok(answer)
    }
}

// What the outputs say.

/// The interface of the default route is what the first `interface:` line with
/// a name says.
pub proof fn the_first_interface_line_counts(lines: Seq<Seq<char>>, i: int, name: Seq<char>)
    ensures
        0 <= i < lines.len() && macos_route_line(lines[i]) is Some && (forall|k: int|
            0 <= k < i ==> macos_route_line(#[trigger] lines[k]) is None) ==> macos_route(lines)
            == macos_route_line(lines[i]),
        (forall|k: int| 0 <= k < lines.len() ==> macos_route_line(#[trigger] lines[k]) is None)
            ==> macos_route(lines) is None,
        0 <= i < lines.len() && text::trimmed(lines[i]) == "interface:"@ + name && text::trimmed(
            name,
        ).len() > 0 ==> macos_route_line(lines[i]) == Some(text::trimmed(name)),
        0 <= i < lines.len() && !text::begins(text::trimmed(lines[i]), "interface:"@)
            ==> macos_route_line(lines[i]) is None,
    decreases lines.len(),
{
    if 0 <= i < lines.len() {
        text::a_prefix_comes_off("interface:"@, name, text::trimmed(lines[i]));
    }
    if lines.len() > 0 {
        let rest = lines.skip(1);
        the_first_interface_line_counts(rest, i - 1, name);
        if 0 < i < lines.len() && (forall|k: int|
            0 <= k < i ==> macos_route_line(#[trigger] lines[k]) is None) {
            assert(rest[i - 1] == lines[i]);
            assert(macos_route_line(lines[0]) is None);
            assert forall|k: int| 0 <= k < i - 1 implies macos_route_line(
                #[trigger] rest[k],
            ) is None by {
                assert(rest[k] == lines[k + 1]);
            }
        }
        if forall|k: int| 0 <= k < lines.len() ==> macos_route_line(#[trigger] lines[k]) is None {
            assert(macos_route_line(lines[0]) is None);
            assert forall|k: int| 0 <= k < rest.len() implies macos_route_line(
                #[trigger] rest[k],
            ) is None by {
                assert(rest[k] == lines[k + 1]);
            }
        }
    }
}

/// The interface of a route is the word behind the first `dev`.
pub proof fn the_device_stands_behind_dev(
    before: Seq<Seq<char>>,
    device: Seq<char>,
    behind: Seq<Seq<char>>,
)
    requires
        !before.contains("dev"@),
    ensures
        after_dev(before + seq!["dev"@, device] + behind) == Some(device),
        after_dev(before) is None,
        after_dev(before.push("dev"@)) is None,
    decreases before.len(),
{
    let all = before + seq!["dev"@, device] + behind;
    if before.len() == 0 {
        assert(all[0] == "dev"@ && all[1] == device);
        assert(before.push("dev"@)[0] == "dev"@);
    } else {
        let rest = before.skip(1);
        assert(before.contains(before[0]));
        assert(!rest.contains("dev"@)) by {
            if rest.contains("dev"@) {
                let k = choose|k: int| 0 <= k < rest.len() && rest[k] == "dev"@;
                assert(before[k + 1] == "dev"@);
            }
        }
        the_device_stands_behind_dev(rest, device, behind);
        assert(all.skip(1) =~= rest + seq!["dev"@, device] + behind);
        assert(all[0] == before[0]);
        assert(before.push("dev"@).skip(1) =~= rest.push("dev"@));
        assert(before.push("dev"@)[0] == before[0]);
    }
}

/// An interface has an address when the address is the word behind an `inet`.
pub proof fn an_address_stands_behind_inet(
    before: Seq<Seq<char>>,
    ip: Seq<char>,
    other: Seq<char>,
    behind: Seq<Seq<char>>,
)
    requires
        !before.contains("inet"@),
        other != ip,
    ensures
        !has_inet(before, ip),
        has_inet(before + seq!["inet"@, ip] + behind, ip),
        has_inet(before + seq!["inet"@, other] + behind, ip) == has_inet(behind, ip),
    decreases before.len(),
{
    let all = before + seq!["inet"@, ip] + behind;
    let not = before + seq!["inet"@, other] + behind;
    if before.len() == 0 {
        assert(all[0] == "inet"@ && all[1] == ip);
        assert(not[0] == "inet"@ && not[1] == other);
        assert(not.skip(2) =~= behind);
    } else {
        let rest = before.skip(1);
        assert(before.contains(before[0]));
        assert(!rest.contains("inet"@)) by {
            if rest.contains("inet"@) {
                let k = choose|k: int| 0 <= k < rest.len() && rest[k] == "inet"@;
                assert(before[k + 1] == "inet"@);
            }
        }
        an_address_stands_behind_inet(rest, ip, other, behind);
        assert(all.skip(1) =~= rest + seq!["inet"@, ip] + behind);
        assert(all[0] == before[0]);
        assert(not.skip(1) =~= rest + seq!["inet"@, other] + behind);
        assert(not[0] == before[0]);
    }
}

/// The mask of a prefix and the size of its block make up the whole range.
pub proof fn a_mask_leaves_the_block(prefix_len: nat)
    requires
        prefix_len <= 32,
    ensures
        netmask_number(prefix_len) + crate::cidr::block_size(prefix_len) == 0x1_0000_0000,
        crate::cidr::address_number(netmask(prefix_len)) == netmask_number(prefix_len),
        prefix_len == 32 ==> netmask(prefix_len) == Ipv4Addr(255, 255, 255, 255),
{
    block_fits(prefix_len);
}

proof fn block_fits(prefix_len: nat)
    requires
        prefix_len <= 32,
    ensures
        0 < crate::cidr::block_size(prefix_len) <= 0x1_0000_0000,
{
    assert(crate::cidr::block_size(0) == 0x1_0000_0000) by {
        reveal_with_fuel(crate::cidr::block_size, 34);
    }
    larger_blocks(0, prefix_len);
}

proof fn larger_blocks(a: nat, b: nat)
    requires
        a <= b <= 32,
    ensures
        0 < crate::cidr::block_size(b) <= crate::cidr::block_size(a),
    decreases 32 - a,
{
    if a < b {
        larger_blocks(a + 1, b);
    } else if b < 32 {
        larger_blocks(b + 1, b + 1);
    }
}

/// The egress is read from the output of the system's own command, and is not
/// known on other systems or without an output.
pub proof fn where_the_egress_is_read(os: Os, output: Option<Seq<char>>)
    ensures
        output is None ==> egress(os, output) is None,
        os == Os::Windows || os == Os::OtherUnix ==> egress(os, output) is None,
        output matches Some(out) ==> {
            &&& os == Os::MacOs ==> egress(os, output) == macos_route(text::lines_of(out))
            &&& os == Os::Linux ==> egress(os, output) == after_dev(text::words_of(out))
        },
{
}

/// A command line is the program and its arguments with spaces between them.
pub proof fn words_make_a_command_line(program: Seq<char>, args: Seq<Seq<char>>, w: Seq<char>)
    ensures
        command_line(program, Seq::empty()) == program,
        command_line(program, args.push(w)) == command_line(program, args) + seq![' '] + w,
{
    assert(args.push(w).drop_last() =~= args);
    assert(command_line(program, args).push(' ') + w =~= command_line(program, args) + seq![' ']
        + w);
}

/// A recorded command answers as it was set up to: it fails where a failure was
/// set up for how it begins, else gives the first answer for its program and
/// first argument, and else succeeds without output.
pub proof fn a_recorder_answers_as_set_up(
    runner: RecordingRunner,
    c: CmdView,
    i: int,
)
    ensures
        0 <= i < runner.failing@.len() && text::begins(
            command_line(c.program, c.args),
            runner.failing@[i]@,
        ) ==> (runner.scripted(c) matches OutView::Ended { success, .. } && !success),
        runner.failing@.len() == 0 && runner.responses@.len() == 0 ==> runner.scripted(c) == (
        OutView::Ended { success: true, stdout: Seq::empty(), stderr: Seq::empty() }),
        runner.failing@.len() == 0 && runner.responses@.len() > 0 && runner.responses@[0].0.0@
            == c.program && runner.responses@[0].0.1@ == first_arg(c.args) ==> runner.scripted(c)
            == (OutView::Ended {
            success: runner.responses@[0].1.success,
            stdout: runner.responses@[0].1.stdout@,
            stderr: runner.responses@[0].1.stderr@,
        }),
{
}

/// Texts and outputs are taken as what they hold.
pub proof fn texts_are_what_they_hold(
    s: Option<String>,
    t: Option<&str>,
    v: Seq<String>,
    o: CommandOutput,
    e: String,
    i: int,
)
    ensures
        s matches Some(x) ==> opt_view(s) == Some(x@),
        s is None ==> opt_view(s) is None,
        t matches Some(x) ==> str_view(t) == Some(x@),
        t is None ==> str_view(t) is None,
        strings_view(v).len() == v.len(),
        0 <= i < v.len() ==> strings_view(v)[i] == v[i]@,
        out_view(Ok(o)) == (OutView::Ended {
            success: o.success,
            stdout: o.stdout@,
            stderr: o.stderr@,
        }),
        out_view(Err(e)) == OutView::Failed(e@),
{
}

/// A command is the program, its arguments and its input.
pub proof fn a_command_is_all_its_parts(c: RecordedCommand)
    ensures
        c@.program == c.program@,
        c@.args == strings_view(c.args@),
        c@.stdin == opt_view(c.stdin),
{
}

} // verus!
