//! macOS: `ifconfig` / `route` / `scutil` driven configuration of a `utunN`
//! interface.
//!
//! Commands issued by [`MacosConfigurator::apply`] (in order):
//!
//! 1. `scutil` (stdin) removing a stale `State:/Network/Service/netm/{DNS,IPv4}`
//!    left behind by a crashed run.
//! 2. `ifconfig utunN` to check whether the TUN device already has the address;
//!    if not: `ifconfig utunN inet <guest> <gateway> netmask <mask> mtu <mtu> up`.
//! 3. `route -n add -net <cidr> -interface utunN` for every route
//!    (`0.0.0.0/1` and `128.0.0.0/1` in [`RouteMode::Full`], the given
//!    prefixes in [`RouteMode::Custom`]). A route that already exists is
//!    deleted and re-added once.
//! 4. When DNS is requested: `scutil` (stdin) creating
//!    `State:/Network/Service/netm/DNS` (`ServerAddresses`,
//!    `SupplementalMatchDomains ""`) and `State:/Network/Service/netm/IPv4`
//!    (`InterfaceName`, `Addresses`, `Router`), then `scutil --dns` to see
//!    whether the resolver shows up: [`MacosConfigurator::resolver`] says what
//!    was seen.
//!
//! [`MacosConfigurator::revert`] undoes the steps in reverse order: the
//! `scutil` keys are removed first, then `route -n delete -net <cidr>
//! -interface utunN` for each route (last added first). The utun address
//! disappears with the device itself when the tun fd is closed.

use crate::cidr::Ipv4Net;
use crate::frame::TunnelConfig;
use crate::guest::RouteMode;
use crate::net::Ipv4Addr;
use crate::platform::{
    self, ifconfig_has_inet, prefix_to_netmask, CmdView, CommandOutput, CommandRunner, OutView,
    PlatformConfigurator,
};
use crate::text;
use vstd::prelude::*;
use vstd::string::StringExecFns;

verus! {

/// A command and what came of it.
pub type Entry = (CmdView, OutView);

// Scripts and command lines.

/// Key of the tunnel's DNS state.
pub open spec fn dns_key_text() -> Seq<char> {
    "State:/Network/Service/netm/DNS"@
}

/// Key of the tunnel's IPv4 state.
pub open spec fn ipv4_key_text() -> Seq<char> {
    "State:/Network/Service/netm/IPv4"@
}

/// Key of the tunnel's DNS state.
pub fn dns_key() -> (r: String)
    ensures
        r@ == dns_key_text(),
{
    "State:/Network/Service/netm/DNS".to_owned()
}

/// Key of the tunnel's IPv4 state.
pub fn ipv4_key() -> (r: String)
    ensures
        r@ == ipv4_key_text(),
{
    "State:/Network/Service/netm/IPv4".to_owned()
}

/// `scutil` script that removes the netm service keys.
pub open spec fn remove_script() -> Seq<char> {
    "remove "@ + dns_key_text() + "\nremove "@ + ipv4_key_text() + "\nquit\n"@
}

/// `scutil` script that removes the netm service keys.
pub fn scutil_remove_script() -> (r: String)
    ensures
        r@ == remove_script(),
{
    let mut s = text::cat3("remove ", dns_key().as_str(), "\nremove ");
    s.append(ipv4_key().as_str());
    s.append("\nquit\n");
    s
}

/// `scutil` script that publishes the tunnel resolver and IPv4 state.
pub open spec fn set_script(tun: Seq<char>, cfg: TunnelConfig) -> Seq<char> {
    "d.init\nd.add ServerAddresses * "@ + cfg.dns.spec_text()
        + "\nd.add SupplementalMatchDomains * \"\"\nset "@ + dns_key_text()
        + "\nd.init\nd.add InterfaceName "@ + tun + "\nd.add Addresses * "@
        + cfg.guest_ip.spec_text() + "\nd.add Router "@ + cfg.gateway_ip.spec_text() + "\nset "@
        + ipv4_key_text() + "\nquit\n"@
}

/// `scutil` script that publishes the tunnel resolver and IPv4 state.
pub fn scutil_set_script(tun_name: &str, cfg: &TunnelConfig) -> (r: String)
    ensures
        r@ == set_script(tun_name@, *cfg),
{
    let mut s = text::cat3(
        "d.init\nd.add ServerAddresses * ",
        cfg.dns.text().as_str(),
        "\nd.add SupplementalMatchDomains * \"\"\nset ",
    );
    s.append(dns_key().as_str());
    s.append("\nd.init\nd.add InterfaceName ");
    s.append(tun_name);
    s.append("\nd.add Addresses * ");
    s.append(cfg.guest_ip.text().as_str());
    s.append("\nd.add Router ");
    s.append(cfg.gateway_ip.text().as_str());
    s.append("\nset ");
    s.append(ipv4_key().as_str());
    s.append("\nquit\n");
    s
}

/// Routes (CIDR strings) to install.
pub open spec fn cidrs(routes: RouteMode) -> Seq<Seq<char>> {
    match routes {
        RouteMode::Full => seq!["0.0.0.0/1"@, "128.0.0.0/1"@],
        RouteMode::Custom(nets) => nets@.map_values(|n: Ipv4Net| n.spec_trunc().spec_text()),
    }
}

/// Routes (CIDR strings) to install for `routes`. Bits behind a prefix are cut
/// off.
pub fn route_cidrs(routes: &RouteMode) -> (r: Vec<String>)
    requires
        routes.wf(),
    ensures
        platform::strings_view(r@) == cidrs(*routes),
{
    let mut out: Vec<String> = Vec::new();
    match routes {
        RouteMode::Full => {
            out.push("0.0.0.0/1".to_owned());
            out.push("128.0.0.0/1".to_owned());
            assert(platform::strings_view(out@) =~= cidrs(*routes));
        },
        RouteMode::Custom(nets) => {
            let mut i: usize = 0;
            while i < nets.len()
                invariant
                    i <= nets@.len(),
                    forall|k: int| 0 <= k < nets@.len() ==> (#[trigger] nets@[k]).wf(),
                    out@.len() == i,
                    forall|k: int|
                        0 <= k < i ==> (#[trigger] out@[k])@ == nets@[k].spec_trunc().spec_text(),
                decreases nets@.len() - i,
            {
                out.push(nets[i].trunc().text());
                i = i + 1;
            }
            assert(platform::strings_view(out@) =~= cidrs(*routes));
        },
    }
    out
}

/// `scutil` fed with a script.
pub open spec fn scutil_cmd(script: Seq<char>) -> CmdView {
    CmdView { program: "scutil"@, args: Seq::empty(), stdin: Some(script) }
}

/// `scutil --dns`.
pub open spec fn scutil_dns_cmd() -> CmdView {
    CmdView { program: "scutil"@, args: seq!["--dns"@], stdin: None }
}

/// `ifconfig <tun>`.
pub open spec fn ifconfig_cmd(tun: Seq<char>) -> CmdView {
    CmdView { program: "ifconfig"@, args: seq![tun], stdin: None }
}

/// `ifconfig <tun> inet <guest> <gateway> netmask <mask> mtu <mtu> up`, for a
/// given mask.
pub open spec fn assign_cmd(tun: Seq<char>, cfg: TunnelConfig, mask: Ipv4Addr) -> CmdView {
    CmdView {
        program: "ifconfig"@,
        args: seq![
            tun,
            "inet"@,
            cfg.guest_ip.spec_text(),
            cfg.gateway_ip.spec_text(),
            "netmask"@,
            mask.spec_text(),
            "mtu"@,
            text::dec(cfg.mtu as nat),
            "up"@,
        ],
        stdin: None,
    }
}

/// The mask of the tunnel's subnet.
pub open spec fn mask_of(cfg: TunnelConfig) -> Ipv4Addr {
    platform::netmask(cfg.prefix_len as nat)
}

/// `route -n add -net <cidr> -interface <tun>`.
pub open spec fn add_cmd(cidr: Seq<char>, tun: Seq<char>) -> CmdView {
    CmdView {
        program: "route"@,
        args: seq!["-n"@, "add"@, "-net"@, cidr, "-interface"@, tun],
        stdin: None,
    }
}

/// `route -n delete -net <cidr> -interface <tun>`.
pub open spec fn delete_cmd(cidr: Seq<char>, tun: Seq<char>) -> CmdView {
    CmdView {
        program: "route"@,
        args: seq!["-n"@, "delete"@, "-net"@, cidr, "-interface"@, tun],
        stdin: None,
    }
}

// What came of commands.

/// Words with spaces between them.
pub open spec fn spaced(words: Seq<Seq<char>>) -> Seq<char>
    decreases words.len(),
{
    if words.len() == 0 {
        Seq::empty()
    } else if words.len() == 1 {
        words[0]
    } else {
        spaced(words.drop_last()).push(' ') + words.last()
    }
}

/// The error of a command that has to succeed, if it did not.
pub open spec fn failure(e: Entry) -> Option<Seq<char>> {
    match e.1 {
        OutView::Failed(cause) => Some(
            "failed to execute `"@ + e.0.program + "`: "@ + cause,
        ),
        OutView::Ended { success, stdout, stderr } => if success {
            None
        } else {
            Some(
                "`"@ + e.0.program + " "@ + spaced(e.0.args) + "` failed: "@ + text::trimmed(
                    stderr,
                ),
            )
        },
    }
}

/// An error with what was being done in front.
pub open spec fn within(doing: Seq<char>, error: Option<Seq<char>>) -> Option<Seq<char>> {
    match error {
        Some(e) => Some(doing + ": "@ + e),
        None => None,
    }
}

/// A run of commands: an error at its end, if any, and how many commands it is.
pub struct Part {
    pub error: Option<Seq<char>>,
    pub len: nat,
    /// The commands are the right ones.
    pub ok: bool,
}

/// The device already has the address.
pub open spec fn has_address(o: OutView, cfg: TunnelConfig) -> bool {
    o matches OutView::Ended { success, stdout, .. } && success && platform::has_inet(
        text::words_of(stdout),
        cfg.guest_ip.spec_text(),
    )
}

/// Making sure that the device has its address.
pub open spec fn address_part(t: Seq<Entry>, tun: Seq<char>, cfg: TunnelConfig) -> Part {
    if has_address(t[0].1, cfg) {
        Part { error: None, len: 1, ok: t[0].0 == ifconfig_cmd(tun) }
    } else {
        Part {
            error: within("assigning tunnel address"@, failure(t[1])),
            len: 2,
            ok: t[0].0 == ifconfig_cmd(tun) && t[1].0 == assign_cmd(tun, cfg, mask_of(cfg)),
        }
    }
}

/// The route is there already.
pub open spec fn says_exists(o: OutView) -> bool {
    o matches OutView::Ended { success, stderr, .. } && !success && text::holds(
        stderr,
        "exists"@,
    )
}

/// Adding one route; one that exists is replaced.
pub open spec fn route_part(t: Seq<Entry>, cidr: Seq<char>, tun: Seq<char>) -> Part {
    if says_exists(t[0].1) {
        Part {
            error: failure(t[2]),
            len: 3,
            ok: t[0].0 == add_cmd(cidr, tun) && t[1].0 == delete_cmd(cidr, tun) && t[2].0
                == add_cmd(cidr, tun),
        }
    } else {
        Part {
            error: match t[0].1 {
                OutView::Failed(cause) => Some("executing `route`: "@ + cause),
                OutView::Ended { success, stdout, stderr } => if success {
                    None
                } else {
                    Some(
                        "`route -n add -net "@ + cidr + " -interface "@ + tun + "` failed: "@
                            + text::trimmed(stderr),
                    )
                },
            },
            len: 1,
            ok: t[0].0 == add_cmd(cidr, tun),
        }
    }
}

/// Adding routes one after another, up to the first that fails; and how many
/// were added.
pub open spec fn routes_part(t: Seq<Entry>, list: Seq<Seq<char>>, tun: Seq<char>) -> (Part, nat)
    decreases list.len(),
{
    if list.len() == 0 {
        (Part { error: None, len: 0, ok: true }, 0)
    } else {
        let first = route_part(t, list[0], tun);
        if first.error is Some {
            (first, 0)
        } else {
            let (rest, added) = routes_part(t.skip(first.len as int), list.skip(1), tun);
            (
                Part { error: rest.error, len: first.len + rest.len, ok: first.ok && rest.ok },
                added + 1,
            )
        }
    }
}

/// Publishing the resolver, and a look at whether it shows up.
pub open spec fn dns_part(t: Seq<Entry>, tun: Seq<char>, cfg: TunnelConfig) -> Part {
    let error = within("publishing DNS via scutil"@, failure(t[0]));
    if error is Some {
        Part { error, len: 1, ok: t[0].0 == scutil_cmd(set_script(tun, cfg)) }
    } else {
        Part {
            error: None,
            len: 2,
            ok: t[0].0 == scutil_cmd(set_script(tun, cfg)) && t[1].0 == scutil_dns_cmd(),
        }
    }
}

// A look at the resolver.

/// What `scutil --dns` says of the tunnel resolver.
#[derive(Debug, PartialEq, Eq)]
pub enum Resolver {
    /// It shows up.
    Visible,
    /// It does not: DNS may still use the old servers.
    Hidden,
    /// The command could not be run, and why.
    Unknown(String),
}

/// The same with its string as characters.
pub enum ResolverView {
    Visible,
    Hidden,
    Unknown(Seq<char>),
}

impl View for Resolver {
    type V = ResolverView;

    open spec fn view(&self) -> ResolverView {
        match *self {
            Resolver::Visible => ResolverView::Visible,
            Resolver::Hidden => ResolverView::Hidden,
            Resolver::Unknown(e) => ResolverView::Unknown(e@),
        }
    }
}

/// What came of `scutil --dns` says of a resolver: whether the command
/// succeeded does not matter, only what it printed.
pub open spec fn seen(o: OutView, dns: Ipv4Addr) -> ResolverView {
    match o {
        OutView::Failed(cause) => ResolverView::Unknown(cause),
        OutView::Ended { stdout, .. } => if text::holds(stdout, dns.spec_text()) {
            ResolverView::Visible
        } else {
            ResolverView::Hidden
        },
    }
}

/// Whether the tunnel resolver `dns` shows up in what came of `scutil --dns`.
pub fn resolver_seen(answer: Result<CommandOutput, String>, dns: Ipv4Addr) -> (r: Resolver)
    ensures
        r@ == seen(platform::out_view(answer), dns),
{
    match answer {
        Err(cause) => Resolver::Unknown(cause),
        Ok(o) => {
            let out = text::chars(o.stdout.as_str());
            let want = dns.text();
            if text::contains(out.as_slice(), want.as_str()) {
                Resolver::Visible
            } else {
                Resolver::Hidden
            }
        },
    }
}

/// What was seen, if anything was looked at.
pub open spec fn look_view(r: Option<Resolver>) -> Option<ResolverView> {
    match r {
        Some(x) => Some(x@),
        None => None,
    }
}

// Undoing.

/// A step that has been taken and has to be undone.
#[derive(Debug)]
pub enum Undo {
    Route { cidr: String, tun: String },
    Dns,
}

/// Such a step with its strings as characters.
pub enum UndoView {
    Route { cidr: Seq<char>, tun: Seq<char> },
    Dns,
}

impl View for Undo {
    type V = UndoView;

    open spec fn view(&self) -> UndoView {
        match *self {
            Undo::Route { cidr, tun } => UndoView::Route { cidr: cidr@, tun: tun@ },
            Undo::Dns => UndoView::Dns,
        }
    }
}

/// The command that undoes a step.
pub open spec fn undo_cmd(u: UndoView) -> CmdView {
    match u {
        UndoView::Route { cidr, tun } => delete_cmd(cidr, tun),
        UndoView::Dns => scutil_cmd(remove_script()),
    }
}

/// Steps as characters.
pub open spec fn undo_views(v: Seq<Undo>) -> Seq<UndoView> {
    v.map_values(|u: Undo| u@)
}

/// The first error among commands that have to succeed.
pub open spec fn first_failure(t: Seq<Entry>) -> Option<Seq<char>>
    decreases t.len(),
{
    if t.len() == 0 {
        None
    } else if first_failure(t.drop_last()) is Some {
        first_failure(t.drop_last())
    } else {
        failure(t.last())
    }
}

/// `t` undoes the steps `u`, the last first.
pub open spec fn undoes(t: Seq<Entry>, u: Seq<UndoView>) -> bool {
    &&& t.len() == u.len()
    &&& forall|k: int| 0 <= k < t.len() ==> (#[trigger] t[k]).0 == undo_cmd(u[u.len() - 1 - k])
}

/// The steps after `added` routes of a list.
pub open spec fn route_undos(list: Seq<Seq<char>>, tun: Seq<char>, added: nat) -> Seq<UndoView> {
    Seq::new(added, |i: int| UndoView::Route { cidr: list[i], tun })
}

/// What a configuration comes to: its error, the steps to undo, what was seen
/// of the resolver, and whether `t` is the right run of commands for it.
pub struct Applied {
    pub error: Option<Seq<char>>,
    pub undo: Seq<UndoView>,
    pub look: Option<ResolverView>,
    pub ok: bool,
}

/// What `t` comes to as the commands of a configuration: the stale keys are
/// removed whatever comes of it, then address, routes and resolver, up to the
/// first error.
pub open spec fn applied(
    t: Seq<Entry>,
    tun: Seq<char>,
    cfg: TunnelConfig,
    list: Seq<Seq<char>>,
    set_dns: bool,
) -> Applied {
    let stale = t[0].0 == scutil_cmd(remove_script());
    let t1 = t.skip(1);
    let a = address_part(t1, tun, cfg);
    if a.error is Some {
        Applied {
            error: a.error,
            undo: Seq::empty(),
            look: None,
            ok: stale && a.ok && t.len() == 1 + a.len,
        }
    } else {
        let t2 = t1.skip(a.len as int);
        let (r, added) = routes_part(t2, list, tun);
        let undo = route_undos(list, tun, added);
        if r.error is Some || !set_dns {
            Applied {
                error: r.error,
                undo,
                look: None,
                ok: stale && a.ok && r.ok && t.len() == 1 + a.len + r.len,
            }
        } else {
            let t3 = t2.skip(r.len as int);
            let d = dns_part(t3, tun, cfg);
            Applied {
                error: d.error,
                undo: if d.error is Some {
                    undo
                } else {
                    undo.push(UndoView::Dns)
                },
                look: if d.error is Some {
                    None
                } else {
                    Some(seen(t3[1].1, cfg.dns))
                },
                ok: stale && a.ok && r.ok && d.ok && t.len() == 1 + a.len + r.len + d.len,
            }
        }
    }
}

/// The error of a result.
pub open spec fn error_of(r: Result<(), String>) -> Option<Seq<char>> {
    match r {
        Ok(_) => None,
        Err(e) => Some(e@),
    }
}

/// Platform configurator for macOS. Generic over the [`CommandRunner`] so
/// the exact commands can be asserted in tests.
#[derive(Debug)]
pub struct MacosConfigurator<R: CommandRunner> {
    runner: R,
    undo: Vec<Undo>,
    reverted: bool,
    look: Option<Resolver>,
}

impl<R: CommandRunner> MacosConfigurator<R> {
    /// The commands that were run and what came of them.
    pub closed spec fn history(&self) -> Seq<Entry> {
        self.runner.history()
    }

    /// The steps that have to be undone, oldest first.
    pub closed spec fn pending(&self) -> Seq<UndoView> {
        undo_views(self.undo@)
    }

    /// What may come of a command.
    pub closed spec fn answers(&self) -> spec_fn(CmdView, OutView) -> bool {
        self.runner.answers()
    }

    /// What the last configuration saw of the resolver, if it looked.
    pub closed spec fn spec_resolver(&self) -> Option<ResolverView> {
        look_view(self.look)
    }

    /// Nothing is configured.
    pub closed spec fn is_reverted(&self) -> bool {
        self.reverted
    }

    /// The runner.
    pub closed spec fn spec_runner(&self) -> R {
        self.runner
    }

    /// A configurator that has configured nothing.
    pub fn new(runner: R) -> (r: Self)
        ensures
            r.history() == runner.history(),
            r.answers() == runner.answers(),
            r.spec_resolver() is None,
            r.pending() == Seq::<UndoView>::empty(),
            r.is_reverted(),
            r.spec_runner() == runner,
    {
        let undo: Vec<Undo> = Vec::new();
        assert(undo_views(undo@) =~= Seq::<UndoView>::empty());
        MacosConfigurator { runner, undo, reverted: true, look: None }
    }

    /// The runner, to see what was run.
    pub fn runner(&self) -> (r: &R)
        ensures
            *r == self.spec_runner(),
            r.history() == self.history(),
            r.answers() == self.answers(),
    {
        &self.runner
    }

    /// What the last configuration saw of the resolver; `None` if it did not
    /// look.
    pub fn resolver(&self) -> (r: &Option<Resolver>)
        ensures
            look_view(*r) == self.spec_resolver(),
    {
        &self.look
    }

    fn run_ok(&mut self, program: &str, args: &[&str], stdin: Option<&str>) -> (r: Result<
        String,
        String,
    >)
        ensures
            final(self).undo == old(self).undo,
            final(self).reverted == old(self).reverted,
            final(self).look == old(self).look,
            final(self).answers() == old(self).answers(),
            final(self).history().len() == old(self).history().len() + 1,
            final(self).history().drop_last() == old(self).history(),
            (old(self).answers())(
                final(self).history().last().0,
                final(self).history().last().1,
            ),
            final(self).history().last().0 == (CmdView {
                program: program@,
                args: platform::args_view(args@),
                stdin: platform::str_view(stdin),
            }),
            failure(final(self).history().last()) == (match r {
                Ok(_) => None,
                Err(e) => Some(e@),
            }),
    {
        let ghost before = self.runner.history();
        let out = self.runner.run(program, args, stdin);
        proof {
            assert(self.runner.history().drop_last() =~= before);
        }
        match out {
            Err(cause) => {
                let mut s = text::cat3("failed to execute `", program, "`: ");
                s.append(cause.as_str());
                Err(s)
            },
            Ok(o) => {
                if o.success {
                    return Ok(o.stdout);
                }
                let mut s = text::cat3("`", program, " ");
                s.append(join_words(args).as_str());
                s.append("` failed: ");
                let c = text::chars(o.stderr.as_str());
                s.append(text::string(text::trim(c.as_slice())).as_str());
                Err(s)
            },
        }
    }

    fn remove_stale_scutil(&mut self)
        ensures
            final(self).undo == old(self).undo,
            final(self).reverted == old(self).reverted,
            final(self).look == old(self).look,
            goes_on(*old(self), *final(self)),
            final(self).history().len() == old(self).history().len() + 1,
            final(self).history().drop_last() == old(self).history(),
            final(self).history().last().0 == scutil_cmd(remove_script()),
    {
        let ghost before = self.runner.history();
        let script = scutil_remove_script();
        let none: [&str; 0] = [];
        let _ = self.runner.run("scutil", none.as_slice(), Some(script.as_str()));
        proof {
            assert(platform::args_view(none@) =~= Seq::<Seq<char>>::empty());
            assert(self.runner.history().drop_last() =~= before);
            assert(before.take(before.len() as int) =~= before);
            one_more(before, before, self.history());
        }
    }

    fn ensure_address(&mut self, tun: &str, cfg: &TunnelConfig) -> (r: Result<(), String>)
        ensures
            final(self).undo == old(self).undo,
            final(self).reverted == old(self).reverted,
            final(self).look == old(self).look,
            goes_on(*old(self), *final(self)),
            ({
                let t = since(old(self).history(), final(self).history());
                let p = address_part(t, tun@, *cfg);
                p.ok && t.len() == p.len && p.error == error_of(r)
            }),
    {
        let ghost h0 = self.history();
        let query: [&str; 1] = [tun];
        proof {
            assert(platform::args_view(query@) =~= seq![tun@]);
        }
        let out = self.runner.run("ifconfig", query.as_slice(), None);
        let ghost h1 = self.history();
        let already: bool = match &out {
            Ok(o) => o.success && ifconfig_has_inet(o.stdout.as_str(), cfg.guest_ip),
            Err(_) => false,
        };
        proof {
            assert(h1.drop_last() =~= h0);
            assert(h0.take(h0.len() as int) =~= h0);
            one_more(h0, h0, h1);
        }
        if already {
            return Ok(());
        }
        let mask = prefix_to_netmask(cfg.prefix_len);
        let mask_text = mask.text();
        let guest = cfg.guest_ip.text();
        let gw = cfg.gateway_ip.text();
        let mtu = text::decimal(cfg.mtu as u64);
        let args: [&str; 9] = [
            tun,
            "inet",
            guest.as_str(),
            gw.as_str(),
            "netmask",
            mask_text.as_str(),
            "mtu",
            mtu.as_str(),
            "up",
        ];
        proof {
            assert(platform::args_view(args@) =~= assign_cmd(tun@, *cfg, mask).args);
        }
        let done = self.run_ok("ifconfig", args.as_slice(), None);
        proof {
            one_more(h0, h1, self.history());
        }
        match done {
            Ok(_) => Ok(()),
            Err(e) => Err(text::cat3("assigning tunnel address", ": ", e.as_str())),
        }
    }

    fn add_route(&mut self, cidr: &str, tun: &str) -> (r: Result<(), String>)
        ensures
            final(self).undo == old(self).undo,
            final(self).reverted == old(self).reverted,
            final(self).look == old(self).look,
            goes_on(*old(self), *final(self)),
            ({
                let t = since(old(self).history(), final(self).history());
                let p = route_part(t, cidr@, tun@);
                p.ok && t.len() == p.len && p.error == error_of(r)
            }),
    {
        let ghost h0 = self.history();
        let args: [&str; 6] = ["-n", "add", "-net", cidr, "-interface", tun];
        proof {
            assert(platform::args_view(args@) =~= add_cmd(cidr@, tun@).args);
        }
        let out = self.runner.run("route", args.as_slice(), None);
        let ghost h1 = self.history();
        proof {
            assert(h1.drop_last() =~= h0);
            assert(h0.take(h0.len() as int) =~= h0);
            one_more(h0, h0, h1);
        }
        let o = match out {
            Ok(o) => o,
            Err(cause) => {
                return Err(text::cat2("executing `route`: ", cause.as_str()));
            },
        };
        if o.success {
            return Ok(());
        }
        let err = text::chars(o.stderr.as_str());
        if text::contains(err.as_slice(), "exists") {
            // Stale route from a crashed run: replace it.
            let del: [&str; 6] = ["-n", "delete", "-net", cidr, "-interface", tun];
            proof {
                assert(platform::args_view(del@) =~= delete_cmd(cidr@, tun@).args);
            }
            let _ = self.runner.run("route", del.as_slice(), None);
            let ghost h2 = self.history();
            let again = self.run_ok("route", args.as_slice(), None);
            proof {
                assert(h2.drop_last() =~= h1);
                one_more(h0, h1, h2);
                one_more(h0, h2, self.history());
            }
            return match again {
                Ok(_) => Ok(()),
                Err(e) => Err(e),
            };
        }
        let mut s = text::cat3("`route -n add -net ", cidr, " -interface ");
        s.append(tun);
        s.append("` failed: ");
        s.append(text::string(text::trim(err.as_slice())).as_str());
        Err(s)
    }

    fn set_dns(&mut self, tun: &str, cfg: &TunnelConfig) -> (r: Result<(), String>)
        ensures
            final(self).reverted == old(self).reverted,
            goes_on(*old(self), *final(self)),
            ({
                let t = since(old(self).history(), final(self).history());
                let p = dns_part(t, tun@, *cfg);
                p.ok && t.len() == p.len && p.error == error_of(r)
            }),
            final(self).pending() == if r is Ok {
                old(self).pending().push(UndoView::Dns)
            } else {
                old(self).pending()
            },
            final(self).spec_resolver() == if r is Ok {
                Some(seen(since(old(self).history(), final(self).history())[1].1, cfg.dns))
            } else {
                old(self).spec_resolver()
            },
    {
        let ghost h0 = self.history();
        let ghost u0 = self.undo@;
        let script = scutil_set_script(tun, cfg);
        let none: [&str; 0] = [];
        proof {
            assert(platform::args_view(none@) =~= Seq::<Seq<char>>::empty());
        }
        let done = self.run_ok("scutil", none.as_slice(), Some(script.as_str()));
        let ghost h1 = self.history();
        proof {
            assert(h0.take(h0.len() as int) =~= h0);
            one_more(h0, h0, h1);
        }
        if let Err(e) = done {
            return Err(text::cat3("publishing DNS via scutil", ": ", e.as_str()));
        }
        self.undo.push(Undo::Dns);
        proof {
            assert(undo_views(self.undo@) =~= undo_views(u0).push(UndoView::Dns));
        }
        let look: [&str; 1] = ["--dns"];
        proof {
            assert(platform::args_view(look@) =~= seq!["--dns"@]);
        }
        let shown = self.runner.run("scutil", look.as_slice(), None);
        proof {
            assert(self.history().drop_last() =~= h1);
            one_more(h0, h1, self.history());
        }
        self.look = Some(resolver_seen(shown, cfg.dns));
        Ok(())
    }

    /// Add the routes of a list from `i` on, up to the first that fails.
    fn add_routes(&mut self, list: &Vec<String>, i: usize, tun: &str) -> (r: Result<(), String>)
        requires
            i <= list@.len(),
            undo_views(old(self).undo@) == route_undos(
                platform::strings_view(list@),
                tun@,
                i as nat,
            ),
        ensures
            final(self).reverted == old(self).reverted,
            final(self).look == old(self).look,
            goes_on(*old(self), *final(self)),
            ({
                let all = platform::strings_view(list@);
                let t = since(old(self).history(), final(self).history());
                let (p, added) = routes_part(t, all.skip(i as int), tun@);
                &&& p.ok
                &&& t.len() == p.len
                &&& p.error == error_of(r)
                &&& undo_views(final(self).undo@) == route_undos(all, tun@, i as nat + added)
            }),
        decreases list@.len() - i,
    {
        let ghost all = platform::strings_view(list@);
        let ghost h0 = self.history();
        if i == list.len() {
            assert(h0.take(h0.len() as int) =~= h0);
            return Ok(());
        }
        let ghost rest = all.skip(i as int);
        assert(rest[0] == list@[i as int]@);
        assert(rest.skip(1) =~= all.skip(i + 1));
        let done = self.add_route(list[i].as_str(), tun);
        let ghost h1 = self.history();
        if let Err(e) = done {
            return Err(e);
        }
        let ghost u0 = self.undo@;
        self.undo.push(Undo::Route { cidr: list[i].clone(), tun: tun.to_owned() });
        proof {
            assert(u0.len() == i) by {
                assert(undo_views(u0).len() == u0.len());
            }
            assert(self.undo@[i as int]@ == UndoView::Route { cidr: all[i as int], tun: tun@ });
            assert forall|k: int| 0 <= k < i + 1 implies undo_views(self.undo@)[k]
                == route_undos(all, tun@, (i + 1) as nat)[k] by {
                if k < i {
                    assert(self.undo@[k] == u0[k]);
                    assert(undo_views(u0)[k] == route_undos(all, tun@, i as nat)[k]);
                }
            }
            assert(undo_views(self.undo@) =~= route_undos(all, tun@, (i + 1) as nat));
        }
        let later = self.add_routes(list, i + 1, tun);
        proof {
            let h2 = self.history();
            one_after_another(h0, h1, h2);
            let t1 = since(h0, h1);
            let t2 = since(h1, h2);
            let first = route_part(t1, rest[0], tun@);
            assert(route_part(t1 + t2, rest[0], tun@) == first);
            assert((t1 + t2).skip(first.len as int) =~= t2);
        }
        later
    }

    /// Configure the tunnel interface, up to the first error.
    fn configure(
        &mut self,
        tun_name: &str,
        cfg: &TunnelConfig,
        routes: &RouteMode,
        set_dns: bool,
    ) -> (r: Result<(), String>)
        requires
            routes.wf(),
        ensures
            goes_on(*old(self), *final(self)),
            ({
                let t = since(old(self).history(), final(self).history());
                let a = applied(t, tun_name@, *cfg, cidrs(*routes), set_dns);
                &&& a.ok
                &&& error_of(r) == a.error
                &&& final(self).pending() == a.undo
                &&& final(self).spec_resolver() == a.look
                &&& !final(self).is_reverted()
            }),
    {
        let ghost h0 = self.history();
        self.undo.clear();
        self.reverted = false;
        self.look = None;

        self.remove_stale_scutil();
        let ghost h1 = self.history();
        let assigned = self.ensure_address(tun_name, cfg);
        let ghost h2 = self.history();
        let ghost te = seq![h1.last()];
        let ghost ta = since(h1, h2);
        proof {
            assert(h0.take(h0.len() as int) =~= h0);
            one_more(h0, h0, h1);
            assert(since(h0, h1) =~= te);
            one_after_another(h0, h1, h2);
            assert(undo_views(self.undo@) =~= Seq::<UndoView>::empty());
            assert((te + ta).skip(1) =~= ta);
        }
        if let Err(e) = assigned {
            return Err(e);
        }
        let list = route_cidrs(routes);
        let ghost all = cidrs(*routes);
        proof {
            assert(all.skip(0) =~= all);
            assert(undo_views(self.undo@) =~= route_undos(all, tun_name@, 0));
        }
        let routed = self.add_routes(&list, 0, tun_name);
        let ghost h3 = self.history();
        let ghost tr = since(h2, h3);
        proof {
            one_after_another(h0, h2, h3);
            assert((te + ta + tr).skip(1) =~= ta + tr);
            assert(address_part(ta + tr, tun_name@, *cfg) == address_part(ta, tun_name@, *cfg));
            assert((ta + tr).skip(ta.len() as int) =~= tr);
        }
        if let Err(e) = routed {
            return Err(e);
        }
        if set_dns {
            let named = self.set_dns(tun_name, cfg);
            proof {
                let h4 = self.history();
                let td = since(h3, h4);
                one_after_another(h0, h3, h4);
                let (rp, added) = routes_part(tr, all, tun_name@);
                assert((te + ta + tr + td).skip(1) =~= ta + (tr + td));
                assert(address_part(ta + (tr + td), tun_name@, *cfg) == address_part(
                    ta,
                    tun_name@,
                    *cfg,
                ));
                assert((ta + (tr + td)).skip(ta.len() as int) =~= tr + td);
                routes_end_where_they_end(tr, td, all, tun_name@);
                assert((tr + td).skip(rp.len as int) =~= td);
            }
            return named;
        }
        Ok(())
    }
}

impl<R: CommandRunner> PlatformConfigurator for MacosConfigurator<R> {
    /// Configure the tunnel interface: address, routes and, when asked for,
    /// the resolver. What an earlier call configured is undone first.
    fn apply(
        &mut self,
        tun_name: &str,
        cfg: &TunnelConfig,
        routes: &RouteMode,
        set_dns: bool,
    ) -> (r: Result<(), String>)
        ensures
            goes_on(*old(self), *final(self)),
            ({
                let t = since(old(self).history(), final(self).history());
                let n = if old(self).is_reverted() {
                    0
                } else {
                    old(self).pending().len()
                };
                let u = t.take(n as int);
                &&& n <= t.len()
                &&& !old(self).is_reverted() ==> undoes(u, old(self).pending())
                &&& if first_failure(u) is Some {
                    &&& t.len() == n
                    &&& error_of(r) == first_failure(u)
                    &&& final(self).spec_resolver() is None
                    &&& final(self).is_reverted()
                    &&& final(self).pending() == Seq::<UndoView>::empty()
                } else {
                    let a = applied(t.skip(n as int), tun_name@, *cfg, cidrs(*routes), set_dns);
                    &&& a.ok
                    &&& error_of(r) == a.error
                    &&& final(self).pending() == a.undo
                    &&& final(self).spec_resolver() == a.look
                    &&& !final(self).is_reverted()
                }
            }),
    {
        let ghost start = self.history();
        assert(start.take(start.len() as int) =~= start);
        assert(since(start, start) =~= Seq::<Entry>::empty());
        self.look = None;
        if !self.reverted {
            let undone = self.revert();
            if let Err(e) = undone {
                let ghost t = since(start, self.history());
                assert(t.take(t.len() as int) =~= t);
                return Err(e);
            }
        }
        let ghost h0 = self.history();
        let done = self.configure(tun_name, cfg, routes, set_dns);
        proof {
            let u = since(start, h0);
            let t = since(h0, self.history());
            one_after_another(start, h0, self.history());
            assert((u + t).take(u.len() as int) =~= u);
            assert((u + t).skip(u.len() as int) =~= t);
        }
        done
    }

    /// Undo everything that is configured, the last step first. Every step is
    /// tried; the first error is reported. Without a configuration nothing is
    /// done.
    fn revert(&mut self) -> (r: Result<(), String>)
        ensures
            goes_on(*old(self), *final(self)),
            final(self).is_reverted(),
            final(self).spec_resolver() == old(self).spec_resolver(),
            ({
                let t = since(old(self).history(), final(self).history());
                if old(self).is_reverted() {
                    &&& t.len() == 0
                    &&& r is Ok
                    &&& final(self).pending() == old(self).pending()
                } else {
                    &&& undoes(t, old(self).pending())
                    &&& error_of(r) == first_failure(t)
                    &&& final(self).pending() == Seq::<UndoView>::empty()
                }
            }),
    {
        let ghost h0 = self.history();
        let ghost u0 = self.pending();
        let ghost may = self.answers();
        let ghost look = self.look;
        assert(h0.take(h0.len() as int) =~= h0);
        if self.reverted {
            return Ok(());
        }
        self.reverted = true;
        let mut first_err: Option<String> = None;
        assert(since(h0, h0) =~= Seq::<Entry>::empty());
        assert(u0.take(u0.len() as int) =~= u0);
        while self.undo.len() > 0
            invariant
                self.reverted,
                self.look == look,
                self.answers() == may,
                answered(may, since(h0, self.history())),
                extends(h0, self.history()),
                self.undo@.len() <= u0.len(),
                undo_views(self.undo@) == u0.take(self.undo@.len() as int),
                since(h0, self.history()).len() == u0.len() - self.undo@.len(),
                forall|k: int|
                    0 <= k < since(h0, self.history()).len() ==> (#[trigger] since(
                        h0,
                        self.history(),
                    )[k]).0 == undo_cmd(u0[u0.len() - 1 - k]),
                platform::opt_view(first_err) == first_failure(since(h0, self.history())),
            decreases self.undo@.len(),
        {
            let ghost left = self.undo@;
            let ghost h = self.history();
            let step = self.undo.pop();
            if let Some(step) = step {
                proof {
                    assert(undo_views(left)[left.len() - 1] == step@);
                    assert(step@ == u0[left.len() - 1]);
                    assert(undo_views(self.undo@) =~= u0.take(self.undo@.len() as int)) by {
                        assert forall|k: int| 0 <= k < self.undo@.len() implies undo_views(
                            self.undo@,
                        )[k] == u0[k] by {
                            assert(undo_views(left)[k] == u0.take(left.len() as int)[k]);
                        }
                    }
                }
                let res = match &step {
                    Undo::Dns => {
                        let script = scutil_remove_script();
                        let none: [&str; 0] = [];
                        proof {
                            assert(platform::args_view(none@) =~= Seq::<Seq<char>>::empty());
                        }
                        self.run_ok("scutil", none.as_slice(), Some(script.as_str()))
                    },
                    Undo::Route { cidr, tun } => {
                        let del: [&str; 6] = [
                            "-n",
                            "delete",
                            "-net",
                            cidr.as_str(),
                            "-interface",
                            tun.as_str(),
                        ];
                        proof {
                            assert(platform::args_view(del@) =~= delete_cmd(cidr@, tun@).args);
                        }
                        self.run_ok("route", del.as_slice(), None)
                    },
                };
                proof {
                    one_more(h0, h, self.history());
                    let t = since(h0, self.history());
                    assert(t.drop_last() =~= since(h0, h));
                    assert(t.last().0 == undo_cmd(step@));
                }
                if first_err.is_none() {
                    if let Err(e) = res {
                        first_err = Some(e);
                    }
                }
            }
        }
        assert(undo_views(self.undo@) =~= Seq::<UndoView>::empty());
        match first_err {
            Some(e) => Err(e),
            None => Ok(()),
        }
    }
}

/// Adding routes looks at no command behind its own.
proof fn routes_end_where_they_end(
    t: Seq<Entry>,
    more: Seq<Entry>,
    list: Seq<Seq<char>>,
    tun: Seq<char>,
)
    requires
        routes_part(t, list, tun).0.len == t.len(),
    ensures
        routes_part(t + more, list, tun) == routes_part(t, list, tun),
    decreases list.len(),
{
    if list.len() > 0 {
        let first = route_part(t, list[0], tun);
        if says_exists(t[0].1) {
        }
        assert(first.len <= t.len());
        assert(route_part(t + more, list[0], tun) == first);
        if first.error is None {
            let n = first.len as int;
            assert((t + more).skip(n) =~= t.skip(n) + more);
            routes_end_where_they_end(t.skip(n), more, list.skip(1), tun);
        }
    }
}

/// `h` begins with `before`.
pub open spec fn extends(before: Seq<Entry>, h: Seq<Entry>) -> bool {
    before.len() <= h.len() && h.take(before.len() as int) == before
}

/// What `h` holds beyond `before`.
pub open spec fn since(before: Seq<Entry>, h: Seq<Entry>) -> Seq<Entry> {
    h.skip(before.len() as int)
}

/// Every command of a run was answered as it may be.
pub open spec fn answered(may: spec_fn(CmdView, OutView) -> bool, t: Seq<Entry>) -> bool {
    forall|k: int| 0 <= k < t.len() ==> may((#[trigger] t[k]).0, t[k].1)
}

/// `b` has run what `a` had run, and then some more, each command of it
/// answered as it may be. What may come of commands stays the same.
pub open spec fn goes_on<R: CommandRunner>(
    a: MacosConfigurator<R>,
    b: MacosConfigurator<R>,
) -> bool {
    &&& extends(a.history(), b.history())
    &&& answered(a.answers(), since(a.history(), b.history()))
    &&& b.answers() == a.answers()
}

/// A run of commands goes on with one more.
proof fn one_more(before: Seq<Entry>, h: Seq<Entry>, after: Seq<Entry>)
    requires
        extends(before, h),
        after.len() == h.len() + 1,
        after.drop_last() == h,
    ensures
        extends(before, after),
        since(before, after) == since(before, h).push(after.last()),
{
    assert forall|i: int| 0 <= i < h.len() implies after[i] == h[i] by {
        assert(after.drop_last()[i] == after[i]);
    }
    assert forall|i: int| 0 <= i < before.len() implies h[i] == before[i] by {
        assert(h.take(before.len() as int)[i] == h[i]);
    }
    assert(after.take(before.len() as int) =~= before);
    assert(since(before, after) =~= since(before, h).push(after.last()));
}

/// A run of commands goes on with another run.
proof fn one_after_another(before: Seq<Entry>, h: Seq<Entry>, after: Seq<Entry>)
    requires
        extends(before, h),
        extends(h, after),
    ensures
        extends(before, after),
        since(before, after) == since(before, h) + since(h, after),
{
    assert forall|i: int| 0 <= i < h.len() implies after[i] == h[i] by {
        assert(after.take(h.len() as int)[i] == after[i]);
    }
    assert forall|i: int| 0 <= i < before.len() implies h[i] == before[i] by {
        assert(h.take(before.len() as int)[i] == h[i]);
    }
    assert(after.take(before.len() as int) =~= before);
    assert(since(before, after) =~= since(before, h) + since(h, after));
}

fn join_words(args: &[&str]) -> (r: String)
    ensures
        r@ == spaced(platform::args_view(args@)),
{
    let ghost all = platform::args_view(args@);
    let mut out = String::new();
    let mut i: usize = 0;
    assert(all.take(0) =~= Seq::<Seq<char>>::empty());
    while i < args.len()
        invariant
            all == platform::args_view(args@),
            i <= args@.len(),
            out@ == spaced(all.take(i as int)),
        decreases args@.len() - i,
    {
        let ghost sofar = out@;
        assert(all.take(i + 1).drop_last() =~= all.take(i as int));
        assert(all.take(i + 1).last() == args@[i as int]@);
        if i > 0 {
            out.push(' ');
        }
        out.append(args[i]);
        proof {
            if i == 0 {
                assert(sofar + args@[0]@ =~= args@[0]@);
                assert(all.take(1)[0] == args@[0]@);
            }
        }
        i = i + 1;
    }
    assert(all.take(i as int) =~= all);
    out
}

/// Without an error every route of the list was added.
proof fn all_routes_are_added(t: Seq<Entry>, list: Seq<Seq<char>>, tun: Seq<char>)
    requires
        routes_part(t, list, tun).0.error is None,
    ensures
        routes_part(t, list, tun).1 == list.len(),
    decreases list.len(),
{
    if list.len() > 0 {
        let first = route_part(t, list[0], tun);
        all_routes_are_added(t.skip(first.len as int), list.skip(1), tun);
    }
}

/// Undoing mirrors configuring: after a configuration without an error, `t`,
/// the commands that undo it, `v`, take the resolver away first, if it was
/// published, and then delete every route, the last added first.
pub proof fn undoing_mirrors_configuring(
    t: Seq<Entry>,
    v: Seq<Entry>,
    tun: Seq<char>,
    cfg: TunnelConfig,
    list: Seq<Seq<char>>,
    set_dns: bool,
)
    requires
        applied(t, tun, cfg, list, set_dns).ok,
        applied(t, tun, cfg, list, set_dns).error is None,
        undoes(v, applied(t, tun, cfg, list, set_dns).undo),
    ensures
        set_dns ==> v.len() == list.len() + 1 && v[0].0 == scutil_cmd(remove_script()),
        !set_dns ==> v.len() == list.len(),
        forall|i: int|
            0 <= i < list.len() ==> (#[trigger] v[v.len() - 1 - i]).0 == delete_cmd(list[i], tun),
{
    let t1 = t.skip(1);
    let t2 = t1.skip(address_part(t1, tun, cfg).len as int);
    all_routes_are_added(t2, list, tun);
}

/// A configuration that stops early leaves to be undone just the routes that
/// it had added, in their order, and nothing else.
pub proof fn only_what_was_done_is_undone(
    t: Seq<Entry>,
    tun: Seq<char>,
    cfg: TunnelConfig,
    list: Seq<Seq<char>>,
    set_dns: bool,
)
    requires
        applied(t, tun, cfg, list, set_dns).error is Some,
    ensures
        exists|n: nat|
            n <= list.len() && applied(t, tun, cfg, list, set_dns).undo == #[trigger] route_undos(
                list,
                tun,
                n,
            ),
{
    let t1 = t.skip(1);
    let a = address_part(t1, tun, cfg);
    let t2 = t1.skip(a.len as int);
    let n = routes_part(t2, list, tun).1;
    added_are_of_the_list(t2, list, tun);
    if a.error is Some {
        assert(route_undos(list, tun, 0) =~= Seq::<UndoView>::empty());
    } else {
        assert(applied(t, tun, cfg, list, set_dns).undo == route_undos(list, tun, n));
    }
}

proof fn added_are_of_the_list(t: Seq<Entry>, list: Seq<Seq<char>>, tun: Seq<char>)
    ensures
        routes_part(t, list, tun).1 <= list.len(),
    decreases list.len(),
{
    if list.len() > 0 {
        let first = route_part(t, list[0], tun);
        added_are_of_the_list(t.skip(first.len as int), list.skip(1), tun);
    }
}

/// Every command succeeded and printed nothing.
pub open spec fn smooth(t: Seq<Entry>) -> bool {
    forall|k: int|
        0 <= k < t.len() ==> (#[trigger] t[k]).1 == (OutView::Ended {
            success: true,
            stdout: Seq::empty(),
            stderr: Seq::empty(),
        })
}

/// The commands of a configuration that meets no obstacle.
pub open spec fn whole_run(
    tun: Seq<char>,
    cfg: TunnelConfig,
    list: Seq<Seq<char>>,
    set_dns: bool,
) -> Seq<CmdView> {
    seq![
        scutil_cmd(remove_script()),
        ifconfig_cmd(tun),
        assign_cmd(tun, cfg, mask_of(cfg)),
    ] + list.map_values(|cidr: Seq<char>| add_cmd(cidr, tun)) + if set_dns {
        seq![scutil_cmd(set_script(tun, cfg)), scutil_dns_cmd()]
    } else {
        Seq::empty()
    }
}

/// Where every command succeeds and prints nothing, a configuration succeeds
/// too, and its commands are these: the stale keys are removed, the address is
/// looked for and assigned, every route is added in its order, and the resolver
/// is published and looked for when that was asked for.
pub proof fn a_smooth_run_is_whole(
    t: Seq<Entry>,
    tun: Seq<char>,
    cfg: TunnelConfig,
    list: Seq<Seq<char>>,
    set_dns: bool,
)
    requires
        applied(t, tun, cfg, list, set_dns).ok,
        smooth(t),
    ensures
        applied(t, tun, cfg, list, set_dns).error is None,
        t.map_values(|e: Entry| e.0) == whole_run(tun, cfg, list, set_dns),
{
    let t1 = t.skip(1);
    let a = address_part(t1, tun, cfg);
    assert(t1.len() >= a.len);
    smooth_after(t, 1);
    smooth_address(t1, tun, cfg);
    let t2 = t1.skip(2);
    smooth_after(t1, 2);
    let (r, added) = routes_part(t2, list, tun);
    assert(r.len <= t2.len());
    smooth_routes(t2, list, tun);
    let n = list.len() as int;
    let t3 = t2.skip(n);
    smooth_after(t2, n);
    if set_dns {
        assert(t3.len() > 0);
        assert(t3[0].1 is Ended);
        assert(t3.len() == 2);
    } else {
        assert(t3.len() == 0);
    }
    let whole = whole_run(tun, cfg, list, set_dns);
    let ran = t.map_values(|e: Entry| e.0);
    assert(whole.len() == t.len());
    assert forall|k: int| 0 <= k < t.len() implies ran[k] == whole[k] by {
        if k == 0 {
        } else if k < 3 {
            assert(t1[k - 1] == t[k]);
        } else if k < 3 + n {
            assert(t2[k - 3] == t[k]);
        } else {
            assert(t3[k - 3 - n] == t[k]);
        }
    }
    assert(ran =~= whole);
}

/// What follows in a run where every command succeeds is such a run.
proof fn smooth_after(t: Seq<Entry>, n: int)
    requires
        smooth(t),
        0 <= n <= t.len(),
    ensures
        smooth(t.skip(n)),
{
    assert forall|k: int| 0 <= k < t.skip(n).len() implies (#[trigger] t.skip(n)[k]).1 == (
    OutView::Ended { success: true, stdout: Seq::empty(), stderr: Seq::empty() }) by {
        assert(t.skip(n)[k] == t[k + n]);
    }
}

/// Where every command succeeds and prints nothing, the address is assigned.
proof fn smooth_address(t: Seq<Entry>, tun: Seq<char>, cfg: TunnelConfig)
    requires
        smooth(t),
        address_part(t, tun, cfg).len <= t.len(),
    ensures
        address_part(t, tun, cfg).error is None,
        address_part(t, tun, cfg).len == 2,
{
    assert(text::words_of(Seq::<char>::empty()) =~= Seq::<Seq<char>>::empty());
    assert(t.len() > 0);
    assert(t[0].1 is Ended);
    assert(!has_address(t[0].1, cfg));
    assert(t[1].1 is Ended);
}

/// Where every command succeeds, each route takes one.
proof fn smooth_routes(t: Seq<Entry>, list: Seq<Seq<char>>, tun: Seq<char>)
    requires
        smooth(t),
        routes_part(t, list, tun).0.len <= t.len(),
    ensures
        routes_part(t, list, tun).0.error is None,
        routes_part(t, list, tun).0.len == list.len(),
        routes_part(t, list, tun).0.ok ==> forall|i: int|
            0 <= i < list.len() ==> (#[trigger] t[i]).0 == add_cmd(list[i], tun),
    decreases list.len(),
{
    if list.len() > 0 {
        let first = route_part(t, list[0], tun);
        assert(t.len() > 0);
        assert(t[0].1 is Ended);
        let rest = t.skip(1);
        smooth_after(t, 1);
        smooth_routes(rest, list.skip(1), tun);
        if routes_part(t, list, tun).0.ok {
            assert forall|i: int| 0 <= i < list.len() implies (#[trigger] t[i]).0 == add_cmd(
                list[i],
                tun,
            ) by {
                if i > 0 {
                    assert(rest[i - 1] == t[i]);
                    assert(list.skip(1)[i - 1] == list[i]);
                }
            }
        }
    }
}

// What comes of each step.

/// A command failed exactly when it could not be run or did not succeed.
pub proof fn what_a_failure_is(e: Entry)
    ensures
        failure(e) is None <==> (e.1 matches OutView::Ended { success, .. } && success),
{
}

/// Of several commands the first failure counts, and there is none exactly when
/// all succeeded.
pub proof fn the_first_failure_counts(t: Seq<Entry>, i: int)
    ensures
        first_failure(t) is None <==> forall|k: int|
            0 <= k < t.len() ==> failure(#[trigger] t[k]) is None,
        0 <= i < t.len() && failure(t[i]) is Some && (forall|k: int|
            0 <= k < i ==> failure(#[trigger] t[k]) is None) ==> first_failure(t) == failure(t[i]),
    decreases t.len(),
{
    if t.len() > 0 {
        let front = t.drop_last();
        let n = t.len() - 1;
        the_first_failure_counts(front, i);
        assert(forall|k: int| 0 <= k < n ==> #[trigger] front[k] == t[k]);
        assert(t[n] == t.last());
        if first_failure(t) is None {
            assert forall|k: int| 0 <= k < t.len() implies failure(#[trigger] t[k]) is None by {
                if k < n {
                    assert(front[k] == t[k]);
                }
            }
        }
        if forall|k: int| 0 <= k < t.len() ==> failure(#[trigger] t[k]) is None {
            assert forall|k: int| 0 <= k < n implies failure(#[trigger] front[k]) is None by {
                assert(front[k] == t[k]);
            }
        }
        if 0 <= i < t.len() && failure(t[i]) is Some && (forall|k: int|
            0 <= k < i ==> failure(#[trigger] t[k]) is None) {
            assert forall|k: int| 0 <= k < i && k < n implies failure(
                #[trigger] front[k],
            ) is None by {
                assert(front[k] == t[k]);
            }
            if i < n {
                assert(front[i] == t[i]);
            }
        }
    }
}

/// An address that the interface has is left alone; otherwise it is assigned,
/// and a failure of that is the error.
pub proof fn the_address_is_ensured(t: Seq<Entry>, tun: Seq<char>, cfg: TunnelConfig)
    requires
        address_part(t, tun, cfg).ok,
    ensures
        ({
            let p = address_part(t, tun, cfg);
            let there = t[0].1 matches OutView::Ended { success, stdout, .. } && success
                && platform::has_inet(text::words_of(stdout), cfg.guest_ip.spec_text());
            &&& t[0].0 == ifconfig_cmd(tun)
            &&& there ==> p.len == 1 && p.error is None
            &&& !there ==> {
                &&& p.len == 2
                &&& t[1].0 == assign_cmd(tun, cfg, mask_of(cfg))
                &&& p.error is Some <==> failure(t[1]) is Some
            }
        }),
{
}

/// A route is added; one that is there already is deleted and added again; and
/// if it cannot be added that is the error.
pub proof fn a_route_is_added(t: Seq<Entry>, cidr: Seq<char>, tun: Seq<char>)
    requires
        route_part(t, cidr, tun).ok,
    ensures
        ({
            let p = route_part(t, cidr, tun);
            let exists_already = t[0].1 matches OutView::Ended { success, stderr, .. } && !success
                && text::holds(stderr, "exists"@);
            &&& t[0].0 == add_cmd(cidr, tun)
            &&& !exists_already ==> p.len == 1 && (p.error is Some <==> failure(t[0]) is Some)
            &&& exists_already ==> {
                &&& p.len == 3
                &&& t[1].0 == delete_cmd(cidr, tun)
                &&& t[2].0 == add_cmd(cidr, tun)
                &&& p.error is Some <==> failure(t[2]) is Some
            }
        }),
{
}

/// The routes are added one after another until one cannot be, and its error is
/// the error.
pub proof fn routes_are_added_in_order(t: Seq<Entry>, list: Seq<Seq<char>>, tun: Seq<char>)
    ensures
        list.len() == 0 ==> routes_part(t, list, tun).0.error is None && routes_part(
            t,
            list,
            tun,
        ).0.len == 0,
        list.len() > 0 ==> {
            let first = route_part(t, list[0], tun);
            let (all, added) = routes_part(t, list, tun);
            let (rest, more) = routes_part(t.skip(first.len as int), list.skip(1), tun);
            &&& first.error is Some ==> all.error == first.error && all.len == first.len && added
                == 0
            &&& first.error is None ==> all.error == rest.error && all.len == first.len + rest.len
                && added == more + 1
            &&& all.ok ==> first.ok
        },
        routes_part(t, list, tun).0.error is None ==> routes_part(t, list, tun).1 == list.len(),
{
    if routes_part(t, list, tun).0.error is None {
        all_routes_are_added(t, list, tun);
    }
}

/// The name server is published, and then looked for; only a failure to publish
/// is an error.
pub proof fn the_name_server_is_published(t: Seq<Entry>, tun: Seq<char>, cfg: TunnelConfig)
    requires
        dns_part(t, tun, cfg).ok,
    ensures
        ({
            let p = dns_part(t, tun, cfg);
            &&& t[0].0 == scutil_cmd(set_script(tun, cfg))
            &&& p.error is Some <==> failure(t[0]) is Some
            &&& p.error is None ==> p.len == 2 && t[1].0 == scutil_dns_cmd()
            &&& p.error is Some ==> p.len == 1
        }),
{
}

/// The name server is visible exactly when the system lists it.
pub proof fn a_listed_name_server_is_visible(o: OutView, dns: Ipv4Addr)
    ensures
        seen(o, dns) is Visible <==> (o matches OutView::Ended { stdout, .. } && text::holds(
            stdout,
            dns.spec_text(),
        )),
        seen(o, dns) is Unknown <==> o is Failed,
{
}

/// What configuring does, in order: it removes what is stale, ensures the
/// address, adds the routes, and publishes the name server where it is asked
/// to. It succeeds exactly when each of these does, and what fails is the last
/// thing that is tried.
pub proof fn configuring_goes_step_by_step(
    t: Seq<Entry>,
    tun: Seq<char>,
    cfg: TunnelConfig,
    list: Seq<Seq<char>>,
    set_dns: bool,
)
    requires
        applied(t, tun, cfg, list, set_dns).ok,
    ensures
        ({
            let a = applied(t, tun, cfg, list, set_dns);
            let t1 = t.skip(1);
            let address = address_part(t1, tun, cfg);
            let t2 = t1.skip(address.len as int);
            let (routes, added) = routes_part(t2, list, tun);
            let t3 = t2.skip(routes.len as int);
            let dns = dns_part(t3, tun, cfg);
            &&& t[0].0 == scutil_cmd(remove_script())
            &&& address.ok
            &&& address.error is Some ==> a.error == address.error && t.len() == 1 + address.len
                && a.undo.len() == 0
            &&& address.error is None ==> {
                &&& routes.ok
                &&& routes.error is Some ==> a.error == routes.error && t.len() == 1 + address.len
                    + routes.len && a.undo.len() == added
                &&& routes.error is None && !set_dns ==> a.error is None && t.len() == 1
                    + address.len + routes.len && a.undo.len() == list.len()
                &&& routes.error is None && set_dns ==> {
                    &&& dns.ok
                    &&& a.error == dns.error
                    &&& t.len() == 1 + address.len + routes.len + dns.len
                    &&& dns.error is None ==> a.undo.len() == list.len() + 1 && a.look == Some(
                        seen(t3[1].1, cfg.dns),
                    )
                    &&& dns.error is Some ==> a.undo.len() == list.len()
                }
            }
        }),
{
    let t1 = t.skip(1);
    let address = address_part(t1, tun, cfg);
    let t2 = t1.skip(address.len as int);
    if routes_part(t2, list, tun).0.error is None {
        all_routes_are_added(t2, list, tun);
    }
}

/// Undoing takes back every step, the last first.
pub proof fn undoing_goes_backwards(v: Seq<Entry>, u: Seq<UndoView>, i: int)
    requires
        undoes(v, u),
        0 <= i < u.len(),
    ensures
        v.len() == u.len(),
        u[i] is Dns ==> v[u.len() - 1 - i].0 == scutil_cmd(remove_script()),
        u[i] matches UndoView::Route { cidr, tun } ==> v[u.len() - 1 - i].0 == delete_cmd(cidr, tun),
{
    assert(v[u.len() - 1 - i].0 == undo_cmd(u[i]));
}

/// Everything is routed as the two halves of the range, and prefixes as the
/// blocks that they are in.
pub proof fn what_is_routed_where(routes: RouteMode, i: int)
    ensures
        routes is Full ==> cidrs(routes) == seq!["0.0.0.0/1"@, "128.0.0.0/1"@],
        routes matches RouteMode::Custom(nets) ==> {
            &&& cidrs(routes).len() == nets@.len()
            &&& 0 <= i < nets@.len() ==> cidrs(routes)[i] == nets@[i].spec_trunc().spec_text()
        },
{
}

/// Words are put together with spaces between them.
pub proof fn words_are_spaced(words: Seq<Seq<char>>, w: Seq<char>)
    ensures
        spaced(Seq::empty()).len() == 0,
        spaced(seq![w]) == w,
        words.len() > 0 ==> spaced(words.push(w)) == spaced(words) + seq![' '] + w,
{
    assert(words.push(w).drop_last() =~= words);
    assert(spaced(words).push(' ') + w =~= spaced(words) + seq![' '] + w);
}

/// The script names the server, the tunnel and both of its ends, and what is
/// removed is what was set.
pub proof fn the_script_says_what_is_set(tun: Seq<char>, cfg: TunnelConfig)
    ensures
        text::holds(set_script(tun, cfg), cfg.dns.spec_text()),
        text::holds(set_script(tun, cfg), tun),
        text::holds(set_script(tun, cfg), cfg.guest_ip.spec_text()),
        text::holds(set_script(tun, cfg), cfg.gateway_ip.spec_text()),
        text::holds(set_script(tun, cfg), dns_key_text()),
        text::holds(set_script(tun, cfg), ipv4_key_text()),
        text::holds(remove_script(), dns_key_text()),
        text::holds(remove_script(), ipv4_key_text()),
{
    let all = set_script(tun, cfg);
    let a = "d.init\nd.add ServerAddresses * "@;
    let a1 = a + cfg.dns.spec_text() + "\nd.add SupplementalMatchDomains * \"\"\nset "@;
    let a2 = a1 + dns_key_text() + "\nd.init\nd.add InterfaceName "@;
    let a3 = a2 + tun + "\nd.add Addresses * "@;
    let a4 = a3 + cfg.guest_ip.spec_text() + "\nd.add Router "@;
    let a5 = a4 + cfg.gateway_ip.spec_text() + "\nset "@;
    let end = "\nquit\n"@;
    assert(all == a5 + ipv4_key_text() + end);
    text::an_inner_text_is_held(a5, ipv4_key_text(), end);
    held_before(a4, cfg.gateway_ip.spec_text(), "\nset "@, ipv4_key_text() + end, all);
    let t4 = cfg.gateway_ip.spec_text() + "\nset "@ + (ipv4_key_text() + end);
    held_before(a3, cfg.guest_ip.spec_text(), "\nd.add Router "@, t4, all);
    let t3 = cfg.guest_ip.spec_text() + "\nd.add Router "@ + t4;
    held_before(a2, tun, "\nd.add Addresses * "@, t3, all);
    let t2 = tun + "\nd.add Addresses * "@ + t3;
    held_before(a1, dns_key_text(), "\nd.init\nd.add InterfaceName "@, t2, all);
    let t1 = dns_key_text() + "\nd.init\nd.add InterfaceName "@ + t2;
    held_before(
        a,
        cfg.dns.spec_text(),
        "\nd.add SupplementalMatchDomains * \"\"\nset "@,
        t1,
        all,
    );
    let (r, m) = ("remove "@, "\nremove "@);
    text::an_inner_text_is_held(r, dns_key_text(), m + ipv4_key_text() + end);
    assert(r + dns_key_text() + (m + ipv4_key_text() + end) =~= remove_script());
    text::an_inner_text_is_held(r + dns_key_text() + m, ipv4_key_text(), end);
}

proof fn held_before(
    a: Seq<char>,
    x: Seq<char>,
    b: Seq<char>,
    rest: Seq<char>,
    all: Seq<char>,
)
    requires
        all =~= a + x + b + rest,
    ensures
        text::holds(all, x),
        all == a + (x + b + rest),
{
    text::an_inner_text_is_held(a, x, b + rest);
    assert(a + x + (b + rest) =~= all);
    assert(a + (x + b + rest) =~= all);
}

/// The result of a step is its error, and none where it succeeded.
pub proof fn a_result_is_its_error(r: Result<(), String>, look: Option<Resolver>)
    ensures
        r is Ok ==> error_of(r) is None,
        r matches Err(e) ==> error_of(r) == Some(e@),
        look matches Some(x) ==> look_view(look) == Some(x@),
        look is None ==> look_view(look) is None,
{
}

} // verus!
