//! Command line arguments, and how they and the saved settings become a
//! [`HostConfig`] or a [`GuestConfig`].

use crate::addresses;
use crate::cidr::{self, copy_nets, parse_net, Ipv4Net};
use crate::guest::{self, GuestConfig, HostTarget, RouteMode};
use crate::host::{self, HostConfig, SerialSettings};
use crate::link::LinkInterface;
use crate::net::{self, parse_socket, SocketAddr};
use crate::platform;
use crate::settings::{Config, GuestSettings, HostSettings, Mode};
use crate::text::{self, copy_option};
use vstd::prelude::*;
use vstd::string::StringExecFns;

verus! {

/// `netm` — share the network of one computer with another over a Type-C
/// cable.
#[derive(Clone, Debug, PartialEq)]
pub struct Cli {
    /// Path of the config file.
    pub config: Option<String>,
    /// How often `-v` was given.
    pub verbose: u8,
    pub command: Option<Command>,
}

/// A subcommand.
#[derive(Clone, Debug, PartialEq)]
pub enum Command {
    /// Choose the role anew.
    Setup,
    /// Run as the host (server) that provides the network.
    Host(HostArgs),
    /// Run as the guest that borrows the host's network.
    Guest(GuestArgs),
}

/// Arguments of `netm host`.
#[derive(Clone, Debug, PartialEq)]
pub struct HostArgs {
    /// Port to listen on.
    pub port: Option<u16>,
    /// Serial port to wait for a guest on as well.
    pub serial: Option<String>,
    /// Baud rate of the serial port.
    pub baud: Option<u32>,
    /// No TUI, only log lines.
    pub headless: bool,
}

impl Default for HostArgs {
    fn default() -> (r: Self)
        ensures
            r == HostArgs::none(),
    {
        HostArgs { port: None, serial: None, baud: None, headless: false }
    }
}

impl HostArgs {
    /// No argument given.
    pub open spec fn none() -> HostArgs {
        HostArgs { port: None, serial: None, baud: None, headless: false }
    }

    /// The same arguments once more.
    pub fn copy(&self) -> (r: Self)
        ensures
            r == *self,
    {
        HostArgs {
            port: self.port,
            serial: copy_option(&self.serial),
            baud: self.baud,
            headless: self.headless,
        }
    }
}

/// Arguments of `netm guest`.
#[derive(Clone, Debug, PartialEq)]
pub struct GuestArgs {
    /// Prefixes that go through the tunnel; none means everything.
    pub routes: Vec<Ipv4Net>,
    /// Address of the host, instead of discovery.
    pub host: Option<SocketAddr>,
    /// Serial port to reach the host over, instead of a network link.
    pub serial: Option<String>,
    /// Baud rate of the serial port.
    pub baud: Option<u32>,
    /// Leave the system DNS alone.
    pub no_dns: bool,
    /// No TUI, only log lines.
    pub headless: bool,
}

/// Arguments of `netm guest`, with the routes as a sequence.
pub struct GuestArgsView {
    pub routes: Seq<Ipv4Net>,
    pub host: Option<SocketAddr>,
    pub serial: Option<String>,
    pub baud: Option<u32>,
    pub no_dns: bool,
    pub headless: bool,
}

impl View for GuestArgs {
    type V = GuestArgsView;

    open spec fn view(&self) -> GuestArgsView {
        GuestArgsView {
            routes: self.routes@,
            host: self.host,
            serial: self.serial,
            baud: self.baud,
            no_dns: self.no_dns,
            headless: self.headless,
        }
    }
}

impl Default for GuestArgs {
    fn default() -> (r: Self)
        ensures
            r@ == GuestArgs::none(),
    {
        let r = GuestArgs {
            routes: Vec::new(),
            host: None,
            serial: None,
            baud: None,
            no_dns: false,
            headless: false,
        };
        assert(r.routes@ =~= Seq::<Ipv4Net>::empty());
        r
    }
}

impl GuestArgs {
    /// No argument given.
    pub open spec fn none() -> GuestArgsView {
        GuestArgsView {
            routes: Seq::empty(),
            host: None,
            serial: None,
            baud: None,
            no_dns: false,
            headless: false,
        }
    }

    /// The routes are prefixes.
    pub open spec fn wf(&self) -> bool {
        forall|i: int| 0 <= i < self.routes@.len() ==> (#[trigger] self.routes@[i]).wf()
    }

    /// The same arguments once more.
    pub fn copy(&self) -> (r: Self)
        ensures
            r@ == self@,
    {
        GuestArgs {
            routes: copy_nets(&self.routes),
            host: self.host,
            serial: copy_option(&self.serial),
            baud: self.baud,
            no_dns: self.no_dns,
            headless: self.headless,
        }
    }
}

// Words for running the program again.

/// `--route <cidr>` for every route.
pub open spec fn route_words(routes: Seq<Ipv4Net>) -> Seq<Seq<char>>
    decreases routes.len(),
{
    if routes.len() == 0 {
        Seq::empty()
    } else {
        route_words(routes.drop_last()).push("--route"@).push(routes.last().spec_text())
    }
}

/// An option with its value, if there is one.
pub open spec fn option_words(name: Seq<char>, value: Option<Seq<char>>) -> Seq<Seq<char>> {
    match value {
        Some(v) => seq![name, v],
        None => Seq::empty(),
    }
}

/// A flag, if it is set.
pub open spec fn flag_words(name: Seq<char>, set: bool) -> Seq<Seq<char>> {
    if set {
        seq![name]
    } else {
        Seq::empty()
    }
}

/// The guest arguments as words.
pub open spec fn guest_words(g: GuestArgsView) -> Seq<Seq<char>> {
    route_words(g.routes) + option_words(
        "--host"@,
        match g.host {
            Some(h) => Some(h.spec_text()),
            None => None,
        },
    ) + option_words("--serial"@, platform::opt_view(g.serial)) + option_words(
        "--baud"@,
        match g.baud {
            Some(b) => Some(text::dec(b as nat)),
            None => None,
        },
    ) + flag_words("--no-dns"@, g.no_dns) + flag_words("--headless"@, g.headless)
}

impl Cli {
    /// Mode fixed by the subcommand, if any.
    pub open spec fn spec_fixed_mode(&self) -> Option<Mode> {
        match self.command {
            Some(Command::Host(_)) => Some(Mode::Host),
            Some(Command::Guest(_)) => Some(Mode::Guest),
            _ => None,
        }
    }

    /// Mode fixed by the subcommand, if any.
    pub fn fixed_mode(&self) -> (r: Option<Mode>)
        ensures
            r == self.spec_fixed_mode(),
    {
        match &self.command {
            Some(Command::Host(_)) => Some(Mode::Host),
            Some(Command::Guest(_)) => Some(Mode::Guest),
            _ => None,
        }
    }

    /// The arguments of `host`; none where it was not given.
    pub open spec fn spec_host_args(&self) -> HostArgs {
        match self.command {
            Some(Command::Host(a)) => a,
            _ => HostArgs::none(),
        }
    }

    /// The arguments of `host`; none where it was not given.
    pub fn host_args(&self) -> (r: HostArgs)
        ensures
            r == self.spec_host_args(),
    {
        match &self.command {
            Some(Command::Host(a)) => a.copy(),
            _ => HostArgs::default(),
        }
    }

    /// The arguments of `guest`; none where it was not given.
    pub open spec fn spec_guest_args(&self) -> GuestArgsView {
        match self.command {
            Some(Command::Guest(a)) => a@,
            _ => GuestArgs::none(),
        }
    }

    /// The arguments of `guest`; none where it was not given.
    pub fn guest_args(&self) -> (r: GuestArgs)
        ensures
            r@ == self.spec_guest_args(),
    {
        match &self.command {
            Some(Command::Guest(a)) => a.copy(),
            _ => GuestArgs::default(),
        }
    }

    /// Whether a mode runs without the TUI.
    pub open spec fn spec_headless(&self) -> bool {
        match self.command {
            Some(Command::Host(a)) => a.headless,
            Some(Command::Guest(a)) => a.headless,
            _ => false,
        }
    }

    /// Whether a mode runs without the TUI.
    pub fn headless(&self) -> (r: bool)
        ensures
            r == self.spec_headless(),
            r ==> self.spec_fixed_mode() is Some,
    {
        match &self.command {
            Some(Command::Host(a)) => a.headless,
            Some(Command::Guest(a)) => a.headless,
            _ => false,
        }
    }

    /// The words that run the guest with the same options.
    pub open spec fn reexec_words(&self) -> Seq<Seq<char>> {
        option_words("--config"@, platform::opt_view(self.config)) + Seq::new(
            self.verbose as nat,
            |i: int| "-v"@,
        ) + seq!["guest"@] + guest_words(self.spec_guest_args())
    }

    /// Arguments for re-executing this program in guest mode (under `sudo`).
    /// Global options are kept; the subcommand is normalised to `guest`.
    pub fn reexec_guest_args(&self) -> (r: Vec<String>)
        ensures
            platform::strings_view(r@) == self.reexec_words(),
    {
        let mut out: Vec<String> = Vec::new();
        assert(platform::strings_view(out@) =~= Seq::<Seq<char>>::empty());
        push_option(
            &mut out,
            "--config",
            match &self.config {
                Some(c) => Some(c.as_str()),
                None => None,
            },
        );
        let ghost h0 = platform::strings_view(out@);
        assert(h0 =~= option_words("--config"@, platform::opt_view(self.config)));
        let mut i: u8 = 0;
        assert(h0 =~= h0 + Seq::new(0, |k: int| "-v"@));
        while i < self.verbose
            invariant
                i <= self.verbose,
                platform::strings_view(out@) == h0 + Seq::new(i as nat, |k: int| "-v"@),
            decreases self.verbose - i,
        {
            push_word(&mut out, "-v");
            i = i + 1;
            assert(platform::strings_view(out@) =~= h0 + Seq::new(i as nat, |k: int| "-v"@));
        }
        push_word(&mut out, "guest");
        let ghost h1 = platform::strings_view(out@);
        assert(h1 =~= option_words("--config"@, platform::opt_view(self.config)) + Seq::new(
            self.verbose as nat,
            |k: int| "-v"@,
        ) + seq!["guest"@]);
        let mut words = self.guest_args().words();
        let ghost w = words@;
        out.append(&mut words);
        assert(platform::strings_view(out@) =~= h1 + platform::strings_view(w));
        out
    }
}

impl GuestArgs {
    /// The arguments as words.
    fn words(&self) -> (r: Vec<String>)
        ensures
            platform::strings_view(r@) == guest_words(self@),
    {
        let mut out: Vec<String> = Vec::new();
        let ghost all = self.routes@;
        let mut i: usize = 0;
        assert(all.take(0) =~= Seq::<Ipv4Net>::empty());
        assert(platform::strings_view(out@) =~= Seq::<Seq<char>>::empty());
        while i < self.routes.len()
            invariant
                all == self.routes@,
                i <= all.len(),
                platform::strings_view(out@) == route_words(all.take(i as int)),
            decreases all.len() - i,
        {
            push_word(&mut out, "--route");
            push_word(&mut out, self.routes[i].text().as_str());
            assert(all.take(i + 1).drop_last() =~= all.take(i as int));
            i = i + 1;
        }
        assert(all.take(i as int) =~= all);
        let host = match self.host {
            Some(h) => Some(h.text()),
            None => None,
        };
        push_option(
            &mut out,
            "--host",
            match &host {
                Some(h) => Some(h.as_str()),
                None => None,
            },
        );
        push_option(
            &mut out,
            "--serial",
            match &self.serial {
                Some(p) => Some(p.as_str()),
                None => None,
            },
        );
        let baud = match self.baud {
            Some(b) => Some(text::decimal(b as u64)),
            None => None,
        };
        push_option(
            &mut out,
            "--baud",
            match &baud {
                Some(b) => Some(b.as_str()),
                None => None,
            },
        );
        push_flag(&mut out, "--no-dns", self.no_dns);
        push_flag(&mut out, "--headless", self.headless);
        out
    }
}

fn push_flag(out: &mut Vec<String>, name: &str, set: bool)
    ensures
        platform::strings_view(final(out)@) == platform::strings_view(old(out)@) + flag_words(
            name@,
            set,
        ),
{
    let ghost before = platform::strings_view(out@);
    if set {
        push_word(out, name);
    }
    assert(platform::strings_view(out@) =~= before + flag_words(name@, set));
}

fn push_word(out: &mut Vec<String>, word: &str)
    ensures
        platform::strings_view(final(out)@) == platform::strings_view(old(out)@).push(word@),
{
    let ghost before = out@;
    out.push(word.to_owned());
    assert(platform::strings_view(out@) =~= platform::strings_view(before).push(word@));
}

fn push_option(out: &mut Vec<String>, name: &str, value: Option<&str>)
    ensures
        platform::strings_view(final(out)@) == platform::strings_view(old(out)@) + option_words(
            name@,
            platform::str_view(value),
        ),
{
    let ghost before = platform::strings_view(out@);
    if let Some(v) = value {
        push_word(out, name);
        push_word(out, v);
    }
    assert(platform::strings_view(out@) =~= before + option_words(
        name@,
        platform::str_view(value),
    ));
}

// Addresses of hosts.

/// The index of the first interface of a name.
pub open spec fn index_of_name(list: Seq<LinkInterface>, name: Seq<char>) -> Option<u32>
    decreases list.len(),
{
    if list.len() == 0 {
        None
    } else if list[0].name@ == name {
        Some(list[0].index)
    } else {
        index_of_name(list.skip(1), name)
    }
}

/// An address whose scope is given by name, with its parts: what stands before
/// the name, the name, and what stands behind it.
pub open spec fn named_scope(s: Seq<char>) -> Option<(Seq<char>, Seq<char>, Seq<char>)> {
    let start = text::first_index(s, '[');
    let pct = text::first_index(s, '%');
    let end = text::first_index(s, ']');
    if start < pct && pct < end && end < s.len() {
        Some((s.take(pct), s.subrange(pct + 1, end), s.skip(end)))
    } else {
        None
    }
}

/// The address that a text writes, with the interfaces at hand or the reason
/// why there are none; or what is wrong with the text.
pub open spec fn host_value(
    s: Seq<char>,
    interfaces: Result<Seq<LinkInterface>, Seq<char>>,
) -> Result<SocketAddr, Seq<char>> {
    match (net::socket_value(s), named_scope(s)) {
        (Some(a), _) => Ok(a),
        (None, None) => Err("invalid socket address `"@ + s + "`"@),
        (None, Some((before, name, behind))) => match interfaces {
            Err(e) => Err(e),
            Ok(list) => match index_of_name(list, name) {
                None => Err("unknown interface `"@ + name + "`"@),
                Some(index) => match net::socket_value(
                    before + "%"@ + text::dec(index as nat) + behind,
                ) {
                    Some(a) => Ok(a),
                    None => Err(
                        "invalid socket address `"@ + s + "`: invalid socket address syntax"@,
                    ),
                },
            },
        },
    }
}

/// The interfaces as a sequence, or the reason why there are none.
pub open spec fn listed(r: Result<&Vec<LinkInterface>, &str>) -> Result<
    Seq<LinkInterface>,
    Seq<char>,
> {
    match r {
        Ok(v) => Ok(v@),
        Err(e) => Err(e@),
    }
}

/// Accept `%ifname` scopes in addition to numeric ones:
/// `[fe80::1%bridge0]:27778` → `[fe80::1%20]:27778`. `interfaces` are the
/// candidate interfaces, or why they cannot be listed.
pub fn parse_host(s: &str, interfaces: Result<&Vec<LinkInterface>, &str>) -> (r: Result<
    SocketAddr,
    String,
>)
    ensures
        match (r, host_value(s@, listed(interfaces))) {
            (Ok(a), Ok(b)) => a == b,
            (Err(e), Err(f)) => e@ == f,
            _ => false,
        },
{
    let c = text::chars(s);
    if let Some(a) = parse_socket(c.as_slice()) {
        return Ok(a);
    }
    let n: usize = c.len();
    let start: usize = text::index_of(c.as_slice(), '[');
    let pct: usize = text::index_of(c.as_slice(), '%');
    let end: usize = text::index_of(c.as_slice(), ']');
    if !(start < pct && pct < end && end < n) {
        return Err(text::cat3("invalid socket address `", s, "`"));
    }
    let name = text::part(c.as_slice(), pct + 1, end);
    let list = match interfaces {
        Ok(l) => l,
        Err(e) => {
            return Err(e.to_owned());
        },
    };
    let index: u32 = match find_index(list, name) {
        Some(i) => i,
        None => {
            return Err(text::cat3("unknown interface `", text::string(name).as_str(), "`"));
        },
    };
    let before = text::part(c.as_slice(), 0, pct);
    let behind = text::part(c.as_slice(), end, n);
    proof {
        assert(before@ =~= s@.take(pct as int));
        assert(behind@ =~= s@.skip(end as int));
    }
    let mut rebuilt = text::string(before);
    rebuilt.append("%");
    rebuilt.append(text::decimal(index as u64).as_str());
    rebuilt.append(text::string(behind).as_str());
    match parse_socket(text::chars(rebuilt.as_str()).as_slice()) {
        Some(a) => Ok(a),
        None => Err(
            text::cat3("invalid socket address `", s, "`: invalid socket address syntax"),
        ),
    }
}

fn find_index(list: &Vec<LinkInterface>, name: &[char]) -> (r: Option<u32>)
    ensures
        r == index_of_name(list@, name@),
{
    let mut i: usize = 0;
    assert(list@.skip(0) =~= list@);
    while i < list.len()
        invariant
            i <= list@.len(),
            index_of_name(list@, name@) == index_of_name(list@.skip(i as int), name@),
        decreases list@.len() - i,
    {
        let ghost rest = list@.skip(i as int);
        assert(rest[0] == list@[i as int]);
        if text::is(name, list[i].name.as_str()) {
            return Some(list[i].index);
        }
        assert(rest.skip(1) =~= list@.skip(i + 1));
        i = i + 1;
    }
    None
}

// Configurations.

/// A route in the config file that is none.
#[derive(Clone, Debug, PartialEq, Eq)]
pub struct RouteError {
    pub route: String,
}

impl RouteError {
    /// What is wrong.
    pub open spec fn spec_text(&self) -> Seq<char> {
        "invalid route `"@ + self.route@ + "` in config.toml [guest].routes"@
    }

    /// What is wrong.
    pub fn text(&self) -> (r: String)
        ensures
            r@ == self.spec_text(),
    {
        text::cat3(
            "invalid route `",
            self.route.as_str(),
            "` in config.toml [guest].routes",
        )
    }

    /// What is wrong, with its cause.
    pub fn chain(&self) -> (r: String)
        ensures
            r@ == self.spec_text() + ": invalid IP address syntax"@,
    {
        text::cat2(self.text().as_str(), ": invalid IP address syntax")
    }
}

/// The prefixes that saved routes write, or the first route that is none.
pub open spec fn saved_nets(routes: Seq<String>) -> Result<Seq<Ipv4Net>, String>
    decreases routes.len(),
{
    if routes.len() == 0 {
        Ok(Seq::empty())
    } else {
        match (saved_nets(routes.drop_last()), cidr::net_value(routes.last()@)) {
            (Err(r), _) => Err(r),
            (Ok(_), None) => Err(routes.last()),
            (Ok(v), Some(n)) => Ok(v.push(n)),
        }
    }
}

/// Which traffic goes through the tunnel: everything, or some prefixes.
pub enum Routed {
    Full,
    Custom(Seq<Ipv4Net>),
}

/// Routes as a sequence.
pub open spec fn routed(r: RouteMode) -> Routed {
    match r {
        RouteMode::Full => Routed::Full,
        RouteMode::Custom(v) => Routed::Custom(v@),
    }
}

/// The routes of the command line if there are any, else the saved ones; none
/// at all means everything.
pub open spec fn chosen_routes(cli: Seq<Ipv4Net>, saved: Seq<String>) -> Result<Routed, String> {
    if cli.len() > 0 {
        Ok(Routed::Custom(cli))
    } else if saved.len() == 0 {
        Ok(Routed::Full)
    } else {
        match saved_nets(saved) {
            Ok(v) => Ok(Routed::Custom(v)),
            Err(r) => Err(r),
        }
    }
}

/// Combine CLI routes with the saved ones: CLI wins when given, otherwise the
/// config's list; empty → [`RouteMode::Full`].
pub fn route_mode(cli_routes: &Vec<Ipv4Net>, saved: &GuestSettings) -> (r: Result<
    RouteMode,
    RouteError,
>)
    ensures
        match (r, chosen_routes(cli_routes@, saved.routes@)) {
            (Ok(m), Ok(v)) => routed(m) == v,
            (Err(e), Err(route)) => e.route == route,
            _ => false,
        },
{
    if cli_routes.len() > 0 {
        return Ok(RouteMode::Custom(copy_nets(cli_routes)));
    }
    if saved.routes.len() == 0 {
        return Ok(RouteMode::Full);
    }
    let mut nets: Vec<Ipv4Net> = Vec::new();
    let mut i: usize = 0;
    let ghost all = saved.routes@;
    assert(all.take(0) =~= Seq::<String>::empty());
    assert(nets@ =~= Seq::<Ipv4Net>::empty());
    while i < saved.routes.len()
        invariant
            all == saved.routes@,
            cli_routes@.len() == 0,
            saved.routes@.len() > 0,
            i <= all.len(),
            saved_nets(all.take(i as int)) == Ok::<Seq<Ipv4Net>, String>(nets@),
        decreases all.len() - i,
    {
        assert(all.take(i + 1).drop_last() =~= all.take(i as int));
        assert(all.take(i + 1).last() == all[i as int]);
        match parse_net(saved.routes[i].as_str()) {
            Some(n) => nets.push(n),
            None => {
                proof {
                    a_bad_route_stays_bad(all, i + 1);
                }
                return Err(RouteError { route: saved.routes[i].clone() });
            },
        }
        i = i + 1;
    }
    assert(all.take(i as int) =~= all);
    Ok(RouteMode::Custom(nets))
}

proof fn a_bad_route_stays_bad(routes: Seq<String>, i: int)
    requires
        0 <= i <= routes.len(),
        saved_nets(routes.take(i)) is Err,
    ensures
        saved_nets(routes) == saved_nets(routes.take(i)),
    decreases routes.len(),
{
    if i == routes.len() {
        assert(routes.take(i) =~= routes);
    } else {
        assert(routes.drop_last().take(i) =~= routes.take(i));
        a_bad_route_stays_bad(routes.drop_last(), i);
    }
}

/// Whether the system resolver is taken over.
pub open spec fn dns_choice(no_dns: bool, saved: Option<bool>, routes: Routed) -> bool {
    if no_dns {
        false
    } else {
        match saved {
            Some(b) => b,
            None => routes is Full,
        }
    }
}

/// `set_dns`: `--no-dns` → false; else the saved override; else the route
/// mode's recommendation.
pub fn set_dns(no_dns: bool, saved: &GuestSettings, routes: &RouteMode) -> (r: bool)
    ensures
        r == dns_choice(no_dns, saved.set_dns, routed(*routes)),
{
    if no_dns {
        false
    } else {
        match saved.set_dns {
            Some(b) => b,
            None => routes.default_set_dns(),
        }
    }
}

/// How the host is found: a serial port or an address of the command line, a
/// saved serial port, or discovery.
pub open spec fn host_target(args: GuestArgsView, saved: GuestSettings) -> HostTarget {
    match (args.serial, args.host, saved.serial) {
        (Some(path), _, _) => HostTarget::Serial {
            path,
            baud: match args.baud {
                Some(b) => b,
                None => saved.baud,
            },
        },
        (None, Some(addr), _) => HostTarget::Manual(addr),
        (None, None, Some(path)) => HostTarget::Serial { path, baud: saved.baud },
        (None, None, None) => HostTarget::Auto,
    }
}

/// The guest configuration that arguments and saved settings make, on a
/// machine of the given host name.
pub open spec fn is_guest_config(
    g: GuestConfig,
    args: GuestArgs,
    saved: GuestSettings,
    hostname: Option<String>,
) -> bool {
    chosen_routes(args.routes@, saved.routes@) matches Ok(routes) && {
        &&& g.name@ == guest::default_name_text(hostname)
        &&& g.host == host_target(args@, saved)
        &&& routed(g.routes) == routes
        &&& g.set_dns == dns_choice(args.no_dns, saved.set_dns, routes)
        &&& g.reconnect
        &&& args.wf() ==> g.routes.wf()
    }
}

/// Build the guest configuration from arguments and saved settings, on a
/// machine of the given host name.
pub fn build_guest_config(args: &GuestArgs, cfg: &Config, hostname: Option<String>) -> (r: Result<
    GuestConfig,
    RouteError,
>)
    ensures
        match r {
            Ok(g) => is_guest_config(g, *args, cfg.guest, hostname),
            Err(e) => chosen_routes(args.routes@, cfg.guest.routes@) == Err::<Routed, String>(
                e.route,
            ),
        },
{
    let routes = route_mode(&args.routes, &cfg.guest)?;
    let dns: bool = set_dns(args.no_dns, &cfg.guest, &routes);
    let host = match (&args.serial, args.host, &cfg.guest.serial) {
        (Some(path), _, _) => HostTarget::Serial {
            path: path.clone(),
            baud: match args.baud {
                Some(b) => b,
                None => cfg.guest.baud,
            },
        },
        (None, Some(addr), _) => HostTarget::Manual(addr),
        (None, None, Some(path)) => HostTarget::Serial { path: path.clone(), baud: cfg.guest.baud },
        (None, None, None) => HostTarget::Auto,
    };
    proof {
        saved_nets_are_prefixes(cfg.guest.routes@);
    }
    let base = GuestConfig::for_host(hostname);
    Ok(GuestConfig { host, routes, set_dns: dns, reconnect: true, ..base })
}

/// Routes out of the config file are prefixes.
pub proof fn saved_nets_are_prefixes(routes: Seq<String>)
    ensures
        saved_nets(routes) matches Ok(v) ==> forall|i: int|
            0 <= i < v.len() ==> (#[trigger] v[i]).wf(),
    decreases routes.len(),
{
    if routes.len() > 0 {
        saved_nets_are_prefixes(routes.drop_last());
        cidr::a_read_prefix_is_one(routes.last()@);
    }
}

/// Tunnelling some prefixes never means an empty list of them.
pub proof fn chosen_prefixes_are_some(cli: Seq<Ipv4Net>, saved: Seq<String>)
    ensures
        chosen_routes(cli, saved) matches Ok(Routed::Custom(v)) ==> v.len() > 0,
    decreases saved.len(),
{
}

/// The serial port that a host waits on: that of the command line, else the
/// saved one.
pub open spec fn host_serial(args: HostArgs, saved: HostSettings) -> Option<SerialSettings> {
    let path = match args.serial {
        Some(p) => Some(p),
        None => saved.serial,
    };
    match path {
        Some(path) => Some(
            SerialSettings {
                path,
                baud: match args.baud {
                    Some(b) => b,
                    None => saved.baud,
                },
            },
        ),
        None => None,
    }
}

/// The port that a host listens on.
pub open spec fn host_port(args: HostArgs, saved: HostSettings) -> u16 {
    match args.port {
        Some(p) => p,
        None => saved.port,
    }
}

/// The host configuration that arguments and saved settings make, on a machine
/// of the given host name.
pub open spec fn is_host_config(
    r: HostConfig,
    args: HostArgs,
    saved: HostSettings,
    hostname: Option<String>,
) -> bool {
    &&& r.data_port == host_port(args, saved)
    &&& r.bind_addr == (SocketAddr::V6 {
        ip: net::Ipv6Addr(0, 0, 0, 0, 0, 0, 0, 0),
        port: host_port(args, saved),
        scope_id: 0,
    })
    &&& r.spec_effective() == r.bind_addr
    &&& r.tunnel == (crate::frame::TunnelConfig {
        guest_ip: net::Ipv4Addr(10, 77, 0, 2),
        gateway_ip: net::Ipv4Addr(10, 77, 0, 1),
        prefix_len: 24,
        dns: net::Ipv4Addr(10, 77, 0, 1),
        mtu: crate::DEFAULT_MTU,
    })
    &&& r.host_name@ == host::host_name_text(hostname)
    &&& r.dns_upstreams is None
    &&& r.serial == host_serial(args, saved)
}

/// Build the host configuration on a machine of the given host name: `--port`
/// beats `[host].port`.
pub fn build_host_config(args: &HostArgs, saved: &HostSettings, hostname: Option<String>) -> (r:
    HostConfig)
    ensures
        is_host_config(r, *args, *saved, hostname),
{
    let port: u16 = match args.port {
        Some(p) => p,
        None => saved.port,
    };
    let mut cfg = HostConfig::for_host(hostname).with_port(port);
    let path = match (&args.serial, &saved.serial) {
        (Some(p), _) => Some(p),
        (None, Some(p)) => Some(p),
        (None, None) => None,
    };
    if let Some(path) = path {
        cfg.serial = Some(
            SerialSettings {
                path: path.clone(),
                baud: match args.baud {
                    Some(b) => b,
                    None => saved.baud,
                },
            },
        );
    }
    cfg
}

/// A host address survives running the program again: it is read as it was
/// written, whatever interfaces there are.
pub proof fn a_host_survives_the_reexec(
    host: SocketAddr,
    interfaces: Result<Seq<LinkInterface>, Seq<char>>,
)
    ensures
        host_value(host.spec_text(), interfaces) == Ok::<SocketAddr, Seq<char>>(host),
{
    addresses::a_socket_address_is_read_back(host);
}

/// The `i`th pair of words is `--route` and a prefix that is read as `route`.
pub open spec fn names_route(words: Seq<Seq<char>>, i: int, route: Ipv4Net) -> bool {
    words[2 * i] == "--route"@ && cidr::net_value(words[2 * i + 1]) == Some(route)
}

/// Routes survive running the program again: every one is a `--route` and a
/// prefix that is read as it was written, in the same order.
pub proof fn routes_survive_the_reexec(routes: Seq<Ipv4Net>)
    requires
        forall|i: int| 0 <= i < routes.len() ==> (#[trigger] routes[i]).wf(),
    ensures
        route_words(routes).len() == 2 * routes.len(),
        forall|i: int|
            0 <= i < routes.len() ==> #[trigger] names_route(route_words(routes), i, routes[i]),
    decreases routes.len(),
{
    if routes.len() > 0 {
        let front = routes.drop_last();
        routes_survive_the_reexec(front);
        addresses::a_prefix_is_read_back(routes.last());
        assert forall|i: int| 0 <= i < routes.len() implies #[trigger] names_route(
            route_words(routes),
            i,
            routes[i],
        ) by {
            if i < front.len() {
                assert(names_route(route_words(front), i, front[i]));
                assert(route_words(routes)[2 * i] == route_words(front)[2 * i]);
                assert(route_words(routes)[2 * i + 1] == route_words(front)[2 * i + 1]);
            }
        }
    }
}

// What was asked for.

/// What was asked for is what the subcommand says.
pub proof fn a_subcommand_says_what_was_asked(cli: Cli)
    ensures
        cli.command matches Some(Command::Host(a)) ==> {
            &&& cli.spec_fixed_mode() == Some(Mode::Host)
            &&& cli.spec_host_args() == a
            &&& cli.spec_headless() == a.headless
        },
        cli.command matches Some(Command::Guest(a)) ==> {
            &&& cli.spec_fixed_mode() == Some(Mode::Guest)
            &&& cli.spec_guest_args() == a@
            &&& cli.spec_headless() == a.headless
        },
        cli.command is None || cli.command == Some(Command::Setup) ==> {
            &&& cli.spec_fixed_mode() is None
            &&& !cli.spec_headless()
        },
        !(cli.command matches Some(Command::Host(_))) ==> {
            let a = cli.spec_host_args();
            a.port is None && a.serial is None && a.baud is None && !a.headless
        },
        !(cli.command matches Some(Command::Guest(_))) ==> {
            let a = cli.spec_guest_args();
            a.routes.len() == 0 && a.host is None && a.serial is None && a.baud is None && !a.no_dns
                && !a.headless
        },
{
}

/// An interface is found by its name, the first where there are several.
pub proof fn an_interface_is_found_by_its_name(
    list: Seq<LinkInterface>,
    name: Seq<char>,
    i: int,
)
    ensures
        0 <= i < list.len() && list[i].name@ == name && (forall|k: int|
            0 <= k < i ==> (#[trigger] list[k]).name@ != name) ==> index_of_name(list, name)
            == Some(list[i].index),
        (forall|k: int| 0 <= k < list.len() ==> (#[trigger] list[k]).name@ != name)
            ==> index_of_name(list, name) is None,
    decreases list.len(),
{
    if list.len() > 0 {
        let rest = list.skip(1);
        an_interface_is_found_by_its_name(rest, name, i - 1);
        if 0 < i < list.len() && (forall|k: int|
            0 <= k < i ==> (#[trigger] list[k]).name@ != name) {
            assert(rest[i - 1] == list[i]);
            assert(list[0].name@ != name);
            assert forall|k: int| 0 <= k < i - 1 implies (#[trigger] rest[k]).name@ != name by {
                assert(rest[k] == list[k + 1]);
            }
        }
        if forall|k: int| 0 <= k < list.len() ==> (#[trigger] list[k]).name@ != name {
            assert(list[0].name@ != name);
            assert forall|k: int| 0 <= k < rest.len() implies (#[trigger] rest[k]).name@
                != name by {
                assert(rest[k] == list[k + 1]);
            }
        }
    }
}

/// An address and a port with an interface between them, by name.
pub open spec fn on_interface(t: Seq<char>, name: Seq<char>, p: Seq<char>) -> Seq<char> {
    "["@ + t + "%"@ + name + "]:"@ + p
}

proof fn the_name_stands_between(t: Seq<char>, name: Seq<char>, p: Seq<char>)
    requires
        !t.contains('%'),
        !t.contains(']'),
        !name.contains(']'),
    ensures
        named_scope(on_interface(t, name, p)) == Some((seq!['['] + t, name, "]:"@ + p)),
{
    reveal_strlit("[");
    reveal_strlit("%");
    reveal_strlit("]:");
    let s = on_interface(t, name, p);
    let n = t.len() as int;
    let m = name.len() as int;
    assert forall|k: int| 0 <= k < n implies t[k] != '%' && t[k] != ']' by {
        assert(t.contains(t[k]));
    }
    assert forall|k: int| 0 <= k < m implies name[k] != ']' by {
        assert(name.contains(name[k]));
    }
    assert forall|k: int| 0 <= k < 1 + n implies s[k] != '%' by {
        if k > 0 {
            assert(s[k] == t[k - 1]);
        }
    }
    text::first_index_is_unique(s, '[', 0);
    text::first_index_is_unique(s, '%', 1 + n);
    assert forall|k: int| 0 <= k < 2 + n + m implies s[k] != ']' by {
        if 0 < k <= n {
            assert(s[k] == t[k - 1]);
        } else if k >= 2 + n {
            assert(s[k] == name[k - 2 - n]);
        }
    }
    text::first_index_is_unique(s, ']', 2 + n + m);
    assert(s.take(1 + n) =~= seq!['['] + t);
    assert(s.subrange(2 + n, 2 + n + m) =~= name);
    assert(s.skip(2 + n + m) =~= "]:"@ + p);
}

proof fn a_name_is_no_scope(t: Seq<char>, name: Seq<char>, p: Seq<char>)
    requires
        !t.contains('%'),
        !t.contains(']'),
        !name.contains(']'),
        net::plain_number(name, u32::MAX as nat) is None,
    ensures
        net::socket_value(on_interface(t, name, p)) is None,
{
    reveal_strlit("[");
    reveal_strlit("%");
    reveal_strlit("]:");
    let s = on_interface(t, name, p);
    let inside = t.push('%') + name;
    let after = seq![':'] + p;
    assert(s.skip(1) =~= inside.push(']') + after);
    assert(s[0] == '[');
    assert(!inside.contains(']')) by {
        if inside.contains(']') {
            let k = choose|k: int| 0 <= k < inside.len() && inside[k] == ']';
            if k < t.len() {
                assert(t.contains(t[k]));
            } else {
                assert(name.contains(name[k - t.len() - 1]));
            }
        }
    }
    text::a_cut_is_at_the_first(inside, ']', after);
    text::a_cut_is_at_the_first(t, '%', name);
}

/// A host on a named interface is on the interface of that name; a name that is
/// not listed is an error, and so is a list that could not be had.
pub proof fn a_host_on_a_named_interface(
    ip: net::Ipv6Addr,
    name: Seq<char>,
    port: u16,
    list: Seq<LinkInterface>,
    error: Seq<char>,
    index: u32,
)
    requires
        net::plain_number(name, u32::MAX as nat) is None,
        !name.contains(']'),
        index != 0,
    ensures
        ({
            let s = on_interface(net::ipv6_text(ip), name, text::dec(port as nat));
            &&& index_of_name(list, name) == Some(index) ==> host_value(s, Ok(list)) == Ok::<
                SocketAddr,
                Seq<char>,
            >(SocketAddr::V6 { ip, port, scope_id: index })
            &&& index_of_name(list, name) is None ==> host_value(s, Ok(list)) == Err::<
                SocketAddr,
                Seq<char>,
            >("unknown interface `"@ + name + "`"@)
            &&& host_value(s, Err(error)) == Err::<SocketAddr, Seq<char>>(error)
        }),
{
    let t = net::ipv6_text(ip);
    let p = text::dec(port as nat);
    addresses::address_texts_are_plain(net::Ipv4Addr(0, 0, 0, 0), ip, Seq::empty());
    the_name_stands_between(t, name, p);
    a_name_is_no_scope(t, name, p);
    let a = SocketAddr::V6 { ip, port, scope_id: index };
    addresses::a_socket_address_is_read_back(a);
    reveal_strlit("[");
    assert(seq!['['] =~= "["@);
    let d = text::dec(index as nat);
    assert(seq!['['] + t + "%"@ + d + ("]:"@ + p) =~= a.spec_text());
}

/// Saved prefixes are read in order; the first that is none is the error.
pub proof fn saved_prefixes_are_read_in_order(routes: Seq<String>, i: int)
    ensures
        saved_nets(routes) is Ok <==> forall|k: int|
            0 <= k < routes.len() ==> cidr::net_value((#[trigger] routes[k])@) is Some,
        saved_nets(routes) matches Ok(v) ==> v.len() == routes.len() && forall|k: int|
            0 <= k < routes.len() ==> Some(v[k]) == cidr::net_value((#[trigger] routes[k])@),
        0 <= i < routes.len() && cidr::net_value(routes[i]@) is None && (forall|k: int|
            0 <= k < i ==> cidr::net_value((#[trigger] routes[k])@) is Some) ==> saved_nets(routes)
            == Err::<Seq<Ipv4Net>, String>(routes[i]),
    decreases routes.len(),
{
    if routes.len() > 0 {
        let front = routes.drop_last();
        let n = routes.len() - 1;
        saved_prefixes_are_read_in_order(front, i);
        assert(forall|k: int| 0 <= k < n ==> #[trigger] front[k] == routes[k]);
        assert(routes[n] == routes.last());
        if saved_nets(routes) is Ok {
            assert forall|k: int| 0 <= k < routes.len() implies cidr::net_value(
                (#[trigger] routes[k])@,
            ) is Some by {
                if k < n {
                    assert(front[k] == routes[k]);
                }
            }
            let v = saved_nets(routes)->Ok_0;
            assert forall|k: int| 0 <= k < routes.len() implies Some(v[k]) == cidr::net_value(
                (#[trigger] routes[k])@,
            ) by {
                if k < n {
                    assert(front[k] == routes[k]);
                }
            }
        }
        if forall|k: int|
            0 <= k < routes.len() ==> cidr::net_value((#[trigger] routes[k])@) is Some {
            assert forall|k: int| 0 <= k < n implies cidr::net_value(
                (#[trigger] front[k])@,
            ) is Some by {
                assert(front[k] == routes[k]);
            }
        }
        if 0 <= i < routes.len() && cidr::net_value(routes[i]@) is None && (forall|k: int|
            0 <= k < i ==> cidr::net_value((#[trigger] routes[k])@) is Some) {
            if i < n {
                assert(front[i] == routes[i]);
                assert forall|k: int| 0 <= k < i implies cidr::net_value(
                    (#[trigger] front[k])@,
                ) is Some by {
                    assert(front[k] == routes[k]);
                }
            } else {
                assert forall|k: int| 0 <= k < n implies cidr::net_value(
                    (#[trigger] front[k])@,
                ) is Some by {
                    assert(front[k] == routes[k]);
                }
            }
        }
    }
}

/// The prefixes that were asked for are routed, and what was saved where none
/// were; without either everything is.
pub proof fn what_is_routed(cli: Seq<Ipv4Net>, saved: Seq<String>)
    ensures
        cli.len() > 0 ==> chosen_routes(cli, saved) == Ok::<Routed, String>(Routed::Custom(cli)),
        cli.len() == 0 && saved.len() == 0 ==> chosen_routes(cli, saved) == Ok::<Routed, String>(
            Routed::Full,
        ),
        cli.len() == 0 && saved.len() > 0 ==> {
            &&& saved_nets(saved) matches Ok(v) ==> chosen_routes(cli, saved) == Ok::<
                Routed,
                String,
            >(Routed::Custom(v))
            &&& saved_nets(saved) matches Err(e) ==> chosen_routes(cli, saved) == Err::<
                Routed,
                String,
            >(e)
        },
{
}

/// Name resolution goes through the tunnel unless it was asked not to; then
/// what was saved decides, and without that it does when everything is routed.
pub proof fn when_names_go_through_the_tunnel(
    no_dns: bool,
    saved: Option<bool>,
    routes: Routed,
)
    ensures
        no_dns ==> !dns_choice(no_dns, saved, routes),
        !no_dns && saved == Some(true) ==> dns_choice(no_dns, saved, routes),
        !no_dns && saved == Some(false) ==> !dns_choice(no_dns, saved, routes),
        !no_dns && saved is None ==> (dns_choice(no_dns, saved, routes) <==> routes == Routed::Full),
{
}

/// What was asked for is connected to: a port before an address, either before
/// the port that was saved; and without any of them a host is looked for.
pub proof fn what_is_connected_to(args: GuestArgsView, saved: GuestSettings)
    ensures
        args.serial matches Some(path) ==> host_target(args, saved) == (HostTarget::Serial {
            path,
            baud: if args.baud is Some {
                args.baud->0
            } else {
                saved.baud
            },
        }),
        args.serial is None ==> (args.host matches Some(addr) ==> host_target(args, saved)
            == HostTarget::Manual(addr)),
        args.serial is None && args.host is None ==> (saved.serial matches Some(path)
            ==> host_target(args, saved) == (HostTarget::Serial { path, baud: saved.baud })),
        args.serial is None && args.host is None && saved.serial is None ==> host_target(
            args,
            saved,
        ) == HostTarget::Auto,
{
}

/// The configuration of a guest is what was asked for and what was saved, and
/// it always reconnects.
pub proof fn a_guest_is_configured(
    g: GuestConfig,
    args: GuestArgs,
    saved: GuestSettings,
    hostname: Option<String>,
)
    requires
        is_guest_config(g, args, saved, hostname),
    ensures
        g.reconnect,
        g.name@ == guest::default_name_text(hostname),
        args.routes@.len() > 0 ==> routed(g.routes) == Routed::Custom(args.routes@),
        args.routes@.len() == 0 && saved.routes@.len() == 0 ==> routed(g.routes) == Routed::Full,
        args.no_dns ==> !g.set_dns,
        !args.no_dns ==> (saved.set_dns matches Some(b) ==> g.set_dns == b),
        !args.no_dns && saved.set_dns is None ==> (g.set_dns <==> routed(g.routes) == Routed::Full),
        args.host is Some && args.serial is None ==> g.host == HostTarget::Manual(args.host->0),
        args.serial is Some ==> g.host is Serial,
        args.host is None && args.serial is None && saved.serial is None ==> g.host
            == HostTarget::Auto,
{
}

/// The configuration of a host is what was asked for, then what was saved: it
/// listens on every address at that port, and on that serial port where there
/// is one.
pub proof fn a_host_is_configured(
    r: HostConfig,
    args: HostArgs,
    saved: HostSettings,
    hostname: Option<String>,
)
    requires
        is_host_config(r, args, saved, hostname),
    ensures
        args.port matches Some(p) ==> r.data_port == p,
        args.port is None ==> r.data_port == saved.port,
        r.bind_addr.spec_port() == r.data_port,
        r.bind_addr.spec_ip() == net::IpAddr::V6(net::Ipv6Addr(0, 0, 0, 0, 0, 0, 0, 0)),
        r.serial is Some <==> args.serial is Some || saved.serial is Some,
        r.serial matches Some(s) ==> {
            &&& args.serial matches Some(p) ==> s.path == p
            &&& args.serial is None ==> Some(s.path) == saved.serial
            &&& args.baud matches Some(b) ==> s.baud == b
            &&& args.baud is None ==> s.baud == saved.baud
        },
        r.host_name@ == host::host_name_text(hostname),
        r.dns_upstreams is None,
        r.tunnel.guest_ip == net::Ipv4Addr(10, 77, 0, 2),
        r.tunnel.gateway_ip == net::Ipv4Addr(10, 77, 0, 1),
        r.tunnel.dns == r.tunnel.gateway_ip,
        r.tunnel.prefix_len == 24,
        r.tunnel.mtu == crate::DEFAULT_MTU,
{
}

/// The routes of a guest are shown as what they are.
pub proof fn routes_are_what_they_are(r: RouteMode)
    ensures
        r is Full <==> routed(r) is Full,
        r matches RouteMode::Custom(v) ==> routed(r) == Routed::Custom(v@),
{
}

/// A list that could be had is that list, and one that could not is the error.
pub proof fn a_list_is_what_was_had(r: Result<&Vec<LinkInterface>, &str>)
    ensures
        r matches Ok(v) ==> listed(r) == Ok::<Seq<LinkInterface>, Seq<char>>(v@),
        r matches Err(e) ==> listed(r) == Err::<Seq<LinkInterface>, Seq<char>>(e@),
{
}

/// What was asked of a guest is all that its arguments say.
pub proof fn arguments_are_what_they_say(a: GuestArgs)
    ensures
        a@.routes == a.routes@,
        a@.host == a.host,
        a@.serial == a.serial,
        a@.baud == a.baud,
        a@.no_dns == a.no_dns,
        a@.headless == a.headless,
{
}

} // verus!
