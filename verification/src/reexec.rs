//! Reading the words with which the program runs itself again in guest mode.
//!
//! The words are global options, the word `guest` and the options of the
//! guest, each option in a word of its own and each value in the next one.

use crate::addresses;
use crate::cidr::{self, Ipv4Net};
use crate::cli::{self, Cli, GuestArgsView};
use crate::link::LinkInterface;
use crate::net::SocketAddr;
use crate::platform;
use crate::text;
use vstd::prelude::*;

verus! {

/// The guest's options as they are read.
pub struct GuestRead {
    pub routes: Seq<Ipv4Net>,
    pub host: Option<SocketAddr>,
    pub serial: Option<Seq<char>>,
    pub baud: Option<u32>,
    pub no_dns: bool,
    pub headless: bool,
}

/// All options as they are read.
pub struct CliRead {
    pub config: Option<Seq<char>>,
    pub verbose: nat,
    pub guest: GuestRead,
}

/// A word that can be the value of an option: it is no option itself.
pub open spec fn is_value(w: Seq<char>) -> bool {
    w.len() == 0 || w[0] != '-'
}

/// A value that can be a path.
pub open spec fn is_path(w: Seq<char>) -> bool {
    w.len() > 0 && is_value(w)
}

impl GuestRead {
    /// No option given.
    pub open spec fn none() -> GuestRead {
        GuestRead {
            routes: Seq::empty(),
            host: None,
            serial: None,
            baud: None,
            no_dns: false,
            headless: false,
        }
    }

    /// The guest is reached by an address or over a serial port, not both, and
    /// only the latter has a baud rate.
    pub open spec fn allowed(self) -> bool {
        &&& self.host is None || self.serial is None
        &&& self.baud is Some ==> self.serial is Some
    }

    /// The options with a word that takes no value; `None` if it is no such
    /// word or was given already.
    pub open spec fn with_flag(self, name: Seq<char>) -> Option<GuestRead> {
        if name == "--no-dns"@ && !self.no_dns {
            Some(GuestRead { no_dns: true, ..self })
        } else if name == "--headless"@ && !self.headless {
            Some(GuestRead { headless: true, ..self })
        } else {
            None
        }
    }

    /// The options with one that takes a value; `None` if it is no such word,
    /// was given already (routes can be repeated) or cannot have this value.
    pub open spec fn with_value(
        self,
        name: Seq<char>,
        value: Seq<char>,
        interfaces: Result<Seq<LinkInterface>, Seq<char>>,
    ) -> Option<GuestRead> {
        if !is_value(value) {
            None
        } else if name == "--route"@ {
            match cidr::net_value(value) {
                Some(n) => Some(GuestRead { routes: self.routes.push(n), ..self }),
                None => None,
            }
        } else if name == "--host"@ && self.host is None {
            match cli::host_value(value, interfaces) {
                Ok(a) => Some(GuestRead { host: Some(a), ..self }),
                Err(_) => None,
            }
        } else if name == "--serial"@ && self.serial is None {
            Some(GuestRead { serial: Some(value), ..self })
        } else if name == "--baud"@ && self.baud is None {
            match text::number_upto(value, u32::MAX as nat) {
                Some(b) => Some(GuestRead { baud: Some(b as u32), ..self }),
                None => None,
            }
        } else {
            None
        }
    }
}

/// Reads the options of the guest behind those read so far.
pub open spec fn read_guest(
    words: Seq<Seq<char>>,
    sofar: GuestRead,
    interfaces: Result<Seq<LinkInterface>, Seq<char>>,
) -> Option<GuestRead>
    decreases words.len(),
{
    if words.len() == 0 {
        if sofar.allowed() {
            Some(sofar)
        } else {
            None
        }
    } else {
        match sofar.with_flag(words[0]) {
            Some(next) => read_guest(words.skip(1), next, interfaces),
            None => if words.len() == 1 {
                None
            } else {
                match sofar.with_value(words[0], words[1], interfaces) {
                    Some(next) => read_guest(words.skip(2), next, interfaces),
                    None => None,
                }
            },
        }
    }
}

/// Reads a command line that runs the guest, behind the global options read so
/// far.
pub open spec fn read_words(
    words: Seq<Seq<char>>,
    config: Option<Seq<char>>,
    verbose: nat,
    interfaces: Result<Seq<LinkInterface>, Seq<char>>,
) -> Option<CliRead>
    decreases words.len(),
{
    if words.len() == 0 {
        None
    } else if words[0] == "guest"@ {
        match read_guest(words.skip(1), GuestRead::none(), interfaces) {
            Some(guest) => Some(CliRead { config, verbose, guest }),
            None => None,
        }
    } else if words[0] == "-v"@ {
        read_words(words.skip(1), config, verbose + 1, interfaces)
    } else if words[0] == "--config"@ && words.len() > 1 && is_path(words[1]) && config is None {
        read_words(words.skip(2), Some(words[1]), verbose, interfaces)
    } else {
        None
    }
}

/// The guest's options as they should be read.
pub open spec fn as_read(g: GuestArgsView) -> GuestRead {
    GuestRead {
        routes: g.routes,
        host: g.host,
        serial: platform::opt_view(g.serial),
        baud: g.baud,
        no_dns: g.no_dns,
        headless: g.headless,
    }
}

/// Options that a command line can have given: routes are prefixes, paths and
/// serial ports are values, and the guest's options go together.
pub open spec fn was_given(cli: Cli) -> bool {
    let g = cli.spec_guest_args();
    &&& platform::opt_view(cli.config) matches Some(p) ==> is_path(p)
    &&& platform::opt_view(g.serial) matches Some(p) ==> is_value(p)
    &&& forall|i: int| 0 <= i < g.routes.len() ==> (#[trigger] g.routes[i]).wf()
    &&& as_read(g).allowed()
}

/// Running the program again keeps every option: the words are read as the
/// same config path, the same verbosity and the same guest options, whatever
/// interfaces there are.
pub proof fn options_survive_the_reexec(
    cli: Cli,
    interfaces: Result<Seq<LinkInterface>, Seq<char>>,
)
    requires
        was_given(cli),
    ensures
        read_words(cli.reexec_words(), None, 0, interfaces) == Some(
            CliRead {
                config: platform::opt_view(cli.config),
                verbose: cli.verbose as nat,
                guest: as_read(cli.spec_guest_args()),
            },
        ),
{
    let config = platform::opt_view(cli.config);
    let g = cli.spec_guest_args();
    let n = cli.verbose as nat;
    let vs = Seq::new(n, |i: int| "-v"@);
    let last = cli::guest_words(g);
    guest_is_read_back(g, interfaces);
    subcommand_is_read(last, config, n, interfaces);
    verbosity_is_read_back(n, seq!["guest"@] + last, config, 0, interfaces);
    config_is_read_back(config, vs + (seq!["guest"@] + last), interfaces);
    assert(cli.reexec_words() =~= cli::option_words("--config"@, config) + (vs + (seq!["guest"@]
        + last)));
}

/// Behind the subcommand come the options of the guest.
proof fn subcommand_is_read(
    last: Seq<Seq<char>>,
    config: Option<Seq<char>>,
    verbose: nat,
    interfaces: Result<Seq<LinkInterface>, Seq<char>>,
)
    requires
        read_guest(last, GuestRead::none(), interfaces) is Some,
    ensures
        read_words(seq!["guest"@] + last, config, verbose, interfaces) == Some(
            CliRead {
                config,
                verbose,
                guest: read_guest(last, GuestRead::none(), interfaces)->0,
            },
        ),
{
    let words = seq!["guest"@] + last;
    assert(words[0] == "guest"@);
    assert(words.skip(1) =~= last);
}

proof fn config_is_read_back(
    config: Option<Seq<char>>,
    tail: Seq<Seq<char>>,
    interfaces: Result<Seq<LinkInterface>, Seq<char>>,
)
    requires
        config matches Some(p) ==> is_path(p),
    ensures
        read_words(cli::option_words("--config"@, config) + tail, None, 0, interfaces)
            == read_words(tail, config, 0, interfaces),
{
    words_differ();
    let words = cli::option_words("--config"@, config) + tail;
    match config {
        Some(p) => {
            assert(words[0] == "--config"@ && words[1] == p);
            assert(words.skip(2) =~= tail);
        },
        None => {
            assert(words =~= tail);
        },
    }
}

/// Without options only the subcommand is left.
pub proof fn nothing_given_is_just_guest(cli: Cli)
    requires
        cli.config is None,
        cli.verbose == 0,
        !(cli.command matches Some(cli::Command::Guest(_))),
    ensures
        cli.reexec_words() == seq!["guest"@],
{
    assert(cli.reexec_words() =~= seq!["guest"@]);
}

/// The words with a meaning are different ones.
proof fn words_differ()
    ensures
        "-v"@ != "guest"@,
        "--config"@ != "guest"@,
        "--config"@ != "-v"@,
        "--no-dns"@ != "--headless"@,
        "--route"@ != "--no-dns"@,
        "--route"@ != "--headless"@,
        "--host"@ != "--no-dns"@,
        "--host"@ != "--headless"@,
        "--host"@ != "--route"@,
        "--serial"@ != "--no-dns"@,
        "--serial"@ != "--headless"@,
        "--serial"@ != "--route"@,
        "--serial"@ != "--host"@,
        "--baud"@ != "--no-dns"@,
        "--baud"@ != "--headless"@,
        "--baud"@ != "--route"@,
        "--baud"@ != "--host"@,
        "--baud"@ != "--serial"@,
{
    reveal_strlit("-v");
    reveal_strlit("guest");
    reveal_strlit("--config");
    reveal_strlit("--no-dns");
    reveal_strlit("--headless");
    reveal_strlit("--route");
    reveal_strlit("--host");
    reveal_strlit("--serial");
    reveal_strlit("--baud");
    assert("-v"@.len() == 2);
    assert("guest"@.len() == 5);
    assert("--config"@.len() == 8);
    assert("--headless"@.len() == 10);
    assert("--route"@.len() == 7);
    assert("--host"@.len() == 6 && "--host"@[2] == 'h');
    assert("--baud"@.len() == 6 && "--baud"@[2] == 'b');
    assert("--serial"@.len() == 8 && "--serial"@[2] == 's');
    assert("--no-dns"@.len() == 8 && "--no-dns"@[2] == 'n');
}

proof fn verbosity_is_read_back(
    n: nat,
    tail: Seq<Seq<char>>,
    config: Option<Seq<char>>,
    verbose: nat,
    interfaces: Result<Seq<LinkInterface>, Seq<char>>,
)
    ensures
        read_words(Seq::new(n, |i: int| "-v"@) + tail, config, verbose, interfaces) == read_words(
            tail,
            config,
            verbose + n,
            interfaces,
        ),
    decreases n,
{
    let words = Seq::new(n, |i: int| "-v"@) + tail;
    words_differ();
    if n == 0 {
        assert(words =~= tail);
    } else {
        assert(words.skip(1) =~= Seq::new((n - 1) as nat, |i: int| "-v"@) + tail);
        verbosity_is_read_back((n - 1) as nat, tail, config, verbose + 1, interfaces);
    }
}

/// An option and its value are read, and then what follows.
proof fn one_option_is_read(
    name: Seq<char>,
    value: Seq<char>,
    tail: Seq<Seq<char>>,
    sofar: GuestRead,
    interfaces: Result<Seq<LinkInterface>, Seq<char>>,
)
    requires
        sofar.with_flag(name) is None,
        sofar.with_value(name, value, interfaces) is Some,
    ensures
        read_guest(seq![name, value] + tail, sofar, interfaces) == read_guest(
            tail,
            sofar.with_value(name, value, interfaces)->0,
            interfaces,
        ),
{
    let words = seq![name, value] + tail;
    assert(words[0] == name && words[1] == value);
    assert(words.skip(2) =~= tail);
}

/// The text of a socket address begins with a digit or a bracket.
proof fn a_socket_address_is_a_value(h: SocketAddr)
    ensures
        is_value(h.spec_text()),
{
    match h {
        SocketAddr::V4 { ip, port } => {
            text::dec_read_back(ip.0 as nat);
            assert(h.spec_text()[0] == text::dec(ip.0 as nat)[0]);
        },
        SocketAddr::V6 { ip, port, scope_id } => {
            reveal_strlit("[");
            assert(h.spec_text()[0] == '[');
        },
    }
}

proof fn routes_are_read_back(
    routes: Seq<Ipv4Net>,
    tail: Seq<Seq<char>>,
    sofar: GuestRead,
    interfaces: Result<Seq<LinkInterface>, Seq<char>>,
)
    requires
        forall|i: int| 0 <= i < routes.len() ==> (#[trigger] routes[i]).wf(),
    ensures
        read_guest(cli::route_words(routes) + tail, sofar, interfaces) == read_guest(
            tail,
            GuestRead { routes: sofar.routes + routes, ..sofar },
            interfaces,
        ),
    decreases routes.len(),
{
    if routes.len() == 0 {
        assert(cli::route_words(routes) + tail =~= tail);
        assert(sofar.routes + routes =~= sofar.routes);
    } else {
        let front = routes.drop_last();
        let n = routes.last();
        let one = seq!["--route"@, n.spec_text()];
        assert(cli::route_words(routes) + tail =~= cli::route_words(front) + (one + tail));
        routes_are_read_back(front, one + tail, sofar, interfaces);
        let before = GuestRead { routes: sofar.routes + front, ..sofar };
        addresses::a_prefix_is_read_back(n);
        text::dec_read_back(n.addr.0 as nat);
        assert(n.spec_text()[0] == text::dec(n.addr.0 as nat)[0]);
        words_differ();
        one_option_is_read("--route"@, n.spec_text(), tail, before, interfaces);
        assert((sofar.routes + front).push(n) =~= sofar.routes + routes);
    }
}

proof fn guest_is_read_back(
    g: GuestArgsView,
    interfaces: Result<Seq<LinkInterface>, Seq<char>>,
)
    requires
        platform::opt_view(g.serial) matches Some(p) ==> is_value(p),
        forall|i: int| 0 <= i < g.routes.len() ==> (#[trigger] g.routes[i]).wf(),
        as_read(g).allowed(),
    ensures
        read_guest(cli::guest_words(g), GuestRead::none(), interfaces) == Some(as_read(g)),
{
    let host = match g.host {
        Some(h) => Some(h.spec_text()),
        None => None,
    };
    let baud = match g.baud {
        Some(b) => Some(text::dec(b as nat)),
        None => None,
    };
    let w5 = cli::flag_words("--headless"@, g.headless);
    let w4 = cli::flag_words("--no-dns"@, g.no_dns) + w5;
    let w3 = cli::option_words("--baud"@, baud) + w4;
    let w2 = cli::option_words("--serial"@, platform::opt_view(g.serial)) + w3;
    let w1 = cli::option_words("--host"@, host) + w2;
    let none = GuestRead::none();
    assert(cli::guest_words(g) =~= cli::route_words(g.routes) + w1);
    routes_are_read_back(g.routes, w1, none, interfaces);
    assert(none.routes + g.routes =~= g.routes);
    let r1 = GuestRead { routes: g.routes, ..none };
    let r2 = GuestRead { host: g.host, ..r1 };
    let r3 = GuestRead { serial: platform::opt_view(g.serial), ..r2 };
    let r4 = GuestRead { baud: g.baud, ..r3 };
    host_is_read_back(g.host, w2, r1, interfaces);
    serial_is_read_back(platform::opt_view(g.serial), w3, r2, interfaces);
    baud_is_read_back(g.baud, w4, r3, interfaces);
    flags_are_read_back(g.no_dns, g.headless, r4, interfaces);
}

proof fn host_is_read_back(
    host: Option<SocketAddr>,
    tail: Seq<Seq<char>>,
    sofar: GuestRead,
    interfaces: Result<Seq<LinkInterface>, Seq<char>>,
)
    requires
        sofar.host is None,
    ensures
        ({
            let value = match host {
                Some(h) => Some(h.spec_text()),
                None => None,
            };
            read_guest(cli::option_words("--host"@, value) + tail, sofar, interfaces)
                == read_guest(tail, GuestRead { host, ..sofar }, interfaces)
        }),
{
    words_differ();
    match host {
        Some(h) => {
            cli::a_host_survives_the_reexec(h, interfaces);
            a_socket_address_is_a_value(h);
            one_option_is_read("--host"@, h.spec_text(), tail, sofar, interfaces);
        },
        None => {
            assert(Seq::<Seq<char>>::empty() + tail =~= tail);
        },
    }
}

proof fn serial_is_read_back(
    serial: Option<Seq<char>>,
    tail: Seq<Seq<char>>,
    sofar: GuestRead,
    interfaces: Result<Seq<LinkInterface>, Seq<char>>,
)
    requires
        sofar.serial is None,
        serial matches Some(p) ==> is_value(p),
    ensures
        read_guest(cli::option_words("--serial"@, serial) + tail, sofar, interfaces)
            == read_guest(tail, GuestRead { serial, ..sofar }, interfaces),
{
    words_differ();
    match serial {
        Some(p) => {
            one_option_is_read("--serial"@, p, tail, sofar, interfaces);
        },
        None => {
            assert(Seq::<Seq<char>>::empty() + tail =~= tail);
        },
    }
}

proof fn baud_is_read_back(
    baud: Option<u32>,
    tail: Seq<Seq<char>>,
    sofar: GuestRead,
    interfaces: Result<Seq<LinkInterface>, Seq<char>>,
)
    requires
        sofar.baud is None,
    ensures
        ({
            let value = match baud {
                Some(b) => Some(text::dec(b as nat)),
                None => None,
            };
            read_guest(cli::option_words("--baud"@, value) + tail, sofar, interfaces)
                == read_guest(tail, GuestRead { baud, ..sofar }, interfaces)
        }),
{
    words_differ();
    match baud {
        Some(b) => {
            text::dec_read_back(b as nat);
            one_option_is_read("--baud"@, text::dec(b as nat), tail, sofar, interfaces);
        },
        None => {
            assert(Seq::<Seq<char>>::empty() + tail =~= tail);
        },
    }
}

proof fn flags_are_read_back(
    no_dns: bool,
    headless: bool,
    sofar: GuestRead,
    interfaces: Result<Seq<LinkInterface>, Seq<char>>,
)
    requires
        !sofar.no_dns,
        !sofar.headless,
        sofar.allowed(),
    ensures
        read_guest(
            cli::flag_words("--no-dns"@, no_dns) + cli::flag_words("--headless"@, headless),
            sofar,
            interfaces,
        ) == Some(GuestRead { no_dns, headless, ..sofar }),
{
    words_differ();
    let last = cli::flag_words("--headless"@, headless);
    let words = cli::flag_words("--no-dns"@, no_dns) + last;
    let next = GuestRead { no_dns, ..sofar };
    if no_dns {
        assert(words.skip(1) =~= last);
    } else {
        assert(words =~= last);
    }
    let both = GuestRead { headless, ..next };
    assert(both.allowed());
    if headless {
        assert(last.skip(1) =~= Seq::<Seq<char>>::empty());
        assert(next.with_flag(last[0]) == Some(both));
        assert(read_guest(last.skip(1), both, interfaces) == Some(both));
    } else {
        assert(next == both);
    }
    assert(read_guest(last, next, interfaces) == Some(both));
}

} // verus!
