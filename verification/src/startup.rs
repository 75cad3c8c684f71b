//! Starting up: the command line, what a check of the configuration says, who
//! may be served, and the backends as they are run.

use vstd::prelude::*;

use crate::backend::{is_runtime, Backend, ServerDefaults};
use crate::backend::api::{split_url, url_parts};
use crate::config::{self, Config};
use crate::env::Env;
use crate::http::health::{backend_type_str, ordered_names, sorted_names, type_text};
use crate::http::VERSION;
use crate::names::{has_key, lemma_map_of, place, NameMap};
use crate::text::{
    contains, decimal, decimal_text, gather, has_infix, lower_text, lowered, opt_str_view,
    opt_view, read_utf8, same, signed_decimal, signed_decimal_text, strip_prefix, utf8_text, views,
};

verus! {

// ---------------------------------------------------------------------------
// The command line
// ---------------------------------------------------------------------------

/// What the command line asks for.
pub struct Args {
    pub config: String,
    pub validate: bool,
    pub check_backends: bool,
    pub allow_remote: bool,
}

/// What the command line asks for, of the model.
pub ghost struct ArgsView {
    pub config: Seq<char>,
    pub validate: bool,
    pub check_backends: bool,
    pub allow_remote: bool,
}

impl View for Args {
    type V = ArgsView;

    open spec fn view(&self) -> ArgsView {
        ArgsView {
            config: self.config@,
            validate: self.validate,
            check_backends: self.check_backends,
            allow_remote: self.allow_remote,
        }
    }
}

/// What is done first.
pub enum Command {
    /// Print the version.
    Version,
    /// Print the help.
    Help,
    /// Complain, and fail.
    Wrong(String),
    /// Check the configuration, the backends, or both.
    Check(Args),
    Serve(Args),
}

/// What is done first, of the model.
pub ghost enum CommandView {
    Version,
    Help,
    Wrong(Seq<char>),
    Check(ArgsView),
    Serve(ArgsView),
}

impl View for Command {
    type V = CommandView;

    open spec fn view(&self) -> CommandView {
        match self {
            Command::Version => CommandView::Version,
            Command::Help => CommandView::Help,
            Command::Wrong(m) => CommandView::Wrong(m@),
            Command::Check(a) => CommandView::Check(a@),
            Command::Serve(a) => CommandView::Serve(a@),
        }
    }
}

/// Where the configuration is, unless the command line says otherwise.
pub open spec fn default_config() -> Seq<char> {
    "~/.tmuxlet/server.toml"@
}

/// The command that arguments from `i` on make, after those before made `a`.
/// They are read from the left, and the first that asks for the version or the
/// help, or is wrong, decides.
pub open spec fn command_from(argv: Seq<Seq<char>>, i: int, a: ArgsView) -> CommandView
    decreases argv.len() - i,
{
    if i < 0 || i >= argv.len() {
        if a.validate || a.check_backends {
            CommandView::Check(a)
        } else {
            CommandView::Serve(a)
        }
    } else {
        let arg = argv[i];
        if arg == "--version"@ || arg == "-V"@ {
            CommandView::Version
        } else if arg == "--help"@ || arg == "-h"@ {
            CommandView::Help
        } else if arg == "--validate"@ {
            command_from(argv, i + 1, ArgsView { validate: true, ..a })
        } else if arg == "--check-backends"@ {
            command_from(argv, i + 1, ArgsView { check_backends: true, ..a })
        } else if arg == "--allow-remote-unauthenticated"@ {
            command_from(argv, i + 1, ArgsView { allow_remote: true, ..a })
        } else if arg == "--config"@ {
            if i + 1 < argv.len() {
                command_from(argv, i + 2, ArgsView { config: argv[i + 1], ..a })
            } else {
                CommandView::Wrong("--config requires a path"@)
            }
        } else if crate::text::has_prefix(arg, "--config="@) {
            command_from(
                argv,
                i + 1,
                ArgsView { config: arg.skip("--config="@.len() as int), ..a },
            )
        } else {
            CommandView::Wrong("unknown argument: "@ + arg)
        }
    }
}

/// The command that the arguments make.
pub open spec fn command_of(argv: Seq<Seq<char>>) -> CommandView {
    command_from(
        argv,
        0,
        ArgsView {
            config: default_config(),
            validate: false,
            check_backends: false,
            allow_remote: false,
        },
    )
}

/// Reads the command line, without the program's own name.
pub fn parse_args(argv: &Vec<String>) -> (r: Command)
    ensures
        r@ == command_of(views(argv@)),
{
    let mut args = Args {
        config: "~/.tmuxlet/server.toml".to_owned(),
        validate: false,
        check_backends: false,
        allow_remote: false,
    };
    let ghost all = views(argv@);
    let len: usize = argv.len();
    let mut i: usize = 0;
    while i < len
        invariant
            len == argv@.len(),
            i <= len,
            all == views(argv@),
            command_of(all) == command_from(all, i as int, args@),
        decreases len - i,
    {
        let arg = argv[i].as_str();
        proof {
            assert(all[i as int] == arg@);
        }
        if same(arg, "--version") || same(arg, "-V") {
            return Command::Version;
        }
        if same(arg, "--help") || same(arg, "-h") {
            return Command::Help;
        }
        if same(arg, "--validate") {
            args.validate = true;
        } else if same(arg, "--check-backends") {
            args.check_backends = true;
        } else if same(arg, "--allow-remote-unauthenticated") {
            args.allow_remote = true;
        } else if same(arg, "--config") {
            if i + 1 >= len {
                return Command::Wrong("--config requires a path".to_owned());
            }
            i = i + 1;
            proof {
                assert(all[i as int] == argv@[i as int]@);
            }
            args.config = argv[i].clone();
        } else {
            match strip_prefix(arg, "--config=") {
                Some(p) => {
                    args.config = p;
                },
                None => {
                    return Command::Wrong("unknown argument: ".to_owned().concat(arg));
                },
            }
        }
        i = i + 1;
    }
    if args.validate || args.check_backends {
        Command::Check(args)
    } else {
        Command::Serve(args)
    }
}

/// The help.
pub fn help_text() -> (r: String)
    ensures
        r@ == "tmuxlet-server "@ + VERSION@
            + "\n\nUsage:\n  tmuxlet-server [--config FILE]    Start the server (default config: "@
            + default_config()
            + ")\n  tmuxlet-server --validate         Validate config (strict) and exit\n  tmuxlet-server --check-backends   Probe each backend's reachability and exit\n  tmuxlet-server --version          Print version\n  tmuxlet-server --help             Print this help\n\nConfig is TOML at "@
            + default_config()
            + " (override with --config FILE or --config=FILE).\nA fresh config listens on 127.0.0.1:3456. Set `auth = true` for a bearer token\n(written to ~/.tmuxlet/token); --allow-remote-unauthenticated permits a\nnon-loopback bind without auth."@,
{
    "tmuxlet-server ".to_owned().concat(VERSION).concat(
        "\n\nUsage:\n  tmuxlet-server [--config FILE]    Start the server (default config: ",
    ).concat("~/.tmuxlet/server.toml").concat(
        ")\n  tmuxlet-server --validate         Validate config (strict) and exit\n  tmuxlet-server --check-backends   Probe each backend's reachability and exit\n  tmuxlet-server --version          Print version\n  tmuxlet-server --help             Print this help\n\nConfig is TOML at ",
    ).concat("~/.tmuxlet/server.toml").concat(
        " (override with --config FILE or --config=FILE).\nA fresh config listens on 127.0.0.1:3456. Set `auth = true` for a bearer token\n(written to ~/.tmuxlet/token); --allow-remote-unauthenticated permits a\nnon-loopback bind without auth.",
    )
}

/// The version, as it is printed.
pub fn version_line() -> (r: String)
    ensures
        r@ == "tmuxlet-server "@ + VERSION@,
{
    "tmuxlet-server ".to_owned().concat(VERSION)
}

// ---------------------------------------------------------------------------
// Who may be served
// ---------------------------------------------------------------------------

/// Whether an address to listen on is reached from this machine only: it
/// resolves to at least one address, and each of them is a loopback address.
pub open spec fn is_loopback(resolved: Option<Seq<bool>>) -> bool {
    match resolved {
        Some(v) => v.len() > 0 && forall|i: int| 0 <= i < v.len() ==> #[trigger] v[i],
        None => false,
    }
}

/// Whether an address to listen on is reached from this machine only.
/// `resolved` says of each address that it resolves to whether it is a loopback
/// address, and is `None` where it does not resolve.
pub fn listen_is_loopback(resolved: &Option<Vec<bool>>) -> (r: bool)
    ensures
        r == is_loopback(
            match *resolved {
                Some(v) => Some(v@),
                None => None,
            },
        ),
{
    match resolved {
        Some(v) => {
            let mut i: usize = 0;
            while i < v.len()
                invariant
                    *resolved == Some(*v),
                    i <= v@.len(),
                    forall|k: int| 0 <= k < i ==> #[trigger] v@[k],
                decreases v@.len() - i,
            {
                if !v[i] {
                    proof {
                        assert(!v@[i as int]);
                    }
                    return false;
                }
                i = i + 1;
            }
            v.len() > 0
        },
        None => false,
    }
}

/// Why a server may not listen: it would be open to the network without a
/// token, and nobody said that it may be.
pub open spec fn bind_error(
    listen: Seq<char>,
    loopback: bool,
    auth_on: bool,
    allow_remote: bool,
) -> Option<Seq<char>> {
    if !loopback && !auth_on && !allow_remote {
        Some(
            "refusing to bind non-loopback address '"@ + listen
                + "' without auth — set `auth = true` in server.toml (a token is generated to ~/.tmuxlet/token), or pass --allow-remote-unauthenticated to override"@,
        )
    } else {
        None
    }
}

/// Refuses to open a server without a token to the network.
pub fn bind_policy(listen: &str, loopback: bool, auth_on: bool, allow_remote: bool) -> (r: Result<
    (),
    String,
>)
    ensures
        config::error_view(r) == bind_error(listen@, loopback, auth_on, allow_remote),
{
    if !loopback && !auth_on && !allow_remote {
        return Err(
            "refusing to bind non-loopback address '".to_owned().concat(listen).concat(
                "' without auth — set `auth = true` in server.toml (a token is generated to ~/.tmuxlet/token), or pass --allow-remote-unauthenticated to override",
            ),
        );
    }
    Ok(())
}

/// How many requests are served at a time: as many as configured, but at least
/// one; else as many as there are cores, but at least 16.
pub open spec fn workers_for(configured: Option<usize>, cores: Option<usize>) -> usize {
    match configured {
        Some(n) => if n == 0 {
            1
        } else {
            n
        },
        None => match cores {
            Some(c) => if c < 16 {
                16
            } else {
                c
            },
            None => 16,
        },
    }
}

/// How many requests are served at a time.
pub fn worker_count(configured: Option<usize>, cores: Option<usize>) -> (r: usize)
    ensures
        r == workers_for(configured, cores),
        r >= 1,
{
    match configured {
        Some(n) => {
            if n == 0 {
                1
            } else {
                n
            }
        },
        None => match cores {
            Some(c) => {
                if c < 16 {
                    16
                } else {
                    c
                }
            },
            None => 16,
        },
    }
}

// ---------------------------------------------------------------------------
// Checking
// ---------------------------------------------------------------------------

/// The type of a configured backend.
pub fn backend_type(b: &config::Backend) -> (r: &'static str)
    ensures
        r@ == type_text(*b),
{
    backend_type_str(b)
}

/// What a backend was found to be.
pub enum Probe {
    /// Of a program: whether it is an executable file.
    Executable(bool),
    /// Of `tmuxlet`: the path that was run, and how it ended.
    Ran { path: String, success: bool, code: Option<i32> },
    /// Of `tmuxlet`: why it could not be run.
    NotRun(String),
    /// Of an upstream: it takes connections.
    Connected,
    /// Of an upstream: why it takes none.
    NotConnected(String),
    /// Of an upstream: its host has no address.
    NoAddress,
}

/// The address of an upstream.
pub open spec fn upstream_address(base_url: Seq<char>) -> Seq<char> {
    let (_, host, port, _) = url_parts(base_url);
    host + ":"@ + decimal(port)
}

/// The address of an upstream.
pub fn address_of(base_url: &str) -> (r: String)
    ensures
        r@ == upstream_address(base_url@),
{
    let (_scheme, host, port, _path) = split_url(base_url);
    host.concat(":").concat(decimal_text(port as u128).as_str())
}

/// What is made of a probe, for a backend of any type.
pub open spec fn probe_outcome(b: config::Backend, p: Probe) -> (bool, Seq<char>) {
    match p {
        Probe::Executable(yes) => {
            let bin = match b {
                config::Backend::Cli { bin, .. } => bin@,
                _ => Seq::empty(),
            };
            if yes {
                (true, bin)
            } else {
                (false, bin + " not found or not executable"@)
            }
        },
        Probe::Ran { path, success, code } => if success {
            (true, path@)
        } else {
            (
                false,
                path@ + " exited "@ + signed_decimal(crate::backend::exit_code(code) as int),
            )
        },
        Probe::NotRun(e) => (false, "tmuxlet not runnable ("@ + e@ + ")"@),
        Probe::Connected => (true, "connected "@ + address_text(b)),
        Probe::NotConnected(e) => (
            false,
            "cannot connect "@ + address_text(b) + " ("@ + e@ + ")"@,
        ),
        Probe::NoAddress => (false, "cannot resolve "@ + address_text(b)),
    }
}

/// The address of a backend that is an upstream.
pub open spec fn address_text(b: config::Backend) -> Seq<char> {
    match b {
        config::Backend::Api { base_url, .. } => upstream_address(base_url@),
        _ => Seq::empty(),
    }
}

/// The line that says how a backend was found.
pub open spec fn probe_line(name: Seq<char>, b: config::Backend, p: Probe) -> Seq<char> {
    let (ok, detail) = probe_outcome(b, p);
    (if ok {
        "PASS "@
    } else {
        "FAIL "@
    }) + name + " ("@ + type_text(b) + ") — "@ + detail
}

fn address_or_empty(b: &config::Backend) -> (r: String)
    ensures
        r@ == address_text(*b),
{
    match b {
        config::Backend::Api { base_url, .. } => address_of(base_url.as_str()),
        _ => {
            let none = String::new();
            proof {
                assert(none@ =~= Seq::<char>::empty());
            }
            none
        },
    }
}

/// What is made of a probe.
fn judge_probe(b: &config::Backend, p: &Probe) -> (r: (bool, String))
    ensures
        (r.0, r.1@) == probe_outcome(*b, *p),
{
    match p {
        Probe::Executable(yes) => {
            let bin = match b {
                config::Backend::Cli { bin, .. } => bin.clone(),
                _ => String::new(),
            };
            proof {
                if !(b is Cli) {
                    assert(bin@ =~= Seq::<char>::empty());
                }
            }
            if *yes {
                (true, bin)
            } else {
                (false, bin.concat(" not found or not executable"))
            }
        },
        Probe::Ran { path, success, code } => {
            if *success {
                (true, path.clone())
            } else {
                let c: i32 = match code {
                    Some(c) => *c,
                    None => -1,
                };
                (
                    false,
                    path.clone().concat(" exited ").concat(signed_decimal_text(c as i64).as_str()),
                )
            }
        },
        Probe::NotRun(e) => (
            false,
            "tmuxlet not runnable (".to_owned().concat(e.as_str()).concat(")"),
        ),
        Probe::Connected => (
            true,
            "connected ".to_owned().concat(address_or_empty(b).as_str()),
        ),
        Probe::NotConnected(e) => (
            false,
            "cannot connect ".to_owned().concat(address_or_empty(b).as_str()).concat(" (").concat(
                e.as_str(),
            ).concat(")"),
        ),
        Probe::NoAddress => (
            false,
            "cannot resolve ".to_owned().concat(address_or_empty(b).as_str()),
        ),
    }
}

/// The lines on all backends, in the order of their names, given a probe of
/// each.
pub open spec fn probe_lines(cfg: Config, probes: Map<Seq<char>, Probe>) -> Seq<Seq<char>> {
    ordered_names(cfg.backends).map_values(
        |n: Seq<char>| probe_line(n, cfg.backends@[n], probes[n]),
    )
}

/// Every backend was found as it should be.
pub open spec fn all_pass(cfg: Config, probes: Map<Seq<char>, Probe>) -> bool {
    forall|n: Seq<char>|
        #[trigger] cfg.backends@.dom().contains(n) ==> probe_outcome(
            cfg.backends@[n],
            probes[n],
        ).0
}

/// Makes of the probes of all backends a line on each, and says whether every
/// one of them passed.
pub fn check_backends(cfg: &Config, probes: &NameMap<Probe>) -> (r: (Vec<String>, bool))
    requires
        forall|n: Seq<char>|
            #[trigger] cfg.backends@.dom().contains(n) ==> probes@.dom().contains(n),
    ensures
        views(r.0@) == probe_lines(*cfg, probes@),
        r.1 == all_pass(*cfg, probes@),
{
    let names = sorted_names(&cfg.backends);
    let ghost texts = views(names@);
    let mut lines: Vec<String> = Vec::new();
    let mut all_ok: bool = true;
    let mut i: usize = 0;
    while i < names.len()
        invariant
            i <= names@.len(),
            texts == views(names@),
            texts == ordered_names(cfg.backends),
            forall|n: Seq<char>|
                #[trigger] cfg.backends@.dom().contains(n) ==> probes@.dom().contains(n),
            forall|k: int|
                0 <= k < names@.len() ==> cfg.backends@.dom().contains((#[trigger] names@[k])@),
            lines@.len() == i,
            forall|k: int|
                0 <= k < i ==> #[trigger] lines@[k]@ == probe_line(
                    texts[k],
                    cfg.backends@[texts[k]],
                    probes@[texts[k]],
                ),
            all_ok == forall|k: int|
                0 <= k < i ==> probe_outcome(
                    cfg.backends@[#[trigger] texts[k]],
                    probes@[texts[k]],
                ).0,
        decreases names@.len() - i,
    {
        let name = names[i].as_str();
        proof {
            assert(texts[i as int] == name@);
            assert(cfg.backends@.dom().contains(names@[i as int]@));
        }
        if let Some(b) = cfg.backends.get(name) {
            if let Some(p) = probes.get(name) {
                let (ok, detail) = judge_probe(b, p);
                let word: &str = if ok {
                    "PASS "
                } else {
                    "FAIL "
                };
                lines.push(
                    word.to_owned().concat(name).concat(" (").concat(backend_type(b)).concat(
                        ") — ",
                    ).concat(detail.as_str()),
                );
                if !ok {
                    all_ok = false;
                    proof {
                        assert(!probe_outcome(
                            cfg.backends@[texts[i as int]],
                            probes@[texts[i as int]],
                        ).0);
                    }
                }
            }
        }
        i = i + 1;
    }
    proof {
        assert(views(lines@) =~= probe_lines(*cfg, probes@));
        lemma_every_name_is_listed(cfg.backends);
        if all_ok {
            assert forall|n: Seq<char>| #[trigger]
                cfg.backends@.dom().contains(n) implies probe_outcome(
                cfg.backends@[n],
                probes@[n],
            ).0 by {
                assert(texts.contains(n));
                let k = choose|k: int| 0 <= k < texts.len() && texts[k] == n;
                assert(probe_outcome(cfg.backends@[texts[k]], probes@[texts[k]]).0);
            }
        } else {
            let k = choose|k: int|
                0 <= k < texts.len() && !probe_outcome(
                    cfg.backends@[#[trigger] texts[k]],
                    probes@[texts[k]],
                ).0;
            assert(cfg.backends@.dom().contains(names@[k]@));
            assert(texts[k] == names@[k]@);
        }
    }
    (lines, all_ok)
}

/// Every name of a map is among its names in order.
proof fn lemma_every_name_is_listed<V>(m: NameMap<V>)
    ensures
        forall|n: Seq<char>|
            #[trigger] m@.dom().contains(n) ==> ordered_names(m).contains(n),
{
    broadcast use vstd::seq_lib::group_to_multiset_ensures;

    let all = m.pairs().map_values(|p: (Seq<char>, V)| p.0);
    crate::text::law_in_order(all);
    assert forall|n: Seq<char>| #[trigger] m@.dom().contains(n) implies ordered_names(m).contains(
        n,
    ) by {
        let i = place(m.pairs(), n);
        assert(all[i] == n);
        assert(all.contains(n));
        assert(ordered_names(m).to_multiset().count(n) > 0);
    }
}

/// What a check prints where nothing is doubtful.
pub open spec fn ok_text(cfg: Config) -> Seq<char> {
    "OK ("@ + decimal(cfg.backends.pairs().len()) + " backends, "@ + decimal(
        cfg.chains.pairs().len(),
    ) + " chains)"@
}

/// A backend that is a child process and has no allowlist of its own.
pub open spec fn lacks_pass(b: config::Backend) -> bool {
    match b {
        config::Backend::Tmuxlet { env_pass, .. } => env_pass is None,
        config::Backend::Cli { env_pass, .. } => env_pass is None,
        config::Backend::Api { .. } => false,
    }
}

/// Some backend is given the whole environment: neither it nor the server has
/// an allowlist.
pub open spec fn passes_everything(cfg: Config) -> bool {
    cfg.server.env_pass is None && exists|i: int|
        0 <= i < cfg.backends.pairs().len() && lacks_pass((#[trigger] cfg.backends.pairs()[i]).1)
}

/// The information that backends are given the whole environment.
pub open spec fn env_pass_text() -> Seq<char> {
    "note: env_pass is not set, so every captured variable is passed to backends — list what they need in [server] env_pass or per backend to narrow it"@
}

/// The information that backends are given the whole environment, where they
/// are. It is no complaint: that is the default.
pub fn env_pass_note(cfg: &Config) -> (r: Option<String>)
    ensures
        opt_view(r) == if passes_everything(*cfg) {
            Some(env_pass_text())
        } else {
            None
        },
{
    if cfg.server.env_pass.is_some() {
        return None;
    }
    let mut i: usize = 0;
    while i < cfg.backends.len()
        invariant
            i <= cfg.backends.pairs().len(),
            cfg.server.env_pass is None,
            forall|k: int| 0 <= k < i ==> !lacks_pass((#[trigger] cfg.backends.pairs()[k]).1),
        decreases cfg.backends.pairs().len() - i,
    {
        let bare: bool = match cfg.backends.value_at(i) {
            config::Backend::Tmuxlet { env_pass, .. } => env_pass.is_none(),
            config::Backend::Cli { env_pass, .. } => env_pass.is_none(),
            config::Backend::Api { .. } => false,
        };
        if bare {
            proof {
                assert(lacks_pass(cfg.backends.pairs()[i as int].1));
            }
            return Some(
                "note: env_pass is not set, so every captured variable is passed to backends — list what they need in [server] env_pass or per backend to narrow it".to_owned(),
            );
        }
        i = i + 1;
    }
    None
}

/// What comes of a check: what is printed, what is complained about, and
/// whether it failed.
pub struct Report {
    pub out: Option<String>,
    /// An information that fails nothing.
    pub note: Option<String>,
    /// What is doubtful.
    pub complaints: Vec<String>,
    /// Why the server would refuse to listen.
    pub refusal: Option<String>,
    pub failed: bool,
}

/// Makes the report of a check. Where the configuration is checked, what is
/// doubtful about it counts as an error, and so does an address that the server
/// would refuse to listen on; where backends are checked, each has to pass.
pub fn run_validate(
    args: &Args,
    cfg: &Config,
    warnings: &Vec<String>,
    backends_ok: bool,
    loopback: bool,
) -> (r: Report)
    ensures
        opt_view(r.out) == if args.validate && warnings@.len() == 0 {
            Some(ok_text(*cfg))
        } else {
            None
        },
        opt_view(r.note) == if args.validate && passes_everything(*cfg) {
            Some(env_pass_text())
        } else {
            None
        },
        views(r.complaints@) == if args.validate {
            views(warnings@)
        } else {
            Seq::empty()
        },
        opt_view(r.refusal) == if args.validate {
            bind_error(cfg.server.listen@, loopback, cfg.server.auth, args.allow_remote)
        } else {
            None
        },
        r.failed <==> (r.complaints@.len() > 0 || r.refusal is Some || (args.check_backends
            && !backends_ok)),
{
    let mut out: Option<String> = None;
    let mut info: Option<String> = None;
    let mut complaints: Vec<String> = Vec::new();
    let mut refusal: Option<String> = None;
    proof {
        assert(views(complaints@) =~= Seq::<Seq<char>>::empty());
    }
    if args.validate {
        if warnings.len() == 0 {
            out = Some(
                "OK (".to_owned().concat(decimal_text(cfg.backends.len() as u128).as_str()).concat(
                    " backends, ",
                ).concat(decimal_text(cfg.chains.len() as u128).as_str()).concat(" chains)"),
            );
        }
        info = env_pass_note(cfg);
        complaints = crate::backend::copy_list(warnings);
        refusal = match bind_policy(
            cfg.server.listen.as_str(),
            loopback,
            cfg.server.auth,
            args.allow_remote,
        ) {
            Ok(()) => None,
            Err(e) => Some(e),
        };
    }
    let failed: bool = complaints.len() > 0 || refusal.is_some() || (args.check_backends
        && !backends_ok);
    Report { out, note: info, complaints, refusal, failed }
}

// ---------------------------------------------------------------------------
// The backends as they are run
// ---------------------------------------------------------------------------

/// Whether the installed `tmuxlet` says that it reads standard input.
pub fn mentions_stdin(stdout: &[u8], stderr: &[u8]) -> (r: bool)
    ensures
        r == has_infix(lowered(utf8_text(stdout@) + utf8_text(stderr@)), "stdin"@),
{
    let text = read_utf8(stdout).concat(read_utf8(stderr).as_str());
    contains(lower_text(text.as_str()).as_str(), "stdin")
}

/// Whether any backend runs `tmuxlet`.
pub fn has_tmuxlet(cfg: &Config) -> (r: bool)
    ensures
        r == exists|i: int|
            0 <= i < cfg.backends.pairs().len() && (#[trigger] cfg.backends.pairs()[i]).1 is Tmuxlet,
{
    let mut i: usize = 0;
    while i < cfg.backends.len()
        invariant
            i <= cfg.backends.pairs().len(),
            forall|k: int|
                0 <= k < i ==> !((#[trigger] cfg.backends.pairs()[k]).1 is Tmuxlet),
        decreases cfg.backends.pairs().len() - i,
    {
        if let config::Backend::Tmuxlet { .. } = cfg.backends.value_at(i) {
            proof {
                assert(cfg.backends.pairs()[i as int].1 is Tmuxlet);
            }
            return true;
        }
        i = i + 1;
    }
    false
}

/// What is said of one backend's key: its variable is not set.
pub open spec fn key_warning(b: config::Backend, env: Map<Seq<char>, Seq<char>>) -> Seq<Seq<char>> {
    match b {
        config::Backend::Api { api_key_env: Some(k), .. } => if env.dom().contains(k@) {
            Seq::empty()
        } else {
            seq!["api_key_env "@ + k@ + " is unset"@]
        },
        _ => Seq::empty(),
    }
}

/// The warnings about keys whose variables are not set.
pub fn unset_keys(cfg: &Config, env: &Env) -> (r: Vec<String>)
    ensures
        views(r@) == gather(
            cfg.backends.pairs(),
            |p: (Seq<char>, config::Backend)| key_warning(p.1, env@),
        ),
{
    let mut out: Vec<String> = Vec::new();
    let ghost pairs = cfg.backends.pairs();
    let ghost f = |p: (Seq<char>, config::Backend)| key_warning(p.1, env@);
    let mut i: usize = 0;
    proof {
        assert(pairs.take(0).len() == 0);
        assert(views(out@) =~= gather(pairs.take(0), f));
    }
    while i < cfg.backends.len()
        invariant
            i <= pairs.len(),
            pairs == cfg.backends.pairs(),
            f == (|p: (Seq<char>, config::Backend)| key_warning(p.1, env@)),
            views(out@) == gather(pairs.take(i as int), f),
        decreases pairs.len() - i,
    {
        let ghost before = views(out@);
        proof {
            assert(pairs.take(i + 1).drop_last() =~= pairs.take(i as int));
            assert(pairs.take(i + 1).last() == pairs[i as int]);
        }
        if let config::Backend::Api { api_key_env: Some(k), .. } = cfg.backends.value_at(i) {
            if env.get(k.as_str()).is_none() {
                out.push("api_key_env ".to_owned().concat(k.as_str()).concat(" is unset"));
            }
        }
        proof {
            assert(views(out@) =~= before + key_warning(pairs[i as int].1, env@));
        }
        i = i + 1;
    }
    proof {
        assert(pairs.take(i as int) =~= pairs);
    }
    out
}

/// The same names, each with what its configured backend becomes.
pub open spec fn all_runtime(
    cfg: Config,
    backends: NameMap<Backend>,
    env: Map<Seq<char>, Seq<char>>,
    defaults: ServerDefaults,
    home: Option<Seq<char>>,
    executables: Seq<Seq<char>>,
) -> bool {
    &&& backends@.dom() == cfg.backends@.dom()
    &&& forall|n: Seq<char>|
        #[trigger] cfg.backends@.dom().contains(n) ==> is_runtime(
            backends@[n],
            n,
            cfg.backends@[n],
            env,
            defaults,
            home,
            executables,
        )
}

/// Makes all configured backends into ones that can be run.
pub fn build_backends(
    cfg: &Config,
    env: &Env,
    defaults: &ServerDefaults,
    home: Option<&str>,
    executables: &Vec<String>,
) -> (r: NameMap<Backend>)
    ensures
        all_runtime(
            *cfg,
            r,
            env@,
            *defaults,
            opt_str_view(home),
            views(executables@),
        ),
{
    let mut out: NameMap<Backend> = NameMap::new();
    let ghost pairs = cfg.backends.pairs();
    let mut i: usize = 0;
    while i < cfg.backends.len()
        invariant
            i <= pairs.len(),
            pairs == cfg.backends.pairs(),
            forall|n: Seq<char>|
                #[trigger] out@.dom().contains(n) <==> has_key(pairs.take(i as int), n),
            forall|k: int|
                0 <= k < i ==> is_runtime(
                    out@[(#[trigger] pairs[k]).0],
                    pairs[k].0,
                    pairs[k].1,
                    env@,
                    *defaults,
                    opt_str_view(home),
                    views(executables@),
                ),
        decreases pairs.len() - i,
    {
        let name = cfg.backends.key_at(i);
        let b = Backend::from_config(
            name.as_str(),
            cfg.backends.value_at(i),
            env,
            defaults,
            home,
            executables,
        );
        let ghost before = out@;
        let ghost key = name@;
        out.insert(name.clone(), b);
        proof {
            let t = pairs.take(i as int);
            let u = pairs.take(i + 1);
            assert forall|n: Seq<char>| #[trigger]
                out@.dom().contains(n) <==> has_key(u, n) by {
                if has_key(t, n) {
                    let j = place(t, n);
                    assert(u[j].0 == n);
                }
                if n == key {
                    assert(u[i as int].0 == n);
                }
                if has_key(u, n) {
                    let j = place(u, n);
                    if j < i {
                        assert(t[j].0 == n);
                    }
                }
            }
            assert forall|k: int| 0 <= k < i + 1 implies is_runtime(
                out@[(#[trigger] pairs[k]).0],
                pairs[k].0,
                pairs[k].1,
                env@,
                *defaults,
                opt_str_view(home),
                views(executables@),
            ) by {
                if k < i {
                    assert(pairs[k].0 != pairs[i as int].0);
                }
            }
        }
        i = i + 1;
    }
    proof {
        assert(pairs.take(i as int) =~= pairs);
        assert(out@.dom() =~= cfg.backends@.dom());
        lemma_map_of(pairs);
        assert forall|n: Seq<char>| #[trigger] cfg.backends@.dom().contains(n) implies is_runtime(
            out@[n],
            n,
            cfg.backends@[n],
            env@,
            *defaults,
            opt_str_view(home),
            views(executables@),
        ) by {
            let k = place(pairs, n);
            assert(pairs[k].0 == n);
        }
    }
    out
}

/// What is said once the server listens.
pub fn listening_line(cfg: &Config, auth_on: bool) -> (r: String)
    ensures
        r@ == "tmuxlet-server "@ + VERSION@ + " listening on http://"@
            + cfg.server.listen@ + " ("@ + decimal(cfg.backends.pairs().len()) + " backends, "@
            + decimal(cfg.chains.pairs().len()) + " chains, auth "@ + (if auth_on {
            "on"@
        } else {
            "off"@
        }) + ")"@,
{
    let word: &str = if auth_on {
        "on"
    } else {
        "off"
    };
    "tmuxlet-server ".to_owned().concat(VERSION).concat(" listening on http://").concat(
        cfg.server.listen.as_str(),
    ).concat(" (").concat(decimal_text(cfg.backends.len() as u128).as_str()).concat(
        " backends, ",
    ).concat(decimal_text(cfg.chains.len() as u128).as_str()).concat(" chains, auth ").concat(
        word,
    ).concat(")")
}

/// What is said of a server that the network can reach.
pub fn remote_warning(listen: &str) -> (r: String)
    ensures
        r@ == "bound to a non-loopback address ("@ + listen@
            + "); tiny_http has no TLS — use an SSH tunnel for remote access"@,
{
    "bound to a non-loopback address (".to_owned().concat(listen).concat(
        "); tiny_http has no TLS — use an SSH tunnel for remote access",
    )
}

/// How the server is to serve.
pub struct ServePlan {
    pub workers: usize,
    /// Whether errors are shortened for clients.
    pub redact_errors: bool,
    pub warnings: Vec<String>,
}

/// The warnings at the start: keys whose variables are not set, and a server
/// that the network can reach.
pub open spec fn start_warnings(
    cfg: Config,
    env: Map<Seq<char>, Seq<char>>,
    loopback: bool,
) -> Seq<Seq<char>> {
    let keys = gather(
        cfg.backends.pairs(),
        |p: (Seq<char>, config::Backend)| key_warning(p.1, env),
    );
    if loopback {
        keys
    } else {
        keys.push(
            "bound to a non-loopback address ("@ + cfg.server.listen@
                + "); tiny_http has no TLS — use an SSH tunnel for remote access"@,
        )
    }
}

/// Plans how the server serves, or says why it may not: it would be open to the
/// network without a token. A server that the network can reach tells its
/// clients no details of errors.
pub fn run_serve(
    cfg: &Config,
    env: &Env,
    auth_on: bool,
    loopback: bool,
    allow_remote: bool,
    cores: Option<usize>,
) -> (r: Result<ServePlan, String>)
    ensures
        match r {
            Ok(plan) => {
                &&& bind_error(cfg.server.listen@, loopback, auth_on, allow_remote) is None
                &&& plan.workers == workers_for(cfg.server.workers, cores)
                &&& plan.redact_errors == !loopback
                &&& views(plan.warnings@) == start_warnings(*cfg, env@, loopback)
            },
            Err(e) => bind_error(cfg.server.listen@, loopback, auth_on, allow_remote) == Some(e@),
        },
{
    match bind_policy(cfg.server.listen.as_str(), loopback, auth_on, allow_remote) {
        Ok(()) => {},
        Err(e) => {
            return Err(e);
        },
    }
    let mut warnings = unset_keys(cfg, env);
    let ghost before = views(warnings@);
    if !loopback {
        let w = remote_warning(cfg.server.listen.as_str());
        warnings.push(w);
        proof {
            assert(views(warnings@) =~= before.push(w@));
        }
    }
    Ok(
        ServePlan {
            workers: worker_count(cfg.server.workers, cores),
            redact_errors: !loopback,
            warnings,
        },
    )
}

/// A server without a token is open to the network only where somebody said
/// that it may be.
pub proof fn law_open_server_was_asked_for(
    listen: Seq<char>,
    loopback: bool,
    auth_on: bool,
    allow_remote: bool,
)
    requires
        bind_error(listen, loopback, auth_on, allow_remote) is None,
        !auth_on,
        !loopback,
    ensures
        allow_remote,
{
}

/// With backends made of a sound configuration, every leg of every model can be
/// run.
pub proof fn law_every_leg_can_be_run(
    state: crate::http::State,
    env: Map<Seq<char>, Seq<char>>,
    defaults: ServerDefaults,
    home: Option<Seq<char>>,
    executables: Seq<Seq<char>>,
    model: Seq<char>,
)
    requires
        config::config_is_sound(state.cfg),
        all_runtime(state.cfg, state.backends, env, defaults, home, executables),
    ensures
        crate::router::legs_for(state.cfg, model) is Some,
        crate::http::chain::all_run(state, crate::router::legs_for(state.cfg, model)->0),
{
    crate::router::law_every_model_resolves(state.cfg, model);
}

} // verus!
