//! Laws on starting up: what the arguments mean, what may be bound, how many
//! workers there are, and what is said of the backends.

use vstd::prelude::*;

use crate::backend::api::url_parts;
use crate::backend::{is_runtime, Backend, ServerDefaults};
use crate::config::{self, Config};
use crate::env::Env;
use crate::http::health::{ordered_names, type_text};
use crate::names::NameMap;
use crate::startup::{
    all_pass, all_runtime, bind_error, command_from, command_of, env_pass_text, has_tmuxlet,
    is_loopback, key_warning, lacks_pass, mentions_stdin, passes_everything, probe_lines,
    probe_outcome, run_serve, run_validate, start_warnings, upstream_address, workers_for, Args,
    ArgsView, Command, CommandView, Probe, Report, ServePlan,
};
use crate::text::{
    decimal, gather, has_infix, has_prefix, lowered, signed_decimal, utf8_text, views,
};

verus! {

// ---------------------------------------------------------------------------
// Arguments
// ---------------------------------------------------------------------------

proof fn lemma_arguments_differ()
    ensures
        "--version"@.len() == 9,
        "--version"@[2] == 'v',
        "-V"@.len() == 2,
        "-V"@[1] == 'V',
        "--help"@.len() == 6,
        "-h"@.len() == 2,
        "-h"@[1] == 'h',
        "--validate"@.len() == 10,
        "--validate"@[2] == 'v',
        "--check-backends"@.len() == 16,
        "--check-backends"@[3] == 'h',
        "--allow-remote-unauthenticated"@.len() == 30,
        "--allow-remote-unauthenticated"@[3] == 'l',
        "--config"@.len() == 8,
        "--config="@.len() == 9,
        "--config="@[2] == 'c',
        "--config="@[3] == 'o',
{
    reveal_strlit("--version");
    reveal_strlit("-V");
    reveal_strlit("--help");
    reveal_strlit("-h");
    reveal_strlit("--validate");
    reveal_strlit("--check-backends");
    reveal_strlit("--allow-remote-unauthenticated");
    reveal_strlit("--config");
    reveal_strlit("--config=");
}

/// Arguments are read in order, up to the first that asks for the version or
/// the help or is not known; each flag is set by its own argument, and a path
/// is the argument behind `--config` or the rest of `--config=`.
pub proof fn law_arguments_are_read_in_order(
    argv: Seq<Seq<char>>,
    i: int,
    a: ArgsView,
    path: Seq<char>,
)
    requires
        0 <= i < argv.len(),
    ensures
        ({
            let arg = argv[i];
            let r = command_from(argv, i, a);
            &&& arg == "--version"@ || arg == "-V"@ ==> r == CommandView::Version
            &&& arg == "--help"@ || arg == "-h"@ ==> r == CommandView::Help
            &&& arg == "--validate"@ ==> r == command_from(
                argv,
                i + 1,
                ArgsView {
                    config: a.config,
                    validate: true,
                    check_backends: a.check_backends,
                    allow_remote: a.allow_remote,
                },
            )
            &&& arg == "--check-backends"@ ==> r == command_from(
                argv,
                i + 1,
                ArgsView {
                    config: a.config,
                    validate: a.validate,
                    check_backends: true,
                    allow_remote: a.allow_remote,
                },
            )
            &&& arg == "--allow-remote-unauthenticated"@ ==> r == command_from(
                argv,
                i + 1,
                ArgsView {
                    config: a.config,
                    validate: a.validate,
                    check_backends: a.check_backends,
                    allow_remote: true,
                },
            )
            &&& arg == "--config"@ && i + 1 < argv.len() ==> r == command_from(
                argv,
                i + 2,
                ArgsView {
                    config: argv[i + 1],
                    validate: a.validate,
                    check_backends: a.check_backends,
                    allow_remote: a.allow_remote,
                },
            )
            &&& arg == "--config"@ && i + 1 == argv.len() ==> r == CommandView::Wrong(
                "--config requires a path"@,
            )
            &&& arg == "--config="@ + path ==> r == command_from(
                argv,
                i + 1,
                ArgsView {
                    config: path,
                    validate: a.validate,
                    check_backends: a.check_backends,
                    allow_remote: a.allow_remote,
                },
            )
            &&& arg != "--version"@ && arg != "-V"@ && arg != "--help"@ && arg != "-h"@ && arg
                != "--validate"@ && arg != "--check-backends"@ && arg
                != "--allow-remote-unauthenticated"@ && arg != "--config"@ && !has_prefix(
                arg,
                "--config="@,
            ) ==> r == CommandView::Wrong("unknown argument: "@ + arg)
        }),
{
    lemma_arguments_differ();
    let p = "--config="@;
    let arg = argv[i];
    if arg == p + path {
        assert(arg[2] == 'c' && arg[3] == 'o');
        assert(arg.len() >= 9);
        assert(arg.take(p.len() as int) =~= p);
        assert(arg.skip(p.len() as int) =~= path);
    }
}

/// Without arguments the server is started from its usual place; where anything
/// is to be checked it is checked, and nothing is started.
pub proof fn law_arguments_end_in_a_command(argv: Seq<Seq<char>>, a: ArgsView)
    ensures
        command_of(argv) == command_from(
            argv,
            0,
            ArgsView {
                config: "~/.tmuxlet/server.toml"@,
                validate: false,
                check_backends: false,
                allow_remote: false,
            },
        ),
        a.validate || a.check_backends ==> command_from(argv, argv.len() as int, a)
            == CommandView::Check(a),
        !a.validate && !a.check_backends ==> command_from(argv, argv.len() as int, a)
            == CommandView::Serve(a),
{
}

/// Commands of the model are those of the library.
pub proof fn law_commands_are_taken_as_they_are(a: Args, s: String)
    ensures
        Command::Version@ == CommandView::Version,
        Command::Help@ == CommandView::Help,
        Command::Wrong(s)@ == CommandView::Wrong(s@),
        Command::Check(a)@ == CommandView::Check(a@),
        Command::Serve(a)@ == CommandView::Serve(a@),
        a@.config == a.config@,
        a@.validate == a.validate,
        a@.check_backends == a.check_backends,
        a@.allow_remote == a.allow_remote,
{
}

// ---------------------------------------------------------------------------
// Binding and workers
// ---------------------------------------------------------------------------

/// A server is bound exactly where it can only be reached from here, or asks for
/// a token, or was told to do without.
pub proof fn law_open_servers_are_refused(
    listen: Seq<char>,
    loopback: bool,
    auth_on: bool,
    allow_remote: bool,
)
    ensures
        loopback || auth_on || allow_remote <==> bind_error(listen, loopback, auth_on, allow_remote)
            is None,
        bind_error(listen, loopback, auth_on, allow_remote) matches Some(t) ==> t
            == "refusing to bind non-loopback address '"@ + listen
            + "' without auth — set `auth = true` in server.toml (a token is generated to ~/.tmuxlet/token), or pass --allow-remote-unauthenticated to override"@,
{
}

/// An address can only be reached from here where it resolves, and to such
/// addresses alone.
pub proof fn law_loopback_means_all(v: Seq<bool>, i: int)
    ensures
        !is_loopback(None),
        v.len() == 0 ==> !is_loopback(Some(v)),
        0 <= i < v.len() && !v[i] ==> !is_loopback(Some(v)),
        v.len() > 0 && !v.contains(false) ==> is_loopback(Some(v)),
{
    if v.len() > 0 && !v.contains(false) {
        assert forall|k: int| 0 <= k < v.len() implies #[trigger] v[k] by {
            if !v[k] {
                assert(v.contains(v[k]));
            }
        }
    }
}

/// There are as many workers as configured, but one at least; where nothing is
/// configured there are as many as cores, but sixteen at least.
pub proof fn law_there_are_workers(n: usize, cores: Option<usize>)
    ensures
        n > 0 ==> workers_for(Some(n), cores) == n,
        workers_for(Some(0), cores) == 1,
        workers_for(None, None) == 16,
        n >= 16 ==> workers_for(None, Some(n)) == n,
        n <= 16 ==> workers_for(None, Some(n)) == 16,
{
}

/// What is served: as many workers as there are, with errors that tell no
/// details where it can be reached from elsewhere; a server that may not be
/// bound is not served.
pub proof fn law_servers_are_planned(
    cfg: Config,
    env: &Env,
    auth_on: bool,
    loopback: bool,
    allow_remote: bool,
    cores: Option<usize>,
    r: Result<ServePlan, String>,
)
    requires
        call_ensures(run_serve, (&cfg, env, auth_on, loopback, allow_remote, cores), r),
    ensures
        r is Ok <==> loopback || auth_on || allow_remote,
        r matches Ok(p) ==> p.workers >= 1 && p.redact_errors == !loopback,
        r matches Ok(p) ==> (cfg.server.workers matches Some(n) ==> n > 0 ==> p.workers == n),
        r matches Ok(p) ==> views(p.warnings@) == start_warnings(cfg, env@, loopback),
{
}

// ---------------------------------------------------------------------------
// Checking
// ---------------------------------------------------------------------------

/// A configuration passes exactly where nothing is doubted, it may be bound, and
/// its backends can be reached, as far as that was asked for.
pub proof fn law_checks_fail_for_a_reason(
    args: Args,
    cfg: Config,
    warnings: &Vec<String>,
    backends_ok: bool,
    loopback: bool,
    r: Report,
)
    requires
        call_ensures(run_validate, (&args, &cfg, warnings, backends_ok, loopback), r),
    ensures
        r.failed <==> (args.validate && warnings@.len() > 0) || (args.validate && !loopback
            && !cfg.server.auth && !args.allow_remote) || (args.check_backends && !backends_ok),
        r.out is Some <==> args.validate && warnings@.len() == 0,
        r.out matches Some(t) ==> t@ == "OK ("@ + decimal(cfg.backends.pairs().len())
            + " backends, "@ + decimal(cfg.chains.pairs().len()) + " chains)"@,
        args.validate ==> views(r.complaints@) == views(warnings@),
        !args.validate ==> r.complaints@.len() == 0 && r.refusal is None && r.note is None,
{
    assert(views(r.complaints@).len() == r.complaints@.len());
    assert(views(warnings@).len() == warnings@.len());
}

/// The address of an upstream is its host and its port.
pub proof fn law_upstreams_have_addresses(url: Seq<char>)
    ensures
        upstream_address(url) == url_parts(url).1 + ":"@ + decimal(url_parts(url).2),
{
}

/// What is said of a backend that was tried.
pub proof fn law_probes_are_told(
    name: Seq<char>,
    b: config::Backend,
    path: String,
    code: i32,
    e: String,
)
    ensures
        b is Cli ==> probe_outcome(b, Probe::Executable(true)) == (true, b->Cli_bin@),
        b is Cli ==> probe_outcome(b, Probe::Executable(false)) == (
            false,
            b->Cli_bin@ + " not found or not executable"@,
        ),
        probe_outcome(b, Probe::Ran { path, success: true, code: Some(code) }) == (true, path@),
        probe_outcome(b, Probe::Ran { path, success: false, code: Some(code) }) == (
            false,
            path@ + " exited "@ + signed_decimal(code as int),
        ),
        probe_outcome(b, Probe::Ran { path, success: false, code: None }) == (
            false,
            path@ + " exited "@ + signed_decimal(-1),
        ),
        probe_outcome(b, Probe::NotRun(e)) == (false, "tmuxlet not runnable ("@ + e@ + ")"@),
        b is Api ==> probe_outcome(b, Probe::Connected) == (
            true,
            "connected "@ + upstream_address(b->Api_base_url@),
        ),
        b is Api ==> probe_outcome(b, Probe::NotConnected(e)) == (
            false,
            "cannot connect "@ + upstream_address(b->Api_base_url@) + " ("@ + e@ + ")"@,
        ),
        b is Api ==> probe_outcome(b, Probe::NoAddress) == (
            false,
            "cannot resolve "@ + upstream_address(b->Api_base_url@),
        ),
{
}

/// Each backend has its line, in the order of the names, and all have passed
/// where each has.
pub proof fn law_every_backend_has_a_line(
    cfg: Config,
    probes: Map<Seq<char>, Probe>,
    i: int,
    n: Seq<char>,
)
    ensures
        probe_lines(cfg, probes).len() == ordered_names(cfg.backends).len(),
        0 <= i < ordered_names(cfg.backends).len() ==> ({
            let name = ordered_names(cfg.backends)[i];
            let b = cfg.backends@[name];
            let (ok, detail) = probe_outcome(b, probes[name]);
            &&& ok ==> probe_lines(cfg, probes)[i] == "PASS "@ + name + " ("@ + type_text(b)
                + ") — "@ + detail
            &&& !ok ==> probe_lines(cfg, probes)[i] == "FAIL "@ + name + " ("@ + type_text(b)
                + ") — "@ + detail
        }),
        all_pass(cfg, probes) && cfg.backends@.dom().contains(n) ==> probe_outcome(
            cfg.backends@[n],
            probes[n],
        ).0,
        cfg.backends@.dom().contains(n) && !probe_outcome(cfg.backends@[n], probes[n]).0
            ==> !all_pass(cfg, probes),
{
}

/// Everything is handed on where the server has no allowlist and some program
/// has none of its own.
pub proof fn law_everything_is_handed_on(cfg: Config, i: int)
    ensures
        cfg.server.env_pass is Some ==> !passes_everything(cfg),
        0 <= i < cfg.backends.pairs().len() && cfg.server.env_pass is None && (
        match cfg.backends.pairs()[i].1 {
            config::Backend::Tmuxlet { env_pass, .. } => env_pass is None,
            config::Backend::Cli { env_pass, .. } => env_pass is None,
            config::Backend::Api { .. } => false,
        }) ==> passes_everything(cfg),
        passes_everything(cfg) ==> exists|k: int|
            0 <= k < cfg.backends.pairs().len() && !((#[trigger] cfg.backends.pairs()[k]).1 is Api),
        env_pass_text()
            == "note: env_pass is not set, so every captured variable is passed to backends — list what they need in [server] env_pass or per backend to narrow it"@,
{
    if passes_everything(cfg) {
        let k = choose|k: int|
            0 <= k < cfg.backends.pairs().len() && lacks_pass(
                (#[trigger] cfg.backends.pairs()[k]).1,
            );
        assert(!(cfg.backends.pairs()[k].1 is Api));
    }
}

/// A program that is handed everything has no allowlist of its own.
pub proof fn law_allowlists_narrow(cfg: Config)
    requires
        passes_everything(cfg),
    ensures
        cfg.server.env_pass is None,
        exists|k: int|
            0 <= k < cfg.backends.pairs().len() && (match (
            #[trigger] cfg.backends.pairs()[k]).1 {
                config::Backend::Tmuxlet { env_pass, .. } => env_pass is None,
                config::Backend::Cli { env_pass, .. } => env_pass is None,
                config::Backend::Api { .. } => false,
            }),
{
    let k = choose|k: int|
        0 <= k < cfg.backends.pairs().len() && lacks_pass((#[trigger] cfg.backends.pairs()[k]).1);
    assert(lacks_pass(cfg.backends.pairs()[k].1));
}

/// An upstream is warned of exactly where it names a variable for its token that
/// is not there; and a server that can be reached from elsewhere last.
pub proof fn law_missing_keys_are_told(
    cfg: Config,
    env: Map<Seq<char>, Seq<char>>,
    b: config::Backend,
)
    ensures
        !(b is Api) ==> key_warning(b, env).len() == 0,
        b is Api && b->Api_api_key_env is None ==> key_warning(b, env).len() == 0,
        b is Api ==> (b->Api_api_key_env matches Some(k) ==> env.dom().contains(k@) ==> key_warning(
            b,
            env,
        ).len() == 0),
        b is Api ==> (b->Api_api_key_env matches Some(k) ==> !env.dom().contains(k@) ==> key_warning(
            b,
            env,
        ) == seq!["api_key_env "@ + k@ + " is unset"@]),
        start_warnings(cfg, env, true) == gather(
            cfg.backends.pairs(),
            |p: (Seq<char>, config::Backend)| key_warning(p.1, env),
        ),
        start_warnings(cfg, env, false) == start_warnings(cfg, env, true).push(
            "bound to a non-loopback address ("@ + cfg.server.listen@
                + "); tiny_http has no TLS — use an SSH tunnel for remote access"@,
        ),
{
}

/// There is one backend to be run for each that is configured, and none else.
pub proof fn law_every_backend_is_built(
    cfg: Config,
    backends: NameMap<Backend>,
    env: Map<Seq<char>, Seq<char>>,
    defaults: ServerDefaults,
    home: Option<Seq<char>>,
    executables: Seq<Seq<char>>,
    n: Seq<char>,
)
    requires
        all_runtime(cfg, backends, env, defaults, home, executables),
    ensures
        backends@.dom().contains(n) <==> cfg.backends@.dom().contains(n),
        cfg.backends@.dom().contains(n) ==> is_runtime(
            backends@[n],
            n,
            cfg.backends@[n],
            env,
            defaults,
            home,
            executables,
        ),
{
}

/// `tmuxlet` reads standard input where its help says so, and is asked where any
/// backend is one.
pub proof fn law_help_is_read(
    stdout: &[u8],
    stderr: &[u8],
    says: bool,
    cfg: Config,
    any: bool,
    i: int,
)
    requires
        call_ensures(mentions_stdin, (stdout, stderr), says),
        call_ensures(has_tmuxlet, (&cfg,), any),
    ensures
        says <==> has_infix(lowered(utf8_text(stdout@) + utf8_text(stderr@)), "stdin"@),
        0 <= i < cfg.backends.pairs().len() && cfg.backends.pairs()[i].1 is Tmuxlet ==> any,
        any ==> exists|k: int|
            0 <= k < cfg.backends.pairs().len() && (#[trigger] cfg.backends.pairs()[k]).1 is Tmuxlet,
{
}

} // verus!
