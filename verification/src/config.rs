//! The configuration: what it holds, when the server can serve with it, what
//! is doubtful about it, and how its paths are expanded.

use vstd::prelude::*;

use crate::json::Json;
use crate::names::{has_key, keys_differ, lemma_map_of, NameMap};
use crate::openai::{mode_of, PromptMode};
use crate::text::{
    chars_of, decimal, decimal_text, ends_with, first_of, gather, has_prefix, has_suffix,
    lemma_first_of_front, lemma_first_of_none, listed, lower_text, lowered, opt_view, same,
    starts_with, str_views, strip_prefix, trim_trailing, views, without_trailing,
};
use crate::toml_doc::{
    entries_of, lemma_table, lookup, parse_toml, toml_of_text, value_of, TomlItem, TomlView,
};
use crate::typo::{nearest, suggestion};

verus! {

// ---------------------------------------------------------------------------
// The configuration
// ---------------------------------------------------------------------------

/// The whole configuration.
pub struct Config {
    pub server: Server,
    pub backends: NameMap<Backend>,
    pub chains: NameMap<Chain>,
    /// Auto-routers; each name is a model that a client may ask for.
    pub routers: NameMap<Router>,
}

/// Settings of the server itself.
pub struct Server {
    pub listen: String,
    pub default_chain: String,
    pub request_timeout_secs: u64,
    pub env_source: String,
    /// The log level: error, warn, info or debug.
    pub log_level: String,
    /// How long a shell may take to print its environment.
    pub env_capture_timeout_secs: u64,
    /// Whether clients have to send a bearer token.
    pub auth: bool,
    /// The environment variable that holds the token, in place of the file.
    pub auth_token_env: Option<String>,
    /// The allowlist of environment variables for backends without their own.
    pub env_pass: Option<Vec<String>>,
    /// The limit on an upstream's response.
    pub max_response_bytes: u64,
    /// How many requests are served at a time.
    pub workers: Option<usize>,
    /// How long all legs of a chain may take together.
    pub chain_budget_secs: Option<u64>,
    /// Whether a backend that failed is passed over for a while.
    pub cooldown: bool,
    /// How long, where the failure gives no reason for another time.
    pub cooldown_secs: u64,
    /// Whether an unknown model is an error rather than the default chain.
    pub strict_models: bool,
    /// The origins that browsers may call from.
    pub cors_origins: Vec<String>,
}

/// The order in which a chain tries backends.
pub struct Chain {
    pub order: Vec<String>,
}

/// A router: a backend that classifies the task, and where each class goes.
pub struct Router {
    pub classifier: String,
    pub classifier_timeout_secs: u64,
    pub classifier_max_chars: usize,
    /// The class of a task that could not be classified.
    pub fallback_class: String,
    pub classifier_prompt: Option<String>,
    /// The chain or backend for each class.
    pub routes: NameMap<String>,
}

/// A configured backend.
pub enum Backend {
    Tmuxlet {
        target: String,
        target_args: Vec<String>,
        cwd: Option<String>,
        /// Whether an empty answer is a success.
        allow_empty: bool,
        env_pass: Option<Vec<String>>,
        max_concurrent: Option<usize>,
        prompt_mode: Option<String>,
    },
    Api {
        base_url: String,
        model: String,
        api_key_env: Option<String>,
        extra_body: Json,
        timeout_secs: Option<u64>,
        allow_empty: bool,
        max_concurrent: Option<usize>,
        /// A certificate authority to trust besides the usual ones.
        ca_file: Option<String>,
    },
    Cli {
        bin: String,
        args: Vec<String>,
        pty: bool,
        cwd: Option<String>,
        /// Columns and rows of the terminal.
        pty_size: Option<Vec<u16>>,
        allow_empty: bool,
        env_pass: Option<Vec<String>>,
        /// Whether the prompt goes to standard input rather than the arguments.
        stdin_prompt: bool,
        max_concurrent: Option<usize>,
        prompt_mode: Option<String>,
    },
}

/// The request timeout that is meant where none is configured.
pub fn default_timeout() -> (r: u64)
    ensures
        r == 1800,
{
    1800
}

/// The environment's source where none is configured.
pub fn default_env_source() -> (r: String)
    ensures
        r@ == "shell"@,
{
    "shell".to_owned()
}

/// The log level where none is configured.
pub fn default_log_level() -> (r: String)
    ensures
        r@ == "info"@,
{
    "info".to_owned()
}

/// The bound on capturing an environment where none is configured.
pub fn default_env_capture_timeout() -> (r: u64)
    ensures
        r == 15,
{
    15
}

/// The limit on a response where none is configured: 64 MiB.
pub fn default_max_response_bytes() -> (r: u64)
    ensures
        r == 64 * 1024 * 1024,
{
    64 * 1024 * 1024
}

/// The value of a switch that is on where it is not configured.
pub fn default_true() -> (r: bool)
    ensures
        r,
{
    true
}

/// The cooldown where none is configured.
pub fn default_cooldown_secs() -> (r: u64)
    ensures
        r == 60,
{
    60
}

/// The classifier's timeout where none is configured.
pub fn default_classifier_timeout() -> (r: u64)
    ensures
        r == 5,
{
    5
}

/// How much of a task a classifier sees where nothing is configured.
pub fn default_classifier_max_chars() -> (r: usize)
    ensures
        r == 4000,
{
    4000
}

// ---------------------------------------------------------------------------
// Errors
// ---------------------------------------------------------------------------

/// `n` is the name of a chain or of a backend.
pub open spec fn is_target(cfg: Config, n: Seq<char>) -> bool {
    cfg.chains@.dom().contains(n) || cfg.backends@.dom().contains(n)
}

/// What is wrong with one entry of a chain.
pub open spec fn leg_error(cfg: Config, cname: Seq<char>, b: Seq<char>) -> Option<Seq<char>> {
    if cfg.backends@.dom().contains(b) {
        None
    } else {
        Some("chain '"@ + cname + "' references undefined backend '"@ + b + "'"@)
    }
}

/// What is wrong with a chain: it is empty, or names what is no backend.
pub open spec fn chain_error(cfg: Config, cname: Seq<char>, chain: Chain) -> Option<Seq<char>> {
    if chain.order@.len() == 0 {
        Some("chain '"@ + cname + "' has an empty order"@)
    } else {
        first_of(views(chain.order@), |b: Seq<char>| leg_error(cfg, cname, b))
    }
}

/// What is wrong with the default chain.
pub open spec fn default_chain_error(cfg: Config) -> Option<Seq<char>> {
    if is_target(cfg, cfg.server.default_chain@) {
        None
    } else {
        Some(
            "server.default_chain '"@ + cfg.server.default_chain@
                + "' is not a defined chain or backend"@,
        )
    }
}

/// What is wrong with the address to listen on.
pub open spec fn listen_error(cfg: Config, listen_resolves: bool) -> Option<Seq<char>> {
    if listen_resolves {
        None
    } else {
        Some(
            "server.listen '"@ + cfg.server.listen@
                + "' is not a valid address:port (e.g. \"127.0.0.1:3456\")"@,
        )
    }
}

/// What is wrong with one route of a router.
pub open spec fn route_error(
    cfg: Config,
    rname: Seq<char>,
    class: Seq<char>,
    target: Seq<char>,
) -> Option<Seq<char>> {
    if is_target(cfg, target) {
        None
    } else {
        Some(
            "router '"@ + rname + "' route '"@ + class + "' -> '"@ + target
                + "' is not a defined chain or backend"@,
        )
    }
}

/// What is wrong with a router.
pub open spec fn router_error(cfg: Config, rname: Seq<char>, r: Router) -> Option<Seq<char>> {
    let routes = first_of(
        r.routes.pairs(),
        |p: (Seq<char>, String)| route_error(cfg, rname, p.0, p.1@),
    );
    if is_target(cfg, rname) {
        Some("router '"@ + rname + "' collides with a chain or backend name — rename one"@)
    } else if !cfg.backends@.dom().contains(r.classifier@) {
        Some(
            "router '"@ + rname + "' classifier '"@ + r.classifier@ + "' is not a defined backend"@,
        )
    } else if r.routes.pairs().len() == 0 {
        Some("router '"@ + rname + "' has no [routers."@ + rname + ".routes]"@)
    } else if routes is Some {
        routes
    } else if !r.routes@.dom().contains(r.fallback_class@) {
        Some(
            "router '"@ + rname + "' fallback_class '"@ + r.fallback_class@
                + "' is not one of its routes"@,
        )
    } else {
        None
    }
}

/// The first error among the chains.
pub open spec fn chains_error(cfg: Config) -> Option<Seq<char>> {
    first_of(cfg.chains.pairs(), |p: (Seq<char>, Chain)| chain_error(cfg, p.0, p.1))
}

/// The first error among the routers.
pub open spec fn routers_error(cfg: Config) -> Option<Seq<char>> {
    first_of(cfg.routers.pairs(), |p: (Seq<char>, Router)| router_error(cfg, p.0, p.1))
}

/// The first reason why the server cannot serve with this configuration.
pub open spec fn config_error(cfg: Config, listen_resolves: bool) -> Option<Seq<char>> {
    if chains_error(cfg) is Some {
        chains_error(cfg)
    } else if default_chain_error(cfg) is Some {
        default_chain_error(cfg)
    } else if listen_error(cfg, listen_resolves) is Some {
        listen_error(cfg, listen_resolves)
    } else {
        routers_error(cfg)
    }
}

/// A result as an optional error of the model.
pub open spec fn error_view(r: Result<(), String>) -> Option<Seq<char>> {
    match r {
        Ok(()) => None,
        Err(e) => Some(e@),
    }
}

/// Whether `n` is the name of a chain or of a backend.
pub fn names_target(cfg: &Config, n: &str) -> (r: bool)
    ensures
        r == is_target(*cfg, n@),
{
    cfg.chains.contains_key(n) || cfg.backends.contains_key(n)
}

/// Checks one chain.
fn check_chain(cfg: &Config, cname: &str, chain: &Chain) -> (r: Result<(), String>)
    ensures
        error_view(r) == chain_error(*cfg, cname@, *chain),
{
    if chain.order.len() == 0 {
        return Err("chain '".to_owned().concat(cname).concat("' has an empty order"));
    }
    let ghost legs = views(chain.order@);
    let ghost f = |b: Seq<char>| leg_error(*cfg, cname@, b);
    let mut i: usize = 0;
    while i < chain.order.len()
        invariant
            i <= chain.order@.len(),
            0 < chain.order@.len(),
            legs == views(chain.order@),
            f == (|b: Seq<char>| leg_error(*cfg, cname@, b)),
            first_of(legs.take(i as int), f) is None,
        decreases chain.order@.len() - i,
    {
        let b = chain.order[i].as_str();
        proof {
            assert(legs.take(i + 1).drop_last() =~= legs.take(i as int));
            assert(legs.take(i + 1).last() == b@);
            lemma_first_of_front(legs, f, i + 1);
        }
        if !cfg.backends.contains_key(b) {
            return Err(
                "chain '".to_owned().concat(cname).concat("' references undefined backend '").concat(
                    b,
                ).concat("'"),
            );
        }
        i = i + 1;
    }
    proof {
        assert(legs.take(i as int) =~= legs);
    }
    Ok(())
}

/// Checks the routes of a router.
fn check_routes(cfg: &Config, rname: &str, router: &Router) -> (r: Result<(), String>)
    ensures
        error_view(r) == first_of(
            router.routes.pairs(),
            |p: (Seq<char>, String)| route_error(*cfg, rname@, p.0, p.1@),
        ),
{
    let ghost pairs = router.routes.pairs();
    let ghost f = |p: (Seq<char>, String)| route_error(*cfg, rname@, p.0, p.1@);
    let mut i: usize = 0;
    while i < router.routes.len()
        invariant
            i <= pairs.len(),
            pairs == router.routes.pairs(),
            f == (|p: (Seq<char>, String)| route_error(*cfg, rname@, p.0, p.1@)),
            first_of(pairs.take(i as int), f) is None,
        decreases pairs.len() - i,
    {
        let class = router.routes.key_at(i).as_str();
        let target = router.routes.value_at(i).as_str();
        proof {
            assert(pairs.take(i + 1).drop_last() =~= pairs.take(i as int));
            assert(pairs.take(i + 1).last() == pairs[i as int]);
            lemma_first_of_front(pairs, f, i + 1);
        }
        if !names_target(cfg, target) {
            return Err(
                "router '".to_owned().concat(rname).concat("' route '").concat(class).concat(
                    "' -> '",
                ).concat(target).concat("' is not a defined chain or backend"),
            );
        }
        i = i + 1;
    }
    proof {
        assert(pairs.take(i as int) =~= pairs);
    }
    Ok(())
}

/// Checks one router.
fn check_router(cfg: &Config, rname: &str, router: &Router) -> (r: Result<(), String>)
    ensures
        error_view(r) == router_error(*cfg, rname@, *router),
{
    if names_target(cfg, rname) {
        return Err(
            "router '".to_owned().concat(rname).concat(
                "' collides with a chain or backend name — rename one",
            ),
        );
    }
    if !cfg.backends.contains_key(router.classifier.as_str()) {
        return Err(
            "router '".to_owned().concat(rname).concat("' classifier '").concat(
                router.classifier.as_str(),
            ).concat("' is not a defined backend"),
        );
    }
    if router.routes.len() == 0 {
        return Err(
            "router '".to_owned().concat(rname).concat("' has no [routers.").concat(rname).concat(
                ".routes]",
            ),
        );
    }
    match check_routes(cfg, rname, router) {
        Ok(()) => {},
        Err(e) => {
            return Err(e);
        },
    }
    if !router.routes.contains_key(router.fallback_class.as_str()) {
        return Err(
            "router '".to_owned().concat(rname).concat("' fallback_class '").concat(
                router.fallback_class.as_str(),
            ).concat("' is not one of its routes"),
        );
    }
    Ok(())
}

/// Checks all chains.
fn check_chains(cfg: &Config) -> (r: Result<(), String>)
    ensures
        error_view(r) == chains_error(*cfg),
{
    let ghost pairs = cfg.chains.pairs();
    let ghost f = |p: (Seq<char>, Chain)| chain_error(*cfg, p.0, p.1);
    let mut i: usize = 0;
    while i < cfg.chains.len()
        invariant
            i <= pairs.len(),
            pairs == cfg.chains.pairs(),
            f == (|p: (Seq<char>, Chain)| chain_error(*cfg, p.0, p.1)),
            first_of(pairs.take(i as int), f) is None,
        decreases pairs.len() - i,
    {
        proof {
            assert(pairs.take(i + 1).drop_last() =~= pairs.take(i as int));
            assert(pairs.take(i + 1).last() == pairs[i as int]);
            lemma_first_of_front(pairs, f, i + 1);
        }
        match check_chain(cfg, cfg.chains.key_at(i).as_str(), cfg.chains.value_at(i)) {
            Ok(()) => {},
            Err(e) => {
                return Err(e);
            },
        }
        i = i + 1;
    }
    proof {
        assert(pairs.take(i as int) =~= pairs);
    }
    Ok(())
}

/// Checks all routers.
fn check_routers(cfg: &Config) -> (r: Result<(), String>)
    ensures
        error_view(r) == routers_error(*cfg),
{
    let ghost pairs = cfg.routers.pairs();
    let ghost f = |p: (Seq<char>, Router)| router_error(*cfg, p.0, p.1);
    let mut i: usize = 0;
    while i < cfg.routers.len()
        invariant
            i <= pairs.len(),
            pairs == cfg.routers.pairs(),
            f == (|p: (Seq<char>, Router)| router_error(*cfg, p.0, p.1)),
            first_of(pairs.take(i as int), f) is None,
        decreases pairs.len() - i,
    {
        proof {
            assert(pairs.take(i + 1).drop_last() =~= pairs.take(i as int));
            assert(pairs.take(i + 1).last() == pairs[i as int]);
            lemma_first_of_front(pairs, f, i + 1);
        }
        match check_router(cfg, cfg.routers.key_at(i).as_str(), cfg.routers.value_at(i)) {
            Ok(()) => {},
            Err(e) => {
                return Err(e);
            },
        }
        i = i + 1;
    }
    proof {
        assert(pairs.take(i as int) =~= pairs);
    }
    Ok(())
}

/// Checks that the server can serve with this configuration.
/// `listen_resolves` says whether the address to listen on can be resolved.
pub fn validate(cfg: &Config, listen_resolves: bool) -> (r: Result<(), String>)
    ensures
        error_view(r) == config_error(*cfg, listen_resolves),
{
    match check_chains(cfg) {
        Ok(()) => {},
        Err(e) => {
            return Err(e);
        },
    }
    if !names_target(cfg, cfg.server.default_chain.as_str()) {
        return Err(
            "server.default_chain '".to_owned().concat(cfg.server.default_chain.as_str()).concat(
                "' is not a defined chain or backend",
            ),
        );
    }
    if !listen_resolves {
        return Err(
            "server.listen '".to_owned().concat(cfg.server.listen.as_str()).concat(
                "' is not a valid address:port (e.g. \"127.0.0.1:3456\")",
            ),
        );
    }
    check_routers(cfg)
}

/// Every name of a list is that of a backend.
pub open spec fn all_backends(cfg: Config, names: Seq<Seq<char>>) -> bool {
    forall|i: int| 0 <= i < names.len() ==> cfg.backends@.dom().contains(#[trigger] names[i])
}

/// A chain that can be run: at least one leg, and every leg a backend.
pub open spec fn chain_is_sound(cfg: Config, chain: Chain) -> bool {
    chain.order@.len() > 0 && all_backends(cfg, views(chain.order@))
}

/// A router that can be run.
pub open spec fn router_is_sound(cfg: Config, rname: Seq<char>, r: Router) -> bool {
    &&& !is_target(cfg, rname)
    &&& cfg.backends@.dom().contains(r.classifier@)
    &&& r.routes@.dom().contains(r.fallback_class@)
    &&& forall|class: Seq<char>|
        r.routes@.dom().contains(class) ==> is_target(cfg, (#[trigger] r.routes@[class])@)
}

/// A configuration that the server can serve with.
pub open spec fn config_is_sound(cfg: Config) -> bool {
    &&& is_target(cfg, cfg.server.default_chain@)
    &&& forall|n: Seq<char>|
        cfg.chains@.dom().contains(n) ==> chain_is_sound(cfg, #[trigger] cfg.chains@[n])
    &&& forall|n: Seq<char>|
        cfg.routers@.dom().contains(n) ==> router_is_sound(cfg, n, #[trigger] cfg.routers@[n])
}

/// No map of the configuration has a name twice.
pub open spec fn names_are_distinct(cfg: Config) -> bool {
    &&& keys_differ(cfg.backends.pairs())
    &&& keys_differ(cfg.chains.pairs())
    &&& keys_differ(cfg.routers.pairs())
    &&& forall|i: int|
        0 <= i < cfg.routers.pairs().len() ==> keys_differ(
            (#[trigger] cfg.routers.pairs()[i]).1.routes.pairs(),
        )
}

proof fn lemma_chain_error(cfg: Config, cname: Seq<char>, chain: Chain)
    ensures
        chain_error(cfg, cname, chain) is None <==> chain_is_sound(cfg, chain),
{
    let legs = views(chain.order@);
    lemma_first_of_none(legs, |b: Seq<char>| leg_error(cfg, cname, b));
    if chain_is_sound(cfg, chain) {
        assert forall|i: int| 0 <= i < legs.len() implies leg_error(
            cfg,
            cname,
            #[trigger] legs[i],
        ) is None by {}
    }
    if chain_error(cfg, cname, chain) is None {
        assert forall|i: int| 0 <= i < legs.len() implies cfg.backends@.dom().contains(
            #[trigger] legs[i],
        ) by {
            assert(leg_error(cfg, cname, legs[i]) is None);
        }
    }
}

proof fn lemma_router_error(cfg: Config, rname: Seq<char>, r: Router)
    requires
        keys_differ(r.routes.pairs()),
    ensures
        router_error(cfg, rname, r) is None <==> router_is_sound(cfg, rname, r),
{
    let pairs = r.routes.pairs();
    let f = |p: (Seq<char>, String)| route_error(cfg, rname, p.0, p.1@);
    lemma_first_of_none(pairs, f);
    lemma_map_of(pairs);
    if router_error(cfg, rname, r) is None {
        assert forall|class: Seq<char>| r.routes@.dom().contains(class) implies is_target(
            cfg,
            (#[trigger] r.routes@[class])@,
        ) by {
            let i = crate::names::place(pairs, class);
            assert(f(pairs[i]) is None);
        }
    }
    if router_is_sound(cfg, rname, r) {
        assert forall|i: int| 0 <= i < pairs.len() implies f(#[trigger] pairs[i]) is None by {
            assert(r.routes@.dom().contains(pairs[i].0));
            assert(r.routes@[pairs[i].0] == pairs[i].1);
        }
        assert(has_key(pairs, r.fallback_class@));
    }
}

/// A configuration passes exactly where its address resolves and it is sound.
pub proof fn law_valid_iff_sound(cfg: Config, listen_resolves: bool)
    requires
        names_are_distinct(cfg),
    ensures
        config_error(cfg, listen_resolves) is None <==> listen_resolves && config_is_sound(cfg),
{
    let chains = cfg.chains.pairs();
    let routers = cfg.routers.pairs();
    let fc = |p: (Seq<char>, Chain)| chain_error(cfg, p.0, p.1);
    let fr = |p: (Seq<char>, Router)| router_error(cfg, p.0, p.1);
    lemma_first_of_none(chains, fc);
    lemma_first_of_none(routers, fr);
    lemma_map_of(chains);
    lemma_map_of(routers);
    if config_error(cfg, listen_resolves) is None {
        assert forall|n: Seq<char>| cfg.chains@.dom().contains(n) implies chain_is_sound(
            cfg,
            #[trigger] cfg.chains@[n],
        ) by {
            let i = crate::names::place(chains, n);
            assert(fc(chains[i]) is None);
            lemma_chain_error(cfg, chains[i].0, chains[i].1);
        }
        assert forall|n: Seq<char>| cfg.routers@.dom().contains(n) implies router_is_sound(
            cfg,
            n,
            #[trigger] cfg.routers@[n],
        ) by {
            let i = crate::names::place(routers, n);
            assert(fr(routers[i]) is None);
            assert(keys_differ(routers[i].1.routes.pairs()));
            lemma_router_error(cfg, routers[i].0, routers[i].1);
        }
    }
    if listen_resolves && config_is_sound(cfg) {
        assert forall|i: int| 0 <= i < chains.len() implies fc(#[trigger] chains[i]) is None by {
            assert(cfg.chains@.dom().contains(chains[i].0));
            assert(cfg.chains@[chains[i].0] == chains[i].1);
            lemma_chain_error(cfg, chains[i].0, chains[i].1);
        }
        assert forall|i: int| 0 <= i < routers.len() implies fr(#[trigger] routers[i]) is None by {
            assert(cfg.routers@.dom().contains(routers[i].0));
            assert(cfg.routers@[routers[i].0] == routers[i].1);
            assert(keys_differ(routers[i].1.routes.pairs()));
            lemma_router_error(cfg, routers[i].0, routers[i].1);
        }
    }
}

// ---------------------------------------------------------------------------
// Unknown keys
// ---------------------------------------------------------------------------

/// The keys of the whole document.
pub open spec fn known_top() -> Seq<Seq<char>> {
    seq!["server"@, "backends"@, "chains"@, "routers"@]
}

/// The keys of the server.
pub open spec fn known_server() -> Seq<Seq<char>> {
    seq![
        "listen"@,
        "default_chain"@,
        "request_timeout_secs"@,
        "env_source"@,
        "log_level"@,
        "env_capture_timeout_secs"@,
        "auth"@,
        "auth_token_env"@,
        "env_pass"@,
        "max_response_bytes"@,
        "workers"@,
        "chain_budget_secs"@,
        "cooldown"@,
        "cooldown_secs"@,
        "strict_models"@,
        "cors_origins"@,
    ]
}

/// The keys of a chain.
pub open spec fn known_chain() -> Seq<Seq<char>> {
    seq!["order"@]
}

/// The keys of a tmuxlet backend.
pub open spec fn known_tmuxlet() -> Seq<Seq<char>> {
    seq![
        "type"@,
        "target"@,
        "target_args"@,
        "cwd"@,
        "allow_empty"@,
        "env_pass"@,
        "max_concurrent"@,
        "prompt_mode"@,
    ]
}

/// The keys of an API backend.
pub open spec fn known_api() -> Seq<Seq<char>> {
    seq![
        "type"@,
        "base_url"@,
        "model"@,
        "api_key_env"@,
        "extra_body"@,
        "timeout_secs"@,
        "allow_empty"@,
        "max_concurrent"@,
        "ca_file"@,
    ]
}

/// The keys of a CLI backend.
pub open spec fn known_cli() -> Seq<Seq<char>> {
    seq![
        "type"@,
        "bin"@,
        "args"@,
        "pty"@,
        "cwd"@,
        "pty_size"@,
        "allow_empty"@,
        "env_pass"@,
        "stdin_prompt"@,
        "max_concurrent"@,
        "prompt_mode"@,
    ]
}

/// The keys of a router.
pub open spec fn known_router() -> Seq<Seq<char>> {
    seq![
        "classifier"@,
        "classifier_timeout_secs"@,
        "classifier_max_chars"@,
        "fallback_class"@,
        "classifier_prompt"@,
        "routes"@,
    ]
}

/// The keys of a backend of unknown type.
pub open spec fn known_untyped() -> Seq<Seq<char>> {
    seq!["type"@]
}

fn top_keys() -> (r: Vec<&'static str>)
    ensures
        str_views(r@) == known_top(),
{
    let r: Vec<&'static str> = vec!["server", "backends", "chains", "routers"];
    proof {
        assert(str_views(r@) =~= known_top());
    }
    r
}

fn server_keys() -> (r: Vec<&'static str>)
    ensures
        str_views(r@) == known_server(),
{
    let r: Vec<&'static str> = vec![
        "listen",
        "default_chain",
        "request_timeout_secs",
        "env_source",
        "log_level",
        "env_capture_timeout_secs",
        "auth",
        "auth_token_env",
        "env_pass",
        "max_response_bytes",
        "workers",
        "chain_budget_secs",
        "cooldown",
        "cooldown_secs",
        "strict_models",
        "cors_origins",
    ];
    proof {
        assert(str_views(r@) =~= known_server());
    }
    r
}

fn chain_keys() -> (r: Vec<&'static str>)
    ensures
        str_views(r@) == known_chain(),
{
    let r: Vec<&'static str> = vec!["order"];
    proof {
        assert(str_views(r@) =~= known_chain());
    }
    r
}

fn tmuxlet_keys() -> (r: Vec<&'static str>)
    ensures
        str_views(r@) == known_tmuxlet(),
{
    let r: Vec<&'static str> = vec![
        "type",
        "target",
        "target_args",
        "cwd",
        "allow_empty",
        "env_pass",
        "max_concurrent",
        "prompt_mode",
    ];
    proof {
        assert(str_views(r@) =~= known_tmuxlet());
    }
    r
}

fn api_keys() -> (r: Vec<&'static str>)
    ensures
        str_views(r@) == known_api(),
{
    let r: Vec<&'static str> = vec![
        "type",
        "base_url",
        "model",
        "api_key_env",
        "extra_body",
        "timeout_secs",
        "allow_empty",
        "max_concurrent",
        "ca_file",
    ];
    proof {
        assert(str_views(r@) =~= known_api());
    }
    r
}

fn cli_keys() -> (r: Vec<&'static str>)
    ensures
        str_views(r@) == known_cli(),
{
    let r: Vec<&'static str> = vec![
        "type",
        "bin",
        "args",
        "pty",
        "cwd",
        "pty_size",
        "allow_empty",
        "env_pass",
        "stdin_prompt",
        "max_concurrent",
        "prompt_mode",
    ];
    proof {
        assert(str_views(r@) =~= known_cli());
    }
    r
}

fn router_keys() -> (r: Vec<&'static str>)
    ensures
        str_views(r@) == known_router(),
{
    let r: Vec<&'static str> = vec![
        "classifier",
        "classifier_timeout_secs",
        "classifier_max_chars",
        "fallback_class",
        "classifier_prompt",
        "routes",
    ];
    proof {
        assert(str_views(r@) =~= known_router());
    }
    r
}

fn untyped_keys() -> (r: Vec<&'static str>)
    ensures
        str_views(r@) == known_untyped(),
{
    let r: Vec<&'static str> = vec!["type"];
    proof {
        assert(str_views(r@) =~= known_untyped());
    }
    r
}

/// A key that is not known, with the one that it may have been meant to be.
pub open spec fn findings(v: Seq<(String, Option<String>)>) -> Seq<
    (Seq<char>, Option<Seq<char>>),
> {
    v.map_values(|f: (String, Option<String>)| (f.0@, opt_view(f.1)))
}

/// The finding for one key of a table.
pub open spec fn key_finding(
    prefix: Seq<char>,
    allowed: Seq<Seq<char>>,
    key: Seq<char>,
) -> Seq<(Seq<char>, Option<Seq<char>>)> {
    if allowed.contains(key) {
        Seq::empty()
    } else {
        seq![(prefix + key, suggestion(key, allowed))]
    }
}

/// The unknown keys of one table.
pub open spec fn unknown_in(
    prefix: Seq<char>,
    table: Seq<(Seq<char>, TomlView)>,
    allowed: Seq<Seq<char>>,
) -> Seq<(Seq<char>, Option<Seq<char>>)> {
    gather(table, |e: (Seq<char>, TomlView)| key_finding(prefix, allowed, e.0))
}

/// A section of named tables.
#[derive(Clone, Copy, PartialEq, Eq, Structural, Debug)]
pub enum Section {
    Chains,
    Backends,
    Routers,
}

/// The name of a section.
pub open spec fn section_name(s: Section) -> Seq<char> {
    match s {
        Section::Chains => "chains"@,
        Section::Backends => "backends"@,
        Section::Routers => "routers"@,
    }
}

/// The type that a backend's table gives.
pub open spec fn declared_type(table: Seq<(Seq<char>, TomlView)>) -> Seq<char> {
    match value_of(table, "type"@) {
        Some(TomlView::Text(s)) => s,
        _ => Seq::empty(),
    }
}

/// The keys that a table of a section may have; a backend's depend on its type.
pub open spec fn allowed_in(s: Section, table: Seq<(Seq<char>, TomlView)>) -> Seq<Seq<char>> {
    match s {
        Section::Chains => known_chain(),
        Section::Routers => known_router(),
        Section::Backends => {
            let ty = declared_type(table);
            if ty == "tmuxlet"@ {
                known_tmuxlet()
            } else if ty == "api"@ {
                known_api()
            } else if ty == "cli"@ {
                known_cli()
            } else {
                known_untyped()
            }
        },
    }
}

/// The unknown keys of one entry of a section.
pub open spec fn entry_findings(s: Section, e: (Seq<char>, TomlView)) -> Seq<
    (Seq<char>, Option<Seq<char>>),
> {
    match e.1 {
        TomlView::Table(t) => unknown_in(
            section_name(s) + "."@ + e.0 + "."@,
            t,
            allowed_in(s, t),
        ),
        _ => Seq::empty(),
    }
}

/// The unknown keys of a section.
pub open spec fn section_findings(doc: Seq<(Seq<char>, TomlView)>, s: Section) -> Seq<
    (Seq<char>, Option<Seq<char>>),
> {
    match value_of(doc, section_name(s)) {
        Some(TomlView::Table(t)) => gather(
            t,
            |e: (Seq<char>, TomlView)| entry_findings(s, e),
        ),
        _ => Seq::empty(),
    }
}

/// The unknown keys of the server's table.
pub open spec fn server_findings(doc: Seq<(Seq<char>, TomlView)>) -> Seq<
    (Seq<char>, Option<Seq<char>>),
> {
    match value_of(doc, "server"@) {
        Some(TomlView::Table(t)) => unknown_in("server."@, t, known_server()),
        _ => Seq::empty(),
    }
}

/// The unknown keys of a document.
pub open spec fn document_findings(doc: Seq<(Seq<char>, TomlView)>) -> Seq<
    (Seq<char>, Option<Seq<char>>),
> {
    unknown_in(Seq::empty(), doc, known_top()) + server_findings(doc) + section_findings(
        doc,
        Section::Chains,
    ) + section_findings(doc, Section::Backends) + section_findings(doc, Section::Routers)
}

/// Whether a key is among the known ones.
fn is_known(key: &str, allowed: &Vec<&str>) -> (r: bool)
    ensures
        r == str_views(allowed@).contains(key@),
{
    let ghost texts = str_views(allowed@);
    let mut i: usize = 0;
    while i < allowed.len()
        invariant
            i <= allowed@.len(),
            texts == str_views(allowed@),
            forall|j: int| 0 <= j < i ==> #[trigger] texts[j] != key@,
        decreases allowed@.len() - i,
    {
        proof {
            assert(texts[i as int] == allowed@[i as int]@);
        }
        if same(allowed[i], key) {
            proof {
                assert(texts.contains(texts[i as int]));
            }
            return true;
        }
        i = i + 1;
    }
    false
}

/// Adds the unknown keys of one table.
fn add_unknown(
    out: &mut Vec<(String, Option<String>)>,
    prefix: &str,
    table: &Vec<(String, TomlItem)>,
    allowed: &Vec<&str>,
)
    ensures
        findings(final(out)@) == findings(old(out)@) + unknown_in(
            prefix@,
            entries_of(table@),
            str_views(allowed@),
        ),
{
    let ghost first = findings(out@);
    let ghost all = entries_of(table@);
    let ghost known = str_views(allowed@);
    let ghost f = |e: (Seq<char>, TomlView)| key_finding(prefix@, known, e.0);
    let mut i: usize = 0;
    proof {
        assert(findings(out@) =~= first + gather(all.take(0), f));
    }
    while i < table.len()
        invariant
            i <= table@.len(),
            all == entries_of(table@),
            known == str_views(allowed@),
            f == (|e: (Seq<char>, TomlView)| key_finding(prefix@, known, e.0)),
            findings(out@) == first + gather(all.take(i as int), f),
        decreases table@.len() - i,
    {
        let key = table[i].0.as_str();
        let ghost before = out@;
        proof {
            assert(all.take(i + 1).drop_last() =~= all.take(i as int));
            assert(all.take(i + 1).last().0 == key@);
        }
        if !is_known(key, allowed) {
            let name = prefix.to_owned().concat(key);
            let hint = nearest(key, allowed);
            out.push((name, hint));
            proof {
                assert(findings(out@) =~= findings(before).push((name@, opt_view(hint))));
            }
        }
        proof {
            assert(findings(out@) =~= first + gather(all.take(i + 1), f));
        }
        i = i + 1;
    }
    proof {
        assert(all.take(i as int) =~= all);
    }
}

/// The keys that a table of a section may have.
fn allowed_keys(s: Section, table: &Vec<(String, TomlItem)>) -> (r: Vec<&'static str>)
    ensures
        str_views(r@) == allowed_in(s, entries_of(table@)),
{
    match s {
        Section::Chains => chain_keys(),
        Section::Routers => router_keys(),
        Section::Backends => {
            proof {
                reveal_strlit("tmuxlet");
                reveal_strlit("api");
                reveal_strlit("cli");
                assert("tmuxlet"@.len() > 0 && "api"@.len() > 0 && "cli"@.len() > 0);
            }
            match lookup(table, "type") {
                Some(TomlItem::Text(ty)) => {
                    if same(ty.as_str(), "tmuxlet") {
                        tmuxlet_keys()
                    } else if same(ty.as_str(), "api") {
                        api_keys()
                    } else if same(ty.as_str(), "cli") {
                        cli_keys()
                    } else {
                        untyped_keys()
                    }
                },
                _ => untyped_keys(),
            }
        },
    }
}

/// A section's name with a dot behind it.
fn section_prefix(s: Section) -> (r: &'static str)
    ensures
        r@ == section_name(s) + "."@,
{
    match s {
        Section::Chains => {
            proof {
                reveal_strlit("chains");
                reveal_strlit("chains.");
                reveal_strlit(".");
                assert("chains."@ =~= "chains"@ + "."@);
            }
            "chains."
        },
        Section::Backends => {
            proof {
                reveal_strlit("backends");
                reveal_strlit("backends.");
                reveal_strlit(".");
                assert("backends."@ =~= "backends"@ + "."@);
            }
            "backends."
        },
        Section::Routers => {
            proof {
                reveal_strlit("routers");
                reveal_strlit("routers.");
                reveal_strlit(".");
                assert("routers."@ =~= "routers"@ + "."@);
            }
            "routers."
        },
    }
}

/// A section's name.
fn section_key(s: Section) -> (r: &'static str)
    ensures
        r@ == section_name(s),
{
    match s {
        Section::Chains => "chains",
        Section::Backends => "backends",
        Section::Routers => "routers",
    }
}

/// Adds the unknown keys of one section.
fn add_section(
    out: &mut Vec<(String, Option<String>)>,
    doc: &Vec<(String, TomlItem)>,
    s: Section,
)
    ensures
        findings(final(out)@) == findings(old(out)@) + section_findings(entries_of(doc@), s),
{
    let ghost first = findings(out@);
    match lookup(doc, section_key(s)) {
        Some(TomlItem::Table(t)) => {
            proof {
                lemma_table(*t);
            }
            let ghost all = entries_of(t@);
            let ghost f = |e: (Seq<char>, TomlView)| entry_findings(s, e);
            let mut i: usize = 0;
            proof {
                assert(findings(out@) =~= first + gather(all.take(0), f));
            }
            while i < t.len()
                invariant
                    i <= t@.len(),
                    all == entries_of(t@),
                    f == (|e: (Seq<char>, TomlView)| entry_findings(s, e)),
                    findings(out@) == first + gather(all.take(i as int), f),
                decreases t@.len() - i,
            {
                proof {
                    assert(all.take(i + 1).drop_last() =~= all.take(i as int));
                    assert(all.take(i + 1).last() == (t@[i as int].0@, t@[i as int].1@));
                }
                if let TomlItem::Table(inner) = &t[i].1 {
                    proof {
                        lemma_table(*inner);
                    }
                    let prefix = section_prefix(s).to_owned().concat(t[i].0.as_str()).concat(".");
                    let allowed = allowed_keys(s, inner);
                    let ghost before = findings(out@);
                    add_unknown(out, prefix.as_str(), inner, &allowed);
                    proof {
                        assert(findings(out@) =~= first + gather(all.take(i + 1), f));
                    }
                } else {
                    proof {
                        assert(findings(out@) =~= first + gather(all.take(i + 1), f));
                    }
                }
                i = i + 1;
            }
            proof {
                assert(all.take(i as int) =~= all);
            }
        },
        _ => {
            proof {
                assert(findings(out@) =~= first + section_findings(entries_of(doc@), s));
            }
        },
    }
}

/// The keys of a document that the configuration does not know, each with its
/// path and the nearest known key.
pub fn unknown_keys_of(doc: &Vec<(String, TomlItem)>) -> (r: Vec<(String, Option<String>)>)
    ensures
        findings(r@) == document_findings(entries_of(doc@)),
{
    let mut out: Vec<(String, Option<String>)> = Vec::new();
    proof {
        reveal_strlit("");
        assert(""@ =~= Seq::<char>::empty());
        assert(findings(out@) =~= Seq::<(Seq<char>, Option<Seq<char>>)>::empty());
    }
    let ghost entries = entries_of(doc@);
    let top = top_keys();
    add_unknown(&mut out, "", doc, &top);
    proof {
        assert(findings(out@) =~= unknown_in(Seq::empty(), entries, known_top()));
    }
    match lookup(doc, "server") {
        Some(TomlItem::Table(t)) => {
            proof {
                lemma_table(*t);
            }
            let keys = server_keys();
            add_unknown(&mut out, "server.", t, &keys);
        },
        _ => {
            proof {
                assert(findings(out@) =~= findings(out@) + server_findings(entries));
            }
        },
    }
    add_section(&mut out, doc, Section::Chains);
    add_section(&mut out, doc, Section::Backends);
    add_section(&mut out, doc, Section::Routers);
    out
}

/// The unknown keys of a text; none where it is no TOML document, which is
/// reported elsewhere.
pub open spec fn text_findings(doc: Option<TomlView>) -> Seq<(Seq<char>, Option<Seq<char>>)> {
    match doc {
        Some(TomlView::Table(t)) => document_findings(t),
        _ => Seq::empty(),
    }
}

/// The keys of a configuration text that the configuration does not know.
pub fn unknown_keys(text: &str) -> (r: Vec<(String, Option<String>)>)
    ensures
        findings(r@) == text_findings(toml_of_text(text@)),
{
    match parse_toml(text) {
        Some(TomlItem::Table(doc)) => {
            proof {
                lemma_table(doc);
            }
            unknown_keys_of(&doc)
        },
        _ => {
            let none: Vec<(String, Option<String>)> = Vec::new();
            proof {
                assert(findings(none@) =~= Seq::<(Seq<char>, Option<Seq<char>>)>::empty());
            }
            none
        },
    }
}

// ---------------------------------------------------------------------------
// Paths
// ---------------------------------------------------------------------------

/// A path with a leading `~` replaced by the home directory, where it is known.
pub open spec fn expanded(s: Seq<char>, home: Option<Seq<char>>) -> Seq<char> {
    if home is None {
        s
    } else if s == "~"@ {
        home->0
    } else if has_prefix(s, "~/"@) {
        home->0 + "/"@ + s.skip("~/"@.len() as int)
    } else {
        s
    }
}

/// A path with a leading `~` replaced by the home directory.
pub fn expand_tilde(s: &str, home: Option<&str>) -> (r: String)
    ensures
        r@ == expanded(s@, crate::text::opt_str_view(home)),
{
    match home {
        None => s.to_owned(),
        Some(h) => {
            if same(s, "~") {
                return h.to_owned();
            }
            match strip_prefix(s, "~/") {
                Some(rest) => h.to_owned().concat("/").concat(rest.as_str()),
                None => s.to_owned(),
            }
        },
    }
}

/// A path with a leading `~` replaced by the home directory.
pub fn tilde_path(s: &str, home: Option<&str>) -> (r: String)
    ensures
        r@ == expanded(s@, crate::text::opt_str_view(home)),
{
    expand_tilde(s, home)
}

/// An optional path, expanded.
pub open spec fn opt_expanded(s: Option<Seq<char>>, home: Option<Seq<char>>) -> Option<Seq<char>> {
    match s {
        Some(t) => Some(expanded(t, home)),
        None => None,
    }
}

/// An optional path, expanded.
fn expand_opt(s: Option<String>, home: Option<&str>) -> (r: Option<String>)
    ensures
        opt_view(r) == opt_expanded(opt_view(s), crate::text::opt_str_view(home)),
{
    match s {
        Some(t) => Some(expand_tilde(t.as_str(), home)),
        None => None,
    }
}

/// `new` is `old` with its paths expanded and everything else as it was.
pub open spec fn is_expanded(old: Backend, new: Backend, home: Option<Seq<char>>) -> bool {
    match old {
        Backend::Tmuxlet {
            target,
            target_args,
            cwd,
            allow_empty,
            env_pass,
            max_concurrent,
            prompt_mode,
        } => {
            &&& new is Tmuxlet
            &&& new->Tmuxlet_target == target
            &&& new->Tmuxlet_target_args == target_args
            &&& opt_view(new->Tmuxlet_cwd) == opt_expanded(opt_view(cwd), home)
            &&& new->Tmuxlet_allow_empty == allow_empty
            &&& new->Tmuxlet_env_pass == env_pass
            &&& new->Tmuxlet_max_concurrent == max_concurrent
            &&& new->Tmuxlet_prompt_mode == prompt_mode
        },
        Backend::Api {
            base_url,
            model,
            api_key_env,
            extra_body,
            timeout_secs,
            allow_empty,
            max_concurrent,
            ca_file,
        } => {
            &&& new is Api
            &&& new->Api_base_url == base_url
            &&& new->Api_model == model
            &&& new->Api_api_key_env == api_key_env
            &&& new->Api_extra_body == extra_body
            &&& new->Api_timeout_secs == timeout_secs
            &&& new->Api_allow_empty == allow_empty
            &&& new->Api_max_concurrent == max_concurrent
            &&& opt_view(new->Api_ca_file) == opt_expanded(opt_view(ca_file), home)
        },
        Backend::Cli {
            bin,
            args,
            pty,
            cwd,
            pty_size,
            allow_empty,
            env_pass,
            stdin_prompt,
            max_concurrent,
            prompt_mode,
        } => {
            &&& new is Cli
            &&& new->Cli_bin@ == expanded(bin@, home)
            &&& new->Cli_args == args
            &&& new->Cli_pty == pty
            &&& opt_view(new->Cli_cwd) == opt_expanded(opt_view(cwd), home)
            &&& new->Cli_pty_size == pty_size
            &&& new->Cli_allow_empty == allow_empty
            &&& new->Cli_env_pass == env_pass
            &&& new->Cli_stdin_prompt == stdin_prompt
            &&& new->Cli_max_concurrent == max_concurrent
            &&& new->Cli_prompt_mode == prompt_mode
        },
    }
}

/// A backend with its paths expanded.
fn expand_backend(b: Backend, home: Option<&str>) -> (r: Backend)
    ensures
        is_expanded(b, r, crate::text::opt_str_view(home)),
{
    match b {
        Backend::Tmuxlet {
            target,
            target_args,
            cwd,
            allow_empty,
            env_pass,
            max_concurrent,
            prompt_mode,
        } => Backend::Tmuxlet {
            target,
            target_args,
            cwd: expand_opt(cwd, home),
            allow_empty,
            env_pass,
            max_concurrent,
            prompt_mode,
        },
        Backend::Api {
            base_url,
            model,
            api_key_env,
            extra_body,
            timeout_secs,
            allow_empty,
            max_concurrent,
            ca_file,
        } => Backend::Api {
            base_url,
            model,
            api_key_env,
            extra_body,
            timeout_secs,
            allow_empty,
            max_concurrent,
            ca_file: expand_opt(ca_file, home),
        },
        Backend::Cli {
            bin,
            args,
            pty,
            cwd,
            pty_size,
            allow_empty,
            env_pass,
            stdin_prompt,
            max_concurrent,
            prompt_mode,
        } => Backend::Cli {
            bin: expand_tilde(bin.as_str(), home),
            args,
            pty,
            cwd: expand_opt(cwd, home),
            pty_size,
            allow_empty,
            env_pass,
            stdin_prompt,
            max_concurrent,
            prompt_mode,
        },
    }
}

/// The same names in the same order, each with its backend expanded.
pub open spec fn all_expanded(
    old: Seq<(Seq<char>, Backend)>,
    new: Seq<(Seq<char>, Backend)>,
    home: Option<Seq<char>>,
) -> bool {
    &&& old.len() == new.len()
    &&& forall|i: int|
        0 <= i < old.len() ==> (#[trigger] new[i]).0 == old[i].0 && is_expanded(
            old[i].1,
            new[i].1,
            home,
        )
}

/// Expands every path of the configuration: the working directories, the
/// programs and the certificate files of its backends.
pub fn expand_paths(cfg: &mut Config, home: Option<&str>)
    ensures
        all_expanded(
            old(cfg).backends.pairs(),
            final(cfg).backends.pairs(),
            crate::text::opt_str_view(home),
        ),
        final(cfg).server == old(cfg).server,
        final(cfg).chains == old(cfg).chains,
        final(cfg).routers == old(cfg).routers,
{
    let mut whole: NameMap<Backend> = NameMap::new();
    std::mem::swap(&mut cfg.backends, &mut whole);
    let ghost all = whole.pairs();
    let ghost h = crate::text::opt_str_view(home);
    let mut rest: Vec<(String, Backend)> = whole.into_entries();
    let ghost tail = rest@;
    let mut done: NameMap<Backend> = NameMap::new();
    while rest.len() > 0
        invariant
            keys_differ(all),
            rest@.len() <= all.len(),
            h == crate::text::opt_str_view(home),
            crate::names::entry_pairs(rest@) == all.skip(all.len() - rest@.len()),
            all_expanded(all.take(all.len() - rest@.len()), done.pairs(), h),
        decreases rest@.len(),
    {
        let ghost k = all.len() - rest@.len();
        let ghost before = rest@;
        let (name, b) = rest.remove(0);
        proof {
            assert(crate::names::entry_pairs(before)[0] == all[k]);
            assert forall|j: int| 0 <= j < rest@.len() implies #[trigger] crate::names::entry_pairs(
                rest@,
            )[j] == all.skip(k + 1)[j] by {
                assert(crate::names::entry_pairs(before)[j + 1] == all.skip(k)[j + 1]);
                assert(rest@[j] == before[j + 1]);
            }
            assert(crate::names::entry_pairs(rest@) =~= all.skip(k + 1));
        }
        let ghost key = name@;
        let ghost prior = done.pairs();
        let new = expand_backend(b, home);
        done.insert(name, new);
        proof {
            assert(!has_key(prior, key)) by {
                if has_key(prior, key) {
                    let j = crate::names::place(prior, key);
                    assert(prior[j].0 == all.take(k)[j].0);
                    assert(all[j].0 != all[k].0);
                }
            }
            let new_pairs = done.pairs();
            assert(new_pairs =~= prior.push((key, new)));
            assert forall|i: int| 0 <= i < k + 1 implies (#[trigger] new_pairs[i]).0 == all.take(
                k + 1,
            )[i].0 && is_expanded(all.take(k + 1)[i].1, new_pairs[i].1, h) by {
                if i < k {
                    assert(new_pairs[i] == prior[i]);
                    assert(all.take(k + 1)[i] == all.take(k)[i]);
                }
            }
        }
    }
    proof {
        assert(all.take(all.len() as int) =~= all);
    }
    cfg.backends = done;
}

// ---------------------------------------------------------------------------
// Doubts
// ---------------------------------------------------------------------------

/// What is said of an unknown key.
pub open spec fn unknown_message(f: (Seq<char>, Option<Seq<char>>)) -> Seq<char> {
    match f.1 {
        Some(s) => "unknown config key '"@ + f.0 + "' — did you mean '"@ + s + "'?"@,
        None => "unknown config key '"@ + f.0 + "'"@,
    }
}

/// What is said of all unknown keys.
pub open spec fn unknown_messages(unknown: Seq<(Seq<char>, Option<Seq<char>>)>) -> Seq<Seq<char>> {
    unknown.map_values(|f: (Seq<char>, Option<Seq<char>>)| unknown_message(f))
}

/// What is said of a chain's name: it may hide a backend.
pub open spec fn collision_message(cfg: Config, name: Seq<char>) -> Seq<Seq<char>> {
    if cfg.backends@.dom().contains(name) {
        seq![
            "'"@ + name
                + "' is both a chain and a backend; the chain shadows the backend in routing — rename one"@,
        ]
    } else {
        Seq::empty()
    }
}

/// What is said of the chains' names.
pub open spec fn collision_messages(cfg: Config) -> Seq<Seq<char>> {
    gather(cfg.chains.pairs(), |p: (Seq<char>, Chain)| collision_message(cfg, p.0))
}

/// What is said of the server's settings.
pub open spec fn server_messages(server: Server) -> Seq<Seq<char>> {
    let timeout: Seq<Seq<char>> = if server.request_timeout_secs == 0 {
        seq![
            "server.request_timeout_secs = 0 means 'no deadline' for api backends but 'instant timeout' for cli/tmuxlet — omit the key for the default (1800)"@,
        ]
    } else {
        Seq::empty()
    };
    let workers: Seq<Seq<char>> = if server.workers == Some(0usize) {
        seq![
            "server.workers = 0 spawns no worker threads and would serve nothing — set workers >= 1 or omit the key for the default"@,
        ]
    } else {
        Seq::empty()
    };
    let source: Seq<Seq<char>> = if server.env_source@ == "shell"@ || server.env_source@
        == "process"@ {
        Seq::empty()
    } else {
        seq![
            "server.env_source '"@ + server.env_source@
                + "' is neither 'shell' nor 'process' — it will be treated as 'shell'"@,
        ]
    };
    let l = server.log_level@;
    let level: Seq<Seq<char>> = if l == "error"@ || l == "warn"@ || l == "info"@ || l
        == "debug"@ {
        Seq::empty()
    } else {
        seq![
            "server.log_level '"@ + l
                + "' is not one of error|warn|info|debug — it will be treated as 'info'"@,
        ]
    };
    timeout + workers + source + level
}

/// What is said of a terminal's size.
pub open spec fn pty_size_message(name: Seq<char>, b: Backend) -> Seq<Seq<char>> {
    match b {
        Backend::Cli { pty_size: Some(ps), .. } => if ps@.len() != 2 {
            seq![
                "backends."@ + name + ".pty_size must be [cols, rows] (2 elements), got "@ + decimal(
                    ps@.len(),
                ) + " — using the default [200, 50]"@,
            ]
        } else {
            Seq::empty()
        },
        _ => Seq::empty(),
    }
}

/// The prompt mode that a backend is configured with.
pub open spec fn configured_mode(b: Backend) -> Option<Seq<char>> {
    match b {
        Backend::Cli { prompt_mode, .. } => opt_view(prompt_mode),
        Backend::Tmuxlet { prompt_mode, .. } => opt_view(prompt_mode),
        Backend::Api { .. } => None,
    }
}

/// What is said of a prompt mode.
pub open spec fn prompt_mode_message(name: Seq<char>, b: Backend) -> Seq<Seq<char>> {
    match configured_mode(b) {
        Some(m) => if mode_of(m) is None {
            seq![
                "backends."@ + name + ".prompt_mode '"@ + m
                    + "' is neither 'transcript' nor 'last_user' — using 'transcript'"@,
            ]
        } else {
            Seq::empty()
        },
        None => Seq::empty(),
    }
}

/// What is said of a certificate file, given those that exist.
pub open spec fn ca_file_message(name: Seq<char>, b: Backend, present: Seq<Seq<char>>) -> Seq<
    Seq<char>,
> {
    match b {
        Backend::Api { ca_file: Some(p), .. } => if present.contains(p@) {
            Seq::empty()
        } else {
            seq![
                "backends."@ + name + ".ca_file '"@ + p@
                    + "' does not exist — create it or drop the key to use the system CAs"@,
            ]
        },
        _ => Seq::empty(),
    }
}

/// What is said of one backend.
pub open spec fn backend_messages(name: Seq<char>, b: Backend, present: Seq<Seq<char>>) -> Seq<
    Seq<char>,
> {
    pty_size_message(name, b) + prompt_mode_message(name, b) + ca_file_message(name, b, present)
}

/// What is said of all backends.
pub open spec fn all_backend_messages(cfg: Config, present: Seq<Seq<char>>) -> Seq<Seq<char>> {
    gather(cfg.backends.pairs(), |p: (Seq<char>, Backend)| backend_messages(p.0, p.1, present))
}

/// A text has an ASCII capital.
pub open spec fn has_capital(s: Seq<char>) -> bool {
    exists|i: int| 0 <= i < s.len() && 'A' <= #[trigger] s[i] <= 'Z'
}

/// What is said of an origin that no browser's `Origin` header can equal, or
/// that should not be allowed.
pub open spec fn origin_message(o: Seq<char>) -> Seq<Seq<char>> {
    if o == "*"@ {
        seq![
            "server.cors_origins entry \"*\" is not a wildcard — matching is exact; list each origin explicitly, e.g. http://localhost:5173"@,
        ]
    } else if o == "null"@ {
        seq![
            "server.cors_origins entry \"null\" matches the spoofable \"Origin: null\" (sandboxed iframes, file://); remove it unless you truly mean to allow those"@,
        ]
    } else if !has_prefix(o, "http://"@) && !has_prefix(o, "https://"@) {
        seq![
            "server.cors_origins '"@ + o
                + "' has no scheme — a browser Origin is scheme://host[:port], e.g. http://"@ + o,
        ]
    } else if has_suffix(o, "/"@) {
        seq![
            "server.cors_origins '"@ + o
                + "' has a trailing slash — a browser Origin has none, e.g. "@ + without_trailing(
                o,
                '/',
            ),
        ]
    } else if has_capital(o) {
        seq![
            "server.cors_origins '"@ + o
                + "' has uppercase characters — browsers send the Origin lowercased, so it can never match; use '"@
                + lowered(o) + "'"@,
        ]
    } else {
        Seq::empty()
    }
}

/// What is said of all origins.
pub open spec fn origin_messages(origins: Seq<Seq<char>>) -> Seq<Seq<char>> {
    gather(origins, |o: Seq<char>| origin_message(o))
}

/// All that is doubtful about a configuration, in order.
pub open spec fn doubts(
    cfg: Config,
    unknown: Seq<(Seq<char>, Option<Seq<char>>)>,
    present: Seq<Seq<char>>,
) -> Seq<Seq<char>> {
    unknown_messages(unknown) + collision_messages(cfg) + server_messages(cfg.server)
        + all_backend_messages(cfg, present) + origin_messages(views(cfg.server.cors_origins@))
}

/// A message that stands alone.
fn one(m: String) -> (r: Vec<String>)
    ensures
        views(r@) == seq![m@],
{
    let mut r: Vec<String> = Vec::new();
    r.push(m);
    proof {
        assert(views(r@) =~= seq![m@]);
    }
    r
}

/// No message.
fn nothing() -> (r: Vec<String>)
    ensures
        views(r@) == Seq::<Seq<char>>::empty(),
{
    let r: Vec<String> = Vec::new();
    proof {
        assert(views(r@) =~= Seq::<Seq<char>>::empty());
    }
    r
}

/// Adds messages behind those that are there.
fn add_all(out: &mut Vec<String>, more: Vec<String>)
    ensures
        views(final(out)@) == views(old(out)@) + views(more@),
{
    let ghost before = out@;
    let mut m: Vec<String> = more;
    let ghost added = m@;
    out.append(&mut m);
    proof {
        assert(views(out@) =~= views(before) + views(added));
    }
}

/// The messages on unknown keys.
fn lint_unknown(unknown: &Vec<(String, Option<String>)>) -> (r: Vec<String>)
    ensures
        views(r@) == unknown_messages(findings(unknown@)),
{
    let mut out: Vec<String> = Vec::new();
    let ghost all = findings(unknown@);
    let mut i: usize = 0;
    while i < unknown.len()
        invariant
            i <= unknown@.len(),
            all == findings(unknown@),
            out@.len() == i,
            forall|k: int| 0 <= k < i ==> #[trigger] out@[k]@ == unknown_message(all[k]),
        decreases unknown@.len() - i,
    {
        let key = unknown[i].0.as_str();
        let m = match &unknown[i].1 {
            Some(s) => "unknown config key '".to_owned().concat(key).concat(
                "' — did you mean '",
            ).concat(s.as_str()).concat("'?"),
            None => "unknown config key '".to_owned().concat(key).concat("'"),
        };
        proof {
            assert(m@ == unknown_message(all[i as int]));
        }
        out.push(m);
        i = i + 1;
    }
    proof {
        assert(views(out@) =~= unknown_messages(all));
    }
    out
}

/// The messages on chains that hide backends.
fn lint_collisions(cfg: &Config) -> (r: Vec<String>)
    ensures
        views(r@) == collision_messages(*cfg),
{
    let mut out: Vec<String> = nothing();
    let ghost pairs = cfg.chains.pairs();
    let ghost f = |p: (Seq<char>, Chain)| collision_message(*cfg, p.0);
    let mut i: usize = 0;
    proof {
        assert(pairs.take(0).len() == 0);
    }
    while i < cfg.chains.len()
        invariant
            i <= pairs.len(),
            pairs == cfg.chains.pairs(),
            f == (|p: (Seq<char>, Chain)| collision_message(*cfg, p.0)),
            views(out@) == gather(pairs.take(i as int), f),
        decreases pairs.len() - i,
    {
        let name = cfg.chains.key_at(i).as_str();
        proof {
            assert(pairs.take(i + 1).drop_last() =~= pairs.take(i as int));
            assert(pairs.take(i + 1).last() == pairs[i as int]);
        }
        let found = if cfg.backends.contains_key(name) {
            one(
                "'".to_owned().concat(name).concat(
                    "' is both a chain and a backend; the chain shadows the backend in routing — rename one",
                ),
            )
        } else {
            nothing()
        };
        add_all(&mut out, found);
        i = i + 1;
    }
    proof {
        assert(pairs.take(i as int) =~= pairs);
    }
    out
}

/// The messages on the server's settings.
fn lint_server(server: &Server) -> (r: Vec<String>)
    ensures
        views(r@) == server_messages(*server),
{
    let mut out = if server.request_timeout_secs == 0 {
        one(
            "server.request_timeout_secs = 0 means 'no deadline' for api backends but 'instant timeout' for cli/tmuxlet — omit the key for the default (1800)".to_owned(),
        )
    } else {
        nothing()
    };
    let workers = match server.workers {
        Some(0) => one(
            "server.workers = 0 spawns no worker threads and would serve nothing — set workers >= 1 or omit the key for the default".to_owned(),
        ),
        _ => nothing(),
    };
    let s = server.env_source.as_str();
    let source = if same(s, "shell") || same(s, "process") {
        nothing()
    } else {
        one(
            "server.env_source '".to_owned().concat(s).concat(
                "' is neither 'shell' nor 'process' — it will be treated as 'shell'",
            ),
        )
    };
    let l = server.log_level.as_str();
    let level = if same(l, "error") || same(l, "warn") || same(l, "info") || same(l, "debug") {
        nothing()
    } else {
        one(
            "server.log_level '".to_owned().concat(l).concat(
                "' is not one of error|warn|info|debug — it will be treated as 'info'",
            ),
        )
    };
    add_all(&mut out, workers);
    add_all(&mut out, source);
    add_all(&mut out, level);
    out
}

/// The messages on one backend.
fn lint_backend(name: &str, b: &Backend, present: &Vec<String>) -> (r: Vec<String>)
    ensures
        views(r@) == backend_messages(name@, *b, views(present@)),
{
    let mut out = match b {
        Backend::Cli { pty_size: Some(ps), .. } => {
            if ps.len() != 2 {
                one(
                    "backends.".to_owned().concat(name).concat(
                        ".pty_size must be [cols, rows] (2 elements), got ",
                    ).concat(decimal_text(ps.len() as u128).as_str()).concat(
                        " — using the default [200, 50]",
                    ),
                )
            } else {
                nothing()
            }
        },
        _ => nothing(),
    };
    let mode: &Option<String> = match b {
        Backend::Cli { prompt_mode, .. } => prompt_mode,
        Backend::Tmuxlet { prompt_mode, .. } => prompt_mode,
        Backend::Api { .. } => &None,
    };
    let prompt = match mode {
        Some(m) => {
            if PromptMode::parse(m.as_str()).is_none() {
                one(
                    "backends.".to_owned().concat(name).concat(".prompt_mode '").concat(
                        m.as_str(),
                    ).concat("' is neither 'transcript' nor 'last_user' — using 'transcript'"),
                )
            } else {
                nothing()
            }
        },
        None => nothing(),
    };
    let ca = match b {
        Backend::Api { ca_file: Some(p), .. } => {
            if listed(p.as_str(), present) {
                nothing()
            } else {
                one(
                    "backends.".to_owned().concat(name).concat(".ca_file '").concat(
                        p.as_str(),
                    ).concat("' does not exist — create it or drop the key to use the system CAs"),
                )
            }
        },
        _ => nothing(),
    };
    add_all(&mut out, prompt);
    add_all(&mut out, ca);
    out
}

/// The messages on all backends.
fn lint_backends(cfg: &Config, present: &Vec<String>) -> (r: Vec<String>)
    ensures
        views(r@) == all_backend_messages(*cfg, views(present@)),
{
    let mut out: Vec<String> = nothing();
    let ghost pairs = cfg.backends.pairs();
    let ghost here = views(present@);
    let ghost f = |p: (Seq<char>, Backend)| backend_messages(p.0, p.1, here);
    let mut i: usize = 0;
    proof {
        assert(pairs.take(0).len() == 0);
    }
    while i < cfg.backends.len()
        invariant
            i <= pairs.len(),
            pairs == cfg.backends.pairs(),
            here == views(present@),
            f == (|p: (Seq<char>, Backend)| backend_messages(p.0, p.1, here)),
            views(out@) == gather(pairs.take(i as int), f),
        decreases pairs.len() - i,
    {
        proof {
            assert(pairs.take(i + 1).drop_last() =~= pairs.take(i as int));
            assert(pairs.take(i + 1).last() == pairs[i as int]);
        }
        let found = lint_backend(
            cfg.backends.key_at(i).as_str(),
            cfg.backends.value_at(i),
            present,
        );
        add_all(&mut out, found);
        i = i + 1;
    }
    proof {
        assert(pairs.take(i as int) =~= pairs);
    }
    out
}

/// Whether a text has an ASCII capital.
fn holds_capital(s: &str) -> (r: bool)
    ensures
        r == has_capital(s@),
{
    let v = chars_of(s);
    let mut i: usize = 0;
    while i < v.len()
        invariant
            v@ == s@,
            i <= v@.len(),
            forall|k: int| 0 <= k < i ==> !('A' <= #[trigger] v@[k] <= 'Z'),
        decreases v@.len() - i,
    {
        if v[i] >= 'A' && v[i] <= 'Z' {
            proof {
                assert('A' <= s@[i as int] <= 'Z');
            }
            return true;
        }
        i = i + 1;
    }
    false
}

/// The message on one origin.
fn lint_origin(o: &str) -> (r: Vec<String>)
    ensures
        views(r@) == origin_message(o@),
{
    if same(o, "*") {
        one(
            "server.cors_origins entry \"*\" is not a wildcard — matching is exact; list each origin explicitly, e.g. http://localhost:5173".to_owned(),
        )
    } else if same(o, "null") {
        one(
            "server.cors_origins entry \"null\" matches the spoofable \"Origin: null\" (sandboxed iframes, file://); remove it unless you truly mean to allow those".to_owned(),
        )
    } else if !starts_with(o, "http://") && !starts_with(o, "https://") {
        one(
            "server.cors_origins '".to_owned().concat(o).concat(
                "' has no scheme — a browser Origin is scheme://host[:port], e.g. http://",
            ).concat(o),
        )
    } else if ends_with(o, "/") {
        one(
            "server.cors_origins '".to_owned().concat(o).concat(
                "' has a trailing slash — a browser Origin has none, e.g. ",
            ).concat(trim_trailing(o, '/').as_str()),
        )
    } else if holds_capital(o) {
        one(
            "server.cors_origins '".to_owned().concat(o).concat(
                "' has uppercase characters — browsers send the Origin lowercased, so it can never match; use '",
            ).concat(lower_text(o).as_str()).concat("'"),
        )
    } else {
        nothing()
    }
}

/// The messages on all origins.
fn lint_origins(origins: &Vec<String>) -> (r: Vec<String>)
    ensures
        views(r@) == origin_messages(views(origins@)),
{
    let mut out: Vec<String> = nothing();
    let ghost all = views(origins@);
    let ghost f = |o: Seq<char>| origin_message(o);
    let mut i: usize = 0;
    proof {
        assert(all.take(0).len() == 0);
    }
    while i < origins.len()
        invariant
            i <= all.len(),
            all == views(origins@),
            f == (|o: Seq<char>| origin_message(o)),
            views(out@) == gather(all.take(i as int), f),
        decreases all.len() - i,
    {
        proof {
            assert(all.take(i + 1).drop_last() =~= all.take(i as int));
            assert(all.take(i + 1).last() == origins@[i as int]@);
        }
        let found = lint_origin(origins[i].as_str());
        add_all(&mut out, found);
        i = i + 1;
    }
    proof {
        assert(all.take(i as int) =~= all);
    }
    out
}

/// All that is doubtful about a configuration, given the keys of its text that
/// are not known and the certificate files that exist.
pub fn lint_with(
    cfg: &Config,
    unknown: &Vec<(String, Option<String>)>,
    present: &Vec<String>,
) -> (r: Vec<String>)
    ensures
        views(r@) == doubts(*cfg, findings(unknown@), views(present@)),
{
    let mut out = lint_unknown(unknown);
    add_all(&mut out, lint_collisions(cfg));
    add_all(&mut out, lint_server(&cfg.server));
    add_all(&mut out, lint_backends(cfg, present));
    add_all(&mut out, lint_origins(&cfg.server.cors_origins));
    out
}

/// All that is doubtful about a configuration and the text that it was read
/// from: errors when a configuration is only checked, warnings when it is
/// served with. `present` holds the certificate files that exist.
pub fn lint(cfg: &Config, text: &str, present: &Vec<String>) -> (r: Vec<String>)
    ensures
        views(r@) == doubts(*cfg, text_findings(toml_of_text(text@)), views(present@)),
{
    lint_with(cfg, &unknown_keys(text), present)
}

/// An origin that raises no doubt can be what a browser sends: it has a scheme,
/// no slash at its end, and no capital.
pub proof fn law_undoubted_origin_can_match(o: Seq<char>)
    requires
        origin_message(o).len() == 0,
    ensures
        has_prefix(o, "http://"@) || has_prefix(o, "https://"@),
        !has_suffix(o, "/"@),
        lowered(o) == o,
        o != "*"@,
        o != "null"@,
{
    assert forall|i: int| 0 <= i < o.len() implies lowered(o)[i] == o[i] by {
        assert(!('A' <= o[i] <= 'Z'));
    }
    assert(lowered(o) =~= o);
}

} // verus!
