//! Tests of the configuration and of what is made of it.

use tmuxlet_server::backend::{Backend, ServerDefaults};
use tmuxlet_server::config::{
    self, expand_paths, expand_tilde, lint, tilde_path, unknown_keys, validate, Config,
};
use tmuxlet_server::env::Env;
use tmuxlet_server::json::Json;
use tmuxlet_server::names::NameMap;
use tmuxlet_server::openai::PromptMode;
use tmuxlet_server::router::resolve;
use tmuxlet_server::startup::{
    bind_policy, build_backends, check_backends, env_pass_note, has_tmuxlet, help_text, listen_is_loopback,
    mentions_stdin, parse_args, run_validate, unset_keys, version_line, worker_count, Args,
    Command, Probe,
};

fn strings(v: &toml::Value) -> Vec<String> {
    v.as_array().unwrap().iter().map(|x| x.as_str().unwrap().to_string()).collect()
}

fn text(t: &toml::Table, k: &str) -> Option<String> {
    t.get(k).map(|v| v.as_str().unwrap().to_string())
}

fn uint(t: &toml::Table, k: &str) -> Option<u64> {
    t.get(k).map(|v| v.as_integer().unwrap() as u64)
}

fn flag(t: &toml::Table, k: &str) -> bool {
    t.get(k).map(|v| v.as_bool().unwrap()).unwrap_or(false)
}

fn list(t: &toml::Table, k: &str) -> Option<Vec<String>> {
    t.get(k).map(strings)
}

fn value(v: &toml::Value) -> Json {
    match v {
        toml::Value::String(s) => Json::Str(s.clone()),
        toml::Value::Boolean(b) => Json::Bool(*b),
        toml::Value::Integer(i) => Json::Number(serde_json::Number::from(*i)),
        toml::Value::Array(a) => Json::Array(a.iter().map(value).collect()),
        toml::Value::Table(t) => {
            Json::Object(t.iter().map(|(k, v)| (k.clone(), value(v))).collect())
        }
        _ => Json::Null,
    }
}

fn backend(t: &toml::Table) -> config::Backend {
    match t["type"].as_str().unwrap() {
        "tmuxlet" => config::Backend::Tmuxlet {
            target: text(t, "target").unwrap(),
            target_args: list(t, "target_args").unwrap_or_default(),
            cwd: text(t, "cwd"),
            allow_empty: flag(t, "allow_empty"),
            env_pass: list(t, "env_pass"),
            max_concurrent: uint(t, "max_concurrent").map(|n| n as usize),
            prompt_mode: text(t, "prompt_mode"),
        },
        "api" => config::Backend::Api {
            base_url: text(t, "base_url").unwrap(),
            model: text(t, "model").unwrap(),
            api_key_env: text(t, "api_key_env"),
            extra_body: t.get("extra_body").map(value).unwrap_or(Json::Null),
            timeout_secs: uint(t, "timeout_secs"),
            allow_empty: flag(t, "allow_empty"),
            max_concurrent: uint(t, "max_concurrent").map(|n| n as usize),
            ca_file: text(t, "ca_file"),
        },
        "cli" => config::Backend::Cli {
            bin: text(t, "bin").unwrap(),
            args: list(t, "args").unwrap_or_default(),
            pty: flag(t, "pty"),
            cwd: text(t, "cwd"),
            pty_size: t.get("pty_size").map(|v| {
                v.as_array().unwrap().iter().map(|n| n.as_integer().unwrap() as u16).collect()
            }),
            allow_empty: flag(t, "allow_empty"),
            env_pass: list(t, "env_pass"),
            stdin_prompt: flag(t, "stdin_prompt"),
            max_concurrent: uint(t, "max_concurrent").map(|n| n as usize),
            prompt_mode: text(t, "prompt_mode"),
        },
        other => panic!("unknown type {other}"),
    }
}

fn section<'a>(t: &'a toml::Table, k: &str) -> Vec<(&'a String, &'a toml::Table)> {
    match t.get(k) {
        Some(v) => v.as_table().unwrap().iter().map(|(n, x)| (n, x.as_table().unwrap())).collect(),
        None => vec![],
    }
}

fn parse(source: &str) -> Config {
    let doc: toml::Table = toml::from_str(source).unwrap();
    let s = doc["server"].as_table().unwrap();
    let server = config::Server {
        listen: text(s, "listen").unwrap(),
        default_chain: text(s, "default_chain").unwrap(),
        request_timeout_secs: uint(s, "request_timeout_secs")
            .unwrap_or_else(config::default_timeout),
        env_source: text(s, "env_source").unwrap_or_else(config::default_env_source),
        log_level: text(s, "log_level").unwrap_or_else(config::default_log_level),
        env_capture_timeout_secs: uint(s, "env_capture_timeout_secs")
            .unwrap_or_else(config::default_env_capture_timeout),
        auth: flag(s, "auth"),
        auth_token_env: text(s, "auth_token_env"),
        env_pass: list(s, "env_pass"),
        max_response_bytes: uint(s, "max_response_bytes")
            .unwrap_or_else(config::default_max_response_bytes),
        workers: uint(s, "workers").map(|n| n as usize),
        chain_budget_secs: uint(s, "chain_budget_secs"),
        cooldown: s.get("cooldown").map(|v| v.as_bool().unwrap()).unwrap_or_else(config::default_true),
        cooldown_secs: uint(s, "cooldown_secs").unwrap_or_else(config::default_cooldown_secs),
        strict_models: flag(s, "strict_models"),
        cors_origins: list(s, "cors_origins").unwrap_or_default(),
    };
    let mut backends = NameMap::new();
    for (n, t) in section(&doc, "backends") {
        backends.insert(n.clone(), backend(t));
    }
    let mut chains = NameMap::new();
    for (n, t) in section(&doc, "chains") {
        chains.insert(n.clone(), config::Chain { order: list(t, "order").unwrap() });
    }
    let mut routers = NameMap::new();
    for (n, t) in section(&doc, "routers") {
        let mut routes = NameMap::new();
        if let Some(r) = t.get("routes") {
            for (class, target) in r.as_table().unwrap() {
                routes.insert(class.clone(), target.as_str().unwrap().to_string());
            }
        }
        routers.insert(
            n.clone(),
            config::Router {
                classifier: text(t, "classifier").unwrap(),
                classifier_timeout_secs: uint(t, "classifier_timeout_secs")
                    .unwrap_or_else(config::default_classifier_timeout),
                classifier_max_chars: uint(t, "classifier_max_chars")
                    .map(|n| n as usize)
                    .unwrap_or_else(config::default_classifier_max_chars),
                fallback_class: text(t, "fallback_class").unwrap(),
                classifier_prompt: text(t, "classifier_prompt"),
                routes,
            },
        );
    }
    Config { server, backends, chains, routers }
}

const SAMPLE: &str = r#"
[server]
listen = "127.0.0.1:3456"
default_chain = "default"
request_timeout_secs = 1800
env_source = "shell"
log_level = "info"

[backends.agy]
type = "cli"
bin = "/Users/kk/.antigravity/antigravity/bin/agy"
args = ["-p"]
pty = true

[backends.ollama-kimi]
type = "api"
base_url = "http://127.0.0.1:11434/v1"
model = "kimi-k2.6:cloud"
extra_body = { think = true }
timeout_secs = 120

[backends.coder-thinking]
type = "tmuxlet"
target = "coder"
target_args = ["--effort", "max"]
cwd = "~"

[chains.default]
order = ["agy", "ollama-kimi", "coder-thinking"]
"#;

fn lints(cfg: &Config, source: &str) -> Vec<String> {
    lint(cfg, source, &vec![])
}

// ---- validation ----

#[test]
fn validation_rejects_undefined_backend_in_chain() {
    let bad = format!("{SAMPLE}\n[chains.broken]\norder = [\"ghost\"]\n");
    let cfg = parse(&bad);
    let err = validate(&cfg, true).unwrap_err();
    assert!(err.contains("broken") && err.contains("ghost"), "got: {err}");
}

#[test]
fn validation_rejects_unknown_default_chain() {
    let mut cfg = parse(SAMPLE);
    cfg.server.default_chain = "missing".into();
    assert!(validate(&cfg, true).unwrap_err().contains("default_chain"));
}

#[test]
fn validation_rejects_unparseable_listen() {
    let mut cfg = parse(SAMPLE);
    cfg.server.listen = "not-an-address".into();
    assert!(validate(&cfg, false).unwrap_err().contains("listen"));
}

#[test]
fn validation_accepts_the_sample() {
    assert!(validate(&parse(SAMPLE), true).is_ok());
}

#[test]
fn validation_rejects_an_empty_chain() {
    let cfg = parse(&format!("{SAMPLE}\n[chains.e]\norder = []\n"));
    assert_eq!(validate(&cfg, true).unwrap_err(), "chain 'e' has an empty order");
}

#[test]
fn validation_checks_routers() {
    let with = |router: &str| parse(&format!("{SAMPLE}\n{router}\n"));
    let good = "[routers.r]\nclassifier = \"agy\"\nfallback_class = \"x\"\nroutes = { x = \"default\" }";
    assert!(validate(&with(good), true).is_ok());
    let cases = [
        (
            "[routers.default]\nclassifier = \"agy\"\nfallback_class = \"x\"\nroutes = { x = \"agy\" }",
            "router 'default' collides with a chain or backend name — rename one",
        ),
        (
            "[routers.r]\nclassifier = \"default\"\nfallback_class = \"x\"\nroutes = { x = \"agy\" }",
            "router 'r' classifier 'default' is not a defined backend",
        ),
        (
            "[routers.r]\nclassifier = \"agy\"\nfallback_class = \"x\"",
            "router 'r' has no [routers.r.routes]",
        ),
        (
            "[routers.r]\nclassifier = \"agy\"\nfallback_class = \"x\"\nroutes = { x = \"nope\" }",
            "router 'r' route 'x' -> 'nope' is not a defined chain or backend",
        ),
        (
            "[routers.r]\nclassifier = \"agy\"\nfallback_class = \"y\"\nroutes = { x = \"agy\" }",
            "router 'r' fallback_class 'y' is not one of its routes",
        ),
    ];
    for (router, message) in cases {
        assert_eq!(validate(&with(router), true).unwrap_err(), message);
    }
}

// ---- paths ----

#[test]
fn tilde_expands_to_home() {
    let mut cfg = parse(SAMPLE);
    expand_paths(&mut cfg, Some("/home/u"));
    match cfg.backends.get("coder-thinking").unwrap() {
        config::Backend::Tmuxlet { cwd: Some(c), .. } => assert_eq!(*c, "/home/u"),
        _ => panic!(),
    }
    assert_eq!(cfg.backends.len(), 3);
}

#[test]
fn cli_cwd_tilde_expands() {
    let src = SAMPLE.replace("pty = true", "pty = true\ncwd = \"~\"");
    let mut cfg = parse(&src);
    expand_paths(&mut cfg, Some("/home/u"));
    match cfg.backends.get("agy").unwrap() {
        config::Backend::Cli { cwd: Some(c), .. } => assert_eq!(*c, "/home/u"),
        _ => panic!(),
    }
}

#[test]
fn only_a_leading_tilde_expands() {
    assert_eq!(expand_tilde("~", Some("/h")), "/h");
    assert_eq!(expand_tilde("~/x", Some("/h")), "/h/x");
    assert_eq!(expand_tilde("~x", Some("/h")), "~x");
    assert_eq!(expand_tilde("a/~", Some("/h")), "a/~");
    assert_eq!(tilde_path("~/x", None), "~/x");
}

// ---- doubts ----

#[test]
fn lint_flags_unknown_key_with_suggestion() {
    let bad = SAMPLE.replace("request_timeout_secs = 1800", "request_timeout_sec = 1800");
    let cfg = parse(&bad);
    let warnings = lints(&cfg, &bad);
    assert!(
        warnings
            .iter()
            .any(|w| w.contains("request_timeout_sec") && w.contains("request_timeout_secs")),
        "expected a did-you-mean suggestion, got: {warnings:?}"
    );
}

#[test]
fn lint_flags_unknown_backend_key() {
    let bad = SAMPLE.replace("pty = true", "pty = true\nptysize = [100, 40]");
    let cfg = parse(&bad);
    let warnings = lints(&cfg, &bad);
    assert!(
        warnings.iter().any(|w| w.contains("backends.agy.ptysize")),
        "got: {warnings:?}"
    );
}

#[test]
fn lint_flags_missing_ca_file() {
    let bad = SAMPLE.replace(
        "timeout_secs = 120",
        "timeout_secs = 120\nca_file = \"/nonexistent/tmuxlet-ca.pem\"",
    );
    let cfg = parse(&bad);
    let warnings = lints(&cfg, &bad);
    assert!(
        warnings.iter().any(|w| w.contains("backends.ollama-kimi.ca_file")),
        "missing ca_file not flagged: {warnings:?}"
    );
    assert!(
        !warnings.iter().any(|w| w.contains("unknown") && w.contains("ca_file")),
        "ca_file should be a known key: {warnings:?}"
    );
    assert!(lint(&cfg, &bad, &vec!["/nonexistent/tmuxlet-ca.pem".into()]).is_empty());
}

#[test]
fn lint_flags_name_collision_and_zero_timeout() {
    let bad = format!("{SAMPLE}\n[chains.agy]\norder = [\"ollama-kimi\"]\n")
        .replace("request_timeout_secs = 1800", "request_timeout_secs = 0");
    let cfg = parse(&bad);
    let warnings = lints(&cfg, &bad);
    assert!(
        warnings.iter().any(|w| w.contains("both a chain and a backend")),
        "collision: {warnings:?}"
    );
    assert!(
        warnings.iter().any(|w| w.contains("request_timeout_secs = 0")),
        "zero timeout: {warnings:?}"
    );
}

#[test]
fn lint_flags_zero_workers() {
    let bad = SAMPLE.replace("log_level = \"info\"", "log_level = \"info\"\nworkers = 0");
    let cfg = parse(&bad);
    let warnings = lints(&cfg, &bad);
    assert!(
        warnings.iter().any(|w| w.contains("server.workers = 0")),
        "zero workers not flagged: {warnings:?}"
    );
}

#[test]
fn clean_config_lints_clean() {
    let cfg = parse(SAMPLE);
    assert!(lints(&cfg, SAMPLE).is_empty(), "{:?}", lints(&cfg, SAMPLE));
}

#[test]
fn lint_flags_unknown_log_level() {
    let bad = SAMPLE.replace("log_level = \"info\"", "log_level = \"trace\"");
    let cfg = parse(&bad);
    let w = lints(&cfg, &bad);
    assert!(
        w.iter()
            .any(|x| x.contains("log_level") && x.contains("error|warn|info|debug")),
        "trace should be flagged: {w:?}"
    );
}

#[test]
fn lint_flags_bad_cors_origins() {
    let base = SAMPLE.replace(
        "log_level = \"info\"",
        "log_level = \"info\"\ncors_origins = [\"*\", \"http://localhost:5173/\", \"localhost:3000\", \"null\", \"http://LocalHost:5173\"]",
    );
    let cfg = parse(&base);
    let w = lints(&cfg, &base);
    assert!(w.iter().any(|x| x.contains("not a wildcard")), "star: {w:?}");
    assert!(w.iter().any(|x| x.contains("trailing slash")), "slash: {w:?}");
    assert!(w.iter().any(|x| x.contains("no scheme")), "scheme: {w:?}");
    assert!(w.iter().any(|x| x.contains("null")), "null: {w:?}");
    assert!(w.iter().any(|x| x.contains("uppercase")), "case: {w:?}");
    assert_eq!(w.len(), 5);
    assert!(w[1].ends_with("e.g. http://localhost:5173"));
    assert!(w[4].ends_with("use 'http://localhost:5173'"));
}

#[test]
fn lint_flags_invalid_prompt_mode_value() {
    let bad = SAMPLE.replace("pty = true", "pty = true\nprompt_mode = \"verbatim\"");
    let cfg = parse(&bad);
    let w = lints(&cfg, &bad);
    assert!(
        w.iter()
            .any(|x| x.contains("prompt_mode") && x.contains("transcript")),
        "invalid prompt_mode not flagged: {w:?}"
    );
}

#[test]
fn lint_flags_prompt_mode_on_an_api_backend_as_unknown() {
    let bad = SAMPLE.replace(
        "model = \"kimi-k2.6:cloud\"",
        "model = \"kimi-k2.6:cloud\"\nprompt_mode = \"last_user\"",
    );
    let cfg = parse(&bad);
    let w = lints(&cfg, &bad);
    assert!(
        w.iter()
            .any(|x| x.contains("backends.ollama-kimi.prompt_mode")),
        "prompt_mode on an api backend should be an unknown key: {w:?}"
    );
}

#[test]
fn lint_flags_pty_size_and_env_source() {
    let bad = SAMPLE
        .replace("pty = true", "pty = true\npty_size = [80]")
        .replace("env_source = \"shell\"", "env_source = \"fish\"");
    let cfg = parse(&bad);
    assert_eq!(
        lints(&cfg, &bad),
        vec![
            "server.env_source 'fish' is neither 'shell' nor 'process' — it will be treated as 'shell'",
            "backends.agy.pty_size must be [cols, rows] (2 elements), got 1 — using the default [200, 50]",
        ]
    );
}

#[test]
fn unknown_keys_have_paths_and_suggestions() {
    let doc = r#"
servr = 1
[server]
lisen = "x"
[chains.c]
ordr = []
[backends.b]
type = "weird"
bin = "x"
[routers.r]
clasifier = "b"
[routers.r.routes]
anything = "b"
"#;
    let found: Vec<(String, Option<String>)> = unknown_keys(doc);
    let expected = [
        ("servr", Some("server")),
        ("server.lisen", Some("listen")),
        ("chains.c.ordr", Some("order")),
        ("backends.b.bin", None),
        ("routers.r.clasifier", Some("classifier")),
    ];
    assert_eq!(found.len(), expected.len());
    for ((k, s), (ek, es)) in found.iter().zip(expected) {
        assert_eq!(k, ek);
        assert_eq!(s.as_deref(), es);
    }
    assert!(unknown_keys("not toml at all [").is_empty());
}

// ---- routing ----

const C: &str = r#"
[server]
listen = "127.0.0.1:3456"
default_chain = "default"

[backends.a]
type = "cli"
bin = "/bin/echo"

[backends.b]
type = "cli"
bin = "/bin/echo"

[chains.default]
order = ["a", "b"]
"#;

#[test]
fn resolves_chain_name() {
    let cfg = parse(C);
    assert_eq!(resolve("default", &cfg).unwrap(), vec!["a", "b"]);
}

#[test]
fn resolves_backend_name_as_singleton() {
    let cfg = parse(C);
    assert_eq!(resolve("a", &cfg).unwrap(), vec!["a"]);
}

#[test]
fn unknown_model_falls_back_to_default() {
    let cfg = parse(C);
    assert_eq!(resolve("zzz", &cfg).unwrap(), vec!["a", "b"]);
}

#[test]
fn empty_model_falls_back_to_default() {
    let cfg = parse(C);
    assert_eq!(resolve("", &cfg).unwrap(), vec!["a", "b"]);
}

#[test]
fn a_default_that_is_nothing_is_an_error() {
    let mut cfg = parse(C);
    cfg.server.default_chain = "x".into();
    assert_eq!(resolve("zzz", &cfg).unwrap_err(), "default_chain 'x' resolves to nothing");
    cfg.server.default_chain = "b".into();
    assert_eq!(resolve("zzz", &cfg).unwrap(), vec!["b"]);
}

// ---- backends ----

fn env_of(pairs: &[(&str, &str)]) -> Env {
    let mut m: NameMap<String> = NameMap::new();
    for (k, v) in pairs {
        m.insert(k.to_string(), v.to_string());
    }
    Env::from_map(m)
}

fn defaults() -> ServerDefaults {
    ServerDefaults { max_response_bytes: 1024, env_pass: None, tmuxlet_stdin: false }
}

#[test]
fn builds_runtime_backend_from_config() {
    let cfg = parse(
        r#"
[server]
listen = "127.0.0.1:3456"
default_chain = "d"

[backends.t]
type = "tmuxlet"
target = "coder"

[chains.d]
order = ["t"]
"#,
    );
    let env = env_of(&[("PATH", "/bin")]);
    let b = Backend::from_config(
        "t",
        cfg.backends.get("t").unwrap(),
        &env,
        &defaults(),
        Some("/home/u"),
        &vec![],
    );
    assert_eq!(b.name(), "t");
    assert!(matches!(b, Backend::Tmuxlet(_)));
}

#[test]
fn runtime_backends_have_their_defaults() {
    let cfg = parse(SAMPLE);
    let env = env_of(&[("PATH", "/usr/bin:/opt")]);
    let d = ServerDefaults {
        max_response_bytes: 9,
        env_pass: Some(vec!["A_*".into()]),
        tmuxlet_stdin: true,
    };
    let all = build_backends(&cfg, &env, &d, None, &vec!["/opt/tmuxlet".into()]);
    assert_eq!(all.len(), 3);
    match all.get("coder-thinking").unwrap() {
        Backend::Tmuxlet(t) => {
            assert_eq!(t.bin, "/opt/tmuxlet");
            assert_eq!(t.cwd, "~");
            assert!(t.use_stdin);
            assert_eq!(t.env_pass, Some(vec!["A_*".to_string()]));
            assert_eq!(t.target_args, vec!["--effort".to_string(), "max".to_string()]);
        }
        _ => panic!(),
    }
    match all.get("agy").unwrap() {
        Backend::Cli(c) => {
            assert_eq!(c.cwd, ".");
            assert_eq!(c.pty_size, (200, 50));
            assert_eq!(c.prompt_mode, PromptMode::Transcript);
        }
        _ => panic!(),
    }
    let api = all.get("ollama-kimi").unwrap();
    assert_eq!(api.timeout_override(), Some(120));
    assert_eq!(api.max_concurrent(), None);
    assert!(!api.allow_empty());
    match api {
        Backend::Api(a) => {
            assert_eq!(a.max_response_bytes, 9);
            assert!(matches!(a.extra_body.get("think"), Some(Json::Bool(true))));
        }
        _ => panic!(),
    }
}

// ---- startup ----

fn args(list: &[&str]) -> Command {
    parse_args(&list.iter().map(|s| s.to_string()).collect())
}

#[test]
fn version_flag_prints_and_exits_zero() {
    assert!(matches!(args(&["--version"]), Command::Version));
    assert!(matches!(args(&["-V", "--bogus"]), Command::Version));
    assert!(version_line().contains("tmuxlet-server"));
}

#[test]
fn help_flag_exits_zero() {
    assert!(matches!(args(&["--help"]), Command::Help));
    assert!(matches!(args(&["--validate", "-h"]), Command::Help));
    assert!(help_text().contains("Usage"));
}

#[test]
fn unknown_arg_exits_nonzero() {
    assert!(matches!(args(&["--bogus"]), Command::Wrong(m) if m == "unknown argument: --bogus"));
    assert!(matches!(args(&["--config"]), Command::Wrong(m) if m == "--config requires a path"));
}

#[test]
fn arguments_are_read() {
    match args(&["--config", "a", "--allow-remote-unauthenticated", "--config=b"]) {
        Command::Serve(a) => {
            assert_eq!(a.config, "b");
            assert!(a.allow_remote);
        }
        _ => panic!(),
    }
    match args(&["--check-backends"]) {
        Command::Check(a) => {
            assert_eq!(a.config, "~/.tmuxlet/server.toml");
            assert!(a.check_backends && !a.validate);
        }
        _ => panic!(),
    }
}

const GOOD: &str = r#"
[server]
listen = "127.0.0.1:1"
default_chain = "d"

[backends.echo]
type = "cli"
bin = "/bin/echo"

[chains.d]
order = ["echo"]
"#;

fn check_args() -> Args {
    Args { config: "c".into(), validate: true, check_backends: false, allow_remote: false }
}

#[test]
fn validate_ok_on_good_config() {
    let cfg = parse(GOOD);
    assert!(validate(&cfg, true).is_ok());
    let warnings = lints(&cfg, GOOD);
    let r = run_validate(&check_args(), &cfg, &warnings, true, true);
    assert!(!r.failed);
    assert!(r.complaints.is_empty());
    assert_eq!(r.out.as_deref(), Some("OK (1 backends, 1 chains)"));
}

#[test]
fn validate_fails_on_chain_referencing_unknown_backend() {
    let cfg = parse(&GOOD.replace("order = [\"echo\"]", "order = [\"nope\"]"));
    assert!(validate(&cfg, true).is_err());
}

#[test]
fn doubts_and_open_addresses_fail_a_check() {
    let cfg = parse(GOOD);
    let r = run_validate(&check_args(), &cfg, &vec!["w".into()], true, false);
    assert!(r.failed && r.out.is_none());
    assert_eq!(r.complaints, vec!["w"]);
    assert!(r
        .refusal
        .unwrap()
        .starts_with("refusing to bind non-loopback address '127.0.0.1:1'"));
    let r = run_validate(&check_args(), &cfg, &vec![], true, false);
    assert!(r.failed && r.complaints.is_empty());
    let mut a = check_args();
    a.validate = false;
    a.check_backends = true;
    assert!(run_validate(&a, &cfg, &vec!["w".into()], false, false).failed);
    assert!(!run_validate(&a, &cfg, &vec!["w".into()], true, false).failed);
}

#[test]
fn an_open_environment_is_noted() {
    let cfg = parse(GOOD);
    let r = run_validate(&check_args(), &cfg, &vec![], true, true);
    assert!(!r.failed && r.out.is_some());
    assert!(r.note.unwrap().starts_with("note: env_pass is not set"));
    for narrowed in [
        GOOD.replace("[server]", "[server]\nenv_pass = [\"A_*\"]"),
        GOOD.replace("bin =", "env_pass = []\nbin ="),
    ] {
        assert!(env_pass_note(&parse(&narrowed)).is_none());
    }
    let mut quiet = check_args();
    quiet.validate = false;
    assert!(run_validate(&quiet, &cfg, &vec![], true, true).note.is_none());
}

#[test]
fn only_a_closed_server_may_listen() {
    assert!(listen_is_loopback(&Some(vec![true, true])));
    assert!(!listen_is_loopback(&Some(vec![true, false])));
    assert!(!listen_is_loopback(&Some(vec![])));
    assert!(!listen_is_loopback(&None));
    assert!(bind_policy("l", true, false, false).is_ok());
    assert!(bind_policy("l", false, true, false).is_ok());
    assert!(bind_policy("l", false, false, true).is_ok());
    assert!(bind_policy("l", false, false, false).is_err());
}

#[test]
fn workers_are_never_none() {
    assert_eq!(worker_count(Some(0), None), 1);
    assert_eq!(worker_count(Some(3), Some(64)), 3);
    assert_eq!(worker_count(None, Some(64)), 64);
    assert_eq!(worker_count(None, Some(4)), 16);
    assert_eq!(worker_count(None, None), 16);
}

#[test]
fn backends_are_reported_by_name() {
    let cfg = parse(SAMPLE);
    assert!(has_tmuxlet(&cfg));
    let mut probes: NameMap<Probe> = NameMap::new();
    probes.insert("agy".into(), Probe::Executable(false));
    probes.insert("ollama-kimi".into(), Probe::Connected);
    probes.insert(
        "coder-thinking".into(),
        Probe::Ran { path: "/opt/tmuxlet".into(), success: false, code: None },
    );
    let (lines, ok) = check_backends(&cfg, &probes);
    assert!(!ok);
    assert_eq!(
        lines,
        vec![
            "FAIL agy (cli) — /Users/kk/.antigravity/antigravity/bin/agy not found or not executable",
            "FAIL coder-thinking (tmuxlet) — /opt/tmuxlet exited -1",
            "PASS ollama-kimi (api) — connected 127.0.0.1:11434",
        ]
    );
    probes.insert("agy".into(), Probe::Executable(true));
    probes.insert(
        "coder-thinking".into(),
        Probe::Ran { path: "/opt/tmuxlet".into(), success: true, code: Some(0) },
    );
    assert!(check_backends(&cfg, &probes).1);
    probes.insert("ollama-kimi".into(), Probe::NoAddress);
    assert_eq!(
        check_backends(&cfg, &probes).0[2],
        "FAIL ollama-kimi (api) — cannot resolve 127.0.0.1:11434"
    );
    probes.insert("ollama-kimi".into(), Probe::NotConnected("refused".into()));
    probes.insert("coder-thinking".into(), Probe::NotRun("no such file".into()));
    let lines = check_backends(&cfg, &probes).0;
    assert_eq!(lines[1], "FAIL coder-thinking (tmuxlet) — tmuxlet not runnable (no such file)");
    assert_eq!(lines[2], "FAIL ollama-kimi (api) — cannot connect 127.0.0.1:11434 (refused)");
}

#[test]
fn what_startup_looks_for() {
    assert!(mentions_stdin(b"usage: -p -", b"reads STDIN"));
    assert!(!mentions_stdin(b"usage", b"\xff"));
    let cfg = parse(&SAMPLE.replace("timeout_secs = 120", "timeout_secs = 120\napi_key_env = \"K\""));
    assert_eq!(unset_keys(&cfg, &env_of(&[])), vec!["api_key_env K is unset"]);
    assert!(unset_keys(&cfg, &env_of(&[("K", "")])).is_empty());
}
