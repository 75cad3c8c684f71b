//! Whole requests, with backends played by the tests.

use tmuxlet_server::auth::{self, Token};
use tmuxlet_server::backend::cli::{finish_plain, finish_pty};
use tmuxlet_server::backend::{
    api, tmuxlet, Backend, BackendError, Call, DispatchResult, ServerDefaults,
};
use tmuxlet_server::config::{self, validate, Config};
use tmuxlet_server::env::Env;
use tmuxlet_server::http::chain::{leg_done, next_leg, start_chain, Leg, Note};
use tmuxlet_server::http::chat::{
    classify_task, finish_chat, finish_classify, handle_chat, note_body, read_chat,
    respond_parse_error, route_chat, stream_headers, stream_with_keepalive, ChainPlan, ChatPlan, Classify, StreamEvent,
};
use tmuxlet_server::http::health::{ActiveSlot, BackendHealth};
use tmuxlet_server::http::{check_body, handle, Action, Cors, Inbound, Reply, State};
use tmuxlet_server::json::Json;
use tmuxlet_server::names::NameMap;
use tmuxlet_server::openai::{
    last_user_text, leg_prompt, ChatMessage, ChatRequest, ContentPart, MessageContent,
};
use tmuxlet_server::startup::{build_backends, worker_count};

fn strings(v: &toml::Value) -> Vec<String> {
    v.as_array().unwrap().iter().map(|x| x.as_str().unwrap().to_string()).collect()
}

fn text(t: &toml::Table, k: &str) -> Option<String> {
    t.get(k).map(|v| v.as_str().unwrap().to_string())
}

fn uint(t: &toml::Table, k: &str) -> Option<u64> {
    t.get(k).map(|v| v.as_integer().unwrap() as u64)
}

fn flag(t: &toml::Table, k: &str) -> bool {
    t.get(k).map(|v| v.as_bool().unwrap()).unwrap_or(false)
}

fn list(t: &toml::Table, k: &str) -> Option<Vec<String>> {
    t.get(k).map(strings)
}

fn value(v: &toml::Value) -> Json {
    match v {
        toml::Value::String(s) => Json::Str(s.clone()),
        toml::Value::Boolean(b) => Json::Bool(*b),
        toml::Value::Integer(i) => Json::Number(serde_json::Number::from(*i)),
        toml::Value::Array(a) => Json::Array(a.iter().map(value).collect()),
        toml::Value::Table(t) => {
            Json::Object(t.iter().map(|(k, v)| (k.clone(), value(v))).collect())
        }
        _ => Json::Null,
    }
}

fn backend(t: &toml::Table) -> config::Backend {
    match t["type"].as_str().unwrap() {
        "tmuxlet" => config::Backend::Tmuxlet {
            target: text(t, "target").unwrap(),
            target_args: list(t, "target_args").unwrap_or_default(),
            cwd: text(t, "cwd"),
            allow_empty: flag(t, "allow_empty"),
            env_pass: list(t, "env_pass"),
            max_concurrent: uint(t, "max_concurrent").map(|n| n as usize),
            prompt_mode: text(t, "prompt_mode"),
        },
        "api" => config::Backend::Api {
            base_url: text(t, "base_url").unwrap(),
            model: text(t, "model").unwrap(),
            api_key_env: text(t, "api_key_env"),
            extra_body: t.get("extra_body").map(value).unwrap_or(Json::Null),
            timeout_secs: uint(t, "timeout_secs"),
            allow_empty: flag(t, "allow_empty"),
            max_concurrent: uint(t, "max_concurrent").map(|n| n as usize),
            ca_file: text(t, "ca_file"),
        },
        "cli" => config::Backend::Cli {
            bin: text(t, "bin").unwrap(),
            args: list(t, "args").unwrap_or_default(),
            pty: flag(t, "pty"),
            cwd: text(t, "cwd"),
            pty_size: t.get("pty_size").map(|v| {
                v.as_array().unwrap().iter().map(|n| n.as_integer().unwrap() as u16).collect()
            }),
            allow_empty: flag(t, "allow_empty"),
            env_pass: list(t, "env_pass"),
            stdin_prompt: flag(t, "stdin_prompt"),
            max_concurrent: uint(t, "max_concurrent").map(|n| n as usize),
            prompt_mode: text(t, "prompt_mode"),
        },
        other => panic!("unknown type {other}"),
    }
}

fn section<'a>(t: &'a toml::Table, k: &str) -> Vec<(&'a String, &'a toml::Table)> {
    match t.get(k) {
        Some(v) => v.as_table().unwrap().iter().map(|(n, x)| (n, x.as_table().unwrap())).collect(),
        None => vec![],
    }
}

fn parse(source: &str) -> Config {
    let doc: toml::Table = toml::from_str(source).unwrap();
    let s = doc["server"].as_table().unwrap();
    let server = config::Server {
        listen: text(s, "listen").unwrap(),
        default_chain: text(s, "default_chain").unwrap(),
        request_timeout_secs: uint(s, "request_timeout_secs")
            .unwrap_or_else(config::default_timeout),
        env_source: text(s, "env_source").unwrap_or_else(config::default_env_source),
        log_level: text(s, "log_level").unwrap_or_else(config::default_log_level),
        env_capture_timeout_secs: uint(s, "env_capture_timeout_secs")
            .unwrap_or_else(config::default_env_capture_timeout),
        auth: flag(s, "auth"),
        auth_token_env: text(s, "auth_token_env"),
        env_pass: list(s, "env_pass"),
        max_response_bytes: uint(s, "max_response_bytes")
            .unwrap_or_else(config::default_max_response_bytes),
        workers: uint(s, "workers").map(|n| n as usize),
        chain_budget_secs: uint(s, "chain_budget_secs"),
        cooldown: s.get("cooldown").map(|v| v.as_bool().unwrap()).unwrap_or_else(config::default_true),
        cooldown_secs: uint(s, "cooldown_secs").unwrap_or_else(config::default_cooldown_secs),
        strict_models: flag(s, "strict_models"),
        cors_origins: list(s, "cors_origins").unwrap_or_default(),
    };
    let mut backends = NameMap::new();
    for (n, t) in section(&doc, "backends") {
        backends.insert(n.clone(), backend(t));
    }
    let mut chains = NameMap::new();
    for (n, t) in section(&doc, "chains") {
        chains.insert(n.clone(), config::Chain { order: list(t, "order").unwrap() });
    }
    let mut routers = NameMap::new();
    for (n, t) in section(&doc, "routers") {
        let mut routes = NameMap::new();
        if let Some(r) = t.get("routes") {
            for (class, target) in r.as_table().unwrap() {
                routes.insert(class.clone(), target.as_str().unwrap().to_string());
            }
        }
        routers.insert(
            n.clone(),
            config::Router {
                classifier: text(t, "classifier").unwrap(),
                classifier_timeout_secs: uint(t, "classifier_timeout_secs")
                    .unwrap_or_else(config::default_classifier_timeout),
                classifier_max_chars: uint(t, "classifier_max_chars")
                    .map(|n| n as usize)
                    .unwrap_or_else(config::default_classifier_max_chars),
                fallback_class: text(t, "fallback_class").unwrap(),
                classifier_prompt: text(t, "classifier_prompt"),
                routes,
            },
        );
    }
    Config { server, backends, chains, routers }
}

struct Sim {
    state: State,
    health: NameMap<BackendHealth>,
    active: NameMap<usize>,
    now: u64,
    /// What the backends were last sent.
    seen: Vec<String>,
    /// What was logged.
    logged: Vec<(u8, String)>,
}

struct Answer {
    status: u16,
    headers: Vec<(String, String)>,
    body: String,
}

impl Answer {
    fn header(&self, name: &str) -> Option<&str> {
        self.headers
            .iter()
            .find(|(n, _)| n.eq_ignore_ascii_case(name))
            .map(|(_, v)| v.as_str())
    }
}

fn answer(r: Reply) -> Answer {
    Answer { status: r.status, headers: r.headers, body: r.body }
}

fn start_with_env(source: &str, vars: &[(&str, &str)]) -> Sim {
    let cfg = parse(source);
    validate(&cfg, true).unwrap();
    let mut m: NameMap<String> = NameMap::new();
    for (k, v) in vars {
        m.insert(k.to_string(), v.to_string());
    }
    let env = Env::from_map(m);
    let token = match auth::resolve(
        cfg.server.auth,
        cfg.server.auth_token_env.as_deref(),
        &env,
        "/t",
        None,
    ) {
        Ok(Some(Token::Given(t))) => Some(t),
        Ok(_) => None,
        Err(e) => panic!("{e}"),
    };
    let defaults = ServerDefaults {
        max_response_bytes: cfg.server.max_response_bytes,
        env_pass: None,
        tmuxlet_stdin: false,
    };
    let backends = build_backends(&cfg, &env, &defaults, Some("/home/u"), &vec![]);
    Sim {
        state: State { cfg, env, backends, auth_token: token, redact_errors: false },
        health: NameMap::new(),
        active: NameMap::new(),
        now: 1_000_000_000,
        seen: vec![],
        logged: vec![],
    }
}

fn start(source: &str) -> Sim {
    start_with_env(source, &[])
}

/// Plays the programs and upstreams of the configurations below.
fn play(b: &Backend, call: Call) -> Result<DispatchResult, BackendError> {
    match (b, call) {
        (Backend::Cli(c), Call::Cli(call)) => {
            let (success, code, out) = match c.bin.as_str() {
                "/bin/echo" => (true, 0, format!("{}\n", call.args.join(" "))),
                "/bin/sh" => (true, 0, call.args[1].rsplit(' ').next().unwrap().to_string()),
                "/never/ends" => return Err(BackendError::Timeout(c.name.clone())),
                _ => (false, 1, String::new()),
            };
            if c.pty {
                finish_pty(c, false, success, code, out.as_bytes())
            } else {
                finish_plain(c, success, Some(code), out.as_bytes(), b"")
            }
        }
        (Backend::Api(a), Call::Api(call)) => {
            assert!(call.body.contains(&format!("\"model\":\"{}\"", a.model)));
            let body = r#"{"id":"mock","object":"chat.completion","choices":[{"index":0,"message":{"role":"assistant","content":"pong-from-mock"},"finish_reason":"stop"}]}"#;
            api::finish_call(a, Ok((200, body.to_string())))
        }
        (Backend::Tmuxlet(t), Call::Tmuxlet(_)) => tmuxlet::finish_call(
            t,
            true,
            Some(0),
            br#"{"id":"r1","target":"coder","status":"completed","output":"tmuxlet-marker-77","cwd":"/tmp","tmuxSession":"s","completionSource":"hook","elapsedMs":1}"#,
            b"",
        ),
        _ => panic!("a call of another type"),
    }
}

fn request(j: &Json) -> Result<ChatRequest, String> {
    let model = j.get("model").and_then(|m| m.as_str()).ok_or("missing field `model`")?;
    let list = match j.get("messages") {
        Some(Json::Array(a)) => a,
        _ => return Err("missing field `messages`".into()),
    };
    let mut messages = Vec::new();
    for m in list {
        let role = m.get("role").and_then(|r| r.as_str()).ok_or("missing field `role`")?;
        let content = match m.get("content") {
            Some(Json::Str(s)) => MessageContent::Text(s.clone()),
            Some(Json::Array(parts)) => MessageContent::Parts(
                parts
                    .iter()
                    .map(|p| match p.get("text").and_then(|t| t.as_str()) {
                        Some(t) => ContentPart::Text { text: t.to_string() },
                        None => ContentPart::Other,
                    })
                    .collect(),
            ),
            _ => return Err("missing field `content`".into()),
        };
        messages.push(ChatMessage { role: role.into(), content, name: None });
    }
    let stream = matches!(j.get("stream"), Some(Json::Bool(true)));
    Ok(ChatRequest { model: model.into(), messages, stream, extra: NameMap::new() })
}

impl Sim {
    fn log(&mut self, notes: Vec<Note>) {
        self.logged.extend(notes.into_iter().map(|n| (n.level, n.text)));
    }

    fn dispatch(
        &mut self,
        name: &str,
        prompt: &str,
        raw: &Json,
        timeout: u128,
    ) -> Result<DispatchResult, BackendError> {
        self.seen.push(prompt.to_string());
        let b = self.state.backends.get(name).unwrap();
        play(b, b.dispatch(prompt, raw, &self.state.env, timeout))
    }

    fn run(
        &mut self,
        plan: &ChainPlan,
        req: &ChatRequest,
        raw: &Json,
    ) -> Result<(String, DispatchResult), Vec<BackendError>> {
        let mut run =
            start_chain(&self.state, &self.health, plan.names.clone(), self.now, "000000");
        loop {
            match next_leg(&mut run, &self.state, &mut self.active, self.now) {
                Leg::Exhausted => return Err(run.errors),
                Leg::Skipped(_) => {}
                Leg::Run(call) => {
                    let prompt = leg_prompt(call.prompt_mode, &req.messages);
                    let result = self.dispatch(&call.name, &prompt, raw, call.timeout);
                    self.now += 5_000_000;
                    if let Some(slot) = call.slot {
                        slot.release(&mut self.active);
                    }
                    let end =
                        leg_done(&mut run, &self.state, &mut self.health, result, 5, self.now);
                    self.log(end.notes);
                    if let Some(d) = end.answer {
                        return Ok((call.name, d));
                    }
                }
            }
        }
    }

    fn chat(&mut self, body: &str, cors: &Cors) -> Answer {
        if let Some(r) = check_body(true, body.len() as u64, cors) {
            return answer(r);
        }
        self.log(vec![note_body("000000", body)]);
        let raw = match read_chat(body, cors) {
            Ok(j) => j,
            Err(r) => return answer(r),
        };
        let req = match request(&raw) {
            Ok(r) => r,
            Err(e) => return answer(respond_parse_error(&e, cors)),
        };
        let plan = match handle_chat(&req, &self.state, cors, "000000") {
            ChatPlan::Answer(r) => return answer(r),
            ChatPlan::Run(p) => p,
            ChatPlan::Classify(name) => {
                let last = last_user_text(&req.messages);
                let router = self.state.cfg.routers.get(&name).unwrap();
                let class = match classify_task(&self.state, router, &last, &mut self.active) {
                    Classify::Fallback(c) => c,
                    Classify::Ask(q) => {
                        let r = self.dispatch(
                            &q.name,
                            &q.prompt,
                            &q.raw,
                            q.timeout_secs as u128 * 1_000_000_000,
                        );
                        if let Some(slot) = q.slot {
                            slot.release(&mut self.active);
                        }
                        finish_classify(self.state.cfg.routers.get(&name).unwrap(), &r)
                    }
                };
                match route_chat(&req, &self.state, &name, &class, 1, cors, "000000") {
                    Ok(p) => p,
                    Err(r) => return answer(r),
                }
            }
        };
        for n in &plan.notes {
            self.logged.push((n.level, n.text.clone()));
        }
        let outcome = self.run(&plan, &req, &raw);
        if req.stream {
            let headers = stream_headers(&plan.route, cors);
            let event = StreamEvent::Ended(outcome.map(|(_, d)| d));
            let mut body = stream_with_keepalive(StreamEvent::Quiet, false, 7).frames.concat();
            let step = stream_with_keepalive(event, false, 7);
            assert!(step.last);
            body.push_str(&step.frames.concat());
            return Answer { status: 200, headers, body };
        }
        answer(finish_chat(outcome, &plan.route, self.state.redact_errors, 7, cors))
    }

    fn send(&mut self, method: &str, path: &str, headers: &[(&str, &str)], body: &str) -> Answer {
        let find = |n: &str| {
            headers.iter().find(|(k, _)| *k == n).map(|(_, v)| v.to_string())
        };
        let inbound = Inbound {
            method: method.into(),
            url: path.into(),
            authorization: find("Authorization"),
            origin: find("Origin"),
        };
        match handle(&inbound, &self.state, &self.health, &self.active, self.now, 7) {
            Action::Answer(r, _) => answer(r),
            Action::ReadBody(cors) => self.chat(body, &cors),
        }
    }

    fn get(&mut self, path: &str) -> (u16, String) {
        let a = self.send("GET", path, &[], "");
        (a.status, a.body)
    }

    fn post(&mut self, body: &str) -> (u16, String) {
        let a = self.send("POST", "/v1/chat/completions", &[], body);
        (a.status, a.body)
    }
}

fn config_text() -> String {
    r#"
[server]
listen = "127.0.0.1:3456"
default_chain = "default"
env_source = "process"

[backends.echo]
type = "cli"
bin = "/bin/echo"

[chains.default]
order = ["echo"]
"#
    .to_string()
}

// ---- authentication ----

const TOKEN: &str = "s3cr3t-test-token";

fn start_auth() -> Sim {
    let source = config_text().replace(
        "env_source = \"process\"",
        "env_source = \"process\"\nauth = true\nauth_token_env = \"TEST_AUTH_TOKEN\"",
    );
    start_with_env(&source, &[("TEST_AUTH_TOKEN", TOKEN)])
}

#[test]
fn protected_routes_are_401_without_a_token() {
    let mut server = start_auth();
    let (models, body) = server.get("/v1/models");
    assert_eq!(models, 401, "models must require auth: {body}");
    assert!(body.contains("unauthorized"), "401 envelope missing: {body}");
    let (backends, _) = server.get("/v1/backends");
    assert_eq!(backends, 401, "backends must require auth");
    let (chat, _) =
        server.post(r#"{"model":"default","messages":[{"role":"user","content":"hi"}]}"#);
    assert_eq!(chat, 401, "chat must require auth");
}

#[test]
fn a_valid_bearer_token_is_accepted() {
    let mut server = start_auth();
    let auth = format!("Bearer {TOKEN}");
    let a = server.send("GET", "/v1/models", &[("Authorization", &auth)], "");
    assert_eq!(a.status, 200, "valid token must be accepted: {}", a.body);
    assert!(a.body.contains(r#""object":"list""#), "body: {}", a.body);
}

#[test]
fn a_wrong_bearer_token_is_rejected() {
    let mut server = start_auth();
    let a = server.send(
        "GET",
        "/v1/models",
        &[("Authorization", "Bearer not-the-token")],
        "",
    );
    assert_eq!(a.status, 401, "a wrong token must be rejected: {}", a.body);
}

#[test]
fn health_stays_open_without_a_token() {
    let mut server = start_auth();
    let (status, body) = server.get("/health");
    assert_eq!(status, 200, "health must be open: {body}");
}

// ---- routes ----

#[test]
fn health_reports_ok() {
    let mut server = start(&config_text());
    let (status, body) = server.get("/health");
    assert_eq!(status, 200, "body: {body}");
    assert!(body.contains(r#""status":"ok""#), "body: {body}");
    assert_eq!(body, r#"{"status":"ok","version":"0.2.0","backends":1,"chains":1}"#);
}

#[test]
fn models_lists_chains_and_backends() {
    let mut server = start(&config_text());
    let (status, body) = server.get("/v1/models");
    assert_eq!(status, 200, "body: {body}");
    assert!(body.contains(r#""object":"list""#), "body: {body}");
    assert!(body.contains(r#""id":"echo""#), "backend name missing: {body}");
    assert!(body.contains(r#""id":"default""#), "chain name missing: {body}");
}

#[test]
fn unknown_route_is_404_with_error_envelope() {
    let mut server = start(&config_text());
    let (status, body) = server.get("/nope");
    assert_eq!(status, 404, "body: {body}");
    assert!(body.contains(r#""error""#), "no error envelope: {body}");
    assert!(body.contains("unknown_route"), "body: {body}");
}

#[test]
fn paths_that_only_look_reserved_are_404() {
    let mut server = start(&config_text());
    for path in ["/uix", "/apiary", "/ui", "/api"] {
        let (status, body) = server.get(path);
        assert_eq!(status, 404, "body: {body}");
    }
}

#[test]
fn reserved_ui_route_is_501() {
    let mut server = start(&config_text());
    let (status, body) = server.get("/ui/index.html");
    assert_eq!(status, 501, "body: {body}");
    assert!(body.contains("not_implemented"), "body: {body}");
}

#[test]
fn malformed_json_body_is_400() {
    let mut server = start(&config_text());
    let (status, body) = server.post("{not valid json");
    assert_eq!(status, 400, "body: {body}");
    assert!(body.contains("parse_error"), "body: {body}");
}

#[test]
fn empty_messages_is_400() {
    let mut server = start(&config_text());
    let (status, body) = server.post(r#"{"model":"default","messages":[]}"#);
    assert_eq!(status, 400, "body: {body}");
    assert!(body.contains("missing_messages"), "body: {body}");
}

#[test]
fn reserved_api_and_root_are_501() {
    let mut server = start(&config_text());
    let (api_status, _) = server.get("/api/sessions/1");
    assert_eq!(api_status, 501, "/api/* should be reserved");
    let (root_status, _) = server.get("/");
    assert_eq!(root_status, 501, "/ should be reserved");
}

#[test]
fn head_on_known_get_route_is_200_with_empty_body() {
    let mut server = start(&config_text());
    let a = server.send("HEAD", "/v1/models", &[], "");
    assert_eq!(a.status, 200, "HEAD /v1/models should be 200");
    assert!(a.body.is_empty(), "HEAD must not return a body: {:?}", a.body);
}

#[test]
fn head_has_the_headers_of_get() {
    let mut server = start(&cors_config("\"http://a.test\""));
    for path in ["/health", "/v1/models", "/v1/backends", "/nope", "/ui", "/v1/chat/completions"] {
        let h = server.send("HEAD", path, &[("Origin", "http://a.test")], "");
        let g = server.send("GET", path, &[("Origin", "http://a.test")], "");
        assert_eq!(h.status, g.status);
        assert_eq!(h.headers, g.headers);
        assert_eq!(h.body.is_empty(), h.status == 200);
    }
}

#[test]
fn strict_models_are_those_listed() {
    let source = config_text().replace(
        "env_source = \"process\"",
        "env_source = \"process\"\nstrict_models = true",
    );
    let mut server = start(&source);
    let (_, list) = server.get("/v1/models");
    for model in ["echo", "default", "other", ""] {
        let (status, _) = server.post(&chat_body(model, "hi"));
        assert_eq!(status == 200, list.contains(&format!("\"id\":\"{model}\"")), "{model}");
    }
}

#[test]
fn wrong_method_on_known_path_is_405_with_allow_header() {
    let mut server = start(&config_text());
    let a = server.send("DELETE", "/v1/models", &[], "");
    assert_eq!(a.status, 405, "DELETE /v1/models should be 405: {}", a.body);
    assert_eq!(a.header("Allow"), Some("GET, HEAD"), "Allow header missing/wrong");
    assert!(a.body.contains("method_not_allowed"), "body: {}", a.body);
    let chat = server.send("GET", "/v1/chat/completions", &[], "");
    assert_eq!(chat.status, 405, "GET /v1/chat/completions should be 405");
    assert_eq!(chat.header("Allow"), Some("POST"), "Allow should be POST");
}

#[test]
fn body_cap_413_at_boundary() {
    const MAX: usize = 16 * 1024 * 1024;
    let cors = Cors { enabled: false, origin: None };
    let over = check_body(true, (MAX + 1) as u64, &cors).unwrap();
    assert_eq!(over.status, 413, "over the cap must be 413: {}", over.body);
    assert!(over.body.contains("payload_too_large"), "413 code: {}", over.body);
    assert!(
        check_body(true, MAX as u64, &cors).is_none(),
        "a body at exactly the cap must not be rejected by it"
    );
    let unread = check_body(false, 0, &cors).unwrap();
    assert_eq!(unread.status, 400);
    assert!(unread.body.contains("read_error"));
}

#[test]
fn zero_workers_is_clamped_and_still_serves() {
    let source = config_text().replace(
        "env_source = \"process\"",
        "env_source = \"process\"\nworkers = 0",
    );
    let mut server = start(&source);
    assert_eq!(worker_count(server.state.cfg.server.workers, Some(8)), 1);
    let (status, _) = server.get("/health");
    assert_eq!(status, 200, "clamped server must answer /health");
}

// ---- prompts ----

fn echo_config(prompt_mode: &str) -> String {
    config_text().replace(
        "bin = \"/bin/echo\"",
        &format!("bin = \"/bin/echo\"\nprompt_mode = \"{prompt_mode}\""),
    )
}

#[test]
fn prompt_mode_last_user_sends_verbatim_without_role_labels() {
    let mut server = start(&echo_config("last_user"));
    let (status, body) = server.post(
        r#"{"model":"default","messages":[{"role":"system","content":"be terse"},{"role":"user","content":"hi"},{"role":"assistant","content":"prev"},{"role":"user","content":"final ask"}]}"#,
    );
    assert_eq!(status, 200, "body: {body}");
    assert!(body.contains("final ask"), "missing user text: {body}");
    assert!(body.contains("be terse"), "missing system text: {body}");
    assert!(!body.contains("User:"), "last_user must not label roles: {body}");
    assert!(!body.contains("Assistant:"), "last_user drops the assistant turn: {body}");
}

#[test]
fn a_transcript_with_labels_is_sent_by_default() {
    let ask = r#"{"model":"default","messages":[{"role":"system","content":"S"},{"role":"user","content":"U"},{"role":"assistant","content":"A"},{"role":"user","content":"V"}]}"#;
    for source in [config_text(), echo_config("transcript")] {
        let mut server = start(&source);
        let (status, body) = server.post(ask);
        assert_eq!(status, 200, "body: {body}");
        assert_eq!(server.seen, vec!["[System]: S\n\nUser: U\n\nAssistant: A\n\nUser: V"]);
        assert!(body.contains("User: U"), "body: {body}");
        assert!(body.contains("Assistant: A"), "body: {body}");
    }
}

// ---- origins ----

fn cors_config(origins: &str) -> String {
    config_text().replace(
        "env_source = \"process\"",
        &format!("env_source = \"process\"\ncors_origins = [{origins}]"),
    )
}

const ACAO: &str = "access-control-allow-origin";

#[test]
fn cors_preflight_204_and_echo_when_origin_allowed() {
    let origin = "http://localhost:5173";
    let mut server = start(&cors_config("\"http://localhost:5173\""));
    let p = server.send("OPTIONS", "/v1/models", &[("Origin", origin)], "");
    assert_eq!(p.status, 204, "preflight should be 204");
    assert_eq!(p.header(ACAO), Some(origin));
    assert!(p
        .header("access-control-allow-headers")
        .is_some_and(|h| h.contains("authorization") && h.contains("content-type")));
    assert_eq!(p.header("access-control-allow-methods"), Some("GET, POST, OPTIONS"));
    assert_eq!(p.header("access-control-max-age"), Some("600"));
    let g = server.send("GET", "/v1/models", &[("Origin", origin)], "");
    assert_eq!(g.status, 200);
    assert_eq!(g.header(ACAO), Some(origin), "actual response must echo the origin");
}

#[test]
fn cors_absent_for_unlisted_origin_and_by_default() {
    let mut server = start(&cors_config("\"http://localhost:5173\""));
    let g = server.send("GET", "/v1/models", &[("Origin", "http://evil.test")], "");
    assert!(g.header(ACAO).is_none(), "unlisted origin must not be echoed");
    assert_eq!(
        g.header("vary"),
        Some("Origin"),
        "CORS-enabled server must Vary: Origin even for an unlisted origin"
    );
    let mut plain = start(&config_text());
    let p = plain.send("GET", "/v1/models", &[("Origin", "http://localhost:5173")], "");
    assert!(p.header(ACAO).is_none(), "CORS off by default");
    assert!(p.header("vary").is_none(), "no CORS configured -> no Vary header");
    let o = plain.send("OPTIONS", "/v1/models", &[], "");
    assert_eq!(o.status, 405);
}

#[test]
fn cors_headers_present_on_error_responses() {
    let origin = "http://localhost:5173";
    let mut server = start(&cors_config("\"http://localhost:5173\""));
    let a = server.send("GET", "/nope", &[("Origin", origin)], "");
    assert_eq!(a.status, 404);
    assert_eq!(a.header(ACAO), Some(origin), "ACAO on 404");
    assert_eq!(a.header("vary"), Some("Origin"), "Vary on 404");
    let b = server.send("DELETE", "/v1/models", &[("Origin", origin)], "");
    assert_eq!(b.status, 405);
    assert_eq!(b.header(ACAO), Some(origin), "ACAO on 405");
}

#[test]
fn cors_header_present_on_the_sse_stream() {
    let origin = "http://localhost:5173";
    let mut server = start(&cors_config("\"http://localhost:5173\""));
    let a = server.send(
        "POST",
        "/v1/chat/completions",
        &[("Origin", origin), ("Content-Type", "application/json")],
        r#"{"model":"default","stream":true,"messages":[{"role":"user","content":"hi"}]}"#,
    );
    assert_eq!(a.status, 200);
    assert_eq!(a.header(ACAO), Some(origin), "SSE must echo ACAO");
}

#[test]
fn cors_preflight_succeeds_with_auth_enabled_and_no_token() {
    let origin = "http://localhost:5173";
    let source = cors_config("\"http://localhost:5173\"").replace(
        "env_source = \"process\"",
        "env_source = \"process\"\nauth = true\nauth_token_env = \"TEST_AUTH_TOKEN\"",
    );
    let mut server = start_with_env(&source, &[("TEST_AUTH_TOKEN", "tok")]);
    let a = server.send("OPTIONS", "/v1/chat/completions", &[("Origin", origin)], "");
    assert_eq!(a.status, 204, "preflight must not require auth");
    assert_eq!(a.header(ACAO), Some(origin));
}

#[test]
fn cors_echoes_each_of_multiple_configured_origins() {
    let mut server = start(&cors_config("\"http://a.test\", \"http://b.test\""));
    for origin in ["http://a.test", "http://b.test"] {
        let a = server.send("GET", "/v1/models", &[("Origin", origin)], "");
        assert_eq!(a.header(ACAO), Some(origin), "must echo {origin}");
    }
    let a = server.send("GET", "/v1/models", &[("Origin", "http://c.test")], "");
    assert!(a.header(ACAO).is_none(), "an unlisted origin must not be echoed");
}

#[test]
fn cors_star_is_not_a_wildcard() {
    let mut server = start(&cors_config("\"*\""));
    let a = server.send("GET", "/v1/models", &[("Origin", "http://anything.test")], "");
    assert!(a.header(ACAO).is_none(), "\"*\" must not match arbitrary origins");
}

// ---- models and routers ----

#[test]
fn strict_models_off_falls_back_to_default_chain() {
    let mut server = start(&config_text());
    let (status, body) = server
        .post(r#"{"model":"nonexistent-model","messages":[{"role":"user","content":"hi"}]}"#);
    assert_eq!(status, 200, "unknown model should fall back, got: {body}");
    assert!(body.contains("chat.completion"), "body: {body}");
}

#[test]
fn strict_models_on_rejects_unknown_model_and_names_the_fix() {
    let source = config_text().replace(
        "env_source = \"process\"",
        "env_source = \"process\"\nstrict_models = true",
    );
    let mut server = start(&source);
    let (status, body) = server
        .post(r#"{"model":"nonexistent-model","messages":[{"role":"user","content":"hi"}]}"#);
    assert_eq!(status, 404, "strict_models must reject unknown model: {body}");
    assert!(body.contains("model_not_found"), "body: {body}");
    assert!(
        body.contains("/v1/models") && body.contains("strict_models = false"),
        "404 must name both remedies: {body}"
    );
}

#[test]
fn route_header_names_the_winning_backend() {
    let source = format!(
        "{}\n[routers.smart]\nclassifier = \"echo\"\nfallback_class = \"only\"\nroutes = {{ only = \"default\" }}\n",
        config_text()
    );
    let mut server = start(&source);
    let a = server.send(
        "POST",
        "/v1/chat/completions",
        &[],
        r#"{"model":"smart","messages":[{"role":"user","content":"hi"}]}"#,
    );
    assert_eq!(a.status, 200, "body: {}", a.body);
    let route = a
        .header("x-tmuxlet-route")
        .expect("x-tmuxlet-route must be present on a router request");
    let segs: Vec<&str> = route.split('/').collect();
    assert_eq!(segs.len(), 3, "route must be class/chain/backend, got '{route}'");
    assert_eq!(segs[2], "echo", "third segment must name the winning backend: '{route}'");
    assert_eq!(
        server.seen[0],
        "Classify the task into exactly one of these labels: only.\n\nTask:\nhi\n\nAnswer with exactly one label."
    );
}

#[test]
fn a_classifier_prompt_is_filled() {
    let source = format!(
        "{}\n[routers.smart]\nclassifier = \"echo\"\nclassifier_max_chars = 2\nclassifier_prompt = \"{{input}} of {{classes}}\"\nfallback_class = \"a\"\nroutes = {{ a = \"echo\", b = \"default\" }}\n",
        config_text()
    );
    let mut server = start(&source);
    let (status, _) =
        server.post(r#"{"model":"smart","messages":[{"role":"user","content":"task"}]}"#);
    assert_eq!(status, 200);
    assert_eq!(server.seen[0], "sk of a, b");
}

#[test]
fn dropped_parts_are_logged_for_every_model() {
    let source = format!(
        "{}\n[routers.smart]\nclassifier = \"echo\"\nfallback_class = \"only\"\nroutes = {{ only = \"default\" }}\n",
        config_text()
    );
    let mut server = start(&source);
    for model in ["default", "smart"] {
        for (content, dropped) in [
            (r#"[{"type":"text","text":"a"},{"type":"image_url"}]"#, true),
            (r#""a""#, false),
        ] {
            server.logged.clear();
            let (status, _) = server.post(&format!(
                r#"{{"model":"{model}","messages":[{{"role":"user","content":{content}}}]}}"#
            ));
            assert_eq!(status, 200);
            let line = (1, "000000 non-text content parts were dropped".to_string());
            assert_eq!(server.logged.contains(&line), dropped, "{model}");
        }
    }
    assert!(server
        .logged
        .contains(&(2, "000000 route smart class=only target=default classifier_ms=1".to_string())));
}

#[test]
fn sizes_and_latencies_are_logged_for_debugging() {
    let mut server = start(fallback_config());
    let body = r#"{"model":"fallback","messages":[{"role":"user","content":"x"}]}"#;
    server.post(body);
    let debug: Vec<&str> =
        server.logged.iter().filter(|(l, _)| *l == 3).map(|(_, t)| t.as_str()).collect();
    assert_eq!(
        debug,
        vec![
            format!("000000 request_bytes={}", body.len()).as_str(),
            "000000 leg backend=broken elapsed_ms=5 answer_bytes=0",
            "000000 leg backend=good elapsed_ms=5 answer_bytes=8",
        ]
    );
}

// ---- chains ----

fn fallback_config() -> &'static str {
    r#"
[server]
listen = "127.0.0.1:3456"
default_chain = "fallback"
env_source = "process"

[backends.broken]
type = "cli"
bin = "/usr/bin/false"

[backends.good]
type = "cli"
bin = "/bin/echo"

[chains.fallback]
order = ["broken", "good"]

[chains.onlybroken]
order = ["broken"]
"#
}

#[test]
fn falls_through_failing_backend_to_a_working_one() {
    let mut server = start(fallback_config());
    let (status, body) =
        server.post(r#"{"model":"fallback","messages":[{"role":"user","content":"ping-7788"}]}"#);
    assert_eq!(status, 200, "expected fallback to `good`: {body}");
    assert!(body.contains(r#""object":"chat.completion""#), "body: {body}");
    assert!(body.contains("ping-7788"), "echoed content missing: {body}");
    assert!(body.contains(r#""model":"good""#), "served-backend label: {body}");
}

#[test]
fn all_failing_chain_returns_503() {
    let mut server = start(fallback_config());
    let (status, body) =
        server.post(r#"{"model":"onlybroken","messages":[{"role":"user","content":"hi"}]}"#);
    assert_eq!(status, 503, "body: {body}");
    assert!(body.contains("all_backends_failed"), "body: {body}");
}

#[test]
fn a_cooling_leg_is_passed_over_while_another_is_warm() {
    let mut server = start(fallback_config());
    let ask = r#"{"model":"fallback","messages":[{"role":"user","content":"x"}]}"#;
    assert_eq!(server.post(ask).0, 200);
    assert_eq!(server.seen.len(), 2);
    let (_, list) = server.get("/v1/backends");
    assert!(list.contains(r#""state":"cooling""#), "{list}");
    assert_eq!(server.post(ask).0, 200);
    assert_eq!(server.seen.len(), 3, "the broken leg must not be tried again yet");
    let (status, body) =
        server.post(r#"{"model":"onlybroken","messages":[{"role":"user","content":"hi"}]}"#);
    assert_eq!(status, 503);
    assert_eq!(server.seen.len(), 4, "the only leg is tried though it is cooling");
    assert!(body.contains("broken (exit)"), "{body}");
    server.now += 61_000_000_000;
    assert_eq!(server.post(ask).0, 200);
    assert_eq!(server.seen.len(), 6, "after its time the leg is tried again");
}

#[test]
fn a_used_up_budget_ends_a_chain() {
    let source = fallback_config().replace(
        "env_source = \"process\"",
        "env_source = \"process\"\nchain_budget_secs = 0",
    );
    let mut server = start(&source);
    let (status, body) =
        server.post(r#"{"model":"fallback","messages":[{"role":"user","content":"x"}]}"#);
    assert_eq!(status, 503);
    assert!(body.contains("[broken] backend error: skipped: budget"), "{body}");
    assert!(body.contains("[good] backend error: skipped: budget"), "{body}");
    assert!(server.seen.is_empty());
}

#[test]
fn an_empty_answer_is_a_failure_unless_allowed() {
    let source = fallback_config().replace(
        "bin = \"/usr/bin/false\"",
        "bin = \"/bin/sh\"\nargs = [\"-c\", \"printf \"]",
    );
    let ask = r#"{"model":"onlybroken","messages":[{"role":"user","content":"x"}]}"#;
    let (status, body) = start(&source).post(ask);
    assert_eq!(status, 503);
    assert!(body.contains("[broken] backend error: empty output"), "{body}");
    let allowed = source.replace("args = [\"-c\"", "allow_empty = true\nargs = [\"-c\"");
    assert_eq!(start(&allowed).post(ask).0, 200);
}

#[test]
fn watchdog_kills_an_overrunning_backend() {
    let source = r#"
[server]
listen = "127.0.0.1:3456"
default_chain = "slow"
env_source = "process"
request_timeout_secs = 1

[backends.slow]
type = "cli"
bin = "/never/ends"

[chains.slow]
order = ["slow"]
"#;
    let (status, body) =
        start(source).post(r#"{"model":"slow","messages":[{"role":"user","content":"hi"}]}"#);
    assert_eq!(status, 503, "body: {body}");
    assert!(body.contains("all_backends_failed"), "body: {body}");
    assert!(body.contains("[slow] timed out"), "body: {body}");
}

#[test]
fn api_backend_round_trips_through_mock_upstream() {
    let source = r#"
[server]
listen = "127.0.0.1:3456"
default_chain = "viaapi"
env_source = "process"

[backends.mockapi]
type = "api"
base_url = "http://127.0.0.1:9/v1"
model = "mock-model"

[chains.viaapi]
order = ["mockapi"]
"#;
    let (status, body) =
        start(source).post(r#"{"model":"viaapi","messages":[{"role":"user","content":"hi"}]}"#);
    assert_eq!(status, 200, "body: {body}");
    assert!(body.contains("pong-from-mock"), "upstream content missing: {body}");
    assert!(
        body.contains(r#""model":"mock-model""#),
        "pinned model label missing: {body}"
    );
}

#[test]
fn tmuxlet_backend_parses_completed_json() {
    let source = r#"
[server]
listen = "127.0.0.1:3456"
default_chain = "tmux"
env_source = "process"

[backends.coder]
type = "tmuxlet"
target = "coder"

[chains.tmux]
order = ["coder"]
"#;
    let (status, body) =
        start(source).post(r#"{"model":"tmux","messages":[{"role":"user","content":"hi"}]}"#);
    assert_eq!(status, 200, "body: {body}");
    assert!(body.contains("tmuxlet-marker-77"), "tmuxlet output missing: {body}");
}

#[test]
fn pty_backend_runs_in_a_pty_and_cleans_output() {
    let source = r#"
[server]
listen = "127.0.0.1:3456"
default_chain = "default"
env_source = "process"

[backends.ptyecho]
type = "cli"
bin = "/bin/echo"
args = ["pty-works-42"]
pty = true

[chains.default]
order = ["ptyecho"]
"#;
    let (status, body) =
        start(source).post(r#"{"model":"default","messages":[{"role":"user","content":"hi"}]}"#);
    assert_eq!(status, 200, "body: {body}");
    assert!(body.contains("pty-works-42"), "PTY output missing: {body}");
}

// ---- limits ----

fn cap_config() -> &'static str {
    r#"
[server]
listen = "127.0.0.1:3456"
default_chain = "default"
env_source = "process"

[backends.slow]
type = "cli"
bin = "/bin/sh"
args = ["-c", "sleep 0.6; printf ok"]
max_concurrent = 1

[backends.echo]
type = "cli"
bin = "/bin/echo"

[chains.default]
order = ["slow", "echo"]

[chains.solo]
order = ["slow"]
"#
}

fn chat_body(model: &str, content: &str) -> String {
    format!(r#"{{"model":"{model}","messages":[{{"role":"user","content":"{content}"}}]}}"#)
}

#[test]
fn saturated_leg_falls_through_to_the_next_backend() {
    let mut server = start(cap_config());
    let a = ActiveSlot::try_acquire(&mut server.active, "slow", 1).unwrap();
    let (bs, bb) = server.post(&chat_body("default", "BBB-marker"));
    assert_eq!(bs, 200, "B should fall through to echo: {bb}");
    assert!(bb.contains("BBB-marker"), "B must be answered by echo: {bb}");
    a.release(&mut server.active);
    let (as_, ab) = server.post(&chat_body("default", "AAA"));
    assert_eq!(as_, 200, "A should complete via slow");
    assert!(ab.contains(r#""model":"slow""#), "{ab}");
}

#[test]
fn all_saturated_chain_returns_503_busy() {
    let mut server = start(cap_config());
    let _a = ActiveSlot::try_acquire(&mut server.active, "slow", 1).unwrap();
    let (bs, bb) = server.post(&chat_body("solo", "BBB"));
    assert_eq!(bs, 503, "all-saturated must 503: {bb}");
    assert!(bb.contains("busy"), "must name the busy class: {bb}");
    assert!(bb.contains("all_backends_failed"), "{bb}");
}

#[test]
fn slot_is_released_after_a_dispatch_completes() {
    let mut server = start(cap_config());
    let (s1, b1) = server.post(&chat_body("solo", "one"));
    assert_eq!(s1, 200, "first: {b1}");
    let (s2, b2) = server.post(&chat_body("solo", "two"));
    assert_eq!(s2, 200, "slot must be reusable after completion: {b2}");
}

#[test]
fn backends_endpoint_reports_busy_under_load() {
    let mut server = start(cap_config());
    let _a = ActiveSlot::try_acquire(&mut server.active, "slow", 1).unwrap();
    let (_s, body) = server.get("/v1/backends");
    assert!(body.contains(r#""name":"slow""#), "{body}");
    assert!(
        body.contains(r#""state":"busy""#),
        "slow must report busy while its slot is held: {body}"
    );
}

#[test]
fn classifier_at_capacity_degrades_to_the_fallback_class() {
    let source = r#"
[server]
listen = "127.0.0.1:3456"
default_chain = "default"
env_source = "process"

[backends.slowclass]
type = "cli"
bin = "/bin/sh"
args = ["-c", "sleep 0.6; printf research"]
max_concurrent = 1

[backends.echo]
type = "cli"
bin = "/bin/echo"

[routers.smart]
classifier = "slowclass"
fallback_class = "quick"
routes = { research = "echo", quick = "echo" }

[chains.default]
order = ["echo"]
"#;
    let mut server = start(source);
    let ask = r#"{"model":"smart","messages":[{"role":"user","content":"B"}]}"#;
    let free = server.send("POST", "/v1/chat/completions", &[], ask);
    assert_eq!(free.header("x-tmuxlet-route"), Some("research/echo/echo"));
    let _a = ActiveSlot::try_acquire(&mut server.active, "slowclass", 1).unwrap();
    let asked = server.seen.len();
    let b = server.send("POST", "/v1/chat/completions", &[], ask);
    assert_eq!(b.status, 200, "B must still succeed: {}", b.body);
    let route = b
        .header("x-tmuxlet-route")
        .expect("router response must carry x-tmuxlet-route");
    assert!(
        route.starts_with("quick/"),
        "B must route via the fallback class: {route}"
    );
    assert_eq!(server.seen.len(), asked + 1, "B must not ask the saturated classifier");
}

#[test]
fn backends_endpoint_shape_and_ok_transition() {
    let mut server = start(&config_text());
    let (status, body) = server.get("/v1/backends");
    assert_eq!(status, 200, "body: {body}");
    assert!(body.contains(r#""name":"echo""#), "body: {body}");
    assert!(body.contains(r#""type":"cli""#), "body: {body}");
    assert!(
        body.contains(r#""state":"unknown""#),
        "a fresh backend is unknown: {body}"
    );
    for field in [
        "consecutive_failures",
        "last_error",
        "last_latency_ms",
        "cooling_secs",
    ] {
        assert!(body.contains(field), "missing field {field}: {body}");
    }
    let (cs, cb) =
        server.post(r#"{"model":"default","messages":[{"role":"user","content":"hi"}]}"#);
    assert_eq!(cs, 200, "chat body: {cb}");
    let (_s, body2) = server.get("/v1/backends");
    assert!(
        body2.contains(r#""state":"ok""#),
        "backend should be ok after a success: {body2}"
    );
    assert_eq!(
        body2,
        r#"[{"consecutive_failures":0,"cooling_secs":null,"last_error":null,"last_latency_ms":5,"name":"echo","state":"ok","type":"cli"}]"#
    );
}

// ---- streams ----

#[test]
fn stream_emits_chunks_role_and_done() {
    let mut server = start(&config_text());
    let a = server.send(
        "POST",
        "/v1/chat/completions",
        &[],
        r#"{"model":"default","stream":true,"messages":[{"role":"user","content":"streamtest"}]}"#,
    );
    let body = &a.body;
    assert_eq!(a.status, 200, "body: {body}");
    assert!(a.header("content-type").unwrap().contains("text/event-stream"));
    assert!(body.contains("chat.completion.chunk"), "no chunk object: {body}");
    assert!(
        body.trim_end().ends_with("data: [DONE]"),
        "stream not terminated by [DONE]: {body}"
    );
    let role = body.find(r#""role":"assistant""#).expect("role-prime frame");
    let content = body.find("streamtest").expect("content frame");
    let done = body.find("data: [DONE]").expect("DONE terminator");
    assert!(
        role < content && content < done,
        "frames out of order (role={role}, content={content}, done={done}): {body}"
    );
}

#[test]
fn a_failed_stream_is_closed_too() {
    let mut server = start(fallback_config());
    let a = server.send(
        "POST",
        "/v1/chat/completions",
        &[],
        r#"{"model":"onlybroken","stream":true,"messages":[{"role":"user","content":"x"}]}"#,
    );
    assert_eq!(a.status, 200);
    assert!(a.body.contains("all_backends_failed"));
    assert!(a.body.ends_with("data: [DONE]\n\n"));
    let lost = stream_with_keepalive(StreamEvent::Lost, true, 7);
    assert!(lost.last);
    assert_eq!(lost.frames.len(), 2);
    assert!(lost.frames[0].contains("server (backend error)"));
    assert_eq!(lost.frames[1], "data: [DONE]\n\n");
    let quiet = stream_with_keepalive(StreamEvent::Quiet, true, 7);
    assert!(!quiet.last);
    assert_eq!(quiet.frames, vec![": keepalive\n\n"]);
}
