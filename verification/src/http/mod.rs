//! The server's side of HTTP: which request is answered how.

pub mod chain;
pub mod chat;
pub mod health;

use vstd::prelude::*;

use crate::auth::{bearer_token, check_bearer};
use crate::backend::Backend;
use crate::config::Config;
use crate::env::Env;
use crate::names::NameMap;
use crate::openai::{
    error_text, model_list, model_list_text, ErrorEnvelope,
};
use crate::text::{
    chars_of, decimal, decimal_text, find_char, find_from, has_prefix, in_order, listed,
    opt_str_view, opt_view, same, sort_texts, starts_with, text_range, views,
};
use self::health::{
    backends_text, health_map, list_backends, names_of, ordered_names, sorted_names, BackendHealth,
};

verus! {

// ---------------------------------------------------------------------------
// Routes
// ---------------------------------------------------------------------------

/// What a request asks for.
pub enum Route {
    Health,
    Models,
    Backends,
    Chat,
    /// A path that is kept for later: `/`, or one below `/ui/` or `/api/`.
    Reserved,
    NotFound,
    /// A known path with another method; holds the methods that it takes.
    MethodNotAllowed(&'static str),
}

/// A route of the model.
pub ghost enum RouteView {
    Health,
    Models,
    Backends,
    Chat,
    Reserved,
    NotFound,
    MethodNotAllowed(Seq<char>),
}

impl View for Route {
    type V = RouteView;

    open spec fn view(&self) -> RouteView {
        match self {
            Route::Health => RouteView::Health,
            Route::Models => RouteView::Models,
            Route::Backends => RouteView::Backends,
            Route::Chat => RouteView::Chat,
            Route::Reserved => RouteView::Reserved,
            Route::NotFound => RouteView::NotFound,
            Route::MethodNotAllowed(a) => RouteView::MethodNotAllowed(a@),
        }
    }
}

/// What a method and a path ask for; `HEAD` asks for what `GET` does.
pub open spec fn route_of(method: Seq<char>, path: Seq<char>) -> RouteView {
    let get = method == "GET"@ || method == "HEAD"@;
    if path == "/health"@ || path == "/v1/models"@ || path == "/v1/backends"@ {
        if !get {
            RouteView::MethodNotAllowed("GET, HEAD"@)
        } else if path == "/health"@ {
            RouteView::Health
        } else if path == "/v1/models"@ {
            RouteView::Models
        } else {
            RouteView::Backends
        }
    } else if path == "/v1/chat/completions"@ {
        if method == "POST"@ {
            RouteView::Chat
        } else {
            RouteView::MethodNotAllowed("POST"@)
        }
    } else if path == "/"@ || has_prefix(path, "/ui/"@) || has_prefix(path, "/api/"@) {
        RouteView::Reserved
    } else {
        RouteView::NotFound
    }
}

/// What a method and a path ask for.
pub fn classify(method: &str, path: &str) -> (r: Route)
    ensures
        r@ == route_of(method@, path@),
{
    proof {
        lemma_paths_differ();
    }
    let get: bool = same(method, "GET") || same(method, "HEAD");
    if same(path, "/health") {
        if get {
            Route::Health
        } else {
            Route::MethodNotAllowed("GET, HEAD")
        }
    } else if same(path, "/v1/models") {
        if get {
            Route::Models
        } else {
            Route::MethodNotAllowed("GET, HEAD")
        }
    } else if same(path, "/v1/backends") {
        if get {
            Route::Backends
        } else {
            Route::MethodNotAllowed("GET, HEAD")
        }
    } else if same(path, "/v1/chat/completions") {
        if same(method, "POST") {
            Route::Chat
        } else {
            Route::MethodNotAllowed("POST")
        }
    } else if same(path, "/") || starts_with(path, "/ui/") || starts_with(path, "/api/") {
        Route::Reserved
    } else {
        Route::NotFound
    }
}

proof fn lemma_paths_differ()
    ensures
        "/health"@ != "/v1/models"@,
        "/health"@ != "/v1/backends"@,
        "/v1/models"@ != "/v1/backends"@,
{
    reveal_strlit("/health");
    reveal_strlit("/v1/models");
    reveal_strlit("/v1/backends");
    assert("/health"@.len() == 7);
    assert("/v1/models"@.len() == 10);
    assert("/v1/backends"@.len() == 12);
}

/// The path of a URL: what stands before its query.
pub open spec fn path_of(url: Seq<char>) -> Seq<char> {
    url.take(find_from(url, '?', 0))
}

/// The path of a URL.
pub fn url_path(url: &str) -> (r: String)
    ensures
        r@ == path_of(url@),
{
    let v = chars_of(url);
    let e: usize = find_char(&v, '?', 0);
    let r = text_range(&v, 0, e);
    proof {
        assert(r@ =~= url@.take(e as int));
    }
    r
}

// ---------------------------------------------------------------------------
// Replies
// ---------------------------------------------------------------------------

/// A complete answer to a request.
pub struct Reply {
    pub status: u16,
    pub headers: Vec<(String, String)>,
    pub body: String,
}

/// An answer of the model.
pub ghost struct ReplyView {
    pub status: u16,
    pub headers: Seq<(Seq<char>, Seq<char>)>,
    pub body: Seq<char>,
}

/// Header lines as texts.
pub open spec fn header_texts(h: Seq<(String, String)>) -> Seq<(Seq<char>, Seq<char>)> {
    h.map_values(|p: (String, String)| (p.0@, p.1@))
}

impl View for Reply {
    type V = ReplyView;

    open spec fn view(&self) -> ReplyView {
        ReplyView {
            status: self.status,
            headers: header_texts(self.headers@),
            body: self.body@,
        }
    }
}

/// Adds a header line.
pub fn header(headers: &mut Vec<(String, String)>, name: &str, value: &str)
    ensures
        header_texts(final(headers)@) == header_texts(old(headers)@).push((name@, value@)),
{
    let ghost before = headers@;
    headers.push((name.to_owned(), value.to_owned()));
    proof {
        assert(header_texts(headers@) =~= header_texts(before).push((name@, value@)));
    }
}

/// An answer in JSON.
pub open spec fn json_reply(status: u16, body: Seq<char>) -> ReplyView {
    ReplyView { status, headers: seq![("Content-Type"@, "application/json"@)], body }
}

/// An error in JSON.
pub open spec fn error_reply(
    status: u16,
    message: Seq<char>,
    etype: Seq<char>,
    code: Seq<char>,
) -> ReplyView {
    json_reply(status, error_text(message, etype, Some(code)))
}

/// The answer to a known path with another method.
pub open spec fn method_reply(allow: Seq<char>) -> ReplyView {
    ReplyView {
        status: 405,
        headers: seq![("Content-Type"@, "application/json"@), ("Allow"@, allow)],
        body: error_text(
            "method not allowed on this path; use: "@ + allow,
            "invalid_request_error"@,
            Some("method_not_allowed"@),
        ),
    }
}

/// An answer in JSON.
pub fn respond_json(status: u16, body: String) -> (r: Reply)
    ensures
        r@ == json_reply(status, body@),
{
    let mut headers: Vec<(String, String)> = Vec::new();
    header(&mut headers, "Content-Type", "application/json");
    proof {
        assert(header_texts(headers@) =~= seq![("Content-Type"@, "application/json"@)]);
    }
    Reply { status, headers, body }
}

/// An error in JSON.
pub fn respond_err(status: u16, msg: &str, etype: &str, code: &str) -> (r: Reply)
    ensures
        r@ == error_reply(status, msg@, etype@, code@),
{
    respond_json(status, ErrorEnvelope::new(msg, etype, Some(code)).to_json())
}

/// The answer to `HEAD`: the headers of `GET`, and no body.
pub fn respond_head() -> (r: Reply)
    ensures
        r@ == json_reply(200, Seq::empty()),
{
    let none = String::new();
    proof {
        assert(none@ =~= Seq::<char>::empty());
    }
    respond_json(200, none)
}

/// The answer to a known path with another method.
pub fn respond_405(allow: &str) -> (r: Reply)
    ensures
        r@ == method_reply(allow@),
{
    let message = "method not allowed on this path; use: ".to_owned().concat(allow);
    let body = ErrorEnvelope::new(
        message.as_str(),
        "invalid_request_error",
        Some("method_not_allowed"),
    ).to_json();
    let mut headers: Vec<(String, String)> = Vec::new();
    header(&mut headers, "Content-Type", "application/json");
    header(&mut headers, "Allow", allow);
    proof {
        assert(header_texts(headers@) =~= seq![
            ("Content-Type"@, "application/json"@),
            ("Allow"@, allow@),
        ]);
    }
    Reply { status: 405, headers, body }
}

// ---------------------------------------------------------------------------
// Origins
// ---------------------------------------------------------------------------

/// What an answer says about the origin of its request.
pub struct Cors {
    /// Whether any origins are configured.
    pub enabled: bool,
    /// The request's origin, where it is one of them.
    pub origin: Option<String>,
}

/// The origin of a request, where it is one of those configured: they are
/// compared as they stand.
pub open spec fn allowed_origin(origins: Seq<Seq<char>>, origin: Option<Seq<char>>) -> Option<
    Seq<char>,
> {
    match origin {
        Some(o) => if origins.contains(o) {
            Some(o)
        } else {
            None
        },
        None => None,
    }
}

/// What is said about an origin, of the model.
pub ghost struct CorsView {
    pub enabled: bool,
    pub origin: Option<Seq<char>>,
}

impl View for Cors {
    type V = CorsView;

    open spec fn view(&self) -> CorsView {
        CorsView { enabled: self.enabled, origin: opt_view(self.origin) }
    }
}

/// What the configuration makes of a request's origin.
pub open spec fn cors_for(origins: Seq<Seq<char>>, origin: Option<Seq<char>>) -> CorsView {
    CorsView { enabled: origins.len() > 0, origin: allowed_origin(origins, origin) }
}

/// Compares a request's origin with those configured.
pub fn set_cors_origin(origins: &Vec<String>, origin: Option<&str>) -> (r: Cors)
    ensures
        r@ == cors_for(views(origins@), opt_str_view(origin)),
{
    let enabled: bool = origins.len() > 0;
    match origin {
        Some(o) => {
            if listed(o, origins) {
                Cors { enabled, origin: Some(o.to_owned()) }
            } else {
                Cors { enabled, origin: None }
            }
        },
        None => Cors { enabled, origin: None },
    }
}

/// The header lines that say which origin may read an answer. Where origins are
/// configured, every answer says that it depends on the origin.
pub open spec fn cors_headers(c: CorsView) -> Seq<(Seq<char>, Seq<char>)> {
    let vary: Seq<(Seq<char>, Seq<char>)> = if c.enabled {
        seq![("Vary"@, "Origin"@)]
    } else {
        Seq::empty()
    };
    match c.origin {
        Some(o) => seq![("Access-Control-Allow-Origin"@, o)] + vary,
        None => vary,
    }
}

/// An answer with the header lines about its origin.
pub open spec fn with_cors(r: ReplyView, c: CorsView) -> ReplyView {
    ReplyView { status: r.status, headers: r.headers + cors_headers(c), body: r.body }
}

/// Adds the header lines about the origin.
pub fn add_cors(headers: &mut Vec<(String, String)>, cors: &Cors)
    ensures
        header_texts(final(headers)@) == header_texts(old(headers)@) + cors_headers(cors@),
{
    let ghost before = header_texts(headers@);
    if let Some(o) = &cors.origin {
        header(headers, "Access-Control-Allow-Origin", o.as_str());
    }
    if cors.enabled {
        header(headers, "Vary", "Origin");
    }
    proof {
        assert(header_texts(headers@) =~= before + cors_headers(cors@));
    }
}

/// Adds to an answer the header lines about its origin.
pub fn apply_cors(reply: Reply, cors: &Cors) -> (r: Reply)
    ensures
        r@ == with_cors(reply@, cors@),
{
    let mut headers = reply.headers;
    add_cors(&mut headers, cors);
    Reply { status: reply.status, headers, body: reply.body }
}

/// The header lines of the answer to a preflight request.
pub open spec fn preflight_headers(c: CorsView) -> Seq<(Seq<char>, Seq<char>)> {
    match c.origin {
        Some(_) => seq![
            ("Access-Control-Allow-Methods"@, "GET, POST, OPTIONS"@),
            ("Access-Control-Allow-Headers"@, "authorization, content-type"@),
            ("Access-Control-Max-Age"@, "600"@),
        ],
        None => Seq::empty(),
    }
}

/// The answer to a preflight request.
pub open spec fn preflight_reply(c: CorsView) -> ReplyView {
    with_cors(ReplyView { status: 204, headers: preflight_headers(c), body: Seq::empty() }, c)
}

/// The answer to a preflight request: what a listed origin may do.
pub fn respond_preflight(cors: &Cors) -> (r: Reply)
    ensures
        r@ == preflight_reply(cors@),
{
    let mut headers: Vec<(String, String)> = Vec::new();
    if cors.origin.is_some() {
        header(&mut headers, "Access-Control-Allow-Methods", "GET, POST, OPTIONS");
        header(&mut headers, "Access-Control-Allow-Headers", "authorization, content-type");
        header(&mut headers, "Access-Control-Max-Age", "600");
    }
    let body = String::new();
    proof {
        assert(header_texts(headers@) =~= preflight_headers(cors@));
        assert(body@ =~= Seq::<char>::empty());
    }
    apply_cors(Reply { status: 204, headers, body }, cors)
}

// ---------------------------------------------------------------------------
// Requests
// ---------------------------------------------------------------------------

/// What the server works with, fixed at its start.
pub struct State {
    pub cfg: Config,
    pub env: Env,
    /// The backends as they are run, by name.
    pub backends: NameMap<Backend>,
    /// The token that clients have to send; none where they need not.
    pub auth_token: Option<String>,
    /// Whether errors are shortened for clients.
    pub redact_errors: bool,
}

/// A request before its body is read.
pub struct Inbound {
    pub method: String,
    pub url: String,
    pub authorization: Option<String>,
    pub origin: Option<String>,
}

/// What is done with a request.
pub enum Action {
    /// Answer, and log the warning where there is one.
    Answer(Reply, Option<String>),
    /// Read the body, and handle it as a chat.
    ReadBody(Cors),
}

/// The version that the server reports.
pub const VERSION: &'static str = "0.2.0";

/// The answer to a health check.
pub open spec fn health_text(backends: nat, chains: nat) -> Seq<char> {
    "{\"status\":\"ok\",\"version\":\""@ + VERSION@ + "\",\"backends\":"@ + decimal(backends)
        + ",\"chains\":"@ + decimal(chains) + "}"@
}

/// Writes the answer to a health check.
pub fn health_body(cfg: &Config) -> (r: String)
    ensures
        r@ == health_text(cfg.backends.pairs().len(), cfg.chains.pairs().len()),
{
    "{\"status\":\"ok\",\"version\":\"".to_owned().concat(VERSION).concat(
        "\",\"backends\":",
    ).concat(decimal_text(cfg.backends.len() as u128).as_str()).concat(",\"chains\":").concat(
        decimal_text(cfg.chains.len() as u128).as_str(),
    ).concat("}")
}

/// The names that a client may ask for: the routers and chains in order, then
/// the backends in order.
pub open spec fn model_ids(cfg: Config) -> Seq<Seq<char>> {
    in_order(
        cfg.routers.pairs().map_values(|p: (Seq<char>, crate::config::Router)| p.0)
            + cfg.chains.pairs().map_values(|p: (Seq<char>, crate::config::Chain)| p.0),
    ) + ordered_names(cfg.backends)
}

/// The names that a client may ask for.
pub fn list_models(cfg: &Config) -> (r: Vec<String>)
    ensures
        views(r@) == model_ids(*cfg),
{
    let mut head = names_of(&cfg.routers);
    let mut chains = names_of(&cfg.chains);
    let ghost a = views(head@);
    let ghost b = views(chains@);
    head.append(&mut chains);
    proof {
        assert(views(head@) =~= a + b);
    }
    let mut out = sort_texts(&head);
    let mut rest = sorted_names(&cfg.backends);
    let ghost c = views(out@);
    let ghost d = views(rest@);
    out.append(&mut rest);
    proof {
        assert(views(out@) =~= c + d);
    }
    out
}

/// The list of models holds the names of the routers, chains and backends, and
/// no others.
pub proof fn law_models_are_listed(cfg: Config, n: Seq<char>)
    ensures
        model_ids(cfg).contains(n) <==> (cfg.routers@.dom().contains(n)
            || cfg.chains@.dom().contains(n) || cfg.backends@.dom().contains(n)),
{
    broadcast use vstd::seq_lib::group_to_multiset_ensures;

    let routers = cfg.routers.pairs().map_values(|p: (Seq<char>, crate::config::Router)| p.0);
    let chains = cfg.chains.pairs().map_values(|p: (Seq<char>, crate::config::Chain)| p.0);
    let backends = cfg.backends.pairs().map_values(|p: (Seq<char>, crate::config::Backend)| p.0);
    let head = routers + chains;
    crate::text::law_in_order(head);
    crate::text::law_in_order(backends);
    assert(in_order(head).contains(n) <==> head.contains(n));
    assert(in_order(backends).contains(n) <==> backends.contains(n));
    lemma_names(cfg.routers, n);
    lemma_names(cfg.chains, n);
    lemma_names(cfg.backends, n);
    lemma_concat_contains(routers, chains, n);
    lemma_concat_contains(in_order(head), in_order(backends), n);
}

proof fn lemma_names<V>(m: NameMap<V>, n: Seq<char>)
    ensures
        m.pairs().map_values(|p: (Seq<char>, V)| p.0).contains(n) <==> m@.dom().contains(n),
{
    let names = m.pairs().map_values(|p: (Seq<char>, V)| p.0);
    if names.contains(n) {
        let i = choose|i: int| 0 <= i < names.len() && names[i] == n;
        assert(m.pairs()[i].0 == n);
    }
    if m@.dom().contains(n) {
        let i = crate::names::place(m.pairs(), n);
        assert(names[i] == n);
    }
}

proof fn lemma_concat_contains(a: Seq<Seq<char>>, b: Seq<Seq<char>>, n: Seq<char>)
    ensures
        (a + b).contains(n) <==> (a.contains(n) || b.contains(n)),
{
    if a.contains(n) {
        let i = choose|i: int| 0 <= i < a.len() && a[i] == n;
        assert((a + b)[i] == n);
    }
    if b.contains(n) {
        let i = choose|i: int| 0 <= i < b.len() && b[i] == n;
        assert((a + b)[a.len() + i] == n);
    }
    if (a + b).contains(n) {
        let i = choose|i: int| 0 <= i < (a + b).len() && (a + b)[i] == n;
        if i < a.len() {
            assert(a[i] == n);
        } else {
            assert(b[i - a.len()] == n);
        }
    }
}

/// A route that needs a token.
pub open spec fn is_protected(r: RouteView) -> bool {
    r is Models || r is Chat || r is Backends
}

/// Whether a request may go on: its route needs no token, none is configured,
/// or it carries the right one.
pub open spec fn is_authorized(
    token: Option<Seq<char>>,
    route: RouteView,
    authorization: Option<Seq<char>>,
) -> bool {
    match token {
        Some(t) => is_protected(route) ==> bearer_token(authorization) == Some(t),
        None => true,
    }
}

/// What is done with a request, as a value of the model.
pub ghost enum ActionView {
    Answer(ReplyView, Option<Seq<char>>),
    ReadBody(CorsView),
}

impl View for Action {
    type V = ActionView;

    open spec fn view(&self) -> ActionView {
        match self {
            Action::Answer(reply, warning) => ActionView::Answer(reply@, opt_view(*warning)),
            Action::ReadBody(cors) => ActionView::ReadBody(cors@),
        }
    }
}

/// What is done with a request.
pub open spec fn handled(
    method: Seq<char>,
    url: Seq<char>,
    authorization: Option<Seq<char>>,
    cors: CorsView,
    state: State,
    health: Map<Seq<char>, health::HealthView>,
    active: Map<Seq<char>, usize>,
    now: u64,
    unix_now: u64,
) -> ActionView {
    let path = path_of(url);
    let route = route_of(method, path);
    if method == "OPTIONS"@ && cors.enabled {
        ActionView::Answer(preflight_reply(cors), None)
    } else if !is_authorized(opt_view(state.auth_token), route, authorization) {
        ActionView::Answer(
                with_cors(
                    error_reply(
                        401,
                        "missing or invalid bearer token"@,
                        "invalid_request_error"@,
                        "unauthorized"@,
                    ),
                    cors,
                ),
                Some(
                    "401 on "@ + path
                        + ": token mismatch — the expected token is in ~/.tmuxlet/token (or the auth_token_env var)"@,
                ),
        )
    } else if method == "HEAD"@ && (route is Health || route is Models || route is Backends) {
        ActionView::Answer(with_cors(json_reply(200, Seq::empty()), cors), None)
    } else {
        match route {
            RouteView::MethodNotAllowed(allow) => ActionView::Answer(with_cors(method_reply(allow), cors), None),
            RouteView::Health => ActionView::Answer(
                    with_cors(
                        json_reply(
                            200,
                            health_text(
                                state.cfg.backends.pairs().len(),
                                state.cfg.chains.pairs().len(),
                            ),
                        ),
                        cors,
                    ),
                    None,
            ),
            RouteView::Models => ActionView::Answer(
                    with_cors(
                        json_reply(200, model_list_text(model_ids(state.cfg), unix_now)),
                        cors,
                    ),
                    None,
            ),
            RouteView::Backends => ActionView::Answer(
                    with_cors(
                        json_reply(200, backends_text(state.cfg, health, active, now)),
                        cors,
                    ),
                    None,
            ),
            RouteView::Reserved => ActionView::Answer(
                    with_cors(
                        error_reply(
                            501,
                            "not implemented in V1"@,
                            "server_error"@,
                            "not_implemented"@,
                        ),
                        cors,
                    ),
                    None,
            ),
            RouteView::NotFound => ActionView::Answer(
                    with_cors(
                        error_reply(
                            404,
                            "no such route"@,
                            "invalid_request_error"@,
                            "unknown_route"@,
                        ),
                        cors,
                    ),
                    None,
            ),
            RouteView::Chat => ActionView::ReadBody(cors),
        }
    }
}

/// The list of backends as an answer.
pub fn respond_backends(
    state: &State,
    health: &NameMap<BackendHealth>,
    active: &NameMap<usize>,
    now: u64,
) -> (r: Reply)
    ensures
        r@ == json_reply(200, backends_text(state.cfg, health_map(health@), active@, now)),
{
    respond_json(200, list_backends(&state.cfg, health, active, now))
}

/// The list of models as an answer.
pub fn respond_models(state: &State, unix_now: u64) -> (r: Reply)
    ensures
        r@ == json_reply(200, model_list_text(model_ids(state.cfg), unix_now)),
{
    let ids = list_models(&state.cfg);
    let ghost texts = views(ids@);
    let list = model_list(ids, unix_now);
    proof {
        assert(crate::openai::lists_models(list, texts, unix_now));
    }
    respond_json(200, list.to_json())
}

/// Decides what is done with a request before its body is read. A preflight
/// request is answered first, and without a token, as browsers send none with
/// it; a health check needs no token either.
pub fn handle(
    req: &Inbound,
    state: &State,
    health: &NameMap<BackendHealth>,
    active: &NameMap<usize>,
    now: u64,
    unix_now: u64,
) -> (r: Action)
    ensures
        r@ == handled(
            req.method@,
            req.url@,
            opt_view(req.authorization),
            cors_for(views(state.cfg.server.cors_origins@), opt_view(req.origin)),
            *state,
            health_map(health@),
            active@,
            now,
            unix_now,
        ),
{
    let origin: Option<&str> = match &req.origin {
        Some(o) => Some(o.as_str()),
        None => None,
    };
    let cors = set_cors_origin(&state.cfg.server.cors_origins, origin);
    let method = req.method.as_str();
    if same(method, "OPTIONS") && cors.enabled {
        return Action::Answer(respond_preflight(&cors), None);
    }
    let path = url_path(req.url.as_str());
    let route = classify(method, path.as_str());
    let guarded: bool = match route {
        Route::Models => true,
        Route::Chat => true,
        Route::Backends => true,
        _ => false,
    };
    if guarded {
        if let Some(token) = &state.auth_token {
            let sent: Option<&str> = match &req.authorization {
                Some(a) => Some(a.as_str()),
                None => None,
            };
            if !check_bearer(sent, token.as_str()) {
                let warning = "401 on ".to_owned().concat(path.as_str()).concat(
                    ": token mismatch — the expected token is in ~/.tmuxlet/token (or the auth_token_env var)",
                );
                let reply = respond_err(
                    401,
                    "missing or invalid bearer token",
                    "invalid_request_error",
                    "unauthorized",
                );
                return Action::Answer(apply_cors(reply, &cors), Some(warning));
            }
        }
    }
    let head: bool = same(method, "HEAD");
    let reply = match route {
        Route::MethodNotAllowed(allow) => respond_405(allow),
        Route::Health => {
            if head {
                respond_head()
            } else {
                respond_json(200, health_body(&state.cfg))
            }
        },
        Route::Models => {
            if head {
                respond_head()
            } else {
                respond_models(state, unix_now)
            }
        },
        Route::Backends => {
            if head {
                respond_head()
            } else {
                respond_backends(state, health, active, now)
            }
        },
        Route::Reserved => respond_err(
            501,
            "not implemented in V1",
            "server_error",
            "not_implemented",
        ),
        Route::NotFound => respond_err(
            404,
            "no such route",
            "invalid_request_error",
            "unknown_route",
        ),
        Route::Chat => {
            return Action::ReadBody(cors);
        },
    };
    Action::Answer(apply_cors(reply, &cors), None)
}

/// Without the right token nothing of a protected route is given away, whatever
/// else the request says: the answer is 401, with no other body than the error.
pub proof fn law_protected_routes_need_the_token(
    method: Seq<char>,
    url: Seq<char>,
    authorization: Option<Seq<char>>,
    cors: CorsView,
    state: State,
    health: Map<Seq<char>, health::HealthView>,
    active: Map<Seq<char>, usize>,
    now: u64,
    unix_now: u64,
)
    requires
        state.auth_token is Some,
        bearer_token(authorization) != opt_view(state.auth_token),
        is_protected(route_of(method, path_of(url))),
    ensures
        ({
            let h = handled(
                method,
                url,
                authorization,
                cors,
                state,
                health,
                active,
                now,
                unix_now,
            );
            h matches ActionView::Answer(reply, _) && reply.status == 401 && reply.body == error_text(
                "missing or invalid bearer token"@,
                "invalid_request_error"@,
                Some("unauthorized"@),
            )
        }),
{
    reveal_strlit("OPTIONS");
    reveal_strlit("GET");
    reveal_strlit("HEAD");
    reveal_strlit("POST");
    assert("OPTIONS"@.len() == 7);
    assert("GET"@.len() == 3 && "HEAD"@.len() == 4 && "POST"@.len() == 4);
}

/// A health check is answered whatever token a request carries, or none.
pub proof fn law_health_is_open(
    method: Seq<char>,
    url: Seq<char>,
    authorization: Option<Seq<char>>,
    cors: CorsView,
    state: State,
    health: Map<Seq<char>, health::HealthView>,
    active: Map<Seq<char>, usize>,
    now: u64,
    unix_now: u64,
)
    requires
        route_of(method, path_of(url)) is Health,
    ensures
        ({
            let h = handled(
                method,
                url,
                authorization,
                cors,
                state,
                health,
                active,
                now,
                unix_now,
            );
            h matches ActionView::Answer(reply, _) && reply.status == 200
        }),
{
    reveal_strlit("OPTIONS");
    reveal_strlit("GET");
    reveal_strlit("HEAD");
    assert("OPTIONS"@.len() == 7);
    assert("GET"@.len() == 3 && "HEAD"@.len() == 4);
}

/// `HEAD` is answered like `GET`, with the same status and header lines, but
/// without a body where the request may go on.
pub proof fn law_head_mirrors_get(
    url: Seq<char>,
    authorization: Option<Seq<char>>,
    cors: CorsView,
    state: State,
    health: Map<Seq<char>, health::HealthView>,
    active: Map<Seq<char>, usize>,
    now: u64,
    unix_now: u64,
)
    ensures
        ({
            let head = handled(
                "HEAD"@,
                url,
                authorization,
                cors,
                state,
                health,
                active,
                now,
                unix_now,
            );
            let get = handled(
                "GET"@,
                url,
                authorization,
                cors,
                state,
                health,
                active,
                now,
                unix_now,
            );
            &&& head is Answer && get is Answer
            &&& head->Answer_0.status == get->Answer_0.status
            &&& head->Answer_0.headers == get->Answer_0.headers
            &&& head->Answer_0.status == 200 ==> head->Answer_0.body.len() == 0
        }),
{
    reveal_strlit("OPTIONS");
    reveal_strlit("GET");
    reveal_strlit("HEAD");
    reveal_strlit("POST");
    assert("OPTIONS"@.len() == 7 && "POST"@.len() == 4 && "POST"@[0] == 'P');
    assert("GET"@.len() == 3 && "HEAD"@.len() == 4 && "HEAD"@[0] == 'H');
}

/// Where origins are configured, every answer says that it depends on the
/// origin, and only a listed origin may read it.
pub proof fn law_every_answer_names_its_origin(
    method: Seq<char>,
    url: Seq<char>,
    authorization: Option<Seq<char>>,
    cors: CorsView,
    state: State,
    health: Map<Seq<char>, health::HealthView>,
    active: Map<Seq<char>, usize>,
    now: u64,
    unix_now: u64,
)
    requires
        cors.enabled,
    ensures
        ({
            let h = handled(
                method,
                url,
                authorization,
                cors,
                state,
                health,
                active,
                now,
                unix_now,
            );
            h matches ActionView::Answer(reply, _) ==> {
                &&& reply.headers.contains(("Vary"@, "Origin"@))
                &&& cors.origin is Some ==> reply.headers.contains(
                    ("Access-Control-Allow-Origin"@, cors.origin->0),
                )
            }
        }),
{
    let h = handled(
        method,
        url,
        authorization,
        cors,
        state,
        health,
        active,
        now,
        unix_now,
    );
    if h is Answer {
        let reply = h->Answer_0;
        let c = cors_headers(cors);
        let n = reply.headers.len();
        assert(c.last() == ("Vary"@, "Origin"@));
        assert(exists|base: Seq<(Seq<char>, Seq<char>)>| reply.headers == base + c);
        let base = choose|base: Seq<(Seq<char>, Seq<char>)>| reply.headers == base + c;
        assert(reply.headers[n - 1] == c[c.len() - 1]);
        if cors.origin is Some {
            assert(reply.headers[n - 2] == c[c.len() - 2]);
        }
    }
}

// ---------------------------------------------------------------------------
// Bodies
// ---------------------------------------------------------------------------

/// The largest body that is read: 16 MiB.
pub fn max_body() -> (r: u64)
    ensures
        r == 16 * 1024 * 1024,
{
    16 * 1024 * 1024
}

/// The answer to a body that cannot be handled: it could not be read, or it is
/// too long.
pub open spec fn body_error(readable: bool, len: u64) -> Option<ReplyView> {
    if !readable {
        Some(
            error_reply(
                400,
                "could not read body"@,
                "invalid_request_error"@,
                "read_error"@,
            ),
        )
    } else if len > 16 * 1024 * 1024 {
        Some(
            error_reply(
                413,
                "request body too large"@,
                "invalid_request_error"@,
                "payload_too_large"@,
            ),
        )
    } else {
        None
    }
}

/// Checks a body of `len` bytes, read up to one byte past the limit.
pub fn check_body(readable: bool, len: u64, cors: &Cors) -> (r: Option<Reply>)
    ensures
        match r {
            Some(reply) => body_error(readable, len) is Some && reply@ == with_cors(
                body_error(readable, len)->0,
                cors@,
            ),
            None => body_error(readable, len) is None,
        },
{
    if !readable {
        return Some(
            apply_cors(
                respond_err(400, "could not read body", "invalid_request_error", "read_error"),
                cors,
            ),
        );
    }
    if len > max_body() {
        return Some(
            apply_cors(
                respond_err(
                    413,
                    "request body too large",
                    "invalid_request_error",
                    "payload_too_large",
                ),
                cors,
            ),
        );
    }
    None
}

} // verus!
