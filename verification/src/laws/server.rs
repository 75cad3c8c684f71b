//! Laws on the server: which request leads where, who may ask, and what is
//! answered.

use vstd::prelude::*;

use crate::auth::bearer_token;
use crate::config::Config;
use crate::http::health::{backends_text, HealthView};
use crate::http::{
    body_error, cors_for, error_reply, handled, health_text, is_authorized, json_reply, max_body,
    method_reply, model_ids, path_of, preflight_reply, route_of, with_cors, Action, ActionView,
    Cors, CorsView, Reply, ReplyView, Route, RouteView, State, VERSION,
};
use crate::laws::text::law_split_once_is_at_the_first;
use crate::openai::{error_text, model_list_text};
use crate::text::{decimal, has_prefix, in_order, opt_view};

verus! {

// ---------------------------------------------------------------------------
// Routes
// ---------------------------------------------------------------------------

proof fn lemma_paths_differ()
    ensures
        "/health"@.len() == 7,
        "/v1/models"@.len() == 10,
        "/v1/backends"@.len() == 12,
        "/v1/chat/completions"@.len() == 20,
        "/"@.len() == 1,
        "/ui/"@.len() == 4,
        "/api/"@.len() == 5,
        "/ui/"@[1] == 'u',
        "/api/"@[1] == 'a',
        "/health"@[1] == 'h',
        "/v1/models"@[1] == 'v',
        "/v1/backends"@[1] == 'v',
        "/v1/chat/completions"@[1] == 'v',
        "GET"@.len() == 3,
        "HEAD"@.len() == 4,
        "POST"@.len() == 4,
        "HEAD"@[0] == 'H',
        "POST"@[0] == 'P',
        "OPTIONS"@.len() == 7,
{
    reveal_strlit("/health");
    reveal_strlit("/v1/models");
    reveal_strlit("/v1/backends");
    reveal_strlit("/v1/chat/completions");
    reveal_strlit("/");
    reveal_strlit("/ui/");
    reveal_strlit("/api/");
    reveal_strlit("GET");
    reveal_strlit("HEAD");
    reveal_strlit("POST");
    reveal_strlit("OPTIONS");
}

/// Where each path leads: the four that are served by their own methods alone,
/// those that are kept for later by any, and all others nowhere.
pub proof fn law_paths_lead_somewhere(method: Seq<char>, path: Seq<char>, rest: Seq<char>)
    ensures
        ({
            let get = method == "GET"@ || method == "HEAD"@;
            &&& get ==> route_of(method, "/health"@) == RouteView::Health
            &&& get ==> route_of(method, "/v1/models"@) == RouteView::Models
            &&& get ==> route_of(method, "/v1/backends"@) == RouteView::Backends
            &&& !get ==> route_of(method, "/health"@) == RouteView::MethodNotAllowed("GET, HEAD"@)
            &&& !get ==> route_of(method, "/v1/models"@) == RouteView::MethodNotAllowed(
                "GET, HEAD"@,
            )
            &&& !get ==> route_of(method, "/v1/backends"@) == RouteView::MethodNotAllowed(
                "GET, HEAD"@,
            )
            &&& method == "POST"@ ==> route_of(method, "/v1/chat/completions"@) == RouteView::Chat
            &&& method != "POST"@ ==> route_of(method, "/v1/chat/completions"@)
                == RouteView::MethodNotAllowed("POST"@)
            &&& route_of(method, "/"@) == RouteView::Reserved
            &&& route_of(method, "/ui/"@ + rest) == RouteView::Reserved
            &&& route_of(method, "/api/"@ + rest) == RouteView::Reserved
            &&& path != "/health"@ && path != "/v1/models"@ && path != "/v1/backends"@ && path
                != "/v1/chat/completions"@ && path != "/"@ && !has_prefix(path, "/ui/"@)
                && !has_prefix(path, "/api/"@) ==> route_of(method, path) == RouteView::NotFound
        }),
{
    lemma_paths_differ();
    let u = "/ui/"@ + rest;
    let a = "/api/"@ + rest;
    assert(u.take(4) =~= "/ui/"@);
    assert(a.take(5) =~= "/api/"@);
    assert(u[1] == 'u' && a[1] == 'a');
    assert(u.len() >= 4 && a.len() >= 5);
}

/// What follows a question mark is no part of the path.
pub proof fn law_queries_are_left_out(path: Seq<char>, query: Seq<char>)
    requires
        !path.contains('?'),
    ensures
        path_of(path) == path,
        path_of(path + seq!['?'] + query) == path,
{
    law_split_once_is_at_the_first(path, '?', query);
    assert((path + seq!['?'] + query).take(path.len() as int) =~= path);
    assert(path.take(path.len() as int) =~= path);
}

// ---------------------------------------------------------------------------
// Replies
// ---------------------------------------------------------------------------

/// What stands in a reply.
pub proof fn law_replies_hold_what_they_are_given(
    status: u16,
    body: Seq<char>,
    message: Seq<char>,
    kind: Seq<char>,
    code: Seq<char>,
    allow: Seq<char>,
)
    ensures
        json_reply(status, body).status == status,
        json_reply(status, body).headers == seq![("Content-Type"@, "application/json"@)],
        json_reply(status, body).body == body,
        error_reply(status, message, kind, code) == json_reply(
            status,
            error_text(message, kind, Some(code)),
        ),
        method_reply(allow).status == 405,
        method_reply(allow).headers == seq![
            ("Content-Type"@, "application/json"@),
            ("Allow"@, allow),
        ],
        method_reply(allow).body == error_text(
            "method not allowed on this path; use: "@ + allow,
            "invalid_request_error"@,
            Some("method_not_allowed"@),
        ),
{
}

/// An origin is let in exactly where it is listed, letter for letter; origins
/// count where any is.
pub proof fn law_listed_origins_are_let_in(origins: Seq<Seq<char>>, o: Seq<char>, i: int)
    ensures
        cors_for(origins, None).origin is None,
        0 <= i < origins.len() && origins[i] == o ==> cors_for(origins, Some(o)).origin == Some(o),
        (forall|k: int| 0 <= k < origins.len() ==> #[trigger] origins[k] != o) ==> cors_for(
            origins,
            Some(o),
        ).origin is None,
        cors_for(origins, Some(o)).enabled <==> origins.len() > 0,
        cors_for(origins, None).enabled <==> origins.len() > 0,
{
}

/// A reply is handed on with the origin that is let in, where one is, and with
/// the word that it depends on that, where any may be.
pub proof fn law_replies_name_their_origin(r: ReplyView, o: Seq<char>)
    ensures
        ({
            let off = CorsView { enabled: false, origin: None };
            let other = CorsView { enabled: true, origin: None };
            let listed = CorsView { enabled: true, origin: Some(o) };
            &&& with_cors(r, off) == r
            &&& with_cors(r, other).headers == r.headers.push(("Vary"@, "Origin"@))
            &&& with_cors(r, listed).headers == r.headers.push(
                ("Access-Control-Allow-Origin"@, o),
            ).push(("Vary"@, "Origin"@))
        }),
        forall|c: CorsView| (#[trigger] with_cors(r, c)).status == r.status,
        forall|c: CorsView| (#[trigger] with_cors(r, c)).body == r.body,
{
    let off = CorsView { enabled: false, origin: None };
    let other = CorsView { enabled: true, origin: None };
    let listed = CorsView { enabled: true, origin: Some(o) };
    assert(with_cors(r, off).headers =~= r.headers);
    assert(with_cors(r, other).headers =~= r.headers.push(("Vary"@, "Origin"@)));
    assert(with_cors(r, listed).headers =~= r.headers.push(
        ("Access-Control-Allow-Origin"@, o),
    ).push(("Vary"@, "Origin"@)));
}

/// A browser that asks first is told what it may do where its origin is let in,
/// and nothing otherwise.
pub proof fn law_preflights_are_answered(o: Seq<char>, enabled: bool)
    ensures
        ({
            let none = preflight_reply(CorsView { enabled: true, origin: None });
            let listed = preflight_reply(CorsView { enabled: true, origin: Some(o) });
            &&& none.status == 204 && none.body.len() == 0
            &&& none.headers == seq![("Vary"@, "Origin"@)]
            &&& listed.status == 204 && listed.body.len() == 0
            &&& listed.headers == seq![
                ("Access-Control-Allow-Methods"@, "GET, POST, OPTIONS"@),
                ("Access-Control-Allow-Headers"@, "authorization, content-type"@),
                ("Access-Control-Max-Age"@, "600"@),
                ("Access-Control-Allow-Origin"@, o),
                ("Vary"@, "Origin"@),
            ]
        }),
{
    let none = preflight_reply(CorsView { enabled: true, origin: None });
    let listed = preflight_reply(CorsView { enabled: true, origin: Some(o) });
    assert(none.headers =~= seq![("Vary"@, "Origin"@)]);
    assert(listed.headers =~= seq![
        ("Access-Control-Allow-Methods"@, "GET, POST, OPTIONS"@),
        ("Access-Control-Allow-Headers"@, "authorization, content-type"@),
        ("Access-Control-Max-Age"@, "600"@),
        ("Access-Control-Allow-Origin"@, o),
        ("Vary"@, "Origin"@),
    ]);
}

/// What is said of the server's health, and which models it lists: routers and
/// chains in order, then backends in order.
pub proof fn law_the_server_says_what_it_has(cfg: Config, backends: nat, chains: nat)
    ensures
        health_text(backends, chains) == "{\"status\":\"ok\",\"version\":\""@ + VERSION@
            + "\",\"backends\":"@ + decimal(backends) + ",\"chains\":"@ + decimal(chains) + "}"@,
        ({
            let routers = Seq::new(cfg.routers.pairs().len(), |i: int| cfg.routers.pairs()[i].0);
            let chain_names = Seq::new(cfg.chains.pairs().len(), |i: int| cfg.chains.pairs()[i].0);
            let own = Seq::new(cfg.backends.pairs().len(), |i: int| cfg.backends.pairs()[i].0);
            model_ids(cfg) == in_order(routers + chain_names) + in_order(own)
        }),
{
    let routers = Seq::new(cfg.routers.pairs().len(), |i: int| cfg.routers.pairs()[i].0);
    let chain_names = Seq::new(cfg.chains.pairs().len(), |i: int| cfg.chains.pairs()[i].0);
    let own = Seq::new(cfg.backends.pairs().len(), |i: int| cfg.backends.pairs()[i].0);
    assert(cfg.routers.pairs().map_values(|p: (Seq<char>, crate::config::Router)| p.0) =~= routers);
    assert(cfg.chains.pairs().map_values(|p: (Seq<char>, crate::config::Chain)| p.0)
        =~= chain_names);
    assert(cfg.backends.pairs().map_values(|p: (Seq<char>, crate::config::Backend)| p.0) =~= own);
}

/// A body counts where it can be read and has no more than sixteen mebibytes.
pub proof fn law_bodies_are_bounded(len: u64, most: u64)
    requires
        call_ensures(max_body, (), most),
    ensures
        most == 16777216,
        body_error(true, len) is None <==> len <= 16777216,
        body_error(true, len) matches Some(r) ==> r.status == 413 && r.body == error_text(
            "request body too large"@,
            "invalid_request_error"@,
            Some("payload_too_large"@),
        ),
        body_error(false, len) matches Some(r) && r.status == 400 && r.body == error_text(
            "could not read body"@,
            "invalid_request_error"@,
            Some("read_error"@),
        ),
{
}

// ---------------------------------------------------------------------------
// Requests
// ---------------------------------------------------------------------------

/// Who may ask: anyone where there is no token, and for what is not protected;
/// else who sends the token.
pub proof fn law_tokens_open_what_is_protected(
    t: Seq<char>,
    route: RouteView,
    authorization: Option<Seq<char>>,
)
    ensures
        is_authorized(None, route, authorization),
        route is Models || route is Backends || route is Chat ==> (is_authorized(
            Some(t),
            route,
            authorization,
        ) <==> bearer_token(authorization) == Some(t)),
        !(route is Models || route is Backends || route is Chat) ==> is_authorized(
            Some(t),
            route,
            authorization,
        ),
{
}

/// What every request is answered: who asks first is told what it may do, who
/// may not ask is told so, `HEAD` is answered without a body, and every other
/// request with what its path leads to.
pub proof fn law_requests_are_answered(
    method: Seq<char>,
    url: Seq<char>,
    authorization: Option<Seq<char>>,
    cors: CorsView,
    state: State,
    health: Map<Seq<char>, HealthView>,
    active: Map<Seq<char>, usize>,
    now: u64,
    unix_now: u64,
    allow: Seq<char>,
)
    ensures
        ({
            let r = handled(
                method,
                url,
                authorization,
                cors,
                state,
                health,
                active,
                now,
                unix_now,
            );
            let path = path_of(url);
            let route = route_of(method, path);
            let asks_first = method == "OPTIONS"@ && cors.enabled;
            let may = state.auth_token is None || !(route is Models || route is Backends || route
                is Chat) || bearer_token(authorization) == Some((state.auth_token->0)@);
            let bare = method == "HEAD"@ && (route is Health || route is Models || route
                is Backends);
            &&& asks_first ==> r == ActionView::Answer(preflight_reply(cors), None)
            &&& !asks_first && !may ==> r == ActionView::Answer(
                with_cors(
                    error_reply(
                        401,
                        "missing or invalid bearer token"@,
                        "invalid_request_error"@,
                        "unauthorized"@,
                    ),
                    cors,
                ),
                Some(
                    "401 on "@ + path
                        + ": token mismatch — the expected token is in ~/.tmuxlet/token (or the auth_token_env var)"@,
                ),
            )
            &&& !asks_first && may && bare ==> r == ActionView::Answer(
                with_cors(json_reply(200, Seq::empty()), cors),
                None,
            )
            &&& !asks_first && may && !bare ==> {
                &&& route is Health ==> r == ActionView::Answer(
                    with_cors(
                        json_reply(
                            200,
                            health_text(
                                state.cfg.backends.pairs().len(),
                                state.cfg.chains.pairs().len(),
                            ),
                        ),
                        cors,
                    ),
                    None,
                )
                &&& route is Models ==> r == ActionView::Answer(
                    with_cors(
                        json_reply(200, model_list_text(model_ids(state.cfg), unix_now)),
                        cors,
                    ),
                    None,
                )
                &&& route is Backends ==> r == ActionView::Answer(
                    with_cors(
                        json_reply(200, backends_text(state.cfg, health, active, now)),
                        cors,
                    ),
                    None,
                )
                &&& route is Chat ==> r == ActionView::ReadBody(cors)
                &&& route is Reserved ==> r == ActionView::Answer(
                    with_cors(
                        error_reply(
                            501,
                            "not implemented in V1"@,
                            "server_error"@,
                            "not_implemented"@,
                        ),
                        cors,
                    ),
                    None,
                )
                &&& route is NotFound ==> r == ActionView::Answer(
                    with_cors(
                        error_reply(
                            404,
                            "no such route"@,
                            "invalid_request_error"@,
                            "unknown_route"@,
                        ),
                        cors,
                    ),
                    None,
                )
                &&& route == RouteView::MethodNotAllowed(allow) ==> r == ActionView::Answer(
                    with_cors(method_reply(allow), cors),
                    None,
                )
            }
        }),
{
}

/// Routes, replies and actions of the model are those of the library.
pub proof fn law_server_records_are_taken_as_they_are(
    r: Reply,
    c: Cors,
    w: String,
    i: int,
    allow: &'static str,
)
    ensures
        Route::Health@ == RouteView::Health,
        Route::Models@ == RouteView::Models,
        Route::Backends@ == RouteView::Backends,
        Route::Chat@ == RouteView::Chat,
        Route::Reserved@ == RouteView::Reserved,
        Route::NotFound@ == RouteView::NotFound,
        Route::MethodNotAllowed(allow)@ == RouteView::MethodNotAllowed(allow@),
        r@.status == r.status,
        r@.body == r.body@,
        r@.headers.len() == r.headers@.len(),
        0 <= i < r.headers@.len() ==> r@.headers[i] == (r.headers@[i].0@, r.headers@[i].1@),
        c@.enabled == c.enabled,
        c@.origin == opt_view(c.origin),
        Action::Answer(r, None)@ == ActionView::Answer(r@, None),
        Action::Answer(r, Some(w))@ == ActionView::Answer(r@, Some(w@)),
        Action::ReadBody(c)@ == ActionView::ReadBody(c@),
{
}

} // verus!
