//! Laws on what the functions of the library hand back: each is what the laws on
//! its subject speak of, for the very values that it was given.

use vstd::prelude::*;

use crate::auth::{self, generated_message, token_hex, Token};
use crate::backend::api::{self, build_body, content_of, error_snippet, judge_response, snippet};
use crate::backend::cli::{finish_plain, finish_pty};
use crate::backend::tmuxlet;
use crate::backend::{
    error_class, error_message, error_name, exit_code, last_line, program_path, resolve_program,
    ApiBackend, BackendError, CliBackend, DispatchResult, ErrorView, TmuxletBackend,
};
use crate::config::{
    config_error, default_env_source, default_log_level, document_findings, doubts,
    expand_tilde, expanded, findings, lint, lint_with, text_findings, unknown_keys,
    unknown_keys_of, validate, Config,
};
use crate::env::{
    capture_warning, captured_variables, glob_match, is_process_source, is_valid_key,
    parse_captured, parse_captured_text, parse_env, passes, text_map, valid_key, variables,
    watchdog_message, wildcard, Env,
};
use crate::http::chat::{
    build_503_body, chat_plan, class_names, class_of, failure_text, handle_chat, parse_class,
    read_chat, ChatPlan,
};
use crate::http::health::{cooldown_for, cooldown_secs, health_map, BackendHealth};
use crate::http::{
    cors_for, handle, handled, list_models, model_ids, Action, Cors, Inbound, Reply, State,
};
use crate::http_client::{parse_response, request_bytes, request_text, response, ResponseError};
use crate::json::{field, json_of_text, Json, JsonView};
use crate::log::{self, sanitized, Log};
use crate::names::NameMap;
use crate::openai::{
    answer_text, model_list, model_list_text, ChatCompletion, ChatRequest, ErrorEnvelope, ModelList,
};
use crate::pty::{clean_output, cleaned};
use crate::router::{self, legs_for};
use crate::startup::{
    bind_policy, command_of, listening_line, parse_args, remote_warning, version_line,
    worker_count, workers_for, Command,
};
use crate::text::{
    decimal, lines, opt_str_view, opt_view, str_views, trim, utf8_text, views,
};
use crate::toml_doc::{entries_of, toml_of_text, TomlItem};
use crate::typo::{distance, levenshtein, nearest, suggestion};

verus! {

// ---------------------------------------------------------------------------
// Backends
// ---------------------------------------------------------------------------

/// A response's content is handed back, and an error of the backend where there
/// is none or it cannot be read.
pub proof fn law_contents_are_handed_back(
    name: &str,
    v: Json,
    e: String,
    read: Result<String, BackendError>,
    unread: Result<String, BackendError>,
)
    requires
        call_ensures(judge_response, (name, Ok(v)), read),
        call_ensures(judge_response, (name, Err(e)), unread),
    ensures
        content_of(v@) matches Some(s) ==> (read matches Ok(t) && t@ == s),
        content_of(v@) is None ==> (read matches Err(x) && x@ == ErrorView::Parse(
            name@,
            "no choices[0].message.content"@,
        )),
        unread matches Err(x) && x@ == ErrorView::Parse(name@, e@),
{
}

/// A reply with a status from 200 to 299 is read as JSON, and its content is the
/// answer under the model's name; any other is an error with its status.
pub proof fn law_replies_are_answers(
    b: ApiBackend,
    status: u16,
    body: String,
    r: Result<DispatchResult, BackendError>,
)
    requires
        call_ensures(api::finish_call, (&b, Ok((status, body))), r),
    ensures
        200 <= status <= 299 ==> (json_of_text(body@) matches Ok(v) ==> (content_of(v) matches Some(
            s,
        ) ==> (r matches Ok(d) && d.content@ == s && d.model_label@ == b.model@))),
        200 <= status <= 299 ==> (json_of_text(body@) matches Ok(v) ==> (content_of(v) is None ==> r
            is Err)),
        200 <= status <= 299 ==> (json_of_text(body@) matches Err(e) ==> (r matches Err(x) && x@
            == ErrorView::Parse(b.name@, e))),
        status < 200 || status > 299 ==> (r matches Err(x) && x@ == ErrorView::Http(
            b.name@,
            status,
            snippet(body@),
        )),
{
}

/// What a program prints is cleaned, and is then its answer under its name.
pub proof fn law_output_is_the_answer(
    b: CliBackend,
    success: bool,
    code: i32,
    raw: &[u8],
    stderr: &[u8],
    in_terminal: Result<DispatchResult, BackendError>,
    late: Result<DispatchResult, BackendError>,
    plain: Result<DispatchResult, BackendError>,
)
    requires
        call_ensures(finish_pty, (&b, false, success, code, raw), in_terminal),
        call_ensures(finish_pty, (&b, true, success, code, raw), late),
        call_ensures(finish_plain, (&b, success, Some(code), raw, stderr), plain),
    ensures
        ({
            let text = utf8_text(cleaned(raw@));
            &&& late matches Err(x) && x@ == ErrorView::Timeout(b.name@)
            &&& success || trim(text).len() > 0 ==> (in_terminal matches Ok(d) && d.content@ == text
                && d.model_label@ == b.name@)
            &&& success || trim(text).len() > 0 ==> (plain matches Ok(d) && d.content@ == text
                && d.model_label@ == b.name@)
            &&& !success && trim(text).len() == 0 ==> (in_terminal matches Err(x) && x@
                == ErrorView::Exit(b.name@, code, Seq::empty()))
            &&& !success && trim(text).len() == 0 ==> (plain matches Err(x) && x@
                == ErrorView::Exit(b.name@, code, last_line(utf8_text(stderr@))))
        }),
{
}

/// What `tmuxlet` prints is read as JSON, without the white space around it.
pub proof fn law_tmuxlet_output_is_the_answer(
    b: TmuxletBackend,
    success: bool,
    code: Option<i32>,
    stdout: &[u8],
    stderr: &[u8],
    name: &str,
    text: &str,
    r: Result<DispatchResult, BackendError>,
    parsed: Result<String, BackendError>,
)
    requires
        call_ensures(tmuxlet::finish_call, (&b, success, code, stdout, stderr), r),
        call_ensures(tmuxlet::parse_output, (name, text), parsed),
    ensures
        ({
            let out = utf8_text(stdout@);
            let read = json_of_text(trim(out));
            &&& !success && trim(out).len() == 0 ==> (r matches Err(x) && x@ == ErrorView::Exit(
                b.name@,
                exit_code(code),
                last_line(utf8_text(stderr@)),
            ))
            &&& (success || trim(out).len() > 0) && read is Err ==> (r matches Ok(d) && d.content@
                == out && d.model_label@ == b.name@)
            &&& success || trim(out).len() > 0 ==> (read matches Ok(v) ==> (r is Ok <==> field(
                v,
                "status"@,
            ) == Some(JsonView::Str("completed"@))))
        }),
        json_of_text(trim(text@)) matches Ok(v) ==> (parsed is Ok <==> field(v, "status"@) == Some(
            JsonView::Str("completed"@),
        )),
        json_of_text(trim(text@)) is Err ==> (parsed matches Ok(t) && t@ == text@),
{
    let out = utf8_text(stdout@);
    let read = json_of_text(trim(out));
    if let Ok(v) = read {
        crate::laws::backend::law_only_completed_runs_answer(
            b.name@,
            out,
            v,
            out,
            out,
            out,
        );
    }
    if let Ok(v) = json_of_text(trim(text@)) {
        crate::laws::backend::law_only_completed_runs_answer(
            name@,
            text@,
            v,
            text@,
            text@,
            text@,
        );
    }
}

/// An error says its name, its kind and what happened.
pub proof fn law_errors_are_told(
    e: BackendError,
    text: String,
    kind: &'static str,
    name: &str,
    failures: u32,
    secs: u64,
    cools: u64,
)
    requires
        call_ensures(BackendError::to_string, (&e,), text),
        call_ensures(BackendError::class, (&e,), kind),
        call_ensures(BackendError::backend_name, (&e,), name),
        call_ensures(cooldown_for, (&e, failures, secs), cools),
    ensures
        text@ == error_message(e@),
        kind@ == error_class(e@),
        name@ == error_name(e@),
        cools == cooldown_secs(e@, failures, secs),
{
}

/// A program is run by its path.
pub proof fn law_programs_are_resolved(
    program: &str,
    env: &Env,
    executables: &Vec<String>,
    r: String,
)
    requires
        call_ensures(resolve_program, (program, env, executables), r),
    ensures
        r@ == program_path(program@, env@, views(executables@)),
        r@ == program@ || views(executables@).contains(r@),
{
    crate::backend::law_program_is_executable(program@, env@, views(executables@));
}

/// What an upstream is sent, and what is quoted of its errors.
pub proof fn law_bodies_and_snippets(
    caller: &Json,
    extra: &Json,
    model: &str,
    body: Json,
    text: &str,
    short: String,
)
    requires
        call_ensures(build_body, (caller, extra, model), body),
        call_ensures(error_snippet, (text,), short),
    ensures
        body@ == api::body_of(caller@, extra@, model@),
        short@ == snippet(text@),
        short@.len() <= 300,
{
    crate::laws::backend::law_snippets_quote_the_words(text@);
}

// ---------------------------------------------------------------------------
// Configurations
// ---------------------------------------------------------------------------

/// What is wrong with a configuration, and what is doubted of it.
pub proof fn law_configurations_are_judged(
    cfg: Config,
    resolves: bool,
    judged: Result<(), String>,
    text: &str,
    present: &Vec<String>,
    doubted: Vec<String>,
    unknown: Vec<(String, Option<String>)>,
)
    requires
        call_ensures(validate, (&cfg, resolves), judged),
        call_ensures(lint, (&cfg, text, present), doubted),
        call_ensures(unknown_keys, (text,), unknown),
    ensures
        judged is Ok <==> config_error(cfg, resolves) is None,
        judged matches Err(e) ==> config_error(cfg, resolves) == Some(e@),
        findings(unknown@) == text_findings(toml_of_text(text@)),
        views(doubted@) == doubts(cfg, findings(unknown@), views(present@)),
{
}

/// Keys are looked for in a document as it was read.
pub proof fn law_documents_are_judged(
    cfg: Config,
    doc: &Vec<(String, TomlItem)>,
    present: &Vec<String>,
    unknown: Vec<(String, Option<String>)>,
    doubted: Vec<String>,
)
    requires
        call_ensures(unknown_keys_of, (doc,), unknown),
        call_ensures(lint_with, (&cfg, &unknown, present), doubted),
    ensures
        findings(unknown@) == document_findings(entries_of(doc@)),
        views(doubted@) == doubts(cfg, document_findings(entries_of(doc@)), views(present@)),
{
}

/// Where the environment and the log come from unless configured.
pub proof fn law_default_names(source: String, level: String, name: &str, from_process: bool)
    requires
        call_ensures(default_env_source, (), source),
        call_ensures(default_log_level, (), level),
        call_ensures(is_process_source, (name,), from_process),
    ensures
        source@ == "shell"@,
        level@ == "info"@,
        from_process <==> name@ == "process"@,
{
}

/// Paths are expanded, words compared and suggested.
pub proof fn law_words_and_paths(
    s: &str,
    home: Option<&str>,
    path: String,
    t: &str,
    d: usize,
    candidates: &Vec<&str>,
    near: Option<String>,
)
    requires
        call_ensures(expand_tilde, (s, home), path),
        call_ensures(levenshtein, (s, t), d),
        call_ensures(nearest, (s, candidates), near),
    ensures
        path@ == expanded(s@, opt_str_view(home)),
        home is None ==> path@ == s@,
        d == 0 <==> s@ == t@,
        d == distance(s@, t@),
        opt_view(near) == suggestion(s@, str_views(candidates@)),
{
    crate::typo::law_distance_zero(s@, t@);
}

// ---------------------------------------------------------------------------
// The environment and the log
// ---------------------------------------------------------------------------

/// Variables are read from a captured text, and patterns and names are judged.
pub proof fn law_captures_are_read(
    text: &str,
    bytes: &[u8],
    of_text: NameMap<String>,
    of_bytes: NameMap<String>,
    of_lines: NameMap<String>,
    pattern: &str,
    hit: bool,
    valid: bool,
)
    requires
        call_ensures(parse_captured_text, (text,), of_text),
        call_ensures(parse_captured, (bytes,), of_bytes),
        call_ensures(parse_env, (text,), of_lines),
        call_ensures(glob_match, (pattern, text), hit),
        call_ensures(is_valid_key, (text,), valid),
    ensures
        text_map(of_text@) == captured_variables(text@),
        text_map(of_bytes@) == captured_variables(utf8_text(bytes@)),
        text_map(of_lines@) == variables(lines(text@)),
        hit <==> wildcard(pattern@, text@),
        valid <==> valid_key(text@),
{
}

/// A backend is handed exactly the variables that there are and that its
/// allowlist lets through, each once.
pub proof fn law_variables_are_handed_on(
    env: &Env,
    allow: Option<&[String]>,
    k: Seq<char>,
    v: Seq<char>,
    r: Vec<(&str, &str)>,
)
    requires
        call_ensures(Env::filtered_pairs, (env, allow), r),
    ensures
        crate::env::pair_texts(r@).contains((k, v)) <==> env@.dom().contains(k) && env@[k] == v
            && passes(crate::env::allow_views(allow), k),
{
    crate::env::law_backends_see_what_passes(
        env.pairs(),
        crate::env::allow_views(allow),
        k,
        v,
    );
}

/// Each kind of message has its level and its tag.
pub proof fn law_messages_have_levels(
    l: Log,
    ts: u64,
    msg: &str,
    e: Option<String>,
    w: Option<String>,
    i: Option<String>,
    d: Option<String>,
)
    requires
        call_ensures(log::error, (&l, ts, msg), e),
        call_ensures(log::warn, (&l, ts, msg), w),
        call_ensures(log::info, (&l, ts, msg), i),
        call_ensures(log::debug, (&l, ts, msg), d),
    ensures
        e matches Some(t) && t@ == decimal(ts as nat) + " "@ + "error"@ + " "@ + sanitized(msg@),
        w is Some <==> l.level >= 1,
        w matches Some(t) ==> t@ == decimal(ts as nat) + " "@ + "warn"@ + " "@ + sanitized(msg@),
        i is Some <==> l.level >= 2,
        i matches Some(t) ==> t@ == decimal(ts as nat) + " "@ + "info"@ + " "@ + sanitized(msg@),
        d is Some <==> l.level >= 3,
        d matches Some(t) ==> t@ == decimal(ts as nat) + " "@ + "debug"@ + " "@ + sanitized(msg@),
{
}

/// What is said on the way.
pub proof fn law_what_is_said(
    secs: u64,
    e: &str,
    file: &str,
    bytes: &[u8],
    watchdog: String,
    capture: String,
    generated: String,
    hex: String,
    remote: String,
)
    requires
        call_ensures(watchdog_message, (secs,), watchdog),
        call_ensures(capture_warning, (e,), capture),
        call_ensures(generated_message, (file,), generated),
        call_ensures(token_hex, (bytes,), hex),
        call_ensures(remote_warning, (file,), remote),
    ensures
        watchdog@ == "exceeded "@ + decimal(secs as nat) + "s watchdog"@,
        capture@ == "shell env capture failed ("@ + e@
            + "); using process env instead — set env_source = \"process\" to make this the intended path"@,
        generated@ == "auth enabled: generated token at "@ + file@
            + " (mode 0600) — clients send `Authorization: Bearer $(cat "@ + file@ + ")`"@,
        hex@ == auth::hex_of(bytes@),
        remote@ == "bound to a non-loopback address ("@ + file@
            + "); tiny_http has no TLS — use an SSH tunnel for remote access"@,
{
}

/// Where a token comes from is decided by what is given.
pub proof fn law_tokens_are_resolved(
    on: bool,
    name: Option<&str>,
    env: &Env,
    file: &str,
    existing: Option<&str>,
    r: Result<Option<Token>, String>,
)
    requires
        call_ensures(auth::resolve, (on, name, env, file, existing), r),
    ensures
        auth::resolved_view(r) == auth::token_source(
            on,
            opt_str_view(name),
            env@,
            file@,
            opt_str_view(existing),
        ),
        !on ==> (r matches Ok(None)),
        on ==> !(r matches Ok(None)),
{
}

// ---------------------------------------------------------------------------
// Requests and responses
// ---------------------------------------------------------------------------

/// A request is written, and a response read, as the laws on them say; output is
/// cleaned before it is read.
pub proof fn law_requests_and_responses(
    host: &str,
    port: u16,
    path: &str,
    bearer: Option<&str>,
    body: &str,
    sent: String,
    raw: &[u8],
    got: Result<(u16, String), ResponseError>,
    clean: String,
)
    requires
        call_ensures(request_bytes, (host, port, path, bearer, body), sent),
        call_ensures(parse_response, (raw,), got),
        call_ensures(clean_output, (raw,), clean),
    ensures
        sent@ == request_text(host@, port, path@, opt_str_view(bearer), body@),
        got is Ok <==> response(raw@) is Ok,
        got matches Ok(x) ==> response(raw@) == Ok::<(nat, Seq<char>), ResponseError>(
            (x.0 as nat, (x.1)@),
        ),
        got matches Err(x) ==> response(raw@) == Err::<(nat, Seq<char>), ResponseError>(x),
        clean@ == utf8_text(cleaned(raw@)),
{
}

/// A model stands for its backends, in order.
pub proof fn law_models_are_resolved(
    model: &str,
    cfg: &Config,
    r: Result<Vec<&str>, String>,
)
    requires
        call_ensures(router::resolve, (model, cfg), r),
    ensures
        r is Ok <==> legs_for(*cfg, model@) is Some,
        r matches Ok(v) ==> legs_for(*cfg, model@) == Some(str_views(v@)),
        r matches Err(e) ==> e@ == "default_chain '"@ + cfg.server.default_chain@
            + "' resolves to nothing"@,
{
}

/// A request is answered for the origin, the path and the token that it has.
pub proof fn law_requests_are_handled(
    req: Inbound,
    state: State,
    health: &NameMap<BackendHealth>,
    active: &NameMap<usize>,
    now: u64,
    unix_now: u64,
    r: Action,
)
    requires
        call_ensures(handle, (&req, &state, health, active, now, unix_now), r),
    ensures
        r@ == handled(
            req.method@,
            req.url@,
            opt_view(req.authorization),
            cors_for(views(state.cfg.server.cors_origins@), opt_view(req.origin)),
            state,
            health_map(health@),
            active@,
            now,
            unix_now,
        ),
{
}

/// A chat is planned for the model and the messages that it has, a class is read
/// out of a reply, and what a chat came to is told.
pub proof fn law_chats_are_handled(
    req: ChatRequest,
    state: State,
    cors: &Cors,
    reqid: &str,
    plan: ChatPlan,
    routes: NameMap<String>,
    fallback: &str,
    class: String,
    errors: &Vec<BackendError>,
    redact: bool,
    body: String,
)
    requires
        call_ensures(handle_chat, (&req, &state, cors, reqid), plan),
        call_ensures(parse_class, (reqid, &routes, fallback), class),
        call_ensures(build_503_body, (errors, redact), body),
    ensures
        plan@ == chat_plan(req.model@, req.messages@, state, cors@, reqid@),
        class@ == class_of(reqid@, class_names(routes), fallback@),
        body@ == failure_text(crate::http::chain::error_views(errors@), redact),
{
}

/// A body is read as JSON, and refused where it is none.
pub proof fn law_chats_are_read(raw: &str, cors: &Cors, r: Result<Json, Reply>)
    requires
        call_ensures(read_chat, (raw, cors), r),
    ensures
        json_of_text(raw@) matches Ok(v) ==> (r matches Ok(j) && j@ == v),
        json_of_text(raw@) matches Err(e) ==> (r matches Err(x) && x.status == 400),
{
    if let Err(x) = r {
        assert(x@.status == x.status);
    }
}

/// The models that are listed, and how a list and an error are written.
pub proof fn law_lists_and_errors_are_written(
    cfg: &Config,
    ids: Vec<String>,
    created: u64,
    list: ModelList,
    text: String,
    message: &str,
    kind: &str,
    code: &str,
    envelope: ErrorEnvelope,
    error: String,
)
    requires
        call_ensures(list_models, (cfg,), ids),
        call_ensures(model_list, (ids, created), list),
        call_ensures(ModelList::to_json, (&list,), text),
        call_ensures(ErrorEnvelope::new, (message, kind, Some(code)), envelope),
        call_ensures(ErrorEnvelope::to_json, (&envelope,), error),
    ensures
        views(ids@) == model_ids(*cfg),
        text@ == model_list_text(model_ids(*cfg), created),
        error@ == crate::openai::error_text(message@, kind@, Some(code@)),
{
}

/// A completion is written as the laws on completions say.
pub proof fn law_built_completions_are_written(
    id: String,
    model: String,
    content: String,
    created: u64,
    c: ChatCompletion,
    text: String,
)
    requires
        call_ensures(crate::openai::build_completion, (id, model, content, created), c),
        call_ensures(ChatCompletion::to_json, (&c,), text),
    ensures
        text@ == answer_text(id@, model@, content@, created),
{
}

// ---------------------------------------------------------------------------
// Starting up
// ---------------------------------------------------------------------------

/// Arguments are parsed, a bind refused, and workers counted, as the laws on
/// them say; and the server says where it listens.
pub proof fn law_startup_is_decided(
    argv: &Vec<String>,
    command: Command,
    listen: &str,
    loopback: bool,
    auth_on: bool,
    allow: bool,
    bound: Result<(), String>,
    configured: Option<usize>,
    cores: Option<usize>,
    n: usize,
    cfg: &Config,
    line: String,
    version: String,
)
    requires
        call_ensures(parse_args, (argv,), command),
        call_ensures(bind_policy, (listen, loopback, auth_on, allow), bound),
        call_ensures(worker_count, (configured, cores), n),
        call_ensures(listening_line, (cfg, auth_on), line),
        call_ensures(version_line, (), version),
    ensures
        command@ == command_of(views(argv@)),
        bound is Ok <==> loopback || auth_on || allow,
        n == workers_for(configured, cores),
        n >= 1,
        line@ == "tmuxlet-server "@ + crate::http::VERSION@ + " listening on http://"@
            + cfg.server.listen@ + " ("@ + decimal(cfg.backends.pairs().len()) + " backends, "@
            + decimal(cfg.chains.pairs().len()) + " chains, auth "@ + (if auth_on {
            "on"@
        } else {
            "off"@
        }) + ")"@,
        version@ == "tmuxlet-server "@ + crate::http::VERSION@,
{
}

} // verus!
