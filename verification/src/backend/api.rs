//! Calling an OpenAI-compatible upstream: where it is, what is posted to it,
//! and what its response says.

use vstd::prelude::*;

use super::{
    outcome_view, text_view, ApiBackend, BackendError, DispatchResult, DispatchView, ErrorView,
};
use crate::env::Env;
use crate::http_client::{read_error_text, ReadError, ReadErrorView};
use crate::json::{
    drop_field, element, field, field_place, json_of_text, lemma_field_place, lemma_with_field,
    lemma_with_fields, lemma_without_field, object, parse_json, read_view, render_json, set_field,
    set_fields, string, string_of, text_of_json, with_field, with_fields, without_field, Json,
    JsonView,
};
use crate::log::{sanitize, sanitized};
use crate::text::{
    chars_of, find_char, find_from, find_text, find_text_from, has_prefix, is_control, is_space,
    join_texts, joined, opt_view, parse_number, parsed, same, split_at_char, split_once,
    strip_prefix, text_range, trim_trailing, without_trailing, words, words_from, words_of,
};

verus! {

// ---------------------------------------------------------------------------
// Addresses
// ---------------------------------------------------------------------------

/// The scheme of an address, `http` where it has none, and what follows it.
pub open spec fn scheme_and_rest(url: Seq<char>) -> (Seq<char>, Seq<char>) {
    let f = find_text_from(url, "://"@, 0);
    if f < 0 {
        ("http"@, url)
    } else {
        (url.take(f), url.skip(f + 3))
    }
}

/// The port that a scheme means.
pub open spec fn default_port(scheme: Seq<char>) -> nat {
    if scheme == "https"@ {
        443
    } else {
        80
    }
}

/// A port, or the default where it cannot be read.
pub open spec fn port_or(p: Seq<char>, default: nat) -> nat {
    match parsed(p, 10, 65535) {
        Some(n) => n,
        None => default,
    }
}

/// The host and the port of an authority; an IPv6 address stands in brackets.
pub open spec fn host_and_port(authority: Seq<char>, default: nat) -> (Seq<char>, nat) {
    if has_prefix(authority, "["@) {
        let inner = authority.skip(1);
        match split_once(inner, ']') {
            Some((h, tail)) => if has_prefix(tail, ":"@) {
                (h, port_or(tail.skip(1), default))
            } else {
                (h, default)
            },
            None => (inner, default),
        }
    } else {
        match split_once(authority, ':') {
            Some((h, p)) => (h, port_or(p, default)),
            None => (authority, default),
        }
    }
}

/// The scheme, host, port and path of an address.
pub open spec fn url_parts(url: Seq<char>) -> (Seq<char>, Seq<char>, nat, Seq<char>) {
    let (scheme, rest) = scheme_and_rest(url);
    let slash = find_from(rest, '/', 0);
    let (host, port) = host_and_port(rest.take(slash), default_port(scheme));
    (scheme, host, port, rest.skip(slash))
}

/// Reads a port.
fn read_port(p: &str, default: u16) -> (r: u16)
    ensures
        r == port_or(p@, default as nat),
{
    match parse_number(p, 10, 65535) {
        Some(n) => n as u16,
        None => default,
    }
}

/// Takes the host and the port out of an authority.
fn split_authority(authority: &str, default: u16) -> (r: (String, u16))
    ensures
        (r.0@, r.1 as nat) == host_and_port(authority@, default as nat),
{
    proof {
        reveal_strlit("[");
        reveal_strlit(":");
        assert("["@.len() == 1 && ":"@.len() == 1);
    }
    match strip_prefix(authority, "[") {
        Some(inner) => match split_at_char(inner.as_str(), ']') {
            Some((h, tail)) => match strip_prefix(tail.as_str(), ":") {
                Some(p) => (h, read_port(p.as_str(), default)),
                None => (h, default),
            },
            None => (inner, default),
        },
        None => match split_at_char(authority, ':') {
            Some((h, p)) => (h, read_port(p.as_str(), default)),
            None => (authority.to_owned(), default),
        },
    }
}

/// Splits an address into scheme, host, port and path.
pub fn split_url(base_url: &str) -> (r: (String, String, u16, String))
    ensures
        (r.0@, r.1@, r.2 as nat, r.3@) == url_parts(base_url@),
{
    let v = chars_of(base_url);
    let len: usize = v.len();
    let sep = chars_of("://");
    proof {
        reveal_strlit("://");
        assert("://"@.len() == 3);
    }
    let (scheme, rest) = match find_text(&v, &sep, 0) {
        Some(f) => {
            let a = text_range(&v, 0, f);
            let b = text_range(&v, f + 3, len);
            proof {
                assert(a@ =~= base_url@.take(f as int));
                assert(b@ =~= base_url@.skip(f + 3));
            }
            (a, b)
        },
        None => ("http".to_owned(), base_url.to_owned()),
    };
    let w = chars_of(rest.as_str());
    let slash: usize = find_char(&w, '/', 0);
    let authority = text_range(&w, 0, slash);
    let path = text_range(&w, slash, w.len());
    proof {
        assert(authority@ =~= rest@.take(slash as int));
        assert(path@ =~= rest@.skip(slash as int));
    }
    let default: u16 = if same(scheme.as_str(), "https") {
        443
    } else {
        80
    };
    let (host, port) = split_authority(authority.as_str(), default);
    (scheme, host, port, path)
}

// ---------------------------------------------------------------------------
// The request's body
// ---------------------------------------------------------------------------

/// The fields that are added to a request; none where they are no object.
pub open spec fn extra_fields(extra: JsonView) -> Seq<(Seq<char>, JsonView)> {
    match extra {
        JsonView::Object(f) => f,
        _ => Seq::empty(),
    }
}

/// The body that is posted: what the caller sent, with the configured fields
/// in place of the caller's, the configured model in place of any other, and
/// no wish to stream.
pub open spec fn body_of(caller: JsonView, extra: JsonView, model: Seq<char>) -> JsonView {
    match caller {
        JsonView::Object(fields) => JsonView::Object(
            without_field(
                with_field(
                    with_fields(fields, extra_fields(extra)),
                    "model"@,
                    JsonView::Str(model),
                ),
                "stream"@,
            ),
        ),
        _ => caller,
    }
}

/// Makes the body that is posted.
pub fn build_body(caller: &Json, extra: &Json, model: &str) -> (r: Json)
    ensures
        r@ == body_of(caller@, extra@, model@),
{
    match caller.duplicate() {
        Json::Object(fields) => {
            let mut o: Vec<(String, Json)> = fields;
            proof {
                crate::json::lemma_object(o);
            }
            if let Json::Object(more) = extra {
                proof {
                    crate::json::lemma_object(*more);
                }
                set_fields(&mut o, more);
            }
            set_field(&mut o, "model", string(model));
            object(drop_field(o, "stream"))
        },
        other => other,
    }
}

/// No name occurs twice among an object's fields.
pub open spec fn fields_differ(fields: Seq<(Seq<char>, JsonView)>) -> bool {
    forall|i: int, j: int|
        0 <= i < j < fields.len() ==> #[trigger] fields[i].0 != #[trigger] fields[j].0
}

/// Neither the caller nor the configured fields can choose the model, no
/// stream is asked for, and of every other name the configured value counts
/// before the caller's.
pub proof fn law_body_merge_order(
    fields: Seq<(Seq<char>, JsonView)>,
    extra: JsonView,
    model: Seq<char>,
    k: Seq<char>,
)
    requires
        fields_differ(extra_fields(extra)),
    ensures
        ({
            let caller = JsonView::Object(fields);
            let body = body_of(caller, extra, model);
            field(body, k) == if k == "stream"@ {
                None
            } else if k == "model"@ {
                Some(JsonView::Str(model))
            } else if field(extra, k) is Some {
                field(extra, k)
            } else {
                field(caller, k)
            }
        }),
{
    let more = extra_fields(extra);
    let merged = with_fields(fields, more);
    let pinned = with_field(merged, "model"@, JsonView::Str(model));
    lemma_without_field(pinned, "stream"@, k);
    lemma_with_field(merged, "model"@, JsonView::Str(model), k);
    lemma_with_fields(fields, more, k);
    lemma_field_place(more, k);
    let p = field_place(more, k);
    if p >= 0 {
        assert forall|j: int| p < j < more.len() implies #[trigger] more[j].0 != k by {
            assert(more[p].0 != more[j].0);
        }
        assert(more[p].0 == k);
        assert(field(JsonView::Object(merged), k) == Some(more[p].1));
    }
}

// ---------------------------------------------------------------------------
// The response
// ---------------------------------------------------------------------------

/// The text at `choices[0].message.content`.
pub open spec fn content_of(v: JsonView) -> Option<Seq<char>> {
    match field(v, "choices"@) {
        Some(choices) => match element(choices, 0) {
            Some(choice) => match field(choice, "message"@) {
                Some(message) => match field(message, "content"@) {
                    Some(content) => string_of(content),
                    None => None,
                },
                None => None,
            },
            None => None,
        },
        None => None,
    }
}

/// The answer in a response, given what was read of it as JSON.
pub open spec fn answer_in(name: Seq<char>, read: Result<JsonView, Seq<char>>) -> Result<
    Seq<char>,
    ErrorView,
> {
    match read {
        Ok(v) => match content_of(v) {
            Some(s) => Ok(s),
            None => Err(ErrorView::Parse(name, "no choices[0].message.content"@)),
        },
        Err(e) => Err(ErrorView::Parse(name, e)),
    }
}

/// The text at `choices[0].message.content`.
fn find_content(v: &Json) -> (r: Option<String>)
    ensures
        opt_view(r) == content_of(v@),
{
    match v.get("choices") {
        Some(choices) => match choices.at(0) {
            Some(choice) => match choice.get("message") {
                Some(message) => match message.get("content") {
                    Some(content) => match content.as_str() {
                        Some(s) => Some(s.to_owned()),
                        None => None,
                    },
                    None => None,
                },
                None => None,
            },
            None => None,
        },
        None => None,
    }
}

/// Takes the answer out of what was read of a response as JSON.
pub fn judge_response(name: &str, read: Result<Json, String>) -> (r: Result<String, BackendError>)
    ensures
        text_view(r) == answer_in(name@, read_view(read)),
{
    match read {
        Ok(v) => match find_content(&v) {
            Some(s) => Ok(s),
            None => Err(
                BackendError::Parse(name.to_owned(), "no choices[0].message.content".to_owned()),
            ),
        },
        Err(e) => Err(BackendError::Parse(name.to_owned(), e)),
    }
}

/// Takes the answer out of a response.
pub fn extract_content(name: &str, resp: &str) -> (r: Result<String, BackendError>)
    ensures
        text_view(r) == answer_in(name@, json_of_text(resp@)),
{
    judge_response(name, parse_json(resp))
}

/// The first 300 characters of `s`.
pub open spec fn first_300(s: Seq<char>) -> Seq<char> {
    if s.len() <= 300 {
        s
    } else {
        s.take(300)
    }
}

/// What an upstream said, on one line and not too long.
pub open spec fn snippet(body: Seq<char>) -> Seq<char> {
    first_300(joined(words(sanitized(body)), " "@))
}

/// Condenses what an upstream said to one line without control characters.
pub fn error_snippet(body: &str) -> (r: String)
    ensures
        r@ == snippet(body@),
{
    let line = join_texts(&words_of(sanitize(body).as_str()), " ");
    let v = chars_of(line.as_str());
    if v.len() <= 300 {
        line
    } else {
        let r = text_range(&v, 0, 300);
        proof {
            assert(r@ =~= line@.take(300));
        }
        r
    }
}

/// No character of `s` is a control character.
pub open spec fn control_free(s: Seq<char>) -> bool {
    forall|i: int| 0 <= i < s.len() ==> !is_control(#[trigger] s[i])
}

proof fn lemma_words_control_free(s: Seq<char>, i: int)
    requires
        control_free(s),
        0 <= i <= s.len(),
    ensures
        forall|k: int| 0 <= k < words_from(s, i).len() ==> control_free(#[trigger] words_from(s, i)[k]),
    decreases s.len() - i,
{
    if i < s.len() {
        crate::text::lemma_find_space(s, i);
        if is_space(s[i]) {
            lemma_words_control_free(s, i + 1);
            assert(words_from(s, i) == words_from(s, i + 1));
        } else {
            let e = crate::text::find_space(s, i);
            let w = s.subrange(i, e);
            lemma_words_control_free(s, e);
            assert(control_free(w)) by {
                assert forall|j: int| 0 <= j < w.len() implies !is_control(#[trigger] w[j]) by {
                    assert(w[j] == s[i + j]);
                }
            }
            let all = words_from(s, i);
            assert(all =~= seq![w] + words_from(s, e));
            assert forall|k: int| 0 <= k < all.len() implies control_free(#[trigger] all[k]) by {
                if k > 0 {
                    assert(all[k] == words_from(s, e)[k - 1]);
                }
            }
        }
    }
}

proof fn lemma_joined_control_free(parts: Seq<Seq<char>>)
    requires
        forall|k: int| 0 <= k < parts.len() ==> control_free(#[trigger] parts[k]),
    ensures
        control_free(joined(parts, " "@)),
    decreases parts.len(),
{
    reveal_strlit(" ");
    if parts.len() > 1 {
        let front = parts.drop_last();
        assert forall|k: int| 0 <= k < front.len() implies control_free(#[trigger] front[k]) by {
            assert(front[k] == parts[k]);
        }
        lemma_joined_control_free(front);
        let a = joined(front, " "@);
        let b = parts[parts.len() - 1];
        assert(control_free(b));
        let all = a + " "@ + b;
        assert forall|i: int| 0 <= i < all.len() implies !is_control(#[trigger] all[i]) by {
            if i < a.len() {
                assert(all[i] == a[i]);
            } else if i == a.len() {
                assert(all[i] == ' ');
            } else {
                assert(all[i] == b[i - a.len() - 1]);
            }
        }
    } else if parts.len() == 1 {
        assert(control_free(parts[0]));
    }
}

/// A snippet is at most 300 characters long and has no control characters.
pub proof fn law_snippet_is_short_and_clean(body: Seq<char>)
    ensures
        snippet(body).len() <= 300,
        control_free(snippet(body)),
{
    let s = sanitized(body);
    assert(control_free(s)) by {
        crate::log::law_sanitized_has_no_control(body);
        assert forall|i: int| 0 <= i < s.len() implies !is_control(#[trigger] s[i]) by {}
    }
    lemma_words_control_free(s, 0);
    lemma_joined_control_free(words(s));
    let j = joined(words(s), " "@);
    assert forall|i: int| 0 <= i < snippet(body).len() implies !is_control(
        #[trigger] snippet(body)[i],
    ) by {
        assert(snippet(body)[i] == j[i]);
    }
}

/// What is posted to an upstream, and where.
pub struct ApiCall {
    /// Whether the connection is encrypted.
    pub tls: bool,
    pub host: String,
    pub port: u16,
    pub path: String,
    pub bearer: Option<String>,
    pub body: String,
    pub max_bytes: usize,
}

/// The bearer token: the value of the configured variable, where it is set.
pub open spec fn bearer_of(b: ApiBackend, env: Map<Seq<char>, Seq<char>>) -> Option<Seq<char>> {
    match b.api_key_env {
        Some(k) => if env.dom().contains(k@) {
            Some(env[k@])
        } else {
            None
        },
        None => None,
    }
}

/// A limit as a length, as large as a length can be where it is larger.
pub open spec fn length_limit(n: u64) -> usize {
    if n > usize::MAX {
        usize::MAX
    } else {
        n as usize
    }
}

/// The call of an upstream for a request.
pub open spec fn is_api_call(
    c: ApiCall,
    b: ApiBackend,
    raw: JsonView,
    env: Map<Seq<char>, Seq<char>>,
) -> bool {
    let (scheme, host, port, path) = url_parts(b.base_url@);
    &&& c.tls == (scheme == "https"@)
    &&& c.host@ == host
    &&& c.port == port
    &&& c.path@ == without_trailing(path, '/') + "/chat/completions"@
    &&& opt_view(c.bearer) == bearer_of(b, env)
    &&& c.body@ == text_of_json(body_of(raw, b.extra_body@, b.model@))
    &&& c.max_bytes == length_limit(b.max_response_bytes)
}

/// Plans the call of an upstream.
pub fn plan_call(b: &ApiBackend, raw: &Json, env: &Env) -> (r: ApiCall)
    ensures
        is_api_call(r, *b, raw@, env@),
{
    let (scheme, host, port, base_path) = split_url(b.base_url.as_str());
    let path = trim_trailing(base_path.as_str(), '/').concat("/chat/completions");
    let body = render_json(&build_body(raw, &b.extra_body, b.model.as_str()));
    let bearer = match &b.api_key_env {
        Some(k) => match env.get(k.as_str()) {
            Some(v) => Some(v.to_owned()),
            None => None,
        },
        None => None,
    };
    let limit: u64 = b.max_response_bytes;
    let max_bytes: usize = if limit > usize::MAX as u64 {
        usize::MAX
    } else {
        limit as usize
    };
    ApiCall { tls: same(scheme.as_str(), "https"), host, port, path, bearer, body, max_bytes }
}

/// What comes of a call: a response over the limit cannot be read, any other
/// failure of the connection counts as one to start, a status outside 2xx is an
/// error that quotes the upstream, and else the response holds the answer.
pub open spec fn call_outcome(
    b: ApiBackend,
    reply: Result<(u16, Seq<char>), ReadErrorView>,
    read: Result<JsonView, Seq<char>>,
) -> Result<DispatchView, ErrorView> {
    match reply {
        Err(e) => match e {
            ReadErrorView::TooLarge(_) => Err(ErrorView::Parse(b.name@, read_error_text(e))),
            ReadErrorView::Failed(_) => Err(ErrorView::Spawn(b.name@, read_error_text(e))),
        },
        Ok((status, body)) => if status < 200 || status >= 300 {
            Err(ErrorView::Http(b.name@, status, snippet(body)))
        } else {
            match answer_in(b.name@, read) {
                Ok(content) => Ok(DispatchView { content, model_label: b.model@ }),
                Err(e) => Err(e),
            }
        },
    }
}

/// A reply as a value of the model.
pub open spec fn reply_view(r: Result<(u16, String), ReadError>) -> Result<
    (u16, Seq<char>),
    ReadErrorView,
> {
    match r {
        Ok((status, body)) => Ok((status, body@)),
        Err(e) => Err(e@),
    }
}

/// The body of a reply, empty where there is none.
pub open spec fn reply_body(r: Result<(u16, String), ReadError>) -> Seq<char> {
    match r {
        Ok((_, body)) => body@,
        Err(_) => Seq::empty(),
    }
}

/// Makes of an upstream's reply an answer or an error.
pub fn finish_call(b: &ApiBackend, reply: Result<(u16, String), ReadError>) -> (r: Result<
    DispatchResult,
    BackendError,
>)
    ensures
        outcome_view(r) == call_outcome(
            *b,
            reply_view(reply),
            json_of_text(reply_body(reply)),
        ),
{
    match reply {
        Err(e) => {
            let m = e.message();
            match e {
                ReadError::TooLarge(_) => Err(BackendError::Parse(b.name.clone(), m)),
                ReadError::Failed(_) => Err(BackendError::Spawn(b.name.clone(), m)),
            }
        },
        Ok((status, body)) => {
            if status < 200 || status >= 300 {
                return Err(
                    BackendError::Http(b.name.clone(), status, error_snippet(body.as_str())),
                );
            }
            match extract_content(b.name.as_str(), body.as_str()) {
                Ok(content) => Ok(DispatchResult { content, model_label: b.model.clone() }),
                Err(e) => Err(e),
            }
        },
    }
}

} // verus!
