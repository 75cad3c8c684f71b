//! Laws on backends: where an upstream is called and with what, how programs
//! are given their prompts, and what their output comes to.

use vstd::prelude::*;

use crate::backend::api::{
    body_of, call_outcome, content_of, is_api_call, reply_body, reply_view, snippet, url_parts,
    ApiCall,
};
use crate::backend::cli::{
    call_plan, filled_args, has_place, plain_arguments, plain_outcome, pty_outcome,
};
use crate::backend::tmuxlet::{is_tmuxlet_call, output_says, tmuxlet_args, TmuxletCall};
use crate::backend::{
    candidate_paths, error_class, error_message, error_name, exit_code, is_blank, is_runtime,
    is_timeout, last_line, opt_views, outcome_view, path_dirs, program_path, text_view,
    ApiBackend, Backend, BackendError, CliBackend, DispatchResult, DispatchView, ErrorView,
    ServerDefaults, TmuxletBackend,
};
use crate::config;
use crate::http_client::{ReadError, ReadErrorView};
use crate::json::{field, text_of_json, with_field, with_fields, without_field, JsonView};
use crate::laws::text::{
    law_numbers_are_read_back, law_parts_of_a_text, law_replaced_everywhere,
    law_split_cuts_everywhere, law_split_once_is_at_the_first, law_trailing_characters_go,
};
use crate::log::sanitized;
use crate::openai::PromptMode;
use crate::text::{
    decimal, find_from, find_text_from, gather, has_infix, has_prefix, joined,
    lemma_decimal_digits, lemma_find_from_is, lemma_find_text_from, lemma_find_text_from_is,
    lines, occurs_at, opt_view, signed_decimal, split, trim, views, words,
};

verus! {

// ---------------------------------------------------------------------------
// Addresses
// ---------------------------------------------------------------------------

proof fn lemma_scheme_ends(scheme: Seq<char>, rest: Seq<char>)
    requires
        !scheme.contains(':'),
    ensures
        find_text_from(scheme + "://"@ + rest, "://"@, 0) == scheme.len(),
        (scheme + "://"@ + rest).take(scheme.len() as int) == scheme,
        (scheme + "://"@ + rest).skip(scheme.len() as int + 3) == rest,
{
    reveal_strlit("://");
    let p = "://"@;
    let s = scheme + p + rest;
    let n = scheme.len() as int;
    assert(p.len() == 3 && p[0] == ':');
    assert(s.subrange(n, n + 3) =~= p);
    assert forall|k: int| 0 <= k < n implies !occurs_at(s, p, k) by {
        if occurs_at(s, p, k) {
            assert(s.subrange(k, k + 3)[0] == ':');
            assert(s[k] == scheme[k]);
            assert(scheme.contains(scheme[k]));
        }
    }
    lemma_find_text_from_is(s, p, 0, n);
    assert(s.take(n) =~= scheme);
    assert(s.skip(n + 3) =~= rest);
}

proof fn lemma_authority_ends(authority: Seq<char>, path: Seq<char>)
    requires
        !authority.contains('/'),
        path.len() > 0 ==> path[0] == '/',
    ensures
        find_from(authority + path, '/', 0) == authority.len(),
        (authority + path).take(authority.len() as int) == authority,
        (authority + path).skip(authority.len() as int) == path,
{
    let s = authority + path;
    let n = authority.len() as int;
    assert forall|k: int| 0 <= k < n implies s[k] != '/' by {
        assert(s[k] == authority[k]);
        assert(authority.contains(authority[k]));
    }
    if path.len() > 0 {
        assert(s[n] == path[0]);
    }
    lemma_find_from_is(s, '/', 0, n);
    assert(s.take(n) =~= authority);
    assert(s.skip(n) =~= path);
}

proof fn lemma_decimal_has_no(n: nat, c: char)
    requires
        !('0' <= c <= '9'),
    ensures
        !decimal(n).contains(c),
{
    lemma_decimal_digits(n);
    if decimal(n).contains(c) {
        let k = choose|k: int| 0 <= k < decimal(n).len() && decimal(n)[k] == c;
        assert('0' <= decimal(n)[k] <= '9');
    }
}

proof fn lemma_has_no(a: Seq<char>, b: Seq<char>, c: char)
    requires
        !a.contains(c),
        !b.contains(c),
    ensures
        !(a + b).contains(c),
{
    if (a + b).contains(c) {
        let k = choose|k: int| 0 <= k < (a + b).len() && (a + b)[k] == c;
        if k < a.len() {
            assert(a[k] == c);
        } else {
            assert(b[k - a.len()] == c);
        }
    }
}

/// An upstream is called at the host and the port that its address writes,
/// whatever its scheme; a port that is not written is the scheme's.
pub proof fn law_written_ports_count(
    scheme: Seq<char>,
    host: Seq<char>,
    port: u16,
    path: Seq<char>,
)
    requires
        !scheme.contains(':'),
        !host.contains(':'),
        !host.contains('/'),
        host.len() > 0 ==> host[0] != '[',
        path.len() > 0 ==> path[0] == '/',
    ensures
        url_parts(scheme + "://"@ + (host + ":"@ + decimal(port as nat) + path)) == (
            scheme,
            host,
            port as nat,
            path,
        ),
        scheme == "https"@ ==> url_parts(scheme + "://"@ + (host + path)) == (
            scheme,
            host,
            443nat,
            path,
        ),
        scheme != "https"@ ==> url_parts(scheme + "://"@ + (host + path)) == (
            scheme,
            host,
            80nat,
            path,
        ),
{
    reveal_strlit(":");
    reveal_strlit("[");
    let d = decimal(port as nat);
    let authority = host + ":"@ + d;
    lemma_decimal_has_no(port as nat, '/');
    lemma_decimal_has_no(port as nat, ':');
    assert(!":"@.contains('/'));
    lemma_has_no(host, ":"@, '/');
    lemma_has_no(host + ":"@, d, '/');
    assert(host + ":"@ + d + path =~= authority + path);
    lemma_scheme_ends(scheme, authority + path);
    lemma_authority_ends(authority, path);
    assert(":"@ =~= seq![':']);
    law_split_once_is_at_the_first(host, ':', d);
    law_numbers_are_read_back(port as nat, 65535, Seq::empty(), 0);
    assert(authority[0] != '[') by {
        if host.len() > 0 {
            assert(authority[0] == host[0]);
        } else {
            assert(authority[0] == ":"@[0]);
        }
    }
    assert(!has_prefix(authority, "["@)) by {
        if has_prefix(authority, "["@) {
            assert(authority.take(1)[0] == "["@[0]);
        }
    }
    lemma_scheme_ends(scheme, host + path);
    lemma_authority_ends(host, path);
    assert(!has_prefix(host, "["@)) by {
        if has_prefix(host, "["@) {
            assert(host.take(1)[0] == "["@[0]);
        }
    }
}

/// An address in brackets is a host as a whole, with the port behind it.
pub proof fn law_brackets_hold_a_host(
    scheme: Seq<char>,
    host: Seq<char>,
    port: u16,
    path: Seq<char>,
)
    requires
        !scheme.contains(':'),
        !host.contains(']'),
        !host.contains('/'),
        path.len() > 0 ==> path[0] == '/',
    ensures
        url_parts(scheme + "://"@ + ("["@ + host + "]:"@ + decimal(port as nat) + path)) == (
            scheme,
            host,
            port as nat,
            path,
        ),
        scheme == "https"@ ==> url_parts(scheme + "://"@ + ("["@ + host + "]"@ + path)) == (
            scheme,
            host,
            443nat,
            path,
        ),
        scheme != "https"@ ==> url_parts(scheme + "://"@ + ("["@ + host + "]"@ + path)) == (
            scheme,
            host,
            80nat,
            path,
        ),
{
    reveal_strlit(":");
    reveal_strlit("[");
    reveal_strlit("]");
    reveal_strlit("]:");
    let d = decimal(port as nat);
    lemma_decimal_has_no(port as nat, '/');
    law_numbers_are_read_back(port as nat, 65535, Seq::empty(), 0);
    assert(!"["@.contains('/') && !"]:"@.contains('/') && !"]"@.contains('/'));
    let a = "["@ + host + "]:"@ + d;
    lemma_has_no("["@, host, '/');
    lemma_has_no("["@ + host, "]:"@, '/');
    lemma_has_no("["@ + host + "]:"@, d, '/');
    lemma_scheme_ends(scheme, a + path);
    lemma_authority_ends(a, path);
    assert(a.take(1) =~= "["@);
    assert(a.skip(1) =~= host + seq![']'] + (seq![':'] + d));
    law_split_once_is_at_the_first(host, ']', seq![':'] + d);
    assert((seq![':'] + d).take(1) =~= ":"@);
    assert((seq![':'] + d).skip(1) =~= d);
    let b = "["@ + host + "]"@;
    lemma_has_no("["@ + host, "]"@, '/');
    lemma_scheme_ends(scheme, b + path);
    lemma_authority_ends(b, path);
    assert(b.take(1) =~= "["@);
    assert(b.skip(1) =~= host + seq![']'] + Seq::<char>::empty());
    law_split_once_is_at_the_first(host, ']', Seq::empty());
}

/// A port that cannot be read counts as none.
pub proof fn law_unreadable_ports_are_none(
    scheme: Seq<char>,
    host: Seq<char>,
    port: Seq<char>,
    path: Seq<char>,
    k: int,
)
    requires
        !scheme.contains(':'),
        !host.contains(':'),
        !host.contains('/'),
        !port.contains('/'),
        host.len() > 0 ==> host[0] != '[',
        path.len() > 0 ==> path[0] == '/',
        port.len() == 0 || (0 <= k < port.len() && !('0' <= port[k] <= '9') && port[k] != '+') || (
        exists|n: nat| n > 65535 && port == #[trigger] decimal(n)),
    ensures
        url_parts(scheme + "://"@ + (host + ":"@ + port + path)) == url_parts(
            scheme + "://"@ + (host + path),
        ),
{
    reveal_strlit(":");
    reveal_strlit("[");
    let authority = host + ":"@ + port;
    assert(!":"@.contains('/'));
    lemma_has_no(host, ":"@, '/');
    lemma_has_no(host + ":"@, port, '/');
    assert(host + ":"@ + port + path =~= authority + path);
    lemma_scheme_ends(scheme, authority + path);
    lemma_authority_ends(authority, path);
    assert(":"@ =~= seq![':']);
    law_split_once_is_at_the_first(host, ':', port);
    if port.len() == 0 {
        assert(port =~= Seq::<char>::empty());
        law_numbers_are_read_back(0, 65535, port, 0);
    } else if 0 <= k < port.len() && !('0' <= port[k] <= '9') && port[k] != '+' {
        law_numbers_are_read_back(0, 65535, port, k);
    } else {
        let n = choose|n: nat| n > 65535 && port == #[trigger] decimal(n);
        law_numbers_are_read_back(n, 65535, port, 0);
    }
    assert(authority[0] != '[') by {
        if host.len() > 0 {
            assert(authority[0] == host[0]);
        } else {
            assert(authority[0] == ":"@[0]);
        }
    }
    assert(!has_prefix(authority, "["@)) by {
        if has_prefix(authority, "["@) {
            assert(authority.take(1)[0] == "["@[0]);
        }
    }
    lemma_scheme_ends(scheme, host + path);
    lemma_authority_ends(host, path);
    assert(!has_prefix(host, "["@)) by {
        if has_prefix(host, "["@) {
            assert(host.take(1)[0] == "["@[0]);
        }
    }
}

/// An address without a scheme is read like one with `http`.
pub proof fn law_no_scheme_means_http(url: Seq<char>)
    requires
        !has_infix(url, "://"@),
    ensures
        url_parts(url) == url_parts("http"@ + "://"@ + url),
        url_parts(url).0 == "http"@,
{
    reveal_strlit("http");
    assert(!"http"@.contains(':'));
    lemma_scheme_ends("http"@, url);
    lemma_find_text_from(url, "://"@, 0);
}

// ---------------------------------------------------------------------------
// Calling an upstream
// ---------------------------------------------------------------------------

/// A call goes to where the address points, to `/chat/completions` below its
/// path whatever slashes end it, encrypted exactly for `https`, with the token
/// of the configured variable, the merged body, and the configured limit.
pub proof fn law_call_follows_the_backend(
    c: ApiCall,
    b: ApiBackend,
    raw: JsonView,
    env: Map<Seq<char>, Seq<char>>,
    path: Seq<char>,
    slashes: nat,
)
    requires
        is_api_call(c, b, raw, env),
        url_parts(b.base_url@).3 == path + Seq::new(slashes, |i: int| '/'),
        path.len() > 0 ==> path.last() != '/',
    ensures
        c.path@ == path + "/chat/completions"@,
        c.tls <==> url_parts(b.base_url@).0 == "https"@,
        c.host@ == url_parts(b.base_url@).1,
        c.port as nat == url_parts(b.base_url@).2,
        b.api_key_env is None ==> c.bearer is None,
        b.api_key_env matches Some(k) ==> (c.bearer is Some <==> env.dom().contains(k@)),
        b.api_key_env matches Some(k) ==> (c.bearer matches Some(t) ==> t@ == env[k@]),
        c.body@ == text_of_json(body_of(raw, b.extra_body@, b.model@)),
        b.max_response_bytes <= usize::MAX ==> c.max_bytes == b.max_response_bytes,
        b.max_response_bytes > usize::MAX ==> c.max_bytes == usize::MAX,
{
    law_trailing_characters_go(path, '/', slashes);
}

/// What an upstream is sent is the request with the configured members over it,
/// the configured model, and without `stream`, member by member in the request's
/// order; a request that is no object is sent as it is.
pub proof fn law_bodies_are_put_together(
    fields: Seq<(Seq<char>, JsonView)>,
    extra: Seq<(Seq<char>, JsonView)>,
    other: JsonView,
    model: Seq<char>,
)
    ensures
        body_of(JsonView::Object(fields), JsonView::Object(extra), model) == JsonView::Object(
            without_field(
                with_field(with_fields(fields, extra), "model"@, JsonView::Str(model)),
                "stream"@,
            ),
        ),
        !(other is Object) ==> body_of(JsonView::Object(fields), other, model) == JsonView::Object(
            without_field(with_field(fields, "model"@, JsonView::Str(model)), "stream"@),
        ),
        !(other is Object) ==> body_of(other, JsonView::Object(extra), model) == other,
{
    assert(with_fields(fields, Seq::empty()) =~= fields);
}

/// The answer in a response is the string at `choices[0].message.content`, and
/// a response has one exactly where that is there.
pub proof fn law_content_is_where_it_belongs(
    v: JsonView,
    items: Seq<JsonView>,
    message: JsonView,
    s: Seq<char>,
)
    ensures
        field(v, "choices"@) == Some(JsonView::Array(items)) && items.len() > 0 && field(
            items[0],
            "message"@,
        ) == Some(message) && field(message, "content"@) == Some(JsonView::Str(s)) ==> content_of(v)
            == Some(s),
        content_of(v) == Some(s) ==> match field(v, "choices"@) {
            Some(JsonView::Array(all)) => all.len() > 0 && match field(all[0], "message"@) {
                Some(m) => field(m, "content"@) == Some(JsonView::Str(s)),
                None => false,
            },
            _ => false,
        },
{
}

/// What an upstream's reply comes to: with a status from 200 to 299 the content
/// of its body under the configured model's name, or an error of parsing; with
/// any other an error that gives the status and quotes the body; and without a
/// reply an error of parsing where it was too large, else one of starting.
pub proof fn law_replies_are_judged(
    b: ApiBackend,
    status: u16,
    body: Seq<char>,
    v: JsonView,
    s: Seq<char>,
    e: Seq<char>,
    n: usize,
)
    ensures
        200 <= status <= 299 && content_of(v) == Some(s) ==> call_outcome(
            b,
            Ok((status, body)),
            Ok(v),
        ) == Ok::<DispatchView, ErrorView>(DispatchView { content: s, model_label: b.model@ }),
        200 <= status <= 299 && content_of(v) is None ==> call_outcome(
            b,
            Ok((status, body)),
            Ok(v),
        ) == Err::<DispatchView, ErrorView>(
            ErrorView::Parse(b.name@, "no choices[0].message.content"@),
        ),
        200 <= status <= 299 ==> call_outcome(b, Ok((status, body)), Err(e)) == Err::<
            DispatchView,
            ErrorView,
        >(ErrorView::Parse(b.name@, e)),
        status < 200 || status > 299 ==> call_outcome(b, Ok((status, body)), Ok(v)) == Err::<
            DispatchView,
            ErrorView,
        >(ErrorView::Http(b.name@, status, snippet(body))),
        status < 200 || status > 299 ==> call_outcome(b, Ok((status, body)), Err(e)) == Err::<
            DispatchView,
            ErrorView,
        >(ErrorView::Http(b.name@, status, snippet(body))),
        call_outcome(b, Err(ReadErrorView::Failed(e)), Ok(v)) == Err::<DispatchView, ErrorView>(
            ErrorView::Spawn(b.name@, e),
        ),
        call_outcome(b, Err(ReadErrorView::TooLarge(n)), Ok(v)) == Err::<DispatchView, ErrorView>(
            ErrorView::Parse(
                b.name@,
                "response exceeds max_response_bytes cap ("@ + decimal(n as nat) + " bytes)"@,
            ),
        ),
{
}

/// What is quoted of a body is its words with a blank between each two, up to
/// 300 characters.
pub proof fn law_snippets_quote_the_words(body: Seq<char>)
    ensures
        ({
            let line = joined(words(sanitized(body)), " "@);
            &&& line.len() <= 300 ==> snippet(body) == line
            &&& line.len() > 300 ==> snippet(body).len() == 300 && has_prefix(line, snippet(body))
        }),
{
    let line = joined(words(sanitized(body)), " "@);
    if line.len() > 300 {
        assert(line.take(snippet(body).len() as int) =~= snippet(body));
    }
}

/// A reply is handed on as it came.
pub proof fn law_replies_are_taken_as_they_are(status: u16, body: String, e: ReadError)
    ensures
        reply_view(Ok((status, body))) == Ok::<(u16, Seq<char>), ReadErrorView>((status, body@)),
        reply_body(Ok((status, body))) == body@,
        reply_view(Err(e)) == Err::<(u16, Seq<char>), ReadErrorView>(e@),
{
}

// ---------------------------------------------------------------------------
// Programs
// ---------------------------------------------------------------------------

/// An argument with one place for the prompt is passed with the prompt there,
/// whatever stands around it; one with more has it in each; one without is
/// passed as it is; and there are as many as before.
pub proof fn law_prompts_stand_in_their_place(
    args: Seq<Seq<char>>,
    prompt: Seq<char>,
    i: int,
    a: Seq<char>,
    b: Seq<char>,
)
    requires
        0 <= i < args.len(),
    ensures
        filled_args(args, prompt).len() == args.len(),
        !has_infix(args[i], "{prompt}"@) ==> filled_args(args, prompt)[i] == args[i],
        args[i] == a + "{prompt}"@ + b && !has_infix((a + "{prompt}"@).drop_last(), "{prompt}"@)
            && !has_infix(b, "{prompt}"@) ==> filled_args(args, prompt)[i] == a + prompt + b,
        args[i] == a + "{prompt}"@ + b && !has_infix((a + "{prompt}"@).drop_last(), "{prompt}"@)
            ==> filled_args(args, prompt)[i] == a + prompt + filled_args(seq![b], prompt)[0],
        has_place(args) <==> exists|k: int|
            0 <= k < args.len() && has_infix(#[trigger] args[k], "{prompt}"@),
{
    reveal_strlit("{prompt}");
    assert("{prompt}"@.len() == 8);
    if args[i] == a + "{prompt}"@ + b && !has_infix(
        (a + "{prompt}"@).drop_last(),
        "{prompt}"@,
    ) {
        law_replaced_everywhere(a, "{prompt}"@, b, prompt);
        law_parts_of_a_text(a, "{prompt}"@, b, args[i]);
    }
}

/// Every program gets its prompt exactly once. In a terminal it is typed in,
/// unless an argument has a place for it; without a terminal it is the last
/// argument, unless one has a place for it or it is to be written to standard
/// input.
pub proof fn law_prompts_reach_programs(b: CliBackend, prompt: Seq<char>)
    ensures
        ({
            let args = views(b.args@);
            let (passed, stdin) = call_plan(b, prompt);
            let place = exists|k: int|
                0 <= k < args.len() && has_infix(#[trigger] args[k], "{prompt}"@);
            &&& place ==> passed == filled_args(args, prompt)
            &&& place && b.pty ==> stdin == Some(Seq::<char>::empty())
            &&& place && !b.pty ==> stdin is None
            &&& !place && b.pty ==> passed == args && stdin == Some(prompt)
            &&& !place && !b.pty && b.stdin_prompt ==> passed == args && stdin == Some(prompt)
            &&& !place && !b.pty && !b.stdin_prompt ==> passed == args.push(prompt) && stdin is None
        }),
{
    let args = views(b.args@);
    if !has_place(args) {
        assert(filled_args(args, prompt) =~= args);
    }
}

/// The arguments of a program without a terminal.
pub proof fn law_plain_arguments(args: Seq<Seq<char>>, prompt: Seq<char>)
    ensures
        has_place(args) ==> plain_arguments(args, prompt) == filled_args(args, prompt),
        !has_place(args) ==> plain_arguments(args, prompt) == args.push(prompt),
{
    crate::backend::cli::law_prompt_is_passed_once(args, prompt);
}

/// Output that is more than white space is an answer, whatever the exit code;
/// a failed program without any is an error with its code; and one that took
/// too long has timed out, whatever it printed.
pub proof fn law_program_output_is_judged(
    b: CliBackend,
    success: bool,
    code: i32,
    output: Seq<char>,
    stderr: Seq<char>,
)
    ensures
        pty_outcome(b, true, success, code, output) == Err::<DispatchView, ErrorView>(
            ErrorView::Timeout(b.name@),
        ),
        success || trim(output).len() > 0 ==> pty_outcome(b, false, success, code, output) == Ok::<
            DispatchView,
            ErrorView,
        >(DispatchView { content: output, model_label: b.name@ }),
        !success && trim(output).len() == 0 ==> pty_outcome(b, false, success, code, output)
            == Err::<DispatchView, ErrorView>(ErrorView::Exit(b.name@, code, Seq::empty())),
        success || trim(output).len() > 0 ==> plain_outcome(b, success, Some(code), output, stderr)
            == Ok::<DispatchView, ErrorView>(
            DispatchView { content: output, model_label: b.name@ },
        ),
        !success && trim(output).len() == 0 ==> plain_outcome(
            b,
            success,
            Some(code),
            output,
            stderr,
        ) == Err::<DispatchView, ErrorView>(ErrorView::Exit(b.name@, code, last_line(stderr))),
        !success && trim(output).len() == 0 ==> plain_outcome(b, success, None, output, stderr)
            == Err::<DispatchView, ErrorView>(
            ErrorView::Exit(b.name@, (-1) as i32, last_line(stderr)),
        ),
{
}

/// The last line of what a program complained, or nothing.
pub proof fn law_the_last_line_is_told(text: Seq<char>)
    ensures
        lines(text).len() > 0 ==> last_line(text) == lines(text)[lines(text).len() - 1],
        lines(text).len() == 0 ==> last_line(text).len() == 0,
        is_blank(text) <==> trim(text).len() == 0,
        exit_code(None) == -1,
        forall|c: i32| #[trigger] exit_code(Some(c)) == c,
{
}

// ---------------------------------------------------------------------------
// tmuxlet
// ---------------------------------------------------------------------------

/// Of output that is JSON, the result is an answer exactly where its status is
/// `completed`, and is then its output; every other status, or none, is an
/// error that gives it. Other output is the answer itself.
pub proof fn law_only_completed_runs_answer(
    name: Seq<char>,
    stdout: Seq<char>,
    v: JsonView,
    e: Seq<char>,
    s: Seq<char>,
    o: Seq<char>,
)
    ensures
        output_says(name, stdout, Ok(v)) is Ok <==> field(v, "status"@) == Some(
            JsonView::Str("completed"@),
        ),
        field(v, "status"@) == Some(JsonView::Str("completed"@)) && field(v, "output"@) == Some(
            JsonView::Str(o),
        ) ==> output_says(name, stdout, Ok(v)) == Ok::<Seq<char>, ErrorView>(o),
        field(v, "status"@) == Some(JsonView::Str("completed"@)) && !(field(
            v,
            "output"@,
        ) matches Some(JsonView::Str(_))) ==> output_says(
            name,
            stdout,
            Ok(v),
        ) == Ok::<Seq<char>, ErrorView>(Seq::empty()),
        field(v, "status"@) == Some(JsonView::Str(s)) && s != "completed"@ ==> output_says(
            name,
            stdout,
            Ok(v),
        ) == Err::<Seq<char>, ErrorView>(ErrorView::Backend(name, "tmuxlet status="@ + s)),
        !(field(v, "status"@) matches Some(JsonView::Str(_)))
            ==> output_says(name, stdout, Ok(v)) == Err::<Seq<char>, ErrorView>(
            ErrorView::Backend(name, "tmuxlet status="@ + Seq::<char>::empty()),
        ),
        output_says(name, stdout, Err(e)) == Ok::<Seq<char>, ErrorView>(stdout),
{
    reveal_strlit("completed");
    assert("completed"@.len() == 9);
}

proof fn lemma_gather_pairs(items: Seq<Seq<char>>, k: int)
    requires
        0 <= k < items.len(),
    ensures
        ({
            let g = gather(items, |a: Seq<char>| seq!["--target-arg"@, a]);
            &&& g.len() == 2 * items.len()
            &&& g[2 * k] == "--target-arg"@
            &&& g[2 * k + 1] == items[k]
        }),
    decreases items.len(),
{
    let f = |a: Seq<char>| seq!["--target-arg"@, a];
    let front = items.drop_last();
    let g = gather(items, f);
    let h = gather(front, f);
    assert(g == h + f(items.last()));
    if k < front.len() {
        lemma_gather_pairs(front, k);
        assert(front[k] == items[k]);
    } else if front.len() > 0 {
        lemma_gather_pairs(front, 0);
    }
}

/// `tmuxlet` is told its target, the output format, the directory, the timeout
/// and each target argument in order, and last the prompt.
pub proof fn law_tmuxlet_is_told_everything(
    b: TmuxletBackend,
    prompt: Seq<char>,
    secs: u64,
    k: int,
)
    ensures
        ({
            let a = tmuxlet_args(b, prompt, secs);
            let extra = b.target_args@;
            &&& a.len() == 10 + 2 * extra.len()
            &&& a[0] == "-p"@
            &&& a[1] == "--target"@ && a[2] == b.target@
            &&& a[3] == "--output-format"@ && a[4] == "json"@
            &&& a[5] == "-C"@ && a[6] == b.cwd@
            &&& a[7] == "--timeout"@ && a[8] == decimal(secs as nat)
            &&& 0 <= k < extra.len() ==> a[9 + 2 * k] == "--target-arg"@ && a[10 + 2 * k]
                == extra[k]@
            &&& a.last() == prompt
        }),
{
    let items = views(b.target_args@);
    if 0 <= k < items.len() {
        lemma_gather_pairs(items, k);
    }
    if items.len() > 0 {
        lemma_gather_pairs(items, 0);
    }
}

/// Where `tmuxlet` reads standard input the prompt goes there, and `-` stands
/// in its place; and it is given five seconds more than it was told.
pub proof fn law_tmuxlet_calls(
    c: TmuxletCall,
    b: TmuxletBackend,
    prompt: Seq<char>,
    timeout: u128,
)
    requires
        is_tmuxlet_call(c, b, prompt, timeout),
        is_timeout(timeout),
    ensures
        b.use_stdin ==> opt_view(c.stdin) == Some(prompt) && views(c.args@) == tmuxlet_args(
            b,
            "-"@,
            (timeout / 1_000_000_000) as u64,
        ),
        !b.use_stdin ==> c.stdin is None && views(c.args@) == tmuxlet_args(
            b,
            prompt,
            (timeout / 1_000_000_000) as u64,
        ),
        c.limit == timeout + 5_000_000_000,
{
}

/// What a run of `tmuxlet` comes to.
pub proof fn law_tmuxlet_output_is_judged(
    b: TmuxletBackend,
    success: bool,
    code: Option<i32>,
    stdout: Seq<char>,
    stderr: Seq<char>,
    read: Result<JsonView, Seq<char>>,
)
    ensures
        ({
            let r = crate::backend::tmuxlet::call_outcome(b, success, code, stdout, stderr, read);
            &&& !success && trim(stdout).len() == 0 ==> r == Err::<DispatchView, ErrorView>(
                ErrorView::Exit(b.name@, exit_code(code), last_line(stderr)),
            )
            &&& success || trim(stdout).len() > 0 ==> match output_says(b.name@, stdout, read) {
                Ok(t) => r == Ok::<DispatchView, ErrorView>(
                    DispatchView { content: t, model_label: b.name@ },
                ),
                Err(e) => r == Err::<DispatchView, ErrorView>(e),
            }
        }),
{
}

// ---------------------------------------------------------------------------
// Errors
// ---------------------------------------------------------------------------

/// What is said of each error: the backend's name in brackets, then what went
/// wrong; and its kind.
pub proof fn law_errors_say_what_happened(
    n: Seq<char>,
    m: Seq<char>,
    code: i32,
    status: u16,
)
    ensures
        error_message(ErrorView::Timeout(n)) == "["@ + n + "] "@ + "timed out"@,
        error_message(ErrorView::Spawn(n, m)) == "["@ + n + "] "@ + ("spawn failed: "@ + m),
        error_message(ErrorView::Exit(n, code, m)) == "["@ + n + "] "@ + ("exited with "@
            + signed_decimal(code as int) + ": "@ + m),
        error_message(ErrorView::Backend(n, m)) == "["@ + n + "] "@ + ("backend error: "@ + m),
        m.len() > 0 ==> error_message(ErrorView::Http(n, status, m)) == "["@ + n + "] "@ + ("HTTP "@
            + decimal(status as nat) + ": "@ + m),
        error_message(ErrorView::Http(n, status, Seq::empty())) == "["@ + n + "] "@ + ("HTTP "@
            + decimal(status as nat)),
        error_message(ErrorView::Parse(n, m)) == "["@ + n + "] "@ + ("parse error: "@ + m),
        error_message(ErrorView::Busy(n)) == "["@ + n + "] "@ + "busy (max_concurrent reached)"@,
        error_class(ErrorView::Timeout(n)) == "timeout"@,
        error_class(ErrorView::Spawn(n, m)) == "spawn"@,
        error_class(ErrorView::Exit(n, code, m)) == "exit"@,
        error_class(ErrorView::Backend(n, m)) == "backend error"@,
        error_class(ErrorView::Http(n, 429, m)) == "rate limited"@,
        status != 429 ==> error_class(ErrorView::Http(n, status, m)) == "http error"@,
        error_class(ErrorView::Parse(n, m)) == "parse error"@,
        error_class(ErrorView::Busy(n)) == "busy"@,
        error_name(ErrorView::Timeout(n)) == n,
        error_name(ErrorView::Spawn(n, m)) == n,
        error_name(ErrorView::Exit(n, code, m)) == n,
        error_name(ErrorView::Backend(n, m)) == n,
        error_name(ErrorView::Http(n, status, m)) == n,
        error_name(ErrorView::Parse(n, m)) == n,
        error_name(ErrorView::Busy(n)) == n,
{
}

/// Errors and answers of the model are those of the library, field by field.
pub proof fn law_outcomes_are_taken_as_they_are(
    n: String,
    m: String,
    code: i32,
    status: u16,
    d: DispatchResult,
    e: BackendError,
)
    ensures
        BackendError::Timeout(n)@ == ErrorView::Timeout(n@),
        BackendError::Spawn(n, m)@ == ErrorView::Spawn(n@, m@),
        BackendError::Exit(n, code, m)@ == ErrorView::Exit(n@, code, m@),
        BackendError::Backend(n, m)@ == ErrorView::Backend(n@, m@),
        BackendError::Http(n, status, m)@ == ErrorView::Http(n@, status, m@),
        BackendError::Parse(n, m)@ == ErrorView::Parse(n@, m@),
        BackendError::Busy(n)@ == ErrorView::Busy(n@),
        d@.content == d.content@,
        d@.model_label == d.model_label@,
        outcome_view(Ok(d)) == Ok::<DispatchView, ErrorView>(d@),
        outcome_view(Err(e)) == Err::<DispatchView, ErrorView>(e@),
        text_view(Ok(m)) == Ok::<Seq<char>, ErrorView>(m@),
        text_view(Err(e)) == Err::<Seq<char>, ErrorView>(e@),
{
}

// ---------------------------------------------------------------------------
// Backends as they are run
// ---------------------------------------------------------------------------

/// What a backend is asked about itself is what it was made with.
pub proof fn law_backends_say_what_they_are(t: TmuxletBackend, a: ApiBackend, c: CliBackend)
    ensures
        Backend::Tmuxlet(t).spec_name() == t.name@,
        Backend::Api(a).spec_name() == a.name@,
        Backend::Cli(c).spec_name() == c.name@,
        Backend::Tmuxlet(t).spec_allow_empty() == t.allow_empty,
        Backend::Api(a).spec_allow_empty() == a.allow_empty,
        Backend::Cli(c).spec_allow_empty() == c.allow_empty,
        Backend::Tmuxlet(t).spec_timeout_override() is None,
        Backend::Api(a).spec_timeout_override() == a.timeout,
        Backend::Cli(c).spec_timeout_override() is None,
        Backend::Tmuxlet(t).spec_max_concurrent() == t.max_concurrent,
        Backend::Api(a).spec_max_concurrent() == a.max_concurrent,
        Backend::Cli(c).spec_max_concurrent() == c.max_concurrent,
        Backend::Tmuxlet(t).spec_prompt_mode() == t.prompt_mode,
        Backend::Api(a).spec_prompt_mode() == PromptMode::Transcript,
        Backend::Cli(c).spec_prompt_mode() == c.prompt_mode,
{
}

/// A configured `tmuxlet` backend is run with what it is configured with. Its
/// own allowlist counts before the server's, a directory that is not configured
/// is the home directory, and an unknown prompt mode is the transcript.
pub proof fn law_tmuxlet_backends_are_run_as_configured(
    b: Backend,
    name: Seq<char>,
    c: config::Backend,
    env: Map<Seq<char>, Seq<char>>,
    defaults: ServerDefaults,
    home: Option<Seq<char>>,
    executables: Seq<Seq<char>>,
)
    requires
        is_runtime(b, name, c, env, defaults, home, executables),
        c is Tmuxlet,
    ensures
        b is Tmuxlet,
        b->Tmuxlet_0.name@ == name,
        b->Tmuxlet_0.bin@ == program_path("tmuxlet"@, env, executables),
        b->Tmuxlet_0.target@ == c->Tmuxlet_target@,
        views(b->Tmuxlet_0.target_args@) == views(c->Tmuxlet_target_args@),
        c->Tmuxlet_cwd matches Some(d) ==> b->Tmuxlet_0.cwd@ == d@,
        c->Tmuxlet_cwd is None && home is Some ==> b->Tmuxlet_0.cwd@ == home->0,
        c->Tmuxlet_cwd is None && home is None ==> b->Tmuxlet_0.cwd@ == "."@,
        b->Tmuxlet_0.allow_empty == c->Tmuxlet_allow_empty,
        c->Tmuxlet_env_pass matches Some(p) ==> opt_views(b->Tmuxlet_0.env_pass) == Some(views(p@)),
        c->Tmuxlet_env_pass is None ==> (defaults.env_pass matches Some(p) ==> opt_views(
            b->Tmuxlet_0.env_pass,
        ) == Some(views(p@))),
        c->Tmuxlet_env_pass is None && defaults.env_pass is None ==> b->Tmuxlet_0.env_pass is None,
        b->Tmuxlet_0.use_stdin == defaults.tmuxlet_stdin,
        b->Tmuxlet_0.max_concurrent == c->Tmuxlet_max_concurrent,
        (c->Tmuxlet_prompt_mode matches Some(m) && m@ == "last_user"@) <==> b->Tmuxlet_0.prompt_mode
            == PromptMode::LastUser,
{
    lemma_modes_differ();
}

proof fn lemma_modes_differ()
    ensures
        "last_user"@ != "transcript"@,
{
    reveal_strlit("last_user");
    reveal_strlit("transcript");
    assert("last_user"@.len() == 9 && "transcript"@.len() == 10);
}

/// A configured API backend is run with what it is configured with, and with
/// the server's limit on responses.
pub proof fn law_api_backends_are_run_as_configured(
    b: Backend,
    name: Seq<char>,
    c: config::Backend,
    env: Map<Seq<char>, Seq<char>>,
    defaults: ServerDefaults,
    home: Option<Seq<char>>,
    executables: Seq<Seq<char>>,
)
    requires
        is_runtime(b, name, c, env, defaults, home, executables),
        c is Api,
    ensures
        b is Api,
        b->Api_0.name@ == name,
        b->Api_0.base_url@ == c->Api_base_url@,
        b->Api_0.model@ == c->Api_model@,
        opt_view(b->Api_0.api_key_env) == opt_view(c->Api_api_key_env),
        b->Api_0.extra_body@ == c->Api_extra_body@,
        b->Api_0.timeout == c->Api_timeout_secs,
        b->Api_0.allow_empty == c->Api_allow_empty,
        b->Api_0.max_response_bytes == defaults.max_response_bytes,
        b->Api_0.max_concurrent == c->Api_max_concurrent,
        opt_view(b->Api_0.ca_file) == opt_view(c->Api_ca_file),
{
}

/// A configured program is run with what it is configured with; its terminal
/// has 200 columns and 50 rows unless two numbers say otherwise.
pub proof fn law_cli_backends_are_run_as_configured(
    b: Backend,
    name: Seq<char>,
    c: config::Backend,
    env: Map<Seq<char>, Seq<char>>,
    defaults: ServerDefaults,
    home: Option<Seq<char>>,
    executables: Seq<Seq<char>>,
)
    requires
        is_runtime(b, name, c, env, defaults, home, executables),
        c is Cli,
    ensures
        b is Cli,
        b->Cli_0.name@ == name,
        b->Cli_0.bin@ == c->Cli_bin@,
        views(b->Cli_0.args@) == views(c->Cli_args@),
        b->Cli_0.pty == c->Cli_pty,
        c->Cli_cwd matches Some(d) ==> b->Cli_0.cwd@ == d@,
        c->Cli_cwd is None && home is Some ==> b->Cli_0.cwd@ == home->0,
        c->Cli_cwd is None && home is None ==> b->Cli_0.cwd@ == "."@,
        c->Cli_pty_size matches Some(v) ==> (v@.len() == 2 ==> b->Cli_0.pty_size == (v@[0], v@[1])),
        c->Cli_pty_size matches Some(v) ==> (v@.len() != 2 ==> b->Cli_0.pty_size == (200u16, 50u16)),
        c->Cli_pty_size is None ==> b->Cli_0.pty_size == (200u16, 50u16),
        b->Cli_0.allow_empty == c->Cli_allow_empty,
        c->Cli_env_pass matches Some(p) ==> opt_views(b->Cli_0.env_pass) == Some(views(p@)),
        c->Cli_env_pass is None ==> (defaults.env_pass matches Some(p) ==> opt_views(
            b->Cli_0.env_pass,
        ) == Some(views(p@))),
        c->Cli_env_pass is None && defaults.env_pass is None ==> b->Cli_0.env_pass is None,
        b->Cli_0.stdin_prompt == c->Cli_stdin_prompt,
        b->Cli_0.max_concurrent == c->Cli_max_concurrent,
        (c->Cli_prompt_mode matches Some(m) && m@ == "last_user"@) <==> b->Cli_0.prompt_mode
            == PromptMode::LastUser,
{
    lemma_modes_differ();
}

/// The texts of an optional list are there where the list is.
pub proof fn law_optional_lists(v: Vec<String>)
    ensures
        opt_views(Some(v)) == Some(views(v@)),
        opt_views(None) is None,
{
}

proof fn lemma_candidates_front(d: Seq<char>, dirs: Seq<Seq<char>>, program: Seq<char>)
    ensures
        candidate_paths(seq![d] + dirs, program) == candidate_paths(seq![d], program)
            + candidate_paths(dirs, program),
    decreases dirs.len(),
{
    let all = seq![d] + dirs;
    if dirs.len() == 0 {
        assert(all =~= seq![d]);
        assert(candidate_paths(all, program) =~= candidate_paths(seq![d], program)
            + candidate_paths(dirs, program));
    } else {
        lemma_candidates_front(d, dirs.drop_last(), program);
        assert(all.drop_last() =~= seq![d] + dirs.drop_last());
        assert(all.last() == dirs.last());
        assert(candidate_paths(all, program) =~= candidate_paths(seq![d], program)
            + candidate_paths(dirs, program));
    }
}

/// A program is looked for in the directories of `PATH` in their order, of which
/// those without a name do not count, and the first executable file is run.
pub proof fn law_programs_are_found_in_order(
    d: Seq<char>,
    rest: Seq<char>,
    program: Seq<char>,
    env: Map<Seq<char>, Seq<char>>,
    executables: Seq<Seq<char>>,
)
    requires
        !program.contains('/'),
        !d.contains(':'),
        d.len() > 0 ==> d.last() != '/',
        env.dom().contains("PATH"@),
        env["PATH"@] == d + seq![':'] + rest,
    ensures
        d.len() > 0 && executables.contains(d + "/"@ + program) ==> program_path(
            program,
            env,
            executables,
        ) == d + "/"@ + program,
        d.len() == 0 || !executables.contains(d + "/"@ + program) ==> program_path(
            program,
            env,
            executables,
        ) == program_path(program, env.insert("PATH"@, rest), executables),
{
    law_split_cuts_everywhere(d, ':', rest);
    let dirs = split(rest, ':');
    lemma_candidates_front(d, dirs, program);
    assert(path_dirs(env) == seq![d] + dirs);
    assert(path_dirs(env.insert("PATH"@, rest)) == dirs);
    let one = candidate_paths(seq![d], program);
    reveal_with_fuel(candidate_paths, 2);
    assert(seq![d].drop_last() =~= Seq::<Seq<char>>::empty());
    let others = candidate_paths(dirs, program);
    if d.len() > 0 {
        assert(one =~= seq![d + "/"@ + program]);
        assert((one + others)[0] == d + "/"@ + program);
        assert((one + others).drop_first() =~= others);
    } else {
        assert(one =~= Seq::<Seq<char>>::empty());
        assert(one + others =~= others);
    }
}

/// The last directory of `PATH` counts like the others, and a slash that ends a
/// directory is not doubled.
pub proof fn law_programs_are_found_last(
    d: Seq<char>,
    program: Seq<char>,
    env: Map<Seq<char>, Seq<char>>,
    executables: Seq<Seq<char>>,
)
    requires
        !program.contains('/'),
        !d.contains(':'),
        d.len() > 0,
        env.dom().contains("PATH"@),
        env["PATH"@] == d,
    ensures
        d.last() != '/' && executables.contains(d + "/"@ + program) ==> program_path(
            program,
            env,
            executables,
        ) == d + "/"@ + program,
        d.last() != '/' && !executables.contains(d + "/"@ + program) ==> program_path(
            program,
            env,
            executables,
        ) == program,
        d.last() == '/' && executables.contains(d + program) ==> program_path(
            program,
            env,
            executables,
        ) == d + program,
        d.last() == '/' && !executables.contains(d + program) ==> program_path(
            program,
            env,
            executables,
        ) == program,
{
    law_split_cuts_everywhere(d, ':', d);
    reveal_with_fuel(candidate_paths, 2);
    assert(seq![d].drop_last() =~= Seq::<Seq<char>>::empty());
    let one = candidate_paths(seq![d], program);
    assert(one.drop_first() =~= Seq::<Seq<char>>::empty());
    reveal_with_fuel(crate::backend::first_present, 2);
}

/// A program that is given by its path, or that is nowhere on `PATH`, is run by
/// what it was called.
pub proof fn law_programs_elsewhere(
    program: Seq<char>,
    env: Map<Seq<char>, Seq<char>>,
    executables: Seq<Seq<char>>,
)
    ensures
        program.contains('/') ==> program_path(program, env, executables) == program,
        !env.dom().contains("PATH"@) ==> program_path(program, env, executables) == program,
        program_path(program, env, Seq::empty()) == program,
{
    lemma_nothing_present(candidate_paths(path_dirs(env), program));
}

proof fn lemma_nothing_present(paths: Seq<Seq<char>>)
    ensures
        crate::backend::first_present(paths, Seq::empty()) is None,
    decreases paths.len(),
{
    if paths.len() > 0 {
        lemma_nothing_present(paths.drop_first());
    }
}

} // verus!
