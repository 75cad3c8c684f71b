//! Laws on calls: what the functions of the library give back for what they are
//! given, and how two calls relate.

use vstd::prelude::*;

use crate::backend::api::{self, split_url, ApiCall};
use crate::backend::cli::{self, is_write_error, substitute_prompt, CliCall};
use crate::backend::tmuxlet::{self, judge_output};
use crate::backend::{
    poll_step, ApiBackend, Backend, BackendError, Call, ChildEnd, CliBackend, DispatchResult,
    PollStep, TmuxletBackend,
};
use crate::config::{self, expand_paths, Config};
use crate::env::{parse_env_nul, Env};
use crate::http_client::{read_body, BodyReader, ReadAction, ReadError, ReadEvent};
use crate::json::{field, Json, JsonView};
use crate::laws::backend::{
    law_call_follows_the_backend, law_only_completed_runs_answer, law_prompts_reach_programs,
    law_prompts_stand_in_their_place, law_written_ports_count,
};
use crate::laws::environment::{law_records_add_up, law_records_give_values};
use crate::laws::openai::{law_every_message_is_in_the_transcript, law_users_are_found};
use crate::laws::text::law_split_cuts_everywhere;
use crate::log::{next_reqid, set_level, Log};
use crate::names::NameMap;
use crate::openai::{
    build_completion, content_text, drops_parts, flatten_to_prompt, has_dropped_parts,
    last_user_prompt, last_user_text, leg_prompt, role_label, ChatCompletion, ChatMessage,
    PromptMode,
};
use crate::text::{decimal, has_infix, opt_str_view, opt_view, views};

verus! {

// ---------------------------------------------------------------------------
// Prompts
// ---------------------------------------------------------------------------

/// The prompt of messages and one more is the prompt of the messages, an empty
/// line, and the further message's label and text; the first stands alone, and
/// no messages make no prompt.
pub proof fn law_flattening_adds_every_message(
    before: &[ChatMessage],
    m: ChatMessage,
    all: &[ChatMessage],
    short: String,
    long: String,
)
    requires
        all@ == before@.push(m),
        call_ensures(flatten_to_prompt, (before,), short),
        call_ensures(flatten_to_prompt, (all,), long),
    ensures
        before@.len() == 0 ==> short@.len() == 0,
        before@.len() == 0 ==> long@ == role_label(m.role@) + ": "@ + content_text(m.content),
        before@.len() > 0 ==> long@ == short@ + "\n\n"@ + (role_label(m.role@) + ": "@
            + content_text(m.content)),
{
    law_every_message_is_in_the_transcript(before@, m);
    if before@.len() == 0 {
        assert(before@ =~= Seq::<ChatMessage>::empty());
        assert(all@ =~= seq![m]);
    }
}

/// A backend is given all messages, or the last of the user with the system's,
/// by its mode.
pub proof fn law_modes_choose_the_prompt(
    ms: &[ChatMessage],
    all: String,
    last: String,
    flat: String,
    plain: String,
)
    requires
        call_ensures(leg_prompt, (PromptMode::Transcript, ms), all),
        call_ensures(leg_prompt, (PromptMode::LastUser, ms), last),
        call_ensures(flatten_to_prompt, (ms,), flat),
        call_ensures(last_user_prompt, (ms,), plain),
    ensures
        all@ == flat@,
        last@ == plain@,
{
}

/// The last user message's text is taken, and nothing where there is none.
pub proof fn law_the_last_user_is_heard(
    before: &[ChatMessage],
    m: ChatMessage,
    all: &[ChatMessage],
    short: String,
    long: String,
)
    requires
        all@ == before@.push(m),
        call_ensures(last_user_text, (before,), short),
        call_ensures(last_user_text, (all,), long),
    ensures
        m.role@ == "user"@ ==> long@ == content_text(m.content),
        m.role@ != "user"@ ==> long@ == short@,
        (forall|k: int| 0 <= k < before@.len() ==> (#[trigger] before@[k]).role@ != "user"@)
            ==> short@.len() == 0,
{
    assert(all@.drop_last() =~= before@);
    law_users_are_found(before@, 0);
}

/// Parts are dropped exactly where some message has a part that is not text.
pub proof fn law_dropped_parts_are_noticed(ms: &[ChatMessage], r: bool, i: int)
    requires
        call_ensures(has_dropped_parts, (ms,), r),
    ensures
        0 <= i < ms@.len() && drops_parts(ms@[i].content) ==> r,
        (forall|k: int| 0 <= k < ms@.len() ==> !drops_parts((#[trigger] ms@[k]).content)) ==> !r,
{
}

/// A completion holds one answer of the assistant, whole.
pub proof fn law_completions_are_built(
    id: String,
    model: String,
    content: String,
    created: u64,
    r: ChatCompletion,
)
    requires
        call_ensures(build_completion, (id, model, content, created), r),
    ensures
        r.id@ == id@,
        r.model@ == model@,
        r.created == created,
        r.object@ == "chat.completion"@,
        r.choices@.len() == 1,
        r.choices@[0].index == 0,
        r.choices@[0].message.role@ == "assistant"@,
        r.choices@[0].message.content@ == content@,
        r.choices@[0].finish_reason@ == "stop"@,
        r.usage.prompt_tokens == 0,
        r.usage.completion_tokens == 0,
        r.usage.total_tokens == 0,
{
}

// ---------------------------------------------------------------------------
// Backends
// ---------------------------------------------------------------------------

/// An address that writes its port is split into exactly what it writes, and one
/// that does not has its scheme's port.
pub proof fn law_addresses_are_split(
    scheme: Seq<char>,
    host: Seq<char>,
    port: u16,
    path: Seq<char>,
    url: &str,
    r: (String, String, u16, String),
)
    requires
        call_ensures(split_url, (url,), r),
        !scheme.contains(':'),
        !host.contains(':'),
        !host.contains('/'),
        host.len() > 0 ==> host[0] != '[',
        path.len() > 0 ==> path[0] == '/',
    ensures
        url@ == scheme + "://"@ + (host + ":"@ + decimal(port as nat) + path) ==> r.0@ == scheme
            && r.1@ == host && r.2 == port && r.3@ == path,
        url@ == scheme + "://"@ + (host + path) ==> r.0@ == scheme && r.1@ == host && r.3@ == path
            && (scheme == "https"@ ==> r.2 == 443) && (scheme != "https"@ ==> r.2 == 80),
{
    law_written_ports_count(scheme, host, port, path);
}

/// An upstream is called at the address that is configured for it.
pub proof fn law_upstreams_are_called_where_they_are(
    b: ApiBackend,
    raw: &Json,
    env: &Env,
    c: ApiCall,
    scheme: Seq<char>,
    host: Seq<char>,
    port: u16,
    path: Seq<char>,
)
    requires
        call_ensures(api::plan_call, (&b, raw, env), c),
        b.base_url@ == scheme + "://"@ + (host + ":"@ + decimal(port as nat) + path),
        !scheme.contains(':'),
        !host.contains(':'),
        !host.contains('/'),
        host.len() > 0 ==> host[0] != '[',
        path.len() > 0 ==> path[0] == '/' && path.last() != '/',
    ensures
        c.tls <==> scheme == "https"@,
        c.host@ == host,
        c.port == port,
        c.path@ == path + "/chat/completions"@,
        b.api_key_env matches Some(k) ==> opt_view(c.bearer) == (if env@.dom().contains(k@) {
            Some(env@[k@])
        } else {
            None
        }),
        b.api_key_env is None ==> c.bearer is None,
{
    law_written_ports_count(scheme, host, port, path);
    assert(path + Seq::new(0nat, |i: int| '/') =~= path);
    law_call_follows_the_backend(c, b, raw@, env@, path, 0);
}

/// Of what `tmuxlet` prints as JSON, only a completed run's output is an answer;
/// what is not JSON is one as it is.
pub proof fn law_only_completed_output_is_taken(
    name: &str,
    stdout: &str,
    j: Json,
    e: String,
    of_json: Result<String, BackendError>,
    of_text: Result<String, BackendError>,
    s: Seq<char>,
    o: Seq<char>,
)
    requires
        call_ensures(judge_output, (name, stdout, &Ok(j)), of_json),
        call_ensures(judge_output, (name, stdout, &Err(e)), of_text),
    ensures
        of_json is Ok <==> field(j@, "status"@) == Some(JsonView::Str("completed"@)),
        of_json matches Ok(t) ==> (field(j@, "output"@) == Some(JsonView::Str(o)) ==> t@ == o),
        of_json matches Ok(t) ==> (!(field(j@, "output"@) matches Some(JsonView::Str(_)))
            ==> t@.len() == 0),
        of_json matches Err(x) ==> (x matches BackendError::Backend(n, why) && n@ == name@ && (
        field(j@, "status"@) == Some(JsonView::Str(s)) ==> why@ == "tmuxlet status="@ + s)),
        of_text matches Ok(t) && t@ == stdout@,
{
    law_only_completed_runs_answer(name@, stdout@, j@, e@, s, o);
    if let Err(x) = of_json {
        match field(j@, "status"@) {
            Some(JsonView::Str(t)) => {
                law_only_completed_runs_answer(name@, stdout@, j@, e@, t, o);
            },
            _ => {},
        }
        assert(x@ is Backend);
    }
}

/// An argument with one place for the prompt is passed with the prompt there,
/// and one without as it is; and it is known whether any has one.
pub proof fn law_arguments_are_filled(
    args: &Vec<String>,
    prompt: &str,
    r: (Vec<String>, bool),
    i: int,
    a: Seq<char>,
    b: Seq<char>,
)
    requires
        call_ensures(substitute_prompt, (args, prompt), r),
        0 <= i < args@.len(),
    ensures
        r.0@.len() == args@.len(),
        args@[i]@ == a + "{prompt}"@ + b && !has_infix((a + "{prompt}"@).drop_last(), "{prompt}"@)
            && !has_infix(b, "{prompt}"@) ==> r.0@[i]@ == a + prompt@ + b && r.1,
        !has_infix(args@[i]@, "{prompt}"@) ==> r.0@[i]@ == args@[i]@,
        (forall|k: int| 0 <= k < args@.len() ==> !has_infix((#[trigger] args@[k])@, "{prompt}"@))
            ==> !r.1,
{
    law_prompts_stand_in_their_place(views(args@), prompt@, i, a, b);
    assert(views(r.0@).len() == r.0@.len());
    assert(views(r.0@)[i] == r.0@[i]@);
    let v = views(args@);
    assert(v[i] == args@[i]@);
    if args@[i]@ == a + "{prompt}"@ + b {
        crate::laws::text::law_parts_of_a_text(a, "{prompt}"@, b, args@[i]@);
        assert(has_infix(v[i], "{prompt}"@));
    }
    if forall|k: int| 0 <= k < args@.len() ==> !has_infix((#[trigger] args@[k])@, "{prompt}"@) {
        assert forall|k: int| 0 <= k < v.len() implies !has_infix(#[trigger] v[k], "{prompt}"@) by {
            assert(!has_infix(args@[k]@, "{prompt}"@));
        }
    }
}

/// A program whose arguments have no place for the prompt gets it whole, by one
/// way: on its standard input, or as its last argument.
pub proof fn law_programs_get_the_prompt(b: CliBackend, prompt: &str, c: CliCall)
    requires
        call_ensures(cli::plan_call, (&b, prompt), c),
        forall|k: int|
            0 <= k < b.args@.len() ==> !has_infix((#[trigger] b.args@[k])@, "{prompt}"@),
    ensures
        b.pty || b.stdin_prompt ==> opt_view(c.stdin) == Some(prompt@) && views(c.args@) == views(
            b.args@,
        ),
        !b.pty && !b.stdin_prompt ==> c.stdin is None && views(c.args@) == views(b.args@).push(
            prompt@,
        ),
{
    law_prompts_reach_programs(b, prompt@);
    let v = views(b.args@);
    assert forall|k: int| 0 <= k < v.len() implies !has_infix(#[trigger] v[k], "{prompt}"@) by {
        assert(!has_infix(b.args@[k]@, "{prompt}"@));
    }
}

/// A backend is called by its own kind of call.
pub proof fn law_backends_are_called_by_kind(
    t: TmuxletBackend,
    a: ApiBackend,
    c: CliBackend,
    prompt: &str,
    raw: &Json,
    env: &Env,
    timeout: u128,
    rt: Call,
    ra: Call,
    rc: Call,
)
    requires
        call_ensures(Backend::dispatch, (&Backend::Tmuxlet(t), prompt, raw, env, timeout), rt),
        call_ensures(Backend::dispatch, (&Backend::Api(a), prompt, raw, env, timeout), ra),
        call_ensures(Backend::dispatch, (&Backend::Cli(c), prompt, raw, env, timeout), rc),
    ensures
        rt matches Call::Tmuxlet(x) && tmuxlet::is_tmuxlet_call(x, t, prompt@, timeout),
        ra matches Call::Api(x) && api::is_api_call(x, a, raw@, env@),
        rc matches Call::Cli(x) && (views(x.args@), opt_view(x.stdin)) == cli::call_plan(
            c,
            prompt@,
        ),
{
}

/// A program is waited for until it ends or its time is over.
pub proof fn law_programs_are_waited_for(exited: bool, elapsed: u128, limit: u128, r: PollStep)
    requires
        call_ensures(poll_step, (exited, elapsed, limit), r),
    ensures
        r == PollStep::Collect <==> exited,
        r == PollStep::Kill <==> !exited && elapsed >= limit,
        r == PollStep::Wait <==> !exited && elapsed < limit,
{
}

/// A program that did not take its prompt is at fault only where it was left
/// alone and there was a prompt.
pub proof fn law_unread_prompts(failed: bool, killed: bool, empty: bool, r: bool)
    requires
        call_ensures(is_write_error, (failed, killed, empty), r),
    ensures
        r ==> failed,
        killed || empty ==> !r,
        failed && !killed && !empty ==> r,
{
}

/// A program that could not be run, or not in time, is an error of its backend.
pub proof fn law_programs_that_do_not_end(
    c: CliBackend,
    t: TmuxletBackend,
    e: String,
    unrun: Result<DispatchResult, BackendError>,
    late: Result<DispatchResult, BackendError>,
    t_unrun: Result<DispatchResult, BackendError>,
    t_late: Result<DispatchResult, BackendError>,
)
    requires
        call_ensures(cli::finish_child, (&c, &ChildEnd::NotRun(e)), unrun),
        call_ensures(cli::finish_child, (&c, &ChildEnd::TimedOut), late),
        call_ensures(tmuxlet::finish_child, (&t, &ChildEnd::NotRun(e)), t_unrun),
        call_ensures(tmuxlet::finish_child, (&t, &ChildEnd::TimedOut), t_late),
    ensures
        unrun matches Err(BackendError::Spawn(n, why)) && n@ == c.name@ && why@ == e@,
        late matches Err(BackendError::Timeout(n)) && n@ == c.name@,
        t_unrun matches Err(BackendError::Spawn(n, why)) && n@ == t.name@ && why@ == e@,
        t_late matches Err(BackendError::Timeout(n)) && n@ == t.name@,
{
    lemma_spawned(unrun, c.name@, e@);
    lemma_late(late, c.name@);
    lemma_spawned(t_unrun, t.name@, e@);
    lemma_late(t_late, t.name@);
}

proof fn lemma_spawned(r: Result<DispatchResult, BackendError>, n: Seq<char>, why: Seq<char>)
    requires
        crate::backend::outcome_view(r) == Err::<
            crate::backend::DispatchView,
            crate::backend::ErrorView,
        >(crate::backend::ErrorView::Spawn(n, why)),
    ensures
        r matches Err(BackendError::Spawn(a, b)) && a@ == n && b@ == why,
{
    if let Err(x) = r {
        assert(x@ is Spawn);
    }
}

proof fn lemma_late(r: Result<DispatchResult, BackendError>, n: Seq<char>)
    requires
        crate::backend::outcome_view(r) == Err::<
            crate::backend::DispatchView,
            crate::backend::ErrorView,
        >(crate::backend::ErrorView::Timeout(n)),
    ensures
        r matches Err(BackendError::Timeout(a)) && a@ == n,
{
    if let Err(x) = r {
        assert(x@ is Timeout);
    }
}

// ---------------------------------------------------------------------------
// Names, settings, and what is read
// ---------------------------------------------------------------------------

/// What a name was given last is found under it, and other names stay as they
/// were.
pub proof fn law_what_was_put_in_is_found<V>(
    m: &mut NameMap<V>,
    k: String,
    v: V,
    other: &str,
    before: Option<&V>,
    after: Option<&V>,
    found: Option<&V>,
    key: &str,
)
    requires
        call_ensures(NameMap::<V>::insert, (m, k, v), ()),
        call_ensures(NameMap::<V>::get, (&*old(m), other), before),
        call_ensures(NameMap::<V>::get, (&*final(m), other), after),
        call_ensures(NameMap::<V>::get, (&*final(m), key), found),
        key@ == k@,
        other@ != k@,
    ensures
        found == Some(&v),
        after == before,
{
}

/// A level's name sets it, and nothing else of the log.
pub proof fn law_levels_are_set(log: &mut Log, name: &str)
    requires
        call_ensures(set_level, (log, name), ()),
    ensures
        name@ == "error"@ ==> final(log).level == 0,
        name@ == "warn"@ ==> final(log).level == 1,
        name@ == "info"@ ==> final(log).level == 2,
        name@ == "debug"@ ==> final(log).level == 3,
        final(log).level <= 3,
        final(log).requests == old(log).requests,
{
    reveal_strlit("error");
    reveal_strlit("warn");
    reveal_strlit("debug");
    reveal_strlit("info");
    let n = name@;
    crate::laws::service::law_levels_have_names(n);
    if n == "error"@ || n == "warn"@ || n == "info"@ || n == "debug"@ {
        assert(crate::text::lowered(n) =~= n);
    }
    assert("info"@.len() == 4 && "warn"@.len() == 4 && "info"@[0] == 'i' && "warn"@[0] == 'w');
    assert("error"@.len() == 5 && "debug"@.len() == 5);
}

/// Each request has a number of its own: the next one's is one more.
pub proof fn law_requests_are_numbered(log: &mut Log, id: String)
    requires
        call_ensures(next_reqid, (log,), id),
        old(log).requests < u64::MAX,
    ensures
        final(log).requests == old(log).requests + 1,
        final(log).level == old(log).level,
        id@ == crate::log::reqid_text(old(log).requests as nat),
{
}

/// Expanding paths leaves the server, the chains and the routers alone, and
/// keeps every backend under its name, in its place.
pub proof fn law_expanding_keeps_the_rest(cfg: &mut Config, home: Option<&str>, i: int)
    requires
        call_ensures(expand_paths, (cfg, home), ()),
    ensures
        final(cfg).server == old(cfg).server,
        final(cfg).chains == old(cfg).chains,
        final(cfg).routers == old(cfg).routers,
        final(cfg).backends.pairs().len() == old(cfg).backends.pairs().len(),
        0 <= i < old(cfg).backends.pairs().len() ==> final(cfg).backends.pairs()[i].0 == old(
            cfg,
        ).backends.pairs()[i].0 && config::is_expanded(
            old(cfg).backends.pairs()[i].1,
            final(cfg).backends.pairs()[i].1,
            opt_str_view(home),
        ),
{
    if 0 <= i < old(cfg).backends.pairs().len() {
        assert(final(cfg).backends.pairs()[i].0 == old(cfg).backends.pairs()[i].0);
    }
}

/// Reading goes on while data comes, ends where the upstream does, and fails
/// where it does.
pub proof fn law_reading_follows_the_upstream(
    reader: &mut BodyReader,
    event: ReadEvent,
    r: ReadAction,
)
    requires
        call_ensures(read_body, (reader, event), r),
        old(reader).wf(),
    ensures
        final(reader).max_bytes == old(reader).max_bytes,
        event is End ==> r is Done && *final(reader) == *old(reader),
        event matches ReadEvent::Failed(e) ==> (r matches ReadAction::Fail(ReadError::Failed(s))
            && s@ == e@) && *final(reader) == *old(reader),
        event matches ReadEvent::Data(d) ==> ({
            let all = old(reader).buf@ + d@;
            let max = old(reader).max_bytes;
            let over = max > 0 && all.len() > max;
            &&& over ==> (r matches ReadAction::Fail(ReadError::TooLarge(n)) && n == max)
            &&& !over && crate::http_client::complete(all) ==> r is Done
                && final(reader).buf@ == all.take(crate::http_client::framed_end(all)->0)
            &&& !over && !crate::http_client::complete(all) ==> r is More && final(reader).buf@
                == all
        }),
{
    if let ReadAction::Fail(e) = r {
        if let ReadError::Failed(s) = e {
            assert(e@ is Failed);
        } else {
            assert(e@ is TooLarge);
        }
    }
}

/// A captured record gives its variable its value, whatever else was captured
/// before it.
pub proof fn law_the_last_record_is_read(
    rest: Seq<char>,
    k: Seq<char>,
    v: Seq<char>,
    raw: &str,
    m: NameMap<String>,
)
    requires
        call_ensures(parse_env_nul, (raw,), m),
        raw@ == rest + seq!['\0'] + (k + seq!['='] + v),
        crate::env::valid_key(k),
        !k.contains('='),
        !k.contains('\0'),
        !v.contains('\0'),
    ensures
        m@.dom().contains(k),
        m@[k]@ == v,
{
    let r = k + seq!['='] + v;
    assert(!r.contains('\0')) by {
        if r.contains('\0') {
            let i = choose|i: int| 0 <= i < r.len() && r[i] == '\0';
            if i < k.len() {
                assert(k[i] == '\0');
            } else if i > k.len() {
                assert(v[i - k.len() - 1] == '\0');
            }
        }
    }
    lemma_split_last(rest, r, '\0');
    let front = crate::text::split(rest, '\0');
    law_records_give_values(k, v);
    law_records_add_up(front, r, k, v, m@);
    assert(crate::env::text_map(m@).dom().contains(k));
}

proof fn lemma_split_last(rest: Seq<char>, last: Seq<char>, c: char)
    requires
        !last.contains(c),
    ensures
        crate::text::split(rest + seq![c] + last, c) == crate::text::split(rest, c).push(last),
    decreases rest.len(),
{
    law_split_cuts_everywhere(last, c, last);
    if rest.contains(c) {
        let i = crate::text::find_from(rest, c, 0);
        crate::text::lemma_find_from(rest, c, 0);
        assert(i < rest.len()) by {
            let k = choose|k: int| 0 <= k < rest.len() && rest[k] == c;
            if i >= rest.len() {
                assert(rest[k] != c);
            }
        }
        let a = rest.take(i);
        let b = rest.skip(i + 1);
        assert(!a.contains(c)) by {
            if a.contains(c) {
                let k = choose|k: int| 0 <= k < a.len() && a[k] == c;
                assert(rest[k] == c);
            }
        }
        assert(rest =~= a + seq![c] + b);
        law_split_cuts_everywhere(a, c, b);
        law_split_cuts_everywhere(a, c, b + seq![c] + last);
        assert(rest + seq![c] + last =~= a + seq![c] + (b + seq![c] + last));
        lemma_split_last(b, last, c);
        assert(seq![a] + crate::text::split(b, c).push(last) =~= (seq![a] + crate::text::split(b, c))
            .push(last));
    } else {
        law_split_cuts_everywhere(rest, c, last);
        assert(seq![rest] + seq![last] =~= seq![rest].push(last));
    }
}

} // verus!
