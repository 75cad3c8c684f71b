//! Laws on chats: how they are classified and planned, and what is answered.

use vstd::prelude::*;

use crate::backend::{
    error_class, error_message, error_name, Backend, BackendError, DispatchResult, DispatchView,
    ErrorView,
};
use crate::config::{Config, Router};
use crate::http::chain::{error_views, note_views};
use crate::http::chat::{
    body_line, can_ask, chat_outcome_view, chat_plan, class_names, class_of, classifier_text,
    closing_text, completion_reply, contained_key, dropped_notes, exact_key, failure_text,
    finish_classify, next_frames, parse_error_reply, routed_plan, short_errors, single_message,
    still_to_come, stream_header_texts, tail, ChainPlan, ChatPlan, ChatView, StreamEvent,
};
use crate::http::{cors_headers, CorsView, Reply, State};
use crate::json::{field, JsonView};
use crate::laws::values::law_members_are_found_by_name;
use crate::openai::{
    answer_text, detailed_error_text, drops_parts, error_text, stream_events, ChatMessage,
};
use crate::router::{legs_for, no_default_text};
use crate::text::{
    decimal, has_infix, has_suffix, joined, lowered, opt_view, replaced, trim, views,
};

verus! {

// ---------------------------------------------------------------------------
// Classifying
// ---------------------------------------------------------------------------

/// The end of a text, as long as may be.
pub proof fn law_tails_are_ends(s: Seq<char>, max: nat)
    ensures
        has_suffix(s, tail(s, max)),
        s.len() <= max ==> tail(s, max) == s,
        s.len() > max ==> tail(s, max).len() == max,
{
    if s.len() <= max {
        assert(s.skip(0) =~= s);
    }
}

proof fn lemma_exact_key(reply: Seq<char>, keys: Seq<Seq<char>>, i: int)
    requires
        forall|j: int| 0 <= j < i && j < keys.len() ==> lowered(#[trigger] keys[j]) != reply,
        0 <= i <= keys.len(),
        i < keys.len() ==> lowered(keys[i]) == reply,
    ensures
        exact_key(reply, keys) == if i < keys.len() {
            Some(keys[i])
        } else {
            None
        },
    decreases keys.len(),
{
    if i > 0 {
        let rest = keys.drop_first();
        assert(lowered(keys[0]) != reply);
        assert forall|j: int| 0 <= j < i - 1 && j < rest.len() implies lowered(#[trigger] rest[j])
            != reply by {
            assert(rest[j] == keys[j + 1]);
        }
        lemma_exact_key(reply, rest, i - 1);
    }
}

proof fn lemma_contained_key(reply: Seq<char>, keys: Seq<Seq<char>>, i: int)
    requires
        forall|j: int|
            0 <= j < i && j < keys.len() ==> !has_infix(reply, lowered(#[trigger] keys[j])),
        0 <= i <= keys.len(),
        i < keys.len() ==> has_infix(reply, lowered(keys[i])),
    ensures
        contained_key(reply, keys) == if i < keys.len() {
            Some(keys[i])
        } else {
            None
        },
    decreases keys.len(),
{
    if i > 0 {
        let rest = keys.drop_first();
        assert(!has_infix(reply, lowered(keys[0])));
        assert forall|j: int| 0 <= j < i - 1 && j < rest.len() implies !has_infix(
            reply,
            lowered(#[trigger] rest[j]),
        ) by {
            assert(rest[j] == keys[j + 1]);
        }
        lemma_contained_key(reply, rest, i - 1);
    }
}

/// A reply that is the name of a class, but for capitals and white space around
/// it, is the first such class.
pub proof fn law_named_classes_count(
    reply: Seq<char>,
    keys: Seq<Seq<char>>,
    fallback: Seq<char>,
    i: int,
)
    requires
        0 <= i < keys.len(),
        lowered(keys[i]) == lowered(trim(reply)),
        forall|j: int| 0 <= j < i ==> lowered(#[trigger] keys[j]) != lowered(trim(reply)),
    ensures
        class_of(reply, keys, fallback) == keys[i],
{
    lemma_exact_key(lowered(trim(reply)), keys, i);
}

/// Else the first class that the reply mentions is taken, and what is fallen
/// back on where it mentions none.
pub proof fn law_mentioned_classes_count(
    reply: Seq<char>,
    keys: Seq<Seq<char>>,
    fallback: Seq<char>,
    i: int,
)
    requires
        forall|j: int|
            0 <= j < keys.len() ==> lowered(#[trigger] keys[j]) != lowered(trim(reply)),
    ensures
        0 <= i < keys.len() && has_infix(lowered(trim(reply)), lowered(keys[i])) && (forall|j: int|
            0 <= j < i ==> !has_infix(lowered(trim(reply)), lowered(#[trigger] keys[j])))
            ==> class_of(reply, keys, fallback) == keys[i],
        (forall|j: int|
            0 <= j < keys.len() ==> !has_infix(lowered(trim(reply)), lowered(#[trigger] keys[j])))
            ==> class_of(reply, keys, fallback) == fallback,
{
    let r = lowered(trim(reply));
    lemma_exact_key(r, keys, keys.len() as int);
    if 0 <= i < keys.len() && has_infix(r, lowered(keys[i])) && (forall|j: int|
        0 <= j < i ==> !has_infix(r, lowered(#[trigger] keys[j]))) {
        lemma_contained_key(r, keys, i);
    }
    if forall|j: int| 0 <= j < keys.len() ==> !has_infix(r, lowered(#[trigger] keys[j])) {
        lemma_contained_key(r, keys, keys.len() as int);
    }
}

/// A class is read out of what was answered, and fallen back on where nothing
/// was.
pub proof fn law_answers_are_classified(
    router: Router,
    d: DispatchResult,
    e: BackendError,
    read: String,
    failed: String,
    i: int,
)
    requires
        call_ensures(finish_classify, (&router, &Ok(d)), read),
        call_ensures(finish_classify, (&router, &Err(e)), failed),
    ensures
        failed@ == router.fallback_class@,
        read@ == class_of(d.content@, class_names(router.routes), router.fallback_class@),
        class_names(router.routes).len() == router.routes.pairs().len(),
        0 <= i < router.routes.pairs().len() ==> class_names(router.routes)[i]
            == router.routes.pairs()[i].0,
{
}

/// What a classifier is asked: the template with the classes and the task in
/// their places, or a question of its own.
pub proof fn law_classifiers_are_asked(t: Seq<char>, classes: Seq<Seq<char>>, task: Seq<char>)
    ensures
        classifier_text(Some(t), classes, task) == replaced(
            replaced(t, "{classes}"@, joined(classes, ", "@)),
            "{input}"@,
            task,
        ),
        classifier_text(None, classes, task)
            == "Classify the task into exactly one of these labels: "@ + joined(classes, ", "@)
            + ".\n\nTask:\n"@ + task + "\n\nAnswer with exactly one label."@,
{
}

/// A question is put as one message of the user.
pub proof fn law_questions_are_one_message(prompt: Seq<char>)
    ensures
        ({
            let items = match field(single_message(prompt), "messages"@) {
                Some(JsonView::Array(a)) => a,
                _ => Seq::empty(),
            };
            &&& items.len() == 1
            &&& field(items[0], "role"@) == Some(JsonView::Str("user"@))
            &&& field(items[0], "content"@) == Some(JsonView::Str(prompt))
        }),
        single_message(prompt) matches JsonView::Object(f) && f.len() == 1,
{
    reveal_strlit("role");
    reveal_strlit("content");
    assert("role"@.len() == 4 && "content"@.len() == 7);
    let inner = seq![
        ("role"@, JsonView::Str("user"@)),
        ("content"@, JsonView::Str(prompt)),
    ];
    let m = JsonView::Array(seq![JsonView::Object(inner)]);
    let outer = seq![("messages"@, m)];
    law_members_are_found_by_name(outer, "messages"@, 0, m);
    law_members_are_found_by_name(inner, "role"@, 0, m);
    assert(forall|j: int| 0 <= j < 1 ==> (#[trigger] inner[j]).0 != "content"@);
    law_members_are_found_by_name(inner, "content"@, 1, m);
    assert(single_message(prompt) == JsonView::Object(outer));
}

/// A classifier can be asked where it can be run and has not as many dispatches
/// as it may.
pub proof fn law_busy_classifiers_are_not_asked(
    state: State,
    name: Seq<char>,
    active: Map<Seq<char>, usize>,
)
    ensures
        ({
            let running: nat = if active.dom().contains(name) {
                active[name] as nat
            } else {
                0
            };
            let free = match state.backends@[name] {
                Backend::Tmuxlet(t) => t.max_concurrent matches Some(m) ==> running < m,
                Backend::Api(a) => a.max_concurrent matches Some(m) ==> running < m,
                Backend::Cli(c) => c.max_concurrent matches Some(m) ==> running < m,
            };
            can_ask(state, name, active) <==> state.backends@.dom().contains(name) && free
        }),
{
}

// ---------------------------------------------------------------------------
// Planning
// ---------------------------------------------------------------------------

/// What is logged of parts that are dropped, and of a request's size.
pub proof fn law_dropped_parts_are_told(reqid: Seq<char>, ms: Seq<ChatMessage>, i: int, bytes: nat)
    ensures
        0 <= i < ms.len() && drops_parts(ms[i].content) ==> dropped_notes(reqid, ms) == seq![
            (1u8, reqid + " non-text content parts were dropped"@),
        ],
        (forall|k: int| 0 <= k < ms.len() ==> !drops_parts((#[trigger] ms[k]).content))
            ==> dropped_notes(reqid, ms).len() == 0,
        body_line(reqid, bytes) == (3u8, reqid + " request_bytes="@ + decimal(bytes)),
{
}

/// How a chat is planned. Without messages it is refused; a router's is
/// classified; one for a model that is not known is refused where models are
/// strict; and any other is run.
pub proof fn law_chats_are_planned(
    model: Seq<char>,
    ms: Seq<ChatMessage>,
    state: State,
    cors: CorsView,
    reqid: Seq<char>,
)
    ensures
        ({
            let cfg = state.cfg;
            let p = chat_plan(model, ms, state, cors, reqid);
            let known = cfg.chains@.dom().contains(model) || cfg.backends@.dom().contains(model);
            let routed = cfg.routers@.dom().contains(model);
            let strict = cfg.server.strict_models;
            &&& ms.len() == 0 ==> (p matches ChatView::Answer(r) && r.status == 400 && r.body
                == error_text(
                "messages must not be empty"@,
                "invalid_request_error"@,
                Some("missing_messages"@),
            ))
            &&& ms.len() > 0 && routed ==> p == ChatView::Classify(model)
            &&& ms.len() > 0 && !routed && !known && strict ==> (p matches ChatView::Answer(r)
                && r.status == 404 && r.body == error_text(
                "unknown model '"@ + model
                    + "' — list valid ids at GET /v1/models, or set strict_models = false to fall back to default_chain"@,
                "invalid_request_error"@,
                Some("model_not_found"@),
            ))
            &&& ms.len() > 0 && !routed && (known || !strict) && legs_for(cfg, model) is None ==> (
            p matches ChatView::Answer(r) && r.status == 400 && r.body == error_text(
                no_default_text(cfg),
                "invalid_request_error"@,
                Some("bad_model"@),
            ))
            &&& ms.len() > 0 && !routed && (known || !strict) ==> (legs_for(cfg, model) matches Some(
                names,
            ) ==> (p matches ChatView::Run(plan) && plan.names == names && plan.route is None
                && plan.notes == dropped_notes(reqid, ms) + (if known {
                seq![]
            } else {
                seq![(1u8, reqid + " unknown model '"@ + model + "' → default chain"@)]
            })))
        }),
{
}

/// A classified chat is run by its class's target, and says by which route.
pub proof fn law_routed_chats_are_planned(
    cfg: Config,
    ms: Seq<ChatMessage>,
    router: Seq<char>,
    class: Seq<char>,
    took: u64,
    reqid: Seq<char>,
)
    ensures
        ({
            let target = cfg.routers@[router].routes@[class]@;
            let p = routed_plan(cfg, ms, router, class, took, reqid);
            &&& legs_for(cfg, target) matches Some(names) ==> (p matches Ok(plan) && plan.names
                == names && plan.route == Some(class + "/"@ + target) && plan.notes
                == dropped_notes(reqid, ms).push(
                (
                    2u8,
                    reqid + " route "@ + router + " class="@ + class + " target="@ + target
                        + " classifier_ms="@ + decimal(took as nat),
                ),
            ))
            &&& legs_for(cfg, target) is None ==> (p matches Err(r) && r.status == 500 && r.body
                == error_text(no_default_text(cfg), "server_error"@, Some("router_error"@)))
        }),
{
}

/// A body that cannot be read is answered with what is wrong with it.
pub proof fn law_unreadable_chats_are_refused(e: Seq<char>)
    ensures
        parse_error_reply(e).status == 400,
        parse_error_reply(e).body == error_text(
            "parse error: "@ + e,
            "invalid_request_error"@,
            Some("parse_error"@),
        ),
{
}

/// Plans of the model are those of the library.
pub proof fn law_plans_are_taken_as_they_are(p: ChainPlan, r: Reply, s: String)
    ensures
        ChatPlan::Answer(r)@ == ChatView::Answer(r@),
        ChatPlan::Classify(s)@ == ChatView::Classify(s@),
        ChatPlan::Run(p)@ == ChatView::Run(p@),
        p@.names == views(p.names@),
        p@.route == opt_view(p.route),
        p@.notes == note_views(p.notes@),
{
}

// ---------------------------------------------------------------------------
// Answering
// ---------------------------------------------------------------------------

/// What is said where no backend answered: each with its kind of error, in
/// order, and the errors in full as details unless they are to be kept.
pub proof fn law_failures_are_told(errors: Seq<ErrorView>)
    ensures
        ({
            let short = Seq::new(
                errors.len(),
                |i: int| error_name(errors[i]) + " ("@ + error_class(errors[i]) + ")"@,
            );
            let full = Seq::new(errors.len(), |i: int| error_message(errors[i]));
            let message = "all backends failed: "@ + joined(short, ", "@);
            &&& failure_text(errors, true) == detailed_error_text(
                message,
                "server_error"@,
                Some("all_backends_failed"@),
                short,
            )
            &&& failure_text(errors, false) == detailed_error_text(
                message,
                "server_error"@,
                Some("all_backends_failed"@),
                full,
            )
        }),
{
    let short = Seq::new(
        errors.len(),
        |i: int| error_name(errors[i]) + " ("@ + error_class(errors[i]) + ")"@,
    );
    let full = Seq::new(errors.len(), |i: int| error_message(errors[i]));
    assert(short_errors(errors) =~= short);
    assert(crate::http::chat::full_errors(errors) =~= full);
}

/// An answer is handed on whole, under its model's name, with the route that led
/// to it.
pub proof fn law_answers_are_handed_on(
    d: DispatchView,
    route: Seq<char>,
    winner: Seq<char>,
    created: u64,
)
    ensures
        ({
            let plain = completion_reply(d, None, winner, created);
            let routed = completion_reply(d, Some(route), winner, created);
            &&& plain.status == 200
            &&& plain.headers == seq![("Content-Type"@, "application/json"@)]
            &&& plain.body == answer_text(
                "chatcmpl-"@ + d.model_label,
                d.model_label,
                d.content,
                created,
            )
            &&& routed.status == 200
            &&& routed.headers == seq![
                ("Content-Type"@, "application/json"@),
                ("x-tmuxlet-route"@, route + "/"@ + winner),
            ]
            &&& routed.body == plain.body
        }),
{
    assert(completion_reply(d, None, winner, created).headers =~= seq![
        ("Content-Type"@, "application/json"@),
    ]);
    assert(completion_reply(d, Some(route), winner, created).headers =~= seq![
        ("Content-Type"@, "application/json"@),
        ("x-tmuxlet-route"@, route + "/"@ + winner),
    ]);
}

/// The line that closes a request: what was asked for, by which route, how long
/// it took, who answered, and whether that was the first.
pub proof fn law_requests_are_closed(
    reqid: Seq<char>,
    model: Seq<char>,
    route: Option<Seq<char>>,
    ms: u64,
    winner: Seq<char>,
    failed: nat,
)
    ensures
        ({
            let by = match route {
                Some(r) => r,
                None => "-"@,
            };
            let front = reqid + " model="@ + model + " route="@ + by + " elapsed_ms="@ + decimal(
                ms as nat,
            ) + " backend="@;
            &&& closing_text(reqid, model, route, ms, None, failed) == front + "-"@ + " status="@
                + "fail"@
            &&& closing_text(reqid, model, route, ms, Some(winner), 0) == front + winner
                + " status="@ + "ok"@
            &&& failed > 0 ==> closing_text(reqid, model, route, ms, Some(winner), failed) == front
                + winner + " status="@ + "fallback"@
        }),
{
}

/// What a stream says before its events.
pub proof fn law_streams_have_headers(route: Seq<char>, cors: CorsView)
    ensures
        stream_header_texts(None, cors) == seq![
            ("Content-Type"@, "text/event-stream"@),
            ("Cache-Control"@, "no-cache"@),
        ] + cors_headers(cors),
        stream_header_texts(Some(route), cors) == seq![
            ("Content-Type"@, "text/event-stream"@),
            ("Cache-Control"@, "no-cache"@),
            ("x-tmuxlet-route"@, route),
        ] + cors_headers(cors),
{
    assert(stream_header_texts(Some(route), cors) =~= seq![
        ("Content-Type"@, "text/event-stream"@),
        ("Cache-Control"@, "no-cache"@),
        ("x-tmuxlet-route"@, route),
    ] + cors_headers(cors));
}

/// A stream is kept alive while nothing comes; an answer is streamed whole, and
/// errors, or the loss of the one who answers, are told before the end.
pub proof fn law_streams_tell_what_came(
    d: DispatchResult,
    errors: Vec<BackendError>,
    redact: bool,
    now: u64,
)
    ensures
        next_frames(StreamEvent::Quiet, redact, now) == seq![": keepalive\n\n"@],
        next_frames(StreamEvent::Ended(Ok(d)), redact, now) == stream_events(
            "chatcmpl-"@ + d.model_label@,
            d.model_label@,
            d.content@,
            now,
        ),
        next_frames(StreamEvent::Ended(Err(errors)), redact, now) == seq![
            "data: "@ + failure_text(error_views(errors@), redact) + "\n\n"@,
            "data: [DONE]\n\n"@,
        ],
        next_frames(StreamEvent::Lost, redact, now) == seq![
            "data: "@ + failure_text(
                seq![ErrorView::Backend("server"@, "dispatch panicked"@)],
                redact,
            ) + "\n\n"@,
            "data: [DONE]\n\n"@,
        ],
{
}

/// Outcomes of the model are those of the library.
pub proof fn law_chat_outcomes_are_taken_as_they_are(
    winner: String,
    d: DispatchResult,
    errors: Vec<BackendError>,
    rest: Seq<u8>,
    pieces: Seq<Seq<u8>>,
)
    ensures
        chat_outcome_view(Ok((winner, d))) == Ok::<(Seq<char>, DispatchView), Seq<ErrorView>>(
            (winner@, d@),
        ),
        chat_outcome_view(Err(errors)) == Err::<(Seq<char>, DispatchView), Seq<ErrorView>>(
            error_views(errors@),
        ),
        still_to_come(rest, pieces) == rest + pieces.flatten(),
{
}

} // verus!
