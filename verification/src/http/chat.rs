//! Chat requests: to which backends they go, and how they are answered, all at
//! once or as a stream.

use vstd::prelude::*;

use crate::backend::{
    error_class, error_message, error_name, Backend, BackendError, DispatchResult, DispatchView,
    ErrorView,
};
use crate::config::{Config, Router};
use crate::json::{json_of_text, object, parse_json, string, Json, JsonView};
use crate::names::NameMap;
use crate::openai::{
    answer_text, build_completion, detailed_error_text, done_text, drops_parts, event_text,
    has_dropped_parts, stream_events, stream_frames, ChatMessage, ChatRequest, ErrorEnvelope,
};
use crate::router::{legs_for, no_default_text, resolve};
use crate::text::{
    chars_of, contains, decimal, decimal_text, has_infix, join_texts, joined, lower_text, lowered,
    opt_view, replace_text, replaced, same, str_views, text_range, trim, trimmed, views,
};
use super::chain::{error_views, note, note_views, Note};
use super::health::{acquired, count_of, names_of, ActiveSlot};
use super::{
    add_cors, apply_cors, cors_headers, error_reply, header, header_texts, json_reply, respond_err,
    respond_json, with_cors, Cors, CorsView, Reply, ReplyView, State,
};

verus! {

// ---------------------------------------------------------------------------
// Classifying a task
// ---------------------------------------------------------------------------

/// The last `max` characters of a text.
pub open spec fn tail(s: Seq<char>, max: nat) -> Seq<char> {
    if s.len() <= max {
        s
    } else {
        s.skip(s.len() - max)
    }
}

/// The last `max` characters of a text.
pub fn truncate_tail(s: &str, max: usize) -> (r: String)
    ensures
        r@ == tail(s@, max as nat),
{
    let v = chars_of(s);
    if v.len() <= max {
        return s.to_owned();
    }
    let r = text_range(&v, v.len() - max, v.len());
    proof {
        assert(r@ =~= s@.skip(s@.len() - max));
    }
    r
}

/// The first key for which a reply is that key, in any case.
pub open spec fn exact_key(reply: Seq<char>, keys: Seq<Seq<char>>) -> Option<Seq<char>>
    decreases keys.len(),
{
    if keys.len() == 0 {
        None
    } else if lowered(keys[0]) == reply {
        Some(keys[0])
    } else {
        exact_key(reply, keys.drop_first())
    }
}

/// The first key that occurs in a reply, in any case.
pub open spec fn contained_key(reply: Seq<char>, keys: Seq<Seq<char>>) -> Option<Seq<char>>
    decreases keys.len(),
{
    if keys.len() == 0 {
        None
    } else if has_infix(reply, lowered(keys[0])) {
        Some(keys[0])
    } else {
        contained_key(reply, keys.drop_first())
    }
}

/// The class that a classifier's reply names: the class that it is, else the
/// first that it mentions, else the fallback.
pub open spec fn class_of(reply: Seq<char>, keys: Seq<Seq<char>>, fallback: Seq<char>) -> Seq<char> {
    let r = lowered(trim(reply));
    match exact_key(r, keys) {
        Some(k) => k,
        None => match contained_key(r, keys) {
            Some(k) => k,
            None => fallback,
        },
    }
}

/// The classes of a router, in order.
pub open spec fn class_names(routes: NameMap<String>) -> Seq<Seq<char>> {
    routes.pairs().map_values(|p: (Seq<char>, String)| p.0)
}

/// Reads the class from a classifier's reply.
pub fn parse_class(reply: &str, routes: &NameMap<String>, fallback: &str) -> (r: String)
    ensures
        r@ == class_of(reply@, class_names(*routes), fallback@),
{
    let said = lower_text(trimmed(reply).as_str());
    let keys = names_of(routes);
    let ghost all = views(keys@);
    let mut i: usize = 0;
    proof {
        assert(all.skip(0) =~= all);
    }
    while i < keys.len()
        invariant
            i <= keys@.len(),
            all == views(keys@),
            all == class_names(*routes),
            said@ == lowered(trim(reply@)),
            exact_key(said@, all) == exact_key(said@, all.skip(i as int)),
        decreases keys@.len() - i,
    {
        proof {
            assert(all.skip(i as int)[0] == keys@[i as int]@);
            assert(all.skip(i as int).drop_first() =~= all.skip(i + 1));
        }
        if same(lower_text(keys[i].as_str()).as_str(), said.as_str()) {
            return keys[i].clone();
        }
        i = i + 1;
    }
    let mut j: usize = 0;
    while j < keys.len()
        invariant
            j <= keys@.len(),
            all == views(keys@),
            all == class_names(*routes),
            said@ == lowered(trim(reply@)),
            exact_key(said@, all) is None,
            contained_key(said@, all) == contained_key(said@, all.skip(j as int)),
        decreases keys@.len() - j,
    {
        proof {
            assert(all.skip(j as int)[0] == keys@[j as int]@);
            assert(all.skip(j as int).drop_first() =~= all.skip(j + 1));
        }
        if contains(said.as_str(), lower_text(keys[j].as_str()).as_str()) {
            return keys[j].clone();
        }
        j = j + 1;
    }
    fallback.to_owned()
}

/// Whatever a classifier replies, the class is one of the router's, or the
/// fallback.
pub proof fn law_class_is_known(reply: Seq<char>, keys: Seq<Seq<char>>, fallback: Seq<char>)
    ensures
        keys.contains(class_of(reply, keys, fallback)) || class_of(reply, keys, fallback)
            == fallback,
{
    lemma_key_found(lowered(trim(reply)), keys);
}

proof fn lemma_key_found(reply: Seq<char>, keys: Seq<Seq<char>>)
    ensures
        exact_key(reply, keys) is Some ==> keys.contains(exact_key(reply, keys)->0),
        contained_key(reply, keys) is Some ==> keys.contains(contained_key(reply, keys)->0),
    decreases keys.len(),
{
    if keys.len() > 0 {
        let rest = keys.drop_first();
        lemma_key_found(reply, rest);
        assert(keys.contains(keys[0]));
        assert forall|k: Seq<char>| rest.contains(k) implies keys.contains(k) by {
            let i = choose|i: int| 0 <= i < rest.len() && rest[i] == k;
            assert(keys[i + 1] == k);
        }
    }
}

/// What a classifier is asked: the configured prompt with the classes and the
/// task in their places, else a plain question.
pub open spec fn classifier_text(
    template: Option<Seq<char>>,
    classes: Seq<Seq<char>>,
    task: Seq<char>,
) -> Seq<char> {
    match template {
        Some(t) => replaced(replaced(t, "{classes}"@, joined(classes, ", "@)), "{input}"@, task),
        None => "Classify the task into exactly one of these labels: "@ + joined(classes, ", "@)
            + ".\n\nTask:\n"@ + task + "\n\nAnswer with exactly one label."@,
    }
}

/// Writes what a classifier is asked.
pub fn classifier_question(template: &Option<String>, classes: &Vec<String>, task: &str) -> (r:
    String)
    ensures
        r@ == classifier_text(opt_view(*template), views(classes@), task@),
{
    let list = join_texts(classes, ", ");
    match template {
        Some(t) => {
            proof {
                reveal_strlit("{classes}");
                reveal_strlit("{input}");
                assert("{classes}"@.len() == 9 && "{input}"@.len() == 7);
            }
            let named = replace_text(t.as_str(), "{classes}", list.as_str());
            replace_text(named.as_str(), "{input}", task)
        },
        None => "Classify the task into exactly one of these labels: ".to_owned().concat(
            list.as_str(),
        ).concat(".\n\nTask:\n").concat(task).concat("\n\nAnswer with exactly one label."),
    }
}

/// The messages of a request that holds one user message.
pub open spec fn single_message(prompt: Seq<char>) -> JsonView {
    JsonView::Object(
        seq![
            (
                "messages"@,
                JsonView::Array(
                    seq![
                        JsonView::Object(
                            seq![
                                ("role"@, JsonView::Str("user"@)),
                                ("content"@, JsonView::Str(prompt)),
                            ],
                        ),
                    ],
                ),
            ),
        ],
    )
}

/// A request that holds one user message.
pub fn single_message_json(prompt: &str) -> (r: Json)
    ensures
        r@ == single_message(prompt@),
{
    let mut fields: Vec<(String, Json)> = Vec::new();
    fields.push(("role".to_owned(), string("user")));
    fields.push(("content".to_owned(), string(prompt)));
    proof {
        assert(crate::json::fields_of(fields@) =~= seq![
            ("role"@, JsonView::Str("user"@)),
            ("content"@, JsonView::Str(prompt@)),
        ]);
    }
    let mut items: Vec<Json> = Vec::new();
    items.push(object(fields));
    let ghost message = items@[0]@;
    proof {
        crate::json::lemma_array(items);
        assert(items@.map_values(|j: Json| j@) =~= seq![message]);
    }
    let list = Json::Array(items);
    let ghost list_view = list@;
    let mut outer: Vec<(String, Json)> = Vec::new();
    outer.push(("messages".to_owned(), list));
    proof {
        assert(crate::json::fields_of(outer@) =~= seq![("messages"@, list_view)]);
    }
    object(outer)
}

/// How a task is classified.
pub enum Classify {
    /// Not at all: the classifier cannot be asked.
    Fallback(String),
    /// By asking the classifier.
    Ask(ClassifierCall),
}

/// A question to a classifier.
pub struct ClassifierCall {
    pub name: String,
    pub prompt: String,
    pub raw: Json,
    pub timeout_secs: u64,
    pub slot: Option<ActiveSlot>,
}

/// The classifier can be asked: it can be run, and has a slot left.
pub open spec fn can_ask(state: State, classifier: Seq<char>, active: Map<Seq<char>, usize>) -> bool {
    &&& state.backends@.dom().contains(classifier)
    &&& match state.backends@[classifier].spec_max_concurrent() {
        Some(max) => count_of(active, classifier) < max,
        None => true,
    }
}

/// Plans how a task is classified: the classifier sees the end of the task, and
/// counts against its backend's limit like any other dispatch. Where it cannot
/// be asked, the task has the fallback class; that never fails a request.
pub fn classify_task(
    state: &State,
    router: &Router,
    last_user: &str,
    active: &mut NameMap<usize>,
) -> (r: Classify)
    ensures
        ({
            let name = router.classifier@;
            let prompt = classifier_text(
                opt_view(router.classifier_prompt),
                class_names(router.routes),
                tail(last_user@, router.classifier_max_chars as nat),
            );
            if can_ask(*state, name, old(active)@) {
                &&& r is Ask
                &&& r->Ask_0.name@ == name
                &&& r->Ask_0.prompt@ == prompt
                &&& r->Ask_0.raw@ == single_message(prompt)
                &&& r->Ask_0.timeout_secs == router.classifier_timeout_secs
                &&& match state.backends@[name].spec_max_concurrent() {
                    Some(_) => {
                        &&& r->Ask_0.slot is Some
                        &&& r->Ask_0.slot->0.name@ == name
                        &&& final(active)@ == acquired(old(active)@, name)
                    },
                    None => r->Ask_0.slot is None && final(active)@ == old(active)@,
                }
            } else {
                &&& r is Fallback
                &&& r->Fallback_0@ == router.fallback_class@
                &&& forall|n: Seq<char>|
                    #[trigger] count_of(final(active)@, n) == count_of(old(active)@, n)
            }
        }),
{
    let name = router.classifier.as_str();
    let backend: &Backend = match state.backends.get(name) {
        Some(b) => b,
        None => {
            return Classify::Fallback(router.fallback_class.clone());
        },
    };
    let slot: Option<ActiveSlot> = match backend.max_concurrent() {
        Some(max) => {
            match ActiveSlot::try_acquire(active, name, max) {
                Some(s) => Some(s),
                None => {
                    return Classify::Fallback(router.fallback_class.clone());
                },
            }
        },
        None => None,
    };
    let classes = names_of(&router.routes);
    let task = truncate_tail(last_user, router.classifier_max_chars);
    let prompt = classifier_question(&router.classifier_prompt, &classes, task.as_str());
    let raw = single_message_json(prompt.as_str());
    Classify::Ask(
        ClassifierCall {
            name: router.classifier.clone(),
            prompt,
            raw,
            timeout_secs: router.classifier_timeout_secs,
            slot,
        },
    )
}

/// The class that comes of a classifier's result; a failure means the fallback.
pub fn finish_classify(router: &Router, result: &Result<DispatchResult, BackendError>) -> (r:
    String)
    ensures
        r@ == match result {
            Ok(d) => class_of(d.content@, class_names(router.routes), router.fallback_class@),
            Err(_) => router.fallback_class@,
        },
{
    match result {
        Ok(d) => parse_class(
            d.content.as_str(),
            &router.routes,
            router.fallback_class.as_str(),
        ),
        Err(_) => router.fallback_class.clone(),
    }
}

// ---------------------------------------------------------------------------
// Where a chat goes
// ---------------------------------------------------------------------------

/// The backends that a chat goes to.
pub struct ChainPlan {
    pub names: Vec<String>,
    /// The class and the target that a router chose.
    pub route: Option<String>,
    pub notes: Vec<Note>,
}

/// The backends that a chat goes to, of the model.
pub ghost struct PlanView {
    pub names: Seq<Seq<char>>,
    pub route: Option<Seq<char>>,
    pub notes: Seq<(u8, Seq<char>)>,
}

impl View for ChainPlan {
    type V = PlanView;

    open spec fn view(&self) -> PlanView {
        PlanView {
            names: views(self.names@),
            route: opt_view(self.route),
            notes: note_views(self.notes@),
        }
    }
}

/// What is done with a chat request.
pub enum ChatPlan {
    Answer(Reply),
    /// Ask the classifier of the router of this name.
    Classify(String),
    Run(ChainPlan),
}

/// What is done with a chat request, of the model.
pub ghost enum ChatView {
    Answer(ReplyView),
    Classify(Seq<char>),
    Run(PlanView),
}

impl View for ChatPlan {
    type V = ChatView;

    open spec fn view(&self) -> ChatView {
        match self {
            ChatPlan::Answer(r) => ChatView::Answer(r@),
            ChatPlan::Classify(n) => ChatView::Classify(n@),
            ChatPlan::Run(p) => ChatView::Run(p@),
        }
    }
}

/// The answer to a body that is no chat request.
pub open spec fn parse_error_reply(e: Seq<char>) -> ReplyView {
    error_reply(400, "parse error: "@ + e, "invalid_request_error"@, "parse_error"@)
}

/// The answer to a body that is no chat request.
pub fn respond_parse_error(e: &str, cors: &Cors) -> (r: Reply)
    ensures
        r@ == with_cors(parse_error_reply(e@), cors@),
{
    let message = "parse error: ".to_owned().concat(e);
    apply_cors(
        respond_err(400, message.as_str(), "invalid_request_error", "parse_error"),
        cors,
    )
}

/// Reads a body as JSON, or answers that it is none.
pub fn read_chat(raw: &str, cors: &Cors) -> (r: Result<Json, Reply>)
    ensures
        match r {
            Ok(v) => json_of_text(raw@) == Ok::<JsonView, Seq<char>>(v@),
            Err(reply) => json_of_text(raw@) is Err && reply@ == with_cors(
                parse_error_reply(json_of_text(raw@)->Err_0),
                cors@,
            ),
        },
{
    match parse_json(raw) {
        Ok(v) => Ok(v),
        Err(e) => Err(respond_parse_error(e.as_str(), cors)),
    }
}

/// Some message has parts that are not text.
pub open spec fn any_dropped(messages: Seq<ChatMessage>) -> bool {
    exists|i: int| 0 <= i < messages.len() && drops_parts((#[trigger] messages[i]).content)
}

/// What is logged of the parts that are not text.
pub open spec fn dropped_notes(reqid: Seq<char>, messages: Seq<ChatMessage>) -> Seq<
    (u8, Seq<char>),
> {
    if any_dropped(messages) {
        seq![(1u8, reqid + " non-text content parts were dropped"@)]
    } else {
        Seq::empty()
    }
}

/// Logs that parts which are not text go unread, where there are any.
pub fn note_dropped(reqid: &str, messages: &[ChatMessage]) -> (r: Vec<Note>)
    ensures
        note_views(r@) == dropped_notes(reqid@, messages@),
{
    let mut notes: Vec<Note> = Vec::new();
    if has_dropped_parts(messages) {
        note(&mut notes, 1, reqid.to_owned().concat(" non-text content parts were dropped"));
    }
    proof {
        assert(note_views(notes@) =~= dropped_notes(reqid@, messages@));
    }
    notes
}

/// The debugging line on the size of a chat's body.
pub open spec fn body_line(reqid: Seq<char>, bytes: nat) -> (u8, Seq<char>) {
    (3u8, reqid + " request_bytes="@ + decimal(bytes))
}

/// The debugging line on the size of a chat's body.
pub fn note_body(reqid: &str, raw: &str) -> (r: Note)
    ensures
        r@ == body_line(reqid@, vstd::utf8::encode_utf8(raw@).len()),
{
    let bytes: usize = raw.as_bytes().len();
    Note {
        level: 3,
        text: reqid.to_owned().concat(" request_bytes=").concat(
            decimal_text(bytes as u128).as_str(),
        ),
    }
}

/// A model that stands for a chain or a backend.
pub open spec fn is_known(cfg: Config, model: Seq<char>) -> bool {
    cfg.chains@.dom().contains(model) || cfg.backends@.dom().contains(model)
}

/// The message about an unknown model.
pub open spec fn unknown_model_text(model: Seq<char>) -> Seq<char> {
    "unknown model '"@ + model
        + "' — list valid ids at GET /v1/models, or set strict_models = false to fall back to default_chain"@
}

/// What is done with a chat request: one without messages is refused; a
/// router's name has the task classified; a model that is not known is refused
/// where models are strict, and else goes to the default chain.
pub open spec fn chat_plan(
    model: Seq<char>,
    messages: Seq<ChatMessage>,
    state: State,
    cors: CorsView,
    reqid: Seq<char>,
) -> ChatView {
    let cfg = state.cfg;
    if messages.len() == 0 {
        ChatView::Answer(
            with_cors(
                error_reply(
                    400,
                    "messages must not be empty"@,
                    "invalid_request_error"@,
                    "missing_messages"@,
                ),
                cors,
            ),
        )
    } else if cfg.routers@.dom().contains(model) {
        ChatView::Classify(model)
    } else if !is_known(cfg, model) && cfg.server.strict_models {
        ChatView::Answer(
            with_cors(
                error_reply(
                    404,
                    unknown_model_text(model),
                    "invalid_request_error"@,
                    "model_not_found"@,
                ),
                cors,
            ),
        )
    } else {
        match legs_for(cfg, model) {
            Some(names) => ChatView::Run(
                PlanView {
                    names,
                    route: None,
                    notes: dropped_notes(reqid, messages) + if is_known(cfg, model) {
                        Seq::empty()
                    } else {
                        seq![
                            (1u8, reqid + " unknown model '"@ + model + "' → default chain"@),
                        ]
                    },
                },
            ),
            None => ChatView::Answer(
                with_cors(
                    error_reply(
                        400,
                        no_default_text(cfg),
                        "invalid_request_error"@,
                        "bad_model"@,
                    ),
                    cors,
                ),
            ),
        }
    }
}

/// Copies of string slices.
fn own_all(v: &Vec<&str>) -> (r: Vec<String>)
    ensures
        views(r@) == str_views(v@),
{
    let mut out: Vec<String> = Vec::new();
    let mut i: usize = 0;
    while i < v.len()
        invariant
            i <= v@.len(),
            out@.len() == i,
            forall|k: int| 0 <= k < i ==> #[trigger] out@[k]@ == v@[k]@,
        decreases v@.len() - i,
    {
        out.push(v[i].to_owned());
        i = i + 1;
    }
    proof {
        assert(views(out@) =~= str_views(v@));
    }
    out
}

/// Decides what is done with a chat request.
pub fn handle_chat(req: &ChatRequest, state: &State, cors: &Cors, reqid: &str) -> (r: ChatPlan)
    ensures
        r@ == chat_plan(req.model@, req.messages@, *state, cors@, reqid@),
{
    let model = req.model.as_str();
    if req.messages.len() == 0 {
        return ChatPlan::Answer(
            apply_cors(
                respond_err(
                    400,
                    "messages must not be empty",
                    "invalid_request_error",
                    "missing_messages",
                ),
                cors,
            ),
        );
    }
    if state.cfg.routers.contains_key(model) {
        return ChatPlan::Classify(req.model.clone());
    }
    let known: bool = state.cfg.chains.contains_key(model) || state.cfg.backends.contains_key(
        model,
    );
    if !known && state.cfg.server.strict_models {
        let message = "unknown model '".to_owned().concat(model).concat(
            "' — list valid ids at GET /v1/models, or set strict_models = false to fall back to default_chain",
        );
        return ChatPlan::Answer(
            apply_cors(
                respond_err(404, message.as_str(), "invalid_request_error", "model_not_found"),
                cors,
            ),
        );
    }
    match resolve(model, &state.cfg) {
        Ok(names) => {
            let mut notes = note_dropped(reqid, req.messages.as_slice());
            if !known {
                note(
                    &mut notes,
                    1,
                    reqid.to_owned().concat(" unknown model '").concat(model).concat(
                        "' → default chain",
                    ),
                );
            }
            let plan = ChainPlan { names: own_all(&names), route: None, notes };
            proof {
                let extra: Seq<(u8, Seq<char>)> = if is_known(state.cfg, model@) {
                    Seq::empty()
                } else {
                    seq![
                        (1u8, reqid@ + " unknown model '"@ + model@ + "' → default chain"@),
                    ]
                };
                assert(plan@.notes =~= dropped_notes(reqid@, req.messages@) + extra);
            }
            ChatPlan::Run(plan)
        },
        Err(e) => ChatPlan::Answer(
            apply_cors(respond_err(400, e.as_str(), "invalid_request_error", "bad_model"), cors),
        ),
    }
}

/// Where a classified chat goes: to the target that its router has for the
/// class.
pub open spec fn routed_plan(
    cfg: Config,
    messages: Seq<ChatMessage>,
    router: Seq<char>,
    class: Seq<char>,
    classifier_ms: u64,
    reqid: Seq<char>,
) -> Result<PlanView, ReplyView> {
    let target = cfg.routers@[router].routes@[class]@;
    match legs_for(cfg, target) {
        Some(names) => Ok(
            PlanView {
                names,
                route: Some(class + "/"@ + target),
                notes: dropped_notes(reqid, messages).push(
                    (
                        2u8,
                        reqid + " route "@ + router + " class="@ + class + " target="@ + target
                            + " classifier_ms="@ + decimal(classifier_ms as nat),
                    ),
                ),
            },
        ),
        None => Err(error_reply(500, no_default_text(cfg), "server_error"@, "router_error"@)),
    }
}

/// Decides where a classified chat goes.
pub fn route_chat(
    req: &ChatRequest,
    state: &State,
    router: &str,
    class: &str,
    classifier_ms: u64,
    cors: &Cors,
    reqid: &str,
) -> (r: Result<ChainPlan, Reply>)
    requires
        state.cfg.routers@.dom().contains(router@),
        state.cfg.routers@[router@].routes@.dom().contains(class@),
    ensures
        match routed_plan(state.cfg, req.messages@, router@, class@, classifier_ms, reqid@) {
            Ok(p) => r matches Ok(plan) && plan@ == p,
            Err(e) => r matches Err(reply) && reply@ == with_cors(e, cors@),
        },
{
    let empty = String::new();
    let target: &str = match state.cfg.routers.get(router) {
        Some(rt) => match rt.routes.get(class) {
            Some(t) => t.as_str(),
            None => empty.as_str(),
        },
        None => empty.as_str(),
    };
    match resolve(target, &state.cfg) {
        Ok(names) => {
            let mut notes = note_dropped(reqid, req.messages.as_slice());
            note(
                &mut notes,
                2,
                reqid.to_owned().concat(" route ").concat(router).concat(" class=").concat(
                    class,
                ).concat(" target=").concat(target).concat(" classifier_ms=").concat(
                    decimal_text(classifier_ms as u128).as_str(),
                ),
            );
            let route = class.to_owned().concat("/").concat(target);
            let plan = ChainPlan { names: own_all(&names), route: Some(route), notes };
            Ok(plan)
        },
        Err(e) => Err(
            apply_cors(respond_err(500, e.as_str(), "server_error", "router_error"), cors),
        ),
    }
}

/// Where models are strict, a chat is refused for its model exactly where the
/// list of models does not hold it.
pub proof fn law_strict_models_are_the_listed_ones(
    model: Seq<char>,
    messages: Seq<ChatMessage>,
    state: State,
    cors: CorsView,
    reqid: Seq<char>,
)
    requires
        crate::config::config_is_sound(state.cfg),
        messages.len() > 0,
        state.cfg.server.strict_models,
    ensures
        super::model_ids(state.cfg).contains(model) <==> !(chat_plan(
            model,
            messages,
            state,
            cors,
            reqid,
        ) is Answer),
        chat_plan(model, messages, state, cors, reqid) matches ChatView::Answer(r) ==> r.status
            == 404,
{
    super::law_models_are_listed(state.cfg, model);
    crate::router::law_every_model_resolves(state.cfg, model);
}

/// In a sound configuration a chat always goes somewhere: no model is refused
/// for want of backends, and every backend that it goes to is defined.
pub proof fn law_sound_chats_are_run(
    model: Seq<char>,
    messages: Seq<ChatMessage>,
    state: State,
    cors: CorsView,
    reqid: Seq<char>,
)
    requires
        crate::config::config_is_sound(state.cfg),
        messages.len() > 0,
        !state.cfg.routers@.dom().contains(model),
        !state.cfg.server.strict_models || is_known(state.cfg, model),
    ensures
        chat_plan(model, messages, state, cors, reqid) matches ChatView::Run(p) && p.names.len() > 0
            && crate::config::all_backends(state.cfg, p.names) && p.route is None,
{
    crate::router::law_every_model_resolves(state.cfg, model);
}

/// In a sound configuration a classified chat always goes somewhere, whatever
/// the classifier said.
pub proof fn law_routed_chats_are_run(
    cfg: Config,
    messages: Seq<ChatMessage>,
    router: Seq<char>,
    reply: Seq<char>,
    classifier_ms: u64,
    reqid: Seq<char>,
)
    requires
        crate::config::config_is_sound(cfg),
        cfg.routers@.dom().contains(router),
    ensures
        ({
            let r = cfg.routers@[router];
            let class = class_of(reply, class_names(r.routes), r.fallback_class@);
            &&& r.routes@.dom().contains(class)
            &&& routed_plan(cfg, messages, router, class, classifier_ms, reqid) is Ok
            &&& routed_plan(cfg, messages, router, class, classifier_ms, reqid)->Ok_0.names.len() > 0
            &&& crate::config::all_backends(
                cfg,
                routed_plan(cfg, messages, router, class, classifier_ms, reqid)->Ok_0.names,
            )
        }),
{
    let r = cfg.routers@[router];
    let keys = class_names(r.routes);
    let class = class_of(reply, keys, r.fallback_class@);
    assert(crate::config::router_is_sound(cfg, router, r));
    law_class_is_known(reply, keys, r.fallback_class@);
    if keys.contains(class) {
        let i = choose|i: int| 0 <= i < keys.len() && keys[i] == class;
        assert(r.routes.pairs()[i].0 == class);
        assert(crate::names::has_key(r.routes.pairs(), class));
    }
    crate::router::law_every_route_resolves(cfg, router, class);
}

// ---------------------------------------------------------------------------
// Answers
// ---------------------------------------------------------------------------

/// A failed leg in short.
pub open spec fn short_error(e: ErrorView) -> Seq<char> {
    error_name(e) + " ("@ + error_class(e) + ")"@
}

/// Failed legs in short.
pub open spec fn short_errors(errors: Seq<ErrorView>) -> Seq<Seq<char>> {
    errors.map_values(|e: ErrorView| short_error(e))
}

/// Failed legs in full.
pub open spec fn full_errors(errors: Seq<ErrorView>) -> Seq<Seq<char>> {
    errors.map_values(|e: ErrorView| error_message(e))
}

/// The body of the answer where every leg failed: a summary for people, and
/// the details, which are shortened too where errors are to be redacted.
pub open spec fn failure_text(errors: Seq<ErrorView>, redact: bool) -> Seq<char> {
    detailed_error_text(
        "all backends failed: "@ + joined(short_errors(errors), ", "@),
        "server_error"@,
        Some("all_backends_failed"@),
        if redact {
            short_errors(errors)
        } else {
            full_errors(errors)
        },
    )
}

fn shorten(errors: &Vec<BackendError>) -> (r: Vec<String>)
    ensures
        views(r@) == short_errors(error_views(errors@)),
{
    let mut out: Vec<String> = Vec::new();
    let mut i: usize = 0;
    while i < errors.len()
        invariant
            i <= errors@.len(),
            out@.len() == i,
            forall|k: int| 0 <= k < i ==> #[trigger] out@[k]@ == short_error(errors@[k]@),
        decreases errors@.len() - i,
    {
        out.push(
            errors[i].backend_name().to_owned().concat(" (").concat(errors[i].class()).concat(")"),
        );
        i = i + 1;
    }
    proof {
        assert(views(out@) =~= short_errors(error_views(errors@)));
    }
    out
}

fn spell_out(errors: &Vec<BackendError>) -> (r: Vec<String>)
    ensures
        views(r@) == full_errors(error_views(errors@)),
{
    let mut out: Vec<String> = Vec::new();
    let mut i: usize = 0;
    while i < errors.len()
        invariant
            i <= errors@.len(),
            out@.len() == i,
            forall|k: int| 0 <= k < i ==> #[trigger] out@[k]@ == error_message(errors@[k]@),
        decreases errors@.len() - i,
    {
        out.push(errors[i].to_string());
        i = i + 1;
    }
    proof {
        assert(views(out@) =~= full_errors(error_views(errors@)));
    }
    out
}

/// Writes the body of the answer where every leg failed.
pub fn build_503_body(errors: &Vec<BackendError>, redact: bool) -> (r: String)
    ensures
        r@ == failure_text(error_views(errors@), redact),
{
    let short = shorten(errors);
    let message = "all backends failed: ".to_owned().concat(join_texts(&short, ", ").as_str());
    let details = if redact {
        short
    } else {
        spell_out(errors)
    };
    ErrorEnvelope::with_details(
        message.as_str(),
        "server_error",
        Some("all_backends_failed"),
        details,
    ).to_json()
}

/// With errors redacted, what is told of a leg is its name and the kind of its
/// error: two runs that failed alike are answered alike, whatever the errors
/// said.
pub proof fn law_redacted_errors_tell_no_details(a: Seq<ErrorView>, b: Seq<ErrorView>)
    requires
        a.len() == b.len(),
        forall|i: int|
            0 <= i < a.len() ==> error_name(#[trigger] a[i]) == error_name(b[i]) && error_class(a[i])
                == error_class(b[i]),
    ensures
        failure_text(a, true) == failure_text(b, true),
{
    assert(short_errors(a) =~= short_errors(b));
}

/// An answer with the name of the backend that gave it, or the errors of all
/// legs.
pub type ChatOutcome = Result<(String, DispatchResult), Vec<BackendError>>;

/// An outcome as a value of the model.
pub open spec fn chat_outcome_view(r: ChatOutcome) -> Result<
    (Seq<char>, DispatchView),
    Seq<ErrorView>,
> {
    match r {
        Ok((winner, d)) => Ok((winner@, d@)),
        Err(errors) => Err(error_views(errors@)),
    }
}

/// The id of a completion.
pub open spec fn completion_id(label: Seq<char>) -> Seq<char> {
    "chatcmpl-"@ + label
}

/// The header line that says how a router sent a chat.
pub open spec fn route_header(route: Option<Seq<char>>, winner: Seq<char>) -> Seq<
    (Seq<char>, Seq<char>),
> {
    match route {
        Some(r) => seq![("x-tmuxlet-route"@, r + "/"@ + winner)],
        None => Seq::empty(),
    }
}

/// The answer with a completion, and which way a router sent the chat to which
/// backend.
pub open spec fn completion_reply(
    d: DispatchView,
    route: Option<Seq<char>>,
    winner: Seq<char>,
    created: u64,
) -> ReplyView {
    ReplyView {
        status: 200,
        headers: seq![("Content-Type"@, "application/json"@)] + route_header(route, winner),
        body: answer_text(completion_id(d.model_label), d.model_label, d.content, created),
    }
}

/// Answers a chat that is not streamed: with the completion, and which way a
/// router sent it to which backend; or with the errors of all legs.
pub fn finish_chat(
    outcome: ChatOutcome,
    route: &Option<String>,
    redact: bool,
    unix_now: u64,
    cors: &Cors,
) -> (r: Reply)
    ensures
        match chat_outcome_view(outcome) {
            Ok((winner, d)) => r@ == with_cors(
                completion_reply(d, opt_view(*route), winner, unix_now),
                cors@,
            ),
            Err(errors) => r@ == with_cors(json_reply(503, failure_text(errors, redact)), cors@),
        },
{
    match outcome {
        Ok((winner, result)) => {
            let id = "chatcmpl-".to_owned().concat(result.model_label.as_str());
            let completion = build_completion(id, result.model_label, result.content, unix_now);
            let body = completion.to_json();
            let mut headers: Vec<(String, String)> = Vec::new();
            header(&mut headers, "Content-Type", "application/json");
            proof {
                assert(header_texts(headers@) =~= seq![("Content-Type"@, "application/json"@)]);
            }
            let ghost first = header_texts(headers@);
            if let Some(label) = route {
                let value = label.clone().concat("/").concat(winner.as_str());
                header(&mut headers, "x-tmuxlet-route", value.as_str());
            }
            proof {
                assert(header_texts(headers@) =~= first + route_header(opt_view(*route), winner@));
            }
            apply_cors(Reply { status: 200, headers, body }, cors)
        },
        Err(errors) => apply_cors(respond_json(503, build_503_body(&errors, redact)), cors),
    }
}

/// How a chat ended, in a word.
pub open spec fn status_word(answered: bool, failed_legs: nat) -> Seq<char> {
    if !answered {
        "fail"@
    } else if failed_legs > 0 {
        "fallback"@
    } else {
        "ok"@
    }
}

/// What is logged of a chat at its end.
pub open spec fn closing_text(
    reqid: Seq<char>,
    model: Seq<char>,
    route: Option<Seq<char>>,
    elapsed_ms: u64,
    winner: Option<Seq<char>>,
    failed_legs: nat,
) -> Seq<char> {
    reqid + " model="@ + model + " route="@ + or_dash(route) + " elapsed_ms="@ + decimal(
        elapsed_ms as nat,
    ) + " backend="@ + or_dash(winner) + " status="@ + status_word(winner is Some, failed_legs)
}

/// A text, or a dash where there is none.
pub open spec fn or_dash(o: Option<Seq<char>>) -> Seq<char> {
    match o {
        Some(s) => s,
        None => "-"@,
    }
}

fn text_or_dash<'a>(o: &'a Option<String>) -> (r: &'a str)
    ensures
        r@ == or_dash(opt_view(*o)),
{
    match o {
        Some(s) => s.as_str(),
        None => "-",
    }
}

/// Writes what is logged of a chat at its end.
pub fn closing_line(
    reqid: &str,
    model: &str,
    route: &Option<String>,
    elapsed_ms: u64,
    winner: &Option<String>,
    failed_legs: usize,
) -> (r: String)
    ensures
        r@ == closing_text(
            reqid@,
            model@,
            opt_view(*route),
            elapsed_ms,
            opt_view(*winner),
            failed_legs as nat,
        ),
{
    let status: &str = if winner.is_none() {
        "fail"
    } else if failed_legs > 0 {
        "fallback"
    } else {
        "ok"
    };
    reqid.to_owned().concat(" model=").concat(model).concat(" route=").concat(
        text_or_dash(route),
    ).concat(" elapsed_ms=").concat(decimal_text(elapsed_ms as u128).as_str()).concat(
        " backend=",
    ).concat(text_or_dash(winner)).concat(" status=").concat(status)
}

// ---------------------------------------------------------------------------
// Streams
// ---------------------------------------------------------------------------

/// The header lines of a streamed answer. They go out before any backend is
/// run, so that only the route is known.
pub open spec fn stream_header_texts(route: Option<Seq<char>>, cors: CorsView) -> Seq<
    (Seq<char>, Seq<char>),
> {
    let base = seq![
        ("Content-Type"@, "text/event-stream"@),
        ("Cache-Control"@, "no-cache"@),
    ];
    let routed = match route {
        Some(r) => base.push(("x-tmuxlet-route"@, r)),
        None => base,
    };
    routed + cors_headers(cors)
}

/// The header lines of a streamed answer.
pub fn stream_headers(route: &Option<String>, cors: &Cors) -> (r: Vec<(String, String)>)
    ensures
        header_texts(r@) == stream_header_texts(opt_view(*route), cors@),
{
    let mut headers: Vec<(String, String)> = Vec::new();
    header(&mut headers, "Content-Type", "text/event-stream");
    header(&mut headers, "Cache-Control", "no-cache");
    proof {
        assert(header_texts(headers@) =~= seq![
            ("Content-Type"@, "text/event-stream"@),
            ("Cache-Control"@, "no-cache"@),
        ]);
    }
    if let Some(label) = route {
        header(&mut headers, "x-tmuxlet-route", label.as_str());
    }
    add_cors(&mut headers, cors);
    headers
}

/// After how many seconds without a result a stream is kept open.
pub const KEEPALIVE_SECS: u64 = 15;

/// What happened while a streamed chat was being run.
pub enum StreamEvent {
    /// Nothing, for as long as a stream may be silent.
    Quiet,
    /// The chain came to an end.
    Ended(Result<DispatchResult, Vec<BackendError>>),
    /// The chain's run was lost without a result.
    Lost,
}

/// What is sent next on a stream.
pub struct StreamStep {
    pub frames: Vec<String>,
    /// Whether the stream ends with it.
    pub last: bool,
}

/// The errors that a lost run counts as.
pub open spec fn lost_errors() -> Seq<ErrorView> {
    seq![ErrorView::Backend("server"@, "dispatch panicked"@)]
}

/// The frames of a failure: its body, which is that of the answer that is not
/// streamed, and the mark that the stream is done.
pub open spec fn failure_frames(errors: Seq<ErrorView>, redact: bool) -> Seq<Seq<char>> {
    seq![event_text(failure_text(errors, redact)), done_text()]
}

/// The frames that are sent next: while nothing happens a comment that keeps
/// the connection open; at the end the answer or the failure.
pub open spec fn next_frames(event: StreamEvent, redact: bool, unix_now: u64) -> Seq<Seq<char>> {
    match event {
        StreamEvent::Quiet => seq![": keepalive\n\n"@],
        StreamEvent::Ended(r) => match r {
            Ok(d) => stream_events(
                completion_id(d.model_label@),
                d.model_label@,
                d.content@,
                unix_now,
            ),
            Err(errors) => failure_frames(error_views(errors@), redact),
        },
        StreamEvent::Lost => failure_frames(lost_errors(), redact),
    }
}

fn write_failure(errors: &Vec<BackendError>, redact: bool) -> (r: Vec<String>)
    ensures
        views(r@) == failure_frames(error_views(errors@), redact),
{
    let mut frames: Vec<String> = Vec::new();
    frames.push(
        "data: ".to_owned().concat(build_503_body(errors, redact).as_str()).concat("\n\n"),
    );
    frames.push("data: [DONE]\n\n".to_owned());
    proof {
        assert(views(frames@) =~= failure_frames(error_views(errors@), redact));
    }
    frames
}

/// Decides what is sent next on a stream.
pub fn stream_with_keepalive(event: StreamEvent, redact: bool, unix_now: u64) -> (r: StreamStep)
    ensures
        views(r.frames@) == next_frames(event, redact, unix_now),
        r.last == !(event is Quiet),
{
    match event {
        StreamEvent::Quiet => {
            let mut frames: Vec<String> = Vec::new();
            frames.push(": keepalive\n\n".to_owned());
            proof {
                assert(views(frames@) =~= seq![": keepalive\n\n"@]);
            }
            StreamStep { frames, last: false }
        },
        StreamEvent::Ended(Ok(d)) => {
            let id = "chatcmpl-".to_owned().concat(d.model_label.as_str());
            let frames = stream_frames(
                id.as_str(),
                d.model_label.as_str(),
                d.content.as_str(),
                unix_now,
            );
            StreamStep { frames, last: true }
        },
        StreamEvent::Ended(Err(errors)) => {
            StreamStep { frames: write_failure(&errors, redact), last: true }
        },
        StreamEvent::Lost => {
            let mut errors: Vec<BackendError> = Vec::new();
            errors.push(
                BackendError::Backend("server".to_owned(), "dispatch panicked".to_owned()),
            );
            proof {
                assert(error_views(errors@) =~= lost_errors());
            }
            StreamStep { frames: write_failure(&errors, redact), last: true }
        },
    }
}

/// A stream that ends, ends with the mark that it is done, whether an answer
/// came, every leg failed, or the run was lost.
pub proof fn law_every_stream_is_closed(event: StreamEvent, redact: bool, unix_now: u64)
    requires
        !(event is Quiet),
    ensures
        next_frames(event, redact, unix_now).len() > 1,
        next_frames(event, redact, unix_now).last() == done_text(),
{
}

/// The body of a streamed answer while it is being sent: the piece that is
/// being read, and how much of it has been.
pub struct ChannelSseBody {
    pub current: Vec<u8>,
    pub pos: usize,
}

impl ChannelSseBody {
    /// The place is within the piece.
    pub open spec fn wf(&self) -> bool {
        self.pos <= self.current@.len()
    }

    /// What is left to be read of the piece.
    pub open spec fn rest(&self) -> Seq<u8> {
        self.current@.skip(self.pos as int)
    }

    /// A body before its first piece.
    pub fn new() -> (r: ChannelSseBody)
        ensures
            r.current@ == Seq::<u8>::empty(),
            r.pos == 0,
            r.wf(),
            r.rest() == Seq::<u8>::empty(),
    {
        let r = ChannelSseBody { current: Vec::new(), pos: 0 };
        proof {
            assert(r.rest() =~= Seq::<u8>::empty());
        }
        r
    }

    /// Takes in the next piece, once the one before has been read.
    pub fn refill(&mut self, chunk: Vec<u8>)
        requires
            old(self).rest().len() == 0,
        ensures
            final(self).wf(),
            final(self).rest() == chunk@,
    {
        self.current = chunk;
        self.pos = 0;
        proof {
            assert(self.rest() =~= chunk@);
        }
    }

    /// Reads up to `max` bytes of the piece; `None` where nothing is left of
    /// it and the next one is needed.
    pub fn read(&mut self, max: usize) -> (r: Option<Vec<u8>>)
        requires
            old(self).wf(),
        ensures
            final(self).wf(),
            match r {
                Some(bytes) => {
                    &&& old(self).rest().len() > 0
                    &&& bytes@.len() == if old(self).rest().len() < max {
                        old(self).rest().len()
                    } else {
                        max as nat
                    }
                    &&& bytes@ + final(self).rest() == old(self).rest()
                },
                None => old(self).rest().len() == 0 && *final(self) == *old(self),
            },
    {
        let len: usize = self.current.len();
        if self.pos >= len {
            return None;
        }
        let left: usize = len - self.pos;
        let n: usize = if left < max {
            left
        } else {
            max
        };
        let end: usize = self.pos + n;
        let mut bytes: Vec<u8> = Vec::new();
        bytes.extend_from_slice(
            vstd::slice::slice_subrange(self.current.as_slice(), self.pos, end),
        );
        let ghost before = self.rest();
        proof {
            assert(bytes@ =~= self.current@.subrange(self.pos as int, end as int));
        }
        self.pos = end;
        proof {
            assert(bytes@ + self.rest() =~= before);
        }
        Some(bytes)
    }
}

/// What is still to come of a body: the rest of the piece that is being read,
/// and the pieces behind it.
pub open spec fn still_to_come(rest: Seq<u8>, pieces: Seq<Seq<u8>>) -> Seq<u8> {
    rest + pieces.flatten()
}

/// Neither a read nor taking in the next piece loses, repeats or reorders
/// anything: what was read and what is still to come are together what was to
/// come before.
pub proof fn law_body_is_read_in_order(
    before: Seq<u8>,
    read: Seq<u8>,
    after: Seq<u8>,
    pieces: Seq<Seq<u8>>,
)
    requires
        read + after == before,
    ensures
        still_to_come(before, pieces) == read + still_to_come(after, pieces),
        pieces.len() > 0 ==> still_to_come(Seq::empty(), pieces) == still_to_come(
            pieces[0],
            pieces.drop_first(),
        ),
{
    assert(before + pieces.flatten() =~= read + (after + pieces.flatten()));
    if pieces.len() > 0 {
        assert(pieces.flatten() == pieces[0] + pieces.drop_first().flatten());
        assert(Seq::<u8>::empty() + pieces.flatten() =~= pieces[0]
            + pieces.drop_first().flatten());
    }
}

} // verus!
