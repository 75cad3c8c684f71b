//! Laws on runs: how a chain goes on from call to call, what is remembered of
//! its backends, and what the one who asked is given.

use vstd::prelude::*;

use crate::backend::{ApiBackend, Backend, BackendError, DispatchResult};
use crate::config::{Router, Server};
use crate::http::chain::{
    all_run, error_views, leg_done, next_leg, start_chain, ChainRun, Leg, LegEnd,
};
use crate::http::chat::{
    class_names, classifier_text, classify_task, finish_chat, single_message, stream_with_keepalive,
    tail, ChannelSseBody, Classify, StreamEvent, StreamStep,
};
use crate::http::health::{
    health_map, record_failure, record_success, ActiveSlot, BackendHealth,
};
use crate::http::{check_body, Cors, Reply, State};
use crate::laws::chain::{
    law_default_timeout_counts, law_legs_are_passed_over_for_a_reason, law_own_timeout_counts,
};
use crate::names::NameMap;
use crate::openai::answer_text;
use crate::text::{opt_view, trim, views};

verus! {

// ---------------------------------------------------------------------------
// Running a chain
// ---------------------------------------------------------------------------

/// A run begins with its first leg, no errors, and the budget that is
/// configured; a leg cools for what is left of its cooldown.
pub proof fn law_runs_begin(
    state: State,
    health: &NameMap<BackendHealth>,
    names: Vec<String>,
    now: u64,
    reqid: &str,
    r: ChainRun,
    i: int,
)
    requires
        call_ensures(start_chain, (&state, health, names, now, reqid), r),
        all_run(state, views(names@)),
    ensures
        r.names == names,
        r.next == 0,
        r.errors@.len() == 0,
        r.reqid@ == reqid@,
        state.cfg.server.chain_budget_secs is None ==> r.deadline is None,
        state.cfg.server.chain_budget_secs matches Some(b) ==> (r.deadline matches Some(d) && d
            == now + b * 1_000_000_000),
        r.cooling@.len() == names@.len(),
        0 <= i < names@.len() ==> ({
            let name = names@[i]@;
            let until = health@[name].cooling_until;
            &&& !state.cfg.server.cooldown ==> r.cooling@[i] is None
            &&& !health@.dom().contains(name) ==> r.cooling@[i] is None
            &&& health@.dom().contains(name) && until is None ==> r.cooling@[i] is None
            &&& state.cfg.server.cooldown && health@.dom().contains(name) ==> (until matches Some(u)
                ==> if u >= now {
                r.cooling@[i] == Some((u - now) as u128)
            } else {
                r.cooling@[i] is None
            })
        }),
{
    if let Some(b) = state.cfg.server.chain_budget_secs {
        crate::laws::chain::law_budgets_end_in_time(b, now);
    }
    let v = views(names@);
    let f = |n: Seq<char>|
        crate::http::chain::cooling_time(
            state.cfg.server.cooldown,
            health_map(health@),
            n,
            now,
        );
    assert(v.map_values(f).len() == names@.len());
    if 0 <= i < names@.len() {
        assert(v[i] == names@[i]@);
        assert(v.map_values(f)[i] == f(v[i]));
    }
}

/// A leg that is run is the next one, by its backend's own timeout where it has
/// one, else by the server's, and never past the budget; and the run stays as
/// it is until the leg is done.
pub proof fn law_legs_are_run_in_time(
    run: &mut ChainRun,
    state: State,
    active: &mut NameMap<usize>,
    now: u64,
    r: Leg,
    a: ApiBackend,
    secs: u64,
)
    requires
        call_ensures(next_leg, (run, &state, active, now), r),
        old(run).wf(state),
        r is Run,
    ensures
        old(run).next < old(run).names@.len(),
        *final(run) == *old(run),
        ({
            let name = old(run).names@[old(run).next as int]@;
            let own = match state.backends@[name] {
                Backend::Api(b) => b.timeout,
                _ => None,
            };
            let full: int = match own {
                Some(s) => s * 1_000_000_000,
                None => state.cfg.server.request_timeout_secs * 1_000_000_000,
            };
            let call = r->Run_0;
            &&& call.name@ == name
            &&& old(run).deadline is None ==> call.timeout == full
            &&& old(run).deadline matches Some(d) ==> d > now && (full <= d - now ==> call.timeout
                == full) && (full > d - now ==> call.timeout == d - now)
        }),
{
    let name = old(run).names@[old(run).next as int]@;
    if old(run).next < old(run).names@.len() {
        match state.backends@[name] {
            Backend::Api(b) => {
                if let Some(s) = b.timeout {
                    law_own_timeout_counts(*old(run), state, old(active)@, now, b, s);
                } else {
                    law_default_timeout_counts(*old(run), state, old(active)@, now);
                }
            },
            _ => {
                law_default_timeout_counts(*old(run), state, old(active)@, now);
            },
        }
    }
}

/// A run is exhausted exactly once every leg is done with; a leg that is passed
/// over is done with, and gave an error.
pub proof fn law_runs_go_on(
    run: &mut ChainRun,
    state: State,
    active: &mut NameMap<usize>,
    now: u64,
    r: Leg,
    i: int,
)
    requires
        call_ensures(next_leg, (run, &state, active, now), r),
        old(run).wf(state),
    ensures
        r is Exhausted <==> old(run).next == old(run).names@.len(),
        final(run).names == old(run).names,
        final(run).cooling == old(run).cooling,
        final(run).deadline == old(run).deadline,
        final(run).reqid == old(run).reqid,
        r is Skipped <==> final(run).next == old(run).next + 1,
        r is Skipped ==> final(run).errors@.len() == old(run).errors@.len() + 1,
        !(r is Skipped) ==> *final(run) == *old(run),
        r is Skipped && 0 <= i < old(run).errors@.len() ==> final(run).errors@[i]@ == old(
            run,
        ).errors@[i]@,
        old(run).next < old(run).names@.len() && old(run).deadline is Some && old(run).deadline->0
            <= now ==> r is Skipped,
        old(run).next < old(run).names@.len() && old(run).deadline is None && (forall|k: int|
            0 <= k < old(run).cooling@.len() ==> (#[trigger] old(run).cooling@[k]) is None) && (
        match state.backends@[old(run).names@[old(run).next as int]@] {
            Backend::Tmuxlet(t) => t.max_concurrent is None,
            Backend::Api(a) => a.max_concurrent is None,
            Backend::Cli(c) => c.max_concurrent is None,
        }) ==> r is Run && final(active)@ == old(active)@,
{
    if old(run).next < old(run).names@.len() {
        law_legs_are_passed_over_for_a_reason(*old(run), state, old(active)@, now);
        assert(error_views(final(run).errors@).len() == final(run).errors@.len());
        assert(error_views(old(run).errors@).len() == old(run).errors@.len());
        if r is Skipped && 0 <= i < old(run).errors@.len() {
            assert(error_views(final(run).errors@)[i] == error_views(old(run).errors@)[i]);
            assert(error_views(final(run).errors@)[i] == final(run).errors@[i]@);
            assert(error_views(old(run).errors@)[i] == old(run).errors@[i]@);
        }
    }
}

/// A leg's answer that is more than white space is the run's answer, as it is,
/// and its backend is well.
pub proof fn law_answers_end_a_run(
    run: &mut ChainRun,
    state: State,
    health: &mut NameMap<BackendHealth>,
    d: DispatchResult,
    ms: u64,
    now: u64,
    r: LegEnd,
)
    requires
        call_ensures(leg_done, (run, &state, health, Ok(d), ms, now), r),
        old(run).wf(state),
        old(run).next < old(run).names@.len(),
        trim(d.content@).len() > 0,
    ensures
        r.answer matches Some(x) && x.content@ == d.content@ && x.model_label@ == d.model_label@,
        *final(run) == *old(run),
        ({
            let name = old(run).names@[old(run).next as int]@;
            let h = final(health)@[name];
            &&& final(health)@.dom() == old(health)@.dom().insert(name)
            &&& h.consecutive_failures == 0
            &&& h.cooling_until is None
            &&& h.last_error is None
            &&& h.last_latency_ms == Some(ms)
        }),
{
    let name = old(run).names@[old(run).next as int]@;
    let after = health_map(final(health)@);
    assert(after.dom() =~= final(health)@.dom());
    assert(health_map(old(health)@).dom() =~= old(health)@.dom());
    assert(after.dom().contains(name));
    assert(after[name] == final(health)@[name]@);
}

/// A leg that failed is done with, and its error is kept behind the others.
pub proof fn law_failures_go_on_to_the_next_leg(
    run: &mut ChainRun,
    state: State,
    health: &mut NameMap<BackendHealth>,
    e: BackendError,
    ms: u64,
    now: u64,
    r: LegEnd,
    other: Seq<char>,
)
    requires
        call_ensures(leg_done, (run, &state, health, Err(e), ms, now), r),
        old(run).wf(state),
        old(run).next < old(run).names@.len(),
    ensures
        r.answer is None,
        final(run).next == old(run).next + 1,
        final(run).names == old(run).names,
        final(run).deadline == old(run).deadline,
        final(run).cooling == old(run).cooling,
        error_views(final(run).errors@) == error_views(old(run).errors@).push(e@),
        ({
            let name = old(run).names@[old(run).next as int]@;
            let h = final(health)@[name];
            &&& final(health)@.dom() == old(health)@.dom().insert(name)
            &&& h.last_latency_ms == Some(ms)
            &&& h.last_error is Some
            &&& h.consecutive_failures > 0
            &&& state.cfg.server.cooldown ==> h.cooling_until is Some && h.cooling_until->0 >= now
            &&& other != name && old(health)@.dom().contains(other) ==> final(health)@[other]@
                == old(health)@[other]@
        }),
{
    let name = old(run).names@[old(run).next as int]@;
    let after = health_map(final(health)@);
    let before = health_map(old(health)@);
    assert(after.dom() =~= final(health)@.dom());
    assert(before.dom() =~= old(health)@.dom());
    assert(after.dom().contains(name));
    assert(after[name] == final(health)@[name]@);
    crate::laws::health::law_failures_are_counted(
        crate::http::health::health_of(before, name),
        state.cfg.server,
        name,
        e@,
        ms,
        now,
    );
    if other != name && old(health)@.dom().contains(other) {
        assert(after.dom().contains(other));
        assert(after[other] == before[other]);
        assert(after[other] == final(health)@[other]@);
    }
}

// ---------------------------------------------------------------------------
// What is remembered
// ---------------------------------------------------------------------------

/// A slot is given exactly while fewer dispatches run than may, and counts as
/// one more; other backends' counts stay as they are.
pub proof fn law_slots_are_counted(
    active: &mut NameMap<usize>,
    name: &str,
    max: usize,
    r: Option<ActiveSlot>,
    other: Seq<char>,
)
    requires
        call_ensures(ActiveSlot::try_acquire, (active, name, max), r),
        other != name@,
    ensures
        ({
            let was: nat = if old(active)@.dom().contains(name@) {
                old(active)@[name@] as nat
            } else {
                0
            };
            &&& r is Some <==> was < max
            &&& final(active)@.dom().contains(name@)
            &&& r matches Some(s) ==> s.name@ == name@ && final(active)@[name@] == was + 1
            &&& r is None ==> final(active)@[name@] == was
        }),
        final(active)@.dom().contains(other) <==> old(active)@.dom().contains(other),
        old(active)@.dom().contains(other) ==> final(active)@[other] == old(active)@[other],
{
}

/// A slot that is given back counts one less.
pub proof fn law_slots_are_given_back(
    slot: ActiveSlot,
    active: &mut NameMap<usize>,
    other: Seq<char>,
)
    requires
        call_ensures(ActiveSlot::release, (slot, active), ()),
        other != slot.name@,
    ensures
        old(active)@.dom().contains(slot.name@) && old(active)@[slot.name@] > 0
            ==> final(active)@[slot.name@] == old(active)@[slot.name@] - 1,
        final(active)@.dom() == old(active)@.dom(),
        old(active)@.dom().contains(other) ==> final(active)@[other] == old(active)@[other],
{
    assert(final(active)@.dom() =~= old(active)@.dom());
}

/// A success makes a backend well, and says nothing of the others.
pub proof fn law_successes_are_remembered(
    health: &mut NameMap<BackendHealth>,
    name: &str,
    ms: u64,
    other: Seq<char>,
)
    requires
        call_ensures(record_success, (health, name, ms), ()),
        other != name@,
    ensures
        final(health)@.dom() == old(health)@.dom().insert(name@),
        final(health)@[name@].consecutive_failures == 0,
        final(health)@[name@].cooling_until is None,
        final(health)@[name@].last_error is None,
        final(health)@[name@].last_latency_ms == Some(ms),
        old(health)@.dom().contains(other) ==> final(health)@[other]@ == old(health)@[other]@,
{
    let after = health_map(final(health)@);
    let before = health_map(old(health)@);
    assert(after.dom() =~= final(health)@.dom());
    assert(before.dom() =~= old(health)@.dom());
    assert(after.dom().contains(name@));
    assert(after[name@] == final(health)@[name@]@);
    if old(health)@.dom().contains(other) {
        assert(after.dom().contains(other));
        assert(after[other] == before[other]);
    }
}

/// A failure counts one more and says why; where cooldowns are on the backend is
/// passed over from now on, and a note says so.
pub proof fn law_failures_are_remembered(
    health: &mut NameMap<BackendHealth>,
    server: Server,
    name: &str,
    e: BackendError,
    ms: u64,
    now: u64,
    r: Option<String>,
)
    requires
        call_ensures(record_failure, (health, &server, name, &e, ms, now), r),
        old(health)@.dom().contains(name@),
        old(health)@[name@].consecutive_failures < u32::MAX,
    ensures
        ({
            let was = old(health)@[name@];
            let h = final(health)@[name@];
            &&& h.consecutive_failures == was.consecutive_failures + 1
            &&& opt_view(h.last_error) == Some(crate::backend::error_message(e@))
            &&& h.last_latency_ms == Some(ms)
            &&& !server.cooldown ==> h.cooling_until == was.cooling_until && r is None
            &&& server.cooldown ==> r is Some && (h.cooling_until matches Some(u) && u >= now)
            &&& server.cooldown && !(e is Timeout) && !(e is Spawn) ==> h.cooling_until == Some(
                (now + server.cooldown_secs * 1_000_000_000) as u128,
            )
        }),
{
    let after = health_map(final(health)@);
    let before = health_map(old(health)@);
    assert(after.dom() =~= final(health)@.dom());
    assert(before.dom().contains(name@));
    assert(after.dom().contains(name@));
    assert(after[name@] == final(health)@[name@]@);
    assert(before[name@] == old(health)@[name@]@);
    crate::laws::health::law_failures_are_counted(before[name@], server, name@, e@, ms, now);
}

// ---------------------------------------------------------------------------
// Asking and answering
// ---------------------------------------------------------------------------

/// A classifier without a limit is asked with the end of the task and the names
/// of the classes; one that cannot be run is not asked.
pub proof fn law_tasks_are_classified(
    state: State,
    router: Router,
    task: &str,
    active: &mut NameMap<usize>,
    r: Classify,
)
    requires
        call_ensures(classify_task, (&state, &router, task, active), r),
    ensures
        !state.backends@.dom().contains(router.classifier@) ==> (r matches Classify::Fallback(c)
            && c@ == router.fallback_class@),
        r matches Classify::Fallback(c) ==> c@ == router.fallback_class@,
        r matches Classify::Ask(c) ==> {
            &&& c.name@ == router.classifier@
            &&& c.timeout_secs == router.classifier_timeout_secs
            &&& c.prompt@ == classifier_text(
                opt_view(router.classifier_prompt),
                class_names(router.routes),
                tail(task@, router.classifier_max_chars as nat),
            )
            &&& c.raw@ == single_message(c.prompt@)
        },
        state.backends@.dom().contains(router.classifier@) && (
        match state.backends@[router.classifier@] {
            Backend::Tmuxlet(t) => t.max_concurrent is None,
            Backend::Api(a) => a.max_concurrent is None,
            Backend::Cli(c) => c.max_concurrent is None,
        }) ==> r is Ask && final(active)@ == old(active)@,
{
}

/// An answer is given with status 200 and in full; where nobody answered the
/// status is 503.
pub proof fn law_chats_are_answered(
    winner: String,
    d: DispatchResult,
    errors: Vec<BackendError>,
    route: &Option<String>,
    redact: bool,
    now: u64,
    cors: &Cors,
    given: Reply,
    failed: Reply,
)
    requires
        call_ensures(finish_chat, (Ok((winner, d)), route, redact, now, cors), given),
        call_ensures(finish_chat, (Err(errors), route, redact, now, cors), failed),
    ensures
        given.status == 200,
        given.body@ == answer_text(
            "chatcmpl-"@ + d.model_label@,
            d.model_label@,
            d.content@,
            now,
        ),
        failed.status == 503,
        failed.body@ == crate::http::chat::failure_text(error_views(errors@), redact),
{
    assert(given@.status == given.status && given@.body == given.body@);
    assert(failed@.status == failed.status && failed@.body == failed.body@);
}

/// A stream ends with what ended it, and not while nothing comes.
pub proof fn law_streams_end_once(event: StreamEvent, redact: bool, now: u64, r: StreamStep)
    requires
        call_ensures(stream_with_keepalive, (event, redact, now), r),
    ensures
        r.last <==> !(event is Quiet),
        event is Quiet ==> r.frames@.len() == 1 && r.frames@[0]@ == ": keepalive\n\n"@,
        !(event is Quiet) ==> r.frames@.len() > 1 && r.frames@.last()@ == "data: [DONE]\n\n"@,
{
    let v = views(r.frames@);
    assert(v.len() == r.frames@.len());
    if event is Quiet {
        assert(v[0] == r.frames@[0]@);
    } else {
        crate::http::chat::law_every_stream_is_closed(event, redact, now);
        assert(v.last() == r.frames@.last()@);
    }
}

/// What is read of a piece is its beginning, as much as was asked for, and the
/// rest stays.
pub proof fn law_pieces_are_read_in_order(
    body: &mut ChannelSseBody,
    max: usize,
    r: Option<Vec<u8>>,
)
    requires
        call_ensures(ChannelSseBody::read, (body, max), r),
        old(body).wf(),
    ensures
        old(body).rest().len() == 0 ==> r is None && *final(body) == *old(body),
        old(body).rest().len() > 0 ==> r is Some,
        r matches Some(b) ==> b@ + final(body).rest() == old(body).rest(),
        r matches Some(b) ==> b@.len() <= max && (b@.len() == max || final(body).rest().len() == 0),
{
    if let Some(b) = r {
        assert((b@ + final(body).rest()).len() == b@.len() + final(body).rest().len());
    }
}

/// A new piece is read once the one before it is used up.
pub proof fn law_pieces_follow_each_other(body: &mut ChannelSseBody, chunk: Vec<u8>)
    requires
        call_ensures(ChannelSseBody::refill, (body, chunk), ()),
        old(body).rest().len() == 0,
    ensures
        final(body).rest() == chunk@,
{
}

/// A body is refused exactly where it cannot be read or is too large.
pub proof fn law_bodies_are_checked(readable: bool, len: u64, cors: &Cors, r: Option<Reply>)
    requires
        call_ensures(check_body, (readable, len, cors), r),
    ensures
        r is None <==> readable && len <= 16777216,
        r matches Some(x) ==> (readable ==> x.status == 413) && (!readable ==> x.status == 400),
{
    if let Some(x) = r {
        assert(x@.status == x.status);
    }
}

} // verus!
