//! Laws on running a chain: which legs are run, for how long, and what is made
//! of what they answer.

use vstd::prelude::*;

use crate::backend::{
    error_message, ApiBackend, Backend, BackendError, DispatchResult, DispatchView, ErrorView,
};
use crate::http::chain::{
    answer_bytes, answer_view, chain_outcome, cooling_time, deadline_of, error_views, leg_notes,
    next_decision, note_views, skip_error, skip_note, verdict, within_limits, ChainRun, LegView,
    Note,
};
use crate::http::health::{count_of, HealthView};
use crate::http::State;
use crate::text::{decimal, trim};

verus! {

/// A backend with a timeout of its own is given that, whatever the default is,
/// and never longer than what is left of the budget.
pub proof fn law_own_timeout_counts(
    run: ChainRun,
    state: State,
    active: Map<Seq<char>, usize>,
    now: u64,
    a: ApiBackend,
    secs: u64,
)
    requires
        state.backends@[run.names@[run.next as int]@] == Backend::Api(a),
        a.timeout == Some(secs),
        next_decision(run, state, active, now) is Run,
    ensures
        run.deadline is None ==> next_decision(run, state, active, now) == LegView::Run(
            secs as nat * 1_000_000_000,
        ),
        run.deadline matches Some(d) ==> d > now && (if secs * 1_000_000_000 <= d - now {
            next_decision(run, state, active, now) == LegView::Run(secs as nat * 1_000_000_000)
        } else {
            next_decision(run, state, active, now) == LegView::Run((d - now) as nat)
        }),
{
}

/// A backend without a timeout of its own is given the server's, and never
/// longer than what is left of the budget.
pub proof fn law_default_timeout_counts(
    run: ChainRun,
    state: State,
    active: Map<Seq<char>, usize>,
    now: u64,
)
    requires
        match state.backends@[run.names@[run.next as int]@] {
            Backend::Api(a) => a.timeout is None,
            _ => true,
        },
        next_decision(run, state, active, now) is Run,
    ensures
        ({
            let secs = state.cfg.server.request_timeout_secs;
            let decision = next_decision(run, state, active, now);
            &&& run.deadline is None ==> decision == LegView::Run(secs as nat * 1_000_000_000)
            &&& run.deadline matches Some(d) ==> d > now && (if secs * 1_000_000_000 <= d - now {
                decision == LegView::Run(secs as nat * 1_000_000_000)
            } else {
                decision == LegView::Run((d - now) as nat)
            })
        }),
{
}

/// A leg is passed over for the budget exactly once that is used up; else for
/// cooling exactly where it is cooling and some later leg is not, with the whole
/// seconds that are left; else as busy exactly where its backend has a limit and
/// as many dispatches run; else it is run.
pub proof fn law_legs_are_passed_over_for_a_reason(
    run: ChainRun,
    state: State,
    active: Map<Seq<char>, usize>,
    now: u64,
)
    ensures
        ({
            let name = run.names@[run.next as int]@;
            let decision = next_decision(run, state, active, now);
            let spent = run.deadline matches Some(d) && d <= now;
            let cools = run.cooling@[run.next as int] is Some && exists|j: int|
                run.next < j < run.cooling@.len() && (#[trigger] run.cooling@[j]) is None;
            let running: nat = if active.dom().contains(name) {
                active[name] as nat
            } else {
                0
            };
            let full = match state.backends@[name] {
                Backend::Tmuxlet(t) => t.max_concurrent matches Some(m) && running >= m,
                Backend::Api(a) => a.max_concurrent matches Some(m) && running >= m,
                Backend::Cli(c) => c.max_concurrent matches Some(m) && running >= m,
            };
            &&& decision is Budget <==> spent
            &&& decision is Cooling <==> !spent && cools
            &&& decision is Cooling ==> decision == LegView::Cooling(
                (run.cooling@[run.next as int]->0 / 1_000_000_000) as nat,
            )
            &&& decision is Busy <==> !spent && !cools && full
            &&& decision is Run <==> !spent && !cools && !full
        }),
{
}

/// A leg cools for what is left of its cooldown, as long as cooldowns are on; a
/// backend that nothing is known of does not cool.
pub proof fn law_legs_cool_for_what_is_left(
    health: Map<Seq<char>, HealthView>,
    name: Seq<char>,
    now: u64,
    until: u128,
)
    ensures
        cooling_time(false, health, name, now) is None,
        !health.dom().contains(name) ==> cooling_time(true, health, name, now) is None,
        health.dom().contains(name) && health[name].cooling_until is None ==> cooling_time(
            true,
            health,
            name,
            now,
        ) is None,
        health.dom().contains(name) && health[name].cooling_until == Some(until) && until >= now
            ==> cooling_time(true, health, name, now) == Some((until - now) as u128),
        health.dom().contains(name) && health[name].cooling_until == Some(until) && until < now
            ==> cooling_time(true, health, name, now) is None,
{
}

/// A budget of so many seconds is used up so many seconds from now; without one
/// there is no end.
pub proof fn law_budgets_end_in_time(secs: u64, now: u64)
    ensures
        deadline_of(None, now) is None,
        deadline_of(Some(secs), now) matches Some(d) && d == now + secs * 1_000_000_000,
{
    assert(now + secs * 1_000_000_000 <= u128::MAX) by (nonlinear_arith)
        requires
            0 <= now <= 0xffff_ffff_ffff_ffff,
            0 <= secs <= 0xffff_ffff_ffff_ffff,
    ;
}

/// What is said of a leg that is passed over.
pub proof fn law_skips_are_told(reqid: Seq<char>, name: Seq<char>, secs: nat)
    ensures
        skip_error(name, LegView::Budget) == ErrorView::Backend(name, "skipped: budget"@),
        skip_error(name, LegView::Cooling(secs)) == ErrorView::Backend(
            name,
            "skipped: cooling "@ + decimal(secs) + "s"@,
        ),
        skip_error(name, LegView::Busy) == ErrorView::Busy(name),
        skip_note(reqid, name, LegView::Budget) == Some(
            (3u8, reqid + " skip backend="@ + name + ": budget exhausted"@),
        ),
        skip_note(reqid, name, LegView::Cooling(secs)) == Some(
            (3u8, reqid + " skip backend="@ + name + ": cooling "@ + decimal(secs) + "s"@),
        ),
        skip_note(reqid, name, LegView::Busy) is None,
{
}

/// An answer counts as it is, unless it is only white space and the backend may
/// not answer nothing; errors stay errors.
pub proof fn law_answers_count_as_they_are(
    name: Seq<char>,
    allow_empty: bool,
    d: DispatchView,
    e: ErrorView,
)
    ensures
        allow_empty || trim(d.content).len() > 0 ==> verdict(name, allow_empty, Ok(d)) == Ok::<
            DispatchView,
            ErrorView,
        >(d),
        !allow_empty && trim(d.content).len() == 0 ==> verdict(name, allow_empty, Ok(d)) == Err::<
            DispatchView,
            ErrorView,
        >(ErrorView::Backend(name, "empty output"@)),
        verdict(name, allow_empty, Err(e)) == Err::<DispatchView, ErrorView>(e),
{
}

/// What is logged of a leg that was run: what came of it, with the cooldown that
/// it led to, and last how long it took and how much it answered.
pub proof fn law_legs_are_logged(
    reqid: Seq<char>,
    name: Seq<char>,
    d: DispatchView,
    e: ErrorView,
    ms: u64,
    cooldown: Seq<char>,
)
    ensures
        ({
            let told = |bytes: nat|
                (
                    3u8,
                    reqid + " leg backend="@ + name + " elapsed_ms="@ + decimal(ms as nat)
                        + " answer_bytes="@ + decimal(bytes),
                );
            let size = vstd::utf8::encode_utf8(d.content).len();
            let empty = (1u8, reqid + " skip backend="@ + name + ": empty output"@);
            let failed = (1u8, reqid + " skip backend="@ + name + ": "@ + error_message(e));
            &&& leg_notes(reqid, name, Ok(d), Ok(d), ms, None) == seq![
                (2u8, reqid + " ok backend="@ + name + " elapsed_ms="@ + decimal(ms as nat)),
                told(size),
            ]
            &&& leg_notes(reqid, name, Ok(d), Err(e), ms, None) == seq![empty, told(size)]
            &&& leg_notes(reqid, name, Ok(d), Err(e), ms, Some(cooldown)) == seq![
                (2u8, cooldown),
                empty,
                told(size),
            ]
            &&& leg_notes(reqid, name, Err(e), Err(e), ms, None) == seq![failed, told(0)]
            &&& leg_notes(reqid, name, Err(e), Err(e), ms, Some(cooldown)) == seq![
                failed,
                (2u8, cooldown),
                told(0),
            ]
        }),
{
    let told = |bytes: nat|
        (
            3u8,
            reqid + " leg backend="@ + name + " elapsed_ms="@ + decimal(ms as nat)
                + " answer_bytes="@ + decimal(bytes),
        );
    let size = vstd::utf8::encode_utf8(d.content).len();
    let empty = (1u8, reqid + " skip backend="@ + name + ": empty output"@);
    let failed = (1u8, reqid + " skip backend="@ + name + ": "@ + error_message(e));
    assert(leg_notes(reqid, name, Ok(d), Ok(d), ms, None) =~= seq![
        (2u8, reqid + " ok backend="@ + name + " elapsed_ms="@ + decimal(ms as nat)),
        told(size),
    ]);
    assert(leg_notes(reqid, name, Ok(d), Err(e), ms, None) =~= seq![empty, told(size)]);
    assert(leg_notes(reqid, name, Ok(d), Err(e), ms, Some(cooldown)) =~= seq![
        (2u8, cooldown),
        empty,
        told(size),
    ]);
    assert(leg_notes(reqid, name, Err(e), Err(e), ms, None) =~= seq![failed, told(0)]);
    assert(leg_notes(reqid, name, Err(e), Err(e), ms, Some(cooldown)) =~= seq![
        failed,
        (2u8, cooldown),
        told(0),
    ]);
}

/// A chain that is still without an answer answers with its next leg's, at that
/// leg's place, or gathers its error; and an answer stays the answer.
pub proof fn law_chains_stop_at_the_first_answer(
    verdicts: Seq<Result<DispatchView, ErrorView>>,
    v: Result<DispatchView, ErrorView>,
    k: int,
)
    ensures
        chain_outcome(Seq::empty()) == Err::<(int, DispatchView), Seq<ErrorView>>(Seq::empty()),
        chain_outcome(verdicts) is Ok ==> chain_outcome(verdicts.push(v)) == chain_outcome(
            verdicts,
        ),
        chain_outcome(verdicts) is Err && v is Ok ==> chain_outcome(verdicts.push(v)) == Ok::<
            (int, DispatchView),
            Seq<ErrorView>,
        >((verdicts.len() as int, v->Ok_0)),
        chain_outcome(verdicts) is Err && v is Err ==> chain_outcome(verdicts.push(v)) == Err::<
            (int, DispatchView),
            Seq<ErrorView>,
        >((chain_outcome(verdicts)->Err_0).push(v->Err_0)),
        0 <= k < verdicts.len() && verdicts[k] is Ok ==> chain_outcome(verdicts) is Ok,
{
    assert(verdicts.push(v).drop_last() =~= verdicts);
    if 0 <= k < verdicts.len() && verdicts[k] is Ok {
        lemma_answer_found(verdicts, k);
    }
}

proof fn lemma_answer_found(verdicts: Seq<Result<DispatchView, ErrorView>>, k: int)
    requires
        0 <= k < verdicts.len(),
        verdicts[k] is Ok,
    ensures
        chain_outcome(verdicts) is Ok,
    decreases verdicts.len(),
{
    if k < verdicts.len() - 1 {
        assert(verdicts.drop_last()[k] == verdicts[k]);
        lemma_answer_found(verdicts.drop_last(), k);
    }
}

/// Where limits are kept, no backend with a limit has more dispatches than that.
pub proof fn law_limits_bound_dispatches(
    state: State,
    active: Map<Seq<char>, usize>,
    name: Seq<char>,
)
    requires
        within_limits(state, active),
        state.backends@.dom().contains(name),
        active.dom().contains(name),
    ensures
        match state.backends@[name] {
            Backend::Tmuxlet(t) => t.max_concurrent matches Some(m) ==> active[name] <= m,
            Backend::Api(a) => a.max_concurrent matches Some(m) ==> active[name] <= m,
            Backend::Cli(c) => c.max_concurrent matches Some(m) ==> active[name] <= m,
        },
{
    assert(count_of(active, name) == active[name]);
}

/// Lines, errors and answers of the model are those of the library, one by one.
pub proof fn law_chain_records_are_taken_as_they_are(
    notes: Seq<Note>,
    errors: Seq<BackendError>,
    d: DispatchResult,
    i: int,
)
    ensures
        note_views(notes).len() == notes.len(),
        0 <= i < notes.len() ==> note_views(notes)[i] == (notes[i].level, notes[i].text@),
        error_views(errors).len() == errors.len(),
        0 <= i < errors.len() ==> error_views(errors)[i] == errors[i]@,
        answer_view(Some(d)) == Some(d@),
        answer_view(None) is None,
{
}

} // verus!
