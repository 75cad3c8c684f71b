//! Trying the backends of a chain one after the other: which are passed over,
//! how long each may take, and what is made of its answer.

use vstd::prelude::*;

use crate::backend::{
    blank, error_message, is_blank, is_timeout, outcome_view, Backend, BackendError, DispatchResult,
    DispatchView, ErrorView,
};
use crate::names::NameMap;
use crate::openai::PromptMode;
use crate::text::{decimal, decimal_text, views};
use super::health::{
    acquired, after_failure, after_success, cooldown_note, count_of, health_map, health_of,
    record_failure, record_success, released, ActiveSlot, BackendHealth, HealthView,
};
use super::State;

verus! {

/// A line for the log: its level and its text.
pub struct Note {
    pub level: u8,
    pub text: String,
}

impl View for Note {
    type V = (u8, Seq<char>);

    open spec fn view(&self) -> (u8, Seq<char>) {
        (self.level, self.text@)
    }
}

/// Lines for the log, of the model.
pub open spec fn note_views(notes: Seq<Note>) -> Seq<(u8, Seq<char>)> {
    notes.map_values(|n: Note| n@)
}

/// A chain while it is being run. Times are nanoseconds on the server's clock.
pub struct ChainRun {
    pub names: Vec<String>,
    /// How many legs are done with.
    pub next: usize,
    /// For how long each leg was still to be passed over when the run began.
    pub cooling: Vec<Option<u128>>,
    /// When the chain's budget is used up.
    pub deadline: Option<u128>,
    /// Why the legs that are done with gave no answer.
    pub errors: Vec<BackendError>,
    pub reqid: String,
}

/// Errors of the model.
pub open spec fn error_views(v: Seq<BackendError>) -> Seq<ErrorView> {
    v.map_values(|e: BackendError| e@)
}

/// Every leg is a backend that can be run.
pub open spec fn all_run(state: State, names: Seq<Seq<char>>) -> bool {
    forall|i: int| 0 <= i < names.len() ==> state.backends@.dom().contains(#[trigger] names[i])
}

impl ChainRun {
    /// There is one error for each leg that is done with, and every leg can be
    /// run.
    pub open spec fn wf(&self, state: State) -> bool {
        &&& self.next <= self.names@.len()
        &&& self.cooling@.len() == self.names@.len()
        &&& self.errors@.len() == self.next
        &&& all_run(state, views(self.names@))
    }
}

/// For how long a backend is still to be passed over.
pub open spec fn cooling_time(
    on: bool,
    health: Map<Seq<char>, HealthView>,
    name: Seq<char>,
    now: u64,
) -> Option<u128> {
    match health_of(health, name).cooling_until {
        Some(u) => if on && u >= now {
            Some((u - now) as u128)
        } else {
            None
        },
        None => None,
    }
}

/// When a budget that starts now is used up.
pub open spec fn deadline_of(budget_secs: Option<u64>, now: u64) -> Option<u128> {
    match budget_secs {
        Some(b) => Some((now + b * 1_000_000_000) as u128),
        None => None,
    }
}

/// For how long a backend is still to be passed over.
fn find_cooling(on: bool, health: &NameMap<BackendHealth>, name: &str, now: u64) -> (r: Option<
    u128,
>)
    ensures
        r == cooling_time(on, health_map(health@), name@, now),
{
    if !on {
        return None;
    }
    match health.get(name) {
        Some(h) => match h.cooling_until {
            Some(u) => {
                if u >= now as u128 {
                    Some(u - now as u128)
                } else {
                    None
                }
            },
            None => None,
        },
        None => None,
    }
}

/// Begins to run a chain.
pub fn start_chain(
    state: &State,
    health: &NameMap<BackendHealth>,
    names: Vec<String>,
    now: u64,
    reqid: &str,
) -> (r: ChainRun)
    requires
        all_run(*state, views(names@)),
    ensures
        r.wf(*state),
        r.names == names,
        r.next == 0,
        r.reqid@ == reqid@,
        r.deadline == deadline_of(state.cfg.server.chain_budget_secs, now),
        r.cooling@ == views(names@).map_values(
            |n: Seq<char>| cooling_time(state.cfg.server.cooldown, health_map(health@), n, now),
        ),
{
    let mut cooling: Vec<Option<u128>> = Vec::new();
    let mut i: usize = 0;
    while i < names.len()
        invariant
            i <= names@.len(),
            cooling@.len() == i,
            forall|k: int|
                0 <= k < i ==> #[trigger] cooling@[k] == cooling_time(
                    state.cfg.server.cooldown,
                    health_map(health@),
                    names@[k]@,
                    now,
                ),
        decreases names@.len() - i,
    {
        cooling.push(find_cooling(state.cfg.server.cooldown, health, names[i].as_str(), now));
        i = i + 1;
    }
    proof {
        assert(cooling@ =~= views(names@).map_values(
            |n: Seq<char>| cooling_time(state.cfg.server.cooldown, health_map(health@), n, now),
        ));
    }
    let deadline: Option<u128> = match state.cfg.server.chain_budget_secs {
        Some(b) => Some(now as u128 + b as u128 * 1_000_000_000),
        None => None,
    };
    ChainRun { names, next: 0, cooling, deadline, errors: Vec::new(), reqid: reqid.to_owned() }
}

// ---------------------------------------------------------------------------
// The next leg
// ---------------------------------------------------------------------------

/// Behind leg `i` there is one that is not cooling.
pub open spec fn warm_leg_ahead(cooling: Seq<Option<u128>>, i: int) -> bool {
    exists|j: int| i < j < cooling.len() && (#[trigger] cooling[j]) is None
}

/// What is done with a leg.
pub ghost enum LegView {
    /// Passed over: the budget is used up.
    Budget,
    /// Passed over for so many seconds more, as a later leg is not cooling.
    Cooling(nat),
    /// Passed over: as many dispatches run as may.
    Busy,
    /// Run, with so many nanoseconds to take.
    Run(nat),
}

/// How long a leg may take: its own timeout or the default, but no longer than
/// what is left of the budget.
pub open spec fn leg_timeout(
    own_secs: Option<u64>,
    default_secs: u64,
    deadline: Option<u128>,
    now: u64,
) -> nat {
    let full: nat = match own_secs {
        Some(s) => (s * 1_000_000_000) as nat,
        None => (default_secs * 1_000_000_000) as nat,
    };
    match deadline {
        Some(d) => {
            let left: nat = if d > now {
                (d - now) as nat
            } else {
                0
            };
            if left < full {
                left
            } else {
                full
            }
        },
        None => full,
    }
}

/// What is done with leg `i`: nothing once the budget is used up; nothing
/// while it is cooling and a later leg is not; nothing while it has as many
/// dispatches as it may; else it is run.
pub open spec fn leg_decision(
    deadline: Option<u128>,
    cooling: Seq<Option<u128>>,
    i: int,
    backend: Backend,
    count: usize,
    default_secs: u64,
    now: u64,
) -> LegView {
    if deadline is Some && now >= deadline->0 {
        LegView::Budget
    } else if cooling[i] is Some && warm_leg_ahead(cooling, i) {
        LegView::Cooling((cooling[i]->0 / 1_000_000_000) as nat)
    } else if backend.spec_max_concurrent() is Some && count >= backend.spec_max_concurrent()->0 {
        LegView::Busy
    } else {
        LegView::Run(leg_timeout(backend.spec_timeout_override(), default_secs, deadline, now))
    }
}

/// The error of a leg that is passed over.
pub open spec fn skip_error(name: Seq<char>, d: LegView) -> ErrorView {
    match d {
        LegView::Budget => ErrorView::Backend(name, "skipped: budget"@),
        LegView::Cooling(secs) => ErrorView::Backend(
            name,
            "skipped: cooling "@ + decimal(secs) + "s"@,
        ),
        _ => ErrorView::Busy(name),
    }
}

/// What is logged of a leg that is passed over.
pub open spec fn skip_note(reqid: Seq<char>, name: Seq<char>, d: LegView) -> Option<
    (u8, Seq<char>),
> {
    match d {
        LegView::Budget => Some(
            (3, reqid + " skip backend="@ + name + ": budget exhausted"@),
        ),
        LegView::Cooling(secs) => Some(
            (3, reqid + " skip backend="@ + name + ": cooling "@ + decimal(secs) + "s"@),
        ),
        _ => None,
    }
}

/// What to do next in a run.
pub enum Leg {
    /// Nothing: the leg was passed over. Log the note where there is one.
    Skipped(Option<Note>),
    /// Dispatch to the backend, release the slot, and hand in the result.
    Run(LegCall),
    /// No leg is left.
    Exhausted,
}

/// A leg that is to be run.
pub struct LegCall {
    pub name: String,
    /// How long it may take, in nanoseconds.
    pub timeout: u128,
    pub prompt_mode: PromptMode,
    pub slot: Option<ActiveSlot>,
}

/// Whether a leg behind `i` is not cooling.
fn find_warm_leg(cooling: &Vec<Option<u128>>, i: usize) -> (r: bool)
    requires
        i < cooling@.len(),
    ensures
        r == warm_leg_ahead(cooling@, i as int),
{
    let n: usize = cooling.len();
    let mut j: usize = i + 1;
    while j < n
        invariant
            n == cooling@.len(),
            i < j <= n,
            forall|k: int| i < k < j ==> (#[trigger] cooling@[k]) is Some,
        decreases n - j,
    {
        if cooling[j].is_none() {
            proof {
                assert(cooling@[j as int] is None);
            }
            return true;
        }
        j = j + 1;
    }
    false
}

/// How long a leg may take.
fn find_timeout(own_secs: Option<u64>, default_secs: u64, deadline: Option<u128>, now: u64) -> (r:
    u128)
    ensures
        r == leg_timeout(own_secs, default_secs, deadline, now),
        is_timeout(r),
{
    let secs: u64 = match own_secs {
        Some(s) => s,
        None => default_secs,
    };
    let full: u128 = secs as u128 * 1_000_000_000;
    match deadline {
        Some(d) => {
            let left: u128 = if d > now as u128 {
                d - now as u128
            } else {
                0
            };
            if left < full {
                left
            } else {
                full
            }
        },
        None => full,
    }
}

/// Passes a leg over.
fn pass_over(run: &mut ChainRun, e: BackendError)
    requires
        old(run).next < old(run).names@.len(),
    ensures
        final(run).names == old(run).names,
        final(run).cooling == old(run).cooling,
        final(run).deadline == old(run).deadline,
        final(run).reqid == old(run).reqid,
        final(run).next == old(run).next + 1,
        error_views(final(run).errors@) == error_views(old(run).errors@).push(e@),
{
    let ghost before = run.errors@;
    let ghost view = e@;
    let len: usize = run.names.len();
    run.errors.push(e);
    run.next = run.next + 1;
    proof {
        assert(error_views(run.errors@) =~= error_views(before).push(view));
    }
}

/// The run has the same chain, begun at the same time.
pub open spec fn same_chain(a: ChainRun, b: ChainRun) -> bool {
    &&& a.names == b.names
    &&& a.cooling == b.cooling
    &&& a.deadline == b.deadline
    &&& a.reqid == b.reqid
}

/// What the next leg of a run comes to.
pub open spec fn next_decision(
    run: ChainRun,
    state: State,
    active: Map<Seq<char>, usize>,
    now: u64,
) -> LegView {
    let name = run.names@[run.next as int]@;
    leg_decision(
        run.deadline,
        run.cooling@,
        run.next as int,
        state.backends@[name],
        count_of(active, name),
        state.cfg.server.request_timeout_secs,
        now,
    )
}

/// Decides on the next leg of a run at the time `now`, and takes a slot for it
/// where its backend has a limit.
pub fn next_leg(
    run: &mut ChainRun,
    state: &State,
    active: &mut NameMap<usize>,
    now: u64,
) -> (r: Leg)
    requires
        old(run).wf(*state),
    ensures
        final(run).wf(*state),
        same_chain(*final(run), *old(run)),
        old(run).next == old(run).names@.len() ==> r is Exhausted && *final(run) == *old(run)
            && final(active)@ == old(active)@,
        old(run).next < old(run).names@.len() ==> ({
            let name = old(run).names@[old(run).next as int]@;
            let backend = state.backends@[name];
            let count = count_of(old(active)@, name);
            let decision = next_decision(*old(run), *state, old(active)@, now);
            match decision {
                LegView::Run(timeout) => {
                    &&& r is Run
                    &&& r->Run_0.name@ == name
                    &&& r->Run_0.timeout == timeout
                    &&& is_timeout(r->Run_0.timeout)
                    &&& r->Run_0.prompt_mode == backend.spec_prompt_mode()
                    &&& *final(run) == *old(run)
                    &&& match backend.spec_max_concurrent() {
                        Some(_) => {
                            &&& r->Run_0.slot is Some
                            &&& r->Run_0.slot->0.name@ == name
                            &&& final(active)@ == acquired(old(active)@, name)
                        },
                        None => r->Run_0.slot is None && final(active)@ == old(active)@,
                    }
                },
                _ => {
                    &&& r is Skipped
                    &&& match r->Skipped_0 {
                        Some(n) => skip_note(old(run).reqid@, name, decision) == Some(n@),
                        None => skip_note(old(run).reqid@, name, decision) is None,
                    }
                    &&& final(run).next == old(run).next + 1
                    &&& error_views(final(run).errors@) == error_views(old(run).errors@).push(
                        skip_error(name, decision),
                    )
                    &&& final(active)@ == if decision is Busy {
                        old(active)@.insert(name, count)
                    } else {
                        old(active)@
                    }
                },
            }
        }),
{
    let i: usize = run.next;
    if i == run.names.len() {
        return Leg::Exhausted;
    }
    let ghost first = *run;
    let name = run.names[i].clone();
    proof {
        assert(views(run.names@)[i as int] == name@);
    }
    if let Some(d) = run.deadline {
        if now as u128 >= d {
            let text = run.reqid.clone().concat(" skip backend=").concat(name.as_str()).concat(
                ": budget exhausted",
            );
            pass_over(run, BackendError::Backend(name, "skipped: budget".to_owned()));
            proof {
                assert(error_views(run.errors@).len() == run.errors@.len());
            }
            return Leg::Skipped(Some(Note { level: 3, text }));
        }
    }
    if let Some(left) = run.cooling[i] {
        if find_warm_leg(&run.cooling, i) {
            let secs = decimal_text(left / 1_000_000_000);
            let text = run.reqid.clone().concat(" skip backend=").concat(name.as_str()).concat(
                ": cooling ",
            ).concat(secs.as_str()).concat("s");
            let why = "skipped: cooling ".to_owned().concat(secs.as_str()).concat("s");
            pass_over(run, BackendError::Backend(name, why));
            proof {
                assert(error_views(run.errors@).len() == run.errors@.len());
            }
            return Leg::Skipped(Some(Note { level: 3, text }));
        }
    }
    let backend: &Backend = match state.backends.get(name.as_str()) {
        Some(b) => b,
        None => {
            return Leg::Exhausted;
        },
    };
    let slot: Option<ActiveSlot> = match backend.max_concurrent() {
        Some(max) => {
            match ActiveSlot::try_acquire(active, name.as_str(), max) {
                Some(s) => Some(s),
                None => {
                    pass_over(run, BackendError::Busy(name));
                    proof {
                        assert(error_views(run.errors@).len() == run.errors@.len());
                    }
                    return Leg::Skipped(None);
                },
            }
        },
        None => None,
    };
    let timeout: u128 = find_timeout(
        backend.timeout_override(),
        state.cfg.server.request_timeout_secs,
        run.deadline,
        now,
    );
    Leg::Run(LegCall { name, timeout, prompt_mode: backend.prompt_mode(), slot })
}

// ---------------------------------------------------------------------------
// The result of a leg
// ---------------------------------------------------------------------------

/// What is made of a backend's result: an answer with nothing in it is a
/// failure, unless the backend may give such an answer.
pub open spec fn verdict(
    name: Seq<char>,
    allow_empty: bool,
    result: Result<DispatchView, ErrorView>,
) -> Result<DispatchView, ErrorView> {
    match result {
        Ok(d) => if is_blank(d.content) && !allow_empty {
            Err(ErrorView::Backend(name, "empty output"@))
        } else {
            Ok(d)
        },
        Err(e) => Err(e),
    }
}

/// A text as a line for the log, where there is one.
pub open spec fn info_lines(t: Option<Seq<char>>) -> Seq<(u8, Seq<char>)> {
    match t {
        Some(s) => seq![(2u8, s)],
        None => Seq::empty(),
    }
}

/// How many bytes a backend answered with.
pub open spec fn answer_bytes(result: Result<DispatchView, ErrorView>) -> nat {
    match result {
        Ok(d) => vstd::utf8::encode_utf8(d.content).len(),
        Err(_) => 0,
    }
}

/// The debugging line on a leg that was run, whatever came of it: how long it
/// took, and how much it answered.
pub open spec fn leg_line(
    reqid: Seq<char>,
    name: Seq<char>,
    elapsed_ms: u64,
    bytes: nat,
) -> (u8, Seq<char>) {
    (
        3u8,
        reqid + " leg backend="@ + name + " elapsed_ms="@ + decimal(elapsed_ms as nat)
            + " answer_bytes="@ + decimal(bytes),
    )
}

/// What is logged of a leg's result.
pub open spec fn leg_notes(
    reqid: Seq<char>,
    name: Seq<char>,
    result: Result<DispatchView, ErrorView>,
    v: Result<DispatchView, ErrorView>,
    elapsed_ms: u64,
    cooldown: Option<Seq<char>>,
) -> Seq<(u8, Seq<char>)> {
    let first = match v {
        Ok(_) => seq![
            (
                2u8,
                reqid + " ok backend="@ + name + " elapsed_ms="@ + decimal(elapsed_ms as nat),
            ),
        ],
        Err(e) => if result is Ok {
            info_lines(cooldown) + seq![
                (1u8, reqid + " skip backend="@ + name + ": empty output"@),
            ]
        } else {
            seq![(1u8, reqid + " skip backend="@ + name + ": "@ + error_message(e))] + info_lines(
                cooldown,
            )
        },
    };
    first.push(leg_line(reqid, name, elapsed_ms, answer_bytes(result)))
}

/// What comes of a leg: an answer, or none, and what is to be logged.
pub struct LegEnd {
    pub answer: Option<DispatchResult>,
    pub notes: Vec<Note>,
}

/// A leg's end as a value of the model.
pub open spec fn answer_view(o: Option<DispatchResult>) -> Option<DispatchView> {
    match o {
        Some(d) => Some(d@),
        None => None,
    }
}

/// Adds a line for the log.
pub fn note(notes: &mut Vec<Note>, level: u8, text: String)
    ensures
        note_views(final(notes)@) == note_views(old(notes)@).push((level, text@)),
{
    let ghost before = notes@;
    notes.push(Note { level, text });
    proof {
        assert(note_views(notes@) =~= note_views(before).push((level, text@)));
    }
}

/// The debugging line on a leg that was run.
fn leg_text(reqid: &str, name: &str, elapsed_ms: u64, bytes: usize) -> (r: String)
    ensures
        (3u8, r@) == leg_line(reqid@, name@, elapsed_ms, bytes as nat),
{
    reqid.to_owned().concat(" leg backend=").concat(name).concat(" elapsed_ms=").concat(
        decimal_text(elapsed_ms as u128).as_str(),
    ).concat(" answer_bytes=").concat(decimal_text(bytes as u128).as_str())
}

/// Remembers a failed leg and goes on to the next.
fn fail_leg(
    run: &mut ChainRun,
    state: &State,
    health: &mut NameMap<BackendHealth>,
    name: &str,
    e: BackendError,
    elapsed_ms: u64,
    now: u64,
) -> (r: Option<String>)
    requires
        old(run).next < old(run).names@.len(),
    ensures
        same_chain(*final(run), *old(run)),
        final(run).next == old(run).next + 1,
        error_views(final(run).errors@) == error_views(old(run).errors@).push(e@),
        health_map(final(health)@) == health_map(old(health)@).insert(
            name@,
            after_failure(
                health_of(health_map(old(health)@), name@),
                state.cfg.server,
                e@,
                elapsed_ms,
                now,
            ),
        ),
        crate::text::opt_view(r) == cooldown_note(
            health_of(health_map(old(health)@), name@),
            state.cfg.server,
            name@,
            e@,
        ),
{
    let r = record_failure(health, &state.cfg.server, name, &e, elapsed_ms, now);
    pass_over(run, e);
    r
}

/// Takes in the result of the leg that was run: remembers how its backend did,
/// and gives the answer or goes on to the next leg.
pub fn leg_done(
    run: &mut ChainRun,
    state: &State,
    health: &mut NameMap<BackendHealth>,
    result: Result<DispatchResult, BackendError>,
    elapsed_ms: u64,
    now: u64,
) -> (r: LegEnd)
    requires
        old(run).wf(*state),
        old(run).next < old(run).names@.len(),
    ensures
        final(run).wf(*state),
        same_chain(*final(run), *old(run)),
        ({
            let name = old(run).names@[old(run).next as int]@;
            let was = health_of(health_map(old(health)@), name);
            let v = verdict(
                name,
                state.backends@[name].spec_allow_empty(),
                outcome_view(result),
            );
            match v {
                Ok(d) => {
                    &&& answer_view(r.answer) == Some(d)
                    &&& *final(run) == *old(run)
                    &&& health_map(final(health)@) == health_map(old(health)@).insert(
                        name,
                        after_success(elapsed_ms),
                    )
                    &&& note_views(r.notes@) == leg_notes(
                        old(run).reqid@,
                        name,
                        outcome_view(result),
                        v,
                        elapsed_ms,
                        None,
                    )
                },
                Err(e) => {
                    &&& r.answer is None
                    &&& final(run).next == old(run).next + 1
                    &&& error_views(final(run).errors@) == error_views(old(run).errors@).push(e)
                    &&& health_map(final(health)@) == health_map(old(health)@).insert(
                        name,
                        after_failure(was, state.cfg.server, e, elapsed_ms, now),
                    )
                    &&& note_views(r.notes@) == leg_notes(
                        old(run).reqid@,
                        name,
                        outcome_view(result),
                        v,
                        elapsed_ms,
                        cooldown_note(was, state.cfg.server, name, e),
                    )
                },
            }
        }),
{
    let i: usize = run.next;
    let name = run.names[i].clone();
    let reqid = run.reqid.clone();
    proof {
        assert(views(run.names@)[i as int] == name@);
    }
    let allow_empty: bool = match state.backends.get(name.as_str()) {
        Some(b) => b.allow_empty(),
        None => false,
    };
    let mut notes: Vec<Note> = Vec::new();
    proof {
        assert(note_views(notes@) =~= Seq::<(u8, Seq<char>)>::empty());
    }
    match result {
        Ok(res) => {
            let bytes: usize = res.content.as_str().as_bytes().len();
            let debug = leg_text(reqid.as_str(), name.as_str(), elapsed_ms, bytes);
            if blank(res.content.as_str()) && !allow_empty {
                let e = BackendError::Backend(name.clone(), "empty output".to_owned());
                let cooled = fail_leg(run, state, health, name.as_str(), e, elapsed_ms, now);
                if let Some(t) = cooled {
                    note(&mut notes, 2, t);
                }
                note(
                    &mut notes,
                    1,
                    reqid.concat(" skip backend=").concat(name.as_str()).concat(": empty output"),
                );
                note(&mut notes, 3, debug);
                proof {
                    assert(error_views(run.errors@).len() == run.errors@.len());
                    let was = health_of(health_map(old(health)@), name@);
                    let ev = ErrorView::Backend(name@, "empty output"@);
                    assert(note_views(notes@) =~= leg_notes(
                        old(run).reqid@,
                        name@,
                        outcome_view(result),
                        Err(ev),
                        elapsed_ms,
                        cooldown_note(was, state.cfg.server, name@, ev),
                    ));
                }
                return LegEnd { answer: None, notes };
            }
            record_success(health, name.as_str(), elapsed_ms);
            note(
                &mut notes,
                2,
                reqid.concat(" ok backend=").concat(name.as_str()).concat(" elapsed_ms=").concat(
                    decimal_text(elapsed_ms as u128).as_str(),
                ),
            );
            note(&mut notes, 3, debug);
            proof {
                assert(note_views(notes@) =~= leg_notes(
                    old(run).reqid@,
                    name@,
                    outcome_view(result),
                    Ok(res@),
                    elapsed_ms,
                    None,
                ));
            }
            LegEnd { answer: Some(res), notes }
        },
        Err(e) => {
            let ghost ev = e@;
            let debug = leg_text(reqid.as_str(), name.as_str(), elapsed_ms, 0);
            note(
                &mut notes,
                1,
                reqid.concat(" skip backend=").concat(name.as_str()).concat(": ").concat(
                    e.to_string().as_str(),
                ),
            );
            let cooled = fail_leg(run, state, health, name.as_str(), e, elapsed_ms, now);
            if let Some(t) = cooled {
                note(&mut notes, 2, t);
            }
            note(&mut notes, 3, debug);
            proof {
                assert(error_views(run.errors@).len() == run.errors@.len());
                let was = health_of(health_map(old(health)@), name@);
                assert(note_views(notes@) =~= leg_notes(
                    old(run).reqid@,
                    name@,
                    outcome_view(result),
                    Err(ev),
                    elapsed_ms,
                    cooldown_note(was, state.cfg.server, name@, ev),
                ));
            }
            LegEnd { answer: None, notes }
        },
    }
}

// ---------------------------------------------------------------------------
// What holds of every run
// ---------------------------------------------------------------------------

/// A leg is passed over for cooling only where a later leg will not be; so the
/// last leg never is, and some leg of every chain is left to be tried.
pub proof fn law_cooling_leaves_a_leg(
    deadline: Option<u128>,
    cooling: Seq<Option<u128>>,
    i: int,
    backend: Backend,
    count: usize,
    default_secs: u64,
    now: u64,
)
    requires
        0 <= i < cooling.len(),
    ensures
        leg_decision(deadline, cooling, i, backend, count, default_secs, now) is Cooling ==> exists|
            j: int,
        |
            i < j < cooling.len() && (#[trigger] cooling[j]) is None,
        i == cooling.len() - 1 ==> !(leg_decision(
            deadline,
            cooling,
            i,
            backend,
            count,
            default_secs,
            now,
        ) is Cooling),
        cooling[i] is None ==> !(leg_decision(
            deadline,
            cooling,
            i,
            backend,
            count,
            default_secs,
            now,
        ) is Cooling),
{
}

/// The last leg of a chain is tried, cooling or not, as long as the budget is
/// not used up and its backend is not busy: availability counts for more than
/// what went wrong before.
pub proof fn law_last_leg_is_tried(
    deadline: Option<u128>,
    cooling: Seq<Option<u128>>,
    backend: Backend,
    count: usize,
    default_secs: u64,
    now: u64,
)
    requires
        cooling.len() > 0,
        deadline matches Some(d) ==> now < d,
        backend.spec_max_concurrent() matches Some(max) ==> count < max,
    ensures
        leg_decision(
            deadline,
            cooling,
            cooling.len() - 1,
            backend,
            count,
            default_secs,
            now,
        ) is Run,
{
}

/// No backend has more dispatches than it may have.
pub open spec fn within_limits(state: State, active: Map<Seq<char>, usize>) -> bool {
    forall|n: Seq<char>|
        state.backends@.dom().contains(n) ==> (state.backends@[n].spec_max_concurrent() matches Some(
            max,
        ) ==> #[trigger] count_of(active, n) <= max)
}

/// Taking a slot where a leg is run, or a classifier asked, and giving it back
/// keep every backend within its limit.
pub proof fn law_limits_are_kept(state: State, active: Map<Seq<char>, usize>, name: Seq<char>)
    requires
        within_limits(state, active),
        state.backends@.dom().contains(name),
        state.backends@[name].spec_max_concurrent() matches Some(max) && count_of(active, name)
            < max,
    ensures
        within_limits(state, acquired(active, name)),
        forall|n: Seq<char>|
            active.dom().contains(n) ==> #[trigger] within_limits(
                state,
                active.insert(n, released(active[n])),
            ),
{
    let taken = acquired(active, name);
    assert forall|n: Seq<char>| state.backends@.dom().contains(n) implies (
    state.backends@[n].spec_max_concurrent() matches Some(max) ==> #[trigger] count_of(taken, n)
        <= max) by {
        assert(n != name ==> count_of(taken, n) == count_of(active, n));
    }
    assert forall|n: Seq<char>| active.dom().contains(n) implies #[trigger] within_limits(
        state,
        active.insert(n, released(active[n])),
    ) by {
        let after = active.insert(n, released(active[n]));
        assert forall|k: Seq<char>| state.backends@.dom().contains(k) implies (
        state.backends@[k].spec_max_concurrent() matches Some(max) ==> #[trigger] count_of(after, k)
            <= max) by {
            assert(count_of(after, k) <= count_of(active, k));
        }
    }
}

/// With the cooldown switched off no leg is ever passed over for it.
pub proof fn law_no_cooling_when_off(
    health: Map<Seq<char>, HealthView>,
    name: Seq<char>,
    now: u64,
)
    ensures
        cooling_time(false, health, name, now) is None,
{
}

/// No leg is given more time than is left of the budget, or than it may take
/// itself.
pub proof fn law_leg_stays_in_budget(
    own_secs: Option<u64>,
    default_secs: u64,
    deadline: u128,
    now: u64,
)
    requires
        now < deadline,
    ensures
        now + leg_timeout(own_secs, default_secs, Some(deadline), now) <= deadline,
        leg_timeout(own_secs, default_secs, Some(deadline), now) <= leg_timeout(
            own_secs,
            default_secs,
            None,
            now,
        ),
{
}

/// The first answer among the verdicts on a chain's legs, or all errors.
pub open spec fn chain_outcome(verdicts: Seq<Result<DispatchView, ErrorView>>) -> Result<
    (int, DispatchView),
    Seq<ErrorView>,
>
    decreases verdicts.len(),
{
    if verdicts.len() == 0 {
        Err(Seq::empty())
    } else {
        match chain_outcome(verdicts.drop_last()) {
            Ok(w) => Ok(w),
            Err(errors) => match verdicts.last() {
                Ok(d) => Ok((verdicts.len() - 1, d)),
                Err(e) => Err(errors.push(e)),
            },
        }
    }
}

/// The answer of a chain is that of the first leg that gave one, and comes
/// behind an error of every leg before it; where no leg gave one, there is one
/// error for each leg, in their order.
pub proof fn law_first_answer_wins(verdicts: Seq<Result<DispatchView, ErrorView>>)
    ensures
        match chain_outcome(verdicts) {
            Ok((i, d)) => {
                &&& 0 <= i < verdicts.len()
                &&& verdicts[i] == Ok::<DispatchView, ErrorView>(d)
                &&& forall|k: int| 0 <= k < i ==> (#[trigger] verdicts[k]) is Err
            },
            Err(errors) => {
                &&& errors.len() == verdicts.len()
                &&& forall|k: int|
                    0 <= k < verdicts.len() ==> #[trigger] verdicts[k] == Err::<
                        DispatchView,
                        ErrorView,
                    >(errors[k])
            },
        },
    decreases verdicts.len(),
{
    if verdicts.len() > 0 {
        let front = verdicts.drop_last();
        law_first_answer_wins(front);
        assert forall|k: int| 0 <= k < front.len() implies #[trigger] verdicts[k] == front[k] by {}
    }
}

/// The errors of a run are those of the verdicts on its legs so far.
pub open spec fn run_follows(run: ChainRun, verdicts: Seq<Result<DispatchView, ErrorView>>) -> bool {
    chain_outcome(verdicts) == Err::<(int, DispatchView), Seq<ErrorView>>(
        error_views(run.errors@),
    )
}

/// Handing in a leg's result keeps a run in step with the outcome of its
/// chain: an error is added to the run's errors, and an answer is the chain's.
pub proof fn law_run_follows_chain(
    run: ChainRun,
    next: ChainRun,
    verdicts: Seq<Result<DispatchView, ErrorView>>,
    v: Result<DispatchView, ErrorView>,
)
    requires
        run_follows(run, verdicts),
        v matches Err(e) ==> error_views(next.errors@) == error_views(run.errors@).push(e),
    ensures
        v is Err ==> run_follows(next, verdicts.push(v)),
        v matches Ok(d) ==> chain_outcome(verdicts.push(v)) == Ok::<
            (int, DispatchView),
            Seq<ErrorView>,
        >((verdicts.len() as int, d)),
{
    assert(verdicts.push(v).drop_last() =~= verdicts);
}

} // verus!
