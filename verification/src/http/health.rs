//! What the server remembers of its backends: how they did lately, how long
//! they are passed over, and how many dispatches run.

use vstd::prelude::*;

use crate::backend::{error_class, error_message, BackendError, ErrorView};
use crate::config::{self, Config, Server};
use crate::json::quoted;
use crate::names::NameMap;
use crate::openai::{
    array_of, array_text, nullable, nullable_of, number_member, object_of, object_text,
    string_member,
};
use crate::text::{
    contains, decimal, decimal_text, has_infix, in_order, lower_text, lowered, opt_view,
    sort_texts, views,
};

verus! {

// ---------------------------------------------------------------------------
// Health
// ---------------------------------------------------------------------------

/// How a backend did lately. Times are nanoseconds on the server's clock.
pub struct BackendHealth {
    pub consecutive_failures: u32,
    /// Until when the backend is passed over.
    pub cooling_until: Option<u128>,
    pub last_error: Option<String>,
    pub last_latency_ms: Option<u64>,
}

/// A health record of the model.
pub ghost struct HealthView {
    pub failures: u32,
    pub cooling_until: Option<u128>,
    pub last_error: Option<Seq<char>>,
    pub last_latency_ms: Option<u64>,
}

impl View for BackendHealth {
    type V = HealthView;

    open spec fn view(&self) -> HealthView {
        HealthView {
            failures: self.consecutive_failures,
            cooling_until: self.cooling_until,
            last_error: opt_view(self.last_error),
            last_latency_ms: self.last_latency_ms,
        }
    }
}

impl Default for BackendHealth {
    fn default() -> (r: BackendHealth)
        ensures
            r@ == no_health(),
    {
        BackendHealth {
            consecutive_failures: 0,
            cooling_until: None,
            last_error: None,
            last_latency_ms: None,
        }
    }
}

/// What is known of a backend that was never run.
pub open spec fn no_health() -> HealthView {
    HealthView { failures: 0, cooling_until: None, last_error: None, last_latency_ms: None }
}

/// The health of each backend that was run.
pub open spec fn health_map(m: Map<Seq<char>, BackendHealth>) -> Map<Seq<char>, HealthView> {
    m.map_values(|h: BackendHealth| h@)
}

/// The health of a backend.
pub open spec fn health_of(m: Map<Seq<char>, HealthView>, name: Seq<char>) -> HealthView {
    if m.dom().contains(name) {
        m[name]
    } else {
        no_health()
    }
}

/// How long a backend is passed over after its `failures`th failure in a row:
/// after timeouts, of which each costs the whole timeout again, 30 seconds
/// doubled with each failure up to 300; after a refused connection, which
/// costs nothing to try, 5 seconds; else what is configured.
pub open spec fn cooldown_secs(e: ErrorView, failures: u32, configured: u64) -> u64 {
    match e {
        ErrorView::Timeout(_) => if failures <= 1 {
            30
        } else if failures == 2 {
            60
        } else if failures == 3 {
            120
        } else if failures == 4 {
            240
        } else {
            300
        },
        ErrorView::Spawn(_, msg) => if has_infix(lowered(msg), "refused"@) {
            5
        } else {
            configured
        },
        _ => configured,
    }
}

/// How long a backend is passed over, in seconds.
pub fn cooldown_for(err: &BackendError, failures: u32, configured: u64) -> (r: u64)
    ensures
        r == cooldown_secs(err@, failures, configured),
{
    match err {
        BackendError::Timeout(_) => {
            let less: u32 = failures.saturating_sub(1);
            let shift: u32 = if less > 4 {
                4
            } else {
                less
            };
            proof {
                assert(30u64 << 0u32 == 30u64) by (bit_vector);
                assert(30u64 << 1u32 == 60u64) by (bit_vector);
                assert(30u64 << 2u32 == 120u64) by (bit_vector);
                assert(30u64 << 3u32 == 240u64) by (bit_vector);
                assert(30u64 << 4u32 == 480u64) by (bit_vector);
            }
            let secs: u64 = 30u64 << shift;
            if secs > 300 {
                300
            } else {
                secs
            }
        },
        BackendError::Spawn(_, msg) => {
            if contains(lower_text(msg.as_str()).as_str(), "refused") {
                5
            } else {
                configured
            }
        },
        _ => configured,
    }
}

/// After timeouts the time grows with the failures and stays between 30 and
/// 300 seconds.
pub proof fn law_timeout_cooldown_grows(name: Seq<char>, few: u32, many: u32, configured: u64)
    requires
        few <= many,
    ensures
        30 <= cooldown_secs(ErrorView::Timeout(name), few, configured),
        cooldown_secs(ErrorView::Timeout(name), few, configured) <= cooldown_secs(
            ErrorView::Timeout(name),
            many,
            configured,
        ),
        cooldown_secs(ErrorView::Timeout(name), many, configured) <= 300,
{
}

/// The record after a success.
pub open spec fn after_success(latency_ms: u64) -> HealthView {
    HealthView {
        failures: 0,
        cooling_until: None,
        last_error: None,
        last_latency_ms: Some(latency_ms),
    }
}

/// One failure more, as far as failures are counted.
pub open spec fn one_more(n: u32) -> u32 {
    if n == u32::MAX {
        n
    } else {
        (n + 1) as u32
    }
}

/// The record after a failure at the time `now`.
pub open spec fn after_failure(
    before: HealthView,
    server: Server,
    e: ErrorView,
    latency_ms: u64,
    now: u64,
) -> HealthView {
    let failures = one_more(before.failures);
    HealthView {
        failures,
        cooling_until: if server.cooldown {
            Some((now + cooldown_secs(e, failures, server.cooldown_secs) * 1_000_000_000) as u128)
        } else {
            before.cooling_until
        },
        last_error: Some(error_message(e)),
        last_latency_ms: Some(latency_ms),
    }
}

/// What is logged of a failure.
pub open spec fn cooldown_note(
    before: HealthView,
    server: Server,
    name: Seq<char>,
    e: ErrorView,
) -> Option<Seq<char>> {
    if server.cooldown {
        Some(
            "cooldown "@ + name + " for "@ + decimal(
                cooldown_secs(e, one_more(before.failures), server.cooldown_secs) as nat,
            ) + "s ("@ + error_class(e) + ")"@,
        )
    } else {
        None
    }
}

/// Remembers that a backend answered: its failures are forgotten.
pub fn record_success(health: &mut NameMap<BackendHealth>, name: &str, latency_ms: u64)
    ensures
        health_map(final(health)@) == health_map(old(health)@).insert(
            name@,
            after_success(latency_ms),
        ),
{
    let ghost before = health@;
    let h = BackendHealth {
        consecutive_failures: 0,
        cooling_until: None,
        last_error: None,
        last_latency_ms: Some(latency_ms),
    };
    health.insert(name.to_owned(), h);
    proof {
        assert(health_map(health@) =~= health_map(before).insert(name@, after_success(latency_ms)));
    }
}

/// Remembers that a backend failed, and passes it over for a while where that
/// is configured. Gives back what is to be logged.
pub fn record_failure(
    health: &mut NameMap<BackendHealth>,
    server: &Server,
    name: &str,
    err: &BackendError,
    latency_ms: u64,
    now: u64,
) -> (r: Option<String>)
    ensures
        health_map(final(health)@) == health_map(old(health)@).insert(
            name@,
            after_failure(
                health_of(health_map(old(health)@), name@),
                *server,
                err@,
                latency_ms,
                now,
            ),
        ),
        opt_view(r) == cooldown_note(
            health_of(health_map(old(health)@), name@),
            *server,
            name@,
            err@,
        ),
{
    let ghost before = health@;
    let ghost was = health_of(health_map(health@), name@);
    let (failures, cooling): (u32, Option<u128>) = match health.get(name) {
        Some(h) => (h.consecutive_failures.saturating_add(1), h.cooling_until),
        None => (1, None),
    };
    let secs: u64 = cooldown_for(err, failures, server.cooldown_secs);
    let until: Option<u128> = if server.cooldown {
        Some(now as u128 + secs as u128 * 1_000_000_000)
    } else {
        cooling
    };
    let h = BackendHealth {
        consecutive_failures: failures,
        cooling_until: until,
        last_error: Some(err.to_string()),
        last_latency_ms: Some(latency_ms),
    };
    health.insert(name.to_owned(), h);
    proof {
        assert(h@ == after_failure(was, *server, err@, latency_ms, now));
        assert(health_map(health@) =~= health_map(before).insert(name@, h@));
    }
    if server.cooldown {
        Some(
            "cooldown ".to_owned().concat(name).concat(" for ").concat(
                decimal_text(secs as u128).as_str(),
            ).concat("s (").concat(err.class()).concat(")"),
        )
    } else {
        None
    }
}

/// A success ends a cooldown at once, and what happens to one backend leaves
/// every other as it was.
pub proof fn law_health_is_kept_apart(
    m: Map<Seq<char>, HealthView>,
    name: Seq<char>,
    other: Seq<char>,
    server: Server,
    e: ErrorView,
    latency_ms: u64,
    now: u64,
)
    ensures
        after_success(latency_ms).cooling_until is None,
        other != name ==> health_of(m.insert(name, after_success(latency_ms)), other) == health_of(
            m,
            other,
        ),
        other != name ==> health_of(
            m.insert(name, after_failure(health_of(m, name), server, e, latency_ms, now)),
            other,
        ) == health_of(m, other),
{
}

// ---------------------------------------------------------------------------
// Slots
// ---------------------------------------------------------------------------

/// A dispatch that counts against its backend's limit until it is released.
pub struct ActiveSlot {
    pub name: String,
}

/// How many dispatches of a backend run.
pub open spec fn count_of(active: Map<Seq<char>, usize>, name: Seq<char>) -> usize {
    if active.dom().contains(name) {
        active[name]
    } else {
        0
    }
}

impl ActiveSlot {
    /// Takes a slot of a backend that may have `max`, unless all are taken.
    pub fn try_acquire(active: &mut NameMap<usize>, name: &str, max: usize) -> (r: Option<
        ActiveSlot,
    >)
        ensures
            r is Some <==> count_of(old(active)@, name@) < max,
            r is Some ==> r->0.name@ == name@,
            final(active)@ == old(active)@.insert(
                name@,
                if r is Some {
                    (count_of(old(active)@, name@) + 1) as usize
                } else {
                    count_of(old(active)@, name@)
                },
            ),
    {
        let count: usize = match active.get(name) {
            Some(c) => *c,
            None => 0,
        };
        if count >= max {
            active.insert(name.to_owned(), count);
            return None;
        }
        active.insert(name.to_owned(), count + 1);
        Some(ActiveSlot { name: name.to_owned() })
    }

    /// Gives a slot back.
    pub fn release(self, active: &mut NameMap<usize>)
        ensures
            final(active)@ == if old(active)@.dom().contains(self.name@) {
                old(active)@.insert(self.name@, released(old(active)@[self.name@]))
            } else {
                old(active)@
            },
    {
        let count: Option<usize> = match active.get(self.name.as_str()) {
            Some(c) => Some(*c),
            None => None,
        };
        if let Some(c) = count {
            active.insert(self.name, c.saturating_sub(1));
        }
    }
}

/// One less, as far as there is any.
pub open spec fn released(n: usize) -> usize {
    if n > 0 {
        (n - 1) as usize
    } else {
        0
    }
}

/// The counts after a slot was taken.
pub open spec fn acquired(active: Map<Seq<char>, usize>, name: Seq<char>) -> Map<
    Seq<char>,
    usize,
> {
    active.insert(name, (count_of(active, name) + 1) as usize)
}

/// Giving a slot back undoes taking it, other backends are not touched, and no
/// more slots are taken than there are.
pub proof fn law_release_undoes_acquire(
    active: Map<Seq<char>, usize>,
    name: Seq<char>,
    max: usize,
    other: Seq<char>,
)
    requires
        count_of(active, name) < max,
    ensures
        ({
            let taken = acquired(active, name);
            &&& count_of(taken, name) == count_of(active, name) + 1
            &&& count_of(taken, name) <= max
            &&& released(taken[name]) == count_of(active, name)
            &&& other != name ==> count_of(taken, other) == count_of(active, other)
        }),
{
}

// ---------------------------------------------------------------------------
// The list of backends
// ---------------------------------------------------------------------------

/// The type of a configured backend.
pub open spec fn type_text(b: config::Backend) -> Seq<char> {
    match b {
        config::Backend::Tmuxlet { .. } => "tmuxlet"@,
        config::Backend::Api { .. } => "api"@,
        config::Backend::Cli { .. } => "cli"@,
    }
}

/// The type of a configured backend.
pub fn backend_type_str(b: &config::Backend) -> (r: &'static str)
    ensures
        r@ == type_text(*b),
{
    match b {
        config::Backend::Tmuxlet { .. } => "tmuxlet",
        config::Backend::Api { .. } => "api",
        config::Backend::Cli { .. } => "cli",
    }
}

/// How many dispatches a configured backend may have.
pub open spec fn configured_limit(b: config::Backend) -> Option<usize> {
    match b {
        config::Backend::Tmuxlet { max_concurrent, .. } => max_concurrent,
        config::Backend::Api { max_concurrent, .. } => max_concurrent,
        config::Backend::Cli { max_concurrent, .. } => max_concurrent,
    }
}

fn limit_of(b: &config::Backend) -> (r: Option<usize>)
    ensures
        r == configured_limit(*b),
{
    match b {
        config::Backend::Tmuxlet { max_concurrent, .. } => *max_concurrent,
        config::Backend::Api { max_concurrent, .. } => *max_concurrent,
        config::Backend::Cli { max_concurrent, .. } => *max_concurrent,
    }
}

/// For how many seconds more a backend is passed over.
pub open spec fn cooling_left(h: HealthView, now: u64) -> Option<nat> {
    match h.cooling_until {
        Some(u) => if u > now {
            Some(((u - now) / 1_000_000_000) as nat)
        } else {
            None
        },
        None => None,
    }
}

/// The state of a backend in a word.
pub open spec fn state_text(
    known: bool,
    h: HealthView,
    limit: Option<usize>,
    count: usize,
    now: u64,
) -> Seq<char> {
    if cooling_left(h, now) is Some {
        "cooling"@
    } else if limit is Some && count >= limit->0 {
        "busy"@
    } else if known {
        "ok"@
    } else {
        "unknown"@
    }
}

/// A number or `null`.
pub open spec fn nullable_number(n: Option<nat>) -> Seq<char> {
    match n {
        Some(x) => decimal(x),
        None => "null"@,
    }
}

/// One backend in the list.
pub open spec fn entry_text(
    name: Seq<char>,
    b: config::Backend,
    health: Map<Seq<char>, HealthView>,
    active: Map<Seq<char>, usize>,
    now: u64,
) -> Seq<char> {
    let h = health_of(health, name);
    object_text(
        seq![
            "\"consecutive_failures\":"@ + decimal(h.failures as nat),
            "\"cooling_secs\":"@ + nullable_number(cooling_left(h, now)),
            "\"last_error\":"@ + nullable(h.last_error),
            "\"last_latency_ms\":"@ + nullable_number(
                match h.last_latency_ms {
                    Some(ms) => Some(ms as nat),
                    None => None,
                },
            ),
            "\"name\":"@ + quoted(name),
            "\"state\":"@ + quoted(
                state_text(
                    health.dom().contains(name),
                    h,
                    configured_limit(b),
                    count_of(active, name),
                    now,
                ),
            ),
            "\"type\":"@ + quoted(type_text(b)),
        ],
    )
}

/// The names of a map in order.
pub open spec fn ordered_names<V>(m: NameMap<V>) -> Seq<Seq<char>> {
    in_order(m.pairs().map_values(|p: (Seq<char>, V)| p.0))
}

/// The list of all backends, in the order of their names.
pub open spec fn backends_text(
    cfg: Config,
    health: Map<Seq<char>, HealthView>,
    active: Map<Seq<char>, usize>,
    now: u64,
) -> Seq<char> {
    array_text(
        ordered_names(cfg.backends).map_values(
            |n: Seq<char>| entry_text(n, cfg.backends@[n], health, active, now),
        ),
    )
}

/// The names of a map.
pub fn names_of<V>(m: &NameMap<V>) -> (r: Vec<String>)
    ensures
        views(r@) == m.pairs().map_values(|p: (Seq<char>, V)| p.0),
{
    let mut out: Vec<String> = Vec::new();
    let mut i: usize = 0;
    while i < m.len()
        invariant
            i <= m.pairs().len(),
            out@.len() == i,
            forall|k: int| 0 <= k < i ==> #[trigger] out@[k]@ == m.pairs()[k].0,
        decreases m.pairs().len() - i,
    {
        out.push(m.key_at(i).clone());
        i = i + 1;
    }
    proof {
        assert(views(out@) =~= m.pairs().map_values(|p: (Seq<char>, V)| p.0));
    }
    out
}

/// The names of a map in order.
pub fn sorted_names<V>(m: &NameMap<V>) -> (r: Vec<String>)
    ensures
        views(r@) == ordered_names(*m),
        forall|i: int| 0 <= i < r@.len() ==> m@.dom().contains((#[trigger] r@[i])@),
{
    let names = names_of(m);
    let r = sort_texts(&names);
    proof {
        broadcast use vstd::seq_lib::group_to_multiset_ensures;

        let all = views(names@);
        crate::text::law_in_order(all);
        assert forall|i: int| 0 <= i < r@.len() implies m@.dom().contains((#[trigger] r@[i])@) by {
            let x = views(r@)[i];
            assert(views(r@).contains(x));
            assert(all.to_multiset().count(x) > 0);
            assert(all.contains(x));
            let k = choose|k: int| 0 <= k < all.len() && all[k] == x;
            assert(m.pairs()[k].0 == x);
        }
    }
    r
}

fn nullable_number_of(n: Option<u128>) -> (r: String)
    ensures
        r@ == nullable_number(
            match n {
                Some(x) => Some(x as nat),
                None => None,
            },
        ),
{
    match n {
        Some(x) => decimal_text(x),
        None => "null".to_owned(),
    }
}

/// Writes one backend of the list.
fn write_entry(
    name: &str,
    b: &config::Backend,
    health: &NameMap<BackendHealth>,
    active: &NameMap<usize>,
    now: u64,
) -> (r: String)
    ensures
        r@ == entry_text(name@, *b, health_map(health@), active@, now),
{
    let fresh = BackendHealth::default();
    let found = health.get(name);
    let known: bool = found.is_some();
    let h: &BackendHealth = match found {
        Some(x) => x,
        None => &fresh,
    };
    proof {
        assert(h@ == health_of(health_map(health@), name@));
    }
    let left: Option<u128> = match h.cooling_until {
        Some(u) => {
            if u > now as u128 {
                Some((u - now as u128) / 1_000_000_000)
            } else {
                None
            }
        },
        None => None,
    };
    let count: usize = match active.get(name) {
        Some(c) => *c,
        None => 0,
    };
    let full: bool = match limit_of(b) {
        Some(max) => count >= max,
        None => false,
    };
    let state: &'static str = if left.is_some() {
        "cooling"
    } else if full {
        "busy"
    } else if known {
        "ok"
    } else {
        "unknown"
    };
    let latency: Option<u128> = match h.last_latency_ms {
        Some(ms) => Some(ms as u128),
        None => None,
    };
    let mut m: Vec<String> = Vec::new();
    m.push(number_member("\"consecutive_failures\":", h.consecutive_failures as u64));
    m.push("\"cooling_secs\":".to_owned().concat(nullable_number_of(left).as_str()));
    m.push("\"last_error\":".to_owned().concat(nullable_of(&h.last_error).as_str()));
    m.push("\"last_latency_ms\":".to_owned().concat(nullable_number_of(latency).as_str()));
    m.push(string_member("\"name\":", name));
    m.push(string_member("\"state\":", state));
    m.push(string_member("\"type\":", backend_type_str(b)));
    proof {
        let hv = health_of(health_map(health@), name@);
        let members = seq![
            "\"consecutive_failures\":"@ + decimal(hv.failures as nat),
            "\"cooling_secs\":"@ + nullable_number(cooling_left(hv, now)),
            "\"last_error\":"@ + nullable(hv.last_error),
            "\"last_latency_ms\":"@ + nullable_number(
                match hv.last_latency_ms {
                    Some(ms) => Some(ms as nat),
                    None => None,
                },
            ),
            "\"name\":"@ + quoted(name@),
            "\"state\":"@ + quoted(
                state_text(
                    health_map(health@).dom().contains(name@),
                    hv,
                    configured_limit(*b),
                    count_of(active@, name@),
                    now,
                ),
            ),
            "\"type\":"@ + quoted(type_text(*b)),
        ];
        assert(views(m@) =~= members);
    }
    object_of(&m)
}

/// Writes the list of all backends.
pub fn list_backends(
    cfg: &Config,
    health: &NameMap<BackendHealth>,
    active: &NameMap<usize>,
    now: u64,
) -> (r: String)
    ensures
        r@ == backends_text(*cfg, health_map(health@), active@, now),
{
    let names = sorted_names(&cfg.backends);
    let mut items: Vec<String> = Vec::new();
    let mut i: usize = 0;
    while i < names.len()
        invariant
            i <= names@.len(),
            views(names@) == ordered_names(cfg.backends),
            forall|k: int|
                0 <= k < names@.len() ==> cfg.backends@.dom().contains((#[trigger] names@[k])@),
            items@.len() == i,
            forall|k: int|
                0 <= k < i ==> #[trigger] items@[k]@ == entry_text(
                    names@[k]@,
                    cfg.backends@[names@[k]@],
                    health_map(health@),
                    active@,
                    now,
                ),
        decreases names@.len() - i,
    {
        if let Some(b) = cfg.backends.get(names[i].as_str()) {
            items.push(write_entry(names[i].as_str(), b, health, active, now));
        }
        i = i + 1;
    }
    proof {
        assert(views(items@) =~= ordered_names(cfg.backends).map_values(
            |n: Seq<char>|
                entry_text(n, cfg.backends@[n], health_map(health@), active@, now),
        ));
    }
    array_of(&items)
}

} // verus!
