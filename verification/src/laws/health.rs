//! Laws on health: how long a backend that failed is passed over, what is known
//! of it, and what is said of it.

use vstd::prelude::*;

use crate::backend::{error_class, error_message, ErrorView};
use crate::config::{self, Config, Server};
use crate::http::health::{
    acquired, after_failure, after_success, backends_text, configured_limit, cooldown_note,
    cooldown_secs, cooling_left, count_of, entry_text, health_map, health_of, nullable_number,
    released, state_text, type_text, BackendHealth, HealthView,
};
use crate::json::quoted;
use crate::laws::text::law_joined_adds_at_the_end;
use crate::openai::object_text;
use crate::text::{decimal, has_infix, in_order, joined, lowered, opt_view};

verus! {

/// A backend that timed out is passed over for half a minute, twice as long for
/// each further failure, and never for more than five minutes; one that refused
/// a connection for five seconds; and any other for as long as is configured.
pub proof fn law_cooldowns_double(n: Seq<char>, m: Seq<char>, k: u32, secs: u64, e: ErrorView)
    ensures
        cooldown_secs(ErrorView::Timeout(n), 0, secs) == 30,
        cooldown_secs(ErrorView::Timeout(n), 1, secs) == 30,
        1 <= k < 4 ==> cooldown_secs(ErrorView::Timeout(n), (k + 1) as u32, secs) == 2
            * cooldown_secs(ErrorView::Timeout(n), k, secs),
        k > 4 ==> cooldown_secs(ErrorView::Timeout(n), k, secs) == 300,
        has_infix(lowered(m), "refused"@) ==> cooldown_secs(ErrorView::Spawn(n, m), k, secs) == 5,
        !has_infix(lowered(m), "refused"@) ==> cooldown_secs(ErrorView::Spawn(n, m), k, secs)
            == secs,
        !(e is Timeout) && !(e is Spawn) ==> cooldown_secs(e, k, secs) == secs,
{
}

/// A success forgets the failures, and a failure counts one more and is
/// remembered; where cooldowns are on it begins one, and else leaves what there
/// was.
pub proof fn law_failures_are_counted(
    before: HealthView,
    server: Server,
    name: Seq<char>,
    e: ErrorView,
    ms: u64,
    now: u64,
)
    ensures
        after_success(ms).failures == 0,
        after_success(ms).cooling_until is None,
        after_success(ms).last_error is None,
        after_success(ms).last_latency_ms == Some(ms),
        ({
            let h = after_failure(before, server, e, ms, now);
            let note = cooldown_note(before, server, name, e);
            &&& before.failures < u32::MAX ==> h.failures == before.failures + 1
            &&& before.failures == u32::MAX ==> h.failures == u32::MAX
            &&& h.last_error == Some(error_message(e))
            &&& h.last_latency_ms == Some(ms)
            &&& !server.cooldown ==> h.cooling_until == before.cooling_until && note is None
            &&& server.cooldown ==> (h.cooling_until matches Some(u) && u == now + cooldown_secs(
                e,
                h.failures,
                server.cooldown_secs,
            ) * 1_000_000_000)
            &&& server.cooldown ==> note == Some(
                "cooldown "@ + name + " for "@ + decimal(
                    cooldown_secs(e, h.failures, server.cooldown_secs) as nat,
                ) + "s ("@ + error_class(e) + ")"@,
            )
        }),
{
    let h = after_failure(before, server, e, ms, now);
    let secs = cooldown_secs(e, h.failures, server.cooldown_secs);
    assert(now + secs * 1_000_000_000 <= u128::MAX) by (nonlinear_arith)
        requires
            0 <= now <= 0xffff_ffff_ffff_ffff,
            0 <= secs <= 0xffff_ffff_ffff_ffff,
    ;
}

/// Of a backend that nothing is known of, nothing is.
pub proof fn law_unknown_backends_are_healthy(
    m: Map<Seq<char>, HealthView>,
    name: Seq<char>,
    h: BackendHealth,
    raw: Map<Seq<char>, BackendHealth>,
)
    ensures
        m.dom().contains(name) ==> health_of(m, name) == m[name],
        !m.dom().contains(name) ==> {
            let h = health_of(m, name);
            h.failures == 0 && h.cooling_until is None && h.last_error is None && h.last_latency_ms
                is None
        },
        h@.failures == h.consecutive_failures,
        h@.cooling_until == h.cooling_until,
        h@.last_error == opt_view(h.last_error),
        h@.last_latency_ms == h.last_latency_ms,
        health_map(raw).dom() == raw.dom(),
        raw.dom().contains(name) ==> health_map(raw)[name] == raw[name]@,
{
    assert(health_map(raw).dom() =~= raw.dom());
}

/// Dispatches are counted up and down by one, and never below nothing.
pub proof fn law_dispatches_are_counted(
    active: Map<Seq<char>, usize>,
    name: Seq<char>,
    other: Seq<char>,
    n: usize,
)
    ensures
        active.dom().contains(name) ==> count_of(active, name) == active[name],
        !active.dom().contains(name) ==> count_of(active, name) == 0,
        count_of(active, name) < usize::MAX ==> count_of(acquired(active, name), name) == count_of(
            active,
            name,
        ) + 1,
        other != name ==> count_of(acquired(active, name), other) == count_of(active, other),
        n > 0 ==> released(n) == n - 1,
        released(0) == 0,
{
}

/// The kind and the limit of a configured backend.
pub proof fn law_backends_have_a_kind(b: config::Backend)
    ensures
        b is Tmuxlet ==> type_text(b) == "tmuxlet"@ && configured_limit(b)
            == b->Tmuxlet_max_concurrent,
        b is Api ==> type_text(b) == "api"@ && configured_limit(b) == b->Api_max_concurrent,
        b is Cli ==> type_text(b) == "cli"@ && configured_limit(b) == b->Cli_max_concurrent,
{
}

/// What a backend does: it cools while its cooldown is not over, else is busy
/// where as many dispatches run as may, else is well where it has been run, and
/// else is not known.
pub proof fn law_backends_have_a_state(
    known: bool,
    h: HealthView,
    limit: Option<usize>,
    count: usize,
    now: u64,
)
    ensures
        ({
            let cools = h.cooling_until matches Some(u) && u > now;
            let busy = limit matches Some(m) && count >= m;
            let s = state_text(known, h, limit, count, now);
            &&& cools ==> s == "cooling"@
            &&& !cools && busy ==> s == "busy"@
            &&& !cools && !busy && known ==> s == "ok"@
            &&& !cools && !busy && !known ==> s == "unknown"@
            &&& cools ==> cooling_left(h, now) == Some(
                ((h.cooling_until->0 - now) / 1_000_000_000) as nat,
            )
            &&& !cools ==> cooling_left(h, now) is None
        }),
{
}

proof fn lemma_joined_seven(
    a: Seq<char>,
    b: Seq<char>,
    c: Seq<char>,
    d: Seq<char>,
    e: Seq<char>,
    f: Seq<char>,
    g: Seq<char>,
    s: Seq<char>,
)
    ensures
        joined(seq![a, b, c, d, e, f, g], s) == a + s + b + s + c + s + d + s + e + s + f + s + g,
{
    let none = Seq::<Seq<char>>::empty();
    law_joined_adds_at_the_end(none, a, s);
    assert(none.push(a) =~= seq![a]);
    law_joined_adds_at_the_end(seq![a], b, s);
    assert(seq![a].push(b) =~= seq![a, b]);
    law_joined_adds_at_the_end(seq![a, b], c, s);
    assert(seq![a, b].push(c) =~= seq![a, b, c]);
    law_joined_adds_at_the_end(seq![a, b, c], d, s);
    assert(seq![a, b, c].push(d) =~= seq![a, b, c, d]);
    law_joined_adds_at_the_end(seq![a, b, c, d], e, s);
    assert(seq![a, b, c, d].push(e) =~= seq![a, b, c, d, e]);
    law_joined_adds_at_the_end(seq![a, b, c, d, e], f, s);
    assert(seq![a, b, c, d, e].push(f) =~= seq![a, b, c, d, e, f]);
    law_joined_adds_at_the_end(seq![a, b, c, d, e, f], g, s);
    assert(seq![a, b, c, d, e, f].push(g) =~= seq![a, b, c, d, e, f, g]);
}

/// What is said of a backend, member by member; what is not known is `null`.
pub proof fn law_health_is_told(
    name: Seq<char>,
    b: config::Backend,
    health: Map<Seq<char>, HealthView>,
    active: Map<Seq<char>, usize>,
    now: u64,
)
    ensures
        ({
            let h = health_of(health, name);
            let cooling = match cooling_left(h, now) {
                Some(s) => decimal(s),
                None => "null"@,
            };
            let last = match h.last_error {
                Some(e) => quoted(e),
                None => "null"@,
            };
            let took = match h.last_latency_ms {
                Some(ms) => decimal(ms as nat),
                None => "null"@,
            };
            let state = state_text(
                health.dom().contains(name),
                h,
                configured_limit(b),
                count_of(active, name),
                now,
            );
            entry_text(name, b, health, active, now) == "{"@ + ("\"consecutive_failures\":"@
                + decimal(h.failures as nat) + ","@ + ("\"cooling_secs\":"@ + cooling) + ","@ + (
            "\"last_error\":"@ + last) + ","@ + ("\"last_latency_ms\":"@ + took) + ","@ + (
            "\"name\":"@ + quoted(name)) + ","@ + ("\"state\":"@ + quoted(state)) + ","@ + (
            "\"type\":"@ + quoted(type_text(b)))) + "}"@
        }),
{
    let h = health_of(health, name);
    let cooling = nullable_number(cooling_left(h, now));
    let last = crate::openai::nullable(h.last_error);
    let ms: Option<nat> = match h.last_latency_ms {
        Some(x) => Some(x as nat),
        None => None,
    };
    let took = nullable_number(ms);
    if h.last_latency_ms is Some {
        assert(ms == Some(h.last_latency_ms->0 as nat));
    } else {
        assert(ms == None::<nat>);
    }
    let state = state_text(
        health.dom().contains(name),
        h,
        configured_limit(b),
        count_of(active, name),
        now,
    );
    lemma_joined_seven(
        "\"consecutive_failures\":"@ + decimal(h.failures as nat),
        "\"cooling_secs\":"@ + cooling,
        "\"last_error\":"@ + last,
        "\"last_latency_ms\":"@ + took,
        "\"name\":"@ + quoted(name),
        "\"state\":"@ + quoted(state),
        "\"type\":"@ + quoted(type_text(b)),
        ","@,
    );
    let members = seq![
        "\"consecutive_failures\":"@ + decimal(h.failures as nat),
        "\"cooling_secs\":"@ + cooling,
        "\"last_error\":"@ + last,
        "\"last_latency_ms\":"@ + took,
        "\"name\":"@ + quoted(name),
        "\"state\":"@ + quoted(state),
        "\"type\":"@ + quoted(type_text(b)),
    ];
    let plain = seq![
        "\"consecutive_failures\":"@ + decimal(h.failures as nat),
        "\"cooling_secs\":"@ + nullable_number(cooling_left(h, now)),
        "\"last_error\":"@ + crate::openai::nullable(h.last_error),
        "\"last_latency_ms\":"@ + nullable_number(
            match h.last_latency_ms {
                Some(x) => Some(x as nat),
                None => None,
            },
        ),
        "\"name\":"@ + quoted(name),
        "\"state\":"@ + quoted(
            state_text(
                health.dom().contains(name),
                h,
                configured_limit(b),
                count_of(active, name),
                now,
            ),
        ),
        "\"type\":"@ + quoted(type_text(b)),
    ];
    assert(entry_text(name, b, health, active, now) == object_text(plain));
    assert(plain =~= members);
}

/// Every configured backend is told of, in the order of the names.
pub proof fn law_every_backend_is_told(
    cfg: Config,
    health: Map<Seq<char>, HealthView>,
    active: Map<Seq<char>, usize>,
    now: u64,
)
    ensures
        ({
            let names = in_order(
                Seq::new(cfg.backends.pairs().len(), |i: int| cfg.backends.pairs()[i].0),
            );
            backends_text(cfg, health, active, now) == "["@ + joined(
                Seq::new(
                    names.len(),
                    |i: int| entry_text(names[i], cfg.backends@[names[i]], health, active, now),
                ),
                ","@,
            ) + "]"@
        }),
{
    let all = Seq::new(cfg.backends.pairs().len(), |i: int| cfg.backends.pairs()[i].0);
    assert(cfg.backends.pairs().map_values(|p: (Seq<char>, config::Backend)| p.0) =~= all);
    let names = in_order(all);
    assert(names.map_values(
        |n: Seq<char>| entry_text(n, cfg.backends@[n], health, active, now),
    ) =~= Seq::new(
        names.len(),
        |i: int| entry_text(names[i], cfg.backends@[names[i]], health, active, now),
    ));
}

} // verus!
