//! Laws on configurations: which are valid, what is wrong with the others, which
//! keys are unknown, and what is doubted.

use vstd::prelude::*;

use crate::config::{
    all_expanded, allowed_in, backend_messages, chain_error, chain_is_sound, collision_message,
    config_error, config_is_sound, default_classifier_max_chars, default_classifier_timeout,
    default_cooldown_secs, default_env_capture_timeout, default_max_response_bytes, default_timeout,
    default_true, document_findings, doubts, entry_findings, error_view, expanded, findings,
    is_target, leg_error, opt_expanded, origin_message, route_error, router_error, router_is_sound,
    section_findings, server_findings, server_messages, text_findings, unknown_in, unknown_message,
    unknown_messages, Backend, Chain, Config, Router, Section, Server,
};
use crate::laws::text::{law_first_of_is_the_first, law_gather_adds_at_the_end};
use crate::text::{
    decimal, first_of, gather, has_prefix, has_suffix, lowered, opt_view, views, without_trailing,
};
use crate::toml_doc::{document_view, entries_of, lemma_table, value_of, TomlItem, TomlView};
use crate::typo::{distance, may_suggest, nearest_place, suggestion, tolerance};

verus! {

// ---------------------------------------------------------------------------
// Validity
// ---------------------------------------------------------------------------

/// A configuration is sound where its default chain is defined, every chain has
/// backends that all are, and every router has a name of its own, a backend to
/// ask, targets that are defined, and a class to fall back on.
pub proof fn law_sound_configurations(
    cfg: Config,
    n: Seq<char>,
    k: int,
    class: Seq<char>,
)
    requires
        config_is_sound(cfg),
    ensures
        cfg.chains@.dom().contains(cfg.server.default_chain@) || cfg.backends@.dom().contains(
            cfg.server.default_chain@,
        ),
        cfg.chains@.dom().contains(n) ==> cfg.chains@[n].order@.len() > 0,
        cfg.chains@.dom().contains(n) && 0 <= k < cfg.chains@[n].order@.len()
            ==> cfg.backends@.dom().contains(cfg.chains@[n].order@[k]@),
        cfg.routers@.dom().contains(n) ==> {
            let r = cfg.routers@[n];
            &&& !cfg.chains@.dom().contains(n)
            &&& !cfg.backends@.dom().contains(n)
            &&& cfg.backends@.dom().contains(r.classifier@)
            &&& r.routes@.dom().contains(r.fallback_class@)
            &&& r.routes@.dom().contains(class) ==> cfg.chains@.dom().contains(r.routes@[class]@)
                || cfg.backends@.dom().contains(r.routes@[class]@)
        },
{
    if cfg.chains@.dom().contains(n) {
        assert(chain_is_sound(cfg, cfg.chains@[n]));
        if 0 <= k < cfg.chains@[n].order@.len() {
            assert(views(cfg.chains@[n].order@)[k] == cfg.chains@[n].order@[k]@);
        }
    }
    if cfg.routers@.dom().contains(n) {
        assert(router_is_sound(cfg, n, cfg.routers@[n]));
        if cfg.routers@[n].routes@.dom().contains(class) {
            assert(is_target(cfg, cfg.routers@[n].routes@[class]@));
        }
    }
}

/// The first chain with a fault is told of before anything else.
pub proof fn law_chains_are_looked_at_first(cfg: Config, resolves: bool, i: int)
    requires
        0 <= i < cfg.chains.pairs().len(),
        forall|j: int|
            0 <= j < i ==> chain_error(
                cfg,
                (#[trigger] cfg.chains.pairs()[j]).0,
                cfg.chains.pairs()[j].1,
            ) is None,
    ensures
        ({
            let name = cfg.chains.pairs()[i].0;
            let chain = cfg.chains.pairs()[i].1;
            chain_error(cfg, name, chain) is Some ==> config_error(cfg, resolves) == chain_error(
                cfg,
                name,
                chain,
            )
        }),
{
    law_first_of_is_the_first(
        cfg.chains.pairs(),
        |p: (Seq<char>, Chain)| chain_error(cfg, p.0, p.1),
        i,
    );
}

proof fn lemma_front_none<T>(items: Seq<T>, f: spec_fn(T) -> Option<Seq<char>>)
    requires
        forall|k: int| 0 <= k < items.len() ==> f(#[trigger] items[k]) is None,
    ensures
        first_of(items, f) is None,
    decreases items.len(),
{
    if items.len() > 0 {
        let front = items.drop_last();
        assert forall|k: int| 0 <= k < front.len() implies f(#[trigger] front[k]) is None by {
            assert(front[k] == items[k]);
        }
        lemma_front_none(front, f);
        assert(f(items[items.len() - 1]) is None);
    }
}

/// Where no chain has a fault, the default chain is looked at, then the address,
/// then the routers in order; and where nothing is wrong there is no error.
pub proof fn law_faults_are_told_in_order(cfg: Config, resolves: bool, i: int)
    requires
        forall|j: int|
            0 <= j < cfg.chains.pairs().len() ==> chain_error(
                cfg,
                (#[trigger] cfg.chains.pairs()[j]).0,
                cfg.chains.pairs()[j].1,
            ) is None,
    ensures
        ({
            let d = cfg.server.default_chain@;
            let known = cfg.chains@.dom().contains(d) || cfg.backends@.dom().contains(d);
            &&& !known ==> config_error(cfg, resolves) == Some(
                "server.default_chain '"@ + d + "' is not a defined chain or backend"@,
            )
            &&& known && !resolves ==> config_error(cfg, resolves) == Some(
                "server.listen '"@ + cfg.server.listen@
                    + "' is not a valid address:port (e.g. \"127.0.0.1:3456\")"@,
            )
            &&& known && resolves && 0 <= i < cfg.routers.pairs().len() && (forall|j: int|
                0 <= j < i ==> router_error(
                    cfg,
                    (#[trigger] cfg.routers.pairs()[j]).0,
                    cfg.routers.pairs()[j].1,
                ) is None) && router_error(cfg, cfg.routers.pairs()[i].0, cfg.routers.pairs()[i].1)
                is Some ==> config_error(cfg, resolves) == router_error(
                cfg,
                cfg.routers.pairs()[i].0,
                cfg.routers.pairs()[i].1,
            )
            &&& known && resolves && (forall|j: int|
                0 <= j < cfg.routers.pairs().len() ==> router_error(
                    cfg,
                    (#[trigger] cfg.routers.pairs()[j]).0,
                    cfg.routers.pairs()[j].1,
                ) is None) ==> config_error(cfg, resolves) is None
        }),
{
    let f = |p: (Seq<char>, Chain)| chain_error(cfg, p.0, p.1);
    let g = |p: (Seq<char>, Router)| router_error(cfg, p.0, p.1);
    lemma_front_none(cfg.chains.pairs(), f);
    if 0 <= i < cfg.routers.pairs().len() && forall|j: int|
        0 <= j < i ==> router_error(
            cfg,
            (#[trigger] cfg.routers.pairs()[j]).0,
            cfg.routers.pairs()[j].1,
        ) is None {
        law_first_of_is_the_first(cfg.routers.pairs(), g, i);
    }
    if forall|j: int|
        0 <= j < cfg.routers.pairs().len() ==> router_error(
            cfg,
            (#[trigger] cfg.routers.pairs()[j]).0,
            cfg.routers.pairs()[j].1,
        ) is None {
        lemma_front_none(cfg.routers.pairs(), g);
    }
}

/// A chain is at fault where it has no backends, and else for the first that is
/// not defined.
pub proof fn law_chain_faults(cfg: Config, name: Seq<char>, chain: Chain, i: int)
    ensures
        chain.order@.len() == 0 ==> chain_error(cfg, name, chain) == Some(
            "chain '"@ + name + "' has an empty order"@,
        ),
        0 <= i < chain.order@.len() && !cfg.backends@.dom().contains(chain.order@[i]@) && (forall|
            j: int,
        |
            0 <= j < i ==> cfg.backends@.dom().contains((#[trigger] chain.order@[j])@))
            ==> chain_error(cfg, name, chain) == Some(
            "chain '"@ + name + "' references undefined backend '"@ + chain.order@[i]@ + "'"@,
        ),
        chain.order@.len() > 0 && (forall|j: int|
            0 <= j < chain.order@.len() ==> cfg.backends@.dom().contains(
                (#[trigger] chain.order@[j])@,
            )) ==> chain_error(cfg, name, chain) is None,
{
    let f = |b: Seq<char>| leg_error(cfg, name, b);
    let v = views(chain.order@);
    assert forall|j: int| 0 <= j < v.len() implies #[trigger] v[j] == chain.order@[j]@ by {}
    if 0 <= i < chain.order@.len() && !cfg.backends@.dom().contains(chain.order@[i]@) && (forall|
        j: int,
    |
        0 <= j < i ==> cfg.backends@.dom().contains((#[trigger] chain.order@[j])@)) {
        assert forall|k: int| 0 <= k < i implies f(#[trigger] v[k]) is None by {
            assert(cfg.backends@.dom().contains(chain.order@[k]@));
        }
        law_first_of_is_the_first(v, f, i);
    }
    if chain.order@.len() > 0 && (forall|j: int|
        0 <= j < chain.order@.len() ==> cfg.backends@.dom().contains(
            (#[trigger] chain.order@[j])@,
        )) {
        assert forall|k: int| 0 <= k < v.len() implies f(#[trigger] v[k]) is None by {
            assert(cfg.backends@.dom().contains(chain.order@[k]@));
        }
        lemma_front_none(v, f);
    }
}

/// Something with the name is defined.
pub open spec fn defined(cfg: Config, n: Seq<char>) -> bool {
    cfg.chains@.dom().contains(n) || cfg.backends@.dom().contains(n)
}

/// A router is at fault for its name, then for what it asks, then for having no
/// routes, then for the first that leads nowhere, then for what it falls back
/// on; and else not.
pub proof fn law_router_faults(cfg: Config, name: Seq<char>, r: Router, i: int)
    ensures
        ({
            let named = cfg.chains@.dom().contains(name) || cfg.backends@.dom().contains(name);
            let asks = cfg.backends@.dom().contains(r.classifier@);
            let routes = r.routes.pairs();
            let sound = forall|j: int|
                0 <= j < routes.len() ==> defined(cfg, (#[trigger] routes[j]).1@);
            &&& named ==> router_error(cfg, name, r) == Some(
                "router '"@ + name + "' collides with a chain or backend name — rename one"@,
            )
            &&& !named && !asks ==> router_error(cfg, name, r) == Some(
                "router '"@ + name + "' classifier '"@ + r.classifier@
                    + "' is not a defined backend"@,
            )
            &&& !named && asks && routes.len() == 0 ==> router_error(cfg, name, r) == Some(
                "router '"@ + name + "' has no [routers."@ + name + ".routes]"@,
            )
            &&& !named && asks && 0 <= i < routes.len() && !defined(cfg, routes[i].1@) && (forall|
                j: int,
            |
                0 <= j < i ==> defined(cfg, (#[trigger] routes[j]).1@)) ==> router_error(
                cfg,
                name,
                r,
            ) == Some(
                "router '"@ + name + "' route '"@ + routes[i].0 + "' -> '"@ + routes[i].1@
                    + "' is not a defined chain or backend"@,
            )
            &&& !named && asks && routes.len() > 0 && sound && !r.routes@.dom().contains(
                r.fallback_class@,
            ) ==> router_error(cfg, name, r) == Some(
                "router '"@ + name + "' fallback_class '"@ + r.fallback_class@
                    + "' is not one of its routes"@,
            )
            &&& !named && asks && routes.len() > 0 && sound && r.routes@.dom().contains(
                r.fallback_class@,
            ) ==> router_error(cfg, name, r) is None
        }),
{
    let f = |p: (Seq<char>, String)| route_error(cfg, name, p.0, p.1@);
    let routes = r.routes.pairs();
    if 0 <= i < routes.len() && forall|j: int|
        0 <= j < i ==> defined(cfg, (#[trigger] routes[j]).1@) {
        assert forall|k: int| 0 <= k < i implies f(#[trigger] routes[k]) is None by {
            assert(defined(cfg, routes[k].1@));
        }
        law_first_of_is_the_first(routes, f, i);
    }
    if forall|j: int| 0 <= j < routes.len() ==> defined(cfg, (#[trigger] routes[j]).1@) {
        assert forall|k: int| 0 <= k < routes.len() implies f(#[trigger] routes[k]) is None by {
            assert(defined(cfg, routes[k].1@));
        }
        lemma_front_none(routes, f);
    }
}

/// What is said of a configuration is said as it is.
pub proof fn law_errors_are_taken_as_they_are(e: String)
    ensures
        error_view(Ok(())) is None,
        error_view(Err(e)) == Some(e@),
{
}

/// What is not configured.
pub proof fn law_defaults(
    timeout: u64,
    capture: u64,
    bytes: u64,
    on: bool,
    cooldown: u64,
    classifier: u64,
    chars: usize,
)
    requires
        call_ensures(default_timeout, (), timeout),
        call_ensures(default_env_capture_timeout, (), capture),
        call_ensures(default_max_response_bytes, (), bytes),
        call_ensures(default_true, (), on),
        call_ensures(default_cooldown_secs, (), cooldown),
        call_ensures(default_classifier_timeout, (), classifier),
        call_ensures(default_classifier_max_chars, (), chars),
    ensures
        timeout == 1800,
        capture == 15,
        bytes == 67108864,
        on,
        cooldown == 60,
        classifier == 5,
        chars == 4000,
{
}

// ---------------------------------------------------------------------------
// Unknown keys
// ---------------------------------------------------------------------------

/// The keys of a table that are not allowed are told in order, each under the
/// table's own name and with the nearest key that is allowed.
pub proof fn law_unknown_keys_are_told(
    prefix: Seq<char>,
    table: Seq<(Seq<char>, TomlView)>,
    e: (Seq<char>, TomlView),
    allowed: Seq<Seq<char>>,
)
    ensures
        unknown_in(prefix, Seq::empty(), allowed).len() == 0,
        allowed.contains(e.0) ==> unknown_in(prefix, table.push(e), allowed) == unknown_in(
            prefix,
            table,
            allowed,
        ),
        !allowed.contains(e.0) ==> unknown_in(prefix, table.push(e), allowed) == unknown_in(
            prefix,
            table,
            allowed,
        ).push((prefix + e.0, suggestion(e.0, allowed))),
{
    let f = |x: (Seq<char>, TomlView)| crate::config::key_finding(prefix, allowed, x.0);
    law_gather_adds_at_the_end(table, e, f);
    assert(unknown_in(prefix, table.push(e), allowed) =~= if allowed.contains(e.0) {
        unknown_in(prefix, table, allowed)
    } else {
        unknown_in(prefix, table, allowed).push((prefix + e.0, suggestion(e.0, allowed)))
    });
}

/// A document is looked through from the top: its own keys, those of `server`,
/// and those of each entry under `chains`, `backends` and `routers`.
pub proof fn law_documents_are_looked_through(doc: Seq<(Seq<char>, TomlView)>, v: TomlView)
    ensures
        document_findings(doc) == unknown_in(
            Seq::empty(),
            doc,
            seq!["server"@, "backends"@, "chains"@, "routers"@],
        ) + server_findings(doc) + section_findings(doc, Section::Chains) + section_findings(
            doc,
            Section::Backends,
        ) + section_findings(doc, Section::Routers),
        text_findings(None).len() == 0,
        text_findings(Some(TomlView::Table(doc))) == document_findings(doc),
        !(v is Table) ==> text_findings(Some(v)).len() == 0,
{
}

/// The keys that each table may have.
pub proof fn law_allowed_keys(
    doc: Seq<(Seq<char>, TomlView)>,
    t: Seq<(Seq<char>, TomlView)>,
    ty: Seq<char>,
)
    ensures
        value_of(doc, "server"@) == Some(TomlView::Table(t)) ==> server_findings(doc) == unknown_in(
            "server."@,
            t,
            seq![
                "listen"@,
                "default_chain"@,
                "request_timeout_secs"@,
                "env_source"@,
                "log_level"@,
                "env_capture_timeout_secs"@,
                "auth"@,
                "auth_token_env"@,
                "env_pass"@,
                "max_response_bytes"@,
                "workers"@,
                "chain_budget_secs"@,
                "cooldown"@,
                "cooldown_secs"@,
                "strict_models"@,
                "cors_origins"@,
            ],
        ),
        !(value_of(doc, "server"@) matches Some(TomlView::Table(_))) ==> server_findings(doc).len()
            == 0,
        allowed_in(Section::Chains, t) == seq!["order"@],
        allowed_in(Section::Routers, t) == seq![
            "classifier"@,
            "classifier_timeout_secs"@,
            "classifier_max_chars"@,
            "fallback_class"@,
            "classifier_prompt"@,
            "routes"@,
        ],
        value_of(t, "type"@) == Some(TomlView::Text("tmuxlet"@)) ==> allowed_in(Section::Backends, t)
            == seq![
            "type"@,
            "target"@,
            "target_args"@,
            "cwd"@,
            "allow_empty"@,
            "env_pass"@,
            "max_concurrent"@,
            "prompt_mode"@,
        ],
        value_of(t, "type"@) == Some(TomlView::Text("api"@)) ==> allowed_in(Section::Backends, t)
            == seq![
            "type"@,
            "base_url"@,
            "model"@,
            "api_key_env"@,
            "extra_body"@,
            "timeout_secs"@,
            "allow_empty"@,
            "max_concurrent"@,
            "ca_file"@,
        ],
        value_of(t, "type"@) == Some(TomlView::Text("cli"@)) ==> allowed_in(Section::Backends, t)
            == seq![
            "type"@,
            "bin"@,
            "args"@,
            "pty"@,
            "cwd"@,
            "pty_size"@,
            "allow_empty"@,
            "env_pass"@,
            "stdin_prompt"@,
            "max_concurrent"@,
            "prompt_mode"@,
        ],
        value_of(t, "type"@) == Some(TomlView::Text(ty)) && ty != "tmuxlet"@ && ty != "api"@ && ty
            != "cli"@ ==> allowed_in(Section::Backends, t) == seq!["type"@],
        !(value_of(t, "type"@) matches Some(TomlView::Text(_))) ==> allowed_in(Section::Backends, t)
            == seq!["type"@],
{
    reveal_strlit("tmuxlet");
    reveal_strlit("api");
    reveal_strlit("cli");
    assert("tmuxlet"@.len() == 7 && "api"@.len() == 3 && "cli"@.len() == 3);
    assert("api"@[0] == 'a' && "cli"@[0] == 'c');
}

/// The entries of a section are looked through in order; what is no table has
/// no keys.
pub proof fn law_sections_are_looked_through(
    doc: Seq<(Seq<char>, TomlView)>,
    t: Seq<(Seq<char>, TomlView)>,
    name: Seq<char>,
    entry: TomlView,
    s: Section,
)
    ensures
        ({
            let of = match s {
                Section::Chains => "chains"@,
                Section::Backends => "backends"@,
                Section::Routers => "routers"@,
            };
            let f = |e: (Seq<char>, TomlView)| entry_findings(s, e);
            &&& value_of(doc, of) == Some(TomlView::Table(t)) ==> section_findings(doc, s) == gather(
                t,
                f,
            )
            &&& !(value_of(doc, of) matches Some(TomlView::Table(_))) ==> section_findings(
                doc,
                s,
            ).len() == 0
            &&& entry == TomlView::Table(t) ==> entry_findings(s, (name, entry)) == unknown_in(
                of + "."@ + name + "."@,
                t,
                allowed_in(s, t),
            )
            &&& !(entry is Table) ==> entry_findings(s, (name, entry)).len() == 0
        }),
{
}

/// A value is looked up by its key: the first that has it counts.
pub proof fn law_keys_are_looked_up(t: Seq<(Seq<char>, TomlView)>, k: Seq<char>, i: int)
    ensures
        0 <= i < t.len() && t[i].0 == k && (forall|j: int| 0 <= j < i ==> (#[trigger] t[j]).0 != k)
            ==> value_of(t, k) == Some(t[i].1),
        (forall|j: int| 0 <= j < t.len() ==> (#[trigger] t[j]).0 != k) ==> value_of(t, k) is None,
    decreases t.len(),
{
    if t.len() > 0 {
        let rest = t.drop_first();
        law_keys_are_looked_up(rest, k, i - 1);
        if 0 <= i < t.len() && t[i].0 == k && (forall|j: int| 0 <= j < i ==> (#[trigger] t[j]).0 != k)
            && i > 0 {
            assert(t[0].0 != k);
            assert forall|j: int| 0 <= j < i - 1 implies (#[trigger] rest[j]).0 != k by {
                assert(t[j + 1].0 != k);
            }
        }
        if forall|j: int| 0 <= j < t.len() ==> (#[trigger] t[j]).0 != k {
            assert(t[0].0 != k);
            assert forall|j: int| 0 <= j < rest.len() implies (#[trigger] rest[j]).0 != k by {
                assert(t[j + 1].0 != k);
            }
        }
    }
}

/// Documents and findings of the model are those of the library, part by part.
pub proof fn law_documents_are_taken_as_they_are(
    t: Vec<(String, TomlItem)>,
    s: String,
    v: Seq<(String, Option<String>)>,
    i: int,
    item: TomlItem,
)
    ensures
        TomlItem::Text(s)@ == TomlView::Text(s@),
        TomlItem::Other@ == TomlView::Other,
        TomlItem::Table(t)@ matches TomlView::Table(e) && e.len() == t@.len() && (0 <= i < t@.len()
            ==> e[i] == (t@[i].0@, t@[i].1@)),
        entries_of(t@).len() == t@.len(),
        0 <= i < t@.len() ==> entries_of(t@)[i] == (t@[i].0@, t@[i].1@),
        findings(v).len() == v.len(),
        0 <= i < v.len() ==> findings(v)[i] == (v[i].0@, opt_view(v[i].1)),
        document_view(Some(item)) == Some(item@),
        document_view(None) is None,
{
    lemma_table(t);
}

/// `type` is never suggested; a word may be off by two, or by a third of its
/// bytes where that is more; and of words that are as near the first counts.
pub proof fn law_the_first_of_the_nearest_is_suggested(
    key: Seq<char>,
    candidates: Seq<Seq<char>>,
    i: int,
)
    ensures
        may_suggest(key) <==> key != "type"@,
        vstd::utf8::encode_utf8(key).len() < 6 ==> tolerance(key) == 2,
        vstd::utf8::encode_utf8(key).len() >= 6 ==> tolerance(key) == vstd::utf8::encode_utf8(
            key,
        ).len() / 3,
        0 <= i < candidates.len() && candidates[i] != "type"@ && distance(key, candidates[i])
            <= tolerance(key) && (forall|j: int|
            0 <= j < i && #[trigger] candidates[j] != "type"@ ==> distance(key, candidates[j])
                > distance(key, candidates[i])) && (forall|j: int|
            i < j < candidates.len() && #[trigger] candidates[j] != "type"@ ==> distance(
                key,
                candidates[j],
            ) >= distance(key, candidates[i])) ==> suggestion(key, candidates) == Some(
            candidates[i],
        ),
{
    if 0 <= i < candidates.len() && candidates[i] != "type"@ && (forall|j: int|
        0 <= j < i && #[trigger] candidates[j] != "type"@ ==> distance(key, candidates[j])
            > distance(key, candidates[i])) && (forall|j: int|
        i < j < candidates.len() && #[trigger] candidates[j] != "type"@ ==> distance(
            key,
            candidates[j],
        ) >= distance(key, candidates[i])) {
        lemma_first_nearest(key, candidates, i);
    }
}

proof fn lemma_place_in_range(key: Seq<char>, candidates: Seq<Seq<char>>)
    ensures
        -1 <= nearest_place(key, candidates) < candidates.len(),
        nearest_place(key, candidates) >= 0 ==> candidates[nearest_place(key, candidates)]
            != "type"@,
    decreases candidates.len(),
{
    if candidates.len() > 0 {
        lemma_place_in_range(key, candidates.drop_last());
        let p = nearest_place(key, candidates.drop_last());
        if p >= 0 {
            assert(candidates.drop_last()[p] == candidates[p]);
        }
    }
}

proof fn lemma_first_nearest(key: Seq<char>, candidates: Seq<Seq<char>>, i: int)
    requires
        0 <= i < candidates.len(),
        candidates[i] != "type"@,
        forall|j: int|
            0 <= j < i && #[trigger] candidates[j] != "type"@ ==> distance(key, candidates[j])
                > distance(key, candidates[i]),
        forall|j: int|
            i < j < candidates.len() && #[trigger] candidates[j] != "type"@ ==> distance(
                key,
                candidates[j],
            ) >= distance(key, candidates[i]),
    ensures
        nearest_place(key, candidates) == i,
    decreases candidates.len(),
{
    let front = candidates.drop_last();
    assert forall|j: int| 0 <= j < front.len() implies #[trigger] front[j] == candidates[j] by {}
    if i == candidates.len() - 1 {
        lemma_place_in_range(key, front);
        let p = nearest_place(key, front);
        if p >= 0 {
            assert(candidates[p] == front[p]);
            assert(distance(key, candidates[p]) > distance(key, candidates[i]));
        }
    } else {
        assert forall|j: int| 0 <= j < i && #[trigger] front[j] != "type"@ implies distance(
            key,
            front[j],
        ) > distance(key, front[i]) by {
            assert(candidates[j] != "type"@);
        }
        assert forall|j: int| i < j < front.len() && #[trigger] front[j] != "type"@ implies distance(
            key,
            front[j],
        ) >= distance(key, front[i]) by {
            assert(candidates[j] != "type"@);
        }
        lemma_first_nearest(key, front, i);
        assert(candidates[candidates.len() - 1] == candidates.last());
    }
}

// ---------------------------------------------------------------------------
// Paths
// ---------------------------------------------------------------------------

/// `~` is the home directory, alone or before a slash, and nowhere else; where
/// there is no home every path stays as it is.
pub proof fn law_tildes_are_the_home(s: Seq<char>, home: Seq<char>)
    ensures
        expanded(s, None) == s,
        expanded("~"@, Some(home)) == home,
        expanded("~/"@ + s, Some(home)) == home + "/"@ + s,
        s != "~"@ && !has_prefix(s, "~/"@) ==> expanded(s, Some(home)) == s,
        opt_expanded(None, Some(home)) is None,
        opt_expanded(Some(s), Some(home)) == Some(expanded(s, Some(home))),
{
    reveal_strlit("~");
    reveal_strlit("~/");
    assert("~"@.len() == 1 && "~/"@.len() == 2);
    let p = "~/"@ + s;
    assert(p.take(2) =~= "~/"@);
    assert(p.skip(2) =~= s);
    assert(p.len() >= 2);
}

/// Expanding changes directories, programs and certificate files, and nothing
/// else of a backend.
pub proof fn law_only_paths_are_expanded(
    old: Seq<(Seq<char>, Backend)>,
    new: Seq<(Seq<char>, Backend)>,
    home: Option<Seq<char>>,
    i: int,
)
    requires
        all_expanded(old, new, home),
        0 <= i < old.len(),
    ensures
        new.len() == old.len(),
        new[i].0 == old[i].0,
        ({
            let a = old[i].1;
            let b = new[i].1;
            &&& a is Tmuxlet ==> {
                &&& b is Tmuxlet
                &&& b->Tmuxlet_target == a->Tmuxlet_target
                &&& b->Tmuxlet_target_args == a->Tmuxlet_target_args
                &&& (a->Tmuxlet_cwd is None ==> b->Tmuxlet_cwd is None)
                &&& (a->Tmuxlet_cwd matches Some(d) ==> opt_view(b->Tmuxlet_cwd) == Some(
                    expanded(d@, home),
                ))
                &&& b->Tmuxlet_allow_empty == a->Tmuxlet_allow_empty
                &&& b->Tmuxlet_env_pass == a->Tmuxlet_env_pass
                &&& b->Tmuxlet_max_concurrent == a->Tmuxlet_max_concurrent
                &&& b->Tmuxlet_prompt_mode == a->Tmuxlet_prompt_mode
            }
            &&& a is Api ==> {
                &&& b is Api
                &&& b->Api_base_url == a->Api_base_url
                &&& b->Api_model == a->Api_model
                &&& b->Api_api_key_env == a->Api_api_key_env
                &&& b->Api_extra_body == a->Api_extra_body
                &&& b->Api_timeout_secs == a->Api_timeout_secs
                &&& b->Api_allow_empty == a->Api_allow_empty
                &&& b->Api_max_concurrent == a->Api_max_concurrent
                &&& (a->Api_ca_file is None ==> b->Api_ca_file is None)
                &&& (a->Api_ca_file matches Some(d) ==> opt_view(b->Api_ca_file) == Some(
                    expanded(d@, home),
                ))
            }
            &&& a is Cli ==> {
                &&& b is Cli
                &&& b->Cli_bin@ == expanded(a->Cli_bin@, home)
                &&& b->Cli_args == a->Cli_args
                &&& b->Cli_pty == a->Cli_pty
                &&& (a->Cli_cwd is None ==> b->Cli_cwd is None)
                &&& (a->Cli_cwd matches Some(d) ==> opt_view(b->Cli_cwd) == Some(
                    expanded(d@, home),
                ))
                &&& b->Cli_pty_size == a->Cli_pty_size
                &&& b->Cli_allow_empty == a->Cli_allow_empty
                &&& b->Cli_env_pass == a->Cli_env_pass
                &&& b->Cli_stdin_prompt == a->Cli_stdin_prompt
                &&& b->Cli_max_concurrent == a->Cli_max_concurrent
                &&& b->Cli_prompt_mode == a->Cli_prompt_mode
            }
        }),
{
    assert(new[i].0 == old[i].0);
}

// ---------------------------------------------------------------------------
// Doubts
// ---------------------------------------------------------------------------

/// What is doubted, and in what order: the unknown keys, the names that stand
/// for two things, the server's settings, the backends', and the origins.
pub proof fn law_doubts_are_told_in_order(
    cfg: Config,
    unknown: Seq<(Seq<char>, Option<Seq<char>>)>,
    present: Seq<Seq<char>>,
    i: int,
    key: Seq<char>,
    near: Seq<char>,
)
    ensures
        doubts(cfg, unknown, present) == unknown_messages(unknown) + gather(
            cfg.chains.pairs(),
            |p: (Seq<char>, Chain)| collision_message(cfg, p.0),
        ) + server_messages(cfg.server) + gather(
            cfg.backends.pairs(),
            |p: (Seq<char>, Backend)| backend_messages(p.0, p.1, present),
        ) + gather(views(cfg.server.cors_origins@), |o: Seq<char>| origin_message(o)),
        unknown_messages(unknown).len() == unknown.len(),
        0 <= i < unknown.len() ==> unknown_messages(unknown)[i] == unknown_message(unknown[i]),
        unknown_message((key, None)) == "unknown config key '"@ + key + "'"@,
        unknown_message((key, Some(near))) == "unknown config key '"@ + key + "' — did you mean '"@
            + near + "'?"@,
        cfg.backends@.dom().contains(key) ==> collision_message(cfg, key) == seq![
            "'"@ + key
                + "' is both a chain and a backend; the chain shadows the backend in routing — rename one"@,
        ],
        !cfg.backends@.dom().contains(key) ==> collision_message(cfg, key).len() == 0,
{
}

/// What is doubted of the server: a timeout of nothing, no workers, and names
/// that are not known.
pub proof fn law_server_doubts(server: Server, m: Seq<char>)
    ensures
        ({
            let timeout =
                "server.request_timeout_secs = 0 means 'no deadline' for api backends but 'instant timeout' for cli/tmuxlet — omit the key for the default (1800)"@;
            let workers =
                "server.workers = 0 spawns no worker threads and would serve nothing — set workers >= 1 or omit the key for the default"@;
            let source = "server.env_source '"@ + server.env_source@
                + "' is neither 'shell' nor 'process' — it will be treated as 'shell'"@;
            let level = "server.log_level '"@ + server.log_level@
                + "' is not one of error|warn|info|debug — it will be treated as 'info'"@;
            let bad_timeout = server.request_timeout_secs == 0;
            let bad_workers = server.workers matches Some(n) && n == 0;
            let bad_source = server.env_source@ != "shell"@ && server.env_source@ != "process"@;
            let bad_level = server.log_level@ != "error"@ && server.log_level@ != "warn"@
                && server.log_level@ != "info"@ && server.log_level@ != "debug"@;
            server_messages(server) == (if bad_timeout {
                seq![timeout]
            } else {
                seq![]
            }) + (if bad_workers {
                seq![workers]
            } else {
                seq![]
            }) + (if bad_source {
                seq![source]
            } else {
                seq![]
            }) + (if bad_level {
                seq![level]
            } else {
                seq![]
            })
        }),
{
}

/// What is doubted of a backend: a terminal's size that is not two numbers, a
/// prompt mode that is not known, and a certificate file that is not there.
pub proof fn law_backend_doubts(name: Seq<char>, b: Backend, present: Seq<Seq<char>>)
    ensures
        ({
            let mode = match b {
                Backend::Cli { prompt_mode: Some(m), .. } => Some(m@),
                Backend::Tmuxlet { prompt_mode: Some(m), .. } => Some(m@),
                _ => None,
            };
            let size: Seq<Seq<char>> = if b is Cli && b->Cli_pty_size is Some && (
            b->Cli_pty_size->0)@.len() != 2 {
                seq![
                    "backends."@ + name + ".pty_size must be [cols, rows] (2 elements), got "@
                        + decimal((b->Cli_pty_size->0)@.len()) + " — using the default [200, 50]"@,
                ]
            } else {
                seq![]
            };
            let bad_mode: Seq<Seq<char>> = if mode is Some && mode->0 != "transcript"@ && mode->0
                != "last_user"@ {
                seq![
                    "backends."@ + name + ".prompt_mode '"@ + mode->0
                        + "' is neither 'transcript' nor 'last_user' — using 'transcript'"@,
                ]
            } else {
                seq![]
            };
            let file: Seq<Seq<char>> = if b is Api && b->Api_ca_file is Some && !present.contains(
                (b->Api_ca_file->0)@,
            ) {
                seq![
                    "backends."@ + name + ".ca_file '"@ + (b->Api_ca_file->0)@
                        + "' does not exist — create it or drop the key to use the system CAs"@,
                ]
            } else {
                seq![]
            };
            backend_messages(name, b, present) == size + bad_mode + file
        }),
{
}

/// What is doubted of an origin: one that no browser sends, in the order of what
/// is wrong with it.
pub proof fn law_origin_doubts(o: Seq<char>)
    ensures
        ({
            let scheme = has_prefix(o, "http://"@) || has_prefix(o, "https://"@);
            let slash = has_suffix(o, "/"@);
            let capital = exists|i: int| 0 <= i < o.len() && 'A' <= #[trigger] o[i] <= 'Z';
            &&& o == "*"@ ==> origin_message(o) == seq![
                "server.cors_origins entry \"*\" is not a wildcard — matching is exact; list each origin explicitly, e.g. http://localhost:5173"@,
            ]
            &&& o == "null"@ ==> origin_message(o) == seq![
                "server.cors_origins entry \"null\" matches the spoofable \"Origin: null\" (sandboxed iframes, file://); remove it unless you truly mean to allow those"@,
            ]
            &&& o != "*"@ && o != "null"@ && !scheme ==> origin_message(o) == seq![
                "server.cors_origins '"@ + o
                    + "' has no scheme — a browser Origin is scheme://host[:port], e.g. http://"@
                    + o,
            ]
            &&& o != "*"@ && o != "null"@ && scheme && slash ==> origin_message(o) == seq![
                "server.cors_origins '"@ + o
                    + "' has a trailing slash — a browser Origin has none, e.g. "@
                    + without_trailing(o, '/'),
            ]
            &&& o != "*"@ && o != "null"@ && scheme && !slash && capital ==> origin_message(o)
                == seq![
                "server.cors_origins '"@ + o
                    + "' has uppercase characters — browsers send the Origin lowercased, so it can never match; use '"@
                    + lowered(o) + "'"@,
            ]
            &&& o != "*"@ && o != "null"@ && scheme && !slash && !capital ==> origin_message(
                o,
            ).len() == 0
        }),
{
    reveal_strlit("*");
    reveal_strlit("null");
    assert("*"@.len() == 1 && "null"@.len() == 4);
}

} // verus!
