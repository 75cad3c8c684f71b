//! Which backends are tried for a requested model.

use vstd::prelude::*;

use crate::config::{
    all_backends, chain_is_sound, config_is_sound, is_target, router_is_sound, Chain, Config,
};
use crate::text::{str_views, views};

verus! {

/// The backends that a name stands for: those of the chain of that name, or
/// the backend of that name; a chain hides a backend.
pub open spec fn legs_of(cfg: Config, name: Seq<char>) -> Option<Seq<Seq<char>>> {
    if cfg.chains@.dom().contains(name) {
        Some(views(cfg.chains@[name].order@))
    } else if cfg.backends@.dom().contains(name) {
        Some(seq![name])
    } else {
        None
    }
}

/// The backends that are tried for a model: those that its name stands for,
/// else those of the default chain.
pub open spec fn legs_for(cfg: Config, model: Seq<char>) -> Option<Seq<Seq<char>>> {
    if legs_of(cfg, model) is Some {
        legs_of(cfg, model)
    } else {
        legs_of(cfg, cfg.server.default_chain@)
    }
}

/// What is said where even the default chain stands for nothing.
pub open spec fn no_default_text(cfg: Config) -> Seq<char> {
    "default_chain '"@ + cfg.server.default_chain@ + "' resolves to nothing"@
}

/// The legs of a chain.
fn chain_legs<'a>(chain: &'a Chain) -> (r: Vec<&'a str>)
    ensures
        str_views(r@) == views(chain.order@),
{
    let mut out: Vec<&'a str> = Vec::new();
    let mut i: usize = 0;
    while i < chain.order.len()
        invariant
            i <= chain.order@.len(),
            out@.len() == i,
            forall|k: int| 0 <= k < i ==> #[trigger] out@[k]@ == chain.order@[k]@,
        decreases chain.order@.len() - i,
    {
        out.push(chain.order[i].as_str());
        i = i + 1;
    }
    proof {
        assert(str_views(out@) =~= views(chain.order@));
    }
    out
}

/// The backends that a name stands for.
fn lookup_legs<'a>(name: &str, cfg: &'a Config) -> (r: Option<Vec<&'a str>>)
    ensures
        match r {
            Some(v) => legs_of(*cfg, name@) == Some(str_views(v@)),
            None => legs_of(*cfg, name@) is None,
        },
{
    if let Some(chain) = cfg.chains.get(name) {
        return Some(chain_legs(chain));
    }
    match cfg.backends.position(name) {
        Some(i) => {
            let mut out: Vec<&'a str> = Vec::new();
            out.push(cfg.backends.key_at(i).as_str());
            proof {
                assert(str_views(out@) =~= seq![name@]);
            }
            Some(out)
        },
        None => None,
    }
}

/// The backends that are tried for a model, in order.
pub fn resolve<'a>(model: &str, cfg: &'a Config) -> (r: Result<Vec<&'a str>, String>)
    ensures
        match r {
            Ok(v) => legs_for(*cfg, model@) == Some(str_views(v@)),
            Err(e) => legs_for(*cfg, model@) is None && e@ == no_default_text(*cfg),
        },
{
    if let Some(v) = lookup_legs(model, cfg) {
        return Ok(v);
    }
    match lookup_legs(cfg.server.default_chain.as_str(), cfg) {
        Some(v) => Ok(v),
        None => Err(
            "default_chain '".to_owned().concat(cfg.server.default_chain.as_str()).concat(
                "' resolves to nothing",
            ),
        ),
    }
}

/// In a sound configuration every model has something to try, and all of it is
/// defined.
pub proof fn law_every_model_resolves(cfg: Config, model: Seq<char>)
    requires
        config_is_sound(cfg),
    ensures
        legs_for(cfg, model) is Some,
        legs_for(cfg, model)->0.len() > 0,
        all_backends(cfg, legs_for(cfg, model)->0),
{
    let name = if legs_of(cfg, model) is Some {
        model
    } else {
        cfg.server.default_chain@
    };
    if cfg.chains@.dom().contains(name) {
        assert(chain_is_sound(cfg, cfg.chains@[name]));
    }
}

/// In a sound configuration every class of a router leads to what is defined
/// for its target itself, never to the default chain.
pub proof fn law_every_route_resolves(
    cfg: Config,
    router: Seq<char>,
    class: Seq<char>,
)
    requires
        config_is_sound(cfg),
        cfg.routers@.dom().contains(router),
        cfg.routers@[router].routes@.dom().contains(class),
    ensures
        ({
            let target = cfg.routers@[router].routes@[class]@;
            &&& legs_of(cfg, target) is Some
            &&& legs_for(cfg, target) == legs_of(cfg, target)
            &&& legs_for(cfg, target)->0.len() > 0
            &&& all_backends(cfg, legs_for(cfg, target)->0)
        }),
{
    assert(router_is_sound(cfg, router, cfg.routers@[router]));
    assert(is_target(cfg, cfg.routers@[router].routes@[class]@));
    law_every_model_resolves(cfg, cfg.routers@[router].routes@[class]@);
}

/// A configured name is tried as itself, whatever the default chain is.
pub proof fn law_default_only_for_unknown_names(cfg: Config, model: Seq<char>)
    requires
        is_target(cfg, model),
    ensures
        legs_for(cfg, model) == legs_of(cfg, model),
        legs_of(cfg, model) is Some,
{
}

} // verus!
