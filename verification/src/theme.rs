//! The theme injector: the fixed script/style payload forced into every
//! surface, and the policy for when to apply it.
//!
//! Idempotence against repeated application is guaranteed by the payload
//! itself, which checks for its marker element before inserting anything; the
//! injector only decides at which points the payload is applied.

use vstd::prelude::*;

verus! {

/// The id of the style element the payload inserts; its presence in a page
/// means the payload has already run there.
pub open spec fn spec_marker_id() -> Seq<char> {
    "od"@
}

/// The injected payload: a script that inserts a dark-presentation stylesheet
/// unless its marker element already exists. Process-wide constant.
pub open spec fn spec_payload() -> Seq<char> {
    "(function(){if(document.getElementById('od'))return;var s=document.createElement('style');s.id='od';s.textContent='html{filter:invert(.9) hue-rotate(180deg)!important;background:#0a0a0a!important}img,video,canvas,picture,[style*=background-image]{filter:invert(1) hue-rotate(180deg)!important}';(document.head||document.documentElement).appendChild(s);})();"@
}

/// The marker element id the payload checks before inserting itself.
pub fn marker_id() -> (r: &'static str)
    ensures
        r@ == spec_marker_id(),
{
    "od"
}

/// The payload to evaluate inside a surface. Safe to apply any number of
/// times: it re-checks its marker on every run.
pub fn payload() -> (r: &'static str)
    ensures
        r@ == spec_payload(),
{
    "(function(){if(document.getElementById('od'))return;var s=document.createElement('style');s.id='od';s.textContent='html{filter:invert(.9) hue-rotate(180deg)!important;background:#0a0a0a!important}img,video,canvas,picture,[style*=background-image]{filter:invert(1) hue-rotate(180deg)!important}';(document.head||document.documentElement).appendChild(s);})();"
}

/// The asynchronous phases a page load progresses through.
#[derive(Clone, Copy, PartialEq, Eq, Structural, Debug)]
pub enum LoadPhase {
    Started,
    Finished,
}

/// At which points the payload is applied to a surface.
#[derive(Clone, Copy, PartialEq, Eq, Structural, Debug)]
pub struct InjectionPlan {
    /// Install the payload as a standing initialization script when the
    /// surface is built, so it re-runs on every navigation automatically.
    pub at_creation: bool,
    /// Evaluate the payload explicitly when a load starts, before the page's
    /// own scripts run.
    pub at_load_started: bool,
    /// Evaluate the payload explicitly when a load finishes, in case the page
    /// removed it.
    pub at_load_finished: bool,
}

/// The injection policy. A standing initialization script is preferred where
/// the host surface supports one, since it survives navigations without
/// re-invocation; where only explicit evaluation is available, the payload is
/// applied from both load-phase callbacks. Either way it is applied at least
/// at one point that precedes the page's own scripts.
pub fn injection_plan(supports_init_script: bool) -> (r: InjectionPlan)
    ensures
        r.at_creation == supports_init_script,
        r.at_load_started == !supports_init_script,
        r.at_load_finished == !supports_init_script,
        r.at_creation || r.at_load_started,
{
    InjectionPlan {
        at_creation: supports_init_script,
        at_load_started: !supports_init_script,
        at_load_finished: !supports_init_script,
    }
}

} // verus!
