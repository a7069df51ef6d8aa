//! The manager's cross-command guarantees, stated and proved over the same
//! spec functions the commands' own contracts use.

use vstd::prelude::*;

use crate::geometry::Placement;
use crate::lifecycle::{
    navigate_decision, navigate_post, spec_label_for, state_well_formed, NavigateDecision,
};
use crate::registry::{SurfaceModel, Visibility};
use crate::url_check::url_well_formed;

verus! {

/// Law: after a navigate, the tab has a surface whose commanded URL is the
/// navigated one, whose placement is the one resolved at call time, and
/// which is visible — whatever state the tab was in before.
pub proof fn lemma_navigate_establishes(
    m: Map<Seq<char>, SurfaceModel>,
    t: Seq<char>,
    u: Seq<char>,
    place: Placement,
)
    ensures
        navigate_post(m, t, u, place).contains_key(t),
        navigate_post(m, t, u, place)[t].url == u,
        navigate_post(m, t, u, place)[t].placement == place,
        navigate_post(m, t, u, place)[t].visibility is Visible,
{
}

/// Law: navigate is idempotent for same-URL calls. After any navigate of tab
/// `t` to `u`, a second navigate of `t` to the same `u` decides `Reposition`
/// — no second navigation is triggered — yet still repositions: the state it
/// leaves is exactly the state a single navigate with the new area would
/// have left.
pub proof fn lemma_navigate_idempotent(
    m: Map<Seq<char>, SurfaceModel>,
    t: Seq<char>,
    u: Seq<char>,
    p1: Placement,
    p2: Placement,
)
    ensures
        navigate_decision(navigate_post(m, t, u, p1), t, u) is Reposition,
        navigate_post(navigate_post(m, t, u, p1), t, u, p2) =~= navigate_post(m, t, u, p2),
{
}

/// Law: close removes the tab's entry: afterwards no surface is registered
/// for it, and a second close of the same tab changes nothing — it is a
/// no-op that succeeds.
pub proof fn lemma_close_idempotent(m: Map<Seq<char>, SurfaceModel>, t: Seq<char>)
    ensures
        !m.remove(t).contains_key(t),
        m.remove(t).remove(t) =~= m.remove(t),
{
}

/// Law: in a well-formed state — and `new` establishes one, every command
/// preserves one — every registered surface carries the label its identifier
/// derives and a well-formed commanded URL. With `navigate`'s success clause
/// this owes a same-URL navigate of a registered tab success whenever a host
/// frame is available.
pub proof fn lemma_registered_tab_well_formed(m: Map<Seq<char>, SurfaceModel>, t: Seq<char>)
    ensures
        state_well_formed(m) && m.contains_key(t) ==> m[t].label == spec_label_for(t)
            && url_well_formed(m[t].url),
{
}

/// Law: navigating to a well-formed URL preserves state well-formedness, so
/// the well-formed states are closed under every command.
pub proof fn lemma_navigate_preserves_well_formed(
    m: Map<Seq<char>, SurfaceModel>,
    t: Seq<char>,
    u: Seq<char>,
    place: Placement,
)
    ensures
        state_well_formed(m) && url_well_formed(u) ==> state_well_formed(
            navigate_post(m, t, u, place),
        ),
{
    if state_well_formed(m) && url_well_formed(u) {
        let m2 = navigate_post(m, t, u, place);
        assert forall|t2: Seq<char>| #[trigger] m2.contains_key(t2) implies m2[t2].label
            == spec_label_for(t2) && url_well_formed(m2[t2].url) by {
            if t2 != t {
                assert(m.contains_key(t2));
            }
        }
    }
}

/// Law: a navigate after a close starts from scratch: the close left no stale
/// entry, so the decision is `Create` and the tab gets a completely fresh
/// surface — derived label, the new URL, no title yet, visible, at the newly
/// resolved placement.
pub proof fn lemma_fresh_after_close(
    m: Map<Seq<char>, SurfaceModel>,
    t: Seq<char>,
    u: Seq<char>,
    place: Placement,
)
    ensures
        navigate_decision(m.remove(t), t, u) is Create,
        navigate_post(m.remove(t), t, u, place)[t] == (SurfaceModel {
            label: spec_label_for(t),
            url: u,
            title: Seq::empty(),
            visibility: Visibility::Visible,
            placement: place,
        }),
{
}

} // verus!
