//! The lifecycle controller: the state machine the front end drives through
//! the navigate, resize, hide-all, show and close commands.
//!
//! Each command consults the registry, decides create-vs-reuse, resolves the
//! absolute placement, mutates the registry, and returns the native effect the
//! platform layer must perform. Commands are serialized: each executes to
//! completion before another runs, which keeps the registry's check-then-act
//! discipline sound.

use vstd::prelude::*;
use vstd::pervasive::unreached;
use vstd::string::*;

use crate::errors::TabError;
use crate::geometry::{HostFrame, LogicalArea, Placement, placement_fits, resolve, resolve_spec};
use crate::registry::{SurfaceHandle, SurfaceModel, SurfaceRegistry, Visibility};
use crate::url_check::{url_is_valid, url_well_formed};

verus! {

/// The surface label a tab identifier derives: the identifier behind a fixed
/// prefix, so the native layer can tell tab surfaces from other windows.
pub open spec fn spec_label_for(id: Seq<char>) -> Seq<char> {
    "browse-"@ + id
}

/// Derives the internal surface label for a tab identifier.
pub fn label_for(tab_id: &String) -> (r: String)
    ensures
        r@ == spec_label_for(tab_id@),
{
    let mut label = String::from_str("browse-");
    label.append(tab_id.as_str());
    label
}

/// What a navigate command decides to do with the surface.
#[derive(Clone, Copy, PartialEq, Eq, Structural, Debug)]
pub enum NavigateDecision {
    /// No surface exists for the tab: create one.
    Create,
    /// A surface exists and the URL differs: trigger a real navigation.
    Navigate,
    /// A surface exists and the URL is unchanged: reposition only, so scroll
    /// and form state survive layout passes.
    Reposition,
}

/// The decision a navigate command takes, given the state it observes.
pub open spec fn navigate_decision(
    m: Map<Seq<char>, SurfaceModel>,
    t: Seq<char>,
    u: Seq<char>,
) -> NavigateDecision {
    if !m.contains_key(t) {
        NavigateDecision::Create
    } else if m[t].url == u {
        NavigateDecision::Reposition
    } else {
        NavigateDecision::Navigate
    }
}

/// The surface model a successful navigate leaves for the tab: commanded URL,
/// freshly resolved placement, visible; an existing surface keeps its label
/// and title, a fresh one gets the derived label and no title yet.
pub open spec fn navigated_model(
    m: Map<Seq<char>, SurfaceModel>,
    t: Seq<char>,
    u: Seq<char>,
    place: Placement,
) -> SurfaceModel {
    if m.contains_key(t) {
        SurfaceModel { url: u, placement: place, visibility: Visibility::Visible, ..m[t] }
    } else {
        SurfaceModel {
            label: spec_label_for(t),
            url: u,
            title: Seq::empty(),
            visibility: Visibility::Visible,
            placement: place,
        }
    }
}

/// The registry state a successful navigate leaves.
pub open spec fn navigate_post(
    m: Map<Seq<char>, SurfaceModel>,
    t: Seq<char>,
    u: Seq<char>,
    place: Placement,
) -> Map<Seq<char>, SurfaceModel> {
    m.insert(t, navigated_model(m, t, u, place))
}

/// Every registered surface carries the label its identifier derives and a
/// well-formed commanded URL. An empty registry satisfies this, and every
/// command preserves it, so every reachable state satisfies it; in such a
/// state a same-URL navigate of a registered tab is owed success whenever a
/// host frame is available.
pub open spec fn state_well_formed(m: Map<Seq<char>, SurfaceModel>) -> bool {
    forall|t: Seq<char>| #[trigger] m.contains_key(t) ==> m[t].label == spec_label_for(t)
        && url_well_formed(m[t].url)
}

/// Registering a surface whose label is derived from its identifier and whose
/// URL is well formed keeps the state well formed.
pub(crate) proof fn lemma_insert_well_formed(
    m: Map<Seq<char>, SurfaceModel>,
    t: Seq<char>,
    v: SurfaceModel,
)
    ensures
        state_well_formed(m) && v.label == spec_label_for(t) && url_well_formed(v.url)
            ==> state_well_formed(m.insert(t, v)),
{
    if state_well_formed(m) && v.label == spec_label_for(t) && url_well_formed(v.url) {
        let m2 = m.insert(t, v);
        assert forall|t2: Seq<char>| #[trigger] m2.contains_key(t2) implies m2[t2].label
            == spec_label_for(t2) && url_well_formed(m2[t2].url) by {
            if t2 != t {
                assert(m.contains_key(t2));
            }
        }
    }
}

/// A state change that keeps every registered surface's label and URL — it
/// may drop surfaces, reposition them or change their visibility or title —
/// keeps the state well formed.
pub(crate) proof fn lemma_same_labels_urls_well_formed(
    m1: Map<Seq<char>, SurfaceModel>,
    m2: Map<Seq<char>, SurfaceModel>,
)
    requires
        forall|t: Seq<char>| #[trigger] m2.contains_key(t) ==> m1.contains_key(t),
        forall|t: Seq<char>| #[trigger] m2.contains_key(t) ==> m2[t].label == m1[t].label
            && m2[t].url == m1[t].url,
    ensures
        state_well_formed(m1) ==> state_well_formed(m2),
{
    if state_well_formed(m1) {
        assert forall|t: Seq<char>| #[trigger] m2.contains_key(t) implies m2[t].label
            == spec_label_for(t) && url_well_formed(m2[t].url) by {
            assert(m1.contains_key(t));
        }
    }
}

/// The native work a successful navigate hands to the platform layer.
pub enum NavigateEffect {
    /// Build a fresh surface under `label` at `placement`, load `url` in it,
    /// install the standing theme script, and register its load and title
    /// callbacks.
    Created { label: String, url: String, placement: Placement },
    /// Navigate the existing surface `label` to `url`, move it to `placement`,
    /// and reveal it.
    Navigated { label: String, url: String, placement: Placement },
    /// Only move the existing surface `label` to `placement` and reveal it; no
    /// navigation is triggered.
    Repositioned { label: String, placement: Placement },
}

/// Whether an effect is the one the decision calls for, with the right label,
/// URL and placement.
pub open spec fn effect_matches(
    e: NavigateEffect,
    d: NavigateDecision,
    label: Seq<char>,
    u: Seq<char>,
    place: Placement,
) -> bool {
    match e {
        NavigateEffect::Created { label: l, url, placement } => {
            &&& d is Create
            &&& l@ == label
            &&& url@ == u
            &&& placement == place
        },
        NavigateEffect::Navigated { label: l, url, placement } => {
            &&& d is Navigate
            &&& l@ == label
            &&& url@ == u
            &&& placement == place
        },
        NavigateEffect::Repositioned { label: l, placement } => {
            &&& d is Reposition
            &&& l@ == label
            &&& placement == place
        },
    }
}

/// The native work a successful show hands to the platform layer.
pub struct ShowEffect {
    /// The surface to move to `placement` and reveal.
    pub label: String,
    pub placement: Placement,
    /// The tabs whose surfaces must be hidden: every registered tab but the
    /// shown one, each exactly once.
    pub hidden: Vec<String>,
}

/// The lifecycle controller. Its value, written `self@`, is the registry's
/// map from tab identifier to surface model.
pub struct LifecycleController {
    pub(crate) registry: SurfaceRegistry,
    pub(crate) chrome_offset: i64,
}

impl View for LifecycleController {
    type V = Map<Seq<char>, SurfaceModel>;

    closed spec fn view(&self) -> Map<Seq<char>, SurfaceModel> {
        self.registry@
    }
}

impl LifecycleController {
    /// The platform chrome offset the controller resolves placements with.
    pub closed spec fn chrome(&self) -> int {
        self.chrome_offset as int
    }

    /// Inside the crate, the controller's value is its registry's map, and
    /// its chrome offset is the field it was built with.
    pub(crate) proof fn lemma_view(&self)
        ensures
            self@ == self.registry@,
            self.chrome() == self.chrome_offset as int,
    {
    }

    /// A controller over an empty registry: no tab has a surface.
    pub fn new(chrome_offset: i64) -> (r: Self)
        ensures
            r@ == Map::<Seq<char>, SurfaceModel>::empty(),
            r.chrome() == chrome_offset as int,
            state_well_formed(r@),
    {
        let r = LifecycleController { registry: SurfaceRegistry::new(), chrome_offset };
        proof {
            assert forall|t: Seq<char>| #[trigger] r@.contains_key(t) implies r@[t].label
                == spec_label_for(t) && url_well_formed(r@[t].url) by {
            }
        }
        r
    }

    /// The surface record for `tab_id`, if one exists.
    pub fn lookup(&self, tab_id: &String) -> (r: Option<&SurfaceHandle>)
        ensures
            match r {
                Some(h) => self@.contains_key(tab_id@) && h@ == self@[tab_id@],
                None => !self@.contains_key(tab_id@),
            },
    {
        self.registry.lookup(tab_id)
    }

    /// Whether a surface exists for `tab_id`.
    pub fn contains(&self, tab_id: &String) -> (r: bool)
        ensures
            r == self@.contains_key(tab_id@),
    {
        self.registry.contains(tab_id)
    }

    /// Every registered tab identifier, each exactly once.
    pub fn tab_ids(&self) -> (r: Vec<String>)
        ensures
            forall|i: int| 0 <= i < r@.len() ==> self@.contains_key(#[trigger] r@[i]@),
            forall|k: Seq<char>| #[trigger] self@.contains_key(k) ==> exists|i: int|
                0 <= i < r@.len() && r@[i]@ == k,
            forall|i: int, j: int| 0 <= i < j < r@.len() ==> r@[i]@ != r@[j]@,
    {
        self.registry.tab_ids()
    }

    /// Navigate: creates the tab's surface if none exists, triggers a real
    /// navigation only if the URL changed, and always repositions to the
    /// placement resolved against the host frame read for this command.
    ///
    /// A failed command changes nothing. Which failure comes first follows the
    /// path taken: a registered surface validates the URL before anything
    /// else, so a malformed URL yields `InvalidUrl` there; creating a surface
    /// needs the main window before anything else, so with no surface for the
    /// tab a missing host frame yields `NoMainWindow` whatever the URL.
    pub fn navigate(
        &mut self,
        tab_id: &String,
        url: String,
        area: LogicalArea,
        host: Option<HostFrame>,
    ) -> (r: Result<NavigateEffect, TabError>)
        requires
            host matches Some(f) ==> placement_fits(f, old(self).chrome(), area),
        ensures
            final(self).chrome() == old(self).chrome(),
            r is Ok <==> (url_well_formed(url@) && host is Some),
            state_well_formed(old(self)@) ==> state_well_formed(final(self)@),
            match r {
                Ok(e) => {
                    let place = resolve_spec(host->Some_0, old(self).chrome(), area);
                    &&& final(self)@ == navigate_post(old(self)@, tab_id@, url@, place)
                    &&& effect_matches(
                        e,
                        navigate_decision(old(self)@, tab_id@, url@),
                        if old(self)@.contains_key(tab_id@) {
                            old(self)@[tab_id@].label
                        } else {
                            spec_label_for(tab_id@)
                        },
                        url@,
                        place,
                    )
                    &&& final(self)@.contains_key(tab_id@)
                    &&& final(self)@[tab_id@].url == url@
                    &&& final(self)@[tab_id@].placement == place
                    &&& final(self)@[tab_id@].visibility is Visible
                },
                Err(e) => {
                    &&& final(self)@ == old(self)@
                    &&& (e is InvalidUrl || e is NoMainWindow)
                    &&& (old(self)@.contains_key(tab_id@) ==> (e is InvalidUrl <==> !url_well_formed(url@)))
                    &&& (!old(self)@.contains_key(tab_id@) ==> (e is NoMainWindow <==> host is None))
                },
            },
    {
        let found: Option<(String, String)> = match self.registry.lookup(tab_id) {
            Some(h) => Some((h.url.clone(), h.label.clone())),
            None => None,
        };
        match found {
            Some((current_url, label)) => {
                // A registered surface navigates in place: the URL is
                // validated before anything else on this path.
                if !url_is_valid(url.as_str()) {
                    return Err(TabError::InvalidUrl);
                }
                let frame = match host {
                    Some(f) => f,
                    None => {
                        return Err(TabError::NoMainWindow);
                    },
                };
                let place = resolve(frame, self.chrome_offset, area);
                let same = current_url == url;
                let updated = self.registry.set_surface_state(
                    tab_id,
                    url.clone(),
                    place,
                    Visibility::Visible,
                );
                proof {
                    assert(updated);
                    lemma_insert_well_formed(old(self)@, tab_id@, self@[tab_id@]);
                }
                if same {
                    Ok(NavigateEffect::Repositioned { label, placement: place })
                } else {
                    Ok(NavigateEffect::Navigated { label, url, placement: place })
                }
            },
            None => {
                // No surface yet: creating one needs the main window before
                // anything else on this path.
                let frame = match host {
                    Some(f) => f,
                    None => {
                        return Err(TabError::NoMainWindow);
                    },
                };
                if !url_is_valid(url.as_str()) {
                    return Err(TabError::InvalidUrl);
                }
                let place = resolve(frame, self.chrome_offset, area);
                let label = label_for(tab_id);
                let handle = SurfaceHandle {
                    label: label.clone(),
                    url: url.clone(),
                    title: String::new(),
                    visibility: Visibility::Visible,
                    placement: place,
                };
                match self.registry.insert(tab_id.clone(), handle) {
                    Ok(()) => {
                        proof {
                            lemma_insert_well_formed(old(self)@, tab_id@, self@[tab_id@]);
                        }
                        Ok(NavigateEffect::Created { label, url, placement: place })
                    },
                    Err(_) => unreached(),
                }
            },
        }
    }

    /// Resize: repositions the tab's surface to the placement resolved against
    /// the host frame read for this command; no navigation, no visibility
    /// change. Without a surface for `tab_id` there is nothing to do and the
    /// command succeeds with no effect; with one, it fails with `NoMainWindow`
    /// exactly when no host frame is available.
    pub fn resize(
        &mut self,
        tab_id: &String,
        area: LogicalArea,
        host: Option<HostFrame>,
    ) -> (r: Result<Option<Placement>, TabError>)
        requires
            host matches Some(f) ==> placement_fits(f, old(self).chrome(), area),
        ensures
            final(self).chrome() == old(self).chrome(),
            state_well_formed(old(self)@) ==> state_well_formed(final(self)@),
            match r {
                Ok(None) => !old(self)@.contains_key(tab_id@) && final(self)@ == old(self)@,
                Ok(Some(place)) => {
                    &&& old(self)@.contains_key(tab_id@)
                    &&& host is Some
                    &&& place == resolve_spec(host->Some_0, old(self).chrome(), area)
                    &&& final(self)@ == old(self)@.insert(
                        tab_id@,
                        SurfaceModel { placement: place, ..old(self)@[tab_id@] },
                    )
                },
                Err(e) => {
                    &&& e is NoMainWindow
                    &&& old(self)@.contains_key(tab_id@)
                    &&& host is None
                    &&& final(self)@ == old(self)@
                },
            },
    {
        if !self.registry.contains(tab_id) {
            return Ok(None);
        }
        let frame = match host {
            Some(f) => f,
            None => {
                return Err(TabError::NoMainWindow);
            },
        };
        let place = resolve(frame, self.chrome_offset, area);
        let found = self.registry.set_placement(tab_id, place);
        proof {
            assert(found);
            lemma_same_labels_urls_well_formed(old(self)@, self@);
        }
        Ok(Some(place))
    }

    /// Hide-all: marks every registered surface Hidden and returns every
    /// registered tab identifier, each exactly once, so the platform layer can
    /// hide each surface natively. Cannot fail.
    pub fn hide_all(&mut self) -> (r: Vec<String>)
        ensures
            final(self).chrome() == old(self).chrome(),
            state_well_formed(old(self)@) ==> state_well_formed(final(self)@),
            forall|k: Seq<char>| final(self)@.contains_key(k) == old(self)@.contains_key(k),
            forall|k: Seq<char>| #[trigger] old(self)@.contains_key(k) ==> final(self)@[k]
                == (SurfaceModel { visibility: Visibility::Hidden, ..old(self)@[k] }),
            forall|i: int| 0 <= i < r@.len() ==> old(self)@.contains_key(#[trigger] r@[i]@),
            forall|k: Seq<char>| #[trigger] old(self)@.contains_key(k) ==> exists|i: int|
                0 <= i < r@.len() && r@[i]@ == k,
            forall|i: int, j: int| 0 <= i < j < r@.len() ==> r@[i]@ != r@[j]@,
    {
        let ids = self.registry.tab_ids();
        self.registry.set_all_hidden();
        proof {
            lemma_same_labels_urls_well_formed(old(self)@, self@);
        }
        ids
    }

    /// Show: hides every other registered tab's surface, then repositions and
    /// reveals this one. Only meaningful for a tab that has a surface. Fails
    /// with `NoMainWindow` exactly when no host frame is available; a failed
    /// command changes nothing.
    pub fn show(
        &mut self,
        tab_id: &String,
        area: LogicalArea,
        host: Option<HostFrame>,
    ) -> (r: Result<ShowEffect, TabError>)
        requires
            old(self)@.contains_key(tab_id@),
            host matches Some(f) ==> placement_fits(f, old(self).chrome(), area),
        ensures
            final(self).chrome() == old(self).chrome(),
            state_well_formed(old(self)@) ==> state_well_formed(final(self)@),
            r is Ok <==> host is Some,
            match r {
                Ok(eff) => {
                    let place = resolve_spec(host->Some_0, old(self).chrome(), area);
                    &&& forall|k: Seq<char>| final(self)@.contains_key(k) == old(
                        self,
                    )@.contains_key(k)
                    &&& final(self)@[tab_id@] == (SurfaceModel {
                        placement: place,
                        visibility: Visibility::Visible,
                        ..old(self)@[tab_id@]
                    })
                    &&& forall|k: Seq<char>|
                        #[trigger] old(self)@.contains_key(k) && k != tab_id@ ==> final(self)@[k]
                            == (SurfaceModel {
                            visibility: Visibility::Hidden,
                            ..old(self)@[k]
                        })
                    &&& eff.label@ == old(self)@[tab_id@].label
                    &&& eff.placement == place
                    &&& forall|i: int| 0 <= i < eff.hidden@.len() ==> old(self)@.contains_key(
                        #[trigger] eff.hidden@[i]@,
                    ) && eff.hidden@[i]@ != tab_id@
                    &&& forall|k: Seq<char>|
                        #[trigger] old(self)@.contains_key(k) && k != tab_id@ ==> exists|i: int|
                            0 <= i < eff.hidden@.len() && eff.hidden@[i]@ == k
                    &&& forall|i: int, j: int| 0 <= i < j < eff.hidden@.len() ==> eff.hidden@[i]@
                        != eff.hidden@[j]@
                },
                Err(e) => {
                    &&& e is NoMainWindow
                    &&& host is None
                    &&& final(self)@ == old(self)@
                },
            },
    {
        let frame = match host {
            Some(f) => f,
            None => {
                return Err(TabError::NoMainWindow);
            },
        };
        let place = resolve(frame, self.chrome_offset, area);
        let label = match self.registry.lookup(tab_id) {
            Some(h) => h.label.clone(),
            None => unreached(),
        };
        let hidden = self.registry.tab_ids_except(tab_id);
        self.registry.set_all_hidden();
        let shown = self.registry.set_shown(tab_id, place);
        let ghost hidden_ids = hidden@;
        let eff = ShowEffect { label, placement: place, hidden };
        proof {
            assert(shown);
            lemma_same_labels_urls_well_formed(old(self)@, self@);
            assert forall|k: Seq<char>| old(self)@.contains_key(k) && k != tab_id@ implies
                exists|i: int| 0 <= i < eff.hidden@.len() && eff.hidden@[i]@ == k by {
                assert(exists|i: int| 0 <= i < hidden_ids.len() && hidden_ids[i]@ == k);
                let w = choose|i: int| 0 <= i < hidden_ids.len() && hidden_ids[i]@ == k;
                assert(0 <= w < eff.hidden@.len() && eff.hidden@[w]@ == k);
            }
        }
        Ok(eff)
    }

    /// Close: destroys the tab's surface by deregistering it and handing the
    /// record back for native teardown. Closing a tab without a surface is a
    /// no-op that succeeds: the entry is removed exactly once.
    pub fn close(&mut self, tab_id: &String) -> (r: Option<SurfaceHandle>)
        ensures
            final(self).chrome() == old(self).chrome(),
            final(self)@ == old(self)@.remove(tab_id@),
            state_well_formed(old(self)@) ==> state_well_formed(final(self)@),
            match r {
                Some(h) => old(self)@.contains_key(tab_id@) && h@ == old(self)@[tab_id@],
                None => !old(self)@.contains_key(tab_id@),
            },
    {
        let r = self.registry.remove(tab_id);
        proof {
            lemma_same_labels_urls_well_formed(old(self)@, self@);
        }
        r
    }
}

} // verus!
