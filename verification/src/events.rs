//! The event notifier: turns a surface's asynchronous load and title
//! callbacks into `tab-updated` events for the front end.
//!
//! Callbacks race the surface lifecycle: a tab may close between a load
//! starting and finishing, and a navigation may supersede an in-flight one.
//! Each delivery is therefore resolved against the registry's state at
//! delivery time; a callback for a tab with no surface, or a load-finished
//! tagged with a URL the tab is no longer commanded to, is discarded rather
//! than allowed to resurrect or corrupt state.

use vstd::prelude::*;

use crate::lifecycle::{lemma_same_labels_urls_well_formed, state_well_formed, LifecycleController};
use crate::registry::SurfaceModel;

verus! {

/// A state-change notification for the front end. An absent field means
/// "unchanged"; the front end treats the event as a level-triggered state
/// refresh, not an edit log.
pub struct TabEvent {
    pub tab_id: String,
    pub url: Option<String>,
    pub title: Option<String>,
}

impl LifecycleController {
    /// Delivery of a surface's load-finished callback, tagged with the URL
    /// the load completed. Emits a URL update exactly when the tab still has
    /// a surface and the completed URL is the one the tab is commanded to;
    /// a late or superseded callback is discarded. Never changes state.
    pub fn on_load_finished(&self, tab_id: &String, loaded_url: &String) -> (r: Option<TabEvent>)
        ensures
            match r {
                None => !self@.contains_key(tab_id@) || self@[tab_id@].url != loaded_url@,
                Some(ev) => {
                    &&& self@.contains_key(tab_id@)
                    &&& self@[tab_id@].url == loaded_url@
                    &&& ev.tab_id@ == tab_id@
                    &&& ev.url matches Some(u) && u@ == loaded_url@
                    &&& ev.title is None
                },
            },
    {
        proof {
            self.lemma_view();
        }
        match self.registry.lookup(tab_id) {
            Some(h) => {
                if h.url == *loaded_url {
                    Some(
                        TabEvent {
                            tab_id: tab_id.clone(),
                            url: Some(loaded_url.clone()),
                            title: None,
                        },
                    )
                } else {
                    None
                }
            },
            None => None,
        }
    }

    /// Delivery of a surface's title-changed callback. Records the title and
    /// emits a title update exactly when the tab still has a surface; a late
    /// callback for a closed tab is discarded and changes nothing.
    pub fn on_title_changed(&mut self, tab_id: &String, title: String) -> (r: Option<TabEvent>)
        ensures
            final(self).chrome() == old(self).chrome(),
            state_well_formed(old(self)@) ==> state_well_formed(final(self)@),
            match r {
                None => !old(self)@.contains_key(tab_id@) && final(self)@ == old(self)@,
                Some(ev) => {
                    &&& old(self)@.contains_key(tab_id@)
                    &&& final(self)@ == old(self)@.insert(
                        tab_id@,
                        SurfaceModel { title: title@, ..old(self)@[tab_id@] },
                    )
                    &&& ev.tab_id@ == tab_id@
                    &&& ev.url is None
                    &&& ev.title matches Some(t) && t@ == title@
                },
            },
    {
        proof {
            self.lemma_view();
        }
        let found = self.registry.set_title(tab_id, title.clone());
        proof {
            self.lemma_view();
            lemma_same_labels_urls_well_formed(old(self)@, self@);
        }
        if found {
            Some(TabEvent { tab_id: tab_id.clone(), url: None, title: Some(title) })
        } else {
            None
        }
    }
}

} // verus!
