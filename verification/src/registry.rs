//! The surface registry: the single source of truth for "does a surface exist
//! for this tab", mapping each tab identifier to its live surface record.
//!
//! At most one surface exists per identifier at any time; entries are removed
//! exactly once, on successful close. The registry's mathematical value is a
//! map from identifier to surface model, and every operation's contract is
//! stated over that map.

use vstd::prelude::*;

use crate::errors::TabError;
use crate::geometry::Placement;

verus! {

/// Whether a surface is currently revealed on screen or hidden.
#[derive(Clone, Copy, PartialEq, Eq, Structural, Debug)]
pub enum Visibility {
    Visible,
    Hidden,
}

/// A live surface's record: the label the native layer knows the surface by,
/// plus cached metadata (last commanded URL, last reported title, visibility,
/// last placement applied).
pub struct SurfaceHandle {
    pub label: String,
    pub url: String,
    pub title: String,
    pub visibility: Visibility,
    pub placement: Placement,
}

/// The mathematical value of a surface record.
pub ghost struct SurfaceModel {
    pub label: Seq<char>,
    pub url: Seq<char>,
    pub title: Seq<char>,
    pub visibility: Visibility,
    pub placement: Placement,
}

impl View for SurfaceHandle {
    type V = SurfaceModel;

    open spec fn view(&self) -> SurfaceModel {
        SurfaceModel {
            label: self.label@,
            url: self.url@,
            title: self.title@,
            visibility: self.visibility,
            placement: self.placement,
        }
    }
}

struct Entry {
    key: String,
    handle: SurfaceHandle,
}

/// Whether some entry of `s` carries the identifier `k`.
spec fn contains_k(s: Seq<Entry>, k: Seq<char>) -> bool {
    exists|i: int| 0 <= i < s.len() && s[i].key@ == k
}

/// The position of the entry carrying `k`; meaningful only when `contains_k`
/// holds and the keys of `s` are distinct.
spec fn idx_of(s: Seq<Entry>, k: Seq<char>) -> int {
    choose|i: int| 0 <= i < s.len() && s[i].key@ == k
}

/// The map an entry sequence stands for.
spec fn map_of(s: Seq<Entry>) -> Map<Seq<char>, SurfaceModel> {
    Map::new(|k: Seq<char>| contains_k(s, k), |k: Seq<char>| s[idx_of(s, k)].handle@)
}

/// No identifier appears twice.
spec fn distinct_keys(s: Seq<Entry>) -> bool {
    forall|i: int, j: int| 0 <= i < j < s.len() ==> s[i].key@ != s[j].key@
}

/// With distinct keys, the entry at any position is exactly what the map gives
/// for its identifier.
proof fn lemma_at_index(s: Seq<Entry>, i: int)
    requires
        distinct_keys(s),
        0 <= i < s.len(),
    ensures
        contains_k(s, s[i].key@),
        idx_of(s, s[i].key@) == i,
        map_of(s).contains_key(s[i].key@),
        map_of(s)[s[i].key@] == s[i].handle@,
{
    assert(contains_k(s, s[i].key@));
    let j = idx_of(s, s[i].key@);
    if j != i {
        if j < i {
            assert(s[j].key@ != s[i].key@);
        } else {
            assert(s[i].key@ != s[j].key@);
        }
    }
}

/// Pushing a fresh identifier inserts it into the map.
proof fn lemma_push_view(s: Seq<Entry>, e: Entry)
    requires
        distinct_keys(s),
        !contains_k(s, e.key@),
    ensures
        distinct_keys(s.push(e)),
        map_of(s.push(e)) =~= map_of(s).insert(e.key@, e.handle@),
{
    let s2 = s.push(e);
    assert forall|i: int, j: int| 0 <= i < j < s2.len() implies s2[i].key@ != s2[j].key@ by {
        if j < s.len() {
            assert(s[i].key@ != s[j].key@);
        } else {
            assert(s2[j] == e);
            assert(s2[i] == s[i]);
            if s[i].key@ == e.key@ {
                assert(contains_k(s, e.key@));
            }
        }
    }
    assert forall|k: Seq<char>| #[trigger] contains_k(s2, k) implies contains_k(s, k) || k == e.key@ by {
        let i = choose|i: int| 0 <= i < s2.len() && s2[i].key@ == k;
        if i < s.len() {
            assert(s[i].key@ == k);
        }
    }
    assert forall|k: Seq<char>| #[trigger] contains_k(s, k) implies contains_k(s2, k) by {
        let i = choose|i: int| 0 <= i < s.len() && s[i].key@ == k;
        assert(s2[i].key@ == k);
    }
    assert(s2[s.len() as int] == e);
    assert(contains_k(s2, e.key@));
    assert forall|k: Seq<char>| #[trigger] contains_k(s2, k) implies
        map_of(s2)[k] == map_of(s).insert(e.key@, e.handle@)[k] by {
        let i = idx_of(s2, k);
        assert(0 <= i < s2.len() && s2[i].key@ == k);
        lemma_at_index(s2, i);
        if k == e.key@ {
            if i < s.len() {
                assert(s[i].key@ == k);
                assert(contains_k(s, e.key@));
            }
            assert(s2[i] == e);
        } else {
            assert(i < s.len());
            assert(s2[i] == s[i]);
            lemma_at_index(s, i);
        }
    }
}

/// Replacing the entry at `i` by one with the same identifier updates the map
/// at that identifier and nothing else.
proof fn lemma_update_view(s: Seq<Entry>, i: int, e: Entry)
    requires
        distinct_keys(s),
        0 <= i < s.len(),
        e.key@ == s[i].key@,
    ensures
        distinct_keys(s.update(i, e)),
        map_of(s.update(i, e)) =~= map_of(s).insert(e.key@, e.handle@),
{
    let s2 = s.update(i, e);
    assert forall|p: int, q: int| 0 <= p < q < s2.len() implies s2[p].key@ != s2[q].key@ by {
        assert(s[p].key@ != s[q].key@);
        assert(s2[p].key@ == s[p].key@);
        assert(s2[q].key@ == s[q].key@);
    }
    assert forall|k: Seq<char>| #[trigger] contains_k(s2, k) implies contains_k(s, k) by {
        let j = choose|j: int| 0 <= j < s2.len() && s2[j].key@ == k;
        assert(s[j].key@ == s2[j].key@);
    }
    assert forall|k: Seq<char>| #[trigger] contains_k(s, k) implies contains_k(s2, k) by {
        let j = choose|j: int| 0 <= j < s.len() && s[j].key@ == k;
        assert(s2[j].key@ == s[j].key@);
    }
    assert forall|k: Seq<char>| #[trigger] contains_k(s2, k) implies
        map_of(s2)[k] == map_of(s).insert(e.key@, e.handle@)[k] by {
        let j = idx_of(s2, k);
        assert(0 <= j < s2.len() && s2[j].key@ == k);
        lemma_at_index(s2, j);
        if k == e.key@ {
            lemma_at_index(s, i);
            if j != i {
                assert(s2[j].key@ == s[j].key@);
                assert(s[j].key@ != s[i].key@) by {
                    if j < i {
                        assert(s[j].key@ != s[i].key@);
                    } else {
                        assert(s[i].key@ != s[j].key@);
                    }
                }
            }
            assert(j == i);
            assert(s2[i] == e);
        } else {
            assert(j != i);
            assert(s2[j] == s[j]);
            lemma_at_index(s, j);
        }
    }
}

/// Two entry sequences with identical identifiers in identical positions
/// stand for maps with the same keys, found at the same positions.
proof fn lemma_pointwise_keys(s1: Seq<Entry>, s2: Seq<Entry>)
    requires
        distinct_keys(s1),
        s1.len() == s2.len(),
        forall|j: int| 0 <= j < s1.len() ==> s2[j].key@ == s1[j].key@,
    ensures
        distinct_keys(s2),
        forall|k: Seq<char>| contains_k(s2, k) == contains_k(s1, k),
        forall|k: Seq<char>| #[trigger] contains_k(s1, k) ==> map_of(s2)[k] == s2[idx_of(s1, k)].handle@,
{
    assert forall|p: int, q: int| 0 <= p < q < s2.len() implies s2[p].key@ != s2[q].key@ by {
        assert(s1[p].key@ != s1[q].key@);
    }
    assert forall|k: Seq<char>| contains_k(s2, k) == contains_k(s1, k) by {
        if contains_k(s2, k) {
            let j = choose|j: int| 0 <= j < s2.len() && s2[j].key@ == k;
            assert(s1[j].key@ == k);
        }
        if contains_k(s1, k) {
            let j = choose|j: int| 0 <= j < s1.len() && s1[j].key@ == k;
            assert(s2[j].key@ == k);
        }
    }
    assert forall|k: Seq<char>| #[trigger] contains_k(s1, k) implies map_of(s2)[k] == s2[idx_of(
        s1,
        k,
    )].handle@ by {
        let j1 = idx_of(s1, k);
        assert(0 <= j1 < s1.len() && s1[j1].key@ == k);
        assert(s2[j1].key@ == k);
        lemma_at_index(s2, j1);
    }
}

/// Removing the entry at `i` removes exactly its identifier from the map.
proof fn lemma_remove_view(s: Seq<Entry>, i: int)
    requires
        distinct_keys(s),
        0 <= i < s.len(),
    ensures
        distinct_keys(s.remove(i)),
        map_of(s.remove(i)) =~= map_of(s).remove(s[i].key@),
{
    let s2 = s.remove(i);
    let k0 = s[i].key@;
    assert forall|p: int, q: int| 0 <= p < q < s2.len() implies s2[p].key@ != s2[q].key@ by {
        let p0: int = if p < i { p } else { p + 1 };
        let q0: int = if q < i { q } else { q + 1 };
        assert(s2[p] == s[p0]);
        assert(s2[q] == s[q0]);
        assert(s[p0].key@ != s[q0].key@);
    }
    assert forall|k: Seq<char>| #[trigger] contains_k(s2, k) implies contains_k(s, k) && k != k0 by {
        let j = choose|j: int| 0 <= j < s2.len() && s2[j].key@ == k;
        let j0: int = if j < i { j } else { j + 1 };
        assert(s2[j] == s[j0]);
        assert(s[j0].key@ == k);
        if k == k0 {
            if j0 < i {
                assert(s[j0].key@ != s[i].key@);
            } else {
                assert(s[i].key@ != s[j0].key@);
            }
        }
    }
    assert forall|k: Seq<char>| contains_k(s, k) && k != k0 implies #[trigger] contains_k(s2, k) by {
        let j = choose|j: int| 0 <= j < s.len() && s[j].key@ == k;
        if j == i {
            assert(k == k0);
        }
        let j2: int = if j < i { j } else { j - 1 };
        assert(s2[j2] == s[j]);
    }
    assert forall|k: Seq<char>| #[trigger] contains_k(s2, k) implies
        map_of(s2)[k] == map_of(s).remove(k0)[k] by {
        let j = idx_of(s2, k);
        assert(0 <= j < s2.len() && s2[j].key@ == k);
        lemma_at_index(s2, j);
        let j0: int = if j < i { j } else { j + 1 };
        assert(s2[j] == s[j0]);
        lemma_at_index(s, j0);
    }
}

/// The registry. Its value, written `self@`, is a map from tab identifier to
/// surface model; an identifier maps to a model exactly while its surface is
/// registered.
pub struct SurfaceRegistry {
    entries: Vec<Entry>,
}

impl View for SurfaceRegistry {
    type V = Map<Seq<char>, SurfaceModel>;

    closed spec fn view(&self) -> Map<Seq<char>, SurfaceModel> {
        map_of(self.entries@)
    }
}

impl SurfaceRegistry {
    #[verifier::type_invariant]
    spec fn wf(&self) -> bool {
        distinct_keys(self.entries@)
    }

    /// An empty registry: no tab has a surface.
    pub fn new() -> (r: Self)
        ensures
            r@ == Map::<Seq<char>, SurfaceModel>::empty(),
    {
        let r = SurfaceRegistry { entries: Vec::new() };
        proof {
            assert forall|k: Seq<char>| !contains_k(r.entries@, k) by {
            }
            assert(r@ =~= Map::<Seq<char>, SurfaceModel>::empty());
        }
        r
    }

    /// The position of `tab_id`'s entry, if one exists.
    fn find_index(&self, tab_id: &String) -> (r: Option<usize>)
        ensures
            match r {
                Some(i) => i < self.entries@.len() && self.entries@[i as int].key@ == tab_id@,
                None => !contains_k(self.entries@, tab_id@),
            },
    {
        let n = self.entries.len();
        let mut i: usize = 0;
        while i < n
            invariant
                i <= n,
                n == self.entries@.len(),
                forall|j: int| 0 <= j < i ==> self.entries@[j].key@ != tab_id@,
            decreases n - i,
        {
            if self.entries[i].key == *tab_id {
                return Some(i);
            }
            i = i + 1;
        }
        None
    }

    /// Whether a surface exists for `tab_id`.
    pub fn contains(&self, tab_id: &String) -> (r: bool)
        ensures
            r == self@.contains_key(tab_id@),
    {
        proof {
            use_type_invariant(self);
        }
        match self.find_index(tab_id) {
            Some(i) => {
                proof {
                    lemma_at_index(self.entries@, i as int);
                }
                true
            },
            None => false,
        }
    }

    /// The surface record for `tab_id`, if one exists.
    pub fn lookup(&self, tab_id: &String) -> (r: Option<&SurfaceHandle>)
        ensures
            match r {
                Some(h) => self@.contains_key(tab_id@) && h@ == self@[tab_id@],
                None => !self@.contains_key(tab_id@),
            },
    {
        proof {
            use_type_invariant(self);
        }
        match self.find_index(tab_id) {
            Some(i) => {
                proof {
                    lemma_at_index(self.entries@, i as int);
                }
                Some(&self.entries[i].handle)
            },
            None => None,
        }
    }

    /// Registers a surface for `tab_id`. Fails with `DuplicateTab`, and
    /// changes nothing, if one is already registered: no command may create
    /// two surfaces for the same identifier.
    pub fn insert(&mut self, tab_id: String, handle: SurfaceHandle) -> (r: Result<(), TabError>)
        ensures
            match r {
                Ok(()) => !old(self)@.contains_key(tab_id@) && final(self)@ == old(self)@.insert(
                    tab_id@,
                    handle@,
                ),
                Err(e) => e is DuplicateTab && old(self)@.contains_key(tab_id@) && final(self)@
                    == old(self)@,
            },
    {
        proof {
            use_type_invariant(&*self);
        }
        match self.find_index(&tab_id) {
            Some(i) => {
                proof {
                    lemma_at_index(self.entries@, i as int);
                }
                Err(TabError::DuplicateTab)
            },
            None => {
                let ghost s = self.entries@;
                let e = Entry { key: tab_id, handle };
                let mut entries: Vec<Entry> = Vec::new();
                core::mem::swap(&mut entries, &mut self.entries);
                entries.push(e);
                core::mem::swap(&mut entries, &mut self.entries);
                proof {
                    lemma_push_view(s, self.entries@.last());
                    assert(self.entries@ == s.push(self.entries@.last()));
                }
                Ok(())
            },
        }
    }

    /// Deregisters `tab_id` and hands its surface record back for teardown;
    /// `None`, and no change, if no surface is registered for it.
    pub fn remove(&mut self, tab_id: &String) -> (r: Option<SurfaceHandle>)
        ensures
            final(self)@ == old(self)@.remove(tab_id@),
            match r {
                Some(h) => old(self)@.contains_key(tab_id@) && h@ == old(self)@[tab_id@],
                None => !old(self)@.contains_key(tab_id@),
            },
    {
        proof {
            use_type_invariant(&*self);
        }
        match self.find_index(tab_id) {
            Some(i) => {
                proof {
                    lemma_at_index(self.entries@, i as int);
                    lemma_remove_view(self.entries@, i as int);
                }
                let mut entries: Vec<Entry> = Vec::new();
                core::mem::swap(&mut entries, &mut self.entries);
                let e = entries.remove(i);
                core::mem::swap(&mut entries, &mut self.entries);
                Some(e.handle)
            },
            None => {
                proof {
                    assert(old(self)@ =~= old(self)@.remove(tab_id@));
                }
                None
            },
        }
    }

    /// Records a navigation: sets `tab_id`'s commanded URL, placement and
    /// visibility, keeping its label and title. Reports whether a surface was
    /// registered for `tab_id`; without one, nothing changes.
    pub fn set_surface_state(
        &mut self,
        tab_id: &String,
        url: String,
        placement: Placement,
        visibility: Visibility,
    ) -> (found: bool)
        ensures
            found == old(self)@.contains_key(tab_id@),
            found ==> final(self)@ == old(self)@.insert(
                tab_id@,
                SurfaceModel { url: url@, placement, visibility, ..old(self)@[tab_id@] },
            ),
            !found ==> final(self)@ == old(self)@,
    {
        proof {
            use_type_invariant(&*self);
        }
        match self.find_index(tab_id) {
            Some(i) => {
                let ghost s = self.entries@;
                let mut entries: Vec<Entry> = Vec::new();
                core::mem::swap(&mut entries, &mut self.entries);
                let e = &mut entries[i];
                e.handle.url = url;
                e.handle.placement = placement;
                e.handle.visibility = visibility;
                core::mem::swap(&mut entries, &mut self.entries);
                proof {
                    lemma_at_index(s, i as int);
                    lemma_update_view(s, i as int, self.entries@[i as int]);
                    assert(self.entries@ == s.update(i as int, self.entries@[i as int]));
                }
                true
            },
            None => false,
        }
    }

    /// Repositions `tab_id`'s surface, leaving everything else as it was.
    /// Reports whether a surface was registered for `tab_id`; without one,
    /// nothing changes.
    pub fn set_placement(&mut self, tab_id: &String, placement: Placement) -> (found: bool)
        ensures
            found == old(self)@.contains_key(tab_id@),
            found ==> final(self)@ == old(self)@.insert(
                tab_id@,
                SurfaceModel { placement, ..old(self)@[tab_id@] },
            ),
            !found ==> final(self)@ == old(self)@,
    {
        proof {
            use_type_invariant(&*self);
        }
        match self.find_index(tab_id) {
            Some(i) => {
                let ghost s = self.entries@;
                let mut entries: Vec<Entry> = Vec::new();
                core::mem::swap(&mut entries, &mut self.entries);
                let e = &mut entries[i];
                e.handle.placement = placement;
                core::mem::swap(&mut entries, &mut self.entries);
                proof {
                    lemma_at_index(s, i as int);
                    lemma_update_view(s, i as int, self.entries@[i as int]);
                    assert(self.entries@ == s.update(i as int, self.entries@[i as int]));
                }
                true
            },
            None => false,
        }
    }

    /// Repositions and reveals `tab_id`'s surface, leaving its URL and title
    /// as they were. Reports whether a surface was registered for `tab_id`;
    /// without one, nothing changes.
    pub fn set_shown(&mut self, tab_id: &String, placement: Placement) -> (found: bool)
        ensures
            found == old(self)@.contains_key(tab_id@),
            found ==> final(self)@ == old(self)@.insert(
                tab_id@,
                SurfaceModel {
                    placement,
                    visibility: Visibility::Visible,
                    ..old(self)@[tab_id@]
                },
            ),
            !found ==> final(self)@ == old(self)@,
    {
        proof {
            use_type_invariant(&*self);
        }
        match self.find_index(tab_id) {
            Some(i) => {
                let ghost s = self.entries@;
                let mut entries: Vec<Entry> = Vec::new();
                core::mem::swap(&mut entries, &mut self.entries);
                let e = &mut entries[i];
                e.handle.placement = placement;
                e.handle.visibility = Visibility::Visible;
                core::mem::swap(&mut entries, &mut self.entries);
                proof {
                    lemma_at_index(s, i as int);
                    lemma_update_view(s, i as int, self.entries@[i as int]);
                    assert(self.entries@ == s.update(i as int, self.entries@[i as int]));
                }
                true
            },
            None => false,
        }
    }

    /// Records a reported title change for `tab_id`. Reports whether a surface
    /// was registered for `tab_id`; without one, nothing changes.
    pub fn set_title(&mut self, tab_id: &String, title: String) -> (found: bool)
        ensures
            found == old(self)@.contains_key(tab_id@),
            found ==> final(self)@ == old(self)@.insert(
                tab_id@,
                SurfaceModel { title: title@, ..old(self)@[tab_id@] },
            ),
            !found ==> final(self)@ == old(self)@,
    {
        proof {
            use_type_invariant(&*self);
        }
        match self.find_index(tab_id) {
            Some(i) => {
                let ghost s = self.entries@;
                let mut entries: Vec<Entry> = Vec::new();
                core::mem::swap(&mut entries, &mut self.entries);
                let e = &mut entries[i];
                e.handle.title = title;
                core::mem::swap(&mut entries, &mut self.entries);
                proof {
                    lemma_at_index(s, i as int);
                    lemma_update_view(s, i as int, self.entries@[i as int]);
                    assert(self.entries@ == s.update(i as int, self.entries@[i as int]));
                }
                true
            },
            None => false,
        }
    }

    /// Marks every registered surface Hidden; nothing else changes.
    pub fn set_all_hidden(&mut self)
        ensures
            forall|k: Seq<char>| final(self)@.contains_key(k) == old(self)@.contains_key(k),
            forall|k: Seq<char>| #[trigger] old(self)@.contains_key(k) ==> final(self)@[k]
                == (SurfaceModel { visibility: Visibility::Hidden, ..old(self)@[k] }),
    {
        proof {
            use_type_invariant(&*self);
        }
        let ghost s = self.entries@;
        let mut entries: Vec<Entry> = Vec::new();
        core::mem::swap(&mut entries, &mut self.entries);
        let n = entries.len();
        let mut i: usize = 0;
        while i < n
            invariant
                i <= n,
                n == entries@.len(),
                n == s.len(),
                distinct_keys(s),
                forall|j: int| 0 <= j < n ==> entries@[j].key@ == s[j].key@,
                forall|j: int| i <= j < n ==> entries@[j] == s[j],
                forall|j: int| 0 <= j < i ==> entries@[j].handle@ == (SurfaceModel {
                    visibility: Visibility::Hidden,
                    ..s[j].handle@
                }),
            decreases n - i,
        {
            let e = &mut entries[i];
            e.handle.visibility = Visibility::Hidden;
            i = i + 1;
        }
        core::mem::swap(&mut entries, &mut self.entries);
        proof {
            lemma_pointwise_keys(s, self.entries@);
            assert forall|k: Seq<char>| #[trigger] map_of(s).contains_key(k) implies map_of(
                self.entries@,
            )[k] == (SurfaceModel { visibility: Visibility::Hidden, ..map_of(s)[k] }) by {
                let j = idx_of(s, k);
                assert(0 <= j < s.len() && s[j].key@ == k);
                lemma_at_index(s, j);
            }
        }
    }

    /// Every registered tab identifier but `tab_id`, each exactly once.
    pub fn tab_ids_except(&self, tab_id: &String) -> (r: Vec<String>)
        ensures
            forall|i: int| 0 <= i < r@.len() ==> self@.contains_key(#[trigger] r@[i]@) && r@[i]@
                != tab_id@,
            forall|k: Seq<char>| #[trigger] self@.contains_key(k) && k != tab_id@ ==> exists|i: int|
                0 <= i < r@.len() && r@[i]@ == k,
            forall|i: int, j: int| 0 <= i < j < r@.len() ==> r@[i]@ != r@[j]@,
    {
        proof {
            use_type_invariant(self);
        }
        let n = self.entries.len();
        let mut r: Vec<String> = Vec::new();
        let mut i: usize = 0;
        while i < n
            invariant
                i <= n,
                n == self.entries@.len(),
                distinct_keys(self.entries@),
                forall|q: int| 0 <= q < r@.len() ==> #[trigger] r@[q]@ != tab_id@,
                forall|q: int| 0 <= q < r@.len() ==> exists|j: int|
                    0 <= j < i && self.entries@[j].key@ == #[trigger] r@[q]@,
                forall|j: int|
                    0 <= j < i && self.entries@[j].key@ != tab_id@ ==> exists|q: int|
                        0 <= q < r@.len() && r@[q]@ == #[trigger] self.entries@[j].key@,
                forall|q1: int, q2: int| 0 <= q1 < q2 < r@.len() ==> r@[q1]@ != r@[q2]@,
            decreases n - i,
        {
            if !(self.entries[i].key == *tab_id) {
                proof {
                    assert forall|q: int| 0 <= q < r@.len() implies r@[q]@
                        != self.entries@[i as int].key@ by {
                        let j = choose|j: int|
                            0 <= j < i && self.entries@[j].key@ == #[trigger] r@[q]@;
                        assert(self.entries@[j].key@ != self.entries@[i as int].key@);
                    }
                }
                let ghost prev = r@;
                r.push(self.entries[i].key.clone());
                proof {
                    assert(r@[prev.len() as int]@ == self.entries@[i as int].key@);
                    assert forall|j: int|
                        0 <= j < i + 1 && self.entries@[j].key@ != tab_id@ implies exists|q: int|
                            0 <= q < r@.len() && r@[q]@ == #[trigger] self.entries@[j].key@ by {
                        if j < i {
                            let q = choose|q: int|
                                0 <= q < prev.len() && prev[q]@ == self.entries@[j].key@;
                            assert(r@[q]@ == self.entries@[j].key@);
                        } else {
                            assert(r@[prev.len() as int]@ == self.entries@[j].key@);
                        }
                    }
                }
            }
            i = i + 1;
        }
        proof {
            assert forall|q: int| 0 <= q < r@.len() implies self@.contains_key(#[trigger] r@[q]@)
                && r@[q]@ != tab_id@ by {
                let j = choose|j: int| 0 <= j < n && self.entries@[j].key@ == r@[q]@;
                lemma_at_index(self.entries@, j);
            }
            assert forall|k: Seq<char>| #[trigger] self@.contains_key(k) && k != tab_id@ implies
                exists|q: int| 0 <= q < r@.len() && r@[q]@ == k by {
                let j = idx_of(self.entries@, k);
                assert(0 <= j < self.entries@.len() && self.entries@[j].key@ == k);
            }
        }
        r
    }

    /// Every registered tab identifier, each exactly once.
    pub fn tab_ids(&self) -> (r: Vec<String>)
        ensures
            forall|i: int| 0 <= i < r@.len() ==> self@.contains_key(#[trigger] r@[i]@),
            forall|k: Seq<char>| #[trigger] self@.contains_key(k) ==> exists|i: int|
                0 <= i < r@.len() && r@[i]@ == k,
            forall|i: int, j: int| 0 <= i < j < r@.len() ==> r@[i]@ != r@[j]@,
    {
        proof {
            use_type_invariant(self);
        }
        let n = self.entries.len();
        let mut r: Vec<String> = Vec::new();
        let mut i: usize = 0;
        while i < n
            invariant
                i <= n,
                n == self.entries@.len(),
                r@.len() == i,
                forall|j: int| 0 <= j < i ==> r@[j]@ == self.entries@[j].key@,
            decreases n - i,
        {
            r.push(self.entries[i].key.clone());
            i = i + 1;
        }
        proof {
            assert forall|i2: int| 0 <= i2 < r@.len() implies self@.contains_key(
                #[trigger] r@[i2]@,
            ) by {
                lemma_at_index(self.entries@, i2);
            }
            assert forall|k: Seq<char>| #[trigger] self@.contains_key(k) implies exists|i2: int|
                0 <= i2 < r@.len() && r@[i2]@ == k by {
                let j = idx_of(self.entries@, k);
                assert(0 <= j < self.entries@.len() && self.entries@[j].key@ == k);
                assert(r@[j]@ == k);
            }
        }
        r
    }
}

} // verus!
