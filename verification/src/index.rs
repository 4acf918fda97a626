//! The live index: a concurrent mapping from identifier to element, with
//! full rebuild, per-identifier insert and remove, and snapshot queries.
use vstd::prelude::*;

use crate::element::{Element, ElementView, Id, Parent};

verus! {

/// The shared concurrent map that owns the elements. Held opaquely: its
/// contents are named by `live_map_view`, and every operation goes through a
/// trusted wrapper around one dashmap call.
#[verifier::external_body]
pub struct LiveMap {
    inner: dashmap::DashMap<u128, Element>,
}

/// What the concurrent map holds, keyed by identifier.
pub uninterp spec fn live_map_view(m: LiveMap) -> Map<u128, ElementView>;

/// A map that holds nothing.
pub open spec fn live_map_is_empty(m: LiveMap) -> bool {
    live_map_view(m) == Map::<u128, ElementView>::empty()
}

impl LiveMap {
    /// Relies on dashmap::DashMap::new: a fresh map is empty.
    #[verifier::external_body]
    pub(crate) fn new() -> (r: LiveMap)
        ensures
            live_map_is_empty(r),
    {
        LiveMap { inner: dashmap::DashMap::new() }
    }

    /// Relies on dashmap::DashMap::insert: maps the key to the new value and
    /// leaves every other key unchanged.
    #[verifier::external_body]
    pub(crate) fn insert(&mut self, el: Element)
        ensures
            live_map_view(*final(self)) == live_map_view(*old(self)).insert(el@.id, el@),
    {
        self.inner.insert(el.id.value, el);
    }

    /// Relies on dashmap::DashMap::remove: unmaps the key and leaves every
    /// other key unchanged.
    #[verifier::external_body]
    pub(crate) fn remove(&mut self, id: &Id)
        ensures
            live_map_view(*final(self)) == live_map_view(*old(self)).remove(id.value),
    {
        self.inner.remove(&id.value);
    }

    /// Relies on dashmap::DashMap::clear: removes every entry.
    #[verifier::external_body]
    pub(crate) fn clear(&mut self)
        ensures
            live_map_is_empty(*final(self)),
    {
        self.inner.clear();
    }

    /// Relies on dashmap::DashMap::get: returns the value mapped to the key,
    /// or nothing when the key is unmapped.
    #[verifier::external_body]
    pub(crate) fn get(&self, id: &Id) -> (r: Option<Element>)
        ensures
            match r {
                Option::Some(e) => live_map_view(*self).contains_key(id.value) && e@
                    == live_map_view(*self)[id.value],
                Option::None => !live_map_view(*self).contains_key(id.value),
            },
    {
        self.inner.get(&id.value).map(|e| e.value().clone())
    }

    /// Relies on dashmap::DashMap::iter: visits each key exactly once with
    /// the value it maps to. The order of the pairs is unspecified.
    #[verifier::external_body]
    pub(crate) fn entries(&self) -> (r: Vec<(Id, Element)>)
        ensures
            forall|i: int|
                0 <= i < r@.len() ==> live_map_view(*self).contains_key(#[trigger] r@[i].0.value)
                    && r@[i].1@ == live_map_view(*self)[r@[i].0.value],
            forall|k: u128|
                live_map_view(*self).contains_key(k) ==> exists|i: int|
                    0 <= i < r@.len() && #[trigger] r@[i].0.value == k,
            forall|i: int, j: int| 0 <= i < j < r@.len() ==> r@[i].0.value != r@[j].0.value,
    {
        self.inner.iter().map(|e| (Id::from_value(*e.key()), e.value().clone())).collect()
    }
}

/// The index contents that a sequence of elements rebuilds: each element
/// keyed by its identifier, a later element winning over an earlier one with
/// the same identifier.
pub open spec fn rebuilt(s: Seq<ElementView>) -> Map<u128, ElementView>
    decreases s.len(),
{
    if s.len() == 0 {
        Map::empty()
    } else {
        rebuilt(s.drop_last()).insert(s.last().id, s.last())
    }
}

/// An exact listing: `out` holds, once each, exactly the elements of `m`
/// selected by `sel`.
pub open spec fn exact_listing(
    m: Map<u128, ElementView>,
    sel: spec_fn(ElementView) -> bool,
    out: Seq<ElementView>,
) -> bool {
    &&& forall|i: int|
        0 <= i < out.len() ==> m.contains_key(#[trigger] out[i].id) && m[out[i].id] == out[i]
            && sel(out[i])
    &&& forall|k: u128|
        m.contains_key(k) && sel(m[k]) ==> exists|i: int| 0 <= i < out.len() && #[trigger] out[i].id == k
    &&& forall|i: int, j: int| 0 <= i < j < out.len() ==> out[i].id != out[j].id
}

/// The live representation of the store: the only mutable state of the core.
pub struct Filesystem {
    elements: LiveMap,
}

impl Filesystem {
    /// What the index holds, keyed by identifier.
    pub closed spec fn contents(self) -> Map<u128, ElementView> {
        live_map_view(self.elements)
    }

    /// Every element is keyed by its own identifier.
    pub open spec fn wf(self) -> bool {
        forall|k: u128| self.contents().contains_key(k) ==> (#[trigger] self.contents()[k]).id == k
    }

    /// An empty index.
    pub fn new() -> (r: Filesystem)
        ensures
            r.wf(),
            r.contents() == Map::<u128, ElementView>::empty(),
    {
        Filesystem { elements: LiveMap::new() }
    }

    /// Replace the whole index with the given elements, each keyed by its
    /// identifier. The contents afterwards are a function of the elements
    /// alone, so rebuilding twice from an unchanged store gives equal
    /// contents.
    pub fn rebuild(&mut self, items: &Vec<Element>)
        ensures
            final(self).wf(),
            final(self).contents() == rebuilt(items.deep_view()),
    {
        self.elements.clear();
        let ghost s = items.deep_view();
        let mut i: usize = 0;
        assert(s.take(0) =~= Seq::<ElementView>::empty());
        while i < items.len()
            invariant
                i <= items.len(),
                s == items.deep_view(),
                s.len() == items@.len(),
                forall|j: int| 0 <= j < s.len() ==> s[j] == items@[j]@,
                self.contents() == rebuilt(s.take(i as int)),
                forall|k: u128|
                    self.contents().contains_key(k) ==> (#[trigger] self.contents()[k]).id == k,
            decreases items.len() - i,
        {
            let el = items[i].clone();
            self.elements.insert(el);
            proof {
                assert(s.take(i + 1).drop_last() =~= s.take(i as int));
                assert(s.take(i + 1).last() == s[i as int]);
            }
            i = i + 1;
        }
        proof {
            assert(s.take(items@.len() as int) =~= s);
        }
    }

    /// Insert or overwrite one element, keyed by its identifier; every other
    /// entry is untouched.
    pub fn insert_element(&mut self, el: Element)
        ensures
            final(self).contents() == old(self).contents().insert(el@.id, el@),
            old(self).wf() ==> final(self).wf(),
    {
        self.elements.insert(el);
    }

    /// Remove one identifier; every other entry is untouched.
    pub fn remove_element(&mut self, id: &Id)
        ensures
            final(self).contents() == old(self).contents().remove(id.value),
            old(self).wf() ==> final(self).wf(),
    {
        self.elements.remove(id);
    }

    /// The element an identifier maps to, if any.
    pub fn get_element(&self, id: &Id) -> (r: Option<Element>)
        ensures
            match r {
                Option::Some(e) => self.contents().contains_key(id.value) && e@
                    == self.contents()[id.value],
                Option::None => !self.contents().contains_key(id.value),
            },
    {
        self.elements.get(id)
    }

    /// One snapshot pass over the map: every entry exactly once, in
    /// unspecified order.
    pub(crate) fn elements_entries(&self) -> (r: Vec<(Id, Element)>)
        ensures
            forall|i: int|
                0 <= i < r@.len() ==> self.contents().contains_key(#[trigger] r@[i].0.value)
                    && r@[i].1@ == self.contents()[r@[i].0.value],
            forall|k: u128|
                self.contents().contains_key(k) ==> exists|i: int|
                    0 <= i < r@.len() && #[trigger] r@[i].0.value == k,
            forall|i: int, j: int| 0 <= i < j < r@.len() ==> r@[i].0.value != r@[j].0.value,
    {
        self.elements.entries()
    }

    /// Exactly the elements that `sel` selects, once each, in unspecified
    /// order.
    fn select_elements(&self, sel: Ghost<spec_fn(ElementView) -> bool>, p: &Parent, by_pin: bool) -> (r:
        Vec<Element>)
        requires
            self.wf(),
            by_pin ==> sel@ == (|e: ElementView| e.pinned),
            !by_pin ==> sel@ == (|e: ElementView| e.parent == *p),
        ensures
            exact_listing(self.contents(), sel@, r.deep_view()),
    {
        let es = self.elements.entries();
        let ghost m = self.contents();
        let mut out: Vec<Element> = Vec::new();
        let mut i: usize = 0;
        while i < es.len()
            invariant
                i <= es.len(),
                self.wf(),
                m == self.contents(),
                by_pin ==> sel@ == (|e: ElementView| e.pinned),
                !by_pin ==> sel@ == (|e: ElementView| e.parent == *p),
                forall|ii: int|
                    0 <= ii < es@.len() ==> m.contains_key(#[trigger] es@[ii].0.value)
                        && es@[ii].1@ == m[es@[ii].0.value],
                forall|k: u128|
                    m.contains_key(k) ==> exists|ii: int|
                        0 <= ii < es@.len() && #[trigger] es@[ii].0.value == k,
                forall|ii: int, jj: int|
                    0 <= ii < jj < es@.len() ==> es@[ii].0.value != es@[jj].0.value,
                forall|j: int|
                    0 <= j < out@.len() ==> m.contains_key((#[trigger] out@[j])@.id)
                        && m[out@[j]@.id] == out@[j]@ && sel@(out@[j]@),
                forall|j: int|
                    0 <= j < out@.len() ==> exists|ii: int|
                        0 <= ii < i && (#[trigger] out@[j])@.id == es@[ii].0.value,
                forall|ii: int|
                    0 <= ii < i && sel@((#[trigger] es@[ii]).1@) ==> exists|j: int|
                        0 <= j < out@.len() && (#[trigger] es@[ii]).0.value == out@[j]@.id,
                forall|j1: int, j2: int|
                    0 <= j1 < j2 < out@.len() ==> out@[j1]@.id != out@[j2]@.id,
            decreases es.len() - i,
        {
            let el = es[i].1.clone();
            let keep = if by_pin {
                el.pinned
            } else {
                match (&el.parent, p) {
                    (Parent::Root, Parent::Root) => true,
                    (Parent::Trash, Parent::Trash) => true,
                    (Parent::Directory(a), Parent::Directory(b)) => a.value == b.value,
                    _ => false,
                }
            };
            assert(keep == sel@(el@));
            proof {
                // the element's own identifier is the key it sits under
                assert(el@.id == es@[i as int].0.value);
            }
            let ghost prev = out@;
            if keep {
                out.push(el);
            }
            proof {
                assert forall|j: int|
                    0 <= j < out@.len() implies m.contains_key((#[trigger] out@[j])@.id)
                    && m[out@[j]@.id] == out@[j]@ && sel@(out@[j]@) by {
                    if j < prev.len() {
                        assert(out@[j] == prev[j]);
                    } else {
                        assert(out@[j]@ == es@[i as int].1@);
                    }
                }
                assert forall|j: int| 0 <= j < out@.len() implies exists|ii: int|
                    0 <= ii < i + 1 && (#[trigger] out@[j])@.id == es@[ii].0.value by {
                    if j < prev.len() {
                        assert(out@[j] == prev[j]);
                        let ii = choose|ii: int|
                            0 <= ii < i && (#[trigger] prev[j])@.id == es@[ii].0.value;
                        assert(0 <= ii < i + 1 && out@[j]@.id == es@[ii].0.value);
                    } else {
                        assert(out@[j]@.id == es@[i as int].0.value);
                    }
                }
                assert forall|ii: int|
                    0 <= ii < i + 1 && sel@((#[trigger] es@[ii]).1@) implies exists|j: int|
                    0 <= j < out@.len() && (#[trigger] es@[ii]).0.value == out@[j]@.id by {
                    if ii < i {
                        let j = choose|j: int|
                            0 <= j < prev.len() && (#[trigger] es@[ii]).0.value == prev[j]@.id;
                        assert(out@[j] == prev[j]);
                        assert(0 <= j < out@.len() && es@[ii].0.value == out@[j]@.id);
                    } else {
                        assert(sel@(el@));
                        let j = prev.len() as int;
                        assert(0 <= j < out@.len() && es@[ii].0.value == out@[j]@.id);
                    }
                }
                assert forall|j1: int, j2: int|
                    0 <= j1 < j2 < out@.len() implies out@[j1]@.id != out@[j2]@.id by {
                    if j2 < prev.len() {
                        assert(out@[j1] == prev[j1] && out@[j2] == prev[j2]);
                    } else if j2 == prev.len() {
                        assert(out@[j1] == prev[j1]);
                        let ii = choose|ii: int|
                            0 <= ii < i && (#[trigger] prev[j1])@.id == es@[ii].0.value;
                        assert(out@[j2]@.id == es@[i as int].0.value);
                        assert(es@[ii].0.value != es@[i as int].0.value);
                    }
                }
            }
            i = i + 1;
        }
        proof {
            let outv = out.deep_view();
            assert(forall|j: int| 0 <= j < out@.len() ==> outv[j] == (#[trigger] out@[j])@);
            assert forall|k: u128| m.contains_key(k) && #[trigger] sel@(m[k]) implies exists|j: int|
                0 <= j < outv.len() && (#[trigger] outv[j]).id == k by {
                let ii = choose|ii: int| 0 <= ii < es@.len() && #[trigger] es@[ii].0.value == k;
                assert(sel@(es@[ii].1@));
                let j = choose|j: int|
                    0 <= j < out@.len() && (#[trigger] es@[ii]).0.value == out@[j]@.id;
                assert(outv[j].id == k);
            }
        }
        out
    }

    /// Exactly the elements whose parent reference is `p`, once each, in
    /// unspecified order.
    pub fn children_with_parent(&self, p: &Parent) -> (r: Vec<Element>)
        requires
            self.wf(),
        ensures
            exact_listing(self.contents(), (|e: ElementView| e.parent == *p), r.deep_view()),
    {
        self.select_elements(Ghost(|e: ElementView| e.parent == *p), p, false)
    }

    /// Exactly the pinned elements, a view independent of the parent chain.
    pub fn pinned(&self) -> (r: Vec<Element>)
        requires
            self.wf(),
        ensures
            exact_listing(self.contents(), (|e: ElementView| e.pinned), r.deep_view()),
    {
        self.select_elements(Ghost(|e: ElementView| e.pinned), &Parent::Root, true)
    }

    /// Exactly the elements in the trash.
    pub fn trash(&self) -> (r: Vec<Element>)
        requires
            self.wf(),
        ensures
            exact_listing(
                self.contents(),
                (|e: ElementView| e.parent == Parent::Trash),
                r.deep_view(),
            ),
    {
        self.children_with_parent(&Parent::Trash)
    }
}

} // verus!
