//! The change watcher's state: raw change notifications are classified into
//! pending update and delete sets, coalesced per identifier within a
//! debounce window, and flushed into the index — deletes before updates.
use vstd::prelude::*;

use crate::element::{Element, ElementView, Id};
use crate::index::Filesystem;
use crate::ids::parsed_uuid;
use crate::records::{sidecar_stem, Content, Metadata};

verus! {

/// A shared set of pending identifiers. Held opaquely: its contents are
/// named by `id_set_view`, and every operation goes through a trusted
/// wrapper around one dashmap call.
#[verifier::external_body]
pub struct IdSet {
    inner: dashmap::DashSet<u128>,
}

/// What the pending set holds.
pub uninterp spec fn id_set_view(s: IdSet) -> Set<u128>;

/// A set that holds nothing.
pub open spec fn id_set_is_empty(s: IdSet) -> bool {
    id_set_view(s) == Set::<u128>::empty()
}

impl IdSet {
    /// Relies on dashmap::DashSet::new: a fresh set is empty.
    #[verifier::external_body]
    pub(crate) fn new() -> (r: IdSet)
        ensures
            id_set_is_empty(r),
    {
        IdSet { inner: dashmap::DashSet::new() }
    }

    /// Relies on dashmap::DashSet::insert: adds the key and keeps every
    /// other key.
    #[verifier::external_body]
    pub(crate) fn insert(&mut self, id: &Id)
        ensures
            id_set_view(*final(self)) == id_set_view(*old(self)).insert(id.value),
    {
        self.inner.insert(id.value);
    }

    /// Relies on dashmap::DashSet::clear: removes every key.
    #[verifier::external_body]
    pub(crate) fn clear(&mut self)
        ensures
            id_set_is_empty(*final(self)),
    {
        self.inner.clear();
    }

    /// Relies on dashmap::DashSet::iter: visits each key exactly once, in
    /// unspecified order.
    #[verifier::external_body]
    pub(crate) fn to_vec(&self) -> (r: Vec<Id>)
        ensures
            forall|i: int| 0 <= i < r@.len() ==> id_set_view(*self).contains(#[trigger] r@[i].value),
            forall|k: u128|
                id_set_view(*self).contains(k) ==> exists|i: int|
                    0 <= i < r@.len() && #[trigger] r@[i].value == k,
            forall|i: int, j: int| 0 <= i < j < r@.len() ==> r@[i].value != r@[j].value,
    {
        self.inner.iter().map(|k| Id::from_value(*k.key())).collect()
    }
}

/// The identifier a changed file name concerns: the metadata sidecar's
/// identifier if the name is one, otherwise the content sidecar's.
pub open spec fn watched_id(s: Seq<char>) -> Option<u128> {
    match (match sidecar_stem(s, "metadata"@) {
        Option::Some(stem) => parsed_uuid(stem),
        Option::None => Option::None,
    }) {
        Option::Some(v) => Option::Some(v),
        Option::None => match sidecar_stem(s, "content"@) {
            Option::Some(stem) => parsed_uuid(stem),
            Option::None => Option::None,
        },
    }
}

/// The identifiers accumulated between two debounce flushes: those whose
/// sidecars changed and those whose sidecars were removed. Each set holds an
/// identifier once however many notifications named it in the window, so a
/// flush reads each changed identifier from the store exactly once.
pub struct PendingChanges {
    to_update: IdSet,
    to_delete: IdSet,
}

impl PendingChanges {
    /// The identifiers queued for re-reading.
    pub closed spec fn updates(self) -> Set<u128> {
        id_set_view(self.to_update)
    }

    /// The identifiers queued for removal.
    pub closed spec fn deletes(self) -> Set<u128> {
        id_set_view(self.to_delete)
    }

    /// Empty pending sets.
    pub fn new() -> (r: PendingChanges)
        ensures
            r.updates() == Set::<u128>::empty(),
            r.deletes() == Set::<u128>::empty(),
    {
        PendingChanges { to_update: IdSet::new(), to_delete: IdSet::new() }
    }

    /// Classify one changed file name and queue its identifier: into the
    /// delete set on a removal notification, into the update set otherwise.
    /// A name that is no identifier-bearing sidecar changes nothing. Noting
    /// the same identifier again within the window leaves the sets as they
    /// are.
    pub fn note_path(&mut self, name: &str, removal: bool)
        ensures
            watched_id(name@) is None ==> (final(self).updates() == old(self).updates()
                && final(self).deletes() == old(self).deletes()),
            watched_id(name@) matches Some(v) ==> {
                &&& removal ==> (final(self).deletes() == old(self).deletes().insert(v)
                    && final(self).updates() == old(self).updates())
                &&& !removal ==> (final(self).updates() == old(self).updates().insert(v)
                    && final(self).deletes() == old(self).deletes())
            },
    {
        let id = match Metadata::validate_path(name) {
            Option::Some(id) => Option::Some(id),
            Option::None => Content::validate_path(name),
        };
        match id {
            Option::None => (),
            Option::Some(id) => {
                if removal {
                    self.to_delete.insert(&id);
                } else {
                    self.to_update.insert(&id);
                }
            },
        }
    }

    /// Drain the queued deletions for a flush: each deleted identifier once,
    /// and the delete set empty for the next window. The caller holds the
    /// sole reference while draining, so no notification falls in between.
    pub fn take_deletes(&mut self) -> (r: Vec<Id>)
        ensures
            forall|i: int|
                0 <= i < r@.len() ==> old(self).deletes().contains(#[trigger] r@[i].value),
            forall|k: u128|
                old(self).deletes().contains(k) ==> exists|i: int|
                    0 <= i < r@.len() && #[trigger] r@[i].value == k,
            forall|i: int, j: int| 0 <= i < j < r@.len() ==> r@[i].value != r@[j].value,
            final(self).deletes() == Set::<u128>::empty(),
            final(self).updates() == old(self).updates(),
    {
        let dels = self.to_delete.to_vec();
        self.to_delete.clear();
        dels
    }

    /// Drain the queued updates for a flush: each changed identifier once —
    /// one store read per identifier per window however many notifications
    /// named it — and the update set empty for the next window.
    pub fn take_updates(&mut self) -> (r: Vec<Id>)
        ensures
            forall|i: int|
                0 <= i < r@.len() ==> old(self).updates().contains(#[trigger] r@[i].value),
            forall|k: u128|
                old(self).updates().contains(k) ==> exists|i: int|
                    0 <= i < r@.len() && #[trigger] r@[i].value == k,
            forall|i: int, j: int| 0 <= i < j < r@.len() ==> r@[i].value != r@[j].value,
            final(self).updates() == Set::<u128>::empty(),
            final(self).deletes() == old(self).deletes(),
    {
        let ups = self.to_update.to_vec();
        self.to_update.clear();
        ups
    }
}

/// The identifier values of a sequence of identifiers.
pub open spec fn ids_view(v: Seq<Id>) -> Seq<u128> {
    Seq::new(v.len(), |i: int| v[i].value)
}

/// The update pairs as values: each identifier with the element its re-read
/// yielded, or nothing where the read failed.
pub open spec fn updates_view(v: Seq<(Id, Option<Element>)>) -> Seq<(u128, Option<ElementView>)> {
    Seq::new(
        v.len(),
        |i: int|
            (
                v[i].0.value,
                match v[i].1 {
                    Option::Some(e) => Option::Some(e@),
                    Option::None => Option::None,
                },
            ),
    )
}

/// The index contents after the queued deletions are applied in order.
pub open spec fn after_deletes(m: Map<u128, ElementView>, dels: Seq<u128>) -> Map<u128, ElementView>
    decreases dels.len(),
{
    if dels.len() == 0 {
        m
    } else {
        after_deletes(m, dels.drop_last()).remove(dels.last())
    }
}

/// The index contents after the queued updates are applied in order: a
/// successful re-read replaces the entry, a failed one leaves the previous
/// entry untouched.
pub open spec fn after_updates(
    m: Map<u128, ElementView>,
    ups: Seq<(u128, Option<ElementView>)>,
) -> Map<u128, ElementView>
    decreases ups.len(),
{
    if ups.len() == 0 {
        m
    } else {
        let rest = after_updates(m, ups.drop_last());
        match ups.last().1 {
            Option::Some(e) => rest.insert(ups.last().0, e),
            Option::None => rest,
        }
    }
}

/// One debounce flush: every queued deletion first, then every queued
/// update.
pub open spec fn flushed(
    m: Map<u128, ElementView>,
    dels: Seq<u128>,
    ups: Seq<(u128, Option<ElementView>)>,
) -> Map<u128, ElementView> {
    after_updates(after_deletes(m, dels), ups)
}

impl Filesystem {
    /// Replace one entry from a re-read, or leave the index untouched where
    /// the read failed.
    pub fn apply_refresh(&mut self, id: &Id, loaded: Option<Element>)
        requires
            old(self).wf(),
            loaded matches Some(e) ==> e@.id == id.value,
        ensures
            final(self).wf(),
            match loaded {
                Option::Some(e) => final(self).contents() == old(self).contents().insert(id.value, e@),
                Option::None => final(self).contents() == old(self).contents(),
            },
    {
        match loaded {
            Option::Some(e) => self.insert_element(e),
            Option::None => (),
        }
    }

    /// Apply one debounce flush to the index: remove every queued deletion,
    /// then apply every queued update. An identifier both deleted and
    /// updated within the window is present afterwards when its re-read
    /// succeeded: deletes are applied strictly before updates.
    pub fn apply_flush(&mut self, deletes: &Vec<Id>, updates: &Vec<(Id, Option<Element>)>)
        requires
            old(self).wf(),
            forall|i: int|
                0 <= i < updates@.len() ==> ((#[trigger] updates@[i]).1 matches Some(e) ==> e@.id
                    == updates@[i].0.value),
        ensures
            final(self).wf(),
            final(self).contents() == flushed(
                old(self).contents(),
                ids_view(deletes@),
                updates_view(updates@),
            ),
    {
        let ghost m0 = self.contents();
        let ghost dv = ids_view(deletes@);
        let mut i: usize = 0;
        assert(dv.take(0) =~= Seq::<u128>::empty());
        while i < deletes.len()
            invariant
                i <= deletes@.len(),
                self.wf(),
                dv == ids_view(deletes@),
                dv.len() == deletes@.len(),
                self.contents() == after_deletes(m0, dv.take(i as int)),
            decreases deletes@.len() - i,
        {
            self.remove_element(&deletes[i]);
            proof {
                assert(dv.take(i + 1).drop_last() =~= dv.take(i as int));
                assert(dv.take(i + 1).last() == dv[i as int]);
            }
            i = i + 1;
        }
        proof {
            assert(dv.take(deletes@.len() as int) =~= dv);
        }
        let ghost m1 = self.contents();
        let ghost uv = updates_view(updates@);
        let mut j: usize = 0;
        assert(uv.take(0) =~= Seq::<(u128, Option<ElementView>)>::empty());
        while j < updates.len()
            invariant
                j <= updates@.len(),
                self.wf(),
                uv == updates_view(updates@),
                uv.len() == updates@.len(),
                forall|ii: int|
                    0 <= ii < updates@.len() ==> ((#[trigger] updates@[ii]).1 matches Some(e)
                        ==> e@.id == updates@[ii].0.value),
                self.contents() == after_updates(m1, uv.take(j as int)),
            decreases updates@.len() - j,
        {
            let id = updates[j].0;
            let loaded = match &updates[j].1 {
                Option::Some(e) => Option::Some(e.clone()),
                Option::None => Option::None,
            };
            self.apply_refresh(&id, loaded);
            proof {
                assert(uv.take(j + 1).drop_last() =~= uv.take(j as int));
                assert(uv.take(j + 1).last() == uv[j as int]);
            }
            j = j + 1;
        }
        proof {
            assert(uv.take(updates@.len() as int) =~= uv);
        }
    }
}

} // verus!
