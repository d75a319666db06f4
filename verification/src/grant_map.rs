//! Grant tracker used by the processor.
//!
//! Writes are state-keyed (`allocated` / `loaded` / `activate` / `revoke` /
//! `unloaded`) so that local ownership can be resolved by preferred state without
//! recomputing it from a raw grant state.

use vstd::prelude::*;
use vstd::pervasive::cloned;

use crate::cluster::id_texts;
use crate::ids::{GrantId, GrantState, Shard, ShardView};
use crate::table::Table;

verus! {

/// What is tracked of a grant.
#[verifier::ext_equal]
pub struct TrackedGrant<T> {
    pub shard: ShardView,
    pub state: GrantState,
    pub value: T,
}

struct Entry<T> {
    shard: Shard,
    state: GrantState,
    value: T,
}

impl<T> View for Entry<T> {
    type V = TrackedGrant<T>;

    closed spec fn view(&self) -> TrackedGrant<T> {
        TrackedGrant { shard: self.shard@, state: self.state, value: self.value }
    }
}

/// The grants that are tracked, each with a value. The view maps the text of each
/// grant id to what is tracked of the grant.
pub struct GrantMap<T: Clone> {
    inner: Table<GrantId, Entry<T>>,
}

impl<T: Clone> View for GrantMap<T> {
    type V = Map<Seq<char>, TrackedGrant<T>>;

    closed spec fn view(&self) -> Map<Seq<char>, TrackedGrant<T>> {
        self.inner@.map_values(|e: Entry<T>| e@)
    }
}

/// Whether a tracked grant was handed out: shard and state as they are, and a clone
/// of the value.
pub open spec fn hands_out<T: Clone>(got: (Shard, GrantState, T), of: TrackedGrant<T>) -> bool {
    &&& got.0@ == of.shard
    &&& got.1 == of.state
    &&& cloned::<T>(of.value, got.2)
}

impl<T: Clone> Default for GrantMap<T> {
    fn default() -> (m: Self)
        ensures
            m@ == Map::<Seq<char>, TrackedGrant<T>>::empty(),
    {
        Self::new()
    }
}

impl<T: Clone> GrantMap<T> {
    /// Nothing is tracked.
    pub fn new() -> (m: Self)
        ensures
            m@ == Map::<Seq<char>, TrackedGrant<T>>::empty(),
    {
        let m = GrantMap { inner: Table::new() };
        assert(m@ =~= Map::<Seq<char>, TrackedGrant<T>>::empty());
        m
    }

    /// Track a grant in a state. What was tracked of it before is overwritten.
    pub fn write(&mut self, id: GrantId, shard: Shard, state: GrantState, value: T)
        ensures
            final(self)@ == old(self)@.insert(
                id@,
                TrackedGrant { shard: shard@, state, value },
            ),
    {
        let ghost before = self@;
        self.inner.insert(id, Entry { shard, state, value });
        assert(self@ =~= before.insert(id@, TrackedGrant { shard: shard@, state, value }));
    }

    /// The grant is allocated.
    pub fn allocated(&mut self, id: GrantId, shard: Shard, value: T)
        ensures
            final(self)@ == old(self)@.insert(
                id@,
                TrackedGrant { shard: shard@, state: GrantState::Allocated, value },
            ),
    {
        self.write(id, shard, GrantState::Allocated, value);
    }

    /// The grant is allocated and loaded.
    pub fn loaded(&mut self, id: GrantId, shard: Shard, value: T)
        ensures
            final(self)@ == old(self)@.insert(
                id@,
                TrackedGrant { shard: shard@, state: GrantState::AllocatedLoaded, value },
            ),
    {
        self.write(id, shard, GrantState::AllocatedLoaded, value);
    }

    /// The grant is active.
    pub fn activate(&mut self, id: GrantId, shard: Shard, value: T)
        ensures
            final(self)@ == old(self)@.insert(
                id@,
                TrackedGrant { shard: shard@, state: GrantState::Active, value },
            ),
    {
        self.write(id, shard, GrantState::Active, value);
    }

    /// The grant is revoked.
    pub fn revoke(&mut self, id: GrantId, shard: Shard, value: T)
        ensures
            final(self)@ == old(self)@.insert(
                id@,
                TrackedGrant { shard: shard@, state: GrantState::Revoked, value },
            ),
    {
        self.write(id, shard, GrantState::Revoked, value);
    }

    /// The grant is revoked and unloaded.
    pub fn unloaded(&mut self, id: GrantId, shard: Shard, value: T)
        ensures
            final(self)@ == old(self)@.insert(
                id@,
                TrackedGrant { shard: shard@, state: GrantState::RevokedUnloaded, value },
            ),
    {
        self.write(id, shard, GrantState::RevokedUnloaded, value);
    }

    /// Stop tracking a grant. Gives what was tracked of it.
    pub fn delete(&mut self, id: &GrantId) -> (r: Option<(Shard, GrantState, T)>)
        ensures
            final(self)@ == old(self)@.remove(id@),
            match r {
                Some(got) => {
                    &&& old(self)@.contains_key(id@)
                    &&& old(self)@[id@] == (TrackedGrant {
                        shard: got.0@,
                        state: got.1,
                        value: got.2,
                    })
                },
                None => !old(self)@.contains_key(id@),
            },
    {
        let ghost before = self@;
        let gone = self.inner.remove(id);
        assert(self@ =~= before.remove(id@));
        match gone {
            Some(e) => Some((e.shard, e.state, e.value)),
            None => None,
        }
    }

    /// Fetch a value by grant id. Returns `(shard, state, value)`.
    pub fn get(&self, id: &GrantId) -> (r: Option<(Shard, GrantState, T)>)
        ensures
            match r {
                Some(got) => self@.contains_key(id@) && hands_out(got, self@[id@]),
                None => !self@.contains_key(id@),
            },
    {
        match self.inner.get(id) {
            Some(e) => Some((e.shard.clone(), e.state, e.value.clone())),
            None => None,
        }
    }

    /// How many grants are tracked.
    pub fn len(&self) -> (n: usize)
        ensures
            n == self@.len(),
            self@.dom().finite(),
    {
        let n = self.inner.len();
        assert(self@.dom() =~= self.inner@.dom());
        n
    }

    /// Whether no grant is tracked.
    pub fn is_empty(&self) -> (r: bool)
        ensures
            r == (self@ == Map::<Seq<char>, TrackedGrant<T>>::empty()),
    {
        let n = self.len();
        proof {
            if n == 0 {
                assert(self@ =~= Map::<Seq<char>, TrackedGrant<T>>::empty());
            }
        }
        n == 0
    }

    /// All grant ids currently tracked, each once, cloned out so the caller can
    /// iterate while the map changes.
    pub fn ids(&self) -> (r: Vec<GrantId>)
        ensures
            id_texts(r@).no_duplicates(),
            id_texts(r@).to_set() == self@.dom(),
    {
        let n = self.inner.len();
        let ghost keys = self.inner.keys();
        let mut out: Vec<GrantId> = Vec::new();
        let mut i: usize = 0;
        while i < n
            invariant
                i <= n,
                n == keys.len(),
                keys == self.inner.keys(),
                out@.len() == i,
                forall|j: int| 0 <= j < i ==> (#[trigger] out@[j])@ == keys[j],
            decreases n - i,
        {
            out.push(self.inner.key_at(i).clone());
            i = i + 1;
        }
        proof {
            assert(id_texts(out@) =~= keys);
            assert(keys.to_set() =~= self@.dom());
        }
        out
    }
}

/// After a grant is written it is tracked as written, whatever was tracked of it
/// before, and no other grant is touched.
pub proof fn law_writes_overwrite_in_place<T>(
    m: Map<Seq<char>, TrackedGrant<T>>,
    id: Seq<char>,
    first: TrackedGrant<T>,
    second: TrackedGrant<T>,
)
    ensures
        m.insert(id, first).insert(id, second) == m.insert(id, second),
        m.insert(id, second)[id] == second,
        forall|other: Seq<char>| #[trigger]
            m.contains_key(other) && other != id ==> m.insert(id, second)[other] == m[other],
{
    assert(m.insert(id, first).insert(id, second) =~= m.insert(id, second));
}

/// After each kind of write the grant is tracked in the state of that kind, with the
/// shard and the value given, whatever was tracked of it before, and no other grant is
/// touched.
pub proof fn law_writes_track_their_state<T: Clone>(
    m: &mut GrantMap<T>,
    id: GrantId,
    shard: Shard,
    value: T,
    other: Seq<char>,
)
    requires
        other != id@,
    ensures
        call_ensures(GrantMap::<T>::allocated, (m, id, shard, value), ()) ==> tracked_with(
            final(m)@,
            id@,
            shard@,
            GrantState::Allocated,
            value,
        ) && same_at(old(m)@, final(m)@, other),
        call_ensures(GrantMap::<T>::loaded, (m, id, shard, value), ()) ==> tracked_with(
            final(m)@,
            id@,
            shard@,
            GrantState::AllocatedLoaded,
            value,
        ) && same_at(old(m)@, final(m)@, other),
        call_ensures(GrantMap::<T>::activate, (m, id, shard, value), ()) ==> tracked_with(
            final(m)@,
            id@,
            shard@,
            GrantState::Active,
            value,
        ) && same_at(old(m)@, final(m)@, other),
        call_ensures(GrantMap::<T>::revoke, (m, id, shard, value), ()) ==> tracked_with(
            final(m)@,
            id@,
            shard@,
            GrantState::Revoked,
            value,
        ) && same_at(old(m)@, final(m)@, other),
        call_ensures(GrantMap::<T>::unloaded, (m, id, shard, value), ()) ==> tracked_with(
            final(m)@,
            id@,
            shard@,
            GrantState::RevokedUnloaded,
            value,
        ) && same_at(old(m)@, final(m)@, other),
        forall|state: GrantState| #[trigger]
            call_ensures(GrantMap::<T>::write, (m, id, shard, state, value), ()) ==> tracked_with(
                final(m)@,
                id@,
                shard@,
                state,
                value,
            ) && same_at(old(m)@, final(m)@, other),
{
}

/// Whether a grant is tracked with a shard, in a state, with a value.
pub open spec fn tracked_with<T>(
    m: Map<Seq<char>, TrackedGrant<T>>,
    id: Seq<char>,
    shard: ShardView,
    state: GrantState,
    value: T,
) -> bool {
    &&& m.contains_key(id)
    &&& m[id].shard == shard
    &&& m[id].state == state
    &&& m[id].value == value
}

/// Whether two trackers say the same of a grant.
pub open spec fn same_at<T>(
    a: Map<Seq<char>, TrackedGrant<T>>,
    b: Map<Seq<char>, TrackedGrant<T>>,
    id: Seq<char>,
) -> bool {
    &&& a.contains_key(id) == b.contains_key(id)
    &&& a.contains_key(id) ==> a[id] == b[id]
}

/// Deleting a grant gives what was tracked of it and leaves nothing of it, and no other
/// grant is touched; getting one gives the same and changes nothing.
pub proof fn law_deleting_and_getting_agree<T: Clone>(
    m: &mut GrantMap<T>,
    id: &GrantId,
    deleted: Option<(Shard, GrantState, T)>,
    got: Option<(Shard, GrantState, T)>,
    other: Seq<char>,
)
    requires
        call_ensures(GrantMap::<T>::delete, (m, id), deleted),
        call_ensures(GrantMap::<T>::get, (&*m, id), got),
        other != id@,
    ensures
        !final(m)@.contains_key(id@),
        same_at(old(m)@, final(m)@, other),
        deleted is Some <==> old(m)@.contains_key(id@),
        got is Some <==> deleted is Some,
        deleted is Some ==> {
            &&& got->Some_0.0@ == deleted->Some_0.0@
            &&& got->Some_0.1 == deleted->Some_0.1
            &&& cloned::<T>(deleted->Some_0.2, got->Some_0.2)
        },
{
}

/// The list of ids names each grant that is tracked once and no other, and the tracker is
/// empty exactly where none is.
pub proof fn law_ids_name_what_is_tracked<T: Clone>(
    m: &GrantMap<T>,
    ids: Vec<GrantId>,
    n: usize,
    empty: bool,
    g: Seq<char>,
)
    requires
        call_ensures(GrantMap::<T>::ids, (m,), ids),
        call_ensures(GrantMap::<T>::len, (m,), n),
        call_ensures(GrantMap::<T>::is_empty, (m,), empty),
    ensures
        m@.contains_key(g) <==> exists|i: int| 0 <= i < ids@.len() && (#[trigger] ids@[i]).0@ == g,
        forall|i: int, j: int|
            0 <= i < ids@.len() && 0 <= j < ids@.len() && i != j ==> (#[trigger] ids@[i]).0@ != (
            #[trigger] ids@[j]).0@,
        n == ids@.len(),
        empty <==> n == 0,
{
    let list = id_texts(ids@);
    list.unique_seq_to_set();
    assert forall|i: int| 0 <= i < ids@.len() implies list[i] == (#[trigger] ids@[i]).0@ by {}
    if m@.contains_key(g) {
        assert(list.to_set().contains(g));
        let i = choose|i: int| 0 <= i < list.len() && list[i] == g;
        assert(ids@[i].0@ == g);
    }
    if exists|i: int| 0 <= i < ids@.len() && (#[trigger] ids@[i]).0@ == g {
        let i = choose|i: int| 0 <= i < ids@.len() && (#[trigger] ids@[i]).0@ == g;
        assert(list[i] == g);
        assert(list.to_set().contains(g));
    }
    if n == 0 {
        assert(m@ =~= Map::<Seq<char>, TrackedGrant<T>>::empty());
    }
}

} // verus!
