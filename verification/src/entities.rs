//! What scripts keep across frames: retained views and other entities, by handle.
//!
//! An entity belongs to the view and the application for which the script ran that made it. It is
//! released with the view that owns it, with its application, or when what made it fails.
use crate::nested;
use vstd::prelude::*;

verus! {

/// A retained entity: its handle, the view it is (if it is one), the handle of the view that owns
/// it, and the application it belongs to.
#[derive(Clone, Copy, PartialEq, Eq, Structural, Debug)]
pub struct EntityRecord {
    pub handle: u64,
    pub view: Option<u64>,
    pub owner: Option<u64>,
    pub application: Option<u64>,
}

/// The number of a store, its entities in the order in which they were made, the next handle, and
/// how many entities there may be.
#[verifier::ext_equal]
pub struct EntitiesModel {
    pub store: u32,
    pub records: Seq<EntityRecord>,
    pub next: u64,
    pub limit: nat,
}

/// The retained entities of a runtime.
pub struct EntityStore {
    store: u32,
    records: Vec<EntityRecord>,
    next: u64,
    limit: usize,
}

/// The first handle of a store. The handles of each store are its own.
pub open spec fn first_handle(store: u32) -> int {
    store * 0x1_0000_0000
}

/// Whether one more entity can be retained: there is room for it, and a handle is left.
pub open spec fn has_room(m: EntitiesModel) -> bool {
    &&& m.records.len() < m.limit
    &&& m.next < first_handle(m.store) + 0xffff_ffff
}

impl View for EntityStore {
    type V = EntitiesModel;

    closed spec fn view(&self) -> EntitiesModel {
        EntitiesModel {
            store: self.store,
            records: self.records@,
            next: self.next,
            limit: self.limit as nat,
        }
    }
}

/// What is released.
#[derive(Clone, Copy, PartialEq, Eq, Structural, Debug)]
pub enum EntityRelease {
    /// The entity with this handle.
    Handle(u64),
    /// Those of this application.
    Application(u64),
    /// Those made since a checkpoint.
    Since(u64),
}

/// Whether an entity is released in its own right.
pub open spec fn named_by(release: EntityRelease, record: EntityRecord) -> bool {
    match release {
        EntityRelease::Handle(handle) => record.handle == handle,
        EntityRelease::Application(generation) => record.application == Some(generation),
        EntityRelease::Since(checkpoint) => record.handle >= checkpoint,
    }
}

/// Whether an entity is released, given the handles released so far: in its own right, or with its
/// owner.
pub open spec fn goes(release: EntityRelease, gone: Seq<u64>, record: EntityRecord) -> bool {
    named_by(release, record) || match record.owner {
        Some(owner) => gone.contains(owner),
        None => false,
    }
}

/// The handles that are released, in order.
pub open spec fn gone(records: Seq<EntityRecord>, release: EntityRelease) -> Seq<u64>
    decreases records.len(),
{
    if records.len() == 0 {
        Seq::empty()
    } else {
        let before = gone(records.drop_last(), release);
        if goes(release, before, records.last()) {
            before.push(records.last().handle)
        } else {
            before
        }
    }
}

/// The views that are released, in order.
pub open spec fn gone_views(records: Seq<EntityRecord>, release: EntityRelease) -> Seq<u64>
    decreases records.len(),
{
    if records.len() == 0 {
        Seq::empty()
    } else {
        let before = gone_views(records.drop_last(), release);
        match records.last().view {
            Some(view) if goes(release, gone(records.drop_last(), release), records.last()) => {
                before.push(view)
            },
            _ => before,
        }
    }
}

/// The entities that stay.
pub open spec fn kept(records: Seq<EntityRecord>, release: EntityRelease) -> Seq<EntityRecord>
    decreases records.len(),
{
    if records.len() == 0 {
        Seq::empty()
    } else {
        let before = kept(records.drop_last(), release);
        if goes(release, gone(records.drop_last(), release), records.last()) {
            before
        } else {
            before.push(records.last())
        }
    }
}

/// The state without what is released.
pub open spec fn released(m: EntitiesModel, release: EntityRelease) -> EntitiesModel {
    EntitiesModel { records: kept(m.records, release), ..m }
}

/// Whether every handle is one of the store's, they were given out in order, and every owner was
/// there before what it owns.
pub open spec fn orderly(m: EntitiesModel) -> bool {
    &&& first_handle(m.store) <= m.next <= first_handle(m.store) + 0xffff_ffff
    &&& forall|i: int|
        0 <= i < m.records.len() ==> first_handle(m.store) <= (#[trigger] m.records[i]).handle
            < m.next
    &&& forall|i: int, j: int|
        0 <= i < j < m.records.len() ==> (#[trigger] m.records[i]).handle < (
        #[trigger] m.records[j]).handle
    &&& forall|i: int|
        0 <= i < m.records.len() ==> match (#[trigger] m.records[i]).owner {
            Some(owner) => owner < m.records[i].handle,
            None => true,
        }
}

/// The view behind a handle.
pub open spec fn view_of(records: Seq<EntityRecord>, handle: u64) -> Option<u64>
    decreases records.len(),
{
    if records.len() == 0 {
        None
    } else if records.last().handle == handle {
        records.last().view
    } else {
        view_of(records.drop_last(), handle)
    }
}

/// The handle under which a view is retained.
pub open spec fn handle_of(records: Seq<EntityRecord>, view: u64) -> Option<u64>
    decreases records.len(),
{
    if records.len() == 0 {
        None
    } else if records.last().view == Some(view) {
        Some(records.last().handle)
    } else {
        handle_of(records.drop_last(), view)
    }
}

/// The handles and views that a release has taken.
pub struct Released {
    pub handles: Vec<u64>,
    pub views: Vec<u64>,
}

/// Whether these are the handles and views that a release takes.
pub open spec fn takes(r: Released, records: Seq<EntityRecord>, release: EntityRelease) -> bool {
    &&& r.handles@ == gone(records, release)
    &&& r.views@ == gone_views(records, release)
}

impl EntityStore {
    /// The store with a number, without entities, of which there may be `limit` at a time.
    pub fn new(store: u32, limit: usize) -> (r: Self)
        ensures
            r@ == (EntitiesModel {
                store,
                records: Seq::empty(),
                next: first_handle(store) as u64,
                limit: limit as nat,
            }),
            orderly(r@),
    {
        let next: u64 = store as u64 * 0x1_0000_0000;
        EntityStore { store, records: Vec::new(), next, limit }
    }

    /// How many entities are retained.
    pub fn len(&self) -> (r: usize)
        ensures
            r == self@.records.len(),
    {
        self.records.len()
    }

    /// Retains an entity; gives its handle, or nothing where there are as many as there may be.
    pub fn retain(&mut self, view: Option<u64>, owner: Option<u64>, application: Option<u64>) -> (r:
        Option<u64>)
        ensures
            if has_room(old(self)@) {
                &&& r == Some(old(self)@.next)
                &&& final(self)@.records == old(self)@.records.push(
                    EntityRecord { handle: old(self)@.next, view, owner, application },
                )
                &&& final(self)@.next == old(self)@.next + 1
                &&& final(self)@.limit == old(self)@.limit
                &&& final(self)@.store == old(self)@.store
            } else {
                r is None && final(self)@ == old(self)@
            },
    {
        let last: u64 = self.store as u64 * 0x1_0000_0000 + 0xffff_ffff;
        if self.records.len() >= self.limit || self.next >= last {
            return None;
        }
        let handle: u64 = self.next;
        self.records.push(EntityRecord { handle, view, owner, application });
        self.next = handle + 1;
        Some(handle)
    }

    /// The handle under which a view is retained.
    pub fn handle_behind(&self, view: u64) -> (r: Option<u64>)
        ensures
            r == handle_of(self@.records, view),
    {
        let mut i: usize = self.records.len();
        let ghost all = self.records@;
        assert(all.take(i as int) =~= all);
        while i > 0
            invariant
                i <= all.len(),
                all == self.records@,
                handle_of(all, view) == handle_of(all.take(i as int), view),
            decreases i,
        {
            assert(all.take(i as int).last() == all[i - 1]);
            assert(all.take(i as int).drop_last() =~= all.take(i - 1));
            i -= 1;
            match self.records[i].view {
                Some(found) => if found == view {
                    return Some(self.records[i].handle);
                },
                None => {},
            }
        }
        None
    }

    /// The view behind a handle.
    pub fn view_behind(&self, handle: u64) -> (r: Option<u64>)
        ensures
            r == view_of(self@.records, handle),
    {
        let ghost all = self.records@;
        let mut i: usize = self.records.len();
        assert(all.take(i as int) =~= all);
        while i > 0
            invariant
                i <= all.len(),
                all == self.records@,
                view_of(all, handle) == view_of(all.take(i as int), handle),
            decreases i,
        {
            assert(all.take(i as int).drop_last() =~= all.take(i - 1));
            assert(all.take(i as int).last() == all[i - 1]);
            i -= 1;
            if self.records[i].handle == handle {
                return self.records[i].view;
            }
        }
        None
    }

    /// A point to go back to.
    pub fn checkpoint(&self) -> (r: u64)
        ensures
            r == self@.next,
    {
        self.next
    }

    /// The runtime is gone: nothing is retained.
    pub fn clear(&mut self)
        ensures
            final(self)@ == (EntitiesModel { records: Seq::empty(), ..old(self)@ }),
    {
        self.records = Vec::new();
    }

    /// Releases entities, with all that they own.
    pub fn release(&mut self, release: EntityRelease) -> (r: Released)
        ensures
            takes(r, old(self)@.records, release),
            final(self)@ == released(old(self)@, release),
    {
        let ghost all = self.records@;
        let mut handles: Vec<u64> = Vec::new();
        let mut views: Vec<u64> = Vec::new();
        let mut stay: Vec<EntityRecord> = Vec::new();
        let mut i: usize = 0;
        assert(all.take(0) =~= Seq::empty());
        while i < self.records.len()
            invariant
                i <= self.records@.len(),
                all == self.records@,
                handles@ == gone(all.take(i as int), release),
                views@ == gone_views(all.take(i as int), release),
                stay@ == kept(all.take(i as int), release),
            decreases self.records@.len() - i,
        {
            let record = self.records[i];
            assert(all.take(i + 1).drop_last() =~= all.take(i as int));
            assert(all.take(i + 1).last() == record);
            let named = match release {
                EntityRelease::Handle(handle) => record.handle == handle,
                EntityRelease::Application(generation) => record.application == Some(generation),
                EntityRelease::Since(checkpoint) => record.handle >= checkpoint,
            };
            let owned = match record.owner {
                Some(owner) => nested::holds(&handles, owner),
                None => false,
            };
            if named || owned {
                handles.push(record.handle);
                if let Some(view) = record.view {
                    views.push(view);
                }
            } else {
                stay.push(record);
            }
            i += 1;
        }
        assert(all.take(i as int) =~= all);
        self.records = stay;
        Released { handles, views }
    }
}

/// What a release leaves is in order.
pub proof fn lemma_released_orderly(m: EntitiesModel, release: EntityRelease)
    requires
        orderly(m),
    ensures
        orderly(released(m, release)),
        forall|i: int|
            0 <= i < released(m, release).records.len() ==> m.records.contains(
                #[trigger] released(m, release).records[i],
            ),
    decreases m.records.len(),
{
    let after = released(m, release);
    if m.records.len() > 0 {
        let last = m.records.last();
        let front = EntitiesModel { records: m.records.drop_last(), ..m };
        assert forall|i: int, j: int| 0 <= i < j < front.records.len() implies (
        #[trigger] front.records[i]).handle < (#[trigger] front.records[j]).handle by {
            assert(front.records[i] == m.records[i] && front.records[j] == m.records[j]);
        }
        assert forall|i: int| 0 <= i < front.records.len() implies first_handle(m.store) <= (
        #[trigger] front.records[i]).handle < m.next && match front.records[i].owner {
            Some(owner) => owner < front.records[i].handle,
            None => true,
        } by {
            assert(front.records[i] == m.records[i]);
        }
        lemma_released_orderly(front, release);
        let before = released(front, release);
        assert forall|i: int| 0 <= i < before.records.len() implies m.records.contains(
            #[trigger] before.records[i],
        ) && before.records[i].handle < last.handle by {
            let record = before.records[i];
            assert(front.records.contains(record));
            let k = choose|k: int| 0 <= k < front.records.len() && front.records[k] == record;
            assert(m.records[k] == record);
            assert(m.records[k].handle < m.records[m.records.len() - 1].handle);
        }
        assert(m.records.contains(last)) by {
            assert(m.records[m.records.len() - 1] == last);
        }
        if !goes(release, gone(front.records, release), last) {
            assert(after.records =~= before.records.push(last));
            assert forall|i: int| 0 <= i < after.records.len() implies m.records.contains(
                #[trigger] after.records[i],
            ) && first_handle(m.store) <= after.records[i].handle < m.next && match after.records[i].owner {
                Some(owner) => owner < after.records[i].handle,
                None => true,
            } by {
                if i < before.records.len() {
                    assert(after.records[i] == before.records[i]);
                } else {
                    assert(after.records[i] == m.records[m.records.len() - 1]);
                }
            }
            assert forall|i: int, j: int| 0 <= i < j < after.records.len() implies (
            #[trigger] after.records[i]).handle < (#[trigger] after.records[j]).handle by {
                assert(after.records[i] == before.records[i]);
                if j < before.records.len() {
                    assert(after.records[j] == before.records[j]);
                }
            }
        } else {
            assert(after.records =~= before.records);
            assert forall|i: int| 0 <= i < after.records.len() implies m.records.contains(
                #[trigger] after.records[i],
            ) by {
                assert(after.records[i] == before.records[i]);
            }
        }
    }
}

/// The entities that stay are those that are not released.
pub proof fn lemma_kept(records: Seq<EntityRecord>, release: EntityRelease, record: EntityRecord)
    requires
        forall|i: int, j: int|
            0 <= i < j < records.len() ==> (#[trigger] records[i]).handle < (
            #[trigger] records[j]).handle,
    ensures
        kept(records, release).contains(record) <==> records.contains(record) && !gone(
            records,
            release,
        ).contains(record.handle),
        forall|handle: u64| #[trigger]
            gone(records, release).contains(handle) ==> exists|i: int|
                0 <= i < records.len() && (#[trigger] records[i]).handle == handle,
    decreases records.len(),
{
    if records.len() > 0 {
        let front = records.drop_last();
        let last = records.last();
        assert forall|i: int, j: int| 0 <= i < j < front.len() implies (#[trigger] front[i]).handle
            < (#[trigger] front[j]).handle by {
            assert(front[i] == records[i] && front[j] == records[j]);
        }
        lemma_kept(front, release, record);
        let before = gone(front, release);
        let after = gone(records, release);
        assert(!before.contains(last.handle)) by {
            if before.contains(last.handle) {
                let i = choose|i: int|
                    0 <= i < front.len() && (#[trigger] front[i]).handle == last.handle;
                assert(records[i].handle < records[records.len() - 1].handle);
            }
        }
        if goes(release, before, last) {
            lemma_push_contains(before, last.handle);
        }
        if !goes(release, before, last) {
            lemma_push_contains(kept(front, release), last);
        }
        assert(records =~= front.push(last));
        lemma_push_contains(front, last);
        if front.contains(record) {
            let k = choose|k: int| 0 <= k < front.len() && front[k] == record;
            assert(records[k].handle < records[records.len() - 1].handle);
        }
        assert forall|handle: u64| #[trigger] after.contains(handle) implies exists|i: int|
            0 <= i < records.len() && (#[trigger] records[i]).handle == handle by {
            if before.contains(handle) {
                let i = choose|i: int|
                    0 <= i < front.len() && (#[trigger] front[i]).handle == handle;
                assert(records[i].handle == handle);
            } else {
                assert(records[records.len() - 1].handle == handle);
            }
        }
    }
}

proof fn lemma_push_contains<T>(list: Seq<T>, added: T)
    ensures
        forall|x: T| #[trigger] list.push(added).contains(x) <==> list.contains(x) || x == added,
{
    assert forall|x: T| #[trigger]
        list.push(added).contains(x) <==> list.contains(x) || x == added by {
        if list.contains(x) {
            let k = choose|k: int| 0 <= k < list.len() && list[k] == x;
            assert(list.push(added)[k] == x);
        }
        if x == added {
            assert(list.push(added)[list.len() as int] == x);
        }
    }
}

proof fn lemma_gone_grows(records: Seq<EntityRecord>, at: int, release: EntityRelease, handle: u64)
    requires
        0 <= at <= records.len(),
        gone(records.take(at), release).contains(handle),
    ensures
        gone(records, release).contains(handle),
    decreases records.len() - at,
{
    if at < records.len() {
        let next = records.take(at + 1);
        assert(next.drop_last() =~= records.take(at));
        lemma_push_contains(gone(records.take(at), release), next.last().handle);
        lemma_gone_grows(records, at + 1, release, handle);
    } else {
        assert(records.take(at) =~= records);
    }
}

/// A released view takes with it all that it owns: whatever stays has no released owner.
pub proof fn law_an_entity_goes_with_its_owner(
    m: EntitiesModel,
    release: EntityRelease,
    owner: EntityRecord,
    owned: EntityRecord,
)
    requires
        orderly(m),
        m.records.contains(owner),
        m.records.contains(owned),
        owned.owner == Some(owner.handle),
        gone(m.records, release).contains(owner.handle),
    ensures
        gone(m.records, release).contains(owned.handle),
        !released(m, release).records.contains(owned),
{
    let all = m.records;
    let k = choose|k: int| 0 <= k < all.len() && all[k] == owned;
    let prefix = all.take(k);
    lemma_gone_before(all, k, release, owner.handle);
    assert(all.take(k + 1).drop_last() =~= prefix);
    assert(all.take(k + 1).last() == owned);
    lemma_push_contains(gone(prefix, release), owned.handle);
    lemma_gone_grows(all, k + 1, release, owned.handle);
    lemma_kept(all, release, owned);
}

/// What is released with a handle smaller than that of an entity is released before it is looked at.
proof fn lemma_gone_before(records: Seq<EntityRecord>, at: int, release: EntityRelease, handle: u64)
    requires
        0 <= at < records.len(),
        forall|i: int, j: int|
            0 <= i < j < records.len() ==> (#[trigger] records[i]).handle < (
            #[trigger] records[j]).handle,
        handle < records[at].handle,
        gone(records, release).contains(handle),
    ensures
        gone(records.take(at), release).contains(handle),
    decreases records.len() - at,
{
    let front = records.drop_last();
    lemma_push_contains(gone(front, release), records.last().handle);
    assert(gone(front, release).contains(handle)) by {
        assert(records[at].handle <= records[records.len() - 1].handle);
    }
    if at == records.len() - 1 {
        assert(records.take(at) =~= front);
    } else {
        assert forall|i: int, j: int| 0 <= i < j < front.len() implies (#[trigger] front[i]).handle
            < (#[trigger] front[j]).handle by {
            assert(front[i] == records[i] && front[j] == records[j]);
        }
        lemma_gone_before(front, at, release, handle);
        assert(front.take(at) =~= records.take(at));
    }
}

/// Releasing a view leaves alone whatever is neither the view nor owned by something released.
pub proof fn law_a_release_touches_nothing_else(
    m: EntitiesModel,
    release: EntityRelease,
    record: EntityRecord,
)
    requires
        orderly(m),
        m.records.contains(record),
        !named_by(release, record),
        match record.owner {
            Some(owner) => !gone(m.records, release).contains(owner),
            None => true,
        },
    ensures
        released(m, release).records.contains(record),
{
    let all = m.records;
    let k = choose|k: int| 0 <= k < all.len() && all[k] == record;
    if gone(all, release).contains(record.handle) {
        lemma_gone_at(all, k, release);
        if let Some(owner) = record.owner {
            lemma_gone_grows(all, k, release, owner);
        }
    }
    lemma_kept(all, release, record);
}

/// An entity that is released was so when it was looked at.
proof fn lemma_gone_at(records: Seq<EntityRecord>, at: int, release: EntityRelease)
    requires
        0 <= at < records.len(),
        forall|i: int, j: int|
            0 <= i < j < records.len() ==> (#[trigger] records[i]).handle < (
            #[trigger] records[j]).handle,
        gone(records, release).contains(records[at].handle),
    ensures
        goes(release, gone(records.take(at), release), records[at]),
    decreases records.len() - at,
{
    let front = records.drop_last();
    lemma_push_contains(gone(front, release), records.last().handle);
    assert forall|i: int, j: int| 0 <= i < j < front.len() implies (#[trigger] front[i]).handle < (
    #[trigger] front[j]).handle by {
        assert(front[i] == records[i] && front[j] == records[j]);
    }
    if at == records.len() - 1 {
        assert(records.take(at) =~= front);
        if !goes(release, gone(front, release), records[at]) {
            lemma_kept(front, release, records[at]);
            let i = choose|i: int|
                0 <= i < front.len() && (#[trigger] front[i]).handle == records[at].handle;
            assert(records[i].handle < records[at].handle);
        }
    } else {
        assert(records[at].handle < records[records.len() - 1].handle);
        assert(front[at] == records[at]);
        lemma_gone_at(front, at, release);
        assert(front.take(at) =~= records.take(at));
    }
}

proof fn lemma_none_since(records: Seq<EntityRecord>, checkpoint: u64)
    requires
        forall|i: int| 0 <= i < records.len() ==> (#[trigger] records[i]).handle < checkpoint,
    ensures
        kept(records, EntityRelease::Since(checkpoint)) == records,
        gone(records, EntityRelease::Since(checkpoint)) == Seq::<u64>::empty(),
    decreases records.len(),
{
    if records.len() > 0 {
        let front = records.drop_last();
        assert forall|i: int| 0 <= i < front.len() implies (#[trigger] front[i]).handle
            < checkpoint by {
            assert(front[i] == records[i]);
        }
        lemma_none_since(front, checkpoint);
        assert(records[records.len() - 1].handle < checkpoint);
        assert(records =~= front.push(records.last()));
    } else {
        assert(kept(records, EntityRelease::Since(checkpoint)) =~= records);
        assert(gone(records, EntityRelease::Since(checkpoint)) =~= Seq::empty());
    }
}

/// Going back to a checkpoint releases every entity made since, and no other.
pub proof fn law_entities_go_back_to_a_checkpoint(m: EntitiesModel, later: Seq<EntityRecord>)
    requires
        orderly(m),
        forall|i: int| 0 <= i < later.len() ==> (#[trigger] later[i]).handle >= m.next,
    ensures
        kept(m.records + later, EntityRelease::Since(m.next)) == m.records,
    decreases later.len(),
{
    if later.len() == 0 {
        assert(m.records + later =~= m.records);
        lemma_none_since(m.records, m.next);
    } else {
        let all = m.records + later;
        assert(all.drop_last() =~= m.records + later.drop_last());
        assert(all.last() == later[later.len() - 1]);
        assert forall|i: int| 0 <= i < later.drop_last().len() implies (
        #[trigger] later.drop_last()[i]).handle >= m.next by {
            assert(later.drop_last()[i] == later[i]);
        }
        law_entities_go_back_to_a_checkpoint(m, later.drop_last());
    }
}

/// What is released in its own right is released.
pub proof fn lemma_named_goes(m: EntitiesModel, release: EntityRelease, record: EntityRecord)
    requires
        orderly(m),
        m.records.contains(record),
        named_by(release, record),
    ensures
        gone(m.records, release).contains(record.handle),
{
    let k = choose|k: int| 0 <= k < m.records.len() && m.records[k] == record;
    let next = m.records.take(k + 1);
    assert(next.drop_last() =~= m.records.take(k));
    assert(next.last() == record);
    lemma_push_contains(gone(m.records.take(k), release), record.handle);
    lemma_gone_grows(m.records, k + 1, release, record.handle);
}

/// Going back to a checkpoint after an entity made since was released releases the rest of what was
/// made since, and no other.
pub proof fn lemma_since_after(m: EntitiesModel, later: Seq<EntityRecord>, first: EntityRelease)
    requires
        orderly(m),
        forall|i: int| 0 <= i < later.len() ==> (#[trigger] later[i]).handle >= m.next,
        match first {
            EntityRelease::Handle(handle) => handle >= m.next,
            _ => false,
        },
    ensures
        kept(kept(m.records + later, first), EntityRelease::Since(m.next)) == m.records,
        forall|i: int|
            0 <= i < gone(m.records + later, first).len() ==> #[trigger] gone(
                m.records + later,
                first,
            )[i] >= m.next,
    decreases later.len(),
{
    let release = EntityRelease::Since(m.next);
    let all = m.records + later;
    if later.len() == 0 {
        assert(all =~= m.records);
        lemma_nothing_goes(m.records, m.next, first);
        lemma_none_since(m.records, m.next);
    } else {
        let front = m.records + later.drop_last();
        let last = later.last();
        assert(all.drop_last() =~= front);
        assert(all.last() == last);
        assert(last == later[later.len() - 1]);
        assert forall|i: int| 0 <= i < later.drop_last().len() implies (
        #[trigger] later.drop_last()[i]).handle >= m.next by {
            assert(later.drop_last()[i] == later[i]);
        }
        lemma_since_after(m, later.drop_last(), first);
        if !goes(first, gone(front, first), last) {
            let before = kept(front, first);
            let after = before.push(last);
            assert(after.drop_last() =~= before);
            assert(after.last() == last);
        }
    }
}

proof fn lemma_nothing_goes(records: Seq<EntityRecord>, next: u64, first: EntityRelease)
    requires
        forall|i: int| 0 <= i < records.len() ==> (#[trigger] records[i]).handle < next,
        match first {
            EntityRelease::Handle(handle) => handle >= next,
            _ => false,
        },
    ensures
        kept(records, first) == records,
        gone(records, first) == Seq::<u64>::empty(),
    decreases records.len(),
{
    if records.len() > 0 {
        let front = records.drop_last();
        assert forall|i: int| 0 <= i < front.len() implies (#[trigger] front[i]).handle < next by {
            assert(front[i] == records[i]);
        }
        lemma_nothing_goes(front, next, first);
        assert(records[records.len() - 1].handle < next);
        assert(records =~= front.push(records.last()));
    } else {
        assert(kept(records, first) =~= records);
        assert(gone(records, first) =~= Seq::empty());
    }
}

proof fn lemma_view_is_there(records: Seq<EntityRecord>, handle: u64)
    requires
        view_of(records, handle) is Some,
    ensures
        exists|i: int| 0 <= i < records.len() && (#[trigger] records[i]).handle == handle,
    decreases records.len(),
{
    if records.last().handle == handle {
        assert(records[records.len() - 1].handle == handle);
    } else {
        lemma_view_is_there(records.drop_last(), handle);
        let front = records.drop_last();
        let i = choose|i: int| 0 <= i < front.len() && (#[trigger] front[i]).handle == handle;
        assert(records[i].handle == handle);
    }
}

/// A handle is good in one store only: no other resolves it.
pub proof fn law_a_handle_names_one_store(a: EntitiesModel, b: EntitiesModel, handle: u64)
    requires
        orderly(a),
        orderly(b),
        a.store != b.store,
        view_of(a.records, handle) is Some,
    ensures
        view_of(b.records, handle) is None,
{
    lemma_view_is_there(a.records, handle);
    let i = choose|i: int| 0 <= i < a.records.len() && (#[trigger] a.records[i]).handle == handle;
    assert(first_handle(a.store) <= a.records[i].handle < a.next);
    if view_of(b.records, handle) is Some {
        lemma_view_is_there(b.records, handle);
        let j = choose|j: int|
            0 <= j < b.records.len() && (#[trigger] b.records[j]).handle == handle;
        assert(first_handle(b.store) <= b.records[j].handle < b.next);
    }
}

/// A release takes what it names, at once and with certainty, and nothing that it does not name and
/// that nothing owns: the entity of a handle, the entities of an application, those made from a
/// checkpoint on.
pub proof fn law_a_release_takes_what_it_names(
    m: EntitiesModel,
    record: EntityRecord,
    handle: u64,
    application: u64,
    checkpoint: u64,
)
    requires
        orderly(m),
        m.records.contains(record),
    ensures
        record.handle == handle ==> !released(m, EntityRelease::Handle(handle)).records.contains(
            record,
        ) && gone(m.records, EntityRelease::Handle(handle)).contains(handle),
        record.application == Some(application) ==> !released(
            m,
            EntityRelease::Application(application),
        ).records.contains(record) && gone(
            m.records,
            EntityRelease::Application(application),
        ).contains(record.handle),
        record.handle >= checkpoint ==> !released(
            m,
            EntityRelease::Since(checkpoint),
        ).records.contains(record) && gone(m.records, EntityRelease::Since(checkpoint)).contains(
            record.handle,
        ),
        record.owner is None && record.handle != handle ==> released(
            m,
            EntityRelease::Handle(handle),
        ).records.contains(record),
        record.owner is None && record.application != Some(application) ==> released(
            m,
            EntityRelease::Application(application),
        ).records.contains(record),
        record.owner is None && record.handle < checkpoint ==> released(
            m,
            EntityRelease::Since(checkpoint),
        ).records.contains(record),
{
    let by_handle = EntityRelease::Handle(handle);
    let by_application = EntityRelease::Application(application);
    let by_time = EntityRelease::Since(checkpoint);
    if record.handle == handle {
        lemma_named_goes(m, by_handle, record);
        lemma_kept(m.records, by_handle, record);
    } else if record.owner is None {
        law_a_release_touches_nothing_else(m, by_handle, record);
    }
    if record.application == Some(application) {
        lemma_named_goes(m, by_application, record);
        lemma_kept(m.records, by_application, record);
    } else if record.owner is None {
        law_a_release_touches_nothing_else(m, by_application, record);
    }
    if record.handle >= checkpoint {
        lemma_named_goes(m, by_time, record);
        lemma_kept(m.records, by_time, record);
    } else if record.owner is None {
        law_a_release_touches_nothing_else(m, by_time, record);
    }
}

/// The views that a release takes are those of the entities it takes, and no others.
pub proof fn law_released_entities_give_up_their_views(
    m: EntitiesModel,
    release: EntityRelease,
    view: u64,
)
    requires
        orderly(m),
    ensures
        gone_views(m.records, release).contains(view) <==> exists|i: int|
            0 <= i < m.records.len() && (#[trigger] m.records[i]).view == Some(view) && gone(
                m.records,
                release,
            ).contains(m.records[i].handle),
{
    lemma_gone_views(m.records, release, view);
    let all = m.records;
    if exists|i: int|
        0 <= i < all.len() && (#[trigger] all[i]).view == Some(view) && goes(
            release,
            gone(all.take(i), release),
            all[i],
        ) {
        let i = choose|i: int|
            0 <= i < all.len() && (#[trigger] all[i]).view == Some(view) && goes(
                release,
                gone(all.take(i), release),
                all[i],
            );
        let next = all.take(i + 1);
        assert(next.drop_last() =~= all.take(i));
        assert(next.last() == all[i]);
        lemma_push_contains(gone(all.take(i), release), all[i].handle);
        lemma_gone_grows(all, i + 1, release, all[i].handle);
    }
    if exists|i: int|
        0 <= i < all.len() && (#[trigger] all[i]).view == Some(view) && gone(
            all,
            release,
        ).contains(all[i].handle) {
        let i = choose|i: int|
            0 <= i < all.len() && (#[trigger] all[i]).view == Some(view) && gone(
                all,
                release,
            ).contains(all[i].handle);
        lemma_gone_at(all, i, release);
    }
}

proof fn lemma_gone_views(records: Seq<EntityRecord>, release: EntityRelease, view: u64)
    ensures
        gone_views(records, release).contains(view) <==> exists|i: int|
            0 <= i < records.len() && (#[trigger] records[i]).view == Some(view) && goes(
                release,
                gone(records.take(i), release),
                records[i],
            ),
    decreases records.len(),
{
    if records.len() > 0 {
        let front = records.drop_last();
        let last = records.len() - 1;
        lemma_gone_views(front, release, view);
        assert(records.take(last) =~= front);
        assert forall|i: int| 0 <= i < front.len() implies front[i] == #[trigger] records[i]
            && front.take(i) == records.take(i) by {
            assert(front.take(i) =~= records.take(i));
        }
        let before = gone_views(front, release);
        lemma_push_contains(before, view);
        if gone_views(records, release).contains(view) {
            if before.contains(view) {
                let i = choose|i: int|
                    0 <= i < front.len() && (#[trigger] front[i]).view == Some(view) && goes(
                        release,
                        gone(front.take(i), release),
                        front[i],
                    );
                assert(records[i] == front[i]);
            } else {
                match records.last().view {
                    Some(own) => {
                        lemma_push_contains(before, own);
                    },
                    None => {},
                }
                assert(records[last].view == Some(view));
            }
        }
        if exists|i: int|
            0 <= i < records.len() && (#[trigger] records[i]).view == Some(view) && goes(
                release,
                gone(records.take(i), release),
                records[i],
            ) {
            let i = choose|i: int|
                0 <= i < records.len() && (#[trigger] records[i]).view == Some(view) && goes(
                    release,
                    gone(records.take(i), release),
                    records[i],
                );
            if i < front.len() {
                assert(front[i] == records[i]);
                assert(before.contains(view));
                match records.last().view {
                    Some(own) => {
                        lemma_push_contains(before, own);
                    },
                    None => {},
                }
            }
        }
    }
}

/// The view behind a handle is the one that is retained under it, and nothing is behind a handle
/// that is not given out.
pub proof fn law_a_handle_leads_to_its_view(m: EntitiesModel, handle: u64)
    requires
        orderly(m),
    ensures
        forall|i: int|
            0 <= i < m.records.len() && (#[trigger] m.records[i]).handle == handle ==> view_of(
                m.records,
                handle,
            ) == m.records[i].view,
        (forall|i: int| 0 <= i < m.records.len() ==> (#[trigger] m.records[i]).handle != handle)
            ==> view_of(m.records, handle) is None,
{
    lemma_view_of(m.records, handle);
}

proof fn lemma_view_of(records: Seq<EntityRecord>, handle: u64)
    requires
        forall|i: int, j: int|
            0 <= i < j < records.len() ==> (#[trigger] records[i]).handle < (
            #[trigger] records[j]).handle,
    ensures
        forall|i: int|
            0 <= i < records.len() && (#[trigger] records[i]).handle == handle ==> view_of(
                records,
                handle,
            ) == records[i].view,
        (forall|i: int| 0 <= i < records.len() ==> (#[trigger] records[i]).handle != handle)
            ==> view_of(records, handle) is None,
    decreases records.len(),
{
    if records.len() > 0 {
        let front = records.drop_last();
        let last = records.len() - 1;
        assert forall|i: int| 0 <= i < front.len() implies front[i] == #[trigger] records[i] by {}
        assert forall|i: int, j: int| 0 <= i < j < front.len() implies (#[trigger] front[i]).handle
            < (#[trigger] front[j]).handle by {
            assert(records[i].handle < records[j].handle);
        }
        lemma_view_of(front, handle);
        assert forall|i: int| 0 <= i < records.len() && (#[trigger] records[i]).handle
            == handle implies view_of(records, handle) == records[i].view by {
            if i < last {
                assert(records[i].handle < records[last].handle);
                assert(front[i].handle == handle);
            }
        }
        if forall|i: int| 0 <= i < records.len() ==> (#[trigger] records[i]).handle != handle {
            assert(records[last].handle != handle);
            assert forall|i: int| 0 <= i < front.len() implies (#[trigger] front[i]).handle
                != handle by {
                assert(records[i].handle != handle);
            }
        }
    }
}

/// The handle of a view is one under which it is retained, the latest; a view that is not retained
/// has none.
pub proof fn law_a_view_leads_to_its_handle(records: Seq<EntityRecord>, view: u64)
    ensures
        match handle_of(records, view) {
            Some(handle) => exists|i: int|
                0 <= i < records.len() && (#[trigger] records[i]).view == Some(view)
                    && records[i].handle == handle && forall|j: int|
                    i < j < records.len() ==> (#[trigger] records[j]).view != Some(view),
            None => forall|i: int|
                0 <= i < records.len() ==> (#[trigger] records[i]).view != Some(view),
        },
    decreases records.len(),
{
    if records.len() > 0 {
        let front = records.drop_last();
        let last = records.len() - 1;
        law_a_view_leads_to_its_handle(front, view);
        assert forall|i: int| 0 <= i < front.len() implies front[i] == #[trigger] records[i] by {}
        if records[last].view != Some(view) {
            match handle_of(front, view) {
                Some(handle) => {
                    let i = choose|i: int|
                        0 <= i < front.len() && (#[trigger] front[i]).view == Some(view)
                            && front[i].handle == handle && forall|j: int|
                            i < j < front.len() ==> (#[trigger] front[j]).view != Some(view);
                    assert(records[i].view == Some(view));
                    assert forall|j: int| i < j < records.len() implies (
                    #[trigger] records[j]).view != Some(view) by {
                        if j < last {
                            assert(front[j].view != Some(view));
                        }
                    }
                },
                None => {
                    assert forall|i: int| 0 <= i < records.len() implies (
                    #[trigger] records[i]).view != Some(view) by {
                        if i < last {
                            assert(front[i].view != Some(view));
                        }
                    }
                },
            }
        } else {
            assert(records[last].view == Some(view));
        }
    }
}

/// A store has room while it holds fewer entities than it may and a handle of its own is left.
pub proof fn law_a_store_has_handles_of_its_own(a: u32, b: u32, m: EntitiesModel)
    requires
        a < b,
    ensures
        first_handle(a) + 0x1_0000_0000 <= first_handle(b),
        has_room(m) <==> m.records.len() < m.limit && m.next - m.store * 0x1_0000_0000
            < 0xffff_ffff,
{
}

} // verus!
