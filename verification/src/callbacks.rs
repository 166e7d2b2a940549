//! The script functions that a description refers to, and how long each may be called.
//!
//! Functions are registered while a view describes itself. They can be called once the description
//! is complete, and no more once it is replaced; those of a description that failed never can.
use vstd::prelude::*;

verus! {

/// A registered function: the number under which the embedding application keeps it, the view and
/// application it was registered for, and the host call it was registered in.
#[derive(Clone, Copy, PartialEq, Eq, Structural, Debug)]
pub struct CallbackEntry {
    pub value: u64,
    pub view: Option<u64>,
    pub application: Option<u64>,
    pub registered_in: Option<u64>,
}

/// Whether a registered function can be called.
#[derive(Clone, Copy, PartialEq, Eq, Structural, Debug)]
pub enum Standing {
    /// Its description is being made.
    Staged,
    /// Its description is complete, and has this generation.
    Live(u64),
    /// It was registered while no description was being made: it never can.
    Orphan,
}

/// A registered function, by its number.
#[derive(Clone, Copy, PartialEq, Eq, Structural, Debug)]
pub struct Registered {
    pub id: u64,
    pub standing: Standing,
    pub entry: CallbackEntry,
}

/// All registered functions, the generation of the description being made, and the last generation
/// and number that were given out.
#[verifier::ext_equal]
pub struct CallbacksModel {
    pub entries: Seq<Registered>,
    pub open: Option<u64>,
    pub last_generation: u64,
    pub last_id: u64,
}

/// The registered functions of a runtime.
pub struct CallbackArena {
    entries: Vec<Registered>,
    open: Option<u64>,
    last_generation: u64,
    last_id: u64,
}

impl View for CallbackArena {
    type V = CallbacksModel;

    closed spec fn view(&self) -> CallbacksModel {
        CallbacksModel {
            entries: self.entries@,
            open: self.open,
            last_generation: self.last_generation,
            last_id: self.last_id,
        }
    }
}

/// Which functions stay registered.
#[derive(Clone, Copy, PartialEq, Eq, Structural, Debug)]
pub enum Keep {
    /// Those that are not staged.
    Settled,
    /// Those registered up to the one with this number.
    UpTo(u64),
    /// Those of other generations.
    OtherGenerations(u64),
    /// Those that do not belong to this view.
    OtherViews(u64),
}

/// Whether a function stays registered.
pub open spec fn keeps(keep: Keep, registered: Registered) -> bool {
    match keep {
        Keep::Settled => registered.standing != Standing::Staged,
        Keep::UpTo(id) => registered.id <= id,
        Keep::OtherGenerations(generation) => registered.standing != Standing::Live(generation),
        Keep::OtherViews(view) => registered.entry.view != Some(view),
    }
}

/// The functions that stay registered, in their order.
pub open spec fn kept(entries: Seq<Registered>, keep: Keep) -> Seq<Registered>
    decreases entries.len(),
{
    if entries.len() == 0 {
        Seq::empty()
    } else {
        let rest = kept(entries.drop_last(), keep);
        if keeps(keep, entries.last()) {
            rest.push(entries.last())
        } else {
            rest
        }
    }
}

/// The functions once the description being made is complete.
pub open spec fn published(entries: Seq<Registered>, generation: u64) -> Seq<Registered> {
    entries.map_values(
        |registered: Registered|
            if registered.standing == Standing::Staged {
                Registered { standing: Standing::Live(generation), ..registered }
            } else {
                registered
            },
    )
}

/// The function with a number, where it can be called.
pub open spec fn callable(entries: Seq<Registered>, id: u64) -> Option<CallbackEntry>
    decreases entries.len(),
{
    if entries.len() == 0 {
        None
    } else if entries.last().id == id {
        if entries.last().standing is Live {
            Some(entries.last().entry)
        } else {
            None
        }
    } else {
        callable(entries.drop_last(), id)
    }
}

/// Whether numbers were given out in order, none above the last one.
pub open spec fn in_order(m: CallbacksModel) -> bool {
    &&& forall|i: int, j: int|
        0 <= i < j < m.entries.len() ==> (#[trigger] m.entries[i]).id < (
        #[trigger] m.entries[j]).id
    &&& forall|i: int| 0 <= i < m.entries.len() ==> (#[trigger] m.entries[i]).id <= m.last_id
    &&& forall|i: int|
        0 <= i < m.entries.len() ==> ((#[trigger] m.entries[i]).standing == Standing::Staged
            ==> m.open is Some)
}

/// The state with one more function registered.
pub open spec fn registered(m: CallbacksModel, entry: CallbackEntry) -> CallbacksModel {
    let id = (m.last_id + 1) as u64;
    CallbacksModel {
        entries: m.entries.push(
            Registered {
                id,
                standing: if m.open is Some {
                    Standing::Staged
                } else {
                    Standing::Orphan
                },
                entry,
            },
        ),
        last_id: id,
        ..m
    }
}

/// The state with the description being made complete.
pub open spec fn committed(m: CallbacksModel) -> CallbacksModel {
    match m.open {
        Some(generation) => CallbacksModel {
            entries: published(m.entries, generation),
            open: None,
            ..m
        },
        None => m,
    }
}

/// The state with the description being made given up.
pub open spec fn aborted(m: CallbacksModel) -> CallbacksModel {
    CallbacksModel { entries: kept(m.entries, Keep::Settled), open: None, ..m }
}

impl CallbackArena {
    /// No functions.
    pub fn new() -> (r: Self)
        ensures
            r@ == (CallbacksModel {
                entries: Seq::empty(),
                open: None,
                last_generation: 0,
                last_id: 0,
            }),
            in_order(r@),
    {
        CallbackArena { entries: Vec::new(), open: None, last_generation: 0, last_id: 0 }
    }

    fn keep_only(&mut self, keep: Keep)
        ensures
            final(self)@ == (CallbacksModel {
                entries: kept(old(self)@.entries, keep),
                ..old(self)@
            }),
    {
        let mut out: Vec<Registered> = Vec::new();
        let mut i: usize = 0;
        let ghost all = self.entries@;
        assert(all.take(0) =~= Seq::empty());
        while i < self.entries.len()
            invariant
                i <= self.entries@.len(),
                all == self.entries@,
                out@ == kept(all.take(i as int), keep),
            decreases self.entries@.len() - i,
        {
            let candidate = self.entries[i];
            assert(all.take(i + 1).drop_last() =~= all.take(i as int));
            assert(all.take(i + 1).last() == candidate);
            let stays = match keep {
                Keep::Settled => candidate.standing != Standing::Staged,
                Keep::UpTo(id) => candidate.id <= id,
                Keep::OtherGenerations(generation) => candidate.standing != Standing::Live(
                    generation,
                ),
                Keep::OtherViews(view) => match candidate.entry.view {
                    Some(owner) => owner != view,
                    None => true,
                },
            };
            if stays {
                out.push(candidate);
            }
            i += 1;
        }
        assert(all.take(i as int) =~= all);
        self.entries = out;
    }

    /// Whether the generations have not run out.
    pub fn can_begin(&self) -> (r: bool)
        ensures
            r == (self@.last_generation < u64::MAX),
    {
        self.last_generation < u64::MAX
    }

    /// Begins a description, giving up one that was being made; gives its generation.
    pub fn begin(&mut self) -> (r: u64)
        requires
            old(self)@.last_generation < u64::MAX,
            in_order(old(self)@),
        ensures
            r == old(self)@.last_generation + 1,
            final(self)@ == (CallbacksModel {
                open: Some(r),
                last_generation: r,
                ..aborted(old(self)@)
            }),
            in_order(final(self)@),
    {
        proof {
            lemma_kept_in_order(self@, Keep::Settled);
        }
        self.keep_only(Keep::Settled);
        let generation: u64 = self.last_generation + 1;
        self.last_generation = generation;
        self.open = Some(generation);
        generation
    }

    /// Registers a function; gives its number.
    pub fn push(&mut self, entry: CallbackEntry) -> (r: u64)
        requires
            old(self)@.last_id < u64::MAX,
            in_order(old(self)@),
        ensures
            r == old(self)@.last_id + 1,
            final(self)@ == registered(old(self)@, entry),
            in_order(final(self)@),
    {
        let id: u64 = self.last_id + 1;
        self.last_id = id;
        let standing = match self.open {
            Some(_) => Standing::Staged,
            None => Standing::Orphan,
        };
        self.entries.push(Registered { id, standing, entry });
        proof {
            let before = old(self)@;
            let after = self@;
            assert(after.entries =~= registered(before, entry).entries);
            assert forall|i: int, j: int| 0 <= i < j < after.entries.len() implies (
            #[trigger] after.entries[i]).id < (#[trigger] after.entries[j]).id by {
                assert(after.entries[i] == before.entries[i]);
                if j < before.entries.len() {
                    assert(after.entries[j] == before.entries[j]);
                }
            }
            assert forall|i: int| 0 <= i < after.entries.len() implies (
            #[trigger] after.entries[i]).id <= after.last_id && (after.entries[i].standing
                == Standing::Staged ==> after.open is Some) by {
                if i < before.entries.len() {
                    assert(after.entries[i] == before.entries[i]);
                }
            }
        }
        id
    }

    /// The description being made is complete.
    pub fn commit(&mut self)
        requires
            in_order(old(self)@),
        ensures
            final(self)@ == committed(old(self)@),
            in_order(final(self)@),
    {
        let generation: u64 = match self.open {
            Some(generation) => generation,
            None => {
                return;
            },
        };
        let ghost all = self.entries@;
        let mut out: Vec<Registered> = Vec::new();
        let mut i: usize = 0;
        while i < self.entries.len()
            invariant
                i <= self.entries@.len(),
                all == self.entries@,
                out@.len() == i,
                forall|j: int| 0 <= j < i ==> #[trigger] out@[j] == published(all, generation)[j],
            decreases self.entries@.len() - i,
        {
            let candidate = self.entries[i];
            if candidate.standing == Standing::Staged {
                out.push(
                    Registered {
                        id: candidate.id,
                        standing: Standing::Live(generation),
                        entry: candidate.entry,
                    },
                );
            } else {
                out.push(candidate);
            }
            i += 1;
        }
        assert(out@ =~= published(all, generation));
        self.entries = out;
        self.open = None;
        proof {
            let before = old(self)@;
            let after = self@;
            assert forall|i: int, j: int| 0 <= i < j < after.entries.len() implies (
            #[trigger] after.entries[i]).id < (#[trigger] after.entries[j]).id by {
                assert(after.entries[i].id == before.entries[i].id);
                assert(after.entries[j].id == before.entries[j].id);
            }
            assert forall|i: int| 0 <= i < after.entries.len() implies (
            #[trigger] after.entries[i]).id <= after.last_id && after.entries[i].standing
                != Standing::Staged by {
                assert(after.entries[i].id == before.entries[i].id);
            }
        }
    }

    /// The description being made is given up.
    pub fn abort(&mut self)
        requires
            in_order(old(self)@),
        ensures
            final(self)@ == aborted(old(self)@),
            in_order(final(self)@),
    {
        proof {
            lemma_kept_in_order(self@, Keep::Settled);
        }
        self.keep_only(Keep::Settled);
        self.open = None;
    }

    /// The description being made starts over.
    pub fn rollback(&mut self)
        requires
            in_order(old(self)@),
        ensures
            final(self)@ == (CallbacksModel {
                entries: kept(old(self)@.entries, Keep::Settled),
                ..old(self)@
            }),
            in_order(final(self)@),
    {
        proof {
            lemma_kept_in_order(self@, Keep::Settled);
        }
        self.keep_only(Keep::Settled);
    }

    /// A point to go back to.
    pub fn checkpoint(&self) -> (r: u64)
        ensures
            r == self@.last_id,
    {
        self.last_id
    }

    /// Takes back what was registered since a checkpoint.
    pub fn rollback_to(&mut self, checkpoint: u64)
        requires
            in_order(old(self)@),
        ensures
            final(self)@ == (CallbacksModel {
                entries: kept(old(self)@.entries, Keep::UpTo(checkpoint)),
                ..old(self)@
            }),
            in_order(final(self)@),
    {
        proof {
            lemma_kept_in_order(self@, Keep::UpTo(checkpoint));
        }
        self.keep_only(Keep::UpTo(checkpoint));
    }

    /// A description is gone: its functions cannot be called any more.
    pub fn retire_callbacks(&mut self, generation: u64)
        requires
            in_order(old(self)@),
        ensures
            final(self)@ == (CallbacksModel {
                entries: kept(old(self)@.entries, Keep::OtherGenerations(generation)),
                ..old(self)@
            }),
            in_order(final(self)@),
    {
        proof {
            lemma_kept_in_order(self@, Keep::OtherGenerations(generation));
        }
        self.keep_only(Keep::OtherGenerations(generation));
    }

    /// A view is gone: its functions cannot be called any more, whatever description still
    /// refers to them.
    pub fn retire_view_callbacks(&mut self, view: u64)
        requires
            in_order(old(self)@),
        ensures
            final(self)@ == (CallbacksModel {
                entries: kept(old(self)@.entries, Keep::OtherViews(view)),
                ..old(self)@
            }),
            in_order(final(self)@),
    {
        proof {
            lemma_kept_in_order(self@, Keep::OtherViews(view));
        }
        self.keep_only(Keep::OtherViews(view));
    }

    /// The runtime is gone: no function is kept.
    pub fn clear(&mut self)
        ensures
            final(self)@ == (CallbacksModel { entries: Seq::empty(), open: None, ..old(self)@ }),
            in_order(final(self)@),
    {
        self.entries = Vec::new();
        self.open = None;
    }

    /// The function with a number, where it can be called.
    pub fn get(&self, id: u64) -> (r: Option<CallbackEntry>)
        ensures
            r == callable(self@.entries, id),
    {
        let mut i: usize = self.entries.len();
        let ghost all = self.entries@;
        assert(all.take(i as int) =~= all);
        while i > 0
            invariant
                i <= all.len(),
                all == self.entries@,
                callable(all, id) == callable(all.take(i as int), id),
            decreases i,
        {
            assert(all.take(i as int).drop_last() =~= all.take(i - 1));
            assert(all.take(i as int).last() == all[i - 1]);
            i -= 1;
            let candidate = self.entries[i];
            if candidate.id == id {
                return match candidate.standing {
                    Standing::Live(_) => Some(candidate.entry),
                    _ => None,
                };
            }
        }
        None
    }

    /// How many functions are registered.
    pub fn live_callbacks(&self) -> (r: usize)
        ensures
            r == self@.entries.len(),
    {
        self.entries.len()
    }
}

proof fn lemma_kept_members(entries: Seq<Registered>, keep: Keep, registered: Registered)
    ensures
        kept(entries, keep).contains(registered) <==> entries.contains(registered) && keeps(
            keep,
            registered,
        ),
    decreases entries.len(),
{
    if entries.len() > 0 {
        let rest = entries.drop_last();
        let last = entries.last();
        lemma_kept_members(rest, keep, registered);
        let out = kept(entries, keep);
        if out.contains(registered) {
            let i = choose|i: int| 0 <= i < out.len() && out[i] == registered;
            if keeps(keep, last) && i == kept(rest, keep).len() {
                assert(entries[entries.len() - 1] == registered);
            } else {
                assert(kept(rest, keep)[i] == registered);
                let j = choose|j: int| 0 <= j < rest.len() && rest[j] == registered;
                assert(entries[j] == registered);
            }
        }
        if entries.contains(registered) && keeps(keep, registered) {
            let j = choose|j: int| 0 <= j < entries.len() && entries[j] == registered;
            if j < rest.len() {
                assert(rest[j] == registered);
                let i = choose|i: int|
                    0 <= i < kept(rest, keep).len() && kept(rest, keep)[i] == registered;
                assert(out[i] == registered);
            } else {
                assert(out[kept(rest, keep).len() as int] == registered);
            }
        }
    }
}

proof fn lemma_kept_sorted(entries: Seq<Registered>, keep: Keep)
    requires
        forall|i: int, j: int|
            0 <= i < j < entries.len() ==> (#[trigger] entries[i]).id < (#[trigger] entries[j]).id,
    ensures
        forall|i: int, j: int|
            0 <= i < j < kept(entries, keep).len() ==> (#[trigger] kept(entries, keep)[i]).id < (
            #[trigger] kept(entries, keep)[j]).id,
    decreases entries.len(),
{
    if entries.len() > 0 {
        let rest = entries.drop_last();
        lemma_kept_sorted(rest, keep);
        let out = kept(entries, keep);
        assert forall|i: int, j: int| 0 <= i < j < out.len() implies (#[trigger] out[i]).id < (
        #[trigger] out[j]).id by {
            if j < kept(rest, keep).len() {
                assert(out[i] == kept(rest, keep)[i]);
                assert(out[j] == kept(rest, keep)[j]);
            } else {
                assert(out[i] == kept(rest, keep)[i]);
                lemma_kept_members(rest, keep, out[i]);
                assert(kept(rest, keep).contains(out[i]));
                let k = choose|k: int| 0 <= k < rest.len() && rest[k] == out[i];
                assert(entries[k].id < entries[entries.len() - 1].id);
            }
        }
    }
}

/// What stays is in order.
pub proof fn lemma_kept_in_order(m: CallbacksModel, keep: Keep)
    requires
        in_order(m),
    ensures
        in_order(CallbacksModel { entries: kept(m.entries, keep), ..m }),
        keep == Keep::Settled ==> in_order(
            CallbacksModel { entries: kept(m.entries, keep), open: None, ..m },
        ),
{
    lemma_kept_sorted(m.entries, keep);
    let out = kept(m.entries, keep);
    assert forall|i: int| 0 <= i < out.len() implies m.entries.contains(#[trigger] out[i])
        && keeps(keep, out[i]) by {
        lemma_kept_members(m.entries, keep, out[i]);
        assert(out.contains(out[i]));
    }
    assert forall|i: int| 0 <= i < out.len() implies (#[trigger] out[i]).id <= m.last_id && (
    out[i].standing == Standing::Staged ==> m.open is Some) by {
        assert(m.entries.contains(out[i]));
        let k = choose|k: int| 0 <= k < m.entries.len() && m.entries[k] == out[i];
        assert(m.entries[k].id <= m.last_id);
    }
    if keep == Keep::Settled {
        assert forall|i: int| 0 <= i < out.len() implies (#[trigger] out[i]).standing
            != Standing::Staged by {
            assert(keeps(keep, out[i]));
        }
    }
}

proof fn lemma_callable(entries: Seq<Registered>, id: u64, at: int)
    requires
        0 <= at < entries.len(),
        entries[at].id == id,
        forall|i: int, j: int|
            0 <= i < j < entries.len() ==> (#[trigger] entries[i]).id < (#[trigger] entries[j]).id,
    ensures
        callable(entries, id) == if entries[at].standing is Live {
            Some(entries[at].entry)
        } else {
            None
        },
    decreases entries.len(),
{
    if at < entries.len() - 1 {
        assert(entries[at].id < entries[entries.len() - 1].id);
        lemma_callable(entries.drop_last(), id, at);
    }
}

proof fn lemma_not_callable(entries: Seq<Registered>, id: u64)
    requires
        forall|i: int| 0 <= i < entries.len() ==> (#[trigger] entries[i]).id != id,
    ensures
        callable(entries, id) is None,
    decreases entries.len(),
{
    if entries.len() > 0 {
        assert(entries[entries.len() - 1].id != id);
        lemma_not_callable(entries.drop_last(), id);
    }
}

/// A function that is registered while no description is being made can never be called.
pub proof fn law_orphans_are_never_called(m: CallbacksModel, entry: CallbackEntry)
    requires
        in_order(m),
        m.open is None,
        m.last_id < u64::MAX,
    ensures
        callable(registered(m, entry).entries, (m.last_id + 1) as u64) is None,
        callable(committed(registered(m, entry)).entries, (m.last_id + 1) as u64) is None,
{
}

/// A function can be called exactly once its description is complete, and not before.
pub proof fn law_functions_are_callable_once_published(m: CallbacksModel, entry: CallbackEntry)
    requires
        in_order(m),
        m.open is Some,
        m.last_id < u64::MAX,
    ensures
        callable(registered(m, entry).entries, (m.last_id + 1) as u64) is None,
        callable(committed(registered(m, entry)).entries, (m.last_id + 1) as u64) == Some(entry),
{
    let after = committed(registered(m, entry)).entries;
    assert(after.last().id == m.last_id + 1);
}

/// Once a description is replaced, none of its functions can be called.
pub proof fn law_retired_generation_is_never_called(m: CallbacksModel, generation: u64, id: u64)
    requires
        in_order(m),
    ensures
        ({
            let after = kept(m.entries, Keep::OtherGenerations(generation));
            forall|i: int|
                0 <= i < m.entries.len() && (#[trigger] m.entries[i]).id == id
                    && m.entries[i].standing == Standing::Live(generation) ==> callable(after, id)
                    is None
        }),
{
    let keep = Keep::OtherGenerations(generation);
    let after = kept(m.entries, keep);
    assert forall|i: int|
        0 <= i < m.entries.len() && (#[trigger] m.entries[i]).id == id && m.entries[i].standing
            == Standing::Live(generation) implies callable(after, id) is None by {
        lemma_gone(m, keep, i);
    }
}

/// Once a view is released, none of its functions can be called, even where a description that
/// refers to them is still shown.
pub proof fn law_released_view_is_never_called(m: CallbacksModel, view: u64, id: u64)
    requires
        in_order(m),
    ensures
        callable(kept(m.entries, Keep::OtherViews(view)), id) matches Some(entry) ==> entry.view
            != Some(view),
{
    let keep = Keep::OtherViews(view);
    let after = kept(m.entries, keep);
    if exists|i: int| 0 <= i < after.len() && (#[trigger] after[i]).id == id {
        let i = choose|i: int| 0 <= i < after.len() && (#[trigger] after[i]).id == id;
        lemma_kept_sorted(m.entries, keep);
        lemma_callable(after, id, i);
        lemma_kept_members(m.entries, keep, after[i]);
        assert(after.contains(after[i]));
    } else {
        lemma_not_callable(after, id);
    }
}

/// What can be called of what stays could be called before.
pub proof fn lemma_kept_callable(m: CallbacksModel, keep: Keep, id: u64)
    requires
        in_order(m),
    ensures
        callable(kept(m.entries, keep), id) matches Some(entry) ==> callable(m.entries, id) == Some(
            entry,
        ),
{
    let after = kept(m.entries, keep);
    if exists|i: int| 0 <= i < after.len() && (#[trigger] after[i]).id == id {
        let i = choose|i: int| 0 <= i < after.len() && (#[trigger] after[i]).id == id;
        lemma_kept_sorted(m.entries, keep);
        lemma_callable(after, id, i);
        lemma_kept_members(m.entries, keep, after[i]);
        assert(after.contains(after[i]));
        let k = choose|k: int| 0 <= k < m.entries.len() && m.entries[k] == after[i];
        lemma_callable(m.entries, id, k);
    } else {
        lemma_not_callable(after, id);
    }
}

proof fn lemma_gone(m: CallbacksModel, keep: Keep, at: int)
    requires
        in_order(m),
        0 <= at < m.entries.len(),
        !keeps(keep, m.entries[at]),
    ensures
        callable(kept(m.entries, keep), m.entries[at].id) is None,
{
    let after = kept(m.entries, keep);
    assert forall|k: int| 0 <= k < after.len() implies (#[trigger] after[k]).id
        != m.entries[at].id by {
        lemma_kept_members(m.entries, keep, after[k]);
        assert(after.contains(after[k]));
        let j = choose|j: int| 0 <= j < m.entries.len() && m.entries[j] == after[k];
        if j < at {
            assert(m.entries[j].id < m.entries[at].id);
        } else if at < j {
            assert(m.entries[at].id < m.entries[j].id);
        }
    }
    lemma_not_callable(after, m.entries[at].id);
}

/// Going back to a checkpoint takes back exactly what was registered since.
pub proof fn law_rollback_undoes_registration(m: CallbacksModel, entry: CallbackEntry)
    requires
        in_order(m),
        m.last_id < u64::MAX,
    ensures
        kept(registered(m, entry).entries, Keep::UpTo(m.last_id)) == m.entries,
{
    let after = registered(m, entry).entries;
    assert(after.drop_last() =~= m.entries);
    lemma_keep_all(m.entries, m.last_id);
}

proof fn lemma_keep_all(entries: Seq<Registered>, last: u64)
    requires
        forall|i: int| 0 <= i < entries.len() ==> (#[trigger] entries[i]).id <= last,
    ensures
        kept(entries, Keep::UpTo(last)) == entries,
    decreases entries.len(),
{
    if entries.len() > 0 {
        assert(entries[entries.len() - 1].id <= last);
        lemma_keep_all(entries.drop_last(), last);
        assert(entries.drop_last().push(entries.last()) =~= entries);
    }
}

proof fn lemma_stays(m: CallbacksModel, keep: Keep, at: int)
    requires
        in_order(m),
        0 <= at < m.entries.len(),
        keeps(keep, m.entries[at]),
    ensures
        callable(kept(m.entries, keep), m.entries[at].id) == callable(
            m.entries,
            m.entries[at].id,
        ),
{
    let after = kept(m.entries, keep);
    lemma_kept_members(m.entries, keep, m.entries[at]);
    assert(m.entries.contains(m.entries[at]));
    let i = choose|i: int| 0 <= i < after.len() && after[i] == m.entries[at];
    lemma_kept_sorted(m.entries, keep);
    lemma_callable(after, m.entries[at].id, i);
    lemma_callable(m.entries, m.entries[at].id, at);
}

/// Retiring a description or a view leaves the functions of the others as they were: what could be
/// called still can, and is the same function of the same view and application.
pub proof fn law_retirement_spares_the_functions_of_others(
    m: CallbacksModel,
    at: int,
    generation: u64,
    view: u64,
)
    requires
        in_order(m),
        0 <= at < m.entries.len(),
    ensures
        m.entries[at].standing != Standing::Live(generation) ==> callable(
            kept(m.entries, Keep::OtherGenerations(generation)),
            m.entries[at].id,
        ) == callable(m.entries, m.entries[at].id),
        m.entries[at].entry.view != Some(view) ==> callable(
            kept(m.entries, Keep::OtherViews(view)),
            m.entries[at].id,
        ) == callable(m.entries, m.entries[at].id),
{
    if m.entries[at].standing != Standing::Live(generation) {
        lemma_stays(m, Keep::OtherGenerations(generation), at);
    }
    if m.entries[at].entry.view != Some(view) {
        lemma_stays(m, Keep::OtherViews(view), at);
    }
}

/// Giving up a description takes back what was registered for it, and nothing that could be
/// called; going back to a checkpoint takes back what has a later number, and nothing else.
pub proof fn law_giving_up_spares_what_can_be_called(m: CallbacksModel, at: int, checkpoint: u64)
    requires
        in_order(m),
        0 <= at < m.entries.len(),
    ensures
        callable(aborted(m).entries, m.entries[at].id) == callable(m.entries, m.entries[at].id),
        m.entries[at].standing == Standing::Staged ==> !aborted(m).entries.contains(
            m.entries[at],
        ),
        m.entries[at].id <= checkpoint ==> callable(
            kept(m.entries, Keep::UpTo(checkpoint)),
            m.entries[at].id,
        ) == callable(m.entries, m.entries[at].id),
        m.entries[at].id > checkpoint ==> callable(
            kept(m.entries, Keep::UpTo(checkpoint)),
            m.entries[at].id,
        ) is None,
{
    lemma_kept_members(m.entries, Keep::Settled, m.entries[at]);
    lemma_callable(m.entries, m.entries[at].id, at);
    if m.entries[at].standing == Standing::Staged {
        lemma_gone(m, Keep::Settled, at);
    } else {
        lemma_stays(m, Keep::Settled, at);
    }
    if m.entries[at].id <= checkpoint {
        lemma_stays(m, Keep::UpTo(checkpoint), at);
    } else {
        lemma_gone(m, Keep::UpTo(checkpoint), at);
    }
}

/// Completing a description makes each function that was registered for it callable as what it was
/// registered as, and changes nothing for those that were callable already.
pub proof fn law_completion_publishes_what_was_registered(m: CallbacksModel, at: int)
    requires
        in_order(m),
        0 <= at < m.entries.len(),
    ensures
        m.entries[at].standing == Standing::Staged ==> callable(
            committed(m).entries,
            m.entries[at].id,
        ) == Some(m.entries[at].entry),
        m.entries[at].standing != Standing::Staged ==> callable(
            committed(m).entries,
            m.entries[at].id,
        ) == callable(m.entries, m.entries[at].id),
        committed(m).entries.len() == m.entries.len(),
        committed(m).last_id == m.last_id,
{
    let after = committed(m).entries;
    assert(m.entries[at].standing == Standing::Staged ==> m.open is Some);
    assert forall|i: int, j: int| 0 <= i < j < after.len() implies (#[trigger] after[i]).id < (
    #[trigger] after[j]).id by {
        assert(m.entries[i].id < m.entries[j].id);
        assert(after[i].id == m.entries[i].id);
        assert(after[j].id == m.entries[j].id);
    }
    lemma_callable(after, m.entries[at].id, at);
    lemma_callable(m.entries, m.entries[at].id, at);
}

/// Registering a function changes nothing for those registered before, and gives out a number that
/// none of them has.
pub proof fn law_registering_spares_the_others(m: CallbacksModel, entry: CallbackEntry, id: u64)
    requires
        in_order(m),
        m.last_id < u64::MAX,
        id <= m.last_id,
    ensures
        callable(registered(m, entry).entries, id) == callable(m.entries, id),
        registered(m, entry).last_id > m.last_id,
        registered(m, entry).entries.len() == m.entries.len() + 1,
        registered(m, entry).open == m.open,
{
    assert(registered(m, entry).entries.drop_last() =~= m.entries);
}

/// What is kept is there.
pub proof fn lemma_kept_holds(entries: Seq<Registered>, keep: Keep, registered: Registered)
    requires
        entries.contains(registered),
        keeps(keep, registered),
    ensures
        kept(entries, keep).contains(registered),
{
    lemma_kept_members(entries, keep, registered);
}

} // verus!
