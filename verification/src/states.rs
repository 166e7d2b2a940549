//! State that components keep between renders, named by handles that scripts hold.
use crate::error::Fault;
use crate::scope::ScopePhase;
use crate::text;
use vstd::prelude::*;
use vstd::string::*;

verus! {

/// One retained state: the handle it goes by, its kind, the application that owns it and the
/// number under which the embedding application keeps it.
pub struct RetainedState<S> {
    pub handle: u64,
    pub kind: S,
    pub owner: Option<u64>,
    pub state: u64,
}

/// A retained state as a statement speaks of it.
pub open spec fn state_view(state: RetainedState<String>) -> RetainedState<Seq<char>> {
    RetainedState {
        handle: state.handle,
        kind: state.kind@,
        owner: state.owner,
        state: state.state,
    }
}

/// Retained states as a statement speaks of them.
pub open spec fn state_views(states: Seq<RetainedState<String>>) -> Seq<RetainedState<Seq<char>>> {
    states.map_values(|state: RetainedState<String>| state_view(state))
}

/// Who uses the states at present.
#[derive(Clone, Copy, PartialEq, Eq, Structural, Debug)]
pub enum Borrowed {
    No,
    /// So many readers.
    Shared(u32),
    Exclusive,
}

/// The retained states, how many there may be, who uses them, the applications whose states are
/// still to be released, and the last handle that was given out.
#[verifier::ext_equal]
pub struct StatesModel {
    pub states: Seq<RetainedState<Seq<char>>>,
    pub capacity: nat,
    pub borrowed: Borrowed,
    pub pending: Seq<u64>,
    pub last_handle: u64,
}

/// The retained states of a runtime.
pub struct RetainedStates {
    states: Vec<RetainedState<String>>,
    capacity: usize,
    borrowed: Borrowed,
    pending: Vec<u64>,
    last_handle: u64,
}

impl View for RetainedStates {
    type V = StatesModel;

    closed spec fn view(&self) -> StatesModel {
        StatesModel {
            states: state_views(self.states@),
            capacity: self.capacity as nat,
            borrowed: self.borrowed,
            pending: self.pending@,
            last_handle: self.last_handle,
        }
    }
}

/// Whether a state is owned by one of the given applications.
pub open spec fn owned_by(state: RetainedState<Seq<char>>, applications: Seq<u64>) -> bool {
    state.owner matches Some(owner) && applications.contains(owner)
}

/// The states that none of the given applications owns, in their order.
pub open spec fn kept(states: Seq<RetainedState<Seq<char>>>, applications: Seq<u64>) -> Seq<
    RetainedState<Seq<char>>,
>
    decreases states.len(),
{
    if states.len() == 0 {
        Seq::empty()
    } else {
        let rest = kept(states.drop_last(), applications);
        if owned_by(states.last(), applications) {
            rest
        } else {
            rest.push(states.last())
        }
    }
}

/// The states after what was put off is done, which it is unless someone uses them.
pub open spec fn flushed(m: StatesModel) -> StatesModel {
    if m.borrowed == Borrowed::No {
        StatesModel { states: kept(m.states, m.pending), pending: Seq::empty(), ..m }
    } else {
        m
    }
}

/// The state that a handle names.
pub open spec fn lookup(states: Seq<RetainedState<Seq<char>>>, handle: u64) -> Option<
    RetainedState<Seq<char>>,
>
    decreases states.len(),
{
    if states.len() == 0 {
        None
    } else if states[0].handle == handle {
        Some(states[0])
    } else {
        lookup(states.skip(1), handle)
    }
}

/// The state behind a handle that is to be of a kind.
pub open spec fn checked(
    states: Seq<RetainedState<Seq<char>>>,
    handle: u64,
    kind: Seq<char>,
) -> Result<u64, Fault> {
    match lookup(states, handle) {
        None => Err(Fault::StateMissing),
        Some(found) => if found.kind == kind {
            Ok(found.state)
        } else {
            Err(Fault::StateKind)
        },
    }
}

/// What beginning to read a state does and answers.
pub open spec fn read_begun(m: StatesModel, handle: u64, kind: Seq<char>) -> (
    StatesModel,
    Result<u64, Fault>,
) {
    let ready = flushed(m);
    if ready.borrowed == Borrowed::Exclusive || ready.borrowed == Borrowed::Shared(u32::MAX) {
        (ready, Err(Fault::StateMutablyBorrowed))
    } else {
        match checked(ready.states, handle, kind) {
            Err(fault) => (ready, Err(fault)),
            Ok(state) => (
                StatesModel {
                    borrowed: match ready.borrowed {
                        Borrowed::Shared(readers) => Borrowed::Shared((readers + 1) as u32),
                        _ => Borrowed::Shared(1),
                    },
                    ..ready
                },
                Ok(state),
            ),
        }
    }
}

/// What beginning to change a state does and answers.
pub open spec fn update_begun(
    m: StatesModel,
    phase: Option<ScopePhase>,
    handle: u64,
    kind: Seq<char>,
) -> (StatesModel, Result<u64, Fault>) {
    if phase == Some(ScopePhase::Render) || phase == Some(ScopePhase::Layout) {
        (m, Err(Fault::StatePhase))
    } else {
        let ready = flushed(m);
        if ready.borrowed != Borrowed::No {
            (ready, Err(Fault::StateBorrowed))
        } else {
            match checked(ready.states, handle, kind) {
                Err(fault) => (ready, Err(fault)),
                Ok(state) => (
                    StatesModel { borrowed: Borrowed::Exclusive, ..ready },
                    Ok(state),
                ),
            }
        }
    }
}

/// Who uses the states once one of their users is done.
pub open spec fn returned(borrowed: Borrowed) -> Borrowed {
    match borrowed {
        Borrowed::Shared(readers) => if readers > 1 {
            Borrowed::Shared((readers - 1) as u32)
        } else {
            Borrowed::No
        },
        _ => Borrowed::No,
    }
}

/// The states after an application's are released, now or as soon as nobody uses them.
pub open spec fn released(m: StatesModel, application: u64) -> StatesModel {
    flushed(StatesModel { pending: m.pending.push(application), ..m })
}

/// What adding a state does and answers.
pub open spec fn inserted(m: StatesModel, kind: Seq<char>, owner: Option<u64>, state: u64) -> (
    StatesModel,
    Result<u64, Fault>,
) {
    if m.borrowed != Borrowed::No {
        (m, Err(Fault::StateBorrowed))
    } else if m.states.len() >= m.capacity || m.last_handle == u64::MAX {
        (m, Err(Fault::StateCapacity))
    } else {
        let handle = (m.last_handle + 1) as u64;
        (
            StatesModel {
                states: m.states.push(RetainedState { handle, kind, owner, state }),
                last_handle: handle,
                ..m
            },
            Ok(handle),
        )
    }
}

fn lists(applications: &Vec<u64>, owner: u64) -> (r: bool)
    ensures
        r == applications@.contains(owner),
{
    let mut i: usize = 0;
    while i < applications.len()
        invariant
            i <= applications@.len(),
            forall|j: int| 0 <= j < i ==> applications@[j] != owner,
        decreases applications@.len() - i,
    {
        if applications[i] == owner {
            assert(applications@[i as int] == owner);
            return true;
        }
        i += 1;
    }
    false
}

proof fn lemma_lookup_skips(states: Seq<RetainedState<Seq<char>>>, handle: u64, upto: int)
    requires
        0 <= upto <= states.len(),
        forall|i: int| 0 <= i < upto ==> (#[trigger] states[i]).handle != handle,
    ensures
        lookup(states, handle) == lookup(states.skip(upto), handle),
    decreases upto,
{
    if upto == 0 {
        assert(states.skip(0) =~= states);
    } else {
        let rest = states.skip(1);
        assert forall|i: int| 0 <= i < upto - 1 implies (#[trigger] rest[i]).handle != handle by {
            assert(rest[i] == states[i + 1]);
        }
        lemma_lookup_skips(rest, handle, upto - 1);
        assert(rest.skip(upto - 1) =~= states.skip(upto));
    }
}

impl RetainedStates {
    /// No states, and room for `capacity` of them.
    pub fn new(capacity: usize) -> (r: Self)
        ensures
            r@ == (StatesModel {
                states: Seq::empty(),
                capacity: capacity as nat,
                borrowed: Borrowed::No,
                pending: Seq::empty(),
                last_handle: 0,
            }),
    {
        let states = RetainedStates {
            states: Vec::new(),
            capacity,
            borrowed: Borrowed::No,
            pending: Vec::new(),
            last_handle: 0,
        };
        assert(states@.states =~= Seq::empty());
        states
    }

    /// How many states there are, as far as they can be looked at: none while one is being changed.
    pub fn retained_component_state_count(&self) -> (r: usize)
        ensures
            r == (if self@.borrowed == Borrowed::Exclusive {
                0
            } else {
                self@.states.len()
            }),
    {
        match self.borrowed {
            Borrowed::Exclusive => 0,
            _ => self.states.len(),
        }
    }

    /// The kind of the state that a handle names, for the check of a component's argument.
    pub fn kind_of(&self, handle: u64) -> (r: Result<Option<&String>, Fault>)
        ensures
            match r {
                Err(fault) => fault == Fault::StateMutablyBorrowed && self@.borrowed
                    == Borrowed::Exclusive,
                Ok(found) => self@.borrowed != Borrowed::Exclusive && match (
                    found,
                    lookup(self@.states, handle),
                ) {
                    (Some(kind), Some(state)) => kind@ == state.kind,
                    (None, None) => true,
                    _ => false,
                },
            },
    {
        match self.borrowed {
            Borrowed::Exclusive => Err(Fault::StateMutablyBorrowed),
            _ => match self.find(handle) {
                Some(i) => Ok(Some(&self.states[i].kind)),
                None => Ok(None),
            },
        }
    }

    fn find(&self, handle: u64) -> (r: Option<usize>)
        ensures
            match r {
                Some(i) => i < self.states@.len() && lookup(self@.states, handle) == Some(
                    state_view(self.states@[i as int]),
                ),
                None => lookup(self@.states, handle) is None,
            },
    {
        let mut i: usize = 0;
        while i < self.states.len()
            invariant
                i <= self.states@.len(),
                forall|j: int| 0 <= j < i ==> (#[trigger] self.states@[j]).handle != handle,
            decreases self.states@.len() - i,
        {
            if self.states[i].handle == handle {
                proof {
                    let all = state_views(self.states@);
                    assert forall|j: int| 0 <= j < i implies (#[trigger] all[j]).handle
                        != handle by {
                        assert(all[j] == state_view(self.states@[j]));
                    }
                    lemma_lookup_skips(all, handle, i as int);
                    assert(all.skip(i as int)[0] == state_view(self.states@[i as int]));
                }
                return Some(i);
            }
            i += 1;
        }
        proof {
            let all = state_views(self.states@);
            assert forall|j: int| 0 <= j < i implies (#[trigger] all[j]).handle != handle by {
                assert(all[j] == state_view(self.states@[j]));
            }
            lemma_lookup_skips(all, handle, i as int);
        }
        None
    }

    fn check(&self, handle: u64, kind: &str) -> (r: Result<u64, Fault>)
        ensures
            r == checked(self@.states, handle, kind@),
    {
        match self.find(handle) {
            None => Err(Fault::StateMissing),
            Some(i) => if text::same(self.states[i].kind.as_str(), kind) {
                Ok(self.states[i].state)
            } else {
                Err(Fault::StateKind)
            },
        }
    }

    /// Adds a state; gives its handle.
    pub fn insert(&mut self, kind: &str, owner: Option<u64>, state: u64) -> (r: Result<u64, Fault>)
        ensures
            (final(self)@, r) == inserted(old(self)@, kind@, owner, state),
    {
        match self.borrowed {
            Borrowed::No => {},
            _ => {
                return Err(Fault::StateBorrowed);
            },
        }
        if self.states.len() >= self.capacity || self.last_handle == u64::MAX {
            return Err(Fault::StateCapacity);
        }
        let handle: u64 = self.last_handle + 1;
        self.last_handle = handle;
        self.states.push(RetainedState { handle, kind: kind.to_owned(), owner, state });
        assert(self@.states =~= old(self)@.states.push(
            RetainedState { handle, kind: kind@, owner, state },
        ));
        Ok(handle)
    }

    /// Releases what was put off, unless someone uses the states.
    pub fn flush_component_state_releases(&mut self)
        ensures
            final(self)@ == flushed(old(self)@),
    {
        match self.borrowed {
            Borrowed::No => {},
            _ => {
                return;
            },
        }
        let mut pending: Vec<u64> = Vec::new();
        std::mem::swap(&mut pending, &mut self.pending);
        let mut states: Vec<RetainedState<String>> = Vec::new();
        std::mem::swap(&mut states, &mut self.states);
        let ghost before = state_views(states@);
        let total: usize = states.len();
        assert(before.take(0) =~= Seq::empty());
        assert(state_views(self.states@) =~= Seq::empty());
        assert(before.skip(0) =~= before);
        let mut done: usize = 0;
        while states.len() > 0
            invariant
                done + states@.len() == total,
                total == before.len(),
                before.skip(done as int) == state_views(states@),
                state_views(self.states@) == kept(before.take(done as int), pending@),
                self.capacity == old(self).capacity,
                self.borrowed == old(self).borrowed,
                self.last_handle == old(self).last_handle,
                self.pending@.len() == 0,
            decreases states@.len(),
        {
            let ghost all = states@;
            let state = states.remove(0);
            let ghost model = state_view(state);
            proof {
                assert(before.skip(done as int)[0] == model);
                assert(before.take(done + 1).drop_last() =~= before.take(done as int));
                assert(before.take(done + 1).last() == model);
                assert forall|k: int| 0 <= k < states@.len() implies state_views(states@)[k]
                    == before.skip(done + 1)[k] by {
                    assert(states@[k] == all[k + 1]);
                    assert(state_views(all)[k + 1] == before.skip(done as int)[k + 1]);
                }
                assert(state_views(states@) =~= before.skip(done + 1));
            }
            let gone = match state.owner {
                Some(owner) => lists(&pending, owner),
                None => false,
            };
            if !gone {
                let ghost shorter = state_views(self.states@);
                self.states.push(state);
                assert(state_views(self.states@) =~= shorter.push(model));
            }
            done += 1;
        }
        assert(before.take(done as int) =~= before);
        assert(self@.pending =~= Seq::empty());
    }

    /// Releases an application's states, now or as soon as nobody uses them.
    pub fn release_component_states(&mut self, application: u64)
        ensures
            final(self)@ == released(old(self)@, application),
    {
        self.pending.push(application);
        self.flush_component_state_releases();
    }

    /// Begins to read a state; gives what it is kept under.
    pub fn begin_read(&mut self, handle: u64, kind: &str) -> (r: Result<u64, Fault>)
        ensures
            (final(self)@, r) == read_begun(old(self)@, handle, kind@),
    {
        self.flush_component_state_releases();
        let readers: u32 = match self.borrowed {
            Borrowed::Exclusive => {
                return Err(Fault::StateMutablyBorrowed);
            },
            Borrowed::No => 0,
            Borrowed::Shared(readers) => readers,
        };
        if readers == u32::MAX {
            return Err(Fault::StateMutablyBorrowed);
        }
        match self.check(handle, kind) {
            Err(fault) => Err(fault),
            Ok(state) => {
                self.borrowed = match self.borrowed {
                    Borrowed::Shared(readers) => Borrowed::Shared(readers + 1),
                    _ => Borrowed::Shared(1),
                };
                Ok(state)
            },
        }
    }

    /// Begins to change a state; gives what it is kept under.
    pub fn begin_update(&mut self, phase: Option<ScopePhase>, handle: u64, kind: &str) -> (r:
        Result<u64, Fault>)
        ensures
            (final(self)@, r) == update_begun(old(self)@, phase, handle, kind@),
    {
        match phase {
            Some(ScopePhase::Render) | Some(ScopePhase::Layout) => {
                return Err(Fault::StatePhase);
            },
            _ => {},
        }
        self.flush_component_state_releases();
        match self.borrowed {
            Borrowed::No => {},
            _ => {
                return Err(Fault::StateBorrowed);
            },
        }
        match self.check(handle, kind) {
            Err(fault) => Err(fault),
            Ok(state) => {
                self.borrowed = Borrowed::Exclusive;
                Ok(state)
            },
        }
    }

    /// One user of the states is done; what was put off is released once nobody uses them.
    pub fn end_use(&mut self)
        ensures
            final(self)@ == flushed(
                (StatesModel { borrowed: returned(old(self)@.borrowed), ..old(self)@ }),
            ),
    {
        self.borrowed = match self.borrowed {
            Borrowed::Shared(readers) => if readers > 1 {
                Borrowed::Shared(readers - 1)
            } else {
                Borrowed::No
            },
            _ => Borrowed::No,
        };
        self.flush_component_state_releases();
    }
}

/// Where no listed application owns any state, all are kept; what is kept is owned by none of them.
pub proof fn law_release_takes_exactly_the_owned_states(
    states: Seq<RetainedState<Seq<char>>>,
    applications: Seq<u64>,
    state: RetainedState<Seq<char>>,
)
    ensures
        kept(states, applications).contains(state) <==> states.contains(state) && !owned_by(
            state,
            applications,
        ),
    decreases states.len(),
{
    if states.len() > 0 {
        let rest = states.drop_last();
        law_release_takes_exactly_the_owned_states(rest, applications, state);
        let last = states.last();
        assert(states =~= rest.push(last));
        if kept(states, applications).contains(state) {
            let i = choose|i: int|
                0 <= i < kept(states, applications).len() && kept(states, applications)[i] == state;
            if !owned_by(last, applications) && i == kept(rest, applications).len() {
                assert(states[states.len() - 1] == state);
            } else {
                assert(kept(rest, applications)[i] == state);
                let j = choose|j: int| 0 <= j < rest.len() && rest[j] == state;
                assert(states[j] == state);
            }
        }
        if states.contains(state) && !owned_by(state, applications) {
            let j = choose|j: int| 0 <= j < states.len() && states[j] == state;
            if j < rest.len() {
                assert(rest[j] == state);
                let i = choose|i: int|
                    0 <= i < kept(rest, applications).len() && kept(rest, applications)[i] == state;
                assert(kept(states, applications)[i] == state);
            } else {
                assert(kept(states, applications)[kept(rest, applications).len() as int] == state);
            }
        }
    }
}

/// A release that comes while a state is being changed is put off and then guaranteed: as soon as
/// the change is done, no state of the application is left, and no other state is gone.
pub proof fn law_release_during_use_is_deferred_then_guaranteed(
    m: StatesModel,
    application: u64,
    state: RetainedState<Seq<char>>,
)
    requires
        m.borrowed == Borrowed::Exclusive,
        m.pending.len() == 0,
    ensures
        ({
            let during = released(m, application);
            let after = flushed(
                StatesModel { borrowed: returned(during.borrowed), ..during },
            );
            &&& during.states == m.states
            &&& after.pending.len() == 0
            &&& after.states.contains(state) <==> m.states.contains(state) && state.owner != Some(
                application,
            )
        }),
{
    let during = released(m, application);
    assert(during.pending =~= seq![application]);
    law_release_takes_exactly_the_owned_states(m.states, during.pending, state);
    assert(during.pending.contains(application)) by {
        assert(during.pending[0] == application);
    }
}

/// A release while nobody uses the states takes effect at once.
pub proof fn law_release_takes_effect_at_once(
    m: StatesModel,
    application: u64,
    state: RetainedState<Seq<char>>,
)
    requires
        m.borrowed == Borrowed::No,
        m.pending.len() == 0,
    ensures
        released(m, application).pending.len() == 0,
        released(m, application).states.contains(state) <==> m.states.contains(state)
            && state.owner != Some(application),
{
    let waiting = m.pending.push(application);
    assert(waiting =~= seq![application]);
    assert(waiting[0] == application);
    law_release_takes_exactly_the_owned_states(m.states, waiting, state);
}

/// Handles are given out once: a new handle is above every earlier one.
pub proof fn law_state_handles_are_unique(
    m: StatesModel,
    kind: Seq<char>,
    owner: Option<u64>,
    state: u64,
)
    requires
        forall|i: int| 0 <= i < m.states.len() ==> (#[trigger] m.states[i]).handle <= m.last_handle,
    ensures
        inserted(m, kind, owner, state).1 matches Ok(handle) ==> lookup(m.states, handle) is None,
        forall|i: int|
            0 <= i < inserted(m, kind, owner, state).0.states.len() ==> (#[trigger] inserted(
                m,
                kind,
                owner,
                state,
            ).0.states[i]).handle <= inserted(m, kind, owner, state).0.last_handle,
{
    let (after, answer) = inserted(m, kind, owner, state);
    if answer is Ok {
        let handle = answer->Ok_0;
        assert forall|i: int| 0 <= i < m.states.len() implies (#[trigger] m.states[i]).handle
            != handle by {}
        lemma_lookup_skips(m.states, handle, m.states.len() as int);
        assert forall|i: int| 0 <= i < after.states.len() implies (
        #[trigger] after.states[i]).handle <= after.last_handle by {
            if i < m.states.len() {
                assert(after.states[i] == m.states[i]);
            }
        }
    }
}

/// A handle names the first state that goes by it, and nothing where none does.
pub proof fn law_a_handle_names_its_state(states: Seq<RetainedState<Seq<char>>>, handle: u64)
    ensures
        match lookup(states, handle) {
            Some(state) => state.handle == handle && exists|i: int|
                0 <= i < states.len() && #[trigger] states[i] == state && forall|j: int|
                    0 <= j < i ==> (#[trigger] states[j]).handle != handle,
            None => forall|i: int| 0 <= i < states.len() ==> (#[trigger] states[i]).handle != handle,
        },
    decreases states.len(),
{
    if states.len() > 0 {
        let rest = states.skip(1);
        law_a_handle_names_its_state(rest, handle);
        if states[0].handle != handle {
            match lookup(rest, handle) {
                Some(state) => {
                    let i = choose|i: int|
                        0 <= i < rest.len() && #[trigger] rest[i] == state && forall|j: int|
                            0 <= j < i ==> (#[trigger] rest[j]).handle != handle;
                    assert(states[i + 1] == state);
                    assert forall|j: int| 0 <= j < i + 1 implies (#[trigger] states[j]).handle
                        != handle by {
                        if j > 0 {
                            assert(rest[j - 1] == states[j]);
                        }
                    }
                },
                None => {
                    assert forall|i: int| 0 <= i < states.len() implies (#[trigger] states[i]).handle
                        != handle by {
                        if i > 0 {
                            assert(rest[i - 1] == states[i]);
                        }
                    }
                },
            }
        } else {
            assert(states[0] == lookup(states, handle)->Some_0);
        }
    }
}

/// A state that was added goes by the handle that was answered: what it is kept under is found
/// again under its kind, and under no other. All states added before stay.
pub proof fn law_a_state_is_found_again(
    m: StatesModel,
    kind: Seq<char>,
    owner: Option<u64>,
    state: u64,
    wanted: Seq<char>,
)
    requires
        forall|i: int| 0 <= i < m.states.len() ==> (#[trigger] m.states[i]).handle <= m.last_handle,
    ensures
        ({
            let (after, answer) = inserted(m, kind, owner, state);
            &&& answer is Ok <==> m.borrowed == Borrowed::No && m.states.len() < m.capacity
                && m.last_handle < u64::MAX
            &&& answer is Err ==> after == m
            &&& answer matches Ok(handle) ==> {
                &&& checked(after.states, handle, wanted) is Ok <==> wanted == kind
                &&& checked(after.states, handle, kind) == Ok::<u64, Fault>(state)
                &&& after.states.len() == m.states.len() + 1
                &&& after.states.drop_last() == m.states
                &&& after.states.last().owner == owner
                &&& after.pending == m.pending
                &&& after.borrowed == m.borrowed
            }
            &&& answer matches Err(fault) ==> fault == if m.borrowed != Borrowed::No {
                Fault::StateBorrowed
            } else {
                Fault::StateCapacity
            }
        }),
{
    let (after, answer) = inserted(m, kind, owner, state);
    if answer is Ok {
        let n = m.states.len() as int;
        assert forall|i: int| 0 <= i < n implies (#[trigger] after.states[i]).handle
            != answer->Ok_0 by {
            assert(after.states[i] == m.states[i]);
        }
        lemma_lookup_skips(after.states, answer->Ok_0, n);
        assert(after.states.skip(n)[0] == after.states[n]);
        assert(after.states.drop_last() =~= m.states);
    }
}

/// A state is read or changed under its own handle and kind only, and what is handed out is what it
/// is kept under. While it is changed it is neither read nor changed again; while it is read it is
/// not changed; and once each use has ended, the states are as they were before.
pub proof fn law_a_state_has_many_readers_or_one_writer(
    m: StatesModel,
    phase: Option<ScopePhase>,
    handle: u64,
    kind: Seq<char>,
    other: u64,
    wanted: Seq<char>,
)
    requires
        m.borrowed != Borrowed::Shared(0),
    ensures
        ({
            let ready = flushed(m);
            let (reading, read) = read_begun(m, handle, kind);
            let (changing, change) = update_begun(m, phase, handle, kind);
            &&& read matches Ok(state) ==> {
                &&& lookup(ready.states, handle) matches Some(found) && found.kind == kind
                    && found.state == state
                &&& reading.states == ready.states
                &&& returned(reading.borrowed) == ready.borrowed
                &&& update_begun(reading, Some(ScopePhase::Event), other, wanted).1 is Err
                &&& m.borrowed != Borrowed::Exclusive
            }
            &&& change matches Ok(state) ==> {
                &&& lookup(ready.states, handle) matches Some(found) && found.kind == kind
                    && found.state == state
                &&& changing.states == ready.states
                &&& returned(changing.borrowed) == ready.borrowed
                &&& update_begun(changing, Some(ScopePhase::Event), other, wanted).1 is Err
                &&& read_begun(changing, other, wanted).1 is Err
                &&& m.borrowed == Borrowed::No
                &&& phase != Some(ScopePhase::Render) && phase != Some(ScopePhase::Layout)
            }
            &&& m.borrowed == Borrowed::No && (lookup(ready.states, handle) matches Some(found)
                && found.kind == kind) ==> read is Ok && (phase is None || phase == Some(
                ScopePhase::Event,
            ) ==> change is Ok)
        }),
{
}

/// A state that cannot be used is refused for what is the matter: it is in use, there is none, it is
/// of another kind, or a frame is being made.
pub proof fn law_a_state_is_refused_for_a_reason(
    m: StatesModel,
    phase: Option<ScopePhase>,
    handle: u64,
    kind: Seq<char>,
)
    ensures
        ({
            let ready = flushed(m);
            &&& read_begun(m, handle, kind).1 matches Err(fault) ==> read_begun(m, handle, kind).0
                == ready && match fault {
                Fault::StateMutablyBorrowed => m.borrowed == Borrowed::Exclusive || m.borrowed
                    == Borrowed::Shared(u32::MAX),
                Fault::StateMissing => lookup(ready.states, handle) is None,
                Fault::StateKind => lookup(ready.states, handle) matches Some(found) && found.kind
                    != kind,
                _ => false,
            }
            &&& update_begun(m, phase, handle, kind).1 matches Err(fault) ==> match fault {
                Fault::StatePhase => phase == Some(ScopePhase::Render) || phase == Some(
                    ScopePhase::Layout,
                ),
                Fault::StateBorrowed => m.borrowed != Borrowed::No,
                Fault::StateMissing => lookup(ready.states, handle) is None,
                Fault::StateKind => lookup(ready.states, handle) matches Some(found) && found.kind
                    != kind,
                _ => false,
            }
        }),
{
}

} // verus!
