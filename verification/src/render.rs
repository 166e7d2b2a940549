//! A view's description of itself: how it is made, made again for a better error, published, or
//! given up.
use crate::arena::{ArenaModel, Component, ItemSize, SpecArena};
use crate::arena;
use crate::argument::RenderedRoot;
use crate::argument;
use crate::callbacks::{CallbackArena, CallbackEntry, CallbacksModel, Keep, Registered, Standing};
use crate::callbacks;
use crate::error::{Fault, ScriptError};
use crate::error;
use crate::nested::{NestedModel, NestedViews};
use crate::nested;
use crate::scope::HostScope;
use crate::text;
use crate::value::ScriptValue;
use vstd::prelude::*;
use vstd::string::*;

verus! {

/// What a script exception says: its message, and the stack if there is one.
pub open spec fn described(message: Option<Seq<char>>, stack: Option<Seq<char>>) -> Seq<char> {
    let message = match message {
        Some(message) => message,
        None => "error"@,
    };
    match stack {
        Some(stack) => message + "\n"@ + stack,
        None => message,
    }
}

/// An optional text, as a sequence.
pub open spec fn optional_text(text: Option<String>) -> Option<Seq<char>> {
    match text {
        Some(text) => Some(text@),
        None => None,
    }
}

/// What a script exception says: its message, with the script's own stack.
pub fn describe(message: Option<String>, stack: Option<String>) -> (r: String)
    ensures
        r@ == described(optional_text(message), optional_text(stack)),
{
    let message = match message {
        Some(message) => message,
        None => "error".to_owned(),
    };
    match stack {
        Some(stack) => text::join3(message.as_str(), "\n", stack.as_str()),
        None => message,
    }
}

/// The function that describes a view, which the view must have.
pub open spec fn renderer(property: ScriptValue) -> Result<u64, Fault> {
    match property {
        ScriptValue::Function(function) => Ok(function),
        _ => Err(Fault::NoRender),
    }
}

/// The function that describes a view.
pub fn render_method(property: &ScriptValue) -> (r: Result<u64, Fault>)
    ensures
        r == renderer(*property),
{
    match property {
        ScriptValue::Function(function) => Ok(*function),
        _ => Err(Fault::NoRender),
    }
}

/// What puts an answer of `render` into the description: a text and a retained view become elements,
/// and an element is one.
pub open spec fn placed(
    m: ArenaModel,
    views: NestedModel,
    current: HostScope,
    root: RenderedRoot<Seq<char>>,
    live: bool,
) -> (ArenaModel, Result<u32, Fault>) {
    match root {
        RenderedRoot::Element(id) => (m, Ok(id)),
        RenderedRoot::Text(text) => (
            arena::pushed(m, Component::Text(text)),
            Ok(m.nodes.len() as u32),
        ),
        RenderedRoot::ChildView(token) => match nested::mountable(views, current, token, live) {
            Ok(handle) => (
                arena::pushed(m, Component::ChildView(handle)),
                Ok(m.nodes.len() as u32),
            ),
            Err(fault) => (m, Err(fault)),
        },
    }
}

/// Puts an answer of `render` into the description. `live` tells whether the view it names, if it
/// names one, still exists.
pub fn place_root(
    arena: &mut SpecArena,
    views: &NestedViews,
    current: &HostScope,
    root: RenderedRoot<String>,
    live: bool,
) -> (r: Result<u32, Fault>)
    requires
        old(arena)@.nodes.len() < u32::MAX,
    ensures
        (final(arena)@, r) == placed(
            old(arena)@,
            views@,
            *current,
            argument::root_view(root),
            live,
        ),
{
    match root {
        RenderedRoot::Element(id) => Ok(id),
        RenderedRoot::Text(text) => Ok(arena.push(Component::Text(text))),
        RenderedRoot::ChildView(token) => match views.child_view(current, token, live) {
            Ok(handle) => Ok(arena.push(Component::ChildView(handle))),
            Err(fault) => Err(fault),
        },
    }
}

/// A description in the making: the generation of its functions, and whether it is made a second
/// time for the sake of the error.
#[derive(Clone, Copy, PartialEq, Eq, Structural, Debug)]
pub struct Rendering {
    pub generation: u64,
    pub diagnosed: bool,
}

/// A complete description: its elements and the one at its root, the generation of its functions,
/// and the application and view it describes.
pub struct RenderSnapshot {
    pub arena: SpecArena,
    pub root: u32,
    pub callbacks: u64,
    pub application: Option<u64>,
    pub view: Option<u64>,
}

/// What comes of an attempt to describe a view. Where `drain` names a view, what the script has
/// queued runs for it once the event loop is back.
pub enum RenderProgress {
    /// The description is complete.
    Published { snapshot: RenderSnapshot, drain: Option<u64> },
    /// It is to be made again, with an element prototype that names the method which is no function.
    Again(Rendering),
    /// There is none.
    Failed { message: String, drain: Option<u64> },
}

/// Whether an error tells that something which was called is no function.
pub open spec fn calls_no_function(message: Seq<char>) -> bool {
    text::find_from(message, "not a function"@, 0) is Some
}

/// The functions after a description was begun.
pub open spec fn begun(m: CallbacksModel) -> CallbacksModel {
    CallbacksModel {
        open: Some((m.last_generation + 1) as u64),
        last_generation: (m.last_generation + 1) as u64,
        ..callbacks::aborted(m)
    }
}

/// The functions after a description was begun anew.
pub open spec fn restarted(m: CallbacksModel) -> CallbacksModel {
    CallbacksModel { entries: callbacks::kept(m.entries, Keep::Settled), ..m }
}

/// Begins to describe a view.
pub fn begin_snapshot(arena: &mut SpecArena, callbacks: &mut CallbackArena) -> (r: Rendering)
    requires
        old(callbacks)@.last_generation < u64::MAX,
        callbacks::in_order(old(callbacks)@),
    ensures
        final(arena)@ == arena::empty_arena(),
        final(callbacks)@ == begun(old(callbacks)@),
        callbacks::in_order(final(callbacks)@),
        r == (Rendering { generation: (old(callbacks)@.last_generation + 1) as u64, diagnosed: false }),
{
    arena.reset();
    let generation: u64 = callbacks.begin();
    Rendering { generation, diagnosed: false }
}

/// Whether an attempt is followed by another.
pub open spec fn tries_again(rendering: Rendering, message: Seq<char>) -> bool {
    !rendering.diagnosed && calls_no_function(message)
}

fn names_no_function(message: &str) -> (r: bool)
    ensures
        r == calls_no_function(message@),
{
    let chars = text::chars_of(message);
    let pattern = text::chars_of("not a function");
    text::find_pattern(&chars, &pattern, 0).is_some()
}

/// Takes the answer of an attempt to describe a view: publishes the description, gives it up, or has
/// it made again.
pub fn build_snapshot(
    rendering: Rendering,
    arena: &mut SpecArena,
    callbacks: &mut CallbackArena,
    root: Result<u32, String>,
    application: Option<u64>,
    view: Option<u64>,
) -> (r: RenderProgress)
    requires
        callbacks::in_order(old(callbacks)@),
    ensures
        callbacks::in_order(final(callbacks)@),
        final(arena)@ == arena::empty_arena(),
        match root {
            Ok(id) => {
                &&& final(callbacks)@ == callbacks::committed(old(callbacks)@)
                &&& r is Published
                &&& r->snapshot.arena@ == old(arena)@
                &&& r->snapshot.root == id
                &&& r->snapshot.callbacks == rendering.generation
                &&& r->snapshot.application == application
                &&& r->snapshot.view == view
                &&& r->Published_drain == view
            },
            Err(message) => if tries_again(rendering, message@) {
                &&& final(callbacks)@ == restarted(old(callbacks)@)
                &&& r == RenderProgress::Again(
                    Rendering { generation: rendering.generation, diagnosed: true },
                )
            } else {
                &&& final(callbacks)@ == callbacks::aborted(old(callbacks)@)
                &&& r == (RenderProgress::Failed { message, drain: view })
            },
        },
{
    match root {
        Ok(root) => {
            callbacks.commit();
            let mut taken = SpecArena::new();
            std::mem::swap(&mut taken, arena);
            RenderProgress::Published {
                snapshot: RenderSnapshot {
                    arena: taken,
                    root,
                    callbacks: rendering.generation,
                    application,
                    view,
                },
                drain: view,
            }
        },
        Err(message) => {
            if !rendering.diagnosed && names_no_function(message.as_str()) {
                arena.reset();
                callbacks.rollback();
                RenderProgress::Again(
                    Rendering { generation: rendering.generation, diagnosed: true },
                )
            } else {
                callbacks.abort();
                arena.reset();
                RenderProgress::Failed { message, drain: view }
            }
        },
    }
}

/// What has been registered for a description that is being made: every function that was there
/// before stays as it was, and all new ones wait for the description to be complete.
pub open spec fn staged_on(before: CallbacksModel, after: CallbacksModel) -> bool {
    &&& before.entries.len() <= after.entries.len()
    &&& after.entries.take(before.entries.len() as int) == before.entries
    &&& forall|i: int|
        before.entries.len() <= i < after.entries.len() ==> (#[trigger] after.entries[i]).standing
            == Standing::Staged
    &&& forall|i: int|
        0 <= i < before.entries.len() ==> (#[trigger] before.entries[i]).standing
            != Standing::Staged
}

proof fn lemma_settled_stay(entries: Seq<Registered>)
    requires
        forall|i: int|
            0 <= i < entries.len() ==> (#[trigger] entries[i]).standing != Standing::Staged,
    ensures
        callbacks::kept(entries, Keep::Settled) == entries,
    decreases entries.len(),
{
    if entries.len() > 0 {
        let front = entries.drop_last();
        assert forall|i: int| 0 <= i < front.len() implies (#[trigger] front[i]).standing
            != Standing::Staged by {
            assert(front[i] == entries[i]);
        }
        lemma_settled_stay(front);
        assert(entries[entries.len() - 1].standing != Standing::Staged);
        assert(entries =~= front.push(entries.last()));
    } else {
        assert(callbacks::kept(entries, Keep::Settled) =~= entries);
    }
}

proof fn lemma_staged_go(before: CallbacksModel, after: CallbacksModel)
    requires
        staged_on(before, after),
    ensures
        callbacks::kept(after.entries, Keep::Settled) == before.entries,
    decreases after.entries.len(),
{
    if after.entries.len() == before.entries.len() {
        assert(after.entries.take(before.entries.len() as int) =~= after.entries);
        lemma_settled_stay(before.entries);
    } else {
        let front = CallbacksModel { entries: after.entries.drop_last(), ..after };
        assert(front.entries.take(before.entries.len() as int) =~= after.entries.take(
            before.entries.len() as int,
        ));
        assert forall|i: int| before.entries.len() <= i < front.entries.len() implies (
        #[trigger] front.entries[i]).standing == Standing::Staged by {
            assert(front.entries[i] == after.entries[i]);
        }
        lemma_staged_go(before, front);
        assert(after.entries[after.entries.len() - 1].standing == Standing::Staged);
    }
}

/// A description that is given up leaves every function that could be called before as it was, and
/// adds none.
pub proof fn law_a_failed_description_leaves_no_trace(before: CallbacksModel, after: CallbacksModel)
    requires
        staged_on(before, after),
    ensures
        callbacks::aborted(after).entries == before.entries,
        forall|id: u64| #[trigger]
            callbacks::callable(callbacks::aborted(after).entries, id) == callbacks::callable(
                before.entries,
                id,
            ),
{
    lemma_staged_go(before, after);
}

/// A description that is made again starts from where it began: what the first attempt registered
/// is gone.
pub proof fn law_a_second_attempt_starts_afresh(before: CallbacksModel, after: CallbacksModel)
    requires
        staged_on(before, after),
    ensures
        restarted(after).entries == before.entries,
{
    lemma_staged_go(before, after);
}

/// Registering a function for a description that is being made keeps what is there.
pub proof fn law_registering_only_adds(
    before: CallbacksModel,
    after: CallbacksModel,
    entry: CallbackEntry,
)
    requires
        staged_on(before, after),
        after.open is Some,
    ensures
        staged_on(before, callbacks::registered(after, entry)),
{
    let more = callbacks::registered(after, entry);
    assert(more.entries.take(before.entries.len() as int) =~= after.entries.take(
        before.entries.len() as int,
    ));
    assert forall|i: int| before.entries.len() <= i < more.entries.len() implies (
    #[trigger] more.entries[i]).standing == Standing::Staged by {
        if i < after.entries.len() {
            assert(more.entries[i] == after.entries[i]);
        }
    }
}

/// A view is described at most twice: an attempt made for the sake of the error is the last.
pub proof fn law_a_view_is_described_twice_at_most(rendering: Rendering, message: Seq<char>)
    requires
        rendering.diagnosed,
    ensures
        !tries_again(rendering, message),
{
}

/// What an exception says begins with its message, or the word for one without, and ends with its
/// stack, on a line of its own.
pub proof fn law_an_exception_is_told_with_its_stack(message: Seq<char>, stack: Seq<char>)
    ensures
        described(Some(message), None) == message,
        described(Some(message), Some(stack)).take(message.len() as int) == message,
        described(Some(message), Some(stack)).skip(message.len() as int) == seq!['\n'] + stack,
        described(None, None) == "error"@,
        described(None, Some(stack)) == described(Some("error"@), Some(stack)),
{
    reveal_strlit("\n");
    assert("\n"@ =~= seq!['\n']);
    let told = described(Some(message), Some(stack));
    assert(told.take(message.len() as int) =~= message);
    assert(told.skip(message.len() as int) =~= seq!['\n'] + stack);
}

/// A view describes itself with the function it was given, and with nothing else.
pub proof fn law_a_view_is_described_by_its_function(property: ScriptValue)
    ensures
        renderer(property) is Ok <==> property is Function,
        renderer(property) matches Ok(function) ==> property == ScriptValue::Function(function),
{
}

/// What `render` answers is what the description shows: an element is itself, and adds nothing; a
/// text becomes one new element with that text; a retained view becomes one new element that shows
/// it, where it may be shown.
pub proof fn law_an_answer_is_shown_as_it_is(
    m: ArenaModel,
    views: NestedModel,
    current: HostScope,
    root: RenderedRoot<Seq<char>>,
    live: bool,
)
    requires
        m.nodes.len() < u32::MAX,
    ensures
        ({
            let (after, answer) = placed(m, views, current, root, live);
            match root {
                RenderedRoot::Element(id) => after == m && answer == Ok::<u32, Fault>(id),
                RenderedRoot::Text(text) => {
                    &&& answer == Ok::<u32, Fault>(m.nodes.len() as u32)
                    &&& after.nodes.drop_last() == m.nodes
                    &&& after.nodes.len() == m.nodes.len() + 1
                    &&& after.nodes.last().component == Component::<Seq<char>, Seq<ItemSize>>::Text(
                        text,
                    )
                    &&& !after.nodes.last().claimed
                },
                RenderedRoot::ChildView(token) => match nested::mountable(
                    views,
                    current,
                    token,
                    live,
                ) {
                    Ok(handle) => {
                        &&& answer == Ok::<u32, Fault>(m.nodes.len() as u32)
                        &&& after.nodes.drop_last() == m.nodes
                        &&& after.nodes.len() == m.nodes.len() + 1
                        &&& after.nodes.last().component == Component::<
                            Seq<char>,
                            Seq<ItemSize>,
                        >::ChildView(handle)
                        &&& !after.nodes.last().claimed
                    },
                    Err(fault) => after == m && answer == Err::<u32, Fault>(fault),
                },
            }
        }),
{
    let after = placed(m, views, current, root, live).0;
    if after.nodes.len() > m.nodes.len() {
        assert(after.nodes.drop_last() =~= m.nodes);
    }
}

/// A failure is told to be a call of what is no function exactly where it says so, wherever in it.
pub proof fn law_a_missing_function_is_recognized(
    before: Seq<char>,
    after: Seq<char>,
    message: Seq<char>,
)
    ensures
        calls_no_function(before + "not a function"@ + after),
        calls_no_function(message) ==> exists|at: int| #[trigger]
            text::occurs_at(message, "not a function"@, at),
        (forall|at: int| !#[trigger] text::occurs_at(message, "not a function"@, at))
            ==> !calls_no_function(message),
{
    text::law_a_pattern_is_found_where_it_stands(
        before,
        "not a function"@,
        after,
        message,
        0,
    );
}

/// Beginning a description opens a generation that no function has yet, keeps what can be called,
/// and drops what was registered for one that was never completed; beginning it anew drops what was
/// registered since, and stays with the same generation.
pub proof fn law_a_description_begins_with_nothing_registered(m: CallbacksModel, at: int)
    requires
        callbacks::in_order(m),
        m.last_generation < u64::MAX,
        0 <= at < m.entries.len(),
    ensures
        begun(m).open == Some(begun(m).last_generation),
        begun(m).last_generation == m.last_generation + 1,
        begun(m).last_id == m.last_id,
        callbacks::callable(begun(m).entries, m.entries[at].id) == callbacks::callable(
            m.entries,
            m.entries[at].id,
        ),
        m.entries[at].standing == Standing::Staged ==> !begun(m).entries.contains(m.entries[at])
            && !restarted(m).entries.contains(m.entries[at]),
        callbacks::callable(restarted(m).entries, m.entries[at].id) == callbacks::callable(
            m.entries,
            m.entries[at].id,
        ),
        restarted(m).open == m.open,
        restarted(m).last_generation == m.last_generation,
        restarted(m).last_id == m.last_id,
{
    callbacks::law_giving_up_spares_what_can_be_called(m, at, m.last_id);
}

} // verus!
