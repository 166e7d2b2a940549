//! Calls on registered components: checked as a whole, and undone as a whole where they fail.
use crate::arena::ArenaModel;
use crate::arena::SpecArena;
use crate::arena;
use crate::argument::Argument;
use crate::argument::ArgumentModel;
use crate::argument::Arguments;
use crate::argument::Bridged;
use crate::callbacks::CallbackArena;
use crate::callbacks::CallbackEntry;
use crate::callbacks::CallbacksModel;
use crate::callbacks::Keep;
use crate::callbacks::Registered;
use crate::callbacks;
use crate::error::Fault;
use crate::error::ScriptError;
use crate::error;
use crate::schema::ArgumentDescriptor;
use crate::schema::ArgumentSchema;
use crate::schema::CheckContext;
use crate::schema::CheckedModel;
use crate::schema::ComponentArgument;
use crate::schema::ContextModel;
use crate::schema::EntityKind;
use crate::schema;
use crate::scope::HostScope;
use crate::scope;
use crate::states::RetainedStates;
use crate::states::StatesModel;
use crate::states;
use vstd::prelude::*;
use vstd::string::*;

verus! {

/// What an argument, or its absence, comes to against its declaration. An optional one may be
/// missing or null.
pub open spec fn declared(
    api: Seq<char>,
    descriptor: ArgumentDescriptor,
    argument: Option<ArgumentModel>,
    context: ContextModel,
    functions: CallbacksModel,
) -> (CallbacksModel, Result<CheckedModel, ScriptError<Seq<char>>>) {
    match (descriptor.schema, argument) {
        (ArgumentSchema::Optional(_), None) => (functions, Ok(CheckedModel::Optional(None))),
        (ArgumentSchema::Optional(_), Some(ArgumentModel::Value(Bridged::Nil))) => (
            functions,
            Ok(CheckedModel::Optional(None)),
        ),
        (_, None) => (
            functions,
            Err(schema::expected_error(api, descriptor.name@, descriptor.schema)),
        ),
        (_, Some(argument)) => schema::checked(
            api,
            descriptor.name@,
            descriptor.schema,
            argument,
            context,
            functions,
        ),
    }
}

/// The argument at a position.
pub open spec fn argument_at(arguments: Seq<ArgumentModel>, index: int) -> Option<ArgumentModel> {
    if 0 <= index < arguments.len() {
        Some(arguments[index])
    } else {
        None
    }
}

/// What the arguments come to against their declarations, first to last.
pub open spec fn declared_all(
    api: Seq<char>,
    descriptors: Seq<ArgumentDescriptor>,
    arguments: Seq<ArgumentModel>,
    context: ContextModel,
    functions: CallbacksModel,
) -> (CallbacksModel, Result<Seq<CheckedModel>, ScriptError<Seq<char>>>)
    decreases descriptors.len(),
{
    if descriptors.len() == 0 {
        (functions, Ok(Seq::empty()))
    } else {
        match declared_all(api, descriptors.drop_last(), arguments, context, functions) {
            (after, Err(error)) => (after, Err(error)),
            (after, Ok(models)) => match declared(
                api,
                descriptors.last(),
                argument_at(arguments, descriptors.len() - 1),
                context,
                after,
            ) {
                (last, Ok(model)) => (last, Ok(models.push(model))),
                (last, Err(error)) => (last, Err(error)),
            },
        }
    }
}

/// The ending of a count in an error.
pub open spec fn plural(count: nat) -> Seq<char> {
    if count == 1 {
        ""@
    } else {
        "s"@
    }
}

/// What the arguments of a call come to.
pub open spec fn call_checked(
    api: Seq<char>,
    descriptors: Seq<ArgumentDescriptor>,
    arguments: Seq<ArgumentModel>,
    context: ContextModel,
    functions: CallbacksModel,
) -> (CallbacksModel, Result<Seq<CheckedModel>, ScriptError<Seq<char>>>) {
    if arguments.len() > descriptors.len() {
        (
            functions,
            Err(
                ScriptError::TooManyArguments {
                    api,
                    count: descriptors.len() as u64,
                    plural: plural(descriptors.len()),
                },
            ),
        )
    } else {
        declared_all(api, descriptors, arguments, context, functions)
    }
}

/// The first element that occurs a second time.
pub open spec fn first_repeat(elements: Seq<u32>) -> Option<u32>
    decreases elements.len(),
{
    if elements.len() == 0 {
        None
    } else {
        match first_repeat(elements.drop_last()) {
            Some(element) => Some(element),
            None => if elements.drop_last().contains(elements.last()) {
                Some(elements.last())
            } else {
                None
            },
        }
    }
}

/// What a call comes to before the component sees it: its arguments, with no element in them twice.
pub open spec fn drafted(
    api: Seq<char>,
    descriptors: Seq<ArgumentDescriptor>,
    arguments: Seq<ArgumentModel>,
    context: ContextModel,
    functions: CallbacksModel,
) -> (CallbacksModel, Result<Seq<CheckedModel>, ScriptError<Seq<char>>>) {
    match call_checked(api, descriptors, arguments, context, functions) {
        (after, Err(error)) => (after, Err(error)),
        (after, Ok(models)) => match first_repeat(schema::elements_in_all(models)) {
            Some(element) => (after, Err(ScriptError::ElementTwice { api, id: element as u64 })),
            None => (after, Ok(models)),
        },
    }
}

/// The functions after those registered since a checkpoint are taken back.
pub open spec fn taken_back(functions: CallbacksModel, checkpoint: u64) -> CallbacksModel {
    CallbacksModel {
        entries: callbacks::kept(functions.entries, Keep::UpTo(checkpoint)),
        ..functions
    }
}

proof fn lemma_declared_stop(
    api: Seq<char>,
    descriptors: Seq<ArgumentDescriptor>,
    arguments: Seq<ArgumentModel>,
    context: ContextModel,
    functions: CallbacksModel,
    upto: int,
)
    requires
        0 <= upto <= descriptors.len(),
        declared_all(api, descriptors.take(upto), arguments, context, functions).1 is Err,
    ensures
        declared_all(api, descriptors, arguments, context, functions) == declared_all(
            api,
            descriptors.take(upto),
            arguments,
            context,
            functions,
        ),
    decreases descriptors.len() - upto,
{
    if upto == descriptors.len() {
        assert(descriptors.take(upto) =~= descriptors);
    } else {
        assert(descriptors.take(upto + 1).drop_last() =~= descriptors.take(upto));
        lemma_declared_stop(api, descriptors, arguments, context, functions, upto + 1);
    }
}

/// Checks one argument, or its absence, against its declaration.
pub fn validate_component_argument(
    api: &str,
    descriptor: &ArgumentDescriptor,
    argument: Option<&Argument>,
    context: &CheckContext,
    functions: &mut CallbackArena,
) -> (r: Result<ComponentArgument, ScriptError<String>>)
    requires
        callbacks::in_order(old(functions)@),
        argument matches Some(given) ==> old(functions)@.last_id + schema::handlers_in(
            given.model(),
        ) <= u64::MAX,
    ensures
        ({
            let owed = declared(
                api@,
                *descriptor,
                match argument {
                    Some(given) => Some(given.model()),
                    None => None,
                },
                schema::context_view(*context),
                old(functions)@,
            );
            final(functions)@ == owed.0 && schema::answers(r, owed.1)
        }),
        callbacks::in_order(final(functions)@),
        match argument {
            Some(given) => final(functions)@.last_id <= old(functions)@.last_id
                + schema::handlers_in(given.model()),
            None => final(functions)@.last_id == old(functions)@.last_id,
        },
{
    match &descriptor.schema {
        ArgumentSchema::Optional(_) => match argument {
            None => {
                return Ok(ComponentArgument::Optional(None));
            },
            Some(Argument::Value(Bridged::Nil)) => {
                return Ok(ComponentArgument::Optional(None));
            },
            Some(_) => {},
        },
        _ => {},
    }
    match argument {
        None => Err(
            ScriptError::ArgumentExpected {
                api: api.to_owned(),
                name: descriptor.name.as_str().to_owned(),
                expected: schema::schema_name(&descriptor.schema),
            },
        ),
        Some(argument) => schema::validate_component_argument_kind(
            api,
            descriptor.name.as_str(),
            &descriptor.schema,
            argument,
            context,
            functions,
        ),
    }
}

proof fn lemma_handlers_at(arguments: Seq<ArgumentModel>, at: int)
    requires
        0 <= at < arguments.len(),
    ensures
        schema::handlers_in_all(arguments.take(at)) + schema::handlers_in(arguments[at])
            == schema::handlers_in_all(arguments.take(at + 1)),
        schema::handlers_in_all(arguments.take(at + 1)) <= schema::handlers_in_all(arguments),
    decreases arguments.len() - at,
{
    assert(arguments.take(at + 1).drop_last() =~= arguments.take(at));
    if at + 1 == arguments.len() {
        assert(arguments.take(at + 1) =~= arguments);
    } else {
        lemma_handlers_at(arguments, at + 1);
    }
}

/// Checks the arguments of a call against their declarations.
pub fn validate_component_arguments(
    api: &str,
    descriptors: &Vec<ArgumentDescriptor>,
    arguments: &Arguments,
    context: &CheckContext,
    functions: &mut CallbackArena,
) -> (r: Result<Vec<ComponentArgument>, ScriptError<String>>)
    requires
        callbacks::in_order(old(functions)@),
        old(functions)@.last_id + schema::handlers_in_all(arguments.model()) <= u64::MAX,
    ensures
        ({
            let owed = call_checked(
                api@,
                descriptors@,
                arguments.model(),
                schema::context_view(*context),
                old(functions)@,
            );
            &&& final(functions)@ == owed.0
            &&& match (r, owed.1) {
                (Ok(checked), Ok(models)) => schema::checked_models(checked@) == models,
                (Err(error), Err(expected)) => error::error_view(error) == expected,
                _ => false,
            }
        }),
        callbacks::in_order(final(functions)@),
{
    if arguments.len() > descriptors.len() {
        let count: u64 = descriptors.len() as u64;
        return Err(
            ScriptError::TooManyArguments {
                api: api.to_owned(),
                count,
                plural: if count == 1 {
                    "".to_owned()
                } else {
                    "s".to_owned()
                },
            },
        );
    }
    let mut out: Vec<ComponentArgument> = Vec::new();
    let mut i: usize = 0;
    let ghost given = arguments.model();
    let ghost view = schema::context_view(*context);
    let ghost start = functions@;
    let ghost all = descriptors@;
    assert(all.take(0) =~= Seq::empty());
    assert(given.take(0) =~= Seq::empty());
    assert(schema::checked_models(out@) =~= Seq::empty());
    while i < descriptors.len()
        invariant
            i <= descriptors@.len(),
            all == descriptors@,
            given == arguments.model(),
            given.len() <= all.len(),
            view == schema::context_view(*context),
            start == old(functions)@,
            callbacks::in_order(functions@),
            start.last_id + schema::handlers_in_all(given) <= u64::MAX,
            functions@.last_id <= start.last_id + schema::handlers_in_all(
                given.take(
                    if i < given.len() {
                        i as int
                    } else {
                        given.len() as int
                    },
                ),
            ),
            declared_all(api@, all.take(i as int), given, view, start) == (
                functions@,
                Ok::<Seq<CheckedModel>, ScriptError<Seq<char>>>(schema::checked_models(out@)),
            ),
        decreases descriptors@.len() - i,
    {
        let ghost before = out@;
        proof {
            assert(all.take(i + 1).drop_last() =~= all.take(i as int));
            assert(all.take(i + 1).last() == all[i as int]);
            if i < given.len() {
                lemma_handlers_at(given, i as int);
            } else {
                assert(given.take(given.len() as int) =~= given);
            }
            if declared_all(api@, all.take(i + 1), given, view, start).1 is Err {
                lemma_declared_stop(api@, all, given, view, start, i + 1);
            }
        }
        match validate_component_argument(
            api,
            &descriptors[i],
            arguments.get(i),
            context,
            functions,
        ) {
            Ok(checked) => {
                out.push(checked);
                assert(schema::checked_models(out@) =~= schema::checked_models(before).push(
                    checked.model(),
                ));
            },
            Err(error) => {
                return Err(error);
            },
        }
        i += 1;
    }
    assert(all.take(i as int) =~= all);
    Ok(out)
}

fn repeated(elements: &Vec<u32>) -> (r: Option<u32>)
    ensures
        r == first_repeat(elements@),
{
    let mut i: usize = 0;
    let ghost all = elements@;
    assert(all.take(0) =~= Seq::empty());
    while i < elements.len()
        invariant
            i <= elements@.len(),
            all == elements@,
            first_repeat(all.take(i as int)) is None,
        decreases elements@.len() - i,
    {
        assert(all.take(i + 1).drop_last() =~= all.take(i as int));
        assert(all.take(i + 1).last() == all[i as int]);
        let mut j: usize = 0;
        while j < i
            invariant
                j <= i < elements@.len(),
                all == elements@,
                first_repeat(all.take(i as int)) is None,
                all.take(i + 1).drop_last() == all.take(i as int),
                all.take(i + 1).last() == all[i as int],
                forall|k: int| 0 <= k < j ==> all[k] != all[i as int],
            decreases i - j,
        {
            if elements[j] == elements[i] {
                proof {
                    assert(all.take(i as int)[j as int] == all[i as int]);
                    assert(all.take(i as int).contains(all[i as int]));
                    lemma_repeat_stays(all, i + 1);
                }
                return Some(elements[i]);
            }
            j += 1;
        }
        assert(!all.take(i as int).contains(all[i as int]));
        i += 1;
    }
    assert(all.take(i as int) =~= all);
    None
}

proof fn lemma_repeat_stays(elements: Seq<u32>, upto: int)
    requires
        0 <= upto <= elements.len(),
        first_repeat(elements.take(upto)) is Some,
    ensures
        first_repeat(elements) == first_repeat(elements.take(upto)),
    decreases elements.len() - upto,
{
    if upto == elements.len() {
        assert(elements.take(upto) =~= elements);
    } else {
        assert(elements.take(upto + 1).drop_last() =~= elements.take(upto));
        lemma_repeat_stays(elements, upto + 1);
    }
}

/// A call that creates a retained state, whose arguments are checked: the arguments, and the last
/// function that was registered before the call.
pub struct StateDraft {
    pub arguments: Vec<ComponentArgument>,
    pub checkpoint: u64,
}

/// Begins the creation of a retained state: checks its arguments. Where they are not as declared,
/// the functions registered for the call are taken back.
pub fn begin_retained_state(
    api: &str,
    descriptors: &Vec<ArgumentDescriptor>,
    arguments: &Arguments,
    arena: &SpecArena,
    entities: &Vec<EntityKind>,
    states: &mut RetainedStates,
    proof: &str,
    scope: &HostScope,
    call: Option<u64>,
    functions: &mut CallbackArena,
) -> (r: Result<StateDraft, ScriptError<String>>)
    requires
        callbacks::in_order(old(functions)@),
        old(functions)@.last_id + schema::handlers_in_all(arguments.model()) <= u64::MAX,
    ensures
        final(states)@ == if r is Ok {
            states::flushed(old(states)@)
        } else {
            states::flushed(states::flushed(old(states)@))
        },
        ({
            let context = ContextModel {
                arena: arena@,
                entities: entities@,
                states: states::flushed(old(states)@),
                proof: proof@,
                scope: *scope,
                call,
            };
            let owed = call_checked(
                api@,
                descriptors@,
                arguments.model(),
                context,
                old(functions)@,
            );
            match (r, owed.1) {
                (Ok(draft), Ok(models)) => {
                    &&& schema::checked_models(draft.arguments@) == models
                    &&& draft.checkpoint == old(functions)@.last_id
                    &&& final(functions)@ == owed.0
                },
                (Err(error), Err(expected)) => {
                    &&& error::error_view(error) == expected
                    &&& final(functions)@ == taken_back(owed.0, old(functions)@.last_id)
                },
                _ => false,
            }
        }),
        callbacks::in_order(final(functions)@),
{
    states.flush_component_state_releases();
    let checkpoint: u64 = functions.checkpoint();
    let context = CheckContext { arena, entities, states: &*states, proof, scope: *scope, call };
    match validate_component_arguments(api, descriptors, arguments, &context, functions) {
        Err(error) => {
            functions.rollback_to(checkpoint);
            states.flush_component_state_releases();
            Err(error)
        },
        Ok(checked) => Ok(StateDraft { arguments: checked, checkpoint }),
    }
}

/// A call on a component whose arguments are checked, before the component has seen them: the
/// arguments, the elements in them, and the last function that was registered before the call.
pub struct PayloadDraft {
    pub arguments: Vec<ComponentArgument>,
    pub elements: Vec<u32>,
    pub checkpoint: u64,
}

/// Begins a call on a registered component: checks its arguments, and that no element is in them
/// twice. Otherwise the functions registered for the call are taken back.
pub fn begin_component_payload(
    api: &str,
    descriptors: &Vec<ArgumentDescriptor>,
    arguments: &Arguments,
    arena: &SpecArena,
    entities: &Vec<EntityKind>,
    states: &mut RetainedStates,
    proof: &str,
    scope: &HostScope,
    call: Option<u64>,
    functions: &mut CallbackArena,
) -> (r: Result<PayloadDraft, ScriptError<String>>)
    requires
        callbacks::in_order(old(functions)@),
        old(functions)@.last_id + schema::handlers_in_all(arguments.model()) <= u64::MAX,
    ensures
        final(states)@ == if r is Ok {
            states::flushed(old(states)@)
        } else {
            states::flushed(states::flushed(old(states)@))
        },
        ({
            let context = ContextModel {
                arena: arena@,
                entities: entities@,
                states: states::flushed(old(states)@),
                proof: proof@,
                scope: *scope,
                call,
            };
            let owed = drafted(api@, descriptors@, arguments.model(), context, old(functions)@);
            match (r, owed.1) {
                (Ok(draft), Ok(models)) => {
                    &&& schema::checked_models(draft.arguments@) == models
                    &&& draft.elements@ == schema::elements_in_all(models)
                    &&& draft.checkpoint == old(functions)@.last_id
                    &&& final(functions)@ == owed.0
                },
                (Err(error), Err(expected)) => {
                    &&& error::error_view(error) == expected
                    &&& final(functions)@ == taken_back(owed.0, old(functions)@.last_id)
                },
                _ => false,
            }
        }),
        callbacks::in_order(final(functions)@),
{
    match begin_retained_state(
        api,
        descriptors,
        arguments,
        arena,
        entities,
        states,
        proof,
        scope,
        call,
        functions,
    ) {
        Err(error) => Err(error),
        Ok(StateDraft { arguments: checked, checkpoint }) => {
            let mut elements: Vec<u32> = Vec::new();
            let mut i: usize = 0;
            let ghost models = schema::checked_models(checked@);
            assert(models.take(0) =~= Seq::empty());
            while i < checked.len()
                invariant
                    i <= checked@.len(),
                    models == schema::checked_models(checked@),
                    elements@ == schema::elements_in_all(models.take(i as int)),
                decreases checked@.len() - i,
            {
                assert(models.take(i + 1).drop_last() =~= models.take(i as int));
                assert(models.take(i + 1).last() == checked@[i as int].model());
                schema::collect_component_elements(&checked[i], &mut elements);
                i += 1;
            }
            assert(models.take(i as int) =~= models);
            match repeated(&elements) {
                Some(element) => {
                    functions.rollback_to(checkpoint);
                    states.flush_component_state_releases();
                    Err(ScriptError::ElementTwice { api: api.to_owned(), id: element as u64 })
                },
                None => Ok(PayloadDraft { arguments: checked, elements, checkpoint }),
            }
        },
    }
}

/// The description with the given elements given their places, as far as that goes.
pub open spec fn all_placed(m: ArenaModel, elements: Seq<u32>) -> (
    ArenaModel,
    Result<(), ScriptError<Seq<char>>>,
)
    decreases elements.len(),
{
    if elements.len() == 0 {
        (m, Ok(()))
    } else {
        match all_placed(m, elements.drop_last()) {
            (after, Err(error)) => (after, Err(error)),
            (after, Ok(())) => arena::claim(after, elements.last()),
        }
    }
}

proof fn lemma_placed_stop(m: ArenaModel, elements: Seq<u32>, upto: int)
    requires
        0 <= upto <= elements.len(),
        all_placed(m, elements.take(upto)).1 is Err,
    ensures
        all_placed(m, elements) == all_placed(m, elements.take(upto)),
    decreases elements.len() - upto,
{
    if upto == elements.len() {
        assert(elements.take(upto) =~= elements);
    } else {
        assert(elements.take(upto + 1).drop_last() =~= elements.take(upto));
        lemma_placed_stop(m, elements, upto + 1);
    }
}

fn place_all(elements: &Vec<u32>, arena: &mut SpecArena) -> (r: Result<(), ScriptError<String>>)
    ensures
        (final(arena)@, error::outcome_view(r)) == all_placed(old(arena)@, elements@),
{
    let mut i: usize = 0;
    let ghost all = elements@;
    assert(all.take(0) =~= Seq::empty());
    while i < elements.len()
        invariant
            i <= elements@.len(),
            all == elements@,
            all_placed(old(arena)@, all.take(i as int)) == (
                arena@,
                Ok::<(), ScriptError<Seq<char>>>(()),
            ),
        decreases elements@.len() - i,
    {
        assert(all.take(i + 1).drop_last() =~= all.take(i as int));
        assert(all.take(i + 1).last() == all[i as int]);
        match arena.claim(elements[i]) {
            Ok(()) => {},
            Err(error) => {
                proof {
                    lemma_placed_stop(old(arena)@, all, i + 1);
                }
                return Err(error);
            },
        }
        i += 1;
    }
    assert(all.take(i as int) =~= all);
    Ok(())
}

/// What a call comes to once the component has seen its arguments. `made` is what the component
/// made of them, or why it did not.
pub open spec fn finished(
    m: ArenaModel,
    elements: Seq<u32>,
    made: Result<u64, Seq<char>>,
) -> (ArenaModel, Result<u64, ScriptError<Seq<char>>>) {
    match made {
        Err(message) => (m, Err(ScriptError::Factory { message })),
        Ok(payload) => match all_placed(m, elements) {
            (after, Ok(())) => (after, Ok(payload)),
            (after, Err(error)) => (after, Err(error)),
        },
    }
}

/// What a component made, as a statement speaks of it.
pub open spec fn made_view(made: Result<u64, String>) -> Result<u64, Seq<char>> {
    match made {
        Ok(payload) => Ok(payload),
        Err(message) => Err(message@),
    }
}

/// Ends a call on a registered component: gives the elements in its arguments their places, or
/// takes back the functions registered for the call.
pub fn finish_component_payload(
    draft: &PayloadDraft,
    made: Result<u64, String>,
    arena: &mut SpecArena,
    states: &mut RetainedStates,
    functions: &mut CallbackArena,
) -> (r: Result<u64, ScriptError<String>>)
    requires
        callbacks::in_order(old(functions)@),
    ensures
        (final(arena)@, error::outcome_view(r)) == finished(
            old(arena)@,
            draft.elements@,
            made_view(made),
        ),
        final(functions)@ == if r is Ok {
            old(functions)@
        } else {
            taken_back(old(functions)@, draft.checkpoint)
        },
        callbacks::in_order(final(functions)@),
        final(states)@ == states::flushed(old(states)@),
{
    let outcome: Result<u64, ScriptError<String>> = match made {
        Err(message) => Err(ScriptError::Factory { message }),
        Ok(payload) => match place_all(&draft.elements, arena) {
            Ok(()) => Ok(payload),
            Err(error) => Err(error),
        },
    };
    if outcome.is_err() {
        functions.rollback_to(draft.checkpoint);
    }
    states.flush_component_state_releases();
    outcome
}

/// How the embedding application answered a request to create a retained state.
pub enum StateCreation {
    /// No host call is in progress.
    NoCall,
    /// The component refused, and says why.
    Refused(String),
    /// It is kept under this number.
    Created(u64),
}

/// What the creation of a retained state comes to, once its arguments are checked.
pub open spec fn state_created(
    m: StatesModel,
    creation: StateCreation,
    kind: Seq<char>,
    owner: Option<u64>,
) -> (StatesModel, Result<u64, ScriptError<Seq<char>>>) {
    match creation {
        StateCreation::NoCall => (m, Err(ScriptError::Fixed(Fault::StateNeedsCall))),
        StateCreation::Refused(message) => (m, Err(ScriptError::Factory { message: message@ })),
        StateCreation::Created(state) => match states::inserted(m, kind, owner, state) {
            (after, Ok(handle)) => (after, Ok(handle)),
            (after, Err(Fault::StateBorrowed)) => (
                after,
                Err(ScriptError::Fixed(Fault::StateCreateBorrowed)),
            ),
            (after, Err(fault)) => (after, Err(ScriptError::Fixed(fault))),
        },
    }
}

/// Ends the creation of a retained state: records it for the application in whose call it was
/// created, or takes back the functions registered for the call.
pub fn finish_retained_state(
    draft: &StateDraft,
    creation: StateCreation,
    kind: &str,
    scope: &HostScope,
    states: &mut RetainedStates,
    functions: &mut CallbackArena,
) -> (r: Result<u64, ScriptError<String>>)
    requires
        callbacks::in_order(old(functions)@),
    ensures
        ({
            let owed = state_created(
                old(states)@,
                creation,
                kind@,
                scope::current_generation(*scope),
            );
            &&& error::outcome_view(r) == owed.1
            &&& final(states)@ == states::flushed(owed.0)
        }),
        final(functions)@ == if r is Ok {
            old(functions)@
        } else {
            taken_back(old(functions)@, draft.checkpoint)
        },
        callbacks::in_order(final(functions)@),
{
    let outcome: Result<u64, ScriptError<String>> = match creation {
        StateCreation::NoCall => Err(ScriptError::Fixed(Fault::StateNeedsCall)),
        StateCreation::Refused(message) => Err(ScriptError::Factory { message }),
        StateCreation::Created(state) => match states.insert(kind, scope.generation(), state) {
            Ok(handle) => Ok(handle),
            Err(Fault::StateBorrowed) => Err(ScriptError::Fixed(Fault::StateCreateBorrowed)),
            Err(fault) => Err(ScriptError::Fixed(fault)),
        },
    };
    if outcome.is_err() {
        functions.rollback_to(draft.checkpoint);
    }
    states.flush_component_state_releases();
    outcome
}

/// Whether functions were only added: those that were registered are still there, in their order,
/// and the others came after all of them.
pub open spec fn extends(before: CallbacksModel, after: CallbacksModel) -> bool {
    &&& before.entries.len() <= after.entries.len()
    &&& after.entries.take(before.entries.len() as int) == before.entries
    &&& forall|i: int|
        before.entries.len() <= i < after.entries.len() ==> (#[trigger] after.entries[i]).id
            > before.last_id
    &&& before.last_id <= after.last_id
    &&& before.open == after.open
    &&& before.last_generation == after.last_generation
}

proof fn lemma_extends_twice(a: CallbacksModel, b: CallbacksModel, c: CallbacksModel)
    requires
        extends(a, b),
        extends(b, c),
    ensures
        extends(a, c),
{
    let n = a.entries.len() as int;
    assert(c.entries.take(n) =~= a.entries) by {
        assert forall|i: int| 0 <= i < n implies c.entries[i] == a.entries[i] by {
            assert(b.entries.take(n)[i] == a.entries[i]);
            assert(c.entries.take(b.entries.len() as int)[i] == b.entries[i]);
        }
    }
    assert forall|i: int| n <= i < c.entries.len() implies (#[trigger] c.entries[i]).id
        > a.last_id by {
        if i < b.entries.len() {
            assert(c.entries.take(b.entries.len() as int)[i] == b.entries[i]);
        }
    }
}

proof fn lemma_extends_self(a: CallbacksModel)
    ensures
        extends(a, a),
{
    assert(a.entries.take(a.entries.len() as int) =~= a.entries);
}

proof fn lemma_checked_extends(
    api: Seq<char>,
    name: Seq<char>,
    schema: ArgumentSchema,
    argument: ArgumentModel,
    context: ContextModel,
    functions: CallbacksModel,
)
    requires
        functions.last_id + schema::handlers_in(argument) <= u64::MAX,
    ensures
        extends(
            functions,
            schema::checked(api, name, schema, argument, context, functions).0,
        ),
        schema::checked(api, name, schema, argument, context, functions).0.last_id
            <= functions.last_id + schema::handlers_in(argument),
    decreases schema, 0nat,
{
    lemma_extends_self(functions);
    match (schema, argument) {
        (ArgumentSchema::Callback, ArgumentModel::Handler(handler)) => {
            let after = callbacks::registered(functions, schema::entry_for(handler, context));
            assert(after.entries.take(functions.entries.len() as int) =~= functions.entries);
        },
        (ArgumentSchema::Array(item), ArgumentModel::Array(values)) => {
            lemma_checked_all_extends(api, name, *item, values, context, functions);
        },
        (ArgumentSchema::Optional(inner), value) => {
            lemma_checked_extends(api, name, *inner, value, context, functions);
        },
        _ => {},
    }
}

proof fn lemma_checked_all_extends(
    api: Seq<char>,
    name: Seq<char>,
    schema: ArgumentSchema,
    arguments: Seq<ArgumentModel>,
    context: ContextModel,
    functions: CallbacksModel,
)
    requires
        functions.last_id + schema::handlers_in_all(arguments) <= u64::MAX,
    ensures
        extends(
            functions,
            schema::checked_all(api, name, schema, arguments, context, functions).0,
        ),
        schema::checked_all(api, name, schema, arguments, context, functions).0.last_id
            <= functions.last_id + schema::handlers_in_all(arguments),
    decreases schema, arguments.len() + 1,
{
    lemma_extends_self(functions);
    if arguments.len() > 0 {
        let shorter = arguments.drop_last();
        lemma_checked_all_extends(api, name, schema, shorter, context, functions);
        let (middle, outcome) = schema::checked_all(
            api,
            name,
            schema,
            shorter,
            context,
            functions,
        );
        if outcome is Ok {
            lemma_checked_extends(api, name, schema, arguments.last(), context, middle);
            lemma_extends_twice(
                functions,
                middle,
                schema::checked(api, name, schema, arguments.last(), context, middle).0,
            );
        }
    }
}

proof fn lemma_declared_all_extends(
    api: Seq<char>,
    descriptors: Seq<ArgumentDescriptor>,
    arguments: Seq<ArgumentModel>,
    context: ContextModel,
    functions: CallbacksModel,
)
    requires
        functions.last_id + schema::handlers_in_all(arguments) <= u64::MAX,
    ensures
        extends(functions, declared_all(api, descriptors, arguments, context, functions).0),
        declared_all(api, descriptors, arguments, context, functions).0.last_id
            <= functions.last_id + schema::handlers_in_all(
            arguments.take(
                if descriptors.len() < arguments.len() {
                    descriptors.len() as int
                } else {
                    arguments.len() as int
                },
            ),
        ),
    decreases descriptors.len(),
{
    lemma_extends_self(functions);
    if descriptors.len() > 0 {
        let fewer = descriptors.drop_last();
        lemma_declared_all_extends(api, fewer, arguments, context, functions);
        let (middle, outcome) = declared_all(api, fewer, arguments, context, functions);
        let at = descriptors.len() - 1;
        let given = argument_at(arguments, at);
        if at < arguments.len() {
            lemma_handlers_at(arguments, at);
        }
        if outcome is Ok {
            let last = declared(api, descriptors.last(), given, context, middle).0;
            if given is Some {
                lemma_checked_extends(
                    api,
                    descriptors.last().name@,
                    descriptors.last().schema,
                    given->Some_0,
                    context,
                    middle,
                );
            }
            lemma_extends_self(middle);
            lemma_extends_twice(functions, middle, last);
        }
    }
}

proof fn lemma_taken_back(before: CallbacksModel, after: CallbacksModel)
    requires
        callbacks::in_order(before),
        extends(before, after),
    ensures
        callbacks::kept(after.entries, Keep::UpTo(before.last_id)) == before.entries,
    decreases after.entries.len() - before.entries.len(),
{
    let n = before.entries.len() as int;
    if after.entries.len() == n {
        assert(after.entries.take(n) =~= after.entries);
        lemma_all_kept(before.entries, before.last_id);
    } else {
        let fewer = CallbacksModel { entries: after.entries.drop_last(), ..after };
        assert(fewer.entries.take(n) =~= after.entries.take(n));
        assert forall|i: int| n <= i < fewer.entries.len() implies (#[trigger] fewer.entries[i]).id
            > before.last_id by {
            assert(fewer.entries[i] == after.entries[i]);
        }
        lemma_taken_back(before, fewer);
        assert(after.entries[after.entries.len() - 1].id > before.last_id);
    }
}

proof fn lemma_all_kept(entries: Seq<Registered>, last: u64)
    requires
        forall|i: int| 0 <= i < entries.len() ==> (#[trigger] entries[i]).id <= last,
    ensures
        callbacks::kept(entries, Keep::UpTo(last)) == entries,
    decreases entries.len(),
{
    if entries.len() > 0 {
        assert(entries[entries.len() - 1].id <= last);
        lemma_all_kept(entries.drop_last(), last);
        assert(entries.drop_last().push(entries.last()) =~= entries);
    }
}

/// A call that is refused leaves no trace: the functions that are registered after it are those
/// that were registered before it.
pub proof fn law_refused_call_registers_nothing(
    api: Seq<char>,
    descriptors: Seq<ArgumentDescriptor>,
    arguments: Seq<ArgumentModel>,
    context: ContextModel,
    functions: CallbacksModel,
)
    requires
        callbacks::in_order(functions),
        functions.last_id + schema::handlers_in_all(arguments) <= u64::MAX,
    ensures
        taken_back(
            drafted(api, descriptors, arguments, context, functions).0,
            functions.last_id,
        ).entries == functions.entries,
        taken_back(
            drafted(api, descriptors, arguments, context, functions).0,
            functions.last_id,
        ).open == functions.open,
{
    lemma_declared_all_extends(api, descriptors, arguments, context, functions);
    lemma_extends_self(functions);
    lemma_taken_back(functions, drafted(api, descriptors, arguments, context, functions).0);
}

/// A call that succeeds gives every element in its arguments its place, and no other.
pub proof fn law_call_places_its_elements(m: ArenaModel, elements: Seq<u32>, id: u32)
    requires
        all_placed(m, elements).1 is Ok,
        id < m.nodes.len(),
    ensures
        all_placed(m, elements).0.nodes.len() == m.nodes.len(),
        all_placed(m, elements).0.nodes[id as int].claimed == (m.nodes[id as int].claimed
            || elements.contains(id)),
    decreases elements.len(),
{
    if elements.len() > 0 {
        let fewer = elements.drop_last();
        law_call_places_its_elements(m, fewer, id);
        let last = elements.last();
        assert(elements =~= fewer.push(last));
        if elements.contains(id) && !fewer.contains(id) {
            let k = choose|k: int| 0 <= k < elements.len() && elements[k] == id;
            if k < fewer.len() {
                assert(fewer[k] == id);
            }
            assert(last == id);
        }
        if fewer.contains(id) {
            let k = choose|k: int| 0 <= k < fewer.len() && fewer[k] == id;
            assert(elements[k] == id);
        }
        if last == id {
            assert(elements[elements.len() - 1] == id);
        }
        let before_last = all_placed(m, fewer).0;
        lemma_placement_length(m, fewer);
        if last != id {
            assert(all_placed(m, elements).0.nodes[id as int] == before_last.nodes[id as int]);
        }
    }
}

proof fn lemma_placement_length(m: ArenaModel, elements: Seq<u32>)
    ensures
        all_placed(m, elements).0.nodes.len() == m.nodes.len(),
    decreases elements.len(),
{
    if elements.len() > 0 {
        lemma_placement_length(m, elements.drop_last());
    }
}

/// Whether an argument is left out: there is none, or it is nothing.
pub open spec fn is_left_out(arguments: Seq<ArgumentModel>, index: int) -> bool {
    index >= arguments.len() || arguments[index] == ArgumentModel::Value(Bridged::Nil)
}

proof fn lemma_declared_given(
    api: Seq<char>,
    descriptors: Seq<ArgumentDescriptor>,
    arguments: Seq<ArgumentModel>,
    context: ContextModel,
    functions: CallbacksModel,
)
    requires
        functions.last_id + schema::handlers_in_all(arguments) <= u64::MAX,
    ensures
        ({
            let (after, answer) = declared_all(api, descriptors, arguments, context, functions);
            answer matches Ok(models) ==> {
                &&& models.len() == descriptors.len()
                &&& forall|i: int|
                    0 <= i < models.len() ==> {
                        if descriptors[i].schema is Optional && is_left_out(arguments, i) {
                            #[trigger] models[i] == CheckedModel::Optional(None)
                        } else {
                            i < arguments.len() && schema::is_given(
                                descriptors[i].schema,
                                arguments[i],
                                models[i],
                                context,
                                after.entries,
                            )
                        }
                    }
            }
        }),
    decreases descriptors.len(),
{
    if descriptors.len() > 0 {
        let fewer = descriptors.drop_last();
        lemma_declared_given(api, fewer, arguments, context, functions);
        lemma_declared_all_extends(api, fewer, arguments, context, functions);
        let (middle, first) = declared_all(api, fewer, arguments, context, functions);
        let at = descriptors.len() - 1;
        let given = argument_at(arguments, at);
        if first is Ok {
            let (after, last) = declared(api, descriptors.last(), given, context, middle);
            if at < arguments.len() {
                lemma_handlers_at(arguments, at);
                schema::law_an_accepted_argument_is_what_was_given(
                    api,
                    descriptors.last().name@,
                    descriptors.last().schema,
                    arguments[at],
                    context,
                    middle,
                );
            } else {
                assert(arguments.take(arguments.len() as int) =~= arguments);
            }
            assert(schema::extends(middle.entries, after.entries));
            if last is Ok {
                let models = first->Ok_0.push(last->Ok_0);
                assert forall|i: int| 0 <= i < models.len() implies {
                    if descriptors[i].schema is Optional && is_left_out(arguments, i) {
                        #[trigger] models[i] == CheckedModel::Optional(None)
                    } else {
                        i < arguments.len() && schema::is_given(
                            descriptors[i].schema,
                            arguments[i],
                            models[i],
                            context,
                            after.entries,
                        )
                    }
                } by {
                    if i < fewer.len() {
                        assert(fewer[i] == descriptors[i]);
                        assert(models[i] == first->Ok_0[i]);
                        if !(descriptors[i].schema is Optional && is_left_out(arguments, i)) {
                            schema::lemma_given_later(
                                descriptors[i].schema,
                                arguments[i],
                                models[i],
                                context,
                                middle.entries,
                                after.entries,
                            );
                        }
                    }
                }
            }
        }
    }
}

/// A call that is accepted has one argument for each declaration: what the script gave at that
/// place, or nothing where an optional one was left out. None is left over.
pub proof fn law_each_declaration_gets_its_argument(
    api: Seq<char>,
    descriptors: Seq<ArgumentDescriptor>,
    arguments: Seq<ArgumentModel>,
    context: ContextModel,
    functions: CallbacksModel,
)
    requires
        functions.last_id + schema::handlers_in_all(arguments) <= u64::MAX,
    ensures
        ({
            let (after, answer) = call_checked(api, descriptors, arguments, context, functions);
            answer matches Ok(models) ==> {
                &&& arguments.len() <= descriptors.len()
                &&& models.len() == descriptors.len()
                &&& forall|i: int|
                    0 <= i < models.len() ==> {
                        if descriptors[i].schema is Optional && is_left_out(arguments, i) {
                            #[trigger] models[i] == CheckedModel::Optional(None)
                        } else {
                            i < arguments.len() && schema::is_given(
                                descriptors[i].schema,
                                arguments[i],
                                models[i],
                                context,
                                after.entries,
                            )
                        }
                    }
            }
        }),
{
    lemma_declared_given(api, descriptors, arguments, context, functions);
}

/// Whether the argument at a place is of the kind that is declared, or may be left out and is.
pub open spec fn is_fitting(
    descriptors: Seq<ArgumentDescriptor>,
    arguments: Seq<ArgumentModel>,
    context: ContextModel,
    index: int,
) -> bool {
    if descriptors[index].schema is Optional && is_left_out(arguments, index) {
        true
    } else {
        index < arguments.len() && schema::is_declared(
            descriptors[index].schema,
            arguments[index],
            context,
        )
    }
}

/// A call is accepted exactly where no argument is left over and each is of the kind that is
/// declared, or is optional and left out.
pub proof fn law_a_fitting_call_is_accepted(
    api: Seq<char>,
    descriptors: Seq<ArgumentDescriptor>,
    arguments: Seq<ArgumentModel>,
    context: ContextModel,
    functions: CallbacksModel,
)
    ensures
        call_checked(api, descriptors, arguments, context, functions).1 is Ok <==> arguments.len()
            <= descriptors.len() && forall|i: int|
            0 <= i < descriptors.len() ==> #[trigger] is_fitting(
                descriptors,
                arguments,
                context,
                i,
            ),
        arguments.len() > descriptors.len() ==> match call_checked(
            api,
            descriptors,
            arguments,
            context,
            functions,
        ).1 {
            Err(ScriptError::TooManyArguments { api: called, count, plural: ending }) => called
                == api && count == descriptors.len() as u64,
            _ => false,
        },
{
    lemma_fitting(api, descriptors, arguments, context, functions);
}

proof fn lemma_fitting(
    api: Seq<char>,
    descriptors: Seq<ArgumentDescriptor>,
    arguments: Seq<ArgumentModel>,
    context: ContextModel,
    functions: CallbacksModel,
)
    ensures
        declared_all(api, descriptors, arguments, context, functions).1 is Ok <==> forall|i: int|
            0 <= i < descriptors.len() ==> #[trigger] is_fitting(
                descriptors,
                arguments,
                context,
                i,
            ),
    decreases descriptors.len(),
{
    if descriptors.len() > 0 {
        let fewer = descriptors.drop_last();
        lemma_fitting(api, fewer, arguments, context, functions);
        let (middle, first) = declared_all(api, fewer, arguments, context, functions);
        let at = descriptors.len() - 1;
        assert forall|i: int| 0 <= i < fewer.len() implies #[trigger] is_fitting(
            fewer,
            arguments,
            context,
            i,
        ) == is_fitting(descriptors, arguments, context, i) by {
            assert(fewer[i] == descriptors[i]);
        }
        if at < arguments.len() {
            schema::law_arguments_of_the_declared_kind_are_accepted(
                api,
                descriptors.last().name@,
                descriptors.last().schema,
                arguments[at],
                context,
                middle,
            );
        }
        let last = declared(
            api,
            descriptors.last(),
            argument_at(arguments, at),
            context,
            middle,
        ).1;
        assert(last is Ok <==> is_fitting(descriptors, arguments, context, at));
        if first is Ok {
            if last is Ok {
                assert forall|i: int| 0 <= i < descriptors.len() implies #[trigger] is_fitting(
                    descriptors,
                    arguments,
                    context,
                    i,
                ) by {
                    if i < fewer.len() {
                        assert(is_fitting(fewer, arguments, context, i));
                    }
                }
            }
        } else {
            let i = choose|i: int|
                0 <= i < fewer.len() && !#[trigger] is_fitting(fewer, arguments, context, i);
            assert(!is_fitting(descriptors, arguments, context, i));
        }
    }
}

proof fn lemma_first_repeat(elements: Seq<u32>)
    ensures
        match first_repeat(elements) {
            Some(element) => exists|i: int, j: int|
                0 <= i < j < elements.len() && #[trigger] elements[i] == element
                    && #[trigger] elements[j] == element,
            None => forall|i: int, j: int|
                0 <= i < j < elements.len() ==> #[trigger] elements[i] != #[trigger] elements[j],
        },
    decreases elements.len(),
{
    if elements.len() > 0 {
        let front = elements.drop_last();
        let last = elements.len() - 1;
        lemma_first_repeat(front);
        match first_repeat(front) {
            Some(element) => {
                let (i, j) = choose|i: int, j: int|
                    0 <= i < j < front.len() && #[trigger] front[i] == element
                        && #[trigger] front[j] == element;
                assert(elements[i] == element && elements[j] == element);
            },
            None => {
                if front.contains(elements.last()) {
                    let i = choose|i: int| 0 <= i < front.len() && front[i] == elements.last();
                    assert(elements[i] == elements[last]);
                } else {
                    assert forall|i: int, j: int| 0 <= i < j < elements.len() implies
                        #[trigger] elements[i] != #[trigger] elements[j] by {
                        assert(front[i] == elements[i]);
                        if j < last {
                            assert(front[j] == elements[j]);
                        }
                    }
                }
            },
        }
    }
}

/// A call is refused for an element exactly where the element stands in its arguments twice.
pub proof fn law_no_element_stands_in_a_call_twice(
    api: Seq<char>,
    descriptors: Seq<ArgumentDescriptor>,
    arguments: Seq<ArgumentModel>,
    context: ContextModel,
    functions: CallbacksModel,
)
    ensures
        ({
            let checked = call_checked(api, descriptors, arguments, context, functions);
            let (after, answer) = drafted(api, descriptors, arguments, context, functions);
            &&& after == checked.0
            &&& match checked.1 {
                Err(error) => answer == Err::<Seq<CheckedModel>, ScriptError<Seq<char>>>(error),
                Ok(models) => {
                    let elements = schema::elements_in_all(models);
                    match answer {
                        Ok(drafted) => drafted == models && forall|i: int, j: int|
                            0 <= i < j < elements.len() ==> #[trigger] elements[i]
                                != #[trigger] elements[j],
                        Err(ScriptError::ElementTwice { api: called, id }) => called == api
                            && exists|i: int, j: int|
                            0 <= i < j < elements.len() && #[trigger] elements[i] as u64 == id
                                && #[trigger] elements[j] as u64 == id,
                        Err(_) => false,
                    }
                },
            }
        }),
{
    let checked = call_checked(api, descriptors, arguments, context, functions);
    match checked.1 {
        Ok(models) => {
            lemma_first_repeat(schema::elements_in_all(models));
        },
        Err(_) => {},
    }
}

/// Placing elements changes nothing but that they have their places: no element becomes another or
/// loses what is recorded on it. It succeeds where all of them exist, none has a place and none
/// stands among them twice.
pub proof fn law_placing_changes_nothing_else(m: ArenaModel, elements: Seq<u32>)
    ensures
        ({
            let (after, answer) = all_placed(m, elements);
            &&& after.nodes.len() == m.nodes.len()
            &&& after.virtual_items == m.virtual_items
            &&& forall|i: int|
                0 <= i < m.nodes.len() ==> (#[trigger] after.nodes[i]).component
                    == m.nodes[i].component && after.nodes[i].ops == m.nodes[i].ops && (
                m.nodes[i].claimed ==> after.nodes[i].claimed)
            &&& (forall|i: int|
                0 <= i < elements.len() ==> (#[trigger] elements[i]) < m.nodes.len()
                    && !m.nodes[elements[i] as int].claimed) && (forall|i: int, j: int|
                0 <= i < j < elements.len() ==> #[trigger] elements[i] != #[trigger] elements[j])
                ==> answer is Ok
        }),
    decreases elements.len(),
{
    if elements.len() > 0 {
        let fewer = elements.drop_last();
        law_placing_changes_nothing_else(m, fewer);
        let (middle, first) = all_placed(m, fewer);
        assert forall|i: int| 0 <= i < fewer.len() implies fewer[i] == #[trigger] elements[i] by {}
        if (forall|i: int|
            0 <= i < elements.len() ==> (#[trigger] elements[i]) < m.nodes.len()
                && !m.nodes[elements[i] as int].claimed) && (forall|i: int, j: int|
            0 <= i < j < elements.len() ==> #[trigger] elements[i] != #[trigger] elements[j]) {
            assert forall|i: int| 0 <= i < fewer.len() implies (#[trigger] fewer[i])
                < m.nodes.len() && !m.nodes[fewer[i] as int].claimed by {
                assert(elements[i] == fewer[i]);
            }
            assert forall|i: int, j: int| 0 <= i < j < fewer.len() implies #[trigger] fewer[i]
                != #[trigger] fewer[j] by {
                assert(elements[i] == fewer[i] && elements[j] == fewer[j]);
            }
            let last = elements[elements.len() - 1];
            assert(!fewer.contains(last)) by {
                if fewer.contains(last) {
                    let k = choose|k: int| 0 <= k < fewer.len() && fewer[k] == last;
                    assert(elements[k] == last);
                }
            }
            law_call_places_its_elements(m, fewer, last);
        }
    }
}

/// What a component made is what its call answers; where it refused, its words are the error and no
/// element gets a place.
pub proof fn law_a_call_answers_what_was_made(
    m: ArenaModel,
    elements: Seq<u32>,
    made: Result<u64, Seq<char>>,
)
    ensures
        ({
            let (after, answer) = finished(m, elements, made);
            match made {
                Err(words) => after == m && answer == Err::<u64, ScriptError<Seq<char>>>(
                    ScriptError::Factory { message: words },
                ),
                Ok(payload) => {
                    &&& after == all_placed(m, elements).0
                    &&& answer is Ok <==> all_placed(m, elements).1 is Ok
                    &&& answer matches Ok(answered) ==> answered == payload
                },
            }
        }),
{
}

/// One thing is named in the singular and any other number in the plural.
pub proof fn law_one_is_no_plural(count: nat)
    ensures
        plural(count).len() == 0 <==> count == 1,
        count != 1 ==> plural(count) == seq!['s'],
{
    reveal_strlit("");
    reveal_strlit("s");
    assert(count != 1 ==> plural(count) =~= seq!['s']);
}

} // verus!
