//! What a registered component declares of its arguments, and the check of a call against it.
use crate::arena::SpecArena;
use crate::arena;
use crate::argument::Argument;
use crate::argument::ArgumentModel;
use crate::argument::Arguments;
use crate::argument::Bridged;
use crate::argument;
use crate::callbacks::CallbackArena;
use crate::callbacks::CallbackEntry;
use crate::callbacks::CallbacksModel;
use crate::callbacks;
use crate::error::Fault;
use crate::error::ScriptError;
use crate::error;
use crate::number::Number;
use crate::number;
use crate::scope::HostScope;
use crate::scope;
use crate::states::Borrowed;
use crate::states::RetainedStates;
use crate::states::StatesModel;
use crate::states;
use crate::text;
use vstd::prelude::*;
use vstd::string::*;

verus! {

/// What an argument has to be.
pub enum ArgumentSchema {
    String,
    Number,
    Boolean,
    Element,
    /// An entity of the given kind.
    Entity(String),
    Callback,
    /// One of the given texts.
    Enum(Vec<String>),
    Array(Box<ArgumentSchema>),
    Optional(Box<ArgumentSchema>),
}

/// A declared argument.
pub struct ArgumentDescriptor {
    pub name: String,
    pub schema: ArgumentSchema,
}

/// An argument that was found to be as declared.
pub enum ComponentArgument {
    String(String),
    Number(Number),
    Boolean(bool),
    Element(u32),
    Entity { kind: String, handle: u64 },
    Callback(u64),
    Enum(String),
    Array(Vec<ComponentArgument>),
    Optional(Option<Box<ComponentArgument>>),
}

/// An argument that was found to be as declared, with sequences in place of strings and vectors.
pub enum CheckedModel {
    String(Seq<char>),
    Number(Number),
    Boolean(bool),
    Element(u32),
    Entity { kind: Seq<char>, handle: u64 },
    Callback(u64),
    Enum(Seq<char>),
    Array(Seq<CheckedModel>),
    Optional(Option<Box<CheckedModel>>),
}

impl ComponentArgument {
    /// The argument that this stands for.
    pub open spec fn model(self) -> CheckedModel
        decreases self,
    {
        match self {
            ComponentArgument::String(value) => CheckedModel::String(value@),
            ComponentArgument::Number(value) => CheckedModel::Number(value),
            ComponentArgument::Boolean(value) => CheckedModel::Boolean(value),
            ComponentArgument::Element(element) => CheckedModel::Element(element),
            ComponentArgument::Entity { kind, handle } => CheckedModel::Entity {
                kind: kind@,
                handle,
            },
            ComponentArgument::Callback(callback) => CheckedModel::Callback(callback),
            ComponentArgument::Enum(value) => CheckedModel::Enum(value@),
            ComponentArgument::Array(items) => CheckedModel::Array(
                Seq::new(
                    items@.len(),
                    |i: int|
                        if 0 <= i < items@.len() {
                            items@[i].model()
                        } else {
                            arbitrary()
                        },
                ),
            ),
            ComponentArgument::Optional(inner) => CheckedModel::Optional(
                match inner {
                    Some(argument) => Some(Box::new(argument.model())),
                    None => None,
                },
            ),
        }
    }
}

/// The arguments that a list stands for.
pub open spec fn checked_models(items: Seq<ComponentArgument>) -> Seq<CheckedModel> {
    Seq::new(items.len(), |i: int| items[i].model())
}

/// The given texts, each between backquotes.
pub open spec fn quoted(values: Seq<Seq<char>>) -> Seq<Seq<char>> {
    values.map_values(|value: Seq<char>| "`"@ + value + "`"@)
}

/// What an error says was expected.
pub open spec fn schema_text(schema: ArgumentSchema) -> Seq<char>
    decreases schema,
{
    match schema {
        ArgumentSchema::String => "a string"@,
        ArgumentSchema::Number => "a finite number"@,
        ArgumentSchema::Boolean => "a boolean"@,
        ArgumentSchema::Element => "an Element"@,
        ArgumentSchema::Entity(kind) => "a "@ + kind@ + " entity"@,
        ArgumentSchema::Callback => "a function"@,
        ArgumentSchema::Enum(values) => text::joined(quoted(text::texts(values@)), ", "@),
        ArgumentSchema::Array(item) => "an array of "@ + schema_text(*item),
        ArgumentSchema::Optional(item) => "an optional "@ + schema_text(*item),
    }
}

fn quote_all(values: &Vec<String>) -> (r: Vec<String>)
    ensures
        text::texts(r@) == quoted(text::texts(values@)),
{
    let mut out: Vec<String> = Vec::new();
    let mut i: usize = 0;
    while i < values.len()
        invariant
            i <= values@.len(),
            out@.len() == i,
            forall|j: int| 0 <= j < i ==> (#[trigger] out@[j])@ == "`"@ + values@[j]@ + "`"@,
        decreases values@.len() - i,
    {
        out.push(text::join3("`", values[i].as_str(), "`"));
        i += 1;
    }
    assert(text::texts(out@) =~= quoted(text::texts(values@)));
    out
}

/// What an error says was expected.
pub fn schema_name(schema: &ArgumentSchema) -> (r: String)
    ensures
        r@ == schema_text(*schema),
    decreases schema,
{
    match schema {
        ArgumentSchema::String => "a string".to_owned(),
        ArgumentSchema::Number => "a finite number".to_owned(),
        ArgumentSchema::Boolean => "a boolean".to_owned(),
        ArgumentSchema::Element => "an Element".to_owned(),
        ArgumentSchema::Entity(kind) => text::join3("a ", kind.as_str(), " entity"),
        ArgumentSchema::Callback => "a function".to_owned(),
        ArgumentSchema::Enum(values) => {
            let listed = quote_all(values);
            text::join_all(&listed, ", ")
        },
        ArgumentSchema::Array(item) => {
            let inner = schema_name(item);
            text::join2("an array of ", inner.as_str())
        },
        ArgumentSchema::Optional(item) => {
            let inner = schema_name(item);
            text::join2("an optional ", inner.as_str())
        },
    }
}

/// The elements in an argument, first to last.
pub open spec fn elements_in(argument: CheckedModel) -> Seq<u32>
    decreases argument,
{
    match argument {
        CheckedModel::Element(element) => seq![element],
        CheckedModel::Array(items) => elements_in_all(items),
        CheckedModel::Optional(Some(inner)) => elements_in(*inner),
        _ => Seq::empty(),
    }
}

/// The elements in arguments, first to last.
pub open spec fn elements_in_all(arguments: Seq<CheckedModel>) -> Seq<u32>
    decreases arguments,
{
    if arguments.len() == 0 {
        Seq::empty()
    } else {
        elements_in_all(arguments.drop_last()) + elements_in(arguments.last())
    }
}

/// Adds the elements in an argument to a list.
pub fn collect_component_elements(argument: &ComponentArgument, elements: &mut Vec<u32>)
    ensures
        final(elements)@ == old(elements)@ + elements_in(argument.model()),
    decreases argument,
{
    let ghost before = elements@;
    match argument {
        ComponentArgument::Element(element) => {
            elements.push(*element);
            assert(elements@ =~= before + seq![*element]);
        },
        ComponentArgument::Array(items) => {
            let mut i: usize = 0;
            let ghost models = checked_models(items@);
            assert(models.take(0) =~= Seq::empty());
            assert(before + Seq::<u32>::empty() =~= before);
            while i < items.len()
                invariant
                    argument is Array,
                    *items == argument->Array_0,
                    models == checked_models(items@),
                    i <= items@.len(),
                    elements@ == before + elements_in_all(models.take(i as int)),
                decreases items@.len() - i,
            {
                assert(models.take(i + 1).drop_last() =~= models.take(i as int));
                assert(models.take(i + 1).last() == items@[i as int].model());
                collect_component_elements(&items[i], elements);
                assert(elements@ =~= before + elements_in_all(models.take(i + 1)));
                i += 1;
            }
            assert(models.take(i as int) =~= models);
            assert(argument.model()->Array_0 =~= models);
        },
        ComponentArgument::Optional(inner) => match inner {
            Some(value) => {
                collect_component_elements(value, elements);
            },
            None => {
                assert(elements@ =~= before + Seq::<u32>::empty());
            },
        },
        _ => {
            assert(elements@ =~= before + Seq::<u32>::empty());
        },
    }
}

/// The kinds of the entities that exist.
pub struct EntityKind {
    pub handle: u64,
    pub kind: String,
}

/// The kind of the entity with a handle.
pub open spec fn entity_kind(entities: Seq<EntityKind>, handle: u64) -> Option<Seq<char>>
    decreases entities.len(),
{
    if entities.len() == 0 {
        None
    } else if entities.last().handle == handle {
        Some(entities.last().kind@)
    } else {
        entity_kind(entities.drop_last(), handle)
    }
}

fn entity_is(entities: &Vec<EntityKind>, handle: u64, kind: &str) -> (r: bool)
    ensures
        r == (entity_kind(entities@, handle) == Some(kind@)),
{
    let mut i: usize = entities.len();
    let ghost all = entities@;
    assert(all.take(i as int) =~= all);
    while i > 0
        invariant
            i <= all.len(),
            all == entities@,
            entity_kind(all, handle) == entity_kind(all.take(i as int), handle),
        decreases i,
    {
        assert(all.take(i as int).drop_last() =~= all.take(i - 1));
        assert(all.take(i as int).last() == all[i - 1]);
        i -= 1;
        if entities[i].handle == handle {
            return text::same(entities[i].kind.as_str(), kind);
        }
    }
    false
}

/// What a check looks at besides the call: the description, the entities, the retained states and
/// the proof that their handles carry, and the call in progress with its number.
pub struct CheckContext<'a> {
    pub arena: &'a SpecArena,
    pub entities: &'a Vec<EntityKind>,
    pub states: &'a RetainedStates,
    pub proof: &'a str,
    pub scope: HostScope,
    pub call: Option<u64>,
}

/// What a check looks at besides the call.
pub struct ContextModel {
    pub arena: arena::ArenaModel,
    pub entities: Seq<EntityKind>,
    pub states: StatesModel,
    pub proof: Seq<char>,
    pub scope: HostScope,
    pub call: Option<u64>,
}

/// What a check looks at, as a statement speaks of it.
pub open spec fn context_view(context: CheckContext) -> ContextModel {
    ContextModel {
        arena: context.arena@,
        entities: context.entities@,
        states: context.states@,
        proof: context.proof@,
        scope: context.scope,
        call: context.call,
    }
}

/// How a function is registered in the call in progress.
pub open spec fn entry_for(handler: u64, context: ContextModel) -> CallbackEntry {
    CallbackEntry {
        value: handler,
        view: context.scope.view,
        application: scope::current_generation(context.scope),
        registered_in: context.call,
    }
}

/// The error of an argument that is not as declared.
pub open spec fn expected_error(api: Seq<char>, name: Seq<char>, schema: ArgumentSchema) -> ScriptError<
    Seq<char>,
> {
    ScriptError::ArgumentExpected { api, name, expected: schema_text(schema) }
}

/// What an argument comes to against its declaration, with the functions that are registered after
/// it.
pub open spec fn checked(
    api: Seq<char>,
    name: Seq<char>,
    schema: ArgumentSchema,
    argument: ArgumentModel,
    context: ContextModel,
    functions: CallbacksModel,
) -> (CallbacksModel, Result<CheckedModel, ScriptError<Seq<char>>>)
    decreases schema, 0nat,
{
    let wrong = (functions, Err(expected_error(api, name, schema)));
    match (schema, argument) {
        (ArgumentSchema::String, ArgumentModel::Value(Bridged::Str(value))) => (
            functions,
            Ok(CheckedModel::String(value)),
        ),
        (ArgumentSchema::Number, ArgumentModel::Value(Bridged::Number(value))) => {
            if number::wide_finite(value.wide) {
                (functions, Ok(CheckedModel::Number(value)))
            } else {
                wrong
            }
        },
        (ArgumentSchema::Boolean, ArgumentModel::Value(Bridged::Bool(value))) => (
            functions,
            Ok(CheckedModel::Boolean(value)),
        ),
        (ArgumentSchema::Element, ArgumentModel::Element(element)) => {
            match arena::claim_error(context.arena, element) {
                Some(error) => (functions, Err(error)),
                None => (functions, Ok(CheckedModel::Element(element))),
            }
        },
        (ArgumentSchema::Entity(kind), ArgumentModel::Entity(handle)) => {
            if entity_kind(context.entities, handle) == Some(kind@) {
                (functions, Ok(CheckedModel::Entity { kind: kind@, handle }))
            } else {
                wrong
            }
        },
        (ArgumentSchema::Entity(kind), ArgumentModel::RetainedState { handle, proof }) => {
            if proof != context.proof {
                wrong
            } else if context.states.borrowed == Borrowed::Exclusive {
                (functions, Err(ScriptError::Fixed(Fault::StateReadBorrowed)))
            } else if states::lookup(context.states.states, handle) matches Some(state)
                && state.kind == kind@ {
                (functions, Ok(CheckedModel::Entity { kind: kind@, handle }))
            } else {
                wrong
            }
        },
        (ArgumentSchema::Callback, ArgumentModel::Handler(handler)) => (
            callbacks::registered(functions, entry_for(handler, context)),
            Ok(CheckedModel::Callback((functions.last_id + 1) as u64)),
        ),
        (ArgumentSchema::Enum(values), ArgumentModel::Value(Bridged::Str(value))) => {
            if text::texts(values@).contains(value) {
                (functions, Ok(CheckedModel::Enum(value)))
            } else {
                wrong
            }
        },
        (ArgumentSchema::Array(item), ArgumentModel::Array(values)) => {
            match checked_all(api, name, *item, values, context, functions) {
                (after, Ok(models)) => (after, Ok(CheckedModel::Array(models))),
                (after, Err(error)) => (after, Err(error)),
            }
        },
        (ArgumentSchema::Optional(inner), value) => {
            match checked(api, name, *inner, value, context, functions) {
                (after, Ok(model)) => (after, Ok(CheckedModel::Optional(Some(Box::new(model))))),
                (after, Err(error)) => (after, Err(error)),
            }
        },
        _ => wrong,
    }
}

/// What the items of an array come to against the declaration of one, first to last.
pub open spec fn checked_all(
    api: Seq<char>,
    name: Seq<char>,
    schema: ArgumentSchema,
    arguments: Seq<ArgumentModel>,
    context: ContextModel,
    functions: CallbacksModel,
) -> (CallbacksModel, Result<Seq<CheckedModel>, ScriptError<Seq<char>>>)
    decreases schema, arguments.len() + 1,
{
    if arguments.len() == 0 {
        (functions, Ok(Seq::empty()))
    } else {
        match checked_all(api, name, schema, arguments.drop_last(), context, functions) {
            (after, Err(error)) => (after, Err(error)),
            (after, Ok(models)) => match checked(
                api,
                name,
                schema,
                arguments.last(),
                context,
                after,
            ) {
                (last, Ok(model)) => (last, Ok(models.push(model))),
                (last, Err(error)) => (last, Err(error)),
            },
        }
    }
}

/// How many functions an argument holds.
pub open spec fn handlers_in(argument: ArgumentModel) -> nat
    decreases argument,
{
    match argument {
        ArgumentModel::Handler(_) => 1,
        ArgumentModel::Array(items) => handlers_in_all(items),
        _ => 0,
    }
}

/// How many functions arguments hold.
pub open spec fn handlers_in_all(arguments: Seq<ArgumentModel>) -> nat
    decreases arguments,
{
    if arguments.len() == 0 {
        0
    } else {
        handlers_in_all(arguments.drop_last()) + handlers_in(arguments.last())
    }
}

proof fn lemma_handlers_prefix(arguments: Seq<ArgumentModel>, upto: int)
    requires
        0 <= upto <= arguments.len(),
    ensures
        handlers_in_all(arguments.take(upto)) <= handlers_in_all(arguments),
    decreases arguments.len() - upto,
{
    if upto == arguments.len() {
        assert(arguments.take(upto) =~= arguments);
    } else {
        assert(arguments.take(upto + 1).drop_last() =~= arguments.take(upto));
        lemma_handlers_prefix(arguments, upto + 1);
    }
}

proof fn lemma_checked_stop(
    api: Seq<char>,
    name: Seq<char>,
    schema: ArgumentSchema,
    arguments: Seq<ArgumentModel>,
    context: ContextModel,
    functions: CallbacksModel,
    upto: int,
)
    requires
        0 <= upto <= arguments.len(),
        checked_all(api, name, schema, arguments.take(upto), context, functions).1 is Err,
    ensures
        checked_all(api, name, schema, arguments, context, functions) == checked_all(
            api,
            name,
            schema,
            arguments.take(upto),
            context,
            functions,
        ),
    decreases arguments.len() - upto,
{
    if upto == arguments.len() {
        assert(arguments.take(upto) =~= arguments);
    } else {
        assert(arguments.take(upto + 1).drop_last() =~= arguments.take(upto));
        lemma_checked_stop(api, name, schema, arguments, context, functions, upto + 1);
    }
}

/// Whether an answer is the one that is owed.
pub open spec fn answers(
    answer: Result<ComponentArgument, ScriptError<String>>,
    owed: Result<CheckedModel, ScriptError<Seq<char>>>,
) -> bool {
    match (answer, owed) {
        (Ok(argument), Ok(model)) => argument.model() == model,
        (Err(error), Err(expected)) => error::error_view(error) == expected,
        _ => false,
    }
}

fn wrong(api: &str, name: &str, schema: &ArgumentSchema) -> (r: Result<
    ComponentArgument,
    ScriptError<String>,
>)
    ensures
        answers(r, Err(expected_error(api@, name@, *schema))),
{
    Err(
        ScriptError::ArgumentExpected {
            api: api.to_owned(),
            name: name.to_owned(),
            expected: schema_name(schema),
        },
    )
}

/// Checks one argument against what is declared of it.
pub fn validate_component_argument_kind(
    api: &str,
    name: &str,
    schema: &ArgumentSchema,
    argument: &Argument,
    context: &CheckContext,
    functions: &mut CallbackArena,
) -> (r: Result<ComponentArgument, ScriptError<String>>)
    requires
        callbacks::in_order(old(functions)@),
        old(functions)@.last_id + handlers_in(argument.model()) <= u64::MAX,
    ensures
        final(functions)@ == checked(
            api@,
            name@,
            *schema,
            argument.model(),
            context_view(*context),
            old(functions)@,
        ).0,
        answers(
            r,
            checked(
                api@,
                name@,
                *schema,
                argument.model(),
                context_view(*context),
                old(functions)@,
            ).1,
        ),
        callbacks::in_order(final(functions)@),
        final(functions)@.last_id <= old(functions)@.last_id + handlers_in(argument.model()),
    decreases schema, 0nat,
{
    match (schema, argument) {
        (ArgumentSchema::String, Argument::Value(Bridged::Str(value))) => Ok(
            ComponentArgument::String(value.as_str().to_owned()),
        ),
        (ArgumentSchema::Number, Argument::Value(Bridged::Number(value))) => {
            if value.is_finite() {
                Ok(ComponentArgument::Number(*value))
            } else {
                wrong(api, name, schema)
            }
        },
        (ArgumentSchema::Boolean, Argument::Value(Bridged::Bool(value))) => Ok(
            ComponentArgument::Boolean(*value),
        ),
        (ArgumentSchema::Element, Argument::Element(element)) => {
            match context.arena.ensure_claimable(*element) {
                Ok(()) => Ok(ComponentArgument::Element(*element)),
                Err(error) => Err(error),
            }
        },
        (ArgumentSchema::Entity(kind), Argument::Entity(handle)) => {
            if entity_is(context.entities, *handle, kind.as_str()) {
                Ok(ComponentArgument::Entity { kind: kind.as_str().to_owned(), handle: *handle })
            } else {
                wrong(api, name, schema)
            }
        },
        (ArgumentSchema::Entity(kind), Argument::RetainedState { handle, proof }) => {
            if !text::same(proof.as_str(), context.proof) {
                return wrong(api, name, schema);
            }
            match context.states.kind_of(*handle) {
                Err(_) => Err(ScriptError::Fixed(Fault::StateReadBorrowed)),
                Ok(found) => match found {
                    Some(own) => if text::same(own.as_str(), kind.as_str()) {
                        Ok(
                            ComponentArgument::Entity {
                                kind: kind.as_str().to_owned(),
                                handle: *handle,
                            },
                        )
                    } else {
                        wrong(api, name, schema)
                    },
                    None => wrong(api, name, schema),
                },
            }
        },
        (ArgumentSchema::Callback, Argument::Handler(handler)) => {
            let callback: u64 = functions.push(
                CallbackEntry {
                    value: *handler,
                    view: context.scope.view,
                    application: context.scope.generation(),
                    registered_in: context.call,
                },
            );
            Ok(ComponentArgument::Callback(callback))
        },
        (ArgumentSchema::Enum(values), Argument::Value(Bridged::Str(value))) => {
            if text::listed(values, value.as_str()) {
                Ok(ComponentArgument::Enum(value.as_str().to_owned()))
            } else {
                wrong(api, name, schema)
            }
        },
        (ArgumentSchema::Array(item), Argument::Array(values)) => {
            let ghost models = argument::argument_models(values@);
            assert(argument.model()->Array_0 =~= models);
            match validate_items(api, name, item, values, context, functions) {
                Ok(validated) => {
                    let out = ComponentArgument::Array(validated);
                    assert(out.model()->Array_0 =~= checked_models(validated@));
                    Ok(out)
                },
                Err(error) => Err(error),
            }
        },
        (ArgumentSchema::Optional(inner), value) => {
            match validate_component_argument_kind(api, name, inner, value, context, functions) {
                Ok(validated) => Ok(ComponentArgument::Optional(Some(Box::new(validated)))),
                Err(error) => Err(error),
            }
        },
        _ => wrong(api, name, schema),
    }
}

fn validate_items(
    api: &str,
    name: &str,
    schema: &ArgumentSchema,
    values: &Vec<Argument>,
    context: &CheckContext,
    functions: &mut CallbackArena,
) -> (r: Result<Vec<ComponentArgument>, ScriptError<String>>)
    requires
        callbacks::in_order(old(functions)@),
        old(functions)@.last_id + handlers_in_all(argument::argument_models(values@)) <= u64::MAX,
    ensures
        ({
            let owed = checked_all(
                api@,
                name@,
                *schema,
                argument::argument_models(values@),
                context_view(*context),
                old(functions)@,
            );
            &&& final(functions)@ == owed.0
            &&& match (r, owed.1) {
                (Ok(arguments), Ok(models)) => checked_models(arguments@) == models,
                (Err(error), Err(expected)) => error::error_view(error) == expected,
                _ => false,
            }
        }),
        callbacks::in_order(final(functions)@),
        final(functions)@.last_id <= old(functions)@.last_id + handlers_in_all(
            argument::argument_models(values@),
        ),
    decreases schema, values@.len() + 1,
{
    let mut out: Vec<ComponentArgument> = Vec::new();
    let mut i: usize = 0;
    let ghost models = argument::argument_models(values@);
    let ghost start = functions@;
    let ghost view = context_view(*context);
    assert(models.take(0) =~= Seq::empty());
    assert(checked_models(out@) =~= Seq::empty());
    while i < values.len()
        invariant
            i <= values@.len(),
            models == argument::argument_models(values@),
            view == context_view(*context),
            start == old(functions)@,
            callbacks::in_order(functions@),
            start.last_id + handlers_in_all(models) <= u64::MAX,
            functions@.last_id <= start.last_id + handlers_in_all(models.take(i as int)),
            checked_all(api@, name@, *schema, models.take(i as int), view, start) == (
                functions@,
                Ok::<Seq<CheckedModel>, ScriptError<Seq<char>>>(checked_models(out@)),
            ),
        decreases values@.len() - i,
    {
        let ghost before = out@;
        assert(models.take(i + 1).drop_last() =~= models.take(i as int));
        assert(models.take(i + 1).last() == values@[i as int].model());
        proof {
            lemma_handlers_prefix(models, i + 1);
            if checked_all(api@, name@, *schema, models.take(i + 1), view, start).1 is Err {
                lemma_checked_stop(api@, name@, *schema, models, view, start, i + 1);
            }
        }
        match validate_component_argument_kind(api, name, schema, &values[i], context, functions) {
            Ok(validated) => {
                out.push(validated);
                assert(checked_models(out@) =~= checked_models(before).push(validated.model()));
            },
            Err(error) => {
                return Err(error);
            },
        }
        i += 1;
    }
    assert(models.take(i as int) =~= models);
    Ok(out)
}

/// A handle to a component state that does not carry the runtime's own proof is refused, whatever
/// state it names, and no function is registered.
pub proof fn law_a_forged_handle_is_refused(
    api: Seq<char>,
    name: Seq<char>,
    kind: String,
    handle: u64,
    proof: Seq<char>,
    context: ContextModel,
    functions: CallbacksModel,
)
    requires
        proof != context.proof,
    ensures
        checked(
            api,
            name,
            ArgumentSchema::Entity(kind),
            ArgumentModel::RetainedState { handle, proof },
            context,
            functions,
        ).1 is Err,
        checked(
            api,
            name,
            ArgumentSchema::Entity(kind),
            ArgumentModel::RetainedState { handle, proof },
            context,
            functions,
        ).0 == functions,
{
}

/// Whether a number is that of a registered function: the given one, for the view, application and
/// call of a check.
pub open spec fn names_function(
    entries: Seq<callbacks::Registered>,
    number: u64,
    handler: u64,
    context: ContextModel,
) -> bool {
    exists|i: int|
        0 <= i < entries.len() && {
            &&& (#[trigger] entries[i]).id == number
            &&& entries[i].entry.value == handler
            &&& entries[i].entry.view == context.scope.view
            &&& entries[i].entry.registered_in == context.call
            &&& match context.scope.application {
                Some(current) => entries[i].entry.application == Some(current.generation),
                None => entries[i].entry.application is None,
            }
        }
}

/// Whether a checked argument is what a script gave, under the kind that was declared. `entries`
/// are the functions that are registered afterwards.
pub open spec fn is_given(
    schema: ArgumentSchema,
    argument: ArgumentModel,
    model: CheckedModel,
    context: ContextModel,
    entries: Seq<callbacks::Registered>,
) -> bool
    decreases schema,
{
    match (schema, argument, model) {
        (
            ArgumentSchema::String,
            ArgumentModel::Value(Bridged::Str(given)),
            CheckedModel::String(found),
        ) => found == given,
        (
            ArgumentSchema::Number,
            ArgumentModel::Value(Bridged::Number(given)),
            CheckedModel::Number(found),
        ) => found == given && given.wide % 0x8000_0000_0000_0000 < 0x7FF0_0000_0000_0000,
        (
            ArgumentSchema::Boolean,
            ArgumentModel::Value(Bridged::Bool(given)),
            CheckedModel::Boolean(found),
        ) => found == given,
        (ArgumentSchema::Element, ArgumentModel::Element(given), CheckedModel::Element(found)) => {
            found == given && given < context.arena.nodes.len()
                && !context.arena.nodes[given as int].claimed
        },
        (
            ArgumentSchema::Entity(wanted),
            ArgumentModel::Entity(given),
            CheckedModel::Entity { kind, handle },
        ) => {
            &&& handle == given
            &&& kind == wanted@
            &&& exists|i: int|
                0 <= i < context.entities.len() && (#[trigger] context.entities[i]).handle == given
                    && context.entities[i].kind@ == wanted@
        },
        (
            ArgumentSchema::Entity(wanted),
            ArgumentModel::RetainedState { handle: given, proof },
            CheckedModel::Entity { kind, handle },
        ) => {
            &&& handle == given
            &&& kind == wanted@
            &&& proof == context.proof
            &&& states::lookup(context.states.states, given) matches Some(state) && state.kind
                == wanted@
        },
        (
            ArgumentSchema::Callback,
            ArgumentModel::Handler(given),
            CheckedModel::Callback(number),
        ) => names_function(entries, number, given, context),
        (
            ArgumentSchema::Enum(values),
            ArgumentModel::Value(Bridged::Str(given)),
            CheckedModel::Enum(found),
        ) => found == given && exists|i: int|
            0 <= i < values@.len() && (#[trigger] values@[i])@ == given,
        (ArgumentSchema::Array(item), ArgumentModel::Array(given), CheckedModel::Array(found)) => {
            &&& found.len() == given.len()
            &&& forall|i: int|
                0 <= i < given.len() ==> is_given(
                    *item,
                    #[trigger] given[i],
                    found[i],
                    context,
                    entries,
                )
        },
        (ArgumentSchema::Optional(inner), given, CheckedModel::Optional(Some(found))) => is_given(
            *inner,
            given,
            *found,
            context,
            entries,
        ),
        _ => false,
    }
}

/// Whether some functions are registered with all those registered earlier before them.
pub open spec fn extends(earlier: Seq<callbacks::Registered>, later: Seq<callbacks::Registered>) -> bool {
    &&& earlier.len() <= later.len()
    &&& forall|i: int| 0 <= i < earlier.len() ==> #[trigger] later[i] == earlier[i]
}

/// What is given stays so while more functions are registered.
pub proof fn lemma_given_later(
    schema: ArgumentSchema,
    argument: ArgumentModel,
    model: CheckedModel,
    context: ContextModel,
    earlier: Seq<callbacks::Registered>,
    later: Seq<callbacks::Registered>,
)
    requires
        is_given(schema, argument, model, context, earlier),
        extends(earlier, later),
    ensures
        is_given(schema, argument, model, context, later),
    decreases schema,
{
    match (schema, argument, model) {
        (
            ArgumentSchema::Callback,
            ArgumentModel::Handler(given),
            CheckedModel::Callback(number),
        ) => {
            let i = choose|i: int|
                0 <= i < earlier.len() && {
                    &&& (#[trigger] earlier[i]).id == number
                    &&& earlier[i].entry.value == given
                    &&& earlier[i].entry.view == context.scope.view
                    &&& earlier[i].entry.registered_in == context.call
                    &&& match context.scope.application {
                        Some(current) => earlier[i].entry.application == Some(current.generation),
                        None => earlier[i].entry.application is None,
                    }
                };
            assert(later[i] == earlier[i]);
        },
        (ArgumentSchema::Array(item), ArgumentModel::Array(given), CheckedModel::Array(found)) => {
            assert forall|i: int| 0 <= i < given.len() implies is_given(
                *item,
                #[trigger] given[i],
                found[i],
                context,
                later,
            ) by {
                lemma_given_later(*item, given[i], found[i], context, earlier, later);
            }
        },
        (ArgumentSchema::Optional(inner), given, CheckedModel::Optional(Some(found))) => {
            lemma_given_later(*inner, given, *found, context, earlier, later);
        },
        _ => {},
    }
}

proof fn lemma_entity_kind(entities: Seq<EntityKind>, handle: u64)
    ensures
        entity_kind(entities, handle) matches Some(kind) ==> exists|i: int|
            0 <= i < entities.len() && (#[trigger] entities[i]).handle == handle
                && entities[i].kind@ == kind,
    decreases entities.len(),
{
    if entities.len() > 0 {
        assert(entities[entities.len() - 1] == entities.last());
        let rest = entities.drop_last();
        lemma_entity_kind(rest, handle);
        if entities.last().handle != handle && entity_kind(rest, handle) is Some {
            let kind = entity_kind(rest, handle)->Some_0;
            let i = choose|i: int|
                0 <= i < rest.len() && (#[trigger] rest[i]).handle == handle && rest[i].kind@
                    == kind;
            assert(entities[i] == rest[i]);
        }
    }
}

/// An argument that is accepted is what the script gave, at every level: the same text, number,
/// truth value or element, the entity its handle names, an array's items one by one and in their
/// order. Of a function there is the number it was registered under. What was registered before
/// stays, and there are as many new functions as the argument holds.
pub proof fn law_an_accepted_argument_is_what_was_given(
    api: Seq<char>,
    name: Seq<char>,
    schema: ArgumentSchema,
    argument: ArgumentModel,
    context: ContextModel,
    functions: CallbacksModel,
)
    requires
        functions.last_id + handlers_in(argument) <= u64::MAX,
    ensures
        ({
            let (after, answer) = checked(api, name, schema, argument, context, functions);
            &&& after.open == functions.open
            &&& after.entries.len() >= functions.entries.len()
            &&& forall|i: int|
                0 <= i < functions.entries.len() ==> #[trigger] after.entries[i]
                    == functions.entries[i]
            &&& after.last_id <= functions.last_id + handlers_in(argument)
            &&& after.last_id - functions.last_id == after.entries.len() - functions.entries.len()
            &&& answer matches Ok(model) ==> is_given(
                schema,
                argument,
                model,
                context,
                after.entries,
            ) && after.last_id == functions.last_id + handlers_in(argument)
        }),
    decreases schema, 0nat,
{
    match (schema, argument) {
        (ArgumentSchema::Number, ArgumentModel::Value(Bridged::Number(value))) => {
            number::law_extents_are_read_off_their_bits(value.wide);
        },
        (ArgumentSchema::Entity(kind), ArgumentModel::Entity(handle)) => {
            lemma_entity_kind(context.entities, handle);
        },
        (ArgumentSchema::Callback, ArgumentModel::Handler(handler)) => {
            let after = callbacks::registered(functions, entry_for(handler, context)).entries;
            assert(after[functions.entries.len() as int].id == functions.last_id + 1);
        },
        (ArgumentSchema::Enum(values), ArgumentModel::Value(Bridged::Str(value))) => {
            if text::texts(values@).contains(value) {
                let i = choose|i: int| 0 <= i < values@.len() && text::texts(values@)[i] == value;
                assert(values@[i]@ == value);
            }
        },
        (ArgumentSchema::Array(item), ArgumentModel::Array(values)) => {
            lemma_items_are_given(api, name, *item, values, context, functions);
        },
        (ArgumentSchema::Optional(inner), value) => {
            law_an_accepted_argument_is_what_was_given(
                api,
                name,
                *inner,
                value,
                context,
                functions,
            );
        },
        _ => {},
    }
}

proof fn lemma_items_are_given(
    api: Seq<char>,
    name: Seq<char>,
    schema: ArgumentSchema,
    arguments: Seq<ArgumentModel>,
    context: ContextModel,
    functions: CallbacksModel,
)
    requires
        functions.last_id + handlers_in_all(arguments) <= u64::MAX,
    ensures
        ({
            let (after, answer) = checked_all(api, name, schema, arguments, context, functions);
            &&& after.open == functions.open
            &&& extends(functions.entries, after.entries)
            &&& after.last_id <= functions.last_id + handlers_in_all(arguments)
            &&& after.last_id - functions.last_id == after.entries.len() - functions.entries.len()
            &&& answer matches Ok(models) ==> {
                &&& models.len() == arguments.len()
                &&& after.last_id == functions.last_id + handlers_in_all(arguments)
                &&& forall|i: int|
                    0 <= i < arguments.len() ==> is_given(
                        schema,
                        #[trigger] arguments[i],
                        models[i],
                        context,
                        after.entries,
                    )
            }
        }),
    decreases schema, arguments.len() + 1,
{
    if arguments.len() > 0 {
        let rest = arguments.drop_last();
        lemma_items_are_given(api, name, schema, rest, context, functions);
        let (middle, first) = checked_all(api, name, schema, rest, context, functions);
        if first is Ok {
            let (after, last) = checked(api, name, schema, arguments.last(), context, middle);
            law_an_accepted_argument_is_what_was_given(
                api,
                name,
                schema,
                arguments.last(),
                context,
                middle,
            );
            assert(extends(middle.entries, after.entries));
            assert forall|i: int| 0 <= i < functions.entries.len() implies #[trigger] after.entries[i]
                == functions.entries[i] by {
                assert(middle.entries[i] == functions.entries[i]);
            }
            if last is Ok {
                let models = first->Ok_0.push(last->Ok_0);
                assert forall|i: int| 0 <= i < arguments.len() implies is_given(
                    schema,
                    #[trigger] arguments[i],
                    models[i],
                    context,
                    after.entries,
                ) by {
                    if i < rest.len() {
                        assert(rest[i] == arguments[i]);
                        assert(models[i] == first->Ok_0[i]);
                        lemma_given_later(
                            schema,
                            rest[i],
                            first->Ok_0[i],
                            context,
                            middle.entries,
                            after.entries,
                        );
                    }
                }
            }
        }
    }
}

/// Whether an argument is of the kind that is declared.
pub open spec fn is_declared(
    schema: ArgumentSchema,
    argument: ArgumentModel,
    context: ContextModel,
) -> bool
    decreases schema,
{
    match schema {
        ArgumentSchema::String => argument matches ArgumentModel::Value(Bridged::Str(_)),
        ArgumentSchema::Number => argument matches ArgumentModel::Value(Bridged::Number(value))
            && value.wide % 0x8000_0000_0000_0000 < 0x7FF0_0000_0000_0000,
        ArgumentSchema::Boolean => argument matches ArgumentModel::Value(Bridged::Bool(_)),
        ArgumentSchema::Element => argument matches ArgumentModel::Element(element) && element
            < context.arena.nodes.len() && !context.arena.nodes[element as int].claimed,
        ArgumentSchema::Entity(kind) => match argument {
            ArgumentModel::Entity(handle) => entity_kind(context.entities, handle) == Some(kind@),
            ArgumentModel::RetainedState { handle, proof } => {
                &&& proof == context.proof
                &&& context.states.borrowed != Borrowed::Exclusive
                &&& states::lookup(context.states.states, handle) matches Some(state) && state.kind
                    == kind@
            },
            _ => false,
        },
        ArgumentSchema::Callback => argument is Handler,
        ArgumentSchema::Enum(values) => argument matches ArgumentModel::Value(Bridged::Str(value))
            && exists|i: int| 0 <= i < values@.len() && (#[trigger] values@[i])@ == value,
        ArgumentSchema::Array(item) => argument matches ArgumentModel::Array(items) && forall|i: int|
            0 <= i < items.len() ==> is_declared(*item, #[trigger] items[i], context),
        ArgumentSchema::Optional(inner) => is_declared(*inner, argument, context),
    }
}

/// An argument is accepted exactly where it is of the kind that is declared, whatever else is
/// registered meanwhile.
pub proof fn law_arguments_of_the_declared_kind_are_accepted(
    api: Seq<char>,
    name: Seq<char>,
    schema: ArgumentSchema,
    argument: ArgumentModel,
    context: ContextModel,
    functions: CallbacksModel,
)
    ensures
        checked(api, name, schema, argument, context, functions).1 is Ok <==> is_declared(
            schema,
            argument,
            context,
        ),
    decreases schema, 0nat,
{
    match (schema, argument) {
        (ArgumentSchema::Number, ArgumentModel::Value(Bridged::Number(value))) => {
            number::law_extents_are_read_off_their_bits(value.wide);
        },
        (ArgumentSchema::Enum(values), ArgumentModel::Value(Bridged::Str(value))) => {
            let all = text::texts(values@);
            if all.contains(value) {
                let i = choose|i: int| 0 <= i < all.len() && all[i] == value;
                assert(values@[i]@ == value);
            }
            if exists|i: int| 0 <= i < values@.len() && (#[trigger] values@[i])@ == value {
                let i = choose|i: int| 0 <= i < values@.len() && (#[trigger] values@[i])@ == value;
                assert(all[i] == value);
            }
        },
        (ArgumentSchema::Array(item), ArgumentModel::Array(values)) => {
            lemma_items_are_accepted(api, name, *item, values, context, functions);
        },
        (ArgumentSchema::Optional(inner), value) => {
            law_arguments_of_the_declared_kind_are_accepted(
                api,
                name,
                *inner,
                value,
                context,
                functions,
            );
        },
        _ => {},
    }
}

proof fn lemma_items_are_accepted(
    api: Seq<char>,
    name: Seq<char>,
    schema: ArgumentSchema,
    arguments: Seq<ArgumentModel>,
    context: ContextModel,
    functions: CallbacksModel,
)
    ensures
        checked_all(api, name, schema, arguments, context, functions).1 is Ok <==> forall|i: int|
            0 <= i < arguments.len() ==> is_declared(schema, #[trigger] arguments[i], context),
    decreases schema, arguments.len() + 1,
{
    if arguments.len() > 0 {
        let rest = arguments.drop_last();
        lemma_items_are_accepted(api, name, schema, rest, context, functions);
        let (middle, first) = checked_all(api, name, schema, rest, context, functions);
        law_arguments_of_the_declared_kind_are_accepted(
            api,
            name,
            schema,
            arguments.last(),
            context,
            middle,
        );
        assert(arguments[arguments.len() - 1] == arguments.last());
        assert forall|i: int| 0 <= i < rest.len() implies rest[i] == arguments[i] by {}
        if first is Ok {
            assert forall|i: int| 0 <= i < rest.len() implies is_declared(
                schema,
                #[trigger] arguments[i],
                context,
            ) by {
                assert(is_declared(schema, rest[i], context));
            }
        } else {
            let i = choose|i: int|
                0 <= i < rest.len() && !is_declared(schema, #[trigger] rest[i], context);
            assert(!is_declared(schema, arguments[i], context));
        }
    }
}

/// Two different texts, numbers, truth values, names or elements are never taken for the same
/// argument, whatever they are declared for.
pub proof fn law_different_values_give_different_arguments(
    api: Seq<char>,
    name: Seq<char>,
    schema: ArgumentSchema,
    a: ArgumentModel,
    b: ArgumentModel,
    context: ContextModel,
    functions: CallbacksModel,
)
    requires
        schema is String || schema is Number || schema is Boolean || schema is Enum
            || schema is Element,
        checked(api, name, schema, a, context, functions).1 is Ok,
        checked(api, name, schema, a, context, functions).1 == checked(
            api,
            name,
            schema,
            b,
            context,
            functions,
        ).1,
    ensures
        a == b,
{
}

/// A value whose kind differs from the one declared is answered with an error that names the call,
/// the argument and what it was to be, and registers nothing.
pub proof fn law_a_wrong_argument_is_named(
    api: Seq<char>,
    name: Seq<char>,
    schema: ArgumentSchema,
    argument: ArgumentModel,
    context: ContextModel,
    functions: CallbacksModel,
)
    requires
        schema is String || schema is Number || schema is Boolean || schema is Enum
            || schema is Callback,
    ensures
        ({
            let (after, answer) = checked(api, name, schema, argument, context, functions);
            answer matches Err(error) ==> after == functions && match error {
                ScriptError::ArgumentExpected { api: called, name: at, expected } => called == api
                    && at == name && expected == schema_text(schema),
                _ => false,
            }
        }),
{
}

proof fn lemma_elements_join(a: Seq<CheckedModel>, b: Seq<CheckedModel>)
    ensures
        elements_in_all(a + b) == elements_in_all(a) + elements_in_all(b),
    decreases b.len(),
{
    if b.len() == 0 {
        assert(a + b =~= a);
        assert(elements_in_all(a) + Seq::<u32>::empty() =~= elements_in_all(a));
    } else {
        assert((a + b).drop_last() =~= a + b.drop_last());
        lemma_elements_join(a, b.drop_last());
        assert(elements_in_all(a + b) =~= elements_in_all(a) + elements_in_all(b));
    }
}

/// The elements of arguments are found in the order in which they stand, each as often as it does:
/// those of a list are the first part's followed by the rest's, an element is its own, an array's
/// are its items', an optional argument's are those of what it holds.
pub proof fn law_elements_are_found_in_order(
    a: Seq<CheckedModel>,
    b: Seq<CheckedModel>,
    argument: CheckedModel,
)
    ensures
        elements_in_all(a + b) == elements_in_all(a) + elements_in_all(b),
        elements_in_all(seq![argument]) == match argument {
            CheckedModel::Element(element) => seq![element],
            CheckedModel::Array(items) => elements_in_all(items),
            CheckedModel::Optional(Some(inner)) => elements_in(*inner),
            _ => Seq::<u32>::empty(),
        },
        elements_in_all(Seq::empty()) == Seq::<u32>::empty(),
        elements_in(argument) == elements_in_all(seq![argument]),
{
    lemma_elements_join(a, b);
    let one = seq![argument];
    assert(one.drop_last() =~= Seq::empty());
    assert(one.last() == argument);
    assert(elements_in_all(Seq::<CheckedModel>::empty()) =~= Seq::<u32>::empty());
    assert(elements_in_all(one) =~= elements_in(argument));
}

} // verus!
