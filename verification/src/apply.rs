//! What a method call on an element does to the description.
use crate::arena::ArenaModel;
use crate::arena::Component;
use crate::arena::SpecArena;
use crate::arena::SpecOp;
use crate::arena;
use crate::argument::ArgumentModel;
use crate::argument::Arguments;
use crate::argument::Bridged;
use crate::argument::BridgedList;
use crate::argument::StyleArgument;
use crate::argument::StyleArgumentModel;
use crate::argument;
use crate::callbacks::CallbackArena;
use crate::callbacks::CallbackEntry;
use crate::callbacks::CallbacksModel;
use crate::callbacks;
use crate::calls::PayloadDraft;
use crate::calls;
use crate::error::Fault;
use crate::error::ScriptError;
use crate::error;
use crate::exports;
use crate::methods;
use crate::number;
use crate::schema::ArgumentDescriptor;
use crate::schema::CheckedModel;
use crate::schema::ComponentArgument;
use crate::schema;
use crate::scope::HostScope;
use crate::scope::ScopePhase;
use crate::scope;
use crate::states::RetainedStates;
use crate::states;
use crate::text;
use vstd::prelude::*;
use vstd::string::*;

verus! {

/// A method that a registered component declares.
pub struct MethodDescriptor {
    pub name: String,
    pub arguments: Vec<ArgumentDescriptor>,
}

/// A component of the registered catalog.
pub struct RegisteredComponent {
    pub id: u64,
    pub methods: Vec<MethodDescriptor>,
}

/// The registered component that an element is, if it is one.
pub open spec fn registered_id(m: ArenaModel, id: u32) -> Option<u64> {
    if id < m.nodes.len() {
        match m.nodes[id as int].component {
            Component::Registered { component_id, .. } => Some(component_id),
            _ => None,
        }
    } else {
        None
    }
}

/// The registered component that an element is, if it is one.
pub fn registered_component_id(arena: &SpecArena, id: u32) -> (r: Option<u64>)
    ensures
        r == registered_id(arena@, id),
{
    match arena.node(id) {
        Some(node) => match &node.component {
            Component::Registered { component_id, .. } => Some(*component_id),
            _ => None,
        },
        None => None,
    }
}

/// The names of the methods that a component declares.
pub open spec fn method_names(methods: Seq<MethodDescriptor>) -> Seq<Seq<char>> {
    methods.map_values(|method: MethodDescriptor| method.name@)
}

/// The names of the methods that the components of a catalog declare, in order.
pub open spec fn declared_names(registry: Seq<RegisteredComponent>) -> Seq<Seq<char>>
    decreases registry.len(),
{
    if registry.len() == 0 {
        Seq::empty()
    } else {
        declared_names(registry.drop_last()) + method_names(registry.last().methods@)
    }
}

/// The names of all methods, besides styles, that an element has: those of every element, and then
/// those that the components of a catalog declare.
pub open spec fn installed_names(registry: Seq<RegisteredComponent>) -> Seq<Seq<char>> {
    exports::behavior_names().map_values(|name: &'static str| name@) + declared_names(registry)
}

/// The names of all methods, besides styles, that an element has.
pub fn installed_behaviors(registry: &Vec<RegisteredComponent>) -> (r: Vec<String>)
    ensures
        text::texts(r@) == installed_names(registry@),
{
    let common = exports::behaviors();
    let ghost names = exports::behavior_names().map_values(|name: &'static str| name@);
    let mut out: Vec<String> = Vec::new();
    let mut i: usize = 0;
    while i < common.len()
        invariant
            i <= common@.len(),
            common@ == exports::behavior_names(),
            names == exports::behavior_names().map_values(|name: &'static str| name@),
            text::texts(out@) == names.take(i as int),
        decreases common@.len() - i,
    {
        let ghost before = text::texts(out@);
        out.push(common[i].to_owned());
        assert(text::texts(out@) =~= before.push(names[i as int]));
        assert(names.take(i + 1) =~= names.take(i as int).push(names[i as int]));
        i += 1;
    }
    assert(names.take(i as int) =~= names);
    assert(registry@.take(0) =~= Seq::empty());
    let mut k: usize = 0;
    assert(text::texts(out@) =~= names + declared_names(registry@.take(0)));
    while k < registry.len()
        invariant
            k <= registry@.len(),
            text::texts(out@) == names + declared_names(registry@.take(k as int)),
        decreases registry@.len() - k,
    {
        let methods = &registry[k].methods;
        let ghost prior = text::texts(out@);
        let ghost declared = method_names(methods@);
        let mut m: usize = 0;
        assert(prior + declared.take(0) =~= prior);
        while m < methods.len()
            invariant
                m <= methods@.len(),
                declared == method_names(methods@),
                text::texts(out@) == prior + declared.take(m as int),
            decreases methods@.len() - m,
        {
            let ghost before = text::texts(out@);
            out.push(methods[m].name.as_str().to_owned());
            assert(text::texts(out@) =~= before.push(declared[m as int]));
            assert(declared.take(m + 1) =~= declared.take(m as int).push(declared[m as int]));
            assert(prior + declared.take(m + 1) =~= (prior + declared.take(m as int)).push(
                declared[m as int],
            ));
            m += 1;
        }
        assert(declared.take(m as int) =~= declared);
        assert(registry@.take(k + 1).drop_last() =~= registry@.take(k as int));
        assert(registry@.take(k + 1).last() == registry@[k as int]);
        assert(text::texts(out@) =~= names + declared_names(registry@.take(k + 1)));
        k += 1;
    }
    assert(registry@.take(k as int) =~= registry@);
    out
}

/// Where a component stands in the catalog.
pub open spec fn component_index(registry: Seq<RegisteredComponent>, id: u64) -> Option<int>
    decreases registry.len(),
{
    if registry.len() == 0 {
        None
    } else {
        match component_index(registry.drop_last(), id) {
            Some(index) => Some(index),
            None => if registry.last().id == id {
                Some(registry.len() - 1)
            } else {
                None
            },
        }
    }
}

/// Where a method stands among those a component declares.
pub open spec fn method_index(methods: Seq<MethodDescriptor>, method: Seq<char>) -> Option<int>
    decreases methods.len(),
{
    if methods.len() == 0 {
        None
    } else {
        match method_index(methods.drop_last(), method) {
            Some(index) => Some(index),
            None => if methods.last().name@ == method {
                Some(methods.len() - 1)
            } else {
                None
            },
        }
    }
}

/// Where the declaration of a method stands, for the component that an element is: the component's
/// place in the catalog and the method's place in the component.
pub open spec fn declaration(
    m: ArenaModel,
    registry: Seq<RegisteredComponent>,
    id: u32,
    method: Seq<char>,
) -> Option<(int, int)> {
    match registered_id(m, id) {
        None => None,
        Some(component) => match component_index(registry, component) {
            None => None,
            Some(at) => match method_index(registry[at].methods@, method) {
                None => None,
                Some(index) => Some((at, index)),
            },
        },
    }
}

proof fn lemma_component_index(registry: Seq<RegisteredComponent>, id: u64, upto: int)
    requires
        0 <= upto <= registry.len(),
        component_index(registry.take(upto), id) is Some,
    ensures
        component_index(registry, id) == component_index(registry.take(upto), id),
        0 <= component_index(registry, id)->Some_0 < registry.len(),
    decreases registry.len() - upto,
{
    lemma_component_in_range(registry.take(upto), id);
    if upto == registry.len() {
        assert(registry.take(upto) =~= registry);
    } else {
        assert(registry.take(upto + 1).drop_last() =~= registry.take(upto));
        lemma_component_index(registry, id, upto + 1);
    }
}

proof fn lemma_component_in_range(registry: Seq<RegisteredComponent>, id: u64)
    ensures
        component_index(registry, id) matches Some(at) ==> 0 <= at < registry.len(),
    decreases registry.len(),
{
    if registry.len() > 0 {
        lemma_component_in_range(registry.drop_last(), id);
    }
}

proof fn lemma_method_index(all: Seq<MethodDescriptor>, method: Seq<char>, upto: int)
    requires
        0 <= upto <= all.len(),
        method_index(all.take(upto), method) is Some,
    ensures
        method_index(all, method) == method_index(all.take(upto), method),
    decreases all.len() - upto,
{
    if upto == all.len() {
        assert(all.take(upto) =~= all);
    } else {
        assert(all.take(upto + 1).drop_last() =~= all.take(upto));
        lemma_method_index(all, method, upto + 1);
    }
}

fn find_component(registry: &Vec<RegisteredComponent>, id: u64) -> (r: Option<usize>)
    ensures
        match (r, component_index(registry@, id)) {
            (Some(at), Some(index)) => at == index && at < registry@.len(),
            (None, None) => true,
            _ => false,
        },
{
    let ghost all = registry@;
    let mut i: usize = 0;
    assert(all.take(0) =~= Seq::empty());
    while i < registry.len()
        invariant
            i <= registry@.len(),
            all == registry@,
            component_index(all.take(i as int), id) is None,
        decreases registry@.len() - i,
    {
        assert(all.take(i + 1).drop_last() =~= all.take(i as int));
        assert(all.take(i + 1).last() == all[i as int]);
        if registry[i].id == id {
            proof {
                lemma_component_index(all, id, i + 1);
            }
            return Some(i);
        }
        i += 1;
    }
    assert(all.take(i as int) =~= all);
    None
}

fn find_method(methods: &Vec<MethodDescriptor>, method: &str) -> (r: Option<usize>)
    ensures
        match (r, method_index(methods@, method@)) {
            (Some(at), Some(index)) => at == index && at < methods@.len(),
            (None, None) => true,
            _ => false,
        },
{
    let ghost all = methods@;
    let mut i: usize = 0;
    assert(all.take(0) =~= Seq::empty());
    while i < methods.len()
        invariant
            i <= methods@.len(),
            all == methods@,
            method_index(all.take(i as int), method@) is None,
        decreases methods@.len() - i,
    {
        assert(all.take(i + 1).drop_last() =~= all.take(i as int));
        assert(all.take(i + 1).last() == all[i as int]);
        if text::same(methods[i].name.as_str(), method) {
            proof {
                lemma_method_index(all, method@, i + 1);
            }
            return Some(i);
        }
        i += 1;
    }
    assert(all.take(i as int) =~= all);
    None
}

/// Where the declaration of a method stands, for the component that an element is.
pub fn registered_method_descriptor(
    arena: &SpecArena,
    registry: &Vec<RegisteredComponent>,
    id: u32,
    method: &str,
) -> (r: Option<(usize, usize)>)
    ensures
        match (r, declaration(arena@, registry@, id, method@)) {
            (Some((component, index)), Some((at, position))) => {
                &&& component == at
                &&& index == position
                &&& component < registry@.len()
                &&& index < registry@[at].methods@.len()
            },
            (None, None) => true,
            _ => false,
        },
{
    match registered_component_id(arena, id) {
        None => None,
        Some(component) => match find_component(registry, component) {
            None => None,
            Some(at) => match find_method(&registry[at].methods, method) {
                None => None,
                Some(index) => Some((at, index)),
            },
        },
    }
}

/// What is to be done after a call on a registered component succeeded.
#[derive(Clone, Copy, PartialEq, Eq, Structural, Debug)]
pub enum AfterCall {
    /// Record the function that was given.
    Click,
    /// Set the property as on any element.
    Property,
    /// Record what the component made.
    Method,
}

/// What kind of call a method call on an element is.
#[derive(Clone, Copy, PartialEq, Eq, Structural, Debug)]
pub enum Route {
    /// A template is being recorded: fill the parameter `argument` in at `position` later.
    Slot { position: usize, argument: u16 },
    /// A call on a registered component, with the places of its declaration.
    Call { component: usize, method: usize, after: AfterCall },
    /// A call as on any element.
    Ordinary,
}

/// What kind of call a method call on an element is.
pub open spec fn route(
    m: ArenaModel,
    registry: Seq<RegisteredComponent>,
    id: u32,
    method: Seq<char>,
    arguments: Seq<ArgumentModel>,
    suggestion: Option<Seq<char>>,
) -> Result<Route, ScriptError<Seq<char>>> {
    let registered = registered_id(m, id) is Some;
    match argument::first_slot_of(arguments) {
        Some((position, argument)) => if registered {
            Err(ScriptError::RegisteredSlot { method })
        } else {
            Ok(Route::Slot { position: position as usize, argument })
        },
        None => match declaration(m, registry, id, method) {
            Some((component, index)) => Ok(
                Route::Call {
                    component: component as usize,
                    method: index as usize,
                    after: if !methods::common_behavior(method) {
                        AfterCall::Method
                    } else if method == "on_click"@ {
                        AfterCall::Click
                    } else {
                        AfterCall::Property
                    },
                },
            ),
            None => if registered && (methods::common_behavior(method) || !methods::names_slot(
                method,
            )) {
                Err(methods::unknown(method, suggestion))
            } else {
                Ok(Route::Ordinary)
            },
        },
    }
}

/// What kind of call a method call on an element is.
pub fn route_call(
    arena: &SpecArena,
    registry: &Vec<RegisteredComponent>,
    id: u32,
    method: &str,
    arguments: &Arguments,
    suggestion: Option<&str>,
) -> (r: Result<Route, ScriptError<String>>)
    ensures
        error::outcome_view(r) == route(
            arena@,
            registry@,
            id,
            method@,
            arguments.model(),
            methods::optional_view(suggestion),
        ),
        r matches Ok(Route::Call { component, method: index, .. }) ==> component < registry@.len()
            && index < registry@[component as int].methods@.len(),
{
    let registered = registered_component_id(arena, id).is_some();
    match arguments.first_slot() {
        Some((position, argument)) => {
            if registered {
                return Err(ScriptError::RegisteredSlot { method: method.to_owned() });
            }
            return Ok(Route::Slot { position, argument });
        },
        None => {},
    }
    let common = methods::is_common_behavior(method);
    match registered_method_descriptor(arena, registry, id, method) {
        Some((component, index)) => Ok(
            Route::Call {
                component,
                method: index,
                after: if !common {
                    AfterCall::Method
                } else if text::same(method, "on_click") {
                    AfterCall::Click
                } else {
                    AfterCall::Property
                },
            },
        ),
        None => if registered && (common || !methods::is_slot_method(method)) {
            Err(methods::unknown_error(method, suggestion))
        } else {
            Ok(Route::Ordinary)
        },
    }
}

/// What is known of a method besides its name: its index among the styles without arguments,
/// whether it is a style with one, the accessibility roles that exist, and the nearest name to it.
pub struct MethodFacts<'a> {
    pub nullary: Option<u16>,
    pub parametric: bool,
    pub roles: &'a Vec<String>,
    pub suggestion: Option<&'a str>,
}

/// What is known of a method besides its name.
pub struct FactsModel {
    pub nullary: Option<u16>,
    pub parametric: bool,
    pub roles: Seq<Seq<char>>,
    pub suggestion: Option<Seq<char>>,
}

/// What is known of a method, as a statement speaks of it.
pub open spec fn facts_view(facts: MethodFacts) -> FactsModel {
    FactsModel {
        nullary: facts.nullary,
        parametric: facts.parametric,
        roles: text::texts(facts.roles@),
        suggestion: methods::optional_view(facts.suggestion),
    }
}

/// What became of a call as on any element.
pub enum Applied {
    /// It is recorded.
    Recorded,
    /// It is a style with these values, which are to be checked before it is recorded.
    Style(BridgedList),
}

/// What became of a call as on any element.
pub enum AppliedModel {
    Recorded,
    Style(Seq<Bridged<Seq<char>>>),
}

/// How a function is registered in the call in progress.
pub open spec fn entry_in(handler: u64, scope: HostScope, call: Option<u64>) -> CallbackEntry {
    CallbackEntry {
        value: handler,
        view: scope.view,
        application: scope::current_generation(scope),
        registered_in: call,
    }
}

/// The outcome of recording something.
pub open spec fn recorded(
    m: ArenaModel,
    functions: CallbacksModel,
    id: u32,
    op: SpecOp<Seq<char>, Seq<Bridged<Seq<char>>>>,
) -> (ArenaModel, CallbacksModel, Result<AppliedModel, ScriptError<Seq<char>>>) {
    match arena::record(m, id, op) {
        (after, Ok(())) => (after, functions, Ok(AppliedModel::Recorded)),
        (after, Err(error)) => (after, functions, Err(error)),
    }
}

/// The outcome of a call that fails before anything is recorded.
pub open spec fn failed(m: ArenaModel, functions: CallbacksModel, error: ScriptError<Seq<char>>) -> (
    ArenaModel,
    CallbacksModel,
    Result<AppliedModel, ScriptError<Seq<char>>>,
) {
    (m, functions, Err(error))
}

/// The outcome of registering a function and recording it.
pub open spec fn registered_as(
    m: ArenaModel,
    functions: CallbacksModel,
    id: u32,
    entry: CallbackEntry,
    op: SpecOp<Seq<char>, Seq<Bridged<Seq<char>>>>,
) -> (ArenaModel, CallbacksModel, Result<AppliedModel, ScriptError<Seq<char>>>) {
    recorded(m, callbacks::registered(functions, entry), id, op)
}

/// The outcome of putting an element among another's children, or into one of its named places.
pub open spec fn placed(
    m: ArenaModel,
    functions: CallbacksModel,
    outcome: (ArenaModel, Result<(), ScriptError<Seq<char>>>),
) -> (ArenaModel, CallbacksModel, Result<AppliedModel, ScriptError<Seq<char>>>) {
    match outcome {
        (after, Ok(())) => (after, functions, Ok(AppliedModel::Recorded)),
        (after, Err(error)) => (after, functions, Err(error)),
    }
}

/// The element that the first argument names by its number.
pub open spec fn named_element(arguments: Seq<ArgumentModel>) -> Option<u32> {
    match argument::first_value_of(arguments) {
        Some(Bridged::Number(value)) => Some(number::narrow_to_u32(value.narrow)),
        _ => None,
    }
}

/// Whether an element is a panel of a resizable group.
pub open spec fn is_panel(m: ArenaModel, id: u32) -> bool {
    id < m.nodes.len() && m.nodes[id as int].component is ResizablePanel
}

/// Whether an element is a resizable group.
pub open spec fn is_group(m: ArenaModel, id: u32) -> bool {
    id < m.nodes.len() && m.nodes[id as int].component is Resizable
}

/// What putting one element among another's children does and answers. A panel of a resizable
/// group belongs to such a group only.
pub open spec fn attaching(m: ArenaModel, id: u32, child: u32) -> (
    ArenaModel,
    Result<(), ScriptError<Seq<char>>>,
) {
    if is_panel(m, child) && !is_group(m, id) {
        (m, Err(ScriptError::Fixed(Fault::OrphanPanel)))
    } else {
        arena::attached(m, id, child)
    }
}

/// Puts one element among another's children.
pub fn attach(arena: &mut SpecArena, id: u32, child: u32) -> (r: Result<(), ScriptError<String>>)
    ensures
        (final(arena)@, error::outcome_view(r)) == attaching(old(arena)@, id, child),
{
    let panel = match arena.node(child) {
        Some(node) => match &node.component {
            Component::ResizablePanel => true,
            _ => false,
        },
        None => false,
    };
    let group = match arena.node(id) {
        Some(node) => match &node.component {
            Component::Resizable(_, _) => true,
            _ => false,
        },
        None => false,
    };
    if panel && !group {
        return Err(ScriptError::Fixed(Fault::OrphanPanel));
    }
    arena.attach_child(id, child)
}

/// What filling a named place does and answers.
pub open spec fn filling(m: ArenaModel, id: u32, name: Seq<char>, element: u32) -> (
    ArenaModel,
    Result<(), ScriptError<Seq<char>>>,
) {
    if !methods::names_slot(name) {
        (m, Err(ScriptError::UnknownSlot { name }))
    } else {
        match arena::claim(m, element) {
            (after, Err(error)) => (after, Err(error)),
            (after, Ok(())) => arena::record(after, id, SpecOp::Slot(name, element)),
        }
    }
}

/// Puts an element into a named place of another.
pub fn fill_slot(arena: &mut SpecArena, id: u32, name: &str, element: u32) -> (r: Result<
    (),
    ScriptError<String>,
>)
    ensures
        (final(arena)@, error::outcome_view(r)) == filling(old(arena)@, id, name@, element),
{
    if !methods::is_slot_method(name) {
        return Err(ScriptError::UnknownSlot { name: name.to_owned() });
    }
    match arena.claim(element) {
        Err(error) => Err(error),
        Ok(()) => arena.push_op(id, SpecOp::Slot(name.to_owned(), element)),
    }
}

/// What opening a state style does and answers: an element of its own collects the declarations.
pub open spec fn state_begun(m: ArenaModel, id: u32, name: Seq<char>) -> (
    ArenaModel,
    Result<u32, ScriptError<Seq<char>>>,
) {
    if !methods::names_state(name) {
        (m, Err(ScriptError::UnknownState { name }))
    } else {
        let node = m.nodes.len() as u32;
        let collected = arena::placed(arena::pushed(m, Component::Div), node);
        match arena::record(collected, id, SpecOp::StateStyle(name, node)) {
            (after, Ok(())) => (after, Ok(node)),
            (after, Err(error)) => (after, Err(error)),
        }
    }
}

/// Opens a state style; gives the element that collects its declarations.
pub fn begin_state(arena: &mut SpecArena, id: u32, name: &str) -> (r: Result<
    u32,
    ScriptError<String>,
>)
    requires
        old(arena)@.nodes.len() < u32::MAX,
    ensures
        (final(arena)@, error::outcome_view(r)) == state_begun(old(arena)@, id, name@),
{
    if !methods::is_state_style(name) {
        return Err(ScriptError::UnknownState { name: name.to_owned() });
    }
    let node: u32 = arena.push(Component::Div);
    match arena.claim(node) {
        Err(error) => {
            return Err(error);
        },
        Ok(()) => {},
    }
    match arena.push_op(id, SpecOp::StateStyle(name.to_owned(), node)) {
        Ok(()) => Ok(node),
        Err(error) => Err(error),
    }
}

/// What a call as on any element does and answers.
pub open spec fn ordinary(
    m: ArenaModel,
    functions: CallbacksModel,
    id: u32,
    method: Seq<char>,
    arguments: Seq<ArgumentModel>,
    facts: FactsModel,
    scope: HostScope,
    call: Option<u64>,
) -> (ArenaModel, CallbacksModel, Result<AppliedModel, ScriptError<Seq<char>>>) {
    let layout = scope.phase == Some(ScopePhase::Layout);
    if method == "child"@ {
        match named_element(arguments) {
            None => failed(m, functions, ScriptError::Fixed(Fault::ChildElement)),
            Some(child) => placed(m, functions, attaching(m, id, child)),
        }
    } else if methods::names_slot(method) {
        match named_element(arguments) {
            None => failed(m, functions, ScriptError::SlotElement { method }),
            Some(element) => placed(m, functions, filling(m, id, method, element)),
        }
    } else if method == "on_action"@ {
        if layout {
            failed(m, functions, ScriptError::Fixed(Fault::ActionPhase))
        } else {
            match argument::first_value_of(arguments) {
                Some(Bridged::Str(action)) => if action.len() == 0 {
                    failed(m, functions, ScriptError::Fixed(Fault::ActionName))
                } else {
                    match argument::handler_of(arguments, 1) {
                        None => failed(m, functions, ScriptError::Fixed(Fault::ActionHandler)),
                        Some(handler) => registered_as(
                            m,
                            functions,
                            id,
                            entry_in(handler, scope, call),
                            SpecOp::ActionCallback(action, (functions.last_id + 1) as u64),
                        ),
                    }
                },
                _ => failed(m, functions, ScriptError::Fixed(Fault::ActionName)),
            }
        }
    } else if method == "on_mouse_down"@ || method == "on_mouse_up"@ {
        if layout {
            failed(m, functions, ScriptError::MousePhase { method })
        } else {
            match argument::first_value_of(arguments) {
                Some(Bridged::Str(button)) => match argument::handler_of(arguments, 1) {
                    None => failed(m, functions, ScriptError::MouseSecond { method }),
                    Some(handler) => match methods::mouse_op(method, button) {
                        None => failed(m, functions, ScriptError::MouseButton { button }),
                        Some(name) => registered_as(
                            m,
                            functions,
                            id,
                            entry_in(handler, scope, call),
                            SpecOp::Callback(name, (functions.last_id + 1) as u64),
                        ),
                    },
                },
                _ => failed(m, functions, ScriptError::MouseFirst { method }),
            }
        }
    } else if methods::takes_handler(method) {
        if layout {
            failed(m, functions, ScriptError::HandlerPhase { method })
        } else {
            match argument::handler_of(arguments, 0) {
                None => failed(m, functions, ScriptError::HandlerFunction { method }),
                Some(handler) => registered_as(
                    m,
                    functions,
                    id,
                    entry_in(handler, scope, call),
                    SpecOp::Callback(method, (functions.last_id + 1) as u64),
                ),
            }
        }
    } else if methods::sets_property(method) {
        match argument::values_of(arguments, method) {
            Err(error) => failed(m, functions, error),
            Ok(values) => match methods::property_error(method, values, facts.roles) {
                Some(error) => failed(m, functions, error),
                None => recorded(m, functions, id, SpecOp::Method(method, values)),
            },
        }
    } else if methods::commands_dock(method) {
        match argument::values_of(arguments, method) {
            Err(error) => failed(m, functions, error),
            Ok(values) => if dock_target(values) {
                recorded(m, functions, id, SpecOp::Method(method, values))
            } else {
                failed(m, functions, ScriptError::DockTarget { method })
            },
        }
    } else if methods::draws_path(method) {
        match argument::values_of(arguments, method) {
            Err(error) => failed(m, functions, error),
            Ok(values) => recorded(m, functions, id, SpecOp::Method(method, values)),
        }
    } else {
        match facts.nullary {
            Some(index) => recorded(m, functions, id, SpecOp::NullaryStyle(index)),
            None => if facts.parametric {
                match argument::values_of(arguments, method) {
                    Err(error) => failed(m, functions, error),
                    Ok(values) => (m, functions, Ok(AppliedModel::Style(values))),
                }
            } else {
                failed(m, functions, methods::unknown(method, facts.suggestion))
            },
        }
    }
}

/// Whether the first value names a group, dock or tile: a number that is not below zero.
pub open spec fn dock_target(values: Seq<Bridged<Seq<char>>>) -> bool {
    match methods::number_at(values, 0) {
        Some(handle) => !number::narrow_nan(handle.narrow) && number::narrow_value(handle.narrow)
            >= 0,
        None => false,
    }
}

/// Whether an answer is the one that is owed.
pub open spec fn answers(
    answer: Result<Applied, ScriptError<String>>,
    owed: Result<AppliedModel, ScriptError<Seq<char>>>,
) -> bool {
    match (answer, owed) {
        (Ok(Applied::Recorded), Ok(AppliedModel::Recorded)) => true,
        (Ok(Applied::Style(list)), Ok(AppliedModel::Style(values))) => list.model() == values,
        (Err(error), Err(expected)) => error::error_view(error) == expected,
        _ => false,
    }
}

fn element_argument(arguments: &Arguments) -> (r: Option<u32>)
    ensures
        r == named_element(arguments.model()),
{
    match arguments.first_value() {
        Some(Bridged::Number(value)) => Some(value.truncated()),
        _ => None,
    }
}

fn settle(outcome: Result<(), ScriptError<String>>) -> (r: Result<Applied, ScriptError<String>>)
    ensures
        match outcome {
            Ok(()) => r == Ok::<Applied, ScriptError<String>>(Applied::Recorded),
            Err(error) => r == Err::<Applied, ScriptError<String>>(error),
        },
{
    match outcome {
        Ok(()) => Ok(Applied::Recorded),
        Err(error) => Err(error),
    }
}

/// Makes a call as on any element.
pub fn apply_ordinary(
    arena: &mut SpecArena,
    functions: &mut CallbackArena,
    id: u32,
    method: &str,
    arguments: &Arguments,
    facts: &MethodFacts,
    scope: &HostScope,
    call: Option<u64>,
) -> (r: Result<Applied, ScriptError<String>>)
    requires
        callbacks::in_order(old(functions)@),
        old(functions)@.last_id < u64::MAX,
    ensures
        ({
            let owed = ordinary(
                old(arena)@,
                old(functions)@,
                id,
                method@,
                arguments.model(),
                facts_view(*facts),
                *scope,
                call,
            );
            &&& final(arena)@ == owed.0
            &&& final(functions)@ == owed.1
            &&& answers(r, owed.2)
        }),
        callbacks::in_order(final(functions)@),
{
    let layout = match scope.phase {
        Some(ScopePhase::Layout) => true,
        _ => false,
    };
    if text::same(method, "child") {
        return match element_argument(arguments) {
            None => Err(ScriptError::Fixed(Fault::ChildElement)),
            Some(child) => settle(attach(arena, id, child)),
        };
    }
    if methods::is_slot_method(method) {
        return match element_argument(arguments) {
            None => Err(ScriptError::SlotElement { method: method.to_owned() }),
            Some(element) => settle(fill_slot(arena, id, method, element)),
        };
    }
    if text::same(method, "on_action") {
        if layout {
            return Err(ScriptError::Fixed(Fault::ActionPhase));
        }
        let action: String = match arguments.first_value() {
            Some(Bridged::Str(action)) => {
                if text::chars_of(action.as_str()).len() == 0 {
                    return Err(ScriptError::Fixed(Fault::ActionName));
                }
                action.as_str().to_owned()
            },
            _ => {
                return Err(ScriptError::Fixed(Fault::ActionName));
            },
        };
        let handler: u64 = match arguments.handler_at(1) {
            Some(handler) => handler,
            None => {
                return Err(ScriptError::Fixed(Fault::ActionHandler));
            },
        };
        let callback: u64 = register(functions, handler, scope, call);
        return settle(arena.push_op(id, SpecOp::ActionCallback(action, callback)));
    }
    if text::same(method, "on_mouse_down") || text::same(method, "on_mouse_up") {
        if layout {
            return Err(ScriptError::MousePhase { method: method.to_owned() });
        }
        let button: &String = match arguments.first_value() {
            Some(Bridged::Str(button)) => button,
            _ => {
                return Err(ScriptError::MouseFirst { method: method.to_owned() });
            },
        };
        let handler: u64 = match arguments.handler_at(1) {
            Some(handler) => handler,
            None => {
                return Err(ScriptError::MouseSecond { method: method.to_owned() });
            },
        };
        return match methods::mouse_op_name(method, button.as_str()) {
            None => Err(ScriptError::MouseButton { button: button.as_str().to_owned() }),
            Some(name) => {
                let callback: u64 = register(functions, handler, scope, call);
                settle(arena.push_op(id, SpecOp::Callback(name.to_owned(), callback)))
            },
        };
    }
    match methods::callback_op_name(method) {
        Some(name) => {
            if layout {
                return Err(ScriptError::HandlerPhase { method: method.to_owned() });
            }
            return match arguments.first_handler() {
                None => Err(ScriptError::HandlerFunction { method: method.to_owned() }),
                Some(handler) => {
                    let callback: u64 = register(functions, handler, scope, call);
                    settle(arena.push_op(id, SpecOp::Callback(name.to_owned(), callback)))
                },
            };
        },
        None => {},
    }
    if methods::is_property(method) {
        let values = match arguments.values(method) {
            Ok(values) => values,
            Err(error) => {
                return Err(error);
            },
        };
        return match methods::check_property(method, &values, facts.roles) {
            Some(error) => Err(error),
            None => settle(arena.push_op(id, SpecOp::Method(method.to_owned(), values))),
        };
    }
    if methods::is_dock_command(method) {
        let values = match arguments.values(method) {
            Ok(values) => values,
            Err(error) => {
                return Err(error);
            },
        };
        let named = match values.value_at(0) {
            Some(Bridged::Number(handle)) => handle.not_below_zero(),
            _ => false,
        };
        if !named {
            return Err(ScriptError::DockTarget { method: method.to_owned() });
        }
        return settle(arena.push_op(id, SpecOp::Method(method.to_owned(), values)));
    }
    if methods::is_path_command(method) {
        return match arguments.values(method) {
            Ok(values) => settle(arena.push_op(id, SpecOp::Method(method.to_owned(), values))),
            Err(error) => Err(error),
        };
    }
    match facts.nullary {
        Some(index) => settle(arena.push_op(id, SpecOp::NullaryStyle(index))),
        None => if facts.parametric {
            match arguments.values(method) {
                Ok(values) => Ok(Applied::Style(values)),
                Err(error) => Err(error),
            }
        } else {
            Err(methods::unknown_error(method, facts.suggestion))
        },
    }
}

fn register(functions: &mut CallbackArena, handler: u64, scope: &HostScope, call: Option<u64>) -> (r:
    u64)
    requires
        callbacks::in_order(old(functions)@),
        old(functions)@.last_id < u64::MAX,
    ensures
        r == old(functions)@.last_id + 1,
        final(functions)@ == callbacks::registered(
            old(functions)@,
            entry_in(handler, *scope, call),
        ),
        callbacks::in_order(final(functions)@),
{
    functions.push(
        CallbackEntry {
            value: handler,
            view: scope.view,
            application: scope.generation(),
            registered_in: call,
        },
    )
}

/// What became of a method call on an element.
pub enum ApplyOutcome {
    /// It is recorded.
    Recorded,
    /// It is a style with these values, which are to be checked before it is recorded.
    Style(BridgedList),
    /// A template is being recorded: fill the parameter `argument` in at `position` later.
    Slot { position: usize, argument: u16 },
    /// It is a call on a registered component, with the places of its declaration, which is to see
    /// its arguments first.
    Call { component: usize, method: usize, after: AfterCall },
}

/// What a method call on an element does and answers: the kind of call it is decides, and a call as
/// on any element is made at once.
pub open spec fn applied(
    m: ArenaModel,
    functions: CallbacksModel,
    registry: Seq<RegisteredComponent>,
    id: u32,
    method: Seq<char>,
    arguments: Seq<ArgumentModel>,
    facts: FactsModel,
    scope: HostScope,
    call: Option<u64>,
    after: ArenaModel,
    functions_after: CallbacksModel,
    answer: Result<ApplyOutcome, ScriptError<String>>,
) -> bool {
    match route(m, registry, id, method, arguments, facts.suggestion) {
        Err(expected) => {
            &&& answer matches Err(error) && error::error_view(error) == expected
            &&& after == m
            &&& functions_after == functions
        },
        Ok(Route::Slot { position, argument }) => {
            &&& answer == Ok::<ApplyOutcome, ScriptError<String>>(
                ApplyOutcome::Slot { position, argument },
            )
            &&& after == m
            &&& functions_after == functions
        },
        Ok(Route::Call { component, method: index, after: next }) => {
            &&& answer == Ok::<ApplyOutcome, ScriptError<String>>(
                ApplyOutcome::Call { component, method: index, after: next },
            )
            &&& after == m
            &&& functions_after == functions
        },
        Ok(Route::Ordinary) => {
            let owed = ordinary(m, functions, id, method, arguments, facts, scope, call);
            &&& after == owed.0
            &&& functions_after == owed.1
            &&& match (answer, owed.2) {
                (Ok(ApplyOutcome::Recorded), Ok(AppliedModel::Recorded)) => true,
                (Ok(ApplyOutcome::Style(list)), Ok(AppliedModel::Style(values))) => list.model()
                    == values,
                (Err(error), Err(expected)) => error::error_view(error) == expected,
                _ => false,
            }
        },
    }
}

/// Makes a method call on an element.
pub fn apply(
    arena: &mut SpecArena,
    functions: &mut CallbackArena,
    registry: &Vec<RegisteredComponent>,
    id: u32,
    method: &str,
    arguments: &Arguments,
    facts: &MethodFacts,
    scope: &HostScope,
    call: Option<u64>,
) -> (r: Result<ApplyOutcome, ScriptError<String>>)
    requires
        callbacks::in_order(old(functions)@),
        old(functions)@.last_id < u64::MAX,
    ensures
        applied(
            old(arena)@,
            old(functions)@,
            registry@,
            id,
            method@,
            arguments.model(),
            facts_view(*facts),
            *scope,
            call,
            final(arena)@,
            final(functions)@,
            r,
        ),
        callbacks::in_order(final(functions)@),
        r matches Ok(ApplyOutcome::Call { component, method: index, .. }) ==> component
            < registry@.len() && index < registry@[component as int].methods@.len(),
{
    match route_call(arena, registry, id, method, arguments, facts.suggestion) {
        Err(error) => Err(error),
        Ok(Route::Slot { position, argument }) => Ok(ApplyOutcome::Slot { position, argument }),
        Ok(Route::Call { component, method: index, after }) => match arena.check_live(id) {
            Err(error) => Err(error),
            Ok(()) => Ok(ApplyOutcome::Call { component, method: index, after }),
        },
        Ok(Route::Ordinary) => {
            match apply_ordinary(arena, functions, id, method, arguments, facts, scope, call) {
                Ok(Applied::Recorded) => Ok(ApplyOutcome::Recorded),
                Ok(Applied::Style(values)) => Ok(ApplyOutcome::Style(values)),
                Err(error) => Err(error),
            }
        },
    }
}

/// The function that is the one and only argument, if there is one.
pub open spec fn only_callback(arguments: Seq<CheckedModel>) -> Option<u64> {
    if arguments.len() == 1 {
        match arguments[0] {
            CheckedModel::Callback(callback) => Some(callback),
            _ => None,
        }
    } else {
        None
    }
}

/// What ending a call on a registered component records: the function it was given, or what the
/// component made.
pub open spec fn component_recorded(
    m: ArenaModel,
    id: u32,
    name: Seq<char>,
    click: bool,
    arguments: Seq<CheckedModel>,
    payload: u64,
) -> (ArenaModel, Result<(), ScriptError<Seq<char>>>) {
    if click {
        match only_callback(arguments) {
            Some(callback) => arena::record(m, id, SpecOp::Callback("on_click"@, callback)),
            None => (m, Err(ScriptError::Fixed(Fault::ClickDescriptor))),
        }
    } else {
        arena::record(m, id, SpecOp::RegisteredMethod(name, payload))
    }
}

/// Records a call on a registered component once it succeeded. `click` tells that the method is
/// `on_click`.
fn record_component_call(
    arena: &mut SpecArena,
    id: u32,
    name: &str,
    click: bool,
    arguments: &Vec<ComponentArgument>,
    payload: u64,
) -> (r: Result<(), ScriptError<String>>)
    ensures
        (final(arena)@, error::outcome_view(r)) == component_recorded(
            old(arena)@,
            id,
            name@,
            click,
            schema::checked_models(arguments@),
            payload,
        ),
{
    if click {
        let callback: Option<u64> = if arguments.len() == 1 {
            match &arguments[0] {
                ComponentArgument::Callback(callback) => Some(*callback),
                _ => None,
            }
        } else {
            None
        };
        match callback {
            Some(callback) => arena.push_op(id, SpecOp::Callback("on_click".to_owned(), callback)),
            None => Err(ScriptError::Fixed(Fault::ClickDescriptor)),
        }
    } else {
        arena.push_op(id, SpecOp::RegisteredMethod(name.to_owned(), payload))
    }
}

/// What ending a call on a registered component does and answers, once the component has seen its
/// arguments. `made` is what the component made of them, or why it did not. The call is recorded as
/// what it is on that component, or as the property that it is on any element.
pub open spec fn call_finished(
    m: ArenaModel,
    functions: CallbacksModel,
    checked: Seq<CheckedModel>,
    elements: Seq<u32>,
    checkpoint: u64,
    made: Result<u64, Seq<char>>,
    next: AfterCall,
    id: u32,
    method: Seq<char>,
    arguments: Seq<ArgumentModel>,
    facts: FactsModel,
    scope: HostScope,
    call: Option<u64>,
) -> (ArenaModel, CallbacksModel, Result<AppliedModel, ScriptError<Seq<char>>>) {
    match calls::finished(m, elements, made) {
        (after, Err(error)) => (after, calls::taken_back(functions, checkpoint), Err(error)),
        (after, Ok(payload)) => match next {
            AfterCall::Property => ordinary(
                after,
                functions,
                id,
                method,
                arguments,
                facts,
                scope,
                call,
            ),
            _ => placed(
                after,
                functions,
                component_recorded(after, id, method, next == AfterCall::Click, checked, payload),
            ),
        },
    }
}

/// Ends a call on a registered component that `apply` has found and whose arguments are checked.
pub fn finish_call(
    arena: &mut SpecArena,
    functions: &mut CallbackArena,
    states: &mut RetainedStates,
    draft: &PayloadDraft,
    made: Result<u64, String>,
    next: AfterCall,
    id: u32,
    method: &str,
    arguments: &Arguments,
    facts: &MethodFacts,
    scope: &HostScope,
    call: Option<u64>,
) -> (r: Result<Applied, ScriptError<String>>)
    requires
        callbacks::in_order(old(functions)@),
        old(functions)@.last_id < u64::MAX,
    ensures
        ({
            let owed = call_finished(
                old(arena)@,
                old(functions)@,
                schema::checked_models(draft.arguments@),
                draft.elements@,
                draft.checkpoint,
                calls::made_view(made),
                next,
                id,
                method@,
                arguments.model(),
                facts_view(*facts),
                *scope,
                call,
            );
            &&& final(arena)@ == owed.0
            &&& final(functions)@ == owed.1
            &&& answers(r, owed.2)
        }),
        callbacks::in_order(final(functions)@),
        final(states)@ == states::flushed(old(states)@),
{
    match calls::finish_component_payload(draft, made, arena, states, functions) {
        Err(error) => Err(error),
        Ok(payload) => match next {
            AfterCall::Property => apply_ordinary(
                arena,
                functions,
                id,
                method,
                arguments,
                facts,
                scope,
                call,
            ),
            AfterCall::Click => settle(
                record_component_call(arena, id, method, true, &draft.arguments, payload),
            ),
            AfterCall::Method => settle(
                record_component_call(arena, id, method, false, &draft.arguments, payload),
            ),
        },
    }
}

/// What recording a style does and answers, once its values were checked.
pub open spec fn style_recorded(
    m: ArenaModel,
    id: u32,
    name: Seq<char>,
    values: Seq<Bridged<Seq<char>>>,
    refusal: Option<Seq<char>>,
) -> (ArenaModel, Result<(), ScriptError<Seq<char>>>) {
    match refusal {
        Some(message) => (m, Err(ScriptError::StyleMessage { message })),
        None => arena::record(m, id, SpecOp::ParamStyle(name, values)),
    }
}

/// Records a style once its values were checked. `refusal` is what the check objected to.
pub fn record_style(
    arena: &mut SpecArena,
    id: u32,
    name: &str,
    values: BridgedList,
    refusal: Option<&str>,
) -> (r: Result<(), ScriptError<String>>)
    ensures
        (final(arena)@, error::outcome_view(r)) == style_recorded(
            old(arena)@,
            id,
            name@,
            values.model(),
            methods::optional_view(refusal),
        ),
{
    match refusal {
        Some(message) => Err(ScriptError::StyleMessage { message: message.to_owned() }),
        None => arena.push_op(id, SpecOp::ParamStyle(name.to_owned(), values)),
    }
}

/// What became of a style that was addressed by its index.
pub enum StyleOutcome {
    /// The values are to be checked before it is recorded.
    Check(BridgedList),
    /// It is recorded with a placeholder: fill the parameter in later.
    Slot(u16),
}

/// What a style that is addressed by its index does and answers. `name` is the style's name, where
/// the index has one; `missing` is the text of the error for an argument that is missing.
pub open spec fn param_style_applied(
    m: ArenaModel,
    id: u32,
    name: Option<Seq<char>>,
    value: Option<StyleArgumentModel>,
    missing: Seq<char>,
    after: ArenaModel,
    answer: Result<StyleOutcome, ScriptError<String>>,
) -> bool {
    match (name, value) {
        (None, _) => after == m && refused(answer, ScriptError::Fixed(Fault::UnknownStyle)),
        (Some(_), Some(StyleArgumentModel::Value(value))) => after == m && match answer {
            Ok(StyleOutcome::Check(list)) => list.model() == seq![value],
            _ => false,
        },
        (Some(name), Some(StyleArgumentModel::Slot(slot))) => {
            let owed = arena::record(
                m,
                id,
                SpecOp::ParamStyle(name, seq![Bridged::<Seq<char>>::Nil]),
            );
            after == owed.0 && match (answer, owed.1) {
                (Ok(StyleOutcome::Slot(given)), Ok(())) => given == slot,
                (Err(error), Err(expected)) => error::error_view(error) == expected,
                _ => false,
            }
        },
        (Some(name), Some(StyleArgumentModel::Handler)) => after == m && refused(
            answer,
            ScriptError::StyleFunction { name },
        ),
        (Some(_), None) => after == m && refused(
            answer,
            ScriptError::StyleMessage { message: missing },
        ),
    }
}

/// Whether an answer is the given error.
pub open spec fn refused(
    answer: Result<StyleOutcome, ScriptError<String>>,
    expected: ScriptError<Seq<char>>,
) -> bool {
    match answer {
        Ok(_) => false,
        Err(error) => error::error_view(error) == expected,
    }
}

/// The view of an optional argument of a style.
pub open spec fn style_value_view(value: Option<StyleArgument>) -> Option<StyleArgumentModel> {
    match value {
        Some(argument) => Some(argument::style_argument_view(argument)),
        None => None,
    }
}

/// Makes a call of a style that is addressed by its index.
pub fn apply_param_style(
    arena: &mut SpecArena,
    id: u32,
    name: Option<&str>,
    value: Option<StyleArgument>,
    missing: &str,
) -> (r: Result<StyleOutcome, ScriptError<String>>)
    ensures
        param_style_applied(
            old(arena)@,
            id,
            methods::optional_view(name),
            style_value_view(value),
            missing@,
            final(arena)@,
            r,
        ),
{
    let name: &str = match name {
        Some(name) => name,
        None => {
            return Err(ScriptError::Fixed(Fault::UnknownStyle));
        },
    };
    match value {
        Some(StyleArgument::Value(value)) => Ok(StyleOutcome::Check(BridgedList::of_one(value))),
        Some(StyleArgument::Slot(slot)) => {
            let placeholder = BridgedList::of_one(Bridged::Nil);
            match arena.push_op(id, SpecOp::ParamStyle(name.to_owned(), placeholder)) {
                Ok(()) => Ok(StyleOutcome::Slot(slot)),
                Err(error) => Err(error),
            }
        },
        Some(StyleArgument::Handler) => Err(ScriptError::StyleFunction { name: name.to_owned() }),
        None => Err(ScriptError::StyleMessage { message: missing.to_owned() }),
    }
}

/// A behavior that a registered component does not declare does not exist on it; one that it
/// declares is checked against the declaration.
pub proof fn law_registered_components_have_only_what_they_declare(
    m: ArenaModel,
    registry: Seq<RegisteredComponent>,
    id: u32,
    method: Seq<char>,
    arguments: Seq<ArgumentModel>,
    suggestion: Option<Seq<char>>,
)
    requires
        registered_id(m, id) is Some,
        argument::first_slot_of(arguments) is None,
    ensures
        methods::common_behavior(method) && declaration(m, registry, id, method) is None ==> route(
            m,
            registry,
            id,
            method,
            arguments,
            suggestion,
        ) == Err::<Route, ScriptError<Seq<char>>>(methods::unknown(method, suggestion)),
        declaration(m, registry, id, method) is Some ==> route(
            m,
            registry,
            id,
            method,
            arguments,
            suggestion,
        ) matches Ok(Route::Call { .. }),
        route(m, registry, id, method, arguments, suggestion) matches Ok(Route::Ordinary)
            ==> methods::names_slot(method),
{
}

/// No function is registered while a frame is laid out: a list's rows would register theirs anew
/// on every frame.
pub proof fn law_layout_registers_no_functions(
    m: ArenaModel,
    functions: CallbacksModel,
    id: u32,
    method: Seq<char>,
    arguments: Seq<ArgumentModel>,
    facts: FactsModel,
    scope: HostScope,
    call: Option<u64>,
)
    requires
        scope.phase == Some(ScopePhase::Layout),
    ensures
        ordinary(m, functions, id, method, arguments, facts, scope, call).1 == functions,
{
}

/// A call that fails on an element that exists records nothing on any element.
pub proof fn law_failed_call_records_nothing(
    m: ArenaModel,
    functions: CallbacksModel,
    id: u32,
    method: Seq<char>,
    arguments: Seq<ArgumentModel>,
    facts: FactsModel,
    scope: HostScope,
    call: Option<u64>,
)
    requires
        id < m.nodes.len(),
        ordinary(m, functions, id, method, arguments, facts, scope, call).2 is Err,
    ensures
        ordinary(m, functions, id, method, arguments, facts, scope, call).0 == m,
        ordinary(m, functions, id, method, arguments, facts, scope, call).1 == functions,
{
}

proof fn lemma_click_names()
    ensures
        "on_click"@ != "disabled"@,
        "on_click"@ != "selected"@,
        "disabled"@ != "selected"@,
{
    reveal_strlit("on_click");
    assert("on_click"@.len() == 8);
    reveal_strlit("disabled");
    assert("disabled"@.len() == 8);
    reveal_strlit("selected");
    assert("selected"@.len() == 8);
    assert("on_click"@[0] != "disabled"@[0]);
    assert("on_click"@[0] != "selected"@[0]);
    assert("disabled"@[0] != "selected"@[0]);
}

/// Whether one function more is registered, under a number: the given one, for the view,
/// application and call in progress.
pub open spec fn adds_function(
    before: CallbacksModel,
    after: CallbacksModel,
    number: u64,
    handler: u64,
    scope: HostScope,
    call: Option<u64>,
) -> bool {
    &&& after.entries.len() == before.entries.len() + 1
    &&& after.entries.drop_last() == before.entries
    &&& after.last_id == number == before.last_id + 1
    &&& after.open == before.open
    &&& after.entries.last().id == number
    &&& after.entries.last().entry.value == handler
    &&& after.entries.last().entry.view == scope.view
    &&& after.entries.last().entry.registered_in == call
    &&& match scope.application {
        Some(current) => after.entries.last().entry.application == Some(current.generation),
        None => after.entries.last().entry.application is None,
    }
}

/// Whether values are the arguments of a call, all of them and in their order.
pub open spec fn are_arguments(
    values: Seq<Bridged<Seq<char>>>,
    arguments: Seq<ArgumentModel>,
) -> bool {
    &&& values.len() == arguments.len()
    &&& forall|i: int|
        0 <= i < arguments.len() ==> (#[trigger] arguments[i]) == ArgumentModel::Value(values[i])
}

/// Whether the first argument is the number of an element.
pub open spec fn numbers_element(arguments: Seq<ArgumentModel>, element: u32) -> bool {
    arguments.len() > 0 && (arguments[0] matches ArgumentModel::Value(Bridged::Number(value))
        && number::narrow_to_u32(value.narrow) == element)
}

/// A call on an element that is recorded adds one thing to that element and changes nothing else,
/// but that an element it was given gets its place there. What is added is what was asked for: the
/// element given as a child or for the place the method names, the function given for the event the
/// method names, or the values given for the property or style. A function is registered with it,
/// for the view, application and call in progress, and never while a frame is laid out.
pub proof fn law_a_call_records_what_was_asked(
    m: ArenaModel,
    functions: CallbacksModel,
    id: u32,
    method: Seq<char>,
    arguments: Seq<ArgumentModel>,
    facts: FactsModel,
    scope: HostScope,
    call: Option<u64>,
)
    requires
        functions.last_id < u64::MAX,
    ensures
        ({
            let (after, registered, answer) = ordinary(
                m,
                functions,
                id,
                method,
                arguments,
                facts,
                scope,
                call,
            );
            match answer {
                Ok(AppliedModel::Recorded) => {
                    &&& id < m.nodes.len()
                    &&& after.nodes.len() == m.nodes.len()
                    &&& after.virtual_items == m.virtual_items
                    &&& after.nodes[id as int].ops.drop_last() == m.nodes[id as int].ops
                    &&& after.nodes[id as int].ops.len() == m.nodes[id as int].ops.len() + 1
                    &&& forall|i: int|
                        0 <= i < m.nodes.len() ==> (#[trigger] after.nodes[i]).component
                            == m.nodes[i].component && (i != id ==> after.nodes[i].ops
                            == m.nodes[i].ops)
                    &&& match after.nodes[id as int].ops.last() {
                        SpecOp::Child(child) => {
                            &&& method == "child"@
                            &&& numbers_element(arguments, child)
                            &&& takes_place(m, after, child)
                            &&& registered == functions
                        },
                        SpecOp::Slot(name, element) => {
                            &&& name == method
                            &&& methods::names_slot(method)
                            &&& numbers_element(arguments, element)
                            &&& takes_place(m, after, element)
                            &&& registered == functions
                        },
                        SpecOp::ActionCallback(action, number) => {
                            &&& method == "on_action"@
                            &&& action.len() > 0
                            &&& scope.phase != Some(ScopePhase::Layout)
                            &&& arguments.len() > 1
                            &&& arguments[0] == ArgumentModel::Value(Bridged::Str(action))
                            &&& arguments[1] is Handler
                            &&& adds_function(
                                functions,
                                registered,
                                number,
                                arguments[1]->Handler_0,
                                scope,
                                call,
                            )
                            &&& keeps_places(m, after)
                        },
                        SpecOp::Callback(name, number) => {
                            &&& scope.phase != Some(ScopePhase::Layout)
                            &&& keeps_places(m, after)
                            &&& {
                                ||| name == method && arguments.len() > 0 && arguments[0]
                                    is Handler && adds_function(
                                    functions,
                                    registered,
                                    number,
                                    arguments[0]->Handler_0,
                                    scope,
                                    call,
                                )
                                ||| (method == "on_mouse_down"@ || method == "on_mouse_up"@)
                                    && arguments.len() > 1 && (
                                arguments[0] matches ArgumentModel::Value(Bridged::Str(button))
                                    && name == method + "_"@ + button) && arguments[1] is Handler
                                    && adds_function(
                                    functions,
                                    registered,
                                    number,
                                    arguments[1]->Handler_0,
                                    scope,
                                    call,
                                )
                            }
                        },
                        SpecOp::Method(name, values) => {
                            &&& name == method
                            &&& are_arguments(values, arguments)
                            &&& registered == functions
                            &&& keeps_places(m, after)
                        },
                        SpecOp::NullaryStyle(index) => {
                            &&& facts.nullary == Some(index)
                            &&& registered == functions
                            &&& keeps_places(m, after)
                        },
                        _ => false,
                    }
                },
                Ok(AppliedModel::Style(values)) => {
                    &&& after == m
                    &&& registered == functions
                    &&& facts.parametric
                    &&& facts.nullary is None
                    &&& are_arguments(values, arguments)
                },
                Err(_) => true,
            }
        }),
{
    argument::law_values_are_handed_on_in_order(arguments, method);
    argument::law_an_argument_is_found_where_it_stands(arguments, 0);
    argument::law_an_argument_is_found_where_it_stands(arguments, 1);
    match named_element(arguments) {
        Some(element) => {
            arena::law_a_child_is_put_in_one_place(m, id, element);
            arena::law_an_element_is_changed_in_one_respect(
                m,
                element,
                SpecOp::Slot(method, element),
            );
            let after = arena::claim(m, element).0;
            arena::law_an_element_is_changed_in_one_respect(
                after,
                id,
                SpecOp::Slot(method, element),
            );
            assert(m.nodes[id as int].ops.push(SpecOp::Child(element)).drop_last()
                =~= m.nodes[id as int].ops);
        },
        None => {},
    }
    match argument::first_value_of(arguments) {
        Some(Bridged::Str(button)) => {
            methods::law_a_button_is_part_of_its_name(method, button);
        },
        _ => {},
    }
    let after = ordinary(m, functions, id, method, arguments, facts, scope, call);
    assert forall|entry: CallbackEntry| #[trigger]
        callbacks::registered(functions, entry).entries.drop_last() =~= functions.entries by {}
    assert forall|op: SpecOp<Seq<char>, Seq<Bridged<Seq<char>>>>|
        #[trigger] m.nodes[id as int].ops.push(op).drop_last() =~= m.nodes[id as int].ops by {}
    assert(method != "child"@ && !methods::names_slot(method) && after.2 is Ok ==> keeps_places(
        m,
        after.0,
    ));
}

/// Whether exactly one element more has its place.
pub open spec fn takes_place(before: ArenaModel, after: ArenaModel, element: u32) -> bool {
    &&& element < before.nodes.len()
    &&& !before.nodes[element as int].claimed
    &&& after.nodes[element as int].claimed
    &&& forall|i: int|
        0 <= i < before.nodes.len() && i != element ==> (#[trigger] after.nodes[i]).claimed
            == before.nodes[i].claimed
}

/// Whether the same elements have their place.
pub open spec fn keeps_places(before: ArenaModel, after: ArenaModel) -> bool {
    forall|i: int|
        0 <= i < before.nodes.len() ==> (#[trigger] after.nodes[i]).claimed
            == before.nodes[i].claimed
}

/// A panel belongs to a resizable group only; any other element may be put among any element's
/// children.
pub proof fn law_a_panel_belongs_to_a_group(m: ArenaModel, id: u32, child: u32)
    requires
        id < m.nodes.len(),
        child < m.nodes.len(),
        !m.nodes[child as int].claimed,
    ensures
        attaching(m, id, child).1 is Ok <==> (m.nodes[child as int].component is ResizablePanel
            ==> m.nodes[id as int].component is Resizable),
        attaching(m, id, child).1 is Err ==> attaching(m, id, child).0 == m,
        attaching(m, id, child).1 is Ok ==> attaching(m, id, child) == arena::attached(
            m,
            id,
            child,
        ),
{
}

/// A named place is filled where the name is one, and the element exists and has no place yet.
pub proof fn law_a_named_place_takes_an_element(
    m: ArenaModel,
    id: u32,
    name: Seq<char>,
    element: u32,
)
    requires
        id < m.nodes.len(),
    ensures
        ({
            let (after, answer) = filling(m, id, name, element);
            &&& answer is Ok <==> methods::names_slot(name) && element < m.nodes.len()
                && !m.nodes[element as int].claimed
            &&& answer is Err ==> after == m
            &&& answer is Ok ==> takes_place(m, after, element) && after.nodes[id as int].ops
                == m.nodes[id as int].ops.push(SpecOp::Slot(name, element))
        }),
{
}

/// Opening a state style makes one new element, at the number it is answered with: a plain one that
/// has its place and nothing recorded on it. It is the last thing recorded on the element whose
/// style it is, and no other element changes.
pub proof fn law_a_state_style_has_an_element_of_its_own(m: ArenaModel, id: u32, name: Seq<char>)
    requires
        m.nodes.len() < u32::MAX,
        id < m.nodes.len(),
    ensures
        ({
            let (after, answer) = state_begun(m, id, name);
            &&& answer is Ok <==> methods::names_state(name)
            &&& answer is Err ==> after == m
            &&& answer matches Ok(node) ==> {
                &&& node == m.nodes.len()
                &&& after.nodes.len() == node + 1
                &&& after.nodes[node as int].component is Div
                &&& after.nodes[node as int].claimed
                &&& after.nodes[node as int].ops.len() == 0
                &&& after.nodes[id as int].ops == m.nodes[id as int].ops.push(
                    SpecOp::StateStyle(name, node),
                )
                &&& after.nodes[id as int].component == m.nodes[id as int].component
                &&& after.nodes[id as int].claimed == m.nodes[id as int].claimed
                &&& forall|i: int|
                    0 <= i < m.nodes.len() && i != id ==> #[trigger] after.nodes[i] == m.nodes[i]
                &&& after.virtual_items == m.virtual_items
            }
        }),
{
}

proof fn lemma_first_component(registry: Seq<RegisteredComponent>, id: u64)
    ensures
        match component_index(registry, id) {
            Some(at) => 0 <= at < registry.len() && registry[at].id == id && forall|j: int|
                0 <= j < at ==> (#[trigger] registry[j]).id != id,
            None => forall|j: int| 0 <= j < registry.len() ==> (#[trigger] registry[j]).id != id,
        },
    decreases registry.len(),
{
    if registry.len() > 0 {
        let front = registry.drop_last();
        lemma_first_component(front, id);
        assert forall|j: int| 0 <= j < front.len() implies front[j] == #[trigger] registry[j] by {}
    }
}

proof fn lemma_first_method(methods: Seq<MethodDescriptor>, method: Seq<char>)
    ensures
        match method_index(methods, method) {
            Some(at) => 0 <= at < methods.len() && methods[at].name@ == method && forall|j: int|
                0 <= j < at ==> (#[trigger] methods[j]).name@ != method,
            None => forall|j: int|
                0 <= j < methods.len() ==> (#[trigger] methods[j]).name@ != method,
        },
    decreases methods.len(),
{
    if methods.len() > 0 {
        let front = methods.drop_last();
        lemma_first_method(front, method);
        assert forall|j: int| 0 <= j < front.len() implies front[j] == #[trigger] methods[j] by {}
    }
}

/// A call on a registered component goes to the declaration of that method by that component, and
/// is recorded as the function given for a click, as the property of that name, or as what the
/// component made, as the method's name says. A call on any other element goes nowhere else, and a
/// placeholder is filled in later where it stands, but on no registered component.
pub proof fn law_a_call_goes_to_its_declaration(
    m: ArenaModel,
    registry: Seq<RegisteredComponent>,
    id: u32,
    method: Seq<char>,
    arguments: Seq<ArgumentModel>,
    suggestion: Option<Seq<char>>,
)
    requires
        registry.len() <= usize::MAX,
        arguments.len() <= usize::MAX,
        forall|i: int|
            0 <= i < registry.len() ==> (#[trigger] registry[i]).methods@.len() <= usize::MAX,
    ensures
        match route(m, registry, id, method, arguments, suggestion) {
            Ok(Route::Call { component, method: at, after }) => {
                &&& id < m.nodes.len()
                &&& m.nodes[id as int].component is Registered
                &&& component < registry.len()
                &&& registry[component as int].id
                    == m.nodes[id as int].component->Registered_component_id
                &&& at < registry[component as int].methods@.len()
                &&& registry[component as int].methods@[at as int].name@ == method
                &&& after == AfterCall::Click <==> method == "on_click"@
                &&& after == AfterCall::Property <==> method == "disabled"@ || method
                    == "selected"@
                &&& forall|i: int| 0 <= i < arguments.len() ==> !((#[trigger] arguments[i]) is Slot)
            },
            Ok(Route::Slot { position, argument }) => {
                &&& position < arguments.len()
                &&& arguments[position as int] == ArgumentModel::Slot(argument)
                &&& forall|i: int| 0 <= i < position ==> !((#[trigger] arguments[i]) is Slot)
                &&& id < m.nodes.len() ==> !(m.nodes[id as int].component is Registered)
            },
            Ok(Route::Ordinary) => {
                &&& forall|i: int| 0 <= i < arguments.len() ==> !((#[trigger] arguments[i]) is Slot)
                &&& id < m.nodes.len() && m.nodes[id as int].component is Registered
                    ==> methods::names_slot(method)
            },
            Err(_) => id < m.nodes.len() && m.nodes[id as int].component is Registered,
        },
{
    argument::law_the_first_placeholder_is_found(arguments);
    lemma_click_names();
    match registered_id(m, id) {
        Some(component) => {
            lemma_first_component(registry, component);
            match component_index(registry, component) {
                Some(at) => {
                    lemma_first_method(registry[at].methods@, method);
                },
                None => {},
            }
        },
        None => {},
    }
}

/// A declaration is found where there is one, and the first of several.
pub proof fn law_the_first_declaration_counts(
    registry: Seq<RegisteredComponent>,
    id: u64,
    methods: Seq<MethodDescriptor>,
    method: Seq<char>,
)
    ensures
        match component_index(registry, id) {
            Some(at) => 0 <= at < registry.len() && registry[at].id == id && forall|j: int|
                0 <= j < at ==> (#[trigger] registry[j]).id != id,
            None => forall|j: int| 0 <= j < registry.len() ==> (#[trigger] registry[j]).id != id,
        },
        match method_index(methods, method) {
            Some(at) => 0 <= at < methods.len() && methods[at].name@ == method && forall|j: int|
                0 <= j < at ==> (#[trigger] methods[j]).name@ != method,
            None => forall|j: int|
                0 <= j < methods.len() ==> (#[trigger] methods[j]).name@ != method,
        },
{
    lemma_first_component(registry, id);
    lemma_first_method(methods, method);
}

/// Ending a call on a registered component records, last on its element, the one function it was
/// given for a click, or what the component made, under the method's name.
pub proof fn law_a_component_call_records_what_was_made(
    m: ArenaModel,
    id: u32,
    name: Seq<char>,
    arguments: Seq<CheckedModel>,
    payload: u64,
)
    requires
        id < m.nodes.len(),
    ensures
        component_recorded(m, id, name, false, arguments, payload).1 is Ok,
        component_recorded(m, id, name, false, arguments, payload).0.nodes[id as int].ops
            == m.nodes[id as int].ops.push(SpecOp::RegisteredMethod(name, payload)),
        ({
            let (after, answer) = component_recorded(m, id, name, true, arguments, payload);
            &&& answer is Ok <==> arguments.len() == 1 && arguments[0] is Callback
            &&& answer is Ok ==> after.nodes[id as int].ops == m.nodes[id as int].ops.push(
                SpecOp::Callback("on_click"@, arguments[0]->Callback_0),
            )
            &&& answer is Err ==> after == m
        }),
{
}

/// A style is recorded with its own name and values unless its check objected, whose words are then
/// the error.
pub proof fn law_a_style_is_recorded_with_its_values(
    m: ArenaModel,
    id: u32,
    name: Seq<char>,
    values: Seq<Bridged<Seq<char>>>,
    refusal: Option<Seq<char>>,
)
    requires
        id < m.nodes.len(),
    ensures
        ({
            let (after, answer) = style_recorded(m, id, name, values, refusal);
            match refusal {
                Some(words) => after == m && answer == Err::<(), ScriptError<Seq<char>>>(
                    ScriptError::StyleMessage { message: words },
                ),
                None => answer is Ok && after.nodes[id as int].ops == m.nodes[id as int].ops.push(
                    SpecOp::ParamStyle(name, values),
                ),
            }
        }),
{
}

/// A dock's group, panel or tile is named by a number that is not below zero, whatever follows it.
pub proof fn law_a_dock_is_named_by_a_number(
    values: Seq<Bridged<Seq<char>>>,
    others: Seq<Bridged<Seq<char>>>,
)
    ensures
        dock_target(values) <==> values.len() > 0 && (values[0] matches Bridged::Number(handle) && (
        handle.narrow <= 0x7F80_0000 || handle.narrow == 0x8000_0000)),
        values.len() > 0 && others.len() > 0 && values[0] == others[0] ==> dock_target(values)
            == dock_target(others),
{
    if values.len() > 0 {
        match values[0] {
            Bridged::Number(handle) => {
                number::law_singles_are_read_off_their_bits(handle.narrow);
            },
            _ => {},
        }
    }
}

/// What a call records is of the kind that its method asks for: functions for the methods that take
/// one, values for those that set a property, command a dock or draw, an element for those that
/// place one, and styles for no other methods. A function is taken from the first argument wherever
/// the element exists and no frame is laid out, and nothing else is taken for it.
pub proof fn law_a_method_records_what_it_is_for(
    m: ArenaModel,
    functions: CallbacksModel,
    id: u32,
    method: Seq<char>,
    arguments: Seq<ArgumentModel>,
    facts: FactsModel,
    scope: HostScope,
    call: Option<u64>,
)
    requires
        method != "child"@,
    ensures
        ({
            let (after, registered, answer) = ordinary(
                m,
                functions,
                id,
                method,
                arguments,
                facts,
                scope,
                call,
            );
            let op = after.nodes[id as int].ops.last();
            let layout = scope.phase == Some(ScopePhase::Layout);
            let valued = methods::sets_property(method) || methods::commands_dock(method)
                || methods::draws_path(method);
            let mouse = method == "on_mouse_down"@ || method == "on_mouse_up"@;
            &&& methods::takes_handler(method) ==> {
                &&& answer == Ok::<AppliedModel, ScriptError<Seq<char>>>(AppliedModel::Recorded)
                    <==> !layout && arguments.len() > 0 && arguments[0] is Handler && id
                    < m.nodes.len()
                &&& answer is Ok ==> op is Callback
                &&& layout ==> answer == Err::<AppliedModel, ScriptError<Seq<char>>>(
                    ScriptError::HandlerPhase { method },
                )
            }
            &&& valued && answer is Ok ==> answer->Ok_0 is Recorded && op is Method
            &&& methods::names_slot(method) && answer is Ok ==> op is Slot
            &&& mouse && answer is Ok ==> op is Callback
            &&& (methods::takes_handler(method) || valued || methods::names_slot(method) || mouse
                || method == "on_action"@) ==> !(answer matches Ok(AppliedModel::Style(_)))
            &&& !(methods::takes_handler(method) || valued || methods::names_slot(method) || mouse
                || method == "on_action"@) ==> {
                &&& registered == functions
                &&& answer is Ok <==> (facts.nullary is Some && id < m.nodes.len())
                    || (facts.nullary is None && facts.parametric && argument::values_of(
                    arguments,
                    method,
                ) is Ok)
                &&& answer matches Ok(AppliedModel::Recorded) ==> op is NullaryStyle
            }
        }),
{
    reveal_strlit("on_action");
    reveal_strlit("on_mouse_down");
    reveal_strlit("on_mouse_up");
    assert("on_action"@.len() == 9 && "on_mouse_down"@.len() == 13 && "on_mouse_up"@.len() == 11);
    methods::law_a_method_has_one_meaning(method);
    argument::law_an_argument_is_found_where_it_stands(arguments, 0);
    argument::law_an_argument_is_found_where_it_stands(arguments, 1);
    match named_element(arguments) {
        Some(element) => {
            let after = arena::claim(m, element).0;
            arena::law_an_element_is_changed_in_one_respect(
                after,
                id,
                SpecOp::Slot(method, element),
            );
        },
        None => {},
    }
}

/// A call that is refused, or left to a component or a template, changes nothing by itself; what is
/// left over is told with where it goes.
pub proof fn law_a_call_that_goes_elsewhere_changes_nothing(
    m: ArenaModel,
    functions: CallbacksModel,
    registry: Seq<RegisteredComponent>,
    id: u32,
    method: Seq<char>,
    arguments: Seq<ArgumentModel>,
    facts: FactsModel,
    scope: HostScope,
    call: Option<u64>,
    after: ArenaModel,
    functions_after: CallbacksModel,
    answer: Result<ApplyOutcome, ScriptError<String>>,
)
    requires
        applied(
            m,
            functions,
            registry,
            id,
            method,
            arguments,
            facts,
            scope,
            call,
            after,
            functions_after,
            answer,
        ),
    ensures
        ({
            let chosen = route(m, registry, id, method, arguments, facts.suggestion);
            &&& answer matches Ok(ApplyOutcome::Slot { position, argument }) ==> chosen == Ok::<
                Route,
                ScriptError<Seq<char>>,
            >(Route::Slot { position, argument }) && after == m && functions_after == functions
            &&& answer matches Ok(
                ApplyOutcome::Call { component, method: index, after: next },
            ) ==> chosen == Ok::<Route, ScriptError<Seq<char>>>(
                Route::Call { component, method: index, after: next },
            ) && after == m && functions_after == functions
            &&& (answer matches Ok(ApplyOutcome::Recorded)) || (answer matches Ok(
                ApplyOutcome::Style(_),
            )) ==> chosen == Ok::<Route, ScriptError<Seq<char>>>(Route::Ordinary) && after
                == ordinary(m, functions, id, method, arguments, facts, scope, call).0
                && functions_after == ordinary(
                m,
                functions,
                id,
                method,
                arguments,
                facts,
                scope,
                call,
            ).1
            &&& chosen is Err ==> answer is Err && after == m && functions_after == functions
        }),
{
}

} // verus!
