//! The arguments of a call that a script makes on an element or a component.
use crate::error::Fault;
use crate::error::ScriptError;
use crate::error;
use crate::number::Number;
use crate::number;
use crate::value::ScriptMarks;
use crate::value::ScriptValue;
use smallvec::SmallVec;
use vstd::prelude::*;
use vstd::string::*;

verus! {

/// How deep arguments may be nested.
pub const MAX_COMPONENT_ARGUMENT_DEPTH: usize = 32;

/// How many values the arguments of one call may hold, over all levels.
pub const MAX_COMPONENT_ARGUMENT_NODES: usize = 10_000;

/// A value of one of the four kinds that styles and properties take. `S` is `String` in running
/// code and a sequence of characters in statements.
pub enum Bridged<S> {
    Nil,
    Bool(bool),
    Number(Number),
    Str(S),
}

/// A value with its string replaced by its characters.
pub open spec fn bridged_view(value: Bridged<String>) -> Bridged<Seq<char>> {
    match value {
        Bridged::Nil => Bridged::Nil,
        Bridged::Bool(flag) => Bridged::Bool(flag),
        Bridged::Number(number) => Bridged::Number(number),
        Bridged::Str(string) => Bridged::Str(string@),
    }
}

impl Bridged<String> {
    /// The same value again.
    pub fn copy(&self) -> (r: Bridged<String>)
        ensures
            bridged_view(r) == bridged_view(*self),
    {
        match self {
            Bridged::Nil => Bridged::Nil,
            Bridged::Bool(flag) => Bridged::Bool(*flag),
            Bridged::Number(number) => Bridged::Number(*number),
            Bridged::Str(string) => Bridged::Str(string.as_str().to_owned()),
        }
    }
}

/// One argument. Functions are named by the number under which the embedding application keeps
/// them.
pub enum Argument {
    Value(Bridged<String>),
    Handler(u64),
    Element(u32),
    Entity(u64),
    RetainedState { handle: u64, proof: String },
    Array(Vec<Argument>),
    /// A placeholder for the given parameter of a template.
    Slot(u16),
}

/// One argument, with sequences in place of vectors and strings.
pub enum ArgumentModel {
    Value(Bridged<Seq<char>>),
    Handler(u64),
    Element(u32),
    Entity(u64),
    RetainedState { handle: u64, proof: Seq<char> },
    Array(Seq<ArgumentModel>),
    Slot(u16),
}

impl Argument {
    /// The argument that this stands for.
    pub open spec fn model(self) -> ArgumentModel
        decreases self,
    {
        match self {
            Argument::Value(value) => ArgumentModel::Value(bridged_view(value)),
            Argument::Handler(handler) => ArgumentModel::Handler(handler),
            Argument::Element(element) => ArgumentModel::Element(element),
            Argument::Entity(handle) => ArgumentModel::Entity(handle),
            Argument::RetainedState { handle, proof } => ArgumentModel::RetainedState {
                handle,
                proof: proof@,
            },
            Argument::Array(items) => ArgumentModel::Array(
                Seq::new(
                    items@.len(),
                    |i: int|
                        if 0 <= i < items@.len() {
                            items@[i].model()
                        } else {
                            arbitrary()
                        },
                ),
            ),
            Argument::Slot(slot) => ArgumentModel::Slot(slot),
        }
    }
}

/// The arguments that a list stands for.
pub open spec fn argument_models(items: Seq<Argument>) -> Seq<ArgumentModel> {
    Seq::new(items.len(), |i: int| items[i].model())
}

/// The values that a list stands for.
pub open spec fn bridged_views(items: Seq<Bridged<String>>) -> Seq<Bridged<Seq<char>>> {
    Seq::new(items.len(), |i: int| bridged_view(items[i]))
}

/// A list of arguments that keeps up to two of them in place.
#[verifier::external_body]
pub struct ArgumentList {
    items: SmallVec<[Argument; 2]>,
}

/// The arguments in a list, first to last.
pub uninterp spec fn argument_items(list: ArgumentList) -> Seq<Argument>;

/// A list of values that keeps up to two of them in place.
#[verifier::external_body]
pub struct BridgedList {
    items: SmallVec<[Bridged<String>; 2]>,
}

/// The values in a list, first to last.
pub uninterp spec fn bridged_items(list: BridgedList) -> Seq<Bridged<String>>;

impl ArgumentList {
    /// `SmallVec::new` makes an empty list.
    #[verifier::external_body]
    fn empty() -> (r: ArgumentList)
        ensures
            argument_items(r) == Seq::<Argument>::empty(),
    {
        ArgumentList { items: SmallVec::new() }
    }

    /// `SmallVec::push` adds an item behind all others. It would panic only where the next power of
    /// two of items does not fit into memory's address range, which the bound leaves out.
    #[verifier::external_body]
    fn add_last(&mut self, argument: Argument)
        requires
            argument_items(*old(self)).len() < MAX_COMPONENT_ARGUMENT_NODES,
        ensures
            argument_items(*final(self)) == argument_items(*old(self)).push(argument),
    {
        self.items.push(argument);
    }

    /// `SmallVec::get` (that of the slice a `SmallVec` dereferences to) gives the item at an index,
    /// and nothing behind the last one.
    #[verifier::external_body]
    pub(crate) fn at(&self, index: usize) -> (r: Option<&Argument>)
        ensures
            match r {
                Some(argument) => index < argument_items(*self).len() && *argument
                    == argument_items(*self)[index as int],
                None => index >= argument_items(*self).len(),
            },
    {
        self.items.get(index)
    }

    /// `SmallVec::len` counts the items.
    #[verifier::external_body]
    pub(crate) fn count(&self) -> (r: usize)
        ensures
            r == argument_items(*self).len(),
    {
        self.items.len()
    }
}

impl BridgedList {
    /// `SmallVec::new` makes an empty list.
    #[verifier::external_body]
    fn empty() -> (r: BridgedList)
        ensures
            bridged_items(r) == Seq::<Bridged<String>>::empty(),
    {
        BridgedList { items: SmallVec::new() }
    }

    /// `SmallVec::push` adds an item behind all others. It would panic only where the next power of
    /// two of items does not fit into memory's address range, which the bound leaves out.
    #[verifier::external_body]
    fn add_last(&mut self, value: Bridged<String>)
        requires
            bridged_items(*old(self)).len() < MAX_COMPONENT_ARGUMENT_NODES,
        ensures
            bridged_items(*final(self)) == bridged_items(*old(self)).push(value),
    {
        self.items.push(value);
    }

    /// `SmallVec::get` (that of the slice a `SmallVec` dereferences to) gives the item at an index,
    /// and nothing behind the last one.
    #[verifier::external_body]
    fn at(&self, index: usize) -> (r: Option<&Bridged<String>>)
        ensures
            match r {
                Some(value) => index < bridged_items(*self).len() && *value == bridged_items(
                    *self,
                )[index as int],
                None => index >= bridged_items(*self).len(),
            },
    {
        self.items.get(index)
    }

    /// The values in the list.
    pub open spec fn model(self) -> Seq<Bridged<Seq<char>>> {
        bridged_views(bridged_items(self))
    }

    /// The value at an index.
    pub fn value_at(&self, index: usize) -> (r: Option<&Bridged<String>>)
        ensures
            match r {
                Some(value) => index < self.model().len() && bridged_view(*value)
                    == self.model()[index as int],
                None => index >= self.model().len(),
            },
    {
        self.at(index)
    }

    /// The list of one value.
    pub fn of_one(value: Bridged<String>) -> (r: BridgedList)
        ensures
            r.model() == seq![bridged_view(value)],
    {
        let mut list = BridgedList::empty();
        list.add_last(value);
        assert(list.model() =~= seq![bridged_view(value)]);
        list
    }
}

/// The template parameter that a value is a placeholder for.
pub open spec fn slot_of(value: ScriptValue) -> Option<u16> {
    let mark = match value {
        ScriptValue::Array { slot, .. } => slot,
        ScriptValue::Object(object) => object.marks.slot,
        _ => None,
    };
    match mark {
        Some(number) => number::wide_to_slot(number.wide),
        None => None,
    }
}

/// The template parameter that a value is a placeholder for.
pub fn slot_index(value: &ScriptValue) -> (r: Option<u16>)
    ensures
        r == slot_of(*value),
{
    let mark: Option<Number> = match value {
        ScriptValue::Array { slot, .. } => *slot,
        ScriptValue::Object(object) => object.marks.slot,
        _ => None,
    };
    match mark {
        Some(number) => number.slot(),
        None => None,
    }
}

/// What a value that is no function comes to for a style or a property.
pub open spec fn bridge_of(value: ScriptValue) -> Result<
    Bridged<Seq<char>>,
    ScriptError<Seq<char>>,
> {
    match value {
        ScriptValue::Undefined | ScriptValue::Null => Ok(Bridged::Nil),
        ScriptValue::Boolean(flag) => Ok(Bridged::Bool(flag)),
        ScriptValue::Number(number) => Ok(Bridged::Number(number)),
        ScriptValue::Text(string) => Ok(Bridged::Str(string@)),
        ScriptValue::Broken(message) | ScriptValue::Raised(message) => Err(
            ScriptError::Raised { message: message@ },
        ),
        _ => Err(ScriptError::Fixed(Fault::ArgumentType)),
    }
}

/// The view of a converted value.
pub open spec fn bridge_view(answer: Result<Bridged<String>, ScriptError<String>>) -> Result<
    Bridged<Seq<char>>,
    ScriptError<Seq<char>>,
> {
    match answer {
        Ok(value) => Ok(bridged_view(value)),
        Err(error) => Err(error::error_view(error)),
    }
}

/// Converts a value that is no function.
pub fn bridge(value: &ScriptValue) -> (r: Result<Bridged<String>, ScriptError<String>>)
    ensures
        bridge_view(r) == bridge_of(*value),
{
    match value {
        ScriptValue::Undefined | ScriptValue::Null => Ok(Bridged::Nil),
        ScriptValue::Boolean(flag) => Ok(Bridged::Bool(*flag)),
        ScriptValue::Number(number) => Ok(Bridged::Number(*number)),
        ScriptValue::Text(string) => Ok(Bridged::Str(string.as_str().to_owned())),
        ScriptValue::Broken(message) | ScriptValue::Raised(message) => Err(
            ScriptError::Raised { message: message.as_str().to_owned() },
        ),
        _ => Err(ScriptError::Fixed(Fault::ArgumentType)),
    }
}

/// What an object's marks make of it as an argument: an element before an entity before a retained
/// component state, which takes both its handle and its proof.
pub open spec fn marked(marks: ScriptMarks) -> Option<ArgumentModel> {
    match (marks.element, marks.handle, marks.state_handle, marks.state_proof) {
        (Some(element), _, _, _) => Some(ArgumentModel::Element(element)),
        (None, Some(handle), _, _) => Some(ArgumentModel::Entity(handle)),
        (None, None, Some(handle), Some(proof)) => Some(
            ArgumentModel::RetainedState { handle, proof: proof@ },
        ),
        _ => None,
    }
}

fn marked_argument(marks: &ScriptMarks) -> (r: Option<Argument>)
    ensures
        match r {
            Some(argument) => marked(*marks) == Some(argument.model()),
            None => marked(*marks) is None,
        },
{
    match marks.element {
        Some(element) => {
            return Some(Argument::Element(element));
        },
        None => {},
    }
    match marks.handle {
        Some(handle) => {
            return Some(Argument::Entity(handle));
        },
        None => {},
    }
    match (marks.state_handle, &marks.state_proof) {
        (Some(handle), Some(proof)) => Some(
            Argument::RetainedState { handle, proof: proof.as_str().to_owned() },
        ),
        _ => None,
    }
}

/// What a value comes to as an argument, and how many values were counted after it.
pub open spec fn argument_of(value: ScriptValue, depth: nat, nodes: nat) -> Result<
    (ArgumentModel, nat),
    ScriptError<Seq<char>>,
>
    decreases value,
{
    let counted = nodes + 1;
    if depth > MAX_COMPONENT_ARGUMENT_DEPTH {
        Err(ScriptError::Fixed(Fault::ArgumentDepth))
    } else if counted > MAX_COMPONENT_ARGUMENT_NODES {
        Err(ScriptError::Fixed(Fault::ArgumentNodes))
    } else if value is Function {
        Ok((ArgumentModel::Handler(value->Function_0), counted))
    } else if slot_of(value) is Some {
        Ok((ArgumentModel::Slot(slot_of(value)->Some_0), counted))
    } else {
        match value {
            ScriptValue::Array { slot, items } => match arguments_of(items@, depth + 1, counted) {
                Ok((models, after)) => Ok((ArgumentModel::Array(models), after)),
                Err(error) => Err(error),
            },
            ScriptValue::TooLong(message) => Err(ScriptError::Raised { message: message@ }),
            ScriptValue::Object(object) => match marked(object.marks) {
                Some(argument) => Ok((argument, counted)),
                None => Err(ScriptError::Fixed(Fault::ArgumentType)),
            },
            _ => match bridge_of(value) {
                Ok(bridged) => Ok((ArgumentModel::Value(bridged), counted)),
                Err(error) => Err(error),
            },
        }
    }
}

/// What values come to as arguments, first to last.
pub open spec fn arguments_of(items: Seq<ScriptValue>, depth: nat, nodes: nat) -> Result<
    (Seq<ArgumentModel>, nat),
    ScriptError<Seq<char>>,
>
    decreases items,
{
    if items.len() == 0 {
        Ok((Seq::empty(), nodes))
    } else {
        match arguments_of(items.drop_last(), depth, nodes) {
            Err(error) => Err(error),
            Ok((models, used)) => match items.last() {
                ScriptValue::Raised(message) => Err(ScriptError::Raised { message: message@ }),
                _ => match argument_of(items.last(), depth, used) {
                    Ok((model, after)) => Ok((models.push(model), after)),
                    Err(error) => Err(error),
                },
            },
        }
    }
}

proof fn lemma_arguments_stop(items: Seq<ScriptValue>, upto: int, depth: nat, nodes: nat)
    requires
        0 <= upto <= items.len(),
        arguments_of(items.take(upto), depth, nodes) is Err,
    ensures
        arguments_of(items, depth, nodes) == arguments_of(items.take(upto), depth, nodes),
    decreases items.len() - upto,
{
    if upto == items.len() {
        assert(items.take(upto) =~= items);
    } else {
        assert(items.take(upto + 1).drop_last() =~= items.take(upto));
        lemma_arguments_stop(items, upto + 1, depth, nodes);
    }
}

/// Arguments count at least one value each.
proof fn lemma_arguments_count(items: Seq<ScriptValue>, depth: nat, nodes: nat)
    requires
        arguments_of(items, depth, nodes) is Ok,
        nodes <= MAX_COMPONENT_ARGUMENT_NODES,
    ensures
        arguments_of(items, depth, nodes)->Ok_0.0.len() == items.len(),
        nodes + items.len() <= arguments_of(items, depth, nodes)->Ok_0.1
            <= MAX_COMPONENT_ARGUMENT_NODES,
    decreases items,
{
    if items.len() > 0 {
        lemma_arguments_count(items.drop_last(), depth, nodes);
        let used = arguments_of(items.drop_last(), depth, nodes)->Ok_0.1;
        lemma_argument_counts(items.last(), depth, used);
    }
}

proof fn lemma_argument_counts(value: ScriptValue, depth: nat, nodes: nat)
    requires
        argument_of(value, depth, nodes) is Ok,
    ensures
        nodes + 1 <= argument_of(value, depth, nodes)->Ok_0.1 <= MAX_COMPONENT_ARGUMENT_NODES,
    decreases value,
{
    match value {
        ScriptValue::Array { slot, items } => {
            if slot_of(value) is None {
                lemma_arguments_count(items@, depth + 1, nodes + 1);
            }
        },
        _ => {},
    }
}

/// How many values have been counted.
pub struct ComponentArgumentBudget {
    pub nodes: usize,
}

/// Whether an answer is the one that is owed, and the count stands as it should after it.
pub open spec fn answers(
    answer: Result<Argument, ScriptError<String>>,
    nodes: nat,
    owed: Result<(ArgumentModel, nat), ScriptError<Seq<char>>>,
) -> bool {
    match (answer, owed) {
        (Ok(argument), Ok((model, after))) => argument.model() == model && nodes == after,
        (Err(error), Err(expected)) => error::error_view(error) == expected,
        _ => false,
    }
}

/// Converts one argument.
pub fn component_argument_from_js(
    value: &ScriptValue,
    depth: usize,
    budget: &mut ComponentArgumentBudget,
) -> (r: Result<Argument, ScriptError<String>>)
    ensures
        answers(
            r,
            final(budget).nodes as nat,
            argument_of(*value, depth as nat, old(budget).nodes as nat),
        ),
    decreases value,
{
    if depth > MAX_COMPONENT_ARGUMENT_DEPTH {
        return Err(ScriptError::Fixed(Fault::ArgumentDepth));
    }
    match budget.nodes.checked_add(1) {
        Some(nodes) => {
            budget.nodes = nodes;
        },
        None => {
            return Err(ScriptError::Fixed(Fault::ArgumentNodes));
        },
    }
    if budget.nodes > MAX_COMPONENT_ARGUMENT_NODES {
        return Err(ScriptError::Fixed(Fault::ArgumentNodes));
    }
    match value {
        ScriptValue::Function(handler) => {
            return Ok(Argument::Handler(*handler));
        },
        _ => {},
    }
    match slot_index(value) {
        Some(slot) => {
            return Ok(Argument::Slot(slot));
        },
        None => {},
    }
    let ghost counted = budget.nodes as nat;
    match value {
        ScriptValue::Array { slot, items } => {
            let mut out: Vec<Argument> = Vec::new();
            let mut i: usize = 0;
            let ghost inner = (depth + 1) as nat;
            assert(items@.take(0) =~= Seq::empty());
            assert(argument_models(out@) =~= Seq::empty());
            while i < items.len()
                invariant
                    value is Array,
                    items == value->items,
                    slot_of(*value) is None,
                    i <= items@.len(),
                    inner == depth + 1,
                    depth <= MAX_COMPONENT_ARGUMENT_DEPTH,
                    counted == old(budget).nodes + 1,
                    counted <= MAX_COMPONENT_ARGUMENT_NODES,
                    arguments_of(items@.take(i as int), inner, counted) == Ok::<
                        (Seq<ArgumentModel>, nat),
                        ScriptError<Seq<char>>,
                    >((argument_models(out@), budget.nodes as nat)),
                decreases items@.len() - i,
            {
                let ghost before = out@;
                assert(items@.take(i + 1).drop_last() =~= items@.take(i as int));
                assert(items@.take(i + 1).last() == items@[i as int]);
                proof {
                    if arguments_of(items@.take(i + 1), inner, counted) is Err {
                        lemma_arguments_stop(items@, i + 1, inner, counted);
                    }
                }
                match &items[i] {
                    ScriptValue::Raised(message) => {
                        return Err(ScriptError::Raised { message: message.as_str().to_owned() });
                    },
                    _ => {},
                }
                match component_argument_from_js(&items[i], depth + 1, budget) {
                    Ok(argument) => {
                        out.push(argument);
                        assert(argument_models(out@) =~= argument_models(before).push(
                            argument.model(),
                        ));
                    },
                    Err(error) => {
                        return Err(error);
                    },
                }
                i += 1;
            }
            assert(items@.take(i as int) =~= items@);
            let argument = Argument::Array(out);
            assert(argument.model() is Array);
            assert(argument.model()->Array_0 =~= argument_models(out@));
            Ok(argument)
        },
        ScriptValue::TooLong(message) => Err(
            ScriptError::Raised { message: message.as_str().to_owned() },
        ),
        ScriptValue::Object(object) => match marked_argument(&object.marks) {
            Some(argument) => Ok(argument),
            None => Err(ScriptError::Fixed(Fault::ArgumentType)),
        },
        _ => match bridge(value) {
            Ok(bridged) => Ok(Argument::Value(bridged)),
            Err(error) => Err(error),
        },
    }
}

/// The arguments of one call.
pub struct Arguments {
    list: ArgumentList,
}

/// What a value comes to as the list of arguments of a call.
pub open spec fn call_arguments(value: ScriptValue) -> Result<
    Seq<ArgumentModel>,
    ScriptError<Seq<char>>,
> {
    match value {
        ScriptValue::Array { slot, items } => match arguments_of(items@, 0, 0) {
            Ok((models, _)) => Ok(models),
            Err(error) => Err(error),
        },
        ScriptValue::TooLong(message) | ScriptValue::Raised(message) => Err(
            ScriptError::Raised { message: message@ },
        ),
        _ => Err(ScriptError::Fixed(Fault::ArgumentList)),
    }
}

/// The error that an argument gives where a value is wanted.
pub open spec fn value_error(argument: ArgumentModel, method: Seq<char>) -> ScriptError<Seq<char>> {
    match argument {
        ArgumentModel::Handler(_) => ScriptError::FunctionValue { method },
        ArgumentModel::Slot(_) => ScriptError::SlotValue { method },
        _ => ScriptError::ObjectValue { method },
    }
}

/// The values of arguments that are all values, or the error that the first other one gives.
pub open spec fn values_of(arguments: Seq<ArgumentModel>, method: Seq<char>) -> Result<
    Seq<Bridged<Seq<char>>>,
    ScriptError<Seq<char>>,
>
    decreases arguments.len(),
{
    if arguments.len() == 0 {
        Ok(Seq::empty())
    } else {
        match values_of(arguments.drop_last(), method) {
            Err(error) => Err(error),
            Ok(values) => match arguments.last() {
                ArgumentModel::Value(value) => Ok(values.push(value)),
                other => Err(value_error(other, method)),
            },
        }
    }
}

/// The first placeholder among arguments: where it stands and for which parameter.
pub open spec fn first_slot_of(arguments: Seq<ArgumentModel>) -> Option<(int, u16)>
    decreases arguments.len(),
{
    if arguments.len() == 0 {
        None
    } else {
        match first_slot_of(arguments.drop_last()) {
            Some(found) => Some(found),
            None => match arguments.last() {
                ArgumentModel::Slot(slot) => Some((arguments.len() - 1, slot)),
                _ => None,
            },
        }
    }
}

/// The value that comes first among arguments, where the first argument is one.
pub open spec fn first_value_of(arguments: Seq<ArgumentModel>) -> Option<Bridged<Seq<char>>> {
    if arguments.len() > 0 {
        match arguments[0] {
            ArgumentModel::Value(value) => Some(value),
            _ => None,
        }
    } else {
        None
    }
}

/// The function at a position, where the argument there is one.
pub open spec fn handler_of(arguments: Seq<ArgumentModel>, index: int) -> Option<u64> {
    if 0 <= index < arguments.len() {
        match arguments[index] {
            ArgumentModel::Handler(handler) => Some(handler),
            _ => None,
        }
    } else {
        None
    }
}

proof fn lemma_values_stop(arguments: Seq<ArgumentModel>, upto: int, method: Seq<char>)
    requires
        0 <= upto <= arguments.len(),
        values_of(arguments.take(upto), method) is Err,
    ensures
        values_of(arguments, method) == values_of(arguments.take(upto), method),
    decreases arguments.len() - upto,
{
    if upto == arguments.len() {
        assert(arguments.take(upto) =~= arguments);
    } else {
        assert(arguments.take(upto + 1).drop_last() =~= arguments.take(upto));
        lemma_values_stop(arguments, upto + 1, method);
    }
}

proof fn lemma_slot_stays(arguments: Seq<ArgumentModel>, upto: int)
    requires
        0 <= upto <= arguments.len(),
        first_slot_of(arguments.take(upto)) is Some,
    ensures
        first_slot_of(arguments) == first_slot_of(arguments.take(upto)),
    decreases arguments.len() - upto,
{
    if upto == arguments.len() {
        assert(arguments.take(upto) =~= arguments);
    } else {
        assert(arguments.take(upto + 1).drop_last() =~= arguments.take(upto));
        lemma_slot_stays(arguments, upto + 1);
    }
}

impl Arguments {
    /// The arguments, first to last.
    pub closed spec fn model(&self) -> Seq<ArgumentModel> {
        argument_models(argument_items(self.list))
    }

    /// Whether there are no more arguments than a call may have.
    #[verifier::type_invariant]
    spec fn within_limits(&self) -> bool {
        argument_items(self.list).len() <= MAX_COMPONENT_ARGUMENT_NODES
    }

    /// No arguments.
    pub fn none() -> (r: Arguments)
        ensures
            r.model() == Seq::<ArgumentModel>::empty(),
    {
        let arguments = Arguments { list: ArgumentList::empty() };
        assert(arguments.model() =~= Seq::<ArgumentModel>::empty());
        arguments
    }

    /// Converts the list of arguments of a call.
    pub fn from_js(value: &ScriptValue) -> (r: Result<Arguments, ScriptError<String>>)
        ensures
            match (r, call_arguments(*value)) {
                (Ok(arguments), Ok(models)) => arguments.model() == models,
                (Err(error), Err(expected)) => error::error_view(error) == expected,
                _ => false,
            },
    {
        match value {
            ScriptValue::Array { slot, items } => {
                let mut list = ArgumentList::empty();
                let mut budget = ComponentArgumentBudget { nodes: 0 };
                let mut i: usize = 0;
                assert(items@.take(0) =~= Seq::empty());
                assert(argument_models(argument_items(list)) =~= Seq::empty());
                while i < items.len()
                    invariant
                        value is Array,
                        items == value->items,
                        i <= items@.len(),
                        arguments_of(items@.take(i as int), 0, 0) == Ok::<
                            (Seq<ArgumentModel>, nat),
                            ScriptError<Seq<char>>,
                        >((argument_models(argument_items(list)), budget.nodes as nat)),
                        argument_items(list).len() == i,
                        i <= MAX_COMPONENT_ARGUMENT_NODES,
                    decreases items@.len() - i,
                {
                    let ghost before = argument_items(list);
                    assert(items@.take(i + 1).drop_last() =~= items@.take(i as int));
                    assert(items@.take(i + 1).last() == items@[i as int]);
                    proof {
                        if arguments_of(items@.take(i + 1), 0, 0) is Err {
                            lemma_arguments_stop(items@, i + 1, 0, 0);
                        } else {
                            lemma_arguments_count(items@.take(i + 1), 0, 0);
                        }
                    }
                    match &items[i] {
                        ScriptValue::Raised(message) => {
                            return Err(
                                ScriptError::Raised { message: message.as_str().to_owned() },
                            );
                        },
                        _ => {},
                    }
                    match component_argument_from_js(&items[i], 0, &mut budget) {
                        Ok(argument) => {
                            list.add_last(argument);
                            assert(argument_models(argument_items(list)) =~= argument_models(
                                before,
                            ).push(argument.model()));
                        },
                        Err(error) => {
                            return Err(error);
                        },
                    }
                    i += 1;
                }
                assert(items@.take(i as int) =~= items@);
                Ok(Arguments { list })
            },
            ScriptValue::TooLong(message) | ScriptValue::Raised(message) => Err(
                ScriptError::Raised { message: message.as_str().to_owned() },
            ),
            _ => Err(ScriptError::Fixed(Fault::ArgumentList)),
        }
    }

    /// How many arguments there are.
    pub fn len(&self) -> (r: usize)
        ensures
            r == self.model().len(),
    {
        self.list.count()
    }

    /// The argument at a position.
    pub fn get(&self, index: usize) -> (r: Option<&Argument>)
        ensures
            match r {
                Some(argument) => index < self.model().len() && argument.model()
                    == self.model()[index as int],
                None => index >= self.model().len(),
            },
    {
        self.list.at(index)
    }

    /// The values of the arguments, all of which must be values.
    pub fn values(&self, method: &str) -> (r: Result<BridgedList, ScriptError<String>>)
        ensures
            match (r, values_of(self.model(), method@)) {
                (Ok(list), Ok(values)) => list.model() == values,
                (Err(error), Err(expected)) => error::error_view(error) == expected,
                _ => false,
            },
    {
        proof {
            use_type_invariant(self);
        }
        let mut out = BridgedList::empty();
        let total: usize = self.list.count();
        let mut i: usize = 0;
        let ghost models = self.model();
        assert(models.take(0) =~= Seq::empty());
        assert(out.model() =~= Seq::empty());
        while i < total
            invariant
                models == self.model(),
                total == models.len(),
                total <= MAX_COMPONENT_ARGUMENT_NODES,
                i <= total,
                bridged_items(out).len() == i,
                values_of(models.take(i as int), method@) == Ok::<
                    Seq<Bridged<Seq<char>>>,
                    ScriptError<Seq<char>>,
                >(out.model()),
            decreases total - i,
        {
            let ghost before = out.model();
            assert(models.take(i + 1).drop_last() =~= models.take(i as int));
            assert(models.take(i + 1).last() == models[i as int]);
            proof {
                if values_of(models.take(i + 1), method@) is Err {
                    lemma_values_stop(models, i + 1, method@);
                }
            }
            match self.get(i) {
                Some(Argument::Value(value)) => {
                    out.add_last(value.copy());
                    assert(out.model() =~= before.push(bridged_view(*value)));
                },
                Some(Argument::Handler(_)) => {
                    return Err(ScriptError::FunctionValue { method: method.to_owned() });
                },
                Some(Argument::Slot(_)) => {
                    return Err(ScriptError::SlotValue { method: method.to_owned() });
                },
                _ => {
                    return Err(ScriptError::ObjectValue { method: method.to_owned() });
                },
            }
            i += 1;
        }
        assert(models.take(i as int) =~= models);
        Ok(out)
    }

    /// The first placeholder among the arguments.
    pub fn first_slot(&self) -> (r: Option<(usize, u16)>)
        ensures
            match (r, first_slot_of(self.model())) {
                (Some((at, slot)), Some((position, parameter))) => at == position && slot
                    == parameter,
                (None, None) => true,
                _ => false,
            },
    {
        let total: usize = self.len();
        let mut i: usize = 0;
        let ghost models = self.model();
        assert(models.take(0) =~= Seq::empty());
        while i < total
            invariant
                models == self.model(),
                total == models.len(),
                i <= total,
                first_slot_of(models.take(i as int)) is None,
            decreases total - i,
        {
            assert(models.take(i + 1).drop_last() =~= models.take(i as int));
            assert(models.take(i + 1).last() == models[i as int]);
            match self.get(i) {
                Some(Argument::Slot(slot)) => {
                    proof {
                        lemma_slot_stays(models, i + 1);
                    }
                    return Some((i, *slot));
                },
                _ => {},
            }
            i += 1;
        }
        assert(models.take(i as int) =~= models);
        None
    }

    /// The first argument, where it is a value.
    pub fn first_value(&self) -> (r: Option<&Bridged<String>>)
        ensures
            match (r, first_value_of(self.model())) {
                (Some(value), Some(expected)) => bridged_view(*value) == expected,
                (None, None) => true,
                _ => false,
            },
    {
        match self.get(0) {
            Some(Argument::Value(value)) => Some(value),
            _ => None,
        }
    }

    /// The function at a position.
    pub fn handler_at(&self, index: usize) -> (r: Option<u64>)
        ensures
            r == handler_of(self.model(), index as int),
    {
        match self.get(index) {
            Some(Argument::Handler(handler)) => Some(*handler),
            _ => None,
        }
    }

    /// The first argument, where it is a function.
    pub fn first_handler(&self) -> (r: Option<u64>)
        ensures
            r == handler_of(self.model(), 0),
    {
        self.handler_at(0)
    }
}

/// The one argument of a parametric style.
pub enum StyleArgument {
    Value(Bridged<String>),
    Handler,
    Slot(u16),
}

/// The one argument of a parametric style, as a statement speaks of it.
pub enum StyleArgumentModel {
    Value(Bridged<Seq<char>>),
    Handler,
    Slot(u16),
}

/// The view of a style's argument.
pub open spec fn style_argument_view(argument: StyleArgument) -> StyleArgumentModel {
    match argument {
        StyleArgument::Value(value) => StyleArgumentModel::Value(bridged_view(value)),
        StyleArgument::Handler => StyleArgumentModel::Handler,
        StyleArgument::Slot(slot) => StyleArgumentModel::Slot(slot),
    }
}

/// What a value comes to as the argument of a style.
pub open spec fn style_argument_of(value: ScriptValue) -> Result<
    StyleArgumentModel,
    ScriptError<Seq<char>>,
> {
    if value is Function {
        Ok(StyleArgumentModel::Handler)
    } else {
        match slot_of(value) {
            Some(slot) => Ok(StyleArgumentModel::Slot(slot)),
            None => match bridge_of(value) {
                Ok(bridged) => Ok(StyleArgumentModel::Value(bridged)),
                Err(error) => Err(error),
            },
        }
    }
}

impl StyleArgument {
    /// Converts the argument of a style.
    pub fn from_js(value: &ScriptValue) -> (r: Result<StyleArgument, ScriptError<String>>)
        ensures
            match (r, style_argument_of(*value)) {
                (Ok(argument), Ok(model)) => style_argument_view(argument) == model,
                (Err(error), Err(expected)) => error::error_view(error) == expected,
                _ => false,
            },
    {
        match value {
            ScriptValue::Function(_) => {
                return Ok(StyleArgument::Handler);
            },
            _ => {},
        }
        match slot_index(value) {
            Some(slot) => {
                return Ok(StyleArgument::Slot(slot));
            },
            None => {},
        }
        match bridge(value) {
            Ok(bridged) => Ok(StyleArgument::Value(bridged)),
            Err(error) => Err(error),
        }
    }
}

/// What a view's `render` returned, once it is known to be something that can be shown.
pub enum RenderedRoot<S> {
    /// A string, which is shown as text.
    Text(S),
    /// An element.
    Element(u32),
    /// A retained view, by its token.
    ChildView(u32),
}

/// What can be shown of what `render` returned. An object of any kind is told by its marks.
pub open spec fn rendered(value: ScriptValue) -> Result<
    RenderedRoot<Seq<char>>,
    ScriptError<Seq<char>>,
> {
    match value {
        ScriptValue::Text(string) => Ok(RenderedRoot::Text(string@)),
        ScriptValue::Broken(message) | ScriptValue::Raised(message) => Err(
            ScriptError::Raised { message: message@ },
        ),
        ScriptValue::Object(object) => match object.marks.element {
            Some(element) => Ok(RenderedRoot::Element(element)),
            None => if object.marks.entity {
                match object.marks.token {
                    Ok(token) => Ok(RenderedRoot::ChildView(token)),
                    Err(message) => Err(ScriptError::Raised { message: message@ }),
                }
            } else {
                Err(ScriptError::Fixed(Fault::RenderResult))
            },
        },
        _ => Err(ScriptError::Fixed(Fault::RenderResult)),
    }
}

/// The view of what can be shown.
pub open spec fn root_view(root: RenderedRoot<String>) -> RenderedRoot<Seq<char>> {
    match root {
        RenderedRoot::Text(string) => RenderedRoot::Text(string@),
        RenderedRoot::Element(element) => RenderedRoot::Element(element),
        RenderedRoot::ChildView(token) => RenderedRoot::ChildView(token),
    }
}

/// What can be shown of what `render` returned.
pub fn element_id(value: &ScriptValue) -> (r: Result<RenderedRoot<String>, ScriptError<String>>)
    ensures
        match (r, rendered(*value)) {
            (Ok(root), Ok(expected)) => root_view(root) == expected,
            (Err(error), Err(expected)) => error::error_view(error) == expected,
            _ => false,
        },
{
    match value {
        ScriptValue::Text(string) => Ok(RenderedRoot::Text(string.as_str().to_owned())),
        ScriptValue::Broken(message) | ScriptValue::Raised(message) => Err(
            ScriptError::Raised { message: message.as_str().to_owned() },
        ),
        ScriptValue::Object(object) => match object.marks.element {
            Some(element) => Ok(RenderedRoot::Element(element)),
            None => if object.marks.entity {
                match &object.marks.token {
                    Ok(token) => Ok(RenderedRoot::ChildView(*token)),
                    Err(message) => Err(
                        ScriptError::Raised { message: message.as_str().to_owned() },
                    ),
                }
            } else {
                Err(ScriptError::Fixed(Fault::RenderResult))
            },
        },
        _ => Err(ScriptError::Fixed(Fault::RenderResult)),
    }
}

/// How many values an argument is made of.
pub open spec fn argument_nodes(model: ArgumentModel) -> nat
    decreases model,
{
    match model {
        ArgumentModel::Array(items) => 1 + arguments_nodes(items),
        _ => 1,
    }
}

/// How many values arguments are made of.
pub open spec fn arguments_nodes(models: Seq<ArgumentModel>) -> nat
    decreases models,
{
    if models.len() == 0 {
        0
    } else {
        arguments_nodes(models.drop_last()) + argument_nodes(models.last())
    }
}

/// Whether an argument nests no deeper than so many levels.
pub open spec fn nests_within(model: ArgumentModel, levels: int) -> bool
    decreases model,
{
    &&& levels >= 0
    &&& match model {
        ArgumentModel::Array(items) => all_nest_within(items, levels - 1),
        _ => true,
    }
}

/// Whether arguments nest no deeper than so many levels.
pub open spec fn all_nest_within(models: Seq<ArgumentModel>, levels: int) -> bool
    decreases models,
{
    models.len() == 0 || (all_nest_within(models.drop_last(), levels) && nests_within(
        models.last(),
        levels,
    ))
}

proof fn lemma_argument_bounded(value: ScriptValue, depth: nat, nodes: nat)
    ensures
        argument_of(value, depth, nodes) matches Ok((model, after)) ==> {
            &&& after == nodes + argument_nodes(model)
            &&& after <= MAX_COMPONENT_ARGUMENT_NODES
            &&& nests_within(model, MAX_COMPONENT_ARGUMENT_DEPTH - depth)
        },
    decreases value,
{
    if let ScriptValue::Array { slot, items } = value {
        if nodes + 1 <= MAX_COMPONENT_ARGUMENT_NODES {
            lemma_arguments_bounded(items@, depth + 1, nodes + 1);
        }
    }
}

proof fn lemma_arguments_bounded(items: Seq<ScriptValue>, depth: nat, nodes: nat)
    requires
        nodes <= MAX_COMPONENT_ARGUMENT_NODES,
    ensures
        arguments_of(items, depth, nodes) matches Ok((models, after)) ==> {
            &&& after == nodes + arguments_nodes(models)
            &&& after <= MAX_COMPONENT_ARGUMENT_NODES
            &&& all_nest_within(models, MAX_COMPONENT_ARGUMENT_DEPTH - depth)
        },
    decreases items,
{
    if items.len() > 0 {
        lemma_arguments_bounded(items.drop_last(), depth, nodes);
        if let Ok((models, used)) = arguments_of(items.drop_last(), depth, nodes) {
            lemma_argument_bounded(items.last(), depth, used);
            if let Ok((model, after)) = argument_of(items.last(), depth, used) {
                assert(models.push(model).drop_last() =~= models);
                assert(models.push(model).last() == model);
            }
        }
    }
}

/// The arguments of a call are bounded, however much a script passes: so many values, and so many
/// levels of arrays in arrays.
pub proof fn law_arguments_are_bounded(items: Seq<ScriptValue>)
    ensures
        arguments_of(items, 0, 0) matches Ok((models, _)) ==> {
            &&& arguments_nodes(models) <= MAX_COMPONENT_ARGUMENT_NODES
            &&& all_nest_within(models, MAX_COMPONENT_ARGUMENT_DEPTH as int)
        },
{
    lemma_arguments_bounded(items, 0, 0);
}

/// Whether a value is marked as a placeholder for a template parameter.
pub open spec fn is_placeholder(value: ScriptValue, parameter: u16) -> bool {
    match value {
        ScriptValue::Array { slot: Some(number), .. } => number::wide_to_slot(number.wide) == Some(
            parameter,
        ),
        ScriptValue::Object(object) => object.marks.slot matches Some(number)
            && number::wide_to_slot(number.wide) == Some(parameter),
        _ => false,
    }
}

/// Whether an argument is what a script passed, at every level. A placeholder counts before
/// anything else that a value is marked as, an element before an entity, an entity before a
/// component state.
pub open spec fn is_passed(value: ScriptValue, model: ArgumentModel) -> bool
    decreases model,
{
    match model {
        ArgumentModel::Slot(parameter) => is_placeholder(value, parameter),
        ArgumentModel::Handler(function) => value == ScriptValue::Function(function),
        ArgumentModel::Value(Bridged::Nil) => value is Undefined || value is Null,
        ArgumentModel::Value(Bridged::Bool(flag)) => value == ScriptValue::Boolean(flag),
        ArgumentModel::Value(Bridged::Number(number)) => value == ScriptValue::Number(number),
        ArgumentModel::Value(Bridged::Str(string)) => value matches ScriptValue::Text(given)
            && given@ == string,
        ArgumentModel::Element(element) => (forall|p: u16| !#[trigger] is_placeholder(value, p))
            && (value matches ScriptValue::Object(object) && object.marks.element == Some(element)),
        ArgumentModel::Entity(handle) => (forall|p: u16| !#[trigger] is_placeholder(value, p)) && (
        value matches ScriptValue::Object(object) && object.marks.element is None
            && object.marks.handle == Some(handle)),
        ArgumentModel::RetainedState { handle, proof } => (forall|p: u16|
            !#[trigger] is_placeholder(value, p)) && (value matches ScriptValue::Object(object)
            && object.marks.element is None && object.marks.handle is None
            && object.marks.state_handle == Some(handle) && (
        object.marks.state_proof matches Some(given) && given@ == proof)),
        ArgumentModel::Array(models) => (forall|p: u16| !#[trigger] is_placeholder(value, p)) && (
        value matches ScriptValue::Array { slot, items } && items@.len() == models.len()
            && forall|i: int| 0 <= i < models.len() ==> is_passed(#[trigger] items@[i], models[i])),
    }
}

proof fn lemma_placeholder(value: ScriptValue)
    ensures
        match slot_of(value) {
            Some(parameter) => is_placeholder(value, parameter),
            None => forall|p: u16| !#[trigger] is_placeholder(value, p),
        },
        forall|p: u16| #[trigger] is_placeholder(value, p) ==> slot_of(value) == Some(p),
{
}

/// An argument that is accepted is what the script passed, at every level: the same value or
/// function, what an object stands for, an array's items one by one and in their order.
pub proof fn law_an_argument_is_what_was_passed(value: ScriptValue, depth: nat, nodes: nat)
    ensures
        argument_of(value, depth, nodes) matches Ok((model, after)) ==> is_passed(value, model),
    decreases value,
{
    lemma_placeholder(value);
    match value {
        ScriptValue::Array { slot, items } => {
            if slot_of(value) is None {
                lemma_items_are_passed(items@, depth + 1, nodes + 1);
            }
        },
        _ => {},
    }
}

proof fn lemma_items_are_passed(items: Seq<ScriptValue>, depth: nat, nodes: nat)
    ensures
        arguments_of(items, depth, nodes) matches Ok((models, after)) ==> models.len()
            == items.len() && forall|i: int|
            0 <= i < models.len() ==> is_passed(#[trigger] items[i], models[i]),
    decreases items,
{
    if items.len() > 0 {
        let front = items.drop_last();
        lemma_items_are_passed(front, depth, nodes);
        if let Ok((models, used)) = arguments_of(front, depth, nodes) {
            law_an_argument_is_what_was_passed(items.last(), depth, used);
            if let Ok((all, after)) = arguments_of(items, depth, nodes) {
                assert forall|i: int| 0 <= i < all.len() implies is_passed(
                    #[trigger] items[i],
                    all[i],
                ) by {
                    if i < front.len() {
                        assert(front[i] == items[i]);
                        assert(all[i] == models[i]);
                    }
                }
            }
        }
    }
}

/// The arguments of a call are the items of the array that the script passed, all of them, in their
/// order.
pub proof fn law_a_call_gets_all_its_arguments(value: ScriptValue)
    ensures
        call_arguments(value) matches Ok(models) ==> match value {
            ScriptValue::Array { slot, items } => models.len() == items@.len() && forall|i: int|
                0 <= i < models.len() ==> is_passed(#[trigger] items@[i], models[i]),
            _ => false,
        },
{
    match value {
        ScriptValue::Array { slot, items } => {
            lemma_items_are_passed(items@, 0, 0);
        },
        _ => {},
    }
}

/// What a script passes is accepted, as what it is, where arrays nest no deeper and there are no
/// more values than a call may have: thirty-two levels and ten thousand values.
pub proof fn law_arguments_within_the_limits_are_accepted(
    value: ScriptValue,
    model: ArgumentModel,
    depth: nat,
    nodes: nat,
)
    requires
        is_passed(value, model),
        nests_within(model, 32 - depth),
        nodes + argument_nodes(model) <= 10_000,
    ensures
        argument_of(value, depth, nodes) == Ok::<(ArgumentModel, nat), ScriptError<Seq<char>>>(
            (model, nodes + argument_nodes(model)),
        ),
    decreases model,
{
    lemma_placeholder(value);
    match (value, model) {
        (ScriptValue::Array { slot, items }, ArgumentModel::Array(models)) => {
            lemma_items_are_accepted(items@, models, depth + 1, nodes + 1);
        },
        _ => {},
    }
}

proof fn lemma_items_are_accepted(
    items: Seq<ScriptValue>,
    models: Seq<ArgumentModel>,
    depth: nat,
    nodes: nat,
)
    requires
        items.len() == models.len(),
        forall|i: int| 0 <= i < models.len() ==> is_passed(#[trigger] items[i], models[i]),
        all_nest_within(models, 32 - depth),
        nodes + arguments_nodes(models) <= 10_000,
    ensures
        arguments_of(items, depth, nodes) == Ok::<(Seq<ArgumentModel>, nat), ScriptError<Seq<char>>>(
            (models, nodes + arguments_nodes(models)),
        ),
    decreases models,
{
    if models.len() > 0 {
        let front = models.drop_last();
        let before = items.drop_last();
        assert forall|i: int| 0 <= i < front.len() implies is_passed(
            #[trigger] before[i],
            front[i],
        ) by {
            assert(is_passed(items[i], models[i]));
        }
        lemma_items_are_accepted(before, front, depth, nodes);
        assert(is_passed(items[items.len() - 1], models[models.len() - 1]));
        law_arguments_within_the_limits_are_accepted(
            items.last(),
            models.last(),
            depth,
            nodes + arguments_nodes(front),
        );
        assert(front.push(models.last()) =~= models);
    } else {
        assert(models =~= Seq::empty());
    }
}

/// Beyond thirty-two levels or ten thousand values nothing is accepted.
pub proof fn law_arguments_end_at_their_limits(value: ScriptValue, depth: nat, nodes: nat)
    ensures
        depth > 32 ==> argument_of(value, depth, nodes) is Err,
        nodes >= 10_000 ==> argument_of(value, depth, nodes) is Err,
        argument_of(value, depth, nodes) matches Ok((model, after)) ==> after <= 10_000,
{
    lemma_argument_bounded(value, depth, nodes);
}

proof fn lemma_values(arguments: Seq<ArgumentModel>, method: Seq<char>)
    ensures
        match values_of(arguments, method) {
            Ok(values) => values.len() == arguments.len() && forall|i: int|
                0 <= i < arguments.len() ==> (#[trigger] arguments[i]) == ArgumentModel::Value(
                    values[i],
                ),
            Err(error) => exists|i: int|
                0 <= i < arguments.len() && !((#[trigger] arguments[i]) is Value) && error
                    == value_error(arguments[i], method) && forall|j: int|
                    0 <= j < i ==> (#[trigger] arguments[j]) is Value,
        },
    decreases arguments.len(),
{
    if arguments.len() > 0 {
        let front = arguments.drop_last();
        lemma_values(front, method);
        assert forall|i: int| 0 <= i < front.len() implies front[i] == arguments[i] by {}
        match values_of(front, method) {
            Ok(values) => {
                assert forall|j: int| 0 <= j < front.len() implies (#[trigger] arguments[j])
                    is Value by {
                    assert(front[j] == ArgumentModel::Value(values[j]));
                }
                match values_of(arguments, method) {
                    Ok(all) => {
                        assert forall|i: int| 0 <= i < arguments.len() implies (
                        #[trigger] arguments[i]) == ArgumentModel::Value(all[i]) by {
                            if i < front.len() {
                                assert(front[i] == ArgumentModel::Value(values[i]));
                            }
                        }
                    },
                    Err(error) => {
                        assert(!(arguments[arguments.len() - 1] is Value));
                    },
                }
            },
            Err(error) => {
                let i = choose|i: int|
                    0 <= i < front.len() && !((#[trigger] front[i]) is Value) && error
                        == value_error(front[i], method) && forall|j: int|
                        0 <= j < i ==> (#[trigger] front[j]) is Value;
                assert forall|j: int| 0 <= j < i implies (#[trigger] arguments[j]) is Value by {
                    assert(front[j] is Value);
                }
                assert(!(arguments[i] is Value));
            },
        }
    }
}

/// Where values are wanted, all arguments are handed on in their order; the first that is none is
/// answered with an error that names the method and tells a function, a placeholder and an object
/// apart.
pub proof fn law_values_are_handed_on_in_order(arguments: Seq<ArgumentModel>, method: Seq<char>)
    ensures
        match values_of(arguments, method) {
            Ok(values) => values.len() == arguments.len() && forall|i: int|
                0 <= i < arguments.len() ==> (#[trigger] arguments[i]) == ArgumentModel::Value(
                    values[i],
                ),
            Err(error) => exists|i: int|
                0 <= i < arguments.len() && !((#[trigger] arguments[i]) is Value) && (forall|j: int|
                    0 <= j < i ==> (#[trigger] arguments[j]) is Value) && match error {
                    ScriptError::FunctionValue { method: named } => named == method
                        && arguments[i] is Handler,
                    ScriptError::SlotValue { method: named } => named == method && arguments[i]
                        is Slot,
                    ScriptError::ObjectValue { method: named } => named == method && !(arguments[i]
                        is Handler) && !(arguments[i] is Slot),
                    _ => false,
                },
        },
{
    lemma_values(arguments, method);
}

/// The first placeholder is told by where it stands and which parameter it is for; there is none
/// only where no argument is one.
pub proof fn law_the_first_placeholder_is_found(arguments: Seq<ArgumentModel>)
    ensures
        match first_slot_of(arguments) {
            Some((at, parameter)) => 0 <= at < arguments.len() && arguments[at]
                == ArgumentModel::Slot(parameter) && forall|j: int|
                0 <= j < at ==> !((#[trigger] arguments[j]) is Slot),
            None => forall|j: int|
                0 <= j < arguments.len() ==> !((#[trigger] arguments[j]) is Slot),
        },
    decreases arguments.len(),
{
    if arguments.len() > 0 {
        let front = arguments.drop_last();
        law_the_first_placeholder_is_found(front);
        assert forall|i: int| 0 <= i < front.len() implies front[i] == #[trigger] arguments[i] by {}
    }
}

/// The first value and the function at a position are the arguments that stand there.
pub proof fn law_an_argument_is_found_where_it_stands(arguments: Seq<ArgumentModel>, index: int)
    ensures
        match first_value_of(arguments) {
            Some(value) => arguments.len() > 0 && arguments[0] == ArgumentModel::Value(value),
            None => arguments.len() == 0 || !(arguments[0] is Value),
        },
        match handler_of(arguments, index) {
            Some(handler) => 0 <= index < arguments.len() && arguments[index]
                == ArgumentModel::Handler(handler),
            None => index < 0 || index >= arguments.len() || !(arguments[index] is Handler),
        },
{
}

/// What can be shown is what the script answered: its text, the element an object stands for, or
/// the retained view it is a handle to. Nothing else can be shown.
pub proof fn law_what_is_shown_is_what_was_answered(value: ScriptValue)
    ensures
        match rendered(value) {
            Ok(RenderedRoot::Text(shown)) => value matches ScriptValue::Text(string) && string@
                == shown,
            Ok(RenderedRoot::Element(element)) => value matches ScriptValue::Object(object)
                && object.marks.element == Some(element),
            Ok(RenderedRoot::ChildView(token)) => value matches ScriptValue::Object(object)
                && object.marks.element is None && object.marks.entity && object.marks.token
                == Ok::<u32, String>(token),
            Err(error) => match value {
                ScriptValue::Text(_) => false,
                ScriptValue::Broken(message) => error == (ScriptError::<Seq<char>>::Raised {
                    message: message@,
                }),
                ScriptValue::Raised(message) => error == (ScriptError::<Seq<char>>::Raised {
                    message: message@,
                }),
                ScriptValue::Object(object) => object.marks.element is None && (
                object.marks.entity ==> (object.marks.token matches Err(message) && error == (
                ScriptError::<Seq<char>>::Raised { message: message@ }))),
                _ => error == ScriptError::<Seq<char>>::Fixed(Fault::RenderResult),
            },
        },
{
}

/// The argument of a style is what the script passed: a placeholder for its parameter, a value as
/// it is; a function is told apart.
pub proof fn law_a_style_gets_what_was_passed(value: ScriptValue)
    ensures
        style_argument_of(value) matches Ok(model) ==> match model {
            StyleArgumentModel::Handler => value is Function,
            StyleArgumentModel::Slot(parameter) => is_placeholder(value, parameter),
            StyleArgumentModel::Value(given) => is_passed(value, ArgumentModel::Value(given)),
        },
        value is Function || value is Undefined || value is Null || value is Boolean || value
            is Number || value is Text || (exists|p: u16| #[trigger] is_placeholder(value, p))
            ==> style_argument_of(value) is Ok,
{
    lemma_placeholder(value);
}

/// An argument is accepted if and only if it is owed, is then the one that is owed, and leaves the
/// count of values as it should stand.
pub proof fn law_an_answer_is_the_one_that_is_owed(
    answer: Result<Argument, ScriptError<String>>,
    nodes: nat,
    owed: Result<(ArgumentModel, nat), ScriptError<Seq<char>>>,
)
    requires
        answers(answer, nodes, owed),
    ensures
        answer is Ok <==> owed is Ok,
        answer matches Ok(argument) ==> owed == Ok::<
            (ArgumentModel, nat),
            ScriptError<Seq<char>>,
        >((argument.model(), nodes)),
        answer matches Err(error) ==> owed == Err::<
            (ArgumentModel, nat),
            ScriptError<Seq<char>>,
        >(error::error_view(error)),
{
}

} // verus!
