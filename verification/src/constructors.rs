//! The constructors of elements that take more than a text.
use crate::arena::ArenaModel;
use crate::arena::Axis;
use crate::arena::BackgroundKind;
use crate::arena::Component;
use crate::arena::ItemSize;
use crate::arena::ListKind;
use crate::arena::SpecArena;
use crate::arena::TextViewFormat;
use crate::arena;
use crate::callbacks::CallbackArena;
use crate::callbacks::CallbackEntry;
use crate::callbacks::CallbacksModel;
use crate::callbacks;
use crate::error::Fault;
use crate::error::ScriptError;
use crate::error;
use crate::number::Number;
use crate::number;
use crate::scope::HostScope;
use crate::scope::ScopePhase;
use crate::scope;
use crate::text;
use crate::value::ScriptValue;
use vstd::prelude::*;
use vstd::string::*;

verus! {

/// How many items the lists of one description may stand for.
pub const MAX_VIRTUAL_ITEMS_PER_RENDER: usize = 1_000_000;

/// How far apart a list's items are: all alike, or one by one.
pub enum ItemExtents<V> {
    Uniform(Number),
    PerItem(V),
}

/// Item extents, with a sequence in place of the vector.
pub open spec fn extents_view(extents: ItemExtents<Vec<Number>>) -> ItemExtents<Seq<Number>> {
    match extents {
        ItemExtents::Uniform(value) => ItemExtents::Uniform(value),
        ItemExtents::PerItem(values) => ItemExtents::PerItem(values@),
    }
}

/// The numbers that values are, up to the first that is none. `kind` is what the engine calls the
/// type of that one.
pub open spec fn numbers_of(items: Seq<ScriptValue>, kind: Seq<char>) -> Result<
    Seq<Number>,
    ScriptError<Seq<char>>,
>
    decreases items.len(),
{
    if items.len() == 0 {
        Ok(Seq::empty())
    } else {
        match numbers_of(items.drop_last(), kind) {
            Err(error) => Err(error),
            Ok(numbers) => match items.last() {
                ScriptValue::Number(number) => Ok(numbers.push(number)),
                ScriptValue::Raised(message) => Err(ScriptError::Raised { message: message@ }),
                _ => Err(ScriptError::NotNumber { kind }),
            },
        }
    }
}

/// What a value comes to as item extents. `limit` is how many entries an array may have, and `kind`
/// is what the engine calls the type of the first entry that is no number.
pub open spec fn extents_of(value: ScriptValue, limit: u64, kind: Seq<char>) -> Result<
    ItemExtents<Seq<Number>>,
    ScriptError<Seq<char>>,
> {
    match value {
        ScriptValue::Number(number) => Ok(ItemExtents::Uniform(number)),
        ScriptValue::Array { slot, items } => if items@.len() > limit {
            Err(ScriptError::ItemSizeLimit { limit })
        } else {
            match numbers_of(items@, kind) {
                Ok(numbers) => Ok(ItemExtents::PerItem(numbers)),
                Err(error) => Err(error),
            }
        },
        ScriptValue::TooLong(_) => Err(ScriptError::ItemSizeLimit { limit }),
        ScriptValue::Raised(message) => Err(ScriptError::Raised { message: message@ }),
        _ => Err(ScriptError::Fixed(Fault::ItemSizes)),
    }
}

proof fn lemma_numbers_stop(items: Seq<ScriptValue>, kind: Seq<char>, upto: int)
    requires
        0 <= upto <= items.len(),
        numbers_of(items.take(upto), kind) is Err,
    ensures
        numbers_of(items, kind) == numbers_of(items.take(upto), kind),
    decreases items.len() - upto,
{
    if upto == items.len() {
        assert(items.take(upto) =~= items);
    } else {
        assert(items.take(upto + 1).drop_last() =~= items.take(upto));
        lemma_numbers_stop(items, kind, upto + 1);
    }
}

/// Reads item extents.
pub fn item_extents(value: &ScriptValue, limit: u64, kind: &str) -> (r: Result<
    ItemExtents<Vec<Number>>,
    ScriptError<String>,
>)
    ensures
        match (r, extents_of(*value, limit, kind@)) {
            (Ok(extents), Ok(expected)) => extents_view(extents) == expected,
            (Err(error), Err(expected)) => error::error_view(error) == expected,
            _ => false,
        },
{
    match value {
        ScriptValue::Number(number) => Ok(ItemExtents::Uniform(*number)),
        ScriptValue::Array { slot, items } => {
            if items.len() as u64 > limit {
                return Err(ScriptError::ItemSizeLimit { limit });
            }
            let mut out: Vec<Number> = Vec::new();
            let mut i: usize = 0;
            let ghost all = items@;
            assert(all.take(0) =~= Seq::empty());
            while i < items.len()
                invariant
                    value is Array,
                    *items == value->items,
                    all == items@,
                    all.len() <= limit,
                    i <= items@.len(),
                    numbers_of(all.take(i as int), kind@) == Ok::<
                        Seq<Number>,
                        ScriptError<Seq<char>>,
                    >(out@),
                decreases items@.len() - i,
            {
                assert(all.take(i + 1).drop_last() =~= all.take(i as int));
                assert(all.take(i + 1).last() == all[i as int]);
                proof {
                    if numbers_of(all.take(i + 1), kind@) is Err {
                        lemma_numbers_stop(all, kind@, i + 1);
                    }
                }
                match &items[i] {
                    ScriptValue::Number(number) => {
                        out.push(*number);
                    },
                    ScriptValue::Raised(message) => {
                        return Err(ScriptError::Raised { message: message.as_str().to_owned() });
                    },
                    _ => {
                        return Err(ScriptError::NotNumber { kind: kind.to_owned() });
                    },
                }
                i += 1;
            }
            assert(all.take(i as int) =~= all);
            Ok(ItemExtents::PerItem(out))
        },
        ScriptValue::TooLong(_) => Err(ScriptError::ItemSizeLimit { limit }),
        ScriptValue::Raised(message) => Err(
            ScriptError::Raised { message: message.as_str().to_owned() },
        ),
        _ => Err(ScriptError::Fixed(Fault::ItemSizes)),
    }
}

/// The function that a value is, or the given error.
pub open spec fn function_of(value: ScriptValue, fault: Fault) -> Result<u64, Fault> {
    match value {
        ScriptValue::Function(function) => Ok(function),
        _ => Err(fault),
    }
}

/// Reads a list's item renderer.
pub fn item_renderer(value: &ScriptValue) -> (r: Result<u64, Fault>)
    ensures
        r == function_of(*value, Fault::ItemRenderer),
{
    match value {
        ScriptValue::Function(function) => Ok(*function),
        _ => Err(Fault::ItemRenderer),
    }
}

/// Reads the function that gives a list's items their keys.
pub fn item_key_resolver(value: &ScriptValue) -> (r: Result<u64, Fault>)
    ensures
        r == function_of(*value, Fault::ItemKeyResolver),
{
    match value {
        ScriptValue::Function(function) => Ok(*function),
        _ => Err(Fault::ItemKeyResolver),
    }
}

/// What a list's claim on the description does and answers: a list cannot be described while a
/// frame is laid out, and all lists together stand for no more items than the limit.
pub open spec fn list_guarded(m: ArenaModel, scope: HostScope, alive: bool, count: usize) -> (
    ArenaModel,
    Result<(), ScriptError<Seq<char>>>,
) {
    if scope.phase == Some(ScopePhase::Layout) {
        (m, Err(ScriptError::Fixed(Fault::NestedList)))
    } else if !alive {
        (m, Err(ScriptError::Fixed(Fault::ShutDown)))
    } else if m.virtual_items + count > MAX_VIRTUAL_ITEMS_PER_RENDER {
        (m, Err(ScriptError::ItemBudget { limit: MAX_VIRTUAL_ITEMS_PER_RENDER as u64 }))
    } else {
        (ArenaModel { virtual_items: m.virtual_items + count as nat, ..m }, Ok(()))
    }
}

/// Claims a list's items before anything is allocated for them.
pub fn guard_lazy_list(arena: &mut SpecArena, scope: &HostScope, alive: bool, count: usize) -> (r:
    Result<(), ScriptError<String>>)
    ensures
        (final(arena)@, error::outcome_view(r)) == list_guarded(
            old(arena)@,
            *scope,
            alive,
            count,
        ),
{
    match scope.phase {
        Some(ScopePhase::Layout) => {
            return Err(ScriptError::Fixed(Fault::NestedList));
        },
        _ => {},
    }
    if !alive {
        return Err(ScriptError::Fixed(Fault::ShutDown));
    }
    if arena.claim_virtual_items(count, MAX_VIRTUAL_ITEMS_PER_RENDER) {
        Ok(())
    } else {
        Err(ScriptError::ItemBudget { limit: MAX_VIRTUAL_ITEMS_PER_RENDER as u64 })
    }
}

/// The size of an item with the given extent along a list's own axis. The other one is measured.
pub open spec fn item_size(axis: Axis, extent: Number) -> ItemSize {
    match axis {
        Axis::Vertical => ItemSize { width: 0, height: extent.narrow },
        Axis::Horizontal => ItemSize { width: extent.narrow, height: 0 },
    }
}

/// Whether a number is an extent: finite and not negative.
pub open spec fn is_extent(value: Number) -> bool {
    number::wide_finite(value.wide) && number::wide_value(value.wide) >= 0
}

/// The sizes of a list's items, or what is wrong with their extents.
pub open spec fn sizes_of(axis: Axis, count: nat, extents: ItemExtents<Seq<Number>>) -> Result<
    Seq<ItemSize>,
    ScriptError<Seq<char>>,
> {
    match extents {
        ItemExtents::Uniform(value) => if is_extent(value) {
            Ok(Seq::new(count, |i: int| item_size(axis, value)))
        } else {
            Err(ScriptError::Fixed(Fault::ItemSize))
        },
        ItemExtents::PerItem(values) => if values.len() != count {
            Err(ScriptError::ItemSizeCount { sizes: values.len() as u64, count: count as u64 })
        } else if exists|i: int| 0 <= i < values.len() && !is_extent(#[trigger] values[i]) {
            Err(ScriptError::Fixed(Fault::ItemSize))
        } else {
            Ok(Seq::new(count, |i: int| item_size(axis, values[i])))
        },
    }
}

fn size_of_item(axis: Axis, extent: Number) -> (r: ItemSize)
    ensures
        r == item_size(axis, extent),
{
    match axis {
        Axis::Vertical => ItemSize { width: 0, height: extent.narrow },
        Axis::Horizontal => ItemSize { width: extent.narrow, height: 0 },
    }
}

/// The sizes of a list's items.
pub fn item_sizes(axis: Axis, count: usize, extents: &ItemExtents<Vec<Number>>) -> (r: Result<
    Vec<ItemSize>,
    ScriptError<String>,
>)
    ensures
        match (r, sizes_of(axis, count as nat, extents_view(*extents))) {
            (Ok(sizes), Ok(expected)) => sizes@ == expected,
            (Err(error), Err(expected)) => error::error_view(error) == expected,
            _ => false,
        },
{
    match extents {
        ItemExtents::Uniform(value) => {
            if !value.is_extent() {
                return Err(ScriptError::Fixed(Fault::ItemSize));
            }
            let mut out: Vec<ItemSize> = Vec::new();
            while out.len() < count
                invariant
                    out@.len() <= count,
                    forall|i: int| 0 <= i < out@.len() ==> out@[i] == item_size(axis, *value),
                decreases count - out@.len(),
            {
                out.push(size_of_item(axis, *value));
            }
            assert(out@ =~= Seq::new(count as nat, |i: int| item_size(axis, *value)));
            Ok(out)
        },
        ItemExtents::PerItem(values) => {
            if values.len() != count {
                return Err(
                    ScriptError::ItemSizeCount {
                        sizes: values.len() as u64,
                        count: count as u64,
                    },
                );
            }
            let mut out: Vec<ItemSize> = Vec::new();
            let mut i: usize = 0;
            while i < values.len()
                invariant
                    i <= values@.len(),
                    values@.len() == count,
                    extents_view(*extents) == ItemExtents::PerItem(values@),
                    out@.len() == i,
                    forall|j: int| 0 <= j < i ==> is_extent(#[trigger] values@[j]),
                    forall|j: int| 0 <= j < i ==> out@[j] == item_size(axis, values@[j]),
                decreases values@.len() - i,
            {
                let value = values[i];
                if !value.is_extent() {
                    assert(!is_extent(values@[i as int]));
                    return Err(ScriptError::Fixed(Fault::ItemSize));
                }
                out.push(size_of_item(axis, value));
                i += 1;
            }
            assert(out@ =~= Seq::new(count as nat, |i: int| item_size(axis, values@[i])));
            Ok(out)
        },
    }
}

/// How a list's function is registered.
pub open spec fn list_entry(function: u64, scope: HostScope, call: Option<u64>) -> CallbackEntry {
    CallbackEntry {
        value: function,
        view: scope.view,
        application: scope::current_generation(scope),
        registered_in: call,
    }
}

/// The functions with a list's two registered, the keys' first.
pub open spec fn item_functions(
    functions: CallbacksModel,
    scope: HostScope,
    call: Option<u64>,
    get_key: u64,
    render: u64,
) -> CallbacksModel {
    callbacks::registered(
        callbacks::registered(functions, list_entry(get_key, scope, call)),
        list_entry(render, scope, call),
    )
}

/// Registers a list's two functions; gives their numbers, the keys' first.
pub fn register_item_callbacks(
    functions: &mut CallbackArena,
    scope: &HostScope,
    call: Option<u64>,
    get_key: u64,
    render: u64,
) -> (r: (u64, u64))
    requires
        callbacks::in_order(old(functions)@),
        old(functions)@.last_id < u64::MAX - 1,
    ensures
        r.0 == old(functions)@.last_id + 1,
        r.1 == old(functions)@.last_id + 2,
        final(functions)@ == item_functions(old(functions)@, *scope, call, get_key, render),
        callbacks::in_order(final(functions)@),
{
    let application: Option<u64> = scope.generation();
    let key: u64 = functions.push(
        CallbackEntry { value: get_key, view: scope.view, application, registered_in: call },
    );
    let renderer: u64 = functions.push(
        CallbackEntry { value: render, view: scope.view, application, registered_in: call },
    );
    (key, renderer)
}

/// What the constructor of a virtual list does and answers.
pub open spec fn virtual_list(
    m: ArenaModel,
    functions: CallbacksModel,
    scope: HostScope,
    call: Option<u64>,
    alive: bool,
    id: Seq<char>,
    axis: Axis,
    count: usize,
    extents: ItemExtents<Seq<Number>>,
    get_key: u64,
    render: u64,
) -> (ArenaModel, CallbacksModel, Result<u32, ScriptError<Seq<char>>>) {
    match list_guarded(m, scope, alive, count) {
        (after, Err(error)) => (after, functions, Err(error)),
        (after, Ok(())) => match sizes_of(axis, count as nat, extents) {
            Err(error) => (after, functions, Err(error)),
            Ok(sizes) => (
                arena::pushed(
                    after,
                    Component::VirtualList {
                        id,
                        axis,
                        sizes,
                        get_key: (functions.last_id + 1) as u64,
                        render: (functions.last_id + 2) as u64,
                    },
                ),
                item_functions(functions, scope, call, get_key, render),
                Ok(m.nodes.len() as u32),
            ),
        },
    }
}

/// Describes a virtual list; gives its element.
pub fn virtual_list_constructor(
    arena: &mut SpecArena,
    functions: &mut CallbackArena,
    scope: &HostScope,
    call: Option<u64>,
    alive: bool,
    id: &str,
    axis: Axis,
    count: usize,
    extents: &ItemExtents<Vec<Number>>,
    get_key: u64,
    render: u64,
) -> (r: Result<u32, ScriptError<String>>)
    requires
        callbacks::in_order(old(functions)@),
        old(functions)@.last_id < u64::MAX - 1,
        old(arena)@.nodes.len() < u32::MAX,
    ensures
        ({
            let owed = virtual_list(
                old(arena)@,
                old(functions)@,
                *scope,
                call,
                alive,
                id@,
                axis,
                count,
                extents_view(*extents),
                get_key,
                render,
            );
            &&& final(arena)@ == owed.0
            &&& final(functions)@ == owed.1
            &&& error::outcome_view(r) == owed.2
        }),
        callbacks::in_order(final(functions)@),
{
    match guard_lazy_list(arena, scope, alive, count) {
        Err(error) => {
            return Err(error);
        },
        Ok(()) => {},
    }
    let sizes = match item_sizes(axis, count, extents) {
        Ok(sizes) => sizes,
        Err(error) => {
            return Err(error);
        },
    };
    let (key, renderer) = register_item_callbacks(functions, scope, call, get_key, render);
    let node: u32 = arena.push(
        Component::VirtualList { id: id.to_owned(), axis, sizes, get_key: key, render: renderer },
    );
    Ok(node)
}

/// What the constructor of a list does and answers.
pub open spec fn list(
    m: ArenaModel,
    functions: CallbacksModel,
    scope: HostScope,
    call: Option<u64>,
    alive: bool,
    id: Seq<char>,
    kind: ListKind,
    count: usize,
    get_key: u64,
    render: u64,
) -> (ArenaModel, CallbacksModel, Result<u32, ScriptError<Seq<char>>>) {
    match list_guarded(m, scope, alive, count) {
        (after, Err(error)) => (after, functions, Err(error)),
        (after, Ok(())) => (
            arena::pushed(
                after,
                Component::List {
                    id,
                    kind,
                    count,
                    get_key: (functions.last_id + 1) as u64,
                    render: (functions.last_id + 2) as u64,
                },
            ),
            item_functions(functions, scope, call, get_key, render),
            Ok(m.nodes.len() as u32),
        ),
    }
}

/// Describes a list; gives its element.
pub fn list_constructor(
    arena: &mut SpecArena,
    functions: &mut CallbackArena,
    scope: &HostScope,
    call: Option<u64>,
    alive: bool,
    id: &str,
    kind: ListKind,
    count: usize,
    get_key: u64,
    render: u64,
) -> (r: Result<u32, ScriptError<String>>)
    requires
        callbacks::in_order(old(functions)@),
        old(functions)@.last_id < u64::MAX - 1,
        old(arena)@.nodes.len() < u32::MAX,
    ensures
        ({
            let owed = list(
                old(arena)@,
                old(functions)@,
                *scope,
                call,
                alive,
                id@,
                kind,
                count,
                get_key,
                render,
            );
            &&& final(arena)@ == owed.0
            &&& final(functions)@ == owed.1
            &&& error::outcome_view(r) == owed.2
        }),
        callbacks::in_order(final(functions)@),
{
    match guard_lazy_list(arena, scope, alive, count) {
        Err(error) => {
            return Err(error);
        },
        Ok(()) => {},
    }
    let (key, renderer) = register_item_callbacks(functions, scope, call, get_key, render);
    let node: u32 = arena.push(
        Component::List { id: id.to_owned(), kind, count, get_key: key, render: renderer },
    );
    Ok(node)
}

/// The lists of one description never stand for more items than the limit, whatever lists are
/// added to it, and a list that is refused counts for none.
pub proof fn law_lists_stay_within_the_item_limit(
    m: ArenaModel,
    scope: HostScope,
    alive: bool,
    count: usize,
)
    requires
        m.virtual_items <= MAX_VIRTUAL_ITEMS_PER_RENDER,
    ensures
        list_guarded(m, scope, alive, count).0.virtual_items <= MAX_VIRTUAL_ITEMS_PER_RENDER,
        list_guarded(m, scope, alive, count).1 is Err ==> list_guarded(m, scope, alive, count).0
            == m,
{
}

/// The markup that a name stands for.
pub open spec fn text_view_format(name: Seq<char>) -> Option<TextViewFormat> {
    if name == "html"@ {
        Some(TextViewFormat::Html)
    } else if name == "markdown"@ {
        Some(TextViewFormat::Markdown)
    } else {
        None
    }
}

/// What the constructor of a text view makes.
pub fn text_view_constructor(id: String, content: String, format: &str) -> (r: Result<
    Component<String, Vec<ItemSize>>,
    Fault,
>)
    ensures
        match (r, text_view_format(format@)) {
            (Ok(component), Some(format)) => arena::component_view(component) == (
            Component::<Seq<char>, Seq<ItemSize>>::TextView { id: id@, text: content@, format }),
            (Err(fault), None) => fault == Fault::TextViewFormat,
            _ => false,
        },
{
    if text::same(format, "html") {
        Ok(Component::TextView { id, text: content, format: TextViewFormat::Html })
    } else if text::same(format, "markdown") {
        Ok(Component::TextView { id, text: content, format: TextViewFormat::Markdown })
    } else {
        Err(Fault::TextViewFormat)
    }
}

/// What the constructor of a date picker makes. `live` tells whether its focus handle still
/// exists.
pub fn date_picker_constructor(id: String, handle: u64, live: bool) -> (r: Result<
    Component<String, Vec<ItemSize>>,
    Fault,
>)
    ensures
        match r {
            Ok(component) => live && arena::component_view(component) == Component::<
                Seq<char>,
                Seq<ItemSize>,
            >::DatePicker(id@, handle),
            Err(fault) => !live && fault == Fault::DatePickerFocus,
        },
{
    if live {
        Ok(Component::DatePicker(id, handle))
    } else {
        Err(Fault::DatePickerFocus)
    }
}

/// What the constructor of a host module's component makes. `refusal` is why the host has no such
/// component, where it has none.
pub fn module_component_constructor(
    module: String,
    name: String,
    id: String,
    props: u64,
    policy: u64,
    refusal: Option<&str>,
) -> (r: Result<Component<String, Vec<ItemSize>>, ScriptError<String>>)
    ensures
        match r {
            Err(error) => error::error_view(error) == if id@.len() == 0 {
                ScriptError::<Seq<char>>::Fixed(Fault::ComponentId)
            } else {
                ScriptError::HostMessage { message: refusal->Some_0@ }
            } && (id@.len() == 0 || refusal is Some),
            Ok(component) => id@.len() > 0 && refusal is None && arena::component_view(component)
                == (Component::<Seq<char>, Seq<ItemSize>>::Module {
                module: module@,
                component: name@,
                id: id@,
                props,
                policy,
            }),
        },
{
    if text::chars_of(id.as_str()).len() == 0 {
        return Err(ScriptError::Fixed(Fault::ComponentId));
    }
    match refusal {
        Some(message) => Err(ScriptError::HostMessage { message: message.to_owned() }),
        None => Ok(Component::Module { module, component: name, id, props, policy }),
    }
}

/// One value of a path's background: its text, and the bits of the single it is read as, if it can
/// be read as one.
pub struct PathValue<S> {
    pub content: S,
    pub single: Option<u32>,
}

/// The values of a path's background, with sequences in place of strings.
pub open spec fn path_values(values: Seq<PathValue<String>>) -> Seq<PathValue<Seq<char>>> {
    values.map_values(
        |value: PathValue<String>|
            PathValue::<Seq<char>> { content: value.content@, single: value.single },
    )
}

/// The finite single at a position, or the given error.
pub open spec fn path_number(values: Seq<PathValue<Seq<char>>>, index: int, fault: Fault) -> Result<
    u32,
    Fault,
> {
    if 0 <= index < values.len() {
        match values[index].single {
            Some(bits) => if number::narrow_finite(bits) {
                Ok(bits)
            } else {
                Err(fault)
            },
            None => Err(fault),
        }
    } else {
        Err(fault)
    }
}

/// The text at a position, or the given error.
pub open spec fn path_text(values: Seq<PathValue<Seq<char>>>, index: int, fault: Fault) -> Result<
    Seq<char>,
    Fault,
> {
    if 0 <= index < values.len() {
        Ok(values[index].content)
    } else {
        Err(fault)
    }
}

/// What the name and the values of a background come to; the first value that is missing or not as
/// it should be decides which error.
pub open spec fn background(
    kind: Seq<char>,
    values: Seq<PathValue<Seq<char>>>,
    color_space: Seq<char>,
) -> Result<BackgroundKind<Seq<char>>, Fault> {
    if kind == "solid"@ {
        match path_text(values, 0, Fault::SolidColor) {
            Ok(color) => Ok(BackgroundKind::Solid { color }),
            Err(fault) => Err(fault),
        }
    } else if kind == "linear-gradient"@ {
        match (
            path_number(values, 0, Fault::GradientAngle),
            path_text(values, 1, Fault::GradientFrom),
            path_number(values, 2, Fault::GradientFromPercentage),
            path_text(values, 3, Fault::GradientTo),
            path_number(values, 4, Fault::GradientToPercentage),
        ) {
            (Err(fault), _, _, _, _) => Err(fault),
            (_, Err(fault), _, _, _) => Err(fault),
            (_, _, Err(fault), _, _) => Err(fault),
            (_, _, _, Err(fault), _) => Err(fault),
            (_, _, _, _, Err(fault)) => Err(fault),
            (Ok(angle), Ok(from), Ok(from_at), Ok(to), Ok(to_at)) => Ok(
                BackgroundKind::LinearGradient { angle, from, from_at, to, to_at, color_space },
            ),
        }
    } else if kind == "pattern-slash"@ {
        match (
            path_text(values, 0, Fault::SlashColor),
            path_number(values, 1, Fault::SlashWidth),
            path_number(values, 2, Fault::SlashInterval),
        ) {
            (Err(fault), _, _) => Err(fault),
            (_, Err(fault), _) => Err(fault),
            (_, _, Err(fault)) => Err(fault),
            (Ok(color), Ok(width), Ok(interval)) => Ok(
                BackgroundKind::PatternSlash { color, width, interval },
            ),
        }
    } else if kind == "checkerboard"@ {
        match (
            path_text(values, 0, Fault::CheckerboardColor),
            path_number(values, 1, Fault::CheckerboardSize),
        ) {
            (Err(fault), _) => Err(fault),
            (_, Err(fault)) => Err(fault),
            (Ok(color), Ok(size)) => Ok(BackgroundKind::Checkerboard { color, size }),
        }
    } else {
        Err(Fault::PathKind)
    }
}

fn single_at(values: &Vec<PathValue<String>>, index: usize, fault: Fault) -> (r: Result<u32, Fault>)
    ensures
        r == path_number(path_values(values@), index as int, fault),
{
    if index < values.len() {
        match values[index].single {
            Some(bits) => if (bits / 0x80_0000) % 256 < 255 {
                Ok(bits)
            } else {
                Err(fault)
            },
            None => Err(fault),
        }
    } else {
        Err(fault)
    }
}

fn content_at(values: &Vec<PathValue<String>>, index: usize, fault: Fault) -> (r: Result<
    String,
    Fault,
>)
    ensures
        match (r, path_text(path_values(values@), index as int, fault)) {
            (Ok(content), Ok(expected)) => content@ == expected,
            (Err(found), Err(expected)) => found == expected,
            _ => false,
        },
{
    if index < values.len() {
        Ok(values[index].content.as_str().to_owned())
    } else {
        Err(fault)
    }
}

/// Reads a path's background.
pub fn read_background(kind: &str, values: &Vec<PathValue<String>>, color_space: String) -> (r:
    Result<BackgroundKind<String>, Fault>)
    ensures
        match (r, background(kind@, path_values(values@), color_space@)) {
            (Ok(found), Ok(expected)) => arena::background_view(found) == expected,
            (Err(fault), Err(expected)) => fault == expected,
            _ => false,
        },
{
    if text::same(kind, "solid") {
        let color = content_at(values, 0, Fault::SolidColor)?;
        Ok(BackgroundKind::Solid { color })
    } else if text::same(kind, "linear-gradient") {
        let angle: u32 = single_at(values, 0, Fault::GradientAngle)?;
        let from = content_at(values, 1, Fault::GradientFrom)?;
        let from_at: u32 = single_at(values, 2, Fault::GradientFromPercentage)?;
        let to = content_at(values, 3, Fault::GradientTo)?;
        let to_at: u32 = single_at(values, 4, Fault::GradientToPercentage)?;
        Ok(BackgroundKind::LinearGradient { angle, from, from_at, to, to_at, color_space })
    } else if text::same(kind, "pattern-slash") {
        let color = content_at(values, 0, Fault::SlashColor)?;
        let width: u32 = single_at(values, 1, Fault::SlashWidth)?;
        let interval: u32 = single_at(values, 2, Fault::SlashInterval)?;
        Ok(BackgroundKind::PatternSlash { color, width, interval })
    } else if text::same(kind, "checkerboard") {
        let color = content_at(values, 0, Fault::CheckerboardColor)?;
        let size: u32 = single_at(values, 1, Fault::CheckerboardSize)?;
        Ok(BackgroundKind::Checkerboard { color, size })
    } else {
        Err(Fault::PathKind)
    }
}

/// What the constructor of a path comes to. Its stroke width and opacity are to be finite and not
/// negative.
pub open spec fn path(
    fill: bool,
    kind: Seq<char>,
    values: Seq<PathValue<Seq<char>>>,
    opacity: Number,
    color_space: Seq<char>,
    width: Number,
) -> Result<Component<Seq<char>, Seq<ItemSize>>, Fault> {
    if !is_extent(width) {
        Err(Fault::PathWidth)
    } else if !is_extent(opacity) {
        Err(Fault::PathOpacity)
    } else {
        match background(kind, values, color_space) {
            Err(fault) => Err(fault),
            Ok(background) => Ok(
                Component::Path {
                    fill,
                    background,
                    opacity: opacity.narrow,
                    stroke_width: width.narrow,
                },
            ),
        }
    }
}

/// Refuses a path whose width or opacity is not finite or negative. That is looked at before the
/// values of its background are read.
pub fn check_path_extents(opacity: Number, width: Number) -> (r: Result<(), Fault>)
    ensures
        r == if !is_extent(width) {
            Err(Fault::PathWidth)
        } else if !is_extent(opacity) {
            Err(Fault::PathOpacity)
        } else {
            Ok(())
        },
{
    if !width.is_extent() {
        Err(Fault::PathWidth)
    } else if !opacity.is_extent() {
        Err(Fault::PathOpacity)
    } else {
        Ok(())
    }
}

/// What the constructor of a path makes.
pub fn path_constructor(
    fill: bool,
    kind: &str,
    values: &Vec<PathValue<String>>,
    opacity: Number,
    color_space: String,
    width: Number,
) -> (r: Result<Component<String, Vec<ItemSize>>, Fault>)
    ensures
        match (r, path(fill, kind@, path_values(values@), opacity, color_space@, width)) {
            (Ok(component), Ok(expected)) => arena::component_view(component) == expected,
            (Err(fault), Err(expected)) => fault == expected,
            _ => false,
        },
{
    match check_path_extents(opacity, width) {
        Err(fault) => {
            return Err(fault);
        },
        Ok(()) => {},
    }
    match read_background(kind, values, color_space) {
        Err(fault) => Err(fault),
        Ok(background) => Ok(
            Component::Path {
                fill,
                background,
                opacity: opacity.narrow,
                stroke_width: width.narrow,
            },
        ),
    }
}

/// The index that a number of pages is, or that it is none.
pub fn page_count(value: Number) -> (r: Result<usize, Fault>)
    ensures
        r == if is_extent(value) {
            Ok::<usize, Fault>(number::wide_to_index(value.wide))
        } else {
            Err::<usize, Fault>(Fault::Pagination)
        },
{
    if value.is_extent() {
        Ok(value.to_index())
    } else {
        Err(Fault::Pagination)
    }
}

/// A place in a pagination: a page, or a gap from one page up to, not including, another.
#[derive(Clone, Copy, PartialEq, Eq, Structural, Debug)]
pub enum PaginationItem {
    Page(usize),
    Ellipsis { start: usize, end: usize },
}

/// A place in a pagination as a script sees it: a page, or the first and the last page of a gap.
#[derive(Clone, Copy, PartialEq, Eq, Structural, Debug)]
pub enum PaginationEntry {
    Page(u32),
    Ellipsis(u32, u32),
}

/// The last page of a gap that ends before the given page.
pub open spec fn gap_end(end: usize) -> usize {
    if end > 0 {
        (end - 1) as usize
    } else {
        0
    }
}

/// What a script sees of a pagination: a gap's last page is one before its end. Page numbers are
/// given modulo two to the thirty-second.
pub fn pagination_items(items: &Vec<PaginationItem>) -> (r: Vec<PaginationEntry>)
    ensures
        r@ == items@.map_values(
            |item: PaginationItem|
                match item {
                    PaginationItem::Page(page) => PaginationEntry::Page(page as u32),
                    PaginationItem::Ellipsis { start, end } => PaginationEntry::Ellipsis(
                        start as u32,
                        gap_end(end) as u32,
                    ),
                },
        ),
{
    let mut out: Vec<PaginationEntry> = Vec::new();
    let mut i: usize = 0;
    while i < items.len()
        invariant
            i <= items@.len(),
            out@.len() == i,
            forall|j: int|
                0 <= j < i ==> #[trigger] out@[j] == match items@[j] {
                    PaginationItem::Page(page) => PaginationEntry::Page(page as u32),
                    PaginationItem::Ellipsis { start, end } => PaginationEntry::Ellipsis(
                        start as u32,
                        gap_end(end) as u32,
                    ),
                },
        decreases items@.len() - i,
    {
        out.push(
            match items[i] {
                PaginationItem::Page(page) => PaginationEntry::Page(page as u32),
                PaginationItem::Ellipsis { start, end } => PaginationEntry::Ellipsis(
                    start as u32,
                    end.saturating_sub(1) as u32,
                ),
            },
        );
        i += 1;
    }
    out
}

proof fn lemma_background_kinds()
    ensures
        "solid"@ != "linear-gradient"@,
        "solid"@ != "pattern-slash"@,
        "solid"@ != "checkerboard"@,
        "linear-gradient"@ != "pattern-slash"@,
        "linear-gradient"@ != "checkerboard"@,
        "pattern-slash"@ != "checkerboard"@,
{
    reveal_strlit("solid");
    assert("solid"@.len() == 5);
    reveal_strlit("linear-gradient");
    assert("linear-gradient"@.len() == 15);
    reveal_strlit("pattern-slash");
    assert("pattern-slash"@.len() == 13);
    reveal_strlit("checkerboard");
    assert("checkerboard"@.len() == 12);
}

/// With one extent per item, each item has its own extent along the list's axis, in the order in
/// which they were given, and none across it; there are as many items as the list counts, and
/// extents are refused exactly where one is missing, left over, not finite or negative.
pub proof fn law_each_item_has_its_own_extent(axis: Axis, count: nat, values: Seq<Number>)
    ensures
        match sizes_of(axis, count, ItemExtents::PerItem(values)) {
            Ok(sizes) => {
                &&& sizes.len() == values.len() == count
                &&& forall|i: int|
                    0 <= i < values.len() ==> match axis {
                        Axis::Vertical => (#[trigger] sizes[i]).height == values[i].narrow
                            && sizes[i].width == 0,
                        Axis::Horizontal => sizes[i].width == values[i].narrow && sizes[i].height
                            == 0,
                    }
            },
            Err(_) => values.len() != count || exists|i: int|
                0 <= i < values.len() && ((#[trigger] values[i]).wide > 0x8000_0000_0000_0000
                    || 0x7FF0_0000_0000_0000 <= values[i].wide < 0x8000_0000_0000_0000),
        },
        values.len() != count ==> sizes_of(axis, count, ItemExtents::PerItem(values)) is Err,
        forall|i: int|
            0 <= i < values.len() && ((#[trigger] values[i]).wide > 0x8000_0000_0000_0000
                || 0x7FF0_0000_0000_0000 <= values[i].wide < 0x8000_0000_0000_0000) ==> sizes_of(
                axis,
                count,
                ItemExtents::PerItem(values),
            ) is Err,
{
    assert forall|i: int| 0 <= i < values.len() implies is_extent(#[trigger] values[i]) == (
    values[i].wide < 0x7FF0_0000_0000_0000 || values[i].wide == 0x8000_0000_0000_0000) by {
        number::law_extents_are_read_off_their_bits(values[i].wide);
    }
}

/// With one extent for all, every item has it along the list's axis and none across it, and there
/// are as many items as the list counts; two lists that differ in their axis alone have their
/// items' widths and heights exchanged.
pub proof fn law_one_extent_is_that_of_every_item(count: nat, value: Number)
    ensures
        match (
            sizes_of(Axis::Vertical, count, ItemExtents::Uniform(value)),
            sizes_of(Axis::Horizontal, count, ItemExtents::Uniform(value)),
        ) {
            (Ok(down), Ok(across)) => {
                &&& down.len() == across.len() == count
                &&& forall|i: int|
                    0 <= i < count ==> (#[trigger] down[i]).height == value.narrow && down[i].width
                        == 0 && across[i].width == value.narrow && across[i].height == 0
            },
            (Err(_), Err(_)) => value.wide > 0x8000_0000_0000_0000 || 0x7FF0_0000_0000_0000
                <= value.wide < 0x8000_0000_0000_0000,
            _ => false,
        },
{
    number::law_extents_are_read_off_their_bits(value.wide);
}

proof fn lemma_numbers(items: Seq<ScriptValue>, kind: Seq<char>)
    ensures
        match numbers_of(items, kind) {
            Ok(numbers) => numbers.len() == items.len() && forall|i: int|
                0 <= i < items.len() ==> (#[trigger] items[i]) == ScriptValue::Number(numbers[i]),
            Err(_) => exists|i: int| 0 <= i < items.len() && (#[trigger] items[i]) !is Number,
        },
    decreases items.len(),
{
    if items.len() > 0 {
        let rest = items.drop_last();
        lemma_numbers(rest, kind);
        match numbers_of(rest, kind) {
            Ok(numbers) => {
                assert forall|i: int| 0 <= i < items.len() && items.last() is Number implies (
                #[trigger] items[i]) == ScriptValue::Number(
                    numbers_of(items, kind)->Ok_0[i],
                ) by {
                    if i < rest.len() {
                        assert(rest[i] == items[i]);
                    }
                }
                assert(items[items.len() - 1] == items.last());
            },
            Err(_) => {
                let i = choose|i: int| 0 <= i < rest.len() && (#[trigger] rest[i]) !is Number;
                assert(items[i] == rest[i]);
            },
        }
    }
}

/// Item extents are the numbers that were given: one number for all items, or those of an array,
/// all of them and in their order. An array of numbers within the limit is taken.
pub proof fn law_extents_are_the_numbers_given(value: ScriptValue, limit: u64, kind: Seq<char>)
    ensures
        match extents_of(value, limit, kind) {
            Ok(ItemExtents::Uniform(number)) => value == ScriptValue::Number(number),
            Ok(ItemExtents::PerItem(numbers)) => match value {
                ScriptValue::Array { slot, items } => {
                    &&& numbers.len() == items@.len() <= limit
                    &&& forall|i: int|
                        0 <= i < numbers.len() ==> (#[trigger] items@[i]) == ScriptValue::Number(
                            numbers[i],
                        )
                },
                _ => false,
            },
            Err(_) => match value {
                ScriptValue::Number(_) => false,
                ScriptValue::Array { slot, items } => items@.len() > limit || exists|i: int|
                    0 <= i < items@.len() && (#[trigger] items@[i]) !is Number,
                _ => true,
            },
        },
{
    match value {
        ScriptValue::Array { slot, items } => {
            lemma_numbers(items@, kind);
        },
        _ => {},
    }
}

/// Whether a function with a number is, once the description is complete, one that was given, for
/// the view, the application and the call of a scope.
pub open spec fn answers_to(
    functions: CallbacksModel,
    number: u64,
    function: u64,
    scope: HostScope,
    call: Option<u64>,
) -> bool {
    match callbacks::callable(callbacks::committed(functions).entries, number) {
        Some(entry) => {
            &&& entry.value == function
            &&& entry.view == scope.view
            &&& entry.application is Some <==> scope.application is Some
            &&& scope.application matches Some(current) ==> entry.application == Some(
                current.generation,
            )
            &&& entry.registered_in == call
        },
        None => false,
    }
}

proof fn lemma_item_functions(
    functions: CallbacksModel,
    scope: HostScope,
    call: Option<u64>,
    get_key: u64,
    render: u64,
)
    requires
        callbacks::in_order(functions),
        functions.open is Some,
        functions.last_id < u64::MAX - 1,
    ensures
        ({
            let after = item_functions(functions, scope, call, get_key, render);
            &&& answers_to(after, (functions.last_id + 1) as u64, get_key, scope, call)
            &&& answers_to(after, (functions.last_id + 2) as u64, render, scope, call)
        }),
{
    let keyed = callbacks::registered(functions, list_entry(get_key, scope, call));
    let after = item_functions(functions, scope, call, get_key, render);
    let n = functions.entries.len() as int;
    assert(after.entries.len() == n + 2);
    assert forall|i: int| 0 <= i < n implies after.entries[i] == functions.entries[i] by {}
    assert(callbacks::in_order(after)) by {
        assert forall|i: int, j: int| 0 <= i < j < after.entries.len() implies (
        #[trigger] after.entries[i]).id < (#[trigger] after.entries[j]).id by {
            if i < n {
                assert(after.entries[i] == functions.entries[i]);
            }
            if j < n {
                assert(after.entries[j] == functions.entries[j]);
            }
        }
        assert forall|i: int| 0 <= i < after.entries.len() implies (
        #[trigger] after.entries[i]).id <= after.last_id && (after.entries[i].standing
            == callbacks::Standing::Staged ==> after.open is Some) by {
            if i < n {
                assert(after.entries[i] == functions.entries[i]);
            }
        }
    }
    callbacks::law_completion_publishes_what_was_registered(after, n);
    callbacks::law_completion_publishes_what_was_registered(after, n + 1);
}

/// A list that is accepted becomes one new element, at the number it is answered with and in no
/// place yet. It has the name, kind and item count it was given; its keys come from the function
/// that was given for keys and its items from the one given to describe them, both for the view,
/// application and call that described it. It is accepted outside of layout while the runtime
/// exists and all lists together stay within the limit.
pub proof fn law_a_list_is_described_as_asked(
    m: ArenaModel,
    functions: CallbacksModel,
    scope: HostScope,
    call: Option<u64>,
    alive: bool,
    id: Seq<char>,
    kind: ListKind,
    count: usize,
    get_key: u64,
    render: u64,
)
    requires
        callbacks::in_order(functions),
        functions.open is Some,
        functions.last_id < u64::MAX - 1,
        m.nodes.len() < u32::MAX,
    ensures
        ({
            let (after, registered, answer) = list(
                m,
                functions,
                scope,
                call,
                alive,
                id,
                kind,
                count,
                get_key,
                render,
            );
            &&& answer is Ok <==> scope.phase != Some(ScopePhase::Layout) && alive
                && m.virtual_items + count <= 1_000_000
            &&& answer matches Ok(node) ==> {
                &&& node == m.nodes.len()
                &&& after.nodes.len() == node + 1
                &&& after.nodes.take(node as int) == m.nodes
                &&& after.virtual_items == m.virtual_items + count
                &&& !after.nodes[node as int].claimed
                &&& after.nodes[node as int].ops.len() == 0
                &&& match after.nodes[node as int].component {
                    Component::List {
                        id: named,
                        kind: made,
                        count: counted,
                        get_key: keys,
                        render: items,
                    } => {
                        &&& named == id
                        &&& made == kind
                        &&& counted == count
                        &&& answers_to(registered, keys, get_key, scope, call)
                        &&& answers_to(registered, items, render, scope, call)
                    },
                    _ => false,
                }
            }
            &&& answer is Err ==> after == m && registered == functions
        }),
{
    lemma_item_functions(functions, scope, call, get_key, render);
    let after = list(m, functions, scope, call, alive, id, kind, count, get_key, render).0;
    if list_guarded(m, scope, alive, count).1 is Ok {
        assert(after.nodes.take(m.nodes.len() as int) =~= m.nodes);
    }
}

/// A virtual list that is accepted becomes one new element, at the number it is answered with and
/// in no place yet. It has the name, axis and item sizes it was given; its keys come from the
/// function that was given for keys and its items from the one given to describe them, both for
/// the view, application and call that described it.
pub proof fn law_a_virtual_list_is_described_as_asked(
    m: ArenaModel,
    functions: CallbacksModel,
    scope: HostScope,
    call: Option<u64>,
    alive: bool,
    id: Seq<char>,
    axis: Axis,
    count: usize,
    extents: ItemExtents<Seq<Number>>,
    get_key: u64,
    render: u64,
)
    requires
        callbacks::in_order(functions),
        functions.open is Some,
        functions.last_id < u64::MAX - 1,
        m.nodes.len() < u32::MAX,
    ensures
        ({
            let (after, registered, answer) = virtual_list(
                m,
                functions,
                scope,
                call,
                alive,
                id,
                axis,
                count,
                extents,
                get_key,
                render,
            );
            &&& answer is Ok <==> scope.phase != Some(ScopePhase::Layout) && alive
                && m.virtual_items + count <= 1_000_000 && sizes_of(axis, count as nat, extents)
                is Ok
            &&& answer matches Ok(node) ==> {
                &&& node == m.nodes.len()
                &&& after.nodes.len() == node + 1
                &&& after.nodes.take(node as int) == m.nodes
                &&& after.virtual_items == m.virtual_items + count
                &&& !after.nodes[node as int].claimed
                &&& after.nodes[node as int].ops.len() == 0
                &&& match after.nodes[node as int].component {
                    Component::VirtualList {
                        id: named,
                        axis: along,
                        sizes,
                        get_key: keys,
                        render: items,
                    } => {
                        &&& named == id
                        &&& along == axis
                        &&& sizes.len() == count
                        &&& sizes_of(axis, count as nat, extents) == Ok::<
                            Seq<ItemSize>,
                            ScriptError<Seq<char>>,
                        >(sizes)
                        &&& answers_to(registered, keys, get_key, scope, call)
                        &&& answers_to(registered, items, render, scope, call)
                    },
                    _ => false,
                }
            }
            &&& answer is Err ==> after.nodes == m.nodes && registered == functions
        }),
{
    lemma_item_functions(functions, scope, call, get_key, render);
    let after = virtual_list(
        m,
        functions,
        scope,
        call,
        alive,
        id,
        axis,
        count,
        extents,
        get_key,
        render,
    ).0;
    if list_guarded(m, scope, alive, count).1 is Ok && sizes_of(axis, count as nat, extents) is Ok {
        assert(after.nodes.take(m.nodes.len() as int) =~= m.nodes);
    }
}

/// Whether a value of a background can be read as a finite number.
pub open spec fn is_finite_at(values: Seq<PathValue<Seq<char>>>, index: int) -> bool {
    0 <= index < values.len() && match values[index].single {
        Some(bits) => bits % 0x8000_0000 < 0x7F80_0000,
        None => false,
    }
}

proof fn lemma_path_number(values: Seq<PathValue<Seq<char>>>, index: int, fault: Fault)
    ensures
        match path_number(values, index, fault) {
            Ok(bits) => is_finite_at(values, index) && values[index].single == Some(bits),
            Err(found) => !is_finite_at(values, index) && found == fault,
        },
{
    if 0 <= index < values.len() {
        match values[index].single {
            Some(bits) => {
                number::law_singles_are_read_off_their_bits(bits);
            },
            None => {},
        }
    }
}

/// A background has what was given for it, each value at its own place: a colour; an angle and two
/// colours, each followed by where it stands; a colour, a width and an interval; a colour and a
/// size.
pub proof fn law_a_background_is_what_was_given(
    kind: Seq<char>,
    values: Seq<PathValue<Seq<char>>>,
    color_space: Seq<char>,
)
    ensures
        match background(kind, values, color_space) {
            Ok(BackgroundKind::Solid { color }) => kind == "solid"@ && values.len() > 0 && color
                == values[0].content,
            Ok(
                BackgroundKind::LinearGradient { angle, from, from_at, to, to_at, color_space: space },
            ) => {
                &&& kind == "linear-gradient"@
                &&& values.len() > 4
                &&& values[0].single == Some(angle)
                &&& from == values[1].content
                &&& values[2].single == Some(from_at)
                &&& to == values[3].content
                &&& values[4].single == Some(to_at)
                &&& space == color_space
            },
            Ok(BackgroundKind::PatternSlash { color, width, interval }) => {
                &&& kind == "pattern-slash"@
                &&& values.len() > 2
                &&& color == values[0].content
                &&& values[1].single == Some(width)
                &&& values[2].single == Some(interval)
            },
            Ok(BackgroundKind::Checkerboard { color, size }) => {
                &&& kind == "checkerboard"@
                &&& values.len() > 1
                &&& color == values[0].content
                &&& values[1].single == Some(size)
            },
            Err(_) => true,
        },
        kind == "solid"@ ==> (background(kind, values, color_space) is Ok <==> values.len() > 0),
        kind == "linear-gradient"@ ==> (background(kind, values, color_space) is Ok
            <==> is_finite_at(values, 0) && is_finite_at(values, 2) && is_finite_at(values, 4)),
        kind == "pattern-slash"@ ==> (background(kind, values, color_space) is Ok
            <==> is_finite_at(values, 1) && is_finite_at(values, 2)),
        kind == "checkerboard"@ ==> (background(kind, values, color_space) is Ok <==> is_finite_at(
            values,
            1,
        )),
{
    lemma_background_kinds();
    lemma_path_number(values, 0, Fault::GradientAngle);
    lemma_path_number(values, 2, Fault::GradientFromPercentage);
    lemma_path_number(values, 4, Fault::GradientToPercentage);
    lemma_path_number(values, 1, Fault::SlashWidth);
    lemma_path_number(values, 2, Fault::SlashInterval);
    lemma_path_number(values, 1, Fault::CheckerboardSize);
}

/// A background that is refused is refused for the first of its values that is missing or is no
/// finite number where one is needed, and each such value has an error of its own.
pub proof fn law_a_background_is_refused_for_its_first_fault(
    kind: Seq<char>,
    values: Seq<PathValue<Seq<char>>>,
    color_space: Seq<char>,
)
    ensures
        background(kind, values, color_space) matches Err(fault) ==> match fault {
            Fault::SolidColor => kind == "solid"@ && values.len() == 0,
            Fault::GradientAngle => kind == "linear-gradient"@ && !is_finite_at(values, 0),
            Fault::GradientFrom => kind == "linear-gradient"@ && is_finite_at(values, 0)
                && values.len() == 1,
            Fault::GradientFromPercentage => kind == "linear-gradient"@ && is_finite_at(values, 0)
                && values.len() > 1 && !is_finite_at(values, 2),
            Fault::GradientTo => kind == "linear-gradient"@ && is_finite_at(values, 0)
                && is_finite_at(values, 2) && values.len() == 3,
            Fault::GradientToPercentage => kind == "linear-gradient"@ && is_finite_at(values, 0)
                && is_finite_at(values, 2) && values.len() > 3 && !is_finite_at(values, 4),
            Fault::SlashColor => kind == "pattern-slash"@ && values.len() == 0,
            Fault::SlashWidth => kind == "pattern-slash"@ && values.len() > 0 && !is_finite_at(
                values,
                1,
            ),
            Fault::SlashInterval => kind == "pattern-slash"@ && is_finite_at(values, 1)
                && !is_finite_at(values, 2),
            Fault::CheckerboardColor => kind == "checkerboard"@ && values.len() == 0,
            Fault::CheckerboardSize => kind == "checkerboard"@ && values.len() > 0
                && !is_finite_at(values, 1),
            Fault::PathKind => kind != "solid"@ && kind != "linear-gradient"@ && kind
                != "pattern-slash"@ && kind != "checkerboard"@,
            _ => false,
        },
{
    lemma_path_number(values, 0, Fault::GradientAngle);
    lemma_path_number(values, 2, Fault::GradientFromPercentage);
    lemma_path_number(values, 4, Fault::GradientToPercentage);
    lemma_path_number(values, 1, Fault::SlashWidth);
    lemma_path_number(values, 2, Fault::SlashInterval);
    lemma_path_number(values, 1, Fault::CheckerboardSize);
}

/// A path is filled or not as asked, with the opacity given as one and the width given as the
/// other; a width or an opacity that is not finite or negative is refused, the width first.
pub proof fn law_a_path_is_what_was_given(
    fill: bool,
    kind: Seq<char>,
    values: Seq<PathValue<Seq<char>>>,
    opacity: Number,
    color_space: Seq<char>,
    width: Number,
)
    ensures
        match path(fill, kind, values, opacity, color_space, width) {
            Ok(Component::Path { fill: filled, background: ground, opacity: seen, stroke_width }) => {
                &&& filled == fill
                &&& seen == opacity.narrow
                &&& stroke_width == width.narrow
                &&& background(kind, values, color_space) == Ok::<
                    BackgroundKind<Seq<char>>,
                    Fault,
                >(ground)
                &&& width.wide < 0x7FF0_0000_0000_0000 || width.wide == 0x8000_0000_0000_0000
                &&& opacity.wide < 0x7FF0_0000_0000_0000 || opacity.wide == 0x8000_0000_0000_0000
            },
            Ok(_) => false,
            Err(Fault::PathWidth) => width.wide >= 0x7FF0_0000_0000_0000 && width.wide
                != 0x8000_0000_0000_0000,
            Err(Fault::PathOpacity) => opacity.wide >= 0x7FF0_0000_0000_0000 && opacity.wide
                != 0x8000_0000_0000_0000 && (width.wide < 0x7FF0_0000_0000_0000 || width.wide
                == 0x8000_0000_0000_0000),
            Err(fault) => background(kind, values, color_space) == Err::<
                BackgroundKind<Seq<char>>,
                Fault,
            >(fault),
        },
{
    number::law_extents_are_read_off_their_bits(width.wide);
    number::law_extents_are_read_off_their_bits(opacity.wide);
    law_a_background_is_refused_for_its_first_fault(kind, values, color_space);
}

/// The markup of a text view is the one it is named after, and there are two.
pub proof fn law_a_format_has_one_name(a: Seq<char>, b: Seq<char>)
    ensures
        text_view_format(a) is Some && text_view_format(a) == text_view_format(b) ==> a == b,
        text_view_format(a) == Some(TextViewFormat::Html) ==> a == "html"@,
        text_view_format(a) == Some(TextViewFormat::Markdown) ==> a == "markdown"@,
        text_view_format("html"@) is Some,
        text_view_format("markdown"@) is Some,
{
}

/// A gap ends one page before the page that follows it.
pub proof fn law_a_gap_ends_before_the_next_page(end: usize)
    ensures
        end > 0 ==> gap_end(end) + 1 == end,
        end == 0 ==> gap_end(end) == 0,
{
}

/// A list's function is the one that was given, and nothing but a function is taken.
pub proof fn law_a_list_takes_functions_only(value: ScriptValue, fault: Fault)
    ensures
        function_of(value, fault) matches Ok(function) ==> value == ScriptValue::Function(function),
        value is Function <==> function_of(value, fault) is Ok,
        function_of(value, fault) matches Err(found) ==> found == fault,
{
}

} // verus!
