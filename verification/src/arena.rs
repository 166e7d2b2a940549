//! The elements that a script describes, before they are turned into native ones.
use crate::argument::BridgedList;
use crate::argument::Bridged;
use crate::error::Fault;
use crate::error::ScriptError;
use crate::error;
use crate::text;
use vstd::prelude::*;
use vstd::string::*;

verus! {

/// The direction in which something is laid out.
#[derive(Clone, Copy, PartialEq, Eq, Structural, Debug)]
pub enum Axis {
    Horizontal,
    Vertical,
}

/// The markup of a text view.
#[derive(Clone, Copy, PartialEq, Eq, Structural, Debug)]
pub enum TextViewFormat {
    Html,
    Markdown,
}

/// How a list measures its items.
#[derive(Clone, Copy, PartialEq, Eq, Structural, Debug)]
pub enum ListKind {
    Measured,
    Uniform,
}

/// The size of an item, as the bits of two singles.
#[derive(Clone, Copy, PartialEq, Eq, Structural, Debug)]
pub struct ItemSize {
    pub width: u32,
    pub height: u32,
}

/// What fills a path. Colors are texts; the other values are the bits of singles.
pub enum BackgroundKind<S> {
    Solid { color: S },
    LinearGradient { angle: u32, from: S, from_at: u32, to: S, to_at: u32, color_space: S },
    PatternSlash { color: S, width: u32, interval: u32 },
    Checkerboard { color: S, size: u32 },
}

/// What an element is. `S` is `String` in running code and a sequence of characters in statements;
/// `V` is a vector or a sequence of item sizes.
pub enum Component<S, V> {
    Div,
    HFlex,
    VFlex,
    AccordionItem,
    AccordionHeader,
    AccordionPanel,
    Avatar,
    AvatarFallback,
    ProgressTrack,
    ProgressIndicator,
    FpsMonitor,
    ResizablePanel,
    Collapsible,
    Text(S),
    Svg(S),
    Image(S),
    Accordion(S),
    AccordionTrigger(S),
    Pagination(S),
    AvatarImage(S),
    Button(S),
    Link(S),
    Checkbox(S),
    Switch(S),
    Scrollbar(S),
    Tabs(S),
    Tab(S),
    Progress(S),
    Radio(S),
    Toggle(S),
    RadioGroup(S),
    ToggleGroup(S),
    Table(S),
    TableHeader(S),
    TableBody(S),
    TableCaption(S),
    Popover(S),
    HoverCard(S),
    Popup(S),
    Select(S),
    Combobox(S),
    TableRow(S, usize),
    TableHead(S, usize),
    TableCell(S, usize),
    Resizable(S, Axis),
    TextView { id: S, text: S, format: TextViewFormat },
    Path { fill: bool, background: BackgroundKind<S>, opacity: u32, stroke_width: u32 },
    DatePicker(S, u64),
    VirtualList { id: S, axis: Axis, sizes: V, get_key: u64, render: u64 },
    List { id: S, kind: ListKind, count: usize, get_key: u64, render: u64 },
    /// A component that a host module offers.
    Module { module: S, component: S, id: S, props: u64, policy: u64 },
    /// A component of the registered catalog.
    Registered { component_id: u64, name: S, payload: u64 },
    /// A retained view, by its handle.
    ChildView(u64),
}

/// A background with its strings replaced by their characters.
pub open spec fn background_view(background: BackgroundKind<String>) -> BackgroundKind<Seq<char>> {
    match background {
        BackgroundKind::Solid { color } => BackgroundKind::Solid { color: color@ },
        BackgroundKind::LinearGradient { angle, from, from_at, to, to_at, color_space } => {
            BackgroundKind::LinearGradient {
                angle,
                from: from@,
                from_at,
                to: to@,
                to_at,
                color_space: color_space@,
            }
        },
        BackgroundKind::PatternSlash { color, width, interval } => BackgroundKind::PatternSlash {
            color: color@,
            width,
            interval,
        },
        BackgroundKind::Checkerboard { color, size } => BackgroundKind::Checkerboard {
            color: color@,
            size,
        },
    }
}

/// A component with its strings and vectors replaced by sequences.
pub open spec fn component_view(component: Component<String, Vec<ItemSize>>) -> Component<
    Seq<char>,
    Seq<ItemSize>,
> {
    match component {
        Component::Div => Component::Div,
        Component::HFlex => Component::HFlex,
        Component::VFlex => Component::VFlex,
        Component::AccordionItem => Component::AccordionItem,
        Component::AccordionHeader => Component::AccordionHeader,
        Component::AccordionPanel => Component::AccordionPanel,
        Component::Avatar => Component::Avatar,
        Component::AvatarFallback => Component::AvatarFallback,
        Component::ProgressTrack => Component::ProgressTrack,
        Component::ProgressIndicator => Component::ProgressIndicator,
        Component::FpsMonitor => Component::FpsMonitor,
        Component::ResizablePanel => Component::ResizablePanel,
        Component::Collapsible => Component::Collapsible,
        Component::Text(value) => Component::Text(value@),
        Component::Svg(value) => Component::Svg(value@),
        Component::Image(value) => Component::Image(value@),
        Component::Accordion(value) => Component::Accordion(value@),
        Component::AccordionTrigger(value) => Component::AccordionTrigger(value@),
        Component::Pagination(value) => Component::Pagination(value@),
        Component::AvatarImage(value) => Component::AvatarImage(value@),
        Component::Button(value) => Component::Button(value@),
        Component::Link(value) => Component::Link(value@),
        Component::Checkbox(value) => Component::Checkbox(value@),
        Component::Switch(value) => Component::Switch(value@),
        Component::Scrollbar(value) => Component::Scrollbar(value@),
        Component::Tabs(value) => Component::Tabs(value@),
        Component::Tab(value) => Component::Tab(value@),
        Component::Progress(value) => Component::Progress(value@),
        Component::Radio(value) => Component::Radio(value@),
        Component::Toggle(value) => Component::Toggle(value@),
        Component::RadioGroup(value) => Component::RadioGroup(value@),
        Component::ToggleGroup(value) => Component::ToggleGroup(value@),
        Component::Table(value) => Component::Table(value@),
        Component::TableHeader(value) => Component::TableHeader(value@),
        Component::TableBody(value) => Component::TableBody(value@),
        Component::TableCaption(value) => Component::TableCaption(value@),
        Component::Popover(value) => Component::Popover(value@),
        Component::HoverCard(value) => Component::HoverCard(value@),
        Component::Popup(value) => Component::Popup(value@),
        Component::Select(value) => Component::Select(value@),
        Component::Combobox(value) => Component::Combobox(value@),
        Component::TableRow(value, index) => Component::TableRow(value@, index),
        Component::TableHead(value, index) => Component::TableHead(value@, index),
        Component::TableCell(value, index) => Component::TableCell(value@, index),
        Component::Resizable(value, axis) => Component::Resizable(value@, axis),
        Component::TextView { id, text, format } => Component::TextView {
            id: id@,
            text: text@,
            format,
        },
        Component::Path { fill, background, opacity, stroke_width } => Component::Path {
            fill,
            background: background_view(background),
            opacity,
            stroke_width,
        },
        Component::DatePicker(id, handle) => Component::DatePicker(id@, handle),
        Component::VirtualList { id, axis, sizes, get_key, render } => Component::VirtualList {
            id: id@,
            axis,
            sizes: sizes@,
            get_key,
            render,
        },
        Component::List { id, kind, count, get_key, render } => Component::List {
            id: id@,
            kind,
            count,
            get_key,
            render,
        },
        Component::Module { module, component, id, props, policy } => Component::Module {
            module: module@,
            component: component@,
            id: id@,
            props,
            policy,
        },
        Component::Registered { component_id, name, payload } => Component::Registered {
            component_id,
            name: name@,
            payload,
        },
        Component::ChildView(handle) => Component::ChildView(handle),
    }
}

/// What a constructor without arguments makes.
pub open spec fn plain_component(global: Seq<char>) -> Option<Component<Seq<char>, Seq<ItemSize>>> {
    if global == "__div"@ {
        Some(Component::Div)
    } else if global == "__h_flex"@ {
        Some(Component::HFlex)
    } else if global == "__v_flex"@ {
        Some(Component::VFlex)
    } else if global == "__accordion_item"@ {
        Some(Component::AccordionItem)
    } else if global == "__accordion_header"@ {
        Some(Component::AccordionHeader)
    } else if global == "__accordion_panel"@ {
        Some(Component::AccordionPanel)
    } else if global == "__avatar"@ {
        Some(Component::Avatar)
    } else if global == "__avatar_fallback"@ {
        Some(Component::AvatarFallback)
    } else if global == "__progress_track"@ {
        Some(Component::ProgressTrack)
    } else if global == "__progress_indicator"@ {
        Some(Component::ProgressIndicator)
    } else if global == "__fps_monitor"@ {
        Some(Component::FpsMonitor)
    } else if global == "__resizable_panel"@ {
        Some(Component::ResizablePanel)
    } else if global == "__collapsible"@ {
        Some(Component::Collapsible)
    } else {
        None
    }
}

/// What a constructor with one text makes.
pub open spec fn text_component(global: Seq<char>, value: Seq<char>) -> Option<
    Component<Seq<char>, Seq<ItemSize>>,
> {
    if global == "__text"@ {
        Some(Component::Text(value))
    } else if global == "__svg"@ {
        Some(Component::Svg(value))
    } else if global == "__image"@ {
        Some(Component::Image(value))
    } else if global == "__accordion"@ {
        Some(Component::Accordion(value))
    } else if global == "__accordion_trigger"@ {
        Some(Component::AccordionTrigger(value))
    } else if global == "__pagination"@ {
        Some(Component::Pagination(value))
    } else if global == "__avatar_image"@ {
        Some(Component::AvatarImage(value))
    } else if global == "__button"@ {
        Some(Component::Button(value))
    } else if global == "__link"@ {
        Some(Component::Link(value))
    } else if global == "__checkbox"@ {
        Some(Component::Checkbox(value))
    } else if global == "__switch"@ {
        Some(Component::Switch(value))
    } else if global == "__scrollbar"@ {
        Some(Component::Scrollbar(value))
    } else if global == "__tabs"@ {
        Some(Component::Tabs(value))
    } else if global == "__tab"@ {
        Some(Component::Tab(value))
    } else if global == "__progress"@ {
        Some(Component::Progress(value))
    } else if global == "__radio"@ {
        Some(Component::Radio(value))
    } else if global == "__toggle"@ {
        Some(Component::Toggle(value))
    } else if global == "__radio_group"@ {
        Some(Component::RadioGroup(value))
    } else if global == "__toggle_group"@ {
        Some(Component::ToggleGroup(value))
    } else if global == "__table"@ {
        Some(Component::Table(value))
    } else if global == "__table_header"@ {
        Some(Component::TableHeader(value))
    } else if global == "__table_body"@ {
        Some(Component::TableBody(value))
    } else if global == "__table_caption"@ {
        Some(Component::TableCaption(value))
    } else if global == "__h_resizable"@ {
        Some(Component::Resizable(value, Axis::Horizontal))
    } else if global == "__v_resizable"@ {
        Some(Component::Resizable(value, Axis::Vertical))
    } else if global == "__popover"@ {
        Some(Component::Popover(value))
    } else if global == "__hover_card"@ {
        Some(Component::HoverCard(value))
    } else if global == "__popup"@ {
        Some(Component::Popup(value))
    } else if global == "__select"@ {
        Some(Component::Select(value))
    } else if global == "__combobox"@ {
        Some(Component::Combobox(value))
    } else {
        None
    }
}

/// What a constructor with a text and a one-based index makes.
pub open spec fn indexed_component(global: Seq<char>, value: Seq<char>, index: usize) -> Option<
    Component<Seq<char>, Seq<ItemSize>>,
> {
    if global == "__table_row"@ {
        Some(Component::TableRow(value, index))
    } else if global == "__table_head"@ {
        Some(Component::TableHead(value, index))
    } else if global == "__table_cell"@ {
        Some(Component::TableCell(value, index))
    } else {
        None
    }
}

/// The view of what a constructor makes.
pub open spec fn made_view(made: Option<Component<String, Vec<ItemSize>>>) -> Option<
    Component<Seq<char>, Seq<ItemSize>>,
> {
    match made {
        Some(component) => Some(component_view(component)),
        None => None,
    }
}

/// What a constructor without arguments makes.
pub fn constructor(global: &str) -> (r: Option<Component<String, Vec<ItemSize>>>)
    ensures
        made_view(r) == plain_component(global@),
{
    if text::same(global, "__div") {
        Some(Component::Div)
    } else if text::same(global, "__h_flex") {
        Some(Component::HFlex)
    } else if text::same(global, "__v_flex") {
        Some(Component::VFlex)
    } else if text::same(global, "__accordion_item") {
        Some(Component::AccordionItem)
    } else if text::same(global, "__accordion_header") {
        Some(Component::AccordionHeader)
    } else if text::same(global, "__accordion_panel") {
        Some(Component::AccordionPanel)
    } else if text::same(global, "__avatar") {
        Some(Component::Avatar)
    } else if text::same(global, "__avatar_fallback") {
        Some(Component::AvatarFallback)
    } else if text::same(global, "__progress_track") {
        Some(Component::ProgressTrack)
    } else if text::same(global, "__progress_indicator") {
        Some(Component::ProgressIndicator)
    } else if text::same(global, "__fps_monitor") {
        Some(Component::FpsMonitor)
    } else if text::same(global, "__resizable_panel") {
        Some(Component::ResizablePanel)
    } else if text::same(global, "__collapsible") {
        Some(Component::Collapsible)
    } else {
        None
    }
}

/// What a constructor with one text makes.
pub fn text_constructor(global: &str, value: String) -> (r: Option<Component<String, Vec<ItemSize>>>)
    ensures
        made_view(r) == text_component(global@, value@),
{
    if text::same(global, "__text") {
        Some(Component::Text(value))
    } else if text::same(global, "__svg") {
        Some(Component::Svg(value))
    } else if text::same(global, "__image") {
        Some(Component::Image(value))
    } else if text::same(global, "__accordion") {
        Some(Component::Accordion(value))
    } else if text::same(global, "__accordion_trigger") {
        Some(Component::AccordionTrigger(value))
    } else if text::same(global, "__pagination") {
        Some(Component::Pagination(value))
    } else if text::same(global, "__avatar_image") {
        Some(Component::AvatarImage(value))
    } else if text::same(global, "__button") {
        Some(Component::Button(value))
    } else if text::same(global, "__link") {
        Some(Component::Link(value))
    } else if text::same(global, "__checkbox") {
        Some(Component::Checkbox(value))
    } else if text::same(global, "__switch") {
        Some(Component::Switch(value))
    } else if text::same(global, "__scrollbar") {
        Some(Component::Scrollbar(value))
    } else if text::same(global, "__tabs") {
        Some(Component::Tabs(value))
    } else if text::same(global, "__tab") {
        Some(Component::Tab(value))
    } else if text::same(global, "__progress") {
        Some(Component::Progress(value))
    } else if text::same(global, "__radio") {
        Some(Component::Radio(value))
    } else if text::same(global, "__toggle") {
        Some(Component::Toggle(value))
    } else if text::same(global, "__radio_group") {
        Some(Component::RadioGroup(value))
    } else if text::same(global, "__toggle_group") {
        Some(Component::ToggleGroup(value))
    } else if text::same(global, "__table") {
        Some(Component::Table(value))
    } else if text::same(global, "__table_header") {
        Some(Component::TableHeader(value))
    } else if text::same(global, "__table_body") {
        Some(Component::TableBody(value))
    } else if text::same(global, "__table_caption") {
        Some(Component::TableCaption(value))
    } else if text::same(global, "__h_resizable") {
        Some(Component::Resizable(value, Axis::Horizontal))
    } else if text::same(global, "__v_resizable") {
        Some(Component::Resizable(value, Axis::Vertical))
    } else if text::same(global, "__popover") {
        Some(Component::Popover(value))
    } else if text::same(global, "__hover_card") {
        Some(Component::HoverCard(value))
    } else if text::same(global, "__popup") {
        Some(Component::Popup(value))
    } else if text::same(global, "__select") {
        Some(Component::Select(value))
    } else if text::same(global, "__combobox") {
        Some(Component::Combobox(value))
    } else {
        None
    }
}

/// What a constructor with a text and a one-based index makes.
pub fn indexed_constructor(global: &str, value: String, index: usize) -> (r: Option<
    Component<String, Vec<ItemSize>>,
>)
    ensures
        made_view(r) == indexed_component(global@, value@, index),
{
    if text::same(global, "__table_row") {
        Some(Component::TableRow(value, index))
    } else if text::same(global, "__table_head") {
        Some(Component::TableHead(value, index))
    } else if text::same(global, "__table_cell") {
        Some(Component::TableCell(value, index))
    } else {
        None
    }
}

/// What is recorded on an element. `L` is a list or a sequence of values.
pub enum SpecOp<S, L> {
    /// A property, with its values.
    Method(S, L),
    /// A style with its argument.
    ParamStyle(S, L),
    /// A style without arguments, by its index.
    NullaryStyle(u16),
    /// A function to call, by its number.
    Callback(S, u64),
    /// A function to call for an action of the script's own.
    ActionCallback(S, u64),
    /// The declarations of a state style, collected on an element of their own.
    StateStyle(S, u32),
    /// An element shown in a named place.
    Slot(S, u32),
    /// An element among the children.
    Child(u32),
    /// A method of a registered component, with what it recorded.
    RegisteredMethod(S, u64),
}

/// What is recorded, with its strings and lists replaced by sequences.
pub open spec fn op_view(op: SpecOp<String, BridgedList>) -> SpecOp<
    Seq<char>,
    Seq<Bridged<Seq<char>>>,
> {
    match op {
        SpecOp::Method(name, values) => SpecOp::Method(name@, values.model()),
        SpecOp::ParamStyle(name, values) => SpecOp::ParamStyle(name@, values.model()),
        SpecOp::NullaryStyle(index) => SpecOp::NullaryStyle(index),
        SpecOp::Callback(name, callback) => SpecOp::Callback(name@, callback),
        SpecOp::ActionCallback(action, callback) => SpecOp::ActionCallback(action@, callback),
        SpecOp::StateStyle(name, node) => SpecOp::StateStyle(name@, node),
        SpecOp::Slot(name, element) => SpecOp::Slot(name@, element),
        SpecOp::Child(child) => SpecOp::Child(child),
        SpecOp::RegisteredMethod(name, payload) => SpecOp::RegisteredMethod(name@, payload),
    }
}

/// An element: what it is, whether it has its place, and what is recorded on it.
pub struct SpecNode {
    pub component: Component<String, Vec<ItemSize>>,
    pub claimed: bool,
    pub ops: Vec<SpecOp<String, BridgedList>>,
}

/// An element, with sequences in place of strings and vectors.
#[verifier::ext_equal]
pub struct NodeModel {
    pub component: Component<Seq<char>, Seq<ItemSize>>,
    pub claimed: bool,
    pub ops: Seq<SpecOp<Seq<char>, Seq<Bridged<Seq<char>>>>>,
}

/// What is recorded on an element, first to last.
pub open spec fn op_views(ops: Seq<SpecOp<String, BridgedList>>) -> Seq<
    SpecOp<Seq<char>, Seq<Bridged<Seq<char>>>>,
> {
    ops.map_values(|op: SpecOp<String, BridgedList>| op_view(op))
}

/// An element as a statement speaks of it.
pub open spec fn node_view(node: SpecNode) -> NodeModel {
    NodeModel {
        component: component_view(node.component),
        claimed: node.claimed,
        ops: op_views(node.ops@),
    }
}

/// The elements of a description, by their numbers, and how many list items they stand for.
#[verifier::ext_equal]
pub struct ArenaModel {
    pub nodes: Seq<NodeModel>,
    pub virtual_items: nat,
}

/// The elements of a description.
pub struct SpecArena {
    nodes: Vec<SpecNode>,
    virtual_items: usize,
}

impl View for SpecArena {
    type V = ArenaModel;

    closed spec fn view(&self) -> ArenaModel {
        ArenaModel {
            nodes: self.nodes@.map_values(|node: SpecNode| node_view(node)),
            virtual_items: self.virtual_items as nat,
        }
    }
}

/// The description without elements.
pub open spec fn empty_arena() -> ArenaModel {
    ArenaModel { nodes: Seq::empty(), virtual_items: 0 }
}

/// The state with one more element.
pub open spec fn pushed(m: ArenaModel, component: Component<Seq<char>, Seq<ItemSize>>) -> ArenaModel {
    ArenaModel {
        nodes: m.nodes.push(NodeModel { component, claimed: false, ops: Seq::empty() }),
        ..m
    }
}

/// What a check that an element exists answers.
pub open spec fn exists_check(m: ArenaModel, id: u32) -> Result<(), ScriptError<Seq<char>>> {
    if id < m.nodes.len() {
        Ok(())
    } else {
        Err(ScriptError::UnknownElement { id: id as u64 })
    }
}

/// Why an element cannot be given a place, if it cannot.
pub open spec fn claim_error(m: ArenaModel, id: u32) -> Option<ScriptError<Seq<char>>> {
    if id >= m.nodes.len() {
        Some(ScriptError::UnknownElement { id: id as u64 })
    } else if m.nodes[id as int].claimed {
        Some(ScriptError::ClaimedElement { id: id as u64 })
    } else {
        None
    }
}

/// The state with an element given its place.
pub open spec fn placed(m: ArenaModel, id: u32) -> ArenaModel {
    ArenaModel {
        nodes: m.nodes.update(
            id as int,
            NodeModel { claimed: true, ..m.nodes[id as int] },
        ),
        ..m
    }
}

/// What giving an element its place does and answers.
pub open spec fn claim(m: ArenaModel, id: u32) -> (ArenaModel, Result<(), ScriptError<Seq<char>>>) {
    match claim_error(m, id) {
        Some(error) => (m, Err(error)),
        None => (placed(m, id), Ok(())),
    }
}

/// What recording on an element does and answers.
pub open spec fn record(
    m: ArenaModel,
    id: u32,
    op: SpecOp<Seq<char>, Seq<Bridged<Seq<char>>>>,
) -> (ArenaModel, Result<(), ScriptError<Seq<char>>>) {
    if id >= m.nodes.len() {
        (m, Err(ScriptError::UnknownElement { id: id as u64 }))
    } else {
        let node = m.nodes[id as int];
        (
            ArenaModel {
                nodes: m.nodes.update(id as int, NodeModel { ops: node.ops.push(op), ..node }),
                ..m
            },
            Ok(()),
        )
    }
}

/// What putting one element among another's children does and answers: the child gets its place,
/// unless it has one, and is recorded on its parent.
pub open spec fn attached(m: ArenaModel, id: u32, child: u32) -> (
    ArenaModel,
    Result<(), ScriptError<Seq<char>>>,
) {
    if id >= m.nodes.len() {
        (m, Err(ScriptError::UnknownElement { id: id as u64 }))
    } else {
        match claim_error(m, child) {
            Some(error) => (m, Err(error)),
            None => record(placed(m, child), id, SpecOp::Child(child)),
        }
    }
}

impl SpecArena {
    /// No elements.
    pub fn new() -> (r: Self)
        ensures
            r@ == empty_arena(),
    {
        let arena = SpecArena { nodes: Vec::new(), virtual_items: 0 };
        assert(arena@.nodes =~= Seq::empty());
        arena
    }

    /// Drops all elements.
    pub fn reset(&mut self)
        ensures
            final(self)@ == empty_arena(),
    {
        self.nodes = Vec::new();
        self.virtual_items = 0;
        assert(self@.nodes =~= Seq::empty());
    }

    /// How many elements there are.
    pub fn len(&self) -> (r: usize)
        ensures
            r == self@.nodes.len(),
    {
        self.nodes.len()
    }

    /// Adds an element; gives its number.
    pub fn push(&mut self, component: Component<String, Vec<ItemSize>>) -> (r: u32)
        requires
            old(self)@.nodes.len() < u32::MAX,
        ensures
            r == old(self)@.nodes.len(),
            final(self)@ == pushed(old(self)@, component_view(component)),
    {
        let id: u32 = self.nodes.len() as u32;
        let node = SpecNode { component, claimed: false, ops: Vec::new() };
        assert(node_view(node).ops =~= Seq::empty());
        self.nodes.push(node);
        assert(self@.nodes =~= pushed(old(self)@, component_view(component)).nodes);
        id
    }

    /// The element with a number.
    pub fn node(&self, id: u32) -> (r: Option<&SpecNode>)
        ensures
            match r {
                Some(node) => id < self@.nodes.len() && node_view(*node) == self@.nodes[id as int],
                None => id >= self@.nodes.len(),
            },
    {
        if (id as usize) < self.nodes.len() {
            Some(&self.nodes[id as usize])
        } else {
            None
        }
    }

    /// Fails unless an element exists.
    pub fn check_live(&self, id: u32) -> (r: Result<(), ScriptError<String>>)
        ensures
            error::outcome_view(r) == exists_check(self@, id),
    {
        match self.node(id) {
            Some(_) => Ok(()),
            None => Err(ScriptError::UnknownElement { id: id as u64 }),
        }
    }

    /// Fails unless an element can be given its place.
    pub fn ensure_claimable(&self, id: u32) -> (r: Result<(), ScriptError<String>>)
        ensures
            error::outcome_view(r) == match claim_error(self@, id) {
                Some(error) => Err(error),
                None => Ok(()),
            },
    {
        match self.node(id) {
            None => Err(ScriptError::UnknownElement { id: id as u64 }),
            Some(node) => if node.claimed {
                Err(ScriptError::ClaimedElement { id: id as u64 })
            } else {
                Ok(())
            },
        }
    }

    /// Gives an element its place. It can have one only.
    pub fn claim(&mut self, id: u32) -> (r: Result<(), ScriptError<String>>)
        ensures
            (final(self)@, error::outcome_view(r)) == claim(old(self)@, id),
    {
        match self.ensure_claimable(id) {
            Err(error) => Err(error),
            Ok(()) => {
                let at: usize = id as usize;
                self.nodes[at].claimed = true;
                assert(self@.nodes =~= placed(old(self)@, id).nodes);
                Ok(())
            },
        }
    }

    /// Records something on an element.
    pub fn push_op(&mut self, id: u32, op: SpecOp<String, BridgedList>) -> (r: Result<
        (),
        ScriptError<String>,
    >)
        ensures
            (final(self)@, error::outcome_view(r)) == record(old(self)@, id, op_view(op)),
    {
        if id as usize >= self.nodes.len() {
            return Err(ScriptError::UnknownElement { id: id as u64 });
        }
        let at: usize = id as usize;
        let ghost before = self.nodes@[at as int];
        let ghost added = op_view(op);
        self.nodes[at].ops.push(op);
        assert(node_view(self.nodes@[at as int]).ops =~= node_view(before).ops.push(added));
        assert(self@.nodes =~= record(old(self)@, id, added).0.nodes);
        Ok(())
    }

    /// Puts one element among another's children.
    pub fn attach_child(&mut self, id: u32, child: u32) -> (r: Result<(), ScriptError<String>>)
        ensures
            (final(self)@, error::outcome_view(r)) == attached(old(self)@, id, child),
    {
        if id as usize >= self.nodes.len() {
            return Err(ScriptError::UnknownElement { id: id as u64 });
        }
        match self.claim(child) {
            Err(error) => Err(error),
            Ok(()) => self.push_op(id, SpecOp::Child(child)),
        }
    }

    /// Counts list items against a limit; tells whether they still fit.
    pub fn claim_virtual_items(&mut self, count: usize, limit: usize) -> (r: bool)
        ensures
            r == (old(self)@.virtual_items + count <= limit),
            final(self)@ == (ArenaModel {
                virtual_items: if r {
                    old(self)@.virtual_items + count as nat
                } else {
                    old(self)@.virtual_items
                },
                ..old(self)@
            }),
    {
        match self.virtual_items.checked_add(count) {
            Some(total) => if total <= limit {
                self.virtual_items = total;
                assert(self@.nodes =~= old(self)@.nodes);
                true
            } else {
                false
            },
            None => false,
        }
    }
}

/// A description that is set aside while another is made in its place.
pub struct TemporarySpecArena {
    outer: SpecArena,
}

impl TemporarySpecArena {
    /// The description that is set aside.
    pub closed spec fn outer(&self) -> ArenaModel {
        self.outer@
    }

    /// Sets a description aside and begins an empty one.
    pub fn enter(current: &mut SpecArena) -> (r: Self)
        ensures
            r.outer() == old(current)@,
            final(current)@ == empty_arena(),
    {
        let mut outer = SpecArena::new();
        std::mem::swap(&mut outer, current);
        TemporarySpecArena { outer }
    }

    /// Brings the description back that was set aside; gives the one that was made meanwhile.
    pub fn finish(self, current: &mut SpecArena) -> (r: SpecArena)
        ensures
            r@ == old(current)@,
            final(current)@ == self.outer(),
    {
        let mut generated = self.outer;
        std::mem::swap(&mut generated, current);
        generated
    }
}

/// An element is shown in one place at most: what has its place cannot be given another, and trying
/// to changes nothing.
pub proof fn law_an_element_has_one_place(m: ArenaModel, id: u32, parent: u32)
    requires
        claim(m, id).1 is Ok,
        parent < m.nodes.len(),
    ensures
        ({
            let after = claim(m, id).0;
            &&& claim(after, id) == (
                after,
                Err::<(), ScriptError<Seq<char>>>(ScriptError::ClaimedElement { id: id as u64 }),
            )
            &&& attached(after, parent, id) == (
                after,
                Err::<(), ScriptError<Seq<char>>>(ScriptError::ClaimedElement { id: id as u64 }),
            )
        }),
{
}

/// Recording on one element leaves all others as they are, and giving an element its place leaves
/// what is recorded on it.
pub proof fn law_recording_touches_one_element(
    m: ArenaModel,
    id: u32,
    other: int,
    op: SpecOp<Seq<char>, Seq<Bridged<Seq<char>>>>,
)
    requires
        id < m.nodes.len(),
        0 <= other < m.nodes.len(),
    ensures
        other != id ==> record(m, id, op).0.nodes[other] == m.nodes[other],
        record(m, id, op).0.nodes[id as int].ops == m.nodes[id as int].ops.push(op),
        claim(m, id).0.nodes[other].ops == m.nodes[other].ops,
{
}

/// Each element without arguments is made by the constructor that is named after it, and by no
/// other.
pub proof fn law_a_plain_element_is_made_by_its_own_constructor(global: Seq<char>)
    ensures
        plain_component(global) matches Some(component) ==> match component {
            Component::Div => global == "__div"@,
            Component::HFlex => global == "__h_flex"@,
            Component::VFlex => global == "__v_flex"@,
            Component::AccordionItem => global == "__accordion_item"@,
            Component::AccordionHeader => global == "__accordion_header"@,
            Component::AccordionPanel => global == "__accordion_panel"@,
            Component::Avatar => global == "__avatar"@,
            Component::AvatarFallback => global == "__avatar_fallback"@,
            Component::ProgressTrack => global == "__progress_track"@,
            Component::ProgressIndicator => global == "__progress_indicator"@,
            Component::FpsMonitor => global == "__fps_monitor"@,
            Component::ResizablePanel => global == "__resizable_panel"@,
            Component::Collapsible => global == "__collapsible"@,
            _ => false,
        },
        plain_component("__div"@) is Some,
        plain_component("__h_flex"@) is Some,
        plain_component("__v_flex"@) is Some,
        plain_component("__accordion_item"@) is Some,
        plain_component("__accordion_header"@) is Some,
        plain_component("__accordion_panel"@) is Some,
        plain_component("__avatar"@) is Some,
        plain_component("__avatar_fallback"@) is Some,
        plain_component("__progress_track"@) is Some,
        plain_component("__progress_indicator"@) is Some,
        plain_component("__fps_monitor"@) is Some,
        plain_component("__resizable_panel"@) is Some,
        plain_component("__collapsible"@) is Some,
{
}

/// Each element that takes a text is made by the constructor that is named after it, by no other,
/// and of the text it was given.
pub proof fn law_a_named_element_is_made_by_its_own_constructor(
    global: Seq<char>,
    value: Seq<char>,
)
    ensures
        text_component(global, value) matches Some(component) ==> match component {
            Component::Text(name) => global == "__text"@ && name == value,
            Component::Svg(name) => global == "__svg"@ && name == value,
            Component::Image(name) => global == "__image"@ && name == value,
            Component::Accordion(name) => global == "__accordion"@ && name == value,
            Component::AccordionTrigger(name) => global == "__accordion_trigger"@ && name == value,
            Component::Pagination(name) => global == "__pagination"@ && name == value,
            Component::AvatarImage(name) => global == "__avatar_image"@ && name == value,
            Component::Button(name) => global == "__button"@ && name == value,
            Component::Link(name) => global == "__link"@ && name == value,
            Component::Checkbox(name) => global == "__checkbox"@ && name == value,
            Component::Switch(name) => global == "__switch"@ && name == value,
            Component::Scrollbar(name) => global == "__scrollbar"@ && name == value,
            Component::Tabs(name) => global == "__tabs"@ && name == value,
            Component::Tab(name) => global == "__tab"@ && name == value,
            Component::Progress(name) => global == "__progress"@ && name == value,
            Component::Radio(name) => global == "__radio"@ && name == value,
            Component::Toggle(name) => global == "__toggle"@ && name == value,
            Component::RadioGroup(name) => global == "__radio_group"@ && name == value,
            Component::ToggleGroup(name) => global == "__toggle_group"@ && name == value,
            Component::Table(name) => global == "__table"@ && name == value,
            Component::TableHeader(name) => global == "__table_header"@ && name == value,
            Component::TableBody(name) => global == "__table_body"@ && name == value,
            Component::TableCaption(name) => global == "__table_caption"@ && name == value,
            Component::Popover(name) => global == "__popover"@ && name == value,
            Component::HoverCard(name) => global == "__hover_card"@ && name == value,
            Component::Popup(name) => global == "__popup"@ && name == value,
            Component::Select(name) => global == "__select"@ && name == value,
            Component::Combobox(name) => global == "__combobox"@ && name == value,
            Component::Resizable(name, Axis::Horizontal) => global == "__h_resizable"@ && name
                == value,
            Component::Resizable(name, Axis::Vertical) => global == "__v_resizable"@ && name == value,
            _ => false,
        },
        text_component("__text"@, value) is Some,
        text_component("__svg"@, value) is Some,
        text_component("__image"@, value) is Some,
        text_component("__accordion"@, value) is Some,
        text_component("__accordion_trigger"@, value) is Some,
        text_component("__pagination"@, value) is Some,
        text_component("__avatar_image"@, value) is Some,
        text_component("__button"@, value) is Some,
        text_component("__link"@, value) is Some,
        text_component("__checkbox"@, value) is Some,
        text_component("__switch"@, value) is Some,
        text_component("__scrollbar"@, value) is Some,
        text_component("__tabs"@, value) is Some,
        text_component("__tab"@, value) is Some,
        text_component("__progress"@, value) is Some,
        text_component("__radio"@, value) is Some,
        text_component("__toggle"@, value) is Some,
        text_component("__radio_group"@, value) is Some,
        text_component("__toggle_group"@, value) is Some,
        text_component("__table"@, value) is Some,
        text_component("__table_header"@, value) is Some,
        text_component("__table_body"@, value) is Some,
        text_component("__table_caption"@, value) is Some,
        text_component("__popover"@, value) is Some,
        text_component("__hover_card"@, value) is Some,
        text_component("__popup"@, value) is Some,
        text_component("__select"@, value) is Some,
        text_component("__combobox"@, value) is Some,
        text_component("__h_resizable"@, value) is Some,
        text_component("__v_resizable"@, value) is Some,
{
}

/// Each part of a table that takes a place is made by the constructor that is named after it, by no
/// other, and of the text and the place it was given.
pub proof fn law_a_table_part_is_made_by_its_own_constructor(
    global: Seq<char>,
    value: Seq<char>,
    index: usize,
)
    ensures
        indexed_component(global, value, index) matches Some(component) ==> match component {
            Component::TableRow(name, at) => global == "__table_row"@ && name == value && at == index,
            Component::TableHead(name, at) => global == "__table_head"@ && name == value && at == index,
            Component::TableCell(name, at) => global == "__table_cell"@ && name == value && at == index,
            _ => false,
        },
        indexed_component("__table_row"@, value, index) is Some,
        indexed_component("__table_head"@, value, index) is Some,
        indexed_component("__table_cell"@, value, index) is Some,
{
}

/// A new element is the last one, is what was asked for, has no place and nothing recorded on it;
/// all others stay as they are.
pub proof fn law_a_new_element_comes_last(
    m: ArenaModel,
    component: Component<Seq<char>, Seq<ItemSize>>,
)
    ensures
        ({
            let after = pushed(m, component);
            &&& after.nodes.len() == m.nodes.len() + 1
            &&& forall|i: int|
                0 <= i < m.nodes.len() ==> #[trigger] after.nodes[i] == m.nodes[i]
            &&& after.nodes.last().component == component
            &&& !after.nodes.last().claimed
            &&& after.nodes.last().ops.len() == 0
            &&& after.virtual_items == m.virtual_items
        }),
{
}

/// An element is put among another's children where both exist and it has no place yet. It then has
/// one, it is the last thing recorded on its parent, and nothing else changes: no element becomes
/// another, loses its place or what was recorded on it before.
pub proof fn law_a_child_is_put_in_one_place(m: ArenaModel, parent: u32, child: u32)
    ensures
        ({
            let (after, answer) = attached(m, parent, child);
            &&& answer is Ok <==> parent < m.nodes.len() && child < m.nodes.len()
                && !m.nodes[child as int].claimed
            &&& answer is Err ==> after == m
            &&& answer is Ok ==> {
                &&& after.nodes.len() == m.nodes.len()
                &&& after.virtual_items == m.virtual_items
                &&& after.nodes[child as int].claimed
                &&& after.nodes[parent as int].ops == m.nodes[parent as int].ops.push(
                    SpecOp::Child(child),
                )
                &&& forall|i: int|
                    0 <= i < m.nodes.len() ==> (#[trigger] after.nodes[i]).component
                        == m.nodes[i].component
                &&& forall|i: int|
                    0 <= i < m.nodes.len() && i != child ==> (#[trigger] after.nodes[i]).claimed
                        == m.nodes[i].claimed
                &&& forall|i: int|
                    0 <= i < m.nodes.len() && i != parent ==> (#[trigger] after.nodes[i]).ops
                        == m.nodes[i].ops
            }
            &&& answer matches Err(error) ==> error == (if parent >= m.nodes.len() {
                ScriptError::<Seq<char>>::UnknownElement { id: parent as u64 }
            } else if child >= m.nodes.len() {
                ScriptError::<Seq<char>>::UnknownElement { id: child as u64 }
            } else {
                ScriptError::<Seq<char>>::ClaimedElement { id: child as u64 }
            })
        }),
{
}

/// Giving an element its place and recording on one succeed where the element exists and, for a
/// place, has none yet; they change that element alone and in that one respect.
pub proof fn law_an_element_is_changed_in_one_respect(
    m: ArenaModel,
    id: u32,
    op: SpecOp<Seq<char>, Seq<Bridged<Seq<char>>>>,
)
    ensures
        claim(m, id).1 is Ok <==> id < m.nodes.len() && !m.nodes[id as int].claimed,
        claim(m, id).1 is Err ==> claim(m, id).0 == m,
        claim(m, id).1 is Ok ==> {
            let after = claim(m, id).0;
            &&& after.nodes.len() == m.nodes.len()
            &&& after.virtual_items == m.virtual_items
            &&& after.nodes[id as int].claimed
            &&& forall|i: int|
                0 <= i < m.nodes.len() ==> (#[trigger] after.nodes[i]).component
                    == m.nodes[i].component && after.nodes[i].ops == m.nodes[i].ops && (i != id
                    ==> after.nodes[i] == m.nodes[i])
        },
        record(m, id, op).1 is Ok <==> id < m.nodes.len(),
        record(m, id, op).1 is Err ==> record(m, id, op).0 == m,
        record(m, id, op).1 is Ok ==> {
            let after = record(m, id, op).0;
            &&& after.nodes.len() == m.nodes.len()
            &&& after.virtual_items == m.virtual_items
            &&& after.nodes[id as int].ops.drop_last() == m.nodes[id as int].ops
            &&& after.nodes[id as int].ops.last() == op
            &&& forall|i: int|
                0 <= i < m.nodes.len() ==> (#[trigger] after.nodes[i]).component
                    == m.nodes[i].component && after.nodes[i].claimed == m.nodes[i].claimed && (i
                    != id ==> after.nodes[i] == m.nodes[i])
        },
        exists_check(m, id) is Ok <==> id < m.nodes.len(),
{
    if id < m.nodes.len() {
        assert(record(m, id, op).0.nodes[id as int].ops.drop_last() =~= m.nodes[id as int].ops);
    }
}

} // verus!
