//! What can go wrong, with the exact text a script author or an embedder is shown.
use crate::text;
use vstd::prelude::*;
use vstd::string::*;

verus! {

/// How an error reaches its reader: as one of JavaScript's exceptions, or as an error of the
/// embedding application.
#[derive(Clone, Copy, PartialEq, Eq, Structural, Debug)]
pub enum ErrorKind {
    /// A `TypeError`.
    Type,
    /// A `RangeError`.
    Range,
    /// A `ReferenceError`.
    Reference,
    /// An `Error`.
    Message,
    /// An error returned to the embedding application.
    Host,
}

/// Errors whose text is always the same.
#[derive(Clone, Copy, PartialEq, Eq, Structural, Debug)]
pub enum Fault {
    NestedNeedsView,
    NestedClass,
    NestedTokens,
    UpdateReleased,
    NotifyReleased,
    ReleaseReleased,
    MountReleased,
    ShutDown,
    ShutDownCreate,
    ShutDownDock,
    ShutDownUpdate,
    ShutDownNotify,
    ShutDownRelease,
    ForeignCreate,
    ForeignDock,
    ForeignEntity,
    GoneBeforeUpdate,
    GoneBeforeNotify,
    GoneBeforeRelease,
    GoneForUpdate,
    UpdateNotFunction,
    EntityLimit,
    DataDepth,
    DataNodes,
    DataNumber,
    DataBytes,
    DataFunction,
    DataPromise,
    DataPrototype,
    DataSymbol,
    DataKeys,
    DataAccessor,
    DataHandle,
    DataPlain,
    ArgumentList,
    ArgumentDepth,
    ArgumentNodes,
    ArgumentType,
    RenderResult,
    EffectRetired,
    EffectNeedsView,
    StateMutablyBorrowed,
    StateBorrowed,
    StatePhase,
    StateCapacity,
    StateMissing,
    StateKind,
    Pagination,
    CallbackResult,
    NotifyTarget,
    NotifyNeedsView,
    NoAmbientCall,
    ItemArray,
    TextViewFormat,
    ComponentId,
    DatePickerFocus,
    PathWidth,
    PathOpacity,
    PathKind,
    SolidColor,
    GradientAngle,
    GradientFrom,
    GradientFromPercentage,
    GradientTo,
    GradientToPercentage,
    SlashColor,
    SlashWidth,
    SlashInterval,
    CheckerboardColor,
    CheckerboardSize,
    OrphanPanel,
    NestedList,
    ItemSize,
    ItemSizes,
    ItemRenderer,
    ItemKeyResolver,
    StateReadBorrowed,
    StateCreateBorrowed,
    StateNeedsCall,
    ChildElement,
    ActionPhase,
    ActionName,
    ActionHandler,
    ClickDescriptor,
    IdString,
    TooltipString,
    ValueNumber,
    SetPosition,
    SizeRangeMinimum,
    SizeRangeMaximum,
    SizeRangeOrder,
    RoleString,
    RoleFiltered,
    TabIndex,
    HrefString,
    HrefUrl,
    UnknownStyle,
    NoRender,
    NoViewClass,
    ForeignApplication,
    ApplicationMounted,
    RuntimeInstalled,
    PanelNeedsCall,
    StoreExhausted,
    JobQueue,
}

/// The text of a fixed error.
pub open spec fn fault_text(fault: Fault) -> Seq<char> {
    match fault {
        Fault::NestedNeedsView => "cx.new(Class, props) needs a current script view; call it from a view's init(), event handler or task"@,
        Fault::NestedClass => "cx.new(Class, props) expects a View subclass"@,
        Fault::NestedTokens => "the nested Entity token space is exhausted"@,
        Fault::UpdateReleased => "this Entity has been released and can no longer be updated"@,
        Fault::NotifyReleased => "cx.notify(entity) expects a live Entity from the current application"@,
        Fault::ReleaseReleased => "this Entity has been released and can no longer be released"@,
        Fault::MountReleased => "this Entity has been released and can no longer be mounted"@,
        Fault::ShutDown => "the shell runtime has already shut down"@,
        Fault::ShutDownCreate => "the shell runtime shut down during child creation"@,
        Fault::ShutDownDock => "the shell runtime shut down before a dock edit was applied"@,
        Fault::ShutDownUpdate => "the shell runtime shut down during child update"@,
        Fault::ShutDownNotify => "the shell runtime shut down during child notification"@,
        Fault::ShutDownRelease => "the shell runtime shut down during child release"@,
        Fault::ForeignCreate => "this Entity creation does not belong to the current application"@,
        Fault::ForeignDock => "this dock edit does not belong to the current application"@,
        Fault::ForeignEntity => "this Entity does not belong to the current application"@,
        Fault::GoneBeforeUpdate => "this Entity was released before its update"@,
        Fault::GoneBeforeNotify => "this Entity was released before its notification"@,
        Fault::GoneBeforeRelease => "this Entity was released before its release operation"@,
        Fault::GoneForUpdate => "this Entity has been released and cannot be updated"@,
        Fault::UpdateNotFunction => "a nested view's update property must be a function"@,
        Fault::EntityLimit => "the application reached gpui-shell's retained entity limit; release unused handles"@,
        Fault::DataDepth => "component delegate data is nested too deeply"@,
        Fault::DataNodes => "component delegate data contains too many values"@,
        Fault::DataNumber => "component delegate numbers must be finite"@,
        Fault::DataBytes => "component delegate strings exceed the byte limit"@,
        Fault::DataFunction => "component delegate data cannot contain functions"@,
        Fault::DataPromise => "component delegate data cannot contain promises"@,
        Fault::DataPrototype => "component delegate objects must have Object.prototype or null prototype"@,
        Fault::DataSymbol => "component delegate objects cannot contain symbol keys"@,
        Fault::DataKeys => "component delegate objects contain too many keys"@,
        Fault::DataAccessor => "component delegate objects cannot contain accessors"@,
        Fault::DataHandle => "component delegate data cannot contain shell handles or elements"@,
        Fault::DataPlain => "component delegate callbacks may return only plain data"@,
        Fault::ArgumentList => "expected an argument list"@,
        Fault::ArgumentDepth => "component arguments are nested too deeply"@,
        Fault::ArgumentNodes => "component arguments contain too many nested values"@,
        Fault::ArgumentType => "unsupported argument type; expected null, boolean, number, string or function"@,
        Fault::RenderResult => "render(cx) must return an element, an Entity, or a string"@,
        Fault::EffectRetired => "component app effect belongs to a retired application"@,
        Fault::EffectNeedsView => "component app effects require a live root view"@,
        Fault::StateMutablyBorrowed => "retained component state is already mutably borrowed"@,
        Fault::StateBorrowed => "retained component state is already borrowed"@,
        Fault::StatePhase => "retained component state cannot be updated during render or layout"@,
        Fault::StateCapacity => "the application reached the retained component state limit; release unused states"@,
        Fault::StateMissing => "retained component state has been released"@,
        Fault::StateKind => "retained component state has another kind"@,
        Fault::Pagination => "pagination_items(current_page, total_pages, visible_pages?) expects non-negative numbers"@,
        Fault::CallbackResult => "component callbacks may only return null, boolean, finite number, or string"@,
        Fault::NotifyTarget => "cx.notify(entity) expects an Entity"@,
        Fault::NotifyNeedsView => "cx.notify(entity) requires a current script view"@,
        Fault::NoAmbientCall => "this cx has no host call to speak for. An async cx works inside the task that owns it — from a handler the scheduler resumed — not from a bare promise callback or after the task was cancelled."@,
        Fault::ItemArray => "a virtual list's item renderer must return an array of elements, one per                      item in the range it was given"@,
        Fault::TextViewFormat => "TextView format must be html or markdown"@,
        Fault::ComponentId => "a component needs a non-empty string id"@,
        Fault::DatePickerFocus => "the focus handle given to DatePicker.new(id, focus_handle) has been released; a date picker takes the keyboard through that handle, so it needs a live one"@,
        Fault::PathWidth => "path stroke width must be finite and non-negative"@,
        Fault::PathOpacity => "path background opacity must be finite and non-negative"@,
        Fault::PathKind => "unknown Background kind"@,
        Fault::SolidColor => "solid background needs a color"@,
        Fault::GradientAngle => "gradient angle must be finite"@,
        Fault::GradientFrom => "gradient needs a from color"@,
        Fault::GradientFromPercentage => "gradient from percentage must be finite"@,
        Fault::GradientTo => "gradient needs a to color"@,
        Fault::GradientToPercentage => "gradient to percentage must be finite"@,
        Fault::SlashColor => "slash pattern needs a color"@,
        Fault::SlashWidth => "slash pattern width must be finite"@,
        Fault::SlashInterval => "slash pattern interval must be finite"@,
        Fault::CheckerboardColor => "checkerboard needs a color"@,
        Fault::CheckerboardSize => "checkerboard size must be finite"@,
        Fault::OrphanPanel => "resizable_panel() belongs to an h_resizable() or v_resizable(): its size and its drag handle are the group's. Use a div() here instead"@,
        Fault::NestedList => "a list cannot be built from inside another list's item renderer: its own renderer would belong to no render pass and would never be called. Describe the nested list from the view's render() instead"@,
        Fault::ItemSize => "every item size must be a finite, non-negative number of pixels"@,
        Fault::ItemSizes => "item_sizes must be a number or an array of numbers"@,
        Fault::ItemRenderer => "a virtual list needs a render function; it is called with the visible range,                  not once per item"@,
        Fault::ItemKeyResolver => "a virtual list needs get_key(index) to return each item's stable string key"@,
        Fault::StateReadBorrowed => "retained component state is already mutably borrowed"@,
        Fault::StateCreateBorrowed => "retained component state is already borrowed"@,
        Fault::StateNeedsCall => "retained component state can only be created during a live Window/App call"@,
        Fault::ChildElement => "child(element) expects an element"@,
        Fault::ActionPhase => "`on_action` cannot be registered from a virtual list's item renderer: the rows are rebuilt every frame, so a handler registered there would pile up for as long as the view stood"@,
        Fault::ActionName => "on_action(action, handler) expects the action's name first, as a non-empty string"@,
        Fault::ActionHandler => "on_action(action, handler) expects a function second"@,
        Fault::ClickDescriptor => "on_click descriptor must declare exactly one callback argument"@,
        Fault::IdString => "id(name) expects a string; it is the element's stable identity, so it must not change between renders"@,
        Fault::TooltipString => "tooltip(text) expects a string; a tooltip built from an element is not bound yet"@,
        Fault::ValueNumber => "value(percent) expects a number between 0 and 100"@,
        Fault::SetPosition => "set_position(position, size) expects whole finite numbers with 1 <= position <= size"@,
        Fault::SizeRangeMinimum => "size_range minimum does not fit the native pixel range"@,
        Fault::SizeRangeMaximum => "size_range maximum does not fit the native pixel range"@,
        Fault::SizeRangeOrder => "size_range maximum must be greater than or equal to its minimum"@,
        Fault::RoleString => "role(name) expects a string; see the Role type in gpui-kit.d.ts"@,
        Fault::RoleFiltered => "role(\"generic_container\") announces nothing: GPUI filters that role out of the accessibility tree. Leave the role off instead, or name the role the element really has"@,
        Fault::TabIndex => "tab_index(index) expects a whole number"@,
        Fault::HrefString => "href(url) expects a string"@,
        Fault::HrefUrl => "href(url) expects an absolute HTTP(S) URL with a host"@,
        Fault::UnknownStyle => "unknown element method"@,
        Fault::NoRender => "view class has no render(cx) method"@,
        Fault::NoViewClass => "main.js must `export default` a class that extends View"@,
        Fault::ForeignApplication => "loaded application belongs to a different ShellRuntime"@,
        Fault::ApplicationMounted => "loaded application has already been mounted"@,
        Fault::RuntimeInstalled => "a default gpui-shell runtime is already installed; use ShellRuntime::new_isolated() for an additional VM"@,
        Fault::PanelNeedsCall => "DockArea.register_panel(name, Class) needs a live host call; call it from                  init() or an event handler"@,
        Fault::StoreExhausted => "gpui-shell entity store id space is exhausted"@,
        Fault::JobQueue => "the QuickJS job queue exceeded gpui-shell's transactional limit; the script runtime was disabled so pending work cannot cross view authority"@,
    }
}

/// How a fixed error reaches its reader.
pub open spec fn fault_kind(fault: Fault) -> ErrorKind {
    match fault {
        Fault::NestedNeedsView
        | Fault::NestedClass
        | Fault::UpdateReleased
        | Fault::NotifyReleased
        | Fault::ReleaseReleased
        | Fault::MountReleased
        | Fault::UpdateNotFunction
        | Fault::DataNumber
        | Fault::DataFunction
        | Fault::DataPromise
        | Fault::DataPrototype
        | Fault::DataSymbol
        | Fault::DataAccessor
        | Fault::DataHandle
        | Fault::DataPlain
        | Fault::ArgumentList
        | Fault::ArgumentType
        | Fault::RenderResult
        | Fault::Pagination
        | Fault::CallbackResult
        | Fault::NotifyTarget
        | Fault::NotifyNeedsView
        | Fault::NoAmbientCall
        | Fault::ItemArray
        | Fault::TextViewFormat
        | Fault::ComponentId
        | Fault::DatePickerFocus
        | Fault::PathWidth
        | Fault::PathOpacity
        | Fault::PathKind
        | Fault::SolidColor
        | Fault::GradientAngle
        | Fault::GradientFrom
        | Fault::GradientFromPercentage
        | Fault::GradientTo
        | Fault::GradientToPercentage
        | Fault::SlashColor
        | Fault::SlashWidth
        | Fault::SlashInterval
        | Fault::CheckerboardColor
        | Fault::CheckerboardSize
        | Fault::OrphanPanel
        | Fault::NestedList
        | Fault::ItemSize
        | Fault::ItemSizes
        | Fault::ItemRenderer
        | Fault::ItemKeyResolver
        | Fault::StateReadBorrowed
        | Fault::StateCreateBorrowed
        | Fault::StateNeedsCall
        | Fault::ChildElement
        | Fault::ActionPhase
        | Fault::ActionName
        | Fault::ActionHandler
        | Fault::ClickDescriptor
        | Fault::IdString
        | Fault::TooltipString
        | Fault::ValueNumber
        | Fault::SetPosition
        | Fault::RoleString
        | Fault::RoleFiltered
        | Fault::TabIndex
        | Fault::HrefString
        | Fault::HrefUrl
        | Fault::UnknownStyle
        | Fault::PanelNeedsCall => ErrorKind::Type,
        Fault::NestedTokens
        | Fault::DataDepth
        | Fault::DataNodes
        | Fault::DataBytes
        | Fault::DataKeys
        | Fault::ArgumentDepth
        | Fault::ArgumentNodes
        | Fault::StateCapacity
        | Fault::SizeRangeMinimum
        | Fault::SizeRangeMaximum
        | Fault::SizeRangeOrder => ErrorKind::Range,
        Fault::ShutDown
        | Fault::NoRender
        | Fault::NoViewClass => ErrorKind::Message,
        Fault::ShutDownCreate
        | Fault::ShutDownDock
        | Fault::ShutDownUpdate
        | Fault::ShutDownNotify
        | Fault::ShutDownRelease
        | Fault::ForeignCreate
        | Fault::ForeignDock
        | Fault::ForeignEntity
        | Fault::GoneBeforeUpdate
        | Fault::GoneBeforeNotify
        | Fault::GoneBeforeRelease
        | Fault::GoneForUpdate
        | Fault::EntityLimit
        | Fault::EffectRetired
        | Fault::EffectNeedsView
        | Fault::StateMutablyBorrowed
        | Fault::StateBorrowed
        | Fault::StatePhase
        | Fault::StateMissing
        | Fault::StateKind
        | Fault::ForeignApplication
        | Fault::ApplicationMounted
        | Fault::RuntimeInstalled
        | Fault::StoreExhausted
        | Fault::JobQueue => ErrorKind::Host,
    }
}

impl Fault {
    /// The text of the error.
    pub fn message(self) -> (r: &'static str)
        ensures
            r@ == fault_text(self),
    {
        match self {
            Fault::NestedNeedsView => "cx.new(Class, props) needs a current script view; call it from a view's init(), event handler or task",
            Fault::NestedClass => "cx.new(Class, props) expects a View subclass",
            Fault::NestedTokens => "the nested Entity token space is exhausted",
            Fault::UpdateReleased => "this Entity has been released and can no longer be updated",
            Fault::NotifyReleased => "cx.notify(entity) expects a live Entity from the current application",
            Fault::ReleaseReleased => "this Entity has been released and can no longer be released",
            Fault::MountReleased => "this Entity has been released and can no longer be mounted",
            Fault::ShutDown => "the shell runtime has already shut down",
            Fault::ShutDownCreate => "the shell runtime shut down during child creation",
            Fault::ShutDownDock => "the shell runtime shut down before a dock edit was applied",
            Fault::ShutDownUpdate => "the shell runtime shut down during child update",
            Fault::ShutDownNotify => "the shell runtime shut down during child notification",
            Fault::ShutDownRelease => "the shell runtime shut down during child release",
            Fault::ForeignCreate => "this Entity creation does not belong to the current application",
            Fault::ForeignDock => "this dock edit does not belong to the current application",
            Fault::ForeignEntity => "this Entity does not belong to the current application",
            Fault::GoneBeforeUpdate => "this Entity was released before its update",
            Fault::GoneBeforeNotify => "this Entity was released before its notification",
            Fault::GoneBeforeRelease => "this Entity was released before its release operation",
            Fault::GoneForUpdate => "this Entity has been released and cannot be updated",
            Fault::UpdateNotFunction => "a nested view's update property must be a function",
            Fault::EntityLimit => "the application reached gpui-shell's retained entity limit; release unused handles",
            Fault::DataDepth => "component delegate data is nested too deeply",
            Fault::DataNodes => "component delegate data contains too many values",
            Fault::DataNumber => "component delegate numbers must be finite",
            Fault::DataBytes => "component delegate strings exceed the byte limit",
            Fault::DataFunction => "component delegate data cannot contain functions",
            Fault::DataPromise => "component delegate data cannot contain promises",
            Fault::DataPrototype => "component delegate objects must have Object.prototype or null prototype",
            Fault::DataSymbol => "component delegate objects cannot contain symbol keys",
            Fault::DataKeys => "component delegate objects contain too many keys",
            Fault::DataAccessor => "component delegate objects cannot contain accessors",
            Fault::DataHandle => "component delegate data cannot contain shell handles or elements",
            Fault::DataPlain => "component delegate callbacks may return only plain data",
            Fault::ArgumentList => "expected an argument list",
            Fault::ArgumentDepth => "component arguments are nested too deeply",
            Fault::ArgumentNodes => "component arguments contain too many nested values",
            Fault::ArgumentType => "unsupported argument type; expected null, boolean, number, string or function",
            Fault::RenderResult => "render(cx) must return an element, an Entity, or a string",
            Fault::EffectRetired => "component app effect belongs to a retired application",
            Fault::EffectNeedsView => "component app effects require a live root view",
            Fault::StateMutablyBorrowed => "retained component state is already mutably borrowed",
            Fault::StateBorrowed => "retained component state is already borrowed",
            Fault::StatePhase => "retained component state cannot be updated during render or layout",
            Fault::StateCapacity => "the application reached the retained component state limit; release unused states",
            Fault::StateMissing => "retained component state has been released",
            Fault::StateKind => "retained component state has another kind",
            Fault::Pagination => "pagination_items(current_page, total_pages, visible_pages?) expects non-negative numbers",
            Fault::CallbackResult => "component callbacks may only return null, boolean, finite number, or string",
            Fault::NotifyTarget => "cx.notify(entity) expects an Entity",
            Fault::NotifyNeedsView => "cx.notify(entity) requires a current script view",
            Fault::NoAmbientCall => "this cx has no host call to speak for. An async cx works inside the task that owns it — from a handler the scheduler resumed — not from a bare promise callback or after the task was cancelled.",
            Fault::ItemArray => "a virtual list's item renderer must return an array of elements, one per                      item in the range it was given",
            Fault::TextViewFormat => "TextView format must be html or markdown",
            Fault::ComponentId => "a component needs a non-empty string id",
            Fault::DatePickerFocus => "the focus handle given to DatePicker.new(id, focus_handle) has been released; a date picker takes the keyboard through that handle, so it needs a live one",
            Fault::PathWidth => "path stroke width must be finite and non-negative",
            Fault::PathOpacity => "path background opacity must be finite and non-negative",
            Fault::PathKind => "unknown Background kind",
            Fault::SolidColor => "solid background needs a color",
            Fault::GradientAngle => "gradient angle must be finite",
            Fault::GradientFrom => "gradient needs a from color",
            Fault::GradientFromPercentage => "gradient from percentage must be finite",
            Fault::GradientTo => "gradient needs a to color",
            Fault::GradientToPercentage => "gradient to percentage must be finite",
            Fault::SlashColor => "slash pattern needs a color",
            Fault::SlashWidth => "slash pattern width must be finite",
            Fault::SlashInterval => "slash pattern interval must be finite",
            Fault::CheckerboardColor => "checkerboard needs a color",
            Fault::CheckerboardSize => "checkerboard size must be finite",
            Fault::OrphanPanel => "resizable_panel() belongs to an h_resizable() or v_resizable(): its size and its drag handle are the group's. Use a div() here instead",
            Fault::NestedList => "a list cannot be built from inside another list's item renderer: its own renderer would belong to no render pass and would never be called. Describe the nested list from the view's render() instead",
            Fault::ItemSize => "every item size must be a finite, non-negative number of pixels",
            Fault::ItemSizes => "item_sizes must be a number or an array of numbers",
            Fault::ItemRenderer => "a virtual list needs a render function; it is called with the visible range,                  not once per item",
            Fault::ItemKeyResolver => "a virtual list needs get_key(index) to return each item's stable string key",
            Fault::StateReadBorrowed => "retained component state is already mutably borrowed",
            Fault::StateCreateBorrowed => "retained component state is already borrowed",
            Fault::StateNeedsCall => "retained component state can only be created during a live Window/App call",
            Fault::ChildElement => "child(element) expects an element",
            Fault::ActionPhase => "`on_action` cannot be registered from a virtual list's item renderer: the rows are rebuilt every frame, so a handler registered there would pile up for as long as the view stood",
            Fault::ActionName => "on_action(action, handler) expects the action's name first, as a non-empty string",
            Fault::ActionHandler => "on_action(action, handler) expects a function second",
            Fault::ClickDescriptor => "on_click descriptor must declare exactly one callback argument",
            Fault::IdString => "id(name) expects a string; it is the element's stable identity, so it must not change between renders",
            Fault::TooltipString => "tooltip(text) expects a string; a tooltip built from an element is not bound yet",
            Fault::ValueNumber => "value(percent) expects a number between 0 and 100",
            Fault::SetPosition => "set_position(position, size) expects whole finite numbers with 1 <= position <= size",
            Fault::SizeRangeMinimum => "size_range minimum does not fit the native pixel range",
            Fault::SizeRangeMaximum => "size_range maximum does not fit the native pixel range",
            Fault::SizeRangeOrder => "size_range maximum must be greater than or equal to its minimum",
            Fault::RoleString => "role(name) expects a string; see the Role type in gpui-kit.d.ts",
            Fault::RoleFiltered => "role(\"generic_container\") announces nothing: GPUI filters that role out of the accessibility tree. Leave the role off instead, or name the role the element really has",
            Fault::TabIndex => "tab_index(index) expects a whole number",
            Fault::HrefString => "href(url) expects a string",
            Fault::HrefUrl => "href(url) expects an absolute HTTP(S) URL with a host",
            Fault::UnknownStyle => "unknown element method",
            Fault::NoRender => "view class has no render(cx) method",
            Fault::NoViewClass => "main.js must `export default` a class that extends View",
            Fault::ForeignApplication => "loaded application belongs to a different ShellRuntime",
            Fault::ApplicationMounted => "loaded application has already been mounted",
            Fault::RuntimeInstalled => "a default gpui-shell runtime is already installed; use ShellRuntime::new_isolated() for an additional VM",
            Fault::PanelNeedsCall => "DockArea.register_panel(name, Class) needs a live host call; call it from                  init() or an event handler",
            Fault::StoreExhausted => "gpui-shell entity store id space is exhausted",
            Fault::JobQueue => "the QuickJS job queue exceeded gpui-shell's transactional limit; the script runtime was disabled so pending work cannot cross view authority",
        }
    }

    /// How the error reaches its reader.
    pub fn kind(self) -> (r: ErrorKind)
        ensures
            r == fault_kind(self),
    {
        match self {
            Fault::NestedNeedsView
            | Fault::NestedClass
            | Fault::UpdateReleased
            | Fault::NotifyReleased
            | Fault::ReleaseReleased
            | Fault::MountReleased
            | Fault::UpdateNotFunction
            | Fault::DataNumber
            | Fault::DataFunction
            | Fault::DataPromise
            | Fault::DataPrototype
            | Fault::DataSymbol
            | Fault::DataAccessor
            | Fault::DataHandle
            | Fault::DataPlain
            | Fault::ArgumentList
            | Fault::ArgumentType
            | Fault::RenderResult
            | Fault::Pagination
            | Fault::CallbackResult
            | Fault::NotifyTarget
            | Fault::NotifyNeedsView
            | Fault::NoAmbientCall
            | Fault::ItemArray
            | Fault::TextViewFormat
            | Fault::ComponentId
            | Fault::DatePickerFocus
            | Fault::PathWidth
            | Fault::PathOpacity
            | Fault::PathKind
            | Fault::SolidColor
            | Fault::GradientAngle
            | Fault::GradientFrom
            | Fault::GradientFromPercentage
            | Fault::GradientTo
            | Fault::GradientToPercentage
            | Fault::SlashColor
            | Fault::SlashWidth
            | Fault::SlashInterval
            | Fault::CheckerboardColor
            | Fault::CheckerboardSize
            | Fault::OrphanPanel
            | Fault::NestedList
            | Fault::ItemSize
            | Fault::ItemSizes
            | Fault::ItemRenderer
            | Fault::ItemKeyResolver
            | Fault::StateReadBorrowed
            | Fault::StateCreateBorrowed
            | Fault::StateNeedsCall
            | Fault::ChildElement
            | Fault::ActionPhase
            | Fault::ActionName
            | Fault::ActionHandler
            | Fault::ClickDescriptor
            | Fault::IdString
            | Fault::TooltipString
            | Fault::ValueNumber
            | Fault::SetPosition
            | Fault::RoleString
            | Fault::RoleFiltered
            | Fault::TabIndex
            | Fault::HrefString
            | Fault::HrefUrl
            | Fault::UnknownStyle
            | Fault::PanelNeedsCall => ErrorKind::Type,
            Fault::NestedTokens
            | Fault::DataDepth
            | Fault::DataNodes
            | Fault::DataBytes
            | Fault::DataKeys
            | Fault::ArgumentDepth
            | Fault::ArgumentNodes
            | Fault::StateCapacity
            | Fault::SizeRangeMinimum
            | Fault::SizeRangeMaximum
            | Fault::SizeRangeOrder => ErrorKind::Range,
            Fault::ShutDown
            | Fault::NoRender
            | Fault::NoViewClass => ErrorKind::Message,
            Fault::ShutDownCreate
            | Fault::ShutDownDock
            | Fault::ShutDownUpdate
            | Fault::ShutDownNotify
            | Fault::ShutDownRelease
            | Fault::ForeignCreate
            | Fault::ForeignDock
            | Fault::ForeignEntity
            | Fault::GoneBeforeUpdate
            | Fault::GoneBeforeNotify
            | Fault::GoneBeforeRelease
            | Fault::GoneForUpdate
            | Fault::EntityLimit
            | Fault::EffectRetired
            | Fault::EffectNeedsView
            | Fault::StateMutablyBorrowed
            | Fault::StateBorrowed
            | Fault::StatePhase
            | Fault::StateMissing
            | Fault::StateKind
            | Fault::ForeignApplication
            | Fault::ApplicationMounted
            | Fault::RuntimeInstalled
            | Fault::StoreExhausted
            | Fault::JobQueue => ErrorKind::Host,
        }
    }
}

/// An error, with the values its text names. `S` is `String` in running code and a sequence of
/// characters in statements.
pub enum ScriptError<S> {
    Fixed(Fault),
    Raised { message: S },
    FunctionValue { method: S },
    SlotValue { method: S },
    ObjectValue { method: S },
    CallbackSuperseded { id: u64 },
    CallbackRetired { id: u64 },
    CallbackReleased { id: u64 },
    WindowEffectPhase { phase: S },
    NotifyPhase { api: S, phase: S },
    DuplicateKey { key: S },
    UnknownElement { id: u64 },
    ClaimedElement { id: u64 },
    UnknownState { name: S },
    UnknownSlot { name: S },
    ItemBudget { limit: u64 },
    ItemSizeCount { sizes: u64, count: u64 },
    NotNumber { kind: S },
    NotFunction { kind: S },
    ItemSizeLimit { limit: u64 },
    TooManyArguments { api: S, count: u64, plural: S },
    ArgumentExpected { api: S, name: S, expected: S },
    ElementTwice { api: S, id: u64 },
    Factory { message: S },
    UnknownMethod { name: S },
    UnknownMethodHint { name: S, candidate: S },
    RegisteredSlot { method: S },
    SlotElement { method: S },
    MousePhase { method: S },
    MouseFirst { method: S },
    MouseSecond { method: S },
    MouseButton { button: S },
    HandlerPhase { method: S },
    HandlerFunction { method: S },
    CountNumber { method: S },
    UnknownRole { name: S },
    DockTarget { method: S },
    StyleFunction { name: S },
    StyleMessage { message: S },
    HostMessage { message: S },
    NotComponents { base: S, name: S },
    NotComponentsSource { name: S },
    StaleContext { message: S },
    RestoreFailed { message: S, cause: S },
    NeedsCall { api: S },
    WrongPhase { api: S, phase: S, action: S },
    NoImporter { name: S, base: S },
    UnresolvedBare { name: S, builtins: S },
    Unresolved { name: S, base: S },
    Escapes { name: S, boundary: S },
    ModuleTooLarge { path: S, size: u64, limit: u64 },
    ModuleGrew { path: S, limit: u64 },
}

/// An error with its strings replaced by their characters.
pub open spec fn error_view(error: ScriptError<String>) -> ScriptError<Seq<char>> {
    match error {
        ScriptError::Fixed(fault) => ScriptError::Fixed(fault),
        ScriptError::Raised { message } => ScriptError::Raised { message: message@ },
        ScriptError::FunctionValue { method } => ScriptError::FunctionValue { method: method@ },
        ScriptError::SlotValue { method } => ScriptError::SlotValue { method: method@ },
        ScriptError::ObjectValue { method } => ScriptError::ObjectValue { method: method@ },
        ScriptError::CallbackSuperseded { id } => ScriptError::CallbackSuperseded { id },
        ScriptError::CallbackRetired { id } => ScriptError::CallbackRetired { id },
        ScriptError::CallbackReleased { id } => ScriptError::CallbackReleased { id },
        ScriptError::WindowEffectPhase { phase } => ScriptError::WindowEffectPhase { phase: phase@ },
        ScriptError::NotifyPhase { api, phase } => ScriptError::NotifyPhase { api: api@, phase: phase@ },
        ScriptError::DuplicateKey { key } => ScriptError::DuplicateKey { key: key@ },
        ScriptError::UnknownElement { id } => ScriptError::UnknownElement { id },
        ScriptError::ClaimedElement { id } => ScriptError::ClaimedElement { id },
        ScriptError::UnknownState { name } => ScriptError::UnknownState { name: name@ },
        ScriptError::UnknownSlot { name } => ScriptError::UnknownSlot { name: name@ },
        ScriptError::ItemBudget { limit } => ScriptError::ItemBudget { limit },
        ScriptError::ItemSizeCount { sizes, count } => ScriptError::ItemSizeCount { sizes, count },
        ScriptError::NotNumber { kind } => ScriptError::NotNumber { kind: kind@ },
        ScriptError::NotFunction { kind } => ScriptError::NotFunction { kind: kind@ },
        ScriptError::ItemSizeLimit { limit } => ScriptError::ItemSizeLimit { limit },
        ScriptError::TooManyArguments { api, count, plural } => ScriptError::TooManyArguments { api: api@, count, plural: plural@ },
        ScriptError::ArgumentExpected { api, name, expected } => ScriptError::ArgumentExpected { api: api@, name: name@, expected: expected@ },
        ScriptError::ElementTwice { api, id } => ScriptError::ElementTwice { api: api@, id },
        ScriptError::Factory { message } => ScriptError::Factory { message: message@ },
        ScriptError::UnknownMethod { name } => ScriptError::UnknownMethod { name: name@ },
        ScriptError::UnknownMethodHint { name, candidate } => ScriptError::UnknownMethodHint { name: name@, candidate: candidate@ },
        ScriptError::RegisteredSlot { method } => ScriptError::RegisteredSlot { method: method@ },
        ScriptError::SlotElement { method } => ScriptError::SlotElement { method: method@ },
        ScriptError::MousePhase { method } => ScriptError::MousePhase { method: method@ },
        ScriptError::MouseFirst { method } => ScriptError::MouseFirst { method: method@ },
        ScriptError::MouseSecond { method } => ScriptError::MouseSecond { method: method@ },
        ScriptError::MouseButton { button } => ScriptError::MouseButton { button: button@ },
        ScriptError::HandlerPhase { method } => ScriptError::HandlerPhase { method: method@ },
        ScriptError::HandlerFunction { method } => ScriptError::HandlerFunction { method: method@ },
        ScriptError::CountNumber { method } => ScriptError::CountNumber { method: method@ },
        ScriptError::UnknownRole { name } => ScriptError::UnknownRole { name: name@ },
        ScriptError::DockTarget { method } => ScriptError::DockTarget { method: method@ },
        ScriptError::StyleFunction { name } => ScriptError::StyleFunction { name: name@ },
        ScriptError::StyleMessage { message } => ScriptError::StyleMessage { message: message@ },
        ScriptError::HostMessage { message } => ScriptError::HostMessage { message: message@ },
        ScriptError::NotComponents { base, name } => ScriptError::NotComponents { base: base@, name: name@ },
        ScriptError::NotComponentsSource { name } => ScriptError::NotComponentsSource { name: name@ },
        ScriptError::StaleContext { message } => ScriptError::StaleContext { message: message@ },
        ScriptError::RestoreFailed { message, cause } => ScriptError::RestoreFailed { message: message@, cause: cause@ },
        ScriptError::NeedsCall { api } => ScriptError::NeedsCall { api: api@ },
        ScriptError::WrongPhase { api, phase, action } => ScriptError::WrongPhase { api: api@, phase: phase@, action: action@ },
        ScriptError::NoImporter { name, base } => ScriptError::NoImporter { name: name@, base: base@ },
        ScriptError::UnresolvedBare { name, builtins } => ScriptError::UnresolvedBare { name: name@, builtins: builtins@ },
        ScriptError::Unresolved { name, base } => ScriptError::Unresolved { name: name@, base: base@ },
        ScriptError::Escapes { name, boundary } => ScriptError::Escapes { name: name@, boundary: boundary@ },
        ScriptError::ModuleTooLarge { path, size, limit } => ScriptError::ModuleTooLarge { path: path@, size, limit },
        ScriptError::ModuleGrew { path, limit } => ScriptError::ModuleGrew { path: path@, limit },
    }
}

/// The text of an error.
pub open spec fn error_text(error: ScriptError<Seq<char>>) -> Seq<char> {
    match error {
        ScriptError::Fixed(fault) => fault_text(fault),
        ScriptError::Raised { message } => message,
        ScriptError::FunctionValue { method } => "Error converting from js 'function' into type 'value': `"@
            + method
            + "` does not take a function"@,
        ScriptError::SlotValue { method } => "Error converting from js 'template argument' into type 'value': `"@
            + method
            + "` cannot take a template argument yet; a template fills text children, style arguments and handlers. Compute the value where the template is called and pass the result"@,
        ScriptError::ObjectValue { method } => "Error converting from js 'object' into type 'value': `"@
            + method
            + "` does not take an object or array"@,
        ScriptError::CallbackSuperseded { id } => "component callback "@
            + text::decimal_text(id as nat)
            + " belongs to a superseded render"@,
        ScriptError::CallbackRetired { id } => "component callback "@
            + text::decimal_text(id as nat)
            + " belongs to a retired application"@,
        ScriptError::CallbackReleased { id } => "component callback "@
            + text::decimal_text(id as nat)
            + " owner has been released"@,
        ScriptError::WindowEffectPhase { phase } => "component window effects are not allowed during the `"@
            + phase
            + "` phase"@,
        ScriptError::NotifyPhase { api, phase } => api
            + " is not allowed during the `"@
            + phase
            + "` phase; request a re-render from an event handler instead"@,
        ScriptError::DuplicateKey { key } => "virtual list get_key returned duplicate key `"@
            + key
            + "` in one visible range"@,
        ScriptError::UnknownElement { id } => "element "@
            + text::decimal_text(id as nat)
            + " does not exist"@,
        ScriptError::ClaimedElement { id } => "element "@
            + text::decimal_text(id as nat)
            + " is already used in another place"@,
        ScriptError::UnknownState { name } => "unknown state style `"@
            + name
            + "`; expected hover, active, focus, range_style, cell_style, cell_active_style or caret_style"@,
        ScriptError::UnknownSlot { name } => "unknown element slot `"@
            + name
            + "`"@,
        ScriptError::ItemBudget { limit } => "the lists in one render may describe at most "@
            + text::decimal_text(limit as nat)
            + " items in total"@,
        ScriptError::ItemSizeCount { sizes, count } => "this list was given "@
            + text::decimal_text(sizes as nat)
            + " item sizes for "@
            + text::decimal_text(count as nat)
            + " items; pass                                      one number for a uniform extent, or one per item"@,
        ScriptError::NotNumber { kind } => "Error converting from js '"@
            + kind
            + "' into type 'f64'"@,
        ScriptError::NotFunction { kind } => "Error converting from js '"@
            + kind
            + "' into type 'function'"@,
        ScriptError::ItemSizeLimit { limit } => "item_sizes may contain at most "@
            + text::decimal_text(limit as nat)
            + " entries"@,
        ScriptError::TooManyArguments { api, count, plural } => api
            + "(...) expects at most "@
            + text::decimal_text(count as nat)
            + " argument"@
            + plural,
        ScriptError::ArgumentExpected { api, name, expected } => api
            + "("@
            + name
            + ") expects "@
            + expected,
        ScriptError::ElementTwice { api, id } => api
            + "(...) cannot consume element "@
            + text::decimal_text(id as nat)
            + " twice"@,
        ScriptError::Factory { message } => message,
        ScriptError::UnknownMethod { name } => "unknown element method `"@
            + name
            + "`; it is neither a style method nor one of child, children, when, on_click, on_change, disabled, selected, checked, overflow_scroll, overflow_x_scroll, overflow_y_scroll, overflow_scrollbar, overflow_x_scrollbar, overflow_y_scrollbar"@,
        ScriptError::UnknownMethodHint { name, candidate } => "unknown element method `"@
            + name
            + "` (did you mean `"@
            + candidate
            + "`?)"@,
        ScriptError::RegisteredSlot { method } => "`"@
            + method
            + "` cannot take a template argument yet; registered component methods are validated when their values are recorded"@,
        ScriptError::SlotElement { method } => method
            + "(element) expects an element"@,
        ScriptError::MousePhase { method } => "`"@
            + method
            + "` cannot be registered from a virtual list's item renderer: the rows are rebuilt every frame, so a handler registered there would pile up for as long as the view stood"@,
        ScriptError::MouseFirst { method } => method
            + "(button, handler) expects a button first: \"left\", \"right\" or \"middle\""@,
        ScriptError::MouseSecond { method } => method
            + "(button, handler) expects a function second"@,
        ScriptError::MouseButton { button } => "`"@
            + button
            + "` is not a mouse button; expected \"left\", \"right\" or \"middle\""@,
        ScriptError::HandlerPhase { method } => "`"@
            + method
            + "` cannot be registered from a virtual list's item renderer: the rows are rebuilt every frame, so a handler registered there would pile up for as long as the view stood. Use `on_item_click((key, cx) => ...)` or `on_item_secondary_click((key, event, cx) => ...)` on the list itself, and read the row out of your own data with the stable key it gives you"@,
        ScriptError::HandlerFunction { method } => method
            + "(handler) expects a function"@,
        ScriptError::CountNumber { method } => method
            + "(count) expects a non-negative whole finite number"@,
        ScriptError::UnknownRole { name } => "unknown accessibility role `"@
            + name
            + "`; the names mirror gpui::Role in snake_case — see the Role type in gpui-kit.d.ts"@,
        ScriptError::DockTarget { method } => method
            + "(...) expects the group, dock or tile its chrome handler was                              given as its first argument"@,
        ScriptError::StyleFunction { name } => "`"@
            + name
            + "` does not take a function"@,
        ScriptError::StyleMessage { message } => message,
        ScriptError::HostMessage { message } => message,
        ScriptError::NotComponents { base, name } => "Error resolving module '"@
            + name
            + "' from '"@
            + base
            + "': not the registered component module"@,
        ScriptError::NotComponentsSource { name } => "Error loading module '"@
            + name
            + "': not the registered component module"@,
        ScriptError::StaleContext { message } => message,
        ScriptError::RestoreFailed { message, .. } => "failed to restore child state: "@
            + message,
        ScriptError::NeedsCall { api } => api
            + " needs a live host call; use it from init(), an event handler or a task"@,
        ScriptError::WrongPhase { api, phase, action } => api
            + " cannot run during "@
            + phase
            + "; "@
            + action
            + " retained views from init(), an event handler or a task"@,
        ScriptError::NoImporter { name, base } => "cannot identify the application importing `"@
            + name
            + "` from `"@
            + base
            + "`"@,
        ScriptError::UnresolvedBare { name, builtins } => "cannot resolve module `"@
            + name
            + "`: this runtime's built-in modules are "@
            + builtins
            + ", and an application may otherwise import only its own files. If the script expects a module this runtime does not have, the two are different versions."@,
        ScriptError::Unresolved { name, base } => "cannot resolve module `"@
            + name
            + "` from `"@
            + base
            + "`"@,
        ScriptError::Escapes { name, boundary } => "module `"@
            + name
            + "` resolves outside the application directory `"@
            + boundary
            + "`"@,
        ScriptError::ModuleTooLarge { path, size, limit } => "module `"@
            + path
            + "` is "@
            + text::decimal_text(size as nat)
            + " bytes, over the "@
            + text::decimal_text(limit as nat)
            + "-byte limit"@,
        ScriptError::ModuleGrew { path, limit } => "module `"@
            + path
            + "` grew over the "@
            + text::decimal_text(limit as nat)
            + "-byte limit"@,
    }
}

/// How an error reaches its reader.
pub open spec fn error_kind(error: ScriptError<Seq<char>>) -> ErrorKind {
    match error {
        ScriptError::Fixed(fault) => fault_kind(fault),
        ScriptError::Raised { .. }
        | ScriptError::HostMessage { .. }
        | ScriptError::NoImporter { .. }
        | ScriptError::UnresolvedBare { .. }
        | ScriptError::Unresolved { .. }
        | ScriptError::Escapes { .. } => ErrorKind::Message,
        ScriptError::FunctionValue { .. }
        | ScriptError::SlotValue { .. }
        | ScriptError::ObjectValue { .. }
        | ScriptError::NotifyPhase { .. }
        | ScriptError::DuplicateKey { .. }
        | ScriptError::UnknownElement { .. }
        | ScriptError::ClaimedElement { .. }
        | ScriptError::UnknownState { .. }
        | ScriptError::UnknownSlot { .. }
        | ScriptError::ItemBudget { .. }
        | ScriptError::ItemSizeCount { .. }
        | ScriptError::NotNumber { .. }
        | ScriptError::NotFunction { .. }
        | ScriptError::TooManyArguments { .. }
        | ScriptError::ArgumentExpected { .. }
        | ScriptError::ElementTwice { .. }
        | ScriptError::Factory { .. }
        | ScriptError::UnknownMethod { .. }
        | ScriptError::UnknownMethodHint { .. }
        | ScriptError::RegisteredSlot { .. }
        | ScriptError::SlotElement { .. }
        | ScriptError::MousePhase { .. }
        | ScriptError::MouseFirst { .. }
        | ScriptError::MouseSecond { .. }
        | ScriptError::MouseButton { .. }
        | ScriptError::HandlerPhase { .. }
        | ScriptError::HandlerFunction { .. }
        | ScriptError::CountNumber { .. }
        | ScriptError::UnknownRole { .. }
        | ScriptError::DockTarget { .. }
        | ScriptError::StyleFunction { .. }
        | ScriptError::StyleMessage { .. }
        | ScriptError::StaleContext { .. }
        | ScriptError::NeedsCall { .. }
        | ScriptError::WrongPhase { .. } => ErrorKind::Type,
        ScriptError::CallbackSuperseded { .. }
        | ScriptError::CallbackRetired { .. }
        | ScriptError::CallbackReleased { .. }
        | ScriptError::WindowEffectPhase { .. }
        | ScriptError::RestoreFailed { .. }
        | ScriptError::ModuleTooLarge { .. }
        | ScriptError::ModuleGrew { .. } => ErrorKind::Host,
        ScriptError::ItemSizeLimit { .. } => ErrorKind::Range,
        ScriptError::NotComponents { .. }
        | ScriptError::NotComponentsSource { .. } => ErrorKind::Reference,
    }
}

impl ScriptError<String> {
    /// The text of the error.
    pub fn message(&self) -> (r: String)
        ensures
            r@ == error_text(error_view(*self)),
    {
        match self {
            ScriptError::Fixed(fault) => fault.message().to_owned(),
            ScriptError::Raised { message } => {
                let mut out = message.as_str().to_owned();
                out
            },
            ScriptError::FunctionValue { method } => {
                let mut out = "Error converting from js 'function' into type 'value': `".to_owned();
                out.append(method.as_str());
                out.append("` does not take a function");
                out
            },
            ScriptError::SlotValue { method } => {
                let mut out = "Error converting from js 'template argument' into type 'value': `".to_owned();
                out.append(method.as_str());
                out.append("` cannot take a template argument yet; a template fills text children, style arguments and handlers. Compute the value where the template is called and pass the result");
                out
            },
            ScriptError::ObjectValue { method } => {
                let mut out = "Error converting from js 'object' into type 'value': `".to_owned();
                out.append(method.as_str());
                out.append("` does not take an object or array");
                out
            },
            ScriptError::CallbackSuperseded { id } => {
                let mut out = "component callback ".to_owned();
                out.append(text::decimal(*id).as_str());
                out.append(" belongs to a superseded render");
                out
            },
            ScriptError::CallbackRetired { id } => {
                let mut out = "component callback ".to_owned();
                out.append(text::decimal(*id).as_str());
                out.append(" belongs to a retired application");
                out
            },
            ScriptError::CallbackReleased { id } => {
                let mut out = "component callback ".to_owned();
                out.append(text::decimal(*id).as_str());
                out.append(" owner has been released");
                out
            },
            ScriptError::WindowEffectPhase { phase } => {
                let mut out = "component window effects are not allowed during the `".to_owned();
                out.append(phase.as_str());
                out.append("` phase");
                out
            },
            ScriptError::NotifyPhase { api, phase } => {
                let mut out = api.as_str().to_owned();
                out.append(" is not allowed during the `");
                out.append(phase.as_str());
                out.append("` phase; request a re-render from an event handler instead");
                out
            },
            ScriptError::DuplicateKey { key } => {
                let mut out = "virtual list get_key returned duplicate key `".to_owned();
                out.append(key.as_str());
                out.append("` in one visible range");
                out
            },
            ScriptError::UnknownElement { id } => {
                let mut out = "element ".to_owned();
                out.append(text::decimal(*id).as_str());
                out.append(" does not exist");
                out
            },
            ScriptError::ClaimedElement { id } => {
                let mut out = "element ".to_owned();
                out.append(text::decimal(*id).as_str());
                out.append(" is already used in another place");
                out
            },
            ScriptError::UnknownState { name } => {
                let mut out = "unknown state style `".to_owned();
                out.append(name.as_str());
                out.append("`; expected hover, active, focus, range_style, cell_style, cell_active_style or caret_style");
                out
            },
            ScriptError::UnknownSlot { name } => {
                let mut out = "unknown element slot `".to_owned();
                out.append(name.as_str());
                out.append("`");
                out
            },
            ScriptError::ItemBudget { limit } => {
                let mut out = "the lists in one render may describe at most ".to_owned();
                out.append(text::decimal(*limit).as_str());
                out.append(" items in total");
                out
            },
            ScriptError::ItemSizeCount { sizes, count } => {
                let mut out = "this list was given ".to_owned();
                out.append(text::decimal(*sizes).as_str());
                out.append(" item sizes for ");
                out.append(text::decimal(*count).as_str());
                out.append(" items; pass                                      one number for a uniform extent, or one per item");
                out
            },
            ScriptError::NotNumber { kind } => {
                let mut out = "Error converting from js '".to_owned();
                out.append(kind.as_str());
                out.append("' into type 'f64'");
                out
            },
            ScriptError::NotFunction { kind } => {
                let mut out = "Error converting from js '".to_owned();
                out.append(kind.as_str());
                out.append("' into type 'function'");
                out
            },
            ScriptError::ItemSizeLimit { limit } => {
                let mut out = "item_sizes may contain at most ".to_owned();
                out.append(text::decimal(*limit).as_str());
                out.append(" entries");
                out
            },
            ScriptError::TooManyArguments { api, count, plural } => {
                let mut out = api.as_str().to_owned();
                out.append("(...) expects at most ");
                out.append(text::decimal(*count).as_str());
                out.append(" argument");
                out.append(plural.as_str());
                out
            },
            ScriptError::ArgumentExpected { api, name, expected } => {
                let mut out = api.as_str().to_owned();
                out.append("(");
                out.append(name.as_str());
                out.append(") expects ");
                out.append(expected.as_str());
                out
            },
            ScriptError::ElementTwice { api, id } => {
                let mut out = api.as_str().to_owned();
                out.append("(...) cannot consume element ");
                out.append(text::decimal(*id).as_str());
                out.append(" twice");
                out
            },
            ScriptError::Factory { message } => {
                let mut out = message.as_str().to_owned();
                out
            },
            ScriptError::UnknownMethod { name } => {
                let mut out = "unknown element method `".to_owned();
                out.append(name.as_str());
                out.append("`; it is neither a style method nor one of child, children, when, on_click, on_change, disabled, selected, checked, overflow_scroll, overflow_x_scroll, overflow_y_scroll, overflow_scrollbar, overflow_x_scrollbar, overflow_y_scrollbar");
                out
            },
            ScriptError::UnknownMethodHint { name, candidate } => {
                let mut out = "unknown element method `".to_owned();
                out.append(name.as_str());
                out.append("` (did you mean `");
                out.append(candidate.as_str());
                out.append("`?)");
                out
            },
            ScriptError::RegisteredSlot { method } => {
                let mut out = "`".to_owned();
                out.append(method.as_str());
                out.append("` cannot take a template argument yet; registered component methods are validated when their values are recorded");
                out
            },
            ScriptError::SlotElement { method } => {
                let mut out = method.as_str().to_owned();
                out.append("(element) expects an element");
                out
            },
            ScriptError::MousePhase { method } => {
                let mut out = "`".to_owned();
                out.append(method.as_str());
                out.append("` cannot be registered from a virtual list's item renderer: the rows are rebuilt every frame, so a handler registered there would pile up for as long as the view stood");
                out
            },
            ScriptError::MouseFirst { method } => {
                let mut out = method.as_str().to_owned();
                out.append("(button, handler) expects a button first: \"left\", \"right\" or \"middle\"");
                out
            },
            ScriptError::MouseSecond { method } => {
                let mut out = method.as_str().to_owned();
                out.append("(button, handler) expects a function second");
                out
            },
            ScriptError::MouseButton { button } => {
                let mut out = "`".to_owned();
                out.append(button.as_str());
                out.append("` is not a mouse button; expected \"left\", \"right\" or \"middle\"");
                out
            },
            ScriptError::HandlerPhase { method } => {
                let mut out = "`".to_owned();
                out.append(method.as_str());
                out.append("` cannot be registered from a virtual list's item renderer: the rows are rebuilt every frame, so a handler registered there would pile up for as long as the view stood. Use `on_item_click((key, cx) => ...)` or `on_item_secondary_click((key, event, cx) => ...)` on the list itself, and read the row out of your own data with the stable key it gives you");
                out
            },
            ScriptError::HandlerFunction { method } => {
                let mut out = method.as_str().to_owned();
                out.append("(handler) expects a function");
                out
            },
            ScriptError::CountNumber { method } => {
                let mut out = method.as_str().to_owned();
                out.append("(count) expects a non-negative whole finite number");
                out
            },
            ScriptError::UnknownRole { name } => {
                let mut out = "unknown accessibility role `".to_owned();
                out.append(name.as_str());
                out.append("`; the names mirror gpui::Role in snake_case — see the Role type in gpui-kit.d.ts");
                out
            },
            ScriptError::DockTarget { method } => {
                let mut out = method.as_str().to_owned();
                out.append("(...) expects the group, dock or tile its chrome handler was                              given as its first argument");
                out
            },
            ScriptError::StyleFunction { name } => {
                let mut out = "`".to_owned();
                out.append(name.as_str());
                out.append("` does not take a function");
                out
            },
            ScriptError::StyleMessage { message } => {
                let mut out = message.as_str().to_owned();
                out
            },
            ScriptError::HostMessage { message } => {
                let mut out = message.as_str().to_owned();
                out
            },
            ScriptError::NotComponents { base, name } => {
                let mut out = "Error resolving module '".to_owned();
                out.append(name.as_str());
                out.append("' from '");
                out.append(base.as_str());
                out.append("': not the registered component module");
                out
            },
            ScriptError::NotComponentsSource { name } => {
                let mut out = "Error loading module '".to_owned();
                out.append(name.as_str());
                out.append("': not the registered component module");
                out
            },
            ScriptError::StaleContext { message } => {
                let mut out = message.as_str().to_owned();
                out
            },
            ScriptError::RestoreFailed { message, .. } => {
                let mut out = "failed to restore child state: ".to_owned();
                out.append(message.as_str());
                out
            },
            ScriptError::NeedsCall { api } => {
                let mut out = api.as_str().to_owned();
                out.append(" needs a live host call; use it from init(), an event handler or a task");
                out
            },
            ScriptError::WrongPhase { api, phase, action } => {
                let mut out = api.as_str().to_owned();
                out.append(" cannot run during ");
                out.append(phase.as_str());
                out.append("; ");
                out.append(action.as_str());
                out.append(" retained views from init(), an event handler or a task");
                out
            },
            ScriptError::NoImporter { name, base } => {
                let mut out = "cannot identify the application importing `".to_owned();
                out.append(name.as_str());
                out.append("` from `");
                out.append(base.as_str());
                out.append("`");
                out
            },
            ScriptError::UnresolvedBare { name, builtins } => {
                let mut out = "cannot resolve module `".to_owned();
                out.append(name.as_str());
                out.append("`: this runtime's built-in modules are ");
                out.append(builtins.as_str());
                out.append(", and an application may otherwise import only its own files. If the script expects a module this runtime does not have, the two are different versions.");
                out
            },
            ScriptError::Unresolved { name, base } => {
                let mut out = "cannot resolve module `".to_owned();
                out.append(name.as_str());
                out.append("` from `");
                out.append(base.as_str());
                out.append("`");
                out
            },
            ScriptError::Escapes { name, boundary } => {
                let mut out = "module `".to_owned();
                out.append(name.as_str());
                out.append("` resolves outside the application directory `");
                out.append(boundary.as_str());
                out.append("`");
                out
            },
            ScriptError::ModuleTooLarge { path, size, limit } => {
                let mut out = "module `".to_owned();
                out.append(path.as_str());
                out.append("` is ");
                out.append(text::decimal(*size).as_str());
                out.append(" bytes, over the ");
                out.append(text::decimal(*limit).as_str());
                out.append("-byte limit");
                out
            },
            ScriptError::ModuleGrew { path, limit } => {
                let mut out = "module `".to_owned();
                out.append(path.as_str());
                out.append("` grew over the ");
                out.append(text::decimal(*limit).as_str());
                out.append("-byte limit");
                out
            },
        }
    }

    /// How the error reaches its reader.
    pub fn kind(&self) -> (r: ErrorKind)
        ensures
            r == error_kind(error_view(*self)),
    {
        match self {
            ScriptError::Fixed(fault) => fault.kind(),
            ScriptError::Raised { .. }
            | ScriptError::HostMessage { .. }
            | ScriptError::NoImporter { .. }
            | ScriptError::UnresolvedBare { .. }
            | ScriptError::Unresolved { .. }
            | ScriptError::Escapes { .. } => ErrorKind::Message,
            ScriptError::FunctionValue { .. }
            | ScriptError::SlotValue { .. }
            | ScriptError::ObjectValue { .. }
            | ScriptError::NotifyPhase { .. }
            | ScriptError::DuplicateKey { .. }
            | ScriptError::UnknownElement { .. }
            | ScriptError::ClaimedElement { .. }
            | ScriptError::UnknownState { .. }
            | ScriptError::UnknownSlot { .. }
            | ScriptError::ItemBudget { .. }
            | ScriptError::ItemSizeCount { .. }
            | ScriptError::NotNumber { .. }
            | ScriptError::NotFunction { .. }
            | ScriptError::TooManyArguments { .. }
            | ScriptError::ArgumentExpected { .. }
            | ScriptError::ElementTwice { .. }
            | ScriptError::Factory { .. }
            | ScriptError::UnknownMethod { .. }
            | ScriptError::UnknownMethodHint { .. }
            | ScriptError::RegisteredSlot { .. }
            | ScriptError::SlotElement { .. }
            | ScriptError::MousePhase { .. }
            | ScriptError::MouseFirst { .. }
            | ScriptError::MouseSecond { .. }
            | ScriptError::MouseButton { .. }
            | ScriptError::HandlerPhase { .. }
            | ScriptError::HandlerFunction { .. }
            | ScriptError::CountNumber { .. }
            | ScriptError::UnknownRole { .. }
            | ScriptError::DockTarget { .. }
            | ScriptError::StyleFunction { .. }
            | ScriptError::StyleMessage { .. }
            | ScriptError::StaleContext { .. }
            | ScriptError::NeedsCall { .. }
            | ScriptError::WrongPhase { .. } => ErrorKind::Type,
            ScriptError::CallbackSuperseded { .. }
            | ScriptError::CallbackRetired { .. }
            | ScriptError::CallbackReleased { .. }
            | ScriptError::WindowEffectPhase { .. }
            | ScriptError::RestoreFailed { .. }
            | ScriptError::ModuleTooLarge { .. }
            | ScriptError::ModuleGrew { .. } => ErrorKind::Host,
            ScriptError::ItemSizeLimit { .. } => ErrorKind::Range,
            ScriptError::NotComponents { .. }
            | ScriptError::NotComponentsSource { .. } => ErrorKind::Reference,
        }
    }
}

/// The view of an outcome: its value, or its error with strings replaced by their characters.
pub open spec fn outcome_view<T>(outcome: Result<T, ScriptError<String>>) -> Result<
    T,
    ScriptError<Seq<char>>,
> {
    match outcome {
        Ok(value) => Ok(value),
        Err(error) => Err(error_view(error)),
    }
}

/// Whether a text holds another.
pub open spec fn mentions(whole: Seq<char>, part: Seq<char>) -> bool {
    exists|at: int| text::occurs_at(whole, part, at)
}

proof fn lemma_mentioned(whole: Seq<char>, before: Seq<char>, part: Seq<char>, after: Seq<char>)
    requires
        whole =~= before + part + after,
    ensures
        mentions(whole, part),
{
    let at = before.len() as int;
    assert(whole.subrange(at, at + part.len()) =~= part);
    assert(text::occurs_at(whole, part, at));
}

/// The text of an error names every value that the error is about.
pub proof fn law_an_error_names_what_it_is_about(error: ScriptError<Seq<char>>)
    ensures
        match error {
            ScriptError::Fixed(fault) => error_text(error) == fault_text(fault),
            ScriptError::Raised { message } => {
                &&& mentions(error_text(error), message)
            },
            ScriptError::FunctionValue { method } => {
                &&& mentions(error_text(error), method)
            },
            ScriptError::SlotValue { method } => {
                &&& mentions(error_text(error), method)
            },
            ScriptError::ObjectValue { method } => {
                &&& mentions(error_text(error), method)
            },
            ScriptError::CallbackSuperseded { id } => {
                &&& mentions(error_text(error), text::decimal_text(id as nat))
            },
            ScriptError::CallbackRetired { id } => {
                &&& mentions(error_text(error), text::decimal_text(id as nat))
            },
            ScriptError::CallbackReleased { id } => {
                &&& mentions(error_text(error), text::decimal_text(id as nat))
            },
            ScriptError::WindowEffectPhase { phase } => {
                &&& mentions(error_text(error), phase)
            },
            ScriptError::NotifyPhase { api, phase } => {
                &&& mentions(error_text(error), api)
                &&& mentions(error_text(error), phase)
            },
            ScriptError::DuplicateKey { key } => {
                &&& mentions(error_text(error), key)
            },
            ScriptError::UnknownElement { id } => {
                &&& mentions(error_text(error), text::decimal_text(id as nat))
            },
            ScriptError::ClaimedElement { id } => {
                &&& mentions(error_text(error), text::decimal_text(id as nat))
            },
            ScriptError::UnknownState { name } => {
                &&& mentions(error_text(error), name)
            },
            ScriptError::UnknownSlot { name } => {
                &&& mentions(error_text(error), name)
            },
            ScriptError::ItemBudget { limit } => {
                &&& mentions(error_text(error), text::decimal_text(limit as nat))
            },
            ScriptError::ItemSizeCount { sizes, count } => {
                &&& mentions(error_text(error), text::decimal_text(sizes as nat))
                &&& mentions(error_text(error), text::decimal_text(count as nat))
            },
            ScriptError::NotNumber { kind } => {
                &&& mentions(error_text(error), kind)
            },
            ScriptError::NotFunction { kind } => {
                &&& mentions(error_text(error), kind)
            },
            ScriptError::ItemSizeLimit { limit } => {
                &&& mentions(error_text(error), text::decimal_text(limit as nat))
            },
            ScriptError::TooManyArguments { api, count, plural } => {
                &&& mentions(error_text(error), api)
                &&& mentions(error_text(error), text::decimal_text(count as nat))
                &&& mentions(error_text(error), plural)
            },
            ScriptError::ArgumentExpected { api, name, expected } => {
                &&& mentions(error_text(error), api)
                &&& mentions(error_text(error), name)
                &&& mentions(error_text(error), expected)
            },
            ScriptError::ElementTwice { api, id } => {
                &&& mentions(error_text(error), api)
                &&& mentions(error_text(error), text::decimal_text(id as nat))
            },
            ScriptError::Factory { message } => {
                &&& mentions(error_text(error), message)
            },
            ScriptError::UnknownMethod { name } => {
                &&& mentions(error_text(error), name)
            },
            ScriptError::UnknownMethodHint { name, candidate } => {
                &&& mentions(error_text(error), name)
                &&& mentions(error_text(error), candidate)
            },
            ScriptError::RegisteredSlot { method } => {
                &&& mentions(error_text(error), method)
            },
            ScriptError::SlotElement { method } => {
                &&& mentions(error_text(error), method)
            },
            ScriptError::MousePhase { method } => {
                &&& mentions(error_text(error), method)
            },
            ScriptError::MouseFirst { method } => {
                &&& mentions(error_text(error), method)
            },
            ScriptError::MouseSecond { method } => {
                &&& mentions(error_text(error), method)
            },
            ScriptError::MouseButton { button } => {
                &&& mentions(error_text(error), button)
            },
            ScriptError::HandlerPhase { method } => {
                &&& mentions(error_text(error), method)
            },
            ScriptError::HandlerFunction { method } => {
                &&& mentions(error_text(error), method)
            },
            ScriptError::CountNumber { method } => {
                &&& mentions(error_text(error), method)
            },
            ScriptError::UnknownRole { name } => {
                &&& mentions(error_text(error), name)
            },
            ScriptError::DockTarget { method } => {
                &&& mentions(error_text(error), method)
            },
            ScriptError::StyleFunction { name } => {
                &&& mentions(error_text(error), name)
            },
            ScriptError::StyleMessage { message } => {
                &&& mentions(error_text(error), message)
            },
            ScriptError::HostMessage { message } => {
                &&& mentions(error_text(error), message)
            },
            ScriptError::NotComponents { base, name } => {
                &&& mentions(error_text(error), base)
                &&& mentions(error_text(error), name)
            },
            ScriptError::NotComponentsSource { name } => {
                &&& mentions(error_text(error), name)
            },
            ScriptError::StaleContext { message } => {
                &&& mentions(error_text(error), message)
            },
            ScriptError::RestoreFailed { message, .. } => {
                &&& mentions(error_text(error), message)
            },
            ScriptError::NeedsCall { api } => {
                &&& mentions(error_text(error), api)
            },
            ScriptError::WrongPhase { api, phase, action } => {
                &&& mentions(error_text(error), api)
                &&& mentions(error_text(error), phase)
                &&& mentions(error_text(error), action)
            },
            ScriptError::NoImporter { name, base } => {
                &&& mentions(error_text(error), name)
                &&& mentions(error_text(error), base)
            },
            ScriptError::UnresolvedBare { name, builtins } => {
                &&& mentions(error_text(error), name)
                &&& mentions(error_text(error), builtins)
            },
            ScriptError::Unresolved { name, base } => {
                &&& mentions(error_text(error), name)
                &&& mentions(error_text(error), base)
            },
            ScriptError::Escapes { name, boundary } => {
                &&& mentions(error_text(error), name)
                &&& mentions(error_text(error), boundary)
            },
            ScriptError::ModuleTooLarge { path, size, limit } => {
                &&& mentions(error_text(error), path)
                &&& mentions(error_text(error), text::decimal_text(size as nat))
                &&& mentions(error_text(error), text::decimal_text(limit as nat))
            },
            ScriptError::ModuleGrew { path, limit } => {
                &&& mentions(error_text(error), path)
                &&& mentions(error_text(error), text::decimal_text(limit as nat))
            },
        },
{
    match error {
        ScriptError::Fixed(_) => {},
        ScriptError::Raised { message } => {
            lemma_mentioned(
                error_text(error),
                Seq::empty(),
                message,
                Seq::empty(),
            );
        },
        ScriptError::FunctionValue { method } => {
            lemma_mentioned(
                error_text(error),
                "Error converting from js 'function' into type 'value': `"@,
                method,
                "` does not take a function"@,
            );
        },
        ScriptError::SlotValue { method } => {
            lemma_mentioned(
                error_text(error),
                "Error converting from js 'template argument' into type 'value': `"@,
                method,
                "` cannot take a template argument yet; a template fills text children, style arguments and handlers. Compute the value where the template is called and pass the result"@,
            );
        },
        ScriptError::ObjectValue { method } => {
            lemma_mentioned(
                error_text(error),
                "Error converting from js 'object' into type 'value': `"@,
                method,
                "` does not take an object or array"@,
            );
        },
        ScriptError::CallbackSuperseded { id } => {
            lemma_mentioned(
                error_text(error),
                "component callback "@,
                text::decimal_text(id as nat),
                " belongs to a superseded render"@,
            );
        },
        ScriptError::CallbackRetired { id } => {
            lemma_mentioned(
                error_text(error),
                "component callback "@,
                text::decimal_text(id as nat),
                " belongs to a retired application"@,
            );
        },
        ScriptError::CallbackReleased { id } => {
            lemma_mentioned(
                error_text(error),
                "component callback "@,
                text::decimal_text(id as nat),
                " owner has been released"@,
            );
        },
        ScriptError::WindowEffectPhase { phase } => {
            lemma_mentioned(
                error_text(error),
                "component window effects are not allowed during the `"@,
                phase,
                "` phase"@,
            );
        },
        ScriptError::NotifyPhase { api, phase } => {
            lemma_mentioned(
                error_text(error),
                Seq::empty(),
                api,
                " is not allowed during the `"@ + phase + "` phase; request a re-render from an event handler instead"@,
            );
            lemma_mentioned(
                error_text(error),
                api + " is not allowed during the `"@,
                phase,
                "` phase; request a re-render from an event handler instead"@,
            );
        },
        ScriptError::DuplicateKey { key } => {
            lemma_mentioned(
                error_text(error),
                "virtual list get_key returned duplicate key `"@,
                key,
                "` in one visible range"@,
            );
        },
        ScriptError::UnknownElement { id } => {
            lemma_mentioned(
                error_text(error),
                "element "@,
                text::decimal_text(id as nat),
                " does not exist"@,
            );
        },
        ScriptError::ClaimedElement { id } => {
            lemma_mentioned(
                error_text(error),
                "element "@,
                text::decimal_text(id as nat),
                " is already used in another place"@,
            );
        },
        ScriptError::UnknownState { name } => {
            lemma_mentioned(
                error_text(error),
                "unknown state style `"@,
                name,
                "`; expected hover, active, focus, range_style, cell_style, cell_active_style or caret_style"@,
            );
        },
        ScriptError::UnknownSlot { name } => {
            lemma_mentioned(
                error_text(error),
                "unknown element slot `"@,
                name,
                "`"@,
            );
        },
        ScriptError::ItemBudget { limit } => {
            lemma_mentioned(
                error_text(error),
                "the lists in one render may describe at most "@,
                text::decimal_text(limit as nat),
                " items in total"@,
            );
        },
        ScriptError::ItemSizeCount { sizes, count } => {
            lemma_mentioned(
                error_text(error),
                "this list was given "@,
                text::decimal_text(sizes as nat),
                " item sizes for "@ + text::decimal_text(count as nat) + " items; pass                                      one number for a uniform extent, or one per item"@,
            );
            lemma_mentioned(
                error_text(error),
                "this list was given "@ + text::decimal_text(sizes as nat) + " item sizes for "@,
                text::decimal_text(count as nat),
                " items; pass                                      one number for a uniform extent, or one per item"@,
            );
        },
        ScriptError::NotNumber { kind } => {
            lemma_mentioned(
                error_text(error),
                "Error converting from js '"@,
                kind,
                "' into type 'f64'"@,
            );
        },
        ScriptError::NotFunction { kind } => {
            lemma_mentioned(
                error_text(error),
                "Error converting from js '"@,
                kind,
                "' into type 'function'"@,
            );
        },
        ScriptError::ItemSizeLimit { limit } => {
            lemma_mentioned(
                error_text(error),
                "item_sizes may contain at most "@,
                text::decimal_text(limit as nat),
                " entries"@,
            );
        },
        ScriptError::TooManyArguments { api, count, plural } => {
            lemma_mentioned(
                error_text(error),
                Seq::empty(),
                api,
                "(...) expects at most "@ + text::decimal_text(count as nat) + " argument"@ + plural,
            );
            lemma_mentioned(
                error_text(error),
                api + "(...) expects at most "@,
                text::decimal_text(count as nat),
                " argument"@ + plural,
            );
            lemma_mentioned(
                error_text(error),
                api + "(...) expects at most "@ + text::decimal_text(count as nat) + " argument"@,
                plural,
                Seq::empty(),
            );
        },
        ScriptError::ArgumentExpected { api, name, expected } => {
            lemma_mentioned(
                error_text(error),
                Seq::empty(),
                api,
                "("@ + name + ") expects "@ + expected,
            );
            lemma_mentioned(
                error_text(error),
                api + "("@,
                name,
                ") expects "@ + expected,
            );
            lemma_mentioned(
                error_text(error),
                api + "("@ + name + ") expects "@,
                expected,
                Seq::empty(),
            );
        },
        ScriptError::ElementTwice { api, id } => {
            lemma_mentioned(
                error_text(error),
                Seq::empty(),
                api,
                "(...) cannot consume element "@ + text::decimal_text(id as nat) + " twice"@,
            );
            lemma_mentioned(
                error_text(error),
                api + "(...) cannot consume element "@,
                text::decimal_text(id as nat),
                " twice"@,
            );
        },
        ScriptError::Factory { message } => {
            lemma_mentioned(
                error_text(error),
                Seq::empty(),
                message,
                Seq::empty(),
            );
        },
        ScriptError::UnknownMethod { name } => {
            lemma_mentioned(
                error_text(error),
                "unknown element method `"@,
                name,
                "`; it is neither a style method nor one of child, children, when, on_click, on_change, disabled, selected, checked, overflow_scroll, overflow_x_scroll, overflow_y_scroll, overflow_scrollbar, overflow_x_scrollbar, overflow_y_scrollbar"@,
            );
        },
        ScriptError::UnknownMethodHint { name, candidate } => {
            lemma_mentioned(
                error_text(error),
                "unknown element method `"@,
                name,
                "` (did you mean `"@ + candidate + "`?)"@,
            );
            lemma_mentioned(
                error_text(error),
                "unknown element method `"@ + name + "` (did you mean `"@,
                candidate,
                "`?)"@,
            );
        },
        ScriptError::RegisteredSlot { method } => {
            lemma_mentioned(
                error_text(error),
                "`"@,
                method,
                "` cannot take a template argument yet; registered component methods are validated when their values are recorded"@,
            );
        },
        ScriptError::SlotElement { method } => {
            lemma_mentioned(
                error_text(error),
                Seq::empty(),
                method,
                "(element) expects an element"@,
            );
        },
        ScriptError::MousePhase { method } => {
            lemma_mentioned(
                error_text(error),
                "`"@,
                method,
                "` cannot be registered from a virtual list's item renderer: the rows are rebuilt every frame, so a handler registered there would pile up for as long as the view stood"@,
            );
        },
        ScriptError::MouseFirst { method } => {
            lemma_mentioned(
                error_text(error),
                Seq::empty(),
                method,
                "(button, handler) expects a button first: \"left\", \"right\" or \"middle\""@,
            );
        },
        ScriptError::MouseSecond { method } => {
            lemma_mentioned(
                error_text(error),
                Seq::empty(),
                method,
                "(button, handler) expects a function second"@,
            );
        },
        ScriptError::MouseButton { button } => {
            lemma_mentioned(
                error_text(error),
                "`"@,
                button,
                "` is not a mouse button; expected \"left\", \"right\" or \"middle\""@,
            );
        },
        ScriptError::HandlerPhase { method } => {
            lemma_mentioned(
                error_text(error),
                "`"@,
                method,
                "` cannot be registered from a virtual list's item renderer: the rows are rebuilt every frame, so a handler registered there would pile up for as long as the view stood. Use `on_item_click((key, cx) => ...)` or `on_item_secondary_click((key, event, cx) => ...)` on the list itself, and read the row out of your own data with the stable key it gives you"@,
            );
        },
        ScriptError::HandlerFunction { method } => {
            lemma_mentioned(
                error_text(error),
                Seq::empty(),
                method,
                "(handler) expects a function"@,
            );
        },
        ScriptError::CountNumber { method } => {
            lemma_mentioned(
                error_text(error),
                Seq::empty(),
                method,
                "(count) expects a non-negative whole finite number"@,
            );
        },
        ScriptError::UnknownRole { name } => {
            lemma_mentioned(
                error_text(error),
                "unknown accessibility role `"@,
                name,
                "`; the names mirror gpui::Role in snake_case — see the Role type in gpui-kit.d.ts"@,
            );
        },
        ScriptError::DockTarget { method } => {
            lemma_mentioned(
                error_text(error),
                Seq::empty(),
                method,
                "(...) expects the group, dock or tile its chrome handler was                              given as its first argument"@,
            );
        },
        ScriptError::StyleFunction { name } => {
            lemma_mentioned(
                error_text(error),
                "`"@,
                name,
                "` does not take a function"@,
            );
        },
        ScriptError::StyleMessage { message } => {
            lemma_mentioned(
                error_text(error),
                Seq::empty(),
                message,
                Seq::empty(),
            );
        },
        ScriptError::HostMessage { message } => {
            lemma_mentioned(
                error_text(error),
                Seq::empty(),
                message,
                Seq::empty(),
            );
        },
        ScriptError::NotComponents { base, name } => {
            lemma_mentioned(
                error_text(error),
                "Error resolving module '"@ + name + "' from '"@,
                base,
                "': not the registered component module"@,
            );
            lemma_mentioned(
                error_text(error),
                "Error resolving module '"@,
                name,
                "' from '"@ + base + "': not the registered component module"@,
            );
        },
        ScriptError::NotComponentsSource { name } => {
            lemma_mentioned(
                error_text(error),
                "Error loading module '"@,
                name,
                "': not the registered component module"@,
            );
        },
        ScriptError::StaleContext { message } => {
            lemma_mentioned(
                error_text(error),
                Seq::empty(),
                message,
                Seq::empty(),
            );
        },
        ScriptError::RestoreFailed { message, .. } => {
            lemma_mentioned(
                error_text(error),
                "failed to restore child state: "@,
                message,
                Seq::empty(),
            );
        },
        ScriptError::NeedsCall { api } => {
            lemma_mentioned(
                error_text(error),
                Seq::empty(),
                api,
                " needs a live host call; use it from init(), an event handler or a task"@,
            );
        },
        ScriptError::WrongPhase { api, phase, action } => {
            lemma_mentioned(
                error_text(error),
                Seq::empty(),
                api,
                " cannot run during "@ + phase + "; "@ + action + " retained views from init(), an event handler or a task"@,
            );
            lemma_mentioned(
                error_text(error),
                api + " cannot run during "@,
                phase,
                "; "@ + action + " retained views from init(), an event handler or a task"@,
            );
            lemma_mentioned(
                error_text(error),
                api + " cannot run during "@ + phase + "; "@,
                action,
                " retained views from init(), an event handler or a task"@,
            );
        },
        ScriptError::NoImporter { name, base } => {
            lemma_mentioned(
                error_text(error),
                "cannot identify the application importing `"@,
                name,
                "` from `"@ + base + "`"@,
            );
            lemma_mentioned(
                error_text(error),
                "cannot identify the application importing `"@ + name + "` from `"@,
                base,
                "`"@,
            );
        },
        ScriptError::UnresolvedBare { name, builtins } => {
            lemma_mentioned(
                error_text(error),
                "cannot resolve module `"@,
                name,
                "`: this runtime's built-in modules are "@ + builtins + ", and an application may otherwise import only its own files. If the script expects a module this runtime does not have, the two are different versions."@,
            );
            lemma_mentioned(
                error_text(error),
                "cannot resolve module `"@ + name + "`: this runtime's built-in modules are "@,
                builtins,
                ", and an application may otherwise import only its own files. If the script expects a module this runtime does not have, the two are different versions."@,
            );
        },
        ScriptError::Unresolved { name, base } => {
            lemma_mentioned(
                error_text(error),
                "cannot resolve module `"@,
                name,
                "` from `"@ + base + "`"@,
            );
            lemma_mentioned(
                error_text(error),
                "cannot resolve module `"@ + name + "` from `"@,
                base,
                "`"@,
            );
        },
        ScriptError::Escapes { name, boundary } => {
            lemma_mentioned(
                error_text(error),
                "module `"@,
                name,
                "` resolves outside the application directory `"@ + boundary + "`"@,
            );
            lemma_mentioned(
                error_text(error),
                "module `"@ + name + "` resolves outside the application directory `"@,
                boundary,
                "`"@,
            );
        },
        ScriptError::ModuleTooLarge { path, size, limit } => {
            lemma_mentioned(
                error_text(error),
                "module `"@,
                path,
                "` is "@ + text::decimal_text(size as nat) + " bytes, over the "@ + text::decimal_text(limit as nat) + "-byte limit"@,
            );
            lemma_mentioned(
                error_text(error),
                "module `"@ + path + "` is "@,
                text::decimal_text(size as nat),
                " bytes, over the "@ + text::decimal_text(limit as nat) + "-byte limit"@,
            );
            lemma_mentioned(
                error_text(error),
                "module `"@ + path + "` is "@ + text::decimal_text(size as nat) + " bytes, over the "@,
                text::decimal_text(limit as nat),
                "-byte limit"@,
            );
        },
        ScriptError::ModuleGrew { path, limit } => {
            lemma_mentioned(
                error_text(error),
                "module `"@,
                path,
                "` grew over the "@ + text::decimal_text(limit as nat) + "-byte limit"@,
            );
            lemma_mentioned(
                error_text(error),
                "module `"@ + path + "` grew over the "@,
                text::decimal_text(limit as nat),
                "-byte limit"@,
            );
        },
    }
}

/// Exceeding a limit is a `RangeError`; a module that is no catalog of components is a
/// `ReferenceError`; what ends a script as a whole, or was thrown or said elsewhere, is passed on as
/// an `Error`; what only the embedding application learns of is its own error. All else that a
/// script is told is a `TypeError`.
pub proof fn law_an_error_is_of_the_kind_of_its_cause(error: ScriptError<Seq<char>>, fault: Fault)
    ensures
        fault_kind(fault) == ErrorKind::Range <==> (fault is NestedTokens
            || fault is DataDepth
            || fault is DataNodes
            || fault is DataBytes
            || fault is DataKeys
            || fault is ArgumentDepth
            || fault is ArgumentNodes
            || fault is StateCapacity
            || fault is SizeRangeMinimum
            || fault is SizeRangeMaximum
            || fault is SizeRangeOrder),
        fault_kind(fault) == ErrorKind::Message <==> (fault is ShutDown
            || fault is NoRender
            || fault is NoViewClass),
        fault_kind(fault) == ErrorKind::Host <==> (fault is ShutDownCreate
            || fault is ShutDownDock
            || fault is ShutDownUpdate
            || fault is ShutDownNotify
            || fault is ShutDownRelease
            || fault is ForeignCreate
            || fault is ForeignDock
            || fault is ForeignEntity
            || fault is GoneBeforeUpdate
            || fault is GoneBeforeNotify
            || fault is GoneBeforeRelease
            || fault is GoneForUpdate
            || fault is EntityLimit
            || fault is EffectRetired
            || fault is EffectNeedsView
            || fault is StateMutablyBorrowed
            || fault is StateBorrowed
            || fault is StatePhase
            || fault is StateMissing
            || fault is StateKind
            || fault is ForeignApplication
            || fault is ApplicationMounted
            || fault is RuntimeInstalled
            || fault is StoreExhausted
            || fault is JobQueue),
        error_kind(error) == ErrorKind::Range <==> (error is ItemSizeLimit
            || (error matches ScriptError::Fixed(inner) && fault_kind(inner) == ErrorKind::Range)),
        error_kind(error) == ErrorKind::Reference <==> (error is NotComponents
            || error is NotComponentsSource),
        error_kind(error) == ErrorKind::Message <==> (error is Raised
            || error is HostMessage
            || error is NoImporter
            || error is UnresolvedBare
            || error is Unresolved
            || error is Escapes
            || (error matches ScriptError::Fixed(inner) && fault_kind(inner) == ErrorKind::Message)),
        error_kind(error) == ErrorKind::Host <==> (error is CallbackSuperseded
            || error is CallbackRetired
            || error is CallbackReleased
            || error is WindowEffectPhase
            || error is RestoreFailed
            || error is ModuleTooLarge
            || error is ModuleGrew
            || (error matches ScriptError::Fixed(inner) && fault_kind(inner) == ErrorKind::Host)),
        fault_kind(fault) != ErrorKind::Reference,
{
}

} // verus!
