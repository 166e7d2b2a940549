//! The modules that the runtime itself offers to scripts, and which module a name comes from.
use crate::error::ScriptError;
use crate::error;
use crate::text;
use vstd::prelude::*;
use vstd::string::*;

verus! {

/// A module that the runtime itself offers.
#[derive(Clone, Copy, PartialEq, Eq, Structural, Debug)]
pub enum BuiltinModule {
    /// What the toolkit and this runtime provide.
    Gpui,
    /// Another name for the same.
    GpuiAlias,
    /// Components, layout helpers and the theme.
    GpuiBase,
    /// Types that the shell shares.
    GpuiShell,
    /// The performance overlay.
    GpuiFps,
}

/// The name that a module is imported by.
pub open spec fn specifier_text(module: BuiltinModule) -> Seq<char> {
    match module {
        BuiltinModule::Gpui => "gpui-kit"@,
        BuiltinModule::GpuiAlias => "gpui"@,
        BuiltinModule::GpuiBase => "gpui-base"@,
        BuiltinModule::GpuiShell => "gpui-shell"@,
        BuiltinModule::GpuiFps => "gpui-fps"@,
    }
}

/// The toolkit's own elements and this runtime's script surface.
pub open spec fn gpui_names() -> Seq<&'static str> {
    seq![
        "View", "div", "svg", "image", "list", "uniform_list", "PathBuilder", "Background",
    ]
}

/// Components, layout helpers and the theme.
pub open spec fn gpui_base_names() -> Seq<&'static str> {
    seq![
        "h_flex", "v_flex", "Button", "Link", "Checkbox", "Switch", "Tabs", "Tab", "Progress",
        "ProgressTrack", "ProgressIndicator", "Avatar", "AvatarImage", "AvatarFallback",
        "Pagination", "pagination_items", "CalendarState", "Accordion", "AccordionItem",
        "AccordionHeader", "AccordionPanel", "AccordionTrigger", "Radio", "Toggle", "RadioGroup",
        "ToggleGroup", "Table", "TableHeader", "TableBody", "TableRow", "TableHead", "TableCell",
        "TableCaption", "h_resizable", "v_resizable", "resizable_panel", "Collapsible", "Popover",
        "HoverCard", "Popup", "Select", "Combobox", "DatePicker", "Scrollbar", "v_virtual_list",
        "h_virtual_list", "VirtualListScrollHandle", "Input", "InputState", "NumberInput",
        "Textarea", "TextView", "TextareaState", "SliderState", "Slider", "SliderTrack",
        "SliderIndicator", "SliderThumb", "OtpState", "OtpInput", "DockArea", "dock_area",
        "dock_content", "set_theme",
    ]
}

/// The performance overlay: the element, and the one that is switched on and off.
pub open spec fn gpui_fps_names() -> Seq<&'static str> {
    seq![
        "fps_monitor", "show_fps_monitor", "hide_fps_monitor", "fps_monitor_visible",
    ]
}

/// The methods that every element has besides its styles.
pub open spec fn behavior_names() -> Seq<&'static str> {
    seq![
        "on_click", "on_link_click", "on_mouse_move", "on_hover", "on_key_down", "on_key_up",
        "on_modifiers_changed", "on_mouse_down", "on_mouse_up", "on_mouse_down_out",
        "on_scroll_wheel", "on_action", "key_context", "aria_level", "keep_mounted",
        "on_item_click", "on_item_secondary_click", "on_change", "on_open_change", "on_confirm",
        "on_dismiss", "on_step", "disabled", "selectable", "scrollable", "selected", "checked",
        "accessibility_label", "tooltip", "role", "aria_selected", "aria_active_descendant",
        "tab_index", "tab_stop", "href", "id", "overflow_scroll", "overflow_x_scroll",
        "overflow_y_scroll", "overflow_scrollbar", "overflow_x_scrollbar", "overflow_y_scrollbar",
        "viewport_from_layout", "controls_right", "on_resize", "set_position", "pressed", "start",
        "value", "indeterminate", "row_count", "column_count", "open", "default_open",
        "overlay_closable", "with_item_to_measure_index",
    ]
}

/// The names that a module exports.
pub open spec fn names_of(module: BuiltinModule) -> Seq<&'static str> {
    match module {
        BuiltinModule::Gpui => gpui_names(),
        BuiltinModule::GpuiAlias => gpui_names(),
        BuiltinModule::GpuiBase => gpui_base_names(),
        BuiltinModule::GpuiShell => Seq::empty(),
        BuiltinModule::GpuiFps => gpui_fps_names(),
    }
}

/// Whether a list holds a name.
pub open spec fn names(list: Seq<&'static str>, name: Seq<char>) -> bool {
    exists|i: int| 0 <= i < list.len() && (#[trigger] list[i])@ == name
}

fn holds(list: &Vec<&'static str>, name: &str) -> (r: bool)
    ensures
        r == names(list@, name@),
{
    let mut i: usize = 0;
    while i < list.len()
        invariant
            i <= list@.len(),
            forall|j: int| 0 <= j < i ==> (#[trigger] list@[j])@ != name@,
        decreases list@.len() - i,
    {
        if text::same(list[i], name) {
            return true;
        }
        i += 1;
    }
    false
}

impl BuiltinModule {
    /// The name that the module is imported by.
    pub fn specifier(self) -> (r: &'static str)
        ensures
            r@ == specifier_text(self),
    {
        match self {
            BuiltinModule::Gpui => "gpui-kit",
            BuiltinModule::GpuiAlias => "gpui",
            BuiltinModule::GpuiBase => "gpui-base",
            BuiltinModule::GpuiShell => "gpui-shell",
            BuiltinModule::GpuiFps => "gpui-fps",
        }
    }

    /// The names that the module exports.
    pub fn names(self) -> (r: Vec<&'static str>)
        ensures
            r@ == names_of(self),
    {
        match self {
            BuiltinModule::Gpui | BuiltinModule::GpuiAlias => gpui_exports(),
            BuiltinModule::GpuiBase => gpui_base_exports(),
            BuiltinModule::GpuiShell => Vec::new(),
            BuiltinModule::GpuiFps => gpui_fps_exports(),
        }
    }
}

/// The toolkit's own elements and this runtime's script surface.
pub fn gpui_exports() -> (r: Vec<&'static str>)
    ensures
        r@ == gpui_names(),
{
    vec![
        "View", "div", "svg", "image", "list", "uniform_list", "PathBuilder", "Background",
    ]
}

/// Components, layout helpers and the theme.
pub fn gpui_base_exports() -> (r: Vec<&'static str>)
    ensures
        r@ == gpui_base_names(),
{
    vec![
        "h_flex", "v_flex", "Button", "Link", "Checkbox", "Switch", "Tabs", "Tab", "Progress",
        "ProgressTrack", "ProgressIndicator", "Avatar", "AvatarImage", "AvatarFallback",
        "Pagination", "pagination_items", "CalendarState", "Accordion", "AccordionItem",
        "AccordionHeader", "AccordionPanel", "AccordionTrigger", "Radio", "Toggle", "RadioGroup",
        "ToggleGroup", "Table", "TableHeader", "TableBody", "TableRow", "TableHead", "TableCell",
        "TableCaption", "h_resizable", "v_resizable", "resizable_panel", "Collapsible", "Popover",
        "HoverCard", "Popup", "Select", "Combobox", "DatePicker", "Scrollbar", "v_virtual_list",
        "h_virtual_list", "VirtualListScrollHandle", "Input", "InputState", "NumberInput",
        "Textarea", "TextView", "TextareaState", "SliderState", "Slider", "SliderTrack",
        "SliderIndicator", "SliderThumb", "OtpState", "OtpInput", "DockArea", "dock_area",
        "dock_content", "set_theme",
    ]
}

/// The performance overlay.
pub fn gpui_fps_exports() -> (r: Vec<&'static str>)
    ensures
        r@ == gpui_fps_names(),
{
    vec![
        "fps_monitor", "show_fps_monitor", "hide_fps_monitor", "fps_monitor_visible",
    ]
}

/// The methods that every element has besides its styles.
pub fn behaviors() -> (r: Vec<&'static str>)
    ensures
        r@ == behavior_names(),
{
    vec![
        "on_click", "on_link_click", "on_mouse_move", "on_hover", "on_key_down", "on_key_up",
        "on_modifiers_changed", "on_mouse_down", "on_mouse_up", "on_mouse_down_out",
        "on_scroll_wheel", "on_action", "key_context", "aria_level", "keep_mounted",
        "on_item_click", "on_item_secondary_click", "on_change", "on_open_change", "on_confirm",
        "on_dismiss", "on_step", "disabled", "selectable", "scrollable", "selected", "checked",
        "accessibility_label", "tooltip", "role", "aria_selected", "aria_active_descendant",
        "tab_index", "tab_stop", "href", "id", "overflow_scroll", "overflow_x_scroll",
        "overflow_y_scroll", "overflow_scrollbar", "overflow_x_scrollbar", "overflow_y_scrollbar",
        "viewport_from_layout", "controls_right", "on_resize", "set_position", "pressed", "start",
        "value", "indeterminate", "row_count", "column_count", "open", "default_open",
        "overlay_closable", "with_item_to_measure_index",
    ]
}

/// The module that a name may be imported from, the first of those that export it.
pub open spec fn exporter(name: Seq<char>) -> Option<BuiltinModule> {
    if names(gpui_names(), name) {
        Some(BuiltinModule::Gpui)
    } else if names(gpui_base_names(), name) {
        Some(BuiltinModule::GpuiBase)
    } else if names(gpui_fps_names(), name) {
        Some(BuiltinModule::GpuiFps)
    } else {
        None
    }
}

/// The name of the module that exports a name.
pub fn module_exporting(name: &str) -> (r: Option<&'static str>)
    ensures
        match (r, exporter(name@)) {
            (Some(specifier), Some(module)) => specifier@ == specifier_text(module),
            (None, None) => true,
            _ => false,
        },
{
    let gpui = gpui_exports();
    let base = gpui_base_exports();
    let fps = gpui_fps_exports();
    if holds(&gpui, name) {
        Some(BuiltinModule::Gpui.specifier())
    } else if holds(&base, name) {
        Some(BuiltinModule::GpuiBase.specifier())
    } else if holds(&fps, name) {
        Some(BuiltinModule::GpuiFps.specifier())
    } else {
        None
    }
}

/// The module that a specifier names.
pub open spec fn builtin_named(specifier: Seq<char>) -> Option<BuiltinModule> {
    if specifier == "gpui-kit"@ {
        Some(BuiltinModule::Gpui)
    } else if specifier == "gpui"@ {
        Some(BuiltinModule::GpuiAlias)
    } else if specifier == "gpui-base"@ {
        Some(BuiltinModule::GpuiBase)
    } else if specifier == "gpui-shell"@ {
        Some(BuiltinModule::GpuiShell)
    } else if specifier == "gpui-fps"@ {
        Some(BuiltinModule::GpuiFps)
    } else {
        None
    }
}

/// The module that a specifier names.
pub fn builtin_module(specifier: &str) -> (r: Option<BuiltinModule>)
    ensures
        r == builtin_named(specifier@),
{
    if text::same(specifier, "gpui-kit") {
        Some(BuiltinModule::Gpui)
    } else if text::same(specifier, "gpui") {
        Some(BuiltinModule::GpuiAlias)
    } else if text::same(specifier, "gpui-base") {
        Some(BuiltinModule::GpuiBase)
    } else if text::same(specifier, "gpui-shell") {
        Some(BuiltinModule::GpuiShell)
    } else if text::same(specifier, "gpui-fps") {
        Some(BuiltinModule::GpuiFps)
    } else {
        None
    }
}

/// The specifiers of the built-in modules and of the component catalog, for an error.
pub open spec fn specifiers_text(components: Seq<char>) -> Seq<char> {
    "`gpui-kit`, `gpui`, `gpui-base`, `gpui-shell`, `gpui-fps`, `"@ + components + "`"@
}

/// The specifiers of the built-in modules and of the component catalog, for an error.
pub fn builtin_specifiers(components: &str) -> (r: String)
    ensures
        r@ == specifiers_text(components@),
{
    text::join3(
        "`gpui-kit`, `gpui`, `gpui-base`, `gpui-shell`, `gpui-fps`, `",
        components,
        "`",
    )
}

/// What answers an import.
#[derive(Clone, Copy, PartialEq, Eq, Structural, Debug)]
pub enum ModuleSource {
    /// The catalog of registered components.
    Components,
    /// The standard runtime.
    Standard,
    /// A module that the runtime itself offers.
    Builtin(BuiltinModule),
    /// A module of the embedding application.
    Host,
    /// The importing application's own files and dependencies.
    Application,
}

/// What answers an import: the runtime's own modules before those of the embedding application, and
/// the importing application's files last. `catalog` is the name of the component catalog, if it
/// has one; `standard` and `host` tell whether those know the name.
pub open spec fn source_of(
    catalog: Option<Seq<char>>,
    standard: bool,
    host: bool,
    name: Seq<char>,
) -> ModuleSource {
    if catalog == Some(name) {
        ModuleSource::Components
    } else if standard {
        ModuleSource::Standard
    } else {
        match builtin_named(name) {
            Some(module) => ModuleSource::Builtin(module),
            None => if host {
                ModuleSource::Host
            } else {
                ModuleSource::Application
            },
        }
    }
}

/// What answers an import.
pub fn module_source(catalog: Option<&str>, standard: bool, host: bool, name: &str) -> (r:
    ModuleSource)
    ensures
        r == source_of(
            match catalog {
                Some(specifier) => Some(specifier@),
                None => None,
            },
            standard,
            host,
            name@,
        ),
{
    match catalog {
        Some(specifier) => {
            if text::same(specifier, name) {
                return ModuleSource::Components;
            }
        },
        None => {},
    }
    if standard {
        return ModuleSource::Standard;
    }
    match builtin_module(name) {
        Some(module) => ModuleSource::Builtin(module),
        None => if host {
            ModuleSource::Host
        } else {
            ModuleSource::Application
        },
    }
}

/// Where an export comes from.
#[derive(Clone, Copy, PartialEq, Eq, Structural, Debug)]
pub enum ExportOrigin {
    /// The runtime.
    Builtin,
    /// A component of the embedding application.
    Registered,
}

/// The object on which the exports of an origin are kept.
pub open spec fn table_text(origin: ExportOrigin) -> Seq<char> {
    match origin {
        ExportOrigin::Builtin => "__gpui"@,
        ExportOrigin::Registered => "__gpui_components"@,
    }
}

/// The object on which the exports of an origin are kept.
pub fn export_table(origin: ExportOrigin) -> (r: &'static str)
    ensures
        r@ == table_text(origin),
{
    match origin {
        ExportOrigin::Builtin => "__gpui",
        ExportOrigin::Registered => "__gpui_components",
    }
}

/// The exports with one more, in place of one of the same origin and name.
pub open spec fn with_export(
    exports: Map<(Seq<char>, Seq<char>), u64>,
    origin: ExportOrigin,
    name: Seq<char>,
    value: u64,
) -> Map<(Seq<char>, Seq<char>), u64> {
    exports.insert((table_text(origin), name), value)
}

/// A registered export replaces no built-in one, whatever their names, nor the other way round.
pub proof fn law_a_registered_export_replaces_no_builtin_one(
    exports: Map<(Seq<char>, Seq<char>), u64>,
    origin: ExportOrigin,
    other: ExportOrigin,
    name: Seq<char>,
    taken: Seq<char>,
    value: u64,
)
    requires
        origin != other,
        exports.contains_key((table_text(other), taken)),
    ensures
        with_export(exports, origin, name, value).contains_key((table_text(other), taken)),
        with_export(exports, origin, name, value)[(table_text(other), taken)] == exports[(
            table_text(other),
            taken,
        )],
{
    reveal_strlit("__gpui");
    reveal_strlit("__gpui_components");
    assert("__gpui"@.len() == 6);
    assert("__gpui_components"@.len() == 17);
}

/// The embedding application cannot take a built-in module's name, and an application's file cannot
/// take the name of a module of the embedding application.
pub proof fn law_the_runtime_names_its_modules_first(
    catalog: Option<Seq<char>>,
    standard: bool,
    host: bool,
    name: Seq<char>,
)
    ensures
        builtin_named(name) is Some ==> source_of(catalog, standard, host, name)
            != ModuleSource::Host && source_of(catalog, standard, host, name)
            != ModuleSource::Application,
        host ==> source_of(catalog, standard, host, name) != ModuleSource::Application,
        source_of(catalog, standard, host, name) == ModuleSource::Components <==> catalog == Some(
            name,
        ),
{
}

/// The catalog of registered components as a module: its name, which an empty catalog lacks, and
/// its text.
pub struct RegisteredComponentModule {
    pub specifier: Option<String>,
    pub source: String,
}

/// Whether a name is that of the catalog.
pub open spec fn answers_to(module: RegisteredComponentModule, name: Seq<char>) -> bool {
    module.specifier matches Some(specifier) && specifier@ == name
}

impl RegisteredComponentModule {
    fn answers(&self, name: &str) -> (r: bool)
        ensures
            r == answers_to(*self, name@),
    {
        match &self.specifier {
            Some(specifier) => text::same(specifier.as_str(), name),
            None => false,
        }
    }

    /// Resolves an import of the catalog.
    pub fn resolve(&self, base: &str, name: &str) -> (r: Result<String, ScriptError<String>>)
        ensures
            match r {
                Ok(resolved) => answers_to(*self, name@) && resolved@ == name@,
                Err(error) => !answers_to(*self, name@) && error::error_view(error) == (
                ScriptError::NotComponents { base: base@, name: name@ }),
            },
    {
        if self.answers(name) {
            Ok(name.to_owned())
        } else {
            Err(ScriptError::NotComponents { base: base.to_owned(), name: name.to_owned() })
        }
    }

    /// The text of the catalog, for its own name.
    pub fn load(&self, name: &str) -> (r: Result<&String, ScriptError<String>>)
        ensures
            match r {
                Ok(source) => answers_to(*self, name@) && source@ == self.source@,
                Err(error) => !answers_to(*self, name@) && error::error_view(error) == (
                ScriptError::NotComponentsSource { name: name@ }),
            },
    {
        if self.answers(name) {
            Ok(&self.source)
        } else {
            Err(ScriptError::NotComponentsSource { name: name.to_owned() })
        }
    }
}

proof fn lemma_specifiers_differ()
    ensures
        "gpui-kit"@ != "gpui"@,
        "gpui-kit"@ != "gpui-base"@,
        "gpui-kit"@ != "gpui-shell"@,
        "gpui-kit"@ != "gpui-fps"@,
        "gpui"@ != "gpui-base"@,
        "gpui"@ != "gpui-shell"@,
        "gpui"@ != "gpui-fps"@,
        "gpui-base"@ != "gpui-shell"@,
        "gpui-base"@ != "gpui-fps"@,
        "gpui-shell"@ != "gpui-fps"@,
{
    reveal_strlit("gpui-kit");
    assert("gpui-kit"@.len() == 8);
    reveal_strlit("gpui");
    assert("gpui"@.len() == 4);
    reveal_strlit("gpui-base");
    assert("gpui-base"@.len() == 9);
    reveal_strlit("gpui-shell");
    assert("gpui-shell"@.len() == 10);
    reveal_strlit("gpui-fps");
    assert("gpui-fps"@.len() == 8);
    assert("gpui-kit"@[5] != "gpui-fps"@[5]);
}

/// A specifier names the module that is imported by it, and no two modules are imported by one
/// specifier.
pub proof fn law_a_module_is_named_by_its_specifier(module: BuiltinModule, specifier: Seq<char>)
    ensures
        builtin_named(specifier) == Some(module) <==> specifier == specifier_text(module),
{
    lemma_specifiers_differ();
}

/// What a name is said to be imported from exports it: the import with that specifier is answered
/// by a module that has the name. A name is said to be imported from nowhere where no module has it.
pub proof fn law_a_name_is_imported_from_a_module_that_exports_it(
    name: Seq<char>,
    module: BuiltinModule,
    i: int,
)
    ensures
        exporter(name) matches Some(found) ==> {
            &&& builtin_named(specifier_text(found)) == Some(found)
            &&& exists|k: int|
                0 <= k < names_of(found).len() && (#[trigger] names_of(found)[k])@ == name
        },
        0 <= i < names_of(module).len() && names_of(module)[i]@ == name ==> exporter(name) is Some,
        names_of(BuiltinModule::GpuiAlias) == names_of(BuiltinModule::Gpui),
        names_of(BuiltinModule::GpuiShell).len() == 0,
{
    if let Some(found) = exporter(name) {
        law_a_module_is_named_by_its_specifier(found, specifier_text(found));
        assert(names(names_of(found), name));
    }
    if 0 <= i < names_of(module).len() && names_of(module)[i]@ == name {
        assert(names(names_of(module), name));
    }
}

/// Each import is answered by the first that knows its name: the catalog of components, the standard
/// modules, the runtime's own, those of the embedding application, and else the importing
/// application.
pub proof fn law_the_first_that_knows_a_name_answers(
    catalog: Option<Seq<char>>,
    standard: bool,
    host: bool,
    module: BuiltinModule,
    name: Seq<char>,
)
    ensures
        source_of(catalog, standard, host, name) == ModuleSource::Standard <==> standard && catalog
            != Some(name),
        source_of(Some(name), standard, host, name) == ModuleSource::Components,
        source_of(None, false, host, specifier_text(module)) == ModuleSource::Builtin(module),
        source_of(catalog, standard, host, name) == ModuleSource::Builtin(module) ==> name
            == specifier_text(module),
        source_of(catalog, standard, host, name) == ModuleSource::Host ==> host && !standard
            && name != specifier_text(module),
        source_of(catalog, standard, host, name) == ModuleSource::Application <==> catalog != Some(
            name,
        ) && !standard && !host && builtin_named(name) is None,
{
    lemma_specifiers_differ();
}

} // verus!
