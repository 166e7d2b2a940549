//! A script runtime: all that it keeps, and what happens to it when an application is loaded,
//! mounted and retired, and when a view is created, updated and released.
//!
//! The script engine itself belongs to the embedding application. It runs script code where a
//! function here says so, and hands the outcome to the next function.
use crate::apply::RegisteredComponent;
use crate::arena::{ArenaModel, SpecArena};
use crate::arena;
use crate::argument::RenderedRoot;
use crate::argument;
use crate::callbacks::{CallbackArena, CallbacksModel, Keep};
use crate::callbacks;
use crate::effects::{AppEffects, EffectsModel};
use crate::effects;
use crate::entities::{EntitiesModel, EntityRecord, EntityRelease, EntityStore, Released};
use crate::entities;
use crate::error::{Fault, ScriptError};
use crate::error;
use crate::modules::{AppModules, ApplicationModuleLease, Dependencies, ModulesModel};
use crate::modules;
use crate::nested::{
    ActionOutcome, FlushStep, NestedAction, NestedModel, NestedViews, ParentView, Settled, ViewOrigin,
};
use crate::nested;
use crate::path::PathStyle;
use crate::path;
use crate::render;
use crate::scope::HostScope;
use crate::scope;
use crate::secret;
use crate::states::{RetainedStates, StatesModel};
use crate::states;
use crate::tasks::{Ending, Task, Tasks, TasksModel};
use crate::tasks;
use crate::text;
use crate::textmap::TextMap;
use crate::value::ScriptValue;
use vstd::prelude::*;
use vstd::string::*;

verus! {

/// A template that a script has defined: the application it belongs to, and the number under which
/// its elements are kept.
#[derive(Clone, Copy, PartialEq, Eq, Structural, Debug)]
pub struct Template {
    pub application: Option<u64>,
    pub body: u64,
}

/// The class behind a name under which panels are restored, and on whose behalf it was registered:
/// it belongs to the application that registers it, and keeps no module loaded.
#[derive(Clone, Copy, PartialEq, Eq, Structural, Debug)]
pub struct PanelClass {
    pub class: u64,
    pub application: Option<u64>,
    pub policy: u64,
}

/// All that a runtime keeps.
#[verifier::ext_equal]
pub struct RuntimeModel {
    /// What tells the runtime from any other.
    pub identity: u32,
    /// The components that scripts can use, as they were registered.
    pub components: Seq<RegisteredComponent>,
    pub state_proof: Seq<char>,
    pub callbacks: CallbacksModel,
    pub states: StatesModel,
    pub effects: Map<u64, EffectsModel>,
    /// The deprecated exports that a script has been warned of.
    pub warned: Seq<Seq<char>>,
    pub arena: ArenaModel,
    pub templates: Seq<Option<Template>>,
    pub entities: EntitiesModel,
    pub nested: NestedModel,
    pub panels: Map<Seq<char>, PanelClass>,
    /// Whether the engine is never to be entered again.
    pub disabled: bool,
    pub modules: ModulesModel,
    /// The generation of the next application.
    pub next_generation: u64,
    /// The applications that have been loaded and not been retired.
    pub active: Seq<u64>,
    pub tasks: TasksModel,
}

/// A script runtime.
pub struct ShellRuntime {
    identity: u32,
    components: Vec<RegisteredComponent>,
    state_proof: String,
    callbacks: CallbackArena,
    states: RetainedStates,
    effects: AppEffects,
    warned: Vec<String>,
    arena: SpecArena,
    templates: Vec<Option<Template>>,
    entities: EntityStore,
    nested: NestedViews,
    panels: TextMap<PanelClass>,
    disabled: bool,
    modules: AppModules,
    next_generation: u64,
    active: Vec<u64>,
    tasks: Tasks,
}

impl View for ShellRuntime {
    type V = RuntimeModel;

    closed spec fn view(&self) -> RuntimeModel {
        RuntimeModel {
            identity: self.identity,
            components: self.components@,
            state_proof: self.state_proof@,
            callbacks: self.callbacks@,
            states: self.states@,
            effects: self.effects@,
            warned: text::texts(self.warned@),
            arena: self.arena@,
            templates: self.templates@,
            entities: self.entities@,
            nested: self.nested@,
            panels: self.panels@,
            disabled: self.disabled,
            modules: self.modules@,
            next_generation: self.next_generation,
            active: self.active@,
            tasks: self.tasks@,
        }
    }
}

/// Whether what a runtime keeps is in order.
pub open spec fn well_formed(m: RuntimeModel) -> bool {
    &&& callbacks::in_order(m.callbacks)
    &&& entities::orderly(m.entities)
    &&& tasks::numbered(m.tasks)
    &&& modules::numbered(m.modules)
    &&& m.nested.returned.len() == 0
}

/// A class whose instances are views, what keeps its module loaded, and the application it belongs
/// to.
#[derive(PartialEq, Eq, Structural, Debug)]
pub struct ViewType {
    pub class: u64,
    pub module_lease: Option<ApplicationModuleLease>,
    pub application: Option<u64>,
}

/// An instance of a view class, what keeps its module loaded, and the application it belongs to.
#[derive(PartialEq, Eq, Structural, Debug)]
pub struct ViewObject {
    pub value: u64,
    pub module_lease: Option<ApplicationModuleLease>,
    pub application: Option<u64>,
}

/// What views that an instance creates take over from it.
pub open spec fn origin_of(object: ViewObject) -> ViewOrigin {
    ViewOrigin {
        load: match object.module_lease {
            Some(lease) => Some(lease.load()),
            None => None,
        },
        application: object.application,
    }
}

impl ViewObject {
    /// What views that the instance creates take over from it.
    pub fn origin(&self) -> (r: ViewOrigin)
        ensures
            r == origin_of(*self),
    {
        let load: Option<u64> = match &self.module_lease {
            Some(lease) => Some(lease.load_number()),
            None => None,
        };
        ViewOrigin { load, application: self.application }
    }
}

/// An application that was loaded, and can be mounted once, by the runtime that loaded it.
pub struct LoadedApplication {
    pub runtime: u32,
    pub view_type: ViewType,
    pub mounted: bool,
}

/// A runtime that keeps nothing yet.
pub open spec fn empty_runtime(
    identity: u32,
    components: Seq<RegisteredComponent>,
    state_proof: Seq<char>,
    settings: RuntimeSettings,
) -> RuntimeModel {
    RuntimeModel {
        identity,
        components,
        state_proof,
        callbacks: CallbacksModel {
            entries: Seq::empty(),
            open: None,
            last_generation: 0,
            last_id: 0,
        },
        states: StatesModel {
            states: Seq::empty(),
            capacity: settings.states as nat,
            borrowed: states::Borrowed::No,
            pending: Seq::empty(),
            last_handle: 0,
        },
        effects: Map::empty(),
        warned: Seq::empty(),
        arena: arena::empty_arena(),
        templates: Seq::empty(),
        entities: EntitiesModel {
            store: identity,
            records: Seq::empty(),
            next: entities::first_handle(identity) as u64,
            limit: settings.entities as nat,
        },
        nested: NestedModel {
            pending: Seq::empty(),
            handles: Map::empty(),
            in_flight: Map::empty(),
            next_token: 0,
            flushing: false,
            initializing: Seq::empty(),
            returned: Seq::empty(),
        },
        panels: Map::empty(),
        disabled: false,
        modules: ModulesModel {
            applications: Seq::empty(),
            last_generation: 0,
            last_load: 0,
            style: settings.paths,
        },
        next_generation: 1,
        active: Seq::empty(),
        tasks: TasksModel { tasks: Seq::empty(), next: 0 },
    }
}

/// How much a runtime may retain at a time, and how paths are written.
#[derive(Clone, Copy, PartialEq, Eq, Structural, Debug)]
pub struct RuntimeSettings {
    pub states: usize,
    pub entities: usize,
    pub paths: PathStyle,
}

/// Whether a runtime is new: it keeps nothing but a proof that no script can make up.
pub open spec fn is_new(
    m: RuntimeModel,
    identity: u32,
    components: Seq<RegisteredComponent>,
    settings: RuntimeSettings,
) -> bool {
    exists|first: u64, second: u64|
        m == empty_runtime(
            identity,
            components,
            #[trigger] secret::proof_text(first, second),
            settings,
        )
}

/// A result, or the error that comes first.
pub open spec fn and_outcome<T, E>(first: Result<(), E>, second: Result<T, E>) -> Result<T, E> {
    match first {
        Ok(()) => second,
        Err(error) => Err(error),
    }
}

fn and<T>(first: Result<(), ScriptError<String>>, second: Result<T, ScriptError<String>>) -> (r:
    Result<T, ScriptError<String>>)
    ensures
        r == and_outcome(first, second),
{
    match first {
        Ok(()) => second,
        Err(error) => Err(error),
    }
}

/// The runtime that was made the default one last. It is named, not kept: once it is gone there is
/// none.
pub struct RuntimeGlobal {
    runtime: Option<u32>,
}

impl View for RuntimeGlobal {
    type V = Option<u32>;

    closed spec fn view(&self) -> Option<u32> {
        self.runtime
    }
}

/// The default runtime, which is the one made so last while that exists.
pub open spec fn default_runtime(held: Option<u32>, live: bool) -> Option<u32> {
    if live {
        held
    } else {
        None
    }
}

impl RuntimeGlobal {
    /// No runtime has been the default one.
    pub fn empty() -> (r: Self)
        ensures
            r@ is None,
    {
        RuntimeGlobal { runtime: None }
    }

    /// Makes a runtime the default one.
    pub fn set_global(&mut self, runtime: u32)
        ensures
            final(self)@ == Some(runtime),
    {
        self.runtime = Some(runtime);
    }

    /// The default runtime. `live` tells whether the one made so last still exists.
    pub fn global(&self, live: bool) -> (r: Option<u32>)
        ensures
            r == default_runtime(self@, live),
    {
        if live {
            self.runtime
        } else {
            None
        }
    }
}

/// A runtime is the default one for as long as it exists, whatever else happens, and no longer: once
/// it is gone another can be made the default one.
pub proof fn law_the_default_runtime_is_not_kept(runtime: u32, existing: Set<u32>)
    ensures
        existing.contains(runtime) ==> default_runtime(
            Some(runtime),
            existing.contains(runtime),
        ) == Some(runtime),
        !existing.contains(runtime) ==> default_runtime(
            Some(runtime),
            existing.contains(runtime),
        ) is None,
{
}

impl ShellRuntime {
    /// Makes a runtime. `store` is the identity under which its entities are kept; there is none
    /// where identities have run out.
    pub fn new_isolated_with_components_and_dependency_store(
        components: Vec<RegisteredComponent>,
        store: Option<u32>,
        settings: RuntimeSettings,
    ) -> (r: Result<Self, Fault>)
        ensures
            match r {
                Ok(runtime) => {
                    &&& store is Some
                    &&& is_new(runtime@, store->Some_0, components@, settings)
                    &&& well_formed(runtime@)
                },
                Err(fault) => store is None && fault == Fault::StoreExhausted,
            },
    {
        let identity: u32 = match store {
            Some(identity) => identity,
            None => {
                return Err(Fault::StoreExhausted);
            },
        };
        let state_proof = secret::random_component_state_proof();
        let runtime = ShellRuntime {
            identity,
            components,
            state_proof,
            callbacks: CallbackArena::new(),
            states: RetainedStates::new(settings.states),
            effects: AppEffects::new(),
            warned: Vec::new(),
            arena: SpecArena::new(),
            templates: Vec::new(),
            entities: EntityStore::new(identity, settings.entities),
            nested: NestedViews::new(),
            panels: TextMap::new(),
            disabled: false,
            modules: AppModules::new(settings.paths),
            next_generation: 1,
            active: Vec::new(),
            tasks: Tasks::new(),
        };
        proof {
            let (first, second) = choose|first: u64, second: u64|
                runtime.state_proof@ == #[trigger] secret::proof_text(first, second);
            assert(runtime@ =~= empty_runtime(
                identity,
                components@,
                secret::proof_text(first, second),
                settings,
            ));
        }
        Ok(runtime)
    }

    /// Makes a runtime that is not the default one, with components of the embedding application.
    pub fn new_isolated_with_components(
        components: Vec<RegisteredComponent>,
        store: Option<u32>,
        settings: RuntimeSettings,
    ) -> (r: Result<Self, Fault>)
        ensures
            match r {
                Ok(runtime) => {
                    &&& store is Some
                    &&& is_new(runtime@, store->Some_0, components@, settings)
                    &&& well_formed(runtime@)
                },
                Err(fault) => store is None && fault == Fault::StoreExhausted,
            },
    {
        Self::new_isolated_with_components_and_dependency_store(components, store, settings)
    }

    /// Makes a runtime that is not the default one.
    pub fn new_isolated(store: Option<u32>, settings: RuntimeSettings) -> (r: Result<Self, Fault>)
        ensures
            match r {
                Ok(runtime) => {
                    &&& store is Some
                    &&& is_new(runtime@, store->Some_0, Seq::empty(), settings)
                    &&& well_formed(runtime@)
                },
                Err(fault) => store is None && fault == Fault::StoreExhausted,
            },
    {
        Self::new_isolated_with_components_and_dependency_store(Vec::new(), store, settings)
    }

    /// Makes the default runtime, with components of the embedding application. `live` tells whether
    /// the runtime that was the default one last still exists; while it does, it stays so.
    pub fn new_with_components(
        global: &mut RuntimeGlobal,
        live: bool,
        components: Vec<RegisteredComponent>,
        store: Option<u32>,
        settings: RuntimeSettings,
    ) -> (r: Result<Self, Fault>)
        ensures
            match r {
                Ok(runtime) => {
                    &&& default_runtime(old(global)@, live) is None
                    &&& store is Some
                    &&& is_new(runtime@, store->Some_0, components@, settings)
                    &&& well_formed(runtime@)
                    &&& final(global)@ == Some(runtime@.identity)
                },
                Err(fault) => {
                    &&& final(global)@ == old(global)@
                    &&& if default_runtime(old(global)@, live) is Some {
                        fault == Fault::RuntimeInstalled
                    } else {
                        store is None && fault == Fault::StoreExhausted
                    }
                },
            },
    {
        if global.global(live).is_some() {
            return Err(Fault::RuntimeInstalled);
        }
        match Self::new_isolated_with_components(components, store, settings) {
            Ok(runtime) => {
                global.set_global(runtime.identity);
                Ok(runtime)
            },
            Err(fault) => Err(fault),
        }
    }

    /// Makes the default runtime.
    pub fn new(
        global: &mut RuntimeGlobal,
        live: bool,
        store: Option<u32>,
        settings: RuntimeSettings,
    ) -> (r: Result<Self, Fault>)
        ensures
            match r {
                Ok(runtime) => {
                    &&& default_runtime(old(global)@, live) is None
                    &&& store is Some
                    &&& is_new(runtime@, store->Some_0, Seq::empty(), settings)
                    &&& well_formed(runtime@)
                    &&& final(global)@ == Some(runtime@.identity)
                },
                Err(fault) => {
                    &&& final(global)@ == old(global)@
                    &&& if default_runtime(old(global)@, live) is Some {
                        fault == Fault::RuntimeInstalled
                    } else {
                        store is None && fault == Fault::StoreExhausted
                    }
                },
            },
    {
        Self::new_with_components(global, live, Vec::new(), store, settings)
    }

    /// The components that scripts can use.
    pub fn component_registry(&self) -> (r: &Vec<RegisteredComponent>)
        ensures
            r@ == self@.components,
    {
        &self.components
    }

    /// The proof that a handle to a component state was made by this runtime.
    pub fn component_state_proof(&self) -> (r: &str)
        ensures
            r@ == self@.state_proof,
    {
        self.state_proof.as_str()
    }

    /// The functions that descriptions refer to.
    pub fn callbacks(&self) -> (r: &CallbackArena)
        ensures
            r@ == self@.callbacks,
    {
        &self.callbacks
    }

    /// The views that scripts create.
    pub fn nested(&self) -> (r: &NestedViews)
        ensures
            r@ == self@.nested,
    {
        &self.nested
    }
}

/// The functions without those of some views.
pub open spec fn without_views(m: CallbacksModel, views: Seq<u64>) -> CallbacksModel
    decreases views.len(),
{
    if views.len() == 0 {
        m
    } else {
        let before = without_views(m, views.drop_last());
        CallbacksModel {
            entries: callbacks::kept(before.entries, Keep::OtherViews(views.last())),
            ..before
        }
    }
}

/// The tasks without those of some views.
pub open spec fn without_view_tasks(m: TasksModel, views: Seq<u64>) -> TasksModel
    decreases views.len(),
{
    if views.len() == 0 {
        m
    } else {
        tasks::ended(without_view_tasks(m, views.drop_last()), Ending::View(views.last()))
    }
}

/// The state after entities were released: no token stands for them any more, and the functions and
/// tasks of the views among them are gone.
pub open spec fn entities_released(m: RuntimeModel, release: EntityRelease) -> RuntimeModel {
    let records = m.entities.records;
    let views = entities::gone_views(records, release);
    RuntimeModel {
        entities: entities::released(m.entities, release),
        nested: nested::purged(m.nested, entities::gone(records, release)),
        callbacks: without_views(m.callbacks, views),
        tasks: without_view_tasks(m.tasks, views),
        ..m
    }
}

/// The templates after an application was retired: its own are empty, and every other keeps its
/// place.
pub open spec fn templates_retired(
    templates: Seq<Option<Template>>,
    application: u64,
) -> Seq<Option<Template>> {
    templates.map_values(
        |template: Option<Template>|
            match template {
                Some(defined) => if defined.application == Some(application) {
                    None
                } else {
                    template
                },
                None => None,
            },
    )
}

/// The applications without one.
pub open spec fn inactive(active: Seq<u64>, application: u64) -> Seq<u64>
    decreases active.len(),
{
    if active.len() == 0 {
        Seq::empty()
    } else {
        let before = inactive(active.drop_last(), application);
        if active.last() == application {
            before
        } else {
            before.push(active.last())
        }
    }
}

/// The state after an application was retired: it is not active any more, and its component states,
/// entities, tasks and templates are gone. What it has installed stays.
pub open spec fn application_released(m: RuntimeModel, application: u64) -> RuntimeModel {
    let after = entities_released(
        RuntimeModel { states: states::released(m.states, application), ..m },
        EntityRelease::Application(application),
    );
    RuntimeModel {
        tasks: tasks::ended(after.tasks, Ending::Application(application)),
        templates: templates_retired(after.templates, application),
        active: inactive(after.active, application),
        ..after
    }
}

/// The state after an application was retired, and what it has installed is taken out too.
pub open spec fn application_retired(m: RuntimeModel, application: u64) -> RuntimeModel {
    application_released(RuntimeModel { effects: m.effects.remove(application), ..m }, application)
}

/// Where a change began that may have to be undone.
#[derive(Clone, Copy, PartialEq, Eq, Structural, Debug)]
pub struct RetainedCheckpoint {
    pub entities: u64,
    pub tasks: u64,
}

/// The state after a change was undone: what was retained and started since is gone.
pub open spec fn rolled_back(m: RuntimeModel, checkpoint: RetainedCheckpoint) -> RuntimeModel {
    entities_released(
        RuntimeModel {
            tasks: tasks::ended(m.tasks, Ending::Since(checkpoint.tasks)),
            ..m
        },
        EntityRelease::Since(checkpoint.entities),
    )
}

/// The state after the view behind a handle was released, and whether there was one.
pub open spec fn view_released(m: RuntimeModel, handle: u64) -> (RuntimeModel, bool) {
    if entities::view_of(m.entities.records, handle) is Some {
        (entities_released(m, EntityRelease::Handle(handle)), true)
    } else {
        (m, false)
    }
}

proof fn lemma_without_views_in_order(m: CallbacksModel, views: Seq<u64>)
    requires
        callbacks::in_order(m),
    ensures
        callbacks::in_order(without_views(m, views)),
    decreases views.len(),
{
    if views.len() > 0 {
        lemma_without_views_in_order(m, views.drop_last());
        callbacks::lemma_kept_in_order(
            without_views(m, views.drop_last()),
            Keep::OtherViews(views.last()),
        );
    }
}

proof fn lemma_without_view_tasks_numbered(m: TasksModel, views: Seq<u64>)
    requires
        tasks::numbered(m),
    ensures
        tasks::numbered(without_view_tasks(m, views)),
    decreases views.len(),
{
    if views.len() > 0 {
        lemma_without_view_tasks_numbered(m, views.drop_last());
        tasks::lemma_ended_numbered(
            without_view_tasks(m, views.drop_last()),
            Ending::View(views.last()),
        );
    }
}

/// Releasing entities leaves a runtime in order.
pub proof fn lemma_released_well_formed(m: RuntimeModel, release: EntityRelease)
    requires
        well_formed(m),
    ensures
        well_formed(entities_released(m, release)),
{
    let views = entities::gone_views(m.entities.records, release);
    lemma_without_views_in_order(m.callbacks, views);
    lemma_without_view_tasks_numbered(m.tasks, views);
    entities::lemma_released_orderly(m.entities, release);
}

/// Retiring an application leaves a runtime in order.
pub proof fn lemma_application_released_well_formed(m: RuntimeModel, application: u64)
    requires
        well_formed(m),
    ensures
        well_formed(application_released(m, application)),
{
    let before = RuntimeModel { states: states::released(m.states, application), ..m };
    lemma_released_well_formed(before, EntityRelease::Application(application));
    tasks::lemma_ended_numbered(
        entities_released(before, EntityRelease::Application(application)).tasks,
        Ending::Application(application),
    );
}

impl ShellRuntime {
    /// Releases entities with all that belongs to them; gives the handles and views released.
    fn release_entities(&mut self, release: EntityRelease) -> (r: Released)
        requires
            well_formed(old(self)@),
        ensures
            final(self)@ == entities_released(old(self)@, release),
            well_formed(final(self)@),
            entities::takes(r, old(self)@.entities.records, release),
    {
        proof {
            lemma_released_well_formed(self@, release);
        }
        let ghost before = self@;
        let released = self.entities.release(release);
        self.nested.purge_released_view_aliases(&released.handles);
        let ghost views = released.views@;
        let mut i: usize = 0;
        assert(views.take(0) =~= Seq::empty());
        while i < released.views.len()
            invariant
                i <= views.len(),
                views == released.views@,
                callbacks::in_order(before.callbacks),
                callbacks::in_order(self@.callbacks),
                self@ == (RuntimeModel {
                    entities: entities::released(before.entities, release),
                    nested: nested::purged(
                        before.nested,
                        entities::gone(before.entities.records, release),
                    ),
                    callbacks: without_views(before.callbacks, views.take(i as int)),
                    tasks: without_view_tasks(before.tasks, views.take(i as int)),
                    ..before
                }),
            decreases views.len() - i,
        {
            assert(views.take(i + 1).drop_last() =~= views.take(i as int));
            assert(views.take(i + 1).last() == views[i as int]);
            self.callbacks.retire_view_callbacks(released.views[i]);
            self.tasks.cancel_view_tasks(released.views[i]);
            i += 1;
        }
        assert(views.take(i as int) =~= views);
        released
    }

    /// Releases the view behind a handle, with all that it owns; tells whether there was one.
    pub fn release_view_handle(&mut self, handle: u64) -> (r: bool)
        requires
            well_formed(old(self)@),
        ensures
            (final(self)@, r) == view_released(old(self)@, handle),
            well_formed(final(self)@),
    {
        if self.entities.view_behind(handle).is_none() {
            return false;
        }
        let _released = self.release_entities(EntityRelease::Handle(handle));
        true
    }

    /// Retires an application where there is nothing to take out with: its component states,
    /// entities, tasks and templates are gone, and what it has installed waits for its view.
    pub fn release_application_generation_without_context(&mut self, application: u64)
        requires
            well_formed(old(self)@),
        ensures
            final(self)@ == application_released(old(self)@, application),
            well_formed(final(self)@),
    {
        let ghost before = self@;
        proof {
            lemma_application_released_well_formed(before, application);
        }
        self.states.release_component_states(application);
        let ghost middle = self@;
        let _released = self.release_entities(EntityRelease::Application(application));
        let ghost after = self@;
        self.tasks.cancel_application_tasks(application);
        self.retire_templates(application);
        self.deactivate(application);
        assert(self@ =~= application_released(before, application));
    }

    /// An application is not active any more.
    fn deactivate(&mut self, application: u64)
        ensures
            final(self)@ == (RuntimeModel {
                active: inactive(old(self)@.active, application),
                ..old(self)@
            }),
    {
        let ghost all = self.active@;
        let mut active: Vec<u64> = Vec::new();
        let mut i: usize = 0;
        assert(all.take(0) =~= Seq::empty());
        while i < self.active.len()
            invariant
                i <= self.active@.len(),
                all == self.active@,
                active@ == inactive(all.take(i as int), application),
            decreases self.active@.len() - i,
        {
            assert(all.take(i + 1).drop_last() =~= all.take(i as int));
            assert(all.take(i + 1).last() == all[i as int]);
            if self.active[i] != application {
                active.push(self.active[i]);
            }
            i += 1;
        }
        assert(all.take(i as int) =~= all);
        self.active = active;
    }

    /// Whether an application has been loaded and not been retired.
    pub fn is_active(&self, application: u64) -> (r: bool)
        ensures
            r == self@.active.contains(application),
    {
        nested::holds(&self.active, application)
    }

    /// The applications that have been loaded and not been retired.
    pub fn active_applications(&self) -> (r: &Vec<u64>)
        ensures
            r@ == self@.active,
    {
        &self.active
    }

    /// Empties the templates of an application.
    fn retire_templates(&mut self, application: u64)
        ensures
            final(self)@ == (RuntimeModel {
                templates: templates_retired(old(self)@.templates, application),
                ..old(self)@
            }),
    {
        let ghost before = self.templates@;
        let mut templates: Vec<Option<Template>> = Vec::new();
        let mut i: usize = 0;
        while i < self.templates.len()
            invariant
                i <= self.templates@.len(),
                before == self.templates@,
                templates@.len() == i,
                forall|j: int|
                    0 <= j < i ==> #[trigger] templates@[j] == templates_retired(
                        before,
                        application,
                    )[j],
            decreases self.templates@.len() - i,
        {
            let kept = match self.templates[i] {
                Some(defined) => if defined.application == Some(application) {
                    None
                } else {
                    Some(defined)
                },
                None => None,
            };
            templates.push(kept);
            i += 1;
        }
        assert(templates@ =~= templates_retired(before, application));
        self.templates = templates;
    }

    /// Retires an application; gives what is to be run to take out what it has installed.
    /// `view_exists` tells whether the root view is still there: if not, that has been run.
    pub fn release_application_generation(&mut self, application: u64, view_exists: bool) -> (r: Vec<
        u64,
    >)
        requires
            well_formed(old(self)@),
        ensures
            final(self)@ == application_retired(old(self)@, application),
            well_formed(final(self)@),
            if old(self)@.effects.contains_key(application) && view_exists {
                effects::all_cleanups(r@, old(self)@.effects[application].installed)
            } else {
                r@.len() == 0
            },
    {
        let cleanups = self.effects.retire_component_app_effects(application, view_exists);
        self.release_application_generation_without_context(application);
        cleanups
    }

    /// A point to go back to.
    pub fn checkpoint(&self) -> (r: RetainedCheckpoint)
        ensures
            r == (RetainedCheckpoint {
                entities: self@.entities.next,
                tasks: self@.tasks.next,
            }),
    {
        RetainedCheckpoint {
            entities: self.entities.checkpoint(),
            tasks: self.tasks.checkpoint_runtime_tasks(),
        }
    }

    /// Undoes a change: ends what was started since, and releases what was retained since.
    pub fn rollback_retained_since(&mut self, checkpoint: RetainedCheckpoint)
        requires
            well_formed(old(self)@),
        ensures
            final(self)@ == rolled_back(old(self)@, checkpoint),
            well_formed(final(self)@),
    {
        proof {
            tasks::lemma_ended_numbered(self@.tasks, Ending::Since(checkpoint.tasks));
        }
        self.tasks.rollback_runtime_tasks(checkpoint.tasks);
        let _released = self.release_entities(EntityRelease::Since(checkpoint.entities));
    }
}

/// An application whose modules are registered and whose entry has not been run yet: its
/// generation, what keeps its modules loaded, the entry's file, and the name under which the entry
/// is run. The name carries the generation of the modules, so that a reload does not run a copy
/// that the engine has kept.
pub struct LoadingApplication {
    pub application: u64,
    pub lease: ApplicationModuleLease,
    pub entry: String,
    pub module_name: String,
}

/// The name under which a file of some generation is run.
pub open spec fn module_name(file: Seq<char>, generation: u32) -> Seq<char> {
    file + "?v="@ + text::decimal_text(generation as nat)
}

/// The state after the modules of an application were registered.
pub open spec fn load_begun(
    m: RuntimeModel,
    root: Seq<char>,
    dependencies: Seq<modules::Dependency<Seq<char>>>,
) -> RuntimeModel {
    RuntimeModel {
        modules: modules::registered(m.modules, root, dependencies),
        next_generation: (m.next_generation + 1) as u64,
        active: m.active.push(m.next_generation),
        ..m
    }
}

/// The state after a lease was given back, if there was one.
pub open spec fn lease_returned(
    m: RuntimeModel,
    lease: Option<ApplicationModuleLease>,
) -> RuntimeModel {
    match lease {
        Some(lease) => RuntimeModel {
            modules: modules::given_back(m.modules, lease.load()),
            ..m
        },
        None => m,
    }
}

/// The state after one more lease was taken of a load, if there was one.
pub open spec fn lease_shared(
    m: RuntimeModel,
    lease: Option<ApplicationModuleLease>,
) -> RuntimeModel {
    match lease {
        Some(lease) => RuntimeModel { modules: modules::shared(m.modules, lease.load()), ..m },
        None => m,
    }
}

/// The state after the leases of requests that are over were given back.
pub open spec fn leases_settled(m: RuntimeModel) -> RuntimeModel {
    RuntimeModel {
        modules: modules::all_given_back(m.modules, m.nested.returned),
        nested: NestedModel { returned: Seq::empty(), ..m.nested },
        ..m
    }
}

/// Whether the default export of an entry can be a view class.
pub open spec fn view_class(exported: Result<ScriptValue, ScriptError<String>>) -> Result<
    (),
    ScriptError<Seq<char>>,
> {
    match exported {
        Err(error) => Err(error::error_view(error)),
        Ok(ScriptValue::Object(_)) => Ok(()),
        Ok(ScriptValue::Function(_)) => Ok(()),
        Ok(ScriptValue::Array { .. }) => Ok(()),
        Ok(ScriptValue::TooLong(_)) => Ok(()),
        Ok(ScriptValue::Raised(message)) => Err(ScriptError::Raised { message: message@ }),
        Ok(_) => Err(ScriptError::Fixed(Fault::NoViewClass)),
    }
}

/// Whether the default export of an entry can be a view class.
fn check_view_class(exported: Result<ScriptValue, ScriptError<String>>) -> (r: Result<
    (),
    ScriptError<String>,
>)
    ensures
        error::outcome_view(r) == view_class(exported),
{
    match exported {
        Err(error) => Err(error),
        Ok(value) => match value {
            ScriptValue::Object(_) => Ok(()),
            ScriptValue::Function(_) => Ok(()),
            ScriptValue::Array { .. } | ScriptValue::TooLong(_) => Ok(()),
            ScriptValue::Raised(message) => Err(ScriptError::Raised { message }),
            _ => Err(ScriptError::Fixed(Fault::NoViewClass)),
        },
    }
}

/// What a request to mount an application answers.
pub open spec fn mounting(runtime: u32, application: LoadedApplication) -> Result<(), Fault> {
    if application.runtime != runtime {
        Err(Fault::ForeignApplication)
    } else if application.mounted {
        Err(Fault::ApplicationMounted)
    } else {
        Ok(())
    }
}

/// Whether a value can be the class of a new view.
pub open spec fn nested_class(value: ScriptValue) -> Result<(), Fault> {
    match value {
        ScriptValue::Object(_) | ScriptValue::Function(_) => Ok(()),
        ScriptValue::Array { .. } | ScriptValue::TooLong(_) => Ok(()),
        _ => Err(Fault::NestedClass),
    }
}

/// Refuses what cannot be the class of a new view.
pub fn check_nested_class(value: &ScriptValue) -> (r: Result<(), Fault>)
    ensures
        r == nested_class(*value),
{
    match value {
        ScriptValue::Object(_) | ScriptValue::Function(_) => Ok(()),
        ScriptValue::Array { .. } | ScriptValue::TooLong(_) => Ok(()),
        _ => Err(Fault::NestedClass),
    }
}

impl ShellRuntime {
    /// Whether the generations have not run out, so that another application can be loaded.
    pub fn can_load(&self) -> (r: bool)
        ensures
            r == (self@.next_generation < u64::MAX && self@.modules.last_load < u64::MAX),
    {
        self.next_generation < u64::MAX && self.modules.can_register()
    }

    /// Registers the modules of an application under a new generation. `root` is its directory.
    pub fn load_app(&mut self, root: &str, entry: &str, dependencies: Dependencies) -> (r:
        LoadingApplication)
        requires
            well_formed(old(self)@),
            old(self)@.next_generation < u64::MAX,
            old(self)@.modules.last_load < u64::MAX,
        ensures
            final(self)@ == load_begun(old(self)@, root@, dependencies@),
            well_formed(final(self)@),
            r.application == old(self)@.next_generation,
            r.lease == modules::lease_on(
                final(self)@.modules.last_load,
                final(self)@.modules.last_generation,
            ),
            r.entry@ == path::join_text(root@, entry@, old(self)@.modules.style),
            r.module_name@ == module_name(r.entry@, r.lease.tag()),
    {
        proof {
            modules::law_a_new_load_has_one_holder(self@.modules, root@, dependencies@, 0);
        }
        let style = self.modules.path_style();
        let lease = self.modules.register_with_dependencies(root.to_owned(), dependencies);
        let application: u64 = self.next_generation;
        self.next_generation = application + 1;
        self.active.push(application);
        let entry = path::path_join(root, entry, style);
        let number = text::decimal(lease.generation() as u64);
        let module_name = text::join3(entry.as_str(), "?v=", number.as_str());
        LoadingApplication { application, lease, entry, module_name }
    }

    /// The entry of an application cannot be read: its modules are not needed.
    pub fn abandon_load(&mut self, loading: LoadingApplication)
        requires
            well_formed(old(self)@),
        ensures
            final(self)@ == lease_returned(old(self)@, Some(loading.lease)),
            well_formed(final(self)@),
    {
        self.give_back_lease(Some(loading.lease));
    }

    /// Gives a lease back, if there is one.
    fn give_back_lease(&mut self, lease: Option<ApplicationModuleLease>)
        requires
            well_formed(old(self)@),
        ensures
            final(self)@ == lease_returned(old(self)@, lease),
            well_formed(final(self)@),
    {
        match lease {
            Some(lease) => {
                proof {
                    modules::lemma_leases_keep_numbers(self@.modules, lease.load());
                }
                self.modules.release(lease);
            },
            None => {},
        }
    }

    /// A view class is not needed any more, and its lease is given back.
    pub fn drop_view_type(&mut self, view_type: ViewType)
        requires
            well_formed(old(self)@),
        ensures
            final(self)@ == lease_returned(old(self)@, view_type.module_lease),
            well_formed(final(self)@),
    {
        self.give_back_lease(view_type.module_lease);
    }

    /// An instance is not needed any more, and its lease is given back.
    pub fn drop_view_object(&mut self, object: ViewObject)
        requires
            well_formed(old(self)@),
        ensures
            final(self)@ == lease_returned(old(self)@, object.module_lease),
            well_formed(final(self)@),
    {
        self.give_back_lease(object.module_lease);
    }

    /// Whether one more may hold the lease of any load.
    pub fn can_share(&self) -> (r: bool)
        ensures
            r == modules::countable(self@.modules),
    {
        self.modules.can_share()
    }

    /// An instance of a view class, which holds a lease of its own.
    pub fn make_view_object(&mut self, view_type: &ViewType, value: u64) -> (r: ViewObject)
        requires
            well_formed(old(self)@),
            modules::countable(old(self)@.modules),
        ensures
            final(self)@ == lease_shared(old(self)@, view_type.module_lease),
            well_formed(final(self)@),
            r == (ViewObject {
                value,
                module_lease: view_type.module_lease,
                application: view_type.application,
            }),
    {
        let module_lease = match &view_type.module_lease {
            Some(lease) => {
                proof {
                    modules::lemma_leases_keep_numbers(self@.modules, lease.load());
                }
                Some(self.modules.share(lease))
            },
            None => None,
        };
        ViewObject { value, module_lease, application: view_type.application }
    }

    /// Gives back the leases of requests that are over.
    fn settle_leases(&mut self)
        requires
            modules::numbered(old(self)@.modules),
        ensures
            final(self)@ == leases_settled(old(self)@),
            modules::numbered(final(self)@.modules),
    {
        proof {
            modules::lemma_all_given_back_numbered(self@.modules, self@.nested.returned);
        }
        let returned = self.nested.take_returned();
        self.modules.release_all(returned);
    }

    /// The entry of an application has been run: `exported` is its default export, which the
    /// embedding application keeps under the number `class`. Where it is no class, the application
    /// is retired.
    pub fn load_application(
        &mut self,
        loading: LoadingApplication,
        exported: Result<ScriptValue, ScriptError<String>>,
        class: u64,
    ) -> (r: Result<LoadedApplication, ScriptError<String>>)
        requires
            well_formed(old(self)@),
        ensures
            well_formed(final(self)@),
            match view_class(exported) {
                Ok(()) => {
                    &&& final(self)@ == old(self)@
                    &&& r matches Ok(loaded)
                    &&& loaded.runtime == old(self)@.identity
                    &&& !loaded.mounted
                    &&& loaded.view_type.class == class
                    &&& loaded.view_type.module_lease == Some(loading.lease)
                    &&& loaded.view_type.application == Some(loading.application)
                },
                Err(expected) => {
                    &&& final(self)@ == lease_returned(
                        application_released(old(self)@, loading.application),
                        Some(loading.lease),
                    )
                    &&& r matches Err(error)
                    &&& error::error_view(error) == expected
                },
            },
    {
        match check_view_class(exported) {
            Ok(()) => Ok(
                LoadedApplication {
                    runtime: self.identity,
                    view_type: ViewType {
                        class,
                        module_lease: Some(loading.lease),
                        application: Some(loading.application),
                    },
                    mounted: false,
                },
            ),
            Err(error) => {
                self.release_application_generation_without_context(loading.application);
                self.give_back_lease(Some(loading.lease));
                Err(error)
            },
        }
    }

    /// Takes an application to be mounted. A runtime that did not load it leaves it as it is; the
    /// one that did takes it once, whatever comes of it.
    pub fn mount_application(&self, application: &mut LoadedApplication) -> (r: Result<(), Fault>)
        ensures
            r == mounting(self@.identity, *old(application)),
            final(application).mounted == (old(application).mounted || r is Ok),
            final(application).runtime == old(application).runtime,
            final(application).view_type == old(application).view_type,
    {
        if application.runtime != self.identity {
            return Err(Fault::ForeignApplication);
        }
        if application.mounted {
            return Err(Fault::ApplicationMounted);
        }
        application.mounted = true;
        Ok(())
    }
}

/// What comes of a start that failed: the error, and what is to be run to take out what the
/// application has installed.
pub struct FailedStart {
    pub error: ScriptError<String>,
    pub cleanups: Vec<u64>,
}

/// The state after a view of an application failed to start: the application is retired.
pub open spec fn start_failed(m: RuntimeModel, application: Option<u64>) -> RuntimeModel {
    match application {
        Some(application) => application_retired(m, application),
        None => m,
    }
}

/// Whether this is all that is to be run for a failed start.
pub open spec fn start_cleanups(
    cleanups: Seq<u64>,
    m: RuntimeModel,
    application: Option<u64>,
    view_exists: bool,
) -> bool {
    match application {
        Some(application) => if m.effects.contains_key(application) && view_exists {
            effects::all_cleanups(cleanups, m.effects[application].installed)
        } else {
            cleanups.len() == 0
        },
        None => cleanups.len() == 0,
    }
}

impl ShellRuntime {
    fn fail_start(
        &mut self,
        application: Option<u64>,
        view_exists: bool,
        error: ScriptError<String>,
    ) -> (r: FailedStart)
        requires
            well_formed(old(self)@),
        ensures
            final(self)@ == start_failed(old(self)@, application),
            well_formed(final(self)@),
            r.error == error,
            start_cleanups(r.cleanups@, old(self)@, application, view_exists),
    {
        match application {
            Some(application) => {
                let cleanups = self.release_application_generation(application, view_exists);
                FailedStart { error, cleanups }
            },
            None => FailedStart { error, cleanups: Vec::new() },
        }
    }

    /// An instance of a view class has been constructed, or not: then the application is retired.
    pub fn construct(
        &mut self,
        view_type: &ViewType,
        view_exists: bool,
        constructed: Result<u64, ScriptError<String>>,
    ) -> (r: Result<ViewObject, FailedStart>)
        requires
            well_formed(old(self)@),
            modules::countable(old(self)@.modules),
        ensures
            well_formed(final(self)@),
            match constructed {
                Ok(value) => {
                    &&& final(self)@ == lease_shared(old(self)@, view_type.module_lease)
                    &&& r matches Ok(object)
                    &&& object == (ViewObject {
                        value,
                        module_lease: view_type.module_lease,
                        application: view_type.application,
                    })
                },
                Err(error) => {
                    &&& final(self)@ == start_failed(old(self)@, view_type.application)
                    &&& r matches Err(failed)
                    &&& failed.error == error
                    &&& start_cleanups(
                        failed.cleanups@,
                        old(self)@,
                        view_type.application,
                        view_exists,
                    )
                },
            },
    {
        match constructed {
            Ok(value) => Ok(self.make_view_object(view_type, value)),
            Err(error) => Err(self.fail_start(view_type.application, view_exists, error)),
        }
    }

    /// A view's `init` is about to run: what it creates belongs with it.
    pub fn begin_initialize(&mut self, origin: ViewOrigin)
        requires
            well_formed(old(self)@),
        ensures
            final(self)@ == (RuntimeModel {
                nested: NestedModel {
                    initializing: old(self)@.nested.initializing.push(origin),
                    ..old(self)@.nested
                },
                ..old(self)@
            }),
            well_formed(final(self)@),
    {
        self.nested.begin_initialize(origin);
    }

    /// A view's `init` has run.
    pub fn end_initialize(&mut self)
        requires
            well_formed(old(self)@),
            old(self)@.nested.initializing.len() > 0,
        ensures
            final(self)@ == (RuntimeModel {
                nested: NestedModel {
                    initializing: old(self)@.nested.initializing.drop_last(),
                    ..old(self)@.nested
                },
                ..old(self)@
            }),
            well_formed(final(self)@),
    {
        self.nested.end_initialize();
    }

    /// A view of an application has been initialized and what it asked for was carried out, or one
    /// of these has failed: then the application is retired. This is the last step for a mounted
    /// application, and for one that takes another's place in its view.
    pub fn instantiate_view_with_policy(
        &mut self,
        application: Option<u64>,
        view_exists: bool,
        initialized: Result<(), ScriptError<String>>,
        nested: Result<(), ScriptError<String>>,
    ) -> (r: Result<(), FailedStart>)
        requires
            well_formed(old(self)@),
        ensures
            well_formed(final(self)@),
            match and_outcome(initialized, nested) {
                Ok(()) => final(self)@ == old(self)@ && r is Ok,
                Err(error) => {
                    &&& final(self)@ == start_failed(old(self)@, application)
                    &&& r matches Err(failed)
                    &&& failed.error == error
                    &&& start_cleanups(failed.cleanups@, old(self)@, application, view_exists)
                },
            },
    {
        match and(initialized, nested) {
            Ok(()) => Ok(()),
            Err(error) => Err(self.fail_start(application, view_exists, error)),
        }
    }

    /// What the script has queued for the caller has run before a nested view is constructed, so
    /// that none of it runs for the new view.
    pub fn begin_nested_view(&self, drained: Result<(), ScriptError<String>>) -> (r: Result<
        RetainedCheckpoint,
        ScriptError<String>,
    >)
        ensures
            match drained {
                Ok(()) => r == Ok::<RetainedCheckpoint, ScriptError<String>>(
                    RetainedCheckpoint {
                        entities: self@.entities.next,
                        tasks: self@.tasks.next,
                    },
                ),
                Err(error) => r == Err::<RetainedCheckpoint, ScriptError<String>>(error),
            },
    {
        match drained {
            Ok(()) => Ok(self.checkpoint()),
            Err(error) => Err(error),
        }
    }
}

/// The state after a nested view was constructed and retained, and its handle. Where its
/// construction, or what that has queued, failed, and where no more can be retained, all is undone.
pub open spec fn nested_retained(
    m: RuntimeModel,
    checkpoint: RetainedCheckpoint,
    constructed: Result<u64, ScriptError<String>>,
    owner: Option<u64>,
    application: Option<u64>,
) -> (RuntimeModel, Result<u64, ScriptError<Seq<char>>>) {
    match constructed {
        Err(error) => (rolled_back(m, checkpoint), Err(error::error_view(error))),
        Ok(view) => if entities::has_room(m.entities) {
            (
                RuntimeModel {
                    entities: EntitiesModel {
                        records: m.entities.records.push(
                            EntityRecord {
                                handle: m.entities.next,
                                view: Some(view),
                                owner,
                                application,
                            },
                        ),
                        next: (m.entities.next + 1) as u64,
                        ..m.entities
                    },
                    ..m
                },
                Ok(m.entities.next),
            )
        } else {
            (rolled_back(m, checkpoint), Err(ScriptError::Fixed(Fault::EntityLimit)))
        },
    }
}

/// The state after a nested view was initialized, or failed to be: then its tasks end, it is
/// released with all that it owns, and so is whatever else was retained meanwhile.
pub open spec fn nested_settled(
    m: RuntimeModel,
    checkpoint: RetainedCheckpoint,
    handle: u64,
    outcome: Result<(), ScriptError<String>>,
) -> (RuntimeModel, Result<u64, ScriptError<Seq<char>>>) {
    match outcome {
        Ok(()) => (m, Ok(handle)),
        Err(error) => {
            let quiet = RuntimeModel {
                tasks: tasks::ended(m.tasks, Ending::Since(checkpoint.tasks)),
                ..m
            };
            let without = view_released(quiet, handle).0;
            (
                entities_released(without, EntityRelease::Since(checkpoint.entities)),
                Err(error::error_view(error)),
            )
        },
    }
}

/// The state after an update of a nested view failed and was undone, and the error: that of the
/// update, or that the view's own state could not be restored, with that of the update as its cause.
pub open spec fn update_undone(
    m: RuntimeModel,
    checkpoint: RetainedCheckpoint,
    error: ScriptError<Seq<char>>,
    restored: Result<(), Seq<char>>,
) -> (RuntimeModel, ScriptError<Seq<char>>) {
    (
        rolled_back(m, checkpoint),
        match restored {
            Ok(()) => error,
            Err(message) => ScriptError::RestoreFailed { message, cause: error::error_text(error) },
        },
    )
}

/// Whether a view has script to run for new props: only then its state is recorded first.
pub open spec fn has_update(property: ScriptValue) -> bool {
    !(property is Undefined || property is Null)
}

/// The function that takes new props, if the view has one.
pub open spec fn updater(property: ScriptValue) -> Result<Option<u64>, Fault> {
    match property {
        ScriptValue::Undefined | ScriptValue::Null => Ok(None),
        ScriptValue::Function(function) => Ok(Some(function)),
        _ => Err(Fault::UpdateNotFunction),
    }
}

/// Whether a view has script to run for new props.
pub fn is_updatable(property: &ScriptValue) -> (r: bool)
    ensures
        r == has_update(*property),
{
    match property {
        ScriptValue::Undefined | ScriptValue::Null => false,
        _ => true,
    }
}

/// The function that takes new props, if the view has one.
pub fn update_method(property: &ScriptValue) -> (r: Result<Option<u64>, Fault>)
    ensures
        r == updater(*property),
{
    match property {
        ScriptValue::Undefined | ScriptValue::Null => Ok(None),
        ScriptValue::Function(function) => Ok(Some(*function)),
        _ => Err(Fault::UpdateNotFunction),
    }
}

/// Whether the outcome of a restoration is this.
pub open spec fn restored_view(restored: Result<(), String>) -> Result<(), Seq<char>> {
    match restored {
        Ok(()) => Ok(()),
        Err(message) => Err(message@),
    }
}

impl ShellRuntime {
    /// A nested view has been constructed and what that has queued has run, with the view's number,
    /// or one of these has failed. `owner` is the handle of the view that asked for it.
    pub fn retain_nested_view(
        &mut self,
        checkpoint: RetainedCheckpoint,
        jobs: Result<(), ScriptError<String>>,
        constructed: Result<u64, ScriptError<String>>,
        owner: Option<u64>,
        application: Option<u64>,
    ) -> (r: Result<u64, ScriptError<String>>)
        requires
            well_formed(old(self)@),
            owner matches Some(owner) ==> owner < old(self)@.entities.next,
        ensures
            (final(self)@, error::outcome_view(r)) == nested_retained(
                old(self)@,
                checkpoint,
                and_outcome(jobs, constructed),
                owner,
                application,
            ),
            well_formed(final(self)@),
    {
        match and(jobs, constructed) {
            Err(error) => {
                self.rollback_retained_since(checkpoint);
                Err(error)
            },
            Ok(view) => match self.entities.retain(Some(view), owner, application) {
                Some(handle) => {
                    proof {
                        let before = old(self)@.entities;
                        let after = self@.entities;
                        assert forall|i: int| 0 <= i < after.records.len() implies entities::first_handle(
                            after.store,
                        ) <= (#[trigger] after.records[i]).handle < after.next && match after.records[i].owner {
                            Some(owner) => owner < after.records[i].handle,
                            None => true,
                        } by {
                            if i < before.records.len() {
                                assert(after.records[i] == before.records[i]);
                            }
                        }
                        assert forall|i: int, j: int| 0 <= i < j < after.records.len() implies (
                        #[trigger] after.records[i]).handle < (
                        #[trigger] after.records[j]).handle by {
                            assert(after.records[i] == before.records[i]);
                            if j < before.records.len() {
                                assert(after.records[j] == before.records[j]);
                            }
                        }
                    }
                    Ok(handle)
                },
                None => {
                    self.rollback_retained_since(checkpoint);
                    Err(ScriptError::Fixed(Fault::EntityLimit))
                },
            },
        }
    }

    /// A nested view has been initialized, what it asked for was carried out, and what it has queued
    /// has run; or one of these has failed.
    pub fn instantiate_nested_view(
        &mut self,
        checkpoint: RetainedCheckpoint,
        handle: u64,
        initialized: Result<(), ScriptError<String>>,
        nested: Result<(), ScriptError<String>>,
        jobs: Result<(), ScriptError<String>>,
    ) -> (r: Result<u64, ScriptError<String>>)
        requires
            well_formed(old(self)@),
        ensures
            (final(self)@, error::outcome_view(r)) == nested_settled(
                old(self)@,
                checkpoint,
                handle,
                and_outcome(and_outcome(initialized, nested), jobs),
            ),
            well_formed(final(self)@),
    {
        match and(and(initialized, nested), jobs) {
            Ok(()) => Ok(handle),
            Err(error) => {
                proof {
                    tasks::lemma_ended_numbered(self@.tasks, Ending::Since(checkpoint.tasks));
                }
                self.tasks.rollback_runtime_tasks(checkpoint.tasks);
                let _released = self.release_view_handle(handle);
                let _residual = self.release_entities(EntityRelease::Since(checkpoint.entities));
                Err(error)
            },
        }
    }

    /// What the script has queued for the caller has run before new props are delivered to the view
    /// behind a handle; gives that view.
    pub fn begin_nested_update(&self, handle: u64, drained: Result<(), ScriptError<String>>) -> (r:
        Result<u64, ScriptError<String>>)
        ensures
            error::outcome_view(r) == (match drained {
                Err(error) => Err(error::error_view(error)),
                Ok(()) => match entities::view_of(self@.entities.records, handle) {
                    Some(view) => Ok(view),
                    None => Err(ScriptError::Fixed(Fault::GoneForUpdate)),
                },
            }),
    {
        match drained {
            Err(error) => Err(error),
            Ok(()) => match self.entities.view_behind(handle) {
                Some(view) => Ok(view),
                None => Err(ScriptError::Fixed(Fault::GoneForUpdate)),
            },
        }
    }

    /// What is to be run to put the own state of a view back, where that was recorded before an
    /// update and the update, or what it has queued, has failed.
    pub fn restoration(
        jobs: &Result<(), ScriptError<String>>,
        updated: &Result<(), ScriptError<String>>,
        recorded: Option<u64>,
    ) -> (r: Option<u64>)
        ensures
            r == match and_outcome(*jobs, *updated) {
                Ok(()) => None,
                Err(_) => recorded,
            },
    {
        match (jobs, updated) {
            (Ok(()), Ok(())) => None,
            _ => recorded,
        }
    }

    /// An update of a nested view has run, and so has what it has queued; or one of these has
    /// failed, and the view's own state has been restored, or could not be.
    pub fn update_nested_view(
        &mut self,
        checkpoint: RetainedCheckpoint,
        jobs: Result<(), ScriptError<String>>,
        updated: Result<(), ScriptError<String>>,
        restored: Result<(), String>,
    ) -> (r: Result<(), ScriptError<String>>)
        requires
            well_formed(old(self)@),
        ensures
            match and_outcome(jobs, updated) {
                Ok(()) => final(self)@ == old(self)@ && r is Ok,
                Err(error) => {
                    let undone = update_undone(
                        old(self)@,
                        checkpoint,
                        error::error_view(error),
                        restored_view(restored),
                    );
                    &&& final(self)@ == undone.0
                    &&& r matches Err(reported)
                    &&& error::error_view(reported) == undone.1
                },
            },
            well_formed(final(self)@),
    {
        match and(jobs, updated) {
            Ok(()) => Ok(()),
            Err(error) => {
                self.rollback_retained_since(checkpoint);
                match restored {
                    Ok(()) => Err(error),
                    Err(message) => Err(
                        ScriptError::RestoreFailed { message, cause: error.message() },
                    ),
                }
            },
        }
    }
}

/// What an entry into the engine answers: how many requests wait, so that those of a script that
/// fails can be dropped; or that the engine is never to be entered again.
pub open spec fn js_entry(m: RuntimeModel) -> Result<nat, Fault> {
    if m.disabled {
        Err(Fault::JobQueue)
    } else {
        Ok(m.nested.pending.len())
    }
}

/// The state after a script has run that was entered with so many requests waiting: where it failed,
/// what it asked for is dropped.
pub open spec fn js_left(m: RuntimeModel, checkpoint: nat, failed: bool) -> RuntimeModel {
    if failed {
        leases_settled(
            RuntimeModel { nested: nested::shortened(m.nested, checkpoint), ..m },
        )
    } else {
        m
    }
}

/// The state after what the script has queued did not come to an end: the engine is never entered
/// again, and no task goes on.
pub open spec fn quarantined(m: RuntimeModel) -> RuntimeModel {
    if m.disabled {
        m
    } else {
        RuntimeModel {
            disabled: true,
            tasks: TasksModel { tasks: Seq::empty(), ..m.tasks },
            ..m
        }
    }
}

/// What a script is told of a deprecated export.
pub open spec fn deprecation_text(
    export: Seq<char>,
    replacement: Seq<char>,
    message: Seq<char>,
) -> Seq<char> {
    "JavaScript component export `"@ + export + "` is deprecated; use `"@ + replacement + "`. "@
        + message
}

/// The state after a deprecated export was used, and the warning, which is given once.
pub open spec fn deprecation(
    m: RuntimeModel,
    export: Seq<char>,
    replacement: Seq<char>,
    message: Seq<char>,
) -> (RuntimeModel, Option<Seq<char>>) {
    if m.warned.contains(export) {
        (m, None)
    } else {
        (
            RuntimeModel { warned: m.warned.push(export), ..m },
            Some(deprecation_text(export, replacement, message)),
        )
    }
}

/// The state after a panel class was registered, and the answer. `registered` is the name under
/// which the embedding application knows the panel; there is none while no call is in progress.
pub open spec fn panel_registered(
    m: RuntimeModel,
    current: HostScope,
    registered: Option<Seq<char>>,
    class: u64,
) -> (RuntimeModel, Result<Seq<char>, Fault>) {
    match (current.policy, registered) {
        (Some(policy), Some(name)) => (
            RuntimeModel {
                panels: m.panels.insert(
                    name,
                    PanelClass { class, application: scope::current_generation(current), policy },
                ),
                ..m
            },
            Ok(name),
        ),
        _ => (m, Err(Fault::PanelNeedsCall)),
    }
}

/// The function by which a panel saves or restores itself, if it has one. What stands in its place
/// and is none, a value of the type `kind`, is an error.
pub open spec fn hook(property: ScriptValue, kind: Seq<char>) -> Result<
    Option<u64>,
    ScriptError<Seq<char>>,
> {
    match property {
        ScriptValue::Undefined | ScriptValue::Null => Ok(None),
        ScriptValue::Function(function) => Ok(Some(function)),
        ScriptValue::Raised(message) => Err(ScriptError::Raised { message: message@ }),
        _ => Err(ScriptError::NotFunction { kind }),
    }
}

/// The function by which a panel saves or restores itself, if it has one. `kind` is the name of the
/// type of what the property holds.
pub fn panel_hook(property: &ScriptValue, kind: &str) -> (r: Result<
    Option<u64>,
    ScriptError<String>,
>)
    ensures
        error::outcome_view(r) == hook(*property, kind@),
{
    match property {
        ScriptValue::Undefined | ScriptValue::Null => Ok(None),
        ScriptValue::Function(function) => Ok(Some(*function)),
        ScriptValue::Raised(message) => Err(
            ScriptError::Raised { message: message.as_str().to_owned() },
        ),
        _ => Err(ScriptError::NotFunction { kind: kind.to_owned() }),
    }
}

/// Whether what a panel's `serialize` has answered is anything to restore it with.
pub fn is_saved(produced: &ScriptValue) -> (r: bool)
    ensures
        r == !(*produced is Undefined || *produced is Null),
{
    match produced {
        ScriptValue::Undefined | ScriptValue::Null => false,
        _ => true,
    }
}

/// Whether the view behind a token still exists.
pub open spec fn token_lives(m: RuntimeModel, token: u32) -> bool {
    m.nested.handles.contains_key(token) && entities::view_of(
        m.entities.records,
        m.nested.handles[token].handle,
    ) is Some
}

/// The answer to a request for a change of a retained view: it is refused while a frame is being
/// described, and otherwise what the request answers.
pub open spec fn unless_refused<T>(
    refusal: Result<(), ScriptError<Seq<char>>>,
    before: RuntimeModel,
    after: NestedModel,
    answer: Result<T, ScriptError<Seq<char>>>,
) -> (RuntimeModel, Result<T, ScriptError<Seq<char>>>) {
    match refusal {
        Err(error) => (before, Err(error)),
        Ok(()) => (RuntimeModel { nested: after, ..before }, answer),
    }
}

/// The lease that a new view is given: one of the load that the view it comes from holds a lease of.
pub open spec fn lease_for(m: ModulesModel, origin: ViewOrigin) -> Option<ApplicationModuleLease> {
    match origin.load {
        Some(load) => match modules::generation_of(m.applications, load) {
            Some(generation) => Some(modules::lease_on(load, generation)),
            None => None,
        },
        None => None,
    }
}

/// What asking for a new view does and answers.
pub open spec fn view_asked(
    m: RuntimeModel,
    current: HostScope,
    parent: Option<ParentView>,
    class: u64,
    props: u64,
) -> (RuntimeModel, Result<u32, ScriptError<Seq<char>>>) {
    match scope::mutation_refusal(current, "cx.new(Class, props)"@, "create"@) {
        Err(error) => (m, Err(error)),
        Ok(()) => match nested::creation_refusal(m.nested, current, parent) {
            Some(error) => (m, Err(error)),
            None => {
                let origin = nested::origin_for(m.nested, parent->Some_0);
                let lease = lease_for(m.modules, origin);
                let asked = nested::creation(m.nested, current, parent, class, props, lease);
                (
                    RuntimeModel {
                        nested: asked.0,
                        modules: match origin.load {
                            Some(load) => modules::shared(m.modules, load),
                            None => m.modules,
                        },
                        ..m
                    },
                    asked.1,
                )
            },
        },
    }
}

/// An answer with a fault, as an error.
pub open spec fn faulted<T>(answer: Result<T, Fault>) -> Result<T, ScriptError<Seq<char>>> {
    match answer {
        Ok(value) => Ok(value),
        Err(fault) => Err(ScriptError::Fixed(fault)),
    }
}

fn fault_error<T>(answer: Result<T, Fault>) -> (r: Result<T, ScriptError<String>>)
    ensures
        error::outcome_view(r) == faulted(answer),
{
    match answer {
        Ok(value) => Ok(value),
        Err(fault) => Err(ScriptError::Fixed(fault)),
    }
}

impl ShellRuntime {
    /// Enters the engine; gives how many requests wait.
    pub fn enter_js(&self) -> (r: Result<usize, Fault>)
        ensures
            match (r, js_entry(self@)) {
                (Ok(checkpoint), Ok(expected)) => checkpoint == expected,
                (Err(fault), Err(expected)) => fault == expected,
                _ => false,
            },
    {
        if self.disabled {
            return Err(Fault::JobQueue);
        }
        Ok(self.nested.pending_count())
    }

    /// Leaves the engine: what a script asked for that failed is dropped.
    pub fn leave_js(&mut self, checkpoint: usize, failed: bool)
        requires
            well_formed(old(self)@),
        ensures
            final(self)@ == js_left(old(self)@, checkpoint as nat, failed),
            well_formed(final(self)@),
    {
        if failed {
            self.nested.drop_since(checkpoint);
            self.settle_leases();
        }
    }

    /// Why the engine is not to be entered, if it is not.
    pub fn job_queue_error(&self) -> (r: Option<Fault>)
        ensures
            r == (if self@.disabled {
                Some(Fault::JobQueue)
            } else {
                None
            }),
    {
        if self.disabled {
            Some(Fault::JobQueue)
        } else {
            None
        }
    }

    /// What the script has queued did not come to an end: the engine is never entered again.
    pub fn fail_job_queue(&mut self) -> (r: Fault)
        requires
            well_formed(old(self)@),
        ensures
            r == Fault::JobQueue,
            final(self)@ == quarantined(old(self)@),
            well_formed(final(self)@),
    {
        if !self.disabled {
            self.disabled = true;
            self.tasks.shutdown();
        }
        Fault::JobQueue
    }

    /// A deprecated export is used; gives the warning, the first time.
    pub fn warn_deprecated_export(&mut self, export: &str, replacement: &str, message: &str) -> (r:
        Option<String>)
        requires
            well_formed(old(self)@),
        ensures
            (final(self)@, match r {
                Some(warning) => Some(warning@),
                None => None,
            }) == deprecation(old(self)@, export@, replacement@, message@),
            well_formed(final(self)@),
    {
        if text::listed(&self.warned, export) {
            return None;
        }
        let ghost before = text::texts(self.warned@);
        self.warned.push(export.to_owned());
        assert(text::texts(self.warned@) =~= before.push(export@));
        let mut warning = text::join3(
            "JavaScript component export `",
            export,
            "` is deprecated; use `",
        );
        warning.append(replacement);
        warning.append("`. ");
        warning.append(message);
        Some(warning)
    }

    /// How often a script has been warned of an export: once, or not at all.
    pub fn deprecation_warning_count(&self, export: &str) -> (r: usize)
        ensures
            r == (if self@.warned.contains(export@) {
                1int
            } else {
                0int
            }),
    {
        if text::listed(&self.warned, export) {
            1
        } else {
            0
        }
    }

    /// Registers the class that restores panels of a name.
    pub fn register_panel_class(
        &mut self,
        current: &HostScope,
        registered: Option<String>,
        class: u64,
    ) -> (r: Result<String, Fault>)
        requires
            well_formed(old(self)@),
        ensures
            ({
                let expected = panel_registered(
                    old(self)@,
                    *current,
                    match registered {
                        Some(name) => Some(name@),
                        None => None,
                    },
                    class,
                );
                &&& final(self)@ == expected.0
                &&& match (r, expected.1) {
                    (Ok(name), Ok(expected)) => name@ == expected,
                    (Err(fault), Err(expected)) => fault == expected,
                    _ => false,
                }
            }),
            well_formed(final(self)@),
    {
        match (current.policy, registered) {
            (Some(policy), Some(name)) => {
                let panel = PanelClass { class, application: current.generation(), policy };
                self.panels.insert(name.as_str().to_owned(), panel);
                Ok(name)
            },
            _ => Err(Fault::PanelNeedsCall),
        }
    }

    /// The class that restores panels of a name.
    pub fn panel_script(&self, name: &str) -> (r: Option<PanelClass>)
        ensures
            r == (if self@.panels.contains_key(name@) {
                Some(self@.panels[name@])
            } else {
                None
            }),
    {
        match self.panels.get(name) {
            Some(panel) => Some(*panel),
            None => None,
        }
    }

    /// Defines a template; gives its number.
    pub fn define_template(&mut self, template: Template) -> (r: usize)
        requires
            well_formed(old(self)@),
        ensures
            r == old(self)@.templates.len(),
            final(self)@ == (RuntimeModel {
                templates: old(self)@.templates.push(Some(template)),
                ..old(self)@
            }),
            well_formed(final(self)@),
    {
        let number: usize = self.templates.len();
        self.templates.push(Some(template));
        number
    }

    /// The template with a number, unless its application has been retired.
    pub fn template(&self, number: usize) -> (r: Option<Template>)
        ensures
            r == (if number < self@.templates.len() {
                self@.templates[number as int]
            } else {
                None
            }),
    {
        if number < self.templates.len() {
            self.templates[number]
        } else {
            None
        }
    }

    /// Whether the view behind a token still exists.
    pub fn token_is_live(&self, token: u32) -> (r: bool)
        ensures
            r == token_lives(self@, token),
    {
        match self.nested.handle_of(token) {
            Some(handle) => self.entities.view_behind(handle).is_some(),
            None => false,
        }
    }

    /// Asks for a new view, in the scope of the view for which the script runs. The request holds a
    /// lease of the modules that the new view's class comes from.
    pub fn view_new(
        &mut self,
        current: &HostScope,
        parent: Option<ParentView>,
        class: u64,
        props: u64,
    ) -> (r: Result<u32, ScriptError<String>>)
        requires
            well_formed(old(self)@),
            modules::countable(old(self)@.modules),
        ensures
            (final(self)@, error::outcome_view(r)) == view_asked(
                old(self)@,
                *current,
                parent,
                class,
                props,
            ),
            well_formed(final(self)@),
    {
        match scope::refuse_nested_view_mutation(current, "cx.new(Class, props)", "create") {
            Err(error) => {
                return Err(error);
            },
            Ok(()) => {},
        }
        let origin = match self.nested.creation_origin(current, &parent) {
            Ok(origin) => origin,
            Err(error) => {
                return Err(error);
            },
        };
        let lease = match origin.load {
            Some(load) => {
                proof {
                    modules::lemma_leases_keep_numbers(self@.modules, load);
                }
                self.modules.share_load(load)
            },
            None => None,
        };
        self.nested.queue_nested_view_creation(current, parent, class, props, lease)
    }

    /// Asks for new props for the view behind a token.
    pub fn view_set_props(&mut self, current: &HostScope, token: u32, props: u64) -> (r: Result<
        (),
        ScriptError<String>,
    >)
        requires
            well_formed(old(self)@),
        ensures
            ({
                let asked = nested::update(
                    old(self)@.nested,
                    *current,
                    token,
                    token_lives(old(self)@, token),
                    props,
                );
                (final(self)@, error::outcome_view(r)) == unless_refused(
                    scope::mutation_refusal(*current, "entity.set_props(props)"@, "update"@),
                    old(self)@,
                    asked.0,
                    faulted(asked.1),
                )
            }),
            well_formed(final(self)@),
    {
        match scope::refuse_nested_view_mutation(current, "entity.set_props(props)", "update") {
            Err(error) => Err(error),
            Ok(()) => {
                let live = self.token_is_live(token);
                fault_error(self.nested.queue_nested_view_update(current, token, live, props))
            },
        }
    }

    /// Asks for the release of the view behind a token; tells whether this request will do it.
    pub fn view_release(&mut self, current: &HostScope, token: u32) -> (r: Result<
        bool,
        ScriptError<String>,
    >)
        requires
            well_formed(old(self)@),
        ensures
            ({
                let asked = nested::release(
                    old(self)@.nested,
                    *current,
                    token,
                    token_lives(old(self)@, token),
                );
                (final(self)@, error::outcome_view(r)) == unless_refused(
                    scope::mutation_refusal(*current, "entity.release()"@, "release"@),
                    old(self)@,
                    asked.0,
                    faulted(asked.1),
                )
            }),
            well_formed(final(self)@),
    {
        match scope::refuse_nested_view_mutation(current, "entity.release()", "release") {
            Err(error) => Err(error),
            Ok(()) => {
                let live = self.token_is_live(token);
                fault_error(self.nested.queue_nested_view_release(current, token, live))
            },
        }
    }

    /// What is retained goes with the runtime.
    pub fn shutdown(&mut self)
        requires
            well_formed(old(self)@),
        ensures
            final(self)@ == (RuntimeModel {
                states: states::flushed(old(self)@.states),
                tasks: TasksModel { tasks: Seq::empty(), ..old(self)@.tasks },
                callbacks: CallbacksModel {
                    entries: Seq::empty(),
                    open: None,
                    ..old(self)@.callbacks
                },
                panels: Map::empty(),
                entities: EntitiesModel { records: Seq::empty(), ..old(self)@.entities },
                ..old(self)@
            }),
            well_formed(final(self)@),
    {
        self.states.flush_component_state_releases();
        self.tasks.shutdown();
        self.callbacks.clear();
        self.panels = TextMap::new();
        self.entities.clear();
    }

    /// The description being made.
    pub fn arena_mut(&mut self) -> (r: &mut SpecArena)
        ensures
            r@ == old(self)@.arena,
            final(self)@ == (RuntimeModel { arena: final(r)@, ..old(self)@ }),
    {
        &mut self.arena
    }
}

impl ShellRuntime {
    /// The functions that descriptions refer to.
    pub fn callbacks_mut(&mut self) -> (r: &mut CallbackArena)
        ensures
            r@ == old(self)@.callbacks,
            final(self)@ == (RuntimeModel { callbacks: final(r)@, ..old(self)@ }),
    {
        &mut self.callbacks
    }

    /// What a call on an element works on: the description being made, the functions it refers to,
    /// the states that components retain, the components that are registered, and the proof that
    /// tells a state of this runtime.
    pub fn recording(&mut self) -> (r: (
        &mut SpecArena,
        &mut CallbackArena,
        &mut RetainedStates,
        &Vec<RegisteredComponent>,
        &str,
    ))
        ensures
            r.0@ == old(self)@.arena,
            r.1@ == old(self)@.callbacks,
            r.2@ == old(self)@.states,
            r.3@ == old(self)@.components,
            r.4@ == old(self)@.state_proof,
            final(self)@ == (RuntimeModel {
                arena: final(r.0)@,
                callbacks: final(r.1)@,
                states: final(r.2)@,
                ..old(self)@
            }),
    {
        (
            &mut self.arena,
            &mut self.callbacks,
            &mut self.states,
            &self.components,
            self.state_proof.as_str(),
        )
    }

    /// Puts what a script has answered into the description being made: a text or a retained view
    /// becomes an element, and an element is one.
    pub fn place_root(&mut self, current: &HostScope, root: RenderedRoot<String>) -> (r: Result<
        u32,
        Fault,
    >)
        requires
            well_formed(old(self)@),
            old(self)@.arena.nodes.len() < u32::MAX,
        ensures
            ({
                let placed = render::placed(
                    old(self)@.arena,
                    old(self)@.nested,
                    *current,
                    argument::root_view(root),
                    match root {
                        RenderedRoot::ChildView(token) => token_lives(old(self)@, token),
                        _ => false,
                    },
                );
                &&& final(self)@ == (RuntimeModel { arena: placed.0, ..old(self)@ })
                &&& r == placed.1
            }),
            well_formed(final(self)@),
    {
        let live = match &root {
            RenderedRoot::ChildView(token) => self.token_is_live(*token),
            _ => false,
        };
        render::place_root(&mut self.arena, &self.nested, current, root, live)
    }

    /// The states that components retain.
    pub fn states_mut(&mut self) -> (r: &mut RetainedStates)
        ensures
            r@ == old(self)@.states,
            final(self)@ == (RuntimeModel { states: final(r)@, ..old(self)@ }),
    {
        &mut self.states
    }

    /// What applications have installed.
    pub fn effects_mut(&mut self) -> (r: &mut AppEffects)
        ensures
            r@ == old(self)@.effects,
            final(self)@ == (RuntimeModel { effects: final(r)@, ..old(self)@ }),
    {
        &mut self.effects
    }

    /// The views that scripts create.
    pub fn nested_mut(&mut self) -> (r: &mut NestedViews)
        ensures
            r@ == old(self)@.nested,
            final(self)@ == (RuntimeModel { nested: final(r)@, ..old(self)@ }),
    {
        &mut self.nested
    }

    /// The modules of loaded applications.
    pub fn modules_mut(&mut self) -> (r: &mut AppModules)
        ensures
            r@ == old(self)@.modules,
            final(self)@ == (RuntimeModel { modules: final(r)@, ..old(self)@ }),
    {
        &mut self.modules
    }

    /// The unfinished tasks.
    pub fn tasks_mut(&mut self) -> (r: &mut Tasks)
        ensures
            r@ == old(self)@.tasks,
            final(self)@ == (RuntimeModel { tasks: final(r)@, ..old(self)@ }),
    {
        &mut self.tasks
    }

    /// The retained entities.
    pub fn entities_mut(&mut self) -> (r: &mut EntityStore)
        ensures
            r@ == old(self)@.entities,
            final(self)@ == (RuntimeModel { entities: final(r)@, ..old(self)@ }),
    {
        &mut self.entities
    }

    /// The next step of carrying out what waits.
    pub fn flush_pending_nested_views(&mut self, current: &HostScope) -> (r: FlushStep)
        requires
            well_formed(old(self)@),
        ensures
            ({
                let live = if old(self)@.nested.pending.len() == 0 {
                    false
                } else {
                    match nested::token_of(old(self)@.nested.pending[0]) {
                        Some(token) => token_lives(old(self)@, token),
                        None => false,
                    }
                };
                let step = nested::flush_step(old(self)@.nested, *current, true, live);
                &&& final(self)@ == leases_settled(RuntimeModel { nested: step.0, ..old(self)@ })
                &&& r == step.1
            }),
            well_formed(final(self)@),
    {
        let live = match self.nested.next_pending_token() {
            Some(token) => self.token_is_live(token),
            None => false,
        };
        let step = self.nested.flush_pending_nested_views(current, true, live);
        self.settle_leases();
        step
    }

    /// Records how an action of the flush went. The lease of a request for a new view is given back:
    /// the view that was made of it holds one of its own.
    pub fn settle_nested_action(&mut self, action: NestedAction, outcome: ActionOutcome) -> (r:
        Settled)
        requires
            well_formed(old(self)@),
        ensures
            ({
                let settled = nested::settle(old(self)@.nested, action, outcome);
                &&& final(self)@ == leases_settled(
                    RuntimeModel { nested: settled.0, ..old(self)@ },
                )
                &&& r == settled.1
            }),
            well_formed(final(self)@),
    {
        let settled = self.nested.settle_action(action, outcome);
        self.settle_leases();
        settled
    }
}

/// A runtime takes back all that a nested view has retained and started, whatever of its
/// construction or initialization fails: the entities are those that were there when it began, no
/// task started since goes on, and no token stands for anything that was released.
pub proof fn law_a_failed_child_leaves_nothing_behind(
    before: RuntimeModel,
    after: RuntimeModel,
    handle: u64,
    later: Seq<EntityRecord>,
    error: ScriptError<String>,
)
    requires
        well_formed(before),
        well_formed(after),
        after.entities.records == before.entities.records + later,
        forall|i: int|
            0 <= i < later.len() ==> (#[trigger] later[i]).handle >= before.entities.next,
        handle >= before.entities.next,
    ensures
        ({
            let checkpoint = RetainedCheckpoint {
                entities: before.entities.next,
                tasks: before.tasks.next,
            };
            let undone = nested_settled(after, checkpoint, handle, Err(error)).0;
            &&& undone.entities.records == before.entities.records
            &&& forall|task: Task| #[trigger]
                undone.tasks.tasks.contains(task) ==> after.tasks.tasks.contains(task)
                    && task.number < before.tasks.next
            &&& forall|token: u32|
                undone.nested.handles.contains_key(token) ==> !(exists|i: int|
                    0 <= i < later.len() && (#[trigger] later[i]).handle == (
                    #[trigger] undone.nested.handles[token]).handle)
        }),
{
    let checkpoint = RetainedCheckpoint {
        entities: before.entities.next,
        tasks: before.tasks.next,
    };
    let quiet = RuntimeModel {
        tasks: tasks::ended(after.tasks, Ending::Since(checkpoint.tasks)),
        ..after
    };
    let without = view_released(quiet, handle).0;
    let undone = entities_released(without, EntityRelease::Since(checkpoint.entities));
    let release = EntityRelease::Since(checkpoint.entities);
    assert forall|task: Task| #[trigger] undone.tasks.tasks.contains(task) implies after.tasks.tasks.contains(
        task,
    ) && task.number < before.tasks.next by {
        lemma_view_tasks_subset(
            without.tasks,
            entities::gone_views(without.entities.records, release),
            task,
        );
        if view_released(quiet, handle).1 {
            lemma_view_tasks_subset(
                quiet.tasks,
                entities::gone_views(quiet.entities.records, EntityRelease::Handle(handle)),
                task,
            );
        }
        tasks::lemma_remaining(after.tasks.tasks, Ending::Since(checkpoint.tasks), task);
    }
    entities::law_entities_go_back_to_a_checkpoint(before.entities, later);
    if entities::view_of(after.entities.records, handle) is Some {
        let first = EntityRelease::Handle(handle);
        let kept = entities::kept(after.entities.records, first);
        entities::lemma_since_after(before.entities, later, first);
        assert(undone.entities.records == before.entities.records);
        assert forall|token: u32| undone.nested.handles.contains_key(token) implies !(exists|i: int|
            0 <= i < later.len() && (#[trigger] later[i]).handle == (
            #[trigger] undone.nested.handles[token]).handle) by {
            if exists|i: int|
                0 <= i < later.len() && (#[trigger] later[i]).handle
                    == undone.nested.handles[token].handle {
                let i = choose|i: int|
                    0 <= i < later.len() && (#[trigger] later[i]).handle
                        == undone.nested.handles[token].handle;
                let record = later[i];
                assert(after.entities.records[before.entities.records.len() + i] == record);
                entities::lemma_kept(after.entities.records, first, record);
                entities::lemma_released_orderly(after.entities, first);
                if kept.contains(record) {
                    entities::lemma_kept(kept, release, record);
                    if !entities::gone(kept, release).contains(record.handle) {
                        assert(before.entities.records.contains(record));
                        let k = choose|k: int|
                            0 <= k < before.entities.records.len() && before.entities.records[k]
                                == record;
                        assert(before.entities.records[k].handle < before.entities.next);
                    }
                }
            }
        }
    } else {
        assert(undone.entities.records == before.entities.records);
        assert forall|token: u32| undone.nested.handles.contains_key(token) implies !(exists|i: int|
            0 <= i < later.len() && (#[trigger] later[i]).handle == (
            #[trigger] undone.nested.handles[token]).handle) by {
            if exists|i: int|
                0 <= i < later.len() && (#[trigger] later[i]).handle
                    == undone.nested.handles[token].handle {
                let i = choose|i: int|
                    0 <= i < later.len() && (#[trigger] later[i]).handle
                        == undone.nested.handles[token].handle;
                let record = later[i];
                assert(after.entities.records[before.entities.records.len() + i] == record);
                entities::lemma_kept(after.entities.records, release, record);
                if !entities::gone(after.entities.records, release).contains(record.handle) {
                    assert(before.entities.records.contains(record));
                    let k = choose|k: int|
                        0 <= k < before.entities.records.len() && before.entities.records[k]
                            == record;
                    assert(before.entities.records[k].handle < before.entities.next);
                }
            }
        }
    }
}

proof fn lemma_view_tasks_subset(m: TasksModel, views: Seq<u64>, task: Task)
    requires
        without_view_tasks(m, views).tasks.contains(task),
    ensures
        m.tasks.contains(task),
    decreases views.len(),
{
    if views.len() > 0 {
        tasks::lemma_remaining(
            without_view_tasks(m, views.drop_last()).tasks,
            Ending::View(views.last()),
            task,
        );
        lemma_view_tasks_subset(m, views.drop_last(), task);
    }
}

proof fn lemma_inactive(active: Seq<u64>, application: u64, other: u64)
    ensures
        inactive(active, application).contains(other) <==> active.contains(other) && other
            != application,
    decreases active.len(),
{
    if active.len() > 0 {
        let front = active.drop_last();
        let before = inactive(front, application);
        lemma_inactive(front, application, other);
        if active.contains(other) {
            let k = choose|k: int| 0 <= k < active.len() && active[k] == other;
            if k < front.len() {
                assert(front[k] == other);
            }
        }
        if front.contains(other) {
            let k = choose|k: int| 0 <= k < front.len() && front[k] == other;
            assert(active[k] == other);
        }
        if active.last() == other {
            assert(active[active.len() - 1] == other);
        }
        if active.last() != application {
            let after = before.push(active.last());
            if before.contains(other) {
                let k = choose|k: int| 0 <= k < before.len() && before[k] == other;
                assert(after[k] == other);
            }
            if active.last() == other {
                assert(after[before.len() as int] == other);
            }
        }
    }
}

/// Retiring an application ends that one and no other.
pub proof fn law_retirement_ends_one_application(m: RuntimeModel, application: u64, other: u64)
    ensures
        application_retired(m, application).active.contains(other) <==> m.active.contains(other)
            && other != application,
{
    lemma_inactive(m.active, application, other);
}

/// An application that is retired keeps nothing: no entity, no task, no template and nothing that it
/// has installed.
pub proof fn law_a_retired_application_keeps_nothing(m: RuntimeModel, application: u64)
    requires
        well_formed(m),
    ensures
        ({
            let after = application_retired(m, application);
            &&& !after.effects.contains_key(application)
            &&& forall|record: EntityRecord| #[trigger]
                after.entities.records.contains(record) ==> record.application != Some(application)
            &&& forall|task: Task| #[trigger]
                after.tasks.tasks.contains(task) ==> task.application != Some(application)
            &&& forall|i: int|
                0 <= i < after.templates.len() ==> match #[trigger] after.templates[i] {
                    Some(template) => template.application != Some(application),
                    None => true,
                }
        }),
{
    let start = RuntimeModel { effects: m.effects.remove(application), ..m };
    let before = RuntimeModel { states: states::released(m.states, application), ..start };
    let release = EntityRelease::Application(application);
    let middle = entities_released(before, release);
    let after = application_retired(m, application);
    assert forall|record: EntityRecord| #[trigger] after.entities.records.contains(
        record,
    ) implies record.application != Some(application) by {
        entities::lemma_kept(m.entities.records, release, record);
        if record.application == Some(application) {
            entities::lemma_named_goes(m.entities, release, record);
        }
    }
    assert forall|task: Task| #[trigger] after.tasks.tasks.contains(
        task,
    ) implies task.application != Some(application) by {
        tasks::lemma_remaining(middle.tasks.tasks, Ending::Application(application), task);
    }
}

/// Retiring one application leaves the templates of all others where they are, under their numbers.
pub proof fn law_templates_keep_their_numbers(m: RuntimeModel, application: u64, number: int)
    requires
        0 <= number < m.templates.len(),
        m.templates[number] matches Some(template) && template.application != Some(application),
    ensures
        application_retired(m, application).templates.len() == m.templates.len(),
        application_retired(m, application).templates[number] == m.templates[number],
{
}

/// An application is mounted once at most, and only by the runtime that loaded it.
pub proof fn law_an_application_is_mounted_once(runtime: u32, application: LoadedApplication)
    requires
        mounting(runtime, application) is Ok,
    ensures
        application.runtime == runtime,
        mounting(
            runtime,
            LoadedApplication { mounted: true, ..application },
        ) == Err::<(), Fault>(Fault::ApplicationMounted),
        forall|other: u32|
            other != runtime ==> #[trigger] mounting(other, application) == Err::<(), Fault>(
                Fault::ForeignApplication,
            ),
{
}

/// No two loads have the same generation.
pub proof fn law_generations_are_not_reused(
    m: RuntimeModel,
    root: Seq<char>,
    dependencies: Seq<modules::Dependency<Seq<char>>>,
)
    requires
        m.next_generation < u64::MAX,
    ensures
        load_begun(m, root, dependencies).next_generation > m.next_generation,
{
}

/// A runtime whose queue did not come to an end is never entered again, and runs no task.
pub proof fn law_a_disabled_runtime_is_never_entered(m: RuntimeModel)
    ensures
        js_entry(quarantined(m)) == Err::<nat, Fault>(Fault::JobQueue),
        !m.disabled ==> quarantined(m).tasks.tasks.len() == 0,
        quarantined(quarantined(m)) == quarantined(m),
{
}

/// A script that fails leaves the requests that waited before it ran, and none of its own, and the
/// leases of its own are given back.
pub proof fn law_a_failed_script_asks_for_nothing(
    m: RuntimeModel,
    later: Seq<nested::PendingNestedOperation>,
)
    requires
        well_formed(m),
    ensures
        js_left(
            RuntimeModel {
                nested: NestedModel { pending: m.nested.pending + later, ..m.nested },
                ..m
            },
            m.nested.pending.len(),
            true,
        ) == (RuntimeModel {
            modules: modules::all_given_back(
                m.modules,
                nested::collected(Seq::empty(), later),
            ),
            ..m
        }),
{
    let all = m.nested.pending + later;
    let count = m.nested.pending.len() as int;
    assert(all.take(count) =~= m.nested.pending);
    assert(all.skip(count) =~= later);
    assert(m.nested.returned =~= Seq::empty());
    let after = js_left(
        RuntimeModel { nested: NestedModel { pending: all, ..m.nested }, ..m },
        m.nested.pending.len(),
        true,
    );
    assert(after.nested =~= m.nested);
}

/// A request for a new view that is dropped because its script fails leaves everything as it was,
/// except that its token is not handed out again.
pub proof fn law_a_dropped_request_leaves_nothing(
    m: RuntimeModel,
    current: HostScope,
    parent: Option<ParentView>,
    class: u64,
    props: u64,
)
    requires
        well_formed(m),
        modules::countable(m.modules),
    ensures
        ({
            let asked = view_asked(m, current, parent, class, props).0;
            js_left(asked, m.nested.pending.len(), true) == (RuntimeModel {
                nested: NestedModel { next_token: asked.nested.next_token, ..m.nested },
                ..m
            })
        }),
{
    let asked = view_asked(m, current, parent, class, props).0;
    let count = m.nested.pending.len() as int;
    let after = js_left(asked, m.nested.pending.len(), true);
    let dropped = asked.nested.pending.skip(count);
    assert(m.nested.returned =~= Seq::empty());
    assert(asked.nested.pending.take(count) =~= m.nested.pending);
    if asked.nested.pending.len() == count {
        assert(dropped =~= Seq::empty());
        assert(after.nested =~= m.nested);
        assert(after.modules =~= m.modules);
    } else {
        let origin = nested::origin_for(m.nested, parent->Some_0);
        let lease = lease_for(m.modules, origin);
        assert(dropped.len() == 1);
        assert(dropped.drop_last() =~= Seq::empty());
        let returned = nested::with_lease(Seq::empty(), lease);
        reveal_with_fuel(nested::collected, 2);
        reveal_with_fuel(modules::all_given_back, 2);
        assert(nested::lease_of(dropped.last()) == lease);
        assert(nested::collected(Seq::empty(), dropped) == returned);
        match origin.load {
            Some(load) => {
                modules::lemma_leases_keep_numbers(m.modules, load);
                match lease {
                    Some(held) => {
                        modules::lemma_lease_on(load, held.tag());
                        modules::lemma_lease_on(
                            load,
                            modules::generation_of(m.modules.applications, load)->Some_0,
                        );
                        modules::law_sharing_adds_a_holder(m.modules, load, load);
                        assert(returned.drop_last() =~= Seq::empty());
                        assert(returned.last() == held);
                    },
                    None => {},
                }
            },
            None => {},
        }
        assert(after.modules == m.modules);
        assert(after.nested =~= (NestedModel {
            next_token: asked.nested.next_token,
            ..m.nested
        }));
    }
}

/// An instance keeps the modules of its class loaded: they stay after the class was dropped, and go
/// with the instance where nothing else holds a lease of them.
pub proof fn law_an_instance_keeps_its_modules(m: RuntimeModel, lease: ApplicationModuleLease)
    requires
        well_formed(m),
        modules::countable(m.modules),
        modules::holders_of(m.modules.applications, lease.load()) == 1,
    ensures
        ({
            let made = lease_shared(m, Some(lease));
            let without_class = lease_returned(made, Some(lease));
            let without_instance = lease_returned(without_class, Some(lease));
            &&& modules::holders_of(without_class.modules.applications, lease.load()) == 1
            &&& modules::holders_of(without_instance.modules.applications, lease.load()) == 0
        }),
{
    modules::law_sharing_adds_a_holder(m.modules, lease.load(), lease.load());
    modules::law_giving_back_takes_a_holder(m.modules, lease.load(), lease.load());
}

/// A script is warned once of a deprecated export.
pub proof fn law_a_warning_is_given_once(
    m: RuntimeModel,
    export: Seq<char>,
    replacement: Seq<char>,
    message: Seq<char>,
)
    ensures
        deprecation(deprecation(m, export, replacement, message).0, export, replacement, message)
            == (deprecation(m, export, replacement, message).0, None::<Seq<char>>),
{
    let after = deprecation(m, export, replacement, message).0;
    if !m.warned.contains(export) {
        assert(m.warned.push(export)[m.warned.len() as int] == export);
    }
}

pub proof fn lemma_view_tasks(m: TasksModel, views: Seq<u64>, task: Task)
    ensures
        without_view_tasks(m, views).tasks.contains(task) <==> m.tasks.contains(task) && (
        task.view matches Some(view) ==> !views.contains(view)),
    decreases views.len(),
{
    if views.len() > 0 {
        let front = views.drop_last();
        lemma_view_tasks(m, front, task);
        tasks::lemma_remaining(
            without_view_tasks(m, front).tasks,
            Ending::View(views.last()),
            task,
        );
        if let Some(view) = task.view {
            if front.contains(view) {
                let k = choose|k: int| 0 <= k < front.len() && front[k] == view;
                assert(views[k] == view);
            }
            if views.last() == view {
                assert(views[views.len() - 1] == view);
            }
            if views.contains(view) && !front.contains(view) {
                let k = choose|k: int| 0 <= k < views.len() && views[k] == view;
                if k < front.len() {
                    assert(front[k] == view);
                }
            }
        }
    }
}

proof fn lemma_views_not_callable(m: CallbacksModel, views: Seq<u64>, view: u64, id: u64)
    requires
        callbacks::in_order(m),
        views.contains(view),
    ensures
        callbacks::callable(without_views(m, views).entries, id) matches Some(entry) ==> entry.view
            != Some(view),
    decreases views.len(),
{
    let front = views.drop_last();
    let before = without_views(m, front);
    lemma_without_views_in_order(m, front);
    if views.last() == view {
        callbacks::law_released_view_is_never_called(before, view, id);
    } else {
        let k = choose|k: int| 0 <= k < views.len() && views[k] == view;
        assert(front[k] == view);
        lemma_views_not_callable(m, front, view, id);
        callbacks::lemma_kept_callable(before, Keep::OtherViews(views.last()), id);
    }
}

/// Once a view is released, none of its functions is called and none of its tasks goes on, while the
/// tasks of all views that stay go on.
pub proof fn law_a_released_view_is_silent(
    m: RuntimeModel,
    release: EntityRelease,
    view: u64,
    id: u64,
    task: Task,
)
    requires
        well_formed(m),
        entities::gone_views(m.entities.records, release).contains(view),
    ensures
        callbacks::callable(entities_released(m, release).callbacks.entries, id) matches Some(entry)
            ==> entry.view != Some(view),
        entities_released(m, release).tasks.tasks.contains(task) <==> m.tasks.tasks.contains(task)
            && (task.view matches Some(owner) ==> !entities::gone_views(
            m.entities.records,
            release,
        ).contains(owner)),
{
    let views = entities::gone_views(m.entities.records, release);
    lemma_views_not_callable(m.callbacks, views, view, id);
    lemma_view_tasks(m.tasks, views, task);
}

proof fn lemma_stays_callable(m: CallbacksModel, views: Seq<u64>, at: int) -> (place: int)
    requires
        callbacks::in_order(m),
        0 <= at < m.entries.len(),
        m.entries[at].entry.view matches Some(view) ==> !views.contains(view),
    ensures
        callbacks::in_order(without_views(m, views)),
        0 <= place < without_views(m, views).entries.len(),
        without_views(m, views).entries[place] == m.entries[at],
        callbacks::callable(without_views(m, views).entries, m.entries[at].id)
            == callbacks::callable(m.entries, m.entries[at].id),
    decreases views.len(),
{
    if views.len() == 0 {
        at
    } else {
        let front = views.drop_last();
        assert(m.entries[at].entry.view matches Some(view) ==> !front.contains(view)) by {
            if let Some(view) = m.entries[at].entry.view {
                if front.contains(view) {
                    let k = choose|k: int| 0 <= k < front.len() && front[k] == view;
                    assert(views[k] == view);
                }
            }
        }
        let before = without_views(m, front);
        let found = lemma_stays_callable(m, front, at);
        assert(views[views.len() - 1] == views.last());
        let keep = Keep::OtherViews(views.last());
        callbacks::lemma_kept_in_order(before, keep);
        callbacks::law_retirement_spares_the_functions_of_others(before, found, 0, views.last());
        callbacks::lemma_kept_holds(before.entries, keep, before.entries[found]);
        let after = callbacks::kept(before.entries, keep);
        choose|k: int| 0 <= k < after.len() && after[k] == m.entries[at]
    }
}

/// Releasing entities changes nothing but the entities themselves, what tokens stand for and the
/// functions and tasks of the views among them: the functions of all views that stay can be called
/// as before.
pub proof fn law_a_release_spares_the_functions_of_other_views(
    m: RuntimeModel,
    release: EntityRelease,
    at: int,
)
    requires
        well_formed(m),
        0 <= at < m.callbacks.entries.len(),
        m.callbacks.entries[at].entry.view matches Some(view) ==> !entities::gone_views(
            m.entities.records,
            release,
        ).contains(view),
    ensures
        ({
            let after = entities_released(m, release);
            let id = m.callbacks.entries[at].id;
            &&& callbacks::callable(after.callbacks.entries, id) == callbacks::callable(
                m.callbacks.entries,
                id,
            )
            &&& after.states == m.states
            &&& after.effects == m.effects
            &&& after.templates == m.templates
            &&& after.panels == m.panels
            &&& after.modules == m.modules
            &&& after.active == m.active
            &&& after.arena == m.arena
            &&& after.disabled == m.disabled
            &&& after.warned == m.warned
            &&& after.nested.pending == m.nested.pending
            &&& after.entities.next == m.entities.next
        }),
{
    let views = entities::gone_views(m.entities.records, release);
    let _place = lemma_stays_callable(m.callbacks, views, at);
}

/// A view is released where its handle leads to one, and is then gone with its handle; a handle that
/// leads to none changes nothing.
pub proof fn law_a_view_is_released_by_its_handle(m: RuntimeModel, handle: u64)
    requires
        well_formed(m),
    ensures
        ({
            let (after, answer) = view_released(m, handle);
            &&& answer <==> exists|i: int|
                0 <= i < m.entities.records.len() && (#[trigger] m.entities.records[i]).handle
                    == handle && m.entities.records[i].view is Some
            &&& !answer ==> after == m
            &&& answer ==> forall|record: EntityRecord| #[trigger]
                after.entities.records.contains(record) ==> record.handle != handle
            &&& answer ==> forall|token: u32| #[trigger]
                after.nested.handles.contains_key(token) ==> after.nested.handles[token].handle
                    != handle
        }),
{
    let records = m.entities.records;
    entities::law_a_handle_leads_to_its_view(m.entities, handle);
    let (after, answer) = view_released(m, handle);
    if answer {
        let release = EntityRelease::Handle(handle);
        assert(exists|i: int| 0 <= i < records.len() && (#[trigger] records[i]).handle == handle);
        let i = choose|i: int| 0 <= i < records.len() && (#[trigger] records[i]).handle == handle;
        assert(records[i].view is Some);
        assert(records.contains(records[i]));
        entities::law_a_release_takes_what_it_names(m.entities, records[i], handle, 0, 0);
        assert forall|record: EntityRecord| #[trigger]
            after.entities.records.contains(record) implies record.handle != handle by {
            entities::lemma_kept(records, release, record);
            if record.handle == handle {
                entities::lemma_named_goes(m.entities, release, record);
            }
        }
    }
}

/// Retiring an application leaves alone what others have installed and keep: their effects, their
/// component states where nobody uses the states, their tasks as long as their views stay, and all
/// panels and modules.
pub proof fn law_retirement_spares_what_others_keep(
    m: RuntimeModel,
    application: u64,
    other: u64,
    state: states::RetainedState<Seq<char>>,
    task: Task,
)
    requires
        other != application,
        m.states.borrowed == states::Borrowed::No,
        m.states.pending.len() == 0,
    ensures
        ({
            let after = application_retired(m, application);
            let gone = entities::gone_views(
                m.entities.records,
                EntityRelease::Application(application),
            );
            &&& after.effects.contains_key(other) <==> m.effects.contains_key(other)
            &&& m.effects.contains_key(other) ==> after.effects[other] == m.effects[other]
            &&& after.states.states.contains(state) <==> m.states.states.contains(state)
                && state.owner != Some(application)
            &&& after.tasks.tasks.contains(task) <==> m.tasks.tasks.contains(task)
                && task.application != Some(application) && (task.view matches Some(view)
                ==> !gone.contains(view))
            &&& after.panels == m.panels
            &&& after.modules == m.modules
            &&& after.nested.pending == m.nested.pending
            &&& application_released(m, application).effects == m.effects
        }),
{
    let gone = entities::gone_views(m.entities.records, EntityRelease::Application(application));
    states::law_release_takes_effect_at_once(m.states, application, state);
    lemma_view_tasks(m.tasks, gone, task);
    let middle = without_view_tasks(m.tasks, gone);
    tasks::lemma_remaining(middle.tasks, Ending::Application(application), task);
}

/// Loading an application makes it active under a generation of its own and registers its directory
/// and its dependencies; what was active stays so. The name of its entry gives back the entry's
/// file and the generation of its modules.
pub proof fn law_a_loaded_application_is_active(
    m: RuntimeModel,
    root: Seq<char>,
    dependencies: Seq<modules::Dependency<Seq<char>>>,
    other: u64,
    file: Seq<char>,
    generation: u32,
)
    requires
        m.next_generation < u64::MAX,
        m.modules.last_load < u64::MAX,
    ensures
        ({
            let after = load_begun(m, root, dependencies);
            &&& after.active.contains(other) <==> m.active.contains(other) || other
                == m.next_generation
            &&& after.modules.applications.len() == m.modules.applications.len() + 1
            &&& after.modules.applications.drop_last() == m.modules.applications
            &&& after.modules.applications.last().root == root
            &&& after.modules.applications.last().dependencies == dependencies
            &&& after.modules.applications.last().generation == after.modules.last_generation
            &&& after.modules.applications.last().number == after.modules.last_load
                == m.modules.last_load + 1
            &&& after.modules.applications.last().holders == 1
            &&& modules::untagged(module_name(file, generation)) == file
            &&& modules::tagged(module_name(file, generation)) == Some(generation)
        }),
{
    let after = load_begun(m, root, dependencies);
    modules::law_tags_read_back(file, generation);
    assert(after.modules.applications.drop_last() =~= m.modules.applications);
    if m.active.contains(other) {
        let k = choose|k: int| 0 <= k < m.active.len() && m.active[k] == other;
        assert(after.active[k] == other);
    }
    if other == m.next_generation {
        assert(after.active[m.active.len() as int] == other);
    }
    if after.active.contains(other) {
        let k = choose|k: int| 0 <= k < after.active.len() && after.active[k] == other;
        if k < m.active.len() {
            assert(m.active[k] == other);
        }
    }
}

/// A view class is something that can be constructed, as far as that shows: an object of any kind. A
/// failure to read it is told as it is.
pub proof fn law_a_view_class_is_an_object(value: ScriptValue, error: ScriptError<String>)
    ensures
        view_class(Ok(value)) is Ok <==> value is Object || value is Function || value is Array
            || value is TooLong,
        nested_class(value) is Ok <==> value is Object || value is Function || value is Array
            || value is TooLong,
        view_class(Err(error)) == Err::<(), ScriptError<Seq<char>>>(error::error_view(error)),
        value matches ScriptValue::Raised(message) ==> view_class(Ok(value)) == Err::<
            (),
            ScriptError<Seq<char>>,
        >(ScriptError::Raised { message: message@ }),
{
}

/// An application is mounted by the runtime that loaded it unless it was mounted before.
pub proof fn law_an_application_is_mounted_by_its_runtime(
    runtime: u32,
    application: LoadedApplication,
)
    ensures
        mounting(runtime, application) is Ok <==> application.runtime == runtime
            && !application.mounted,
{
}

/// A nested view that was constructed is retained last, under the handle that is answered, for its
/// owner and application; where there is no room, or construction failed, all that was retained
/// since the checkpoint is undone.
pub proof fn law_a_constructed_view_is_retained(
    m: RuntimeModel,
    checkpoint: RetainedCheckpoint,
    constructed: Result<u64, ScriptError<String>>,
    owner: Option<u64>,
    application: Option<u64>,
)
    requires
        m.entities.next < u64::MAX,
    ensures
        ({
            let (after, answer) = nested_retained(m, checkpoint, constructed, owner, application);
            &&& answer is Ok <==> constructed is Ok && entities::has_room(m.entities)
            &&& answer matches Ok(handle) ==> {
                let record = after.entities.records.last();
                &&& after.entities.records.drop_last() == m.entities.records
                &&& after.entities.records.len() == m.entities.records.len() + 1
                &&& record.handle == handle == m.entities.next
                &&& after.entities.next == handle + 1
                &&& record.view == Some(constructed->Ok_0)
                &&& record.owner == owner
                &&& record.application == application
                &&& after == (RuntimeModel { entities: after.entities, ..m })
            }
            &&& answer is Err ==> after == rolled_back(m, checkpoint)
            &&& constructed matches Err(error) ==> answer == Err::<u64, ScriptError<Seq<char>>>(
                error::error_view(error),
            )
        }),
{
    let after = nested_retained(m, checkpoint, constructed, owner, application).0;
    if constructed is Ok && entities::has_room(m.entities) {
        assert(after.entities.records.drop_last() =~= m.entities.records);
    }
}

/// A nested view whose initialization succeeded stays as it is under its handle; one whose
/// initialization failed is told with that error.
pub proof fn law_an_initialized_view_stays(
    m: RuntimeModel,
    checkpoint: RetainedCheckpoint,
    handle: u64,
    outcome: Result<(), ScriptError<String>>,
)
    ensures
        match outcome {
            Ok(()) => nested_settled(m, checkpoint, handle, outcome) == (
                m,
                Ok::<u64, ScriptError<Seq<char>>>(handle),
            ),
            Err(error) => nested_settled(m, checkpoint, handle, outcome).1 == Err::<
                u64,
                ScriptError<Seq<char>>,
            >(error::error_view(error)),
        },
{
}

/// Going back to a checkpoint takes back what was retained and started since, and nothing else.
pub proof fn law_a_change_is_undone(
    before: RuntimeModel,
    after: RuntimeModel,
    later: Seq<EntityRecord>,
    started: Seq<Task>,
)
    requires
        well_formed(before),
        after.entities.records == before.entities.records + later,
        forall|i: int|
            0 <= i < later.len() ==> (#[trigger] later[i]).handle >= before.entities.next,
        after.tasks.tasks == before.tasks.tasks + started,
        forall|i: int|
            0 <= i < started.len() ==> (#[trigger] started[i]).number >= before.tasks.next,
    ensures
        ({
            let checkpoint = RetainedCheckpoint {
                entities: before.entities.next,
                tasks: before.tasks.next,
            };
            let undone = rolled_back(after, checkpoint);
            &&& undone.entities.records == before.entities.records
            &&& forall|task: Task| #[trigger]
                undone.tasks.tasks.contains(task) ==> before.tasks.tasks.contains(task)
            &&& undone.states == after.states
            &&& undone.effects == after.effects
            &&& undone.templates == after.templates
            &&& undone.active == after.active
            &&& undone.modules == after.modules
            &&& undone.nested.pending == after.nested.pending
        }),
{
    let checkpoint = RetainedCheckpoint {
        entities: before.entities.next,
        tasks: before.tasks.next,
    };
    entities::law_entities_go_back_to_a_checkpoint(before.entities, later);
    tasks::law_tasks_go_back_to_a_checkpoint(before.tasks, started);
    let release = EntityRelease::Since(checkpoint.entities);
    let views = entities::gone_views(after.entities.records, release);
    let quiet = tasks::ended(after.tasks, Ending::Since(checkpoint.tasks));
    let undone = rolled_back(after, checkpoint);
    assert forall|task: Task| #[trigger]
        undone.tasks.tasks.contains(task) implies before.tasks.tasks.contains(task) by {
        lemma_view_tasks_subset(quiet, views, task);
    }
}

/// An update that failed is told with its own error, unless the view's state could not be put back:
/// then with why not, and the update's error as the cause.
pub proof fn law_a_failed_update_tells_its_error(
    m: RuntimeModel,
    checkpoint: RetainedCheckpoint,
    error: ScriptError<Seq<char>>,
    restored: Result<(), Seq<char>>,
)
    ensures
        update_undone(m, checkpoint, error, restored).0 == rolled_back(m, checkpoint),
        restored is Ok ==> update_undone(m, checkpoint, error, restored).1 == error,
        restored matches Err(reason) ==> match update_undone(m, checkpoint, error, restored).1 {
            ScriptError::RestoreFailed { message, cause } => message == reason && cause
                == error::error_text(error),
            _ => false,
        },
{
}

/// The functions of a view and of a panel are those they were given; nothing is none, and anything
/// else is refused.
pub proof fn law_a_hook_is_the_function_given(property: ScriptValue, kind: Seq<char>)
    ensures
        match updater(property) {
            Ok(Some(function)) => property == ScriptValue::Function(function),
            Ok(None) => property is Undefined || property is Null,
            Err(fault) => fault == Fault::UpdateNotFunction && !(property is Function || property
                is Undefined || property is Null),
        },
        has_update(property) <==> updater(property) != Ok::<Option<u64>, Fault>(None),
        match hook(property, kind) {
            Ok(Some(function)) => property == ScriptValue::Function(function),
            Ok(None) => property is Undefined || property is Null,
            Err(ScriptError::Raised { message }) => property matches ScriptValue::Raised(thrown)
                && thrown@ == message,
            Err(ScriptError::NotFunction { kind: named }) => named == kind && !(property is Function
                || property is Undefined || property is Null || property is Raised),
            Err(_) => false,
        },
{
}

/// The engine is entered unless it was given up, and what waits then is counted; a script that
/// succeeds keeps what it asked for.
pub proof fn law_a_script_that_succeeds_keeps_its_requests(m: RuntimeModel, checkpoint: nat)
    ensures
        js_entry(m) is Ok <==> !m.disabled,
        js_entry(m) matches Ok(waiting) ==> waiting == m.nested.pending.len(),
        js_left(m, checkpoint, false) == m,
        quarantined(m).disabled,
        quarantined(m).nested == m.nested,
        quarantined(m).callbacks == m.callbacks,
        quarantined(m).entities == m.entities,
{
}

/// A warning is about the export that was used; a warning about one export is none about another.
pub proof fn law_a_warning_is_about_its_export(
    m: RuntimeModel,
    export: Seq<char>,
    replacement: Seq<char>,
    message: Seq<char>,
    other: Seq<char>,
)
    ensures
        ({
            let (after, warning) = deprecation(m, export, replacement, message);
            &&& warning is Some <==> !m.warned.contains(export)
            &&& after.warned.contains(export)
            &&& other != export ==> (after.warned.contains(other) <==> m.warned.contains(other))
            &&& warning matches Some(text) ==> {
                let named = "JavaScript component export `"@.len() as int;
                let instead = named + export.len() + "` is deprecated; use `"@.len();
                &&& text.subrange(named, named + export.len()) == export
                &&& text.subrange(instead, instead + replacement.len()) == replacement
                &&& text.skip(text.len() - message.len()) == message
            }
        }),
{
    let (after, warning) = deprecation(m, export, replacement, message);
    if !m.warned.contains(export) {
        assert(after.warned[m.warned.len() as int] == export);
        let text = deprecation_text(export, replacement, message);
        let named = "JavaScript component export `"@.len() as int;
        let instead = named + export.len() + "` is deprecated; use `"@.len();
        assert(text.subrange(named, named + export.len()) =~= export);
        assert(text.subrange(instead, instead + replacement.len()) =~= replacement);
        assert(text.skip(text.len() - message.len()) =~= message);
        if m.warned.contains(other) {
            let k = choose|k: int| 0 <= k < m.warned.len() && m.warned[k] == other;
            assert(after.warned[k] == other);
        }
        if after.warned.contains(other) && other != export {
            let k = choose|k: int| 0 <= k < after.warned.len() && after.warned[k] == other;
            assert(m.warned[k] == other);
        }
    }
}

/// A panel class is found again under the name it was registered with, with its class, its
/// application and the authority of the call; other panels stay. Without a call nothing is
/// registered.
pub proof fn law_a_panel_class_is_found_again(
    m: RuntimeModel,
    current: HostScope,
    registered: Option<Seq<char>>,
    class: u64,
    other: Seq<char>,
)
    ensures
        ({
            let (after, answer) = panel_registered(m, current, registered, class);
            &&& answer is Ok <==> current.policy is Some && registered is Some
            &&& answer is Err ==> after == m
            &&& answer matches Ok(name) ==> {
                &&& registered == Some(name)
                &&& after.panels.contains_key(name)
                &&& after.panels[name].class == class
                &&& Some(after.panels[name].policy) == current.policy
                &&& match current.application {
                    Some(application) => after.panels[name].application == Some(
                        application.generation,
                    ),
                    None => after.panels[name].application is None,
                }
                &&& other != name ==> (after.panels.contains_key(other) <==> m.panels.contains_key(
                    other,
                ))
                &&& other != name && m.panels.contains_key(other) ==> after.panels[other]
                    == m.panels[other]
            }
        }),
{
}

/// A token is live where it stands for a handle that leads to a view.
pub proof fn law_a_token_is_live_while_its_view_exists(m: RuntimeModel, token: u32)
    requires
        well_formed(m),
    ensures
        token_lives(m, token) <==> m.nested.handles.contains_key(token) && exists|i: int|
            0 <= i < m.entities.records.len() && (#[trigger] m.entities.records[i]).handle
                == m.nested.handles[token].handle && m.entities.records[i].view is Some,
{
    if m.nested.handles.contains_key(token) {
        entities::law_a_handle_leads_to_its_view(m.entities, m.nested.handles[token].handle);
    }
}

/// A new view is asked for in events only. The request holds a lease of the load that the view being
/// initialized, or else the view that asks, comes from, while that load is registered.
pub proof fn law_a_new_view_keeps_its_modules_loaded(
    m: RuntimeModel,
    current: HostScope,
    parent: Option<ParentView>,
    class: u64,
    props: u64,
)
    ensures
        ({
            let (after, answer) = view_asked(m, current, parent, class, props);
            &&& answer is Err ==> after == m
            &&& answer is Ok <==> (current.phase is None || current.phase == Some(
                scope::ScopePhase::Event,
            )) && current.view is Some && parent is Some && m.nested.next_token < u32::MAX
            &&& answer is Ok ==> {
                let origin = if m.nested.initializing.len() > 0 {
                    m.nested.initializing.last()
                } else {
                    parent->Some_0.origin
                };
                &&& after.nested == nested::creation(
                    m.nested,
                    current,
                    parent,
                    class,
                    props,
                    lease_for(m.modules, origin),
                ).0
                &&& lease_for(m.modules, origin) matches Some(lease) ==> origin.load == Some(
                    lease.load(),
                ) && modules::generation_of(m.modules.applications, lease.load()) == Some(
                    lease.tag(),
                )
                &&& lease_for(m.modules, origin) is Some <==> (origin.load matches Some(load)
                    && modules::generation_of(m.modules.applications, load) is Some)
                &&& origin.load matches Some(load) ==> after.modules == modules::shared(
                    m.modules,
                    load,
                )
                &&& origin.load is None ==> after.modules == m.modules
            }
        }),
{
    let origin = nested::origin_for(m.nested, parent->Some_0);
    match origin.load {
        Some(load) => {
            match modules::generation_of(m.modules.applications, load) {
                Some(generation) => {
                    modules::lemma_lease_on(load, generation);
                },
                None => {},
            }
        },
        None => {},
    }
}

/// Views that an instance creates take over its modules and its application.
pub proof fn law_a_view_hands_down_where_it_comes_from(object: ViewObject)
    ensures
        origin_of(object).application == object.application,
        object.module_lease matches Some(lease) ==> origin_of(object).load == Some(lease.load()),
        object.module_lease is None ==> origin_of(object).load is None,
{
}

} // verus!
