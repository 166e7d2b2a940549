//! Which script function an event reaches, with whose authority, and what comes of its answer.
//!
//! A function that a description refers to can be called only while that description stands, its
//! application is active and its view is alive. It runs with the authority of its view. Besides the
//! arguments listed here every function is handed, as the last one, a context for the call.
use crate::argument::RenderedRoot;
use crate::argument::element_id;
use crate::argument;
use crate::callbacks::{CallbackArena, CallbackEntry, Registered};
use crate::callbacks;
use crate::data::{BudgetModel, ComponentDataBudget, ComponentDataValue, DataModel};
use crate::data::{component_data_from_js, component_data_into_js};
use crate::data;
use crate::error::{Fault, ScriptError};
use crate::error;
use crate::nested;
use crate::number::Number;
use crate::number;
use crate::payload::{
    ComponentCallbackArgument, InputEvent, Keystroke, Modifiers, MousePress, Painted, Payload,
    PayloadModel, Scroll, SliderValue, Spot,
};
use crate::payload;
use crate::scope::{HostScope, ScopePhase};
use crate::scope;
use crate::text;
use crate::value::ScriptValue;
use vstd::prelude::*;
use vstd::string::*;

verus! {

/// Which applications are active, by generation, and which views are alive.
pub struct Liveness {
    pub applications: Vec<u64>,
    pub views: Vec<u64>,
}

/// Whether what belongs to an application may run. What belongs to none may.
pub open spec fn active(live: Liveness, application: Option<u64>) -> bool {
    match application {
        Some(generation) => live.applications@.contains(generation),
        None => true,
    }
}

/// Whether a view is alive, if there is one.
pub open spec fn alive(live: Liveness, view: Option<u64>) -> bool {
    match view {
        Some(view) => live.views@.contains(view),
        None => true,
    }
}

impl Liveness {
    /// Whether what belongs to an application may run.
    pub fn is_active(&self, application: Option<u64>) -> (r: bool)
        ensures
            r == active(*self, application),
    {
        match application {
            Some(generation) => nested::holds(&self.applications, generation),
            None => true,
        }
    }

    /// Whether a view is alive, if there is one.
    pub fn is_alive(&self, view: Option<u64>) -> (r: bool)
        ensures
            r == alive(*self, view),
    {
        match view {
            Some(view) => nested::holds(&self.views, view),
            None => true,
        }
    }
}

/// Why a function is not called.
#[derive(Clone, Copy, PartialEq, Eq, Structural, Debug)]
pub enum Refusal {
    /// Its description has been replaced.
    Superseded,
    /// Its application has been retired.
    Retired,
    /// Its view is gone.
    Released,
}

/// The authority that a function runs with.
#[derive(Clone, Copy, PartialEq, Eq, Structural, Debug)]
pub enum CallPolicy {
    /// That of this view.
    OfView(u64),
    /// That of code without a view.
    Default,
    /// That which was in force when the script subscribed.
    Captured(u64),
}

/// How a function is called.
#[derive(Clone, Copy, PartialEq, Eq, Structural, Debug)]
pub struct CallPlan {
    /// The function.
    pub handler: u64,
    pub phase: ScopePhase,
    pub view: Option<u64>,
    pub policy: CallPolicy,
    pub application: Option<u64>,
    /// An earlier call whose context stays valid during this one.
    pub adopted: Option<u64>,
    /// Whether elements are described apart from the description being made.
    pub isolated: bool,
    /// Whether what the script has queued runs when the function has returned.
    pub drains: bool,
}

/// A call, and what the function is handed.
pub struct Delivery {
    pub plan: CallPlan,
    pub arguments: Vec<Payload>,
}

/// The function behind a number, or why it is not called.
pub open spec fn admitted(entries: Seq<Registered>, live: Liveness, id: u64) -> Result<
    CallbackEntry,
    Refusal,
> {
    match callbacks::callable(entries, id) {
        None => Err(Refusal::Superseded),
        Some(entry) => if !active(live, entry.application) {
            Err(Refusal::Retired)
        } else if !alive(live, entry.view) {
            Err(Refusal::Released)
        } else {
            Ok(entry)
        },
    }
}

/// The function behind a number, or why it is not called.
pub fn admission(callbacks: &CallbackArena, live: &Liveness, id: u64) -> (r: Result<
    CallbackEntry,
    Refusal,
>)
    ensures
        r == admitted(callbacks@.entries, *live, id),
{
    match callbacks.get(id) {
        None => Err(Refusal::Superseded),
        Some(entry) => if !live.is_active(entry.application) {
            Err(Refusal::Retired)
        } else if !live.is_alive(entry.view) {
            Err(Refusal::Released)
        } else {
            Ok(entry)
        },
    }
}

/// The authority of a view, or that of code without one.
pub open spec fn policy_of(view: Option<u64>) -> CallPolicy {
    match view {
        Some(view) => CallPolicy::OfView(view),
        None => CallPolicy::Default,
    }
}

/// How a function is called for an event.
pub open spec fn event_call(entry: CallbackEntry) -> CallPlan {
    CallPlan {
        handler: entry.value,
        phase: ScopePhase::Event,
        view: entry.view,
        policy: policy_of(entry.view),
        application: entry.application,
        adopted: None,
        isolated: false,
        drains: true,
    }
}

/// How a function is called while a frame is laid out: what it describes is kept apart, the context
/// it was registered with stays valid, and nothing that the script has queued runs.
pub open spec fn layout_call(entry: CallbackEntry) -> CallPlan {
    CallPlan {
        handler: entry.value,
        phase: ScopePhase::Layout,
        view: entry.view,
        policy: policy_of(entry.view),
        application: entry.application,
        adopted: entry.registered_in,
        isolated: true,
        drains: false,
    }
}

fn view_policy(view: Option<u64>) -> (r: CallPolicy)
    ensures
        r == policy_of(view),
{
    match view {
        Some(view) => CallPolicy::OfView(view),
        None => CallPolicy::Default,
    }
}

fn plan_event(entry: &CallbackEntry) -> (r: CallPlan)
    ensures
        r == event_call(*entry),
{
    CallPlan {
        handler: entry.value,
        phase: ScopePhase::Event,
        view: entry.view,
        policy: view_policy(entry.view),
        application: entry.application,
        adopted: None,
        isolated: false,
        drains: true,
    }
}

fn plan_layout(entry: &CallbackEntry) -> (r: CallPlan)
    ensures
        r == layout_call(*entry),
{
    CallPlan {
        handler: entry.value,
        phase: ScopePhase::Layout,
        view: entry.view,
        policy: view_policy(entry.view),
        application: entry.application,
        adopted: entry.registered_in,
        isolated: true,
        drains: false,
    }
}

/// How the function behind a number is called for an event, or why it is not.
pub open spec fn event_plan(entries: Seq<Registered>, live: Liveness, id: u64) -> Result<
    CallPlan,
    Refusal,
> {
    match admitted(entries, live, id) {
        Ok(entry) => Ok(event_call(entry)),
        Err(refusal) => Err(refusal),
    }
}

/// How the function behind a number is called while a frame is laid out, or why it is not.
pub open spec fn layout_plan(entries: Seq<Registered>, live: Liveness, id: u64) -> Result<
    CallPlan,
    Refusal,
> {
    match admitted(entries, live, id) {
        Ok(entry) => Ok(layout_call(entry)),
        Err(refusal) => Err(refusal),
    }
}

/// Whether a call is made as planned, and with these arguments.
pub open spec fn delivers(
    r: Result<Delivery, Refusal>,
    plan: Result<CallPlan, Refusal>,
    arguments: Seq<PayloadModel>,
) -> bool {
    match (r, plan) {
        (Ok(delivery), Ok(plan)) => {
            &&& delivery.plan == plan
            &&& payload::payload_models(delivery.arguments@) == arguments
        },
        (Err(refusal), Err(expected)) => refusal == expected,
        _ => false,
    }
}

fn one(first: Payload) -> (r: Vec<Payload>)
    ensures
        payload::payload_models(r@) == seq![first.model()],
{
    let mut list: Vec<Payload> = Vec::new();
    list.push(first);
    assert(payload::payload_models(list@) =~= seq![first.model()]);
    list
}

fn two(first: Payload, second: Payload) -> (r: Vec<Payload>)
    ensures
        payload::payload_models(r@) == seq![first.model(), second.model()],
{
    let mut list: Vec<Payload> = Vec::new();
    list.push(first);
    list.push(second);
    assert(payload::payload_models(list@) =~= seq![first.model(), second.model()]);
    list
}

/// Calls the function behind a number for an event, if it may be called.
pub fn dispatch_simple_event(
    callbacks: &CallbackArena,
    live: &Liveness,
    id: u64,
    payload: Payload,
) -> (r: Result<Delivery, Refusal>)
    ensures
        delivers(r, event_plan(callbacks@.entries, *live, id), seq![payload.model()]),
{
    match admission(callbacks, live, id) {
        Ok(entry) => Ok(Delivery { plan: plan_event(&entry), arguments: one(payload) }),
        Err(refusal) => Err(refusal),
    }
}

/// Reports which item of a list something happened to.
pub fn dispatch_item_key(callbacks: &CallbackArena, live: &Liveness, id: u64, key: &str) -> (r:
    Result<Delivery, Refusal>)
    ensures
        delivers(
            r,
            event_plan(callbacks@.entries, *live, id),
            seq![PayloadModel::Text(key@)],
        ),
{
    dispatch_simple_event(callbacks, live, id, Payload::text(key))
}

/// Reports a press on an item of a list: the item's key, and the press.
pub fn dispatch_item_mouse_button(
    callbacks: &CallbackArena,
    live: &Liveness,
    id: u64,
    key: &str,
    press: &MousePress,
) -> (r: Result<Delivery, Refusal>)
    ensures
        delivers(
            r,
            event_plan(callbacks@.entries, *live, id),
            seq![PayloadModel::Text(key@), payload::mouse_button_model(*press)],
        ),
{
    match admission(callbacks, live, id) {
        Ok(entry) => Ok(
            Delivery {
                plan: plan_event(&entry),
                arguments: two(Payload::text(key), payload::mouse_button_payload(press)),
            },
        ),
        Err(refusal) => Err(refusal),
    }
}

/// Reports a click.
pub fn dispatch_click(
    callbacks: &CallbackArena,
    live: &Liveness,
    id: u64,
    click_count: u64,
    modifiers: Modifiers,
) -> (r: Result<Delivery, Refusal>)
    ensures
        delivers(
            r,
            event_plan(callbacks@.entries, *live, id),
            seq![payload::click_model(click_count, modifiers)],
        ),
{
    dispatch_simple_event(callbacks, live, id, payload::click_payload(click_count, modifiers))
}

/// Reports the sizes of the panels of a group after they were dragged, in order.
pub fn dispatch_resize(
    callbacks: &CallbackArena,
    live: &Liveness,
    id: u64,
    sizes: &Vec<u32>,
) -> (r: Result<Delivery, Refusal>)
    ensures
        delivers(
            r,
            event_plan(callbacks@.entries, *live, id),
            seq![payload::sizes_model(sizes@)],
        ),
{
    dispatch_simple_event(callbacks, live, id, payload::resize_payload(sizes))
}

/// Reports a movement of the pointer over a painted element.
pub fn dispatch_mouse_move(
    callbacks: &CallbackArena,
    live: &Liveness,
    id: u64,
    position: Spot,
    painted: Painted,
    modifiers: Modifiers,
) -> (r: Result<Delivery, Refusal>)
    ensures
        delivers(
            r,
            event_plan(callbacks@.entries, *live, id),
            seq![payload::mouse_move_model(position, painted, modifiers)],
        ),
{
    dispatch_simple_event(callbacks, live, id, payload::mouse_move_payload(position, painted, modifiers))
}

/// Reports an action, by its name.
pub fn dispatch_action(
    callbacks: &CallbackArena,
    live: &Liveness,
    id: u64,
    action: &str,
) -> (r: Result<Delivery, Refusal>)
    ensures
        delivers(
            r,
            event_plan(callbacks@.entries, *live, id),
            seq![payload::action_model(action@)],
        ),
{
    dispatch_simple_event(callbacks, live, id, payload::action_payload(action))
}

/// Reports a press or release of a mouse button.
pub fn dispatch_mouse_button(
    callbacks: &CallbackArena,
    live: &Liveness,
    id: u64,
    press: &MousePress,
) -> (r: Result<Delivery, Refusal>)
    ensures
        delivers(
            r,
            event_plan(callbacks@.entries, *live, id),
            seq![payload::mouse_button_model(*press)],
        ),
{
    dispatch_simple_event(callbacks, live, id, payload::mouse_button_payload(press))
}

/// Reports a turn of the wheel.
pub fn dispatch_scroll_wheel(
    callbacks: &CallbackArena,
    live: &Liveness,
    id: u64,
    scroll: &Scroll,
) -> (r: Result<Delivery, Refusal>)
    ensures
        delivers(
            r,
            event_plan(callbacks@.entries, *live, id),
            seq![payload::scroll_model(*scroll)],
        ),
{
    dispatch_simple_event(callbacks, live, id, payload::scroll_payload(scroll))
}

/// Reports which modifier keys are held, and whether capitals are locked.
pub fn dispatch_modifiers_changed(
    callbacks: &CallbackArena,
    live: &Liveness,
    id: u64,
    modifiers: Modifiers,
    capslock: bool,
) -> (r: Result<Delivery, Refusal>)
    ensures
        delivers(
            r,
            event_plan(callbacks@.entries, *live, id),
            seq![payload::modifiers_changed_model(modifiers, capslock)],
        ),
{
    dispatch_simple_event(callbacks, live, id, payload::modifiers_changed_payload(modifiers, capslock))
}

/// Reports a press of a key, or its release, which does not tell whether the key is held.
pub fn dispatch_key(
    callbacks: &CallbackArena,
    live: &Liveness,
    id: u64,
    keystroke: &Keystroke,
    is_held: Option<bool>,
) -> (r: Result<Delivery, Refusal>)
    ensures
        delivers(
            r,
            event_plan(callbacks@.entries, *live, id),
            seq![payload::key_model(*keystroke, is_held)],
        ),
{
    dispatch_simple_event(callbacks, live, id, payload::key_payload(keystroke, is_held))
}

/// Reports that a control was switched on or off.
pub fn dispatch_change(
    callbacks: &CallbackArena,
    live: &Liveness,
    id: u64,
    checked: bool,
) -> (r: Result<Delivery, Refusal>)
    ensures
        delivers(
            r,
            event_plan(callbacks@.entries, *live, id),
            seq![PayloadModel::Boolean(checked)],
        ),
{
    dispatch_simple_event(callbacks, live, id, Payload::Boolean(checked))
}

/// Reports an event of a component of the embedding application.
pub fn dispatch_host_event(
    callbacks: &CallbackArena,
    live: &Liveness,
    id: u64,
    payload: Payload,
) -> (r: Result<Delivery, Refusal>)
    ensures
        delivers(
            r,
            event_plan(callbacks@.entries, *live, id),
            seq![payload.model()],
        ),
{
    dispatch_simple_event(callbacks, live, id, payload)
}

/// Reports which way a number was stepped, by name.
pub fn dispatch_step(
    callbacks: &CallbackArena,
    live: &Liveness,
    id: u64,
    action: &str,
) -> (r: Result<Delivery, Refusal>)
    ensures
        delivers(
            r,
            event_plan(callbacks@.entries, *live, id),
            seq![PayloadModel::Text(action@)],
        ),
{
    dispatch_simple_event(callbacks, live, id, Payload::text(action))
}

/// Reports only that something happened.
pub fn dispatch_signal(
    callbacks: &CallbackArena,
    live: &Liveness,
    id: u64,
) -> (r: Result<Delivery, Refusal>)
    ensures
        delivers(
            r,
            event_plan(callbacks@.entries, *live, id),
            seq![PayloadModel::Record(Seq::empty())],
        ),
{
    dispatch_simple_event(callbacks, live, id, Payload::empty())
}

/// On whose behalf a script has subscribed to something that outlives its view.
#[derive(Clone, Copy, PartialEq, Eq, Structural, Debug)]
pub struct InputCallbackOwner {
    pub policy: u64,
    pub application: Option<u64>,
    pub view: Option<u64>,
}

/// On whose behalf a subscription is made: with the authority in force, for the application and the
/// view whose code is running, if any is.
pub open spec fn owner_of(scope: HostScope, default: u64) -> InputCallbackOwner {
    InputCallbackOwner {
        policy: scope::authority(scope, default),
        application: scope::current_generation(scope),
        view: scope.view,
    }
}

/// How a subscribed function is called, or why it is not. One whose view is gone is still called,
/// without a view.
pub open spec fn owned_plan(
    handler: u64,
    owner: InputCallbackOwner,
    live: Liveness,
) -> Result<CallPlan, Refusal> {
    if active(live, owner.application) {
        Ok(
            CallPlan {
                handler,
                phase: ScopePhase::Event,
                view: if alive(live, owner.view) {
                    owner.view
                } else {
                    None
                },
                policy: CallPolicy::Captured(owner.policy),
                application: owner.application,
                adopted: None,
                isolated: false,
                drains: true,
            },
        )
    } else {
        Err(Refusal::Retired)
    }
}

/// Calls a subscribed function.
fn deliver_owned(
    handler: u64,
    owner: &InputCallbackOwner,
    live: &Liveness,
    arguments: Vec<Payload>,
) -> (r: Result<Delivery, Refusal>)
    ensures
        delivers(r, owned_plan(handler, *owner, *live), payload::payload_models(arguments@)),
{
    if !live.is_active(owner.application) {
        return Err(Refusal::Retired);
    }
    let view = if live.is_alive(owner.view) {
        owner.view
    } else {
        None
    };
    Ok(
        Delivery {
            plan: CallPlan {
                handler,
                phase: ScopePhase::Event,
                view,
                policy: CallPolicy::Captured(owner.policy),
                application: owner.application,
                adopted: None,
                isolated: false,
                drains: true,
            },
            arguments,
        },
    )
}

/// On whose behalf a subscription is made. `default` is the authority where no call is in progress.
pub fn callback_owner(current: &HostScope, default: u64) -> (r: InputCallbackOwner)
    ensures
        r == owner_of(*current, default),
{
    InputCallbackOwner {
        policy: current.policy(default),
        application: current.generation(),
        view: current.view,
    }
}

/// Tells a script that the layout it watches has changed. The event carries nothing.
pub fn dispatch_dock_event(handler: u64, owner: &InputCallbackOwner, live: &Liveness) -> (r: Result<
    Delivery,
    Refusal,
>)
    ensures
        delivers(r, owned_plan(handler, *owner, *live), Seq::empty()),
{
    let none: Vec<Payload> = Vec::new();
    assert(payload::payload_models(none@) =~= Seq::empty());
    deliver_owned(handler, owner, live, none)
}

/// Tells a script that a one-time code was entered.
pub fn dispatch_otp_event(
    handler: u64,
    owner: &InputCallbackOwner,
    live: &Liveness,
) -> (r: Result<Delivery, Refusal>)
    ensures
        delivers(r, owned_plan(handler, *owner, *live), seq![PayloadModel::Record(Seq::empty())]),
{
    deliver_owned(handler, owner, live, one(Payload::empty()))
}

/// Tells a script what happened to an input.
pub fn dispatch_input_event(
    handler: u64,
    owner: &InputCallbackOwner,
    live: &Liveness,
    event: InputEvent,
) -> (r: Result<Delivery, Refusal>)
    ensures
        delivers(r, owned_plan(handler, *owner, *live), seq![payload::input_model(event)]),
{
    deliver_owned(handler, owner, live, one(payload::input_payload(event)))
}

/// Tells a script which date was chosen. The embedding application has taken it apart.
pub fn dispatch_calendar_event(
    handler: u64,
    owner: &InputCallbackOwner,
    live: &Liveness,
    date: Payload,
) -> (r: Result<Delivery, Refusal>)
    ensures
        delivers(r, owned_plan(handler, *owner, *live), seq![date.model()]),
{
    deliver_owned(handler, owner, live, one(date))
}

/// Tells a script where a slider stands.
pub fn dispatch_slider_event(
    handler: u64,
    owner: &InputCallbackOwner,
    live: &Liveness,
    value: SliderValue,
) -> (r: Result<Delivery, Refusal>)
    ensures
        delivers(r, owned_plan(handler, *owner, *live), seq![payload::slider_model(value)]),
{
    deliver_owned(handler, owner, live, one(payload::slider_payload(value)))
}

/// What a component learns of a refusal.
pub open spec fn refusal_error(id: u64, refusal: Refusal) -> ScriptError<Seq<char>> {
    match refusal {
        Refusal::Superseded => ScriptError::CallbackSuperseded { id },
        Refusal::Retired => ScriptError::CallbackRetired { id },
        Refusal::Released => ScriptError::CallbackReleased { id },
    }
}

fn refused(id: u64, refusal: Refusal) -> (r: ScriptError<String>)
    ensures
        error::error_view(r) == refusal_error(id, refusal),
{
    match refusal {
        Refusal::Superseded => ScriptError::CallbackSuperseded { id },
        Refusal::Retired => ScriptError::CallbackRetired { id },
        Refusal::Released => ScriptError::CallbackReleased { id },
    }
}

/// Whether a component's call is made as planned and with these arguments, or refused with the
/// error that tells why.
pub open spec fn component_delivers(
    r: Result<Delivery, ScriptError<String>>,
    id: u64,
    plan: Result<CallPlan, Refusal>,
    arguments: Seq<PayloadModel>,
) -> bool {
    match (r, plan) {
        (Ok(delivery), Ok(plan)) => {
            &&& delivery.plan == plan
            &&& payload::payload_models(delivery.arguments@) == arguments
        },
        (Err(error), Err(refusal)) => error::error_view(error) == refusal_error(id, refusal),
        _ => false,
    }
}

/// Calls a function for a component that reads its answer.
pub fn dispatch_component_callback_value(
    callbacks: &CallbackArena,
    live: &Liveness,
    id: u64,
    values: &Vec<ComponentCallbackArgument>,
) -> (r: Result<Delivery, ScriptError<String>>)
    ensures
        component_delivers(
            r,
            id,
            event_plan(callbacks@.entries, *live, id),
            payload::argument_models(values@),
        ),
{
    match admission(callbacks, live, id) {
        Ok(entry) => {
            let mut arguments: Vec<Payload> = Vec::new();
            assert(payload::payload_models(arguments@) =~= Seq::empty());
            payload::push_component_callback_arguments(&mut arguments, values);
            assert(payload::payload_models(arguments@) =~= payload::argument_models(values@));
            Ok(Delivery { plan: plan_event(&entry), arguments })
        },
        Err(refusal) => Err(refused(id, refusal)),
    }
}

/// Calls a function for a component that reads data, or an element, out of its answer while a frame
/// is laid out.
pub fn dispatch_component_data_callback(
    callbacks: &CallbackArena,
    live: &Liveness,
    id: u64,
    values: &Vec<ComponentCallbackArgument>,
) -> (r: Result<Delivery, ScriptError<String>>)
    ensures
        component_delivers(
            r,
            id,
            layout_plan(callbacks@.entries, *live, id),
            payload::argument_models(values@),
        ),
{
    match admission(callbacks, live, id) {
        Ok(entry) => {
            let mut arguments: Vec<Payload> = Vec::new();
            assert(payload::payload_models(arguments@) =~= Seq::empty());
            payload::push_component_callback_arguments(&mut arguments, values);
            assert(payload::payload_models(arguments@) =~= payload::argument_models(values@));
            Ok(Delivery { plan: plan_layout(&entry), arguments })
        },
        Err(refusal) => Err(refused(id, refusal)),
    }
}

/// Calls a function for a component that shows the element it answers.
pub fn dispatch_component_element_callback(
    callbacks: &CallbackArena,
    live: &Liveness,
    id: u64,
    values: &Vec<ComponentCallbackArgument>,
) -> (r: Result<Delivery, ScriptError<String>>)
    ensures
        component_delivers(
            r,
            id,
            layout_plan(callbacks@.entries, *live, id),
            payload::argument_models(values@),
        ),
{
    dispatch_component_data_callback(callbacks, live, id, values)
}

/// Whether script values show data, one for one.
pub open spec fn all_show(shown: Seq<ScriptValue>, values: Seq<ComponentDataValue>) -> bool {
    &&& shown.len() == values.len()
    &&& forall|i: int|
        0 <= i < shown.len() ==> data::shows(#[trigger] shown[i], values[i].model())
}

/// Calls a function, with data, for a component that shows the element it answers.
pub fn dispatch_component_element_data_callback(
    callbacks: &CallbackArena,
    live: &Liveness,
    id: u64,
    values: &Vec<ComponentDataValue>,
) -> (r: Result<(CallPlan, Vec<ScriptValue>), ScriptError<String>>)
    ensures
        match (r, layout_plan(callbacks@.entries, *live, id)) {
            (Ok((plan, shown)), Ok(expected)) => plan == expected && all_show(shown@, values@),
            (Err(error), Err(refusal)) => error::error_view(error) == refusal_error(id, refusal),
            _ => false,
        },
{
    match admission(callbacks, live, id) {
        Ok(entry) => {
            let mut shown: Vec<ScriptValue> = Vec::new();
            let mut i: usize = 0;
            while i < values.len()
                invariant
                    i <= values@.len(),
                    shown@.len() == i,
                    forall|j: int|
                        0 <= j < i ==> data::shows(#[trigger] shown@[j], values@[j].model()),
                decreases values@.len() - i,
            {
                shown.push(component_data_into_js(&values[i]));
                i += 1;
            }
            Ok((plan_layout(&entry), shown))
        },
        Err(refusal) => Err(refused(id, refusal)),
    }
}

/// What a component reads out of a function's answer.
pub enum ComponentCallbackValue<S> {
    Null,
    Boolean(bool),
    Number(Number),
    String(S),
}

/// What a component reads out of an answer, with a sequence in place of a string.
pub open spec fn callback_value_view(value: ComponentCallbackValue<String>) -> ComponentCallbackValue<
    Seq<char>,
> {
    match value {
        ComponentCallbackValue::Null => ComponentCallbackValue::Null,
        ComponentCallbackValue::Boolean(flag) => ComponentCallbackValue::Boolean(flag),
        ComponentCallbackValue::Number(number) => ComponentCallbackValue::Number(number),
        ComponentCallbackValue::String(string) => ComponentCallbackValue::String(string@),
    }
}

/// What a component reads out of an answer. Only nothing, a boolean, a finite number and a string
/// can be read.
pub open spec fn answered(value: ScriptValue) -> Result<
    ComponentCallbackValue<Seq<char>>,
    ScriptError<Seq<char>>,
> {
    match value {
        ScriptValue::Undefined | ScriptValue::Null => Ok(ComponentCallbackValue::Null),
        ScriptValue::Boolean(flag) => Ok(ComponentCallbackValue::Boolean(flag)),
        ScriptValue::Number(number) => if number::wide_finite(number.wide) {
            Ok(ComponentCallbackValue::Number(number))
        } else {
            Err(ScriptError::Fixed(Fault::CallbackResult))
        },
        ScriptValue::Text(string) => Ok(ComponentCallbackValue::String(string@)),
        ScriptValue::Broken(message) | ScriptValue::Raised(message) => Err(
            ScriptError::Raised { message: message@ },
        ),
        _ => Err(ScriptError::Fixed(Fault::CallbackResult)),
    }
}

/// What a component reads out of an answer.
pub fn component_callback_value(value: &ScriptValue) -> (r: Result<
    ComponentCallbackValue<String>,
    ScriptError<String>,
>)
    ensures
        match (r, answered(*value)) {
            (Ok(read), Ok(expected)) => callback_value_view(read) == expected,
            (Err(error), Err(expected)) => error::error_view(error) == expected,
            _ => false,
        },
{
    match value {
        ScriptValue::Undefined | ScriptValue::Null => Ok(ComponentCallbackValue::Null),
        ScriptValue::Boolean(flag) => Ok(ComponentCallbackValue::Boolean(*flag)),
        ScriptValue::Number(number) => if number.is_finite() {
            Ok(ComponentCallbackValue::Number(*number))
        } else {
            Err(ScriptError::Fixed(Fault::CallbackResult))
        },
        ScriptValue::Text(string) => Ok(
            ComponentCallbackValue::String(string.as_str().to_owned()),
        ),
        ScriptValue::Broken(message) | ScriptValue::Raised(message) => Err(
            ScriptError::Raised { message: message.as_str().to_owned() },
        ),
        _ => Err(ScriptError::Fixed(Fault::CallbackResult)),
    }
}

/// The data in a function's answer.
pub open spec fn answered_data(value: ScriptValue) -> Result<DataModel, ScriptError<Seq<char>>> {
    match data::data_of(value, 0, BudgetModel { nodes: 0, string_bytes: 0, keys: 0 }) {
        Ok((model, _)) => Ok(model),
        Err(error) => Err(error),
    }
}

/// The data in a function's answer.
pub fn component_callback_data(value: &ScriptValue) -> (r: Result<
    ComponentDataValue,
    ScriptError<String>,
>)
    ensures
        match (r, answered_data(*value)) {
            (Ok(read), Ok(expected)) => read.model() == expected,
            (Err(error), Err(expected)) => error::error_view(error) == expected,
            _ => false,
        },
{
    let mut budget = ComponentDataBudget::new();
    component_data_from_js(value, 0, &mut budget)
}

/// The element in a function's answer, or none where it answers nothing.
pub open spec fn described(value: ScriptValue) -> Result<
    Option<RenderedRoot<Seq<char>>>,
    ScriptError<Seq<char>>,
> {
    match value {
        ScriptValue::Undefined | ScriptValue::Null => Ok(None),
        _ => match argument::rendered(value) {
            Ok(root) => Ok(Some(root)),
            Err(error) => Err(error),
        },
    }
}

/// An element, if there is one, with a sequence in place of a string.
pub open spec fn optional_root_view(root: Option<RenderedRoot<String>>) -> Option<
    RenderedRoot<Seq<char>>,
> {
    match root {
        Some(root) => Some(argument::root_view(root)),
        None => None,
    }
}

/// The element in a function's answer, or none where it answers nothing.
pub fn described_element(value: &ScriptValue) -> (r: Result<
    Option<RenderedRoot<String>>,
    ScriptError<String>,
>)
    ensures
        match (r, described(*value)) {
            (Ok(root), Ok(expected)) => optional_root_view(root) == expected,
            (Err(error), Err(expected)) => error::error_view(error) == expected,
            _ => false,
        },
{
    match value {
        ScriptValue::Undefined | ScriptValue::Null => Ok(None),
        _ => match element_id(value) {
            Ok(root) => Ok(Some(root)),
            Err(error) => Err(error),
        },
    }
}

/// How the renderer of a list's items is called, or why it is not. The function that names the items
/// must stand too.
pub open spec fn items_plan(
    entries: Seq<Registered>,
    live: Liveness,
    id: u64,
    get_key: u64,
) -> Option<(CallPlan, u64)> {
    match (callbacks::callable(entries, get_key), layout_plan(entries, live, id)) {
        (Some(key_entry), Ok(plan)) => Some((plan, key_entry.value)),
        _ => None,
    }
}

/// A call of a renderer of items, and the function that names the items it is asked for.
pub struct ItemsDelivery {
    pub plan: CallPlan,
    pub key_handler: u64,
    pub arguments: Vec<Payload>,
}

/// Asks a list's renderer for the items of a range.
pub fn render_virtual_items(
    callbacks: &CallbackArena,
    live: &Liveness,
    id: u64,
    get_key: u64,
    start: u64,
    end: u64,
) -> (r: Option<ItemsDelivery>)
    ensures
        match (r, items_plan(callbacks@.entries, *live, id, get_key)) {
            (Some(delivery), Some((plan, key_handler))) => {
                &&& delivery.plan == plan
                &&& delivery.key_handler == key_handler
                &&& payload::payload_models(delivery.arguments@) == seq![
                    payload::range_model(start, end),
                ]
            },
            (None, None) => true,
            _ => false,
        },
{
    match (callbacks.get(get_key), admission(callbacks, live, id)) {
        (Some(key_entry), Ok(entry)) => Some(
            ItemsDelivery {
                plan: plan_layout(&entry),
                key_handler: key_entry.value,
                arguments: one(payload::range_payload(start, end)),
            },
        ),
        _ => None,
    }
}

/// The items in the answer of a renderer, one after the other. The first that is no element ends it.
pub open spec fn rendered_items(items: Seq<ScriptValue>) -> Result<
    Seq<RenderedRoot<Seq<char>>>,
    ScriptError<Seq<char>>,
>
    decreases items.len(),
{
    if items.len() == 0 {
        Ok(Seq::empty())
    } else {
        match rendered_items(items.drop_last()) {
            Err(error) => Err(error),
            Ok(roots) => match argument::rendered(items.last()) {
                Ok(root) => Ok(roots.push(root)),
                Err(error) => Err(error),
            },
        }
    }
}

/// The items in the answer of a renderer, which must be an array.
pub open spec fn items_of(value: ScriptValue) -> Result<
    Seq<RenderedRoot<Seq<char>>>,
    ScriptError<Seq<char>>,
> {
    match value {
        ScriptValue::Array { slot: _, items } => rendered_items(items@),
        ScriptValue::TooLong(message) | ScriptValue::Raised(message) => Err(
            ScriptError::Raised { message: message@ },
        ),
        _ => Err(ScriptError::Fixed(Fault::ItemArray)),
    }
}

/// Several elements, with sequences in place of strings.
pub open spec fn root_views(roots: Seq<RenderedRoot<String>>) -> Seq<RenderedRoot<Seq<char>>> {
    roots.map_values(|root: RenderedRoot<String>| argument::root_view(root))
}

proof fn lemma_items_stop(items: Seq<ScriptValue>, at: int)
    requires
        0 <= at <= items.len(),
        rendered_items(items.take(at)) is Err,
    ensures
        rendered_items(items) == rendered_items(items.take(at)),
    decreases items.len() - at,
{
    if at < items.len() {
        let next = items.take(at + 1);
        assert(next.drop_last() =~= items.take(at));
        lemma_items_stop(items, at + 1);
    } else {
        assert(items.take(at) =~= items);
    }
}

/// The items in the answer of a renderer.
pub fn read_items(value: &ScriptValue) -> (r: Result<
    Vec<RenderedRoot<String>>,
    ScriptError<String>,
>)
    ensures
        match (r, items_of(*value)) {
            (Ok(roots), Ok(expected)) => root_views(roots@) == expected,
            (Err(error), Err(expected)) => error::error_view(error) == expected,
            _ => false,
        },
{
    match value {
        ScriptValue::Array { slot: _, items } => {
            let mut roots: Vec<RenderedRoot<String>> = Vec::new();
            let mut i: usize = 0;
            assert(items@.take(0) =~= Seq::empty());
            assert(root_views(roots@) =~= Seq::empty());
            while i < items.len()
                invariant
                    i <= items@.len(),
                    rendered_items(items@.take(i as int)) == Ok::<
                        Seq<RenderedRoot<Seq<char>>>,
                        ScriptError<Seq<char>>,
                    >(root_views(roots@)),
                    items_of(*value) == rendered_items(items@),
                decreases items@.len() - i,
            {
                let ghost next = items@.take(i + 1);
                assert(next.drop_last() =~= items@.take(i as int));
                assert(next.last() == items@[i as int]);
                let ghost before = roots@;
                match element_id(&items[i]) {
                    Ok(root) => {
                        let ghost added = argument::root_view(root);
                        roots.push(root);
                        assert(root_views(roots@) =~= root_views(before).push(added));
                    },
                    Err(error) => {
                        proof {
                            lemma_items_stop(items@, i + 1);
                        }
                        return Err(error);
                    },
                }
                i += 1;
            }
            assert(items@.take(i as int) =~= items@);
            Ok(roots)
        },
        ScriptValue::TooLong(message) | ScriptValue::Raised(message) => Err(
            ScriptError::Raised { message: message.as_str().to_owned() },
        ),
        _ => Err(ScriptError::Fixed(Fault::ItemArray)),
    }
}

/// The names of the items of a range, as far as they have been asked for.
pub struct ItemKeys {
    keys: Vec<String>,
    start: u64,
    end: u64,
}

/// How many items a range has.
pub open spec fn items_in(start: u64, end: u64) -> nat {
    if start <= end {
        (end - start) as nat
    } else {
        0
    }
}

/// Whether no text occurs twice.
pub open spec fn all_differ(keys: Seq<Seq<char>>) -> bool {
    forall|i: int, j: int| 0 <= i < j < keys.len() ==> #[trigger] keys[i] != #[trigger] keys[j]
}

/// The names after one more was asked for, and what comes of it: no name may occur twice.
pub open spec fn named(
    keys: Seq<Seq<char>>,
    answer: Result<Seq<char>, Seq<char>>,
) -> (Seq<Seq<char>>, Result<(), ScriptError<Seq<char>>>) {
    match answer {
        Err(message) => (keys, Err(ScriptError::Raised { message })),
        Ok(key) => if keys.contains(key) {
            (keys, Err(ScriptError::DuplicateKey { key }))
        } else {
            (keys.push(key), Ok(()))
        },
    }
}

/// An answer, with sequences in place of strings.
pub open spec fn answer_view(answer: Result<String, String>) -> Result<Seq<char>, Seq<char>> {
    match answer {
        Ok(key) => Ok(key@),
        Err(message) => Err(message@),
    }
}

/// The names of the items of a range, as far as they have been asked for, and the range.
#[verifier::ext_equal]
pub struct ItemKeysModel {
    pub keys: Seq<Seq<char>>,
    pub start: u64,
    pub end: u64,
}

impl View for ItemKeys {
    type V = ItemKeysModel;

    closed spec fn view(&self) -> ItemKeysModel {
        ItemKeysModel { keys: text::texts(self.keys@), start: self.start, end: self.end }
    }
}

impl ItemKeys {
    #[verifier::type_invariant]
    closed spec fn inv(self) -> bool {
        all_differ(text::texts(self.keys@)) && self.keys@.len() <= items_in(self.start, self.end)
    }

    /// No name of the range has been asked for.
    pub fn new(start: u64, end: u64) -> (r: Self)
        ensures
            r@ == (ItemKeysModel { keys: Seq::empty(), start, end }),
    {
        let keys: Vec<String> = Vec::new();
        assert(text::texts(keys@) =~= Seq::empty());
        ItemKeys { keys, start, end }
    }

    /// The item whose name is asked for next, until all have been.
    pub fn next(&self) -> (r: Option<u64>)
        ensures
            match r {
                Some(index) => self@.keys.len() < items_in(self@.start, self@.end) && index
                    == self@.start + self@.keys.len(),
                None => self@.keys.len() == items_in(self@.start, self@.end),
            },
    {
        proof {
            use_type_invariant(self);
        }
        let count: u64 = self.keys.len() as u64;
        if self.start < self.end && count < self.end - self.start {
            Some(self.start + count)
        } else {
            None
        }
    }

    /// Takes the name of the next item, or the error with which the script failed to name it.
    pub fn add_key(&mut self, answer: Result<String, String>) -> (r: Result<
        (),
        ScriptError<String>,
    >)
        requires
            old(self)@.keys.len() < items_in(old(self)@.start, old(self)@.end),
        ensures
            ({
                let outcome = named(old(self)@.keys, answer_view(answer));
                &&& final(self)@ == (ItemKeysModel { keys: outcome.0, ..old(self)@ })
                &&& error::outcome_view(r) == outcome.1
            }),
            all_differ(final(self)@.keys),
    {
        proof {
            use_type_invariant(&*self);
        }
        match answer {
            Err(message) => Err(ScriptError::Raised { message }),
            Ok(key) => {
                if text::listed(&self.keys, key.as_str()) {
                    return Err(ScriptError::DuplicateKey { key });
                }
                let mut keys: Vec<String> = Vec::new();
                std::mem::swap(&mut keys, &mut self.keys);
                let ghost before = text::texts(keys@);
                let ghost added = key@;
                keys.push(key);
                proof {
                    assert(text::texts(keys@) =~= before.push(added));
                    assert forall|i: int, j: int|
                        0 <= i < j < text::texts(keys@).len() implies #[trigger] text::texts(
                        keys@,
                    )[i] != #[trigger] text::texts(keys@)[j] by {
                        assert(text::texts(keys@)[i] == before[i]);
                        if j < before.len() {
                            assert(text::texts(keys@)[j] == before[j]);
                        } else {
                            assert(before.contains(before[i]));
                        }
                    }
                }
                self.keys = keys;
                Ok(())
            },
        }
    }

    /// The names of all items of the range, in order, once all have been asked for.
    pub fn finish(self) -> (r: Option<Vec<String>>)
        ensures
            match r {
                Some(keys) => self@.keys.len() == items_in(self@.start, self@.end) && text::texts(
                    keys@,
                ) == self@.keys,
                None => self@.keys.len() < items_in(self@.start, self@.end),
            },
            all_differ(self@.keys),
    {
        proof {
            use_type_invariant(&self);
        }
        match self.next() {
            Some(_) => None,
            None => Some(self.keys),
        }
    }
}

/// The names after items were asked for theirs, one after the other, up to the first for which that
/// fails.
pub open spec fn asked(answers: Seq<Result<Seq<char>, Seq<char>>>) -> (
    Seq<Seq<char>>,
    Result<(), ScriptError<Seq<char>>>,
)
    decreases answers.len(),
{
    if answers.len() == 0 {
        (Seq::empty(), Ok(()))
    } else {
        let before = asked(answers.drop_last());
        match before.1 {
            Ok(()) => named(before.0, answers.last()),
            Err(_) => before,
        }
    }
}

/// Whether answers name items, no two of them alike.
pub open spec fn tell_apart(answers: Seq<Result<Seq<char>, Seq<char>>>) -> bool {
    &&& forall|i: int| 0 <= i < answers.len() ==> (#[trigger] answers[i]) is Ok
    &&& forall|i: int, j: int|
        0 <= i < j < answers.len() ==> #[trigger] answers[i] != #[trigger] answers[j]
}

/// The table of a range that was asked for in full holds the answer for each of its items, in the
/// order of the items; and it comes about exactly where every item is named and no two alike.
pub proof fn law_a_table_names_every_item_of_its_range(answers: Seq<Result<Seq<char>, Seq<char>>>)
    ensures
        asked(answers).1 is Ok <==> tell_apart(answers),
        asked(answers).1 is Ok ==> {
            &&& asked(answers).0.len() == answers.len()
            &&& forall|i: int|
                0 <= i < answers.len() ==> #[trigger] answers[i] == Ok::<Seq<char>, Seq<char>>(
                    asked(answers).0[i],
                )
            &&& all_differ(asked(answers).0)
        },
    decreases answers.len(),
{
    if answers.len() > 0 {
        let front = answers.drop_last();
        let before = asked(front);
        let last = answers.last();
        law_a_table_names_every_item_of_its_range(front);
        assert forall|i: int| 0 <= i < front.len() implies front[i] == #[trigger] answers[i] by {}
        if before.1 is Ok && last is Ok {
            let key = last->Ok_0;
            let keys = before.0;
            if keys.contains(key) {
                let k = choose|k: int| 0 <= k < keys.len() && keys[k] == key;
                assert(front[k] == Ok::<Seq<char>, Seq<char>>(keys[k]));
                assert(answers[k] == answers[answers.len() - 1]);
            } else {
                assert forall|i: int, j: int| 0 <= i < j < answers.len() implies
                    #[trigger] answers[i] != #[trigger] answers[j] by {
                    assert(front[i] == Ok::<Seq<char>, Seq<char>>(keys[i]));
                    if j < front.len() {
                        assert(front[i] != front[j]);
                    } else {
                        assert(keys.contains(keys[i]));
                    }
                }
                assert(tell_apart(answers));
                let after = keys.push(key);
                assert forall|i: int, j: int| 0 <= i < j < after.len() implies #[trigger] after[i]
                    != #[trigger] after[j] by {
                    if j == keys.len() {
                        assert(keys.contains(keys[i]));
                    }
                }
                assert forall|i: int| 0 <= i < answers.len() implies #[trigger] answers[i] == Ok::<
                    Seq<char>,
                    Seq<char>,
                >(after[i]) by {
                    if i < front.len() {
                        assert(front[i] == Ok::<Seq<char>, Seq<char>>(keys[i]));
                    }
                }
            }
        }
        if tell_apart(answers) {
            assert(tell_apart(front)) by {
                assert forall|i: int, j: int| 0 <= i < j < front.len() implies #[trigger] front[i]
                    != #[trigger] front[j] by {
                    assert(answers[i] != answers[j]);
                }
            }
            assert(answers[answers.len() - 1] is Ok);
        } else if before.1 is Ok && last is Err {
            assert(asked(answers).1 is Err);
        }
    }
}

/// Asks a handler to describe a part of a dock, or says why it is not asked.
pub fn describe_dock_chrome(
    callbacks: &CallbackArena,
    live: &Liveness,
    id: u64,
    payload: Payload,
) -> (r: Result<Delivery, Refusal>)
    ensures
        delivers(r, layout_plan(callbacks@.entries, *live, id), seq![payload.model()]),
{
    match admission(callbacks, live, id) {
        Ok(entry) => Ok(Delivery { plan: plan_layout(&entry), arguments: one(payload) }),
        Err(refusal) => Err(refusal),
    }
}

/// How a component runs code of its own as if a function had been called for an event, or why it may
/// not: a frame must not be in the making.
pub open spec fn effect_plan(
    entries: Seq<Registered>,
    live: Liveness,
    id: u64,
    phase: Option<ScopePhase>,
) -> Result<CallPlan, ScriptError<Seq<char>>> {
    match phase {
        Some(ScopePhase::Render) => Err(ScriptError::WindowEffectPhase { phase: "render"@ }),
        Some(ScopePhase::Layout) => Err(ScriptError::WindowEffectPhase { phase: "layout"@ }),
        _ => match admitted(entries, live, id) {
            Ok(entry) => Ok(CallPlan { drains: false, ..event_call(entry) }),
            Err(refusal) => Err(refusal_error(id, refusal)),
        },
    }
}

/// How a component runs code of its own as if a function had been called for an event.
pub fn with_component_callback_event(
    callbacks: &CallbackArena,
    live: &Liveness,
    id: u64,
    phase: Option<ScopePhase>,
) -> (r: Result<CallPlan, ScriptError<String>>)
    ensures
        match (r, effect_plan(callbacks@.entries, *live, id, phase)) {
            (Ok(plan), Ok(expected)) => plan == expected,
            (Err(error), Err(expected)) => error::error_view(error) == expected,
            _ => false,
        },
{
    match phase {
        Some(ScopePhase::Render) | Some(ScopePhase::Layout) => {
            let phase = match phase {
                Some(ScopePhase::Render) => "render",
                _ => "layout",
            };
            return Err(ScriptError::WindowEffectPhase { phase: phase.to_owned() });
        },
        _ => {},
    }
    match admission(callbacks, live, id) {
        Ok(entry) => {
            let mut plan = plan_event(&entry);
            plan.drains = false;
            Ok(plan)
        },
        Err(refusal) => Err(refused(id, refusal)),
    }
}

/// No event reaches a function of a retired application or of a released view.
pub proof fn law_no_event_reaches_what_is_gone(
    entries: Seq<Registered>,
    live: Liveness,
    id: u64,
    entry: CallbackEntry,
)
    requires
        callbacks::callable(entries, id) == Some(entry),
        !active(live, entry.application) || !alive(live, entry.view),
    ensures
        event_plan(entries, live, id) is Err,
        layout_plan(entries, live, id) is Err,
        forall|phase: Option<ScopePhase>| #[trigger] effect_plan(entries, live, id, phase) is Err,
{
}

/// A function runs for the view and the application that it was registered for, with the authority
/// of that view.
pub proof fn law_a_function_runs_for_its_owner(
    entries: Seq<Registered>,
    live: Liveness,
    id: u64,
    plan: CallPlan,
)
    requires
        event_plan(entries, live, id) == Ok::<CallPlan, Refusal>(plan) || layout_plan(
            entries,
            live,
            id,
        ) == Ok::<CallPlan, Refusal>(plan),
    ensures
        callbacks::callable(entries, id) is Some,
        plan.handler == callbacks::callable(entries, id)->Some_0.value,
        plan.view == callbacks::callable(entries, id)->Some_0.view,
        plan.application == callbacks::callable(entries, id)->Some_0.application,
        plan.policy == policy_of(plan.view),
        active(live, plan.application),
        alive(live, plan.view),
{
}

/// A subscription outlives its view: its function is then called with the authority it was made
/// with, and without a view.
pub proof fn law_a_subscription_outlives_its_view(
    handler: u64,
    owner: InputCallbackOwner,
    live: Liveness,
)
    requires
        active(live, owner.application),
        !alive(live, owner.view),
    ensures
        owned_plan(handler, owner, live) is Ok,
        owned_plan(handler, owner, live)->Ok_0.view is None,
        owned_plan(handler, owner, live)->Ok_0.policy == CallPolicy::Captured(owner.policy),
{
}

/// A subscription does not outlive its application.
pub proof fn law_a_subscription_ends_with_its_application(
    handler: u64,
    owner: InputCallbackOwner,
    live: Liveness,
)
    requires
        !active(live, owner.application),
    ensures
        owned_plan(handler, owner, live) == Err::<CallPlan, Refusal>(Refusal::Retired),
{
}

/// What runs while a frame is laid out describes its elements apart and leaves what the script has
/// queued for later.
pub proof fn law_layout_is_kept_apart(
    entries: Seq<Registered>,
    live: Liveness,
    id: u64,
    plan: CallPlan,
)
    requires
        layout_plan(entries, live, id) == Ok::<CallPlan, Refusal>(plan),
    ensures
        plan.phase == ScopePhase::Layout,
        plan.isolated,
        !plan.drains,
{
}

/// Naming an item that has a name of its own succeeds exactly once.
pub proof fn law_a_key_names_one_item(keys: Seq<Seq<char>>, key: Seq<char>)
    requires
        !keys.contains(key),
    ensures
        named(keys, Ok(key)).1 is Ok,
        named(named(keys, Ok(key)).0, Ok(key)).1 == Err::<(), ScriptError<Seq<char>>>(
            ScriptError::DuplicateKey { key },
        ),
{
    assert(keys.push(key).last() == key);
    assert(keys.push(key).contains(key));
}

/// A function is called exactly while it is published, its application is active, or it has none,
/// and its view exists, or it has none; otherwise the refusal tells which of these fails first.
pub proof fn law_a_function_is_called_while_all_it_needs_exists(
    entries: Seq<Registered>,
    live: Liveness,
    id: u64,
)
    ensures
        match (callbacks::callable(entries, id), admitted(entries, live, id)) {
            (None, Err(refusal)) => refusal == Refusal::Superseded,
            (Some(entry), Ok(found)) => {
                &&& found == entry
                &&& entry.application matches Some(application) ==> live.applications@.contains(
                    application,
                )
                &&& entry.view matches Some(view) ==> live.views@.contains(view)
            },
            (Some(entry), Err(Refusal::Retired)) => entry.application matches Some(application)
                && !live.applications@.contains(application),
            (Some(entry), Err(Refusal::Released)) => (entry.application matches Some(application)
                ==> live.applications@.contains(application)) && (entry.view matches Some(view)
                && !live.views@.contains(view)),
            _ => false,
        },
        event_plan(entries, live, id) is Ok <==> admitted(entries, live, id) is Ok,
        layout_plan(entries, live, id) is Ok <==> admitted(entries, live, id) is Ok,
        event_plan(entries, live, id) matches Err(refusal) ==> admitted(entries, live, id) == Err::<
            CallbackEntry,
            Refusal,
        >(refusal),
        layout_plan(entries, live, id) matches Err(refusal) ==> admitted(entries, live, id) == Err::<
            CallbackEntry,
            Refusal,
        >(refusal),
{
}

/// A function that is called for an event and one that is called while a frame is laid out run the
/// same handler for the same view and application, with that view's authority. They differ in this:
/// an event describes nothing apart, keeps no earlier context and then runs what was queued; layout
/// describes apart, keeps the context the function was registered with and runs nothing.
pub proof fn law_an_event_and_layout_differ_in_how_they_run(
    entries: Seq<Registered>,
    live: Liveness,
    id: u64,
    entry: CallbackEntry,
    event: CallPlan,
    layout: CallPlan,
)
    requires
        callbacks::callable(entries, id) == Some(entry),
        event_plan(entries, live, id) == Ok::<CallPlan, Refusal>(event),
        layout_plan(entries, live, id) == Ok::<CallPlan, Refusal>(layout),
    ensures
        event.handler == entry.value && layout.handler == entry.value,
        event.view == entry.view && layout.view == entry.view,
        event.application == entry.application && layout.application == entry.application,
        event.policy == layout.policy,
        match entry.view {
            Some(view) => event.policy == CallPolicy::OfView(view),
            None => event.policy == CallPolicy::Default,
        },
        event.phase == ScopePhase::Event,
        layout.phase == ScopePhase::Layout,
        event.adopted is None,
        layout.adopted == entry.registered_in,
        !event.isolated,
        layout.isolated,
        event.drains,
        !layout.drains,
{
}

/// A subscription is made for whoever is running and is delivered to them: to the handler that was
/// given, in an event, for the application and, while it exists, the view that subscribed, with the
/// authority that was in force.
pub proof fn law_a_subscription_is_delivered_to_whoever_made_it(
    handler: u64,
    scope: HostScope,
    default: u64,
    live: Liveness,
)
    ensures
        ({
            let owner = owner_of(scope, default);
            let plan = owned_plan(handler, owner, live);
            &&& owner.view == scope.view
            &&& scope.policy matches Some(policy) ==> owner.policy == policy
            &&& scope.policy is None ==> owner.policy == default
            &&& scope.application matches Some(current) ==> owner.application == Some(
                current.generation,
            )
            &&& scope.application is None ==> owner.application is None
            &&& plan matches Ok(call) ==> {
                &&& call.handler == handler
                &&& call.phase == ScopePhase::Event
                &&& call.application == owner.application
                &&& call.policy == CallPolicy::Captured(owner.policy)
                &&& call.view == owner.view || (call.view is None && !alive(live, owner.view))
                &&& alive(live, owner.view) ==> call.view == scope.view
                &&& call.adopted is None
                &&& !call.isolated
                &&& call.drains
            }
            &&& plan is Ok <==> (owner.application matches Some(application)
                ==> live.applications@.contains(application))
        }),
{
}

/// A component learns which function was refused, and why.
pub proof fn law_a_refusal_is_told(id: u64, refusal: Refusal)
    ensures
        match refusal_error(id, refusal) {
            ScriptError::CallbackSuperseded { id: told } => told == id && refusal
                == Refusal::Superseded,
            ScriptError::CallbackRetired { id: told } => told == id && refusal == Refusal::Retired,
            ScriptError::CallbackReleased { id: told } => told == id && refusal
                == Refusal::Released,
            _ => false,
        },
{
}

/// What a component reads out of an answer is what the script answered; only nothing, a truth
/// value, a finite number and a text can be read.
pub proof fn law_an_answer_is_read_as_it_is(value: ScriptValue)
    ensures
        match answered(value) {
            Ok(ComponentCallbackValue::Null) => value is Undefined || value is Null,
            Ok(ComponentCallbackValue::Boolean(flag)) => value == ScriptValue::Boolean(flag),
            Ok(ComponentCallbackValue::Number(number)) => value == ScriptValue::Number(number)
                && number.wide % 0x8000_0000_0000_0000 < 0x7FF0_0000_0000_0000,
            Ok(ComponentCallbackValue::String(read)) => value matches ScriptValue::Text(string)
                && string@ == read,
            Err(error) => match value {
                ScriptValue::Undefined | ScriptValue::Null | ScriptValue::Boolean(_)
                | ScriptValue::Text(_) => false,
                ScriptValue::Number(number) => number.wide % 0x8000_0000_0000_0000
                    >= 0x7FF0_0000_0000_0000,
                ScriptValue::Broken(message) => error == (ScriptError::<Seq<char>>::Raised {
                    message: message@,
                }),
                ScriptValue::Raised(message) => error == (ScriptError::<Seq<char>>::Raised {
                    message: message@,
                }),
                _ => error == ScriptError::<Seq<char>>::Fixed(Fault::CallbackResult),
            },
        },
{
    match value {
        ScriptValue::Number(number) => {
            number::law_extents_are_read_off_their_bits(number.wide);
        },
        _ => {},
    }
}

/// Data that a component reads out of an answer has the answer's shape, and an element that it
/// shows is what was answered; nothing is shown exactly where nothing was answered.
pub proof fn law_data_and_elements_are_read_as_they_are(value: ScriptValue)
    ensures
        answered_data(value) matches Ok(model) ==> data::offers(value, model),
        described(value) matches Ok(None) <==> value is Undefined || value is Null,
        described(value) matches Ok(Some(root)) ==> argument::rendered(value) == Ok::<
            RenderedRoot<Seq<char>>,
            ScriptError<Seq<char>>,
        >(root),
        described(value) is Err ==> argument::rendered(value) is Err,
{
    data::law_data_has_the_shape_of_its_value(
        value,
        0,
        BudgetModel { nodes: 0, string_bytes: 0, keys: 0 },
    );
}

/// The items of a list are described by its renderer while the function that names them stands, and
/// are named by that function.
pub proof fn law_items_are_described_and_named(
    entries: Seq<Registered>,
    live: Liveness,
    id: u64,
    get_key: u64,
)
    ensures
        items_plan(entries, live, id, get_key) is Some <==> callbacks::callable(entries, get_key)
            is Some && admitted(entries, live, id) is Ok,
        items_plan(entries, live, id, get_key) matches Some((plan, key)) ==> {
            &&& callbacks::callable(entries, get_key)->Some_0.value == key
            &&& callbacks::callable(entries, id)->Some_0.value == plan.handler
            &&& plan.phase == ScopePhase::Layout
            &&& plan.isolated
            &&& plan.view == callbacks::callable(entries, id)->Some_0.view
        },
{
}

proof fn lemma_rendered_items(items: Seq<ScriptValue>)
    ensures
        match rendered_items(items) {
            Ok(roots) => roots.len() == items.len() && forall|i: int|
                0 <= i < items.len() ==> argument::rendered(#[trigger] items[i]) == Ok::<
                    RenderedRoot<Seq<char>>,
                    ScriptError<Seq<char>>,
                >(roots[i]),
            Err(error) => exists|i: int|
                0 <= i < items.len() && argument::rendered(#[trigger] items[i]) == Err::<
                    RenderedRoot<Seq<char>>,
                    ScriptError<Seq<char>>,
                >(error) && forall|j: int|
                    0 <= j < i ==> argument::rendered(#[trigger] items[j]) is Ok,
        },
    decreases items.len(),
{
    if items.len() > 0 {
        let front = items.drop_last();
        lemma_rendered_items(front);
        assert forall|i: int| 0 <= i < front.len() implies front[i] == #[trigger] items[i] by {}
        match rendered_items(front) {
            Ok(roots) => {
                assert forall|j: int| 0 <= j < front.len() implies argument::rendered(
                    #[trigger] items[j],
                ) == Ok::<RenderedRoot<Seq<char>>, ScriptError<Seq<char>>>(roots[j]) by {
                    assert(front[j] == items[j]);
                }
                assert(items[items.len() - 1] == items.last());
                match rendered_items(items) {
                    Ok(all) => {
                        assert forall|i: int| 0 <= i < items.len() implies argument::rendered(
                            #[trigger] items[i],
                        ) == Ok::<RenderedRoot<Seq<char>>, ScriptError<Seq<char>>>(all[i]) by {
                            if i < front.len() {
                                assert(all[i] == roots[i]);
                            }
                        }
                    },
                    Err(error) => {},
                }
            },
            Err(error) => {
                let i = choose|i: int|
                    0 <= i < front.len() && argument::rendered(#[trigger] front[i]) == Err::<
                        RenderedRoot<Seq<char>>,
                        ScriptError<Seq<char>>,
                    >(error) && forall|j: int|
                        0 <= j < i ==> argument::rendered(#[trigger] front[j]) is Ok;
                assert(front[i] == items[i]);
                assert forall|j: int| 0 <= j < i implies argument::rendered(#[trigger] items[j])
                    is Ok by {
                    assert(front[j] == items[j]);
                }
            },
        }
    }
}

/// The items that a renderer answered are shown all of them, in their order, each as what it is; the
/// first that cannot be shown is what the renderer failed with.
pub proof fn law_all_items_are_shown_in_order(value: ScriptValue)
    ensures
        match items_of(value) {
            Ok(roots) => value matches ScriptValue::Array { slot, items } && roots.len()
                == items@.len() && forall|i: int|
                0 <= i < roots.len() ==> argument::rendered(#[trigger] items@[i]) == Ok::<
                    RenderedRoot<Seq<char>>,
                    ScriptError<Seq<char>>,
                >(roots[i]),
            Err(error) => value matches ScriptValue::Array { slot, items } ==> exists|i: int|
                0 <= i < items@.len() && argument::rendered(#[trigger] items@[i]) == Err::<
                    RenderedRoot<Seq<char>>,
                    ScriptError<Seq<char>>,
                >(error) && forall|j: int|
                    0 <= j < i ==> argument::rendered(#[trigger] items@[j]) is Ok,
        },
{
    match value {
        ScriptValue::Array { slot, items } => {
            lemma_rendered_items(items@);
        },
        _ => {},
    }
}

/// A component runs code of its own for a function where no frame is in the making: as an event
/// would, but that nothing queued runs behind it.
pub proof fn law_an_effect_runs_as_an_event(
    entries: Seq<Registered>,
    live: Liveness,
    id: u64,
    phase: Option<ScopePhase>,
)
    ensures
        match effect_plan(entries, live, id, phase) {
            Ok(plan) => {
                &&& phase is None || phase == Some(ScopePhase::Event)
                &&& event_plan(entries, live, id) matches Ok(event) && plan.handler == event.handler
                    && plan.view == event.view && plan.policy == event.policy && plan.application
                    == event.application && plan.phase == event.phase && plan.adopted
                    == event.adopted && plan.isolated == event.isolated
                &&& !plan.drains
            },
            Err(ScriptError::WindowEffectPhase { phase: named }) => {
                ||| named == "render"@ && phase == Some(ScopePhase::Render)
                ||| named == "layout"@ && phase == Some(ScopePhase::Layout)
            },
            Err(error) => (phase is None || phase == Some(ScopePhase::Event)) && (
            admitted(entries, live, id) matches Err(refusal) && error == refusal_error(
                id,
                refusal,
            )),
        },
{
}

/// A range has as many items as lie between its ends, and none where it ends before it begins.
pub proof fn law_a_range_counts_its_items(start: u64, end: u64)
    ensures
        start <= end ==> start + items_in(start, end) == end,
        end <= start ==> items_in(start, end) == 0,
{
}

/// A component's call is made if and only if it is planned, then exactly as planned and with the
/// arguments that it was given; else it is told the refusal.
pub proof fn law_a_component_is_called_as_planned(
    r: Result<Delivery, ScriptError<String>>,
    id: u64,
    plan: Result<CallPlan, Refusal>,
    values: Seq<ComponentCallbackArgument>,
)
    requires
        component_delivers(r, id, plan, payload::argument_models(values)),
    ensures
        r is Ok <==> plan is Ok,
        r matches Ok(delivery) ==> plan == Ok::<CallPlan, Refusal>(delivery.plan)
            && delivery.arguments@.len() == values.len(),
        r matches Err(error) ==> error::error_view(error) == refusal_error(id, plan->Err_0),
{
    if let Ok(delivery) = r {
        assert(payload::payload_models(delivery.arguments@).len() == delivery.arguments@.len());
    }
}

} // verus!
