//! The context through which a script speaks to the host.
use crate::error::{Fault, ScriptError};
use crate::error;
use crate::nested::{NestedModel, NestedViews};
use crate::nested;
use crate::scope::{HostScope, ScopePhase};
use crate::scope;
use crate::value::ScriptValue;
use vstd::prelude::*;
use vstd::string::*;

verus! {

/// How a context reaches the host call it speaks for.
#[derive(Clone, Copy, PartialEq, Eq, Structural, Debug)]
pub enum ContextBinding {
    /// One host call, by number. It is of no use once that call has returned.
    Call(u64),
    /// Whichever host call is running.
    Ambient,
}

/// Which host calls can be spoken for: whether the call of this number is running, or else why it
/// cannot be used, and whether any call is.
pub struct RunningCalls {
    pub call: Result<(), String>,
    pub any: bool,
}

/// Whether a context can speak for a call, or what a script is told.
pub open spec fn reaches(binding: ContextBinding, running: RunningCalls) -> Result<
    (),
    ScriptError<Seq<char>>,
> {
    match binding {
        ContextBinding::Call(_) => match running.call {
            Ok(()) => Ok(()),
            Err(message) => Err(ScriptError::StaleContext { message: message@ }),
        },
        ContextBinding::Ambient => if running.any {
            Ok(())
        } else {
            Err(ScriptError::Fixed(Fault::NoAmbientCall))
        },
    }
}

impl ContextBinding {
    /// Refuses a context that cannot speak for a running call.
    pub fn check(self, running: &RunningCalls) -> (r: Result<(), ScriptError<String>>)
        ensures
            error::outcome_view(r) == reaches(self, *running),
    {
        match self {
            ContextBinding::Call(_) => match &running.call {
                Ok(()) => Ok(()),
                Err(message) => Err(
                    ScriptError::StaleContext { message: message.as_str().to_owned() },
                ),
            },
            ContextBinding::Ambient => if running.any {
                Ok(())
            } else {
                Err(ScriptError::Fixed(Fault::NoAmbientCall))
            },
        }
    }
}

/// The word for the kind of call in progress.
pub open spec fn phase_word(phase: Option<ScopePhase>) -> Seq<char> {
    match phase {
        Some(phase) => scope::phase_name(phase),
        None => "none"@,
    }
}

fn word_of(phase: Option<ScopePhase>) -> (r: &'static str)
    ensures
        r@ == phase_word(phase),
{
    match phase {
        Some(phase) => phase.as_str(),
        None => "none",
    }
}

/// What a script is told of the kind of call in progress, by a context that can speak for a call.
pub open spec fn phase_told(current: HostScope, binding: ContextBinding, running: RunningCalls) -> Result<
    Seq<char>,
    ScriptError<Seq<char>>,
> {
    match reaches(binding, running) {
        Ok(()) => Ok(phase_word(current.phase)),
        Err(error) => Err(error),
    }
}

/// The word for the kind of call in progress, by a context that can speak for a call.
pub fn phase(current: &HostScope, binding: ContextBinding, running: &RunningCalls) -> (r: Result<
    &'static str,
    ScriptError<String>,
>)
    ensures
        match (r, phase_told(*current, binding, *running)) {
            (Ok(word), Ok(expected)) => word@ == expected,
            (Err(error), Err(expected)) => error::error_view(error) == expected,
            _ => false,
        },
{
    match binding.check(running) {
        Ok(()) => Ok(word_of(current.phase)),
        Err(error) => Err(error),
    }
}

/// What a script asks for through a context, besides `notify` and `phase`.
#[derive(Clone, Copy, PartialEq, Eq, Structural, Debug)]
pub enum ContextMember {
    /// The handlers on the way to the root are not to hear of the event.
    StopPropagation,
    /// They are to hear of it after all.
    Propagate,
    /// A member of the built-in ones, by the number under which the embedding application keeps
    /// it.
    Builtin(u64),
}

/// What a member of a context comes to: it is carried out where the context can speak for a call.
pub open spec fn member_asked(
    member: ContextMember,
    binding: ContextBinding,
    running: RunningCalls,
) -> Result<ContextMember, ScriptError<Seq<char>>> {
    match reaches(binding, running) {
        Ok(()) => Ok(member),
        Err(error) => Err(error),
    }
}

/// What is to be carried out for a call of a member of a context.
pub fn call_member(member: ContextMember, binding: ContextBinding, running: &RunningCalls) -> (r:
    Result<ContextMember, ScriptError<String>>)
    ensures
        error::outcome_view(r) == member_asked(member, binding, *running),
{
    match binding.check(running) {
        Ok(()) => Ok(member),
        Err(error) => Err(error),
    }
}

/// The view whose description a script says may have changed.
#[derive(Clone, Copy, PartialEq, Eq, Structural, Debug)]
pub enum NotifyTarget {
    /// That for which the call runs.
    Current,
    /// The one behind a token.
    Entity(u32),
}

/// The view that the argument of `notify` names.
pub open spec fn target_of(target: Option<ScriptValue>) -> Result<NotifyTarget, Fault> {
    match target {
        None => Ok(NotifyTarget::Current),
        Some(ScriptValue::Undefined) => Ok(NotifyTarget::Current),
        Some(ScriptValue::Object(object)) => match object.marks.token {
            Ok(token) if object.marks.entity => Ok(NotifyTarget::Entity(token)),
            _ => Err(Fault::NotifyTarget),
        },
        Some(_) => Err(Fault::NotifyTarget),
    }
}

/// How a script has written its call of `notify`.
pub open spec fn notify_api(target: Option<ScriptValue>) -> Seq<char> {
    match target {
        None => "cx.notify()"@,
        Some(ScriptValue::Undefined) => "cx.notify()"@,
        Some(_) => "cx.notify(entity)"@,
    }
}

/// What `notify` does to the requests that wait, and what it answers: the view to be described
/// again at once, if there is one. A view behind a token is described again once the script has
/// returned.
pub open spec fn notified(
    m: NestedModel,
    current: HostScope,
    binding: ContextBinding,
    running: RunningCalls,
    target: Option<ScriptValue>,
    live: bool,
) -> (NestedModel, Result<Option<u64>, ScriptError<Seq<char>>>) {
    if current.phase != Some(ScopePhase::Event) {
        (
            m,
            Err(
                ScriptError::NotifyPhase {
                    api: notify_api(target),
                    phase: phase_word(current.phase),
                },
            ),
        )
    } else {
        match target_of(target) {
            Err(fault) => (m, Err(ScriptError::Fixed(fault))),
            Ok(target) => match reaches(binding, running) {
                Err(error) => (m, Err(error)),
                Ok(()) => match target {
                    NotifyTarget::Current => (m, Ok(current.view)),
                    NotifyTarget::Entity(token) => if current.view is None {
                        (m, Err(ScriptError::Fixed(Fault::NotifyNeedsView)))
                    } else {
                        match nested::notify(m, current, token, live) {
                            (after, Ok(())) => (after, Ok(None)),
                            (after, Err(fault)) => (after, Err(ScriptError::Fixed(fault))),
                        }
                    },
                },
            },
        }
    }
}

/// Reads the view that the argument of `notify` names.
fn read_target(target: &Option<ScriptValue>) -> (r: Result<NotifyTarget, Fault>)
    ensures
        r == target_of(*target),
{
    match target {
        None => Ok(NotifyTarget::Current),
        Some(value) => match value {
            ScriptValue::Undefined => Ok(NotifyTarget::Current),
            ScriptValue::Object(object) => match &object.marks.token {
                Ok(token) => if object.marks.entity {
                    Ok(NotifyTarget::Entity(*token))
                } else {
                    Err(Fault::NotifyTarget)
                },
                Err(_) => Err(Fault::NotifyTarget),
            },
            _ => Err(Fault::NotifyTarget),
        },
    }
}

/// Says that the description of a view may have changed, and answers the view to be described again
/// at once, if there is one. `live` tells whether the view behind the token still exists.
pub fn notify(
    views: &mut NestedViews,
    current: &HostScope,
    binding: ContextBinding,
    running: &RunningCalls,
    target: &Option<ScriptValue>,
    live: bool,
) -> (r: Result<Option<u64>, ScriptError<String>>)
    ensures
        (final(views)@, error::outcome_view(r)) == notified(
            old(views)@,
            *current,
            binding,
            *running,
            *target,
            live,
        ),
{
    match current.phase {
        Some(ScopePhase::Event) => {},
        _ => {
            let api = match target {
                None => "cx.notify()",
                Some(ScriptValue::Undefined) => "cx.notify()",
                Some(_) => "cx.notify(entity)",
            };
            return Err(
                ScriptError::NotifyPhase {
                    api: api.to_owned(),
                    phase: word_of(current.phase).to_owned(),
                },
            );
        },
    }
    let target = match read_target(target) {
        Ok(target) => target,
        Err(fault) => {
            return Err(ScriptError::Fixed(fault));
        },
    };
    match binding.check(running) {
        Ok(()) => {},
        Err(error) => {
            return Err(error);
        },
    }
    match target {
        NotifyTarget::Current => Ok(current.view),
        NotifyTarget::Entity(token) => {
            if current.view.is_none() {
                return Err(ScriptError::Fixed(Fault::NotifyNeedsView));
            }
            match views.queue_nested_view_notify(current, token, live) {
                Ok(()) => Ok(None),
                Err(fault) => Err(ScriptError::Fixed(fault)),
            }
        },
    }
}

/// While a frame is being described or laid out nothing can be notified, and nothing changes.
pub proof fn law_no_notice_while_a_frame_is_made(
    m: NestedModel,
    current: HostScope,
    binding: ContextBinding,
    running: RunningCalls,
    target: Option<ScriptValue>,
    live: bool,
)
    requires
        current.phase == Some(ScopePhase::Render) || current.phase == Some(ScopePhase::Layout),
    ensures
        notified(m, current, binding, running, target, live).0 == m,
        notified(m, current, binding, running, target, live).1 is Err,
{
}

/// A context that names a call which has returned does nothing, whichever of its members is called:
/// a script is told an error, and nothing changes.
pub proof fn law_a_stale_context_does_nothing(
    m: NestedModel,
    current: HostScope,
    call: u64,
    running: RunningCalls,
    target: Option<ScriptValue>,
    live: bool,
    member: ContextMember,
)
    requires
        running.call is Err,
    ensures
        notified(m, current, ContextBinding::Call(call), running, target, live).0 == m,
        notified(m, current, ContextBinding::Call(call), running, target, live).1 is Err,
        phase_told(current, ContextBinding::Call(call), running) is Err,
        member_asked(member, ContextBinding::Call(call), running) is Err,
{
}

proof fn lemma_phase_words()
    ensures
        "event"@ != "render"@,
        "event"@ != "layout"@,
        "event"@ != "none"@,
        "render"@ != "layout"@,
        "render"@ != "none"@,
        "layout"@ != "none"@,
{
    reveal_strlit("event");
    assert("event"@.len() == 5);
    reveal_strlit("render");
    assert("render"@.len() == 6);
    reveal_strlit("layout");
    assert("layout"@.len() == 6);
    reveal_strlit("none");
    assert("none"@.len() == 4);
    assert("render"@[0] != "layout"@[0]);
}

/// A context that names a call speaks for that call and no other; one that names none speaks for
/// whichever is running. What cannot be spoken for is told why.
pub proof fn law_a_context_speaks_for_its_call(call: u64, running: RunningCalls, other: RunningCalls)
    ensures
        reaches(ContextBinding::Call(call), running) is Ok <==> running.call is Ok,
        reaches(ContextBinding::Ambient, running) is Ok <==> running.any,
        running.call == other.call ==> reaches(ContextBinding::Call(call), running) == reaches(
            ContextBinding::Call(call),
            other,
        ),
        running.any == other.any ==> reaches(ContextBinding::Ambient, running) == reaches(
            ContextBinding::Ambient,
            other,
        ),
        running.call matches Err(message) ==> reaches(ContextBinding::Call(call), running) == Err::<
            (),
            ScriptError<Seq<char>>,
        >(ScriptError::StaleContext { message: message@ }),
{
}

/// The kinds of call are told by words of their own, and one is told where the context speaks for a
/// call.
pub proof fn law_a_kind_of_call_has_a_word_of_its_own(
    a: HostScope,
    b: HostScope,
    binding: ContextBinding,
    running: RunningCalls,
)
    ensures
        phase_told(a, binding, running) is Ok <==> reaches(binding, running) is Ok,
        phase_told(a, binding, running) is Ok && phase_told(a, binding, running) == phase_told(
            b,
            binding,
            running,
        ) ==> a.phase == b.phase,
        phase_told(a, binding, running) matches Ok(word) ==> {
            ||| word == "event"@ && a.phase == Some(ScopePhase::Event)
            ||| word == "render"@ && a.phase == Some(ScopePhase::Render)
            ||| word == "layout"@ && a.phase == Some(ScopePhase::Layout)
            ||| word == "none"@ && a.phase is None
        },
{
    lemma_phase_words();
}

/// What is carried out for a member of a context is what was asked for, where the context speaks
/// for a call.
pub proof fn law_a_member_does_what_was_asked(
    member: ContextMember,
    binding: ContextBinding,
    running: RunningCalls,
)
    ensures
        member_asked(member, binding, running) is Ok <==> reaches(binding, running) is Ok,
        member_asked(member, binding, running) matches Ok(done) ==> done == member,
        member_asked(member, binding, running) matches Err(error) ==> reaches(binding, running)
            == Err::<(), ScriptError<Seq<char>>>(error),
{
}

/// The view that is notified is the one that runs, where none is named, or the one behind the token
/// of the handle that was given; nothing but a handle names a view.
pub proof fn law_a_notice_names_its_view(target: Option<ScriptValue>)
    ensures
        match target_of(target) {
            Ok(NotifyTarget::Current) => target is None || target == Some(ScriptValue::Undefined),
            Ok(NotifyTarget::Entity(token)) => target matches Some(ScriptValue::Object(object))
                && object.marks.entity && object.marks.token == Ok::<u32, String>(token),
            Err(fault) => {
                &&& fault == Fault::NotifyTarget
                &&& target is Some
                &&& target != Some(ScriptValue::Undefined)
                &&& target matches Some(ScriptValue::Object(object)) ==> !object.marks.entity
                    || object.marks.token is Err
            },
        },
{
}

/// A notice that succeeds is for the view that runs, which is then described again at once and
/// leaves what waits as it is; or for the view behind a token, which then waits. It takes an event,
/// a context that speaks for a call and, for a token, a view that asks.
pub proof fn law_a_notice_reaches_its_view(
    m: NestedModel,
    current: HostScope,
    binding: ContextBinding,
    running: RunningCalls,
    target: Option<ScriptValue>,
    live: bool,
)
    ensures
        ({
            let (after, answer) = notified(m, current, binding, running, target, live);
            &&& answer matches Ok(now) ==> {
                &&& current.phase == Some(ScopePhase::Event)
                &&& reaches(binding, running) is Ok
                &&& match target_of(target) {
                    Ok(NotifyTarget::Current) => after == m && now == current.view,
                    Ok(NotifyTarget::Entity(token)) => {
                        &&& now is None
                        &&& current.view is Some
                        &&& nested::notify(m, current, token, live) == (after, Ok::<(), Fault>(()))
                    },
                    Err(_) => false,
                }
            }
            &&& current.phase == Some(ScopePhase::Event) && reaches(binding, running) is Ok && (
            target_of(target) matches Ok(NotifyTarget::Current)) ==> answer is Ok
            &&& answer is Err && !(target_of(target) matches Ok(NotifyTarget::Entity(_)))
                ==> after == m
        }),
{
}

} // verus!
