//! Whose code is running: the authority, application and view of the call in progress.
use crate::error::ScriptError;
use crate::error;
use vstd::prelude::*;
use vstd::string::*;

verus! {

/// What kind of host call is in progress.
#[derive(Clone, Copy, PartialEq, Eq, Structural, Debug)]
pub enum ScopePhase {
    Event,
    Render,
    Layout,
}

/// The word for a phase in an error.
pub open spec fn phase_name(phase: ScopePhase) -> Seq<char> {
    match phase {
        ScopePhase::Event => "event"@,
        ScopePhase::Render => "render"@,
        ScopePhase::Layout => "layout"@,
    }
}

impl ScopePhase {
    /// The word for a phase in an error.
    pub fn as_str(self) -> (r: &'static str)
        ensures
            r@ == phase_name(self),
    {
        match self {
            ScopePhase::Event => "event",
            ScopePhase::Render => "render",
            ScopePhase::Layout => "layout",
        }
    }
}

/// The application whose code is running, and whether it has not been retired yet.
#[derive(Clone, Copy, PartialEq, Eq, Structural, Debug)]
pub struct CurrentApplication {
    pub generation: u64,
    pub active: bool,
}

/// The call in progress. A field is empty where there is no such thing: no call at all, a call
/// without a view, code that belongs to no loaded application.
#[derive(Clone, Copy, PartialEq, Eq, Structural, Debug)]
pub struct HostScope {
    pub phase: Option<ScopePhase>,
    pub policy: Option<u64>,
    pub application: Option<CurrentApplication>,
    pub view: Option<u64>,
}

/// The generation of the application whose code is running.
pub open spec fn current_generation(scope: HostScope) -> Option<u64> {
    match scope.application {
        Some(current) => Some(current.generation),
        None => None,
    }
}

/// The authority in force: that of the call in progress, or else the default one.
pub open spec fn authority(scope: HostScope, default: u64) -> u64 {
    match scope.policy {
        Some(policy) => policy,
        None => default,
    }
}

impl HostScope {
    /// The authority in force: that of the call in progress, or else the default one.
    pub fn policy(&self, default: u64) -> (r: u64)
        ensures
            r == authority(*self, default),
    {
        match self.policy {
            Some(policy) => policy,
            None => default,
        }
    }

    /// The generation of the application whose code is running.
    pub fn generation(&self) -> (r: Option<u64>)
        ensures
            r == current_generation(*self),
    {
        match self.application {
            Some(current) => Some(current.generation),
            None => None,
        }
    }
}

/// The authority and application on whose behalf a nested view, or an edit of a dock, was
/// asked for.
#[derive(Clone, Copy, PartialEq, Eq, Structural, Debug)]
pub struct NestedViewProvenance {
    pub application: Option<u64>,
    pub policy: u64,
}

/// Whether the call in progress runs with the same authority and for the same application, which
/// must still be active.
pub open spec fn provenance_current(provenance: NestedViewProvenance, scope: HostScope) -> bool {
    &&& scope.policy == Some(provenance.policy)
    &&& match (provenance.application, scope.application) {
        (Some(expected), Some(current)) => current.active && expected == current.generation,
        (None, None) => true,
        _ => false,
    }
}

impl NestedViewProvenance {
    /// Whether the call in progress runs with the same authority and for the same application,
    /// which must still be active.
    pub fn is_current(&self, scope: &HostScope) -> (r: bool)
        ensures
            r == provenance_current(*self, *scope),
    {
        match scope.policy {
            Some(policy) => if policy != self.policy {
                return false;
            },
            None => {
                return false;
            },
        }
        match (self.application, scope.application) {
            (Some(expected), Some(current)) => current.active && expected == current.generation,
            (None, None) => true,
            _ => false,
        }
    }
}

/// What a request to change a retained view answers while a frame is being described.
pub open spec fn mutation_refusal(
    scope: HostScope,
    api: Seq<char>,
    action: Seq<char>,
) -> Result<(), ScriptError<Seq<char>>> {
    match scope.phase {
        Some(ScopePhase::Render) => Err(
            ScriptError::WrongPhase { api, phase: "render"@, action },
        ),
        Some(ScopePhase::Layout) => Err(
            ScriptError::WrongPhase { api, phase: "layout"@, action },
        ),
        _ => Ok(()),
    }
}

/// Refuses to change retained views while a frame is being described.
pub fn refuse_nested_view_mutation(scope: &HostScope, api: &str, action: &str) -> (r: Result<
    (),
    ScriptError<String>,
>)
    ensures
        error::outcome_view(r) == mutation_refusal(*scope, api@, action@),
{
    match scope.phase {
        Some(ScopePhase::Event) | None => Ok(()),
        Some(phase) => Err(
            ScriptError::WrongPhase {
                api: api.to_owned(),
                phase: phase.as_str().to_owned(),
                action: action.to_owned(),
            },
        ),
    }
}

/// Authority does not outlive its application: once the application is retired, nothing it asked
/// for is current any more.
pub proof fn law_retired_application_is_never_current(
    provenance: NestedViewProvenance,
    scope: HostScope,
)
    requires
        provenance.application is Some,
        scope.application matches Some(current) ==> !current.active,
    ensures
        !provenance_current(provenance, scope),
{
}

/// What one application asked for is current for no other application and no other authority.
pub proof fn law_provenance_names_one_caller(
    provenance: NestedViewProvenance,
    scope: HostScope,
)
    requires
        provenance_current(provenance, scope),
    ensures
        scope.policy == Some(provenance.policy),
        current_generation(scope) == provenance.application,
{
}

/// What is asked for is current exactly for the authority and the application that asked, as long
/// as that application is active.
pub proof fn law_a_caller_stays_current_while_active(
    provenance: NestedViewProvenance,
    scope: HostScope,
)
    requires
        scope.policy == Some(provenance.policy),
        match scope.application {
            Some(current) => current.active && provenance.application == Some(current.generation),
            None => provenance.application is None,
        },
    ensures
        provenance_current(provenance, scope),
{
}

/// Retained views are changed in events and outside of calls, never while a frame is described or
/// laid out; the refusal names what was asked for and when.
pub proof fn law_views_are_changed_in_events_only(
    scope: HostScope,
    api: Seq<char>,
    action: Seq<char>,
)
    ensures
        mutation_refusal(scope, api, action) is Ok <==> scope.phase is None || scope.phase == Some(
            ScopePhase::Event,
        ),
        mutation_refusal(scope, api, action) matches Err(error) ==> error == (
        ScriptError::WrongPhase {
            api,
            phase: if scope.phase == Some(ScopePhase::Render) {
                "render"@
            } else {
                "layout"@
            },
            action,
        }),
{
}

/// A call with an authority of its own runs with that one, whatever the default is; the default
/// counts only without.
pub proof fn law_a_call_keeps_its_authority(scope: HostScope, default: u64, other: u64)
    ensures
        scope.policy is Some ==> authority(scope, default) == authority(scope, other),
        scope.policy is Some ==> scope.policy == Some(authority(scope, default)),
        scope.policy is None ==> authority(scope, default) == default,
        scope.application is None <==> current_generation(scope) is None,
        scope.application matches Some(current) ==> current_generation(scope) == Some(
            current.generation,
        ),
{
}

proof fn lemma_phase_names_differ()
    ensures
        "event"@ != "render"@,
        "event"@ != "layout"@,
        "render"@ != "layout"@,
{
    reveal_strlit("event");
    assert("event"@.len() == 5);
    reveal_strlit("render");
    assert("render"@.len() == 6);
    reveal_strlit("layout");
    assert("layout"@.len() == 6);
    assert("render"@[0] != "layout"@[0]);
}

/// A phase is told by its own name, and the names tell the phases apart.
pub proof fn law_a_phase_is_told_by_its_name(phase: ScopePhase)
    ensures
        phase_name(phase) == "event"@ <==> phase == ScopePhase::Event,
        phase_name(phase) == "render"@ <==> phase == ScopePhase::Render,
        phase_name(phase) == "layout"@ <==> phase == ScopePhase::Layout,
{
    lemma_phase_names_differ();
}

} // verus!
