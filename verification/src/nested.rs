//! Views that scripts create, update, notify and release.
//!
//! A script's request cannot be carried out while the script engine is locked, so it is queued and
//! carried out, in order, once the engine has returned. This module holds the queue, what each
//! token a script holds stands for, and the rules on who may do what to which view.
use crate::error::Fault;
use crate::error::ScriptError;
use crate::error;
use crate::modules::ApplicationModuleLease;
use crate::runtime::ViewType;
use crate::scope::HostScope;
use crate::scope::NestedViewProvenance;
use crate::scope;
use std::collections::HashMap;
use std::collections::VecDeque;
use vstd::prelude::*;
use vstd::std_specs::hash::*;
use vstd::string::*;

verus! {

broadcast use vstd::std_specs::hash::group_hash_axioms;

/// What a token stands for once its view exists.
#[derive(Clone, Copy, PartialEq, Eq, Structural, Debug)]
pub struct NestedViewAlias {
    pub handle: u64,
    pub provenance: NestedViewProvenance,
}

/// A view that was constructed: the load whose lease it holds and the application it belongs to.
#[derive(Clone, Copy, PartialEq, Eq, Structural, Debug)]
pub struct ViewOrigin {
    pub load: Option<u64>,
    pub application: Option<u64>,
}

/// The view in which a request is made, as far as a new view inherits from it.
#[derive(Clone, Copy, PartialEq, Eq, Structural, Debug)]
pub struct ParentView {
    pub origin: ViewOrigin,
    pub policy: u64,
}

/// A request that waits until the script engine has returned. That for a new view holds a lease of
/// the modules its class comes from.
#[derive(PartialEq, Eq, Structural, Debug)]
pub enum PendingNestedOperation {
    Create { token: u32, owner: u64, view_type: ViewType, policy: u64, props: u64 },
    Update { token: u32, provenance: NestedViewProvenance, props: u64 },
    Notify { token: u32, provenance: NestedViewProvenance },
    Release { token: u32, provenance: NestedViewProvenance },
    EditDock { dock: u64, edit: u64, provenance: NestedViewProvenance },
}

/// What the embedding application is to do for one request.
#[derive(PartialEq, Eq, Structural, Debug)]
pub enum NestedAction {
    /// Construct and initialize a view in the scope of `owner`.
    Create { token: u32, owner: u64, view_type: ViewType, policy: u64, props: u64 },
    /// Deliver new props to a view.
    Update { handle: u64, props: u64 },
    /// Have a view describe itself again.
    Refresh { handle: u64 },
    /// Release a view.
    Release { handle: u64 },
    /// Edit a dock's layout, with the given authority.
    EditDock { dock: u64, edit: u64, provenance: NestedViewProvenance },
}

/// Everything that is known of nested views.
#[verifier::ext_equal]
pub struct NestedModel {
    pub pending: Seq<PendingNestedOperation>,
    pub handles: Map<u32, NestedViewAlias>,
    pub in_flight: Map<u32, NestedViewProvenance>,
    pub next_token: u32,
    pub flushing: bool,
    pub initializing: Seq<ViewOrigin>,
    /// The leases of requests that are over, which are to be given back.
    pub returned: Seq<ApplicationModuleLease>,
}

/// The requests that wait and what tokens stand for.
pub struct NestedViews {
    pending: VecDeque<PendingNestedOperation>,
    handles: HashMap<u32, NestedViewAlias>,
    in_flight: HashMap<u32, NestedViewProvenance>,
    next_token: u32,
    flushing: bool,
    initializing: Vec<ViewOrigin>,
    returned: Vec<ApplicationModuleLease>,
}

impl View for NestedViews {
    type V = NestedModel;

    closed spec fn view(&self) -> NestedModel {
        NestedModel {
            pending: self.pending@,
            handles: self.handles@,
            in_flight: self.in_flight@,
            next_token: self.next_token,
            flushing: self.flushing,
            initializing: self.initializing@,
            returned: self.returned@,
        }
    }
}

/// Whether a request creates the view behind `token`.
pub open spec fn creates(operation: PendingNestedOperation, token: u32) -> bool {
    operation matches PendingNestedOperation::Create { token: candidate, .. } && candidate == token
}

/// Whether a request releases the view behind `token`.
pub open spec fn releases(operation: PendingNestedOperation, token: u32) -> bool {
    operation matches PendingNestedOperation::Release { token: candidate, .. } && candidate == token
}

/// On whose behalf a view is created.
pub open spec fn creator(operation: PendingNestedOperation) -> NestedViewProvenance {
    match operation {
        PendingNestedOperation::Create { view_type, policy, .. } => NestedViewProvenance {
            application: view_type.application,
            policy,
        },
        _ => arbitrary(),
    }
}

/// Who the first waiting creation of `token` is for.
pub open spec fn pending_creator(
    pending: Seq<PendingNestedOperation>,
    token: u32,
) -> Option<NestedViewProvenance>
    decreases pending.len(),
{
    if pending.len() == 0 {
        None
    } else if creates(pending[0], token) {
        Some(creator(pending[0]))
    } else {
        pending_creator(pending.skip(1), token)
    }
}

/// Whether a release of `token` waits.
pub open spec fn release_waits(m: NestedModel, token: u32) -> bool {
    exists|i: int| 0 <= i < m.pending.len() && releases(#[trigger] m.pending[i], token)
}

/// On whose behalf the view behind `token` exists, is being created or will be: the view's own
/// record decides where there is one, then the waiting creation, then the one under way.
pub open spec fn authority(m: NestedModel, token: u32) -> Option<NestedViewProvenance> {
    if m.handles.contains_key(token) {
        Some(m.handles[token].provenance)
    } else {
        match pending_creator(m.pending, token) {
            Some(provenance) => Some(provenance),
            None => if m.in_flight.contains_key(token) {
                Some(m.in_flight[token])
            } else {
                None
            },
        }
    }
}

/// Whether the caller may act on `token` at all.
pub open spec fn authorized(m: NestedModel, scope: HostScope, token: u32) -> bool {
    authority(m, token) matches Some(provenance) && scope::provenance_current(provenance, scope)
}

/// The state with one more request waiting, behind all others.
pub open spec fn enqueue(m: NestedModel, operation: PendingNestedOperation) -> NestedModel {
    NestedModel { pending: m.pending.push(operation), ..m }
}

/// The state without what `token` stood for.
pub open spec fn forget(m: NestedModel, token: u32) -> NestedModel {
    NestedModel { handles: m.handles.remove(token), ..m }
}

/// Why a new view cannot be asked for, if it cannot. `parent` is what the current view hands down;
/// it is empty where no host call is in progress.
pub open spec fn creation_refusal(
    m: NestedModel,
    scope: HostScope,
    parent: Option<ParentView>,
) -> Option<ScriptError<Seq<char>>> {
    if scope.view is None {
        Some(ScriptError::Fixed(Fault::NestedNeedsView))
    } else if parent is None {
        Some(ScriptError::NeedsCall { api: "cx.new(Class, props)"@ })
    } else if m.next_token == u32::MAX {
        Some(ScriptError::Fixed(Fault::NestedTokens))
    } else {
        None
    }
}

/// The view that a new view takes its modules and its application from: the one that runs its
/// `init`, or else the one for which the script runs.
pub open spec fn origin_for(m: NestedModel, parent: ParentView) -> ViewOrigin {
    if m.initializing.len() > 0 {
        m.initializing.last()
    } else {
        parent.origin
    }
}

/// The leases with that of one more view class.
pub open spec fn with_lease(
    returned: Seq<ApplicationModuleLease>,
    lease: Option<ApplicationModuleLease>,
) -> Seq<ApplicationModuleLease> {
    match lease {
        Some(lease) => returned.push(lease),
        None => returned,
    }
}

/// What a request for a new view does and answers. `lease` keeps the modules of its class loaded.
pub open spec fn creation(
    m: NestedModel,
    scope: HostScope,
    parent: Option<ParentView>,
    class: u64,
    props: u64,
    lease: Option<ApplicationModuleLease>,
) -> (NestedModel, Result<u32, ScriptError<Seq<char>>>) {
    match creation_refusal(m, scope, parent) {
        Some(error) => (
            NestedModel { returned: with_lease(m.returned, lease), ..m },
            Err(error),
        ),
        None => {
            let operation = PendingNestedOperation::Create {
                token: m.next_token,
                owner: scope.view->Some_0,
                view_type: ViewType {
                    class,
                    module_lease: lease,
                    application: match scope::current_generation(scope) {
                        Some(generation) => Some(generation),
                        None => origin_for(m, parent->Some_0).application,
                    },
                },
                policy: parent->Some_0.policy,
                props,
            };
            (
                NestedModel {
                    next_token: (m.next_token + 1) as u32,
                    ..enqueue(m, operation)
                },
                Ok(m.next_token),
            )
        },
    }
}

/// What a request about the view behind `token` does and answers, where a caller without authority
/// and a view that is gone are refused alike. `live` tells whether the view behind the token's
/// record still exists.
pub open spec fn addressed(
    m: NestedModel,
    scope: HostScope,
    token: u32,
    live: bool,
    operation: PendingNestedOperation,
    refusal: Fault,
) -> (NestedModel, Result<(), Fault>) {
    if release_waits(m, token) || !authorized(m, scope, token) {
        (m, Err(refusal))
    } else if m.handles.contains_key(token) && !live {
        (forget(m, token), Err(refusal))
    } else {
        (enqueue(m, operation), Ok(()))
    }
}

/// What a request to deliver new props does and answers.
pub open spec fn update(
    m: NestedModel,
    scope: HostScope,
    token: u32,
    live: bool,
    props: u64,
) -> (NestedModel, Result<(), Fault>) {
    addressed(
        m,
        scope,
        token,
        live,
        PendingNestedOperation::Update { token, provenance: authority(m, token)->Some_0, props },
        Fault::UpdateReleased,
    )
}

/// What a request to describe a view again does and answers.
pub open spec fn notify(
    m: NestedModel,
    scope: HostScope,
    token: u32,
    live: bool,
) -> (NestedModel, Result<(), Fault>) {
    addressed(
        m,
        scope,
        token,
        live,
        PendingNestedOperation::Notify { token, provenance: authority(m, token)->Some_0 },
        Fault::NotifyReleased,
    )
}

/// What a request to release a view does and answers: whether the view will be released by it.
pub open spec fn release(
    m: NestedModel,
    scope: HostScope,
    token: u32,
    live: bool,
) -> (NestedModel, Result<bool, Fault>) {
    if !authorized(m, scope, token) {
        (m, Err(Fault::ReleaseReleased))
    } else if m.handles.contains_key(token) && !live {
        (forget(m, token), Ok(false))
    } else if release_waits(m, token) {
        (m, Ok(false))
    } else {
        (
            enqueue(
                m,
                PendingNestedOperation::Release { token, provenance: authority(m, token)->Some_0 },
            ),
            Ok(true),
        )
    }
}

/// What a request to edit a dock does and answers.
pub open spec fn dock_edit(
    m: NestedModel,
    scope: HostScope,
    dock: u64,
    edit: u64,
    api: Seq<char>,
) -> (NestedModel, Result<(), ScriptError<Seq<char>>>) {
    match scope.policy {
        None => (m, Err(ScriptError::NeedsCall { api })),
        Some(policy) => (
            enqueue(
                m,
                PendingNestedOperation::EditDock {
                    dock,
                    edit,
                    provenance: NestedViewProvenance {
                        application: scope::current_generation(scope),
                        policy,
                    },
                },
            ),
            Ok(()),
        ),
    }
}

/// The view a caller may use behind `token`.
pub open spec fn resolved(m: NestedModel, scope: HostScope, token: u32) -> Option<u64> {
    if m.handles.contains_key(token) && scope::provenance_current(
        m.handles[token].provenance,
        scope,
    ) {
        Some(m.handles[token].handle)
    } else {
        None
    }
}

/// The view that a mount of `token` shows, or that it is released.
pub open spec fn mountable(m: NestedModel, scope: HostScope, token: u32, live: bool) -> Result<
    u64,
    Fault,
> {
    if release_waits(m, token) {
        Err(Fault::MountReleased)
    } else {
        match resolved(m, scope, token) {
            Some(handle) => if live {
                Ok(handle)
            } else {
                Err(Fault::MountReleased)
            },
            None => Err(Fault::MountReleased),
        }
    }
}

/// The record of `token`, where it was made for the same authority and application.
pub open spec fn matching_alias(
    m: NestedModel,
    token: u32,
    provenance: NestedViewProvenance,
) -> Option<u64> {
    if m.handles.contains_key(token) && m.handles[token].provenance == provenance {
        Some(m.handles[token].handle)
    } else {
        None
    }
}

/// What one request comes to when its turn comes: the state it leaves, and what is to be done for
/// it or why it fails. `alive` tells whether the runtime is still there, `live` whether the view
/// behind the request's token still exists.
pub open spec fn turn(
    m: NestedModel,
    scope: HostScope,
    operation: PendingNestedOperation,
    alive: bool,
    live: bool,
) -> (NestedModel, Result<NestedAction, Fault>) {
    match operation {
        PendingNestedOperation::Create { token, owner, view_type, policy, props } => {
            let provenance = creator(operation);
            let dropped = NestedModel {
                returned: with_lease(m.returned, view_type.module_lease),
                ..m
            };
            if !alive {
                (dropped, Err(Fault::ShutDownCreate))
            } else if !scope::provenance_current(provenance, scope) {
                (dropped, Err(Fault::ForeignCreate))
            } else {
                (
                    NestedModel { in_flight: m.in_flight.insert(token, provenance), ..m },
                    Ok(NestedAction::Create { token, owner, view_type, policy, props }),
                )
            }
        },
        PendingNestedOperation::EditDock { dock, edit, provenance } => {
            if !alive {
                (m, Err(Fault::ShutDownDock))
            } else if !scope::provenance_current(provenance, scope) {
                (m, Err(Fault::ForeignDock))
            } else {
                (m, Ok(NestedAction::EditDock { dock, edit, provenance }))
            }
        },
        PendingNestedOperation::Update { token, provenance, props } => {
            if !alive {
                (m, Err(Fault::ShutDownUpdate))
            } else if !scope::provenance_current(provenance, scope) {
                (m, Err(Fault::ForeignEntity))
            } else {
                match matching_alias(m, token, provenance) {
                    Some(handle) => (m, Ok(NestedAction::Update { handle, props })),
                    None => (m, Err(Fault::GoneBeforeUpdate)),
                }
            }
        },
        PendingNestedOperation::Notify { token, provenance } => {
            if !alive {
                (m, Err(Fault::ShutDownNotify))
            } else if !scope::provenance_current(provenance, scope) {
                (m, Err(Fault::ForeignEntity))
            } else {
                match matching_alias(m, token, provenance) {
                    Some(handle) if live => (m, Ok(NestedAction::Refresh { handle })),
                    _ => (m, Err(Fault::GoneBeforeNotify)),
                }
            }
        },
        PendingNestedOperation::Release { token, provenance } => {
            if !alive {
                (m, Err(Fault::ShutDownRelease))
            } else if !scope::provenance_current(provenance, scope) {
                (m, Err(Fault::ForeignEntity))
            } else {
                match matching_alias(m, token, provenance) {
                    Some(handle) => (forget(m, token), Ok(NestedAction::Release { handle })),
                    None => (m, Err(Fault::GoneBeforeRelease)),
                }
            }
        },
    }
}

/// The lease that a request holds, if it holds one.
pub open spec fn lease_of(operation: PendingNestedOperation) -> Option<ApplicationModuleLease> {
    match operation {
        PendingNestedOperation::Create { view_type, .. } => view_type.module_lease,
        _ => None,
    }
}

/// The leases with those of requests that are dropped, the last first.
pub open spec fn collected(
    returned: Seq<ApplicationModuleLease>,
    operations: Seq<PendingNestedOperation>,
) -> Seq<ApplicationModuleLease>
    decreases operations.len(),
{
    if operations.len() == 0 {
        returned
    } else {
        collected(with_lease(returned, lease_of(operations.last())), operations.drop_last())
    }
}

/// The state with no more than so many requests: those behind them are dropped, and their leases
/// are to be given back.
pub open spec fn shortened(m: NestedModel, checkpoint: nat) -> NestedModel {
    if checkpoint <= m.pending.len() {
        NestedModel {
            pending: m.pending.take(checkpoint as int),
            returned: collected(m.returned, m.pending.skip(checkpoint as int)),
            ..m
        }
    } else {
        m
    }
}

/// The state after a request failed: nothing waits any more, and the queue may be flushed again.
pub open spec fn abandoned(m: NestedModel) -> NestedModel {
    NestedModel { flushing: false, ..shortened(m, 0) }
}

/// How a flush of the queue goes on.
#[derive(PartialEq, Eq, Structural, Debug)]
pub enum FlushStep {
    /// The queue is empty: the flush is over.
    Done,
    /// Do this, and report how it went.
    Perform(NestedAction),
    /// The flush is over: the request failed, and those behind it were dropped.
    Failed(Fault),
}

/// What the next step of a flush is.
pub open spec fn flush_step(m: NestedModel, scope: HostScope, alive: bool, live: bool) -> (
    NestedModel,
    FlushStep,
) {
    if m.pending.len() == 0 {
        (NestedModel { flushing: false, ..m }, FlushStep::Done)
    } else {
        let rest = NestedModel { pending: m.pending.skip(1), ..m };
        match turn(rest, scope, m.pending[0], alive, live) {
            (next, Ok(action)) => (next, FlushStep::Perform(action)),
            (next, Err(fault)) => (abandoned(next), FlushStep::Failed(fault)),
        }
    }
}

/// How the embedding application carried out what it was to do.
#[derive(Clone, Copy, PartialEq, Eq, Structural, Debug)]
pub enum ActionOutcome {
    /// A view was created.
    Created(u64),
    /// It was done. Of a release: the view was there to release.
    Done,
    /// Of a release: the view was not there any more.
    Missing,
    /// It failed.
    Failed,
}

/// How a flush goes on after one action.
#[derive(Clone, Copy, PartialEq, Eq, Structural, Debug)]
pub enum Settled {
    /// Take the next step.
    Continue,
    /// The flush is over with the error the action itself gave.
    Stop,
    /// The flush is over with this error.
    Failed(Fault),
}

/// What is recorded of an action that was carried out, and how the flush goes on.
pub open spec fn settle(m: NestedModel, action: NestedAction, outcome: ActionOutcome) -> (
    NestedModel,
    Settled,
) {
    match action {
        NestedAction::Create { token, view_type, policy, .. } => {
            let landed = NestedModel {
                in_flight: m.in_flight.remove(token),
                returned: with_lease(m.returned, view_type.module_lease),
                ..m
            };
            match outcome {
                ActionOutcome::Created(handle) => (
                    NestedModel {
                        handles: m.handles.insert(
                            token,
                            NestedViewAlias {
                                handle,
                                provenance: NestedViewProvenance {
                                    application: view_type.application,
                                    policy,
                                },
                            },
                        ),
                        ..landed
                    },
                    Settled::Continue,
                ),
                _ => (abandoned(landed), Settled::Stop),
            }
        },
        NestedAction::Release { .. } => match outcome {
            ActionOutcome::Done => (m, Settled::Continue),
            ActionOutcome::Missing => (abandoned(m), Settled::Failed(Fault::GoneBeforeRelease)),
            _ => (abandoned(m), Settled::Stop),
        },
        _ => match outcome {
            ActionOutcome::Done => (m, Settled::Continue),
            _ => (abandoned(m), Settled::Stop),
        },
    }
}

/// The state without any record of the released views.
pub open spec fn purged(m: NestedModel, released: Seq<u64>) -> NestedModel {
    NestedModel {
        handles: m.handles.restrict(
            Set::new(
                |token: u32|
                    m.handles.contains_key(token) && !released.contains(m.handles[token].handle),
            ),
        ),
        ..m
    }
}

proof fn lemma_pending_creator_prefix(pending: Seq<PendingNestedOperation>, token: u32, upto: int)
    requires
        0 <= upto <= pending.len(),
        forall|i: int| 0 <= i < upto ==> !creates(#[trigger] pending[i], token),
    ensures
        pending_creator(pending, token) == pending_creator(pending.skip(upto), token),
    decreases upto,
{
    if upto == 0 {
        assert(pending.skip(0) =~= pending);
    } else {
        let rest = pending.skip(1);
        assert forall|i: int| 0 <= i < upto - 1 implies !creates(#[trigger] rest[i], token) by {
            assert(rest[i] == pending[i + 1]);
        }
        lemma_pending_creator_prefix(rest, token, upto - 1);
        assert(rest.skip(upto - 1) =~= pending.skip(upto));
    }
}

/// The token that a request names, where it names one.
pub open spec fn token_of(operation: PendingNestedOperation) -> Option<u32> {
    match operation {
        PendingNestedOperation::Create { token, .. } => Some(token),
        PendingNestedOperation::Update { token, .. } => Some(token),
        PendingNestedOperation::Notify { token, .. } => Some(token),
        PendingNestedOperation::Release { token, .. } => Some(token),
        PendingNestedOperation::EditDock { .. } => None,
    }
}

impl NestedViews {
    /// No views and no requests.
    pub fn new() -> (r: Self)
        ensures
            r@ == (NestedModel {
                pending: Seq::empty(),
                handles: Map::empty(),
                in_flight: Map::empty(),
                next_token: 0,
                flushing: false,
                initializing: Seq::empty(),
                returned: Seq::empty(),
            }),
    {
        NestedViews {
            pending: VecDeque::new(),
            handles: HashMap::new(),
            in_flight: HashMap::new(),
            next_token: 0,
            flushing: false,
            initializing: Vec::new(),
            returned: Vec::new(),
        }
    }

    /// How many requests wait.
    pub fn pending_count(&self) -> (r: usize)
        ensures
            r == self@.pending.len(),
    {
        self.pending.len()
    }

    /// How many tokens stand for a view.
    pub fn nested_view_alias_count(&self) -> (r: usize)
        ensures
            r == self@.handles.len(),
    {
        self.handles.len()
    }

    /// The view recorded for `token`, whoever asks.
    pub fn handle_of(&self, token: u32) -> (r: Option<u64>)
        ensures
            r == (if self@.handles.contains_key(token) {
                Some(self@.handles[token].handle)
            } else {
                None
            }),
    {
        match self.handles.get(&token) {
            Some(alias) => Some(alias.handle),
            None => None,
        }
    }

    /// The token of the first waiting request, where it names one.
    pub fn next_pending_token(&self) -> (r: Option<u32>)
        ensures
            r == (if self@.pending.len() == 0 {
                None
            } else {
                token_of(self@.pending[0])
            }),
    {
        if self.pending.len() == 0 {
            return None;
        }
        match &self.pending[0] {
            PendingNestedOperation::Create { token, .. } => Some(*token),
            PendingNestedOperation::Update { token, .. } => Some(*token),
            PendingNestedOperation::Notify { token, .. } => Some(*token),
            PendingNestedOperation::Release { token, .. } => Some(*token),
            PendingNestedOperation::EditDock { .. } => None,
        }
    }

    /// A view begins its `init`: what it creates belongs with it.
    pub fn begin_initialize(&mut self, origin: ViewOrigin)
        ensures
            final(self)@ == (NestedModel {
                initializing: old(self)@.initializing.push(origin),
                ..old(self)@
            }),
    {
        self.initializing.push(origin);
    }

    /// The view that began its `init` last is done with it.
    pub fn end_initialize(&mut self)
        requires
            old(self)@.initializing.len() > 0,
        ensures
            final(self)@ == (NestedModel {
                initializing: old(self)@.initializing.drop_last(),
                ..old(self)@
            }),
    {
        self.initializing.pop();
    }

    fn pending_creator_of(&self, token: u32) -> (r: Option<NestedViewProvenance>)
        ensures
            r == pending_creator(self@.pending, token),
    {
        let mut i: usize = 0;
        while i < self.pending.len()
            invariant
                i <= self.pending@.len(),
                forall|j: int| 0 <= j < i ==> !creates(#[trigger] self.pending@[j], token),
            decreases self.pending@.len() - i,
        {
            match &self.pending[i] {
                PendingNestedOperation::Create { token: candidate, view_type, policy, .. } => {
                    if *candidate == token {
                        proof {
                            lemma_pending_creator_prefix(self.pending@, token, i as int);
                            assert(self.pending@.skip(i as int)[0] == self.pending@[i as int]);
                        }
                        return Some(
                            NestedViewProvenance {
                                application: view_type.application,
                                policy: *policy,
                            },
                        );
                    }
                },
                _ => {},
            }
            i += 1;
        }
        proof {
            lemma_pending_creator_prefix(self.pending@, token, i as int);
        }
        None
    }

    fn release_is_pending(&self, token: u32) -> (r: bool)
        ensures
            r == release_waits(self@, token),
    {
        let mut i: usize = 0;
        while i < self.pending.len()
            invariant
                i <= self.pending@.len(),
                forall|j: int| 0 <= j < i ==> !releases(#[trigger] self.pending@[j], token),
            decreases self.pending@.len() - i,
        {
            match &self.pending[i] {
                PendingNestedOperation::Release { token: candidate, .. } => {
                    if *candidate == token {
                        assert(releases(self@.pending[i as int], token));
                        return true;
                    }
                },
                _ => {},
            }
            i += 1;
        }
        false
    }

    fn authority_over(&self, token: u32) -> (r: Option<NestedViewProvenance>)
        ensures
            r == authority(self@, token),
    {
        match self.handles.get(&token) {
            Some(alias) => Some(alias.provenance),
            None => match self.pending_creator_of(token) {
                Some(provenance) => Some(provenance),
                None => match self.in_flight.get(&token) {
                    Some(provenance) => Some(*provenance),
                    None => None,
                },
            },
        }
    }

    /// The view that a new view takes its modules and its application from, or why none can be
    /// asked for.
    pub fn creation_origin(&self, scope: &HostScope, parent: &Option<ParentView>) -> (r: Result<
        ViewOrigin,
        ScriptError<String>,
    >)
        ensures
            match (r, creation_refusal(self@, *scope, *parent)) {
                (Ok(origin), None) => origin == origin_for(self@, parent->Some_0),
                (Err(error), Some(expected)) => error::error_view(error) == expected,
                _ => false,
            },
    {
        if scope.view.is_none() {
            return Err(ScriptError::Fixed(Fault::NestedNeedsView));
        }
        match parent {
            None => Err(ScriptError::NeedsCall { api: "cx.new(Class, props)".to_owned() }),
            Some(parent) => if self.next_token == u32::MAX {
                Err(ScriptError::Fixed(Fault::NestedTokens))
            } else if self.initializing.len() > 0 {
                Ok(self.initializing[self.initializing.len() - 1])
            } else {
                Ok(parent.origin)
            },
        }
    }

    fn give_back(&mut self, lease: Option<ApplicationModuleLease>)
        ensures
            final(self)@ == (NestedModel {
                returned: with_lease(old(self)@.returned, lease),
                ..old(self)@
            }),
    {
        match lease {
            Some(lease) => {
                self.returned.push(lease);
            },
            None => {},
        }
    }

    /// Asks for a new view of `class`. `parent` is what the current view hands down, and `lease`
    /// keeps the modules of the class loaded.
    pub fn queue_nested_view_creation(
        &mut self,
        scope: &HostScope,
        parent: Option<ParentView>,
        class: u64,
        props: u64,
        lease: Option<ApplicationModuleLease>,
    ) -> (r: Result<u32, ScriptError<String>>)
        ensures
            (final(self)@, error::outcome_view(r)) == creation(
                old(self)@,
                *scope,
                parent,
                class,
                props,
                lease,
            ),
    {
        let origin = match self.creation_origin(scope, &parent) {
            Ok(origin) => origin,
            Err(error) => {
                self.give_back(lease);
                return Err(error);
            },
        };
        match (scope.view, parent) {
            (Some(owner), Some(parent)) => {
                let token: u32 = self.next_token;
                let application: Option<u64> = match scope.generation() {
                    Some(generation) => Some(generation),
                    None => origin.application,
                };
                self.next_token = token + 1;
                self.pending.push_back(
                    PendingNestedOperation::Create {
                        token,
                        owner,
                        view_type: ViewType { class, module_lease: lease, application },
                        policy: parent.policy,
                        props,
                    },
                );
                Ok(token)
            },
            _ => Err(ScriptError::Fixed(Fault::NestedNeedsView)),
        }
    }

    /// The leases of requests that are over.
    pub fn take_returned(&mut self) -> (r: Vec<ApplicationModuleLease>)
        ensures
            r@ == old(self)@.returned,
            final(self)@ == (NestedModel { returned: Seq::empty(), ..old(self)@ }),
    {
        let mut returned: Vec<ApplicationModuleLease> = Vec::new();
        std::mem::swap(&mut returned, &mut self.returned);
        assert(self@.returned =~= Seq::empty());
        returned
    }

    /// Asks to deliver new props to the view behind `token`. `live` tells whether the view that is
    /// recorded for the token still exists.
    pub fn queue_nested_view_update(
        &mut self,
        scope: &HostScope,
        token: u32,
        live: bool,
        props: u64,
    ) -> (r: Result<(), Fault>)
        ensures
            (final(self)@, r) == update(old(self)@, *scope, token, live, props),
    {
        let provenance = match self.current_authority(scope, token) {
            Some(provenance) => provenance,
            None => {
                return Err(Fault::UpdateReleased);
            },
        };
        if self.release_is_pending(token) {
            return Err(Fault::UpdateReleased);
        }
        if self.handles.contains_key(&token) && !live {
            self.handles.remove(&token);
            return Err(Fault::UpdateReleased);
        }
        self.pending.push_back(PendingNestedOperation::Update { token, provenance, props });
        Ok(())
    }

    /// Asks to have the view behind `token` described again.
    pub fn queue_nested_view_notify(&mut self, scope: &HostScope, token: u32, live: bool) -> (r:
        Result<(), Fault>)
        ensures
            (final(self)@, r) == notify(old(self)@, *scope, token, live),
    {
        let provenance = match self.current_authority(scope, token) {
            Some(provenance) => provenance,
            None => {
                return Err(Fault::NotifyReleased);
            },
        };
        if self.release_is_pending(token) {
            return Err(Fault::NotifyReleased);
        }
        if self.handles.contains_key(&token) && !live {
            self.handles.remove(&token);
            return Err(Fault::NotifyReleased);
        }
        self.pending.push_back(PendingNestedOperation::Notify { token, provenance });
        Ok(())
    }

    /// Asks to release the view behind `token`; tells whether this request will do it.
    pub fn queue_nested_view_release(&mut self, scope: &HostScope, token: u32, live: bool) -> (r:
        Result<bool, Fault>)
        ensures
            (final(self)@, r) == release(old(self)@, *scope, token, live),
    {
        let provenance = match self.current_authority(scope, token) {
            Some(provenance) => provenance,
            None => {
                return Err(Fault::ReleaseReleased);
            },
        };
        if self.handles.contains_key(&token) && !live {
            self.handles.remove(&token);
            return Ok(false);
        }
        if self.release_is_pending(token) {
            return Ok(false);
        }
        self.pending.push_back(PendingNestedOperation::Release { token, provenance });
        Ok(true)
    }

    fn current_authority(&self, scope: &HostScope, token: u32) -> (r: Option<
        NestedViewProvenance,
    >)
        ensures
            match r {
                Some(provenance) => authorized(self@, *scope, token) && authority(self@, token)
                    == Some(provenance),
                None => !authorized(self@, *scope, token),
            },
    {
        match self.authority_over(token) {
            Some(provenance) => if provenance.is_current(scope) {
                Some(provenance)
            } else {
                None
            },
            None => None,
        }
    }

    /// Asks to edit a dock's layout, on behalf of the call in progress.
    pub fn queue_dock_edit(&mut self, scope: &HostScope, dock: u64, edit: u64, api: &str) -> (r:
        Result<(), ScriptError<String>>)
        ensures
            (final(self)@, error::outcome_view(r)) == dock_edit(
                old(self)@,
                *scope,
                dock,
                edit,
                api@,
            ),
    {
        match scope.policy {
            None => Err(ScriptError::NeedsCall { api: api.to_owned() }),
            Some(policy) => {
                self.pending.push_back(
                    PendingNestedOperation::EditDock {
                        dock,
                        edit,
                        provenance: NestedViewProvenance {
                            application: scope.generation(),
                            policy,
                        },
                    },
                );
                Ok(())
            },
        }
    }

    /// The view behind `token`, for a caller it belongs to.
    pub fn nested_view_for_token(&self, scope: &HostScope, token: u32) -> (r: Option<u64>)
        ensures
            r == resolved(self@, *scope, token),
    {
        match self.handles.get(&token) {
            Some(alias) => if alias.provenance.is_current(scope) {
                Some(alias.handle)
            } else {
                None
            },
            None => None,
        }
    }

    /// The view that a mount of `token` shows.
    pub fn child_view(&self, scope: &HostScope, token: u32, live: bool) -> (r: Result<u64, Fault>)
        ensures
            r == mountable(self@, *scope, token, live),
    {
        if self.release_is_pending(token) {
            return Err(Fault::MountReleased);
        }
        match self.nested_view_for_token(scope, token) {
            Some(handle) => if live {
                Ok(handle)
            } else {
                Err(Fault::MountReleased)
            },
            None => Err(Fault::MountReleased),
        }
    }

    /// Begins to carry out what waits; false where that is under way already.
    pub fn begin_flush(&mut self) -> (r: bool)
        ensures
            r == !old(self)@.flushing,
            final(self)@ == (NestedModel { flushing: true, ..old(self)@ }),
    {
        let begun = !self.flushing;
        self.flushing = true;
        begun
    }

    fn matching(&self, token: u32, provenance: NestedViewProvenance) -> (r: Option<u64>)
        ensures
            r == matching_alias(self@, token, provenance),
    {
        match self.handles.get(&token) {
            Some(alias) => if alias.provenance == provenance {
                Some(alias.handle)
            } else {
                None
            },
            None => None,
        }
    }

    fn take_turn(
        &mut self,
        scope: &HostScope,
        operation: PendingNestedOperation,
        alive: bool,
        live: bool,
    ) -> (r: Result<NestedAction, Fault>)
        ensures
            (final(self)@, r) == turn(old(self)@, *scope, operation, alive, live),
    {
        match operation {
            PendingNestedOperation::Create { token, owner, view_type, policy, props } => {
                if !alive {
                    self.give_back(view_type.module_lease);
                    return Err(Fault::ShutDownCreate);
                }
                let provenance = NestedViewProvenance {
                    application: view_type.application,
                    policy,
                };
                if !provenance.is_current(scope) {
                    self.give_back(view_type.module_lease);
                    return Err(Fault::ForeignCreate);
                }
                self.in_flight.insert(token, provenance);
                Ok(NestedAction::Create { token, owner, view_type, policy, props })
            },
            PendingNestedOperation::EditDock { dock, edit, provenance } => {
                if !alive {
                    return Err(Fault::ShutDownDock);
                }
                if !provenance.is_current(scope) {
                    return Err(Fault::ForeignDock);
                }
                Ok(NestedAction::EditDock { dock, edit, provenance })
            },
            PendingNestedOperation::Update { token, provenance, props } => {
                if !alive {
                    return Err(Fault::ShutDownUpdate);
                }
                if !provenance.is_current(scope) {
                    return Err(Fault::ForeignEntity);
                }
                match self.matching(token, provenance) {
                    Some(handle) => Ok(NestedAction::Update { handle, props }),
                    None => Err(Fault::GoneBeforeUpdate),
                }
            },
            PendingNestedOperation::Notify { token, provenance } => {
                if !alive {
                    return Err(Fault::ShutDownNotify);
                }
                if !provenance.is_current(scope) {
                    return Err(Fault::ForeignEntity);
                }
                match self.matching(token, provenance) {
                    Some(handle) => if live {
                        Ok(NestedAction::Refresh { handle })
                    } else {
                        Err(Fault::GoneBeforeNotify)
                    },
                    None => Err(Fault::GoneBeforeNotify),
                }
            },
            PendingNestedOperation::Release { token, provenance } => {
                if !alive {
                    return Err(Fault::ShutDownRelease);
                }
                if !provenance.is_current(scope) {
                    return Err(Fault::ForeignEntity);
                }
                match self.matching(token, provenance) {
                    Some(handle) => {
                        self.handles.remove(&token);
                        Ok(NestedAction::Release { handle })
                    },
                    None => Err(Fault::GoneBeforeRelease),
                }
            },
        }
    }

    fn abandon(&mut self)
        ensures
            final(self)@ == abandoned(old(self)@),
    {
        self.drop_since(0);
        self.flushing = false;
    }

    /// The next step of the flush that was begun. `alive` tells whether the runtime is still
    /// there, `live` whether the view recorded for the first request's token still exists.
    pub fn flush_pending_nested_views(&mut self, scope: &HostScope, alive: bool, live: bool) -> (r:
        FlushStep)
        ensures
            (final(self)@, r) == flush_step(old(self)@, *scope, alive, live),
    {
        match self.pending.pop_front() {
            None => {
                self.flushing = false;
                FlushStep::Done
            },
            Some(operation) => {
                assert(self.pending@ =~= old(self).pending@.skip(1));
                match self.take_turn(scope, operation, alive, live) {
                    Ok(action) => FlushStep::Perform(action),
                    Err(fault) => {
                        self.abandon();
                        FlushStep::Failed(fault)
                    },
                }
            },
        }
    }

    /// Records how an action of the flush went.
    pub fn settle_action(&mut self, action: NestedAction, outcome: ActionOutcome) -> (r: Settled)
        ensures
            (final(self)@, r) == settle(old(self)@, action, outcome),
    {
        match action {
            NestedAction::Create { token, view_type, policy, .. } => {
                self.in_flight.remove(&token);
                self.give_back(view_type.module_lease);
                match outcome {
                    ActionOutcome::Created(handle) => {
                        self.handles.insert(
                            token,
                            NestedViewAlias {
                                handle,
                                provenance: NestedViewProvenance {
                                    application: view_type.application,
                                    policy,
                                },
                            },
                        );
                        Settled::Continue
                    },
                    _ => {
                        self.abandon();
                        Settled::Stop
                    },
                }
            },
            NestedAction::Release { .. } => match outcome {
                ActionOutcome::Done => Settled::Continue,
                ActionOutcome::Missing => {
                    self.abandon();
                    Settled::Failed(Fault::GoneBeforeRelease)
                },
                _ => {
                    self.abandon();
                    Settled::Stop
                },
            },
            _ => match outcome {
                ActionOutcome::Done => Settled::Continue,
                _ => {
                    self.abandon();
                    Settled::Stop
                },
            },
        }
    }

    /// Drops the requests made since `checkpoint` of them waited: the script that made them failed.
    pub fn drop_since(&mut self, checkpoint: usize)
        ensures
            final(self)@ == shortened(old(self)@, checkpoint as nat),
    {
        if checkpoint > self.pending.len() {
            return;
        }
        let ghost all = self@.pending;
        while self.pending.len() > checkpoint
            invariant
                all == old(self)@.pending,
                checkpoint <= self.pending@.len() <= all.len(),
                self.pending@ == all.take(self.pending@.len() as int),
                self@.handles == old(self)@.handles,
                self@.in_flight == old(self)@.in_flight,
                self@.next_token == old(self)@.next_token,
                self@.flushing == old(self)@.flushing,
                self@.initializing == old(self)@.initializing,
                collected(self@.returned, self.pending@.skip(checkpoint as int)) == collected(
                    old(self)@.returned,
                    all.skip(checkpoint as int),
                ),
            decreases self.pending@.len(),
        {
            let ghost before = self.pending@;
            let ghost dropped = before.skip(checkpoint as int);
            match self.pending.pop_back() {
                Some(operation) => {
                    assert(operation == before.last());
                    assert(self.pending@ =~= before.drop_last());
                    assert(self.pending@ =~= all.take(self.pending@.len() as int));
                    assert(dropped.last() == operation);
                    assert(dropped.drop_last() =~= self.pending@.skip(checkpoint as int));
                    match operation {
                        PendingNestedOperation::Create { view_type, .. } => {
                            self.give_back(view_type.module_lease);
                        },
                        _ => {},
                    }
                },
                None => {},
            }
        }
        assert(self.pending@.skip(checkpoint as int) =~= Seq::empty());
        assert(self@.pending =~= all.take(checkpoint as int));
    }

    /// Forgets what stood for the released views.
    pub fn purge_released_view_aliases(&mut self, released: &Vec<u64>)
        ensures
            final(self)@ == purged(old(self)@, released@),
    {
        let ghost before = self.handles@;
        let mut doomed: Vec<u32> = Vec::new();
        for token in it: self.handles.keys()
            invariant
                before == self.handles@,
                it.seq().unref().to_set() == before.dom(),
                forall|j: int|
                    0 <= j < doomed@.len() ==> before.contains_key(#[trigger] doomed@[j])
                        && released@.contains(before[doomed@[j]].handle),
                forall|j: int|
                    0 <= j < it.index() && released@.contains(before[*#[trigger] it.seq()[j]].handle)
                        ==> doomed@.contains(*it.seq()[j]),
        {
            let ghost kept = doomed@;
            assert(it.seq().unref()[it.index()] == *token);
            assert(it.seq().unref().to_set().contains(*token));
            match self.handles.get(token) {
                Some(alias) => {
                    if holds(released, alias.handle) {
                        doomed.push(*token);
                        assert forall|t: u32| kept.contains(t) implies doomed@.contains(t) by {
                            let k = choose|k: int| 0 <= k < kept.len() && kept[k] == t;
                            assert(doomed@[k] == t);
                        }
                        assert(doomed@[kept.len() as int] == *token);
                    }
                },
                None => {},
            }
        }
        assert forall|t: u32|
            before.contains_key(t) && released@.contains(before[t].handle) implies doomed@.contains(
            t,
        ) by {}
        let mut i: usize = 0;
        while i < doomed.len()
            invariant
                i <= doomed@.len(),
                self@.pending == old(self)@.pending,
                self@.in_flight == old(self)@.in_flight,
                self@.next_token == old(self)@.next_token,
                self@.flushing == old(self)@.flushing,
                self@.initializing == old(self)@.initializing,
                self@.returned == old(self)@.returned,
                forall|t: u32| #[trigger]
                    self.handles@.contains_key(t) == (before.contains_key(t)
                        && !doomed@.take(i as int).contains(t)),
                forall|t: u32| self.handles@.contains_key(t) ==> self.handles@[t] == before[t],
            decreases doomed@.len() - i,
        {
            let token: u32 = doomed[i];
            self.handles.remove(&token);
            assert(doomed@.take(i + 1) =~= doomed@.take(i as int).push(token));
            assert forall|t: u32| #[trigger]
                doomed@.take(i + 1).contains(t) == (doomed@.take(i as int).contains(t) || t
                    == token) by {
                let longer = doomed@.take(i + 1);
                let shorter = doomed@.take(i as int);
                if shorter.contains(t) {
                    let k = choose|k: int| 0 <= k < shorter.len() && shorter[k] == t;
                    assert(longer[k] == t);
                }
                if t == token {
                    assert(longer[i as int] == t);
                }
            }
            i += 1;
        }
        assert(doomed@.take(i as int) =~= doomed@);
        assert forall|t: u32| #[trigger] doomed@.contains(t) implies before.contains_key(t)
            && released@.contains(before[t].handle) by {
            let k = choose|k: int| 0 <= k < doomed@.len() && doomed@[k] == t;
            assert(before.contains_key(doomed@[k]));
        }
        assert(self.handles@ =~= purged(old(self)@, released@).handles);
    }
}

/// Whether a handle is in a list.
pub fn holds(list: &Vec<u64>, handle: u64) -> (r: bool)
    ensures
        r == list@.contains(handle),
{
    let mut i: usize = 0;
    while i < list.len()
        invariant
            i <= list@.len(),
            forall|j: int| 0 <= j < i ==> list@[j] != handle,
        decreases list@.len() - i,
    {
        if list[i] == handle {
            assert(list@[i as int] == handle);
            return true;
        }
        i += 1;
    }
    false
}

/// Whether every token in use was handed out before the next one.
pub open spec fn tokens_issued(m: NestedModel) -> bool {
    &&& forall|i: int, token: u32|
        0 <= i < m.pending.len() && creates(#[trigger] m.pending[i], token) ==> #[trigger] below(
            token,
            m.next_token,
        )
    &&& forall|token: u32| #[trigger] m.handles.contains_key(token) ==> token < m.next_token
    &&& forall|token: u32| #[trigger] m.in_flight.contains_key(token) ==> token < m.next_token
}

/// Whether one token was handed out before another.
pub open spec fn below(token: u32, next: u32) -> bool {
    token < next
}

/// A token is handed out once: the one a creation answers stood for nothing before, and every
/// token in use stays below the next one.
pub proof fn law_tokens_are_unique(
    m: NestedModel,
    scope: HostScope,
    parent: Option<ParentView>,
    class: u64,
    props: u64,
    lease: Option<ApplicationModuleLease>,
)
    requires
        tokens_issued(m),
    ensures
        tokens_issued(creation(m, scope, parent, class, props, lease).0),
        creation(m, scope, parent, class, props, lease).1 matches Ok(token) ==> {
            &&& authority(m, token) is None
            &&& creation(m, scope, parent, class, props, lease).0.next_token == token + 1
        },
{
    let (after, answer) = creation(m, scope, parent, class, props, lease);
    if answer is Ok {
        let token = m.next_token;
        assert forall|i: int, t: u32|
            0 <= i < after.pending.len() && creates(
                #[trigger] after.pending[i],
                t,
            ) implies #[trigger] below(t, after.next_token) by {
            if i < m.pending.len() {
                assert(after.pending[i] == m.pending[i]);
                assert(below(t, m.next_token));
            }
        }
        assert forall|i: int| 0 <= i < m.pending.len() implies !creates(
            #[trigger] m.pending[i],
            token,
        ) by {
            if creates(m.pending[i], token) {
                assert(below(token, m.next_token));
            }
        }
        lemma_pending_creator_prefix(m.pending, token, m.pending.len() as int);
    }
}

/// Every other request, every step of a flush and every settled action keeps tokens below the
/// next one.
pub proof fn law_tokens_stay_issued(
    m: NestedModel,
    scope: HostScope,
    token: u32,
    live: bool,
    alive: bool,
    value: u64,
)
    requires
        tokens_issued(m),
    ensures
        tokens_issued(update(m, scope, token, live, value).0),
        tokens_issued(notify(m, scope, token, live).0),
        tokens_issued(release(m, scope, token, live).0),
        tokens_issued(flush_step(m, scope, alive, live).0),
{
    lemma_enqueue_keeps_issued(
        m,
        PendingNestedOperation::Update {
            token,
            provenance: authority(m, token)->Some_0,
            props: value,
        },
    );
    lemma_enqueue_keeps_issued(
        m,
        PendingNestedOperation::Notify { token, provenance: authority(m, token)->Some_0 },
    );
    lemma_enqueue_keeps_issued(
        m,
        PendingNestedOperation::Release { token, provenance: authority(m, token)->Some_0 },
    );
    if m.pending.len() > 0 {
        let rest = NestedModel { pending: m.pending.skip(1), ..m };
        assert forall|i: int, t: u32|
            0 <= i < rest.pending.len() && creates(
                #[trigger] rest.pending[i],
                t,
            ) implies #[trigger] below(t, rest.next_token) by {
            assert(rest.pending[i] == m.pending[i + 1]);
            assert(below(t, m.next_token));
        }
        match m.pending[0] {
            PendingNestedOperation::Create { token: created, .. } => {
                assert(creates(m.pending[0], created));
                assert(below(created, m.next_token));
            },
            _ => {},
        }
    }
}

proof fn lemma_enqueue_keeps_issued(m: NestedModel, operation: PendingNestedOperation)
    requires
        tokens_issued(m),
        operation !is Create,
    ensures
        tokens_issued(enqueue(m, operation)),
{
    let after = enqueue(m, operation);
    assert forall|i: int, t: u32|
        0 <= i < after.pending.len() && creates(
            #[trigger] after.pending[i],
            t,
        ) implies #[trigger] below(t, after.next_token) by {
        if i < m.pending.len() {
            assert(after.pending[i] == m.pending[i]);
            assert(below(t, m.next_token));
        }
    }
}

/// A caller without authority over a token cannot tell a live view from a released one, nor
/// disturb what the token stands for.
pub proof fn law_foreign_caller_learns_nothing(
    m: NestedModel,
    scope: HostScope,
    token: u32,
    props: u64,
)
    requires
        !authorized(m, scope, token),
    ensures
        forall|live: bool| #[trigger]
            update(m, scope, token, live, props) == (m, Err::<(), Fault>(Fault::UpdateReleased)),
        forall|live: bool| #[trigger]
            notify(m, scope, token, live) == (m, Err::<(), Fault>(Fault::NotifyReleased)),
        forall|live: bool| #[trigger]
            release(m, scope, token, live) == (m, Err::<bool, Fault>(Fault::ReleaseReleased)),
        m.handles.contains_key(token) ==> resolved(m, scope, token) is None,
{
}

/// A view is released once: a second request answers that it does nothing, and changes nothing.
pub proof fn law_second_release_does_nothing(m: NestedModel, scope: HostScope, token: u32)
    requires
        release(m, scope, token, true).1 == Ok::<bool, Fault>(true),
    ensures
        ({
            let after = release(m, scope, token, true).0;
            release(after, scope, token, true) == (after, Ok::<bool, Fault>(false))
        }),
{
    let after = release(m, scope, token, true).0;
    assert(releases(after.pending[m.pending.len() as int], token));
    lemma_creator_unmoved(
        m.pending,
        PendingNestedOperation::Release { token, provenance: authority(m, token)->Some_0 },
        token,
    );
}

proof fn lemma_creator_unmoved(
    pending: Seq<PendingNestedOperation>,
    operation: PendingNestedOperation,
    token: u32,
)
    requires
        !creates(operation, token),
    ensures
        pending_creator(pending.push(operation), token) == pending_creator(pending, token),
    decreases pending.len(),
{
    let longer = pending.push(operation);
    if pending.len() == 0 {
        assert(longer.skip(1) =~= pending);
        assert(longer[0] == operation);
    } else {
        lemma_creator_unmoved(pending.skip(1), operation, token);
        assert(longer.skip(1) =~= pending.skip(1).push(operation));
        assert(longer[0] == pending[0]);
    }
}

/// Once a release waits, the view takes no more updates or notifications and is mounted no more.
pub proof fn law_waiting_release_closes_the_view(
    m: NestedModel,
    scope: HostScope,
    token: u32,
    live: bool,
    props: u64,
)
    requires
        release_waits(m, token),
    ensures
        update(m, scope, token, live, props) == (m, Err::<(), Fault>(Fault::UpdateReleased)),
        notify(m, scope, token, live) == (m, Err::<(), Fault>(Fault::NotifyReleased)),
        mountable(m, scope, token, live) == Err::<u64, Fault>(Fault::MountReleased),
{
}

/// Requests take their turn in the order they were made: a flush takes the oldest, leaves the
/// others as they stand, and new ones go behind all that wait.
pub proof fn law_requests_keep_their_order(
    m: NestedModel,
    scope: HostScope,
    alive: bool,
    live: bool,
    later: PendingNestedOperation,
)
    requires
        m.pending.len() > 0,
    ensures
        flush_step(m, scope, alive, live).1 is Perform ==> flush_step(
            m,
            scope,
            alive,
            live,
        ).0.pending == m.pending.skip(1),
        flush_step(enqueue(m, later), scope, alive, live).1 == flush_step(
            m,
            scope,
            alive,
            live,
        ).1,
        flush_step(m, scope, alive, live).1 is Perform ==> flush_step(
            enqueue(m, later),
            scope,
            alive,
            live,
        ).0.pending == m.pending.skip(1).push(later),
{
    let longer = enqueue(m, later);
    assert(longer.pending[0] == m.pending[0]);
    assert(longer.pending.skip(1) =~= m.pending.skip(1).push(later));
}

/// A request that fails ends the flush: nothing that waited behind it is carried out, and the
/// queue can be flushed again.
pub proof fn law_failure_drops_what_waited(
    m: NestedModel,
    scope: HostScope,
    alive: bool,
    live: bool,
    action: NestedAction,
    outcome: ActionOutcome,
)
    ensures
        flush_step(m, scope, alive, live).1 is Failed ==> flush_step(
            m,
            scope,
            alive,
            live,
        ).0.pending.len() == 0 && !flush_step(m, scope, alive, live).0.flushing,
        settle(m, action, outcome).1 !is Continue ==> settle(m, action, outcome).0.pending.len()
            == 0 && !settle(m, action, outcome).0.flushing,
        settle(m, action, outcome).1 is Continue ==> settle(m, action, outcome).0.pending
            == m.pending && settle(m, action, outcome).0.flushing == m.flushing,
{
}

/// A request is carried out only with the authority it was made with: in any other scope its turn
/// fails, nothing but its lease is given back, and what tokens stand for is left alone.
pub proof fn law_turns_need_their_own_authority(
    m: NestedModel,
    scope: HostScope,
    operation: PendingNestedOperation,
    provenance: NestedViewProvenance,
    alive: bool,
    live: bool,
)
    requires
        match operation {
            PendingNestedOperation::Create { .. } => provenance == creator(operation),
            PendingNestedOperation::Update { provenance: own, .. } => provenance == own,
            PendingNestedOperation::Notify { provenance: own, .. } => provenance == own,
            PendingNestedOperation::Release { provenance: own, .. } => provenance == own,
            PendingNestedOperation::EditDock { provenance: own, .. } => provenance == own,
        },
        !scope::provenance_current(provenance, scope),
    ensures
        turn(m, scope, operation, alive, live).0 == (NestedModel {
            returned: with_lease(m.returned, lease_of(operation)),
            ..m
        }),
        turn(m, scope, operation, alive, live).1 is Err,
{
}

/// A view that was created is found again by its token, by exactly the callers that have the
/// authority it was created with.
pub proof fn law_created_view_answers_to_its_creator(
    m: NestedModel,
    scope: HostScope,
    operation: PendingNestedOperation,
    handle: u64,
    caller: HostScope,
)
    requires
        operation is Create,
        turn(m, scope, operation, true, true).1 is Ok,
    ensures
        ({
            let (begun, answer) = turn(m, scope, operation, true, true);
            let token = operation->Create_token;
            let (after, settled) = settle(begun, answer->Ok_0, ActionOutcome::Created(handle));
            &&& settled is Continue
            &&& resolved(after, caller, token) == if scope::provenance_current(
                creator(operation),
                caller,
            ) {
                Some(handle)
            } else {
                None
            }
            &&& !after.in_flight.contains_key(token)
        }),
{
}

/// A creation that fails leaves nothing behind: its token stands for no more than before, no
/// creation of it is under way, and its lease is given back.
pub proof fn law_failed_creation_leaves_nothing(
    m: NestedModel,
    scope: HostScope,
    operation: PendingNestedOperation,
)
    requires
        operation is Create,
        turn(m, scope, operation, true, true).1 is Ok,
        !m.in_flight.contains_key(operation->Create_token),
    ensures
        ({
            let (begun, answer) = turn(m, scope, operation, true, true);
            settle(begun, answer->Ok_0, ActionOutcome::Failed).0 == abandoned(
                NestedModel { returned: with_lease(m.returned, lease_of(operation)), ..m },
            )
        }),
{
    let (begun, answer) = turn(m, scope, operation, true, true);
    assert(begun.in_flight.remove(operation->Create_token) =~= m.in_flight);
}

/// A released view is found by no token any more, and every other view is found as before.
pub proof fn law_purge_forgets_exactly_the_released(
    m: NestedModel,
    released: Seq<u64>,
    scope: HostScope,
    token: u32,
)
    ensures
        resolved(purged(m, released), scope, token) == match resolved(m, scope, token) {
            Some(handle) => if released.contains(handle) {
                None
            } else {
                Some(handle)
            },
            None => None,
        },
{
}

/// A request for a new view waits behind all others, under the token it is answered with. It is for
/// the class and with the props that were given, in the scope of the view that asked, with the
/// authority that view hands down, and for the application whose code runs, or else that of the
/// view being initialized, or else that of the view that asked. It takes a view and a call in
/// progress and a token that is left; where one is missing the lease is to be given back and
/// nothing else changes.
pub proof fn law_a_new_view_is_asked_for_as_given(
    m: NestedModel,
    scope: HostScope,
    parent: Option<ParentView>,
    class: u64,
    props: u64,
    lease: Option<ApplicationModuleLease>,
)
    ensures
        ({
            let (after, answer) = creation(m, scope, parent, class, props, lease);
            &&& answer is Ok <==> scope.view is Some && parent is Some && m.next_token < u32::MAX
            &&& answer matches Ok(token) ==> {
                &&& token == m.next_token
                &&& after.next_token == token + 1
                &&& after.pending.len() == m.pending.len() + 1
                &&& after.pending.drop_last() == m.pending
                &&& after.handles == m.handles
                &&& after.in_flight == m.in_flight
                &&& after.returned == m.returned
                &&& after.initializing == m.initializing
                &&& match after.pending.last() {
                    PendingNestedOperation::Create {
                        token: named,
                        owner,
                        view_type,
                        policy,
                        props: given,
                    } => {
                        &&& named == token
                        &&& Some(owner) == scope.view
                        &&& view_type.class == class
                        &&& view_type.module_lease == lease
                        &&& policy == parent->Some_0.policy
                        &&& given == props
                        &&& scope.application matches Some(current) ==> view_type.application
                            == Some(current.generation)
                        &&& scope.application is None ==> view_type.application == if m.initializing.len()
                            > 0 {
                            m.initializing.last().application
                        } else {
                            parent->Some_0.origin.application
                        }
                    },
                    _ => false,
                }
            }
            &&& answer is Err ==> after.pending == m.pending && after.handles == m.handles
                && after.next_token == m.next_token && after.in_flight == m.in_flight
                && after.returned == match lease {
                Some(own) => m.returned.push(own),
                None => m.returned,
            }
        }),
{
    let after = creation(m, scope, parent, class, props, lease).0;
    if after.pending.len() > m.pending.len() {
        assert(after.pending.drop_last() =~= m.pending);
    }
}

proof fn lemma_first_creator(pending: Seq<PendingNestedOperation>, token: u32)
    ensures
        match pending_creator(pending, token) {
            Some(provenance) => exists|i: int|
                0 <= i < pending.len() && creates(#[trigger] pending[i], token) && creator(
                    pending[i],
                ) == provenance && forall|j: int|
                    0 <= j < i ==> !creates(#[trigger] pending[j], token),
            None => forall|i: int|
                0 <= i < pending.len() ==> !creates(#[trigger] pending[i], token),
        },
    decreases pending.len(),
{
    if pending.len() > 0 {
        let rest = pending.skip(1);
        lemma_first_creator(rest, token);
        if !creates(pending[0], token) {
            match pending_creator(rest, token) {
                Some(provenance) => {
                    let i = choose|i: int|
                        0 <= i < rest.len() && creates(#[trigger] rest[i], token) && creator(
                            rest[i],
                        ) == provenance && forall|j: int|
                            0 <= j < i ==> !creates(#[trigger] rest[j], token);
                    assert(pending[i + 1] == rest[i]);
                    assert forall|j: int| 0 <= j < i + 1 implies !creates(
                        #[trigger] pending[j],
                        token,
                    ) by {
                        if j > 0 {
                            assert(rest[j - 1] == pending[j]);
                        }
                    }
                },
                None => {
                    assert forall|i: int| 0 <= i < pending.len() implies !creates(
                        #[trigger] pending[i],
                        token,
                    ) by {
                        if i > 0 {
                            assert(rest[i - 1] == pending[i]);
                        }
                    }
                },
            }
        } else {
            assert(creates(pending[0], token));
        }
    }
}

/// Who may act on a token is told by the view's own record, where there is one; before that by the
/// first creation that waits for it, whose class and authority count; before that by the creation
/// under way; and nobody may where there is none of these.
pub proof fn law_a_token_answers_to_whoever_made_it(m: NestedModel, token: u32)
    ensures
        m.handles.contains_key(token) ==> authority(m, token) == Some(m.handles[token].provenance),
        !m.handles.contains_key(token) ==> match authority(m, token) {
            Some(provenance) => {
                ||| exists|i: int|
                    0 <= i < m.pending.len() && (forall|j: int|
                        0 <= j < i ==> !creates(#[trigger] m.pending[j], token)) && match (
                    #[trigger] m.pending[i]) {
                        PendingNestedOperation::Create { token: named, view_type, policy, .. } => {
                            named == token && provenance.policy == policy && provenance.application
                                == view_type.application
                        },
                        _ => false,
                    }
                ||| (forall|i: int| 0 <= i < m.pending.len() ==> !creates(#[trigger] m.pending[i], token))
                    && m.in_flight.contains_key(token) && m.in_flight[token] == provenance
            },
            None => (forall|i: int|
                0 <= i < m.pending.len() ==> !creates(#[trigger] m.pending[i], token))
                && !m.in_flight.contains_key(token),
        },
{
    lemma_first_creator(m.pending, token);
}

/// A request about a view waits behind all others, names the view's token and carries what was
/// given, with the authority the view answers to, which is the caller's. It is taken while the
/// caller has that authority, no release of the view waits and the view, where it is there already,
/// still exists. A view that is gone is forgotten, and nothing else changes.
pub proof fn law_a_request_waits_as_it_was_made(
    m: NestedModel,
    scope: HostScope,
    token: u32,
    live: bool,
    props: u64,
)
    ensures
        ({
            let taken = authorized(m, scope, token) && !release_waits(m, token) && (
            m.handles.contains_key(token) ==> live);
            let (updated, update_answer) = update(m, scope, token, live, props);
            let (noticed, notice_answer) = notify(m, scope, token, live);
            let (freed, release_answer) = release(m, scope, token, live);
            &&& update_answer is Ok <==> taken
            &&& notice_answer is Ok <==> taken
            &&& taken ==> {
                let provenance = authority(m, token)->Some_0;
                &&& scope::provenance_current(provenance, scope)
                &&& updated == (NestedModel {
                    pending: m.pending.push(
                        PendingNestedOperation::Update { token, provenance, props },
                    ),
                    ..m
                })
                &&& noticed == (NestedModel {
                    pending: m.pending.push(PendingNestedOperation::Notify { token, provenance }),
                    ..m
                })
                &&& freed == (NestedModel {
                    pending: m.pending.push(PendingNestedOperation::Release { token, provenance }),
                    ..m
                })
                &&& release_answer == Ok::<bool, Fault>(true)
            }
            &&& release_answer is Ok <==> authorized(m, scope, token)
            &&& release_answer == Ok::<bool, Fault>(true) <==> taken
            &&& !taken ==> {
                &&& updated.pending == m.pending && noticed.pending == m.pending && freed.pending
                    == m.pending
                &&& forall|other: u32|
                    other != token ==> (#[trigger] updated.handles.contains_key(other)
                        <==> m.handles.contains_key(other))
                &&& !authorized(m, scope, token) ==> updated == m && noticed == m && freed == m
            }
        }),
{
}

/// An edit of a dock waits behind all others with the dock and the edit that were given, for the
/// authority and the application of the call; without a call it is refused.
pub proof fn law_a_dock_edit_waits_as_it_was_made(
    m: NestedModel,
    scope: HostScope,
    dock: u64,
    edit: u64,
    api: Seq<char>,
)
    ensures
        ({
            let (after, answer) = dock_edit(m, scope, dock, edit, api);
            &&& answer is Ok <==> scope.policy is Some
            &&& answer matches Err(error) ==> error == (ScriptError::NeedsCall { api }) && after == m
            &&& answer is Ok ==> {
                &&& after.pending.drop_last() == m.pending
                &&& after.pending.len() == m.pending.len() + 1
                &&& after.handles == m.handles
                &&& match after.pending.last() {
                    PendingNestedOperation::EditDock { dock: named, edit: given, provenance } => {
                        &&& named == dock
                        &&& given == edit
                        &&& Some(provenance.policy) == scope.policy
                        &&& match scope.application {
                            Some(current) => provenance.application == Some(current.generation),
                            None => provenance.application is None,
                        }
                    },
                    _ => false,
                }
            }
        }),
{
    let after = dock_edit(m, scope, dock, edit, api).0;
    if after.pending.len() > m.pending.len() {
        assert(after.pending.drop_last() =~= m.pending);
    }
}

/// A token leads whoever has the view's authority to that view; the view is shown where it still
/// exists and no release of it waits.
pub proof fn law_a_token_leads_to_its_view(
    m: NestedModel,
    scope: HostScope,
    token: u32,
    live: bool,
)
    ensures
        resolved(m, scope, token) matches Some(handle) ==> m.handles.contains_key(token)
            && m.handles[token].handle == handle && scope::provenance_current(
            m.handles[token].provenance,
            scope,
        ),
        m.handles.contains_key(token) && scope::provenance_current(
            m.handles[token].provenance,
            scope,
        ) ==> resolved(m, scope, token) is Some,
        mountable(m, scope, token, live) matches Ok(handle) ==> resolved(m, scope, token) == Some(
            handle,
        ) && live && !release_waits(m, token),
        resolved(m, scope, token) is Some && live && !release_waits(m, token) ==> mountable(
            m,
            scope,
            token,
            live,
        ) is Ok,
        mountable(m, scope, token, live) matches Err(fault) ==> fault == Fault::MountReleased,
{
}

/// What is done for a request is what it asked for, and for the view behind its token: a view is
/// made as asked, and is under way until that is settled; props are delivered, and a view is
/// described again or released, where the token's record has the request's own authority. It is
/// done while the runtime is there, in a scope with that authority.
pub proof fn law_a_turn_does_what_was_asked(
    m: NestedModel,
    scope: HostScope,
    operation: PendingNestedOperation,
    alive: bool,
    live: bool,
)
    ensures
        ({
            let (after, answer) = turn(m, scope, operation, alive, live);
            &&& answer is Ok ==> alive && after.pending == m.pending && after.next_token
                == m.next_token && after.returned == m.returned
            &&& match operation {
                PendingNestedOperation::Create { token, owner, view_type, policy, props } => {
                    let own = NestedViewProvenance { application: view_type.application, policy };
                    &&& answer is Ok <==> alive && scope::provenance_current(own, scope)
                    &&& answer matches Ok(action) ==> action == (NestedAction::Create {
                        token,
                        owner,
                        view_type,
                        policy,
                        props,
                    }) && after.in_flight == m.in_flight.insert(token, own) && after.handles
                        == m.handles
                    &&& answer is Err ==> after.in_flight == m.in_flight && after.handles
                        == m.handles
                },
                PendingNestedOperation::Update { token, provenance, props } => {
                    let known = m.handles.contains_key(token) && m.handles[token].provenance
                        == provenance;
                    &&& after == m
                    &&& answer is Ok <==> alive && scope::provenance_current(provenance, scope)
                        && known
                    &&& answer matches Ok(action) ==> action == (NestedAction::Update {
                        handle: m.handles[token].handle,
                        props,
                    })
                },
                PendingNestedOperation::Notify { token, provenance } => {
                    let known = m.handles.contains_key(token) && m.handles[token].provenance
                        == provenance;
                    &&& after == m
                    &&& answer is Ok <==> alive && scope::provenance_current(provenance, scope)
                        && known && live
                    &&& answer matches Ok(action) ==> action == (NestedAction::Refresh {
                        handle: m.handles[token].handle,
                    })
                },
                PendingNestedOperation::Release { token, provenance } => {
                    let known = m.handles.contains_key(token) && m.handles[token].provenance
                        == provenance;
                    &&& answer is Ok <==> alive && scope::provenance_current(provenance, scope)
                        && known
                    &&& answer matches Ok(action) ==> action == (NestedAction::Release {
                        handle: m.handles[token].handle,
                    }) && after.handles == m.handles.remove(token)
                    &&& answer is Err ==> after == m
                },
                PendingNestedOperation::EditDock { dock, edit, provenance } => {
                    &&& after == m
                    &&& answer is Ok <==> alive && scope::provenance_current(provenance, scope)
                    &&& answer matches Ok(action) ==> action == (NestedAction::EditDock {
                        dock,
                        edit,
                        provenance,
                    })
                },
            }
        }),
{
}

/// A turn that fails tells why: the runtime is gone, the scope has another authority, or the view
/// is gone.
pub proof fn law_a_failed_turn_tells_why(
    m: NestedModel,
    scope: HostScope,
    operation: PendingNestedOperation,
    alive: bool,
    live: bool,
)
    ensures
        turn(m, scope, operation, alive, live).1 matches Err(fault) ==> match fault {
            Fault::ShutDownCreate => !alive && operation is Create,
            Fault::ShutDownUpdate => !alive && operation is Update,
            Fault::ShutDownNotify => !alive && operation is Notify,
            Fault::ShutDownRelease => !alive && operation is Release,
            Fault::ShutDownDock => !alive && operation is EditDock,
            Fault::ForeignCreate => alive && operation is Create,
            Fault::ForeignDock => alive && operation is EditDock,
            Fault::ForeignEntity => alive && (operation is Update || operation is Notify || operation
                is Release),
            Fault::GoneBeforeUpdate => alive && operation is Update,
            Fault::GoneBeforeNotify => alive && operation is Notify,
            Fault::GoneBeforeRelease => alive && operation is Release,
            _ => false,
        },
{
}

/// A settled action goes on where it was carried out: a created view is found under its token with
/// the authority it was made with, and its lease is given back; any other leaves the records as
/// they were. A release of a view that is not there fails.
pub proof fn law_an_action_is_settled_as_it_went(
    m: NestedModel,
    action: NestedAction,
    outcome: ActionOutcome,
)
    ensures
        ({
            let (after, settled) = settle(m, action, outcome);
            match action {
                NestedAction::Create { token, owner, view_type, policy, props } => {
                    &&& settled is Continue <==> outcome is Created
                    &&& outcome matches ActionOutcome::Created(handle) ==> {
                        &&& after.handles.contains_key(token)
                        &&& after.handles[token].handle == handle
                        &&& after.handles[token].provenance.policy == policy
                        &&& after.handles[token].provenance.application == view_type.application
                        &&& forall|other: u32|
                            other != token ==> (#[trigger] after.handles.contains_key(other)
                                <==> m.handles.contains_key(other))
                        &&& forall|other: u32|
                            other != token && m.handles.contains_key(other)
                                ==> #[trigger] after.handles[other] == m.handles[other]
                    }
                    &&& !(outcome is Created) ==> after.handles == m.handles
                    &&& !after.in_flight.contains_key(token)
                    &&& settled is Continue ==> after.returned == match view_type.module_lease {
                        Some(lease) => m.returned.push(lease),
                        None => m.returned,
                    }
                },
                NestedAction::Release { .. } => {
                    &&& after.handles == m.handles
                    &&& settled is Continue <==> outcome is Done
                    &&& settled is Continue ==> after == m
                    &&& settled == Settled::Failed(Fault::GoneBeforeRelease) <==> outcome
                        is Missing
                },
                _ => {
                    &&& after.handles == m.handles
                    &&& settled is Continue <==> outcome is Done
                    &&& settled is Continue ==> after == m
                    &&& !(outcome is Done) ==> settled is Stop
                },
            }
        }),
{
}

proof fn lemma_collected(
    returned: Seq<ApplicationModuleLease>,
    operations: Seq<PendingNestedOperation>,
    lease: ApplicationModuleLease,
)
    ensures
        collected(returned, operations).contains(lease) <==> returned.contains(lease) || exists|i: int|
            0 <= i < operations.len() && lease_of(#[trigger] operations[i]) == Some(lease),
    decreases operations.len(),
{
    if operations.len() > 0 {
        let front = operations.drop_last();
        let last = operations.last();
        let more = with_lease(returned, lease_of(last));
        lemma_collected(more, front, lease);
        assert forall|i: int| 0 <= i < front.len() implies front[i] == #[trigger] operations[i] by {}
        assert(operations[operations.len() - 1] == last);
        assert(more.contains(lease) <==> returned.contains(lease) || lease_of(last) == Some(lease))
            by {
            if returned.contains(lease) {
                let k = choose|k: int| 0 <= k < returned.len() && returned[k] == lease;
                assert(more[k] == lease);
            }
            if lease_of(last) == Some(lease) {
                assert(more[returned.len() as int] == lease);
            }
            if more.contains(lease) {
                let k = choose|k: int| 0 <= k < more.len() && more[k] == lease;
                if k < returned.len() {
                    assert(returned[k] == lease);
                }
            }
        }
        if exists|i: int| 0 <= i < front.len() && lease_of(#[trigger] front[i]) == Some(lease) {
            let i = choose|i: int|
                0 <= i < front.len() && lease_of(#[trigger] front[i]) == Some(lease);
            assert(lease_of(operations[i]) == Some(lease));
        }
        if exists|i: int|
            0 <= i < operations.len() && lease_of(#[trigger] operations[i]) == Some(lease) {
            let i = choose|i: int|
                0 <= i < operations.len() && lease_of(#[trigger] operations[i]) == Some(lease);
            if i < front.len() {
                assert(lease_of(front[i]) == Some(lease));
            }
        }
    }
}

/// Going back to fewer requests keeps the oldest as they are and drops the rest, whose leases are to
/// be given back, none forgotten and none made up.
pub proof fn law_dropped_requests_give_back_their_leases(
    m: NestedModel,
    checkpoint: nat,
    lease: ApplicationModuleLease,
)
    requires
        checkpoint <= m.pending.len(),
    ensures
        shortened(m, checkpoint).pending.len() == checkpoint,
        forall|i: int|
            0 <= i < checkpoint ==> #[trigger] shortened(m, checkpoint).pending[i] == m.pending[i],
        shortened(m, checkpoint).handles == m.handles,
        shortened(m, checkpoint).in_flight == m.in_flight,
        shortened(m, checkpoint).returned.contains(lease) <==> m.returned.contains(lease)
            || exists|i: int|
            checkpoint <= i < m.pending.len() && (
            #[trigger] m.pending[i] matches PendingNestedOperation::Create { view_type, .. }
                && view_type.module_lease == Some(lease)),
{
    let dropped = m.pending.skip(checkpoint as int);
    lemma_collected(m.returned, dropped, lease);
    assert forall|i: int| 0 <= i < dropped.len() implies #[trigger] dropped[i] == m.pending[
        checkpoint + i
    ] by {}
    if exists|i: int| 0 <= i < dropped.len() && lease_of(#[trigger] dropped[i]) == Some(lease) {
        let i = choose|i: int|
            0 <= i < dropped.len() && lease_of(#[trigger] dropped[i]) == Some(lease);
        let at = checkpoint + i;
        assert(m.pending[at] matches PendingNestedOperation::Create { view_type, .. }
            && view_type.module_lease == Some(lease));
    }
    if exists|i: int|
        checkpoint <= i < m.pending.len() && (
        #[trigger] m.pending[i] matches PendingNestedOperation::Create { view_type, .. }
            && view_type.module_lease == Some(lease)) {
        let at = choose|i: int|
            checkpoint <= i < m.pending.len() && (
            #[trigger] m.pending[i] matches PendingNestedOperation::Create { view_type, .. }
                && view_type.module_lease == Some(lease));
        assert(dropped[at - checkpoint] == m.pending[at]);
        assert(lease_of(dropped[at - checkpoint]) == Some(lease));
    }
}

/// Forgetting released views leaves alone what waits, what is under way and what other tokens stand
/// for.
pub proof fn law_a_purge_leaves_the_rest(m: NestedModel, released: Seq<u64>, token: u32)
    ensures
        purged(m, released).pending == m.pending,
        purged(m, released).in_flight == m.in_flight,
        purged(m, released).next_token == m.next_token,
        purged(m, released).handles.contains_key(token) <==> m.handles.contains_key(token)
            && !released.contains(m.handles[token].handle),
        purged(m, released).handles.contains_key(token) ==> purged(m, released).handles[token]
            == m.handles[token],
{
}

} // verus!
