//! Native state that an application's components install, and its removal when the application is
//! retired.
use crate::error::Fault;
use crate::text;
use crate::textmap::TextEntry;
use crate::textmap::TextMap;
use crate::textmap;
use std::collections::HashMap;
use vstd::prelude::*;
use vstd::std_specs::hash::*;
use vstd::string::*;

verus! {

broadcast use vstd::std_specs::hash::group_hash_axioms;

/// An effect that is installed: which revision of it, and how to undo it. Undoing is named by the
/// number under which the embedding application keeps it.
pub struct InstalledAppEffect {
    pub revision: String,
    pub cleanup: Option<u64>,
}

/// An effect that is installed.
pub struct EffectModel {
    pub revision: Seq<char>,
    pub cleanup: Option<u64>,
}

/// An installed effect as a statement speaks of it.
pub open spec fn effect_view(effect: InstalledAppEffect) -> EffectModel {
    EffectModel { revision: effect.revision@, cleanup: effect.cleanup }
}

/// The revisions that wait, by key.
pub open spec fn pending_view(pending: Map<Seq<char>, String>) -> Map<Seq<char>, Seq<char>> {
    pending.map_values(|revision: String| revision@)
}

/// The effects that are installed, by key.
pub open spec fn installed_view(installed: Map<Seq<char>, InstalledAppEffect>) -> Map<
    Seq<char>,
    EffectModel,
> {
    installed.map_values(|effect: InstalledAppEffect| effect_view(effect))
}

/// What a request for a revision of an effect does to the revisions that wait, and whether it must
/// be carried out later. Nothing needs doing where that revision waits already; where it is the
/// installed one, a replacement that waits is called off.
pub open spec fn queued(
    pending: Map<Seq<char>, Seq<char>>,
    installed: Map<Seq<char>, EffectModel>,
    key: Seq<char>,
    revision: Seq<char>,
) -> (Map<Seq<char>, Seq<char>>, bool) {
    if pending.contains_key(key) && pending[key] == revision {
        (pending, false)
    } else if installed.contains_key(key) && installed[key].revision == revision {
        (pending.remove(key), false)
    } else {
        (pending.insert(key, revision), true)
    }
}

/// Asks for a revision of an effect; tells whether it must be carried out later.
pub fn queue_component_app_effect(
    pending: &mut TextMap<String>,
    installed: &TextMap<InstalledAppEffect>,
    key: &str,
    revision: &str,
) -> (r: bool)
    ensures
        (pending_view(final(pending)@), r) == queued(
            pending_view(old(pending)@),
            installed_view(installed@),
            key@,
            revision@,
        ),
{
    match pending.get(key) {
        Some(waiting) => {
            if text::same(waiting.as_str(), revision) {
                return false;
            }
        },
        None => {},
    }
    match installed.get(key) {
        Some(effect) => {
            if text::same(effect.revision.as_str(), revision) {
                pending.remove(key);
                assert(pending_view(pending@) =~= pending_view(old(pending)@).remove(key@));
                return false;
            }
        },
        None => {},
    }
    pending.insert(key.to_owned(), revision.to_owned());
    assert(pending_view(pending@) =~= pending_view(old(pending)@).insert(key@, revision@));
    true
}

/// The effects of one application.
pub struct ComponentAppEffectGeneration {
    view: u64,
    pending: TextMap<String>,
    installed: TextMap<InstalledAppEffect>,
}

/// The effects of one application: the root view they were installed for, the revisions that wait
/// and the effects that are installed.
#[verifier::ext_equal]
pub struct EffectsModel {
    pub view: u64,
    pub pending: Map<Seq<char>, Seq<char>>,
    pub installed: Map<Seq<char>, EffectModel>,
}

/// The effects of one application as a statement speaks of them.
pub closed spec fn generation_view(generation: ComponentAppEffectGeneration) -> EffectsModel {
    EffectsModel {
        view: generation.view,
        pending: pending_view(generation.pending@),
        installed: installed_view(generation.installed@),
    }
}

/// The effects of all applications.
pub struct AppEffects {
    generations: HashMap<u64, ComponentAppEffectGeneration>,
}

impl View for AppEffects {
    type V = Map<u64, EffectsModel>;

    closed spec fn view(&self) -> Map<u64, EffectsModel> {
        self.generations@.map_values(
            |generation: ComponentAppEffectGeneration| generation_view(generation),
        )
    }
}

/// What is to be done for an effect that was asked for.
#[derive(Clone, Copy, PartialEq, Eq, Structural, Debug)]
pub struct EffectPlan {
    /// Watch the root view, and clean up when it is released.
    pub observe_release: bool,
    /// Carry the effect out once the current work is done.
    pub defer: bool,
}

/// The effects of an application that has none yet.
pub open spec fn no_effects(view: u64) -> EffectsModel {
    EffectsModel { view, pending: Map::empty(), installed: Map::empty() }
}

/// What asking for an effect does and answers. `active` tells whether the application is still
/// active; `view` is its root view, where that still exists.
pub open spec fn scheduled(
    all: Map<u64, EffectsModel>,
    application: u64,
    active: bool,
    view: Option<u64>,
    key: Seq<char>,
    revision: Seq<char>,
) -> (Map<u64, EffectsModel>, Result<EffectPlan, Fault>) {
    if !active {
        (all, Err(Fault::EffectRetired))
    } else {
        match view {
            None => (all, Err(Fault::EffectNeedsView)),
            Some(view) => {
                let known = all.contains_key(application);
                let mine = if known {
                    all[application]
                } else {
                    no_effects(view)
                };
                let (pending, defer) = queued(mine.pending, mine.installed, key, revision);
                (
                    all.insert(application, EffectsModel { pending, ..mine }),
                    Ok(EffectPlan { observe_release: !known, defer }),
                )
            },
        }
    }
}

/// Whether an effect that was put off is still wanted.
pub open spec fn still_wanted(
    all: Map<u64, EffectsModel>,
    application: u64,
    active: bool,
    key: Seq<char>,
    revision: Seq<char>,
) -> bool {
    &&& all.contains_key(application)
    &&& active
    &&& all[application].pending.contains_key(key)
    &&& all[application].pending[key] == revision
}

/// The effects once a revision of `key` is being carried out: it waits no more, and what was
/// installed under the key is on its way out.
pub open spec fn taken(all: Map<u64, EffectsModel>, application: u64, key: Seq<char>) -> Map<
    u64,
    EffectsModel,
> {
    let mine = all[application];
    all.insert(
        application,
        EffectsModel {
            pending: mine.pending.remove(key),
            installed: mine.installed.remove(key),
            ..mine
        },
    )
}

/// The cleanup of what is installed under a key.
pub open spec fn cleanup_of(mine: EffectsModel, key: Seq<char>) -> Option<u64> {
    if mine.installed.contains_key(key) {
        mine.installed[key].cleanup
    } else {
        None
    }
}

/// The cleanups of the given keys, in their order.
pub open spec fn cleanups_in(installed: Map<Seq<char>, EffectModel>, order: Seq<Seq<char>>) -> Seq<
    u64,
>
    decreases order.len(),
{
    if order.len() == 0 {
        Seq::empty()
    } else {
        let rest = cleanups_in(installed, order.drop_last());
        match installed[order.last()].cleanup {
            Some(cleanup) => rest.push(cleanup),
            None => rest,
        }
    }
}

/// Whether a list names each key of a map once.
pub open spec fn enumerates(order: Seq<Seq<char>>, installed: Map<Seq<char>, EffectModel>) -> bool {
    &&& order.no_duplicates()
    &&& forall|key: Seq<char>| #[trigger] order.contains(key) <==> installed.contains_key(key)
}

/// Whether a list holds the cleanup of every installed effect once, in some order.
pub open spec fn all_cleanups(cleanups: Seq<u64>, installed: Map<Seq<char>, EffectModel>) -> bool {
    exists|order: Seq<Seq<char>>| #[trigger]
        enumerates(order, installed) && cleanups == cleanups_in(installed, order)
}

fn cleanups_from(installed: TextMap<InstalledAppEffect>) -> (r: Vec<u64>)
    ensures
        all_cleanups(r@, installed_view(installed@)),
{
    let ghost models = installed_view(installed@);
    let entries = installed.into_entries();
    let ghost order = textmap::keys_of(entries@);
    let mut out: Vec<u64> = Vec::new();
    let mut i: usize = 0;
    assert(order.take(0) =~= Seq::empty());
    while i < entries.len()
        invariant
            i <= entries@.len(),
            textmap::distinct_keys(entries@),
            models == installed_view(textmap::as_map(entries@)),
            order == textmap::keys_of(entries@),
            out@ == cleanups_in(models, order.take(i as int)),
        decreases entries@.len() - i,
    {
        assert(order.take(i + 1).drop_last() =~= order.take(i as int));
        assert(order.take(i + 1).last() == entries@[i as int].key@);
        proof {
            lemma_effect(entries@, i as int);
        }
        match entries[i].value.cleanup {
            Some(cleanup) => {
                out.push(cleanup);
            },
            None => {},
        }
        i += 1;
    }
    proof {
        assert(order.take(i as int) =~= order);
        assert(order.no_duplicates()) by {
            assert forall|a: int, b: int|
                0 <= a < order.len() && 0 <= b < order.len() && a != b implies order[a]
                != order[b] by {
                if a < b {
                    assert(entries@[a].key@ != entries@[b].key@);
                } else {
                    assert(entries@[b].key@ != entries@[a].key@);
                }
            }
        }
        assert forall|key: Seq<char>| #[trigger] order.contains(key) <==> models.contains_key(
            key,
        ) by {
            if order.contains(key) {
                let at = choose|at: int| 0 <= at < order.len() && order[at] == key;
                assert(entries@[at].key@ == key);
                assert(textmap::has_key(entries@, key));
            }
            if models.contains_key(key) {
                assert(textmap::has_key(entries@, key));
                let at = textmap::position(entries@, key);
                assert(order[at] == key);
            }
        }
        assert(enumerates(order, models));
    }
    out
}

proof fn lemma_effect(entries: Seq<TextEntry<InstalledAppEffect>>, i: int)
    requires
        textmap::distinct_keys(entries),
        0 <= i < entries.len(),
    ensures
        installed_view(textmap::as_map(entries))[entries[i].key@] == effect_view(entries[i].value),
{
    let key = entries[i].key@;
    assert(entries[i].key@ == key);
    assert(textmap::has_key(entries, key));
    let at = textmap::position(entries, key);
    if at < i {
        assert(entries[at].key@ != entries[i].key@);
    }
    if i < at {
        assert(entries[i].key@ != entries[at].key@);
    }
}

impl AppEffects {
    /// No effects.
    pub fn new() -> (r: Self)
        ensures
            r@ == Map::<u64, EffectsModel>::empty(),
    {
        let effects = AppEffects { generations: HashMap::new() };
        assert(effects@ =~= Map::<u64, EffectsModel>::empty());
        effects
    }

    /// Asks for a revision of an effect.
    pub fn schedule_component_app_effect(
        &mut self,
        application: u64,
        active: bool,
        view: Option<u64>,
        key: &str,
        revision: &str,
    ) -> (r: Result<EffectPlan, Fault>)
        ensures
            (final(self)@, r) == scheduled(
                old(self)@,
                application,
                active,
                view,
                key@,
                revision@,
            ),
    {
        if !active {
            return Err(Fault::EffectRetired);
        }
        let view: u64 = match view {
            Some(view) => view,
            None => {
                return Err(Fault::EffectNeedsView);
            },
        };
        let found = self.generations.remove(&application);
        let known = found.is_some();
        let mut mine = match found {
            Some(mine) => mine,
            None => {
                let fresh = ComponentAppEffectGeneration {
                    view,
                    pending: TextMap::new(),
                    installed: TextMap::new(),
                };
                assert(generation_view(fresh) =~= no_effects(view));
                fresh
            },
        };
        let defer = queue_component_app_effect(&mut mine.pending, &mine.installed, key, revision);
        self.generations.insert(application, mine);
        assert(self@ =~= scheduled(
            old(self)@,
            application,
            active,
            Some(view),
            key@,
            revision@,
        ).0);
        Ok(EffectPlan { observe_release: !known, defer })
    }

    /// Begins to carry out an effect that was put off. Nothing is to be done where it is not wanted
    /// any more; else the cleanup of what was installed before is to be run, if there is one, and
    /// then the effect is to be installed.
    pub fn apply_component_app_effect(
        &mut self,
        application: u64,
        active: bool,
        key: &str,
        revision: &str,
    ) -> (r: Option<Option<u64>>)
        ensures
            match r {
                None => !still_wanted(old(self)@, application, active, key@, revision@)
                    && final(self)@ == old(self)@,
                Some(cleanup) => {
                    &&& still_wanted(old(self)@, application, active, key@, revision@)
                    &&& cleanup == cleanup_of(old(self)@[application], key@)
                    &&& final(self)@ == taken(old(self)@, application, key@)
                },
            },
    {
        let mut mine = match self.generations.remove(&application) {
            Some(mine) => mine,
            None => {
                assert(self.generations@ =~= old(self).generations@);
                return None;
            },
        };
        let ghost before = generation_view(mine);
        let wanted = active && match mine.pending.get(key) {
            Some(waiting) => text::same(waiting.as_str(), revision),
            None => false,
        };
        if !wanted {
            self.generations.insert(application, mine);
            assert(self.generations@ =~= old(self).generations@);
            return None;
        }
        mine.pending.remove(key);
        let cleanup: Option<u64> = match mine.installed.remove(key) {
            Some(effect) => effect.cleanup,
            None => None,
        };
        assert(generation_view(mine).pending =~= before.pending.remove(key@));
        assert(generation_view(mine).installed =~= before.installed.remove(key@));
        self.generations.insert(application, mine);
        assert(self@ =~= taken(old(self)@, application, key@));
        Some(cleanup)
    }

    /// Records that an effect was installed. Where the application's effects are gone meanwhile,
    /// the cleanup is to be run at once.
    pub fn finish_component_app_effect(
        &mut self,
        application: u64,
        key: &str,
        revision: &str,
        cleanup: u64,
    ) -> (r: Option<u64>)
        ensures
            r == if old(self)@.contains_key(application) {
                None
            } else {
                Some(cleanup)
            },
            final(self)@ == if old(self)@.contains_key(application) {
                let mine = old(self)@[application];
                old(self)@.insert(
                    application,
                    EffectsModel {
                        installed: mine.installed.insert(
                            key@,
                            EffectModel { revision: revision@, cleanup: Some(cleanup) },
                        ),
                        ..mine
                    },
                )
            } else {
                old(self)@
            },
    {
        let mut mine = match self.generations.remove(&application) {
            Some(mine) => mine,
            None => {
                assert(self.generations@ =~= old(self).generations@);
                return Some(cleanup);
            },
        };
        let ghost before = generation_view(mine);
        mine.installed.insert(
            key.to_owned(),
            InstalledAppEffect { revision: revision.to_owned(), cleanup: Some(cleanup) },
        );
        assert(generation_view(mine).installed =~= before.installed.insert(
            key@,
            EffectModel { revision: revision@, cleanup: Some(cleanup) },
        ));
        self.generations.insert(application, mine);
        assert(self@ =~= old(self)@.insert(application, generation_view(mine)));
        None
    }

    /// Takes an application's effects out when the application is retired, and gives the cleanups
    /// to run. There are none where the root view is gone: they have been run.
    pub fn retire_component_app_effects(&mut self, application: u64, view_exists: bool) -> (r: Vec<
        u64,
    >)
        ensures
            final(self)@ == old(self)@.remove(application),
            if old(self)@.contains_key(application) && view_exists {
                all_cleanups(r@, old(self)@[application].installed)
            } else {
                r@.len() == 0
            },
    {
        let found = self.generations.remove(&application);
        assert(self@ =~= old(self)@.remove(application));
        match found {
            Some(mine) => if view_exists {
                cleanups_from(mine.installed)
            } else {
                Vec::new()
            },
            None => Vec::new(),
        }
    }

    /// Takes an application's effects out when its root view is released, and gives the cleanups to
    /// run.
    pub fn cleanup_component_app_effects(&mut self, application: u64) -> (r: Vec<u64>)
        ensures
            final(self)@ == old(self)@.remove(application),
            if old(self)@.contains_key(application) {
                all_cleanups(r@, old(self)@[application].installed)
            } else {
                r@.len() == 0
            },
    {
        self.retire_component_app_effects(application, true)
    }

    /// The root view that an application's effects were installed for.
    pub fn root_view(&self, application: u64) -> (r: Option<u64>)
        ensures
            r == if self@.contains_key(application) {
                Some(self@[application].view)
            } else {
                None
            },
    {
        match self.generations.get(&application) {
            Some(mine) => Some(mine.view),
            None => None,
        }
    }
}

/// Asking for the revision that is installed calls off a replacement that waits: whatever was put
/// off for the key is not wanted any more.
pub proof fn law_returning_to_the_installed_effect_cancels_the_replacement(
    all: Map<u64, EffectsModel>,
    application: u64,
    view: u64,
    key: Seq<char>,
    installed: Seq<char>,
    waiting: Seq<char>,
)
    requires
        all.contains_key(application),
        all[application].installed.contains_key(key),
        all[application].installed[key].revision == installed,
        all[application].pending.contains_key(key),
        all[application].pending[key] == waiting,
        waiting != installed,
    ensures
        ({
            let (after, answer) = scheduled(all, application, true, Some(view), key, installed);
            &&& answer == Ok::<EffectPlan, Fault>(
                EffectPlan { observe_release: false, defer: false },
            )
            &&& !still_wanted(after, application, true, key, waiting)
            &&& !still_wanted(after, application, true, key, installed)
            &&& after[application].installed == all[application].installed
        }),
{
}

/// Of the requests for one key only the last is carried out: a request that is put off makes the
/// one before it unwanted, unless they ask for the same revision.
pub proof fn law_the_last_request_wins(
    all: Map<u64, EffectsModel>,
    application: u64,
    view: u64,
    key: Seq<char>,
    earlier: Seq<char>,
    later: Seq<char>,
)
    requires
        earlier != later,
        scheduled(all, application, true, Some(view), key, earlier).1 matches Ok(plan)
            && plan.defer,
    ensures
        ({
            let middle = scheduled(all, application, true, Some(view), key, earlier).0;
            let (after, answer) = scheduled(middle, application, true, Some(view), key, later);
            &&& answer is Ok
            &&& !still_wanted(after, application, true, key, earlier)
            &&& still_wanted(after, application, true, key, later) == answer->Ok_0.defer
        }),
{
}

/// A retired application's effects are not carried out, and those of other applications are left
/// alone.
pub proof fn law_retired_effects_are_gone(
    all: Map<u64, EffectsModel>,
    application: u64,
    other: u64,
    active: bool,
    key: Seq<char>,
    revision: Seq<char>,
)
    requires
        application != other,
    ensures
        !still_wanted(all.remove(application), application, active, key, revision),
        still_wanted(all.remove(application), other, active, key, revision) == still_wanted(
            all,
            other,
            active,
            key,
            revision,
        ),
{
}

/// A request is put off exactly where its revision neither waits nor is installed. What then waits
/// under its key is that revision; what waits under any other key stays.
pub proof fn law_a_request_waits_under_its_own_key(
    pending: Map<Seq<char>, Seq<char>>,
    installed: Map<Seq<char>, EffectModel>,
    key: Seq<char>,
    revision: Seq<char>,
    other: Seq<char>,
)
    ensures
        ({
            let (after, defer) = queued(pending, installed, key, revision);
            &&& defer <==> !(pending.contains_key(key) && pending[key] == revision) && !(
            installed.contains_key(key) && installed[key].revision == revision)
            &&& defer ==> after.contains_key(key) && after[key] == revision
            &&& after.contains_key(key) ==> after[key] == revision
            &&& other != key ==> (after.contains_key(other) <==> pending.contains_key(other))
            &&& other != key && pending.contains_key(other) ==> after[other] == pending[other]
        }),
{
}

/// An effect is asked for by an active application whose root view exists. The view is watched from
/// the first request on, and stays the one of that request. Nothing changes for other applications,
/// and nothing that is installed changes.
pub proof fn law_an_effect_is_asked_for_by_its_application(
    all: Map<u64, EffectsModel>,
    application: u64,
    active: bool,
    view: Option<u64>,
    key: Seq<char>,
    revision: Seq<char>,
    other: u64,
)
    ensures
        ({
            let (after, answer) = scheduled(all, application, active, view, key, revision);
            &&& answer is Ok <==> active && view is Some
            &&& answer is Err ==> after == all
            &&& answer matches Err(fault) ==> fault == if !active {
                Fault::EffectRetired
            } else {
                Fault::EffectNeedsView
            }
            &&& answer matches Ok(plan) ==> {
                &&& plan.observe_release <==> !all.contains_key(application)
                &&& after.contains_key(application)
                &&& all.contains_key(application) ==> after[application].view
                    == all[application].view && after[application].installed
                    == all[application].installed
                &&& !all.contains_key(application) ==> Some(after[application].view) == view
                    && after[application].installed == Map::<Seq<char>, EffectModel>::empty()
                &&& plan.defer ==> still_wanted(after, application, true, key, revision)
            }
            &&& other != application ==> (after.contains_key(other) <==> all.contains_key(other))
            &&& other != application && all.contains_key(other) ==> after[other] == all[other]
        }),
{
}

/// An effect that was put off is carried out where its application is active and that revision still
/// waits. It then waits no more, and what was installed under its key is handed out to be undone
/// and is gone; other keys and other applications stay as they are.
pub proof fn law_an_effect_is_carried_out_once(
    all: Map<u64, EffectsModel>,
    application: u64,
    key: Seq<char>,
    revision: Seq<char>,
    other_key: Seq<char>,
    other: u64,
)
    requires
        still_wanted(all, application, true, key, revision),
    ensures
        ({
            let after = taken(all, application, key);
            &&& !still_wanted(all, application, false, key, revision)
            &&& !still_wanted(after, application, true, key, revision)
            &&& !after[application].installed.contains_key(key)
            &&& after[application].view == all[application].view
            &&& all[application].installed.contains_key(key) ==> cleanup_of(all[application], key)
                == all[application].installed[key].cleanup
            &&& !all[application].installed.contains_key(key) ==> cleanup_of(
                all[application],
                key,
            ) is None
            &&& other_key != key ==> (after[application].pending.contains_key(other_key)
                <==> all[application].pending.contains_key(other_key)) && (
            after[application].installed.contains_key(other_key)
                <==> all[application].installed.contains_key(other_key))
            &&& other_key != key && all[application].installed.contains_key(other_key)
                ==> after[application].installed[other_key] == all[application].installed[other_key]
            &&& other_key != key && all[application].pending.contains_key(other_key)
                ==> after[application].pending[other_key] == all[application].pending[other_key]
            &&& other != application ==> (after.contains_key(other) <==> all.contains_key(other))
            &&& other != application && all.contains_key(other) ==> after[other] == all[other]
        }),
{
}

proof fn lemma_cleanups_in(installed: Map<Seq<char>, EffectModel>, order: Seq<Seq<char>>, cleanup: u64)
    ensures
        cleanups_in(installed, order).contains(cleanup) <==> exists|i: int|
            0 <= i < order.len() && installed[#[trigger] order[i]].cleanup == Some(cleanup),
    decreases order.len(),
{
    if order.len() > 0 {
        let front = order.drop_last();
        let rest = cleanups_in(installed, front);
        let all = cleanups_in(installed, order);
        lemma_cleanups_in(installed, front, cleanup);
        assert(order[order.len() - 1] == order.last());
        if all.contains(cleanup) {
            let k = choose|k: int| 0 <= k < all.len() && all[k] == cleanup;
            if k < rest.len() {
                assert(rest[k] == cleanup);
                let i = choose|i: int|
                    0 <= i < front.len() && installed[#[trigger] front[i]].cleanup == Some(cleanup);
                assert(order[i] == front[i]);
            }
        }
        if exists|i: int|
            0 <= i < order.len() && installed[#[trigger] order[i]].cleanup == Some(cleanup) {
            let i = choose|i: int|
                0 <= i < order.len() && installed[#[trigger] order[i]].cleanup == Some(cleanup);
            if i < front.len() {
                assert(front[i] == order[i]);
                let k = choose|k: int| 0 <= k < rest.len() && rest[k] == cleanup;
                assert(all[k] == cleanup);
            } else {
                assert(all[rest.len() as int] == cleanup);
            }
        }
    }
}

/// When an application's effects end, the cleanup of every effect that is installed is handed out,
/// and nothing else is.
pub proof fn law_every_installed_effect_is_undone(
    cleanups: Seq<u64>,
    installed: Map<Seq<char>, EffectModel>,
    cleanup: u64,
)
    requires
        all_cleanups(cleanups, installed),
    ensures
        cleanups.contains(cleanup) <==> exists|key: Seq<char>| #[trigger]
            installed.contains_key(key) && installed[key].cleanup == Some(cleanup),
{
    let order = choose|order: Seq<Seq<char>>| #[trigger]
        enumerates(order, installed) && cleanups == cleanups_in(installed, order);
    lemma_cleanups_in(installed, order, cleanup);
    if cleanups.contains(cleanup) {
        let i = choose|i: int|
            0 <= i < order.len() && installed[#[trigger] order[i]].cleanup == Some(cleanup);
        assert(order.contains(order[i]));
        assert(installed.contains_key(order[i]));
    }
    if exists|key: Seq<char>| #[trigger]
        installed.contains_key(key) && installed[key].cleanup == Some(cleanup) {
        let key = choose|key: Seq<char>| #[trigger]
            installed.contains_key(key) && installed[key].cleanup == Some(cleanup);
        assert(order.contains(key));
        let i = choose|i: int| 0 <= i < order.len() && order[i] == key;
        assert(installed[order[i]].cleanup == Some(cleanup));
    }
}

} // verus!
