//! Which file an application's import names.
//!
//! An application may import its own files and those of its dependencies. Every load of an
//! application is a generation of its own, and every name of a loaded module carries the tag of its
//! generation, so that a reload reads every file again while older code keeps what it imported.
use crate::error::ScriptError;
use crate::error;
use crate::path::PathStyle;
use crate::path;
use crate::text;
use vstd::prelude::*;
use vstd::string::*;

verus! {

/// How many bytes a module may have.
pub const MAX_MODULE_BYTES: u64 = 8 * 1024 * 1024;

/// A dependency of an application: the name it is imported by, the directory of its files and its
/// entry file.
pub struct Dependency<S> {
    pub name: S,
    pub root: S,
    pub entry: S,
}

/// A dependency, with sequences in place of strings.
pub open spec fn dependency_view(dependency: Dependency<String>) -> Dependency<Seq<char>> {
    Dependency {
        name: dependency.name@,
        root: dependency.root@,
        entry: dependency.entry@,
    }
}

/// Dependencies, with sequences in place of strings.
pub open spec fn dependency_views(dependencies: Seq<Dependency<String>>) -> Seq<
    Dependency<Seq<char>>,
> {
    dependencies.map_values(|dependency: Dependency<String>| dependency_view(dependency))
}

/// Whether dependencies are in the order of their names, none of which occurs twice.
pub open spec fn by_name(dependencies: Seq<Dependency<Seq<char>>>) -> bool {
    forall|i: int, j: int|
        0 <= i < j < dependencies.len() ==> text::text_before(
            (#[trigger] dependencies[i]).name,
            (#[trigger] dependencies[j]).name,
        )
}

/// The dependencies of an application, in the order of their names.
pub struct Dependencies {
    entries: Vec<Dependency<String>>,
}

impl View for Dependencies {
    type V = Seq<Dependency<Seq<char>>>;

    closed spec fn view(&self) -> Seq<Dependency<Seq<char>>> {
        dependency_views(self.entries@)
    }
}

/// The dependencies with one more, in its place; one of the same name is replaced.
pub open spec fn with_dependency(
    dependencies: Seq<Dependency<Seq<char>>>,
    added: Dependency<Seq<char>>,
) -> Seq<Dependency<Seq<char>>>
    decreases dependencies.len(),
{
    if dependencies.len() == 0 {
        seq![added]
    } else if text::text_before(dependencies[0].name, added.name) {
        seq![dependencies[0]] + with_dependency(dependencies.skip(1), added)
    } else if dependencies[0].name == added.name {
        seq![added] + dependencies.skip(1)
    } else {
        seq![added] + dependencies
    }
}

proof fn lemma_with_dependency(
    dependencies: Seq<Dependency<Seq<char>>>,
    added: Dependency<Seq<char>>,
    at: int,
)
    requires
        0 <= at <= dependencies.len(),
        forall|i: int|
            0 <= i < at ==> text::text_before((#[trigger] dependencies[i]).name, added.name),
    ensures
        with_dependency(dependencies, added) == dependencies.take(at) + with_dependency(
            dependencies.skip(at),
            added,
        ),
    decreases at,
{
    if at == 0 {
        assert(dependencies.skip(0) =~= dependencies);
        assert(dependencies.take(0) + with_dependency(dependencies, added) =~= with_dependency(
            dependencies,
            added,
        ));
    } else {
        let rest = dependencies.skip(1);
        assert(text::text_before(dependencies[0].name, added.name));
        assert forall|i: int| 0 <= i < at - 1 implies text::text_before(
            (#[trigger] rest[i]).name,
            added.name,
        ) by {
            assert(rest[i] == dependencies[i + 1]);
        }
        lemma_with_dependency(rest, added, at - 1);
        assert(rest.skip(at - 1) =~= dependencies.skip(at));
        assert(seq![dependencies[0]] + (rest.take(at - 1) + with_dependency(
            dependencies.skip(at),
            added,
        )) =~= dependencies.take(at) + with_dependency(dependencies.skip(at), added));
    }
}

/// Adding a dependency keeps the order of names.
proof fn lemma_still_by_name(dependencies: Seq<Dependency<Seq<char>>>, added: Dependency<Seq<char>>)
    requires
        by_name(dependencies),
    ensures
        by_name(with_dependency(dependencies, added)),
        forall|k: int|
            0 <= k < with_dependency(dependencies, added).len() ==> (
            #[trigger] with_dependency(dependencies, added)[k]).name == added.name || exists|i: int|
                0 <= i < dependencies.len() && (#[trigger] dependencies[i]).name
                    == with_dependency(dependencies, added)[k].name,
    decreases dependencies.len(),
{
    let after = with_dependency(dependencies, added);
    if dependencies.len() > 0 {
        let first = dependencies[0];
        let rest = dependencies.skip(1);
        assert(by_name(rest)) by {
            assert forall|i: int, j: int| 0 <= i < j < rest.len() implies text::text_before(
                (#[trigger] rest[i]).name,
                (#[trigger] rest[j]).name,
            ) by {
                assert(rest[i] == dependencies[i + 1]);
                assert(rest[j] == dependencies[j + 1]);
            }
        }
        if text::text_before(first.name, added.name) {
            let tail = with_dependency(rest, added);
            lemma_still_by_name(rest, added);
            assert forall|k: int| 0 <= k < tail.len() implies text::text_before(
                first.name,
                (#[trigger] tail[k]).name,
            ) by {
                if tail[k].name != added.name {
                    let i = choose|i: int|
                        0 <= i < rest.len() && (#[trigger] rest[i]).name == tail[k].name;
                    assert(rest[i] == dependencies[i + 1]);
                    assert(text::text_before(dependencies[0].name, dependencies[i + 1].name));
                }
            }
            assert forall|i: int, j: int| 0 <= i < j < after.len() implies text::text_before(
                (#[trigger] after[i]).name,
                (#[trigger] after[j]).name,
            ) by {
                assert(after[j] == tail[j - 1]);
                if i > 0 {
                    assert(after[i] == tail[i - 1]);
                }
            }
            assert forall|k: int| 0 <= k < after.len() implies (#[trigger] after[k]).name
                == added.name || exists|i: int|
                0 <= i < dependencies.len() && (#[trigger] dependencies[i]).name
                    == after[k].name by {
                if k == 0 {
                    assert(dependencies[0].name == after[k].name);
                } else {
                    assert(after[k] == tail[k - 1]);
                    if tail[k - 1].name != added.name {
                        let i = choose|i: int|
                            0 <= i < rest.len() && (#[trigger] rest[i]).name == tail[k - 1].name;
                        assert(dependencies[i + 1].name == after[k].name);
                    }
                }
            }
        } else {
            text::lemma_before_total(first.name, added.name);
            let same = first.name == added.name;
            assert forall|i: int, j: int| 0 <= i < j < after.len() implies text::text_before(
                (#[trigger] after[i]).name,
                (#[trigger] after[j]).name,
            ) by {
                let y = if same {
                    j
                } else {
                    j - 1
                };
                assert(after[j] == dependencies[y]);
                if i > 0 {
                    let x = if same {
                        i
                    } else {
                        i - 1
                    };
                    assert(after[i] == dependencies[x]);
                } else if same {
                    assert(text::text_before(dependencies[0].name, dependencies[y].name));
                } else if y > 0 {
                    assert(text::text_before(dependencies[0].name, dependencies[y].name));
                    text::lemma_before_transitive(added.name, first.name, dependencies[y].name);
                }
            }
            assert forall|k: int| 0 <= k < after.len() implies (#[trigger] after[k]).name
                == added.name || exists|i: int|
                0 <= i < dependencies.len() && (#[trigger] dependencies[i]).name
                    == after[k].name by {
                if k > 0 {
                    let y = if same {
                        k
                    } else {
                        k - 1
                    };
                    assert(dependencies[y].name == after[k].name);
                }
            }
        }
    }
}

impl Dependencies {
    #[verifier::type_invariant]
    spec fn ordered(&self) -> bool {
        by_name(dependency_views(self.entries@))
    }

    /// No dependencies.
    pub fn new() -> (r: Self)
        ensures
            r@ == Seq::<Dependency<Seq<char>>>::empty(),
    {
        let dependencies = Dependencies { entries: Vec::new() };
        assert(dependencies@ =~= Seq::<Dependency<Seq<char>>>::empty());
        dependencies
    }

    /// Adds a dependency, in place of one of the same name.
    pub fn insert(&mut self, added: Dependency<String>)
        ensures
            final(self)@ == with_dependency(old(self)@, dependency_view(added)),
            by_name(final(self)@),
    {
        proof {
            use_type_invariant(&*self);
        }
        let mut entries: Vec<Dependency<String>> = Vec::new();
        std::mem::swap(&mut entries, &mut self.entries);
        let ghost before = dependency_views(entries@);
        let ghost model = dependency_view(added);
        let mut at: usize = 0;
        while at < entries.len() && text::comes_before(
            entries[at].name.as_str(),
            added.name.as_str(),
        )
            invariant
                at <= entries@.len(),
                before == dependency_views(entries@),
                model == dependency_view(added),
                forall|i: int|
                    0 <= i < at ==> text::text_before((#[trigger] before[i]).name, model.name),
            decreases entries@.len() - at,
        {
            at += 1;
        }
        proof {
            lemma_with_dependency(before, model, at as int);
            lemma_still_by_name(before, model);
            if at < entries@.len() {
                assert(before.skip(at as int)[0] == before[at as int]);
            }
        }
        if at < entries.len() && text::same(entries[at].name.as_str(), added.name.as_str()) {
            proof {
                assert(before[at as int].name == model.name);
                text::lemma_before_total(before[at as int].name, model.name);
            }
            entries.remove(at);
            let ghost shorter = entries@;
            entries.insert(at, added);
            proof {
                assert(dependency_views(entries@) =~= before.take(at as int) + (seq![model]
                    + before.skip(at as int).skip(1)));
            }
        } else {
            entries.insert(at, added);
            proof {
                if at < before.len() {
                    assert(dependency_views(entries@) =~= before.take(at as int) + (seq![model]
                        + before.skip(at as int)));
                } else {
                    assert(before.skip(at as int).len() == 0);
                    assert(dependency_views(entries@) =~= before.take(at as int) + seq![model]);
                }
            }
        }
        self.entries = entries;
    }

    /// How many dependencies there are.
    pub fn len(&self) -> (r: usize)
        ensures
            r == self@.len(),
    {
        self.entries.len()
    }
}

/// A load of an application: the directory of its files, its generation, its dependencies, the
/// number that tells it from every other load, and how many hold its lease.
pub struct ApplicationModules {
    root: String,
    generation: u32,
    dependencies: Dependencies,
    number: u64,
    holders: u64,
}

/// A load of an application.
#[verifier::ext_equal]
pub struct LoadModel {
    pub root: Seq<char>,
    pub generation: u32,
    pub dependencies: Seq<Dependency<Seq<char>>>,
    pub number: u64,
    pub holders: u64,
}

impl View for ApplicationModules {
    type V = LoadModel;

    closed spec fn view(&self) -> LoadModel {
        LoadModel {
            root: self.root@,
            generation: self.generation,
            dependencies: self.dependencies@,
            number: self.number,
            holders: self.holders,
        }
    }
}

impl ApplicationModules {
    /// The generation of the load.
    pub fn load_generation(&self) -> (r: u32)
        ensures
            r == self@.generation,
    {
        self.generation
    }
}

/// The loads of a runtime, oldest first, the generation and the number of the last one, and how
/// paths are written.
#[verifier::ext_equal]
pub struct ModulesModel {
    pub applications: Seq<LoadModel>,
    pub last_generation: u32,
    pub last_load: u64,
    pub style: PathStyle,
}

/// The loads of a runtime.
pub struct AppModules {
    applications: Vec<ApplicationModules>,
    next_generation: u32,
    last_load: u64,
    style: PathStyle,
}

/// Loads, as a statement speaks of them.
pub open spec fn load_views(applications: Seq<ApplicationModules>) -> Seq<LoadModel> {
    applications.map_values(|application: ApplicationModules| application@)
}

impl View for AppModules {
    type V = ModulesModel;

    closed spec fn view(&self) -> ModulesModel {
        ModulesModel {
            applications: load_views(self.applications@),
            last_generation: self.next_generation,
            last_load: self.last_load,
            style: self.style,
        }
    }
}

/// What keeps a load's modules importable. The load is gone once its last holder has given its
/// lease back.
#[derive(PartialEq, Eq, Structural, Debug)]
pub struct ApplicationModuleLease {
    load: u64,
    generation: u32,
}

/// A lease on the load of a number and generation.
pub closed spec fn lease_on(load: u64, generation: u32) -> ApplicationModuleLease {
    ApplicationModuleLease { load, generation }
}

/// A lease names its load.
pub proof fn lemma_lease_on(load: u64, generation: u32)
    ensures
        lease_on(load, generation).load() == load,
        lease_on(load, generation).tag() == generation,
{
}

impl ApplicationModuleLease {
    /// The number of the load.
    pub closed spec fn load(&self) -> u64 {
        self.load
    }

    /// The generation of the load.
    pub closed spec fn tag(&self) -> u32 {
        self.generation
    }

    /// The number of the load.
    pub fn load_number(&self) -> (r: u64)
        ensures
            r == self.load(),
    {
        self.load
    }

    /// The generation of the load.
    pub fn generation(&self) -> (r: u32)
        ensures
            r == self.tag(),
    {
        self.generation
    }
}

/// The loads with one more, which has one holder.
pub open spec fn registered(
    m: ModulesModel,
    root: Seq<char>,
    dependencies: Seq<Dependency<Seq<char>>>,
) -> ModulesModel {
    let generation = m.last_generation.wrapping_add(1);
    let number = (m.last_load + 1) as u64;
    ModulesModel {
        applications: m.applications.push(
            LoadModel { root, generation, dependencies, number, holders: 1 },
        ),
        last_generation: generation,
        last_load: number,
        ..m
    }
}

/// The generation of the load of a number, while it is registered.
pub open spec fn generation_of(applications: Seq<LoadModel>, load: u64) -> Option<u32>
    decreases applications.len(),
{
    if applications.len() == 0 {
        None
    } else if applications.last().number == load {
        Some(applications.last().generation)
    } else {
        generation_of(applications.drop_last(), load)
    }
}

/// Whether one more may hold the lease of a load: the holders can be counted.
pub open spec fn shareable(m: ModulesModel, load: u64) -> bool {
    forall|i: int|
        0 <= i < m.applications.len() && (#[trigger] m.applications[i]).number == load
            ==> m.applications[i].holders < u64::MAX
}

/// Whether one more may hold the lease of any load.
pub open spec fn countable(m: ModulesModel) -> bool {
    forall|i: int| 0 <= i < m.applications.len() ==> (#[trigger] m.applications[i]).holders < u64::MAX
}

/// A load that one more holds, if it is the one of that number.
pub open spec fn with_holder(application: LoadModel, load: u64) -> LoadModel {
    if application.number == load {
        LoadModel { holders: (application.holders + 1) as u64, ..application }
    } else {
        application
    }
}

/// The loads after one more holds the lease of one.
pub open spec fn shared(m: ModulesModel, load: u64) -> ModulesModel {
    ModulesModel {
        applications: m.applications.map_values(
            |application: LoadModel| with_holder(application, load),
        ),
        ..m
    }
}

/// The loads without one holder of one of them, and without that one where it was its last.
pub open spec fn unheld(applications: Seq<LoadModel>, load: u64) -> Seq<LoadModel>
    decreases applications.len(),
{
    if applications.len() == 0 {
        Seq::empty()
    } else {
        let rest = unheld(applications.drop_last(), load);
        let last = applications.last();
        if last.number != load {
            rest.push(last)
        } else if last.holders > 1 {
            rest.push(LoadModel { holders: (last.holders - 1) as u64, ..last })
        } else {
            rest
        }
    }
}

/// The loads after a lease of one was given back.
pub open spec fn given_back(m: ModulesModel, load: u64) -> ModulesModel {
    ModulesModel { applications: unheld(m.applications, load), ..m }
}

/// The loads after leases were given back, the last first.
pub open spec fn all_given_back(m: ModulesModel, leases: Seq<ApplicationModuleLease>) -> ModulesModel
    decreases leases.len(),
{
    if leases.len() == 0 {
        m
    } else {
        all_given_back(given_back(m, leases.last().load()), leases.drop_last())
    }
}

/// The name without its tag: what stands before the last mark of one.
pub open spec fn untagged(name: Seq<char>) -> Seq<char> {
    match text::split_at_last(name, "?v="@) {
        Some((before, _)) => before,
        None => name,
    }
}

/// The generation that a name's tag gives: the number behind the last mark of one.
pub open spec fn tagged(name: Seq<char>) -> Option<u32> {
    match text::split_at_last(name, "?v="@) {
        Some((_, after)) => text::spelled_u32(after),
        None => None,
    }
}

/// The name of a module with the tag of a generation.
pub open spec fn with_tag(path: Seq<char>, generation: u32) -> Seq<char> {
    path + "?v="@ + text::decimal_text(generation as nat)
}

/// Whether a file belongs to a load: it is one of the application's or of a dependency's.
pub open spec fn holds_file(application: LoadModel, file: Seq<char>, style: PathStyle) -> bool {
    path::under(file, application.root, style) || importing(
        application.dependencies,
        file,
        style,
    ) is Some
}

/// The first dependency, in the order of names, that a file belongs to.
pub open spec fn importing(
    dependencies: Seq<Dependency<Seq<char>>>,
    file: Seq<char>,
    style: PathStyle,
) -> Option<Dependency<Seq<char>>>
    decreases dependencies.len(),
{
    if dependencies.len() == 0 {
        None
    } else if path::under(file, dependencies[0].root, style) {
        Some(dependencies[0])
    } else {
        importing(dependencies.skip(1), file, style)
    }
}

/// The load that a tagged name belongs to: of those with its generation that hold the file, the one
/// whose directory is deepest, and of several such the last.
pub open spec fn owner_of(
    applications: Seq<LoadModel>,
    generation: u32,
    file: Seq<char>,
    style: PathStyle,
) -> Option<int>
    decreases applications.len(),
{
    if applications.len() == 0 {
        None
    } else {
        let last = applications.last();
        let earlier = owner_of(applications.drop_last(), generation, file, style);
        let fits = last.generation == generation && holds_file(last, file, style);
        match earlier {
            None => if fits {
                Some(applications.len() - 1)
            } else {
                None
            },
            Some(at) => if fits && path::depth(last.root, style) >= path::depth(
                applications[at].root,
                style,
            ) {
                Some(applications.len() - 1)
            } else {
                Some(at)
            },
        }
    }
}

/// The load that an importing module belongs to.
pub open spec fn application_of(m: ModulesModel, base: Seq<char>) -> Option<int> {
    match tagged(base) {
        None => None,
        Some(generation) => owner_of(m.applications, generation, untagged(base), m.style),
    }
}

/// Whether an import names a dependency or a file of one.
pub open spec fn names_dependency(name: Seq<char>, dependency: Seq<char>) -> bool {
    name == dependency || (text::has_prefix(name, dependency) && text::begins(
        name.skip(dependency.len() as int),
        '/',
    ))
}

/// The dependency that an import names: the one with the longest name that fits.
pub open spec fn named(dependencies: Seq<Dependency<Seq<char>>>, name: Seq<char>) -> Option<
    Dependency<Seq<char>>,
>
    decreases dependencies.len(),
{
    if dependencies.len() == 0 {
        None
    } else {
        let last = dependencies.last();
        let earlier = named(dependencies.drop_last(), name);
        if !names_dependency(name, last.name) {
            earlier
        } else {
            match earlier {
                None => Some(last),
                Some(best) => if text::byte_len(last.name) >= text::byte_len(best.name) {
                    Some(last)
                } else {
                    Some(best)
                },
            }
        }
    }
}

/// Where an import may be found.
pub enum Candidate<S> {
    /// It is this file.
    Entry { file: S, boundary: S },
    /// It is the first of these two that is a file.
    Probe { first: S, second: S, boundary: S },
}

/// Where an import may be found, with sequences in place of strings.
pub open spec fn candidate_view(candidate: Candidate<String>) -> Candidate<Seq<char>> {
    match candidate {
        Candidate::Entry { file, boundary } => Candidate::Entry {
            file: file@,
            boundary: boundary@,
        },
        Candidate::Probe { first, second, boundary } => Candidate::Probe {
            first: first@,
            second: second@,
            boundary: boundary@,
        },
    }
}

/// A file to look for, as it is named and with the extension of scripts.
pub open spec fn probe(file: Seq<char>, boundary: Seq<char>, style: PathStyle) -> Candidate<
    Seq<char>,
> {
    Candidate::Probe {
        first: file,
        second: path::with_extension_text(file, "js"@, style),
        boundary,
    }
}

/// Where an import by a module of a load may be found. A relative one stays with the importing
/// dependency, or the application; another names a dependency; a module of a dependency imports
/// nothing else, and one of the application its own files.
pub open spec fn found_at(
    application: LoadModel,
    base: Seq<char>,
    name: Seq<char>,
    style: PathStyle,
) -> Option<Candidate<Seq<char>>> {
    let file = untagged(base);
    let importer = importing(application.dependencies, file, style);
    if text::begins(name, '.') {
        match path::parent_text(file, style) {
            None => None,
            Some(directory) => Some(
                probe(
                    path::join_text(directory, name, style),
                    match importer {
                        Some(dependency) => dependency.root,
                        None => application.root,
                    },
                    style,
                ),
            ),
        }
    } else {
        match named(application.dependencies, name) {
            Some(dependency) => if name == dependency.name {
                Some(Candidate::Entry { file: dependency.entry, boundary: dependency.root })
            } else {
                Some(
                    probe(
                        path::join_text(
                            dependency.root,
                            name.skip(dependency.name.len() as int).skip(1),
                            style,
                        ),
                        dependency.root,
                        style,
                    ),
                )
            },
            None => if importer is Some {
                None
            } else {
                Some(probe(path::join_text(application.root, name, style), application.root, style))
            },
        }
    }
}

/// The error of an import that names nothing.
pub open spec fn unresolved(base: Seq<char>, name: Seq<char>, builtins: Seq<char>) -> ScriptError<
    Seq<char>,
> {
    if !text::begins(name, '.') && !name.contains('/') {
        ScriptError::UnresolvedBare { name, builtins }
    } else {
        ScriptError::Unresolved { name, base }
    }
}

/// What an import of a file comes to: the tagged name of the file, which lies within the boundary.
pub open spec fn resolved(
    name: Seq<char>,
    file: Seq<char>,
    boundary: Seq<char>,
    generation: u32,
    style: PathStyle,
) -> Result<Seq<char>, ScriptError<Seq<char>>> {
    if path::under(file, boundary, style) {
        Ok(with_tag(file, generation))
    } else {
        Err(ScriptError::Escapes { name, boundary })
    }
}

/// A copy of an optional dependency's directory.
fn root_of(dependencies: &Dependencies, file: &str, style: PathStyle) -> (r: Option<usize>)
    ensures
        match (r, importing(dependencies@, file@, style)) {
            (Some(at), Some(dependency)) => at < dependencies@.len() && dependencies@[at as int]
                == dependency,
            (None, None) => true,
            _ => false,
        },
{
    let mut i: usize = 0;
    let ghost all = dependencies@;
    assert(all.skip(0) =~= all);
    while i < dependencies.entries.len()
        invariant
            i <= dependencies.entries@.len(),
            all == dependencies@,
            all == dependency_views(dependencies.entries@),
            importing(all, file@, style) == importing(all.skip(i as int), file@, style),
        decreases dependencies.entries@.len() - i,
    {
        assert(all.skip(i as int)[0] == all[i as int]);
        assert(all.skip(i as int).skip(1) =~= all.skip(i + 1));
        if path::path_starts_with(file, dependencies.entries[i].root.as_str(), style) {
            return Some(i);
        }
        i += 1;
    }
    None
}

fn matches_dependency(name: &str, dependency: &str) -> (r: bool)
    ensures
        r == names_dependency(name@, dependency@),
{
    if text::same(name, dependency) {
        return true;
    }
    match text::strip_prefix(name, dependency) {
        Some(rest) => text::begins_with(rest.as_str(), '/'),
        None => false,
    }
}

fn named_index(dependencies: &Dependencies, name: &str) -> (r: Option<usize>)
    ensures
        match (r, named(dependencies@, name@)) {
            (Some(at), Some(dependency)) => at < dependencies@.len() && dependencies@[at as int]
                == dependency && names_dependency(name@, dependency.name),
            (None, None) => true,
            _ => false,
        },
{
    let mut best: Option<usize> = None;
    let mut i: usize = 0;
    let ghost all = dependencies@;
    assert(all.take(0) =~= Seq::empty());
    while i < dependencies.entries.len()
        invariant
            i <= dependencies.entries@.len(),
            all == dependencies@,
            all == dependency_views(dependencies.entries@),
            match (best, named(all.take(i as int), name@)) {
                (Some(at), Some(dependency)) => at < i && all[at as int] == dependency
                    && names_dependency(name@, dependency.name),
                (None, None) => true,
                _ => false,
            },
        decreases dependencies.entries@.len() - i,
    {
        assert(all.take(i + 1).drop_last() =~= all.take(i as int));
        assert(all.take(i + 1).last() == all[i as int]);
        if matches_dependency(name, dependencies.entries[i].name.as_str()) {
            best = match best {
                None => Some(i),
                Some(at) => if text::bytes_in(dependencies.entries[i].name.as_str())
                    >= text::bytes_in(dependencies.entries[at].name.as_str()) {
                    Some(i)
                } else {
                    Some(at)
                },
            };
        }
        i += 1;
    }
    assert(all.take(i as int) =~= all);
    best
}

fn probe_for(file: String, boundary: String, style: PathStyle) -> (r: Candidate<String>)
    ensures
        candidate_view(r) == probe(file@, boundary@, style),
{
    let second = path::path_with_extension(file.as_str(), "js", style);
    Candidate::Probe { first: file, second, boundary }
}

impl AppModules {
    /// No loads. `style` tells how paths are written.
    pub fn new(style: PathStyle) -> (r: Self)
        ensures
            r@ == (ModulesModel {
                applications: Seq::empty(),
                last_generation: 0,
                last_load: 0,
                style,
            }),
    {
        let modules = AppModules {
            applications: Vec::new(),
            next_generation: 0,
            last_load: 0,
            style,
        };
        assert(modules@.applications =~= Seq::empty());
        modules
    }

    /// How paths are written.
    pub fn path_style(&self) -> (r: PathStyle)
        ensures
            r == self@.style,
    {
        self.style
    }

    /// Whether the numbers of loads have not run out.
    pub fn can_register(&self) -> (r: bool)
        ensures
            r == (self@.last_load < u64::MAX),
    {
        self.last_load < u64::MAX
    }

    /// Registers a load without dependencies.
    pub fn register(&mut self, root: String) -> (r: ApplicationModuleLease)
        requires
            old(self)@.last_load < u64::MAX,
        ensures
            final(self)@ == registered(old(self)@, root@, Seq::empty()),
            r == lease_on(final(self)@.last_load, final(self)@.last_generation),
    {
        self.register_with_dependencies(root, Dependencies::new())
    }

    /// Registers a load under a new generation.
    pub fn register_with_dependencies(&mut self, root: String, dependencies: Dependencies) -> (r:
        ApplicationModuleLease)
        requires
            old(self)@.last_load < u64::MAX,
        ensures
            final(self)@ == registered(old(self)@, root@, dependencies@),
            r == lease_on(final(self)@.last_load, final(self)@.last_generation),
    {
        let generation: u32 = self.next_generation.wrapping_add(1);
        let number: u64 = self.last_load + 1;
        self.next_generation = generation;
        self.last_load = number;
        let application = ApplicationModules { root, generation, dependencies, number, holders: 1 };
        let ghost model = application@;
        self.applications.push(application);
        assert(self@.applications =~= old(self)@.applications.push(model));
        ApplicationModuleLease { load: number, generation }
    }

    /// Whether one more may hold the lease of any load.
    pub fn can_share(&self) -> (r: bool)
        ensures
            r == countable(self@),
    {
        let mut i: usize = 0;
        while i < self.applications.len()
            invariant
                i <= self.applications@.len(),
                forall|j: int|
                    0 <= j < i ==> (#[trigger] self@.applications[j]).holders < u64::MAX,
            decreases self.applications@.len() - i,
        {
            assert(self@.applications[i as int] == self.applications@[i as int]@);
            if self.applications[i].holders == u64::MAX {
                return false;
            }
            i += 1;
        }
        true
    }

    fn hold(&mut self, load: u64)
        requires
            shareable(old(self)@, load),
        ensures
            final(self)@ == shared(old(self)@, load),
    {
        let mut i: usize = 0;
        let ghost before = self@;
        while i < self.applications.len()
            invariant
                i <= self.applications@.len(),
                before == old(self)@,
                shareable(before, load),
                self.applications@.len() == before.applications.len(),
                self@.last_generation == before.last_generation,
                self@.last_load == before.last_load,
                self@.style == before.style,
                forall|j: int|
                    0 <= j < i ==> (#[trigger] self@.applications[j]) == with_holder(
                        before.applications[j],
                        load,
                    ),
                forall|j: int|
                    i <= j < before.applications.len() ==> (#[trigger] self@.applications[j])
                        == before.applications[j],
            decreases self.applications@.len() - i,
        {
            let ghost current = self@.applications;
            assert(self@.applications[i as int] == self.applications@[i as int]@);
            assert(before.applications[i as int] == self@.applications[i as int]);
            if self.applications[i].number == load {
                let holders: u64 = self.applications[i].holders;
                self.applications[i].holders = holders + 1;
            }
            assert(self@.applications[i as int] == with_holder(
                before.applications[i as int],
                load,
            ));
            assert forall|j: int| 0 <= j < current.len() && j != i implies (
            #[trigger] self@.applications[j]) == current[j] by {
                assert(self@.applications[j] == self.applications@[j]@);
            }
            i += 1;
        }
        assert(self@.applications =~= shared(before, load).applications);
    }

    /// Takes one more lease of the load that a lease is for.
    pub fn share(&mut self, lease: &ApplicationModuleLease) -> (r: ApplicationModuleLease)
        requires
            shareable(old(self)@, lease.load()),
        ensures
            final(self)@ == shared(old(self)@, lease.load()),
            r == *lease,
    {
        self.hold(lease.load);
        ApplicationModuleLease { load: lease.load, generation: lease.generation }
    }

    /// Takes one more lease of the load of a number, while it is registered.
    pub fn share_load(&mut self, load: u64) -> (r: Option<ApplicationModuleLease>)
        requires
            shareable(old(self)@, load),
        ensures
            final(self)@ == shared(old(self)@, load),
            r == (match generation_of(old(self)@.applications, load) {
                Some(generation) => Some(lease_on(load, generation)),
                None => None,
            }),
    {
        let found = self.find(load);
        self.hold(load);
        match found {
            Some(generation) => Some(ApplicationModuleLease { load, generation }),
            None => None,
        }
    }

    fn find(&self, load: u64) -> (r: Option<u32>)
        ensures
            r == generation_of(self@.applications, load),
    {
        let mut i: usize = self.applications.len();
        let ghost all = self@.applications;
        assert(all.take(i as int) =~= all);
        while i > 0
            invariant
                i <= self.applications@.len(),
                all == self@.applications,
                all == load_views(self.applications@),
                generation_of(all, load) == generation_of(all.take(i as int), load),
            decreases i,
        {
            assert(all.take(i as int).last() == self.applications@[i - 1]@);
            assert(all.take(i as int).drop_last() =~= all.take(i - 1));
            i -= 1;
            if self.applications[i].number == load {
                return Some(self.applications[i].generation);
            }
        }
        None
    }

    /// A lease is given back: its load is gone where it was the last one.
    pub fn release(&mut self, lease: ApplicationModuleLease)
        ensures
            final(self)@ == given_back(old(self)@, lease.load()),
    {
        let mut all: Vec<ApplicationModules> = Vec::new();
        std::mem::swap(&mut all, &mut self.applications);
        let ghost before = load_views(all@);
        let total: usize = all.len();
        let mut done: usize = 0;
        assert(before.take(0) =~= Seq::empty());
        assert(before.skip(0) =~= before);
        assert(load_views(self.applications@) =~= Seq::empty());
        while all.len() > 0
            invariant
                done + all@.len() == total,
                total == before.len(),
                before.skip(done as int) == load_views(all@),
                load_views(self.applications@) == unheld(before.take(done as int), lease.load()),
                self.next_generation == old(self).next_generation,
                self.last_load == old(self).last_load,
                self.style == old(self).style,
            decreases all@.len(),
        {
            let ghost remaining = all@;
            let mut application = all.remove(0);
            let ghost model = application@;
            let ghost shorter = load_views(self.applications@);
            proof {
                assert(before.skip(done as int)[0] == model);
                assert(before.take(done + 1).drop_last() =~= before.take(done as int));
                assert(before.take(done + 1).last() == model);
                assert forall|k: int| 0 <= k < all@.len() implies load_views(all@)[k]
                    == before.skip(done + 1)[k] by {
                    assert(all@[k] == remaining[k + 1]);
                    assert(load_views(remaining)[k + 1] == before.skip(done as int)[k + 1]);
                }
                assert(load_views(all@) =~= before.skip(done + 1));
            }
            if application.number != lease.load {
                self.applications.push(application);
                assert(load_views(self.applications@) =~= shorter.push(model));
            } else if application.holders > 1 {
                application.holders = application.holders - 1;
                let ghost fewer = application@;
                self.applications.push(application);
                assert(load_views(self.applications@) =~= shorter.push(fewer));
            }
            done += 1;
        }
        assert(before.take(done as int) =~= before);
    }

    /// Leases are given back.
    pub fn release_all(&mut self, leases: Vec<ApplicationModuleLease>)
        ensures
            final(self)@ == all_given_back(old(self)@, leases@),
    {
        let mut left = leases;
        while left.len() > 0
            invariant
                all_given_back(self@, left@) == all_given_back(old(self)@, leases@),
            decreases left@.len(),
        {
            let ghost before = left@;
            match left.pop() {
                Some(lease) => {
                    assert(left@ =~= before.drop_last());
                    self.release(lease);
                },
                None => {},
            }
        }
    }

    /// The name without its tag.
    pub fn untag(name: &str) -> (r: String)
        ensures
            r@ == untagged(name@),
    {
        match text::rsplit_once(name, "?v=") {
            Some((before, _)) => before,
            None => name.to_owned(),
        }
    }

    /// The generation that a name's tag gives.
    pub fn generation(name: &str) -> (r: Option<u32>)
        ensures
            r == tagged(name@),
    {
        match text::rsplit_once(name, "?v=") {
            Some((_, after)) => text::parse_u32(after.as_str()),
            None => None,
        }
    }

    /// How many loads are registered.
    pub fn registration_count(&self) -> (r: usize)
        ensures
            r == self@.applications.len(),
    {
        self.applications.len()
    }

    /// The load that an importing module belongs to.
    pub fn application_for_base(&self, base: &str) -> (r: Option<&ApplicationModules>)
        ensures
            match (r, application_of(self@, base@)) {
                (Some(application), Some(at)) => 0 <= at < self@.applications.len()
                    && application@ == self@.applications[at],
                (None, None) => true,
                _ => false,
            },
    {
        let generation: u32 = match Self::generation(base) {
            Some(generation) => generation,
            None => {
                return None;
            },
        };
        let file = Self::untag(base);
        let mut best: Option<usize> = None;
        let mut i: usize = 0;
        let ghost all = self@.applications;
        assert(all.take(0) =~= Seq::empty());
        while i < self.applications.len()
            invariant
                i <= self.applications@.len(),
                all == self@.applications,
                all == load_views(self.applications@),
                self@.style == self.style,
                file@ == untagged(base@),
                match (best, owner_of(all.take(i as int), generation, file@, self.style)) {
                    (Some(at), Some(position)) => at == position && at < i,
                    (None, None) => true,
                    _ => false,
                },
            decreases self.applications@.len() - i,
        {
            let application = &self.applications[i];
            proof {
                assert(all.take(i + 1).drop_last() =~= all.take(i as int));
                assert(all.take(i + 1).last() == application@);
                match best {
                    Some(at) => {
                        assert(all.take(i + 1)[at as int] == self.applications@[at as int]@);
                    },
                    None => {},
                }
            }
            if application.generation == generation && (path::path_starts_with(
                file.as_str(),
                application.root.as_str(),
                self.style,
            ) || root_of(&application.dependencies, file.as_str(), self.style).is_some()) {
                best = match best {
                    None => Some(i),
                    Some(at) => if path::path_depth(application.root.as_str(), self.style)
                        >= path::path_depth(self.applications[at].root.as_str(), self.style) {
                        Some(i)
                    } else {
                        Some(at)
                    },
                };
            }
            i += 1;
        }
        assert(all.take(i as int) =~= all);
        match best {
            Some(at) => Some(&self.applications[at]),
            None => None,
        }
    }

    /// Where an import by a module of a load may be found.
    pub fn candidate(
        &self,
        application: &ApplicationModules,
        base: &str,
        name: &str,
    ) -> (r: Option<Candidate<String>>)
        ensures
            match (r, found_at(application@, base@, name@, self@.style)) {
                (Some(candidate), Some(expected)) => candidate_view(candidate) == expected,
                (None, None) => true,
                _ => false,
            },
    {
        let file = Self::untag(base);
        let importer = root_of(&application.dependencies, file.as_str(), self.style);
        if text::begins_with(name, '.') {
            let boundary: String = match importer {
                Some(at) => application.dependencies.entries[at].root.as_str().to_owned(),
                None => application.root.as_str().to_owned(),
            };
            return match path::path_parent(file.as_str(), self.style) {
                None => None,
                Some(directory) => Some(
                    probe_for(
                        path::path_join(directory.as_str(), name, self.style),
                        boundary,
                        self.style,
                    ),
                ),
            };
        }
        match named_index(&application.dependencies, name) {
            Some(at) => {
                let dependency = &application.dependencies.entries[at];
                if text::same(name, dependency.name.as_str()) {
                    return Some(
                        Candidate::Entry {
                            file: dependency.entry.as_str().to_owned(),
                            boundary: dependency.root.as_str().to_owned(),
                        },
                    );
                }
                match text::strip_prefix(name, dependency.name.as_str()) {
                    None => None,
                    Some(rest) => {
                        let chars = text::chars_of(rest.as_str());
                        if chars.len() == 0 {
                            return None;
                        }
                        let subpath = text::slice_text(&chars, 1, chars.len());
                        assert(subpath@ =~= rest@.skip(1));
                        Some(
                            probe_for(
                                path::path_join(
                                    dependency.root.as_str(),
                                    subpath.as_str(),
                                    self.style,
                                ),
                                dependency.root.as_str().to_owned(),
                                self.style,
                            ),
                        )
                    },
                }
            },
            None => match importer {
                Some(_) => None,
                None => Some(
                    probe_for(
                        path::path_join(application.root.as_str(), name, self.style),
                        application.root.as_str().to_owned(),
                        self.style,
                    ),
                ),
            },
        }
    }

    /// Begins to resolve an import: where it may be found, and for which generation.
    pub fn begin_resolve(&self, base: &str, name: &str, builtins: &str) -> (r: Result<
        ModuleSearch,
        ScriptError<String>,
    >)
        ensures
            match (r, searched(self@, base@, name@, builtins@)) {
                (Ok(search), Ok((candidate, generation))) => candidate_view(search.candidate)
                    == candidate && search.generation == generation && search.style
                    == self@.style,
                (Err(error), Err(expected)) => error::error_view(error) == expected,
                _ => false,
            },
    {
        let application = match self.application_for_base(base) {
            Some(application) => application,
            None => {
                return Err(
                    ScriptError::NoImporter { name: name.to_owned(), base: base.to_owned() },
                );
            },
        };
        match self.candidate(application, base, name) {
            Some(candidate) => Ok(
                ModuleSearch { candidate, generation: application.generation, style: self.style },
            ),
            None => Err(unresolved_error(base, name, builtins)),
        }
    }
}

fn unresolved_error(base: &str, name: &str, builtins: &str) -> (r: ScriptError<String>)
    ensures
        error::error_view(r) == unresolved(base@, name@, builtins@),
{
    if !text::begins_with(name, '.') && !text::contains_char(name, '/') {
        ScriptError::UnresolvedBare { name: name.to_owned(), builtins: builtins.to_owned() }
    } else {
        ScriptError::Unresolved { name: name.to_owned(), base: base.to_owned() }
    }
}

/// Where an import is looked for, and for which generation.
pub struct ModuleSearch {
    pub candidate: Candidate<String>,
    pub generation: u32,
    pub style: PathStyle,
}

/// Where an import is looked for, and for which generation, or why it is not.
pub open spec fn searched(m: ModulesModel, base: Seq<char>, name: Seq<char>, builtins: Seq<char>) -> Result<
    (Candidate<Seq<char>>, u32),
    ScriptError<Seq<char>>,
> {
    match application_of(m, base) {
        None => Err(ScriptError::NoImporter { name, base }),
        Some(at) => match found_at(m.applications[at], base, name, m.style) {
            Some(candidate) => Ok((candidate, m.applications[at].generation)),
            None => Err(unresolved(base, name, builtins)),
        },
    }
}

/// What an import comes to once it was looked for. `found` is the full path of the file that was
/// found, where one was looked for.
pub open spec fn import_outcome(
    candidate: Candidate<Seq<char>>,
    generation: u32,
    base: Seq<char>,
    name: Seq<char>,
    found: Option<Seq<char>>,
    builtins: Seq<char>,
    style: PathStyle,
) -> Result<Seq<char>, ScriptError<Seq<char>>> {
    match candidate {
        Candidate::Entry { file, boundary } => resolved(name, file, boundary, generation, style),
        Candidate::Probe { boundary, .. } => match found {
            Some(file) => resolved(name, file, boundary, generation, style),
            None => Err(unresolved(base, name, builtins)),
        },
    }
}

impl ModuleSearch {
    /// The file to open, given which of the two places to look hold one.
    pub fn probe_to_open(&self, first_is_file: bool, second_is_file: bool) -> (r: Option<&String>)
        ensures
            match self.candidate {
                Candidate::Entry { .. } => r is None,
                Candidate::Probe { first, second, .. } => if first_is_file {
                    r matches Some(file) && file@ == first@
                } else if second_is_file {
                    r matches Some(file) && file@ == second@
                } else {
                    r is None
                },
            },
    {
        match &self.candidate {
            Candidate::Entry { .. } => None,
            Candidate::Probe { first, second, .. } => if first_is_file {
                Some(first)
            } else if second_is_file {
                Some(second)
            } else {
                None
            },
        }
    }

    /// Ends the resolution of an import: its tagged name.
    pub fn resolve(&self, base: &str, name: &str, found: Option<&str>, builtins: &str) -> (r: Result<
        String,
        ScriptError<String>,
    >)
        ensures
            match (
                r,
                import_outcome(
                    candidate_view(self.candidate),
                    self.generation,
                    base@,
                    name@,
                    match found {
                        Some(file) => Some(file@),
                        None => None,
                    },
                    builtins@,
                    self.style,
                ),
            ) {
                (Ok(resolved), Ok(expected)) => resolved@ == expected,
                (Err(error), Err(expected)) => error::error_view(error) == expected,
                _ => false,
            },
    {
        let (file, boundary): (&str, &str) = match &self.candidate {
            Candidate::Entry { file, boundary } => (file.as_str(), boundary.as_str()),
            Candidate::Probe { boundary, .. } => match found {
                Some(file) => (file, boundary.as_str()),
                None => {
                    return Err(unresolved_error(base, name, builtins));
                },
            },
        };
        if !path::path_starts_with(file, boundary, self.style) {
            return Err(
                ScriptError::Escapes { name: name.to_owned(), boundary: boundary.to_owned() },
            );
        }
        let tag = text::decimal(self.generation as u64);
        Ok(text::join3(file, "?v=", tag.as_str()))
    }
}

/// What a check of a module's size answers.
pub open spec fn size_outcome(file: Seq<char>, size: u64) -> Result<(), ScriptError<Seq<char>>> {
    if size > MAX_MODULE_BYTES {
        Err(ScriptError::ModuleTooLarge { path: file, size, limit: MAX_MODULE_BYTES })
    } else {
        Ok(())
    }
}

/// Refuses a module file that is too large to be read.
pub fn check_module_size(file: &str, size: u64) -> (r: Result<(), ScriptError<String>>)
    ensures
        error::outcome_view(r) == size_outcome(file@, size),
{
    if size > MAX_MODULE_BYTES {
        Err(ScriptError::ModuleTooLarge { path: file.to_owned(), size, limit: MAX_MODULE_BYTES })
    } else {
        Ok(())
    }
}

/// What a check of a module's text answers.
pub open spec fn growth_outcome(file: Seq<char>, source: Seq<char>) -> Result<
    (),
    ScriptError<Seq<char>>,
> {
    if text::byte_len(source) > MAX_MODULE_BYTES {
        Err(ScriptError::ModuleGrew { path: file, limit: MAX_MODULE_BYTES })
    } else {
        Ok(())
    }
}

/// Refuses a module that turned out too large while it was read.
pub fn check_module_source(file: &str, source: &str) -> (r: Result<(), ScriptError<String>>)
    ensures
        error::outcome_view(r) == growth_outcome(file@, source@),
{
    if text::bytes_in(source) as u64 > MAX_MODULE_BYTES {
        Err(ScriptError::ModuleGrew { path: file.to_owned(), limit: MAX_MODULE_BYTES })
    } else {
        Ok(())
    }
}

proof fn lemma_owner(
    applications: Seq<LoadModel>,
    generation: u32,
    file: Seq<char>,
    style: PathStyle,
)
    ensures
        owner_of(applications, generation, file, style) matches Some(at) ==> 0 <= at
            < applications.len() && applications[at].generation == generation && holds_file(
            applications[at],
            file,
            style,
        ),
        owner_of(applications, generation, file, style) is None ==> forall|i: int|
            0 <= i < applications.len() ==> !((#[trigger] applications[i]).generation == generation
                && holds_file(applications[i], file, style)),
    decreases applications.len(),
{
    if applications.len() > 0 {
        lemma_owner(applications.drop_last(), generation, file, style);
        assert forall|i: int| 0 <= i < applications.len() - 1 implies applications.drop_last()[i]
            == #[trigger] applications[i] by {}
    }
}

/// An import is looked up in the load whose tag the importing module carries, and in no other: an
/// older class of the same directory keeps its generation.
pub proof fn law_tags_select_their_own_generation(m: ModulesModel, base: Seq<char>)
    ensures
        application_of(m, base) matches Some(at) ==> 0 <= at < m.applications.len()
            && tagged(base) == Some(m.applications[at].generation) && holds_file(
            m.applications[at],
            untagged(base),
            m.style,
        ),
        application_of(m, base) is None ==> tagged(base) is None || forall|i: int|
            0 <= i < m.applications.len() ==> !(Some((#[trigger] m.applications[i]).generation)
                == tagged(base) && holds_file(m.applications[i], untagged(base), m.style)),
{
    match tagged(base) {
        Some(generation) => lemma_owner(m.applications, generation, untagged(base), m.style),
        None => {},
    }
}

/// Whether every load has a number of its own, none above the last one, and a holder.
pub open spec fn numbered(m: ModulesModel) -> bool {
    &&& forall|i: int|
        0 <= i < m.applications.len() ==> (#[trigger] m.applications[i]).number <= m.last_load
            && m.applications[i].holders > 0
    &&& forall|i: int, j: int|
        0 <= i < j < m.applications.len() ==> (#[trigger] m.applications[i]).number < (
        #[trigger] m.applications[j]).number
}

/// How many hold the lease of a load; none where it is not registered.
pub open spec fn holders_of(applications: Seq<LoadModel>, load: u64) -> nat
    decreases applications.len(),
{
    if applications.len() == 0 {
        0
    } else if applications.last().number == load {
        applications.last().holders as nat
    } else {
        holders_of(applications.drop_last(), load)
    }
}

proof fn lemma_not_held(applications: Seq<LoadModel>, load: u64)
    requires
        forall|i: int| 0 <= i < applications.len() ==> (#[trigger] applications[i]).number != load,
    ensures
        unheld(applications, load) == applications,
        holders_of(applications, load) == 0,
    decreases applications.len(),
{
    if applications.len() > 0 {
        let rest = applications.drop_last();
        assert forall|i: int| 0 <= i < rest.len() implies (#[trigger] rest[i]).number != load by {
            assert(rest[i] == applications[i]);
        }
        lemma_not_held(rest, load);
        assert(unheld(applications, load) =~= applications);
    }
}

proof fn lemma_holders(applications: Seq<LoadModel>, load: u64, at: int)
    requires
        0 <= at < applications.len(),
        applications[at].number == load,
        forall|i: int|
            0 <= i < applications.len() && i != at ==> (#[trigger] applications[i]).number != load,
    ensures
        holders_of(applications, load) == applications[at].holders,
        unheld(applications, load) == (if applications[at].holders > 1 {
            applications.update(
                at,
                LoadModel { holders: (applications[at].holders - 1) as u64, ..applications[at] },
            )
        } else {
            applications.remove(at)
        }),
    decreases applications.len(),
{
    let rest = applications.drop_last();
    let last = applications.last();
    let fewer = LoadModel {
        holders: (applications[at].holders - 1) as u64,
        ..applications[at]
    };
    if at == applications.len() - 1 {
        assert forall|i: int| 0 <= i < rest.len() implies (#[trigger] rest[i]).number != load by {
            assert(rest[i] == applications[i]);
        }
        lemma_not_held(rest, load);
        assert(applications.update(at, fewer) =~= rest.push(fewer));
        assert(applications.remove(at) =~= rest);
    } else {
        assert(applications[applications.len() - 1].number != load);
        assert forall|i: int| 0 <= i < rest.len() && i != at implies (#[trigger] rest[i]).number
            != load by {
            assert(rest[i] == applications[i]);
        }
        lemma_holders(rest, load, at);
        assert(rest.update(at, fewer).push(last) =~= applications.update(at, fewer));
        assert(rest.remove(at).push(last) =~= applications.remove(at));
    }
}

proof fn lemma_alone(m: ModulesModel, at: int)
    requires
        numbered(m),
        0 <= at < m.applications.len(),
    ensures
        forall|i: int|
            0 <= i < m.applications.len() && i != at ==> (#[trigger] m.applications[i]).number
                != m.applications[at].number,
{
    assert forall|i: int| 0 <= i < m.applications.len() && i != at implies (
    #[trigger] m.applications[i]).number != m.applications[at].number by {
        if i < at {
            assert(m.applications[i].number < m.applications[at].number);
        } else {
            assert(m.applications[at].number < m.applications[i].number);
        }
    }
}

/// Where a load stands, or that it is not registered.
proof fn lemma_held(m: ModulesModel, load: u64) -> (at: Option<int>)
    requires
        numbered(m),
    ensures
        match at {
            Some(at) => 0 <= at < m.applications.len() && m.applications[at].number == load
                && holders_of(m.applications, load) == m.applications[at].holders,
            None => holders_of(m.applications, load) == 0 && forall|i: int|
                0 <= i < m.applications.len() ==> (#[trigger] m.applications[i]).number != load,
        },
{
    if exists|i: int| 0 <= i < m.applications.len() && (#[trigger] m.applications[i]).number
        == load {
        let i = choose|i: int|
            0 <= i < m.applications.len() && (#[trigger] m.applications[i]).number == load;
        lemma_alone(m, i);
        lemma_holders(m.applications, load, i);
        Some(i)
    } else {
        lemma_not_held(m.applications, load);
        None
    }
}

/// Taking and giving back leases keeps every load's number and leaves none without a holder.
pub proof fn lemma_leases_keep_numbers(m: ModulesModel, load: u64)
    requires
        numbered(m),
    ensures
        numbered(given_back(m, load)),
        shareable(m, load) ==> numbered(shared(m, load)),
        generation_of(m.applications, load) is Some <==> holders_of(m.applications, load) > 0,
        holders_of(m.applications, load) == 0 ==> shared(m, load) == m && given_back(m, load) == m,
{
    lemma_generation_known(m.applications, load);
    match lemma_held(m, load) {
        Some(_) => {
            law_giving_back_takes_a_holder(m, load, load);
            if shareable(m, load) {
                law_sharing_adds_a_holder(m, load, load);
            }
        },
        None => {
            lemma_not_held(m.applications, load);
            assert(shared(m, load).applications =~= m.applications);
        },
    }
}

proof fn lemma_generation_known(applications: Seq<LoadModel>, load: u64)
    ensures
        generation_of(applications, load) is Some <==> exists|i: int|
            0 <= i < applications.len() && (#[trigger] applications[i]).number == load,
    decreases applications.len(),
{
    if applications.len() > 0 {
        let rest = applications.drop_last();
        lemma_generation_known(rest, load);
        if applications.last().number == load {
            assert(applications[applications.len() - 1].number == load);
        }
        if exists|i: int| 0 <= i < applications.len() && (#[trigger] applications[i]).number
            == load {
            let i = choose|i: int|
                0 <= i < applications.len() && (#[trigger] applications[i]).number == load;
            if i < rest.len() {
                assert(rest[i].number == load);
            }
        }
        if exists|i: int| 0 <= i < rest.len() && (#[trigger] rest[i]).number == load {
            let i = choose|i: int| 0 <= i < rest.len() && (#[trigger] rest[i]).number == load;
            assert(applications[i].number == load);
        }
    }
}

/// Giving back leases keeps every load's number and leaves none without a holder.
pub proof fn lemma_all_given_back_numbered(m: ModulesModel, leases: Seq<ApplicationModuleLease>)
    requires
        numbered(m),
    ensures
        numbered(all_given_back(m, leases)),
    decreases leases.len(),
{
    if leases.len() > 0 {
        lemma_leases_keep_numbers(m, leases.last().load());
        lemma_all_given_back_numbered(given_back(m, leases.last().load()), leases.drop_last());
    }
}

/// A load is registered exactly while a holder of its lease is left.
pub proof fn law_a_load_is_registered_while_its_lease_is_held(m: ModulesModel, load: u64)
    requires
        numbered(m),
    ensures
        holders_of(m.applications, load) > 0 <==> exists|i: int|
            0 <= i < m.applications.len() && (#[trigger] m.applications[i]).number == load,
{
    let _at = lemma_held(m, load);
}

/// A new load has one holder, and no other load gets or loses one.
pub proof fn law_a_new_load_has_one_holder(
    m: ModulesModel,
    root: Seq<char>,
    dependencies: Seq<Dependency<Seq<char>>>,
    other: u64,
)
    requires
        numbered(m),
        m.last_load < u64::MAX,
    ensures
        ({
            let after = registered(m, root, dependencies);
            &&& numbered(after)
            &&& holders_of(m.applications, after.last_load) == 0
            &&& holders_of(after.applications, after.last_load) == 1
            &&& other != after.last_load ==> holders_of(after.applications, other) == holders_of(
                m.applications,
                other,
            )
        }),
{
    let after = registered(m, root, dependencies);
    assert forall|i: int| 0 <= i < after.applications.len() implies (
    #[trigger] after.applications[i]).number <= after.last_load && after.applications[i].holders
        > 0 by {
        if i < m.applications.len() {
            assert(after.applications[i] == m.applications[i]);
        }
    }
    assert forall|i: int, j: int| 0 <= i < j < after.applications.len() implies (
    #[trigger] after.applications[i]).number < (#[trigger] after.applications[j]).number by {
        assert(after.applications[i] == m.applications[i]);
        if j < m.applications.len() {
            assert(after.applications[j] == m.applications[j]);
        }
    }
    lemma_not_held(m.applications, after.last_load);
    assert(after.applications.drop_last() =~= m.applications);
}

/// Taking a lease of a load that is registered adds one holder of that load.
pub proof fn law_sharing_adds_a_holder(m: ModulesModel, load: u64, other: u64)
    requires
        numbered(m),
        shareable(m, load),
        holders_of(m.applications, load) > 0,
    ensures
        numbered(shared(m, load)),
        holders_of(shared(m, load).applications, load) == holders_of(m.applications, load) + 1,
        other != load ==> holders_of(shared(m, load).applications, other) == holders_of(
            m.applications,
            other,
        ),
        given_back(shared(m, load), load) == m,
{
    let after = shared(m, load);
    let found = lemma_held(m, load);
    let at = found->Some_0;
    lemma_alone(m, at);
    assert forall|i: int| 0 <= i < after.applications.len() implies (
    #[trigger] after.applications[i]).number == m.applications[i].number
        && after.applications[i].holders > 0 by {
        assert(after.applications[i] == with_holder(m.applications[i], load));
        assert(m.applications[i].holders > 0);
    }
    assert(numbered(after));
    lemma_holders(after.applications, load, at);
    match lemma_held(m, other) {
        Some(found) => {
            lemma_alone(after, found);
            lemma_holders(after.applications, other, found);
        },
        None => {
            lemma_not_held(after.applications, other);
        },
    }
    assert(unheld(after.applications, load) =~= m.applications);
}

/// Giving a lease back takes one holder of its load, and the load with its last one; every other
/// load stays as it is.
pub proof fn law_giving_back_takes_a_holder(m: ModulesModel, load: u64, other: u64)
    requires
        numbered(m),
        holders_of(m.applications, load) > 0,
    ensures
        numbered(given_back(m, load)),
        holders_of(given_back(m, load).applications, load) == holders_of(m.applications, load) - 1,
        other != load ==> holders_of(given_back(m, load).applications, other) == holders_of(
            m.applications,
            other,
        ),
{
    let after = given_back(m, load);
    let found = lemma_held(m, load);
    let at = found->Some_0;
    lemma_alone(m, at);
    lemma_holders(m.applications, load, at);
    if m.applications[at].holders > 1 {
        assert forall|i: int| 0 <= i < after.applications.len() implies (
        #[trigger] after.applications[i]).number == m.applications[i].number
            && after.applications[i].holders > 0 by {
            assert(m.applications[i].holders > 0);
        }
        assert(numbered(after));
        lemma_alone(after, at);
        lemma_holders(after.applications, load, at);
        match lemma_held(m, other) {
            Some(found) => {
                lemma_alone(after, found);
                lemma_holders(after.applications, other, found);
            },
            None => {
                lemma_not_held(after.applications, other);
            },
        }
    } else {
        assert forall|i: int| 0 <= i < after.applications.len() implies (
        #[trigger] after.applications[i]) == (if i < at {
            m.applications[i]
        } else {
            m.applications[i + 1]
        }) by {}
        assert(numbered(after));
        lemma_not_held(after.applications, load);
        if other != load {
            match lemma_held(m, other) {
                Some(found) => {
                    let place = if found < at {
                        found
                    } else {
                        found - 1
                    };
                    assert(after.applications[place] == m.applications[found]);
                    lemma_alone(after, place);
                    lemma_holders(after.applications, other, place);
                },
                None => {
                    lemma_not_held(after.applications, other);
                },
            }
        }
    }
}

/// The directory that an import may reach.
pub open spec fn boundary_of(candidate: Candidate<Seq<char>>) -> Seq<char> {
    match candidate {
        Candidate::Entry { boundary, .. } => boundary,
        Candidate::Probe { boundary, .. } => boundary,
    }
}

/// Whether a directory is that of a load's application or of one of its dependencies.
pub open spec fn own_directory(application: LoadModel, directory: Seq<char>) -> bool {
    directory == application.root || exists|i: int|
        0 <= i < application.dependencies.len() && (#[trigger] application.dependencies[i]).root
            == directory
}

/// What an import resolves to lies within the directory it may reach: the importing dependency's,
/// the named dependency's or the application's.
pub proof fn law_imports_stay_within_their_boundary(
    application: LoadModel,
    base: Seq<char>,
    name: Seq<char>,
    found: Option<Seq<char>>,
    builtins: Seq<char>,
    candidate: Candidate<Seq<char>>,
    outcome: Seq<char>,
    style: PathStyle,
)
    requires
        found_at(application, base, name, style) == Some(candidate),
        import_outcome(
            candidate,
            application.generation,
            base,
            name,
            found,
            builtins,
            style,
        ) == Ok::<Seq<char>, ScriptError<Seq<char>>>(outcome),
    ensures
        own_directory(application, boundary_of(candidate)),
        exists|file: Seq<char>| #[trigger]
            path::under(file, boundary_of(candidate), style) && outcome == with_tag(
                file,
                application.generation,
            ),
{
    lemma_importing_member(application.dependencies, untagged(base), style);
    lemma_named_member(application.dependencies, name);
    match candidate {
        Candidate::Entry { file, boundary } => {
            assert(path::under(file, boundary, style));
        },
        Candidate::Probe { boundary, .. } => {
            assert(path::under(found->Some_0, boundary, style));
        },
    }
    let directory = boundary_of(candidate);
    if directory != application.root {
        let dependencies = application.dependencies;
        if text::begins(name, '.') {
            let dependency = importing(dependencies, untagged(base), style)->Some_0;
            let i = choose|i: int|
                0 <= i < dependencies.len() && (#[trigger] dependencies[i]) == dependency;
            assert(dependencies[i].root == directory);
        } else {
            let dependency = named(dependencies, name)->Some_0;
            let i = choose|i: int|
                0 <= i < dependencies.len() && (#[trigger] dependencies[i]) == dependency;
            assert(dependencies[i].root == directory);
        }
    }
}

proof fn lemma_importing_member(
    dependencies: Seq<Dependency<Seq<char>>>,
    file: Seq<char>,
    style: PathStyle,
)
    ensures
        importing(dependencies, file, style) matches Some(dependency) ==> exists|i: int|
            0 <= i < dependencies.len() && (#[trigger] dependencies[i]) == dependency,
    decreases dependencies.len(),
{
    if dependencies.len() > 0 {
        let rest = dependencies.skip(1);
        lemma_importing_member(rest, file, style);
        match importing(dependencies, file, style) {
            Some(dependency) => {
                if path::under(file, dependencies[0].root, style) {
                    assert(dependencies[0] == dependency);
                } else {
                    let i = choose|i: int|
                        0 <= i < rest.len() && (#[trigger] rest[i]) == dependency;
                    assert(dependencies[i + 1] == dependency);
                }
            },
            None => {},
        }
    }
}

proof fn lemma_named_member(dependencies: Seq<Dependency<Seq<char>>>, name: Seq<char>)
    ensures
        named(dependencies, name) matches Some(dependency) ==> exists|i: int|
            0 <= i < dependencies.len() && (#[trigger] dependencies[i]) == dependency,
    decreases dependencies.len(),
{
    if dependencies.len() > 0 {
        let rest = dependencies.drop_last();
        lemma_named_member(rest, name);
        match named(dependencies, name) {
            Some(dependency) => {
                if named(rest, name) == Some(dependency) {
                    let i = choose|i: int|
                        0 <= i < rest.len() && (#[trigger] rest[i]) == dependency;
                    assert(dependencies[i] == dependency);
                } else {
                    assert(dependencies[dependencies.len() - 1] == dependency);
                }
            },
            None => {},
        }
    }
}

proof fn lemma_decimal_digits(n: nat)
    ensures
        text::decimal_text(n).len() > 0,
        text::digits_value(text::decimal_text(n)) == n,
        forall|i: int|
            0 <= i < text::decimal_text(n).len() ==> text::is_digit(
                #[trigger] text::decimal_text(n)[i],
            ),
    decreases n,
{
    if n < 10 {
        let one = text::decimal_text(n);
        assert(one.drop_last() =~= Seq::empty());
        assert(text::digits_value(one.drop_last()) == 0);
    } else {
        lemma_decimal_digits(n / 10);
        let all = text::decimal_text(n);
        assert(all.drop_last() =~= text::decimal_text(n / 10));
    }
}

proof fn lemma_decimal_spells(generation: u32)
    ensures
        text::spelled_u32(text::decimal_text(generation as nat)) == Some(generation),
{
    let digits = text::decimal_text(generation as nat);
    lemma_decimal_digits(generation as nat);
    assert(text::is_digit(digits[0]));
    assert(text::unsigned_digits(digits) == digits);
}

/// The tag of a resolved name gives back its generation, and the name without the tag is the file.
pub proof fn law_tags_read_back(file: Seq<char>, generation: u32)
    ensures
        tagged(with_tag(file, generation)) == Some(generation),
        untagged(with_tag(file, generation)) == file,
{
    let mark = "?v="@;
    let digits = text::decimal_text(generation as nat);
    let name = with_tag(file, generation);
    let at = file.len() as int;
    reveal_strlit("?v=");
    assert(mark.len() == 3 && mark[0] == '?' && mark[1] == 'v' && mark[2] == '=');
    lemma_decimal_digits(generation as nat);
    lemma_decimal_spells(generation);
    assert(name.subrange(at, at + 3) =~= mark);
    assert(text::occurs_at(name, mark, at));
    assert forall|j: int| at < j implies !#[trigger] text::occurs_at(name, mark, j) by {
        if text::occurs_at(name, mark, j) {
            let window = name.subrange(j, j + 3);
            assert(window[0] == name[j] && window[1] == name[j + 1] && window[2] == name[j + 2]);
            if j < at + 3 {
                assert(name[at + 1] == 'v');
                assert(name[at + 2] == '=');
            } else {
                assert(name[j] == digits[j - at - 3]);
                assert(text::is_digit(digits[j - at - 3]));
            }
        }
    }
    text::lemma_find_last(name, mark, at);
    assert(name.subrange(0, at) =~= file);
    assert(name.subrange(at + 3, name.len() as int) =~= digits);
}


/// A relative import is read from the directory of the module that makes it: the components of the
/// place looked at first are those of the importing file without the last, followed by those of
/// the name, whose opening `.` does not count. This holds for the modules of an application as for
/// those of a dependency.
pub proof fn law_a_relative_import_is_read_from_the_importer(
    application: LoadModel,
    file: Seq<char>,
    generation: u32,
    name: Seq<char>,
    style: PathStyle,
)
    requires
        path::is_ordinary(file, style),
        name.len() > 0,
        name[0] == '.',
        path::components(file, style).len() > 1,
        path::components(file, style).last() is Name,
    ensures
        match found_at(application, with_tag(file, generation), name, style) {
            Some(Candidate::Probe { first, second, boundary }) => path::components(first, style)
                == path::components(file, style).drop_last() + path::without_dot(
                path::components(name, style),
            ),
            _ => false,
        },
{
    law_tags_read_back(file, generation);
    assert(text::begins(name, '.'));
    path::law_a_directory_lacks_the_last_component(file, style);
    let whole = path::components(file, style);
    assert(whole[whole.len() - 1] is Name);
    let directory = path::parent_text(file, style)->Some_0;
    assert(directory.len() > 0) by {
        if directory.len() == 0 {
            assert(style == PathStyle::Slash);
            path::law_a_name_is_one_component(directory);
        }
    }
    path::law_a_relative_name_is_read_from_its_directory(directory, name, style);
}

/// A relative import by a module that lies in no directory is looked for as it is written.
pub proof fn law_a_relative_import_beside_a_bare_file_is_as_written(
    application: LoadModel,
    file: Seq<char>,
    generation: u32,
    name: Seq<char>,
)
    requires
        file.len() > 0,
        forall|i: int| 0 <= i < file.len() ==> #[trigger] file[i] != '/',
        name.len() > 0,
        name[0] == '.',
    ensures
        match found_at(application, with_tag(file, generation), name, PathStyle::Slash) {
            Some(Candidate::Probe { first, .. }) => first == name,
            _ => false,
        },
{
    law_tags_read_back(file, generation);
    path::law_a_name_is_one_component(file);
    path::law_a_directory_lacks_the_last_component(file, PathStyle::Slash);
    let directory = path::parent_text(file, PathStyle::Slash)->Some_0;
    assert(text::begins(name, '.'));
    let whole = path::components(file, PathStyle::Slash);
    assert(whole[0] is Name);
    assert(path::components(directory, PathStyle::Slash) =~= Seq::empty());
    path::lemma_no_components(directory);
    assert(directory + name =~= name);
}

/// Where a relative import is looked for does not depend on the application, its directory or its
/// dependencies, but on the importing file alone; those decide how far it may reach. It may reach
/// as far as the dependency that the importing file belongs to, or else as far as the application.
pub proof fn law_a_relative_import_depends_on_its_importer_only(
    a: LoadModel,
    b: LoadModel,
    base: Seq<char>,
    name: Seq<char>,
    style: PathStyle,
)
    requires
        name.len() > 0,
        name[0] == '.',
    ensures
        match (found_at(a, base, name, style), found_at(b, base, name, style)) {
            (
                Some(Candidate::Probe { first: p, second: q, boundary }),
                Some(Candidate::Probe { first: s, second: t, .. }),
            ) => {
                &&& p == s
                &&& q == t
                &&& (forall|i: int|
                    0 <= i < a.dependencies.len() ==> !path::under(
                        untagged(base),
                        (#[trigger] a.dependencies[i]).root,
                        style,
                    )) ==> boundary == a.root
                &&& (exists|i: int|
                    0 <= i < a.dependencies.len() && path::under(
                        untagged(base),
                        (#[trigger] a.dependencies[i]).root,
                        style,
                    )) ==> exists|i: int|
                    0 <= i < a.dependencies.len() && (#[trigger] a.dependencies[i]).root == boundary
                        && path::under(untagged(base), boundary, style)
            },
            (None, None) => true,
            _ => false,
        },
{
    assert(text::begins(name, '.'));
    lemma_importing_first(a.dependencies, untagged(base), style);
}

proof fn lemma_importing_first(
    dependencies: Seq<Dependency<Seq<char>>>,
    file: Seq<char>,
    style: PathStyle,
)
    ensures
        match importing(dependencies, file, style) {
            Some(dependency) => exists|i: int|
                0 <= i < dependencies.len() && (#[trigger] dependencies[i]) == dependency
                    && path::under(file, dependencies[i].root, style) && forall|j: int|
                    0 <= j < i ==> !path::under(file, (#[trigger] dependencies[j]).root, style),
            None => forall|i: int|
                0 <= i < dependencies.len() ==> !path::under(
                    file,
                    (#[trigger] dependencies[i]).root,
                    style,
                ),
        },
    decreases dependencies.len(),
{
    if dependencies.len() > 0 {
        let rest = dependencies.skip(1);
        lemma_importing_first(rest, file, style);
        assert forall|i: int| 0 <= i < rest.len() implies rest[i] == dependencies[i + 1] by {}
        if !path::under(file, dependencies[0].root, style) {
            match importing(rest, file, style) {
                Some(dependency) => {
                    let i = choose|i: int|
                        0 <= i < rest.len() && (#[trigger] rest[i]) == dependency && path::under(
                            file,
                            rest[i].root,
                            style,
                        ) && forall|j: int|
                            0 <= j < i ==> !path::under(file, (#[trigger] rest[j]).root, style);
                    assert forall|j: int| 0 <= j < i + 1 implies !path::under(
                        file,
                        (#[trigger] dependencies[j]).root,
                        style,
                    ) by {
                        if j > 0 {
                            assert(rest[j - 1] == dependencies[j]);
                        }
                    }
                    assert(dependencies[i + 1] == dependency);
                },
                None => {
                    assert forall|i: int| 0 <= i < dependencies.len() implies !path::under(
                        file,
                        (#[trigger] dependencies[i]).root,
                        style,
                    ) by {
                        if i > 0 {
                            assert(rest[i - 1] == dependencies[i]);
                        }
                    }
                },
            }
        } else {
            assert(dependencies[0].root == dependencies[0].root);
        }
    }
}

/// A file belongs to the first dependency whose directory it lies in, in the order of their names,
/// and to none where it lies in none's.
pub proof fn law_a_file_belongs_to_the_first_dependency_above_it(
    dependencies: Seq<Dependency<Seq<char>>>,
    file: Seq<char>,
    style: PathStyle,
)
    ensures
        match importing(dependencies, file, style) {
            Some(dependency) => exists|i: int|
                0 <= i < dependencies.len() && (#[trigger] dependencies[i]) == dependency
                    && path::under(file, dependencies[i].root, style) && forall|j: int|
                    0 <= j < i ==> !path::under(file, (#[trigger] dependencies[j]).root, style),
            None => forall|i: int|
                0 <= i < dependencies.len() ==> !path::under(
                    file,
                    (#[trigger] dependencies[i]).root,
                    style,
                ),
        },
{
    lemma_importing_first(dependencies, file, style);
}

/// An import names a dependency where it is the dependency's name, or that name, a slash and more;
/// a longer name that only begins alike names another.
pub proof fn law_a_dependency_is_named_up_to_a_slash(dependency: Seq<char>, more: Seq<char>)
    ensures
        names_dependency(dependency, dependency),
        names_dependency(dependency.push('/') + more, dependency),
        more.len() > 0 && more[0] != '/' ==> !names_dependency(dependency + more, dependency),
{
    let inside = dependency.push('/') + more;
    assert(inside.take(dependency.len() as int) =~= dependency);
    assert(inside.subrange(0, dependency.len() as int) =~= dependency);
    assert(inside.skip(dependency.len() as int)[0] == '/');
    let other = dependency + more;
    if more.len() > 0 {
        assert(other.skip(dependency.len() as int)[0] == more[0]);
        assert(other.len() != dependency.len());
    }
}

proof fn lemma_named_longest(dependencies: Seq<Dependency<Seq<char>>>, name: Seq<char>)
    ensures
        match named(dependencies, name) {
            Some(best) => {
                &&& names_dependency(name, best.name)
                &&& exists|i: int| 0 <= i < dependencies.len() && (#[trigger] dependencies[i]) == best
                &&& forall|i: int|
                    0 <= i < dependencies.len() && names_dependency(
                        name,
                        (#[trigger] dependencies[i]).name,
                    ) ==> text::byte_len(dependencies[i].name) <= text::byte_len(best.name)
            },
            None => forall|i: int|
                0 <= i < dependencies.len() ==> !names_dependency(
                    name,
                    (#[trigger] dependencies[i]).name,
                ),
        },
    decreases dependencies.len(),
{
    if dependencies.len() > 0 {
        let rest = dependencies.drop_last();
        lemma_named_longest(rest, name);
        lemma_named_member(dependencies, name);
        assert forall|i: int| 0 <= i < rest.len() implies rest[i] == dependencies[i] by {}
        match named(dependencies, name) {
            Some(best) => {
                assert forall|i: int|
                    0 <= i < dependencies.len() && names_dependency(
                        name,
                        (#[trigger] dependencies[i]).name,
                    ) implies text::byte_len(dependencies[i].name) <= text::byte_len(
                    best.name,
                ) by {
                    if i < rest.len() {
                        assert(rest[i] == dependencies[i]);
                    }
                }
            },
            None => {
                assert forall|i: int| 0 <= i < dependencies.len() implies !names_dependency(
                    name,
                    (#[trigger] dependencies[i]).name,
                ) by {
                    if i < rest.len() {
                        assert(rest[i] == dependencies[i]);
                    }
                }
            },
        }
    }
}

/// Of the dependencies that an import names, the one with the longest name counts; there is none
/// only where it names none.
pub proof fn law_the_longest_fitting_name_counts(
    dependencies: Seq<Dependency<Seq<char>>>,
    name: Seq<char>,
)
    ensures
        match named(dependencies, name) {
            Some(best) => {
                &&& names_dependency(name, best.name)
                &&& exists|i: int| 0 <= i < dependencies.len() && (#[trigger] dependencies[i]) == best
                &&& forall|i: int|
                    0 <= i < dependencies.len() && names_dependency(
                        name,
                        (#[trigger] dependencies[i]).name,
                    ) ==> text::byte_len(dependencies[i].name) <= text::byte_len(best.name)
            },
            None => forall|i: int|
                0 <= i < dependencies.len() ==> !names_dependency(
                    name,
                    (#[trigger] dependencies[i]).name,
                ),
        },
{
    lemma_named_longest(dependencies, name);
}

/// An import that is a dependency's name is that dependency's entry; one that goes on behind a
/// slash is a file of its directory, the components of the place being those of the directory
/// followed by those of the rest. Either reaches as far as that directory, whoever imports it.
pub proof fn law_an_import_of_a_dependency_leads_into_it(
    application: LoadModel,
    base: Seq<char>,
    dependency: Dependency<Seq<char>>,
    rest: Seq<char>,
    style: PathStyle,
)
    requires
        dependency.name.len() > 0,
        dependency.name[0] != '.',
        path::is_ordinary(dependency.root, style),
        dependency.root.len() > 0,
        path::is_relative(rest, style),
    ensures
        named(application.dependencies, dependency.name) == Some(dependency) ==> found_at(
            application,
            base,
            dependency.name,
            style,
        ) == Some(Candidate::Entry { file: dependency.entry, boundary: dependency.root }),
        named(application.dependencies, dependency.name.push('/') + rest) == Some(dependency)
            ==> match found_at(application, base, dependency.name.push('/') + rest, style) {
            Some(Candidate::Probe { first, second, boundary }) => boundary == dependency.root
                && path::components(first, style) == path::components(dependency.root, style)
                + path::without_dot(path::components(rest, style)),
            _ => false,
        },
{
    let name = dependency.name.push('/') + rest;
    assert(!text::begins(dependency.name, '.'));
    assert(name[0] == dependency.name[0]);
    assert(!text::begins(name, '.'));
    assert(name.len() > dependency.name.len());
    assert(name.skip(dependency.name.len() as int).skip(1) =~= rest);
    path::law_a_relative_name_is_read_from_its_directory(dependency.root, rest, style);
}

/// An import that names no dependency is a file of the application's directory where a module of
/// the application makes it, and nothing where a module of a dependency does.
pub proof fn law_other_imports_are_files_of_the_application(
    application: LoadModel,
    base: Seq<char>,
    name: Seq<char>,
    style: PathStyle,
)
    requires
        path::is_relative(name, style),
        name[0] != '.',
        path::is_ordinary(application.root, style),
        application.root.len() > 0,
        forall|i: int|
            0 <= i < application.dependencies.len() ==> !names_dependency(
                name,
                (#[trigger] application.dependencies[i]).name,
            ),
    ensures
        match found_at(application, base, name, style) {
            Some(Candidate::Probe { first, second, boundary }) => {
                &&& boundary == application.root
                &&& path::components(first, style) == path::components(application.root, style)
                    + path::components(name, style)
                &&& forall|i: int|
                    0 <= i < application.dependencies.len() ==> !path::under(
                        untagged(base),
                        (#[trigger] application.dependencies[i]).root,
                        style,
                    )
            },
            Some(_) => false,
            None => exists|i: int|
                0 <= i < application.dependencies.len() && path::under(
                    untagged(base),
                    (#[trigger] application.dependencies[i]).root,
                    style,
                ),
        },
{
    assert(!text::begins(name, '.'));
    lemma_named_longest(application.dependencies, name);
    lemma_importing_first(application.dependencies, untagged(base), style);
    path::law_a_relative_name_is_read_from_its_directory(application.root, name, style);
    path::lemma_no_dot(name, style);
}

proof fn lemma_owner_deepest(
    applications: Seq<LoadModel>,
    generation: u32,
    file: Seq<char>,
    style: PathStyle,
)
    ensures
        owner_of(applications, generation, file, style) matches Some(at) ==> {
            &&& 0 <= at < applications.len()
            &&& forall|i: int|
                0 <= i < applications.len() && (#[trigger] applications[i]).generation == generation
                    && holds_file(applications[i], file, style) ==> path::depth(
                    applications[i].root,
                    style,
                ) <= path::depth(applications[at].root, style) && (i > at ==> path::depth(
                    applications[i].root,
                    style,
                ) < path::depth(applications[at].root, style))
        },
    decreases applications.len(),
{
    if applications.len() > 0 {
        let rest = applications.drop_last();
        lemma_owner_deepest(rest, generation, file, style);
        lemma_owner(rest, generation, file, style);
        match owner_of(applications, generation, file, style) {
            Some(at) => {
                assert forall|i: int|
                    0 <= i < applications.len() && (#[trigger] applications[i]).generation
                        == generation && holds_file(applications[i], file, style) implies path::depth(
                    applications[i].root,
                    style,
                ) <= path::depth(applications[at].root, style) && (i > at ==> path::depth(
                    applications[i].root,
                    style,
                ) < path::depth(applications[at].root, style)) by {
                    if i < rest.len() {
                        assert(rest[i] == applications[i]);
                    }
                    if at < rest.len() {
                        assert(rest[at] == applications[at]);
                    }
                }
            },
            None => {},
        }
    }
}

/// Of the loads that carry an importing module's tag and hold its file, the one with the deepest
/// directory owns it, and of several such the one registered last.
pub proof fn law_the_deepest_directory_owns_a_module(m: ModulesModel, base: Seq<char>)
    ensures
        application_of(m, base) matches Some(at) ==> {
            &&& 0 <= at < m.applications.len()
            &&& forall|i: int|
                0 <= i < m.applications.len() && Some((#[trigger] m.applications[i]).generation)
                    == tagged(base) && holds_file(m.applications[i], untagged(base), m.style)
                    ==> path::depth(m.applications[i].root, m.style) <= path::depth(
                    m.applications[at].root,
                    m.style,
                ) && (i > at ==> path::depth(m.applications[i].root, m.style) < path::depth(
                    m.applications[at].root,
                    m.style,
                ))
        },
{
    match tagged(base) {
        Some(generation) => {
            lemma_owner_deepest(m.applications, generation, untagged(base), m.style);
        },
        None => {},
    }
}

/// A file belongs to a load where it lies in the directory of the application or of one of its
/// dependencies.
pub proof fn law_a_load_holds_the_files_below_it(
    application: LoadModel,
    file: Seq<char>,
    style: PathStyle,
)
    ensures
        holds_file(application, file, style) <==> path::under(file, application.root, style)
            || exists|i: int|
            0 <= i < application.dependencies.len() && path::under(
                file,
                (#[trigger] application.dependencies[i]).root,
                style,
            ),
{
    lemma_importing_first(application.dependencies, file, style);
}

/// An import whose file lies within what it may reach is that file, with the generation of its load
/// on it; one that lies outside is refused, and so is one that is not found. A dependency's entry is
/// not looked for.
pub proof fn law_an_import_is_the_file_found(
    candidate: Candidate<Seq<char>>,
    generation: u32,
    base: Seq<char>,
    name: Seq<char>,
    found: Option<Seq<char>>,
    builtins: Seq<char>,
    style: PathStyle,
)
    ensures
        ({
            let outcome = import_outcome(
                candidate,
                generation,
                base,
                name,
                found,
                builtins,
                style,
            );
            let target = match candidate {
                Candidate::Entry { file, .. } => Some(file),
                Candidate::Probe { .. } => found,
            };
            match target {
                Some(file) => {
                    &&& outcome is Ok <==> path::under(file, boundary_of(candidate), style)
                    &&& outcome matches Ok(module) ==> untagged(module) == file && tagged(module)
                        == Some(generation)
                    &&& outcome matches Err(error) ==> error == (ScriptError::Escapes {
                        name,
                        boundary: boundary_of(candidate),
                    })
                },
                None => outcome matches Err(error) && match error {
                    ScriptError::UnresolvedBare { name: asked, builtins: listed } => asked == name
                        && listed == builtins && (name.len() == 0 || name[0] != '.')
                        && !name.contains('/'),
                    ScriptError::Unresolved { name: asked, base: importer } => asked == name
                        && importer == base && ((name.len() > 0 && name[0] == '.')
                        || name.contains('/')),
                    _ => false,
                },
            }
        }),
{
    match candidate {
        Candidate::Entry { file, .. } => {
            law_tags_read_back(file, generation);
        },
        Candidate::Probe { .. } => {
            match found {
                Some(file) => {
                    law_tags_read_back(file, generation);
                },
                None => {},
            }
        },
    }
}

/// An import is searched for in the load that owns the importing module, under that load's
/// generation; a module that no load owns imports nothing.
pub proof fn law_a_search_is_made_for_the_owner(
    m: ModulesModel,
    base: Seq<char>,
    name: Seq<char>,
    builtins: Seq<char>,
)
    ensures
        match (searched(m, base, name, builtins), application_of(m, base)) {
            (Ok((candidate, generation)), Some(at)) => {
                &&& tagged(base) == Some(generation)
                &&& found_at(m.applications[at], base, name, m.style) == Some(candidate)
            },
            (Err(error), None) => error == (ScriptError::NoImporter { name, base }),
            (Err(_), Some(at)) => found_at(m.applications[at], base, name, m.style) is None,
            (Ok(_), None) => false,
        },
{
    law_tags_select_their_own_generation(m, base);
}

/// What is looked for second is what is looked for first, with the extension of scripts.
pub proof fn law_scripts_are_looked_for_second(
    application: LoadModel,
    base: Seq<char>,
    name: Seq<char>,
    style: PathStyle,
)
    ensures
        found_at(application, base, name, style) matches Some(
            Candidate::Probe { first, second, .. },
        ) ==> second == path::with_extension_text(first, seq!['j', 's'], style),
{
    reveal_strlit("js");
    assert("js"@ =~= seq!['j', 's']);
}

/// A module has eight mebibytes at most, both where its file is measured and where it was read.
pub proof fn law_a_module_has_a_largest_size(file: Seq<char>, size: u64, source: Seq<char>)
    ensures
        size_outcome(file, size) is Ok <==> size <= 8_388_608,
        growth_outcome(file, source) is Ok <==> text::byte_len(source) <= 8_388_608,
        size_outcome(file, size) matches Err(error) ==> error == (ScriptError::ModuleTooLarge {
            path: file,
            size,
            limit: 8_388_608,
        }),
        growth_outcome(file, source) matches Err(error) ==> error == (ScriptError::ModuleGrew {
            path: file,
            limit: 8_388_608,
        }),
{
}

/// Adding a dependency keeps all others and their order, and there is then exactly the added one
/// under its name.
pub proof fn law_a_dependency_replaces_its_namesake(
    dependencies: Seq<Dependency<Seq<char>>>,
    added: Dependency<Seq<char>>,
    other: Dependency<Seq<char>>,
)
    requires
        by_name(dependencies),
    ensures
        with_dependency(dependencies, added).contains(added),
        other.name != added.name ==> (with_dependency(dependencies, added).contains(other)
            <==> dependencies.contains(other)),
        other.name == added.name && with_dependency(dependencies, added).contains(other) ==> other
            == added,
    decreases dependencies.len(),
{
    let after = with_dependency(dependencies, added);
    if dependencies.len() == 0 {
        assert(after[0] == added);
        assert(after.len() == 1);
    } else {
        let rest = dependencies.skip(1);
        let first = dependencies[0];
        assert forall|i: int| 0 <= i < rest.len() implies rest[i] == dependencies[i + 1] by {}
        assert(dependencies.contains(other) ==> first == other || rest.contains(other)) by {
            if dependencies.contains(other) {
                let i = choose|i: int| 0 <= i < dependencies.len() && dependencies[i] == other;
                if i > 0 {
                    assert(rest[i - 1] == other);
                }
            }
        }
        assert(rest.contains(other) ==> dependencies.contains(other)) by {
            if rest.contains(other) {
                let i = choose|i: int| 0 <= i < rest.len() && rest[i] == other;
                assert(dependencies[i + 1] == other);
            }
        }
        if text::text_before(first.name, added.name) {
            text::lemma_before_total(first.name, first.name);
            assert(by_name(rest)) by {
                assert forall|i: int, j: int| 0 <= i < j < rest.len() implies text::text_before(
                    (#[trigger] rest[i]).name,
                    (#[trigger] rest[j]).name,
                ) by {
                    assert(rest[i] == dependencies[i + 1] && rest[j] == dependencies[j + 1]);
                }
            }
            law_a_dependency_replaces_its_namesake(rest, added, other);
            let tail = with_dependency(rest, added);
            lemma_led(first, tail, added);
            lemma_led(first, tail, other);
            assert(first.name != added.name);
            assert(dependencies[0] == first);
        } else if first.name == added.name {
            lemma_led(added, rest, added);
            lemma_led(added, rest, other);
            assert(rest.contains(other) ==> other.name != added.name) by {
                if rest.contains(other) {
                    let i = choose|i: int| 0 <= i < rest.len() && rest[i] == other;
                    assert(text::text_before(dependencies[0].name, dependencies[i + 1].name));
                    text::lemma_before_total(first.name, first.name);
                }
            }
            assert(dependencies[0] == first);
        } else {
            lemma_led(added, dependencies, added);
            lemma_led(added, dependencies, other);
            assert(dependencies.contains(other) ==> other.name != added.name) by {
                if dependencies.contains(other) && other.name == added.name {
                    let i = choose|i: int| 0 <= i < dependencies.len() && dependencies[i] == other;
                    assert(i > 0);
                    assert(text::text_before(dependencies[0].name, dependencies[i].name));
                }
            }
        }
    }
}

proof fn lemma_led(
    first: Dependency<Seq<char>>,
    tail: Seq<Dependency<Seq<char>>>,
    other: Dependency<Seq<char>>,
)
    ensures
        (seq![first] + tail).contains(other) <==> first == other || tail.contains(other),
{
    let whole = seq![first] + tail;
    if whole.contains(other) {
        let i = choose|i: int| 0 <= i < whole.len() && whole[i] == other;
        if i > 0 {
            assert(tail[i - 1] == other);
        }
    }
    if tail.contains(other) {
        let i = choose|i: int| 0 <= i < tail.len() && tail[i] == other;
        assert(whole[i + 1] == other);
    }
    assert(whole[0] == first);
}

/// The generation of a load is the one it was registered with: that of an application of its number,
/// and there is one while such an application is registered.
pub proof fn law_a_load_has_the_generation_it_was_registered_with(
    applications: Seq<LoadModel>,
    load: u64,
)
    ensures
        generation_of(applications, load) matches Some(generation) ==> exists|i: int|
            0 <= i < applications.len() && (#[trigger] applications[i]).number == load
                && applications[i].generation == generation,
        generation_of(applications, load) is None ==> forall|i: int|
            0 <= i < applications.len() ==> (#[trigger] applications[i]).number != load,
    decreases applications.len(),
{
    if applications.len() > 0 {
        let n = applications.len() - 1;
        if applications[n].number != load {
            let fewer = applications.drop_last();
            law_a_load_has_the_generation_it_was_registered_with(fewer, load);
            if let Some(generation) = generation_of(applications, load) {
                let i = choose|i: int|
                    0 <= i < fewer.len() && (#[trigger] fewer[i]).number == load
                        && fewer[i].generation == generation;
                assert(applications[i] == fewer[i]);
            } else {
                assert forall|i: int| 0 <= i < applications.len() implies (
                #[trigger] applications[i]).number != load by {
                    if i < n {
                        assert(fewer[i] == applications[i]);
                    }
                }
            }
        }
    }
}

} // verus!
