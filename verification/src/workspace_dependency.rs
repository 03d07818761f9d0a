//! The report on the dependencies that several members declare, and the
//! errors of the whole library.

use vstd::prelude::*;
use crate::dependency::{Dependency, DependencyView, Version, VersionView};
use crate::name_map::{NameMap, NameSet};
use crate::package::{dependency_views, package_of_text, Package, PackageView};
use crate::value::{Toml, TomlView};
use crate::workspace::{ManifestRead, ManifestReadView, Workspace};

verus! {

/// Why a workspace could not be examined.
#[derive(Debug, PartialEq)]
pub enum Error {
    /// The `workspace` entry, here with its value, has no array `members`.
    NoMembersInWorkspace(Toml),
    /// The root manifest, here as a value, has no entry `workspace`.
    WorkspaceNotFound(Toml),
    /// The root manifest is no table.
    WorkspaceUnexpectedValue(Toml),
    /// No file or directory is at this path.
    PathNotFound(String),
    /// A file could not be read; the text says why.
    IoError(String),
    /// A manifest is no TOML document; the text says why.
    TomlParse(String),
    /// A dependency's table names none of the forms of a version.
    InvalidVersion(Toml),
    /// A dependency is neither a string nor a table.
    DependencyUnexpectedValue(Toml),
    /// The entry of this name is missing from the table beside it.
    PropertyNotFound(String, Toml),
    /// A member's manifest is no table.
    PackageUnexpectedValue(Toml),
    /// The name of an output format that is not known.
    InvalidOutputFormat(String),
}

/// What an [`Error`] holds.
pub enum ErrorView {
    NoMembersInWorkspace(TomlView),
    WorkspaceNotFound(TomlView),
    WorkspaceUnexpectedValue(TomlView),
    PathNotFound(Seq<char>),
    IoError(Seq<char>),
    TomlParse(Seq<char>),
    InvalidVersion(TomlView),
    DependencyUnexpectedValue(TomlView),
    PropertyNotFound(Seq<char>, TomlView),
    PackageUnexpectedValue(TomlView),
    InvalidOutputFormat(Seq<char>),
}

impl View for Error {
    type V = ErrorView;

    open spec fn view(&self) -> ErrorView {
        match self {
            Error::NoMembersInWorkspace(v) => ErrorView::NoMembersInWorkspace(v@),
            Error::WorkspaceNotFound(v) => ErrorView::WorkspaceNotFound(v@),
            Error::WorkspaceUnexpectedValue(v) => ErrorView::WorkspaceUnexpectedValue(v@),
            Error::PathNotFound(p) => ErrorView::PathNotFound(p@),
            Error::IoError(m) => ErrorView::IoError(m@),
            Error::TomlParse(m) => ErrorView::TomlParse(m@),
            Error::InvalidVersion(v) => ErrorView::InvalidVersion(v@),
            Error::DependencyUnexpectedValue(v) => ErrorView::DependencyUnexpectedValue(v@),
            Error::PropertyNotFound(n, v) => ErrorView::PropertyNotFound(n@, v@),
            Error::PackageUnexpectedValue(v) => ErrorView::PackageUnexpectedValue(v@),
            Error::InvalidOutputFormat(n) => ErrorView::InvalidOutputFormat(n@),
        }
    }
}

/// Whether a table's declaration of `dependency` counts toward the report:
/// one taken from the workspace never does, and where `skip_paths` holds, one
/// given by a path does not either.
pub open spec fn counted(
    table: Map<Seq<char>, DependencyView>,
    skip_paths: bool,
    dependency: Seq<char>,
) -> bool {
    &&& table.contains_key(dependency)
    &&& !(table[dependency].version is Workspace)
    &&& !(skip_paths && table[dependency].version is Path)
}

/// Whether a package counts as one that declares `dependency` on its own.
/// Among its dependencies a path does not count; among its dev-dependencies
/// it does.
pub open spec fn counts(package: PackageView, dependency: Seq<char>) -> bool {
    counted(package.dependencies, true, dependency) || counted(
        package.dev_dependencies,
        false,
        dependency,
    )
}

/// The names of the members that count as declaring `dependency`.
pub open spec fn declarers(members: Seq<(Seq<char>, PackageView)>, dependency: Seq<char>) -> Set<
    Seq<char>,
> {
    Set::new(
        |name: Seq<char>|
            exists|i: int|
                0 <= i < members.len() && (#[trigger] members[i]).0 == name && counts(
                    members[i].1,
                    dependency,
                ),
    )
}

/// Whether `dependency` could move to the workspace: two members or more
/// count as declaring it.
pub open spec fn is_candidate(
    members: Seq<(Seq<char>, PackageView)>,
    dependency: Seq<char>,
) -> bool {
    declarers(members, dependency).len() >= 2
}

/// The packages by the names of their members. Of two members with one name
/// the later is kept.
pub open spec fn retained(members: Seq<(Seq<char>, PackageView)>) -> Map<Seq<char>, PackageView>
    decreases members.len(),
{
    if members.len() == 0 {
        Map::empty()
    } else {
        retained(members.drop_last()).insert(members.last().0, members.last().1)
    }
}

/// The version with which a package declares `dependency`: that among its
/// dependencies, else that among its dev-dependencies.
pub open spec fn declared(package: PackageView, dependency: Seq<char>) -> Option<VersionView> {
    if package.dependencies.contains_key(dependency) {
        Some(package.dependencies[dependency].version)
    } else if package.dev_dependencies.contains_key(dependency) {
        Some(package.dev_dependencies[dependency].version)
    } else {
        None
    }
}

/// The members that declare `dependency` at all, each with its version.
pub open spec fn usage(members: Seq<(Seq<char>, PackageView)>, dependency: Seq<char>) -> Map<
    Seq<char>,
    VersionView,
> {
    Map::new(
        |name: Seq<char>|
            retained(members).contains_key(name) && declared(retained(members)[name], dependency)
                is Some,
        |name: Seq<char>| declared(retained(members)[name], dependency)->0,
    )
}

/// The report: each candidate with the members that declare it.
pub open spec fn report(members: Seq<(Seq<char>, PackageView)>) -> Map<
    Seq<char>,
    Map<Seq<char>, VersionView>,
> {
    Map::new(
        |dependency: Seq<char>| is_candidate(members, dependency),
        |dependency: Seq<char>| usage(members, dependency),
    )
}

/// The names of all members.
pub open spec fn member_names(members: Seq<(Seq<char>, PackageView)>) -> Seq<Seq<char>> {
    Seq::new(members.len(), |i: int| members[i].0)
}

/// The members that count as declaring a dependency are finitely many.
pub proof fn lemma_declarers_finite(members: Seq<(Seq<char>, PackageView)>, dependency: Seq<char>)
    ensures
        declarers(members, dependency).finite(),
        declarers(members, dependency).len() <= members.len(),
{
    let names = member_names(members);
    let all = names.to_set();
    let found = declarers(members, dependency);
    assert forall|name: Seq<char>| found.contains(name) implies all.contains(name) by {
        let i = choose|i: int|
            0 <= i < members.len() && (#[trigger] members[i]).0 == name && counts(
                members[i].1,
                dependency,
            );
        assert(names[i] == name);
    }
    assert(found.subset_of(all));
    vstd::set_lib::lemma_set_subset_finite(all, found);
    vstd::set_lib::lemma_len_subset(found, all);
    names.lemma_cardinality_of_set();
}

/// Members that do not count as declaring a dependency do not make it a
/// candidate.
pub proof fn lemma_uncounted_is_no_candidate(
    members: Seq<(Seq<char>, PackageView)>,
    dependency: Seq<char>,
)
    requires
        forall|i: int| 0 <= i < members.len() ==> !counts((#[trigger] members[i]).1, dependency),
    ensures
        declarers(members, dependency) == Set::<Seq<char>>::empty(),
        !report(members).contains_key(dependency),
{
    assert(declarers(members, dependency) =~= Set::<Seq<char>>::empty());
}

/// A dependency that one member alone declares is not in the report,
/// whatever the form of its version: where all the members that declare a
/// dependency in either table have one name, it is no candidate.
pub proof fn lemma_single_declarer_not_reported(
    members: Seq<(Seq<char>, PackageView)>,
    dependency: Seq<char>,
)
    requires
        forall|i: int, j: int|
            0 <= i < members.len() && 0 <= j < members.len() && declared(
                (#[trigger] members[i]).1,
                dependency,
            ) is Some && declared((#[trigger] members[j]).1, dependency) is Some ==> members[i].0
                == members[j].0,
    ensures
        !report(members).contains_key(dependency),
{
    let found = declarers(members, dependency);
    lemma_declarers_finite(members, dependency);
    if found.len() >= 2 {
        let name = found.choose();
        assert(found.contains(name));
        let i = choose|i: int|
            0 <= i < members.len() && (#[trigger] members[i]).0 == name && counts(
                members[i].1,
                dependency,
            );
        assert forall|other: Seq<char>| found.contains(other) implies other == name by {
            let j = choose|j: int|
                0 <= j < members.len() && (#[trigger] members[j]).0 == other && counts(
                    members[j].1,
                    dependency,
                );
            assert(declared(members[i].1, dependency) is Some);
            assert(declared(members[j].1, dependency) is Some);
        }
        assert(found =~= set![name]);
    }
}

/// Two members of different names that count as declaring a dependency make
/// it a candidate, whatever the other members declare; the report then lists
/// every member that declares it at all.
pub proof fn lemma_two_declarers_reported(
    members: Seq<(Seq<char>, PackageView)>,
    dependency: Seq<char>,
    i: int,
    j: int,
)
    requires
        0 <= i < members.len(),
        0 <= j < members.len(),
        members[i].0 != members[j].0,
        counts(members[i].1, dependency),
        counts(members[j].1, dependency),
    ensures
        report(members).contains_key(dependency),
        report(members)[dependency] == usage(members, dependency),
{
    let found = declarers(members, dependency);
    let two = set![members[i].0, members[j].0];
    lemma_declarers_finite(members, dependency);
    assert(found.contains(members[i].0));
    assert(found.contains(members[j].0));
    assert(two.subset_of(found));
    vstd::set_lib::lemma_len_subset(two, found);
    assert(two.len() == 2);
}

/// A dependency is in the report only where two members of different names
/// count as declaring it.
pub proof fn lemma_reported_has_two_declarers(
    members: Seq<(Seq<char>, PackageView)>,
    dependency: Seq<char>,
)
    requires
        report(members).contains_key(dependency),
    ensures
        exists|i: int, j: int|
            0 <= i < members.len() && 0 <= j < members.len() && (#[trigger] members[i]).0 != (
            #[trigger] members[j]).0 && counts(members[i].1, dependency) && counts(
                members[j].1,
                dependency,
            ),
{
    let found = declarers(members, dependency);
    lemma_declarers_finite(members, dependency);
    let first = found.choose();
    assert(found.contains(first));
    let rest = found.remove(first);
    assert(rest.len() >= 1);
    let second = rest.choose();
    assert(rest.contains(second));
    let i = choose|i: int|
        0 <= i < members.len() && (#[trigger] members[i]).0 == first && counts(
            members[i].1,
            dependency,
        );
    let j = choose|j: int|
        0 <= j < members.len() && (#[trigger] members[j]).0 == second && counts(
            members[j].1,
            dependency,
        );
    assert(members[i].0 != members[j].0);
}

/// A declaration that is taken from the workspace does not count, in either
/// table; a path counts among the dev-dependencies alone.
pub proof fn lemma_inherited_does_not_count(
    table: Map<Seq<char>, DependencyView>,
    skip_paths: bool,
    dependency: Seq<char>,
)
    requires
        table.contains_key(dependency),
    ensures
        table[dependency].version is Workspace ==> !counted(table, skip_paths, dependency),
        table[dependency].version is Path ==> (counted(table, skip_paths, dependency)
            <==> !skip_paths),
        table[dependency].version is Value || table[dependency].version is GitBranch ==> counted(
            table,
            skip_paths,
            dependency,
        ),
{
}

/// Whether a package takes `dependency` from the workspace wherever it
/// declares it.
pub open spec fn inherits(package: PackageView, dependency: Seq<char>) -> bool {
    &&& package.dependencies.contains_key(dependency)
        ==> package.dependencies[dependency].version is Workspace
    &&& package.dev_dependencies.contains_key(dependency)
        ==> package.dev_dependencies[dependency].version is Workspace
}

/// Where every member takes from the workspace each dependency that it
/// declares, the report is empty.
pub proof fn lemma_all_inherited_reports_nothing(members: Seq<(Seq<char>, PackageView)>)
    requires
        forall|i: int, d: Seq<char>|
            0 <= i < members.len() ==> #[trigger] inherits(members[i].1, d),
    ensures
        report(members) == Map::<Seq<char>, Map<Seq<char>, VersionView>>::empty(),
{
    assert forall|d: Seq<char>| !report(members).contains_key(d) by {
        assert forall|i: int| 0 <= i < members.len() implies !counts(
            (#[trigger] members[i]).1,
            d,
        ) by {
            assert(inherits(members[i].1, d));
        }
        lemma_uncounted_is_no_candidate(members, d);
    }
}

/// The sets of a map of sets, each as the names it holds.
spec fn set_views(sets: Map<Seq<char>, NameSet>) -> Map<Seq<char>, Set<Seq<char>>> {
    sets.map_values(|s: NameSet| s@)
}

/// `sets` with `name` added to the set under each key of `keys`.
spec fn add_all(sets: Map<Seq<char>, Set<Seq<char>>>, name: Seq<char>, keys: Set<Seq<char>>) -> Map<
    Seq<char>,
    Set<Seq<char>>,
> {
    Map::new(
        |k: Seq<char>| sets.contains_key(k) || keys.contains(k),
        |k: Seq<char>|
            {
                let base = if sets.contains_key(k) {
                    sets[k]
                } else {
                    Set::empty()
                };
                if keys.contains(k) {
                    base.insert(name)
                } else {
                    base
                }
            },
    )
}

/// For each dependency that some member counts as declaring, those members.
spec fn declarer_map(members: Seq<(Seq<char>, PackageView)>) -> Map<Seq<char>, Set<Seq<char>>> {
    Map::new(
        |d: Seq<char>| exists|i: int| 0 <= i < members.len() && counts((#[trigger] members[i]).1, d),
        |d: Seq<char>| declarers(members, d),
    )
}

/// Records that `member` counts as declaring `dependency`.
fn note(declared_by: &mut NameMap<NameSet>, dependency: &str, member: &str)
    ensures
        set_views(final(declared_by)@) == add_all(
            set_views(old(declared_by)@),
            member@,
            set![dependency@],
        ),
{
    let mut set = match declared_by.remove(dependency) {
        Some(set) => set,
        None => NameSet::new(),
    };
    set.insert(member.to_owned());
    declared_by.insert(dependency.to_owned(), set);
}

/// Records `member` for each dependency of `table` that counts.
fn note_table(
    declared_by: &mut NameMap<NameSet>,
    table: &NameMap<Dependency>,
    member: &str,
    skip_paths: bool,
)
    ensures
        set_views(final(declared_by)@) == add_all(
            set_views(old(declared_by)@),
            member@,
            Set::new(|d: Seq<char>| counted(dependency_views(table@), skip_paths, d)),
        ),
{
    let entries = table.entries();
    let ghost start = set_views(declared_by@);
    let ghost views = dependency_views(table@);
    let mut j: usize = 0;
    while j < entries.len()
        invariant
            j <= entries.len(),
            entries@ == table.pairs(),
            table.well_formed(),
            views == dependency_views(table@),
            set_views(declared_by@) == add_all(
                start,
                member@,
                Set::new(
                    |d: Seq<char>| counted(views, skip_paths, d) && table.names().index_of(d) < j,
                ),
            ),
        decreases entries.len() - j,
    {
        let ghost key = entries@[j as int].0@;
        proof {
            table.lemma_entry(j as int);
            assert forall|d: Seq<char>| views.contains_key(d) && d != key implies table.names().index_of(
                d,
            ) != j by {
                table.lemma_place(d);
            }
        }
        let skipped = match &entries[j].1.version {
            Version::Workspace => true,
            Version::Path(_) => skip_paths,
            _ => false,
        };
        if !skipped {
            note(declared_by, entries[j].0.as_str(), member);
        }
        j += 1;
    }
    proof {
        let seen = Set::new(
            |d: Seq<char>| counted(views, skip_paths, d) && table.names().index_of(d) < j,
        );
        let all = Set::new(|d: Seq<char>| counted(dependency_views(table@), skip_paths, d));
        assert forall|d: Seq<char>| all.contains(d) implies seen.contains(d) by {
            table.lemma_place(d);
        }
    }
}

/// The members, each as its name and what its package holds.
pub open spec fn member_views(members: Seq<(String, Package)>) -> Seq<(Seq<char>, PackageView)> {
    Seq::new(members.len(), |i: int| (members[i].0@, members[i].1@))
}

/// A map of versions with each version as what it holds.
pub open spec fn version_views(versions: Map<Seq<char>, Version>) -> Map<Seq<char>, VersionView> {
    versions.map_values(|v: Version| v@)
}

/// The report's map with each version as what it holds.
pub open spec fn usage_views(found: Map<Seq<char>, NameMap<Version>>) -> Map<
    Seq<char>,
    Map<Seq<char>, VersionView>,
> {
    found.map_values(|u: NameMap<Version>| version_views(u@))
}

/// The dependencies that could move to the workspace.
#[derive(Debug)]
pub struct WorkspaceDependency {
    /// The directory of the workspace.
    pub workspace_path: String,
    /// Each candidate, with the members that declare it and the version that
    /// each of them gives.
    pub dependency_project_and_version: NameMap<NameMap<Version>>,
}

/// What a [`WorkspaceDependency`] holds.
pub struct WorkspaceDependencyView {
    pub workspace_path: Seq<char>,
    pub dependency_project_and_version: Map<Seq<char>, Map<Seq<char>, VersionView>>,
}

impl View for WorkspaceDependency {
    type V = WorkspaceDependencyView;

    open spec fn view(&self) -> WorkspaceDependencyView {
        WorkspaceDependencyView {
            workspace_path: self.workspace_path@,
            dependency_project_and_version: usage_views(self.dependency_project_and_version@),
        }
    }
}

/// The version with which `package` declares `dependency`, if it does.
fn declared_version<'a>(package: &'a Package, dependency: &str) -> (r: Option<&'a Version>)
    ensures
        match declared(package@, dependency@) {
            Some(v) => r matches Some(x) && x@ == v,
            None => r is None,
        },
{
    match package.dependencies.get(dependency) {
        Some(found) => Some(&found.version),
        None => match package.dev_dependencies.get(dependency) {
            Some(found) => Some(&found.version),
            None => None,
        },
    }
}

/// The members that declare `dependency`, each with its version.
fn usage_of(members: &Vec<(String, Package)>, dependency: &str) -> (r: NameMap<Version>)
    ensures
        version_views(r@) == usage(member_views(members@), dependency@),
{
    let ghost all = member_views(members@);
    let mut found: NameMap<Version> = NameMap::new();
    let mut i: usize = 0;
    while i < members.len()
        invariant
            i <= members.len(),
            all == member_views(members@),
            version_views(found@) == usage(all.take(i as int), dependency@),
        decreases members.len() - i,
    {
        assert(all.take(i + 1).drop_last() =~= all.take(i as int));
        let ghost before = found@;
        match declared_version(&members[i].1, dependency) {
            Some(version) => {
                found.insert(members[i].0.clone(), version.clone());
                assert(version_views(found@) =~= version_views(before).insert(
                    all[i as int].0,
                    version@,
                ));
            },
            None => {
                found.remove(members[i].0.as_str());
                assert(version_views(found@) =~= version_views(before).remove(all[i as int].0));
            },
        }
        i += 1;
    }
    assert(all.take(i as int) =~= all);
    found
}

/// For each dependency that some member counts as declaring, those members.
fn declarers_of(members: &Vec<(String, Package)>) -> (r: NameMap<NameSet>)
    ensures
        set_views(r@) == declarer_map(member_views(members@)),
{
    let ghost all = member_views(members@);
    let mut declared_by: NameMap<NameSet> = NameMap::new();
    let mut i: usize = 0;
    while i < members.len()
        invariant
            i <= members.len(),
            all == member_views(members@),
            set_views(declared_by@) == declarer_map(all.take(i as int)),
        decreases members.len() - i,
    {
        let name = members[i].0.as_str();
        let package = &members[i].1;
        note_table(&mut declared_by, &package.dependencies, name, true);
        note_table(&mut declared_by, &package.dev_dependencies, name, false);
        proof {
            lemma_declarer_map_step(all, i as int);
        }
        i += 1;
    }
    assert(all.take(i as int) =~= all);
    declared_by
}

/// What one more member adds to the declarers.
proof fn lemma_declarer_map_step(members: Seq<(Seq<char>, PackageView)>, i: int)
    requires
        0 <= i < members.len(),
    ensures
        declarer_map(members.take(i + 1)) == add_all(
            add_all(
                declarer_map(members.take(i)),
                members[i].0,
                Set::new(|d: Seq<char>| counted(members[i].1.dependencies, true, d)),
            ),
            members[i].0,
            Set::new(|d: Seq<char>| counted(members[i].1.dev_dependencies, false, d)),
        ),
{
    let before = members.take(i);
    let after = members.take(i + 1);
    let stepped = add_all(
        add_all(
            declarer_map(before),
            members[i].0,
            Set::new(|d: Seq<char>| counted(members[i].1.dependencies, true, d)),
        ),
        members[i].0,
        Set::new(|d: Seq<char>| counted(members[i].1.dev_dependencies, false, d)),
    );
    assert(after[i] == members[i]);
    assert forall|k: int| 0 <= k < i implies #[trigger] before[k] == after[k] by {}
    assert forall|d: Seq<char>| declarer_map(after).contains_key(d) implies #[trigger] declarer_map(
        after,
    )[d] =~= stepped[d] by {}
    assert(declarer_map(after) =~= stepped);
}

/// A member of a workspace with what came of reading its manifest.
#[derive(Debug, PartialEq, Eq)]
pub struct MemberManifest {
    /// The name of the member.
    pub name: String,
    /// The path of its manifest.
    pub path: String,
    /// What came of reading that file.
    pub manifest: ManifestRead,
}

/// What a [`MemberManifest`] holds.
pub struct MemberManifestView {
    pub name: Seq<char>,
    pub path: Seq<char>,
    pub manifest: ManifestReadView,
}

impl View for MemberManifest {
    type V = MemberManifestView;

    open spec fn view(&self) -> MemberManifestView {
        MemberManifestView { name: self.name@, path: self.path@, manifest: self.manifest@ }
    }
}

/// The members with what came of reading their manifests, each as what it
/// holds.
pub open spec fn manifest_views(manifests: Seq<MemberManifest>) -> Seq<MemberManifestView> {
    Seq::new(manifests.len(), |i: int| manifests[i]@)
}

/// The package of one member: a manifest that is missing or cannot be read is
/// an error, and so is one that describes no package.
pub open spec fn package_of_member(member: MemberManifestView) -> Result<PackageView, ErrorView> {
    match member.manifest {
        ManifestReadView::Missing => Err(ErrorView::PathNotFound(member.path)),
        ManifestReadView::Unreadable(message) => Err(ErrorView::IoError(message)),
        ManifestReadView::Text(text) => package_of_text(text),
    }
}

/// The packages of the members, each under its member's name. The first
/// member without a package decides the error.
pub open spec fn packages_of(manifests: Seq<MemberManifestView>) -> Result<
    Seq<(Seq<char>, PackageView)>,
    ErrorView,
>
    decreases manifests.len(),
{
    if manifests.len() == 0 {
        Ok(Seq::empty())
    } else {
        match packages_of(manifests.drop_last()) {
            Err(e) => Err(e),
            Ok(packages) => match package_of_member(manifests.last()) {
                Err(e) => Err(e),
                Ok(package) => Ok(packages.push((manifests.last().name, package))),
            },
        }
    }
}

/// What [`WorkspaceDependency::try_from`] returns.
pub open spec fn report_of(
    workspace_path: Seq<char>,
    manifests: Seq<MemberManifestView>,
) -> Result<WorkspaceDependencyView, ErrorView> {
    match packages_of(manifests) {
        Ok(members) => Ok(
            WorkspaceDependencyView {
                workspace_path,
                dependency_project_and_version: report(members),
            },
        ),
        Err(e) => Err(e),
    }
}

/// Once the first `n` members fail, all of them fail in the same way.
proof fn lemma_failure_stays(manifests: Seq<MemberManifestView>, n: int)
    requires
        0 <= n <= manifests.len(),
        packages_of(manifests.take(n)) is Err,
    ensures
        packages_of(manifests) == packages_of(manifests.take(n)),
    decreases manifests.len() - n,
{
    if n < manifests.len() {
        assert(manifests.take(n + 1).drop_last() =~= manifests.take(n));
        lemma_failure_stays(manifests, n + 1);
    } else {
        assert(manifests.take(n) =~= manifests);
    }
}

impl WorkspaceDependency {
    /// Finds the candidates among the dependencies of `members`, which are
    /// the packages of a workspace, each under its member's name.
    pub fn from_packages(workspace_path: String, members: &Vec<(String, Package)>) -> (r: Self)
        ensures
            r@ == (WorkspaceDependencyView {
                workspace_path: workspace_path@,
                dependency_project_and_version: report(member_views(members@)),
            }),
    {
        let ghost all = member_views(members@);
        let declared_by = declarers_of(members);
        let entries = declared_by.entries();
        let mut found: NameMap<NameMap<Version>> = NameMap::new();
        let mut k: usize = 0;
        while k < entries.len()
            invariant
                k <= entries.len(),
                entries@ == declared_by.pairs(),
                declared_by.well_formed(),
                all == member_views(members@),
                set_views(declared_by@) == declarer_map(all),
                usage_views(found@) == Map::new(
                    |d: Seq<char>|
                        is_candidate(all, d) && declared_by@.contains_key(d)
                            && declared_by.names().index_of(d) < k,
                    |d: Seq<char>| usage(all, d),
                ),
            decreases entries.len() - k,
        {
            let ghost before = usage_views(found@);
            let ghost key = entries@[k as int].0@;
            proof {
                declared_by.lemma_entry(k as int);
                assert(set_views(declared_by@)[key] == entries@[k as int].1@);
                assert forall|d: Seq<char>| declared_by@.contains_key(d) && d
                    != key implies declared_by.names().index_of(d) != k by {
                    declared_by.lemma_place(d);
                }
            }
            if entries[k].1.len() > 1 {
                let members_of = usage_of(members, entries[k].0.as_str());
                found.insert(entries[k].0.clone(), members_of);
                assert(usage_views(found@) =~~= before.insert(key, usage(all, key)));
            }
            k += 1;
        }
        proof {
            assert forall|d: Seq<char>| is_candidate(all, d) implies declared_by@.contains_key(d)
                && declared_by.names().index_of(d) < k by {
                lemma_declarers_finite(all, d);
                let n = declarers(all, d).choose();
                assert(declarers(all, d).contains(n));
                let i = choose|i: int|
                    0 <= i < all.len() && (#[trigger] all[i]).0 == n && counts(all[i].1, d);
                assert(declarer_map(all).contains_key(d));
                declared_by.lemma_place(d);
            }
            assert(usage_views(found@) =~~= report(all));
        }
        WorkspaceDependency { workspace_path, dependency_project_and_version: found }
    }

    /// Reads the packages of the members of `workspace` and finds the
    /// candidates among their dependencies. The first member whose manifest is
    /// missing, cannot be read or describes no package ends the work with its
    /// error.
    pub fn try_from(workspace: Workspace, manifests: Vec<MemberManifest>) -> (r: Result<
        Self,
        Error,
    >)
        ensures
            match report_of(workspace.workspace_path@, manifest_views(manifests@)) {
                Ok(found) => r matches Ok(x) && x@ == found,
                Err(e) => r matches Err(x) && x@ == e,
            },
    {
        let ghost all = manifest_views(manifests@);
        let mut members: Vec<(String, Package)> = Vec::new();
        let mut i: usize = 0;
        assert(member_views(members@) =~= Seq::empty());
        while i < manifests.len()
            invariant
                i <= manifests.len(),
                all == manifest_views(manifests@),
                packages_of(all.take(i as int)) == Ok::<Seq<(Seq<char>, PackageView)>, ErrorView>(
                    member_views(members@),
                ),
            decreases manifests.len() - i,
        {
            let ghost before = member_views(members@);
            assert(all.take(i + 1).drop_last() =~= all.take(i as int));
            let member = &manifests[i];
            let read = match &member.manifest {
                ManifestRead::Missing => Err(Error::PathNotFound(member.path.clone())),
                ManifestRead::Unreadable(message) => Err(Error::IoError(message.clone())),
                ManifestRead::Text(text) => Package::try_from(text.as_str()),
            };
            match read {
                Ok(package) => {
                    members.push((member.name.clone(), package));
                    assert(member_views(members@) =~= before.push((member.name@, package@)));
                },
                Err(e) => {
                    proof {
                        lemma_failure_stays(all, i + 1);
                    }
                    return Err(e);
                },
            }
            i += 1;
        }
        assert(all.take(i as int) =~= all);
        Ok(WorkspaceDependency::from_packages(workspace.workspace_path, &members))
    }
}

} // verus!
