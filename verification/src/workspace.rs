//! The workspace: its root manifest, its members, and where their manifests
//! are.

use vstd::prelude::*;
use crate::dependency::{Dependency, DependencyView};
use crate::name_map::NameMap;
use crate::package::{dependencies_under, dependency_views, read_dependencies};
use crate::text::{glob_prefix, is_glob, join_path, joined, split_glob};
use crate::value::{parsed, Toml, TomlView};
use crate::workspace_dependency::{Error, ErrorView};

verus! {

/// The name of the manifest in the directory of a workspace or of a member.
pub const CARGO_TOML: &'static str = "Cargo.toml";

/// What came of reading a manifest file.
#[derive(Debug, PartialEq, Eq)]
pub enum ManifestRead {
    /// No file is there.
    Missing,
    /// The file is there and could not be read; the text says why.
    Unreadable(String),
    /// The text of the file.
    Text(String),
}

/// What a [`ManifestRead`] holds.
pub enum ManifestReadView {
    Missing,
    Unreadable(Seq<char>),
    Text(Seq<char>),
}

impl View for ManifestRead {
    type V = ManifestReadView;

    open spec fn view(&self) -> ManifestReadView {
        match self {
            ManifestRead::Missing => ManifestReadView::Missing,
            ManifestRead::Unreadable(m) => ManifestReadView::Unreadable(m@),
            ManifestRead::Text(t) => ManifestReadView::Text(t@),
        }
    }
}

/// What came of listing a directory.
#[derive(Debug, PartialEq, Eq)]
pub enum DirectoryRead {
    /// The directory could not be read; the text says why.
    Unreadable(String),
    /// The entries of the directory, each by its path.
    Entries(Vec<String>),
}

/// What a [`DirectoryRead`] holds.
pub enum DirectoryReadView {
    Unreadable(Seq<char>),
    Entries(Seq<Seq<char>>),
}

impl View for DirectoryRead {
    type V = DirectoryReadView;

    open spec fn view(&self) -> DirectoryReadView {
        match self {
            DirectoryRead::Unreadable(m) => DirectoryReadView::Unreadable(m@),
            DirectoryRead::Entries(entries) => DirectoryReadView::Entries(texts(entries@)),
        }
    }
}

/// A workspace as its root manifest describes it.
#[derive(Debug)]
pub struct Workspace {
    /// The members as the manifest lists them: a directory each, or, ending
    /// in `/*`, all entries of a directory.
    pub members: Vec<String>,
    /// The dependencies that the workspace offers to its members.
    pub dependencies: NameMap<Dependency>,
    /// The directory of the workspace.
    pub workspace_path: String,
}

/// What a [`Workspace`] holds.
pub struct WorkspaceView {
    pub members: Seq<Seq<char>>,
    pub dependencies: Map<Seq<char>, DependencyView>,
    pub workspace_path: Seq<char>,
}

/// The strings of a list of names.
pub open spec fn texts(names: Seq<String>) -> Seq<Seq<char>> {
    Seq::new(names.len(), |i: int| names[i]@)
}

/// The pairs of strings of a list of pairs.
pub open spec fn text_pairs(pairs: Seq<(String, String)>) -> Seq<(Seq<char>, Seq<char>)> {
    Seq::new(pairs.len(), |i: int| (pairs[i].0@, pairs[i].1@))
}

/// A list of listings, each as what it holds.
pub open spec fn listing_views(listings: Seq<DirectoryRead>) -> Seq<DirectoryReadView> {
    Seq::new(listings.len(), |i: int| listings[i]@)
}

impl View for Workspace {
    type V = WorkspaceView;

    open spec fn view(&self) -> WorkspaceView {
        WorkspaceView {
            members: texts(self.members@),
            dependencies: dependency_views(self.dependencies@),
            workspace_path: self.workspace_path@,
        }
    }
}

impl Default for Workspace {
    /// A workspace without members, dependencies or path.
    fn default() -> (r: Self)
        ensures
            r@ == (WorkspaceView {
                members: Seq::empty(),
                dependencies: Map::empty(),
                workspace_path: Seq::empty(),
            }),
    {
        let r = Workspace {
            members: Vec::new(),
            dependencies: NameMap::new(),
            workspace_path: String::new(),
        };
        assert(r@.members =~= Seq::empty());
        assert(r@.dependencies =~= Map::empty());
        r
    }
}

/// The strings among the items of an array, in its order.
pub open spec fn strings_among(items: Seq<TomlView>) -> Seq<Seq<char>>
    decreases items.len(),
{
    if items.len() == 0 {
        Seq::empty()
    } else {
        match items.last() {
            TomlView::String(s) => strings_among(items.drop_last()).push(s),
            _ => strings_among(items.drop_last()),
        }
    }
}

/// The workspace at `path` that a root manifest describes.
///
/// The manifest is a table with an entry `workspace`, which holds an array
/// `members`; of that array the strings count. A table `dependencies` beside
/// `members` is read as a member's is.
pub open spec fn workspace_of(path: Seq<char>, manifest: TomlView) -> Result<
    WorkspaceView,
    ErrorView,
> {
    if !(manifest is Table) {
        Err(ErrorView::WorkspaceUnexpectedValue(manifest))
    } else if manifest.get("workspace"@) is None {
        Err(ErrorView::WorkspaceNotFound(manifest))
    } else {
        let workspace = manifest.get("workspace"@)->0;
        match workspace.get("members"@) {
            Some(TomlView::Array(items)) => match dependencies_under(workspace, "dependencies"@) {
                Ok(dependencies) => Ok(
                    WorkspaceView {
                        members: strings_among(items),
                        dependencies,
                        workspace_path: path,
                    },
                ),
                Err(e) => Err(e),
            },
            _ => Err(ErrorView::NoMembersInWorkspace(workspace)),
        }
    }
}

/// The workspace at `path`, given whether that directory exists and what came
/// of reading the manifest in it.
pub open spec fn workspace_of_read(
    path: Seq<char>,
    root_exists: bool,
    manifest: ManifestReadView,
) -> Result<WorkspaceView, ErrorView> {
    if !root_exists {
        Err(ErrorView::PathNotFound(path))
    } else {
        match manifest {
            ManifestReadView::Missing => Err(ErrorView::PathNotFound(joined(path, CARGO_TOML@))),
            ManifestReadView::Unreadable(message) => Err(ErrorView::IoError(message)),
            ManifestReadView::Text(text) => match parsed(text) {
                Ok(document) => workspace_of(path, document),
                Err(e) => Err(e),
            },
        }
    }
}

/// How many of the members end in `/*`.
pub open spec fn glob_count(members: Seq<Seq<char>>) -> nat
    decreases members.len(),
{
    if members.len() == 0 {
        0
    } else if is_glob(members.last()) {
        glob_count(members.drop_last()) + 1
    } else {
        glob_count(members.drop_last())
    }
}

/// The directories that the members ending in `/*` name, in the members'
/// order: what stands before the `/*`, below the workspace.
pub open spec fn glob_directories(root: Seq<char>, members: Seq<Seq<char>>) -> Seq<Seq<char>>
    decreases members.len(),
{
    if members.len() == 0 {
        Seq::empty()
    } else if is_glob(members.last()) {
        glob_directories(root, members.drop_last()).push(
            joined(root, glob_prefix(members.last())),
        )
    } else {
        glob_directories(root, members.drop_last())
    }
}

/// What a member ending in `/*` stands for, given the entries of its
/// directory: each entry under its own path as name, with the manifest in it.
pub open spec fn expansion(children: Seq<Seq<char>>) -> Seq<(Seq<char>, Seq<char>)> {
    Seq::new(children.len(), |i: int| (children[i], joined(children[i], CARGO_TOML@)))
}

/// What one member stands for. `listing` is the place of its directory among
/// those of [`glob_directories`]. A directory that could not be read is an
/// error; one without a listing has no entry.
pub open spec fn member_entries(
    root: Seq<char>,
    member: Seq<char>,
    listing: int,
    listings: Seq<DirectoryReadView>,
) -> Result<Seq<(Seq<char>, Seq<char>)>, ErrorView> {
    if !is_glob(member) {
        Ok(seq![(member, joined(joined(root, member), CARGO_TOML@))])
    } else if 0 <= listing < listings.len() {
        match listings[listing] {
            DirectoryReadView::Entries(children) => Ok(expansion(children)),
            DirectoryReadView::Unreadable(message) => Err(ErrorView::IoError(message)),
        }
    } else {
        Ok(Seq::empty())
    }
}

/// The members of a workspace, each with its name and the path of its
/// manifest, in the order of the root manifest. `listings` holds what came of
/// listing each directory of [`glob_directories`], in that order. The first
/// member whose directory could not be read decides the error.
pub open spec fn resolved(
    root: Seq<char>,
    members: Seq<Seq<char>>,
    listings: Seq<DirectoryReadView>,
) -> Result<Seq<(Seq<char>, Seq<char>)>, ErrorView>
    decreases members.len(),
{
    if members.len() == 0 {
        Ok(Seq::empty())
    } else {
        match resolved(root, members.drop_last(), listings) {
            Err(e) => Err(e),
            Ok(before) => match member_entries(
                root,
                members.last(),
                glob_count(members.drop_last()) as int,
                listings,
            ) {
                Err(e) => Err(e),
                Ok(entries) => Ok(before + entries),
            },
        }
    }
}

/// A workspace whose one member ends in `/*` has one member for each entry of
/// that directory, and the manifest of each is the entry joined with the
/// manifest's name.
pub proof fn lemma_glob_expands_to_children(
    root: Seq<char>,
    member: Seq<char>,
    children: Seq<Seq<char>>,
)
    requires
        is_glob(member),
    ensures
        glob_directories(root, seq![member]) == seq![joined(root, glob_prefix(member))],
        resolved(root, seq![member], seq![DirectoryReadView::Entries(children)]) matches Ok(found)
            && found.len() == children.len() && forall|i: int|
            0 <= i < children.len() ==> #[trigger] found[i] == (
                children[i],
                joined(children[i], CARGO_TOML@),
            ),
{
    let members = seq![member];
    let listings = seq![DirectoryReadView::Entries(children)];
    assert(glob_directories(root, members.drop_last()) =~= Seq::empty());
    assert(resolved(root, members.drop_last(), listings) == Ok::<
        Seq<(Seq<char>, Seq<char>)>,
        ErrorView,
    >(Seq::empty()));
}

/// Once the first `n` members fail, all of them fail in the same way.
proof fn lemma_unreadable_stays(
    root: Seq<char>,
    members: Seq<Seq<char>>,
    listings: Seq<DirectoryReadView>,
    n: int,
)
    requires
        0 <= n <= members.len(),
        resolved(root, members.take(n), listings) is Err,
    ensures
        resolved(root, members, listings) == resolved(root, members.take(n), listings),
    decreases members.len() - n,
{
    if n < members.len() {
        assert(members.take(n + 1).drop_last() =~= members.take(n));
        lemma_unreadable_stays(root, members, listings, n + 1);
    } else {
        assert(members.take(n) =~= members);
    }
}

impl Workspace {
    /// Reads a workspace from its root manifest, given as a value.
    pub fn from_document(workspace_path: String, manifest: &Toml) -> (r: Result<Workspace, Error>)
        ensures
            match workspace_of(workspace_path@, manifest@) {
                Ok(workspace) => r matches Ok(x) && x@ == workspace,
                Err(e) => r matches Err(x) && x@ == e,
            },
    {
        if let Toml::Table(_) = manifest {
        } else {
            return Err(Error::WorkspaceUnexpectedValue(manifest.clone()));
        }
        let workspace = match manifest.get("workspace") {
            Some(workspace) => workspace,
            None => {
                return Err(Error::WorkspaceNotFound(manifest.clone()));
            },
        };
        let items = match workspace.get("members") {
            Some(Toml::Array(items)) => items,
            _ => {
                return Err(Error::NoMembersInWorkspace(workspace.clone()));
            },
        };
        let ghost all = (Toml::Array(*items))@->Array_0;
        let mut members: Vec<String> = Vec::new();
        let mut i: usize = 0;
        while i < items.len()
            invariant
                i <= items.len(),
                all == (Toml::Array(*items))@->Array_0,
                all.len() == items.len(),
                texts(members@) == strings_among(all.take(i as int)),
            decreases items.len() - i,
        {
            assert(all.take(i + 1).drop_last() =~= all.take(i as int));
            assert(all[i as int] == items@[i as int]@);
            if let Toml::String(member) = &items[i] {
                members.push(member.clone());
            }
            i += 1;
        }
        assert(all.take(i as int) =~= all);
        let dependencies = match read_dependencies(workspace, "dependencies") {
            Ok(table) => table,
            Err(e) => {
                return Err(e);
            },
        };
        Ok(Workspace { members, dependencies, workspace_path })
    }

    /// Reads the workspace at `workspace_path`, given whether that directory
    /// exists and what came of reading the manifest in it.
    pub fn try_from(workspace_path: String, root_exists: bool, manifest: ManifestRead) -> (r:
        Result<Workspace, Error>)
        ensures
            match workspace_of_read(workspace_path@, root_exists, manifest@) {
                Ok(workspace) => r matches Ok(x) && x@ == workspace,
                Err(e) => r matches Err(x) && x@ == e,
            },
    {
        if !root_exists {
            return Err(Error::PathNotFound(workspace_path));
        }
        match manifest {
            ManifestRead::Missing => Err(
                Error::PathNotFound(join_path(workspace_path.as_str(), CARGO_TOML)),
            ),
            ManifestRead::Unreadable(message) => Err(Error::IoError(message)),
            ManifestRead::Text(text) => match Toml::parse(text.as_str()) {
                Ok(document) => Workspace::from_document(workspace_path, &document),
                Err(e) => Err(e),
            },
        }
    }

    /// The path of the root manifest of the workspace at `workspace_path`.
    pub fn manifest_path(workspace_path: &str) -> (r: String)
        ensures
            r@ == joined(workspace_path@, CARGO_TOML@),
    {
        join_path(workspace_path, CARGO_TOML)
    }

    /// The directories whose entries [`Workspace::members`] needs: one for
    /// each member that ends in `/*`.
    pub fn glob_directories(&self) -> (r: Vec<String>)
        ensures
            texts(r@) == glob_directories(self@.workspace_path, self@.members),
            r@.len() == glob_count(self@.members),
    {
        let ghost all = texts(self.members@);
        let ghost root = self.workspace_path@;
        let mut directories: Vec<String> = Vec::new();
        let mut i: usize = 0;
        while i < self.members.len()
            invariant
                i <= self.members.len(),
                all == texts(self.members@),
                root == self.workspace_path@,
                texts(directories@) == glob_directories(root, all.take(i as int)),
                directories@.len() == glob_count(all.take(i as int)),
            decreases self.members.len() - i,
        {
            assert(all.take(i + 1).drop_last() =~= all.take(i as int));
            if let Some(prefix) = split_glob(self.members[i].as_str()) {
                let directory = join_path(self.workspace_path.as_str(), prefix);
                directories.push(directory);
            }
            i += 1;
        }
        assert(all.take(i as int) =~= all);
        directories
    }

    /// What a member ending in `/*` stands for, given the entries of its
    /// directory, each by its path: one member for each entry.
    pub fn expand(children: &Vec<String>) -> (r: Vec<(String, String)>)
        ensures
            text_pairs(r@) == expansion(texts(children@)),
            r@.len() == children@.len(),
            forall|i: int|
                0 <= i < children@.len() ==> (#[trigger] r@[i]).0@ == children@[i]@ && r@[i].1@
                    == joined(children@[i]@, CARGO_TOML@),
    {
        let mut entries: Vec<(String, String)> = Vec::new();
        let mut i: usize = 0;
        while i < children.len()
            invariant
                i <= children.len(),
                entries@.len() == i,
                forall|k: int|
                    0 <= k < i ==> (#[trigger] entries@[k]).0@ == children@[k]@ && entries@[k].1@
                        == joined(children@[k]@, CARGO_TOML@),
            decreases children.len() - i,
        {
            let manifest = join_path(children[i].as_str(), CARGO_TOML);
            entries.push((children[i].clone(), manifest));
            i += 1;
        }
        entries
    }

    /// The members of the workspace, each with its name and the path of its
    /// manifest. `listings` holds, for each directory of
    /// [`Workspace::glob_directories`] in that order, what came of listing it.
    pub fn members(&self, listings: &Vec<DirectoryRead>) -> (r: Result<
        Vec<(String, String)>,
        Error,
    >)
        ensures
            match resolved(self@.workspace_path, self@.members, listing_views(listings@)) {
                Ok(found) => r matches Ok(x) && text_pairs(x@) == found,
                Err(e) => r matches Err(x) && x@ == e,
            },
    {
        let ghost all = texts(self.members@);
        let ghost root = self.workspace_path@;
        let ghost lists = listing_views(listings@);
        let mut entries: Vec<(String, String)> = Vec::new();
        let mut globs: usize = 0;
        let mut i: usize = 0;
        assert(text_pairs(entries@) =~= Seq::empty());
        while i < self.members.len()
            invariant
                i <= self.members.len(),
                all == texts(self.members@),
                root == self.workspace_path@,
                lists == listing_views(listings@),
                globs == glob_count(all.take(i as int)),
                globs <= i,
                resolved(root, all.take(i as int), lists) == Ok::<
                    Seq<(Seq<char>, Seq<char>)>,
                    ErrorView,
                >(text_pairs(entries@)),
            decreases self.members.len() - i,
        {
            let ghost before = entries@;
            assert(all.take(i + 1).drop_last() =~= all.take(i as int));
            let member = &self.members[i];
            match split_glob(member.as_str()) {
                Some(_) => {
                    if globs < listings.len() {
                        match &listings[globs] {
                            DirectoryRead::Entries(children) => {
                                let mut expanded = Workspace::expand(children);
                                entries.append(&mut expanded);
                                assert(text_pairs(entries@) =~= text_pairs(before) + expansion(
                                    texts(children@),
                                ));
                            },
                            DirectoryRead::Unreadable(message) => {
                                proof {
                                    lemma_unreadable_stays(root, all, lists, i + 1);
                                }
                                return Err(Error::IoError(message.clone()));
                            },
                        }
                    }
                    globs += 1;
                },
                None => {
                    let directory = join_path(self.workspace_path.as_str(), member.as_str());
                    let manifest = join_path(directory.as_str(), CARGO_TOML);
                    entries.push((member.clone(), manifest));
                    assert(text_pairs(entries@) =~= text_pairs(before) + seq![
                        (member@, joined(joined(root, member@), CARGO_TOML@)),
                    ]);
                },
            }
            i += 1;
        }
        assert(all.take(i as int) =~= all);
        Ok(entries)
    }
}

} // verus!
