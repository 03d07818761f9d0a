//! One dependency of a manifest, and the form in which its version is given.

use vstd::prelude::*;
use crate::value::{Toml, TomlView};
use crate::workspace_dependency::{Error, ErrorView};

verus! {

/// The form in which a manifest gives the version of a dependency.
#[derive(Debug, PartialEq, Eq)]
pub enum Version {
    /// Taken from the workspace's own table.
    Workspace,
    /// A version requirement.
    Value(String),
    /// A git repository and a branch of it.
    GitBranch(String, String),
    /// A path in the file system.
    Path(String),
}

/// What a [`Version`] holds.
pub enum VersionView {
    Workspace,
    Value(Seq<char>),
    GitBranch(Seq<char>, Seq<char>),
    Path(Seq<char>),
}

impl View for Version {
    type V = VersionView;

    open spec fn view(&self) -> VersionView {
        match self {
            Version::Workspace => VersionView::Workspace,
            Version::Value(v) => VersionView::Value(v@),
            Version::GitBranch(url, branch) => VersionView::GitBranch(url@, branch@),
            Version::Path(p) => VersionView::Path(p@),
        }
    }
}

impl Clone for Version {
    fn clone(&self) -> (r: Self)
        ensures
            r == *self,
    {
        match self {
            Version::Workspace => Version::Workspace,
            Version::Value(v) => Version::Value(v.clone()),
            Version::GitBranch(url, branch) => Version::GitBranch(url.clone(), branch.clone()),
            Version::Path(p) => Version::Path(p.clone()),
        }
    }
}

/// A dependency: its name and the form of its version.
#[derive(Debug, PartialEq, Eq)]
pub struct Dependency {
    pub name: String,
    pub version: Version,
}

/// What a [`Dependency`] holds.
pub struct DependencyView {
    pub name: Seq<char>,
    pub version: VersionView,
}

impl View for Dependency {
    type V = DependencyView;

    open spec fn view(&self) -> DependencyView {
        DependencyView { name: self.name@, version: self.version@ }
    }
}

impl Clone for Dependency {
    fn clone(&self) -> (r: Self)
        ensures
            r == *self,
    {
        Dependency { name: self.name.clone(), version: self.version.clone() }
    }
}

impl Default for Dependency {
    /// A dependency without a name that is taken from the workspace.
    fn default() -> (r: Self)
        ensures
            r@ == (DependencyView { name: Seq::empty(), version: VersionView::Workspace }),
    {
        Dependency { name: String::new(), version: Version::Workspace }
    }
}

/// The form of version that a dependency's value gives.
///
/// A string is a version requirement. In a table the fields are tried in the
/// order `workspace = true`, a string `version`, a string `path`, strings
/// `git` and `branch` together, and the last of them that is there decides.
/// A table with none of them is invalid; any other value is unexpected.
pub open spec fn classify(value: TomlView) -> Result<VersionView, ErrorView> {
    match value {
        TomlView::String(s) => Ok(VersionView::Value(s)),
        TomlView::Table(_) => {
            if value.get_string("git"@) is Some && value.get_string("branch"@) is Some {
                Ok(
                    VersionView::GitBranch(
                        value.get_string("git"@)->0,
                        value.get_string("branch"@)->0,
                    ),
                )
            } else if value.get_string("path"@) is Some {
                Ok(VersionView::Path(value.get_string("path"@)->0))
            } else if value.get_string("version"@) is Some {
                Ok(VersionView::Value(value.get_string("version"@)->0))
            } else if value.get("workspace"@) == Some(TomlView::Boolean(true)) {
                Ok(VersionView::Workspace)
            } else {
                Err(ErrorView::InvalidVersion(value))
            }
        },
        _ => Err(ErrorView::DependencyUnexpectedValue(value)),
    }
}

/// The dependency that the entry `name = value` of a manifest declares.
pub open spec fn dependency_of(name: Seq<char>, value: TomlView) -> Result<
    DependencyView,
    ErrorView,
> {
    match classify(value) {
        Ok(version) => Ok(DependencyView { name, version }),
        Err(e) => Err(e),
    }
}

impl Dependency {
    /// Reads the dependency that the entry `name = value` declares.
    ///
    /// A string is always the version itself. A table that holds
    /// `workspace = true` and none of `version`, `path`, `git` and `branch` is
    /// taken from the workspace. A table that holds strings `git` and `branch`
    /// and none of `version`, `path` and `workspace` is that git branch.
    pub fn try_from(name: &str, value: &Toml) -> (r: Result<Dependency, Error>)
        ensures
            match dependency_of(name@, value@) {
                Ok(d) => r matches Ok(x) && x@ == d,
                Err(e) => r matches Err(x) && x@ == e,
            },
            value@ matches TomlView::String(s) ==> (r matches Ok(d) && d.version@
                == VersionView::Value(s)),
            ({
                &&& value@ is Table
                &&& value@.get("workspace"@) == Some(TomlView::Boolean(true))
                &&& value@.get("version"@) is None
                &&& value@.get("path"@) is None
                &&& value@.get("git"@) is None
                &&& value@.get("branch"@) is None
            }) ==> (r matches Ok(d) && d.version@ == VersionView::Workspace),
            forall|url: Seq<char>, branch: Seq<char>|
                ({
                    &&& value@ is Table
                    &&& value@.get("git"@) == Some(TomlView::String(url))
                    &&& value@.get("branch"@) == Some(TomlView::String(branch))
                    &&& value@.get("version"@) is None
                    &&& value@.get("path"@) is None
                    &&& value@.get("workspace"@) is None
                }) ==> (r matches Ok(d) && d.version@ == VersionView::GitBranch(url, branch)),
    {
        match value {
            Toml::String(text) => Ok(
                Dependency { name: name.to_owned(), version: Version::Value(text.clone()) },
            ),
            Toml::Table(_) => {
                let mut version: Option<Version> = None;
                if let Some(Toml::Boolean(inherited)) = value.get("workspace") {
                    if *inherited {
                        version = Some(Version::Workspace);
                    }
                }
                if let Some(text) = value.get_string("version") {
                    version = Some(Version::Value(text.clone()));
                }
                if let Some(text) = value.get_string("path") {
                    version = Some(Version::Path(text.clone()));
                }
                if let Some(url) = value.get_string("git") {
                    if let Some(branch) = value.get_string("branch") {
                        version = Some(Version::GitBranch(url.clone(), branch.clone()));
                    }
                }
                match version {
                    Some(version) => Ok(Dependency { name: name.to_owned(), version }),
                    None => Err(Error::InvalidVersion(value.clone())),
                }
            },
            _ => Err(Error::DependencyUnexpectedValue(value.clone())),
        }
    }
}

} // verus!
