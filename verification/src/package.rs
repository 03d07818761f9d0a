//! One member of a workspace: its name and the dependencies it declares.

use vstd::prelude::*;
use crate::dependency::{dependency_of, Dependency, DependencyView};
use crate::name_map::NameMap;
use crate::value::{parsed, Toml, TomlView};
use crate::workspace_dependency::{Error, ErrorView};

verus! {

/// A package as its manifest describes it.
#[derive(Debug)]
pub struct Package {
    pub name: String,
    pub dependencies: NameMap<Dependency>,
    pub dev_dependencies: NameMap<Dependency>,
}

/// What a [`Package`] holds.
pub struct PackageView {
    pub name: Seq<char>,
    pub dependencies: Map<Seq<char>, DependencyView>,
    pub dev_dependencies: Map<Seq<char>, DependencyView>,
}

/// A table of dependencies with each dependency as what it holds.
pub open spec fn dependency_views(table: Map<Seq<char>, Dependency>) -> Map<
    Seq<char>,
    DependencyView,
> {
    table.map_values(|d: Dependency| d@)
}

impl View for Package {
    type V = PackageView;

    open spec fn view(&self) -> PackageView {
        PackageView {
            name: self.name@,
            dependencies: dependency_views(self.dependencies@),
            dev_dependencies: dependency_views(self.dev_dependencies@),
        }
    }
}

/// The dependencies that the entries of a table declare, by name. The first
/// entry that declares none decides the error.
pub open spec fn dependencies_of(entries: Seq<(Seq<char>, TomlView)>) -> Result<
    Map<Seq<char>, DependencyView>,
    ErrorView,
>
    decreases entries.len(),
{
    if entries.len() == 0 {
        Ok(Map::empty())
    } else {
        match dependencies_of(entries.drop_last()) {
            Err(e) => Err(e),
            Ok(table) => match dependency_of(entries.last().0, entries.last().1) {
                Err(e) => Err(e),
                Ok(d) => Ok(table.insert(entries.last().0, d)),
            },
        }
    }
}

/// The dependencies under `key` of a manifest: none where the manifest has no
/// table there.
pub open spec fn dependencies_under(manifest: TomlView, key: Seq<char>) -> Result<
    Map<Seq<char>, DependencyView>,
    ErrorView,
> {
    match manifest.get(key) {
        Some(TomlView::Table(entries)) => dependencies_of(entries),
        _ => Ok(Map::empty()),
    }
}

/// The package that a manifest describes.
///
/// The manifest is a table whose table `package` holds a string `name`; its
/// tables `dependencies` and `dev-dependencies` may be missing.
pub open spec fn package_of(manifest: TomlView) -> Result<PackageView, ErrorView> {
    if !(manifest is Table) {
        Err(ErrorView::PackageUnexpectedValue(manifest))
    } else if !(manifest.get("package"@) matches Some(TomlView::Table(_))) {
        Err(ErrorView::PropertyNotFound("package"@, manifest))
    } else if manifest.get("package"@)->0.get_string("name"@) is None {
        Err(ErrorView::PropertyNotFound("name"@, manifest.get("package"@)->0))
    } else {
        match dependencies_under(manifest, "dependencies"@) {
            Err(e) => Err(e),
            Ok(dependencies) => match dependencies_under(manifest, "dev-dependencies"@) {
                Err(e) => Err(e),
                Ok(dev_dependencies) => Ok(
                    PackageView {
                        name: manifest.get("package"@)->0.get_string("name"@)->0,
                        dependencies,
                        dev_dependencies,
                    },
                ),
            },
        }
    }
}

/// The package that the text of a manifest describes.
pub open spec fn package_of_text(text: Seq<char>) -> Result<PackageView, ErrorView> {
    match parsed(text) {
        Ok(manifest) => package_of(manifest),
        Err(e) => Err(e),
    }
}

/// Reads the dependencies under `key` of a manifest.
pub fn read_dependencies(manifest: &Toml, key: &str) -> (r: Result<NameMap<Dependency>, Error>)
    ensures
        match dependencies_under(manifest@, key@) {
            Ok(table) => r matches Ok(x) && dependency_views(x@) == table,
            Err(e) => r matches Err(x) && x@ == e,
        },
{
    let mut table: NameMap<Dependency> = NameMap::new();
    assert(dependency_views(table@) =~= Map::empty());
    let found = manifest.get(key);
    let entries = match found {
        Some(Toml::Table(entries)) => entries,
        _ => {
            return Ok(table);
        },
    };
    let ghost all = found->0@->Table_0;
    let mut i: usize = 0;
    while i < entries.len()
        invariant
            i <= entries.len(),
            all == (Toml::Table(*entries))@->Table_0,
            all.len() == entries.len(),
            manifest@.get(key@) == Some(TomlView::Table(all)),
            dependencies_of(all.take(i as int)) == Ok::<Map<Seq<char>, DependencyView>, ErrorView>(
                dependency_views(table@),
            ),
        decreases entries.len() - i,
    {
        let ghost before = table@;
        assert(all.take(i + 1).drop_last() =~= all.take(i as int));
        match Dependency::try_from(entries[i].0.as_str(), &entries[i].1) {
            Ok(dependency) => {
                table.insert(entries[i].0.clone(), dependency);
                assert(dependency_views(table@) =~= dependency_views(before).insert(
                    entries[i as int].0@,
                    dependency@,
                ));
            },
            Err(e) => {
                proof {
                    lemma_error_stays(all, i + 1);
                }
                return Err(e);
            },
        }
        i += 1;
    }
    assert(all.take(i as int) =~= all);
    Ok(table)
}

impl Package {
    /// Reads a package from its manifest, given as a value.
    pub fn from_document(manifest: &Toml) -> (r: Result<Package, Error>)
        ensures
            match package_of(manifest@) {
                Ok(package) => r matches Ok(x) && x@ == package,
                Err(e) => r matches Err(x) && x@ == e,
            },
    {
        if let Toml::Table(_) = manifest {
        } else {
            return Err(Error::PackageUnexpectedValue(manifest.clone()));
        }
        let described = match manifest.get("package") {
            Some(table) => table,
            None => {
                return Err(Error::PropertyNotFound("package".to_owned(), manifest.clone()));
            },
        };
        if let Toml::Table(_) = described {
        } else {
            return Err(Error::PropertyNotFound("package".to_owned(), manifest.clone()));
        }
        let name = match described.get_string("name") {
            Some(name) => name.clone(),
            None => {
                return Err(Error::PropertyNotFound("name".to_owned(), described.clone()));
            },
        };
        let dependencies = match read_dependencies(manifest, "dependencies") {
            Ok(table) => table,
            Err(e) => {
                return Err(e);
            },
        };
        let dev_dependencies = match read_dependencies(manifest, "dev-dependencies") {
            Ok(table) => table,
            Err(e) => {
                return Err(e);
            },
        };
        Ok(Package { name, dependencies, dev_dependencies })
    }

    /// Reads a package from the text of its manifest.
    pub fn try_from(manifest: &str) -> (r: Result<Package, Error>)
        ensures
            match package_of_text(manifest@) {
                Ok(package) => r matches Ok(x) && x@ == package,
                Err(e) => r matches Err(x) && x@ == e,
            },
    {
        match Toml::parse(manifest) {
            Ok(document) => Package::from_document(&document),
            Err(e) => Err(e),
        }
    }
}

/// Once the first `n` entries fail, the whole table fails in the same way.
proof fn lemma_error_stays(entries: Seq<(Seq<char>, TomlView)>, n: int)
    requires
        0 <= n <= entries.len(),
        dependencies_of(entries.take(n)) is Err,
    ensures
        dependencies_of(entries) == dependencies_of(entries.take(n)),
    decreases entries.len() - n,
{
    if n < entries.len() {
        assert(entries.take(n + 1).drop_last() =~= entries.take(n));
        lemma_error_stays(entries, n + 1);
    } else {
        assert(entries.take(n) =~= entries);
    }
}

} // verus!
