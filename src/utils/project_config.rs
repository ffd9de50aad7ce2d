//! A flat listing of every dependency that a manifest declares, with its
//! declared version and install identifier, as read without resolution.
use vstd::prelude::*;
use crate::project_config::{DependencyDeclaration, PackageAlias, PackageDirectory, ProjectManifest,
    install_id};

verus! {

/// A declared dependency: its package name, its version number as written
/// (empty where none is given) and its install identifier (empty where the
/// alias table has none for the name).
#[derive(Debug)]
pub struct Package {
    pub name: String,
    pub version: String,
    pub id: String,
}

pub type ListedModel = (Seq<char>, Seq<char>, Seq<char>);

impl View for Package {
    type V = ListedModel;

    open spec fn view(&self) -> ListedModel {
        (self.name@, self.version@, self.id@)
    }
}

/// The listing of one declaration: looked up by its bare package name.
pub open spec fn listed(d: DependencyDeclaration, aliases: Option<Vec<PackageAlias>>) -> ListedModel {
    (
        d.package@,
        match d.version_number {
            Some(v) => v@,
            None => Seq::empty(),
        },
        install_id(aliases, d.package@),
    )
}

pub open spec fn directory_listing(dir: PackageDirectory, aliases: Option<Vec<PackageAlias>>) -> Seq<ListedModel> {
    match dir.dependencies {
        Some(ds) => ds@.map_values(|d: DependencyDeclaration| listed(d, aliases)),
        None => Seq::empty(),
    }
}

/// Every declaration of every directory, in manifest order.
pub open spec fn manifest_listing(dirs: Seq<PackageDirectory>, aliases: Option<Vec<PackageAlias>>) -> Seq<ListedModel>
    decreases dirs.len(),
{
    if dirs.len() == 0 {
        Seq::empty()
    } else {
        manifest_listing(dirs.drop_last(), aliases) + directory_listing(dirs.last(), aliases)
    }
}

pub open spec fn listed_models(v: Seq<Package>) -> Seq<ListedModel> {
    v.map_values(|p: Package| p@)
}

/// The project as a flat listing of its declared dependencies.
#[derive(Debug)]
pub struct ProjectConfig {
    pub name: String,
    pub paths: Vec<String>,
    pub packages: Vec<Package>,
    pub unpackaged_metadata_path: Option<String>,
}

fn list_declaration(d: &DependencyDeclaration, aliases: &Option<Vec<PackageAlias>>) -> (r: Package)
    ensures
        r@ == listed(*d, *aliases),
{
    let version = match &d.version_number {
        Some(v) => v.clone(),
        None => String::new(),
    };
    let id = crate::project_config::lookup_install_id(aliases, &d.package);
    Package { name: d.package.clone(), version, id }
}

impl ProjectConfig {
    /// Lists every dependency of every package directory, in manifest order.
    pub fn from_manifest(manifest: &ProjectManifest) -> (r: ProjectConfig)
        ensures
            r.name == manifest.name,
            r.paths@.len() == 0,
            r.unpackaged_metadata_path is None,
            listed_models(r.packages@) == manifest_listing(manifest.package_directories@, manifest.package_aliases),
    {
        let dirs = &manifest.package_directories;
        let aliases = &manifest.package_aliases;
        let mut packages: Vec<Package> = Vec::new();
        let mut i: usize = 0;
        proof {
            assert(dirs@.subrange(0, 0) =~= Seq::<PackageDirectory>::empty());
            assert(listed_models(packages@) =~= Seq::<ListedModel>::empty());
        }
        while i < dirs.len()
            invariant
                0 <= i <= dirs@.len(),
                listed_models(packages@) == manifest_listing(dirs@.subrange(0, i as int), *aliases),
            decreases dirs@.len() - i,
        {
            proof {
                assert(dirs@.subrange(0, i + 1).drop_last() =~= dirs@.subrange(0, i as int));
            }
            let ghost before = listed_models(packages@);
            proof {
                assert(packages@.len() == before.len());
                assert forall|k: int| 0 <= k < before.len() implies (#[trigger] packages@[k])@ == before[k] by {}
            }
            match &dirs[i].dependencies {
                Some(ds) => {
                    let mut j: usize = 0;
                    while j < ds.len()
                        invariant
                            0 <= j <= ds@.len(),
                            dirs@[i as int].dependencies == Some(*ds),
                            packages@.len() == before.len() + j,
                            forall|k: int| 0 <= k < before.len() ==> (#[trigger] packages@[k])@ == before[k],
                            forall|k: int| 0 <= k < j ==> (#[trigger] packages@[before.len() + k])@ == listed(ds@[k], *aliases),
                        decreases ds@.len() - j,
                    {
                        let ghost prev = packages@;
                        packages.push(list_declaration(&ds[j], aliases));
                        proof {
                            assert forall|k: int| 0 <= k < prev.len() implies packages@[k] == prev[k] by {}
                            assert(packages@[before.len() + j]@ == listed(ds@[j as int], *aliases));
                        }
                        j = j + 1;
                    }
                    proof {
                        let want = before + directory_listing(dirs@[i as int], *aliases);
                        assert forall|k: int| 0 <= k < packages@.len() implies #[trigger] listed_models(packages@)[k] == want[k] by {
                            if k < before.len() {
                                assert(packages@[k]@ == before[k]);
                            } else {
                                assert(packages@[before.len() + (k - before.len())]@ == listed(ds@[k - before.len()], *aliases));
                            }
                        }
                        assert(listed_models(packages@) =~= want);
                    }
                },
                None => {
                    proof {
                        assert(listed_models(packages@) =~= before + directory_listing(dirs@[i as int], *aliases));
                    }
                },
            }
            i = i + 1;
        }
        proof {
            assert(dirs@.subrange(0, dirs@.len() as int) =~= dirs@);
        }
        ProjectConfig { name: manifest.name.clone(), paths: Vec::new(), packages, unpackaged_metadata_path: None }
    }

    pub fn get_name(&self) -> (r: &String)
        ensures
            *r == self.name,
    {
        &self.name
    }

    pub fn get_packages(&self) -> (r: &Vec<Package>)
        ensures
            *r == self.packages,
    {
        &self.packages
    }

    pub fn get_unpackaged_metadata_path(&self) -> (r: &Option<String>)
        ensures
            *r == self.unpackaged_metadata_path,
    {
        &self.unpackaged_metadata_path
    }

    pub fn get_paths(&self) -> (r: &Vec<String>)
        ensures
            *r == self.paths,
    {
        &self.paths
    }
}

} // verus!
