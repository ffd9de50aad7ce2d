//! Reading the manifest document into the manifest's content: which
//! members each entry must have, and of which kind.
use vstd::prelude::*;
use crate::error::ConfigurationError;
use crate::json::{JsonValue, member, str_member, opt_str_member, opt_bool_member, find_member, get_str,
    get_opt_str, get_opt_bool};
use crate::project_config::{DependencyDeclaration, PackageAlias, PackageDirectory, ProjectManifest};

verus! {

pub open spec fn declaration_of(v: JsonValue) -> Option<DependencyDeclaration> {
    match v {
        JsonValue::Object(f) => match (str_member(f@, "package"@), opt_str_member(f@, "versionNumber"@)) {
            (Some(package), Some(version_number)) => Some(DependencyDeclaration { package, version_number }),
            _ => None,
        },
        _ => None,
    }
}

/// The `dependencies` member: absent or null, or an array of declarations.
pub open spec fn dependencies_fit(f: Seq<(String, JsonValue)>) -> bool {
    match member(f, "dependencies"@) {
        None => true,
        Some(JsonValue::Null) => true,
        Some(JsonValue::Array(items)) => forall|i: int| 0 <= i < items@.len() ==> declaration_of(#[trigger] items@[i]) is Some,
        _ => false,
    }
}

pub open spec fn dependencies_decode(f: Seq<(String, JsonValue)>, d: Option<Vec<DependencyDeclaration>>) -> bool {
    match member(f, "dependencies"@) {
        Some(JsonValue::Array(items)) => d matches Some(v) && v@.len() == items@.len()
            && forall|i: int| 0 <= i < items@.len() ==> declaration_of(#[trigger] items@[i]) == Some(v@[i]),
        _ => d is None,
    }
}

/// A package directory entry: `package`, `path` and `versionNumber` are
/// strings; the other members are absent, null, or of their kind.
pub open spec fn directory_fits(v: JsonValue) -> bool {
    match v {
        JsonValue::Object(f) => {
            let f = f@;
            &&& dependencies_fit(f)
            &&& str_member(f, "package"@) is Some
            &&& str_member(f, "path"@) is Some
            &&& str_member(f, "versionNumber"@) is Some
            &&& opt_str_member(f, "versionName"@) is Some
            &&& opt_str_member(f, "versionDescription"@) is Some
            &&& opt_bool_member(f, "default"@) is Some
            &&& opt_str_member(f, "unpackagedMetadata"@) is Some
            &&& opt_str_member(f, "releaseNotesUrl"@) is Some
            &&& opt_str_member(f, "postInstallUrl"@) is Some
            &&& opt_bool_member(f, "scopeProfiles"@) is Some
            &&& opt_str_member(f, "definitionFile"@) is Some
        },
        _ => false,
    }
}

pub open spec fn directory_decodes(v: JsonValue, d: PackageDirectory) -> bool {
    match v {
        JsonValue::Object(f) => {
            let f = f@;
            &&& dependencies_decode(f, d.dependencies)
            &&& Some(d.package) == str_member(f, "package"@)
            &&& Some(d.path) == str_member(f, "path"@)
            &&& Some(d.version_number) == str_member(f, "versionNumber"@)
            &&& Some(d.version_name) == opt_str_member(f, "versionName"@)
            &&& Some(d.version_description) == opt_str_member(f, "versionDescription"@)
            &&& Some(d.default) == opt_bool_member(f, "default"@)
            &&& Some(d.unpackaged_metadata) == opt_str_member(f, "unpackagedMetadata"@)
            &&& Some(d.release_notes_url) == opt_str_member(f, "releaseNotesUrl"@)
            &&& Some(d.post_install_url) == opt_str_member(f, "postInstallUrl"@)
            &&& Some(d.scope_profiles) == opt_bool_member(f, "scopeProfiles"@)
            &&& Some(d.definition_file) == opt_str_member(f, "definitionFile"@)
        },
        _ => false,
    }
}

/// The `packageAliases` member: absent or null, or an object whose values
/// are strings.
pub open spec fn aliases_fit(f: Seq<(String, JsonValue)>) -> bool {
    match member(f, "packageAliases"@) {
        None => true,
        Some(JsonValue::Null) => true,
        Some(JsonValue::Object(entries)) => forall|i: int| 0 <= i < entries@.len() ==> (#[trigger] entries@[i]).1 is Str,
        _ => false,
    }
}

/// Each alias entry in document order.
pub open spec fn aliases_decode(f: Seq<(String, JsonValue)>, a: Option<Vec<PackageAlias>>) -> bool {
    match member(f, "packageAliases"@) {
        Some(JsonValue::Object(entries)) => a matches Some(v) && v@.len() == entries@.len()
            && forall|i: int| 0 <= i < entries@.len() ==> (#[trigger] v@[i]).alias == entries@[i].0
                && entries@[i].1 == JsonValue::Str(v@[i].id),
        _ => a is None,
    }
}

/// The package directory entries of a manifest document's members.
pub open spec fn directory_items(f: Seq<(String, JsonValue)>) -> Option<Seq<JsonValue>> {
    match member(f, "packageDirectories"@) {
        Some(JsonValue::Array(items)) => Some(items@),
        _ => None,
    }
}

/// A manifest document: an object with a string `name`, an array
/// `packageDirectories` of entries, and an optional alias table.
pub open spec fn manifest_fits(v: JsonValue) -> bool {
    match v {
        JsonValue::Object(f) => {
            &&& str_member(f@, "name"@) is Some
            &&& directory_items(f@) is Some
            &&& forall|i: int| 0 <= i < directory_items(f@)->0.len() ==> directory_fits(#[trigger] directory_items(f@)->0[i])
            &&& aliases_fit(f@)
        },
        _ => false,
    }
}

pub open spec fn manifest_decodes(v: JsonValue, m: ProjectManifest) -> bool {
    match v {
        JsonValue::Object(f) => {
            &&& Some(m.name) == str_member(f@, "name"@)
            &&& directory_items(f@) is Some
            &&& m.package_directories@.len() == directory_items(f@)->0.len()
            &&& forall|i: int| 0 <= i < m.package_directories@.len() ==> directory_decodes(#[trigger] directory_items(f@)->0[i], m.package_directories@[i])
            &&& aliases_decode(f@, m.package_aliases)
        },
        _ => false,
    }
}

fn decode_declaration(v: &JsonValue) -> (r: Option<DependencyDeclaration>)
    ensures
        r == declaration_of(*v),
{
    match v {
        JsonValue::Object(f) => match (get_str(f, "package"), get_opt_str(f, "versionNumber")) {
            (Some(package), Some(version_number)) => Some(DependencyDeclaration { package, version_number }),
            _ => None,
        },
        _ => None,
    }
}

fn decode_dependencies(f: &Vec<(String, JsonValue)>) -> (r: Option<Option<Vec<DependencyDeclaration>>>)
    ensures
        r is Some <==> dependencies_fit(f@),
        r matches Some(d) ==> dependencies_decode(f@, d),
{
    match find_member(f, "dependencies") {
        None => Some(None),
        Some(JsonValue::Null) => Some(None),
        Some(JsonValue::Array(items)) => {
            let mut out: Vec<DependencyDeclaration> = Vec::new();
            let mut i: usize = 0;
            while i < items.len()
                invariant
                    0 <= i <= items@.len(),
                    member(f@, "dependencies"@) == Some(JsonValue::Array(*items)),
                    out@.len() == i,
                    forall|k: int| 0 <= k < i ==> declaration_of(#[trigger] items@[k]) == Some(out@[k]),
                decreases items@.len() - i,
            {
                match decode_declaration(&items[i]) {
                    Some(d) => out.push(d),
                    None => {
                        assert(declaration_of(items@[i as int]) is None);
                        return None;
                    },
                }
                i = i + 1;
            }
            Some(Some(out))
        },
        _ => None,
    }
}

fn decode_directory(v: &JsonValue) -> (r: Option<PackageDirectory>)
    ensures
        r is Some <==> directory_fits(*v),
        r matches Some(d) ==> directory_decodes(*v, d),
{
    let f = match v {
        JsonValue::Object(f) => f,
        _ => return None,
    };
    let dependencies = match decode_dependencies(f) {
        Some(d) => d,
        None => return None,
    };
    match (get_str(f, "package"), get_str(f, "path"), get_str(f, "versionNumber")) {
        (Some(package), Some(path), Some(version_number)) => {
            match (get_opt_str(f, "versionName"), get_opt_str(f, "versionDescription"), get_opt_bool(f, "default"), get_opt_str(f, "unpackagedMetadata")) {
                (Some(version_name), Some(version_description), Some(default), Some(unpackaged_metadata)) => {
                    match (get_opt_str(f, "releaseNotesUrl"), get_opt_str(f, "postInstallUrl"), get_opt_bool(f, "scopeProfiles"), get_opt_str(f, "definitionFile")) {
                        (Some(release_notes_url), Some(post_install_url), Some(scope_profiles), Some(definition_file)) => Some(
                            PackageDirectory {
                                dependencies,
                                package,
                                path,
                                version_number,
                                version_name,
                                version_description,
                                default,
                                unpackaged_metadata,
                                release_notes_url,
                                post_install_url,
                                scope_profiles,
                                definition_file,
                            },
                        ),
                        _ => None,
                    }
                },
                _ => None,
            }
        },
        _ => None,
    }
}

fn decode_aliases(f: &Vec<(String, JsonValue)>) -> (r: Option<Option<Vec<PackageAlias>>>)
    ensures
        r is Some <==> aliases_fit(f@),
        r matches Some(a) ==> aliases_decode(f@, a),
{
    match find_member(f, "packageAliases") {
        None => Some(None),
        Some(JsonValue::Null) => Some(None),
        Some(JsonValue::Object(entries)) => {
            let mut out: Vec<PackageAlias> = Vec::new();
            let mut i: usize = 0;
            while i < entries.len()
                invariant
                    0 <= i <= entries@.len(),
                    member(f@, "packageAliases"@) == Some(JsonValue::Object(*entries)),
                    out@.len() == i,
                    forall|k: int| 0 <= k < i ==> (#[trigger] out@[k]).alias == entries@[k].0 && entries@[k].1 == JsonValue::Str(out@[k].id),
                decreases entries@.len() - i,
            {
                match &entries[i].1 {
                    JsonValue::Str(id) => out.push(PackageAlias { alias: entries[i].0.clone(), id: id.clone() }),
                    _ => {
                        assert(!(entries@[i as int].1 is Str));
                        return None;
                    },
                }
                i = i + 1;
            }
            assert forall|k: int| 0 <= k < entries@.len() implies (#[trigger] entries@[k]).1 is Str by {
                assert(entries@[k].1 == JsonValue::Str(out@[k].id));
            }
            assert forall|k: int| 0 <= k < entries@.len() implies (#[trigger] entries@[k]).1 is Str by {
                assert(entries@[k].1 == JsonValue::Str(out@[k].id));
            }
            Some(Some(out))
        },
        _ => None,
    }
}

impl ProjectManifest {
    /// Reads the manifest document; `MalformedManifest` where it does not
    /// have the members the manifest needs, of their kinds.
    pub fn from_json(v: &JsonValue) -> (r: Result<ProjectManifest, ConfigurationError>)
        ensures
            r is Ok <==> manifest_fits(*v),
            r matches Ok(m) ==> manifest_decodes(*v, m),
            r is Err ==> r == Err::<ProjectManifest, ConfigurationError>(ConfigurationError::MalformedManifest),
    {
        let f = match v {
            JsonValue::Object(f) => f,
            _ => return Err(ConfigurationError::MalformedManifest),
        };
        let name = match get_str(f, "name") {
            Some(n) => n,
            None => return Err(ConfigurationError::MalformedManifest),
        };
        let items = match find_member(f, "packageDirectories") {
            Some(JsonValue::Array(items)) => items,
            _ => return Err(ConfigurationError::MalformedManifest),
        };
        let mut package_directories: Vec<PackageDirectory> = Vec::new();
        let mut i: usize = 0;
        while i < items.len()
            invariant
                0 <= i <= items@.len(),
                member(f@, "packageDirectories"@) == Some(JsonValue::Array(*items)),
                *v == JsonValue::Object(*f),
                package_directories@.len() == i,
                forall|k: int| 0 <= k < i ==> directory_fits(#[trigger] items@[k]),
                forall|k: int| 0 <= k < i ==> directory_decodes(#[trigger] items@[k], package_directories@[k]),
            decreases items@.len() - i,
        {
            match decode_directory(&items[i]) {
                Some(d) => package_directories.push(d),
                None => {
                    assert(!directory_fits(items@[i as int]));
                    assert(!manifest_fits(*v)) by {
                        if manifest_fits(*v) {
                            assert(directory_items(f@) == Some(items@));
                            assert(directory_fits(directory_items(f@)->0[i as int]));
                        }
                    }
                    return Err(ConfigurationError::MalformedManifest);
                },
            }
            i = i + 1;
        }
        let package_aliases = match decode_aliases(f) {
            Some(a) => a,
            None => return Err(ConfigurationError::MalformedManifest),
        };
        assert(directory_items(f@) == Some(items@));
        Ok(ProjectManifest { name, package_directories, package_aliases })
    }
}

} // verus!
