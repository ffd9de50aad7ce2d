//! The project manifest model: packages, their declared dependencies, the
//! semantic version type, and the resolution of all declared dependencies
//! into one install set.
use vstd::prelude::*;
use crate::error::ConfigurationError;
use crate::text::{chars_of, string_of, push_int, int_text, is_canonical_numeral, numeral_value,
    lemma_canonical_numeral_round_trip, first_index, before_char, find_char, slice_chars,
    seq_less, chars_less, lemma_seq_less_total, lemma_seq_less_transitive};
use crate::version_text::{field_end, field_value, is_field, read_field, lemma_field_end_bounds};

verus! {

/// A semantic version: major, minor and patch numbers.
#[derive(Debug, Clone, Copy, PartialEq, Eq, Structural)]
pub struct Version {
    pub major: i32,
    pub minor: i32,
    pub patch: i32,
}

/// The version that a dotted string such as `"1.2.3"` denotes: its first
/// three `.`-separated fields must be decimal numerals that fit an `i32`;
/// further fields (`"1.2.3.NEXT"`) are ignored.
pub open spec fn parse_version(s: Seq<char>) -> Option<Version> {
    let e0 = field_end(s, 0);
    let e1 = field_end(s, e0 + 1);
    if e0 < s.len() && e1 < s.len() {
        match (field_value(s, 0), field_value(s, e0 + 1), field_value(s, e1 + 1)) {
            (Some(a), Some(b), Some(c)) => Some(Version { major: a, minor: b, patch: c }),
            _ => None,
        }
    } else {
        None
    }
}

/// Exactly three canonical numerals (no superfluous leading zero), each
/// fitting an `i32`, separated by single dots.
pub open spec fn is_canonical_version_text(s: Seq<char>) -> bool {
    let e0 = field_end(s, 0);
    let e1 = field_end(s, e0 + 1);
    let e2 = field_end(s, e1 + 1);
    &&& e0 < s.len()
    &&& e1 < s.len()
    &&& e2 == s.len()
    &&& is_canonical_numeral(s.subrange(0, e0)) && is_field(s.subrange(0, e0))
    &&& is_canonical_numeral(s.subrange(e0 + 1, e1)) && is_field(s.subrange(e0 + 1, e1))
    &&& is_canonical_numeral(s.subrange(e1 + 1, e2)) && is_field(s.subrange(e1 + 1, e2))
}

impl Version {
    /// `"major.minor.patch"` in decimal.
    pub open spec fn text(self) -> Seq<char> {
        int_text(self.major as int) + seq!['.'] + int_text(self.minor as int) + seq!['.']
            + int_text(self.patch as int)
    }

    /// Precedence order: major first, then minor, then patch.
    pub open spec fn spec_is_higher_than(self, other: Version) -> bool {
        ||| self.major > other.major
        ||| self.major == other.major && self.minor > other.minor
        ||| self.major == other.major && self.minor == other.minor && self.patch > other.patch
    }

    /// `0.0.0`.
    pub fn new() -> (r: Version)
        ensures
            r == (Version { major: 0, minor: 0, patch: 0 }),
    {
        Version { major: 0, minor: 0, patch: 0 }
    }

    /// The version that `s` denotes, or `None` where `s` is not one.
    pub fn parse(s: &str) -> (r: Option<Version>)
        ensures
            r == parse_version(s@),
    {
        let cs = chars_of(s);
        let (a, e0) = read_field(&cs, 0);
        if e0 >= cs.len() {
            return None;
        }
        let (b, e1) = read_field(&cs, e0 + 1);
        if e1 >= cs.len() {
            return None;
        }
        let (c, _e2) = read_field(&cs, e1 + 1);
        match (a, b, c) {
            (Some(major), Some(minor), Some(patch)) => Some(Version { major, minor, patch }),
            _ => None,
        }
    }

    /// The version that `as_string` denotes, which must be one.
    pub fn from(as_string: &str) -> (r: Version)
        requires
            parse_version(as_string@) is Some,
        ensures
            parse_version(as_string@) == Some(r),
    {
        match Version::parse(as_string) {
            Some(v) => v,
            None => Version::new(),
        }
    }

    /// Whether `self` comes strictly after `to_compare` in precedence order
    /// (major, then minor, then patch). Field by field, independently, would
    /// call both `2.0.0` and `1.5.0` higher than the other; this order does not.
    pub fn is_higher_than(&self, to_compare: &Version) -> (r: bool)
        ensures
            r == self.spec_is_higher_than(*to_compare),
    {
        self.major > to_compare.major || (self.major == to_compare.major && (self.minor
            > to_compare.minor || (self.minor == to_compare.minor && self.patch
            > to_compare.patch)))
    }

    /// `"major.minor.patch"` in decimal.
    pub fn to_string(&self) -> (r: String)
        ensures
            r@ == self.text(),
    {
        let mut cs: Vec<char> = Vec::new();
        push_int(self.major as i64, &mut cs);
        cs.push('.');
        push_int(self.minor as i64, &mut cs);
        cs.push('.');
        push_int(self.patch as i64, &mut cs);
        proof {
            assert(cs@ =~= self.text());
        }
        string_of(&cs)
    }
}

/// Rendering a parsed canonical version string gives back the string.
pub proof fn lemma_version_text_round_trip(s: Seq<char>)
    requires
        is_canonical_version_text(s),
    ensures
        parse_version(s) is Some,
        parse_version(s)->0.text() == s,
{
    let e0 = field_end(s, 0);
    let e1 = field_end(s, e0 + 1);
    let e2 = field_end(s, e1 + 1);
    lemma_field_end_bounds(s, 0);
    lemma_field_end_bounds(s, e0 + 1);
    lemma_field_end_bounds(s, e1 + 1);
    let f0 = s.subrange(0, e0);
    let f1 = s.subrange(e0 + 1, e1);
    let f2 = s.subrange(e1 + 1, e2);
    lemma_canonical_numeral_round_trip(f0);
    lemma_canonical_numeral_round_trip(f1);
    lemma_canonical_numeral_round_trip(f2);
    let v = parse_version(s)->0;
    assert(v.major as int == numeral_value(f0));
    assert(v.minor as int == numeral_value(f1));
    assert(v.patch as int == numeral_value(f2));
    assert(s =~= f0 + seq!['.'] + f1 + seq!['.'] + f2);
}

/// A dependency as the manifest declares it: a package name, which may carry
/// an `@version` suffix, and an optional version number.
#[derive(Debug)]
pub struct DependencyDeclaration {
    pub package: String,
    pub version_number: Option<String>,
}

/// An entry of the manifest's alias table: an alias such as `"name@1.2.0"`
/// or `"name"`, and the install identifier it stands for.
#[derive(Debug)]
pub struct PackageAlias {
    pub alias: String,
    pub id: String,
}

/// One package directory entry of the manifest, field for field.
#[derive(Debug)]
pub struct PackageDirectory {
    pub dependencies: Option<Vec<DependencyDeclaration>>,
    pub package: String,
    pub path: String,
    pub version_number: String,
    pub version_name: Option<String>,
    pub version_description: Option<String>,
    pub default: Option<bool>,
    pub unpackaged_metadata: Option<String>,
    pub release_notes_url: Option<String>,
    pub post_install_url: Option<String>,
    pub scope_profiles: Option<bool>,
    pub definition_file: Option<String>,
}

/// The manifest's content: the project name, its package directories in
/// order, and the alias table.
#[derive(Debug)]
pub struct ProjectManifest {
    pub name: String,
    pub package_directories: Vec<PackageDirectory>,
    pub package_aliases: Option<Vec<PackageAlias>>,
}

/// A declared dependency with its version resolved and its install
/// identifier looked up (empty where the alias table has no entry).
#[derive(Debug)]
pub struct PackageDependency {
    pub name: String,
    pub version: Version,
    pub id: String,
}

/// What a resolved dependency is: its name, version and install identifier.
pub type DependencyModel = (Seq<char>, Version, Seq<char>);

impl View for PackageDependency {
    type V = DependencyModel;

    open spec fn view(&self) -> DependencyModel {
        (self.name@, self.version, self.id@)
    }
}

/// The identifier that the first entry for `key` in the alias table gives.
pub open spec fn alias_lookup(aliases: Seq<PackageAlias>, key: Seq<char>) -> Option<Seq<char>>
    decreases aliases.len(),
{
    if aliases.len() == 0 {
        None
    } else if aliases[0].alias@ == key {
        Some(aliases[0].id@)
    } else {
        alias_lookup(aliases.drop_first(), key)
    }
}

/// The install identifier for `key`: empty where there is no alias table or
/// no entry for `key` in it.
pub open spec fn install_id(aliases: Option<Vec<PackageAlias>>, key: Seq<char>) -> Seq<char> {
    match aliases {
        Some(table) => match alias_lookup(table@, key) {
            Some(id) => id,
            None => Seq::empty(),
        },
        None => Seq::empty(),
    }
}

/// The version that a package name carries after its first `@`, up to a
/// further `@` if any.
pub open spec fn version_in_name(name: Seq<char>) -> Option<Seq<char>> {
    let at = first_index(name, '@', 0);
    if at < name.len() {
        Some(before_char(name.subrange(at + 1, name.len() as int), '@'))
    } else {
        None
    }
}

/// Resolves one declaration. A declared version number is used as given
/// and the alias key is `"package@version"`; without one, the version is
/// taken from the package name and the alias key is the name itself. A
/// pre-release suffix (from the first `-` on) is dropped before parsing.
pub open spec fn resolve_declaration(
    d: DependencyDeclaration,
    aliases: Option<Vec<PackageAlias>>,
) -> Result<DependencyModel, ConfigurationError> {
    let text = match d.version_number {
        Some(v) => Some(v@),
        None => version_in_name(d.package@),
    };
    let key = match d.version_number {
        Some(v) => d.package@ + seq!['@'] + v@,
        None => d.package@,
    };
    match text {
        None => Err(ConfigurationError::MissingDependencyVersion),
        Some(t) => match parse_version(before_char(t, '-')) {
            None => Err(ConfigurationError::MalformedDependencyVersion),
            Some(version) => Ok((d.package@, version, install_id(aliases, key))),
        },
    }
}

/// Resolves declarations in order; the first that fails decides the error.
pub open spec fn resolve_declarations(
    ds: Seq<DependencyDeclaration>,
    aliases: Option<Vec<PackageAlias>>,
) -> Result<Seq<DependencyModel>, ConfigurationError>
    decreases ds.len(),
{
    if ds.len() == 0 {
        Ok(Seq::empty())
    } else {
        match resolve_declarations(ds.drop_last(), aliases) {
            Err(e) => Err(e),
            Ok(prefix) => match resolve_declaration(ds.last(), aliases) {
                Err(e) => Err(e),
                Ok(m) => Ok(prefix.push(m)),
            },
        }
    }
}

pub open spec fn dependency_models(v: Seq<PackageDependency>) -> Seq<DependencyModel> {
    v.map_values(|d: PackageDependency| d@)
}

fn clone_text(s: &Option<String>) -> (r: Option<String>)
    ensures
        r == *s,
{
    match s {
        Some(t) => Some(t.clone()),
        None => None,
    }
}

/// The install identifier that the first entry for `key` gives, or empty.
pub(crate) fn lookup_install_id(aliases: &Option<Vec<PackageAlias>>, key: &String) -> (r: String)
    ensures
        r@ == install_id(*aliases, key@),
{
    match aliases {
        None => String::new(),
        Some(table) => {
            proof {
                assert(table@.subrange(0, table@.len() as int) =~= table@);
            }
            let mut i: usize = 0;
            while i < table.len()
                invariant
                    0 <= i <= table@.len(),
                    *aliases == Some(*table),
                    alias_lookup(table@, key@) == alias_lookup(table@.subrange(i as int, table@.len() as int), key@),
                decreases table@.len() - i,
            {
                let ghost rest = table@.subrange(i as int, table@.len() as int);
                proof {
                    assert(rest.drop_first() =~= table@.subrange(i + 1, table@.len() as int));
                    assert(rest[0] == table@[i as int]);
                }
                if table[i].alias == *key {
                    assert(alias_lookup(rest, key@) == Some(rest[0].id@));
                    let id = table[i].id.clone();
                    assert(id@ == rest[0].id@);
                    return id;
                }
                i = i + 1;
            }
            proof {
                assert(table@.subrange(i as int, table@.len() as int).len() == 0);
                assert(*aliases == Some(*table));
            }
            String::new()
        },
    }
}

/// The version text that a package name carries after its first `@`.
fn version_from_name(name: &Vec<char>) -> (r: Option<Vec<char>>)
    ensures
        match version_in_name(name@) {
            Some(t) => r is Some && r->0@ == t,
            None => r is None,
        },
{
    let at = find_char(name, '@', 0);
    if at < name.len() {
        let rest = slice_chars(name, at + 1, name.len());
        let end = find_char(&rest, '@', 0);
        Some(slice_chars(&rest, 0, end))
    } else {
        None
    }
}

impl PackageDependency {
    /// A dependency with empty name and identifier at version `0.0.0`.
    pub fn new() -> (r: PackageDependency)
        ensures
            r@ == (Seq::<char>::empty(), Version { major: 0, minor: 0, patch: 0 }, Seq::<char>::empty()),
    {
        PackageDependency { name: String::new(), version: Version::new(), id: String::new() }
    }

    /// The resolved version.
    pub fn get_version(&self) -> (r: Version)
        ensures
            r == self.version,
    {
        self.version
    }

    /// A copy of this dependency.
    pub fn duplicate(&self) -> (r: PackageDependency)
        ensures
            r == *self,
    {
        PackageDependency { name: self.name.clone(), version: self.version, id: self.id.clone() }
    }

    /// Resolves one declaration against the alias table.
    pub fn resolve(d: &DependencyDeclaration, aliases: &Option<Vec<PackageAlias>>) -> (r: Result<
        PackageDependency,
        ConfigurationError,
    >)
        ensures
            match resolve_declaration(*d, *aliases) {
                Ok(m) => r is Ok && r->Ok_0@ == m,
                Err(e) => r == Err::<PackageDependency, ConfigurationError>(e),
            },
    {
        let name = chars_of(d.package.as_str());
        let (text, key) = match &d.version_number {
            Some(v) => {
                let mut k = name.clone();
                k.push('@');
                let vs = chars_of(v.as_str());
                let mut i: usize = 0;
                while i < vs.len()
                    invariant
                        0 <= i <= vs@.len(),
                        k@ == name@ + seq!['@'] + vs@.subrange(0, i as int),
                    decreases vs@.len() - i,
                {
                    k.push(vs[i]);
                    i = i + 1;
                    proof {
                        assert(k@ =~= name@ + seq!['@'] + vs@.subrange(0, i as int));
                    }
                }
                proof {
                    assert(vs@.subrange(0, vs@.len() as int) =~= vs@);
                }
                (Some(vs), string_of(&k))
            },
            None => (version_from_name(&name), d.package.clone()),
        };
        match text {
            None => Err(ConfigurationError::MissingDependencyVersion),
            Some(t) => {
                let end = find_char(&t, '-', 0);
                let trimmed = string_of(&slice_chars(&t, 0, end));
                match Version::parse(trimmed.as_str()) {
                    None => Err(ConfigurationError::MalformedDependencyVersion),
                    Some(version) => {
                        let id = lookup_install_id(aliases, &key);
                        Ok(PackageDependency { name: d.package.clone(), version, id })
                    },
                }
            },
        }
    }
}

/// A package of the project, as the manifest describes it, with its
/// dependencies resolved.
#[derive(Debug)]
pub struct Package {
    pub name: String,
    pub path: String,
    pub version_name: Option<String>,
    pub version_description: Option<String>,
    pub version_number: String,
    pub unpackaged_metadata: Option<String>,
    pub dependencies: Option<Vec<PackageDependency>>,
    pub default: Option<bool>,
    pub release_notes_url: Option<String>,
    pub post_install_url: Option<String>,
    pub scope_profiles: Option<bool>,
    pub definition_file: Option<String>,
}

/// The resolved dependencies of a package directory: none where it declares
/// none, else each declaration resolved in order.
pub open spec fn directory_dependencies(
    dir: PackageDirectory,
    aliases: Option<Vec<PackageAlias>>,
) -> Result<Option<Seq<DependencyModel>>, ConfigurationError> {
    match dir.dependencies {
        None => Ok(None),
        Some(ds) => match resolve_declarations(ds@, aliases) {
            Ok(ms) => Ok(Some(ms)),
            Err(e) => Err(e),
        },
    }
}

pub open spec fn optional_models(deps: Option<Vec<PackageDependency>>) -> Option<Seq<DependencyModel>> {
    match deps {
        Some(v) => Some(dependency_models(v@)),
        None => None,
    }
}

proof fn lemma_resolve_error_persists(
    ds: Seq<DependencyDeclaration>,
    k: int,
    aliases: Option<Vec<PackageAlias>>,
)
    requires
        0 <= k <= ds.len(),
        resolve_declarations(ds.subrange(0, k), aliases) is Err,
    ensures
        resolve_declarations(ds, aliases) == resolve_declarations(ds.subrange(0, k), aliases),
    decreases ds.len(),
{
    if ds.len() == k {
        assert(ds.subrange(0, k) =~= ds);
    } else {
        assert(ds.drop_last().subrange(0, k) =~= ds.subrange(0, k));
        lemma_resolve_error_persists(ds.drop_last(), k, aliases);
    }
}

impl Package {
    /// The package directory's fields, copied unchanged.
    pub open spec fn copies(self, dir: PackageDirectory) -> bool {
        &&& self.name == dir.package
        &&& self.path == dir.path
        &&& self.version_name == dir.version_name
        &&& self.version_description == dir.version_description
        &&& self.version_number == dir.version_number
        &&& self.unpackaged_metadata == dir.unpackaged_metadata
        &&& self.default == dir.default
        &&& self.release_notes_url == dir.release_notes_url
        &&& self.post_install_url == dir.post_install_url
        &&& self.scope_profiles == dir.scope_profiles
        &&& self.definition_file == dir.definition_file
    }

    /// The package that a directory entry describes, with its dependencies
    /// resolved against the alias table.
    pub fn from(package_directory: &PackageDirectory, package_aliases: &Option<Vec<PackageAlias>>) -> (r: Result<Package, ConfigurationError>)
        ensures
            match directory_dependencies(*package_directory, *package_aliases) {
                Ok(m) => r is Ok && r->Ok_0.copies(*package_directory)
                    && optional_models(r->Ok_0.dependencies) == m,
                Err(e) => r == Err::<Package, ConfigurationError>(e),
            },
    {
        let dependencies = match Self::get_package_dependencies(package_directory, package_aliases) {
            Ok(d) => d,
            Err(e) => return Err(e),
        };
        let dir = package_directory;
        Ok(Package {
            name: dir.package.clone(),
            path: dir.path.clone(),
            version_name: clone_text(&dir.version_name),
            version_description: clone_text(&dir.version_description),
            version_number: dir.version_number.clone(),
            unpackaged_metadata: clone_text(&dir.unpackaged_metadata),
            dependencies,
            default: dir.default,
            release_notes_url: clone_text(&dir.release_notes_url),
            post_install_url: clone_text(&dir.post_install_url),
            scope_profiles: dir.scope_profiles,
            definition_file: clone_text(&dir.definition_file),
        })
    }

    /// Resolves each declared dependency of the directory, in order; the
    /// first that cannot be resolved decides the error.
    pub fn get_package_dependencies(package_directory: &PackageDirectory, package_aliases: &Option<Vec<PackageAlias>>) -> (r: Result<Option<Vec<PackageDependency>>, ConfigurationError>)
        ensures
            match directory_dependencies(*package_directory, *package_aliases) {
                Ok(m) => r is Ok && optional_models(r->Ok_0) == m,
                Err(e) => r == Err::<Option<Vec<PackageDependency>>, ConfigurationError>(e),
            },
    {
        match &package_directory.dependencies {
            None => Ok(None),
            Some(ds) => {
                let mut out: Vec<PackageDependency> = Vec::new();
                let mut i: usize = 0;
                proof {
                    assert(ds@.subrange(0, 0) =~= Seq::<DependencyDeclaration>::empty());
                    assert(dependency_models(out@) =~= Seq::<DependencyModel>::empty());
                }
                while i < ds.len()
                    invariant
                        0 <= i <= ds@.len(),
                        package_directory.dependencies == Some(*ds),
                        resolve_declarations(ds@.subrange(0, i as int), *package_aliases)
                            == Ok::<Seq<DependencyModel>, ConfigurationError>(dependency_models(out@)),
                    decreases ds@.len() - i,
                {
                    proof {
                        assert(ds@.subrange(0, i + 1).drop_last() =~= ds@.subrange(0, i as int));
                        assert(ds@.subrange(0, i + 1).last() == ds@[i as int]);
                    }
                    match PackageDependency::resolve(&ds[i], package_aliases) {
                        Ok(d) => {
                            let ghost before = out@;
                            let ghost m = d@;
                            out.push(d);
                            proof {
                                assert(dependency_models(out@) =~= dependency_models(before).push(m));
                            }
                        },
                        Err(e) => {
                            proof {
                                lemma_resolve_error_persists(ds@, i + 1, *package_aliases);
                            }
                            return Err(e);
                        },
                    }
                    i = i + 1;
                }
                proof {
                    assert(ds@.subrange(0, ds@.len() as int) =~= ds@);
                }
                Ok(Some(out))
            },
        }
    }

    /// What precedes the first `-`: the version without its pre-release
    /// suffix.
    pub fn get_version_number_from(source: &str) -> (r: String)
        ensures
            r@ == before_char(source@, '-'),
    {
        let cs = chars_of(source);
        let end = find_char(&cs, '-', 0);
        string_of(&slice_chars(&cs, 0, end))
    }

    /// Sets the version number to the rendering of `version`.
    pub fn set_version(&mut self, version: &Version)
        ensures
            final(self).version_number@ == version.text(),
            (Package { version_number: old(self).version_number, ..*final(self) }) == *old(self),
    {
        self.version_number = version.to_string();
    }
}

/// The project: its name and its packages in manifest order.
#[derive(Debug)]
pub struct SalesforceProjectConfig {
    pub name: String,
    pub packages: Vec<Package>,
}

/// Every dependency that the packages declare, package by package, each in
/// declaration order.
pub open spec fn all_declared(packages: Seq<Package>) -> Seq<DependencyModel>
    decreases packages.len(),
{
    if packages.len() == 0 {
        Seq::empty()
    } else {
        all_declared(packages.drop_last()) + match packages.last().dependencies {
            Some(v) => dependency_models(v@),
            None => Seq::empty(),
        }
    }
}

/// The entry that resolution keeps for `name` after scanning `ds` in order:
/// the first declaration of the name, replaced by each later one whose
/// version is strictly higher.
pub open spec fn winner(ds: Seq<DependencyModel>, name: Seq<char>) -> Option<DependencyModel>
    decreases ds.len(),
{
    if ds.len() == 0 {
        None
    } else {
        let w = winner(ds.drop_last(), name);
        let d = ds.last();
        if d.0 != name {
            w
        } else {
            match w {
                None => Some(d),
                Some(x) => if d.1.spec_is_higher_than(x.1) {
                    Some(d)
                } else {
                    Some(x)
                },
            }
        }
    }
}

/// Entries strictly ordered by name, so at most one per name.
pub open spec fn sorted_by_name(v: Seq<PackageDependency>) -> bool {
    forall|a: int, b: int| 0 <= a < b < v.len() ==> seq_less(#[trigger] v[a].name@, #[trigger] v[b].name@)
}

/// `v` holds exactly the winning entry of each name declared in `ds`, in
/// name order.
pub open spec fn is_resolution_of(v: Seq<PackageDependency>, ds: Seq<DependencyModel>) -> bool {
    &&& sorted_by_name(v)
    &&& forall|k: int| 0 <= k < v.len() ==> winner(ds, #[trigger] v[k].name@) == Some(v[k]@)
    &&& forall|i: int| 0 <= i < ds.len() ==> exists|k: int| 0 <= k < v.len() && #[trigger] v[k].name@ == #[trigger] ds[i].0
}

/// Resolution keeps, for each declared name, one of its declarations, and
/// no declaration of that name has a higher version than the one kept.
pub proof fn lemma_winner_is_maximum(ds: Seq<DependencyModel>, name: Seq<char>)
    ensures
        winner(ds, name) is Some <==> exists|i: int| 0 <= i < ds.len() && (#[trigger] ds[i]).0 == name,
        winner(ds, name) is Some ==> {
            let w = winner(ds, name)->0;
            &&& w.0 == name
            &&& exists|i: int| 0 <= i < ds.len() && #[trigger] ds[i] == w
            &&& forall|i: int| 0 <= i < ds.len() && (#[trigger] ds[i]).0 == name ==> !ds[i].1.spec_is_higher_than(w.1)
        },
    decreases ds.len(),
{
    if ds.len() > 0 {
        let p = ds.drop_last();
        let d = ds.last();
        let last = ds.len() - 1;
        lemma_winner_is_maximum(p, name);
        assert forall|i: int| 0 <= i < p.len() implies #[trigger] p[i] == ds[i] by {}
        assert(ds[last] == d);
        if winner(p, name) is Some {
            let i0 = choose|i: int| 0 <= i < p.len() && (#[trigger] p[i]).0 == name;
            assert(ds[i0] == p[i0]);
            let x = winner(p, name)->0;
            let i1 = choose|i: int| 0 <= i < p.len() && #[trigger] p[i] == x;
            assert(ds[i1] == x);
        } else {
            assert forall|i: int| 0 <= i < last implies (#[trigger] ds[i]).0 != name by {
                assert(p[i] == ds[i]);
            }
        }
        if winner(ds, name) is Some {
            let w = winner(ds, name)->0;
            assert forall|i: int| 0 <= i < ds.len() && (#[trigger] ds[i]).0 == name implies !ds[i].1.spec_is_higher_than(w.1) by {
                if i < last {
                    assert(p[i] == ds[i]);
                }
            }
        }
    }
}

/// A resolution holds one entry per declared name and no other: each
/// entry is one of the declarations, and no declaration of its name has a
/// higher version.
pub proof fn lemma_resolution_keeps_maximum(v: Seq<PackageDependency>, ds: Seq<DependencyModel>)
    requires
        is_resolution_of(v, ds),
    ensures
        forall|a: int, b: int| 0 <= a < b < v.len() ==> (#[trigger] v[a]).name@ != (#[trigger] v[b]).name@,
        forall|k: int| 0 <= k < v.len() ==> exists|i: int| 0 <= i < ds.len() && ds[i] == (#[trigger] v[k])@,
        forall|i: int| 0 <= i < ds.len() ==> exists|k: int| 0 <= k < v.len() && (#[trigger] v[k]).name@ == (#[trigger] ds[i]).0
            && !ds[i].1.spec_is_higher_than(v[k].version),
{
    assert forall|a: int, b: int| 0 <= a < b < v.len() implies (#[trigger] v[a]).name@ != (#[trigger] v[b]).name@ by {
        lemma_seq_less_total(v[a].name@, v[b].name@);
    }
    assert forall|k: int| 0 <= k < v.len() implies exists|i: int| 0 <= i < ds.len() && ds[i] == (#[trigger] v[k])@ by {
        lemma_winner_is_maximum(ds, v[k].name@);
    }
    assert forall|i: int| 0 <= i < ds.len() implies exists|k: int| 0 <= k < v.len() && (#[trigger] v[k]).name@ == (#[trigger] ds[i]).0
        && !ds[i].1.spec_is_higher_than(v[k].version) by {
        let k = choose|k: int| 0 <= k < v.len() && #[trigger] v[k].name@ == ds[i].0;
        lemma_winner_is_maximum(ds, ds[i].0);
        assert(winner(ds, v[k].name@) == Some(v[k]@));
    }
}

/// Merges one more declaration into a resolution.
fn merge_dependency(v: &mut Vec<PackageDependency>, d: &PackageDependency, Ghost(seen): Ghost<Seq<DependencyModel>>)
    requires
        is_resolution_of(old(v)@, seen),
    ensures
        is_resolution_of(final(v)@, seen.push(d@)),
{
    let ghost n = d.name@;
    let ghost next = seen.push(d@);
    let ghost old_v = v@;
    assert forall|m: Seq<char>| m != n implies winner(next, m) == winner(seen, m) by {
        assert(next.drop_last() =~= seen);
    }
    assert(next.drop_last() =~= seen);
    let name = chars_of(d.name.as_str());
    let mut p: usize = 0;
    while p < v.len() && chars_less(&chars_of(v[p].name.as_str()), &name)
        invariant
            0 <= p <= v@.len(),
            v@ == old_v,
            name@ == n,
            forall|q: int| 0 <= q < p ==> seq_less(#[trigger] v@[q].name@, n),
        decreases v@.len() - p,
    {
        p = p + 1;
    }
    if p < v.len() && v[p].name == d.name {
        assert forall|k: int| 0 <= k < v@.len() && k != p implies #[trigger] v@[k].name@ != n by {
            if k < p {
                lemma_seq_less_total(v@[k].name@, v@[p as int].name@);
            } else {
                lemma_seq_less_total(v@[p as int].name@, v@[k].name@);
            }
        }
        if d.version.is_higher_than(&v[p].version) {
            v.set(p, d.duplicate());
        }
        assert forall|i: int| 0 <= i < next.len() implies exists|k: int| 0 <= k < v@.len() && #[trigger] v@[k].name@ == #[trigger] next[i].0 by {
            if i < seen.len() {
                assert(next[i] == seen[i]);
                let k = choose|k: int| 0 <= k < old_v.len() && #[trigger] old_v[k].name@ == seen[i].0;
                assert(v@[k].name@ == old_v[k].name@);
            } else {
                assert(v@[p as int].name@ == next[i].0);
            }
        }
        assert forall|k: int| 0 <= k < v@.len() implies winner(next, #[trigger] v@[k].name@) == Some(v@[k]@) by {
            if k != p {
                assert(v@[k] == old_v[k]);
            }
        }
    } else {
        proof {
            if p < v@.len() {
                lemma_seq_less_total(v@[p as int].name@, n);
            }
            assert forall|k: int| 0 <= k < v@.len() implies #[trigger] v@[k].name@ != n by {
                lemma_seq_less_total(v@[k].name@, n);
                if k > p {
                    lemma_seq_less_transitive(n, v@[p as int].name@, v@[k].name@);
                    lemma_seq_less_total(n, v@[k].name@);
                }
            }
            lemma_winner_is_maximum(seen, n);
            if winner(seen, n) is Some {
                let i = choose|i: int| 0 <= i < seen.len() && (#[trigger] seen[i]).0 == n;
                let k = choose|k: int| 0 <= k < old_v.len() && #[trigger] old_v[k].name@ == seen[i].0;
            }
        }
        v.insert(p, d.duplicate());
        assert forall|a: int, b: int| 0 <= a < b < v@.len() implies seq_less(#[trigger] v@[a].name@, #[trigger] v@[b].name@) by {
            if a < p && b == p {
            } else if a < p && b > p {
                assert(v@[b] == old_v[b - 1]);
            } else if a == p {
                assert(v@[b] == old_v[b - 1]);
                if b - 1 > p {
                    lemma_seq_less_transitive(n, old_v[p as int].name@, old_v[b - 1].name@);
                }
            } else if a > p {
                assert(v@[a] == old_v[a - 1]);
                assert(v@[b] == old_v[b - 1]);
            }
        }
        assert forall|i: int| 0 <= i < next.len() implies exists|k: int| 0 <= k < v@.len() && #[trigger] v@[k].name@ == #[trigger] next[i].0 by {
            if i < seen.len() {
                assert(next[i] == seen[i]);
                let k = choose|k: int| 0 <= k < old_v.len() && #[trigger] old_v[k].name@ == seen[i].0;
                if k < p {
                    assert(v@[k] == old_v[k]);
                } else {
                    assert(v@[k + 1] == old_v[k]);
                }
            } else {
                assert(v@[p as int].name@ == next[i].0);
            }
        }
        assert forall|k: int| 0 <= k < v@.len() implies winner(next, #[trigger] v@[k].name@) == Some(v@[k]@) by {
            if k < p {
                assert(v@[k] == old_v[k]);
            } else if k > p {
                assert(v@[k] == old_v[k - 1]);
            }
        }
    }
}

/// The first package at or after `i` whose default flag is set to true, or
/// the number of packages.
pub open spec fn first_flagged_default(packages: Seq<Package>, i: int) -> int
    decreases packages.len() - i,
{
    if i >= packages.len() {
        packages.len() as int
    } else if packages[i].default == Some(true) {
        i
    } else {
        first_flagged_default(packages, i + 1)
    }
}

/// The default package: the first one flagged default, else the first one;
/// none where there are no packages.
pub open spec fn default_package_index(packages: Seq<Package>) -> Option<int> {
    if packages.len() == 0 {
        None
    } else if first_flagged_default(packages, 0) < packages.len() {
        Some(first_flagged_default(packages, 0))
    } else {
        Some(0)
    }
}

/// The first package at or after `i` with the given name, or the number of
/// packages.
pub open spec fn first_named(packages: Seq<Package>, name: Seq<char>, i: int) -> int
    decreases packages.len() - i,
{
    if i >= packages.len() {
        packages.len() as int
    } else if packages[i].name@ == name {
        i
    } else {
        first_named(packages, name, i + 1)
    }
}

pub proof fn lemma_first_flagged_bounds(packages: Seq<Package>, i: int)
    requires
        0 <= i <= packages.len(),
    ensures
        i <= first_flagged_default(packages, i) <= packages.len(),
        first_flagged_default(packages, i) < packages.len() ==> packages[first_flagged_default(packages, i)].default == Some(true),
        forall|k: int| i <= k < first_flagged_default(packages, i) ==> (#[trigger] packages[k]).default != Some(true),
    decreases packages.len() - i,
{
    if i < packages.len() && packages[i].default != Some(true) {
        lemma_first_flagged_bounds(packages, i + 1);
    }
}

pub proof fn lemma_first_named_bounds(packages: Seq<Package>, name: Seq<char>, i: int)
    requires
        0 <= i <= packages.len(),
    ensures
        i <= first_named(packages, name, i) <= packages.len(),
        first_named(packages, name, i) < packages.len() ==> packages[first_named(packages, name, i)].name@ == name,
        forall|k: int| i <= k < first_named(packages, name, i) ==> (#[trigger] packages[k]).name@ != name,
    decreases packages.len() - i,
{
    if i < packages.len() && packages[i].name@ != name {
        lemma_first_named_bounds(packages, name, i + 1);
    }
}

impl SalesforceProjectConfig {
    /// The position of the default package: the first flagged default, else
    /// the first package.
    pub fn default_package_index(&self) -> (r: Result<usize, ConfigurationError>)
        ensures
            match default_package_index(self.packages@) {
                Some(i) => r == Ok::<usize, ConfigurationError>(i as usize),
                None => r == Err::<usize, ConfigurationError>(ConfigurationError::NoPackages),
            },
    {
        if self.packages.len() == 0 {
            return Err(ConfigurationError::NoPackages);
        }
        let mut i: usize = 0;
        while i < self.packages.len() && self.packages[i].default != Some(true)
            invariant
                0 <= i <= self.packages@.len(),
                first_flagged_default(self.packages@, 0) == first_flagged_default(self.packages@, i as int),
            decreases self.packages@.len() - i,
        {
            i = i + 1;
        }
        if i < self.packages.len() {
            Ok(i)
        } else {
            Ok(0)
        }
    }

    /// The default package: the first one flagged default, else the first
    /// one.
    pub fn get_default_package(&self) -> (r: Result<&Package, ConfigurationError>)
        ensures
            match default_package_index(self.packages@) {
                Some(i) => r is Ok && *r->Ok_0 == self.packages@[i],
                None => r == Err::<&Package, ConfigurationError>(ConfigurationError::NoPackages),
            },
    {
        proof {
            assert(self.packages@.len() == self.packages.len());
        }
        match self.default_package_index() {
            Ok(i) => {
                proof {
                    lemma_first_flagged_bounds(self.packages@, 0);
                }
                assert(default_package_index(self.packages@) == Some(i as int));
                let p = &self.packages[i];
                assert(*p == self.packages@[i as int]);
                Ok(p)
            },
            Err(e) => Err(e),
        }
    }

    /// The position of the first package with the given name.
    pub fn package_index(&self, name: &str) -> (r: Result<usize, ConfigurationError>)
        ensures
            first_named(self.packages@, name@, 0) < self.packages@.len() ==> r == Ok::<usize, ConfigurationError>(first_named(self.packages@, name@, 0) as usize),
            first_named(self.packages@, name@, 0) >= self.packages@.len() ==> r == Err::<usize, ConfigurationError>(ConfigurationError::PackageNotFound),
    {
        proof {
            lemma_first_named_bounds(self.packages@, name@, 0);
        }
        let wanted = name.to_owned();
        let mut i: usize = 0;
        while i < self.packages.len()
            invariant
                0 <= i <= self.packages@.len(),
                wanted@ == name@,
                first_named(self.packages@, name@, 0) == first_named(self.packages@, name@, i as int),
            decreases self.packages@.len() - i,
        {
            if self.packages[i].name == wanted {
                return Ok(i);
            }
            i = i + 1;
        }
        Err(ConfigurationError::PackageNotFound)
    }

    /// The first package with the given name.
    pub fn get_package(&self, name: &str) -> (r: Result<&Package, ConfigurationError>)
        ensures
            first_named(self.packages@, name@, 0) < self.packages@.len() ==> r is Ok && *r->Ok_0 == self.packages@[first_named(self.packages@, name@, 0)],
            first_named(self.packages@, name@, 0) >= self.packages@.len() ==> r == Err::<&Package, ConfigurationError>(ConfigurationError::PackageNotFound),
    {
        proof {
            assert(self.packages@.len() == self.packages.len());
        }
        match self.package_index(name) {
            Ok(i) => {
                proof {
                    lemma_first_named_bounds(self.packages@, name@, 0);
                }
                let p = &self.packages[i];
                assert(*p == self.packages@[i as int]);
                Ok(p)
            },
            Err(e) => Err(e),
        }
    }

    /// Sets the version of the package at `index`; every other package, and
    /// every other field of that one, stays as it was.
    pub fn set_package_version(&mut self, index: usize, version: &Version)
        requires
            index < old(self).packages@.len(),
        ensures
            final(self).name == old(self).name,
            final(self).packages@.len() == old(self).packages@.len(),
            final(self).packages@[index as int].version_number@ == version.text(),
            (Package { version_number: old(self).packages@[index as int].version_number, ..final(self).packages@[index as int] }) == old(self).packages@[index as int],
            forall|k: int| 0 <= k < old(self).packages@.len() && k != index ==> final(self).packages@[k] == old(self).packages@[k],
    {
        self.packages[index].set_version(version);
    }

    /// The project built from the manifest's content: one package per
    /// package directory, in order. The first directory whose dependencies
    /// cannot be resolved decides the error.
    pub fn from_manifest(manifest: &ProjectManifest) -> (r: Result<SalesforceProjectConfig, ConfigurationError>)
        ensures
            (forall|i: int| 0 <= i < manifest.package_directories@.len()
                ==> directory_dependencies(#[trigger] manifest.package_directories@[i], manifest.package_aliases) is Ok)
                ==> r is Ok,
            r matches Err(e) ==> exists|i: int| 0 <= i < manifest.package_directories@.len()
                && directory_dependencies(#[trigger] manifest.package_directories@[i], manifest.package_aliases) == Err::<Option<Seq<DependencyModel>>, ConfigurationError>(e)
                && forall|j: int| 0 <= j < i ==> directory_dependencies(#[trigger] manifest.package_directories@[j], manifest.package_aliases) is Ok,
            r matches Ok(c) ==> {
                &&& c.name == manifest.name
                &&& c.packages@.len() == manifest.package_directories@.len()
                &&& forall|i: int| 0 <= i < c.packages@.len() ==> (#[trigger] c.packages@[i]).copies(manifest.package_directories@[i])
                    && directory_dependencies(manifest.package_directories@[i], manifest.package_aliases) == Ok::<Option<Seq<DependencyModel>>, ConfigurationError>(optional_models(c.packages@[i].dependencies))
            },
    {
        let dirs = &manifest.package_directories;
        let mut packages: Vec<Package> = Vec::new();
        let mut i: usize = 0;
        while i < dirs.len()
            invariant
                0 <= i <= dirs@.len(),
                dirs == manifest.package_directories,
                packages@.len() == i,
                forall|j: int| 0 <= j < i ==> (#[trigger] packages@[j]).copies(dirs@[j])
                    && directory_dependencies(dirs@[j], manifest.package_aliases) == Ok::<Option<Seq<DependencyModel>>, ConfigurationError>(optional_models(packages@[j].dependencies)),
            decreases dirs@.len() - i,
        {
            match Package::from(&dirs[i], &manifest.package_aliases) {
                Ok(p) => packages.push(p),
                Err(e) => {
                    assert forall|j: int| 0 <= j < i implies directory_dependencies(#[trigger] dirs@[j], manifest.package_aliases) is Ok by {
                        assert(packages@[j].copies(dirs@[j]));
                    }
                    return Err(e);
                },
            }
            i = i + 1;
        }
        Ok(SalesforceProjectConfig { name: manifest.name.clone(), packages })
    }

    pub fn get_name(&self) -> (r: &String)
        ensures
            *r == self.name,
    {
        &self.name
    }

    pub fn get_packages(&self) -> (r: &Vec<Package>)
        ensures
            *r == self.packages,
    {
        &self.packages
    }

    /// Merges every package's declared dependencies into one install set:
    /// one entry per dependency name, in name order, holding the
    /// declaration with the highest version (the first one seen among
    /// equals). `None` where no package declares a dependency.
    pub fn get_dependencies(&self) -> (r: Option<Vec<PackageDependency>>)
        ensures
            r is None <==> all_declared(self.packages@).len() == 0,
            r matches Some(v) ==> is_resolution_of(v@, all_declared(self.packages@)),
    {
        let mut merged: Vec<PackageDependency> = Vec::new();
        let mut i: usize = 0;
        proof {
            assert(self.packages@.subrange(0, 0) =~= Seq::<Package>::empty());
        }
        while i < self.packages.len()
            invariant
                0 <= i <= self.packages@.len(),
                is_resolution_of(merged@, all_declared(self.packages@.subrange(0, i as int))),
                merged@.len() == 0 <==> all_declared(self.packages@.subrange(0, i as int)).len() == 0,
            decreases self.packages@.len() - i,
        {
            let ghost before = all_declared(self.packages@.subrange(0, i as int));
            proof {
                assert(self.packages@.subrange(0, i + 1).drop_last() =~= self.packages@.subrange(0, i as int));
            }
            match &self.packages[i].dependencies {
                Some(deps) => {
                    let mut j: usize = 0;
                    proof {
                        assert(before + dependency_models(deps@.subrange(0, 0)) =~= before);
                    }
                    while j < deps.len()
                        invariant
                            0 <= j <= deps@.len(),
                            is_resolution_of(merged@, before + dependency_models(deps@.subrange(0, j as int))),
                            merged@.len() == 0 <==> (before + dependency_models(deps@.subrange(0, j as int))).len() == 0,
                        decreases deps@.len() - j,
                    {
                        let ghost seen = before + dependency_models(deps@.subrange(0, j as int));
                        proof {
                            assert(before + dependency_models(deps@.subrange(0, j + 1)) =~= seen.push(deps@[j as int]@));
                        }
                        merge_dependency(&mut merged, &deps[j], Ghost(seen));
                        proof {
                            if merged@.len() == 0 {
                                assert(exists|k: int| 0 <= k < merged@.len() && #[trigger] merged@[k].name@ == seen.push(deps@[j as int]@)[seen.len() as int].0);
                            }
                        }
                        j = j + 1;
                    }
                    proof {
                        assert(deps@.subrange(0, deps@.len() as int) =~= deps@);
                        assert(all_declared(self.packages@.subrange(0, i + 1)) == before + dependency_models(deps@));
                    }
                },
                None => {
                    proof {
                        assert(all_declared(self.packages@.subrange(0, i + 1)) =~= before);
                    }
                },
            }
            i = i + 1;
        }
        proof {
            assert(self.packages@.subrange(0, self.packages@.len() as int) =~= self.packages@);
        }
        if merged.len() == 0 {
            None
        } else {
            Some(merged)
        }
    }
}

} // verus!
