//! The version workflow: from the latest commit message to the package to
//! bump, its new version, and the steps that publish it.
use vstd::prelude::*;
use crate::error::ConfigurationError;
use crate::json::{JsonValue, member, string_text, find_member};
use crate::project_config::{Version, Package, SalesforceProjectConfig, parse_version, first_named,
    default_package_index, lemma_first_flagged_bounds, lemma_first_named_bounds};
use crate::text::{chars_of, string_of, slice_chars, find_char, first_index, before_char,
    seq_contains, contains_chars};

verus! {

/// How a commit prefix moves a version.
#[derive(Debug, Clone, Copy, PartialEq, Eq, Structural)]
pub enum BumpKind {
    Major,
    Minor,
    Patch,
    Unchanged,
}

/// A `!` anywhere marks a breaking change; otherwise `feat` a feature and
/// `fix` a fix; anything else leaves the version as it is.
pub open spec fn bump_kind(prefix: Seq<char>) -> BumpKind {
    if seq_contains(prefix, seq!['!']) {
        BumpKind::Major
    } else if seq_contains(prefix, seq!['f', 'e', 'a', 't']) {
        BumpKind::Minor
    } else if seq_contains(prefix, seq!['f', 'i', 'x']) {
        BumpKind::Patch
    } else {
        BumpKind::Unchanged
    }
}

/// Whether the field that `prefix` bumps has room for one more.
pub open spec fn can_bump(v: Version, prefix: Seq<char>) -> bool {
    match bump_kind(prefix) {
        BumpKind::Major => v.major < i32::MAX,
        BumpKind::Minor => v.minor < i32::MAX,
        BumpKind::Patch => v.patch < i32::MAX,
        BumpKind::Unchanged => true,
    }
}

/// The version after the bump that `prefix` calls for: one field goes up
/// by one and the other two stay as they are.
pub open spec fn bumped(v: Version, prefix: Seq<char>) -> Version {
    match bump_kind(prefix) {
        BumpKind::Major => Version { major: (v.major + 1) as i32, ..v },
        BumpKind::Minor => Version { minor: (v.minor + 1) as i32, ..v },
        BumpKind::Patch => Version { patch: (v.patch + 1) as i32, ..v },
        BumpKind::Unchanged => v,
    }
}

/// The commit prefix: what precedes the first `:` of the message.
pub open spec fn commit_prefix(message: Seq<char>) -> Seq<char> {
    before_char(message, ':')
}

/// The package that a prefix names between `(` and the next `)`; empty
/// where it names none.
pub open spec fn scope_name(prefix: Seq<char>) -> Seq<char> {
    let open = first_index(prefix, '(', 0);
    let close = first_index(prefix, ')', open + 1);
    if open < prefix.len() && close < prefix.len() {
        prefix.subrange(open + 1, close)
    } else {
        Seq::empty()
    }
}

/// The prefix without its parenthesized scope (`"feat(api)!"` becomes
/// `"feat!"`); an unclosed `(` drops everything from it on.
pub open spec fn strip_scope(prefix: Seq<char>) -> Seq<char> {
    let open = first_index(prefix, '(', 0);
    let close = first_index(prefix, ')', open + 1);
    if open >= prefix.len() {
        prefix
    } else if close >= prefix.len() {
        prefix.subrange(0, open)
    } else {
        prefix.subrange(0, open) + prefix.subrange(close + 1, prefix.len() as int)
    }
}

/// The kind of bump that a commit prefix calls for.
pub fn classify_bump(commit_prefix: &str) -> (r: BumpKind)
    ensures
        r == bump_kind(commit_prefix@),
{
    let cs = chars_of(commit_prefix);
    let breaking = vec!['!'];
    let feature = vec!['f', 'e', 'a', 't'];
    let fix = vec!['f', 'i', 'x'];
    assert(breaking@ =~= seq!['!']);
    assert(feature@ =~= seq!['f', 'e', 'a', 't']);
    assert(fix@ =~= seq!['f', 'i', 'x']);
    if contains_chars(&cs, &breaking) {
        BumpKind::Major
    } else if contains_chars(&cs, &feature) {
        BumpKind::Minor
    } else if contains_chars(&cs, &fix) {
        BumpKind::Patch
    } else {
        BumpKind::Unchanged
    }
}

/// Bumps the version as the commit prefix calls for.
pub fn bump_version(commit_prefix: &str, new_version: &mut Version)
    requires
        can_bump(*old(new_version), commit_prefix@),
    ensures
        *final(new_version) == bumped(*old(new_version), commit_prefix@),
{
    match classify_bump(commit_prefix) {
        BumpKind::Major => new_version.major = new_version.major + 1,
        BumpKind::Minor => new_version.minor = new_version.minor + 1,
        BumpKind::Patch => new_version.patch = new_version.patch + 1,
        BumpKind::Unchanged => {},
    }
}

/// The package that the commit prefix names between parentheses, or an
/// empty name.
pub fn get_package_name_from_commit(commit_prefix: &str) -> (r: String)
    ensures
        r@ == scope_name(commit_prefix@),
{
    let cs = chars_of(commit_prefix);
    let open = find_char(&cs, '(', 0);
    if open < cs.len() {
        let close = find_char(&cs, ')', open + 1);
        if close < cs.len() {
            return string_of(&slice_chars(&cs, open + 1, close));
        }
    }
    String::new()
}

/// The commit prefix without its parenthesized scope.
pub fn strip_commit_scope(commit_prefix: &str) -> (r: String)
    ensures
        r@ == strip_scope(commit_prefix@),
{
    let cs = chars_of(commit_prefix);
    let open = find_char(&cs, '(', 0);
    if open >= cs.len() {
        return string_of(&cs);
    }
    let close = find_char(&cs, ')', open + 1);
    let mut kept = slice_chars(&cs, 0, open);
    if close < cs.len() {
        let mut i: usize = close + 1;
        while i < cs.len()
            invariant
                close + 1 <= i <= cs@.len(),
                kept@ == cs@.subrange(0, open as int) + cs@.subrange(close + 1, i as int),
            decreases cs@.len() - i,
        {
            kept.push(cs[i]);
            i = i + 1;
            proof {
                assert(kept@ =~= cs@.subrange(0, open as int) + cs@.subrange(close + 1, i as int));
            }
        }
    }
    string_of(&kept)
}

/// The commit prefix of a message: what precedes its first `:`.
pub fn get_commit_prefix(message: &str) -> (r: String)
    ensures
        r@ == commit_prefix(message@),
{
    let cs = chars_of(message);
    let end = find_char(&cs, ':', 0);
    string_of(&slice_chars(&cs, 0, end))
}

/// A step of publishing a new version, in the order the steps are taken.
#[derive(Debug)]
pub enum VersionAction {
    /// Rewrite the manifest so that the package carries the version.
    WriteManifest { package: String, version: String },
    /// Ask the external tool for a release artifact of the package.
    CreatePackageVersion { package: String, devhub: String },
    /// Stage every change of the working tree and commit it.
    CommitAll { message: String },
    /// Tag the new commit.
    Tag { name: String, message: String },
    /// Push the current branch and all tags.
    PushBranchAndTags,
}

/// What a step is, over character sequences.
pub enum ActionModel {
    WriteManifest(Seq<char>, Seq<char>),
    CreatePackageVersion(Seq<char>, Seq<char>),
    CommitAll(Seq<char>),
    Tag(Seq<char>, Seq<char>),
    PushBranchAndTags,
}

impl View for VersionAction {
    type V = ActionModel;

    open spec fn view(&self) -> ActionModel {
        match self {
            VersionAction::WriteManifest { package, version } => ActionModel::WriteManifest(package@, version@),
            VersionAction::CreatePackageVersion { package, devhub } => ActionModel::CreatePackageVersion(package@, devhub@),
            VersionAction::CommitAll { message } => ActionModel::CommitAll(message@),
            VersionAction::Tag { name, message } => ActionModel::Tag(name@, message@),
            VersionAction::PushBranchAndTags => ActionModel::PushBranchAndTags,
        }
    }
}

pub open spec fn action_models(v: Seq<VersionAction>) -> Seq<ActionModel> {
    v.map_values(|a: VersionAction| a@)
}

/// The message of the release commit.
pub open spec fn release_commit_message() -> Seq<char> {
    "ci: making new version"@
}

/// The steps that publish `version` of `package`: rewrite the manifest,
/// create the release artifact unless this is a dry run, commit, tag the
/// commit with the version, and push where asked.
pub open spec fn release_actions(
    package: Seq<char>,
    version: Seq<char>,
    dry_run: bool,
    push: bool,
    devhub: Seq<char>,
) -> Seq<ActionModel> {
    seq![ActionModel::WriteManifest(package, version)] + (if dry_run {
        Seq::empty()
    } else {
        seq![ActionModel::CreatePackageVersion(package, devhub)]
    }) + seq![ActionModel::CommitAll(release_commit_message()), ActionModel::Tag(version, version)]
        + (if push {
        seq![ActionModel::PushBranchAndTags]
    } else {
        Seq::empty()
    })
}

/// The package that a commit message targets: the one its scope names,
/// else the default package.
pub open spec fn target_package(packages: Seq<Package>, message: Seq<char>) -> Option<int> {
    let name = scope_name(commit_prefix(message));
    if first_named(packages, name, 0) < packages.len() {
        Some(first_named(packages, name, 0))
    } else {
        default_package_index(packages)
    }
}

/// What the version workflow decides: an error, nothing to do, or the
/// package to bump and its new version.
pub open spec fn version_outcome(
    packages: Seq<Package>,
    message: Seq<char>,
    dry_run: bool,
    has_devhub: bool,
) -> Result<Option<(int, Version)>, ConfigurationError> {
    if !dry_run && !has_devhub {
        Err(ConfigurationError::DevhubRequired)
    } else {
        match target_package(packages, message) {
            None => Err(ConfigurationError::NoPackages),
            Some(i) => match parse_version(packages[i].version_number@) {
                None => Err(ConfigurationError::MalformedPackageVersion),
                Some(current) => {
                    let prefix = strip_scope(commit_prefix(message));
                    if !can_bump(current, prefix) {
                        Err(ConfigurationError::VersionOutOfRange)
                    } else if bumped(current, prefix).spec_is_higher_than(current) {
                        Ok(Some((i, bumped(current, prefix))))
                    } else {
                        Ok(None)
                    }
                },
            },
        }
    }
}

/// Whether the field that the prefix bumps has room for one more.
fn bump_fits(current: &Version, commit_prefix: &str) -> (r: bool)
    ensures
        r == can_bump(*current, commit_prefix@),
{
    match classify_bump(commit_prefix) {
        BumpKind::Major => current.major < i32::MAX,
        BumpKind::Minor => current.minor < i32::MAX,
        BumpKind::Patch => current.patch < i32::MAX,
        BumpKind::Unchanged => true,
    }
}

/// Decides the version workflow for the latest commit message: which
/// package to bump and to what, recording the new version in the project,
/// and the steps that publish it. A prefix that calls for no bump leaves
/// everything as it is and asks for no step.
pub fn run(
    project_config: &mut SalesforceProjectConfig,
    commit_message: &str,
    dry_run: bool,
    push: bool,
    devhub: &Option<String>,
) -> (r: Result<Vec<VersionAction>, ConfigurationError>)
    ensures
        match version_outcome(old(project_config).packages@, commit_message@, dry_run, devhub is Some) {
            Err(e) => r == Err::<Vec<VersionAction>, ConfigurationError>(e) && *final(project_config) == *old(project_config),
            Ok(None) => r is Ok && r->Ok_0@.len() == 0 && *final(project_config) == *old(project_config),
            Ok(Some((i, v))) => {
                &&& r is Ok
                &&& action_models(r->Ok_0@) == release_actions(
                    old(project_config).packages@[i].name@,
                    v.text(),
                    dry_run,
                    push,
                    if dry_run { Seq::empty() } else { devhub->0@ },
                )
                &&& final(project_config).name == old(project_config).name
                &&& final(project_config).packages@.len() == old(project_config).packages@.len()
                &&& final(project_config).packages@[i].version_number@ == v.text()
                &&& (Package { version_number: old(project_config).packages@[i].version_number, ..final(project_config).packages@[i] }) == old(project_config).packages@[i]
                &&& forall|k: int| 0 <= k < old(project_config).packages@.len() && k != i ==> final(project_config).packages@[k] == old(project_config).packages@[k]
            },
        },
{
    if !dry_run && devhub.is_none() {
        return Err(ConfigurationError::DevhubRequired);
    }
    proof {
        lemma_first_flagged_bounds(project_config.packages@, 0);
        lemma_first_named_bounds(project_config.packages@, scope_name(commit_prefix(commit_message@)), 0);
    }
    proof {
        assert(project_config.packages@.len() == project_config.packages.len());
    }
    let prefix = get_commit_prefix(commit_message);
    let name = get_package_name_from_commit(prefix.as_str());
    let index = match project_config.package_index(name.as_str()) {
        Ok(i) => i,
        Err(_) => match project_config.default_package_index() {
            Ok(i) => i,
            Err(e) => return Err(e),
        },
    };
    assert(target_package(project_config.packages@, commit_message@) == Some(index as int));
    let current = match Version::parse(project_config.packages[index].version_number.as_str()) {
        Some(v) => v,
        None => return Err(ConfigurationError::MalformedPackageVersion),
    };
    let stripped = strip_commit_scope(prefix.as_str());
    if !bump_fits(&current, stripped.as_str()) {
        return Err(ConfigurationError::VersionOutOfRange);
    }
    let mut new_version = current;
    bump_version(stripped.as_str(), &mut new_version);
    if !new_version.is_higher_than(&current) {
        return Ok(Vec::new());
    }
    let package = project_config.packages[index].name.clone();
    project_config.set_package_version(index, &new_version);
    let version = new_version.to_string();
    let mut actions: Vec<VersionAction> = Vec::new();
    actions.push(VersionAction::WriteManifest { package: package.clone(), version: version.clone() });
    if !dry_run {
        match devhub {
            Some(alias) => actions.push(VersionAction::CreatePackageVersion { package: package.clone(), devhub: alias.clone() }),
            None => {},
        }
    }
    actions.push(VersionAction::CommitAll { message: "ci: making new version".to_owned() });
    actions.push(VersionAction::Tag { name: version.clone(), message: version.clone() });
    if push {
        actions.push(VersionAction::PushBranchAndTags);
    }
    proof {
        assert(action_models(actions@) =~= release_actions(
            package@,
            version@,
            dry_run,
            push,
            if dry_run { Seq::empty() } else { devhub->0@ },
        ));
    }
    Ok(actions)
}

/// Whether a package directory entry is the one of the named package.
pub open spec fn is_target_directory(entry: JsonValue, name: Seq<char>) -> bool {
    match entry {
        JsonValue::Object(fields) => match member(fields@, "package"@) {
            Some(v) => string_text(v) == Some(name),
            None => false,
        },
        _ => false,
    }
}

/// `out` holds the members of `fields` in the same order, each
/// `versionNumber` set to `version` and every other member unchanged.
pub open spec fn version_replaced(
    fields: Seq<(String, JsonValue)>,
    out: Seq<(String, JsonValue)>,
    version: Seq<char>,
) -> bool {
    &&& out.len() == fields.len()
    &&& forall|k: int| 0 <= k < fields.len() ==> (#[trigger] out[k]).0 == fields[k].0 && if fields[k].0@ == "versionNumber"@ {
        string_text(out[k].1) == Some(version)
    } else {
        out[k].1 == fields[k].1
    }
}

/// The entry as persisted: the named package's entry with its version
/// replaced, any other entry unchanged.
pub open spec fn directory_persisted(entry: JsonValue, out: JsonValue, name: Seq<char>, version: Seq<char>) -> bool {
    if is_target_directory(entry, name) {
        match (entry, out) {
            (JsonValue::Object(fields), JsonValue::Object(out_fields)) => version_replaced(fields@, out_fields@, version),
            _ => false,
        }
    } else {
        out == entry
    }
}

/// The member as persisted: a `packageDirectories` array has each entry
/// persisted, in the same order; anything else is unchanged.
pub open spec fn member_persisted(
    m: (String, JsonValue),
    out: (String, JsonValue),
    name: Seq<char>,
    version: Seq<char>,
) -> bool {
    &&& out.0 == m.0
    &&& if m.0@ == "packageDirectories"@ && m.1 is Array {
        match (m.1, out.1) {
            (JsonValue::Array(entries), JsonValue::Array(out_entries)) => {
                &&& out_entries@.len() == entries@.len()
                &&& forall|j: int| 0 <= j < entries@.len() ==> directory_persisted(#[trigger] entries@[j], out_entries@[j], name, version)
            },
            _ => false,
        }
    } else {
        out.1 == m.1
    }
}

/// A manifest document: an object whose `packageDirectories` member is an
/// array.
pub open spec fn is_manifest_document(document: JsonValue) -> bool {
    match document {
        JsonValue::Object(fields) => match member(fields@, "packageDirectories"@) {
            Some(v) => v is Array,
            None => false,
        },
        _ => false,
    }
}

/// The document as persisted after the named package moved to `version`:
/// the same members in the same order, each persisted.
pub open spec fn document_persisted(document: JsonValue, out: JsonValue, name: Seq<char>, version: Seq<char>) -> bool {
    match (document, out) {
        (JsonValue::Object(fields), JsonValue::Object(out_fields)) => {
            &&& out_fields@.len() == fields@.len()
            &&& forall|k: int| 0 <= k < fields@.len() ==> member_persisted(#[trigger] fields@[k], out_fields@[k], name, version)
        },
        _ => false,
    }
}

/// The package directory entries of a manifest document.
pub open spec fn directories(document: JsonValue) -> Seq<JsonValue> {
    match document {
        JsonValue::Object(fields) => match member(fields@, "packageDirectories"@) {
            Some(JsonValue::Array(entries)) => entries@,
            _ => Seq::empty(),
        },
        _ => Seq::empty(),
    }
}

/// `out` equals `entry`, except that in the named package's entry the
/// `versionNumber` members may differ; member names and order stay.
pub open spec fn unchanged_but_version(entry: JsonValue, out: JsonValue, name: Seq<char>) -> bool {
    if is_target_directory(entry, name) {
        match (entry, out) {
            (JsonValue::Object(fields), JsonValue::Object(out_fields)) => {
                &&& out_fields@.len() == fields@.len()
                &&& forall|m: int| 0 <= m < fields@.len() ==> (#[trigger] out_fields@[m]).0 == fields@[m].0
                    && (fields@[m].0@ != "versionNumber"@ ==> out_fields@[m].1 == fields@[m].1)
            },
            _ => false,
        }
    } else {
        out == entry
    }
}

proof fn lemma_member_persisted(
    fields: Seq<(String, JsonValue)>,
    out_fields: Seq<(String, JsonValue)>,
    name: Seq<char>,
    version: Seq<char>,
)
    requires
        out_fields.len() == fields.len(),
        forall|k: int| 0 <= k < fields.len() ==> member_persisted(#[trigger] fields[k], out_fields[k], name, version),
    ensures
        member(fields, "packageDirectories"@) is Some ==> exists|k: int| 0 <= k < fields.len()
            && member(fields, "packageDirectories"@) == Some(#[trigger] fields[k].1)
            && member(out_fields, "packageDirectories"@) == Some(out_fields[k].1)
            && fields[k].0@ == "packageDirectories"@,
    decreases fields.len(),
{
    if fields.len() > 0 {
        assert(member_persisted(fields[0], out_fields[0], name, version));
        if fields[0].0@ != "packageDirectories"@ {
            let f = fields.drop_first();
            let o = out_fields.drop_first();
            assert forall|k: int| 0 <= k < f.len() implies member_persisted(#[trigger] f[k], o[k], name, version) by {
                assert(f[k] == fields[k + 1]);
                assert(o[k] == out_fields[k + 1]);
                assert(member_persisted(fields[k + 1], out_fields[k + 1], name, version));
            }
            lemma_member_persisted(f, o, name, version);
            if member(fields, "packageDirectories"@) is Some {
                let k = choose|k: int| 0 <= k < f.len() && member(f, "packageDirectories"@) == Some(#[trigger] f[k].1)
                    && member(o, "packageDirectories"@) == Some(o[k].1) && f[k].0@ == "packageDirectories"@;
                assert(fields[k + 1] == f[k]);
                assert(out_fields[k + 1] == o[k]);
            }
        } else {
            assert(fields[0].1 == fields[0].1);
        }
    }
}

/// Persisting changes nothing but the version of the named package: the
/// document keeps its members in order, its package directory entries stay
/// in order, and each entry is unchanged except the named package's
/// `versionNumber`.
pub proof fn lemma_persist_changes_only_target_version(
    document: JsonValue,
    out: JsonValue,
    name: Seq<char>,
    version: Seq<char>,
)
    requires
        is_manifest_document(document),
        document_persisted(document, out, name, version),
    ensures
        directories(out).len() == directories(document).len(),
        forall|j: int| 0 <= j < directories(document).len()
            ==> unchanged_but_version(#[trigger] directories(document)[j], directories(out)[j], name),
{
    if let (JsonValue::Object(fields), JsonValue::Object(out_fields)) = (document, out) {
        lemma_member_persisted(fields@, out_fields@, name, version);
        let k = choose|k: int| 0 <= k < fields@.len()
            && member(fields@, "packageDirectories"@) == Some(#[trigger] fields@[k].1)
            && member(out_fields@, "packageDirectories"@) == Some(out_fields@[k].1)
            && fields@[k].0@ == "packageDirectories"@;
        assert(member_persisted(fields@[k], out_fields@[k], name, version));
        assert forall|j: int| 0 <= j < directories(document).len()
            implies unchanged_but_version(#[trigger] directories(document)[j], directories(out)[j], name) by {
            if let (JsonValue::Array(entries), JsonValue::Array(out_entries)) = (fields@[k].1, out_fields@[k].1) {
                assert(directory_persisted(entries@[j], out_entries@[j], name, version));
            }
        }
    }
}

/// The entry with every `versionNumber` set to `version`, where it is the
/// named package's entry; any other entry unchanged.
fn persist_directory(entry: JsonValue, name: &String, version: &String) -> (r: JsonValue)
    ensures
        directory_persisted(entry, r, name@, version@),
{
    match entry {
        JsonValue::Object(mut fields) => {
            let target = match find_member(&fields, "package") {
                Some(JsonValue::Str(s)) => *s == *name,
                _ => false,
            };
            if !target {
                return JsonValue::Object(fields);
            }
            let key = "versionNumber".to_owned();
            let ghost input = fields@;
            let mut out: Vec<(String, JsonValue)> = Vec::new();
            while fields.len() > 0
                invariant
                    key@ == "versionNumber"@,
                    out@.len() + fields@.len() == input.len(),
                    fields@ == input.subrange(out@.len() as int, input.len() as int),
                    version_replaced(input.subrange(0, out@.len() as int), out@, version@),
                decreases fields@.len(),
            {
                let ghost n: int = out@.len() as int;
                let (k, v) = fields.remove(0);
                proof {
                    assert(input[n as int] == (k, v));
                    assert(fields@ =~= input.subrange(n + 1, input.len() as int));
                }
                if k == key {
                    out.push((k, JsonValue::Str(version.clone())));
                } else {
                    out.push((k, v));
                }
                proof {
                    assert forall|q: int| 0 <= q < n + 1 implies (#[trigger] out@[q]).0 == input.subrange(0, n + 1)[q].0 && if input.subrange(0, n + 1)[q].0@ == "versionNumber"@ {
                        string_text(out@[q].1) == Some(version@)
                    } else {
                        out@[q].1 == input.subrange(0, n + 1)[q].1
                    } by {
                        assert(input.subrange(0, n + 1)[q] == input[q]);
                        if q < n {
                            assert(input.subrange(0, n as int)[q] == input[q]);
                        }
                    }
                }
            }
            proof {
                assert(input.subrange(0, input.len() as int) =~= input);
            }
            JsonValue::Object(out)
        },
        other => other,
    }
}

/// Persists each package directory entry, in order.
fn persist_directories(entries: Vec<JsonValue>, name: &String, version: &String) -> (r: Vec<JsonValue>)
    ensures
        r@.len() == entries@.len(),
        forall|j: int| 0 <= j < entries@.len() ==> directory_persisted(#[trigger] entries@[j], r@[j], name@, version@),
{
    let ghost input = entries@;
    let mut rest = entries;
    let mut out: Vec<JsonValue> = Vec::new();
    while rest.len() > 0
        invariant
            out@.len() + rest@.len() == input.len(),
            rest@ == input.subrange(out@.len() as int, input.len() as int),
            forall|j: int| 0 <= j < out@.len() ==> directory_persisted(#[trigger] input[j], out@[j], name@, version@),
        decreases rest@.len(),
    {
        let ghost n: int = out@.len() as int;
        let e = rest.remove(0);
        proof {
            assert(input[n as int] == e);
            assert(rest@ =~= input.subrange(n + 1, input.len() as int));
        }
        out.push(persist_directory(e, name, version));
    }
    out
}

/// The manifest document with the named package's version number set to
/// `version`: every member keeps its place, and each package directory
/// entry too; only that entry's `versionNumber` changes.
pub fn generate_new_sfdx_project(document: JsonValue, package_name: &str, version: &str) -> (r: Result<JsonValue, ConfigurationError>)
    ensures
        is_manifest_document(document) ==> r is Ok && document_persisted(document, r->Ok_0, package_name@, version@),
        !is_manifest_document(document) ==> r == Err::<JsonValue, ConfigurationError>(ConfigurationError::MalformedManifest),
{
    match document {
        JsonValue::Object(fields) => {
            let well_formed = match find_member(&fields, "packageDirectories") {
                Some(JsonValue::Array(_)) => true,
                _ => false,
            };
            if !well_formed {
                return Err(ConfigurationError::MalformedManifest);
            }
            let name = package_name.to_owned();
            let text = version.to_owned();
            let key = "packageDirectories".to_owned();
            let ghost input = fields@;
            let mut rest = fields;
            let mut out: Vec<(String, JsonValue)> = Vec::new();
            while rest.len() > 0
                invariant
                    key@ == "packageDirectories"@,
                    name@ == package_name@,
                    text@ == version@,
                    out@.len() + rest@.len() == input.len(),
                    rest@ == input.subrange(out@.len() as int, input.len() as int),
                    forall|k: int| 0 <= k < out@.len() ==> member_persisted(#[trigger] input[k], out@[k], package_name@, version@),
                decreases rest@.len(),
            {
                let ghost n: int = out@.len() as int;
                let (k, v) = rest.remove(0);
                proof {
                    assert(input[n as int] == (k, v));
                    assert(rest@ =~= input.subrange(n + 1, input.len() as int));
                }
                if k == key {
                    match v {
                        JsonValue::Array(entries) => {
                            let persisted = persist_directories(entries, &name, &text);
                            out.push((k, JsonValue::Array(persisted)));
                        },
                        other => out.push((k, other)),
                    }
                } else {
                    out.push((k, v));
                }
            }
            Ok(JsonValue::Object(out))
        },
        _ => Err(ConfigurationError::MalformedManifest),
    }
}

} // verus!
