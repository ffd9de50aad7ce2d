use sf_release::commands::version::{generate_new_sfdx_project, run, VersionAction};
use sf_release::error::ConfigurationError;
use sf_release::json::JsonValue;
use sf_release::project_config::{PackageDirectory, ProjectManifest, SalesforceProjectConfig};

fn dir(package: &str, version: &str, default: Option<bool>) -> PackageDirectory {
    PackageDirectory {
        dependencies: None,
        package: package.to_string(),
        path: format!("{}-app", package),
        version_number: version.to_string(),
        version_name: None,
        version_description: None,
        default,
        unpackaged_metadata: None,
        release_notes_url: None,
        post_install_url: None,
        scope_profiles: None,
        definition_file: None,
    }
}

fn config(dirs: Vec<PackageDirectory>) -> SalesforceProjectConfig {
    let m = ProjectManifest { name: "project".to_string(), package_directories: dirs, package_aliases: None };
    SalesforceProjectConfig::from_manifest(&m).unwrap()
}

fn tag_of(actions: &[VersionAction]) -> Option<String> {
    actions.iter().find_map(|a| match a {
        VersionAction::Tag { name, .. } => Some(name.clone()),
        _ => None,
    })
}

#[test]
fn fix_on_default_package_bumps_patch_and_tags() {
    let mut c = config(vec![dir("core", "1.0.0", Some(true))]);
    let actions = run(&mut c, "fix: patch the thing", true, false, &None).unwrap();
    assert_eq!(c.packages[0].version_number, "1.0.1");
    assert_eq!(tag_of(&actions), Some("1.0.1".to_string()));
    assert_eq!(actions.len(), 3);
    assert!(matches!(&actions[0], VersionAction::WriteManifest { package, version } if package == "core" && version == "1.0.1"));
    assert!(matches!(&actions[1], VersionAction::CommitAll { message } if message == "ci: making new version"));
    assert!(matches!(&actions[2], VersionAction::Tag { name, message } if name == "1.0.1" && message == "1.0.1"));
}

#[test]
fn breaking_feature_on_named_package_bumps_major() {
    let mut c = config(vec![dir("core", "1.0.0", Some(true)), dir("api", "3.4.1", None)]);
    let actions = run(&mut c, "feat(api)!: rename field", true, false, &None).unwrap();
    assert_eq!(c.packages[1].version_number, "4.4.1");
    assert_eq!(c.packages[0].version_number, "1.0.0");
    assert_eq!(tag_of(&actions), Some("4.4.1".to_string()));
}

#[test]
fn unknown_scope_falls_back_to_default_package() {
    let mut c = config(vec![dir("core", "1.0.0", None), dir("ui", "2.0.0", Some(true))]);
    run(&mut c, "feat(nothing): x", true, false, &None).unwrap();
    assert_eq!(c.packages[1].version_number, "2.1.0");
    assert_eq!(c.packages[0].version_number, "1.0.0");
}

#[test]
fn release_steps_include_artifact_and_push() {
    let mut c = config(vec![dir("core", "1.0.0", None)]);
    let actions = run(&mut c, "feat: thing", false, true, &Some("hub".to_string())).unwrap();
    assert_eq!(actions.len(), 5);
    assert!(matches!(&actions[1], VersionAction::CreatePackageVersion { package, devhub } if package == "core" && devhub == "hub"));
    assert!(matches!(&actions[4], VersionAction::PushBranchAndTags));
}

#[test]
fn no_bump_is_a_no_op() {
    let mut c = config(vec![dir("core", "1.0.0", None)]);
    let actions = run(&mut c, "chore: tidy", true, true, &None).unwrap();
    assert!(actions.is_empty());
    assert_eq!(c.packages[0].version_number, "1.0.0");
}

#[test]
fn devhub_is_required_unless_dry_run() {
    let mut c = config(vec![dir("core", "1.0.0", None)]);
    assert_eq!(run(&mut c, "fix: x", false, false, &None).unwrap_err(), ConfigurationError::DevhubRequired);
    assert_eq!(c.packages[0].version_number, "1.0.0");
}

#[test]
fn workflow_errors() {
    let mut empty = config(vec![]);
    assert_eq!(run(&mut empty, "fix: x", true, false, &None).unwrap_err(), ConfigurationError::NoPackages);
    let mut bad = config(vec![dir("core", "one", None)]);
    assert_eq!(run(&mut bad, "fix: x", true, false, &None).unwrap_err(), ConfigurationError::MalformedPackageVersion);
    let mut full = config(vec![dir("core", "2147483647.0.0", None)]);
    assert_eq!(run(&mut full, "feat!: x", true, false, &None).unwrap_err(), ConfigurationError::VersionOutOfRange);
    assert_eq!(full.packages[0].version_number, "2147483647.0.0");
}

fn s(t: &str) -> JsonValue {
    JsonValue::Str(t.to_string())
}

fn entry(package: &str, version: &str) -> JsonValue {
    JsonValue::Object(vec![
        ("path".to_string(), s("force-app")),
        ("package".to_string(), s(package)),
        ("versionNumber".to_string(), s(version)),
        ("default".to_string(), JsonValue::Bool(true)),
    ])
}

fn document() -> JsonValue {
    JsonValue::Object(vec![
        ("name".to_string(), s("project")),
        ("packageDirectories".to_string(), JsonValue::Array(vec![entry("core", "1.0.0.NEXT"), entry("api", "3.4.1.NEXT")])),
        ("sourceApiVersion".to_string(), JsonValue::Number("62.0".to_string())),
    ])
}

fn members(v: &JsonValue) -> &Vec<(String, JsonValue)> {
    match v {
        JsonValue::Object(m) => m,
        _ => panic!("not an object"),
    }
}

fn text(v: &JsonValue) -> &str {
    match v {
        JsonValue::Str(t) => t,
        _ => panic!("not a string"),
    }
}

#[test]
fn persist_changes_only_the_target_version() {
    let out = generate_new_sfdx_project(document(), "api", "4.0.0").unwrap();
    let top = members(&out);
    let keys: Vec<&str> = top.iter().map(|(k, _)| k.as_str()).collect();
    assert_eq!(keys, vec!["name", "packageDirectories", "sourceApiVersion"]);
    let entries = match &top[1].1 {
        JsonValue::Array(e) => e,
        _ => panic!("not an array"),
    };
    assert_eq!(entries.len(), 2);
    let core = members(&entries[0]);
    assert_eq!(text(&core[2].1), "1.0.0.NEXT");
    let api = members(&entries[1]);
    let api_keys: Vec<&str> = api.iter().map(|(k, _)| k.as_str()).collect();
    assert_eq!(api_keys, vec!["path", "package", "versionNumber", "default"]);
    assert_eq!(text(&api[0].1), "force-app");
    assert_eq!(text(&api[2].1), "4.0.0");
    assert!(matches!(&api[3].1, JsonValue::Bool(true)));
    assert!(matches!(&top[2].1, JsonValue::Number(n) if n == "62.0"));
}

#[test]
fn persist_rejects_malformed_document() {
    assert_eq!(generate_new_sfdx_project(JsonValue::Null, "api", "1.0.0").unwrap_err(), ConfigurationError::MalformedManifest);
    let no_dirs = JsonValue::Object(vec![("name".to_string(), s("p"))]);
    assert_eq!(generate_new_sfdx_project(no_dirs, "api", "1.0.0").unwrap_err(), ConfigurationError::MalformedManifest);
}
