use sf_release::error::ConfigurationError;
use sf_release::project_config::{
    DependencyDeclaration, PackageAlias, PackageDirectory, ProjectManifest, SalesforceProjectConfig, Version,
};
use sf_release::json::JsonValue;
use sf_release::utils::project_config::ProjectConfig;

fn model(v: serde_json::Value) -> JsonValue {
    match v {
        serde_json::Value::Null => JsonValue::Null,
        serde_json::Value::Bool(b) => JsonValue::Bool(b),
        serde_json::Value::Number(n) => JsonValue::Number(n.to_string()),
        serde_json::Value::String(s) => JsonValue::Str(s),
        serde_json::Value::Array(a) => JsonValue::Array(a.into_iter().map(model).collect()),
        serde_json::Value::Object(o) => JsonValue::Object(o.into_iter().map(|(k, v)| (k, model(v))).collect()),
    }
}

fn read_text(text: &str) -> Result<ProjectManifest, ConfigurationError> {
    ProjectManifest::from_json(&model(serde_json::from_str(text).unwrap()))
}

const DEPENDENCY_LISTING: &str = r#"{
  "packageDirectories": [
    {
      "path": "force-app",
      "default": true,
      "package": "A",
      "versionNumber": "1.0.0.NEXT",
      "dependencies": [{ "package": "A", "versionNumber": "1.0" }]
    },
    {
      "path": "other-app",
      "package": "B",
      "versionNumber": "1.0.0.NEXT",
      "dependencies": [{ "package": "B@2.0" }]
    }
  ],
  "name": "test",
  "packageAliases": { "A": "04tB00000000000000", "B@2.0": "04tB00000000000001" }
}"#;

const TWO_PACKAGES: &str = r#"{
  "packageDirectories": [
    { "path": "a-app", "default": true, "package": "A", "versionNumber": "1.0.0.NEXT" },
    { "path": "b-app", "package": "B@2.0", "versionNumber": "2.0.0.NEXT", "dependencies": null }
  ],
  "name": "test"
}"#;

fn dep(package: &str, version: Option<&str>) -> DependencyDeclaration {
    DependencyDeclaration { package: package.to_string(), version_number: version.map(|s| s.to_string()) }
}

fn dir(package: &str, version: &str, default: Option<bool>, deps: Option<Vec<DependencyDeclaration>>) -> PackageDirectory {
    PackageDirectory {
        dependencies: deps,
        package: package.to_string(),
        path: format!("{}-app", package),
        version_number: version.to_string(),
        version_name: None,
        version_description: None,
        default,
        unpackaged_metadata: None,
        release_notes_url: None,
        post_install_url: None,
        scope_profiles: None,
        definition_file: None,
    }
}

fn alias(a: &str, id: &str) -> PackageAlias {
    PackageAlias { alias: a.to_string(), id: id.to_string() }
}

fn manifest(dirs: Vec<PackageDirectory>, aliases: Option<Vec<PackageAlias>>) -> ProjectManifest {
    ProjectManifest { name: "project".to_string(), package_directories: dirs, package_aliases: aliases }
}

#[test]
fn shared_dependency_resolves_to_highest_version() {
    let m = manifest(
        vec![
            dir("A", "1.0.0", None, Some(vec![dep("shared", Some("1.0.0"))])),
            dir("B", "1.0.0", None, Some(vec![dep("shared", Some("1.2.0"))])),
        ],
        None,
    );
    let config = SalesforceProjectConfig::from_manifest(&m).unwrap();
    let deps = config.get_dependencies().unwrap();
    assert_eq!(deps.len(), 1);
    assert_eq!(deps[0].name, "shared");
    assert_eq!(deps[0].get_version(), Version { major: 1, minor: 2, patch: 0 });
}

#[test]
fn shared_dependency_takes_alias_of_higher_version() {
    let m = manifest(
        vec![
            dir("A", "1.0.0", None, Some(vec![dep("shared", Some("1.0.0"))])),
            dir("B", "1.0.0", None, Some(vec![dep("shared", Some("2.0.0"))])),
        ],
        Some(vec![alias("shared@1.0.0", "04tA"), alias("shared@2.0.0", "04tB")]),
    );
    let config = SalesforceProjectConfig::from_manifest(&m).unwrap();
    let deps = config.get_dependencies().unwrap();
    assert_eq!(deps.len(), 1);
    assert_eq!(deps[0].name, "shared");
    assert_eq!(deps[0].version, Version { major: 2, minor: 0, patch: 0 });
    assert_eq!(deps[0].id, "04tB");
}

#[test]
fn resolved_dependencies_are_in_name_order() {
    let m = manifest(
        vec![
            dir("A", "1.0.0", None, Some(vec![dep("zeta", Some("1.0.0")), dep("alpha", Some("3.0.0"))])),
            dir("B", "1.0.0", None, Some(vec![dep("mid", Some("0.1.0")), dep("alpha", Some("2.9.9"))])),
        ],
        None,
    );
    let config = SalesforceProjectConfig::from_manifest(&m).unwrap();
    let deps = config.get_dependencies().unwrap();
    let names: Vec<&str> = deps.iter().map(|d| d.name.as_str()).collect();
    assert_eq!(names, vec!["alpha", "mid", "zeta"]);
    assert_eq!(deps[0].version, Version { major: 3, minor: 0, patch: 0 });
}

#[test]
fn equal_versions_keep_the_first_declaration() {
    let m = manifest(
        vec![
            dir("A", "1.0.0", None, Some(vec![dep("shared", Some("1.0.0-beta"))])),
            dir("B", "1.0.0", None, Some(vec![dep("shared", Some("1.0.0"))])),
        ],
        Some(vec![alias("shared@1.0.0-beta", "first"), alias("shared@1.0.0", "second")]),
    );
    let config = SalesforceProjectConfig::from_manifest(&m).unwrap();
    let deps = config.get_dependencies().unwrap();
    assert_eq!(deps.len(), 1);
    assert_eq!(deps[0].id, "first");
}

#[test]
fn no_dependencies_resolve_to_none() {
    let m = manifest(vec![dir("A", "1.0.0", None, None), dir("B", "1.0.0", None, Some(vec![]))], None);
    let config = SalesforceProjectConfig::from_manifest(&m).unwrap();
    assert!(config.get_dependencies().is_none());
}

#[test]
fn version_in_name_uses_bare_name_alias() {
    let m = manifest(
        vec![dir("A", "1.0.0", None, Some(vec![dep("B@2.0.1-3", None)]))],
        Some(vec![alias("B@2.0.1-3", "04tB00000000000001")]),
    );
    let config = SalesforceProjectConfig::from_manifest(&m).unwrap();
    let deps = config.get_dependencies().unwrap();
    assert_eq!(deps[0].name, "B@2.0.1-3");
    assert_eq!(deps[0].version, Version { major: 2, minor: 0, patch: 1 });
    assert_eq!(deps[0].id, "04tB00000000000001");
}

#[test]
fn missing_alias_gives_empty_id() {
    let m = manifest(vec![dir("A", "1.0.0", None, Some(vec![dep("shared", Some("1.0.0"))]))], Some(vec![]));
    let config = SalesforceProjectConfig::from_manifest(&m).unwrap();
    assert_eq!(config.get_dependencies().unwrap()[0].id, "");
}

#[test]
fn dependency_without_version_is_rejected() {
    let m = manifest(vec![dir("A", "1.0.0", None, Some(vec![dep("shared", None)]))], None);
    assert_eq!(SalesforceProjectConfig::from_manifest(&m).unwrap_err(), ConfigurationError::MissingDependencyVersion);
}

#[test]
fn dependency_with_malformed_version_is_rejected() {
    let m = manifest(vec![dir("A", "1.0.0", None, Some(vec![dep("shared", Some("1.0"))]))], None);
    assert_eq!(SalesforceProjectConfig::from_manifest(&m).unwrap_err(), ConfigurationError::MalformedDependencyVersion);
}

#[test]
fn default_package_is_first_flagged() {
    let m = manifest(
        vec![dir("A", "1.0.0", None, None), dir("B", "1.0.0", Some(true), None), dir("C", "1.0.0", Some(true), None)],
        None,
    );
    let config = SalesforceProjectConfig::from_manifest(&m).unwrap();
    assert_eq!(config.get_default_package().unwrap().name, "B");
    assert_eq!(config.default_package_index().unwrap(), 1);
}

#[test]
fn default_package_falls_back_to_first() {
    let m = manifest(vec![dir("A", "1.0.0", Some(false), None), dir("B", "1.0.0", None, None)], None);
    let config = SalesforceProjectConfig::from_manifest(&m).unwrap();
    assert_eq!(config.get_default_package().unwrap().name, "A");
}

#[test]
fn no_packages_have_no_default() {
    let m = manifest(vec![], None);
    let config = SalesforceProjectConfig::from_manifest(&m).unwrap();
    assert_eq!(config.get_default_package().unwrap_err(), ConfigurationError::NoPackages);
}

#[test]
fn package_lookup_by_name() {
    let m = manifest(vec![dir("A", "1.0.0", None, None), dir("B", "2.0.0", None, None)], None);
    let config = SalesforceProjectConfig::from_manifest(&m).unwrap();
    assert_eq!(config.get_package("B").unwrap().version_number, "2.0.0");
    assert_eq!(config.get_package("C").unwrap_err(), ConfigurationError::PackageNotFound);
    assert_eq!(config.get_name(), "project");
    assert_eq!(config.get_packages().len(), 2);
}

#[test]
fn set_version_rewrites_only_the_version_number() {
    let m = manifest(vec![dir("A", "1.0.0", None, None), dir("B", "2.0.0", None, None)], None);
    let mut config = SalesforceProjectConfig::from_manifest(&m).unwrap();
    config.set_package_version(1, &Version { major: 2, minor: 1, patch: 0 });
    assert_eq!(config.packages[1].version_number, "2.1.0");
    assert_eq!(config.packages[1].path, "B-app");
    assert_eq!(config.packages[0].version_number, "1.0.0");
}

#[test]
fn it_should_read_project_json() {
    let project_config = ProjectConfig::from_manifest(&read_text(DEPENDENCY_LISTING).unwrap());
    assert_eq!(2, project_config.get_packages().len());

    assert_eq!("A", project_config.get_packages()[0].name);
    assert_eq!("1.0", project_config.get_packages()[0].version);
    assert_eq!("04tB00000000000000", project_config.get_packages()[0].id);

    assert_eq!("B@2.0", project_config.get_packages()[1].name);
    assert_eq!("", project_config.get_packages()[1].version);
    assert_eq!("04tB00000000000001", project_config.get_packages()[1].id);
    assert!(project_config.get_paths().is_empty());
    assert!(project_config.get_unpackaged_metadata_path().is_none());
    assert_eq!(project_config.get_name(), "test");
}

#[test]
fn project_config_it_should_read_project_json() {
    let project_config = SalesforceProjectConfig::from_manifest(&read_text(TWO_PACKAGES).unwrap()).unwrap();
    assert_eq!(2, project_config.get_packages().len());
    assert_eq!("A", project_config.get_packages()[0].name);
    assert_eq!("B@2.0", project_config.get_packages()[1].name);
    assert_eq!(Some(true), project_config.get_packages()[0].default);
    assert_eq!("b-app", project_config.get_packages()[1].path);
}

#[test]
fn manifest_keeps_alias_order_and_fields() {
    let m = read_text(DEPENDENCY_LISTING).unwrap();
    let aliases = m.package_aliases.unwrap();
    assert_eq!(aliases[0].alias, "A");
    assert_eq!(aliases[1].id, "04tB00000000000001");
    assert_eq!(m.package_directories[1].dependencies.as_ref().unwrap()[0].version_number, None);
}

#[test]
fn manifest_with_wrong_kinds_is_rejected() {
    assert_eq!(read_text(r#"{"packageDirectories": []}"#).unwrap_err(), ConfigurationError::MalformedManifest);
    assert_eq!(read_text(r#"{"name": "x", "packageDirectories": {}}"#).unwrap_err(), ConfigurationError::MalformedManifest);
    assert_eq!(
        read_text(r#"{"name": "x", "packageDirectories": [{"package": "A", "path": "p"}]}"#).unwrap_err(),
        ConfigurationError::MalformedManifest
    );
    assert_eq!(
        read_text(r#"{"name": "x", "packageDirectories": [], "packageAliases": {"a": 1}}"#).unwrap_err(),
        ConfigurationError::MalformedManifest
    );
    assert_eq!(
        read_text(r#"{"name": "x", "packageDirectories": [{"package": "A", "path": "p", "versionNumber": "1.0.0", "default": "yes"}]}"#)
            .unwrap_err(),
        ConfigurationError::MalformedManifest
    );
    assert!(read_text(r#"{"name": "x", "packageDirectories": []}"#).is_ok());
}
