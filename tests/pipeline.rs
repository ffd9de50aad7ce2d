use sf_release::commands::verify::{run, PipelineAction, Stage};
use sf_release::project::{get_scripts, ScriptType};
use sf_release::project::get_extension;
use sf_release::project_config::{DependencyDeclaration, PackageDirectory, ProjectManifest, SalesforceProjectConfig};

fn dir(package: &str, unpackaged: Option<&str>, deps: Option<Vec<DependencyDeclaration>>) -> PackageDirectory {
    PackageDirectory {
        dependencies: deps,
        package: package.to_string(),
        path: format!("{}-app", package),
        version_number: "1.0.0".to_string(),
        version_name: None,
        version_description: None,
        default: None,
        unpackaged_metadata: unpackaged.map(|s| s.to_string()),
        release_notes_url: None,
        post_install_url: None,
        scope_profiles: None,
        definition_file: None,
    }
}

fn project() -> SalesforceProjectConfig {
    let deps = vec![
        DependencyDeclaration { package: "b".to_string(), version_number: Some("1.0.0".to_string()) },
        DependencyDeclaration { package: "a".to_string(), version_number: Some("1.0.0".to_string()) },
    ];
    let m = ProjectManifest {
        name: "project".to_string(),
        package_directories: vec![dir("core", Some("unpackaged"), Some(deps)), dir("ui", None, None)],
        package_aliases: None,
    };
    SalesforceProjectConfig::from_manifest(&m).unwrap()
}

fn stages(run: &sf_release::commands::verify::PipelineRun) -> Vec<Stage> {
    run.steps.iter().map(|s| s.stage).collect()
}

#[test]
fn pipeline_runs_stages_in_order() {
    let pre = get_scripts(vec!["deploy/pre/a.apex".to_string(), "deploy/pre/b.sh".to_string()]);
    let post = get_scripts(vec!["deploy/post/readme.md".to_string()]);
    let r = run(&"scratch1".to_string(), &None, &None, &project(), &pre, &post);
    assert_eq!(
        stages(&r),
        vec![
            Stage::Provisioning,
            Stage::InstallingDependencies,
            Stage::InstallingDependencies,
            Stage::DeployingUnpackaged,
            Stage::RunningPreHooks,
            Stage::RunningPreHooks,
            Stage::DeployingPackages,
            Stage::DeployingPackages,
            Stage::RunningPostHooks,
            Stage::RunningTests,
        ]
    );
    assert!(matches!(&r.steps[0].action, PipelineAction::CreateScratchOrg { devhub, name } if devhub == "DevHub" && name == "scratch1"));
    assert!(matches!(&r.steps[3].action, PipelineAction::DeployMetadata { path } if path == "unpackaged"));
    assert!(matches!(&r.steps[4].action, PipelineAction::ExecuteApex { .. }));
    assert!(matches!(&r.steps[5].action, PipelineAction::ExecuteShell { .. }));
    assert!(matches!(&r.steps[7].action, PipelineAction::DeployMetadata { path } if path == "ui-app"));
    assert!(matches!(&r.steps[8].action, PipelineAction::SkipScript { .. }));
    assert!(!r.steps[4].fatal && !r.steps[8].fatal);
    assert!(r.steps[1].fatal && r.steps[9].fatal);
    assert_eq!(r.target_org, "scratch1");
}

#[test]
fn target_org_skips_provisioning() {
    let r = run(&"scratch1".to_string(), &Some("hub".to_string()), &Some("mine".to_string()), &project(), &vec![], &vec![]);
    assert_eq!(r.steps[0].stage, Stage::InstallingDependencies);
    assert_eq!(r.target_org, "mine");
}

#[test]
fn install_failure_short_circuits() {
    let mut r = run(&"scratch1".to_string(), &Some("hub".to_string()), &None, &project(), &vec![], &vec![]);
    assert!(matches!(&r.steps[0].action, PipelineAction::CreateScratchOrg { devhub, .. } if devhub == "hub"));
    r.record(true);
    assert_eq!(r.next_step().unwrap().stage, Stage::InstallingDependencies);
    r.record(false);
    assert!(r.is_finished());
    assert!(!r.succeeded());
    assert!(r.next_step().is_none());
    r.record(true);
    assert_eq!(r.outcomes, vec![true, false]);
    assert_eq!(r.failure, Some(1));
}

#[test]
fn hook_failure_does_not_stop_the_run() {
    let pre = get_scripts(vec!["deploy/pre/a.sh".to_string()]);
    let mut r = run(&"s".to_string(), &None, &Some("t".to_string()), &project(), &pre, &vec![]);
    while let Some(step) = r.next_step() {
        let ok = step.stage != Stage::RunningPreHooks;
        r.record(ok);
    }
    assert!(r.succeeded());
    assert_eq!(r.outcomes.len(), r.steps.len());
}

#[test]
fn scripts_are_classified_by_extension() {
    let s = get_scripts(vec![
        "deploy/pre/a.apex".to_string(),
        "deploy/pre/b.sh".to_string(),
        "deploy/pre/c.txt".to_string(),
        "deploy/pre/.sh".to_string(),
        "deploy/pre/noext".to_string(),
    ]);
    let kinds: Vec<ScriptType> = s.iter().map(|x| x.s_type).collect();
    assert_eq!(kinds, vec![ScriptType::Apex, ScriptType::Shell, ScriptType::Unknown, ScriptType::Unknown, ScriptType::Unknown]);
    assert_eq!(s[0].path, "deploy/pre/a.apex");
}

#[test]
fn extension_of_paths() {
    assert_eq!(get_extension("dir.d/file.tar.gz"), Some("gz".to_string()));
    assert_eq!(get_extension("dir.d/file"), None);
    assert_eq!(get_extension(".bashrc"), None);
    assert_eq!(get_extension("x."), Some("".to_string()));
}
