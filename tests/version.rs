use sf_release::commands::version::{bump_version, classify_bump, get_commit_prefix, get_package_name_from_commit, strip_commit_scope, BumpKind};
use sf_release::project_config::{Package, Version};

fn v(major: i32, minor: i32, patch: i32) -> Version {
    Version { major, minor, patch }
}

#[test]
fn version_round_trips_through_text() {
    for s in ["1.2.3", "0.0.0", "10.20.30", "2147483647.0.1"] {
        assert_eq!(Version::from(s).to_string(), s);
    }
}

#[test]
fn version_parse_reads_three_fields() {
    assert_eq!(Version::parse("1.2.3"), Some(v(1, 2, 3)));
    assert_eq!(Version::parse("1.0.0.NEXT"), Some(v(1, 0, 0)));
    assert_eq!(Version::parse("01.002.3"), Some(v(1, 2, 3)));
}

#[test]
fn version_parse_rejects_malformed_text() {
    assert_eq!(Version::parse("1.2"), None);
    assert_eq!(Version::parse("1.2.x"), None);
    assert_eq!(Version::parse(""), None);
    assert_eq!(Version::parse("1..3"), None);
    assert_eq!(Version::parse("-1.2.3"), None);
    assert_eq!(Version::parse("2147483648.0.0"), None);
}

#[test]
fn version_new_is_zero() {
    assert_eq!(Version::new(), v(0, 0, 0));
    assert_eq!(Version::new().to_string(), "0.0.0");
}

#[test]
fn version_renders_negative_fields() {
    assert_eq!(v(-1, 0, 12).to_string(), "-1.0.12");
}

#[test]
fn version_order_is_by_precedence() {
    assert!(v(2, 0, 0).is_higher_than(&v(1, 5, 0)));
    assert!(!v(1, 5, 0).is_higher_than(&v(2, 0, 0)));
    assert!(v(1, 2, 4).is_higher_than(&v(1, 2, 3)));
    assert!(!v(1, 2, 3).is_higher_than(&v(1, 2, 3)));
    assert!(v(1, 3, 0).is_higher_than(&v(1, 2, 9)));
}

#[test]
fn bump_feat_breaking_is_major() {
    let mut x = v(1, 2, 3);
    bump_version("feat!", &mut x);
    assert_eq!(x, v(2, 2, 3));
}

#[test]
fn bump_feat_with_scope_is_minor() {
    let mut x = v(1, 2, 3);
    bump_version("feat(core)", &mut x);
    assert_eq!(x, v(1, 3, 3));
}

#[test]
fn bump_fix_is_patch() {
    let mut x = v(1, 2, 3);
    bump_version("fix", &mut x);
    assert_eq!(x, v(1, 2, 4));
}

#[test]
fn bump_other_prefix_changes_nothing() {
    let mut x = v(1, 2, 3);
    bump_version("chore", &mut x);
    assert_eq!(x, v(1, 2, 3));
    assert_eq!(classify_bump("docs(readme)"), BumpKind::Unchanged);
    assert_eq!(classify_bump(""), BumpKind::Unchanged);
}

#[test]
fn breaking_marker_wins_over_keywords() {
    assert_eq!(classify_bump("fix!"), BumpKind::Major);
    assert_eq!(classify_bump("feat(api)!"), BumpKind::Major);
    assert_eq!(classify_bump("feat: fix"), BumpKind::Minor);
}

#[test]
fn package_name_comes_from_scope() {
    assert_eq!(get_package_name_from_commit("feat(core)"), "core");
    assert_eq!(get_package_name_from_commit("feat(api)!"), "api");
    assert_eq!(get_package_name_from_commit("feat"), "");
    assert_eq!(get_package_name_from_commit("feat(open"), "");
}

#[test]
fn scope_is_stripped_from_prefix() {
    assert_eq!(strip_commit_scope("feat(api)!"), "feat!");
    assert_eq!(strip_commit_scope("fix(core)"), "fix");
    assert_eq!(strip_commit_scope("feat(open"), "feat");
    assert_eq!(strip_commit_scope("chore"), "chore");
}

#[test]
fn commit_prefix_ends_at_first_colon() {
    assert_eq!(get_commit_prefix("fix: patch the thing"), "fix");
    assert_eq!(get_commit_prefix("feat(api)!: rename: field"), "feat(api)!");
    assert_eq!(get_commit_prefix("no colon"), "no colon");
}

#[test]
fn version_number_drops_prerelease_suffix() {
    assert_eq!(Package::get_version_number_from("1.2.3-beta.1"), "1.2.3");
    assert_eq!(Package::get_version_number_from("1.2.3"), "1.2.3");
}
