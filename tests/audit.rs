use spm_license_audit::license::{check_license, get_license_name, is_listed, AllowList, LicenseCategory};
use spm_license_audit::report::{audit_package, audit_report, format_line, Manifest, PinnedPackage};
use spm_license_audit::url::form_license_url;
use spm_license_audit::version::{reconcile_version, resolve_version, version_from_response, VersionError};

fn allow(authorized: &[&str]) -> AllowList {
    let mut list = AllowList::new();
    list.insert("authorized".to_string(), authorized.iter().map(|s| s.to_string()).collect());
    list
}

fn pin(identity: &str, location: &str) -> PinnedPackage {
    PinnedPackage {
        identity: identity.to_string(),
        kind: "remoteSourceControl".to_string(),
        location: location.to_string(),
        state: vec![(Some("revision".to_string()), Some("abc123".to_string()))],
    }
}

#[test]
fn url_github_with_git_suffix() {
    assert_eq!(
        form_license_url("https://github.com/apple/swift-log.git".to_string()),
        "https://raw.githubusercontent.com/apple/swift-log/master/LICENSE"
    );
}

#[test]
fn url_github_without_git_suffix() {
    assert_eq!(
        form_license_url("https://github.com/apple/swift-nio".to_string()),
        "https://raw.githubusercontent.com/apple/swift-nio/master/LICENSE"
    );
}

#[test]
fn url_second_pass_appends_suffix_again() {
    let once = form_license_url("https://gitlab.com/group/project".to_string());
    assert_eq!(once, "https://gitlab.com/group/project/master/LICENSE");
    let twice = form_license_url(once.clone());
    assert_eq!(twice, format!("{}/master/LICENSE", once));
}

#[test]
fn url_removes_every_git_occurrence() {
    assert_eq!(
        form_license_url("https://x.github.com/a.git/b.git".to_string()),
        "https://xhub.com/a/b/master/LICENSE"
    );
}

#[test]
fn license_name_is_first_line() {
    assert_eq!(get_license_name("MIT License\n\nCopyright (c) 2020 ...\n"), "MIT License");
}

#[test]
fn license_name_without_newline_is_whole_text() {
    assert_eq!(get_license_name("Apache License 2.0"), "Apache License 2.0");
    assert_eq!(get_license_name(""), "");
}

#[test]
fn license_name_keeps_spaces_and_carriage_return() {
    assert_eq!(get_license_name("  BSD License \r\nrest"), "  BSD License \r");
    assert_eq!(get_license_name("\nMIT"), "");
}

#[test]
fn verdict_case_sensitive() {
    let list = allow(&["MIT License", "Apache License 2.0"]);
    assert!(check_license(&list, "MIT License", false));
    assert!(!check_license(&list, "mit license", false));
}

#[test]
fn verdict_case_folded() {
    let list = allow(&["MIT License", "Apache License 2.0"]);
    assert!(!check_license(&list, "MIT License", true));
    let folded = allow(&["mit license"]);
    assert!(check_license(&folded, "MIT License", true));
}

#[test]
fn verdict_reads_only_authorized_category() {
    let mut list = AllowList::new();
    list.insert("forbidden".to_string(), vec!["GPL".to_string()]);
    list.insert("authorized".to_string(), vec!["MIT".to_string()]);
    assert!(check_license(&list, "MIT", false));
    assert!(!check_license(&list, "GPL", false));
    assert_eq!(list.category("forbidden").map(|v| v.len()), Some(1));
    assert!(list.category("other").is_none());
}

#[test]
fn allowlist_without_authorized() {
    let mut list = AllowList::new();
    list.insert("forbidden".to_string(), vec![]);
    assert!(list.authorized().is_none());
    assert!(allow(&[]).authorized().is_some());
}

#[test]
fn listed_is_verbatim_membership() {
    let names = vec!["MIT".to_string(), "BSD".to_string()];
    assert!(is_listed(&names, &"BSD".to_string()));
    assert!(!is_listed(&names, &"bsd".to_string()));
    assert!(!is_listed(&vec![], &"MIT".to_string()));
}

#[test]
fn version_same_name_and_latest() {
    let body = r#"[{"releases":[{"name":"1.2.3"}],"latestRelease":"1.2.3"}]"#;
    assert_eq!(version_from_response(body), Ok("1.2.3".to_string()));
}

#[test]
fn version_name_matching_pattern() {
    let body = r#"[{"releases":[{"name":"v1.2.3-beta"}],"latestRelease":"1.2.3"}]"#;
    assert_eq!(version_from_response(body), Ok("v1.2.3-beta".to_string()));
}

#[test]
fn version_name_not_a_version() {
    let body = r#"[{"releases":[{"name":"main-branch"}],"latestRelease":"1.2.3"}]"#;
    assert_eq!(version_from_response(body), Ok("1.2.3".to_string()));
}

#[test]
fn version_null_name() {
    let body = r#"[{"releases":[{"name":null}],"latestRelease":"1.2.3"}]"#;
    assert_eq!(version_from_response(body), Ok("1.2.3".to_string()));
}

#[test]
fn version_errors() {
    assert_eq!(version_from_response("not json"), Err(VersionError::Unparseable));
    assert_eq!(version_from_response("[]"), Err(VersionError::Missing));
    assert_eq!(
        version_from_response(r#"[{"releases":[{"name":"main"}]}]"#),
        Err(VersionError::Missing)
    );
}

#[test]
fn version_is_deterministic() {
    let body = r#"[{"releases":[{"name":"2.0.0-rc1"}],"latestRelease":"1.9.0"}]"#;
    let first = version_from_response(body);
    let second = version_from_response(body);
    assert_eq!(first, second);
    assert_eq!(first, Ok("2.0.0-rc1".to_string()));
}

#[test]
fn reconcile_rules() {
    assert_eq!(reconcile_version(None, Some("1.0.0"), false), Ok("1.0.0".to_string()));
    assert_eq!(reconcile_version(None, None, true), Err(VersionError::Missing));
    assert_eq!(reconcile_version(Some("a"), Some("a"), false), Ok("a".to_string()));
    assert_eq!(reconcile_version(Some("a"), Some("b"), true), Ok("a".to_string()));
    assert_eq!(reconcile_version(Some("a"), Some("b"), false), Ok("b".to_string()));
    assert_eq!(reconcile_version(Some("a"), None, false), Err(VersionError::Missing));
}

#[test]
fn resolve_uses_version_pattern() {
    assert_eq!(resolve_version(Some("release 10.20.30"), Some("1.0.0")), Ok("release 10.20.30".to_string()));
    assert_eq!(resolve_version(Some("1.2"), Some("1.0.0")), Ok("1.0.0".to_string()));
    assert_eq!(resolve_version(Some("1.2.3"), None), Ok("1.2.3".to_string()));
}

#[test]
fn line_format() {
    assert_eq!(format_line("a", "1.0.0", "MIT", true), "a 1.0.0 MIT OK\n");
    assert_eq!(format_line("b", "0.0.0", "", false), "b 0.0.0  FAIL\n");
}

#[test]
fn package_with_failed_version_reports_default() {
    let list = allow(&["MIT"]);
    let p = pin("x", "https://github.com/o/x");
    let line = audit_package(&p, "MIT\nbody", &Err(VersionError::Request), &list, false);
    assert_eq!(line, "x 0.0.0 MIT OK\n");
}

#[test]
fn end_to_end_single_pin() {
    let manifest = Manifest {
        pins: vec![pin("swift-log", "https://github.com/apple/swift-log.git")],
        version: 2,
    };
    let list = allow(&["Apache License"]);
    let texts = vec![Some("Apache License\nVersion 2.0...".to_string())];
    let versions = vec![Ok("1.5.3".to_string())];
    let lines = audit_report(&manifest, &texts, &versions, &list, false);
    assert_eq!(lines.concat(), "swift-log 1.5.3 Apache License OK\n");
}

#[test]
fn report_keeps_manifest_order_and_stops_at_failed_fetch() {
    let manifest = Manifest {
        pins: vec![
            pin("b", "https://github.com/o/b"),
            pin("a", "https://github.com/o/a"),
            pin("c", "https://github.com/o/c"),
            pin("d", "https://github.com/o/d"),
        ],
        version: 2,
    };
    let list = allow(&["MIT"]);
    let texts = vec![Some("MIT\n".to_string()), Some("GPL\n".to_string()), None, Some("MIT".to_string())];
    let versions = vec![
        Ok("1.0.0".to_string()),
        Err(VersionError::Unparseable),
        Ok("3.0.0".to_string()),
        Ok("4.0.0".to_string()),
    ];
    let lines = audit_report(&manifest, &texts, &versions, &list, false);
    assert_eq!(lines, vec!["b 1.0.0 MIT OK\n".to_string(), "a 0.0.0 GPL FAIL\n".to_string()]);
}

#[test]
fn allowlist_insert_replaces_category() {
    let mut list = AllowList::new();
    list.insert("authorized".to_string(), vec!["MIT".to_string()]);
    list.insert("other".to_string(), vec![]);
    list.insert("authorized".to_string(), vec!["BSD".to_string(), "ISC".to_string()]);
    assert_eq!(list.categories.len(), 2);
    assert_eq!(list.authorized(), Some(&vec!["BSD".to_string(), "ISC".to_string()]));
    assert!(!check_license(&list, "MIT", false));
}

#[test]
fn allowlist_lookup_takes_first_category() {
    let list = AllowList {
        categories: vec![
            LicenseCategory { name: "authorized".to_string(), licenses: vec!["MIT".to_string()] },
            LicenseCategory { name: "authorized".to_string(), licenses: vec!["BSD".to_string()] },
        ],
    };
    assert!(check_license(&list, "MIT", false));
}

#[test]
fn version_reads_only_first_result_and_release() {
    let body = r#"[{"releases":[{"name":"main"},{"name":"9.9.9"}],"latestRelease":"1.0.0"},{"releases":[{"name":"2.0.0"}],"latestRelease":"2.0.0"}]"#;
    assert_eq!(version_from_response(body), Ok("1.0.0".to_string()));
}

#[test]
fn version_name_not_a_string() {
    let body = r#"[{"releases":[{"name":7}],"latestRelease":"0.1.0"}]"#;
    assert_eq!(version_from_response(body), Ok("0.1.0".to_string()));
    assert_eq!(version_from_response(r#"{"x":1}"#), Err(VersionError::Missing));
}

#[test]
fn empty_manifest_needs_no_authorized_category() {
    let manifest = Manifest { pins: vec![], version: 2 };
    let list = AllowList::new();
    let lines = audit_report(&manifest, &vec![], &vec![], &list, false);
    assert!(lines.is_empty());
}

#[test]
fn first_fetch_failed_needs_no_authorized_category() {
    let manifest = Manifest { pins: vec![pin("a", "https://github.com/o/a")], version: 2 };
    let list = AllowList::new();
    let lines = audit_report(&manifest, &vec![None], &vec![Err(VersionError::Request)], &list, false);
    assert!(lines.is_empty());
}
