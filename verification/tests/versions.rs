use cyrene::app::CyreneApp;
use cyrene::errors::CyreneError;
use cyrene::resolver::{resolve, search_in_version, VersionRequirement};
use cyrene::util::is_major_version_equal;
use cyrene::version::{CyreneVersion, SemVer};
use std::cmp::Ordering;

fn texts(items: &[&str]) -> Vec<String> {
    items.iter().map(|s| s.to_string()).collect()
}

#[test]
fn zero_line_is_pinned_to_the_minor_release() {
    assert_eq!(is_major_version_equal("0.3.1", "0.3.9").unwrap(), true);
    assert_eq!(is_major_version_equal("0.3.1", "0.4.0").unwrap(), false);
}

#[test]
fn later_lines_are_pinned_to_the_major_release() {
    assert_eq!(is_major_version_equal("2.1.0", "2.9.9").unwrap(), true);
    assert_eq!(is_major_version_equal("2.1.0", "3.0.0").unwrap(), false);
    assert_eq!(is_major_version_equal("1.1.0", "1.2.0").unwrap(), true);
    assert_eq!(is_major_version_equal("1.9.0", "0.9.0").unwrap(), false);
}

#[test]
fn release_line_of_what_is_no_version_is_an_error() {
    assert!(matches!(
        is_major_version_equal("1.0", "1.0.0"),
        Err(CyreneError::VersionError(_))
    ));
    assert!(matches!(
        is_major_version_equal("1.0.0", "latest"),
        Err(CyreneError::VersionError(_))
    ));
}

#[test]
fn semver_parse_gives_the_parts() {
    let v = SemVer::parse("1.20.3-rc.1+build5").unwrap();
    assert_eq!(v.major(), 1);
    assert_eq!(v.minor(), 20);
    assert_eq!(v.patch(), 3);
    assert_eq!(v.pre(), "rc.1");
    assert_eq!(v.build(), "build5");
    assert_eq!(v.text(), "1.20.3-rc.1+build5");
    assert!(SemVer::parse("v1.2.3").is_err());
    assert!(SemVer::is_valid("0.0.0"));
    assert!(!SemVer::is_valid("1.2"));
}

#[test]
fn cached_versions_resolve() {
    let cached = texts(&["2.1.0", "2.0.0", "1.9.0"]);
    let latest = VersionRequirement::parse(None);
    assert_eq!(resolve("x", &latest, &cached).unwrap(), "2.1.0");
    let two = VersionRequirement::parse(Some("^2.0.0"));
    assert_eq!(resolve("x", &two, &cached).unwrap(), "2.1.0");
    let one = VersionRequirement::parse(Some("^1.0.0"));
    assert_eq!(resolve("x", &one, &cached).unwrap(), "1.9.0");
    let nine = VersionRequirement::parse(Some("^9.0.0"));
    match resolve("x", &nine, &cached) {
        Err(CyreneError::AppVersionNotFoundError(range, app)) => {
            assert_eq!(range, "^9.0.0");
            assert_eq!(app, "x");
        }
        other => panic!("unexpected: {:?}", other),
    }
}

#[test]
fn exact_version_is_taken_unchecked() {
    let cached = texts(&["2.1.0"]);
    let exact = VersionRequirement::parse(Some("7.7.7"));
    assert!(matches!(exact, VersionRequirement::Exact(_)));
    assert!(!exact.needs_versions());
    assert_eq!(resolve("x", &exact, &cached).unwrap(), "7.7.7");
}

#[test]
fn latest_of_an_empty_cache_is_an_error() {
    let latest = VersionRequirement::parse(None);
    assert!(latest.needs_versions());
    match resolve("x", &latest, &Vec::new()) {
        Err(CyreneError::AppVersionNotInCacheError(app)) => assert_eq!(app, "x"),
        other => panic!("unexpected: {:?}", other),
    }
}

#[test]
fn search_passes_over_what_is_no_version() {
    let cached = texts(&["nightly", "3.0.0-beta.1", "2.5.0", "2.4.9"]);
    assert_eq!(search_in_version(&cached, "*"), Some("2.5.0".to_string()));
    assert_eq!(search_in_version(&cached, "<2.5"), Some("2.4.9".to_string()));
    assert_eq!(search_in_version(&cached, "not a range"), None);
    assert_eq!(search_in_version(&cached, "2.4.9"), Some("2.5.0".to_string()));
    assert_eq!(search_in_version(&cached, "=3.0.0-beta.1"), Some("3.0.0-beta.1".to_string()));
}

#[test]
fn host_sorts_what_the_script_reports() {
    let reported = texts(&["v1.0.0", "2.0.0", "junk", "1.5.0-beta", "1.5.0", "10.0.0", "9.9.9"]);
    let out = CyreneApp::normalize(&reported);
    assert_eq!(
        out,
        texts(&["10.0.0", "9.9.9", "2.0.0", "1.5.0", "1.5.0-beta", "v1.0.0", "junk"])
    );
    assert_eq!(CyreneApp::normalize(&Vec::new()), Vec::<String>::new());
}

#[test]
fn what_is_no_semantic_version_is_kept_as_it_was_reported() {
    assert_eq!(CyreneApp::normalize(&texts(&["nightly"])), texts(&["nightly"]));
    assert_eq!(
        CyreneApp::normalize(&texts(&["stable", "2024-05", "v3", "stable"])),
        texts(&["stable", "2024-05", "v3", "stable"])
    );
    let reported = texts(&["b", "1.0.0", "a", "2.0.0", "1.0.0"]);
    let mut out = CyreneApp::normalize(&reported);
    assert_eq!(out, texts(&["2.0.0", "1.0.0", "1.0.0", "b", "a"]));
    let mut sorted_report = reported.clone();
    sorted_report.sort();
    out.sort();
    assert_eq!(out, sorted_report);
}

#[test]
fn plugin_is_named_after_its_script() {
    let app = CyreneApp::new("/home/u/plugins/node.rn").unwrap();
    assert_eq!(app.plugin_name(), "node");
    assert_eq!(app.get_versions(&texts(&["1.2.3", "edge", "1.3.0"])), texts(&["1.3.0", "1.2.3", "edge"]));
    assert!(matches!(CyreneApp::new("/"), Err(CyreneError::PluginPathError)));
    assert!(matches!(CyreneApp::new(".."), Err(CyreneError::PluginPathError)));
}

#[test]
fn versions_compare_by_precedence_or_as_text() {
    let a = CyreneVersion::parse("1.5.0");
    let b = CyreneVersion::parse("1.19.0");
    assert_eq!(a.cmp(&b), Ordering::Less);
    assert_eq!(b.cmp(&a), Ordering::Greater);
    assert_eq!(a.cmp(&CyreneVersion::parse("1.5.0")), Ordering::Equal);
    let pre = CyreneVersion::parse("1.5.0-alpha");
    assert_eq!(pre.cmp(&a), Ordering::Less);
    let x = CyreneVersion::parse("nightly");
    let y = CyreneVersion::parse("stable");
    assert!(matches!(x, CyreneVersion::NonSemver(_)));
    assert_eq!(x.cmp(&y), Ordering::Less);
    assert_eq!(x.cmp(&a), Ordering::Greater);
    assert_eq!(a.cmp(&x), Ordering::Less);
    assert_eq!(x.text(), "nightly");
}

#[test]
fn version_cache_round_trip() {
    let mut cache = cyrene::versions_cache::CyreneVersionCacheManager::new("/cache/versions.yaml");
    cache.update_version_cache("x", texts(&["2.1.0", "2.0.0", "1.9.0"]));
    let cached = cache.get_versions("x");
    assert_eq!(cached, texts(&["2.1.0", "2.0.0", "1.9.0"]));
    assert_eq!(resolve("x", &VersionRequirement::parse(None), &cached).unwrap(), "2.1.0");
    assert_eq!(resolve("x", &VersionRequirement::parse(Some("^2.0.0")), &cached).unwrap(), "2.1.0");
    assert_eq!(resolve("x", &VersionRequirement::parse(Some("^1.0.0")), &cached).unwrap(), "1.9.0");
    assert!(matches!(
        resolve("x", &VersionRequirement::parse(Some("^9.0.0")), &cached),
        Err(CyreneError::AppVersionNotFoundError(_, _))
    ));
}

#[test]
fn sorting_is_by_precedence_and_keeps_equal_versions_in_place() {
    let sorted = cyrene::app::sort_versions(&texts(&[
        "1.0.0-alpha",
        "1.0.0",
        "1.0.0-alpha.1",
        "x",
        "1.0.0-beta.11",
        "1.0.0-beta.2",
        "1.0.0-rc.1",
        "1.0.0",
        "0.9.9+build",
        "0.9.9",
    ]));
    assert_eq!(
        sorted,
        texts(&[
            "1.0.0",
            "1.0.0",
            "1.0.0-rc.1",
            "1.0.0-beta.11",
            "1.0.0-beta.2",
            "1.0.0-alpha.1",
            "1.0.0-alpha",
            "0.9.9+build",
            "0.9.9",
        ])
    );
    assert!(cyrene::version::is_higher("1.10.0", "1.9.0"));
    assert!(!cyrene::version::is_higher("1.9.0", "1.10.0"));
    assert!(!cyrene::version::is_higher("1.9.0", "1.9.0"));
    assert!(!cyrene::version::is_higher("2", "1.9.0"));
    assert!(cyrene::resolver::version_matches("^1.2", "1.9.0"));
    assert!(!cyrene::resolver::version_matches("^1.2", "2.0.0"));
    assert!(!cyrene::resolver::version_matches("^1.2", "1.9"));
    assert_eq!(cyrene::text::find_char("a@b@c", '@', 0), 1);
    assert_eq!(cyrene::text::find_char("a@b@c", '@', 2), 3);
    assert_eq!(cyrene::text::find_char("a@b@c", '@', 4), 5);
    assert_eq!(cyrene::text::find_char("a@b@c", '@', 9), 5);
}
