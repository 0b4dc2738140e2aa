use cyrene::app_module::env::CyreneEnv;
use cyrene::app_module::modify::{escapes, scoped_path, set_exec};
use cyrene::app_module::post_install::{
    fill_version, plain_spaces, process_post_install, AppPostInstallCommands,
};
use cyrene::app_module::sources::{destination, target_filename, SourceKind};
use cyrene::app_module::strings::strip_prefix;
use cyrene::app_module::versions::{
    decimal, page_url, post_process, post_process_all, stable_tags, GitHubVersion, PostProcess,
    ReleasePager, PAGE_CAP, PAGE_SIZE,
};
use cyrene::config::CyreneConfig;
use cyrene::dirs::{CyreneDirs, DirSources};
use cyrene::errors::CyreneError;
use cyrene::responses::{CyreneAppItem, CyreneAppVersions};
use cyrene::tables::{cyrene_app_versions, CyreneAppVersionsRow};
use cyrene::version::CyreneVersion;

fn s(text: &str) -> String {
    text.to_string()
}

fn release(tag: &str, prerelease: bool) -> GitHubVersion {
    GitHubVersion { tag_name: s(tag), prerelease }
}

fn full_page(prefix: &str) -> Vec<GitHubVersion> {
    (0..PAGE_SIZE).map(|i| release(&format!("{}{}", prefix, i), i % 10 == 0)).collect()
}

#[test]
fn the_walk_ends_at_a_short_page() {
    let mut pager = ReleasePager::new("owner/repo");
    assert_eq!(pager.next_page(), Some(1));
    assert_eq!(
        pager.next_url(),
        Some(s("https://api.github.com/repos/owner/repo/releases?per_page=100&page=1"))
    );
    pager.accept(&full_page("a"));
    assert_eq!(pager.next_page(), Some(2));
    pager.accept(&vec![release("v1.0.0", false), release("v1.1.0-rc1", true), release("v0.9.0", false)]);
    assert_eq!(pager.next_page(), None);
    assert_eq!(pager.next_url(), None);
    pager.accept(&vec![release("ignored", false)]);
    let versions = pager.into_versions();
    assert_eq!(versions.len(), 90 + 2);
    assert_eq!(versions[0], "a1");
    assert_eq!(versions[90], "v1.0.0");
    assert_eq!(versions[91], "v0.9.0");
}

#[test]
fn the_walk_ends_after_the_last_page_allowed() {
    let mut pager = ReleasePager::new("o/r");
    let mut asked = Vec::new();
    while let Some(page) = pager.next_page() {
        asked.push(page);
        pager.accept(&full_page("t"));
    }
    assert_eq!(asked, (1..=PAGE_CAP).collect::<Vec<u32>>());
    assert_eq!(pager.into_versions().len(), 900);
}

#[test]
fn a_page_of_pre_releases_only_does_not_end_the_walk() {
    let mut pager = ReleasePager::new("o/r");
    let page: Vec<GitHubVersion> = (0..PAGE_SIZE).map(|_| release("x", true)).collect();
    pager.accept(&page);
    assert_eq!(pager.next_page(), Some(2));
    pager.accept(&Vec::new());
    assert_eq!(pager.next_page(), None);
    assert_eq!(pager.into_versions(), Vec::<String>::new());
}

#[test]
fn tags_and_numbers() {
    assert_eq!(
        stable_tags(&vec![release("a", false), release("b", true), release("c", false)]),
        vec![s("a"), s("c")]
    );
    assert_eq!(decimal(0), "0");
    assert_eq!(decimal(7), "7");
    assert_eq!(decimal(10), "10");
    assert_eq!(decimal(4294967295), "4294967295");
    assert_eq!(page_url("a/b", 12), "https://api.github.com/repos/a/b/releases?per_page=100&page=12");
    let steps = vec![
        PostProcess::StripPrefix { prefix: s("release-") },
        PostProcess::StripPrefix { prefix: s("v") },
    ];
    assert_eq!(post_process("release-v1.2.3", &steps), "1.2.3");
    assert_eq!(post_process("v-release-1", &steps), "-release-1");
    assert_eq!(post_process("x", &Vec::new()), "x");
    assert_eq!(
        post_process_all(&vec![s("release-1"), s("v2"), s("3")], &steps),
        vec![s("1"), s("2"), s("3")]
    );
    assert_eq!(strip_prefix("vv1", "v"), "1");
    let renamed = vec![
        PostProcess::Replace { from: s("_"), to: s(".") },
        PostProcess::StripPrefix { prefix: s("jdk-") },
    ];
    assert_eq!(post_process("jdk-21_0_2", &renamed), "21.0.2");
}

#[test]
fn replacing_agrees_with_the_standard_library() {
    let cases = [
        ("1_2_3", "_", "."),
        ("aaa", "aa", "b"),
        ("abc", "", "-"),
        ("", "", "-"),
        ("", "x", "y"),
        ("abcabc", "bc", ""),
        ("abc", "abcd", "x"),
        ("ééé", "é", "e"),
        ("xx", "x", "xx"),
    ];
    for (value, from, to) in cases {
        assert_eq!(cyrene::text::replace(value, from, to), value.replace(from, to));
    }
    assert_eq!(cyrene::text::replace("v1_2", "_", "."), "v1.2");
}

#[test]
fn paths_stay_inside_the_directory() {
    assert!(!escapes("bin/node"));
    assert!(!escapes("a..b/c"));
    assert!(!escapes("..."));
    assert!(!escapes("a/..b"));
    assert!(!escapes(""));
    assert!(!escapes("."));
    assert!(escapes("/etc/passwd"));
    assert!(escapes(".."));
    assert!(escapes("../x"));
    assert!(escapes("a/../../x"));
    assert!(escapes("a/.."));
    assert_eq!(scoped_path("/apps/node/1.0.0", "bin/node"), Some(s("/apps/node/1.0.0/bin/node")));
    assert_eq!(scoped_path("/apps/node/1.0.0", "../../x"), None);
    assert_eq!(set_exec("/apps/node/1.0.0", "/bin/sh"), None);
    assert_eq!(set_exec("/apps/node/1.0.0", "node"), Some(s("/apps/node/1.0.0/node")));
}

#[test]
fn templates_get_the_version() {
    assert_eq!(fill_version("bin/node-${version}", "1.2.3"), Some(s("bin/node-1.2.3")));
    assert_eq!(fill_version("${version}/${other}x", "1"), Some(s("1/x")));
    assert_eq!(fill_version("no placeholder", "1"), Some(s("no placeholder")));
    assert_eq!(fill_version("${ version }", "1"), Some(s(" 1 ")));
    assert_eq!(fill_version("caf\u{e9}-${version}", "1"), Some(s("caf\u{e9}-1")));
    assert_eq!(fill_version("\u{e9}${ version }\u{e9}", "1"), Some(s("\u{e9} 1 \u{e9}")));
    assert_eq!(fill_version("${\u{a0}version}", "1"), None);
    assert_eq!(fill_version("a\u{2003}b", "1"), None);
    assert!(plain_spaces("a b\tc\u{e9}"));
    assert!(!plain_spaces("a\u{3000}b"));
    let command = AppPostInstallCommands::SetExec { path: s("tool-${version}/run") };
    assert_eq!(
        process_post_install(&command, "2.0.0", "/apps/tool/2.0.0"),
        Some(s("/apps/tool/2.0.0/tool-2.0.0/run"))
    );
    let outside = AppPostInstallCommands::SetExec { path: s("../${version}") };
    assert_eq!(process_post_install(&outside, "2.0.0", "/apps/tool/2.0.0"), None);
    assert_eq!(CyreneEnv::new("1.2.3").version, "1.2.3");
}

#[test]
fn fetched_sources_go_into_the_directory() {
    assert_eq!(target_filename("https://h/d/app.tar.xz"), "app.tar.xz");
    assert_eq!(target_filename("https://h/d/app/"), "app");
    let dir = "/apps/tool/1.0.0";
    for kind in [SourceKind::TarXz, SourceKind::TarGz, SourceKind::Zip] {
        assert_eq!(destination(kind, "https://h/a.tar", None, dir), Some(s(dir)));
    }
    assert_eq!(
        destination(SourceKind::File, "https://h/dl/tool", None, dir),
        Some(s("/apps/tool/1.0.0/tool"))
    );
    assert_eq!(
        destination(SourceKind::File, "https://h/dl/tool", Some("bin/tool"), dir),
        Some(s("/apps/tool/1.0.0/bin/tool"))
    );
    assert_eq!(destination(SourceKind::File, "https://h/dl/tool", Some("/usr/bin/tool"), dir), None);
    assert_eq!(destination(SourceKind::File, "https://h/..", None, dir), None);
}

fn sources() -> DirSources {
    DirSources {
        apps_dir_env: None,
        plugins_dir_env: None,
        install_dir_env: None,
        data_dir: s("/home/u/.local/share/cyrene"),
        config_dir: s("/home/u/.config/cyrene"),
        cache_dir: s("/home/u/.cache/cyrene"),
        exe_parent: s("/home/u/bin"),
    }
}

#[test]
fn directories_default_to_what_the_system_gives() {
    let dirs = CyreneDirs::resolve(&sources(), &CyreneConfig::empty());
    assert_eq!(dirs.apps_dir, "/home/u/.local/share/cyrene/apps");
    assert_eq!(dirs.plugins_dir, "/home/u/.local/share/cyrene/plugins");
    assert_eq!(dirs.exe_dir, "/home/u/bin");
    assert_eq!(dirs.config_dir, "/home/u/.config/cyrene");
    assert_eq!(dirs.cache_dir, "/home/u/.cache/cyrene");
    assert_eq!(dirs.version_cache_path, "/home/u/.cache/cyrene/versions.yaml");
    assert_eq!(dirs.lockfile_path(), "/home/u/.config/cyrene/cyrene.toml");
    assert_eq!(dirs.configured_lockfile_path(&CyreneConfig::empty()), "/home/u/.config/cyrene/cyrene.toml");
    assert_eq!(dirs.installation_path("node", "20.0.0"), "/home/u/.local/share/cyrene/apps/node/20.0.0");
    assert_eq!(dirs.installation_root("node"), "/home/u/.local/share/cyrene/apps/node");
    assert_eq!(dirs.plugin_script("node"), "/home/u/.local/share/cyrene/plugins/node.rn");
    assert_eq!(dirs.link_path("node"), "/home/u/bin/node");
    assert_eq!(dirs.env_file(), "/home/u/.config/cyrene/cyrene_env.sh");
    assert_eq!(
        dirs.env_script(),
        "export CYRENE_INSTALL_DIR=/home/u/bin\nexport CYRENE_APPS_DIR=/home/u/.local/share/cyrene/apps\nexport CYRENE_PLUGINS_DIR=/home/u/.local/share/cyrene/plugins"
    );
    assert_eq!(
        dirs.init_dirs(),
        vec![
            s("/home/u/.local/share/cyrene/apps"),
            s("/home/u/.local/share/cyrene/plugins"),
            s("/home/u/.config/cyrene"),
            s("/home/u/.cache/cyrene"),
        ]
    );
}

#[test]
fn the_environment_goes_before_the_configuration() {
    let mut from = sources();
    from.apps_dir_env = Some(s("/env/apps"));
    from.install_dir_env = Some(s("/env/bin"));
    let config = CyreneConfig {
        apps_dir: Some(s("/conf/apps")),
        plugins_dir: Some(s("/conf/plugins")),
        install_dir: Some(s("/conf/bin")),
        cache_dir: Some(s("/conf/cache")),
        lockfile_path: Some(s("/conf/lock.toml")),
    };
    let dirs = CyreneDirs::resolve(&from, &config);
    assert_eq!(dirs.apps_dir, "/env/apps");
    assert_eq!(dirs.plugins_dir, "/conf/plugins");
    assert_eq!(dirs.exe_dir, "/env/bin");
    assert_eq!(dirs.cache_dir, "/conf/cache");
    assert_eq!(dirs.version_cache_path, "/conf/cache/versions.yaml");
    assert_eq!(dirs.configured_lockfile_path(&config), "/conf/lock.toml");
    from.plugins_dir_env = Some(s("/env/plugins"));
    assert_eq!(CyreneDirs::resolve(&from, &config).plugins_dir, "/env/plugins");
}

#[test]
fn errors_say_what_they_are_about() {
    assert_eq!(
        CyreneError::AppNotInstalledError(s("node")).message(),
        "App for plugin node is not installed"
    );
    assert_eq!(
        CyreneError::AppNotInLockfileError(s("node")).message(),
        "App for plugin node is not registered in lockfile"
    );
    assert_eq!(
        CyreneError::AppVersionNotInstalledError(s("1.0.0"), s("node")).message(),
        "App version 1.0.0 for plugin node is not installed"
    );
    assert_eq!(
        CyreneError::AppVersionNotFoundError(s("^9"), s("node")).message(),
        "Cannot find app version ^9 for plugin node in version list"
    );
    assert_eq!(
        CyreneError::AppVersionNotFoundInCacheError(s("9.0.0"), s("node")).message(),
        "Cannot find app version 9.0.0 for plugin node in versions cache"
    );
    assert_eq!(
        CyreneError::AppVersionNotInCacheError(s("node")).message(),
        "Cannot find app versions for plugin node in versions cache"
    );
    assert_eq!(
        CyreneError::LockfileAppVersionError(s("1.0.0"), s("node")).message(),
        "App version 1.0.0 for plugin node in lockfile is invalid"
    );
    assert_eq!(CyreneError::LockfileAppError(s("node")).message(), "Plugin node in lockfile is invalid");
    assert_eq!(
        CyreneError::PluginBinariesError(s("1.0.0"), s("node")).message(),
        "Cannot list binaries of app version 1.0.0 for plugin node"
    );
    assert_eq!(CyreneError::NoHomeError.message(), "Cannot find cyrene configuration");
    assert_eq!(CyreneError::ExePathError.message(), "Cannot locate cyrene");
    assert_eq!(CyreneError::PluginPathError.message(), "Cannot locate plugin");
    assert_eq!(CyreneError::LockfileNotFoundError.message(), "Cannot find lockfile");
    assert_eq!(
        CyreneError::AppLinkingToItselfError.message(),
        "Cyrene was about to sacrifice itself to the Remembrance"
    );
    let e = cyrene::util::is_major_version_equal("x", "1.0.0").unwrap_err();
    assert!(e.message().starts_with("Error parsing versions: "));
    assert!(e.message().len() > "Error parsing versions: ".len());
}

#[test]
fn rows_and_items() {
    let item = CyreneAppItem { name: s("node"), version: s("20.0.0") };
    assert_eq!(
        CyreneAppVersionsRow::from_item(&item),
        CyreneAppVersionsRow { name: s("node"), version: s("20.0.0") }
    );
    assert_eq!(
        cyrene_app_versions(&vec![(s("node"), s("1.0.0")), (s("node"), s("0.9.0"))]),
        vec![
            CyreneAppVersionsRow { name: s("node"), version: s("1.0.0") },
            CyreneAppVersionsRow { name: s("node"), version: s("0.9.0") },
        ]
    );
    let read = CyreneAppVersions::from_item(&item);
    assert_eq!(read.name, "node");
    assert!(matches!(read.version, CyreneVersion::Semver(_)));
}
