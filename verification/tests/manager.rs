use cyrene::commands::{
    upgrade_transaction, install_action, link_command, plan_install, plan_uninstall, plan_upgrade, uninstall_action,
    upgrade_all_requests, upgrade_commands, AppVersion, AppVersionAction, AppVersionUpgradeAction,
};
use cyrene::dirs::CyreneDirs;
use cyrene::errors::CyreneError;
use cyrene::journal::FsStep;
use cyrene::lockfile::{CyreneLockfile, CyreneLockfileManager};
use cyrene::manager::{CyreneManager, TransactionStep};
use cyrene::responses::CyreneAppItem;
use cyrene::tables::{cyrene_app_versions_all, rows_of_app, CyreneAppVersionsAllRow};
use cyrene::transaction::{TransactionCommands, TransactionExecutor};
use cyrene::versions_cache::CyreneVersionCacheManager;

fn s(text: &str) -> String {
    text.to_string()
}

fn dirs() -> CyreneDirs {
    CyreneDirs {
        apps_dir: s("/data/apps"),
        plugins_dir: s("/data/plugins"),
        exe_dir: s("/home/u/bin"),
        config_dir: s("/cfg"),
        cache_dir: s("/cache"),
        version_cache_path: s("/cache/versions.yaml"),
    }
}

fn manager() -> CyreneManager {
    let mut m = CyreneManager::new(
        dirs(),
        CyreneLockfileManager::new("/cfg/cyrene.toml"),
        CyreneVersionCacheManager::new("/cache/versions.yaml"),
    );
    m.set_current_exe("/home/u/bin/cyrene");
    m
}

fn node_binaries(m: &mut CyreneManager, version: &str) {
    m.observe_binaries(
        "node",
        version,
        vec![(s("node"), s("bin/node")), (s("npm"), s("bin/npm"))],
    );
}

fn symlink(target: &str, link: &str) -> FsStep {
    FsStep::Symlink { target: s(target), link: s(link) }
}

fn remove_file(path: &str) -> FsStep {
    FsStep::RemoveFile { path: s(path) }
}

fn lock_set(app: &str, version: Option<&str>) -> FsStep {
    FsStep::LockfileSet { path: s("/cfg/cyrene.toml"), app: s(app), version: version.map(s) }
}

#[test]
fn linking_needs_an_installed_version_and_its_binaries() {
    let mut m = manager();
    match m.link_binaries("node", "20.0.0", true) {
        Err(CyreneError::AppVersionNotInstalledError(v, a)) => {
            assert_eq!(v, "20.0.0");
            assert_eq!(a, "node");
        }
        other => panic!("unexpected: {:?}", other),
    }
    m.observe_installed("node", vec![s("20.0.0")]);
    match m.link_binaries("node", "20.0.0", true) {
        Err(CyreneError::PluginBinariesError(v, a)) => {
            assert_eq!(v, "20.0.0");
            assert_eq!(a, "node");
        }
        other => panic!("unexpected: {:?}", other),
    }
    assert!(m.journal().is_empty());
    node_binaries(&mut m, "20.0.0");
    assert_eq!(m.link_binaries("node", "20.0.0", false).unwrap(), false);
    assert_eq!(
        m.take_journal(),
        vec![
            symlink("/data/apps/node/20.0.0/bin/node", "/home/u/bin/node"),
            symlink("/data/apps/node/20.0.0/bin/npm", "/home/u/bin/npm"),
        ]
    );
    assert!(m.journal().is_empty());
    assert_eq!(m.link_at("/home/u/bin/node"), Some(s("/data/apps/node/20.0.0/bin/node")));
    assert_eq!(m.link_at("/home/u/bin/npx"), None);
}

#[test]
fn links_that_are_there_are_kept_unless_overwritten() {
    let mut m = manager();
    m.observe_installed("node", vec![s("18.0.0"), s("20.0.0")]);
    node_binaries(&mut m, "20.0.0");
    m.observe_link("/home/u/bin/node", "/data/apps/node/18.0.0/bin/node");

    assert_eq!(m.link_binaries("node", "20.0.0", false).unwrap(), true);
    assert_eq!(m.link_at("/home/u/bin/node"), Some(s("/data/apps/node/18.0.0/bin/node")));
    assert_eq!(m.link_at("/home/u/bin/npm"), Some(s("/data/apps/node/20.0.0/bin/npm")));
    assert_eq!(
        m.take_journal(),
        vec![symlink("/data/apps/node/20.0.0/bin/npm", "/home/u/bin/npm")]
    );

    assert_eq!(m.link_binaries("node", "20.0.0", true).unwrap(), false);
    assert_eq!(m.link_at("/home/u/bin/node"), Some(s("/data/apps/node/20.0.0/bin/node")));
    assert_eq!(
        m.take_journal(),
        vec![
            remove_file("/home/u/bin/node"),
            symlink("/data/apps/node/20.0.0/bin/node", "/home/u/bin/node"),
            remove_file("/home/u/bin/npm"),
            symlink("/data/apps/node/20.0.0/bin/npm", "/home/u/bin/npm"),
        ]
    );
}

#[test]
fn linking_twice_over_gives_the_same_links() {
    let mut m = manager();
    m.observe_installed("node", vec![s("20.0.0")]);
    node_binaries(&mut m, "20.0.0");
    assert_eq!(m.link_binaries("node", "20.0.0", true).unwrap(), false);
    let first = (m.link_at("/home/u/bin/node"), m.link_at("/home/u/bin/npm"));
    assert_eq!(m.link_binaries("node", "20.0.0", true).unwrap(), false);
    let second = (m.link_at("/home/u/bin/node"), m.link_at("/home/u/bin/npm"));
    assert_eq!(first, second);
    assert_eq!(first.0, Some(s("/data/apps/node/20.0.0/bin/node")));
    assert_eq!(first.1, Some(s("/data/apps/node/20.0.0/bin/npm")));
}

#[test]
fn a_link_onto_the_running_executable_is_refused() {
    let mut m = manager();
    m.observe_installed("cyrene", vec![s("1.0.0")]);
    m.observe_binaries(
        "cyrene",
        "1.0.0",
        vec![(s("helper"), s("helper")), (s("cyrene"), s("cyrene"))],
    );
    m.observe_link("/home/u/bin/helper", "/elsewhere");
    for overwrite in [false, true] {
        assert!(matches!(
            m.link_binaries("cyrene", "1.0.0", overwrite),
            Err(CyreneError::AppLinkingToItselfError)
        ));
        assert!(m.journal().is_empty());
        assert_eq!(m.link_at("/home/u/bin/helper"), Some(s("/elsewhere")));
        assert_eq!(m.link_at("/home/u/bin/cyrene"), None);
    }
}

#[test]
fn links_and_lockfile_agree_after_linking() {
    let mut m = manager();
    m.observe_installed("node", vec![s("18.0.0"), s("20.0.0")]);
    node_binaries(&mut m, "18.0.0");
    node_binaries(&mut m, "20.0.0");
    m.link_binaries("node", "18.0.0", true).unwrap();
    m.update_lockfile("node", Some("18.0.0"));
    m.link_binaries("node", "20.0.0", true).unwrap();
    m.update_lockfile("node", Some("20.0.0"));
    assert_eq!(m.find_installed_version("node"), Some(s("20.0.0")));
    for bin in ["node", "npm"] {
        let target = m.link_at(&format!("/home/u/bin/{}", bin)).unwrap();
        assert_eq!(target, format!("/data/apps/node/20.0.0/bin/{}", bin));
        assert_ne!(target, format!("/data/apps/node/18.0.0/bin/{}", bin));
    }
}

#[test]
fn unlinking_removes_the_links_of_the_linked_version() {
    let mut m = manager();
    assert!(matches!(
        m.unlink_binaries("node"),
        Err(CyreneError::AppNotInLockfileError(a)) if a == "node"
    ));
    m.update_lockfile("node", Some("20.0.0"));
    assert!(matches!(
        m.unlink_binaries("node"),
        Err(CyreneError::AppVersionNotInstalledError(v, a)) if v == "20.0.0" && a == "node"
    ));
    m.observe_installed("node", vec![s("20.0.0")]);
    assert!(matches!(m.unlink_binaries("node"), Err(CyreneError::PluginBinariesError(_, _))));
    node_binaries(&mut m, "20.0.0");
    m.observe_link("/home/u/bin/node", "/data/apps/node/20.0.0/bin/node");
    m.observe_link("/home/u/bin/other", "/x");
    m.take_journal();
    m.unlink_binaries("node").unwrap();
    assert_eq!(m.take_journal(), vec![remove_file("/home/u/bin/node")]);
    assert_eq!(m.link_at("/home/u/bin/node"), None);
    assert_eq!(m.link_at("/home/u/bin/other"), Some(s("/x")));
}

#[test]
fn install_writes_the_lockfile_only_when_everything_is_linked() {
    let mut m = manager();
    node_binaries(&mut m, "20.0.0");
    m.install("node", "20.0.0").unwrap();
    assert_eq!(
        m.take_journal(),
        vec![
            FsStep::CreateDirAll { path: s("/data/apps/node/20.0.0") },
            FsStep::InstallApp { app: s("node"), version: s("20.0.0"), dir: s("/data/apps/node/20.0.0") },
            FsStep::PostInstall { app: s("node"), version: s("20.0.0"), dir: s("/data/apps/node/20.0.0") },
            symlink("/data/apps/node/20.0.0/bin/node", "/home/u/bin/node"),
            symlink("/data/apps/node/20.0.0/bin/npm", "/home/u/bin/npm"),
            lock_set("node", Some("20.0.0")),
        ]
    );
    assert!(m.package_exists("node", "20.0.0"));
    assert!(m.package_root_exists("node"));
    assert_eq!(m.find_installed_version("node"), Some(s("20.0.0")));

    node_binaries(&mut m, "21.0.0");
    m.install("node", "21.0.0").unwrap();
    assert_eq!(m.find_installed_version("node"), Some(s("20.0.0")));
    assert_eq!(m.link_at("/home/u/bin/node"), Some(s("/data/apps/node/20.0.0/bin/node")));
    assert!(m.package_exists("node", "21.0.0"));
}

#[test]
fn uninstalling_the_linked_version_links_the_highest_that_is_left() {
    let mut m = manager();
    for v in ["18.0.0", "20.0.0", "19.5.0"] {
        node_binaries(&mut m, v);
    }
    m.observe_installed("node", vec![s("18.0.0"), s("20.0.0"), s("19.5.0")]);
    m.link_binaries("node", "20.0.0", true).unwrap();
    m.update_lockfile("node", Some("20.0.0"));
    m.take_journal();

    m.uninstall("node", "20.0.0").unwrap();
    assert_eq!(
        m.take_journal(),
        vec![
            remove_file("/home/u/bin/node"),
            remove_file("/home/u/bin/npm"),
            FsStep::RemoveDirAll { path: s("/data/apps/node/20.0.0") },
            symlink("/data/apps/node/19.5.0/bin/node", "/home/u/bin/node"),
            symlink("/data/apps/node/19.5.0/bin/npm", "/home/u/bin/npm"),
            lock_set("node", Some("19.5.0")),
        ]
    );
    assert!(!m.package_exists("node", "20.0.0"));
    assert_eq!(m.find_installed_version("node"), Some(s("19.5.0")));

    m.uninstall("node", "18.0.0").unwrap();
    assert_eq!(m.take_journal(), vec![FsStep::RemoveDirAll { path: s("/data/apps/node/18.0.0") }]);
    assert_eq!(m.find_installed_version("node"), Some(s("19.5.0")));

    m.uninstall("node", "19.5.0").unwrap();
    assert_eq!(
        m.take_journal(),
        vec![
            remove_file("/home/u/bin/node"),
            remove_file("/home/u/bin/npm"),
            FsStep::RemoveDirAll { path: s("/data/apps/node/19.5.0") },
            FsStep::RemoveDir { path: s("/data/apps/node") },
            lock_set("node", None),
        ]
    );
    assert!(!m.package_root_exists("node"));
    assert_eq!(m.find_installed_version("node"), None);
}

#[test]
fn uninstall_fails_without_touching_anything() {
    let mut m = manager();
    assert!(matches!(
        m.uninstall("node", "1.0.0"),
        Err(CyreneError::AppVersionNotInstalledError(v, a)) if v == "1.0.0" && a == "node"
    ));
    m.observe_installed("node", vec![s("1.0.0")]);
    assert!(matches!(
        m.uninstall("node", "1.0.0"),
        Err(CyreneError::AppNotInLockfileError(a)) if a == "node"
    ));
    assert!(matches!(
        m.uninstall_all("deno"),
        Err(CyreneError::AppNotInstalledError(a)) if a == "deno"
    ));
    assert!(matches!(m.uninstall_all("node"), Err(CyreneError::AppNotInLockfileError(_))));
    assert!(m.journal().is_empty());
    assert!(m.package_exists("node", "1.0.0"));
}

#[test]
fn uninstalling_an_app_removes_links_entry_and_directory() {
    let mut m = manager();
    node_binaries(&mut m, "20.0.0");
    m.install("node", "20.0.0").unwrap();
    m.take_journal();
    m.uninstall_all("node").unwrap();
    assert_eq!(
        m.take_journal(),
        vec![
            remove_file("/home/u/bin/node"),
            remove_file("/home/u/bin/npm"),
            lock_set("node", None),
            FsStep::RemoveDirAll { path: s("/data/apps/node") },
        ]
    );
    assert!(!m.package_root_exists("node"));
    assert_eq!(m.find_installed_version("node"), None);
    assert_eq!(m.list_apps(), Vec::<String>::new());
}

#[test]
fn upgrade_installs_links_locks_and_removes() {
    let mut m = manager();
    node_binaries(&mut m, "20.0.0");
    node_binaries(&mut m, "20.1.0");
    assert!(matches!(
        m.upgrade("node", "20.0.0", "20.1.0"),
        Err(CyreneError::LockfileAppError(a)) if a == "node"
    ));
    m.install("node", "20.0.0").unwrap();
    m.take_journal();
    m.upgrade("node", "20.0.0", "20.1.0").unwrap();
    assert_eq!(m.find_installed_version("node"), Some(s("20.1.0")));
    assert!(m.package_exists("node", "20.1.0"));
    assert!(!m.package_exists("node", "20.0.0"));
    assert_eq!(m.link_at("/home/u/bin/node"), Some(s("/data/apps/node/20.1.0/bin/node")));
    let journal = m.take_journal();
    assert_eq!(journal.first(), Some(&FsStep::CreateDirAll { path: s("/data/apps/node/20.1.0") }));
    assert_eq!(journal.last(), Some(&FsStep::RemoveDirAll { path: s("/data/apps/node/20.0.0") }));
    assert_eq!(journal.len(), 9);
}

#[test]
fn versions_come_from_the_cache() {
    let mut m = manager();
    assert!(m.needs_versions("x"));
    assert!(matches!(
        m.get_latest_version("x"),
        Err(CyreneError::AppVersionNotInCacheError(a)) if a == "x"
    ));
    m.update_versions("x", &vec![s("2.0.0"), s("1.9.0"), s("nightly"), s("2.1.0")]);
    assert!(!m.needs_versions("x"));
    assert_eq!(m.versions("x"), vec![s("2.1.0"), s("2.0.0"), s("1.9.0"), s("nightly")]);
    assert!(m.verify_version_exists("x", "nightly"));
    assert_eq!(m.get_latest_major_release("x", "*"), Some(s("2.1.0")));
    assert_eq!(m.get_latest_version("x").unwrap(), "2.1.0");
    assert_eq!(m.get_latest_major_release("x", "^2.0.0"), Some(s("2.1.0")));
    assert_eq!(m.get_latest_major_release("x", "1.0.0"), Some(s("1.9.0")));
    assert_eq!(m.get_latest_major_release("x", "^9.0.0"), None);
    assert!(m.verify_version_exists("x", "2.0.0"));
    assert!(!m.verify_version_exists("x", "2.0.1"));
    assert!(!m.verify_version_exists("y", "2.0.0"));
    assert_eq!(
        m.take_journal(),
        vec![FsStep::CacheSet {
            path: s("/cache/versions.yaml"),
            app: s("x"),
            versions: vec![s("2.1.0"), s("2.0.0"), s("1.9.0"), s("nightly")],
        }]
    );
    assert_eq!(m.version_cache().get_versions("x").len(), 4);
}

#[test]
fn installed_versions_are_listed_highest_first() {
    let mut m = manager();
    m.observe_installed("node", vec![s("18.0.0"), s("tmp"), s("20.0.0"), s("19.5.0")]);
    m.observe_installed("bun", vec![s("1.0.0")]);
    m.update_lockfile("node", Some("19.5.0"));
    assert_eq!(m.list_apps(), vec![s("bun"), s("node")]);
    let versions: Vec<String> =
        m.list_installed_app_versions("node").into_iter().map(|i| i.version).collect();
    assert_eq!(versions, vec![s("20.0.0"), s("19.5.0"), s("18.0.0")]);
    assert_eq!(m.find_installed_major_release("node", "^18"), Some(s("18.0.0")));
    assert_eq!(m.find_installed_major_release("node", "*"), Some(s("20.0.0")));
    assert_eq!(m.find_installed_major_release("node", "^17"), None);
    assert_eq!(m.find_installed_major_release("deno", "*"), None);
    assert_eq!(
        m.list_linked_app_versions(),
        vec![CyreneAppItem { name: s("node"), version: s("19.5.0") }]
    );
    assert_eq!(m.get_app_version_map().get("node"), Some(&s("19.5.0")));
    assert_eq!(
        rows_of_app(&m, "node"),
        vec![
            CyreneAppVersionsAllRow { name: s("node"), version: s("20.0.0"), linked: false },
            CyreneAppVersionsAllRow { name: s("node"), version: s("19.5.0"), linked: true },
            CyreneAppVersionsAllRow { name: s("node"), version: s("18.0.0"), linked: false },
        ]
    );
    assert_eq!(rows_of_app(&m, "node")[1].line(), "node: 19.5.0");
    assert_eq!(m.get_plugin_script("node"), "/data/plugins/node.rn");
    assert_eq!(m.dirs().exe_dir, "/home/u/bin");
    assert_eq!(m.lockfile().lockfile_path(), "/cfg/cyrene.toml");
}

fn local(entries: &[(&str, &str)]) -> CyreneLockfile {
    let mut doc = CyreneLockfile::new();
    for (name, version) in entries {
        doc.versions.insert(name.to_string(), version.to_string());
    }
    doc
}

#[test]
fn loading_a_lockfile_checks_every_entry_first() {
    let mut m = manager();
    m.update_versions("node", &vec![s("20.0.0")]);
    m.update_versions("bun", &vec![s("1.0.0")]);
    node_binaries(&mut m, "20.0.0");
    m.observe_binaries("bun", "1.1.0", vec![(s("bun"), s("bun"))]);
    m.take_journal();
    let r = m.load_lockfile(Some((
        s("/proj/cyrene.toml"),
        local(&[("node", "20.0.0"), ("bun", "1.1.0")]),
    )));
    match r {
        Err(CyreneError::LockfileAppVersionError(v, a)) => {
            assert_eq!(v, "1.1.0");
            assert_eq!(a, "bun");
        }
        other => panic!("unexpected: {:?}", other),
    }
    assert_eq!(
        m.take_journal(),
        vec![FsStep::LockfilePointer { path: s("/cfg/cyrene.toml"), target: Some(s("/proj/cyrene.toml")) }]
    );
    assert!(!m.package_exists("node", "20.0.0"));
    assert_eq!(m.link_at("/home/u/bin/node"), None);
}

#[test]
fn loading_a_lockfile_installs_and_links_what_it_lists() {
    let mut m = manager();
    m.update_versions("node", &vec![s("20.0.0")]);
    m.update_versions("bun", &vec![s("1.0.0")]);
    node_binaries(&mut m, "20.0.0");
    m.observe_binaries("bun", "1.0.0", vec![(s("bun"), s("bun"))]);
    m.observe_installed("bun", vec![s("1.0.0")]);
    m.observe_link("/home/u/bin/bun", "/old");
    m.take_journal();
    m.load_lockfile(Some((s("/proj/cyrene.toml"), local(&[("node", "20.0.0"), ("bun", "1.0.0")]))))
        .unwrap();
    assert_eq!(
        m.take_journal(),
        vec![
            FsStep::LockfilePointer { path: s("/cfg/cyrene.toml"), target: Some(s("/proj/cyrene.toml")) },
            remove_file("/home/u/bin/bun"),
            symlink("/data/apps/bun/1.0.0/bun", "/home/u/bin/bun"),
            FsStep::CreateDirAll { path: s("/data/apps/node/20.0.0") },
            FsStep::InstallApp { app: s("node"), version: s("20.0.0"), dir: s("/data/apps/node/20.0.0") },
            FsStep::PostInstall { app: s("node"), version: s("20.0.0"), dir: s("/data/apps/node/20.0.0") },
            symlink("/data/apps/node/20.0.0/bin/node", "/home/u/bin/node"),
            symlink("/data/apps/node/20.0.0/bin/npm", "/home/u/bin/npm"),
        ]
    );
    assert_eq!(m.find_installed_version("node"), Some(s("20.0.0")));
    m.load_lockfile(None).unwrap();
    assert_eq!(
        m.take_journal(),
        vec![FsStep::LockfilePointer { path: s("/cfg/cyrene.toml"), target: None }]
    );
    assert_eq!(m.find_installed_version("node"), None);
}

fn queue(m: CyreneManager, commands: Vec<TransactionCommands>) -> TransactionExecutor {
    let mut tx = TransactionExecutor::new(m);
    for c in commands {
        tx.add(c);
    }
    tx
}

#[test]
fn phases_order_the_steps_whatever_the_order_of_the_commands() {
    let mut m = manager();
    node_binaries(&mut m, "20.0.0");
    node_binaries(&mut m, "20.1.0");
    m.install("node", "20.0.0").unwrap();
    m.take_journal();
    let mut tx = queue(
        m,
        vec![
            TransactionCommands::Link { app: s("node"), version: s("20.1.0"), overwrite: true },
            TransactionCommands::Install { app: s("node"), version: s("20.1.0") },
            TransactionCommands::Remove { app: s("node"), version: s("19.0.0") },
            TransactionCommands::LockfileUpdate { app: s("node"), version: Some(s("20.1.0")) },
        ],
    );
    assert_eq!(
        tx.plan(),
        vec![
            TransactionStep::Install { app: s("node"), version: s("20.1.0") },
            TransactionStep::PostInstall { app: s("node"), version: s("20.1.0") },
            TransactionStep::Remove { app: s("node"), version: s("19.0.0") },
            TransactionStep::Link { app: s("node"), version: s("20.1.0"), overwrite: true },
            TransactionStep::LockfileUpdate { app: s("node"), version: Some(s("20.1.0")) },
        ]
    );
    // The removal fails, since 19.0.0 is not installed: what was installed
    // stays, and neither links nor lockfile are touched.
    assert!(matches!(
        tx.execute(),
        Err(CyreneError::AppVersionNotInstalledError(v, _)) if v == "19.0.0"
    ));
    assert!(tx.manager().package_exists("node", "20.1.0"));
    assert_eq!(tx.manager().find_installed_version("node"), Some(s("20.0.0")));
    let mut m = tx.into_manager();
    assert_eq!(
        m.take_journal(),
        vec![
            FsStep::CreateDirAll { path: s("/data/apps/node/20.1.0") },
            FsStep::InstallApp { app: s("node"), version: s("20.1.0"), dir: s("/data/apps/node/20.1.0") },
            FsStep::PostInstall { app: s("node"), version: s("20.1.0"), dir: s("/data/apps/node/20.1.0") },
        ]
    );
}

#[test]
fn an_upgrade_as_a_transaction() {
    let mut m = manager();
    node_binaries(&mut m, "20.0.0");
    node_binaries(&mut m, "20.1.0");
    m.observe_installed("node", vec![s("20.0.0"), s("19.0.0")]);
    m.link_binaries("node", "20.0.0", true).unwrap();
    m.update_lockfile("node", Some("20.0.0"));
    m.take_journal();
    let action = AppVersionUpgradeAction {
        name: s("node"),
        old_version: s("19.0.0"),
        new_version: s("20.1.0"),
    };
    let mut tx = queue(m, upgrade_commands(&action, true));
    assert_eq!(tx.execute().unwrap(), true);
    let mut m = tx.into_manager();
    let kinds: Vec<&str> = m
        .take_journal()
        .iter()
        .map(|step| match step {
            FsStep::CreateDirAll { .. } => "mkdir",
            FsStep::InstallApp { .. } => "install",
            FsStep::PostInstall { .. } => "post",
            FsStep::RemoveDirAll { .. } => "rmdir",
            FsStep::RemoveFile { .. } => "rm",
            FsStep::Symlink { .. } => "link",
            FsStep::LockfileSet { .. } => "lock",
            _ => "other",
        })
        .collect();
    assert_eq!(
        kinds,
        vec!["mkdir", "install", "post", "rmdir", "rm", "link", "rm", "link", "lock"]
    );
    assert_eq!(m.find_installed_version("node"), Some(s("20.1.0")));
    assert_eq!(m.link_at("/home/u/bin/npm"), Some(s("/data/apps/node/20.1.0/bin/npm")));
}

#[test]
fn a_transaction_keeps_the_order_within_a_phase() {
    let mut tx = queue(
        manager(),
        vec![
            TransactionCommands::Unlink { app: s("a") },
            TransactionCommands::RemoveAll { app: s("b") },
            TransactionCommands::Install { app: s("c"), version: s("1.0.0") },
            TransactionCommands::LockfileUpdate { app: s("a"), version: None },
            TransactionCommands::Install { app: s("d"), version: s("2.0.0") },
            TransactionCommands::Remove { app: s("e"), version: s("3.0.0") },
        ],
    );
    assert_eq!(
        tx.plan(),
        vec![
            TransactionStep::Install { app: s("c"), version: s("1.0.0") },
            TransactionStep::Install { app: s("d"), version: s("2.0.0") },
            TransactionStep::PostInstall { app: s("c"), version: s("1.0.0") },
            TransactionStep::PostInstall { app: s("d"), version: s("2.0.0") },
            TransactionStep::RemoveAll { app: s("b") },
            TransactionStep::Remove { app: s("e"), version: s("3.0.0") },
            TransactionStep::Unlink { app: s("a") },
            TransactionStep::LockfileUpdate { app: s("a"), version: None },
        ]
    );
    assert!(matches!(tx.execute(), Err(CyreneError::AppNotInstalledError(a)) if a == "b"));
    assert_eq!(TransactionExecutor::new(manager()).execute().unwrap(), true);
}

#[test]
fn requests_are_read_and_resolved() {
    assert_eq!(AppVersion::parse("node"), AppVersion { name: s("node"), version: None });
    assert_eq!(
        AppVersion::parse("node@^20"),
        AppVersion { name: s("node"), version: Some(s("^20")) }
    );
    assert_eq!(
        AppVersion::parse("node@1.0.0@x"),
        AppVersion { name: s("node"), version: Some(s("1.0.0")) }
    );
    assert_eq!(AppVersion::parse("@"), AppVersion { name: s(""), version: Some(s("")) });
    assert_eq!(AppVersion::parse(""), AppVersion { name: s(""), version: None });
    assert_eq!(AppVersion::from(&s("bun@1")), AppVersion { name: s("bun"), version: Some(s("1")) });

    let mut m = manager();
    m.update_versions("node", &vec![s("20.1.0"), s("20.0.0"), s("18.0.0")]);
    m.observe_installed("node", vec![s("18.0.0")]);
    let plan = plan_install(
        &m,
        &vec![
            AppVersion::parse("node"),
            AppVersion::parse("node@^18"),
            AppVersion::parse("node@5.5.5"),
        ],
    )
    .unwrap();
    assert_eq!(
        plan.actions,
        vec![
            AppVersionAction { name: s("node"), version: s("20.1.0") },
            AppVersionAction { name: s("node"), version: s("5.5.5") },
        ]
    );
    assert_eq!(plan.present, vec![AppVersionAction { name: s("node"), version: s("18.0.0") }]);
    assert!(matches!(
        plan_install(&m, &vec![AppVersion::parse("node"), AppVersion::parse("node@^99")]),
        Err(CyreneError::AppVersionNotFoundError(v, a)) if v == "^99" && a == "node"
    ));
    assert!(matches!(
        plan_install(&m, &vec![AppVersion::parse("deno")]),
        Err(CyreneError::AppVersionNotInCacheError(a)) if a == "deno"
    ));
}

#[test]
fn upgrades_are_planned_within_the_release_line() {
    let mut m = manager();
    m.update_versions("node", &vec![s("21.0.0"), s("20.1.0"), s("20.0.0"), s("0.4.0"), s("0.3.9")]);
    m.update_versions("tool", &vec![s("0.4.0"), s("0.3.9"), s("0.3.1")]);
    m.observe_installed("node", vec![s("20.0.0")]);
    m.observe_installed("tool", vec![s("0.3.9")]);
    m.update_lockfile("node", Some("20.0.0"));
    m.update_lockfile("tool", Some("0.3.9"));
    assert_eq!(
        upgrade_all_requests(&m),
        vec![AppVersion { name: s("node"), version: None }, AppVersion { name: s("tool"), version: None }]
    );
    let plan = plan_upgrade(&m, &upgrade_all_requests(&m)).unwrap();
    assert_eq!(
        plan.actions,
        vec![AppVersionUpgradeAction {
            name: s("node"),
            old_version: s("20.0.0"),
            new_version: s("20.1.0"),
        }]
    );
    assert_eq!(plan.current, vec![AppVersionAction { name: s("tool"), version: s("0.3.9") }]);
    assert!(matches!(
        plan_upgrade(&m, &vec![AppVersion::parse("deno")]),
        Err(CyreneError::AppNotInstalledError(a)) if a == "deno"
    ));
    assert!(matches!(
        plan_upgrade(&m, &vec![AppVersion::parse("node@^19")]),
        Err(CyreneError::AppNotInstalledError(a)) if a == "node"
    ));
    m.observe_installed("old", vec![s("1.0.0")]);
    m.update_lockfile("old", Some("1.0.0"));
    assert!(matches!(
        plan_upgrade(&m, &vec![AppVersion::parse("old")]),
        Err(CyreneError::AppVersionNotFoundError(v, a)) if a == "old" && v == "1.0.0"
    ));
}

#[test]
fn uninstalls_are_planned_and_done() {
    let mut m = manager();
    m.observe_installed("node", vec![s("20.0.0"), s("18.0.0")]);
    node_binaries(&mut m, "20.0.0");
    m.link_binaries("node", "20.0.0", true).unwrap();
    m.update_lockfile("node", Some("20.0.0"));
    let plan = plan_uninstall(
        &m,
        &vec![AppVersion::parse("node@^18"), AppVersion::parse("node@1.2.3"), AppVersion::parse("node")],
    )
    .unwrap();
    assert_eq!(
        plan,
        vec![
            AppVersion { name: s("node"), version: Some(s("18.0.0")) },
            AppVersion { name: s("node"), version: Some(s("1.2.3")) },
            AppVersion { name: s("node"), version: None },
        ]
    );
    assert!(matches!(
        plan_uninstall(&m, &vec![AppVersion::parse("node@^17")]),
        Err(CyreneError::AppVersionNotFoundError(v, a)) if v == "^17" && a == "node"
    ));
    uninstall_action(&mut m, &plan[0]).unwrap();
    assert!(!m.package_exists("node", "18.0.0"));
    assert!(uninstall_action(&mut m, &plan[1]).is_err());
    uninstall_action(&mut m, &plan[2]).unwrap();
    assert!(!m.package_root_exists("node"));
}

#[test]
fn installing_on_request_moves_the_lockfile_within_a_release_line() {
    let mut m = manager();
    for v in ["20.0.0", "20.1.0", "21.0.0"] {
        node_binaries(&mut m, v);
    }
    let first = AppVersionAction { name: s("node"), version: s("20.0.0") };
    assert_eq!(install_action(&mut m, &first).unwrap(), false);
    assert_eq!(m.find_installed_version("node"), None);
    m.update_lockfile("node", Some("20.0.0"));
    let second = AppVersionAction { name: s("node"), version: s("20.1.0") };
    assert_eq!(install_action(&mut m, &second).unwrap(), true);
    assert_eq!(m.find_installed_version("node"), Some(s("20.1.0")));
    let third = AppVersionAction { name: s("node"), version: s("21.0.0") };
    assert_eq!(install_action(&mut m, &third).unwrap(), true);
    assert_eq!(m.find_installed_version("node"), Some(s("20.1.0")));
    m.update_lockfile("node", Some("nightly"));
    assert!(matches!(install_action(&mut m, &third), Err(CyreneError::VersionError(_))));
}

#[test]
fn linking_on_request() {
    let mut m = manager();
    m.observe_installed("node", vec![s("20.0.0"), s("18.0.0")]);
    node_binaries(&mut m, "18.0.0");
    link_command(&mut m, "node", "^18").unwrap();
    assert_eq!(m.find_installed_version("node"), Some(s("18.0.0")));
    assert_eq!(m.link_at("/home/u/bin/node"), Some(s("/data/apps/node/18.0.0/bin/node")));
    assert!(matches!(
        link_command(&mut m, "node", "^17"),
        Err(CyreneError::AppNotInstalledError(a)) if a == "node"
    ));
    assert!(matches!(
        link_command(&mut m, "node", "20.0.0"),
        Err(CyreneError::PluginBinariesError(_, _))
    ));
    assert!(matches!(
        link_command(&mut m, "node", "19.0.0"),
        Err(CyreneError::AppVersionNotInstalledError(_, _))
    ));
    assert_eq!(m.find_installed_version("node"), Some(s("18.0.0")));
}

#[test]
fn everything_installed_is_listed_app_after_app() {
    let mut m = manager();
    m.observe_installed("node", vec![s("18.0.0"), s("20.0.0")]);
    m.observe_installed("bun", vec![s("1.0.0")]);
    m.observe_installed("empty", Vec::new());
    m.update_lockfile("bun", Some("1.0.0"));
    m.update_lockfile("node", Some("18.0.0"));
    assert_eq!(
        cyrene_app_versions_all(&m),
        vec![
            CyreneAppVersionsAllRow { name: s("bun"), version: s("1.0.0"), linked: true },
            CyreneAppVersionsAllRow { name: s("node"), version: s("20.0.0"), linked: false },
            CyreneAppVersionsAllRow { name: s("node"), version: s("18.0.0"), linked: true },
        ]
    );
    assert_eq!(cyrene_app_versions_all(&manager()), Vec::new());
}

#[test]
fn the_environment_snippet_is_written_to_the_configuration_directory() {
    let mut m = manager();
    m.generate_env();
    assert_eq!(
        m.take_journal(),
        vec![FsStep::WriteFile {
            path: s("/cfg/cyrene_env.sh"),
            content: s("export CYRENE_INSTALL_DIR=/home/u/bin\nexport CYRENE_APPS_DIR=/data/apps\nexport CYRENE_PLUGINS_DIR=/data/plugins"),
        }]
    );
}

#[test]
fn a_lockfile_of_versions_that_are_not_semantic_is_loaded() {
    let mut m = manager();
    m.update_versions("tool", &vec![s("stable"), s("nightly")]);
    assert_eq!(m.versions("tool"), vec![s("stable"), s("nightly")]);
    assert_eq!(m.get_latest_version("tool").unwrap(), "stable");
    m.observe_binaries("tool", "nightly", vec![(s("tool"), s("bin/tool"))]);
    m.take_journal();
    m.load_lockfile(Some((s("/proj/cyrene.toml"), local(&[("tool", "nightly")])))).unwrap();
    assert!(m.package_exists("tool", "nightly"));
    assert_eq!(m.link_at("/home/u/bin/tool"), Some(s("/data/apps/tool/nightly/bin/tool")));
    assert_eq!(m.find_installed_version("tool"), Some(s("nightly")));
}

#[test]
fn with_a_pointer_the_default_lockfile_is_not_read() {
    let mut m = manager();
    m.update_lockfile("node", Some("18.0.0"));
    m.load_lockfile(Some((s("/proj/cyrene.toml"), local(&[])))).unwrap();
    assert_eq!(m.find_installed_version("node"), None);
    assert!(matches!(
        m.unlink_binaries("node"),
        Err(CyreneError::AppNotInLockfileError(a)) if a == "node"
    ));
    m.update_lockfile("node", Some("20.0.0"));
    assert_eq!(m.find_installed_version("node"), Some(s("20.0.0")));
    m.update_lockfile("node", None);
    assert_eq!(m.find_installed_version("node"), None);
    // The default lockfile comes back into force; its entry is not known
    // upstream, so nothing of it is brought to the disk.
    assert!(matches!(
        m.load_lockfile(None),
        Err(CyreneError::LockfileAppVersionError(v, a)) if v == "18.0.0" && a == "node"
    ));
    assert_eq!(m.find_installed_version("node"), Some(s("18.0.0")));
}

#[test]
fn an_upgrade_goes_over_the_links_of_the_linked_version_only() {
    let mut m = manager();
    m.update_lockfile("node", Some("20.0.0"));
    let action = AppVersionUpgradeAction {
        name: s("node"),
        old_version: s("20.0.0"),
        new_version: s("20.1.0"),
    };
    assert_eq!(upgrade_transaction(&m, &action), upgrade_commands(&action, true));
    let other = AppVersionUpgradeAction {
        name: s("node"),
        old_version: s("19.0.0"),
        new_version: s("19.1.0"),
    };
    assert_eq!(upgrade_transaction(&m, &other), upgrade_commands(&other, false));
    let unknown = AppVersionUpgradeAction {
        name: s("bun"),
        old_version: s("1.0.0"),
        new_version: s("1.1.0"),
    };
    assert_eq!(upgrade_transaction(&m, &unknown), upgrade_commands(&unknown, false));
    assert_eq!(
        upgrade_commands(&action, true)[1],
        TransactionCommands::Link { app: s("node"), version: s("20.1.0"), overwrite: true }
    );
}
