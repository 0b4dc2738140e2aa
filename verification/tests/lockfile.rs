use cyrene::errors::CyreneError;
use cyrene::lockfile::{CyreneLockfile, CyreneLockfileManager};
use cyrene::responses::CyreneAppItem;
use cyrene::strmap::StrMap;
use cyrene::versions_cache::{CyreneVersionCacheManager, CyreneVersionsCache};

fn lockfile(entries: &[(&str, &str)], pointer: Option<&str>) -> CyreneLockfile {
    let mut doc = CyreneLockfile::new();
    for (name, version) in entries {
        doc.versions.insert(name.to_string(), version.to_string());
    }
    doc.loaded_lockfile = pointer.map(|p| p.to_string());
    doc
}

fn item(name: &str, version: &str) -> CyreneAppItem {
    CyreneAppItem { name: name.to_string(), version: version.to_string() }
}

#[test]
fn update_goes_to_the_local_lockfile_once_pointed_there() {
    let mut manager = CyreneLockfileManager::new("/cfg/cyrene.toml");
    manager.load(lockfile(&[("y", "2.0.0"), ("z", "1.0.0")], None), None).unwrap();
    manager.use_local_lockfile("/proj/cyrene.toml", lockfile(&[], None));
    manager.update_lockfile("y", Some("3.0.0"));

    let default_doc = manager.default_lockfile();
    assert_eq!(default_doc.versions.get("y"), Some(&"2.0.0".to_string()));
    assert_eq!(default_doc.versions.get("z"), Some(&"1.0.0".to_string()));
    assert_eq!(default_doc.loaded_lockfile, Some("/proj/cyrene.toml".to_string()));
    let local_doc = manager.local_lockfile().unwrap();
    assert_eq!(local_doc.versions.get("y"), Some(&"3.0.0".to_string()));
    assert_eq!(local_doc.versions.len(), 1);
    assert_eq!(manager.active_path(), "/proj/cyrene.toml");
    assert!(manager.is_local_lockfile());
    assert_eq!(manager.find_installed_version_from_lockfile("y"), Some("3.0.0".to_string()));
}

#[test]
fn reads_follow_the_pointer() {
    let mut manager = CyreneLockfileManager::new("/cfg/cyrene.toml");
    manager
        .load(
            lockfile(&[("a", "1.0.0"), ("b", "1.0.0")], Some("/proj/cyrene.toml")),
            Some(lockfile(&[("b", "2.0.0"), ("c", "3.0.0")], None)),
        )
        .unwrap();
    assert_eq!(manager.find_installed_version_from_lockfile("a"), None);
    assert_eq!(manager.find_installed_version_from_lockfile("b"), Some("2.0.0".to_string()));
    assert_eq!(manager.find_installed_version_from_lockfile("c"), Some("3.0.0".to_string()));
    assert_eq!(manager.find_installed_version_from_lockfile("d"), None);
    assert_eq!(
        manager.load_versions_from_current_lockfile(),
        vec![item("b", "2.0.0"), item("c", "3.0.0")]
    );
    manager.update_lockfile("b", None);
    assert_eq!(manager.find_installed_version_from_lockfile("b"), None);
    assert_eq!(manager.default_lockfile().versions.get("b"), Some(&"1.0.0".to_string()));
    manager.use_default_lockfile();
    assert_eq!(manager.find_installed_version_from_lockfile("a"), Some("1.0.0".to_string()));
    assert_eq!(manager.find_installed_version_from_lockfile("b"), Some("1.0.0".to_string()));
}

#[test]
fn documents_are_changed_one_entry_at_a_time() {
    let mut doc = lockfile(&[("a", "1.0.0")], Some("/p.toml"));
    doc.set_version("b", Some("2.0.0"));
    doc.set_version("a", None);
    doc.set_version("zz", None);
    assert_eq!(doc.versions.len(), 1);
    assert_eq!(doc.versions.get("b"), Some(&"2.0.0".to_string()));
    assert_eq!(doc.loaded_lockfile, Some("/p.toml".to_string()));
    doc.set_pointer(None);
    assert_eq!(doc.loaded_lockfile, None);
    doc.set_pointer(Some("/q.toml"));
    assert_eq!(doc.loaded_lockfile, Some("/q.toml".to_string()));
    assert_eq!(doc.versions.len(), 1);
    let mut cache = CyreneVersionsCache::new();
    cache.set_versions("x", vec!["1.0.0".to_string()]);
    cache.set_versions("x", vec!["2.0.0".to_string()]);
    assert_eq!(cache.versions.get("x"), Some(&vec!["2.0.0".to_string()]));
}

#[test]
fn switching_back_copies_nothing() {
    let mut manager = CyreneLockfileManager::new("/cfg/cyrene.toml");
    manager.update_lockfile("a", Some("1.0.0"));
    manager.use_local_lockfile("/proj/cyrene.toml", lockfile(&[("b", "2.0.0")], None));
    manager.update_lockfile("c", Some("3.0.0"));
    manager.use_default_lockfile();
    assert!(!manager.is_local_lockfile());
    assert!(manager.local_lockfile().is_none());
    assert_eq!(manager.active_path(), "/cfg/cyrene.toml");
    assert_eq!(manager.lockfile_path(), "/cfg/cyrene.toml");
    assert_eq!(manager.load_versions_from_current_lockfile(), vec![item("a", "1.0.0")]);
    assert_eq!(manager.find_installed_version_from_lockfile("c"), None);
}

#[test]
fn clearing_an_entry() {
    let mut manager = CyreneLockfileManager::new("/cfg/cyrene.toml");
    manager.update_lockfile("a", Some("1.0.0"));
    manager.update_lockfile("b", Some("2.0.0"));
    manager.update_lockfile("a", None);
    manager.update_lockfile("zzz", None);
    assert_eq!(manager.find_installed_version_from_lockfile("a"), None);
    assert_eq!(manager.load_versions_from_current_lockfile(), vec![item("b", "2.0.0")]);
    assert_eq!(manager.load_version_map_from_current_lockfile().len(), 1);
}

#[test]
fn a_pointer_without_its_lockfile_is_refused() {
    let mut manager = CyreneLockfileManager::new("/cfg/cyrene.toml");
    manager.update_lockfile("a", Some("1.0.0"));
    let r = manager.load(lockfile(&[("x", "9.9.9")], Some("/gone.toml")), None);
    assert!(matches!(r, Err(CyreneError::LockfileNotFoundError)));
    assert_eq!(manager.find_installed_version_from_lockfile("a"), Some("1.0.0".to_string()));
    assert_eq!(manager.find_installed_version_from_lockfile("x"), None);
    manager.load(lockfile(&[("x", "9.9.9")], None), Some(lockfile(&[("q", "1.0.0")], None))).unwrap();
    assert_eq!(manager.find_installed_version_from_lockfile("q"), None);
    assert!(manager.local_lockfile().is_none());
}

#[test]
fn entries_are_listed_by_name() {
    let mut manager = CyreneLockfileManager::new("/cfg/cyrene.toml");
    for name in ["node", "zig", "bun", "deno", "Node", "b"] {
        manager.update_lockfile(name, Some("1.0.0"));
    }
    let names: Vec<String> = manager
        .load_versions_from_current_lockfile()
        .into_iter()
        .map(|i| i.name)
        .collect();
    assert_eq!(names, vec!["Node", "b", "bun", "deno", "node", "zig"]);
}

#[test]
fn map_keeps_one_value_per_key_in_key_order() {
    let mut map: StrMap<String> = StrMap::new();
    assert_eq!(map.len(), 0);
    map.insert("b".to_string(), "1".to_string());
    map.insert("a".to_string(), "2".to_string());
    map.insert("c".to_string(), "3".to_string());
    map.insert("b".to_string(), "4".to_string());
    assert_eq!(map.len(), 3);
    assert_eq!(map.key_at(0), "a");
    assert_eq!(map.key_at(1), "b");
    assert_eq!(map.key_at(2), "c");
    assert_eq!(map.value_at(1), "4");
    assert_eq!(map.get("b"), Some(&"4".to_string()));
    assert_eq!(map.get("d"), None);
    assert!(map.contains_key("a"));
    assert!(map.remove("a"));
    assert!(!map.remove("a"));
    assert!(!map.contains_key("a"));
    assert_eq!(map.len(), 2);
    assert_eq!(map.key_at(0), "b");
}

#[test]
fn map_agrees_with_a_tree_map() {
    let keys = ["m", "a", "zz", "z", "", "ab", "a", "é", "B", "m", "aa", "zz"];
    let mut map: StrMap<String> = StrMap::new();
    let mut tree = std::collections::BTreeMap::new();
    for (i, k) in keys.iter().enumerate() {
        map.insert(k.to_string(), i.to_string());
        tree.insert(k.to_string(), i.to_string());
        if i % 5 == 4 {
            assert_eq!(map.remove("a"), tree.remove("a").is_some());
        }
    }
    assert_eq!(map.len(), tree.len());
    for (i, (k, v)) in tree.iter().enumerate() {
        assert_eq!(map.key_at(i), k);
        assert_eq!(map.value_at(i), v);
    }
}

#[test]
fn cache_is_overwritten_wholesale() {
    let mut cache = CyreneVersionCacheManager::new("/cache/versions.yaml");
    assert_eq!(cache.cache_path(), "/cache/versions.yaml");
    assert_eq!(cache.get_versions("x"), Vec::<String>::new());
    cache.update_version_cache("x", vec!["2.1.0".to_string(), "2.0.0".to_string()]);
    cache.update_version_cache("y", vec!["0.1.0".to_string()]);
    assert_eq!(cache.get_versions("x"), vec!["2.1.0".to_string(), "2.0.0".to_string()]);
    cache.update_version_cache("x", vec!["3.0.0".to_string()]);
    assert_eq!(cache.get_versions("x"), vec!["3.0.0".to_string()]);
    assert_eq!(cache.get_versions("y"), vec!["0.1.0".to_string()]);
    assert_eq!(cache.cache().versions.len(), 2);

    let mut stored = CyreneVersionsCache::new();
    stored.versions.insert("z".to_string(), vec!["1.0.0".to_string()]);
    cache.load(stored);
    assert_eq!(cache.get_versions("x"), Vec::<String>::new());
    assert_eq!(cache.get_versions("z"), vec!["1.0.0".to_string()]);
}
