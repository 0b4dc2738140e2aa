//! Where everything lies on disk.
use crate::config::CyreneConfig;
use crate::text::{path_push, spec_path_push};
use vstd::prelude::*;
use vstd::string::*;

verus! {

/// The directories that the library works in.
pub struct CyreneDirs {
    /// Holds one directory per app, and in it one per installed version.
    pub apps_dir: String,
    /// Holds the plugin scripts, one per app.
    pub plugins_dir: String,
    /// Holds the links to the binaries of the linked versions.
    pub exe_dir: String,
    pub config_dir: String,
    pub cache_dir: String,
    pub version_cache_path: String,
}

/// What the surroundings offer for the directories: the variables of the
/// environment that override them, the directories that the system gives a
/// project, and the directory of the running executable.
pub struct DirSources {
    pub apps_dir_env: Option<String>,
    pub plugins_dir_env: Option<String>,
    pub install_dir_env: Option<String>,
    pub data_dir: String,
    pub config_dir: String,
    pub cache_dir: String,
    pub exe_parent: String,
}

/// The view of an optional text.
pub open spec fn opt_view(o: Option<String>) -> Option<Seq<char>> {
    match o {
        Some(s) => Some(s@),
        None => None,
    }
}

/// The first of three candidates that is there.
pub open spec fn spec_pick(
    first: Option<Seq<char>>,
    second: Option<Seq<char>>,
    last: Seq<char>,
) -> Seq<char> {
    match first {
        Some(s) => s,
        None => match second {
            Some(s) => s,
            None => last,
        },
    }
}

fn pick(first: &Option<String>, second: &Option<String>, last: String) -> (r: String)
    ensures
        r@ == spec_pick(opt_view(*first), opt_view(*second), last@),
{
    match first {
        Some(s) => s.clone(),
        None => match second {
            Some(s) => s.clone(),
            None => last,
        },
    }
}

fn join3(a: &str, b: &str, c: &str) -> (r: String)
    ensures
        r@ == a@ + b@ + c@,
{
    let mut s: String = a.to_owned();
    s.append(b);
    s.append(c);
    s
}

impl CyreneDirs {
    /// The directory of one version of an app.
    pub open spec fn spec_installation_path(&self, name: Seq<char>, version: Seq<char>) -> Seq<
        char,
    > {
        spec_path_push(self.apps_dir@, name + "/"@ + version)
    }

    /// The directory of an app.
    pub open spec fn spec_installation_root(&self, name: Seq<char>) -> Seq<char> {
        spec_path_push(self.apps_dir@, name)
    }

    /// The place of the link to a binary.
    pub open spec fn spec_link_path(&self, bin_name: Seq<char>) -> Seq<char> {
        spec_path_push(self.exe_dir@, bin_name)
    }

    /// The text of the shell snippet that exports the directories.
    pub open spec fn spec_env_script(&self) -> Seq<char> {
        "export CYRENE_INSTALL_DIR="@ + self.exe_dir@ + "\nexport CYRENE_APPS_DIR="@
            + self.apps_dir@ + "\nexport CYRENE_PLUGINS_DIR="@ + self.plugins_dir@
    }

    /// The directories to work in. A variable of the environment goes before
    /// the user's configuration, and that before the directory that the system
    /// gives; links go beside the running executable unless told otherwise.
    pub fn resolve(sources: &DirSources, config: &CyreneConfig) -> (r: Self)
        ensures
            r.apps_dir@ == spec_pick(
                opt_view(sources.apps_dir_env),
                opt_view(config.apps_dir),
                spec_path_push(sources.data_dir@, "apps"@),
            ),
            r.plugins_dir@ == spec_pick(
                opt_view(sources.plugins_dir_env),
                opt_view(config.plugins_dir),
                spec_path_push(sources.data_dir@, "plugins"@),
            ),
            r.exe_dir@ == spec_pick(
                opt_view(sources.install_dir_env),
                opt_view(config.install_dir),
                sources.exe_parent@,
            ),
            r.config_dir@ == sources.config_dir@,
            r.cache_dir@ == spec_pick(None, opt_view(config.cache_dir), sources.cache_dir@),
            r.version_cache_path@ == spec_path_push(r.cache_dir@, "versions.yaml"@),
    {
        let apps_dir = pick(
            &sources.apps_dir_env,
            &config.apps_dir,
            path_push(sources.data_dir.as_str(), "apps"),
        );
        let plugins_dir = pick(
            &sources.plugins_dir_env,
            &config.plugins_dir,
            path_push(sources.data_dir.as_str(), "plugins"),
        );
        let exe_dir = pick(&sources.install_dir_env, &config.install_dir, sources.exe_parent.clone());
        let config_dir = sources.config_dir.clone();
        let cache_dir = pick(&None, &config.cache_dir, sources.cache_dir.clone());
        let version_cache_path = path_push(cache_dir.as_str(), "versions.yaml");
        CyreneDirs { apps_dir, plugins_dir, exe_dir, config_dir, cache_dir, version_cache_path }
    }

    /// The directories that have to be there before anything else is done, in
    /// the order in which they are made.
    pub fn init_dirs(&self) -> (r: Vec<String>)
        ensures
            r.deep_view() == seq![
                self.apps_dir@,
                self.plugins_dir@,
                self.config_dir@,
                self.cache_dir@,
            ],
    {
        let mut r: Vec<String> = Vec::new();
        r.push(self.apps_dir.clone());
        r.push(self.plugins_dir.clone());
        r.push(self.config_dir.clone());
        r.push(self.cache_dir.clone());
        assert(r.deep_view() =~= seq![
            self.apps_dir@,
            self.plugins_dir@,
            self.config_dir@,
            self.cache_dir@,
        ]);
        r
    }

    /// The directory of one version of an app.
    pub fn installation_path(&self, name: &str, version: &str) -> (r: String)
        ensures
            r@ == self.spec_installation_path(name@, version@),
    {
        let installation_dir = join3(name, "/", version);
        path_push(self.apps_dir.as_str(), installation_dir.as_str())
    }

    /// The directory of an app.
    pub fn installation_root(&self, name: &str) -> (r: String)
        ensures
            r@ == self.spec_installation_root(name@),
    {
        path_push(self.apps_dir.as_str(), name)
    }

    /// The place of the lockfile that is read first.
    pub fn lockfile_path(&self) -> (r: String)
        ensures
            r@ == spec_path_push(self.config_dir@, "cyrene.toml"@),
    {
        path_push(self.config_dir.as_str(), "cyrene.toml")
    }

    /// The place of the lockfile, which the user's configuration may set.
    pub fn configured_lockfile_path(&self, config: &CyreneConfig) -> (r: String)
        ensures
            r@ == spec_pick(
                None,
                opt_view(config.lockfile_path),
                spec_path_push(self.config_dir@, "cyrene.toml"@),
            ),
    {
        pick(&None, &config.lockfile_path, self.lockfile_path())
    }

    /// The place of the script of an app's plugin.
    pub fn plugin_script(&self, name: &str) -> (r: String)
        ensures
            r@ == spec_path_push(self.plugins_dir@, name@ + ".rn"@),
    {
        let mut file: String = name.to_owned();
        file.append(".rn");
        path_push(self.plugins_dir.as_str(), file.as_str())
    }

    /// The place of the link to a binary.
    pub fn link_path(&self, bin_name: &str) -> (r: String)
        ensures
            r@ == self.spec_link_path(bin_name@),
    {
        path_push(self.exe_dir.as_str(), bin_name)
    }

    /// The place of the shell snippet that exports the directories.
    pub fn env_file(&self) -> (r: String)
        ensures
            r@ == spec_path_push(self.config_dir@, "cyrene_env.sh"@),
    {
        path_push(self.config_dir.as_str(), "cyrene_env.sh")
    }

    /// The shell snippet that exports the directories.
    pub fn env_script(&self) -> (r: String)
        ensures
            r@ == self.spec_env_script(),
    {
        let mut s: String = "export CYRENE_INSTALL_DIR=".to_owned();
        s.append(self.exe_dir.as_str());
        s.append("\nexport CYRENE_APPS_DIR=");
        s.append(self.apps_dir.as_str());
        s.append("\nexport CYRENE_PLUGINS_DIR=");
        s.append(self.plugins_dir.as_str());
        s
    }
}

} // verus!
