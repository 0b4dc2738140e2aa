//! What the library knows of the disk, and what each operation makes of it.
//!
//! The library never touches the disk. It works on an image of the parts that
//! matter (which versions are installed, which links exist, what the lockfiles
//! and the versions cache hold) and writes down, in a journal, the steps that
//! bring the disk to where the image is. An operation that fails leaves the
//! image and the journal as far as it got: nothing is rolled back.
use crate::app::spec_sort_versions;
use crate::errors::ErrorView;
use crate::journal::StepView;
use crate::lockfile::{spec_lists, LockState};
use crate::resolver::spec_search;
use crate::text::spec_path_push;
use crate::versions_cache::spec_cached;
use vstd::prelude::*;

verus! {

/// The binaries of one version: each name with the path, inside the version's
/// directory, of what it stands for.
pub type Binaries = Seq<(Seq<char>, Seq<char>)>;

/// What a plugin has said of one version of its app.
pub type CatalogView = Seq<(Seq<char>, Seq<char>, Binaries)>;

/// The image of the disk, the surroundings, and the journal.
pub struct World {
    /// The directory that holds the apps.
    pub apps_dir: Seq<char>,
    /// The directory that holds the links.
    pub exe_dir: Seq<char>,
    /// The directory that holds the plugins' scripts.
    pub plugins_dir: Seq<char>,
    /// The directory that holds the configuration.
    pub config_dir: Seq<char>,
    /// The directory that holds what is cached.
    pub cache_dir: Seq<char>,
    /// The place that the directories give for the versions cache.
    pub version_cache_path: Seq<char>,
    /// The place of the default lockfile.
    pub lock_path: Seq<char>,
    /// The place of the versions cache.
    pub cache_path: Seq<char>,
    /// The place of the running executable.
    pub current_exe: Seq<char>,
    /// What the plugins have said of the versions that are worked on.
    pub catalog: CatalogView,
    /// The installed versions of each app that has a directory.
    pub installed: Map<Seq<char>, Seq<Seq<char>>>,
    /// The links: where each lies, and what it points to.
    pub links: Map<Seq<char>, Seq<char>>,
    /// The lockfiles.
    pub lock: LockState,
    /// The versions cache.
    pub cache: Map<Seq<char>, Seq<Seq<char>>>,
    /// The steps decided on so far.
    pub journal: Seq<StepView>,
}

/// A list without the entries that are `item`.
pub open spec fn spec_without(list: Seq<Seq<char>>, item: Seq<char>) -> Seq<Seq<char>>
    decreases list.len(),
{
    if list.len() == 0 {
        Seq::empty()
    } else if list.last() == item {
        spec_without(list.drop_last(), item)
    } else {
        spec_without(list.drop_last(), item).push(list.last())
    }
}

/// The binaries of the first entry, from `from` on, that speaks of this
/// version of this app.
pub open spec fn spec_binaries(catalog: CatalogView, app: Seq<char>, version: Seq<char>, from: int) -> Option<
    Binaries,
>
    decreases catalog.len() - from,
{
    if from >= catalog.len() {
        None
    } else if catalog[from].0 == app && catalog[from].1 == version {
        Some(catalog[from].2)
    } else {
        spec_binaries(catalog, app, version, from + 1)
    }
}

/// Whether one of the first `n` pairs has its link at `place`.
pub open spec fn spec_hits(pairs: Seq<(Seq<char>, Seq<char>)>, place: Seq<char>, n: int) -> bool
    decreases n,
{
    if n <= 0 {
        false
    } else {
        pairs[n - 1].0 == place || spec_hits(pairs, place, n - 1)
    }
}

/// A place that one of the first `n` pairs has is had by one of the first `m`
/// too, where `m` is not less than `n`.
pub proof fn lemma_hits_grows(pairs: Seq<(Seq<char>, Seq<char>)>, place: Seq<char>, n: int, m: int)
    requires
        n <= m,
        spec_hits(pairs, place, n),
    ensures
        spec_hits(pairs, place, m),
    decreases m - n,
{
    if n < m {
        lemma_hits_grows(pairs, place, n, m - 1);
    }
}

/// What linking the first `n` pairs (the place of a link, and what it points
/// to) makes of the links and the journal, and whether a link that was there
/// was left as it was. A free place gets its link. A taken place is linked
/// anew where `overwrite` is set, the old link being removed first, and is
/// left alone otherwise.
pub open spec fn spec_link_first(
    links: Map<Seq<char>, Seq<char>>,
    journal: Seq<StepView>,
    pairs: Seq<(Seq<char>, Seq<char>)>,
    overwrite: bool,
    n: int,
) -> (Map<Seq<char>, Seq<char>>, Seq<StepView>, bool)
    decreases n,
{
    if n <= 0 {
        (links, journal, false)
    } else {
        let (l, j, kept) = spec_link_first(links, journal, pairs, overwrite, n - 1);
        let (link, target) = pairs[n - 1];
        if !l.contains_key(link) {
            (l.insert(link, target), j.push(StepView::Symlink { target, link }), kept)
        } else if overwrite {
            (
                l.insert(link, target),
                j.push(StepView::RemoveFile { path: link }).push(
                    StepView::Symlink { target, link },
                ),
                kept,
            )
        } else {
            (l, j, true)
        }
    }
}

/// What removing the links at the first `n` places makes of the links and the
/// journal. A place without a link is passed over.
pub open spec fn spec_unlink_first(
    links: Map<Seq<char>, Seq<char>>,
    journal: Seq<StepView>,
    pairs: Seq<(Seq<char>, Seq<char>)>,
    n: int,
) -> (Map<Seq<char>, Seq<char>>, Seq<StepView>)
    decreases n,
{
    if n <= 0 {
        (links, journal)
    } else {
        let (l, j) = spec_unlink_first(links, journal, pairs, n - 1);
        let link = pairs[n - 1].0;
        if l.contains_key(link) {
            (l.remove(link), j.push(StepView::RemoveFile { path: link }))
        } else {
            (l, j)
        }
    }
}

/// One command of a transaction, as contracts see it.
#[allow(inconsistent_fields)]
pub enum CommandView {
    Install { app: Seq<char>, version: Seq<char> },
    PostInstall { app: Seq<char>, version: Seq<char> },
    Remove { app: Seq<char>, version: Seq<char> },
    RemoveAll { app: Seq<char> },
    LockfileUpdate { app: Seq<char>, version: Option<Seq<char>> },
    Link { app: Seq<char>, version: Seq<char>, overwrite: bool },
    Unlink { app: Seq<char> },
}

impl World {
    /// The directory of one version of an app.
    pub open spec fn install_path(self, app: Seq<char>, version: Seq<char>) -> Seq<char> {
        spec_path_push(self.apps_dir, app + "/"@ + version)
    }

    /// The directory of an app.
    pub open spec fn install_root(self, app: Seq<char>) -> Seq<char> {
        spec_path_push(self.apps_dir, app)
    }

    /// The place of the script of an app's plugin.
    pub open spec fn plugin_script(self, app: Seq<char>) -> Seq<char> {
        spec_path_push(self.plugins_dir, app + ".rn"@)
    }

    /// The place of the shell snippet that exports the directories.
    pub open spec fn env_file(self) -> Seq<char> {
        spec_path_push(self.config_dir, "cyrene_env.sh"@)
    }

    /// The text of the shell snippet that exports the directories.
    pub open spec fn env_script(self) -> Seq<char> {
        "export CYRENE_INSTALL_DIR="@ + self.exe_dir + "\nexport CYRENE_APPS_DIR="@ + self.apps_dir
            + "\nexport CYRENE_PLUGINS_DIR="@ + self.plugins_dir
    }

    /// Writes the shell snippet that exports the directories.
    pub open spec fn generate_env(self) -> World {
        self.note(StepView::WriteFile { path: self.env_file(), content: self.env_script() })
    }

    /// The place of the lockfile that is written to.
    pub open spec fn active_lock_path(self) -> Seq<char> {
        match self.lock.pointer {
            Some(p) => p,
            None => self.lock_path,
        }
    }

    /// Whether this version of the app has its directory.
    pub open spec fn is_installed(self, app: Seq<char>, version: Seq<char>) -> bool {
        self.installed.contains_key(app) && self.installed[app].contains(version)
    }

    /// The installed versions of an app.
    pub open spec fn installed_versions(self, app: Seq<char>) -> Seq<Seq<char>> {
        if self.installed.contains_key(app) {
            self.installed[app]
        } else {
            Seq::empty()
        }
    }

    /// What the plugin has said of the binaries of a version.
    pub open spec fn binaries(self, app: Seq<char>, version: Seq<char>) -> Option<Binaries> {
        spec_binaries(self.catalog, app, version, 0)
    }

    /// For each binary the place of its link and what the link points to.
    pub open spec fn link_pairs(self, app: Seq<char>, version: Seq<char>, bins: Binaries) -> Seq<
        (Seq<char>, Seq<char>),
    > {
        bins.map_values(
            |b: (Seq<char>, Seq<char>)|
                (
                    spec_path_push(self.exe_dir, b.0),
                    spec_path_push(self.install_path(app, version), b.1),
                ),
        )
    }

    /// The highest installed version of an app that meets a requirement.
    pub open spec fn find_installed_major_release(self, app: Seq<char>, range: Seq<char>) -> Option<
        Seq<char>,
    > {
        spec_search(spec_sort_versions(self.installed_versions(app)), range)
    }

    /// The world with one more step in the journal.
    pub open spec fn note(self, step: StepView) -> World {
        World { journal: self.journal.push(step), ..self }
    }

    /// Puts a list of versions, as the host has made it of a plugin's report,
    /// in place of what the cache held for the app.
    pub open spec fn update_versions(self, app: Seq<char>, versions: Seq<Seq<char>>) -> World {
        World { cache: self.cache.insert(app, versions), ..self }.note(
            StepView::CacheSet { path: self.cache_path, app, versions },
        )
    }

    /// Makes the directory of a version and lets the plugin install into it.
    pub open spec fn install_version(self, app: Seq<char>, version: Seq<char>) -> World {
        let dir = self.install_path(app, version);
        let versions = if self.is_installed(app, version) {
            self.installed[app]
        } else {
            self.installed_versions(app).push(version)
        };
        World { installed: self.installed.insert(app, versions), ..self }.note(
            StepView::CreateDirAll { path: dir },
        ).note(StepView::InstallApp { app, version, dir })
    }

    /// Lets the plugin finish the installation of a version.
    pub open spec fn post_install_version(self, app: Seq<char>, version: Seq<char>) -> World {
        self.note(
            StepView::PostInstall { app, version, dir: self.install_path(app, version) },
        )
    }

    /// Installs a version: both scripts of the plugin, one after the other.
    pub open spec fn install_specific_version(self, app: Seq<char>, version: Seq<char>) -> World {
        self.install_version(app, version).post_install_version(app, version)
    }

    /// Writes or clears the linked version of an app in the lockfile that is
    /// written to.
    pub open spec fn update_lockfile(self, app: Seq<char>, version: Option<Seq<char>>) -> World {
        World { lock: self.lock.update(app, version), ..self }.note(
            StepView::LockfileSet { path: self.active_lock_path(), app, version },
        )
    }

    /// Links the binaries of a version. Nothing is done, and the call fails,
    /// where the version is not installed, where the plugin has not said which
    /// binaries it has, and where one of the links would lie where the running
    /// executable lies. Otherwise the answer says whether a link that was
    /// there was left as it was.
    pub open spec fn link(self, app: Seq<char>, version: Seq<char>, overwrite: bool) -> (
        World,
        Result<bool, ErrorView>,
    ) {
        if !self.is_installed(app, version) {
            (self, Err(ErrorView::AppVersionNotInstalledError(version, app)))
        } else {
            match self.binaries(app, version) {
                None => (self, Err(ErrorView::PluginBinariesError(version, app))),
                Some(bins) => {
                    let pairs = self.link_pairs(app, version, bins);
                    if spec_hits(pairs, self.current_exe, pairs.len() as int) {
                        (self, Err(ErrorView::AppLinkingToItselfError))
                    } else {
                        let (links, journal, kept) = spec_link_first(
                            self.links,
                            self.journal,
                            pairs,
                            overwrite,
                            pairs.len() as int,
                        );
                        (World { links, journal, ..self }, Ok(kept))
                    }
                },
            }
        }
    }

    /// Removes the links of the binaries of the linked version of an app.
    /// Nothing is done, and the call fails, where the app has no linked
    /// version, where that version is not installed, and where the plugin has
    /// not said which binaries it has.
    pub open spec fn unlink(self, app: Seq<char>) -> (World, Result<(), ErrorView>) {
        match self.lock.find(app) {
            None => (self, Err(ErrorView::AppNotInLockfileError(app))),
            Some(version) => {
                if !self.is_installed(app, version) {
                    (self, Err(ErrorView::AppVersionNotInstalledError(version, app)))
                } else {
                    match self.binaries(app, version) {
                        None => (self, Err(ErrorView::PluginBinariesError(version, app))),
                        Some(bins) => {
                            let pairs = self.link_pairs(app, version, bins);
                            let (links, journal) = spec_unlink_first(
                                self.links,
                                self.journal,
                                pairs,
                                pairs.len() as int,
                            );
                            (World { links, journal, ..self }, Ok(()))
                        },
                    }
                }
            },
        }
    }

    /// Takes the directory of a version away.
    pub open spec fn drop_version(self, app: Seq<char>, version: Seq<char>) -> World {
        World {
            installed: self.installed.insert(
                app,
                spec_without(self.installed_versions(app), version),
            ),
            ..self
        }.note(StepView::RemoveDirAll { path: self.install_path(app, version) })
    }

    /// Takes the directory of an app away, with `step`.
    pub open spec fn drop_app(self, app: Seq<char>, step: StepView) -> World {
        World { installed: self.installed.remove(app), ..self }.note(step)
    }

    /// What follows the removal of the version that was linked: the highest
    /// version that is left is linked in its place; where none is left, the
    /// app's directory and its lockfile entry go.
    pub open spec fn relink_after_removal(self, app: Seq<char>) -> (
        World,
        Result<(), ErrorView>,
    ) {
        match self.find_installed_major_release(app, "*"@) {
            Some(release) => {
                let (w, r) = self.link(app, release, true);
                match r {
                    Err(e) => (w, Err(e)),
                    Ok(_) => (w.update_lockfile(app, Some(release)), Ok(())),
                }
            },
            None => (
                self.drop_app(
                    app,
                    StepView::RemoveDir { path: self.install_root(app) },
                ).update_lockfile(app, None),
                Ok(()),
            ),
        }
    }

    /// Uninstalls one version of an app. Fails where it is not installed or
    /// the app has no linked version. Where the version is the linked one, its
    /// links go first, and what follows its removal is
    /// `relink_after_removal`.
    pub open spec fn uninstall(self, app: Seq<char>, version: Seq<char>) -> (
        World,
        Result<(), ErrorView>,
    ) {
        if !self.is_installed(app, version) {
            (self, Err(ErrorView::AppVersionNotInstalledError(version, app)))
        } else {
            match self.lock.find(app) {
                None => (self, Err(ErrorView::AppNotInLockfileError(app))),
                Some(current) => {
                    if current != version {
                        (self.drop_version(app, version), Ok(()))
                    } else {
                        let (w, r) = self.unlink(app);
                        match r {
                            Err(e) => (w, Err(e)),
                            Ok(_) => w.drop_version(app, version).relink_after_removal(app),
                        }
                    }
                },
            }
        }
    }

    /// Uninstalls an app: the links of its linked version, its lockfile entry
    /// and its directory go. Fails where the app has no directory, or where
    /// its links cannot be removed.
    pub open spec fn uninstall_all(self, app: Seq<char>) -> (World, Result<(), ErrorView>) {
        if !self.installed.contains_key(app) {
            (self, Err(ErrorView::AppNotInstalledError(app)))
        } else {
            let (w, r) = self.unlink(app);
            match r {
                Err(e) => (w, Err(e)),
                Ok(_) => (
                    w.update_lockfile(app, None).drop_app(
                        app,
                        StepView::RemoveDirAll { path: self.install_root(app) },
                    ),
                    Ok(()),
                ),
            }
        }
    }

    /// Installs a version and links it, leaving alone the links that are
    /// there. The lockfile is written only where every link is the new
    /// version's.
    pub open spec fn install(self, app: Seq<char>, version: Seq<char>) -> (
        World,
        Result<(), ErrorView>,
    ) {
        let (w, r) = self.install_specific_version(app, version).link(app, version, false);
        match r {
            Err(e) => (w, Err(e)),
            Ok(kept) => if kept {
                (w, Ok(()))
            } else {
                (w.update_lockfile(app, Some(version)), Ok(()))
            },
        }
    }

    /// Upgrades an app from one version to another: the new one is installed
    /// and linked (over the old links where the old one is the linked
    /// version), the lockfile is written, and the old one is uninstalled.
    pub open spec fn upgrade(self, app: Seq<char>, old_version: Seq<char>, new_version: Seq<char>) -> (
        World,
        Result<(), ErrorView>,
    ) {
        match self.lock.find(app) {
            None => (self, Err(ErrorView::LockfileAppError(app))),
            Some(current) => {
                let (w, r) = self.install_specific_version(app, new_version).link(
                    app,
                    new_version,
                    current == old_version,
                );
                match r {
                    Err(e) => (w, Err(e)),
                    Ok(_) => w.update_lockfile(app, Some(new_version)).uninstall(app, old_version),
                }
            },
        }
    }

    /// The first of the items, from `from` on, whose version the cache does
    /// not hold for its app.
    pub open spec fn first_unknown(self, items: Seq<(Seq<char>, Seq<char>)>, from: int) -> Option<
        (Seq<char>, Seq<char>),
    >
        decreases items.len() - from,
    {
        if from >= items.len() {
            None
        } else if !spec_cached(self.cache, items[from].0).contains(items[from].1) {
            Some(items[from])
        } else {
            self.first_unknown(items, from + 1)
        }
    }

    /// Brings the first `n` versions of a lockfile to the disk: each is
    /// installed where it is not, and linked over what is there. Stops at the
    /// first that fails.
    pub open spec fn restore_first(self, items: Seq<(Seq<char>, Seq<char>)>, n: int) -> (
        World,
        Result<(), ErrorView>,
    )
        decreases n,
    {
        if n <= 0 {
            (self, Ok(()))
        } else {
            let (w, r) = self.restore_first(items, n - 1);
            match r {
                Err(e) => (w, Err(e)),
                Ok(_) => {
                    let (app, version) = items[n - 1];
                    let w1 = if w.is_installed(app, version) {
                        w
                    } else {
                        w.install_specific_version(app, version)
                    };
                    let (w2, r2) = w1.link(app, version, true);
                    match r2 {
                        Err(e) => (w2, Err(e)),
                        Ok(_) => (w2, Ok(())),
                    }
                },
            }
        }
    }

    /// Sets or clears the pointer to a local lockfile.
    pub open spec fn point_lockfile(self, local: Option<(Seq<char>, Map<Seq<char>, Seq<char>>)>) -> World {
        match local {
            Some((path, entries)) => World {
                lock: self.lock.use_local(path, entries),
                ..self
            }.note(StepView::LockfilePointer { path: self.lock_path, target: Some(path) }),
            None => World { lock: self.lock.use_default(), ..self }.note(
                StepView::LockfilePointer { path: self.lock_path, target: None },
            ),
        }
    }

    /// Brings the versions that a lockfile lists to the disk. Nothing is
    /// installed or linked where the cache does not hold one of them.
    pub open spec fn restore(self, items: Seq<(Seq<char>, Seq<char>)>) -> (
        World,
        Result<(), ErrorView>,
    ) {
        match self.first_unknown(items, 0) {
            Some((app, version)) => (self, Err(ErrorView::LockfileAppVersionError(version, app))),
            None => self.restore_first(items, items.len() as int),
        }
    }

    /// Whether `after` and `result` are what bringing the versions of the
    /// lockfile in force to the disk gives, `items` being the list of its
    /// entries.
    pub open spec fn restored(
        self,
        items: Seq<(Seq<char>, Seq<char>)>,
        after: World,
        result: Result<(), ErrorView>,
    ) -> bool {
        &&& spec_lists(items, self.lock.active())
        &&& after == self.restore(items).0
        &&& result == self.restore(items).1
    }

    /// What one command of a transaction does.
    pub open spec fn apply(self, command: CommandView) -> (World, Result<(), ErrorView>) {
        match command {
            CommandView::Install { app, version } => (self.install_version(app, version), Ok(())),
            CommandView::PostInstall { app, version } => (
                self.post_install_version(app, version),
                Ok(()),
            ),
            CommandView::Remove { app, version } => self.uninstall(app, version),
            CommandView::RemoveAll { app } => self.uninstall_all(app),
            CommandView::LockfileUpdate { app, version } => (
                self.update_lockfile(app, version),
                Ok(()),
            ),
            CommandView::Link { app, version, overwrite } => {
                let (w, r) = self.link(app, version, overwrite);
                match r {
                    Err(e) => (w, Err(e)),
                    Ok(_) => (w, Ok(())),
                }
            },
            CommandView::Unlink { app } => self.unlink(app),
        }
    }

    /// What the first `n` commands of a list do, one after the other. The
    /// first that fails ends the run: what was done stays done, and nothing
    /// that follows is begun.
    pub open spec fn run_first(self, commands: Seq<CommandView>, n: int) -> (
        World,
        Result<(), ErrorView>,
    )
        decreases n,
    {
        if n <= 0 {
            (self, Ok(()))
        } else {
            let (w, r) = self.run_first(commands, n - 1);
            match r {
                Err(e) => (w, Err(e)),
                Ok(_) => w.apply(commands[n - 1]),
            }
        }
    }

    /// What a list of commands does.
    pub open spec fn run(self, commands: Seq<CommandView>) -> (World, Result<(), ErrorView>) {
        self.run_first(commands, commands.len() as int)
    }
}

} // verus!
