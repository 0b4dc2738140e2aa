//! The manager: every operation on apps, worked out on the image of the disk.
use crate::app::{sort_versions, CyreneApp};
use crate::dirs::CyreneDirs;
use crate::errors::{result_view, same_result, CyreneError, ErrorView};
use crate::journal::{FsStep, StepView};
use crate::lockfile::{spec_lists, CyreneLockfile, CyreneLockfileManager};
use crate::resolver::{search_in_version, spec_search};
use crate::responses::CyreneAppItem;
use crate::strmap::StrMap;
use crate::text::{contains_text, copy_texts, path_push, same_text};
use crate::versions_cache::{spec_cached, CyreneVersionCacheManager};
use crate::world::{
    lemma_hits_grows, spec_binaries, spec_hits, spec_link_first, spec_unlink_first, spec_without, Binaries,
    CommandView, World,
};
use vstd::prelude::*;

verus! {

/// What a plugin has said of the binaries of one version of its app.
#[derive(Debug, PartialEq, Eq)]
pub struct PluginBinaries {
    pub app: String,
    pub version: String,
    pub binaries: Vec<(String, String)>,
}

impl DeepView for PluginBinaries {
    type V = (Seq<char>, Seq<char>, Binaries);

    open spec fn deep_view(&self) -> (Seq<char>, Seq<char>, Binaries) {
        (self.app@, self.version@, self.binaries.deep_view())
    }
}

/// One command as the manager carries it out.
#[derive(Debug, PartialEq, Eq)]
#[allow(inconsistent_fields)]
pub enum TransactionStep {
    Install { app: String, version: String },
    PostInstall { app: String, version: String },
    Remove { app: String, version: String },
    RemoveAll { app: String },
    LockfileUpdate { app: String, version: Option<String> },
    Link { app: String, version: String, overwrite: bool },
    Unlink { app: String },
}

impl DeepView for TransactionStep {
    type V = CommandView;

    open spec fn deep_view(&self) -> CommandView {
        match self {
            TransactionStep::Install { app, version } => CommandView::Install {
                app: app@,
                version: version@,
            },
            TransactionStep::PostInstall { app, version } => CommandView::PostInstall {
                app: app@,
                version: version@,
            },
            TransactionStep::Remove { app, version } => CommandView::Remove {
                app: app@,
                version: version@,
            },
            TransactionStep::RemoveAll { app } => CommandView::RemoveAll { app: app@ },
            TransactionStep::LockfileUpdate { app, version } => CommandView::LockfileUpdate {
                app: app@,
                version: version.deep_view(),
            },
            TransactionStep::Link { app, version, overwrite } => CommandView::Link {
                app: app@,
                version: version@,
                overwrite: *overwrite,
            },
            TransactionStep::Unlink { app } => CommandView::Unlink { app: app@ },
        }
    }
}

/// The manager: the directories, the lockfiles, the versions cache, the image
/// of what is installed and linked, what the plugins have said, and the
/// journal of the steps to take.
pub struct CyreneManager {
    dirs: CyreneDirs,
    lockfile: CyreneLockfileManager,
    version_cache: CyreneVersionCacheManager,
    installed: StrMap<Vec<String>>,
    links: StrMap<String>,
    catalog: Vec<PluginBinaries>,
    current_exe: String,
    journal: Vec<FsStep>,
}

impl View for CyreneManager {
    type V = World;

    closed spec fn view(&self) -> World {
        World {
            apps_dir: self.dirs.apps_dir@,
            exe_dir: self.dirs.exe_dir@,
            plugins_dir: self.dirs.plugins_dir@,
            config_dir: self.dirs.config_dir@,
            cache_dir: self.dirs.cache_dir@,
            version_cache_path: self.dirs.version_cache_path@,
            lock_path: self.lockfile.spec_lockfile_path(),
            cache_path: self.version_cache.spec_cache_path(),
            current_exe: self.current_exe@,
            catalog: self.catalog.deep_view(),
            installed: self.installed@,
            links: self.links@,
            lock: self.lockfile@,
            cache: self.version_cache@,
            journal: self.journal.deep_view(),
        }
    }
}

fn push_step(journal: &mut Vec<FsStep>, step: FsStep)
    ensures
        final(journal).deep_view() == old(journal).deep_view().push(step.deep_view()),
{
    let ghost before = journal.deep_view();
    let ghost sv = step.deep_view();
    journal.push(step);
    assert(journal.deep_view() =~= before.push(sv));
}

fn hits(pairs: &Vec<(String, String)>, place: &str) -> (r: bool)
    ensures
        r == spec_hits(pairs.deep_view(), place@, pairs.len() as int),
{
    let mut i: usize = 0;
    while i < pairs.len()
        invariant
            i <= pairs.len(),
            !spec_hits(pairs.deep_view(), place@, i as int),
        decreases pairs.len() - i,
    {
        assert(pairs.deep_view()[i as int] == (pairs[i as int].0@, pairs[i as int].1@));
        if same_text(pairs[i].0.as_str(), place) {
            proof {
                lemma_hits_grows(pairs.deep_view(), place@, i + 1, pairs.len() as int);
            }
            return true;
        }
        i += 1;
    }
    false
}

fn link_all(
    links: &mut StrMap<String>,
    journal: &mut Vec<FsStep>,
    pairs: &Vec<(String, String)>,
    overwrite: bool,
) -> (kept: bool)
    requires
        old(links).wf(),
    ensures
        final(links).wf(),
        (final(links)@, final(journal).deep_view(), kept) == spec_link_first(
            old(links)@,
            old(journal).deep_view(),
            pairs.deep_view(),
            overwrite,
            pairs.len() as int,
        ),
{
    let mut kept: bool = false;
    let mut i: usize = 0;
    while i < pairs.len()
        invariant
            i <= pairs.len(),
            links.wf(),
            (links@, journal.deep_view(), kept) == spec_link_first(
                old(links)@,
                old(journal).deep_view(),
                pairs.deep_view(),
                overwrite,
                i as int,
            ),
        decreases pairs.len() - i,
    {
        assert(pairs.deep_view()[i as int] == (pairs[i as int].0@, pairs[i as int].1@));
        let taken: bool = links.contains_key(pairs[i].0.as_str());
        if !taken {
            links.insert(pairs[i].0.clone(), pairs[i].1.clone());
            push_step(journal, FsStep::Symlink { target: pairs[i].1.clone(), link: pairs[i].0.clone() });
        } else if overwrite {
            links.insert(pairs[i].0.clone(), pairs[i].1.clone());
            push_step(journal, FsStep::RemoveFile { path: pairs[i].0.clone() });
            push_step(journal, FsStep::Symlink { target: pairs[i].1.clone(), link: pairs[i].0.clone() });
        } else {
            kept = true;
        }
        i += 1;
    }
    kept
}

fn unlink_all(links: &mut StrMap<String>, journal: &mut Vec<FsStep>, pairs: &Vec<(String, String)>)
    requires
        old(links).wf(),
    ensures
        final(links).wf(),
        (final(links)@, final(journal).deep_view()) == spec_unlink_first(
            old(links)@,
            old(journal).deep_view(),
            pairs.deep_view(),
            pairs.len() as int,
        ),
{
    let mut i: usize = 0;
    while i < pairs.len()
        invariant
            i <= pairs.len(),
            links.wf(),
            (links@, journal.deep_view()) == spec_unlink_first(
                old(links)@,
                old(journal).deep_view(),
                pairs.deep_view(),
                i as int,
            ),
        decreases pairs.len() - i,
    {
        assert(pairs.deep_view()[i as int] == (pairs[i as int].0@, pairs[i as int].1@));
        if links.remove(pairs[i].0.as_str()) {
            push_step(journal, FsStep::RemoveFile { path: pairs[i].0.clone() });
        }
        i += 1;
    }
}

/// A local lockfile as contracts see it: its place and its entries.
pub open spec fn spec_local(loaded: Option<(String, CyreneLockfile)>) -> Option<
    (Seq<char>, Map<Seq<char>, Seq<char>>),
> {
    match loaded {
        Some(l) => Some((l.0@, l.1.versions@)),
        None => None,
    }
}

/// A list without the entries that are `item`.
pub fn without(list: &Vec<String>, item: &str) -> (r: Vec<String>)
    ensures
        r.deep_view() == spec_without(list.deep_view(), item@),
{
    let mut out: Vec<String> = Vec::new();
    let mut i: usize = 0;
    assert(list.deep_view().take(0) =~= Seq::<Seq<char>>::empty());
    while i < list.len()
        invariant
            i <= list.len(),
            out.deep_view() == spec_without(list.deep_view().take(i as int), item@),
        decreases list.len() - i,
    {
        proof {
            let next = list.deep_view().take(i + 1);
            assert(next.drop_last() =~= list.deep_view().take(i as int));
            assert(next.last() == list[i as int]@);
        }
        if !same_text(list[i].as_str(), item) {
            let ghost before = out.deep_view();
            out.push(list[i].clone());
            assert(out.deep_view() =~= before.push(list[i as int]@));
        }
        i += 1;
    }
    assert(list.deep_view().take(list.len() as int) =~= list.deep_view());
    out
}

impl CyreneManager {
    /// The parts that are kept in order are in order.
    pub closed spec fn wf(&self) -> bool {
        &&& self.lockfile.wf()
        &&& self.version_cache.wf()
        &&& self.installed.wf()
        &&& self.links.wf()
    }

    /// A manager that knows of nothing installed or linked and of no plugin,
    /// with an empty journal.
    pub fn new(
        dirs: CyreneDirs,
        lockfile_manager: CyreneLockfileManager,
        cache_manager: CyreneVersionCacheManager,
    ) -> (r: Self)
        requires
            lockfile_manager.wf(),
            cache_manager.wf(),
        ensures
            r.wf(),
            r@ == (World {
                apps_dir: dirs.apps_dir@,
                exe_dir: dirs.exe_dir@,
                plugins_dir: dirs.plugins_dir@,
                config_dir: dirs.config_dir@,
                cache_dir: dirs.cache_dir@,
                version_cache_path: dirs.version_cache_path@,
                lock_path: lockfile_manager.spec_lockfile_path(),
                cache_path: cache_manager.spec_cache_path(),
                current_exe: Seq::empty(),
                catalog: Seq::empty(),
                installed: Map::empty(),
                links: Map::empty(),
                lock: lockfile_manager@,
                cache: cache_manager@,
                journal: Seq::empty(),
            }),
    {
        let r = CyreneManager {
            dirs,
            lockfile: lockfile_manager,
            version_cache: cache_manager,
            installed: StrMap::new(),
            links: StrMap::new(),
            catalog: Vec::new(),
            current_exe: String::new(),
            journal: Vec::new(),
        };
        assert(r.catalog.deep_view() =~= Seq::empty());
        assert(r.journal.deep_view() =~= Seq::empty());
        r
    }

    /// Says where the running executable lies.
    pub fn set_current_exe(&mut self, path: &str)
        requires
            old(self).wf(),
        ensures
            final(self).wf(),
            final(self)@ == (World { current_exe: path@, ..old(self)@ }),
    {
        self.current_exe = path.to_owned();
    }

    /// Says which versions of an app have a directory.
    pub fn observe_installed(&mut self, name: &str, versions: Vec<String>)
        requires
            old(self).wf(),
        ensures
            final(self).wf(),
            final(self)@ == (World {
                installed: old(self)@.installed.insert(name@, versions.deep_view()),
                ..old(self)@
            }),
    {
        self.installed.insert(name.to_owned(), versions);
    }

    /// Says that there is a link at `place`, and what it points to.
    pub fn observe_link(&mut self, place: &str, target: &str)
        requires
            old(self).wf(),
        ensures
            final(self).wf(),
            final(self)@ == (World {
                links: old(self)@.links.insert(place@, target@),
                ..old(self)@
            }),
    {
        self.links.insert(place.to_owned(), target.to_owned());
    }

    /// Says which binaries a plugin has named for a version. What was said
    /// first of a version stands.
    pub fn observe_binaries(&mut self, app: &str, version: &str, binaries: Vec<(String, String)>)
        requires
            old(self).wf(),
        ensures
            final(self).wf(),
            final(self)@ == (World {
                catalog: old(self)@.catalog.push((app@, version@, binaries.deep_view())),
                ..old(self)@
            }),
    {
        let ghost before = self.catalog.deep_view();
        let ghost bv = binaries.deep_view();
        self.catalog.push(PluginBinaries { app: app.to_owned(), version: version.to_owned(), binaries });
        assert(self.catalog.deep_view() =~= before.push((app@, version@, bv)));
    }

    /// Hands out the journal and starts a new one.
    pub fn take_journal(&mut self) -> (r: Vec<FsStep>)
        requires
            old(self).wf(),
        ensures
            final(self).wf(),
            r.deep_view() == old(self)@.journal,
            final(self)@ == (World { journal: Seq::empty(), ..old(self)@ }),
    {
        let mut out: Vec<FsStep> = Vec::new();
        assert(out.deep_view() =~= Seq::empty());
        std::mem::swap(&mut out, &mut self.journal);
        out
    }

    /// The directories.
    pub fn dirs(&self) -> (r: &CyreneDirs)
        ensures
            r.apps_dir@ == self@.apps_dir,
            r.exe_dir@ == self@.exe_dir,
            r.plugins_dir@ == self@.plugins_dir,
            r.config_dir@ == self@.config_dir,
            r.cache_dir@ == self@.cache_dir,
            r.version_cache_path@ == self@.version_cache_path,
    {
        &self.dirs
    }

    /// The lockfiles.
    pub fn lockfile(&self) -> (r: &CyreneLockfileManager)
        ensures
            r@ == self@.lock,
            self.wf() ==> r.wf(),
            r.spec_lockfile_path() == self@.lock_path,
    {
        &self.lockfile
    }

    /// The versions cache.
    pub fn version_cache(&self) -> (r: &CyreneVersionCacheManager)
        ensures
            r@ == self@.cache,
            self.wf() ==> r.wf(),
            r.spec_cache_path() == self@.cache_path,
    {
        &self.version_cache
    }

    /// What the link at `place` points to, if there is one.
    pub fn link_at(&self, place: &str) -> (r: Option<String>)
        requires
            self.wf(),
        ensures
            r.deep_view() == if self@.links.contains_key(place@) {
                Some(self@.links[place@])
            } else {
                None
            },
    {
        match self.links.get(place) {
            Some(target) => Some(target.clone()),
            None => None,
        }
    }

    /// The steps written down so far.
    pub fn journal(&self) -> (r: &Vec<FsStep>)
        ensures
            r.deep_view() == self@.journal,
    {
        &self.journal
    }

    /// The place of the script of an app's plugin.
    pub fn get_plugin_script(&self, name: &str) -> (r: String)
        ensures
            r@ == self@.plugin_script(name@),
    {
        self.dirs.plugin_script(name)
    }

    fn note(&mut self, step: FsStep)
        requires
            old(self).wf(),
        ensures
            final(self).wf(),
            final(self)@ == old(self)@.note(step.deep_view()),
    {
        push_step(&mut self.journal, step);
    }

    /// Writes the shell snippet that exports the directories: it goes into
    /// the configuration directory.
    pub fn generate_env(&mut self)
        requires
            old(self).wf(),
        ensures
            final(self).wf(),
            final(self)@ == old(self)@.generate_env(),
    {
        let path = self.dirs.env_file();
        let content = self.dirs.env_script();
        self.note(FsStep::WriteFile { path, content });
    }

    /// The cached versions of an app, newest first.
    pub fn versions(&self, name: &str) -> (r: Vec<String>)
        requires
            self.wf(),
        ensures
            r.deep_view() == spec_cached(self@.cache, name@),
    {
        self.version_cache.get_versions(name)
    }

    /// Whether the versions of an app have yet to be asked of its plugin.
    pub fn needs_versions(&self, name: &str) -> (r: bool)
        requires
            self.wf(),
        ensures
            r == (spec_cached(self@.cache, name@).len() == 0),
    {
        self.version_cache.get_versions(name).len() == 0
    }

    /// Takes what the script of an app's plugin reported as its versions:
    /// the host's list of them goes into the cache in place of what was
    /// there. It holds every reported text; along it the numbers of the
    /// versions never rise.
    pub fn update_versions(&mut self, name: &str, reported: &Vec<String>)
        requires
            old(self).wf(),
        ensures
            final(self).wf(),
            final(self)@ == old(self)@.update_versions(
                name@,
                crate::app::spec_normalize(reported.deep_view()),
            ),
            crate::version::core_descending(final(self)@.cache[name@]),
    {
        let versions = CyreneApp::normalize(reported);
        let copy = copy_texts(&versions);
        self.version_cache.update_version_cache(name, versions);
        let path = self.version_cache.cache_path().clone();
        self.note(FsStep::CacheSet { path, app: name.to_owned(), versions: copy });
    }

    /// Whether this version of the app has its directory.
    pub fn package_exists(&self, name: &str, version: &str) -> (r: bool)
        requires
            self.wf(),
        ensures
            r == self@.is_installed(name@, version@),
    {
        match self.installed.get(name) {
            Some(list) => contains_text(list, version),
            None => false,
        }
    }

    /// Whether the app has its directory.
    pub fn package_root_exists(&self, name: &str) -> (r: bool)
        requires
            self.wf(),
        ensures
            r == self@.installed.contains_key(name@),
    {
        self.installed.contains_key(name)
    }

    fn installed_versions(&self, name: &str) -> (r: Vec<String>)
        requires
            self.wf(),
        ensures
            r.deep_view() == self@.installed_versions(name@),
    {
        match self.installed.get(name) {
            Some(list) => copy_texts(list),
            None => {
                let r: Vec<String> = Vec::new();
                assert(r.deep_view() =~= Seq::<Seq<char>>::empty());
                r
            },
        }
    }

    /// The linked version of an app.
    pub fn find_installed_version(&self, name: &str) -> (r: Option<String>)
        requires
            self.wf(),
        ensures
            r.deep_view() == self@.lock.find(name@),
    {
        self.lockfile.find_installed_version_from_lockfile(name)
    }

    /// The highest installed version of an app that meets a requirement.
    pub fn find_installed_major_release(&self, name: &str, version: &str) -> (r: Option<String>)
        requires
            self.wf(),
        ensures
            r.deep_view() == self@.find_installed_major_release(name@, version@),
    {
        let list = self.installed_versions(name);
        let sorted = sort_versions(&list);
        search_in_version(&sorted, version)
    }

    /// Makes the directory of a version and lets the plugin install into
    /// it.
    pub fn install_version(&mut self, name: &str, version: &str)
        requires
            old(self).wf(),
        ensures
            final(self).wf(),
            final(self)@ == old(self)@.install_version(name@, version@),
    {
        let dir = self.dirs.installation_path(name, version);
        let mut versions = self.installed_versions(name);
        if !self.package_exists(name, version) {
            let ghost before = versions.deep_view();
            versions.push(version.to_owned());
            assert(versions.deep_view() =~= before.push(version@));
        }
        self.installed.insert(name.to_owned(), versions);
        self.note(FsStep::CreateDirAll { path: dir.clone() });
        self.note(FsStep::InstallApp { app: name.to_owned(), version: version.to_owned(), dir });
    }

    /// Lets the plugin finish the installation of a version.
    pub fn post_install_version(&mut self, name: &str, version: &str)
        requires
            old(self).wf(),
        ensures
            final(self).wf(),
            final(self)@ == old(self)@.post_install_version(name@, version@),
    {
        let dir = self.dirs.installation_path(name, version);
        self.note(FsStep::PostInstall { app: name.to_owned(), version: version.to_owned(), dir });
    }

    /// Installs a version: both scripts of the plugin, one after the other.
    pub fn install_specific_version(&mut self, name: &str, required_version: &str)
        requires
            old(self).wf(),
        ensures
            final(self).wf(),
            final(self)@ == old(self)@.install_specific_version(name@, required_version@),
    {
        self.install_version(name, required_version);
        self.post_install_version(name, required_version);
    }

    /// Writes or clears the linked version of an app in the lockfile that is
    /// written to.
    pub fn update_lockfile(&mut self, name: &str, version: Option<&str>)
        requires
            old(self).wf(),
        ensures
            final(self).wf(),
            final(self)@ == old(self)@.update_lockfile(
                name@,
                match version {
                    Some(v) => Some(v@),
                    None => None,
                },
            ),
    {
        let path = self.lockfile.active_path();
        self.lockfile.update_lockfile(name, version);
        let version_copy: Option<String> = match version {
            Some(v) => Some(v.to_owned()),
            None => None,
        };
        self.note(FsStep::LockfileSet { path, app: name.to_owned(), version: version_copy });
    }

    fn lookup_binaries(&self, name: &str, version: &str) -> (r: Option<usize>)
        ensures
            r is Some <==> self@.binaries(name@, version@) is Some,
            r matches Some(i) ==> i < self.catalog.len() && self@.binaries(name@, version@)
                == Some(self.catalog[i as int].binaries.deep_view()),
    {
        let mut i: usize = 0;
        while i < self.catalog.len()
            invariant
                i <= self.catalog.len(),
                spec_binaries(self.catalog.deep_view(), name@, version@, 0) == spec_binaries(
                    self.catalog.deep_view(),
                    name@,
                    version@,
                    i as int,
                ),
            decreases self.catalog.len() - i,
        {
            assert(self.catalog.deep_view()[i as int] == self.catalog[i as int].deep_view());
            if same_text(self.catalog[i].app.as_str(), name) && same_text(
                self.catalog[i].version.as_str(),
                version,
            ) {
                return Some(i);
            }
            i += 1;
        }
        None
    }

    fn link_pairs(&self, name: &str, version: &str, index: usize) -> (r: Vec<(String, String)>)
        requires
            index < self.catalog.len(),
        ensures
            r.deep_view() == self@.link_pairs(
                name@,
                version@,
                self.catalog[index as int].binaries.deep_view(),
            ),
    {
        let dir = self.dirs.installation_path(name, version);
        let bins = &self.catalog[index].binaries;
        let mut out: Vec<(String, String)> = Vec::new();
        let mut i: usize = 0;
        while i < bins.len()
            invariant
                i <= bins.len(),
                out.len() == i,
                dir@ == self@.install_path(name@, version@),
                forall|j: int|
                    0 <= j < i ==> (#[trigger] out[j]).0@ == crate::text::spec_path_push(
                        self@.exe_dir,
                        bins[j].0@,
                    ) && out[j].1@ == crate::text::spec_path_push(dir@, bins[j].1@),
            decreases bins.len() - i,
        {
            let link = self.dirs.link_path(bins[i].0.as_str());
            let target = path_push(dir.as_str(), bins[i].1.as_str());
            out.push((link, target));
            i += 1;
        }
        assert(out.deep_view() =~= self@.link_pairs(name@, version@, bins.deep_view()));
        out
    }

    /// Links the binaries of a version.
    ///
    /// Fails, and does nothing, where the version is not installed, where the
    /// plugin has not said which binaries it has, and where one of the links
    /// would lie where the running executable lies. Otherwise every binary
    /// whose place is free gets its link; a place that is taken is linked anew
    /// where `overwrite` is set and left alone otherwise. The answer says
    /// whether a link was left alone.
    pub fn link_binaries(&mut self, name: &str, version: &str, overwrite: bool) -> (r: Result<
        bool,
        CyreneError,
    >)
        requires
            old(self).wf(),
        ensures
            final(self).wf(),
            final(self)@ == old(self)@.link(name@, version@, overwrite).0,
            same_result(r, old(self)@.link(name@, version@, overwrite).1),
    {
        if !self.package_exists(name, version) {
            return Err(CyreneError::AppVersionNotInstalledError(version.to_owned(), name.to_owned()));
        }
        let index = match self.lookup_binaries(name, version) {
            Some(i) => i,
            None => {
                return Err(CyreneError::PluginBinariesError(version.to_owned(), name.to_owned()));
            },
        };
        let pairs = self.link_pairs(name, version, index);
        if hits(&pairs, self.current_exe.as_str()) {
            return Err(CyreneError::AppLinkingToItselfError);
        }
        let kept = link_all(&mut self.links, &mut self.journal, &pairs, overwrite);
        Ok(kept)
    }

    /// Removes the links of the binaries of the linked version of an app.
    ///
    /// Fails, and does nothing, where the app has no linked version, where
    /// that version is not installed, and where the plugin has not said which
    /// binaries it has.
    pub fn unlink_binaries(&mut self, name: &str) -> (r: Result<(), CyreneError>)
        requires
            old(self).wf(),
        ensures
            final(self).wf(),
            final(self)@ == old(self)@.unlink(name@).0,
            same_result(r, old(self)@.unlink(name@).1),
    {
        let version = match self.lockfile.find_installed_version_from_lockfile(name) {
            Some(v) => v,
            None => {
                return Err(CyreneError::AppNotInLockfileError(name.to_owned()));
            },
        };
        if !self.package_exists(name, version.as_str()) {
            return Err(CyreneError::AppVersionNotInstalledError(version, name.to_owned()));
        }
        let index = match self.lookup_binaries(name, version.as_str()) {
            Some(i) => i,
            None => {
                return Err(CyreneError::PluginBinariesError(version, name.to_owned()));
            },
        };
        let pairs = self.link_pairs(name, version.as_str(), index);
        unlink_all(&mut self.links, &mut self.journal, &pairs);
        Ok(())
    }

    fn drop_version(&mut self, name: &str, version: &str)
        requires
            old(self).wf(),
        ensures
            final(self).wf(),
            final(self)@ == old(self)@.drop_version(name@, version@),
    {
        let list = self.installed_versions(name);
        let rest = without(&list, version);
        let path = self.dirs.installation_path(name, version);
        self.installed.insert(name.to_owned(), rest);
        self.note(FsStep::RemoveDirAll { path });
    }

    fn relink_after_removal(&mut self, name: &str) -> (r: Result<(), CyreneError>)
        requires
            old(self).wf(),
        ensures
            final(self).wf(),
            final(self)@ == old(self)@.relink_after_removal(name@).0,
            same_result(r, old(self)@.relink_after_removal(name@).1),
    {
        proof {
            reveal_strlit("*");
        }
        match self.find_installed_major_release(name, "*") {
            Some(release) => {
                match self.link_binaries(name, release.as_str(), true) {
                    Err(e) => Err(e),
                    Ok(_) => {
                        self.update_lockfile(name, Some(release.as_str()));
                        Ok(())
                    },
                }
            },
            None => {
                let path = self.dirs.installation_root(name);
                self.installed.remove(name);
                self.note(FsStep::RemoveDir { path });
                self.update_lockfile(name, None);
                Ok(())
            },
        }
    }

    /// Uninstalls one version of an app.
    ///
    /// Fails, and does nothing, where the version is not installed or the app
    /// has no linked version. Where the version is the linked one, its links
    /// are removed first; once its directory is gone, the highest version
    /// that is left is linked and written to the lockfile, or, where none is
    /// left, the app's directory and its lockfile entry go. A failure on the
    /// way leaves what was done.
    pub fn uninstall(&mut self, name: &str, version: &str) -> (r: Result<(), CyreneError>)
        requires
            old(self).wf(),
        ensures
            final(self).wf(),
            final(self)@ == old(self)@.uninstall(name@, version@).0,
            same_result(r, old(self)@.uninstall(name@, version@).1),
    {
        if !self.package_exists(name, version) {
            return Err(CyreneError::AppVersionNotInstalledError(version.to_owned(), name.to_owned()));
        }
        let current_version = match self.lockfile.find_installed_version_from_lockfile(name) {
            Some(v) => v,
            None => {
                return Err(CyreneError::AppNotInLockfileError(name.to_owned()));
            },
        };
        let uninstalled_is_linked_version = same_text(current_version.as_str(), version);
        if !uninstalled_is_linked_version {
            self.drop_version(name, version);
            return Ok(());
        }
        match self.unlink_binaries(name) {
            Err(e) => Err(e),
            Ok(_) => {
                self.drop_version(name, version);
                self.relink_after_removal(name)
            },
        }
    }

    /// Uninstalls an app: the links of its linked version, its lockfile
    /// entry and its directory go. Fails, and does nothing, where the app has
    /// no directory or its links cannot be removed.
    pub fn uninstall_all(&mut self, name: &str) -> (r: Result<(), CyreneError>)
        requires
            old(self).wf(),
        ensures
            final(self).wf(),
            final(self)@ == old(self)@.uninstall_all(name@).0,
            same_result(r, old(self)@.uninstall_all(name@).1),
    {
        if !self.package_root_exists(name) {
            return Err(CyreneError::AppNotInstalledError(name.to_owned()));
        }
        let path = self.dirs.installation_root(name);
        match self.unlink_binaries(name) {
            Err(e) => Err(e),
            Ok(_) => {
                self.update_lockfile(name, None);
                self.installed.remove(name);
                self.note(FsStep::RemoveDirAll { path });
                Ok(())
            },
        }
    }

    /// Installs a version and links it, leaving alone the links that are
    /// there; the lockfile is written only where no link was left alone.
    pub fn install(&mut self, name: &str, version: &str) -> (r: Result<(), CyreneError>)
        requires
            old(self).wf(),
        ensures
            final(self).wf(),
            final(self)@ == old(self)@.install(name@, version@).0,
            same_result(r, old(self)@.install(name@, version@).1),
    {
        self.install_specific_version(name, version);
        match self.link_binaries(name, version, false) {
            Err(e) => Err(e),
            Ok(exists_not_overwritten) => {
                if !exists_not_overwritten {
                    self.update_lockfile(name, Some(version));
                }
                Ok(())
            },
        }
    }

    /// Upgrades an app from one version to another: the new one is installed
    /// and linked, over the old links where the old one is the linked
    /// version; the lockfile is written; the old one is uninstalled. Fails,
    /// and does nothing, where the app has no linked version.
    pub fn upgrade(&mut self, name: &str, old_version: &str, new_version: &str) -> (r: Result<
        (),
        CyreneError,
    >)
        requires
            old(self).wf(),
        ensures
            final(self).wf(),
            final(self)@ == old(self)@.upgrade(name@, old_version@, new_version@).0,
            same_result(r, old(self)@.upgrade(name@, old_version@, new_version@).1),
    {
        let current_installed = match self.find_installed_version(name) {
            Some(v) => v,
            None => {
                return Err(CyreneError::LockfileAppError(name.to_owned()));
            },
        };
        let overwrite_installed = same_text(current_installed.as_str(), old_version);
        self.install_specific_version(name, new_version);
        match self.link_binaries(name, new_version, overwrite_installed) {
            Err(e) => Err(e),
            Ok(_) => {
                self.update_lockfile(name, Some(new_version));
                self.uninstall(name, old_version)
            },
        }
    }

    /// The newest cached version of an app: the first of the list, which has
    /// the highest numbers where the numbers never rise along the list. Fails
    /// where the cache holds none.
    pub fn get_latest_version(&self, name: &str) -> (r: Result<String, CyreneError>)
        requires
            self.wf(),
        ensures
            r is Ok <==> spec_cached(self@.cache, name@).len() > 0,
            r matches Ok(v) ==> v@ == spec_cached(self@.cache, name@)[0],
            r matches Err(e) ==> e@ == ErrorView::AppVersionNotInCacheError(name@),
            r matches Ok(v) ==> (crate::version::core_descending(spec_cached(self@.cache, name@))
                ==> forall|j: int|
                0 <= j < spec_cached(self@.cache, name@).len() ==> !crate::version::spec_core_less(
                    crate::version::spec_core(v@),
                    crate::version::spec_core(#[trigger] spec_cached(self@.cache, name@)[j]),
                )),
    {
        let versions = self.versions(name);
        if versions.len() > 0 {
            assert(versions.deep_view()[0] == versions[0]@);
            Ok(versions[0].clone())
        } else {
            Err(CyreneError::AppVersionNotInCacheError(name.to_owned()))
        }
    }

    /// The highest cached version of an app that meets a requirement; a
    /// version stands for the requirement to be on its release line.
    pub fn get_latest_major_release(&self, name: &str, old_version: &str) -> (r: Option<String>)
        requires
            self.wf(),
        ensures
            r.deep_view() == spec_search(spec_cached(self@.cache, name@), old_version@),
            crate::version::core_descending(spec_cached(self@.cache, name@))
                ==> crate::resolver::spec_highest_numbers(
                spec_cached(self@.cache, name@),
                old_version@,
                r.deep_view(),
            ),
    {
        let versions = self.versions(name);
        search_in_version(&versions, old_version)
    }

    /// Whether the cache holds this version of the app.
    pub fn verify_version_exists(&self, name: &str, version: &str) -> (r: bool)
        requires
            self.wf(),
        ensures
            r == spec_cached(self@.cache, name@).contains(version@),
    {
        let versions = self.versions(name);
        contains_text(&versions, version)
    }

    /// The apps that have a directory, in the order of their names.
    pub fn list_apps(&self) -> (r: Vec<String>)
        requires
            self.wf(),
        ensures
            r.deep_view() == self.installed_keys(),
    {
        let mut out: Vec<String> = Vec::new();
        let mut i: usize = 0;
        while i < self.installed.len()
            invariant
                i <= self.installed.keys().len(),
                out.len() == i,
                forall|j: int| 0 <= j < i ==> (#[trigger] out[j])@ == self.installed.keys()[j],
            decreases self.installed.keys().len() - i,
        {
            out.push(self.installed.key_at(i).clone());
            i += 1;
        }
        assert(out.deep_view() =~= self.installed.keys());
        out
    }

    /// The names of the apps that have a directory, in ascending order.
    pub closed spec fn installed_keys(&self) -> Seq<Seq<char>> {
        self.installed.keys()
    }

    /// The installed versions of an app that are semantic versions, highest
    /// first.
    pub fn list_installed_app_versions(&self, name: &str) -> (r: Vec<CyreneAppItem>)
        requires
            self.wf(),
        ensures
            r.deep_view() == crate::app::spec_sort_versions(
                self@.installed_versions(name@),
            ).map_values(|v: Seq<char>| (name@, v)),
    {
        let list = self.installed_versions(name);
        let sorted = sort_versions(&list);
        let mut out: Vec<CyreneAppItem> = Vec::new();
        let mut i: usize = 0;
        while i < sorted.len()
            invariant
                i <= sorted.len(),
                out.len() == i,
                forall|j: int|
                    0 <= j < i ==> (#[trigger] out[j]).name@ == name@ && out[j].version@
                        == sorted[j]@,
            decreases sorted.len() - i,
        {
            out.push(CyreneAppItem { name: name.to_owned(), version: sorted[i].clone() });
            i += 1;
        }
        assert(out.deep_view() =~= sorted.deep_view().map_values(|v: Seq<char>| (name@, v)));
        out
    }

    /// The entries of the lockfile that is written to, in the order of the
    /// apps' names.
    pub fn list_linked_app_versions(&self) -> (r: Vec<CyreneAppItem>)
        requires
            self.wf(),
        ensures
            spec_lists(r.deep_view(), self@.lock.active()),
    {
        self.lockfile.load_versions_from_current_lockfile()
    }

    /// The entries of the lockfile that is written to.
    pub fn get_app_version_map(&self) -> (r: &StrMap<String>)
        requires
            self.wf(),
        ensures
            r.wf(),
            r@ == self@.lock.active(),
    {
        self.lockfile.load_version_map_from_current_lockfile()
    }

    fn first_unknown(&self, items: &Vec<CyreneAppItem>) -> (r: Option<usize>)
        requires
            self.wf(),
        ensures
            r is Some <==> self@.first_unknown(items.deep_view(), 0) is Some,
            r matches Some(i) ==> i < items.len() && self@.first_unknown(items.deep_view(), 0)
                == Some(items[i as int].deep_view()),
    {
        let mut i: usize = 0;
        while i < items.len()
            invariant
                self.wf(),
                i <= items.len(),
                self@.first_unknown(items.deep_view(), 0) == self@.first_unknown(
                    items.deep_view(),
                    i as int,
                ),
            decreases items.len() - i,
        {
            assert(items.deep_view()[i as int] == items[i as int].deep_view());
            if !self.verify_version_exists(items[i].name.as_str(), items[i].version.as_str()) {
                return Some(i);
            }
            i += 1;
        }
        None
    }

    /// Brings the listed versions to the disk: each is installed where it is
    /// not, and linked over what is there. Nothing is done, and the call
    /// fails, where the cache does not hold one of them; the first in the list
    /// is named. Later the first link that fails ends the work.
    pub fn restore(&mut self, items: &Vec<CyreneAppItem>) -> (r: Result<(), CyreneError>)
        requires
            old(self).wf(),
        ensures
            final(self).wf(),
            final(self)@ == old(self)@.restore(items.deep_view()).0,
            same_result(r, old(self)@.restore(items.deep_view()).1),
    {
        if let Some(i) = self.first_unknown(items) {
            return Err(
                CyreneError::LockfileAppVersionError(
                    items[i].version.clone(),
                    items[i].name.clone(),
                ),
            );
        }
        let mut i: usize = 0;
        while i < items.len()
            invariant
                self.wf(),
                i <= items.len(),
                old(self)@.first_unknown(items.deep_view(), 0) is None,
                self@ == old(self)@.restore_first(items.deep_view(), i as int).0,
                old(self)@.restore_first(items.deep_view(), i as int).1 is Ok,
            decreases items.len() - i,
        {
            assert(items.deep_view()[i as int] == items[i as int].deep_view());
            let name = items[i].name.as_str();
            let version = items[i].version.as_str();
            if !self.package_exists(name, version) {
                self.install_specific_version(name, version);
            }
            match self.link_binaries(name, version, true) {
                Err(e) => {
                    proof {
                        lemma_restore_stops(old(self)@, items.deep_view(), i + 1, items.len() as int);
                    }
                    return Err(e);
                },
                Ok(_) => {},
            }
            i += 1;
        }
        Ok(())
    }

    /// Points the default lockfile to a local one, or back to itself, and
    /// brings the versions that the lockfile then in force lists to the disk
    /// (see `restore`).
    pub fn load_lockfile(&mut self, loaded_lockfile: Option<(String, CyreneLockfile)>) -> (r: Result<
        (),
        CyreneError,
    >)
        requires
            old(self).wf(),
            loaded_lockfile matches Some(l) ==> l.1.versions.wf(),
        ensures
            final(self).wf(),
            exists|items: Seq<(Seq<char>, Seq<char>)>|
                (#[trigger] old(self)@.point_lockfile(spec_local(loaded_lockfile)).restored(
                    items,
                    final(self)@,
                    result_view(r),
                )),
    {
        let path = self.lockfile.lockfile_path().clone();
        match loaded_lockfile {
            Some((target, local)) => {
                self.lockfile.use_local_lockfile(target.as_str(), local);
                self.note(FsStep::LockfilePointer { path, target: Some(target) });
            },
            None => {
                self.lockfile.use_default_lockfile();
                self.note(FsStep::LockfilePointer { path, target: None });
            },
        }
        let lockfile_items = self.lockfile.load_versions_from_current_lockfile();
        let ghost pointed = self@;
        let r = self.restore(&lockfile_items);
        assert(pointed.restored(lockfile_items.deep_view(), self@, result_view(r)));
        r
    }

    /// Carries out one command.
    pub fn apply(&mut self, step: &TransactionStep) -> (r: Result<(), CyreneError>)
        requires
            old(self).wf(),
        ensures
            final(self).wf(),
            final(self)@ == old(self)@.apply(step.deep_view()).0,
            same_result(r, old(self)@.apply(step.deep_view()).1),
    {
        match step {
            TransactionStep::Install { app, version } => {
                self.install_version(app.as_str(), version.as_str());
                Ok(())
            },
            TransactionStep::PostInstall { app, version } => {
                self.post_install_version(app.as_str(), version.as_str());
                Ok(())
            },
            TransactionStep::Remove { app, version } => self.uninstall(
                app.as_str(),
                version.as_str(),
            ),
            TransactionStep::RemoveAll { app } => self.uninstall_all(app.as_str()),
            TransactionStep::LockfileUpdate { app, version } => {
                match version {
                    Some(v) => self.update_lockfile(app.as_str(), Some(v.as_str())),
                    None => self.update_lockfile(app.as_str(), None),
                }
                Ok(())
            },
            TransactionStep::Link { app, version, overwrite } => {
                match self.link_binaries(app.as_str(), version.as_str(), *overwrite) {
                    Err(e) => Err(e),
                    Ok(_) => Ok(()),
                }
            },
            TransactionStep::Unlink { app } => self.unlink_binaries(app.as_str()),
        }
    }
}

/// Once the work on a lockfile's versions has failed, it has failed for good:
/// the world and the error stay what they are.
pub proof fn lemma_restore_stops(w: World, items: Seq<(Seq<char>, Seq<char>)>, n: int, m: int)
    requires
        n <= m,
        w.restore_first(items, n).1 is Err,
    ensures
        w.restore_first(items, m) == w.restore_first(items, n),
    decreases m - n,
{
    if n < m {
        lemma_restore_stops(w, items, n, m - 1);
    }
}

} // verus!
