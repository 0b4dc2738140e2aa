//! What the commands of the tool decide before anything is done: which
//! version each request means, and what is to be done about it.
use crate::errors::{same_result, CyreneError, ErrorView};
use crate::manager::CyreneManager;
use crate::resolver::{resolve, spec_requirement, spec_resolve, spec_search, VersionRequirement};
use crate::text::{find_char, same_text, spec_find};
use crate::transaction::TransactionCommands;
use crate::util::{is_major_version_equal, parsed};
use crate::version::{semver_parse, spec_major_compatible, SemVer};
use crate::versions_cache::spec_cached;
use crate::world::{CommandView, World};
use vstd::prelude::*;
use vstd::string::*;

verus! {

/// A request as it is typed: an app, and what is asked of its version.
#[derive(Debug, PartialEq, Eq)]
pub struct AppVersion {
    pub name: String,
    pub version: Option<String>,
}

/// An app and the version that is to be installed.
#[derive(Debug, PartialEq, Eq)]
pub struct AppVersionAction {
    pub name: String,
    pub version: String,
}

/// An app, the version that it has, and the one that it is to get.
#[derive(Debug, PartialEq, Eq)]
pub struct AppVersionUpgradeAction {
    pub name: String,
    pub old_version: String,
    pub new_version: String,
}

impl DeepView for AppVersion {
    type V = (Seq<char>, Option<Seq<char>>);

    open spec fn deep_view(&self) -> (Seq<char>, Option<Seq<char>>) {
        (self.name@, self.version.deep_view())
    }
}

impl DeepView for AppVersionAction {
    type V = (Seq<char>, Seq<char>);

    open spec fn deep_view(&self) -> (Seq<char>, Seq<char>) {
        (self.name@, self.version@)
    }
}

impl DeepView for AppVersionUpgradeAction {
    type V = (Seq<char>, Seq<char>, Seq<char>);

    open spec fn deep_view(&self) -> (Seq<char>, Seq<char>, Seq<char>) {
        (self.name@, self.old_version@, self.new_version@)
    }
}

/// How `app@version` is read: the app is what stands before the first `@`;
/// what is asked of the version stands between the first `@` and the second,
/// or the end; without an `@` nothing is asked.
pub open spec fn spec_request(value: Seq<char>) -> (Seq<char>, Option<Seq<char>>) {
    let at = spec_find(value, '@', 0);
    if at >= value.len() {
        (value, None)
    } else {
        (value.subrange(0, at), Some(value.subrange(at + 1, spec_find(value, '@', at + 1))))
    }
}

impl AppVersion {
    /// Reads a request of the form `app` or `app@version`.
    pub fn parse(value: &str) -> (r: Self)
        ensures
            r.deep_view() == spec_request(value@),
    {
        let n: usize = value.unicode_len();
        let at = find_char(value, '@', 0);
        if at >= n {
            AppVersion { name: value.to_owned(), version: None }
        } else {
            let end = find_char(value, '@', at + 1);
            AppVersion {
                name: value.substring_char(0, at).to_owned(),
                version: Some(value.substring_char(at + 1, end).to_owned()),
            }
        }
    }
}

impl From<&String> for AppVersion {
    fn from(value: &String) -> (r: Self) {
        AppVersion::parse(value.as_str())
    }
}

impl vstd::std_specs::convert::FromSpecImpl<&String> for AppVersion {
    open spec fn obeys_from_spec() -> bool {
        false
    }

    open spec fn from_spec(v: &String) -> Self {
        arbitrary()
    }
}

/// The version that a request to install means.
pub open spec fn spec_install_target(w: World, request: (Seq<char>, Option<Seq<char>>)) -> Result<
    Seq<char>,
    ErrorView,
> {
    spec_resolve(request.0, spec_requirement(request.1), spec_cached(w.cache, request.0))
}

/// What the first `n` requests to install come to: the versions to install,
/// and those that are installed already; or the error of the first request
/// that cannot be resolved.
pub open spec fn spec_install_plan(
    w: World,
    requests: Seq<(Seq<char>, Option<Seq<char>>)>,
    n: int,
) -> Result<(Seq<(Seq<char>, Seq<char>)>, Seq<(Seq<char>, Seq<char>)>), ErrorView>
    decreases n,
{
    if n <= 0 {
        Ok((Seq::empty(), Seq::empty()))
    } else {
        match spec_install_plan(w, requests, n - 1) {
            Err(e) => Err(e),
            Ok((todo, present)) => match spec_install_target(w, requests[n - 1]) {
                Err(e) => Err(e),
                Ok(version) => if w.is_installed(requests[n - 1].0, version) {
                    Ok((todo, present.push((requests[n - 1].0, version))))
                } else {
                    Ok((todo.push((requests[n - 1].0, version)), present))
                },
            },
        }
    }
}

pub proof fn lemma_install_plan_stops(
    w: World,
    requests: Seq<(Seq<char>, Option<Seq<char>>)>,
    n: int,
    m: int,
)
    requires
        n <= m,
        spec_install_plan(w, requests, n) is Err,
    ensures
        spec_install_plan(w, requests, m) == spec_install_plan(w, requests, n),
    decreases m - n,
{
    if n < m {
        lemma_install_plan_stops(w, requests, n, m - 1);
    }
}

/// What requests to install come to.
pub struct InstallPlan {
    /// The versions to install, in the order of the requests.
    pub actions: Vec<AppVersionAction>,
    /// The versions asked for that are installed already.
    pub present: Vec<AppVersionAction>,
}

fn option_str(o: &Option<String>) -> (r: Option<&str>)
    ensures
        match r {
            Some(s) => Some(s@),
            None => None,
        } == o.deep_view(),
{
    match o {
        Some(s) => Some(s.as_str()),
        None => None,
    }
}

/// Resolves requests to install against the versions cache: an exact version
/// is taken as it is, a constraint gives the highest cached version that
/// meets it, no version the newest. What is installed already is set aside.
/// Fails with the error of the first request that cannot be resolved.
pub fn plan_install(manager: &CyreneManager, requests: &Vec<AppVersion>) -> (r: Result<
    InstallPlan,
    CyreneError,
>)
    requires
        manager.wf(),
    ensures
        r is Ok <==> spec_install_plan(manager@, requests.deep_view(), requests.len() as int)
            is Ok,
        r matches Ok(plan) ==> Ok::<_, ErrorView>(
            (plan.actions.deep_view(), plan.present.deep_view()),
        ) == spec_install_plan(manager@, requests.deep_view(), requests.len() as int),
        r matches Err(e) ==> Err::<
            (Seq<(Seq<char>, Seq<char>)>, Seq<(Seq<char>, Seq<char>)>),
            ErrorView,
        >(e@) == spec_install_plan(manager@, requests.deep_view(), requests.len() as int),
{
    let mut actions: Vec<AppVersionAction> = Vec::new();
    let mut present: Vec<AppVersionAction> = Vec::new();
    let mut i: usize = 0;
    assert(actions.deep_view() =~= Seq::empty());
    assert(present.deep_view() =~= Seq::empty());
    while i < requests.len()
        invariant
            manager.wf(),
            i <= requests.len(),
            spec_install_plan(manager@, requests.deep_view(), i as int) == Ok::<_, ErrorView>(
                (actions.deep_view(), present.deep_view()),
            ),
        decreases requests.len() - i,
    {
        assert(requests.deep_view()[i as int] == requests[i as int].deep_view());
        let name = requests[i].name.as_str();
        let requirement = VersionRequirement::parse(option_str(&requests[i].version));
        let cached = manager.versions(name);
        match resolve(name, &requirement, &cached) {
            Err(e) => {
                proof {
                    lemma_install_plan_stops(
                        manager@,
                        requests.deep_view(),
                        i + 1,
                        requests.len() as int,
                    );
                }
                return Err(e);
            },
            Ok(version) => {
                let ghost todo = actions.deep_view();
                let ghost there = present.deep_view();
                let ghost item = (name@, version@);
                if manager.package_exists(name, version.as_str()) {
                    present.push(AppVersionAction { name: name.to_owned(), version });
                    assert(present.deep_view() =~= there.push(item));
                } else {
                    actions.push(AppVersionAction { name: name.to_owned(), version });
                    assert(actions.deep_view() =~= todo.push(item));
                }
            },
        }
        i += 1;
    }
    Ok(InstallPlan { actions, present })
}

/// Whether `new` is on the release line of `old`, where both are semantic
/// versions.
pub open spec fn spec_release_line(old: Seq<char>, new: Seq<char>) -> Result<bool, ErrorView> {
    if semver_parse(old) is Some && semver_parse(new) is Some {
        Ok(spec_major_compatible(parsed(old), parsed(new)))
    } else {
        Err(ErrorView::VersionError)
    }
}

/// What installing a version on request does: it is installed; where the app
/// has a linked version of the same release line, the lockfile is written;
/// then it is linked, the links that are there being left alone. The answer
/// says whether a link was left alone.
pub open spec fn spec_install_action(w: World, app: Seq<char>, version: Seq<char>) -> (
    World,
    Result<bool, ErrorView>,
) {
    let w1 = w.install_specific_version(app, version);
    match w.lock.find(app) {
        None => w1.link(app, version, false),
        Some(linked) => match spec_release_line(linked, version) {
            Err(e) => (w1, Err(e)),
            Ok(same_line) => if same_line {
                w1.update_lockfile(app, Some(version)).link(app, version, false)
            } else {
                w1.link(app, version, false)
            },
        },
    }
}

/// Installs a version on request.
pub fn install_action(manager: &mut CyreneManager, action: &AppVersionAction) -> (r: Result<
    bool,
    CyreneError,
>)
    requires
        old(manager).wf(),
    ensures
        final(manager).wf(),
        final(manager)@ == spec_install_action(old(manager)@, action.name@, action.version@).0,
        same_result(r, spec_install_action(old(manager)@, action.name@, action.version@).1),
{
    let name = action.name.as_str();
    let version = action.version.as_str();
    let linked_version = manager.find_installed_version(name);
    manager.install_specific_version(name, version);
    if let Some(linked_version) = linked_version {
        match is_major_version_equal(linked_version.as_str(), version) {
            Err(e) => {
                return Err(e);
            },
            Ok(same_line) => {
                if same_line {
                    manager.update_lockfile(name, Some(version));
                }
            },
        }
    }
    manager.link_binaries(name, version, false)
}

/// The pair of versions that a request to upgrade means: the one that the app
/// has (the highest installed one that meets what is asked, or the linked
/// one where nothing is asked), and the highest cached one on its release
/// line.
pub open spec fn spec_upgrade_target(w: World, request: (Seq<char>, Option<Seq<char>>)) -> Result<
    (Seq<char>, Seq<char>),
    ErrorView,
> {
    let old = match request.1 {
        Some(range) => w.find_installed_major_release(request.0, range),
        None => w.lock.find(request.0),
    };
    match old {
        None => Err(ErrorView::AppNotInstalledError(request.0)),
        Some(old_version) => match spec_search(spec_cached(w.cache, request.0), old_version) {
            None => Err(ErrorView::AppVersionNotFoundError(old_version, request.0)),
            Some(new_version) => Ok((old_version, new_version)),
        },
    }
}

/// What the first `n` requests to upgrade come to: the upgrades to make, and
/// the apps that are at their newest version; or the error of the first
/// request that cannot be resolved.
pub open spec fn spec_upgrade_plan(
    w: World,
    requests: Seq<(Seq<char>, Option<Seq<char>>)>,
    n: int,
) -> Result<(Seq<(Seq<char>, Seq<char>, Seq<char>)>, Seq<(Seq<char>, Seq<char>)>), ErrorView>
    decreases n,
{
    if n <= 0 {
        Ok((Seq::empty(), Seq::empty()))
    } else {
        match spec_upgrade_plan(w, requests, n - 1) {
            Err(e) => Err(e),
            Ok((todo, current)) => match spec_upgrade_target(w, requests[n - 1]) {
                Err(e) => Err(e),
                Ok((old_version, new_version)) => if old_version == new_version {
                    Ok((todo, current.push((requests[n - 1].0, new_version))))
                } else {
                    Ok((todo.push((requests[n - 1].0, old_version, new_version)), current))
                },
            },
        }
    }
}

pub proof fn lemma_upgrade_plan_stops(
    w: World,
    requests: Seq<(Seq<char>, Option<Seq<char>>)>,
    n: int,
    m: int,
)
    requires
        n <= m,
        spec_upgrade_plan(w, requests, n) is Err,
    ensures
        spec_upgrade_plan(w, requests, m) == spec_upgrade_plan(w, requests, n),
    decreases m - n,
{
    if n < m {
        lemma_upgrade_plan_stops(w, requests, n, m - 1);
    }
}

/// What requests to upgrade come to.
pub struct UpgradePlan {
    /// The upgrades to make, in the order of the requests.
    pub actions: Vec<AppVersionUpgradeAction>,
    /// The apps that are at their newest version, with that version.
    pub current: Vec<AppVersionAction>,
}

/// Resolves requests to upgrade. Fails with the error of the first request
/// that cannot be resolved: an app of which no version is installed, or one
/// whose release line has no cached version.
pub fn plan_upgrade(manager: &CyreneManager, requests: &Vec<AppVersion>) -> (r: Result<
    UpgradePlan,
    CyreneError,
>)
    requires
        manager.wf(),
    ensures
        r is Ok <==> spec_upgrade_plan(manager@, requests.deep_view(), requests.len() as int)
            is Ok,
        r matches Ok(plan) ==> Ok::<_, ErrorView>(
            (plan.actions.deep_view(), plan.current.deep_view()),
        ) == spec_upgrade_plan(manager@, requests.deep_view(), requests.len() as int),
        r matches Err(e) ==> Err::<
            (Seq<(Seq<char>, Seq<char>, Seq<char>)>, Seq<(Seq<char>, Seq<char>)>),
            ErrorView,
        >(e@) == spec_upgrade_plan(manager@, requests.deep_view(), requests.len() as int),
{
    let mut actions: Vec<AppVersionUpgradeAction> = Vec::new();
    let mut current: Vec<AppVersionAction> = Vec::new();
    let mut i: usize = 0;
    assert(actions.deep_view() =~= Seq::empty());
    assert(current.deep_view() =~= Seq::empty());
    while i < requests.len()
        invariant
            manager.wf(),
            i <= requests.len(),
            spec_upgrade_plan(manager@, requests.deep_view(), i as int) == Ok::<_, ErrorView>(
                (actions.deep_view(), current.deep_view()),
            ),
        decreases requests.len() - i,
    {
        assert(requests.deep_view()[i as int] == requests[i as int].deep_view());
        let name = requests[i].name.as_str();
        let installed = match &requests[i].version {
            Some(ver) => manager.find_installed_major_release(name, ver.as_str()),
            None => manager.find_installed_version(name),
        };
        let old_version = match installed {
            Some(v) => v,
            None => {
                proof {
                    lemma_upgrade_plan_stops(
                        manager@,
                        requests.deep_view(),
                        i + 1,
                        requests.len() as int,
                    );
                }
                return Err(CyreneError::AppNotInstalledError(name.to_owned()));
            },
        };
        let new_version = match manager.get_latest_major_release(name, old_version.as_str()) {
            Some(v) => v,
            None => {
                proof {
                    lemma_upgrade_plan_stops(
                        manager@,
                        requests.deep_view(),
                        i + 1,
                        requests.len() as int,
                    );
                }
                return Err(CyreneError::AppVersionNotFoundError(old_version, name.to_owned()));
            },
        };
        let ghost todo = actions.deep_view();
        let ghost there = current.deep_view();
        if same_text(old_version.as_str(), new_version.as_str()) {
            let ghost item = (name@, new_version@);
            current.push(AppVersionAction { name: name.to_owned(), version: new_version });
            assert(current.deep_view() =~= there.push(item));
        } else {
            let ghost item = (name@, old_version@, new_version@);
            actions.push(AppVersionUpgradeAction { name: name.to_owned(), old_version, new_version });
            assert(actions.deep_view() =~= todo.push(item));
        }
        i += 1;
    }
    Ok(UpgradePlan { actions, current })
}

/// The requests that upgrading without naming an app stands for: every app
/// that has a directory, with nothing asked of its version.
pub fn upgrade_all_requests(manager: &CyreneManager) -> (r: Vec<AppVersion>)
    requires
        manager.wf(),
    ensures
        r.deep_view() == manager.installed_keys().map_values(
            |name: Seq<char>| (name, None::<Seq<char>>),
        ),
{
    let apps = manager.list_apps();
    let mut out: Vec<AppVersion> = Vec::new();
    let mut i: usize = 0;
    while i < apps.len()
        invariant
            i <= apps.len(),
            out.len() == i,
            forall|j: int|
                0 <= j < i ==> (#[trigger] out[j]).name@ == apps[j]@ && out[j].version is None,
        decreases apps.len() - i,
    {
        out.push(AppVersion { name: apps[i].clone(), version: None });
        i += 1;
    }
    assert(out.deep_view() =~= apps.deep_view().map_values(
        |name: Seq<char>| (name, None::<Seq<char>>),
    ));
    out
}

/// The version that a request to uninstall means: every version where none
/// is asked for; the version asked for where it is a semantic version; else
/// the highest installed one that meets what is asked.
pub open spec fn spec_uninstall_target(w: World, request: (Seq<char>, Option<Seq<char>>)) -> Result<
    Option<Seq<char>>,
    ErrorView,
> {
    match request.1 {
        None => Ok(None),
        Some(version) => if semver_parse(version) is Some {
            Ok(Some(version))
        } else {
            match w.find_installed_major_release(request.0, version) {
                Some(found) => Ok(Some(found)),
                None => Err(ErrorView::AppVersionNotFoundError(version, request.0)),
            }
        },
    }
}

/// What the first `n` requests to uninstall come to, or the error of the
/// first that cannot be resolved.
pub open spec fn spec_uninstall_plan(
    w: World,
    requests: Seq<(Seq<char>, Option<Seq<char>>)>,
    n: int,
) -> Result<Seq<(Seq<char>, Option<Seq<char>>)>, ErrorView>
    decreases n,
{
    if n <= 0 {
        Ok(Seq::empty())
    } else {
        match spec_uninstall_plan(w, requests, n - 1) {
            Err(e) => Err(e),
            Ok(todo) => match spec_uninstall_target(w, requests[n - 1]) {
                Err(e) => Err(e),
                Ok(version) => Ok(todo.push((requests[n - 1].0, version))),
            },
        }
    }
}

pub proof fn lemma_uninstall_plan_stops(
    w: World,
    requests: Seq<(Seq<char>, Option<Seq<char>>)>,
    n: int,
    m: int,
)
    requires
        n <= m,
        spec_uninstall_plan(w, requests, n) is Err,
    ensures
        spec_uninstall_plan(w, requests, m) == spec_uninstall_plan(w, requests, n),
    decreases m - n,
{
    if n < m {
        lemma_uninstall_plan_stops(w, requests, n, m - 1);
    }
}

/// Resolves requests to uninstall. Fails with the error of the first request
/// whose constraint no installed version meets.
pub fn plan_uninstall(manager: &CyreneManager, requests: &Vec<AppVersion>) -> (r: Result<
    Vec<AppVersion>,
    CyreneError,
>)
    requires
        manager.wf(),
    ensures
        r is Ok <==> spec_uninstall_plan(manager@, requests.deep_view(), requests.len() as int)
            is Ok,
        r matches Ok(plan) ==> Ok::<_, ErrorView>(plan.deep_view()) == spec_uninstall_plan(
            manager@,
            requests.deep_view(),
            requests.len() as int,
        ),
        r matches Err(e) ==> Err::<Seq<(Seq<char>, Option<Seq<char>>)>, ErrorView>(e@)
            == spec_uninstall_plan(manager@, requests.deep_view(), requests.len() as int),
{
    let mut actions: Vec<AppVersion> = Vec::new();
    let mut i: usize = 0;
    assert(actions.deep_view() =~= Seq::empty());
    while i < requests.len()
        invariant
            manager.wf(),
            i <= requests.len(),
            spec_uninstall_plan(manager@, requests.deep_view(), i as int) == Ok::<_, ErrorView>(
                actions.deep_view(),
            ),
        decreases requests.len() - i,
    {
        assert(requests.deep_view()[i as int] == requests[i as int].deep_view());
        let name = requests[i].name.as_str();
        let version: Option<String> = match &requests[i].version {
            None => None,
            Some(version) => {
                if SemVer::is_valid(version.as_str()) {
                    Some(version.clone())
                } else {
                    match manager.find_installed_major_release(name, version.as_str()) {
                        Some(found) => Some(found),
                        None => {
                            proof {
                                lemma_uninstall_plan_stops(
                                    manager@,
                                    requests.deep_view(),
                                    i + 1,
                                    requests.len() as int,
                                );
                            }
                            return Err(
                                CyreneError::AppVersionNotFoundError(
                                    version.clone(),
                                    name.to_owned(),
                                ),
                            );
                        },
                    }
                }
            },
        };
        let ghost todo = actions.deep_view();
        let ghost item = (name@, version.deep_view());
        actions.push(AppVersion { name: name.to_owned(), version });
        assert(actions.deep_view() =~= todo.push(item));
        i += 1;
    }
    Ok(actions)
}

/// Uninstalls what a resolved request names: one version, or the app.
pub fn uninstall_action(manager: &mut CyreneManager, action: &AppVersion) -> (r: Result<
    (),
    CyreneError,
>)
    requires
        old(manager).wf(),
    ensures
        final(manager).wf(),
        match action.version {
            Some(version) => final(manager)@ == old(manager)@.uninstall(action.name@, version@).0
                && same_result(r, old(manager)@.uninstall(action.name@, version@).1),
            None => final(manager)@ == old(manager)@.uninstall_all(action.name@).0 && same_result(
                r,
                old(manager)@.uninstall_all(action.name@).1,
            ),
        },
{
    match &action.version {
        Some(ver) => manager.uninstall(action.name.as_str(), ver.as_str()),
        None => manager.uninstall_all(action.name.as_str()),
    }
}

/// The version that a request to link means: the version asked for where it
/// is a semantic version, else the highest installed one that meets what is
/// asked.
pub open spec fn spec_link_target(w: World, app: Seq<char>, version: Seq<char>) -> Result<
    Seq<char>,
    ErrorView,
> {
    if semver_parse(version) is Some {
        Ok(version)
    } else {
        match w.find_installed_major_release(app, version) {
            Some(found) => Ok(found),
            None => Err(ErrorView::AppNotInstalledError(app)),
        }
    }
}

/// What a request to link does: the version that it means is linked over
/// what is there and written to the lockfile.
pub open spec fn spec_link_command(w: World, app: Seq<char>, version: Seq<char>) -> (
    World,
    Result<(), ErrorView>,
) {
    match spec_link_target(w, app, version) {
        Err(e) => (w, Err(e)),
        Ok(target) => {
            let (w1, r) = w.link(app, target, true);
            match r {
                Err(e) => (w1, Err(e)),
                Ok(_) => (w1.update_lockfile(app, Some(target)), Ok(())),
            }
        },
    }
}

/// Links a version on request.
pub fn link_command(manager: &mut CyreneManager, name: &str, version: &str) -> (r: Result<
    (),
    CyreneError,
>)
    requires
        old(manager).wf(),
    ensures
        final(manager).wf(),
        final(manager)@ == spec_link_command(old(manager)@, name@, version@).0,
        same_result(r, spec_link_command(old(manager)@, name@, version@).1),
{
    let target: String = if SemVer::is_valid(version) {
        version.to_owned()
    } else {
        match manager.find_installed_major_release(name, version) {
            Some(found) => found,
            None => {
                return Err(CyreneError::AppNotInstalledError(name.to_owned()));
            },
        }
    };
    match manager.link_binaries(name, target.as_str(), true) {
        Err(e) => Err(e),
        Ok(_) => {
            manager.update_lockfile(name, Some(target.as_str()));
            Ok(())
        },
    }
}

/// An upgrade as commands of a transaction: the new version is installed and
/// linked, the lockfile is written, and the old version is removed. In which
/// order they are queued does not matter: the phases put the installation
/// first and the removal before lockfile and links.
pub open spec fn spec_upgrade_commands(
    app: Seq<char>,
    old_version: Seq<char>,
    new_version: Seq<char>,
    overwrite: bool,
) -> Seq<CommandView> {
    seq![
        CommandView::Install { app, version: new_version },
        CommandView::Link { app, version: new_version, overwrite },
        CommandView::LockfileUpdate { app, version: Some(new_version) },
        CommandView::Remove { app, version: old_version },
    ]
}

/// The commands that make an upgrade.
pub fn upgrade_commands(action: &AppVersionUpgradeAction, overwrite: bool) -> (r: Vec<
    TransactionCommands,
>)
    ensures
        r.deep_view() == spec_upgrade_commands(
            action.name@,
            action.old_version@,
            action.new_version@,
            overwrite,
        ),
{
    let mut out: Vec<TransactionCommands> = Vec::new();
    out.push(
        TransactionCommands::Install {
            app: action.name.clone(),
            version: action.new_version.clone(),
        },
    );
    out.push(
        TransactionCommands::Link {
            app: action.name.clone(),
            version: action.new_version.clone(),
            overwrite,
        },
    );
    out.push(
        TransactionCommands::LockfileUpdate {
            app: action.name.clone(),
            version: Some(action.new_version.clone()),
        },
    );
    out.push(
        TransactionCommands::Remove {
            app: action.name.clone(),
            version: action.old_version.clone(),
        },
    );
    assert(out.deep_view() =~= spec_upgrade_commands(
        action.name@,
        action.old_version@,
        action.new_version@,
        overwrite,
    ));
    out
}

/// The commands that make an upgrade on this manager: the new version's
/// links go over the links that are there where the old version is the
/// linked one, and leave them alone otherwise.
pub fn upgrade_transaction(manager: &CyreneManager, action: &AppVersionUpgradeAction) -> (r: Vec<
    TransactionCommands,
>)
    requires
        manager.wf(),
    ensures
        r.deep_view() == spec_upgrade_commands(
            action.name@,
            action.old_version@,
            action.new_version@,
            manager@.lock.find(action.name@) == Some(action.old_version@),
        ),
{
    let overwrite: bool = match manager.find_installed_version(action.name.as_str()) {
        Some(linked) => same_text(linked.as_str(), action.old_version.as_str()),
        None => false,
    };
    upgrade_commands(action, overwrite)
}

} // verus!
