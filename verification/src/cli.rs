//! What the command line asks for, once it is read.
use crate::commands::{spec_request, AppVersion};
use vstd::prelude::*;

verus! {

/// A call of the tool.
pub struct Cli {
    pub command: Commands,
}

/// What the tool can be asked to do.
pub enum Commands {
    /// Install binaries
    Install(AppInstallOpts),
    /// Upgrade binaries
    Upgrade(AppUpgradeOpts),
    /// Uninstall binaries
    Uninstall(AppUninstallOpts),
    /// List installed binaries
    List(AppListOpts),
    /// Link installed binaries
    Link(AppLinkOpts),
    /// Unlink installed binaries
    Unlink(AppUnlinkOpts),
    /// List versions of a binary
    Versions(AppVersionsOpts),
    /// Refresh versions of a binary
    Refresh(AppRefreshOpts),
    /// Load the lockfile of a directory
    Load(AppLoadOpts),
}

pub struct AppInstallOpts {
    /// The apps, each as `app` or `app@version`.
    pub apps: Vec<String>,
}

pub struct AppUpgradeOpts {
    /// The apps, each as `app` or `app@version`; every installed app where
    /// none is given.
    pub apps: Option<Vec<String>>,
}

pub struct AppUninstallOpts {
    /// The apps, each as `app` or `app@version`.
    pub apps: Vec<String>,
}

pub struct AppLinkOpts {
    /// Name of app
    pub name: String,
    /// Version of app
    pub version: String,
}

pub struct AppUnlinkOpts {
    /// Name of app
    pub name: String,
}

pub struct AppListOpts {
    /// Long format
    pub long: bool,
}

pub struct AppVersionsOpts {
    /// Name of app
    pub name: String,
    /// Long format
    pub long: bool,
}

pub struct AppRefreshOpts {
    /// Name of app; every installed app where none is given.
    pub name: Option<String>,
}

pub struct AppLoadOpts {
    /// Custom path to lockfile
    pub lockfile: Option<String>,
    /// Use default lockfile
    pub default: bool,
}

/// Reads each text of a list as a request.
pub fn requests(apps: &Vec<String>) -> (r: Vec<AppVersion>)
    ensures
        r.deep_view() == apps.deep_view().map_values(|value: Seq<char>| spec_request(value)),
{
    let mut out: Vec<AppVersion> = Vec::new();
    let mut i: usize = 0;
    while i < apps.len()
        invariant
            i <= apps.len(),
            out.len() == i,
            forall|j: int| 0 <= j < i ==> (#[trigger] out[j]).deep_view() == spec_request(apps[j]@),
        decreases apps.len() - i,
    {
        out.push(AppVersion::parse(apps[i].as_str()));
        i += 1;
    }
    assert(out.deep_view() =~= apps.deep_view().map_values(
        |value: Seq<char>| spec_request(value),
    ));
    out
}

impl AppInstallOpts {
    /// The requests to install.
    pub fn requests(&self) -> (r: Vec<AppVersion>)
        ensures
            r.deep_view() == self.apps.deep_view().map_values(
                |value: Seq<char>| spec_request(value),
            ),
    {
        requests(&self.apps)
    }
}

impl AppUninstallOpts {
    /// The requests to uninstall.
    pub fn requests(&self) -> (r: Vec<AppVersion>)
        ensures
            r.deep_view() == self.apps.deep_view().map_values(
                |value: Seq<char>| spec_request(value),
            ),
    {
        requests(&self.apps)
    }
}

impl AppUpgradeOpts {
    /// The requests to upgrade, where apps are named.
    pub fn requests(&self) -> (r: Option<Vec<AppVersion>>)
        ensures
            r is Some <==> self.apps is Some,
            r matches Some(list) ==> list.deep_view() == self.apps.unwrap().deep_view().map_values(
                |value: Seq<char>| spec_request(value),
            ),
    {
        match &self.apps {
            Some(apps) => Some(requests(apps)),
            None => None,
        }
    }
}

impl AppLoadOpts {
    /// The lockfile to load, unless it is the default one: the one given, or
    /// `cyrene.toml` in the working directory.
    pub open spec fn spec_local_lockfile(&self) -> Option<Seq<char>> {
        if self.default {
            None
        } else {
            match self.lockfile {
                Some(path) => Some(path@),
                None => Some("cyrene.toml"@),
            }
        }
    }

    /// The lockfile to load, unless it is the default one.
    pub fn local_lockfile(&self) -> (r: Option<String>)
        ensures
            r.deep_view() == self.spec_local_lockfile(),
    {
        if self.default {
            None
        } else {
            match &self.lockfile {
                Some(path) => Some(path.clone()),
                None => Some("cyrene.toml".to_owned()),
            }
        }
    }
}

} // verus!
