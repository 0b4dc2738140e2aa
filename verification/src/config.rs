//! The user's configuration.
use vstd::prelude::*;

verus! {

/// The directories that the user has set, each in place of the one that would
/// be taken otherwise.
pub struct CyreneConfig {
    pub apps_dir: Option<String>,
    pub plugins_dir: Option<String>,
    pub install_dir: Option<String>,
    pub cache_dir: Option<String>,
    pub lockfile_path: Option<String>,
}

impl CyreneConfig {
    /// The configuration that sets nothing: the one that is written where
    /// there is none yet.
    pub fn empty() -> (r: Self)
        ensures
            r.apps_dir is None,
            r.plugins_dir is None,
            r.install_dir is None,
            r.cache_dir is None,
            r.lockfile_path is None,
    {
        CyreneConfig {
            apps_dir: None,
            plugins_dir: None,
            install_dir: None,
            cache_dir: None,
            lockfile_path: None,
        }
    }
}

} // verus!
