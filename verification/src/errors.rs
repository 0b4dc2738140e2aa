//! The errors that the library reports.
use vstd::prelude::*;
use vstd::string::*;

verus! {

/// `semver::Error`, what the `semver` crate says of a text that it cannot
/// read. Nothing is known of what it holds.
#[verifier::external_type_specification]
#[verifier::external_body]
pub struct ExSemverError(semver::Error);

/// What can go wrong in the library's own decisions.
#[derive(Debug)]
pub enum CyreneError {
    /// No configuration directory could be found.
    NoHomeError,
    /// The app has no installation directory.
    AppNotInstalledError(String),
    /// The app has no entry in the lockfile.
    AppNotInLockfileError(String),
    /// This version (first) of the app (second) is not installed.
    AppVersionNotInstalledError(String, String),
    /// No known version of the app (second) meets the requirement (first).
    AppVersionNotFoundError(String, String),
    /// This version (first) of the app (second) is not in the versions cache.
    AppVersionNotFoundInCacheError(String, String),
    /// The versions cache holds no version of the app.
    AppVersionNotInCacheError(String),
    /// A text that had to be a semantic version is none.
    VersionError(semver::Error),
    /// The running executable could not be located.
    ExePathError,
    /// The plugin script's path names no plugin.
    PluginPathError,
    /// The plugin of the app (second) has not said which binaries this
    /// version (first) exposes.
    PluginBinariesError(String, String),
    /// There is no lockfile at the given place.
    LockfileNotFoundError,
    /// The lockfile names a version (first) of an app (second) that is not
    /// known upstream.
    LockfileAppVersionError(String, String),
    /// The lockfile has no entry for the app.
    LockfileAppError(String),
    /// A link would replace the running executable.
    AppLinkingToItselfError,
}

/// An error as contracts see it: its kind, and the texts it carries.
pub enum ErrorView {
    NoHomeError,
    AppNotInstalledError(Seq<char>),
    AppNotInLockfileError(Seq<char>),
    AppVersionNotInstalledError(Seq<char>, Seq<char>),
    AppVersionNotFoundError(Seq<char>, Seq<char>),
    AppVersionNotFoundInCacheError(Seq<char>, Seq<char>),
    AppVersionNotInCacheError(Seq<char>),
    VersionError,
    ExePathError,
    PluginPathError,
    PluginBinariesError(Seq<char>, Seq<char>),
    LockfileNotFoundError,
    LockfileAppVersionError(Seq<char>, Seq<char>),
    LockfileAppError(Seq<char>),
    AppLinkingToItselfError,
}

impl View for CyreneError {
    type V = ErrorView;

    open spec fn view(&self) -> ErrorView {
        match self {
            CyreneError::NoHomeError => ErrorView::NoHomeError,
            CyreneError::AppNotInstalledError(a) => ErrorView::AppNotInstalledError(a@),
            CyreneError::AppNotInLockfileError(a) => ErrorView::AppNotInLockfileError(a@),
            CyreneError::AppVersionNotInstalledError(v, a) => ErrorView::AppVersionNotInstalledError(
                v@,
                a@,
            ),
            CyreneError::AppVersionNotFoundError(v, a) => ErrorView::AppVersionNotFoundError(
                v@,
                a@,
            ),
            CyreneError::AppVersionNotFoundInCacheError(v, a) => {
                ErrorView::AppVersionNotFoundInCacheError(v@, a@)
            },
            CyreneError::AppVersionNotInCacheError(a) => ErrorView::AppVersionNotInCacheError(a@),
            CyreneError::VersionError(_) => ErrorView::VersionError,
            CyreneError::ExePathError => ErrorView::ExePathError,
            CyreneError::PluginPathError => ErrorView::PluginPathError,
            CyreneError::PluginBinariesError(v, a) => ErrorView::PluginBinariesError(v@, a@),
            CyreneError::LockfileNotFoundError => ErrorView::LockfileNotFoundError,
            CyreneError::LockfileAppVersionError(v, a) => ErrorView::LockfileAppVersionError(
                v@,
                a@,
            ),
            CyreneError::LockfileAppError(a) => ErrorView::LockfileAppError(a@),
            CyreneError::AppLinkingToItselfError => ErrorView::AppLinkingToItselfError,
        }
    }
}

/// Asks a `semver::Error` for its text, through its `Display`. Nothing is
/// claimed of the text.
#[verifier::external_body]
fn parse_error_text(e: &semver::Error) -> (r: String) {
    e.to_string()
}

fn join2(a: &str, b: &str) -> (r: String)
    ensures
        r@ == a@ + b@,
{
    let mut s: String = a.to_owned();
    s.append(b);
    s
}

fn join4(a: &str, b: &str, c: &str, d: &str) -> (r: String)
    ensures
        r@ == a@ + b@ + c@ + d@,
{
    let mut s: String = a.to_owned();
    s.append(b);
    s.append(c);
    s.append(d);
    s
}

/// What an error says, but for the error of a version that did not parse,
/// whose text goes on with what the parser said.
pub open spec fn spec_message(e: ErrorView) -> Seq<char> {
    match e {
        ErrorView::NoHomeError => "Cannot find cyrene configuration"@,
        ErrorView::AppNotInstalledError(a) => "App for plugin "@ + a + " is not installed"@,
        ErrorView::AppNotInLockfileError(a) => "App for plugin "@ + a
            + " is not registered in lockfile"@,
        ErrorView::AppVersionNotInstalledError(v, a) => "App version "@ + v + " for plugin "@ + a
            + " is not installed"@,
        ErrorView::AppVersionNotFoundError(v, a) => "Cannot find app version "@ + v
            + " for plugin "@ + a + " in version list"@,
        ErrorView::AppVersionNotFoundInCacheError(v, a) => "Cannot find app version "@ + v
            + " for plugin "@ + a + " in versions cache"@,
        ErrorView::AppVersionNotInCacheError(a) => "Cannot find app versions for plugin "@ + a
            + " in versions cache"@,
        ErrorView::VersionError => "Error parsing versions: "@,
        ErrorView::ExePathError => "Cannot locate cyrene"@,
        ErrorView::PluginPathError => "Cannot locate plugin"@,
        ErrorView::PluginBinariesError(v, a) => "Cannot list binaries of app version "@ + v
            + " for plugin "@ + a,
        ErrorView::LockfileNotFoundError => "Cannot find lockfile"@,
        ErrorView::LockfileAppVersionError(v, a) => "App version "@ + v + " for plugin "@ + a
            + " in lockfile is invalid"@,
        ErrorView::LockfileAppError(a) => "Plugin "@ + a + " in lockfile is invalid"@,
        ErrorView::AppLinkingToItselfError => "Cyrene was about to sacrifice itself to the Remembrance"@,
    }
}

impl CyreneError {
    /// What the error says, with the app, the version or the path that it is
    /// about.
    pub fn message(&self) -> (r: String)
        ensures
            self@ != ErrorView::VersionError ==> r@ == spec_message(self@),
            self@ == ErrorView::VersionError ==> spec_message(self@).is_prefix_of(r@),
    {
        match self {
            CyreneError::NoHomeError => "Cannot find cyrene configuration".to_owned(),
            CyreneError::AppNotInstalledError(a) => join2(
                join2("App for plugin ", a.as_str()).as_str(),
                " is not installed",
            ),
            CyreneError::AppNotInLockfileError(a) => join2(
                join2("App for plugin ", a.as_str()).as_str(),
                " is not registered in lockfile",
            ),
            CyreneError::AppVersionNotInstalledError(v, a) => join2(
                join4("App version ", v.as_str(), " for plugin ", a.as_str()).as_str(),
                " is not installed",
            ),
            CyreneError::AppVersionNotFoundError(v, a) => join2(
                join4("Cannot find app version ", v.as_str(), " for plugin ", a.as_str()).as_str(),
                " in version list",
            ),
            CyreneError::AppVersionNotFoundInCacheError(v, a) => join2(
                join4("Cannot find app version ", v.as_str(), " for plugin ", a.as_str()).as_str(),
                " in versions cache",
            ),
            CyreneError::AppVersionNotInCacheError(a) => join2(
                join2("Cannot find app versions for plugin ", a.as_str()).as_str(),
                " in versions cache",
            ),
            CyreneError::VersionError(e) => {
                let text = parse_error_text(e);
                let r = join2("Error parsing versions: ", text.as_str());
                assert(r@.subrange(0, "Error parsing versions: "@.len() as int)
                    =~= "Error parsing versions: "@);
                r
            },
            CyreneError::ExePathError => "Cannot locate cyrene".to_owned(),
            CyreneError::PluginPathError => "Cannot locate plugin".to_owned(),
            CyreneError::PluginBinariesError(v, a) => join4(
                "Cannot list binaries of app version ",
                v.as_str(),
                " for plugin ",
                a.as_str(),
            ),
            CyreneError::LockfileNotFoundError => "Cannot find lockfile".to_owned(),
            CyreneError::LockfileAppVersionError(v, a) => join2(
                join4("App version ", v.as_str(), " for plugin ", a.as_str()).as_str(),
                " in lockfile is invalid",
            ),
            CyreneError::LockfileAppError(a) => join2(
                join2("Plugin ", a.as_str()).as_str(),
                " in lockfile is invalid",
            ),
            CyreneError::AppLinkingToItselfError => "Cyrene was about to sacrifice itself to the Remembrance".to_owned(),
        }
    }
}

/// A result as contracts see it.
pub open spec fn result_view<T>(r: Result<T, CyreneError>) -> Result<T, ErrorView> {
    match r {
        Ok(v) => Ok(v),
        Err(e) => Err(e@),
    }
}

/// Whether a result is the one that a contract names: the same value, or an
/// error with the same view.
pub open spec fn same_result<T>(r: Result<T, CyreneError>, s: Result<T, ErrorView>) -> bool {
    match r {
        Ok(v) => s == Ok::<T, ErrorView>(v),
        Err(e) => s == Err::<T, ErrorView>(e@),
    }
}

} // verus!
