//! Release lines.
use crate::errors::CyreneError;
use crate::version::{semver_parse, spec_major_compatible, SemVer, SemVerView};
use vstd::prelude::*;

verus! {

/// The version that a text parses to, by its parts.
pub open spec fn parsed(text: Seq<char>) -> SemVerView {
    let f = semver_parse(text).unwrap();
    SemVerView { text, major: f.0, minor: f.1, patch: f.2, pre: f.3, build: f.4 }
}

/// Whether `new_version` is on the release line of `old_version`: with major
/// number 0 the line is the minor release, else the major one. Fails where
/// either text is no semantic version.
pub fn is_major_version_equal(old_version: &str, new_version: &str) -> (r: Result<
    bool,
    CyreneError,
>)
    ensures
        r is Ok <==> semver_parse(old_version@) is Some && semver_parse(new_version@) is Some,
        r matches Ok(b) ==> b == spec_major_compatible(parsed(old_version@), parsed(new_version@)),
        r matches Err(e) ==> e@ == crate::errors::ErrorView::VersionError,
{
    let old_versioning = match SemVer::parse(old_version) {
        Ok(v) => v,
        Err(e) => {
            return Err(CyreneError::VersionError(e));
        },
    };
    let new_versioning = match SemVer::parse(new_version) {
        Ok(v) => v,
        Err(e) => {
            return Err(CyreneError::VersionError(e));
        },
    };
    Ok(old_versioning.major_compatible(&new_versioning))
}

} // verus!
