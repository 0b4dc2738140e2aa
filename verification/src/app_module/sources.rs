//! Where what a script fetches goes.
use crate::app_module::modify::{scoped_path, spec_scoped};
use crate::text::{last_segment, spec_last_segment};
use vstd::prelude::*;

verus! {

/// The kinds of source that a script can fetch.
#[derive(Clone, Copy, Debug, PartialEq, Eq, Structural)]
pub enum SourceKind {
    /// A tar archive packed with xz, unpacked into the directory.
    TarXz,
    /// A tar archive packed with gzip, unpacked into the directory.
    TarGz,
    /// A zip archive, unpacked into the directory.
    Zip,
    /// A single file, stored in the directory.
    File,
}

/// The name under which what `url` points to is shown and stored: the last
/// segment of its path.
pub fn target_filename(url: &str) -> (r: String)
    ensures
        r@ == spec_last_segment(url@),
{
    last_segment(url)
}

/// Where a fetched source goes, inside the directory `dir` of the version
/// that is being installed: an archive is unpacked into the directory itself;
/// a file is stored under the name given, or under the last segment of the
/// URL. There is no such place where the name may lead out of the directory.
pub open spec fn spec_destination(
    kind: SourceKind,
    url: Seq<char>,
    dest: Option<Seq<char>>,
    dir: Seq<char>,
) -> Option<Seq<char>> {
    match kind {
        SourceKind::File => match dest {
            Some(d) => spec_scoped(dir, d),
            None => spec_scoped(dir, spec_last_segment(url)),
        },
        _ => Some(dir),
    }
}

/// Where a fetched source goes.
pub fn destination(kind: SourceKind, url: &str, dest: Option<&str>, dir: &str) -> (r: Option<
    String,
>)
    ensures
        r.deep_view() == spec_destination(
            kind,
            url@,
            match dest {
                Some(d) => Some(d@),
                None => None,
            },
            dir@,
        ),
{
    match kind {
        SourceKind::File => match dest {
            Some(d) => scoped_path(dir, d),
            None => {
                let name = last_segment(url);
                scoped_path(dir, name.as_str())
            },
        },
        _ => Some(dir.to_owned()),
    }
}

} // verus!
