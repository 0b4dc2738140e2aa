//! The steps that are to be taken on disk, in the order in which the library
//! decided on them.
use vstd::prelude::*;

verus! {

/// One step on disk, or one run of a plugin's script.
#[derive(Debug, PartialEq, Eq)]
#[allow(inconsistent_fields)]
pub enum FsStep {
    /// Make a directory and what leads to it.
    CreateDirAll { path: String },
    /// Run the plugin's `install_app` for a version, in its directory.
    InstallApp { app: String, version: String, dir: String },
    /// Run the plugin's `post_install` for a version, in its directory.
    PostInstall { app: String, version: String, dir: String },
    /// Remove a directory with all that is in it.
    RemoveDirAll { path: String },
    /// Remove an empty directory.
    RemoveDir { path: String },
    /// Remove a file or a link.
    RemoveFile { path: String },
    /// Make a link at `link` that points to `target`.
    Symlink { target: String, link: String },
    /// Write, or clear, the version of an app in the lockfile at `path`.
    LockfileSet { path: String, app: String, version: Option<String> },
    /// Set, or clear, the pointer to a local lockfile in the lockfile at
    /// `path`.
    LockfilePointer { path: String, target: Option<String> },
    /// Put the versions of an app into the versions cache at `path`.
    CacheSet { path: String, app: String, versions: Vec<String> },
    /// Write a file with the given content.
    WriteFile { path: String, content: String },
}

/// A step as contracts see it.
#[allow(inconsistent_fields)]
pub enum StepView {
    CreateDirAll { path: Seq<char> },
    InstallApp { app: Seq<char>, version: Seq<char>, dir: Seq<char> },
    PostInstall { app: Seq<char>, version: Seq<char>, dir: Seq<char> },
    RemoveDirAll { path: Seq<char> },
    RemoveDir { path: Seq<char> },
    RemoveFile { path: Seq<char> },
    Symlink { target: Seq<char>, link: Seq<char> },
    LockfileSet { path: Seq<char>, app: Seq<char>, version: Option<Seq<char>> },
    LockfilePointer { path: Seq<char>, target: Option<Seq<char>> },
    CacheSet { path: Seq<char>, app: Seq<char>, versions: Seq<Seq<char>> },
    WriteFile { path: Seq<char>, content: Seq<char> },
}

impl DeepView for FsStep {
    type V = StepView;

    open spec fn deep_view(&self) -> StepView {
        match self {
            FsStep::CreateDirAll { path } => StepView::CreateDirAll { path: path@ },
            FsStep::InstallApp { app, version, dir } => StepView::InstallApp {
                app: app@,
                version: version@,
                dir: dir@,
            },
            FsStep::PostInstall { app, version, dir } => StepView::PostInstall {
                app: app@,
                version: version@,
                dir: dir@,
            },
            FsStep::RemoveDirAll { path } => StepView::RemoveDirAll { path: path@ },
            FsStep::RemoveDir { path } => StepView::RemoveDir { path: path@ },
            FsStep::RemoveFile { path } => StepView::RemoveFile { path: path@ },
            FsStep::Symlink { target, link } => StepView::Symlink { target: target@, link: link@ },
            FsStep::LockfileSet { path, app, version } => StepView::LockfileSet {
                path: path@,
                app: app@,
                version: version.deep_view(),
            },
            FsStep::LockfilePointer { path, target } => StepView::LockfilePointer {
                path: path@,
                target: target.deep_view(),
            },
            FsStep::CacheSet { path, app, versions } => StepView::CacheSet {
                path: path@,
                app: app@,
                versions: versions.deep_view(),
            },
            FsStep::WriteFile { path, content } => StepView::WriteFile {
                path: path@,
                content: content@,
            },
        }
    }
}

} // verus!
