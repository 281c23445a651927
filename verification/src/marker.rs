//! The directory entries whose presence marks a project.

use vstd::prelude::*;

verus! {

/// What kind of filesystem entry a probe looks for.
#[derive(Clone, Copy, Debug, PartialEq, Eq, Structural)]
pub enum EntryKind {
    /// A regular file.
    File,
    /// A directory.
    Dir,
}

/// An entry that is looked for directly under a candidate directory.
#[derive(Clone, Copy, Debug, PartialEq, Eq, Structural)]
pub enum Marker {
    /// The version-control directory.
    GitDir,
    /// The package manifest.
    Manifest,
    /// The lockfile written by npm.
    PackageLock,
    /// The lockfile written by yarn.
    YarnLock,
    /// The directory that holds the installed dependencies.
    NodeModules,
}

impl Marker {
    /// The entry's name, relative to the candidate directory.
    pub open spec fn spec_name(self) -> Seq<char> {
        match self {
            Marker::GitDir => ".git"@,
            Marker::Manifest => "package.json"@,
            Marker::PackageLock => "package-lock.json"@,
            Marker::YarnLock => "yarn.lock"@,
            Marker::NodeModules => "node_modules"@,
        }
    }

    /// The kind of entry that counts: another kind under the same name does not.
    pub open spec fn spec_kind(self) -> EntryKind {
        match self {
            Marker::GitDir | Marker::NodeModules => EntryKind::Dir,
            Marker::Manifest | Marker::PackageLock | Marker::YarnLock => EntryKind::File,
        }
    }

    /// The entry's name, relative to the candidate directory.
    pub fn name(self) -> (r: &'static str)
        ensures
            r@ == self.spec_name(),
    {
        match self {
            Marker::GitDir => ".git",
            Marker::Manifest => "package.json",
            Marker::PackageLock => "package-lock.json",
            Marker::YarnLock => "yarn.lock",
            Marker::NodeModules => "node_modules",
        }
    }

    /// The kind of entry that the probe must find under that name.
    #[verifier::when_used_as_spec(spec_kind)]
    pub fn kind(self) -> (r: EntryKind)
        ensures
            r == self.spec_kind(),
    {
        match self {
            Marker::GitDir | Marker::NodeModules => EntryKind::Dir,
            Marker::Manifest | Marker::PackageLock | Marker::YarnLock => EntryKind::File,
        }
    }
}

} // verus!
