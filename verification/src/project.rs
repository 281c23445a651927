//! The classification of one directory.

use vstd::prelude::*;

verus! {

/// The state of a version-control worktree.
#[derive(Clone, Copy, Debug, PartialEq, Eq, Structural)]
pub struct Git {
    /// The worktree holds no uncommitted change.
    pub clean: bool,
    /// The worktree has yet to be synchronised with its remote.
    pub nosync: bool,
}

/// The package ecosystem a directory belongs to.
#[derive(Clone, Copy, Debug, PartialEq, Eq, Structural)]
pub enum ProjectKind {
    /// A Node.js package.
    NodeJS {
        /// The dependencies have been installed.
        installed: bool,
        /// A lockfile is present.
        lockfile: bool,
    },
    /// A Rust package. No examination produces this variant yet.
    Rust {
        /// The dependencies have been built.
        installed: bool,
    },
}

/// What an examination found out about a directory: two independent facts,
/// each of which may be absent.
#[derive(Clone, Copy, Debug, PartialEq, Eq, Structural)]
pub struct Project {
    /// The version-control fact.
    pub git: Option<Git>,
    /// The ecosystem fact.
    pub kind: Option<ProjectKind>,
}

impl Project {
    /// A directory is a project exactly when at least one fact is present.
    pub open spec fn spec_is_project(&self) -> bool {
        self.git is Some || self.kind is Some
    }

    /// Tells whether the directory is a project root.
    #[verifier::when_used_as_spec(spec_is_project)]
    pub fn is_project(&self) -> (r: bool)
        ensures
            r == self.spec_is_project(),
    {
        self.git.is_some() || self.kind.is_some()
    }
}

} // verus!
