//! The examination of one directory.
//!
//! An examination asks for one marker at a time and is told whether it is
//! present. It skips the second lockfile once the first was found, and ends
//! with the directory's classification.

use vstd::prelude::*;

use crate::marker::Marker;
use crate::project::{Git, Project, ProjectKind};

verus! {

/// The classification that follows from four findings: whether the directory
/// is under version control, holds a manifest, holds a lockfile, and holds
/// installed dependencies.
///
/// The state of a worktree is not inspected: one that is found is recorded as
/// clean and as in need of a sync. The manifest only decides whether there is
/// an ecosystem; it is not recorded.
pub open spec fn verdict(git: bool, manifest: bool, lockfile: bool, modules: bool) -> Project {
    Project {
        git: if git {
            Some(Git { clean: true, nosync: true })
        } else {
            None
        },
        kind: if manifest || lockfile || modules {
            Some(ProjectKind::NodeJS { installed: modules, lockfile })
        } else {
            None
        },
    }
}

/// The classification of a directory in which exactly the markers of
/// `present` are found.
pub open spec fn classification(present: Set<Marker>) -> Project {
    verdict(
        present.contains(Marker::GitDir),
        present.contains(Marker::Manifest),
        present.contains(Marker::PackageLock) || present.contains(Marker::YarnLock),
        present.contains(Marker::NodeModules),
    )
}

/// Computes the classification from the four findings.
pub fn classify(git: bool, manifest: bool, lockfile: bool, modules: bool) -> (r: Project)
    ensures
        r == verdict(git, manifest, lockfile, modules),
{
    Project {
        git: if git {
            Some(Git { clean: true, nosync: true })
        } else {
            None
        },
        kind: if manifest || lockfile || modules {
            Some(ProjectKind::NodeJS { installed: modules, lockfile })
        } else {
            None
        },
    }
}

/// An examination under way: the marker it is asking for and what the
/// earlier answers have shown.
#[derive(Clone, Copy, Debug, PartialEq, Eq, Structural)]
pub struct Examination {
    /// The marker whose presence is asked for next.
    pub asking: Marker,
    /// The version-control directory was found.
    pub git: bool,
    /// The manifest was found.
    pub manifest: bool,
    /// A lockfile was found.
    pub lockfile: bool,
}

/// Where an examination stands after an answer.
#[derive(Clone, Copy, Debug, PartialEq, Eq, Structural)]
pub enum Progress {
    /// Another marker has to be looked for.
    Ask(Examination),
    /// The examination is over, with this classification.
    Done(Project),
}

impl Examination {
    /// The examination before any answer: it asks for the version-control
    /// directory first.
    pub open spec fn spec_begin() -> Examination {
        Examination { asking: Marker::GitDir, git: false, manifest: false, lockfile: false }
    }

    /// The examination after the answer `found` for the marker asked for.
    ///
    /// The markers are asked for in the order version control, manifest, the
    /// two lockfiles, installed dependencies.
    pub open spec fn spec_answer(self, found: bool) -> Progress {
        match self.asking {
            Marker::GitDir => Progress::Ask(
                Examination {
                    asking: Marker::Manifest,
                    git: found,
                    manifest: self.manifest,
                    lockfile: self.lockfile,
                },
            ),
            Marker::Manifest => Progress::Ask(
                Examination {
                    asking: Marker::PackageLock,
                    git: self.git,
                    manifest: found,
                    lockfile: self.lockfile,
                },
            ),
            Marker::PackageLock => Progress::Ask(
                Examination {
                    asking: if found {
                        Marker::NodeModules
                    } else {
                        Marker::YarnLock
                    },
                    git: self.git,
                    manifest: self.manifest,
                    lockfile: found,
                },
            ),
            Marker::YarnLock => Progress::Ask(
                Examination {
                    asking: Marker::NodeModules,
                    git: self.git,
                    manifest: self.manifest,
                    lockfile: found,
                },
            ),
            Marker::NodeModules => Progress::Done(
                verdict(self.git, self.manifest, self.lockfile, found),
            ),
        }
    }

    /// How many answers the examination needs at most before it is over.
    pub open spec fn remaining(self) -> nat {
        match self.asking {
            Marker::GitDir => 5,
            Marker::Manifest => 4,
            Marker::PackageLock => 3,
            Marker::YarnLock => 2,
            Marker::NodeModules => 1,
        }
    }

    /// The markers that the examination asks for, from here to its end, in a
    /// directory in which exactly the markers of `present` are found.
    pub open spec fn probes(self, present: Set<Marker>) -> Seq<Marker>
        decreases self.remaining(),
    {
        match self.spec_answer(present.contains(self.asking)) {
            Progress::Ask(next) => seq![self.asking] + next.probes(present),
            Progress::Done(_) => seq![self.asking],
        }
    }

    /// The classification that the examination ends with in a directory in
    /// which exactly the markers of `present` are found.
    pub open spec fn outcome(self, present: Set<Marker>) -> Project
        decreases self.remaining(),
    {
        match self.spec_answer(present.contains(self.asking)) {
            Progress::Ask(next) => next.outcome(present),
            Progress::Done(project) => project,
        }
    }

    /// Starts an examination.
    pub fn begin() -> (r: Examination)
        ensures
            r == Examination::spec_begin(),
    {
        Examination { asking: Marker::GitDir, git: false, manifest: false, lockfile: false }
    }

    /// The marker to look for next.
    pub fn marker(&self) -> (r: Marker)
        ensures
            r == self.asking,
    {
        self.asking
    }

    /// Takes the answer for the marker asked for: `found` tells whether an
    /// entry of that name and kind lies directly under the directory.
    pub fn answer(self, found: bool) -> (r: Progress)
        ensures
            r == self.spec_answer(found),
    {
        match self.asking {
            Marker::GitDir => Progress::Ask(
                Examination {
                    asking: Marker::Manifest,
                    git: found,
                    manifest: self.manifest,
                    lockfile: self.lockfile,
                },
            ),
            Marker::Manifest => Progress::Ask(
                Examination {
                    asking: Marker::PackageLock,
                    git: self.git,
                    manifest: found,
                    lockfile: self.lockfile,
                },
            ),
            Marker::PackageLock => {
                let asking = if found {
                    Marker::NodeModules
                } else {
                    Marker::YarnLock
                };
                Progress::Ask(
                    Examination { asking, git: self.git, manifest: self.manifest, lockfile: found },
                )
            },
            Marker::YarnLock => Progress::Ask(
                Examination {
                    asking: Marker::NodeModules,
                    git: self.git,
                    manifest: self.manifest,
                    lockfile: found,
                },
            ),
            Marker::NodeModules => Progress::Done(
                classify(self.git, self.manifest, self.lockfile, found),
            ),
        }
    }
}

/// A directory is classified as a project exactly when one of the markers is
/// found in it.
pub proof fn lemma_project_iff_marked(present: Set<Marker>)
    ensures
        classification(present).is_project() <==> exists|m: Marker| present.contains(m),
{
    if exists|m: Marker| present.contains(m) {
        let m = choose|m: Marker| present.contains(m);
        match m {
            Marker::GitDir => {},
            Marker::Manifest => {},
            Marker::PackageLock => {},
            Marker::YarnLock => {},
            Marker::NodeModules => {},
        }
    }
}

/// An examination that is answered truthfully ends with the directory's
/// classification, whatever is found.
pub proof fn lemma_examination_classifies(present: Set<Marker>)
    ensures
        Examination::spec_begin().outcome(present) == classification(present),
{
    reveal_with_fuel(Examination::outcome, 6);
}

/// The second lockfile is looked for only where the first is missing; every
/// other marker is always looked for, and none twice.
pub proof fn lemma_examination_probes(present: Set<Marker>)
    ensures
        Examination::spec_begin().probes(present) == if present.contains(Marker::PackageLock) {
            seq![Marker::GitDir, Marker::Manifest, Marker::PackageLock, Marker::NodeModules]
        } else {
            seq![
                Marker::GitDir,
                Marker::Manifest,
                Marker::PackageLock,
                Marker::YarnLock,
                Marker::NodeModules,
            ]
        },
{
    reveal_with_fuel(Examination::probes, 6);
}

} // verus!
