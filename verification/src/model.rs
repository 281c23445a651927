//! A directory tree as a value, and the walk over it.
//!
//! Nothing here runs. A tree says what a filesystem would answer, a world
//! answers the walker's actions from a tree, and a run lets the walker and a
//! world take turns. `visit` states the dialogue that a walk over a tree
//! comes to.

use vstd::prelude::*;

use crate::examine::{classification, Examination};
use crate::marker::Marker;
use crate::project::Project;
use crate::walk::{ActionView, EventView, WalkerView};

verus! {

/// What lies at a path.
pub enum Node {
    /// Anything but a directory: a file, a dangling link, nothing at all.
    Other,
    /// A directory.
    Dir {
        /// The markers that are found directly under it.
        present: Set<Marker>,
        /// Whether its listing can be opened.
        readable: bool,
        /// The entries that its listing hands out, in that order.
        entries: Seq<Entry>,
        /// Whether the listing ends after these entries. One that does not
        /// fails once they are handed out.
        complete: bool,
    },
}

/// An entry of a listing.
pub struct Entry {
    /// The entry's path.
    pub path: Seq<char>,
    /// What lies there.
    pub node: Node,
}

/// A listing that is open and how far it has been read.
pub struct Cursor {
    /// The directory that is listed.
    pub dir: Seq<char>,
    /// The entries that the listing hands out.
    pub entries: Seq<Entry>,
    /// How many of them it has handed out.
    pub next: nat,
    /// Whether it ends after the last of them.
    pub complete: bool,
}

/// The filesystem as the walker meets it.
pub struct World {
    /// The entry handed out last; at first, the root.
    pub focus: Entry,
    /// The open listings, outermost first.
    pub cursors: Seq<Cursor>,
}

impl World {
    /// Whether a directory lies at `path`. Only the path of the focus is
    /// known to the world: nothing lies anywhere else.
    pub open spec fn is_dir(self, path: Seq<char>) -> bool {
        path == self.focus.path && self.focus.node is Dir
    }

    /// The world and its answer after `action`.
    ///
    /// A question is answered for the path it names. A listing is opened
    /// where a readable directory lies. The innermost listing, if it is the
    /// one asked for, hands out its next entry, which becomes the focus, and
    /// is closed once it has none left.
    pub open spec fn respond(self, action: ActionView) -> (World, EventView) {
        match action {
            ActionView::Stat { path } => (self, EventView::Answer(self.is_dir(path))),
            ActionView::Probe { base, marker } => (
                self,
                EventView::Answer(self.is_dir(base) && self.focus.node->present.contains(marker)),
            ),
            ActionView::Open { path } => if self.is_dir(path) && self.focus.node->readable {
                (
                    World {
                        focus: self.focus,
                        cursors: self.cursors.push(
                            Cursor {
                                dir: path,
                                entries: self.focus.node->entries,
                                next: 0,
                                complete: self.focus.node->complete,
                            },
                        ),
                    },
                    EventView::Opened,
                )
            } else {
                (self, EventView::Failed)
            },
            ActionView::Next { dir } => if self.cursors.len() == 0 || self.cursors.last().dir
                != dir {
                (self, EventView::Failed)
            } else {
                let cursor = self.cursors.last();
                if cursor.next < cursor.entries.len() {
                    let entry = cursor.entries[cursor.next as int];
                    (
                        World {
                            focus: entry,
                            cursors: self.cursors.drop_last().push(
                                Cursor {
                                    dir: cursor.dir,
                                    entries: cursor.entries,
                                    next: cursor.next + 1,
                                    complete: cursor.complete,
                                },
                            ),
                        },
                        EventView::Entry(entry.path),
                    )
                } else {
                    (
                        World { focus: self.focus, cursors: self.cursors.drop_last() },
                        if cursor.complete {
                            EventView::End
                        } else {
                            EventView::Failed
                        },
                    )
                }
            },
            _ => (self, EventView::Done),
        }
    }
}

/// A walker, the world it walks, and the actions it has asked for so far.
pub struct Run {
    pub walker: WalkerView,
    pub world: World,
    pub log: Seq<ActionView>,
}

impl Run {
    /// The run of a walk over the tree `root`, which lies at `path`.
    pub open spec fn start(path: Seq<char>, root: Node) -> Run {
        Run {
            walker: WalkerView::start(path),
            world: World { focus: Entry { path, node: root }, cursors: Seq::empty() },
            log: Seq::empty(),
        }
    }

    /// One turn: the walker's action is logged and answered by the world,
    /// and the walker takes the answer. A walk that is over stays as it is.
    pub open spec fn advance(self) -> Run {
        if self.walker.stopped() {
            self
        } else {
            let action = self.walker.action();
            let (world, event) = self.world.respond(action);
            Run { walker: self.walker.step(event), world, log: self.log.push(action) }
        }
    }

    /// The run after `turns` turns.
    pub open spec fn after(self, turns: nat) -> Run
        decreases turns,
    {
        if turns == 0 {
            self
        } else {
            self.advance().after((turns - 1) as nat)
        }
    }
}

/// A stretch of a walk: the actions asked for, and whether the walk goes on
/// after them. It does not where a listing failed.
pub struct Trace {
    pub actions: Seq<ActionView>,
    pub ok: bool,
}

impl Trace {
    /// This stretch and then, if the walk goes on, `next`.
    pub open spec fn followed_by(self, next: Trace) -> Trace {
        if self.ok {
            Trace { actions: self.actions + next.actions, ok: next.ok }
        } else {
            self
        }
    }
}

/// The probes for `markers` under `base`, in order.
pub open spec fn probe_actions(base: Seq<char>, markers: Seq<Marker>) -> Seq<ActionView> {
    Seq::new(markers.len(), |i: int| ActionView::Probe { base, marker: markers[i] })
}

/// The visit of `path`, at which `node` lies.
///
/// What is no directory is left alone. A directory is examined; a project
/// is reported and nothing below it is touched; any other directory is
/// opened and listed.
pub open spec fn visit(path: Seq<char>, node: Node) -> Trace
    decreases node, 0nat,
{
    match node {
        Node::Other => Trace { actions: seq![ActionView::Stat { path }], ok: true },
        Node::Dir { present, readable, entries, complete } => {
            let examined = seq![ActionView::Stat { path }] + probe_actions(
                path,
                Examination::spec_begin().probes(present),
            );
            let project = classification(present);
            if project.is_project() {
                Trace { actions: examined.push(ActionView::Report { path, project }), ok: true }
            } else if !readable {
                Trace { actions: examined.push(ActionView::Open { path }), ok: false }
            } else {
                Trace { actions: examined.push(ActionView::Open { path }), ok: true }.followed_by(
                    list(path, entries, 0, complete),
                )
            }
        },
    }
}

/// What the walk does with one entry of the listing of `dir`: it takes the
/// entry and asks what it is; a directory is visited, anything else is dealt
/// with as a file.
pub open spec fn handle(dir: Seq<char>, entry: Entry) -> Trace
    decreases entry, 0nat,
{
    let taken = Trace {
        actions: seq![ActionView::Next { dir }, ActionView::Stat { path: entry.path }],
        ok: true,
    };
    match entry.node {
        Node::Other => Trace {
            actions: taken.actions.push(ActionView::File { path: entry.path }),
            ok: true,
        },
        Node::Dir { .. } => taken.followed_by(visit(entry.path, entry.node)),
    }
}

/// The listing of `dir` from its entry number `from` on: the entries are
/// handled one after the other, and after the last the listing is found
/// exhausted, or fails.
pub open spec fn list(dir: Seq<char>, entries: Seq<Entry>, from: nat, complete: bool) -> Trace
    decreases entries, entries.len() - from,
{
    if from >= entries.len() {
        Trace { actions: seq![ActionView::Next { dir }], ok: complete }
    } else {
        handle(dir, entries[from as int]).followed_by(list(dir, entries, from + 1, complete))
    }
}

/// What the walk does with the first `count` entries of the listing of
/// `dir`: each is handled once, in the order in which it is handed out.
pub open spec fn handled(dir: Seq<char>, entries: Seq<Entry>, count: nat) -> Seq<ActionView>
    decreases count,
{
    if count == 0 {
        Seq::empty()
    } else {
        handled(dir, entries, (count - 1) as nat) + handle(dir, entries[count - 1]).actions
    }
}

/// The reports among `actions`, in order: for each the path and what was
/// found there.
pub open spec fn reported(actions: Seq<ActionView>) -> Seq<(Seq<char>, Project)>
    decreases actions.len(),
{
    if actions.len() == 0 {
        Seq::empty()
    } else {
        let before = reported(actions.drop_last());
        match actions.last() {
            ActionView::Report { path, project } => before.push((path, project)),
            _ => before,
        }
    }
}

/// The projects of the tree `node` at `path`, as a walk meets them: the
/// directory itself if it is a project, else the projects below it, entry
/// by entry. Nothing is found in a directory that cannot be opened.
pub open spec fn projects(path: Seq<char>, node: Node) -> Seq<(Seq<char>, Project)>
    decreases node, 0nat,
{
    match node {
        Node::Other => Seq::empty(),
        Node::Dir { present, readable, entries, .. } => {
            let project = classification(present);
            if project.is_project() {
                seq![(path, project)]
            } else if !readable {
                Seq::empty()
            } else {
                projects_among(path, entries, 0)
            }
        },
    }
}

/// The projects below the entries of the listing of `dir` from entry number
/// `from` on, up to the first entry below which a listing fails.
pub open spec fn projects_among(dir: Seq<char>, entries: Seq<Entry>, from: nat) -> Seq<
    (Seq<char>, Project),
>
    decreases entries, entries.len() - from,
{
    if from >= entries.len() {
        Seq::empty()
    } else {
        let entry = entries[from as int];
        if handle(dir, entry).ok {
            projects_below(entry) + projects_among(dir, entries, from + 1)
        } else {
            projects_below(entry)
        }
    }
}

/// The projects at and below an entry.
pub open spec fn projects_below(entry: Entry) -> Seq<(Seq<char>, Project)>
    decreases entry, 0nat,
{
    projects(entry.path, entry.node)
}

} // verus!
