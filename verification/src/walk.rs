//! The walk over a directory tree, as a machine.
//!
//! The walker never touches the disk. It names one action at a time; its
//! caller performs the action and hands back what came of it as an event.
//! The walk is depth first: a directory is examined before anything below
//! it, a project is reported and left, any other directory is listed and
//! each entry dealt with as it is handed out.

use vstd::prelude::*;

use crate::examine::{Examination, Progress};
use crate::marker::Marker;
use crate::project::Project;

verus! {

/// What the walker is waiting for.
#[derive(Clone, Copy, Debug, PartialEq, Eq, Structural)]
pub enum Phase {
    /// Whether the current path is a directory, before it is examined.
    Entering,
    /// The answer for one marker of the current directory.
    Examining(Examination),
    /// The report on the current directory to be delivered.
    Reporting(Project),
    /// The listing of the current directory to be opened.
    Opening,
    /// The next entry of the innermost open listing.
    Listing,
    /// Whether the entry just handed out is a directory.
    Sorting,
    /// The file just handed out to be dealt with.
    Visiting,
    /// Nothing: the walk went through.
    Finished,
    /// Nothing: a listing failed and the walk was given up.
    Failed,
}

/// What came of the action that the walker asked for.
#[derive(Debug, PartialEq, Eq)]
pub enum Event {
    /// The answer to a yes-or-no question.
    Answer(bool),
    /// The listing was opened.
    Opened,
    /// The listing handed out an entry, with this path.
    Entry(String),
    /// The listing is exhausted.
    End,
    /// The listing could not be opened or read on.
    Failed,
    /// The report was delivered or the file dealt with.
    Done,
}

/// An event, with texts as sequences of characters.
pub enum EventView {
    Answer(bool),
    Opened,
    Entry(Seq<char>),
    End,
    Failed,
    Done,
}

impl View for Event {
    type V = EventView;

    open spec fn view(&self) -> EventView {
        match self {
            Event::Answer(found) => EventView::Answer(*found),
            Event::Opened => EventView::Opened,
            Event::Entry(path) => EventView::Entry(path@),
            Event::End => EventView::End,
            Event::Failed => EventView::Failed,
            Event::Done => EventView::Done,
        }
    }
}

/// What the walker asks its caller to do.
#[derive(Debug, PartialEq, Eq)]
pub enum Action {
    /// Tell whether `path` is a directory. Answered by `Event::Answer`.
    Stat { path: String },
    /// Tell whether `marker` lies directly under `base`, as an entry of the
    /// marker's name and kind. A path that cannot be inspected counts as
    /// absent. Answered by `Event::Answer`.
    Probe { base: String, marker: Marker },
    /// Open the listing of `path`. Answered by `Event::Opened` or
    /// `Event::Failed`.
    Open { path: String },
    /// Hand out the next entry of the listing of `dir`, the innermost one
    /// that is open. Answered by `Event::Entry`, by `Event::End`, which also
    /// closes the listing, or by `Event::Failed`.
    Next { dir: String },
    /// Report the project found at `path`. Answered by `Event::Done`.
    Report { path: String, project: Project },
    /// Deal with the entry at `path`, which is no directory. Answered by
    /// `Event::Done`.
    File { path: String },
    /// Stop: the walk went through.
    Finish,
    /// Stop: a listing failed.
    Fail,
}

/// An action, with texts as sequences of characters.
pub enum ActionView {
    Stat { path: Seq<char> },
    Probe { base: Seq<char>, marker: Marker },
    Open { path: Seq<char> },
    Next { dir: Seq<char> },
    Report { path: Seq<char>, project: Project },
    File { path: Seq<char> },
    Finish,
    Fail,
}

impl View for Action {
    type V = ActionView;

    open spec fn view(&self) -> ActionView {
        match self {
            Action::Stat { path } => ActionView::Stat { path: path@ },
            Action::Probe { base, marker } => ActionView::Probe { base: base@, marker: *marker },
            Action::Open { path } => ActionView::Open { path: path@ },
            Action::Next { dir } => ActionView::Next { dir: dir@ },
            Action::Report { path, project } => ActionView::Report {
                path: path@,
                project: *project,
            },
            Action::File { path } => ActionView::File { path: path@ },
            Action::Finish => ActionView::Finish,
            Action::Fail => ActionView::Fail,
        }
    }
}

/// The state of a walk.
pub struct WalkerView {
    /// The directories whose listings are open, outermost first.
    pub open: Seq<Seq<char>>,
    /// The path that the walk is dealing with.
    pub current: Seq<char>,
    /// What the walk is waiting for.
    pub phase: Phase,
}

impl WalkerView {
    /// The walk over the tree at `root`, before its first action.
    pub open spec fn start(root: Seq<char>) -> WalkerView {
        WalkerView { open: Seq::empty(), current: root, phase: Phase::Entering }
    }

    /// While an entry is waited for, a listing is open.
    pub open spec fn wf(self) -> bool {
        self.phase is Listing ==> self.open.len() > 0
    }

    /// The walk is over.
    pub open spec fn stopped(self) -> bool {
        self.phase is Finished || self.phase is Failed
    }

    /// The action that the walk is waiting on.
    pub open spec fn action(self) -> ActionView {
        match self.phase {
            Phase::Entering => ActionView::Stat { path: self.current },
            Phase::Examining(examination) => ActionView::Probe {
                base: self.current,
                marker: examination.asking,
            },
            Phase::Reporting(project) => ActionView::Report { path: self.current, project },
            Phase::Opening => ActionView::Open { path: self.current },
            Phase::Listing => ActionView::Next { dir: self.open.last() },
            Phase::Sorting => ActionView::Stat { path: self.current },
            Phase::Visiting => ActionView::File { path: self.current },
            Phase::Finished => ActionView::Finish,
            Phase::Failed => ActionView::Fail,
        }
    }

    /// The walk once it is done with the current path: it goes on with the
    /// innermost open listing, and is over where none is open.
    pub open spec fn resume(self) -> WalkerView {
        WalkerView {
            open: self.open,
            current: self.current,
            phase: if self.open.len() == 0 {
                Phase::Finished
            } else {
                Phase::Listing
            },
        }
    }

    /// The walk in another phase.
    pub open spec fn turn(self, phase: Phase) -> WalkerView {
        WalkerView { open: self.open, current: self.current, phase }
    }

    /// The walk after `event`.
    ///
    /// An event that does not answer the pending action changes nothing, and
    /// a walk that is over stays as it is.
    pub open spec fn step(self, event: EventView) -> WalkerView {
        match (self.phase, event) {
            (Phase::Entering, EventView::Answer(is_dir)) => if is_dir {
                self.turn(Phase::Examining(Examination::spec_begin()))
            } else {
                self.resume()
            },
            (Phase::Examining(examination), EventView::Answer(found)) => {
                match examination.spec_answer(found) {
                    Progress::Ask(next) => self.turn(Phase::Examining(next)),
                    Progress::Done(project) => if project.is_project() {
                        self.turn(Phase::Reporting(project))
                    } else {
                        self.turn(Phase::Opening)
                    },
                }
            },
            (Phase::Reporting(_), EventView::Done) => self.resume(),
            (Phase::Opening, EventView::Opened) => WalkerView {
                open: self.open.push(self.current),
                current: self.current,
                phase: Phase::Listing,
            },
            (Phase::Opening, EventView::Failed) => self.turn(Phase::Failed),
            (Phase::Listing, EventView::Entry(path)) => WalkerView {
                open: self.open,
                current: path,
                phase: Phase::Sorting,
            },
            (Phase::Listing, EventView::End) => WalkerView {
                open: self.open.drop_last(),
                current: self.current,
                phase: self.phase,
            }.resume(),
            (Phase::Listing, EventView::Failed) => self.turn(Phase::Failed),
            (Phase::Sorting, EventView::Answer(is_dir)) => if is_dir {
                self.turn(Phase::Entering)
            } else {
                self.turn(Phase::Visiting)
            },
            (Phase::Visiting, EventView::Done) => self.resume(),
            _ => self,
        }
    }
}

/// No event takes a walk out of the states in which, while an entry is
/// waited for, a listing is open.
pub proof fn lemma_step_keeps_wf(walker: WalkerView, event: EventView)
    requires
        walker.wf(),
    ensures
        walker.step(event).wf(),
{
}

/// A walk that is over stays over, and as it is, whatever it is told.
pub proof fn lemma_stopped_for_good(walker: WalkerView, event: EventView)
    requires
        walker.stopped(),
    ensures
        walker.step(event) == walker,
{
}

/// A walk over a directory tree.
pub struct Walker {
    open: Vec<String>,
    current: String,
    phase: Phase,
}

impl View for Walker {
    type V = WalkerView;

    closed spec fn view(&self) -> WalkerView {
        WalkerView {
            open: self.open@.map_values(|path: String| path@),
            current: self.current@,
            phase: self.phase,
        }
    }
}

impl Walker {
    /// While an entry is waited for, a listing is open.
    #[verifier::type_invariant]
    spec fn inv(self) -> bool {
        self.phase is Listing ==> self.open.len() > 0
    }

    /// Starts a walk over the tree at `root`.
    pub fn new(root: String) -> (r: Walker)
        ensures
            r@ == WalkerView::start(root@),
            r@.wf(),
    {
        let walker = Walker { open: Vec::new(), current: root, phase: Phase::Entering };
        assert(walker@.open =~= Seq::empty());
        walker
    }

    /// What the walker is waiting for.
    pub fn phase(&self) -> (r: Phase)
        ensures
            r == self@.phase,
    {
        self.phase
    }

    /// The action that the walker is waiting on. It stays the same until an
    /// event answers it.
    pub fn action(&self) -> (r: Action)
        ensures
            r@ == self@.action(),
            self@.wf(),
    {
        proof {
            use_type_invariant(self);
        }
        match self.phase {
            Phase::Entering => Action::Stat { path: self.current.clone() },
            Phase::Examining(examination) => Action::Probe {
                base: self.current.clone(),
                marker: examination.marker(),
            },
            Phase::Reporting(project) => Action::Report { path: self.current.clone(), project },
            Phase::Opening => Action::Open { path: self.current.clone() },
            Phase::Listing => {
                let innermost: usize = self.open.len() - 1;
                Action::Next { dir: self.open[innermost].clone() }
            },
            Phase::Sorting => Action::Stat { path: self.current.clone() },
            Phase::Visiting => Action::File { path: self.current.clone() },
            Phase::Finished => Action::Finish,
            Phase::Failed => Action::Fail,
        }
    }

    /// The walker that goes on with the innermost open listing, or is done
    /// where none is open.
    fn resumed(open: Vec<String>, current: String) -> (r: Walker)
        ensures
            r.open == open,
            r.current == current,
            r.phase == if open.len() == 0 {
                Phase::Finished
            } else {
                Phase::Listing
            },
    {
        if open.len() == 0 {
            Walker { open, current, phase: Phase::Finished }
        } else {
            Walker { open, current, phase: Phase::Listing }
        }
    }

    /// The walker after what came of the pending action.
    pub fn step(self, event: Event) -> (next: Walker)
        ensures
            next@ == self@.step(event@),
            next@.wf(),
    {
        proof {
            use_type_invariant(&self);
        }
        let Walker { mut open, current, phase } = self;
        match phase {
            Phase::Entering => match event {
                Event::Answer(is_dir) => {
                    if is_dir {
                        Walker { open, current, phase: Phase::Examining(Examination::begin()) }
                    } else {
                        Walker::resumed(open, current)
                    }
                },
                _ => Walker { open, current, phase },
            },
            Phase::Examining(examination) => match event {
                Event::Answer(found) => {
                    match examination.answer(found) {
                        Progress::Ask(follow) => Walker {
                            open,
                            current,
                            phase: Phase::Examining(follow),
                        },
                        Progress::Done(project) => {
                            if project.is_project() {
                                Walker { open, current, phase: Phase::Reporting(project) }
                            } else {
                                Walker { open, current, phase: Phase::Opening }
                            }
                        },
                    }
                },
                _ => Walker { open, current, phase },
            },
            Phase::Reporting(_) => match event {
                Event::Done => Walker::resumed(open, current),
                _ => Walker { open, current, phase },
            },
            Phase::Opening => match event {
                Event::Opened => {
                    open.push(current.clone());
                    let next = Walker { open, current, phase: Phase::Listing };
                    assert(next@.open =~= self@.open.push(self@.current));
                    next
                },
                Event::Failed => Walker { open, current, phase: Phase::Failed },
                _ => Walker { open, current, phase },
            },
            Phase::Listing => match event {
                Event::Entry(path) => Walker { open, current: path, phase: Phase::Sorting },
                Event::End => {
                    open.pop();
                    let next = Walker::resumed(open, current);
                    assert(next@.open =~= self@.open.drop_last());
                    next
                },
                Event::Failed => Walker { open, current, phase: Phase::Failed },
                _ => Walker { open, current, phase },
            },
            Phase::Sorting => match event {
                Event::Answer(is_dir) => {
                    if is_dir {
                        Walker { open, current, phase: Phase::Entering }
                    } else {
                        Walker { open, current, phase: Phase::Visiting }
                    }
                },
                _ => Walker { open, current, phase },
            },
            Phase::Visiting => match event {
                Event::Done => Walker::resumed(open, current),
                _ => Walker { open, current, phase },
            },
            Phase::Finished => Walker { open, current, phase },
            Phase::Failed => Walker { open, current, phase },
        }
    }
}

} // verus!
