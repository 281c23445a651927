//! What holds of every walk.
//!
//! The first half shows that the walker, answered from a tree, asks for
//! exactly the dialogue that `visit` states for that tree. The second half
//! reads off that dialogue what a walk does and leaves alone.

use vstd::prelude::*;

use crate::examine::{
    classification, lemma_examination_classifies, lemma_examination_probes, Examination, Progress,
};
use crate::marker::Marker;
use crate::model::{
    handle, handled, list, probe_actions, projects, projects_among, projects_below, reported, visit,
    Cursor, Entry, Node, Run, Trace,
};
use crate::project::Project;
use crate::walk::{ActionView, Phase};

verus! {

proof fn lemma_after_succ(run: Run, turns: nat)
    ensures
        run.after(turns + 1) == run.after(turns).advance(),
    decreases turns,
{
    if turns == 0 {
        assert(run.after(1) == run.advance().after(0));
    } else {
        lemma_after_succ(run.advance(), (turns - 1) as nat);
    }
}

proof fn lemma_after_add(run: Run, first: nat, second: nat)
    ensures
        run.after(first + second) == run.after(first).after(second),
    decreases first,
{
    if first > 0 {
        lemma_after_add(run.advance(), (first - 1) as nat, second);
    }
}

proof fn lemma_stopped_stays(run: Run, turns: nat)
    requires
        run.walker.stopped(),
    ensures
        run.after(turns) == run,
    decreases turns,
{
    if turns > 0 {
        lemma_stopped_stays(run, (turns - 1) as nat);
    }
}

/// The phase that follows the examination `examination` of a directory
/// with the markers `present`.
spec fn examined_phase(examination: Examination, present: Set<Marker>) -> Phase {
    let project = examination.outcome(present);
    if project.is_project() {
        Phase::Reporting(project)
    } else {
        Phase::Opening
    }
}

proof fn lemma_examine(run: Run, examination: Examination, present: Set<Marker>) -> (turns: nat)
    requires
        run.walker.phase == Phase::Examining(examination),
        run.world.focus.path == run.walker.current,
        run.world.focus.node is Dir,
        run.world.focus.node->present == present,
    ensures
        run.after(turns).walker == run.walker.turn(examined_phase(examination, present)),
        run.after(turns).world == run.world,
        run.after(turns).log == run.log + probe_actions(
            run.walker.current,
            examination.probes(present),
        ),
    decreases examination.remaining(),
{
    let next = run.advance();
    let base = run.walker.current;
    assert(run.after(1) == next) by {
        lemma_after_succ(run, 0);
    }
    match examination.spec_answer(present.contains(examination.asking)) {
        Progress::Ask(follow) => {
            let rest = lemma_examine(next, follow, present);
            lemma_after_add(run, 1, rest);
            assert(run.log + probe_actions(base, examination.probes(present)) =~= next.log
                + probe_actions(base, follow.probes(present)));
            1 + rest
        },
        Progress::Done(_) => {
            assert(run.log + probe_actions(base, examination.probes(present)) =~= next.log);
            1
        },
    }
}

/// `end` is `run` after the stretch `trace`: the stretch is logged, and
/// the walk is given up or goes on with the listings `open` and `cursors`.
spec fn extends(
    run: Run,
    end: Run,
    trace: Trace,
    open: Seq<Seq<char>>,
    cursors: Seq<Cursor>,
) -> bool {
    &&& end.log == run.log + trace.actions
    &&& trace.ok ==> {
        &&& end.walker.open == open
        &&& end.world.cursors == cursors
        &&& end.walker.phase == if open.len() == 0 {
            Phase::Finished
        } else {
            Phase::Listing
        }
    }
    &&& !trace.ok ==> end.walker.phase == Phase::Failed
}

proof fn lemma_visit(run: Run, path: Seq<char>, node: Node) -> (turns: nat)
    requires
        run.walker.phase == Phase::Entering,
        run.walker.current == path,
        run.world.focus == (Entry { path, node }),
        run.walker.open.len() == run.world.cursors.len(),
    ensures
        extends(run, run.after(turns), visit(path, node), run.walker.open, run.world.cursors),
    decreases node, 0nat,
{
    let entered = run.advance();
    assert(run.after(1) == entered) by {
        lemma_after_succ(run, 0);
    }
    match node {
        Node::Other => {
            assert(entered.log =~= run.log + visit(path, node).actions);
            1
        },
        Node::Dir { present, readable, entries, complete } => {
            let begin = Examination::spec_begin();
            let probing = lemma_examine(entered, begin, present);
            let examined = entered.after(probing);
            lemma_after_add(run, 1, probing);
            lemma_examination_classifies(present);
            let project = classification(present);
            let acted = examined.advance();
            lemma_after_succ(run, 1 + probing);
            assert(run.after(1 + probing + 1) == acted);
            let head = seq![ActionView::Stat { path }] + probe_actions(
                path,
                begin.probes(present),
            );
            if project.is_project() {
                assert(acted.log =~= run.log + head.push(ActionView::Report { path, project }));
                1 + probing + 1
            } else if !readable {
                assert(acted.log =~= run.log + head.push(ActionView::Open { path }));
                1 + probing + 1
            } else {
                assert(acted.log =~= run.log + head.push(ActionView::Open { path }));
                let listing = lemma_list(acted, path, entries, 0, complete);
                lemma_after_add(run, 1 + probing + 1, listing);
                let end = acted.after(listing);
                assert(acted.walker.open.drop_last() =~= run.walker.open);
                assert(acted.world.cursors.drop_last() =~= run.world.cursors);
                assert(end.log =~= run.log + visit(path, node).actions);
                1 + probing + 1 + listing
            }
        },
    }
}

proof fn lemma_handle(run: Run, dir: Seq<char>, entry: Entry) -> (turns: nat)
    requires
        run.walker.phase == Phase::Listing,
        run.walker.open.len() > 0,
        run.walker.open.last() == dir,
        run.walker.open.len() == run.world.cursors.len(),
        run.world.cursors.last().dir == dir,
        run.world.cursors.last().next < run.world.cursors.last().entries.len(),
        run.world.cursors.last().entries[run.world.cursors.last().next as int] == entry,
    ensures
        extends(
            run,
            run.after(turns),
            handle(dir, entry),
            run.walker.open,
            run.world.cursors.drop_last().push(
                Cursor {
                    dir,
                    entries: run.world.cursors.last().entries,
                    next: run.world.cursors.last().next + 1,
                    complete: run.world.cursors.last().complete,
                },
            ),
        ),
    decreases entry, 0nat,
{
    let taken = run.advance();
    let sorted = taken.advance();
    assert(run.after(2) == sorted) by {
        lemma_after_succ(run, 0);
        lemma_after_succ(run, 1);
    }
    let asked = seq![ActionView::Next { dir }, ActionView::Stat { path: entry.path }];
    assert(sorted.log =~= run.log + asked);
    match entry.node {
        Node::Other => {
            let dealt = sorted.advance();
            lemma_after_succ(run, 2);
            assert(dealt.log =~= run.log + handle(dir, entry).actions);
            3
        },
        Node::Dir { .. } => {
            let visiting = lemma_visit(sorted, entry.path, entry.node);
            lemma_after_add(run, 2, visiting);
            let end = sorted.after(visiting);
            assert(end.log =~= run.log + handle(dir, entry).actions);
            2 + visiting
        },
    }
}

proof fn lemma_list(
    run: Run,
    dir: Seq<char>,
    entries: Seq<Entry>,
    from: nat,
    complete: bool,
) -> (turns: nat)
    requires
        run.walker.phase == Phase::Listing,
        run.walker.open.len() > 0,
        run.walker.open.last() == dir,
        run.walker.open.len() == run.world.cursors.len(),
        run.world.cursors.last() == (Cursor { dir, entries, next: from, complete }),
        from <= entries.len(),
    ensures
        extends(
            run,
            run.after(turns),
            list(dir, entries, from, complete),
            run.walker.open.drop_last(),
            run.world.cursors.drop_last(),
        ),
    decreases entries, entries.len() - from,
{
    if from >= entries.len() {
        let closed = run.advance();
        assert(run.after(1) == closed) by {
            lemma_after_succ(run, 0);
        }
        assert(closed.log =~= run.log + list(dir, entries, from, complete).actions);
        1
    } else {
        let entry = entries[from as int];
        let handling = lemma_handle(run, dir, entry);
        let handled = run.after(handling);
        if handle(dir, entry).ok {
            let rest = lemma_list(handled, dir, entries, from + 1, complete);
            lemma_after_add(run, handling, rest);
            let end = handled.after(rest);
            assert(handled.world.cursors.drop_last() =~= run.world.cursors.drop_last());
            assert(end.log =~= run.log + list(dir, entries, from, complete).actions);
            handling + rest
        } else {
            handling
        }
    }
}

/// A walk over a tree comes to an end, and by then it has asked for exactly
/// the actions of `visit`, in that order. It ends as finished unless a
/// listing failed.
pub proof fn lemma_walk(path: Seq<char>, root: Node) -> (turns: nat)
    ensures
        Run::start(path, root).after(turns).log == visit(path, root).actions,
        Run::start(path, root).after(turns).walker.phase == if visit(path, root).ok {
            Phase::Finished
        } else {
            Phase::Failed
        },
{
    let run = Run::start(path, root);
    let turns = lemma_visit(run, path, root);
    assert(run.log + visit(path, root).actions =~= visit(path, root).actions);
    turns
}

/// Two walks over the same tree do the same: however many turns a walk is
/// given, once it is over it is where every other walk over that tree ends.
pub proof fn lemma_walk_repeatable(path: Seq<char>, root: Node, first: nat, second: nat)
    requires
        Run::start(path, root).after(first).walker.stopped(),
        Run::start(path, root).after(second).walker.stopped(),
    ensures
        Run::start(path, root).after(first) == Run::start(path, root).after(second),
{
    let run = Run::start(path, root);
    if first <= second {
        lemma_after_add(run, first, (second - first) as nat);
        lemma_stopped_stays(run.after(first), (second - first) as nat);
    } else {
        lemma_after_add(run, second, (first - second) as nat);
        lemma_stopped_stays(run.after(second), (first - second) as nat);
    }
}

/// Whenever a walk over a tree is over, its log is the dialogue of `visit`.
pub proof fn lemma_finished_walk(path: Seq<char>, root: Node, turns: nat)
    requires
        Run::start(path, root).after(turns).walker.stopped(),
    ensures
        Run::start(path, root).after(turns).log == visit(path, root).actions,
        Run::start(path, root).after(turns).walker.phase is Finished <==> visit(path, root).ok,
{
    let enough = lemma_walk(path, root);
    lemma_walk_repeatable(path, root, turns, enough);
}

/// A project is reported and left alone: after its examination the walk
/// asks for the report and for nothing more. What lies below the project
/// has no part in the dialogue, so none of it is visited or reported,
/// whatever markers it holds.
pub proof fn lemma_project_is_left_alone(
    path: Seq<char>,
    present: Set<Marker>,
    readable: bool,
    entries: Seq<Entry>,
    complete: bool,
)
    requires
        classification(present).is_project(),
    ensures
        visit(path, Node::Dir { present, readable, entries, complete }) == (Trace {
            actions: (seq![ActionView::Stat { path }] + probe_actions(
                path,
                Examination::spec_begin().probes(present),
            )).push(ActionView::Report { path, project: classification(present) }),
            ok: true,
        }),
        visit(path, Node::Dir { present, readable, entries, complete }) == visit(
            path,
            Node::Dir { present, readable: false, entries: Seq::empty(), complete: false },
        ),
{
}

/// A directory that is no project is opened and listed from its first
/// entry on.
pub proof fn lemma_other_directory_is_listed(
    path: Seq<char>,
    present: Set<Marker>,
    entries: Seq<Entry>,
    complete: bool,
)
    requires
        !classification(present).is_project(),
    ensures
        visit(path, Node::Dir { present, readable: true, entries, complete }) == (Trace {
            actions: (seq![ActionView::Stat { path }] + probe_actions(
                path,
                Examination::spec_begin().probes(present),
            )).push(ActionView::Open { path }),
            ok: true,
        }).followed_by(list(path, entries, 0, complete)),
{
}

/// An entry that is a directory is visited as soon as it is handed out:
/// the walk takes it, asks what it is, and goes through its whole visit.
pub proof fn lemma_child_directory_is_visited(dir: Seq<char>, entry: Entry)
    requires
        entry.node is Dir,
    ensures
        handle(dir, entry).actions == seq![
            ActionView::Next { dir },
            ActionView::Stat { path: entry.path },
        ] + visit(entry.path, entry.node).actions,
        handle(dir, entry).ok == visit(entry.path, entry.node).ok,
{
}

/// Every entry of a listing is handled exactly once and in its turn: as
/// long as no listing fails, the dialogue of a listing is the handling of
/// its first entries, one after the other, and then the listing of the rest.
pub proof fn lemma_every_entry_in_turn(
    dir: Seq<char>,
    entries: Seq<Entry>,
    complete: bool,
    count: nat,
)
    requires
        count <= entries.len(),
        forall|i: int| 0 <= i < count ==> (#[trigger] handle(dir, entries[i])).ok,
    ensures
        list(dir, entries, 0, complete).actions == handled(dir, entries, count) + list(
            dir,
            entries,
            count,
            complete,
        ).actions,
        list(dir, entries, 0, complete).ok == list(dir, entries, count, complete).ok,
    decreases count,
{
    if count == 0 {
        assert(list(dir, entries, 0, complete).actions =~= handled(dir, entries, 0) + list(
            dir,
            entries,
            0,
            complete,
        ).actions);
    } else {
        let before = (count - 1) as nat;
        lemma_every_entry_in_turn(dir, entries, complete, before);
        assert(handle(dir, entries[before as int]).ok);
        assert(list(dir, entries, before, complete).actions == handle(
            dir,
            entries[before as int],
        ).actions + list(dir, entries, count, complete).actions);
        assert(list(dir, entries, 0, complete).actions =~= handled(dir, entries, count) + list(
            dir,
            entries,
            count,
            complete,
        ).actions);
    }
}

/// The walk over a directory without markers and without entries goes
/// through: the directory is examined, opened and found empty, and nothing
/// is reported.
pub proof fn lemma_empty_root(path: Seq<char>) -> (turns: nat)
    ensures
        Run::start(
            path,
            Node::Dir {
                present: Set::empty(),
                readable: true,
                entries: Seq::empty(),
                complete: true,
            },
        ).after(turns).log == seq![
            ActionView::Stat { path },
            ActionView::Probe { base: path, marker: Marker::GitDir },
            ActionView::Probe { base: path, marker: Marker::Manifest },
            ActionView::Probe { base: path, marker: Marker::PackageLock },
            ActionView::Probe { base: path, marker: Marker::YarnLock },
            ActionView::Probe { base: path, marker: Marker::NodeModules },
            ActionView::Open { path },
            ActionView::Next { dir: path },
        ],
        Run::start(
            path,
            Node::Dir {
                present: Set::empty(),
                readable: true,
                entries: Seq::empty(),
                complete: true,
            },
        ).after(turns).walker.phase == Phase::Finished,
{
    let present = Set::<Marker>::empty();
    let root = Node::Dir { present, readable: true, entries: Seq::empty(), complete: true };
    let turns = lemma_walk(path, root);
    lemma_examination_probes(present);
    assert(visit(path, root).actions =~= seq![
        ActionView::Stat { path },
        ActionView::Probe { base: path, marker: Marker::GitDir },
        ActionView::Probe { base: path, marker: Marker::Manifest },
        ActionView::Probe { base: path, marker: Marker::PackageLock },
        ActionView::Probe { base: path, marker: Marker::YarnLock },
        ActionView::Probe { base: path, marker: Marker::NodeModules },
        ActionView::Open { path },
        ActionView::Next { dir: path },
    ]);
    turns
}

/// The walk from a path at which no directory lies is over after one
/// question: nothing is reported and nothing fails.
pub proof fn lemma_no_directory(path: Seq<char>)
    ensures
        Run::start(path, Node::Other).after(1).log == seq![ActionView::Stat { path }],
        Run::start(path, Node::Other).after(1).walker.phase == Phase::Finished,
{
    let run = Run::start(path, Node::Other);
    lemma_after_succ(run, 0);
    assert(run.advance().log =~= seq![ActionView::Stat { path }]);
}

/// Where every entry of a listing is handled without a failure, the
/// dialogue of the listing is the handling of all its entries, one after the
/// other, and the question that finds it exhausted.
pub proof fn lemma_whole_listing(dir: Seq<char>, entries: Seq<Entry>, complete: bool)
    requires
        forall|i: int| 0 <= i < entries.len() ==> (#[trigger] handle(dir, entries[i])).ok,
    ensures
        list(dir, entries, 0, complete) == (Trace {
            actions: handled(dir, entries, entries.len()).push(ActionView::Next { dir }),
            ok: complete,
        }),
{
    lemma_every_entry_in_turn(dir, entries, complete, entries.len());
    assert(list(dir, entries, 0, complete).actions =~= handled(dir, entries, entries.len()).push(
        ActionView::Next { dir },
    ));
}

proof fn lemma_reported_add(first: Seq<ActionView>, second: Seq<ActionView>)
    ensures
        reported(first + second) == reported(first) + reported(second),
    decreases second.len(),
{
    if second.len() == 0 {
        assert(first + second =~= first);
        assert(reported(first) + reported(second) =~= reported(first));
    } else {
        assert((first + second).drop_last() =~= first + second.drop_last());
        lemma_reported_add(first, second.drop_last());
        assert(reported(first + second) =~= reported(first) + reported(second));
    }
}

proof fn lemma_reported_probes(base: Seq<char>, markers: Seq<Marker>)
    ensures
        reported(probe_actions(base, markers)) == Seq::<(Seq<char>, Project)>::empty(),
    decreases markers.len(),
{
    if markers.len() > 0 {
        assert(probe_actions(base, markers).drop_last() =~= probe_actions(
            base,
            markers.drop_last(),
        ));
        lemma_reported_probes(base, markers.drop_last());
    }
}

proof fn lemma_reported_one(action: ActionView)
    ensures
        reported(seq![action]) == match action {
            ActionView::Report { path, project } => seq![(path, project)],
            _ => Seq::empty(),
        },
{
    assert(seq![action].drop_last() =~= Seq::<ActionView>::empty());
    assert(reported(seq![action].drop_last()) =~= Seq::empty());
    assert(reported(seq![action]) =~= match action {
        ActionView::Report { path, project } => seq![(path, project)],
        _ => Seq::empty(),
    });
}

/// What a walk reports is what `projects` finds in the tree: each project
/// that lies under no other project, in the order of the walk, up to the
/// first listing that fails.
pub proof fn lemma_reports(path: Seq<char>, node: Node)
    ensures
        reported(visit(path, node).actions) == projects(path, node),
    decreases node, 0nat,
{
    let stat = ActionView::Stat { path };
    lemma_reported_one(stat);
    match node {
        Node::Other => {},
        Node::Dir { present, readable, entries, complete } => {
            let probes = probe_actions(path, Examination::spec_begin().probes(present));
            let project = classification(present);
            lemma_reported_probes(path, Examination::spec_begin().probes(present));
            lemma_reported_add(seq![stat], probes);
            let examined = seq![stat] + probes;
            assert(reported(examined) =~= Seq::empty());
            if project.is_project() {
                let report = ActionView::Report { path, project };
                lemma_reported_one(report);
                lemma_reported_add(examined, seq![report]);
                assert(examined.push(report) =~= examined + seq![report]);
                assert(reported(examined.push(report)) =~= seq![(path, project)]);
            } else {
                let open = ActionView::Open { path };
                lemma_reported_one(open);
                lemma_reported_add(examined, seq![open]);
                assert(examined.push(open) =~= examined + seq![open]);
                assert(reported(examined.push(open)) =~= Seq::empty());
                if readable {
                    lemma_reports_among(path, entries, 0, complete);
                    lemma_reported_add(
                        examined.push(open),
                        list(path, entries, 0, complete).actions,
                    );
                    assert(reported(visit(path, node).actions) =~= projects(path, node));
                }
            }
        },
    }
}

proof fn lemma_reports_below(dir: Seq<char>, entry: Entry)
    ensures
        reported(handle(dir, entry).actions) == projects_below(entry),
    decreases entry, 0nat,
{
    let next = ActionView::Next { dir };
    let stat = ActionView::Stat { path: entry.path };
    let taken = seq![next, stat];
    lemma_reported_one(next);
    lemma_reported_one(stat);
    lemma_reported_add(seq![next], seq![stat]);
    assert(taken =~= seq![next] + seq![stat]);
    assert(reported(taken) =~= Seq::empty());
    match entry.node {
        Node::Other => {
            let file = ActionView::File { path: entry.path };
            lemma_reported_one(file);
            lemma_reported_add(taken, seq![file]);
            assert(taken.push(file) =~= taken + seq![file]);
            assert(reported(handle(dir, entry).actions) =~= projects_below(entry));
        },
        Node::Dir { .. } => {
            lemma_reports(entry.path, entry.node);
            lemma_reported_add(taken, visit(entry.path, entry.node).actions);
            assert(reported(handle(dir, entry).actions) =~= projects_below(entry));
        },
    }
}

proof fn lemma_reports_among(dir: Seq<char>, entries: Seq<Entry>, from: nat, complete: bool)
    ensures
        reported(list(dir, entries, from, complete).actions) == projects_among(
            dir,
            entries,
            from,
        ),
    decreases entries, entries.len() - from,
{
    if from >= entries.len() {
        lemma_reported_one(ActionView::Next { dir });
    } else {
        let entry = entries[from as int];
        lemma_reports_below(dir, entry);
        if handle(dir, entry).ok {
            lemma_reports_among(dir, entries, from + 1, complete);
            lemma_reported_add(
                handle(dir, entry).actions,
                list(dir, entries, from + 1, complete).actions,
            );
        }
    }
}

/// Whenever a walk over a tree is over, it has reported the projects of the
/// tree, each once and in order.
pub proof fn lemma_finished_walk_reports(path: Seq<char>, root: Node, turns: nat)
    requires
        Run::start(path, root).after(turns).walker.stopped(),
    ensures
        reported(Run::start(path, root).after(turns).log) == projects(path, root),
{
    lemma_finished_walk(path, root, turns);
    lemma_reports(path, root);
}

} // verus!
