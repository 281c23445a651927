use project_finder::examine::{classify, Examination, Progress};
use project_finder::marker::{EntryKind, Marker};
use project_finder::project::{Git, Project, ProjectKind};

const MARKERS: [Marker; 5] = [
    Marker::GitDir,
    Marker::Manifest,
    Marker::PackageLock,
    Marker::YarnLock,
    Marker::NodeModules,
];

/// Runs an examination that is told the truth about `present`, and returns
/// the markers it asked for and the classification it ended with.
fn examine(present: &[Marker]) -> (Vec<Marker>, Project) {
    let mut asked: Vec<Marker> = Vec::new();
    let mut examination = Examination::begin();
    loop {
        let marker = examination.marker();
        asked.push(marker);
        match examination.answer(present.contains(&marker)) {
            Progress::Ask(next) => examination = next,
            Progress::Done(project) => return (asked, project),
        }
    }
}

fn subset(bits: u32) -> Vec<Marker> {
    let mut chosen: Vec<Marker> = Vec::new();
    let mut index: usize = 0;
    while index < MARKERS.len() {
        if bits & (1u32 << index) != 0 {
            chosen.push(MARKERS[index]);
        }
        index += 1;
    }
    chosen
}

#[test]
fn marker_names_and_kinds() {
    assert_eq!(Marker::GitDir.name(), ".git");
    assert_eq!(Marker::Manifest.name(), "package.json");
    assert_eq!(Marker::PackageLock.name(), "package-lock.json");
    assert_eq!(Marker::YarnLock.name(), "yarn.lock");
    assert_eq!(Marker::NodeModules.name(), "node_modules");
    assert_eq!(Marker::GitDir.kind(), EntryKind::Dir);
    assert_eq!(Marker::Manifest.kind(), EntryKind::File);
    assert_eq!(Marker::PackageLock.kind(), EntryKind::File);
    assert_eq!(Marker::YarnLock.kind(), EntryKind::File);
    assert_eq!(Marker::NodeModules.kind(), EntryKind::Dir);
}

#[test]
fn is_project_needs_one_fact() {
    let git = Git { clean: true, nosync: true };
    let node = ProjectKind::NodeJS { installed: false, lockfile: false };
    assert!(!Project { git: None, kind: None }.is_project());
    assert!(Project { git: Some(git), kind: None }.is_project());
    assert!(Project { git: None, kind: Some(node) }.is_project());
    assert!(Project { git: Some(git), kind: Some(node) }.is_project());
    assert!(Project { git: None, kind: Some(ProjectKind::Rust { installed: false }) }.is_project());
}

#[test]
fn classify_nothing_found() {
    assert_eq!(classify(false, false, false, false), Project { git: None, kind: None });
}

#[test]
fn classify_git_is_recorded_clean_and_unsynced() {
    assert_eq!(
        classify(true, false, false, false),
        Project { git: Some(Git { clean: true, nosync: true }), kind: None }
    );
}

#[test]
fn classify_manifest_alone_makes_a_node_project() {
    assert_eq!(
        classify(false, true, false, false),
        Project {
            git: None,
            kind: Some(ProjectKind::NodeJS { installed: false, lockfile: false }),
        }
    );
}

#[test]
fn classify_lockfile_alone_makes_a_node_project() {
    assert_eq!(
        classify(false, false, true, false),
        Project { git: None, kind: Some(ProjectKind::NodeJS { installed: false, lockfile: true }) }
    );
}

#[test]
fn classify_modules_alone_make_a_node_project() {
    assert_eq!(
        classify(false, false, false, true),
        Project { git: None, kind: Some(ProjectKind::NodeJS { installed: true, lockfile: false }) }
    );
}

#[test]
fn classify_everything_found() {
    assert_eq!(
        classify(true, true, true, true),
        Project {
            git: Some(Git { clean: true, nosync: true }),
            kind: Some(ProjectKind::NodeJS { installed: true, lockfile: true }),
        }
    );
}

#[test]
fn classify_never_gives_the_rust_kind() {
    let mut bits: u32 = 0;
    while bits < 16 {
        let project = classify(bits & 1 != 0, bits & 2 != 0, bits & 4 != 0, bits & 8 != 0);
        assert!(!matches!(project.kind, Some(ProjectKind::Rust { .. })));
        bits += 1;
    }
}

#[test]
fn examination_starts_with_version_control() {
    let examination = Examination::begin();
    assert_eq!(examination.marker(), Marker::GitDir);
    assert_eq!(
        examination,
        Examination { asking: Marker::GitDir, git: false, manifest: false, lockfile: false }
    );
}

#[test]
fn examination_asks_for_all_five_when_nothing_is_found() {
    let (asked, project) = examine(&[]);
    assert_eq!(asked, MARKERS.to_vec());
    assert_eq!(project, Project { git: None, kind: None });
}

#[test]
fn examination_skips_yarn_lock_after_package_lock() {
    let (asked, project) = examine(&[Marker::PackageLock, Marker::YarnLock]);
    assert_eq!(
        asked,
        vec![Marker::GitDir, Marker::Manifest, Marker::PackageLock, Marker::NodeModules]
    );
    assert_eq!(
        project,
        Project { git: None, kind: Some(ProjectKind::NodeJS { installed: false, lockfile: true }) }
    );
}

#[test]
fn examination_finds_yarn_lock_without_package_lock() {
    let (asked, project) = examine(&[Marker::YarnLock]);
    assert_eq!(asked, MARKERS.to_vec());
    assert_eq!(
        project,
        Project { git: None, kind: Some(ProjectKind::NodeJS { installed: false, lockfile: true }) }
    );
}

#[test]
fn examination_step_by_step() {
    let first = Examination::begin();
    let second = match first.answer(true) {
        Progress::Ask(next) => next,
        Progress::Done(_) => panic!("over after one answer"),
    };
    assert_eq!(
        second,
        Examination { asking: Marker::Manifest, git: true, manifest: false, lockfile: false }
    );
    let third = match second.answer(false) {
        Progress::Ask(next) => next,
        Progress::Done(_) => panic!("over after two answers"),
    };
    assert_eq!(
        third,
        Examination { asking: Marker::PackageLock, git: true, manifest: false, lockfile: false }
    );
    let fourth = match third.answer(false) {
        Progress::Ask(next) => next,
        Progress::Done(_) => panic!("over after three answers"),
    };
    assert_eq!(fourth.marker(), Marker::YarnLock);
    let fifth = match fourth.answer(true) {
        Progress::Ask(next) => next,
        Progress::Done(_) => panic!("over after four answers"),
    };
    assert_eq!(
        fifth,
        Examination { asking: Marker::NodeModules, git: true, manifest: false, lockfile: true }
    );
    assert_eq!(
        fifth.answer(true),
        Progress::Done(Project {
            git: Some(Git { clean: true, nosync: true }),
            kind: Some(ProjectKind::NodeJS { installed: true, lockfile: true }),
        })
    );
}

#[test]
fn a_directory_is_a_project_exactly_when_a_marker_is_found() {
    let mut bits: u32 = 0;
    while bits < 32 {
        let present = subset(bits);
        let (_, project) = examine(&present);
        assert_eq!(project.is_project(), !present.is_empty());
        bits += 1;
    }
}

#[test]
fn examination_agrees_with_classify_on_every_directory() {
    let mut bits: u32 = 0;
    while bits < 32 {
        let present = subset(bits);
        let (asked, project) = examine(&present);
        let expected = classify(
            present.contains(&Marker::GitDir),
            present.contains(&Marker::Manifest),
            present.contains(&Marker::PackageLock) || present.contains(&Marker::YarnLock),
            present.contains(&Marker::NodeModules),
        );
        assert_eq!(project, expected);
        let mut position: usize = 0;
        while position < asked.len() {
            assert!(!asked[..position].contains(&asked[position]));
            position += 1;
        }
        bits += 1;
    }
}
