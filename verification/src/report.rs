//! The text that reports a project to the user.
//!
//! The wording is a function of the classification and of two labels. The
//! labels come from the `colored` crate, which decides when the program runs
//! whether a text is wrapped in terminal control sequences.

use colored::Colorize;
use vstd::prelude::*;
use vstd::string::*;

use crate::project::{Git, Project, ProjectKind};

verus! {

/// The text holds no escape character, so no control sequence starts in it.
pub open spec fn escape_free(text: Seq<char>) -> bool {
    forall|i: int| 0 <= i < text.len() ==> text[i] != '\u{1b}'
}

/// The parameter of the control sequence that selects bold type.
pub open spec fn bold_code() -> Seq<char> {
    seq!['1']
}

/// The parameter of the control sequence that selects a green foreground.
pub open spec fn green_code() -> Seq<char> {
    seq!['3', '2']
}

/// `text` between the control sequence that selects `code` and the one that
/// resets the terminal.
pub open spec fn styled(code: Seq<char>, text: Seq<char>) -> Seq<char> {
    seq!['\u{1b}', '['] + code + seq!['m'] + text + seq!['\u{1b}', '[', '0', 'm']
}

/// `shown` is what a terminal is sent for `text` in the style `code`: the
/// text as it is where colours are off, the styled text where they are on.
pub open spec fn shows(shown: Seq<char>, code: Seq<char>, text: Seq<char>) -> bool {
    shown == text || shown == styled(code, text)
}

/// Calls `colored::Colorize::bold` on `text` and formats the result.
///
/// Trusted: for a text without escape characters the outcome is the text
/// itself or the text between `ESC[1m` and `ESC[0m`. Which of the two is
/// decided by the terminal and the process's colour settings, and is left
/// open.
#[verifier::external_body]
fn bold(text: &str) -> (r: String)
    ensures
        escape_free(text@) ==> shows(r@, bold_code(), text@),
{
    text.bold().to_string()
}

/// Calls `colored::Colorize::green` on `text` and formats the result.
///
/// Trusted: for a text without escape characters the outcome is the text
/// itself or the text between `ESC[32m` and `ESC[0m`. Which of the two is
/// decided by the terminal and the process's colour settings, and is left
/// open.
#[verifier::external_body]
fn green(text: &str) -> (r: String)
    ensures
        escape_free(text@) ==> shows(r@, green_code(), text@),
{
    text.green().to_string()
}

/// The line on version control, with `label` standing for the tool's name.
pub open spec fn git_line(git: Option<Git>, label: Seq<char>) -> Seq<char> {
    match git {
        Some(state) => "  found "@ + label + " with "@ + (if state.clean {
            "clean"@
        } else {
            "dirty"@
        }) + " worktree and "@ + (if state.nosync {
            "need sync"@
        } else {
            "synced"@
        }),
        None => "no "@ + label + " found"@,
    }
}

/// The word for the state of an ecosystem's dependencies.
pub open spec fn install_word(installed: bool) -> Seq<char> {
    if installed {
        "installed"@
    } else {
        "uninitialized"@
    }
}

/// The line on the ecosystem, with `label` standing for Node.js.
pub open spec fn kind_line(kind: ProjectKind, label: Seq<char>) -> Seq<char> {
    match kind {
        ProjectKind::NodeJS { installed, lockfile } => "  found "@ + install_word(installed)
            + " "@ + label + " ("@ + (if lockfile {
            "has"@
        } else {
            "no"@
        }) + " lockfile)"@,
        ProjectKind::Rust { installed } => "found "@ + install_word(installed) + " Rust"@,
    }
}

/// The whole description: the line on version control, then, where an
/// ecosystem was found, a line break and the line on the ecosystem.
pub open spec fn description(
    project: Project,
    git_label: Seq<char>,
    node_label: Seq<char>,
) -> Seq<char> {
    match project.kind {
        Some(kind) => git_line(project.git, git_label) + "\n"@ + kind_line(kind, node_label),
        None => git_line(project.git, git_label),
    }
}

/// `text` describes `project` with each label shown plain or in bold.
pub open spec fn describes(text: Seq<char>, project: Project) -> bool {
    exists|git_label: Seq<char>, node_label: Seq<char>|
        shows(git_label, bold_code(), "Git"@) && shows(node_label, bold_code(), "Node.js"@)
            && text == #[trigger] description(project, git_label, node_label)
}

/// The heading of a report: what is shown for the path, in square brackets.
pub open spec fn bracketed(shown: Seq<char>) -> Seq<char> {
    "["@ + shown + "]"@
}

/// `text` is the heading for `path`. Of a path with an escape character in it
/// only the brackets are known.
pub open spec fn heads(text: Seq<char>, path: Seq<char>) -> bool {
    exists|shown: Seq<char>|
        (escape_free(path) ==> shows(shown, green_code(), path)) && text == #[trigger] bracketed(
            shown,
        )
}

fn install_text(installed: bool) -> (r: &'static str)
    ensures
        r@ == install_word(installed),
{
    if installed {
        "installed"
    } else {
        "uninitialized"
    }
}

fn git_text(git: Option<Git>, label: &str) -> (r: String)
    ensures
        r@ == git_line(git, label@),
{
    let mut text = String::new();
    match git {
        Some(state) => {
            text.append("  found ");
            text.append(label);
            text.append(" with ");
            text.append(
                if state.clean {
                    "clean"
                } else {
                    "dirty"
                },
            );
            text.append(" worktree and ");
            text.append(
                if state.nosync {
                    "need sync"
                } else {
                    "synced"
                },
            );
        },
        None => {
            text.append("no ");
            text.append(label);
            text.append(" found");
        },
    }
    text
}

fn kind_text(kind: ProjectKind, label: &str) -> (r: String)
    ensures
        r@ == kind_line(kind, label@),
{
    let mut text = String::new();
    match kind {
        ProjectKind::NodeJS { installed, lockfile } => {
            text.append("  found ");
            text.append(install_text(installed));
            text.append(" ");
            text.append(label);
            text.append(" (");
            text.append(
                if lockfile {
                    "has"
                } else {
                    "no"
                },
            );
            text.append(" lockfile)");
        },
        ProjectKind::Rust { installed } => {
            text.append("found ");
            text.append(install_text(installed));
            text.append(" Rust");
        },
    }
    text
}

impl Project {
    /// Describes the project, with the given texts standing for the names of
    /// the version-control tool and of the Node.js ecosystem.
    pub fn describe_with(&self, git_label: &str, node_label: &str) -> (r: String)
        ensures
            r@ == description(*self, git_label@, node_label@),
    {
        let mut text = git_text(self.git, git_label);
        match self.kind {
            Some(kind) => {
                let line = kind_text(kind, node_label);
                text.append("\n");
                text.append(line.as_str());
            },
            None => {},
        }
        text
    }

    /// Describes the project for a terminal: the two names are set in bold
    /// where the terminal takes colours.
    pub fn describe(&self) -> (r: String)
        ensures
            describes(r@, *self),
    {
        proof {
            reveal_strlit("Git");
            reveal_strlit("Node.js");
        }
        let git_label = bold("Git");
        let node_label = bold("Node.js");
        let text = self.describe_with(git_label.as_str(), node_label.as_str());
        assert(text@ == description(*self, git_label@, node_label@));
        text
    }
}

/// Puts what is shown for a path in square brackets.
pub fn heading_with(shown: &str) -> (r: String)
    ensures
        r@ == bracketed(shown@),
{
    let mut text = String::new();
    text.append("[");
    text.append(shown);
    text.append("]");
    text
}

/// The heading of the report on the directory at `path`: the path in square
/// brackets, set in green where the terminal takes colours.
pub fn heading(path: &str) -> (r: String)
    ensures
        heads(r@, path@),
{
    let shown = green(path);
    let text = heading_with(shown.as_str());
    assert(text@ == bracketed(shown@));
    text
}

} // verus!
