//! Work for the outside: what a decision asks to be done on disk, or to be run.

use crate::text;
use vstd::prelude::*;

verus! {

/// A program to run to its end.
#[derive(Debug, Clone, PartialEq, Eq)]
pub struct Command {
    pub program: String,
    pub args: Vec<String>,
    /// A launcher whose directory has to be on the program's `PATH`.
    pub path_hint: Option<String>,
    /// How many seconds the program may take.
    pub timeout: u64,
}

/// What a command is.
pub ghost struct Run {
    pub program: Seq<char>,
    pub args: Seq<Seq<char>>,
    pub path_hint: Option<Seq<char>>,
    pub timeout: u64,
}

impl View for Command {
    type V = Run;

    open spec fn view(&self) -> Run {
        Run {
            program: self.program@,
            args: text::views(self.args@),
            path_hint: text::held(self.path_hint),
            timeout: self.timeout,
        }
    }
}

/// One piece of outside work.
#[derive(Debug, Clone, PartialEq, Eq)]
pub enum Task {
    /// Remove a directory and everything in it.
    RemoveTree(String),
    /// Create a directory and the directories above it.
    MakeDirs(String),
    /// Write a file.
    Write { path: String, contents: String },
    /// Remove a file.
    RemoveFile(String),
    /// Move a file or a directory.
    Rename { from: String, to: String },
    /// Run a program.
    Run(Command),
}

/// What a task is.
pub ghost enum Deed {
    RemoveTree(Seq<char>),
    MakeDirs(Seq<char>),
    Write { path: Seq<char>, contents: Seq<char> },
    RemoveFile(Seq<char>),
    Rename { from: Seq<char>, to: Seq<char> },
    Run(Run),
}

impl View for Task {
    type V = Deed;

    open spec fn view(&self) -> Deed {
        match self {
            Task::RemoveTree(path) => Deed::RemoveTree(path@),
            Task::MakeDirs(path) => Deed::MakeDirs(path@),
            Task::Write { path, contents } => Deed::Write { path: path@, contents: contents@ },
            Task::RemoveFile(path) => Deed::RemoveFile(path@),
            Task::Rename { from, to } => Deed::Rename { from: from@, to: to@ },
            Task::Run(command) => Deed::Run(command@),
        }
    }
}

/// What a list of tasks is.
pub open spec fn deeds(tasks: Seq<Task>) -> Seq<Deed> {
    Seq::new(tasks.len(), |i: int| tasks[i]@)
}

/// Which file or tree stands at which path.
pub type Disk = Map<Seq<char>, int>;

/// Whether `after` is what `before` may become when a task is attempted and
/// succeeds (`ok`) or fails.
///
/// A rename that fails changes nothing. A removal that fails may have removed
/// some of a tree, and a write may end half-way, so what is there afterwards is
/// not known.
pub open spec fn attempted(before: Disk, deed: Deed, ok: bool, after: Disk) -> bool {
    match deed {
        Deed::Rename { from, to } => if ok {
            &&& before.dom().contains(from)
            &&& after == before.remove(from).insert(to, before[from])
        } else {
            after == before
        },
        Deed::Write { path, .. } => after.remove(path) == before.remove(path),
        Deed::RemoveTree(path) | Deed::RemoveFile(path) => if ok {
            after == before.remove(path)
        } else {
            after.remove(path) == before.remove(path)
        },
        _ => after == before,
    }
}

} // verus!
