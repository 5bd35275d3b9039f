//! Where the remembered window rectangle is kept, and how it is written.
//!
//! The window's size and position are *state*, not configuration, so they live
//! in the shell's own state file rather than in DSH's settings document. Losing
//! the file costs nothing: the window opens at its default size.

use crate::logfile;
use crate::path;
use crate::task;
use crate::task::Task;
use crate::text;
use vstd::prelude::*;

verus! {

/// Where the window state lives: an explicit path wins, then DSH's home, then
/// `.dsh` below the user's home.
pub open spec fn state_path(
    explicit: Option<Seq<char>>,
    dsh_home: Option<Seq<char>>,
    home: Option<Seq<char>>,
) -> Option<Seq<char>> {
    match explicit {
        Some(explicit) => Some(explicit),
        None => match (dsh_home, logfile::default_home(home)) {
            (Some(dsh), _) => Some(logfile::shell_file(dsh, "window.json"@)),
            (None, Some(dsh)) => Some(logfile::shell_file(dsh, "window.json"@)),
            (None, None) => None,
        },
    }
}

/// Where the window state file lives.
///
/// Under DSH's home so the shell keeps all of its own state in one tree, and
/// under `cache` because a lost window position is not worth preserving more
/// carefully than that.
pub fn state_path_from(explicit: Option<String>, dsh_home: Option<String>, home: Option<String>) -> (path:
    Option<String>)
    ensures
        text::held(path) == state_path(
            text::held(explicit),
            text::held(dsh_home),
            text::held(home),
        ),
{
    match explicit {
        Some(explicit) => Some(explicit),
        None => match dsh_home {
            Some(dsh) => Some(logfile::in_shell_dir(dsh.as_str(), "window.json")),
            None => match home {
                Some(home) => {
                    let dsh = path::join(home.as_str(), ".dsh");
                    Some(logfile::in_shell_dir(dsh.as_str(), "window.json"))
                },
                None => None,
            },
        },
    }
}

// ------------------------------------------------------------------- writing

/// How far a save has come: the task that is being attempted.
#[derive(Debug, Clone, Copy, PartialEq, Eq, Structural)]
pub enum Save {
    /// Creating the directory.
    Making,
    /// Writing a temporary file.
    Writing,
    /// Moving the temporary file into place.
    Placing,
    /// Removing the temporary file, because it could not be placed.
    Clearing,
    /// Over.
    Finished,
}

/// What a save does next.
#[derive(Debug, Clone, PartialEq, Eq)]
pub enum SaveAction {
    /// Attempt a task, and report whether it succeeded.
    Do(Task),
    /// Nothing: the save is over.
    Done,
}

/// The temporary file beside a state file.
pub open spec fn temporary(path: Seq<char>) -> Seq<char> {
    path::extended(path, "json.tmp"@)
}

/// The task of each stage of a save.
pub open spec fn save_deed(path: Seq<char>, contents: Seq<char>, leg: Save) -> task::Deed {
    match leg {
        Save::Making => task::Deed::MakeDirs(
            match path::parent_of(path) {
                Some(dir) => dir,
                None => Seq::<char>::empty(),
            },
        ),
        Save::Writing => task::Deed::Write { path: temporary(path), contents },
        Save::Placing => task::Deed::Rename { from: temporary(path), to: path },
        _ => task::Deed::RemoveFile(temporary(path)),
    }
}

/// The stage that follows, by whether the task succeeded.
pub open spec fn save_leg(leg: Save, ok: bool) -> Save {
    match leg {
        Save::Making => if ok {
            Save::Writing
        } else {
            Save::Finished
        },
        Save::Writing => if ok {
            Save::Placing
        } else {
            Save::Finished
        },
        Save::Placing => if ok {
            Save::Finished
        } else {
            Save::Clearing
        },
        _ => Save::Finished,
    }
}

/// Begin to write the state file. A path without a directory is not written to.
pub fn begin_save(path: &str) -> (step: (Save, SaveAction))
    ensures
        match path::parent_of(path@) {
            Some(dir) => {
                &&& step.0 == Save::Making
                &&& step.1 matches SaveAction::Do(task)
                &&& task@ == task::Deed::MakeDirs(dir)
            },
            None => step.0 == Save::Finished && step.1 == SaveAction::Done,
        },
{
    match path::parent(path) {
        Some(dir) => (Save::Making, SaveAction::Do(Task::MakeDirs(dir))),
        None => (Save::Finished, SaveAction::Done),
    }
}

/// Take the next step of a save.
///
/// A window position is not worth an error path: if it cannot be saved the user
/// loses nothing but a convenience. It is written via a temporary file and a
/// rename so an interrupted write cannot leave a half-file behind.
pub fn save(path: &str, contents: &str, state: Save, ok: bool) -> (step: (Save, SaveAction))
    ensures
        step.0 == save_leg(state, ok),
        match step.0 {
            Save::Finished => step.1 == SaveAction::Done,
            leg => {
                &&& step.1 matches SaveAction::Do(task)
                &&& task@ == save_deed(path@, contents@, leg)
            },
        },
{
    let temporary = path::with_extension(path, "json.tmp");
    match (state, ok) {
        (Save::Making, true) => (
            Save::Writing,
            SaveAction::Do(Task::Write { path: temporary, contents: text::own(contents) }),
        ),
        (Save::Writing, true) => (
            Save::Placing,
            SaveAction::Do(Task::Rename { from: temporary, to: text::own(path) }),
        ),
        (Save::Placing, false) => (
            Save::Clearing,
            SaveAction::Do(Task::RemoveFile(temporary)),
        ),
        _ => (Save::Finished, SaveAction::Done),
    }
}

// --------------------------------------------------------------------- laws

/// The temporary file is not the state file.
proof fn lemma_temporary_differs(path: Seq<char>)
    requires
        path::name_of(path) is Some,
    ensures
        temporary(path) != path,
{
    reveal_strlit("json.tmp");
    let ext = "json.tmp"@;
    let temp = temporary(path);
    let t = path::settled(path);
    path::lemma_settled_prefix(path);
    let name = path::name_of(path)->Some_0;
    path::lemma_extension_bounds(name);
    path::lemma_base_bounds(t);
    let k = path::base_start(t) + path::extension_start(name);
    assert(temp[k] == '.' && temp[k + 5] == ext[4] && temp.last() == ext[7]);
    if temp == path {
        assert(ext[4] == '.' && ext[7] == 'p');
        assert(path::settled(path) == path);
        assert(name[k + 5 - path::base_start(t)] == path[k + 5]);
    }
}

/// The state file is replaced whole or left alone: whatever becomes of a step,
/// only the move into place changes what stands at its path, and what it puts
/// there is what stood at the temporary file.
pub proof fn state_is_replaced_whole(
    path: Seq<char>,
    contents: Seq<char>,
    leg: Save,
    ok: bool,
    before: task::Disk,
    after: task::Disk,
)
    requires
        path::name_of(path) is Some,
        leg != Save::Finished,
        task::attempted(before, save_deed(path, contents, leg), ok, after),
    ensures
        leg == Save::Placing && ok ==> after.dom().contains(path) && after[path]
            == before[temporary(path)],
        !(leg == Save::Placing && ok) ==> {
            &&& after.dom().contains(path) == before.dom().contains(path)
            &&& before.dom().contains(path) ==> after[path] == before[path]
        },
{
    lemma_temporary_differs(path);
    let temp = temporary(path);
    if leg == Save::Writing || leg == Save::Clearing {
        assert(after.remove(temp).dom().contains(path) == after.dom().contains(path));
        assert(before.remove(temp).dom().contains(path) == before.dom().contains(path));
        if before.dom().contains(path) {
            assert(after.remove(temp)[path] == after[path]);
            assert(before.remove(temp)[path] == before[path]);
        }
    }
}

/// Without an explicit path for either, and with a home that is not blank, the
/// log sits in the same directory as the window state: the shell's own files
/// live in one tree.
pub proof fn log_sits_beside_window_state(dsh_home: Option<Seq<char>>, home: Option<Seq<char>>)
    requires
        dsh_home matches Some(dir) ==> text::trimmed(dir).len() > 0,
    ensures
        match (logfile::log_path(None, dsh_home, home), state_path(None, dsh_home, home)) {
            (Some(log), Some(state)) => path::parent_of(log) == path::parent_of(state),
            (None, None) => true,
            _ => false,
        },
{
    reveal_strlit("dsh-shell.log");
    reveal_strlit("window.json");
    let dsh = match dsh_home {
        Some(dir) => Some(dir),
        None => logfile::default_home(home),
    };
    if let Some(dsh) = dsh {
        let dir = path::joined(path::joined(dsh, "cache"@), "dsh-shell"@);
        path::parent_of_joined(dir, "dsh-shell.log"@);
        path::parent_of_joined(dir, "window.json"@);
    }
}

/// Where the window state is kept: an explicit path wins, then the home of DSH, then
/// `.dsh` in the home of the user; without any of them it is kept nowhere.
pub proof fn window_state_has_its_place(
    explicit: Option<String>,
    dsh_home: Option<String>,
    home: Option<String>,
    path: Option<String>,
)
    requires
        call_ensures(state_path_from, (explicit, dsh_home, home), path),
    ensures
        explicit matches Some(e) ==> text::held(path) == Some(e@),
        explicit is None ==> (dsh_home matches Some(d) ==> text::held(path) == Some(
            logfile::shell_file(d@, "window.json"@),
        )),
        explicit is None && dsh_home is None ==> (home matches Some(h) ==> text::held(path) == Some(
            logfile::shell_file(path::joined(h@, ".dsh"@), "window.json"@),
        )),
        explicit is None && dsh_home is None && home is None ==> path is None,
{
}

/// How a save goes: the directory is made, the contents are written whole to a temporary
/// file, that file is moved into place, and it is removed again exactly where it could not
/// be placed. Any other end leaves nothing to do.
pub proof fn a_save_writes_beside_and_moves(
    path: &str,
    contents: &str,
    state: Save,
    ok: bool,
    step: (Save, SaveAction),
)
    requires
        call_ensures(save, (path, contents, state, ok), step),
    ensures
        step.0 is Writing <==> state is Making && ok,
        step.0 is Placing <==> state is Writing && ok,
        step.0 is Clearing <==> state is Placing && !ok,
        step.0 !is Making,
        step.1 is Done <==> step.0 is Finished,
        step.0 is Writing ==> (step.1 matches SaveAction::Do(task) && task@ == (task::Deed::Write {
            path: temporary(path@),
            contents: contents@,
        })),
        step.0 is Placing ==> (step.1 matches SaveAction::Do(task) && task@ == (task::Deed::Rename {
            from: temporary(path@),
            to: path@,
        })),
        step.0 is Clearing ==> (step.1 matches SaveAction::Do(task) && task@
            == task::Deed::RemoveFile(temporary(path@))),
{
}

/// A save begins by making the directory of the file, and not at all without one.
pub proof fn a_save_begins_with_the_directory(path: &str, step: (Save, SaveAction))
    requires
        call_ensures(begin_save, (path,), step),
    ensures
        step.0 is Making <==> path::parent_of(path@) is Some,
        path::parent_of(path@) matches Some(dir) ==> (step.1 matches SaveAction::Do(task) && task@
            == task::Deed::MakeDirs(dir)),
        path::parent_of(path@) is None ==> step.0 is Finished && step.1 is Done,
{
}

/// The temporary file of a state file `name.json` is `name.json.tmp` beside it.
pub proof fn the_temporary_file_is_beside(dir: Seq<char>, stem: Seq<char>)
    requires
        stem.len() > 0,
        !stem.contains('/'),
        !stem.contains('.'),
    ensures
        temporary(path::joined(dir, stem + ".json"@)) == path::joined(dir, stem) + ".json.tmp"@,
{
    reveal_strlit(".json");
    reveal_strlit("json");
    reveal_strlit("json.tmp");
    reveal_strlit(".json.tmp");
    assert(stem + ".json"@ =~= stem + seq!['.'] + "json"@);
    path::extensions_are_replaced(dir, stem, "json"@, "json.tmp"@);
    assert(path::joined(dir, stem) + seq!['.'] + "json.tmp"@ =~= path::joined(dir, stem)
        + ".json.tmp"@);
}

} // verus!
