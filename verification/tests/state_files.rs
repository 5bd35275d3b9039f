use dsh_shell::logfile::path_from;
use dsh_shell::path;
use dsh_shell::task::Task;
use dsh_shell::window_state::{begin_save, save, state_path_from, Save, SaveAction};
use std::collections::BTreeMap;

#[test]
fn the_log_sits_beside_the_window_state() {
    let path = path_from(None, Some("/home/u/.dsh".into()), None).unwrap();
    // Same directory as the window state: shell state lives in one tree.
    assert_eq!(path, "/home/u/.dsh/cache/dsh-shell/dsh-shell.log");
    let state = state_path_from(None, Some("/home/u/.dsh".into()), None).unwrap();
    assert_eq!(path::parent(&path), path::parent(&state));
}

#[test]
fn an_explicit_path_wins() {
    assert_eq!(
        path_from(Some("/tmp/x.log".into()), Some("/home/u/.dsh".into()), None).unwrap(),
        "/tmp/x.log"
    );
}

#[test]
fn a_blank_explicit_path_is_ignored() {
    // Not the empty path, which would try to create a file at the root.
    assert_eq!(path_from(Some("  ".into()), None, None), None);
    // The search goes on where the variable is blank.
    assert_eq!(
        path_from(Some("  ".into()), Some("/home/u/.dsh".into()), None).as_deref(),
        Some("/home/u/.dsh/cache/dsh-shell/dsh-shell.log")
    );
    assert_eq!(
        path_from(Some(String::new()), Some(" ".into()), Some("/home/u".into())).as_deref(),
        Some("/home/u/.dsh/cache/dsh-shell/dsh-shell.log")
    );
}

#[test]
fn home_is_the_fallback_when_dsh_home_is_unset() {
    let path = path_from(None, None, Some("/home/u".into())).unwrap();
    assert_eq!(path, "/home/u/.dsh/cache/dsh-shell/dsh-shell.log");
}

#[test]
fn no_home_means_no_log() {
    assert_eq!(path_from(None, None, None), None);
}

#[test]
fn the_explicit_path_wins() {
    let resolved = state_path_from(
        Some("/tmp/explicit.json".into()),
        Some("/home/u/.dsh".into()),
        Some("/home/u".into()),
    );
    assert_eq!(resolved.as_deref(), Some("/tmp/explicit.json"));
}

#[test]
fn dsh_home_is_preferred_over_the_bare_home() {
    let resolved = state_path_from(None, Some("/custom/dsh".into()), Some("/home/u".into()));
    assert_eq!(resolved.as_deref(), Some("/custom/dsh/cache/dsh-shell/window.json"));
}

#[test]
fn the_bare_home_falls_back_to_dot_dsh() {
    let resolved = state_path_from(None, None, Some("/home/u".into()));
    assert_eq!(resolved.as_deref(), Some("/home/u/.dsh/cache/dsh-shell/window.json"));
}

#[test]
fn no_home_at_all_yields_no_path() {
    assert_eq!(state_path_from(None, None, None), None);
}

#[test]
fn a_state_is_written_beside_the_file_and_moved_into_place() {
    let path = "/c/window.json";
    let (state, action) = begin_save(path);
    assert_eq!(action, SaveAction::Do(Task::MakeDirs("/c".into())));
    let (state, action) = save(path, "{}", state, true);
    assert_eq!(
        action,
        SaveAction::Do(Task::Write { path: "/c/window.json.tmp".into(), contents: "{}".into() })
    );
    let (state, action) = save(path, "{}", state, true);
    assert_eq!(
        action,
        SaveAction::Do(Task::Rename { from: "/c/window.json.tmp".into(), to: path.into() })
    );
    assert_eq!(save(path, "{}", state, true), (Save::Finished, SaveAction::Done));
    // The temporary file must not be left behind.
    assert_eq!(
        save(path, "{}", state, false),
        (Save::Clearing, SaveAction::Do(Task::RemoveFile("/c/window.json.tmp".into())))
    );
    assert_eq!(save(path, "{}", Save::Clearing, false), (Save::Finished, SaveAction::Done));
    assert_eq!(save(path, "{}", Save::Making, false), (Save::Finished, SaveAction::Done));
    assert_eq!(save(path, "{}", Save::Writing, false), (Save::Finished, SaveAction::Done));
    assert_eq!(begin_save("/"), (Save::Finished, SaveAction::Done));
}

/// Save on a disk of its own: files by their paths.
fn save_on(disk: &mut BTreeMap<String, String>, path: &str, contents: &str) {
    let (mut state, mut action) = begin_save(path);
    while let SaveAction::Do(task) = action {
        let done = match task {
            Task::MakeDirs(_) => true,
            Task::Write { path, contents } => {
                disk.insert(path, contents);
                true
            }
            Task::Rename { from, to } => match disk.remove(&from) {
                Some(contents) => {
                    disk.insert(to, contents);
                    true
                }
                None => false,
            },
            other => panic!("a save that succeeds does not ask for this: {other:?}"),
        };
        (state, action) = save(path, contents, state, done);
    }
}

#[test]
fn saving_replaces_rather_than_appends() {
    let mut disk = BTreeMap::new();
    let path = "/c/window.json";
    save_on(&mut disk, path, "{\"width\":900.0,\"height\":600.0}");
    save_on(&mut disk, path, "{\"width\":1000.0,\"height\":700.0}");
    assert_eq!(disk[path], "{\"width\":1000.0,\"height\":700.0}");
    // The temporary file must not be left behind.
    assert!(!disk.contains_key(&path::with_extension(path, "json.tmp")));
}
