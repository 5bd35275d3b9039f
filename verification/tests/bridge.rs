use dsh_shell::bridge::{frame, socket_path, BridgeEvent};
use dsh_shell::runtime::{self, Env};
use dsh_shell::task::Task;

fn event(kind: &str) -> BridgeEvent {
    BridgeEvent {
        kind: kind.into(),
        session_id: None,
        status: None,
        message: None,
        reason: None,
    }
}

#[test]
fn only_interrupting_events_notify() {
    let notify = |kind: &str| event(kind).wants_notification();
    assert!(notify("turn-stopping"));
    assert!(notify("request-error"));
    // Status changes are frequent; notifying on them would be noise.
    assert!(!notify("status"));
    assert!(!notify("created"));
}

#[test]
fn events_are_summed_up() {
    assert_eq!(event("status").summary(), "status: unknown");
    let working = BridgeEvent { status: Some("working".into()), ..event("status") };
    assert_eq!(working.summary(), "status: working");
    assert_eq!(event("turn-stopping").summary(), "turn finished");
    assert_eq!(event("request-error").summary(), "request failed");
    assert_eq!(event("created").summary(), "agent created");
    assert_eq!(event("disposed").summary(), "agent disposed");
    assert_eq!(event("something-new").summary(), "something-new");
}

#[test]
fn a_blank_line_frames_nothing() {
    assert_eq!(frame(""), None);
    assert_eq!(frame(" \r\n"), None);
    assert_eq!(frame(" {\"kind\":\"x\"}\r\n").as_deref(), Some("{\"kind\":\"x\"}"));
}

/// The directory that macOS gives a user for temporary files.
const TEMP: &str = "/var/folders/zz/zyxvpxvq6csfxvn_n0000000000000/T/";

#[test]
fn socket_path_is_short_enough_for_unix_sockets() {
    // macOS caps socket paths near 104 bytes; a long home dir must not silently
    // produce an unusable path.
    let path = socket_path(None, None, TEMP, u32::MAX);
    assert!(path.len() < 100, "socket path too long: {path}");
    assert_eq!(socket_path(None, None, "/tmp", 501), "/tmp/dsh-shell-501.sock");
    assert_eq!(
        socket_path(None, Some("/run/user/501".into()), "/tmp", 501),
        "/run/user/501/dsh-shell-501.sock"
    );
    assert_eq!(socket_path(Some("/tmp/x.sock".into()), None, "/tmp", 501), "/tmp/x.sock");
}

// -------------------------------------------------------------- runtime files

fn env(socket: Option<&str>, lock: Option<&str>, activate: Option<&str>, run: Option<&str>) -> Env {
    Env {
        socket: socket.map(str::to_string),
        lock: lock.map(str::to_string),
        activate: activate.map(str::to_string),
        run_dir: run.map(str::to_string),
        temp_dir: TEMP.to_string(),
    }
}

#[test]
fn each_runtime_file_has_its_own_name() {
    let env = env(None, None, None, Some("/run/user/501"));
    let paths = [env.socket_path(501), env.lock_path(501), env.activate_path(501)];
    // Sharing a path would mean the lock and a socket fighting over one inode —
    // the very thing the lock exists to prevent.
    assert_ne!(paths[0], paths[1]);
    assert_ne!(paths[1], paths[2]);
    assert_ne!(paths[0], paths[2]);
    assert_eq!(
        paths,
        [
            "/run/user/501/dsh-shell-501.sock",
            "/run/user/501/dsh-shell-501.lock",
            "/run/user/501/dsh-shell-501.activate.sock"
        ]
    );
}

#[test]
fn runtime_files_are_namespaced_by_user() {
    let env = env(None, None, None, Some("/run/user"));
    assert!(env.socket_path(501).contains("501"));
    assert!(!env.socket_path(502).contains("501"));
}

#[test]
fn an_explicit_path_wins_over_the_run_dir() {
    let env = env(Some("/tmp/a.sock"), Some("/tmp/a.lock"), Some("/tmp/a.act"), None);
    assert_eq!(env.socket_path(1), "/tmp/a.sock");
    assert_eq!(env.lock_path(1), "/tmp/a.lock");
    assert_eq!(env.activate_path(1), "/tmp/a.act");
}

#[test]
fn an_empty_run_dir_variable_is_ignored() {
    // Not the empty path, which would place runtime files in a directory every
    // user shares.
    assert_eq!(env(None, None, None, Some("")).run_dir(), TEMP);
}

#[test]
fn a_blank_run_dir_variable_is_ignored() {
    assert_eq!(env(None, None, None, Some("   ")).run_dir(), TEMP);
}

#[test]
fn the_default_socket_path_fits_a_unix_socket() {
    let path = runtime::socket_path(&env(None, None, None, None), u32::MAX);
    // `sun_path` is 104 bytes on macOS and 108 on Linux; the smaller bound is the
    // one that matters, and a longer path fails at bind, not here.
    assert!(path.len() < 104, "socket path too long: {path}");
}

#[test]
fn a_clean_exit_removes_the_sockets_and_not_the_lock() {
    let env = env(None, None, None, Some("/run"));
    let files = runtime::cleanup(&env, 7);
    assert_eq!(files, ["/run/dsh-shell-7.sock", "/run/dsh-shell-7.activate.sock"]);
    assert!(!files.contains(&runtime::lock_path(&env, 7)));
    assert_eq!(runtime::activate_path(&env, 7), files[1]);
}

#[test]
fn the_directory_of_a_socket_is_made_first() {
    assert_eq!(
        runtime::ensure_parent("/run/user/7/dsh-shell-7.sock"),
        Some(Task::MakeDirs("/run/user/7".into()))
    );
    assert_eq!(runtime::ensure_parent("/"), None);
}

#[test]
fn both_ends_of_the_bridge_name_one_socket() {
    for run_dir in [None, Some(""), Some("  "), Some("/run/user/7")] {
        for explicit in [None, Some("/tmp/a.sock")] {
            assert_eq!(
                socket_path(explicit.map(String::from), run_dir.map(String::from), TEMP, 7),
                runtime::socket_path(&env(explicit, None, None, run_dir), 7)
            );
        }
    }
}

#[test]
fn only_finished_turns_are_counted() {
    assert!(event("turn-stopping").finishes_turn());
    // A failed request is notified, and not counted.
    assert!(event("request-error").wants_notification());
    assert!(!event("request-error").finishes_turn());
    assert!(!event("status").finishes_turn());
}
