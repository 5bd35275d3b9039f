use dsh_shell::command::{after_poll, finish, not_started, Exit, Poll, PollAction};
use dsh_shell::server::{
    extract_url, launcher_candidates, manager_roots, node_candidates, path_with_node_list,
    resolve_launcher, spawn_host, start, start_args, which_node, HostAction, HostEvent, Launch,
    LaunchAction, LaunchEvent,
};
use dsh_shell::version::Version;

#[test]
fn extracts_the_startup_url() {
    let line = "dsh web: http://127.0.0.1:4180/?token=abc123";
    assert_eq!(extract_url(line).as_deref(), Some("http://127.0.0.1:4180/?token=abc123"));
}

#[test]
fn tolerates_noise_and_trailing_text() {
    assert_eq!(
        extract_url("2026-01-01 INFO dsh web: http://127.0.0.1:4180/?token=x (ready)").as_deref(),
        Some("http://127.0.0.1:4180/?token=x")
    );
}

#[test]
fn the_url_line_is_recognised_before_any_other_output() {
    // Whatever else the host prints, the URL is what starts the shell.
    assert!(extract_url("dsh web: http://127.0.0.1:1/?token=a").is_some());
    // Plugin chatter must not be mistaken for it.
    assert!(extract_url("[dsh-plugin-shell-bridge] connected to shell").is_none());
}

#[test]
fn ignores_unrelated_lines() {
    assert!(extract_url("just a log line").is_none());
    assert!(extract_url("dsh web: not-a-url").is_none());
    assert_eq!(extract_url("dsh web:https://h/\tx").as_deref(), Some("https://h/"));
    assert!(extract_url("dsh web:").is_none());
}

#[test]
fn the_wait_for_the_host_ends_with_the_first_event_that_decides() {
    assert_eq!(start_args(4180), ["web", "--no-open", "--port", "4180"]);
    assert_eq!(start_args(0)[3], "0");
    assert_eq!(start(HostEvent::Line("chatter".into())), HostAction::Read);
    assert_eq!(
        start(HostEvent::Line("dsh web: http://h/".into())),
        HostAction::Ready("http://h/".into())
    );
    assert_eq!(
        start(HostEvent::Closed),
        HostAction::Fail("dsh web exited before printing a URL".into())
    );
    assert_eq!(
        start(HostEvent::Broken("bad pipe".into())),
        HostAction::Fail("reading dsh web output: bad pipe".into())
    );
    assert_eq!(
        start(HostEvent::Late),
        HostAction::StopAndFail("dsh web did not print a URL within 120s".into())
    );
    assert_eq!(
        dsh_shell::server::not_started("/bin/dsh", "no such file"),
        "could not start `/bin/dsh web`: no such file"
    );
}

// ---------------------------------------------------------- finding programs

#[test]
fn resolves_a_launcher_even_with_an_empty_path() {
    // This is the Finder-launch case: launchd gives the app the bare
    // /usr/bin:/bin:/usr/sbin:/sbin, where `dsh` does not exist. Resolution must
    // still find it via a well-known home-directory location.
    let candidates = launcher_candidates(None, Some("/home/u".into()), &vec![]);
    let is_file: Vec<bool> = candidates.iter().map(|c| c == "/home/u/.volta/bin/dsh").collect();
    let resolved = resolve_launcher("dsh", None, &candidates, &is_file);
    assert_ne!(resolved, "dsh", "expected an absolute path, got the bare name back");
    assert_eq!(resolved, "/home/u/.volta/bin/dsh");
    assert_eq!(resolve_launcher("dsh", None, &candidates, &vec![false; 5]), "dsh");
}

#[test]
fn explicit_override_wins() {
    let candidates = launcher_candidates(None, Some("/home/u".into()), &vec![]);
    let everywhere = vec![true; candidates.len()];
    assert_eq!(
        resolve_launcher("dsh", Some("/custom/path/to/dsh".into()), &candidates, &everywhere),
        "/custom/path/to/dsh"
    );
    // A blank one is none.
    assert_eq!(
        resolve_launcher("dsh", Some("  ".into()), &candidates, &everywhere),
        "/home/u/.bun/bin/dsh"
    );
}

#[test]
fn launchers_are_looked_for_in_order() {
    assert_eq!(manager_roots("/h"), ["/h/.nvm/versions/node", "/h/.fnm/node-versions"]);
    assert_eq!(
        launcher_candidates(
            Some("/Applications/DSH Shell.app/Contents/MacOS/dsh-shell".into()),
            Some("/h".into()),
            &vec!["/h/.nvm/versions/node/v22".into()],
        ),
        [
            "/Applications/DSH Shell.app/Contents/Resources/bin/dsh",
            "/h/.bun/bin/dsh",
            "/h/.local/bin/dsh",
            "/h/.volta/bin/dsh",
            "/h/node_modules/.bin/dsh",
            "/h/.npm-global/bin/dsh",
            "/h/.nvm/versions/node/v22/bin/dsh",
        ]
    );
    assert_eq!(launcher_candidates(Some("/dsh-shell".into()), None, &vec!["/x".into()]), [""; 0]);
}

#[test]
fn nodes_are_looked_for_in_order() {
    let places = node_candidates("/h", &vec!["/h/.fnm/node-versions/20".into()]);
    assert_eq!(
        places,
        [
            "/h/.local/bin/node",
            "/h/.bun/bin/node",
            "/h/.volta/bin/node",
            "/h/.hermes/node/bin/node",
            "/h/.fnm/node-versions/20/bin/node",
        ]
    );
    let home = || Some("/h".to_string());
    assert_eq!(
        which_node(home(), &places, &vec![false, false, false, true, true], true).as_deref(),
        Some("/h/.hermes/node/bin/node")
    );
    assert_eq!(which_node(home(), &places, &vec![false; 5], true).as_deref(), Some("node"));
    assert_eq!(which_node(home(), &places, &vec![false; 5], false), None);
    // Without a home there are no usual places, and PATH is what is left.
    assert_eq!(which_node(None, &places, &vec![true; 5], true).as_deref(), Some("node"));
    assert_eq!(which_node(None, &places, &vec![true; 5], false), None);
}

#[test]
fn the_launcher_directory_comes_first_on_the_augmented_path() {
    // The bug this guards: a Finder-launched app inherits launchd's PATH, which has
    // no `node`, and `dsh` is a `#!/usr/bin/env node` script — so the probe died with
    // exit 127 and reported a healthy install as broken.
    let path = path_with_node_list("/opt/custom/bin/dsh", "/usr/bin:/bin".to_string(), None);
    assert_eq!(
        path, "/opt/custom/bin:/usr/bin:/bin",
        "the launcher's own directory must be prepended"
    );

    // A `node` found elsewhere is added too, without displacing the launcher.
    let path = path_with_node_list(
        "/opt/custom/bin/dsh",
        "/usr/bin:/bin".to_string(),
        Some("/hermes/node/bin/node".into()),
    );
    let parts: Vec<&str> = path.split(':').collect();
    assert_eq!(parts[0], "/opt/custom/bin");
    assert_eq!(parts[1], "/hermes/node/bin");
    assert!(parts.contains(&"/usr/bin"), "the existing PATH must survive");

    // An empty existing PATH must not leave a leading colon, which would put the
    // working directory on the search path.
    assert_eq!(path_with_node_list("/opt/bin/dsh", String::new(), None), "/opt/bin");
    assert_eq!(path_with_node_list("dsh", "/bin".into(), Some("node".into())), "/bin");
}

// ------------------------------------------------- starting, with one way back

fn failed(error: &str, on_trial: Option<&str>) -> LaunchEvent {
    LaunchEvent::Failed {
        error: error.into(),
        on_trial: on_trial.map(|text| Version::parse(text).unwrap()),
    }
}

#[test]
fn a_bad_upgrade_is_rolled_back_once() {
    let (state, action) = spawn_host(Launch::First, failed("exited", Some("1.2.3")));
    assert_eq!(action, LaunchAction::RollBack);
    let (state, action) = spawn_host(state, LaunchEvent::RolledBack(Ok(())));
    assert_eq!(action, LaunchAction::Retry);
    // The second failure is reported as it is, whatever a note says.
    assert_eq!(
        spawn_host(state, failed("still exits", Some("1.2.3"))),
        (Launch::Finished, LaunchAction::Report("still exits".into()))
    );
    assert_eq!(
        spawn_host(Launch::Second, LaunchEvent::Started),
        (Launch::Finished, LaunchAction::Serve)
    );
}

#[test]
fn a_host_that_starts_is_shown() {
    assert_eq!(
        spawn_host(Launch::First, LaunchEvent::Started),
        (Launch::Finished, LaunchAction::Serve)
    );
    // Without a note the failure is not the upgrade's fault.
    assert_eq!(
        spawn_host(Launch::First, failed("exited", None)),
        (Launch::Finished, LaunchAction::Report("exited".into()))
    );
    let (_, action) = spawn_host(
        Launch::RollingBack("exited".into()),
        LaunchEvent::RolledBack(Err("no backup".into())),
    );
    assert_eq!(
        action,
        LaunchAction::Report(
            "the upgraded DSH would not start (exited), and rolling back failed too: no backup"
                .into()
        )
    );
    assert_eq!(
        spawn_host(Launch::Finished, LaunchEvent::Started),
        (Launch::Finished, LaunchAction::Wait)
    );
}

// ------------------------------------------------------------ running programs

#[test]
fn a_program_is_polled_until_it_ends_or_is_overdue() {
    assert_eq!(after_poll("curl", Poll::Exited), PollAction::Collect);
    assert_eq!(
        after_poll("curl", Poll::Running { overdue: false }),
        PollAction::PollAgain(25)
    );
    assert_eq!(
        after_poll("curl", Poll::Running { overdue: true }),
        PollAction::StopAndCollect
    );
    assert_eq!(
        after_poll("curl", Poll::Lost("no child".into())),
        PollAction::StopAndFail("waiting for curl: no child".into())
    );
    assert_eq!(not_started("curl", "not found"), "could not run curl: not found");
}

#[test]
fn a_program_leaves_its_output_or_its_last_words() {
    let output = |out: &[u8], err: &[u8]| Some((out.to_vec(), err.to_vec()));
    let exit = |success, code| Some(Exit { success, code });
    assert_eq!(
        finish("dsh", output(b" 1.2.3\n", b"warning"), exit(true, Some(0)), false),
        Ok("1.2.3".into())
    );
    assert_eq!(
        finish("curl", output(b"", b"first\ncould not resolve host \n\n"), exit(false, Some(6)), false),
        Err("curl exited 6: could not resolve host".into())
    );
    assert_eq!(
        finish("dsh", output(b"", b""), exit(false, None), false),
        Err("dsh exited -1: ".into())
    );
    assert_eq!(
        finish("dsh", output(b"", b"x"), exit(false, Some(i32::MIN)), false),
        Err("dsh exited -2147483648: x".into())
    );
    assert_eq!(
        finish("dsh", output(b"x", b""), exit(true, Some(0)), true),
        Err("dsh timed out".into())
    );
    assert_eq!(
        finish("dsh", output(b"x", b""), None, true),
        Err("dsh did not report an exit status".into())
    );
    assert_eq!(
        finish("dsh", None, exit(true, Some(0)), false),
        Err("the output reader for dsh panicked".into())
    );
    // Bytes that are no UTF-8 are replaced, and do not lose the rest.
    assert_eq!(
        finish("dsh", output(b"a\xffb \xe4\xb8\xad", b""), exit(true, Some(0)), false),
        Ok("a\u{fffd}b 中".into())
    );
}

#[test]
fn a_printed_url_is_read_whatever_follows_it() {
    let url = "https://127.0.0.1:1/?token=a%20b";
    for tail in ["", " ", "\t(ready)", " dsh web: http://other/"] {
        assert_eq!(extract_url(&format!("dsh web: {url}{tail}")).as_deref(), Some(url));
    }
}

#[test]
fn the_path_augmentation_puts_the_launcher_directory_first() {
    // Order matters: a stale `node` further along PATH must not win.
    let augmented = path_with_node_list("/opt/custom/bin/dsh", "/usr/bin:/bin".into(), None);
    let first = augmented.split(':').next().unwrap_or_default();
    assert_eq!(first, "/opt/custom/bin");
    // The existing PATH survives, so nothing else the launcher needs is lost.
    assert!(augmented.contains("/usr/bin"));
}
