//! The swap is run on a disk of its own: directories by their paths, each with
//! the names of the files in it.

use dsh_shell::install::{Install, ROOT_PACKAGE, SCOPE};
use dsh_shell::staging::{begin_stage, manifest, stage, Staging, StagingAction, StagingEvent};
use dsh_shell::swap::{
    apply, begin_apply, begin_rollback, discard_stage, rollback, Apply, Rollback, SwapAction,
};
use dsh_shell::task::{Command, Task};
use dsh_shell::version::Version;
use std::collections::BTreeMap;

fn v(text: &str) -> Version {
    Version::parse(text).unwrap_or_else(|| panic!("{text} should parse"))
}

struct Disk {
    dirs: BTreeMap<String, Vec<String>>,
    /// Moves onto this path fail.
    jammed: Option<String>,
}

impl Disk {
    fn put(&mut self, dir: String, names: &[&str]) {
        self.dirs.insert(dir, names.iter().map(|name| name.to_string()).collect());
    }

    fn has(&self, dir: &str, name: &str) -> bool {
        self.dirs.get(dir).is_some_and(|names| names.iter().any(|n| n == name))
    }

    fn is_dir(&self, dir: &str) -> bool {
        self.dirs.keys().any(|path| path == dir || path.starts_with(&format!("{dir}/")))
    }

    fn perform(&mut self, task: &Task) -> Result<(), String> {
        match task {
            Task::RemoveTree(dir) => {
                if !self.is_dir(dir) {
                    return Err("no such directory".into());
                }
                let inside = format!("{dir}/");
                self.dirs.retain(|path, _| path != dir && !path.starts_with(&inside));
                Ok(())
            }
            Task::Rename { from, to } => {
                if self.jammed.as_deref() == Some(to.as_str()) {
                    self.jammed = None;
                    return Err("device busy".into());
                }
                assert!(!self.is_dir(to), "a move must not land on a directory: {to}");
                match self.dirs.remove(from) {
                    Some(names) => {
                        self.dirs.insert(to.clone(), names);
                        Ok(())
                    }
                    None => Err("no such directory".into()),
                }
            }
            Task::MakeDirs(_) => Ok(()),
            other => panic!("a swap does not ask for this: {other:?}"),
        }
    }

    fn apply(&mut self, install: &Install, version: &Version) -> Result<(), String> {
        let staged = self.is_dir(&install.staged_scope(version));
        let (mut state, mut action) = begin_apply(install, version, staged);
        loop {
            match action {
                SwapAction::Do(task) => {
                    let outcome = self.perform(&task);
                    (state, action) = apply(install, version, state, outcome);
                }
                SwapAction::Done(result) => {
                    assert_eq!(state, Apply::Finished);
                    return result;
                }
                SwapAction::Wait => panic!("an apply that is not over must ask for something"),
            }
        }
    }

    fn rollback(&mut self, install: &Install) -> Result<(), String> {
        let backup = self.is_dir(&install.backup_dir());
        let (mut state, mut action) = begin_rollback(install, backup);
        loop {
            match action {
                SwapAction::Do(task) => {
                    let outcome = self.perform(&task);
                    (state, action) = rollback(install, state, outcome);
                }
                SwapAction::Done(result) => {
                    assert_eq!(state, Rollback::Finished);
                    return result;
                }
                SwapAction::Wait => panic!("a rollback that is not over must ask for something"),
            }
        }
    }
}

/// An install laid out exactly as bun's global tree is, with `packages` standing
/// in for the live scope's contents.
fn fake_install(packages: &[&str]) -> (Disk, Install) {
    let prefix = "/global".to_string();
    let scope = format!("{prefix}/node_modules/{SCOPE}");
    let launcher = format!("{scope}/{ROOT_PACKAGE}/lib/bin.js");
    let mut disk = Disk { dirs: BTreeMap::new(), jammed: None };
    disk.put(scope.clone(), packages);
    let install =
        Install { launcher: launcher.clone(), resolved: launcher, scope, prefix, bun: None };
    (disk, install)
}

fn fake_stage(disk: &mut Disk, install: &Install, version: &Version, packages: &[&str]) {
    disk.put(install.staged_scope(version), packages);
}

#[test]
fn apply_replaces_the_scope_and_keeps_the_old_one() {
    let (mut disk, install) = fake_install(&["dsh", "dsh-old-only"]);
    let version = v("0.1.5-rc.2");
    fake_stage(&mut disk, &install, &version, &["dsh", "dsh-new-only"]);

    disk.apply(&install, &version).expect("apply should succeed");

    // The new tree is live...
    assert!(disk.has(&install.scope, "dsh"));
    assert!(disk.has(&install.scope, "dsh-new-only"));
    // ...and a package the new version dropped is gone, which a per-package merge
    // would have left behind.
    assert!(!disk.has(&install.scope, "dsh-old-only"));
    // ...and the old tree is parked, not deleted.
    assert!(disk.has(&install.backup_dir(), "dsh-old-only"));
    // The staging directory itself is consumed by the rename.
    assert!(!disk.is_dir(&install.staged_scope(&version)));
}

#[test]
fn rollback_restores_exactly_what_was_there() {
    let (mut disk, install) = fake_install(&["dsh", "dsh-old-only"]);
    let version = v("0.1.5-rc.2");
    fake_stage(&mut disk, &install, &version, &["dsh", "dsh-new-only"]);

    disk.apply(&install, &version).unwrap();
    disk.rollback(&install).expect("rollback should succeed");

    assert!(disk.has(&install.scope, "dsh"));
    assert!(disk.has(&install.scope, "dsh-old-only"), "the old package is back");
    assert!(!disk.has(&install.scope, "dsh-new-only"), "the new package is gone");
    // A rollback consumes the backup, so a second one has nothing to do.
    assert!(disk.rollback(&install).is_err());
}

#[test]
fn apply_refuses_when_nothing_was_staged() {
    let (mut disk, install) = fake_install(&["dsh"]);
    let err = disk.apply(&install, &v("0.1.5-rc.2")).unwrap_err();
    assert!(err.contains("nothing staged"), "unexpected error: {err}");
    // The live tree must be untouched by a refused apply.
    assert!(disk.has(&install.scope, "dsh"));
    assert_eq!(
        err,
        "nothing staged at /global/dsh-shell-staging/0.1.5-rc.2/node_modules/@deepseek-ai; \
         run the staging step first"
    );
}

#[test]
fn a_second_apply_does_not_accumulate_backups() {
    let (mut disk, install) = fake_install(&["dsh", "first"]);
    let first = v("0.1.5-rc.1");
    fake_stage(&mut disk, &install, &first, &["dsh", "second"]);
    disk.apply(&install, &first).unwrap();

    let second = v("0.1.5-rc.2");
    fake_stage(&mut disk, &install, &second, &["dsh", "third"]);
    disk.apply(&install, &second).unwrap();

    // The backup holds the tree that was live until a moment ago — the first
    // staged tree — and not the original, nor both generations.
    assert!(disk.has(&install.backup_dir(), "second"));
    assert!(!disk.has(&install.backup_dir(), "first"));
    assert!(disk.has(&install.scope, "third"));
}

#[test]
fn rollback_after_a_second_apply_returns_to_the_middle_version() {
    let (mut disk, install) = fake_install(&["dsh", "v1"]);
    let first = v("0.1.5-rc.1");
    fake_stage(&mut disk, &install, &first, &["dsh", "v2"]);
    disk.apply(&install, &first).unwrap();
    let second = v("0.1.5-rc.2");
    fake_stage(&mut disk, &install, &second, &["dsh", "v3"]);
    disk.apply(&install, &second).unwrap();

    disk.rollback(&install).unwrap();
    assert!(disk.has(&install.scope, "v2"), "one generation back, not two");
}

#[test]
fn discard_removes_a_staged_tree() {
    let (mut disk, install) = fake_install(&["dsh"]);
    let version = v("0.1.5-rc.2");
    fake_stage(&mut disk, &install, &version, &["dsh"]);
    assert!(disk.is_dir(&install.staged_scope(&version)));
    disk.perform(&discard_stage(&install, &version)).unwrap();
    assert!(!disk.is_dir(&install.staged_scope(&version)));
    // The live scope is not what was discarded.
    assert!(disk.has(&install.scope, "dsh"));
}

#[test]
fn a_tree_that_cannot_be_placed_leaves_the_old_one_live() {
    let (mut disk, install) = fake_install(&["dsh", "old"]);
    let version = v("0.1.5-rc.2");
    fake_stage(&mut disk, &install, &version, &["dsh", "new"]);
    disk.jammed = Some(install.scope.clone());
    assert_eq!(
        disk.apply(&install, &version).unwrap_err(),
        "could not install the staged tree: device busy"
    );
    assert!(disk.has(&install.scope, "old"));
    assert!(!disk.is_dir(&install.backup_dir()));
}

#[test]
fn each_failure_of_a_swap_has_its_reason() {
    let (mut disk, install) = fake_install(&["dsh"]);
    let version = v("0.1.5-rc.2");
    fake_stage(&mut disk, &install, &version, &["dsh"]);
    disk.jammed = Some(install.backup_dir());
    assert_eq!(
        disk.apply(&install, &version).unwrap_err(),
        "could not move /global/node_modules/@deepseek-ai aside: device busy"
    );
    let (_, action) = apply(&install, &version, Apply::Making, Err("read-only".into()));
    assert_eq!(
        action,
        SwapAction::Done(Err("creating /global/dsh-shell-staging: read-only".into()))
    );
    assert_eq!(
        disk.rollback(&install).unwrap_err(),
        "there is no previous version to roll back to"
    );
    disk.apply(&install, &version).unwrap();
    disk.jammed = Some(install.failed_dir());
    assert_eq!(
        disk.rollback(&install).unwrap_err(),
        "could not move the failed tree aside: device busy"
    );
    disk.jammed = Some(install.scope.clone());
    assert_eq!(
        disk.rollback(&install).unwrap_err(),
        "could not restore the previous version: device busy"
    );
    assert_eq!(
        apply(&install, &version, Apply::Finished, Ok(())),
        (Apply::Finished, SwapAction::Wait)
    );
    assert_eq!(
        rollback(&install, Rollback::Finished, Ok(())),
        (Rollback::Finished, SwapAction::Wait)
    );
}

// -------------------------------------------------------------------- staging

fn with_bun() -> Install {
    let (_, install) = fake_install(&[]);
    Install { bun: Some("/home/u/.bun/bin/bun".into()), ..install }
}

fn ok() -> StagingEvent {
    StagingEvent::Attempted(Ok(String::new()))
}

const DIR: &str = "/global/dsh-shell-staging/1.2.3";

/// Run a staging up to the look at what was installed.
fn installed(install: &Install, version: &Version) -> Staging {
    let (state, action) = begin_stage(install, version);
    assert_eq!(action, StagingAction::Do(Task::RemoveTree(DIR.into())));
    // A tree that was not there is no reason to stop.
    let failed = StagingEvent::Attempted(Err("no such directory".into()));
    let (state, action) = stage(install, version, state, failed);
    assert_eq!(action, StagingAction::Do(Task::MakeDirs(DIR.into())));
    let (state, action) = stage(install, version, state, ok());
    assert_eq!(
        action,
        StagingAction::Do(Task::Write {
            path: format!("{DIR}/package.json"),
            contents: manifest(version),
        })
    );
    let (state, action) = stage(install, version, state, ok());
    assert_eq!(
        action,
        StagingAction::Do(Task::Run(Command {
            program: "/home/u/.bun/bin/bun".into(),
            args: vec!["install".into(), "--cwd".into(), DIR.into(), "--production".into()],
            path_hint: None,
            timeout: 600,
        }))
    );
    let (state, action) = stage(install, version, state, ok());
    assert_eq!(action, StagingAction::Look);
    state
}

fn looked(skip_smoke: bool, script_is_file: bool) -> StagingEvent {
    StagingEvent::Looked { skip_smoke, script_is_file }
}

#[test]
fn a_staged_tree_is_run_before_it_counts() {
    let install = with_bun();
    let version = v("1.2.3");
    let state = installed(&install, &version);
    let (state, action) = stage(&install, &version, state, looked(false, true));
    let script = install.staged_launcher(&version);
    assert_eq!(
        action,
        StagingAction::Do(Task::Run(Command {
            program: "/home/u/.bun/bin/bun".into(),
            args: vec!["run".into(), script, "--version".into()],
            path_hint: Some("/home/u/.bun/bin/bun".into()),
            timeout: 60,
        }))
    );
    let said = |out: &str| StagingEvent::Attempted(Ok(out.into()));
    assert_eq!(
        stage(&install, &version, state, said("1.2.3\n")),
        (Staging::Finished, StagingAction::Done(Ok(DIR.into())))
    );
    assert_eq!(
        stage(&install, &version, state, said("1.2.4")).1,
        StagingAction::Done(Err("the staged tree reports 1.2.4, expected 1.2.3".into()))
    );
    assert_eq!(
        stage(&install, &version, state, said("oops")).1,
        StagingAction::Done(Err(
            "the staged 1.2.3 could not start: unreadable version from launcher: \"oops\"".into()
        ))
    );
    assert_eq!(
        stage(&install, &version, state, StagingEvent::Attempted(Err("exited 1".into()))).1,
        StagingAction::Done(Err("the staged 1.2.3 could not start: exited 1".into()))
    );
}

#[test]
fn what_is_run_is_the_staged_tree() {
    let install = with_bun();
    let version = v("1.2.3");
    let state = installed(&install, &version);
    let (program, args) = install.staged_command(&version, true).unwrap();
    assert_eq!(Some(program), install.bun);
    assert_eq!(args, ["run".to_string(), install.staged_launcher(&version)]);
    // The script lies in the tree that an apply moves into place.
    assert!(args[1].starts_with(&format!("{}/", install.staged_scope(&version))));
    let (_, action) = stage(&install, &version, state, looked(true, false));
    assert_eq!(action, StagingAction::Done(Ok(DIR.into())));
    let (_, action) = stage(&install, &version, state, looked(false, false));
    assert_eq!(
        action,
        StagingAction::Done(Err(format!(
            "nothing to run at {DIR}/node_modules/@deepseek-ai/dsh/lib/bin.js"
        )))
    );
}

#[test]
fn each_failure_of_a_staging_has_its_reason() {
    let install = with_bun();
    let version = v("1.2.3");
    let failed = || StagingEvent::Attempted(Err("no space".into()));
    let reason = |state| match stage(&install, &version, state, failed()) {
        (Staging::Finished, StagingAction::Done(Err(reason))) => reason,
        other => panic!("a failure was expected: {other:?}"),
    };
    assert_eq!(reason(Staging::Making), format!("creating {DIR}: no space"));
    assert_eq!(reason(Staging::Writing), "writing the staging manifest: no space");
    assert_eq!(reason(Staging::Installing), "staging 1.2.3 failed: no space");
    let (_, without) = fake_install(&[]);
    assert_eq!(
        begin_stage(&without, &version).1,
        StagingAction::Done(Err("no package manager found to stage with".into()))
    );
    assert_eq!(
        without.staged_command(&version, true).unwrap_err(),
        "no package manager available to run the staged tree"
    );
    assert_eq!(stage(&install, &version, Staging::Finished, ok()).1, StagingAction::Wait);
    assert_eq!(stage(&install, &version, Staging::Looking, ok()).1, StagingAction::Wait);
}

#[test]
fn the_manifest_pins_one_exact_version() {
    assert_eq!(
        manifest(&v("0.1.5-rc.2")),
        "{\n  \"name\": \"dsh-shell-staging\",\n  \"private\": true,\n  \"dependencies\": \
         { \"@deepseek-ai/dsh\": \"0.1.5-rc.2\" }\n}\n"
    );
}

#[test]
fn a_staging_works_beside_the_live_tree() {
    let (mut disk, install) = fake_install(&["dsh", "dsh-core"]);
    let install = Install { bun: Some("/home/u/.bun/bin/bun".into()), ..install };
    let version = v("1.2.3");
    let scope = install.scope.clone();
    fake_stage(&mut disk, &install, &version, &["left over"]);
    let (mut state, mut action) = begin_stage(&install, &version);
    while state != Staging::Installing {
        if let StagingAction::Do(task) = &action {
            match task {
                Task::Write { path, .. } => {
                    assert!(path.starts_with(&install.stage_dir(&version)), "{path}")
                }
                task => {
                    disk.perform(task).unwrap();
                }
            }
        }
        (state, action) = stage(&install, &version, state, ok());
        assert!(disk.has(&scope, "dsh") && disk.has(&scope, "dsh-core"));
    }
    assert!(!disk.is_dir(&install.staged_scope(&version)), "an earlier attempt must be gone");
}
