//! Building a new DSH tree beside the live one, and proving that it starts.

use crate::install;
use crate::install::{Install, Place};
use crate::path;
use crate::swap;
use crate::swap::ApplyLeg;
use crate::task;
use crate::task::{Command, Deed, Disk, Task};
use crate::text;
use crate::updater;
use crate::version;
use crate::version::{Release, Version};
use vstd::prelude::*;

verus! {

/// How far a staging has come: the task that is being attempted, or the question
/// that is open.
#[derive(Debug, Clone, Copy, PartialEq, Eq, Structural)]
pub enum Staging {
    /// Removing what an earlier attempt left: a half-finished tree must not be
    /// upgraded into something that looks complete.
    Clearing,
    /// Creating the staging directory.
    Making,
    /// Writing the manifest.
    Writing,
    /// Resolving and installing the tree.
    Installing,
    /// Looking at what was installed.
    Looking,
    /// Running the staged tree for its version.
    Probing,
    /// Over.
    Finished,
}

/// What came back from outside.
#[derive(Debug, PartialEq, Eq)]
pub enum StagingEvent {
    /// How a task went; for a program, what it printed.
    Attempted(Result<String, String>),
    /// What the staged tree looks like.
    Looked {
        /// Whether the proof that the tree starts is to be left out.
        skip_smoke: bool,
        /// Whether the staged launcher is a file.
        script_is_file: bool,
    },
}

/// What a staging does next.
#[derive(Debug, PartialEq, Eq)]
pub enum StagingAction {
    /// Attempt a task, and report how it went.
    Do(Task),
    /// Look at the staged tree.
    Look,
    /// The staging is over; the tree is in the directory given.
    Done(Result<String, String>),
    /// Nothing: the event answers no open question.
    Wait,
}

/// The manifest of a staged tree: exactly one dependency, and the exact version.
/// Without a lockfile beside it the resolution is fresh.
pub open spec fn manifest_text(v: Release) -> Seq<char> {
    "{\n  \"name\": \"dsh-shell-staging\",\n  \"private\": true,\n  \"dependencies\": { \""@
        + install::SCOPE@ + "/"@ + install::ROOT_PACKAGE@ + "\": \""@ + version::version_text(v)
        + "\" }\n}\n"@
}

/// The manifest of a staged tree.
pub fn manifest(version: &Version) -> (contents: String)
    ensures
        contents@ == manifest_text(version@),
{
    let s = text::own(
        "{\n  \"name\": \"dsh-shell-staging\",\n  \"private\": true,\n  \"dependencies\": { \"",
    );
    let s = text::plus(s, install::SCOPE);
    let s = text::plus(s, "/");
    let s = text::plus(s, install::ROOT_PACKAGE);
    let s = text::plus(s, "\": \"");
    let s = text::plus(s, version.to_string().as_str());
    text::plus(s, "\" }\n}\n")
}

/// The command that installs a tree into `dir`.
pub open spec fn install_run(bun: Seq<char>, dir: Seq<char>) -> task::Run {
    task::Run {
        program: bun,
        args: seq!["install"@, "--cwd"@, dir, "--production"@],
        path_hint: None,
        timeout: 600,
    }
}

fn install_command(bun: &str, dir: &str) -> (command: Command)
    ensures
        command@ == install_run(bun@, dir@),
{
    let mut args: Vec<String> = Vec::new();
    args.push(text::own("install"));
    args.push(text::own("--cwd"));
    args.push(text::own(dir));
    args.push(text::own("--production"));
    assert(text::views(args@) =~= seq!["install"@, "--cwd"@, dir@, "--production"@]);
    Command { program: text::own(bun), args, path_hint: None, timeout: 600 }
}

/// The task of each stage before the package manager runs.
pub open spec fn staging_deed(place: Place, v: Release, state: Staging) -> Deed {
    let dir = install::stage_of(place.prefix, v);
    match state {
        Staging::Clearing => Deed::RemoveTree(dir),
        Staging::Making => Deed::MakeDirs(dir),
        _ => Deed::Write {
            path: path::joined(dir, "package.json"@),
            contents: manifest_text(v),
        },
    }
}

/// Why a stage of a staging failed.
pub open spec fn staging_error(place: Place, v: Release, state: Staging, err: Seq<char>) -> Seq<
    char,
> {
    match state {
        Staging::Making => "creating "@ + install::stage_of(place.prefix, v) + ": "@ + err,
        Staging::Writing => "writing the staging manifest: "@ + err,
        Staging::Installing => "staging "@ + version::version_text(v) + " failed: "@ + err,
        _ => "the staged "@ + version::version_text(v) + " could not start: "@ + err,
    }
}

/// The version a staged tree reported, and the one it should have.
pub open spec fn wrong_version(reported: Release, v: Release) -> Seq<char> {
    "the staged tree reports "@ + version::version_text(reported) + ", expected "@
        + version::version_text(v)
}

/// Begin to stage `version`.
pub fn begin_stage(install: &Install, version: &Version) -> (step: (Staging, StagingAction))
    ensures
        match install@.bun {
            Some(_) => {
                &&& step.0 == Staging::Clearing
                &&& step.1 matches StagingAction::Do(task)
                &&& task@ == staging_deed(install@, version@, Staging::Clearing)
            },
            None => {
                &&& step.0 == Staging::Finished
                &&& step.1 matches StagingAction::Done(Err(err))
                &&& err@ == "no package manager found to stage with"@
            },
        },
{
    match &install.bun {
        Some(_) => (
            Staging::Clearing,
            StagingAction::Do(Task::RemoveTree(install.stage_dir(version))),
        ),
        None => (
            Staging::Finished,
            StagingAction::Done(Err(text::own("no package manager found to stage with"))),
        ),
    }
}

/// What `Install::staged_command` answers.
pub open spec fn command_for_stage(
    place: Place,
    v: Release,
    script_is_file: bool,
) -> Result<task::Run, Seq<char>> {
    let script = install::launcher_in(install::staged_scope_of(place.prefix, v));
    if !script_is_file {
        Err("nothing to run at "@ + script)
    } else {
        match place.bun {
            Some(bun) => Ok(updater::version_run(bun, seq!["run"@, script], place.bun)),
            None => Err("no package manager available to run the staged tree"@),
        }
    }
}

/// Take the next step of staging `version`.
///
/// The tree is resolved fresh, in a directory under the install prefix, and run
/// for its version before anything touches the live one: that is the entire
/// reason staging exists.
pub fn stage(
    install: &Install,
    version: &Version,
    state: Staging,
    event: StagingEvent,
) -> (step: (Staging, StagingAction))
    ensures
        match (state, event) {
            (Staging::Clearing, StagingEvent::Attempted(_)) => {
                &&& step.0 == Staging::Making
                &&& step.1 matches StagingAction::Do(task)
                &&& task@ == staging_deed(install@, version@, Staging::Making)
            },
            (Staging::Making, StagingEvent::Attempted(Ok(_))) => {
                &&& step.0 == Staging::Writing
                &&& step.1 matches StagingAction::Do(task)
                &&& task@ == staging_deed(install@, version@, Staging::Writing)
            },
            (Staging::Writing, StagingEvent::Attempted(Ok(_))) => match install@.bun {
                Some(bun) => {
                    &&& step.0 == Staging::Installing
                    &&& step.1 matches StagingAction::Do(task)
                    &&& task@ == Deed::Run(
                        install_run(bun, install::stage_of(install.prefix@, version@)),
                    )
                },
                None => {
                    &&& step.0 == Staging::Finished
                    &&& step.1 matches StagingAction::Done(Err(err))
                    &&& err@ == "no package manager found to stage with"@
                },
            },
            (Staging::Installing, StagingEvent::Attempted(Ok(_))) => {
                &&& step.0 == Staging::Looking
                &&& step.1 == StagingAction::Look
            },
            (
                Staging::Looking,
                StagingEvent::Looked { skip_smoke, script_is_file },
            ) => if skip_smoke {
                &&& step.0 == Staging::Finished
                &&& step.1 matches StagingAction::Done(Ok(dir))
                &&& dir@ == install::stage_of(install.prefix@, version@)
            } else {
                match command_for_stage(install@, version@, script_is_file) {
                    Ok(run) => {
                        &&& step.0 == Staging::Probing
                        &&& step.1 matches StagingAction::Do(task)
                        &&& task@ == Deed::Run(run)
                    },
                    Err(reason) => {
                        &&& step.0 == Staging::Finished
                        &&& step.1 matches StagingAction::Done(Err(err))
                        &&& err@ == reason
                    },
                }
            },
            (Staging::Probing, StagingEvent::Attempted(Ok(out))) => {
                &&& step.0 == Staging::Finished
                &&& step.1 matches StagingAction::Done(result)
                &&& match updater::version_in_output(out@) {
                    Some(reported) => if reported == version@ {
                        result matches Ok(dir) && dir@ == install::stage_of(
                            install.prefix@,
                            version@,
                        )
                    } else {
                        result matches Err(err) && err@ == wrong_version(reported, version@)
                    },
                    None => result matches Err(err) && err@ == staging_error(
                        install@,
                        version@,
                        Staging::Probing,
                        "unreadable version from launcher: "@ + text::debug_text(
                            text::trimmed(updater::last_line(out@)),
                        ),
                    ),
                }
            },
            (Staging::Finished, _) => step == (state, StagingAction::Wait),
            (Staging::Looking, StagingEvent::Attempted(_)) => step == (state, StagingAction::Wait),
            (_, StagingEvent::Looked { .. }) => step == (state, StagingAction::Wait),
            (_, StagingEvent::Attempted(Err(err))) => {
                &&& step.0 == Staging::Finished
                &&& step.1 matches StagingAction::Done(Err(reason))
                &&& reason@ == staging_error(install@, version@, state, err@)
            },
        },
{
    let dir = install.stage_dir(version);
    match (state, event) {
        (Staging::Clearing, StagingEvent::Attempted(_)) => (
            Staging::Making,
            StagingAction::Do(Task::MakeDirs(dir)),
        ),
        (Staging::Making, StagingEvent::Attempted(Ok(_))) => {
            let path = path::join(dir.as_str(), "package.json");
            (
                Staging::Writing,
                StagingAction::Do(Task::Write { path, contents: manifest(version) }),
            )
        },
        (Staging::Writing, StagingEvent::Attempted(Ok(_))) => match &install.bun {
            Some(bun) => (
                Staging::Installing,
                StagingAction::Do(Task::Run(install_command(bun.as_str(), dir.as_str()))),
            ),
            None => (
                Staging::Finished,
                StagingAction::Done(Err(text::own("no package manager found to stage with"))),
            ),
        },
        (Staging::Installing, StagingEvent::Attempted(Ok(_))) => (
            Staging::Looking,
            StagingAction::Look,
        ),
        (Staging::Looking, StagingEvent::Looked { skip_smoke, script_is_file }) => {
            if skip_smoke {
                return (Staging::Finished, StagingAction::Done(Ok(dir)));
            }
            match install.staged_command(version, script_is_file) {
                Ok((program, args)) => {
                    let hint = match &install.bun {
                        Some(bun) => Some(bun.clone()),
                        None => None,
                    };
                    let command = updater::version_of_hinted(program.as_str(), args, hint);
                    (Staging::Probing, StagingAction::Do(Task::Run(command)))
                },
                Err(err) => (Staging::Finished, StagingAction::Done(Err(err))),
            }
        },
        (Staging::Probing, StagingEvent::Attempted(Ok(out))) => {
            let result = match updater::reported_version(Ok(out)) {
                Ok(reported) => if reported == *version {
                    Ok(dir)
                } else {
                    let s = text::plus(
                        text::own("the staged tree reports "),
                        reported.to_string().as_str(),
                    );
                    let s = text::plus(s, ", expected ");
                    Err(text::plus(s, version.to_string().as_str()))
                },
                Err(err) => Err(failure(install, version, Staging::Probing, err.as_str())),
            };
            (Staging::Finished, StagingAction::Done(result))
        },
        (Staging::Finished, _) => (state, StagingAction::Wait),
        (Staging::Looking, _) => (state, StagingAction::Wait),
        (_, StagingEvent::Looked { .. }) => (state, StagingAction::Wait),
        (_, StagingEvent::Attempted(Err(err))) => (
            Staging::Finished,
            StagingAction::Done(Err(failure(install, version, state, err.as_str()))),
        ),
    }
}

fn failure(install: &Install, version: &Version, state: Staging, err: &str) -> (reason: String)
    ensures
        reason@ == staging_error(install@, version@, state, err@),
{
    match state {
        Staging::Making => {
            let s = text::plus(text::own("creating "), install.stage_dir(version).as_str());
            text::plus(text::plus(s, ": "), err)
        },
        Staging::Writing => text::plus(text::own("writing the staging manifest: "), err),
        Staging::Installing => {
            let s = text::plus(text::own("staging "), version.to_string().as_str());
            text::plus(text::plus(s, " failed: "), err)
        },
        _ => {
            let s = text::plus(text::own("the staged "), version.to_string().as_str());
            text::plus(text::plus(s, " could not start: "), err)
        },
    }
}

// --------------------------------------------------------------------- laws

/// What is run to prove a staged tree is a script below the very directory that an
/// apply moves into place: no other tree is proved in its stead.
pub proof fn what_is_proved_is_what_is_applied(place: Place, v: Release, script_is_file: bool)
    ensures
        command_for_stage(place, v, script_is_file) matches Ok(run) ==> {
            &&& place.bun == Some(run.program)
            &&& run.args == seq![
                "run"@,
                install::launcher_in(install::staged_scope_of(place.prefix, v)),
                "--version"@,
            ]
            &&& path::inside(run.args[1], install::staged_scope_of(place.prefix, v))
        },
        swap::apply_deed(place, v, ApplyLeg::Placing) == (Deed::Rename {
            from: install::staged_scope_of(place.prefix, v),
            to: place.scope,
        }),
{
    let scope = install::staged_scope_of(place.prefix, v);
    install::launcher_is_inside_scope(scope);
    if let Ok(run) = command_for_stage(place, v, script_is_file) {
        assert(run.args =~= seq!["run"@, install::launcher_in(scope), "--version"@]);
    }
}

/// No task of a staging touches the live tree, whether it succeeds or fails: until
/// the swap, what runs is what ran before.
pub proof fn staging_leaves_the_live_tree(
    place: Place,
    v: Release,
    state: Staging,
    before: Disk,
    ok: bool,
    after: Disk,
)
    requires
        install::live_is_outside(place),
        task::attempted(before, staging_deed(place, v, state), ok, after),
    ensures
        after.dom().contains(place.scope) == before.dom().contains(place.scope),
        before.dom().contains(place.scope) ==> after[place.scope] == before[place.scope],
{
    reveal_strlit("package.json");
    let staging = install::staging_of(place.prefix);
    let dir = install::stage_of(place.prefix, v);
    let file = path::joined(dir, "package.json"@);
    install::lemma_version_text_starts(v);
    path::joined_is_inside(staging, version::version_text(v));
    path::joined_is_inside(dir, "package.json"@);
    path::inside_is_transitive(file, dir, staging);
    let gone = match state {
        Staging::Clearing => dir,
        _ => file,
    };
    assert(gone != place.scope);
    assert(state == Staging::Making || after.remove(gone).dom().contains(place.scope)
        == before.remove(gone).dom().contains(place.scope));
    assert(state == Staging::Making || after.remove(gone)[place.scope] == before.remove(
        gone,
    )[place.scope]);
}

/// Where the value of the only dependency begins in a manifest.
pub open spec fn value_start(contents: Seq<char>) -> Option<int> {
    match text::position(contents, "\"@deepseek-ai/dsh\": \""@) {
        Some(i) => Some(i + 21),
        None => None,
    }
}

/// The manifest pins the exact version. The value of its one dependency, from the quote
/// that opens it to the quote that closes it, the last one of the manifest, is the text
/// of the version and nothing else: no range, no tag. Reading that value as a version
/// gives the version back.
pub proof fn manifest_pins_the_exact_version(version: &Version, contents: String, shown: String)
    requires
        call_ensures(manifest, (version,), contents),
        call_ensures(Version::to_string, (version,), shown),
    ensures
        value_start(contents@) matches Some(start) && {
            let end = contents@.len() - 6;
            &&& start <= end
            &&& contents@[start - 1] == '"' && contents@[end] == '"'
            &&& forall|i: int| end < i < contents@.len() ==> contents@[i] != '"'
            &&& contents@.subrange(start, end) == shown@
            &&& version::writable(version@) ==> version::written_version(
                contents@.subrange(start, end),
            ) == Some(version@)
        },
{
    reveal_strlit(
        "{\n  \"name\": \"dsh-shell-staging\",\n  \"private\": true,\n  \"dependencies\": { \"",
    );
    reveal_strlit("@deepseek-ai");
    reveal_strlit("/");
    reveal_strlit("dsh");
    reveal_strlit("\": \"");
    reveal_strlit("\" }\n}\n");
    reveal_strlit("\"@deepseek-ai/dsh\": \"");
    let s = contents@;
    let head =
        "{\n  \"name\": \"dsh-shell-staging\",\n  \"private\": true,\n  \"dependencies\": { \""@;
    lemma_value_start(version@);
    let start = 20int + head.len();
    let end = s.len() - 6;
    assert(s.subrange(start, end) =~= version::version_text(version@));
    if version::writable(version@) {
        version::written_then_read(version@);
    }
}

/// Everything of a manifest but that value is the same for every version: a private
/// package of a fixed name, with no other dependency.
pub proof fn manifests_differ_in_the_version_alone(
    one: &Version,
    other: &Version,
    first: String,
    second: String,
)
    requires
        call_ensures(manifest, (one,), first),
        call_ensures(manifest, (other,), second),
    ensures
        value_start(first@) == value_start(second@),
        value_start(first@) matches Some(start) && {
            &&& first@.take(start) == second@.take(start)
            &&& first@.take(start)
                == "{\n  \"name\": \"dsh-shell-staging\",\n  \"private\": true,\n  \"dependencies\": { \"@deepseek-ai/dsh\": \""@
        },
        first@.skip(first@.len() - 6) == "\" }\n}\n"@,
        second@.skip(second@.len() - 6) == "\" }\n}\n"@,
{
    reveal_strlit(
        "{\n  \"name\": \"dsh-shell-staging\",\n  \"private\": true,\n  \"dependencies\": { \"",
    );
    reveal_strlit("@deepseek-ai");
    reveal_strlit("/");
    reveal_strlit("dsh");
    reveal_strlit("\": \"");
    reveal_strlit("\" }\n}\n");
    reveal_strlit("\"@deepseek-ai/dsh\": \"");
    reveal_strlit(
        "{\n  \"name\": \"dsh-shell-staging\",\n  \"private\": true,\n  \"dependencies\": { \"@deepseek-ai/dsh\": \"",
    );
    lemma_value_start(one@);
    lemma_value_start(other@);
    let start = value_start(first@)->Some_0;
    assert(first@.take(start) =~= second@.take(start));
    assert(first@.take(start)
        =~= "{\n  \"name\": \"dsh-shell-staging\",\n  \"private\": true,\n  \"dependencies\": { \"@deepseek-ai/dsh\": \""@);
    assert(first@.skip(first@.len() - 6) =~= "\" }\n}\n"@);
    assert(second@.skip(second@.len() - 6) =~= "\" }\n}\n"@);
}

proof fn lemma_value_start(v: Release)
    ensures
        value_start(manifest_text(v)) == Some(
            20int
                + "{\n  \"name\": \"dsh-shell-staging\",\n  \"private\": true,\n  \"dependencies\": { \""@.len(),
        ),
{
    reveal_strlit(
        "{\n  \"name\": \"dsh-shell-staging\",\n  \"private\": true,\n  \"dependencies\": { \"",
    );
    reveal_strlit("@deepseek-ai");
    reveal_strlit("/");
    reveal_strlit("dsh");
    reveal_strlit("\": \"");
    reveal_strlit("\" }\n}\n");
    reveal_strlit("\"@deepseek-ai/dsh\": \"");
    let s = manifest_text(v);
    let head =
        "{\n  \"name\": \"dsh-shell-staging\",\n  \"private\": true,\n  \"dependencies\": { \""@;
    let key = "\"@deepseek-ai/dsh\": \""@;
    let i = head.len() - 1;
    assert(s.subrange(i, i + 21) =~= key);
    assert(text::occurs_at(s, key, i));
    assert forall|j: int| 0 <= j < i implies !text::occurs_at(s, key, j) by {
        if text::occurs_at(s, key, j) {
            assert(s.subrange(j, j + 21)[1] == s[j + 1]);
            assert(s[j + 1] == head[j + 1]);
            assert(head[j + 1] == '@');
        }
    }
    text::lemma_found(s, key, 0, i);
}

/// A staging is a success in two cases alone: the tree was run and reported the very
/// version that was staged, or the proof was to be left out. The directory it names is
/// that of the version.
pub proof fn only_a_proved_tree_is_staged(
    install: &Install,
    version: &Version,
    state: Staging,
    event: StagingEvent,
    step: (Staging, StagingAction),
)
    requires
        call_ensures(stage, (install, version, state, event), step),
    ensures
        (step.1 matches StagingAction::Done(result) && result is Ok) <==> {
            ||| state is Probing && (event matches StagingEvent::Attempted(Ok(out))
                && updater::version_in_output(out@) == Some(version@))
            ||| state is Looking && (event matches StagingEvent::Looked { skip_smoke, .. }
                && skip_smoke)
        },
        step.1 matches StagingAction::Done(Ok(dir)) ==> dir@ == install::stage_of(
            install.prefix@,
            version@,
        ),
        step.1 is Done ==> step.0 is Finished,
{
}

/// The tasks of a staging come in their order, each on the success of the one before it
/// and on nothing else: the directory is made once the old one has been cleared away,
/// however that went; the manifest is written into it; the package manager installs
/// into it; and the staged script is run, for its version, where it is there.
pub proof fn staging_tasks_come_in_order(
    install: &Install,
    version: &Version,
    state: Staging,
    event: StagingEvent,
    step: (Staging, StagingAction),
)
    requires
        call_ensures(stage, (install, version, state, event), step),
    ensures
        ({
            let dir = install::stage_of(install.prefix@, version@);
            let went_well = event matches StagingEvent::Attempted(outcome) && outcome is Ok;
            &&& step.0 is Making && state !is Making <==> state is Clearing && event is Attempted
            &&& step.0 is Writing && state !is Writing <==> state is Making && went_well
            &&& step.0 is Installing && state !is Installing <==> state is Writing && went_well
                && install.bun is Some
            &&& step.0 is Looking && state !is Looking <==> state is Installing && went_well
            &&& step.0 is Probing && state !is Probing <==> state is Looking && install.bun is Some
                && (event matches StagingEvent::Looked { skip_smoke, script_is_file } && !skip_smoke
                && script_is_file)
            &&& step.0 !is Clearing || state is Clearing
            &&& step.1 matches StagingAction::Do(task) ==> match task@ {
                Deed::MakeDirs(made) => step.0 is Making && made == dir,
                Deed::Write { path, contents } => {
                    &&& step.0 is Writing
                    &&& path == path::joined(dir, "package.json"@)
                    &&& contents == manifest_text(version@)
                },
                Deed::Run(run) => {
                    &&& text::held(install.bun) == Some(run.program)
                    &&& step.0 is Installing ==> run.args == seq![
                        "install"@,
                        "--cwd"@,
                        dir,
                        "--production"@,
                    ] && run.timeout == 600
                    &&& step.0 !is Installing ==> step.0 is Probing && run.args == seq![
                        "run"@,
                        install::launcher_in(install::staged_scope_of(install.prefix@, version@)),
                        "--version"@,
                    ] && run.timeout == 60 && run.path_hint == Some(run.program)
                },
                _ => false,
            }
            &&& step.1 is Look ==> step.0 is Looking
        }),
{
    let scope = install::staged_scope_of(install.prefix@, version@);
    if let Ok(run) = command_for_stage(install@, version@, true) {
        assert(run.args =~= seq!["run"@, install::launcher_in(scope), "--version"@]);
    }
}

/// A task that fails ends the staging, but for the clearing of what an earlier attempt
/// left, and the reason says which task it was and ends with what went wrong.
pub proof fn staging_failures_say_why(
    install: &Install,
    version: &Version,
    state: Staging,
    err: String,
    step: (Staging, StagingAction),
)
    requires
        call_ensures(
            stage,
            (install, version, state, StagingEvent::Attempted(Err::<String, String>(err))),
            step,
        ),
        state is Making || state is Writing || state is Installing || state is Probing,
    ensures
        step.0 is Finished,
        step.1 matches StagingAction::Done(Err(reason)) && {
            let shown = version::version_text(version@);
            &&& reason@.len() > err@.len()
            &&& reason@.skip(reason@.len() - err@.len()) == err@
            &&& state is Making ==> reason@ == "creating "@ + install::stage_of(
                install.prefix@,
                version@,
            ) + ": "@ + err@
            &&& state is Writing ==> reason@ == "writing the staging manifest: "@ + err@
            &&& state is Installing ==> reason@ == "staging "@ + shown + " failed: "@ + err@
            &&& state is Probing ==> reason@ == "the staged "@ + shown + " could not start: "@
                + err@
        },
{
    reveal_strlit(": ");
    reveal_strlit("writing the staging manifest: ");
    reveal_strlit(" failed: ");
    reveal_strlit(" could not start: ");
    if let StagingAction::Done(Err(reason)) = step.1 {
        assert(reason@.skip(reason@.len() - err@.len()) =~= err@);
    }
}

/// A staged tree that reports another version is refused, and the reason names both.
pub proof fn another_version_is_refused(
    install: &Install,
    version: &Version,
    out: String,
    other: Release,
    step: (Staging, StagingAction),
)
    requires
        call_ensures(
            stage,
            (
                install,
                version,
                Staging::Probing,
                StagingEvent::Attempted(Ok::<String, String>(out)),
            ),
            step,
        ),
        updater::version_in_output(out@) == Some(other),
        other != version@,
    ensures
        step.0 is Finished,
        step.1 matches StagingAction::Done(Err(reason)) && reason@ == "the staged tree reports "@
            + version::version_text(other) + ", expected "@ + version::version_text(version@),
{
}

/// What answers no open question changes nothing.
pub proof fn staging_ignores_stray_events(
    install: &Install,
    version: &Version,
    state: Staging,
    event: StagingEvent,
    step: (Staging, StagingAction),
)
    requires
        call_ensures(stage, (install, version, state, event), step),
        state is Finished || (event is Looked && state !is Looking) || (event is Attempted
            && state is Looking),
    ensures
        step.0 == state,
        step.1 is Wait,
{
}

/// A staging begins by clearing the directory of its version away, and does not begin at
/// all without a package manager.
pub proof fn staging_begins_clean(install: &Install, version: &Version, step: (Staging, StagingAction))
    requires
        call_ensures(begin_stage, (install, version), step),
    ensures
        install.bun is Some <==> step.0 is Clearing,
        install.bun is Some ==> (step.1 matches StagingAction::Do(task) && task@ == Deed::RemoveTree(
            install::stage_of(install.prefix@, version@),
        )),
        install.bun is None ==> step.0 is Finished && (step.1 matches StagingAction::Done(Err(err))
            && err@ == "no package manager found to stage with"@),
{
}

} // verus!
