//! Replacing the live DSH tree with a staged one, and putting it back.
//!
//! Both operations are sequences of directory moves within one filesystem, so
//! each move is atomic. They are the only operations that can lose a working
//! installation.

use crate::install;
use crate::install::{Install, Place};
use crate::path;
use crate::task;
use crate::task::{Deed, Disk, Task};
use crate::text;
use crate::version;
use crate::version::{Release, Version};
use vstd::prelude::*;

verus! {

/// What a swap does next.
#[derive(Debug, PartialEq, Eq)]
pub enum SwapAction {
    /// Attempt a task, and report how it went.
    Do(Task),
    /// The operation is over.
    Done(Result<(), String>),
    /// Nothing: the operation was over before.
    Wait,
}

// ------------------------------------------------------------------ applying

/// How far an apply has come: the task that is being attempted.
#[derive(Debug, Clone, PartialEq, Eq)]
pub enum Apply {
    /// Removing the previous backup.
    Clearing,
    /// Creating the directory the backup goes to.
    Making,
    /// Moving the live tree aside.
    Parking,
    /// Moving the staged tree into place.
    Placing,
    /// Moving the old tree back, because the staged one could not be placed.
    Restoring(String),
    /// Over.
    Finished,
}

/// The stage of an apply, without what it carries along.
pub ghost enum ApplyLeg {
    Clearing,
    Making,
    Parking,
    Placing,
    Restoring,
    Finished,
}

impl View for Apply {
    type V = ApplyLeg;

    open spec fn view(&self) -> ApplyLeg {
        match self {
            Apply::Clearing => ApplyLeg::Clearing,
            Apply::Making => ApplyLeg::Making,
            Apply::Parking => ApplyLeg::Parking,
            Apply::Placing => ApplyLeg::Placing,
            Apply::Restoring(_) => ApplyLeg::Restoring,
            Apply::Finished => ApplyLeg::Finished,
        }
    }
}

/// Where the previous scope is parked.
pub open spec fn backup_of(place: Place) -> Seq<char> {
    path::joined(install::staging_of(place.prefix), install::BACKUP_DIR@)
}

/// Where a tree that would not start is parked.
pub open spec fn failed_of(place: Place) -> Seq<char> {
    path::joined(install::staging_of(place.prefix), "failed-at"@)
}

/// The task of each stage of an apply.
pub open spec fn apply_deed(place: Place, v: Release, leg: ApplyLeg) -> Deed {
    match leg {
        ApplyLeg::Clearing => Deed::RemoveTree(backup_of(place)),
        ApplyLeg::Making => Deed::MakeDirs(install::staging_of(place.prefix)),
        ApplyLeg::Parking => Deed::Rename { from: place.scope, to: backup_of(place) },
        ApplyLeg::Placing => Deed::Rename {
            from: install::staged_scope_of(place.prefix, v),
            to: place.scope,
        },
        _ => Deed::Rename { from: backup_of(place), to: place.scope },
    }
}

/// The stage that follows, by whether the task succeeded.
pub open spec fn apply_leg(leg: ApplyLeg, ok: bool) -> ApplyLeg {
    match leg {
        ApplyLeg::Clearing => ApplyLeg::Making,
        ApplyLeg::Making => if ok {
            ApplyLeg::Parking
        } else {
            ApplyLeg::Finished
        },
        ApplyLeg::Parking => if ok {
            ApplyLeg::Placing
        } else {
            ApplyLeg::Finished
        },
        ApplyLeg::Placing => if ok {
            ApplyLeg::Finished
        } else {
            ApplyLeg::Restoring
        },
        _ => ApplyLeg::Finished,
    }
}

/// Begin to replace the live scope with the one staged for `version`, which has
/// to be there.
pub fn begin_apply(install: &Install, version: &Version, staged_is_dir: bool) -> (step: (
    Apply,
    SwapAction,
))
    ensures
        if staged_is_dir {
            &&& step.0@ == ApplyLeg::Clearing
            &&& step.1 matches SwapAction::Do(task)
            &&& task@ == apply_deed(install@, version@, ApplyLeg::Clearing)
        } else {
            &&& step.0@ == ApplyLeg::Finished
            &&& step.1 matches SwapAction::Done(Err(err))
            &&& err@ == "nothing staged at "@ + install::staged_scope_of(
                install.prefix@,
                version@,
            ) + "; run the staging step first"@
        },
{
    if staged_is_dir {
        (Apply::Clearing, SwapAction::Do(Task::RemoveTree(install.backup_dir())))
    } else {
        let staged = install.staged_scope(version);
        let err = text::plus(text::own("nothing staged at "), staged.as_str());
        let err = text::plus(err, "; run the staging step first");
        (Apply::Finished, SwapAction::Done(Err(err)))
    }
}

/// Why an apply ended without the staged tree in place.
pub open spec fn apply_error(install: Install, state: Apply, err: Seq<char>) -> Seq<char> {
    match state {
        Apply::Making => "creating "@ + install::staging_of(install.prefix@) + ": "@ + err,
        Apply::Parking => "could not move "@ + install.scope@ + " aside: "@ + err,
        Apply::Restoring(reason) => reason@,
        _ => err,
    }
}

/// Take the next step of an apply, keeping the old tree aside.
///
/// Where the staged tree cannot be placed the old one is put back before the
/// failure is reported, so a failed apply leaves a working shell rather than a
/// missing one.
pub fn apply(install: &Install, version: &Version, state: Apply, outcome: Result<(), String>) -> (step:
    (Apply, SwapAction))
    ensures
        step.0@ == apply_leg(state@, outcome is Ok),
        match step.0@ {
            ApplyLeg::Finished => match state {
                Apply::Placing => step.1 == SwapAction::Done(Ok(())),
                Apply::Finished => step.1 == SwapAction::Wait,
                _ => {
                    &&& step.1 matches SwapAction::Done(Err(reason))
                    &&& reason@ == apply_error(
                        *install,
                        state,
                        (match outcome {
                            Ok(_) => Seq::<char>::empty(),
                            Err(err) => err@,
                        }),
                    )
                },
            },
            leg => {
                &&& step.1 matches SwapAction::Do(task)
                &&& task@ == apply_deed(install@, version@, leg)
            },
        },
        step.0 matches Apply::Restoring(reason) ==> outcome matches Err(err) && reason@
            == "could not install the staged tree: "@ + err@,
{
    match (state, outcome) {
        (Apply::Clearing, _) => (
            Apply::Making,
            SwapAction::Do(Task::MakeDirs(install.staging_dir())),
        ),
        (Apply::Making, Ok(_)) => (
            Apply::Parking,
            SwapAction::Do(Task::Rename { from: install.scope.clone(), to: install.backup_dir() }),
        ),
        (Apply::Making, Err(err)) => {
            let dir = install.staging_dir();
            let reason = text::plus(text::own("creating "), dir.as_str());
            let reason = text::plus(text::plus(reason, ": "), err.as_str());
            (Apply::Finished, SwapAction::Done(Err(reason)))
        },
        (Apply::Parking, Ok(_)) => (
            Apply::Placing,
            SwapAction::Do(
                Task::Rename { from: install.staged_scope(version), to: install.scope.clone() },
            ),
        ),
        (Apply::Parking, Err(err)) => {
            let reason = text::plus(text::own("could not move "), install.scope.as_str());
            let reason = text::plus(text::plus(reason, " aside: "), err.as_str());
            (Apply::Finished, SwapAction::Done(Err(reason)))
        },
        (Apply::Placing, Ok(_)) => (Apply::Finished, SwapAction::Done(Ok(()))),
        (Apply::Placing, Err(err)) => {
            let reason = text::plus(text::own("could not install the staged tree: "), err.as_str());
            (
                Apply::Restoring(reason),
                SwapAction::Do(
                    Task::Rename { from: install.backup_dir(), to: install.scope.clone() },
                ),
            )
        },
        (Apply::Restoring(reason), _) => (Apply::Finished, SwapAction::Done(Err(reason))),
        (Apply::Finished, _) => (Apply::Finished, SwapAction::Wait),
    }
}

// --------------------------------------------------------------- rolling back

/// How far a rollback has come: the task that is being attempted.
#[derive(Debug, Clone, Copy, PartialEq, Eq, Structural)]
pub enum Rollback {
    /// Removing a tree that failed earlier.
    Clearing,
    /// Moving the live tree aside.
    Parking,
    /// Moving the previous tree back.
    Restoring,
    /// Over.
    Finished,
}

/// The task of each stage of a rollback.
pub open spec fn rollback_deed(place: Place, leg: Rollback) -> Deed {
    match leg {
        Rollback::Clearing => Deed::RemoveTree(failed_of(place)),
        Rollback::Parking => Deed::Rename { from: place.scope, to: failed_of(place) },
        _ => Deed::Rename { from: backup_of(place), to: place.scope },
    }
}

/// The stage that follows, by whether the task succeeded.
pub open spec fn rollback_leg(leg: Rollback, ok: bool) -> Rollback {
    match leg {
        Rollback::Clearing => Rollback::Parking,
        Rollback::Parking => if ok {
            Rollback::Restoring
        } else {
            Rollback::Finished
        },
        _ => Rollback::Finished,
    }
}

/// Why a rollback is refused, by whether there is a previous tree; nothing where it
/// is not.
pub open spec fn rollback_refusal(backup_is_dir: bool) -> Option<Seq<char>> {
    if backup_is_dir {
        None
    } else {
        Some("there is no previous version to roll back to"@)
    }
}

/// Begin to put the previous scope back, which has to be there. A rollback that is
/// refused attempts no task.
pub fn begin_rollback(install: &Install, backup_is_dir: bool) -> (step: (Rollback, SwapAction))
    ensures
        match rollback_refusal(backup_is_dir) {
            None => {
                &&& step.0 == Rollback::Clearing
                &&& step.1 matches SwapAction::Do(task)
                &&& task@ == rollback_deed(install@, Rollback::Clearing)
            },
            Some(reason) => {
                &&& step.0 == Rollback::Finished
                &&& step.1 matches SwapAction::Done(Err(err))
                &&& err@ == reason
            },
        },
{
    if backup_is_dir {
        (Rollback::Clearing, SwapAction::Do(Task::RemoveTree(install.failed_dir())))
    } else {
        (
            Rollback::Finished,
            SwapAction::Done(Err(text::own("there is no previous version to roll back to"))),
        )
    }
}

/// Take the next step of a rollback, undoing [`apply`].
pub fn rollback(install: &Install, state: Rollback, outcome: Result<(), String>) -> (step: (
    Rollback,
    SwapAction,
))
    ensures
        step.0 == rollback_leg(state, outcome is Ok),
        match (state, outcome) {
            (Rollback::Parking, Err(err)) => {
                &&& step.1 matches SwapAction::Done(Err(reason))
                &&& reason@ == "could not move the failed tree aside: "@ + err@
            },
            (Rollback::Restoring, Ok(_)) => step.1 == SwapAction::Done(Ok(())),
            (Rollback::Restoring, Err(err)) => {
                &&& step.1 matches SwapAction::Done(Err(reason))
                &&& reason@ == "could not restore the previous version: "@ + err@
            },
            (Rollback::Finished, _) => step.1 == SwapAction::Wait,
            _ => {
                &&& step.1 matches SwapAction::Do(task)
                &&& task@ == rollback_deed(install@, step.0)
            },
        },
{
    match (state, outcome) {
        (Rollback::Clearing, _) => (
            Rollback::Parking,
            SwapAction::Do(Task::Rename { from: install.scope.clone(), to: install.failed_dir() }),
        ),
        (Rollback::Parking, Ok(_)) => (
            Rollback::Restoring,
            SwapAction::Do(Task::Rename { from: install.backup_dir(), to: install.scope.clone() }),
        ),
        (Rollback::Parking, Err(err)) => {
            let reason = text::plus(
                text::own("could not move the failed tree aside: "),
                err.as_str(),
            );
            (Rollback::Finished, SwapAction::Done(Err(reason)))
        },
        (Rollback::Restoring, Ok(_)) => (Rollback::Finished, SwapAction::Done(Ok(()))),
        (Rollback::Restoring, Err(err)) => {
            let reason = text::plus(
                text::own("could not restore the previous version: "),
                err.as_str(),
            );
            (Rollback::Finished, SwapAction::Done(Err(reason)))
        },
        (Rollback::Finished, _) => (Rollback::Finished, SwapAction::Wait),
    }
}

/// The task that drops a rolled-back or superseded staging directory.
pub fn discard_stage(install: &Install, version: &Version) -> (task: Task)
    ensures
        task@ == Deed::RemoveTree(install::stage_of(install.prefix@, version@)),
{
    Task::RemoveTree(install.stage_dir(version))
}

// --------------------------------------------------------------------- laws

/// The four trees of a swap stand at four different paths.
pub proof fn swap_paths_differ(place: Place, v: Release)
    requires
        install::live_is_outside(place),
    ensures
        place.scope != backup_of(place),
        place.scope != failed_of(place),
        place.scope != install::staged_scope_of(place.prefix, v),
        backup_of(place) != failed_of(place),
        backup_of(place) != install::staged_scope_of(place.prefix, v),
        failed_of(place) != install::staged_scope_of(place.prefix, v),
{
    reveal_strlit("previous");
    reveal_strlit("failed-at");
    reveal_strlit("dsh-shell-staging");
    reveal_strlit("node_modules");
    reveal_strlit("@deepseek-ai");
    let staging = install::staging_of(place.prefix);
    let text = version::version_text(v);
    install::lemma_version_text_starts(v);
    let stage = install::stage_of(place.prefix, v);
    let modules = path::joined(stage, "node_modules"@);
    let staged = install::staged_scope_of(place.prefix, v);
    path::joined_is_inside(staging, install::BACKUP_DIR@);
    path::joined_is_inside(staging, "failed-at"@);
    path::joined_is_inside(staging, text);
    path::joined_is_inside(stage, "node_modules"@);
    path::joined_is_inside(modules, install::SCOPE@);
    path::inside_is_transitive(staged, modules, stage);
    path::inside_is_transitive(staged, stage, staging);
    // The staging directory's name ends in no separator, so one character after
    // it tells the three apart.
    assert(staging.last() == 'g');
    let k = staging.len() as int + 1;
    assert(backup_of(place)[k] == 'p');
    assert(failed_of(place)[k] == 'f');
    assert(stage[k] == text[0]);
    assert(staged.take(stage.len() as int) == stage);
    assert(staged[k] == staged.take(stage.len() as int)[k]);
    assert(text::is_digit(staged[k]));
}

/// Whether `disks` and `oks` are a complete course of an apply from stage `leg`:
/// each task attempted in turn, until the operation is over.
pub open spec fn apply_course(
    place: Place,
    v: Release,
    leg: ApplyLeg,
    disks: Seq<Disk>,
    oks: Seq<bool>,
) -> bool
    decreases oks.len(),
{
    &&& disks.len() == oks.len() + 1
    &&& if oks.len() == 0 {
        leg is Finished
    } else {
        &&& leg !is Finished
        &&& task::attempted(disks[0], apply_deed(place, v, leg), oks[0], disks[1])
        &&& apply_course(place, v, apply_leg(leg, oks[0]), disks.skip(1), oks.skip(1))
    }
}

/// The stage in which a course of an apply ends, and whether its last task
/// succeeded.
pub open spec fn apply_end(leg: ApplyLeg, oks: Seq<bool>) -> (ApplyLeg, bool)
    decreases oks.len(),
{
    if oks.len() == 0 {
        (leg, true)
    } else if oks.len() == 1 {
        (leg, oks[0])
    } else {
        apply_end(apply_leg(leg, oks[0]), oks.skip(1))
    }
}

/// Whether a course of an apply ends with the staged tree in place.
pub open spec fn apply_succeeds(oks: Seq<bool>) -> bool {
    apply_end(ApplyLeg::Clearing, oks) == (ApplyLeg::Placing, true)
}

/// An apply that succeeds puts the staged tree in place of the live one and
/// parks the live one as the backup. One that fails leaves the live tree as it
/// was, unless the move that puts it back fails too.
pub proof fn apply_replaces_or_restores(
    place: Place,
    v: Release,
    disks: Seq<Disk>,
    oks: Seq<bool>,
)
    requires
        install::live_is_outside(place),
        apply_course(place, v, ApplyLeg::Clearing, disks, oks),
        disks[0].dom().contains(place.scope),
        disks[0].dom().contains(install::staged_scope_of(place.prefix, v)),
    ensures
        apply_succeeds(oks) ==> {
            &&& disks.last().dom().contains(place.scope)
            &&& disks.last()[place.scope] == disks[0][install::staged_scope_of(place.prefix, v)]
            &&& disks.last().dom().contains(backup_of(place))
            &&& disks.last()[backup_of(place)] == disks[0][place.scope]
            &&& !disks.last().dom().contains(install::staged_scope_of(place.prefix, v))
        },
        !apply_succeeds(oks) && apply_end(ApplyLeg::Clearing, oks) != (
            ApplyLeg::Restoring,
            false,
        ) ==> {
            &&& disks.last().dom().contains(place.scope)
            &&& disks.last()[place.scope] == disks[0][place.scope]
        },
        apply_end(ApplyLeg::Clearing, oks) == (ApplyLeg::Restoring, false) ==> {
            &&& disks.last().dom().contains(backup_of(place))
            &&& disks.last()[backup_of(place)] == disks[0][place.scope]
        },
{
    swap_paths_differ(place, v);
    reveal_with_fuel(apply_course, 6);
    reveal_with_fuel(apply_end, 6);
    let scope = place.scope;
    let backup = backup_of(place);
    let staged = install::staged_scope_of(place.prefix, v);
    // Clearing touches the backup alone.
    let d1 = disks[1];
    assert(d1.remove(backup) =~= disks[0].remove(backup));
    assert(d1.remove(backup)[scope] == d1[scope]);
    assert(d1.remove(backup).dom().contains(scope));
    assert(d1.remove(backup)[staged] == d1[staged]);
    assert(d1.remove(backup).dom().contains(staged));
    assert(disks[0].remove(backup)[scope] == disks[0][scope]);
    assert(disks[0].remove(backup)[staged] == disks[0][staged]);
    assert(disks.skip(1)[0] == disks[1] && disks.skip(1)[1] == disks[2]);
    let rest = disks.skip(1).skip(1);
    assert(rest.len() >= 1 && rest[0] == disks[2]);
    if oks.len() >= 3 {
        assert(rest[1] == disks[3] && rest.skip(1)[0] == disks[3]);
        if oks.len() >= 4 {
            assert(rest.skip(1)[1] == disks[4] && rest.skip(1).skip(1)[0] == disks[4]);
            if oks.len() >= 5 {
                assert(rest.skip(1).skip(1)[1] == disks[5]);
            }
        }
    }
}

/// Whether `disks` and `oks` are a complete course of a rollback from stage
/// `leg`.
pub open spec fn rollback_course(
    place: Place,
    leg: Rollback,
    disks: Seq<Disk>,
    oks: Seq<bool>,
) -> bool
    decreases oks.len(),
{
    &&& disks.len() == oks.len() + 1
    &&& if oks.len() == 0 {
        leg is Finished
    } else {
        &&& leg !is Finished
        &&& task::attempted(disks[0], rollback_deed(place, leg), oks[0], disks[1])
        &&& rollback_course(place, rollback_leg(leg, oks[0]), disks.skip(1), oks.skip(1))
    }
}

/// The stage in which a course of a rollback ends, and whether its last task
/// succeeded.
pub open spec fn rollback_end(leg: Rollback, oks: Seq<bool>) -> (Rollback, bool)
    decreases oks.len(),
{
    if oks.len() == 0 {
        (leg, true)
    } else if oks.len() == 1 {
        (leg, oks[0])
    } else {
        rollback_end(rollback_leg(leg, oks[0]), oks.skip(1))
    }
}

/// Whether a course of a rollback ends with the previous tree in place.
pub open spec fn rollback_succeeds(oks: Seq<bool>) -> bool {
    rollback_end(Rollback::Clearing, oks) == (Rollback::Restoring, true)
}

/// A rollback that succeeds puts the backup in place of the live tree, parks the
/// live tree as the failed one, and consumes the backup: a second rollback has
/// nothing to do. One that cannot move the live tree aside leaves it live.
pub proof fn rollback_restores_backup(place: Place, disks: Seq<Disk>, oks: Seq<bool>)
    requires
        install::live_is_outside(place),
        rollback_course(place, Rollback::Clearing, disks, oks),
        disks[0].dom().contains(place.scope),
        disks[0].dom().contains(backup_of(place)),
    ensures
        rollback_succeeds(oks) ==> {
            &&& disks.last().dom().contains(place.scope)
            &&& disks.last()[place.scope] == disks[0][backup_of(place)]
            &&& disks.last().dom().contains(failed_of(place))
            &&& disks.last()[failed_of(place)] == disks[0][place.scope]
            &&& !disks.last().dom().contains(backup_of(place))
        },
        rollback_end(Rollback::Clearing, oks).0 == Rollback::Parking ==> {
            &&& disks.last().dom().contains(place.scope)
            &&& disks.last()[place.scope] == disks[0][place.scope]
            &&& disks.last().dom().contains(backup_of(place))
            &&& disks.last()[backup_of(place)] == disks[0][backup_of(place)]
        },
{
    let nothing = Release { major: 0, minor: 0, patch: 0, prerelease: Seq::<Seq<char>>::empty() };
    swap_paths_differ(place, nothing);
    reveal_with_fuel(rollback_course, 5);
    reveal_with_fuel(rollback_end, 5);
    let scope = place.scope;
    let backup = backup_of(place);
    let failed = failed_of(place);
    let d1 = disks[1];
    assert(d1.remove(failed) =~= disks[0].remove(failed));
    assert(d1.remove(failed)[scope] == d1[scope]);
    assert(d1.remove(failed).dom().contains(scope));
    assert(d1.remove(failed)[backup] == d1[backup]);
    assert(d1.remove(failed).dom().contains(backup));
    assert(disks[0].remove(failed)[scope] == disks[0][scope]);
    assert(disks[0].remove(failed)[backup] == disks[0][backup]);
    assert(disks.skip(1)[0] == disks[1] && disks.skip(1)[1] == disks[2]);
    let rest = disks.skip(1).skip(1);
    assert(rest.len() >= 1 && rest[0] == disks[2]);
    if oks.len() >= 3 {
        assert(rest[1] == disks[3] && rest.skip(1)[0] == disks[3]);
    }
}

/// Rolling an apply back restores exactly the tree that was live before it, and
/// consumes the backup, so that a second rollback is refused.
pub proof fn rollback_undoes_apply(
    place: Place,
    v: Release,
    applied: Seq<Disk>,
    apply_oks: Seq<bool>,
    undone: Seq<Disk>,
    rollback_oks: Seq<bool>,
)
    requires
        install::live_is_outside(place),
        apply_course(place, v, ApplyLeg::Clearing, applied, apply_oks),
        applied[0].dom().contains(place.scope),
        applied[0].dom().contains(install::staged_scope_of(place.prefix, v)),
        apply_succeeds(apply_oks),
        rollback_course(place, Rollback::Clearing, undone, rollback_oks),
        undone[0] == applied.last(),
        rollback_succeeds(rollback_oks),
    ensures
        undone.last().dom().contains(place.scope),
        undone.last()[place.scope] == applied[0][place.scope],
        !undone.last().dom().contains(backup_of(place)),
        rollback_refusal(undone.last().dom().contains(backup_of(place))) == Some(
            "there is no previous version to roll back to"@,
        ),
{
    apply_replaces_or_restores(place, v, applied, apply_oks);
    rollback_restores_backup(place, undone, rollback_oks);
}

/// After two applies the backup is the tree that the first one put in place:
/// rolling back goes one generation back, not two.
pub proof fn one_generation_is_kept(
    place: Place,
    first: Release,
    second: Release,
    one: Seq<Disk>,
    one_oks: Seq<bool>,
    two: Seq<Disk>,
    two_oks: Seq<bool>,
)
    requires
        install::live_is_outside(place),
        apply_course(place, first, ApplyLeg::Clearing, one, one_oks),
        one[0].dom().contains(place.scope),
        one[0].dom().contains(install::staged_scope_of(place.prefix, first)),
        apply_succeeds(one_oks),
        apply_course(place, second, ApplyLeg::Clearing, two, two_oks),
        two[0].dom().contains(place.scope),
        two[0].dom().contains(install::staged_scope_of(place.prefix, second)),
        two[0][place.scope] == one.last()[place.scope],
        apply_succeeds(two_oks),
    ensures
        two.last()[backup_of(place)] == one[0][install::staged_scope_of(place.prefix, first)],
        two.last()[place.scope] == two[0][install::staged_scope_of(place.prefix, second)],
{
    apply_replaces_or_restores(place, first, one, one_oks);
    apply_replaces_or_restores(place, second, two, two_oks);
}

/// An apply touches three places alone: the live tree, the backup and the staged tree.
/// Whatever becomes of a task, everything else on disk stays as it is.
pub proof fn an_apply_touches_nothing_else(
    place: Place,
    v: Release,
    leg: ApplyLeg,
    before: Disk,
    ok: bool,
    after: Disk,
    p: Seq<char>,
)
    requires
        task::attempted(before, apply_deed(place, v, leg), ok, after),
        p != place.scope,
        p != backup_of(place),
        p != install::staged_scope_of(place.prefix, v),
    ensures
        after.dom().contains(p) == before.dom().contains(p),
        before.dom().contains(p) ==> after[p] == before[p],
{
    let backup = backup_of(place);
    assert(after.remove(backup).dom().contains(p) == after.dom().contains(p));
    assert(before.remove(backup).dom().contains(p) == before.dom().contains(p));
    if before.dom().contains(p) {
        assert(after.remove(backup)[p] == after[p] || !after.dom().contains(p));
        assert(before.remove(backup)[p] == before[p]);
    }
}

/// A rollback touches three places alone: the live tree, the backup and where a failed
/// tree is parked.
pub proof fn a_rollback_touches_nothing_else(
    place: Place,
    leg: Rollback,
    before: Disk,
    ok: bool,
    after: Disk,
    p: Seq<char>,
)
    requires
        task::attempted(before, rollback_deed(place, leg), ok, after),
        p != place.scope,
        p != backup_of(place),
        p != failed_of(place),
    ensures
        after.dom().contains(p) == before.dom().contains(p),
        before.dom().contains(p) ==> after[p] == before[p],
{
    let failed = failed_of(place);
    assert(after.remove(failed).dom().contains(p) == after.dom().contains(p));
    assert(before.remove(failed).dom().contains(p) == before.dom().contains(p));
    if before.dom().contains(p) {
        assert(after.remove(failed)[p] == after[p] || !after.dom().contains(p));
        assert(before.remove(failed)[p] == before[p]);
    }
}

/// The live tree is touched by renames alone: no task of an apply or a rollback removes
/// it or writes into it, and each moves it whole.
pub proof fn the_live_tree_is_only_moved(place: Place, v: Release, leg: ApplyLeg, back: Rollback)
    requires
        install::live_is_outside(place),
    ensures
        !(apply_deed(place, v, leg) is Write || apply_deed(place, v, leg) is RemoveFile || apply_deed(
            place,
            v,
            leg,
        ) is Run),
        !(rollback_deed(place, back) is Write || rollback_deed(place, back) is RemoveFile
            || rollback_deed(place, back) is Run),
        apply_deed(place, v, leg) matches Deed::RemoveTree(p) ==> p == backup_of(place) && p
            != place.scope,
        rollback_deed(place, back) matches Deed::RemoveTree(p) ==> p == failed_of(place) && p
            != place.scope,
        apply_deed(place, v, leg) matches Deed::MakeDirs(p) ==> p == install::staging_of(
            place.prefix,
        ),
{
    swap_paths_differ(place, v);
}

/// An apply begins exactly where the staged tree is there; otherwise it is refused at
/// once, and the reason names where the tree should be.
pub proof fn nothing_is_applied_unless_staged(
    install: &Install,
    version: &Version,
    staged_is_dir: bool,
    step: (Apply, SwapAction),
    staged: String,
)
    requires
        call_ensures(begin_apply, (install, version, staged_is_dir), step),
        call_ensures(Install::staged_scope, (install, version), staged),
    ensures
        step.1 is Do <==> staged_is_dir,
        staged_is_dir ==> step.0 is Clearing && (step.1 matches SwapAction::Do(task) && task@
            == Deed::RemoveTree(backup_of(install@))),
        !staged_is_dir ==> step.0 is Finished && (step.1 matches SwapAction::Done(Err(err)) && err@
            == "nothing staged at "@ + staged@ + "; run the staging step first"@),
{
}

/// How the steps of an apply follow each other. It succeeds exactly where the staged tree
/// could be placed; the live tree is parked once there is a directory for it, and the
/// staged tree is placed once the live one is parked. Where it cannot be placed the old
/// one is put back, and the failure is reported whatever becomes of that.
pub proof fn an_apply_parks_before_it_places(
    install: &Install,
    version: &Version,
    state: Apply,
    outcome: Result<(), String>,
    step: (Apply, SwapAction),
)
    requires
        call_ensures(apply, (install, version, state, outcome), step),
    ensures
        (step.1 matches SwapAction::Done(result) && result is Ok) <==> state is Placing
            && outcome is Ok,
        step.0 is Making <==> state is Clearing,
        step.0 is Parking <==> state is Making && outcome is Ok,
        step.0 is Placing <==> state is Parking && outcome is Ok,
        step.0 is Restoring <==> state is Placing && outcome is Err,
        step.1 is Wait <==> state is Finished,
        step.1 is Do <==> !(step.0 is Finished),
        step.0 is Parking ==> (step.1 matches SwapAction::Do(task) && task@ == (Deed::Rename {
            from: install.scope@,
            to: backup_of(install@),
        })),
        step.0 is Placing ==> (step.1 matches SwapAction::Do(task) && task@ == (Deed::Rename {
            from: install::staged_scope_of(install.prefix@, version@),
            to: install.scope@,
        })),
        step.0 is Restoring ==> (step.1 matches SwapAction::Do(task) && task@ == (Deed::Rename {
            from: backup_of(install@),
            to: install.scope@,
        })),
{
}

/// Why an apply failed: the reason says which step it was, and names what went wrong with
/// that step, not with the attempt to put the old tree back.
pub proof fn apply_failures_say_why(
    install: &Install,
    version: &Version,
    err: String,
    reason: String,
    outcome: Result<(), String>,
    making: (Apply, SwapAction),
    parking: (Apply, SwapAction),
    placing: (Apply, SwapAction),
    restoring: (Apply, SwapAction),
)
    requires
        call_ensures(
            apply,
            (install, version, Apply::Making, Err::<(), String>(err)),
            making,
        ),
        call_ensures(
            apply,
            (install, version, Apply::Parking, Err::<(), String>(err)),
            parking,
        ),
        call_ensures(
            apply,
            (install, version, Apply::Placing, Err::<(), String>(err)),
            placing,
        ),
        call_ensures(apply, (install, version, Apply::Restoring(reason), outcome), restoring),
    ensures
        making.1 matches SwapAction::Done(Err(r)) && r@ == "creating "@ + install::staging_of(
            install.prefix@,
        ) + ": "@ + err@,
        parking.1 matches SwapAction::Done(Err(r)) && r@ == "could not move "@ + install.scope@
            + " aside: "@ + err@,
        placing.0 matches Apply::Restoring(r) && r@ == "could not install the staged tree: "@
            + err@,
        restoring.0 is Finished && (restoring.1 matches SwapAction::Done(Err(r)) && r@
            == reason@),
{
}

/// A rollback begins exactly where there is a previous tree; otherwise it is refused.
pub proof fn nothing_is_rolled_back_without_a_backup(
    install: &Install,
    backup_is_dir: bool,
    step: (Rollback, SwapAction),
)
    requires
        call_ensures(begin_rollback, (install, backup_is_dir), step),
    ensures
        step.1 is Do <==> backup_is_dir,
        backup_is_dir ==> step.0 is Clearing && (step.1 matches SwapAction::Do(task) && task@
            == Deed::RemoveTree(failed_of(install@))),
        !backup_is_dir ==> step.0 is Finished && (step.1 matches SwapAction::Done(Err(err)) && err@
            == "there is no previous version to roll back to"@),
{
}

/// How the steps of a rollback follow each other: the live tree is parked as the failed
/// one, whether or not an older failed tree could be removed, and the previous tree is put
/// back once it is. It succeeds exactly where that could be done, and its failures say
/// which of the two moves it was.
pub proof fn a_rollback_parks_before_it_restores(
    install: &Install,
    state: Rollback,
    outcome: Result<(), String>,
    step: (Rollback, SwapAction),
)
    requires
        call_ensures(rollback, (install, state, outcome), step),
    ensures
        (step.1 matches SwapAction::Done(result) && result is Ok) <==> state is Restoring
            && outcome is Ok,
        step.0 is Parking <==> state is Clearing,
        step.0 is Restoring <==> state is Parking && outcome is Ok,
        step.0 !is Clearing,
        step.1 is Wait <==> state is Finished,
        step.1 is Do <==> !(step.0 is Finished),
        step.0 is Parking ==> (step.1 matches SwapAction::Do(task) && task@ == (Deed::Rename {
            from: install.scope@,
            to: failed_of(install@),
        })),
        step.0 is Restoring ==> (step.1 matches SwapAction::Do(task) && task@ == (Deed::Rename {
            from: backup_of(install@),
            to: install.scope@,
        })),
        outcome matches Err(err) ==> (state is Parking ==> (step.1 matches SwapAction::Done(Err(r))
            && r@ == "could not move the failed tree aside: "@ + err@)),
        outcome matches Err(err) ==> (state is Restoring ==> (step.1 matches SwapAction::Done(
            Err(r),
        ) && r@ == "could not restore the previous version: "@ + err@)),
{
}

/// Dropping a staged tree removes the directory of its version, which is never the live
/// tree.
pub proof fn only_the_staged_tree_is_dropped(
    install: &Install,
    version: &Version,
    task: Task,
    dir: String,
)
    requires
        call_ensures(discard_stage, (install, version), task),
        call_ensures(Install::stage_dir, (install, version), dir),
        install::live_is_outside(install@),
    ensures
        task@ == Deed::RemoveTree(dir@),
        dir@ != install.scope@,
{
    install::lemma_version_text_starts(version@);
    path::joined_is_inside(
        install::staging_of(install.prefix@),
        version::version_text(version@),
    );
}

} // verus!
