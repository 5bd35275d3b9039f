//! Installing an upgrade from end to end: check, stage, apply, note.
//!
//! Staging and applying are one operation from the user's point of view: a
//! staged tree that is never applied is just litter, so a failure at either step
//! reports as one failure with the live install untouched.

use crate::install::Install;
use crate::text;
use crate::updater;
use crate::updater::{CheckState, Phase, Situation, Standing, Status};
use crate::version::Version;
use vstd::prelude::*;

verus! {

/// How far an upgrade has come, and what it works on.
#[derive(Debug)]
pub enum Upgrade {
    /// A forced check is running.
    Checking,
    /// The new tree is being staged.
    Staging { status: Status, install: Install, target: Version },
    /// The staged tree is being applied.
    Applying { status: Status, install: Install, target: Version },
    /// The result was reported.
    Finished,
}

/// What came back from outside.
#[derive(Debug)]
pub enum UpgradeEvent {
    /// The result of the check.
    Checked(Status, Option<Install>),
    /// How the staging ended.
    Staged(Result<(), String>),
    /// How the apply ended.
    Applied(Result<(), String>),
}

/// What to do next.
#[derive(Debug)]
pub enum UpgradeAction {
    /// Stage the target.
    Stage,
    /// Apply the staged target.
    Apply,
    /// Show the status.
    Report(Status),
    /// Drop the staged tree of `target`, then show the status.
    Discard { status: Status, install: Install, target: Version },
    /// Note that `target` is on trial, then show the status.
    Record { status: Status, install: Install, target: Version },
    /// Nothing: the event answers no open question.
    Wait,
}

/// A status with another phase.
pub open spec fn with_phase(status: Standing, phase: Situation) -> Standing {
    Standing { phase, ..status }
}

/// The channel that a setting selects: the latest one where it names none.
pub open spec fn channel_for(update_channel: Seq<char>) -> updater::Channel {
    match updater::channel_named(update_channel) {
        Some(channel) => channel,
        None => updater::Channel::Latest,
    }
}

/// Show that a check is running, and begin it on the channel that is configured now:
/// the stored channel and the checked one cannot disagree. The transient state is
/// shown immediately rather than when the answer lands.
pub fn begin_check(status: &mut Status, launcher: &str, update_channel: &str, force: bool) -> (state:
    CheckState)
    ensures
        final(status)@ == with_phase(old(status)@, Situation::Checking),
        state matches CheckState::Locating { launcher: l, channel, force: f } && l@ == launcher@
            && channel == channel_for(update_channel@) && f == force,
{
    status.phase = Phase::Checking;
    let channel = updater::Channel::from_setting(update_channel);
    CheckState::Locating { launcher: text::own(launcher), channel, force }
}

/// Show that an upgrade is running, and begin it with a forced check on the
/// channel that is configured now.
pub fn begin_upgrade(status: &mut Status, launcher: &str, update_channel: &str) -> (begun: (
    Upgrade,
    CheckState,
))
    ensures
        final(status)@ == with_phase(old(status)@, Situation::Working),
        begun.0 is Checking,
        begun.1 matches CheckState::Locating { launcher: l, channel, force: true } && l@
            == launcher@ && channel == channel_for(update_channel@),
{
    status.phase = Phase::Working;
    let channel = updater::Channel::from_setting(update_channel);
    (
        Upgrade::Checking,
        CheckState::Locating { launcher: text::own(launcher), channel, force: true },
    )
}

/// Take the next step of an upgrade.
///
/// A check that offered nothing is not followed by an install attempt. A failure
/// to stage or to apply drops the staged tree. After an apply the old DSH still
/// runs in memory while the new one is on disk, so a restart is what actually
/// applies it.
pub fn upgrade(state: Upgrade, event: UpgradeEvent) -> (step: (Upgrade, UpgradeAction))
    ensures
        match (state, event) {
            (Upgrade::Checking, UpgradeEvent::Checked(status, found)) => match (
                status.phase,
                found,
                status.target,
            ) {
                (Phase::Available, Some(install), Some(target)) => {
                    &&& step.0 matches Upgrade::Staging { status: s, install: i, target: t }
                    &&& s@ == status@
                    &&& i == install
                    &&& t@ == target@
                    &&& step.1 is Stage
                },
                (Phase::Available, _, _) => {
                    &&& step.0 is Finished
                    &&& step.1 matches UpgradeAction::Report(s)
                    &&& s@ == with_phase(status@, Situation::Failed("nothing to install"@))
                },
                _ => {
                    &&& step.0 is Finished
                    &&& step.1 == UpgradeAction::Report(status)
                },
            },
            (Upgrade::Staging { status, install, target }, UpgradeEvent::Staged(Ok(_))) => {
                &&& step.0 == (Upgrade::Applying { status, install, target })
                &&& step.1 is Apply
            },
            (Upgrade::Staging { status, install, target }, UpgradeEvent::Staged(Err(err))) => {
                &&& step.0 is Finished
                &&& step.1 matches UpgradeAction::Discard { status: s, install: i, target: t }
                &&& s@ == with_phase(status@, Situation::Failed(err@))
                &&& i == install
                &&& t == target
            },
            (Upgrade::Applying { status, install, target }, UpgradeEvent::Applied(Err(err))) => {
                &&& step.0 is Finished
                &&& step.1 matches UpgradeAction::Discard { status: s, install: i, target: t }
                &&& s@ == with_phase(status@, Situation::Failed(err@))
                &&& i == install
                &&& t == target
            },
            (Upgrade::Applying { status, install, target }, UpgradeEvent::Applied(Ok(_))) => {
                &&& step.0 is Finished
                &&& step.1 matches UpgradeAction::Record { status: s, install: i, target: t }
                &&& s@ == with_phase(status@, Situation::RestartRequired)
                &&& i == install
                &&& t == target
            },
            _ => step == (state, UpgradeAction::Wait),
        },
{
    match (state, event) {
        (Upgrade::Checking, UpgradeEvent::Checked(status, found)) => {
            let mut status = status;
            let available = match &status.phase {
                Phase::Available => true,
                _ => false,
            };
            if !available {
                return (Upgrade::Finished, UpgradeAction::Report(status));
            }
            let target = match &status.target {
                Some(target) => Some(target.clone()),
                None => None,
            };
            match (found, target) {
                (Some(install), Some(target)) => (
                    Upgrade::Staging { status, install, target },
                    UpgradeAction::Stage,
                ),
                _ => {
                    status.phase = Phase::Failed(text::own("nothing to install"));
                    (Upgrade::Finished, UpgradeAction::Report(status))
                },
            }
        },
        (Upgrade::Staging { status, install, target }, UpgradeEvent::Staged(outcome)) => {
            match outcome {
                Ok(_) => (Upgrade::Applying { status, install, target }, UpgradeAction::Apply),
                Err(err) => {
                    let mut status = status;
                    status.phase = Phase::Failed(err);
                    (Upgrade::Finished, UpgradeAction::Discard { status, install, target })
                },
            }
        },
        (Upgrade::Applying { status, install, target }, UpgradeEvent::Applied(outcome)) => {
            let mut status = status;
            match outcome {
                Ok(_) => {
                    status.phase = Phase::RestartRequired;
                    (Upgrade::Finished, UpgradeAction::Record { status, install, target })
                },
                Err(err) => {
                    status.phase = Phase::Failed(err);
                    (Upgrade::Finished, UpgradeAction::Discard { status, install, target })
                },
            }
        },
        (state, _) => (state, UpgradeAction::Wait),
    }
}

// --------------------------------------------------------------------- laws

/// An upgrade goes on after its check exactly where that offered a version for an install
/// that was found; what is then staged is that version, for that install.
pub proof fn only_what_was_offered_is_staged(
    status: Status,
    found: Option<Install>,
    step: (Upgrade, UpgradeAction),
)
    requires
        call_ensures(
            upgrade,
            (Upgrade::Checking, UpgradeEvent::Checked(status, found)),
            step,
        ),
    ensures
        step.1 is Stage <==> status.phase is Available && found is Some && status.target is Some,
        step.1 is Stage ==> {
            &&& step.0 matches Upgrade::Staging { status: s, install, target }
            &&& found == Some(install)
            &&& updater::held_version(status.target) == Some(target@)
            &&& s@ == status@
        },
        !(step.1 is Stage) ==> step.0 is Finished && (step.1 matches UpgradeAction::Report(shown)
            && (status.phase is Available ==> (shown.phase matches Phase::Failed(reason) && reason@
            == "nothing to install"@)) && (!(status.phase is Available) ==> shown == status)
            && shown@.current == status@.current && shown@.target == status@.target
            && shown@.channel == status@.channel),
{
}

/// A tree is applied exactly where its staging succeeded, and its version is noted as on
/// trial exactly where the apply succeeded: a restart is then asked for. What failed is
/// dropped again, and the reason is shown. The install and the target stay the same
/// throughout.
pub proof fn an_upgrade_is_one_operation(
    status: Status,
    install: Install,
    target: Version,
    outcome: Result<(), String>,
    staged: (Upgrade, UpgradeAction),
    applied: (Upgrade, UpgradeAction),
)
    requires
        call_ensures(
            upgrade,
            (Upgrade::Staging { status, install, target }, UpgradeEvent::Staged(outcome)),
            staged,
        ),
        call_ensures(
            upgrade,
            (Upgrade::Applying { status, install, target }, UpgradeEvent::Applied(outcome)),
            applied,
        ),
    ensures
        staged.1 is Apply <==> outcome is Ok,
        outcome is Ok ==> staged.0 == (Upgrade::Applying { status, install, target }),
        outcome is Ok ==> applied.0 is Finished && (applied.1 matches UpgradeAction::Record {
            status: shown,
            install: i,
            target: t,
        } && shown.phase is RestartRequired && shown@.current == status@.current && shown@.target
            == status@.target && shown@.message == status@.message && i == install && t == target),
        outcome matches Err(err) ==> staged.0 is Finished && applied.0 is Finished && (
        staged.1 matches UpgradeAction::Discard { status: shown, install: i, target: t }
            && shown@.phase == Situation::Failed(err@) && shown@.current == status@.current
            && shown@.target == status@.target && i == install && t == target) && (
        applied.1 matches UpgradeAction::Discard { status: shown, install: i, target: t }
            && shown@.phase == Situation::Failed(err@) && shown@.current == status@.current
            && shown@.target == status@.target && i == install && t == target),
{
}

/// What answers no open question changes nothing.
pub proof fn an_upgrade_ignores_stray_events(
    state: Upgrade,
    event: UpgradeEvent,
    step: (Upgrade, UpgradeAction),
)
    requires
        call_ensures(upgrade, (state, event), step),
        !(state is Checking && event is Checked),
        !(state is Staging && event is Staged),
        !(state is Applying && event is Applied),
    ensures
        step.0 == state,
        step.1 is Wait,
{
}

/// A check begins on the channel that is configured, and an upgrade begins with a check
/// that bypasses the cache. Each shows at once that it runs, and nothing else of the status
/// changes.
pub proof fn checks_begin_on_the_configured_channel(
    status: &mut Status,
    launcher: &str,
    update_channel: &str,
    force: bool,
    state: CheckState,
    configured: updater::Channel,
)
    requires
        call_ensures(begin_check, (status, launcher, update_channel, force), state),
        call_ensures(updater::Channel::from_setting, (update_channel,), configured),
    ensures
        final(status).phase is Checking,
        final(status)@.current == old(status)@.current,
        final(status)@.target == old(status)@.target,
        final(status)@.message == old(status)@.message,
        final(status)@.channel == old(status)@.channel,
        final(status)@.checked_at == old(status)@.checked_at,
        state matches CheckState::Locating { launcher: l, channel, force: f } && l@ == launcher@
            && channel == configured && f == force,
{
}

/// An upgrade begins with a check that bypasses the cache, on the channel that is
/// configured.
pub proof fn upgrades_begin_with_a_forced_check(
    status: &mut Status,
    launcher: &str,
    update_channel: &str,
    begun: (Upgrade, CheckState),
    configured: updater::Channel,
)
    requires
        call_ensures(begin_upgrade, (status, launcher, update_channel), begun),
        call_ensures(updater::Channel::from_setting, (update_channel,), configured),
    ensures
        final(status).phase is Working,
        final(status)@.current == old(status)@.current,
        final(status)@.target == old(status)@.target,
        final(status)@.message == old(status)@.message,
        final(status)@.channel == old(status)@.channel,
        final(status)@.checked_at == old(status)@.checked_at,
        begun.0 is Checking,
        begun.1 matches CheckState::Locating { launcher: l, channel, force } && l@ == launcher@
            && channel == configured && force,
{
}

} // verus!
