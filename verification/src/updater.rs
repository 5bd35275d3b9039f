//! Upgrading the DSH that this shell launches.
//!
//! Detection is automatic and cached; application is always a direct response to
//! a click. An upgrade resolves fresh into a staging directory, proves the
//! result can start, and only then replaces the live tree; the previous scope is
//! renamed aside rather than deleted, so a rollback is a rename.
//!
//! Nothing here touches the network, the clock or the disk: each operation is a
//! decision on what was found there.

use crate::document;
use crate::install;
use crate::install::Install;
use crate::path;
use crate::runtime;
use crate::task;
use crate::task::{Command, Deed, Run, Task};
use crate::text;
use crate::version;
use crate::version::{Rank, Version};
use vstd::prelude::*;

verus! {

/// How long a cached registry answer is trusted before a check goes out again,
/// in seconds: a day.
pub const CHECK_INTERVAL: u64 = 86400;

/// Registry URL for the DSH package document.
pub const REGISTRY_URL: &'static str = "https://registry.npmjs.org/@deepseek-ai%2Fdsh";

/// The contents of an optional version.
pub open spec fn held_version(v: Option<Version>) -> Option<version::Release> {
    match v {
        Some(v) => Some(v@),
        None => None,
    }
}

/// The version an optional text writes.
pub open spec fn read_version(s: Option<Seq<char>>) -> Option<version::Release> {
    match s {
        Some(s) => version::written_version(s),
        None => None,
    }
}

/// The text of an optional version.
pub open spec fn write_version(v: Option<version::Release>) -> Option<Seq<char>> {
    match v {
        Some(v) => Some(version::version_text(v)),
        None => None,
    }
}

fn copy_version(v: &Option<Version>) -> (copy: Option<Version>)
    ensures
        held_version(copy) == held_version(*v),
{
    match v {
        Some(v) => Some(v.clone()),
        None => None,
    }
}

fn parse_optional(s: &Option<String>) -> (v: Option<Version>)
    ensures
        held_version(v) == read_version(text::held(*s)),
{
    match s {
        Some(s) => Version::parse(s.as_str()),
        None => None,
    }
}

fn show_optional(v: &Option<Version>) -> (s: Option<String>)
    ensures
        text::held(s) == write_version(held_version(*v)),
{
    match v {
        Some(v) => Some(v.to_string()),
        None => None,
    }
}

fn copy_text(s: &Option<String>) -> (copy: Option<String>)
    ensures
        text::held(copy) == text::held(*s),
{
    match s {
        Some(s) => Some(s.clone()),
        None => None,
    }
}

// ----------------------------------------------------------------- channels

/// Which release line to follow.
#[derive(Debug, Clone, Copy, PartialEq, Eq, Structural)]
pub enum Channel {
    /// The `latest` dist-tag. What everyone should be on.
    Latest,
    /// The `alpha` dist-tag, for someone deliberately tracking new work.
    Alpha,
}

impl Default for Channel {
    fn default() -> (channel: Self)
        ensures
            channel == Channel::Latest,
    {
        Channel::Latest
    }
}

/// The channel a name selects.
pub open spec fn channel_named(name: Seq<char>) -> Option<Channel> {
    let name = text::lowered(text::trimmed(name));
    if name == "latest"@ || name == "stable"@ {
        Some(Channel::Latest)
    } else if name == "alpha"@ {
        Some(Channel::Alpha)
    } else {
        None
    }
}

/// The name of a channel.
pub open spec fn channel_name(channel: Channel) -> Seq<char> {
    match channel {
        Channel::Latest => "latest"@,
        Channel::Alpha => "alpha"@,
    }
}

impl Channel {
    pub fn as_str(self) -> (name: &'static str)
        ensures
            name@ == channel_name(self),
    {
        match self {
            Channel::Latest => "latest",
            Channel::Alpha => "alpha",
        }
    }

    pub fn parse(text: &str) -> (channel: Option<Channel>)
        ensures
            channel == channel_named(text@),
    {
        let trimmed = text::trim(text);
        let name = text::lower(trimmed.as_str());
        if text::same(name.as_str(), "latest") || text::same(name.as_str(), "stable") {
            Some(Channel::Latest)
        } else if text::same(name.as_str(), "alpha") {
            Some(Channel::Alpha)
        } else {
            None
        }
    }

    /// The channel a setting names, or the default where it names none.
    pub fn from_setting(text: &str) -> (channel: Channel)
        ensures
            channel == (match channel_named(text@) {
                Some(channel) => channel,
                None => Channel::Latest,
            }),
    {
        match Channel::parse(text) {
            Some(channel) => channel,
            None => Channel::Latest,
        }
    }
}

// ----------------------------------------------------------------- registry

/// What the registry says is available.
#[derive(Debug, Clone, PartialEq, Eq)]
pub struct Registry {
    pub latest: Version,
    pub next: Option<Version>,
    pub alpha: Option<Version>,
}

/// What a registry answer is: the version of each dist-tag.
pub ghost struct Tags {
    pub latest: version::Release,
    pub next: Option<version::Release>,
    pub alpha: Option<version::Release>,
}

impl View for Registry {
    type V = Tags;

    open spec fn view(&self) -> Tags {
        Tags {
            latest: self.latest@,
            next: held_version(self.next),
            alpha: held_version(self.alpha),
        }
    }
}

/// The version a channel selects; a channel with no tag falls back to latest.
pub open spec fn selected(tags: Tags, channel: Channel) -> version::Release {
    match (channel, tags.alpha) {
        (Channel::Alpha, Some(alpha)) => alpha,
        _ => tags.latest,
    }
}

/// The registry answer that the texts of three dist-tags make. A tag that is no
/// version counts as absent, and only `latest` has to be there.
pub open spec fn tags_read(
    latest: Option<Seq<char>>,
    next: Option<Seq<char>>,
    alpha: Option<Seq<char>>,
) -> Result<Tags, Seq<char>> {
    match read_version(latest) {
        Some(version) => Ok(
            Tags { latest: version, next: read_version(next), alpha: read_version(alpha) },
        ),
        None => Err("registry reply has no latest tag"@),
    }
}

/// The text under `key` in a mapping.
pub open spec fn text_under(tree: document::Tree, key: Seq<char>) -> Option<Seq<char>> {
    match document::member(tree, key) {
        Some(document::Tree::Text(s)) => Some(s),
        _ => None,
    }
}

/// The registry answer in a parsed document.
pub open spec fn registry_read(parsed: Result<document::Tree, Seq<char>>) -> Result<
    Tags,
    Seq<char>,
> {
    match parsed {
        Ok(tree) => match document::member(tree, "dist-tags"@) {
            Some(tags) => if tags is Members {
                tags_read(
                    text_under(tags, "latest"@),
                    text_under(tags, "next"@),
                    text_under(tags, "alpha"@),
                )
            } else {
                Err("registry reply has no dist-tags"@)
            },
            None => Err("registry reply has no dist-tags"@),
        },
        Err(err) => Err("registry reply: "@ + err),
    }
}

/// Whether a result is what a reading of it says.
pub open spec fn answers(result: Result<Registry, String>, read: Result<Tags, Seq<char>>) -> bool {
    match result {
        Ok(registry) => read == Ok::<Tags, Seq<char>>(registry@),
        Err(err) => read == Err::<Tags, Seq<char>>(err@),
    }
}

fn json_text_under(tags: &serde_json::Value, key: &str) -> (s: Option<String>)
    ensures
        text::held(s) == text_under(document::json_tree(*tags), key@),
{
    match document::json_get(tags, key) {
        Some(value) => document::json_text(value),
        None => None,
    }
}

impl Registry {
    /// The version a channel name selects.
    pub fn channel(&self, channel: Channel) -> (version: Version)
        ensures
            version@ == selected(self@, channel),
    {
        match channel {
            Channel::Latest => self.latest.clone(),
            Channel::Alpha => match &self.alpha {
                Some(alpha) => alpha.clone(),
                None => self.latest.clone(),
            },
        }
    }

    /// The registry answer that the texts of the dist-tags make.
    pub fn from_tags(
        latest: Option<String>,
        next: Option<String>,
        alpha: Option<String>,
    ) -> (registry: Result<Registry, String>)
        ensures
            answers(
                registry,
                tags_read(text::held(latest), text::held(next), text::held(alpha)),
            ),
    {
        match parse_optional(&latest) {
            Some(version) => Ok(
                Registry {
                    latest: version,
                    next: parse_optional(&next),
                    alpha: parse_optional(&alpha),
                },
            ),
            None => Err(text::own("registry reply has no latest tag")),
        }
    }

    /// Read the registry's package document.
    pub fn parse(document: &str) -> (registry: Result<Registry, String>)
        ensures
            answers(registry, registry_read(document::json_parsed(document@))),
    {
        match document::parse_json(document) {
            Ok(json) => match document::json_get(&json, "dist-tags") {
                Some(tags) => if document::json_is_object(tags) {
                    Registry::from_tags(
                        json_text_under(tags, "latest"),
                        json_text_under(tags, "next"),
                        json_text_under(tags, "alpha"),
                    )
                } else {
                    Err(text::own("registry reply has no dist-tags"))
                },
                None => Err(text::own("registry reply has no dist-tags")),
            },
            Err(err) => Err(text::plus(text::own("registry reply: "), err.as_str())),
        }
    }

    /// A copy of this answer.
    pub fn copy(&self) -> (copy: Registry)
        ensures
            copy@ == self@,
    {
        Registry {
            latest: self.latest.clone(),
            next: copy_version(&self.next),
            alpha: copy_version(&self.alpha),
        }
    }
}

// -------------------------------------------------------------- cached state

/// Persisted check result, so a launch is never delayed by the network.
#[derive(Debug, Clone, PartialEq, Eq)]
pub struct Cached {
    /// Unix seconds when the answer was fetched.
    pub checked_at: u64,
    pub latest: String,
    pub next: Option<String>,
    pub alpha: Option<String>,
}

/// What a cached answer is.
pub ghost struct Saved {
    pub checked_at: u64,
    pub latest: Seq<char>,
    pub next: Option<Seq<char>>,
    pub alpha: Option<Seq<char>>,
}

impl View for Cached {
    type V = Saved;

    open spec fn view(&self) -> Saved {
        Saved {
            checked_at: self.checked_at,
            latest: self.latest@,
            next: text::held(self.next),
            alpha: text::held(self.alpha),
        }
    }
}

/// The registry answer a cached one stands for, where it holds one at all.
pub open spec fn recalled(saved: Saved) -> Option<Tags> {
    match version::written_version(saved.latest) {
        Some(latest) => Some(
            Tags { latest, next: read_version(saved.next), alpha: read_version(saved.alpha) },
        ),
        None => None,
    }
}

/// The cached form of a registry answer.
pub open spec fn saved_form(tags: Tags, now: u64) -> Saved {
    Saved {
        checked_at: now,
        latest: version::version_text(tags.latest),
        next: write_version(tags.next),
        alpha: write_version(tags.alpha),
    }
}

/// Whether an answer of `checked_at` is still trusted at `now`. A clock that
/// moved backwards leaves it trusted.
pub open spec fn fresh(checked_at: u64, now: u64, interval: u64) -> bool {
    if now >= checked_at {
        now - checked_at < interval
    } else {
        0 < interval
    }
}

/// The contents of an optional registry answer.
pub open spec fn held_registry(registry: Option<Registry>) -> Option<Tags> {
    match registry {
        Some(registry) => Some(registry@),
        None => None,
    }
}

impl Cached {
    pub fn from_registry(registry: &Registry, now: u64) -> (cached: Cached)
        ensures
            cached@ == saved_form(registry@, now),
    {
        Cached {
            checked_at: now,
            latest: registry.latest.to_string(),
            next: show_optional(&registry.next),
            alpha: show_optional(&registry.alpha),
        }
    }

    pub fn registry(&self) -> (registry: Option<Registry>)
        ensures
            held_registry(registry) == recalled(self@),
    {
        match Version::parse(self.latest.as_str()) {
            Some(latest) => Some(
                Registry {
                    latest,
                    next: parse_optional(&self.next),
                    alpha: parse_optional(&self.alpha),
                },
            ),
            None => None,
        }
    }

    /// Whether the answer is younger than `interval` seconds at `now`.
    pub fn is_fresh(&self, now: u64, interval: u64) -> (yes: bool)
        ensures
            yes == fresh(self.checked_at, now, interval),
    {
        if now >= self.checked_at {
            now - self.checked_at < interval
        } else {
            0 < interval
        }
    }
}

/// Where the cached *registry answer* lives: beside the shell's log.
pub fn cache_path(log: Option<String>) -> (path: Option<String>)
    ensures
        text::held(path) == (match log {
            Some(log) => Some(path::renamed(log@, "update.json"@)),
            None => None,
        }),
{
    match log {
        Some(log) => Some(path::with_file_name(log.as_str(), "update.json")),
        None => None,
    }
}

/// Where the current *status* is published for other readers.
///
/// Deliberately not the same file as the registry cache: one is an input to the
/// updater and the other is its output.
pub fn status_path(log: Option<String>) -> (path: Option<String>)
    ensures
        text::held(path) == (match log {
            Some(log) => Some(path::renamed(log@, "status.json"@)),
            None => None,
        }),
{
    match log {
        Some(log) => Some(path::with_file_name(log.as_str(), "status.json")),
        None => None,
    }
}

/// The tasks that put the text of a status where anything else can read it, in
/// order; none where the shell has no place of its own.
///
/// The reply of the plugin bridge carries only a boolean and an error string, so
/// it has no room for a payload; this file is how the plugin learns the result of
/// a check.
pub fn publish(log: Option<String>, status: String) -> (tasks: Vec<Task>)
    ensures
        match log {
            Some(log) => {
                let file = path::renamed(log@, "status.json"@);
                let write = Deed::Write { path: file, contents: status@ };
                match runtime::parent_deed(file) {
                    Some(make) => task::deeds(tasks@) == seq![make, write],
                    None => task::deeds(tasks@) == seq![write],
                }
            },
            None => tasks@.len() == 0,
        },
{
    let mut tasks: Vec<Task> = Vec::new();
    if let Some(path) = status_path(log) {
        let ghost made = runtime::parent_deed(path@);
        if let Some(make) = runtime::ensure_parent(path.as_str()) {
            tasks.push(make);
        }
        tasks.push(Task::Write { path, contents: status });
        assert(made matches Some(make) ==> task::deeds(tasks@) =~= seq![make, tasks@[1]@]);
        assert(made is None ==> task::deeds(tasks@) =~= seq![tasks@[0]@]);
    }
    tasks
}

// -------------------------------------------------------------- check result

/// The state of an upgrade, as the settings page shows it.
#[derive(Debug, Clone, PartialEq, Eq)]
pub enum Phase {
    /// Nothing known yet.
    Unknown,
    /// A check is running.
    Checking,
    /// Up to date on the selected channel.
    Current,
    /// A newer version exists and can be installed.
    Available,
    /// Staging, or applying a staged tree.
    Working,
    /// Installed; the host has to restart to pick it up.
    RestartRequired,
    /// Something failed; the string is shown to the user.
    Failed(String),
    /// This install cannot upgrade itself, with the reason.
    Unsupported(String),
}

/// What a phase is.
pub ghost enum Situation {
    Unknown,
    Checking,
    Current,
    Available,
    Working,
    RestartRequired,
    Failed(Seq<char>),
    Unsupported(Seq<char>),
}

impl View for Phase {
    type V = Situation;

    open spec fn view(&self) -> Situation {
        match self {
            Phase::Unknown => Situation::Unknown,
            Phase::Checking => Situation::Checking,
            Phase::Current => Situation::Current,
            Phase::Available => Situation::Available,
            Phase::Working => Situation::Working,
            Phase::RestartRequired => Situation::RestartRequired,
            Phase::Failed(reason) => Situation::Failed(reason@),
            Phase::Unsupported(reason) => Situation::Unsupported(reason@),
        }
    }
}

impl Default for Phase {
    fn default() -> (phase: Self)
        ensures
            phase == Phase::Unknown,
    {
        Phase::Unknown
    }
}

/// The name of a phase, as the page knows it.
pub open spec fn phase_name(phase: Situation) -> Seq<char> {
    match phase {
        Situation::Unknown => "unknown"@,
        Situation::Checking => "checking"@,
        Situation::Current => "current"@,
        Situation::Available => "available"@,
        Situation::Working => "working"@,
        Situation::RestartRequired => "restartRequired"@,
        Situation::Failed(_) => "failed"@,
        Situation::Unsupported(_) => "unsupported"@,
    }
}

impl Phase {
    pub fn as_str(&self) -> (name: &'static str)
        ensures
            name@ == phase_name(self@),
    {
        match self {
            Phase::Unknown => "unknown",
            Phase::Checking => "checking",
            Phase::Current => "current",
            Phase::Available => "available",
            Phase::Working => "working",
            Phase::RestartRequired => "restartRequired",
            Phase::Failed(_) => "failed",
            Phase::Unsupported(_) => "unsupported",
        }
    }
}

/// Everything the settings page needs to render the update section.
#[derive(Debug, Clone, PartialEq, Eq)]
pub struct Status {
    pub current: Option<Version>,
    pub target: Option<Version>,
    pub channel: Channel,
    pub phase: Phase,
    /// A message to show alongside the phase (a failure reason, or the reason
    /// an install is unsupported).
    pub message: Option<String>,
    /// When the last successful check happened, unix seconds.
    pub checked_at: Option<u64>,
}

/// What a status is.
pub ghost struct Standing {
    pub current: Option<version::Release>,
    pub target: Option<version::Release>,
    pub channel: Channel,
    pub phase: Situation,
    pub message: Option<Seq<char>>,
    pub checked_at: Option<u64>,
}

impl View for Status {
    type V = Standing;

    open spec fn view(&self) -> Standing {
        Standing {
            current: held_version(self.current),
            target: held_version(self.target),
            channel: self.channel,
            phase: self.phase@,
            message: text::held(self.message),
            checked_at: self.checked_at,
        }
    }
}

/// A status that says nothing but its channel, its phase and the version that
/// runs.
pub open spec fn bare_standing(
    channel: Channel,
    phase: Situation,
    current: Option<version::Release>,
) -> Standing {
    Standing { current, target: None, channel, phase, message: None, checked_at: None }
}

impl Default for Status {
    fn default() -> (status: Self)
        ensures
            status@ == bare_standing(Channel::Latest, Situation::Unknown, None),
    {
        Status {
            current: None,
            target: None,
            channel: Channel::Latest,
            phase: Phase::Unknown,
            message: None,
            checked_at: None,
        }
    }
}

/// A status as the settings page receives it.
#[derive(Debug, Clone, PartialEq, Eq)]
pub struct Report {
    pub current: Option<String>,
    pub target: Option<String>,
    pub channel: &'static str,
    pub phase: &'static str,
    pub message: Option<String>,
    pub checked_at: Option<u64>,
    pub busy: bool,
}

/// The message shown with a status: the reason a phase carries, or the status's
/// own message.
pub open spec fn shown_message(status: Standing) -> Option<Seq<char>> {
    match status.phase {
        Situation::Failed(reason) => Some(reason),
        Situation::Unsupported(reason) => Some(reason),
        _ => status.message,
    }
}

impl Status {
    /// The status as the page receives it.
    ///
    /// A phase that carries its own reason wins over `message`: the reason is
    /// why the phase is what it is, and dropping it would show "failed" with
    /// nothing to act on.
    pub fn json(&self) -> (report: Report)
        ensures
            text::held(report.current) == write_version(self@.current),
            text::held(report.target) == write_version(self@.target),
            report.channel@ == channel_name(self.channel),
            report.phase@ == phase_name(self@.phase),
            text::held(report.message) == shown_message(self@),
            report.checked_at == self.checked_at,
            report.busy == (self.phase is Checking || self.phase is Working),
    {
        let message = match &self.phase {
            Phase::Failed(reason) => Some(reason.clone()),
            Phase::Unsupported(reason) => Some(reason.clone()),
            _ => copy_text(&self.message),
        };
        let busy = match &self.phase {
            Phase::Checking => true,
            Phase::Working => true,
            _ => false,
        };
        Report {
            current: show_optional(&self.current),
            target: show_optional(&self.target),
            channel: self.channel.as_str(),
            phase: self.phase.as_str(),
            message,
            checked_at: self.checked_at,
            busy,
        }
    }
}

/// What to show for a current version, a registry answer and a channel: an
/// upgrade is offered only where the channel's version is newer.
pub open spec fn resolved(
    current: version::Release,
    tags: Tags,
    channel: Channel,
    checked_at: u64,
) -> Standing {
    let target = selected(tags, channel);
    Standing {
        current: Some(current),
        target: Some(target),
        channel,
        phase: if version::version_order(target, current) == Rank::Higher {
            Situation::Available
        } else {
            Situation::Current
        },
        message: None,
        checked_at: Some(checked_at),
    }
}

/// Decide what to show from a current version, a registry answer and a channel.
pub fn resolve(
    current: &Version,
    registry: &Registry,
    channel: Channel,
    checked_at: u64,
) -> (status: Status)
    ensures
        status@ == resolved(current@, registry@, channel, checked_at),
{
    let target = registry.channel(channel);
    let phase = match target.rank(current) {
        Rank::Higher => Phase::Available,
        _ => Phase::Current,
    };
    Status {
        current: Some(current.clone()),
        target: Some(target),
        channel,
        phase,
        message: None,
        checked_at: Some(checked_at),
    }
}

// ------------------------------------------------------------ the check itself

/// How far a check has come, and what it knows.
#[derive(Debug)]
pub enum CheckState {
    /// The install behind the launcher has to be located.
    Locating { launcher: String, channel: Channel, force: bool },
    /// The launcher of the install has to report its version.
    Probing { channel: Channel, force: bool, install: Install },
    /// The cached registry answer has to be read.
    Recalling { channel: Channel, force: bool, install: Install, current: Version },
    /// The registry has to be asked.
    Fetching { channel: Channel, install: Install, current: Version, cached: Option<Cached> },
    /// The result was reported.
    Finished,
}

/// What came back from outside.
#[derive(Debug)]
pub enum CheckEvent {
    /// The install behind the launcher, where there is one.
    Located(Option<Install>),
    /// The version the launcher reported.
    Probed(Result<Version, String>),
    /// The cached registry answer, where one could be read, and the time.
    Recalled(Option<Cached>, u64),
    /// The registry's answer, and the time.
    Fetched(Result<Registry, String>, u64),
}

/// What to do next.
#[derive(Debug)]
pub enum CheckAction {
    /// Run the install's launcher for its version.
    Probe,
    /// Read the cached registry answer and the time.
    Recall,
    /// Ask the registry, and read the time.
    Fetch,
    /// Show `status`, and keep `store` as the cached registry answer where it
    /// is there. The install is returned so a later apply does not have to
    /// rediscover anything.
    Report { status: Status, install: Option<Install>, store: Option<Cached> },
    /// Nothing: the event answers no open question.
    Wait,
}

/// The cached answer that settles a check without the network: one that is
/// fresh and can be read, where the check was not forced.
pub open spec fn settling(cached: Option<Cached>, now: u64, force: bool) -> Option<Tags> {
    match cached {
        Some(cached) => if !force && fresh(cached.checked_at, now, CHECK_INTERVAL) {
            recalled(cached@)
        } else {
            None
        },
        None => None,
    }
}

/// The cached answer that stands in for a registry that did not answer.
pub open spec fn last_known(cached: Option<Cached>) -> Option<(Tags, u64)> {
    match cached {
        Some(cached) => match recalled(cached@) {
            Some(tags) => Some((tags, cached.checked_at)),
            None => None,
        },
        None => None,
    }
}

/// Why an install is not upgraded.
pub open spec fn not_an_install(launcher: Seq<char>) -> Seq<char> {
    launcher + " is not a package-manager install, so it cannot upgrade itself"@
}

/// What a check shows for the registry's reply.
pub open spec fn after_fetch(
    current: version::Release,
    channel: Channel,
    cached: Option<Cached>,
    reply: Result<Registry, String>,
    now: u64,
) -> Standing {
    match reply {
        Ok(registry) => resolved(current, registry@, channel, now),
        Err(err) => match last_known(cached) {
            Some((tags, checked_at)) => Standing {
                message: Some(err@ + "; showing the last known result"@),
                ..resolved(current, tags, channel, checked_at)
            },
            None => bare_standing(channel, Situation::Failed(err@), Some(current)),
        },
    }
}

/// What a check keeps of the registry's reply.
pub open spec fn kept_answer(reply: Result<Registry, String>, now: u64) -> Option<Saved> {
    match reply {
        Ok(registry) => Some(saved_form(registry@, now)),
        Err(_) => None,
    }
}

/// The contents of an optional cached answer.
pub open spec fn held_cached(cached: Option<Cached>) -> Option<Saved> {
    match cached {
        Some(cached) => Some(cached@),
        None => None,
    }
}

/// Take one step of a check for an update, using the cache when it is fresh.
///
/// A fresh cache is authoritative unless the check is forced, which is what
/// keeps a launch off the network; a stale one is served rather than nothing
/// where the registry does not answer.
pub fn check(state: CheckState, event: CheckEvent) -> (step: (CheckState, CheckAction))
    ensures
        match (state, event) {
            (
                CheckState::Locating { launcher, channel, force },
                CheckEvent::Located(None),
            ) => {
                &&& step.0 is Finished
                &&& step.1 matches CheckAction::Report { status, install: None, store: None }
                &&& status@ == bare_standing(
                    channel,
                    Situation::Unsupported(not_an_install(launcher@)),
                    None,
                )
            },
            (
                CheckState::Locating { launcher, channel, force },
                CheckEvent::Located(Some(install)),
            ) => {
                &&& step.0 == (CheckState::Probing { channel, force, install })
                &&& step.1 is Probe
            },
            (
                CheckState::Probing { channel, force, install },
                CheckEvent::Probed(Ok(current)),
            ) => {
                &&& step.0 == (CheckState::Recalling { channel, force, install, current })
                &&& step.1 is Recall
            },
            (
                CheckState::Probing { channel, force, install },
                CheckEvent::Probed(Err(err)),
            ) => {
                &&& step.0 is Finished
                &&& step.1 matches CheckAction::Report { status, install: Some(i), store: None }
                &&& status@ == bare_standing(channel, Situation::Failed(err@), None)
                &&& i == install
            },
            (
                CheckState::Recalling { channel, force, install, current },
                CheckEvent::Recalled(cached, now),
            ) => match settling(cached, now, force) {
                Some(tags) => {
                    &&& step.0 is Finished
                    &&& step.1 matches CheckAction::Report { status, install: Some(i), store: None }
                    &&& status@ == resolved(current@, tags, channel, cached->0.checked_at)
                    &&& i == install
                },
                None => {
                    &&& step.0 == (CheckState::Fetching { channel, install, current, cached })
                    &&& step.1 is Fetch
                },
            },
            (
                CheckState::Fetching { channel, install, current, cached },
                CheckEvent::Fetched(reply, now),
            ) => {
                &&& step.0 is Finished
                &&& step.1 matches CheckAction::Report { status, install: Some(i), store }
                &&& status@ == after_fetch(current@, channel, cached, reply, now)
                &&& held_cached(store) == kept_answer(reply, now)
                &&& i == install
            },
            _ => step == (state, CheckAction::Wait),
        },
{
    match (state, event) {
        (CheckState::Locating { launcher, channel, force }, CheckEvent::Located(found)) => {
            match found {
                None => {
                    let reason = text::plus(
                        launcher,
                        " is not a package-manager install, so it cannot upgrade itself",
                    );
                    let status = Status {
                        current: None,
                        target: None,
                        channel,
                        phase: Phase::Unsupported(reason),
                        message: None,
                        checked_at: None,
                    };
                    (
                        CheckState::Finished,
                        CheckAction::Report { status, install: None, store: None },
                    )
                },
                Some(install) => (
                    CheckState::Probing { channel, force, install },
                    CheckAction::Probe,
                ),
            }
        },
        (CheckState::Probing { channel, force, install }, CheckEvent::Probed(reported)) => {
            match reported {
                Ok(current) => (
                    CheckState::Recalling { channel, force, install, current },
                    CheckAction::Recall,
                ),
                Err(err) => {
                    let status = Status {
                        current: None,
                        target: None,
                        channel,
                        phase: Phase::Failed(err),
                        message: None,
                        checked_at: None,
                    };
                    (
                        CheckState::Finished,
                        CheckAction::Report { status, install: Some(install), store: None },
                    )
                },
            }
        },
        (
            CheckState::Recalling { channel, force, install, current },
            CheckEvent::Recalled(cached, now),
        ) => {
            if let Some(answer) = &cached {
                if !force && answer.is_fresh(now, CHECK_INTERVAL) {
                    if let Some(registry) = answer.registry() {
                        let status = resolve(&current, &registry, channel, answer.checked_at);
                        return (
                            CheckState::Finished,
                            CheckAction::Report { status, install: Some(install), store: None },
                        );
                    }
                }
            }
            (CheckState::Fetching { channel, install, current, cached }, CheckAction::Fetch)
        },
        (
            CheckState::Fetching { channel, install, current, cached },
            CheckEvent::Fetched(reply, now),
        ) => {
            let (status, store) = match reply {
                Ok(registry) => (
                    resolve(&current, &registry, channel, now),
                    Some(Cached::from_registry(&registry, now)),
                ),
                Err(err) => (stale_status(current, channel, &cached, err), None),
            };
            (
                CheckState::Finished,
                CheckAction::Report { status, install: Some(install), store },
            )
        },
        (state, _) => (state, CheckAction::Wait),
    }
}

/// What to show where the registry did not answer: a snapshot from yesterday is
/// still a useful answer, and the message says what it is.
fn stale_status(
    current: Version,
    channel: Channel,
    cached: &Option<Cached>,
    err: String,
) -> (status: Status)
    ensures
        forall|now: u64|
            status@ == after_fetch(
                current@,
                channel,
                *cached,
                Err::<Registry, String>(err),
                now,
            ),
{
    if let Some(answer) = cached {
        if let Some(registry) = answer.registry() {
            let mut status = resolve(&current, &registry, channel, answer.checked_at);
            status.message = Some(text::plus(err, "; showing the last known result"));
            return status;
        }
    }
    Status {
        current: Some(current),
        target: None,
        channel,
        phase: Phase::Failed(err),
        message: None,
        checked_at: None,
    }
}

// ------------------------------------------------- running the launcher

/// The command that makes `program` report its version.
pub open spec fn version_run(
    program: Seq<char>,
    leading: Seq<Seq<char>>,
    hint: Option<Seq<char>>,
) -> Run {
    Run { program, args: leading.push("--version"@), path_hint: hint, timeout: 60 }
}

/// The command that makes a launcher report its version.
///
/// `launcher` doubles as the PATH hint: its directory is where the `node` that
/// runs it lives, and a GUI app has none of that on PATH.
pub fn version_of(launcher: &str) -> (command: Command)
    ensures
        command@ == version_run(launcher@, Seq::<Seq<char>>::empty(), Some(launcher@)),
{
    let none: Vec<String> = Vec::new();
    assert(text::views(none@) =~= Seq::<Seq<char>>::empty());
    version_of_hinted(launcher, none, Some(text::own(launcher)))
}

/// The command that makes a program with leading arguments report its version.
///
/// The leading-args form exists because a staged tree has no executable shim:
/// proving it starts means running `<bun> run <staged>/bin.js --version`, which
/// is the same thing the installed shim does. `hint` supplies the directory to
/// prepend to PATH — for a staged tree that is the `bun` that will run it.
pub fn version_of_hinted(program: &str, leading: Vec<String>, hint: Option<String>) -> (command:
    Command)
    ensures
        command@ == version_run(program@, text::views(leading@), text::held(hint)),
{
    let mut args = leading;
    args.push(text::own("--version"));
    assert(text::views(args@) =~= text::views(leading@).push("--version"@));
    Command { program: text::own(program), args, path_hint: hint, timeout: 60 }
}

/// The last line of a text; a text that ends in a line break ends in the line
/// before it.
pub open spec fn last_line(s: Seq<char>) -> Seq<char> {
    let lines = text::split_on(s, '\n');
    if lines.last().len() == 0 && lines.len() > 1 {
        lines[lines.len() - 2]
    } else {
        lines.last()
    }
}

/// The version that a launcher's output reports: it prints exactly the version,
/// and the last line is taken to tolerate a warning printed before it.
pub open spec fn version_in_output(out: Seq<char>) -> Option<version::Release> {
    version::written_version(text::trimmed(last_line(out)))
}

/// The version a launcher reported, from how running it went.
pub fn reported_version(outcome: Result<String, String>) -> (reported: Result<Version, String>)
    ensures
        match outcome {
            Ok(out) => match version_in_output(out@) {
                Some(release) => reported matches Ok(v) && v@ == release,
                None => reported matches Err(err) && err@ == "unreadable version from launcher: "@
                    + text::debug_text(text::trimmed(last_line(out@))),
            },
            Err(err) => reported matches Err(e) && e@ == err@,
        },
{
    match outcome {
        Ok(out) => {
            let lines = text::split(out.as_str(), '\n');
            let ghost model = text::split_on(out@, '\n');
            let last: usize = lines.len() - 1;
            assert(model.last() == lines@[last as int]@);
            let line = if lines[last].as_str().is_empty() && last > 0 {
                assert(model[model.len() - 2] == lines@[last - 1]@);
                text::trim(lines[last - 1].as_str())
            } else {
                text::trim(lines[last].as_str())
            };
            match Version::parse(line.as_str()) {
                Some(version) => Ok(version),
                None => {
                    let shown = text::quoted(line.as_str());
                    Err(
                        text::plus(
                            text::own("unreadable version from launcher: "),
                            shown.as_str(),
                        ),
                    )
                },
            }
        },
        Err(err) => Err(err),
    }
}

/// The command that fetches the registry document.
///
/// It is `curl`: one GET, from a program that ships with macOS and every Linux
/// distribution. A machine without `curl` simply cannot check automatically.
pub fn registry_request() -> (command: Command)
    ensures
        command@ == (Run {
            program: "curl"@,
            args: seq!["-sSfL"@, "--max-time"@, "20"@, REGISTRY_URL@],
            path_hint: None,
            timeout: 30,
        }),
{
    let mut args: Vec<String> = Vec::new();
    args.push(text::own("-sSfL"));
    args.push(text::own("--max-time"));
    args.push(text::own("20"));
    args.push(text::own(REGISTRY_URL));
    assert(text::views(args@) =~= seq!["-sSfL"@, "--max-time"@, "20"@, REGISTRY_URL@]);
    Command { program: text::own("curl"), args, path_hint: None, timeout: 30 }
}

/// The registry's answer, from how fetching its document went.
pub fn fetch_registry(outcome: Result<String, String>) -> (registry: Result<Registry, String>)
    ensures
        match outcome {
            Ok(document) => answers(registry, registry_read(document::json_parsed(document@))),
            Err(err) => registry matches Err(e) && e@ == "could not reach the registry: "@ + err@,
        },
{
    match outcome {
        Ok(document) => Registry::parse(document.as_str()),
        Err(err) => Err(text::plus(text::own("could not reach the registry: "), err.as_str())),
    }
}

// ----------------------------------------------------- the pending-upgrade note

/// A note that an upgrade was applied but has not yet proven itself.
///
/// The version is stored rather than a bare flag so a launch that somehow runs
/// a different version than intended does not clear a note it did not satisfy.
#[derive(Debug, Clone, PartialEq, Eq)]
pub struct Pending {
    pub target: String,
}

/// Where the note of an upgrade on trial lives.
pub open spec fn pending_of(prefix: Seq<char>) -> Seq<char> {
    path::joined(install::staging_of(prefix), "pending.json"@)
}

/// Where the note lives — beside the backup it would restore, so the two cannot
/// get separated.
pub fn pending_path(install: &Install) -> (path: String)
    ensures
        path@ == pending_of(install.prefix@),
{
    path::join(install.staging_dir().as_str(), "pending.json")
}

/// The note that `version` was applied and is on trial.
pub fn record_pending(version: &Version) -> (note: Pending)
    ensures
        note.target@ == version::version_text(version@),
{
    Pending { target: version.to_string() }
}

/// The version an applied-but-unproven upgrade is on trial for. A note that
/// could not be read, or names no version, is ignored.
pub fn pending(note: Option<Pending>) -> (target: Option<Version>)
    ensures
        held_version(target) == (match note {
            Some(note) => version::written_version(note.target@),
            None => None,
        }),
{
    match note {
        Some(note) => Version::parse(note.target.as_str()),
        None => None,
    }
}

/// The upgrade proved itself; stop watching it. A note that is not there is no
/// reason to complain.
pub fn clear_pending(install: &Install) -> (task: Task)
    ensures
        task@ == Deed::RemoveFile(pending_of(install.prefix@)),
{
    Task::RemoveFile(pending_path(install))
}

// --------------------------------------------------------------------- laws

/// A channel's name selects the channel.
pub proof fn channel_names_round_trip(channel: Channel)
    ensures
        channel_named(channel_name(channel)) == Some(channel),
{
    reveal_strlit("latest");
    reveal_strlit("stable");
    reveal_strlit("alpha");
    let name = channel_name(channel);
    assert(text::trimmed(name) == name);
    assert(text::lowered(name) =~= name);
    assert("alpha"@[0] == 'a' && "latest"@[0] == 'l' && "stable"@[0] == 's');
}

/// The default channel never offers anything but the `latest` tag.
pub proof fn latest_channel_ignores_alpha(tags: Tags)
    ensures
        selected(tags, Channel::Latest) == tags.latest,
{
}

/// An upgrade is offered exactly where the channel's version is newer than the
/// one that runs: an install that is up to date or ahead of the registry is not
/// offered anything.
pub proof fn only_newer_versions_are_offered(
    current: version::Release,
    tags: Tags,
    channel: Channel,
    at: u64,
)
    ensures
        resolved(current, tags, channel, at).phase is Available <==> version::version_order(
            current,
            selected(tags, channel),
        ) == Rank::Lower,
        selected(tags, channel) == current ==> resolved(current, tags, channel, at).phase is Current,
{
    version::order_is_antisymmetric(current, selected(tags, channel));
    version::order_is_reflexive(current);
}

/// Whether every version of a registry answer survives being written and read.
pub open spec fn writable_tags(tags: Tags) -> bool {
    &&& version::writable(tags.latest)
    &&& tags.next matches Some(next) ==> version::writable(next)
    &&& tags.alpha matches Some(alpha) ==> version::writable(alpha)
}

/// A registry answer that was cached is recalled unchanged.
pub proof fn cache_round_trips(tags: Tags, now: u64)
    requires
        writable_tags(tags),
    ensures
        recalled(saved_form(tags, now)) == Some(tags),
        saved_form(tags, now).checked_at == now,
{
    version::written_then_read(tags.latest);
    if let Some(next) = tags.next {
        version::written_then_read(next);
    }
    if let Some(alpha) = tags.alpha {
        version::written_then_read(alpha);
    }
}

/// A clock that moved backwards does not make a cached answer stale.
pub proof fn earlier_clock_keeps_cache_fresh(checked_at: u64, now: u64)
    requires
        now <= checked_at,
    ensures
        fresh(checked_at, now, CHECK_INTERVAL),
{
}

/// Publishing the status never destroys the cached registry answer: the two
/// live at different paths.
pub proof fn cache_is_not_the_status(log: Seq<char>)
    ensures
        path::renamed(log, "update.json"@) != path::renamed(log, "status.json"@),
{
    reveal_strlit("update.json");
    reveal_strlit("status.json");
    let cache = path::renamed(log, "update.json"@);
    let status = path::renamed(log, "status.json"@);
    assert(cache[cache.len() - 11] == 'u');
    assert(status[status.len() - 11] == 's');
}

/// The note of an upgrade on trial lives beside the backup that it would
/// restore.
pub proof fn pending_note_is_beside_backup(prefix: Seq<char>)
    ensures
        path::parent_of(pending_of(prefix)) == path::parent_of(
            path::joined(install::staging_of(prefix), install::BACKUP_DIR@),
        ),
{
    reveal_strlit("pending.json");
    reveal_strlit("previous");
    path::parent_of_joined(install::staging_of(prefix), "pending.json"@);
    path::parent_of_joined(install::staging_of(prefix), install::BACKUP_DIR@);
}

/// The note of a writable version names that version.
pub proof fn pending_note_round_trips(v: version::Release)
    requires
        version::writable(v),
    ensures
        version::written_version(version::version_text(v)) == Some(v),
{
    version::written_then_read(v);
}

/// The alpha channel selects the `alpha` tag wherever there is one, whatever the other
/// tags are, and the `latest` tag where there is none.
pub proof fn alpha_channel_selects_the_alpha_tag(registry: &Registry, version: Version)
    requires
        call_ensures(Registry::channel, (registry, Channel::Alpha), version),
    ensures
        registry.alpha matches Some(alpha) ==> version@ == alpha@,
        registry.alpha is None ==> version@ == registry.latest@,
{
}

/// The latest channel selects the `latest` tag, whatever the other tags are.
pub proof fn latest_channel_selects_the_latest_tag(registry: &Registry, version: Version)
    requires
        call_ensures(Registry::channel, (registry, Channel::Latest), version),
    ensures
        version@ == registry.latest@,
{
}

/// Which names select a channel: `alpha` the one, `latest` and `stable` the other, in
/// letters of either case and with any white space around them, and no other name any.
/// A setting that names none means the latest channel.
pub proof fn channels_have_their_names(name: &str, channel: Option<Channel>, set: Channel)
    requires
        call_ensures(Channel::parse, (name,), channel),
        call_ensures(Channel::from_setting, (name,), set),
    ensures
        ({
            let word = text::lowered(text::trimmed(name@));
            &&& channel == Some(Channel::Alpha) <==> word == "alpha"@
            &&& channel == Some(Channel::Latest) <==> word == "latest"@ || word == "stable"@
            &&& set is Alpha <==> word == "alpha"@
        }),
{
    reveal_strlit("alpha");
    reveal_strlit("latest");
    reveal_strlit("stable");
    assert("alpha"@.len() == 5 && "latest"@.len() == 6 && "stable"@.len() == 6);
}

/// The case of a channel's name and the white space around it do not matter.
pub proof fn spelling_of_channels_does_not_matter(name: Seq<char>, w: char)
    requires
        text::is_white(w),
    ensures
        channel_named(seq![w] + name) == channel_named(name),
        channel_named(name.push(w)) == channel_named(name),
        channel_named(text::lowered(name)) == channel_named(name),
{
    text::lemma_trimmed_ends(name, w);
    text::lemma_lowered_trimmed(name);
    text::lowering_twice_is_lowering_once(text::trimmed(name));
}

/// Each tag of an answer is read off its own text and no other, and an answer is made
/// exactly where the `latest` text is a version.
pub proof fn tags_are_read_off_their_own_texts(
    latest: Option<String>,
    next: Option<String>,
    alpha: Option<String>,
    registry: Result<Registry, String>,
)
    requires
        call_ensures(Registry::from_tags, (latest, next, alpha), registry),
    ensures
        registry is Ok <==> (latest matches Some(s) && version::written_version(s@) is Some),
        registry matches Ok(r) ==> {
            &&& latest matches Some(s) && version::written_version(s@) == Some(r.latest@)
            &&& match (next, r.next) {
                (Some(s), Some(v)) => version::written_version(s@) == Some(v@),
                (Some(s), None) => version::written_version(s@) is None,
                (None, v) => v is None,
            }
            &&& match (alpha, r.alpha) {
                (Some(s), Some(v)) => version::written_version(s@) == Some(v@),
                (Some(s), None) => version::written_version(s@) is None,
                (None, v) => v is None,
            }
        },
        registry matches Err(err) ==> err@ == "registry reply has no latest tag"@,
{
}

/// Where the tags of a registry document are read: in its `dist-tags`, each under its own
/// name. A document without such a mapping, or whose `latest` is no version, is refused.
pub proof fn registry_documents_hold_their_tags(
    document: &str,
    root: Map<Seq<char>, document::Tree>,
    tags: Map<Seq<char>, document::Tree>,
    registry: Result<Registry, String>,
)
    requires
        call_ensures(Registry::parse, (document,), registry),
        document::json_parsed(document@) == Ok::<document::Tree, Seq<char>>(
            document::Tree::Members(root),
        ),
    ensures
        !root.dom().contains("dist-tags"@) ==> registry is Err,
        root.dom().contains("dist-tags"@) && root["dist-tags"@] !is Members ==> registry is Err,
        root.dom().contains("dist-tags"@) && root["dist-tags"@] == document::Tree::Members(tags) ==> {
            &&& registry is Ok <==> tags.dom().contains("latest"@) && (
            tags["latest"@] matches document::Tree::Text(s) && version::written_version(s) is Some)
            &&& registry matches Ok(r) ==> {
                &&& tags["latest"@] matches document::Tree::Text(s) && version::written_version(s)
                    == Some(r.latest@)
                &&& r.next matches Some(v) ==> tags.dom().contains("next"@) && (
                tags["next"@] matches document::Tree::Text(s) && version::written_version(s) == Some(
                    v@,
                ))
                &&& r.alpha matches Some(v) ==> tags.dom().contains("alpha"@) && (
                tags["alpha"@] matches document::Tree::Text(s) && version::written_version(s)
                    == Some(v@))
                &&& r.next is None && tags.dom().contains("next"@) ==> (
                tags["next"@] matches document::Tree::Text(s) ==> version::written_version(s) is None)
                &&& r.alpha is None && tags.dom().contains("alpha"@) ==> (
                tags["alpha"@] matches document::Tree::Text(s) ==> version::written_version(
                    s,
                ) is None)
            }
        },
{
}

/// A document that is no JSON is refused for what is wrong with it, and one that is no
/// mapping, or has no mapping under `dist-tags`, for that.
pub proof fn unreadable_documents_are_refused(
    document: String,
    err: Seq<char>,
    tree: document::Tree,
    registry: Result<Registry, String>,
)
    requires
        call_ensures(fetch_registry, (Ok::<String, String>(document),), registry),
    ensures
        document::json_parsed(document@) == Err::<document::Tree, Seq<char>>(err) ==> (
        registry matches Err(reason) && reason@ == "registry reply: "@ + err),
        document::json_parsed(document@) == Ok::<document::Tree, Seq<char>>(tree) && !(
        tree matches document::Tree::Members(root) && root.dom().contains("dist-tags"@)
            && root["dist-tags"@] is Members) ==> (registry matches Err(reason) && reason@
            == "registry reply has no dist-tags"@),
{
}

/// What a document that could not be had or read leads to: a reason that says which, and
/// ends with what went wrong.
pub proof fn registry_failures_say_why(err: String, registry: Result<Registry, String>)
    requires
        call_ensures(fetch_registry, (Err::<String, String>(err),), registry),
    ensures
        registry matches Err(reason) && reason@ == "could not reach the registry: "@ + err@,
{
}

/// A cached answer is trusted for a day from when it was fetched, and not a second
/// longer; a clock that moved back leaves it trusted.
pub proof fn cached_answers_last_a_day(cached: &Cached, now: u64, yes: bool)
    requires
        call_ensures(Cached::is_fresh, (cached, now, CHECK_INTERVAL), yes),
    ensures
        yes <==> now < cached.checked_at + 24 * 60 * 60,
{
}

/// The longer the interval, the longer an answer is trusted; of no interval at all none
/// is.
pub proof fn freshness_is_the_interval(cached: &Cached, now: u64, interval: u64, yes: bool)
    requires
        call_ensures(Cached::is_fresh, (cached, now, interval), yes),
        now >= cached.checked_at,
    ensures
        yes <==> now - cached.checked_at < interval,
{
}

/// What is recalled from a cached answer: each tag from its own text, and nothing at all
/// where the `latest` text is no version.
pub proof fn recalled_tags_come_from_their_own_texts(cached: &Cached, registry: Option<Registry>)
    requires
        call_ensures(Cached::registry, (cached,), registry),
    ensures
        registry is Some <==> version::written_version(cached.latest@) is Some,
        registry matches Some(r) ==> {
            &&& version::written_version(cached.latest@) == Some(r.latest@)
            &&& match (cached.next, r.next) {
                (Some(s), Some(v)) => version::written_version(s@) == Some(v@),
                (Some(s), None) => version::written_version(s@) is None,
                (None, v) => v is None,
            }
            &&& match (cached.alpha, r.alpha) {
                (Some(s), Some(v)) => version::written_version(s@) == Some(v@),
                (Some(s), None) => version::written_version(s@) is None,
                (None, v) => v is None,
            }
        },
{
}

/// What is kept of an answer: when it was fetched, and the text of each tag under its own
/// name.
pub proof fn cached_texts_are_those_of_the_tags(
    registry: &Registry,
    now: u64,
    cached: Cached,
    shown: String,
)
    requires
        call_ensures(Cached::from_registry, (registry, now), cached),
        call_ensures(Version::to_string, (&registry.latest,), shown),
    ensures
        cached.checked_at == now,
        cached.latest@ == shown@,
        (cached.next is Some <==> registry.next is Some) && (cached.alpha is Some
            <==> registry.alpha is Some),
        registry.next matches Some(v) ==> (cached.next matches Some(s) && s@
            == version::version_text(v@)),
        registry.alpha matches Some(v) ==> (cached.alpha matches Some(s) && s@
            == version::version_text(v@)),
{
}

/// The cached answer and the published status lie beside the log, each under its own
/// name, and nowhere without a log.
pub proof fn update_files_lie_beside_the_log(
    dir: Seq<char>,
    name: Seq<char>,
    log: Option<String>,
    cache: Option<String>,
    status: Option<String>,
)
    requires
        call_ensures(cache_path, (log,), cache),
        call_ensures(status_path, (log,), status),
        path::one_name(name),
        name != seq!['.', '.'],
        log matches Some(l) ==> l@ == path::joined(dir, name),
    ensures
        log is None ==> cache is None && status is None,
        log is Some ==> (cache matches Some(file) && path::name_of(file@) == Some("update.json"@)
            && path::parent_of(file@) == Some(path::settled(dir))),
        log is Some ==> (status matches Some(file) && path::name_of(file@) == Some("status.json"@)
            && path::parent_of(file@) == Some(path::settled(dir))),
{
    reveal_strlit("update.json");
    reveal_strlit("status.json");
    lemma_names_are_plain();
    path::parent_of_joined(dir, name);
    path::renaming_stays_in_the_directory(dir, name, "update.json"@);
    path::renaming_stays_in_the_directory(dir, name, "status.json"@);
}

proof fn lemma_names_are_plain()
    ensures
        path::one_name("update.json"@) && "update.json"@ != seq!['.', '.'],
        path::one_name("status.json"@) && "status.json"@ != seq!['.', '.'],
{
    reveal_strlit("update.json");
    reveal_strlit("status.json");
    assert(seq!['.', '.'][0] == '.' && "update.json"@[0] == 'u' && "status.json"@[0] == 's');
    assert(seq!['.'][0] == '.');
}

/// Publishing writes the status, whole and alone, to its file: the last task is that
/// write, and the only other one makes the directory.
pub proof fn publishing_writes_the_status(
    log: Option<String>,
    status: String,
    tasks: Vec<Task>,
    file: Option<String>,
)
    requires
        call_ensures(publish, (log, status), tasks),
        call_ensures(status_path, (log,), file),
    ensures
        file is None <==> tasks@.len() == 0,
        file matches Some(file) ==> {
            &&& 1 <= tasks@.len() <= 2
            &&& tasks@.last()@ == (Deed::Write { path: file@, contents: status@ })
            &&& tasks@.len() == 2 <==> path::parent_of(file@) is Some
            &&& path::parent_of(file@) matches Some(dir) ==> tasks@[0]@ == Deed::MakeDirs(dir)
        },
{
    let all = task::deeds(tasks@);
    assert(all.len() == tasks@.len());
    if let Some(file) = file {
        let write = Deed::Write { path: file@, contents: status@ };
        match path::parent_of(file@) {
            Some(dir) => {
                assert(all == seq![Deed::MakeDirs(dir), write]);
                assert(all.len() == 2);
                assert(all[0] == tasks@[0]@ && all[1] == tasks@[1]@);
            },
            None => {
                assert(all == seq![write]);
                assert(all.len() == 1);
                assert(all[0] == tasks@[0]@);
            },
        }
    }
}

/// The page's names for the phases are eight, one for each.
pub proof fn phases_have_their_names(phase: &Phase, name: &'static str)
    requires
        call_ensures(Phase::as_str, (phase,), name),
    ensures
        name@ == "unknown"@ <==> phase is Unknown,
        name@ == "checking"@ <==> phase is Checking,
        name@ == "current"@ <==> phase is Current,
        name@ == "available"@ <==> phase is Available,
        name@ == "working"@ <==> phase is Working,
        name@ == "restartRequired"@ <==> phase is RestartRequired,
        name@ == "failed"@ <==> phase is Failed,
        name@ == "unsupported"@ <==> phase is Unsupported,
{
    reveal_strlit("unknown");
    reveal_strlit("checking");
    reveal_strlit("current");
    reveal_strlit("available");
    reveal_strlit("working");
    reveal_strlit("restartRequired");
    reveal_strlit("failed");
    reveal_strlit("unsupported");
    assert("unknown"@.len() == 7 && "current"@.len() == 7 && "working"@.len() == 7);
    assert("unknown"@[0] == 'u' && "current"@[0] == 'c' && "working"@[0] == 'w');
    assert("checking"@.len() == 8 && "available"@.len() == 9 && "restartRequired"@.len() == 15);
    assert("failed"@.len() == 6 && "unsupported"@.len() == 11);
}

/// What the page receives of a status: the texts of its two versions, the name of its
/// channel and phase, and a message. A phase that carries its own reason shows that
/// reason, whatever the message is; any other shows the message. The page is busy exactly
/// while a check or an upgrade runs.
pub proof fn the_page_sees_the_status(status: &Status, report: Report, name: &'static str)
    requires
        call_ensures(Status::json, (status,), report),
        call_ensures(Phase::as_str, (&status.phase,), name),
    ensures
        report.busy <==> status.phase is Checking || status.phase is Working,
        report.checked_at == status.checked_at,
        report.phase@ == name@,
        report.channel@ == "alpha"@ <==> status.channel is Alpha,
        report.channel@ == "latest"@ <==> status.channel is Latest,
        status.phase matches Phase::Failed(reason) ==> text::held(report.message) == Some(reason@),
        status.phase matches Phase::Unsupported(reason) ==> text::held(report.message) == Some(
            reason@,
        ),
        !(status.phase is Failed || status.phase is Unsupported) ==> text::held(report.message)
            == text::held(status.message),
        (report.current is Some <==> status.current is Some) && (report.target is Some
            <==> status.target is Some),
        status.current matches Some(v) ==> (report.current matches Some(s) && s@
            == version::version_text(v@)),
        status.target matches Some(v) ==> (report.target matches Some(s) && s@
            == version::version_text(v@)),
{
    reveal_strlit("alpha");
    reveal_strlit("latest");
    assert("alpha"@.len() == 5 && "latest"@.len() == 6);
}

/// What a check shows for an answer: the version that runs, the version of the channel as
/// the target, the channel itself and when the answer was fetched, with no message. The
/// target can be installed exactly where it is newer than what runs.
pub proof fn a_status_follows_from_the_answer(
    current: &Version,
    registry: &Registry,
    channel: Channel,
    checked_at: u64,
    status: Status,
    target: Version,
    rank: Rank,
)
    requires
        call_ensures(resolve, (current, registry, channel, checked_at), status),
        call_ensures(Registry::channel, (registry, channel), target),
        call_ensures(Version::rank, (&target, current), rank),
    ensures
        held_version(status.current) == Some(current@),
        held_version(status.target) == Some(target@),
        status.channel == channel,
        status.checked_at == Some(checked_at),
        status.message is None,
        status.phase is Available <==> rank is Higher,
        status.phase is Current <==> !(rank is Higher),
{
}

/// A check asks the registry unless it may use the cache: the network is left alone
/// exactly where the check was not forced and the cached answer is younger than a day and
/// can be read. What is then shown is that answer, with the time it was fetched, and
/// nothing is stored.
pub proof fn only_a_fresh_cache_spares_the_network(
    channel: Channel,
    force: bool,
    install: Install,
    current: Version,
    cached: Option<Cached>,
    now: u64,
    step: (CheckState, CheckAction),
)
    requires
        call_ensures(
            check,
            (
                CheckState::Recalling { channel, force, install, current },
                CheckEvent::Recalled(cached, now),
            ),
            step,
        ),
    ensures
        step.1 is Fetch <==> !(!force && (cached matches Some(c) && now < c.checked_at + 86400
            && version::written_version(c.latest@) is Some)),
        step.1 is Fetch ==> step.0 == (CheckState::Fetching { channel, install, current, cached }),
        !(step.1 is Fetch) ==> {
            &&& step.0 is Finished
            &&& step.1 matches CheckAction::Report { status, install: Some(i), store: None }
            &&& i == install
            &&& cached matches Some(c)
            &&& status.checked_at == Some(c.checked_at)
            &&& status.channel == channel
            &&& held_version(status.current) == Some(current@)
            &&& recalled(c@) matches Some(tags)
            &&& held_version(status.target) == Some(selected(tags, channel))
            &&& status.message is None
            &&& status.phase is Available <==> version::version_order(
                selected(tags, channel),
                current@,
            ) is Higher
            &&& status.phase is Current <==> !(status.phase is Available)
        },
{
}

/// An answer of the registry is shown as of now, and stored as of now.
pub proof fn a_fetched_answer_is_shown_and_stored(
    channel: Channel,
    install: Install,
    current: Version,
    cached: Option<Cached>,
    registry: Registry,
    now: u64,
    step: (CheckState, CheckAction),
    shown: Status,
    kept: Cached,
)
    requires
        call_ensures(
            check,
            (
                CheckState::Fetching { channel, install, current, cached },
                CheckEvent::Fetched(Ok::<Registry, String>(registry), now),
            ),
            step,
        ),
        call_ensures(resolve, (&current, &registry, channel, now), shown),
        call_ensures(Cached::from_registry, (&registry, now), kept),
    ensures
        step.0 is Finished,
        step.1 matches CheckAction::Report { status, install: Some(i), store: Some(store) } && {
            &&& i == install
            &&& status@ == shown@
            &&& status.checked_at == Some(now)
            &&& store@ == kept@
            &&& store.checked_at == now
        },
{
}

/// Where the registry does not answer, the last known answer is shown, as of when it was
/// fetched, with a message that begins with what went wrong; without one the check
/// failed for that reason. Nothing is stored either way.
pub proof fn the_last_known_answer_stands_in(
    channel: Channel,
    install: Install,
    current: Version,
    cached: Option<Cached>,
    err: String,
    now: u64,
    step: (CheckState, CheckAction),
)
    requires
        call_ensures(
            check,
            (
                CheckState::Fetching { channel, install, current, cached },
                CheckEvent::Fetched(Err::<Registry, String>(err), now),
            ),
            step,
        ),
    ensures
        step.0 is Finished,
        step.1 matches CheckAction::Report { status, install: Some(i), store: None } && {
            let known = cached matches Some(c) && version::written_version(c.latest@) is Some;
            &&& i == install
            &&& status.channel == channel
            &&& held_version(status.current) == Some(current@)
            &&& known ==> {
                &&& cached matches Some(c)
                &&& recalled(c@) matches Some(tags)
                &&& held_version(status.target) == Some(selected(tags, channel))
                &&& status.checked_at == Some(c.checked_at)
                &&& text::held(status.message) == Some(err@ + "; showing the last known result"@)
                &&& status.phase is Available <==> version::version_order(
                    selected(tags, channel),
                    current@,
                ) is Higher
                &&& status.phase is Current <==> !(status.phase is Available)
            }
            &&& !known ==> {
                &&& status.phase matches Phase::Failed(reason)
                &&& reason@ == err@
                &&& status.target is None
                &&& status.message is None
                &&& status.checked_at is None
            }
        },
{
}

/// A check goes through its questions one after the other, and keeps the channel and what
/// it was told: the install is probed once it is located, and the cache is read once the
/// launcher has reported its version.
pub proof fn a_check_asks_in_order(
    launcher: String,
    channel: Channel,
    force: bool,
    install: Install,
    current: Version,
    located: (CheckState, CheckAction),
    probed: (CheckState, CheckAction),
)
    requires
        call_ensures(
            check,
            (
                CheckState::Locating { launcher, channel, force },
                CheckEvent::Located(Some(install)),
            ),
            located,
        ),
        call_ensures(
            check,
            (
                CheckState::Probing { channel, force, install },
                CheckEvent::Probed(Ok::<Version, String>(current)),
            ),
            probed,
        ),
    ensures
        located.0 == (CheckState::Probing { channel, force, install }),
        located.1 is Probe,
        probed.0 == (CheckState::Recalling { channel, force, install, current }),
        probed.1 is Recall,
{
}

/// What ends a check early: a launcher that belongs to no install cannot be upgraded, and
/// the status says so by its name; a launcher that does not report its version fails the
/// check, and the install is still handed back.
pub proof fn a_check_can_end_early(
    launcher: String,
    channel: Channel,
    force: bool,
    install: Install,
    err: String,
    lost: (CheckState, CheckAction),
    mute: (CheckState, CheckAction),
)
    requires
        call_ensures(
            check,
            (
                CheckState::Locating { launcher, channel, force },
                CheckEvent::Located(None::<Install>),
            ),
            lost,
        ),
        call_ensures(
            check,
            (
                CheckState::Probing { channel, force, install },
                CheckEvent::Probed(Err::<Version, String>(err)),
            ),
            mute,
        ),
    ensures
        lost.0 is Finished && mute.0 is Finished,
        lost.1 matches CheckAction::Report { status, install: None, store: None } && {
            &&& status.phase matches Phase::Unsupported(reason)
            &&& reason@ == launcher@
                + " is not a package-manager install, so it cannot upgrade itself"@
            &&& status.channel == channel
            &&& status.current is None && status.target is None && status.message is None
            &&& status.checked_at is None
        },
        mute.1 matches CheckAction::Report { status, install: Some(i), store: None } && {
            &&& status.phase matches Phase::Failed(reason)
            &&& reason@ == err@
            &&& status.channel == channel
            &&& status.current is None && status.target is None && status.message is None
            &&& status.checked_at is None
            &&& i == install
        },
{
}

/// What answers no open question changes nothing.
pub proof fn a_check_ignores_stray_events(
    state: CheckState,
    event: CheckEvent,
    step: (CheckState, CheckAction),
)
    requires
        call_ensures(check, (state, event), step),
        !(state is Locating && event is Located),
        !(state is Probing && event is Probed),
        !(state is Recalling && event is Recalled),
        !(state is Fetching && event is Fetched),
    ensures
        step.0 == state,
        step.1 is Wait,
{
}

/// A launcher is run with `--version` alone, within a minute, with its own directory on
/// the search path.
pub proof fn a_launcher_is_asked_for_its_version(launcher: &str, command: Command)
    requires
        call_ensures(version_of, (launcher,), command),
    ensures
        command.program@ == launcher@,
        command.args@.len() == 1,
        command.args@[0]@ == "--version"@,
        text::held(command.path_hint) == Some(launcher@),
        command.timeout == 60,
{
    let args = text::views(command.args@);
    assert(command@.args == args);
    assert(args == Seq::<Seq<char>>::empty().push("--version"@));
    assert(args.len() == 1 && args[0] == command.args@[0]@);
}

/// The registry is asked for the package of DSH, once, and given up after half a minute.
pub proof fn the_registry_is_asked_for_the_package(command: Command)
    requires
        call_ensures(registry_request, (), command),
    ensures
        command.program@ == "curl"@,
        command.args@.len() == 4,
        command.args@[0]@ == "-sSfL"@,
        command.args@[1]@ == "--max-time"@,
        command.args@[2]@ == "20"@,
        command.args@[3]@ == "https://registry.npmjs.org/@deepseek-ai%2Fdsh"@,
        command.path_hint is None,
        command.timeout == 30,
{
    let args = text::views(command.args@);
    assert(command@.args == args);
    assert(args == seq!["-sSfL"@, "--max-time"@, "20"@, REGISTRY_URL@]);
    assert(args.len() == 4);
    assert(args[0] == command.args@[0]@ && args[1] == command.args@[1]@ && args[2]
        == command.args@[2]@ && args[3] == command.args@[3]@);
}

/// The version that a launcher prints is read off its last line, whatever it printed on
/// the lines before, and whether or not a line break follows.
pub proof fn printed_versions_are_read(warnings: Seq<char>, v: version::Release)
    requires
        version::writable(v),
        !version::version_text(v).contains('\n'),
        warnings.len() > 0 ==> warnings.last() == '\n',
    ensures
        version_in_output(warnings + version::version_text(v)) == Some(v),
        version_in_output((warnings + version::version_text(v)).push('\n')) == Some(v),
{
    let line = version::version_text(v);
    let out = warnings + line;
    version::written_then_read(v);
    install::lemma_version_text_starts(v);
    text::lemma_split_nonempty(warnings, '\n');
    text::lemma_split_append(warnings, line, '\n');
    let lines = text::split_on(out, '\n');
    if warnings.len() > 0 {
        assert(text::split_on(warnings, '\n').last() =~= Seq::<char>::empty());
    } else {
        assert(warnings =~= Seq::<char>::empty());
        assert(text::split_on(warnings, '\n').last() =~= Seq::<char>::empty());
    }
    assert(Seq::<char>::empty() + line =~= line);
    assert(lines.last() == line);
    assert(last_line(out) == line);
    let ended = out.push('\n');
    assert(ended.drop_last() =~= out);
    let more = text::split_on(ended, '\n');
    assert(more =~= lines.push(Seq::<char>::empty()));
    assert(more[more.len() - 2] == line);
    assert(last_line(ended) == line);
    version::reading_ignores_trimming(line);
}

/// What a launcher reported: the version on its last line, or a reason that shows the
/// line where it is none, or why the launcher could not be run.
pub proof fn reports_are_read_or_refused(
    outcome: Result<String, String>,
    reported: Result<Version, String>,
)
    requires
        call_ensures(reported_version, (outcome,), reported),
    ensures
        outcome matches Err(err) ==> (reported matches Err(e) && e@ == err@),
        outcome matches Ok(out) ==> (reported is Ok <==> version_in_output(out@) is Some),
        outcome matches Ok(out) ==> (reported matches Ok(v) ==> version_in_output(out@) == Some(v@)),
        outcome matches Ok(out) ==> (reported matches Err(e) ==> e@
            == "unreadable version from launcher: "@ + text::debug_text(
            text::trimmed(last_line(out@)),
        )),
{
}

/// The note of an upgrade names the version that was applied, and reading the note gives
/// that version back; a note that is not there names none.
pub proof fn the_note_names_the_version(
    version: &Version,
    note: Pending,
    read: Option<Version>,
    nothing: Option<Version>,
)
    requires
        call_ensures(record_pending, (version,), note),
        call_ensures(pending, (Some(note),), read),
        call_ensures(pending, (None::<Pending>,), nothing),
        version::writable(version@),
    ensures
        note.target@ == version::version_text(version@),
        held_version(read) == Some(version@),
        nothing is None,
{
    version::written_then_read(version@);
}

/// Clearing the note removes its file and nothing else; the file is `pending.json` beside
/// the staged trees.
pub proof fn clearing_removes_the_note(install: &Install, task: Task, path: String, dir: String)
    requires
        call_ensures(clear_pending, (install,), task),
        call_ensures(pending_path, (install,), path),
        call_ensures(Install::staging_dir, (install,), dir),
    ensures
        task@ == Deed::RemoveFile(path@),
        path@ == path::joined(dir@, "pending.json"@),
{
}

/// The last line of what was printed: what follows the last line break, or, where nothing
/// does, the line that it ends.
pub proof fn the_last_line_is_found(front: Seq<char>, line: Seq<char>)
    requires
        !line.contains('\n'),
    ensures
        line.len() > 0 ==> last_line(front.push('\n') + line) == line,
        last_line((front.push('\n') + line).push('\n')) == line,
        last_line(line) == line,
        last_line(line.push('\n')) == line,
{
    let none = Seq::<char>::empty();
    text::lemma_split_nonempty(front, '\n');
    text::lemma_split_append(front, line, '\n');
    let s = front.push('\n') + line;
    let lines = text::split_on(s, '\n');
    assert(lines == text::split_on(front, '\n').push(line));
    assert(lines.last() == line);
    let ended = s.push('\n');
    assert(ended.drop_last() =~= s);
    let more = text::split_on(ended, '\n');
    assert(more =~= lines.push(none));
    assert(more[more.len() - 2] == line);
    text::only_piece(line, '\n');
    assert(line.push('\n').drop_last() =~= line);
    let two = text::split_on(line.push('\n'), '\n');
    assert(two =~= seq![line, none]);
    assert(two.last() == none && two[0] == line);
}

} // verus!
