//! The shell's side of the plugin bridge.
//!
//! Newline-delimited JSON events are read from the `dsh-plugin-shell-bridge`
//! host plugin. If DSH is not running, or the plugin is not installed, nothing
//! happens and the shell works exactly as before.

use crate::runtime;
use crate::text;
use vstd::prelude::*;

verus! {

/// One event from the host plugin.
///
/// Unknown `kind` values are tolerated rather than rejected, so a newer plugin
/// can add events without breaking an older shell.
#[derive(Debug, Clone, PartialEq, Eq)]
pub struct BridgeEvent {
    pub kind: String,
    pub session_id: Option<String>,
    pub status: Option<String>,
    pub message: Option<String>,
    pub reason: Option<String>,
}

/// A short label for an event.
pub open spec fn event_summary(kind: Seq<char>, status: Option<Seq<char>>) -> Seq<char> {
    if kind == "status"@ {
        "status: "@ + (match status {
            Some(status) => status,
            None => "unknown"@,
        })
    } else if kind == "turn-stopping"@ {
        "turn finished"@
    } else if kind == "request-error"@ {
        "request failed"@
    } else if kind == "created"@ {
        "agent created"@
    } else if kind == "disposed"@ {
        "agent disposed"@
    } else {
        kind
    }
}

/// Whether an event of a kind finishes a turn.
pub open spec fn finishes(kind: Seq<char>) -> bool {
    kind == "turn-stopping"@
}

/// Whether an event of a kind interrupts the user.
pub open spec fn interrupts(kind: Seq<char>) -> bool {
    kind == "turn-stopping"@ || kind == "request-error"@
}

impl BridgeEvent {
    /// A short label for tray tooltips and notification titles.
    pub fn summary(&self) -> (label: String)
        ensures
            label@ == event_summary(self.kind@, text::held(self.status)),
    {
        let kind = self.kind.as_str();
        if text::same(kind, "status") {
            let status = match &self.status {
                Some(status) => status.as_str(),
                None => "unknown",
            };
            text::plus(text::own("status: "), status)
        } else if text::same(kind, "turn-stopping") {
            text::own("turn finished")
        } else if text::same(kind, "request-error") {
            text::own("request failed")
        } else if text::same(kind, "created") {
            text::own("agent created")
        } else if text::same(kind, "disposed") {
            text::own("agent disposed")
        } else {
            text::own(kind)
        }
    }

    /// Whether this event is counted as a finished turn. A request that failed is
    /// shown and notified, and not counted.
    pub fn finishes_turn(&self) -> (yes: bool)
        ensures
            yes == finishes(self.kind@),
    {
        text::same(self.kind.as_str(), "turn-stopping")
    }

    /// Whether this event warrants a desktop notification.
    ///
    /// Deliberately narrow: notifying on every status change would be noise,
    /// and the two cases a user actually wants to be interrupted for are a
    /// finished turn and a failure.
    pub fn wants_notification(&self) -> (yes: bool)
        ensures
            yes == interrupts(self.kind@),
    {
        text::same(self.kind.as_str(), "turn-stopping") || text::same(
            self.kind.as_str(),
            "request-error",
        )
    }
}

/// The document of one newline-delimited line, where the line holds one: the
/// line without the white space around it.
pub fn frame(line: &str) -> (document: Option<String>)
    ensures
        text::held(document) == (if text::trimmed(line@).len() > 0 {
            Some(text::trimmed(line@))
        } else {
            None
        }),
{
    let trimmed = text::trim(line);
    if trimmed.as_str().is_empty() {
        None
    } else {
        Some(trimmed)
    }
}

/// Resolve the socket path, matching the plugin's own resolution: an explicit
/// path, or a file named by user in the runtime directory, or in the temporary
/// directory where there is none. It is the socket of the runtime files.
pub fn socket_path(
    explicit: Option<String>,
    run_dir: Option<String>,
    temp_dir: &str,
    uid: u32,
) -> (socket: String)
    ensures
        socket@ == runtime::runtime_path(
            text::held(explicit),
            runtime::run_dir_of(text::held(run_dir), temp_dir@),
            uid,
            ".sock"@,
        ),
{
    let env = runtime::Env {
        socket: explicit,
        lock: None,
        activate: None,
        run_dir,
        temp_dir: text::own(temp_dir),
    };
    env.socket_path(uid)
}

// --------------------------------------------------------------------- laws

/// The kinds of events that interrupt the user are two: a turn that ended and a request
/// that failed. Only the first counts as a finished turn.
pub proof fn only_ends_and_failures_interrupt(event: &BridgeEvent, wants: bool, finishes: bool)
    requires
        call_ensures(BridgeEvent::wants_notification, (event,), wants),
        call_ensures(BridgeEvent::finishes_turn, (event,), finishes),
    ensures
        finishes <==> event.kind@ == "turn-stopping"@,
        wants <==> event.kind@ == "turn-stopping"@ || event.kind@ == "request-error"@,
        finishes ==> wants,
{
}

/// The label of an event: a status is named behind `status: `, with `unknown` for none,
/// the four other known kinds have a label of their own, and any other kind is its own
/// label.
pub proof fn events_have_their_labels(event: &BridgeEvent, label: String)
    requires
        call_ensures(BridgeEvent::summary, (event,), label),
    ensures
        event.kind@ == "status"@ ==> label@ == "status: "@ + (match event.status {
            Some(status) => status@,
            None => "unknown"@,
        }),
        event.kind@ == "turn-stopping"@ ==> label@ == "turn finished"@,
        event.kind@ == "request-error"@ ==> label@ == "request failed"@,
        event.kind@ == "created"@ ==> label@ == "agent created"@,
        event.kind@ == "disposed"@ ==> label@ == "agent disposed"@,
        event.kind@ != "status"@ && event.kind@ != "turn-stopping"@ && event.kind@
            != "request-error"@ && event.kind@ != "created"@ && event.kind@ != "disposed"@
            ==> label@ == event.kind@,
{
    reveal_strlit("status");
    reveal_strlit("turn-stopping");
    reveal_strlit("request-error");
    reveal_strlit("created");
    reveal_strlit("disposed");
    assert("status"@.len() == 6 && "created"@.len() == 7 && "disposed"@.len() == 8);
    assert("turn-stopping"@.len() == 13 && "request-error"@.len() == 13);
    assert("turn-stopping"@[0] == 't' && "request-error"@[0] == 'r');
}

/// A line holds a document exactly where it is not blank, and the document is the line
/// without the white space around it.
pub proof fn lines_hold_documents(line: &str, document: Option<String>)
    requires
        call_ensures(frame, (line,), document),
    ensures
        document is None <==> forall|k: int|
            0 <= k < line@.len() ==> text::is_white(#[trigger] line@[k]),
        document matches Some(d) ==> d@ == text::trimmed(line@),
{
    text::blank_is_trimmed_away(line@);
}

/// Both ends of the bridge name one socket: what is resolved here is what the runtime
/// files of the same environment resolve to.
pub proof fn both_ends_name_one_socket(
    env: &runtime::Env,
    temp_dir: &str,
    uid: u32,
    here: String,
    there: String,
)
    requires
        temp_dir@ == env.temp_dir@,
        call_ensures(socket_path, (env.socket, env.run_dir, temp_dir, uid), here),
        call_ensures(runtime::Env::socket_path, (env, uid), there),
    ensures
        here@ == there@,
{
}

} // verus!
