//! Single-instance ownership of the shell.
//!
//! Two shells racing would each start a host and each bind the same bridge
//! socket path, so a second launch must reach the first instead of competing
//! with it: it asks the running shell to show its window before exiting.

use crate::text;
use vstd::prelude::*;

verus! {

/// How many milliseconds a second launch waits for the running shell to
/// acknowledge, so that a shell that is alive but wedged cannot hang it forever.
pub const HANDSHAKE_TIMEOUT: u64 = 3000;

/// Asks the running shell to show its window.
pub const SHOW_REQUEST: &'static str = "show";

/// What the running shell answers once it has taken the request.
pub const SHOW_ACK: &'static str = "ok";

/// How many times the slot is tried: the holder can die between a failed lock
/// and the handoff, and the retry then acquires a lock nobody holds.
pub const ATTEMPTS: u8 = 2;

/// How far a claim of the slot has come, with the attempts that are left.
#[derive(Debug, Clone, Copy, PartialEq, Eq, Structural)]
pub enum Claiming {
    /// Trying the lock.
    Locking(u8),
    /// Handing off to the shell that holds the lock.
    HandingOff(u8),
    /// Over.
    Finished,
}

/// What came back from outside.
#[derive(Debug, PartialEq, Eq)]
pub enum ClaimEvent {
    /// The lock was taken.
    Locked,
    /// Another shell holds the lock.
    Held,
    /// The lock could not be tried at all.
    LockFailed(String),
    /// The running shell agreed to show its window.
    Acknowledged,
    /// Nobody took the handoff.
    Unanswered,
}

/// What to do next.
#[derive(Debug, PartialEq, Eq)]
pub enum ClaimAction {
    /// Try the lock.
    TryLock,
    /// Ask the running shell to show its window.
    HandOff,
    /// This process owns the slot: listen for show requests, and run a shell.
    Own,
    /// Another shell shows its window: nothing is left to do.
    Leave,
    /// Refuse to start.
    Fail(String),
    /// Nothing: the event answers no open question.
    Wait,
}

/// Why the slot could not be claimed.
pub open spec fn unanswered(lock: Seq<char>, activate: Seq<char>) -> Seq<char> {
    "another shell holds "@ + lock + " and did not answer on "@ + activate
}

/// Begin to claim the slot.
pub fn begin_claim() -> (step: (Claiming, ClaimAction))
    ensures
        step == (Claiming::Locking(ATTEMPTS), ClaimAction::TryLock),
{
    (Claiming::Locking(ATTEMPTS), ClaimAction::TryLock)
}

/// The stage that follows an event.
pub open spec fn claim_stage(state: Claiming, event: ClaimEvent) -> Claiming {
    match (state, event) {
        (Claiming::Locking(left), ClaimEvent::Held) => Claiming::HandingOff(left),
        (Claiming::Locking(_), ClaimEvent::Locked) => Claiming::Finished,
        (Claiming::Locking(_), ClaimEvent::LockFailed(_)) => Claiming::Finished,
        (Claiming::HandingOff(_), ClaimEvent::Acknowledged) => Claiming::Finished,
        (Claiming::HandingOff(left), ClaimEvent::Unanswered) => if left > 1 {
            Claiming::Locking((left - 1) as u8)
        } else {
            Claiming::Finished
        },
        _ => state,
    }
}

/// What an action is.
pub ghost enum Verdict {
    TryLock,
    HandOff,
    Own,
    Leave,
    Fail(Seq<char>),
    Wait,
}

impl View for ClaimAction {
    type V = Verdict;

    open spec fn view(&self) -> Verdict {
        match self {
            ClaimAction::TryLock => Verdict::TryLock,
            ClaimAction::HandOff => Verdict::HandOff,
            ClaimAction::Own => Verdict::Own,
            ClaimAction::Leave => Verdict::Leave,
            ClaimAction::Fail(reason) => Verdict::Fail(reason@),
            ClaimAction::Wait => Verdict::Wait,
        }
    }
}

/// What an event leads to.
pub open spec fn claim_verdict(
    lock: Seq<char>,
    activate: Seq<char>,
    state: Claiming,
    event: ClaimEvent,
) -> Verdict {
    match (state, event) {
        (Claiming::Locking(_), ClaimEvent::Locked) => Verdict::Own,
        (Claiming::Locking(_), ClaimEvent::Held) => Verdict::HandOff,
        (Claiming::Locking(_), ClaimEvent::LockFailed(err)) => Verdict::Fail(err@),
        (Claiming::HandingOff(_), ClaimEvent::Acknowledged) => Verdict::Leave,
        (Claiming::HandingOff(left), ClaimEvent::Unanswered) => if left > 1 {
            Verdict::TryLock
        } else {
            Verdict::Fail(unanswered(lock, activate))
        },
        _ => Verdict::Wait,
    }
}

/// Take the next step of claiming the slot, handing off to a running shell if
/// there is one.
///
/// A failed handoff means the holder vanished; the lock is then retried rather
/// than reporting a failure the user cannot act on. Refusing to start is the safe
/// failure: starting anyway risks the collision the lock exists to prevent.
pub fn claim(lock_path: &str, activate_path: &str, state: Claiming, event: ClaimEvent) -> (step: (
    Claiming,
    ClaimAction,
))
    ensures
        step.0 == claim_stage(state, event),
        step.1@ == claim_verdict(lock_path@, activate_path@, state, event),
{
    match (state, event) {
        (Claiming::Locking(_), ClaimEvent::Locked) => (Claiming::Finished, ClaimAction::Own),
        (Claiming::Locking(left), ClaimEvent::Held) => (
            Claiming::HandingOff(left),
            ClaimAction::HandOff,
        ),
        (Claiming::Locking(_), ClaimEvent::LockFailed(err)) => (
            Claiming::Finished,
            ClaimAction::Fail(err),
        ),
        (Claiming::HandingOff(_), ClaimEvent::Acknowledged) => (
            Claiming::Finished,
            ClaimAction::Leave,
        ),
        (Claiming::HandingOff(left), ClaimEvent::Unanswered) => if left > 1 {
            (Claiming::Locking(left - 1), ClaimAction::TryLock)
        } else {
            let s = text::plus(text::own("another shell holds "), lock_path);
            let s = text::plus(s, " and did not answer on ");
            (Claiming::Finished, ClaimAction::Fail(text::plus(s, activate_path)))
        },
        _ => (state, ClaimAction::Wait),
    }
}

/// A line that carries `word`, as it is sent.
pub open spec fn line_of(word: Seq<char>) -> Seq<char> {
    word.push('\n')
}

/// The line that asks the running shell to show its window.
pub fn show_request_line() -> (line: String)
    ensures
        line@ == line_of(SHOW_REQUEST@),
{
    let mut line = text::own(SHOW_REQUEST);
    line.push('\n');
    line
}

/// The line that answers a show request.
pub fn show_ack_line() -> (line: String)
    ensures
        line@ == line_of(SHOW_ACK@),
{
    let mut line = text::own(SHOW_ACK);
    line.push('\n');
    line
}

/// Whether a line asks to show the window. Anything else is ignored.
pub fn is_show_request(line: &str) -> (yes: bool)
    ensures
        yes == (text::trimmed(line@) == SHOW_REQUEST@),
{
    let word = text::trim(line);
    text::same(word.as_str(), SHOW_REQUEST)
}

/// What a reply to a show request means: an acknowledgement, or why it is none.
pub fn read_reply(line: &str) -> (reply: Result<(), String>)
    ensures
        match reply {
            Ok(_) => text::trimmed(line@) == SHOW_ACK@,
            Err(reason) => {
                &&& text::trimmed(line@) != SHOW_ACK@
                &&& reason@ == "unexpected activation reply: "@ + text::trimmed(line@)
            },
        },
{
    let word = text::trim(line);
    if text::same(word.as_str(), SHOW_ACK) {
        Ok(())
    } else {
        Err(text::plus(text::own("unexpected activation reply: "), word.as_str()))
    }
}

// --------------------------------------------------------------------- laws

/// The request line is recognised as a request, and the acknowledgement as an
/// acknowledgement; neither is taken for the other.
pub proof fn lines_are_understood()
    ensures
        text::trimmed(line_of(SHOW_REQUEST@)) == SHOW_REQUEST@,
        text::trimmed(line_of(SHOW_ACK@)) == SHOW_ACK@,
        SHOW_REQUEST@ != SHOW_ACK@,
{
    reveal_strlit("show");
    reveal_strlit("ok");
    let show = line_of(SHOW_REQUEST@);
    let ok = line_of(SHOW_ACK@);
    assert(show.drop_last() =~= SHOW_REQUEST@);
    assert(ok.drop_last() =~= SHOW_ACK@);
    assert(text::trim_start(show) == show);
    assert(text::trim_start(ok) == ok);
    assert(text::trim_end(SHOW_REQUEST@) == SHOW_REQUEST@);
    assert(text::trim_end(SHOW_ACK@) == SHOW_ACK@);
}

/// How often a course of events makes a claim try the lock again.
pub open spec fn relocks(state: Claiming, events: Seq<ClaimEvent>) -> nat
    decreases events.len(),
{
    if events.len() == 0 {
        0
    } else {
        let next = claim_stage(state, events[0]);
        let again: nat = if next is Locking && state is HandingOff {
            1
        } else {
            0
        };
        again + relocks(next, events.skip(1))
    }
}

/// The attempts that a claim has left.
pub open spec fn attempts_left(state: Claiming) -> nat {
    match state {
        Claiming::Locking(left) => left as nat,
        Claiming::HandingOff(left) => left as nat,
        Claiming::Finished => 1,
    }
}

/// A claim never tries the lock more often than it has attempts: whatever
/// happens, a launch does not cycle.
pub proof fn claim_does_not_cycle(state: Claiming, events: Seq<ClaimEvent>)
    requires
        attempts_left(state) > 0,
    ensures
        relocks(state, events) < attempts_left(state),
    decreases events.len(),
{
    if events.len() > 0 {
        claim_does_not_cycle(claim_stage(state, events[0]), events.skip(1));
    }
}

/// Whether an event answers the question that a stage leaves open.
pub open spec fn answers(state: Claiming, event: ClaimEvent) -> bool {
    match state {
        Claiming::Locking(_) => event is Locked || event is Held || event is LockFailed,
        Claiming::HandingOff(_) => event is Acknowledged || event is Unanswered,
        Claiming::Finished => false,
    }
}

/// Whether a course of events is a whole claim from a stage on: each answers the
/// open question, and the last one ends the claim.
pub open spec fn claim_course(state: Claiming, events: Seq<ClaimEvent>) -> bool
    decreases events.len(),
{
    if events.len() == 0 {
        state is Finished
    } else {
        &&& answers(state, events[0])
        &&& claim_course(claim_stage(state, events[0]), events.skip(1))
    }
}

/// What a course of events comes to in the end.
pub open spec fn claim_outcome(
    lock: Seq<char>,
    activate: Seq<char>,
    state: Claiming,
    events: Seq<ClaimEvent>,
) -> Verdict
    decreases events.len(),
{
    if events.len() == 0 {
        Verdict::Wait
    } else if events.len() == 1 {
        claim_verdict(lock, activate, state, events[0])
    } else {
        claim_outcome(lock, activate, claim_stage(state, events[0]), events.skip(1))
    }
}

/// How a whole claim ends, over every course of events. One that takes the lock owns
/// the slot, at the first attempt or the second; one that is acknowledged leaves; one
/// whose lock cannot be tried fails with the reason; and one that finds the lock held
/// and meets silence twice fails, naming both files. There is no other end, and no
/// claim takes more than two attempts.
pub proof fn every_claim_ends_as_it_should(
    lock: Seq<char>,
    activate: Seq<char>,
    events: Seq<ClaimEvent>,
)
    requires
        claim_course(Claiming::Locking(ATTEMPTS), events),
    ensures
        1 <= events.len() <= 4,
        match events.last() {
            ClaimEvent::Locked => claim_outcome(
                lock,
                activate,
                Claiming::Locking(ATTEMPTS),
                events,
            ) == Verdict::Own,
            ClaimEvent::Acknowledged => claim_outcome(
                lock,
                activate,
                Claiming::Locking(ATTEMPTS),
                events,
            ) == Verdict::Leave,
            ClaimEvent::LockFailed(err) => claim_outcome(
                lock,
                activate,
                Claiming::Locking(ATTEMPTS),
                events,
            ) == Verdict::Fail(err@),
            ClaimEvent::Unanswered => {
                &&& events.len() == 4
                &&& events[0] is Held && events[1] is Unanswered && events[2] is Held
                &&& claim_outcome(lock, activate, Claiming::Locking(ATTEMPTS), events)
                    == Verdict::Fail(unanswered(lock, activate))
            },
            ClaimEvent::Held => false,
        },
{
    reveal_with_fuel(claim_course, 6);
    reveal_with_fuel(claim_outcome, 6);
    let two = events.skip(1);
    let three = two.skip(1);
    let four = three.skip(1);
    assert(events.len() > 1 ==> two[0] == events[1]);
    assert(events.len() > 2 ==> three[0] == events[2]);
    assert(events.len() > 3 ==> four[0] == events[3]);
}

/// What each answer leads to. The lock that is taken makes this process the owner, and
/// nothing else does; a lock that is held is followed by a handoff, and nothing else is; an
/// acknowledged handoff ends the claim, and one that nobody took leads to another attempt
/// exactly where one is left.
pub proof fn answers_decide_the_claim(
    lock: &str,
    activate: &str,
    state: Claiming,
    event: ClaimEvent,
    step: (Claiming, ClaimAction),
)
    requires
        call_ensures(claim, (lock, activate, state, event), step),
    ensures
        step.1 is Own <==> state is Locking && event is Locked,
        step.1 is HandOff <==> state is Locking && event is Held,
        step.1 is Leave <==> state is HandingOff && event is Acknowledged,
        step.1 is TryLock <==> event is Unanswered && (state matches Claiming::HandingOff(left)
            && left > 1),
        step.1 is Own || step.1 is Leave || step.1 is Fail ==> step.0 is Finished,
        step.1 is Wait ==> step.0 == state,
        state matches Claiming::Locking(left) ==> (event is Held ==> step.0
            == Claiming::HandingOff(left)),
        state matches Claiming::HandingOff(left) ==> (event is Unanswered && left > 1 ==> step.0
            == Claiming::Locking((left - 1) as u8)),
        event matches ClaimEvent::LockFailed(err) ==> (state is Locking ==> (
        step.1 matches ClaimAction::Fail(reason) && reason@ == err@)),
        state matches Claiming::HandingOff(left) ==> (event is Unanswered && left <= 1 ==> (
        step.1 matches ClaimAction::Fail(reason) && reason@ == "another shell holds "@ + lock@
            + " and did not answer on "@ + activate@)),
{
    if step.1 is Fail {
        assert(step.1@ is Fail);
    }
}

/// A claim begins by trying the lock, with two attempts.
pub proof fn a_claim_begins_with_the_lock(step: (Claiming, ClaimAction))
    requires
        call_ensures(begin_claim, (), step),
    ensures
        step.0 == Claiming::Locking(2),
        step.1 is TryLock,
{
}

/// A line asks to show the window exactly where it is the word `show`, white space around
/// it set aside; so does the line that is sent.
pub proof fn only_show_shows_the_window(line: &str, sent: String, yes: bool)
    requires
        call_ensures(is_show_request, (line,), yes),
        call_ensures(show_request_line, (), sent),
    ensures
        yes <==> text::trimmed(line@) == seq!['s', 'h', 'o', 'w'],
        sent@ == seq!['s', 'h', 'o', 'w', '\n'],
        line@ == sent@ ==> yes,
{
    reveal_strlit("show");
    assert("show"@ =~= seq!['s', 'h', 'o', 'w']);
    assert(sent@ =~= seq!['s', 'h', 'o', 'w', '\n']);
    lines_are_understood();
}

/// A reply counts as an acknowledgement exactly where it is the word `ok`, white space
/// around it set aside; any other is reported as it came.
pub proof fn only_ok_acknowledges(line: &str, sent: String, reply: Result<(), String>)
    requires
        call_ensures(read_reply, (line,), reply),
        call_ensures(show_ack_line, (), sent),
    ensures
        reply is Ok <==> text::trimmed(line@) == seq!['o', 'k'],
        reply matches Err(reason) ==> reason@ == "unexpected activation reply: "@ + text::trimmed(
            line@,
        ),
        sent@ == seq!['o', 'k', '\n'],
        line@ == sent@ ==> reply is Ok,
{
    reveal_strlit("ok");
    assert("ok"@ =~= seq!['o', 'k']);
    assert(sent@ =~= seq!['o', 'k', '\n']);
    lines_are_understood();
}

} // verus!
