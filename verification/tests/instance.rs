//! Launches of a shell race for a slot: a lock that one of them holds, and a
//! listener that the holder may or may not have.

use dsh_shell::instance::{
    begin_claim, claim, is_show_request, read_reply, show_ack_line, show_request_line, ClaimAction,
    ClaimEvent, Claiming,
};

#[derive(Default)]
struct Slot {
    held: bool,
    listening: bool,
    shown: u32,
    /// The holder goes away before it answers.
    holder_dies: bool,
}

#[derive(Debug, PartialEq)]
enum Outcome {
    Owned,
    HandedOff,
    Failed(String),
}

fn launch(slot: &mut Slot) -> Outcome {
    let (mut state, mut action) = begin_claim();
    for _ in 0..10 {
        let event = match action {
            ClaimAction::TryLock => {
                if slot.held {
                    ClaimEvent::Held
                } else {
                    slot.held = true;
                    ClaimEvent::Locked
                }
            }
            ClaimAction::HandOff => {
                if slot.holder_dies {
                    slot.held = false;
                    ClaimEvent::Unanswered
                } else if slot.listening && is_show_request(&show_request_line()) {
                    slot.shown += 1;
                    assert_eq!(read_reply(&show_ack_line()), Ok(()));
                    ClaimEvent::Acknowledged
                } else {
                    ClaimEvent::Unanswered
                }
            }
            ClaimAction::Own => {
                slot.listening = true;
                return Outcome::Owned;
            }
            ClaimAction::Leave => return Outcome::HandedOff,
            ClaimAction::Fail(reason) => return Outcome::Failed(reason),
            ClaimAction::Wait => panic!("a claim that is not over must ask for something"),
        };
        (state, action) = claim("/l", "/a", state, event);
    }
    panic!("a claim must come to an end, and stands at {state:?}");
}

#[test]
fn the_first_claim_owns_the_slot() {
    assert_eq!(launch(&mut Slot::default()), Outcome::Owned);
}

#[test]
fn a_second_claim_hands_off_and_activates_the_first() {
    let mut slot = Slot::default();
    assert_eq!(launch(&mut slot), Outcome::Owned);
    assert_eq!(
        launch(&mut slot),
        Outcome::HandedOff,
        "a second launch must hand off, not start a second shell"
    );
    // The handoff is only useful if it actually reaches the running shell, which is
    // what would raise the window.
    assert_eq!(slot.shown, 1, "the running shell must be told to show its window");
}

#[test]
fn a_handoff_with_no_listener_reports_a_failure() {
    // The lock is held without ever listening, which is the window between locking
    // and listening during a real startup.
    let mut slot = Slot { held: true, ..Slot::default() };
    assert_eq!(
        launch(&mut slot),
        Outcome::Failed("another shell holds /l and did not answer on /a".into())
    );
}

#[test]
fn a_claim_recovers_when_the_holder_died_mid_handoff() {
    let mut slot = Slot { held: true, holder_dies: true, ..Slot::default() };
    assert_eq!(
        launch(&mut slot),
        Outcome::Owned,
        "a launch must not be stranded by a socket file its owner left behind"
    );
}

#[test]
fn a_lock_that_cannot_be_tried_is_a_failure() {
    let (state, _) = begin_claim();
    assert_eq!(
        claim("/l", "/a", state, ClaimEvent::LockFailed("read-only".into())),
        (Claiming::Finished, ClaimAction::Fail("read-only".into()))
    );
    assert_eq!(
        claim("/l", "/a", Claiming::Finished, ClaimEvent::Locked),
        (Claiming::Finished, ClaimAction::Wait)
    );
}

#[test]
fn the_handshake_is_two_lines() {
    assert_eq!(show_request_line(), "show\n");
    assert_eq!(show_ack_line(), "ok\n");
    assert!(is_show_request("show\n") && is_show_request(" show \r\n"));
    assert!(!is_show_request("ok\n") && !is_show_request(""));
    assert_eq!(read_reply("ok\n"), Ok(()));
    assert_eq!(read_reply("nope\n"), Err("unexpected activation reply: nope".into()));
}
