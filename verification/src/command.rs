//! Running a program to its end, within a time limit.
//!
//! While the program is polled its output has to be drained all along: a child
//! blocks on a write once the pipe buffer is full, and would never exit.

use crate::text;
use vstd::prelude::*;

verus! {

/// What a poll of a running program found.
#[derive(Debug, PartialEq, Eq)]
pub enum Poll {
    /// The program has exited.
    Exited,
    /// The program still runs.
    Running {
        /// Whether its time is up.
        overdue: bool,
    },
    /// The program could not be waited for.
    Lost(String),
}

/// What to do after a poll.
#[derive(Debug, PartialEq, Eq)]
pub enum PollAction {
    /// Collect the output.
    Collect,
    /// Stop the program, wait for it, and collect the output.
    StopAndCollect,
    /// Stop the program and give up.
    StopAndFail(String),
    /// Poll again after a pause of so many milliseconds.
    PollAgain(u64),
}

/// The pause between two polls, in milliseconds.
pub const POLL_PAUSE: u64 = 25;

/// Decide what to do after a poll of `program`.
pub fn after_poll(program: &str, poll: Poll) -> (action: PollAction)
    ensures
        match poll {
            Poll::Exited => action == PollAction::Collect,
            Poll::Running { overdue: true } => action == PollAction::StopAndCollect,
            Poll::Running { overdue: false } => action == PollAction::PollAgain(POLL_PAUSE),
            Poll::Lost(err) => action matches PollAction::StopAndFail(reason) && reason@
                == "waiting for "@ + program@ + ": "@ + err@,
        },
{
    match poll {
        Poll::Exited => PollAction::Collect,
        Poll::Running { overdue } => if overdue {
            PollAction::StopAndCollect
        } else {
            PollAction::PollAgain(POLL_PAUSE)
        },
        Poll::Lost(err) => {
            let s = text::plus(text::own("waiting for "), program);
            PollAction::StopAndFail(text::plus(text::plus(s, ": "), err.as_str()))
        },
    }
}

/// How a program exited.
#[derive(Debug, Clone, Copy, PartialEq, Eq)]
pub struct Exit {
    pub success: bool,
    /// Its exit code; none where a signal ended it.
    pub code: Option<i32>,
}

/// The last line of `s` that is not blank, without the white space around it;
/// nothing where every line is blank.
pub open spec fn last_words(lines: Seq<Seq<char>>) -> Seq<char>
    decreases lines.len(),
{
    if lines.len() == 0 {
        Seq::<char>::empty()
    } else if text::trimmed(lines.last()).len() > 0 {
        text::trimmed(lines.last())
    } else {
        last_words(lines.drop_last())
    }
}

fn last_nonblank(s: &str) -> (line: String)
    ensures
        line@ == last_words(text::split_on(s@, '\n')),
{
    let lines = text::split(s, '\n');
    let ghost model = text::views(lines@);
    let mut i: usize = lines.len();
    assert(model.take(i as int) == model);
    while i > 0
        invariant
            i <= lines@.len(),
            model == text::views(lines@),
            model == text::split_on(s@, '\n'),
            last_words(model) == last_words(model.take(i as int)),
        decreases i,
    {
        let line = text::trim(lines[i - 1].as_str());
        assert(model.take(i as int).last() == lines@[i - 1]@);
        if !line.as_str().is_empty() {
            return line;
        }
        assert(model.take(i as int).drop_last() == model.take(i - 1));
        i -= 1;
    }
    String::new()
}

/// A number with its sign, in decimal.
pub open spec fn signed_digits(n: int) -> Seq<char> {
    if n < 0 {
        "-"@ + text::decimal_digits((-n) as nat)
    } else {
        text::decimal_digits(n as nat)
    }
}

fn signed(n: i32) -> (s: String)
    ensures
        s@ == signed_digits(n as int),
{
    let wide: i64 = n as i64;
    if wide < 0 {
        text::plus(text::own("-"), text::decimal((-wide) as u64).as_str())
    } else {
        text::decimal(wide as u64)
    }
}

/// The exit code that is shown for a program.
pub open spec fn shown_code(exit: Exit) -> int {
    match exit.code {
        Some(code) => code as int,
        None => -1,
    }
}

/// What a program that came to its end leaves: its trimmed output, or why it
/// failed.
///
/// `out` and `err` are what it wrote, or nothing where the reader of its output
/// failed; `exit` is nothing where no exit status could be had.
pub fn finish(
    program: &str,
    output: Option<(Vec<u8>, Vec<u8>)>,
    exit: Option<Exit>,
    timed_out: bool,
) -> (result: Result<String, String>)
    ensures
        match (output, exit) {
            (None, _) => result matches Err(reason) && reason@ == "the output reader for "@
                + program@ + " panicked"@,
            (Some(_), None) => result matches Err(reason) && reason@ == program@
                + " did not report an exit status"@,
            (Some((out, err)), Some(exit)) => if timed_out {
                result matches Err(reason) && reason@ == program@ + " timed out"@
            } else if !exit.success {
                result matches Err(reason) && reason@ == program@ + " exited "@ + signed_digits(
                    shown_code(exit),
                ) + ": "@ + last_words(text::split_on(text::lossy_text(err@), '\n'))
            } else {
                result matches Ok(shown) && shown@ == text::trimmed(text::lossy_text(out@))
            },
        },
{
    match output {
        None => {
            let s = text::plus(text::own("the output reader for "), program);
            Err(text::plus(s, " panicked"))
        },
        Some((out, err)) => match exit {
            None => Err(text::plus(text::own(program), " did not report an exit status")),
            Some(exit) => {
                if timed_out {
                    return Err(text::plus(text::own(program), " timed out"));
                }
                if !exit.success {
                    let complaint = text::from_utf8_lossy(&err);
                    let detail = last_nonblank(complaint.as_str());
                    let code: i32 = match exit.code {
                        Some(code) => code,
                        None => -1,
                    };
                    let s = text::plus(text::own(program), " exited ");
                    let s = text::plus(s, signed(code).as_str());
                    let s = text::plus(s, ": ");
                    return Err(text::plus(s, detail.as_str()));
                }
                let shown = text::from_utf8_lossy(&out);
                Ok(text::trim(shown.as_str()))
            },
        },
    }
}

/// Why a program could not be started at all.
pub fn not_started(program: &str, err: &str) -> (reason: String)
    ensures
        reason@ == "could not run "@ + program@ + ": "@ + err@,
{
    let s = text::plus(text::own("could not run "), program);
    text::plus(text::plus(s, ": "), err)
}

// --------------------------------------------------------------------- laws

/// What a poll leads to: a program that has exited is collected, one whose time is up is
/// stopped first, one that still runs is polled again after the pause, and one that is lost
/// fails with the reason.
pub proof fn polls_decide(program: &str, poll: Poll, action: PollAction)
    requires
        call_ensures(after_poll, (program, poll), action),
    ensures
        action is Collect <==> poll is Exited,
        action is StopAndCollect <==> (poll matches Poll::Running { overdue } && overdue),
        action is PollAgain <==> (poll matches Poll::Running { overdue } && !overdue),
        action is StopAndFail <==> poll is Lost,
        action matches PollAction::PollAgain(pause) ==> pause == 25,
        poll matches Poll::Lost(err) ==> (action matches PollAction::StopAndFail(reason) && reason@
            == "waiting for "@ + program@ + ": "@ + err@),
{
}

/// A program's run is a success exactly where its output was read, it exited, its time was
/// not up, and it exited well; what it leaves is then its output without the white space
/// around it, and what it wrote as an error does not matter.
pub proof fn only_a_clean_exit_succeeds(
    program: &str,
    output: Option<(Vec<u8>, Vec<u8>)>,
    exit: Option<Exit>,
    timed_out: bool,
    result: Result<String, String>,
)
    requires
        call_ensures(finish, (program, output, exit, timed_out), result),
    ensures
        result is Ok <==> output is Some && !timed_out && (exit matches Some(e) && e.success),
        result matches Ok(shown) ==> (output matches Some((out, _)) && shown@ == text::trimmed(
            text::lossy_text(out@),
        )),
        output is None ==> (result matches Err(reason) && reason@ == "the output reader for "@
            + program@ + " panicked"@),
        output is Some && exit is None ==> (result matches Err(reason) && reason@ == program@
            + " did not report an exit status"@),
        output is Some && exit is Some && timed_out ==> (result matches Err(reason) && reason@
            == program@ + " timed out"@),
{
}

/// Why a program that ended badly failed: its name, its exit code, minus one where a signal
/// ended it, and the last line it wrote as an error that is not blank.
pub proof fn bad_exits_show_code_and_last_words(
    program: &str,
    out: Vec<u8>,
    err: Vec<u8>,
    exit: Exit,
    result: Result<String, String>,
)
    requires
        call_ensures(finish, (program, Some((out, err)), Some(exit), false), result),
        !exit.success,
    ensures
        result matches Err(reason) && {
            let code = match exit.code {
                Some(code) => code as int,
                None => -1,
            };
            let digits = if code < 0 {
                seq!['-'] + text::decimal_digits((0 - code) as nat)
            } else {
                text::decimal_digits(code as nat)
            };
            reason@ == program@ + " exited "@ + digits + ": "@ + last_words(
                text::split_on(text::lossy_text(err@), '\n'),
            )
        },
{
    reveal_strlit("-");
    assert("-"@ =~= seq!['-']);
}

/// The last words are those of the last line that is not blank, without the white space
/// around it; there are none exactly where every line is blank.
pub proof fn last_words_are_of_the_last_filled_line(lines: Seq<Seq<char>>, i: int)
    ensures
        0 <= i < lines.len() && text::trimmed(lines[i]).len() > 0 && (forall|k: int|
            i < k < lines.len() ==> text::trimmed(#[trigger] lines[k]).len() == 0) ==> last_words(
            lines,
        ) == text::trimmed(lines[i]),
        (forall|k: int| 0 <= k < lines.len() ==> text::trimmed(#[trigger] lines[k]).len() == 0)
            <==> last_words(lines).len() == 0,
    decreases lines.len(),
{
    if lines.len() > 0 {
        let front = lines.drop_last();
        last_words_are_of_the_last_filled_line(front, i);
        assert(lines.last() == lines[lines.len() - 1]);
        if text::trimmed(lines.last()).len() == 0 {
            assert forall|k: int| 0 <= k < front.len() implies front[k] == lines[k] by {}
            if forall|k: int| 0 <= k < front.len() ==> text::trimmed(#[trigger] front[k]).len()
                == 0 {
                assert forall|k: int| 0 <= k < lines.len() implies text::trimmed(
                    #[trigger] lines[k],
                ).len() == 0 by {
                    if k < front.len() {
                        assert(text::trimmed(front[k]).len() == 0);
                    }
                }
            }
            if forall|k: int| 0 <= k < lines.len() ==> text::trimmed(#[trigger] lines[k]).len()
                == 0 {
                assert forall|k: int| 0 <= k < front.len() implies text::trimmed(
                    #[trigger] front[k],
                ).len() == 0 by {
                    assert(text::trimmed(lines[k]).len() == 0);
                }
            }
            if 0 <= i < front.len() && (forall|k: int|
                i < k < lines.len() ==> text::trimmed(#[trigger] lines[k]).len() == 0) {
                assert forall|k: int| i < k < front.len() implies text::trimmed(
                    #[trigger] front[k],
                ).len() == 0 by {
                    assert(text::trimmed(lines[k]).len() == 0);
                }
            }
        }
    }
}

/// Why a program could not be started at all names the program and what went wrong.
pub proof fn a_program_that_cannot_start_is_named(program: &str, err: &str, reason: String)
    requires
        call_ensures(not_started, (program, err), reason),
    ensures
        reason@ == "could not run "@ + program@ + ": "@ + err@,
{
}

} // verus!
