//! The first seconds of a run, in which a failure is reported.

use vstd::prelude::*;
use vstd::utf8::*;
use crate::build_watch::{NO_EXIT_CODE, POLL_MILLIS};
use crate::encoding::{lossy_text, text_from_utf8_lossy};

verus! {

/// For how long a run is watched.
pub const WATCH_MILLIS: u128 = 2000;

/// A run that failed soon after its start, with what it wrote.
#[derive(Debug)]
pub struct QuickRunFailure {
    pub exit_code: i32,
    pub output: String,
}

/// The report of a run that failed, given the bytes that it wrote. They are shown as text, as they are
/// where they are UTF-8.
pub fn quick_run_failure(exit_code: i32, written: &[u8]) -> (failure: QuickRunFailure)
    ensures
        failure.exit_code == exit_code,
        failure.output@ == lossy_text(written@),
        valid_utf8(written@) ==> failure.output@ == decode_utf8(written@),
{
    QuickRunFailure { exit_code, output: text_from_utf8_lossy(written) }
}

/// What is seen of the run task.
#[derive(Debug, Clone, Copy, PartialEq, Eq, Structural)]
pub enum RunPoll {
    /// It has exited. There is no code where something else than an exit ended it.
    Exited { success: bool, code: Option<i32> },
    /// It runs, this long after its start.
    Running { elapsed_millis: u128 },
}

/// What to do next about the run task.
#[derive(Debug, Clone, Copy, PartialEq, Eq, Structural)]
pub enum RunAction {
    /// Wait for so long, then look again.
    Wait { millis: u64 },
    /// Nothing is left to do.
    Leave,
    /// It failed with this code: read what it wrote and report it.
    Report { exit_code: i32 },
}

/// The exit code, or the one that stands for an exit without a code.
pub open spec fn code_or_none(code: Option<i32>) -> i32 {
    match code {
        Some(code) => code,
        None => NO_EXIT_CODE,
    }
}

/// The exit code, or the one that stands for an exit without a code.
pub fn exit_code(code: Option<i32>) -> (shown: i32)
    ensures
        shown == code_or_none(code),
{
    match code {
        Some(code) => code,
        None => NO_EXIT_CODE,
    }
}

/// What a poll leads to.
pub open spec fn action_on(poll: RunPoll) -> RunAction {
    match poll {
        RunPoll::Exited { success, code } => if success {
            RunAction::Leave
        } else {
            RunAction::Report { exit_code: code_or_none(code) }
        },
        RunPoll::Running { elapsed_millis } => if elapsed_millis >= WATCH_MILLIS {
            RunAction::Leave
        } else {
            RunAction::Wait { millis: POLL_MILLIS }
        },
    }
}

/// Decides what to do about a poll of the run task.
pub fn watch_run(poll: RunPoll) -> (action: RunAction)
    ensures
        action == action_on(poll),
{
    match poll {
        RunPoll::Exited { success, code } => {
            if success {
                RunAction::Leave
            } else {
                RunAction::Report { exit_code: exit_code(code) }
            }
        },
        RunPoll::Running { elapsed_millis } => {
            if elapsed_millis >= WATCH_MILLIS {
                RunAction::Leave
            } else {
                RunAction::Wait { millis: POLL_MILLIS }
            }
        },
    }
}

/// What the watch comes to: the first action other than to wait, where there is one.
pub open spec fn watch_end(polls: Seq<RunPoll>) -> Option<RunAction>
    decreases polls.len(),
{
    if polls.len() == 0 {
        None
    } else if action_on(polls[0]) is Wait {
        watch_end(polls.drop_first())
    } else {
        Some(action_on(polls[0]))
    }
}

/// A poll that finds the task running within the time for which it is watched.
pub open spec fn still_running(poll: RunPoll) -> bool {
    poll matches RunPoll::Running { elapsed_millis } && elapsed_millis < WATCH_MILLIS
}

/// At poll `at` the task is seen to have failed with this exit code; every poll before found it
/// running within the time for which it is watched.
pub open spec fn fails_early(polls: Seq<RunPoll>, at: int, exit_code: i32) -> bool {
    &&& 0 <= at < polls.len()
    &&& polls[at] matches RunPoll::Exited { success: false, code } && code_or_none(code)
        == exit_code
    &&& forall|i: int| 0 <= i < at ==> still_running(#[trigger] polls[i])
}

/// A failure is reported, with its exit code, exactly where the task is seen to have exited without
/// success before it has been seen to outlast the time for which it is watched.
pub proof fn report_iff_early_failure(polls: Seq<RunPoll>, exit_code: i32)
    ensures
        watch_end(polls) == Some(RunAction::Report { exit_code }) <==> exists|at: int|
            fails_early(polls, at, exit_code),
    decreases polls.len(),
{
    if polls.len() > 0 {
        let rest = polls.drop_first();
        if action_on(polls[0]) is Wait {
            report_iff_early_failure(rest, exit_code);
            if exists|at: int| fails_early(rest, at, exit_code) {
                let at = choose|at: int| fails_early(rest, at, exit_code);
                assert(rest[at] == polls[at + 1]);
                assert forall|i: int| 0 <= i < at + 1 implies still_running(
                    #[trigger] polls[i],
                ) by {
                    if i > 0 {
                        assert(rest[i - 1] == polls[i]);
                    }
                }
                assert(fails_early(polls, at + 1, exit_code));
            }
            if exists|at: int| fails_early(polls, at, exit_code) {
                let at = choose|at: int| fails_early(polls, at, exit_code);
                assert(at > 0);
                assert(rest[at - 1] == polls[at]);
                assert forall|i: int| 0 <= i < at - 1 implies still_running(
                    #[trigger] rest[i],
                ) by {
                    assert(rest[i] == polls[i + 1]);
                }
                assert(fails_early(rest, at - 1, exit_code));
            }
        } else {
            if watch_end(polls) == Some(RunAction::Report { exit_code }) {
                assert(fails_early(polls, 0, exit_code));
            }
            if exists|at: int| fails_early(polls, at, exit_code) {
                let at = choose|at: int| fails_early(polls, at, exit_code);
                assert(at == 0 || still_running(polls[0]));
            }
        }
    }
}

/// A poll that finds the task running at the end of the time for which it is watched, or exited with
/// success.
pub open spec fn goes_well(poll: RunPoll) -> bool {
    match poll {
        RunPoll::Exited { success, .. } => success,
        RunPoll::Running { elapsed_millis } => elapsed_millis >= WATCH_MILLIS,
    }
}

/// Once the task has been found to go well, nothing is left to do, whatever becomes of it later.
pub proof fn good_run_is_left_alone(polls: Seq<RunPoll>, good: RunPoll, later: Seq<RunPoll>)
    requires
        forall|i: int| 0 <= i < polls.len() ==> still_running(#[trigger] polls[i]),
        goes_well(good),
    ensures
        watch_end(polls.push(good) + later) == Some(RunAction::Leave),
    decreases polls.len(),
{
    let all = polls.push(good) + later;
    if polls.len() > 0 {
        assert(all[0] == polls[0]);
        assert(all.drop_first() =~= polls.drop_first().push(good) + later);
        good_run_is_left_alone(polls.drop_first(), good, later);
    }
}

/// As long as the run task runs and two seconds are not over, it is looked at again after a pause of 50
/// milliseconds, and nothing is reported.
pub proof fn running_task_is_watched_on(polls: Seq<RunPoll>)
    requires
        forall|i: int|
            0 <= i < polls.len() ==> (#[trigger] polls[i] matches RunPoll::Running { elapsed_millis }
                && elapsed_millis < 2000),
    ensures
        watch_end(polls) is None,
        forall|i: int|
            0 <= i < polls.len() ==> action_on(#[trigger] polls[i]) == (RunAction::Wait {
                millis: 50,
            }),
    decreases polls.len(),
{
    if polls.len() > 0 {
        assert(polls[0] matches RunPoll::Running { elapsed_millis } && elapsed_millis < 2000);
        let rest = polls.drop_first();
        assert forall|i: int| 0 <= i < rest.len() implies (#[trigger] rest[i] matches RunPoll::Running {
            elapsed_millis,
        } && elapsed_millis < 2000) by {
            assert(rest[i] == polls[i + 1]);
        }
        running_task_is_watched_on(rest);
    }
}

/// The first thing that says how the run task stands decides, whatever is seen later: an exit without
/// success is reported with its code, or with -1 where it has none; an exit with success and a task
/// that runs after two seconds are left alone.
pub proof fn first_stand_decides(quiet: Seq<RunPoll>, stand: RunPoll, later: Seq<RunPoll>)
    requires
        forall|i: int|
            0 <= i < quiet.len() ==> (#[trigger] quiet[i] matches RunPoll::Running { elapsed_millis }
                && elapsed_millis < 2000),
    ensures
        stand matches RunPoll::Exited { success: false, code: Some(code) } ==> watch_end(
            quiet.push(stand) + later,
        ) == Some(RunAction::Report { exit_code: code }),
        stand matches RunPoll::Exited { success: false, code: None } ==> watch_end(
            quiet.push(stand) + later,
        ) == Some(RunAction::Report { exit_code: -1i32 }),
        stand matches RunPoll::Exited { success: true, code } ==> watch_end(
            quiet.push(stand) + later,
        ) == Some(RunAction::Leave),
        stand matches RunPoll::Running { elapsed_millis } ==> (elapsed_millis >= 2000 ==> watch_end(
            quiet.push(stand) + later,
        ) == Some(RunAction::Leave)),
    decreases quiet.len(),
{
    let all = quiet.push(stand) + later;
    if quiet.len() > 0 {
        assert(quiet[0] matches RunPoll::Running { elapsed_millis } && elapsed_millis < 2000);
        assert(all[0] == quiet[0]);
        let rest = quiet.drop_first();
        assert forall|i: int| 0 <= i < rest.len() implies (#[trigger] rest[i] matches RunPoll::Running {
            elapsed_millis,
        } && elapsed_millis < 2000) by {
            assert(rest[i] == quiet[i + 1]);
        }
        first_stand_decides(rest, stand, later);
        assert(all.drop_first() =~= rest.push(stand) + later);
    } else {
        assert(all[0] == stand);
    }
}

/// A code that is shown is the exit code itself, and -1 stands for none.
pub proof fn shown_code_is_exit_code(code: i32)
    ensures
        code_or_none(Some(code)) == code,
        code_or_none(None) == -1,
{
}

} // verus!
