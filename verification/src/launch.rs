//! The course of a launch: discover the tasks, build, run, report.

use vstd::prelude::*;
use crate::build_watch::BuildOutcome;
use crate::error::LaunchError;
use crate::resolve::ProjectTasks;
use crate::run_watch::QuickRunFailure;

verus! {

/// How far a launch has come, and thereby what is to be done next.
#[derive(Debug)]
pub enum Stage {
    /// The tasks of the project are to be discovered.
    Resolving,
    /// The build task is to be run.
    Building { tasks: ProjectTasks },
    /// The run task is to be started.
    Running { run_task: String },
    /// A failure of the run task is to be shown.
    ShowingFailure { failure: QuickRunFailure },
    /// Nothing is left to do.
    Finished { result: Result<(), LaunchError> },
}

/// What came of the thing that was to be done.
#[derive(Debug)]
pub enum LaunchEvent {
    TasksResolved(Result<ProjectTasks, LaunchError>),
    BuildFinished(BuildOutcome),
    /// The run task was started. With a failure, it failed soon after.
    RunStarted(Option<QuickRunFailure>),
    FailureShown,
}

/// The stage that follows. An event that does not belong to the stage changes nothing.
pub open spec fn next_stage(stage: Stage, event: LaunchEvent) -> Stage {
    match (stage, event) {
        (Stage::Resolving, LaunchEvent::TasksResolved(Ok(tasks))) => Stage::Building { tasks },
        (Stage::Resolving, LaunchEvent::TasksResolved(Err(error))) => Stage::Finished {
            result: Err(error),
        },
        (Stage::Building { tasks }, LaunchEvent::BuildFinished(outcome)) => match outcome {
            BuildOutcome::Succeeded => Stage::Running { run_task: tasks.run_task },
            BuildOutcome::Failed(exit_code) => Stage::Finished {
                result: Err(LaunchError::BuildTaskFailed { exit_code }),
            },
            BuildOutcome::Aborted => Stage::Finished { result: Err(LaunchError::BuildCancelled) },
        },
        (Stage::Running { .. }, LaunchEvent::RunStarted(None)) => Stage::Finished {
            result: Ok(()),
        },
        (Stage::Running { .. }, LaunchEvent::RunStarted(Some(failure))) => Stage::ShowingFailure {
            failure,
        },
        (Stage::ShowingFailure { failure }, LaunchEvent::FailureShown) => Stage::Finished {
            result: Err(LaunchError::RunTaskFailed { exit_code: failure.exit_code }),
        },
        (stage, _) => stage,
    }
}

/// Takes a launch on to the stage that follows.
pub fn advance(stage: Stage, event: LaunchEvent) -> (next: Stage)
    ensures
        next == next_stage(stage, event),
{
    match (stage, event) {
        (Stage::Resolving, LaunchEvent::TasksResolved(Ok(tasks))) => Stage::Building { tasks },
        (Stage::Resolving, LaunchEvent::TasksResolved(Err(error))) => Stage::Finished {
            result: Err(error),
        },
        (Stage::Building { tasks }, LaunchEvent::BuildFinished(outcome)) => match outcome {
            BuildOutcome::Succeeded => Stage::Running { run_task: tasks.run_task },
            BuildOutcome::Failed(exit_code) => Stage::Finished {
                result: Err(LaunchError::BuildTaskFailed { exit_code }),
            },
            BuildOutcome::Aborted => Stage::Finished { result: Err(LaunchError::BuildCancelled) },
        },
        (Stage::Running { .. }, LaunchEvent::RunStarted(None)) => Stage::Finished {
            result: Ok(()),
        },
        (Stage::Running { .. }, LaunchEvent::RunStarted(Some(failure))) => Stage::ShowingFailure {
            failure,
        },
        (Stage::ShowingFailure { failure }, LaunchEvent::FailureShown) => Stage::Finished {
            result: Err(LaunchError::RunTaskFailed { exit_code: failure.exit_code }),
        },
        (stage, _) => stage,
    }
}

/// The stage that a launch has come to after these events.
pub open spec fn stage_after(events: Seq<LaunchEvent>) -> Stage
    decreases events.len(),
{
    if events.len() == 0 {
        Stage::Resolving
    } else {
        next_stage(stage_after(events.drop_last()), events.last())
    }
}

/// The stage that these events lead to from the given one.
pub open spec fn stage_from(stage: Stage, later: Seq<LaunchEvent>) -> Stage
    decreases later.len(),
{
    if later.len() == 0 {
        stage
    } else {
        next_stage(stage_from(stage, later.drop_last()), later.last())
    }
}

proof fn lemma_stage_split(first: Seq<LaunchEvent>, later: Seq<LaunchEvent>)
    ensures
        stage_after(first + later) == stage_from(stage_after(first), later),
    decreases later.len(),
{
    if later.len() == 0 {
        assert(first + later =~= first);
    } else {
        assert((first + later).drop_last() =~= first + later.drop_last());
        lemma_stage_split(first, later.drop_last());
    }
}

/// A launch that has finished stays as it is.
pub proof fn finished_stays(stage: Stage, later: Seq<LaunchEvent>)
    requires
        stage is Finished,
    ensures
        stage_from(stage, later) == stage,
    decreases later.len(),
{
    if later.len() > 0 {
        finished_stays(stage, later.drop_last());
    }
}

/// The run task of the project is started only after its tasks were resolved and then its build task
/// succeeded, and it is the run task that was resolved.
pub proof fn run_follows_successful_build(events: Seq<LaunchEvent>) -> (at: (int, int))
    requires
        stage_after(events) is Running,
    ensures
        0 <= at.0 < at.1 < events.len(),
        events[at.0] matches LaunchEvent::TasksResolved(Ok(tasks)) && stage_after(events)
            == (Stage::Running { run_task: tasks.run_task }),
        events[at.1] == LaunchEvent::BuildFinished(BuildOutcome::Succeeded),
    decreases events.len(),
{
    let earlier = events.drop_last();
    let last = events.len() - 1;
    if stage_after(earlier) is Running {
        let at = run_follows_successful_build(earlier);
        assert(earlier[at.0] == events[at.0] && earlier[at.1] == events[at.1]);
        at
    } else {
        let resolved = build_follows_resolution(earlier);
        assert(earlier[resolved] == events[resolved]);
        (resolved, last)
    }
}

/// The build task of the project is run only after its tasks were resolved, and it is the build task
/// that was resolved.
pub proof fn build_follows_resolution(events: Seq<LaunchEvent>) -> (at: int)
    requires
        stage_after(events) is Building,
    ensures
        0 <= at < events.len(),
        events[at] matches LaunchEvent::TasksResolved(Ok(tasks)) && stage_after(events)
            == (Stage::Building { tasks }),
    decreases events.len(),
{
    let earlier = events.drop_last();
    if stage_after(earlier) is Building {
        let at = build_follows_resolution(earlier);
        assert(earlier[at] == events[at]);
        at
    } else {
        events.len() - 1
    }
}

/// A build that succeeds is followed by the run task, and a run task that does not fail early ends the
/// launch with success.
pub proof fn successful_build_is_run(events: Seq<LaunchEvent>, tasks: ProjectTasks)
    requires
        stage_after(events) == (Stage::Building { tasks }),
    ensures
        ({
            let built = events.push(LaunchEvent::BuildFinished(BuildOutcome::Succeeded));
            &&& stage_after(built) == (Stage::Running { run_task: tasks.run_task })
            &&& stage_after(built.push(LaunchEvent::RunStarted(None))) == (Stage::Finished {
                result: Ok::<(), LaunchError>(()),
            })
        }),
{
    let built = events.push(LaunchEvent::BuildFinished(BuildOutcome::Succeeded));
    assert(built.drop_last() =~= events);
    assert(built.push(LaunchEvent::RunStarted(None)).drop_last() =~= built);
}

/// A build that does not succeed ends the launch, whatever happens later: the run task is never
/// started. The error tells a failure, with its exit code, from a build that was called off.
pub proof fn unsuccessful_build_ends_launch(
    events: Seq<LaunchEvent>,
    outcome: BuildOutcome,
    later: Seq<LaunchEvent>,
)
    requires
        stage_after(events) is Building,
        outcome != BuildOutcome::Succeeded,
    ensures
        stage_after(events.push(LaunchEvent::BuildFinished(outcome)) + later) == (Stage::Finished {
            result: Err(
                match outcome {
                    BuildOutcome::Failed(exit_code) => LaunchError::BuildTaskFailed { exit_code },
                    _ => LaunchError::BuildCancelled,
                },
            ),
        }),
{
    let first = events.push(LaunchEvent::BuildFinished(outcome));
    assert(first.drop_last() =~= events);
    lemma_stage_split(first, later);
    finished_stays(stage_after(first), later);
}

/// A launch ends with success only where the build task succeeded and the run task was then started
/// without an early failure.
pub proof fn success_means_built_and_running(events: Seq<LaunchEvent>) -> (at: (int, int))
    requires
        stage_after(events) == (Stage::Finished { result: Ok::<(), LaunchError>(()) }),
    ensures
        0 <= at.0 < at.1 < events.len(),
        events[at.0] == LaunchEvent::BuildFinished(BuildOutcome::Succeeded),
        events[at.1] == LaunchEvent::RunStarted(None),
    decreases events.len(),
{
    let earlier = events.drop_last();
    if stage_after(earlier) is Finished {
        let at = success_means_built_and_running(earlier);
        assert(earlier[at.0] == events[at.0] && earlier[at.1] == events[at.1]);
        at
    } else {
        assert(stage_after(earlier) is Running);
        let at = run_follows_successful_build(earlier);
        assert(earlier[at.1] == events[at.1]);
        (at.1, events.len() - 1)
    }
}

/// An early failure of the run task is shown, and the launch then ends with the error that has its
/// exit code.
pub proof fn run_failure_is_shown_first(events: Seq<LaunchEvent>, failure: QuickRunFailure)
    requires
        stage_after(events) is Running,
    ensures
        ({
            let failed = events.push(LaunchEvent::RunStarted(Some(failure)));
            &&& stage_after(failed) == (Stage::ShowingFailure { failure })
            &&& stage_after(failed.push(LaunchEvent::FailureShown)) == (Stage::Finished {
                result: Err::<(), LaunchError>(
                    LaunchError::RunTaskFailed { exit_code: failure.exit_code },
                ),
            })
        }),
{
    let failed = events.push(LaunchEvent::RunStarted(Some(failure)));
    assert(failed.drop_last() =~= events);
    assert(failed.push(LaunchEvent::FailureShown).drop_last() =~= failed);
}

/// Resolved tasks are built next: whichever they are, no launch ends in between.
pub proof fn resolved_tasks_are_built(events: Seq<LaunchEvent>, tasks: ProjectTasks)
    requires
        stage_after(events) is Resolving,
    ensures
        stage_after(events.push(LaunchEvent::TasksResolved(Ok(tasks)))) == (Stage::Building {
            tasks,
        }),
{
    assert(events.push(LaunchEvent::TasksResolved(Ok(tasks))).drop_last() =~= events);
}

/// Where the tasks cannot be resolved, the launch ends with the error that says why, and nothing is
/// built or run later.
pub proof fn unresolved_tasks_end_launch(
    events: Seq<LaunchEvent>,
    error: LaunchError,
    later: Seq<LaunchEvent>,
)
    requires
        stage_after(events) is Resolving,
    ensures
        stage_after(events.push(LaunchEvent::TasksResolved(Err(error))) + later)
            == (Stage::Finished { result: Err(error) }),
{
    let first = events.push(LaunchEvent::TasksResolved(Err(error)));
    assert(first.drop_last() =~= events);
    lemma_stage_split(first, later);
    finished_stays(stage_after(first), later);
}

/// A launch begins with the discovery of the tasks.
pub proof fn launch_begins_with_discovery()
    ensures
        stage_after(Seq::empty()) is Resolving,
{
}

/// An outcome that does not belong to what was to be done changes nothing: that is still to be done.
pub proof fn outcome_out_of_turn_changes_nothing(stage: Stage, event: LaunchEvent)
    ensures
        stage is Resolving && !(event is TasksResolved) ==> next_stage(stage, event) == stage,
        stage is Building && !(event is BuildFinished) ==> next_stage(stage, event) == stage,
        stage is Running && !(event is RunStarted) ==> next_stage(stage, event) == stage,
        stage is ShowingFailure && !(event is FailureShown) ==> next_stage(stage, event) == stage,
        stage is Finished ==> next_stage(stage, event) == stage,
{
}

/// The whole course of a launch, step by step: for all tasks and all outcomes, what follows each step is
/// what the outcome of that step calls for.
pub proof fn course_of_launch(
    tasks: ProjectTasks,
    exit_code: i32,
    failure: QuickRunFailure,
    run_task: String,
    error: LaunchError,
)
    ensures
        next_stage(Stage::Resolving, LaunchEvent::TasksResolved(Ok(tasks))) == (Stage::Building {
            tasks,
        }),
        next_stage(Stage::Resolving, LaunchEvent::TasksResolved(Err(error))) == (Stage::Finished {
            result: Err(error),
        }),
        next_stage(
            Stage::Building { tasks },
            LaunchEvent::BuildFinished(BuildOutcome::Succeeded),
        ) == (Stage::Running { run_task: tasks.run_task }),
        next_stage(
            Stage::Building { tasks },
            LaunchEvent::BuildFinished(BuildOutcome::Failed(exit_code)),
        ) == (Stage::Finished { result: Err(LaunchError::BuildTaskFailed { exit_code }) }),
        next_stage(Stage::Building { tasks }, LaunchEvent::BuildFinished(BuildOutcome::Aborted))
            == (Stage::Finished { result: Err(LaunchError::BuildCancelled) }),
        next_stage(Stage::Running { run_task }, LaunchEvent::RunStarted(None)) == (
        Stage::Finished { result: Ok(()) }),
        next_stage(Stage::Running { run_task }, LaunchEvent::RunStarted(Some(failure))) == (
        Stage::ShowingFailure { failure }),
        next_stage(Stage::ShowingFailure { failure }, LaunchEvent::FailureShown) == (
        Stage::Finished {
            result: Err(LaunchError::RunTaskFailed { exit_code: failure.exit_code }),
        }),
{
}

} // verus!
