use launch_director::build_watch::BuildOutcome;
use launch_director::command::{list_tasks_command, run_task_command};
use launch_director::error::{should_suppress_error_dialog, LaunchError};
use launch_director::launch::{advance, LaunchEvent, Stage};
use launch_director::project::{display_name, parse_project_dir, project_display_name};
use launch_director::reports::{run_failure_window_title, ErrorDialogApp, FailureWindowApp};
use launch_director::resolve::ProjectTasks;
use launch_director::run_watch::{
    exit_code, quick_run_failure, watch_run, QuickRunFailure, RunAction, RunPoll,
};

fn building() -> Stage {
    let tasks = ProjectTasks { build_task: "build".to_string(), run_task: "run".to_string() };
    advance(Stage::Resolving, LaunchEvent::TasksResolved(Ok(tasks)))
}

fn running() -> Stage {
    advance(building(), LaunchEvent::BuildFinished(BuildOutcome::Succeeded))
}

fn error_of(stage: Stage) -> LaunchError {
    match stage {
        Stage::Finished { result: Err(error) } => error,
        other => panic!("{other:?}"),
    }
}

#[test]
fn resolved_tasks_are_built_then_run() {
    assert!(matches!(building(), Stage::Building { tasks } if tasks.build_task == "build"));
    assert!(matches!(running(), Stage::Running { run_task } if run_task == "run"));
    let done = advance(running(), LaunchEvent::RunStarted(None));
    assert!(matches!(done, Stage::Finished { result: Ok(()) }));
}

#[test]
fn unresolved_tasks_end_the_launch() {
    let event = LaunchEvent::TasksResolved(Err(LaunchError::TaskListing {
        stderr: "x".to_string(),
    }));
    let error = error_of(advance(Stage::Resolving, event));
    assert_eq!(error.message(), "Failed to list mise tasks: x");
}

#[test]
fn failed_build_ends_the_launch_without_a_dialog() {
    let failed = advance(building(), LaunchEvent::BuildFinished(BuildOutcome::Failed(2)));
    let later = advance(failed, LaunchEvent::BuildFinished(BuildOutcome::Succeeded));
    let error = error_of(later);
    assert_eq!(error.message(), "Build task failed with exit code 2.");
    assert!(should_suppress_error_dialog(&error));
}

#[test]
fn cancelled_build_ends_the_launch() {
    let error =
        error_of(advance(building(), LaunchEvent::BuildFinished(BuildOutcome::Aborted)));
    assert_eq!(error.message(), "Build cancelled.");
    assert!(!should_suppress_error_dialog(&error));
}

#[test]
fn failed_run_is_shown_then_ends_the_launch() {
    let failure = QuickRunFailure { exit_code: 101, output: "boom".to_string() };
    let showing = advance(running(), LaunchEvent::RunStarted(Some(failure)));
    assert!(matches!(&showing, Stage::ShowingFailure { failure } if failure.output == "boom"));
    let error = error_of(advance(showing, LaunchEvent::FailureShown));
    assert_eq!(error.message(), "Run task exited with non-zero code 101 within 2 seconds.");
    assert!(!should_suppress_error_dialog(&error));
}

#[test]
fn events_out_of_turn_change_nothing() {
    let stage = advance(Stage::Resolving, LaunchEvent::BuildFinished(BuildOutcome::Succeeded));
    assert!(matches!(stage, Stage::Resolving));
    assert!(matches!(advance(building(), LaunchEvent::RunStarted(None)), Stage::Building { .. }));
    assert!(matches!(advance(running(), LaunchEvent::FailureShown), Stage::Running { .. }));
}

#[test]
fn run_that_fails_early_is_reported() {
    assert_eq!(
        watch_run(RunPoll::Exited { success: false, code: Some(3) }),
        RunAction::Report { exit_code: 3 }
    );
    assert_eq!(
        watch_run(RunPoll::Exited { success: false, code: None }),
        RunAction::Report { exit_code: -1 }
    );
}

#[test]
fn run_that_goes_well_is_left_alone() {
    assert_eq!(watch_run(RunPoll::Exited { success: true, code: Some(0) }), RunAction::Leave);
    assert_eq!(watch_run(RunPoll::Running { elapsed_millis: 2000 }), RunAction::Leave);
    assert_eq!(
        watch_run(RunPoll::Running { elapsed_millis: 1999 }),
        RunAction::Wait { millis: 50 }
    );
}

#[test]
fn exit_without_a_code() {
    assert_eq!(exit_code(Some(5)), 5);
    assert_eq!(exit_code(None), -1);
}

#[test]
fn commands_for_mise() {
    let list = list_tasks_command();
    assert_eq!(list.program, "mise");
    assert_eq!(list.args, ["tasks", "ls", "--local", "--json"]);
    let run = run_task_command("build");
    assert_eq!(run.program, "mise");
    assert_eq!(run.args, ["run", "build"]);
}

#[test]
fn project_directory_must_exist() {
    assert_eq!(parse_project_dir("/p", true), Ok("/p".to_string()));
    assert_eq!(
        parse_project_dir("/p", false),
        Err("Project path '/p' is not a directory.".to_string())
    );
}

#[test]
fn project_is_shown_by_its_directory_name() {
    assert_eq!(project_display_name("/path/to/my-project"), "my-project");
    assert_eq!(project_display_name("/path/to/my-project/"), "my-project");
    assert_eq!(project_display_name("my-project"), "my-project");
    assert_eq!(project_display_name("a/./b/.//"), "b");
    assert_eq!(project_display_name("./x"), "x");
    assert_eq!(project_display_name("a/...") , "...");
    assert_eq!(project_display_name("a/.hidden"), ".hidden");
}

#[test]
fn project_without_a_directory_name_is_shown_by_its_path() {
    assert_eq!(project_display_name("/"), "/");
    assert_eq!(project_display_name("."), ".");
    assert_eq!(project_display_name(".."), "..");
    assert_eq!(project_display_name("a/.."), "a/..");
    assert_eq!(project_display_name("../."), "../.");
    assert_eq!(project_display_name(""), "");
    assert_eq!(display_name(Some("n".to_string()), "/p"), "n");
    assert_eq!(display_name(None, "/p"), "/p");
}

#[test]
fn report_windows() {
    assert_eq!(ErrorDialogApp::new("m".to_string()).message, "m");
    let app = FailureWindowApp::new("demo".to_string(), 139, "out".to_string());
    assert_eq!(app.output, "out");
    assert_eq!(app.project_name, "demo");
    assert_eq!(app.exit_code, 139);
    assert_eq!(app.status_text(), "demo exited with code 139");
    assert_eq!(run_failure_window_title("demo"), "Launch Director - demo - Run Failure");
}

fn end_of_run(polls: &[RunPoll]) -> Option<RunAction> {
    polls
        .iter()
        .map(|poll| watch_run(*poll))
        .find(|action| !matches!(action, RunAction::Wait { .. }))
}

#[test]
fn run_is_judged_by_the_first_deciding_poll() {
    let failed = RunPoll::Exited { success: false, code: Some(1) };
    let early = RunPoll::Running { elapsed_millis: 50 };
    let late = RunPoll::Running { elapsed_millis: 2040 };
    assert_eq!(end_of_run(&[early, early]), None);
    assert_eq!(end_of_run(&[early, failed]), Some(RunAction::Report { exit_code: 1 }));
    assert_eq!(end_of_run(&[early, late, failed]), Some(RunAction::Leave));
}

#[test]
fn failed_run_is_reported_with_what_it_wrote() {
    let failure = quick_run_failure(3, "b\u{f6}om\n".as_bytes());
    assert_eq!(failure.exit_code, 3);
    assert_eq!(failure.output, "b\u{f6}om\n");
}

#[test]
fn output_that_is_no_text_is_shown_all_the_same() {
    let failure = quick_run_failure(-1, &[b'o', b'k', 0xff, b'!']);
    assert_eq!(failure.exit_code, -1);
    assert_eq!(failure.output, "ok\u{fffd}!");
}

#[test]
fn colon_in_a_directory_name_is_shown() {
    assert_eq!(project_display_name("/srv/a:b"), "a:b");
    assert_eq!(project_display_name("/srv/c:/"), "c:");
    assert_eq!(project_display_name("ab:c/.."), "ab:c/..");
    assert_eq!(project_display_name("1:x/y"), "y");
}

#[test]
fn other_paths_are_read_as_the_platform_reads_them() {
    let name = project_display_name("/srv/a\\b");
    assert!(name == "a\\b" || name == "b");
    let name = project_display_name("c:x");
    assert!(name == "c:x" || name == "x");
    assert!("//srv/share/x".contains(&project_display_name("//srv/share/x")));
}
