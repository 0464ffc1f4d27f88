use launch_director::discovery::CommandOutput;
use launch_director::error::{should_suppress_error_dialog, LaunchError};
use launch_director::names::TaskNames;
use launch_director::resolve::{pick_project_tasks, resolve_project_tasks, resolve_task_name};

fn tasks(names: &[&str]) -> TaskNames {
    let mut set = TaskNames::new();
    for name in names {
        set.insert(name.to_string());
    }
    set
}

fn listing(stdout: &str) -> CommandOutput {
    CommandOutput { success: true, stdout: stdout.as_bytes().to_vec(), stderr: Vec::new() }
}

#[test]
fn own_tasks_are_preferred() {
    let all = ["build", "run", "_launch_director_build", "_launch_director_run"];
    let picked = pick_project_tasks(&tasks(&all)).unwrap();
    assert_eq!(picked.build_task, "_launch_director_build");
    assert_eq!(picked.run_task, "_launch_director_run");
}

#[test]
fn plain_tasks_are_the_fallback() {
    let picked = pick_project_tasks(&tasks(&["run", "build", "test"])).unwrap();
    assert_eq!(picked.build_task, "build");
    assert_eq!(picked.run_task, "run");
}

#[test]
fn the_two_choices_are_independent() {
    let picked = pick_project_tasks(&tasks(&["_launch_director_build", "build", "run"])).unwrap();
    assert_eq!(picked.build_task, "_launch_director_build");
    assert_eq!(picked.run_task, "run");
}

#[test]
fn missing_build_task() {
    let error = pick_project_tasks(&tasks(&["test", "lint", "run"])).unwrap_err();
    assert_eq!(
        error.message(),
        "Could not find a build task. Define one of: _launch_director_build, build. \
         Discovered tasks: lint, run, test"
    );
    assert!(!should_suppress_error_dialog(&error));
}

#[test]
fn missing_run_task() {
    let error = pick_project_tasks(&tasks(&["build"])).unwrap_err();
    assert_eq!(
        error.message(),
        "Could not find a run task. Define one of: _launch_director_run, run. \
         Discovered tasks: build"
    );
}

#[test]
fn missing_build_task_is_reported_first() {
    let error = pick_project_tasks(&tasks(&[])).unwrap_err();
    assert_eq!(
        error.message(),
        "Could not find a build task. Define one of: _launch_director_build, build. \
         Discovered tasks: "
    );
}

#[test]
fn missing_message_does_not_depend_on_the_order() {
    let one = pick_project_tasks(&tasks(&["c", "a", "b"])).unwrap_err();
    let other = pick_project_tasks(&tasks(&["b", "c", "a"])).unwrap_err();
    assert_eq!(one.message(), other.message());
}

#[test]
fn first_offered_candidate_wins() {
    let set = tasks(&["y", "z"]);
    assert_eq!(resolve_task_name(&set, &["x", "z", "y"], "any").unwrap(), "z");
    assert!(matches!(
        resolve_task_name(&set, &[], "any"),
        Err(LaunchError::MissingTask { candidates, .. }) if candidates.is_empty()
    ));
}

#[test]
fn listing_is_resolved() {
    let picked = resolve_project_tasks(listing(r#"[{"name":"build"},{"name":"run"}]"#)).unwrap();
    assert_eq!((picked.build_task.as_str(), picked.run_task.as_str()), ("build", "run"));
}

#[test]
fn listing_without_a_run_task_is_refused() {
    let error = resolve_project_tasks(listing(r#"[{"name":"build"}]"#)).unwrap_err();
    assert!(matches!(error, LaunchError::MissingTask { task_kind, .. } if task_kind == "run"));
}

#[test]
fn unreadable_listing_is_refused() {
    let error = resolve_project_tasks(listing("nope")).unwrap_err();
    assert!(matches!(error, LaunchError::TaskJson(_)));
}
