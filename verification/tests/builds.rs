use launch_director::build_watch::{
    watch_build, BuildOutcome, Sighting, TerminalEvent, WatchAction,
};
use launch_director::build_window::{
    build_window_title, final_outcome, BuildControl, BuildStatus, BuildWindowApp, WindowCommand,
};

fn window(code: Option<i32>) -> BuildWindowApp {
    BuildWindowApp::new("demo".to_string(), code)
}

fn outcome(mut app: BuildWindowApp) -> BuildOutcome {
    app.close();
    final_outcome(app.final_result)
}

fn failed_text(code: i32) -> String {
    match window(Some(code)).status() {
        BuildStatus::Failed { text } => text,
        other => panic!("{other:?}"),
    }
}

#[test]
fn zero_exit_needs_no_window() {
    assert_eq!(
        watch_build(Sighting::Event(TerminalEvent::ChildExit(0))),
        WatchAction::Finish(BuildOutcome::Succeeded)
    );
}

#[test]
fn failure_opens_the_window() {
    assert_eq!(
        watch_build(Sighting::Event(TerminalEvent::ChildExit(7))),
        WatchAction::OpenWindow { failure_code: Some(7) }
    );
    assert_eq!(
        watch_build(Sighting::Event(TerminalEvent::Exit)),
        WatchAction::OpenWindow { failure_code: Some(-1) }
    );
}

#[test]
fn quiet_time_is_two_seconds() {
    assert_eq!(
        watch_build(Sighting::Nothing { elapsed_millis: 1999 }),
        WatchAction::Wait { millis: 50 }
    );
    assert_eq!(
        watch_build(Sighting::Nothing { elapsed_millis: 2000 }),
        WatchAction::OpenWindow { failure_code: None }
    );
    assert_eq!(
        watch_build(Sighting::Event(TerminalEvent::Other)),
        WatchAction::LookAgain
    );
}

#[test]
fn running_build_is_shown_as_such() {
    let app = window(None);
    assert!(!app.build_exited);
    assert!(matches!(app.status(), BuildStatus::Building { text } if text == "Building demo..."));
    assert_eq!(app.control(), Some(BuildControl::Cancel));
    assert_eq!(BuildControl::Cancel.label(), "Cancel");
    assert!(matches!(BuildControl::Cancel.command(), WindowCommand::Write(b) if b == [3]));
}

#[test]
fn successful_build_closes_the_window() {
    let mut app = window(None);
    assert!(app.handle_event(TerminalEvent::ChildExit(0), false));
    assert!(app.build_exited);
    assert_eq!(app.failure_code, None);
    assert_eq!(app.control(), None);
    assert_eq!(outcome(app), BuildOutcome::Succeeded);
}

#[test]
fn failed_build_stays_open() {
    let mut app = window(None);
    assert!(!app.handle_event(TerminalEvent::ChildExit(3), false));
    assert_eq!(app.failure_code, Some(3));
    assert!(matches!(
        app.status(),
        BuildStatus::Failed { text } if text == "Build demo exited with code 3."
    ));
    assert_eq!(app.control(), Some(BuildControl::Close));
    assert_eq!(BuildControl::Close.label(), "Close");
    assert!(matches!(BuildControl::Close.command(), WindowCommand::CloseWindow));
    assert_eq!(outcome(app), BuildOutcome::Failed(3));
}

#[test]
fn end_of_terminal_without_exit_is_a_failure() {
    let mut app = window(None);
    assert!(!app.handle_event(TerminalEvent::Exit, false));
    assert_eq!(app.failure_code, Some(-1));
    assert_eq!(outcome(app), BuildOutcome::Failed(-1));
}

#[test]
fn end_of_terminal_is_expected_while_closing() {
    let mut app = window(None);
    assert!(!app.handle_event(TerminalEvent::Exit, true));
    assert!(!app.build_exited);
    assert_eq!(outcome(app), BuildOutcome::Aborted);
}

#[test]
fn end_of_terminal_after_an_exit_changes_nothing() {
    let mut app = window(None);
    app.handle_event(TerminalEvent::ChildExit(4), false);
    app.handle_event(TerminalEvent::Exit, false);
    assert_eq!(app.failure_code, Some(4));
    assert_eq!(outcome(app), BuildOutcome::Failed(4));
}

#[test]
fn early_failure_stands_whatever_follows() {
    let mut app = window(Some(9));
    assert!(app.build_exited);
    assert_eq!(app.final_result, Some(BuildOutcome::Failed(9)));
    app.handle_event(TerminalEvent::ChildExit(0), false);
    assert_eq!(outcome(app), BuildOutcome::Failed(9));
}

#[test]
fn first_result_stands() {
    let mut app = window(None);
    app.set_result_once(BuildOutcome::Succeeded);
    app.set_result_once(BuildOutcome::Failed(1));
    assert_eq!(app.final_result, Some(BuildOutcome::Succeeded));
}

#[test]
fn events_of_a_frame_are_taken_in_order() {
    let mut app = window(None);
    let events = vec![
        TerminalEvent::Other,
        TerminalEvent::ChildExit(2),
        TerminalEvent::ChildExit(0),
        TerminalEvent::Exit,
    ];
    assert!(app.handle_events(&events, false));
    assert_eq!(app.failure_code, Some(2));
    assert_eq!(outcome(app), BuildOutcome::Failed(2));
    let mut quiet = window(None);
    assert!(!quiet.handle_events(&vec![TerminalEvent::Other, TerminalEvent::Exit], true));
    assert_eq!(outcome(quiet), BuildOutcome::Aborted);
}

#[test]
fn window_without_a_result_was_aborted() {
    assert_eq!(final_outcome(None), BuildOutcome::Aborted);
    assert_eq!(final_outcome(Some(BuildOutcome::Succeeded)), BuildOutcome::Succeeded);
}

#[test]
fn exit_codes_are_shown_in_decimal() {
    assert_eq!(failed_text(1), "Build demo exited with code 1.");
    assert_eq!(failed_text(10), "Build demo exited with code 10.");
    assert_eq!(failed_text(127), "Build demo exited with code 127.");
    assert_eq!(failed_text(-1), "Build demo exited with code -1.");
    assert_eq!(failed_text(i32::MAX), format!("Build demo exited with code {}.", i32::MAX));
    assert_eq!(failed_text(i32::MIN), format!("Build demo exited with code {}.", i32::MIN));
}

#[test]
fn build_window_has_a_title() {
    assert_eq!(build_window_title("demo"), "Launch Director - demo - Build");
}

fn end_of_watch(sightings: &[Sighting]) -> Option<WatchAction> {
    sightings
        .iter()
        .map(|sighting| watch_build(*sighting))
        .find(|action| !matches!(action, WatchAction::LookAgain | WatchAction::Wait { .. }))
}

#[test]
fn watch_ends_with_the_first_deciding_sighting() {
    let quiet = [
        Sighting::Event(TerminalEvent::Other),
        Sighting::Nothing { elapsed_millis: 0 },
        Sighting::Nothing { elapsed_millis: 1950 },
    ];
    assert_eq!(end_of_watch(&quiet), None);
    let mut short = quiet.to_vec();
    short.push(Sighting::Event(TerminalEvent::ChildExit(0)));
    short.push(Sighting::Nothing { elapsed_millis: 5000 });
    assert_eq!(end_of_watch(&short), Some(WatchAction::Finish(BuildOutcome::Succeeded)));
    let mut long = quiet.to_vec();
    long.push(Sighting::Nothing { elapsed_millis: 2003 });
    long.push(Sighting::Event(TerminalEvent::ChildExit(1)));
    assert_eq!(end_of_watch(&long), Some(WatchAction::OpenWindow { failure_code: None }));
}
