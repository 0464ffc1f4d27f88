//! The window in which a build is shown.

use vstd::prelude::*;
use vstd::string::*;
use crate::build_watch::{failure_code_is_not_zero, failure_needs_seen_end};
use crate::build_watch::{finish_needs_zero_exit, watch_end};
use crate::build_watch::{BuildOutcome, Sighting, TerminalEvent, WatchAction, NO_EXIT_CODE};
use crate::text::{decimal, push_decimal};

verus! {

/// The state of a build window.
#[derive(Debug)]
pub struct BuildWindowApp {
    pub project_name: String,
    /// How the build ended, once that is known.
    pub final_result: Option<BuildOutcome>,
    /// The exit code of a failed build.
    pub failure_code: Option<i32>,
    pub build_exited: bool,
}

/// A result that is set once: what it is already, or else the given outcome.
pub open spec fn once(result: Option<BuildOutcome>, outcome: BuildOutcome) -> BuildOutcome {
    match result {
        Some(first) => first,
        None => outcome,
    }
}

/// A window in its first state, for a build that has failed with the given code or has not exited.
pub open spec fn opened(project_name: String, failure_code: Option<i32>) -> BuildWindowApp {
    BuildWindowApp {
        project_name,
        final_result: match failure_code {
            Some(code) => Some(BuildOutcome::Failed(code)),
            None => None,
        },
        failure_code,
        build_exited: failure_code is Some,
    }
}

/// A window after an event of its terminal. The end of the terminal counts as a failure where the
/// build has not exited and the window is not about to close.
pub open spec fn after_event(
    app: BuildWindowApp,
    event: TerminalEvent,
    close_requested: bool,
) -> BuildWindowApp {
    match event {
        TerminalEvent::ChildExit(code) => if code == 0 {
            BuildWindowApp {
                build_exited: true,
                final_result: Some(once(app.final_result, BuildOutcome::Succeeded)),
                ..app
            }
        } else {
            BuildWindowApp {
                build_exited: true,
                failure_code: Some(code),
                final_result: Some(once(app.final_result, BuildOutcome::Failed(code))),
                ..app
            }
        },
        TerminalEvent::Exit => if app.build_exited || close_requested {
            app
        } else {
            BuildWindowApp {
                build_exited: true,
                failure_code: Some(NO_EXIT_CODE),
                final_result: Some(once(app.final_result, BuildOutcome::Failed(NO_EXIT_CODE))),
                ..app
            }
        },
        TerminalEvent::Other => app,
    }
}

/// A window after the events of one frame.
pub open spec fn after_events(
    app: BuildWindowApp,
    events: Seq<TerminalEvent>,
    close_requested: bool,
) -> BuildWindowApp
    decreases events.len(),
{
    if events.len() == 0 {
        app
    } else {
        after_event(
            after_events(app, events.drop_last(), close_requested),
            events.last(),
            close_requested,
        )
    }
}

/// A window that is gone.
pub open spec fn closed(app: BuildWindowApp) -> BuildWindowApp {
    BuildWindowApp { final_result: Some(once(app.final_result, BuildOutcome::Aborted)), ..app }
}

/// The status line while the build runs.
pub open spec fn building_text(project_name: Seq<char>) -> Seq<char> {
    "Building "@ + project_name + "..."@
}

/// The status line of a failed build.
pub open spec fn failed_text(project_name: Seq<char>, code: i32) -> Seq<char> {
    "Build "@ + project_name + " exited with code "@ + decimal(code as int) + "."@
}

/// The status line of a window.
pub open spec fn status_line(app: BuildWindowApp) -> Seq<char> {
    match app.failure_code {
        Some(code) => failed_text(app.project_name@, code),
        None => building_text(app.project_name@),
    }
}

/// An event after which the window is to close.
pub open spec fn closes_on(event: TerminalEvent) -> bool {
    event == TerminalEvent::ChildExit(0)
}

/// How a build ended, given the result that its window left.
pub open spec fn outcome_of(result: Option<BuildOutcome>) -> BuildOutcome {
    once(result, BuildOutcome::Aborted)
}

/// The button that a window has.
pub open spec fn control_of(app: BuildWindowApp) -> Option<BuildControl> {
    if app.failure_code is Some {
        Some(BuildControl::Close)
    } else if app.build_exited {
        None
    } else {
        Some(BuildControl::Cancel)
    }
}

/// What the status line of a build window says.
#[derive(Debug)]
pub enum BuildStatus {
    /// The build runs.
    Building { text: String },
    /// The build has failed.
    Failed { text: String },
}

/// A button of a build window.
#[derive(Debug, Clone, Copy, PartialEq, Eq, Structural)]
pub enum BuildControl {
    Close,
    Cancel,
}

/// What a button does.
#[derive(Debug)]
pub enum WindowCommand {
    CloseWindow,
    /// These bytes are typed into the terminal.
    Write(Vec<u8>),
}

impl BuildWindowApp {
    /// A window for a build that has failed with the given code or has not exited.
    pub fn new(project_name: String, initial_failure_code: Option<i32>) -> (app: Self)
        ensures
            app == opened(project_name, initial_failure_code),
    {
        let mut app = BuildWindowApp {
            project_name,
            final_result: None,
            failure_code: initial_failure_code,
            build_exited: initial_failure_code.is_some(),
        };
        if let Some(code) = initial_failure_code {
            app.set_result_once(BuildOutcome::Failed(code));
        }
        app
    }

    /// Sets the result where it is not set.
    pub fn set_result_once(&mut self, outcome: BuildOutcome)
        ensures
            *final(self) == (BuildWindowApp {
                final_result: Some(once(old(self).final_result, outcome)),
                ..*old(self)
            }),
    {
        if self.final_result.is_none() {
            self.final_result = Some(outcome);
        }
    }

    /// Takes an event of the terminal in. Returns whether the window is to close.
    pub fn handle_event(&mut self, event: TerminalEvent, close_requested: bool) -> (close: bool)
        ensures
            *final(self) == after_event(*old(self), event, close_requested),
            close == (event == TerminalEvent::ChildExit(0)),
            close == closes_on(event),
    {
        match event {
            TerminalEvent::ChildExit(code) => {
                self.build_exited = true;
                if code == 0 {
                    self.set_result_once(BuildOutcome::Succeeded);
                    true
                } else {
                    self.failure_code = Some(code);
                    self.set_result_once(BuildOutcome::Failed(code));
                    false
                }
            },
            TerminalEvent::Exit => {
                if !self.build_exited && !close_requested {
                    self.build_exited = true;
                    self.failure_code = Some(NO_EXIT_CODE);
                    self.set_result_once(BuildOutcome::Failed(NO_EXIT_CODE));
                }
                false
            },
            TerminalEvent::Other => false,
        }
    }

    /// Takes the events in that the terminal has reported since the last frame. Returns whether the
    /// window is to close.
    pub fn handle_events(
        &mut self,
        events: &Vec<TerminalEvent>,
        close_requested: bool,
    ) -> (close: bool)
        ensures
            *final(self) == after_events(*old(self), events@, close_requested),
            close == events@.contains(TerminalEvent::ChildExit(0)),
            close <==> exists|i: int| 0 <= i < events@.len() && closes_on(#[trigger] events@[i]),
    {
        let mut close: bool = false;
        let mut i: usize = 0;
        let ghost start = *self;
        while i < events.len()
            invariant
                i <= events@.len(),
                *self == after_events(start, events@.take(i as int), close_requested),
                close == events@.take(i as int).contains(TerminalEvent::ChildExit(0)),
            decreases events@.len() - i,
        {
            let ghost seen = events@.take(i as int);
            let ghost next = events@.take(i + 1);
            assert(next.drop_last() =~= seen);
            assert(next =~= seen.push(events@[i as int]));
            if self.handle_event(events[i], close_requested) {
                close = true;
            }
            assert(next.contains(TerminalEvent::ChildExit(0)) == (seen.contains(
                TerminalEvent::ChildExit(0),
            ) || events@[i as int] == TerminalEvent::ChildExit(0))) by {
                if seen.contains(TerminalEvent::ChildExit(0)) {
                    let k = choose|k: int|
                        0 <= k < seen.len() && seen[k] == TerminalEvent::ChildExit(0);
                    assert(next[k] == TerminalEvent::ChildExit(0));
                }
                assert(next[i as int] == events@[i as int]);
            }
            i = i + 1;
        }
        assert(events@.take(i as int) =~= events@);
        close
    }

    /// The window is gone: a build whose result is not known by now was aborted.
    pub fn close(&mut self)
        ensures
            *final(self) == closed(*old(self)),
    {
        self.set_result_once(BuildOutcome::Aborted);
    }

    /// The status line.
    pub fn status(&self) -> (status: BuildStatus)
        ensures
            match (self.failure_code, status) {
                (Some(code), BuildStatus::Failed { text }) => text@ == failed_text(
                    self.project_name@,
                    code,
                ),
                (None, BuildStatus::Building { text }) => text@ == building_text(
                    self.project_name@,
                ),
                _ => false,
            },
            match status {
                BuildStatus::Building { text } => text@ == status_line(*self),
                BuildStatus::Failed { text } => text@ == status_line(*self),
            },
    {
        let mut text = String::new();
        match self.failure_code {
            Some(code) => {
                text.append("Build ");
                text.append(self.project_name.as_str());
                text.append(" exited with code ");
                push_decimal(&mut text, code);
                text.append(".");
                BuildStatus::Failed { text }
            },
            None => {
                text.append("Building ");
                text.append(self.project_name.as_str());
                text.append("...");
                BuildStatus::Building { text }
            },
        }
    }

    /// The button that the window has: one to close it once the build has failed, one to cancel the
    /// build as long as it runs.
    pub fn control(&self) -> (control: Option<BuildControl>)
        ensures
            control == (if self.failure_code is Some {
                Some(BuildControl::Close)
            } else if self.build_exited {
                None
            } else {
                Some(BuildControl::Cancel)
            }),
            control == control_of(*self),
    {
        if self.failure_code.is_some() {
            Some(BuildControl::Close)
        } else if !self.build_exited {
            Some(BuildControl::Cancel)
        } else {
            None
        }
    }
}

impl BuildControl {
    /// What the button says.
    pub fn label(&self) -> (label: &'static str)
        ensures
            label@ == (match self {
                BuildControl::Close => "Close"@,
                BuildControl::Cancel => "Cancel"@,
            }),
    {
        match self {
            BuildControl::Close => "Close",
            BuildControl::Cancel => "Cancel",
        }
    }

    /// What the button does. To cancel a build is to type the interrupt character, Ctrl-C, into its
    /// terminal.
    pub fn command(&self) -> (command: WindowCommand)
        ensures
            match self {
                BuildControl::Close => command is CloseWindow,
                BuildControl::Cancel => command matches WindowCommand::Write(bytes) && bytes@
                    == seq![3u8],
            },
    {
        match self {
            BuildControl::Close => WindowCommand::CloseWindow,
            BuildControl::Cancel => {
                let mut bytes: Vec<u8> = Vec::new();
                bytes.push(3);
                assert(bytes@ =~= seq![3u8]);
                WindowCommand::Write(bytes)
            },
        }
    }
}

/// How a build ended, given the result that its window left. Without one it was aborted.
pub fn final_outcome(result: Option<BuildOutcome>) -> (outcome: BuildOutcome)
    ensures
        outcome == once(result, BuildOutcome::Aborted),
        outcome == outcome_of(result),
{
    match result {
        Some(outcome) => outcome,
        None => BuildOutcome::Aborted,
    }
}

/// The title of a build window.
pub fn build_window_title(project_name: &str) -> (title: String)
    ensures
        title@ == "Launch Director - "@ + project_name@ + " - Build"@,
{
    let mut title = String::new();
    title.append("Launch Director - ");
    title.append(project_name);
    title.append(" - Build");
    title
}

/// A window after a series of events, each with whether the window was about to close.
pub open spec fn after_all(
    app: BuildWindowApp,
    inputs: Seq<(TerminalEvent, bool)>,
) -> BuildWindowApp
    decreases inputs.len(),
{
    if inputs.len() == 0 {
        app
    } else {
        let (event, close_requested) = inputs.last();
        after_event(after_all(app, inputs.drop_last()), event, close_requested)
    }
}

/// The events of one frame are such a series.
pub proof fn frame_is_series(
    app: BuildWindowApp,
    events: Seq<TerminalEvent>,
    close_requested: bool,
)
    ensures
        after_events(app, events, close_requested) == after_all(
            app,
            events.map_values(|event: TerminalEvent| (event, close_requested)),
        ),
    decreases events.len(),
{
    if events.len() > 0 {
        let inputs = events.map_values(|event: TerminalEvent| (event, close_requested));
        assert(inputs.drop_last() =~= events.drop_last().map_values(
            |event: TerminalEvent| (event, close_requested),
        ));
        frame_is_series(app, events.drop_last(), close_requested);
    }
}

/// What holds of an open window at all times: the result is known exactly when the build has exited,
/// and a failure code is shown only then.
pub open spec fn consistent(app: BuildWindowApp) -> bool {
    &&& app.build_exited <==> app.final_result is Some
    &&& app.failure_code is Some ==> app.build_exited
}

/// A window opens in a consistent state, and every event keeps it so.
pub proof fn window_stays_consistent(
    project_name: String,
    failure_code: Option<i32>,
    inputs: Seq<(TerminalEvent, bool)>,
)
    ensures
        consistent(after_all(opened(project_name, failure_code), inputs)),
    decreases inputs.len(),
{
    if inputs.len() > 0 {
        window_stays_consistent(project_name, failure_code, inputs.drop_last());
    }
}

/// A result stands once it is set: neither later events nor the end of the window change it.
pub proof fn result_stands(app: BuildWindowApp, inputs: Seq<(TerminalEvent, bool)>)
    requires
        app.final_result is Some,
    ensures
        after_all(app, inputs).final_result == app.final_result,
        closed(after_all(app, inputs)).final_result == app.final_result,
    decreases inputs.len(),
{
    if inputs.len() > 0 {
        result_stands(app, inputs.drop_last());
    }
}

/// A window that shows a failure goes on showing one.
pub proof fn failure_stays_shown(app: BuildWindowApp, inputs: Seq<(TerminalEvent, bool)>)
    requires
        app.failure_code is Some,
    ensures
        after_all(app, inputs).failure_code is Some,
    decreases inputs.len(),
{
    if inputs.len() > 0 {
        failure_stays_shown(app, inputs.drop_last());
    }
}

/// The outcome that an event gives to a build that has not exited, where it gives one.
pub open spec fn decision(input: (TerminalEvent, bool)) -> Option<BuildOutcome> {
    match input.0 {
        TerminalEvent::ChildExit(code) => Some(
            if code == 0 {
                BuildOutcome::Succeeded
            } else {
                BuildOutcome::Failed(code)
            },
        ),
        TerminalEvent::Exit => if input.1 {
            None
        } else {
            Some(BuildOutcome::Failed(NO_EXIT_CODE))
        },
        TerminalEvent::Other => None,
    }
}

/// The first outcome that one of the events gives.
pub open spec fn first_decision(inputs: Seq<(TerminalEvent, bool)>) -> Option<BuildOutcome>
    decreases inputs.len(),
{
    if inputs.len() == 0 {
        None
    } else {
        match first_decision(inputs.drop_last()) {
            Some(outcome) => Some(outcome),
            None => decision(inputs.last()),
        }
    }
}

/// The first event that decides about a build gives its outcome; where none does before the window is
/// gone, the build was aborted.
pub proof fn first_decision_wins(project_name: String, inputs: Seq<(TerminalEvent, bool)>)
    ensures
        after_all(opened(project_name, None), inputs).final_result == first_decision(inputs),
        closed(after_all(opened(project_name, None), inputs)).final_result == Some(
            once(first_decision(inputs), BuildOutcome::Aborted),
        ),
    decreases inputs.len(),
{
    if inputs.len() > 0 {
        first_decision_wins(project_name, inputs.drop_last());
        window_stays_consistent(project_name, None, inputs.drop_last());
    }
}

/// How a build ends as a whole: by what was seen of it while no window was open and, where a window
/// was opened, by the events that the window saw until it was gone.
pub open spec fn build_outcome(
    sightings: Seq<Sighting>,
    project_name: String,
    inputs: Seq<(TerminalEvent, bool)>,
) -> Option<BuildOutcome> {
    match watch_end(sightings) {
        Some(WatchAction::Finish(outcome)) => Some(outcome),
        Some(WatchAction::OpenWindow { failure_code }) => closed(
            after_all(opened(project_name, failure_code), inputs),
        ).final_result,
        _ => None,
    }
}

/// A build ends with success only where its task was seen to exit with zero.
pub proof fn success_needs_zero_exit(
    sightings: Seq<Sighting>,
    project_name: String,
    inputs: Seq<(TerminalEvent, bool)>,
)
    requires
        build_outcome(sightings, project_name, inputs) == Some(BuildOutcome::Succeeded),
    ensures
        sightings.contains(Sighting::Event(TerminalEvent::ChildExit(0))) || exists|i: int|
            0 <= i < inputs.len() && (#[trigger] inputs[i]).0 == TerminalEvent::ChildExit(0),
{
    match watch_end(sightings) {
        Some(WatchAction::Finish(outcome)) => {
            finish_needs_zero_exit(sightings, outcome);
        },
        Some(WatchAction::OpenWindow { failure_code }) => {
            match failure_code {
                Some(_) => {
                    result_stands(opened(project_name, failure_code), inputs);
                },
                None => {
                    first_decision_wins(project_name, inputs);
                    lemma_decided_by(inputs, BuildOutcome::Succeeded);
                },
            }
        },
        _ => {},
    }
}

/// Some event gives the first outcome.
proof fn lemma_decided_by(inputs: Seq<(TerminalEvent, bool)>, outcome: BuildOutcome) -> (at: int)
    requires
        first_decision(inputs) == Some(outcome),
    ensures
        0 <= at < inputs.len(),
        decision(inputs[at]) == Some(outcome),
    decreases inputs.len(),
{
    let earlier = inputs.drop_last();
    if first_decision(earlier) is Some {
        let at = lemma_decided_by(earlier, outcome);
        assert(earlier[at] == inputs[at]);
        at
    } else {
        inputs.len() - 1
    }
}

/// A build that fails before its window opens ends with that failure, whatever the window sees.
pub proof fn early_failure_stands(
    sightings: Seq<Sighting>,
    code: i32,
    project_name: String,
    inputs: Seq<(TerminalEvent, bool)>,
)
    requires
        watch_end(sightings) == Some(WatchAction::OpenWindow { failure_code: Some(code) }),
    ensures
        build_outcome(sightings, project_name, inputs) == Some(BuildOutcome::Failed(code)),
        code != 0,
{
    result_stands(opened(project_name, Some(code)), inputs);
    failure_code_is_not_zero(sightings, code);
}

/// An exit of the build task is recorded as it was seen: a code other than zero is shown, zero shows
/// nothing new, and the outcome is settled by it where none was settled before.
pub proof fn exit_is_recorded(app: BuildWindowApp, code: i32, close_requested: bool)
    ensures
        ({
            let after = after_event(app, TerminalEvent::ChildExit(code), close_requested);
            &&& after.build_exited
            &&& after.project_name == app.project_name
            &&& code != 0 ==> after.failure_code == Some(code)
            &&& code == 0 ==> after.failure_code == app.failure_code
            &&& app.final_result is Some ==> after.final_result == app.final_result
            &&& app.final_result is None && code == 0 ==> after.final_result == Some(
                BuildOutcome::Succeeded,
            )
            &&& app.final_result is None && code != 0 ==> after.final_result == Some(
                BuildOutcome::Failed(code),
            )
        }),
{
}

/// The end of the terminal is a failure with code -1 for a build that has not exited, unless the window
/// is about to close; otherwise it changes nothing. Other events never do.
pub proof fn terminal_end_is_recorded(app: BuildWindowApp, close_requested: bool)
    ensures
        app.build_exited || close_requested ==> after_event(
            app,
            TerminalEvent::Exit,
            close_requested,
        ) == app,
        !app.build_exited && !close_requested ==> ({
            let after = after_event(app, TerminalEvent::Exit, close_requested);
            &&& after.build_exited
            &&& after.project_name == app.project_name
            &&& after.failure_code == Some(-1i32)
            &&& app.final_result is Some ==> after.final_result == app.final_result
            &&& app.final_result is None ==> after.final_result == Some(
                BuildOutcome::Failed(-1i32),
            )
        }),
        after_event(app, TerminalEvent::Other, close_requested) == app,
{
}

/// A window opens as what it is opened for: on a running build nothing is settled or shown, on a failed
/// one the failure is settled and shown.
pub proof fn window_opens_on_build(project_name: String, code: i32)
    ensures
        opened(project_name, None).project_name == project_name,
        opened(project_name, None).final_result is None,
        opened(project_name, None).failure_code is None,
        !opened(project_name, None).build_exited,
        opened(project_name, Some(code)).project_name == project_name,
        opened(project_name, Some(code)).final_result == Some(BuildOutcome::Failed(code)),
        opened(project_name, Some(code)).failure_code == Some(code),
        opened(project_name, Some(code)).build_exited,
{
}

/// The end of a window settles an open outcome as aborted and changes nothing else.
pub proof fn closing_aborts_open_build(app: BuildWindowApp)
    ensures
        app.final_result is Some ==> closed(app) == app,
        app.final_result is None ==> closed(app).final_result == Some(BuildOutcome::Aborted),
        closed(app).project_name == app.project_name,
        closed(app).failure_code == app.failure_code,
        closed(app).build_exited == app.build_exited,
{
}

/// A series of events is taken in one by one: its parts may be taken in one after the other.
pub proof fn series_is_step_by_step(
    app: BuildWindowApp,
    front: Seq<(TerminalEvent, bool)>,
    back: Seq<(TerminalEvent, bool)>,
    input: (TerminalEvent, bool),
)
    ensures
        after_all(app, Seq::empty()) == app,
        after_all(app, seq![input]) == after_event(app, input.0, input.1),
        after_all(app, front + back) == after_all(after_all(app, front), back),
    decreases back.len(),
{
    assert(seq![input].drop_last() =~= Seq::<(TerminalEvent, bool)>::empty());
    assert(after_all(app, seq![input].drop_last()) == app);
    if back.len() == 0 {
        assert(front + back =~= front);
    } else {
        assert((front + back).drop_last() =~= front + back.drop_last());
        series_is_step_by_step(app, front, back.drop_last(), input);
    }
}

/// The name of the project stays as it is.
pub proof fn project_name_stays(app: BuildWindowApp, inputs: Seq<(TerminalEvent, bool)>)
    ensures
        after_all(app, inputs).project_name == app.project_name,
    decreases inputs.len(),
{
    if inputs.len() > 0 {
        project_name_stays(app, inputs.drop_last());
    }
}

/// A failure is shown exactly where one was seen: once the build task exited with a code other than zero
/// or a failure was settled, the window shows a failure, and what it shows was seen.
pub proof fn failure_is_shown_iff_seen(project_name: String, inputs: Seq<(TerminalEvent, bool)>)
    ensures
        ({
            let app = after_all(opened(project_name, None), inputs);
            &&& app.final_result matches Some(BuildOutcome::Failed(code)) ==> app.failure_code is Some
            &&& forall|i: int|
                0 <= i < inputs.len() && ((#[trigger] inputs[i]).0 matches TerminalEvent::ChildExit(
                    code,
                ) && code != 0) ==> app.failure_code is Some
            &&& app.failure_code matches Some(code) ==> exists|i: int|
                0 <= i < inputs.len() && ({
                    ||| code != 0 && (#[trigger] inputs[i]).0 == TerminalEvent::ChildExit(code)
                    ||| code == -1 && inputs[i] == (TerminalEvent::Exit, false)
                })
        }),
    decreases inputs.len(),
{
    if inputs.len() > 0 {
        let earlier = inputs.drop_last();
        let last = inputs.len() - 1;
        failure_is_shown_iff_seen(project_name, earlier);
        let was = after_all(opened(project_name, None), earlier);
        let app = after_all(opened(project_name, None), inputs);
        assert forall|i: int|
            0 <= i < inputs.len() && ((#[trigger] inputs[i]).0 matches TerminalEvent::ChildExit(code)
                && code != 0) implies app.failure_code is Some by {
            if i < last {
                assert(earlier[i] == inputs[i]);
            }
        }
        if app.failure_code is Some {
            let code = app.failure_code->Some_0;
            if app.failure_code == was.failure_code {
                let i = choose|i: int|
                    0 <= i < earlier.len() && ({
                        ||| code != 0 && (#[trigger] earlier[i]).0 == TerminalEvent::ChildExit(code)
                        ||| code == -1 && earlier[i] == (TerminalEvent::Exit, false)
                    });
                assert(inputs[i] == earlier[i]);
            } else {
                assert(inputs[last] == inputs.last());
            }
        }
    }
}

/// What a window sees of a build that neither exits nor loses its terminal leaves it as it was opened.
proof fn lemma_quiet_series(project_name: String, quiet: Seq<(TerminalEvent, bool)>)
    requires
        forall|i: int|
            0 <= i < quiet.len() ==> ((#[trigger] quiet[i]).0 == TerminalEvent::Other || quiet[i] == (
                TerminalEvent::Exit,
                true,
            )),
    ensures
        after_all(opened(project_name, None), quiet) == opened(project_name, None),
    decreases quiet.len(),
{
    if quiet.len() > 0 {
        let earlier = quiet.drop_last();
        assert forall|i: int| 0 <= i < earlier.len() implies ((#[trigger] earlier[i]).0
            == TerminalEvent::Other || earlier[i] == (TerminalEvent::Exit, true)) by {
            assert(earlier[i] == quiet[i]);
        }
        lemma_quiet_series(project_name, earlier);
        assert(quiet[quiet.len() - 1] == quiet.last());
    }
}

/// The first end of a build that its window sees is its outcome, whatever the window sees later: zero is
/// a success, another code a failure with it, and the end of the terminal a failure with -1 unless the
/// window is about to close. A build whose end is not seen before the window is gone was aborted.
pub proof fn first_end_in_window_decides(
    project_name: String,
    quiet: Seq<(TerminalEvent, bool)>,
    code: i32,
    closing: bool,
    later: Seq<(TerminalEvent, bool)>,
)
    requires
        forall|i: int|
            0 <= i < quiet.len() ==> ((#[trigger] quiet[i]).0 == TerminalEvent::Other || quiet[i] == (
                TerminalEvent::Exit,
                true,
            )),
    ensures
        closed(after_all(opened(project_name, None), quiet)).final_result == Some(
            BuildOutcome::Aborted,
        ),
        code == 0 ==> closed(
            after_all(
                opened(project_name, None),
                quiet.push((TerminalEvent::ChildExit(code), closing)) + later,
            ),
        ).final_result == Some(BuildOutcome::Succeeded),
        code != 0 ==> closed(
            after_all(
                opened(project_name, None),
                quiet.push((TerminalEvent::ChildExit(code), closing)) + later,
            ),
        ).final_result == Some(BuildOutcome::Failed(code)),
        closed(
            after_all(
                opened(project_name, None),
                quiet.push((TerminalEvent::Exit, false)) + later,
            ),
        ).final_result == Some(BuildOutcome::Failed(-1i32)),
{
    let start = opened(project_name, None);
    lemma_quiet_series(project_name, quiet);
    let exit = (TerminalEvent::ChildExit(code), closing);
    let end = (TerminalEvent::Exit, false);
    assert(quiet.push(exit).drop_last() =~= quiet);
    assert(quiet.push(end).drop_last() =~= quiet);
    series_is_step_by_step(start, quiet.push(exit), later, exit);
    series_is_step_by_step(start, quiet.push(end), later, end);
    result_stands(after_all(start, quiet.push(exit)), later);
    result_stands(after_all(start, quiet.push(end)), later);
}

/// A build that ends as failed was seen to fail with that code, before its window was open or in it. A
/// build that ends as aborted was seen neither to exit nor to lose its terminal while its window was to
/// stay.
pub proof fn outcome_was_seen(
    sightings: Seq<Sighting>,
    project_name: String,
    inputs: Seq<(TerminalEvent, bool)>,
    code: i32,
)
    ensures
        build_outcome(sightings, project_name, inputs) == Some(BuildOutcome::Failed(code)) ==> ({
            ||| code != 0 && sightings.contains(Sighting::Event(TerminalEvent::ChildExit(code)))
            ||| code == -1 && sightings.contains(Sighting::Event(TerminalEvent::Exit))
            ||| exists|i: int|
                0 <= i < inputs.len() && ({
                    ||| code != 0 && (#[trigger] inputs[i]).0 == TerminalEvent::ChildExit(code)
                    ||| code == -1 && inputs[i] == (TerminalEvent::Exit, false)
                })
        }),
        build_outcome(sightings, project_name, inputs) == Some(BuildOutcome::Aborted) ==> forall|
            i: int,
        |
            0 <= i < inputs.len() ==> !((#[trigger] inputs[i]).0 is ChildExit) && inputs[i] != (
                TerminalEvent::Exit,
                false,
            ),
{
    match watch_end(sightings) {
        Some(WatchAction::Finish(outcome)) => {
            finish_needs_zero_exit(sightings, outcome);
        },
        Some(WatchAction::OpenWindow { failure_code: Some(early) }) => {
            result_stands(opened(project_name, Some(early)), inputs);
            failure_needs_seen_end(sightings, early);
        },
        Some(WatchAction::OpenWindow { failure_code: None }) => {
            first_decision_wins(project_name, inputs);
            if first_decision(inputs) == Some(BuildOutcome::Failed(code)) {
                let at = lemma_decided_by(inputs, BuildOutcome::Failed(code));
                assert(inputs[at] == inputs[at]);
            }
            if first_decision(inputs) is None {
                lemma_undecided(inputs);
            }
            if build_outcome(sightings, project_name, inputs) == Some(BuildOutcome::Aborted) {
                if first_decision(inputs) is Some {
                    let at = lemma_decided_by(inputs, BuildOutcome::Aborted);
                }
            }
        },
        _ => {},
    }
}

/// Where no event gives an outcome, none is an exit or an unexpected end of the terminal.
proof fn lemma_undecided(inputs: Seq<(TerminalEvent, bool)>)
    requires
        first_decision(inputs) is None,
    ensures
        forall|i: int| 0 <= i < inputs.len() ==> decision(#[trigger] inputs[i]) is None,
    decreases inputs.len(),
{
    if inputs.len() > 0 {
        let earlier = inputs.drop_last();
        lemma_undecided(earlier);
        assert forall|i: int| 0 <= i < inputs.len() implies decision(#[trigger] inputs[i]) is None by {
            if i < inputs.len() - 1 {
                assert(earlier[i] == inputs[i]);
            }
        }
    }
}

/// What the status line says: the project's name stands in it, behind a failure its exit code too.
pub proof fn status_names_project_and_code(project_name: Seq<char>, code: i32)
    ensures
        building_text(project_name) == "Building "@ + project_name + "..."@,
        failed_text(project_name, code) == "Build "@ + project_name + " exited with code "@
            + decimal(code as int) + "."@,
{
}

/// The button fits what the window shows: a failure can be closed, a running build can be cancelled, and
/// a build that succeeded has none.
pub proof fn button_fits_state(app: BuildWindowApp, code: i32, close_requested: bool)
    ensures
        app.failure_code is Some ==> control_of(app) == Some(BuildControl::Close),
        app.failure_code is None && !app.build_exited ==> control_of(app) == Some(
            BuildControl::Cancel,
        ),
        app.failure_code is None && app.build_exited ==> control_of(app) is None,
        code != 0 ==> control_of(
            after_event(app, TerminalEvent::ChildExit(code), close_requested),
        ) == Some(BuildControl::Close),
{
}

/// The status line fits what the window has seen: behind an exit with a code other than zero it tells
/// that code, and as long as no failure was seen it says that the build runs.
pub proof fn status_line_fits_state(app: BuildWindowApp, code: i32, close_requested: bool)
    ensures
        app.failure_code is None ==> status_line(app) == "Building "@ + app.project_name@ + "..."@,
        app.failure_code matches Some(shown) ==> status_line(app) == "Build "@ + app.project_name@
            + " exited with code "@ + decimal(shown as int) + "."@,
        code != 0 ==> status_line(
            after_event(app, TerminalEvent::ChildExit(code), close_requested),
        ) == "Build "@ + app.project_name@ + " exited with code "@ + decimal(code as int) + "."@,
        !app.build_exited && !close_requested ==> status_line(
            after_event(app, TerminalEvent::Exit, close_requested),
        ) == "Build "@ + app.project_name@ + " exited with code "@ + decimal(-1) + "."@,
{
}

/// A window closes by itself on the success of its build and on nothing else.
pub proof fn window_closes_on_success_alone(event: TerminalEvent)
    ensures
        event matches TerminalEvent::ChildExit(code) ==> (closes_on(event) <==> code == 0),
        event is Exit || event is Other ==> !closes_on(event),
{
}

/// The result that a window leaves is the outcome of its build; a window that leaves none was closed on
/// a build that is aborted.
pub proof fn left_result_is_outcome(app: BuildWindowApp, result: BuildOutcome)
    ensures
        outcome_of(Some(result)) == result,
        outcome_of(None) == BuildOutcome::Aborted,
        outcome_of(closed(app).final_result) == outcome_of(app.final_result),
{
}

} // verus!
