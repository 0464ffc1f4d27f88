//! The first seconds of a build, in which no window is open.

use vstd::prelude::*;

verus! {

/// For how long a build may run before its window opens.
pub const QUIET_MILLIS: u128 = 2000;

/// How long to wait before looking again at something that runs.
pub const POLL_MILLIS: u64 = 50;

/// The exit code that stands for an exit without one.
pub const NO_EXIT_CODE: i32 = -1;

/// How a build ended.
#[derive(Debug, Clone, Copy, PartialEq, Eq, Structural)]
pub enum BuildOutcome {
    Succeeded,
    Failed(i32),
    Aborted,
}

/// What the terminal in which a build runs reports.
#[derive(Debug, Clone, Copy, PartialEq, Eq, Structural)]
pub enum TerminalEvent {
    /// The build task exited with this code.
    ChildExit(i32),
    /// The terminal itself is done.
    Exit,
    /// Anything else.
    Other,
}

/// What is seen while no window is open.
#[derive(Debug, Clone, Copy, PartialEq, Eq, Structural)]
pub enum Sighting {
    Event(TerminalEvent),
    /// No event is there, this long after the start of the build.
    Nothing { elapsed_millis: u128 },
}

/// What to do next while no window is open.
#[derive(Debug, Clone, Copy, PartialEq, Eq, Structural)]
pub enum WatchAction {
    /// Look for the next event at once.
    LookAgain,
    /// Wait for so long, then look for the next event.
    Wait { millis: u64 },
    /// The build is over; no window is needed.
    Finish(BuildOutcome),
    /// Open the build window. With a code, the build has failed with it.
    OpenWindow { failure_code: Option<i32> },
}

/// What a sighting leads to. An exit with zero is a success, any other a failure. Without an exit,
/// the window opens once the quiet time is over.
pub open spec fn action_on(sighting: Sighting) -> WatchAction {
    match sighting {
        Sighting::Event(TerminalEvent::ChildExit(code)) => if code == 0 {
            WatchAction::Finish(BuildOutcome::Succeeded)
        } else {
            WatchAction::OpenWindow { failure_code: Some(code) }
        },
        Sighting::Event(TerminalEvent::Exit) => WatchAction::OpenWindow {
            failure_code: Some(NO_EXIT_CODE),
        },
        Sighting::Event(TerminalEvent::Other) => WatchAction::LookAgain,
        Sighting::Nothing { elapsed_millis } => if elapsed_millis >= QUIET_MILLIS {
            WatchAction::OpenWindow { failure_code: None }
        } else {
            WatchAction::Wait { millis: POLL_MILLIS }
        },
    }
}

/// Decides what to do about a sighting.
pub fn watch_build(sighting: Sighting) -> (action: WatchAction)
    ensures
        action == action_on(sighting),
{
    match sighting {
        Sighting::Event(TerminalEvent::ChildExit(code)) => {
            if code == 0 {
                WatchAction::Finish(BuildOutcome::Succeeded)
            } else {
                WatchAction::OpenWindow { failure_code: Some(code) }
            }
        },
        Sighting::Event(TerminalEvent::Exit) => WatchAction::OpenWindow {
            failure_code: Some(NO_EXIT_CODE),
        },
        Sighting::Event(TerminalEvent::Other) => WatchAction::LookAgain,
        Sighting::Nothing { elapsed_millis } => {
            if elapsed_millis >= QUIET_MILLIS {
                WatchAction::OpenWindow { failure_code: None }
            } else {
                WatchAction::Wait { millis: POLL_MILLIS }
            }
        },
    }
}

/// The watch goes on after this action.
pub open spec fn goes_on(action: WatchAction) -> bool {
    action is LookAgain || action is Wait
}

/// What the watch comes to: the first action after which it does not go on, where there is one.
pub open spec fn watch_end(sightings: Seq<Sighting>) -> Option<WatchAction>
    decreases sightings.len(),
{
    if sightings.len() == 0 {
        None
    } else if goes_on(action_on(sightings[0])) {
        watch_end(sightings.drop_first())
    } else {
        Some(action_on(sightings[0]))
    }
}

/// The sighting that ends a watch: all before it let it go on, and it decides how it ends.
proof fn lemma_ending(sightings: Seq<Sighting>) -> (at: int)
    requires
        watch_end(sightings) is Some,
    ensures
        0 <= at < sightings.len(),
        watch_end(sightings) == Some(action_on(sightings[at])),
        !goes_on(action_on(sightings[at])),
        forall|i: int| 0 <= i < at ==> goes_on(action_on(#[trigger] sightings[i])),
    decreases sightings.len(),
{
    if goes_on(action_on(sightings[0])) {
        let rest = sightings.drop_first();
        let at = lemma_ending(rest);
        assert forall|i: int| 0 <= i < at + 1 implies goes_on(
            action_on(#[trigger] sightings[i]),
        ) by {
            if i > 0 {
                assert(rest[i - 1] == sightings[i]);
            }
        }
        at + 1
    } else {
        0
    }
}

/// A watch whose sightings all let it go on has not ended, and one that such sightings begin ends as
/// the rest does.
proof fn lemma_goes_on(quiet: Seq<Sighting>, rest: Seq<Sighting>)
    requires
        forall|i: int| 0 <= i < quiet.len() ==> goes_on(action_on(#[trigger] quiet[i])),
    ensures
        watch_end(quiet + rest) == watch_end(rest),
    decreases quiet.len(),
{
    if quiet.len() == 0 {
        assert(quiet + rest =~= rest);
    } else {
        assert((quiet + rest)[0] == quiet[0]);
        assert((quiet + rest).drop_first() =~= quiet.drop_first() + rest);
        lemma_goes_on(quiet.drop_first(), rest);
    }
}

/// Before the quiet time is over, a window opens for a build that has failed and for no other.
pub proof fn quiet_build_opens_no_window(sightings: Seq<Sighting>)
    requires
        forall|i: int|
            0 <= i < sightings.len() ==> ((#[trigger] sightings[i]) matches Sighting::Nothing {
                elapsed_millis,
            } ==> elapsed_millis < QUIET_MILLIS),
    ensures
        watch_end(sightings) matches Some(WatchAction::OpenWindow { failure_code })
            ==> failure_code is Some,
{
    if watch_end(sightings) is Some {
        let at = lemma_ending(sightings);
        assert(watch_end(sightings) == Some(action_on(sightings[at])));
    }
}

/// A build that runs on without an exit until the quiet time is over gets a window, one that has not
/// failed.
pub proof fn long_build_opens_window(sightings: Seq<Sighting>, elapsed_millis: u128)
    requires
        forall|i: int| 0 <= i < sightings.len() ==> goes_on(action_on(#[trigger] sightings[i])),
        elapsed_millis >= QUIET_MILLIS,
    ensures
        watch_end(sightings.push(Sighting::Nothing { elapsed_millis })) == Some(
            WatchAction::OpenWindow { failure_code: None },
        ),
{
    let last = seq![Sighting::Nothing { elapsed_millis }];
    lemma_goes_on(sightings, last);
    assert(sightings + last =~= sightings.push(last[0]));
}

/// A build whose exit is seen before the watch has ended is decided by its exit code: with zero it
/// succeeds without a window, with another code the window opens on that failure.
pub proof fn early_exit_decides(sightings: Seq<Sighting>, code: i32, later: Seq<Sighting>)
    requires
        forall|i: int| 0 <= i < sightings.len() ==> goes_on(action_on(#[trigger] sightings[i])),
    ensures
        watch_end(
            sightings.push(Sighting::Event(TerminalEvent::ChildExit(code))) + later,
        ) == Some(
            if code == 0 {
                WatchAction::Finish(BuildOutcome::Succeeded)
            } else {
                WatchAction::OpenWindow { failure_code: Some(code) }
            },
        ),
{
    let rest = seq![Sighting::Event(TerminalEvent::ChildExit(code))] + later;
    lemma_goes_on(sightings, rest);
    assert(sightings + rest =~= sightings.push(rest[0]) + later);
}

/// A watch ends without a window only on a success, and then an exit with zero was seen.
pub proof fn finish_needs_zero_exit(sightings: Seq<Sighting>, outcome: BuildOutcome)
    requires
        watch_end(sightings) == Some(WatchAction::Finish(outcome)),
    ensures
        outcome == BuildOutcome::Succeeded,
        sightings.contains(Sighting::Event(TerminalEvent::ChildExit(0))),
{
    let at = lemma_ending(sightings);
    assert(sightings[at] == Sighting::Event(TerminalEvent::ChildExit(0)));
}

/// The code with which a window opens on a failure is not zero.
pub proof fn failure_code_is_not_zero(sightings: Seq<Sighting>, code: i32)
    requires
        watch_end(sightings) == Some(WatchAction::OpenWindow { failure_code: Some(code) }),
    ensures
        code != 0,
{
    let at = lemma_ending(sightings);
    assert(action_on(sightings[at]) == WatchAction::OpenWindow { failure_code: Some(code) });
}

/// As long as a build has neither exited nor run for two seconds, its watch goes on: no window opens
/// and no outcome is settled.
pub proof fn running_build_is_watched_on(sightings: Seq<Sighting>)
    requires
        forall|i: int|
            0 <= i < sightings.len() ==> ({
                ||| #[trigger] sightings[i] == Sighting::Event(TerminalEvent::Other)
                ||| sightings[i] matches Sighting::Nothing { elapsed_millis } && elapsed_millis
                    < 2000
            }),
    ensures
        watch_end(sightings) is None,
    decreases sightings.len(),
{
    if sightings.len() > 0 {
        assert(sightings[0] == sightings[0]);
        let rest = sightings.drop_first();
        assert forall|i: int| 0 <= i < rest.len() implies ({
            ||| #[trigger] rest[i] == Sighting::Event(TerminalEvent::Other)
            ||| rest[i] matches Sighting::Nothing { elapsed_millis } && elapsed_millis < 2000
        }) by {
            assert(rest[i] == sightings[i + 1]);
        }
        running_build_is_watched_on(rest);
    }
}

/// While a watch goes on, an event that tells nothing is followed by a look for the next one, and the
/// lack of an event by a pause of 50 milliseconds.
pub proof fn watch_is_paced(elapsed_millis: u128)
    requires
        elapsed_millis < 2000,
    ensures
        action_on(Sighting::Event(TerminalEvent::Other)) is LookAgain,
        action_on(Sighting::Nothing { elapsed_millis }) == (WatchAction::Wait { millis: 50 }),
{
}

/// The first thing that says how a build stands decides the watch, whatever comes later: an exit with
/// zero ends it with success, an exit with another code or the end of the terminal opens the window on
/// that failure, and two seconds without either open the window on a running build.
pub proof fn first_end_decides(quiet: Seq<Sighting>, end: Sighting, later: Seq<Sighting>)
    requires
        forall|i: int|
            0 <= i < quiet.len() ==> ({
                ||| #[trigger] quiet[i] == Sighting::Event(TerminalEvent::Other)
                ||| quiet[i] matches Sighting::Nothing { elapsed_millis } && elapsed_millis < 2000
            }),
    ensures
        end == Sighting::Event(TerminalEvent::ChildExit(0)) ==> watch_end(quiet.push(end) + later)
            == Some(WatchAction::Finish(BuildOutcome::Succeeded)),
        end matches Sighting::Event(TerminalEvent::ChildExit(code)) ==> (code != 0 ==> watch_end(
            quiet.push(end) + later,
        ) == Some(WatchAction::OpenWindow { failure_code: Some(code) })),
        end == Sighting::Event(TerminalEvent::Exit) ==> watch_end(quiet.push(end) + later) == Some(
            WatchAction::OpenWindow { failure_code: Some(-1i32) },
        ),
        end matches Sighting::Nothing { elapsed_millis } ==> (elapsed_millis >= 2000 ==> watch_end(
            quiet.push(end) + later,
        ) == Some(WatchAction::OpenWindow { failure_code: None })),
{
    let rest = seq![end] + later;
    assert forall|i: int| 0 <= i < quiet.len() implies goes_on(action_on(#[trigger] quiet[i])) by {
        assert(quiet[i] == quiet[i]);
    }
    lemma_goes_on(quiet, rest);
    assert(quiet + rest =~= quiet.push(end) + later);
    assert(rest[0] == end);
}

/// A build is declared failed only where its end was seen: its exit with that code, which is not zero,
/// or the end of its terminal.
pub proof fn failure_needs_seen_end(sightings: Seq<Sighting>, code: i32)
    requires
        watch_end(sightings) == Some(WatchAction::OpenWindow { failure_code: Some(code) }),
    ensures
        ({
            ||| code != 0 && sightings.contains(Sighting::Event(TerminalEvent::ChildExit(code)))
            ||| code == -1 && sightings.contains(Sighting::Event(TerminalEvent::Exit))
        }),
{
    let at = lemma_ending(sightings);
    assert(action_on(sightings[at]) == WatchAction::OpenWindow { failure_code: Some(code) });
    assert(sightings.contains(sightings[at]));
}

/// A window opens on a build that has not failed only where the build was found without an event
/// after two seconds.
pub proof fn window_on_running_build_needs_two_seconds(sightings: Seq<Sighting>) -> (at: int)
    requires
        watch_end(sightings) == Some(WatchAction::OpenWindow { failure_code: None }),
    ensures
        0 <= at < sightings.len(),
        sightings[at] matches Sighting::Nothing { elapsed_millis } && elapsed_millis >= 2000,
{
    let at = lemma_ending(sightings);
    assert(action_on(sightings[at]) == WatchAction::OpenWindow { failure_code: None });
    at
}

} // verus!
