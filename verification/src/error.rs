//! Why a launch ends without success.

use vstd::prelude::*;
use vstd::string::*;
use crate::text::{decimal, decimal_tells_numbers_apart, push_decimal};
use crate::text::{join, joined, joined_holds_each, occurs, occurs_at, views};

verus! {

/// Why a launch ends without success.
#[derive(Debug)]
pub enum LaunchError {
    /// `mise` could not list the tasks; it wrote `stderr`.
    TaskListing { stderr: String },
    /// What `mise` wrote is not UTF-8.
    TaskEncoding(std::string::FromUtf8Error),
    /// What `mise` wrote is not JSON.
    TaskJson(serde_json::Error),
    /// None of the candidates for a task is among the discovered tasks.
    MissingTask { task_kind: String, candidates: Vec<String>, discovered: Vec<String> },
    /// The build task exited with a code that is not zero.
    BuildTaskFailed { exit_code: i32 },
    /// The build window was closed before the build task had exited.
    BuildCancelled,
    /// The run task exited with a code that is not zero soon after its start.
    RunTaskFailed { exit_code: i32 },
}

/// The message that stands for an error.
pub open spec fn message_of(error: LaunchError) -> Seq<char> {
    match error {
        LaunchError::TaskListing { stderr } => "Failed to list mise tasks: "@ + stderr@,
        LaunchError::TaskEncoding(_) => "mise task output was not valid UTF-8"@,
        LaunchError::TaskJson(_) => "Failed to parse mise task JSON"@,
        LaunchError::MissingTask { task_kind, candidates, discovered } => "Could not find a "@
            + task_kind@ + " task. Define one of: "@ + joined(views(candidates@), ", "@)
            + ". Discovered tasks: "@ + joined(views(discovered@), ", "@),
        LaunchError::BuildTaskFailed { exit_code } => "Build task failed with exit code "@
            + decimal(exit_code as int) + "."@,
        LaunchError::BuildCancelled => "Build cancelled."@,
        LaunchError::RunTaskFailed { exit_code } => "Run task exited with non-zero code "@
            + decimal(exit_code as int) + " within 2 seconds."@,
    }
}

impl LaunchError {
    /// The message that stands for the error.
    pub fn message(&self) -> (message: String)
        ensures
            message@ == message_of(*self),
    {
        let mut out = String::new();
        match self {
            LaunchError::TaskListing { stderr } => {
                out.append("Failed to list mise tasks: ");
                out.append(stderr.as_str());
            },
            LaunchError::TaskEncoding(_) => {
                out.append("mise task output was not valid UTF-8");
            },
            LaunchError::TaskJson(_) => {
                out.append("Failed to parse mise task JSON");
            },
            LaunchError::MissingTask { task_kind, candidates, discovered } => {
                out.append("Could not find a ");
                out.append(task_kind.as_str());
                out.append(" task. Define one of: ");
                out.append(join(candidates, ", ").as_str());
                out.append(". Discovered tasks: ");
                out.append(join(discovered, ", ").as_str());
            },
            LaunchError::BuildTaskFailed { exit_code } => {
                out.append("Build task failed with exit code ");
                push_decimal(&mut out, *exit_code);
                out.append(".");
            },
            LaunchError::BuildCancelled => {
                out.append("Build cancelled.");
            },
            LaunchError::RunTaskFailed { exit_code } => {
                out.append("Run task exited with non-zero code ");
                push_decimal(&mut out, *exit_code);
                out.append(" within 2 seconds.");
            },
        }
        out
    }
}

/// An error that has already been shown and needs no dialog of its own.
pub open spec fn already_shown(error: LaunchError) -> bool {
    error is BuildTaskFailed
}

/// Whether the error needs no dialog of its own: a failed build has already been shown in the build
/// window.
pub fn should_suppress_error_dialog(error: &LaunchError) -> (suppress: bool)
    ensures
        suppress == (error is BuildTaskFailed),
        suppress == already_shown(*error),
{
    match error {
        LaunchError::BuildTaskFailed { .. } => true,
        _ => false,
    }
}

/// The messages say what happened, with the exit code or the text that belongs to it.
pub proof fn messages_tell_what_happened(error: LaunchError)
    ensures
        error matches LaunchError::TaskListing { stderr } ==> message_of(error)
            == "Failed to list mise tasks: "@ + stderr@,
        error is TaskEncoding ==> message_of(error) == "mise task output was not valid UTF-8"@,
        error is TaskJson ==> message_of(error) == "Failed to parse mise task JSON"@,
        error matches LaunchError::BuildTaskFailed { exit_code } ==> message_of(error)
            == "Build task failed with exit code "@ + decimal(exit_code as int) + "."@,
        error is BuildCancelled ==> message_of(error) == "Build cancelled."@,
        error matches LaunchError::RunTaskFailed { exit_code } ==> message_of(error)
            == "Run task exited with non-zero code "@ + decimal(exit_code as int)
            + " within 2 seconds."@,
        error matches LaunchError::MissingTask { task_kind, candidates, discovered } ==> message_of(
            error,
        ) == "Could not find a "@ + task_kind@ + " task. Define one of: "@ + joined(
            views(candidates@),
            ", "@,
        ) + ". Discovered tasks: "@ + joined(views(discovered@), ", "@),
{
}

/// Failures with different exit codes have different messages.
pub proof fn messages_tell_exit_codes_apart(a: i32, b: i32)
    requires
        a != b,
    ensures
        message_of(LaunchError::BuildTaskFailed { exit_code: a }) != message_of(
            LaunchError::BuildTaskFailed { exit_code: b },
        ),
        message_of(LaunchError::RunTaskFailed { exit_code: a }) != message_of(
            LaunchError::RunTaskFailed { exit_code: b },
        ),
{
    if message_of(LaunchError::BuildTaskFailed { exit_code: a }) == message_of(
        LaunchError::BuildTaskFailed { exit_code: b },
    ) {
        lemma_middle_equal(
            "Build task failed with exit code "@,
            decimal(a as int),
            decimal(b as int),
            "."@,
        );
        decimal_tells_numbers_apart(a as int, b as int);
    }
    if message_of(LaunchError::RunTaskFailed { exit_code: a }) == message_of(
        LaunchError::RunTaskFailed { exit_code: b },
    ) {
        lemma_middle_equal(
            "Run task exited with non-zero code "@,
            decimal(a as int),
            decimal(b as int),
            " within 2 seconds."@,
        );
        decimal_tells_numbers_apart(a as int, b as int);
    }
}

/// Equal texts with the same beginning and the same end have the same middle.
proof fn lemma_middle_equal(front: Seq<char>, a: Seq<char>, b: Seq<char>, back: Seq<char>)
    requires
        front + a + back == front + b + back,
    ensures
        a == b,
{
    let x = front + a + back;
    let y = front + b + back;
    assert(x.len() == y.len());
    assert forall|i: int| 0 <= i < a.len() implies a[i] == b[i] by {
        assert(x[front.len() + i] == a[i]);
        assert(y[front.len() + i] == b[i]);
    }
    assert(a =~= b);
}

/// Each of the discovered tasks stands in the message about a missing one.
pub proof fn missing_message_lists_tasks(
    task_kind: String,
    candidates: Vec<String>,
    discovered: Vec<String>,
    i: int,
)
    requires
        0 <= i < discovered@.len(),
    ensures
        occurs(
            message_of(LaunchError::MissingTask { task_kind, candidates, discovered }),
            discovered@[i]@,
        ),
{
    let list = views(discovered@);
    let tail = joined(list, ", "@);
    let whole = message_of(LaunchError::MissingTask { task_kind, candidates, discovered });
    joined_holds_each(list, ", "@, i);
    let at = choose|at: int| occurs_at(tail, list[i], at);
    let start = whole.len() - tail.len();
    assert(whole.subrange(start + at, start + at + list[i].len()) =~= tail.subrange(
        at,
        at + list[i].len(),
    ));
    assert(occurs_at(whole, list[i], start + at));
}

/// Every error gets a dialog but a failed build, whatever its exit code.
pub proof fn only_failed_build_is_already_shown(error: LaunchError, exit_code: i32)
    ensures
        already_shown(LaunchError::BuildTaskFailed { exit_code }),
        error is TaskListing || error is TaskEncoding || error is TaskJson || error is MissingTask
            || error is BuildCancelled || error is RunTaskFailed ==> !already_shown(error),
{
}

} // verus!
