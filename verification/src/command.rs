//! The `mise` commands that a launch runs, each in the project's directory.

use vstd::prelude::*;
use crate::text::views;

verus! {

/// A program and its arguments.
#[derive(Debug)]
pub struct CommandLine {
    pub program: String,
    pub args: Vec<String>,
}

/// The arguments with which `mise` runs a task.
pub open spec fn run_task_args(task: Seq<char>) -> Seq<Seq<char>> {
    seq!["run"@, task]
}

/// The command that lists the project's own tasks as JSON.
pub fn list_tasks_command() -> (command: CommandLine)
    ensures
        command.program@ == "mise"@,
        views(command.args@) == seq!["tasks"@, "ls"@, "--local"@, "--json"@],
{
    let mut args: Vec<String> = Vec::new();
    args.push("tasks".to_owned());
    args.push("ls".to_owned());
    args.push("--local".to_owned());
    args.push("--json".to_owned());
    assert(views(args@) =~= seq!["tasks"@, "ls"@, "--local"@, "--json"@]);
    CommandLine { program: "mise".to_owned(), args }
}

/// The command that runs a task.
pub fn run_task_command(task: &str) -> (command: CommandLine)
    ensures
        command.program@ == "mise"@,
        views(command.args@) == seq!["run"@, task@],
        views(command.args@) == run_task_args(task@),
{
    let mut args: Vec<String> = Vec::new();
    args.push("run".to_owned());
    args.push(task.to_owned());
    assert(views(args@) =~= seq!["run"@, task@]);
    CommandLine { program: "mise".to_owned(), args }
}

/// Whatever the task is called, `mise` is asked to run that task and is given nothing else.
pub proof fn task_is_run_by_name(one: Seq<char>, other: Seq<char>)
    ensures
        run_task_args(one).len() == 2,
        run_task_args(one)[0] == "run"@,
        run_task_args(one)[1] == one,
        run_task_args(one) == run_task_args(other) ==> one == other,
{
    if run_task_args(one) == run_task_args(other) {
        assert(run_task_args(one)[1] == run_task_args(other)[1]);
    }
}

} // verus!
