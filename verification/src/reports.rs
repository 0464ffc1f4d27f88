//! The windows that report a failure.

use vstd::prelude::*;
use vstd::string::*;
use crate::text::{decimal, decimal_tells_numbers_apart, push_decimal};

verus! {

/// The dialog that shows an error.
#[derive(Debug)]
pub struct ErrorDialogApp {
    pub message: String,
}

impl ErrorDialogApp {
    pub fn new(message: String) -> (app: Self)
        ensures
            app.message@ == message@,
    {
        ErrorDialogApp { message }
    }
}

/// The status line of the window that shows a failed run.
pub open spec fn run_failure_line(project_name: Seq<char>, exit_code: i32) -> Seq<char> {
    project_name + " exited with code "@ + decimal(exit_code as int)
}

/// The window that shows what a failed run wrote.
#[derive(Debug)]
pub struct FailureWindowApp {
    pub project_name: String,
    pub output: String,
    pub exit_code: i32,
}

impl FailureWindowApp {
    pub fn new(project_name: String, exit_code: i32, output: String) -> (app: Self)
        ensures
            app.project_name@ == project_name@,
            app.output@ == output@,
            app.exit_code == exit_code,
    {
        FailureWindowApp { project_name, output, exit_code }
    }

    /// The status line.
    pub fn status_text(&self) -> (text: String)
        ensures
            text@ == self.project_name@ + " exited with code "@ + decimal(self.exit_code as int),
            text@ == run_failure_line(self.project_name@, self.exit_code),
    {
        let mut text = self.project_name.clone();
        text.append(" exited with code ");
        push_decimal(&mut text, self.exit_code);
        text
    }
}

/// The title of the window that shows a failed run.
pub fn run_failure_window_title(project_name: &str) -> (title: String)
    ensures
        title@ == "Launch Director - "@ + project_name@ + " - Run Failure"@,
{
    let mut title = String::new();
    title.append("Launch Director - ");
    title.append(project_name);
    title.append(" - Run Failure");
    title
}

/// The status line begins with the project's name and ends with the exit code, and different exit codes
/// have different status lines.
pub proof fn run_failure_line_tells_code(project_name: Seq<char>, a: i32, b: i32)
    ensures
        run_failure_line(project_name, a) == project_name + " exited with code "@ + decimal(a as int),
        run_failure_line(project_name, a) == run_failure_line(project_name, b) ==> a == b,
{
    if run_failure_line(project_name, a) == run_failure_line(project_name, b) {
        let x = run_failure_line(project_name, a);
        let y = run_failure_line(project_name, b);
        let front = (project_name + " exited with code "@).len();
        assert(x.skip(front as int) =~= decimal(a as int));
        assert(y.skip(front as int) =~= decimal(b as int));
        decimal_tells_numbers_apart(a as int, b as int);
    }
}

} // verus!
