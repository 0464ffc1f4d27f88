//! Which of the discovered tasks build and run the project.

use vstd::prelude::*;
use vstd::utf8::*;
use crate::discovery::{discovered, list_mise_tasks, offered, reports_unlisted, CommandOutput};
use crate::discovery::{listed_task_is_found, listing_offers_what_it_names};
use crate::discovery::named_tasks_are_discovered;
use crate::error::{message_of, LaunchError};
use crate::names::{ascending, ascending_unique, TaskNames};
use crate::json::{json_of_text, JsonView};
use crate::text::{before, views};

verus! {

/// The characters of each string.
pub open spec fn texts(items: Seq<&str>) -> Seq<Seq<char>> {
    items.map_values(|s: &str| s@)
}

/// The first of the candidates that is among the tasks.
pub open spec fn first_offered(
    tasks: Set<Seq<char>>,
    candidates: Seq<Seq<char>>,
) -> Option<Seq<char>>
    decreases candidates.len(),
{
    if candidates.len() == 0 {
        None
    } else if tasks.contains(candidates[0]) {
        Some(candidates[0])
    } else {
        first_offered(tasks, candidates.drop_first())
    }
}

/// The error says that a task of that kind is missing: it holds the candidates and, in ascending
/// order, the tasks.
pub open spec fn reports_missing(
    error: LaunchError,
    tasks: Set<Seq<char>>,
    candidates: Seq<Seq<char>>,
    task_kind: Seq<char>,
) -> bool {
    &&& error matches LaunchError::MissingTask {
        task_kind: kind,
        candidates: tried,
        discovered: found,
    }
    &&& kind@ == task_kind
    &&& views(tried@) == candidates
    &&& ascending(views(found@))
    &&& views(found@).to_set() == tasks
}

/// The first of the candidates that is among the tasks, or the error that there is none.
pub fn resolve_task_name(
    tasks: &TaskNames,
    candidates: &[&str],
    task_kind: &str,
) -> (resolved: Result<String, LaunchError>)
    ensures
        match resolved {
            Ok(name) => first_offered(tasks@, texts(candidates@)) == Some(name@),
            Err(error) => {
                &&& first_offered(tasks@, texts(candidates@)) is None
                &&& reports_missing(error, tasks@, texts(candidates@), task_kind@)
            },
        },
{
    let ghost all = texts(candidates@);
    let mut tried: Vec<String> = Vec::new();
    let mut i: usize = 0;
    assert(all.skip(0) =~= all);
    while i < candidates.len()
        invariant
            all == texts(candidates@),
            i <= candidates@.len(),
            views(tried@) == all.take(i as int),
            first_offered(tasks@, all) == first_offered(tasks@, all.skip(i as int)),
        decreases candidates@.len() - i,
    {
        assert(all.skip(i as int)[0] == candidates@[i as int]@);
        assert(all.skip(i as int).drop_first() =~= all.skip(i + 1));
        if tasks.contains(candidates[i]) {
            return Ok(candidates[i].to_owned());
        }
        let ghost earlier = tried@;
        tried.push(candidates[i].to_owned());
        assert(views(tried@) =~= views(earlier).push(all[i as int]));
        assert(views(tried@) =~= all.take(i + 1));
        i = i + 1;
    }
    assert(all.take(i as int) =~= all);
    Err(
        LaunchError::MissingTask {
            task_kind: task_kind.to_owned(),
            candidates: tried,
            discovered: tasks.sorted(),
        },
    )
}

/// The tasks that build and run a project.
#[derive(Debug)]
pub struct ProjectTasks {
    pub build_task: String,
    pub run_task: String,
}

/// The candidates for the task that builds the project, the preferred one first.
pub open spec fn build_candidates() -> Seq<Seq<char>> {
    seq!["_launch_director_build"@, "build"@]
}

/// The candidates for the task that runs the project, the preferred one first.
pub open spec fn run_candidates() -> Seq<Seq<char>> {
    seq!["_launch_director_run"@, "run"@]
}

/// The outcome of picking, out of the tasks that a project offers, the one that builds and the one
/// that runs it. A missing build task is reported before a missing run task.
pub open spec fn picks(
    tasks: Set<Seq<char>>,
    picked: Result<ProjectTasks, LaunchError>,
) -> bool {
    match picked {
        Ok(project) => {
            &&& first_offered(tasks, build_candidates()) == Some(project.build_task@)
            &&& first_offered(tasks, run_candidates()) == Some(project.run_task@)
        },
        Err(error) => if first_offered(tasks, build_candidates()) is None {
            reports_missing(error, tasks, build_candidates(), "build"@)
        } else {
            &&& first_offered(tasks, run_candidates()) is None
            &&& reports_missing(error, tasks, run_candidates(), "run"@)
        },
    }
}

/// Picks, out of the tasks that a project offers, the one that builds and the one that runs it.
pub fn pick_project_tasks(tasks: &TaskNames) -> (picked: Result<ProjectTasks, LaunchError>)
    ensures
        picks(tasks@, picked),
{
    let build: [&str; 2] = ["_launch_director_build", "build"];
    let run: [&str; 2] = ["_launch_director_run", "run"];
    assert(texts(build@) =~= build_candidates());
    assert(texts(run@) =~= run_candidates());
    match resolve_task_name(tasks, build.as_slice(), "build") {
        Err(error) => Err(error),
        Ok(build_task) => match resolve_task_name(tasks, run.as_slice(), "run") {
            Err(error) => Err(error),
            Ok(run_task) => Ok(ProjectTasks { build_task, run_task }),
        },
    }
}

/// Picks the tasks that build and run a project, given the output of
/// `mise tasks ls --local --json` in its directory.
pub fn resolve_project_tasks(output: CommandOutput) -> (resolved: Result<
    ProjectTasks,
    LaunchError,
>)
    ensures
        match offered(output) {
            Some(tasks) => picks(tasks, resolved),
            None => resolved matches Err(error) && reports_unlisted(error, output),
        },
{
    match list_mise_tasks(output) {
        Ok(tasks) => pick_project_tasks(&tasks),
        Err(error) => Err(error),
    }
}

/// A resolved task is a candidate that the project offers, and no candidate in front of it is
/// offered. Nothing is resolved exactly where no candidate is offered.
pub proof fn resolved_is_first_offered(tasks: Set<Seq<char>>, candidates: Seq<Seq<char>>)
    ensures
        match first_offered(tasks, candidates) {
            Some(name) => exists|at: int|
                0 <= at < candidates.len() && #[trigger] candidates[at] == name && tasks.contains(
                    name,
                ) && forall|i: int| 0 <= i < at ==> !tasks.contains(#[trigger] candidates[i]),
            None => forall|i: int|
                0 <= i < candidates.len() ==> !tasks.contains(#[trigger] candidates[i]),
        },
    decreases candidates.len(),
{
    if candidates.len() > 0 {
        let rest = candidates.drop_first();
        if tasks.contains(candidates[0]) {
            assert(candidates[0] == first_offered(tasks, candidates)->Some_0);
        } else {
            resolved_is_first_offered(tasks, rest);
            match first_offered(tasks, rest) {
                Some(name) => {
                    let at = choose|at: int|
                        0 <= at < rest.len() && #[trigger] rest[at] == name && tasks.contains(name)
                            && forall|i: int| 0 <= i < at ==> !tasks.contains(#[trigger] rest[i]);
                    assert forall|i: int| 0 <= i < at + 1 implies !tasks.contains(
                        #[trigger] candidates[i],
                    ) by {
                        if i > 0 {
                            assert(candidates[i] == rest[i - 1]);
                        }
                    }
                    assert(candidates[at + 1] == name);
                },
                None => {
                    assert forall|i: int| 0 <= i < candidates.len() implies !tasks.contains(
                        #[trigger] candidates[i],
                    ) by {
                        if i > 0 {
                            assert(candidates[i] == rest[i - 1]);
                        }
                    }
                },
            }
        }
    }
}

/// The launcher's own tasks come first: `_launch_director_build` before `build`, and
/// `_launch_director_run` before `run`.
pub proof fn own_tasks_come_first(tasks: Set<Seq<char>>)
    ensures
        first_offered(tasks, build_candidates()) == (if tasks.contains(
            "_launch_director_build"@,
        ) {
            Some("_launch_director_build"@)
        } else if tasks.contains("build"@) {
            Some("build"@)
        } else {
            None
        }),
        first_offered(tasks, run_candidates()) == (if tasks.contains("_launch_director_run"@) {
            Some("_launch_director_run"@)
        } else if tasks.contains("run"@) {
            Some("run"@)
        } else {
            None
        }),
{
    reveal_with_fuel(first_offered, 3);
}

/// A project that offers one of the build tasks and one of the run tasks can be launched, whatever
/// else it offers.
pub proof fn launchable_project_resolves(
    tasks: Set<Seq<char>>,
    picked: Result<ProjectTasks, LaunchError>,
)
    requires
        tasks.contains("_launch_director_build"@) || tasks.contains("build"@),
        tasks.contains("_launch_director_run"@) || tasks.contains("run"@),
        picks(tasks, picked),
    ensures
        picked is Ok,
{
    own_tasks_come_first(tasks);
}

/// The message about a missing task depends on the set of tasks alone, not on the order in which they
/// were discovered.
pub proof fn missing_message_is_determined(
    one: LaunchError,
    other: LaunchError,
    tasks: Set<Seq<char>>,
    candidates: Seq<Seq<char>>,
    task_kind: Seq<char>,
)
    requires
        reports_missing(one, tasks, candidates, task_kind),
        reports_missing(other, tasks, candidates, task_kind),
    ensures
        message_of(one) == message_of(other),
{
    ascending_unique(views(one->discovered@), views(other->discovered@));
}

/// The characters of each string stand in their places.
pub proof fn texts_keep_places(items: Seq<&str>, i: int)
    requires
        0 <= i < items.len(),
    ensures
        texts(items).len() == items.len(),
        texts(items)[i] == items[i]@,
{
}

/// The picked tasks follow the preference, each for itself: the launcher's own task where the project
/// offers it, the plain one otherwise, and both are offered.
pub proof fn picked_tasks_follow_preference(
    tasks: Set<Seq<char>>,
    picked: Result<ProjectTasks, LaunchError>,
)
    requires
        picks(tasks, picked),
    ensures
        picked matches Ok(project) ==> {
            &&& project.build_task@ == (if tasks.contains("_launch_director_build"@) {
                "_launch_director_build"@
            } else {
                "build"@
            })
            &&& project.run_task@ == (if tasks.contains("_launch_director_run"@) {
                "_launch_director_run"@
            } else {
                "run"@
            })
            &&& tasks.contains(project.build_task@)
            &&& tasks.contains(project.run_task@)
        },
        picked is Ok <==> {
            &&& tasks.contains("_launch_director_build"@) || tasks.contains("build"@)
            &&& tasks.contains("_launch_director_run"@) || tasks.contains("run"@)
        },
{
    own_tasks_come_first(tasks);
}

/// Where a task is missing, the error tells which one, what it could have been called and, in ascending
/// order, all that the project offers. A missing build task is told before a missing run task.
pub proof fn missing_task_is_told(tasks: Set<Seq<char>>, error: LaunchError)
    requires
        picks(tasks, Err(error)),
    ensures
        error matches LaunchError::MissingTask { task_kind, candidates, discovered } && {
            &&& !tasks.contains("_launch_director_build"@) && !tasks.contains("build"@) ==> {
                &&& task_kind@ == "build"@
                &&& views(candidates@) == seq!["_launch_director_build"@, "build"@]
            }
            &&& tasks.contains("_launch_director_build"@) || tasks.contains("build"@) ==> {
                &&& !tasks.contains("_launch_director_run"@) && !tasks.contains("run"@)
                &&& task_kind@ == "run"@
                &&& views(candidates@) == seq!["_launch_director_run"@, "run"@]
            }
            &&& forall|name: Seq<char>|
                tasks.contains(name) <==> #[trigger] views(discovered@).contains(name)
            &&& forall|i: int, j: int|
                0 <= i < j < discovered@.len() ==> before(
                    (#[trigger] discovered@[i])@,
                    (#[trigger] discovered@[j])@,
                )
        },
{
    own_tasks_come_first(tasks);
    match error {
        LaunchError::MissingTask { task_kind, candidates, discovered } => {
            let found = views(discovered@);
            assert forall|name: Seq<char>|
                tasks.contains(name) <==> #[trigger] found.contains(name) by {
                assert(found.to_set().contains(name) == found.contains(name));
            }
            assert forall|i: int, j: int| 0 <= i < j < discovered@.len() implies before(
                (#[trigger] discovered@[i])@,
                (#[trigger] discovered@[j])@,
            ) by {
                assert(before(found[i], found[j]));
            }
        },
        _ => {},
    }
}

/// A missing task of any kind is told with the kind, the candidates and the tasks that were asked about.
pub proof fn missing_report_is_complete(
    error: LaunchError,
    tasks: Set<Seq<char>>,
    candidates: Seq<Seq<char>>,
    task_kind: Seq<char>,
    name: Seq<char>,
)
    requires
        reports_missing(error, tasks, candidates, task_kind),
    ensures
        error matches LaunchError::MissingTask {
            task_kind: kind,
            candidates: tried,
            discovered: found,
        } && kind@ == task_kind && views(tried@) == candidates && (tasks.contains(name) <==> views(
            found@,
        ).contains(name)),
{
    assert(views(error->discovered@).to_set().contains(name) == views(
        error->discovered@,
    ).contains(name));
}

/// A project whose listing has the launcher's own tasks by their names is built and run with them,
/// whatever else the listing has.
pub proof fn listed_own_tasks_are_picked(
    output: CommandOutput,
    items: Seq<JsonView>,
    build: (int, int),
    run: (int, int),
    resolved: Result<ProjectTasks, LaunchError>,
)
    requires
        output.success,
        valid_utf8(output.stdout@),
        json_of_text(decode_utf8(output.stdout@)) == Ok::<JsonView, serde_json::Error>(
            JsonView::Array(items),
        ),
        0 <= build.0 < items.len(),
        items[build.0] matches JsonView::Object(members) && 0 <= build.1 < members.len()
            && members[build.1] == ("name"@, JsonView::Text("_launch_director_build"@)),
        0 <= run.0 < items.len(),
        items[run.0] matches JsonView::Object(members) && 0 <= run.1 < members.len()
            && members[run.1] == ("name"@, JsonView::Text("_launch_director_run"@)),
        match offered(output) {
            Some(tasks) => picks(tasks, resolved),
            None => resolved matches Err(error) && reports_unlisted(error, output),
        },
    ensures
        resolved matches Ok(project) && project.build_task@ == "_launch_director_build"@
            && project.run_task@ == "_launch_director_run"@,
{
    let value = JsonView::Array(items);
    let raw = decode_utf8(output.stdout@);
    listed_task_is_found(
        items,
        build.0,
        items[build.0]->Object_0,
        build.1,
        "_launch_director_build"@,
    );
    listed_task_is_found(items, run.0, items[run.0]->Object_0, run.1, "_launch_director_run"@);
    named_tasks_are_discovered(value, raw, "_launch_director_build"@);
    named_tasks_are_discovered(value, raw, "_launch_director_run"@);
    listing_offers_what_it_names(output);
    picked_tasks_follow_preference(discovered(value, raw), resolved);
}

} // verus!
