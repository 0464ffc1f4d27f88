//! Task discovery: the names in what `mise tasks ls --local --json` prints.

use vstd::prelude::*;
use vstd::string::*;
use vstd::utf8::*;
use crate::encoding::{lossy_text, text_from_utf8, text_from_utf8_lossy, utf8_error};
use crate::error::LaunchError;
use crate::json::{json_of_text, parse_json, Json, JsonView};
use crate::names::TaskNames;
use crate::text::{contains, occurs, occurs_is_being_between, same};

verus! {

/// An object with a member of that name.
pub open spec fn has_member(value: JsonView, key: Seq<char>) -> bool {
    value matches JsonView::Object(members) && exists|i: int|
        0 <= i < members.len() && (#[trigger] members[i]).0 == key
}

/// An object that says how a task runs, what else it is called or what it is for.
pub open spec fn task_like(value: JsonView) -> bool {
    has_member(value, "run"@) || has_member(value, "alias"@) || has_member(value, "description"@)
}

/// A member that gives `name` as a task's name: it is called `name` itself and describes a task, or
/// it is the member "name" and holds `name` as a string.
pub open spec fn member_names(member: (Seq<char>, JsonView), name: Seq<char>) -> bool {
    ||| member.0 == name && task_like(member.1)
    ||| member.0 == "name"@ && member.1 == JsonView::Text(name)
}

/// Somewhere in the value, at whatever depth, a member of an object gives `name` as a task's name.
pub open spec fn mentions(value: JsonView, name: Seq<char>) -> bool
    decreases value,
{
    match value {
        JsonView::Array(items) => exists|i: int|
            0 <= i < items.len() && mentions(#[trigger] items[i], name),
        JsonView::Object(members) => exists|i: int|
            0 <= i < members.len() && (member_names(#[trigger] members[i], name) || mentions(
                members[i].1,
                name,
            )),
        _ => false,
    }
}

/// The task names in a JSON value.
pub open spec fn collected(value: JsonView) -> Set<Seq<char>> {
    Set::new(|name: Seq<char>| mentions(value, name))
}

/// Whether `value` is an object with a member `key`.
fn is_object_with(value: &Json, key: &str) -> (found: bool)
    ensures
        found == has_member(value@, key@),
{
    if let Json::Object(members) = value {
        let ghost parts = value@->Object_0;
        let mut i: usize = 0;
        while i < members.len()
            invariant
                i <= members@.len(),
                *value == Json::Object(*members),
                value@ == JsonView::Object(parts),
                parts.len() == members@.len(),
                forall|j: int| 0 <= j < i ==> (#[trigger] parts[j]).0 != key@,
            decreases members@.len() - i,
        {
            assert(parts[i as int].0 == members@[i as int].0@);
            if same(members[i].0.as_str(), key) {
                assert(value@->Object_0[i as int].0 == key@);
                return true;
            }
            i = i + 1;
        }
        false
    } else {
        false
    }
}

/// Whether `value` describes a task.
fn is_task_like(value: &Json) -> (found: bool)
    ensures
        found == task_like(value@),
{
    is_object_with(value, "run") || is_object_with(value, "alias") || is_object_with(
        value,
        "description",
    )
}

/// Collects the task names in `value` into `names`.
pub fn collect_task_names(value: &Json, names: &mut TaskNames)
    ensures
        final(names)@ == old(names)@.union(collected(value@)),
    decreases value,
{
    let ghost known = names@;
    match value {
        Json::Array(items) => {
            let ghost parts = value@->Array_0;
            let mut i: usize = 0;
            while i < items.len()
                invariant
                    i <= items@.len(),
                    *value == Json::Array(*items),
                    value@ == JsonView::Array(parts),
                    forall|n: Seq<char>| #[trigger]
                        names@.contains(n) <==> known.contains(n) || exists|j: int|
                            0 <= j < i && mentions(#[trigger] parts[j], n),
                decreases items@.len() - i,
            {
                assert(parts[i as int] == items@[i as int]@);
                collect_task_names(&items[i], names);
                i = i + 1;
            }
            assert(names@ =~= known.union(collected(value@)));
        },
        Json::Object(members) => {
            let ghost parts = value@->Object_0;
            let mut i: usize = 0;
            while i < members.len()
                invariant
                    i <= members@.len(),
                    *value == Json::Object(*members),
                    value@ == JsonView::Object(parts),
                    forall|n: Seq<char>| #[trigger]
                        names@.contains(n) <==> known.contains(n) || exists|j: int|
                            0 <= j < i && (member_names(#[trigger] parts[j], n) || mentions(
                                parts[j].1,
                                n,
                            )),
                decreases members@.len() - i,
            {
                let key: &String = &members[i].0;
                let part: &Json = &members[i].1;
                assert(parts[i as int] == (key@, part@));
                if same(key.as_str(), "name") {
                    if let Json::Text(name) = part {
                        names.insert(name.clone());
                    }
                }
                if is_task_like(part) {
                    names.insert(key.clone());
                }
                collect_task_names(part, names);
                i = i + 1;
            }
            assert(names@ =~= known.union(collected(value@)));
        },
        _ => {
            assert(names@ =~= known.union(collected(value@)));
        },
    }
}

/// The names that the launcher itself looks for.
pub open spec fn sought(name: Seq<char>) -> bool {
    ||| name == "_launch_director_build"@
    ||| name == "_launch_director_run"@
    ||| name == "build"@
    ||| name == "run"@
}

/// A string in double quotes.
pub open spec fn quoted(name: Seq<char>) -> Seq<char> {
    seq!['"'] + name + seq!['"']
}

/// The tasks that a listing offers, given its text and the JSON value that the text holds: those
/// that the value names or, where it names none, the sought ones that the text holds in quotes.
pub open spec fn discovered(value: JsonView, raw: Seq<char>) -> Set<Seq<char>> {
    if collected(value) == Set::<Seq<char>>::empty() {
        Set::new(|name: Seq<char>| sought(name) && occurs(raw, quoted(name)))
    } else {
        collected(value)
    }
}

/// Puts `name` into `names` where `raw` holds it in quotes.
fn insert_if_quoted(raw: &str, name: &str, names: &mut TaskNames)
    ensures
        final(names)@ == (if occurs(raw@, quoted(name@)) {
            old(names)@.insert(name@)
        } else {
            old(names)@
        }),
{
    proof {
        reveal_strlit("\"");
    }
    let mut needle = String::new();
    needle.append("\"");
    needle.append(name);
    needle.append("\"");
    assert(needle@ =~= quoted(name@));
    if contains(raw, needle.as_str()) {
        names.insert(name.to_owned());
    }
}

/// The tasks that a listing offers, given its text and the JSON value that the text holds.
pub fn discover_tasks(value: &Json, raw: &str) -> (names: TaskNames)
    ensures
        names@ == discovered(value@, raw@),
{
    let mut names = TaskNames::new();
    collect_task_names(value, &mut names);
    assert(names@ =~= collected(value@));
    if names.is_empty() {
        insert_if_quoted(raw, "_launch_director_build", &mut names);
        insert_if_quoted(raw, "_launch_director_run", &mut names);
        insert_if_quoted(raw, "build", &mut names);
        insert_if_quoted(raw, "run", &mut names);
        assert(names@ =~= discovered(value@, raw@));
    }
    names
}

/// How a command ended and what it wrote.
#[derive(Debug)]
pub struct CommandOutput {
    pub success: bool,
    pub stdout: Vec<u8>,
    pub stderr: Vec<u8>,
}

/// The tasks that the output of `mise tasks ls --local --json` offers: none where the command
/// failed, or where what it wrote is not UTF-8 or not JSON.
pub open spec fn offered(output: CommandOutput) -> Option<Set<Seq<char>>> {
    let raw = decode_utf8(output.stdout@);
    if output.success && valid_utf8(output.stdout@) {
        match json_of_text(raw) {
            Ok(value) => Some(discovered(value, raw)),
            Err(_) => None,
        }
    } else {
        None
    }
}

/// The error says why the output offers no tasks. What a failed command wrote to its standard error
/// is kept, as it is where it is UTF-8.
pub open spec fn reports_unlisted(error: LaunchError, output: CommandOutput) -> bool {
    if !output.success {
        error matches LaunchError::TaskListing { stderr } && stderr@ == lossy_text(output.stderr@)
            && (valid_utf8(output.stderr@) ==> stderr@ == decode_utf8(output.stderr@))
    } else if !valid_utf8(output.stdout@) {
        error == LaunchError::TaskEncoding(utf8_error(output.stdout@))
    } else {
        error matches LaunchError::TaskJson(cause) && json_of_text(decode_utf8(output.stdout@))
            == Err::<JsonView, serde_json::Error>(cause)
    }
}

/// The tasks that the output of `mise tasks ls --local --json` offers, or the error that says why
/// there are none.
pub fn list_mise_tasks(output: CommandOutput) -> (listed: Result<TaskNames, LaunchError>)
    ensures
        match listed {
            Ok(names) => offered(output) == Some(names@),
            Err(error) => offered(output) is None && reports_unlisted(error, output),
        },
{
    if !output.success {
        return Err(
            LaunchError::TaskListing { stderr: text_from_utf8_lossy(output.stderr.as_slice()) },
        );
    }
    let raw = match text_from_utf8(output.stdout) {
        Ok(raw) => raw,
        Err(error) => return Err(LaunchError::TaskEncoding(error)),
    };
    match parse_json(raw.as_str()) {
        Ok(value) => Ok(discover_tasks(&value, raw.as_str())),
        Err(error) => Err(LaunchError::TaskJson(error)),
    }
}

/// What an item mentions, the array mentions.
proof fn lemma_item_mentions(items: Seq<JsonView>, at: int, name: Seq<char>)
    requires
        0 <= at < items.len(),
        mentions(items[at], name),
    ensures
        mentions(JsonView::Array(items), name),
{
    let value = JsonView::Array(items);
    assert(mentions(value->Array_0[at], name));
}

/// What a member names or its value mentions, the object mentions.
proof fn lemma_member_mentions(members: Seq<(Seq<char>, JsonView)>, at: int, name: Seq<char>)
    requires
        0 <= at < members.len(),
        member_names(members[at], name) || mentions(members[at].1, name),
    ensures
        mentions(JsonView::Object(members), name),
{
    let value = JsonView::Object(members);
    assert(member_names(value->Object_0[at], name) || mentions(value->Object_0[at].1, name));
}

/// An array mentions a name only where one of its items does.
proof fn lemma_mentioning_item(items: Seq<JsonView>, name: Seq<char>) -> (at: int)
    requires
        mentions(JsonView::Array(items), name),
    ensures
        0 <= at < items.len(),
        mentions(items[at], name),
{
    choose|i: int| 0 <= i < items.len() && mentions(#[trigger] items[i], name)
}

/// The names in an array are those in its items: a longer array has the names of both its parts.
pub proof fn array_names_add_up(front: Seq<JsonView>, back: Seq<JsonView>)
    ensures
        collected(JsonView::Array(front + back)) == collected(JsonView::Array(front)).union(
            collected(JsonView::Array(back)),
        ),
{
    let all = front + back;
    assert forall|name: Seq<char>| #[trigger]
        mentions(JsonView::Array(all), name) == (mentions(JsonView::Array(front), name) || mentions(
            JsonView::Array(back),
            name,
        )) by {
        if mentions(JsonView::Array(all), name) {
            let i = lemma_mentioning_item(all, name);
            if i < front.len() {
                lemma_item_mentions(front, i, name);
            } else {
                lemma_item_mentions(back, i - front.len(), name);
            }
        }
        if mentions(JsonView::Array(front), name) {
            let i = lemma_mentioning_item(front, name);
            assert(all[i] == front[i]);
            lemma_item_mentions(all, i, name);
        }
        if mentions(JsonView::Array(back), name) {
            let i = lemma_mentioning_item(back, name);
            assert(all[i + front.len()] == back[i]);
            lemma_item_mentions(all, i + front.len(), name);
        }
    }
    assert(collected(JsonView::Array(all)) =~= collected(JsonView::Array(front)).union(
        collected(JsonView::Array(back)),
    ));
}

/// The names in the value of a member, such as `tasks`, are among those in the object.
pub proof fn member_names_are_found(members: Seq<(Seq<char>, JsonView)>, at: int)
    requires
        0 <= at < members.len(),
    ensures
        collected(members[at].1).subset_of(collected(JsonView::Object(members))),
{
    assert forall|name: Seq<char>| #[trigger] mentions(members[at].1, name) implies mentions(
        JsonView::Object(members),
        name,
    ) by {
        lemma_member_mentions(members, at, name);
    }
}

/// A task in a list of objects is found by the `name` of its object.
pub proof fn listed_task_is_found(
    items: Seq<JsonView>,
    at: int,
    members: Seq<(Seq<char>, JsonView)>,
    member: int,
    name: Seq<char>,
)
    requires
        0 <= at < items.len(),
        items[at] == JsonView::Object(members),
        0 <= member < members.len(),
        members[member] == ("name"@, JsonView::Text(name)),
    ensures
        collected(JsonView::Array(items)).contains(name),
{
    lemma_member_mentions(members, member, name);
    lemma_item_mentions(items, at, name);
}

/// A task in an object of tasks is found by the name of its member, where its value describes a task.
pub proof fn keyed_task_is_found(members: Seq<(Seq<char>, JsonView)>, member: int)
    requires
        0 <= member < members.len(),
        task_like(members[member].1),
    ensures
        collected(JsonView::Object(members)).contains(members[member].0),
{
    lemma_member_mentions(members, member, members[member].0);
}

/// The text of a listing is searched only where its JSON value names no task, and then no task is
/// discovered that the launcher does not look for.
pub proof fn text_counts_only_without_names(value: JsonView, raw: Seq<char>, name: Seq<char>)
    requires
        discovered(value, raw).contains(name),
    ensures
        collected(value).contains(name) || (collected(value) == Set::<Seq<char>>::empty()
            && sought(name) && occurs(raw, quoted(name))),
{
}

/// An object mentions a name only where one of its members names it or holds a value that mentions it.
proof fn lemma_mentioning_member(members: Seq<(Seq<char>, JsonView)>, name: Seq<char>) -> (at: int)
    requires
        mentions(JsonView::Object(members), name),
    ensures
        0 <= at < members.len(),
        member_names(members[at], name) || mentions(members[at].1, name),
{
    choose|i: int|
        0 <= i < members.len() && (member_names(#[trigger] members[i], name) || mentions(
            members[i].1,
            name,
        ))
}

/// No task is named by a value that is neither an array nor an object, nor by an empty one.
pub proof fn scalars_name_nothing(b: bool, s: Seq<char>)
    ensures
        collected(JsonView::Null) == Set::<Seq<char>>::empty(),
        collected(JsonView::Bool(b)) == Set::<Seq<char>>::empty(),
        collected(JsonView::Number) == Set::<Seq<char>>::empty(),
        collected(JsonView::Text(s)) == Set::<Seq<char>>::empty(),
        collected(JsonView::Array(Seq::empty())) == Set::<Seq<char>>::empty(),
        collected(JsonView::Object(Seq::empty())) == Set::<Seq<char>>::empty(),
{
    assert(collected(JsonView::Null) =~= Set::<Seq<char>>::empty());
    assert(collected(JsonView::Bool(b)) =~= Set::<Seq<char>>::empty());
    assert(collected(JsonView::Number) =~= Set::<Seq<char>>::empty());
    assert(collected(JsonView::Text(s)) =~= Set::<Seq<char>>::empty());
    assert(collected(JsonView::Array(Seq::empty())) =~= Set::<Seq<char>>::empty());
    assert(collected(JsonView::Object(Seq::empty())) =~= Set::<Seq<char>>::empty());
}

/// An array of one item names what the item names.
pub proof fn single_item_names(item: JsonView)
    ensures
        collected(JsonView::Array(seq![item])) == collected(item),
{
    let items = seq![item];
    assert forall|name: Seq<char>| #[trigger] mentions(JsonView::Array(items), name) == mentions(
        item,
        name,
    ) by {
        if mentions(JsonView::Array(items), name) {
            let at = lemma_mentioning_item(items, name);
        }
        if mentions(item, name) {
            assert(items[0] == item);
            lemma_item_mentions(items, 0, name);
        }
    }
    assert(collected(JsonView::Array(items)) =~= collected(item));
}

/// A larger object names what both its parts name.
pub proof fn object_names_add_up(
    front: Seq<(Seq<char>, JsonView)>,
    back: Seq<(Seq<char>, JsonView)>,
)
    ensures
        collected(JsonView::Object(front + back)) == collected(JsonView::Object(front)).union(
            collected(JsonView::Object(back)),
        ),
{
    let all = front + back;
    assert forall|name: Seq<char>| #[trigger]
        mentions(JsonView::Object(all), name) == (mentions(JsonView::Object(front), name)
            || mentions(JsonView::Object(back), name)) by {
        if mentions(JsonView::Object(all), name) {
            let i = lemma_mentioning_member(all, name);
            if i < front.len() {
                lemma_member_mentions(front, i, name);
            } else {
                lemma_member_mentions(back, i - front.len(), name);
            }
        }
        if mentions(JsonView::Object(front), name) {
            let i = lemma_mentioning_member(front, name);
            assert(all[i] == front[i]);
            lemma_member_mentions(all, i, name);
        }
        if mentions(JsonView::Object(back), name) {
            let i = lemma_mentioning_member(back, name);
            assert(all[i + front.len()] == back[i]);
            lemma_member_mentions(all, i + front.len(), name);
        }
    }
    assert(collected(JsonView::Object(all)) =~= collected(JsonView::Object(front)).union(
        collected(JsonView::Object(back)),
    ));
}

/// An object of one member names what the member's value names, the string that a member `name` holds,
/// and the member itself where its value is an object with a member `run`, `alias` or `description`. It
/// names nothing else.
pub proof fn single_member_names(key: Seq<char>, value: JsonView, name: Seq<char>)
    ensures
        collected(JsonView::Object(seq![(key, value)])).contains(name) <==> ({
            ||| collected(value).contains(name)
            ||| key == "name"@ && value == JsonView::Text(name)
            ||| key == name && (value matches JsonView::Object(parts) && exists|i: int|
                0 <= i < parts.len() && ((#[trigger] parts[i]).0 == "run"@ || parts[i].0 == "alias"@
                    || parts[i].0 == "description"@))
        }),
{
    let members = seq![(key, value)];
    if mentions(JsonView::Object(members), name) {
        let at = lemma_mentioning_member(members, name);
        assert(members[at] == (key, value));
    }
    if member_names((key, value), name) || mentions(value, name) {
        assert(members[0] == (key, value));
        lemma_member_mentions(members, 0, name);
    }
    if value is Object {
        let parts = value->Object_0;
        assert(task_like(value) <==> exists|i: int|
            0 <= i < parts.len() && ((#[trigger] parts[i]).0 == "run"@ || parts[i].0 == "alias"@
                || parts[i].0 == "description"@));
    }
}

/// Exactly these tasks are discovered: every one that the value names and, where it names none, every
/// one of the four that the launcher looks for whose name stands in quotes in the text.
pub proof fn named_tasks_are_discovered(value: JsonView, raw: Seq<char>, name: Seq<char>)
    ensures
        collected(value).contains(name) ==> discovered(value, raw).contains(name),
        collected(value) == Set::<Seq<char>>::empty() ==> (discovered(value, raw).contains(name) <==> ({
            &&& {
                ||| name == "_launch_director_build"@
                ||| name == "_launch_director_run"@
                ||| name == "build"@
                ||| name == "run"@
            }
            &&& exists|front: Seq<char>, back: Seq<char>|
                raw == #[trigger] (front + (seq!['"'] + name + seq!['"']) + back)
        })),
        discovered(value, raw).contains(name) && !collected(value).contains(name) ==> collected(value)
            == Set::<Seq<char>>::empty(),
{
    occurs_is_being_between(raw, seq!['"'] + name + seq!['"']);
}

/// Where the value names a task, the text does not matter.
pub proof fn text_does_not_matter_with_names(value: JsonView, one: Seq<char>, other: Seq<char>)
    requires
        collected(value) != Set::<Seq<char>>::empty(),
    ensures
        discovered(value, one) == discovered(value, other),
        discovered(value, one) == collected(value),
{
}

/// A listing offers tasks exactly where the command succeeded and wrote JSON in UTF-8, and then those
/// that are discovered in what it wrote. What it wrote to its standard error does not matter then.
pub proof fn listing_offers_what_it_names(output: CommandOutput)
    ensures
        !output.success ==> offered(output) is None,
        !valid_utf8(output.stdout@) ==> offered(output) is None,
        json_of_text(decode_utf8(output.stdout@)) is Err ==> offered(output) is None,
        output.success && valid_utf8(output.stdout@) ==> (json_of_text(
            decode_utf8(output.stdout@),
        ) matches Ok(value) ==> offered(output) == Some(
            discovered(value, decode_utf8(output.stdout@)),
        )),
{
}

/// An error about a listing tells what went wrong: that the command failed, with what it wrote to its
/// standard error, or else that it did not write UTF-8, or else that it did not write JSON.
pub proof fn listing_error_tells_reason(error: LaunchError, output: CommandOutput)
    requires
        offered(output) is None,
        reports_unlisted(error, output),
    ensures
        error is TaskListing <==> !output.success,
        error is TaskEncoding <==> output.success && !valid_utf8(output.stdout@),
        error is TaskJson <==> output.success && valid_utf8(output.stdout@) && json_of_text(
            decode_utf8(output.stdout@),
        ) is Err,
        error matches LaunchError::TaskListing { stderr } ==> stderr@ == lossy_text(output.stderr@)
            && (valid_utf8(output.stderr@) ==> stderr@ == decode_utf8(output.stderr@)),
        error matches LaunchError::TaskEncoding(cause) ==> cause == utf8_error(output.stdout@),
        error matches LaunchError::TaskJson(cause) ==> json_of_text(decode_utf8(output.stdout@))
            == Err::<JsonView, serde_json::Error>(cause),
{
}

} // verus!
