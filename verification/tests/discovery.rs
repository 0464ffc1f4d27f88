use launch_director::discovery::{collect_task_names, discover_tasks, list_mise_tasks, CommandOutput};
use launch_director::error::LaunchError;
use launch_director::json::{parse_json, Json};
use launch_director::names::TaskNames;

fn listing(stdout: &[u8]) -> CommandOutput {
    CommandOutput { success: true, stdout: stdout.to_vec(), stderr: Vec::new() }
}

fn names_in(stdout: &str) -> Vec<String> {
    list_mise_tasks(listing(stdout.as_bytes())).unwrap().sorted()
}

fn text(s: &str) -> Json {
    Json::Text(s.to_string())
}

fn object(members: Vec<(&str, Json)>) -> Json {
    Json::Object(members.into_iter().map(|(k, v)| (k.to_string(), v)).collect())
}

fn collected(value: &Json) -> Vec<String> {
    let mut names = TaskNames::new();
    collect_task_names(value, &mut names);
    names.sorted()
}

#[test]
fn names_of_listed_tasks() {
    let raw = r#"[
        {"name": "build", "aliases": [], "description": "", "source": "/p/mise.toml"},
        {"name": "run", "depends": ["build"]},
        {"name": "_launch_director_run"}
    ]"#;
    assert_eq!(names_in(raw), ["_launch_director_run", "build", "run"]);
}

#[test]
fn names_of_keyed_tasks() {
    let raw = r#"{
        "lint": {"run": "x"},
        "fmt": {"alias": "f"},
        "doc": {"description": ""},
        "other": {"depends": []},
        "text": "run"
    }"#;
    assert_eq!(names_in(raw), ["doc", "fmt", "lint"]);
}

#[test]
fn names_at_depth() {
    let raw = r#"{"tasks": [{"name": "build"}, {"deep": {"er": [{"name": "run"}]}}], "version": 3}"#;
    assert_eq!(names_in(raw), ["build", "run"]);
}

#[test]
fn name_and_key_both_count() {
    assert_eq!(names_in(r#"{"outer": {"name": "inner", "run": "x"}}"#), ["inner", "outer"]);
}

#[test]
fn name_that_is_no_string_does_not_count() {
    assert_eq!(names_in(r#"[{"name": 7}, {"name": null}, {"name": ["x"]}, {"name": "a"}]"#), ["a"]);
}

#[test]
fn repeated_names_count_once() {
    assert_eq!(names_in(r#"[{"name": "a"}, {"name": "b"}, {"name": "a"}]"#), ["a", "b"]);
}

#[test]
fn last_of_two_equal_keys_counts() {
    assert_eq!(names_in(r#"[{"name": "a", "name": "b"}]"#), ["b"]);
}

#[test]
fn order_of_items_does_not_matter() {
    let there = names_in(r#"[{"name": "run"}, {"name": "build"}]"#);
    let back = names_in(r#"[{"name": "build"}, {"name": "run"}]"#);
    assert_eq!(there, back);
}

#[test]
fn text_is_searched_where_the_value_names_nothing() {
    assert_eq!(names_in(r#"["build", "run", "test"]"#), ["build", "run"]);
    assert_eq!(
        names_in(r#"{"_launch_director_build": "x", "_launch_director_run": "y"}"#),
        ["_launch_director_build", "_launch_director_run"]
    );
    assert!(names_in(r#"["builder", "rerun"]"#).is_empty());
    assert!(names_in("[]").is_empty());
}

#[test]
fn text_is_not_searched_where_the_value_names_something() {
    assert_eq!(names_in(r#"[{"name": "test", "depends": ["build", "run"]}]"#), ["test"]);
}

#[test]
fn scalar_listings_name_nothing() {
    assert!(names_in("null").is_empty());
    assert!(names_in("true").is_empty());
    assert!(names_in("12.5").is_empty());
    assert_eq!(names_in("\"run\""), ["run"]);
}

#[test]
fn escapes_and_plain_letters_are_read() {
    assert_eq!(names_in("[{\"name\": \"b\\u00fcild\"}]"), ["b\u{fc}ild"]);
    assert_eq!(names_in("[{\"name\": \"b\u{fc}ild\"}]"), ["b\u{fc}ild"]);
}

#[test]
fn failed_listing_is_reported_with_what_was_written() {
    let output = CommandOutput {
        success: false,
        stdout: b"[{\"name\": \"build\"}]".to_vec(),
        stderr: b"mise: no config".to_vec(),
    };
    let error = list_mise_tasks(output).unwrap_err();
    assert!(matches!(&error, LaunchError::TaskListing { stderr } if stderr == "mise: no config"));
    assert_eq!(error.message(), "Failed to list mise tasks: mise: no config");
}

#[test]
fn failed_listing_replaces_what_is_no_text() {
    let output =
        CommandOutput { success: false, stdout: Vec::new(), stderr: vec![b'a', 0xff, b'b'] };
    let error = list_mise_tasks(output).unwrap_err();
    assert_eq!(error.message(), "Failed to list mise tasks: a\u{fffd}b");
}

#[test]
fn listing_that_is_no_text_is_refused() {
    let error = list_mise_tasks(listing(&[b'[', 0xc3, 0x28, b']'])).unwrap_err();
    assert_eq!(error.message(), "mise task output was not valid UTF-8");
    match error {
        LaunchError::TaskEncoding(cause) => {
            assert_eq!(cause.as_bytes(), [b'[', 0xc3, 0x28, b']']);
            assert_eq!(cause.utf8_error().valid_up_to(), 1);
        }
        other => panic!("{other:?}"),
    }
}

#[test]
fn listing_that_is_no_json_is_refused() {
    let error = list_mise_tasks(listing(b"[1,\n2,")).unwrap_err();
    assert_eq!(error.message(), "Failed to parse mise task JSON");
    match error {
        LaunchError::TaskJson(cause) => {
            assert!(cause.is_eof());
            assert_eq!((cause.line(), cause.column()), (2, 2));
        }
        other => panic!("{other:?}"),
    }
}

#[test]
fn parsed_values_keep_their_shape() {
    match parse_json(r#"[null, true, 1.5, "x", {"k": [false]}]"#).unwrap() {
        Json::Array(items) => {
            assert!(matches!(items[0], Json::Null));
            assert!(matches!(items[1], Json::Bool(true)));
            assert!(matches!(items[2], Json::Number));
            assert!(matches!(&items[3], Json::Text(s) if s == "x"));
            match &items[4] {
                Json::Object(members) => {
                    assert_eq!(members.len(), 1);
                    assert_eq!(members[0].0, "k");
                    assert!(matches!(&members[0].1,
                        Json::Array(inner) if matches!(inner[0], Json::Bool(false))));
                }
                other => panic!("{other:?}"),
            }
        }
        other => panic!("{other:?}"),
    }
    assert!(parse_json("").is_err());
}

#[test]
fn values_built_by_hand_are_collected() {
    let value = Json::Array(vec![
        object(vec![("name", text("build")), ("n", Json::Number)]),
        object(vec![("task", object(vec![("run", Json::Null)]))]),
        Json::Bool(true),
    ]);
    assert_eq!(collected(&value), ["build", "task"]);
}

#[test]
fn collecting_adds_to_what_is_there() {
    let mut names = TaskNames::new();
    names.insert("kept".to_string());
    collect_task_names(&object(vec![("name", text("new"))]), &mut names);
    assert_eq!(names.sorted(), ["kept", "new"]);
}

#[test]
fn an_array_has_the_names_of_its_parts() {
    let front = Json::Array(vec![object(vec![("name", text("a"))])]);
    let back = Json::Array(vec![object(vec![("name", text("b"))])]);
    let whole = Json::Array(vec![
        object(vec![("name", text("a"))]),
        object(vec![("name", text("b"))]),
    ]);
    let mut both = TaskNames::new();
    collect_task_names(&front, &mut both);
    collect_task_names(&back, &mut both);
    assert_eq!(both.sorted(), collected(&whole));
}

#[test]
fn the_text_alone_decides_without_names() {
    let names = discover_tasks(&Json::Null, "x \"run\" y \"build");
    assert_eq!(names.sorted(), ["run"]);
}

#[test]
fn names_are_kept_in_byte_order() {
    let mut names = TaskNames::new();
    assert!(names.is_empty());
    for name in ["b", "a", "B", "\u{fc}", "ab", "", "a", "\u{10000}", "\u{ffff}"] {
        names.insert(name.to_string());
    }
    assert!(!names.is_empty());
    assert!(names.contains("ab"));
    assert!(!names.contains("abc"));
    let sorted = names.sorted();
    assert_eq!(sorted, ["", "B", "a", "ab", "b", "\u{fc}", "\u{ffff}", "\u{10000}"]);
    let mut again = sorted.clone();
    again.sort();
    assert_eq!(sorted, again);
}
