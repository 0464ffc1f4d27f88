# Launch Director

Builds and launches locally developed projects that use [mise](https://mise.jdx.dev/), so that they
need not be packaged or installed.

    launch-director --project /path/to/project

- `src/` holds the decisions, each verified with Verus: task discovery (`json`, `names`, `discovery`,
  `resolve`), the course of a launch (`launch`), the first seconds of a build and of a run
  (`build_watch`, `run_watch`), the state and the texts of the windows (`build_window`, `reports`,
  `project`, `error`) and the `mise` commands (`command`).
- `app/` runs `mise`, shows the windows and does what `src/` decides.
- `tests/` runs the library on concrete values.

What Verus takes on trust are the calls of `serde_json` in `src/json.rs`, of the UTF-8 conversions of
the standard library in `src/encoding.rs` and of `std::path::Path::file_name` in `src/project.rs`.
