# rift

A cross-engine game asset pipeline: raw assets in one directory are
converted, validated and exported to Unity, Godot and Unreal projects, as a
single YAML file describes.

The crate is written in Verus. `src/` is the verified library; each public
function states what it returns in its contract, and the laws of the
pipeline (what the asset store keeps, when an asset is converted again, how
a run is recorded) are public proof functions.

- `src/config.rs` — the pipeline configuration and its discovery.
- `src/paths.rs`, `src/text.rs` — paths and text as character sequences.
- `src/converters/` — texture sizing, resizing decoded images, output
  paths, audio plans, model validation.
- `src/engines/` — Unity `.meta`, Godot `.import` and the Unreal import
  settings document.
- `src/db.rs` — the asset store: assets, runs and logged errors.
- `src/pipeline/` — rule matching, the runner's decisions and the watch
  loop's steps.
- `src/commands.rs`, `src/api.rs` — what the commands print and what the
  HTTP API answers.

`app/` is the `rift` program around the library: the command line, the
SQLite file, image and audio files, the file watcher and the HTTP server.
