# Melies

Melies turns the events that Team Fortress 2 notes while a demo is recorded into videos: it groups the
events into clips, writes the scripts that drive the game through the demos, and keeps the file of
events in order.

- `src/` is the library. Its functions are verified with Verus against their contracts. The contracts
  of the few functions marked `external_body`, which call the crates `chrono`, `regex`,
  `sanitize-filename`, `serde_json` and `vdm`, are believed and not verified.
  - `text`, `json`: text and JSON values.
  - `settings`: switches, and the configuration that the game executes.
  - `grammar`, `lines`: the lines of events, and what is read of them.
  - `clock`, `event`, `save`: events, and how they are saved once they are changed.
  - `clip`, `grouping`: clips, and which events make up which clip.
  - `script`, `record`, `scripts`: the actions of a script, the recording of a clip, and the scripts
    for a list of clips.
  - `files`, `file_name`, `replies`: files and their names, and what the user interface is told.
- `tests/` runs the library on concrete values.
- `app/` is the application around it: the commands of the user interface, files and folders. The
  settings file, the addons, the demos, the reading of an event from its line and the game itself are
  behind the traits of `app/modules.rs`.
