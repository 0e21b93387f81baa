# herdr-focus-notify

Shows a desktop notification when an agent in a herdr pane needs attention, and
focuses the pane on a click.

`src/` is the library. Every function in it is verified with Verus: its contract
says what it returns, and proof functions named `law_...` state what holds of
several functions together.

| Module | What it holds |
| --- | --- |
| `text`, `paths`, `util` | text, paths, quoting for the shell, ids and numbers |
| `markdown` | inline markup taken off a text |
| `answer_preview`, `transcript` | the preview of the latest answer of an agent |
| `live_session` | the session that an agent process has open |
| `json` | JSON documents, read through `serde_json` |
| `focus` | which pane has the focus, and what a notification says |
| `notifier` | which program shows a notification, and which takes it away |
| `script`, `script_lines` | the script that shows a notification and waits for a click |
| `state` | where the state of a pane is kept |

`app/` is ordinary Rust around the library. It reads the environment and files,
runs other programs, and turns their JSON into the library's types. Where a
decision needs several such answers, the library says what to do next and `app/`
does it.

Only three things are believed without proof: that `String::push` appends a
character, that what `serde_json::from_slice` reads depends on the text alone,
and that opening a `serde_json::Value` gives its parts.
