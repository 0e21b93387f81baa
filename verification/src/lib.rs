//! Desktop notifications for agent panes: what to say, when to say it, and the
//! shell scripts that show a notification and bring the pane back on a click.

pub mod answer_preview;
pub mod focus;
pub mod focus_laws;
pub mod json;
pub mod live_session;
pub mod markdown;
pub mod markdown_laws;
pub mod notification;
pub mod notifier;
pub mod notifier_laws;
pub mod path_laws;
pub mod paths;
pub mod preview_laws;
pub mod script;
pub mod script_laws;
pub mod script_lines;
pub mod session_laws;
pub mod state;
pub mod text;
pub mod text_laws;
pub mod transcript;
pub mod transcript_laws;
pub mod util;
