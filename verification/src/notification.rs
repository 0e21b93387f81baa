//! The notification that stands for one pane.

use vstd::prelude::*;

verus! {

/// What a notification shows, and the pane that a click on it focuses.
pub struct FocusNotification {
    pub pane_id: String,
    pub workspace_id: Option<String>,
    pub status: String,
    pub title: String,
    pub body: String,
    pub group: String,
    pub app_icon: Option<String>,
}

} // verus!
