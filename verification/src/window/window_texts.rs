//! Window texts by which panes and popups are recognised.

use vstd::prelude::*;

verus! {

/// Start of the text of the pane that shows the main view.
pub const ONLINE_MAIN_VIEW: &'static str = "OnlineMainView";

/// Start of the text of the pane that shows the lock screen.
pub const LOCK_MODE_VIEW: &'static str = "LockModeView";

/// Text of the embedded browser window that renders an advertisement.
pub const CHROME_LEGACY: &'static str = "Chrome Legacy Window";

} // verus!
