//! Window class names used by KakaoTalk.

use vstd::prelude::*;

verus! {

/// Class of the top-level chat windows and of the advertisement windows
/// that they own.
pub const EVA_WINDOW_DBLCLK: &'static str = "EVA_Window_Dblclk";

/// Class of plain top-level containers, among them advertisement popups.
pub const EVA_WINDOW: &'static str = "EVA_Window";

/// Class of the panes inside a chat window.
pub const EVA_CHILD_WINDOW: &'static str = "EVA_ChildWindow";

/// Start of the class names of windows that scroll their own contents.
pub const CUSTOM_SCROLL_PREFIX: &'static str = "_EVA_";

} // verus!
