//! Windows as plain values: what was observed of them, and what is to be
//! done to them.
//!
//! A window is named by its handle, an integer that the operating system
//! hands out and may withdraw at any time. The library never touches a
//! window: it reads observations that the caller made, and returns the
//! actions that the caller is to perform.

use vstd::prelude::*;
use crate::text::{chars_of, chars_start_with, str_equal};

pub mod class_names;
pub mod window_texts;

verus! {

/// The handle that names no window.
pub const NULL_HWND: isize = 0;

/// Positioning flag: keep the current position, change the size only.
pub const SWP_NOMOVE: u32 = 0x0002;

/// Bounding rectangle of a window, in screen coordinates.
#[derive(Clone, Copy, Debug, PartialEq, Eq)]
pub struct Rect {
    pub left: i32,
    pub top: i32,
    pub right: i32,
    pub bottom: i32,
}

/// What was observed of one window: its handle, class name, text and parent
/// (`NULL_HWND` where it has none). A window that is gone reads as empty
/// strings and no parent.
#[derive(Clone, Debug, PartialEq, Eq)]
pub struct WindowInfo {
    pub hwnd: isize,
    pub class_name: String,
    pub text: String,
    pub parent: isize,
}

/// What was observed of one window and of the windows below it.
#[derive(Clone, Debug, PartialEq, Eq)]
pub struct WindowSnapshot {
    /// The window itself.
    pub window: WindowInfo,
    /// Whether the handle still names a window.
    pub valid: bool,
    /// Whether the window is shown.
    pub visible: bool,
    /// The bounding rectangle, or `None` where it could not be read.
    pub rect: Option<Rect>,
    /// Every window below `window`, at any depth, in the order in which the
    /// system enumerates them.
    pub descendants: Vec<WindowInfo>,
}

/// A top-level window and the process that owns it.
#[derive(Clone, Copy, Debug, PartialEq, Eq)]
pub struct TopLevelWindow {
    pub hwnd: isize,
    pub pid: u32,
}

/// Something to be done to a window.
#[derive(Clone, Copy, Debug, PartialEq, Eq)]
pub enum Action {
    /// Place and size the window, as `flags` directs.
    SetWindowPos { hwnd: isize, x: i32, y: i32, width: i32, height: i32, flags: u32 },
    /// Ask the window to close, without waiting for it.
    Close { hwnd: isize },
    /// Hide the window; its handle stays in use.
    Hide { hwnd: isize },
    /// Have the window paint what is pending.
    Update { hwnd: isize },
    /// Invalidate the whole window and have it repaint at once.
    Refresh { hwnd: isize },
}

/// The action that gives a window a new size and keeps it where it is.
pub open spec fn resize(hwnd: isize, width: i32, height: i32) -> Action {
    Action::SetWindowPos { hwnd, x: 0, y: 0, width, height, flags: SWP_NOMOVE }
}

/// The handles of the windows in `windows` that belong to process `pid`, in
/// order.
pub open spec fn handles_of_pid(windows: Seq<TopLevelWindow>, pid: u32) -> Seq<isize>
    decreases windows.len(),
{
    if windows.len() == 0 {
        Seq::<isize>::empty()
    } else {
        let before = handles_of_pid(windows.drop_last(), pid);
        if windows.last().pid == pid {
            before.push(windows.last().hwnd)
        } else {
            before
        }
    }
}

/// Some window of the snapshot, the top one or one below it, has a class
/// name that starts with `prefix`.
pub open spec fn some_class_starts_with(tree: WindowSnapshot, prefix: Seq<char>) -> bool {
    prefix.is_prefix_of(tree.window.class_name@) || exists|i: int|
        0 <= i < tree.descendants@.len() && prefix.is_prefix_of(
            (#[trigger] tree.descendants@[i]).class_name@,
        )
}

/// Some window of the snapshot, the top one or one below it, has exactly
/// the text `text`.
pub open spec fn some_text_equals(tree: WindowSnapshot, text: Seq<char>) -> bool {
    tree.window.text@ == text || exists|i: int|
        0 <= i < tree.descendants@.len() && (#[trigger] tree.descendants@[i]).text@ == text
}

/// Whether a handle names no window.
pub fn is_hwnd_null(hwnd: isize) -> (r: bool)
    ensures
        r == (hwnd == NULL_HWND),
{
    hwnd == NULL_HWND
}

/// Set window size only (keeps position)
pub fn set_window_size(hwnd: isize, width: i32, height: i32) -> (action: Action)
    ensures
        action == resize(hwnd, width, height),
{
    Action::SetWindowPos { hwnd, x: 0, y: 0, width, height, flags: SWP_NOMOVE }
}

/// Find all windows belonging to a specific process
pub fn find_windows_by_pid(windows: &Vec<TopLevelWindow>, target_pid: u32) -> (found: Vec<isize>)
    ensures
        found@ == handles_of_pid(windows@, target_pid),
{
    let mut found: Vec<isize> = Vec::new();
    let mut i: usize = 0;
    assert(windows@.take(0) == Seq::<TopLevelWindow>::empty());
    while i < windows.len()
        invariant
            i <= windows.len(),
            found@ == handles_of_pid(windows@.take(i as int), target_pid),
        decreases windows.len() - i,
    {
        assert(windows@.take(i + 1).drop_last() == windows@.take(i as int));
        if windows[i].pid == target_pid {
            found.push(windows[i].hwnd);
        }
        i += 1;
    }
    assert(windows@.take(windows.len() as int) == windows@);
    found
}

/// Check if a window or any of the windows below it has a class name
/// starting with the given prefix
pub fn has_child_class_starting_with(tree: &WindowSnapshot, prefix: &str) -> (r: bool)
    ensures
        r == some_class_starts_with(*tree, prefix@),
{
    let prefix_chars = chars_of(prefix);
    let top = chars_of(tree.window.class_name.as_str());
    if chars_start_with(&top, &prefix_chars) {
        return true;
    }
    let mut i: usize = 0;
    while i < tree.descendants.len()
        invariant
            i <= tree.descendants.len(),
            prefix_chars@ == prefix@,
            forall|j: int|
                0 <= j < i ==> !prefix@.is_prefix_of((#[trigger] tree.descendants@[j]).class_name@),
        decreases tree.descendants.len() - i,
    {
        let class_name = chars_of(tree.descendants[i].class_name.as_str());
        if chars_start_with(&class_name, &prefix_chars) {
            return true;
        }
        i += 1;
    }
    false
}

/// Check if a window or any of the windows below it has the
/// "Chrome Legacy Window" text
pub fn has_chrome_legacy_window(tree: &WindowSnapshot) -> (r: bool)
    ensures
        r == some_text_equals(*tree, window_texts::CHROME_LEGACY@),
{
    if str_equal(tree.window.text.as_str(), window_texts::CHROME_LEGACY) {
        return true;
    }
    let mut i: usize = 0;
    while i < tree.descendants.len()
        invariant
            i <= tree.descendants.len(),
            forall|j: int|
                0 <= j < i ==> (#[trigger] tree.descendants@[j]).text@
                    != window_texts::CHROME_LEGACY@,
        decreases tree.descendants.len() - i,
    {
        if str_equal(tree.descendants[i].text.as_str(), window_texts::CHROME_LEGACY) {
            return true;
        }
        i += 1;
    }
    false
}

} // verus!
