use kakaotalk_adblock::window::class_names::{
    CUSTOM_SCROLL_PREFIX, EVA_CHILD_WINDOW, EVA_WINDOW, EVA_WINDOW_DBLCLK,
};
use kakaotalk_adblock::window::window_texts::{CHROME_LEGACY, LOCK_MODE_VIEW, ONLINE_MAIN_VIEW};
use kakaotalk_adblock::window::{
    find_windows_by_pid, has_child_class_starting_with, has_chrome_legacy_window, is_hwnd_null,
    set_window_size, Action, TopLevelWindow, WindowInfo, WindowSnapshot, NULL_HWND, SWP_NOMOVE,
};

fn info(hwnd: isize, class_name: &str, text: &str, parent: isize) -> WindowInfo {
    WindowInfo { hwnd, class_name: String::from(class_name), text: String::from(text), parent }
}

fn tree(window: WindowInfo, descendants: Vec<WindowInfo>) -> WindowSnapshot {
    WindowSnapshot { window, valid: true, visible: true, rect: None, descendants }
}

#[test]
fn names_and_markers_have_their_values() {
    assert_eq!(EVA_WINDOW_DBLCLK, "EVA_Window_Dblclk");
    assert_eq!(EVA_WINDOW, "EVA_Window");
    assert_eq!(EVA_CHILD_WINDOW, "EVA_ChildWindow");
    assert_eq!(CUSTOM_SCROLL_PREFIX, "_EVA_");
    assert_eq!(ONLINE_MAIN_VIEW, "OnlineMainView");
    assert_eq!(LOCK_MODE_VIEW, "LockModeView");
    assert_eq!(CHROME_LEGACY, "Chrome Legacy Window");
    assert_eq!(NULL_HWND, 0);
    assert_eq!(SWP_NOMOVE, 2);
}

#[test]
fn null_handle_is_zero_only() {
    assert!(is_hwnd_null(0));
    assert!(!is_hwnd_null(1));
    assert!(!is_hwnd_null(-1));
    assert!(!is_hwnd_null(isize::MAX));
}

#[test]
fn set_window_size_keeps_the_position() {
    assert_eq!(
        set_window_size(42, 300, 200),
        Action::SetWindowPos { hwnd: 42, x: 0, y: 0, width: 300, height: 200, flags: SWP_NOMOVE }
    );
    assert_eq!(
        set_window_size(7, 0, 0),
        Action::SetWindowPos { hwnd: 7, x: 0, y: 0, width: 0, height: 0, flags: 2 }
    );
}

#[test]
fn find_windows_by_pid_filters_in_order() {
    let windows = vec![
        TopLevelWindow { hwnd: 10, pid: 1 },
        TopLevelWindow { hwnd: 20, pid: 2 },
        TopLevelWindow { hwnd: 30, pid: 1 },
        TopLevelWindow { hwnd: 40, pid: 3 },
        TopLevelWindow { hwnd: 50, pid: 1 },
    ];
    assert_eq!(find_windows_by_pid(&windows, 1), vec![10, 30, 50]);
    assert_eq!(find_windows_by_pid(&windows, 2), vec![20]);
    assert_eq!(find_windows_by_pid(&windows, 9), Vec::<isize>::new());
    assert_eq!(find_windows_by_pid(&Vec::new(), 1), Vec::<isize>::new());
}

#[test]
fn class_prefix_is_looked_for_in_the_window_itself() {
    let t = tree(info(1, "_EVA_CustomScrollCtrl", "", 0), vec![]);
    assert!(has_child_class_starting_with(&t, "_EVA_"));
    let t = tree(info(1, "EVA_Window", "", 0), vec![]);
    assert!(!has_child_class_starting_with(&t, "_EVA_"));
}

#[test]
fn class_prefix_is_looked_for_in_every_window_below() {
    let t = tree(
        info(1, "EVA_Window_Dblclk", "Chat", 0),
        vec![
            info(2, "EVA_ChildWindow", "", 1),
            info(3, "EVA_VH_ListControl_Dblclk", "", 2),
            info(4, "_EVA_CustomScrollCtrl", "", 3),
        ],
    );
    assert!(has_child_class_starting_with(&t, "_EVA_"));
    assert!(has_child_class_starting_with(&t, "EVA_VH"));
    assert!(!has_child_class_starting_with(&t, "Edit"));
    assert!(!has_child_class_starting_with(&t, "_EVA_CustomScrollCtrlX"));
    assert!(has_child_class_starting_with(&t, ""));
}

#[test]
fn class_prefix_must_stand_at_the_start() {
    let t = tree(info(1, "X_EVA_", "", 0), vec![info(2, "Y_EVA_", "_EVA_", 1)]);
    assert!(!has_child_class_starting_with(&t, "_EVA_"));
}

#[test]
fn chrome_legacy_window_is_found_at_any_depth() {
    let t = tree(info(1, "EVA_Window", "Chrome Legacy Window", 0), vec![]);
    assert!(has_chrome_legacy_window(&t));
    let t = tree(
        info(1, "EVA_Window", "", 0),
        vec![
            info(2, "Chrome_WidgetWin_0", "", 1),
            info(3, "Chrome_RenderWidgetHostHWND", "Chrome Legacy Window", 2),
        ],
    );
    assert!(has_chrome_legacy_window(&t));
}

#[test]
fn chrome_legacy_window_needs_the_exact_text() {
    let t = tree(
        info(1, "EVA_Window", "", 0),
        vec![
            info(2, "A", "Chrome Legacy Window ", 1),
            info(3, "B", "Chrome Legacy", 1),
            info(4, "C", "chrome legacy window", 1),
            info(5, "Chrome Legacy Window", "", 1),
        ],
    );
    assert!(!has_chrome_legacy_window(&t));
    let t = tree(info(1, "EVA_Window", "", 0), vec![]);
    assert!(!has_chrome_legacy_window(&t));
}
