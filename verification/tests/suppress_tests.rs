use std::collections::HashSet;

use kakaotalk_adblock::state::AdBlockState;
use kakaotalk_adblock::suppress::{
    custom_scroll, has_custom_scroll, hide_lock_screen_ad_area, hide_main_view_ad_area,
    is_main_window, remove_ads, suppress_ad_candidate, suppress_main_window, suppress_pane,
    LAYOUT_SHADOW_PADDING, MAIN_VIEW_PADDING,
};
use kakaotalk_adblock::watch::watch_windows;
use kakaotalk_adblock::window::{Action, Rect, WindowInfo, WindowSnapshot};

const PANE: &str = "EVA_ChildWindow";
const MAIN: isize = 100;

fn info(hwnd: isize, class_name: &str, text: &str, parent: isize) -> WindowInfo {
    WindowInfo { hwnd, class_name: String::from(class_name), text: String::from(text), parent }
}

fn rect(left: i32, top: i32, right: i32, bottom: i32) -> Rect {
    Rect { left, top, right, bottom }
}

fn resize(hwnd: isize, width: i32, height: i32) -> Action {
    Action::SetWindowPos { hwnd, x: 0, y: 0, width, height, flags: 2 }
}

/// A chat window at (10, 20) - (410, 720) with the given windows below it.
fn main_window(descendants: Vec<WindowInfo>) -> WindowSnapshot {
    WindowSnapshot {
        window: info(MAIN, "EVA_Window_Dblclk", "KakaoTalk", 0),
        valid: true,
        visible: true,
        rect: Some(rect(10, 20, 410, 720)),
        descendants,
    }
}

/// The usual layout: the content pane first, then the main view, an
/// advertisement pane, and a window inside the main view.
fn usual_panes() -> Vec<WindowInfo> {
    vec![
        info(101, PANE, "ContactListView", MAIN),
        info(102, PANE, "OnlineMainView_0x1234", MAIN),
        info(103, PANE, "", MAIN),
        info(104, "EVA_VH_ListControl_Dblclk", "", 102),
    ]
}

fn popup(hwnd: isize, visible: bool, descendants: Vec<WindowInfo>) -> WindowSnapshot {
    WindowSnapshot {
        window: info(hwnd, "EVA_Window", "", 0),
        valid: true,
        visible,
        rect: None,
        descendants,
    }
}

fn browser(parent: isize) -> Vec<WindowInfo> {
    vec![
        info(parent + 1, "Chrome_WidgetWin_0", "", parent),
        info(parent + 2, "Chrome_RenderWidgetHostHWND", "Chrome Legacy Window", parent + 1),
    ]
}

fn tracking(main_windows: &[isize], ad_candidates: &[(isize, bool)]) -> AdBlockState {
    let mut state = AdBlockState::new();
    for h in main_windows {
        state.main_windows.insert(*h);
    }
    for (h, processed) in ad_candidates {
        state.ad_candidates.insert(*h, *processed);
    }
    state
}

#[test]
fn layout_constants_have_their_values() {
    assert_eq!(LAYOUT_SHADOW_PADDING, 2);
    assert_eq!(MAIN_VIEW_PADDING, 31);
}

#[test]
fn ad_pane_is_resized_then_closed_then_the_main_window_redrawn() {
    let mut state = tracking(&[MAIN], &[]);
    let plan = remove_ads(&mut state, &vec![main_window(usual_panes())], &Vec::new());
    assert_eq!(
        plan,
        vec![
            Action::Update { hwnd: 102 },
            resize(102, 398, 669),
            resize(103, 0, 0),
            Action::Close { hwnd: 103 },
            Action::Refresh { hwnd: MAIN },
        ]
    );
    let resized = plan.iter().position(|a| *a == resize(103, 0, 0)).unwrap();
    let closed = plan.iter().position(|a| *a == Action::Close { hwnd: 103 }).unwrap();
    assert!(resized < closed);
}

#[test]
fn every_close_comes_directly_after_the_resize_to_nothing() {
    let mut state = tracking(&[MAIN, 500], &[(900, false)]);
    let mut second = main_window(vec![
        info(501, PANE, "LockModeView", 500),
        info(502, PANE, "", 500),
        info(503, PANE, "", 500),
        info(504, PANE, "LockModeView_1", 500),
    ]);
    second.window.hwnd = 500;
    let plan = remove_ads(
        &mut state,
        &vec![main_window(usual_panes()), second],
        &vec![popup(900, true, browser(900))],
    );
    let mut closes = 0;
    for (i, action) in plan.iter().enumerate() {
        if let Action::Close { hwnd } = action {
            closes += 1;
            assert!(i >= 1);
            assert_eq!(plan[i - 1], resize(*hwnd, 0, 0));
        }
    }
    assert_eq!(closes, 3);
    assert_eq!(plan.last(), Some(&Action::Hide { hwnd: 900 }));
}

#[test]
fn suppression_may_be_repeated() {
    let mut state = tracking(&[MAIN], &[(900, false)]);
    let mains = vec![main_window(usual_panes())];
    let ads = vec![popup(900, true, browser(900))];
    let first = remove_ads(&mut state, &mains, &ads);
    let classes = state.window_class_cache.clone();
    let scrolls = state.custom_scroll_cache.clone();
    let second = remove_ads(&mut state, &mains, &ads);
    let third = remove_ads(&mut state, &mains, &ads);
    assert_eq!(first, second);
    assert_eq!(second, third);
    assert_eq!(state.window_class_cache, classes);
    assert_eq!(state.custom_scroll_cache, scrolls);
    assert_eq!(state.ad_candidates.get(&900), Some(&true));
}

#[test]
fn first_window_below_is_never_altered() {
    let mut state = tracking(&[MAIN], &[]);
    // an empty-text pane and a main view in first place are both let be
    let plan = remove_ads(
        &mut state,
        &vec![main_window(vec![info(101, PANE, "", MAIN), info(102, PANE, "LockModeView", MAIN)])],
        &Vec::new(),
    );
    assert_eq!(plan, vec![Action::Update { hwnd: 102 }, resize(102, 398, 700)]);
    let plan = remove_ads(
        &mut state,
        &vec![main_window(vec![info(101, PANE, "OnlineMainView", MAIN)])],
        &Vec::new(),
    );
    assert_eq!(plan, Vec::<Action>::new());
}

#[test]
fn windows_deeper_down_are_ignored() {
    let mut state = tracking(&[MAIN], &[]);
    let plan = remove_ads(
        &mut state,
        &vec![main_window(vec![
            info(101, PANE, "OnlineMainView", MAIN),
            info(102, PANE, "", 101),
            info(103, PANE, "OnlineMainView", 101),
            info(104, PANE, "LockModeView", 0),
        ])],
        &Vec::new(),
    );
    assert_eq!(plan, Vec::<Action>::new());
    assert!(state.window_class_cache.is_empty());
}

#[test]
fn a_window_without_a_view_pane_is_skipped() {
    let mut state = tracking(&[MAIN], &[]);
    let plan = remove_ads(
        &mut state,
        &vec![main_window(vec![
            info(101, PANE, "ContactListView", MAIN),
            info(102, PANE, "", MAIN),
            info(103, "Edit", "OnlineMainView", MAIN),
            info(104, PANE, "MyOnlineMainView", MAIN),
        ])],
        &Vec::new(),
    );
    assert_eq!(plan, Vec::<Action>::new());
    assert!(state.custom_scroll_cache.is_empty());
    let plan = remove_ads(&mut state, &vec![main_window(Vec::new())], &Vec::new());
    assert_eq!(plan, Vec::<Action>::new());
}

#[test]
fn an_invalid_main_window_is_skipped() {
    let mut state = tracking(&[MAIN], &[]);
    let mut main = main_window(usual_panes());
    main.valid = false;
    let plan = remove_ads(&mut state, &vec![main], &Vec::new());
    assert_eq!(plan, Vec::<Action>::new());
    assert!(state.window_class_cache.is_empty());
    assert!(state.custom_scroll_cache.is_empty());
}

#[test]
fn a_window_that_is_not_tracked_is_skipped() {
    let mut state = tracking(&[7], &[(MAIN, false)]);
    let plan = remove_ads(&mut state, &vec![main_window(usual_panes())], &Vec::new());
    assert_eq!(plan, Vec::<Action>::new());
    assert!(state.window_class_cache.is_empty());
    assert!(state.custom_scroll_cache.is_empty());
    assert_eq!(state.main_windows, [7].into_iter().collect::<HashSet<isize>>());
}

#[test]
fn a_window_without_rectangle_is_skipped() {
    let mut state = tracking(&[MAIN], &[]);
    let mut main = main_window(usual_panes());
    main.rect = None;
    let plan = remove_ads(&mut state, &vec![main], &Vec::new());
    assert_eq!(plan, Vec::<Action>::new());
    assert!(state.window_class_cache.is_empty());
    assert!(state.custom_scroll_cache.is_empty());
}

#[test]
fn a_main_window_without_text_keeps_its_empty_panes() {
    let mut state = tracking(&[MAIN], &[]);
    let mut main = main_window(usual_panes());
    main.window.text = String::new();
    let plan = remove_ads(&mut state, &vec![main], &Vec::new());
    assert_eq!(plan, vec![Action::Update { hwnd: 102 }, resize(102, 398, 669)]);
    assert!(state.custom_scroll_cache.is_empty());
}

#[test]
fn custom_scroll_keeps_the_ad_pane() {
    let mut state = tracking(&[MAIN], &[]);
    let mut panes = usual_panes();
    panes.push(info(105, "_EVA_CustomScrollCtrl", "", 104));
    let plan = remove_ads(&mut state, &vec![main_window(panes)], &Vec::new());
    assert_eq!(plan, vec![Action::Update { hwnd: 102 }, resize(102, 398, 669)]);
    assert_eq!(state.custom_scroll_cache.get(&MAIN), Some(&true));
}

#[test]
fn custom_scroll_finding_is_remembered() {
    let mut state = tracking(&[MAIN], &[]);
    remove_ads(&mut state, &vec![main_window(usual_panes())], &Vec::new());
    assert_eq!(state.custom_scroll_cache.get(&MAIN), Some(&false));
    // a scroll control that shows up later does not change the finding
    let mut panes = usual_panes();
    panes.push(info(105, "_EVA_CustomScrollCtrl", "", MAIN));
    let plan = remove_ads(&mut state, &vec![main_window(panes)], &Vec::new());
    assert!(plan.contains(&Action::Close { hwnd: 103 }));
    assert_eq!(state.custom_scroll_cache.get(&MAIN), Some(&false));
    // and a cached finding of true holds without any scroll control
    state.custom_scroll_cache.insert(MAIN, true);
    let plan = remove_ads(&mut state, &vec![main_window(usual_panes())], &Vec::new());
    assert!(!plan.contains(&Action::Close { hwnd: 103 }));
}

#[test]
fn custom_scroll_is_looked_for_only_when_an_ad_pane_is_met() {
    let mut state = tracking(&[MAIN], &[]);
    let plan = remove_ads(
        &mut state,
        &vec![main_window(vec![
            info(101, PANE, "ContactListView", MAIN),
            info(102, PANE, "OnlineMainView", MAIN),
            info(103, "_EVA_CustomScrollCtrl", "", MAIN),
        ])],
        &Vec::new(),
    );
    assert_eq!(plan, vec![Action::Update { hwnd: 102 }, resize(102, 398, 669)]);
    assert!(state.custom_scroll_cache.is_empty());
}

#[test]
fn panes_are_judged_by_their_cached_class_names() {
    let mut state = tracking(&[MAIN], &[]);
    state.window_class_cache.insert(103, String::from("Edit"));
    state.window_class_cache.insert(106, String::from(PANE));
    let mut panes = usual_panes();
    panes.push(info(106, "Edit", "", MAIN));
    let plan = remove_ads(&mut state, &vec![main_window(panes)], &Vec::new());
    assert_eq!(
        plan,
        vec![
            Action::Update { hwnd: 102 },
            resize(102, 398, 669),
            resize(106, 0, 0),
            Action::Close { hwnd: 106 },
            Action::Refresh { hwnd: MAIN },
        ]
    );
}

#[test]
fn main_view_is_shrunk_by_the_paddings() {
    let mut plan = Vec::new();
    hide_main_view_ad_area("OnlineMainView", &rect(0, 0, 400, 700), 5, &mut plan);
    assert_eq!(plan, vec![Action::Update { hwnd: 5 }, resize(5, 398, 669)]);
    let mut plan = vec![Action::Hide { hwnd: 1 }];
    hide_main_view_ad_area("OnlineMainView_x", &rect(-100, -50, 100, 50), 5, &mut plan);
    assert_eq!(
        plan,
        vec![Action::Hide { hwnd: 1 }, Action::Update { hwnd: 5 }, resize(5, 198, 69)]
    );
}

#[test]
fn main_view_is_left_alone_unless_a_positive_height_remains() {
    let mut plan = Vec::new();
    hide_main_view_ad_area("OnlineMainView", &rect(0, 0, 400, 31), 5, &mut plan);
    hide_main_view_ad_area("OnlineMainView", &rect(0, 0, 400, 0), 5, &mut plan);
    hide_main_view_ad_area("OnlineMainView", &rect(0, 100, 400, 50), 5, &mut plan);
    assert_eq!(plan, Vec::<Action>::new());
    hide_main_view_ad_area("OnlineMainView", &rect(0, 0, 400, 32), 5, &mut plan);
    assert_eq!(plan, vec![Action::Update { hwnd: 5 }, resize(5, 398, 1)]);
    // the width may be anything
    let mut plan = Vec::new();
    hide_main_view_ad_area("OnlineMainView", &rect(0, 0, 0, 100), 5, &mut plan);
    assert_eq!(plan, vec![Action::Update { hwnd: 5 }, resize(5, -2, 69)]);
}

#[test]
fn main_view_shrink_goes_by_the_text() {
    let mut plan = Vec::new();
    hide_main_view_ad_area("", &rect(0, 0, 400, 700), 5, &mut plan);
    hide_main_view_ad_area("LockModeView", &rect(0, 0, 400, 700), 5, &mut plan);
    hide_main_view_ad_area("OnlineMainVie", &rect(0, 0, 400, 700), 5, &mut plan);
    hide_main_view_ad_area(" OnlineMainView", &rect(0, 0, 400, 700), 5, &mut plan);
    assert_eq!(plan, Vec::<Action>::new());
}

#[test]
fn lock_screen_is_shrunk_in_width_whatever_its_height() {
    let mut plan = Vec::new();
    hide_lock_screen_ad_area("LockModeView", &rect(10, 20, 410, 720), 6, &mut plan);
    assert_eq!(plan, vec![Action::Update { hwnd: 6 }, resize(6, 398, 700)]);
    let mut plan = Vec::new();
    hide_lock_screen_ad_area("LockModeView_1", &rect(0, 0, 1, 0), 6, &mut plan);
    assert_eq!(plan, vec![Action::Update { hwnd: 6 }, resize(6, -1, 0)]);
    let mut plan = Vec::new();
    hide_lock_screen_ad_area("LockModeView", &rect(0, 100, 50, 40), 6, &mut plan);
    assert_eq!(plan, vec![Action::Update { hwnd: 6 }, resize(6, 48, -60)]);
    let mut plan = Vec::new();
    hide_lock_screen_ad_area("OnlineMainView", &rect(0, 0, 400, 700), 6, &mut plan);
    hide_lock_screen_ad_area("", &rect(0, 0, 400, 700), 6, &mut plan);
    assert_eq!(plan, Vec::<Action>::new());
}

#[test]
fn sizes_that_no_window_can_have_are_not_asked_for() {
    let mut plan = Vec::new();
    hide_main_view_ad_area("OnlineMainView", &rect(i32::MIN, 0, i32::MAX, 700), 5, &mut plan);
    hide_main_view_ad_area("OnlineMainView", &rect(0, i32::MIN, 400, i32::MAX), 5, &mut plan);
    hide_main_view_ad_area("OnlineMainView", &rect(i32::MAX, 0, i32::MIN, 700), 5, &mut plan);
    hide_lock_screen_ad_area("LockModeView", &rect(i32::MIN, 0, i32::MAX, 700), 6, &mut plan);
    hide_lock_screen_ad_area("LockModeView", &rect(0, i32::MAX, 400, i32::MIN), 6, &mut plan);
    hide_lock_screen_ad_area("LockModeView", &rect(i32::MIN, 0, 2, 700), 6, &mut plan);
    assert_eq!(plan, Vec::<Action>::new());
    // the largest sizes that do fit
    hide_lock_screen_ad_area("LockModeView", &rect(-1, 0, i32::MAX, i32::MAX), 6, &mut plan);
    assert_eq!(plan, vec![Action::Update { hwnd: 6 }, resize(6, i32::MAX - 1, i32::MAX)]);
    let mut plan = Vec::new();
    hide_main_view_ad_area("OnlineMainView", &rect(3, 0, i32::MIN + 4, i32::MAX), 5, &mut plan);
    assert_eq!(plan, Vec::<Action>::new());
    hide_main_view_ad_area("OnlineMainView", &rect(2, 0, i32::MIN + 4, i32::MAX), 5, &mut plan);
    assert_eq!(plan, vec![Action::Update { hwnd: 5 }, resize(5, i32::MIN, i32::MAX - 31)]);
}

#[test]
fn is_main_window_looks_for_a_view_pane() {
    let mut state = AdBlockState::new();
    assert!(is_main_window(&usual_panes(), &mut state));
    // panes are not tracked: their class names are not cached
    assert!(state.window_class_cache.is_empty());
    assert!(is_main_window(&vec![info(1, PANE, "LockModeView", 0)], &mut state));
    assert!(!is_main_window(&vec![info(2, "Edit", "LockModeView", 0)], &mut state));
    assert!(!is_main_window(&vec![info(3, PANE, "Lock", 0), info(4, PANE, "", 0)], &mut state));
    assert!(!is_main_window(&Vec::new(), &mut state));
    assert!(state.window_class_cache.is_empty());
    // a cached class name decides
    state.window_class_cache.insert(2, String::from("Edit"));
    assert!(!is_main_window(&vec![info(2, PANE, "LockModeView", 0)], &mut state));
    // and the class name of a tracked window is taken up, as far as the scan goes
    let mut state = tracking(&[101, 103], &[(102, false)]);
    assert!(is_main_window(&usual_panes(), &mut state));
    assert_eq!(state.window_class_cache.len(), 2);
    assert_eq!(state.window_class_cache.get(&101), Some(&String::from(PANE)));
    assert_eq!(state.window_class_cache.get(&102), Some(&String::from(PANE)));
}

#[test]
fn has_custom_scroll_looks_for_the_class_prefix() {
    let mut panes = usual_panes();
    assert!(!has_custom_scroll(&main_window(panes.clone())));
    panes.push(info(105, "_EVA_CustomScrollCtrl", "", 104));
    assert!(has_custom_scroll(&main_window(panes)));
}

#[test]
fn custom_scroll_reads_the_cache_first() {
    let mut state = tracking(&[MAIN], &[]);
    let main = main_window(usual_panes());
    assert!(!custom_scroll(&mut state, &main));
    assert_eq!(state.custom_scroll_cache.get(&MAIN), Some(&false));
    state.custom_scroll_cache.insert(MAIN, true);
    assert!(custom_scroll(&mut state, &main));
    assert_eq!(state.custom_scroll_cache.len(), 1);
}

#[test]
fn custom_scroll_is_held_for_main_windows_only() {
    let mut state = tracking(&[7], &[(MAIN, false)]);
    let mut panes = usual_panes();
    panes.push(info(105, "_EVA_CustomScrollCtrl", "", 104));
    assert!(custom_scroll(&mut state, &main_window(panes)));
    assert!(!custom_scroll(&mut state, &main_window(usual_panes())));
    assert!(state.custom_scroll_cache.is_empty());
}

#[test]
fn suppress_pane_acts_on_direct_children_only() {
    let mut state = tracking(&[MAIN], &[]);
    let main = main_window(usual_panes());
    let r = rect(0, 0, 400, 700);
    let mut plan = Vec::new();
    suppress_pane(&mut state, &main, &r, &info(7, PANE, "", 102), &mut plan);
    assert_eq!(plan, Vec::<Action>::new());
    assert!(state.window_class_cache.is_empty());
    suppress_pane(&mut state, &main, &r, &info(8, PANE, "", MAIN), &mut plan);
    assert_eq!(
        plan,
        vec![resize(8, 0, 0), Action::Close { hwnd: 8 }, Action::Refresh { hwnd: MAIN }]
    );
}

#[test]
fn suppress_main_window_appends_to_the_plan() {
    let mut state = tracking(&[MAIN], &[]);
    let mut plan = vec![Action::Hide { hwnd: 1 }];
    suppress_main_window(&mut state, &main_window(usual_panes()), &mut plan);
    assert_eq!(plan.len(), 6);
    assert_eq!(plan[0], Action::Hide { hwnd: 1 });
    assert_eq!(plan[3], resize(103, 0, 0));
}

#[test]
fn visible_candidate_with_a_browser_is_hidden_and_marked() {
    let mut state = tracking(&[], &[(900, false)]);
    let plan = remove_ads(&mut state, &Vec::new(), &vec![popup(900, true, browser(900))]);
    assert_eq!(plan, vec![Action::Hide { hwnd: 900 }]);
    assert_eq!(state.ad_candidates.get(&900), Some(&true));
}

#[test]
fn processed_candidate_that_shows_again_is_hidden_again() {
    let mut state = tracking(&[], &[(900, true)]);
    let ads = vec![popup(900, true, browser(900))];
    let plan = remove_ads(&mut state, &Vec::new(), &ads);
    assert_eq!(plan, vec![Action::Hide { hwnd: 900 }]);
    assert_eq!(state.ad_candidates.get(&900), Some(&true));
    let plan = remove_ads(&mut state, &Vec::new(), &ads);
    assert_eq!(plan, vec![Action::Hide { hwnd: 900 }]);
    assert_eq!(state.ad_candidates.get(&900), Some(&true));
    assert_eq!(state.ad_candidates.len(), 1);
}

#[test]
fn other_candidates_are_left_as_they_are() {
    let mut state = tracking(&[], &[(900, true), (910, false), (920, false), (930, true)]);
    let plan = remove_ads(
        &mut state,
        &Vec::new(),
        &vec![
            popup(900, false, browser(900)),             // hidden already
            popup(910, false, browser(910)),             // not visible
            popup(920, true, vec![info(921, "X", "", 920)]), // no browser in it yet
            popup(930, true, Vec::new()),                // processed, nothing to hide now
        ],
    );
    assert_eq!(plan, Vec::<Action>::new());
    assert_eq!(state.ad_candidates.get(&900), Some(&true));
    assert_eq!(state.ad_candidates.get(&910), Some(&false));
    assert_eq!(state.ad_candidates.get(&920), Some(&false));
    assert_eq!(state.ad_candidates.get(&930), Some(&true));
}

#[test]
fn a_candidate_that_is_not_tracked_is_not_touched() {
    let mut state = tracking(&[900], &[]);
    let mut plan = Vec::new();
    suppress_ad_candidate(&mut state, &popup(900, true, browser(900)), &mut plan);
    assert_eq!(plan, Vec::<Action>::new());
    assert!(state.ad_candidates.is_empty());
}

#[test]
fn candidate_whose_own_text_is_the_marker_is_hidden() {
    let mut state = tracking(&[], &[(900, false)]);
    let mut ad = popup(900, true, Vec::new());
    ad.window.text = String::from("Chrome Legacy Window");
    let plan = remove_ads(&mut state, &Vec::new(), &vec![ad]);
    assert_eq!(plan, vec![Action::Hide { hwnd: 900 }]);
}

#[test]
fn main_windows_come_before_candidates_in_the_plan() {
    let mut state = tracking(&[MAIN], &[(900, false), (950, false)]);
    let plan = remove_ads(
        &mut state,
        &vec![main_window(usual_panes())],
        &vec![popup(950, true, browser(950)), popup(900, true, browser(900))],
    );
    assert_eq!(plan.len(), 7);
    assert_eq!(plan[5], Action::Hide { hwnd: 950 });
    assert_eq!(plan[6], Action::Hide { hwnd: 900 });
}

#[test]
fn suppression_tracks_no_new_window_and_drops_none() {
    let mut state = tracking(&[MAIN, 5], &[(900, false), (910, true)]);
    remove_ads(
        &mut state,
        &vec![main_window(usual_panes())],
        &vec![popup(900, true, browser(900)), popup(777, true, browser(777))],
    );
    assert_eq!(state.main_windows, [MAIN, 5].into_iter().collect::<HashSet<isize>>());
    assert_eq!(state.ad_candidates.len(), 2);
    assert_eq!(state.ad_candidates.get(&900), Some(&true));
    assert_eq!(state.ad_candidates.get(&910), Some(&true));
    assert!(state.custom_scroll_cache.keys().all(|h| state.main_windows.contains(h)));
}

#[test]
fn suppression_leaves_no_cache_entry_without_its_window() {
    let mut state = tracking(&[MAIN], &[(900, false), (103, true)]);
    let plan = remove_ads(
        &mut state,
        &vec![main_window(usual_panes())],
        &vec![popup(900, true, browser(900))],
    );
    assert!(plan.contains(&Action::Close { hwnd: 103 }));
    // of the four windows below, only the one that is tracked has its name cached
    assert_eq!(state.window_class_cache.len(), 1);
    assert_eq!(state.window_class_cache.get(&103), Some(&String::from(PANE)));
    assert_eq!(state.custom_scroll_cache.len(), 1);
    assert_eq!(state.custom_scroll_cache.get(&MAIN), Some(&false));
}

#[test]
fn hidden_candidate_is_not_asked_to_close() {
    let mut state = tracking(&[MAIN], &[(900, true)]);
    let plan = remove_ads(
        &mut state,
        &vec![main_window(usual_panes())],
        &vec![popup(900, true, browser(900))],
    );
    assert!(plan.contains(&Action::Hide { hwnd: 900 }));
    assert!(!plan.contains(&Action::Close { hwnd: 900 }));
    assert_eq!(state.ad_candidates.get(&900), Some(&true));
}

#[test]
fn a_candidate_is_never_asked_to_close() {
    // the watch pass takes 100 for a main window and 900 and 901 for candidates
    let mut state = AdBlockState::new();
    watch_windows(
        &mut state,
        &vec![
            info(MAIN, "EVA_Window_Dblclk", "KakaoTalk", 0),
            info(900, "EVA_Window", "", 0),
            info(901, "EVA_Window_Dblclk", "", MAIN),
        ],
    );
    state.ad_candidates.insert(900, true);
    // snapshots that list the candidates as empty panes of the main window
    let panes = vec![
        info(101, PANE, "OnlineMainView", MAIN),
        info(900, PANE, "", MAIN),
        info(901, PANE, "", MAIN),
        info(103, PANE, "", MAIN),
    ];
    let plan = remove_ads(
        &mut state,
        &vec![main_window(panes)],
        &vec![popup(900, true, browser(900)), popup(901, false, Vec::new())],
    );
    assert_eq!(
        plan,
        vec![
            resize(103, 0, 0),
            Action::Close { hwnd: 103 },
            Action::Refresh { hwnd: MAIN },
            Action::Hide { hwnd: 900 },
        ]
    );
    assert_eq!(state.ad_candidates.get(&900), Some(&true));
    assert_eq!(state.ad_candidates.get(&901), Some(&false));
}

#[test]
fn nothing_to_look_at_means_nothing_to_do() {
    let mut state = tracking(&[MAIN], &[(900, false)]);
    let plan = remove_ads(&mut state, &Vec::new(), &Vec::new());
    assert_eq!(plan, Vec::<Action>::new());
    assert_eq!(state.main_windows.len(), 1);
    assert_eq!(state.ad_candidates.get(&900), Some(&false));
}
