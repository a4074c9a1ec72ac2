//! The suppression pass: works out what is to be done to the tracked
//! windows so that the advertisement regions go away.
//!
//! The pass is handed a snapshot of every tracked main window and of every
//! advertisement candidate, and returns the actions to perform, in order.
//! It may be run on every cycle for as long as the program lives: what it
//! asks for is safe to do again.
//!
//! For a main window that is valid and is confirmed as one (one of the windows
//! below it is a pane whose text starts with `OnlineMainView` or
//! `LockModeView`), every window below it but the first is looked at, and
//! those whose parent is the main window itself are acted on:
//!
//! - an empty-text pane, where the main window has a text and does not
//!   scroll its own contents, is resized to nothing, then asked to close,
//!   and then the main window is redrawn;
//! - the main-view pane is shrunk by the layout paddings, provided a
//!   positive height remains;
//! - the lock-screen pane is shrunk in width by the shadow padding.
//!
//! An advertisement candidate that is visible and holds an embedded browser
//! window is hidden and marked as processed, whether or not it was hidden
//! before.
//!
//! The pass goes by cached class names where there are any, and caches none
//! for the windows below a main window unless they are tracked themselves.

use vstd::prelude::*;
use crate::state::{AdBlockState, StateView};
use crate::text::{starts_with, str_equal};
use crate::window::class_names::{
    CUSTOM_SCROLL_PREFIX, EVA_CHILD_WINDOW, EVA_WINDOW, EVA_WINDOW_DBLCLK,
};
use crate::window::window_texts::{CHROME_LEGACY, LOCK_MODE_VIEW, ONLINE_MAIN_VIEW};
use crate::window::{
    has_child_class_starting_with, has_chrome_legacy_window, resize, set_window_size,
    some_class_starts_with, some_text_equals, Action, Rect, WindowInfo, WindowSnapshot,
};

verus! {

broadcast use vstd::std_specs::hash::group_hash_axioms;

/// Width of the shadow round a pane.
pub const LAYOUT_SHADOW_PADDING: i32 = 2;

/// Height of the strip below the main view.
pub const MAIN_VIEW_PADDING: i32 = 31;

/// A number that a window size can hold.
pub open spec fn fits_i32(v: int) -> bool {
    i32::MIN <= v <= i32::MAX
}

/// A pane that shows the main view or the lock screen: the mark of a true
/// main window.
pub open spec fn is_view_pane(class_name: Seq<char>, text: Seq<char>) -> bool {
    class_name == EVA_CHILD_WINDOW@ && (ONLINE_MAIN_VIEW@.is_prefix_of(text)
        || LOCK_MODE_VIEW@.is_prefix_of(text))
}

/// A pane that holds an advertisement: it has no text, and the window above
/// it has one.
pub open spec fn is_ad_pane(class_name: Seq<char>, text: Seq<char>, parent_text: Seq<char>) -> bool {
    class_name == EVA_CHILD_WINDOW@ && text.len() == 0 && parent_text.len() > 0
}

/// The three actions that remove an advertisement pane: resize it to
/// nothing, ask it to close, redraw the window above it.
pub open spec fn ad_pane_removal(pane: isize, main_window: isize) -> Seq<Action> {
    seq![resize(pane, 0, 0), Action::Close { hwnd: pane }, Action::Refresh { hwnd: main_window }]
}

/// The actions that shrink the main-view pane `hwnd` within `rect`: none
/// unless `text` starts with `OnlineMainView`, none where no positive height
/// would remain, and none where the new size is no size that a window can
/// have.
pub open spec fn main_view_shrink(text: Seq<char>, rect: Rect, hwnd: isize) -> Seq<Action> {
    let width = rect.right - rect.left - LAYOUT_SHADOW_PADDING;
    let height = rect.bottom - rect.top - MAIN_VIEW_PADDING;
    if ONLINE_MAIN_VIEW@.is_prefix_of(text) && height >= 1 && fits_i32(width) && fits_i32(height) {
        seq![Action::Update { hwnd }, resize(hwnd, width as i32, height as i32)]
    } else {
        Seq::<Action>::empty()
    }
}

/// The actions that shrink the lock-screen pane `hwnd` within `rect`: none
/// unless `text` starts with `LockModeView`, and none where the new size is
/// no size that a window can have.
pub open spec fn lock_screen_shrink(text: Seq<char>, rect: Rect, hwnd: isize) -> Seq<Action> {
    let width = rect.right - rect.left - LAYOUT_SHADOW_PADDING;
    let height = rect.bottom - rect.top;
    if LOCK_MODE_VIEW@.is_prefix_of(text) && fits_i32(width) && fits_i32(height) {
        seq![Action::Update { hwnd }, resize(hwnd, width as i32, height as i32)]
    } else {
        Seq::<Action>::empty()
    }
}

/// In `plan`, whatever is asked to close was resized to nothing in the
/// action just before.
pub open spec fn closes_follow_resize(plan: Seq<Action>) -> bool {
    forall|i: int|
        0 <= i < plan.len() && (#[trigger] plan[i]) is Close ==> i >= 1 && plan[i - 1] == resize(
            plan[i]->Close_hwnd,
            0,
            0,
        )
}

/// The window that an action is about.
pub open spec fn target(action: Action) -> isize {
    match action {
        Action::SetWindowPos { hwnd, .. } => hwnd,
        Action::Close { hwnd } => hwnd,
        Action::Hide { hwnd } => hwnd,
        Action::Update { hwnd } => hwnd,
        Action::Refresh { hwnd } => hwnd,
    }
}

/// Every action of `plan` either redraws the window `main_window` or
/// resizes, updates or closes one of `panes` whose parent is `main_window`.
pub open spec fn acts_on_panes_of(plan: Seq<Action>, main_window: isize, panes: Seq<WindowInfo>) -> bool {
    forall|i: int|
        0 <= i < plan.len() ==> if (#[trigger] plan[i]) is Refresh {
            target(plan[i]) == main_window
        } else {
            !(plan[i] is Hide) && exists|k: int|
                0 <= k < panes.len() && (#[trigger] panes[k]).hwnd == target(plan[i])
                    && panes[k].parent == main_window
        }
}

/// `hwnd` is listed among the windows below one of the main windows of
/// `mains`, after the first.
pub open spec fn listed_as_pane(mains: Seq<WindowSnapshot>, hwnd: isize) -> bool {
    exists|m: int, k: int|
        0 <= m < mains.len() && 1 <= k < mains[m].descendants@.len() && (
        #[trigger] mains[m].descendants@[k]).hwnd == hwnd
}

/// Every action of `plan` either redraws a window, or resizes, updates or
/// closes a window that is listed in `mains` below a main window, after the
/// first.
pub open spec fn acts_on_listed_panes(plan: Seq<Action>, mains: Seq<WindowSnapshot>) -> bool {
    forall|i: int|
        0 <= i < plan.len() && !((#[trigger] plan[i]) is Refresh) ==> !(plan[i] is Hide)
            && listed_as_pane(mains, target(plan[i]))
}

impl StateView {
    /// Whether the main window of snapshot `main` scrolls its own contents:
    /// the cached finding, or else what the snapshot shows.
    pub open spec fn scroll_of(self, main: WindowSnapshot) -> bool {
        if self.custom_scroll_cache.contains_key(main.window.hwnd) {
            self.custom_scroll_cache[main.window.hwnd]
        } else {
            some_class_starts_with(main, CUSTOM_SCROLL_PREFIX@)
        }
    }

    /// The confirmation of a main window: goes through the windows below it, in
    /// order, up to the first view pane. Yields whether there is one, and
    /// the state with the class names that were taken up on the way, which
    /// are those of tracked windows only.
    pub open spec fn confirmation(self, below: Seq<WindowInfo>) -> (StateView, bool)
        decreases below.len(),
    {
        if below.len() == 0 {
            (self, false)
        } else {
            let first = below[0];
            let next = self.remembering(first.hwnd, first.class_name@);
            if is_view_pane(self.class_of(first.hwnd, first.class_name@), first.text@) {
                (next, true)
            } else {
                next.confirmation(below.skip(1))
            }
        }
    }

    /// What the pass does about `pane`, one of the windows below the main
    /// window `main` with rectangle `rect`: the state afterwards and the
    /// actions asked for.
    pub open spec fn pane_step(self, main: WindowSnapshot, rect: Rect, pane: WindowInfo) -> (
        StateView,
        Seq<Action>,
    ) {
        let class_name = self.class_of(pane.hwnd, pane.class_name@);
        let named = self.remembering(pane.hwnd, pane.class_name@);
        if pane.parent != main.window.hwnd {
            (named, Seq::<Action>::empty())
        } else {
            let shrinks = main_view_shrink(pane.text@, rect, pane.hwnd) + lock_screen_shrink(
                pane.text@,
                rect,
                pane.hwnd,
            );
            if is_ad_pane(class_name, pane.text@, main.window.text@) {
                let has_scroll = named.scroll_of(main);
                let found = named.noting_scroll(main.window.hwnd, has_scroll);
                if has_scroll {
                    (found, shrinks)
                } else {
                    (found, ad_pane_removal(pane.hwnd, main.window.hwnd) + shrinks)
                }
            } else {
                (named, shrinks)
            }
        }
    }

    /// What the pass does about `panes`, one after the other.
    pub open spec fn panes_pass(self, main: WindowSnapshot, rect: Rect, panes: Seq<WindowInfo>) -> (
        StateView,
        Seq<Action>,
    )
        decreases panes.len(),
    {
        if panes.len() == 0 {
            (self, Seq::<Action>::empty())
        } else {
            let (before, plan) = self.panes_pass(main, rect, panes.drop_last());
            let (after, more) = before.pane_step(main, rect, panes.last());
            (after, plan + more)
        }
    }

    /// What the pass does about one main window. Nothing at all where the
    /// window is not tracked as a main window or is no longer valid; nothing
    /// but remembering class names where it is not confirmed or the rectangle
    /// could not be read. Otherwise every window below it but the first is
    /// gone through.
    pub open spec fn main_window_step(self, main: WindowSnapshot) -> (StateView, Seq<Action>) {
        if !self.main_windows.contains(main.window.hwnd) || !main.valid {
            (self, Seq::<Action>::empty())
        } else {
            let (confirmed, found_pane) = self.confirmation(main.descendants@);
            if !found_pane {
                (confirmed, Seq::<Action>::empty())
            } else {
                match main.rect {
                    None => (confirmed, Seq::<Action>::empty()),
                    Some(rect) => confirmed.panes_pass(main, rect, main.descendants@.skip(1)),
                }
            }
        }
    }

    /// What the pass does about the main windows, one after the other.
    pub open spec fn main_windows_pass(self, mains: Seq<WindowSnapshot>) -> (
        StateView,
        Seq<Action>,
    )
        decreases mains.len(),
    {
        if mains.len() == 0 {
            (self, Seq::<Action>::empty())
        } else {
            let (before, plan) = self.main_windows_pass(mains.drop_last());
            let (after, more) = before.main_window_step(mains.last());
            (after, plan + more)
        }
    }

    /// Whether the pass hides the candidate of snapshot `ad`: it is a
    /// tracked candidate, it is visible, and it or a window below it is an
    /// embedded browser window.
    pub open spec fn hides(self, ad: WindowSnapshot) -> bool {
        &&& self.ad_candidates.contains_key(ad.window.hwnd)
        &&& ad.visible
        &&& some_text_equals(ad, CHROME_LEGACY@)
    }

    /// What the pass does about one advertisement candidate: hide it and
    /// mark it as processed, or nothing.
    pub open spec fn ad_candidate_step(self, ad: WindowSnapshot) -> (StateView, Seq<Action>) {
        if self.hides(ad) {
            (self.with_processed(ad.window.hwnd), seq![Action::Hide { hwnd: ad.window.hwnd }])
        } else {
            (self, Seq::<Action>::empty())
        }
    }

    /// What the pass does about the advertisement candidates, one after the
    /// other.
    pub open spec fn ad_candidates_pass(self, ads: Seq<WindowSnapshot>) -> (
        StateView,
        Seq<Action>,
    )
        decreases ads.len(),
    {
        if ads.len() == 0 {
            (self, Seq::<Action>::empty())
        } else {
            let (before, plan) = self.ad_candidates_pass(ads.drop_last());
            let (after, more) = before.ad_candidate_step(ads.last());
            (after, plan + more)
        }
    }

    /// A whole suppression pass: the main windows first, then the
    /// advertisement candidates.
    pub open spec fn suppressed(self, mains: Seq<WindowSnapshot>, ads: Seq<WindowSnapshot>) -> (
        StateView,
        Seq<Action>,
    ) {
        let (halfway, plan) = self.main_windows_pass(mains);
        let (after, more) = halfway.ad_candidates_pass(ads);
        (after, plan + more)
    }

    /// `later` tracks the same windows as `self`; class names and
    /// custom-scroll findings that `self` holds are unchanged in it, new
    /// class names are those of tracked windows and new findings those of
    /// main windows, and no candidate that was processed is unprocessed in
    /// it.
    pub open spec fn advanced_to(self, later: StateView) -> bool {
        &&& self.main_windows == later.main_windows
        &&& self.ad_candidates.dom() == later.ad_candidates.dom()
        &&& forall|h: isize|
            #[trigger] self.ad_candidates.contains_key(h) && self.ad_candidates[h]
                ==> later.ad_candidates[h]
        &&& self.window_class_cache.submap_of(later.window_class_cache)
        &&& forall|h: isize| #[trigger]
            later.window_class_cache.contains_key(h) ==> self.window_class_cache.contains_key(h)
                || self.tracks(h)
        &&& self.custom_scroll_cache.submap_of(later.custom_scroll_cache)
        &&& later.custom_scroll_cache.dom().subset_of(
            self.custom_scroll_cache.dom().union(self.main_windows),
        )
    }
}

/// Check if window has custom scroll (starts with _EVA_)
pub fn has_custom_scroll(tree: &WindowSnapshot) -> (r: bool)
    ensures
        r == some_class_starts_with(*tree, CUSTOM_SCROLL_PREFIX@),
{
    has_child_class_starting_with(tree, CUSTOM_SCROLL_PREFIX)
}

/// Check if this is a main window (has OnlineMainView or LockModeView child)
pub fn is_main_window(children: &Vec<WindowInfo>, state: &mut AdBlockState) -> (r: bool)
    ensures
        (final(state)@, r) == old(state)@.confirmation(children@),
        old(state)@.no_orphans() ==> final(state)@.no_orphans(),
{
    proof {
        lemma_confirmation_advances(state@, children@);
        if state@.no_orphans() {
            lemma_advance_keeps_no_orphans(state@, state@.confirmation(children@).0);
        }
    }
    let ghost before = state@;
    let mut i: usize = 0;
    assert(children@.skip(0) == children@);
    while i < children.len()
        invariant
            i <= children.len(),
            before == old(state)@,
            before.no_orphans() ==> before.confirmation(children@).0.no_orphans(),
            before.confirmation(children@) == state@.confirmation(children@.skip(i as int)),
        decreases children.len() - i,
    {
        let child = &children[i];
        assert(children@.skip(i as int)[0] == children@[i as int]);
        assert(children@.skip(i as int).skip(1) == children@.skip(i + 1));
        let ghost earlier = state@;
        let class_name = state.class_in_pass(child.hwnd, child.class_name.as_str());
        i += 1;
        if !str_equal(class_name.as_str(), EVA_CHILD_WINDOW) {
            continue ;
        }
        if starts_with(child.text.as_str(), ONLINE_MAIN_VIEW) || starts_with(
            child.text.as_str(),
            LOCK_MODE_VIEW,
        ) {
            assert(is_view_pane(class_name@, child.text@));
            assert(earlier.confirmation(children@.skip(i - 1)) == (state@, true));
            return true;
        }
    }
    false
}

/// Hide the main view ad area by resizing: appends to `plan` the actions
/// that shrink the pane `hwnd`, if `window_text` marks it as the main view.
pub fn hide_main_view_ad_area(
    window_text: &str,
    rect: &Rect,
    hwnd: isize,
    plan: &mut Vec<Action>,
)
    ensures
        final(plan)@ == old(plan)@ + main_view_shrink(window_text@, *rect, hwnd),
{
    if starts_with(window_text, ONLINE_MAIN_VIEW) {
        let width: i64 = rect.right as i64 - rect.left as i64 - LAYOUT_SHADOW_PADDING as i64;
        let height: i64 = rect.bottom as i64 - rect.top as i64 - MAIN_VIEW_PADDING as i64;
        if height < 1 {
            assert(plan@ + Seq::<Action>::empty() == plan@);
            return ;
        }
        if width < i32::MIN as i64 || width > i32::MAX as i64 || height > i32::MAX as i64 {
            assert(plan@ + Seq::<Action>::empty() == plan@);
            return ;
        }
        let ghost before = plan@;
        plan.push(Action::Update { hwnd });
        plan.push(set_window_size(hwnd, width as i32, height as i32));
        assert(plan@ == before + main_view_shrink(window_text@, *rect, hwnd));
    } else {
        assert(plan@ + Seq::<Action>::empty() == plan@);
    }
}

/// Hide the lock screen ad area by resizing: appends to `plan` the actions
/// that shrink the pane `hwnd`, if `window_text` marks it as the lock
/// screen.
pub fn hide_lock_screen_ad_area(
    window_text: &str,
    rect: &Rect,
    hwnd: isize,
    plan: &mut Vec<Action>,
)
    ensures
        final(plan)@ == old(plan)@ + lock_screen_shrink(window_text@, *rect, hwnd),
{
    if starts_with(window_text, LOCK_MODE_VIEW) {
        let width: i64 = rect.right as i64 - rect.left as i64 - LAYOUT_SHADOW_PADDING as i64;
        let height: i64 = rect.bottom as i64 - rect.top as i64;
        if width < i32::MIN as i64 || width > i32::MAX as i64 || height < i32::MIN as i64 || height
            > i32::MAX as i64 {
            assert(plan@ + Seq::<Action>::empty() == plan@);
            return ;
        }
        let ghost before = plan@;
        plan.push(Action::Update { hwnd });
        plan.push(set_window_size(hwnd, width as i32, height as i32));
        assert(plan@ == before + lock_screen_shrink(window_text@, *rect, hwnd));
    } else {
        assert(plan@ + Seq::<Action>::empty() == plan@);
    }
}

/// Whether a main window scrolls its own contents. The finding is taken
/// from the cache where it is cached; otherwise it is read off the snapshot,
/// and cached if the window is tracked as a main window.
pub fn custom_scroll(state: &mut AdBlockState, main: &WindowSnapshot) -> (r: bool)
    ensures
        r == old(state)@.scroll_of(*main),
        final(state)@ == old(state)@.noting_scroll(main.window.hwnd, r),
        old(state)@.no_orphans() ==> final(state)@.no_orphans(),
{
    match state.custom_scroll_cache.get(&main.window.hwnd) {
        Some(cached) => {
            let r = *cached;
            assert(state@.custom_scroll_cache =~= state@.with_scroll(
                main.window.hwnd,
                r,
            ).custom_scroll_cache);
            return r;
        },
        None => {},
    }
    let r = has_custom_scroll(main);
    let ghost before = state@;
    if state.main_windows.contains(&main.window.hwnd) {
        state.custom_scroll_cache.insert(main.window.hwnd, r);
    }
    assert(before.no_orphans() ==> state@.no_orphans()) by {
        assert(state@.window_class_cache == before.window_class_cache);
        assert forall|h: isize| #[trigger]
            state@.window_class_cache.contains_key(h) && before.no_orphans() implies state@.tracks(
            h,
        ) by {
            assert(before.tracks(h));
        }
    }
    r
}

/// Deals with one of the windows below a main window, and appends what is
/// to be done to `plan`.
pub fn suppress_pane(
    state: &mut AdBlockState,
    main: &WindowSnapshot,
    rect: &Rect,
    pane: &WindowInfo,
    plan: &mut Vec<Action>,
)
    ensures
        final(state)@ == old(state)@.pane_step(*main, *rect, *pane).0,
        final(plan)@ == old(plan)@ + old(state)@.pane_step(*main, *rect, *pane).1,
        old(state)@.no_orphans() ==> final(state)@.no_orphans(),
{
    proof {
        lemma_pane_step_advances(state@, *main, *rect, *pane);
        if state@.no_orphans() {
            lemma_advance_keeps_no_orphans(state@, state@.pane_step(*main, *rect, *pane).0);
        }
    }
    let ghost before = plan@;
    let class_name = state.class_in_pass(pane.hwnd, pane.class_name.as_str());
    // Skip if not direct child of main window
    if pane.parent != main.window.hwnd {
        assert(plan@ + Seq::<Action>::empty() == plan@);
        return ;
    }
    let ghost removal = Seq::<Action>::empty();
    // Hide ad child windows: resize to 0x0 first (instant visual removal),
    // then close (cleanup)
    if str_equal(class_name.as_str(), EVA_CHILD_WINDOW) && pane.text.as_str().is_empty()
        && !main.window.text.as_str().is_empty() {
        let has_scroll = custom_scroll(state, main);
        if !has_scroll {
            plan.push(set_window_size(pane.hwnd, 0, 0));
            plan.push(Action::Close { hwnd: pane.hwnd });
            plan.push(Action::Refresh { hwnd: main.window.hwnd });
            proof {
                removal = ad_pane_removal(pane.hwnd, main.window.hwnd);
            }
        }
    }
    assert(plan@ == before + removal);
    // Resize to hide ad areas
    hide_main_view_ad_area(pane.text.as_str(), rect, pane.hwnd, plan);
    hide_lock_screen_ad_area(pane.text.as_str(), rect, pane.hwnd, plan);
    assert(plan@ == before + (removal + (main_view_shrink(pane.text@, *rect, pane.hwnd)
        + lock_screen_shrink(pane.text@, *rect, pane.hwnd))));
    assert(Seq::<Action>::empty() + (main_view_shrink(pane.text@, *rect, pane.hwnd)
        + lock_screen_shrink(pane.text@, *rect, pane.hwnd)) == main_view_shrink(
        pane.text@,
        *rect,
        pane.hwnd,
    ) + lock_screen_shrink(pane.text@, *rect, pane.hwnd));
}

/// Deals with one main window, and appends what is to be done to `plan`.
pub fn suppress_main_window(
    state: &mut AdBlockState,
    main: &WindowSnapshot,
    plan: &mut Vec<Action>,
)
    ensures
        final(state)@ == old(state)@.main_window_step(*main).0,
        final(plan)@ == old(plan)@ + old(state)@.main_window_step(*main).1,
        old(state)@.no_orphans() ==> final(state)@.no_orphans(),
{
    proof {
        lemma_main_window_step_advances(state@, *main);
        if state@.no_orphans() {
            lemma_advance_keeps_no_orphans(state@, state@.main_window_step(*main).0);
        }
    }
    let ghost plan_before = plan@;
    assert(plan@ + Seq::<Action>::empty() == plan@);
    // Skip windows that are not ours, and invalid windows
    if !state.main_windows.contains(&main.window.hwnd) || !main.valid {
        return ;
    }
    // Check if this is really a main window
    if !is_main_window(&main.descendants, state) {
        return ;
    }
    // Get window rect
    let rect = match main.rect {
        Some(r) => r,
        None => {
            return ;
        },
    };
    let ghost confirmed = state@;
    let ghost panes = main.descendants@.skip(1);
    // Process child windows (skip first which is the main child)
    let mut i: usize = 1;
    assert(panes.take(0) == Seq::<WindowInfo>::empty());
    while i < main.descendants.len()
        invariant
            1 <= i,
            main.descendants.len() >= 1 ==> i <= main.descendants.len(),
            panes == main.descendants@.skip(1),
            i <= main.descendants.len() ==> state@ == confirmed.panes_pass(
                *main,
                rect,
                panes.take(i - 1),
            ).0,
            i <= main.descendants.len() ==> plan@ == plan_before + confirmed.panes_pass(
                *main,
                rect,
                panes.take(i - 1),
            ).1,
        decreases main.descendants.len() - i,
    {
        assert(panes.take(i as int).drop_last() == panes.take(i - 1));
        assert(panes.take(i as int).last() == main.descendants@[i as int]);
        let ghost so_far = confirmed.panes_pass(*main, rect, panes.take(i - 1));
        let ghost step = so_far.0.pane_step(*main, rect, main.descendants@[i as int]);
        suppress_pane(state, main, &rect, &main.descendants[i], plan);
        assert(plan@ == plan_before + (so_far.1 + step.1));
        i += 1;
    }
    if main.descendants.len() >= 1 {
        assert(panes.take(main.descendants.len() - 1) == panes);
    } else {
        assert(panes == Seq::<WindowInfo>::empty());
    }
}

/// Deals with one advertisement candidate, and appends what is to be done
/// to `plan`.
pub fn suppress_ad_candidate(
    state: &mut AdBlockState,
    ad: &WindowSnapshot,
    plan: &mut Vec<Action>,
)
    ensures
        final(state)@ == old(state)@.ad_candidate_step(*ad).0,
        final(plan)@ == old(plan)@ + old(state)@.ad_candidate_step(*ad).1,
        old(state)@.no_orphans() ==> final(state)@.no_orphans(),
{
    // Only process if window is visible (re-appeared or never hidden)
    if state.ad_candidates.contains_key(&ad.window.hwnd) && ad.visible
        && has_chrome_legacy_window(ad) {
        let ghost before = plan@;
        plan.push(Action::Hide { hwnd: ad.window.hwnd });
        state.ad_candidates.insert(ad.window.hwnd, true);
        assert(plan@ == before + seq![Action::Hide { hwnd: ad.window.hwnd }]);
    } else {
        // Hidden already, or no advertisement in it yet: left as it is
        assert(plan@ + Seq::<Action>::empty() == plan@);
    }
}

/// Remove ads from KakaoTalk windows: one suppression pass.
///
/// `main_windows` holds a snapshot of each tracked main window and
/// `ad_candidates` one of each advertisement candidate. Returns the actions
/// to perform, in order; the state takes up the class names and
/// custom-scroll findings that were looked up, and the candidates that are
/// to be hidden are marked as processed.
pub fn remove_ads(
    state: &mut AdBlockState,
    main_windows: &Vec<WindowSnapshot>,
    ad_candidates: &Vec<WindowSnapshot>,
) -> (plan: Vec<Action>)
    ensures
        (final(state)@, plan@) == old(state)@.suppressed(main_windows@, ad_candidates@),
        closes_follow_resize(plan@),
        old(state)@.advanced_to(final(state)@),
        old(state)@.scroll_cache_is_for_main_windows()
            ==> final(state)@.scroll_cache_is_for_main_windows(),
        old(state)@.no_orphans() ==> final(state)@.no_orphans(),
        old(state)@.candidates_are_classified() ==> final(state)@.candidates_are_classified(),
{
    let ghost before = state@;
    let mut plan: Vec<Action> = Vec::new();
    let mut i: usize = 0;
    assert(main_windows@.take(0) == Seq::<WindowSnapshot>::empty());
    while i < main_windows.len()
        invariant
            i <= main_windows.len(),
            (state@, plan@) == before.main_windows_pass(main_windows@.take(i as int)),
        decreases main_windows.len() - i,
    {
        assert(main_windows@.take(i + 1).drop_last() == main_windows@.take(i as int));
        suppress_main_window(state, &main_windows[i], &mut plan);
        i += 1;
    }
    assert(main_windows@.take(main_windows.len() as int) == main_windows@);
    let ghost halfway = state@;
    let ghost first_plan = plan@;
    // Hide ad popup windows (Chrome Legacy Window)
    // Check ALL candidates - ads can reappear even after being hidden
    let mut j: usize = 0;
    assert(ad_candidates@.take(0) == Seq::<WindowSnapshot>::empty());
    assert(first_plan + Seq::<Action>::empty() == first_plan);
    while j < ad_candidates.len()
        invariant
            j <= ad_candidates.len(),
            state@ == halfway.ad_candidates_pass(ad_candidates@.take(j as int)).0,
            plan@ == first_plan + halfway.ad_candidates_pass(ad_candidates@.take(j as int)).1,
        decreases ad_candidates.len() - j,
    {
        assert(ad_candidates@.take(j + 1).drop_last() == ad_candidates@.take(j as int));
        let ghost so_far = halfway.ad_candidates_pass(ad_candidates@.take(j as int));
        let ghost step = so_far.0.ad_candidate_step(ad_candidates@[j as int]);
        suppress_ad_candidate(state, &ad_candidates[j], &mut plan);
        assert(plan@ == first_plan + (so_far.1 + step.1));
        j += 1;
    }
    assert(ad_candidates@.take(ad_candidates.len() as int) == ad_candidates@);
    proof {
        lemma_resize_before_close(before, main_windows@, ad_candidates@);
        lemma_suppression_advances(before, main_windows@, ad_candidates@);
    }
    plan
}

/// Two plans in which closes follow resizes make one such plan when put
/// one after the other.
proof fn lemma_closes_follow_resize_concat(a: Seq<Action>, b: Seq<Action>)
    requires
        closes_follow_resize(a),
        closes_follow_resize(b),
    ensures
        closes_follow_resize(a + b),
{
    assert forall|i: int| 0 <= i < (a + b).len() && (#[trigger] (a + b)[i]) is Close implies i >= 1
        && (a + b)[i - 1] == resize((a + b)[i]->Close_hwnd, 0, 0) by {
        if i < a.len() {
            assert(a[i] is Close);
        } else {
            assert(b[i - a.len()] is Close);
            assert(i - a.len() >= 1);
        }
    }
}

proof fn lemma_pane_step_closes(s: StateView, main: WindowSnapshot, rect: Rect, pane: WindowInfo)
    ensures
        closes_follow_resize(s.pane_step(main, rect, pane).1),
{
    let shrinks = main_view_shrink(pane.text@, rect, pane.hwnd) + lock_screen_shrink(
        pane.text@,
        rect,
        pane.hwnd,
    );
    lemma_closes_follow_resize_concat(
        main_view_shrink(pane.text@, rect, pane.hwnd),
        lock_screen_shrink(pane.text@, rect, pane.hwnd),
    );
    lemma_closes_follow_resize_concat(ad_pane_removal(pane.hwnd, main.window.hwnd), shrinks);
}

proof fn lemma_panes_pass_closes(
    s: StateView,
    main: WindowSnapshot,
    rect: Rect,
    panes: Seq<WindowInfo>,
)
    ensures
        closes_follow_resize(s.panes_pass(main, rect, panes).1),
    decreases panes.len(),
{
    if panes.len() > 0 {
        lemma_panes_pass_closes(s, main, rect, panes.drop_last());
        let before = s.panes_pass(main, rect, panes.drop_last());
        lemma_pane_step_closes(before.0, main, rect, panes.last());
        lemma_closes_follow_resize_concat(before.1, before.0.pane_step(main, rect, panes.last()).1);
    }
}

proof fn lemma_main_windows_pass_closes(s: StateView, mains: Seq<WindowSnapshot>)
    ensures
        closes_follow_resize(s.main_windows_pass(mains).1),
    decreases mains.len(),
{
    if mains.len() > 0 {
        lemma_main_windows_pass_closes(s, mains.drop_last());
        let before = s.main_windows_pass(mains.drop_last());
        let main = mains.last();
        let confirmed = before.0.confirmation(main.descendants@).0;
        if main.rect is Some {
            lemma_panes_pass_closes(confirmed, main, main.rect->0, main.descendants@.skip(1));
        }
        lemma_closes_follow_resize_concat(before.1, before.0.main_window_step(main).1);
    }
}

proof fn lemma_ad_candidates_pass_closes(s: StateView, ads: Seq<WindowSnapshot>)
    ensures
        closes_follow_resize(s.ad_candidates_pass(ads).1),
    decreases ads.len(),
{
    if ads.len() > 0 {
        lemma_ad_candidates_pass_closes(s, ads.drop_last());
        let before = s.ad_candidates_pass(ads.drop_last());
        lemma_closes_follow_resize_concat(before.1, before.0.ad_candidate_step(ads.last()).1);
    }
}

/// Suppression ordering: in the plan of a suppression pass, a window is
/// asked to close only directly after it was resized to nothing.
pub proof fn lemma_resize_before_close(
    s: StateView,
    mains: Seq<WindowSnapshot>,
    ads: Seq<WindowSnapshot>,
)
    ensures
        closes_follow_resize(s.suppressed(mains, ads).1),
{
    lemma_main_windows_pass_closes(s, mains);
    lemma_ad_candidates_pass_closes(s.main_windows_pass(mains).0, ads);
    lemma_closes_follow_resize_concat(
        s.main_windows_pass(mains).1,
        s.main_windows_pass(mains).0.ad_candidates_pass(ads).1,
    );
}

/// In the plan for an advertisement pane that is to go, the resize to
/// nothing comes first, the request to close second, and the redraw of the
/// main window third.
pub proof fn lemma_ad_pane_removal_order(
    s: StateView,
    main: WindowSnapshot,
    rect: Rect,
    pane: WindowInfo,
)
    requires
        pane.parent == main.window.hwnd,
        is_ad_pane(s.class_of(pane.hwnd, pane.class_name@), pane.text@, main.window.text@),
        !s.remembering(pane.hwnd, pane.class_name@).scroll_of(main),
    ensures
        s.pane_step(main, rect, pane).1.len() >= 3,
        s.pane_step(main, rect, pane).1[0] == resize(pane.hwnd, 0, 0),
        s.pane_step(main, rect, pane).1[1] == (Action::Close { hwnd: pane.hwnd }),
        s.pane_step(main, rect, pane).1[2] == (Action::Refresh { hwnd: main.window.hwnd }),
{
}

proof fn lemma_advanced_to_transitive(a: StateView, b: StateView, c: StateView)
    requires
        a.advanced_to(b),
        b.advanced_to(c),
    ensures
        a.advanced_to(c),
{
    assert forall|h: isize| #[trigger]
        a.ad_candidates.contains_key(h) && a.ad_candidates[h] implies c.ad_candidates[h] by {
        assert(b.ad_candidates.contains_key(h));
    }
    assert(a.window_class_cache.submap_of(c.window_class_cache)) by {
        assert forall|h: isize| #[trigger]
            a.window_class_cache.contains_key(h) implies c.window_class_cache.contains_key(h)
            && a.window_class_cache[h] == c.window_class_cache[h] by {
            assert(a.window_class_cache.dom().contains(h));
            assert(b.window_class_cache.dom().contains(h));
            assert(c.window_class_cache.dom().contains(h));
        }
    }
    assert forall|h: isize| #[trigger]
        c.window_class_cache.contains_key(h) implies a.window_class_cache.contains_key(h)
        || a.tracks(h) by {
        if b.window_class_cache.contains_key(h) {
        } else {
            assert(b.tracks(h));
            assert(b.ad_candidates.dom().contains(h) == a.ad_candidates.dom().contains(h));
        }
    }
    assert(a.custom_scroll_cache.submap_of(c.custom_scroll_cache)) by {
        assert forall|h: isize| #[trigger]
            a.custom_scroll_cache.contains_key(h) implies c.custom_scroll_cache.contains_key(h)
            && a.custom_scroll_cache[h] == c.custom_scroll_cache[h] by {
            assert(a.custom_scroll_cache.dom().contains(h));
            assert(b.custom_scroll_cache.dom().contains(h));
            assert(c.custom_scroll_cache.dom().contains(h));
        }
    }
    assert forall|h: isize| #[trigger]
        c.custom_scroll_cache.contains_key(h) implies a.custom_scroll_cache.dom().union(
        a.main_windows,
    ).contains(h) by {
        assert(b.custom_scroll_cache.dom().union(b.main_windows).contains(h));
        if b.custom_scroll_cache.contains_key(h) {
            assert(a.custom_scroll_cache.dom().union(a.main_windows).contains(h));
        }
    }
}

/// What advances from a state without orphaned cache entries has none.
proof fn lemma_advance_keeps_no_orphans(s: StateView, later: StateView)
    requires
        s.advanced_to(later),
        s.no_orphans(),
    ensures
        later.no_orphans(),
{
    assert forall|h: isize| #[trigger] later.window_class_cache.contains_key(h) implies later.tracks(
        h,
    ) by {
        assert(s.ad_candidates.dom().contains(h) == later.ad_candidates.dom().contains(h));
    }
}

proof fn lemma_remembering_advances(s: StateView, hwnd: isize, reported: Seq<char>)
    ensures
        s.advanced_to(s.remembering(hwnd, reported)),
{
    assert(s.window_class_cache.submap_of(s.remembering(hwnd, reported).window_class_cache));
}

proof fn lemma_confirmation_advances(s: StateView, below: Seq<WindowInfo>)
    ensures
        s.advanced_to(s.confirmation(below).0),
        s.confirmation(below).0.custom_scroll_cache == s.custom_scroll_cache,
        s.confirmation(below).0.ad_candidates == s.ad_candidates,
    decreases below.len(),
{
    if below.len() > 0 {
        let next = s.remembering(below[0].hwnd, below[0].class_name@);
        lemma_remembering_advances(s, below[0].hwnd, below[0].class_name@);
        lemma_confirmation_advances(next, below.skip(1));
        lemma_advanced_to_transitive(s, next, next.confirmation(below.skip(1)).0);
    }
}

proof fn lemma_pane_step_advances(
    s: StateView,
    main: WindowSnapshot,
    rect: Rect,
    pane: WindowInfo,
)
    ensures
        s.advanced_to(s.pane_step(main, rect, pane).0),
        s.pane_step(main, rect, pane).0.ad_candidates == s.ad_candidates,
{
    let named = s.remembering(pane.hwnd, pane.class_name@);
    lemma_remembering_advances(s, pane.hwnd, pane.class_name@);
    let found = named.noting_scroll(main.window.hwnd, named.scroll_of(main));
    assert(named.custom_scroll_cache.submap_of(found.custom_scroll_cache));
    assert(named.advanced_to(found));
    lemma_advanced_to_transitive(s, named, found);
}

proof fn lemma_panes_pass_advances(
    s: StateView,
    main: WindowSnapshot,
    rect: Rect,
    panes: Seq<WindowInfo>,
)
    ensures
        s.advanced_to(s.panes_pass(main, rect, panes).0),
        s.panes_pass(main, rect, panes).0.ad_candidates == s.ad_candidates,
    decreases panes.len(),
{
    if panes.len() > 0 {
        lemma_panes_pass_advances(s, main, rect, panes.drop_last());
        let before = s.panes_pass(main, rect, panes.drop_last()).0;
        lemma_pane_step_advances(before, main, rect, panes.last());
        lemma_advanced_to_transitive(s, before, before.pane_step(main, rect, panes.last()).0);
    }
}

proof fn lemma_main_window_step_advances(s: StateView, main: WindowSnapshot)
    ensures
        s.advanced_to(s.main_window_step(main).0),
        s.main_window_step(main).0.ad_candidates == s.ad_candidates,
{
    lemma_confirmation_advances(s, main.descendants@);
    let confirmed = s.confirmation(main.descendants@).0;
    if s.main_windows.contains(main.window.hwnd) && main.rect is Some {
        lemma_panes_pass_advances(confirmed, main, main.rect->0, main.descendants@.skip(1));
        lemma_advanced_to_transitive(
            s,
            confirmed,
            confirmed.panes_pass(main, main.rect->0, main.descendants@.skip(1)).0,
        );
    }
}

proof fn lemma_main_windows_pass_advances(s: StateView, mains: Seq<WindowSnapshot>)
    ensures
        s.advanced_to(s.main_windows_pass(mains).0),
        s.main_windows_pass(mains).0.ad_candidates == s.ad_candidates,
    decreases mains.len(),
{
    if mains.len() > 0 {
        lemma_main_windows_pass_advances(s, mains.drop_last());
        let before = s.main_windows_pass(mains.drop_last()).0;
        lemma_main_window_step_advances(before, mains.last());
        lemma_advanced_to_transitive(s, before, before.main_window_step(mains.last()).0);
    }
}

proof fn lemma_ad_candidates_pass_advances(s: StateView, ads: Seq<WindowSnapshot>)
    ensures
        s.advanced_to(s.ad_candidates_pass(ads).0),
        s.ad_candidates_pass(ads).0.custom_scroll_cache == s.custom_scroll_cache,
    decreases ads.len(),
{
    if ads.len() > 0 {
        lemma_ad_candidates_pass_advances(s, ads.drop_last());
        let before = s.ad_candidates_pass(ads.drop_last()).0;
        let after = before.ad_candidate_step(ads.last()).0;
        assert(before.ad_candidates.dom() =~= after.ad_candidates.dom());
        assert(before.advanced_to(after));
        lemma_advanced_to_transitive(s, before, after);
    }
}

/// A suppression pass tracks no new window and drops none. It never
/// unmarks a processed candidate, it keeps every cached class name and
/// custom-scroll finding as it is, and it adds class names for tracked
/// windows and custom-scroll findings for main windows only: where no cache
/// entry was without its window before the pass, none is after it.
pub proof fn lemma_suppression_advances(
    s: StateView,
    mains: Seq<WindowSnapshot>,
    ads: Seq<WindowSnapshot>,
)
    ensures
        s.advanced_to(s.suppressed(mains, ads).0),
        s.scroll_cache_is_for_main_windows() ==> s.suppressed(
            mains,
            ads,
        ).0.scroll_cache_is_for_main_windows(),
        s.no_orphans() ==> s.suppressed(mains, ads).0.no_orphans(),
        s.candidates_are_classified() ==> s.suppressed(
            mains,
            ads,
        ).0.candidates_are_classified(),
{
    lemma_main_windows_pass_advances(s, mains);
    let halfway = s.main_windows_pass(mains).0;
    lemma_ad_candidates_pass_advances(halfway, ads);
    lemma_advanced_to_transitive(s, halfway, halfway.ad_candidates_pass(ads).0);
    let after = s.suppressed(mains, ads).0;
    if s.candidates_are_classified() {
        assert forall|h: isize| #[trigger] after.ad_candidates.contains_key(h) implies
            after.window_class_cache.contains_key(h) && (after.window_class_cache[h]
            == EVA_WINDOW_DBLCLK@ || after.window_class_cache[h] == EVA_WINDOW@) by {
            assert(s.ad_candidates.dom().contains(h) == after.ad_candidates.dom().contains(h));
            assert(s.ad_candidates.contains_key(h));
            assert(s.window_class_cache.dom().contains(h));
            assert(after.window_class_cache.dom().contains(h));
        }
    }
}

/// Re-suppression: a candidate that was processed before, and that is
/// visible and holds an embedded browser window, is hidden again, and it
/// stays processed. Nothing else changes.
pub proof fn lemma_processed_candidate_is_hidden_again(s: StateView, ad: WindowSnapshot)
    requires
        s.ad_candidates.contains_key(ad.window.hwnd),
        s.ad_candidates[ad.window.hwnd],
        ad.visible,
        some_text_equals(ad, CHROME_LEGACY@),
    ensures
        s.ad_candidate_step(ad).1 == seq![Action::Hide { hwnd: ad.window.hwnd }],
        s.ad_candidate_step(ad).0.ad_candidates[ad.window.hwnd],
        s.ad_candidate_step(ad).0 == s,
{
    assert(s.ad_candidates.insert(ad.window.hwnd, true) =~= s.ad_candidates);
}

proof fn lemma_acts_on_more_panes(
    plan: Seq<Action>,
    main_window: isize,
    panes: Seq<WindowInfo>,
    more: Seq<WindowInfo>,
)
    requires
        acts_on_panes_of(plan, main_window, panes),
        forall|k: int| 0 <= k < panes.len() ==> more.contains(#[trigger] panes[k]),
    ensures
        acts_on_panes_of(plan, main_window, more),
{
    assert forall|i: int| 0 <= i < plan.len() && !((#[trigger] plan[i]) is Refresh) implies exists|
        m: int,
    |
        0 <= m < more.len() && (#[trigger] more[m]).hwnd == target(plan[i]) && more[m].parent
            == main_window by {
        let k = choose|k: int|
            0 <= k < panes.len() && (#[trigger] panes[k]).hwnd == target(plan[i])
                && panes[k].parent == main_window;
        assert(more.contains(panes[k]));
        let m = choose|m: int| 0 <= m < more.len() && more[m] == panes[k];
        assert(more[m].hwnd == target(plan[i]));
    }
}

proof fn lemma_acts_on_panes_concat(
    a: Seq<Action>,
    b: Seq<Action>,
    main_window: isize,
    panes: Seq<WindowInfo>,
)
    requires
        acts_on_panes_of(a, main_window, panes),
        acts_on_panes_of(b, main_window, panes),
    ensures
        acts_on_panes_of(a + b, main_window, panes),
{
    assert forall|i: int| 0 <= i < (a + b).len() implies if (#[trigger] (a + b)[i]) is Refresh {
        target((a + b)[i]) == main_window
    } else {
        !((a + b)[i] is Hide) && exists|k: int|
            0 <= k < panes.len() && (#[trigger] panes[k]).hwnd == target((a + b)[i])
                && panes[k].parent == main_window
    } by {
        if i < a.len() {
            assert((a + b)[i] == a[i]);
        } else {
            assert((a + b)[i] == b[i - a.len()]);
        }
    }
}

proof fn lemma_pane_step_targets(s: StateView, main: WindowSnapshot, rect: Rect, pane: WindowInfo)
    ensures
        acts_on_panes_of(s.pane_step(main, rect, pane).1, main.window.hwnd, seq![pane]),
{
    let plan = s.pane_step(main, rect, pane).1;
    assert forall|i: int| 0 <= i < plan.len() && !((#[trigger] plan[i]) is Refresh) implies exists|
        k: int,
    |
        0 <= k < seq![pane].len() && (#[trigger] seq![pane][k]).hwnd == target(plan[i])
            && seq![pane][k].parent == main.window.hwnd by {
        assert(seq![pane][0] == pane);
        assert(target(plan[i]) == pane.hwnd);
    }
}

proof fn lemma_panes_pass_targets(
    s: StateView,
    main: WindowSnapshot,
    rect: Rect,
    panes: Seq<WindowInfo>,
)
    ensures
        acts_on_panes_of(s.panes_pass(main, rect, panes).1, main.window.hwnd, panes),
    decreases panes.len(),
{
    if panes.len() > 0 {
        let before = s.panes_pass(main, rect, panes.drop_last());
        let step = before.0.pane_step(main, rect, panes.last());
        lemma_panes_pass_targets(s, main, rect, panes.drop_last());
        assert forall|k: int| 0 <= k < panes.drop_last().len() implies panes.contains(
            #[trigger] panes.drop_last()[k],
        ) by {
            assert(panes[k] == panes.drop_last()[k]);
        }
        lemma_acts_on_more_panes(before.1, main.window.hwnd, panes.drop_last(), panes);
        lemma_pane_step_targets(before.0, main, rect, panes.last());
        assert forall|k: int| 0 <= k < seq![panes.last()].len() implies panes.contains(
            #[trigger] seq![panes.last()][k],
        ) by {
            assert(panes[panes.len() - 1] == panes.last());
        }
        lemma_acts_on_more_panes(step.1, main.window.hwnd, seq![panes.last()], panes);
        lemma_acts_on_panes_concat(before.1, step.1, main.window.hwnd, panes);
    }
}

/// What a suppression pass asks for on account of a main window is about
/// that window and the windows directly below it, less the first: every
/// action either redraws the main window, or resizes, updates or closes a
/// window that stands after the first in the snapshot and whose parent is
/// the main window. The first window below and windows deeper down are
/// never acted on.
pub proof fn lemma_main_window_plan_targets(s: StateView, main: WindowSnapshot)
    ensures
        acts_on_panes_of(s.main_window_step(main).1, main.window.hwnd, main.descendants@.skip(1)),
{
    let confirmed = s.confirmation(main.descendants@).0;
    if main.rect is Some {
        lemma_panes_pass_targets(confirmed, main, main.rect->0, main.descendants@.skip(1));
    }
}

/// What a suppression pass asks for on account of a candidate is to hide
/// that candidate, or nothing; and it asks for it only of a candidate that
/// is tracked and visible.
pub proof fn lemma_ad_candidate_plan_targets(s: StateView, ad: WindowSnapshot, i: int)
    requires
        0 <= i < s.ad_candidate_step(ad).1.len(),
    ensures
        s.ad_candidate_step(ad).1[i] == (Action::Hide { hwnd: ad.window.hwnd }),
        s.ad_candidates.contains_key(ad.window.hwnd),
        ad.visible,
{
}

proof fn lemma_main_windows_pass_targets(s: StateView, mains: Seq<WindowSnapshot>)
    ensures
        acts_on_listed_panes(s.main_windows_pass(mains).1, mains),
    decreases mains.len(),
{
    if mains.len() > 0 {
        let before = s.main_windows_pass(mains.drop_last());
        let last = mains.len() - 1;
        let step = before.0.main_window_step(mains.last()).1;
        let plan = before.1 + step;
        lemma_main_windows_pass_targets(s, mains.drop_last());
        lemma_main_window_plan_targets(before.0, mains.last());
        assert forall|i: int| 0 <= i < plan.len() && !((#[trigger] plan[i]) is Refresh) implies !(
        plan[i] is Hide) && listed_as_pane(mains, target(plan[i])) by {
            if i < before.1.len() {
                assert(plan[i] == before.1[i]);
                assert(listed_as_pane(mains.drop_last(), target(plan[i])));
                let (m, k) = choose|m: int, k: int|
                    0 <= m < mains.drop_last().len() && 1 <= k < mains.drop_last()[m].descendants@.len()
                        && (#[trigger] mains.drop_last()[m].descendants@[k]).hwnd == target(
                        plan[i],
                    );
                assert(mains[m].descendants@[k].hwnd == target(plan[i]));
            } else {
                let action = step[i - before.1.len()];
                assert(plan[i] == action);
                let panes = mains.last().descendants@.skip(1);
                let k = choose|k: int|
                    0 <= k < panes.len() && (#[trigger] panes[k]).hwnd == target(action)
                        && panes[k].parent == mains.last().window.hwnd;
                assert(mains[last].descendants@[k + 1].hwnd == target(action));
            }
        }
    }
}

proof fn lemma_ad_candidates_pass_only_hides(s: StateView, ads: Seq<WindowSnapshot>)
    ensures
        forall|i: int|
            0 <= i < s.ad_candidates_pass(ads).1.len() ==> (#[trigger] s.ad_candidates_pass(
                ads,
            ).1[i]) is Hide,
    decreases ads.len(),
{
    if ads.len() > 0 {
        lemma_ad_candidates_pass_only_hides(s, ads.drop_last());
        let before = s.ad_candidates_pass(ads.drop_last());
        let step = before.0.ad_candidate_step(ads.last()).1;
        assert forall|i: int| 0 <= i < (before.1 + step).len() implies (#[trigger] (before.1
            + step)[i]) is Hide by {
            if i < before.1.len() {
                assert((before.1 + step)[i] == before.1[i]);
            } else {
                assert((before.1 + step)[i] == step[i - before.1.len()]);
            }
        }
    }
}

proof fn lemma_ad_candidates_pass_hides(s: StateView, ads: Seq<WindowSnapshot>, k: int)
    requires
        0 <= k < ads.len(),
        s.hides(ads[k]),
    ensures
        s.ad_candidates_pass(ads).1.contains(Action::Hide { hwnd: ads[k].window.hwnd }),
    decreases ads.len(),
{
    let before = s.ad_candidates_pass(ads.drop_last());
    let step = before.0.ad_candidate_step(ads.last()).1;
    let plan = before.1 + step;
    let hide = Action::Hide { hwnd: ads[k].window.hwnd };
    if k == ads.len() - 1 {
        lemma_ad_candidates_pass_advances(s, ads.drop_last());
        assert(before.0.ad_candidates.dom().contains(ads[k].window.hwnd));
        assert(plan[before.1.len() as int] == hide);
    } else {
        lemma_ad_candidates_pass_hides(s, ads.drop_last(), k);
        let i = choose|i: int| 0 <= i < before.1.len() && before.1[i] == hide;
        assert(plan[i] == hide);
    }
}

/// Re-suppression, over a whole pass: a candidate that was processed
/// before, that is visible and that holds an embedded browser window is
/// asked to hide again, and it stays processed. It is not asked to close,
/// provided that no snapshot lists it below a main window.
pub proof fn lemma_processed_candidate_is_hidden_not_closed(
    s: StateView,
    mains: Seq<WindowSnapshot>,
    ads: Seq<WindowSnapshot>,
    k: int,
)
    requires
        0 <= k < ads.len(),
        s.ad_candidates.contains_key(ads[k].window.hwnd),
        s.ad_candidates[ads[k].window.hwnd],
        ads[k].visible,
        some_text_equals(ads[k], CHROME_LEGACY@),
        !listed_as_pane(mains, ads[k].window.hwnd),
    ensures
        s.suppressed(mains, ads).1.contains(Action::Hide { hwnd: ads[k].window.hwnd }),
        !s.suppressed(mains, ads).1.contains(Action::Close { hwnd: ads[k].window.hwnd }),
        s.suppressed(mains, ads).0.ad_candidates.contains_key(ads[k].window.hwnd),
        s.suppressed(mains, ads).0.ad_candidates[ads[k].window.hwnd],
{
    let hwnd = ads[k].window.hwnd;
    let halfway = s.main_windows_pass(mains);
    let rest = halfway.0.ad_candidates_pass(ads);
    let plan = halfway.1 + rest.1;
    lemma_main_windows_pass_advances(s, mains);
    lemma_main_windows_pass_targets(s, mains);
    lemma_ad_candidates_pass_only_hides(halfway.0, ads);
    lemma_ad_candidates_pass_hides(halfway.0, ads, k);
    lemma_suppression_advances(s, mains, ads);
    let i = choose|i: int| 0 <= i < rest.1.len() && rest.1[i] == (Action::Hide { hwnd });
    assert(plan[halfway.1.len() + i] == (Action::Hide { hwnd }));
    assert forall|j: int| 0 <= j < plan.len() implies plan[j] != (Action::Close { hwnd }) by {
        if j < halfway.1.len() {
            assert(plan[j] == halfway.1[j]);
            if halfway.1[j] is Close {
                assert(listed_as_pane(mains, target(halfway.1[j])));
            }
        } else {
            assert(plan[j] == rest.1[j - halfway.1.len()]);
        }
    }
    assert(s.ad_candidates.dom().contains(hwnd));
    assert(s.suppressed(mains, ads).0.ad_candidates.dom().contains(hwnd));
}

/// `plan` does not ask `hwnd` to close.
pub open spec fn never_closes(plan: Seq<Action>, hwnd: isize) -> bool {
    forall|i: int| 0 <= i < plan.len() ==> #[trigger] plan[i] != (Action::Close { hwnd })
}

proof fn lemma_never_closes_concat(a: Seq<Action>, b: Seq<Action>, hwnd: isize)
    requires
        never_closes(a, hwnd),
        never_closes(b, hwnd),
    ensures
        never_closes(a + b, hwnd),
{
    assert forall|i: int| 0 <= i < (a + b).len() implies #[trigger] (a + b)[i] != (Action::Close {
        hwnd,
    }) by {
        if i < a.len() {
            assert((a + b)[i] == a[i]);
        } else {
            assert((a + b)[i] == b[i - a.len()]);
        }
    }
}

impl StateView {
    /// The cache holds a class name for `hwnd`, and it is not the class of
    /// panes.
    pub open spec fn is_no_pane(self, hwnd: isize) -> bool {
        self.window_class_cache.contains_key(hwnd) && self.window_class_cache[hwnd]
            != EVA_CHILD_WINDOW@
    }
}

proof fn lemma_advance_keeps_no_pane(s: StateView, later: StateView, hwnd: isize)
    requires
        s.advanced_to(later),
        s.is_no_pane(hwnd),
    ensures
        later.is_no_pane(hwnd),
{
    assert(s.window_class_cache.dom().contains(hwnd));
    assert(later.window_class_cache.dom().contains(hwnd));
}

proof fn lemma_pane_step_never_closes(
    s: StateView,
    main: WindowSnapshot,
    rect: Rect,
    pane: WindowInfo,
    hwnd: isize,
)
    requires
        s.is_no_pane(hwnd),
    ensures
        never_closes(s.pane_step(main, rect, pane).1, hwnd),
{
}

proof fn lemma_panes_pass_never_closes(
    s: StateView,
    main: WindowSnapshot,
    rect: Rect,
    panes: Seq<WindowInfo>,
    hwnd: isize,
)
    requires
        s.is_no_pane(hwnd),
    ensures
        never_closes(s.panes_pass(main, rect, panes).1, hwnd),
    decreases panes.len(),
{
    if panes.len() > 0 {
        let before = s.panes_pass(main, rect, panes.drop_last());
        lemma_panes_pass_never_closes(s, main, rect, panes.drop_last(), hwnd);
        lemma_panes_pass_advances(s, main, rect, panes.drop_last());
        lemma_advance_keeps_no_pane(s, before.0, hwnd);
        lemma_pane_step_never_closes(before.0, main, rect, panes.last(), hwnd);
        lemma_never_closes_concat(before.1, before.0.pane_step(main, rect, panes.last()).1, hwnd);
    }
}

proof fn lemma_main_windows_pass_never_closes(
    s: StateView,
    mains: Seq<WindowSnapshot>,
    hwnd: isize,
)
    requires
        s.is_no_pane(hwnd),
    ensures
        never_closes(s.main_windows_pass(mains).1, hwnd),
    decreases mains.len(),
{
    if mains.len() > 0 {
        let before = s.main_windows_pass(mains.drop_last());
        let main = mains.last();
        lemma_main_windows_pass_never_closes(s, mains.drop_last(), hwnd);
        lemma_main_windows_pass_advances(s, mains.drop_last());
        lemma_advance_keeps_no_pane(s, before.0, hwnd);
        let confirmed = before.0.confirmation(main.descendants@).0;
        lemma_confirmation_advances(before.0, main.descendants@);
        lemma_advance_keeps_no_pane(before.0, confirmed, hwnd);
        if main.rect is Some {
            lemma_panes_pass_never_closes(
                confirmed,
                main,
                main.rect->0,
                main.descendants@.skip(1),
                hwnd,
            );
        }
        lemma_never_closes_concat(before.1, before.0.main_window_step(main).1, hwnd);
    }
}

/// The two classes of candidates are not the class of panes.
proof fn lemma_candidate_classes_are_no_pane_class()
    ensures
        EVA_WINDOW_DBLCLK@ != EVA_CHILD_WINDOW@,
        EVA_WINDOW@ != EVA_CHILD_WINDOW@,
{
    reveal_strlit("EVA_Window_Dblclk");
    reveal_strlit("EVA_Window");
    reveal_strlit("EVA_ChildWindow");
    assert(EVA_WINDOW_DBLCLK@.len() == 17);
    assert(EVA_WINDOW@.len() == 10);
    assert(EVA_CHILD_WINDOW@.len() == 15);
}

/// Re-suppression, in every state that the passes and the cleanup bring
/// about: a candidate that was processed before, that is visible and that
/// holds an embedded browser window is asked to hide again, it stays
/// processed, and it is not asked to close, whatever the snapshots list.
pub proof fn lemma_classified_candidate_is_hidden_not_closed(
    s: StateView,
    mains: Seq<WindowSnapshot>,
    ads: Seq<WindowSnapshot>,
    k: int,
)
    requires
        s.candidates_are_classified(),
        0 <= k < ads.len(),
        s.ad_candidates.contains_key(ads[k].window.hwnd),
        s.ad_candidates[ads[k].window.hwnd],
        ads[k].visible,
        some_text_equals(ads[k], CHROME_LEGACY@),
    ensures
        s.suppressed(mains, ads).1.contains(Action::Hide { hwnd: ads[k].window.hwnd }),
        never_closes(s.suppressed(mains, ads).1, ads[k].window.hwnd),
        s.suppressed(mains, ads).0.ad_candidates.contains_key(ads[k].window.hwnd),
        s.suppressed(mains, ads).0.ad_candidates[ads[k].window.hwnd],
{
    let hwnd = ads[k].window.hwnd;
    let halfway = s.main_windows_pass(mains);
    let rest = halfway.0.ad_candidates_pass(ads);
    let plan = halfway.1 + rest.1;
    lemma_candidate_classes_are_no_pane_class();
    lemma_main_windows_pass_advances(s, mains);
    lemma_main_windows_pass_never_closes(s, mains, hwnd);
    lemma_ad_candidates_pass_only_hides(halfway.0, ads);
    lemma_ad_candidates_pass_hides(halfway.0, ads, k);
    lemma_suppression_advances(s, mains, ads);
    let i = choose|i: int| 0 <= i < rest.1.len() && rest.1[i] == (Action::Hide { hwnd });
    assert(plan[halfway.1.len() + i] == (Action::Hide { hwnd }));
    lemma_never_closes_concat(halfway.1, rest.1, hwnd);
    assert(s.ad_candidates.dom().contains(hwnd));
    assert(s.suppressed(mains, ads).0.ad_candidates.dom().contains(hwnd));
}

proof fn lemma_advanced_to_itself(s: StateView)
    ensures
        s.advanced_to(s),
{
}

/// Where `later` already holds what `s` takes up when the class name of
/// `hwnd` is asked for, asking `later` for it gives the same name and
/// changes nothing.
proof fn lemma_class_settled(s: StateView, later: StateView, hwnd: isize, reported: Seq<char>)
    requires
        s.advanced_to(later),
        s.remembering(hwnd, reported).advanced_to(later),
    ensures
        later.class_of(hwnd, reported) == s.class_of(hwnd, reported),
        later.remembering(hwnd, reported) == later,
{
    let named = s.remembering(hwnd, reported);
    assert(s.ad_candidates.dom().contains(hwnd) == later.ad_candidates.dom().contains(hwnd));
    if s.tracks(hwnd) {
        assert(named.window_class_cache.dom().contains(hwnd));
        assert(later.window_class_cache.dom().contains(hwnd));
        assert(later.window_class_cache.insert(hwnd, later.window_class_cache[hwnd])
            =~= later.window_class_cache);
    } else {
        if s.window_class_cache.contains_key(hwnd) {
            assert(s.window_class_cache.dom().contains(hwnd));
            assert(later.window_class_cache.dom().contains(hwnd));
        } else {
            assert(!later.window_class_cache.contains_key(hwnd));
        }
    }
}

/// Where `later` already holds what `s` takes up when the custom-scroll
/// finding of a window is asked for, asking `later` for it gives the same
/// finding and changes nothing.
proof fn lemma_scroll_settled(s: StateView, later: StateView, main: WindowSnapshot)
    requires
        s.advanced_to(later),
        s.noting_scroll(main.window.hwnd, s.scroll_of(main)).advanced_to(later),
    ensures
        later.scroll_of(main) == s.scroll_of(main),
        later.noting_scroll(main.window.hwnd, later.scroll_of(main)) == later,
{
    let hwnd = main.window.hwnd;
    let found = s.noting_scroll(hwnd, s.scroll_of(main));
    if s.main_windows.contains(hwnd) {
        assert(found.custom_scroll_cache.dom().contains(hwnd));
        assert(later.custom_scroll_cache.dom().contains(hwnd));
        assert(later.custom_scroll_cache.insert(hwnd, later.custom_scroll_cache[hwnd])
            =~= later.custom_scroll_cache);
    } else {
        if s.custom_scroll_cache.contains_key(hwnd) {
            assert(s.custom_scroll_cache.dom().contains(hwnd));
            assert(later.custom_scroll_cache.dom().contains(hwnd));
        } else {
            assert(!later.custom_scroll_cache.dom().contains(hwnd)) by {
                assert(!s.custom_scroll_cache.dom().union(s.main_windows).contains(hwnd));
            }
        }
    }
}

proof fn lemma_confirmation_settled(s: StateView, later: StateView, below: Seq<WindowInfo>)
    requires
        s.confirmation(below).0.advanced_to(later),
    ensures
        later.confirmation(below) == (later, s.confirmation(below).1),
    decreases below.len(),
{
    if below.len() > 0 {
        let first = below[0];
        let next = s.remembering(first.hwnd, first.class_name@);
        lemma_remembering_advances(s, first.hwnd, first.class_name@);
        if !is_view_pane(s.class_of(first.hwnd, first.class_name@), first.text@) {
            lemma_confirmation_advances(next, below.skip(1));
            lemma_advanced_to_transitive(next, next.confirmation(below.skip(1)).0, later);
            lemma_confirmation_settled(next, later, below.skip(1));
        }
        lemma_advanced_to_transitive(s, next, later);
        lemma_class_settled(s, later, first.hwnd, first.class_name@);
    }
}

proof fn lemma_pane_step_settled(
    s: StateView,
    later: StateView,
    main: WindowSnapshot,
    rect: Rect,
    pane: WindowInfo,
)
    requires
        s.pane_step(main, rect, pane).0.advanced_to(later),
    ensures
        later.pane_step(main, rect, pane) == (later, s.pane_step(main, rect, pane).1),
{
    let named = s.remembering(pane.hwnd, pane.class_name@);
    let found = named.noting_scroll(main.window.hwnd, named.scroll_of(main));
    lemma_remembering_advances(s, pane.hwnd, pane.class_name@);
    if pane.parent == main.window.hwnd && is_ad_pane(
        s.class_of(pane.hwnd, pane.class_name@),
        pane.text@,
        main.window.text@,
    ) {
        assert(named.custom_scroll_cache.submap_of(found.custom_scroll_cache));
        assert(named.advanced_to(found));
        lemma_advanced_to_transitive(named, found, later);
        lemma_scroll_settled(named, later, main);
    }
    lemma_advanced_to_transitive(s, named, later);
    lemma_class_settled(s, later, pane.hwnd, pane.class_name@);
}

proof fn lemma_panes_pass_settled(
    s: StateView,
    later: StateView,
    main: WindowSnapshot,
    rect: Rect,
    panes: Seq<WindowInfo>,
)
    requires
        s.panes_pass(main, rect, panes).0.advanced_to(later),
    ensures
        later.panes_pass(main, rect, panes) == (later, s.panes_pass(main, rect, panes).1),
    decreases panes.len(),
{
    if panes.len() > 0 {
        let before = s.panes_pass(main, rect, panes.drop_last());
        lemma_panes_pass_advances(s, main, rect, panes.drop_last());
        lemma_pane_step_advances(before.0, main, rect, panes.last());
        lemma_advanced_to_transitive(
            before.0,
            before.0.pane_step(main, rect, panes.last()).0,
            later,
        );
        lemma_panes_pass_settled(s, later, main, rect, panes.drop_last());
        lemma_pane_step_settled(before.0, later, main, rect, panes.last());
    }
}

proof fn lemma_main_window_step_settled(s: StateView, later: StateView, main: WindowSnapshot)
    requires
        s.main_window_step(main).0.advanced_to(later),
    ensures
        later.main_window_step(main) == (later, s.main_window_step(main).1),
{
    if s.main_windows.contains(main.window.hwnd) && main.valid {
        let confirmed = s.confirmation(main.descendants@);
        lemma_confirmation_advances(s, main.descendants@);
        if confirmed.1 && main.rect is Some {
            let panes = main.descendants@.skip(1);
            lemma_panes_pass_advances(confirmed.0, main, main.rect->0, panes);
            lemma_advanced_to_transitive(
                confirmed.0,
                confirmed.0.panes_pass(main, main.rect->0, panes).0,
                later,
            );
            lemma_confirmation_settled(s, later, main.descendants@);
            lemma_panes_pass_settled(confirmed.0, later, main, main.rect->0, panes);
        } else {
            lemma_confirmation_settled(s, later, main.descendants@);
        }
    }
}

proof fn lemma_main_windows_pass_settled(
    s: StateView,
    later: StateView,
    mains: Seq<WindowSnapshot>,
)
    requires
        s.main_windows_pass(mains).0.advanced_to(later),
    ensures
        later.main_windows_pass(mains) == (later, s.main_windows_pass(mains).1),
    decreases mains.len(),
{
    if mains.len() > 0 {
        let before = s.main_windows_pass(mains.drop_last());
        lemma_main_window_step_advances(before.0, mains.last());
        lemma_advanced_to_transitive(before.0, before.0.main_window_step(mains.last()).0, later);
        lemma_main_windows_pass_settled(s, later, mains.drop_last());
        lemma_main_window_step_settled(before.0, later, mains.last());
    }
}

proof fn lemma_ad_candidate_step_settled(s: StateView, later: StateView, ad: WindowSnapshot)
    requires
        s.ad_candidate_step(ad).0.advanced_to(later),
    ensures
        later.ad_candidate_step(ad) == (later, s.ad_candidate_step(ad).1),
{
    let after = s.ad_candidate_step(ad).0;
    assert(s.ad_candidates.dom() =~= after.ad_candidates.dom());
    assert(s.ad_candidates.contains_key(ad.window.hwnd) <==> later.ad_candidates.dom().contains(
        ad.window.hwnd,
    ));
    if s.hides(ad) {
        assert(after.ad_candidates.contains_key(ad.window.hwnd));
        assert(later.ad_candidates.insert(ad.window.hwnd, true) =~= later.ad_candidates);
    }
}

proof fn lemma_ad_candidates_pass_settled(
    s: StateView,
    later: StateView,
    ads: Seq<WindowSnapshot>,
)
    requires
        s.ad_candidates_pass(ads).0.advanced_to(later),
    ensures
        later.ad_candidates_pass(ads) == (later, s.ad_candidates_pass(ads).1),
    decreases ads.len(),
{
    if ads.len() > 0 {
        let before = s.ad_candidates_pass(ads.drop_last());
        let after = before.0.ad_candidate_step(ads.last()).0;
        assert(before.0.ad_candidates.dom() =~= after.ad_candidates.dom());
        assert(before.0.advanced_to(after));
        lemma_advanced_to_transitive(before.0, after, later);
        lemma_ad_candidates_pass_settled(s, later, ads.drop_last());
        lemma_ad_candidate_step_settled(before.0, later, ads.last());
    }
}

/// Suppression may be reapplied: a second pass over the same snapshots asks
/// for exactly the same actions as the first, and leaves the state as the
/// first left it.
pub proof fn lemma_suppression_settles(
    s: StateView,
    mains: Seq<WindowSnapshot>,
    ads: Seq<WindowSnapshot>,
)
    ensures
        s.suppressed(mains, ads).0.suppressed(mains, ads) == s.suppressed(mains, ads),
{
    let halfway = s.main_windows_pass(mains);
    let after = s.suppressed(mains, ads).0;
    lemma_ad_candidates_pass_advances(halfway.0, ads);
    lemma_main_windows_pass_settled(s, after, mains);
    lemma_advanced_to_itself(after);
    lemma_ad_candidates_pass_settled(halfway.0, after, ads);
}

} // verus!
