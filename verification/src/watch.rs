//! The watch pass: classifies the windows of the target processes and
//! records main windows and advertisement candidates.
//!
//! A window is judged by its class name (from the cache where cached), its
//! text and its parent. The first rule that fits decides:
//!
//! 1. class `EVA_Window_Dblclk`, text not empty, no parent: a main window;
//! 2. class `EVA_Window_Dblclk`, text empty, parent a known main window: an
//!    advertisement candidate;
//! 3. class `EVA_Window`, text empty, no parent: an advertisement candidate;
//! 4. anything else is ignored.
//!
//! The pass only ever adds: a known candidate keeps its `processed` flag, and
//! nothing is dropped but by a cleanup, which falls due on every tenth cycle.
//! The class name of a window is cached once the window is tracked; a window
//! that is ignored and not tracked leaves no trace in the state.

use vstd::prelude::*;
use crate::state::{AdBlockState, StateView};
use crate::text::str_equal;
use crate::window::class_names::{EVA_WINDOW, EVA_WINDOW_DBLCLK};
use crate::window::{find_windows_by_pid, handles_of_pid, TopLevelWindow, WindowInfo, NULL_HWND};

verus! {

broadcast use vstd::std_specs::hash::group_hash_axioms;

/// Number of watch cycles from one cleanup to the next.
pub const CLEANUP_INTERVAL: u32 = 10;

/// What the watch pass takes a window for.
#[derive(Clone, Copy, Debug, PartialEq, Eq)]
pub enum WindowKind {
    MainWindow,
    AdCandidate,
    Ignored,
}

/// The kind of a window with the given class name, text and parent, where
/// `main_windows` are the main windows known so far.
pub open spec fn kind_of(
    class_name: Seq<char>,
    text: Seq<char>,
    parent: isize,
    main_windows: Set<isize>,
) -> WindowKind {
    if class_name == EVA_WINDOW_DBLCLK@ {
        if text.len() > 0 && parent == NULL_HWND {
            WindowKind::MainWindow
        } else if text.len() == 0 && parent != NULL_HWND && main_windows.contains(parent) {
            WindowKind::AdCandidate
        } else {
            WindowKind::Ignored
        }
    } else if class_name == EVA_WINDOW@ {
        if text.len() == 0 && parent == NULL_HWND {
            WindowKind::AdCandidate
        } else {
            WindowKind::Ignored
        }
    } else {
        WindowKind::Ignored
    }
}

/// The handles of the top-level windows that belong to the processes in
/// `pids`: process by process, within a process in the order of `windows`.
pub open spec fn handles_of_pids(windows: Seq<TopLevelWindow>, pids: Seq<u32>) -> Seq<isize>
    decreases pids.len(),
{
    if pids.len() == 0 {
        Seq::<isize>::empty()
    } else {
        handles_of_pids(windows, pids.drop_last()) + handles_of_pid(windows, pids.last())
    }
}

impl StateView {
    /// The state after `hwnd` was recorded as a window of kind `kind`.
    pub open spec fn with_kind(self, kind: WindowKind, hwnd: isize) -> StateView {
        match kind {
            WindowKind::MainWindow => self.with_main_window(hwnd),
            WindowKind::AdCandidate => self.with_ad_candidate(hwnd),
            WindowKind::Ignored => self,
        }
    }

    /// The kind that the watch pass gives to `window` in this state.
    pub open spec fn kind_in(self, window: WindowInfo) -> WindowKind {
        kind_of(
            self.class_of(window.hwnd, window.class_name@),
            window.text@,
            window.parent,
            self.main_windows,
        )
    }

    /// The state after the watch pass has seen `window`: the window is
    /// recorded as what it was taken for, and if it is then tracked, its
    /// class name is cached. A window that is ignored and not tracked
    /// changes nothing.
    pub open spec fn observed(self, window: WindowInfo) -> StateView {
        self.with_kind(self.kind_in(window), window.hwnd).remembering(
            window.hwnd,
            window.class_name@,
        )
    }

    /// The state after the watch pass has seen `windows`, one after the
    /// other.
    pub open spec fn watched(self, windows: Seq<WindowInfo>) -> StateView
        decreases windows.len(),
    {
        if windows.len() == 0 {
            self
        } else {
            self.watched(windows.drop_last()).observed(windows.last())
        }
    }

    /// `later` holds everything that `self` holds, with the same
    /// `processed` flags, class names and custom-scroll findings; it may
    /// hold more main windows, candidates and class names.
    pub open spec fn grown_into(self, later: StateView) -> bool {
        &&& self.main_windows.subset_of(later.main_windows)
        &&& self.ad_candidates.submap_of(later.ad_candidates)
        &&& self.window_class_cache.submap_of(later.window_class_cache)
        &&& self.custom_scroll_cache == later.custom_scroll_cache
    }
}

/// Counts watch cycles and says when a cleanup is due.
pub struct CleanupTimer {
    /// Cycles begun since the last cleanup.
    pub ticks: u32,
}

impl CleanupTimer {
    /// A timer with a full interval ahead.
    pub fn new() -> (timer: CleanupTimer)
        ensures
            timer.ticks == 0,
    {
        CleanupTimer { ticks: 0 }
    }

    /// Begins a cycle. Returns whether a cleanup is due in it: that is the
    /// case in the cycle that completes an interval, and the count then
    /// starts over.
    pub fn tick(&mut self) -> (due: bool)
        ensures
            due == (old(self).ticks + 1 >= CLEANUP_INTERVAL),
            final(self).ticks == if due {
                0
            } else {
                old(self).ticks + 1
            },
    {
        if self.ticks >= CLEANUP_INTERVAL - 1 {
            self.ticks = 0;
            true
        } else {
            self.ticks = self.ticks + 1;
            false
        }
    }
}

/// The kind of a window by the four rules, in a state whose main windows are
/// those of `state`.
pub fn classify(state: &AdBlockState, class_name: &str, text: &str, parent: isize) -> (kind:
    WindowKind)
    ensures
        kind == kind_of(class_name@, text@, parent, state@.main_windows),
{
    if str_equal(class_name, EVA_WINDOW_DBLCLK) {
        if !text.is_empty() && parent == NULL_HWND {
            WindowKind::MainWindow
        } else if text.is_empty() && parent != NULL_HWND && state.main_windows.contains(&parent) {
            WindowKind::AdCandidate
        } else {
            WindowKind::Ignored
        }
    } else if str_equal(class_name, EVA_WINDOW) {
        if text.is_empty() && parent == NULL_HWND {
            WindowKind::AdCandidate
        } else {
            WindowKind::Ignored
        }
    } else {
        WindowKind::Ignored
    }
}

/// Records `hwnd` as a window of kind `kind`. A main window is added to the
/// main windows. An advertisement candidate is added as unprocessed unless
/// it is known already, in which case its flag stays as it is. An ignored
/// window changes nothing.
pub fn track(state: &mut AdBlockState, kind: WindowKind, hwnd: isize)
    ensures
        final(state)@ == old(state)@.with_kind(kind, hwnd),
        old(state)@.no_orphans() ==> final(state)@.no_orphans(),
{
    let ghost before = state@;
    match kind {
        WindowKind::MainWindow => {
            state.main_windows.insert(hwnd);
        },
        WindowKind::AdCandidate => {
            if !state.ad_candidates.contains_key(&hwnd) {
                state.ad_candidates.insert(hwnd, false);
            }
        },
        WindowKind::Ignored => {},
    }
    assert(before.no_orphans() ==> state@.no_orphans()) by {
        assert(state@.window_class_cache == before.window_class_cache);
        assert forall|h: isize| #[trigger]
            state@.window_class_cache.contains_key(h) && before.no_orphans() implies state@.tracks(
            h,
        ) by {
            assert(before.tracks(h));
        }
    }
}

/// Classifies one window and records what it was taken for. The class name
/// is cached where the window is then tracked; a window that is ignored and
/// not tracked leaves the state as it is.
pub fn observe_window(state: &mut AdBlockState, window: &WindowInfo)
    ensures
        final(state)@ == old(state)@.observed(*window),
        old(state)@.kind_in(*window) is Ignored && !old(state)@.tracks(window.hwnd)
            ==> final(state)@ == old(state)@,
        old(state)@.no_orphans() ==> final(state)@.no_orphans(),
{
    proof {
        lemma_observe_only_adds(state@, *window);
    }
    let class_name = state.window_class(window.hwnd, window.class_name.as_str());
    let kind = classify(state, class_name.as_str(), window.text.as_str(), window.parent);
    track(state, kind, window.hwnd);
    state.class_in_pass(window.hwnd, window.class_name.as_str());
}

/// Watch for KakaoTalk windows and categorize them: one watch pass over the
/// observed windows, in order.
pub fn watch_windows(state: &mut AdBlockState, windows: &Vec<WindowInfo>)
    ensures
        final(state)@ == old(state)@.watched(windows@),
        old(state)@.grown_into(final(state)@),
        old(state)@.scroll_cache_is_for_main_windows()
            ==> final(state)@.scroll_cache_is_for_main_windows(),
        old(state)@.no_orphans() ==> final(state)@.no_orphans(),
        old(state)@.candidates_are_classified() ==> final(state)@.candidates_are_classified(),
{
    let ghost before = state@;
    let mut i: usize = 0;
    assert(windows@.take(0) == Seq::<WindowInfo>::empty());
    while i < windows.len()
        invariant
            i <= windows.len(),
            state@ == before.watched(windows@.take(i as int)),
        decreases windows.len() - i,
    {
        assert(windows@.take(i + 1).drop_last() == windows@.take(i as int));
        observe_window(state, &windows[i]);
        i += 1;
    }
    assert(windows@.take(windows.len() as int) == windows@);
    proof {
        lemma_watch_only_adds(before, windows@);
    }
}

/// The handles of the top-level windows of the given processes: the windows
/// that a watch pass is to look at.
pub fn windows_of_processes(windows: &Vec<TopLevelWindow>, pids: &Vec<u32>) -> (found: Vec<isize>)
    ensures
        found@ == handles_of_pids(windows@, pids@),
{
    let mut found: Vec<isize> = Vec::new();
    let mut i: usize = 0;
    assert(pids@.take(0) == Seq::<u32>::empty());
    while i < pids.len()
        invariant
            i <= pids.len(),
            found@ == handles_of_pids(windows@, pids@.take(i as int)),
        decreases pids.len() - i,
    {
        assert(pids@.take(i + 1).drop_last() == pids@.take(i as int));
        let mut of_pid = find_windows_by_pid(windows, pids[i]);
        found.append(&mut of_pid);
        i += 1;
    }
    assert(pids@.take(pids.len() as int) == pids@);
    found
}

/// Seeing one window only adds to the state: whatever was tracked or cached
/// stays as it was, a known candidate keeps its `processed` flag, and the
/// custom-scroll findings are untouched.
pub proof fn lemma_observe_only_adds(s: StateView, window: WindowInfo)
    ensures
        s.grown_into(s.observed(window)),
        s.no_orphans() ==> s.observed(window).no_orphans(),
        s.candidates_are_classified() ==> s.observed(window).candidates_are_classified(),
        s.kind_in(window) is Ignored && !s.tracks(window.hwnd) ==> s.observed(window) == s,
{
    let recorded = s.with_kind(s.kind_in(window), window.hwnd);
    let with_class = recorded.with_class(window.hwnd, window.class_name@);
    assert(s.window_class_cache.submap_of(with_class.window_class_cache));
}

/// A watch pass only adds to the state. In particular it never resets the
/// `processed` flag of a candidate, and never drops a window.
pub proof fn lemma_watch_only_adds(s: StateView, windows: Seq<WindowInfo>)
    ensures
        s.grown_into(s.watched(windows)),
        s.scroll_cache_is_for_main_windows() ==> s.watched(
            windows,
        ).scroll_cache_is_for_main_windows(),
        s.no_orphans() ==> s.watched(windows).no_orphans(),
        s.candidates_are_classified() ==> s.watched(windows).candidates_are_classified(),
    decreases windows.len(),
{
    if windows.len() > 0 {
        lemma_watch_only_adds(s, windows.drop_last());
        lemma_observe_only_adds(s.watched(windows.drop_last()), windows.last());
    }
}

/// A window that the watch pass newly records as an advertisement candidate
/// is the window just seen, and it is either the empty-text child of a
/// known main window or an empty-text popup without a parent.
pub proof fn lemma_new_ad_candidate_origin(s: StateView, window: WindowInfo, hwnd: isize)
    requires
        !s.ad_candidates.contains_key(hwnd),
        s.observed(window).ad_candidates.contains_key(hwnd),
    ensures
        hwnd == window.hwnd,
        s.observed(window).ad_candidates[hwnd] == false,
        window.text@.len() == 0,
        s.main_windows.contains(window.parent) || (window.parent == NULL_HWND && s.class_of(
            window.hwnd,
            window.class_name@,
        ) == EVA_WINDOW@),
{
}

} // verus!
