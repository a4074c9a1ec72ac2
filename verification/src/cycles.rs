//! What holds of the tracking state over any run of cycles.
//!
//! The two passes and the cleanup each take the state as a whole and leave
//! it as a whole, so a run of the program is a sequence of cycles in some
//! order. This module says what such a sequence can and cannot do to the
//! state, whatever the observations were.

use vstd::prelude::*;
use crate::state::StateView;
use crate::suppress::lemma_suppression_advances;
use crate::watch::lemma_watch_only_adds;
use crate::window::{WindowInfo, WindowSnapshot};

verus! {

/// One cycle, with what was observed for it.
pub enum Cycle {
    /// A watch pass over the windows seen.
    Watch { windows: Seq<WindowInfo> },
    /// A cleanup in which the handles in `valid` still name a window.
    Cleanup { valid: Set<isize> },
    /// A suppression pass over snapshots of the tracked windows.
    Suppress { main_windows: Seq<WindowSnapshot>, ad_candidates: Seq<WindowSnapshot> },
}

/// No cleanup among `cycles` finds `hwnd` invalid.
pub open spec fn stays_valid(cycles: Seq<Cycle>, hwnd: isize) -> bool {
    forall|i: int|
        0 <= i < cycles.len() && (#[trigger] cycles[i]) is Cleanup ==> cycles[i]->valid.contains(
            hwnd,
        )
}

impl StateView {
    /// The state after one cycle.
    pub open spec fn after_cycle(self, cycle: Cycle) -> StateView {
        match cycle {
            Cycle::Watch { windows } => self.watched(windows),
            Cycle::Cleanup { valid } => self.cleaned(valid),
            Cycle::Suppress { main_windows, ad_candidates } => self.suppressed(
                main_windows,
                ad_candidates,
            ).0,
        }
    }

    /// The state after a run of cycles.
    pub open spec fn after_cycles(self, cycles: Seq<Cycle>) -> StateView
        decreases cycles.len(),
    {
        if cycles.len() == 0 {
            self
        } else {
            self.after_cycles(cycles.drop_last()).after_cycle(cycles.last())
        }
    }
}

/// However watch passes, suppression passes and cleanups follow one
/// another, custom-scroll findings are only ever held for main windows.
pub proof fn lemma_scroll_cache_stays_with_main_windows(s: StateView, cycles: Seq<Cycle>)
    requires
        s.scroll_cache_is_for_main_windows(),
    ensures
        s.after_cycles(cycles).scroll_cache_is_for_main_windows(),
    decreases cycles.len(),
{
    if cycles.len() > 0 {
        lemma_scroll_cache_stays_with_main_windows(s, cycles.drop_last());
        let before = s.after_cycles(cycles.drop_last());
        match cycles.last() {
            Cycle::Watch { windows } => {
                lemma_watch_only_adds(before, windows);
            },
            Cycle::Cleanup { valid } => {},
            Cycle::Suppress { main_windows, ad_candidates } => {
                lemma_suppression_advances(before, main_windows, ad_candidates);
            },
        }
    }
}

/// However watch passes, suppression passes and cleanups follow one
/// another, no cache comes to hold an entry for a window that is not
/// tracked: class names are held for main windows and candidates only,
/// custom-scroll findings for main windows only.
pub proof fn lemma_no_cache_entry_is_orphaned(s: StateView, cycles: Seq<Cycle>)
    requires
        s.no_orphans(),
    ensures
        s.after_cycles(cycles).no_orphans(),
    decreases cycles.len(),
{
    if cycles.len() > 0 {
        lemma_no_cache_entry_is_orphaned(s, cycles.drop_last());
        let before = s.after_cycles(cycles.drop_last());
        match cycles.last() {
            Cycle::Watch { windows } => {
                lemma_watch_only_adds(before, windows);
            },
            Cycle::Cleanup { valid } => {},
            Cycle::Suppress { main_windows, ad_candidates } => {
                lemma_suppression_advances(before, main_windows, ad_candidates);
            },
        }
    }
}

/// However watch passes, suppression passes and cleanups follow one
/// another, every candidate has its class name in the cache, and it is one
/// of the two classes of window that are taken for candidates.
pub proof fn lemma_candidates_stay_classified(s: StateView, cycles: Seq<Cycle>)
    requires
        s.candidates_are_classified(),
    ensures
        s.after_cycles(cycles).candidates_are_classified(),
    decreases cycles.len(),
{
    if cycles.len() > 0 {
        lemma_candidates_stay_classified(s, cycles.drop_last());
        let before = s.after_cycles(cycles.drop_last());
        match cycles.last() {
            Cycle::Watch { windows } => {
                lemma_watch_only_adds(before, windows);
            },
            Cycle::Cleanup { valid } => {
                lemma_cleanup_keeps_classified(before, valid);
            },
            Cycle::Suppress { main_windows, ad_candidates } => {
                lemma_suppression_advances(before, main_windows, ad_candidates);
            },
        }
    }
}

/// A cleanup drops no class name of a candidate that stays.
pub proof fn lemma_cleanup_keeps_classified(s: StateView, valid: Set<isize>)
    requires
        s.candidates_are_classified(),
    ensures
        s.cleaned(valid).candidates_are_classified(),
{
    let after = s.cleaned(valid);
    assert forall|h: isize| #[trigger] after.ad_candidates.contains_key(h) implies
        after.window_class_cache.contains_key(h) && after.window_class_cache[h]
        == s.window_class_cache[h] by {
        assert(s.ad_candidates.contains_key(h));
    }
}

/// In a run that starts with nothing tracked, no cache ever holds an entry
/// for a window that is not tracked, and every candidate has the class
/// name of a candidate.
pub proof fn lemma_run_from_empty_is_sound(cycles: Seq<Cycle>)
    ensures
        StateView::empty().after_cycles(cycles).no_orphans(),
        StateView::empty().after_cycles(cycles).candidates_are_classified(),
{
    lemma_no_cache_entry_is_orphaned(StateView::empty(), cycles);
    lemma_candidates_stay_classified(StateView::empty(), cycles);
}

/// A main window stays a main window for as long as no cleanup finds it
/// invalid: no pass ever drops it.
pub proof fn lemma_main_window_stays(s: StateView, cycles: Seq<Cycle>, hwnd: isize)
    requires
        s.main_windows.contains(hwnd),
        stays_valid(cycles, hwnd),
    ensures
        s.after_cycles(cycles).main_windows.contains(hwnd),
    decreases cycles.len(),
{
    if cycles.len() > 0 {
        assert(stays_valid(cycles.drop_last(), hwnd)) by {
            assert forall|i: int|
                0 <= i < cycles.drop_last().len() && (#[trigger] cycles.drop_last()[i])
                    is Cleanup implies cycles.drop_last()[i]->valid.contains(hwnd) by {
                assert(cycles[i] is Cleanup);
            }
        }
        lemma_main_window_stays(s, cycles.drop_last(), hwnd);
        let before = s.after_cycles(cycles.drop_last());
        match cycles.last() {
            Cycle::Watch { windows } => {
                lemma_watch_only_adds(before, windows);
            },
            Cycle::Cleanup { valid } => {
                assert(cycles[cycles.len() - 1] is Cleanup);
            },
            Cycle::Suppress { main_windows, ad_candidates } => {
                lemma_suppression_advances(before, main_windows, ad_candidates);
            },
        }
    }
}

/// A candidate that is marked as processed stays a candidate and stays
/// marked for as long as no cleanup finds it invalid: no pass ever resets
/// the flag.
pub proof fn lemma_processed_stays(s: StateView, cycles: Seq<Cycle>, hwnd: isize)
    requires
        s.ad_candidates.contains_key(hwnd),
        s.ad_candidates[hwnd],
        stays_valid(cycles, hwnd),
    ensures
        s.after_cycles(cycles).ad_candidates.contains_key(hwnd),
        s.after_cycles(cycles).ad_candidates[hwnd],
    decreases cycles.len(),
{
    if cycles.len() > 0 {
        assert(stays_valid(cycles.drop_last(), hwnd)) by {
            assert forall|i: int|
                0 <= i < cycles.drop_last().len() && (#[trigger] cycles.drop_last()[i])
                    is Cleanup implies cycles.drop_last()[i]->valid.contains(hwnd) by {
                assert(cycles[i] is Cleanup);
            }
        }
        lemma_processed_stays(s, cycles.drop_last(), hwnd);
        let before = s.after_cycles(cycles.drop_last());
        match cycles.last() {
            Cycle::Watch { windows } => {
                lemma_watch_only_adds(before, windows);
                assert(before.ad_candidates.dom().contains(hwnd));
            },
            Cycle::Cleanup { valid } => {
                assert(cycles[cycles.len() - 1] is Cleanup);
            },
            Cycle::Suppress { main_windows, ad_candidates } => {
                lemma_suppression_advances(before, main_windows, ad_candidates);
                let after = before.suppressed(main_windows, ad_candidates).0;
                assert(after.ad_candidates.dom().contains(hwnd));
            },
        }
    }
}

/// Whatever came before, after a cleanup no handle that it found invalid
/// is left in any of the four collections, and no cache holds an entry for
/// a window that is not tracked.
pub proof fn lemma_cleanup_leaves_no_invalid_handle(s: StateView, valid: Set<isize>, hwnd: isize)
    ensures
        !valid.contains(hwnd) ==> !s.cleaned(valid).mentions(hwnd),
        s.cleaned(valid).no_orphans(),
{
}

} // verus!
