//! The tracking state that the watch pass and the suppression pass share.
//!
//! Four collections, all keyed by window handle: the main windows, the
//! advertisement candidates with their `processed` flags, the cache of class
//! names, and the cache of custom-scroll findings. Entries come in as windows
//! are classified and leave only through `cleanup_invalid_handles`.
//!
//! The passes and the cleanup leave entries in the caches for tracked
//! windows only: a class name for a main window or a candidate, a
//! custom-scroll finding for a main window (`StateView::no_orphans`).

use std::collections::{HashMap, HashSet};
use vstd::prelude::*;
use crate::handles::{handles_of_map, handles_of_set, insert_handles, retain_handles, retain_keys};
use crate::window::class_names::{EVA_WINDOW, EVA_WINDOW_DBLCLK};

verus! {

broadcast use vstd::std_specs::hash::group_hash_axioms;

/// Shared state for tracking KakaoTalk windows
pub struct AdBlockState {
    /// Main window handles (EVA_Window_Dblclk with title and no parent)
    pub main_windows: HashSet<isize>,
    /// Ad subwindow candidates with processed status (true = hidden/processed)
    pub ad_candidates: HashMap<isize, bool>,
    /// Cache for window class (class names don't change, safe to cache)
    pub window_class_cache: HashMap<isize, String>,
    /// Cache for custom scroll detection
    pub custom_scroll_cache: HashMap<isize, bool>,
}

/// The tracking state as mathematical sets and maps.
pub struct StateView {
    pub main_windows: Set<isize>,
    pub ad_candidates: Map<isize, bool>,
    pub window_class_cache: Map<isize, Seq<char>>,
    pub custom_scroll_cache: Map<isize, bool>,
}

/// A cache of class names, each name as its characters.
pub open spec fn class_names_of(cache: Map<isize, String>) -> Map<isize, Seq<char>> {
    Map::new(|h: isize| cache.contains_key(h), |h: isize| cache[h]@)
}

impl View for AdBlockState {
    type V = StateView;

    open spec fn view(&self) -> StateView {
        StateView {
            main_windows: self.main_windows@,
            ad_candidates: self.ad_candidates@,
            window_class_cache: class_names_of(self.window_class_cache@),
            custom_scroll_cache: self.custom_scroll_cache@,
        }
    }
}

impl StateView {
    /// The state in which nothing is tracked and nothing is cached.
    pub open spec fn empty() -> StateView {
        StateView {
            main_windows: Set::empty(),
            ad_candidates: Map::empty(),
            window_class_cache: Map::empty(),
            custom_scroll_cache: Map::empty(),
        }
    }

    /// Whether `hwnd` is tracked, as a main window or as an advertisement
    /// candidate.
    pub open spec fn tracks(self, hwnd: isize) -> bool {
        self.main_windows.contains(hwnd) || self.ad_candidates.contains_key(hwnd)
    }

    /// Whether `hwnd` occurs in any of the four collections.
    pub open spec fn mentions(self, hwnd: isize) -> bool {
        ||| self.main_windows.contains(hwnd)
        ||| self.ad_candidates.contains_key(hwnd)
        ||| self.window_class_cache.contains_key(hwnd)
        ||| self.custom_scroll_cache.contains_key(hwnd)
    }

    /// Custom-scroll findings are held for main windows only.
    pub open spec fn scroll_cache_is_for_main_windows(self) -> bool {
        self.custom_scroll_cache.dom().subset_of(self.main_windows)
    }

    /// No cache holds an entry for a handle that is not tracked.
    pub open spec fn no_orphans(self) -> bool {
        &&& forall|h: isize| #[trigger] self.window_class_cache.contains_key(h) ==> self.tracks(h)
        &&& self.scroll_cache_is_for_main_windows()
    }

    /// Every candidate has its class name in the cache, and it is one of the
    /// two classes of window that a watch pass takes for a candidate.
    pub open spec fn candidates_are_classified(self) -> bool {
        forall|h: isize| #[trigger]
            self.ad_candidates.contains_key(h) ==> self.window_class_cache.contains_key(h) && (
            self.window_class_cache[h] == EVA_WINDOW_DBLCLK@ || self.window_class_cache[h]
                == EVA_WINDOW@)
    }

    /// The class name to go by for `hwnd` when `reported` is what the system
    /// says now: the cached name, if there is one.
    pub open spec fn class_of(self, hwnd: isize, reported: Seq<char>) -> Seq<char> {
        if self.window_class_cache.contains_key(hwnd) {
            self.window_class_cache[hwnd]
        } else {
            reported
        }
    }

    /// The state with a class name for `hwnd` in the cache: a name that is
    /// cached stays, a missing one is filled in with `reported`.
    pub open spec fn with_class(self, hwnd: isize, reported: Seq<char>) -> StateView {
        StateView {
            window_class_cache: self.window_class_cache.insert(hwnd, self.class_of(hwnd, reported)),
            ..self
        }
    }

    /// The state after a pass asked for the class name of `hwnd`, `reported`
    /// being what the system says now. For a tracked window a missing name is
    /// filled in. For a window that is not tracked nothing is stored, so
    /// that no cache entry is left without its window.
    pub open spec fn remembering(self, hwnd: isize, reported: Seq<char>) -> StateView {
        if self.tracks(hwnd) {
            self.with_class(hwnd, reported)
        } else {
            self
        }
    }

    /// The state with `hwnd` among the main windows.
    pub open spec fn with_main_window(self, hwnd: isize) -> StateView {
        StateView { main_windows: self.main_windows.insert(hwnd), ..self }
    }

    /// The state with `hwnd` among the advertisement candidates: unprocessed
    /// if it is new, as it was if it is known.
    pub open spec fn with_ad_candidate(self, hwnd: isize) -> StateView {
        if self.ad_candidates.contains_key(hwnd) {
            self
        } else {
            StateView { ad_candidates: self.ad_candidates.insert(hwnd, false), ..self }
        }
    }

    /// The state with the advertisement candidate `hwnd` marked as processed.
    pub open spec fn with_processed(self, hwnd: isize) -> StateView {
        StateView { ad_candidates: self.ad_candidates.insert(hwnd, true), ..self }
    }

    /// The state after the custom-scroll finding of `hwnd` was asked for and
    /// came out as `has_scroll`. For a main window the finding is held from
    /// then on. For any other window nothing is stored, so that no cache
    /// entry is left without its window.
    pub open spec fn noting_scroll(self, hwnd: isize, has_scroll: bool) -> StateView {
        if self.main_windows.contains(hwnd) {
            self.with_scroll(hwnd, has_scroll)
        } else {
            self
        }
    }

    /// The state with a custom-scroll finding for `hwnd`.
    pub open spec fn with_scroll(self, hwnd: isize, has_scroll: bool) -> StateView {
        StateView {
            custom_scroll_cache: self.custom_scroll_cache.insert(hwnd, has_scroll),
            ..self
        }
    }

    /// The state after a cleanup in which exactly the handles in `valid`
    /// still name a window: tracked handles outside `valid` are dropped, and
    /// so is every cache entry of a handle that is then untracked.
    pub open spec fn cleaned(self, valid: Set<isize>) -> StateView {
        let main_windows = self.main_windows.intersect(valid);
        let ad_candidates = self.ad_candidates.restrict(valid);
        StateView {
            main_windows,
            ad_candidates,
            window_class_cache: self.window_class_cache.restrict(
                main_windows.union(ad_candidates.dom()),
            ),
            custom_scroll_cache: self.custom_scroll_cache.restrict(main_windows),
        }
    }
}

/// A copy of the tracking state for display: the main windows, the
/// advertisement candidates with their `processed` flags, and the sizes of
/// the two caches. It is a picture of one moment and decides nothing.
#[derive(Clone, Debug, PartialEq, Eq)]
pub struct DisplaySnapshot {
    pub main_windows: Vec<isize>,
    pub ad_candidates: Vec<(isize, bool)>,
    pub cached_classes: usize,
    pub cached_scrolls: usize,
}

/// The handles of a list of candidates.
pub open spec fn candidate_handles(candidates: Seq<(isize, bool)>) -> Seq<isize> {
    Seq::new(candidates.len(), |i: int| candidates[i].0)
}

/// Number of candidates in the list that are marked as processed.
pub open spec fn processed_count(candidates: Seq<(isize, bool)>) -> nat
    decreases candidates.len(),
{
    if candidates.len() == 0 {
        0
    } else {
        processed_count(candidates.drop_last()) + if candidates.last().1 {
            1nat
        } else {
            0nat
        }
    }
}

impl DisplaySnapshot {
    /// The snapshot shows exactly what `state` holds: every main window
    /// once, every candidate once and with its flag, and the number of
    /// entries of each cache.
    pub open spec fn shows(self, state: StateView) -> bool {
        &&& self.main_windows@.no_duplicates()
        &&& self.main_windows@.to_set() == state.main_windows
        &&& candidate_handles(self.ad_candidates@).no_duplicates()
        &&& candidate_handles(self.ad_candidates@).to_set() == state.ad_candidates.dom()
        &&& forall|i: int|
            0 <= i < self.ad_candidates@.len() ==> (#[trigger] self.ad_candidates@[i]).1
                == state.ad_candidates[self.ad_candidates@[i].0]
        &&& self.cached_classes == state.window_class_cache.len()
        &&& self.cached_scrolls == state.custom_scroll_cache.len()
    }

    /// Number of candidates that are marked as processed.
    pub fn count_processed(&self) -> (count: usize)
        ensures
            count == processed_count(self.ad_candidates@),
    {
        count_processed(&self.ad_candidates)
    }
}

/// Number of candidates in the list that are marked as processed.
pub fn count_processed(candidates: &Vec<(isize, bool)>) -> (count: usize)
    ensures
        count == processed_count(candidates@),
{
    let mut count: usize = 0;
    let mut i: usize = 0;
    assert(candidates@.take(0) == Seq::<(isize, bool)>::empty());
    while i < candidates.len()
        invariant
            i <= candidates.len(),
            count == processed_count(candidates@.take(i as int)),
            count <= i,
        decreases candidates.len() - i,
    {
        assert(candidates@.take(i + 1).drop_last() == candidates@.take(i as int));
        if candidates[i].1 {
            count += 1;
        }
        i += 1;
    }
    assert(candidates@.take(candidates.len() as int) == candidates@);
    count
}

impl AdBlockState {
    /// A state that tracks nothing.
    pub fn new() -> (state: AdBlockState)
        ensures
            state@ == StateView::empty(),
    {
        let state = AdBlockState {
            main_windows: HashSet::new(),
            ad_candidates: HashMap::new(),
            window_class_cache: HashMap::new(),
            custom_scroll_cache: HashMap::new(),
        };
        assert(state@.window_class_cache =~= Map::<isize, Seq<char>>::empty());
        state
    }

    /// The handles that a cleanup has to probe: every main window and every
    /// advertisement candidate.
    pub fn tracked_handles(&self) -> (handles: Vec<isize>)
        ensures
            forall|h: isize| handles@.contains(h) <==> self@.tracks(h),
            handles@.len() == self@.main_windows.len() + self@.ad_candidates.len(),
    {
        let mut handles = handles_of_set(&self.main_windows);
        let ghost main = handles@;
        let ads = handles_of_map(&self.ad_candidates);
        let mut i: usize = 0;
        while i < ads.len()
            invariant
                i <= ads.len(),
                handles@ == main + ads@.take(i as int),
            decreases ads.len() - i,
        {
            assert(ads@.take(i + 1) == ads@.take(i as int).push(ads@[i as int]));
            handles.push(ads[i]);
            i += 1;
        }
        assert(ads@.take(ads.len() as int) == ads@);
        assert forall|h: isize| handles@.contains(h) <==> self@.tracks(h) by {
            assert(main.to_set().contains(h) <==> main.contains(h));
            assert(ads@.to_set().contains(h) <==> ads@.contains(h));
            if main.contains(h) {
                let j = choose|j: int| 0 <= j < main.len() && main[j] == h;
                assert(handles@[j] == h);
            }
            if ads@.contains(h) {
                let j = choose|j: int| 0 <= j < ads@.len() && ads@[j] == h;
                assert(handles@[main.len() + j] == h);
            }
        }
        handles
    }

    /// A copy of what is tracked, for display.
    pub fn snapshot_for_display(&self) -> (snapshot: DisplaySnapshot)
        ensures
            snapshot.shows(self@),
    {
        let main_windows = handles_of_set(&self.main_windows);
        let handles = handles_of_map(&self.ad_candidates);
        let mut ad_candidates: Vec<(isize, bool)> = Vec::new();
        let mut i: usize = 0;
        while i < handles.len()
            invariant
                i <= handles.len(),
                handles@.to_set() == self.ad_candidates@.dom(),
                ad_candidates@.len() == i,
                forall|j: int|
                    0 <= j < i ==> (#[trigger] ad_candidates@[j]).0 == handles@[j]
                        && ad_candidates@[j].1 == self.ad_candidates@[handles@[j]],
            decreases handles.len() - i,
        {
            let hwnd = handles[i];
            assert(handles@.to_set().contains(hwnd));
            let processed = match self.ad_candidates.get(&hwnd) {
                Some(flag) => *flag,
                None => false,
            };
            ad_candidates.push((hwnd, processed));
            i += 1;
        }
        assert(candidate_handles(ad_candidates@) =~= handles@);
        assert(self@.window_class_cache.dom() =~= self.window_class_cache@.dom());
        DisplaySnapshot {
            main_windows,
            ad_candidates,
            cached_classes: self.window_class_cache.len(),
            cached_scrolls: self.custom_scroll_cache.len(),
        }
    }

    /// Remove invalid window handles from all collections.
    ///
    /// `valid` holds the handles that still name a window. Main windows and
    /// advertisement candidates outside it are dropped; the class-name cache
    /// keeps the entries of what is still tracked, the custom-scroll cache
    /// those of the remaining main windows.
    pub fn cleanup_invalid_handles(&mut self, valid: &HashSet<isize>)
        ensures
            final(self)@ == old(self)@.cleaned(valid@),
            forall|h: isize| !valid@.contains(h) ==> !final(self)@.mentions(h),
            final(self)@.no_orphans(),
            old(self)@.candidates_are_classified() ==> final(self)@.candidates_are_classified(),
    {
        retain_handles(&mut self.main_windows, valid);
        retain_keys(&mut self.ad_candidates, valid);
        let mut in_use: HashSet<isize> = HashSet::new();
        let mains = handles_of_set(&self.main_windows);
        insert_handles(&mut in_use, &mains);
        let ads = handles_of_map(&self.ad_candidates);
        insert_handles(&mut in_use, &ads);
        assert(in_use@ =~= self.main_windows@.union(self.ad_candidates@.dom()));
        let ghost cache_before = self.window_class_cache@;
        retain_keys(&mut self.window_class_cache, &in_use);
        retain_keys(&mut self.custom_scroll_cache, &self.main_windows);
        assert(class_names_of(cache_before.restrict(in_use@)) =~= class_names_of(
            cache_before,
        ).restrict(in_use@));
    }

    /// The cached class name of a window, if there is one. Where there is
    /// none the system has to be asked; where there is one it need not be,
    /// for class names don't change.
    pub fn cached_class(&self, hwnd: isize) -> (cached: Option<String>)
        ensures
            cached is Some <==> self@.window_class_cache.contains_key(hwnd),
            cached is Some ==> cached->0@ == self@.window_class_cache[hwnd],
    {
        match self.window_class_cache.get(&hwnd) {
            Some(class) => Some(class.clone()),
            None => None,
        }
    }

    /// The class name to go by for a window: the cached name where there is
    /// one, else `reported`, the name that the system gives now. Nothing is
    /// stored.
    pub fn window_class(&self, hwnd: isize, reported: &str) -> (class: String)
        ensures
            class@ == self@.class_of(hwnd, reported@),
    {
        match self.window_class_cache.get(&hwnd) {
            Some(cached) => cached.clone(),
            None => reported.to_owned(),
        }
    }

    /// The class name of a window, from the cache where it is cached.
    /// Otherwise `reported`, the name that the system gives now, is cached
    /// and returned. A cached name is never replaced.
    pub fn get_window_class(&mut self, hwnd: isize, reported: &str) -> (class: String)
        ensures
            class@ == old(self)@.class_of(hwnd, reported@),
            final(self)@ == old(self)@.with_class(hwnd, reported@),
    {
        match self.window_class_cache.get(&hwnd) {
            Some(cached) => {
                let class = cached.clone();
                assert(self@.window_class_cache =~= self@.with_class(
                    hwnd,
                    reported@,
                ).window_class_cache);
                return class;
            },
            None => {},
        }
        let class = reported.to_owned();
        let ghost before = self@;
        self.window_class_cache.insert(hwnd, class.clone());
        assert(self@.window_class_cache =~= before.with_class(hwnd, reported@).window_class_cache);
        class
    }

    /// The class name of a window as the passes ask for it: like
    /// `get_window_class`, but a name is cached only for a window that is
    /// tracked, so that a pass leaves no cache entry without its window.
    pub fn class_in_pass(&mut self, hwnd: isize, reported: &str) -> (class: String)
        ensures
            class@ == old(self)@.class_of(hwnd, reported@),
            final(self)@ == old(self)@.remembering(hwnd, reported@),
            old(self)@.no_orphans() ==> final(self)@.no_orphans(),
    {
        if self.main_windows.contains(&hwnd) || self.ad_candidates.contains_key(&hwnd) {
            self.get_window_class(hwnd, reported)
        } else {
            self.window_class(hwnd, reported)
        }
    }
}

} // verus!
