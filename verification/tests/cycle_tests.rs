use std::collections::HashSet;

use kakaotalk_adblock::state::AdBlockState;
use kakaotalk_adblock::suppress::remove_ads;
use kakaotalk_adblock::watch::{watch_windows, CleanupTimer};
use kakaotalk_adblock::window::{Action, WindowInfo, WindowSnapshot};

/// A desktop that answers every question with whatever its dice say.
struct Dice {
    seed: u64,
}

impl Dice {
    fn roll(&mut self, sides: u64) -> u64 {
        self.seed = self.seed.wrapping_mul(6364136223846793005).wrapping_add(1442695040888963407);
        (self.seed >> 33) % sides
    }

    fn class_name(&mut self) -> String {
        let names = ["EVA_Window_Dblclk", "EVA_Window", "EVA_ChildWindow", "_EVA_Scroll", "Edit", ""];
        String::from(names[self.roll(names.len() as u64) as usize])
    }

    fn text(&mut self) -> String {
        let texts = ["", "", "Chat", "OnlineMainView_1", "LockModeView", "Chrome Legacy Window"];
        String::from(texts[self.roll(texts.len() as u64) as usize])
    }

    fn handle(&mut self) -> isize {
        self.roll(40) as isize
    }

    fn window(&mut self) -> WindowInfo {
        WindowInfo {
            hwnd: self.handle(),
            class_name: self.class_name(),
            text: self.text(),
            parent: self.handle(),
        }
    }

    fn windows(&mut self, at_most: u64) -> Vec<WindowInfo> {
        (0..self.roll(at_most + 1)).map(|_| self.window()).collect()
    }

    fn snapshot(&mut self, hwnd: isize) -> WindowSnapshot {
        let mut window = self.window();
        window.hwnd = hwnd;
        WindowSnapshot {
            window,
            valid: self.roll(4) != 0,
            visible: self.roll(2) == 0,
            rect: if self.roll(5) == 0 {
                None
            } else {
                Some(kakaotalk_adblock::window::Rect {
                    left: self.roll(100) as i32,
                    top: self.roll(100) as i32,
                    right: self.roll(1000) as i32,
                    bottom: self.roll(1000) as i32,
                })
            },
            descendants: self
                .windows(6)
                .into_iter()
                .map(|mut w| {
                    if self.roll(2) == 0 {
                        w.parent = hwnd;
                    }
                    w
                })
                .collect(),
        }
    }
}

fn watch_cycle(state: &mut AdBlockState, timer: &mut CleanupTimer, dice: &mut Dice) {
    if timer.tick() {
        let valid: HashSet<isize> =
            state.tracked_handles().into_iter().filter(|_| dice.roll(3) != 0).collect();
        let before = state.tracked_handles();
        state.cleanup_invalid_handles(&valid);
        for h in before {
            if !valid.contains(&h) {
                assert!(!state.main_windows.contains(&h));
                assert!(!state.ad_candidates.contains_key(&h));
                assert!(!state.window_class_cache.contains_key(&h));
                assert!(!state.custom_scroll_cache.contains_key(&h));
            }
        }
        assert!(state.window_class_cache.keys().all(|h| {
            state.main_windows.contains(h) || state.ad_candidates.contains_key(h)
        }));
    }
    let processed: Vec<isize> =
        state.ad_candidates.iter().filter(|(_, p)| **p).map(|(h, _)| *h).collect();
    let mains: Vec<isize> = state.main_windows.iter().copied().collect();
    watch_windows(state, &dice.windows(12));
    for h in processed {
        assert_eq!(state.ad_candidates.get(&h), Some(&true));
    }
    for h in mains {
        assert!(state.main_windows.contains(&h));
    }
}

fn suppress_cycle(state: &mut AdBlockState, dice: &mut Dice) {
    let mains: Vec<WindowSnapshot> =
        state.main_windows.iter().map(|h| dice.snapshot(*h)).collect();
    let ads: Vec<WindowSnapshot> =
        state.ad_candidates.keys().map(|h| dice.snapshot(*h)).collect();
    let tracked_before: HashSet<isize> = state.tracked_handles().into_iter().collect();
    let processed: Vec<isize> =
        state.ad_candidates.iter().filter(|(_, p)| **p).map(|(h, _)| *h).collect();
    let plan = remove_ads(state, &mains, &ads);
    for (i, action) in plan.iter().enumerate() {
        match action {
            Action::Close { hwnd } => {
                assert!(!state.ad_candidates.contains_key(hwnd));
                assert!(i >= 1);
                assert_eq!(
                    plan[i - 1],
                    Action::SetWindowPos { hwnd: *hwnd, x: 0, y: 0, width: 0, height: 0, flags: 2 }
                );
                assert!(mains.iter().any(|m| m.valid
                    && m.descendants.iter().skip(1).any(|d| d.hwnd == *hwnd
                        && d.parent == m.window.hwnd
                        && d.text.is_empty())));
            }
            Action::Hide { hwnd } => {
                assert_eq!(state.ad_candidates.get(hwnd), Some(&true));
                assert!(ads.iter().any(|a| a.window.hwnd == *hwnd && a.visible));
            }
            _ => {}
        }
    }
    let tracked_after: HashSet<isize> = state.tracked_handles().into_iter().collect();
    assert_eq!(tracked_before, tracked_after);
    for h in processed {
        assert_eq!(state.ad_candidates.get(&h), Some(&true));
    }
}

fn check_state(state: &AdBlockState) {
    assert!(state.custom_scroll_cache.keys().all(|h| state.main_windows.contains(h)));
    assert!(state.window_class_cache.keys().all(|h| {
        state.main_windows.contains(h) || state.ad_candidates.contains_key(h)
    }));
    assert!(state.ad_candidates.keys().all(|h| {
        let class = state.window_class_cache.get(h).map(|c| c.as_str());
        class == Some("EVA_Window_Dblclk") || class == Some("EVA_Window")
    }));
    assert_eq!(state.main_windows.len(), state.main_windows.iter().count());
    assert_eq!(state.ad_candidates.len(), state.ad_candidates.iter().count());
    assert_eq!(state.window_class_cache.len(), state.window_class_cache.iter().count());
    assert_eq!(state.custom_scroll_cache.len(), state.custom_scroll_cache.iter().count());
    let snapshot = state.snapshot_for_display();
    assert_eq!(snapshot.main_windows.len(), state.main_windows.len());
    assert_eq!(snapshot.ad_candidates.len(), state.ad_candidates.len());
    assert_eq!(snapshot.cached_classes, state.window_class_cache.len());
    assert_eq!(
        snapshot.count_processed(),
        state.ad_candidates.values().filter(|p| **p).count()
    );
}

#[test]
fn cycles_in_turn_keep_the_state_sound() {
    let mut state = AdBlockState::new();
    let mut timer = CleanupTimer::new();
    let mut dice = Dice { seed: 2024 };
    for _ in 0..400 {
        if dice.roll(2) == 0 {
            watch_cycle(&mut state, &mut timer, &mut dice);
        } else {
            suppress_cycle(&mut state, &mut dice);
        }
        check_state(&state);
    }
    state.cleanup_invalid_handles(&HashSet::new());
    assert!(state.main_windows.is_empty());
    assert!(state.ad_candidates.is_empty());
    assert!(state.window_class_cache.is_empty());
    assert!(state.custom_scroll_cache.is_empty());
}

#[test]
fn two_passes_taking_turns_at_random_share_one_state() {
    // The watch pass and the suppression pass each run on their own cycle
    // and with their own view of the desktop; which of them gets the state
    // next is decided by a third set of dice.
    for seed in 0..20 {
        let mut state = AdBlockState::new();
        let mut timer = CleanupTimer::new();
        let mut watcher = Dice { seed: 3 * seed + 1 };
        let mut remover = Dice { seed: 3 * seed + 2 };
        let mut turn = Dice { seed: 3 * seed + 3 };
        let (mut watched, mut removed) = (0, 0);
        while watched < 100 || removed < 100 {
            let burst = 1 + turn.roll(5);
            if turn.roll(2) == 0 {
                for _ in 0..burst {
                    watch_cycle(&mut state, &mut timer, &mut watcher);
                    watched += 1;
                }
            } else {
                for _ in 0..burst {
                    suppress_cycle(&mut state, &mut remover);
                    removed += 1;
                }
            }
            check_state(&state);
        }
    }
}
