//! Menu texts in English and Korean, chosen by the language of the user
//! interface.

use vstd::prelude::*;

verus! {

/// Primary language identifier of Korean.
pub const LANG_KOREAN: u16 = 0x12;

/// Localized strings
pub struct Strings {
    pub run_on_startup: &'static str,
    pub run_on_startup_checked: &'static str,
    pub exit: &'static str,
    pub new_version_available: &'static str,
    pub check_for_updates: &'static str,
    pub show_debug_window: &'static str,
    pub hide_debug_window: &'static str,
}

/// The English texts.
pub open spec fn strings_en() -> Strings {
    Strings {
        run_on_startup: "Run on startup",
        run_on_startup_checked: "\u{2713} Run on startup",
        exit: "Exit",
        new_version_available: "New version available: ",
        check_for_updates: "Check for updates",
        show_debug_window: "Show debug window",
        hide_debug_window: "\u{2713} Show debug window",
    }
}

/// The Korean texts.
pub open spec fn strings_ko() -> Strings {
    Strings {
        run_on_startup: "시작 시 자동 실행",
        run_on_startup_checked: "\u{2713} 시작 시 자동 실행",
        exit: "종료",
        new_version_available: "새 버전: ",
        check_for_updates: "업데이트 확인",
        show_debug_window: "디버그 창 표시",
        hide_debug_window: "\u{2713} 디버그 창 표시",
    }
}

/// The primary language of a language identifier: its low ten bits.
pub open spec fn primary_language(lang_id: u16) -> int {
    lang_id as int % 1024
}

/// Whether a user-interface language identifier names Korean, whatever its
/// sublanguage.
pub fn is_korean(lang_id: u16) -> (r: bool)
    ensures
        r == (primary_language(lang_id) == LANG_KOREAN),
{
    assert(lang_id & 0x3FF == lang_id % 1024) by (bit_vector);
    (lang_id & 0x3FF) == LANG_KOREAN
}

/// The texts for a user-interface language identifier: Korean for Korean,
/// English for every other language.
pub fn get_strings(lang_id: u16) -> (s: Strings)
    ensures
        s == if primary_language(lang_id) == LANG_KOREAN {
            strings_ko()
        } else {
            strings_en()
        },
{
    if is_korean(lang_id) {
        Strings {
            run_on_startup: "시작 시 자동 실행",
            run_on_startup_checked: "\u{2713} 시작 시 자동 실행",
            exit: "종료",
            new_version_available: "새 버전: ",
            check_for_updates: "업데이트 확인",
            show_debug_window: "디버그 창 표시",
            hide_debug_window: "\u{2713} 디버그 창 표시",
        }
    } else {
        Strings {
            run_on_startup: "Run on startup",
            run_on_startup_checked: "\u{2713} Run on startup",
            exit: "Exit",
            new_version_available: "New version available: ",
            check_for_updates: "Check for updates",
            show_debug_window: "Show debug window",
            hide_debug_window: "\u{2713} Show debug window",
        }
    }
}

} // verus!
