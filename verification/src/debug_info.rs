//! The text of the debug overlay.
//!
//! The overlay shows, line by line, the processes found, the main windows
//! with their titles, the advertisement candidates with their marks, and the
//! size of the class-name cache. Every line has a colour. This module puts
//! the lines together from what the caller observed; drawing them is the
//! overlay's business.

use vstd::prelude::*;
use vstd::string::*;
use crate::state::{count_processed, processed_count, DisplaySnapshot};

verus! {

/// Colour of ordinary lines (green).
pub const TEXT_COLOR: u32 = 0x00FF00;

/// Colour of the heading and the footer (gold).
pub const TITLE_COLOR: u32 = 0x00D4FA;

/// Colour of processed candidates and of invalid windows (gray).
pub const PROCESSED_COLOR: u32 = 0x808080;

/// Colour of the warning that the target is not running (red).
pub const WARNING_COLOR: u32 = 0x0000FF;

/// Height of a line of the overlay.
pub const LINE_HEIGHT: i32 = 16;

/// Height of the overlay window.
pub const WINDOW_HEIGHT: i32 = 400;

/// A main window as the overlay shows it: whether its handle is still
/// valid, and its title.
#[derive(Clone, Debug, PartialEq, Eq)]
pub struct MainWindowStatus {
    pub hwnd: isize,
    pub valid: bool,
    pub title: String,
}

/// What the overlay shows of the tracking state.
#[derive(Clone, Debug, PartialEq, Eq)]
pub struct DebugState {
    /// The main windows, in the order in which they are listed.
    pub main_windows: Vec<MainWindowStatus>,
    /// The advertisement candidates, in the order in which they are listed.
    pub ad_candidates: Vec<(isize, bool)>,
    /// Number of class names in the cache.
    pub cached_classes: usize,
}

/// One line of the overlay.
#[derive(Clone, Debug, PartialEq, Eq)]
pub struct DebugLine {
    pub text: String,
    pub color: u32,
}

/// A line as characters and colour.
pub struct LineView {
    pub text: Seq<char>,
    pub color: u32,
}

impl View for DebugLine {
    type V = LineView;

    open spec fn view(&self) -> LineView {
        LineView { text: self.text@, color: self.color }
    }
}

/// The lines of a list, each as characters and colour.
pub open spec fn line_views(lines: Seq<DebugLine>) -> Seq<LineView> {
    Seq::new(lines.len(), |i: int| lines[i]@)
}

/// The character that writes a digit below sixteen, letters in upper case.
pub open spec fn digit_char(d: nat) -> char {
    if d == 0 {
        '0'
    } else if d == 1 {
        '1'
    } else if d == 2 {
        '2'
    } else if d == 3 {
        '3'
    } else if d == 4 {
        '4'
    } else if d == 5 {
        '5'
    } else if d == 6 {
        '6'
    } else if d == 7 {
        '7'
    } else if d == 8 {
        '8'
    } else if d == 9 {
        '9'
    } else if d == 10 {
        'A'
    } else if d == 11 {
        'B'
    } else if d == 12 {
        'C'
    } else if d == 13 {
        'D'
    } else if d == 14 {
        'E'
    } else {
        'F'
    }
}

/// A number written in base ten, without leading zeros.
pub open spec fn decimal_text(n: nat) -> Seq<char>
    decreases n,
{
    if n < 10 {
        seq![digit_char(n)]
    } else {
        decimal_text(n / 10).push(digit_char(n % 10))
    }
}

/// A number written in base sixteen with upper-case letters, filled up with
/// zeros on the left to at least `width` digits.
pub open spec fn hex_text(n: nat, width: nat) -> Seq<char>
    decreases n + width,
{
    if n < 16 && width <= 1 {
        seq![digit_char(n)]
    } else {
        hex_text(n / 16, if width > 0 {
            (width - 1) as nat
        } else {
            0
        }).push(digit_char(n % 16))
    }
}

/// The bits of a handle read as a number that is not negative: the handle
/// itself, or for a negative handle its two's complement.
pub open spec fn handle_bits(hwnd: isize) -> nat {
    if hwnd >= 0 {
        hwnd as nat
    } else {
        (hwnd + usize::MAX + 1) as nat
    }
}

/// A handle as the overlay writes it: `0x` and the bits of the handle in
/// base sixteen, eight digits at least.
pub open spec fn handle_text(hwnd: isize) -> Seq<char> {
    "0x"@ + hex_text(handle_bits(hwnd), 8)
}

/// Process identifiers, separated by a comma and a space.
pub open spec fn pids_text(pids: Seq<u32>) -> Seq<char>
    decreases pids.len(),
{
    if pids.len() == 0 {
        Seq::<char>::empty()
    } else if pids.len() == 1 {
        decimal_text(pids[0] as nat)
    } else {
        pids_text(pids.drop_last()) + ", "@ + decimal_text(pids.last() as nat)
    }
}

/// The heading.
pub open spec fn heading_lines() -> Seq<LineView> {
    seq![
        LineView { text: "KakaoTalk AdBlock Debug"@, color: TITLE_COLOR },
        LineView { text: "━━━━━━━━━━━━━━━━━━━━━━━"@, color: TITLE_COLOR },
    ]
}

/// The lines on the processes found: their identifiers in square brackets,
/// or a warning that there are none.
pub open spec fn process_lines(pids: Seq<u32>) -> Seq<LineView> {
    if pids.len() == 0 {
        seq![
            LineView { text: ""@, color: TEXT_COLOR },
            LineView { text: "[!] KakaoTalk not running"@, color: WARNING_COLOR },
        ]
    } else {
        seq![
            LineView { text: ""@, color: TEXT_COLOR },
            LineView { text: "PIDs: ["@ + pids_text(pids) + "]"@, color: TEXT_COLOR },
        ]
    }
}

/// The title that is shown for a main window: none for an invalid one.
pub open spec fn shown_title(window: MainWindowStatus) -> Seq<char> {
    if window.valid {
        window.title@
    } else {
        Seq::<char>::empty()
    }
}

/// The line of one main window: its handle, its title if it has one, and a
/// note where it is invalid or untitled. An invalid window is shown in gray.
pub open spec fn main_window_line(window: MainWindowStatus) -> LineView {
    let title = shown_title(window);
    let title_part = if title.len() == 0 {
        Seq::<char>::empty()
    } else {
        " "@ + title
    };
    let note = if !window.valid {
        " [INVALID]"@
    } else if title.len() == 0 {
        " (empty)"@
    } else {
        ""@
    };
    LineView {
        text: "  "@ + handle_text(window.hwnd) + title_part + note,
        color: if window.valid {
            TEXT_COLOR
        } else {
            PROCESSED_COLOR
        },
    }
}

/// The line of one advertisement candidate: a mark and its handle. A
/// processed candidate is shown in gray.
pub open spec fn ad_candidate_line(candidate: (isize, bool)) -> LineView {
    LineView {
        text: "  "@ + (if candidate.1 {
            "✓"@
        } else {
            "○"@
        }) + " "@ + handle_text(candidate.0),
        color: if candidate.1 {
            PROCESSED_COLOR
        } else {
            TEXT_COLOR
        },
    }
}

/// The lines on the tracking state: the main windows under their count, the
/// candidates under their count and the number of processed ones, and the
/// number of cached class names.
pub open spec fn state_lines(state: DebugState) -> Seq<LineView> {
    seq![
        LineView { text: ""@, color: TEXT_COLOR },
        LineView {
            text: "Main Windows: "@ + decimal_text(state.main_windows@.len()),
            color: TEXT_COLOR,
        },
    ] + Seq::new(state.main_windows@.len(), |i: int| main_window_line(state.main_windows@[i]))
        + seq![
        LineView { text: ""@, color: TEXT_COLOR },
        LineView {
            text: "Ad Candidates: "@ + decimal_text(state.ad_candidates@.len()) + " ("@
                + decimal_text(processed_count(state.ad_candidates@)) + " blocked)"@,
            color: TEXT_COLOR,
        },
    ] + Seq::new(state.ad_candidates@.len(), |i: int| ad_candidate_line(state.ad_candidates@[i]))
        + seq![
        LineView { text: ""@, color: TEXT_COLOR },
        LineView {
            text: "Cached: "@ + decimal_text(state.cached_classes as nat) + " classes"@,
            color: TEXT_COLOR,
        },
    ]
}

/// The footer.
pub open spec fn footer_lines() -> Seq<LineView> {
    seq![
        LineView { text: ""@, color: TEXT_COLOR },
        LineView { text: "─────────────────────"@, color: TITLE_COLOR },
        LineView { text: "Drag | RClick close | Scroll"@, color: TITLE_COLOR },
    ]
}

/// All lines of the overlay, top to bottom.
pub open spec fn debug_lines(pids: Seq<u32>, state: Option<DebugState>) -> Seq<LineView> {
    heading_lines() + process_lines(pids) + (match state {
        Some(state) => state_lines(state),
        None => Seq::<LineView>::empty(),
    }) + footer_lines()
}

/// The texts of the lines, one below the other: a line feed stands between
/// two lines, none after the last.
pub open spec fn joined_text(lines: Seq<LineView>) -> Seq<char>
    decreases lines.len(),
{
    if lines.len() == 0 {
        Seq::<char>::empty()
    } else if lines.len() == 1 {
        lines[0].text
    } else {
        joined_text(lines.drop_last()) + "\n"@ + lines.last().text
    }
}

/// The colours of the lines.
pub open spec fn line_colors(lines: Seq<LineView>) -> Seq<u32> {
    Seq::new(lines.len(), |i: int| lines[i].color)
}

/// The scroll offset after the mouse wheel was turned by `delta`: the old
/// offset moved against the wheel by a quarter of `delta`, but no less than
/// zero and no more than what brings the last of `total_lines` lines into
/// view; and never more than a 32-bit offset can hold.
pub open spec fn scrolled(current: i32, delta: i16, total_lines: usize) -> int {
    let reach = total_lines * LINE_HEIGHT - WINDOW_HEIGHT + 40;
    let max_scroll = if reach < 0 {
        0
    } else if reach > i32::MAX {
        i32::MAX as int
    } else {
        reach
    };
    let quarter = if delta >= 0 {
        delta / 4
    } else {
        -((-delta) / 4)
    };
    let wanted = current - quarter;
    if wanted < 0 {
        0
    } else if wanted > max_scroll {
        max_scroll
    } else {
        wanted
    }
}

/// The string that writes one digit.
fn digit_str(d: usize) -> (s: &'static str)
    requires
        d < 16,
    ensures
        s@ == seq![digit_char(d as nat)],
{
    proof {
        reveal_strlit("0");
        reveal_strlit("1");
        reveal_strlit("2");
        reveal_strlit("3");
        reveal_strlit("4");
        reveal_strlit("5");
        reveal_strlit("6");
        reveal_strlit("7");
        reveal_strlit("8");
        reveal_strlit("9");
        reveal_strlit("A");
        reveal_strlit("B");
        reveal_strlit("C");
        reveal_strlit("D");
        reveal_strlit("E");
        reveal_strlit("F");
    }
    let s = if d == 0 {
        "0"
    } else if d == 1 {
        "1"
    } else if d == 2 {
        "2"
    } else if d == 3 {
        "3"
    } else if d == 4 {
        "4"
    } else if d == 5 {
        "5"
    } else if d == 6 {
        "6"
    } else if d == 7 {
        "7"
    } else if d == 8 {
        "8"
    } else if d == 9 {
        "9"
    } else if d == 10 {
        "A"
    } else if d == 11 {
        "B"
    } else if d == 12 {
        "C"
    } else if d == 13 {
        "D"
    } else if d == 14 {
        "E"
    } else {
        "F"
    };
    assert(s@ =~= seq![digit_char(d as nat)]);
    s
}

/// Appends `n` in base ten to `text`.
pub fn push_decimal(text: &mut String, n: usize)
    ensures
        final(text)@ == old(text)@ + decimal_text(n as nat),
    decreases n,
{
    if n < 10 {
        text.append(digit_str(n));
    } else {
        let ghost before = text@;
        push_decimal(text, n / 10);
        text.append(digit_str(n % 10));
        assert(text@ =~= before + decimal_text(n as nat));
    }
}

/// Appends `n` in base sixteen to `text`, at least `width` digits wide.
pub fn push_hex(text: &mut String, n: usize, width: usize)
    ensures
        final(text)@ == old(text)@ + hex_text(n as nat, width as nat),
    decreases n + width,
{
    if n < 16 && width <= 1 {
        text.append(digit_str(n));
    } else {
        let ghost before = text@;
        let narrower: usize = if width > 0 {
            width - 1
        } else {
            0
        };
        push_hex(text, n / 16, narrower);
        text.append(digit_str(n % 16));
        assert(text@ =~= before + hex_text(n as nat, width as nat));
    }
}

/// Appends a handle to `text`, as the overlay writes it.
pub fn push_handle(text: &mut String, hwnd: isize)
    ensures
        final(text)@ == old(text)@ + handle_text(hwnd),
{
    let ghost before = text@;
    text.append("0x");
    let bits: usize = if hwnd >= 0 {
        hwnd as usize
    } else {
        usize::MAX - (-(hwnd + 1)) as usize
    };
    assert(bits == handle_bits(hwnd));
    push_hex(text, bits, 8);
    assert(text@ =~= before + handle_text(hwnd));
}

/// A line with the given text and colour.
fn line_of(text: &str, color: u32) -> (line: DebugLine)
    ensures
        line@ == (LineView { text: text@, color }),
{
    DebugLine { text: String::from_str(text), color }
}

/// The state that the overlay is given, if any.
pub open spec fn state_of(state: Option<&DebugState>) -> Option<DebugState> {
    match state {
        Some(state) => Some(*state),
        None => None,
    }
}

/// Appends the lines on the processes found.
fn push_process_lines(lines: &mut Vec<DebugLine>, pids: &Vec<u32>)
    ensures
        line_views(final(lines)@) == line_views(old(lines)@) + process_lines(pids@),
{
    let ghost before = line_views(lines@);
    lines.push(line_of("", TEXT_COLOR));
    if pids.len() == 0 {
        lines.push(line_of("[!] KakaoTalk not running", WARNING_COLOR));
    } else {
        let mut text = String::from_str("PIDs: [");
        push_decimal(&mut text, pids[0] as usize);
        let mut i: usize = 1;
        assert(pids@.take(1) == seq![pids@[0]]);
        while i < pids.len()
            invariant
                1 <= i <= pids.len(),
                text@ == "PIDs: ["@ + pids_text(pids@.take(i as int)),
            decreases pids.len() - i,
        {
            let ghost so_far = text@;
            assert(pids@.take(i + 1).drop_last() == pids@.take(i as int));
            text.append(", ");
            push_decimal(&mut text, pids[i] as usize);
            assert(text@ =~= "PIDs: ["@ + pids_text(pids@.take(i + 1)));
            i += 1;
        }
        assert(pids@.take(pids.len() as int) == pids@);
        text.append("]");
        lines.push(DebugLine { text, color: TEXT_COLOR });
    }
    assert(line_views(lines@) =~= before + process_lines(pids@));
}

/// The line of one main window.
fn main_window_debug_line(window: &MainWindowStatus) -> (line: DebugLine)
    ensures
        line@ == main_window_line(*window),
{
    let mut text = String::from_str("  ");
    push_handle(&mut text, window.hwnd);
    let untitled = !window.valid || window.title.as_str().is_empty();
    if !untitled {
        text.append(" ");
        text.append(window.title.as_str());
    }
    if !window.valid {
        text.append(" [INVALID]");
    } else if untitled {
        text.append(" (empty)");
    } else {
        text.append("");
    }
    let color = if window.valid {
        TEXT_COLOR
    } else {
        PROCESSED_COLOR
    };
    assert(text@ =~= main_window_line(*window).text);
    DebugLine { text, color }
}

/// The line of one advertisement candidate.
fn ad_candidate_debug_line(hwnd: isize, processed: bool) -> (line: DebugLine)
    ensures
        line@ == ad_candidate_line((hwnd, processed)),
{
    let mut text = String::from_str("  ");
    if processed {
        text.append("✓");
    } else {
        text.append("○");
    }
    text.append(" ");
    push_handle(&mut text, hwnd);
    let color = if processed {
        PROCESSED_COLOR
    } else {
        TEXT_COLOR
    };
    assert(text@ =~= ad_candidate_line((hwnd, processed)).text);
    DebugLine { text, color }
}

/// Appends the lines on the tracking state.
fn push_state_lines(lines: &mut Vec<DebugLine>, state: &DebugState)
    ensures
        line_views(final(lines)@) == line_views(old(lines)@) + state_lines(*state),
{
    let ghost before = line_views(lines@);
    let ghost main_heading = seq![
        LineView { text: ""@, color: TEXT_COLOR },
        LineView {
            text: "Main Windows: "@ + decimal_text(state.main_windows@.len()),
            color: TEXT_COLOR,
        },
    ];
    let ghost main_lines = Seq::new(
        state.main_windows@.len(),
        |k: int| main_window_line(state.main_windows@[k]),
    );
    let ghost ad_heading = seq![
        LineView { text: ""@, color: TEXT_COLOR },
        LineView {
            text: "Ad Candidates: "@ + decimal_text(state.ad_candidates@.len()) + " ("@
                + decimal_text(processed_count(state.ad_candidates@)) + " blocked)"@,
            color: TEXT_COLOR,
        },
    ];
    let ghost ad_lines = Seq::new(
        state.ad_candidates@.len(),
        |k: int| ad_candidate_line(state.ad_candidates@[k]),
    );
    let ghost cache_lines = seq![
        LineView { text: ""@, color: TEXT_COLOR },
        LineView {
            text: "Cached: "@ + decimal_text(state.cached_classes as nat) + " classes"@,
            color: TEXT_COLOR,
        },
    ];
    assert(state_lines(*state) == main_heading + main_lines + ad_heading + ad_lines
        + cache_lines);
    lines.push(line_of("", TEXT_COLOR));
    let mut text = String::from_str("Main Windows: ");
    push_decimal(&mut text, state.main_windows.len());
    lines.push(DebugLine { text, color: TEXT_COLOR });
    assert(line_views(lines@) =~= before + main_heading);
    let ghost head = line_views(lines@);
    let mut i: usize = 0;
    while i < state.main_windows.len()
        invariant
            i <= state.main_windows.len(),
            line_views(lines@) == head + Seq::new(
                i as nat,
                |k: int| main_window_line(state.main_windows@[k]),
            ),
        decreases state.main_windows.len() - i,
    {
        let ghost shown = line_views(lines@);
        lines.push(main_window_debug_line(&state.main_windows[i]));
        assert(line_views(lines@) =~= shown.push(main_window_line(state.main_windows@[i as int])));
        i += 1;
        assert(line_views(lines@) =~= head + Seq::new(
            i as nat,
            |k: int| main_window_line(state.main_windows@[k]),
        ));
    }
    assert(line_views(lines@) == before + main_heading + main_lines);
    let ghost upper = line_views(lines@);
    lines.push(line_of("", TEXT_COLOR));
    let mut text = String::from_str("Ad Candidates: ");
    push_decimal(&mut text, state.ad_candidates.len());
    text.append(" (");
    push_decimal(&mut text, count_processed(&state.ad_candidates));
    text.append(" blocked)");
    lines.push(DebugLine { text, color: TEXT_COLOR });
    assert(line_views(lines@) =~= upper + ad_heading);
    let ghost middle = line_views(lines@);
    let mut j: usize = 0;
    while j < state.ad_candidates.len()
        invariant
            j <= state.ad_candidates.len(),
            line_views(lines@) == middle + Seq::new(
                j as nat,
                |k: int| ad_candidate_line(state.ad_candidates@[k]),
            ),
        decreases state.ad_candidates.len() - j,
    {
        let candidate = state.ad_candidates[j];
        let ghost shown = line_views(lines@);
        lines.push(ad_candidate_debug_line(candidate.0, candidate.1));
        assert(line_views(lines@) =~= shown.push(ad_candidate_line(state.ad_candidates@[j as int])));
        j += 1;
        assert(line_views(lines@) =~= middle + Seq::new(
            j as nat,
            |k: int| ad_candidate_line(state.ad_candidates@[k]),
        ));
    }
    assert(line_views(lines@) == upper + ad_heading + ad_lines);
    let ghost lower = line_views(lines@);
    lines.push(line_of("", TEXT_COLOR));
    let mut text = String::from_str("Cached: ");
    push_decimal(&mut text, state.cached_classes);
    text.append(" classes");
    lines.push(DebugLine { text, color: TEXT_COLOR });
    assert(line_views(lines@) =~= lower + cache_lines);
    assert(line_views(lines@) =~= before + (main_heading + main_lines + ad_heading + ad_lines
        + cache_lines));
}

/// The lines of the overlay for the processes found and for the tracking
/// state, if the overlay was given one.
pub fn get_debug_lines(pids: &Vec<u32>, state: Option<&DebugState>) -> (lines: Vec<DebugLine>)
    ensures
        line_views(lines@) == debug_lines(pids@, state_of(state)),
{
    let mut lines: Vec<DebugLine> = Vec::new();
    lines.push(line_of("KakaoTalk AdBlock Debug", TITLE_COLOR));
    lines.push(line_of("━━━━━━━━━━━━━━━━━━━━━━━", TITLE_COLOR));
    assert(line_views(lines@) =~= heading_lines());
    push_process_lines(&mut lines, pids);
    match state {
        Some(state) => {
            push_state_lines(&mut lines, state);
        },
        None => {
            assert(line_views(lines@) + Seq::<LineView>::empty() == line_views(lines@));
        },
    }
    let ghost body = line_views(lines@);
    lines.push(line_of("", TEXT_COLOR));
    lines.push(line_of("─────────────────────", TITLE_COLOR));
    lines.push(line_of("Drag | RClick close | Scroll", TITLE_COLOR));
    assert(line_views(lines@) =~= body + footer_lines());
    lines
}

/// Puts lines into one text, with a line feed between two lines, and lists
/// their colours.
pub fn render_lines(lines: &Vec<DebugLine>) -> (rendered: (String, Vec<u32>))
    ensures
        rendered.0@ == joined_text(line_views(lines@)),
        rendered.1@ == line_colors(line_views(lines@)),
{
    let mut info = String::new();
    let mut colors: Vec<u32> = Vec::new();
    let ghost views = line_views(lines@);
    let mut i: usize = 0;
    assert(views.take(0) == Seq::<LineView>::empty());
    while i < lines.len()
        invariant
            i <= lines.len(),
            views == line_views(lines@),
            info@ == joined_text(views.take(i as int)),
            colors@ == line_colors(views.take(i as int)),
        decreases lines.len() - i,
    {
        assert(views.take(i + 1).drop_last() == views.take(i as int));
        assert(views.take(i + 1).last() == lines@[i as int]@);
        if i > 0 {
            info.append("\n");
        }
        info.append(lines[i].text.as_str());
        colors.push(lines[i].color);
        assert(info@ =~= joined_text(views.take(i + 1)));
        assert(colors@ =~= line_colors(views.take(i + 1)));
        i += 1;
    }
    assert(views.take(lines.len() as int) == views);
    (info, colors)
}

/// Returns (info_string, colors_per_line)
pub fn get_debug_info_with_colors(pids: &Vec<u32>, state: Option<&DebugState>) -> (rendered: (
    String,
    Vec<u32>,
))
    ensures
        rendered.0@ == joined_text(debug_lines(pids@, state_of(state))),
        rendered.1@ == line_colors(debug_lines(pids@, state_of(state))),
{
    let lines = get_debug_lines(pids, state);
    render_lines(&lines)
}

/// What the overlay shows of a display snapshot, given the main windows
/// with their titles.
pub fn debug_state_of(main_windows: Vec<MainWindowStatus>, snapshot: &DisplaySnapshot) -> (state:
    DebugState)
    ensures
        state.main_windows@ == main_windows@,
        state.ad_candidates@ == snapshot.ad_candidates@,
        state.cached_classes == snapshot.cached_classes,
{
    let mut ad_candidates: Vec<(isize, bool)> = Vec::new();
    let mut i: usize = 0;
    while i < snapshot.ad_candidates.len()
        invariant
            i <= snapshot.ad_candidates.len(),
            ad_candidates@ == snapshot.ad_candidates@.take(i as int),
        decreases snapshot.ad_candidates.len() - i,
    {
        ad_candidates.push(snapshot.ad_candidates[i]);
        i += 1;
    }
    DebugState { main_windows, ad_candidates, cached_classes: snapshot.cached_classes }
}

/// The scroll offset of the overlay after the mouse wheel was turned.
pub fn scroll_after_wheel(current: i32, delta: i16, total_lines: usize) -> (offset: i32)
    ensures
        offset == scrolled(current, delta, total_lines),
{
    let max_scroll: i64 = if total_lines > 0x1000_0000 {
        i32::MAX as i64
    } else {
        assert(total_lines * LINE_HEIGHT == total_lines * 16 <= 0x1_0000_0000) by (nonlinear_arith)
            requires
                LINE_HEIGHT == 16,
                total_lines <= 0x1000_0000,
        ;
        let reach: i64 = total_lines as i64 * LINE_HEIGHT as i64 - WINDOW_HEIGHT as i64 + 40;
        if reach < 0 {
            0
        } else if reach > i32::MAX as i64 {
            i32::MAX as i64
        } else {
            reach
        }
    };
    let quarter: i64 = if delta >= 0 {
        (delta as i64) / 4
    } else {
        -((-(delta as i64)) / 4)
    };
    let wanted: i64 = current as i64 - quarter;
    if wanted < 0 {
        0
    } else if wanted > max_scroll {
        max_scroll as i32
    } else {
        wanted as i32
    }
}

} // verus!
