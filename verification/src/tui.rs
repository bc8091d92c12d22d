//! The decisions of the interactive dashboard: which analyzers have a tab, what each key or
//! mouse event does to the view, how the tables' cursors survive a reload, and the figures the
//! panels show. Drawing and terminal I/O happen outside.
use vstd::prelude::*;
use crate::json::str_eq;
use crate::text::{chars_of, string_of, trim, trim_chars};
use crate::time::Timestamp;
use crate::config::Config;
use crate::types::{AgenticCodingToolStats, ConversationMessage, DailyStats, MessageRole};

verus! {

/// Where an upload stands, as the dashboard shows it.
#[derive(Debug, Clone)]
pub enum UploadStatus {
    /// No upload has been asked for.
    Idle,
    Uploading { current: usize, total: usize, dots: usize },
    Uploaded,
    /// The upload failed with this message.
    Failed(String),
    MissingApiToken,
    MissingServerUrl,
    MissingConfig,
}

/// Frames between two steps of the upload animation.
pub const DOTS_FRAMES: u32 = 5;

/// The status, frame counter and redraw request after one more frame of the upload animation.
pub open spec fn animation_step(status: UploadStatus, frames: u32) -> (UploadStatus, u32, bool) {
    match status {
        UploadStatus::Uploading { current, total, dots } => if frames + 1 >= DOTS_FRAMES {
            (UploadStatus::Uploading { current, total, dots: ((dots + 1) % 4) as usize }, 0, true)
        } else {
            (status, (frames + 1) as u32, false)
        },
        _ => (status, 0, false),
    }
}

/// One frame of the upload animation: while uploading, every fifth frame advances the dots
/// (cycling through 0 to 3) and asks for a redraw; otherwise the frame counter restarts.
pub fn animate_upload(status: &mut UploadStatus, frames: &mut u32) -> (redraw: bool)
    requires
        *old(frames) < u32::MAX,
        *old(status) matches UploadStatus::Uploading { dots, .. } ==> dots < usize::MAX,
    ensures
        (*final(status), *final(frames), redraw) == animation_step(*old(status), *old(frames)),
{
    match status {
        UploadStatus::Uploading { current: _, total: _, dots } => {
            *frames = *frames + 1;
            if *frames >= DOTS_FRAMES {
                *dots = (*dots + 1) % 4;
                *frames = 0;
                true
            } else {
                false
            }
        },
        _ => {
            *frames = 0;
            false
        },
    }
}

/// A screen area: `height` rows from row `y`, `width` columns from column `x`.
#[derive(Debug, Clone, Copy, Default, PartialEq, Eq, Structural)]
pub struct PanelRect {
    pub x: u16,
    pub y: u16,
    pub width: u16,
    pub height: u16,
}

impl PanelRect {
    /// The area does not run past the last row and column a terminal can have.
    pub open spec fn fits(self) -> bool {
        self.x + self.width <= u16::MAX && self.y + self.height <= u16::MAX
    }

    /// Whether screen row `row` is one of the area's rows.
    pub open spec fn covers_row(self, row: u16) -> bool {
        self.y <= row < self.y + self.height
    }
}

/// Where the two scrollable panels of the summary tab were last drawn.
#[derive(Debug, Clone, Copy, Default, PartialEq, Eq, Structural)]
pub struct UiLayout {
    pub today_by_cli_rect: Option<PanelRect>,
    pub live_activity_rect: Option<PanelRect>,
}

impl UiLayout {
    pub open spec fn fits(self) -> bool {
        &&& self.today_by_cli_rect matches Some(r) ==> r.fits()
        &&& self.live_activity_rect matches Some(r) ==> r.fits()
    }
}

/// What the dashboard shows: the tab (0 is the summary, tab `i` the `i`-th analyzer with data),
/// how far back the summary looks, the panels' scroll offsets, and whether the mouse scrolls
/// (when it does not, the terminal selects text).
#[derive(Debug, Clone, Copy, Default, PartialEq, Eq, Structural)]
pub struct TuiState {
    pub selected_tab: usize,
    pub scroll_offset: usize,
    pub summary_day_offset: usize,
    pub cli_scroll_offset: usize,
    pub cli_table_scroll_offset: usize,
    pub layout: UiLayout,
    pub mouse_mode_enabled: bool,
}

/// How far back, in days, the summary tab can look.
pub const MAX_SUMMARY_DAYS_BACK: usize = 30;

/// Rows a page key moves a table's cursor.
pub const PAGE_ROWS: usize = 10;

/// A table's cursor: the selected row, the first row shown, and the selected column.
#[derive(Debug, Clone, Copy, Default, PartialEq, Eq, Structural)]
pub struct TableCursor {
    pub selected: Option<usize>,
    pub offset: usize,
    pub selected_column: Option<usize>,
}

/// A key, as the dashboard tells them apart.
#[derive(Debug, Clone, Copy, PartialEq, Eq, Structural)]
pub enum KeyPress {
    /// `q` or Esc.
    Quit,
    /// `m`.
    ToggleMouse,
    /// Left or `h`.
    Left,
    /// Right or `l`.
    Right,
    /// Down or `j`.
    Down,
    /// Up or `k`.
    Up,
    Home,
    End,
    PageDown,
    PageUp,
    Other,
}

/// A terminal event, as the dashboard tells them apart.
#[derive(Debug, Clone, Copy, PartialEq, Eq, Structural)]
pub enum ScreenEvent {
    /// A key was pressed.
    Key(KeyPress),
    /// The wheel scrolled up over this screen row.
    ScrollUp(u16),
    /// The wheel scrolled down over this screen row.
    ScrollDown(u16),
    /// Another mouse event.
    OtherMouse,
    /// The terminal was resized.
    Resize,
    /// Anything else.
    Other,
}

/// What the loop must do after an event.
#[derive(Debug, Clone, Copy, PartialEq, Eq, Structural)]
pub struct Reaction {
    pub quit: bool,
    pub redraw: bool,
    /// The summary's day changed: its figures must be computed again.
    pub recompute_summary: bool,
    /// Turn mouse capture on or off.
    pub mouse_capture: Option<bool>,
}

pub open spec fn no_reaction() -> Reaction {
    Reaction { quit: false, redraw: false, recompute_summary: false, mouse_capture: None }
}

pub open spec fn redraw_only() -> Reaction {
    Reaction { quit: false, redraw: true, recompute_summary: false, mouse_capture: None }
}

/// The analyzer table on tab `tab`, when it is an analyzer tab that has a cursor.
pub open spec fn table_of(tab: usize, n: int, cursors: Seq<TableCursor>) -> Option<int> {
    if 0 < tab && tab <= n && tab - 1 < cursors.len() {
        Some(tab - 1)
    } else {
        None
    }
}

/// The effect of a key on a screen with `days.len()` analyzer tabs, where analyzer `a` has
/// `days[a]` days of rows.
pub open spec fn key_effect(st: TuiState, cursors: Seq<TableCursor>, days: Seq<usize>, k: KeyPress) -> (
    TuiState,
    Seq<TableCursor>,
    Reaction,
) {
    let n = days.len() as int;
    let unchanged = (st, cursors, no_reaction());
    let select = |a: int, row: usize|
        (st, cursors.update(a, TableCursor { selected: Some(row), ..cursors[a] }), redraw_only());
    match k {
        KeyPress::Quit => (st, cursors, Reaction { quit: true, ..no_reaction() }),
        KeyPress::ToggleMouse => (
            TuiState { mouse_mode_enabled: !st.mouse_mode_enabled, ..st },
            cursors,
            Reaction { mouse_capture: Some(!st.mouse_mode_enabled), ..redraw_only() },
        ),
        _ => if n == 0 {
            unchanged
        } else {
            match k {
                KeyPress::Left => if st.selected_tab > 0 {
                    (TuiState { selected_tab: (st.selected_tab - 1) as usize, ..st }, cursors, redraw_only())
                } else {
                    unchanged
                },
                KeyPress::Right => if st.selected_tab < n {
                    (TuiState { selected_tab: (st.selected_tab + 1) as usize, ..st }, cursors, redraw_only())
                } else {
                    unchanged
                },
                KeyPress::Down => if st.selected_tab == 0 {
                    if st.summary_day_offset > 0 {
                        (
                            TuiState { summary_day_offset: (st.summary_day_offset - 1) as usize, ..st },
                            cursors,
                            Reaction { recompute_summary: true, ..redraw_only() },
                        )
                    } else {
                        unchanged
                    }
                } else {
                    match table_of(st.selected_tab, n, cursors) {
                        Some(a) => match cursors[a].selected {
                            Some(s) => if s < days[a] + 2 {
                                select(a, (if s == days[a] { s + 2 } else { s + 1 }) as usize)
                            } else {
                                unchanged
                            },
                            None => unchanged,
                        },
                        None => unchanged,
                    }
                },
                KeyPress::Up => if st.selected_tab == 0 {
                    if st.summary_day_offset < MAX_SUMMARY_DAYS_BACK {
                        (
                            TuiState { summary_day_offset: (st.summary_day_offset + 1) as usize, ..st },
                            cursors,
                            Reaction { recompute_summary: true, ..redraw_only() },
                        )
                    } else {
                        unchanged
                    }
                } else {
                    match table_of(st.selected_tab, n, cursors) {
                        Some(a) => match cursors[a].selected {
                            Some(s) => if s > 0 {
                                let step: int = if s == days[a] + 1 { 2 } else { 1 };
                                select(a, (if s >= step { s - step } else { 0 }) as usize)
                            } else {
                                unchanged
                            },
                            None => unchanged,
                        },
                        None => unchanged,
                    }
                },
                KeyPress::Home => match table_of(st.selected_tab, n, cursors) {
                    Some(a) => select(a, 0),
                    None => unchanged,
                },
                KeyPress::End => match table_of(st.selected_tab, n, cursors) {
                    Some(a) => select(a, (days[a] + 1) as usize),
                    None => unchanged,
                },
                KeyPress::PageDown => match table_of(st.selected_tab, n, cursors) {
                    Some(a) => match cursors[a].selected {
                        Some(s) => select(
                            a,
                            (if s + PAGE_ROWS < days[a] + 1 { s + PAGE_ROWS } else { days[a] + 1 }) as usize,
                        ),
                        None => unchanged,
                    },
                    None => unchanged,
                },
                KeyPress::PageUp => match table_of(st.selected_tab, n, cursors) {
                    Some(a) => match cursors[a].selected {
                        Some(s) => select(a, (if s >= PAGE_ROWS { s - PAGE_ROWS } else { 0 }) as usize),
                        None => unchanged,
                    },
                    None => unchanged,
                },
                _ => unchanged,
            }
        },
    }
}

/// The area recorded in `r`, or the empty area at the origin.
pub open spec fn rect_or_empty(r: Option<PanelRect>) -> PanelRect {
    match r {
        Some(x) => x,
        None => PanelRect { x: 0, y: 0, width: 0, height: 0 },
    }
}

/// The effect of a wheel step over screen row `row` (`up` toward the top) on a screen with `n`
/// analyzer tabs: on the summary tab it scrolls the panel under the pointer, by one line, within
/// the analyzers.
pub open spec fn wheel_effect(st: TuiState, n: int, row: u16, up: bool) -> (TuiState, Reaction) {
    let live = rect_or_empty(st.layout.live_activity_rect);
    let today = rect_or_empty(st.layout.today_by_cli_rect);
    let last: int = if n > 0 { n - 1 } else { 0 };
    if !st.mouse_mode_enabled || st.selected_tab != 0 {
        (st, no_reaction())
    } else if live.covers_row(row) {
        if up && st.cli_scroll_offset > 0 {
            (TuiState { cli_scroll_offset: (st.cli_scroll_offset - 1) as usize, ..st }, redraw_only())
        } else if !up && st.cli_scroll_offset < last {
            (TuiState { cli_scroll_offset: (st.cli_scroll_offset + 1) as usize, ..st }, redraw_only())
        } else {
            (st, no_reaction())
        }
    } else if today.covers_row(row) {
        if up && st.cli_table_scroll_offset > 0 {
            (TuiState { cli_table_scroll_offset: (st.cli_table_scroll_offset - 1) as usize, ..st }, redraw_only())
        } else if !up && st.cli_table_scroll_offset < last {
            (TuiState { cli_table_scroll_offset: (st.cli_table_scroll_offset + 1) as usize, ..st }, redraw_only())
        } else {
            (st, no_reaction())
        }
    } else {
        (st, no_reaction())
    }
}

/// The effect of event `ev`.
pub open spec fn event_effect(st: TuiState, cursors: Seq<TableCursor>, days: Seq<usize>, ev: ScreenEvent) -> (
    TuiState,
    Seq<TableCursor>,
    Reaction,
) {
    match ev {
        ScreenEvent::Key(k) => key_effect(st, cursors, days, k),
        ScreenEvent::ScrollUp(row) => {
            let (s, r) = wheel_effect(st, days.len() as int, row, true);
            (s, cursors, r)
        },
        ScreenEvent::ScrollDown(row) => {
            let (s, r) = wheel_effect(st, days.len() as int, row, false);
            (s, cursors, r)
        },
        ScreenEvent::Resize => (st, cursors, redraw_only()),
        _ => (st, cursors, no_reaction()),
    }
}

/// The cursors fit in the arithmetic: no analyzer has so many days, and no cursor sits so far
/// down, that moving it would overflow.
pub open spec fn cursors_in_bounds(cursors: Seq<TableCursor>, days: Seq<usize>) -> bool {
    &&& forall|a: int| 0 <= a < days.len() ==> #[trigger] days[a] + 3 <= usize::MAX
    &&& forall|a: int| 0 <= a < cursors.len() ==> (#[trigger] cursors[a].selected matches Some(s) ==> s + PAGE_ROWS <= usize::MAX)
}

fn wheel(state: &mut TuiState, n: usize, row: u16, up: bool) -> (r: Reaction)
    requires
        old(state).layout.fits(),
    ensures
        (*final(state), r) == wheel_effect(*old(state), n as int, row, up),
{
    if !state.mouse_mode_enabled || state.selected_tab != 0 {
        return Reaction { quit: false, redraw: false, recompute_summary: false, mouse_capture: None };
    }
    let live = match state.layout.live_activity_rect {
        Some(r) => r,
        None => PanelRect { x: 0, y: 0, width: 0, height: 0 },
    };
    let today = match state.layout.today_by_cli_rect {
        Some(r) => r,
        None => PanelRect { x: 0, y: 0, width: 0, height: 0 },
    };
    let last: usize = if n > 0 { n - 1 } else { 0 };
    let none = Reaction { quit: false, redraw: false, recompute_summary: false, mouse_capture: None };
    let redraw = Reaction { quit: false, redraw: true, recompute_summary: false, mouse_capture: None };
    if row >= live.y && row < live.y + live.height {
        if up && state.cli_scroll_offset > 0 {
            state.cli_scroll_offset = state.cli_scroll_offset - 1;
            redraw
        } else if !up && state.cli_scroll_offset < last {
            state.cli_scroll_offset = state.cli_scroll_offset + 1;
            redraw
        } else {
            none
        }
    } else if row >= today.y && row < today.y + today.height {
        if up && state.cli_table_scroll_offset > 0 {
            state.cli_table_scroll_offset = state.cli_table_scroll_offset - 1;
            redraw
        } else if !up && state.cli_table_scroll_offset < last {
            state.cli_table_scroll_offset = state.cli_table_scroll_offset + 1;
            redraw
        } else {
            none
        }
    } else {
        none
    }
}

/// Applies event `ev` to the view: `cursors[a]` is the cursor of the table of the `a`-th
/// analyzer with data, which has `days[a]` days.
pub fn react(state: &mut TuiState, cursors: &mut Vec<TableCursor>, days: &[usize], ev: ScreenEvent) -> (r: Reaction)
    requires
        old(state).layout.fits(),
        cursors_in_bounds(old(cursors)@, days@),
    ensures
        (*final(state), final(cursors)@, r) == event_effect(*old(state), old(cursors)@, days@, ev),
{
    let none = Reaction { quit: false, redraw: false, recompute_summary: false, mouse_capture: None };
    let redraw = Reaction { quit: false, redraw: true, recompute_summary: false, mouse_capture: None };
    let k = match ev {
        ScreenEvent::Key(k) => k,
        ScreenEvent::ScrollUp(row) => return wheel(state, days.len(), row, true),
        ScreenEvent::ScrollDown(row) => return wheel(state, days.len(), row, false),
        ScreenEvent::Resize => return redraw,
        _ => return none,
    };
    let n = days.len();
    match k {
        KeyPress::Quit => return Reaction { quit: true, redraw: false, recompute_summary: false, mouse_capture: None },
        KeyPress::ToggleMouse => {
            state.mouse_mode_enabled = !state.mouse_mode_enabled;
            return Reaction {
                quit: false,
                redraw: true,
                recompute_summary: false,
                mouse_capture: Some(state.mouse_mode_enabled),
            };
        },
        _ => {},
    }
    if n == 0 {
        return none;
    }
    let tab = state.selected_tab;
    let table: Option<usize> = if 0 < tab && tab <= n && tab - 1 < cursors.len() {
        Some(tab - 1)
    } else {
        None
    };
    match k {
        KeyPress::Left => {
            if tab > 0 {
                state.selected_tab = tab - 1;
                redraw
            } else {
                none
            }
        },
        KeyPress::Right => {
            if tab < n {
                state.selected_tab = tab + 1;
                redraw
            } else {
                none
            }
        },
        KeyPress::Down => {
            if tab == 0 {
                if state.summary_day_offset > 0 {
                    state.summary_day_offset = state.summary_day_offset - 1;
                    Reaction { quit: false, redraw: true, recompute_summary: true, mouse_capture: None }
                } else {
                    none
                }
            } else {
                match table {
                    Some(a) => match cursors[a].selected {
                        Some(s) => {
                            if s < days[a] + 2 {
                                let row = if s == days[a] { s + 2 } else { s + 1 };
                                let c = TableCursor { selected: Some(row), ..cursors[a] };
                                cursors.set(a, c);
                                redraw
                            } else {
                                none
                            }
                        },
                        None => none,
                    },
                    None => none,
                }
            }
        },
        KeyPress::Up => {
            if tab == 0 {
                if state.summary_day_offset < MAX_SUMMARY_DAYS_BACK {
                    state.summary_day_offset = state.summary_day_offset + 1;
                    Reaction { quit: false, redraw: true, recompute_summary: true, mouse_capture: None }
                } else {
                    none
                }
            } else {
                match table {
                    Some(a) => match cursors[a].selected {
                        Some(s) => {
                            if s > 0 {
                                let step: usize = if s == days[a] + 1 { 2 } else { 1 };
                                let row = if s >= step { s - step } else { 0 };
                                let c = TableCursor { selected: Some(row), ..cursors[a] };
                                cursors.set(a, c);
                                redraw
                            } else {
                                none
                            }
                        },
                        None => none,
                    },
                    None => none,
                }
            }
        },
        KeyPress::Home => match table {
            Some(a) => {
                let c = TableCursor { selected: Some(0), ..cursors[a] };
                cursors.set(a, c);
                redraw
            },
            None => none,
        },
        KeyPress::End => match table {
            Some(a) => {
                let c = TableCursor { selected: Some(days[a] + 1), ..cursors[a] };
                cursors.set(a, c);
                redraw
            },
            None => none,
        },
        KeyPress::PageDown => match table {
            Some(a) => match cursors[a].selected {
                Some(s) => {
                    let row = if s + PAGE_ROWS < days[a] + 1 { s + PAGE_ROWS } else { days[a] + 1 };
                    let c = TableCursor { selected: Some(row), ..cursors[a] };
                    cursors.set(a, c);
                    redraw
                },
                None => none,
            },
            None => none,
        },
        KeyPress::PageUp => match table {
            Some(a) => match cursors[a].selected {
                Some(s) => {
                    let row = if s >= PAGE_ROWS { s - PAGE_ROWS } else { 0 };
                    let c = TableCursor { selected: Some(row), ..cursors[a] };
                    cursors.set(a, c);
                    redraw
                },
                None => none,
            },
            None => none,
        },
        _ => none,
    }
}

/// Whether a day shows anything: `priced` says whether its cost is above zero.
pub open spec fn day_has_data(d: DailyStats, priced: bool) -> bool {
    priced || d.stats.input_tokens > 0 || d.stats.output_tokens > 0 || d.stats.reasoning_tokens > 0
        || d.stats.tool_calls > 0
}

/// Whether an analyzer gets a tab: it saw a conversation, or one of its days shows anything.
pub open spec fn shows_data(s: AgenticCodingToolStats, priced: Seq<bool>) -> bool {
    s.num_conversations > 0 || exists|i: int|
        0 <= i < s.daily_stats@.len() && #[trigger] day_has_data(s.daily_stats@[i], priced[i])
}

/// Whether `stats` gets a tab; `priced_days[i]` says whether the cost of its `i`-th day is above
/// zero.
pub fn has_data(stats: &AgenticCodingToolStats, priced_days: &[bool]) -> (r: bool)
    requires
        priced_days@.len() == stats.daily_stats@.len(),
    ensures
        r == shows_data(*stats, priced_days@),
{
    if stats.num_conversations > 0 {
        return true;
    }
    let mut i: usize = 0;
    while i < stats.daily_stats.len()
        invariant
            i <= stats.daily_stats@.len(),
            priced_days@.len() == stats.daily_stats@.len(),
            forall|j: int| 0 <= j < i ==> !day_has_data(#[trigger] stats.daily_stats@[j], priced_days@[j]),
        decreases stats.daily_stats@.len() - i,
    {
        let d = &stats.daily_stats[i];
        if priced_days[i] || d.stats.input_tokens > 0 || d.stats.output_tokens > 0
            || d.stats.reasoning_tokens > 0 || d.stats.tool_calls > 0 {
            assert(day_has_data(stats.daily_stats@[i as int], priced_days@[i as int]));
            return true;
        }
        i = i + 1;
    }
    false
}

/// The short name an analyzer goes by in the panels.
pub open spec fn short_name(name: Seq<char>) -> Seq<char> {
    if name == "Codex CLI"@ {
        "Codex"@
    } else if name == "Gemini CLI"@ {
        "Gemini"@
    } else if name == "GitHub Copilot"@ {
        "Copilot"@
    } else if name == "Cline"@ {
        "Cline"@
    } else if name == "Roo Code"@ {
        "Roo"@
    } else if name == "Kilo Code"@ {
        "Kilo"@
    } else if name == "Qwen Code"@ {
        "Qwen"@
    } else if name == "Q CLI"@ {
        "Q"@
    } else {
        name
    }
}

/// The one-word name of an analyzer; a name it does not know is kept as it is.
pub fn simplify_analyzer_name<'a>(name: &'a str) -> (r: &'a str)
    ensures
        r@ == short_name(name@),
{
    if str_eq(name, "Codex CLI") {
        "Codex"
    } else if str_eq(name, "Gemini CLI") {
        "Gemini"
    } else if str_eq(name, "GitHub Copilot") {
        "Copilot"
    } else if str_eq(name, "Cline") {
        "Cline"
    } else if str_eq(name, "Roo Code") {
        "Roo"
    } else if str_eq(name, "Kilo Code") {
        "Kilo"
    } else if str_eq(name, "Qwen Code") {
        "Qwen"
    } else if str_eq(name, "Q CLI") {
        "Q"
    } else {
        name
    }
}

/// The last of the first `limit` names that equals `name`.
pub open spec fn last_named(names: Seq<Seq<char>>, limit: int, name: Seq<char>) -> Option<int>
    decreases limit,
{
    if limit <= 0 {
        None
    } else if names[limit - 1] == name {
        Some(limit - 1)
    } else {
        last_named(names, limit - 1, name)
    }
}

/// A new table's cursor: on the first row.
pub open spec fn fresh_cursor() -> TableCursor {
    TableCursor { selected: Some(0), offset: 0, selected_column: None }
}

/// The cursor the table of the `j`-th analyzer with data gets after a reload, where `old` were
/// the cursors before it and `names` the analyzers with data now: the old cursor at the last
/// position, among those both lists have, whose analyzer now has this name; a fresh one when
/// there is none.
pub open spec fn carried_cursor(old: Seq<TableCursor>, names: Seq<Seq<char>>, j: int) -> TableCursor {
    let limit = if names.len() < old.len() { names.len() as int } else { old.len() as int };
    match last_named(names, limit, names[j]) {
        Some(i) => old[i],
        None => fresh_cursor(),
    }
}

/// The names of `names`.
pub open spec fn name_views(names: Seq<String>) -> Seq<Seq<char>> {
    names.map_values(|s: String| s@)
}

proof fn lemma_last_named_range(names: Seq<Seq<char>>, limit: int, name: Seq<char>)
    ensures
        last_named(names, limit, name) matches Some(i) ==> 0 <= i < limit && names[i] == name,
    decreases limit,
{
    if limit > 0 {
        lemma_last_named_range(names, limit - 1, name);
    }
}

/// Rebuilds the tables' cursors after a reload, where `names` are the analyzers that now have
/// data, and keeps the selected tab within them.
pub fn update_table_states(cursors: &mut Vec<TableCursor>, names: &[String], selected_tab: &mut usize)
    ensures
        final(cursors)@ == Seq::new(names@.len(), |j: int| carried_cursor(old(cursors)@, name_views(names@), j)),
        *final(selected_tab) == if *old(selected_tab) > names@.len() { names@.len() as usize } else { *old(selected_tab) },
{
    let ghost nv = name_views(names@);
    let limit = if names.len() < cursors.len() { names.len() } else { cursors.len() };
    let mut out: Vec<TableCursor> = Vec::new();
    let mut j: usize = 0;
    while j < names.len()
        invariant
            j <= names@.len(),
            nv == name_views(names@),
            limit == if names@.len() < cursors@.len() { names@.len() } else { cursors@.len() },
            out@ == Seq::new(j as nat, |x: int| carried_cursor(cursors@, nv, x)),
        decreases names@.len() - j,
    {
        let mut i: usize = limit;
        let mut found: Option<usize> = None;
        while i > 0 && found.is_none()
            invariant
                i <= limit,
                j < names@.len(),
                nv == name_views(names@),
                limit <= names@.len(),
                limit <= cursors@.len(),
                found matches Some(f) ==> f < limit && last_named(nv, limit as int, nv[j as int]) == Some(f as int),
                found is None ==> last_named(nv, limit as int, nv[j as int]) == last_named(nv, i as int, nv[j as int]),
            decreases i,
        {
            assert(nv[i - 1] == names@[i - 1]@);
            assert(nv[j as int] == names@[j as int]@);
            if str_eq(names[i - 1].as_str(), names[j].as_str()) {
                found = Some(i - 1);
            }
            i = i - 1;
        }
        let c = match found {
            Some(f) => cursors[f],
            None => TableCursor { selected: Some(0), offset: 0, selected_column: None },
        };
        assert(c == carried_cursor(cursors@, nv, j as int));
        out.push(c);
        j = j + 1;
        assert(out@ =~= Seq::new(j as nat, |x: int| carried_cursor(cursors@, nv, x)));
    }
    *cursors = out;
    if *selected_tab > names.len() {
        *selected_tab = names.len();
    }
}

/// Buckets of the activity sparkline: the last hour in half-minute steps, oldest first.
pub const ACTIVITY_BUCKETS: usize = 120;

/// Seconds per bucket of the activity sparkline.
pub const ACTIVITY_BUCKET_SECS: i64 = 30;

/// What a message adds to its bucket: its input, output and reasoning tokens, or 1 when it has
/// none, so that it still shows as activity.
pub open spec fn activity_weight(m: ConversationMessage) -> nat {
    let t = m.stats.input_tokens + m.stats.output_tokens + m.stats.reasoning_tokens;
    if t > 0 { t as nat } else { 1 }
}

/// The bucket of a message `age` whole seconds old, when it is less than an hour old.
pub open spec fn activity_bucket(age: int) -> Option<int> {
    if 0 <= age < 3600 {
        Some(119 - age / 30)
    } else {
        None
    }
}

/// What the first `n` of `msgs` add to bucket `b` at time `now`.
pub open spec fn bucket_total(msgs: Seq<ConversationMessage>, now: Timestamp, b: int, n: int) -> nat
    decreases n,
{
    if n <= 0 {
        0
    } else {
        bucket_total(msgs, now, b, n - 1) + if activity_bucket(crate::time::seconds_between(now, msgs[n - 1].date)) == Some(b) {
            activity_weight(msgs[n - 1])
        } else {
            0
        }
    }
}

/// What the first `n` of `msgs` weigh in all.
pub open spec fn weight_total(msgs: Seq<ConversationMessage>, n: int) -> nat
    decreases n,
{
    if n <= 0 {
        0
    } else {
        weight_total(msgs, n - 1) + activity_weight(msgs[n - 1])
    }
}

proof fn lemma_bucket_below_weight(msgs: Seq<ConversationMessage>, now: Timestamp, b: int, n: int)
    ensures
        bucket_total(msgs, now, b, n) <= weight_total(msgs, n),
    decreases n,
{
    if n > 0 {
        lemma_bucket_below_weight(msgs, now, b, n - 1);
    }
}

proof fn lemma_weight_monotone(msgs: Seq<ConversationMessage>, i: int, n: int)
    requires
        i <= n,
    ensures
        weight_total(msgs, i) <= weight_total(msgs, n),
    decreases n - i,
{
    if i < n {
        lemma_weight_monotone(msgs, i, n - 1);
    }
}

/// The activity of the last hour at `now`, in half-minute buckets, oldest first.
pub fn activity_buckets(messages: &[ConversationMessage], now: &Timestamp) -> (r: Vec<u64>)
    requires
        now.wf(),
        forall|i: int| 0 <= i < messages@.len() ==> (#[trigger] messages@[i]).date.wf(),
        weight_total(messages@, messages@.len() as int) <= u64::MAX,
    ensures
        r@.len() == ACTIVITY_BUCKETS,
        forall|b: int| 0 <= b < ACTIVITY_BUCKETS ==> #[trigger] r@[b] == bucket_total(messages@, *now, b, messages@.len() as int),
{
    let mut buckets: Vec<u64> = Vec::new();
    let mut k: usize = 0;
    while k < ACTIVITY_BUCKETS
        invariant
            k <= ACTIVITY_BUCKETS,
            buckets@.len() == k,
            forall|b: int| 0 <= b < k ==> #[trigger] buckets@[b] == 0,
        decreases ACTIVITY_BUCKETS - k,
    {
        buckets.push(0);
        k = k + 1;
    }
    let mut i: usize = 0;
    while i < messages.len()
        invariant
            i <= messages@.len(),
            now.wf(),
            forall|j: int| 0 <= j < messages@.len() ==> (#[trigger] messages@[j]).date.wf(),
            weight_total(messages@, messages@.len() as int) <= u64::MAX,
            buckets@.len() == ACTIVITY_BUCKETS,
            forall|b: int| 0 <= b < ACTIVITY_BUCKETS ==> #[trigger] buckets@[b] == bucket_total(messages@, *now, b, i as int),
        decreases messages@.len() - i,
    {
        let m = &messages[i];
        let age = now.seconds_since(&m.date);
        proof {
            lemma_weight_monotone(messages@, i as int + 1, messages@.len() as int);
        }
        if age >= 0 && age < 3600 {
            let b: usize = (119 - age / ACTIVITY_BUCKET_SECS) as usize;
            let t: u64 = m.stats.input_tokens + m.stats.output_tokens + m.stats.reasoning_tokens;
            let w: u64 = if t > 0 { t } else { 1 };
            proof {
                lemma_bucket_below_weight(messages@, *now, b as int, i as int + 1);
            }
            buckets.set(b, buckets[b] + w);
        }
        i = i + 1;
    }
    buckets
}

/// The activity sparkline's buckets when every timestamp is in range and the weights of all
/// messages together fit in 64 bits; `None` otherwise.
pub fn activity_buckets_checked(messages: &[ConversationMessage], now: &Timestamp) -> (r: Option<Vec<u64>>)
    ensures
        r is Some <==> (now.wf() && (forall|i: int| 0 <= i < messages@.len() ==> (#[trigger] messages@[i]).date.wf())
            && weight_total(messages@, messages@.len() as int) <= u64::MAX),
        r matches Some(v) ==> v@.len() == ACTIVITY_BUCKETS && forall|b: int| 0 <= b < ACTIVITY_BUCKETS
            ==> #[trigger] v@[b] == bucket_total(messages@, *now, b, messages@.len() as int),
{
    if !now.is_wf() {
        return None;
    }
    let mut total: u128 = 0;
    let mut i: usize = 0;
    while i < messages.len()
        invariant
            i <= messages@.len(),
            total == weight_total(messages@, i as int),
            total <= u64::MAX,
            forall|j: int| 0 <= j < i ==> (#[trigger] messages@[j]).date.wf(),
        decreases messages@.len() - i,
    {
        let m = &messages[i];
        if !m.date.is_wf() {
            return None;
        }
        let t: u128 = m.stats.input_tokens as u128 + m.stats.output_tokens as u128 + m.stats.reasoning_tokens as u128;
        let w: u128 = if t > 0 { t } else { 1 };
        if total + w > u64::MAX as u128 {
            proof {
                lemma_weight_monotone(messages@, i as int + 1, messages@.len() as int);
            }
            return None;
        }
        total = total + w;
        i = i + 1;
    }
    Some(activity_buckets(messages, now))
}

/// Which counter of a day a summary total adds up: 0 input, 1 output, 2 cached and 3 reasoning
/// tokens, 4 tool calls, 5 conversations.
pub open spec fn day_field(d: DailyStats, k: int) -> nat {
    if k == 0 {
        d.stats.input_tokens as nat
    } else if k == 1 {
        d.stats.output_tokens as nat
    } else if k == 2 {
        d.stats.cached_tokens as nat
    } else if k == 3 {
        d.stats.reasoning_tokens as nat
    } else if k == 4 {
        d.stats.tool_calls as nat
    } else {
        d.conversations as nat
    }
}

/// A stretch of days, `from` to `to` inclusive, as day numbers.
#[derive(Debug, Clone, Copy, PartialEq, Eq, Structural)]
pub struct DayRange {
    pub from: i64,
    pub to: i64,
}

/// Counter `k` summed over the first `d` days of `s` that fall in `range`.
pub open spec fn days_total(s: AgenticCodingToolStats, range: DayRange, k: int, d: int) -> nat
    decreases d,
{
    if d <= 0 {
        0
    } else {
        let day = s.daily_stats@[d - 1];
        days_total(s, range, k, d - 1) + if range.from <= day.date <= range.to { day_field(day, k) } else { 0 }
    }
}

/// Counter `k` summed over the days in `range` of the first `a` analyzers.
pub open spec fn period_total(stats: Seq<AgenticCodingToolStats>, range: DayRange, k: int, a: int) -> nat
    decreases a,
{
    if a <= 0 {
        0
    } else {
        period_total(stats, range, k, a - 1) + days_total(stats[a - 1], range, k, stats[a - 1].daily_stats@.len() as int)
    }
}

/// The days of `s` (the `a`-th analyzer) among its first `d` that fall in `range`.
pub open spec fn days_in(s: AgenticCodingToolStats, a: int, range: DayRange, d: int) -> Seq<(usize, usize)>
    decreases d,
{
    if d <= 0 {
        Seq::empty()
    } else {
        let rest = days_in(s, a, range, d - 1);
        let day = s.daily_stats@[d - 1];
        if range.from <= day.date <= range.to {
            rest.push((a as usize, (d - 1) as usize))
        } else {
            rest
        }
    }
}

/// The days in `range` of the first `a` analyzers, as (analyzer, day) positions.
pub open spec fn period_days(stats: Seq<AgenticCodingToolStats>, range: DayRange, a: int) -> Seq<(usize, usize)>
    decreases a,
{
    if a <= 0 {
        Seq::empty()
    } else {
        period_days(stats, range, a - 1) + days_in(stats[a - 1], a - 1, range, stats[a - 1].daily_stats@.len() as int)
    }
}

/// The totals of one summary period; the costs are summed outside over `days`.
#[derive(Debug, Clone)]
pub struct AggregatedStats {
    pub input_tokens: u64,
    pub output_tokens: u64,
    pub cached_tokens: u64,
    pub reasoning_tokens: u64,
    pub tool_calls: u64,
    pub conversations: u64,
    /// The days summed, as (analyzer, day) positions.
    pub days: Vec<(usize, usize)>,
}

impl AggregatedStats {
    pub open spec fn field(self, k: int) -> nat {
        if k == 0 {
            self.input_tokens as nat
        } else if k == 1 {
            self.output_tokens as nat
        } else if k == 2 {
            self.cached_tokens as nat
        } else if k == 3 {
            self.reasoning_tokens as nat
        } else if k == 4 {
            self.tool_calls as nat
        } else {
            self.conversations as nat
        }
    }
}

/// Every summary total over `range` fits in 64 bits.
pub open spec fn period_fits(stats: Seq<AgenticCodingToolStats>, range: DayRange) -> bool {
    forall|k: int| 0 <= k < 6 ==> #[trigger] period_total(stats, range, k, stats.len() as int) <= u64::MAX
}

proof fn lemma_days_total_monotone(s: AgenticCodingToolStats, range: DayRange, k: int, d: int, e: int)
    requires
        d <= e,
    ensures
        days_total(s, range, k, d) <= days_total(s, range, k, e),
    decreases e - d,
{
    if d < e {
        lemma_days_total_monotone(s, range, k, d, e - 1);
    }
}

proof fn lemma_period_total_monotone(stats: Seq<AgenticCodingToolStats>, range: DayRange, k: int, a: int, b: int)
    requires
        a <= b,
    ensures
        period_total(stats, range, k, a) <= period_total(stats, range, k, b),
    decreases b - a,
{
    if a < b {
        lemma_period_total_monotone(stats, range, k, a, b - 1);
    }
}

/// Sums, over every day of `stats` that falls in `range`, the counters the summary shows, and
/// lists those days.
pub fn aggregate_period(stats: &[AgenticCodingToolStats], range: DayRange) -> (r: AggregatedStats)
    requires
        period_fits(stats@, range),
    ensures
        forall|k: int| 0 <= k < 6 ==> #[trigger] r.field(k) == period_total(stats@, range, k, stats@.len() as int),
        r.days@ == period_days(stats@, range, stats@.len() as int),
{
    let mut acc = AggregatedStats {
        input_tokens: 0,
        output_tokens: 0,
        cached_tokens: 0,
        reasoning_tokens: 0,
        tool_calls: 0,
        conversations: 0,
        days: Vec::new(),
    };
    let mut a: usize = 0;
    while a < stats.len()
        invariant
            a <= stats@.len(),
            period_fits(stats@, range),
            forall|k: int| 0 <= k < 6 ==> #[trigger] acc.field(k) == period_total(stats@, range, k, a as int),
            acc.days@ == period_days(stats@, range, a as int),
        decreases stats@.len() - a,
    {
        let s = &stats[a];
        let mut d: usize = 0;
        while d < s.daily_stats.len()
            invariant
                a < stats@.len(),
                *s == stats@[a as int],
                d <= s.daily_stats@.len(),
                period_fits(stats@, range),
                forall|k: int| 0 <= k < 6 ==> #[trigger] acc.field(k) == period_total(stats@, range, k, a as int)
                    + days_total(*s, range, k, d as int),
                acc.days@ == period_days(stats@, range, a as int) + days_in(*s, a as int, range, d as int),
            decreases s.daily_stats@.len() - d,
        {
            let day = &s.daily_stats[d];
            if range.from <= day.date && day.date <= range.to {
                proof {
                    assert forall|k: int| 0 <= k < 6 implies period_total(stats@, range, k, a as int)
                        + days_total(*s, range, k, d as int + 1) <= u64::MAX by {
                        lemma_days_total_monotone(*s, range, k, d as int + 1, s.daily_stats@.len() as int);
                        lemma_period_total_monotone(stats@, range, k, a as int + 1, stats@.len() as int);
                        assert(period_total(stats@, range, k, stats@.len() as int) <= u64::MAX);
                    }
                    assert(acc.field(0) + day_field(*day, 0) <= u64::MAX);
                    assert(acc.field(1) + day_field(*day, 1) <= u64::MAX);
                    assert(acc.field(2) + day_field(*day, 2) <= u64::MAX);
                    assert(acc.field(3) + day_field(*day, 3) <= u64::MAX);
                    assert(acc.field(4) + day_field(*day, 4) <= u64::MAX);
                    assert(acc.field(5) + day_field(*day, 5) <= u64::MAX);
                }
                acc.input_tokens = acc.input_tokens + day.stats.input_tokens;
                acc.output_tokens = acc.output_tokens + day.stats.output_tokens;
                acc.cached_tokens = acc.cached_tokens + day.stats.cached_tokens;
                acc.reasoning_tokens = acc.reasoning_tokens + day.stats.reasoning_tokens;
                acc.tool_calls = acc.tool_calls + day.stats.tool_calls as u64;
                acc.conversations = acc.conversations + day.conversations as u64;
                acc.days.push((a, d));
            }
            d = d + 1;
            assert(acc.days@ =~= period_days(stats@, range, a as int) + days_in(*s, a as int, range, d as int));
        }
        a = a + 1;
        assert(acc.days@ =~= period_days(stats@, range, a as int));
    }
    acc
}

/// Whether every counter summed over the days of `stats` in `range` fits in 64 bits.
pub fn period_fits_check(stats: &[AgenticCodingToolStats], range: DayRange) -> (r: bool)
    ensures
        r == period_fits(stats@, range),
{
    let mut acc: [u128; 6] = [0, 0, 0, 0, 0, 0];
    let mut a: usize = 0;
    while a < stats.len()
        invariant
            a <= stats@.len(),
            forall|k: int| 0 <= k < 6 ==> #[trigger] acc@[k] == period_total(stats@, range, k, a as int),
            forall|k: int| 0 <= k < 6 ==> #[trigger] acc@[k] <= u64::MAX,
        decreases stats@.len() - a,
    {
        let s = &stats[a];
        let mut d: usize = 0;
        while d < s.daily_stats.len()
            invariant
                a < stats@.len(),
                *s == stats@[a as int],
                d <= s.daily_stats@.len(),
                forall|k: int| 0 <= k < 6 ==> #[trigger] acc@[k] == period_total(stats@, range, k, a as int)
                    + days_total(*s, range, k, d as int),
                forall|k: int| 0 <= k < 6 ==> #[trigger] acc@[k] <= u64::MAX,
            decreases s.daily_stats@.len() - d,
        {
            let day = &s.daily_stats[d];
            if range.from <= day.date && day.date <= range.to {
                let mut k: usize = 0;
                while k < 6
                    invariant
                        k <= 6,
                        a < stats@.len(),
                        *s == stats@[a as int],
                        d < s.daily_stats@.len(),
                        *day == s.daily_stats@[d as int],
                        range.from <= day.date <= range.to,
                        forall|j: int| 0 <= j < k ==> #[trigger] acc@[j] == period_total(stats@, range, j, a as int)
                            + days_total(*s, range, j, d as int + 1),
                        forall|j: int| k <= j < 6 ==> #[trigger] acc@[j] == period_total(stats@, range, j, a as int)
                            + days_total(*s, range, j, d as int),
                        forall|j: int| 0 <= j < 6 ==> #[trigger] acc@[j] <= u64::MAX,
                    decreases 6 - k,
                {
                    let v = crate::daily_table::day_value(day, k) as u128;
                    if acc[k] + v > u64::MAX as u128 {
                        proof {
                            lemma_days_total_monotone(*s, range, k as int, d as int + 1, s.daily_stats@.len() as int);
                            lemma_period_total_monotone(stats@, range, k as int, a as int + 1, stats@.len() as int);
                            assert(period_total(stats@, range, k as int, stats@.len() as int) > u64::MAX);
                        }
                        return false;
                    }
                    acc[k] = acc[k] + v;
                    k = k + 1;
                }
            }
            d = d + 1;
        }
        a = a + 1;
    }
    assert forall|k: int| 0 <= k < 6 implies #[trigger] period_total(stats@, range, k, stats@.len() as int) <= u64::MAX by {
        assert(acc@[k] == period_total(stats@, range, k, stats@.len() as int));
    }
    true
}

/// The summary tab's figures when every total of its five periods fits in 64 bits; `None`
/// otherwise.
pub fn summary_if_fits(stats: &[AgenticCodingToolStats], days: SummaryDays, day_offset: usize) -> (r: Option<SummaryData>)
    ensures
        r is Some <==> forall|p: int| 0 <= p < 5 ==> period_fits(stats@, #[trigger] summary_ranges(days)[p]),
        r matches Some(data) ==> {
            &&& forall|k: int| 0 <= k < 6 ==> #[trigger] data.today_stats.field(k) == period_total(stats@, summary_ranges(days)[0], k, stats@.len() as int)
            &&& forall|k: int| 0 <= k < 6 ==> #[trigger] data.yesterday_stats.field(k) == period_total(stats@, summary_ranges(days)[1], k, stats@.len() as int)
            &&& forall|k: int| 0 <= k < 6 ==> #[trigger] data.week_stats.field(k) == period_total(stats@, summary_ranges(days)[2], k, stats@.len() as int)
            &&& forall|k: int| 0 <= k < 6 ==> #[trigger] data.two_week_stats.field(k) == period_total(stats@, summary_ranges(days)[3], k, stats@.len() as int)
            &&& forall|k: int| 0 <= k < 6 ==> #[trigger] data.selected_day_stats.field(k) == period_total(stats@, summary_ranges(days)[4], k, stats@.len() as int)
            &&& data.today_stats.days@ == period_days(stats@, summary_ranges(days)[0], stats@.len() as int)
            &&& data.yesterday_stats.days@ == period_days(stats@, summary_ranges(days)[1], stats@.len() as int)
            &&& data.week_stats.days@ == period_days(stats@, summary_ranges(days)[2], stats@.len() as int)
            &&& data.two_week_stats.days@ == period_days(stats@, summary_ranges(days)[3], stats@.len() as int)
            &&& data.selected_day_stats.days@ == period_days(stats@, summary_ranges(days)[4], stats@.len() as int)
            &&& data.selected_day_offset == day_offset
            &&& data.active_clis == stats@.len()
        },
{
    let ghost ranges = summary_ranges(days);
    let f0 = period_fits_check(stats, DayRange { from: days.today, to: days.today });
    let f1 = period_fits_check(stats, DayRange { from: days.yesterday, to: days.yesterday });
    let f2 = period_fits_check(stats, DayRange { from: days.week_ago, to: i64::MAX });
    let f3 = period_fits_check(stats, DayRange { from: days.two_weeks_ago, to: i64::MAX });
    let f4 = period_fits_check(stats, DayRange { from: days.selected_day, to: days.selected_day });
    if f0 && f1 && f2 && f3 && f4 {
        assert forall|p: int| 0 <= p < 5 implies period_fits(stats@, #[trigger] summary_ranges(days)[p]) by {
            if p == 0 {
                assert(ranges[0] == DayRange { from: days.today, to: days.today });
            } else if p == 1 {
                assert(ranges[1] == DayRange { from: days.yesterday, to: days.yesterday });
            } else if p == 2 {
                assert(ranges[2] == DayRange { from: days.week_ago, to: i64::MAX });
            } else if p == 3 {
                assert(ranges[3] == DayRange { from: days.two_weeks_ago, to: i64::MAX });
            } else {
                assert(ranges[4] == DayRange { from: days.selected_day, to: days.selected_day });
            }
        }
        Some(calculate_summary_data(stats, days, day_offset))
    } else {
        proof {
            if !f0 {
                assert(!period_fits(stats@, ranges[0]));
            } else if !f1 {
                assert(!period_fits(stats@, ranges[1]));
            } else if !f2 {
                assert(!period_fits(stats@, ranges[2]));
            } else if !f3 {
                assert(!period_fits(stats@, ranges[3]));
            } else {
                assert(!period_fits(stats@, ranges[4]));
            }
        }
        None
    }
}

/// The day numbers the summary tab compares against, worked out from the local clock: today,
/// yesterday, a week and two weeks ago, and the day the user has stepped back to.
#[derive(Debug, Clone, Copy, PartialEq, Eq, Structural)]
pub struct SummaryDays {
    pub today: i64,
    pub yesterday: i64,
    pub week_ago: i64,
    pub two_weeks_ago: i64,
    pub selected_day: i64,
}

/// The figures of the summary tab.
#[derive(Debug, Clone)]
pub struct SummaryData {
    pub today_stats: AggregatedStats,
    pub yesterday_stats: AggregatedStats,
    pub week_stats: AggregatedStats,
    pub two_week_stats: AggregatedStats,
    pub selected_day_stats: AggregatedStats,
    pub selected_day_offset: usize,
    pub active_clis: usize,
}

/// The five periods of the summary tab: today, yesterday, the days since a week ago, the days
/// since two weeks ago, and the selected day.
pub open spec fn summary_ranges(days: SummaryDays) -> Seq<DayRange> {
    seq![
        DayRange { from: days.today, to: days.today },
        DayRange { from: days.yesterday, to: days.yesterday },
        DayRange { from: days.week_ago, to: i64::MAX },
        DayRange { from: days.two_weeks_ago, to: i64::MAX },
        DayRange { from: days.selected_day, to: days.selected_day },
    ]
}

/// The summary tab's figures for the analyzers with data, `stats`.
pub fn calculate_summary_data(stats: &[AgenticCodingToolStats], days: SummaryDays, day_offset: usize) -> (r: SummaryData)
    requires
        forall|p: int| 0 <= p < 5 ==> period_fits(stats@, #[trigger] summary_ranges(days)[p]),
    ensures
        forall|k: int| 0 <= k < 6 ==> #[trigger] r.today_stats.field(k) == period_total(stats@, summary_ranges(days)[0], k, stats@.len() as int),
        forall|k: int| 0 <= k < 6 ==> #[trigger] r.yesterday_stats.field(k) == period_total(stats@, summary_ranges(days)[1], k, stats@.len() as int),
        forall|k: int| 0 <= k < 6 ==> #[trigger] r.week_stats.field(k) == period_total(stats@, summary_ranges(days)[2], k, stats@.len() as int),
        forall|k: int| 0 <= k < 6 ==> #[trigger] r.two_week_stats.field(k) == period_total(stats@, summary_ranges(days)[3], k, stats@.len() as int),
        forall|k: int| 0 <= k < 6 ==> #[trigger] r.selected_day_stats.field(k) == period_total(stats@, summary_ranges(days)[4], k, stats@.len() as int),
        r.today_stats.days@ == period_days(stats@, summary_ranges(days)[0], stats@.len() as int),
        r.yesterday_stats.days@ == period_days(stats@, summary_ranges(days)[1], stats@.len() as int),
        r.week_stats.days@ == period_days(stats@, summary_ranges(days)[2], stats@.len() as int),
        r.two_week_stats.days@ == period_days(stats@, summary_ranges(days)[3], stats@.len() as int),
        r.selected_day_stats.days@ == period_days(stats@, summary_ranges(days)[4], stats@.len() as int),
        r.selected_day_offset == day_offset,
        r.active_clis == stats@.len(),
{
    let ghost ranges = summary_ranges(days);
    assert(period_fits(stats@, ranges[0]));
    assert(period_fits(stats@, ranges[1]));
    assert(period_fits(stats@, ranges[2]));
    assert(period_fits(stats@, ranges[3]));
    assert(period_fits(stats@, ranges[4]));
    SummaryData {
        today_stats: aggregate_period(stats, DayRange { from: days.today, to: days.today }),
        yesterday_stats: aggregate_period(stats, DayRange { from: days.yesterday, to: days.yesterday }),
        week_stats: aggregate_period(stats, DayRange { from: days.week_ago, to: i64::MAX }),
        two_week_stats: aggregate_period(stats, DayRange { from: days.two_weeks_ago, to: i64::MAX }),
        selected_day_stats: aggregate_period(stats, DayRange { from: days.selected_day, to: days.selected_day }),
        selected_day_offset: day_offset,
        active_clis: stats.len(),
    }
}

/// `c` on one line: line feeds become spaces and carriage returns are dropped.
pub open spec fn one_line(c: Seq<char>) -> Seq<char>
    decreases c.len(),
{
    if c.len() == 0 {
        c
    } else {
        let rest = one_line(c.drop_last());
        if c.last() == '\n' {
            rest.push(' ')
        } else if c.last() == '\r' {
            rest
        } else {
            rest.push(c.last())
        }
    }
}

fn single_line(c: &str) -> (r: String)
    ensures
        r@ == one_line(c@),
{
    let cs = chars_of(c);
    let mut out: Vec<char> = Vec::new();
    let mut i: usize = 0;
    while i < cs.len()
        invariant
            i <= cs@.len(),
            cs@ == c@,
            out@ == one_line(cs@.take(i as int)),
        decreases cs@.len() - i,
    {
        assert(cs@.take(i as int + 1).drop_last() =~= cs@.take(i as int));
        let ch = cs[i];
        if ch == '\n' {
            out.push(' ');
        } else if ch != '\r' {
            out.push(ch);
        }
        i = i + 1;
    }
    assert(cs@.take(cs@.len() as int) =~= cs@);
    string_of(&out)
}

/// Whether message `m` has text to preview: content that is not blank once on one line.
pub open spec fn previewable(m: ConversationMessage) -> bool {
    m.content is Some && trim(one_line(m.content->0@)).len() > 0
}

/// Whether message `i` comes before message `j` newest first: it is newer, or as new and listed
/// earlier.
pub open spec fn newer_first(msgs: Seq<ConversationMessage>, i: int, j: int) -> bool {
    msgs[i].date.as_nanos() > msgs[j].date.as_nanos() || (msgs[i].date.as_nanos() == msgs[j].date.as_nanos() && i < j)
}

/// How many messages the preview shows.
pub const PREVIEW_LINES: usize = 5;

/// `r` lists the newest previewable messages of `msgs`, newest first: at most five, all of
/// them when there are fewer, and none older than one it leaves out.
pub open spec fn newest_previewable(msgs: Seq<ConversationMessage>, r: Seq<usize>) -> bool {
    &&& r.len() <= PREVIEW_LINES
    &&& forall|k: int| 0 <= k < r.len() ==> #[trigger] r[k] < msgs.len() && previewable(msgs[r[k] as int])
    &&& forall|k: int, l: int| 0 <= k < l < r.len() ==> newer_first(msgs, #[trigger] r[k] as int, #[trigger] r[l] as int)
    &&& forall|x: int| 0 <= x < msgs.len() && previewable(#[trigger] msgs[x]) && !r.contains(x as usize) ==> {
        &&& r.len() == PREVIEW_LINES
        &&& forall|k: int| 0 <= k < r.len() ==> newer_first(msgs, #[trigger] r[k] as int, x)
    }
}

/// One line of the message preview.
#[derive(Debug, Clone)]
pub struct PreviewLine {
    pub role: MessageRole,
    /// Who wrote it: the user's name, or the analyzer's short name.
    pub role_name: String,
    /// The message on one line.
    pub content: String,
}

/// The name shown for a message of role `role`.
pub open spec fn role_label(role: MessageRole, username: Seq<char>, analyzer_name: Seq<char>) -> Seq<char> {
    match role {
        MessageRole::User => username,
        MessageRole::Assistant => short_name(analyzer_name),
    }
}

/// The position of the newest of `msgs`, the last of them when several are equally new.
pub open spec fn is_latest(msgs: Seq<ConversationMessage>, m: int) -> bool {
    &&& 0 <= m < msgs.len()
    &&& forall|j: int| 0 <= j < msgs.len() ==> (#[trigger] msgs[j]).date.as_nanos() <= msgs[m].date.as_nanos()
    &&& forall|j: int| m < j < msgs.len() ==> (#[trigger] msgs[j]).date.as_nanos() < msgs[m].date.as_nanos()
}

fn ahead(msgs: &[ConversationMessage], i: usize, j: usize) -> (r: bool)
    requires
        i < msgs@.len(),
        j < msgs@.len(),
        msgs@[i as int].date.nanos < 1_000_000_000,
        msgs@[j as int].date.nanos < 1_000_000_000,
    ensures
        r == newer_first(msgs@, i as int, j as int),
{
    msgs[j].date.is_before(&msgs[i].date) || (!msgs[i].date.is_before(&msgs[j].date) && i < j)
}

fn shows(m: &ConversationMessage) -> (r: bool)
    ensures
        r == previewable(*m),
{
    match &m.content {
        Some(c) => {
            let one = single_line(c.as_str());
            let cs = chars_of(one.as_str());
            let t = trim_chars(&cs);
            t.len() > 0
        },
        None => false,
    }
}

/// The positions of the messages the preview shows, newest first (see [`newest_previewable`]).
pub fn preview_positions(msgs: &[ConversationMessage]) -> (r: Vec<usize>)
    requires
        forall|i: int| 0 <= i < msgs@.len() ==> (#[trigger] msgs@[i]).date.nanos < 1_000_000_000,
    ensures
        newest_previewable(msgs@, r@),
{
    let mut chosen: Vec<usize> = Vec::new();
    let mut done = false;
    while chosen.len() < PREVIEW_LINES && !done
        invariant
            chosen@.len() <= PREVIEW_LINES,
            forall|i: int| 0 <= i < msgs@.len() ==> (#[trigger] msgs@[i]).date.nanos < 1_000_000_000,
            forall|k: int| 0 <= k < chosen@.len() ==> #[trigger] chosen@[k] < msgs@.len() && previewable(msgs@[chosen@[k] as int]),
            forall|k: int, l: int| 0 <= k < l < chosen@.len() ==> newer_first(msgs@, #[trigger] chosen@[k] as int, #[trigger] chosen@[l] as int),
            forall|x: int| 0 <= x < msgs@.len() && previewable(#[trigger] msgs@[x]) && !chosen@.contains(x as usize)
                ==> forall|k: int| 0 <= k < chosen@.len() ==> newer_first(msgs@, #[trigger] chosen@[k] as int, x),
            done ==> forall|x: int| 0 <= x < msgs@.len() && previewable(#[trigger] msgs@[x]) ==> chosen@.contains(x as usize),
        decreases PREVIEW_LINES - chosen@.len() + if done { 0int } else { 1int },
    {
        let mut best: Option<usize> = None;
        let mut i: usize = 0;
        while i < msgs.len()
            invariant
                i <= msgs@.len(),
                chosen@.len() < PREVIEW_LINES,
                forall|q: int| 0 <= q < msgs@.len() ==> (#[trigger] msgs@[q]).date.nanos < 1_000_000_000,
                forall|k: int| 0 <= k < chosen@.len() ==> #[trigger] chosen@[k] < msgs@.len(),
                best matches Some(b) ==> b < i && previewable(msgs@[b as int]) && (chosen@.len() == 0
                    || newer_first(msgs@, chosen@[chosen@.len() - 1] as int, b as int)),
                forall|j: int| 0 <= j < i && previewable(#[trigger] msgs@[j]) && (chosen@.len() == 0
                    || newer_first(msgs@, chosen@[chosen@.len() - 1] as int, j)) ==> (best matches Some(b) && (b == j
                    || newer_first(msgs@, b as int, j))),
            decreases msgs@.len() - i,
        {
            let eligible = shows(&msgs[i]) && (chosen.len() == 0 || ahead(msgs, chosen[chosen.len() - 1], i));
            if eligible {
                let take = match best {
                    None => true,
                    Some(b) => ahead(msgs, i, b),
                };
                if take {
                    best = Some(i);
                }
            }
            i = i + 1;
        }
        match best {
            None => {
                proof {
                    assert forall|x: int| 0 <= x < msgs@.len() && previewable(#[trigger] msgs@[x]) implies chosen@.contains(x as usize) by {
                        if !chosen@.contains(x as usize) {
                            if chosen@.len() > 0 {
                                assert(newer_first(msgs@, chosen@[chosen@.len() - 1] as int, x));
                            }
                        }
                    }
                }
                done = true;
            },
            Some(b) => {
                let ghost before = chosen@;
                proof {
                    assert(!before.contains(b)) by {
                        if before.contains(b) {
                            let k = choose|k: int| 0 <= k < before.len() && before[k] == b;
                            if k < before.len() - 1 {
                                assert(newer_first(msgs@, before[k] as int, before[before.len() - 1] as int));
                            }
                        }
                    }
                }
                chosen.push(b);
                proof {
                    assert forall|x: int| 0 <= x < msgs@.len() && previewable(#[trigger] msgs@[x]) && !chosen@.contains(x as usize)
                        implies forall|k: int| 0 <= k < chosen@.len() ==> newer_first(msgs@, #[trigger] chosen@[k] as int, x) by {
                        assert(!before.contains(x as usize)) by {
                            if before.contains(x as usize) {
                                let k = choose|k: int| 0 <= k < before.len() && before[k] == x as usize;
                                assert(chosen@[k] == x as usize);
                            }
                        }
                        assert(x as usize != b) by {
                            assert(chosen@[before.len() as int] == b);
                        }
                        assert(before.len() == 0 || newer_first(msgs@, before[before.len() - 1] as int, x));
                        assert forall|k: int| 0 <= k < chosen@.len() implies newer_first(msgs@, #[trigger] chosen@[k] as int, x) by {
                            if k < before.len() {
                                assert(chosen@[k] == before[k]);
                            }
                        }
                    }
                    assert forall|k: int, l: int| 0 <= k < l < chosen@.len() implies newer_first(msgs@, #[trigger] chosen@[k] as int, #[trigger] chosen@[l] as int) by {
                        if l < before.len() {
                            assert(chosen@[k] == before[k] && chosen@[l] == before[l]);
                        } else {
                            assert(chosen@[k] == before[k]);
                            assert(previewable(msgs@[b as int]));
                        }
                    }
                }
            },
        }
    }
    proof {
        if chosen@.len() < PREVIEW_LINES {
            assert(done);
        }
    }
    chosen
}

pub(crate) fn latest_position(msgs: &[ConversationMessage]) -> (r: Option<usize>)
    requires
        forall|i: int| 0 <= i < msgs@.len() ==> (#[trigger] msgs@[i]).date.nanos < 1_000_000_000,
    ensures
        match r {
            Some(m) => is_latest(msgs@, m as int),
            None => msgs@.len() == 0,
        },
{
    if msgs.len() == 0 {
        return None;
    }
    let mut m: usize = 0;
    let mut i: usize = 1;
    while i < msgs.len()
        invariant
            1 <= i <= msgs@.len(),
            m < i,
            forall|q: int| 0 <= q < msgs@.len() ==> (#[trigger] msgs@[q]).date.nanos < 1_000_000_000,
            forall|j: int| 0 <= j < i ==> (#[trigger] msgs@[j]).date.as_nanos() <= msgs@[m as int].date.as_nanos(),
            forall|j: int| m < j < i ==> (#[trigger] msgs@[j]).date.as_nanos() < msgs@[m as int].date.as_nanos(),
        decreases msgs@.len() - i,
    {
        if !msgs[i].date.is_before(&msgs[m].date) {
            m = i;
        }
        i = i + 1;
    }
    Some(m)
}

/// The preview of an analyzer's recent messages: the name of whoever wrote the newest message
/// (`—` when there are none), and its five newest messages with text, oldest first, each with
/// its author's name and its text on one line. `username` is the user's name.
pub fn get_last_message_preview(stats: &AgenticCodingToolStats, username: &str) -> (r: (String, Vec<PreviewLine>))
    requires
        forall|i: int| 0 <= i < stats.messages@.len() ==> (#[trigger] stats.messages@[i]).date.nanos < 1_000_000_000,
    ensures
        stats.messages@.len() == 0 ==> r.0@ == "—"@ && r.1@.len() == 0,
        stats.messages@.len() > 0 ==> exists|m: int| is_latest(stats.messages@, m) && r.0@ == role_label(
            stats.messages@[m].role,
            username@,
            stats.analyzer_name@,
        ),
        stats.messages@.len() > 0 ==> exists|picked: Seq<usize>| {
            &&& newest_previewable(stats.messages@, picked)
            &&& r.1@.len() == picked.len()
            &&& forall|k: int| 0 <= k < picked.len() ==> {
                let msg = stats.messages@[picked[picked.len() - 1 - k] as int];
                &&& (#[trigger] r.1@[k]).role == msg.role
                &&& r.1@[k].role_name@ == role_label(msg.role, username@, stats.analyzer_name@)
                &&& r.1@[k].content@ == one_line(msg.content->0@)
            }
        },
{
    let msgs = stats.messages.as_slice();
    let latest = latest_position(msgs);
    let m = match latest {
        None => return (String::from_str("—"), Vec::new()),
        Some(m) => m,
    };
    let short = simplify_analyzer_name(stats.analyzer_name.as_str());
    let picked = preview_positions(msgs);
    let mut lines: Vec<PreviewLine> = Vec::new();
    let mut k: usize = 0;
    while k < picked.len()
        invariant
            k <= picked@.len(),
            newest_previewable(msgs@, picked@),
            short@ == short_name(stats.analyzer_name@),
            msgs@ == stats.messages@,
            lines@.len() == k,
            forall|q: int| 0 <= q < k ==> {
                let msg = msgs@[picked@[picked@.len() - 1 - q] as int];
                &&& (#[trigger] lines@[q]).role == msg.role
                &&& lines@[q].role_name@ == role_label(msg.role, username@, stats.analyzer_name@)
                &&& lines@[q].content@ == one_line(msg.content->0@)
            },
        decreases picked@.len() - k,
    {
        let idx = picked[picked.len() - 1 - k];
        let msg = &msgs[idx];
        let content = match &msg.content {
            Some(c) => single_line(c.as_str()),
            None => String::new(),
        };
        let role_name = match msg.role {
            MessageRole::User => String::from_str(username),
            MessageRole::Assistant => String::from_str(short),
        };
        lines.push(PreviewLine { role: msg.role, role_name, content });
        k = k + 1;
    }
    let who = match msgs[m].role {
        MessageRole::User => String::from_str(username),
        MessageRole::Assistant => String::from_str(short),
    };
    (who, lines)
}

/// The status shown when uploads are switched on but the configuration cannot upload: what is
/// missing, the API token, the server URL, or both.
pub fn missing_setup_status(config: &Config) -> (r: UploadStatus)
    ensures
        r == if config.server.api_token@.len() == 0 && config.server.url@.len() == 0 {
            UploadStatus::MissingConfig
        } else if config.server.api_token@.len() == 0 {
            UploadStatus::MissingApiToken
        } else if config.server.url@.len() == 0 {
            UploadStatus::MissingServerUrl
        } else {
            UploadStatus::MissingConfig
        },
{
    let token = config.is_api_token_missing();
    let url = config.is_server_url_missing();
    if token && url {
        UploadStatus::MissingConfig
    } else if token {
        UploadStatus::MissingApiToken
    } else if url {
        UploadStatus::MissingServerUrl
    } else {
        UploadStatus::MissingConfig
    }
}

/// The selected tab never leaves the tabs there are: the summary and one per analyzer with data.
pub proof fn law_tab_stays_within_tabs(st: TuiState, cursors: Seq<TableCursor>, days: Seq<usize>, ev: ScreenEvent)
    requires
        st.selected_tab <= days.len(),
    ensures
        event_effect(st, cursors, days, ev).0.selected_tab <= days.len(),
{
}

/// The summary tab looks back at most a month.
pub proof fn law_summary_looks_back_at_most_a_month(st: TuiState, cursors: Seq<TableCursor>, days: Seq<usize>, ev: ScreenEvent)
    requires
        st.summary_day_offset <= MAX_SUMMARY_DAYS_BACK,
    ensures
        event_effect(st, cursors, days, ev).0.summary_day_offset <= MAX_SUMMARY_DAYS_BACK,
{
}

/// Every table cursor is on one of the rows its table can select (for `d` days, rows up to
/// `d + 2`), and no event moves one off them.
pub proof fn law_cursor_stays_on_rows(st: TuiState, cursors: Seq<TableCursor>, days: Seq<usize>, ev: ScreenEvent)
    requires
        cursors.len() <= days.len(),
        forall|a: int| 0 <= a < cursors.len() ==> (#[trigger] cursors[a].selected matches Some(s) ==> s <= days[a] + 2),
    ensures
        event_effect(st, cursors, days, ev).1.len() == cursors.len(),
        forall|a: int| 0 <= a < cursors.len() ==> (#[trigger] event_effect(st, cursors, days, ev).1[a].selected matches Some(s)
            ==> s <= days[a] + 2),
{
}

/// Pressing `m` twice gives back the view as it was, with mouse capture as it was.
pub proof fn law_mouse_toggle_twice_restores(st: TuiState, cursors: Seq<TableCursor>, days: Seq<usize>)
    ensures
        ({
            let (s1, c1, r1) = event_effect(st, cursors, days, ScreenEvent::Key(KeyPress::ToggleMouse));
            let (s2, c2, r2) = event_effect(s1, c1, days, ScreenEvent::Key(KeyPress::ToggleMouse));
            s2 == st && c2 == cursors && r2.mouse_capture == Some(st.mouse_mode_enabled)
        }),
{
}

/// Quitting changes nothing of the view.
pub proof fn law_quit_changes_nothing(st: TuiState, cursors: Seq<TableCursor>, days: Seq<usize>)
    ensures
        ({
            let (s, c, r) = event_effect(st, cursors, days, ScreenEvent::Key(KeyPress::Quit));
            s == st && c == cursors && r.quit
        }),
{
}

} // verus!
