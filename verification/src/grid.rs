//! The grid: zoom, selection, formats, dates, and what is done when it is
//! drawn.

use vstd::prelude::*;

use crate::dropdown::{CellWrite, DropdownCloseReason};
use crate::edit_buffer;
use crate::edit_buffer::EditState;
use crate::fitting::CellSpan;
use crate::state::{DocumentSettings, FileState, Setting, Spreadsheet, ViewState};
use crate::text;
use crate::timestamps;

verus! {

/// How a number is shown.
#[derive(Debug, PartialEq, Eq)]
pub enum NumberFormat {
    General,
    Number { decimals: u8, thousands: bool },
    Currency { decimals: u8 },
    Percent { decimals: u8 },
    Date,
    Time,
    Custom(String),
}

/// What can be done once more.
#[derive(Debug, PartialEq, Eq)]
pub enum RepeatAction {
    Bold(bool),
    Italic(bool),
    Underline(bool),
    Strikethrough(bool),
    NumberFormat(NumberFormat),
    FitColumnWidth,
}

/// What is shown in the formula bar: the cell, its formula, and the ranges that
/// the formula refers to.
#[derive(Debug, PartialEq, Eq)]
pub struct FormulaCache {
    pub cell: Option<(usize, usize)>,
    pub formula: String,
    pub refs: Vec<CellSpan>,
}

/// The grid of a window.
#[derive(Debug, PartialEq, Eq)]
pub struct GridState {
    /// An earlier state of the document is shown.
    pub previewing: bool,
    pub repeat: Option<RepeatAction>,
    /// An action is being repeated.
    pub suppress_repeat: bool,
    pub cold_start_ms: Option<u64>,
    pub formula_cache: FormulaCache,
    pub border_stale_streak: u32,
}

/// The grid of a new window.
pub open spec fn no_grid(g: GridState) -> bool {
    &&& !g.previewing && g.repeat is None && !g.suppress_repeat && g.cold_start_ms is None
    &&& g.formula_cache.cell is None && g.formula_cache.formula@.len() == 0
    &&& g.formula_cache.refs@.len() == 0 && g.border_stale_streak == 0
}

impl GridState {
    pub fn new() -> (g: GridState)
        ensures
            no_grid(g),
    {
        GridState {
            previewing: false,
            repeat: None,
            suppress_repeat: false,
            cold_start_ms: None,
            formula_cache: FormulaCache {
                cell: None,
                formula: String::new(),
                refs: Vec::new(),
            },
            border_stale_streak: 0,
        }
    }
}

// ---------------------------------------------------------------------------
// Settings of the document
// ---------------------------------------------------------------------------

impl Spreadsheet {
    /// Whether formulas are shown in place of their values.
    pub fn show_formulas(&self) -> (r: bool)
        ensures
            r == crate::files::resolved(self.doc_settings.show_formulas, false),
    {
        match self.doc_settings.show_formulas {
            Setting::Value(v) => v,
            Setting::Inherit => false,
        }
    }

    /// Whether zeros are shown.
    pub fn show_zeros(&self) -> (r: bool)
        ensures
            r == crate::files::resolved(self.doc_settings.show_zeros, true),
    {
        match self.doc_settings.show_zeros {
            Setting::Value(v) => v,
            Setting::Inherit => true,
        }
    }

    pub fn toggle_show_formulas(&mut self)
        ensures
            *final(self) == (Spreadsheet {
                doc_settings: DocumentSettings {
                    show_formulas: Setting::Value(
                        !crate::files::resolved(old(self).doc_settings.show_formulas, false),
                    ),
                    ..old(self).doc_settings
                },
                ..*old(self)
            }),
    {
        let current = self.show_formulas();
        self.doc_settings.show_formulas = Setting::Value(!current);
    }

    pub fn toggle_show_zeros(&mut self)
        ensures
            *final(self) == (Spreadsheet {
                doc_settings: DocumentSettings {
                    show_zeros: Setting::Value(
                        !crate::files::resolved(old(self).doc_settings.show_zeros, true),
                    ),
                    ..old(self).doc_settings
                },
                ..*old(self)
            }),
    {
        let current = self.show_zeros();
        self.doc_settings.show_zeros = Setting::Value(!current);
    }
}

/// The setting on the format bar after it was toggled; without a choice it is
/// shown.
pub fn toggle_format_bar(setting: Setting<bool>) -> (r: Setting<bool>)
    ensures
        r == Setting::Value(!crate::files::resolved(setting, true)),
{
    match setting {
        Setting::Value(v) => Setting::Value(!v),
        Setting::Inherit => Setting::Value(false),
    }
}

// ---------------------------------------------------------------------------
// Zoom
// ---------------------------------------------------------------------------

/// The usual zoom, in thousandths.
pub const DEFAULT_ZOOM: u32 = 1000;

pub const MIN_ZOOM: u32 = 500;

pub const MAX_ZOOM: u32 = 2000;

/// The steps of the zoom are this far apart.
pub const ZOOM_STEP: u32 = 250;

/// The zoom goes this far with every step, but for the outer ones.
pub open spec fn is_zoom_step(z: u32) -> bool {
    MIN_ZOOM <= z <= MAX_ZOOM && z % ZOOM_STEP == 0
}

/// A zoom that is kept between the bounds.
pub open spec fn bounded_zoom(z: u32) -> u32 {
    if z < MIN_ZOOM {
        MIN_ZOOM
    } else if z > MAX_ZOOM {
        MAX_ZOOM
    } else {
        z
    }
}

/// The percentage of a zoom, rounded.
pub open spec fn zoom_percent(z: u32) -> nat {
    ((z + 5) / 10) as nat
}

/// The zoom was set.
pub open spec fn zoomed(old: Spreadsheet, new: Spreadsheet, z: u32) -> bool {
    let closed = Spreadsheet { dropdown: None, ..old };
    if bounded_zoom(z) == old.view.zoom {
        new == closed
    } else {
        &&& new == (Spreadsheet {
            view: ViewState { zoom: bounded_zoom(z), ..old.view },
            status_message: new.status_message,
            ..closed
        })
        &&& text::opt_text(new.status_message) == Some(
            "Zoom: "@ + text::dec(zoom_percent(bounded_zoom(z))) + "%"@,
        )
    }
}

/// The next step above a zoom, if there is one.
pub open spec fn step_above(z: u32, next: Option<u32>) -> bool {
    match next {
        Some(s) => is_zoom_step(s) && s > z + 1 && forall|t: u32|
            #[trigger] is_zoom_step(t) && t > z + 1 ==> s <= t,
        None => forall|t: u32| #[trigger] is_zoom_step(t) ==> t <= z + 1,
    }
}

/// The next step below a zoom, if there is one.
pub open spec fn step_below(z: u32, next: Option<u32>) -> bool {
    match next {
        Some(s) => is_zoom_step(s) && s + 1 < z && forall|t: u32|
            #[trigger] is_zoom_step(t) && t + 1 < z ==> t <= s,
        None => forall|t: u32| #[trigger] is_zoom_step(t) ==> z <= t + 1,
    }
}

/// The zoom went to the next step, if there is one.
pub open spec fn zoomed_in(old: Spreadsheet, new: Spreadsheet) -> bool {
    exists|s: Option<u32>| #[trigger] step_above(old.view.zoom, s) && match s {
        Some(z) => zoomed(old, new, z),
        None => new == old,
    }
}

/// The zoom went to the previous step, if there is one.
pub open spec fn zoomed_out(old: Spreadsheet, new: Spreadsheet) -> bool {
    exists|s: Option<u32>| #[trigger] step_below(old.view.zoom, s) && match s {
        Some(z) => zoomed(old, new, z),
        None => new == old,
    }
}

fn next_step(z: u32) -> (r: Option<u32>)
    ensures
        step_above(z, r),
{
    let mut s: u32 = MIN_ZOOM;
    while s <= MAX_ZOOM
        invariant
            MIN_ZOOM <= s <= MAX_ZOOM + ZOOM_STEP,
            s % ZOOM_STEP == 0,
            forall|t: u32| #[trigger] is_zoom_step(t) && t < s ==> t <= z + 1,
        decreases MAX_ZOOM + ZOOM_STEP - s,
    {
        if s - 1 > z {
            assert(is_zoom_step(s));
            return Some(s);
        }
        assert forall|t: u32| #[trigger] is_zoom_step(t) && t < s + ZOOM_STEP implies t <= z + 1 by {
            assert(t <= s);
        }
        s = s + ZOOM_STEP;
    }
    None
}

fn previous_step(z: u32) -> (r: Option<u32>)
    ensures
        step_below(z, r),
{
    let mut s: u32 = MAX_ZOOM;
    while s >= MIN_ZOOM
        invariant
            MIN_ZOOM - ZOOM_STEP <= s <= MAX_ZOOM,
            s % ZOOM_STEP == 0,
            forall|t: u32| #[trigger] is_zoom_step(t) && t > s ==> z <= t + 1,
        decreases s,
    {
        if s + 1 < z {
            assert(is_zoom_step(s));
            return Some(s);
        }
        assert forall|t: u32| #[trigger] is_zoom_step(t) && t > s - ZOOM_STEP implies z <= t + 1 by {
            assert(t >= s);
        }
        s = s - ZOOM_STEP;
    }
    None
}

impl Spreadsheet {
    /// Set the zoom, in thousandths.
    pub fn set_zoom(&mut self, new_zoom: u32)
        ensures
            zoomed(*old(self), *final(self), new_zoom),
    {
        self.close_validation_dropdown(DropdownCloseReason::Zoom);
        let z: u32 = if new_zoom < MIN_ZOOM {
            MIN_ZOOM
        } else if new_zoom > MAX_ZOOM {
            MAX_ZOOM
        } else {
            new_zoom
        };
        if z == self.view.zoom {
            return;
        }
        self.view.zoom = z;
        let n = text::decimal(((z + 5) / 10) as u64);
        let m = text::cat3("Zoom: ", n.as_str(), "%");
        self.say(m.as_str());
    }

    /// Go to the next step of the zoom, if there is one.
    pub fn zoom_in(&mut self)
        ensures
            zoomed_in(*old(self), *final(self)),
    {
        let next = next_step(self.view.zoom);
        match next {
            Some(z) => self.set_zoom(z),
            None => {},
        }
    }

    /// Go to the previous step of the zoom, if there is one.
    pub fn zoom_out(&mut self)
        ensures
            zoomed_out(*old(self), *final(self)),
    {
        let next = previous_step(self.view.zoom);
        match next {
            Some(z) => self.set_zoom(z),
            None => {},
        }
    }

    pub fn zoom_reset(&mut self)
        ensures
            zoomed(*old(self), *final(self), DEFAULT_ZOOM),
    {
        self.set_zoom(DEFAULT_ZOOM);
    }

    /// The zoom as it is shown.
    pub fn zoom_display(&self) -> (r: String)
        requires
            self.view.zoom <= u32::MAX - 5,
        ensures
            r@ == text::dec(zoom_percent(self.view.zoom)) + "%"@,
    {
        let n = text::decimal(((self.view.zoom + 5) / 10) as u64);
        text::cat(n.as_str(), "%")
    }
}

// ---------------------------------------------------------------------------
// Formats
// ---------------------------------------------------------------------------

/// The window when an action can be done once more.
pub open spec fn with_repeat(s: Spreadsheet, a: RepeatAction) -> Spreadsheet {
    Spreadsheet {
        grid: if s.grid.suppress_repeat {
            s.grid
        } else {
            GridState { repeat: Some(a), ..s.grid }
        },
        ..s
    }
}

/// The window after a format was changed.
pub open spec fn format_changed(s: Spreadsheet, a: RepeatAction) -> Spreadsheet {
    Spreadsheet {
        file: FileState { is_modified: true, ..s.file },
        ..with_repeat(s, a)
    }
}

/// The cells of a row of a range.
pub open spec fn row_cells(row: usize, min_col: usize, n: nat) -> Seq<(usize, usize)> {
    Seq::new(n, |i: int| (row, (min_col + i) as usize))
}

/// The cells of the first `n` rows of a range, row by row.
pub open spec fn rows_cells(s: CellSpan, n: nat) -> Seq<(usize, usize)>
    decreases n,
{
    if n == 0 {
        Seq::empty()
    } else {
        rows_cells(s, (n - 1) as nat) + row_cells(
            (s.min_row + n - 1) as usize,
            s.min_col,
            crate::fitting::span_len(s.min_col, s.max_col),
        )
    }
}

/// The cells of some ranges, one range after the other, row by row.
pub open spec fn cells_of(spans: Seq<CellSpan>) -> Seq<(usize, usize)>
    decreases spans.len(),
{
    if spans.len() == 0 {
        Seq::empty()
    } else {
        let s = spans.last();
        cells_of(spans.drop_last()) + rows_cells(
            s,
            crate::fitting::span_len(s.min_row, s.max_row),
        )
    }
}

fn push_row(v: &mut Vec<(usize, usize)>, row: usize, s: &CellSpan)
    ensures
        final(v)@ == old(v)@ + row_cells(
            row,
            s.min_col,
            crate::fitting::span_len(s.min_col, s.max_col),
        ),
{
    let ghost start = v@;
    if s.min_col > s.max_col {
        assert(v@ =~= start + row_cells(row, s.min_col, 0));
        return;
    }
    let n: usize = s.max_col - s.min_col;
    let mut i: usize = 0;
    v.push((row, s.min_col));
    assert(v@ =~= start + row_cells(row, s.min_col, 1));
    while i < n
        invariant
            i <= n,
            n == s.max_col - s.min_col,
            s.min_col <= s.max_col,
            v@ == start + row_cells(row, s.min_col, (i + 1) as nat),
        decreases n - i,
    {
        i = i + 1;
        v.push((row, s.min_col + i));
        assert(v@ =~= start + row_cells(row, s.min_col, (i + 1) as nat));
    }
}

fn push_rows(v: &mut Vec<(usize, usize)>, s: &CellSpan)
    ensures
        final(v)@ == old(v)@ + rows_cells(*s, crate::fitting::span_len(s.min_row, s.max_row)),
{
    let ghost start = v@;
    if s.min_row > s.max_row {
        assert(v@ =~= start + rows_cells(*s, 0));
        return;
    }
    let n: usize = s.max_row - s.min_row;
    let mut i: usize = 0;
    push_row(v, s.min_row, s);
    proof {
        assert(rows_cells(*s, 0) =~= Seq::empty());
        assert(v@ =~= start + rows_cells(*s, 1));
    }
    while i < n
        invariant
            i <= n,
            n == s.max_row - s.min_row,
            s.min_row <= s.max_row,
            v@ == start + rows_cells(*s, (i + 1) as nat),
        decreases n - i,
    {
        let ghost before = v@;
        i = i + 1;
        push_row(v, s.min_row + i, s);
        assert(v@ =~= start + rows_cells(*s, (i + 1) as nat));
    }
}

/// The cells of some ranges, in the order in which formats are given to them.
pub fn cells_in_ranges(spans: &Vec<CellSpan>) -> (v: Vec<(usize, usize)>)
    ensures
        v@ == cells_of(spans@),
{
    let mut v: Vec<(usize, usize)> = Vec::new();
    let mut i: usize = 0;
    assert(spans@.take(0) =~= Seq::empty());
    while i < spans.len()
        invariant
            i <= spans@.len(),
            v@ == cells_of(spans@.take(i as int)),
        decreases spans@.len() - i,
    {
        assert(spans@.take(i + 1).drop_last() =~= spans@.take(i as int));
        assert(spans@.take(i + 1).last() == spans@[i as int]);
        let s = spans[i];
        push_rows(&mut v, &s);
        i = i + 1;
    }
    assert(spans@.take(spans@.len() as int) =~= spans@);
    v
}

impl Spreadsheet {
    /// An action can be done once more, unless it is one that is being
    /// repeated.
    pub fn set_repeat(&mut self, a: RepeatAction)
        ensures
            *final(self) == with_repeat(*old(self), a),
    {
        if !self.grid.suppress_repeat {
            self.grid.repeat = Some(a);
        }
    }

    fn format_changes(&mut self, a: RepeatAction)
        ensures
            *final(self) == format_changed(*old(self), a),
    {
        self.set_repeat(a);
        self.file.is_modified = true;
    }

    /// The selection was made bold, or not; `resolved` is what the active cell
    /// is now.
    pub fn toggle_bold(&mut self, resolved: bool)
        ensures
            *final(self) == format_changed(*old(self), RepeatAction::Bold(resolved)),
    {
        self.format_changes(RepeatAction::Bold(resolved));
    }

    pub fn toggle_italic(&mut self, resolved: bool)
        ensures
            *final(self) == format_changed(*old(self), RepeatAction::Italic(resolved)),
    {
        self.format_changes(RepeatAction::Italic(resolved));
    }

    pub fn toggle_underline(&mut self, resolved: bool)
        ensures
            *final(self) == format_changed(*old(self), RepeatAction::Underline(resolved)),
    {
        self.format_changes(RepeatAction::Underline(resolved));
    }

    pub fn toggle_strikethrough(&mut self, resolved: bool)
        ensures
            *final(self) == format_changed(*old(self), RepeatAction::Strikethrough(resolved)),
    {
        self.format_changes(RepeatAction::Strikethrough(resolved));
    }

    /// Show the numbers of the selection as money: the result is their format.
    pub fn format_currency(&mut self) -> (f: NumberFormat)
        ensures
            f == (NumberFormat::Currency { decimals: 2 }),
            *final(self) == format_changed(
                *old(self),
                RepeatAction::NumberFormat(NumberFormat::Currency { decimals: 2 }),
            ),
    {
        self.format_changes(RepeatAction::NumberFormat(NumberFormat::Currency { decimals: 2 }));
        NumberFormat::Currency { decimals: 2 }
    }

    /// Show the numbers of the selection as percentages.
    pub fn format_percent(&mut self) -> (f: NumberFormat)
        ensures
            f == (NumberFormat::Percent { decimals: 2 }),
            *final(self) == format_changed(
                *old(self),
                RepeatAction::NumberFormat(NumberFormat::Percent { decimals: 2 }),
            ),
    {
        self.format_changes(RepeatAction::NumberFormat(NumberFormat::Percent { decimals: 2 }));
        NumberFormat::Percent { decimals: 2 }
    }

    pub fn format_date_shortcut() -> (f: NumberFormat)
        ensures
            f == NumberFormat::Date,
    {
        NumberFormat::Date
    }

    pub fn format_number_shortcut() -> (f: NumberFormat)
        ensures
            f == (NumberFormat::Number { decimals: 2, thousands: true }),
    {
        NumberFormat::Number { decimals: 2, thousands: true }
    }

    pub fn format_general_shortcut() -> (f: NumberFormat)
        ensures
            f == NumberFormat::General,
    {
        NumberFormat::General
    }

    pub fn format_scientific_shortcut() -> (f: NumberFormat)
        ensures
            f matches NumberFormat::Custom(s) && s@ == "0.00E+00"@,
    {
        NumberFormat::Custom(text::lit("0.00E+00"))
    }

    pub fn format_time_shortcut() -> (f: NumberFormat)
        ensures
            f == NumberFormat::Time,
    {
        NumberFormat::Time
    }
}

// ---------------------------------------------------------------------------
// Dates and times
// ---------------------------------------------------------------------------

/// A year in four digits; a year that these do not hold has a sign before it.
pub open spec fn year_text(year: int) -> Seq<char> {
    if 0 <= year < 10000 {
        text::dec_padded(year as nat, 4)
    } else if year < 0 {
        "-"@ + text::dec_padded((-year) as nat, 4)
    } else {
        "+"@ + text::dec_padded(year as nat, 4)
    }
}

/// A date as month, day and year with slashes between them.
pub open spec fn date_text(month: nat, day: nat, year: int) -> Seq<char> {
    text::dec(month) + "/"@ + text::dec(day) + "/"@ + year_text(year)
}

/// The text is that of a day of the calendar.
pub open spec fn is_date_text(t: Seq<char>) -> bool {
    exists|month: nat, day: nat, year: int|
        1 <= month <= 12 && 1 <= day <= timestamps::days_in_month(year, month as int) && t
            == #[trigger] date_text(month, day, year)
}

/// A time of day on the clock of twelve hours.
pub open spec fn time_text(hour: nat, minute: nat, pm: bool) -> Seq<char> {
    text::dec(hour) + ":"@ + text::dec_padded(minute, 2) + if pm {
        " PM"@
    } else {
        " AM"@
    }
}

/// The text is that of a minute of the day.
pub open spec fn is_time_text(t: Seq<char>) -> bool {
    exists|hour: nat, minute: nat, pm: bool|
        1 <= hour <= 12 && minute < 60 && t == #[trigger] time_text(hour, minute, pm)
}

/// `chrono::Local::now` written out with `chrono::DateTime::format`: the local
/// time in one of two patterns. The first gives the month and the day without
/// padding and the year in four digits, the second the hour of twelve without
/// padding, the minute in two digits, and AM or PM. Which moment it is is left
/// open.
#[verifier::external_body]
fn local_time_text(pattern: &str) -> (r: String)
    requires
        pattern@ == "%-m/%-d/%Y"@ || pattern@ == "%-I:%M %p"@,
    ensures
        pattern@ == "%-m/%-d/%Y"@ ==> is_date_text(r@),
        pattern@ == "%-I:%M %p"@ ==> is_time_text(r@),
{
    chrono::Local::now().format(pattern).to_string()
}

/// The selected cell is given a text.
pub open spec fn text_inserted(old: Spreadsheet, new: Spreadsheet, m: Seq<char>) -> bool {
    &&& new == (Spreadsheet {
        status_message: new.status_message,
        file: FileState { is_modified: true, ..old.file },
        ..old
    })
    &&& text::opt_text(new.status_message) == Some(m)
}

impl Spreadsheet {
    /// Give the selected cell a text, unless an earlier state is shown; the
    /// status bar says `m`.
    pub fn insert_text(&mut self, value: String, m: &str) -> (w: Option<CellWrite>)
        ensures
            text_typed(*old(self), *final(self), value@, m@, w),
    {
        if self.grid.previewing {
            return None;
        }
        let (row, col) = self.view.selected;
        self.file.is_modified = true;
        self.say(m);
        Some(CellWrite { row, col, value })
    }

    /// Put the date of today into the selected cell, as text.
    pub fn insert_date(&mut self) -> (w: Option<CellWrite>)
        ensures
            if old(self).grid.previewing {
                w is None && *final(self) == *old(self)
            } else {
                &&& text_inserted(*old(self), *final(self), "Date inserted"@)
                &&& w matches Some(x) && x.row == old(self).view.selected.0 && x.col == old(
                    self,
                ).view.selected.1 && is_date_text(x.value@)
            },
    {
        let date = local_time_text("%-m/%-d/%Y");
        self.insert_text(date, "Date inserted")
    }

    /// Put the time of day into the selected cell, as text.
    pub fn insert_time(&mut self) -> (w: Option<CellWrite>)
        ensures
            if old(self).grid.previewing {
                w is None && *final(self) == *old(self)
            } else {
                &&& text_inserted(*old(self), *final(self), "Time inserted"@)
                &&& w matches Some(x) && x.row == old(self).view.selected.0 && x.col == old(
                    self,
                ).view.selected.1 && is_time_text(x.value@)
            },
    {
        let time = local_time_text("%-I:%M %p");
        self.insert_text(time, "Time inserted")
    }

    // -----------------------------------------------------------------------
    // Selection
    // -----------------------------------------------------------------------

    /// Extend the selection to the first cell.
    pub fn extend_to_start(&mut self)
        ensures
            *final(self) == if edit_buffer::is_editing(old(self).mode) {
                *old(self)
            } else {
                Spreadsheet {
                    view: ViewState {
                        selection_end: Some((0usize, 0usize)),
                        scroll_row: 0,
                        scroll_col: 0,
                        ..old(self).view
                    },
                    ..*old(self)
                }
            },
    {
        if self.mode_is_editing() {
            return;
        }
        self.view.selection_end = Some((0, 0));
        self.view.scroll_row = 0;
        self.view.scroll_col = 0;
    }

    /// Extend the selection to the last cell.
    pub fn extend_to_end(&mut self)
        requires
            old(self).sizes.rows > 0,
            old(self).sizes.cols > 0,
        ensures
            *final(self) == if edit_buffer::is_editing(old(self).mode) {
                *old(self)
            } else {
                Spreadsheet {
                    view: ViewState {
                        selection_end: Some(
                            (
                                (old(self).sizes.rows - 1) as usize,
                                (old(self).sizes.cols - 1) as usize,
                            ),
                        ),
                        ..old(self).view
                    },
                    ..*old(self)
                }
            },
    {
        if self.mode_is_editing() {
            return;
        }
        self.view.selection_end = Some((self.sizes.rows - 1, self.sizes.cols - 1));
    }

    /// Select the block of cells around the selected one.
    pub fn select_current_region(&mut self, region: CellSpan)
        requires
            region.min_row <= region.max_row < usize::MAX,
            region.min_col <= region.max_col < usize::MAX,
        ensures
            region_selected(*old(self), *final(self), region),
    {
        if self.mode_is_editing() {
            return;
        }
        self.view.selected = (region.min_row, region.min_col);
        self.view.selection_end = if region.min_row == region.max_row && region.min_col
            == region.max_col {
            None
        } else {
            Some((region.max_row, region.max_col))
        };
        let rows: usize = region.max_row - region.min_row + 1;
        let cols: usize = region.max_col - region.min_col + 1;
        let r = text::decimal(rows as u64);
        let c = text::decimal(cols as u64);
        let mut m = text::cat3("Selected region: ", r.as_str(), "×");
        m.append(c.as_str());
        self.say(m.as_str());
    }

    /// Whether the document can be edited.
    pub fn can_edit(&self) -> (r: bool)
        ensures
            r == !self.grid.previewing,
    {
        !self.grid.previewing
    }

    /// Refuse an operation on a sheet with merged cells. The result is whether
    /// it was refused.
    pub fn block_if_merged(&mut self, op_name: &str, merged: bool) -> (r: bool)
        ensures
            r == merged,
            if merged {
                crate::hub::only_says(
                    *old(self),
                    *final(self),
                    "Cannot "@ + op_name@
                        + ": this operation can't be applied to merged cells. Unmerge first."@,
                )
            } else {
                *final(self) == *old(self)
            },
    {
        if merged {
            let m = text::cat3(
                "Cannot ",
                op_name,
                ": this operation can't be applied to merged cells. Unmerge first.",
            );
            self.say(m.as_str());
        }
        merged
    }
}

// ---------------------------------------------------------------------------
// Drawing
// ---------------------------------------------------------------------------

/// What the status bar says when the window is drawn for the first time.
pub open spec fn ready_text(existing: Option<Seq<char>>, ms: u64) -> Seq<char> {
    match existing {
        Some(m) => m + " · Ready in "@ + text::dec(ms as nat) + "ms"@,
        None => "Ready in "@ + text::dec(ms as nat) + "ms"@,
    }
}

/// How many reports in a row a flag on borders can be wrong before it is said.
pub const STALE_REPORTS: u32 = 3;

impl Spreadsheet {
    /// The window is drawn. The first time, `elapsed` is how long the program
    /// took to get there; an empty window says so, beside what it says already.
    pub fn first_render(&mut self, elapsed: Option<u64>)
        ensures
            match (old(self).grid.cold_start_ms, elapsed) {
                (None, Some(ms)) => {
                    &&& *final(self) == (Spreadsheet {
                        status_message: final(self).status_message,
                        grid: GridState { cold_start_ms: Some(ms), ..old(self).grid },
                        ..*old(self)
                    })
                    &&& if old(self).file.current_file is None {
                        text::opt_text(final(self).status_message) == Some(
                            ready_text(text::opt_text(old(self).status_message), ms),
                        )
                    } else {
                        final(self).status_message == old(self).status_message
                    }
                },
                _ => *final(self) == *old(self),
            },
    {
        if self.grid.cold_start_ms.is_some() {
            return;
        }
        match elapsed {
            Some(ms) => {
                self.grid.cold_start_ms = Some(ms);
                if self.file.current_file.is_none() {
                    let n = text::decimal(ms);
                    let m = match &self.status_message {
                        Some(existing) => {
                            let mut m = text::cat3(
                                existing.as_str(),
                                " · Ready in ",
                                n.as_str(),
                            );
                            m.append("ms");
                            m
                        },
                        None => text::cat3("Ready in ", n.as_str(), "ms"),
                    };
                    self.say(m.as_str());
                }
            },
            None => {},
        }
    }

    /// The window has another size: while a cell is edited, its text has to be
    /// scrolled to the caret again.
    pub fn window_resized(&mut self)
        ensures
            *final(self) == if edit_buffer::is_editing(old(self).mode) {
                Spreadsheet {
                    edit: EditState { scroll_dirty: true, ..old(self).edit },
                    ..*old(self)
                }
            } else {
                *old(self)
            },
    {
        if self.mode_is_editing() {
            self.edit.scroll_dirty = true;
        }
    }

    /// Whether the title has to be set anew, which is then no longer asked for.
    pub fn take_title_refresh(&mut self) -> (r: bool)
        ensures
            r == old(self).file.pending_title_refresh,
            *final(self) == (Spreadsheet {
                file: FileState { pending_title_refresh: false, ..old(self).file },
                ..*old(self)
            }),
    {
        let r = self.file.pending_title_refresh;
        self.file.pending_title_refresh = false;
        r
    }

    /// Report on borders: `has_flag` is whether the sheet says that it has any,
    /// `overlays` how many cells were drawn with them, and `calls` how many were
    /// looked at. The result is whether the flag looks wrong for too long.
    pub fn border_report(&mut self, has_flag: bool, overlays: u64, calls: u64) -> (warn: bool)
        requires
            old(self).grid.border_stale_streak < u32::MAX,
        ensures
            borders_reported(*old(self), *final(self), has_flag, overlays, calls, warn),
    {
        if has_flag && overlays == 0 && calls > 0 {
            self.grid.border_stale_streak = self.grid.border_stale_streak + 1;
        } else {
            self.grid.border_stale_streak = 0;
        }
        self.grid.border_stale_streak >= STALE_REPORTS
    }

    /// Whether the formula bar shows something else than the selected cell,
    /// which holds `formula`.
    pub fn formula_bar_is_stale(&self, formula: &str) -> (r: bool)
        ensures
            r == formula_stale(*self, formula@),
    {
        if self.mode_is_editing() {
            return false;
        }
        match self.grid.formula_cache.cell {
            Some((row, col)) => !(row == self.view.selected.0 && col == self.view.selected.1
                && text::str_eq(self.grid.formula_cache.formula.as_str(), formula)),
            None => true,
        }
    }

    /// Show the selected cell in the formula bar. `refs` are the ranges that
    /// its formula refers to; what is no formula refers to none.
    pub fn refresh_formula_bar(&mut self, formula: &str, refs: Vec<CellSpan>)
        ensures
            bar_refreshed(*old(self), *final(self), formula@, refs@),
    {
        if !self.formula_bar_is_stale(formula) {
            return;
        }
        self.grid.formula_cache.cell = Some(self.view.selected);
        self.grid.formula_cache.formula = text::lit(formula);
        self.grid.formula_cache.refs = if edit_buffer::begins_with(formula, '=')
            || edit_buffer::begins_with(formula, '+') {
            refs
        } else {
            Vec::new()
        };
    }
}

/// The formula bar shows something else than the selected cell.
pub open spec fn formula_stale(s: Spreadsheet, formula: Seq<char>) -> bool {
    !edit_buffer::is_editing(s.mode) && !(s.grid.formula_cache.cell == Some(s.view.selected)
        && s.grid.formula_cache.formula@ == formula)
}

/// A text is to go into the active cell.
pub open spec fn text_typed(
    old: Spreadsheet,
    new: Spreadsheet,
    value: Seq<char>,
    m: Seq<char>,
    w: Option<CellWrite>,
) -> bool {
    &&& if old.grid.previewing {
        w is None && new == old
    } else {
        &&& text_inserted(old, new, m)
        &&& w matches Some(x) && x.row == old.view.selected.0 && x.col == old.view.selected.1 && x.value@ == value
    }
}

/// The region around the active cell was selected.
pub open spec fn region_selected(
    old: Spreadsheet,
    new: Spreadsheet,
    region: CellSpan,
) -> bool {
    &&& if edit_buffer::is_editing(old.mode) {
        new == old
    } else {
        &&& new == (Spreadsheet {
            view: ViewState {
                selected: (region.min_row, region.min_col),
                selection_end: if region.min_row == region.max_row && region.min_col
                    == region.max_col {
                    None
                } else {
                    Some((region.max_row, region.max_col))
                },
                ..old.view
            },
            status_message: new.status_message,
            ..old
        })
        &&& text::opt_text(new.status_message) == Some(
            "Selected region: "@ + text::dec(
                (region.max_row - region.min_row + 1) as nat,
            ) + "×"@ + text::dec((region.max_col - region.min_col + 1) as nat),
        )
    }
}

/// The borders were drawn.
pub open spec fn borders_reported(
    old: Spreadsheet,
    new: Spreadsheet,
    has_flag: bool,
    overlays: u64,
    calls: u64,
    warn: bool,
) -> bool {
    &&& new == (Spreadsheet {
        grid: GridState {
            border_stale_streak: if has_flag && overlays == 0 && calls > 0 {
                (old.grid.border_stale_streak + 1) as u32
            } else {
                0
            },
            ..old.grid
        },
        ..old
    })
    &&& warn == (new.grid.border_stale_streak >= STALE_REPORTS)
}

/// The formula bar was brought up to date.
pub open spec fn bar_refreshed(
    old: Spreadsheet,
    new: Spreadsheet,
    formula: Seq<char>,
    refs: Seq<CellSpan>,
) -> bool {
    &&& if formula_stale(old, formula) {
        &&& new == (Spreadsheet {
            grid: GridState {
                formula_cache: new.grid.formula_cache,
                ..old.grid
            },
            ..old
        })
        &&& new.grid.formula_cache.cell == Some(old.view.selected)
        &&& new.grid.formula_cache.formula@ == formula
        &&& new.grid.formula_cache.refs@ == if edit_buffer::is_formula_text(
            formula,
        ) {
            refs
        } else {
            Seq::empty()
        }
    } else {
        new == old
    }
}

// ---------------------------------------------------------------------------
// Laws
// ---------------------------------------------------------------------------

/// Between two steps, zooming in and out again leads back.
pub proof fn zooming_in_and_out(z: u32, up: u32, down: Option<u32>)
    requires
        is_zoom_step(z),
        step_above(z, Some(up)),
        step_below(up, down),
    ensures
        down == Some(z),
{
    assert(z + 1 < up);
    match down {
        Some(d) => {
            if d > z {
                assert(is_zoom_step(d));
                assert(d > z + 1);
                assert(up <= d);
            }
        },
        None => {
            assert(up <= z + 1);
        },
    }
}

/// The zoom stays between a half and twice the usual size, and goes by quarters. A zoom within the bounds is taken as it is, and
/// it is told in per cent.
pub proof fn the_zoom_stays_within_bounds(old: Spreadsheet, new: Spreadsheet, z: u32)
    requires
        zoomed(old, new, z),
    ensures
        500 <= bounded_zoom(z) <= 2000,
        500 <= z <= 2000 ==> new.view.zoom == z,
        z < 500 ==> new.view.zoom == 500,
        z > 2000 ==> new.view.zoom == 2000,
        new.dropdown is None && new.view.selected == old.view.selected,
        is_zoom_step(z) <==> z == 500 || z == 750 || z == 1000 || z == 1250 || z == 1500 || z == 1750
            || z == 2000,
        DEFAULT_ZOOM == 1000 && zoom_percent(1000) == 100 && zoom_percent(500) == 50,
        z <= 20000 ==> 10 * zoom_percent(z) <= z + 5 && z < 10 * zoom_percent(z) + 5,
{
}

/// Zooming in makes everything larger, and zooming out smaller, as long as the bounds allow.
pub proof fn zooming_goes_by_steps(old: Spreadsheet, new: Spreadsheet)
    requires
        500 <= old.view.zoom <= 2000,
    ensures
        zoomed_in(old, new) ==> new.view.zoom >= old.view.zoom && new.view.zoom <= 2000 && (
        old.view.zoom < 1999 ==> new.view.zoom > old.view.zoom && is_zoom_step(new.view.zoom)),
        zoomed_out(old, new) ==> new.view.zoom <= old.view.zoom && new.view.zoom >= 500 && (
        old.view.zoom > 501 ==> new.view.zoom < old.view.zoom && is_zoom_step(new.view.zoom)),
{
    assert(is_zoom_step(500));
    assert(is_zoom_step(2000));
}

/// A change of format is remembered to be repeated, unless it is itself a repetition, and modifies the document.
pub proof fn a_format_is_remembered(s: Spreadsheet, a: RepeatAction)
    ensures
        format_changed(s, a).file.is_modified,
        !s.grid.suppress_repeat ==> format_changed(s, a).grid.repeat == Some(a) && with_repeat(
            s,
            a,
        ).grid.repeat == Some(a),
        s.grid.suppress_repeat ==> format_changed(s, a).grid == s.grid && with_repeat(s, a) == s,
        with_repeat(s, a).file == s.file && format_changed(s, a).view == s.view,
{
}

proof fn lemma_rows_cells(s: CellSpan, n: nat, p: (usize, usize))
    requires
        s.min_row + n <= usize::MAX + 1,
    ensures
        rows_cells(s, n).contains(p) <==> s.min_row <= p.0 < s.min_row + n && s.min_col <= p.1
            <= s.max_col,
    decreases n,
{
    if n > 0 {
        let m = (n - 1) as nat;
        let rest = rows_cells(s, m);
        let row = (s.min_row + n - 1) as usize;
        let line = row_cells(row, s.min_col, crate::fitting::span_len(s.min_col, s.max_col));
        let all = rows_cells(s, n);
        lemma_rows_cells(s, m, p);
        if rest.contains(p) {
            let k = choose|k: int| 0 <= k < rest.len() && rest[k] == p;
            assert(all[k] == p);
        }
        if p.0 == row && s.min_col <= p.1 <= s.max_col {
            assert(line[p.1 - s.min_col] == p);
            assert(all[rest.len() + (p.1 - s.min_col)] == p);
        }
        if all.contains(p) {
            let k = choose|k: int| 0 <= k < all.len() && all[k] == p;
            if k < rest.len() {
                assert(rest[k] == p);
            } else {
                assert(line[k - rest.len()] == p);
            }
        }
    }
}

/// The cells of some ranges are just those that lie in one of them.
pub proof fn cells_are_those_of_the_ranges(spans: Seq<CellSpan>, p: (usize, usize))
    ensures
        cells_of(spans).contains(p) <==> exists|i: int|
            0 <= i < spans.len() && (#[trigger] spans[i]).min_row <= p.0 <= spans[i].max_row
                && spans[i].min_col <= p.1 <= spans[i].max_col,
    decreases spans.len(),
{
    let all = cells_of(spans);
    if spans.len() > 0 {
        let t = spans.drop_last();
        let s = spans.last();
        let rest = cells_of(t);
        let more = rows_cells(s, crate::fitting::span_len(s.min_row, s.max_row));
        cells_are_those_of_the_ranges(t, p);
        lemma_rows_cells(s, crate::fitting::span_len(s.min_row, s.max_row), p);
        assert(forall|i: int| 0 <= i < t.len() ==> t[i] == #[trigger] spans[i]);
        assert(spans[spans.len() - 1] == s);
        if rest.contains(p) {
            let k = choose|k: int| 0 <= k < rest.len() && rest[k] == p;
            assert(all[k] == p);
        }
        if more.contains(p) {
            let k = choose|k: int| 0 <= k < more.len() && more[k] == p;
            assert(all[rest.len() + k] == p);
        }
        if all.contains(p) {
            let k = choose|k: int| 0 <= k < all.len() && all[k] == p;
            if k < rest.len() {
                assert(rest[k] == p);
            } else {
                assert(more[k - rest.len()] == p);
            }
        }
    }
}

/// A text goes into the active cell as it is and modifies the document; while an earlier state is shown nothing does.
pub proof fn a_text_goes_into_the_active_cell(
    old: Spreadsheet,
    new: Spreadsheet,
    value: Seq<char>,
    m: Seq<char>,
    w: Option<CellWrite>,
)
    requires
        text_typed(old, new, value, m, w),
    ensures
        w is None <==> old.grid.previewing,
        w is None ==> new == old,
        w matches Some(x) ==> (x.row, x.col) == old.view.selected && x.value@ == value
            && new.file.is_modified && text::opt_text(new.status_message) == Some(m),
        new.view == old.view && new.mode == old.mode,
{
}

/// A region is selected from its first to its last cell, but not while a cell is edited.
pub proof fn a_region_is_selected_whole(old: Spreadsheet, new: Spreadsheet, region: CellSpan)
    requires
        region_selected(old, new, region),
        region.min_row <= region.max_row,
        region.min_col <= region.max_col,
    ensures
        edit_buffer::is_editing(old.mode) ==> new == old,
        !edit_buffer::is_editing(old.mode) ==> crate::validation_dialog::selected_span(new.view)
            == region && new.view.selected == (region.min_row, region.min_col),
        new.view.zoom == old.view.zoom && new.mode == old.mode,
{
}

/// Borders that were not drawn are warned of the third time in a row, and one time in between begins the count anew.
pub proof fn missing_borders_are_warned_of(
    a: Spreadsheet,
    b: Spreadsheet,
    c: Spreadsheet,
    d: Spreadsheet,
    w1: bool,
    w2: bool,
    w3: bool,
)
    requires
        a.grid.border_stale_streak == 0,
        borders_reported(a, b, true, 0, 1, w1),
        borders_reported(b, c, true, 0, 1, w2),
        borders_reported(c, d, true, 0, 1, w3),
    ensures
        !w1 && !w2 && w3,
        forall|e: Spreadsheet, w: bool|
            #![trigger borders_reported(d, e, false, 0, 1, w)]
            borders_reported(d, e, false, 0, 1, w) ==> !w && e.grid.border_stale_streak == 0,
{
}

/// The formula bar is made anew for another cell or another formula and not otherwise, and what it refers to is looked up for
/// formulas alone.
pub proof fn the_formula_bar_is_up_to_date(
    a: Spreadsheet,
    b: Spreadsheet,
    formula: Seq<char>,
    refs: Seq<CellSpan>,
)
    requires
        bar_refreshed(a, b, formula, refs),
    ensures
        !formula_stale(b, formula),
        edit_buffer::is_editing(a.mode) ==> b == a,
        formula_stale(a, formula) ==> b.grid.formula_cache.cell == Some(a.view.selected)
            && b.grid.formula_cache.formula@ == formula && (formula.len() > 0 && formula[0] == '='
            ==> b.grid.formula_cache.refs@ == refs) && (formula.len() == 0
            ==> b.grid.formula_cache.refs@.len() == 0),
        !formula_stale(a, formula) ==> b == a,
        b.view == a.view,
{
}

/// A date is written with its month, its day and its year in this order, and a time with its hour, its minute and its half of the
/// day, so that different ones are written differently.
pub proof fn dates_and_times_are_told_apart(month: nat, day: nat, year: int, hour: nat, minute: nat)
    requires
        0 <= year < 10000,
    ensures
        text::has_prefix(date_text(month, day, year), text::dec(month) + "/"@ + text::dec(day)),
        text::has_suffix(date_text(month, day, year), year_text(year)),
        text::digits_value(year_text(year)) == year,
        text::has_prefix(time_text(hour, minute, true), text::dec(hour) + ":"@),
        text::has_suffix(time_text(hour, minute, true), " PM"@),
        text::has_suffix(time_text(hour, minute, false), " AM"@),
        text::contains_text(time_text(hour, minute, true), text::dec_padded(minute, 2)),
{
    text::padding_keeps_the_number(year as nat, 4);
    let none = Seq::<char>::empty();
    let a = text::dec(month) + "/"@;
    text::a_text_holds_its_parts(a, text::dec(day), "/"@, year_text(year));
    text::what_it_means_to_hold_a_text(a + text::dec(day) + "/"@, year_text(year), none);
    let m = text::dec_padded(minute, 2);
    text::a_text_holds_its_parts(text::dec(hour), ":"@, m, " PM"@);
    text::what_it_means_to_hold_a_text(text::dec(hour) + ":"@ + m, " PM"@, none);
    text::what_it_means_to_hold_a_text(text::dec(hour) + ":"@ + m, " AM"@, none);
}

} // verus!
