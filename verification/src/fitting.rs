//! Fitting columns and rows to their content.

use vstd::prelude::*;

use crate::collections;
use crate::grid;
use crate::grid::RepeatAction;
use crate::pixels;
use crate::sizes;
use crate::sizes::{DimsModel, SizeChange, SizeState, MAX_AUTOFIT_WIDTH, MIN_AUTOFIT_WIDTH};
use crate::state::{FileState, Spreadsheet};
use crate::text;

verus! {

/// A range of cells, its corners included.
#[derive(Debug, Clone, Copy, PartialEq, Eq, Structural)]
pub struct CellSpan {
    pub min_row: usize,
    pub min_col: usize,
    pub max_row: usize,
    pub max_col: usize,
}

/// What a fit leaves to be undone.
#[derive(Debug, PartialEq, Eq)]
pub enum FitRecord {
    Nothing,
    One(SizeChange),
    Group { changes: Vec<SizeChange>, description: String },
}

// ---------------------------------------------------------------------------
// The lines of a selection
// ---------------------------------------------------------------------------

/// A list with a line at its end, unless the line is in it.
pub open spec fn put_line(v: Seq<usize>, x: usize) -> Seq<usize> {
    if v.contains(x) {
        v
    } else {
        v.push(x)
    }
}

/// A list with the `n` lines from `lo` on put in one after the other.
pub open spec fn put_lines(v: Seq<usize>, lo: usize, n: nat) -> Seq<usize>
    decreases n,
{
    if n == 0 {
        v
    } else {
        put_line(put_lines(v, lo, (n - 1) as nat), (lo + n - 1) as usize)
    }
}

/// The number of lines from `lo` to `hi`.
pub open spec fn span_len(lo: usize, hi: usize) -> nat {
    if lo <= hi {
        (hi - lo + 1) as nat
    } else {
        0
    }
}

/// The columns (or rows) of some ranges, each once, in the order in which they
/// are met.
pub open spec fn lines_of(spans: Seq<CellSpan>, cols: bool) -> Seq<usize>
    decreases spans.len(),
{
    if spans.len() == 0 {
        Seq::empty()
    } else {
        let s = spans.last();
        let front = lines_of(spans.drop_last(), cols);
        if cols {
            put_lines(front, s.min_col, span_len(s.min_col, s.max_col))
        } else {
            put_lines(front, s.min_row, span_len(s.min_row, s.max_row))
        }
    }
}

fn has_line(v: &Vec<usize>, x: usize) -> (r: bool)
    ensures
        r == v@.contains(x),
{
    let mut i: usize = 0;
    while i < v.len()
        invariant
            i <= v@.len(),
            forall|k: int| 0 <= k < i ==> v@[k] != x,
        decreases v@.len() - i,
    {
        if v[i] == x {
            assert(v@[i as int] == x);
            return true;
        }
        i = i + 1;
    }
    false
}

fn add_lines(v: &mut Vec<usize>, lo: usize, hi: usize)
    ensures
        final(v)@ == put_lines(old(v)@, lo, span_len(lo, hi)),
{
    if lo > hi {
        return;
    }
    let n: usize = hi - lo;
    let mut i: usize = 0;
    let ghost start = v@;
    if !has_line(v, lo) {
        v.push(lo);
    }
    assert(put_lines(start, lo, 0) == start);
    assert(v@ == put_lines(start, lo, 1));
    while i < n
        invariant
            i <= n,
            n == hi - lo,
            lo <= hi,
            v@ == put_lines(start, lo, (i + 1) as nat),
        decreases n - i,
    {
        i = i + 1;
        let x: usize = lo + i;
        if !has_line(v, x) {
            v.push(x);
        }
    }
}

/// The columns (or rows) of some ranges.
pub fn selected_lines(spans: &Vec<CellSpan>, cols: bool) -> (v: Vec<usize>)
    ensures
        v@ == lines_of(spans@, cols),
{
    let mut v: Vec<usize> = Vec::new();
    let mut i: usize = 0;
    assert(spans@.take(0) =~= Seq::empty());
    while i < spans.len()
        invariant
            i <= spans@.len(),
            v@ == lines_of(spans@.take(i as int), cols),
        decreases spans@.len() - i,
    {
        let s = spans[i];
        assert(spans@.take(i + 1).drop_last() =~= spans@.take(i as int));
        assert(spans@.take(i + 1).last() == s);
        if cols {
            add_lines(&mut v, s.min_col, s.max_col);
        } else {
            add_lines(&mut v, s.min_row, s.max_row);
        }
        i = i + 1;
    }
    assert(spans@.take(spans@.len() as int) =~= spans@);
    v
}

// ---------------------------------------------------------------------------
// How wide a column has to be
// ---------------------------------------------------------------------------

/// How wide a column has to be to show the cells of it in `needed`, each of
/// which is a column and the width that a cell there needs.
pub open spec fn widest(needed: Seq<(usize, u32)>, col: usize) -> u32
    decreases needed.len(),
{
    if needed.len() == 0 {
        MIN_AUTOFIT_WIDTH
    } else {
        let w = widest(needed.drop_last(), col);
        if needed.last().0 == col {
            pixels::larger(w, needed.last().1)
        } else {
            w
        }
    }
}

/// The width that a column is given.
pub open spec fn fitted(needed: Seq<(usize, u32)>, col: usize) -> u32 {
    pixels::bounded(widest(needed, col), MIN_AUTOFIT_WIDTH, MAX_AUTOFIT_WIDTH)
}

fn fitted_width(needed: &Vec<(usize, u32)>, col: usize) -> (w: u32)
    ensures
        w == fitted(needed@, col),
{
    let mut w: u32 = MIN_AUTOFIT_WIDTH;
    let mut i: usize = 0;
    assert(needed@.take(0) =~= Seq::empty());
    while i < needed.len()
        invariant
            i <= needed@.len(),
            w == widest(needed@.take(i as int), col),
        decreases needed@.len() - i,
    {
        assert(needed@.take(i + 1).drop_last() =~= needed@.take(i as int));
        assert(needed@.take(i + 1).last() == needed@[i as int]);
        let p = needed[i];
        if p.0 == col {
            w = pixels::max_of(w, p.1);
        }
        i = i + 1;
    }
    assert(needed@.take(needed@.len() as int) =~= needed@);
    pixels::bound(w, MIN_AUTOFIT_WIDTH, MAX_AUTOFIT_WIDTH)
}

/// The widths that some columns are given.
pub fn measure_columns(cols: &Vec<usize>, needed: &Vec<(usize, u32)>) -> (r: Vec<(usize, u32)>)
    ensures
        r@.len() == cols@.len(),
        forall|i: int|
            0 <= i < cols@.len() ==> #[trigger] r@[i] == (cols@[i], fitted(needed@, cols@[i])),
{
    let mut r: Vec<(usize, u32)> = Vec::new();
    let mut i: usize = 0;
    while i < cols.len()
        invariant
            i <= cols@.len(),
            r@.len() == i,
            forall|k: int|
                0 <= k < i ==> #[trigger] r@[k] == (cols@[k], fitted(needed@, cols@[k])),
        decreases cols@.len() - i,
    {
        r.push((cols[i], fitted_width(needed, cols[i])));
        i = i + 1;
    }
    r
}

/// `new` has the fitted widths of the columns in `cols`, and the old widths of
/// the others.
pub open spec fn widths_fitted(
    old: Map<usize, u32>,
    new: Map<usize, u32>,
    cols: Seq<usize>,
    needed: Seq<(usize, u32)>,
) -> bool {
    forall|c: usize| #[trigger]
        sizes::lookup(new, c) == if cols.contains(c) {
            sizes::kept_width(fitted(needed, c))
        } else {
            sizes::lookup(old, c)
        }
}

/// Only the widths of the sheet that is shown are others.
pub open spec fn widths_only(old: SizeState, new: SizeState) -> bool {
    sizes::dims_set(
        old,
        new,
        old.sheet_id,
        DimsModel { col_widths: new.shown().col_widths, ..old.shown() },
    )
}

/// What has to be undone to have the old widths of some columns back.
pub open spec fn width_changes(
    id: u64,
    cols: Seq<usize>,
    old: Map<usize, u32>,
    new: Map<usize, u32>,
) -> Seq<SizeChange>
    decreases cols.len(),
{
    if cols.len() == 0 {
        Seq::empty()
    } else {
        let front = width_changes(id, cols.drop_last(), old, new);
        let c = cols.last();
        if pixels::same_option(sizes::lookup(old, c), sizes::lookup(new, c)) {
            front
        } else {
            front.push(
                SizeChange {
                    sheet_id: id,
                    line: c,
                    old: sizes::lookup(old, c),
                    new: sizes::lookup(new, c),
                },
            )
        }
    }
}

/// The record of some changes.
pub open spec fn records(r: FitRecord, changes: Seq<SizeChange>) -> bool {
    match r {
        FitRecord::Nothing => changes.len() == 0,
        FitRecord::One(c) => changes == seq![c],
        FitRecord::Group { changes: v, description } => changes.len() > 1 && v@ == changes
            && description@ == "Auto-fit column widths"@,
    }
}

/// What is said of a fit.
pub open spec fn fit_text(count: nat) -> Seq<char> {
    if count == 0 {
        "Columns already fit their content"@
    } else if count == 1 {
        "Fit 1 column to its content"@
    } else {
        "Fit "@ + text::dec(count) + " columns to their content"@
    }
}

/// What fitting some columns does.
pub open spec fn columns_fitted(
    old: Spreadsheet,
    new: Spreadsheet,
    cols: Seq<usize>,
    needed: Seq<(usize, u32)>,
    r: FitRecord,
) -> bool {
    if cols.len() == 0 {
        new == old && r == FitRecord::Nothing
    } else {
        let changes = width_changes(
            old.sizes.sheet_id,
            cols,
            old.sizes.shown().col_widths,
            new.sizes.shown().col_widths,
        );
        &&& new == (Spreadsheet {
            sizes: new.sizes,
            status_message: new.status_message,
            file: FileState {
                is_modified: old.file.is_modified || changes.len() > 0,
                ..old.file
            },
            ..old
        })
        &&& widths_only(old.sizes, new.sizes)
        &&& widths_fitted(
            old.sizes.shown().col_widths,
            new.sizes.shown().col_widths,
            cols,
            needed,
        )
        &&& records(r, changes)
        &&& text::opt_text(new.status_message) == Some(fit_text(changes.len()))
    }
}

impl Spreadsheet {
    /// Give some columns of the sheet that is shown their fitted widths.
    fn set_fitted(&mut self, cols: &Vec<usize>, needed: &Vec<(usize, u32)>)
        ensures
            *final(self) == (Spreadsheet { sizes: final(self).sizes, ..*old(self) }),
            widths_only(old(self).sizes, final(self).sizes),
            widths_fitted(
                old(self).sizes.shown().col_widths,
                final(self).sizes.shown().col_widths,
                cols@,
                needed@,
            ),
    {
        let measured = measure_columns(cols, needed);
        let mut i: usize = 0;
        let ghost before = *self;
        let ghost old_map = before.sizes.shown().col_widths;
        assert(before.sizes.shown() =~= (DimsModel { col_widths: old_map, ..before.sizes.shown() }));
        while i < measured.len()
            invariant
                i <= measured@.len(),
                measured@.len() == cols@.len(),
                old_map == before.sizes.shown().col_widths,
                forall|k: int|
                    0 <= k < cols@.len() ==> #[trigger] measured@[k] == (
                        cols@[k],
                        fitted(needed@, cols@[k]),
                    ),
                *self == (Spreadsheet { sizes: self.sizes, ..before }),
                widths_only(before.sizes, self.sizes),
                widths_fitted(
                    old_map,
                    self.sizes.shown().col_widths,
                    cols@.take(i as int),
                    needed@,
                ),
            decreases measured@.len() - i,
        {
            let p = measured[i];
            let ghost mid = self.sizes;
            let ghost mid_map = self.sizes.shown().col_widths;
            self.set_col_width(p.0, p.1);
            let ghost new_map = self.sizes.shown().col_widths;
            proof {
                assert(new_map == sizes::with_entry(mid_map, p.0, sizes::kept_width(p.1)));
                assert(p == measured@[i as int]);
                let a = cols@.take(i as int);
                let b = cols@.take(i + 1);
                assert(b =~= a.push(cols@[i as int]));
                assert forall|c: usize| #[trigger] sizes::lookup(new_map, c) == (if b.contains(c) {
                    sizes::kept_width(fitted(needed@, c))
                } else {
                    sizes::lookup(old_map, c)
                }) by {
                    assert(sizes::lookup(mid_map, c) == if a.contains(c) {
                        sizes::kept_width(fitted(needed@, c))
                    } else {
                        sizes::lookup(old_map, c)
                    });
                    if c == p.0 {
                        assert(b[i as int] == c);
                    } else if a.contains(c) {
                        let k = choose|k: int| 0 <= k < a.len() && a[k] == c;
                        assert(b[k] == c);
                    } else {
                        assert(!b.contains(c)) by {
                            if b.contains(c) {
                                let k = choose|k: int| 0 <= k < b.len() && b[k] == c;
                                assert(k < i);
                                assert(a[k] == c);
                            }
                        }
                    }
                }
                assert forall|other: u64| other != before.sizes.sheet_id implies
                    #[trigger] self.sizes.at(other) == before.sizes.at(other) by {
                    assert(mid.at(other) == before.sizes.at(other));
                }
                assert(self.sizes.shown() =~= (DimsModel {
                    col_widths: new_map,
                    ..before.sizes.shown()
                }));
            }
            i = i + 1;
        }
        assert(cols@.take(cols@.len() as int) =~= cols@);
    }

    /// Fit some columns of the sheet that is shown to their content.
    pub fn fit_columns(&mut self, cols: &Vec<usize>, needed: &Vec<(usize, u32)>) -> (r: FitRecord)
        ensures
            columns_fitted(*old(self), *final(self), cols@, needed@, r),
    {
        if cols.len() == 0 {
            return FitRecord::Nothing;
        }
        let id = self.sizes.sheet_id;
        let mut before: Vec<Option<u32>> = Vec::new();
        let mut i: usize = 0;
        while i < cols.len()
            invariant
                i <= cols@.len(),
                before@.len() == i,
                id == self.sizes.sheet_id,
                forall|k: int|
                    0 <= k < i ==> #[trigger] before@[k] == sizes::lookup(
                        self.sizes.shown().col_widths,
                        cols@[k],
                    ),
            decreases cols@.len() - i,
        {
            before.push(self.sizes.width(id, cols[i]));
            i = i + 1;
        }
        let ghost old_map = self.sizes.shown().col_widths;
        self.set_fitted(cols, needed);
        let ghost new_map = self.sizes.shown().col_widths;
        let mut changes: Vec<SizeChange> = Vec::new();
        i = 0;
        assert(cols@.take(0) =~= Seq::empty());
        while i < cols.len()
            invariant
                i <= cols@.len(),
                before@.len() == cols@.len(),
                id == self.sizes.sheet_id,
                new_map == self.sizes.shown().col_widths,
                forall|k: int|
                    0 <= k < cols@.len() ==> #[trigger] before@[k] == sizes::lookup(
                        old_map,
                        cols@[k],
                    ),
                changes@ == width_changes(id, cols@.take(i as int), old_map, new_map),
            decreases cols@.len() - i,
        {
            assert(cols@.take(i + 1).drop_last() =~= cols@.take(i as int));
            assert(cols@.take(i + 1).last() == cols@[i as int]);
            assert(before@[i as int] == sizes::lookup(old_map, cols@[i as int]));
            let now = self.sizes.width(id, cols[i]);
            if !pixels::is_same_option(before[i], now) {
                changes.push(
                    SizeChange { sheet_id: id, line: cols[i], old: before[i], new: now },
                );
            }
            i = i + 1;
        }
        assert(cols@.take(cols@.len() as int) =~= cols@);
        let count: usize = changes.len();
        if count == 0 {
            self.say("Columns already fit their content");
            return FitRecord::Nothing;
        }
        self.file.is_modified = true;
        if count == 1 {
            self.say("Fit 1 column to its content");
            let c = changes[0];
            assert(changes@ =~= seq![c]);
            FitRecord::One(c)
        } else {
            let n = text::decimal(count as u64);
            let m = text::cat3("Fit ", n.as_str(), " columns to their content");
            self.say(m.as_str());
            FitRecord::Group { changes, description: text::lit("Auto-fit column widths") }
        }
    }

    /// Fit the columns of the selection: those that hold something where there
    /// are several of them. `populated` are the columns that hold something,
    /// and `active_col` is fitted where nothing is selected.
    pub fn fit_selection_columns(
        &mut self,
        spans: &Vec<CellSpan>,
        active_col: usize,
        populated: &Vec<usize>,
        needed: &Vec<(usize, u32)>,
    ) -> (r: FitRecord)
        ensures
            columns_fitted(
                grid::with_repeat(*old(self), RepeatAction::FitColumnWidth),
                *final(self),
                selection_columns(spans@, active_col, populated@),
                needed@,
                r,
            ),
    {
        self.set_repeat(RepeatAction::FitColumnWidth);
        let mut cols = selected_lines(spans, true);
        if cols.len() == 0 {
            cols.push(active_col);
            assert(cols@ =~= seq![active_col]);
        }
        if cols.len() > 1 {
            let mut kept: Vec<usize> = Vec::new();
            let mut i: usize = 0;
            assert(cols@.take(0) =~= Seq::empty());
            while i < cols.len()
                invariant
                    i <= cols@.len(),
                    kept@ == held(cols@.take(i as int), populated@),
                decreases cols@.len() - i,
            {
                assert(cols@.take(i + 1).drop_last() =~= cols@.take(i as int));
                assert(cols@.take(i + 1).last() == cols@[i as int]);
                if has_line(populated, cols[i]) {
                    kept.push(cols[i]);
                }
                i = i + 1;
            }
            assert(cols@.take(cols@.len() as int) =~= cols@);
            return self.fit_columns(&kept, needed);
        }
        self.fit_columns(&cols, needed)
    }

    /// Fit one column.
    pub fn auto_fit_col_width(&mut self, col: usize, needed: &Vec<(usize, u32)>) -> (r: FitRecord)
        ensures
            columns_fitted(*old(self), *final(self), seq![col], needed@, r),
    {
        let mut cols: Vec<usize> = Vec::new();
        cols.push(col);
        assert(cols@ =~= seq![col]);
        self.fit_columns(&cols, needed)
    }

    /// Fit the column whose header was clicked, and with it all that are
    /// selected if it is one of them.
    pub fn auto_fit_selected_col_widths(
        &mut self,
        clicked_col: usize,
        selected: bool,
        spans: &Vec<CellSpan>,
        needed: &Vec<(usize, u32)>,
    ) -> (r: FitRecord)
        ensures
            columns_fitted(
                *old(self),
                *final(self),
                if selected {
                    lines_of(spans@, true)
                } else {
                    seq![clicked_col]
                },
                needed@,
                r,
            ),
    {
        if selected {
            let cols = selected_lines(spans, true);
            self.fit_columns(&cols, needed)
        } else {
            self.auto_fit_col_width(clicked_col, needed)
        }
    }

    /// Fit all columns that hold something, with nothing to be undone.
    pub fn auto_fit_all_data_columns(&mut self, populated: &Vec<usize>, needed: &Vec<(usize, u32)>)
        ensures
            *final(self) == (Spreadsheet { sizes: final(self).sizes, ..*old(self) }),
            widths_only(old(self).sizes, final(self).sizes),
            widths_fitted(
                old(self).sizes.shown().col_widths,
                final(self).sizes.shown().col_widths,
                populated@,
                needed@,
            ),
    {
        self.set_fitted(populated, needed);
    }

    /// Give a row the usual height.
    pub fn auto_fit_row_height(&mut self, row: usize)
        ensures
            sizes::resized(
                *old(self),
                *final(self),
                old(self).sizes.sheet_id,
                (DimsModel {
                    row_heights: old(self).sizes.shown().row_heights.remove(row),
                    ..old(self).sizes.shown()
                }),
            ),
    {
        collections::map_remove(self.sheet_row_heights_mut(), row);
    }

    /// Give the row whose header was clicked the usual height, and with it all
    /// that are selected if it is one of them.
    pub fn auto_fit_selected_row_heights(
        &mut self,
        clicked_row: usize,
        selected: bool,
        spans: &Vec<CellSpan>,
    )
        ensures
            sizes::resized(
                *old(self),
                *final(self),
                old(self).sizes.sheet_id,
                (DimsModel {
                    row_heights: if selected {
                        old(self).sizes.shown().row_heights.remove_keys(
                            lines_of(spans@, false).to_set(),
                        )
                    } else {
                        old(self).sizes.shown().row_heights.remove(clicked_row)
                    },
                    ..old(self).sizes.shown()
                }),
            ),
    {
        if !selected {
            self.auto_fit_row_height(clicked_row);
            return;
        }
        let rows = selected_lines(spans, false);
        let mut i: usize = 0;
        let ghost before = *self;
        let ghost heights = before.sizes.shown().row_heights;
        proof {
            assert(rows@.take(0).to_set() =~= Set::empty());
            assert(heights.remove_keys(rows@.take(0).to_set()) =~= heights);
            assert(before.sizes.shown() =~= (DimsModel {
                row_heights: heights,
                ..before.sizes.shown()
            }));
        }
        while i < rows.len()
            invariant
                i <= rows@.len(),
                heights == before.sizes.shown().row_heights,
                sizes::resized(
                    before,
                    *self,
                    before.sizes.sheet_id,
                    DimsModel {
                        row_heights: heights.remove_keys(rows@.take(i as int).to_set()),
                        ..before.sizes.shown()
                    },
                ),
            decreases rows@.len() - i,
        {
            let ghost mid = self.sizes;
            self.auto_fit_row_height(rows[i]);
            proof {
                let a = rows@.take(i as int);
                let b = rows@.take(i + 1);
                assert(b =~= a.push(rows@[i as int]));
                assert(b.to_set() =~= a.to_set().insert(rows@[i as int])) by {
                    assert forall|x: usize| b.contains(x) <==> a.contains(x) || x
                        == rows@[i as int] by {
                        if a.contains(x) {
                            let k = choose|k: int| 0 <= k < a.len() && a[k] == x;
                            assert(b[k] == x);
                        }
                        if x == rows@[i as int] {
                            assert(b[i as int] == x);
                        }
                    }
                }
                assert(heights.remove_keys(a.to_set()).remove(rows@[i as int])
                    =~= heights.remove_keys(b.to_set()));
                assert forall|other: u64| other != before.sizes.sheet_id implies
                    #[trigger] self.sizes.at(other) == before.sizes.at(other) by {
                    assert(mid.at(other) == before.sizes.at(other));
                }
            }
            i = i + 1;
        }
        assert(rows@.take(rows@.len() as int) =~= rows@);
    }
}

/// Those of some columns that hold something.
pub open spec fn held(cols: Seq<usize>, populated: Seq<usize>) -> Seq<usize>
    decreases cols.len(),
{
    if cols.len() == 0 {
        Seq::empty()
    } else if populated.contains(cols.last()) {
        held(cols.drop_last(), populated).push(cols.last())
    } else {
        held(cols.drop_last(), populated)
    }
}

/// The columns that a fit of the selection is for.
pub open spec fn selection_columns(spans: Seq<CellSpan>, active_col: usize, populated: Seq<usize>) -> Seq<
    usize,
> {
    let cols = lines_of(spans, true);
    if cols.len() == 0 {
        seq![active_col]
    } else if cols.len() > 1 {
        held(cols, populated)
    } else {
        cols
    }
}

// ---------------------------------------------------------------------------
// Estimates
// ---------------------------------------------------------------------------

/// A character that is twice as wide as others.
pub open spec fn is_wide(c: char) -> bool {
    let n = c as u32;
    ||| 0x1100 <= n <= 0x115F
    ||| 0x2E80 <= n <= 0xA4CF
    ||| 0xAC00 <= n <= 0xD7A3
    ||| 0xF900 <= n <= 0xFAFF
    ||| 0xFE30 <= n <= 0xFE6F
    ||| 0xFF00 <= n <= 0xFF60
    ||| 0xFFE0 <= n <= 0xFFE6
}

/// How wide a text is about, in narrow characters.
pub open spec fn width_units(s: Seq<char>) -> nat
    decreases s.len(),
{
    if s.len() == 0 {
        0
    } else {
        width_units(s.drop_last()) + if is_wide(s.last()) {
            2nat
        } else {
            1nat
        }
    }
}

fn wide(c: char) -> (r: bool)
    ensures
        r == is_wide(c),
{
    let n: u32 = c as u32;
    (0x1100 <= n && n <= 0x115F) || (0x2E80 <= n && n <= 0xA4CF) || (0xAC00 <= n && n <= 0xD7A3)
        || (0xF900 <= n && n <= 0xFAFF) || (0xFE30 <= n && n <= 0xFE6F) || (0xFF00 <= n && n
        <= 0xFF60) || (0xFFE0 <= n && n <= 0xFFE6)
}

/// How wide a text is about, in narrow characters: it goes by characters, and
/// not by bytes.
pub fn text_width_units(s: &str) -> (r: u128)
    ensures
        r == width_units(s@),
{
    let v = text::chars_of(s);
    let mut r: u128 = 0;
    let mut i: usize = 0;
    assert(v@.take(0) =~= Seq::empty());
    while i < v.len()
        invariant
            i <= v@.len(),
            r == width_units(v@.take(i as int)),
            r <= 2 * i,
        decreases v@.len() - i,
    {
        assert(v@.take(i + 1).drop_last() =~= v@.take(i as int));
        assert(v@.take(i + 1).last() == v@[i as int]);
        r = r + if wide(v[i]) {
            2
        } else {
            1
        };
        i = i + 1;
    }
    assert(v@.take(v@.len() as int) =~= v@);
    r
}

// ---------------------------------------------------------------------------
// Laws
// ---------------------------------------------------------------------------

proof fn lemma_widest_is_number(needed: Seq<(usize, u32)>, col: usize)
    ensures
        !pixels::is_nan(widest(needed, col)),
        pixels::rank(MIN_AUTOFIT_WIDTH) <= pixels::rank(widest(needed, col)),
    decreases needed.len(),
{
    if needed.len() > 0 {
        lemma_widest_is_number(needed.drop_last(), col);
    }
}

/// A fitted column is wide enough for each of its cells, unless one of them
/// needs more than the limit.
pub proof fn a_fitted_column_shows_its_cells(needed: Seq<(usize, u32)>, i: int)
    requires
        0 <= i < needed.len(),
        !pixels::is_nan(needed[i].1),
        pixels::rank(needed[i].1) <= pixels::rank(MAX_AUTOFIT_WIDTH),
    ensures
        pixels::rank(needed[i].1) <= pixels::rank(fitted(needed, needed[i].0)),
    decreases needed.len(),
{
    let col = needed[i].0;
    lemma_widest_is_number(needed, col);
    lemma_widest_is_number(needed.drop_last(), col);
    if i < needed.len() - 1 {
        assert(needed.drop_last()[i] == needed[i]);
        a_fitted_column_shows_its_cells(needed.drop_last(), i);
    }
}

proof fn lemma_put_lines(v: Seq<usize>, lo: usize, n: nat)
    requires
        lo + n <= usize::MAX + 1,
        v.no_duplicates(),
    ensures
        put_lines(v, lo, n).no_duplicates(),
        forall|x: usize| #[trigger]
            put_lines(v, lo, n).contains(x) <==> v.contains(x) || lo <= x < lo + n,
    decreases n,
{
    if n > 0 {
        let w = put_lines(v, lo, (n - 1) as nat);
        let y = (lo + n - 1) as usize;
        lemma_put_lines(v, lo, (n - 1) as nat);
        let r = put_line(w, y);
        assert forall|x: usize| #[trigger] r.contains(x) <==> v.contains(x) || lo <= x < lo + n by {
            if w.contains(x) {
                let k = choose|k: int| 0 <= k < w.len() && w[k] == x;
                assert(r[k] == x);
            }
            if x == y && !w.contains(y) {
                assert(r[w.len() as int] == y);
            }
        }
    }
}

/// A selection names each of its columns (or rows) once, and no others.
pub proof fn lines_are_those_of_the_spans(spans: Seq<CellSpan>, cols: bool)
    ensures
        lines_of(spans, cols).no_duplicates(),
        forall|x: usize| #[trigger]
            lines_of(spans, cols).contains(x) <==> exists|i: int|
                0 <= i < spans.len() && if cols {
                    (#[trigger] spans[i]).min_col <= x <= spans[i].max_col
                } else {
                    spans[i].min_row <= x <= spans[i].max_row
                },
    decreases spans.len(),
{
    if spans.len() > 0 {
        let front = spans.drop_last();
        let s = spans.last();
        lines_are_those_of_the_spans(front, cols);
        let v = lines_of(front, cols);
        if cols {
            lemma_put_lines(v, s.min_col, span_len(s.min_col, s.max_col));
        } else {
            lemma_put_lines(v, s.min_row, span_len(s.min_row, s.max_row));
        }
        assert forall|x: usize| #[trigger] lines_of(spans, cols).contains(x) <==> exists|i: int|
            0 <= i < spans.len() && if cols {
                (#[trigger] spans[i]).min_col <= x <= spans[i].max_col
            } else {
                spans[i].min_row <= x <= spans[i].max_row
            } by {
            if v.contains(x) {
                let i = choose|i: int|
                    0 <= i < front.len() && if cols {
                        (#[trigger] front[i]).min_col <= x <= front[i].max_col
                    } else {
                        front[i].min_row <= x <= front[i].max_row
                    };
                assert(spans[i] == front[i]);
            }
            if exists|i: int|
                0 <= i < spans.len() && if cols {
                    (#[trigger] spans[i]).min_col <= x <= spans[i].max_col
                } else {
                    spans[i].min_row <= x <= spans[i].max_row
                } {
                let i = choose|i: int|
                    0 <= i < spans.len() && if cols {
                        (#[trigger] spans[i]).min_col <= x <= spans[i].max_col
                    } else {
                        spans[i].min_row <= x <= spans[i].max_row
                    };
                if i < front.len() {
                    assert(front[i] == spans[i]);
                } else {
                    assert(spans[i] == s);
                }
            }
            assert(spans[spans.len() - 1] == s);
        }
    }
}

/// How many characters of a text are wide.
pub open spec fn wide_chars(s: Seq<char>) -> nat
    decreases s.len(),
{
    if s.len() == 0 {
        0
    } else {
        wide_chars(s.drop_last()) + if is_wide(s.last()) {
            1nat
        } else {
            0nat
        }
    }
}

/// The width of a text goes by its characters, of which wide ones count double,
/// and by nothing else: texts with as many characters and as many wide ones are
/// as wide, a text of narrow characters is as wide as it is long, and one of
/// wide characters twice as wide.
pub proof fn width_goes_by_characters(s: Seq<char>)
    ensures
        width_units(s) == s.len() + wide_chars(s),
        wide_chars(s) <= s.len(),
        (forall|i: int| 0 <= i < s.len() ==> !is_wide(#[trigger] s[i])) ==> width_units(s) == s.len(),
        (forall|i: int| 0 <= i < s.len() ==> is_wide(#[trigger] s[i])) ==> width_units(s) == 2
            * s.len(),
    decreases s.len(),
{
    if s.len() > 0 {
        let front = s.drop_last();
        width_goes_by_characters(front);
        assert(s.last() == s[s.len() - 1]);
        assert(forall|i: int| 0 <= i < front.len() ==> #[trigger] front[i] == s[i]);
    }
}

proof fn lemma_held(cols: Seq<usize>, populated: Seq<usize>)
    ensures
        forall|c: usize| #[trigger]
            held(cols, populated).contains(c) <==> cols.contains(c) && populated.contains(c),
    decreases cols.len(),
{
    if cols.len() > 0 {
        let front = cols.drop_last();
        let last = cols.last();
        lemma_held(front, populated);
        let rest = held(front, populated);
        let all = held(cols, populated);
        assert forall|c: usize| #[trigger] all.contains(c) <==> cols.contains(c)
            && populated.contains(c) by {
            assert(rest.contains(c) <==> front.contains(c) && populated.contains(c));
            if cols.contains(c) {
                let i = choose|i: int| 0 <= i < cols.len() && cols[i] == c;
                if i < front.len() {
                    assert(front[i] == c);
                    assert(front.contains(c));
                }
            }
            if front.contains(c) {
                let i = choose|i: int| 0 <= i < front.len() && front[i] == c;
                assert(cols[i] == c);
            }
            assert(cols[cols.len() - 1] == last);
            if rest.contains(c) {
                let j = choose|j: int| 0 <= j < rest.len() && rest[j] == c;
                assert(all[j] == c);
            }
            if populated.contains(last) {
                assert(all[rest.len() as int] == last);
            }
            if all.contains(c) {
                let j = choose|j: int| 0 <= j < all.len() && all[j] == c;
                if j < rest.len() {
                    assert(rest[j] == c);
                }
            }
        }
    }
}

/// A column lies in one of the selected ranges.
pub open spec fn is_selected(spans: Seq<CellSpan>, c: usize) -> bool {
    exists|i: int| 0 <= i < spans.len() && (#[trigger] spans[i]).min_col <= c <= spans[i].max_col
}

/// Where several columns are selected, a column is fitted exactly if it is
/// selected and holds something; a single one is fitted whatever it holds, and
/// without a selection the active one is.
pub proof fn empty_columns_are_not_fitted(
    spans: Seq<CellSpan>,
    active_col: usize,
    populated: Seq<usize>,
)
    ensures
        (exists|a: usize, b: usize|
            a != b && #[trigger] is_selected(spans, a) && #[trigger] is_selected(spans, b))
            ==> forall|c: usize| #[trigger]
            selection_columns(spans, active_col, populated).contains(c) <==> is_selected(spans, c)
                && populated.contains(c),
        forall|a: usize|
            #[trigger] is_selected(spans, a) && (forall|b: usize|
                #[trigger] is_selected(spans, b) ==> b == a) ==> selection_columns(
                spans,
                active_col,
                populated,
            ) == seq![a],
        (forall|a: usize| !#[trigger] is_selected(spans, a)) ==> selection_columns(
            spans,
            active_col,
            populated,
        ) == seq![active_col],
{
    let cols = lines_of(spans, true);
    lines_are_those_of_the_spans(spans, true);
    lemma_held(cols, populated);
    assert forall|c: usize| #[trigger] cols.contains(c) <==> is_selected(spans, c) by {
        if is_selected(spans, c) {
            let i = choose|i: int|
                0 <= i < spans.len() && (#[trigger] spans[i]).min_col <= c <= spans[i].max_col;
            assert(spans[i].min_col <= c <= spans[i].max_col);
        }
    }
    if exists|a: usize, b: usize|
        a != b && #[trigger] is_selected(spans, a) && #[trigger] is_selected(spans, b) {
        let (a, b) = choose|a: usize, b: usize|
            a != b && #[trigger] is_selected(spans, a) && #[trigger] is_selected(spans, b);
        assert(cols.contains(a) && cols.contains(b));
        let i = choose|i: int| 0 <= i < cols.len() && cols[i] == a;
        let j = choose|j: int| 0 <= j < cols.len() && cols[j] == b;
        assert(cols.len() > 1);
    }
    assert forall|a: usize|
        #[trigger] is_selected(spans, a) && (forall|b: usize|
            #[trigger] is_selected(spans, b) ==> b == a) implies selection_columns(
        spans,
        active_col,
        populated,
    ) == seq![a] by {
        assert(cols.contains(a));
        if cols.len() > 1 {
            assert(cols.contains(cols[0]) && cols.contains(cols[1]));
            assert(is_selected(spans, cols[0]) && is_selected(spans, cols[1]));
            assert(cols[0] == cols[1]);
        }
        assert(cols =~= seq![a]);
    }
    if forall|a: usize| !#[trigger] is_selected(spans, a) {
        if cols.len() > 0 {
            assert(cols.contains(cols[0]));
        }
    }
}

/// A fit of the selection changes the widths of the fitted columns alone: where
/// several columns are selected, one that holds nothing keeps its width, and so
/// does every one that is not selected. The rows keep their heights, and the other
/// sheets their sizes.
pub proof fn a_fit_leaves_other_columns_alone(
    old: Spreadsheet,
    new: Spreadsheet,
    spans: Seq<CellSpan>,
    active_col: usize,
    populated: Seq<usize>,
    needed: Seq<(usize, u32)>,
    r: FitRecord,
    c: usize,
)
    requires
        columns_fitted(old, new, selection_columns(spans, active_col, populated), needed, r),
        exists|a: usize, b: usize|
            a != b && #[trigger] is_selected(spans, a) && #[trigger] is_selected(spans, b),
        !(is_selected(spans, c) && populated.contains(c)),
    ensures
        new.sizes.shown().col_widths.contains_key(c) <==> old.sizes.shown().col_widths.contains_key(
            c,
        ),
        old.sizes.shown().col_widths.contains_key(c) ==> new.sizes.shown().col_widths[c]
            == old.sizes.shown().col_widths[c],
        new.sizes.shown().row_heights == old.sizes.shown().row_heights,
{
    empty_columns_are_not_fitted(spans, active_col, populated);
    let cols = selection_columns(spans, active_col, populated);
    assert(!cols.contains(c));
    let was = sizes::lookup(old.sizes.shown().col_widths, c);
    assert(sizes::lookup(new.sizes.shown().col_widths, c) == was);
}

/// A fitted column is no wider than the widest of its cells needs, but for the least
/// width that every fitted column has; and it is as narrow as that where it holds no
/// cell.
pub proof fn a_fitted_column_is_no_wider_than_needed(needed: Seq<(usize, u32)>, col: usize)
    ensures
        fitted(needed, col) == MIN_AUTOFIT_WIDTH || fitted(needed, col) == MAX_AUTOFIT_WIDTH
            || exists|i: int|
            0 <= i < needed.len() && (#[trigger] needed[i]).0 == col && needed[i].1 == fitted(
                needed,
                col,
            ),
        (forall|i: int| 0 <= i < needed.len() ==> (#[trigger] needed[i]).0 != col) ==> fitted(
            needed,
            col,
        ) == MIN_AUTOFIT_WIDTH,
        pixels::rank(MIN_AUTOFIT_WIDTH) <= pixels::rank(fitted(needed, col)) <= pixels::rank(
            MAX_AUTOFIT_WIDTH,
        ),
{
    lemma_widest_is_needed(needed, col);
    lemma_widest_is_number(needed, col);
    pixels::bounded_stays_between(widest(needed, col), MIN_AUTOFIT_WIDTH, MAX_AUTOFIT_WIDTH);
}

proof fn lemma_widest_is_needed(needed: Seq<(usize, u32)>, col: usize)
    ensures
        widest(needed, col) == MIN_AUTOFIT_WIDTH || exists|i: int|
            0 <= i < needed.len() && (#[trigger] needed[i]).0 == col && needed[i].1 == widest(
                needed,
                col,
            ),
        (forall|i: int| 0 <= i < needed.len() ==> (#[trigger] needed[i]).0 != col) ==> widest(
            needed,
            col,
        ) == MIN_AUTOFIT_WIDTH,
    decreases needed.len(),
{
    if needed.len() > 0 {
        let t = needed.drop_last();
        lemma_widest_is_needed(t, col);
        assert(forall|i: int| 0 <= i < t.len() ==> t[i] == #[trigger] needed[i]);
        assert(needed[needed.len() - 1] == needed.last());
        let w = widest(t, col);
        if widest(needed, col) == w && w != MIN_AUTOFIT_WIDTH {
            let i = choose|i: int| 0 <= i < t.len() && (#[trigger] t[i]).0 == col && t[i].1 == w;
            assert(needed[i].0 == col && needed[i].1 == w);
        }
    }
}

proof fn lemma_width_changes(
    id: u64,
    cols: Seq<usize>,
    old: Map<usize, u32>,
    new: Map<usize, u32>,
)
    ensures
        ({
            let v = width_changes(id, cols, old, new);
            &&& forall|k: int|
                0 <= k < v.len() ==> (#[trigger] v[k]).sheet_id == id && cols.contains(v[k].line)
                    && v[k].old == sizes::lookup(old, v[k].line) && v[k].new == sizes::lookup(
                    new,
                    v[k].line,
                ) && !pixels::same_option(v[k].old, v[k].new)
            &&& forall|c: usize|
                cols.contains(c) && !pixels::same_option(
                    sizes::lookup(old, c),
                    #[trigger] sizes::lookup(new, c),
                ) ==> exists|k: int| 0 <= k < v.len() && (#[trigger] v[k]).line == c
        }),
    decreases cols.len(),
{
    if cols.len() > 0 {
        let t = cols.drop_last();
        let c = cols.last();
        let rest = width_changes(id, t, old, new);
        let all = width_changes(id, cols, old, new);
        lemma_width_changes(id, t, old, new);
        assert(cols[cols.len() - 1] == c);
        assert forall|k: int| 0 <= k < all.len() implies (#[trigger] all[k]).sheet_id == id
            && cols.contains(all[k].line) && all[k].old == sizes::lookup(old, all[k].line)
            && all[k].new == sizes::lookup(new, all[k].line) && !pixels::same_option(
            all[k].old,
            all[k].new,
        ) by {
            if k < rest.len() {
                assert(all[k] == rest[k]);
                let j = choose|j: int| 0 <= j < t.len() && t[j] == rest[k].line;
                assert(cols[j] == all[k].line);
            }
        }
        assert forall|x: usize|
            cols.contains(x) && !pixels::same_option(
                sizes::lookup(old, x),
                #[trigger] sizes::lookup(new, x),
            ) implies exists|k: int| 0 <= k < all.len() && (#[trigger] all[k]).line == x by {
            let j = choose|j: int| 0 <= j < cols.len() && cols[j] == x;
            if j < t.len() {
                assert(t[j] == x);
                let k = choose|k: int| 0 <= k < rest.len() && (#[trigger] rest[k]).line == x;
                assert(all[k].line == x);
            } else {
                assert(all[rest.len() as int].line == x);
            }
        }
    }
}

/// What can be undone of a fit is each width that it changed, with what it was before
/// and what it is now, and nothing else. The document is modified exactly if there is
/// such a width.
pub proof fn a_fit_records_what_it_changed(
    old: Spreadsheet,
    new: Spreadsheet,
    cols: Seq<usize>,
    needed: Seq<(usize, u32)>,
    r: FitRecord,
)
    requires
        columns_fitted(old, new, cols, needed, r),
    ensures
        r == FitRecord::Nothing <==> forall|c: usize|
            cols.contains(c) ==> pixels::same_option(
                sizes::lookup(old.sizes.shown().col_widths, c),
                #[trigger] sizes::lookup(new.sizes.shown().col_widths, c),
            ),
        r == FitRecord::Nothing ==> new.file == old.file,
        r != FitRecord::Nothing ==> new.file.is_modified,
        r matches FitRecord::One(ch) ==> is_change(old, new, cols, ch),
        r matches FitRecord::Group { changes, .. } ==> changes@.len() > 1 && forall|k: int|
            0 <= k < changes@.len() ==> is_change(old, new, cols, #[trigger] changes@[k]),
        forall|c: usize|
            cols.contains(c) ==> #[trigger] sizes::lookup(new.sizes.shown().col_widths, c)
                == sizes::kept_width(fitted(needed, c)),
        new.view == old.view && new.mode == old.mode && new.failures == old.failures,
{
    let a = old.sizes.shown().col_widths;
    let b = new.sizes.shown().col_widths;
    if cols.len() > 0 {
        lemma_width_changes(old.sizes.sheet_id, cols, a, b);
        let v = width_changes(old.sizes.sheet_id, cols, a, b);
        if v.len() > 0 {
            let c = v[0].line;
            assert(!pixels::same_option(sizes::lookup(a, c), sizes::lookup(b, c)));
        }
    }
}

/// A record of a width that a fit changed.
pub open spec fn is_change(
    old: Spreadsheet,
    new: Spreadsheet,
    cols: Seq<usize>,
    ch: SizeChange,
) -> bool {
    &&& ch.sheet_id == old.sizes.sheet_id && cols.contains(ch.line)
    &&& ch.old == sizes::lookup(old.sizes.shown().col_widths, ch.line)
    &&& ch.new == sizes::lookup(new.sizes.shown().col_widths, ch.line)
    &&& !pixels::same_option(ch.old, ch.new)
}

} // verus!
