//! Column widths, row heights, and hidden rows and columns, by sheet.

use std::collections::{BTreeMap, BTreeSet};

use vstd::prelude::*;

use crate::collections;
use crate::pixels;
use crate::state::{FileState, Spreadsheet};

verus! {

/// 20 and 500: a column is no narrower and no wider.
pub const MIN_COL_WIDTH: u32 = 0x41a0_0000;
pub const MAX_COL_WIDTH: u32 = 0x43fa_0000;

/// 79, 80 and 81: between the outer two a width is taken for the usual one.
pub const NARROWER_THAN_CELL: u32 = 0x429e_0000;
pub const CELL_WIDTH: u32 = 0x42a0_0000;
pub const WIDER_THAN_CELL: u32 = 0x42a2_0000;

/// 12 and 200: a row is no lower and no higher.
pub const MIN_ROW_HEIGHT: u32 = 0x4140_0000;
pub const MAX_ROW_HEIGHT: u32 = 0x4348_0000;

/// 23, 24 and 25: between the outer two a height is taken for the usual one.
pub const LOWER_THAN_CELL: u32 = 0x41b8_0000;
pub const CELL_HEIGHT: u32 = 0x41c0_0000;
pub const HIGHER_THAN_CELL: u32 = 0x41c8_0000;

/// 40 and 600: a column that is fitted to its content is no narrower and needs
/// no more.
pub const MIN_AUTOFIT_WIDTH: u32 = 0x4220_0000;
pub const MAX_AUTOFIT_WIDTH: u32 = 0x4416_0000;

/// The sizes of one sheet.
#[derive(Debug, PartialEq, Eq)]
pub struct SheetDims {
    pub id: u64,
    pub col_widths: BTreeMap<usize, u32>,
    pub row_heights: BTreeMap<usize, u32>,
    pub hidden_rows: BTreeSet<usize>,
    pub hidden_cols: BTreeSet<usize>,
}

/// What the sizes of one sheet come to.
#[verifier::ext_equal]
pub struct DimsModel {
    pub col_widths: Map<usize, u32>,
    pub row_heights: Map<usize, u32>,
    pub hidden_rows: Set<usize>,
    pub hidden_cols: Set<usize>,
}

impl View for SheetDims {
    type V = DimsModel;

    open spec fn view(&self) -> DimsModel {
        DimsModel {
            col_widths: self.col_widths@,
            row_heights: self.row_heights@,
            hidden_rows: self.hidden_rows@,
            hidden_cols: self.hidden_cols@,
        }
    }
}

/// A sheet all of whose sizes are the usual ones.
pub open spec fn no_dims() -> DimsModel {
    DimsModel {
        col_widths: Map::empty(),
        row_heights: Map::empty(),
        hidden_rows: Set::empty(),
        hidden_cols: Set::empty(),
    }
}

/// The sizes of all sheets of a window, and which sheet is shown. `rows` and
/// `cols` are how large a sheet is.
#[derive(Debug, PartialEq, Eq)]
pub struct SizeState {
    pub sheet_id: u64,
    pub rows: usize,
    pub cols: usize,
    pub sheets: Vec<SheetDims>,
}

/// The sizes of the sheet `id` in a list.
pub open spec fn dims_at(v: Seq<SheetDims>, id: u64) -> DimsModel
    decreases v.len(),
{
    if v.len() == 0 {
        no_dims()
    } else if v[0].id == id {
        v[0]@
    } else {
        dims_at(v.skip(1), id)
    }
}

/// `i` is the first place in the list with the sheet `id`, or its end.
pub open spec fn first_place(v: Seq<SheetDims>, id: u64, i: int) -> bool {
    &&& 0 <= i <= v.len()
    &&& i < v.len() ==> v[i].id == id
    &&& forall|k: int| 0 <= k < i ==> (#[trigger] v[k]).id != id
}

pub proof fn lemma_place(v: Seq<SheetDims>, id: u64, i: int)
    requires
        first_place(v, id, i),
    ensures
        dims_at(v, id) == if i < v.len() {
            v[i]@
        } else {
            no_dims()
        },
    decreases i,
{
    if i > 0 {
        assert(v[0].id != id);
        let rest = v.skip(1);
        assert forall|k: int| 0 <= k < i - 1 implies (#[trigger] rest[k]).id != id by {
            assert(rest[k] == v[k + 1]);
        }
        lemma_place(rest, id, i - 1);
    }
}

pub proof fn lemma_some_place(v: Seq<SheetDims>, id: u64) -> (i: int)
    ensures
        first_place(v, id, i),
    decreases v.len(),
{
    if v.len() == 0 || v[0].id == id {
        0
    } else {
        let rest = v.skip(1);
        let i = lemma_some_place(rest, id);
        assert forall|k: int| 0 <= k < i + 1 implies (#[trigger] v[k]).id != id by {
            if k > 0 {
                assert(v[k] == rest[k - 1]);
            }
        }
        if i < rest.len() {
            assert(v[i + 1] == rest[i]);
        }
        i + 1
    }
}

/// Other sizes for one sheet are those of that sheet, and of no other.
proof fn lemma_update(v: Seq<SheetDims>, i: int, d: SheetDims)
    requires
        i < v.len(),
        first_place(v, d.id, i),
    ensures
        dims_at(v.update(i, d), d.id) == d@,
        forall|other: u64|
            other != d.id ==> #[trigger] dims_at(v.update(i, d), other) == dims_at(v, other),
{
    let w = v.update(i, d);
    assert(first_place(w, d.id, i));
    lemma_place(w, d.id, i);
    assert forall|other: u64| other != d.id implies #[trigger] dims_at(w, other) == dims_at(
        v,
        other,
    ) by {
        let k = lemma_some_place(v, other);
        assert(first_place(w, other, k));
        lemma_place(v, other, k);
        lemma_place(w, other, k);
    }
}

/// The same of all sizes at once.
proof fn lemma_updates(v: Seq<SheetDims>, id: u64, i: int)
    requires
        i < v.len(),
        first_place(v, id, i),
    ensures
        forall|d: SheetDims, other: u64| #![trigger dims_at(v.update(i, d), other)]
            d.id == id ==> dims_at(v.update(i, d), other) == if other == id {
                d@
            } else {
                dims_at(v, other)
            },
{
    assert forall|d: SheetDims, other: u64| #![trigger dims_at(v.update(i, d), other)] d.id
        == id implies dims_at(v.update(i, d), other) == if other == id {
        d@
    } else {
        dims_at(v, other)
    } by {
        lemma_update(v, i, d);
    }
}

proof fn lemma_push(v: Seq<SheetDims>, d: SheetDims)
    requires
        first_place(v, d.id, v.len() as int),
    ensures
        dims_at(v.push(d), d.id) == d@,
        forall|other: u64|
            other != d.id ==> #[trigger] dims_at(v.push(d), other) == dims_at(v, other),
{
    let w = v.push(d);
    assert(first_place(w, d.id, v.len() as int));
    lemma_place(w, d.id, v.len() as int);
    assert forall|other: u64| other != d.id implies #[trigger] dims_at(w, other) == dims_at(
        v,
        other,
    ) by {
        let k = lemma_some_place(v, other);
        lemma_place(v, other, k);
        if k < v.len() {
            assert(first_place(w, other, k));
            lemma_place(w, other, k);
        } else {
            assert(first_place(w, other, k + 1));
            lemma_place(w, other, k + 1);
        }
    }
}

/// The sizes of a new window.
pub open spec fn no_sizes(s: SizeState, sheet_id: u64, rows: usize, cols: usize) -> bool {
    s.sheet_id == sheet_id && s.rows == rows && s.cols == cols && s.sheets@.len() == 0
}

impl SizeState {
    pub fn new(sheet_id: u64, rows: usize, cols: usize) -> (s: SizeState)
        ensures
            no_sizes(s, sheet_id, rows, cols),
    {
        SizeState { sheet_id, rows, cols, sheets: Vec::new() }
    }

    /// The sizes of the sheet `id`.
    pub open spec fn at(self, id: u64) -> DimsModel {
        dims_at(self.sheets@, id)
    }

    /// The sizes of the sheet that is shown.
    pub open spec fn shown(self) -> DimsModel {
        self.at(self.sheet_id)
    }

    pub(crate) fn position(&self, id: u64) -> (i: usize)
        ensures
            first_place(self.sheets@, id, i as int),
            i < self.sheets@.len() ==> self.at(id) == self.sheets@[i as int]@,
            i == self.sheets@.len() ==> self.at(id) == no_dims(),
    {
        let mut i: usize = 0;
        while i < self.sheets.len() && self.sheets[i].id != id
            invariant
                i <= self.sheets@.len(),
                forall|k: int| 0 <= k < i ==> (#[trigger] self.sheets@[k]).id != id,
            decreases self.sheets@.len() - i,
        {
            i = i + 1;
        }
        proof {
            lemma_place(self.sheets@, id, i as int);
        }
        i
    }

    /// The place of a sheet, which is put in if it is not there.
    fn entry(&mut self, id: u64) -> (i: usize)
        ensures
            i < final(self).sheets@.len(),
            first_place(final(self).sheets@, id, i as int),
            final(self).sheets@[i as int]@ == old(self).at(id),
            *final(self) == (SizeState { sheets: final(self).sheets, ..*old(self) }),
            forall|other: u64| #[trigger] final(self).at(other) == old(self).at(other),
    {
        let i = self.position(id);
        if i == self.sheets.len() {
            let d = SheetDims {
                id,
                col_widths: BTreeMap::new(),
                row_heights: BTreeMap::new(),
                hidden_rows: BTreeSet::new(),
                hidden_cols: BTreeSet::new(),
            };
            proof {
                assert(d@ =~= no_dims());
                lemma_push(self.sheets@, d);
            }
            self.sheets.push(d);
        }
        i
    }

    /// The width of a column that has one of its own.
    pub(crate) fn width(&self, id: u64, col: usize) -> (r: Option<u32>)
        ensures
            r == if self.at(id).col_widths.contains_key(col) {
                Some(self.at(id).col_widths[col])
            } else {
                None
            },
    {
        let i = self.position(id);
        if i < self.sheets.len() {
            collections::map_get(&self.sheets[i].col_widths, col)
        } else {
            None
        }
    }

    /// The height of a row that has one of its own.
    fn height(&self, id: u64, row: usize) -> (r: Option<u32>)
        ensures
            r == if self.at(id).row_heights.contains_key(row) {
                Some(self.at(id).row_heights[row])
            } else {
                None
            },
    {
        let i = self.position(id);
        if i < self.sheets.len() {
            collections::map_get(&self.sheets[i].row_heights, row)
        } else {
            None
        }
    }

    /// The widths of a sheet, to be changed.
    pub(crate) fn widths_mut(&mut self, id: u64) -> (r: &mut BTreeMap<usize, u32>)
        ensures
            r@ == old(self).at(id).col_widths,
            *final(self) == (SizeState { sheets: final(self).sheets, ..*old(self) }),
            final(self).at(id) == (DimsModel { col_widths: final(r)@, ..old(self).at(id) }),
            forall|other: u64|
                other != id ==> #[trigger] final(self).at(other) == old(self).at(other),
    {
        let i = self.entry(id);
        let ghost v = self.sheets@;
        proof {
            lemma_updates(v, id, i as int);
            assert forall|other: u64| #[trigger] dims_at(v, other) == old(self).at(other) by {
                assert(self.at(other) == old(self).at(other));
            }
        }
        &mut self.sheets[i].col_widths
    }

    /// The heights of a sheet, to be changed.
    pub(crate) fn heights_mut(&mut self, id: u64) -> (r: &mut BTreeMap<usize, u32>)
        ensures
            r@ == old(self).at(id).row_heights,
            *final(self) == (SizeState { sheets: final(self).sheets, ..*old(self) }),
            final(self).at(id) == (DimsModel { row_heights: final(r)@, ..old(self).at(id) }),
            forall|other: u64|
                other != id ==> #[trigger] final(self).at(other) == old(self).at(other),
    {
        let i = self.entry(id);
        let ghost v = self.sheets@;
        proof {
            lemma_updates(v, id, i as int);
            assert forall|other: u64| #[trigger] dims_at(v, other) == old(self).at(other) by {
                assert(self.at(other) == old(self).at(other));
            }
        }
        &mut self.sheets[i].row_heights
    }

    /// The hidden rows of a sheet, to be changed.
    pub(crate) fn hidden_rows_mut(&mut self, id: u64) -> (r: &mut BTreeSet<usize>)
        ensures
            r@ == old(self).at(id).hidden_rows,
            *final(self) == (SizeState { sheets: final(self).sheets, ..*old(self) }),
            final(self).at(id) == (DimsModel { hidden_rows: final(r)@, ..old(self).at(id) }),
            forall|other: u64|
                other != id ==> #[trigger] final(self).at(other) == old(self).at(other),
    {
        let i = self.entry(id);
        let ghost v = self.sheets@;
        proof {
            lemma_updates(v, id, i as int);
            assert forall|other: u64| #[trigger] dims_at(v, other) == old(self).at(other) by {
                assert(self.at(other) == old(self).at(other));
            }
        }
        &mut self.sheets[i].hidden_rows
    }

    /// The hidden columns of a sheet, to be changed.
    pub(crate) fn hidden_cols_mut(&mut self, id: u64) -> (r: &mut BTreeSet<usize>)
        ensures
            r@ == old(self).at(id).hidden_cols,
            *final(self) == (SizeState { sheets: final(self).sheets, ..*old(self) }),
            final(self).at(id) == (DimsModel { hidden_cols: final(r)@, ..old(self).at(id) }),
            forall|other: u64|
                other != id ==> #[trigger] final(self).at(other) == old(self).at(other),
    {
        let i = self.entry(id);
        let ghost v = self.sheets@;
        proof {
            lemma_updates(v, id, i as int);
            assert forall|other: u64| #[trigger] dims_at(v, other) == old(self).at(other) by {
                assert(self.at(other) == old(self).at(other));
            }
        }
        &mut self.sheets[i].hidden_cols
    }
}

/// Only the sheet `id` has other sizes, and they are `d`.
pub open spec fn dims_set(old: SizeState, new: SizeState, id: u64, d: DimsModel) -> bool {
    &&& new == (SizeState { sheets: new.sheets, ..old })
    &&& new.at(id) == d
    &&& forall|other: u64| other != id ==> #[trigger] new.at(other) == old.at(other)
}

/// The same of a window.
pub open spec fn resized(old: Spreadsheet, new: Spreadsheet, id: u64, d: DimsModel) -> bool {
    &&& new == (Spreadsheet { sizes: new.sizes, ..old })
    &&& dims_set(old.sizes, new.sizes, id, d)
}

/// What a map holds for a key.
pub open spec fn lookup(m: Map<usize, u32>, k: usize) -> Option<u32> {
    if m.contains_key(k) {
        Some(m[k])
    } else {
        None
    }
}

/// What is kept of a width: it is bounded, and nothing where it is about the
/// usual one.
pub open spec fn kept_width(width: u32) -> Option<u32> {
    let w = pixels::bounded(width, MIN_COL_WIDTH, MAX_COL_WIDTH);
    if pixels::below(NARROWER_THAN_CELL, w) && pixels::below(w, WIDER_THAN_CELL) {
        None
    } else {
        Some(w)
    }
}

/// What is kept of a height.
pub open spec fn kept_height(height: u32) -> Option<u32> {
    let h = pixels::bounded(height, MIN_ROW_HEIGHT, MAX_ROW_HEIGHT);
    if pixels::below(LOWER_THAN_CELL, h) && pixels::below(h, HIGHER_THAN_CELL) {
        None
    } else {
        Some(h)
    }
}

pub(crate) fn width_to_keep(width: u32) -> (r: Option<u32>)
    ensures
        r == kept_width(width),
{
    let w = pixels::bound(width, MIN_COL_WIDTH, MAX_COL_WIDTH);
    if pixels::is_below(NARROWER_THAN_CELL, w) && pixels::is_below(w, WIDER_THAN_CELL) {
        None
    } else {
        Some(w)
    }
}

pub(crate) fn height_to_keep(height: u32) -> (r: Option<u32>)
    ensures
        r == kept_height(height),
{
    let h = pixels::bound(height, MIN_ROW_HEIGHT, MAX_ROW_HEIGHT);
    if pixels::is_below(LOWER_THAN_CELL, h) && pixels::is_below(h, HIGHER_THAN_CELL) {
        None
    } else {
        Some(h)
    }
}

/// A map with one entry set or taken out.
pub open spec fn with_entry(m: Map<usize, u32>, k: usize, v: Option<u32>) -> Map<usize, u32> {
    match v {
        Some(x) => m.insert(k, x),
        None => m.remove(k),
    }
}

pub(crate) fn set_entry(m: &mut BTreeMap<usize, u32>, k: usize, v: Option<u32>)
    ensures
        final(m)@ == with_entry(old(m)@, k, v),
{
    match v {
        Some(x) => collections::map_insert(m, k, x),
        None => collections::map_remove(m, k),
    }
}

/// A change of a width or a height, as it is undone.
#[derive(Debug, Clone, Copy, PartialEq, Eq)]
pub struct SizeChange {
    pub sheet_id: u64,
    pub line: usize,
    pub old: Option<u32>,
    pub new: Option<u32>,
}

/// The number of lines from `from` up to `to` that are not hidden.
pub open spec fn free_between(hidden: Set<usize>, from: int, to: int) -> nat
    decreases to - from,
{
    if to <= from {
        0
    } else {
        free_between(hidden, from, to - 1) + if hidden.contains((to - 1) as usize) {
            0nat
        } else {
            1nat
        }
    }
}

proof fn lemma_all_free(from: int, to: int)
    ensures
        free_between(Set::empty(), from, to) == if to <= from {
            0
        } else {
            to - from
        },
    decreases to - from,
{
    if from < to {
        lemma_all_free(from, to - 1);
    }
}

/// The number of the first `n` rows whose data is not hidden.
pub open spec fn rows_free(rows: Seq<(usize, usize)>, hidden: Set<usize>, n: int) -> nat
    decreases n,
{
    if n <= 0 {
        0
    } else {
        rows_free(rows, hidden, n - 1) + if hidden.contains(rows[n - 1].1) {
            0nat
        } else {
            1nat
        }
    }
}

proof fn lemma_rows_all_free(rows: Seq<(usize, usize)>, n: int)
    requires
        0 <= n,
    ensures
        rows_free(rows, Set::empty(), n) == n,
    decreases n,
{
    if n > 0 {
        lemma_rows_all_free(rows, n - 1);
    }
}

/// How wide a column of a sheet is.
pub open spec fn width_of(d: DimsModel, col: usize) -> u32 {
    match lookup(d.col_widths, col) {
        Some(x) => x,
        None => CELL_WIDTH,
    }
}

/// How high a row of a sheet is.
pub open spec fn height_of(d: DimsModel, row: usize) -> u32 {
    match lookup(d.row_heights, row) {
        Some(x) => x,
        None => CELL_HEIGHT,
    }
}

/// A column of the sheet that is shown was made this wide.
pub open spec fn width_set(old: Spreadsheet, new: Spreadsheet, col: usize, width: u32) -> bool {
    resized(
        old,
        new,
        old.sizes.sheet_id,
        DimsModel {
            col_widths: with_entry(old.sizes.shown().col_widths, col, kept_width(width)),
            ..old.sizes.shown()
        },
    )
}

/// A row of the sheet that is shown was made this high.
pub open spec fn height_set(old: Spreadsheet, new: Spreadsheet, row: usize, height: u32) -> bool {
    resized(
        old,
        new,
        old.sizes.sheet_id,
        DimsModel {
            row_heights: with_entry(old.sizes.shown().row_heights, row, kept_height(height)),
            ..old.sizes.shown()
        },
    )
}

impl Spreadsheet {
    /// The width of a column of the sheet that is shown.
    pub fn col_width(&self, col: usize) -> (w: u32)
        ensures
            w == width_of(self.sizes.shown(), col),
    {
        match self.sizes.width(self.sizes.sheet_id, col) {
            Some(x) => x,
            None => CELL_WIDTH,
        }
    }

    /// The height of a row of the sheet that is shown.
    pub fn row_height(&self, row: usize) -> (h: u32)
        ensures
            h == height_of(self.sizes.shown(), row),
    {
        match self.sizes.height(self.sizes.sheet_id, row) {
            Some(x) => x,
            None => CELL_HEIGHT,
        }
    }

    /// Make a column of the sheet that is shown this wide.
    pub fn set_col_width(&mut self, col: usize, width: u32)
        ensures
            width_set(*old(self), *final(self), col, width),
    {
        let keep = width_to_keep(width);
        let id = self.sizes.sheet_id;
        set_entry(self.sizes.widths_mut(id), col, keep);
    }

    /// Make a row of the sheet that is shown this high.
    pub fn set_row_height(&mut self, row: usize, height: u32)
        ensures
            height_set(*old(self), *final(self), row, height),
    {
        let keep = height_to_keep(height);
        let id = self.sizes.sheet_id;
        set_entry(self.sizes.heights_mut(id), row, keep);
    }

    /// A column has been resized: if it is now another size than `before`, the
    /// document is modified, and the result is what is to be undone.
    pub fn record_col_width_change(&mut self, col: usize, before: Option<u32>) -> (change: Option<
        SizeChange,
    >)
        ensures
            ({
                let now = lookup(old(self).sizes.shown().col_widths, col);
                if pixels::same_option(before, now) {
                    change is None && *final(self) == *old(self)
                } else {
                    &&& change == Some(
                        SizeChange {
                            sheet_id: old(self).sizes.sheet_id,
                            line: col,
                            old: before,
                            new: now,
                        },
                    )
                    &&& *final(self) == (Spreadsheet {
                        file: FileState { is_modified: true, ..old(self).file },
                        ..*old(self)
                    })
                }
            }),
    {
        let now = self.sizes.width(self.sizes.sheet_id, col);
        if pixels::is_same_option(before, now) {
            return None;
        }
        self.file.is_modified = true;
        Some(SizeChange { sheet_id: self.sizes.sheet_id, line: col, old: before, new: now })
    }

    /// The same of a row.
    pub fn record_row_height_change(&mut self, row: usize, before: Option<u32>) -> (change: Option<
        SizeChange,
    >)
        ensures
            ({
                let now = lookup(old(self).sizes.shown().row_heights, row);
                if pixels::same_option(before, now) {
                    change is None && *final(self) == *old(self)
                } else {
                    &&& change == Some(
                        SizeChange {
                            sheet_id: old(self).sizes.sheet_id,
                            line: row,
                            old: before,
                            new: now,
                        },
                    )
                    &&& *final(self) == (Spreadsheet {
                        file: FileState { is_modified: true, ..old(self).file },
                        ..*old(self)
                    })
                }
            }),
    {
        let now = self.sizes.height(self.sizes.sheet_id, row);
        if pixels::is_same_option(before, now) {
            return None;
        }
        self.file.is_modified = true;
        Some(SizeChange { sheet_id: self.sizes.sheet_id, line: row, old: before, new: now })
    }

    /// The column widths of the sheet that is shown, to be changed.
    pub fn sheet_col_widths_mut(&mut self) -> (r: &mut BTreeMap<usize, u32>)
        ensures
            r@ == old(self).sizes.shown().col_widths,
            resized(
                *old(self),
                *final(self),
                old(self).sizes.sheet_id,
                (DimsModel { col_widths: final(r)@, ..old(self).sizes.shown() }),
            ),
    {
        let id = self.sizes.sheet_id;
        self.sizes.widths_mut(id)
    }

    /// The row heights of the sheet that is shown, to be changed.
    pub fn sheet_row_heights_mut(&mut self) -> (r: &mut BTreeMap<usize, u32>)
        ensures
            r@ == old(self).sizes.shown().row_heights,
            resized(
                *old(self),
                *final(self),
                old(self).sizes.sheet_id,
                (DimsModel { row_heights: final(r)@, ..old(self).sizes.shown() }),
            ),
    {
        let id = self.sizes.sheet_id;
        self.sizes.heights_mut(id)
    }

    /// The column widths of the sheet at an index, to be changed; `ids` are the
    /// sheets of the workbook. Where there is no such sheet it is the one that
    /// is shown.
    pub fn sheet_col_widths_for_index_mut(&mut self, sheet_index: usize, ids: &Vec<u64>) -> (r:
        &mut BTreeMap<usize, u32>)
        ensures
            ({
                let id = if sheet_index < ids@.len() {
                    ids@[sheet_index as int]
                } else {
                    old(self).sizes.sheet_id
                };
                &&& r@ == old(self).sizes.at(id).col_widths
                &&& resized(
                    *old(self),
                    *final(self),
                    id,
                    (DimsModel { col_widths: final(r)@, ..old(self).sizes.at(id) }),
                )
            }),
    {
        let id = if sheet_index < ids.len() {
            ids[sheet_index]
        } else {
            self.sizes.sheet_id
        };
        self.sizes.widths_mut(id)
    }

    /// The row heights of the sheet at an index, to be changed.
    pub fn sheet_row_heights_for_index_mut(&mut self, sheet_index: usize, ids: &Vec<u64>) -> (r:
        &mut BTreeMap<usize, u32>)
        ensures
            ({
                let id = if sheet_index < ids@.len() {
                    ids@[sheet_index as int]
                } else {
                    old(self).sizes.sheet_id
                };
                &&& r@ == old(self).sizes.at(id).row_heights
                &&& resized(
                    *old(self),
                    *final(self),
                    id,
                    (DimsModel { row_heights: final(r)@, ..old(self).sizes.at(id) }),
                )
            }),
    {
        let id = if sheet_index < ids.len() {
            ids[sheet_index]
        } else {
            self.sizes.sheet_id
        };
        self.sizes.heights_mut(id)
    }

    /// Whether a row of the sheet that is shown has a height of its own.
    pub fn has_custom_row_heights(&self) -> (r: bool)
        ensures
            r == !(self.sizes.shown().row_heights =~= Map::empty()),
    {
        let i = self.sizes.position(self.sizes.sheet_id);
        i < self.sizes.sheets.len() && !self.sizes.sheets[i].row_heights.is_empty()
    }

    pub fn is_row_hidden(&self, row: usize) -> (r: bool)
        ensures
            r == self.sizes.shown().hidden_rows.contains(row),
    {
        let i = self.sizes.position(self.sizes.sheet_id);
        i < self.sizes.sheets.len() && collections::set_has(&self.sizes.sheets[i].hidden_rows, row)
    }

    pub fn is_col_hidden(&self, col: usize) -> (r: bool)
        ensures
            r == self.sizes.shown().hidden_cols.contains(col),
    {
        let i = self.sizes.position(self.sizes.sheet_id);
        i < self.sizes.sheets.len() && collections::set_has(&self.sizes.sheets[i].hidden_cols, col)
    }

    pub fn has_hidden_rows(&self) -> (r: bool)
        ensures
            r == !(self.sizes.shown().hidden_rows =~= Set::empty()),
    {
        let i = self.sizes.position(self.sizes.sheet_id);
        i < self.sizes.sheets.len() && !self.sizes.sheets[i].hidden_rows.is_empty()
    }

    pub fn has_hidden_cols(&self) -> (r: bool)
        ensures
            r == !(self.sizes.shown().hidden_cols =~= Set::empty()),
    {
        let i = self.sizes.position(self.sizes.sheet_id);
        i < self.sizes.sheets.len() && !self.sizes.sheets[i].hidden_cols.is_empty()
    }

    /// The column that stands at a place on the screen, which counts the
    /// columns from `scroll_col` on that are not hidden.
    pub fn nth_visible_col(&self, visible_index: usize, scroll_col: usize) -> (r: Option<usize>)
        ensures
            ({
                let hidden = self.sizes.shown().hidden_cols;
                match r {
                    Some(c) => scroll_col <= c < self.sizes.cols && !hidden.contains(c)
                        && free_between(hidden, scroll_col as int, c as int) == visible_index,
                    None => free_between(hidden, scroll_col as int, self.sizes.cols as int)
                        <= visible_index,
                }
            }),
    {
        let ghost hidden = self.sizes.shown().hidden_cols;
        if !self.has_hidden_cols() {
            proof {
                assert(hidden =~= Set::empty());
                lemma_all_free(scroll_col as int, scroll_col + visible_index);
                lemma_all_free(scroll_col as int, self.sizes.cols as int);
            }
            return if scroll_col < self.sizes.cols && visible_index < self.sizes.cols - scroll_col {
                Some(scroll_col + visible_index)
            } else {
                None
            };
        }
        let mut count: usize = 0;
        let mut col: usize = scroll_col;
        while col < self.sizes.cols
            invariant
                hidden == self.sizes.shown().hidden_cols,
                scroll_col <= col,
                col <= self.sizes.cols || col == scroll_col,
                count == free_between(hidden, scroll_col as int, col as int),
                count <= visible_index,
                count <= col - scroll_col,
            decreases self.sizes.cols - col,
        {
            if !self.is_col_hidden(col) {
                if count == visible_index {
                    return Some(col);
                }
                count = count + 1;
            }
            col = col + 1;
        }
        None
    }

    /// The row that stands at a place on the screen. `rows` are the rows that
    /// the filter leaves, in the order in which they are shown, each with its
    /// place in the view and in the data.
    pub fn nth_visible_row_with_hidden(&self, visible_index: usize, rows: &Vec<(usize, usize)>) -> (r:
        Option<(usize, usize)>)
        ensures
            ({
                let hidden = self.sizes.shown().hidden_rows;
                match r {
                    Some(p) => exists|i: int|
                        0 <= i < rows@.len() && #[trigger] rows@[i] == p && !hidden.contains(p.1)
                            && rows_free(rows@, hidden, i) == visible_index,
                    None => rows_free(rows@, hidden, rows@.len() as int) <= visible_index,
                }
            }),
    {
        let ghost hidden = self.sizes.shown().hidden_rows;
        if !self.has_hidden_rows() {
            proof {
                assert(hidden =~= Set::empty());
                lemma_rows_all_free(rows@, visible_index as int);
                lemma_rows_all_free(rows@, rows@.len() as int);
            }
            return if visible_index < rows.len() {
                Some(rows[visible_index])
            } else {
                None
            };
        }
        let mut count: usize = 0;
        let mut i: usize = 0;
        while i < rows.len()
            invariant
                hidden == self.sizes.shown().hidden_rows,
                i <= rows@.len(),
                count == rows_free(rows@, hidden, i as int),
                count <= visible_index,
                count <= i,
            decreases rows@.len() - i,
        {
            let p = rows[i];
            if !self.is_row_hidden(p.1) {
                if count == visible_index {
                    assert(rows@[i as int] == p);
                    return Some(p);
                }
                count = count + 1;
            }
            i = i + 1;
        }
        None
    }

    /// Another sheet is shown.
    pub fn update_cached_sheet_id(&mut self, id: u64)
        ensures
            *final(self) == (Spreadsheet {
                sizes: SizeState { sheet_id: id, ..old(self).sizes },
                ..*old(self)
            }),
    {
        self.sizes.sheet_id = id;
    }

    /// The sheet that is shown.
    pub fn cached_sheet_id(&self) -> (id: u64)
        ensures
            id == self.sizes.sheet_id,
    {
        self.sizes.sheet_id
    }
}

// ---------------------------------------------------------------------------
// Laws
// ---------------------------------------------------------------------------

/// A size that is kept is a number within its bounds, whatever was asked for.
pub proof fn kept_sizes_are_numbers(size: u32)
    ensures
        kept_width(size) matches Some(w) ==> !pixels::is_nan(w) && !pixels::below(
            w,
            MIN_COL_WIDTH,
        ) && !pixels::below(MAX_COL_WIDTH, w),
        kept_height(size) matches Some(h) ==> !pixels::is_nan(h) && !pixels::below(
            h,
            MIN_ROW_HEIGHT,
        ) && !pixels::below(MAX_ROW_HEIGHT, h),
{
    pixels::bounded_stays_between(size, MIN_COL_WIDTH, MAX_COL_WIDTH);
    pixels::bounded_stays_between(size, MIN_ROW_HEIGHT, MAX_ROW_HEIGHT);
}

/// A size that was set is the one that is read, and no other line has changed.
pub proof fn sizes_read_back(m: Map<usize, u32>, line: usize, other: usize, size: Option<u32>)
    requires
        other != line,
    ensures
        lookup(with_entry(m, line, size), line) == size,
        lookup(with_entry(m, line, size), other) == lookup(m, other),
{
}

/// A power of two.
pub open spec fn two_to(e: nat) -> int
    decreases e,
{
    if e == 0 {
        1
    } else {
        2 * two_to((e - 1) as nat)
    }
}

/// The bits of the single-precision number `n`, where `n` lies between two to the
/// `e` and twice that.
pub open spec fn is_pixels(bits: u32, n: int, e: nat) -> bool {
    &&& two_to(e) <= n < 2 * two_to(e)
    &&& bits == (127 + e) * 0x80_0000 + (n - two_to(e)) * two_to((23 - e) as nat)
}

/// A cell is 80 pixels wide and 24 high. Columns are between 20 and 500 pixels wide,
/// rows between 12 and 200 pixels high, and a fitted column between 40 and 600 wide.
pub proof fn the_usual_sizes()
    ensures
        is_pixels(CELL_WIDTH, 80, 6) && is_pixels(CELL_HEIGHT, 24, 4),
        is_pixels(MIN_COL_WIDTH, 20, 4) && is_pixels(MAX_COL_WIDTH, 500, 8),
        is_pixels(MIN_ROW_HEIGHT, 12, 3) && is_pixels(MAX_ROW_HEIGHT, 200, 7),
        is_pixels(MIN_AUTOFIT_WIDTH, 40, 5) && is_pixels(MAX_AUTOFIT_WIDTH, 600, 9),
        is_pixels(NARROWER_THAN_CELL, 79, 6) && is_pixels(WIDER_THAN_CELL, 81, 6),
        is_pixels(LOWER_THAN_CELL, 23, 4) && is_pixels(HIGHER_THAN_CELL, 25, 4),
{
    reveal_with_fuel(two_to, 25);
    assert(two_to(3) == 8 && two_to(4) == 16 && two_to(5) == 32 && two_to(6) == 64);
    assert(two_to(7) == 128 && two_to(8) == 256 && two_to(9) == 512 && two_to(14) == 16384);
    assert(two_to(15) == 32768 && two_to(16) == 65536 && two_to(17) == 131072);
    assert(two_to(18) == 262144 && two_to(19) == 524288 && two_to(20) == 1048576);
    assert(16 * 131072int == 2097152 && 8 * 524288int == 4194304 && 4 * 524288int == 2097152);
    assert(244 * 32768int == 7995392 && 4 * 1048576int == 4194304 && 72 * 65536int == 4718592);
    assert(8 * 262144int == 2097152 && 88 * 16384int == 1441792);
    assert(15 * 131072int == 1966080 && 17 * 131072int == 2228224);
    assert(7 * 524288int == 3670016 && 9 * 524288int == 4718592);
}

/// A width that is set is the one that is read: exactly, where it lies within the
/// bounds and is not that of a cell; else that of a cell where it is within a pixel of
/// it, and the nearer bound where it is out of bounds. No other column, no row and no
/// other sheet changes.
pub proof fn a_width_that_is_set_is_read(
    old: Spreadsheet,
    new: Spreadsheet,
    col: usize,
    width: u32,
    other: usize,
    sheet: u64,
)
    requires
        width_set(old, new, col, width),
        !pixels::is_nan(width),
        other != col,
        sheet != old.sizes.sheet_id,
    ensures
        pixels::rank(MIN_COL_WIDTH) <= pixels::rank(width) <= pixels::rank(MAX_COL_WIDTH) && !(
        pixels::rank(NARROWER_THAN_CELL) < pixels::rank(width) < pixels::rank(WIDER_THAN_CELL))
            ==> width_of(new.sizes.shown(), col) == width,
        pixels::rank(NARROWER_THAN_CELL) < pixels::rank(width) < pixels::rank(WIDER_THAN_CELL)
            ==> width_of(new.sizes.shown(), col) == CELL_WIDTH,
        pixels::rank(width) < pixels::rank(MIN_COL_WIDTH) ==> width_of(new.sizes.shown(), col)
            == MIN_COL_WIDTH,
        pixels::rank(width) > pixels::rank(MAX_COL_WIDTH) ==> width_of(new.sizes.shown(), col)
            == MAX_COL_WIDTH,
        width_of(new.sizes.shown(), other) == width_of(old.sizes.shown(), other),
        forall|row: usize| #[trigger]
            height_of(new.sizes.shown(), row) == height_of(old.sizes.shown(), row),
        new.sizes.shown().hidden_rows == old.sizes.shown().hidden_rows,
        new.sizes.shown().hidden_cols == old.sizes.shown().hidden_cols,
        new.sizes.at(sheet) == old.sizes.at(sheet),
        new.file == old.file && new.view == old.view,
{
}

/// The same holds of the height of a row.
pub proof fn a_height_that_is_set_is_read(
    old: Spreadsheet,
    new: Spreadsheet,
    row: usize,
    height: u32,
    other: usize,
    sheet: u64,
)
    requires
        height_set(old, new, row, height),
        !pixels::is_nan(height),
        other != row,
        sheet != old.sizes.sheet_id,
    ensures
        pixels::rank(MIN_ROW_HEIGHT) <= pixels::rank(height) <= pixels::rank(MAX_ROW_HEIGHT) && !(
        pixels::rank(LOWER_THAN_CELL) < pixels::rank(height) < pixels::rank(HIGHER_THAN_CELL))
            ==> height_of(new.sizes.shown(), row) == height,
        pixels::rank(LOWER_THAN_CELL) < pixels::rank(height) < pixels::rank(HIGHER_THAN_CELL)
            ==> height_of(new.sizes.shown(), row) == CELL_HEIGHT,
        pixels::rank(height) < pixels::rank(MIN_ROW_HEIGHT) ==> height_of(new.sizes.shown(), row)
            == MIN_ROW_HEIGHT,
        pixels::rank(height) > pixels::rank(MAX_ROW_HEIGHT) ==> height_of(new.sizes.shown(), row)
            == MAX_ROW_HEIGHT,
        height_of(new.sizes.shown(), other) == height_of(old.sizes.shown(), other),
        forall|col: usize| #[trigger]
            width_of(new.sizes.shown(), col) == width_of(old.sizes.shown(), col),
        new.sizes.shown().hidden_rows == old.sizes.shown().hidden_rows,
        new.sizes.shown().hidden_cols == old.sizes.shown().hidden_cols,
        new.sizes.at(sheet) == old.sizes.at(sheet),
        new.file == old.file && new.view == old.view,
{
}

/// The lines that are not hidden are counted one by one: a hidden line counts for
/// nothing and every other for one, and what lies on both sides of a line adds up.
pub proof fn lines_that_are_not_hidden_are_counted(hidden: Set<usize>, from: int, mid: int, to: int)
    requires
        0 <= from <= mid <= to,
        to <= usize::MAX,
    ensures
        free_between(hidden, from, to) == free_between(hidden, from, mid) + free_between(
            hidden,
            mid,
            to,
        ),
        mid < to ==> free_between(hidden, mid, mid + 1) == (if hidden.contains(mid as usize) {
            0nat
        } else {
            1nat
        }),
        free_between(hidden, from, from) == 0,
        (forall|k: int| from <= k < to ==> !#[trigger] hidden.contains(k as usize))
            ==> free_between(hidden, from, to) == to - from,
        (forall|k: int| from <= k < to ==> #[trigger] hidden.contains(k as usize))
            ==> free_between(hidden, from, to) == 0,
    decreases to - from,
{
    reveal_with_fuel(free_between, 2);
    if from < to {
        if mid < to {
            lines_that_are_not_hidden_are_counted(hidden, from, mid, to - 1);
        } else {
            lines_that_are_not_hidden_are_counted(hidden, from, mid - 1, to - 1);
            assert(free_between(hidden, to, to) == 0);
        }
        let last = hidden.contains((to - 1) as usize);
    }
}

/// Rows are counted by what they show: one more row adds one exactly if what it shows
/// is not hidden.
pub proof fn shown_rows_are_counted(rows: Seq<(usize, usize)>, hidden: Set<usize>, n: int)
    requires
        0 <= n < rows.len(),
    ensures
        rows_free(rows, hidden, 0) == 0,
        hidden.contains(rows[n].1) ==> rows_free(rows, hidden, n + 1) == rows_free(rows, hidden, n),
        !hidden.contains(rows[n].1) ==> rows_free(rows, hidden, n + 1) == rows_free(rows, hidden, n)
            + 1,
        (forall|k: int| 0 <= k < rows.len() ==> !hidden.contains((#[trigger] rows[k]).1))
            ==> rows_free(rows, hidden, n) == n,
    decreases n,
{
    if n > 0 {
        shown_rows_are_counted(rows, hidden, n - 1);
    }
}

} // verus!
