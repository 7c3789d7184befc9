//! Writing sheets into interchange documents and reading them back.

use std::collections::{BTreeMap, BTreeSet};

use vstd::prelude::*;
use vstd::string::*;

use crate::collections;
use crate::color;
use crate::color::Rgba;
use crate::document;
use crate::document::{
    CellFormat, CellRange, FullCell, FullFormat, MergeSpec, Scalar, SheetBody,
    ValidationSpec,
};
use crate::layout;
use crate::layout::SheetLayout;
use crate::text;

verus! {

// ---------------------------------------------------------------------------
// A sheet as the engine holds it
// ---------------------------------------------------------------------------

/// A computed value. A number is held as JSON writes it, absent where JSON has
/// no number for it.
#[derive(Debug, PartialEq, Eq)]
pub enum EvalValue {
    Number(Option<String>),
    Text(String),
    Boolean(bool),
    Error(String),
    Empty,
}

/// A cell that holds content or a format.
#[derive(Debug, PartialEq, Eq)]
pub struct SheetCell {
    pub row: usize,
    pub col: usize,
    /// What was typed into it.
    pub raw: String,
    /// What its formula came to.
    pub computed: EvalValue,
    /// Its number, where it holds one: as JSON writes it, if JSON can.
    pub number: Option<Option<String>>,
    pub format: CellFormat,
    pub has_format: bool,
    /// Its value was kept because its function is unknown here.
    pub kept_uncomputable: bool,
}

/// A cell that a formula spilled into.
#[derive(Debug, PartialEq, Eq)]
pub struct SpillCell {
    pub row: usize,
    pub col: usize,
    pub parent: Option<(usize, usize)>,
    pub value: EvalValue,
}

/// A sheet: its cells in no particular order, and the cells that formulas
/// spilled into, row by row.
#[derive(Debug, PartialEq, Eq)]
pub struct Sheet {
    pub name: String,
    pub tab_color: Option<Rgba>,
    pub cells: Vec<SheetCell>,
    pub spills: Vec<SpillCell>,
    pub merged_regions: Vec<MergeSpec>,
    /// The conditional formats as they are written, where there are any.
    pub cond_formats: Option<String>,
    pub validations: Vec<ValidationSpec>,
}

/// No two cells stand in one place.
pub open spec fn distinct_places(cells: Seq<SheetCell>) -> bool {
    forall|i: int, j: int|
        0 <= i < j < cells.len() ==> !((#[trigger] cells[i]).row == (#[trigger] cells[j]).row
            && cells[i].col == cells[j].col)
}

/// One place comes before another, row by row.
pub open spec fn place_before(r1: usize, c1: usize, r2: usize, c2: usize) -> bool {
    r1 < r2 || (r1 == r2 && c1 < c2)
}

/// The cells that formulas spilled into are listed row by row, each once.
pub open spec fn spills_in_order(spills: Seq<SpillCell>) -> bool {
    forall|i: int, j: int|
        0 <= i < j < spills.len() ==> place_before(
            (#[trigger] spills[i]).row,
            spills[i].col,
            (#[trigger] spills[j]).row,
            spills[j].col,
        )
}

impl Sheet {
    /// No cell is listed twice, and the spills go row by row.
    pub open spec fn wf(self) -> bool {
        distinct_places(self.cells@) && spills_in_order(self.spills@)
    }
}

// ---------------------------------------------------------------------------
// Cells on their way out
// ---------------------------------------------------------------------------

pub open spec fn is_formula(raw: Seq<char>) -> bool {
    raw.len() > 0 && raw[0] == '='
}

/// The value that is written beside a formula.
pub open spec fn computed_written(v: EvalValue) -> Option<document::ScalarModel> {
    match v {
        EvalValue::Number(Some(n)) => Some(document::ScalarModel::Number(n@)),
        EvalValue::Number(None) => None,
        EvalValue::Text(t) => Some(document::ScalarModel::Text(t@)),
        EvalValue::Boolean(b) => Some(document::ScalarModel::Bool(b)),
        EvalValue::Error(e) => Some(document::ScalarModel::Text(e@)),
        EvalValue::Empty => None,
    }
}

/// The value that is written for a cell: beside a formula what it came to, for
/// a number the number, for anything else the text.
pub open spec fn value_written(c: SheetCell) -> Option<document::ScalarModel> {
    if is_formula(c.raw@) {
        computed_written(c.computed)
    } else if c.raw@.len() == 0 {
        None
    } else {
        match c.number {
            Some(Some(n)) => Some(document::ScalarModel::Number(n@)),
            Some(None) => None,
            None => Some(document::ScalarModel::Text(c.raw@)),
        }
    }
}

/// A cell is written when there is content or a format in it.
pub open spec fn is_written(c: SheetCell) -> bool {
    c.raw@.len() > 0 || c.has_format
}

/// A cell as a document holds it.
pub open spec fn cell_written(c: SheetCell) -> document::CellModel {
    document::CellModel {
        row: c.row,
        col: c.col,
        value: value_written(c),
        formula: if is_formula(c.raw@) {
            Some(c.raw@)
        } else {
            None
        },
        fmt: if c.has_format {
            Some(document::format_written(c.format))
        } else {
            None
        },
        stale_custom_fn: c.kept_uncomputable,
        spill_from: None,
    }
}

/// The value that is written for a cell that a formula spilled into.
pub open spec fn spill_value_written(v: EvalValue) -> Option<document::ScalarModel> {
    match v {
        EvalValue::Number(Some(n)) => Some(document::ScalarModel::Number(n@)),
        EvalValue::Number(None) => Some(document::ScalarModel::Other("null"@)),
        EvalValue::Text(t) => Some(document::ScalarModel::Text(t@)),
        EvalValue::Boolean(b) => Some(document::ScalarModel::Bool(b)),
        EvalValue::Error(e) => Some(document::ScalarModel::Text(e@)),
        EvalValue::Empty => None,
    }
}

/// The cells that formulas spilled into, as a document holds them: marked with
/// the cell they came from, those without one left out.
pub open spec fn spills_written(spills: Seq<SpillCell>) -> Seq<document::CellModel>
    decreases spills.len(),
{
    if spills.len() == 0 {
        Seq::empty()
    } else {
        let rest = spills_written(spills.drop_last());
        let s = spills.last();
        match s.parent {
            None => rest,
            Some(p) => rest.push(
                document::CellModel {
                    row: s.row,
                    col: s.col,
                    value: spill_value_written(s.value),
                    formula: None,
                    fmt: None,
                    stale_custom_fn: false,
                    spill_from: Some(p),
                },
            ),
        }
    }
}

/// The cells go row by row, and no place is listed twice.
pub open spec fn in_order(out: Seq<document::CellModel>) -> bool {
    forall|i: int, j: int|
        0 <= i < j < out.len() ==> place_before(
            (#[trigger] out[i]).row,
            out[i].col,
            (#[trigger] out[j]).row,
            out[j].col,
        )
}

/// `out` holds the written form of every cell that is written, of no other,
/// and goes row by row.
pub open spec fn lists_cells(out: Seq<document::CellModel>, cells: Seq<SheetCell>) -> bool {
    &&& in_order(out)
    &&& forall|k: int|
        0 <= k < cells.len() && is_written(#[trigger] cells[k]) ==> out.contains(
            cell_written(cells[k]),
        )
    &&& forall|i: int| 0 <= i < out.len() ==> comes_from(#[trigger] out[i], cells)
}

/// A written cell is one of the cells that are written.
pub open spec fn comes_from(m: document::CellModel, cells: Seq<SheetCell>) -> bool {
    exists|k: int|
        0 <= k < cells.len() && is_written(#[trigger] cells[k]) && cell_written(cells[k]) == m
}

/// A sheet's cells as a document holds them: the cells, then the spills, either
/// row by row.
pub open spec fn all_cells_written(out: Seq<document::CellModel>, sheet: Sheet) -> bool {
    let spills = spills_written(sheet.spills@);
    let n = out.len() - spills.len();
    &&& n >= 0
    &&& lists_cells(out.take(n), sheet.cells@)
    &&& out.skip(n) == spills
    &&& in_order(spills)
}

proof fn lemma_spills_in_order(spills: Seq<SpillCell>)
    requires
        spills_in_order(spills),
    ensures
        in_order(spills_written(spills)),
        forall|i: int|
            0 <= i < spills_written(spills).len() ==> exists|k: int|
                0 <= k < spills.len() && (#[trigger] spills[k]).row == (
                #[trigger] spills_written(spills)[i]).row && spills[k].col == spills_written(
                    spills,
                )[i].col,
    decreases spills.len(),
{
    if spills.len() > 0 {
        let front = spills.drop_last();
        let rest = spills_written(front);
        let all = spills_written(spills);
        let n = spills.len() - 1;
        assert forall|i: int, j: int| 0 <= i < j < front.len() implies place_before(
            (#[trigger] front[i]).row,
            front[i].col,
            (#[trigger] front[j]).row,
            front[j].col,
        ) by {
            assert(front[i] == spills[i] && front[j] == spills[j]);
        }
        lemma_spills_in_order(front);
        assert forall|i: int| 0 <= i < all.len() implies exists|k: int|
            0 <= k < spills.len() && (#[trigger] spills[k]).row == (#[trigger] all[i]).row
                && spills[k].col == all[i].col by {
            if i < rest.len() {
                let k = choose|k: int|
                    0 <= k < front.len() && (#[trigger] front[k]).row == rest[i].row && front[k].col
                        == rest[i].col;
                assert(spills[k] == front[k]);
            } else {
                assert(spills[n].row == all[i].row);
            }
        }
        assert forall|i: int, j: int| 0 <= i < j < all.len() implies place_before(
            (#[trigger] all[i]).row,
            all[i].col,
            (#[trigger] all[j]).row,
            all[j].col,
        ) by {
            assert(all[i] == rest[i]);
            if j < rest.len() {
                assert(all[j] == rest[j]);
            } else {
                let k = choose|k: int|
                    0 <= k < front.len() && (#[trigger] front[k]).row == rest[i].row && front[k].col
                        == rest[i].col;
                assert(spills[k] == front[k]);
                assert(place_before(spills[k].row, spills[k].col, spills[n].row, spills[n].col));
            }
        }
    }
}

fn clone_eval_out(v: &EvalValue, spilled: bool) -> (r: Option<Scalar>)
    ensures
        document::opt_scalar(r) == if spilled {
            spill_value_written(*v)
        } else {
            computed_written(*v)
        },
{
    match v {
        EvalValue::Number(Some(n)) => Some(Scalar::Number(n.clone())),
        EvalValue::Number(None) => if spilled {
            Some(Scalar::Other(text::lit("null")))
        } else {
            None
        },
        EvalValue::Text(t) => Some(Scalar::Text(t.clone())),
        EvalValue::Boolean(b) => Some(Scalar::Bool(*b)),
        EvalValue::Error(e) => Some(Scalar::Text(e.clone())),
        EvalValue::Empty => None,
    }
}

/// Whether a cell's content is a formula.
pub fn starts_formula(raw: &str) -> (r: bool)
    ensures
        r == is_formula(raw@),
{
    raw.unicode_len() > 0 && raw.get_char(0) == '='
}

fn cell_out(c: &SheetCell) -> (r: FullCell)
    ensures
        r@ == cell_written(*c),
{
    let formula_cell = starts_formula(c.raw.as_str());
    let value = if formula_cell {
        clone_eval_out(&c.computed, false)
    } else if c.raw.as_str().is_empty() {
        None
    } else {
        match &c.number {
            Some(Some(n)) => Some(Scalar::Number(n.clone())),
            Some(None) => None,
            None => Some(Scalar::Text(c.raw.clone())),
        }
    };
    let formula = if formula_cell {
        Some(c.raw.clone())
    } else {
        None
    };
    let fmt = if c.has_format {
        Some(document::format_out(&c.format))
    } else {
        None
    };
    FullCell {
        row: c.row,
        col: c.col,
        value,
        formula,
        fmt,
        stale_custom_fn: c.kept_uncomputable,
        spill_from: None,
    }
}

fn spill_cells_out(spills: &Vec<SpillCell>, out: &mut Vec<FullCell>)
    ensures
        document::cells_view(final(out)@) == document::cells_view(old(out)@) + spills_written(
            spills@,
        ),
{
    let ghost start = document::cells_view(out@);
    let mut i: usize = 0;
    assert(spills_written(spills@.take(0)) =~= Seq::empty());
    assert(start + Seq::<document::CellModel>::empty() =~= start);
    while i < spills.len()
        invariant
            i <= spills.len(),
            document::cells_view(out@) == start + spills_written(spills@.take(i as int)),
        decreases spills.len() - i,
    {
        let ghost before = out@;
        assert(spills@.take(i + 1).drop_last() =~= spills@.take(i as int));
        assert(spills@.take(i + 1).last() == spills@[i as int]);
        match spills[i].parent {
            None => {},
            Some(p) => {
                let cell = FullCell {
                    row: spills[i].row,
                    col: spills[i].col,
                    value: clone_eval_out(&spills[i].value, true),
                    formula: None,
                    fmt: None,
                    stale_custom_fn: false,
                    spill_from: Some(p),
                };
                let ghost m = cell@;
                out.push(cell);
                assert(document::cells_view(out@) =~= document::cells_view(before).push(m));
            },
        }
        i = i + 1;
        assert(document::cells_view(out@) =~= start + spills_written(spills@.take(i as int)));
    }
    assert(spills@.take(spills@.len() as int) =~= spills@);
}

/// The models of the cells so far, in order and each of one of the first `n`
/// cells.
spec fn partly_listed(out: Seq<document::CellModel>, cells: Seq<SheetCell>, n: int) -> bool {
    lists_cells(out, cells.take(n))
}

/// Put a cell into its place among cells that go row by row.
fn insert_in_order(out: &mut Vec<FullCell>, cell: FullCell, Ghost(cells): Ghost<Seq<SheetCell>>, Ghost(
    n,
): Ghost<int>)
    requires
        0 <= n < cells.len(),
        distinct_places(cells),
        partly_listed(document::cells_view(old(out)@), cells, n),
        is_written(cells[n]),
        cell@ == cell_written(cells[n]),
    ensures
        partly_listed(document::cells_view(final(out)@), cells, n + 1),
{
    let ghost view = document::cells_view(out@);
    let mut k: usize = out.len();
    while k > 0 && (cell.row < out[k - 1].row || (cell.row == out[k - 1].row && cell.col < out[k
        - 1].col))
        invariant
            k <= out@.len(),
            out@ == old(out)@,
            view == document::cells_view(out@),
            forall|j: int|
                k <= j < out@.len() ==> place_before(
                    cell.row,
                    cell.col,
                    (#[trigger] view[j]).row,
                    view[j].col,
                ),
        decreases k,
    {
        k = k - 1;
    }
    let ghost m = cell@;
    proof {
        assert forall|j: int| 0 <= j < k implies place_before(
            (#[trigger] view[j]).row,
            view[j].col,
            m.row,
            m.col,
        ) by {
            let before = cells.take(n);
            assert(comes_from(view[k - 1], before));
            let w = choose|w: int|
                0 <= w < before.len() && is_written(#[trigger] before[w]) && cell_written(before[w])
                    == view[k - 1];
            assert(cells.take(n)[w] == cells[w]);
            assert(!(cells[w].row == cells[n].row && cells[w].col == cells[n].col));
            assert(place_before(view[k - 1].row, view[k - 1].col, m.row, m.col));
        }
    }
    out.insert(k, cell);
    proof {
        let new = document::cells_view(out@);
        assert(new =~= view.insert(k as int, m));
        let before = cells.take(n);
        let after = cells.take(n + 1);
        assert forall|j: int| 0 <= j < after.len() && is_written(#[trigger] after[j]) implies new.contains(
            cell_written(after[j]),
        ) by {
            if j < n {
                assert(after[j] == before[j]);
                assert(view.contains(cell_written(before[j])));
                let w = choose|w: int| 0 <= w < view.len() && view[w] == cell_written(before[j]);
                if w < k {
                    assert(new[w] == view[w]);
                } else {
                    assert(new[w + 1] == view[w]);
                }
            } else {
                assert(new[k as int] == m);
            }
        }
        assert forall|i: int| 0 <= i < new.len() implies comes_from(#[trigger] new[i], after) by {
            if i == k {
                assert(after[n] == cells[n]);
            } else {
                let o = if i < k {
                    i
                } else {
                    i - 1
                };
                assert(new[i] == view[o]);
                assert(comes_from(view[o], before));
                let w = choose|w: int|
                    0 <= w < before.len() && is_written(#[trigger] before[w]) && cell_written(
                        before[w],
                    ) == view[o];
                assert(after[w] == before[w]);
            }
        }
        assert forall|i: int, j: int| 0 <= i < j < new.len() implies place_before(
            (#[trigger] new[i]).row,
            new[i].col,
            (#[trigger] new[j]).row,
            new[j].col,
        ) by {
            let oi = if i < k {
                i
            } else {
                i - 1
            };
            let oj = if j < k {
                j
            } else {
                j - 1
            };
            if i != k {
                assert(new[i] == view[oi]);
            }
            if j != k {
                assert(new[j] == view[oj]);
            }
        }
    }
}

fn written_cells(cells: &Vec<SheetCell>) -> (out: Vec<FullCell>)
    requires
        distinct_places(cells@),
    ensures
        lists_cells(document::cells_view(out@), cells@),
{
    let mut out: Vec<FullCell> = Vec::new();
    let mut i: usize = 0;
    while i < cells.len()
        invariant
            i <= cells.len(),
            distinct_places(cells@),
            partly_listed(document::cells_view(out@), cells@, i as int),
        decreases cells.len() - i,
    {
        if !cells[i].raw.as_str().is_empty() || cells[i].has_format {
            let cell = cell_out(&cells[i]);
            insert_in_order(&mut out, cell, Ghost(cells@), Ghost(i as int));
        } else {
            proof {
                let view = document::cells_view(out@);
                let before = cells@.take(i as int);
                let after = cells@.take(i + 1);
                assert forall|j: int|
                    0 <= j < after.len() && is_written(#[trigger] after[j]) implies view.contains(
                    cell_written(after[j]),
                ) by {
                    assert(after[j] == before[j]);
                }
                assert forall|q: int| 0 <= q < view.len() implies comes_from(
                    #[trigger] view[q],
                    after,
                ) by {
                    assert(comes_from(view[q], before));
                    let w = choose|w: int|
                        0 <= w < before.len() && is_written(#[trigger] before[w]) && cell_written(
                            before[w],
                        ) == view[q];
                    assert(after[w] == before[w]);
                }
            }
        }
        i = i + 1;
    }
    assert(cells@.take(cells@.len() as int) =~= cells@);
    out
}

// ---------------------------------------------------------------------------
// Sizes keyed by text
// ---------------------------------------------------------------------------

/// `v` holds the entries of `m`, by ascending key, the keys in decimal.
pub open spec fn sizes_written(v: Seq<(Seq<char>, u32)>, m: Map<usize, u32>) -> bool {
    exists|l: Seq<(usize, u32)>| #[trigger] collections::lists_map(l, m) && v == decimal_keys(l)
}

pub open spec fn decimal_keys(l: Seq<(usize, u32)>) -> Seq<(Seq<char>, u32)> {
    l.map_values(|p: (usize, u32)| (text::dec(p.0 as nat), p.1))
}

/// The sizes that a list of text keys stands for: keys that read as a
/// position, a later entry over an earlier one.
pub open spec fn sizes_read(v: Seq<(Seq<char>, u32)>) -> Map<usize, u32>
    decreases v.len(),
{
    if v.len() == 0 {
        Map::empty()
    } else {
        let rest = sizes_read(v.drop_last());
        match text::position_of(v.last().0) {
            Some(k) => rest.insert(k, v.last().1),
            None => rest,
        }
    }
}

/// Sizes with their keys in decimal.
pub fn keys_to_string(m: &BTreeMap<usize, u32>) -> (r: Vec<(String, u32)>)
    ensures
        sizes_written(document::sizes_view(r@), m@),
{
    let l = collections::map_entries(m);
    let mut r: Vec<(String, u32)> = Vec::new();
    let mut i: usize = 0;
    while i < l.len()
        invariant
            i <= l.len(),
            r@.len() == i,
            forall|j: int|
                0 <= j < i ==> (#[trigger] r@[j]).0@ == text::dec(l@[j].0 as nat) && r@[j].1
                    == l@[j].1,
        decreases l.len() - i,
    {
        r.push((text::decimal(l[i].0 as u64), l[i].1));
        i = i + 1;
    }
    proof {
        assert(document::sizes_view(r@) =~= decimal_keys(l@));
    }
    r
}

/// Sizes under the positions that their keys read as.
pub fn keys_to_usize(v: &Vec<(String, u32)>) -> (r: BTreeMap<usize, u32>)
    ensures
        r@ == sizes_read(document::sizes_view(v@)),
{
    let mut r: BTreeMap<usize, u32> = BTreeMap::new();
    let mut i: usize = 0;
    let ghost view = document::sizes_view(v@);
    assert(view.take(0) =~= Seq::empty());
    while i < v.len()
        invariant
            i <= v.len(),
            view == document::sizes_view(v@),
            r@ == sizes_read(view.take(i as int)),
        decreases v.len() - i,
    {
        assert(view.take(i + 1).drop_last() =~= view.take(i as int));
        assert(view.take(i + 1).last() == (v@[i as int].0@, v@[i as int].1));
        match text::parse_position(v[i].0.as_str()) {
            Some(k) => {
                collections::map_insert(&mut r, k, v[i].1);
            },
            None => {},
        }
        i = i + 1;
    }
    assert(view.take(view.len() as int) =~= view);
    r
}

fn to_set(v: &Vec<usize>) -> (r: BTreeSet<usize>)
    ensures
        r@ == v@.to_set(),
{
    let mut r: BTreeSet<usize> = BTreeSet::new();
    let mut i: usize = 0;
    assert(v@.take(0).to_set() =~= Set::empty());
    while i < v.len()
        invariant
            i <= v.len(),
            r@ == v@.take(i as int).to_set(),
        decreases v.len() - i,
    {
        let ghost before = r@;
        collections::set_insert(&mut r, v[i]);
        proof {
            let a = v@.take(i as int);
            let b = v@.take(i + 1);
            assert forall|k: usize| b.to_set().contains(k) <==> r@.contains(k) by {
                if b.contains(k) {
                    let j = choose|j: int| 0 <= j < b.len() && b[j] == k;
                    if j < i {
                        assert(a[j] == k);
                        assert(a.contains(k));
                    }
                }
                if a.contains(k) {
                    let j = choose|j: int| 0 <= j < a.len() && a[j] == k;
                    assert(b[j] == k);
                }
                assert(b[i as int] == v@[i as int]);
            }
            assert(r@ =~= b.to_set());
        }
        i = i + 1;
    }
    assert(v@.take(v@.len() as int) =~= v@);
    r
}

// ---------------------------------------------------------------------------
// A sheet as a document holds it
// ---------------------------------------------------------------------------

/// `body` is what a document holds of a sheet and its layout.
pub open spec fn body_written(body: SheetBody, sheet: Sheet, l: layout::LayoutModel) -> bool {
    &&& body.name@ == sheet.name@
    &&& text::opt_text(body.tab_color) == document::color_out(sheet.tab_color)
    &&& all_cells_written(document::cells_view(body.cells@), sheet)
    &&& body.merges@ == sheet.merged_regions@
    &&& sizes_written(document::sizes_view(body.col_widths@), l.col_widths)
    &&& sizes_written(document::sizes_view(body.row_heights@), l.row_heights)
    &&& collections::lists_set(body.hidden_rows@, l.hidden_rows)
    &&& collections::lists_set(body.hidden_cols@, l.hidden_cols)
    &&& body.frozen_rows == l.frozen_rows
    &&& body.frozen_cols == l.frozen_cols
    &&& text::opt_text(body.cond_formats) == text::opt_text(sheet.cond_formats)
    &&& document::validations_view(body.validations@) == document::validations_view(
        sheet.validations@,
    )
    &&& layout::filter_model(body.filter) == l.filter
    &&& layout::charts_model(body.charts) == l.charts
}

fn clone_merges(m: &Vec<MergeSpec>) -> (r: Vec<MergeSpec>)
    ensures
        r@ == m@,
{
    let mut r: Vec<MergeSpec> = Vec::new();
    let mut i: usize = 0;
    while i < m.len()
        invariant
            i <= m.len(),
            r@ == m@.take(i as int),
        decreases m.len() - i,
    {
        r.push(m[i]);
        i = i + 1;
        assert(r@ =~= m@.take(i as int));
    }
    assert(m@.take(m@.len() as int) =~= m@);
    r
}

fn clone_validations(v: &Vec<ValidationSpec>) -> (r: Vec<ValidationSpec>)
    ensures
        document::validations_view(r@) == document::validations_view(v@),
{
    let mut r: Vec<ValidationSpec> = Vec::new();
    let mut i: usize = 0;
    while i < v.len()
        invariant
            i <= v.len(),
            r@.len() == i,
            forall|j: int| 0 <= j < i ==> #[trigger] r@[j] == v@[j],
        decreases v.len() - i,
    {
        r.push(ValidationSpec { range: v[i].range, rule: v[i].rule.clone() });
        i = i + 1;
    }
    assert(r@ =~= v@);
    r
}

/// What a document holds of a sheet and its layout.
pub fn sheet_body(sheet: &Sheet, l: &SheetLayout) -> (body: SheetBody)
    requires
        sheet.wf(),
    ensures
        body_written(body, *sheet, l@),
{
    let mut cells = written_cells(&sheet.cells);
    let ghost front = document::cells_view(cells@);
    spill_cells_out(&sheet.spills, &mut cells);
    proof {
        let all = document::cells_view(cells@);
        let spills = spills_written(sheet.spills@);
        let n = all.len() - spills.len();
        assert(all.take(n) =~= front);
        assert(all.skip(n) =~= spills);
        lemma_spills_in_order(sheet.spills@);
    }
    let tab_color = match sheet.tab_color {
        Some(c) => Some(color::hex(c)),
        None => None,
    };
    SheetBody {
        name: sheet.name.clone(),
        cells,
        merges: clone_merges(&sheet.merged_regions),
        col_widths: keys_to_string(&l.col_widths),
        row_heights: keys_to_string(&l.row_heights),
        hidden_rows: collections::set_items(&l.hidden_rows),
        hidden_cols: collections::set_items(&l.hidden_cols),
        tab_color,
        frozen_rows: l.frozen_rows,
        frozen_cols: l.frozen_cols,
        cond_formats: document::clone_text(&sheet.cond_formats),
        validations: clone_validations(&sheet.validations),
        filter: layout::clone_filter(&l.filter),
        charts: layout::clone_charts(&l.charts),
    }
}

// ---------------------------------------------------------------------------
// A document sheet on its way in
// ---------------------------------------------------------------------------

/// One step in building an engine sheet from a document.
#[derive(Debug, PartialEq, Eq)]
pub enum SheetOp {
    SetName(String),
    SetTabColor(Option<Rgba>),
    /// Type content into a cell; what it comes to is computed later.
    SetDeferred(usize, usize, String),
    /// Put text into a cell that stays text whatever it reads like.
    SetText(usize, usize, String),
    /// Lay a format over the cell's own.
    SetFormat(usize, usize, FullFormat),
    AddMerge(MergeSpec),
    SetCondFormats(String),
    SetValidation(CellRange, String),
}

#[verifier::ext_equal]
pub enum OpModel {
    SetName(Seq<char>),
    SetTabColor(Option<Rgba>),
    SetDeferred(usize, usize, Seq<char>),
    SetText(usize, usize, Seq<char>),
    SetFormat(usize, usize, document::FormatModel),
    AddMerge(MergeSpec),
    SetCondFormats(Seq<char>),
    SetValidation(CellRange, Seq<char>),
}

impl View for SheetOp {
    type V = OpModel;

    open spec fn view(&self) -> OpModel {
        match self {
            SheetOp::SetName(n) => OpModel::SetName(n@),
            SheetOp::SetTabColor(c) => OpModel::SetTabColor(*c),
            SheetOp::SetDeferred(r, c, t) => OpModel::SetDeferred(*r, *c, t@),
            SheetOp::SetText(r, c, t) => OpModel::SetText(*r, *c, t@),
            SheetOp::SetFormat(r, c, f) => OpModel::SetFormat(*r, *c, f@),
            SheetOp::AddMerge(m) => OpModel::AddMerge(*m),
            SheetOp::SetCondFormats(t) => OpModel::SetCondFormats(t@),
            SheetOp::SetValidation(r, t) => OpModel::SetValidation(*r, t@),
        }
    }
}

pub open spec fn ops_view(ops: Seq<SheetOp>) -> Seq<OpModel> {
    ops.map_values(|o: SheetOp| o@)
}

/// The tab colour that a document's text stands for.
pub open spec fn tab_color_read(t: Option<Seq<char>>) -> Option<Rgba> {
    match t {
        Some(s) => color::rgb_of(s),
        None => None,
    }
}

/// A sheet with a name takes it and its tab colour; one without is numbered,
/// but for the first, which keeps the name it has.
pub open spec fn name_ops(name: Seq<char>, tab: Option<Seq<char>>, index: nat) -> Seq<OpModel> {
    if name.len() > 0 {
        seq![OpModel::SetName(name), OpModel::SetTabColor(tab_color_read(tab))]
    } else if index > 0 {
        seq![OpModel::SetName("Sheet"@ + text::dec(index + 1))]
    } else {
        Seq::empty()
    }
}

/// How the content of a cell is put in: a formula over a value, quoted text as
/// text, anything else as if it were typed.
pub open spec fn content_ops(c: document::CellModel) -> Seq<OpModel> {
    match c.formula {
        Some(f) => seq![OpModel::SetDeferred(c.row, c.col, f)],
        None => match c.value {
            Some(document::ScalarModel::Text(t)) => seq![OpModel::SetText(c.row, c.col, t)],
            Some(document::ScalarModel::Number(n)) => seq![OpModel::SetDeferred(c.row, c.col, n)],
            Some(document::ScalarModel::Bool(b)) => seq![
                OpModel::SetDeferred(
                    c.row,
                    c.col,
                    if b {
                        "TRUE"@
                    } else {
                        "FALSE"@
                    },
                ),
            ],
            Some(document::ScalarModel::Other(o)) => seq![OpModel::SetDeferred(c.row, c.col, o)],
            None => Seq::empty(),
        },
    }
}

pub open spec fn format_ops(c: document::CellModel) -> Seq<OpModel> {
    match c.fmt {
        Some(f) => seq![OpModel::SetFormat(c.row, c.col, f)],
        None => Seq::empty(),
    }
}

/// How a cell is put in. A cell that a formula spilled into is not: it would
/// stand in the way of the spill.
pub open spec fn cell_ops(c: document::CellModel) -> Seq<OpModel> {
    if c.spill_from is Some {
        Seq::empty()
    } else {
        content_ops(c) + format_ops(c)
    }
}

pub open spec fn cells_ops(cells: Seq<document::CellModel>) -> Seq<OpModel>
    decreases cells.len(),
{
    if cells.len() == 0 {
        Seq::empty()
    } else {
        cells_ops(cells.drop_last()) + cell_ops(cells.last())
    }
}

pub open spec fn merge_ops(m: Seq<MergeSpec>) -> Seq<OpModel> {
    m.map_values(|x: MergeSpec| OpModel::AddMerge(x))
}

pub open spec fn cond_ops(c: Option<Seq<char>>) -> Seq<OpModel> {
    match c {
        Some(t) => seq![OpModel::SetCondFormats(t)],
        None => Seq::empty(),
    }
}

pub open spec fn validation_ops(v: Seq<(CellRange, Seq<char>)>) -> Seq<OpModel> {
    v.map_values(|x: (CellRange, Seq<char>)| OpModel::SetValidation(x.0, x.1))
}

/// All steps that build the sheet of a document.
pub open spec fn body_ops(body: SheetBody, index: nat) -> Seq<OpModel> {
    name_ops(body.name@, text::opt_text(body.tab_color), index) + cells_ops(
        document::cells_view(body.cells@),
    ) + merge_ops(body.merges@) + cond_ops(text::opt_text(body.cond_formats)) + validation_ops(
        document::validations_view(body.validations@),
    )
}

/// A quoted value that reads as a number.
pub open spec fn is_quoted_number(c: document::CellModel) -> bool {
    &&& c.spill_from is None
    &&& c.formula is None
    &&& c.value matches Some(document::ScalarModel::Text(t)) && t.len() > 0
        && text::is_number_text(t)
}

pub open spec fn quoted_numbers(cells: Seq<document::CellModel>) -> nat
    decreases cells.len(),
{
    if cells.len() == 0 {
        0
    } else {
        quoted_numbers(cells.drop_last()) + if is_quoted_number(cells.last()) {
            1nat
        } else {
            0nat
        }
    }
}

/// The layout that a document holds for a sheet.
pub open spec fn layout_read(body: SheetBody) -> layout::LayoutModel {
    layout::LayoutModel {
        col_widths: sizes_read(document::sizes_view(body.col_widths@)),
        row_heights: sizes_read(document::sizes_view(body.row_heights@)),
        frozen_rows: body.frozen_rows,
        frozen_cols: body.frozen_cols,
        hidden_rows: body.hidden_rows@.to_set(),
        hidden_cols: body.hidden_cols@.to_set(),
        filter: layout::filter_model(body.filter),
        charts: layout::charts_model(body.charts),
    }
}

/// The rows and columns of a sheet that is read from a document.
pub const SHEET_ROWS: usize = 65536;

pub const SHEET_COLS: usize = 256;

/// A sheet read from a document: the steps that build it, its layout, and how
/// many of its texts read as numbers.
#[derive(Debug, PartialEq, Eq)]
pub struct AppliedBody {
    /// The number of the sheet, and how many rows and columns it has.
    pub id: u64,
    pub rows: usize,
    pub cols: usize,
    pub ops: Vec<SheetOp>,
    pub layout: SheetLayout,
    pub quoted_numerics: usize,
}

/// `a` is what reading the sheet gives.
pub open spec fn body_applied(a: AppliedBody, body: SheetBody, index: nat) -> bool {
    &&& a.rows == SHEET_ROWS && a.cols == SHEET_COLS
    &&& ops_view(a.ops@) == body_ops(body, index)
    &&& a.layout@ == layout_read(body)
    &&& a.quoted_numerics == quoted_numbers(document::cells_view(body.cells@))
}

/// The sheet's conditional formats are there and do not read.
pub open spec fn cond_fails(body: SheetBody, cond_error: Option<String>) -> bool {
    body.cond_formats is Some && cond_error is Some
}

pub open spec fn cond_message(body: SheetBody, cond_error: Option<String>) -> Seq<char> {
    "sheet "@ + text::debug_quoted(body.name@) + ": invalid cond_formats: "@ + cond_error->0@
}

fn clone_border(b: &Option<document::FullBorder>) -> (r: Option<document::FullBorder>)
    ensures
        document::opt_border(r) == document::opt_border(*b),
{
    match b {
        None => None,
        Some(x) => Some(
            document::FullBorder {
                style: x.style.clone(),
                color: document::clone_text(&x.color),
            },
        ),
    }
}

fn clone_format(f: &FullFormat) -> (r: FullFormat)
    ensures
        r@ == f@,
{
    let borders = match &f.borders {
        None => None,
        Some(b) => Some(
            document::FullBorders {
                top: clone_border(&b.top),
                right: clone_border(&b.right),
                bottom: clone_border(&b.bottom),
                left: clone_border(&b.left),
            },
        ),
    };
    FullFormat {
        bold: f.bold,
        italic: f.italic,
        underline: f.underline,
        strikethrough: f.strikethrough,
        fg: document::clone_text(&f.fg),
        bg: document::clone_text(&f.bg),
        style: document::clone_text(&f.style),
        align: document::clone_text(&f.align),
        valign: document::clone_text(&f.valign),
        font: document::clone_text(&f.font),
        size: f.size,
        number_format: document::clone_text(&f.number_format),
        overflow: document::clone_text(&f.overflow),
        borders,
    }
}

fn push_op(ops: &mut Vec<SheetOp>, op: SheetOp)
    ensures
        ops_view(final(ops)@) == ops_view(old(ops)@) + seq![op@],
{
    let ghost m = op@;
    ops.push(op);
    assert(ops_view(ops@) =~= ops_view(old(ops)@) + seq![m]);
}

fn push_name_ops(ops: &mut Vec<SheetOp>, body: &SheetBody, index: usize)
    requires
        index < usize::MAX,
    ensures
        ops_view(final(ops)@) == ops_view(old(ops)@) + name_ops(
            body.name@,
            text::opt_text(body.tab_color),
            index as nat,
        ),
{
    let ghost start = ops_view(ops@);
    if !body.name.as_str().is_empty() {
        let tab = match &body.tab_color {
            Some(t) => color::parse_hex_rgb(t.as_str()),
            None => None,
        };
        push_op(ops, SheetOp::SetName(body.name.clone()));
        push_op(ops, SheetOp::SetTabColor(tab));
        assert(ops_view(ops@) =~= start + name_ops(
            body.name@,
            text::opt_text(body.tab_color),
            index as nat,
        ));
    } else if index > 0 {
        let mut name = text::lit("Sheet");
        let number = text::decimal(index as u64 + 1);
        name.append(number.as_str());
        push_op(ops, SheetOp::SetName(name));
    } else {
        assert(ops_view(ops@) =~= start + Seq::<OpModel>::empty());
    }
}

fn push_cell_ops(ops: &mut Vec<SheetOp>, c: &FullCell)
    ensures
        ops_view(final(ops)@) == ops_view(old(ops)@) + cell_ops(c@),
{
    let ghost start = ops_view(ops@);
    if c.spill_from.is_some() {
        assert(ops_view(ops@) =~= start + Seq::<OpModel>::empty());
        return;
    }
    match &c.formula {
        Some(f) => {
            push_op(ops, SheetOp::SetDeferred(c.row, c.col, f.clone()));
        },
        None => match &c.value {
            Some(Scalar::Text(t)) => {
                push_op(ops, SheetOp::SetText(c.row, c.col, t.clone()));
            },
            Some(Scalar::Number(n)) => {
                push_op(ops, SheetOp::SetDeferred(c.row, c.col, n.clone()));
            },
            Some(Scalar::Bool(b)) => {
                let t = if *b {
                    text::lit("TRUE")
                } else {
                    text::lit("FALSE")
                };
                push_op(ops, SheetOp::SetDeferred(c.row, c.col, t));
            },
            Some(Scalar::Other(o)) => {
                push_op(ops, SheetOp::SetDeferred(c.row, c.col, o.clone()));
            },
            None => {},
        },
    }
    assert(ops_view(ops@) =~= start + content_ops(c@));
    match &c.fmt {
        Some(f) => {
            push_op(ops, SheetOp::SetFormat(c.row, c.col, clone_format(f)));
        },
        None => {},
    }
    assert(ops_view(ops@) =~= start + cell_ops(c@));
}

fn quoted_number(c: &FullCell) -> (r: bool)
    ensures
        r == is_quoted_number(c@),
{
    if c.spill_from.is_some() || c.formula.is_some() {
        return false;
    }
    match &c.value {
        Some(Scalar::Text(t)) => !t.as_str().is_empty() && text::reads_as_number(t.as_str()),
        _ => false,
    }
}

/// Read one sheet of a document, which gets the number `id`. `cond_error` is what the engine has to say
/// against the sheet's conditional formats, where it cannot read them: that
/// fails the whole sheet, so that no rule is lost in silence.
pub fn apply_body(body: &SheetBody, id: u64, index: usize, cond_error: &Option<String>) -> (r: Result<
    AppliedBody,
    String,
>)
    requires
        index < usize::MAX,
    ensures
        match r {
            Ok(a) => !cond_fails(*body, *cond_error) && a.id == id && body_applied(
                a,
                *body,
                index as nat,
            ),
            Err(e) => cond_fails(*body, *cond_error) && e@ == cond_message(*body, *cond_error),
        },
{
    let mut ops: Vec<SheetOp> = Vec::new();
    let mut quoted: usize = 0;
    push_name_ops(&mut ops, body, index);
    let ghost named = name_ops(body.name@, text::opt_text(body.tab_color), index as nat);
    let ghost cells = document::cells_view(body.cells@);
    proof {
        assert(ops_view(ops@) =~= named);
        assert(cells.take(0) =~= Seq::empty());
        assert(ops_view(ops@) =~= named + cells_ops(cells.take(0)));
    }
    let mut i: usize = 0;
    while i < body.cells.len()
        invariant
            i <= body.cells.len(),
            cells == document::cells_view(body.cells@),
            ops_view(ops@) == named + cells_ops(cells.take(i as int)),
            quoted == quoted_numbers(cells.take(i as int)),
            quoted <= i,
        decreases body.cells.len() - i,
    {
        assert(cells.take(i + 1).drop_last() =~= cells.take(i as int));
        assert(cells.take(i + 1).last() == body.cells@[i as int]@);
        push_cell_ops(&mut ops, &body.cells[i]);
        if quoted_number(&body.cells[i]) {
            quoted = quoted + 1;
        }
        i = i + 1;
        assert(ops_view(ops@) =~= named + cells_ops(cells.take(i as int)));
    }
    let ghost with_cells = named + cells_ops(cells);
    assert(cells.take(cells.len() as int) =~= cells);
    let mut j: usize = 0;
    assert(ops_view(ops@) =~= with_cells + merge_ops(body.merges@.take(0)));
    while j < body.merges.len()
        invariant
            j <= body.merges.len(),
            ops_view(ops@) == with_cells + merge_ops(body.merges@.take(j as int)),
        decreases body.merges.len() - j,
    {
        push_op(&mut ops, SheetOp::AddMerge(body.merges[j]));
        j = j + 1;
        assert(ops_view(ops@) =~= with_cells + merge_ops(body.merges@.take(j as int)));
    }
    assert(body.merges@.take(body.merges@.len() as int) =~= body.merges@);
    let ghost with_merges = with_cells + merge_ops(body.merges@);
    match &body.cond_formats {
        Some(cf) => {
            match cond_error {
                Some(e) => {
                    let mut m = text::lit("sheet ");
                    let q = text::debug_quote(body.name.as_str());
                    m.append(q.as_str());
                    m.append(": invalid cond_formats: ");
                    m.append(e.as_str());
                    return Err(m);
                },
                None => {
                    push_op(&mut ops, SheetOp::SetCondFormats(cf.clone()));
                },
            }
        },
        None => {
            assert(ops_view(ops@) =~= with_merges + Seq::<OpModel>::empty());
        },
    }
    let ghost with_cond = with_merges + cond_ops(text::opt_text(body.cond_formats));
    let ghost rules = document::validations_view(body.validations@);
    let mut k: usize = 0;
    assert(ops_view(ops@) =~= with_cond + validation_ops(rules.take(0)));
    while k < body.validations.len()
        invariant
            k <= body.validations.len(),
            rules == document::validations_view(body.validations@),
            ops_view(ops@) == with_cond + validation_ops(rules.take(k as int)),
        decreases body.validations.len() - k,
    {
        push_op(
            &mut ops,
            SheetOp::SetValidation(body.validations[k].range, body.validations[k].rule.clone()),
        );
        k = k + 1;
        assert(ops_view(ops@) =~= with_cond + validation_ops(rules.take(k as int)));
    }
    assert(rules.take(rules.len() as int) =~= rules);
    let layout = SheetLayout {
        col_widths: keys_to_usize(&body.col_widths),
        row_heights: keys_to_usize(&body.row_heights),
        frozen_rows: body.frozen_rows,
        frozen_cols: body.frozen_cols,
        hidden_rows: to_set(&body.hidden_rows),
        hidden_cols: to_set(&body.hidden_cols),
        filter: layout::clone_filter(&body.filter),
        charts: layout::clone_charts(&body.charts),
    };
    Ok(
        AppliedBody {
            id,
            rows: SHEET_ROWS,
            cols: SHEET_COLS,
            ops,
            layout,
            quoted_numerics: quoted,
        },
    )
}

/// What is said about quoted values that read as numbers, where there are any.
pub fn quoted_notice(count: usize, name: &str) -> (r: Option<String>)
    ensures
        match r {
            None => count == 0,
            Some(m) => count > 0 && m@ == "[JSON import] "@ + text::dec(count as nat)
                + " quoted value(s) in "@ + text::debug_quoted(name@)
                + " read as numbers and were kept as text (a quoted value is text in visigrid-json)"@,
        },
{
    if count == 0 {
        return None;
    }
    let mut m = text::lit("[JSON import] ");
    let n = text::decimal(count as u64);
    m.append(n.as_str());
    m.append(" quoted value(s) in ");
    let q = text::debug_quote(name);
    m.append(q.as_str());
    m.append(" read as numbers and were kept as text (a quoted value is text in visigrid-json)");
    Some(m)
}

} // verus!
