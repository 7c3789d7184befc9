//! The sizes of all sheets as files hold them: they are put together for a
//! save or an export, and taken over from a file that was loaded or imported.

use std::collections::{BTreeMap, BTreeSet};

use vstd::prelude::*;

use crate::cloud::NativeLayout;
use crate::collections;
use crate::fitting::CellSpan;
use crate::sizes;
use crate::sizes::{DimsModel, SheetDims, SizeState};
use crate::state::Spreadsheet;

verus! {

/// The sizes that a native file holds for the sheet at `i`.
pub open spec fn native_at(n: NativeLayout, i: usize) -> DimsModel {
    DimsModel {
        col_widths: if n.col_widths@.contains_key(i) {
            n.col_widths@[i]@
        } else {
            Map::empty()
        },
        row_heights: if n.row_heights@.contains_key(i) {
            n.row_heights@[i]@
        } else {
            Map::empty()
        },
        hidden_rows: if n.hidden_rows@.contains_key(i) {
            n.hidden_rows@[i]@
        } else {
            Set::empty()
        },
        hidden_cols: if n.hidden_cols@.contains_key(i) {
            n.hidden_cols@[i]@
        } else {
            Set::empty()
        },
    }
}

/// The file holds `d` for the sheet at `i`.
pub open spec fn native_keeps(n: NativeLayout, i: usize, d: DimsModel) -> bool {
    n.keeps(i, d.col_widths, d.row_heights, d.hidden_rows, d.hidden_cols)
}

/// A native file holds the sizes of the sheets `ids`, and of no others.
pub open spec fn layout_built(n: NativeLayout, s: SizeState, ids: Seq<u64>) -> bool {
    &&& n.ends_at(ids.len() as int)
    &&& forall|i: int|
        0 <= i < ids.len() ==> native_keeps(n, i as usize, s.at(#[trigger] ids[i]))
}

/// The sheets `ids` have the sizes that a native file holds, and no sheet has others.
pub open spec fn layout_applied(
    old: SizeState,
    new: SizeState,
    layout: NativeLayout,
    ids: Seq<u64>,
) -> bool {
    &&& new == (SizeState { sheets: new.sheets, ..old })
    &&& forall|i: int|
        0 <= i < ids.len() ==> new.at(#[trigger] ids[i]) == native_at(layout, i as usize)
    &&& forall|id: u64| !ids.contains(id) ==> #[trigger] new.at(id) == sizes::no_dims()
}

impl Spreadsheet {
    /// The sizes of the sheets `ids` of the workbook, as a native file holds
    /// them.
    pub fn build_sheet_layout(&self, ids: &Vec<u64>) -> (n: NativeLayout)
        ensures
            layout_built(n, self.sizes, ids@),
    {
        let mut n = NativeLayout::new();
        let no_sizes: BTreeMap<usize, u32> = BTreeMap::new();
        let no_lines: BTreeSet<usize> = BTreeSet::new();
        let mut i: usize = 0;
        while i < ids.len()
            invariant
                i <= ids@.len(),
                no_sizes@ == Map::<usize, u32>::empty(),
                no_lines@ == Set::<usize>::empty(),
                n.ends_at(i as int),
                forall|k: int|
                    0 <= k < i ==> native_keeps(n, k as usize, self.sizes.at(#[trigger] ids@[k])),
            decreases ids@.len() - i,
        {
            let ghost before = n;
            let place = self.sizes.position(ids[i]);
            if place < self.sizes.sheets.len() {
                let d = &self.sizes.sheets[place];
                n.put(i, &d.col_widths, &d.row_heights, &d.hidden_rows, &d.hidden_cols);
            } else {
                n.put(i, &no_sizes, &no_sizes, &no_lines, &no_lines);
            }
            proof {
                assert forall|k: int| 0 <= k < i + 1 implies native_keeps(
                    n,
                    k as usize,
                    self.sizes.at(#[trigger] ids@[k]),
                ) by {
                    if k < i {
                        assert(native_keeps(before, k as usize, self.sizes.at(ids@[k])));
                    }
                }
            }
            i = i + 1;
        }
        n
    }

    /// The sheets have the sizes that a native file holds, and no others;
    /// `ids` are the sheets of the workbook.
    pub fn apply_sheet_layout(&mut self, layout: &NativeLayout, ids: &Vec<u64>)
        requires
            ids@.no_duplicates(),
        ensures
            *final(self) == (Spreadsheet { sizes: final(self).sizes, ..*old(self) }),
            layout_applied(old(self).sizes, final(self).sizes, *layout, ids@),
    {
        let mut sheets: Vec<SheetDims> = Vec::new();
        let mut i: usize = 0;
        while i < ids.len()
            invariant
                i <= ids@.len(),
                sheets@.len() == i,
                forall|k: int|
                    0 <= k < i ==> (#[trigger] sheets@[k]).id == ids@[k] && sheets@[k]@
                        == native_at(*layout, k as usize),
            decreases ids@.len() - i,
        {
            let d = SheetDims {
                id: ids[i],
                col_widths: collections::sizes_or_none(&layout.col_widths, i),
                row_heights: collections::sizes_or_none(&layout.row_heights, i),
                hidden_rows: collections::lines_or_none(&layout.hidden_rows, i),
                hidden_cols: collections::lines_or_none(&layout.hidden_cols, i),
            };
            assert(d@ =~= native_at(*layout, i));
            sheets.push(d);
            i = i + 1;
        }
        self.sizes.sheets = sheets;
        proof {
            let v = self.sizes.sheets@;
            assert forall|k: int| 0 <= k < ids@.len() implies self.sizes.at(#[trigger] ids@[k])
                == native_at(*layout, k as usize) by {
                assert(v[k].id == ids@[k]);
                assert forall|j: int| 0 <= j < k implies (#[trigger] v[j]).id != ids@[k] by {
                    assert(v[j].id == ids@[j]);
                }
                assert(sizes::first_place(v, ids@[k], k));
                sizes::lemma_place(v, ids@[k], k);
            }
            assert forall|id: u64| !ids@.contains(id) implies #[trigger] self.sizes.at(id)
                == sizes::no_dims() by {
                assert forall|j: int| 0 <= j < v.len() implies (#[trigger] v[j]).id != id by {
                    assert(v[j].id == ids@[j]);
                }
                assert(sizes::first_place(v, id, v.len() as int));
                sizes::lemma_place(v, id, v.len() as int);
            }
        }
    }

    /// All columns and rows have the usual size; what is hidden stays hidden.
    pub fn clear_sizes(&mut self)
        ensures
            *final(self) == (Spreadsheet { sizes: final(self).sizes, ..*old(self) }),
            sizes_cleared(old(self).sizes, final(self).sizes),
    {
        let ghost before = self.sizes;
        let mut i: usize = 0;
        let n = self.sizes.sheets.len();
        while i < n
            invariant
                i <= n,
                n == before.sheets@.len(),
                self.sizes.sheets@.len() == n,
                *self == (Spreadsheet { sizes: self.sizes, ..*old(self) }),
                self.sizes == (SizeState { sheets: self.sizes.sheets, ..before }),
                forall|k: int|
                    0 <= k < n ==> (#[trigger] self.sizes.sheets@[k]).id == before.sheets@[k].id,
                forall|k: int|
                    i <= k < n ==> #[trigger] self.sizes.sheets@[k] == before.sheets@[k],
                forall|k: int|
                    0 <= k < i ==> (#[trigger] self.sizes.sheets@[k])@ == hidden_only(
                        before.sheets@[k]@,
                    ),
            decreases n - i,
        {
            self.sizes.sheets[i].col_widths = BTreeMap::new();
            self.sizes.sheets[i].row_heights = BTreeMap::new();
            assert(self.sizes.sheets@[i as int]@ =~= hidden_only(before.sheets@[i as int]@));
            i = i + 1;
        }
        proof {
            let v = self.sizes.sheets@;
            assert forall|id: u64| #[trigger] self.sizes.at(id) == hidden_only(before.at(id)) by {
                let k = sizes::lemma_some_place(before.sheets@, id);
                assert(sizes::first_place(v, id, k));
                sizes::lemma_place(before.sheets@, id, k);
                sizes::lemma_place(v, id, k);
                assert(hidden_only(sizes::no_dims()) =~= sizes::no_dims());
            }
        }
    }
}

/// Sizes with only what is hidden left.
pub open spec fn hidden_only(d: DimsModel) -> DimsModel {
    DimsModel { col_widths: Map::empty(), row_heights: Map::empty(), ..d }
}

/// All columns and rows have the usual size; what is hidden stays hidden.
pub open spec fn sizes_cleared(old: SizeState, new: SizeState) -> bool {
    &&& new == (SizeState { sheets: new.sheets, ..old })
    &&& forall|id: u64| #[trigger] new.at(id) == hidden_only(old.at(id))
}

// ---------------------------------------------------------------------------
// Imports
// ---------------------------------------------------------------------------

/// The sizes of one sheet of an imported file, in pixels.
#[derive(Debug, PartialEq, Eq)]
pub struct ImportedLayout {
    pub col_widths: BTreeMap<usize, u32>,
    pub row_heights: BTreeMap<usize, u32>,
    pub hidden_rows: BTreeSet<usize>,
    pub hidden_cols: BTreeSet<usize>,
}

/// Old widths with imported ones over them; an imported width that is about
/// the usual one leaves the old one.
pub open spec fn widths_over(old: Map<usize, u32>, imported: Map<usize, u32>, new: Map<usize, u32>) -> bool {
    forall|c: usize| #[trigger]
        sizes::lookup(new, c) == if imported.contains_key(c) && sizes::kept_width(
            imported[c],
        ) is Some {
            sizes::kept_width(imported[c])
        } else {
            sizes::lookup(old, c)
        }
}

/// Old heights with imported ones over them.
pub open spec fn heights_over(old: Map<usize, u32>, imported: Map<usize, u32>, new: Map<usize, u32>) -> bool {
    forall|r: usize| #[trigger]
        sizes::lookup(new, r) == if imported.contains_key(r) && sizes::kept_height(
            imported[r],
        ) is Some {
            sizes::kept_height(imported[r])
        } else {
            sizes::lookup(old, r)
        }
}

/// The sizes of one sheet after an import.
pub open spec fn imported_over(old: DimsModel, l: ImportedLayout, new: DimsModel) -> bool {
    &&& widths_over(old.col_widths, l.col_widths@, new.col_widths)
    &&& heights_over(old.row_heights, l.row_heights@, new.row_heights)
    &&& new.hidden_rows == old.hidden_rows.union(l.hidden_rows@)
    &&& new.hidden_cols == old.hidden_cols.union(l.hidden_cols@)
}

fn lay_widths(m: &mut BTreeMap<usize, u32>, imported: &BTreeMap<usize, u32>)
    ensures
        widths_over(old(m)@, imported@, final(m)@),
{
    let entries = collections::map_entries(imported);
    let ghost before = m@;
    let mut i: usize = 0;
    while i < entries.len()
        invariant
            i <= entries@.len(),
            collections::lists_map(entries@, imported@),
            forall|c: usize| #[trigger]
                sizes::lookup(m@, c) == if exists|k: int|
                    0 <= k < i && (#[trigger] entries@[k]).0 == c && sizes::kept_width(
                        entries@[k].1,
                    ) is Some {
                    sizes::kept_width(imported@[c])
                } else {
                    sizes::lookup(before, c)
                },
        decreases entries@.len() - i,
    {
        let ghost mid = m@;
        let p = entries[i];
        match sizes::width_to_keep(p.1) {
            Some(w) => {
                collections::map_insert(m, p.0, w);
            },
            None => {},
        }
        proof {
            assert(p == entries@[i as int]);
            assert forall|c: usize| #[trigger] sizes::lookup(m@, c) == (if exists|k: int|
                0 <= k < i + 1 && (#[trigger] entries@[k]).0 == c && sizes::kept_width(
                    entries@[k].1,
                ) is Some {
                sizes::kept_width(imported@[c])
            } else {
                sizes::lookup(before, c)
            }) by {
                assert(sizes::lookup(mid, c) == if exists|k: int|
                    0 <= k < i && (#[trigger] entries@[k]).0 == c && sizes::kept_width(
                        entries@[k].1,
                    ) is Some {
                    sizes::kept_width(imported@[c])
                } else {
                    sizes::lookup(before, c)
                });
            }
        }
        i = i + 1;
    }
    proof {
        assert forall|c: usize| #[trigger] sizes::lookup(m@, c) == (if imported@.contains_key(c)
            && sizes::kept_width(imported@[c]) is Some {
            sizes::kept_width(imported@[c])
        } else {
            sizes::lookup(before, c)
        }) by {
            if imported@.contains_key(c) {
                let k = choose|k: int| 0 <= k < entries@.len() && (#[trigger] entries@[k]).0 == c;
                assert(entries@[k].1 == imported@[c]);
            }
        }
    }
}

fn lay_heights(m: &mut BTreeMap<usize, u32>, imported: &BTreeMap<usize, u32>)
    ensures
        heights_over(old(m)@, imported@, final(m)@),
{
    let entries = collections::map_entries(imported);
    let ghost before = m@;
    let mut i: usize = 0;
    while i < entries.len()
        invariant
            i <= entries@.len(),
            collections::lists_map(entries@, imported@),
            forall|c: usize| #[trigger]
                sizes::lookup(m@, c) == if exists|k: int|
                    0 <= k < i && (#[trigger] entries@[k]).0 == c && sizes::kept_height(
                        entries@[k].1,
                    ) is Some {
                    sizes::kept_height(imported@[c])
                } else {
                    sizes::lookup(before, c)
                },
        decreases entries@.len() - i,
    {
        let ghost mid = m@;
        let p = entries[i];
        match sizes::height_to_keep(p.1) {
            Some(h) => {
                collections::map_insert(m, p.0, h);
            },
            None => {},
        }
        proof {
            assert(p == entries@[i as int]);
            assert forall|c: usize| #[trigger] sizes::lookup(m@, c) == (if exists|k: int|
                0 <= k < i + 1 && (#[trigger] entries@[k]).0 == c && sizes::kept_height(
                    entries@[k].1,
                ) is Some {
                sizes::kept_height(imported@[c])
            } else {
                sizes::lookup(before, c)
            }) by {
                assert(sizes::lookup(mid, c) == if exists|k: int|
                    0 <= k < i && (#[trigger] entries@[k]).0 == c && sizes::kept_height(
                        entries@[k].1,
                    ) is Some {
                    sizes::kept_height(imported@[c])
                } else {
                    sizes::lookup(before, c)
                });
            }
        }
        i = i + 1;
    }
    proof {
        assert forall|c: usize| #[trigger] sizes::lookup(m@, c) == (if imported@.contains_key(c)
            && sizes::kept_height(imported@[c]) is Some {
            sizes::kept_height(imported@[c])
        } else {
            sizes::lookup(before, c)
        }) by {
            if imported@.contains_key(c) {
                let k = choose|k: int| 0 <= k < entries@.len() && (#[trigger] entries@[k]).0 == c;
                assert(entries@[k].1 == imported@[c]);
            }
        }
    }
}

fn lay_lines(s: &mut BTreeSet<usize>, imported: &BTreeSet<usize>)
    ensures
        final(s)@ == old(s)@.union(imported@),
{
    let items = collections::set_items(imported);
    let ghost before = s@;
    let mut i: usize = 0;
    assert(before.union(items@.take(0).to_set()) =~= before);
    while i < items.len()
        invariant
            i <= items@.len(),
            s@ == before.union(items@.take(i as int).to_set()),
        decreases items@.len() - i,
    {
        collections::set_insert(s, items[i]);
        proof {
            let a = items@.take(i as int);
            let b = items@.take(i + 1);
            assert forall|x: usize| b.contains(x) <==> a.contains(x) || x == items@[i as int] by {
                if a.contains(x) {
                    let k = choose|k: int| 0 <= k < a.len() && a[k] == x;
                    assert(b[k] == x);
                }
                if x == items@[i as int] {
                    assert(b[i as int] == x);
                }
            }
            assert(b.to_set() =~= a.to_set().insert(items@[i as int]));
            assert(s@ =~= before.union(b.to_set()));
        }
        i = i + 1;
    }
    proof {
        assert(items@.take(items@.len() as int) =~= items@);
        assert(items@.to_set() =~= imported@);
    }
}

impl Spreadsheet {
    /// Lay the sizes of one imported sheet over those of the sheet `id`.
    fn apply_imported(&mut self, id: u64, l: &ImportedLayout)
        ensures
            *final(self) == (Spreadsheet { sizes: final(self).sizes, ..*old(self) }),
            final(self).sizes == (SizeState {
                sheets: final(self).sizes.sheets,
                ..old(self).sizes
            }),
            imported_over(old(self).sizes.at(id), *l, final(self).sizes.at(id)),
            forall|other: u64|
                other != id ==> #[trigger] final(self).sizes.at(other) == old(self).sizes.at(other),
    {
        let ghost s0 = self.sizes;
        lay_widths(self.sizes.widths_mut(id), &l.col_widths);
        let ghost s1 = self.sizes;
        lay_heights(self.sizes.heights_mut(id), &l.row_heights);
        let ghost s2 = self.sizes;
        lay_lines(self.sizes.hidden_rows_mut(id), &l.hidden_rows);
        let ghost s3 = self.sizes;
        lay_lines(self.sizes.hidden_cols_mut(id), &l.hidden_cols);
        assert forall|other: u64| other != id implies #[trigger] self.sizes.at(other) == s0.at(
            other,
        ) by {
            assert(s1.at(other) == s0.at(other));
            assert(s2.at(other) == s1.at(other));
            assert(s3.at(other) == s2.at(other));
        }
    }

    /// Lay the sizes of an imported file over those of the sheets `ids` of the
    /// workbook. What the file says of sheets beyond them is left out.
    pub fn apply_imported_layouts(&mut self, layouts: &Vec<ImportedLayout>, ids: &Vec<u64>)
        requires
            ids@.no_duplicates(),
        ensures
            *final(self) == (Spreadsheet { sizes: final(self).sizes, ..*old(self) }),
            layouts_over(old(self).sizes, final(self).sizes, layouts@, ids@),
    {
        let ghost before = self.sizes;
        let mut i: usize = 0;
        while i < layouts.len() && i < ids.len()
            invariant
                i <= layouts@.len(),
                i <= ids@.len(),
                ids@.no_duplicates(),
                *self == (Spreadsheet { sizes: self.sizes, ..*old(self) }),
                self.sizes == (SizeState { sheets: self.sizes.sheets, ..before }),
                forall|k: int|
                    0 <= k < i ==> imported_over(
                        before.at(#[trigger] ids@[k]),
                        layouts@[k],
                        self.sizes.at(ids@[k]),
                    ),
                forall|id: u64|
                    (forall|k: int| 0 <= k < i ==> #[trigger] ids@[k] != id)
                        ==> #[trigger] self.sizes.at(id) == before.at(id),
            decreases ids@.len() - i,
        {
            let ghost mid = self.sizes;
            let id = ids[i];
            assert(mid.at(id) == before.at(id));
            self.apply_imported(id, &layouts[i]);
            proof {
                assert forall|k: int| 0 <= k < i + 1 implies imported_over(
                    before.at(#[trigger] ids@[k]),
                    layouts@[k],
                    self.sizes.at(ids@[k]),
                ) by {
                    if k < i {
                        assert(self.sizes.at(ids@[k]) == mid.at(ids@[k]));
                    }
                }
                assert forall|other: u64|
                    (forall|k: int| 0 <= k < i + 1 ==> #[trigger] ids@[k] != other) implies
                    #[trigger] self.sizes.at(other) == before.at(other) by {
                    assert(ids@[i as int] != other);
                    assert(mid.at(other) == before.at(other));
                }
            }
            i = i + 1;
        }
    }
}

/// The sizes after an import: each sheet of the workbook that the file knows
/// has its sizes over the old ones, and nothing else has changed.
pub open spec fn layouts_over(
    old: SizeState,
    new: SizeState,
    layouts: Seq<ImportedLayout>,
    ids: Seq<u64>,
) -> bool {
    &&& new == (SizeState { sheets: new.sheets, ..old })
    &&& forall|k: int|
        0 <= k < ids.len() && k < layouts.len() ==> imported_over(
            old.at(#[trigger] ids[k]),
            layouts[k],
            new.at(ids[k]),
        )
    &&& forall|id: u64|
        (forall|k: int| 0 <= k < ids.len() && k < layouts.len() ==> #[trigger] ids[k] != id)
            ==> #[trigger] new.at(id) == old.at(id)
}

// ---------------------------------------------------------------------------
// Exports
// ---------------------------------------------------------------------------

/// What an Excel file is told of one sheet.
#[derive(Debug, PartialEq, Eq)]
pub struct ExportLayout {
    pub col_widths: BTreeMap<usize, u32>,
    pub row_heights: BTreeMap<usize, u32>,
    pub hidden_rows: Vec<usize>,
    pub autofilter_range: Option<CellSpan>,
}

/// The filter of the sheet that is shown: its range, and which rows of the data
/// it leaves.
#[derive(Debug, PartialEq, Eq)]
pub struct FilterView {
    pub range: Option<CellSpan>,
    pub visible: Vec<bool>,
}

/// The rows that a filter does not leave, in ascending order.
pub open spec fn filtered_out(visible: Seq<bool>) -> Seq<usize>
    decreases visible.len(),
{
    if visible.len() == 0 {
        Seq::empty()
    } else if visible.last() {
        filtered_out(visible.drop_last())
    } else {
        filtered_out(visible.drop_last()).push((visible.len() - 1) as usize)
    }
}

fn rows_filtered_out(visible: &Vec<bool>) -> (v: Vec<usize>)
    ensures
        v@ == filtered_out(visible@),
{
    let mut v: Vec<usize> = Vec::new();
    let mut i: usize = 0;
    assert(visible@.take(0) =~= Seq::empty());
    while i < visible.len()
        invariant
            i <= visible@.len(),
            v@ == filtered_out(visible@.take(i as int)),
        decreases visible@.len() - i,
    {
        assert(visible@.take(i + 1).drop_last() =~= visible@.take(i as int));
        assert(visible@.take(i + 1).last() == visible@[i as int]);
        if !visible[i] {
            v.push(i);
        }
        i = i + 1;
    }
    assert(visible@.take(visible@.len() as int) =~= visible@);
    v
}

/// What is told of a sheet with the sizes `d`; only the sheet that is shown has
/// a filter.
pub open spec fn exports(l: ExportLayout, d: DimsModel, filter: Option<FilterView>) -> bool {
    &&& l.col_widths@ == d.col_widths
    &&& l.row_heights@ == d.row_heights
    &&& match filter {
        Some(f) => l.hidden_rows@ == filtered_out(f.visible@) && l.autofilter_range == f.range,
        None => l.hidden_rows@.len() == 0 && l.autofilter_range is None,
    }
}

impl Spreadsheet {
    /// What an Excel file is told of the sheets `ids` of the workbook. `active`
    /// is the index of the one that is shown, and `filter` its filter if it is
    /// on.
    pub fn build_export_layouts(&self, ids: &Vec<u64>, active: usize, filter: &Option<FilterView>) -> (v:
        Vec<ExportLayout>)
        ensures
            v@.len() == ids@.len(),
            forall|i: int|
                0 <= i < ids@.len() ==> exports(
                    #[trigger] v@[i],
                    self.sizes.at(ids@[i]),
                    if i == active {
                        *filter
                    } else {
                        None
                    },
                ),
    {
        let mut v: Vec<ExportLayout> = Vec::new();
        let mut i: usize = 0;
        while i < ids.len()
            invariant
                i <= ids@.len(),
                v@.len() == i,
                forall|k: int|
                    0 <= k < i ==> exports(
                        #[trigger] v@[k],
                        self.sizes.at(ids@[k]),
                        if k == active {
                            *filter
                        } else {
                            None
                        },
                    ),
            decreases ids@.len() - i,
        {
            let mut l = ExportLayout {
                col_widths: BTreeMap::new(),
                row_heights: BTreeMap::new(),
                hidden_rows: Vec::new(),
                autofilter_range: None,
            };
            let place = self.sizes.position(ids[i]);
            if place < self.sizes.sheets.len() {
                l.col_widths = collections::clone_map(&self.sizes.sheets[place].col_widths);
                l.row_heights = collections::clone_map(&self.sizes.sheets[place].row_heights);
            }
            if i == active {
                match filter {
                    Some(f) => {
                        l.autofilter_range = f.range;
                        l.hidden_rows = rows_filtered_out(&f.visible);
                    },
                    None => {},
                }
            }
            v.push(l);
            i = i + 1;
        }
        v
    }
}

// ---------------------------------------------------------------------------
// Laws
// ---------------------------------------------------------------------------

/// What a save puts into a native file is what a load reads out of it: the
/// sizes of each sheet survive.
pub proof fn sizes_survive_a_file(n: NativeLayout, i: usize, d: DimsModel)
    requires
        native_keeps(n, i, d),
    ensures
        native_at(n, i) == d,
{
    assert(d.col_widths.dom().is_empty() ==> d.col_widths =~= Map::empty());
    assert(d.row_heights.dom().is_empty() ==> d.row_heights =~= Map::empty());
    assert(d.hidden_rows.is_empty() ==> d.hidden_rows =~= Set::empty());
    assert(d.hidden_cols.is_empty() ==> d.hidden_cols =~= Set::empty());
}

/// Importing the same sizes twice comes to the same as importing them once.
pub proof fn importing_twice_is_importing_once(
    d0: DimsModel,
    l: ImportedLayout,
    d1: DimsModel,
    d2: DimsModel,
)
    requires
        imported_over(d0, l, d1),
        imported_over(d1, l, d2),
    ensures
        d2 == d1,
{
    assert(d2.hidden_rows =~= d1.hidden_rows);
    assert(d2.hidden_cols =~= d1.hidden_cols);
    assert(d2.col_widths =~= d1.col_widths) by {
        assert forall|c: usize| d1.col_widths.contains_key(c) <==> d2.col_widths.contains_key(c) by {
            assert(sizes::lookup(d1.col_widths, c) == sizes::lookup(d2.col_widths, c));
        }
        assert forall|c: usize| d1.col_widths.contains_key(c) implies d1.col_widths[c]
            == d2.col_widths[c] by {
            assert(sizes::lookup(d1.col_widths, c) == sizes::lookup(d2.col_widths, c));
        }
    }
    assert(d2.row_heights =~= d1.row_heights) by {
        assert forall|c: usize| d1.row_heights.contains_key(c) <==> d2.row_heights.contains_key(
            c,
        ) by {
            assert(sizes::lookup(d1.row_heights, c) == sizes::lookup(d2.row_heights, c));
        }
        assert forall|c: usize| d1.row_heights.contains_key(c) implies d1.row_heights[c]
            == d2.row_heights[c] by {
            assert(sizes::lookup(d1.row_heights, c) == sizes::lookup(d2.row_heights, c));
        }
    }
}

/// Each sheet has the sizes back that it was saved with, whatever sizes there were
/// before the load, and a sheet that was not saved has none.
pub proof fn a_saved_layout_comes_back(
    saved: SizeState,
    n: NativeLayout,
    old: SizeState,
    new: SizeState,
    ids: Seq<u64>,
    i: int,
    other: u64,
)
    requires
        layout_built(n, saved, ids),
        layout_applied(old, new, n, ids),
        0 <= i < ids.len() <= usize::MAX,
        !ids.contains(other),
    ensures
        new.at(ids[i]) == saved.at(ids[i]),
        new.at(other).col_widths == Map::<usize, u32>::empty(),
        new.at(other).row_heights == Map::<usize, u32>::empty(),
        new.at(other).hidden_rows == Set::<usize>::empty(),
        new.at(other).hidden_cols == Set::<usize>::empty(),
        new.sheet_id == old.sheet_id && new.rows == old.rows && new.cols == old.cols,
{
    assert(native_keeps(n, i as usize, saved.at(ids[i])));
    sizes_survive_a_file(n, i as usize, saved.at(ids[i]));
}

/// An import changes the widths and heights that it brings, where they are not those
/// of a cell, and hides the lines that it hides. All other lines stay as they are, and
/// so do the sheets that nothing was imported for.
pub proof fn an_import_changes_what_it_brings(
    old: SizeState,
    new: SizeState,
    layouts: Seq<ImportedLayout>,
    ids: Seq<u64>,
    k: int,
    line: usize,
    other: u64,
)
    requires
        layouts_over(old, new, layouts, ids),
        0 <= k < ids.len(),
        k < layouts.len(),
        !ids.contains(other),
    ensures
        ({
            let a = old.at(ids[k]);
            let b = new.at(ids[k]);
            let l = layouts[k];
            &&& !l.col_widths@.contains_key(line) ==> sizes::width_of(b, line) == sizes::width_of(
                a,
                line,
            )
            &&& !l.row_heights@.contains_key(line) ==> sizes::height_of(b, line)
                == sizes::height_of(a, line)
            &&& l.col_widths@.contains_key(line) && sizes::kept_width(l.col_widths@[line]) is Some
                ==> Some(sizes::width_of(b, line)) == sizes::kept_width(l.col_widths@[line])
            &&& l.row_heights@.contains_key(line) && sizes::kept_height(l.row_heights@[line])
                is Some ==> Some(sizes::height_of(b, line)) == sizes::kept_height(
                l.row_heights@[line],
            )
            &&& b.hidden_rows.contains(line) <==> a.hidden_rows.contains(line)
                || l.hidden_rows@.contains(line)
            &&& b.hidden_cols.contains(line) <==> a.hidden_cols.contains(line)
                || l.hidden_cols@.contains(line)
        }),
        new.at(other) == old.at(other),
        new.sheet_id == old.sheet_id,
{
    let a = old.at(ids[k]);
    let b = new.at(ids[k]);
    assert(imported_over(a, layouts[k], b));
    let w = sizes::lookup(b.col_widths, line);
    let h = sizes::lookup(b.row_heights, line);
    assert forall|j: int| 0 <= j < ids.len() && j < layouts.len() implies #[trigger] ids[j]
        != other by {
        assert(ids.contains(ids[j]));
    }
    assert(new.at(other) == old.at(other));
}

/// Clearing the sizes gives every line of every sheet the usual size, and hides and
/// shows nothing.
pub proof fn cleared_sizes_are_the_usual_ones(old: SizeState, new: SizeState, id: u64, line: usize)
    requires
        sizes_cleared(old, new),
    ensures
        sizes::width_of(new.at(id), line) == sizes::CELL_WIDTH,
        sizes::height_of(new.at(id), line) == sizes::CELL_HEIGHT,
        new.at(id).hidden_rows.contains(line) <==> old.at(id).hidden_rows.contains(line),
        new.at(id).hidden_cols.contains(line) <==> old.at(id).hidden_cols.contains(line),
{
    assert(new.at(id) == hidden_only(old.at(id)));
}

/// An exported sheet hides just the rows that its filter hides, from the top down, and
/// has the widths and heights of the sheet. Without a filter it hides none.
pub proof fn an_export_hides_what_the_filter_hides(
    l: ExportLayout,
    d: DimsModel,
    filter: Option<FilterView>,
    row: usize,
)
    requires
        exports(l, d, filter),
        filter matches Some(f) ==> f.visible@.len() <= usize::MAX,
    ensures
        l.col_widths@ == d.col_widths && l.row_heights@ == d.row_heights,
        l.hidden_rows@.contains(row) <==> (filter matches Some(f) && row < f.visible@.len()
            && !f.visible@[row as int]),
        forall|i: int, j: int|
            0 <= i < j < l.hidden_rows@.len() ==> #[trigger] l.hidden_rows@[i]
                < #[trigger] l.hidden_rows@[j],
        l.autofilter_range == (match filter {
            Some(f) => f.range,
            None => None,
        }),
{
    if let Some(f) = filter {
        lemma_filtered_out(f.visible@, row);
    }
}

proof fn lemma_filtered_out(visible: Seq<bool>, row: usize)
    requires
        visible.len() <= usize::MAX,
    ensures
        filtered_out(visible).contains(row) <==> row < visible.len() && !visible[row as int],
        forall|i: int, j: int|
            0 <= i < j < filtered_out(visible).len() ==> #[trigger] filtered_out(visible)[i]
                < #[trigger] filtered_out(visible)[j],
        forall|i: int|
            0 <= i < filtered_out(visible).len() ==> #[trigger] filtered_out(visible)[i]
                < visible.len(),
    decreases visible.len(),
{
    if visible.len() > 0 {
        let t = visible.drop_last();
        let rest = filtered_out(t);
        let all = filtered_out(visible);
        lemma_filtered_out(t, row);
        if !visible.last() {
            assert(all[rest.len() as int] == visible.len() - 1);
            if rest.contains(row) {
                let k = choose|k: int| 0 <= k < rest.len() && rest[k] == row;
                assert(all[k] == row);
            }
            if all.contains(row) {
                let k = choose|k: int| 0 <= k < all.len() && all[k] == row;
                if k < rest.len() {
                    assert(rest[k] == row);
                }
            }
        }
    }
}

} // verus!
