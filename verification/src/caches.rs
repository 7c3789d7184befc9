//! What is kept so that it need not be worked out again, and what a change of
//! cells is told to others.

use std::collections::HashMap;

use vstd::prelude::*;

use crate::document;
use crate::state::Spreadsheet;

verus! {

// ---------------------------------------------------------------------------
// Conditional formats
// ---------------------------------------------------------------------------

/// The conditional formats of cells, by revision of the cells and of the rules.
/// A format is given by its number; a cell that no rule holds for has none.
#[derive(Debug, PartialEq, Eq)]
pub struct FormatCache {
    pub key: (u64, u64),
    pub entries: HashMap<u64, Option<u32>>,
}

/// One number for a cell.
pub open spec fn cell_number(row: u32, col: u32) -> u64 {
    (row * 0x1_0000_0000 + col) as u64
}

/// The formats that are kept at some revisions.
pub open spec fn kept(c: FormatCache, key: (u64, u64)) -> Map<u64, Option<u32>> {
    if c.key == key {
        c.entries@
    } else {
        Map::empty()
    }
}

/// Nothing is kept.
pub open spec fn no_formats(c: FormatCache) -> bool {
    c.key == (0u64, 0u64) && c.entries@ == Map::<u64, Option<u32>>::empty()
}

/// The number of a cell.
pub fn number_of(row: u32, col: u32) -> (n: u64)
    ensures
        n == cell_number(row, col),
{
    (row as u64) * 0x1_0000_0000 + (col as u64)
}

impl FormatCache {
    pub fn new() -> (c: FormatCache)
        ensures
            no_formats(c),
    {
        FormatCache { key: (0, 0), entries: HashMap::new() }
    }

    /// What is kept of a cell. What was kept at other revisions is forgotten.
    pub fn lookup(&mut self, key: (u64, u64), row: u32, col: u32) -> (r: Option<Option<u32>>)
        ensures
            final(self).key == key,
            final(self).entries@ == kept(*old(self), key),
            r == if kept(*old(self), key).contains_key(cell_number(row, col)) {
                Some(kept(*old(self), key)[cell_number(row, col)])
            } else {
                None
            },
    {
        broadcast use vstd::std_specs::hash::group_hash_axioms;

        if self.key.0 != key.0 || self.key.1 != key.1 {
            self.entries = HashMap::new();
            self.key = key;
        }
        let n = number_of(row, col);
        match self.entries.get(&n) {
            Some(v) => Some(*v),
            None => None,
        }
    }

    /// Keep what was worked out for a cell.
    pub fn keep(&mut self, row: u32, col: u32, format: Option<u32>)
        ensures
            final(self).key == old(self).key,
            final(self).entries@ == old(self).entries@.insert(cell_number(row, col), format),
    {
        broadcast use vstd::std_specs::hash::group_hash_axioms;

        let n = number_of(row, col);
        self.entries.insert(n, format);
    }
}

impl Spreadsheet {
    /// The conditional format of a cell, if it was worked out since the last
    /// change.
    pub fn effective_format_cached(&mut self, row: u32, col: u32) -> (r: Option<Option<u32>>)
        ensures
            *final(self) == (Spreadsheet {
                format_cache: final(self).format_cache,
                ..*old(self)
            }),
            final(self).format_cache.key == (old(self).cells_rev, old(self).cf_rules_rev),
            final(self).format_cache.entries@ == kept(
                old(self).format_cache,
                (old(self).cells_rev, old(self).cf_rules_rev),
            ),
            r == if final(self).format_cache.entries@.contains_key(cell_number(row, col)) {
                Some(final(self).format_cache.entries@[cell_number(row, col)])
            } else {
                None
            },
    {
        let key = (self.cells_rev, self.cf_rules_rev);
        self.format_cache.lookup(key, row, col)
    }
}

// ---------------------------------------------------------------------------
// Cells for searching
// ---------------------------------------------------------------------------

/// A cell as it is searched: its place, what it shows, and its formula.
#[derive(Debug, PartialEq, Eq)]
pub struct CellEntry {
    pub row: usize,
    pub col: usize,
    pub display: String,
    pub formula: Option<String>,
}

/// A cell of a sheet.
#[derive(Debug, PartialEq, Eq)]
pub struct SearchCell {
    pub entry: CellEntry,
    /// The cell holds nothing.
    pub empty: bool,
}

impl Clone for CellEntry {
    fn clone(&self) -> (r: CellEntry)
        ensures
            r == *self,
    {
        CellEntry {
            row: self.row,
            col: self.col,
            display: self.display.clone(),
            formula: document::clone_text(&self.formula),
        }
    }
}

/// The cells that are searched, at a revision of the cells.
#[derive(Debug, PartialEq, Eq)]
pub struct CellSearchCache {
    pub cached_rev: u64,
    pub entries: Vec<CellEntry>,
}

/// How many cells are searched.
pub const SEARCHED_CELLS: usize = 1000;

/// The cells that hold something.
pub open spec fn filled_entries(cells: Seq<SearchCell>) -> Seq<CellEntry>
    decreases cells.len(),
{
    if cells.len() == 0 {
        Seq::empty()
    } else {
        let before = filled_entries(cells.drop_last());
        if cells.last().empty {
            before
        } else {
            before.push(cells.last().entry)
        }
    }
}

/// The cells that are searched: the first ones that hold something.
pub open spec fn searched(cells: Seq<SearchCell>) -> Seq<CellEntry> {
    let all = filled_entries(cells);
    if all.len() <= SEARCHED_CELLS {
        all
    } else {
        all.take(SEARCHED_CELLS as int)
    }
}

proof fn lemma_filled_grows(cells: Seq<SearchCell>, i: int)
    requires
        0 <= i <= cells.len(),
    ensures
        filled_entries(cells.take(i)).len() <= filled_entries(cells).len(),
        filled_entries(cells).take(filled_entries(cells.take(i)).len() as int) == filled_entries(
            cells.take(i),
        ),
    decreases cells.len() - i,
{
    if i == cells.len() {
        assert(cells.take(i) =~= cells);
        assert(filled_entries(cells).take(filled_entries(cells).len() as int) =~= filled_entries(
            cells,
        ));
    } else {
        lemma_filled_grows(cells, i + 1);
        assert(cells.take(i + 1).drop_last() =~= cells.take(i));
        let small = filled_entries(cells.take(i));
        let next = filled_entries(cells.take(i + 1));
        assert(next.take(small.len() as int) =~= small);
        assert(filled_entries(cells).take(small.len() as int) =~= filled_entries(cells).take(
            next.len() as int,
        ).take(small.len() as int));
    }
}

/// The cells of a sheet that are searched.
pub fn search_entries(cells: &Vec<SearchCell>) -> (r: Vec<CellEntry>)
    ensures
        r@ == searched(cells@),
{
    let mut r: Vec<CellEntry> = Vec::new();
    let mut i: usize = 0;
    assert(cells@.take(0) =~= Seq::empty());
    while i < cells.len()
        invariant
            i <= cells@.len(),
            r@ == filled_entries(cells@.take(i as int)),
            r@.len() <= SEARCHED_CELLS,
        decreases cells@.len() - i,
    {
        if r.len() == SEARCHED_CELLS {
            proof {
                lemma_filled_grows(cells@, i as int);
                let all = filled_entries(cells@);
                if all.len() == SEARCHED_CELLS {
                    assert(all.take(SEARCHED_CELLS as int) =~= all);
                }
            }
            return r;
        }
        assert(cells@.take(i + 1).drop_last() =~= cells@.take(i as int));
        assert(cells@.take(i + 1).last() == cells@[i as int]);
        if !cells[i].empty {
            r.push(cells[i].entry.clone());
        }
        i = i + 1;
    }
    assert(cells@.take(cells@.len() as int) =~= cells@);
    r
}

impl CellSearchCache {
    /// No cells, at the first revision.
    pub fn new() -> (c: CellSearchCache)
        ensures
            c.cached_rev == 0,
            c.entries@.len() == 0,
    {
        CellSearchCache { cached_rev: 0, entries: Vec::new() }
    }
}

impl Spreadsheet {
    /// Take the cells that are searched from `cells`, those of the sheet that is
    /// shown, if something changed since they were taken.
    pub fn ensure_cell_search_cache_fresh(&mut self, cells: &Vec<SearchCell>)
        ensures
            search_refreshed(*old(self), *final(self), cells@),
    {
        if self.search_cache.cached_rev != self.cells_rev {
            self.search_cache.entries = search_entries(cells);
            self.search_cache.cached_rev = self.cells_rev;
        }
    }
}

// ---------------------------------------------------------------------------
// Telling others
// ---------------------------------------------------------------------------

/// A cell of a workbook.
#[derive(Debug, Clone, Copy, PartialEq, Eq)]
pub struct WorkbookCell {
    pub sheet: u64,
    pub row: usize,
    pub col: usize,
}

/// What becomes of the end of a batch: how many cells changed, and what those
/// who listen are told.
#[derive(Debug, PartialEq, Eq)]
pub struct BatchEnd {
    pub changed: usize,
    /// The revision and the cells, if there is something to tell.
    pub broadcast: Option<(u64, Vec<WorkbookCell>)>,
}

/// A batch of changes ended. Those who listen are told, if the server runs and
/// something changed.
pub fn end_batch_and_broadcast(changed: Vec<WorkbookCell>, running: bool, revision: u64) -> (r: BatchEnd)
    ensures
        batch_ended(r, changed@, running, revision),
{
    let count: usize = changed.len();
    if count > 0 && running {
        BatchEnd { changed: count, broadcast: Some((revision, changed)) }
    } else {
        BatchEnd { changed: count, broadcast: None }
    }
}

/// What is searched was brought up to date.
pub open spec fn search_refreshed(
    old: Spreadsheet,
    new: Spreadsheet,
    cells: Seq<SearchCell>,
) -> bool {
    &&& new == (Spreadsheet {
        search_cache: new.search_cache,
        ..old
    })
    &&& if old.search_cache.cached_rev == old.cells_rev {
        new.search_cache == old.search_cache
    } else {
        &&& new.search_cache.cached_rev == old.cells_rev
        &&& new.search_cache.entries@ == searched(cells)
    }
}

/// A batch of changes came to its end.
pub open spec fn batch_ended(
    r: BatchEnd,
    changed: Seq<WorkbookCell>,
    running: bool,
    revision: u64,
) -> bool {
    &&& r.changed == changed.len()
    &&& match r.broadcast {
        Some((rev, cells)) => running && changed.len() > 0 && rev == revision && cells@
            == changed,
        None => !(running && changed.len() > 0),
    }
}

// ---------------------------------------------------------------------------
// Laws
// ---------------------------------------------------------------------------

/// A change of a cell makes every format that is kept unknown.
pub proof fn a_change_forgets_formats(c: FormatCache, cells_rev: u64, rules_rev: u64, row: u32, col: u32)
    requires
        c.key == (cells_rev, rules_rev),
    ensures
        !kept(c, (crate::state::bumped(cells_rev), rules_rev)).contains_key(cell_number(row, col)),
        !kept(c, (cells_rev, crate::state::bumped(rules_rev))).contains_key(cell_number(row, col)),
{
}

/// Two cells are not taken for one another.
pub proof fn cells_have_their_own_numbers(r1: u32, c1: u32, r2: u32, c2: u32)
    requires
        cell_number(r1, c1) == cell_number(r2, c2),
    ensures
        r1 == r2 && c1 == c2,
{
}

/// The cells that are searched are those that hold something, in their order, and no more than a thousand.
pub proof fn filled_cells_are_searched(cells: Seq<SearchCell>, c: SearchCell)
    ensures
        searched(cells).len() <= 1000,
        filled_entries(cells).len() <= 1000 ==> searched(cells) == filled_entries(cells),
        filled_entries(cells).len() > 1000 ==> searched(cells) == filled_entries(cells).take(1000),
        c.empty ==> filled_entries(cells.push(c)) == filled_entries(cells),
        !c.empty ==> filled_entries(cells.push(c)) == filled_entries(cells).push(c.entry),
        filled_entries(Seq::empty()).len() == 0,
{
    assert(cells.push(c).drop_last() =~= cells);
}

/// What is searched belongs to the cells as they are: it is made anew after a change and not otherwise.
pub proof fn what_is_searched_is_up_to_date(
    a: Spreadsheet,
    b: Spreadsheet,
    c: Spreadsheet,
    cells: Seq<SearchCell>,
    later: Seq<SearchCell>,
)
    requires
        search_refreshed(a, b, cells),
        search_refreshed(b, c, later),
    ensures
        b.search_cache.cached_rev == a.cells_rev,
        c == b,
        a.search_cache.cached_rev != a.cells_rev ==> b.search_cache.entries@ == searched(cells),
        a.search_cache.cached_rev == a.cells_rev ==> b == a,
        b.view == a.view && b.cells_rev == a.cells_rev,
{
}

/// A batch is told where someone listens and something has changed, and then with all its cells.
pub proof fn a_batch_is_told_whole(
    r: BatchEnd,
    changed: Seq<WorkbookCell>,
    running: bool,
    revision: u64,
)
    requires
        batch_ended(r, changed, running, revision),
    ensures
        r.changed == changed.len(),
        r.broadcast is Some <==> running && changed.len() > 0,
        r.broadcast matches Some(b) ==> b.0 == revision && b.1@ == changed,
{
}

/// A format that is kept is found again for its cell until something changes, and other cells keep theirs.
pub proof fn a_kept_format_is_found(
    c: FormatCache,
    row: u32,
    col: u32,
    other_row: u32,
    other_col: u32,
    format: Option<u32>,
)
    requires
        (other_row, other_col) != (row, col),
    ensures
        ({
            let m = kept(c, c.key).insert(cell_number(row, col), format);
            &&& m.contains_key(cell_number(row, col)) && m[cell_number(row, col)] == format
            &&& m.contains_key(cell_number(other_row, other_col)) <==> c.entries@.contains_key(
                cell_number(other_row, other_col),
            )
            &&& c.entries@.contains_key(cell_number(other_row, other_col)) ==> m[cell_number(
                other_row,
                other_col,
            )] == c.entries@[cell_number(other_row, other_col)]
        }),
{
    if cell_number(row, col) == cell_number(other_row, other_col) {
        cells_have_their_own_numbers(row, col, other_row, other_col);
    }
}

} // verus!
