//! Presentation state of a sheet: sizes, frozen panes, hidden lines, filters
//! and charts, and how all of it follows inserted and deleted lines.

use std::collections::{BTreeMap, BTreeSet};

use vstd::prelude::*;

use crate::collections;
use crate::structural;
use crate::text;

verus! {

#[derive(Debug, Clone, Copy, PartialEq, Eq, Structural)]
pub enum SortDirection {
    Ascending,
    Descending,
}

#[derive(Debug, Clone, Copy, PartialEq, Eq, Structural)]
pub struct SortState {
    pub column: usize,
    pub direction: SortDirection,
}

/// The filter on one column; what it lets through is kept as it was written.
#[derive(Debug, PartialEq, Eq)]
pub struct ColumnFilterSpec {
    pub col: usize,
    pub filter: String,
}

/// The filtered region with its column filters and its sort order.
#[derive(Debug, PartialEq, Eq)]
pub struct FilterSpec {
    /// First row (the header), first column, last row, last column.
    pub range: (usize, usize, usize, usize),
    pub columns: Vec<ColumnFilterSpec>,
    pub sort: Option<SortState>,
}

/// One chart: the range it plots, where it names one, and the rest of it as
/// it was written.
#[derive(Debug, PartialEq, Eq)]
pub struct ChartEntry {
    pub data_range: Option<String>,
    pub entry: String,
}

/// The charts of a sheet: a list of charts, or some other payload that is
/// only carried along.
#[derive(Debug, PartialEq, Eq)]
pub enum Charts {
    List(Vec<ChartEntry>),
    Other(String),
}

/// Per-sheet presentation state that the calculation engine does not hold.
/// Widths and heights are the bit patterns of single-precision pixels.
#[derive(Debug, PartialEq, Eq)]
pub struct SheetLayout {
    pub col_widths: BTreeMap<usize, u32>,
    pub row_heights: BTreeMap<usize, u32>,
    pub frozen_rows: usize,
    pub frozen_cols: usize,
    pub hidden_rows: BTreeSet<usize>,
    pub hidden_cols: BTreeSet<usize>,
    pub filter: Option<FilterSpec>,
    pub charts: Option<Charts>,
}

/// What a filter is, apart from how it is held.
#[verifier::ext_equal]
pub struct FilterModel {
    pub range: (usize, usize, usize, usize),
    pub columns: Seq<(int, Seq<char>)>,
    pub sort: Option<SortState>,
}

/// What the charts of a sheet are, apart from how they are held.
#[verifier::ext_equal]
pub enum ChartsModel {
    List(Seq<(Option<Seq<char>>, Seq<char>)>),
    Other(Seq<char>),
}

/// What a layout is, apart from how it is held.
#[verifier::ext_equal]
pub struct LayoutModel {
    pub col_widths: Map<usize, u32>,
    pub row_heights: Map<usize, u32>,
    pub frozen_rows: usize,
    pub frozen_cols: usize,
    pub hidden_rows: Set<usize>,
    pub hidden_cols: Set<usize>,
    pub filter: Option<FilterModel>,
    pub charts: Option<ChartsModel>,
}

impl View for FilterSpec {
    type V = FilterModel;

    open spec fn view(&self) -> FilterModel {
        FilterModel { range: self.range, columns: columns_view(self.columns@), sort: self.sort }
    }
}

impl View for Charts {
    type V = ChartsModel;

    open spec fn view(&self) -> ChartsModel {
        match self {
            Charts::List(l) => ChartsModel::List(
                l@.map_values(|c: ChartEntry| (text::opt_text(c.data_range), c.entry@)),
            ),
            Charts::Other(o) => ChartsModel::Other(o@),
        }
    }
}

pub open spec fn filter_model(f: Option<FilterSpec>) -> Option<FilterModel> {
    match f {
        Some(x) => Some(x@),
        None => None,
    }
}

pub open spec fn charts_model(c: Option<Charts>) -> Option<ChartsModel> {
    match c {
        Some(x) => Some(x@),
        None => None,
    }
}

impl View for SheetLayout {
    type V = LayoutModel;

    open spec fn view(&self) -> LayoutModel {
        LayoutModel {
            col_widths: self.col_widths@,
            row_heights: self.row_heights@,
            frozen_rows: self.frozen_rows,
            frozen_cols: self.frozen_cols,
            hidden_rows: self.hidden_rows@,
            hidden_cols: self.hidden_cols@,
            filter: filter_model(self.filter),
            charts: charts_model(self.charts),
        }
    }
}

/// The layout of a sheet that nothing was done to.
pub open spec fn no_layout() -> LayoutModel {
    LayoutModel {
        col_widths: Map::empty(),
        row_heights: Map::empty(),
        frozen_rows: 0,
        frozen_cols: 0,
        hidden_rows: Set::empty(),
        hidden_cols: Set::empty(),
        filter: None,
        charts: None,
    }
}

impl Clone for FilterSpec {
    fn clone(&self) -> (r: FilterSpec)
        ensures
            r@ == self@,
    {
        let mut columns: Vec<ColumnFilterSpec> = Vec::new();
        let mut i: usize = 0;
        while i < self.columns.len()
            invariant
                i <= self.columns.len(),
                columns@.len() == i,
                forall|j: int| 0 <= j < i ==> #[trigger] columns@[j] == self.columns@[j],
            decreases self.columns.len() - i,
        {
            columns.push(
                ColumnFilterSpec {
                    col: self.columns[i].col,
                    filter: self.columns[i].filter.clone(),
                },
            );
            i = i + 1;
        }
        assert(columns@ =~= self.columns@);
        FilterSpec { range: self.range, columns, sort: self.sort }
    }
}

impl Clone for Charts {
    fn clone(&self) -> (r: Charts)
        ensures
            r@ == self@,
    {
        match self {
            Charts::Other(o) => Charts::Other(o.clone()),
            Charts::List(l) => {
                let mut n: Vec<ChartEntry> = Vec::new();
                let mut i: usize = 0;
                while i < l.len()
                    invariant
                        i <= l.len(),
                        n@.len() == i,
                        forall|j: int| 0 <= j < i ==> #[trigger] n@[j] == l@[j],
                    decreases l.len() - i,
                {
                    let data_range = match &l[i].data_range {
                        Some(r) => Some(r.clone()),
                        None => None,
                    };
                    n.push(ChartEntry { data_range, entry: l[i].entry.clone() });
                    i = i + 1;
                }
                assert(n@ =~= l@);
                Charts::List(n)
            },
        }
    }
}

/// A copy of an optional filter.
pub fn clone_filter(f: &Option<FilterSpec>) -> (r: Option<FilterSpec>)
    ensures
        filter_model(r) == filter_model(*f),
{
    match f {
        Some(x) => Some(x.clone()),
        None => None,
    }
}

/// A copy of optional charts.
pub fn clone_charts(c: &Option<Charts>) -> (r: Option<Charts>)
    ensures
        charts_model(r) == charts_model(*c),
{
    match c {
        Some(x) => Some(x.clone()),
        None => None,
    }
}

/// A map of lines after an edit: each line that is left keeps its value.
pub open spec fn shifted_map(m: Map<usize, u32>, at: int, count: int, delete: bool) -> Map<
    usize,
    u32,
> {
    Map::new(
        |n: usize|
            {
                let b = structural::line_before(n as int, at, count, delete);
                b is Some && b->0 <= usize::MAX && m.contains_key(b->0 as usize)
            },
        |n: usize| m[structural::line_before(n as int, at, count, delete)->0 as usize],
    )
}

/// A set of lines after an edit.
pub open spec fn shifted_set(s: Set<usize>, at: int, count: int, delete: bool) -> Set<usize> {
    Set::new(
        |n: usize|
            {
                let b = structural::line_before(n as int, at, count, delete);
                b is Some && b->0 <= usize::MAX && s.contains(b->0 as usize)
            },
    )
}

/// The number of frozen lines after an edit: an edit inside the band makes it
/// grow or shrink, one behind it leaves it alone.
pub open spec fn frozen_after(frozen: int, at: int, count: int, delete: bool) -> int {
    if at >= frozen {
        frozen
    } else if delete {
        if count < frozen - at {
            frozen - count
        } else {
            at
        }
    } else {
        frozen + count
    }
}

/// The column filters after an edit of the columns: those on a column that is
/// left, each on the new place of its column.
pub open spec fn columns_after(
    cols: Seq<ColumnFilterSpec>,
    at: int,
    count: int,
    delete: bool,
) -> Seq<(int, Seq<char>)>
    decreases cols.len(),
{
    if cols.len() == 0 {
        Seq::empty()
    } else {
        let rest = columns_after(cols.drop_last(), at, count, delete);
        match structural::line_after(cols.last().col as int, at, count, delete) {
            Some(n) => rest.push((n, cols.last().filter@)),
            None => rest,
        }
    }
}

/// The column filters as a list of column and filter.
pub open spec fn columns_view(cols: Seq<ColumnFilterSpec>) -> Seq<(int, Seq<char>)> {
    cols.map_values(|c: ColumnFilterSpec| (c.col as int, c.filter@))
}

pub open spec fn sort_after(sort: Option<SortState>, at: int, count: int, delete: bool) -> Option<
    SortState,
> {
    match sort {
        None => None,
        Some(s) => match structural::line_after(s.column as int, at, count, delete) {
            Some(n) => Some(SortState { column: n as usize, direction: s.direction }),
            None => None,
        },
    }
}

/// `new` is what an edit makes of the filter `f`: gone with its region, else
/// moved along; column filters and sort follow only an edit of the columns.
pub open spec fn filter_follows(
    f: Option<FilterSpec>,
    new: Option<FilterSpec>,
    at: int,
    count: int,
    delete: bool,
    is_row: bool,
) -> bool {
    match f {
        None => new is None,
        Some(o) => {
            let span = if is_row {
                structural::span_after(o.range.0 as int, o.range.2 as int, at, count, delete)
            } else {
                structural::span_after(o.range.1 as int, o.range.3 as int, at, count, delete)
            };
            match span {
                None => new is None,
                Some(p) => {
                    &&& new is Some
                    &&& is_row ==> {
                        &&& new->0.range == (p.0 as usize, o.range.1, p.1 as usize, o.range.3)
                        &&& new->0.columns == o.columns
                        &&& new->0.sort == o.sort
                    }
                    &&& !is_row ==> {
                        &&& new->0.range == (o.range.0, p.0 as usize, o.range.2, p.1 as usize)
                        &&& columns_view(new->0.columns@) == columns_after(
                            o.columns@,
                            at,
                            count,
                            delete,
                        )
                        &&& new->0.sort == sort_after(o.sort, at, count, delete)
                    }
                },
            }
        },
    }
}

/// The part of a range in front of its first `!`, without the quotes around
/// it; empty where the range names no sheet.
pub open spec fn range_sheet(r: Seq<char>) -> Seq<char> {
    if exists|i: int| first_bang(r, i) {
        without_quotes(r.take(choose|i: int| first_bang(r, i)))
    } else {
        Seq::empty()
    }
}

pub open spec fn first_bang(r: Seq<char>, i: int) -> bool {
    0 <= i < r.len() && r[i] == '!' && forall|j: int| 0 <= j < i ==> r[j] != '!'
}

pub open spec fn quotes_off_front(s: Seq<char>) -> Seq<char>
    decreases s.len(),
{
    if s.len() > 0 && s[0] == '\'' {
        quotes_off_front(s.skip(1))
    } else {
        s
    }
}

pub open spec fn quotes_off_back(s: Seq<char>) -> Seq<char>
    decreases s.len(),
{
    if s.len() > 0 && s.last() == '\'' {
        quotes_off_back(s.drop_last())
    } else {
        s
    }
}

/// `s` without the single quotes around it.
pub open spec fn without_quotes(s: Seq<char>) -> Seq<char> {
    quotes_off_back(quotes_off_front(s))
}

/// `s` without its leading equals signs.
pub open spec fn without_equals(s: Seq<char>) -> Seq<char>
    decreases s.len(),
{
    if s.len() > 0 && s[0] == '=' {
        without_equals(s.skip(1))
    } else {
        s
    }
}

/// The range that a chart plots after an edit, from what the reference
/// transform made of the range's formula: its answer without the equals sign,
/// or the range itself where it changed nothing.
pub open spec fn range_after(range: Seq<char>, adjusted: Option<Seq<char>>) -> Seq<char> {
    match adjusted {
        Some(a) => without_equals(a),
        None => range,
    }
}

/// `new` is what an edit makes of one chart.
pub open spec fn chart_follows(o: ChartEntry, new: ChartEntry, adjusted: Option<String>) -> bool {
    &&& new.entry == o.entry
    &&& match o.data_range {
        None => new.data_range is None,
        Some(r) => new.data_range is Some && new.data_range->0@ == range_after(
            r@,
            text::opt_text(adjusted),
        ),
    }
}

/// `new` is what an edit makes of the charts.
pub open spec fn charts_follow(o: Option<Charts>, new: Option<Charts>, adjusted: Seq<Option<String>>) -> bool {
    match o {
        Some(Charts::List(l)) => {
            &&& new matches Some(Charts::List(n))
            &&& n@.len() == l@.len()
            &&& forall|i: int|
                0 <= i < l@.len() ==> chart_follows(l@[i], #[trigger] n@[i], adjusted[i])
        },
        _ => new == o,
    }
}

/// Every line of a map can move up by `count`.
pub open spec fn lines_fit(s: Set<usize>, at: int, count: int) -> bool {
    forall|k: usize| s.contains(k) && at <= k ==> #[trigger] (k + count) <= usize::MAX
}

/// A line that an insert at `at` moves can move up by `count`.
pub open spec fn line_fits(k: usize, at: int, count: int) -> bool {
    at <= k ==> k + count <= usize::MAX
}

/// The lines of a filter that an insert moves can move up by `count`.
pub open spec fn filter_fits(f: Option<FilterSpec>, at: int, count: int, delete: bool, is_row: bool) -> bool {
    match f {
        None => true,
        Some(o) => !delete ==> if is_row {
            line_fits(o.range.0, at, count) && line_fits(o.range.2, at, count)
        } else {
            &&& line_fits(o.range.1, at, count) && line_fits(o.range.3, at, count)
            &&& forall|i: int|
                0 <= i < o.columns@.len() ==> line_fits((#[trigger] o.columns@[i]).col, at, count)
            &&& o.sort is Some ==> line_fits(o.sort->0.column, at, count)
        },
    }
}

impl SheetLayout {
    /// The positions of this layout that the edit moves can still be counted.
    pub open spec fn fits(self, at: int, count: int, delete: bool, is_row: bool) -> bool {
        &&& filter_fits(self.filter, at, count, delete, is_row)
        &&& !delete ==> if is_row {
            &&& lines_fit(self.row_heights@.dom(), at, count)
            &&& lines_fit(self.hidden_rows@, at, count)
            &&& at < self.frozen_rows ==> self.frozen_rows + count <= usize::MAX
        } else {
            &&& lines_fit(self.col_widths@.dom(), at, count)
            &&& lines_fit(self.hidden_cols@, at, count)
            &&& at < self.frozen_cols ==> self.frozen_cols + count <= usize::MAX
        }
    }

    /// There is an answer of the reference transform for every chart.
    pub open spec fn answered_by(self, adjusted: Seq<Option<String>>) -> bool {
        self.charts matches Some(Charts::List(l)) ==> l@.len() == adjusted.len()
    }

    /// Move presentation state to follow a structural edit on this sheet.
    ///
    /// `adjusted` holds, for each chart that names a range, what the formula
    /// reference transform made of [`range_formula`]; the transform belongs to
    /// the calculation engine.
    pub fn shift_for_structural(
        &mut self,
        at: usize,
        count: usize,
        delete: bool,
        is_row: bool,
        adjusted: &Vec<Option<String>>,
    )
        requires
            old(self).fits(at as int, count as int, delete, is_row),
            old(self).answered_by(adjusted@),
        ensures
            layout_follows(*old(self), *final(self), at as int, count as int, delete, is_row, adjusted@),
    {
        if is_row {
            self.row_heights = shift_keys(&self.row_heights, at, count, delete);
            self.hidden_rows = shift_set(&self.hidden_rows, at, count, delete);
            self.frozen_rows = shift_frozen(self.frozen_rows, at, count, delete);
        } else {
            self.col_widths = shift_keys(&self.col_widths, at, count, delete);
            self.hidden_cols = shift_set(&self.hidden_cols, at, count, delete);
            self.frozen_cols = shift_frozen(self.frozen_cols, at, count, delete);
        }
        let filter = self.filter.take();
        self.filter = shift_filter(filter, at, count, delete, is_row);
        let charts = self.charts.take();
        self.charts = shift_charts(charts, adjusted);
    }

    /// Whether the layout holds nothing that would have to be kept.
    pub fn is_empty(&self) -> (r: bool)
        ensures
            r == (self.hidden_rows@.is_empty() && self.hidden_cols@.is_empty()
                && self.col_widths@.dom().is_empty() && self.row_heights@.dom().is_empty()
                && self.frozen_rows == 0 && self.frozen_cols == 0 && self.filter is None
                && self.charts is None),
    {
        self.hidden_rows.is_empty() && self.hidden_cols.is_empty() && self.col_widths.is_empty()
            && self.row_heights.is_empty() && self.frozen_rows == 0 && self.frozen_cols == 0
            && self.filter.is_none() && self.charts.is_none()
    }
}

impl Default for SheetLayout {
    /// The layout of a sheet that nothing was done to.
    fn default() -> (l: SheetLayout)
        ensures
            l@ == no_layout(),
    {
        SheetLayout {
            col_widths: BTreeMap::new(),
            row_heights: BTreeMap::new(),
            frozen_rows: 0,
            frozen_cols: 0,
            hidden_rows: BTreeSet::new(),
            hidden_cols: BTreeSet::new(),
            filter: None,
            charts: None,
        }
    }
}

/// The lines among the first `n` listed ones that an edit leaves, each in its
/// new place.
spec fn moved_keys(v: Seq<(usize, u32)>, n: int, at: int, count: int, delete: bool) -> Set<usize> {
    Set::new(
        |k: usize|
            exists|i: int|
                0 <= i < n && structural::line_after((#[trigger] v[i]).0 as int, at, count, delete)
                    == Some(k as int),
    )
}

fn shift_keys(m: &BTreeMap<usize, u32>, at: usize, count: usize, delete: bool) -> (r: BTreeMap<
    usize,
    u32,
>)
    requires
        !delete ==> lines_fit(m@.dom(), at as int, count as int),
    ensures
        r@ == shifted_map(m@, at as int, count as int, delete),
{
    let v = collections::map_entries(m);
    let mut r: BTreeMap<usize, u32> = BTreeMap::new();
    let mut i: usize = 0;
    while i < v.len()
        invariant
            i <= v.len(),
            collections::lists_map(v@, m@),
            !delete ==> lines_fit(m@.dom(), at as int, count as int),
            forall|n: usize| #[trigger]
                r@.contains_key(n) <==> moved_keys(v@, i as int, at as int, count as int, delete).contains(
                    n,
                ),
            forall|n: usize| #[trigger]
                r@.contains_key(n) ==> shifted_map(m@, at as int, count as int, delete).contains_key(
                    n,
                ) && r@[n] == shifted_map(m@, at as int, count as int, delete)[n],
        decreases v.len() - i,
    {
        let (k, w) = v[i];
        let ghost before = r@;
        assert(m@.dom().contains(k));
        assert(!delete && at <= k ==> (k + count) <= usize::MAX);
        match structural::shift_line(k, at, count, delete) {
            Some(n) => {
                collections::map_insert(&mut r, n, w);
                proof {
                    structural::lines_do_not_collide(k as int, at as int, count as int, delete);
                    let s0 = moved_keys(v@, i as int, at as int, count as int, delete);
                    let s1 = moved_keys(v@, i + 1, at as int, count as int, delete);
                    assert forall|q: usize| #[trigger] r@.contains_key(q) <==> s1.contains(q) by {
                        if q == n {
                            assert(v@[i as int].0 == k);
                        } else {
                            assert(before.contains_key(q) <==> s0.contains(q));
                        }
                    }
                }
            },
            None => {
                proof {
                    let s0 = moved_keys(v@, i as int, at as int, count as int, delete);
                    let s1 = moved_keys(v@, i + 1, at as int, count as int, delete);
                    assert forall|q: usize| #[trigger] r@.contains_key(q) <==> s1.contains(q) by {
                        assert(before.contains_key(q) <==> s0.contains(q));
                    }
                }
            },
        }
        i = i + 1;
    }
    proof {
        let target = shifted_map(m@, at as int, count as int, delete);
        let moved = moved_keys(v@, v@.len() as int, at as int, count as int, delete);
        assert forall|n: usize| target.contains_key(n) implies r@.contains_key(n) by {
            let b = structural::line_before(n as int, at as int, count as int, delete)->0 as usize;
            assert(m@.contains_key(b));
            let j = choose|j: int| 0 <= j < v@.len() && (#[trigger] v@[j]).0 == b;
            structural::lines_do_not_collide(n as int, at as int, count as int, delete);
            assert(structural::line_after(v@[j].0 as int, at as int, count as int, delete) == Some(
                n as int,
            ));
            assert(moved.contains(n));
        }
        assert(r@ =~= target);
    }
    r
}

fn shift_set(s: &BTreeSet<usize>, at: usize, count: usize, delete: bool) -> (r: BTreeSet<usize>)
    requires
        !delete ==> lines_fit(s@, at as int, count as int),
    ensures
        r@ == shifted_set(s@, at as int, count as int, delete),
{
    let v = collections::set_items(s);
    let mut r: BTreeSet<usize> = BTreeSet::new();
    let mut i: usize = 0;
    while i < v.len()
        invariant
            i <= v.len(),
            collections::lists_set(v@, s@),
            !delete ==> lines_fit(s@, at as int, count as int),
            forall|n: usize| #[trigger]
                r@.contains(n) <==> exists|j: int|
                    0 <= j < i && structural::line_after(
                        #[trigger] v@[j] as int,
                        at as int,
                        count as int,
                        delete,
                    ) == Some(n as int),
        decreases v.len() - i,
    {
        let k: usize = v[i];
        let ghost before = r@;
        assert(v@.contains(k));
        assert(s@.contains(k));
        assert(!delete && at <= k ==> (k + count) <= usize::MAX);
        match structural::shift_line(k, at, count, delete) {
            Some(n) => {
                collections::set_insert(&mut r, n);
                assert forall|q: usize| #[trigger] r@.contains(q) <==> exists|j: int|
                    0 <= j < i + 1 && structural::line_after(
                        #[trigger] v@[j] as int,
                        at as int,
                        count as int,
                        delete,
                    ) == Some(q as int) by {
                    if q == n {
                        assert(v@[i as int] == k);
                    } else {
                        assert(before.contains(q) <==> r@.contains(q));
                    }
                }
            },
            None => {
                assert forall|q: usize| #[trigger] r@.contains(q) <==> exists|j: int|
                    0 <= j < i + 1 && structural::line_after(
                        #[trigger] v@[j] as int,
                        at as int,
                        count as int,
                        delete,
                    ) == Some(q as int) by {
                    assert(before.contains(q) <==> r@.contains(q));
                }
            },
        }
        i = i + 1;
    }
    proof {
        let target = shifted_set(s@, at as int, count as int, delete);
        assert forall|n: usize| target.contains(n) implies r@.contains(n) by {
            let b = structural::line_before(n as int, at as int, count as int, delete)->0 as usize;
            assert(v@.contains(b));
            let j = choose|j: int| 0 <= j < v@.len() && v@[j] == b;
            structural::lines_do_not_collide(n as int, at as int, count as int, delete);
            assert(structural::line_after(v@[j] as int, at as int, count as int, delete) == Some(
                n as int,
            ));
        }
        assert forall|n: usize| r@.contains(n) implies target.contains(n) by {
            let j = choose|j: int|
                0 <= j < v@.len() && structural::line_after(
                    #[trigger] v@[j] as int,
                    at as int,
                    count as int,
                    delete,
                ) == Some(n as int);
            assert(v@.contains(v@[j]));
            structural::lines_do_not_collide(v@[j] as int, at as int, count as int, delete);
        }
        assert(r@ =~= target);
    }
    r
}

fn shift_frozen(frozen: usize, at: usize, count: usize, delete: bool) -> (r: usize)
    requires
        !delete && at < frozen ==> frozen + count <= usize::MAX,
    ensures
        r == frozen_after(frozen as int, at as int, count as int, delete),
{
    if at < frozen {
        if delete {
            let inside: usize = frozen - at;
            let taken: usize = if count < inside {
                count
            } else {
                inside
            };
            frozen - taken
        } else {
            frozen + count
        }
    } else {
        frozen
    }
}

fn shift_filter(f: Option<FilterSpec>, at: usize, count: usize, delete: bool, is_row: bool) -> (r: Option<
    FilterSpec,
>)
    requires
        filter_fits(f, at as int, count as int, delete, is_row),
    ensures
        filter_follows(f, r, at as int, count as int, delete, is_row),
{
    match f {
        None => None,
        Some(o) => {
            let (s, e) = if is_row {
                (o.range.0, o.range.2)
            } else {
                (o.range.1, o.range.3)
            };
            match structural::shift_span(s, e, at, count, delete) {
                None => None,
                Some((ns, ne)) => {
                    if is_row {
                        Some(
                            FilterSpec {
                                range: (ns, o.range.1, ne, o.range.3),
                                columns: o.columns,
                                sort: o.sort,
                            },
                        )
                    } else {
                        let columns = shift_columns(&o.columns, at, count, delete);
                        let sort = match o.sort {
                            None => None,
                            Some(st) => match structural::shift_line(st.column, at, count, delete) {
                                Some(n) => Some(SortState { column: n, direction: st.direction }),
                                None => None,
                            },
                        };
                        Some(FilterSpec { range: (o.range.0, ns, o.range.2, ne), columns, sort })
                    }
                },
            }
        },
    }
}

fn shift_columns(cols: &Vec<ColumnFilterSpec>, at: usize, count: usize, delete: bool) -> (r: Vec<
    ColumnFilterSpec,
>)
    requires
        !delete ==> forall|i: int|
            0 <= i < cols@.len() ==> line_fits((#[trigger] cols@[i]).col, at as int, count as int),
    ensures
        columns_view(r@) == columns_after(cols@, at as int, count as int, delete),
{
    let mut r: Vec<ColumnFilterSpec> = Vec::new();
    let mut i: usize = 0;
    assert(columns_view(r@) =~= columns_after(cols@.take(0), at as int, count as int, delete));
    while i < cols.len()
        invariant
            i <= cols.len(),
            !delete ==> forall|j: int|
                0 <= j < cols@.len() ==> line_fits(
                    (#[trigger] cols@[j]).col,
                    at as int,
                    count as int,
                ),
            columns_view(r@) == columns_after(
                cols@.take(i as int),
                at as int,
                count as int,
                delete,
            ),
        decreases cols.len() - i,
    {
        let ghost before = r@;
        assert(cols@.take(i + 1).drop_last() =~= cols@.take(i as int));
        assert(cols@.take(i + 1).last() == cols@[i as int]);
        match structural::shift_line(cols[i].col, at, count, delete) {
            Some(n) => {
                r.push(ColumnFilterSpec { col: n, filter: cols[i].filter.clone() });
                assert(columns_view(r@) =~= columns_view(before).push(
                    (n as int, cols@[i as int].filter@),
                ));
            },
            None => {},
        }
        i = i + 1;
    }
    assert(cols@.take(cols@.len() as int) =~= cols@);
    r
}

/// A range as the formula that the reference transform works on.
pub fn range_formula(range: &str) -> (r: String)
    ensures
        r@ == "="@ + range@,
{
    text::cat("=", range)
}

/// The sheet that a range names, by which the reference transform resolves it.
pub fn range_sheet_name(range: &str) -> (r: String)
    ensures
        r@ == range_sheet(range@),
{
    let v = text::chars_of(range);
    let mut i: usize = 0;
    while i < v.len()
        invariant
            i <= v.len(),
            v@ == range@,
            forall|j: int| 0 <= j < i ==> v@[j] != '!',
        decreases v.len() - i,
    {
        if v[i] == '!' {
            assert(first_bang(range@, i as int));
            assert(forall|k: int| first_bang(range@, k) ==> k == i as int) by {
                assert forall|k: int| first_bang(range@, k) implies k == i as int by {
                    if k < i {
                        assert(v@[k] != '!');
                    }
                }
            }
            return strip_quotes(&v, i);
        }
        i = i + 1;
    }
    assert(forall|k: int| !first_bang(range@, k));
    String::new()
}

fn strip_quotes(v: &Vec<char>, end: usize) -> (r: String)
    requires
        end <= v.len(),
    ensures
        r@ == without_quotes(v@.take(end as int)),
{
    let ghost s = v@.take(end as int);
    let mut a: usize = 0;
    assert(s.skip(0) =~= s);
    while a < end && v[a] == '\''
        invariant
            a <= end <= v.len(),
            s == v@.take(end as int),
            quotes_off_front(s) == quotes_off_front(s.skip(a as int)),
        decreases end - a,
    {
        assert(s.skip(a as int)[0] == v@[a as int]);
        assert(s.skip(a as int).skip(1) =~= s.skip(a + 1));
        a = a + 1;
    }
    let ghost t = s.skip(a as int);
    assert(quotes_off_front(s) == t) by {
        if a < end {
            assert(t[0] == v@[a as int]);
        }
    }
    let mut b: usize = end;
    assert(v@.subrange(a as int, b as int) =~= t);
    while b > a && v[b - 1] == '\''
        invariant
            a <= b <= end <= v.len(),
            quotes_off_back(t) == quotes_off_back(v@.subrange(a as int, b as int)),
        decreases b,
    {
        assert(v@.subrange(a as int, b as int).last() == v@[b - 1]);
        assert(v@.subrange(a as int, b as int).drop_last() =~= v@.subrange(a as int, b - 1));
        b = b - 1;
    }
    proof {
        if b > a {
            assert(v@.subrange(a as int, b as int).last() == v@[b - 1]);
        }
    }
    text::slice_text(v, a, b)
}

/// The range after an edit, from the answer of the reference transform.
pub fn shift_a1_range(range: &str, adjusted: &Option<String>) -> (r: String)
    ensures
        r@ == range_after(range@, text::opt_text(*adjusted)),
{
    match adjusted {
        None => text::lit(range),
        Some(a) => {
            let v = text::chars_of(a.as_str());
            let mut i: usize = 0;
            assert(a@.skip(0) =~= a@);
            while i < v.len() && v[i] == '='
                invariant
                    v@ == a@,
                    i <= v.len(),
                    without_equals(a@) == without_equals(a@.skip(i as int)),
                decreases v.len() - i,
            {
                assert(a@.skip(i as int).skip(1) =~= a@.skip(i + 1));
                i = i + 1;
            }
            let r = text::slice_text(&v, i, v.len());
            assert(r@ =~= a@.skip(i as int));
            r
        },
    }
}

fn shift_charts(charts: Option<Charts>, adjusted: &Vec<Option<String>>) -> (r: Option<Charts>)
    requires
        charts matches Some(Charts::List(l)) ==> l@.len() == adjusted@.len(),
    ensures
        charts_follow(charts, r, adjusted@),
{
    match charts {
        Some(Charts::List(l)) => {
            let mut n: Vec<ChartEntry> = Vec::new();
            let mut i: usize = 0;
            while i < l.len()
                invariant
                    i <= l.len(),
                    l@.len() == adjusted@.len(),
                    n@.len() == i,
                    forall|j: int|
                        0 <= j < i ==> chart_follows(l@[j], #[trigger] n@[j], adjusted@[j]),
                decreases l.len() - i,
            {
                let data_range = match &l[i].data_range {
                    None => None,
                    Some(range) => Some(shift_a1_range(range.as_str(), &adjusted[i])),
                };
                n.push(ChartEntry { data_range, entry: l[i].entry.clone() });
                i = i + 1;
            }
            Some(Charts::List(n))
        },
        other => other,
    }
}

/// Deleting the lines that were just inserted gives back the sizes, the hidden
/// lines and the frozen band.
pub proof fn layout_survives_insert_and_delete(
    m: Map<usize, u32>,
    s: Set<usize>,
    frozen: int,
    at: int,
    count: int,
)
    requires
        0 <= at,
        0 <= count,
        0 <= frozen,
        lines_fit(m.dom(), at, count),
        lines_fit(s, at, count),
    ensures
        shifted_map(shifted_map(m, at, count, false), at, count, true) == m,
        shifted_set(shifted_set(s, at, count, false), at, count, true) == s,
        frozen_after(frozen_after(frozen, at, count, false), at, count, true) == frozen,
{
    let m1 = shifted_map(m, at, count, false);
    let m2 = shifted_map(m1, at, count, true);
    assert forall|n: usize| m2.contains_key(n) <==> m.contains_key(n) by {
        lemma_round_trip(n, at, count);
        if m.contains_key(n) {
            assert(at <= n ==> (n + count) <= usize::MAX);
        }
    }
    assert forall|n: usize| m2.contains_key(n) implies m2[n] == m[n] by {
        lemma_round_trip(n, at, count);
    }
    assert(m2 =~= m);
    let s1 = shifted_set(s, at, count, false);
    let s2 = shifted_set(s1, at, count, true);
    assert forall|n: usize| s2.contains(n) <==> s.contains(n) by {
        lemma_round_trip(n, at, count);
        if s.contains(n) {
            assert(at <= n ==> (n + count) <= usize::MAX);
        }
    }
    assert(s2 =~= s);
}

proof fn lemma_columns_round_trip(
    cols: Seq<ColumnFilterSpec>,
    moved: Seq<ColumnFilterSpec>,
    at: int,
    count: int,
)
    requires
        0 <= at,
        0 <= count,
        columns_view(moved) == columns_after(cols, at, count, false),
    ensures
        columns_after(moved, at, count, true) == columns_view(cols),
    decreases cols.len(),
{
    if cols.len() == 0 {
        assert(columns_view(moved).len() == moved.len());
        assert(columns_view(cols) =~= Seq::empty());
    } else {
        let front = cols.drop_last();
        let view = columns_view(moved);
        assert(view.len() == moved.len());
        assert(view.drop_last() =~= columns_after(front, at, count, false));
        assert(columns_view(moved.drop_last()) =~= view.drop_last());
        lemma_columns_round_trip(front, moved.drop_last(), at, count);
        assert(view.last() == (moved.last().col as int, moved.last().filter@));
        structural::delete_undoes_insert(cols.last().col as int, at, count);
        assert(columns_view(cols) =~= columns_view(front).push(
            (cols.last().col as int, cols.last().filter@),
        ));
    }
}

/// The region of a filter goes from its first to its last row and column.
pub open spec fn filter_in_order(f: Option<FilterSpec>) -> bool {
    f matches Some(o) ==> o.range.0 <= o.range.2 && o.range.1 <= o.range.3
}

/// Deleting the lines that were just inserted gives back the filter: its
/// region, its column filters and its sort order.
pub proof fn a_filter_survives_insert_and_delete(
    f: Option<FilterSpec>,
    moved: Option<FilterSpec>,
    back: Option<FilterSpec>,
    at: int,
    count: int,
    is_row: bool,
)
    requires
        0 <= at,
        0 <= count,
        filter_in_order(f),
        filter_fits(f, at, count, false, is_row),
        filter_follows(f, moved, at, count, false, is_row),
        filter_follows(moved, back, at, count, true, is_row),
    ensures
        filter_model(back) == filter_model(f),
{
    if let Some(o) = f {
        if !is_row {
            lemma_columns_round_trip(o.columns@, moved->0.columns@, at, count);
        }
        assert(filter_model(back)->0 =~= filter_model(f)->0);
    }
}

proof fn lemma_round_trip(n: usize, at: int, count: int)
    requires
        0 <= at,
        0 <= count,
    ensures
        structural::line_before(n as int, at, count, true) matches Some(b)
            && structural::line_before(b, at, count, false) == Some(n as int),
{
}

/// The frozen band is that of the lines that were frozen and are left: a line
/// that an edit leaves stands in the band afterwards exactly if it stood in it
/// before. An insert into the band freezes what it inserted, and one behind the
/// band freezes nothing more.
pub proof fn the_frozen_band_follows_its_lines(frozen: int, at: int, count: int, delete: bool)
    requires
        0 <= frozen,
        0 <= at,
        0 <= count,
    ensures
        0 <= frozen_after(frozen, at, count, delete),
        forall|k: int|
            0 <= k ==> ((#[trigger] structural::line_after(k, at, count, delete)) matches Some(n)
                ==> (n < frozen_after(frozen, at, count, delete) <==> k < frozen)),
        delete ==> frozen_after(frozen, at, count, delete) == lines_left(frozen, at, count),
        !delete && at < frozen ==> frozen_after(frozen, at, count, delete) == frozen + count,
        !delete && frozen <= at ==> frozen_after(frozen, at, count, delete) == frozen,
{
    if delete {
        lemma_lines_left(frozen, at, count);
    }
}

/// How many of the first `n` lines a delete leaves.
pub open spec fn lines_left(n: int, at: int, count: int) -> int
    decreases n,
{
    if n <= 0 {
        0
    } else {
        lines_left(n - 1, at, count) + if structural::line_after(n - 1, at, count, true) is Some {
            1int
        } else {
            0
        }
    }
}

proof fn lemma_lines_left(n: int, at: int, count: int)
    requires
        0 <= n,
        0 <= at,
        0 <= count,
    ensures
        lines_left(n, at, count) == if n <= at {
            n
        } else if n <= at + count {
            at
        } else {
            n - count
        },
    decreases n,
{
    if n > 0 {
        lemma_lines_left(n - 1, at, count);
    }
}

/// A size stays with its line: a line that an edit leaves has the same size in
/// its new place, an inserted line has none, and no size comes from anywhere
/// else. Lines that are hidden stay hidden, and no others are.
pub proof fn sizes_stay_with_their_lines(
    m: Map<usize, u32>,
    s: Set<usize>,
    at: int,
    count: int,
    delete: bool,
)
    requires
        0 <= at,
        0 <= count,
        !delete ==> lines_fit(m.dom(), at, count),
        !delete ==> lines_fit(s, at, count),
    ensures
        forall|k: usize, n: usize|
            #![trigger m.contains_key(k), shifted_map(m, at, count, delete).contains_key(n)]
            structural::line_after(k as int, at, count, delete) == Some(n as int) ==> (
            m.contains_key(k) <==> shifted_map(m, at, count, delete).contains_key(n)) && (
            m.contains_key(k) ==> shifted_map(m, at, count, delete)[n] == m[k]),
        forall|k: usize, n: usize|
            #![trigger s.contains(k), shifted_set(s, at, count, delete).contains(n)]
            structural::line_after(k as int, at, count, delete) == Some(n as int) ==> (s.contains(k)
                <==> shifted_set(s, at, count, delete).contains(n)),
        forall|n: usize| #[trigger]
            shifted_map(m, at, count, delete).contains_key(n) ==> exists|k: usize|
                m.contains_key(k) && #[trigger] structural::line_after(
                    k as int,
                    at,
                    count,
                    delete,
                ) == Some(n as int),
        forall|n: usize| #[trigger]
            shifted_set(s, at, count, delete).contains(n) ==> exists|k: usize|
                s.contains(k) && #[trigger] structural::line_after(
                    k as int,
                    at,
                    count,
                    delete,
                ) == Some(n as int),
        !delete ==> forall|n: usize|
            at <= n < at + count ==> !(#[trigger] shifted_map(m, at, count, delete).contains_key(n))
                && !shifted_set(s, at, count, delete).contains(n),
{
    assert forall|n: usize| #[trigger] shifted_map(m, at, count, delete).contains_key(n) implies exists|
        k: usize,
    |
        m.contains_key(k) && #[trigger] structural::line_after(k as int, at, count, delete) == Some(
            n as int,
        ) by {
        structural::lines_do_not_collide(n as int, at, count, delete);
        let k = structural::line_before(n as int, at, count, delete)->0 as usize;
        assert(m.contains_key(k));
        assert(structural::line_after(k as int, at, count, delete) == Some(n as int));
    }
    assert forall|n: usize| #[trigger] shifted_set(s, at, count, delete).contains(n) implies exists|
        k: usize,
    |
        s.contains(k) && #[trigger] structural::line_after(k as int, at, count, delete) == Some(
            n as int,
        ) by {
        structural::lines_do_not_collide(n as int, at, count, delete);
        let k = structural::line_before(n as int, at, count, delete)->0 as usize;
        assert(s.contains(k));
        assert(structural::line_after(k as int, at, count, delete) == Some(n as int));
    }
}

/// A filter stays with its columns: after an edit of the columns each column
/// filter that is left is on the column that its own has become, in the same
/// order, and one on a deleted column is gone. The sort order follows its column
/// in the same way, and keeps its direction.
pub proof fn column_filters_stay_with_their_columns(
    cols: Seq<ColumnFilterSpec>,
    sort: Option<SortState>,
    at: int,
    count: int,
    delete: bool,
)
    requires
        0 <= at,
        0 <= count,
        sort matches Some(x) ==> line_fits(x.column, at, count),
    ensures
        forall|i: int|
            0 <= i < cols.len() ==> (structural::line_after(
                (#[trigger] cols[i]).col as int,
                at,
                count,
                delete,
            ) matches Some(n) ==> columns_after(cols, at, count, delete).contains(
                (n, cols[i].filter@),
            )),
        forall|j: int|
            0 <= j < columns_after(cols, at, count, delete).len() ==> exists|i: int|
                0 <= i < cols.len() && structural::line_after(
                    (#[trigger] cols[i]).col as int,
                    at,
                    count,
                    delete,
                ) == Some((#[trigger] columns_after(cols, at, count, delete)[j]).0)
                    && cols[i].filter@ == columns_after(cols, at, count, delete)[j].1,
        columns_after(cols, at, count, delete).len() <= cols.len(),
        (forall|i: int|
            0 <= i < cols.len() ==> structural::line_after(
                (#[trigger] cols[i]).col as int,
                at,
                count,
                delete,
            ) is Some) ==> columns_after(cols, at, count, delete).len() == cols.len(),
        sort is None ==> sort_after(sort, at, count, delete) is None,
        sort matches Some(x) ==> match structural::line_after(
            x.column as int,
            at,
            count,
            delete,
        ) {
            Some(n) => sort_after(sort, at, count, delete) matches Some(y) && y.column == n
                && y.direction == x.direction,
            None => sort_after(sort, at, count, delete) is None,
        },
    decreases cols.len(),
{
    if cols.len() > 0 {
        let front = cols.drop_last();
        let n = cols.len() - 1;
        column_filters_stay_with_their_columns(front, sort, at, count, delete);
        let rest = columns_after(front, at, count, delete);
        let all = columns_after(cols, at, count, delete);
        assert forall|i: int| 0 <= i < cols.len() implies (structural::line_after(
            (#[trigger] cols[i]).col as int,
            at,
            count,
            delete,
        ) matches Some(x) ==> all.contains((x, cols[i].filter@))) by {
            if let Some(x) = structural::line_after(cols[i].col as int, at, count, delete) {
                if i < n {
                    assert(front[i] == cols[i]);
                    let j = choose|j: int| 0 <= j < rest.len() && rest[j] == (x, cols[i].filter@);
                    assert(all[j] == rest[j]);
                } else {
                    assert(all[rest.len() as int] == (x, cols[i].filter@));
                }
            }
        }
        assert forall|j: int| 0 <= j < all.len() implies exists|i: int|
            0 <= i < cols.len() && structural::line_after(
                (#[trigger] cols[i]).col as int,
                at,
                count,
                delete,
            ) == Some((#[trigger] all[j]).0) && cols[i].filter@ == all[j].1 by {
            if j < rest.len() {
                assert(all[j] == rest[j]);
                let i = choose|i: int|
                    0 <= i < front.len() && structural::line_after(
                        (#[trigger] front[i]).col as int,
                        at,
                        count,
                        delete,
                    ) == Some(rest[j].0) && front[i].filter@ == rest[j].1;
                assert(cols[i] == front[i]);
            } else {
                assert(cols[n] == cols.last());
            }
        }
        if forall|i: int|
            0 <= i < cols.len() ==> structural::line_after(
                (#[trigger] cols[i]).col as int,
                at,
                count,
                delete,
            ) is Some {
            assert(cols[n] == cols.last());
            assert forall|i: int| 0 <= i < front.len() implies structural::line_after(
                (#[trigger] front[i]).col as int,
                at,
                count,
                delete,
            ) is Some by {
                assert(front[i] == cols[i]);
            }
        }
    }
}

/// The region of a filter covers what is left of its lines, and is gone with the
/// last of them. Along the other axis it does not move.
pub proof fn a_filter_covers_what_is_left_of_it(
    f: Option<FilterSpec>,
    new: Option<FilterSpec>,
    at: int,
    count: int,
    delete: bool,
    is_row: bool,
)
    requires
        0 <= at,
        0 <= count,
        filter_in_order(f),
        filter_fits(f, at, count, delete, is_row),
        filter_follows(f, new, at, count, delete, is_row),
    ensures
        f is None ==> new is None,
        f matches Some(o) ==> ({
            let first = if is_row {
                o.range.0
            } else {
                o.range.1
            };
            let last = if is_row {
                o.range.2
            } else {
                o.range.3
            };
            match new {
                None => forall|k: int|
                    first <= k <= last ==> #[trigger] structural::line_after(k, at, count, delete)
                        is None,
                Some(x) => {
                    let from = if is_row {
                        x.range.0
                    } else {
                        x.range.1
                    };
                    let to = if is_row {
                        x.range.2
                    } else {
                        x.range.3
                    };
                    &&& is_row ==> x.range.1 == o.range.1 && x.range.3 == o.range.3
                    &&& !is_row ==> x.range.0 == o.range.0 && x.range.2 == o.range.2
                    &&& exists|k: int|
                        first <= k <= last && #[trigger] structural::line_after(
                            k,
                            at,
                            count,
                            delete,
                        ) == Some(from as int)
                    &&& exists|k: int|
                        first <= k <= last && #[trigger] structural::line_after(
                            k,
                            at,
                            count,
                            delete,
                        ) == Some(to as int)
                    &&& forall|k: int|
                        first <= k <= last ==> ((#[trigger] structural::line_after(
                            k,
                            at,
                            count,
                            delete,
                        )) matches Some(n) ==> from <= n <= to)
                },
            }
        }),
{
    if let Some(o) = f {
        let first = if is_row {
            o.range.0
        } else {
            o.range.1
        };
        let last = if is_row {
            o.range.2
        } else {
            o.range.3
        };
        structural::span_holds_the_lines_left(first as int, last as int, at, count, delete);
    }
}

/// A chart keeps everything but its range, and its range becomes what the
/// reference transform makes of it, without the equals sign.
pub proof fn charts_keep_all_but_their_ranges(
    o: Option<Charts>,
    new: Option<Charts>,
    adjusted: Seq<Option<String>>,
    i: int,
    answer: Seq<char>,
)
    requires
        charts_follow(o, new, adjusted),
    ensures
        o is None ==> new is None,
        o matches Some(Charts::Other(_)) ==> new == o,
        o matches Some(Charts::List(l)) ==> (new matches Some(Charts::List(n)) && n@.len()
            == l@.len() && (0 <= i < l@.len() ==> ({
            &&& n@[i].entry@ == l@[i].entry@
            &&& l@[i].data_range is None <==> n@[i].data_range is None
            &&& l@[i].data_range is Some && text::opt_text(adjusted[i]) == Some("="@ + answer)
                && !(answer.len() > 0 && answer[0] == '=') ==> text::opt_text(n@[i].data_range)
                == Some(answer)
            &&& adjusted[i] is None ==> text::opt_text(n@[i].data_range) == text::opt_text(
                l@[i].data_range,
            )
        }))),
{
    reveal_strlit("=");
    let whole = "="@ + answer;
    assert(whole.skip(1) =~= answer);
    reveal_with_fuel(without_equals, 3);
    if let Some(Charts::List(l)) = o {
        if 0 <= i < l@.len() {
            let n = (new->0)->List_0;
            assert(chart_follows(l@[i], n@[i], adjusted[i]));
        }
    }
}

/// A layout after an edit of rows or of columns.
pub open spec fn layout_follows(
    old: SheetLayout,
    new: SheetLayout,
    at: int,
    count: int,
    delete: bool,
    is_row: bool,
    adjusted: Seq<Option<String>>,
) -> bool {
    &&& is_row ==> {
        &&& new.row_heights@ == shifted_map(
            old.row_heights@,
            at,
            count,
            delete,
        )
        &&& new.hidden_rows@ == shifted_set(
            old.hidden_rows@,
            at,
            count,
            delete,
        )
        &&& new.frozen_rows == frozen_after(
            old.frozen_rows as int,
            at,
            count,
            delete,
        )
        &&& new.col_widths == old.col_widths
        &&& new.hidden_cols == old.hidden_cols
        &&& new.frozen_cols == old.frozen_cols
    }
    &&& !is_row ==> {
        &&& new.col_widths@ == shifted_map(
            old.col_widths@,
            at,
            count,
            delete,
        )
        &&& new.hidden_cols@ == shifted_set(
            old.hidden_cols@,
            at,
            count,
            delete,
        )
        &&& new.frozen_cols == frozen_after(
            old.frozen_cols as int,
            at,
            count,
            delete,
        )
        &&& new.row_heights == old.row_heights
        &&& new.hidden_rows == old.hidden_rows
        &&& new.frozen_rows == old.frozen_rows
    }
    &&& filter_follows(
        old.filter,
        new.filter,
        at,
        count,
        delete,
        is_row,
    )
    &&& charts_follow(old.charts, new.charts, adjusted)
}

/// An edit of the rows leaves everything about the columns alone, and one of the columns
/// everything about the rows. Along its own axis a line that is left keeps its height, is
/// hidden exactly if it was, and is frozen exactly if it was.
pub proof fn an_edit_moves_one_axis(
    old: SheetLayout,
    new: SheetLayout,
    at: int,
    count: int,
    delete: bool,
    is_row: bool,
    adjusted: Seq<Option<String>>,
    k: usize,
    n: usize,
)
    requires
        0 <= at,
        0 <= count,
        old.fits(at, count, delete, is_row),
        layout_follows(old, new, at, count, delete, is_row, adjusted),
        structural::line_after(k as int, at, count, delete) == Some(n as int),
    ensures
        is_row ==> {
            &&& new.col_widths == old.col_widths && new.hidden_cols == old.hidden_cols
                && new.frozen_cols == old.frozen_cols
            &&& old.row_heights@.contains_key(k) <==> new.row_heights@.contains_key(n)
            &&& old.row_heights@.contains_key(k) ==> new.row_heights@[n] == old.row_heights@[k]
            &&& old.hidden_rows@.contains(k) <==> new.hidden_rows@.contains(n)
            &&& k < old.frozen_rows <==> n < new.frozen_rows
        },
        !is_row ==> {
            &&& new.row_heights == old.row_heights && new.hidden_rows == old.hidden_rows
                && new.frozen_rows == old.frozen_rows
            &&& old.col_widths@.contains_key(k) <==> new.col_widths@.contains_key(n)
            &&& old.col_widths@.contains_key(k) ==> new.col_widths@[n] == old.col_widths@[k]
            &&& old.hidden_cols@.contains(k) <==> new.hidden_cols@.contains(n)
            &&& k < old.frozen_cols <==> n < new.frozen_cols
        },
        old.filter is None ==> new.filter is None,
        old.charts is None ==> new.charts is None,
{
    if is_row {
        sizes_stay_with_their_lines(old.row_heights@, old.hidden_rows@, at, count, delete);
        the_frozen_band_follows_its_lines(old.frozen_rows as int, at, count, delete);
    } else {
        sizes_stay_with_their_lines(old.col_widths@, old.hidden_cols@, at, count, delete);
        the_frozen_band_follows_its_lines(old.frozen_cols as int, at, count, delete);
    }
}

proof fn lemma_quotes_off(s: Seq<char>)
    requires
        s.len() > 0,
        s[0] != '\'',
        s.last() != '\'',
    ensures
        without_quotes(s) == s,
        without_quotes(seq!['\''] + s + seq!['\'']) == s,
{
    let q = seq!['\''] + s + seq!['\''];
    reveal_with_fuel(quotes_off_front, 3);
    reveal_with_fuel(quotes_off_back, 3);
    assert(q.skip(1) =~= s.push('\''));
    assert(s.push('\'').drop_last() =~= s);
    assert(q[0] == '\'');
    assert(s.push('\'')[0] == s[0]);
}

/// The sheet that a range names is what stands before the first exclamation mark, without
/// the quotes around it; a range without one names no sheet.
pub proof fn the_sheet_of_a_range(name: Seq<char>, rest: Seq<char>)
    requires
        name.len() > 0,
        name[0] != '\'',
        name.last() != '\'',
        !name.contains('!'),
    ensures
        range_sheet(name.push('!') + rest) == name,
        range_sheet((seq!['\''] + name + seq!['\'']).push('!') + rest) == name,
        !rest.contains('!') ==> range_sheet(rest).len() == 0,
{
    lemma_quotes_off(name);
    let a = name.push('!') + rest;
    let q = seq!['\''] + name + seq!['\''];
    let b = q.push('!') + rest;
    let n = name.len() as int;
    assert(a[n] == '!');
    assert forall|j: int| 0 <= j < n implies a[j] != '!' by {
        assert(a[j] == name[j]);
    }
    assert(first_bang(a, n));
    let i = choose|i: int| first_bang(a, i);
    assert(i == n) by {
        if i < n {
            assert(a[i] == name[i]);
        }
    }
    assert(a.take(n) =~= name);
    assert(b[n + 2] == '!');
    assert forall|j: int| 0 <= j < n + 2 implies b[j] != '!' by {
        if 0 < j < n + 1 {
            assert(b[j] == name[j - 1]);
        }
    }
    assert(first_bang(b, n + 2));
    let k = choose|i: int| first_bang(b, i);
    assert(k == n + 2) by {
        if k < n + 2 {
            assert(b[k] == '!');
        } else if k > n + 2 {
            assert(b[n + 2] != '!');
        }
    }
    assert(b.take(n + 2) =~= q);
    if !rest.contains('!') {
        if exists|i: int| first_bang(rest, i) {
            let j = choose|i: int| first_bang(rest, i);
            assert(rest[j] == '!');
        }
    }
}

} // verus!
