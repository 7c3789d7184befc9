//! Cells whose values break the rules of the sheet: they are marked, and one
//! can go from one to the next.

use vstd::prelude::*;

use crate::fitting::CellSpan;
use crate::state::{Spreadsheet, ViewState};
use crate::text;

verus! {

/// Why a value is not allowed.
#[derive(Debug, Clone, Copy, PartialEq, Eq, Structural)]
pub enum ValidationFailureReason {
    InvalidValue,
    ConstraintBlank,
    ConstraintNotNumeric,
    InvalidReference,
    FormulaNotSupported,
    ListEmpty,
    NotInList,
}

/// A cell with a value that is not allowed.
#[derive(Debug, Clone, Copy, PartialEq, Eq, Structural)]
pub struct CellFailure {
    pub row: usize,
    pub col: usize,
    pub reason: ValidationFailureReason,
}

/// What the rules say of a cell.
#[derive(Debug, Clone, Copy, PartialEq, Eq)]
pub struct CellVerdict {
    pub row: usize,
    pub col: usize,
    pub blank: bool,
    pub failure: Option<ValidationFailureReason>,
}

/// The cells with values that are not allowed: those to go through, the place
/// among them, and the marked ones.
#[derive(Debug, PartialEq, Eq)]
pub struct FailureState {
    pub list: Vec<(usize, usize)>,
    pub index: usize,
    pub marks: Vec<CellFailure>,
}

/// The mark on a cell.
pub open spec fn mark_in(v: Seq<CellFailure>, row: usize, col: usize) -> Option<
    ValidationFailureReason,
>
    decreases v.len(),
{
    if v.len() == 0 {
        None
    } else if v.last().row == row && v.last().col == col {
        Some(v.last().reason)
    } else {
        mark_in(v.drop_last(), row, col)
    }
}

/// The cell is in the range.
pub open spec fn in_span(s: CellSpan, row: usize, col: usize) -> bool {
    s.min_row <= row <= s.max_row && s.min_col <= col <= s.max_col
}

/// The range of one cell.
pub open spec fn single(row: usize, col: usize) -> CellSpan {
    CellSpan { min_row: row, min_col: col, max_row: row, max_col: col }
}

/// The marks outside of a range.
pub open spec fn marks_outside(v: Seq<CellFailure>, s: CellSpan) -> Seq<CellFailure>
    decreases v.len(),
{
    if v.len() == 0 {
        Seq::empty()
    } else {
        let rest = marks_outside(v.drop_last(), s);
        if in_span(s, v.last().row, v.last().col) {
            rest
        } else {
            rest.push(v.last())
        }
    }
}

/// The cells of a list outside of a range.
pub open spec fn cells_outside(v: Seq<(usize, usize)>, s: CellSpan) -> Seq<(usize, usize)>
    decreases v.len(),
{
    if v.len() == 0 {
        Seq::empty()
    } else {
        let rest = cells_outside(v.drop_last(), s);
        if in_span(s, v.last().0, v.last().1) {
            rest
        } else {
            rest.push(v.last())
        }
    }
}

/// No cell has two marks.
pub open spec fn marked_once(v: Seq<CellFailure>) -> bool {
    forall|i: int, j: int|
        0 <= i < j < v.len() ==> (#[trigger] v[i]).row != (#[trigger] v[j]).row || v[i].col
            != v[j].col
}

proof fn lemma_outside(v: Seq<CellFailure>, s: CellSpan)
    ensures
        forall|row: usize, col: usize| #[trigger]
            mark_in(marks_outside(v, s), row, col) == if in_span(s, row, col) {
                None
            } else {
                mark_in(v, row, col)
            },
        forall|i: int|
            0 <= i < marks_outside(v, s).len() ==> v.contains(#[trigger] marks_outside(v, s)[i])
                && !in_span(s, marks_outside(v, s)[i].row, marks_outside(v, s)[i].col),
        marked_once(v) ==> marked_once(marks_outside(v, s)),
    decreases v.len(),
{
    if v.len() > 0 {
        let front = v.drop_last();
        lemma_outside(front, s);
        let rest = marks_outside(front, s);
        let all = marks_outside(v, s);
        if !in_span(s, v.last().row, v.last().col) {
            assert(all.drop_last() =~= rest);
        }
        assert forall|row: usize, col: usize| #[trigger] mark_in(all, row, col) == (if in_span(
            s,
            row,
            col,
        ) {
            None
        } else {
            mark_in(v, row, col)
        }) by {
            assert(mark_in(rest, row, col) == if in_span(s, row, col) {
                None
            } else {
                mark_in(front, row, col)
            });
        }
        assert forall|i: int| 0 <= i < all.len() implies v.contains(#[trigger] all[i]) && !in_span(
            s,
            all[i].row,
            all[i].col,
        ) by {
            if i < rest.len() {
                assert(front.contains(rest[i]));
                let k = choose|k: int| 0 <= k < front.len() && front[k] == rest[i];
                assert(v[k] == all[i]);
            } else {
                assert(v[v.len() - 1] == all[i]);
            }
        }
        if marked_once(v) {
            assert(marked_once(front));
            assert forall|i: int, j: int| 0 <= i < j < all.len() implies (#[trigger] all[i]).row
                != (#[trigger] all[j]).row || all[i].col != all[j].col by {
                if j == rest.len() {
                    assert(front.contains(rest[i]));
                    let k = choose|k: int| 0 <= k < front.len() && front[k] == rest[i];
                    assert(v[k] == all[i]);
                    assert(v[v.len() - 1] == all[j]);
                }
            }
        }
    }
}

proof fn lemma_push_mark(v: Seq<CellFailure>, f: CellFailure)
    ensures
        forall|row: usize, col: usize| #[trigger]
            mark_in(v.push(f), row, col) == if row == f.row && col == f.col {
                Some(f.reason)
            } else {
                mark_in(v, row, col)
            },
{
    assert(v.push(f).drop_last() =~= v);
}

// ---------------------------------------------------------------------------
// Order
// ---------------------------------------------------------------------------

/// The first cell does not stand behind the second, row by row.
pub open spec fn not_behind(a: (usize, usize), b: (usize, usize)) -> bool {
    a.0 < b.0 || (a.0 == b.0 && a.1 <= b.1)
}

/// The cells are in order, row by row.
pub open spec fn in_row_order(v: Seq<(usize, usize)>) -> bool {
    forall|i: int, j: int| 0 <= i < j < v.len() ==> not_behind(#[trigger] v[i], #[trigger] v[j])
}

/// The same cells, in order.
pub open spec fn ordered(old: Seq<(usize, usize)>, new: Seq<(usize, usize)>) -> bool {
    in_row_order(new) && new.to_multiset() == old.to_multiset()
}

/// Put cells in order, row by row.
fn sort_cells(v: &Vec<(usize, usize)>) -> (r: Vec<(usize, usize)>)
    ensures
        ordered(v@, r@),
{
    let mut r: Vec<(usize, usize)> = Vec::new();
    let mut i: usize = 0;
    assert(v@.take(0) =~= r@);
    while i < v.len()
        invariant
            i <= v@.len(),
            in_row_order(r@),
            r@.to_multiset() == v@.take(i as int).to_multiset(),
        decreases v@.len() - i,
    {
        let p = v[i];
        let mut k: usize = r.len();
        while k > 0 && !(r[k - 1].0 < p.0 || (r[k - 1].0 == p.0 && r[k - 1].1 <= p.1))
            invariant
                k <= r@.len(),
                in_row_order(r@),
                forall|j: int| k <= j < r@.len() ==> not_behind(p, #[trigger] r@[j]),
            decreases k,
        {
            k = k - 1;
        }
        let ghost before = r@;
        r.insert(k, p);
        proof {
            assert(r@ == before.insert(k as int, p));
            assert forall|a: int, b: int| 0 <= a < b < r@.len() implies not_behind(
                #[trigger] r@[a],
                #[trigger] r@[b],
            ) by {
                let a0 = if a > k {
                    a - 1
                } else {
                    a
                };
                let b0 = if b > k {
                    b - 1
                } else {
                    b
                };
                if a != k && b != k {
                    assert(r@[a] == before[a0] && r@[b] == before[b0]);
                } else if a == k {
                    assert(r@[b] == before[b0]);
                } else {
                    assert(r@[a] == before[a0]);
                    if a < k - 1 {
                        assert(not_behind(before[a], before[k - 1]));
                    }
                }
            }
            assert(v@.take(i + 1) =~= v@.take(i as int).push(p));
            vstd::seq_lib::to_multiset_insert(before, k as int, p);
            vstd::seq_lib::to_multiset_build(v@.take(i as int), p);
        }
        i = i + 1;
    }
    assert(v@.take(v@.len() as int) =~= v@);
    r
}

// ---------------------------------------------------------------------------
// The marks
// ---------------------------------------------------------------------------

/// All marks were taken off, and how many there were was said.
pub open spec fn circles_cleared(old: Spreadsheet, new: Spreadsheet) -> bool {
    &&& new == (Spreadsheet {
        failures: new.failures,
        status_message: new.status_message,
        ..old
    })
    &&& no_failures(new.failures)
    &&& text::opt_text(new.status_message) == Some(
        "Cleared "@ + text::dec(old.failures.marks@.len()) + " invalid cell markers"@,
    )
}

/// The marks of a new window.
pub open spec fn no_failures(f: FailureState) -> bool {
    f.list@.len() == 0 && f.index == 0 && f.marks@.len() == 0
}

fn span_has(s: &CellSpan, row: usize, col: usize) -> (r: bool)
    ensures
        r == in_span(*s, row, col),
{
    s.min_row <= row && row <= s.max_row && s.min_col <= col && col <= s.max_col
}

impl FailureState {
    pub fn new() -> (f: FailureState)
        ensures
            no_failures(f),
            f.wf(),
    {
        FailureState { list: Vec::new(), index: 0, marks: Vec::new() }
    }

    /// No cell has two marks.
    pub open spec fn wf(self) -> bool {
        marked_once(self.marks@)
    }

    /// The mark on a cell.
    pub open spec fn mark(self, row: usize, col: usize) -> Option<ValidationFailureReason> {
        mark_in(self.marks@, row, col)
    }

    /// Take the marks off the cells of a range.
    fn unmark(&mut self, s: &CellSpan)
        requires
            old(self).wf(),
        ensures
            final(self).wf(),
            final(self).marks@ == marks_outside(old(self).marks@, *s),
            *final(self) == (FailureState { marks: final(self).marks, ..*old(self) }),
            forall|row: usize, col: usize| #[trigger]
                final(self).mark(row, col) == if in_span(*s, row, col) {
                    None
                } else {
                    old(self).mark(row, col)
                },
    {
        let mut kept: Vec<CellFailure> = Vec::new();
        let mut i: usize = 0;
        let ghost all = self.marks@;
        assert(all.take(0) =~= Seq::empty());
        while i < self.marks.len()
            invariant
                all == self.marks@,
                i <= all.len(),
                kept@ == marks_outside(all.take(i as int), *s),
            decreases all.len() - i,
        {
            assert(all.take(i + 1).drop_last() =~= all.take(i as int));
            assert(all.take(i + 1).last() == all[i as int]);
            let f = self.marks[i];
            if !span_has(s, f.row, f.col) {
                kept.push(f);
            }
            i = i + 1;
        }
        proof {
            assert(all.take(all.len() as int) =~= all);
            lemma_outside(all, *s);
        }
        self.marks = kept;
    }

    /// Take the cells of a range out of the list.
    fn unlist(&mut self, s: &CellSpan)
        ensures
            final(self).list@ == cells_outside(old(self).list@, *s),
            *final(self) == (FailureState { list: final(self).list, ..*old(self) }),
    {
        let mut kept: Vec<(usize, usize)> = Vec::new();
        let mut i: usize = 0;
        let ghost all = self.list@;
        assert(all.take(0) =~= Seq::empty());
        while i < self.list.len()
            invariant
                all == self.list@,
                i <= all.len(),
                kept@ == cells_outside(all.take(i as int), *s),
            decreases all.len() - i,
        {
            assert(all.take(i + 1).drop_last() =~= all.take(i as int));
            assert(all.take(i + 1).last() == all[i as int]);
            let p = self.list[i];
            if !span_has(s, p.0, p.1) {
                kept.push(p);
            }
            i = i + 1;
        }
        assert(all.take(all.len() as int) =~= all);
        self.list = kept;
    }

    /// Mark a cell.
    fn put_mark(&mut self, row: usize, col: usize, reason: ValidationFailureReason)
        requires
            old(self).wf(),
        ensures
            final(self).wf(),
            *final(self) == (FailureState { marks: final(self).marks, ..*old(self) }),
            forall|r: usize, c: usize| #[trigger]
                final(self).mark(r, c) == if r == row && c == col {
                    Some(reason)
                } else {
                    old(self).mark(r, c)
                },
    {
        let here = CellSpan { min_row: row, min_col: col, max_row: row, max_col: col };
        let ghost before = self.marks@;
        self.unmark(&here);
        let ghost mid = *self;
        proof {
            lemma_outside(before, here);
            lemma_push_mark(self.marks@, CellFailure { row, col, reason });
            assert forall|r: usize, c: usize| #[trigger] mark_in(mid.marks@, r, c) == (if r == row && c
                == col {
                None
            } else {
                old(self).mark(r, c)
            }) by {
                assert(mid.mark(r, c) == mark_in(mid.marks@, r, c));
            }
        }
        self.marks.push(CellFailure { row, col, reason });
    }

    fn has(&self, row: usize, col: usize) -> (r: bool)
        ensures
            r == self.list@.contains((row, col)),
    {
        let mut i: usize = 0;
        while i < self.list.len()
            invariant
                i <= self.list@.len(),
                forall|k: int| 0 <= k < i ==> self.list@[k] != (row, col),
            decreases self.list@.len() - i,
        {
            let p = self.list[i];
            if p.0 == row && p.1 == col {
                assert(self.list@[i as int] == (row, col));
                return true;
            }
            i = i + 1;
        }
        false
    }
}

// ---------------------------------------------------------------------------
// What the window does with them
// ---------------------------------------------------------------------------

/// The cells of some failures.
pub open spec fn failing_cells(v: Seq<CellFailure>) -> Seq<(usize, usize)> {
    v.map_values(|f: CellFailure| (f.row, f.col))
}

/// The mark on a cell after some failures were marked.
pub open spec fn mark_over(
    before: Option<ValidationFailureReason>,
    v: Seq<CellFailure>,
    row: usize,
    col: usize,
) -> Option<ValidationFailureReason> {
    match mark_in(v, row, col) {
        Some(r) => Some(r),
        None => before,
    }
}

/// The failures among some verdicts. Blank cells never fail.
pub open spec fn failures_among(v: Seq<CellVerdict>) -> Seq<CellFailure>
    decreases v.len(),
{
    if v.len() == 0 {
        Seq::empty()
    } else {
        let rest = failures_among(v.drop_last());
        match v.last().failure {
            Some(reason) => if v.last().blank {
                rest
            } else {
                rest.push(CellFailure { row: v.last().row, col: v.last().col, reason })
            },
            None => rest,
        }
    }
}

/// The list after some verdicts: a cell that fails is in it, one that does not
/// is out of it, and a blank one stays as it was.
pub open spec fn list_after(list: Seq<(usize, usize)>, v: Seq<CellVerdict>) -> Seq<(usize, usize)>
    decreases v.len(),
{
    if v.len() == 0 {
        list
    } else {
        let l = list_after(list, v.drop_last());
        let d = v.last();
        if d.blank {
            l
        } else if d.failure is Some {
            if l.contains((d.row, d.col)) {
                l
            } else {
                l.push((d.row, d.col))
            }
        } else {
            cells_outside(l, single(d.row, d.col))
        }
    }
}

/// The mark on a cell after some verdicts: the last one on the cell decides.
pub open spec fn mark_after(
    before: Option<ValidationFailureReason>,
    v: Seq<CellVerdict>,
    row: usize,
    col: usize,
) -> Option<ValidationFailureReason>
    decreases v.len(),
{
    if v.len() == 0 {
        before
    } else if v.last().row == row && v.last().col == col {
        if v.last().blank {
            None
        } else {
            v.last().failure
        }
    } else {
        mark_after(before, v.drop_last(), row, col)
    }
}

/// The marks and the list are without the cells of a range.
pub open spec fn failures_cleared(old: FailureState, new: FailureState, s: CellSpan) -> bool {
    &&& new.wf()
    &&& new.list@ == cells_outside(old.list@, s)
    &&& new.index == old.index
    &&& forall|row: usize, col: usize| #[trigger]
        new.mark(row, col) == if in_span(s, row, col) {
            None
        } else {
            old.mark(row, col)
        }
}

/// The marks and the list follow some verdicts.
pub open spec fn failures_judged(old: FailureState, new: FailureState, v: Seq<CellVerdict>) -> bool {
    &&& new.wf()
    &&& ordered(list_after(old.list@, v), new.list@)
    &&& new.index == old.index
    &&& forall|row: usize, col: usize| #[trigger]
        new.mark(row, col) == mark_after(old.mark(row, col), v, row, col)
}

/// What is said of a reason in short.
pub open spec fn reason_text(r: ValidationFailureReason) -> Seq<char> {
    match r {
        ValidationFailureReason::InvalidValue => "Value doesn't match rule"@,
        ValidationFailureReason::ConstraintBlank => "Constraint cell is blank"@,
        ValidationFailureReason::ConstraintNotNumeric => "Constraint is not numeric"@,
        ValidationFailureReason::InvalidReference => "Invalid reference"@,
        ValidationFailureReason::FormulaNotSupported => "Formula constraint not supported"@,
        ValidationFailureReason::ListEmpty => "List is empty"@,
        ValidationFailureReason::NotInList => "Not in list"@,
    }
}

/// A cell of the list has been gone to.
pub open spec fn went_to_failure(old: Spreadsheet, new: Spreadsheet, index: int) -> bool {
    let p = old.failures.list@[index];
    &&& new == (Spreadsheet {
        view: ViewState { selected: p, selection_end: None, ..old.view },
        failures: FailureState { index: index as usize, ..old.failures },
        status_message: new.status_message,
        ..old
    })
    &&& text::opt_text(new.status_message) == Some(
        "Invalid "@ + text::dec((index + 1) as nat) + " of "@ + text::dec(
            old.failures.list@.len(),
        ) + ": "@ + match old.failures.mark(p.0, p.1) {
            Some(r) => reason_text(r),
            None => Seq::empty(),
        } + " — F8 next, Shift+F8 prev"@,
    )
}

impl Spreadsheet {
    /// What is said of a reason in short.
    fn failure_reason_short(reason: ValidationFailureReason) -> (r: &'static str)
        ensures
            r@ == reason_text(reason),
    {
        match reason {
            ValidationFailureReason::InvalidValue => "Value doesn't match rule",
            ValidationFailureReason::ConstraintBlank => "Constraint cell is blank",
            ValidationFailureReason::ConstraintNotNumeric => "Constraint is not numeric",
            ValidationFailureReason::InvalidReference => "Invalid reference",
            ValidationFailureReason::FormulaNotSupported => "Formula constraint not supported",
            ValidationFailureReason::ListEmpty => "List is empty",
            ValidationFailureReason::NotInList => "Not in list",
        }
    }

    /// Go through these failures from now on, and mark them beside those that
    /// are marked.
    pub fn store_validation_failures(&mut self, failures: &Vec<CellFailure>)
        requires
            old(self).failures.wf(),
        ensures
            *final(self) == (Spreadsheet { failures: final(self).failures, ..*old(self) }),
            final(self).failures.wf(),
            final(self).failures.list@ == failing_cells(failures@),
            final(self).failures.index == 0,
            forall|row: usize, col: usize| #[trigger]
                final(self).failures.mark(row, col) == mark_over(
                    old(self).failures.mark(row, col),
                    failures@,
                    row,
                    col,
                ),
    {
        let ghost before = self.failures;
        self.failures.list = Vec::new();
        self.failures.index = 0;
        let mut i: usize = 0;
        assert(failures@.take(0) =~= Seq::empty());
        assert(failing_cells(failures@.take(0)) =~= Seq::empty());
        while i < failures.len()
            invariant
                i <= failures@.len(),
                *self == (Spreadsheet { failures: self.failures, ..*old(self) }),
                before == old(self).failures,
                self.failures.wf(),
                self.failures.index == 0,
                self.failures.list@ == failing_cells(failures@.take(i as int)),
                forall|row: usize, col: usize| #[trigger]
                    self.failures.mark(row, col) == mark_over(
                        before.mark(row, col),
                        failures@.take(i as int),
                        row,
                        col,
                    ),
            decreases failures@.len() - i,
        {
            let f = failures[i];
            let ghost mid = self.failures;
            self.failures.list.push((f.row, f.col));
            self.failures.put_mark(f.row, f.col, f.reason);
            proof {
                let a = failures@.take(i as int);
                let b = failures@.take(i + 1);
                assert(b =~= a.push(f));
                lemma_push_mark(a, f);
                assert(failing_cells(b) =~= failing_cells(a).push((f.row, f.col)));
                assert forall|row: usize, col: usize| #[trigger] self.failures.mark(row, col)
                    == mark_over(before.mark(row, col), b, row, col) by {
                    assert(mid.mark(row, col) == mark_over(before.mark(row, col), a, row, col));
                }
            }
            i = i + 1;
        }
        assert(failures@.take(failures@.len() as int) =~= failures@);
    }

    /// Take all marks off.
    pub fn clear_invalid_circles(&mut self)
        ensures
            circles_cleared(*old(self), *final(self)),
    {
        let n = text::decimal(self.failures.marks.len() as u64);
        self.failures = FailureState::new();
        let m = text::cat3("Cleared ", n.as_str(), " invalid cell markers");
        self.say(m.as_str());
    }

    /// Mark all cells whose values break a rule. `cells` are what the rules say
    /// of the cells that they are for, in the order of the rules.
    pub fn circle_invalid_data(&mut self, cells: &Vec<CellVerdict>)
        ensures
            *final(self) == (Spreadsheet {
                failures: final(self).failures,
                status_message: final(self).status_message,
                ..*old(self)
            }),
            final(self).failures.wf(),
            ordered(failing_cells(failures_among(cells@)), final(self).failures.list@),
            final(self).failures.index == 0,
            forall|row: usize, col: usize| #[trigger]
                final(self).failures.mark(row, col) == mark_in(failures_among(cells@), row, col),
            text::opt_text(final(self).status_message) == Some(
                if final(self).failures.marks@.len() == 0 {
                    "All cells are valid"@
                } else {
                    "Found "@ + text::dec(final(self).failures.marks@.len())
                        + " invalid cells. Press F8 to navigate."@
                },
            ),
    {
        self.failures = FailureState::new();
        let mut found: Vec<CellFailure> = Vec::new();
        let mut i: usize = 0;
        assert(cells@.take(0) =~= Seq::empty());
        while i < cells.len()
            invariant
                i <= cells@.len(),
                found@ == failures_among(cells@.take(i as int)),
            decreases cells@.len() - i,
        {
            assert(cells@.take(i + 1).drop_last() =~= cells@.take(i as int));
            assert(cells@.take(i + 1).last() == cells@[i as int]);
            let d = cells[i];
            if !d.blank {
                match d.failure {
                    Some(reason) => {
                        found.push(CellFailure { row: d.row, col: d.col, reason });
                    },
                    None => {},
                }
            }
            i = i + 1;
        }
        assert(cells@.take(cells@.len() as int) =~= cells@);
        let ghost fresh = self.failures;
        self.store_validation_failures(&found);
        proof {
            assert forall|row: usize, col: usize| #[trigger] self.failures.mark(row, col) == mark_in(
                found@,
                row,
                col,
            ) by {
                assert(fresh.mark(row, col) is None);
            }
        }
        let ghost stored = self.failures;
        let sorted = sort_cells(&self.failures.list);
        self.failures.list = sorted;
        proof {
            assert forall|row: usize, col: usize| #[trigger] self.failures.mark(row, col) == mark_in(
                found@,
                row,
                col,
            ) by {
                assert(stored.mark(row, col) == mark_in(found@, row, col));
            }
        }
        let count: usize = self.failures.marks.len();
        if count == 0 {
            self.say("All cells are valid");
        } else {
            let n = text::decimal(count as u64);
            let m = text::cat3("Found ", n.as_str(), " invalid cells. Press F8 to navigate.");
            self.say(m.as_str());
        }
    }

    pub fn is_cell_invalid(&self, row: usize, col: usize) -> (r: bool)
        ensures
            r == (self.failures.mark(row, col) is Some),
    {
        self.get_invalid_reason(row, col).is_some()
    }

    /// Why a marked cell is not allowed.
    pub fn get_invalid_reason(&self, row: usize, col: usize) -> (r: Option<ValidationFailureReason>)
        ensures
            r == self.failures.mark(row, col),
    {
        let ghost all = self.failures.marks@;
        let mut n: usize = self.failures.marks.len();
        assert(all.take(n as int) =~= all);
        while n > 0
            invariant
                all == self.failures.marks@,
                n <= all.len(),
                mark_in(all.take(n as int), row, col) == mark_in(all, row, col),
            decreases n,
        {
            assert(all.take(n as int).last() == all[n - 1]);
            assert(all.take(n as int).drop_last() =~= all.take(n - 1));
            let f = self.failures.marks[n - 1];
            if f.row == row && f.col == col {
                return Some(f.reason);
            }
            n = n - 1;
        }
        None
    }

    /// A cell has been given a value that is allowed.
    pub fn clear_cell_invalid(&mut self, row: usize, col: usize)
        requires
            old(self).failures.wf(),
        ensures
            *final(self) == (Spreadsheet { failures: final(self).failures, ..*old(self) }),
            final(self).failures.wf(),
            final(self).failures.list@ == cells_outside(
                old(self).failures.list@,
                single(row, col),
            ),
            final(self).failures.index == if final(self).failures.list@.len() > 0 && old(
                self,
            ).failures.index >= final(self).failures.list@.len() {
                0
            } else {
                old(self).failures.index
            },
            forall|r: usize, c: usize| #[trigger]
                final(self).failures.mark(r, c) == if r == row && c == col {
                    None
                } else {
                    old(self).failures.mark(r, c)
                },
    {
        let here = CellSpan { min_row: row, min_col: col, max_row: row, max_col: col };
        self.clear_failures_in(&here);
        let ghost mid = self.failures;
        if self.failures.list.len() > 0 && self.failures.index >= self.failures.list.len() {
            self.failures.index = 0;
        }
        proof {
            assert forall|r: usize, c: usize| #[trigger] self.failures.mark(r, c) == (if r == row && c
                == col {
                None
            } else {
                old(self).failures.mark(r, c)
            }) by {
                assert(mid.mark(r, c) == self.failures.mark(r, c));
            }
        }
    }

    /// Forget the failures of a range.
    pub(crate) fn clear_failures_in(&mut self, s: &CellSpan)
        requires
            old(self).failures.wf(),
        ensures
            *final(self) == (Spreadsheet { failures: final(self).failures, ..*old(self) }),
            failures_cleared(old(self).failures, final(self).failures, *s),
    {
        self.failures.unmark(s);
        let ghost mid = self.failures;
        self.failures.unlist(s);
        proof {
            assert forall|row: usize, col: usize| #[trigger] self.failures.mark(row, col) == (if in_span(
                *s,
                row,
                col,
            ) {
                None
            } else {
                old(self).failures.mark(row, col)
            }) by {
                assert(mid.mark(row, col) == self.failures.mark(row, col));
            }
        }
    }

    /// Mark the cells of a range anew. `cells` are what the rules say of them,
    /// and the result is how many fail.
    pub(crate) fn validate_and_mark_range(&mut self, cells: &Vec<CellVerdict>) -> (count: usize)
        requires
            old(self).failures.wf(),
        ensures
            *final(self) == (Spreadsheet { failures: final(self).failures, ..*old(self) }),
            failures_judged(old(self).failures, final(self).failures, cells@),
            count == failures_among(cells@).len(),
    {
        let ghost before = self.failures;
        let mut count: usize = 0;
        let mut i: usize = 0;
        assert(cells@.take(0) =~= Seq::empty());
        while i < cells.len()
            invariant
                i <= cells@.len(),
                count <= i,
                count == failures_among(cells@.take(i as int)).len(),
                *self == (Spreadsheet { failures: self.failures, ..*old(self) }),
                before == old(self).failures,
                self.failures.wf(),
                self.failures.index == before.index,
                self.failures.list@ == list_after(before.list@, cells@.take(i as int)),
                forall|row: usize, col: usize| #[trigger]
                    self.failures.mark(row, col) == mark_after(
                        before.mark(row, col),
                        cells@.take(i as int),
                        row,
                        col,
                    ),
            decreases cells@.len() - i,
        {
            assert(cells@.take(i + 1).drop_last() =~= cells@.take(i as int));
            assert(cells@.take(i + 1).last() == cells@[i as int]);
            let d = cells[i];
            let here = CellSpan {
                min_row: d.row,
                min_col: d.col,
                max_row: d.row,
                max_col: d.col,
            };
            let ghost mid = self.failures;
            if d.blank {
                self.failures.unmark(&here);
            } else {
                match d.failure {
                    Some(reason) => {
                        if !self.failures.has(d.row, d.col) {
                            self.failures.list.push((d.row, d.col));
                        }
                        self.failures.put_mark(d.row, d.col, reason);
                        count = count + 1;
                    },
                    None => {
                        self.clear_failures_in(&here);
                    },
                }
            }
            proof {
                assert forall|row: usize, col: usize| #[trigger] self.failures.mark(row, col)
                    == mark_after(before.mark(row, col), cells@.take(i + 1), row, col) by {
                    assert(mid.mark(row, col) == mark_after(
                        before.mark(row, col),
                        cells@.take(i as int),
                        row,
                        col,
                    ));
                }
            }
            i = i + 1;
        }
        assert(cells@.take(cells@.len() as int) =~= cells@);
        let ghost judged = self.failures;
        let sorted = sort_cells(&self.failures.list);
        self.failures.list = sorted;
        proof {
            assert forall|row: usize, col: usize| #[trigger] self.failures.mark(row, col)
                == mark_after(before.mark(row, col), cells@, row, col) by {
                assert(judged.mark(row, col) == self.failures.mark(row, col));
            }
        }
        count
    }

    fn go_to_failure(&mut self, index: usize)
        requires
            index < old(self).failures.list@.len(),
        ensures
            went_to_failure(*old(self), *final(self), index as int),
    {
        let p = self.failures.list[index];
        let reason = match self.get_invalid_reason(p.0, p.1) {
            Some(r) => Self::failure_reason_short(r),
            None => "",
        };
        proof {
            reveal_strlit("");
            assert(""@ =~= Seq::empty());
        }
        self.failures.index = index;
        self.view.selected = p;
        self.view.selection_end = None;
        let mut m = text::lit("Invalid ");
        let total: usize = self.failures.list.len();
        let place: usize = index + 1;
        let a = text::decimal(place as u64);
        m.append(a.as_str());
        m.append(" of ");
        let b = text::decimal(total as u64);
        m.append(b.as_str());
        m.append(": ");
        m.append(reason);
        m.append(" — F8 next, Shift+F8 prev");
        self.say(m.as_str());
    }

    /// Go to the next cell that is not allowed; behind the last one comes the
    /// first.
    pub fn next_invalid_cell(&mut self)
        requires
            old(self).failures.index < usize::MAX,
        ensures
            if old(self).failures.list@.len() == 0 {
                crate::hub::only_says(
                    *old(self),
                    *final(self),
                    "No validation failures to navigate"@,
                )
            } else {
                went_to_failure(
                    *old(self),
                    *final(self),
                    (old(self).failures.index + 1) % (old(self).failures.list@.len() as int),
                )
            },
    {
        if self.failures.list.len() == 0 {
            self.say("No validation failures to navigate");
            return;
        }
        let index: usize = (self.failures.index + 1) % self.failures.list.len();
        self.go_to_failure(index);
    }

    /// Go to the previous cell that is not allowed; before the first one comes
    /// the last.
    pub fn prev_invalid_cell(&mut self)
        requires
            old(self).failures.index <= old(self).failures.list@.len() || old(
                self,
            ).failures.list@.len() == 0,
        ensures
            if old(self).failures.list@.len() == 0 {
                crate::hub::only_says(
                    *old(self),
                    *final(self),
                    "No validation failures to navigate"@,
                )
            } else {
                went_to_failure(
                    *old(self),
                    *final(self),
                    if old(self).failures.index == 0 {
                        old(self).failures.list@.len() - 1
                    } else {
                        old(self).failures.index - 1
                    },
                )
            },
    {
        if self.failures.list.len() == 0 {
            self.say("No validation failures to navigate");
            return;
        }
        let index: usize = if self.failures.index == 0 {
            self.failures.list.len() - 1
        } else {
            self.failures.index - 1
        };
        self.go_to_failure(index);
    }
}

// ---------------------------------------------------------------------------
// Laws
// ---------------------------------------------------------------------------

/// Going to the next cell and back again leads to where one was.
pub proof fn next_and_back(s0: Spreadsheet, s1: Spreadsheet, s2: Spreadsheet)
    requires
        s0.failures.list@.len() > 0,
        s0.failures.index < s0.failures.list@.len(),
        went_to_failure(
            s0,
            s1,
            (s0.failures.index + 1) % (s0.failures.list@.len() as int),
        ),
        went_to_failure(
            s1,
            s2,
            if s1.failures.index == 0 {
                s1.failures.list@.len() - 1
            } else {
                s1.failures.index - 1
            },
        ),
    ensures
        s2.failures == s0.failures,
        s2.view.selected == s0.failures.list@[s0.failures.index as int],
{
    let n = s0.failures.list.len() as int;
    let i = s0.failures.index as int;
    if i + 1 < n {
        vstd::arithmetic::div_mod::lemma_small_mod((i + 1) as nat, n as nat);
    } else {
        vstd::arithmetic::div_mod::lemma_mod_self_0(n);
    }
}

/// A verdict that finds a value wrong. Blank cells are never wrong.
pub open spec fn is_bad(d: CellVerdict) -> bool {
    !d.blank && d.failure is Some
}

/// Just the cells that are found wrong are marked, each with a reason that was
/// found for it, and listed.
pub proof fn wrong_cells_are_marked_and_listed(v: Seq<CellVerdict>, row: usize, col: usize)
    ensures
        mark_in(failures_among(v), row, col) is Some <==> exists|i: int|
            0 <= i < v.len() && is_bad(#[trigger] v[i]) && v[i].row == row && v[i].col == col,
        mark_in(failures_among(v), row, col) matches Some(reason) ==> exists|i: int|
            0 <= i < v.len() && is_bad(#[trigger] v[i]) && v[i].row == row && v[i].col == col
                && v[i].failure == Some(reason),
        failing_cells(failures_among(v)).contains((row, col)) <==> mark_in(
            failures_among(v),
            row,
            col,
        ) is Some,
        failures_among(v).len() <= v.len(),
        failures_among(v).len() == 0 <==> forall|i: int|
            0 <= i < v.len() ==> !is_bad(#[trigger] v[i]),
    decreases v.len(),
{
    let all = failures_among(v);
    if v.len() > 0 {
        let t = v.drop_last();
        let d = v.last();
        let rest = failures_among(t);
        wrong_cells_are_marked_and_listed(t, row, col);
        assert(forall|i: int| 0 <= i < t.len() ==> t[i] == #[trigger] v[i]);
        assert(v[v.len() - 1] == d);
        if is_bad(d) {
            assert(all.drop_last() =~= rest);
            let cells = failing_cells(rest);
            let more = failing_cells(all);
            assert(more =~= cells.push((d.row, d.col)));
            if cells.contains((row, col)) {
                let k = choose|k: int| 0 <= k < cells.len() && cells[k] == (row, col);
                assert(more[k] == (row, col));
            }
            if d.row == row && d.col == col {
                assert(more[cells.len() as int] == (row, col));
            }
            if more.contains((row, col)) {
                let k = choose|k: int| 0 <= k < more.len() && more[k] == (row, col);
                if k < cells.len() {
                    assert(cells[k] == (row, col));
                }
            }
        }
        if mark_in(rest, row, col) is Some {
            let i = choose|i: int|
                0 <= i < t.len() && is_bad(#[trigger] t[i]) && t[i].row == row && t[i].col == col
                    && t[i].failure == mark_in(rest, row, col);
            assert(is_bad(v[i]));
        }
        if exists|i: int|
            0 <= i < v.len() && is_bad(#[trigger] v[i]) && v[i].row == row && v[i].col == col {
            let i = choose|i: int|
                0 <= i < v.len() && is_bad(#[trigger] v[i]) && v[i].row == row && v[i].col == col;
            if i < t.len() {
                assert(is_bad(t[i]));
            }
        }
    } else {
        assert(failing_cells(all).len() == 0);
    }
}

proof fn lemma_cells_outside(v: Seq<(usize, usize)>, s: CellSpan, p: (usize, usize))
    ensures
        cells_outside(v, s).contains(p) <==> v.contains(p) && !(s.min_row <= p.0 <= s.max_row
            && s.min_col <= p.1 <= s.max_col),
    decreases v.len(),
{
    if v.len() > 0 {
        let t = v.drop_last();
        let rest = cells_outside(t, s);
        let all = cells_outside(v, s);
        lemma_cells_outside(t, s, p);
        if t.contains(p) {
            let k = choose|k: int| 0 <= k < t.len() && t[k] == p;
            assert(v[k] == p);
        }
        if v.contains(p) {
            let k = choose|k: int| 0 <= k < v.len() && v[k] == p;
            if k < t.len() {
                assert(t[k] == p);
            }
        }
        assert(v[v.len() - 1] == v.last());
        if rest.contains(p) {
            let k = choose|k: int| 0 <= k < rest.len() && rest[k] == p;
            assert(all[k] == p);
        }
        if !in_span(s, v.last().0, v.last().1) {
            assert(all[rest.len() as int] == v.last());
        }
        if all.contains(p) {
            let k = choose|k: int| 0 <= k < all.len() && all[k] == p;
            if k < rest.len() {
                assert(rest[k] == p);
            }
        }
    }
}

/// Clearing a range takes off its marks and its entries in the list, and no
/// others.
pub proof fn clearing_reaches_the_range_alone(
    old: FailureState,
    new: FailureState,
    s: CellSpan,
    row: usize,
    col: usize,
)
    requires
        failures_cleared(old, new, s),
    ensures
        s.min_row <= row <= s.max_row && s.min_col <= col <= s.max_col ==> new.mark(row, col) is None
            && !new.list@.contains((row, col)),
        row < s.min_row || row > s.max_row || col < s.min_col || col > s.max_col ==> new.mark(
            row,
            col,
        ) == old.mark(row, col) && (new.list@.contains((row, col)) <==> old.list@.contains(
            (row, col),
        )),
{
    lemma_cells_outside(old.list@, s, (row, col));
    assert(new.mark(row, col) == if in_span(s, row, col) {
        None
    } else {
        old.mark(row, col)
    });
}

proof fn lemma_list_after(list: Seq<(usize, usize)>, v: Seq<CellVerdict>, p: (usize, usize), k: int)
    requires
        -1 <= k < v.len(),
        k >= 0 ==> v[k].row == p.0 && v[k].col == p.1 && !v[k].blank,
        forall|i: int| k < i < v.len() ==> (#[trigger] v[i]).row != p.0 || v[i].col != p.1,
    ensures
        k >= 0 ==> (list_after(list, v).contains(p) <==> v[k].failure is Some),
        k < 0 ==> (list_after(list, v).contains(p) <==> list.contains(p)),
    decreases v.len(),
{
    if v.len() > 0 {
        let t = v.drop_last();
        let d = v.last();
        let l = list_after(list, t);
        let all = list_after(list, v);
        if k < v.len() - 1 {
            assert(forall|i: int| 0 <= i < t.len() ==> t[i] == #[trigger] v[i]);
            lemma_list_after(list, t, p, k);
            assert(v[v.len() - 1] == d);
            assert((d.row, d.col) != p);
        }
        if !d.blank && d.failure is Some {
            if l.contains((d.row, d.col)) {
            } else {
                if l.contains(p) {
                    let j = choose|j: int| 0 <= j < l.len() && l[j] == p;
                    assert(all[j] == p);
                }
                assert(all[l.len() as int] == (d.row, d.col));
                if all.contains(p) {
                    let j = choose|j: int| 0 <= j < all.len() && all[j] == p;
                    if j < l.len() {
                        assert(l[j] == p);
                    }
                }
            }
        } else if !d.blank {
            lemma_cells_outside(l, single(d.row, d.col), p);
        }
    }
}

proof fn lemma_mark_after(
    before: Option<ValidationFailureReason>,
    v: Seq<CellVerdict>,
    row: usize,
    col: usize,
    k: int,
)
    requires
        -1 <= k < v.len(),
        k >= 0 ==> v[k].row == row && v[k].col == col,
        forall|i: int| k < i < v.len() ==> (#[trigger] v[i]).row != row || v[i].col != col,
    ensures
        mark_after(before, v, row, col) == if k < 0 {
            before
        } else if is_bad(v[k]) {
            v[k].failure
        } else {
            None
        },
    decreases v.len(),
{
    if v.len() > 0 && k < v.len() - 1 {
        let t = v.drop_last();
        assert(v[v.len() - 1] == v.last());
        assert(forall|i: int| 0 <= i < t.len() ==> t[i] == #[trigger] v[i]);
        lemma_mark_after(before, t, row, col, k);
    }
}

/// The last verdict on a cell decides. A cell that is found wrong is marked with
/// the reason and listed; one that is found right is neither; one that is blank is
/// not marked. A cell that no verdict is on stays as it was. The list goes by rows.
pub proof fn the_last_verdict_decides(
    old: FailureState,
    new: FailureState,
    v: Seq<CellVerdict>,
    row: usize,
    col: usize,
    k: int,
)
    requires
        failures_judged(old, new, v),
        -1 <= k < v.len(),
        k >= 0 ==> v[k].row == row && v[k].col == col,
        forall|i: int| k < i < v.len() ==> (#[trigger] v[i]).row != row || v[i].col != col,
    ensures
        k < 0 ==> new.mark(row, col) == old.mark(row, col) && (new.list@.contains((row, col))
            <==> old.list@.contains((row, col))),
        k >= 0 && v[k].blank ==> new.mark(row, col) is None,
        k >= 0 && !v[k].blank ==> new.mark(row, col) == v[k].failure && (new.list@.contains(
            (row, col),
        ) <==> v[k].failure is Some),
        forall|i: int, j: int|
            0 <= i < j < new.list@.len() ==> (#[trigger] new.list@[i]).0 < (
            #[trigger] new.list@[j]).0 || (new.list@[i].0 == new.list@[j].0 && new.list@[i].1
                <= new.list@[j].1),
{
    broadcast use vstd::seq_lib::group_to_multiset_ensures;

    lemma_mark_after(old.mark(row, col), v, row, col, k);
    assert(new.mark(row, col) == mark_after(old.mark(row, col), v, row, col));
    let p = (row, col);
    let l = list_after(old.list@, v);
    assert(l.contains(p) <==> l.to_multiset().count(p) > 0);
    assert(new.list@.contains(p) <==> new.list@.to_multiset().count(p) > 0);
    if k < 0 || !v[k].blank {
        lemma_list_after(old.list@, v, p, k);
    }
}

/// Failures that are stored over earlier ones replace the reasons of their cells
/// and leave the other marks.
pub proof fn a_stored_failure_replaces_the_reason(
    before: Option<ValidationFailureReason>,
    v: Seq<CellFailure>,
    row: usize,
    col: usize,
)
    ensures
        (forall|i: int| 0 <= i < v.len() ==> (#[trigger] v[i]).row != row || v[i].col != col)
            ==> mark_over(before, v, row, col) == before,
        (exists|i: int| 0 <= i < v.len() && (#[trigger] v[i]).row == row && v[i].col == col) ==> exists|
            i: int,
        |
            0 <= i < v.len() && (#[trigger] v[i]).row == row && v[i].col == col && mark_over(
                before,
                v,
                row,
                col,
            ) == Some(v[i].reason),
        forall|i: int|
            0 <= i < v.len() ==> failing_cells(v).contains(
                ((#[trigger] v[i]).row, v[i].col),
            ),
        failing_cells(v).len() == v.len(),
    decreases v.len(),
{
    assert forall|i: int| 0 <= i < v.len() implies failing_cells(v).contains(
        ((#[trigger] v[i]).row, v[i].col),
    ) by {
        assert(failing_cells(v)[i] == (v[i].row, v[i].col));
    }
    if v.len() > 0 {
        let t = v.drop_last();
        a_stored_failure_replaces_the_reason(before, t, row, col);
        assert(forall|i: int| 0 <= i < t.len() ==> t[i] == #[trigger] v[i]);
        assert(v[v.len() - 1] == v.last());
        if v.last().row == row && v.last().col == col {
            assert(mark_over(before, v, row, col) == Some(v[v.len() - 1].reason));
        } else if exists|i: int|
            0 <= i < v.len() && (#[trigger] v[i]).row == row && v[i].col == col {
            let i = choose|i: int| 0 <= i < v.len() && (#[trigger] v[i]).row == row && v[i].col == col;
            assert(t[i].row == row);
            let j = choose|j: int|
                0 <= j < t.len() && (#[trigger] t[j]).row == row && t[j].col == col && mark_over(
                    before,
                    t,
                    row,
                    col,
                ) == Some(t[j].reason);
            assert(v[j].row == row);
        }
    }
}

/// Each reason is told in words of its own.
pub proof fn reasons_are_told_apart(a: ValidationFailureReason, b: ValidationFailureReason)
    requires
        reason_text(a) == reason_text(b),
    ensures
        a == b,
{
    reveal_strlit("Value doesn't match rule");
    reveal_strlit("Constraint cell is blank");
    reveal_strlit("Constraint is not numeric");
    reveal_strlit("Invalid reference");
    reveal_strlit("Formula constraint not supported");
    reveal_strlit("List is empty");
    reveal_strlit("Not in list");
    assert("Value doesn't match rule"@.len() == 24);
    assert("Constraint cell is blank"@.len() == 24);
    assert("Value doesn't match rule"@[0] == 'V');
    assert("Constraint cell is blank"@[0] == 'C');
    assert("Constraint is not numeric"@.len() == 25);
    assert("Invalid reference"@.len() == 17);
    assert("Formula constraint not supported"@.len() == 32);
    assert("List is empty"@.len() == 13);
    assert("Not in list"@.len() == 11);
}

} // verus!
