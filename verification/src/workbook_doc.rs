//! Whole documents: the forms they come in, what is refused, and what survives
//! being written and read back.

use vstd::prelude::*;
use vstd::string::*;

use crate::collections;
use crate::color;
use crate::document;
use crate::document::{FullDoc, Scalar, SheetBody};
use crate::interchange;
use crate::interchange::{AppliedBody, Sheet, SheetOp};
use crate::layout;
use crate::layout::SheetLayout;
use crate::text;

verus! {

// ---------------------------------------------------------------------------
// The plain grid export
// ---------------------------------------------------------------------------

pub open spec fn grid_view(g: Seq<Vec<String>>) -> Seq<Seq<Seq<char>>> {
    g.map_values(|r: Vec<String>| row_view(r@))
}

pub open spec fn row_view(r: Seq<String>) -> Seq<Seq<char>> {
    r.map_values(|s: String| s@)
}

/// A row without its trailing empty cells.
pub open spec fn row_trimmed(r: Seq<Seq<char>>) -> Seq<Seq<char>>
    decreases r.len(),
{
    if r.len() > 0 && r.last().len() == 0 {
        row_trimmed(r.drop_last())
    } else {
        r
    }
}

/// Rows without the trailing rows that are empty.
pub open spec fn rows_trimmed(g: Seq<Seq<Seq<char>>>) -> Seq<Seq<Seq<char>>>
    decreases g.len(),
{
    if g.len() > 0 && row_trimmed(g.last()).len() == 0 {
        rows_trimmed(g.drop_last())
    } else {
        g.map_values(|r: Seq<Seq<char>>| row_trimmed(r))
    }
}

fn last_filled(row: &Vec<String>) -> (n: usize)
    ensures
        n <= row.len(),
        row_view(row@).take(n as int) == row_trimmed(row_view(row@)),
{
    let ghost view = row_view(row@);
    let mut n: usize = row.len();
    assert(view.take(view.len() as int) =~= view);
    while n > 0 && row[n - 1].as_str().is_empty()
        invariant
            n <= row.len(),
            view == row_view(row@),
            row_trimmed(view.take(n as int)) == row_trimmed(view),
        decreases n,
    {
        assert(view.take(n as int).drop_last() =~= view.take(n - 1));
        assert(view.take(n as int).last() == row@[n - 1]@);
        n = n - 1;
    }
    proof {
        if n > 0 {
            assert(view.take(n as int).last() == row@[n - 1]@);
        }
    }
    n
}

/// The rows of a sheet's displayed cells, as a grid export writes them: without
/// trailing empty cells and without trailing empty rows.
pub fn export(grid: &Vec<Vec<String>>) -> (rows: Vec<Vec<String>>)
    ensures
        grid_view(rows@) == rows_trimmed(grid_view(grid@)),
{
    let ghost view = grid_view(grid@);
    let mut n: usize = grid.len();
    assert(view.take(view.len() as int) =~= view);
    while n > 0 && last_filled(&grid[n - 1]) == 0
        invariant
            n <= grid.len(),
            view == grid_view(grid@),
            rows_trimmed(view.take(n as int)) == rows_trimmed(view),
        decreases n,
    {
        proof {
            let last = row_view(grid@[n - 1]@);
            assert(view.take(n as int).last() == last);
            assert(view.take(n as int).drop_last() =~= view.take(n - 1));
            assert(row_trimmed(last) =~= last.take(0));
        }
        n = n - 1;
    }
    let ghost kept = view.take(n as int);
    proof {
        if n > 0 {
            assert(kept.last() == row_view(grid@[n - 1]@));
        }
        assert(rows_trimmed(view) == kept.map_values(|r: Seq<Seq<char>>| row_trimmed(r)));
    }
    let mut rows: Vec<Vec<String>> = Vec::new();
    let mut i: usize = 0;
    while i < n
        invariant
            i <= n <= grid.len(),
            view == grid_view(grid@),
            rows@.len() == i,
            forall|j: int| 0 <= j < i ==> row_view((#[trigger] rows@[j])@) == row_trimmed(view[j]),
        decreases n - i,
    {
        let m = last_filled(&grid[i]);
        let mut row: Vec<String> = Vec::new();
        let mut j: usize = 0;
        while j < m
            invariant
                i < grid.len(),
                m <= grid@[i as int].len(),
                j <= m,
                row@.len() == j,
                forall|q: int| 0 <= q < j ==> #[trigger] row@[q] == grid@[i as int]@[q],
            decreases m - j,
        {
            row.push(grid[i][j].clone());
            j = j + 1;
        }
        assert(row_view(row@) =~= row_view(grid@[i as int]@).take(m as int));
        assert(view[i as int] == row_view(grid@[i as int]@));
        rows.push(row);
        i = i + 1;
    }
    assert(grid_view(rows@) =~= kept.map_values(|r: Seq<Seq<char>>| row_trimmed(r)));
    rows
}

// ---------------------------------------------------------------------------
// Documents on their way out
// ---------------------------------------------------------------------------

/// A sheet body that says nothing.
pub open spec fn is_blank_body(b: SheetBody) -> bool {
    &&& b.name@.len() == 0 && b.cells@.len() == 0 && b.merges@.len() == 0
    &&& b.col_widths@.len() == 0 && b.row_heights@.len() == 0
    &&& b.hidden_rows@.len() == 0 && b.hidden_cols@.len() == 0
    &&& b.tab_color is None && b.frozen_rows == 0 && b.frozen_cols == 0
    &&& b.cond_formats is None && b.validations@.len() == 0
    &&& b.filter is None && b.charts is None
}

fn blank_body() -> (b: SheetBody)
    ensures
        is_blank_body(b),
{
    SheetBody {
        name: String::new(),
        cells: Vec::new(),
        merges: Vec::new(),
        col_widths: Vec::new(),
        row_heights: Vec::new(),
        hidden_rows: Vec::new(),
        hidden_cols: Vec::new(),
        tab_color: None,
        frozen_rows: 0,
        frozen_cols: 0,
        cond_formats: None,
        validations: Vec::new(),
        filter: None,
        charts: None,
    }
}

/// A single-sheet document of a sheet and its layout.
pub open spec fn is_sheet_doc(doc: FullDoc, sheet: Sheet, l: layout::LayoutModel) -> bool {
    &&& doc.format@ == document::FULL_JSON_FORMAT@
    &&& doc.version == 1
    &&& interchange::body_written(doc.body, sheet, l)
    &&& doc.sheets@.len() == 0
    &&& doc.active_sheet is None
}

/// A sheet as a single-sheet document, without a layout.
pub fn export_full(sheet: &Sheet) -> (doc: FullDoc)
    requires
        sheet.wf(),
    ensures
        is_sheet_doc(doc, *sheet, layout::no_layout()),
{
    export_full_with_layout(sheet, &SheetLayout::default())
}

/// A sheet and its layout as a single-sheet document.
pub fn export_full_with_layout(sheet: &Sheet, l: &SheetLayout) -> (doc: FullDoc)
    requires
        sheet.wf(),
    ensures
        is_sheet_doc(doc, *sheet, l@),
{
    FullDoc {
        format: text::lit(document::FULL_JSON_FORMAT),
        version: document::FULL_JSON_VERSION,
        body: interchange::sheet_body(sheet, l),
        sheets: Vec::new(),
        active_sheet: None,
    }
}

/// The layout for a sheet; a sheet without one has nothing done to it.
pub open spec fn layout_for(layouts: Seq<SheetLayout>, i: int) -> layout::LayoutModel {
    if 0 <= i < layouts.len() {
        layouts[i]@
    } else {
        layout::no_layout()
    }
}

/// A position brought into a list of `n` entries.
pub open spec fn clamped(active: int, n: int) -> int {
    if active < n {
        active
    } else if n > 0 {
        n - 1
    } else {
        0
    }
}

/// A workbook document of sheets and their layouts.
pub open spec fn is_workbook_doc(
    doc: FullDoc,
    sheets: Seq<Sheet>,
    layouts: Seq<SheetLayout>,
    active: int,
) -> bool {
    &&& doc.format@ == document::FULL_JSON_FORMAT@
    &&& doc.version == 2
    &&& is_blank_body(doc.body)
    &&& doc.sheets@.len() == sheets.len()
    &&& forall|i: int|
        0 <= i < sheets.len() ==> interchange::body_written(
            #[trigger] doc.sheets@[i],
            sheets[i],
            layout_for(layouts, i),
        )
    &&& doc.active_sheet == Some(clamped(active, sheets.len() as int) as usize)
}

/// A whole workbook as a document with a list of sheets. The active sheet is
/// always named, the first one too.
pub fn export_workbook(sheets: &Vec<Sheet>, layouts: &Vec<SheetLayout>, active_sheet: usize) -> (doc: FullDoc)
    requires
        forall|i: int|
            0 <= i < sheets@.len() ==> (#[trigger] sheets@[i]).wf(),
    ensures
        is_workbook_doc(doc, sheets@, layouts@, active_sheet as int),
{
    let none = SheetLayout::default();
    let mut bodies: Vec<SheetBody> = Vec::new();
    let mut i: usize = 0;
    while i < sheets.len()
        invariant
            i <= sheets.len(),
            none@ == layout::no_layout(),
            forall|j: int|
                0 <= j < sheets@.len() ==> (#[trigger] sheets@[j]).wf(),
            bodies@.len() == i,
            forall|j: int|
                0 <= j < i ==> interchange::body_written(
                    #[trigger] bodies@[j],
                    sheets@[j],
                    layout_for(layouts@, j),
                ),
        decreases sheets.len() - i,
    {
        let body = if i < layouts.len() {
            interchange::sheet_body(&sheets[i], &layouts[i])
        } else {
            interchange::sheet_body(&sheets[i], &none)
        };
        bodies.push(body);
        i = i + 1;
    }
    let last: usize = if bodies.len() > 0 {
        bodies.len() - 1
    } else {
        0
    };
    let active: usize = if active_sheet < last {
        active_sheet
    } else {
        last
    };
    FullDoc {
        format: text::lit(document::FULL_JSON_FORMAT),
        version: document::FULL_JSON_WORKBOOK_VERSION,
        body: blank_body(),
        sheets: bodies,
        active_sheet: Some(active),
    }
}

// ---------------------------------------------------------------------------
// Documents on their way in
// ---------------------------------------------------------------------------

/// The length of the list that a JSON text holds under `key` at its top level:
/// absent where the text is no JSON, is no object, or holds no list there.
pub uninterp spec fn json_list_len(content: Seq<char>, key: Seq<char>) -> Option<usize>;

/// `serde_json::from_str`, then `Value::get` and `Value::as_array`: the length
/// of the list under a key of the parsed object.
#[verifier::external_body]
fn parsed_list_len(content: &str, key: &str) -> (r: Option<usize>)
    ensures
        r == json_list_len(content@, key@),
{
    let value = serde_json::from_str::<serde_json::Value>(content).ok()?;
    value.get(key)?.as_array().map(|list| list.len())
}

/// A document whose list of sheets has this length is a workbook document.
pub fn has_sheets(len: Option<usize>) -> (r: bool)
    ensures
        r == (len is Some && len->0 > 0),
{
    match len {
        Some(n) => n > 0,
        None => false,
    }
}

/// Whether a text is a document with a list of sheets that is not empty.
pub fn is_workbook_form(content: &str) -> (r: bool)
    ensures
        r == (json_list_len(content@, "sheets"@) matches Some(n) && n > 0),
{
    has_sheets(parsed_list_len(content, "sheets"))
}

/// The sheets of a document: its list, or its top level where the list is
/// empty.
pub open spec fn bodies_of(doc: FullDoc) -> Seq<SheetBody> {
    if doc.sheets@.len() == 0 {
        seq![doc.body]
    } else {
        doc.sheets@
    }
}

/// The first sheet whose conditional formats do not read.
pub open spec fn first_failure(bodies: Seq<SheetBody>, conds: Seq<Option<String>>, from: int) -> Option<
    int,
>
    decreases bodies.len() - from,
{
    if from < 0 || from >= bodies.len() {
        None
    } else if interchange::cond_fails(bodies[from], conds[from]) {
        Some(from)
    } else {
        first_failure(bodies, conds, from + 1)
    }
}

/// Why a document is refused, if it is.
pub open spec fn refusal(doc: FullDoc, conds: Seq<Option<String>>) -> Option<Seq<char>> {
    if doc.format@ != document::FULL_JSON_FORMAT@ {
        Some(
            "not a visigrid-json document (format: "@ + text::debug_quoted(doc.format@) + ")"@,
        )
    } else if doc.version > 2 {
        Some(
            "visigrid-json version "@ + text::dec(doc.version as nat)
                + " is newer than supported ("@ + text::dec(2) + ")"@,
        )
    } else {
        match first_failure(bodies_of(doc), conds, 0) {
            Some(i) => Some(interchange::cond_message(bodies_of(doc)[i], conds[i])),
            None => None,
        }
    }
}

/// A document read: its sheets, and which of them is active.
#[derive(Debug, PartialEq, Eq)]
pub struct ImportedDoc {
    pub sheets: Vec<AppliedBody>,
    pub active: usize,
}

pub open spec fn doc_imported(r: ImportedDoc, doc: FullDoc) -> bool {
    let bodies = bodies_of(doc);
    &&& r.sheets@.len() == bodies.len()
    &&& forall|i: int|
        0 <= i < bodies.len() ==> interchange::body_applied(
            #[trigger] r.sheets@[i],
            bodies[i],
            i as nat,
        )
    &&& forall|i: int|
        0 <= i < bodies.len() ==> (#[trigger] r.sheets@[i]).id == (i + 1) as u64
    &&& r.active == clamped(
        match doc.active_sheet {
            Some(a) => a as int,
            None => 0,
        },
        bodies.len() as int,
    )
}

/// The engine's word on the conditional formats of each sheet is there, where
/// the sheets are read at all.
pub open spec fn conds_given(doc: FullDoc, conds: Seq<Option<String>>) -> bool {
    doc.format@ == document::FULL_JSON_FORMAT@ && doc.version <= 2 ==> conds.len() == bodies_of(
        doc,
    ).len()
}

/// Read a document of either form. `parsed` is the parsed text, or why it does
/// not parse; `conds` is, for each sheet, why its conditional formats do not
/// read, where they do not.
pub fn import_any(parsed: &Result<FullDoc, String>, conds: &Vec<Option<String>>) -> (r: Result<
    ImportedDoc,
    String,
>)
    requires
        parsed matches Ok(doc) ==> conds_given(*doc, conds@),
    ensures
        match *parsed {
            Err(e) => r matches Err(m) && m@ == "invalid visigrid-json: "@ + e@,
            Ok(doc) => match refusal(doc, conds@) {
                Some(t) => r matches Err(m) && m@ == t,
                None => r matches Ok(i) && doc_imported(i, doc),
            },
        },
{
    let doc = match parsed {
        Err(e) => {
            return Err(text::cat("invalid visigrid-json: ", e.as_str()));
        },
        Ok(d) => d,
    };
    if !text::str_eq(doc.format.as_str(), document::FULL_JSON_FORMAT) {
        let mut m = text::lit("not a visigrid-json document (format: ");
        let q = text::debug_quote(doc.format.as_str());
        m.append(q.as_str());
        m.append(")");
        return Err(m);
    }
    if doc.version > document::FULL_JSON_WORKBOOK_VERSION {
        let mut m = text::lit("visigrid-json version ");
        let v = text::decimal(doc.version as u64);
        m.append(v.as_str());
        m.append(" is newer than supported (");
        let w = text::decimal(document::FULL_JSON_WORKBOOK_VERSION as u64);
        m.append(w.as_str());
        m.append(")");
        return Err(m);
    }
    let ghost bodies = bodies_of(*doc);
    let mut sheets: Vec<AppliedBody> = Vec::new();
    let n: usize = if doc.sheets.len() == 0 {
        1
    } else {
        doc.sheets.len()
    };
    let mut i: usize = 0;
    while i < n
        invariant
            i <= n,
            n == bodies.len(),
            bodies == bodies_of(*doc),
            *parsed matches Ok(d) && d == *doc,
            doc.format@ == document::FULL_JSON_FORMAT@,
            doc.version <= 2,
            conds@.len() == bodies.len(),
            doc.sheets@.len() == 0 ==> n == 1,
            doc.sheets@.len() > 0 ==> n == doc.sheets@.len(),
            forall|j: int|
                0 <= j < i ==> !interchange::cond_fails(#[trigger] bodies[j], conds@[j]),
            first_failure(bodies, conds@, 0) == first_failure(bodies, conds@, i as int),
            sheets@.len() == i,
            forall|j: int|
                0 <= j < i ==> interchange::body_applied(
                    #[trigger] sheets@[j],
                    bodies[j],
                    j as nat,
                ),
            forall|j: int| 0 <= j < i ==> (#[trigger] sheets@[j]).id == (j + 1) as u64,
        decreases n - i,
    {
        let body = if doc.sheets.len() == 0 {
            &doc.body
        } else {
            &doc.sheets[i]
        };
        assert(*body == bodies[i as int]);
        match interchange::apply_body(body, i as u64 + 1, i, &conds[i]) {
            Ok(a) => {
                sheets.push(a);
            },
            Err(m) => {
                return Err(m);
            },
        }
        i = i + 1;
    }
    let asked: usize = match doc.active_sheet {
        Some(a) => a,
        None => 0,
    };
    let active: usize = if asked < n {
        asked
    } else {
        n - 1
    };
    Ok(ImportedDoc { sheets, active })
}

/// Read a document as the sheet that is active in it, with its layout.
pub fn import_full_with_layout(parsed: &Result<FullDoc, String>, conds: &Vec<Option<String>>) -> (r: Result<
    AppliedBody,
    String,
>)
    requires
        parsed matches Ok(doc) ==> conds_given(*doc, conds@),
    ensures
        match *parsed {
            Err(e) => r matches Err(m) && m@ == "invalid visigrid-json: "@ + e@,
            Ok(doc) => match refusal(doc, conds@) {
                Some(t) => r matches Err(m) && m@ == t,
                None => r matches Ok(a) && active_imported(a, doc),
            },
        },
{
    match import_any(parsed, conds) {
        Err(m) => Err(m),
        Ok(mut i) => {
            let a = i.sheets.swap_remove(i.active);
            Ok(a)
        },
    }
}

/// `a` is the active sheet of the document, read.
pub open spec fn active_imported(a: AppliedBody, doc: FullDoc) -> bool {
    let bodies = bodies_of(doc);
    let active = clamped(
        match doc.active_sheet {
            Some(x) => x as int,
            None => 0,
        },
        bodies.len() as int,
    );
    a.id == (active + 1) as u64 && interchange::body_applied(a, bodies[active], active as nat)
}

/// Read a document as the sheet that is active in it.
pub fn import_full(parsed: &Result<FullDoc, String>, conds: &Vec<Option<String>>) -> (r: Result<
    Vec<SheetOp>,
    String,
>)
    requires
        parsed matches Ok(doc) ==> conds_given(*doc, conds@),
    ensures
        match *parsed {
            Err(e) => r matches Err(m) && m@ == "invalid visigrid-json: "@ + e@,
            Ok(doc) => match refusal(doc, conds@) {
                Some(t) => r matches Err(m) && m@ == t,
                None => {
                    let bodies = bodies_of(doc);
                    let active = clamped(
                        match doc.active_sheet {
                            Some(x) => x as int,
                            None => 0,
                        },
                        bodies.len() as int,
                    );
                    r matches Ok(ops) && interchange::ops_view(ops@) == interchange::body_ops(
                        bodies[active],
                        active as nat,
                    )
                },
            },
        },
{
    match import_full_with_layout(parsed, conds) {
        Err(m) => Err(m),
        Ok(a) => Ok(a.ops),
    }
}

// ---------------------------------------------------------------------------
// Values kept for formulas that cannot be recomputed
// ---------------------------------------------------------------------------

/// A stored result of a formula. A number is held as it was written.
#[derive(Debug, PartialEq, Eq)]
pub enum CachedFormulaValue {
    Number(String),
    Text(String),
}

#[verifier::ext_equal]
pub enum CachedModel {
    Number(Seq<char>),
    Text(Seq<char>),
}

impl View for CachedFormulaValue {
    type V = CachedModel;

    open spec fn view(&self) -> CachedModel {
        match self {
            CachedFormulaValue::Number(n) => CachedModel::Number(n@),
            CachedFormulaValue::Text(t) => CachedModel::Text(t@),
        }
    }
}

/// What is kept of a stored value.
pub open spec fn value_kept(v: document::ScalarModel) -> Option<CachedModel> {
    match v {
        document::ScalarModel::Number(n) => Some(CachedModel::Number(n)),
        document::ScalarModel::Text(t) => Some(CachedModel::Text(t)),
        document::ScalarModel::Bool(b) => Some(
            CachedModel::Text(
                if b {
                    "TRUE"@
                } else {
                    "FALSE"@
                },
            ),
        ),
        document::ScalarModel::Other(_) => None,
    }
}

/// What is kept of a cell: the stored value of its formula, if the formula is
/// still the one in the cell.
pub open spec fn cell_kept(c: document::CellModel, raw: Seq<char>) -> Option<CachedModel> {
    match (c.formula, c.value) {
        (Some(f), Some(v)) => if raw == f {
            value_kept(v)
        } else {
            None
        },
        _ => None,
    }
}

pub open spec fn cached_in(index: usize, cells: Seq<document::CellModel>, raws: Seq<Seq<char>>) -> Seq<
    (usize, usize, usize, CachedModel),
>
    decreases cells.len(),
{
    if cells.len() == 0 {
        Seq::empty()
    } else {
        let rest = cached_in(index, cells.drop_last(), raws);
        match cell_kept(cells.last(), raws[cells.len() - 1]) {
            Some(v) => rest.push((index, cells.last().row, cells.last().col, v)),
            None => rest,
        }
    }
}

/// The stored results of all formula cells, sheet by sheet; a sheet that the
/// workbook does not have is passed over.
pub open spec fn cached_values(bodies: Seq<SheetBody>, raws: Seq<Vec<String>>) -> Seq<
    (usize, usize, usize, CachedModel),
>
    decreases bodies.len(),
{
    if bodies.len() == 0 {
        Seq::empty()
    } else {
        let rest = cached_values(bodies.drop_last(), raws);
        let i = bodies.len() - 1;
        if i < raws.len() {
            rest + cached_in(
                i as usize,
                document::cells_view(bodies.last().cells@),
                row_view(raws[i]@),
            )
        } else {
            rest
        }
    }
}

pub open spec fn cached_view(v: Seq<(usize, usize, usize, CachedFormulaValue)>) -> Seq<
    (usize, usize, usize, CachedModel),
> {
    v.map_values(|x: (usize, usize, usize, CachedFormulaValue)| (x.0, x.1, x.2, x.3@))
}

/// For each sheet of the workbook there is the content of each document cell.
pub open spec fn raws_given(bodies: Seq<SheetBody>, raws: Seq<Vec<String>>) -> bool {
    forall|i: int|
        0 <= i < bodies.len() && i < raws.len() ==> (#[trigger] raws[i])@.len()
            == bodies[i].cells@.len()
}

fn kept(c: &document::FullCell, raw: &String) -> (r: Option<CachedFormulaValue>)
    ensures
        match r {
            Some(v) => cell_kept(c@, raw@) == Some(v@),
            None => cell_kept(c@, raw@) is None,
        },
{
    match (&c.formula, &c.value) {
        (Some(f), Some(v)) => {
            if *raw == *f {
                match v {
                    Scalar::Number(n) => Some(CachedFormulaValue::Number(n.clone())),
                    Scalar::Text(t) => Some(CachedFormulaValue::Text(t.clone())),
                    Scalar::Bool(b) => if *b {
                        Some(CachedFormulaValue::Text(text::lit("TRUE")))
                    } else {
                        Some(CachedFormulaValue::Text(text::lit("FALSE")))
                    },
                    Scalar::Other(_) => None,
                }
            } else {
                None
            }
        },
        _ => None,
    }
}

fn push_cached(
    out: &mut Vec<(usize, usize, usize, CachedFormulaValue)>,
    index: usize,
    body: &SheetBody,
    raws: &Vec<String>,
)
    requires
        raws@.len() == body.cells@.len(),
    ensures
        cached_view(final(out)@) == cached_view(old(out)@) + cached_in(
            index,
            document::cells_view(body.cells@),
            row_view(raws@),
        ),
{
    let ghost start = cached_view(out@);
    let ghost cells = document::cells_view(body.cells@);
    let ghost texts = row_view(raws@);
    let mut k: usize = 0;
    assert(cells.take(0) =~= Seq::empty());
    assert(cached_view(out@) =~= start + cached_in(index, cells.take(0), texts));
    while k < body.cells.len()
        invariant
            k <= body.cells.len(),
            raws@.len() == body.cells@.len(),
            cells == document::cells_view(body.cells@),
            texts == row_view(raws@),
            cached_view(out@) == start + cached_in(index, cells.take(k as int), texts),
        decreases body.cells.len() - k,
    {
        let ghost before = out@;
        assert(cells.take(k + 1).drop_last() =~= cells.take(k as int));
        assert(cells.take(k + 1).last() == body.cells@[k as int]@);
        assert(texts[k as int] == raws@[k as int]@);
        match kept(&body.cells[k], &raws[k]) {
            Some(v) => {
                let ghost m = v@;
                out.push((index, body.cells[k].row, body.cells[k].col, v));
                assert(cached_view(out@) =~= cached_view(before).push(
                    (index, body.cells@[k as int].row, body.cells@[k as int].col, m),
                ));
            },
            None => {},
        }
        k = k + 1;
        assert(cached_view(out@) =~= start + cached_in(index, cells.take(k as int), texts));
    }
    assert(cells.take(cells.len() as int) =~= cells);
}

/// The stored results of a document's formula cells. `raws` holds, for each
/// sheet of the recomputed workbook, the content of the cell that each document
/// cell stands in.
pub fn cached_formula_values(doc: &FullDoc, raws: &Vec<Vec<String>>) -> (r: Vec<
    (usize, usize, usize, CachedFormulaValue),
>)
    requires
        raws_given(bodies_of(*doc), raws@),
    ensures
        cached_view(r@) == cached_values(bodies_of(*doc), raws@),
{
    let ghost bodies = bodies_of(*doc);
    let n: usize = if doc.sheets.len() == 0 {
        1
    } else {
        doc.sheets.len()
    };
    let mut out: Vec<(usize, usize, usize, CachedFormulaValue)> = Vec::new();
    let mut i: usize = 0;
    assert(bodies.take(0) =~= Seq::empty());
    assert(cached_view(out@) =~= cached_values(bodies.take(0), raws@));
    while i < n
        invariant
            i <= n,
            n == bodies.len(),
            bodies == bodies_of(*doc),
            raws_given(bodies, raws@),
            doc.sheets@.len() == 0 ==> n == 1,
            doc.sheets@.len() > 0 ==> n == doc.sheets@.len(),
            cached_view(out@) == cached_values(bodies.take(i as int), raws@),
        decreases n - i,
    {
        let body = if doc.sheets.len() == 0 {
            &doc.body
        } else {
            &doc.sheets[i]
        };
        assert(*body == bodies[i as int]);
        assert(bodies.take(i + 1).drop_last() =~= bodies.take(i as int));
        assert(bodies.take(i + 1).last() == bodies[i as int]);
        if i < raws.len() {
            assert(raws@[i as int]@.len() == bodies[i as int].cells@.len());
            push_cached(&mut out, i, body, &raws[i]);
        }
        i = i + 1;
    }
    assert(bodies.take(bodies.len() as int) =~= bodies);
    out
}

// ---------------------------------------------------------------------------
// Laws
// ---------------------------------------------------------------------------

proof fn lemma_sizes(l: Seq<(usize, u32)>)
    requires
        forall|i: int, j: int| 0 <= i < j < l.len() ==> (#[trigger] l[i]).0 < (#[trigger] l[j]).0,
    ensures
        forall|k: usize| #[trigger]
            interchange::sizes_read(interchange::decimal_keys(l)).contains_key(k) <==> exists|i: int|
                0 <= i < l.len() && (#[trigger] l[i]).0 == k,
        forall|i: int|
            0 <= i < l.len() ==> interchange::sizes_read(
                interchange::decimal_keys(l),
            )[(#[trigger] l[i]).0] == l[i].1,
    decreases l.len(),
{
    let v = interchange::decimal_keys(l);
    let m = interchange::sizes_read(v);
    if l.len() > 0 {
        let front = l.drop_last();
        lemma_sizes(front);
        assert(v.drop_last() =~= interchange::decimal_keys(front));
        text::position_reads_back(l.last().0);
        let rest = interchange::sizes_read(interchange::decimal_keys(front));
        assert(m == rest.insert(l.last().0, l.last().1));
        assert forall|k: usize| #[trigger] m.contains_key(k) <==> exists|i: int|
            0 <= i < l.len() && (#[trigger] l[i]).0 == k by {
            if m.contains_key(k) {
                if k == l.last().0 {
                    assert(l[l.len() - 1].0 == k);
                } else {
                    assert(rest.contains_key(k));
                    let i = choose|i: int| 0 <= i < front.len() && (#[trigger] front[i]).0 == k;
                    assert(l[i].0 == k);
                }
            }
            if exists|i: int| 0 <= i < l.len() && (#[trigger] l[i]).0 == k {
                let i = choose|i: int| 0 <= i < l.len() && (#[trigger] l[i]).0 == k;
                if i < l.len() - 1 {
                    assert(front[i].0 == k);
                    assert(rest.contains_key(k));
                }
            }
        }
        assert forall|i: int| 0 <= i < l.len() implies m[(#[trigger] l[i]).0] == l[i].1 by {
            if i < l.len() - 1 {
                assert(front[i] == l[i]);
                assert(l[i].0 < l[l.len() - 1].0);
            }
        }
    } else {
        assert(v =~= Seq::empty());
    }
}

proof fn lemma_sizes_survive(v: Seq<(Seq<char>, u32)>, m: Map<usize, u32>)
    requires
        interchange::sizes_written(v, m),
    ensures
        interchange::sizes_read(v) == m,
{
    let l = choose|l: Seq<(usize, u32)>| #[trigger]
        collections::lists_map(l, m) && v == interchange::decimal_keys(l);
    lemma_sizes(l);
    let r = interchange::sizes_read(v);
    assert(r.dom() =~= m.dom());
    assert forall|k: usize| m.contains_key(k) implies r[k] == m[k] by {
        let i = choose|i: int| 0 <= i < l.len() && (#[trigger] l[i]).0 == k;
        assert(r[l[i].0] == l[i].1);
    }
    assert(r =~= m);
}

/// A layout that is written beside a sheet reads back as the same layout.
pub proof fn layout_survives_the_document(body: SheetBody, sheet: Sheet, l: layout::LayoutModel)
    requires
        interchange::body_written(body, sheet, l),
    ensures
        interchange::layout_read(body) == l,
{
    lemma_sizes_survive(document::sizes_view(body.col_widths@), l.col_widths);
    lemma_sizes_survive(document::sizes_view(body.row_heights@), l.row_heights);
    assert(body.hidden_rows@.to_set() =~= l.hidden_rows);
    assert(body.hidden_cols@.to_set() =~= l.hidden_cols);
}

/// What puts the content of a cell back: a formula and a number as if typed,
/// text as text.
pub open spec fn restoring_ops(c: interchange::SheetCell) -> Seq<interchange::OpModel> {
    if interchange::is_formula(c.raw@) {
        seq![interchange::OpModel::SetDeferred(c.row, c.col, c.raw@)]
    } else if c.raw@.len() == 0 {
        Seq::empty()
    } else {
        match c.number {
            Some(Some(n)) => seq![interchange::OpModel::SetDeferred(c.row, c.col, n@)],
            Some(None) => Seq::empty(),
            None => seq![interchange::OpModel::SetText(c.row, c.col, c.raw@)],
        }
    }
}

/// The content of a cell survives being written and read back: a formula comes
/// back as the formula, a number as the number, and a text as text, even where
/// it reads like a number.
pub proof fn content_survives_the_document(c: interchange::SheetCell)
    ensures
        interchange::content_ops(interchange::cell_written(c)) == restoring_ops(c),
        interchange::cell_ops(interchange::cell_written(c)) == restoring_ops(c)
            + interchange::format_ops(interchange::cell_written(c)),
{
}

proof fn lemma_op_source(cells: Seq<document::CellModel>, op: interchange::OpModel)
    ensures
        interchange::cells_ops(cells).contains(op) <==> exists|i: int|
            0 <= i < cells.len() && interchange::cell_ops(#[trigger] cells[i]).contains(op),
    decreases cells.len(),
{
    if cells.len() > 0 {
        let front = cells.drop_last();
        lemma_op_source(front, op);
        let a = interchange::cells_ops(front);
        let b = interchange::cell_ops(cells.last());
        if interchange::cells_ops(cells).contains(op) {
            let k = choose|k: int| 0 <= k < (a + b).len() && (a + b)[k] == op;
            if k < a.len() {
                assert(a[k] == op);
                assert(a.contains(op));
                let i = choose|i: int|
                    0 <= i < front.len() && interchange::cell_ops(#[trigger] front[i]).contains(op);
                assert(cells[i] == front[i]);
            } else {
                assert(b[k - a.len()] == op);
                assert(interchange::cell_ops(cells[cells.len() - 1]).contains(op));
            }
        }
        if exists|i: int|
            0 <= i < cells.len() && interchange::cell_ops(#[trigger] cells[i]).contains(op) {
            let i = choose|i: int|
                0 <= i < cells.len() && interchange::cell_ops(#[trigger] cells[i]).contains(op);
            if i < cells.len() - 1 {
                assert(front[i] == cells[i]);
                assert(a.contains(op));
                let k = choose|k: int| 0 <= k < a.len() && a[k] == op;
                assert((a + b)[k] == op);
            } else {
                let k = choose|k: int| 0 <= k < b.len() && b[k] == op;
                assert((a + b)[a.len() + k] == op);
            }
        }
    }
}

proof fn lemma_spills_marked(spills: Seq<interchange::SpillCell>)
    ensures
        forall|i: int|
            0 <= i < interchange::spills_written(spills).len() ==> (
            #[trigger] interchange::spills_written(spills)[i]).spill_from is Some,
    decreases spills.len(),
{
    if spills.len() > 0 {
        lemma_spills_marked(spills.drop_last());
    }
}

/// The step is one of those that put a cell of the sheet back.
pub open spec fn restores_a_cell(sheet: Sheet, op: interchange::OpModel) -> bool {
    exists|k: int|
        0 <= k < sheet.cells@.len() && interchange::is_written(#[trigger] sheet.cells@[k]) && (
        restoring_ops(sheet.cells@[k]) + interchange::format_ops(
            interchange::cell_written(sheet.cells@[k]),
        )).contains(op)
}

/// Reading a written sheet puts back each of its cells and nothing else: the
/// steps for the cells are those that restore a cell of the sheet and its
/// format. What formulas spilled is not put in, so that it cannot stand in the
/// way of the formula that spills it.
pub proof fn cells_survive_the_document(
    body: SheetBody,
    sheet: Sheet,
    l: layout::LayoutModel,
    op: interchange::OpModel,
)
    requires
        interchange::body_written(body, sheet, l),
    ensures
        interchange::cells_ops(document::cells_view(body.cells@)).contains(op) <==> restores_a_cell(
            sheet,
            op,
        ),
{
    let all = document::cells_view(body.cells@);
    let spills = interchange::spills_written(sheet.spills@);
    let n = all.len() - spills.len();
    let front = all.take(n);
    let cells = sheet.cells@;
    lemma_op_source(all, op);
    lemma_spills_marked(sheet.spills@);
    if interchange::cells_ops(all).contains(op) {
        let i = choose|i: int|
            0 <= i < all.len() && interchange::cell_ops(#[trigger] all[i]).contains(op);
        if i >= n {
            assert(all.skip(n)[i - n] == all[i]);
            assert(spills[i - n].spill_from is Some);
        } else {
            assert(front[i] == all[i]);
            assert(interchange::comes_from(front[i], cells));
            let k = choose|k: int|
                0 <= k < cells.len() && interchange::is_written(#[trigger] cells[k])
                    && interchange::cell_written(cells[k]) == front[i];
            content_survives_the_document(cells[k]);
        }
    }
    if exists|k: int|
        0 <= k < cells.len() && interchange::is_written(#[trigger] cells[k]) && (restoring_ops(
            cells[k],
        ) + interchange::format_ops(interchange::cell_written(cells[k]))).contains(op) {
        let k = choose|k: int|
            0 <= k < cells.len() && interchange::is_written(#[trigger] cells[k]) && (restoring_ops(
                cells[k],
            ) + interchange::format_ops(interchange::cell_written(cells[k]))).contains(op);
        content_survives_the_document(cells[k]);
        assert(front.contains(interchange::cell_written(cells[k])));
        let i = choose|i: int|
            0 <= i < front.len() && front[i] == interchange::cell_written(cells[k]);
        assert(all[i] == front[i]);
        assert(interchange::cell_ops(all[i]).contains(op));
    }
}

/// The first `n` of the written cells are cells of the sheet, and the others are
/// those that formulas spilled into; either go row by row, each place once.
pub open spec fn in_two_runs(cells: Seq<document::CellModel>, n: int) -> bool {
    &&& 0 <= n <= cells.len()
    &&& forall|i: int| 0 <= i < n ==> (#[trigger] cells[i]).spill_from is None
    &&& forall|i: int| n <= i < cells.len() ==> (#[trigger] cells[i]).spill_from is Some
    &&& interchange::in_order(cells.take(n))
    &&& interchange::in_order(cells.skip(n))
}

/// A written sheet lists its cells and then what formulas spilled, either row by
/// row, and its hidden lines in ascending order.
pub proof fn a_written_sheet_is_in_order(body: SheetBody, sheet: Sheet, l: layout::LayoutModel)
    requires
        interchange::body_written(body, sheet, l),
    ensures
        exists|n: int| #[trigger] in_two_runs(document::cells_view(body.cells@), n),
        forall|i: int, j: int|
            0 <= i < j < body.hidden_rows@.len() ==> body.hidden_rows@[i] < body.hidden_rows@[j],
        forall|i: int, j: int|
            0 <= i < j < body.hidden_cols@.len() ==> body.hidden_cols@[i] < body.hidden_cols@[j],
{
    let all = document::cells_view(body.cells@);
    let spills = interchange::spills_written(sheet.spills@);
    let n = all.len() - spills.len();
    lemma_spills_marked(sheet.spills@);
    assert forall|i: int| 0 <= i < n implies (#[trigger] all[i]).spill_from is None by {
        assert(all.take(n)[i] == all[i]);
        assert(interchange::comes_from(all.take(n)[i], sheet.cells@));
    }
    assert forall|i: int| n <= i < all.len() implies (#[trigger] all[i]).spill_from is Some by {
        assert(all.skip(n)[i - n] == all[i]);
    }
    assert(in_two_runs(all, n));
}

/// A named sheet gets its name and its tab colour back.
pub proof fn name_survives_the_document(
    body: SheetBody,
    sheet: Sheet,
    l: layout::LayoutModel,
    index: nat,
)
    requires
        interchange::body_written(body, sheet, l),
        sheet.name@.len() > 0,
    ensures
        interchange::name_ops(body.name@, text::opt_text(body.tab_color), index) == seq![
            interchange::OpModel::SetName(sheet.name@),
            interchange::OpModel::SetTabColor(
                match sheet.tab_color {
                    Some(c) => Some(c.opaque()),
                    None => None,
                },
            ),
        ],
{
    if let Some(c) = sheet.tab_color {
        color::parse_hex_reads_hex(c);
    }
}

/// How a sheet gets its name back: a named one takes its name and its tab
/// colour, one without a name is numbered, but for the first.
pub open spec fn restored_name(sheet: Sheet, index: nat) -> Seq<interchange::OpModel> {
    if sheet.name@.len() > 0 {
        seq![
            interchange::OpModel::SetName(sheet.name@),
            interchange::OpModel::SetTabColor(
                match sheet.tab_color {
                    Some(c) => Some(c.opaque()),
                    None => None,
                },
            ),
        ]
    } else if index > 0 {
        seq![interchange::OpModel::SetName("Sheet"@ + text::dec(index + 1))]
    } else {
        Seq::empty()
    }
}

/// The steps are those that put the cells of the sheet back, and no others.
pub open spec fn restore_cells(steps: Seq<interchange::OpModel>, sheet: Sheet) -> bool {
    forall|op: interchange::OpModel| #[trigger]
        steps.contains(op) <==> restores_a_cell(sheet, op)
}

/// The steps build the sheet: its name, its cells, its merged regions, its
/// conditional formats and its validation rules.
pub open spec fn rebuilds(
    ops: Seq<interchange::OpModel>,
    cells: Seq<interchange::OpModel>,
    sheet: Sheet,
    index: nat,
) -> bool {
    &&& restore_cells(cells, sheet)
    &&& ops == restored_name(sheet, index) + cells + interchange::merge_ops(
        sheet.merged_regions@,
    ) + interchange::cond_ops(text::opt_text(sheet.cond_formats)) + interchange::validation_ops(
        document::validations_view(sheet.validations@),
    )
}

/// What was read is the sheet and its layout.
pub open spec fn is_restored(
    a: AppliedBody,
    sheet: Sheet,
    l: layout::LayoutModel,
    index: nat,
) -> bool {
    &&& a.layout@ == l
    &&& exists|cells: Seq<interchange::OpModel>| #[trigger]
        rebuilds(interchange::ops_view(a.ops@), cells, sheet, index)
}

proof fn lemma_body_restored(
    a: AppliedBody,
    body: SheetBody,
    sheet: Sheet,
    l: layout::LayoutModel,
    index: nat,
)
    requires
        interchange::body_written(body, sheet, l),
        interchange::body_applied(a, body, index),
    ensures
        is_restored(a, sheet, l, index),
{
    layout_survives_the_document(body, sheet, l);
    if sheet.name@.len() > 0 {
        name_survives_the_document(body, sheet, l, index);
    }
    let cells = interchange::cells_ops(document::cells_view(body.cells@));
    assert forall|op: interchange::OpModel| #[trigger] cells.contains(op) <==> restores_a_cell(
        sheet,
        op,
    ) by {
        cells_survive_the_document(body, sheet, l, op);
    }
    assert(rebuilds(interchange::ops_view(a.ops@), cells, sheet, index));
}

/// A sheet that is written with its layout and read back is the same sheet
/// with the same layout.
pub proof fn a_sheet_survives_the_document(
    doc: FullDoc,
    sheet: Sheet,
    l: layout::LayoutModel,
    r: ImportedDoc,
)
    requires
        is_sheet_doc(doc, sheet, l),
        doc_imported(r, doc),
    ensures
        r.sheets@.len() == 1,
        r.active == 0,
        is_restored(r.sheets@[0], sheet, l, 0),
{
    assert(bodies_of(doc)[0] == doc.body);
    lemma_body_restored(r.sheets@[0], doc.body, sheet, l, 0);
}

/// A workbook that is written and read back has the same sheets in the same
/// order, each with its layout, and the same sheet is active.
pub proof fn a_workbook_survives_the_document(
    doc: FullDoc,
    sheets: Seq<Sheet>,
    layouts: Seq<SheetLayout>,
    active: usize,
    r: ImportedDoc,
)
    requires
        sheets.len() > 0,
        is_workbook_doc(doc, sheets, layouts, active as int),
        doc_imported(r, doc),
    ensures
        r.sheets@.len() == sheets.len(),
        r.active == clamped(active as int, sheets.len() as int),
        forall|i: int|
            0 <= i < sheets.len() ==> is_restored(
                #[trigger] r.sheets@[i],
                sheets[i],
                layout_for(layouts, i),
                i as nat,
            ),
{
    assert forall|i: int| 0 <= i < sheets.len() implies is_restored(
        #[trigger] r.sheets@[i],
        sheets[i],
        layout_for(layouts, i),
        i as nat,
    ) by {
        lemma_body_restored(
            r.sheets@[i],
            doc.sheets@[i],
            sheets[i],
            layout_for(layouts, i),
            i as nat,
        );
    }
}

/// A written document is never refused, as long as its conditional formats
/// read: both forms pass the format and version gates.
pub proof fn written_documents_are_accepted(doc: FullDoc, conds: Seq<Option<String>>)
    requires
        (exists|sheet: Sheet, l: layout::LayoutModel| #[trigger] is_sheet_doc(doc, sheet, l))
            || exists|sheets: Seq<Sheet>, layouts: Seq<SheetLayout>, active: int| #[trigger]
            is_workbook_doc(doc, sheets, layouts, active),
        forall|i: int| 0 <= i < conds.len() ==> (#[trigger] conds[i]) is None,
        conds.len() == bodies_of(doc).len(),
    ensures
        refusal(doc, conds) is None,
{
    lemma_no_failure(bodies_of(doc), conds, 0);
}

proof fn lemma_no_failure(bodies: Seq<SheetBody>, conds: Seq<Option<String>>, from: int)
    requires
        0 <= from,
        conds.len() == bodies.len(),
        forall|i: int| 0 <= i < conds.len() ==> (#[trigger] conds[i]) is None,
    ensures
        first_failure(bodies, conds, from) is None,
    decreases bodies.len() - from,
{
    if from < bodies.len() {
        lemma_no_failure(bodies, conds, from + 1);
    }
}

/// A cell whose stored value is handed on.
pub open spec fn hands_on(
    c: document::CellModel,
    raw: Seq<char>,
    x: (usize, usize, usize, CachedModel),
) -> bool {
    c.row == x.1 && c.col == x.2 && c.formula == Some(raw) && cell_kept(c, raw) == Some(x.3)
}

/// A stored value is never carried across a formula that changed: what is kept
/// is the value of a cell whose formula is still the one in the sheet.
pub proof fn a_kept_value_belongs_to_its_formula(
    index: usize,
    cells: Seq<document::CellModel>,
    raws: Seq<Seq<char>>,
    k: int,
)
    requires
        0 <= k < cached_in(index, cells, raws).len(),
    ensures
        cached_in(index, cells, raws)[k].0 == index,
        exists|i: int|
            0 <= i < cells.len() && #[trigger] hands_on(
                cells[i],
                raws[i],
                cached_in(index, cells, raws)[k],
            ),
    decreases cells.len(),
{
    let all = cached_in(index, cells, raws);
    let front = cells.drop_last();
    let rest = cached_in(index, front, raws);
    if k < rest.len() {
        a_kept_value_belongs_to_its_formula(index, front, raws, k);
        let i = choose|i: int|
            0 <= i < front.len() && #[trigger] hands_on(front[i], raws[i], rest[k]);
        assert(front[i] == cells[i]);
        assert(hands_on(cells[i], raws[i], all[k]));
    } else {
        let n = cells.len() - 1;
        assert(cells.last() == cells[n]);
        assert(hands_on(cells[n], raws[n], all[k]));
    }
}

/// The cell that a step is for, if it is for one.
pub open spec fn op_place(op: interchange::OpModel) -> Option<(usize, usize)> {
    match op {
        interchange::OpModel::SetDeferred(r, c, _) => Some((r, c)),
        interchange::OpModel::SetText(r, c, _) => Some((r, c)),
        interchange::OpModel::SetFormat(r, c, _) => Some((r, c)),
        _ => None,
    }
}

/// The steps for one cell, or those for no cell, in their order.
pub open spec fn steps_for(ops: Seq<interchange::OpModel>, place: Option<(usize, usize)>) -> Seq<
    interchange::OpModel,
>
    decreases ops.len(),
{
    if ops.len() == 0 {
        Seq::empty()
    } else {
        let rest = steps_for(ops.drop_last(), place);
        if op_place(ops.last()) == place {
            rest.push(ops.last())
        } else {
            rest
        }
    }
}

/// No place is listed twice.
pub open spec fn each_place_once(cells: Seq<document::CellModel>) -> bool {
    forall|i: int, j: int|
        0 <= i < j < cells.len() ==> !((#[trigger] cells[i]).row == (#[trigger] cells[j]).row
            && cells[i].col == cells[j].col)
}

/// The sheets differ only in the order in which their cells are listed.
pub open spec fn reordered(a: SheetBody, b: SheetBody) -> bool {
    &&& a.name@ == b.name@ && text::opt_text(a.tab_color) == text::opt_text(b.tab_color)
    &&& document::cells_view(a.cells@).to_multiset() == document::cells_view(
        b.cells@,
    ).to_multiset()
    &&& each_place_once(document::cells_view(a.cells@))
    &&& each_place_once(document::cells_view(b.cells@))
    &&& a.merges@ == b.merges@
    &&& text::opt_text(a.cond_formats) == text::opt_text(b.cond_formats)
    &&& document::validations_view(a.validations@) == document::validations_view(b.validations@)
    &&& interchange::layout_read(a) == interchange::layout_read(b)
}

/// The documents differ only in the order in which the cells of their sheets
/// are listed.
pub open spec fn docs_reordered(a: FullDoc, b: FullDoc) -> bool {
    &&& a.format@ == b.format@ && a.version == b.version && a.active_sheet == b.active_sheet
    &&& bodies_of(a).len() == bodies_of(b).len()
    &&& forall|i: int|
        0 <= i < bodies_of(a).len() ==> reordered(#[trigger] bodies_of(a)[i], bodies_of(b)[i])
}

/// What was read builds the same: the layouts are the same, and each cell, and
/// all that is no cell, is built by the same steps in the same order.
pub open spec fn builds_the_same(a: AppliedBody, b: AppliedBody) -> bool {
    &&& a.id == b.id && a.rows == b.rows && a.cols == b.cols
    &&& a.layout@ == b.layout@
    &&& forall|place: Option<(usize, usize)>| #[trigger]
        steps_for(interchange::ops_view(a.ops@), place) == steps_for(
            interchange::ops_view(b.ops@),
            place,
        )
}

proof fn lemma_steps_add(
    a: Seq<interchange::OpModel>,
    b: Seq<interchange::OpModel>,
    place: Option<(usize, usize)>,
)
    ensures
        steps_for(a + b, place) == steps_for(a, place) + steps_for(b, place),
    decreases b.len(),
{
    if b.len() == 0 {
        assert(a + b =~= a);
        assert(steps_for(a, place) + steps_for(b, place) =~= steps_for(a, place));
    } else {
        lemma_steps_add(a, b.drop_last(), place);
        assert((a + b).drop_last() =~= a + b.drop_last());
        assert((a + b).last() == b.last());
        assert(steps_for(a + b, place) =~= steps_for(a, place) + steps_for(b, place));
    }
}

proof fn lemma_steps_of_cell(c: document::CellModel, place: Option<(usize, usize)>)
    ensures
        steps_for(interchange::cell_ops(c), place) == if place == Some((c.row, c.col)) {
            interchange::cell_ops(c)
        } else {
            Seq::empty()
        },
{
    reveal_with_fuel(steps_for, 3);
    let ops = interchange::cell_ops(c);
    assert(ops.len() <= 2);
    assert(forall|i: int|
        0 <= i < ops.len() ==> op_place(#[trigger] ops[i]) == Some((c.row, c.col)));
    if ops.len() == 1 {
        assert(ops.drop_last() =~= Seq::empty());
        assert(seq![ops[0]] =~= ops);
        assert(Seq::<interchange::OpModel>::empty().push(ops[0]) =~= ops);
    } else if ops.len() == 2 {
        assert(ops.drop_last().drop_last() =~= Seq::empty());
        assert(Seq::<interchange::OpModel>::empty().push(ops[0]).push(ops[1]) =~= ops);
    } else {
        assert(ops =~= Seq::empty());
    }
}

/// The steps for a place are those of the cell that is listed there.
proof fn lemma_steps_of_cells(cells: Seq<document::CellModel>, place: Option<(usize, usize)>)
    requires
        each_place_once(cells),
    ensures
        forall|k: int|
            0 <= k < cells.len() && place == Some(((#[trigger] cells[k]).row, cells[k].col))
                ==> steps_for(interchange::cells_ops(cells), place) == interchange::cell_ops(
                cells[k],
            ),
        (forall|k: int|
            0 <= k < cells.len() ==> place != Some(((#[trigger] cells[k]).row, cells[k].col)))
            ==> steps_for(interchange::cells_ops(cells), place) == Seq::<
            interchange::OpModel,
        >::empty(),
    decreases cells.len(),
{
    if cells.len() > 0 {
        let front = cells.drop_last();
        let last = cells.last();
        let n = cells.len() - 1;
        assert forall|i: int, j: int| 0 <= i < j < front.len() implies !((#[trigger] front[i]).row
            == (#[trigger] front[j]).row && front[i].col == front[j].col) by {
            assert(front[i] == cells[i] && front[j] == cells[j]);
        }
        lemma_steps_of_cells(front, place);
        lemma_steps_add(interchange::cells_ops(front), interchange::cell_ops(last), place);
        lemma_steps_of_cell(last, place);
        let all = steps_for(interchange::cells_ops(cells), place);
        let before = steps_for(interchange::cells_ops(front), place);
        if place == Some((last.row, last.col)) {
            assert forall|k: int| 0 <= k < front.len() implies place != Some(
                ((#[trigger] front[k]).row, front[k].col),
            ) by {
                assert(front[k] == cells[k] && cells[n] == last);
            }
            assert(all =~= interchange::cell_ops(last));
            assert forall|k: int|
                0 <= k < cells.len() && place == Some(
                    ((#[trigger] cells[k]).row, cells[k].col),
                ) implies all == interchange::cell_ops(cells[k]) by {
                assert(cells[n] == last);
            }
        } else {
            assert(all =~= before);
            assert forall|k: int|
                0 <= k < cells.len() && place == Some(
                    ((#[trigger] cells[k]).row, cells[k].col),
                ) implies all == interchange::cell_ops(cells[k]) by {
                assert(front[k] == cells[k]);
            }
            if forall|k: int|
                0 <= k < cells.len() ==> place != Some(((#[trigger] cells[k]).row, cells[k].col)) {
                assert forall|k: int| 0 <= k < front.len() implies place != Some(
                    ((#[trigger] front[k]).row, front[k].col),
                ) by {
                    assert(front[k] == cells[k]);
                }
            }
        }
    }
}

proof fn lemma_steps_reordered(
    a: Seq<document::CellModel>,
    b: Seq<document::CellModel>,
    place: Option<(usize, usize)>,
)
    requires
        a.to_multiset() == b.to_multiset(),
        each_place_once(a),
        each_place_once(b),
    ensures
        steps_for(interchange::cells_ops(a), place) == steps_for(interchange::cells_ops(b), place),
{
    a.to_multiset_ensures();
    b.to_multiset_ensures();
    lemma_steps_of_cells(a, place);
    lemma_steps_of_cells(b, place);
    if exists|k: int|
        0 <= k < a.len() && place == Some(((#[trigger] a[k]).row, a[k].col)) {
        let k = choose|k: int|
            0 <= k < a.len() && place == Some(((#[trigger] a[k]).row, a[k].col));
        assert(a.contains(a[k]));
        assert(b.to_multiset().count(a[k]) > 0);
        let j = b.index_of(a[k]);
        assert(b.contains(a[k]));
        assert(b[j] == a[k]);
    } else {
        assert forall|k: int| 0 <= k < b.len() implies place != Some(
            ((#[trigger] b[k]).row, b[k].col),
        ) by {
            assert(b.contains(b[k]));
            assert(a.to_multiset().count(b[k]) > 0);
            let j = a.index_of(b[k]);
            assert(a.contains(b[k]));
            assert(a[j] == b[k]);
        }
    }
}

proof fn lemma_body_reordered(a: SheetBody, b: SheetBody, index: nat, place: Option<(usize, usize)>)
    requires
        reordered(a, b),
    ensures
        steps_for(interchange::body_ops(a, index), place) == steps_for(
            interchange::body_ops(b, index),
            place,
        ),
{
    let named = interchange::name_ops(a.name@, text::opt_text(a.tab_color), index);
    let merges = interchange::merge_ops(a.merges@);
    let conds = interchange::cond_ops(text::opt_text(a.cond_formats));
    let rules = interchange::validation_ops(document::validations_view(a.validations@));
    let ca = interchange::cells_ops(document::cells_view(a.cells@));
    let cb = interchange::cells_ops(document::cells_view(b.cells@));
    lemma_steps_reordered(document::cells_view(a.cells@), document::cells_view(b.cells@), place);
    lemma_steps_add(named, ca, place);
    lemma_steps_add(named, cb, place);
    lemma_steps_add(named + ca, merges, place);
    lemma_steps_add(named + cb, merges, place);
    lemma_steps_add(named + ca + merges, conds, place);
    lemma_steps_add(named + cb + merges, conds, place);
    lemma_steps_add(named + ca + merges + conds, rules, place);
    lemma_steps_add(named + cb + merges + conds, rules, place);
}

proof fn lemma_failures_reordered(a: FullDoc, b: FullDoc, conds: Seq<Option<String>>, from: int)
    requires
        docs_reordered(a, b),
        0 <= from,
    ensures
        first_failure(bodies_of(a), conds, from) == first_failure(bodies_of(b), conds, from),
        first_failure(bodies_of(a), conds, from) matches Some(i) ==> 0 <= i < bodies_of(a).len(),
    decreases bodies_of(a).len() - from,
{
    if from < bodies_of(a).len() {
        assert(reordered(bodies_of(a)[from], bodies_of(b)[from]));
        lemma_failures_reordered(a, b, conds, from + 1);
    }
}

/// The order in which a document lists its cells does not matter, as long as
/// none is listed twice: a document in another order is refused with the same
/// words, or gives the same sheets, each cell of which is built by the same
/// steps. What the calculation engine makes of them is its own.
pub proof fn documents_read_the_same_in_any_order(
    a: FullDoc,
    b: FullDoc,
    conds: Seq<Option<String>>,
    ra: ImportedDoc,
    rb: ImportedDoc,
)
    requires
        docs_reordered(a, b),
        doc_imported(ra, a),
        doc_imported(rb, b),
    ensures
        refusal(a, conds) == refusal(b, conds),
        ra.active == rb.active,
        ra.sheets@.len() == rb.sheets@.len(),
        forall|i: int|
            0 <= i < ra.sheets@.len() ==> builds_the_same(#[trigger] ra.sheets@[i], rb.sheets@[i]),
{
    lemma_failures_reordered(a, b, conds, 0);
    if let Some(i) = first_failure(bodies_of(a), conds, 0) {
        assert(reordered(bodies_of(a)[i], bodies_of(b)[i]));
    }
    assert forall|i: int| 0 <= i < ra.sheets@.len() implies builds_the_same(
        #[trigger] ra.sheets@[i],
        rb.sheets@[i],
    ) by {
        let x = bodies_of(a)[i];
        let y = bodies_of(b)[i];
        assert(reordered(x, y));
        assert(interchange::body_applied(ra.sheets@[i], x, i as nat));
        assert(interchange::body_applied(rb.sheets@[i], y, i as nat));
        assert forall|place: Option<(usize, usize)>| #[trigger]
            steps_for(interchange::ops_view(ra.sheets@[i].ops@), place) == steps_for(
                interchange::ops_view(rb.sheets@[i].ops@),
                place,
            ) by {
            lemma_body_reordered(x, y, i as nat, place);
        }
    }
}

/// The cells without those that formulas spilled into.
pub open spec fn without_spilled(cells: Seq<document::CellModel>) -> Seq<document::CellModel>
    decreases cells.len(),
{
    if cells.len() == 0 {
        Seq::empty()
    } else {
        let rest = without_spilled(cells.drop_last());
        if cells.last().spill_from is Some {
            rest
        } else {
            rest.push(cells.last())
        }
    }
}

proof fn lemma_spilled_add_nothing(cells: Seq<document::CellModel>)
    ensures
        interchange::cells_ops(without_spilled(cells)) == interchange::cells_ops(cells),
        interchange::quoted_numbers(without_spilled(cells)) == interchange::quoted_numbers(cells),
    decreases cells.len(),
{
    if cells.len() > 0 {
        let front = cells.drop_last();
        let rest = without_spilled(front);
        lemma_spilled_add_nothing(front);
        if cells.last().spill_from is Some {
            assert(interchange::cells_ops(cells) =~= interchange::cells_ops(front));
        } else {
            assert(rest.push(cells.last()).drop_last() =~= rest);
        }
    }
}

/// A cell that a formula spilled into adds neither content, nor a format, nor to
/// what is counted: a sheet reads as it does without such cells, with the same
/// steps, layout and count, or with the same words where it is refused. So they
/// never stand in the way of the formula that spills.
pub proof fn spilled_cells_add_nothing(
    body: SheetBody,
    bare: SheetBody,
    index: nat,
    cond_error: Option<String>,
    a: AppliedBody,
    b: AppliedBody,
)
    requires
        bare == (SheetBody { cells: bare.cells, ..body }),
        document::cells_view(bare.cells@) == without_spilled(document::cells_view(body.cells@)),
        interchange::body_applied(a, body, index),
        interchange::body_applied(b, bare, index),
    ensures
        interchange::ops_view(a.ops@) == interchange::ops_view(b.ops@),
        a.layout@ == b.layout@,
        a.rows == b.rows && a.cols == b.cols,
        a.quoted_numerics == b.quoted_numerics,
        interchange::cond_fails(body, cond_error) == interchange::cond_fails(bare, cond_error),
        interchange::cond_message(body, cond_error) == interchange::cond_message(bare, cond_error),
{
    lemma_spilled_add_nothing(document::cells_view(body.cells@));
}

/// What a formula came to can be read off a value that is written beside it: a
/// number, a text, a truth value, or nothing.
pub open spec fn shows(value: Option<document::ScalarModel>, came_to: interchange::EvalValue) -> bool {
    match came_to {
        interchange::EvalValue::Number(Some(n)) => value matches Some(
            document::ScalarModel::Number(w),
        ) && w == n@,
        interchange::EvalValue::Text(t) => value matches Some(document::ScalarModel::Text(w)) && w
            == t@,
        interchange::EvalValue::Error(e) => value matches Some(document::ScalarModel::Text(w)) && w
            == e@,
        interchange::EvalValue::Boolean(b) => value matches Some(document::ScalarModel::Bool(w))
            && w == b,
        _ => value is None,
    }
}

/// A reader without a calculation engine sees what a formula came to: beside the
/// formula of each cell stands that very number, text, error or truth value, and
/// nothing where it came to nothing that can be written.
pub proof fn a_formula_is_written_with_what_it_came_to(
    body: SheetBody,
    sheet: Sheet,
    l: layout::LayoutModel,
    k: int,
)
    requires
        interchange::body_written(body, sheet, l),
        0 <= k < sheet.cells@.len(),
        sheet.cells@[k].raw@.len() > 0,
        sheet.cells@[k].raw@[0] == '=',
    ensures
        exists|i: int|
            #![trigger document::cells_view(body.cells@)[i]]
            0 <= i < body.cells@.len() && ({
                let c = document::cells_view(body.cells@)[i];
                &&& c.row == sheet.cells@[k].row && c.col == sheet.cells@[k].col
                &&& c.spill_from is None
                &&& c.formula == Some(sheet.cells@[k].raw@)
                &&& shows(c.value, sheet.cells@[k].computed)
                &&& c.stale_custom_fn == sheet.cells@[k].kept_uncomputable
            }),
{
    lemma_cell_is_written(body, sheet, l, k);
}

/// A cell without a formula is written with its number where it holds one that
/// can be written, and else with its text as text.
pub proof fn a_plain_cell_is_written_with_what_it_holds(
    body: SheetBody,
    sheet: Sheet,
    l: layout::LayoutModel,
    k: int,
)
    requires
        interchange::body_written(body, sheet, l),
        0 <= k < sheet.cells@.len(),
        sheet.cells@[k].raw@.len() > 0,
        sheet.cells@[k].raw@[0] != '=',
    ensures
        exists|i: int|
            #![trigger document::cells_view(body.cells@)[i]]
            0 <= i < body.cells@.len() && ({
                let c = document::cells_view(body.cells@)[i];
                &&& c.row == sheet.cells@[k].row && c.col == sheet.cells@[k].col
                &&& c.spill_from is None && c.formula is None
                &&& match sheet.cells@[k].number {
                    Some(Some(n)) => c.value == Some(document::ScalarModel::Number(n@)),
                    Some(None) => c.value is None,
                    None => c.value == Some(document::ScalarModel::Text(sheet.cells@[k].raw@)),
                }
            }),
{
    lemma_cell_is_written(body, sheet, l, k);
}

proof fn lemma_cell_is_written(body: SheetBody, sheet: Sheet, l: layout::LayoutModel, k: int)
    requires
        interchange::body_written(body, sheet, l),
        0 <= k < sheet.cells@.len(),
        sheet.cells@[k].raw@.len() > 0 || sheet.cells@[k].has_format,
    ensures
        exists|i: int|
            0 <= i < body.cells@.len() && #[trigger] document::cells_view(body.cells@)[i]
                == interchange::cell_written(sheet.cells@[k]),
{
    let all = document::cells_view(body.cells@);
    let n = all.len() - interchange::spills_written(sheet.spills@).len();
    let front = all.take(n);
    assert(interchange::is_written(sheet.cells@[k]));
    assert(front.contains(interchange::cell_written(sheet.cells@[k])));
    let i = choose|i: int|
        0 <= i < front.len() && front[i] == interchange::cell_written(sheet.cells@[k]);
    assert(all[i] == front[i]);
}

/// Sheets that differ in the number that a formula came to are written as
/// different documents, and so are those that differ in its text.
pub proof fn different_results_are_written_differently(
    a: SheetBody,
    b: SheetBody,
    x: Sheet,
    y: Sheet,
    l: layout::LayoutModel,
    k: int,
)
    requires
        x.wf(),
        y.wf(),
        interchange::body_written(a, x, l),
        interchange::body_written(b, y, l),
        0 <= k < x.cells@.len(),
        k < y.cells@.len(),
        x.cells@[k].row == y.cells@[k].row && x.cells@[k].col == y.cells@[k].col,
        x.cells@[k].raw@ == y.cells@[k].raw@,
        x.cells@[k].raw@.len() > 0,
        x.cells@[k].raw@[0] == '=',
        (x.cells@[k].computed matches interchange::EvalValue::Number(Some(p))
            && y.cells@[k].computed matches interchange::EvalValue::Number(Some(q)) && p@ != q@) || (
        x.cells@[k].computed matches interchange::EvalValue::Text(p)
            && y.cells@[k].computed matches interchange::EvalValue::Text(q) && p@ != q@) || (
        x.cells@[k].computed matches interchange::EvalValue::Boolean(p)
            && y.cells@[k].computed matches interchange::EvalValue::Boolean(q) && p != q),
    ensures
        document::cells_view(a.cells@) != document::cells_view(b.cells@),
{
    lemma_cell_is_written(a, x, l, k);
    lemma_cell_is_written(b, y, l, k);
    let va = document::cells_view(a.cells@);
    let vb = document::cells_view(b.cells@);
    if va == vb {
        let i = choose|i: int|
            0 <= i < a.cells@.len() && #[trigger] va[i] == interchange::cell_written(x.cells@[k]);
        let j = choose|j: int|
            0 <= j < b.cells@.len() && #[trigger] vb[j] == interchange::cell_written(y.cells@[k]);
        a_written_sheet_is_in_order(a, x, l);
        let n = choose|n: int| #[trigger] in_two_runs(va, n);
        assert(va[i].spill_from is None && va[j].spill_from is None);
        assert(i < n && j < n);
        assert(va.take(n)[i] == va[i] && va.take(n)[j] == va[j]);
    }
}

/// Each cell that a formula spilled into is written down with its value and with
/// the cell that it came from.
pub proof fn a_spilled_cell_is_written_with_its_value(
    body: SheetBody,
    sheet: Sheet,
    l: layout::LayoutModel,
    k: int,
)
    requires
        interchange::body_written(body, sheet, l),
        0 <= k < sheet.spills@.len(),
        sheet.spills@[k].parent is Some,
    ensures
        exists|i: int|
            #![trigger document::cells_view(body.cells@)[i]]
            0 <= i < body.cells@.len() && ({
                let c = document::cells_view(body.cells@)[i];
                let s = sheet.spills@[k];
                &&& c.row == s.row && c.col == s.col && c.spill_from == s.parent
                &&& c.formula is None && c.fmt is None && !c.stale_custom_fn
                &&& s.value is Empty || c.value is Some
                &&& !(s.value matches interchange::EvalValue::Number(None)) ==> shows(
                    c.value,
                    s.value,
                )
            }),
{
    let all = document::cells_view(body.cells@);
    let spills = interchange::spills_written(sheet.spills@);
    let n = all.len() - spills.len();
    lemma_spill_is_written(sheet.spills@, k);
    let j = choose|j: int|
        0 <= j < spills.len() && is_spill_of(#[trigger] spills[j], sheet.spills@[k]);
    assert(all.skip(n)[j] == all[n + j]);
    assert(is_spill_of(all[n + j], sheet.spills@[k]));
}

spec fn is_spill_of(c: document::CellModel, s: interchange::SpillCell) -> bool {
    &&& c.row == s.row && c.col == s.col && c.spill_from == s.parent
    &&& c.formula is None && c.fmt is None && !c.stale_custom_fn
    &&& c.value == interchange::spill_value_written(s.value)
}

proof fn lemma_spill_is_written(spills: Seq<interchange::SpillCell>, k: int)
    requires
        0 <= k < spills.len(),
        spills[k].parent is Some,
    ensures
        exists|j: int|
            0 <= j < interchange::spills_written(spills).len() && is_spill_of(
                #[trigger] interchange::spills_written(spills)[j],
                spills[k],
            ),
    decreases spills.len(),
{
    let front = spills.drop_last();
    let rest = interchange::spills_written(front);
    let all = interchange::spills_written(spills);
    if k < front.len() {
        assert(front[k] == spills[k]);
        lemma_spill_is_written(front, k);
        let j = choose|j: int| 0 <= j < rest.len() && is_spill_of(#[trigger] rest[j], front[k]);
        assert(all[j] == rest[j]);
    } else {
        assert(is_spill_of(all[rest.len() as int], spills[k]));
    }
}

/// What was written beside a formula is what is kept for it when the document is
/// read where the formula cannot be computed: the same number or text, and a
/// truth value in words.
pub proof fn what_was_written_is_what_is_kept(c: interchange::SheetCell)
    requires
        c.raw@.len() > 0,
        c.raw@[0] == '=',
    ensures
        ({
            let kept = cell_kept(interchange::cell_written(c), c.raw@);
            match c.computed {
                interchange::EvalValue::Number(Some(n)) => kept == Some(CachedModel::Number(n@)),
                interchange::EvalValue::Text(t) => kept == Some(CachedModel::Text(t@)),
                interchange::EvalValue::Error(e) => kept == Some(CachedModel::Text(e@)),
                interchange::EvalValue::Boolean(b) => kept matches Some(CachedModel::Text(w)) && (b
                    ==> w == "TRUE"@) && (!b ==> w == "FALSE"@),
                _ => kept is None,
            }
        }),
{
}

/// How a cell of a document reads, whoever wrote it. A formula is typed in again,
/// whatever value stands beside it; a text stays text, even where it reads like a
/// number; a number and a truth value are typed in; and a cell that a formula spilled
/// into is left to that formula.
pub proof fn how_a_cell_reads(c: document::CellModel)
    ensures
        c.spill_from is Some ==> interchange::cell_ops(c).len() == 0,
        c.spill_from is None ==> ({
            let ops = interchange::cell_ops(c);
            let typed = if c.formula is Some || c.value is Some {
                1int
            } else {
                0
            };
            &&& ops.len() == typed + if c.fmt is Some {
                1int
            } else {
                0
            }
            &&& c.formula matches Some(f) ==> ops[0] == interchange::OpModel::SetDeferred(
                c.row,
                c.col,
                f,
            )
            &&& c.formula is None && c.value is Some ==> match c.value->0 {
                document::ScalarModel::Text(t) => ops[0] == interchange::OpModel::SetText(
                    c.row,
                    c.col,
                    t,
                ),
                document::ScalarModel::Number(n) => ops[0] == interchange::OpModel::SetDeferred(
                    c.row,
                    c.col,
                    n,
                ),
                document::ScalarModel::Bool(b) => ops[0] matches interchange::OpModel::SetDeferred(
                    r,
                    k,
                    w,
                ) && r == c.row && k == c.col && (w == "TRUE"@ <==> b) && (w == "FALSE"@ <==> !b),
                document::ScalarModel::Other(o) => ops[0] == interchange::OpModel::SetDeferred(
                    c.row,
                    c.col,
                    o,
                ),
            }
            &&& c.fmt matches Some(f) ==> ops.last() == interchange::OpModel::SetFormat(
                c.row,
                c.col,
                f,
            )
        }),
{
    reveal_strlit("TRUE");
    reveal_strlit("FALSE");
    assert("TRUE"@.len() == 4 && "FALSE"@.len() == 5);
}

/// Merged regions, conditional formats and validations are put back one by one, as they
/// are written.
pub proof fn what_else_a_sheet_has_is_put_back(
    merges: Seq<document::MergeSpec>,
    cond: Option<Seq<char>>,
    rules: Seq<(document::CellRange, Seq<char>)>,
    i: int,
)
    ensures
        interchange::merge_ops(merges).len() == merges.len(),
        0 <= i < merges.len() ==> interchange::merge_ops(merges)[i]
            == interchange::OpModel::AddMerge(merges[i]),
        cond is None ==> interchange::cond_ops(cond).len() == 0,
        cond matches Some(t) ==> interchange::cond_ops(cond) == seq![
            interchange::OpModel::SetCondFormats(t),
        ],
        interchange::validation_ops(rules).len() == rules.len(),
        0 <= i < rules.len() ==> interchange::validation_ops(rules)[i]
            == interchange::OpModel::SetValidation(rules[i].0, rules[i].1),
{
}

/// A sheet without a name gets the next number for one, but for the first, which keeps
/// the name that it has.
pub proof fn sheets_without_a_name_are_numbered(tab: Option<Seq<char>>, i: nat, j: nat)
    ensures
        interchange::name_ops(Seq::empty(), tab, 0).len() == 0,
        i > 0 ==> interchange::name_ops(Seq::empty(), tab, i).len() == 1,
        i > 0 && j > 0 && i != j ==> interchange::name_ops(Seq::empty(), tab, i)
            != interchange::name_ops(Seq::empty(), tab, j),
        i > 0 ==> (interchange::name_ops(Seq::empty(), tab, i)[0] matches
            interchange::OpModel::SetName(n) && text::has_prefix(n, "Sheet"@) && text::position_of(
            n.skip(5),
        ) == if i + 1 <= usize::MAX {
            Some((i + 1) as usize)
        } else {
            None
        }),
{
    reveal_strlit("Sheet");
    text::decimal_texts_differ(i + 1, j + 1);
    let a = "Sheet"@ + text::dec(i + 1);
    let b = "Sheet"@ + text::dec(j + 1);
    assert(a.skip(5) =~= text::dec(i + 1));
    assert(b.skip(5) =~= text::dec(j + 1));
    assert(a.take(5) =~= "Sheet"@);
    text::decimal_texts_differ(0, i + 1);
    assert(text::is_digit(text::dec(i + 1)[0]));
    if i > 0 && j > 0 && i != j {
        assert(a != b);
        assert(interchange::name_ops(Seq::empty(), tab, i)[0]
            == interchange::OpModel::SetName(a));
        assert(interchange::name_ops(Seq::empty(), tab, j)[0]
            == interchange::OpModel::SetName(b));
    }
}

/// The texts that read like numbers are counted: each counts for one, and nothing else
/// does. Formulas and cells that were spilled into are none.
pub proof fn quoted_numbers_are_counted(cells: Seq<document::CellModel>, c: document::CellModel)
    ensures
        interchange::quoted_numbers(Seq::empty()) == 0,
        c.formula is None && c.spill_from is None && (
        c.value matches Some(document::ScalarModel::Text(t)) && text::is_number_text(t))
            ==> interchange::quoted_numbers(cells.push(c)) == interchange::quoted_numbers(cells)
            + 1,
        c.formula is Some || c.spill_from is Some || !(
        c.value matches Some(document::ScalarModel::Text(t)) && text::is_number_text(t))
            ==> interchange::quoted_numbers(cells.push(c)) == interchange::quoted_numbers(cells),
{
    assert(cells.push(c).drop_last() =~= cells);
    text::what_reads_as_a_number(Seq::empty(), Seq::empty());
    if let Some(document::ScalarModel::Text(t)) = c.value {
        if t.len() == 0 {
            assert(t =~= Seq::<char>::empty());
        }
    }
}

/// A size is read for the line that its key names in decimal, the last one where a line
/// is named twice. A key that is no number names no line.
pub proof fn sizes_are_read_by_their_keys(v: Seq<(Seq<char>, u32)>, k: usize, key: Seq<char>, w: u32)
    ensures
        interchange::sizes_read(v.push((text::dec(k as nat), w))) == interchange::sizes_read(
            v,
        ).insert(k, w),
        (exists|i: int| 0 <= i < key.len() && !text::is_digit(#[trigger] key[i]) && key[i] != '+')
            || key.len() == 0 ==> interchange::sizes_read(v.push((key, w)))
            == interchange::sizes_read(v),
{
    text::position_reads_back(k);
    let a = v.push((text::dec(k as nat), w));
    let b = v.push((key, w));
    assert(a.drop_last() =~= v);
    assert(b.drop_last() =~= v);
    if exists|i: int| 0 <= i < key.len() && !text::is_digit(#[trigger] key[i]) && key[i] != '+' {
        let i = choose|i: int|
            0 <= i < key.len() && !text::is_digit(#[trigger] key[i]) && key[i] != '+';
        let d = text::without_plus(key);
        if key[0] == '+' {
            assert(d[i - 1] == key[i]);
        } else {
            assert(d[i] == key[i]);
        }
    }
}

/// Only cells that hold something or have a format are written.
pub proof fn empty_cells_are_not_written(
    body: SheetBody,
    sheet: Sheet,
    l: layout::LayoutModel,
    i: int,
)
    requires
        interchange::body_written(body, sheet, l),
        0 <= i < body.cells@.len(),
        document::cells_view(body.cells@)[i].spill_from is None,
    ensures
        exists|k: int|
            0 <= k < sheet.cells@.len() && (#[trigger] sheet.cells@[k]).row
                == document::cells_view(body.cells@)[i].row && sheet.cells@[k].col
                == document::cells_view(body.cells@)[i].col && (sheet.cells@[k].raw@.len() > 0
                || sheet.cells@[k].has_format) && (document::cells_view(body.cells@)[i].fmt is Some
                <==> sheet.cells@[k].has_format),
{
    let all = document::cells_view(body.cells@);
    let spills = interchange::spills_written(sheet.spills@);
    let n = all.len() - spills.len();
    if i >= n {
        assert(all.skip(n)[i - n] == all[i]);
        lemma_spills_have_parents(sheet.spills@, i - n);
    }
    assert(all.take(n)[i] == all[i]);
    assert(interchange::comes_from(all.take(n)[i], sheet.cells@));
}

proof fn lemma_spills_have_parents(spills: Seq<interchange::SpillCell>, j: int)
    requires
        0 <= j < interchange::spills_written(spills).len(),
    ensures
        interchange::spills_written(spills)[j].spill_from is Some,
    decreases spills.len(),
{
    if spills.len() > 0 {
        let rest = interchange::spills_written(spills.drop_last());
        if j < rest.len() {
            lemma_spills_have_parents(spills.drop_last(), j);
            assert(interchange::spills_written(spills)[j] == rest[j]);
        }
    }
}

/// A document is accepted exactly if it says that it is one, is not newer than what can
/// be read, and the conditional formats of all its sheets can be read.
pub proof fn what_is_accepted(doc: FullDoc, conds: Seq<Option<String>>)
    ensures
        refusal(doc, conds) is None <==> doc.format@ == "visigrid-json"@ && doc.version <= 2
            && forall|i: int|
            0 <= i < bodies_of(doc).len() ==> !((#[trigger] bodies_of(doc)[i]).cond_formats is Some
                && conds[i] is Some),
        refusal(doc, conds) matches Some(m) && doc.format@ == "visigrid-json"@ && doc.version <= 2
            ==> exists|i: int|
            0 <= i < bodies_of(doc).len() && (#[trigger] bodies_of(doc)[i]).cond_formats is Some
                && conds[i] is Some && text::has_suffix(refusal(doc, conds)->0, conds[i]->0@)
                && forall|j: int|
                0 <= j < i ==> !((#[trigger] bodies_of(doc)[j]).cond_formats is Some && conds[j]
                    is Some),
{
    let bodies = bodies_of(doc);
    lemma_first_failing(bodies, conds, 0);
    if let Some(i) = first_failure(bodies, conds, 0) {
        assert(interchange::cond_fails(bodies[i], conds[i]));
        let m = interchange::cond_message(bodies[i], conds[i]);
        let front = "sheet "@ + text::debug_quoted(bodies[i].name@) + ": invalid cond_formats: "@;
        text::what_it_means_to_hold_a_text(front, conds[i]->0@, Seq::empty());
    }
}

proof fn lemma_first_failing(bodies: Seq<SheetBody>, conds: Seq<Option<String>>, from: int)
    requires
        0 <= from <= bodies.len(),
    ensures
        match first_failure(bodies, conds, from) {
            Some(i) => from <= i < bodies.len() && bodies[i].cond_formats is Some && conds[i]
                is Some && forall|j: int|
                from <= j < i ==> !((#[trigger] bodies[j]).cond_formats is Some && conds[j]
                    is Some),
            None => forall|j: int|
                from <= j < bodies.len() ==> !((#[trigger] bodies[j]).cond_formats is Some
                    && conds[j] is Some),
        },
    decreases bodies.len() - from,
{
    if from < bodies.len() && !interchange::cond_fails(bodies[from], conds[from]) {
        lemma_first_failing(bodies, conds, from + 1);
    }
}

/// Where one sheet of a workbook is read, it is the active one; and the active sheet of
/// a document is always one of its sheets.
pub proof fn the_active_sheet_is_read(
    doc: FullDoc,
    sheets: Seq<Sheet>,
    layouts: Seq<SheetLayout>,
    active: usize,
    a: AppliedBody,
)
    requires
        active < sheets.len(),
        is_workbook_doc(doc, sheets, layouts, active as int),
        active_imported(a, doc),
    ensures
        doc.active_sheet == Some(active),
        is_restored(a, sheets[active as int], layout_for(layouts, active as int), active as nat),
        a.rows == 65536 && a.cols == 256,
        forall|x: int, n: int| 0 <= x && 0 < n ==> 0 <= #[trigger] clamped(x, n) < n,
        forall|x: int, n: int| 0 <= x < n ==> #[trigger] clamped(x, n) == x,
{
    let body = doc.sheets@[active as int];
    assert(interchange::body_written(
        body,
        sheets[active as int],
        layout_for(layouts, active as int),
    ));
    lemma_body_restored(
        a,
        body,
        sheets[active as int],
        layout_for(layouts, active as int),
        active as nat,
    );
}

proof fn lemma_row_trimmed(r: Seq<Seq<char>>)
    ensures
        row_trimmed(r).len() <= r.len(),
        row_trimmed(r) == r.take(row_trimmed(r).len() as int),
        forall|c: int| row_trimmed(r).len() <= c < r.len() ==> (#[trigger] r[c]).len() == 0,
        row_trimmed(r).len() > 0 ==> row_trimmed(r).last().len() > 0,
    decreases r.len(),
{
    if r.len() > 0 && r.last().len() == 0 {
        let t = r.drop_last();
        lemma_row_trimmed(t);
        let n = row_trimmed(r).len() as int;
        assert(t.take(n) =~= r.take(n));
        assert forall|c: int| n <= c < r.len() implies (#[trigger] r[c]).len() == 0 by {
            if c < t.len() {
                assert(t[c] == r[c]);
            }
        }
    } else {
        assert(r.take(r.len() as int) =~= r);
    }
}

/// The cells of a plain export are those of the sheet, each in its place, without the
/// empty cells at the ends of the rows and the empty rows at the end: nothing that holds
/// a text is left out, and no row but one inside the sheet ends with an empty cell.
pub proof fn a_plain_export_leaves_out_empty_ends(g: Seq<Seq<Seq<char>>>)
    ensures
        rows_trimmed(g).len() <= g.len(),
        forall|r: int, c: int|
            #![trigger g[r][c]]
            0 <= r < g.len() && 0 <= c < g[r].len() && g[r][c].len() > 0 ==> r
                < rows_trimmed(g).len() && c < rows_trimmed(g)[r].len() && rows_trimmed(g)[r][c]
                == g[r][c],
        forall|r: int|
            0 <= r < rows_trimmed(g).len() ==> (#[trigger] rows_trimmed(g)[r]).len() <= g[r].len()
                && rows_trimmed(g)[r] == g[r].take(rows_trimmed(g)[r].len() as int) && (
            rows_trimmed(g)[r].len() > 0 ==> rows_trimmed(g)[r].last().len() > 0),
        rows_trimmed(g).len() > 0 ==> rows_trimmed(g).last().len() > 0,
    decreases g.len(),
{
    let out = rows_trimmed(g);
    if g.len() > 0 && row_trimmed(g.last()).len() == 0 {
        let t = g.drop_last();
        a_plain_export_leaves_out_empty_ends(t);
        lemma_row_trimmed(g.last());
        assert forall|r: int, c: int|
            #![trigger g[r][c]]
            0 <= r < g.len() && 0 <= c < g[r].len() && g[r][c].len() > 0 implies r < out.len() && c
            < out[r].len() && out[r][c] == g[r][c] by {
            if r < t.len() {
                assert(t[r] == g[r]);
                assert(t[r][c].len() > 0);
            } else {
                assert(g.last()[c].len() == 0);
            }
        }
        assert forall|r: int| 0 <= r < out.len() implies (#[trigger] out[r]).len() <= g[r].len()
            && out[r] == g[r].take(out[r].len() as int) && (out[r].len() > 0 ==> out[r].last().len()
            > 0) by {
            assert(t[r] == g[r]);
        }
    } else {
        assert forall|r: int| 0 <= r < out.len() implies (#[trigger] out[r]).len() <= g[r].len()
            && out[r] == g[r].take(out[r].len() as int) && (out[r].len() > 0 ==> out[r].last().len()
            > 0) by {
            lemma_row_trimmed(g[r]);
        }
        assert forall|r: int, c: int|
            #![trigger g[r][c]]
            0 <= r < g.len() && 0 <= c < g[r].len() && g[r][c].len() > 0 implies r < out.len() && c
            < out[r].len() && out[r][c] == g[r][c] by {
            lemma_row_trimmed(g[r]);
        }
        if g.len() > 0 {
            assert(out.last() == row_trimmed(g.last()));
        }
    }
}

proof fn lemma_cached_in(
    index: usize,
    cells: Seq<document::CellModel>,
    raws: Seq<Seq<char>>,
    i: int,
    v: CachedModel,
)
    requires
        0 <= i < cells.len(),
        cell_kept(cells[i], raws[i]) == Some(v),
    ensures
        cached_in(index, cells, raws).contains((index, cells[i].row, cells[i].col, v)),
    decreases cells.len(),
{
    let t = cells.drop_last();
    let rest = cached_in(index, t, raws);
    let all = cached_in(index, cells, raws);
    let x = (index, cells[i].row, cells[i].col, v);
    if i < t.len() {
        assert(t[i] == cells[i]);
        lemma_cached_in(index, t, raws, i, v);
        let k = choose|k: int| 0 <= k < rest.len() && rest[k] == x;
        assert(all[k] == x);
    } else {
        assert(all[rest.len() as int] == x);
    }
}

/// Every number that stands beside a formula of a document is handed on with its place,
/// where the formula was read as it is written; and so is every text.
pub proof fn every_kept_value_is_handed_on(
    bodies: Seq<SheetBody>,
    raws: Seq<Vec<String>>,
    b: int,
    i: int,
    n: Seq<char>,
)
    requires
        0 <= b < bodies.len() <= usize::MAX,
        b < raws.len(),
        0 <= i < bodies[b].cells@.len(),
        raws[b]@.len() == bodies[b].cells@.len(),
        document::cells_view(bodies[b].cells@)[i].formula == Some(raws[b]@[i]@),
    ensures
        document::cells_view(bodies[b].cells@)[i].value == Some(document::ScalarModel::Number(n))
            ==> cached_values(bodies, raws).contains(
            (b as usize, bodies[b].cells@[i].row, bodies[b].cells@[i].col, CachedModel::Number(n)),
        ),
        document::cells_view(bodies[b].cells@)[i].value == Some(document::ScalarModel::Text(n))
            ==> cached_values(bodies, raws).contains(
            (b as usize, bodies[b].cells@[i].row, bodies[b].cells@[i].col, CachedModel::Text(n)),
        ),
    decreases bodies.len(),
{
    let t = bodies.drop_last();
    let rest = cached_values(t, raws);
    let all = cached_values(bodies, raws);
    let row = bodies[b].cells@[i].row;
    let col = bodies[b].cells@[i].col;
    let x = (b as usize, row, col, CachedModel::Number(n));
    let y = (b as usize, row, col, CachedModel::Text(n));
    if b < t.len() {
        assert(t[b] == bodies[b]);
        every_kept_value_is_handed_on(t, raws, b, i, n);
        if rest.contains(x) {
            let k = choose|k: int| 0 <= k < rest.len() && rest[k] == x;
            assert(all[k] == x);
        }
        if rest.contains(y) {
            let k = choose|k: int| 0 <= k < rest.len() && rest[k] == y;
            assert(all[k] == y);
        }
    } else {
        let cells = document::cells_view(bodies[b].cells@);
        let more = cached_in(b as usize, cells, row_view(raws[b]@));
        assert(cells[i].row == row && cells[i].col == col);
        if cells[i].value == Some(document::ScalarModel::Number(n)) {
            lemma_cached_in(b as usize, cells, row_view(raws[b]@), i, CachedModel::Number(n));
            let k = choose|k: int| 0 <= k < more.len() && more[k] == x;
            assert(all[rest.len() + k] == x);
        }
        if cells[i].value == Some(document::ScalarModel::Text(n)) {
            lemma_cached_in(b as usize, cells, row_view(raws[b]@), i, CachedModel::Text(n));
            let k = choose|k: int| 0 <= k < more.len() && more[k] == y;
            assert(all[rest.len() + k] == y);
        }
    }
}

} // verus!
