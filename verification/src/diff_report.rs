//! The report on what has changed since an entry of the history.

use vstd::prelude::*;

use crate::ask_ai::AiConfig;
use crate::naming;
use crate::state::{Mode, Spreadsheet, ViewState};
use crate::text;

verus! {

/// A cell that has changed.
#[derive(Debug, PartialEq, Eq)]
pub struct DiffEntry {
    /// The cell with its sheet.
    pub address: String,
    pub old_value: String,
    pub new_value: String,
    pub ai_touched: bool,
}

/// What has changed since an entry of the history.
#[derive(Debug, PartialEq, Eq)]
pub struct DiffReport {
    pub since_entry_label: String,
    pub entries_spanned: usize,
    pub value_changes: Vec<DiffEntry>,
    pub formula_changes: Vec<DiffEntry>,
    pub structural_changes: Vec<String>,
    pub named_range_changes: Vec<String>,
    pub validation_changes: Vec<String>,
    pub format_change_count: usize,
}

/// A cell of a workbook.
#[derive(Debug, Clone, Copy, PartialEq, Eq, Structural)]
pub struct DiffCell {
    pub sheet: usize,
    pub row: usize,
    pub col: usize,
}

/// What the assistant says of a change.
#[derive(Debug, PartialEq, Eq)]
pub struct Explanation {
    pub cell: DiffCell,
    pub text: String,
}

/// The report in a window.
#[derive(Debug, PartialEq, Eq)]
pub struct DiffState {
    pub report: Option<DiffReport>,
    pub ai_only_filter: bool,
    pub selected_entry: Option<DiffCell>,
    pub summary: Option<String>,
    pub summary_loading: bool,
    pub summary_error: Option<String>,
    pub explanations: Vec<Explanation>,
    pub explaining: Option<DiffCell>,
    pub menu_entry: Option<u64>,
}

/// No report is open.
pub open spec fn no_diff(d: DiffState) -> bool {
    &&& d.report is None && !d.ai_only_filter && d.selected_entry is None
    &&& d.summary is None && !d.summary_loading && d.summary_error is None
    &&& d.explanations@.len() == 0 && d.explaining is None
}

impl DiffState {
    pub fn new() -> (d: DiffState)
        ensures
            no_diff(d),
            d.menu_entry is None,
    {
        DiffState {
            report: None,
            ai_only_filter: false,
            selected_entry: None,
            summary: None,
            summary_loading: false,
            summary_error: None,
            explanations: Vec::new(),
            explaining: None,
            menu_entry: None,
        }
    }
}

/// What the assistant said of a cell last.
pub open spec fn explanation_of(v: Seq<Explanation>, cell: DiffCell) -> Option<Seq<char>>
    decreases v.len(),
{
    if v.len() == 0 {
        None
    } else if v.last().cell == cell {
        Some(v.last().text@)
    } else {
        explanation_of(v.drop_last(), cell)
    }
}

// ---------------------------------------------------------------------------
// The dialog
// ---------------------------------------------------------------------------

impl Spreadsheet {
    /// Open the report, if there is one.
    pub fn show_explain_diff(&mut self, report: Option<DiffReport>)
        ensures
            *final(self) == match report {
                Some(r) => Spreadsheet {
                    mode: Mode::ExplainDiff,
                    diff: DiffState {
                        report: Some(r),
                        ai_only_filter: false,
                        menu_entry: None,
                        ..old(self).diff
                    },
                    ..*old(self)
                },
                None => *old(self),
            },
    {
        match report {
            Some(r) => {
                self.diff.report = Some(r);
                self.diff.ai_only_filter = false;
                self.diff.menu_entry = None;
                self.mode = Mode::ExplainDiff;
            },
            None => {},
        }
    }

    /// Close the report.
    pub fn close_explain_diff(&mut self)
        ensures
            *final(self) == (Spreadsheet {
                mode: Mode::Navigation,
                diff: final(self).diff,
                ..*old(self)
            }),
            no_diff(final(self).diff),
            final(self).diff.menu_entry == old(self).diff.menu_entry,
    {
        let menu_entry = self.diff.menu_entry;
        self.diff = DiffState::new();
        self.diff.menu_entry = menu_entry;
        self.mode = Mode::Navigation;
    }

    pub fn toggle_diff_ai_filter(&mut self)
        ensures
            *final(self) == (Spreadsheet {
                diff: DiffState {
                    ai_only_filter: !old(self).diff.ai_only_filter,
                    ..old(self).diff
                },
                ..*old(self)
            }),
    {
        self.diff.ai_only_filter = !self.diff.ai_only_filter;
    }

    /// Go to a cell of the report, which stays open. The result is the sheet to
    /// show, if it is not the one that is shown.
    pub fn diff_jump_to_cell(&mut self, sheet_index: usize, row: usize, col: usize, shown: usize) -> (r:
        Option<usize>)
        ensures
            jumped_to(*old(self), *final(self), sheet_index, row, col, shown, r),
    {
        self.view.selected = (row, col);
        self.view.selection_end = None;
        self.diff.selected_entry = Some(DiffCell { sheet: sheet_index, row, col });
        if sheet_index != shown {
            Some(sheet_index)
        } else {
            None
        }
    }

    /// Go to the chosen cell of the report, if there is one, and close it.
    pub fn diff_jump_and_close(&mut self, shown: usize) -> (r: Option<usize>)
        ensures
            jumped_and_closed(*old(self), *final(self), shown, r),
    {
        let r = match self.diff.selected_entry {
            Some(c) => {
                self.view.selected = (c.row, c.col);
                self.view.selection_end = None;
                if c.sheet != shown {
                    Some(c.sheet)
                } else {
                    None
                }
            },
            None => None,
        };
        self.close_explain_diff();
        r
    }

    pub fn show_history_context_menu(&mut self, entry_id: u64)
        ensures
            *final(self) == (Spreadsheet {
                diff: DiffState { menu_entry: Some(entry_id), ..old(self).diff },
                ..*old(self)
            }),
    {
        self.diff.menu_entry = Some(entry_id);
    }

    pub fn hide_history_context_menu(&mut self)
        ensures
            *final(self) == (Spreadsheet {
                diff: DiffState { menu_entry: None, ..old(self).diff },
                ..*old(self)
            }),
    {
        self.diff.menu_entry = None;
    }
}

// ---------------------------------------------------------------------------
// The report as text
// ---------------------------------------------------------------------------

/// A value, or that there is none.
pub open spec fn shown_value(v: Seq<char>) -> Seq<char> {
    if v.len() == 0 {
        "(empty)"@
    } else {
        v
    }
}

/// A value that is cut after `n` bytes.
pub open spec fn cut_value(v: Seq<char>, n: nat) -> Seq<char> {
    if v.len() == 0 {
        "(empty)"@
    } else if text::utf8_len(v) <= n {
        v
    } else {
        text::byte_prefix(v, n) + "..."@
    }
}

/// Where a value is cut there is no character in the way.
pub open spec fn cuts(v: Seq<char>, n: nat) -> bool {
    text::utf8_len(v) > n ==> text::has_boundary(v, n)
}

/// One change.
pub open spec fn entry_line(address: Seq<char>, old: Seq<char>, new: Seq<char>, ai: bool) -> Seq<char> {
    "  "@ + address + " : "@ + old + " → "@ + new + if ai {
        " [AI]"@
    } else {
        ""@
    } + "\n"@
}

/// Changes with their values in full.
pub open spec fn full_lines(v: Seq<DiffEntry>) -> Seq<char>
    decreases v.len(),
{
    if v.len() == 0 {
        Seq::empty()
    } else {
        let e = v.last();
        full_lines(v.drop_last()) + entry_line(
            e.address@,
            shown_value(e.old_value@),
            shown_value(e.new_value@),
            e.ai_touched,
        )
    }
}

/// Changes with their values cut.
pub open spec fn cut_lines(v: Seq<DiffEntry>, n: nat) -> Seq<char>
    decreases v.len(),
{
    if v.len() == 0 {
        Seq::empty()
    } else {
        let e = v.last();
        cut_lines(v.drop_last(), n) + entry_line(
            e.address@,
            cut_value(e.old_value@, n),
            cut_value(e.new_value@, n),
            e.ai_touched,
        )
    }
}

/// Descriptions, each on a line.
pub open spec fn indented(v: Seq<String>) -> Seq<char>
    decreases v.len(),
{
    if v.len() == 0 {
        Seq::empty()
    } else {
        indented(v.drop_last()) + ("  "@ + v.last()@ + "\n"@)
    }
}

/// A part of the report, which is left out where it has no lines.
pub open spec fn section(title: Seq<char>, lines: Seq<char>, none: bool) -> Seq<char> {
    if none {
        Seq::empty()
    } else {
        title + lines + "\n"@
    }
}

/// How much has changed, each number behind a mark.
pub open spec fn counts_text(r: DiffReport, mark: Seq<char>) -> Seq<char> {
    "Summary:\n"@ + mark + text::dec(r.value_changes@.len()) + " value changes\n"@ + mark
        + text::dec(r.formula_changes@.len()) + " formula changes\n"@ + mark + text::dec(
        r.structural_changes@.len(),
    ) + " structural changes\n"@ + mark + text::dec(r.named_range_changes@.len())
        + " named range changes\n"@ + mark + text::dec(r.validation_changes@.len())
        + " validation changes\n"@ + mark + text::dec(r.format_change_count as nat)
        + " format changes\n\n"@
}

/// The report as text.
pub open spec fn report_text(r: DiffReport) -> Seq<char> {
    "Changes since: \""@ + r.since_entry_label@ + "\"\nActions spanned: "@ + text::dec(
        r.entries_spanned as nat,
    ) + "\n\n"@ + counts_text(r, "  "@) + section(
        "Values:\n"@,
        full_lines(r.value_changes@),
        r.value_changes@.len() == 0,
    ) + section(
        "Formulas:\n"@,
        full_lines(r.formula_changes@),
        r.formula_changes@.len() == 0,
    ) + section(
        "Structural:\n"@,
        indented(r.structural_changes@),
        r.structural_changes@.len() == 0,
    ) + section(
        "Named Ranges:\n"@,
        indented(r.named_range_changes@),
        r.named_range_changes@.len() == 0,
    ) + section(
        "Validation:\n"@,
        indented(r.validation_changes@),
        r.validation_changes@.len() == 0,
    )
}

/// The most changes of cells that the assistant is told.
pub const MAX_CHANGES: usize = 20;

/// The most descriptions of one kind that the assistant is told.
pub const MAX_DESCRIPTIONS: usize = 5;

/// The first `n` of a list.
pub open spec fn first<T>(v: Seq<T>, n: int) -> Seq<T> {
    if v.len() <= n {
        v
    } else {
        v.take(n)
    }
}

/// How many changes of formulas the assistant is told.
pub open spec fn formulas_told(r: DiffReport) -> int {
    if r.value_changes@.len() >= MAX_CHANGES {
        0
    } else {
        MAX_CHANGES - r.value_changes@.len()
    }
}

/// What the assistant is asked for a summary.
pub open spec fn summary_prompt(r: DiffReport) -> Seq<char> {
    "Summarize the following spreadsheet changes in 4-8 sentences. Focus on what was changed and why it might matter. Do not suggest any edits or formulas. Just describe what happened.\n\nChanges since: \""@
        + r.since_entry_label@ + "\"\nActions: "@ + text::dec(r.entries_spanned as nat) + "\n\n"@
        + counts_text(r, "- "@) + section(
        "Value changes:\n"@,
        cut_lines(first(r.value_changes@, MAX_CHANGES as int), 30),
        r.value_changes@.len() == 0,
    ) + section(
        "Formula changes:\n"@,
        cut_lines(first(r.formula_changes@, formulas_told(r)), 50),
        r.formula_changes@.len() == 0 || formulas_told(r) == 0,
    ) + section(
        "Structural changes:\n"@,
        indented(first(r.structural_changes@, MAX_DESCRIPTIONS as int)),
        r.structural_changes@.len() == 0,
    ) + section(
        "Named range changes:\n"@,
        indented(first(r.named_range_changes@, MAX_DESCRIPTIONS as int)),
        r.named_range_changes@.len() == 0,
    ) + "\nProvide a concise summary (4-8 sentences). No suggestions, just description."@
}

/// The values of some changes can be cut after `n` bytes.
pub open spec fn all_cut(v: Seq<DiffEntry>, n: nat) -> bool {
    forall|i: int|
        0 <= i < v.len() ==> cuts((#[trigger] v[i]).old_value@, n) && cuts(v[i].new_value@, n)
}

/// The values that the assistant is told can be cut.
pub open spec fn summary_cuts(r: DiffReport) -> bool {
    all_cut(first(r.value_changes@, MAX_CHANGES as int), 30) && all_cut(
        first(r.formula_changes@, formulas_told(r)),
        50,
    )
}

/// A value that is cut after `n` bytes.
pub fn truncate_value(val: &str, max_len: u64) -> (r: String)
    requires
        cuts(val@, max_len as nat),
    ensures
        r@ == cut_value(val@, max_len as nat),
{
    proof {
        reveal_strlit("");
        if val@.len() == 0 {
            assert(val@ =~= ""@);
        }
    }
    if text::str_eq(val, "") {
        text::lit("(empty)")
    } else if !text::longer_than(val, max_len) {
        text::lit(val)
    } else {
        let cut = text::cut_bytes(val, max_len);
        text::cat(cut.as_str(), "...")
    }
}

fn value_or_empty(val: &str) -> (r: String)
    ensures
        r@ == shown_value(val@),
{
    proof {
        reveal_strlit("");
        if val@.len() == 0 {
            assert(val@ =~= ""@);
        }
    }
    if text::str_eq(val, "") {
        text::lit("(empty)")
    } else {
        text::lit(val)
    }
}

fn line(address: &str, old_value: &str, new_value: &str, ai: bool) -> (m: String)
    ensures
        m@ == entry_line(address@, old_value@, new_value@, ai),
{
    let mut m = text::cat3("  ", address, " : ");
    m.append(old_value);
    m.append(" → ");
    m.append(new_value);
    m.append(
        if ai {
            " [AI]"
        } else {
            ""
        },
    );
    m.append("\n");
    m
}

fn full_string(v: &Vec<DiffEntry>) -> (m: String)
    ensures
        m@ == full_lines(v@),
{
    let mut m = String::new();
    let mut i: usize = 0;
    assert(v@.take(0) =~= Seq::empty());
    while i < v.len()
        invariant
            i <= v@.len(),
            m@ == full_lines(v@.take(i as int)),
        decreases v@.len() - i,
    {
        assert(v@.take(i + 1).drop_last() =~= v@.take(i as int));
        assert(v@.take(i + 1).last() == v@[i as int]);
        let e = &v[i];
        let a = value_or_empty(e.old_value.as_str());
        let b = value_or_empty(e.new_value.as_str());
        let l = line(e.address.as_str(), a.as_str(), b.as_str(), e.ai_touched);
        m.append(l.as_str());
        i = i + 1;
    }
    assert(v@.take(v@.len() as int) =~= v@);
    m
}

fn cut_string(v: &Vec<DiffEntry>, count: usize, n: u64) -> (m: String)
    requires
        all_cut(first(v@, count as int), n as nat),
    ensures
        m@ == cut_lines(first(v@, count as int), n as nat),
{
    let mut m = String::new();
    let mut i: usize = 0;
    let ghost told = first(v@, count as int);
    assert(told.take(0) =~= Seq::empty());
    while i < v.len() && i < count
        invariant
            i <= told.len(),
            told == first(v@, count as int),
            all_cut(told, n as nat),
            m@ == cut_lines(told.take(i as int), n as nat),
        decreases v@.len() - i,
    {
        assert(told.take(i + 1).drop_last() =~= told.take(i as int));
        assert(told.take(i + 1).last() == told[i as int]);
        assert(told[i as int] == v@[i as int]);
        let e = &v[i];
        let a = truncate_value(e.old_value.as_str(), n);
        let b = truncate_value(e.new_value.as_str(), n);
        let l = line(e.address.as_str(), a.as_str(), b.as_str(), e.ai_touched);
        m.append(l.as_str());
        i = i + 1;
    }
    assert(told.take(told.len() as int) =~= told);
    m
}

fn indented_string(v: &Vec<String>, count: usize) -> (m: String)
    ensures
        m@ == indented(first(v@, count as int)),
{
    let mut m = String::new();
    let mut i: usize = 0;
    let ghost told = first(v@, count as int);
    assert(told.take(0) =~= Seq::empty());
    while i < v.len() && i < count
        invariant
            i <= told.len(),
            told == first(v@, count as int),
            m@ == indented(told.take(i as int)),
        decreases v@.len() - i,
    {
        assert(told.take(i + 1).drop_last() =~= told.take(i as int));
        assert(told.take(i + 1).last() == told[i as int]);
        assert(told[i as int] == v@[i as int]);
        let l = text::cat3("  ", v[i].as_str(), "\n");
        m.append(l.as_str());
        i = i + 1;
    }
    assert(told.take(told.len() as int) =~= told);
    m
}

fn section_string(title: &str, lines: &str, none: bool) -> (m: String)
    ensures
        m@ == section(title@, lines@, none),
{
    if none {
        String::new()
    } else {
        text::cat3(title, lines, "\n")
    }
}

fn counts_string(r: &DiffReport, mark: &str) -> (m: String)
    ensures
        m@ == counts_text(*r, mark@),
{
    let mut m = text::cat("Summary:\n", mark);
    let n = text::decimal(r.value_changes.len() as u64);
    m.append(n.as_str());
    m.append(" value changes\n");
    m.append(mark);
    let n = text::decimal(r.formula_changes.len() as u64);
    m.append(n.as_str());
    m.append(" formula changes\n");
    m.append(mark);
    let n = text::decimal(r.structural_changes.len() as u64);
    m.append(n.as_str());
    m.append(" structural changes\n");
    m.append(mark);
    let n = text::decimal(r.named_range_changes.len() as u64);
    m.append(n.as_str());
    m.append(" named range changes\n");
    m.append(mark);
    let n = text::decimal(r.validation_changes.len() as u64);
    m.append(n.as_str());
    m.append(" validation changes\n");
    m.append(mark);
    let n = text::decimal(r.format_change_count as u64);
    m.append(n.as_str());
    m.append(" format changes\n\n");
    m
}

impl DiffReport {
    /// The report as text.
    pub fn to_text(&self) -> (m: String)
        ensures
            m@ == report_text(*self),
    {
        let n = text::decimal(self.entries_spanned as u64);
        let counts = counts_string(self, "  ");
        let values = full_string(&self.value_changes);
        let values = section_string("Values:\n", values.as_str(), self.value_changes.len() == 0);
        let formulas = full_string(&self.formula_changes);
        let formulas = section_string(
            "Formulas:\n",
            formulas.as_str(),
            self.formula_changes.len() == 0,
        );
        let structural = indented_string(&self.structural_changes, self.structural_changes.len());
        let structural = section_string(
            "Structural:\n",
            structural.as_str(),
            self.structural_changes.len() == 0,
        );
        let names = indented_string(&self.named_range_changes, self.named_range_changes.len());
        let names = section_string(
            "Named Ranges:\n",
            names.as_str(),
            self.named_range_changes.len() == 0,
        );
        let rules = indented_string(&self.validation_changes, self.validation_changes.len());
        let rules = section_string(
            "Validation:\n",
            rules.as_str(),
            self.validation_changes.len() == 0,
        );
        let mut m = text::cat3(
            "Changes since: \"",
            self.since_entry_label.as_str(),
            "\"\nActions spanned: ",
        );
        m.append(n.as_str());
        m.append("\n\n");
        m.append(counts.as_str());
        m.append(values.as_str());
        m.append(formulas.as_str());
        m.append(structural.as_str());
        m.append(names.as_str());
        m.append(rules.as_str());
        m
    }

    /// What the assistant is asked for a summary.
    pub fn build_diff_summary_prompt(&self) -> (m: String)
        requires
            summary_cuts(*self),
        ensures
            m@ == summary_prompt(*self),
    {
        let n = text::decimal(self.entries_spanned as u64);
        let counts = counts_string(self, "- ");
        let values = cut_string(&self.value_changes, MAX_CHANGES, 30);
        let values = section_string(
            "Value changes:\n",
            values.as_str(),
            self.value_changes.len() == 0,
        );
        let left: usize = if self.value_changes.len() >= MAX_CHANGES {
            0
        } else {
            MAX_CHANGES - self.value_changes.len()
        };
        let formulas = cut_string(&self.formula_changes, left, 50);
        let formulas = section_string(
            "Formula changes:\n",
            formulas.as_str(),
            self.formula_changes.len() == 0 || left == 0,
        );
        let structural = indented_string(&self.structural_changes, MAX_DESCRIPTIONS);
        let structural = section_string(
            "Structural changes:\n",
            structural.as_str(),
            self.structural_changes.len() == 0,
        );
        let names = indented_string(&self.named_range_changes, MAX_DESCRIPTIONS);
        let names = section_string(
            "Named range changes:\n",
            names.as_str(),
            self.named_range_changes.len() == 0,
        );
        let mut m = text::cat3(
            "Summarize the following spreadsheet changes in 4-8 sentences. Focus on what was changed and why it might matter. Do not suggest any edits or formulas. Just describe what happened.\n\nChanges since: \"",
            self.since_entry_label.as_str(),
            "\"\nActions: ",
        );
        m.append(n.as_str());
        m.append("\n\n");
        m.append(counts.as_str());
        m.append(values.as_str());
        m.append(formulas.as_str());
        m.append(structural.as_str());
        m.append(names.as_str());
        m.append(
            "\nProvide a concise summary (4-8 sentences). No suggestions, just description.",
        );
        m
    }
}

impl Spreadsheet {
    /// The report as text, to be copied.
    pub fn copy_diff_report(&self) -> (r: Option<String>)
        ensures
            text::opt_text(r) == match self.diff.report {
                Some(d) => Some(report_text(d)),
                None => None,
            },
    {
        match &self.diff.report {
            Some(d) => Some(d.to_text()),
            None => None,
        }
    }

    /// Ask the assistant for a summary of the report: the result is what it is
    /// asked.
    pub fn generate_diff_summary(&mut self, config: &AiConfig) -> (prompt: Option<String>)
        requires
            config.can_analyze ==> (old(self).diff.report matches Some(r) ==> summary_cuts(r)),
        ensures
            summary_asked(*old(self), *final(self), *config, prompt),
    {
        if !config.can_analyze {
            self.diff.summary_error = Some(text::lit("AI provider does not support summaries"));
            return None;
        }
        let prompt = match &self.diff.report {
            None => {
                return None;
            },
            Some(r) => r.build_diff_summary_prompt(),
        };
        self.diff.summary_loading = true;
        self.diff.summary_error = None;
        Some(prompt)
    }

    /// The assistant has answered, or failed to.
    pub fn diff_summary_answered(&mut self, answer: Result<String, String>)
        ensures
            summary_answered(*old(self), *final(self), answer),
    {
        self.diff.summary_loading = false;
        match answer {
            Ok(s) => {
                self.diff.summary = Some(s);
                self.diff.summary_error = None;
            },
            Err(e) => {
                self.diff.summary_error = Some(e);
            },
        }
    }

    /// The summary, to be copied.
    pub fn copy_diff_summary(&self) -> (r: Option<String>)
        ensures
            text::opt_text(r) == text::opt_text(self.diff.summary),
    {
        crate::document::clone_text(&self.diff.summary)
    }
}

// ---------------------------------------------------------------------------
// One change
// ---------------------------------------------------------------------------

/// The letter before the last one of a column behind Z. It is one character
/// for any column.
pub open spec fn leading_letter(col: usize) -> int {
    65 + (col / 26 - 1) % 256
}

/// The letters that a column has in a question to the assistant.
pub open spec fn short_letters(col: usize) -> Seq<char> {
    if col < 26 {
        seq![naming::letter(col as int)]
    } else {
        seq![leading_letter(col) as char, naming::letter(col as int % 26)]
    }
}

/// A cell with its sheet, as it is named in a question to the assistant.
pub open spec fn asked_address(names: Seq<String>, cell: DiffCell) -> Seq<char> {
    let sheet = if cell.sheet < names.len() {
        names[cell.sheet as int]@
    } else {
        "Sheet"@ + text::dec((cell.sheet + 1) as nat)
    };
    sheet + "!"@ + short_letters(cell.col) + text::dec((cell.row + 1) as nat)
}

/// Where a change came from.
pub open spec fn source_text(ai_touched: bool, source: Option<Seq<char>>) -> Seq<char> {
    if ai_touched {
        match source {
            Some(s) => "Source: AI ("@ + s + ")\n"@,
            None => "Source: AI\n"@,
        }
    } else {
        "Source: Manual edit\n"@
    }
}

/// What the assistant is asked about a change.
pub open spec fn entry_prompt(
    address: Seq<char>,
    old: Seq<char>,
    new: Seq<char>,
    ai_touched: bool,
    source: Option<Seq<char>>,
) -> Seq<char> {
    "Explain this spreadsheet cell change in 2-4 sentences. Just describe what happened. No suggestions, no 'you should', no edits.\n\nCell: "@
        + address + "\nBefore: "@ + cut_value(old, 100) + "\nAfter: "@ + cut_value(new, 100)
        + "\n"@ + source_text(ai_touched, source)
        + "\nExplain concisely what this change does. 2-4 sentences max."@
}

/// What the assistant is asked about a change.
pub fn build_entry_explanation_prompt(
    address: &str,
    old_value: &str,
    new_value: &str,
    ai_touched: bool,
    source: &Option<String>,
) -> (m: String)
    requires
        cuts(old_value@, 100),
        cuts(new_value@, 100),
    ensures
        m@ == entry_prompt(address@, old_value@, new_value@, ai_touched, text::opt_text(*source)),
{
    let a = truncate_value(old_value, 100);
    let b = truncate_value(new_value, 100);
    let from = if ai_touched {
        match source {
            Some(s) => text::cat3("Source: AI (", s.as_str(), ")\n"),
            None => text::lit("Source: AI\n"),
        }
    } else {
        text::lit("Source: Manual edit\n")
    };
    let mut m = text::cat3(
        "Explain this spreadsheet cell change in 2-4 sentences. Just describe what happened. No suggestions, no 'you should', no edits.\n\nCell: ",
        address,
        "\nBefore: ",
    );
    m.append(a.as_str());
    m.append("\nAfter: ");
    m.append(b.as_str());
    m.append("\n");
    m.append(from.as_str());
    m.append("\nExplain concisely what this change does. 2-4 sentences max.");
    m
}

fn asked_letters(col: usize) -> (r: String)
    requires
        col < 26 || leading_letter(col) < 256,
    ensures
        r@ == short_letters(col),
{
    let mut s = String::new();
    let d: u8 = 65 + (col % 26) as u8;
    if col >= 26 {
        let q: usize = (col / 26 - 1) % 256;
        let c: u8 = 65 + q as u8;
        s.push(c as char);
    }
    s.push(d as char);
    assert(s@ =~= short_letters(col));
    s
}

impl Spreadsheet {
    /// Ask the assistant about a change: the result is what it is asked. A
    /// change that it has explained is not asked about again. `names` are those
    /// of the sheets.
    pub fn explain_diff_entry(
        &mut self,
        cell: DiffCell,
        old_value: &str,
        new_value: &str,
        ai_touched: bool,
        ai_source: &Option<String>,
        can_analyze: bool,
        names: &Vec<String>,
    ) -> (prompt: Option<String>)
        requires
            cuts(old_value@, 100),
            cuts(new_value@, 100),
            cell.col < 26 || leading_letter(cell.col) < 256,
            cell.row < usize::MAX,
            cell.sheet < usize::MAX,
        ensures
            entry_asked(*old(self), *final(self), cell, old_value@, new_value@, ai_touched, text::opt_text(*ai_source), can_analyze, names@, prompt),
    {
        if self.has_explanation(cell) || !can_analyze {
            return None;
        }
        let sheet = if cell.sheet < names.len() {
            names[cell.sheet].clone()
        } else {
            let place: usize = cell.sheet + 1;
            let n = text::decimal(place as u64);
            text::cat("Sheet", n.as_str())
        };
        let letters = asked_letters(cell.col);
        let row: usize = cell.row + 1;
        let n = text::decimal(row as u64);
        let mut address = text::cat3(sheet.as_str(), "!", letters.as_str());
        address.append(n.as_str());
        let prompt = build_entry_explanation_prompt(
            address.as_str(),
            old_value,
            new_value,
            ai_touched,
            ai_source,
        );
        self.diff.explaining = Some(cell);
        Some(prompt)
    }

    fn has_explanation(&self, cell: DiffCell) -> (r: bool)
        ensures
            r == (explanation_of(self.diff.explanations@, cell) is Some),
    {
        let ghost all = self.diff.explanations@;
        let mut n: usize = self.diff.explanations.len();
        assert(all.take(n as int) =~= all);
        while n > 0
            invariant
                all == self.diff.explanations@,
                n <= all.len(),
                explanation_of(all.take(n as int), cell) == explanation_of(all, cell),
            decreases n,
        {
            assert(all.take(n as int).last() == all[n - 1]);
            assert(all.take(n as int).drop_last() =~= all.take(n - 1));
            if self.diff.explanations[n - 1].cell == cell {
                return true;
            }
            n = n - 1;
        }
        false
    }

    /// The assistant has explained a change, or failed to.
    pub fn diff_entry_explained(&mut self, cell: DiffCell, answer: Result<String, String>)
        ensures
            entry_explained(*old(self), *final(self), cell, answer),
    {
        self.diff.explaining = None;
        match answer {
            Ok(s) => {
                let ghost before = self.diff.explanations@;
                self.diff.explanations.push(Explanation { cell, text: s });
                assert(self.diff.explanations@.drop_last() =~= before);
            },
            Err(_) => {},
        }
    }
}

// ---------------------------------------------------------------------------
// Talking to the assistant
// ---------------------------------------------------------------------------

/// A question to the assistant as it is sent.
#[derive(Debug, PartialEq, Eq)]
pub struct ChatRequest {
    pub url: String,
    pub api_key: String,
    pub model: String,
    pub system: String,
    pub prompt: String,
    pub max_tokens: u32,
}

/// What a question is for.
#[derive(Debug, Clone, Copy, PartialEq, Eq, Structural)]
pub enum ChatPurpose {
    Summary,
    Explanation,
}

/// What a question is for, in a word.
pub open spec fn purpose_word(p: ChatPurpose) -> Seq<char> {
    match p {
        ChatPurpose::Summary => "summaries"@,
        ChatPurpose::Explanation => "explanations"@,
    }
}

/// How the assistant is told to answer.
pub open spec fn system_text(p: ChatPurpose) -> Seq<char> {
    match p {
        ChatPurpose::Summary => "You are a spreadsheet assistant. Summarize changes concisely. No suggestions or formulas - just describe what changed."@,
        ChatPurpose::Explanation => "You are a spreadsheet assistant. Explain cell changes concisely. No suggestions or edits - just describe what happened."@,
    }
}

/// A question as it is sent. `url` is where the provider takes questions.
pub fn chat_request(purpose: ChatPurpose, config: &AiConfig, url: &Option<String>, prompt: &str) -> (r:
    Result<ChatRequest, String>)
    ensures
        request_is(purpose, *config, *url, prompt@, r),
{
    let u = match url {
        Some(u) => u.clone(),
        None => {
            return Err(
                text::cat3(
                    config.provider.as_str(),
                    " not implemented for ",
                    match purpose {
                        ChatPurpose::Summary => "summaries",
                        ChatPurpose::Explanation => "explanations",
                    },
                ),
            );
        },
    };
    let k = match &config.api_key {
        Some(k) => k.clone(),
        None => {
            return Err(text::lit("API key not configured"));
        },
    };
    Ok(
        ChatRequest {
            url: u,
            api_key: k,
            model: config.model.clone(),
            system: match purpose {
                ChatPurpose::Summary => text::lit(
                    "You are a spreadsheet assistant. Summarize changes concisely. No suggestions or formulas - just describe what changed.",
                ),
                ChatPurpose::Explanation => text::lit(
                    "You are a spreadsheet assistant. Explain cell changes concisely. No suggestions or edits - just describe what happened.",
                ),
            },
            prompt: text::lit(prompt),
            max_tokens: match purpose {
                ChatPurpose::Summary => 500,
                ChatPurpose::Explanation => 200,
            },
        },
    )
}

/// What `serde_json::from_str` makes of a JSON text: the text at
/// `[list][place][member][field]` of its value if there is one; absent where the
/// text is no JSON.
pub uninterp spec fn json_text_at(
    json: Seq<char>,
    list: Seq<char>,
    place: usize,
    member: Seq<char>,
    field: Seq<char>,
) -> Option<Option<Seq<char>>>;

/// The text that was found in a value, if there was a value.
pub open spec fn found_text(found: Option<Option<String>>) -> Option<Option<Seq<char>>> {
    match found {
        Some(t) => Some(text::opt_text(t)),
        None => None,
    }
}

/// `serde_json::from_str` to a `Value`, its `Index` by a key, a place in a list
/// and two more keys, and `Value::as_str` of what is there. The result depends
/// on the text and on these alone.
#[verifier::external_body]
fn parsed_text_at(json: &str, list: &str, place: usize, member: &str, field: &str) -> (r: Option<
    Option<String>,
>)
    ensures
        found_text(r) == json_text_at(json@, list@, place, member@, field@),
{
    let value = serde_json::from_str::<serde_json::Value>(json).ok()?;
    Some(value[list][place][member][field].as_str().map(String::from))
}

/// What the body of a reply holds for an answer: the content of the message of
/// its first choice. Absent where the body is no JSON.
pub open spec fn reply_content(body: Seq<char>) -> Option<Option<Seq<char>>> {
    json_text_at(body, "choices"@, 0, "message"@, "content"@)
}

/// The answer that is in the content of a reply; `unread` is what is said of a
/// body that is no JSON.
pub open spec fn answer_of(content: Option<Option<Seq<char>>>, unread: Seq<char>) -> Result<
    Seq<char>,
    Seq<char>,
> {
    match content {
        Some(Some(t)) => Ok(text::trimmed(t)),
        Some(None) => Err("Invalid response format"@),
        None => Err("Parse error: "@ + unread),
    }
}

/// The texts of a result.
pub open spec fn result_text(r: Result<String, String>) -> Result<Seq<char>, Seq<char>> {
    match r {
        Ok(s) => Ok(s@),
        Err(e) => Err(e@),
    }
}

/// The answer that is in the content of a reply; `unread` is what is said of a
/// body that is no JSON.
pub fn chat_answer(content: Option<Option<String>>, unread: &str) -> (r: Result<String, String>)
    ensures
        result_text(r) == answer_of(found_text(content), unread@),
{
    match content {
        Some(Some(t)) => Ok(text::trim(t.as_str())),
        Some(None) => Err(text::lit("Invalid response format")),
        None => Err(text::cat("Parse error: ", unread)),
    }
}

/// A reply of the assistant: its status, whether that is a success, and its
/// body. `unread` is what the client says of a body that is no JSON.
pub fn chat_reply(status: u16, success: bool, body: &str, unread: &str) -> (r: Result<String, String>)
    ensures
        result_text(r) == if success {
            answer_of(reply_content(body@), unread@)
        } else {
            Err("API error ("@ + text::dec(status as nat) + "): "@ + body@)
        },
{
    if !success {
        let n = text::decimal(status as u64);
        let mut m = text::cat3("API error (", n.as_str(), "): ");
        m.append(body);
        return Err(m);
    }
    chat_answer(parsed_text_at(body, "choices", 0, "message", "content"), unread)
}

/// A changed cell was gone to.
pub open spec fn jumped_to(
    old: Spreadsheet,
    new: Spreadsheet,
    sheet_index: usize,
    row: usize,
    col: usize,
    shown: usize,
    r: Option<usize>,
) -> bool {
    &&& r == if sheet_index != shown {
        Some(sheet_index)
    } else {
        None
    }
    &&& new == (Spreadsheet {
        view: ViewState { selected: (row, col), selection_end: None, ..old.view },
        diff: DiffState {
            selected_entry: Some(DiffCell { sheet: sheet_index, row, col }),
            ..old.diff
        },
        ..old
    })
}

/// The selected cell was gone to, and the report closed.
pub open spec fn jumped_and_closed(
    old: Spreadsheet,
    new: Spreadsheet,
    shown: usize,
    r: Option<usize>,
) -> bool {
    &&& r == match old.diff.selected_entry {
        Some(c) => if c.sheet != shown {
            Some(c.sheet)
        } else {
            None
        },
        None => None,
    }
    &&& new == (Spreadsheet {
        mode: Mode::Navigation,
        view: match old.diff.selected_entry {
            Some(c) => ViewState {
                selected: (c.row, c.col),
                selection_end: None,
                ..old.view
            },
            None => old.view,
        },
        diff: new.diff,
        ..old
    })
    &&& no_diff(new.diff)
    &&& new.diff.menu_entry == old.diff.menu_entry
}

/// A change is to be explained.
pub open spec fn entry_asked(
    old: Spreadsheet,
    new: Spreadsheet,
    cell: DiffCell,
    old_value: Seq<char>,
    new_value: Seq<char>,
    ai_touched: bool,
    ai_source: Option<Seq<char>>,
    can_analyze: bool,
    names: Seq<String>,
    prompt: Option<String>,
) -> bool {
    &&& if explanation_of(old.diff.explanations@, cell) is Some || !can_analyze {
        prompt is None && new == old
    } else {
        &&& prompt matches Some(p) && p@ == entry_prompt(
            asked_address(names, cell),
            old_value,
            new_value,
            ai_touched,
            ai_source,
        )
        &&& new == (Spreadsheet {
            diff: DiffState { explaining: Some(cell), ..old.diff },
            ..old
        })
    }
}

/// An explanation of a change came.
pub open spec fn entry_explained(
    old: Spreadsheet,
    new: Spreadsheet,
    cell: DiffCell,
    answer: Result<String, String>,
) -> bool {
    &&& new == (Spreadsheet {
        diff: DiffState {
            explaining: None,
            explanations: new.diff.explanations,
            ..old.diff
        },
        ..old
    })
    &&& forall|c: DiffCell| #[trigger]
        explanation_of(new.diff.explanations@, c) == match answer {
            Ok(s) => if c == cell {
                Some(s@)
            } else {
                explanation_of(old.diff.explanations@, c)
            },
            Err(_) => explanation_of(old.diff.explanations@, c),
        }
}

/// The changes are to be summed up.
pub open spec fn summary_asked(
    old: Spreadsheet,
    new: Spreadsheet,
    config: AiConfig,
    prompt: Option<String>,
) -> bool {
    &&& if !config.can_analyze {
        &&& prompt is None
        &&& new == (Spreadsheet {
            diff: DiffState {
                summary_error: new.diff.summary_error,
                ..old.diff
            },
            ..old
        })
        &&& text::opt_text(new.diff.summary_error) == Some(
            "AI provider does not support summaries"@,
        )
    } else {
        match old.diff.report {
            None => prompt is None && new == old,
            Some(r) => {
                &&& prompt matches Some(p) && p@ == summary_prompt(r)
                &&& new == (Spreadsheet {
                    diff: DiffState {
                        summary_loading: true,
                        summary_error: None,
                        ..old.diff
                    },
                    ..old
                })
            },
        }
    }
}

/// A summary of the changes came.
pub open spec fn summary_answered(
    old: Spreadsheet,
    new: Spreadsheet,
    answer: Result<String, String>,
) -> bool {
    &&& new == (Spreadsheet {
        diff: match answer {
            Ok(s) => DiffState {
                summary: Some(s),
                summary_loading: false,
                summary_error: None,
                ..old.diff
            },
            Err(e) => DiffState {
                summary_loading: false,
                summary_error: Some(e),
                ..old.diff
            },
        },
        ..old
    })
}

/// What is sent to a provider.
pub open spec fn request_is(
    purpose: ChatPurpose,
    config: AiConfig,
    url: Option<String>,
    prompt: Seq<char>,
    r: Result<ChatRequest, String>,
) -> bool {
    &&& match url {
        None => r matches Err(e) && e@ == config.provider@ + " not implemented for "@
            + purpose_word(purpose),
        Some(u) => match config.api_key {
            None => r matches Err(e) && e@ == "API key not configured"@,
            Some(k) => r matches Ok(q) && q.url@ == u@ && q.api_key@ == k@ && q.model@
                == config.model@ && q.system@ == system_text(purpose) && q.prompt@ == prompt
                && q.max_tokens == if purpose == ChatPurpose::Summary {
                500u32
            } else {
                200u32
            },
        },
    }
}

// ---------------------------------------------------------------------------
// Laws
// ---------------------------------------------------------------------------

/// A value that is short enough is shown whole. A longer one is shown up to a length, with dots behind it; and an
/// empty one is said to be empty.
pub proof fn long_values_are_cut(v: Seq<char>, n: nat)
    requires
        cuts(v, n),
    ensures
        v.len() > 0 && text::utf8_len(v) <= n ==> cut_value(v, n) == v,
        text::utf8_len(v) > n && v.len() > 0 ==> exists|k: int|
            0 <= k < v.len() && cut_value(v, n) == #[trigger] v.take(k) + "..."@ && text::utf8_len(
                v.take(k),
            ) == n,
        v.len() == 0 ==> cut_value(v, n) == "(empty)"@ && shown_value(v) == "(empty)"@,
        v.len() > 0 ==> shown_value(v) == v,
{
    text::a_cut_keeps_all_that_fits(v, n, 0);
    let k = text::byte_prefix(v, n).len() as int;
    if text::utf8_len(v) > n && v.len() > 0 {
        assert(text::byte_prefix(v, n) == v.take(k));
        if k == v.len() {
            assert(v.take(k) =~= v);
        }
        assert(cut_value(v, n) == v.take(k) + "..."@);
    }
}

/// Every change has its line in the report, with its cell, its value before and its value after.
pub proof fn every_change_has_its_line(v: Seq<DiffEntry>, i: int, n: nat)
    requires
        0 <= i < v.len(),
    ensures
        text::contains_text(
            full_lines(v),
            entry_line(
                v[i].address@,
                shown_value(v[i].old_value@),
                shown_value(v[i].new_value@),
                v[i].ai_touched,
            ),
        ),
        text::contains_text(
            cut_lines(v, n),
            entry_line(
                v[i].address@,
                cut_value(v[i].old_value@, n),
                cut_value(v[i].new_value@, n),
                v[i].ai_touched,
            ),
        ),
    decreases v.len(),
{
    let t = v.drop_last();
    let none = Seq::<char>::empty();
    let e = v.last();
    let x = entry_line(
        e.address@,
        shown_value(e.old_value@),
        shown_value(e.new_value@),
        e.ai_touched,
    );
    let y = entry_line(
        e.address@,
        cut_value(e.old_value@, n),
        cut_value(e.new_value@, n),
        e.ai_touched,
    );
    if i < t.len() {
        every_change_has_its_line(t, i, n);
        assert(t[i] == v[i]);
        text::what_is_held_stays_held(
            none,
            full_lines(t),
            x,
            entry_line(
                v[i].address@,
                shown_value(v[i].old_value@),
                shown_value(v[i].new_value@),
                v[i].ai_touched,
            ),
        );
        text::what_is_held_stays_held(
            none,
            cut_lines(t, n),
            y,
            entry_line(
                v[i].address@,
                cut_value(v[i].old_value@, n),
                cut_value(v[i].new_value@, n),
                v[i].ai_touched,
            ),
        );
    } else {
        text::what_it_means_to_hold_a_text(full_lines(t), x, none);
        text::what_it_means_to_hold_a_text(cut_lines(t, n), y, none);
        assert(full_lines(t) + x + none =~= full_lines(v));
        assert(cut_lines(t, n) + y + none =~= cut_lines(v, n));
    }
}

/// A line names the cell first, then the value before, then the value after, and marks what an assistant did.
pub proof fn a_line_tells_before_and_after(address: Seq<char>, old: Seq<char>, new: Seq<char>)
    ensures
        entry_line(address, old, new, false) == "  "@ + address + " : "@ + old + " → "@ + new
            + "\n"@,
        entry_line(address, old, new, true) == "  "@ + address + " : "@ + old + " → "@ + new
            + " [AI]\n"@,
{
    reveal_strlit("");
    reveal_strlit(" [AI]");
    reveal_strlit(" [AI]\n");
    reveal_strlit("\n");
    assert(" [AI]"@ + "\n"@ =~= " [AI]\n"@);
    assert(""@ =~= Seq::<char>::empty());
    let f = "  "@ + address + " : "@ + old + " → "@ + new;
    assert(f + ""@ + "\n"@ =~= f + "\n"@);
    assert(f + " [AI]"@ + "\n"@ =~= f + " [AI]\n"@);
}

/// A report holds its changes of values and of formulas, each under its heading, where there are such, and how
/// many there are of each.
pub proof fn a_report_holds_all_changes(r: DiffReport)
    ensures
        r.value_changes@.len() > 0 ==> text::contains_text(
            report_text(r),
            "Values:\n"@ + full_lines(r.value_changes@) + "\n"@,
        ),
        r.formula_changes@.len() > 0 ==> text::contains_text(
            report_text(r),
            "Formulas:\n"@ + full_lines(r.formula_changes@) + "\n"@,
        ),
        text::contains_text(report_text(r), counts_text(r, "  "@)),
        text::contains_text(report_text(r), r.since_entry_label@),
{
    let top = "Changes since: \""@ + r.since_entry_label@ + "\"\nActions spanned: "@ + text::dec(
        r.entries_spanned as nat,
    ) + "\n\n"@;
    lemma_label(r.since_entry_label@, text::dec(r.entries_spanned as nat));
    lemma_parts_of_a_report(
        top,
        counts_text(r, "  "@),
        section("Values:\n"@, full_lines(r.value_changes@), r.value_changes@.len() == 0),
        section("Formulas:\n"@, full_lines(r.formula_changes@), r.formula_changes@.len() == 0),
        section(
            "Structural:\n"@,
            indented(r.structural_changes@),
            r.structural_changes@.len() == 0,
        ),
        section(
            "Named Ranges:\n"@,
            indented(r.named_range_changes@),
            r.named_range_changes@.len() == 0,
        ),
        section("Validation:\n"@, indented(r.validation_changes@), r.validation_changes@.len() == 0),
        r.since_entry_label@,
    );
}

proof fn lemma_label(label: Seq<char>, n: Seq<char>)
    ensures
        text::contains_text(
            "Changes since: \""@ + label + "\"\nActions spanned: "@ + n + "\n\n"@,
            label,
        ),
{
    let none = Seq::<char>::empty();
    let a = "Changes since: \""@ + label + "\"\nActions spanned: "@;
    text::what_it_means_to_hold_a_text("Changes since: \""@, label, "\"\nActions spanned: "@);
    text::what_is_held_stays_held(none, a, n, label);
    text::what_is_held_stays_held(none, a + n, "\n\n"@, label);
}

proof fn lemma_parts_of_a_report(
    top: Seq<char>,
    c: Seq<char>,
    v: Seq<char>,
    f: Seq<char>,
    s: Seq<char>,
    n: Seq<char>,
    w: Seq<char>,
    label: Seq<char>,
)
    requires
        text::contains_text(top, label),
    ensures
        text::contains_text(top + c + v + f + s + n + w, label),
        text::contains_text(top + c + v + f + s + n + w, c),
        text::contains_text(top + c + v + f + s + n + w, v),
        text::contains_text(top + c + v + f + s + n + w, f),
{
    let none = Seq::<char>::empty();
    text::what_is_held_stays_held(none, top, c, label);
    text::what_it_means_to_hold_a_text(top, c, v);
    text::what_is_held_stays_held(none, top + c, v, label);
    text::what_it_means_to_hold_a_text(top + c, v, f);
    text::what_is_held_stays_held(none, top + c + v, f, label);
    text::what_is_held_stays_held(none, top + c + v, f, c);
    text::what_it_means_to_hold_a_text(top + c + v, f, s);
    text::what_is_held_stays_held(none, top + c + v + f, s, label);
    text::what_is_held_stays_held(none, top + c + v + f, s, c);
    text::what_is_held_stays_held(none, top + c + v + f, s, v);
    let a = top + c + v + f + s;
    text::what_is_held_stays_held(none, a, n, label);
    text::what_is_held_stays_held(none, a, n, c);
    text::what_is_held_stays_held(none, a, n, v);
    text::what_is_held_stays_held(none, a, n, f);
    text::what_is_held_stays_held(none, a + n, w, label);
    text::what_is_held_stays_held(none, a + n, w, c);
    text::what_is_held_stays_held(none, a + n, w, v);
    text::what_is_held_stays_held(none, a + n, w, f);
}

/// A summary is asked for of no more than twenty changes of values and formulas together, the first of each, and
/// of no more than five of the others.
pub proof fn a_summary_is_of_the_first_changes(r: DiffReport)
    ensures
        first(r.value_changes@, MAX_CHANGES as int).len() + first(
            r.formula_changes@,
            formulas_told(r),
        ).len() <= 20,
        forall|i: int|
            0 <= i < first(r.value_changes@, MAX_CHANGES as int).len() ==> #[trigger] first(
                r.value_changes@,
                MAX_CHANGES as int,
            )[i] == r.value_changes@[i],
        first(r.structural_changes@, MAX_DESCRIPTIONS as int).len() <= 5,
        r.value_changes@.len() + r.formula_changes@.len() <= 20 ==> first(
            r.value_changes@,
            MAX_CHANGES as int,
        ) == r.value_changes@ && first(r.formula_changes@, formulas_told(r)) == r.formula_changes@,
{
    if r.value_changes@.len() + r.formula_changes@.len() <= 20 {
        assert(first(r.value_changes@, 20) =~= r.value_changes@);
    }
}

/// A change is explained once: when its explanation came it is kept, the others stay, and it is not asked for
/// again. One that failed can be asked for again.
pub proof fn a_change_is_explained_once(
    a: Spreadsheet,
    b: Spreadsheet,
    c: Spreadsheet,
    cell: DiffCell,
    other: DiffCell,
    answer: Result<String, String>,
    old_value: Seq<char>,
    new_value: Seq<char>,
    ai_touched: bool,
    source: Option<Seq<char>>,
    names: Seq<String>,
    prompt: Option<String>,
)
    requires
        entry_explained(a, b, cell, answer),
        entry_asked(b, c, cell, old_value, new_value, ai_touched, source, true, names, prompt),
        other != cell,
    ensures
        answer matches Ok(s) ==> explanation_of(b.diff.explanations@, cell) == Some(s@) && prompt
            is None && c == b,
        answer is Err && explanation_of(a.diff.explanations@, cell) is None ==> prompt is Some
            && c.diff.explaining == Some(cell),
        explanation_of(b.diff.explanations@, other) == explanation_of(a.diff.explanations@, other),
        b.diff.explaining is None && b.diff.report == a.diff.report,
        prompt matches Some(p) ==> text::contains_text(p@, asked_address(names, cell))
            && text::contains_text(p@, cut_value(old_value, 100)) && text::contains_text(
            p@,
            cut_value(new_value, 100),
        ),
{
    assert(explanation_of(b.diff.explanations@, cell) == match answer {
        Ok(s) => Some(s@),
        Err(_) => explanation_of(a.diff.explanations@, cell),
    });
    assert(explanation_of(b.diff.explanations@, other) == explanation_of(
        a.diff.explanations@,
        other,
    ));
    let head = "Explain this spreadsheet cell change in 2-4 sentences. Just describe what happened. No suggestions, no 'you should', no edits.\n\nCell: "@;
    let address = asked_address(names, cell);
    let before = cut_value(old_value, 100);
    let after = cut_value(new_value, 100);
    let tail = "\n"@ + source_text(ai_touched, source)
        + "\nExplain concisely what this change does. 2-4 sentences max."@;
    let all = entry_prompt(address, old_value, new_value, ai_touched, source);
    text::what_it_means_to_hold_a_text(
        head,
        address,
        "\nBefore: "@ + before + "\nAfter: "@ + after + tail,
    );
    assert(head + address + ("\nBefore: "@ + before + "\nAfter: "@ + after + tail) =~= all);
    text::what_it_means_to_hold_a_text(
        head + address + "\nBefore: "@,
        before,
        "\nAfter: "@ + after + tail,
    );
    assert(head + address + "\nBefore: "@ + before + ("\nAfter: "@ + after + tail) =~= all);
    text::what_it_means_to_hold_a_text(
        head + address + "\nBefore: "@ + before + "\nAfter: "@,
        after,
        tail,
    );
    assert(head + address + "\nBefore: "@ + before + "\nAfter: "@ + after + tail =~= all);
}

/// The cell that is asked about is named as it is everywhere else, as far as columns with two letters go, behind the
/// name of its sheet.
pub proof fn a_cell_is_asked_about_by_its_name(names: Seq<String>, cell: DiffCell)
    requires
        cell.col < 702,
        cell.sheet < names.len(),
    ensures
        asked_address(names, cell) == names[cell.sheet as int]@ + "!"@ + naming::cell_text(
            cell.row,
            cell.col,
        ),
{
    reveal_with_fuel(naming::column_letters, 3);
    let c = cell.col as nat;
    if c >= 26 {
        assert((c / 26 - 1) < 26);
        assert(naming::column_letters((c / 26 - 1) as nat) =~= seq![
            naming::letter((c / 26 - 1) as int),
        ]);
    }
    assert(short_letters(cell.col) =~= naming::column_letters(c));
    let s = names[cell.sheet as int]@ + "!"@;
    assert(s + short_letters(cell.col) + text::dec((cell.row + 1) as nat) =~= s
        + naming::cell_text(cell.row, cell.col));
}

/// Going to a changed cell makes it the active cell, on its own sheet, and the report remembers it; closing the report
/// goes there and forgets the report.
pub proof fn a_changed_cell_is_gone_to(
    a: Spreadsheet,
    b: Spreadsheet,
    c: Spreadsheet,
    sheet: usize,
    row: usize,
    col: usize,
    shown: usize,
    r: Option<usize>,
    r2: Option<usize>,
)
    requires
        jumped_to(a, b, sheet, row, col, shown, r),
        jumped_and_closed(b, c, shown, r2),
    ensures
        b.view.selected == (row, col) && b.view.selection_end is None,
        r is Some <==> sheet != shown,
        r matches Some(s) ==> s == sheet,
        r2 == r && c.view.selected == (row, col) && c.mode == Mode::Navigation,
        c.diff.report is None && c.diff.explanations@.len() == 0 && c.diff.selected_entry is None,
        b.diff.report == a.diff.report && c.diff.menu_entry == a.diff.menu_entry,
        c.file == a.file,
{
}

/// A summary that was asked for is awaited, and its answer ends that: with the summary, or with what went wrong.
pub proof fn a_summary_is_awaited(
    a: Spreadsheet,
    b: Spreadsheet,
    c: Spreadsheet,
    config: AiConfig,
    prompt: Option<String>,
    answer: Result<String, String>,
)
    requires
        summary_asked(a, b, config, prompt),
        summary_answered(b, c, answer),
    ensures
        prompt is Some <==> config.can_analyze && a.diff.report is Some,
        prompt is Some ==> b.diff.summary_loading && b.diff.summary_error is None,
        !config.can_analyze ==> b.diff.summary_error is Some && b.diff.summary_loading
            == a.diff.summary_loading,
        !c.diff.summary_loading,
        answer matches Ok(s) ==> c.diff.summary == Some(s) && c.diff.summary_error is None,
        answer matches Err(e) ==> c.diff.summary_error == Some(e) && c.diff.summary
            == a.diff.summary,
        c.diff.report == a.diff.report,
{
}

/// Nothing is sent without an address and a key, and what is sent is the prompt, to that address, with that key and the
/// model of the settings. What comes back is told without the white space around it, or refused.
pub proof fn a_request_carries_the_prompt(
    purpose: ChatPurpose,
    config: AiConfig,
    url: Option<String>,
    prompt: Seq<char>,
    r: Result<ChatRequest, String>,
    content: Seq<char>,
    unread: Seq<char>,
)
    requires
        request_is(purpose, config, url, prompt, r),
    ensures
        r is Ok <==> url is Some && config.api_key is Some,
        r matches Ok(q) ==> q.prompt@ == prompt && Some(q.url@) == text::opt_text(url) && Some(
            q.api_key@,
        ) == text::opt_text(config.api_key) && q.model@ == config.model@ && (q.max_tokens == 500
            <==> purpose == ChatPurpose::Summary) && q.max_tokens >= 200,
        answer_of(Some(Some(content)), unread) == Ok::<Seq<char>, Seq<char>>(text::trimmed(content)),
        answer_of(Some(None), unread) is Err,
        answer_of(None, unread) matches Err(e) && text::has_suffix(e, unread),
{
    text::what_it_means_to_hold_a_text("Parse error: "@, unread, Seq::empty());
}

} // verus!
