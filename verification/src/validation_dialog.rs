//! The dialog for the rules on what cells can hold, and the ranges that are
//! left out of them.

use vstd::prelude::*;

use crate::document::{CellRange, ValidationSpec};
use crate::dropdown::DropdownCloseReason;
use crate::failures;
use crate::failures::CellVerdict;
use crate::fitting::CellSpan;
use crate::focus;
use crate::state::{FileState, Mode, Spreadsheet, ViewState};
use crate::text;

verus! {

#[derive(Debug, Clone, Copy, PartialEq, Eq, Structural)]
pub enum ValidationTypeOption {
    AnyValue,
    List,
    WholeNumber,
    Decimal,
}

#[derive(Debug, Clone, Copy, PartialEq, Eq, Structural)]
pub enum NumericOperatorOption {
    Between,
    NotBetween,
    EqualTo,
    NotEqualTo,
    GreaterThan,
    LessThan,
    GreaterThanOrEqual,
    LessThanOrEqual,
}

impl NumericOperatorOption {
    pub open spec fn two_values(self) -> bool {
        self == NumericOperatorOption::Between || self == NumericOperatorOption::NotBetween
    }

    pub fn needs_two_values(&self) -> (r: bool)
        ensures
            r == self.two_values(),
    {
        *self == NumericOperatorOption::Between || *self == NumericOperatorOption::NotBetween
    }
}

#[derive(Debug, Clone, Copy, PartialEq, Eq, Structural)]
pub enum ValidationDialogFocus {
    TypeDropdown,
    OperatorDropdown,
    Source,
    Value1,
    Value2,
}

/// The dialog.
#[derive(Debug, PartialEq, Eq)]
pub struct ValidationDialog {
    pub validation_type: ValidationTypeOption,
    pub list_source: String,
    pub show_dropdown: bool,
    pub numeric_operator: NumericOperatorOption,
    pub value1: String,
    pub value2: String,
    pub ignore_blank: bool,
    pub target_range: Option<CellSpan>,
    pub error: Option<String>,
    pub focus: ValidationDialogFocus,
    pub type_dropdown_open: bool,
    pub operator_dropdown_open: bool,
}

/// Where the items of a list come from.
#[derive(Debug, PartialEq, Eq)]
pub enum ListSource {
    Range(String),
    NamedRange(String),
    Inline(Vec<String>),
}

/// A bound of a rule on numbers. A number is kept as the text that stands for
/// it.
#[derive(Debug, PartialEq, Eq)]
pub enum ConstraintValue {
    Number(String),
    CellRef(String),
    Formula(String),
}

#[derive(Debug, PartialEq, Eq)]
pub struct NumericConstraint {
    pub operator: NumericOperatorOption,
    pub value1: ConstraintValue,
    pub value2: Option<ConstraintValue>,
}

#[derive(Debug, PartialEq, Eq)]
pub enum RuleKind {
    List { source: ListSource, show_dropdown: bool },
    WholeNumber(NumericConstraint),
    Decimal(NumericConstraint),
}

/// A rule on what cells can hold.
#[derive(Debug, PartialEq, Eq)]
pub struct ValidationRule {
    pub kind: RuleKind,
    pub ignore_blank: bool,
}

/// What the dialog asks for.
#[derive(Debug, PartialEq, Eq)]
pub enum ValidationStep {
    /// Nothing: the dialog is closed.
    Closed,
    /// Nothing: the dialog says what is wrong.
    Refused,
    /// Take the rules off a range. What is recorded to undo it are the rules
    /// that reach into the range; where there are none, nothing is recorded.
    Clear { range: CellSpan, cleared: Option<Vec<ValidationSpec>> },
    /// Put a rule on a range, in place of those that reach into it, which are
    /// recorded with the rule to undo it.
    Put { range: CellSpan, rule: ValidationRule, previous: Vec<ValidationSpec> },
}

/// Two ranges have a cell in common.
pub open spec fn overlaps(r: CellRange, s: CellSpan) -> bool {
    &&& r.start_row <= s.max_row && s.min_row <= r.end_row
    &&& r.start_col <= s.max_col && s.min_col <= r.end_col
}

/// The rules that reach into a range, in their order.
pub open spec fn rules_in(rules: Seq<ValidationSpec>, s: CellSpan) -> Seq<ValidationSpec>
    decreases rules.len(),
{
    if rules.len() == 0 {
        Seq::empty()
    } else {
        let rest = rules_in(rules.drop_last(), s);
        if overlaps(rules.last().range, s) {
            rest.push(rules.last())
        } else {
            rest
        }
    }
}

/// What is recorded when rules are taken off a range.
pub open spec fn clear_recorded(
    cleared: Option<Vec<ValidationSpec>>,
    rules: Seq<ValidationSpec>,
    s: CellSpan,
) -> bool {
    match cleared {
        Some(v) => v@ == rules_in(rules, s) && v@.len() > 0,
        None => rules_in(rules, s).len() == 0,
    }
}

/// The step takes the rules off a range, and says what is recorded.
pub open spec fn clears(step: ValidationStep, rules: Seq<ValidationSpec>, s: CellSpan) -> bool {
    step matches ValidationStep::Clear { range, cleared } && range == s && clear_recorded(
        cleared,
        rules,
        s,
    )
}

/// The rules that reach into a range.
pub fn overlapping_rules(rules: &Vec<ValidationSpec>, s: &CellSpan) -> (v: Vec<ValidationSpec>)
    ensures
        v@ == rules_in(rules@, *s),
{
    let mut v: Vec<ValidationSpec> = Vec::new();
    let mut i: usize = 0;
    assert(rules@.take(0) =~= Seq::empty());
    while i < rules.len()
        invariant
            i <= rules@.len(),
            v@ == rules_in(rules@.take(i as int), *s),
        decreases rules@.len() - i,
    {
        assert(rules@.take(i + 1).drop_last() =~= rules@.take(i as int));
        assert(rules@.take(i + 1).last() == rules@[i as int]);
        let r = rules[i].range;
        if r.start_row <= s.max_row && s.min_row <= r.end_row && r.start_col <= s.max_col
            && s.min_col <= r.end_col {
            v.push(ValidationSpec { range: r, rule: rules[i].rule.clone() });
        }
        i = i + 1;
    }
    assert(rules@.take(rules@.len() as int) =~= rules@);
    v
}

fn clear_step(rules: &Vec<ValidationSpec>, s: CellSpan) -> (step: ValidationStep)
    ensures
        clears(step, rules@, s),
{
    let v = overlapping_rules(rules, &s);
    let cleared = if v.len() == 0 {
        None
    } else {
        Some(v)
    };
    ValidationStep::Clear { range: s, cleared }
}

/// The dialog before anything was entered.
pub open spec fn no_dialog(d: ValidationDialog) -> bool {
    &&& d.validation_type == ValidationTypeOption::AnyValue
    &&& d.list_source@.len() == 0 && d.show_dropdown
    &&& d.numeric_operator == NumericOperatorOption::Between
    &&& d.value1@.len() == 0 && d.value2@.len() == 0 && d.ignore_blank
    &&& d.target_range is None && d.error is None
    &&& d.focus == ValidationDialogFocus::TypeDropdown
    &&& !d.type_dropdown_open && !d.operator_dropdown_open
}

impl ValidationDialog {
    pub fn new() -> (d: ValidationDialog)
        ensures
            no_dialog(d),
    {
        ValidationDialog {
            validation_type: ValidationTypeOption::AnyValue,
            list_source: String::new(),
            show_dropdown: true,
            numeric_operator: NumericOperatorOption::Between,
            value1: String::new(),
            value2: String::new(),
            ignore_blank: true,
            target_range: None,
            error: None,
            focus: ValidationDialogFocus::TypeDropdown,
            type_dropdown_open: false,
            operator_dropdown_open: false,
        }
    }
}

// ---------------------------------------------------------------------------
// Ranges
// ---------------------------------------------------------------------------

pub open spec fn smaller(a: usize, b: usize) -> usize {
    if a <= b {
        a
    } else {
        b
    }
}

pub open spec fn greater(a: usize, b: usize) -> usize {
    if a <= b {
        b
    } else {
        a
    }
}

/// The selected range.
pub open spec fn selected_span(v: ViewState) -> CellSpan {
    match v.selection_end {
        Some(e) => CellSpan {
            min_row: smaller(v.selected.0, e.0),
            min_col: smaller(v.selected.1, e.1),
            max_row: greater(v.selected.0, e.0),
            max_col: greater(v.selected.1, e.1),
        },
        None => failures::single(v.selected.0, v.selected.1),
    }
}

/// The number of cells in a range.
pub open spec fn cells_in(s: CellSpan) -> int {
    (s.max_row - s.min_row + 1) * (s.max_col - s.min_col + 1)
}

/// The corners of a range are in order, and its cells can be counted.
pub open spec fn countable(s: CellSpan) -> bool {
    s.min_row <= s.max_row && s.min_col <= s.max_col && cells_in(s) <= u64::MAX
}

fn cell_count(s: &CellSpan) -> (n: u64)
    requires
        countable(*s),
    ensures
        n == cells_in(*s),
{
    let rows: u128 = (s.max_row - s.min_row) as u128 + 1;
    let cols: u128 = (s.max_col - s.min_col) as u128 + 1;
    assert(rows * cols == cells_in(*s));
    let n: u128 = rows * cols;
    n as u64
}

/// `N cell` or `N cells`.
pub open spec fn cells_text(n: int) -> Seq<char> {
    text::dec(n as nat) + " cell"@ + if n == 1 {
        ""@
    } else {
        "s"@
    }
}

fn cells_string(n: u64) -> (r: String)
    ensures
        r@ == cells_text(n as int),
{
    let d = text::decimal(n);
    text::cat3(
        d.as_str(),
        " cell",
        if n == 1 {
            ""
        } else {
            "s"
        },
    )
}

impl Spreadsheet {
    /// The selected range.
    pub fn selection_range(&self) -> (s: CellSpan)
        ensures
            s == selected_span(self.view),
    {
        let (row, col) = self.view.selected;
        match self.view.selection_end {
            Some((end_row, end_col)) => {
                let (min_row, max_row) = if row <= end_row {
                    (row, end_row)
                } else {
                    (end_row, row)
                };
                let (min_col, max_col) = if col <= end_col {
                    (col, end_col)
                } else {
                    (end_col, col)
                };
                CellSpan { min_row, min_col, max_row, max_col }
            },
            None => CellSpan { min_row: row, min_col: col, max_row: row, max_col: col },
        }
    }
}

// ---------------------------------------------------------------------------
// Reading the fields
// ---------------------------------------------------------------------------

pub open spec fn is_alphabetic(c: char) -> bool {
    'a' <= c <= 'z' || 'A' <= c <= 'Z'
}

pub open spec fn is_alphanumeric(c: char) -> bool {
    is_alphabetic(c) || '0' <= c <= '9'
}

fn alphabetic(c: char) -> (r: bool)
    ensures
        r == is_alphabetic(c),
{
    ('a' <= c && c <= 'z') || ('A' <= c && c <= 'Z')
}

fn has_char(v: &Vec<char>, c: char) -> (r: bool)
    ensures
        r == v@.contains(c),
{
    let mut i: usize = 0;
    while i < v.len()
        invariant
            i <= v@.len(),
            forall|k: int| 0 <= k < i ==> v@[k] != c,
        decreases v@.len() - i,
    {
        if v[i] == c {
            assert(v@[i as int] == c);
            return true;
        }
        i = i + 1;
    }
    false
}

/// The text looks like a reference to a range.
pub open spec fn looks_like_range(s: Seq<char>) -> bool {
    s.contains('!') || (s.len() > 0 && is_alphabetic(s[0]) && s.contains(':'))
}

/// The text looks like the name of a range.
pub open spec fn looks_like_name(s: Seq<char>) -> bool {
    s.len() > 0 && (is_alphabetic(s[0]) || s[0] == '_') && !s.contains(',')
}

/// The items of a list that is written out.
pub open spec fn list_items(s: Seq<char>) -> Seq<Seq<char>> {
    text::split(s, ',').map_values(|p: Seq<char>| text::trimmed(p))
}

/// All items are empty.
pub open spec fn all_empty(items: Seq<Seq<char>>) -> bool {
    forall|i: int| 0 <= i < items.len() ==> (#[trigger] items[i]).len() == 0
}

/// What a source text stands for.
pub open spec fn source_reads(l: ListSource, s: Seq<char>) -> bool {
    match l {
        ListSource::Range(t) => looks_like_range(s) && t@ == s,
        ListSource::NamedRange(t) => !looks_like_range(s) && looks_like_name(s) && t@ == s,
        ListSource::Inline(items) => !looks_like_range(s) && !looks_like_name(s) && text::texts(
            items@,
        ) == list_items(s),
    }
}

/// The text looks like a reference to a cell.
pub open spec fn looks_like_cell(s: Seq<char>) -> bool {
    &&& s.len() > 0 && is_alphabetic(s[0])
    &&& forall|i: int|
        0 <= i < s.len() ==> is_alphanumeric(#[trigger] s[i]) || s[i] == '$' || s[i] == '!' || s[i]
            == ':'
}

/// What a bound stands for.
pub open spec fn value_reads(v: ConstraintValue, s: Seq<char>) -> bool {
    match v {
        ConstraintValue::Number(t) => text::is_number_text(s) && t@ == s,
        ConstraintValue::CellRef(t) => !text::is_number_text(s) && looks_like_cell(s) && t@ == s,
        ConstraintValue::Formula(t) => !text::is_number_text(s) && !looks_like_cell(s) && t@ == s,
    }
}

/// What is wrong with the fields, if anything.
pub open spec fn dialog_error(d: ValidationDialog) -> Option<Seq<char>> {
    match d.validation_type {
        ValidationTypeOption::AnyValue => None,
        ValidationTypeOption::List => {
            let s = text::trimmed(d.list_source@);
            if s.len() == 0 {
                Some("List source is required"@)
            } else if !looks_like_range(s) && !looks_like_name(s) && all_empty(list_items(s)) {
                Some("At least one list item is required"@)
            } else {
                None
            }
        },
        _ => if text::trimmed(d.value1@).len() == 0 {
            Some("Value is required"@)
        } else if d.numeric_operator.two_values() && text::trimmed(d.value2@).len() == 0 {
            Some("Maximum value is required"@)
        } else {
            None
        },
    }
}

/// The bounds that the fields stand for.
pub open spec fn constraint_reads(c: NumericConstraint, d: ValidationDialog) -> bool {
    &&& c.operator == d.numeric_operator
    &&& value_reads(c.value1, text::trimmed(d.value1@))
    &&& if d.numeric_operator.two_values() {
        c.value2 is Some && value_reads(c.value2->0, text::trimmed(d.value2@))
    } else {
        c.value2 is None
    }
}

/// The rule that the fields stand for.
pub open spec fn rule_reads(r: ValidationRule, d: ValidationDialog) -> bool {
    &&& r.ignore_blank == d.ignore_blank
    &&& match r.kind {
        RuleKind::List { source, show_dropdown } => d.validation_type == ValidationTypeOption::List
            && source_reads(source, text::trimmed(d.list_source@)) && show_dropdown
            == d.show_dropdown,
        RuleKind::WholeNumber(c) => d.validation_type == ValidationTypeOption::WholeNumber
            && constraint_reads(c, d),
        RuleKind::Decimal(c) => d.validation_type == ValidationTypeOption::Decimal
            && constraint_reads(c, d),
    }
}

fn parse_list_source(s: &str) -> (r: Option<ListSource>)
    ensures
        match r {
            Some(l) => source_reads(l, s@) && !(l is Inline && all_empty(list_items(s@))),
            None => !looks_like_range(s@) && !looks_like_name(s@) && all_empty(list_items(s@)),
        },
{
    let v = text::chars_of(s);
    let first_alphabetic = v.len() > 0 && alphabetic(v[0]);
    if has_char(&v, '!') || (first_alphabetic && has_char(&v, ':')) {
        return Some(ListSource::Range(text::lit(s)));
    }
    if v.len() > 0 && (first_alphabetic || v[0] == '_') && !has_char(&v, ',') {
        return Some(ListSource::NamedRange(text::lit(s)));
    }
    let parts = text::split_at(s, ',');
    let mut items: Vec<String> = Vec::new();
    let mut empty = true;
    let mut i: usize = 0;
    while i < parts.len()
        invariant
            i <= parts@.len(),
            items@.len() == i,
            forall|k: int|
                0 <= k < i ==> (#[trigger] items@[k])@ == text::trimmed(parts@[k]@),
            empty == (forall|k: int| 0 <= k < i ==> (#[trigger] items@[k])@.len() == 0),
        decreases parts@.len() - i,
    {
        let item = text::trim(parts[i].as_str());
        let item_empty = text::str_eq(item.as_str(), "");
        proof {
            reveal_strlit("");
            assert(item_empty == (item@.len() == 0)) by {
                if item@.len() == 0 {
                    assert(item@ =~= ""@);
                }
            }
        }
        let ghost before = items@;
        items.push(item);
        proof {
            assert(items@[i as int]@.len() == item@.len());
            if !empty {
                let k = choose|k: int| 0 <= k < i && (#[trigger] before[k])@.len() != 0;
                assert(items@[k]@.len() != 0);
            }
        }
        empty = empty && item_empty;
        i = i + 1;
    }
    proof {
        assert(text::texts(items@) =~= list_items(s@)) by {
            assert forall|k: int| 0 <= k < items@.len() implies text::texts(items@)[k]
                == list_items(s@)[k] by {
                assert(text::texts(parts@)[k] == parts@[k]@);
                assert(items@[k]@ == text::trimmed(parts@[k]@));
            }
        }
        assert(empty == all_empty(list_items(s@))) by {
            let l = list_items(s@);
            assert forall|k: int| 0 <= k < l.len() implies (#[trigger] l[k]).len()
                == items@[k]@.len() by {
                assert(text::texts(items@)[k] == items@[k]@);
            }
            if !empty {
                let k = choose|k: int| 0 <= k < items@.len() && (#[trigger] items@[k])@.len() != 0;
                assert(l[k].len() != 0);
            }
        }
    }
    if empty {
        None
    } else {
        Some(ListSource::Inline(items))
    }
}

/// What a bound stands for.
pub fn parse_constraint_value(s: &str) -> (v: ConstraintValue)
    ensures
        value_reads(v, s@),
{
    if text::reads_as_number(s) {
        return ConstraintValue::Number(text::lit(s));
    }
    let chars = text::chars_of(s);
    if chars.len() == 0 || !alphabetic(chars[0]) {
        return ConstraintValue::Formula(text::lit(s));
    }
    let mut i: usize = 0;
    while i < chars.len()
        invariant
            i <= chars@.len(),
            chars@ == s@,
            !text::is_number_text(s@),
            forall|k: int|
                0 <= k < i ==> is_alphanumeric(#[trigger] s@[k]) || s@[k] == '$' || s@[k] == '!'
                    || s@[k] == ':',
        decreases chars@.len() - i,
    {
        let c = chars[i];
        if !(alphabetic(c) || ('0' <= c && c <= '9') || c == '$' || c == '!' || c == ':') {
            assert(s@[i as int] == c);
            return ConstraintValue::Formula(text::lit(s));
        }
        i = i + 1;
    }
    ConstraintValue::CellRef(text::lit(s))
}

fn is_empty(s: &String) -> (r: bool)
    ensures
        r == (s@.len() == 0),
{
    proof {
        reveal_strlit("");
        if s@.len() == 0 {
            assert(s@ =~= ""@);
        }
    }
    text::str_eq(s.as_str(), "")
}

impl ValidationDialog {
    fn constraint(&self) -> (r: Result<NumericConstraint, String>)
        requires
            self.validation_type == ValidationTypeOption::WholeNumber || self.validation_type
                == ValidationTypeOption::Decimal,
        ensures
            match r {
                Ok(c) => dialog_error(*self) is None && constraint_reads(c, *self),
                Err(e) => dialog_error(*self) == Some(e@),
            },
    {
        let v1 = text::trim(self.value1.as_str());
        if is_empty(&v1) {
            return Err(text::lit("Value is required"));
        }
        let value1 = parse_constraint_value(v1.as_str());
        let value2 = if self.numeric_operator.needs_two_values() {
            let v2 = text::trim(self.value2.as_str());
            if is_empty(&v2) {
                return Err(text::lit("Maximum value is required"));
            }
            Some(parse_constraint_value(v2.as_str()))
        } else {
            None
        };
        Ok(NumericConstraint { operator: self.numeric_operator, value1, value2 })
    }

    /// The rule that the fields stand for.
    pub fn rule(&self) -> (r: Result<ValidationRule, String>)
        requires
            self.validation_type != ValidationTypeOption::AnyValue,
        ensures
            match r {
                Ok(x) => dialog_error(*self) is None && rule_reads(x, *self),
                Err(e) => dialog_error(*self) == Some(e@),
            },
    {
        if self.validation_type == ValidationTypeOption::List {
            let source = text::trim(self.list_source.as_str());
            if is_empty(&source) {
                return Err(text::lit("List source is required"));
            }
            return match parse_list_source(source.as_str()) {
                Some(l) => Ok(
                    ValidationRule {
                        kind: RuleKind::List { source: l, show_dropdown: self.show_dropdown },
                        ignore_blank: self.ignore_blank,
                    },
                ),
                None => Err(text::lit("At least one list item is required")),
            };
        }
        match self.constraint() {
            Err(e) => Err(e),
            Ok(c) => Ok(
                ValidationRule {
                    kind: if self.validation_type == ValidationTypeOption::WholeNumber {
                        RuleKind::WholeNumber(c)
                    } else {
                        RuleKind::Decimal(c)
                    },
                    ignore_blank: self.ignore_blank,
                },
            ),
        }
    }
}

// ---------------------------------------------------------------------------
// A rule in a few words
// ---------------------------------------------------------------------------

/// A rule on numbers in a few words.
pub open spec fn constraint_text(op: NumericOperatorOption, v1: Seq<char>, v2: Seq<char>) -> Seq<char> {
    match op {
        NumericOperatorOption::Between => "Between "@ + v1 + " and "@ + v2,
        NumericOperatorOption::NotBetween => "Not between "@ + v1 + " and "@ + v2,
        NumericOperatorOption::EqualTo => "= "@ + v1,
        NumericOperatorOption::NotEqualTo => "≠ "@ + v1,
        NumericOperatorOption::GreaterThan => "> "@ + v1,
        NumericOperatorOption::LessThan => "< "@ + v1,
        NumericOperatorOption::GreaterThanOrEqual => ">= "@ + v1,
        NumericOperatorOption::LessThanOrEqual => "<= "@ + v1,
    }
}

/// A rule in a few words. A long source is cut after 27 bytes.
pub open spec fn summary_text(d: ValidationDialog) -> Seq<char> {
    match d.validation_type {
        ValidationTypeOption::AnyValue => "Any Value"@,
        ValidationTypeOption::List => {
            let s = text::trimmed(d.list_source@);
            if text::utf8_len(s) > 30 {
                "List("@ + text::byte_prefix(s, 27) + "...)"@
            } else {
                "List("@ + s + ")"@
            }
        },
        ValidationTypeOption::WholeNumber => "Whole Number"@ + " ("@ + constraint_text(
            d.numeric_operator,
            d.value1@,
            d.value2@,
        ) + ")"@,
        ValidationTypeOption::Decimal => "Decimal"@ + " ("@ + constraint_text(
            d.numeric_operator,
            d.value1@,
            d.value2@,
        ) + ")"@,
    }
}

/// Where the source of a list is cut there is no character in the way.
pub open spec fn summary_cuts(d: ValidationDialog) -> bool {
    let s = text::trimmed(d.list_source@);
    d.validation_type == ValidationTypeOption::List && text::utf8_len(s) > 30
        ==> text::has_boundary(s, 27)
}

fn constraint_string(op: NumericOperatorOption, v1: &str, v2: &str) -> (r: String)
    ensures
        r@ == constraint_text(op, v1@, v2@),
{
    match op {
        NumericOperatorOption::Between => {
            let mut m = text::cat3("Between ", v1, " and ");
            m.append(v2);
            m
        },
        NumericOperatorOption::NotBetween => {
            let mut m = text::cat3("Not between ", v1, " and ");
            m.append(v2);
            m
        },
        NumericOperatorOption::EqualTo => text::cat("= ", v1),
        NumericOperatorOption::NotEqualTo => text::cat("≠ ", v1),
        NumericOperatorOption::GreaterThan => text::cat("> ", v1),
        NumericOperatorOption::LessThan => text::cat("< ", v1),
        NumericOperatorOption::GreaterThanOrEqual => text::cat(">= ", v1),
        NumericOperatorOption::LessThanOrEqual => text::cat("<= ", v1),
    }
}

impl ValidationDialog {
    /// A rule in a few words.
    pub fn compact_rule_summary(&self) -> (r: String)
        requires
            summary_cuts(*self),
        ensures
            r@ == summary_text(*self),
    {
        let name = match self.validation_type {
            ValidationTypeOption::AnyValue => {
                return text::lit("Any Value");
            },
            ValidationTypeOption::List => {
                let s = text::trim(self.list_source.as_str());
                return if text::longer_than(s.as_str(), 30) {
                    let cut = text::cut_bytes(s.as_str(), 27);
                    text::cat3("List(", cut.as_str(), "...)")
                } else {
                    text::cat3("List(", s.as_str(), ")")
                };
            },
            ValidationTypeOption::WholeNumber => "Whole Number",
            ValidationTypeOption::Decimal => "Decimal",
        };
        let c = constraint_string(
            self.numeric_operator,
            self.value1.as_str(),
            self.value2.as_str(),
        );
        let mut m = text::cat3(name, " (", c.as_str());
        m.append(")");
        m
    }
}

// ---------------------------------------------------------------------------
// The dialog in the window
// ---------------------------------------------------------------------------

/// The dialog is closed.
pub open spec fn dialog_closed(old: Spreadsheet, new: Spreadsheet) -> bool {
    &&& new == (Spreadsheet { mode: Mode::Navigation, validation: new.validation, ..old })
    &&& no_dialog(new.validation)
}

/// What is said after rules were taken off.
pub open spec fn cleared_text(s: CellSpan) -> Seq<char> {
    "Cleared validation from "@ + cells_text(cells_in(s))
}

/// The rules are off a range, and the dialog is closed.
pub open spec fn validation_cleared(old: Spreadsheet, new: Spreadsheet, s: CellSpan) -> bool {
    &&& new == (Spreadsheet {
        mode: Mode::Navigation,
        validation: new.validation,
        failures: new.failures,
        status_message: new.status_message,
        cells_rev: crate::state::bumped(old.cells_rev),
        file: FileState { is_modified: true, ..old.file },
        ..old
    })
    &&& no_dialog(new.validation)
    &&& failures::failures_cleared(old.failures, new.failures, s)
    &&& text::opt_text(new.status_message) == Some(cleared_text(s))
}

impl Spreadsheet {
    /// Open the dialog for the selected range. `existing` are the fields as the
    /// rule of the selected cell fills them, if it has one.
    pub fn show_validation_dialog(&mut self, existing: Option<ValidationDialog>)
        ensures
            *final(self) == (Spreadsheet {
                mode: Mode::ValidationDialog,
                lua_console_visible: false,
                dropdown: None,
                validation: final(self).validation,
                ..*old(self)
            }),
            final(self).validation.target_range == Some(selected_span(old(self).view)),
            match existing {
                Some(d) => final(self).validation == (ValidationDialog {
                    target_range: final(self).validation.target_range,
                    ..d
                }),
                None => no_dialog(
                    (ValidationDialog { target_range: None, ..final(self).validation }),
                ),
            },
    {
        self.close_validation_dropdown(DropdownCloseReason::ModalOpened);
        self.lua_console_visible = false;
        let mut d = match existing {
            Some(d) => d,
            None => ValidationDialog::new(),
        };
        d.target_range = Some(self.selection_range());
        self.validation = d;
        self.mode = Mode::ValidationDialog;
    }

    /// Close the dialog.
    pub fn hide_validation_dialog(&mut self)
        ensures
            dialog_closed(*old(self), *final(self)),
    {
        self.mode = Mode::Navigation;
        self.validation = ValidationDialog::new();
    }

    /// Take the rules off a range, and close the dialog.
    fn clear_validation_in(&mut self, s: &CellSpan)
        requires
            old(self).failures.wf(),
            countable(*s),
        ensures
            validation_cleared(*old(self), *final(self), *s),
    {
        self.bump_cells_rev();
        self.clear_failures_in(s);
        let c = cells_string(cell_count(s));
        self.say_with("Cleared validation from ", c.as_str());
        self.file.is_modified = true;
        self.hide_validation_dialog();
    }

    /// The dialog was confirmed. "Any value" takes the rules off the range; any
    /// other choice puts a rule on it, which is finished by
    /// [`Spreadsheet::validation_applied`]. `rules` are the rules of the sheet.
    pub fn apply_validation_dialog(&mut self, rules: &Vec<ValidationSpec>) -> (step: ValidationStep)
        requires
            old(self).failures.wf(),
            old(self).validation.target_range matches Some(s) ==> countable(s),
        ensures
            ({
                let d = old(self).validation;
                if d.validation_type == ValidationTypeOption::AnyValue {
                    match d.target_range {
                        Some(s) => clears(step, rules@, s) && validation_cleared(
                            *old(self),
                            *final(self),
                            s,
                        ),
                        None => step == ValidationStep::Closed && dialog_closed(
                            *old(self),
                            *final(self),
                        ),
                    }
                } else {
                    match dialog_error(d) {
                        Some(e) => {
                            &&& step == ValidationStep::Refused
                            &&& *final(self) == (Spreadsheet {
                                validation: ValidationDialog {
                                    error: final(self).validation.error,
                                    ..d
                                },
                                ..*old(self)
                            })
                            &&& text::opt_text(final(self).validation.error) == Some(e)
                        },
                        None => match d.target_range {
                            Some(s) => {
                                &&& step matches ValidationStep::Put { range, rule, previous }
                                    && range == s && rule_reads(rule, d) && previous@ == rules_in(
                                    rules@,
                                    s,
                                )
                                &&& *final(self) == (Spreadsheet {
                                    cells_rev: crate::state::bumped(old(self).cells_rev),
                                    ..*old(self)
                                })
                            },
                            None => step == ValidationStep::Closed && dialog_closed(
                                *old(self),
                                *final(self),
                            ),
                        },
                    }
                }
            }),
    {
        let range = self.validation.target_range;
        if self.validation.validation_type == ValidationTypeOption::AnyValue {
            return match range {
                Some(s) => {
                    self.clear_validation_in(&s);
                    clear_step(rules, s)
                },
                None => {
                    self.hide_validation_dialog();
                    ValidationStep::Closed
                },
            };
        }
        let rule = match self.validation.rule() {
            Ok(r) => r,
            Err(e) => {
                self.validation.error = Some(e);
                return ValidationStep::Refused;
            },
        };
        match range {
            Some(s) => {
                self.bump_cells_rev();
                ValidationStep::Put { range: s, rule, previous: overlapping_rules(rules, &s) }
            },
            None => {
                self.hide_validation_dialog();
                ValidationStep::Closed
            },
        }
    }

    /// The rule of the dialog is on its range: `cells` are what the rules say
    /// of the cells there.
    pub fn validation_applied(&mut self, cells: &Vec<CellVerdict>)
        requires
            old(self).failures.wf(),
            old(self).validation.target_range matches Some(s) ==> countable(s),
            summary_cuts(old(self).validation),
        ensures
            match old(self).validation.target_range {
                None => dialog_closed(*old(self), *final(self)),
                Some(s) => {
                    let d = old(self).validation;
                    let invalid = failures::failures_among(cells@).len();
                    let said = "Applied "@ + summary_text(d) + " to "@ + cells_text(cells_in(s));
                    &&& *final(self) == (Spreadsheet {
                        mode: Mode::Navigation,
                        validation: final(self).validation,
                        failures: final(self).failures,
                        status_message: final(self).status_message,
                        file: FileState { is_modified: true, ..old(self).file },
                        ..*old(self)
                    })
                    &&& no_dialog(final(self).validation)
                    &&& failures::failures_judged(old(self).failures, final(self).failures, cells@)
                    &&& text::opt_text(final(self).status_message) == Some(
                        if invalid > 0 {
                            said + ". "@ + text::dec(invalid) + " invalid — press F8 to jump"@
                        } else {
                            said
                        },
                    )
                },
            },
    {
        match self.validation.target_range {
            None => {},
            Some(s) => {
                let invalid = self.validate_and_mark_range(cells);
                let summary = self.validation.compact_rule_summary();
                let c = cells_string(cell_count(&s));
                let mut m = text::cat3("Applied ", summary.as_str(), " to ");
                m.append(c.as_str());
                if invalid > 0 {
                    m.append(". ");
                    let n = text::decimal(invalid as u64);
                    m.append(n.as_str());
                    m.append(" invalid — press F8 to jump");
                }
                self.say(m.as_str());
                self.file.is_modified = true;
            },
        }
        self.hide_validation_dialog();
    }

    /// Take the rules off the range of the dialog. `rules` are the rules of the
    /// sheet.
    pub fn clear_validation_dialog(&mut self, rules: &Vec<ValidationSpec>) -> (step: ValidationStep)
        requires
            old(self).failures.wf(),
            old(self).validation.target_range matches Some(s) ==> countable(s),
        ensures
            match old(self).validation.target_range {
                Some(s) => clears(step, rules@, s) && validation_cleared(
                    *old(self),
                    *final(self),
                    s,
                ),
                None => step == ValidationStep::Closed && dialog_closed(*old(self), *final(self)),
            },
    {
        match self.validation.target_range {
            Some(s) => {
                self.clear_validation_in(&s);
                clear_step(rules, s)
            },
            None => {
                self.hide_validation_dialog();
                ValidationStep::Closed
            },
        }
    }

    // -----------------------------------------------------------------------
    // Ranges that are left out
    // -----------------------------------------------------------------------

    /// Leave the selected range out of the rules: the result is that range.
    pub fn exclude_from_validation(&mut self) -> (s: CellSpan)
        requires
            old(self).failures.wf(),
            countable(selected_span(old(self).view)),
        ensures
            s == selected_span(old(self).view),
            *final(self) == (Spreadsheet {
                failures: final(self).failures,
                status_message: final(self).status_message,
                cells_rev: crate::state::bumped(old(self).cells_rev),
                file: FileState { is_modified: true, ..old(self).file },
                ..*old(self)
            }),
            failures::failures_cleared(old(self).failures, final(self).failures, s),
            text::opt_text(final(self).status_message) == Some(
                "Excluded "@ + cells_text(cells_in(s)) + " from validation"@,
            ),
    {
        let s = self.selection_range();
        self.bump_cells_rev();
        self.clear_failures_in(&s);
        let c = cells_string(cell_count(&s));
        let m = text::cat3("Excluded ", c.as_str(), " from validation");
        self.say(m.as_str());
        self.file.is_modified = true;
        s
    }

    /// Put the selected range under the rules again. `found` are the ranges in
    /// it that were left out, and `cells` are what the rules say of its cells
    /// without them. The result is what is recorded to undo it: the range and
    /// what was left out there. There is none where nothing was.
    pub fn clear_validation_exclusions(&mut self, found: Vec<CellRange>, cells: &Vec<CellVerdict>) -> (undo:
        Option<(CellSpan, Vec<CellRange>)>)
        requires
            old(self).failures.wf(),
            countable(selected_span(old(self).view)),
        ensures
            undo == if found@.len() == 0 {
                None
            } else {
                Some((selected_span(old(self).view), found))
            },
            if found@.len() == 0 {
                crate::hub::only_says(
                    *old(self),
                    *final(self),
                    "No exclusions to clear in selection"@,
                )
            } else {
                let s = selected_span(old(self).view);
                let invalid = failures::failures_among(cells@).len();
                let said = "Cleared exclusions from "@ + cells_text(cells_in(s));
                &&& *final(self) == (Spreadsheet {
                    failures: final(self).failures,
                    status_message: final(self).status_message,
                    cells_rev: crate::state::bumped(old(self).cells_rev),
                    file: FileState { is_modified: true, ..old(self).file },
                    ..*old(self)
                })
                &&& failures::failures_judged(old(self).failures, final(self).failures, cells@)
                &&& text::opt_text(final(self).status_message) == Some(
                    if invalid > 0 {
                        said + ". "@ + text::dec(invalid) + " now invalid — press F8 to jump"@
                    } else {
                        said
                    },
                )
            },
    {
        if found.len() == 0 {
            self.say("No exclusions to clear in selection");
            return None;
        }
        let s = self.selection_range();
        self.bump_cells_rev();
        let invalid = self.validate_and_mark_range(cells);
        let c = cells_string(cell_count(&s));
        let mut m = text::cat("Cleared exclusions from ", c.as_str());
        if invalid > 0 {
            m.append(". ");
            let n = text::decimal(invalid as u64);
            m.append(n.as_str());
            m.append(" now invalid — press F8 to jump");
        }
        self.say(m.as_str());
        self.file.is_modified = true;
        Some((s, found))
    }

    // -----------------------------------------------------------------------
    // Typing
    // -----------------------------------------------------------------------

    /// A character was typed.
    pub fn validation_dialog_type_char(&mut self, c: char)
        ensures
            *final(self) == (Spreadsheet { validation: final(self).validation, ..*old(self) }),
            field_edited(old(self).validation, final(self).validation, |s: Seq<char>| s.push(c)),
    {
        match self.validation.focus {
            ValidationDialogFocus::Source => {
                self.validation.list_source.push(c);
                self.validation.error = None;
            },
            ValidationDialogFocus::Value1 => {
                self.validation.value1.push(c);
                self.validation.error = None;
            },
            ValidationDialogFocus::Value2 => {
                self.validation.value2.push(c);
                self.validation.error = None;
            },
            _ => {},
        }
    }

    /// The last character is taken back.
    pub fn validation_dialog_backspace(&mut self)
        ensures
            *final(self) == (Spreadsheet { validation: final(self).validation, ..*old(self) }),
            field_edited(
                old(self).validation,
                final(self).validation,
                |s: Seq<char>| text::shortened(s),
            ),
    {
        match self.validation.focus {
            ValidationDialogFocus::Source => {
                self.validation.list_source.pop();
                self.validation.error = None;
            },
            ValidationDialogFocus::Value1 => {
                self.validation.value1.pop();
                self.validation.error = None;
            },
            ValidationDialogFocus::Value2 => {
                self.validation.value2.pop();
                self.validation.error = None;
            },
            _ => {},
        }
    }

    /// Go to the next field of the dialog, or to the previous one.
    pub fn validation_dialog_tab(&mut self, shift: bool)
        ensures
            *final(self) == (Spreadsheet {
                validation: ValidationDialog {
                    focus: focus::field_after(
                        dialog_fields(old(self).validation),
                        old(self).validation.focus,
                        shift,
                    ),
                    type_dropdown_open: false,
                    operator_dropdown_open: false,
                    ..old(self).validation
                },
                ..*old(self)
            }),
    {
        self.validation.type_dropdown_open = false;
        self.validation.operator_dropdown_open = false;
        let fields = self.validation.fields();
        let at = focus_place(&fields, self.validation.focus);
        let next = focus::step(fields.len(), at, shift);
        self.validation.focus = fields[next];
    }
}

/// The field that has the focus is edited, and what was wrong is forgotten.
pub open spec fn field_edited(
    old: ValidationDialog,
    new: ValidationDialog,
    edit: spec_fn(Seq<char>) -> Seq<char>,
) -> bool {
    match old.focus {
        ValidationDialogFocus::Source => new == (ValidationDialog {
            list_source: new.list_source,
            error: None,
            ..old
        }) && new.list_source@ == edit(old.list_source@),
        ValidationDialogFocus::Value1 => new == (ValidationDialog {
            value1: new.value1,
            error: None,
            ..old
        }) && new.value1@ == edit(old.value1@),
        ValidationDialogFocus::Value2 => new == (ValidationDialog {
            value2: new.value2,
            error: None,
            ..old
        }) && new.value2@ == edit(old.value2@),
        _ => new == old,
    }
}

/// The fields that the choice of a kind of rule leaves.
pub open spec fn dialog_fields(d: ValidationDialog) -> Seq<ValidationDialogFocus> {
    match d.validation_type {
        ValidationTypeOption::AnyValue => seq![ValidationDialogFocus::TypeDropdown],
        ValidationTypeOption::List => seq![
            ValidationDialogFocus::TypeDropdown,
            ValidationDialogFocus::Source,
        ],
        _ => if d.numeric_operator.two_values() {
            seq![
                ValidationDialogFocus::TypeDropdown,
                ValidationDialogFocus::OperatorDropdown,
                ValidationDialogFocus::Value1,
                ValidationDialogFocus::Value2,
            ]
        } else {
            seq![
                ValidationDialogFocus::TypeDropdown,
                ValidationDialogFocus::OperatorDropdown,
                ValidationDialogFocus::Value1,
            ]
        },
    }
}

impl ValidationDialog {
    fn fields(&self) -> (fields: Vec<ValidationDialogFocus>)
        ensures
            fields@ == dialog_fields(*self),
            fields@.len() > 0,
    {
        let mut fields: Vec<ValidationDialogFocus> = Vec::new();
        fields.push(ValidationDialogFocus::TypeDropdown);
        match self.validation_type {
            ValidationTypeOption::AnyValue => {},
            ValidationTypeOption::List => {
                fields.push(ValidationDialogFocus::Source);
            },
            _ => {
                fields.push(ValidationDialogFocus::OperatorDropdown);
                fields.push(ValidationDialogFocus::Value1);
                if self.numeric_operator.needs_two_values() {
                    fields.push(ValidationDialogFocus::Value2);
                }
            },
        }
        assert(fields@ =~= dialog_fields(*self));
        fields
    }
}

fn focus_place(fields: &Vec<ValidationDialogFocus>, f: ValidationDialogFocus) -> (at: usize)
    requires
        fields@.len() > 0,
    ensures
        at == focus::place_of(fields@, f),
        at < fields@.len(),
{
    let mut i: usize = 0;
    while i < fields.len()
        invariant
            i <= fields@.len(),
            forall|k: int| 0 <= k < i ==> fields@[k] != f,
        decreases fields@.len() - i,
    {
        if fields[i] == f {
            proof {
                focus::lemma_place_of(fields@, f, i as int);
            }
            return i;
        }
        i = i + 1;
    }
    proof {
        focus::lemma_place_of(fields@, f, 0);
    }
    0
}

// ---------------------------------------------------------------------------
// Laws
// ---------------------------------------------------------------------------

/// The text is two references of letters and digits with a colon between them.
pub open spec fn is_area_text(s: Seq<char>, colon: int) -> bool {
    &&& 0 < colon < s.len() - 1
    &&& s[colon] == ':'
    &&& is_alphabetic(s[0])
    &&& forall|i: int| 0 <= i < s.len() && i != colon ==> is_alphanumeric(#[trigger] s[i])
}

/// A source that names cells is a range: one such as `A1:A10`, and any with an
/// exclamation mark. It is kept as it was entered. A name of a range holds
/// neither, and no comma; and where a source is none of these, its items are
/// written out.
pub proof fn a_source_that_names_cells_is_a_range(l: ListSource, s: Seq<char>, colon: int)
    requires
        source_reads(l, s),
    ensures
        is_area_text(s, colon) ==> (l matches ListSource::Range(t) && t@ == s),
        s.contains('!') ==> (l matches ListSource::Range(t) && t@ == s),
        l matches ListSource::Range(t) ==> t@ == s && (s.contains('!') || s.contains(':')),
        l matches ListSource::NamedRange(t) ==> {
            &&& t@ == s && s.len() > 0
            &&& !s.contains('!') && !s.contains(',')
            &&& is_alphabetic(s[0]) ==> !s.contains(':')
            &&& is_alphabetic(s[0]) || s[0] == '_'
        },
        l is Inline ==> s.len() == 0 || s.contains(',') || !(is_alphabetic(s[0]) || s[0] == '_'),
        s.len() > 0 && (is_alphabetic(s[0]) || s[0] == '_') && (forall|i: int|
            0 <= i < s.len() ==> is_alphanumeric(#[trigger] s[i]) || s[i] == '_')
            ==> (l matches ListSource::NamedRange(t) && t@ == s),
        s.len() > 0 && '0' <= s[0] <= '9' && !s.contains('!') ==> l is Inline,
{
    if is_area_text(s, colon) {
        assert(s[colon] == ':');
        assert(s.contains(':'));
    }
    if s.len() > 0 && (is_alphabetic(s[0]) || s[0] == '_') && (forall|i: int|
        0 <= i < s.len() ==> is_alphanumeric(#[trigger] s[i]) || s[i] == '_') {
        if s.contains('!') {
            let i = choose|i: int| 0 <= i < s.len() && s[i] == '!';
            assert(is_alphanumeric(s[i]) || s[i] == '_');
        }
        if s.contains(':') {
            let i = choose|i: int| 0 <= i < s.len() && s[i] == ':';
            assert(is_alphanumeric(s[i]) || s[i] == '_');
        }
        if s.contains(',') {
            let i = choose|i: int| 0 <= i < s.len() && s[i] == ',';
            assert(is_alphanumeric(s[i]) || s[i] == '_');
        }
    }
}

/// A value is kept as it was entered. Digits are a number, with a sign or a point
/// too; a text that begins with a letter and holds letters, digits and the signs of
/// references, with a digit at its end, names a cell; and a text behind an equals
/// sign, or with blanks or operators in it, is a formula.
pub proof fn how_a_value_reads(v: ConstraintValue, s: Seq<char>)
    requires
        value_reads(v, s),
    ensures
        match v {
            ConstraintValue::Number(t) => t@ == s,
            ConstraintValue::CellRef(t) => t@ == s,
            ConstraintValue::Formula(t) => t@ == s,
        },
        s.len() > 0 && text::all_digits(s) ==> v is Number,
        s.len() > 1 && (s[0] == '-' || s[0] == '+') && text::all_digits(s.skip(1)) ==> v is Number,
        v is Number ==> s.len() > 0 && forall|i: int|
            0 <= i < s.len() ==> text::is_number_char(#[trigger] s[i]),
        v is CellRef ==> s.len() > 0 && is_alphabetic(s[0]),
        s.len() > 0 && s[0] == '=' ==> v is Formula,
        s.contains(' ') || s.contains('(') || s.contains('*') ==> v is Formula,
        s.len() > 1 && is_alphabetic(s[0]) && text::is_digit(s.last()) && (forall|i: int|
            0 <= i < s.len() ==> is_alphanumeric(#[trigger] s[i]) || s[i] == '$' || s[i] == '!')
            ==> v is CellRef,
{
    let none = Seq::<char>::empty();
    if s.len() > 0 && text::all_digits(s) {
        text::what_reads_as_a_number(s, none);
    }
    if s.len() > 1 && (s[0] == '-' || s[0] == '+') && text::all_digits(s.skip(1)) {
        text::what_reads_as_a_number(s.skip(1), none);
        assert(s =~= seq![s[0]] + s.skip(1));
    }
    text::what_reads_as_a_number(none, none);
    if text::is_number_text(s) {
        if s.len() == 0 {
            assert(s =~= none);
        }
        assert forall|i: int| 0 <= i < s.len() implies text::is_number_char(#[trigger] s[i]) by {
            text::what_a_number_holds(s, i);
        }
    }
    if s.len() > 1 && is_alphabetic(s[0]) && text::is_digit(s.last()) {
        text::a_cell_name_is_no_number(s, s.len() - 1);
    }
    if s.contains(' ') {
        let i = choose|i: int| 0 <= i < s.len() && s[i] == ' ';
        assert(!text::is_number_char(s[i]));
    }
    if s.contains('(') {
        let i = choose|i: int| 0 <= i < s.len() && s[i] == '(';
        assert(!text::is_number_char(s[i]));
    }
    if s.contains('*') {
        let i = choose|i: int| 0 <= i < s.len() && s[i] == '*';
        assert(!text::is_number_char(s[i]));
    }
}

/// The text is made of white space.
pub open spec fn is_blank(s: Seq<char>) -> bool {
    forall|i: int| 0 <= i < s.len() ==> text::is_white(#[trigger] s[i])
}

/// A dialog is refused for what is missing in it and for nothing else: a list needs
/// a source that is not blank, with an item in it where the items are written out; a
/// number needs its value, and a second one where the comparison is with a range.
pub proof fn what_a_dialog_needs(d: ValidationDialog)
    ensures
        d.validation_type == ValidationTypeOption::AnyValue ==> dialog_error(d) is None,
        d.validation_type == ValidationTypeOption::List && is_blank(d.list_source@) ==> dialog_error(
            d,
        ) is Some,
        d.validation_type == ValidationTypeOption::List && dialog_error(d) is Some ==> is_blank(
            d.list_source@,
        ) || forall|i: int|
            0 <= i < list_items(text::trimmed(d.list_source@)).len() ==> (
            #[trigger] list_items(text::trimmed(d.list_source@))[i]).len() == 0,
        d.validation_type == ValidationTypeOption::WholeNumber || d.validation_type
            == ValidationTypeOption::Decimal ==> (dialog_error(d) is Some <==> is_blank(d.value1@)
            || ((d.numeric_operator == NumericOperatorOption::Between || d.numeric_operator
            == NumericOperatorOption::NotBetween) && is_blank(d.value2@))),
{
    text::trimming_takes_off_white_space(d.list_source@);
    text::trimming_takes_off_white_space(d.value1@);
    text::trimming_takes_off_white_space(d.value2@);
}

/// A value is written as some part of a text is, without the white space around it.
pub open spec fn is_part_of(v: ConstraintValue, s: Seq<char>) -> bool {
    let t = match v {
        ConstraintValue::Number(t) => t@,
        ConstraintValue::CellRef(t) => t@,
        ConstraintValue::Formula(t) => t@,
    };
    exists|i: int, j: int|
        #![trigger s.subrange(i, j)]
        0 <= i <= j <= s.len() && t == s.subrange(i, j) && (forall|k: int|
            0 <= k < i || j <= k < s.len() ==> text::is_white(#[trigger] s[k]))
}

/// A rule is of the kind that was chosen and keeps what was entered. It has a second
/// value exactly where the comparison is with a range.
pub proof fn a_rule_keeps_what_was_entered(r: ValidationRule, d: ValidationDialog)
    requires
        rule_reads(r, d),
    ensures
        r.ignore_blank == d.ignore_blank,
        match r.kind {
            RuleKind::List { show_dropdown, .. } => d.validation_type == ValidationTypeOption::List
                && show_dropdown == d.show_dropdown,
            RuleKind::WholeNumber(c) => d.validation_type == ValidationTypeOption::WholeNumber
                && c.operator == d.numeric_operator && (c.value2 is Some <==> d.numeric_operator
                == NumericOperatorOption::Between || d.numeric_operator
                == NumericOperatorOption::NotBetween),
            RuleKind::Decimal(c) => d.validation_type == ValidationTypeOption::Decimal && c.operator
                == d.numeric_operator && (c.value2 is Some <==> d.numeric_operator
                == NumericOperatorOption::Between || d.numeric_operator
                == NumericOperatorOption::NotBetween),
        },
        r.kind matches RuleKind::WholeNumber(c) ==> is_part_of(c.value1, d.value1@) && (
        c.value2 matches Some(v) ==> is_part_of(v, d.value2@)),
        r.kind matches RuleKind::Decimal(c) ==> is_part_of(c.value1, d.value1@) && (
        c.value2 matches Some(v) ==> is_part_of(v, d.value2@)),
{
    text::trimming_takes_off_white_space(d.value1@);
    text::trimming_takes_off_white_space(d.value2@);
}

/// The items of a list that is written out are its parts between the commas,
/// without the white space around them.
pub proof fn list_items_are_the_parts_between_commas(s: Seq<char>)
    ensures
        list_items(s).len() == text::split(s, ',').len(),
        text::joined(text::split(s, ','), ',') == s,
        forall|i: int|
            0 <= i < list_items(s).len() ==> !(#[trigger] text::split(s, ',')[i]).contains(',')
                && list_items(s)[i] == text::trimmed(text::split(s, ',')[i]),
        !s.contains(',') ==> list_items(s) == seq![text::trimmed(s)],
{
    text::parts_join_back(s, ',');
    if !s.contains(',') {
        lemma_no_comma(s);
        assert(list_items(s) =~= seq![text::trimmed(s)]);
    }
}

proof fn lemma_no_comma(s: Seq<char>)
    requires
        !s.contains(','),
    ensures
        text::split(s, ',') == seq![s],
    decreases s.len(),
{
    if s.len() > 0 {
        let t = s.drop_last();
        if t.contains(',') {
            let k = choose|k: int| 0 <= k < t.len() && t[k] == ',';
            assert(s[k] == ',');
        }
        lemma_no_comma(t);
        assert(s[s.len() - 1] == s.last());
        assert(t.push(s.last()) =~= s);
        assert(text::split(s, ',') =~= seq![s]);
    } else {
        assert(s =~= Seq::empty());
    }
}

/// The rules that a change of a range replaces are those that share a cell with it,
/// all of them and in their order.
pub proof fn rules_that_share_a_cell_are_replaced(rules: Seq<ValidationSpec>, s: CellSpan, i: int)
    requires
        s.min_row <= s.max_row && s.min_col <= s.max_col,
        0 <= i < rules.len(),
        rules[i].range.start_row <= rules[i].range.end_row,
        rules[i].range.start_col <= rules[i].range.end_col,
    ensures
        overlaps(rules[i].range, s) <==> exists|row: usize, col: usize|
            #![trigger failures::in_span(s, row, col)]
            failures::in_span(s, row, col) && rules[i].range.start_row <= row
                <= rules[i].range.end_row && rules[i].range.start_col <= col
                <= rules[i].range.end_col,
        overlaps(rules[i].range, s) ==> rules_in(rules, s).contains(rules[i]),
        rules_in(rules, s).len() <= rules.len(),
        forall|j: int|
            0 <= j < rules_in(rules, s).len() ==> rules.contains(#[trigger] rules_in(rules, s)[j])
                && overlaps(rules_in(rules, s)[j].range, s),
{
    let r = rules[i].range;
    if overlaps(r, s) {
        let row = greater(r.start_row, s.min_row);
        let col = greater(r.start_col, s.min_col);
        assert(failures::in_span(s, row, col));
    }
    lemma_rules_in(rules, s, i);
}

proof fn lemma_rules_in(rules: Seq<ValidationSpec>, s: CellSpan, i: int)
    requires
        0 <= i <= rules.len(),
    ensures
        i < rules.len() && overlaps(rules[i].range, s) ==> rules_in(rules, s).contains(rules[i]),
        rules_in(rules, s).len() <= rules.len(),
        forall|j: int|
            0 <= j < rules_in(rules, s).len() ==> rules.contains(#[trigger] rules_in(rules, s)[j])
                && overlaps(rules_in(rules, s)[j].range, s),
    decreases rules.len(),
{
    if rules.len() > 0 {
        let t = rules.drop_last();
        let rest = rules_in(t, s);
        let all = rules_in(rules, s);
        lemma_rules_in(
            t,
            s,
            if i < t.len() {
                i
            } else {
                t.len() as int
            },
        );
        if overlaps(rules.last().range, s) {
            assert(all[rest.len() as int] == rules.last());
        }
        if i < t.len() && overlaps(rules[i].range, s) {
            assert(t[i] == rules[i]);
            let k = choose|k: int| 0 <= k < rest.len() && rest[k] == t[i];
            assert(all[k] == rules[i]);
        }
        assert forall|j: int| 0 <= j < all.len() implies rules.contains(#[trigger] all[j])
            && overlaps(all[j].range, s) by {
            if j < rest.len() {
                assert(all[j] == rest[j]);
                let k = choose|k: int| 0 <= k < t.len() && t[k] == rest[j];
                assert(rules[k] == all[j]);
            } else {
                assert(rules[rules.len() - 1] == all[j]);
            }
        }
    }
}

/// The selected range reaches from the active cell to the other end of the selection,
/// whichever lies first, and no further.
pub proof fn the_selected_range_has_both_ends(v: ViewState)
    ensures
        ({
            let s = selected_span(v);
            let e = match v.selection_end {
                Some(e) => e,
                None => v.selected,
            };
            &&& failures::in_span(s, v.selected.0, v.selected.1) && failures::in_span(s, e.0, e.1)
            &&& s.min_row == v.selected.0 || s.min_row == e.0
            &&& s.max_row == v.selected.0 || s.max_row == e.0
            &&& s.min_col == v.selected.1 || s.min_col == e.1
            &&& s.max_col == v.selected.1 || s.max_col == e.1
        }),
        v.selection_end is None ==> cells_in(selected_span(v)) == 1,
{
}

/// A range of one row has as many cells as columns, and each further row adds as
/// many.
pub proof fn cells_are_counted_by_rows(s: CellSpan, t: CellSpan)
    requires
        s.min_row <= s.max_row && s.min_col <= s.max_col,
        t.min_row == s.min_row && t.max_row == s.max_row + 1,
        t.min_col == s.min_col && t.max_col == s.max_col,
    ensures
        cells_in(t) == cells_in(s) + (s.max_col - s.min_col + 1),
        s.min_row == s.max_row ==> cells_in(s) == s.max_col - s.min_col + 1,
{
    let n: int = s.max_row - s.min_row + 1;
    let m: int = s.max_col - s.min_col + 1;
    assert((n + 1) * m == n * m + m) by (nonlinear_arith);
    assert(1 * m == m);
}

/// A character that is typed goes to the end of the text that has the focus, the
/// others stay, and what was said to be wrong is forgotten; taken back, it leaves the
/// texts as they were. Where no text has the focus nothing changes.
pub proof fn typing_goes_to_the_focused_text(
    a: ValidationDialog,
    b: ValidationDialog,
    c: ValidationDialog,
    x: char,
)
    requires
        field_edited(a, b, |s: Seq<char>| s.push(x)),
        field_edited(b, c, |s: Seq<char>| text::shortened(s)),
    ensures
        c.list_source@ == a.list_source@ && c.value1@ == a.value1@ && c.value2@ == a.value2@,
        b.list_source@ == if a.focus == ValidationDialogFocus::Source {
            a.list_source@.push(x)
        } else {
            a.list_source@
        },
        b.value1@ == if a.focus == ValidationDialogFocus::Value1 {
            a.value1@.push(x)
        } else {
            a.value1@
        },
        b.value2@ == if a.focus == ValidationDialogFocus::Value2 {
            a.value2@.push(x)
        } else {
            a.value2@
        },
        b.focus == a.focus && b.target_range == a.target_range,
        a.focus == ValidationDialogFocus::TypeDropdown || a.focus
            == ValidationDialogFocus::OperatorDropdown ==> b == a,
        a.focus == ValidationDialogFocus::Source || a.focus == ValidationDialogFocus::Value1
            || a.focus == ValidationDialogFocus::Value2 ==> b.error is None,
{
    text::a_typed_character_can_be_taken_back(a.list_source@, x);
    text::a_typed_character_can_be_taken_back(a.value1@, x);
    text::a_typed_character_can_be_taken_back(a.value2@, x);
}

/// The focus goes over the fields that the kind of rule has: the type first, a source
/// for a list, and for a number a comparison and its values, a second one where the
/// comparison is with a range.
pub proof fn the_fields_of_a_kind(d: ValidationDialog)
    ensures
        dialog_fields(d).len() > 0 && dialog_fields(d)[0] == ValidationDialogFocus::TypeDropdown,
        dialog_fields(d).no_duplicates(),
        dialog_fields(d).contains(ValidationDialogFocus::Source) <==> d.validation_type
            == ValidationTypeOption::List,
        dialog_fields(d).contains(ValidationDialogFocus::Value1) <==> d.validation_type
            == ValidationTypeOption::WholeNumber || d.validation_type
            == ValidationTypeOption::Decimal,
        dialog_fields(d).contains(ValidationDialogFocus::OperatorDropdown)
            <==> dialog_fields(d).contains(ValidationDialogFocus::Value1),
        dialog_fields(d).contains(ValidationDialogFocus::Value2) <==> dialog_fields(d).contains(
            ValidationDialogFocus::Value1,
        ) && (d.numeric_operator == NumericOperatorOption::Between || d.numeric_operator
            == NumericOperatorOption::NotBetween),
{
    let f = dialog_fields(d);
    if d.validation_type == ValidationTypeOption::List {
        assert(f[1] == ValidationDialogFocus::Source);
    } else if d.validation_type != ValidationTypeOption::AnyValue {
        assert(f[1] == ValidationDialogFocus::OperatorDropdown);
        assert(f[2] == ValidationDialogFocus::Value1);
        if d.numeric_operator.two_values() {
            assert(f[3] == ValidationDialogFocus::Value2);
        }
    }
}

} // verus!
