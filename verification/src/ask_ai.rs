//! Asking the assistant for a formula or an analysis.

use vstd::prelude::*;

use crate::ai_settings;
use crate::document;
use crate::dropdown::{CellWrite, DropdownCloseReason};
use crate::fitting::CellSpan;
use crate::naming;
use crate::state::{Mode, Spreadsheet};
use crate::text;
use crate::validation_dialog;

verus! {

/// What the assistant is asked for.
#[derive(Debug, Clone, Copy, PartialEq, Eq, Structural)]
pub enum AiVerb {
    InsertFormula,
    Analyze,
}

/// Which cells go with a question.
#[derive(Debug, Clone, Copy, PartialEq, Eq, Structural)]
pub enum AskAIContextMode {
    CurrentSelection,
    CurrentRegion,
    EntireUsedRange,
}

#[derive(Debug, PartialEq, Eq)]
pub enum AskAIStatus {
    Idle,
    Loading,
    Success,
    Error(String),
}

/// What was left out of the cells.
#[derive(Debug, Clone, Copy, PartialEq, Eq, Structural)]
pub enum AskAITruncation {
    Nothing,
    Rows,
    Cols,
    Both,
}

/// What was sent with a question.
#[derive(Debug, PartialEq, Eq)]
pub struct AskAISentContext {
    pub provider: String,
    pub model: String,
    pub privacy_mode: bool,
    pub range_display: String,
    pub rows_sent: usize,
    pub cols_sent: usize,
    pub total_cells: usize,
    pub headers_included: bool,
    pub truncation: AskAITruncation,
}

/// The dialog.
#[derive(Debug, PartialEq, Eq)]
pub struct AskAi {
    pub verb: AiVerb,
    pub context_mode: AskAIContextMode,
    pub question: String,
    pub selected_range: Option<CellSpan>,
    pub context_summary: String,
    pub context_top_left: Option<String>,
    pub warnings: Vec<String>,
    pub context_selector_open: bool,
    pub sent_panel_expanded: bool,
    pub status: AskAIStatus,
    pub error: Option<String>,
    pub request_id: Option<String>,
    pub sent_context: Option<AskAISentContext>,
    pub raw_response: Option<String>,
    pub explanation: Option<String>,
    pub response_text: Option<String>,
    pub formula: Option<String>,
    pub formula_valid: bool,
    pub formula_error: Option<String>,
    pub last_insertion: Option<String>,
    pub inserted: bool,
}

#[derive(Debug, Clone, Copy, PartialEq, Eq, Structural)]
pub enum AiConfigStatus {
    Disabled,
    MissingKey,
    NotImplemented,
    Error,
    Ready,
}

/// The settings of the assistant as they are kept.
#[derive(Debug, PartialEq, Eq)]
pub struct AiConfig {
    pub status: AiConfigStatus,
    pub provider: String,
    pub model: String,
    pub privacy_mode: bool,
    pub api_key: Option<String>,
    pub blocking_reason: Option<String>,
    pub can_analyze: bool,
}

/// What is known of the cells that go with a question.
#[derive(Debug, PartialEq, Eq)]
pub struct ContextInfo {
    pub actual_range: String,
    pub top_left: String,
    pub row_count: usize,
    pub col_count: usize,
    pub has_headers: bool,
    pub warnings: Vec<String>,
}

/// A question that is sent.
#[derive(Debug, PartialEq, Eq)]
pub struct AskRequest {
    pub id: String,
    pub verb: AiVerb,
    pub question: String,
    pub api_key: Option<String>,
}

/// What the assistant answers to a question for a formula.
#[derive(Debug, PartialEq, Eq)]
pub struct FormulaAnswer {
    pub raw_response: Option<String>,
    pub explanation: String,
    pub formula: Option<String>,
    pub warnings: Vec<String>,
}

/// What the assistant answers to a question for an analysis.
#[derive(Debug, PartialEq, Eq)]
pub struct Analysis {
    pub raw_response: Option<String>,
    pub analysis: String,
    pub warnings: Vec<String>,
}

/// Why there is no answer.
#[derive(Debug, PartialEq, Eq)]
pub enum AskError {
    NotConfigured(String),
    NotImplemented(String),
    MissingKey,
    NetworkError(String),
    ApiError { status: u16, message: String },
    ParseError(String),
    InvalidResponse(String),
}

// ---------------------------------------------------------------------------
// The state of the dialog
// ---------------------------------------------------------------------------

/// There is no answer, and none is waited for.
pub open spec fn no_response(a: AskAi) -> bool {
    &&& a.status == AskAIStatus::Idle && a.error is None && a.request_id is None
    &&& a.sent_context is None && a.raw_response is None && a.explanation is None
    &&& a.response_text is None && a.formula is None && !a.formula_valid
    &&& a.formula_error is None && a.last_insertion is None && !a.inserted
}

/// The dialog before anything was asked.
pub open spec fn nothing_asked(a: AskAi) -> bool {
    &&& a.context_mode == AskAIContextMode::CurrentSelection
    &&& a.question@.len() == 0 && a.selected_range is None && a.context_summary@.len() == 0
    &&& a.context_top_left is None && a.warnings@.len() == 0
    &&& !a.context_selector_open && !a.sent_panel_expanded
    &&& no_response(a)
}

/// The same question without an answer.
pub open spec fn response_cleared(old: AskAi, new: AskAi) -> bool {
    &&& no_response(new)
    &&& new.verb == old.verb && new.context_mode == old.context_mode
    &&& new.question == old.question && new.selected_range == old.selected_range
    &&& new.context_summary == old.context_summary
    &&& new.context_top_left == old.context_top_left && new.warnings == old.warnings
    &&& new.context_selector_open == old.context_selector_open
    &&& new.sent_panel_expanded == old.sent_panel_expanded
}

impl AskAi {
    pub fn new(verb: AiVerb) -> (a: AskAi)
        ensures
            nothing_asked(a),
            a.verb == verb,
    {
        AskAi {
            verb,
            context_mode: AskAIContextMode::CurrentSelection,
            question: String::new(),
            selected_range: None,
            context_summary: String::new(),
            context_top_left: None,
            warnings: Vec::new(),
            context_selector_open: false,
            sent_panel_expanded: false,
            status: AskAIStatus::Idle,
            error: None,
            request_id: None,
            sent_context: None,
            raw_response: None,
            explanation: None,
            response_text: None,
            formula: None,
            formula_valid: false,
            formula_error: None,
            last_insertion: None,
            inserted: false,
        }
    }

    /// Forget the answer, but not the question.
    pub fn clear_response(&mut self)
        ensures
            response_cleared(*old(self), *final(self)),
    {
        self.status = AskAIStatus::Idle;
        self.error = None;
        self.request_id = None;
        self.sent_context = None;
        self.raw_response = None;
        self.explanation = None;
        self.response_text = None;
        self.formula = None;
        self.formula_valid = false;
        self.formula_error = None;
        self.last_insertion = None;
        self.inserted = false;
    }

    pub fn is_loading(&self) -> (r: bool)
        ensures
            r == (self.status == AskAIStatus::Loading),
    {
        match self.status {
            AskAIStatus::Loading => true,
            _ => false,
        }
    }
}

// ---------------------------------------------------------------------------
// Opening the dialog
// ---------------------------------------------------------------------------

/// Why the assistant cannot be asked, if it cannot.
pub open spec fn refusal(c: AiConfig, key_validated: bool) -> Option<Seq<char>> {
    match c.status {
        AiConfigStatus::Disabled => Some("AI is disabled. Enable in Preferences → AI."@),
        AiConfigStatus::MissingKey => if key_validated {
            None
        } else {
            Some("API key not configured. Set in Preferences → AI."@)
        },
        AiConfigStatus::NotImplemented => Some(c.provider@ + " provider not yet implemented."@),
        AiConfigStatus::Error => Some(
            match c.blocking_reason {
                Some(r) => r@,
                None => "AI configuration error"@,
            },
        ),
        AiConfigStatus::Ready => None,
    }
}

/// Why the assistant cannot be asked for an analysis, if it cannot.
pub open spec fn analyze_refusal(c: AiConfig, key_validated: bool) -> Option<Seq<char>> {
    match refusal(c, key_validated) {
        Some(m) => Some(m),
        None => if c.can_analyze {
            None
        } else {
            Some(c.provider@ + " provider does not support Analyze."@)
        },
    }
}

/// The dialog is open with nothing asked, or the status bar says why not.
pub open spec fn ask_opened(
    old: Spreadsheet,
    new: Spreadsheet,
    verb: AiVerb,
    refused: Option<Seq<char>>,
    opened: bool,
) -> bool {
    let ready = Spreadsheet { lua_console_visible: false, dropdown: None, ..old };
    match refused {
        Some(m) => !opened && crate::hub::only_says(ready, new, m),
        None => {
            &&& opened
            &&& new == (Spreadsheet { mode: Mode::AiDialog, ask_ai: new.ask_ai, ..ready })
            &&& nothing_asked(new.ask_ai)
            &&& new.ask_ai.verb == verb
        },
    }
}

impl AiConfig {
    fn refusal_text(&self, key_validated: bool) -> (r: Option<String>)
        ensures
            text::opt_text(r) == refusal(*self, key_validated),
    {
        match self.status {
            AiConfigStatus::Disabled => Some(
                text::lit("AI is disabled. Enable in Preferences → AI."),
            ),
            AiConfigStatus::MissingKey => if key_validated {
                None
            } else {
                Some(text::lit("API key not configured. Set in Preferences → AI."))
            },
            AiConfigStatus::NotImplemented => Some(
                text::cat(self.provider.as_str(), " provider not yet implemented."),
            ),
            AiConfigStatus::Error => match &self.blocking_reason {
                Some(r) => Some(r.clone()),
                None => Some(text::lit("AI configuration error")),
            },
            AiConfigStatus::Ready => None,
        }
    }
}

impl Spreadsheet {
    fn open_ask(&mut self, verb: AiVerb, refused: Option<String>) -> (opened: bool)
        ensures
            ask_opened(*old(self), *final(self), verb, text::opt_text(refused), opened),
    {
        self.close_validation_dropdown(DropdownCloseReason::ModalOpened);
        self.lua_console_visible = false;
        match refused {
            Some(m) => {
                self.say(m.as_str());
                false
            },
            None => {
                self.ask_ai = AskAi::new(verb);
                self.mode = Mode::AiDialog;
                true
            },
        }
    }

    /// Open the dialog for a formula. The result is whether it is open; the
    /// cells that go with the question are then taken from the selection.
    pub fn show_ask_ai(&mut self, config: &AiConfig) -> (opened: bool)
        ensures
            ask_opened(
                *old(self),
                *final(self),
                AiVerb::InsertFormula,
                refusal(*config, old(self).ai.key_validated),
                opened,
            ),
    {
        let refused = config.refusal_text(self.ai.key_validated);
        self.open_ask(AiVerb::InsertFormula, refused)
    }

    /// Open the dialog for an analysis.
    pub fn show_analyze(&mut self, config: &AiConfig) -> (opened: bool)
        ensures
            ask_opened(
                *old(self),
                *final(self),
                AiVerb::Analyze,
                analyze_refusal(*config, old(self).ai.key_validated),
                opened,
            ),
    {
        let refused = match config.refusal_text(self.ai.key_validated) {
            Some(m) => Some(m),
            None => if config.can_analyze {
                None
            } else {
                Some(
                    text::cat(config.provider.as_str(), " provider does not support Analyze."),
                )
            },
        };
        self.open_ask(AiVerb::Analyze, refused)
    }

    /// Close the dialog.
    pub fn hide_ask_ai(&mut self)
        ensures
            *final(self) == (Spreadsheet {
                mode: Mode::Navigation,
                ask_ai: final(self).ask_ai,
                ..*old(self)
            }),
            nothing_asked(final(self).ask_ai),
            final(self).ask_ai.verb == old(self).ask_ai.verb,
    {
        self.mode = Mode::Navigation;
        self.ask_ai = AskAi::new(self.ask_ai.verb);
    }

    // -----------------------------------------------------------------------
    // The cells that go with the question
    // -----------------------------------------------------------------------

    /// The cells that go with the question. `region` is the block of cells
    /// around the selected one, and `used` the range that holds anything.
    pub fn ask_ai_range(&self, region: CellSpan, used: CellSpan) -> (s: CellSpan)
        ensures
            s == context_range(*self, region, used),
    {
        match self.ask_ai.context_mode {
            AskAIContextMode::CurrentSelection => self.selection_range(),
            AskAIContextMode::CurrentRegion => region,
            AskAIContextMode::EntireUsedRange => used,
        }
    }

    /// Take other cells to go with the question; `context` is what is known of
    /// them, and `range_ref` is their name within the sheet.
    pub fn ask_ai_update_context(
        &mut self,
        region: CellSpan,
        used: CellSpan,
        sheet_name: &str,
        range_ref: &str,
        context: ContextInfo,
    )
        ensures
            *final(self) == (Spreadsheet { ask_ai: final(self).ask_ai, ..*old(self) }),
            final(self).ask_ai == (AskAi {
                selected_range: Some(context_range(*old(self), region, used)),
                context_summary: final(self).ask_ai.context_summary,
                context_top_left: Some(context.top_left),
                warnings: context.warnings,
                context_selector_open: false,
                ..old(self).ask_ai
            }),
            final(self).ask_ai.context_summary@ == sheet_name@ + "!"@ + range_ref@,
    {
        self.ask_ai.selected_range = Some(self.ask_ai_range(region, used));
        self.ask_ai.context_summary = text::cat3(sheet_name, "!", range_ref);
        self.ask_ai.context_top_left = Some(context.top_left);
        self.ask_ai.warnings = context.warnings;
        self.ask_ai.context_selector_open = false;
    }

    /// Choose which cells go with the question; they have to be taken anew.
    pub fn ask_ai_set_context_mode(&mut self, mode: AskAIContextMode)
        ensures
            *final(self) == (Spreadsheet {
                ask_ai: AskAi {
                    context_mode: mode,
                    context_selector_open: false,
                    ..old(self).ask_ai
                },
                ..*old(self)
            }),
    {
        self.ask_ai.context_mode = mode;
        self.ask_ai.context_selector_open = false;
    }

    pub fn ask_ai_toggle_context_selector(&mut self)
        ensures
            *final(self) == (Spreadsheet {
                ask_ai: AskAi {
                    context_selector_open: !old(self).ask_ai.context_selector_open,
                    ..old(self).ask_ai
                },
                ..*old(self)
            }),
    {
        self.ask_ai.context_selector_open = !self.ask_ai.context_selector_open;
    }

    pub fn ask_ai_toggle_sent_panel(&mut self)
        ensures
            *final(self) == (Spreadsheet {
                ask_ai: AskAi {
                    sent_panel_expanded: !old(self).ask_ai.sent_panel_expanded,
                    ..old(self).ask_ai
                },
                ..*old(self)
            }),
    {
        self.ask_ai.sent_panel_expanded = !self.ask_ai.sent_panel_expanded;
    }
}

/// The cells that go with the question.
pub open spec fn context_range(s: Spreadsheet, region: CellSpan, used: CellSpan) -> CellSpan {
    match s.ask_ai.context_mode {
        AskAIContextMode::CurrentSelection => validation_dialog::selected_span(s.view),
        AskAIContextMode::CurrentRegion => region,
        AskAIContextMode::EntireUsedRange => used,
    }
}

// ---------------------------------------------------------------------------
// Asking
// ---------------------------------------------------------------------------

/// A number in hexadecimal digits.
pub open spec fn hex_of(n: nat) -> Seq<char>
    decreases n,
{
    if n < 16 {
        seq![hex_digit(n as int)]
    } else {
        hex_of(n / 16).push(hex_digit((n % 16) as int))
    }
}

/// The lower-case hexadecimal digit for a value below sixteen.
pub open spec fn hex_digit(d: int) -> char {
    if d < 10 {
        (48 + d) as char
    } else {
        (87 + d) as char
    }
}

fn hex_text(n: u64) -> (r: String)
    ensures
        r@ == hex_of(n as nat),
    decreases n,
{
    let d: u8 = (n % 16) as u8;
    let c: char = if d < 10 {
        (48 + d) as char
    } else {
        (87 + d) as char
    };
    if n < 16 {
        let mut s = String::new();
        s.push(c);
        assert(s@ =~= hex_of(n as nat));
        return s;
    }
    let mut s = hex_text(n / 16);
    s.push(c);
    s
}

/// `rand::random`: a random number. Nothing is said of which one it is.
#[verifier::external_body]
fn random_number() -> (n: u64) {
    rand::random::<u64>()
}

/// A number to tell questions apart by, in hexadecimal digits.
pub fn new_request_id() -> (r: String)
    ensures
        exists|n: u64| r@ == #[trigger] hex_of(n as nat),
{
    let n = random_number();
    hex_text(n)
}

/// What is left out of `s` when no more than these rows and columns are sent.
pub open spec fn truncation_of(s: CellSpan, rows: usize, cols: usize) -> AskAITruncation {
    let fewer_rows = rows <= distance(s.min_row, s.max_row);
    let fewer_cols = cols <= distance(s.min_col, s.max_col);
    if fewer_rows && fewer_cols {
        AskAITruncation::Both
    } else if fewer_rows {
        AskAITruncation::Rows
    } else if fewer_cols {
        AskAITruncation::Cols
    } else {
        AskAITruncation::Nothing
    }
}

/// How far the second line is behind the first.
pub open spec fn distance(a: usize, b: usize) -> int {
    if a <= b {
        b - a
    } else {
        0
    }
}

/// The cells that are sent: those that were taken, else the selection.
pub open spec fn sent_range(s: Spreadsheet) -> CellSpan {
    match s.ask_ai.selected_range {
        Some(r) => r,
        None => validation_dialog::selected_span(s.view),
    }
}

/// What is shown of the cells that were sent.
pub open spec fn sent(c: AskAISentContext, range: CellSpan, config: AiConfig, context: ContextInfo) -> bool {
    &&& c.provider@ == config.provider@ && c.model@ == config.model@
    &&& c.privacy_mode == config.privacy_mode
    &&& c.range_display@ == context.actual_range@
    &&& c.rows_sent == context.row_count && c.cols_sent == context.col_count
    &&& c.total_cells == context.row_count * context.col_count
    &&& c.headers_included == context.has_headers
    &&& c.truncation == truncation_of(range, context.row_count, context.col_count)
}

/// A question can be sent: none is waited for, and it is not empty.
pub open spec fn can_ask(a: AskAi) -> bool {
    a.status != AskAIStatus::Loading && text::trimmed(a.question@).len() > 0
}

/// A question was sent.
pub open spec fn asked(
    old: Spreadsheet,
    new: Spreadsheet,
    id: Seq<char>,
    config: AiConfig,
    context: ContextInfo,
    r: AskRequest,
) -> bool {
    &&& new == (Spreadsheet { ask_ai: new.ask_ai, ..old })
    &&& response_cleared(
        old.ask_ai,
        AskAi { status: AskAIStatus::Idle, request_id: None, sent_context: None, ..new.ask_ai },
    )
    &&& new.ask_ai.status == AskAIStatus::Loading
    &&& text::opt_text(new.ask_ai.request_id) == Some(id)
    &&& new.ask_ai.sent_context is Some && sent(
        new.ask_ai.sent_context->0,
        sent_range(old),
        config,
        context,
    )
    &&& r.id@ == id && r.verb == old.ask_ai.verb && r.question@ == old.ask_ai.question@
    &&& text::opt_text(r.api_key) == match config.api_key {
        Some(k) => Some(k@),
        None => text::opt_text(old.ai.session_key),
    }
}

/// What becomes of a question that cannot be sent.
pub open spec fn not_asked(old: Spreadsheet, new: Spreadsheet) -> bool {
    if old.ask_ai.status == AskAIStatus::Loading {
        new == old
    } else {
        &&& new == (Spreadsheet {
            ask_ai: AskAi { error: new.ask_ai.error, ..old.ask_ai },
            ..old
        })
        &&& text::opt_text(new.ask_ai.error) == Some("Please enter a question"@)
    }
}

fn lines_behind(a: usize, b: usize) -> (r: usize)
    ensures
        r == distance(a, b),
{
    if a <= b {
        b - a
    } else {
        0
    }
}

fn sent_context_of(range: &CellSpan, config: &AiConfig, context: &ContextInfo) -> (c: AskAISentContext)
    requires
        context.row_count * context.col_count <= usize::MAX,
    ensures
        sent(c, *range, *config, *context),
{
    let fewer_rows = context.row_count <= lines_behind(range.min_row, range.max_row);
    let fewer_cols = context.col_count <= lines_behind(range.min_col, range.max_col);
    let truncation = match (fewer_rows, fewer_cols) {
        (true, true) => AskAITruncation::Both,
        (true, false) => AskAITruncation::Rows,
        (false, true) => AskAITruncation::Cols,
        (false, false) => AskAITruncation::Nothing,
    };
    AskAISentContext {
        provider: config.provider.clone(),
        model: config.model.clone(),
        privacy_mode: config.privacy_mode,
        range_display: context.actual_range.clone(),
        rows_sent: context.row_count,
        cols_sent: context.col_count,
        total_cells: context.row_count * context.col_count,
        headers_included: context.has_headers,
        truncation,
    }
}

impl AskAi {
    fn start(&mut self, id: &str, c: AskAISentContext)
        ensures
            response_cleared(
                *old(self),
                AskAi {
                    status: AskAIStatus::Idle,
                    request_id: None,
                    sent_context: None,
                    ..*final(self)
                },
            ),
            final(self).status == AskAIStatus::Loading,
            text::opt_text(final(self).request_id) == Some(id@),
            final(self).sent_context == Some(c),
    {
        self.clear_response();
        self.request_id = Some(text::lit(id));
        self.status = AskAIStatus::Loading;
        self.sent_context = Some(c);
    }
}

impl Spreadsheet {
    /// Send the question under an identifier.
    pub fn ask_ai_submit_as(&mut self, id: &str, config: &AiConfig, context: &ContextInfo) -> (r: Option<
        AskRequest,
    >)
        requires
            context.row_count * context.col_count <= usize::MAX,
        ensures
            match r {
                Some(q) => can_ask(old(self).ask_ai) && asked(
                    *old(self),
                    *final(self),
                    id@,
                    *config,
                    *context,
                    q,
                ),
                None => !can_ask(old(self).ask_ai) && not_asked(*old(self), *final(self)),
            },
    {
        if self.ask_ai.is_loading() {
            return None;
        }
        let trimmed = text::trim(self.ask_ai.question.as_str());
        proof {
            reveal_strlit("");
            if trimmed@.len() == 0 {
                assert(trimmed@ =~= ""@);
            }
        }
        if text::str_eq(trimmed.as_str(), "") {
            self.ask_ai.error = Some(text::lit("Please enter a question"));
            return None;
        }
        let range = match self.ask_ai.selected_range {
            Some(s) => s,
            None => self.selection_range(),
        };
        let api_key = match &config.api_key {
            Some(k) => Some(k.clone()),
            None => document::clone_text(&self.ai.session_key),
        };
        let c = sent_context_of(&range, config, context);
        self.ask_ai.start(id, c);
        Some(
            AskRequest {
                id: text::lit(id),
                verb: self.ask_ai.verb,
                question: self.ask_ai.question.clone(),
                api_key,
            },
        )
    }

    /// Send the question.
    pub fn ask_ai_submit(&mut self, config: &AiConfig, context: &ContextInfo) -> (r: Option<AskRequest>)
        requires
            context.row_count * context.col_count <= usize::MAX,
        ensures
            match r {
                Some(q) => can_ask(old(self).ask_ai) && asked(
                    *old(self),
                    *final(self),
                    q.id@,
                    *config,
                    *context,
                    q,
                ) && (exists|n: u64| q.id@ == #[trigger] hex_of(n as nat)),
                None => !can_ask(old(self).ask_ai) && not_asked(*old(self), *final(self)),
            },
    {
        let id = new_request_id();
        self.ask_ai_submit_as(id.as_str(), config, context)
    }

    /// Send the question once more, where that is allowed.
    pub fn ask_ai_retry(&mut self, allowed: bool, config: &AiConfig, context: &ContextInfo) -> (r: Option<
        AskRequest,
    >)
        requires
            context.row_count * context.col_count <= usize::MAX,
        ensures
            if !allowed {
                r is None && *final(self) == *old(self)
            } else {
                match r {
                    Some(q) => can_ask(old(self).ask_ai) && asked(
                        *old(self),
                        *final(self),
                        q.id@,
                        *config,
                        *context,
                        q,
                    ) && (exists|n: u64| q.id@ == #[trigger] hex_of(n as nat)),
                    None => !can_ask(old(self).ask_ai) && not_asked(*old(self), *final(self)),
                }
            },
    {
        if !allowed {
            return None;
        }
        self.ask_ai_submit(config, context)
    }

    /// Forget the answer to put the question better.
    pub fn ask_ai_refine(&mut self)
        ensures
            *final(self) == (Spreadsheet { ask_ai: final(self).ask_ai, ..*old(self) }),
            response_cleared(old(self).ask_ai, final(self).ask_ai),
    {
        self.ask_ai.clear_response();
    }

    // -----------------------------------------------------------------------
    // Typing
    // -----------------------------------------------------------------------

    /// A character of the question was typed.
    pub fn ask_ai_type_char(&mut self, c: char)
        ensures
            *final(self) == (Spreadsheet {
                ask_ai: AskAi {
                    question: final(self).ask_ai.question,
                    error: None,
                    ..old(self).ask_ai
                },
                ..*old(self)
            }),
            final(self).ask_ai.question@ == old(self).ask_ai.question@.push(c),
    {
        self.ask_ai.question.push(c);
        self.ask_ai.error = None;
    }

    /// The last character of the question is taken back.
    pub fn ask_ai_backspace(&mut self)
        ensures
            *final(self) == (Spreadsheet {
                ask_ai: AskAi { question: final(self).ask_ai.question, ..old(self).ask_ai },
                ..*old(self)
            }),
            final(self).ask_ai.question@ == text::shortened(old(self).ask_ai.question@),
    {
        self.ask_ai.question.pop();
    }

    /// A text was pasted into the question; its control characters are left
    /// out, but for new lines.
    pub fn ask_ai_paste(&mut self, pasted: &str)
        ensures
            *final(self) == (Spreadsheet {
                ask_ai: AskAi {
                    question: final(self).ask_ai.question,
                    error: None,
                    ..old(self).ask_ai
                },
                ..*old(self)
            }),
            final(self).ask_ai.question@ == old(self).ask_ai.question@
                + ai_settings::without_controls(pasted@, true),
    {
        let clean = ai_settings::clean_text(pasted, true);
        self.ask_ai.question.append(clean.as_str());
        self.ask_ai.error = None;
    }
}

// ---------------------------------------------------------------------------
// The answer
// ---------------------------------------------------------------------------

/// What is said of a failed question.
pub open spec fn error_text(e: AskError) -> Seq<char> {
    match e {
        AskError::NotConfigured(_) => "AI not configured. Open AI Settings to set up."@,
        AskError::NotImplemented(p) => p@ + " is not yet supported."@,
        AskError::MissingKey => "API key missing. Check AI Settings."@,
        AskError::NetworkError(m) => if text::contains_text(m@, "timeout"@) || text::contains_text(
            m@,
            "timed out"@,
        ) {
            "Request timed out. Please retry."@
        } else if text::contains_text(m@, "connection"@) {
            "Network unavailable. Check your connection."@
        } else {
            "Network error: "@ + m@
        },
        AskError::ApiError { status, message } => if status == 401 || status == 403 {
            "Authentication failed. Check your API key."@
        } else if status == 429 {
            "Rate limited. Please wait and retry."@
        } else {
            "API error ("@ + text::dec(status as nat) + "): "@ + message@
        },
        AskError::ParseError(m) => "Failed to parse response: "@ + m@,
        AskError::InvalidResponse(m) => "Invalid response: "@ + m@,
    }
}

/// What is said of a failed question.
pub fn format_ai_error(error: &AskError) -> (r: String)
    ensures
        r@ == error_text(*error),
{
    match error {
        AskError::NotConfigured(_) => text::lit("AI not configured. Open AI Settings to set up."),
        AskError::NotImplemented(p) => text::cat(p.as_str(), " is not yet supported."),
        AskError::MissingKey => text::lit("API key missing. Check AI Settings."),
        AskError::NetworkError(m) => if text::contains(m.as_str(), "timeout") || text::contains(
            m.as_str(),
            "timed out",
        ) {
            text::lit("Request timed out. Please retry.")
        } else if text::contains(m.as_str(), "connection") {
            text::lit("Network unavailable. Check your connection.")
        } else {
            text::cat("Network error: ", m.as_str())
        },
        AskError::ApiError { status, message } => if *status == 401 || *status == 403 {
            text::lit("Authentication failed. Check your API key.")
        } else if *status == 429 {
            text::lit("Rate limited. Please wait and retry.")
        } else {
            let n = text::decimal(*status as u64);
            let mut m = text::cat3("API error (", n.as_str(), "): ");
            m.append(message.as_str());
            m
        },
        AskError::ParseError(m) => text::cat("Failed to parse response: ", m.as_str()),
        AskError::InvalidResponse(m) => text::cat("Invalid response: ", m.as_str()),
    }
}

/// A formula behind its `=`, if it has one; space around it does not count.
pub open spec fn body_of(formula: Seq<char>) -> Option<Seq<char>> {
    let f = text::trimmed(formula);
    if f.len() > 0 && f[0] == '=' {
        Some(f.skip(1))
    } else {
        None
    }
}

/// The part of a formula that is parsed.
pub fn formula_body(formula: &str) -> (r: Option<String>)
    ensures
        text::opt_text(r) == body_of(formula@),
{
    let f = text::trim(formula);
    let v = text::chars_of(f.as_str());
    if v.len() == 0 || v[0] != '=' {
        return None;
    }
    let s = text::slice_text(&v, 1, v.len());
    assert(s@ =~= f@.skip(1));
    Some(s)
}

/// What is wrong with a formula, if anything. `parse_error` is what the parser
/// says of its body.
pub open spec fn formula_problem(formula: Seq<char>, parse_error: Option<Seq<char>>) -> Option<Seq<char>> {
    if body_of(formula) is None {
        Some("Formula must start with '='"@)
    } else {
        match parse_error {
            Some(e) => Some("Parse error: "@ + e),
            None => None,
        }
    }
}

/// Whether a formula can be put into a cell.
pub fn validate_ai_formula(formula: &str, parse_error: &Option<String>) -> (r: Result<(), String>)
    ensures
        match r {
            Ok(_) => formula_problem(formula@, text::opt_text(*parse_error)) is None,
            Err(e) => formula_problem(formula@, text::opt_text(*parse_error)) == Some(e@),
        },
{
    if formula_body(formula).is_none() {
        return Err(text::lit("Formula must start with '='"));
    }
    match parse_error {
        Some(e) => Err(text::cat("Parse error: ", e.as_str())),
        None => Ok(()),
    }
}

/// The answer is to the question that is waited for.
pub open spec fn is_awaited(a: AskAi, id: Seq<char>) -> bool {
    text::opt_text(a.request_id) == Some(id)
}

/// The dialog after a question failed.
pub open spec fn ask_failed(old: AskAi, new: AskAi, m: Seq<char>) -> bool {
    &&& new == (AskAi { status: new.status, error: new.error, ..old })
    &&& new.status matches AskAIStatus::Error(e) && e@ == m
    &&& text::opt_text(new.error) == Some(m)
}

/// The dialog after a formula came.
pub open spec fn formula_came(
    old: AskAi,
    new: AskAi,
    answer: FormulaAnswer,
    parse_error: Option<Seq<char>>,
) -> bool {
    &&& new == (AskAi {
        raw_response: answer.raw_response,
        explanation: Some(answer.explanation),
        formula: new.formula,
        warnings: new.warnings,
        formula_valid: new.formula_valid,
        formula_error: new.formula_error,
        status: AskAIStatus::Success,
        ..old
    })
    &&& new.warnings@ == old.warnings@ + answer.warnings@
    &&& match answer.formula {
        Some(f) => {
            let problem = formula_problem(text::trimmed(f@), parse_error);
            &&& text::opt_text(new.formula) == Some(text::trimmed(f@))
            &&& new.formula_valid == (problem is None)
            &&& text::opt_text(new.formula_error) == problem
        },
        None => new.formula is None && new.formula_valid == old.formula_valid && new.formula_error
            == old.formula_error,
    }
}

/// The dialog after an analysis came.
pub open spec fn analysis_came(old: AskAi, new: AskAi, answer: Analysis) -> bool {
    &&& new == (AskAi {
        raw_response: answer.raw_response,
        response_text: Some(answer.analysis),
        warnings: new.warnings,
        status: AskAIStatus::Success,
        ..old
    })
    &&& new.warnings@ == old.warnings@ + answer.warnings@
}

fn awaits(id: &Option<String>, other: &str) -> (r: bool)
    ensures
        r == (text::opt_text(*id) == Some(other@)),
{
    match id {
        Some(s) => text::str_eq(s.as_str(), other),
        None => false,
    }
}

impl Spreadsheet {
    fn ask_fails(&mut self, e: &AskError)
        ensures
            *final(self) == (Spreadsheet { ask_ai: final(self).ask_ai, ..*old(self) }),
            ask_failed(old(self).ask_ai, final(self).ask_ai, error_text(*e)),
    {
        let m = format_ai_error(e);
        self.ask_ai.status = AskAIStatus::Error(m.clone());
        self.ask_ai.error = Some(m);
    }

    /// An answer to a question for a formula has come. An answer to a question
    /// that is no longer waited for is left out. `parse_error` is what the
    /// parser says of the body of the formula, if there is one.
    pub fn ask_ai_formula_answered(
        &mut self,
        id: &str,
        answer: Result<FormulaAnswer, AskError>,
        parse_error: &Option<String>,
    )
        ensures
            formula_answered(*old(self), *final(self), id@, answer, text::opt_text(*parse_error)),
    {
        if !awaits(&self.ask_ai.request_id, id) {
            return;
        }
        match answer {
            Err(e) => self.ask_fails(&e),
            Ok(a) => {
                let mut warnings = a.warnings;
                self.ask_ai.raw_response = a.raw_response;
                self.ask_ai.explanation = Some(a.explanation);
                self.ask_ai.warnings.append(&mut warnings);
                match a.formula {
                    None => {
                        self.ask_ai.formula = None;
                    },
                    Some(f) => {
                        let trimmed = text::trim(f.as_str());
                        match validate_ai_formula(trimmed.as_str(), parse_error) {
                            Ok(_) => {
                                self.ask_ai.formula_valid = true;
                                self.ask_ai.formula_error = None;
                            },
                            Err(e) => {
                                self.ask_ai.formula_valid = false;
                                self.ask_ai.formula_error = Some(e);
                            },
                        }
                        self.ask_ai.formula = Some(trimmed);
                    },
                }
                self.ask_ai.status = AskAIStatus::Success;
            },
        }
    }

    /// An answer to a question for an analysis has come.
    pub fn ask_ai_analysis_answered(&mut self, id: &str, answer: Result<Analysis, AskError>)
        ensures
            analysis_answered(*old(self), *final(self), id@, answer),
    {
        if !awaits(&self.ask_ai.request_id, id) {
            return;
        }
        match answer {
            Err(e) => self.ask_fails(&e),
            Ok(a) => {
                let mut warnings = a.warnings;
                self.ask_ai.raw_response = a.raw_response;
                self.ask_ai.response_text = Some(a.analysis);
                self.ask_ai.warnings.append(&mut warnings);
                self.ask_ai.status = AskAIStatus::Success;
            },
        }
    }

    /// Put the formula of the assistant into the selected cell, where that is
    /// allowed: the result is the cell and its new value.
    pub fn ask_ai_insert_formula(&mut self, allowed: bool) -> (w: Option<CellWrite>)
        requires
            old(self).view.selected.0 < usize::MAX,
        ensures
            formula_inserted(*old(self), *final(self), allowed, w),
    {
        if !allowed {
            return None;
        }
        let formula = match &self.ask_ai.formula {
            Some(f) => f.clone(),
            None => {
                return None;
            },
        };
        let (row, col) = self.view.selected;
        let name = naming::cell_name(row, col);
        self.ask_ai.last_insertion = Some(text::cat("Inserted into ", name.as_str()));
        self.ask_ai.inserted = true;
        self.say_with("Formula inserted at ", name.as_str());
        Some(CellWrite { row, col, value: formula })
    }
}

// ---------------------------------------------------------------------------
// Where a formula came from
// ---------------------------------------------------------------------------

/// Where a formula of the assistant came from.
#[derive(Debug, PartialEq, Eq)]
pub struct AiMutationMeta {
    pub provider: String,
    pub model: String,
    pub privacy_mode: bool,
    pub request_id: Option<String>,
    pub context_mode: String,
    pub truncation: AskAITruncation,
}

/// The word for which cells went with a question.
pub open spec fn context_word(m: AskAIContextMode) -> Seq<char> {
    match m {
        AskAIContextMode::CurrentSelection => "selection"@,
        AskAIContextMode::CurrentRegion => "region"@,
        AskAIContextMode::EntireUsedRange => "used_range"@,
    }
}

impl Spreadsheet {
    /// Where the formula came from, if anything was sent.
    pub fn ask_ai_source(&self) -> (r: Option<AiMutationMeta>)
        ensures
            match self.ask_ai.sent_context {
                None => r is None,
                Some(c) => r matches Some(m) && m.provider@ == c.provider@ && m.model@ == c.model@
                    && m.privacy_mode == c.privacy_mode && text::opt_text(m.request_id)
                    == text::opt_text(self.ask_ai.request_id) && m.context_mode@ == context_word(
                    self.ask_ai.context_mode,
                ) && m.truncation == c.truncation,
            },
    {
        match &self.ask_ai.sent_context {
            None => None,
            Some(c) => Some(
                AiMutationMeta {
                    provider: c.provider.clone(),
                    model: c.model.clone(),
                    privacy_mode: c.privacy_mode,
                    request_id: document::clone_text(&self.ask_ai.request_id),
                    context_mode: match self.ask_ai.context_mode {
                        AskAIContextMode::CurrentSelection => text::lit("selection"),
                        AskAIContextMode::CurrentRegion => text::lit("region"),
                        AskAIContextMode::EntireUsedRange => text::lit("used_range"),
                    },
                    truncation: c.truncation,
                },
            ),
        }
    }
}

// ---------------------------------------------------------------------------
// Details for a report on an error
// ---------------------------------------------------------------------------

pub open spec fn bool_text(b: bool) -> Seq<char> {
    if b {
        "true"@
    } else {
        "false"@
    }
}

/// What is told of the cells that were sent.
pub open spec fn sent_text(c: AskAISentContext, truncation: Seq<char>) -> Seq<char> {
    "Provider: "@ + c.provider@ + "\nModel: "@ + c.model@ + "\nPrivacy mode: "@ + bool_text(
        c.privacy_mode,
    ) + "\nRange: "@ + c.range_display@ + "\nCells sent: "@ + text::dec(c.total_cells as nat)
        + " ("@ + text::dec(c.rows_sent as nat) + " rows x "@ + text::dec(c.cols_sent as nat)
        + " cols)\nTruncation: "@ + truncation + "\n\n"@
}

/// What is told of a question.
pub open spec fn details_text(a: AskAi, contract_id: Seq<char>, truncation: Seq<char>) -> Seq<char> {
    let head = match a.verb {
        AiVerb::InsertFormula => "=== Insert Formula AI Diagnostic Details ===\n\nContract: "@
            + contract_id + " (Single-cell write)\nWrite scope: Active cell\n"@,
        AiVerb::Analyze => "=== Analyze AI Diagnostic Details ===\n\nContract: "@ + contract_id
            + " (Read-only)\nWrite scope: None\n"@,
    };
    let cells = match a.sent_context {
        Some(c) => head + sent_text(c, truncation),
        None => head,
    };
    let failed = match a.error {
        Some(e) => cells + "Error: "@ + e@ + "\n\n"@,
        None => cells,
    };
    match a.raw_response {
        Some(r) => failed + "Raw response:\n"@ + r@ + "\n"@,
        None => failed,
    }
}

fn sent_string(c: &AskAISentContext, truncation: &str) -> (m: String)
    ensures
        m@ == sent_text(*c, truncation@),
{
    let mut m = text::cat3("Provider: ", c.provider.as_str(), "\nModel: ");
    m.append(c.model.as_str());
    m.append("\nPrivacy mode: ");
    m.append(
        if c.privacy_mode {
            "true"
        } else {
            "false"
        },
    );
    m.append("\nRange: ");
    m.append(c.range_display.as_str());
    m.append("\nCells sent: ");
    let n = text::decimal(c.total_cells as u64);
    m.append(n.as_str());
    m.append(" (");
    let n = text::decimal(c.rows_sent as u64);
    m.append(n.as_str());
    m.append(" rows x ");
    let n = text::decimal(c.cols_sent as u64);
    m.append(n.as_str());
    m.append(" cols)\nTruncation: ");
    m.append(truncation);
    m.append("\n\n");
    m
}

impl Spreadsheet {
    /// Details for a report on an error, to be copied. `contract_id` names what
    /// the assistant may do, and `truncation` what was left out of the cells.
    pub fn ask_ai_copy_details(&mut self, contract_id: &str, truncation: &str) -> (details: String)
        ensures
            details@ == details_text(old(self).ask_ai, contract_id@, truncation@),
            crate::hub::only_says(*old(self), *final(self), "Diagnostic details copied"@),
    {
        let mut m = match self.ask_ai.verb {
            AiVerb::InsertFormula => text::cat3(
                "=== Insert Formula AI Diagnostic Details ===\n\nContract: ",
                contract_id,
                " (Single-cell write)\nWrite scope: Active cell\n",
            ),
            AiVerb::Analyze => text::cat3(
                "=== Analyze AI Diagnostic Details ===\n\nContract: ",
                contract_id,
                " (Read-only)\nWrite scope: None\n",
            ),
        };
        match &self.ask_ai.sent_context {
            Some(c) => {
                let s = sent_string(c, truncation);
                m.append(s.as_str());
            },
            None => {},
        }
        match &self.ask_ai.error {
            Some(e) => {
                m.append("Error: ");
                m.append(e.as_str());
                m.append("\n\n");
            },
            None => {},
        }
        match &self.ask_ai.raw_response {
            Some(r) => {
                m.append("Raw response:\n");
                m.append(r.as_str());
                m.append("\n");
            },
            None => {},
        }
        self.say("Diagnostic details copied");
        m
    }
}

/// An answer with a formula came.
pub open spec fn formula_answered(
    old: Spreadsheet,
    new: Spreadsheet,
    id: Seq<char>,
    answer: Result<FormulaAnswer, AskError>,
    parse_error: Option<Seq<char>>,
) -> bool {
    &&& new == (Spreadsheet { ask_ai: new.ask_ai, ..old })
    &&& if !is_awaited(old.ask_ai, id) {
        new.ask_ai == old.ask_ai
    } else {
        match answer {
            Ok(a) => formula_came(
                old.ask_ai,
                new.ask_ai,
                a,
                parse_error,
            ),
            Err(e) => ask_failed(old.ask_ai, new.ask_ai, error_text(e)),
        }
    }
}

/// An answer with an analysis came.
pub open spec fn analysis_answered(
    old: Spreadsheet,
    new: Spreadsheet,
    id: Seq<char>,
    answer: Result<Analysis, AskError>,
) -> bool {
    &&& new == (Spreadsheet { ask_ai: new.ask_ai, ..old })
    &&& if !is_awaited(old.ask_ai, id) {
        new.ask_ai == old.ask_ai
    } else {
        match answer {
            Ok(a) => analysis_came(old.ask_ai, new.ask_ai, a),
            Err(e) => ask_failed(old.ask_ai, new.ask_ai, error_text(e)),
        }
    }
}

/// The formula of the answer is to be put into the sheet.
pub open spec fn formula_inserted(
    old: Spreadsheet,
    new: Spreadsheet,
    allowed: bool,
    w: Option<CellWrite>,
) -> bool {
    &&& if !allowed || old.ask_ai.formula is None {
        w is None && new == old
    } else {
        let (row, col) = old.view.selected;
        &&& w matches Some(x) && x.row == row && x.col == col && x.value@ == old.ask_ai.formula->0@
        &&& new == (Spreadsheet {
            status_message: new.status_message,
            ask_ai: AskAi {
                last_insertion: new.ask_ai.last_insertion,
                inserted: true,
                ..old.ask_ai
            },
            ..old
        })
        &&& text::opt_text(new.ask_ai.last_insertion) == Some(
            "Inserted into "@ + naming::cell_text(row, col),
        )
        &&& text::opt_text(new.status_message) == Some(
            "Formula inserted at "@ + naming::cell_text(row, col),
        )
    }
}

// ---------------------------------------------------------------------------
// Laws
// ---------------------------------------------------------------------------

/// While a question is waited for, no other one is sent, and an answer under
/// another identifier changes nothing.
pub proof fn one_question_at_a_time(a: AskAi, id: Seq<char>, other: Seq<char>)
    requires
        a.status == AskAIStatus::Loading,
        is_awaited(a, id),
        other != id,
    ensures
        !can_ask(a),
        !is_awaited(a, other),
{
}

/// A question is sent as it was typed, with the key of the settings where there is one and else with
/// that of the session, and what came of an earlier question is gone. It cannot be asked again while
/// it is awaited. A question that is blank is not sent.
pub proof fn a_question_is_sent_as_typed(
    old: Spreadsheet,
    new: Spreadsheet,
    id: Seq<char>,
    config: AiConfig,
    context: ContextInfo,
    r: AskRequest,
)
    requires
        asked(old, new, id, config, context, r),
    ensures
        r.question@ == old.ask_ai.question@ && r.verb == old.ask_ai.verb && r.id@ == id,
        config.api_key matches Some(k) ==> text::opt_text(r.api_key) == Some(k@),
        config.api_key is None ==> text::opt_text(r.api_key) == text::opt_text(old.ai.session_key),
        !can_ask(new.ask_ai) && is_awaited(new.ask_ai, id),
        new.ask_ai.formula is None && new.ask_ai.response_text is None && new.ask_ai.error is None
            && !new.ask_ai.inserted && new.ask_ai.raw_response is None,
        new.ask_ai.question == old.ask_ai.question && new.ask_ai.verb == old.ask_ai.verb,
        new.ask_ai.sent_context matches Some(c) && c.total_cells == context.row_count
            * context.col_count && c.provider@ == config.provider@ && c.model@ == config.model@
            && c.privacy_mode == config.privacy_mode,
        new.view == old.view && new.file == old.file,
        can_ask(old.ask_ai) <==> old.ask_ai.status != AskAIStatus::Loading && !(forall|i: int|
            0 <= i < old.ask_ai.question@.len() ==> text::is_white(
                #[trigger] old.ask_ai.question@[i],
            )),
{
    text::trimming_takes_off_white_space(old.ask_ai.question@);
}

/// Only the answer that is awaited counts. Its formula is kept without the white space around it, and
/// it is valid exactly if it begins with an equals sign and can be parsed; an answer that is an error
/// is told. Whatever else arrives changes nothing.
pub proof fn only_the_awaited_answer_counts(
    a: Spreadsheet,
    b: Spreadsheet,
    c: Spreadsheet,
    id: Seq<char>,
    config: AiConfig,
    context: ContextInfo,
    r: AskRequest,
    other: Seq<char>,
    answer: Result<FormulaAnswer, AskError>,
    parse_error: Option<Seq<char>>,
)
    requires
        asked(a, b, id, config, context, r),
        formula_answered(b, c, other, answer, parse_error),
    ensures
        other != id ==> c == b,
        other == id && answer is Ok ==> c.ask_ai.status == AskAIStatus::Success && (
        answer->Ok_0.formula matches Some(f) ==> {
            &&& text::opt_text(c.ask_ai.formula) == Some(text::trimmed(f@))
            &&& c.ask_ai.formula_valid <==> text::trimmed(f@).len() > 0 && text::trimmed(f@)[0]
                == '=' && parse_error is None
            &&& c.ask_ai.formula_valid <==> c.ask_ai.formula_error is None
        }) && (answer->Ok_0.formula is None ==> c.ask_ai.formula is None
            && !c.ask_ai.formula_valid) && c.ask_ai.explanation == Some(answer->Ok_0.explanation)
            && c.ask_ai.raw_response == answer->Ok_0.raw_response,
        other == id && answer is Err ==> c.ask_ai.status is Error && c.ask_ai.formula is None
            && c.ask_ai.error is Some,
        c.view == a.view && c.file == a.file,
{
    if let Ok(x) = answer {
        if let Some(f) = x.formula {
            text::trimming_takes_off_white_space(f@);
        }
    }
}

/// An analysis that is awaited is shown as it came.
pub proof fn an_analysis_is_shown_as_it_came(
    old: Spreadsheet,
    new: Spreadsheet,
    id: Seq<char>,
    answer: Result<Analysis, AskError>,
)
    requires
        analysis_answered(old, new, id, answer),
    ensures
        !is_awaited(old.ask_ai, id) ==> new == old,
        is_awaited(old.ask_ai, id) ==> (answer matches Ok(x) ==> new.ask_ai.response_text == Some(
            x.analysis,
        ) && new.ask_ai.status == AskAIStatus::Success && new.ask_ai.warnings@
            == old.ask_ai.warnings@ + x.warnings@),
        is_awaited(old.ask_ai, id) && answer is Err ==> new.ask_ai.status is Error
            && new.ask_ai.response_text == old.ask_ai.response_text,
        new.ask_ai.formula == old.ask_ai.formula && new.ask_ai.question == old.ask_ai.question,
{
}

/// A formula goes into the active cell and nowhere else, and only where that is allowed.
pub proof fn a_formula_goes_into_the_active_cell(
    old: Spreadsheet,
    new: Spreadsheet,
    allowed: bool,
    w: Option<CellWrite>,
)
    requires
        formula_inserted(old, new, allowed, w),
    ensures
        w is Some <==> allowed && old.ask_ai.formula is Some,
        w matches Some(x) ==> (x.row, x.col) == old.view.selected && Some(x.value@)
            == text::opt_text(old.ask_ai.formula) && new.ask_ai.inserted,
        w is None ==> new == old,
        new.view == old.view && new.ask_ai.formula == old.ask_ai.formula,
{
}

/// Questions are taken where the settings are ready, or where only the key was missing and has been
/// given since; an analysis takes a provider that can do it too. Whatever is refused says why.
pub proof fn when_questions_are_taken(c: AiConfig, key_validated: bool)
    ensures
        refusal(c, key_validated) is None <==> c.status == AiConfigStatus::Ready || (c.status
            == AiConfigStatus::MissingKey && key_validated),
        analyze_refusal(c, key_validated) is None <==> refusal(c, key_validated) is None
            && c.can_analyze,
        refusal(c, key_validated) is Some ==> analyze_refusal(c, key_validated) == refusal(
            c,
            key_validated,
        ),
        c.status == AiConfigStatus::Error ==> (c.blocking_reason matches Some(x) ==> refusal(
            c,
            key_validated,
        ) == Some(x@)),
        c.status == AiConfigStatus::NotImplemented ==> text::has_prefix(
            refusal(c, key_validated)->0,
            c.provider@,
        ),
{
    text::what_it_means_to_hold_a_text(
        Seq::empty(),
        c.provider@,
        " provider not yet implemented."@,
    );
}

/// The dialog opens exactly where questions are taken, with nothing asked yet. Opened or not, it closes
/// what would be in its way.
pub proof fn the_dialog_opens_empty(
    old: Spreadsheet,
    new: Spreadsheet,
    verb: AiVerb,
    refused: Option<Seq<char>>,
    opened: bool,
)
    requires
        ask_opened(old, new, verb, refused, opened),
    ensures
        opened <==> refused is None,
        opened ==> new.mode == Mode::AiDialog && new.ask_ai.verb == verb
            && new.ask_ai.question@.len() == 0 && new.ask_ai.formula is None && new.ask_ai.status
            == AskAIStatus::Idle,
        !opened ==> new.mode == old.mode && new.ask_ai == old.ask_ai && text::opt_text(
            new.status_message,
        ) == refused,
        !new.lua_console_visible && new.dropdown is None,
        new.view == old.view && new.file == old.file,
{
}

/// It is told what was left out: rows where fewer were sent than there are, and columns likewise.
pub proof fn what_is_left_out_is_told(s: CellSpan, rows: usize, cols: usize)
    requires
        s.min_row <= s.max_row,
        s.min_col <= s.max_col,
    ensures
        ({
            let t = truncation_of(s, rows, cols);
            &&& rows < s.max_row - s.min_row + 1 <==> t == AskAITruncation::Rows || t
                == AskAITruncation::Both
            &&& cols < s.max_col - s.min_col + 1 <==> t == AskAITruncation::Cols || t
                == AskAITruncation::Both
        }),
{
}

/// A formula is one that begins with an equals sign behind any white space; its body is what follows.
pub proof fn what_a_formula_begins_with(white: Seq<char>, body: Seq<char>)
    requires
        forall|i: int| 0 <= i < white.len() ==> text::is_white(#[trigger] white[i]),
        body.len() > 0,
        !text::is_white(body.last()),
    ensures
        body_of(white.push('=') + body) == Some(body),
        !text::is_white(body[0]) && body[0] != '=' ==> body_of(white + body) is None
            && formula_problem(white + body, None) is Some,
        formula_problem(white.push('=') + body, None) is None,
        forall|e: Seq<char>|
            #![trigger formula_problem(white.push('=') + body, Some(e))]
            formula_problem(white.push('=') + body, Some(e)) is Some,
{
    lemma_trimmed_behind(white, seq!['='] + body);
    assert(white.push('=') + body =~= white + (seq!['='] + body));
    assert((seq!['='] + body).skip(1) =~= body);
    if !text::is_white(body[0]) {
        lemma_trimmed_behind(white, body);
    }
}

proof fn lemma_trimmed_behind(white: Seq<char>, s: Seq<char>)
    requires
        forall|i: int| 0 <= i < white.len() ==> text::is_white(#[trigger] white[i]),
        s.len() > 0,
        !text::is_white(s[0]),
        !text::is_white(s.last()),
    ensures
        text::trimmed(white + s) == s,
{
    let t = white + s;
    text::trimming_takes_off_white_space(t);
    let (i, j) = choose|i: int, j: int|
        #![trigger t.subrange(i, j)]
        0 <= i <= j <= t.len() && text::trimmed(t) == t.subrange(i, j) && (forall|k: int|
            0 <= k < i || j <= k < t.len() ==> text::is_white(#[trigger] t[k]));
    let n = white.len() as int;
    assert(t[n] == s[0]);
    assert(t[t.len() - 1] == s.last());
    assert(!text::is_white(t[n]) && !text::is_white(t[t.len() - 1]));
    assert(i <= n && j == t.len());
    if text::trimmed(t).len() > 0 {
        assert(text::trimmed(t)[0] == t[i]);
        if i < n {
            assert(t[i] == white[i]);
        }
    }
    assert(t.subrange(n, t.len() as int) =~= s);
}

/// An error is told in words that a reader can act on: a rejected key, a limit, or a time that ran out,
/// however the provider puts it; and anything else with the provider's own words.
pub proof fn errors_are_told(a: Seq<char>, b: Seq<char>, e: AskError, m: String, status: u16)
    ensures
        e == (AskError::ApiError { status, message: m }) && (status == 401 || status == 403)
            ==> error_text(e) == error_text(AskError::ApiError { status: 401, message: m }),
        e == (AskError::ApiError { status, message: m }) && status != 401 && status != 403 && status
            != 429 ==> text::has_suffix(error_text(e), m@) && text::contains_text(
            error_text(e),
            text::dec(status as nat),
        ),
        e == AskError::NetworkError(m) && (m@ == a + "timeout"@ + b || m@ == a + "timed out"@ + b)
            ==> error_text(e) == "Request timed out. Please retry."@,
        e == AskError::NetworkError(m) && !text::contains_text(m@, "timeout"@)
            && !text::contains_text(m@, "timed out"@) && !text::contains_text(m@, "connection"@)
            ==> text::has_suffix(error_text(e), m@),
        e == AskError::ParseError(m) || e == AskError::InvalidResponse(m) ==> text::has_suffix(
            error_text(e),
            m@,
        ),
{
    let none = Seq::<char>::empty();
    text::what_it_means_to_hold_a_text(a, "timeout"@, b);
    text::what_it_means_to_hold_a_text(a, "timed out"@, b);
    text::what_it_means_to_hold_a_text("Network error: "@, m@, none);
    text::what_it_means_to_hold_a_text("Failed to parse response: "@, m@, none);
    text::what_it_means_to_hold_a_text("Invalid response: "@, m@, none);
    let front = "API error ("@ + text::dec(status as nat) + "): "@;
    text::what_it_means_to_hold_a_text(front, m@, none);
    text::what_it_means_to_hold_a_text("API error ("@, text::dec(status as nat), "): "@);
    text::what_is_held_stays_held(none, front, m@, text::dec(status as nat));
}

/// The details that are copied hold the error and what the provider sent, where there are such.
pub proof fn details_hold_what_came(a: AskAi, contract_id: Seq<char>, truncation: Seq<char>)
    ensures
        a.raw_response matches Some(x) ==> text::contains_text(
            details_text(a, contract_id, truncation),
            x@,
        ),
        a.error matches Some(e) ==> text::contains_text(
            details_text(a, contract_id, truncation),
            e@,
        ),
{
    let all = details_text(a, contract_id, truncation);
    let head = match a.verb {
        AiVerb::InsertFormula => "=== Insert Formula AI Diagnostic Details ===\n\nContract: "@
            + contract_id + " (Single-cell write)\nWrite scope: Active cell\n"@,
        AiVerb::Analyze => "=== Analyze AI Diagnostic Details ===\n\nContract: "@ + contract_id
            + " (Read-only)\nWrite scope: None\n"@,
    };
    let cells = match a.sent_context {
        Some(c) => head + sent_text(c, truncation),
        None => head,
    };
    let failed = match a.error {
        Some(e) => cells + "Error: "@ + e@ + "\n\n"@,
        None => cells,
    };
    if let Some(e) = a.error {
        text::what_it_means_to_hold_a_text(cells + "Error: "@, e@, "\n\n"@);
        if let Some(x) = a.raw_response {
            let tail = "Raw response:\n"@ + x@ + "\n"@;
            text::what_is_held_stays_held(Seq::empty(), failed, tail, e@);
            assert(failed + "Raw response:\n"@ + x@ + "\n"@ =~= failed + tail);
        }
    }
    if let Some(x) = a.raw_response {
        text::what_it_means_to_hold_a_text(failed + "Raw response:\n"@, x@, "\n"@);
    }
}

} // verus!
