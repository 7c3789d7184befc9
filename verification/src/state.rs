//! The state of one spreadsheet window.

use vstd::prelude::*;

use crate::ai_settings::AiState;
use crate::ask_ai::AskAi;
use crate::caches::{CellSearchCache, FormatCache};
use crate::chrome::UiState;
use crate::cloud::CloudState;
use crate::commands::CommandId;
use crate::default_prompt::PromptState;
use crate::dialogs::DialogState;
use crate::diff_report::DiffState;
use crate::document;
use crate::dropdown::OpenDropdown;
use crate::edit_buffer::EditState;
use crate::failures::FailureState;
use crate::fitting::CellSpan;
use crate::grid::GridState;
use crate::hub::HubState;
use crate::sizes::SizeState;
use crate::terminal::{Approval, TerminalState};
use crate::text;
use crate::validation_dialog::ValidationDialog;

verus! {

/// What the keyboard acts on.
#[derive(Debug, Clone, Copy, PartialEq, Eq, Structural)]
pub enum Mode {
    Navigation,
    Edit,
    Formula,
    GoTo,
    Preferences,
    About,
    License,
    PasteSpecial,
    ConvertPicker,
    ImportReport,
    ExportReport,
    ValidationDialog,
    AiSettings,
    AiDialog,
    ExplainDiff,
    HubPasteToken,
    HubLink,
    HubPublishConfirm,
    CloudOpen,
}

/// A file, by what the rest of the library reads of its path. `key` is the
/// path with its components spelled one way, so that two spellings of one path
/// have one key; the other parts are absent where the path has none or where
/// they are no text.
#[derive(Debug, PartialEq, Eq)]
pub struct DocPath {
    pub display: String,
    pub key: String,
    pub file_name: Option<String>,
    pub stem: Option<String>,
    pub ext: Option<String>,
    pub parent: Option<String>,
}

impl Clone for DocPath {
    fn clone(&self) -> (r: DocPath)
        ensures
            r == *self,
    {
        DocPath {
            display: self.display.clone(),
            key: self.key.clone(),
            file_name: document::clone_text(&self.file_name),
            stem: document::clone_text(&self.stem),
            ext: document::clone_text(&self.ext),
            parent: document::clone_text(&self.parent),
        }
    }
}

/// Where a document that is not native came from.
#[derive(Debug, PartialEq, Eq)]
pub enum DocumentSource {
    /// Converted from another format on load.
    Imported { filename: String },
    /// Recovered from an earlier session.
    Recovered,
}

/// The identity of a document, for the title bar.
#[derive(Debug, PartialEq, Eq)]
pub struct DocumentMeta {
    pub display_name: String,
    pub is_saved: bool,
    pub is_read_only: bool,
    pub source: Option<DocumentSource>,
    pub path: Option<DocPath>,
}

/// Where the cursor and the visible part of the grid are. The zoom is in
/// thousandths.
#[derive(Debug, Clone, Copy, PartialEq, Eq)]
pub struct ViewState {
    pub selected: (usize, usize),
    pub selection_end: Option<(usize, usize)>,
    pub scroll_row: usize,
    pub scroll_col: usize,
    pub zoom: u32,
}

/// What an import of an Excel file came to.
#[derive(Debug, Clone, Copy, PartialEq, Eq, Structural)]
pub struct ImportReport {
    pub recalc_errors: usize,
    pub recalc_circular: usize,
    pub freeze_applied: bool,
    pub cycles_frozen: usize,
    pub duration_ms: u64,
}

/// What an export to an Excel file came to.
#[derive(Debug, PartialEq, Eq)]
pub struct ExportReport {
    pub has_warnings: bool,
    pub warning_summary: Option<String>,
}

/// The file behind the window.
#[derive(Debug, PartialEq, Eq)]
pub struct FileState {
    pub current_file: Option<DocPath>,
    pub is_modified: bool,
    pub close_after_save: bool,
    pub recent_files: Vec<DocPath>,
    pub meta: DocumentMeta,
    /// The title has to be set anew.
    pub pending_title_refresh: bool,
    pub import_result: Option<ImportReport>,
    pub import_filename: Option<String>,
    pub import_source_dir: Option<String>,
    pub import_in_progress: bool,
    pub import_overlay_visible: bool,
    pub export_result: Option<ExportReport>,
    pub export_filename: Option<String>,
    /// Records of script runs: those in the file, and those since it was saved.
    pub loaded_run_records: Vec<String>,
    pub pending_run_records: Vec<String>,
    /// The scripts that go with the file, and what it says of single cells.
    pub attached_scripts: Vec<String>,
    pub cell_metadata: Vec<String>,
    /// What was approved, as the file says.
    pub approval: Approval,
    /// The fingerprint and the length of the history when it was approved.
    pub approved_fingerprint: Option<String>,
    pub approval_history_len: usize,
}

/// A value of a setting, or that it is left to its default.
#[derive(Debug, Clone, Copy, PartialEq, Eq)]
pub enum Setting<T> {
    Value(T),
    Inherit,
}

#[derive(Debug, Clone, Copy, PartialEq, Eq, Structural)]
pub enum CalculationMode {
    Automatic,
    Manual,
}

/// The settings that go with a document. The tolerance is the bit pattern of a
/// double-precision number.
#[derive(Debug, Clone, Copy, PartialEq, Eq)]
pub struct DocumentSettings {
    pub mode: Setting<CalculationMode>,
    pub enable_iterative_calc: Setting<bool>,
    pub max_iterations: Setting<u32>,
    pub iteration_tolerance: Setting<u64>,
    pub show_formulas: Setting<bool>,
    pub show_zeros: Setting<bool>,
}

/// The last recalculation, as far as cycles go.
#[derive(Debug, Clone, Copy, PartialEq, Eq, Structural)]
pub struct RecalcReport {
    pub cycle_cells: usize,
    pub converged: bool,
}

/// What was last asked of the banner on circular references.
#[derive(Debug, Clone, Copy, PartialEq, Eq, Structural)]
pub enum CycleBanner {
    Reset,
    Forced,
    Dismissed,
}

/// The number of a window that the session does not know yet.
pub const WINDOW_ID_UNSET: u64 = 0xffff_ffff_ffff_ffff;

/// One spreadsheet window.
#[derive(Debug, PartialEq, Eq)]
pub struct Spreadsheet {
    pub mode: Mode,
    pub status_message: Option<String>,
    pub view: ViewState,
    /// Goes up with every change of a cell.
    pub cells_rev: u64,
    /// Goes up with every change of a conditional format.
    pub cf_rules_rev: u64,
    pub lua_console_visible: bool,
    pub sizes: SizeState,
    pub file: FileState,
    pub doc_settings: DocumentSettings,
    pub last_recalc: Option<RecalcReport>,
    pub cycle_banner: CycleBanner,
    pub prompt: PromptState,
    pub dropdown: Option<OpenDropdown>,
    pub failures: FailureState,
    pub validation: ValidationDialog,
    pub grid: GridState,
    pub format_cache: FormatCache,
    pub search_cache: CellSearchCache,
    pub ui: UiState,
    /// The commands that were run, the last one first.
    pub recent_commands: Vec<CommandId>,
    pub terminal: TerminalState,
    pub edit: EditState,
    pub dialogs: DialogState,
    pub extra_selections: Vec<CellSpan>,
    pub ai: AiState,
    pub ask_ai: AskAi,
    pub diff: DiffState,
    pub hub: HubState,
    pub cloud: CloudState,
}

/// A revision number after one more change.
pub open spec fn bumped(rev: u64) -> u64 {
    if rev == u64::MAX {
        0
    } else {
        (rev + 1) as u64
    }
}

/// The view at the top left corner, at the same zoom.
pub open spec fn home_view(v: ViewState) -> ViewState {
    ViewState {
        selected: (0usize, 0usize),
        selection_end: None,
        scroll_row: 0,
        scroll_col: 0,
        ..v
    }
}

/// Settings that are all left to their defaults.
pub open spec fn no_settings() -> DocumentSettings {
    DocumentSettings {
        mode: Setting::Inherit,
        enable_iterative_calc: Setting::Inherit,
        max_iterations: Setting::Inherit,
        iteration_tolerance: Setting::Inherit,
        show_formulas: Setting::Inherit,
        show_zeros: Setting::Inherit,
    }
}

impl DocumentSettings {
    pub fn new() -> (d: DocumentSettings)
        ensures
            d == no_settings(),
    {
        DocumentSettings {
            mode: Setting::Inherit,
            enable_iterative_calc: Setting::Inherit,
            max_iterations: Setting::Inherit,
            iteration_tolerance: Setting::Inherit,
            show_formulas: Setting::Inherit,
            show_zeros: Setting::Inherit,
        }
    }
}

impl Spreadsheet {
    /// A cell has changed.
    pub fn bump_cells_rev(&mut self)
        ensures
            *final(self) == (Spreadsheet { cells_rev: bumped(old(self).cells_rev), ..*old(self) }),
    {
        self.cells_rev = self.cells_rev.wrapping_add(1);
    }

    /// A conditional format has changed.
    pub fn bump_cf_rules_rev(&mut self)
        ensures
            *final(self) == (Spreadsheet {
                cf_rules_rev: bumped(old(self).cf_rules_rev),
                ..*old(self)
            }),
    {
        self.cf_rules_rev = self.cf_rules_rev.wrapping_add(1);
    }

    /// Go to the top left corner.
    pub fn go_home(&mut self)
        ensures
            *final(self) == (Spreadsheet { view: home_view(old(self).view), ..*old(self) }),
    {
        self.view.selected = (0, 0);
        self.view.selection_end = None;
        self.view.scroll_row = 0;
        self.view.scroll_col = 0;
    }

    /// Say something in the status bar.
    pub fn say(&mut self, message: &str)
        ensures
            *final(self) == (Spreadsheet { status_message: final(self).status_message, ..*old(self) }),
            text::opt_text(final(self).status_message) == Some(message@),
    {
        self.status_message = Some(text::lit(message));
    }

    /// Say a text with something behind it in the status bar.
    pub fn say_with(&mut self, message: &str, detail: &str)
        ensures
            *final(self) == (Spreadsheet { status_message: final(self).status_message, ..*old(self) }),
            text::opt_text(final(self).status_message) == Some(message@ + detail@),
    {
        self.status_message = Some(text::cat(message, detail));
    }
}

} // verus!
