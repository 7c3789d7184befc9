//! A window when it opens: its state, its theme, and what it says of the custom
//! functions.

use vstd::prelude::*;

use crate::ai_settings;
use crate::ai_settings::AiState;
use crate::ask_ai;
use crate::ask_ai::{AiVerb, AskAi};
use crate::caches;
use crate::caches::{CellSearchCache, FormatCache};
use crate::chrome;
use crate::chrome::UiState;
use crate::cloud;
use crate::cloud::CloudState;
use crate::default_prompt;
use crate::default_prompt::PromptState;
use crate::dialogs;
use crate::dialogs::DialogState;
use crate::diff_report;
use crate::diff_report::DiffState;
use crate::edit_buffer;
use crate::edit_buffer::EditState;
use crate::failures;
use crate::failures::FailureState;
use crate::grid;
use crate::grid::{GridState, DEFAULT_ZOOM};
use crate::hub;
use crate::hub::HubState;
use crate::sizes;
use crate::sizes::SizeState;
use crate::state;
use crate::state::{
    CycleBanner, DocPath, DocumentMeta, DocumentSettings, FileState, Mode, Spreadsheet, ViewState,
};
use crate::terminal;
use crate::terminal::{Approval, TerminalState};
use crate::text;
use crate::validation_dialog;
use crate::validation_dialog::ValidationDialog;

verus! {

// ---------------------------------------------------------------------------
// State
// ---------------------------------------------------------------------------

/// A window without a file, whose title is still to be set.
pub open spec fn no_file(f: FileState) -> bool {
    &&& f.current_file is None && !f.is_modified && !f.close_after_save
    &&& f.recent_files@.len() == 0 && f.pending_title_refresh
    &&& f.import_result is None && f.import_filename is None && f.import_source_dir is None
    &&& !f.import_in_progress && !f.import_overlay_visible
    &&& f.export_result is None && f.export_filename is None
    &&& f.loaded_run_records@.len() == 0 && f.pending_run_records@.len() == 0
    &&& f.attached_scripts@.len() == 0 && f.cell_metadata@.len() == 0
    &&& f.approval == terminal::no_approval() && f.approved_fingerprint is None
    &&& f.approval_history_len == 0
}

impl FileState {
    pub fn new(meta: DocumentMeta) -> (f: FileState)
        ensures
            no_file(f),
            f.meta == meta,
    {
        FileState {
            current_file: None,
            is_modified: false,
            close_after_save: false,
            recent_files: Vec::new(),
            meta,
            pending_title_refresh: true,
            import_result: None,
            import_filename: None,
            import_source_dir: None,
            import_in_progress: false,
            import_overlay_visible: false,
            export_result: None,
            export_filename: None,
            loaded_run_records: Vec::new(),
            pending_run_records: Vec::new(),
            attached_scripts: Vec::new(),
            cell_metadata: Vec::new(),
            approval: Approval::new(),
            approved_fingerprint: None,
            approval_history_len: 0,
        }
    }
}

/// The view of a new window: the first cell, at the usual zoom.
pub open spec fn first_view() -> ViewState {
    ViewState {
        selected: (0usize, 0usize),
        selection_end: None,
        scroll_row: 0,
        scroll_col: 0,
        zoom: DEFAULT_ZOOM,
    }
}

/// A new window on a new document.
pub open spec fn is_new(s: Spreadsheet, meta: DocumentMeta, sheet_id: u64, rows: usize, cols: usize) -> bool {
    &&& s.mode == Mode::Navigation && s.status_message is None && s.view == first_view()
    &&& s.cells_rev == 1 && s.cf_rules_rev == 1 && !s.lua_console_visible
    &&& sizes::no_sizes(s.sizes, sheet_id, rows, cols)
    &&& no_file(s.file) && s.file.meta == meta
    &&& s.doc_settings == state::no_settings() && s.last_recalc is None
    &&& s.cycle_banner == CycleBanner::Reset
    &&& s.prompt == default_prompt::no_prompt() && s.dropdown is None
    &&& failures::no_failures(s.failures) && s.failures.wf()
    &&& validation_dialog::no_dialog(s.validation)
    &&& grid::no_grid(s.grid) && caches::no_formats(s.format_cache)
    &&& s.search_cache.cached_rev == 0 && s.search_cache.entries@.len() == 0
    &&& chrome::no_chrome(s.ui) && terminal::no_terminal(s.terminal)
    &&& edit_buffer::no_edit(s.edit) && dialogs::no_dialogs(s.dialogs)
    &&& s.extra_selections@.len() == 0 && s.recent_commands@.len() == 0
    &&& ai_settings::no_ai(s.ai) && ask_ai::nothing_asked(s.ask_ai)
    &&& s.ask_ai.verb == AiVerb::InsertFormula
    &&& diff_report::no_diff(s.diff) && s.diff.menu_entry is None
    &&& hub::no_hub(s.hub) && cloud::no_cloud(s.cloud)
}

impl Spreadsheet {
    /// A new window on a new document. `sheet_id` is its first sheet, which has
    /// that many rows and columns.
    pub fn new(meta: DocumentMeta, sheet_id: u64, rows: usize, cols: usize) -> (s: Spreadsheet)
        ensures
            is_new(s, meta, sheet_id, rows, cols),
    {
        Spreadsheet {
            mode: Mode::Navigation,
            status_message: None,
            view: ViewState {
                selected: (0, 0),
                selection_end: None,
                scroll_row: 0,
                scroll_col: 0,
                zoom: DEFAULT_ZOOM,
            },
            // The caches start before the first revision.
            cells_rev: 1,
            cf_rules_rev: 1,
            lua_console_visible: false,
            sizes: SizeState::new(sheet_id, rows, cols),
            file: FileState::new(meta),
            doc_settings: DocumentSettings::new(),
            last_recalc: None,
            cycle_banner: CycleBanner::Reset,
            prompt: PromptState::new(),
            dropdown: None,
            failures: FailureState::new(),
            validation: ValidationDialog::new(),
            grid: GridState::new(),
            format_cache: FormatCache::new(),
            search_cache: CellSearchCache::new(),
            ui: UiState::new(),
            recent_commands: Vec::new(),
            terminal: TerminalState::new(),
            edit: EditState::new(),
            dialogs: DialogState::new(),
            extra_selections: Vec::new(),
            ai: AiState::new(),
            ask_ai: AskAi::new(AiVerb::InsertFormula),
            diff: DiffState::new(),
            hub: HubState::new(),
            cloud: CloudState::new(),
        }
    }

    /// Custom functions were loaded; the window says how many, if there are any.
    pub fn custom_functions_loaded(&mut self, count: usize)
        ensures
            functions_told(*old(self), *final(self), count),
    {
        if count > 0 {
            let n = text::decimal(count as u64);
            let mut m = text::cat3("Loaded ", n.as_str(), " custom function");
            m.append(
                if count == 1 {
                    ""
                } else {
                    "s"
                },
            );
            self.say(m.as_str());
        }
    }
}

impl Spreadsheet {
    /// A file that was asked for is not there.
    pub fn file_not_found(&mut self, path: &DocPath)
        ensures
            hub::only_says(*old(self), *final(self), "File not found: "@ + path.display@),
    {
        self.say_with("File not found: ", path.display.as_str());
    }

    /// A window was opened beside `others`. The second one says how to switch
    /// between windows, once; the result is whether it did.
    pub fn window_tip(&mut self, others: usize, dismissed: bool, macos: bool) -> (shown: bool)
        ensures
            tip_told(*old(self), *final(self), others, dismissed, macos, shown),
    {
        if others != 1 || dismissed {
            return false;
        }
        if macos {
            self.say("Tip: Press Cmd+` to switch between windows");
        } else {
            self.say("Tip: Press Ctrl+` to switch between windows");
        }
        true
    }
}

// ---------------------------------------------------------------------------
// Themes
// ---------------------------------------------------------------------------

/// The theme that goes by the appearance of the system.
pub const SYSTEM_THEME_ID: &'static str = "system";

/// The theme goes by the appearance of the system: it was chosen so, or none
/// was chosen.
pub open spec fn follows_system(choice: Option<Seq<char>>) -> bool {
    match choice {
        Some(id) => id == SYSTEM_THEME_ID@,
        None => true,
    }
}

fn goes_by_system(choice: &Option<String>) -> (r: bool)
    ensures
        r == follows_system(text::opt_text(*choice)),
{
    match choice {
        Some(id) => text::str_eq(id.as_str(), SYSTEM_THEME_ID),
        None => true,
    }
}

/// The theme of a new window; `system` is the theme for the appearance of the
/// system.
pub fn initial_theme_id(choice: &Option<String>, system: &str) -> (r: String)
    ensures
        theme_at_start(text::opt_text(*choice), system@, r@),
{
    if goes_by_system(choice) {
        return text::lit(system);
    }
    match choice {
        Some(id) => id.clone(),
        None => text::lit(system),
    }
}

/// The appearance of the system changed: the theme to show now, if it is
/// another.
pub fn theme_after_change(choice: &Option<String>, current: &str, system: &str) -> (r: Option<String>)
    ensures
        theme_changes(text::opt_text(*choice), current@, system@, text::opt_text(r)),
{
    if goes_by_system(choice) && !text::str_eq(current, system) {
        Some(text::lit(system))
    } else {
        None
    }
}

/// The status bar says how many functions were loaded.
pub open spec fn functions_told(
    old: Spreadsheet,
    new: Spreadsheet,
    count: usize,
) -> bool {
    &&& if count == 0 {
        new == old
    } else {
        hub::only_says(
            old,
            new,
            "Loaded "@ + text::dec(count as nat) + " custom function"@ + if count == 1 {
                ""@
            } else {
                "s"@
            },
        )
    }
}

/// The tip on windows was shown or not.
pub open spec fn tip_told(
    old: Spreadsheet,
    new: Spreadsheet,
    others: usize,
    dismissed: bool,
    macos: bool,
    shown: bool,
) -> bool {
    &&& shown == (others == 1 && !dismissed)
    &&& if shown {
        hub::only_says(
            old,
            new,
            if macos {
                "Tip: Press Cmd+` to switch between windows"@
            } else {
                "Tip: Press Ctrl+` to switch between windows"@
            },
        )
    } else {
        new == old
    }
}

/// The theme to begin with.
pub open spec fn theme_at_start(
    choice: Option<Seq<char>>,
    system: Seq<char>,
    r: Seq<char>,
) -> bool {
    &&& r == if follows_system(choice) {
        system
    } else {
        choice->0
    }
}

/// The theme to show now.
pub open spec fn theme_changes(
    choice: Option<Seq<char>>,
    current: Seq<char>,
    system: Seq<char>,
    r: Option<Seq<char>>,
) -> bool {
    &&& r == if follows_system(choice) && current != system {
        Some(system)
    } else {
        None
    }
}

// ---------------------------------------------------------------------------
// Laws
// ---------------------------------------------------------------------------

/// Nothing that a new window keeps for later is taken for up to date.
pub proof fn new_windows_keep_nothing(
    s: Spreadsheet,
    meta: DocumentMeta,
    sheet_id: u64,
    rows: usize,
    cols: usize,
    cell: u64,
)
    requires
        is_new(s, meta, sheet_id, rows, cols),
    ensures
        s.search_cache.cached_rev != s.cells_rev,
        !caches::kept(s.format_cache, (s.cells_rev, s.cf_rules_rev)).contains_key(cell),
{
}

/// Loaded functions are told by their number, in the plural unless it is one, and
/// nothing is said where there are none.
pub proof fn loaded_functions_are_counted(old: Spreadsheet, new: Spreadsheet, count: usize)
    requires
        functions_told(old, new, count),
    ensures
        new == (Spreadsheet { status_message: new.status_message, ..old }),
        count == 0 ==> new == old,
        count > 0 ==> (new.status_message matches Some(m) && text::contains_text(
            m@,
            text::dec(count as nat),
        ) && (m@.last() == 's' <==> count != 1)),
{
    reveal_strlit("");
    reveal_strlit("s");
    reveal_strlit(" custom function");
    let n = text::dec(count as nat);
    if count == 1 {
        text::a_text_holds_its_parts("Loaded "@, n, " custom function"@, ""@);
        let m = "Loaded "@ + n + " custom function"@ + ""@;
        assert(m =~= "Loaded "@ + n + " custom function"@);
        assert(m.last() == " custom function"@[15]);
    } else if count > 0 {
        text::a_text_holds_its_parts("Loaded "@, n, " custom function"@, "s"@);
        let m = "Loaded "@ + n + " custom function"@ + "s"@;
        assert(m.last() == "s"@[0]);
    }
}

/// The tip on windows comes with the second window alone, and not any more once it
/// was dismissed. It names the key of the system.
pub proof fn a_tip_comes_with_the_second_window(
    old: Spreadsheet,
    new: Spreadsheet,
    others: usize,
    dismissed: bool,
    macos: bool,
    shown: bool,
)
    requires
        tip_told(old, new, others, dismissed, macos, shown),
    ensures
        dismissed || others != 1 ==> !shown && new == old,
        !dismissed && others == 1 ==> shown && (new.status_message matches Some(m) && m@[11] == 'C'
            && m@[12] == (if macos {
            'm'
        } else {
            't'
        })),
        new == (Spreadsheet { status_message: new.status_message, ..old }),
{
    reveal_strlit("Tip: Press Cmd+` to switch between windows");
    reveal_strlit("Tip: Press Ctrl+` to switch between windows");
}

/// A theme that was chosen is shown whatever the system looks like. Otherwise the
/// window looks like the system from the start and after each change.
pub proof fn a_chosen_theme_stays(
    choice: Option<Seq<char>>,
    current: Seq<char>,
    system: Seq<char>,
    first: Seq<char>,
    next: Option<Seq<char>>,
)
    requires
        theme_at_start(choice, system, first),
        theme_changes(choice, current, system, next),
    ensures
        choice is None ==> first == system,
        choice matches Some(id) ==> first == id || (id == SYSTEM_THEME_ID@ && first == system),
        choice matches Some(id) ==> (id != SYSTEM_THEME_ID@ ==> next is None),
        choice is None || choice == Some(SYSTEM_THEME_ID@) ==> first == system && (match next {
            Some(t) => t,
            None => current,
        }) == system,
        next matches Some(t) ==> t != current,
{
}

} // verus!
