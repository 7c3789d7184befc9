//! Opening, importing, saving and exporting files.

use vstd::prelude::*;

use crate::cloud::{CloudIdentity, CloudState, CloudSyncState, NativeLayout};
use crate::document;
use crate::grid::GridState;
use crate::hub::{HubLink, HubState, HubStatus};
use crate::sheet_layouts;
use crate::sheet_layouts::ImportedLayout;
use crate::sizes;
use crate::sizes::SizeState;
use crate::state::{
    CalculationMode, CycleBanner, DocPath, DocumentMeta, DocumentSettings,
    FileState, ImportReport, Mode, RecalcReport, Setting, Spreadsheet,
};
use crate::terminal;
use crate::terminal::Approval;
use crate::text;

verus! {

/// How long an import runs before it is shown, in milliseconds.
pub const OVERLAY_DELAY_MS: u64 = 150;

/// The extension of native files.
pub const NATIVE_EXT: &'static str = "vgrid";

/// How many files the list of recent files holds.
pub const MAX_RECENT: usize = 10;

// ---------------------------------------------------------------------------
// Names and extensions
// ---------------------------------------------------------------------------

/// The numbers of new workbooks in this run of the program.
#[derive(Debug, PartialEq, Eq)]
pub struct BookCounter {
    pub next: u32,
}

impl BookCounter {
    pub fn new() -> (c: BookCounter)
        ensures
            c.next == 1,
    {
        BookCounter { next: 1 }
    }
}

/// The name of the next new workbook: Book1, Book2 and so on.
pub fn next_book_name(counter: &mut BookCounter) -> (r: String)
    ensures
        r@ == "Book"@ + text::dec(old(counter).next as nat),
        final(counter).next == if old(counter).next == u32::MAX {
            0u32
        } else {
            (old(counter).next + 1) as u32
        },
{
    let n: u32 = counter.next;
    counter.next = n.wrapping_add(1);
    let d = text::decimal(n as u64);
    text::cat("Book", d.as_str())
}

/// The extensions whose files need no word on where they came from.
pub open spec fn is_native(ext: Seq<char>) -> bool {
    let e = text::lowercased(ext);
    e == "vgrid"@ || e == "xlsx"@ || e == "xls"@ || e == "xlsb"@ || e == "xlsm"@ || e == "sheet"@
}

/// Whether files with this extension need no word on where they came from.
pub fn is_native_ext(ext: &str) -> (r: bool)
    ensures
        r == is_native(ext@),
{
    let e = text::to_lowercase(ext);
    let e = e.as_str();
    text::str_eq(e, "vgrid") || text::str_eq(e, "xlsx") || text::str_eq(e, "xls") || text::str_eq(
        e,
        "xlsb",
    ) || text::str_eq(e, "xlsm") || text::str_eq(e, "sheet")
}

/// The name under which a file is shown.
pub fn display_filename(path: &DocPath) -> (r: String)
    ensures
        r@ == crate::hub::name_or(*path, "Untitled"@),
{
    crate::hub::file_name_or(path, "Untitled")
}

pub open spec fn ext_lowered(p: DocPath) -> Option<Seq<char>> {
    match p.ext {
        Some(e) => Some(text::lowercased(e@)),
        None => None,
    }
}

/// The extension of a file in lower case.
pub fn ext_lower(path: &DocPath) -> (r: Option<String>)
    ensures
        text::opt_text(r) == ext_lowered(*path),
{
    match &path.ext {
        Some(e) => Some(text::to_lowercase(e.as_str())),
        None => None,
    }
}

/// Files with these extensions are written in place.
pub open spec fn is_own_format(p: DocPath) -> bool {
    ext_lowered(p) == Some("sheet"@) || ext_lowered(p) == Some("vgrid"@)
}

pub(crate) fn own_format(path: &DocPath) -> (r: bool)
    ensures
        r == is_own_format(*path),
{
    match ext_lower(path) {
        Some(e) => text::str_eq(e.as_str(), "sheet") || text::str_eq(e.as_str(), "vgrid"),
        None => false,
    }
}

// ---------------------------------------------------------------------------
// Recent files
// ---------------------------------------------------------------------------

/// The list without the entries of one file.
pub open spec fn without_file(v: Seq<DocPath>, key: Seq<char>) -> Seq<DocPath>
    decreases v.len(),
{
    if v.len() == 0 {
        Seq::empty()
    } else {
        let rest = without_file(v.drop_last(), key);
        if v.last().key@ == key {
            rest
        } else {
            rest.push(v.last())
        }
    }
}

/// The list with a file at its front, where it stands only once, and with no
/// more than [`MAX_RECENT`] files.
pub open spec fn recent_after(v: Seq<DocPath>, p: DocPath) -> Seq<DocPath> {
    let all = seq![p] + without_file(v, p.key@);
    if all.len() > MAX_RECENT {
        all.take(MAX_RECENT as int)
    } else {
        all
    }
}

impl Spreadsheet {
    /// Put a file at the front of the list of recent files.
    pub fn add_recent_file(&mut self, path: &DocPath)
        ensures
            *final(self) == (Spreadsheet {
                file: FileState { recent_files: final(self).file.recent_files, ..old(self).file },
                ..*old(self)
            }),
            final(self).file.recent_files@ == recent_after(old(self).file.recent_files@, *path),
    {
        let mut list: Vec<DocPath> = Vec::new();
        list.push(path.clone());
        let mut i: usize = 0;
        let ghost all = self.file.recent_files@;
        assert(all.take(0) =~= Seq::empty());
        assert(list@ =~= seq![*path] + without_file(all.take(0), path.key@));
        while i < self.file.recent_files.len()
            invariant
                i <= self.file.recent_files.len(),
                all == self.file.recent_files@,
                list@ == seq![*path] + without_file(all.take(i as int), path.key@),
            decreases self.file.recent_files.len() - i,
        {
            assert(all.take(i + 1).drop_last() =~= all.take(i as int));
            assert(all.take(i + 1).last() == all[i as int]);
            if self.file.recent_files[i].key != path.key {
                list.push(self.file.recent_files[i].clone());
                assert(list@ =~= seq![*path] + without_file(all.take(i + 1), path.key@));
            }
            i = i + 1;
        }
        assert(all.take(all.len() as int) =~= all);
        list.truncate(MAX_RECENT);
        self.file.recent_files = list;
    }
}

// ---------------------------------------------------------------------------
// New and loaded documents
// ---------------------------------------------------------------------------

/// What is done to a window when it gets another document: the view goes home,
/// the cells count as changed, and the title has to be set anew.
pub open spec fn document_entered(old: Spreadsheet, new: Spreadsheet) -> bool {
    &&& new.view == crate::state::home_view(old.view)
    &&& new.cells_rev == crate::state::bumped(old.cells_rev)
    &&& new.grid == live_grid(old.grid)
    &&& new.file.pending_title_refresh
}

/// The grid when the document itself is shown, and no earlier state of it.
pub open spec fn live_grid(g: GridState) -> GridState {
    GridState { previewing: false, ..g }
}

/// The sizes when another sheet is shown.
pub open spec fn on_sheet(s: SizeState, id: u64) -> SizeState {
    SizeState { sheet_id: id, ..s }
}

/// What is done to a window when it gets the document of a file.
pub open spec fn file_entered(
    old: Spreadsheet,
    new: Spreadsheet,
    path: DocPath,
    meta: DocumentMeta,
    sheet: u64,
) -> bool {
    &&& new == (Spreadsheet {
        view: crate::state::home_view(old.view),
        cells_rev: crate::state::bumped(old.cells_rev),
        grid: live_grid(old.grid),
        sizes: on_sheet(old.sizes, sheet),
        file: FileState {
            current_file: Some(path),
            is_modified: false,
            meta,
            pending_title_refresh: true,
            recent_files: new.file.recent_files,
            ..old.file
        },
        ..old
    })
    &&& new.file.recent_files@ == recent_after(old.file.recent_files@, path)
}

impl Spreadsheet {
    fn enter_file(&mut self, path: &DocPath, meta: DocumentMeta, sheet: u64)
        ensures
            file_entered(*old(self), *final(self), *path, meta, sheet),
    {
        self.update_cached_sheet_id(sheet);
        self.grid.previewing = false;
        self.go_home();
        self.bump_cells_rev();
        self.add_recent_file(path);
        self.file.current_file = Some(path.clone());
        self.file.is_modified = false;
        self.file.meta = meta;
        self.file.pending_title_refresh = true;
    }

    /// Start over with an empty workbook in this window. Unsaved changes are
    /// gone; `meta` is the identity of the new document, and `sheet` the sheet
    /// that is shown.
    pub fn new_in_place(&mut self, meta: DocumentMeta, sheet: u64)
        ensures
            *final(self) == (Spreadsheet {
                status_message: final(self).status_message,
                view: crate::state::home_view(old(self).view),
                cells_rev: crate::state::bumped(old(self).cells_rev),
                doc_settings: crate::state::no_settings(),
                cycle_banner: CycleBanner::Reset,
                grid: live_grid(old(self).grid),
                sizes: on_sheet(old(self).sizes, sheet),
                file: FileState {
                    current_file: None,
                    is_modified: false,
                    meta,
                    pending_title_refresh: true,
                    ..old(self).file
                },
                ..*old(self)
            }),
            text::opt_text(final(self).status_message) == Some("New workbook created"@),
    {
        self.update_cached_sheet_id(sheet);
        self.grid.previewing = false;
        self.cycle_banner = CycleBanner::Reset;
        self.file.current_file = None;
        self.file.is_modified = false;
        self.doc_settings = DocumentSettings::new();
        self.go_home();
        self.bump_cells_rev();
        self.file.meta = meta;
        self.file.pending_title_refresh = true;
        self.say("New workbook created");
    }
}

/// How a file is opened.
#[derive(Debug, Clone, Copy, PartialEq, Eq, Structural)]
pub enum LoadPlan {
    /// Import an Excel file in the background.
    ExcelInBackground,
    /// Import an Excel file while the window waits.
    ExcelNow,
    /// Import comma-separated values in the background.
    CsvInBackground,
    /// Import tab-separated values in the background.
    TsvInBackground,
    /// Load a native file while the window waits.
    Native,
    /// There is no such kind of file.
    Refused,
}

/// The extension of a file, empty where it has none.
pub open spec fn ext_or_empty(p: DocPath) -> Seq<char> {
    match p.ext {
        Some(e) => e@,
        None => Seq::empty(),
    }
}

pub open spec fn is_excel_ext(e: Seq<char>) -> bool {
    e == "xlsx"@ || e == "xls"@ || e == "xlsb"@ || e == "xlsm"@ || e == "ods"@
}

/// How a file with this extension, in lower case, is opened.
pub open spec fn plan_for(e: Seq<char>, pro: bool) -> LoadPlan {
    if is_excel_ext(e) {
        if pro {
            LoadPlan::ExcelInBackground
        } else {
            LoadPlan::ExcelNow
        }
    } else if e == "csv"@ {
        LoadPlan::CsvInBackground
    } else if e == "tsv"@ {
        LoadPlan::TsvInBackground
    } else if e == "sheet"@ || e == "vgrid"@ {
        LoadPlan::Native
    } else {
        LoadPlan::Refused
    }
}

pub open spec fn file_name_or_file(p: DocPath) -> Seq<char> {
    crate::hub::name_or(p, "file"@)
}

/// A background import of an Excel file has started.
pub open spec fn excel_import_started(old: Spreadsheet, new: Spreadsheet, path: DocPath) -> bool {
    &&& new == (Spreadsheet {
        status_message: new.status_message,
        cycle_banner: CycleBanner::Reset,
        file: FileState {
            import_in_progress: true,
            import_overlay_visible: false,
            ..old.file
        },
        ..old
    })
    &&& text::opt_text(new.status_message) == Some(
        "Importing "@ + file_name_or_file(path) + "..."@,
    )
}

/// A background import of separated values has started.
pub open spec fn csv_import_started(old: Spreadsheet, new: Spreadsheet, path: DocPath) -> bool {
    &&& new == (Spreadsheet {
        status_message: new.status_message,
        file: FileState {
            import_in_progress: true,
            import_overlay_visible: false,
            import_filename: new.file.import_filename,
            ..old.file
        },
        ..old
    })
    &&& text::opt_text(new.file.import_filename) == Some(file_name_or_file(path))
    &&& text::opt_text(new.status_message) == Some(
        "Importing "@ + file_name_or_file(path) + "..."@,
    )
}

impl Spreadsheet {
    /// Start to open a file: by its extension it is imported, loaded or
    /// refused. `pro` is whether large files are imported in the background.
    pub fn load_file(&mut self, path: &DocPath, pro: bool) -> (plan: LoadPlan)
        ensures
            plan == plan_for(text::lowercased(ext_or_empty(*path)), pro),
            match plan {
                LoadPlan::ExcelInBackground => excel_import_started(*old(self), *final(self), *path),
                LoadPlan::ExcelNow => {
                    &&& *final(self) == (Spreadsheet {
                        status_message: final(self).status_message,
                        cycle_banner: CycleBanner::Reset,
                        ..*old(self)
                    })
                    &&& text::opt_text(final(self).status_message) == Some(
                        "Importing... (upgrade to Pro for faster large file imports)"@,
                    )
                },
                LoadPlan::CsvInBackground => csv_import_started(*old(self), *final(self), *path),
                LoadPlan::TsvInBackground => csv_import_started(*old(self), *final(self), *path),
                LoadPlan::Native => *final(self) == *old(self),
                LoadPlan::Refused => crate::hub::only_says(
                    *old(self),
                    *final(self),
                    "Error opening file: Unknown file type: "@ + ext_or_empty(*path),
                ),
            },
    {
        let ext = match &path.ext {
            Some(e) => e.clone(),
            None => String::new(),
        };
        let lower = text::to_lowercase(ext.as_str());
        let e = lower.as_str();
        if text::str_eq(e, "xlsx") || text::str_eq(e, "xls") || text::str_eq(e, "xlsb")
            || text::str_eq(e, "xlsm") || text::str_eq(e, "ods") {
            if pro {
                self.start_excel_import(path);
                return LoadPlan::ExcelInBackground;
            }
            self.say("Importing... (upgrade to Pro for faster large file imports)");
            self.cycle_banner = CycleBanner::Reset;
            return LoadPlan::ExcelNow;
        }
        if text::str_eq(e, "csv") {
            self.start_csv_import(path);
            return LoadPlan::CsvInBackground;
        }
        if text::str_eq(e, "tsv") {
            self.start_csv_import(path);
            return LoadPlan::TsvInBackground;
        }
        if text::str_eq(e, "sheet") || text::str_eq(e, "vgrid") {
            return LoadPlan::Native;
        }
        self.say_with("Error opening file: Unknown file type: ", ext.as_str());
        LoadPlan::Refused
    }

    /// Start the import of an Excel file in the background.
    pub fn start_excel_import(&mut self, path: &DocPath)
        ensures
            excel_import_started(*old(self), *final(self), *path),
    {
        let name = crate::hub::file_name_or(path, "file");
        self.file.import_in_progress = true;
        self.file.import_overlay_visible = false;
        self.cycle_banner = CycleBanner::Reset;
        let m = text::cat3("Importing ", name.as_str(), "...");
        self.say(m.as_str());
    }

    /// Start the import of separated values in the background.
    pub fn start_csv_import(&mut self, path: &DocPath)
        ensures
            csv_import_started(*old(self), *final(self), *path),
    {
        let name = crate::hub::file_name_or(path, "file");
        self.file.import_in_progress = true;
        self.file.import_overlay_visible = false;
        let m = text::cat3("Importing ", name.as_str(), "...");
        self.file.import_filename = Some(name);
        self.say(m.as_str());
    }

    /// [`OVERLAY_DELAY_MS`] have passed since an import was started: it is
    /// shown, if it still runs.
    pub fn import_overlay_due(&mut self)
        ensures
            *final(self) == (Spreadsheet {
                file: FileState {
                    import_overlay_visible: old(self).file.import_overlay_visible || old(
                        self,
                    ).file.import_in_progress,
                    ..old(self).file
                },
                ..*old(self)
            }),
    {
        if self.file.import_in_progress {
            self.file.import_overlay_visible = true;
        }
    }

    /// Hide the running import; it goes on.
    pub fn dismiss_import_overlay(&mut self)
        ensures
            *final(self) == (Spreadsheet {
                file: FileState { import_overlay_visible: false, ..old(self).file },
                ..*old(self)
            }),
    {
        self.file.import_overlay_visible = false;
    }
}

/// The text of a duration: milliseconds below a second, else seconds.
/// `seconds` is the duration in seconds with two decimals.
pub open spec fn duration_text(ms: u64, seconds: Seq<char>) -> Seq<char> {
    if ms >= 1000 {
        seconds + "s"@
    } else {
        text::dec(ms as nat) + "ms"@
    }
}

fn duration_string(ms: u64, seconds: &str) -> (r: String)
    ensures
        r@ == duration_text(ms, seconds@),
{
    if ms >= 1000 {
        text::cat(seconds, "s")
    } else {
        let d = text::decimal(ms);
        text::cat(d.as_str(), "ms")
    }
}

/// `Opened NAME in DURATION`, with the number of named ranges if there are any.
pub open spec fn opened_text(name: Seq<char>, duration: Seq<char>, named: nat) -> Seq<char> {
    let front = "Opened "@ + name + " in "@ + duration;
    if named > 0 {
        front + " ("@ + text::dec(named) + " named ranges)"@
    } else {
        front
    }
}

fn opened_string(name: &str, duration: &str, named: usize) -> (r: String)
    ensures
        r@ == opened_text(name@, duration@, named as nat),
{
    let mut m = text::lit("Opened ");
    m.append(name);
    m.append(" in ");
    m.append(duration);
    if named > 0 {
        m.append(" (");
        let n = text::decimal(named as u64);
        m.append(n.as_str());
        m.append(" named ranges)");
    }
    m
}

// ---------------------------------------------------------------------------
// A native file has been loaded
// ---------------------------------------------------------------------------

/// What was found when a native file was loaded.
#[derive(Debug, PartialEq, Eq)]
pub struct NativeLoad {
    pub meta: DocumentMeta,
    /// The sheet that is shown.
    pub sheet: u64,
    pub settings: DocumentSettings,
    pub layout: NativeLayout,
    pub cloud: Result<Option<CloudIdentity>, String>,
    pub hub: Result<Option<HubLink>, String>,
    pub run_records: Vec<String>,
    pub scripts: Vec<String>,
    pub cell_metadata: Vec<String>,
    /// What was approved, as the file says.
    pub approval: Result<Approval, String>,
    /// The fingerprint of the history of the window.
    pub history: String,
    pub named_ranges: usize,
    pub duration_ms: u64,
    /// The duration in seconds with two decimals.
    pub duration_secs: String,
}

/// How the engine calculates. Without a tolerance of its own the document has
/// the default one.
#[derive(Debug, Clone, Copy, PartialEq, Eq)]
pub struct CalcConfig {
    pub auto: bool,
    pub iterative: bool,
    pub max_iters: u32,
    pub tolerance: Option<u64>,
}

/// What is left to do when a native file was loaded.
#[derive(Debug, Clone, Copy, PartialEq, Eq)]
pub struct NativeLoaded {
    /// How the engine has to calculate.
    pub config: CalcConfig,
    /// The columns with data are fitted to it.
    pub fit_columns: bool,
}

/// A setting, or its default.
pub open spec fn resolved<T>(s: Setting<T>, default: T) -> T {
    match s {
        Setting::Value(v) => v,
        Setting::Inherit => default,
    }
}

/// How the engine calculates under the settings of a document.
pub open spec fn calc_config(d: DocumentSettings) -> CalcConfig {
    CalcConfig {
        auto: resolved(d.mode, CalculationMode::Automatic) != CalculationMode::Manual,
        iterative: resolved(d.enable_iterative_calc, false),
        max_iters: resolved(d.max_iterations, 100u32),
        tolerance: match d.iteration_tolerance {
            Setting::Value(t) => Some(t),
            Setting::Inherit => None,
        },
    }
}

/// How the engine calculates under the settings of a document.
pub fn calculation_config(d: &DocumentSettings) -> (c: CalcConfig)
    ensures
        c == calc_config(*d),
{
    let auto = match d.mode {
        Setting::Value(CalculationMode::Manual) => false,
        _ => true,
    };
    let iterative = match d.enable_iterative_calc {
        Setting::Value(v) => v,
        Setting::Inherit => false,
    };
    let max_iters: u32 = match d.max_iterations {
        Setting::Value(v) => v,
        Setting::Inherit => 100,
    };
    let tolerance = match d.iteration_tolerance {
        Setting::Value(t) => Some(t),
        Setting::Inherit => None,
    };
    CalcConfig { auto, iterative, max_iters, tolerance }
}

/// The cloud part of a window after a native file was loaded: a `.sheet` file
/// says whether it belongs to the cloud, any other file leaves it as it was.
pub open spec fn cloud_after_load(old: CloudState, new: CloudState, sheet_file: bool, found: Result<
    Option<CloudIdentity>,
    String,
>) -> bool {
    if sheet_file {
        match found {
            Ok(Some(i)) => new == (CloudState {
                identity: Some(i),
                sync_state: CloudSyncState::Synced,
                ..old
            }),
            _ => new == (CloudState { identity: None, sync_state: CloudSyncState::Local, ..old }),
        }
    } else {
        new == old
    }
}

/// The hub part of a window after a native file was loaded.
pub open spec fn hub_after_load(old: HubState, new: HubState, sheet_file: bool, found: Result<
    Option<HubLink>,
    String,
>) -> bool {
    match found {
        Ok(Some(l)) => if sheet_file {
            new == (HubState { link: Some(l), status: HubStatus::Idle, ..old })
        } else {
            new == (HubState { link: None, status: HubStatus::Unlinked, ..old })
        },
        _ => new == (HubState { link: None, status: HubStatus::Unlinked, ..old }),
    }
}

/// The sizes of the sheets after a native file was loaded: a `.sheet` file
/// holds them, any other file leaves only what is hidden.
pub open spec fn sizes_after_load(
    old: SizeState,
    new: SizeState,
    sheet_file: bool,
    layout: NativeLayout,
    ids: Seq<u64>,
) -> bool {
    if sheet_file {
        &&& new == (SizeState { sheets: new.sheets, ..old })
        &&& forall|i: int|
            0 <= i < ids.len() ==> new.at(#[trigger] ids[i]) == sheet_layouts::native_at(
                layout,
                i as usize,
            )
        &&& forall|id: u64| !ids.contains(id) ==> #[trigger] new.at(id) == sizes::no_dims()
    } else {
        sheet_layouts::sizes_cleared(old, new)
    }
}

/// What was approved, after a native file was loaded: a `.sheet` file says it,
/// and where it expects a fingerprint the history is held against what it is
/// now. Any other file leaves it as it was.
pub open spec fn approval_after_load(
    old: FileState,
    new: FileState,
    path: DocPath,
    found: Result<Approval, String>,
    history: Seq<char>,
) -> bool {
    if path.ext matches Some(e) && e@ == "sheet"@ {
        &&& new.approval == match found {
            Ok(a) => a,
            Err(_) => terminal::no_approval(),
        }
        &&& if new.approval.fingerprint is Some {
            text::opt_text(new.approved_fingerprint) == Some(history) && new.approval_history_len
                == 0
        } else {
            new.approved_fingerprint == old.approved_fingerprint && new.approval_history_len
                == old.approval_history_len
        }
    } else {
        &&& new.approval == old.approval
        &&& new.approved_fingerprint == old.approved_fingerprint
        &&& new.approval_history_len == old.approval_history_len
    }
}

impl FileState {
    fn take_approval(&mut self, path: &DocPath, found: Result<Approval, String>, history: &str)
        ensures
            *final(self) == (FileState {
                approval: final(self).approval,
                approved_fingerprint: final(self).approved_fingerprint,
                approval_history_len: final(self).approval_history_len,
                ..*old(self)
            }),
            approval_after_load(*old(self), *final(self), *path, found, history@),
    {
        if reads_verification(path) {
            self.approval = match found {
                Ok(a) => a,
                Err(_) => Approval::new(),
            };
            if self.approval.fingerprint.is_some() {
                self.approved_fingerprint = Some(text::lit(history));
                self.approval_history_len = 0;
            }
        }
    }

    fn take_records(
        &mut self,
        sheet_file: bool,
        run_records: Vec<String>,
        scripts: Vec<String>,
        cell_metadata: Vec<String>,
    )
        ensures
            *final(self) == (FileState {
                loaded_run_records: final(self).loaded_run_records,
                pending_run_records: final(self).pending_run_records,
                attached_scripts: final(self).attached_scripts,
                cell_metadata: final(self).cell_metadata,
                ..*old(self)
            }),
            final(self).loaded_run_records@ == if sheet_file {
                run_records@
            } else {
                Seq::empty()
            },
            final(self).pending_run_records@.len() == 0,
            final(self).attached_scripts@ == if sheet_file {
                scripts@
            } else {
                Seq::empty()
            },
            final(self).cell_metadata@ == if sheet_file {
                cell_metadata@
            } else {
                Seq::empty()
            },
    {
        self.pending_run_records = Vec::new();
        if sheet_file {
            self.loaded_run_records = run_records;
            self.attached_scripts = scripts;
            self.cell_metadata = cell_metadata;
        } else {
            self.loaded_run_records = Vec::new();
            self.attached_scripts = Vec::new();
            self.cell_metadata = Vec::new();
        }
    }
}

impl Spreadsheet {
    fn take_layout(&mut self, sheet_file: bool, layout: &NativeLayout, ids: &Vec<u64>)
        requires
            ids@.no_duplicates(),
        ensures
            *final(self) == (Spreadsheet { sizes: final(self).sizes, ..*old(self) }),
            sizes_after_load(old(self).sizes, final(self).sizes, sheet_file, *layout, ids@),
    {
        if sheet_file {
            self.apply_sheet_layout(layout, ids);
        } else {
            self.clear_sizes();
        }
    }

    fn take_cloud(&mut self, sheet_file: bool, found: Result<Option<CloudIdentity>, String>)
        ensures
            *final(self) == (Spreadsheet { cloud: final(self).cloud, ..*old(self) }),
            cloud_after_load(old(self).cloud, final(self).cloud, sheet_file, found),
    {
        if sheet_file {
            match found {
                Ok(Some(i)) => {
                    self.cloud.identity = Some(i);
                    self.cloud.sync_state = CloudSyncState::Synced;
                },
                _ => {
                    self.cloud.identity = None;
                    self.cloud.sync_state = CloudSyncState::Local;
                },
            }
        }
    }

    fn take_hub(&mut self, sheet_file: bool, found: Result<Option<HubLink>, String>)
        ensures
            *final(self) == (Spreadsheet { hub: final(self).hub, ..*old(self) }),
            hub_after_load(old(self).hub, final(self).hub, sheet_file, found),
    {
        match found {
            Ok(Some(l)) => if sheet_file {
                self.hub.link = Some(l);
                self.hub.status = HubStatus::Idle;
            } else {
                self.hub.link = None;
                self.hub.status = HubStatus::Unlinked;
            },
            _ => {
                self.hub.link = None;
                self.hub.status = HubStatus::Unlinked;
            },
        }
    }

    /// A native file was loaded into the window, or could not be. `ids` are the
    /// sheets of its workbook, and the result is what is left to do.
    pub fn native_file_loaded(
        &mut self,
        path: &DocPath,
        ids: &Vec<u64>,
        loaded: Result<NativeLoad, String>,
    ) -> (left: Option<NativeLoaded>)
        requires
            ids@.no_duplicates(),
        ensures
            match loaded {
                Err(e) => left is None && crate::hub::only_says(
                    *old(self),
                    *final(self),
                    "Error opening file: "@ + e@,
                ),
                Ok(n) => native_entered(*old(self), *final(self), *path, ids@, n, left),
            },
    {
        match loaded {
            Err(e) => {
                self.say_with("Error opening file: ", e.as_str());
                None
            },
            Ok(n) => {
                let sheet_file = match ext_lower(path) {
                    Some(e) => text::str_eq(e.as_str(), "sheet"),
                    None => false,
                };
                self.file.import_result = None;
                self.file.import_filename = None;
                self.file.import_source_dir = None;
                let config = calculation_config(&n.settings);
                let fit_columns = sheet_file && n.cell_metadata.len() > 0;
                self.doc_settings = n.settings;
                self.enter_file(path, n.meta, n.sheet);
                self.take_layout(sheet_file, &n.layout, ids);
                self.take_cloud(sheet_file, n.cloud);
                self.take_hub(sheet_file, n.hub);
                self.file.take_approval(path, n.approval, n.history.as_str());
                self.file.take_records(sheet_file, n.run_records, n.scripts, n.cell_metadata);
                let name = crate::hub::file_name_or(path, "file");
                let duration = duration_string(n.duration_ms, n.duration_secs.as_str());
                let m = opened_string(name.as_str(), duration.as_str(), n.named_ranges);
                self.say(m.as_str());
                Some(NativeLoaded { config, fit_columns })
            },
        }
    }
}

/// Whether the fingerprint that a file expects is looked for in it.
pub fn reads_verification(path: &DocPath) -> (r: bool)
    ensures
        r == (path.ext matches Some(e) && e@ == "sheet"@),
{
    match &path.ext {
        Some(e) => text::str_eq(e.as_str(), "sheet"),
        None => false,
    }
}

// ---------------------------------------------------------------------------
// Excel imports
// ---------------------------------------------------------------------------

/// How an Excel file is imported: in the background or not, and with options
/// that freeze cycles or not.
#[derive(Debug, Clone, Copy, PartialEq, Eq, Structural)]
pub struct ExcelImport {
    pub background: bool,
    pub with_options: bool,
}

/// What was found when an Excel file was imported.
#[derive(Debug, PartialEq, Eq)]
pub struct ExcelLoad {
    pub meta: DocumentMeta,
    /// The sheet that is shown.
    pub sheet: u64,
    pub report: ImportReport,
    pub layouts: Vec<ImportedLayout>,
    pub duration_ms: u64,
    /// The duration in seconds with two decimals.
    pub duration_secs: String,
    /// The engine iterates over cycles.
    pub iterative: bool,
}

/// What is said when an Excel file was imported.
pub open spec fn excel_text(name: Seq<char>, duration: Seq<char>, r: ImportReport, with_options: bool) -> Seq<
    char,
> {
    let total = (r.recalc_errors + r.recalc_circular) as nat;
    let note = if r.freeze_applied {
        " ("@ + text::dec(r.cycles_frozen as nat) + " cycles frozen)"@
    } else {
        Seq::empty()
    };
    let front = "Opened "@ + name + " in "@ + duration + " — "@;
    if with_options {
        if total > 0 {
            front + text::dec(total) + " errors"@ + note
        } else {
            front + "0 errors"@ + note
        }
    } else if total > 0 {
        front + text::dec(total) + " errors (Import Report)"@
    } else {
        front + "0 errors"@
    }
}

fn excel_string(name: &str, duration: &str, r: &ImportReport, with_options: bool) -> (m: String)
    requires
        r.recalc_errors + r.recalc_circular <= usize::MAX,
    ensures
        m@ == excel_text(name@, duration@, *r, with_options),
{
    let total: usize = r.recalc_errors + r.recalc_circular;
    let note = if r.freeze_applied {
        let n = text::decimal(r.cycles_frozen as u64);
        text::cat3(" (", n.as_str(), " cycles frozen)")
    } else {
        String::new()
    };
    let mut m = text::lit("Opened ");
    m.append(name);
    m.append(" in ");
    m.append(duration);
    m.append(" — ");
    if total > 0 {
        let n = text::decimal(total as u64);
        m.append(n.as_str());
        if with_options {
            m.append(" errors");
            m.append(note.as_str());
        } else {
            m.append(" errors (Import Report)");
        }
    } else {
        m.append("0 errors");
        if with_options {
            m.append(note.as_str());
        }
    }
    m
}

/// The number of cells in cycles: by the last recalculation, else by the
/// import.
pub open spec fn cycle_count(last: Option<RecalcReport>, import: Option<ImportReport>) -> usize {
    match last {
        Some(r) => r.cycle_cells,
        None => match import {
            Some(i) => i.recalc_circular,
            None => 0,
        },
    }
}

/// There is something to say about cycles.
pub open spec fn banner_wanted(
    last: Option<RecalcReport>,
    import: Option<ImportReport>,
    iterative: bool,
) -> bool {
    cycle_count(last, import) > 0 || (import matches Some(i) && i.freeze_applied) || iterative
}

/// The import report is opened without being asked for.
pub open spec fn report_wanted(r: ImportReport, with_options: bool) -> bool {
    r.recalc_errors > 0 || r.recalc_circular > 0 || (with_options && r.freeze_applied)
}

impl Spreadsheet {
    /// An Excel file was imported into the window, or could not be. `ids` are
    /// the sheets of its workbook.
    pub fn excel_imported(
        &mut self,
        path: &DocPath,
        ids: &Vec<u64>,
        kind: ExcelImport,
        imported: Result<ExcelLoad, String>,
    )
        requires
            ids@.no_duplicates(),
            imported matches Ok(l) ==> l.report.recalc_errors + l.report.recalc_circular
                <= usize::MAX,
        ensures
            match imported {
                Err(e) => import_failed(*old(self), *final(self), kind.background, e),
                Ok(l) => excel_entered(*old(self), *final(self), *path, ids@, kind, l),
            },
    {
        if kind.background {
            self.file.import_in_progress = false;
            self.file.import_overlay_visible = false;
        }
        match imported {
            Err(e) => {
                self.file.import_result = None;
                self.file.import_filename = None;
                self.file.import_source_dir = None;
                self.say_with("Import failed: ", e.as_str());
            },
            Ok(l) => {
                let name = crate::hub::file_name_or(path, "file");
                self.file.import_source_dir = document::clone_text(&path.parent);
                self.doc_settings = DocumentSettings::new();
                self.enter_file(path, l.meta, l.sheet);
                let report = ImportReport { duration_ms: l.duration_ms, ..l.report };
                let duration = duration_string(l.duration_ms, l.duration_secs.as_str());
                let m = excel_string(name.as_str(), duration.as_str(), &report, kind.with_options);
                self.apply_imported_layouts(&l.layouts, ids);
                self.file.import_filename = Some(name);
                self.file.import_result = Some(report);
                self.say(m.as_str());
                if self.should_show_cycle_banner(l.iterative) {
                    self.cycle_banner = CycleBanner::Forced;
                }
                if report.recalc_errors > 0 || report.recalc_circular > 0 || (kind.with_options
                    && report.freeze_applied) {
                    self.show_import_report();
                }
            },
        }
    }

    /// The sheet to show again after an import with options.
    pub fn restored_sheet(restore: usize, sheet_count: usize) -> (r: Option<usize>)
        ensures
            r == if restore < sheet_count {
                Some(restore)
            } else {
                None
            },
    {
        if restore < sheet_count {
            Some(restore)
        } else {
            None
        }
    }

    /// Separated values were imported into the window, or could not be. `sheet`
    /// is the sheet that is shown.
    pub fn csv_imported(
        &mut self,
        path: &DocPath,
        sheet: u64,
        imported: Result<DocumentMeta, String>,
        duration_ms: u64,
        duration_secs: &str,
    )
        ensures
            match imported {
                Err(e) => {
                    &&& *final(self) == (Spreadsheet {
                        status_message: final(self).status_message,
                        file: FileState {
                            import_result: None,
                            import_filename: None,
                            import_source_dir: None,
                            import_in_progress: false,
                            import_overlay_visible: false,
                            ..old(self).file
                        },
                        ..*old(self)
                    })
                    &&& text::opt_text(final(self).status_message) == Some(
                        "Error opening file: "@ + e@,
                    )
                },
                Ok(meta) => csv_entered(
                    *old(self),
                    *final(self),
                    *path,
                    sheet,
                    meta,
                    duration_text(duration_ms, duration_secs@),
                ),
            },
    {
        self.file.import_in_progress = false;
        self.file.import_overlay_visible = false;
        match imported {
            Err(e) => {
                self.file.import_result = None;
                self.file.import_filename = None;
                self.file.import_source_dir = None;
                self.say_with("Error opening file: ", e.as_str());
            },
            Ok(meta) => {
                let name = crate::hub::file_name_or(path, "file");
                let duration = duration_string(duration_ms, duration_secs);
                let m = opened_string(name.as_str(), duration.as_str(), 0);
                self.file.import_result = None;
                self.file.import_filename = Some(name);
                self.file.import_source_dir = None;
                self.doc_settings = DocumentSettings::new();
                self.enter_file(path, meta, sheet);
                self.clear_sizes();
                self.file.cell_metadata = Vec::new();
                self.hub.link = None;
                self.hub.status = HubStatus::Unlinked;
                self.say(m.as_str());
            },
        }
    }

    /// Import the open file again with its cycles frozen: the result is the
    /// file to import, in the background if `pro`.
    pub fn reimport_with_freeze(&mut self, pro: bool) -> (import: Option<DocPath>)
        ensures
            import == old(self).file.current_file,
            match old(self).file.current_file {
                None => *final(self) == *old(self),
                Some(path) => {
                    &&& *final(self) == (Spreadsheet {
                        mode: Mode::Navigation,
                        status_message: final(self).status_message,
                        cycle_banner: CycleBanner::Reset,
                        file: FileState {
                            import_result: None,
                            import_in_progress: old(self).file.import_in_progress || pro,
                            import_overlay_visible: old(self).file.import_overlay_visible && !pro,
                            ..old(self).file
                        },
                        ..*old(self)
                    })
                    &&& text::opt_text(final(self).status_message) == Some(
                        if pro {
                            "Importing "@ + file_name_or_file(path) + "..."@
                        } else {
                            "Re-importing with Freeze Cycle Values..."@
                        },
                    )
                },
            },
    {
        let path = match &self.file.current_file {
            None => {
                return None;
            },
            Some(p) => p.clone(),
        };
        self.file.import_result = None;
        self.mode = Mode::Navigation;
        self.say("Re-importing with Freeze Cycle Values...");
        if pro {
            self.start_excel_import(&path);
        } else {
            self.cycle_banner = CycleBanner::Reset;
        }
        Some(path)
    }

    /// Iterate over cycles from now on. `report` is what the recalculation came
    /// to; the result is how the engine had to calculate for it.
    pub fn enable_iteration_and_recalc(&mut self, report: RecalcReport) -> (config: CalcConfig)
        ensures
            config == (CalcConfig { iterative: true, ..calc_config(old(self).doc_settings) }),
            *final(self) == (Spreadsheet {
                mode: if old(self).mode == Mode::ImportReport {
                    Mode::Navigation
                } else {
                    old(self).mode
                },
                status_message: final(self).status_message,
                last_recalc: Some(report),
                cycle_banner: CycleBanner::Forced,
                doc_settings: DocumentSettings {
                    enable_iterative_calc: Setting::Value(true),
                    ..old(self).doc_settings
                },
                file: FileState { is_modified: true, ..old(self).file },
                ..*old(self)
            }),
            text::opt_text(final(self).status_message) == Some("Iterative calculation enabled"@),
    {
        let base = calculation_config(&self.doc_settings);
        let config = CalcConfig { iterative: true, ..base };
        self.last_recalc = Some(report);
        self.doc_settings.enable_iterative_calc = Setting::Value(true);
        self.cycle_banner = CycleBanner::Forced;
        if self.mode == Mode::ImportReport {
            self.mode = Mode::Navigation;
        }
        self.say("Iterative calculation enabled");
        self.file.is_modified = true;
        config
    }

    // -----------------------------------------------------------------------
    // Reports and the banner on cycles
    // -----------------------------------------------------------------------

    /// Open the report on the last import, if there was one.
    pub fn show_import_report(&mut self)
        ensures
            *final(self) == if old(self).file.import_result is Some {
                Spreadsheet {
                    lua_console_visible: false,
                    mode: Mode::ImportReport,
                    ..*old(self)
                }
            } else {
                *old(self)
            },
    {
        if self.file.import_result.is_some() {
            self.lua_console_visible = false;
            self.mode = Mode::ImportReport;
        }
    }

    pub fn hide_import_report(&mut self)
        ensures
            *final(self) == (Spreadsheet { mode: Mode::Navigation, ..*old(self) }),
    {
        self.mode = Mode::Navigation;
    }

    /// Open the report on the last export, if it had something to report.
    pub fn show_export_report(&mut self)
        ensures
            *final(self) == if old(self).file.export_result is Some {
                Spreadsheet {
                    lua_console_visible: false,
                    mode: Mode::ExportReport,
                    ..*old(self)
                }
            } else {
                *old(self)
            },
    {
        if self.file.export_result.is_some() {
            self.lua_console_visible = false;
            self.mode = Mode::ExportReport;
        }
    }

    pub fn hide_export_report(&mut self)
        ensures
            *final(self) == (Spreadsheet { mode: Mode::Navigation, ..*old(self) }),
    {
        self.mode = Mode::Navigation;
    }

    pub fn dismiss_cycle_banner(&mut self)
        ensures
            *final(self) == (Spreadsheet { cycle_banner: CycleBanner::Dismissed, ..*old(self) }),
    {
        self.cycle_banner = CycleBanner::Dismissed;
    }

    /// The number of cells in cycles, resolved ones too.
    pub fn current_cycle_count(&self) -> (n: usize)
        ensures
            n == cycle_count(self.last_recalc, self.file.import_result),
    {
        match &self.last_recalc {
            Some(r) => r.cycle_cells,
            None => match &self.file.import_result {
                Some(i) => i.recalc_circular,
                None => 0,
            },
        }
    }

    /// Whether there are cycles that show as errors.
    pub fn has_unresolved_cycles(&self, iterative: bool) -> (r: bool)
        ensures
            r == (cycle_count(self.last_recalc, self.file.import_result) > 0 && !(iterative && (
            self.last_recalc matches Some(rr) && rr.converged))),
    {
        if self.current_cycle_count() == 0 {
            return false;
        }
        let converged = match &self.last_recalc {
            Some(r) => r.converged,
            None => false,
        };
        !iterative || !converged
    }

    /// Whether there is something to say about cycles.
    pub fn should_show_cycle_banner(&self, iterative: bool) -> (r: bool)
        ensures
            r == banner_wanted(self.last_recalc, self.file.import_result, iterative),
    {
        let freeze = match &self.file.import_result {
            Some(r) => r.freeze_applied,
            None => false,
        };
        self.current_cycle_count() > 0 || freeze || iterative
    }
}

/// A native file was loaded into a window.
pub open spec fn native_entered(
    old: Spreadsheet,
    new: Spreadsheet,
    path: DocPath,
    ids: Seq<u64>,
    n: NativeLoad,
    left: Option<NativeLoaded>,
) -> bool {
    let sheet_file = ext_lowered(path) == Some("sheet"@);
    &&& left == Some(
        NativeLoaded {
            config: calc_config(n.settings),
            fit_columns: sheet_file && n.cell_metadata@.len() > 0,
        },
    )
    &&& document_entered(old, new)
    &&& new == (Spreadsheet {
        status_message: new.status_message,
        view: new.view,
        cells_rev: new.cells_rev,
        grid: new.grid,
        file: new.file,
        sizes: new.sizes,
        doc_settings: n.settings,
        hub: new.hub,
        cloud: new.cloud,
        ..old
    })
    &&& new.file == (FileState {
        current_file: Some(path),
        is_modified: false,
        meta: n.meta,
        pending_title_refresh: true,
        import_result: None,
        import_filename: None,
        import_source_dir: None,
        recent_files: new.file.recent_files,
        loaded_run_records: new.file.loaded_run_records,
        pending_run_records: new.file.pending_run_records,
        attached_scripts: new.file.attached_scripts,
        cell_metadata: new.file.cell_metadata,
        approval: new.file.approval,
        approved_fingerprint: new.file.approved_fingerprint,
        approval_history_len: new.file.approval_history_len,
        ..old.file
    })
    &&& approval_after_load(
        old.file,
        new.file,
        path,
        n.approval,
        n.history@,
    )
    &&& new.file.recent_files@ == recent_after(
        old.file.recent_files@,
        path,
    )
    &&& new.file.loaded_run_records@ == if sheet_file {
        n.run_records@
    } else {
        Seq::empty()
    }
    &&& new.file.pending_run_records@.len() == 0
    &&& new.file.attached_scripts@ == if sheet_file {
        n.scripts@
    } else {
        Seq::empty()
    }
    &&& new.file.cell_metadata@ == if sheet_file {
        n.cell_metadata@
    } else {
        Seq::empty()
    }
    &&& sizes_after_load(
        on_sheet(old.sizes, n.sheet),
        new.sizes,
        sheet_file,
        n.layout,
        ids,
    )
    &&& cloud_after_load(old.cloud, new.cloud, sheet_file, n.cloud)
    &&& hub_after_load(old.hub, new.hub, sheet_file, n.hub)
    &&& text::opt_text(new.status_message) == Some(
        opened_text(
            file_name_or_file(path),
            duration_text(n.duration_ms, n.duration_secs@),
            n.named_ranges as nat,
        ),
    )
}

/// An Excel file could not be imported into a window.
pub open spec fn import_failed(
    old: Spreadsheet,
    new: Spreadsheet,
    background: bool,
    e: String,
) -> bool {
    &&& new == (Spreadsheet {
        status_message: new.status_message,
        file: FileState {
            import_result: None,
            import_filename: None,
            import_source_dir: None,
            import_in_progress: old.file.import_in_progress
                && !background,
            import_overlay_visible: old.file.import_overlay_visible
                && !background,
            ..old.file
        },
        ..old
    })
    &&& text::opt_text(new.status_message) == Some(
        "Import failed: "@ + e@,
    )
}

/// An Excel file was imported into a window.
pub open spec fn excel_entered(
    old: Spreadsheet,
    new: Spreadsheet,
    path: DocPath,
    ids: Seq<u64>,
    kind: ExcelImport,
    l: ExcelLoad,
) -> bool {
    let report = ImportReport { duration_ms: l.duration_ms, ..l.report };
    &&& document_entered(old, new)
    &&& new == (Spreadsheet {
        mode: if report_wanted(report, kind.with_options) {
            Mode::ImportReport
        } else {
            old.mode
        },
        lua_console_visible: old.lua_console_visible && !report_wanted(
            report,
            kind.with_options,
        ),
        status_message: new.status_message,
        view: new.view,
        cells_rev: new.cells_rev,
        grid: new.grid,
        file: new.file,
        sizes: new.sizes,
        doc_settings: crate::state::no_settings(),
        cycle_banner: if banner_wanted(
            old.last_recalc,
            Some(report),
            l.iterative,
        ) {
            CycleBanner::Forced
        } else {
            old.cycle_banner
        },
        ..old
    })
    &&& sheet_layouts::layouts_over(
        on_sheet(old.sizes, l.sheet),
        new.sizes,
        l.layouts@,
        ids,
    )
    &&& new.file == (FileState {
        current_file: Some(path),
        is_modified: false,
        meta: l.meta,
        pending_title_refresh: true,
        import_result: Some(report),
        import_filename: new.file.import_filename,
        import_source_dir: path.parent,
        import_in_progress: old.file.import_in_progress && !kind.background,
        import_overlay_visible: old.file.import_overlay_visible
            && !kind.background,
        recent_files: new.file.recent_files,
        ..old.file
    })
    &&& text::opt_text(new.file.import_filename) == Some(
        file_name_or_file(path),
    )
    &&& new.file.recent_files@ == recent_after(
        old.file.recent_files@,
        path,
    )
    &&& text::opt_text(new.status_message) == Some(
        excel_text(
            file_name_or_file(path),
            duration_text(l.duration_ms, l.duration_secs@),
            report,
            kind.with_options,
        ),
    )
}

/// A file of separated values was imported into a window.
pub open spec fn csv_entered(
    old: Spreadsheet,
    new: Spreadsheet,
    path: DocPath,
    sheet: u64,
    meta: DocumentMeta,
    duration: Seq<char>,
) -> bool {
    &&& document_entered(old, new)
    &&& new == (Spreadsheet {
        status_message: new.status_message,
        view: new.view,
        cells_rev: new.cells_rev,
        grid: new.grid,
        file: new.file,
        sizes: new.sizes,
        doc_settings: crate::state::no_settings(),
        hub: HubState { link: None, status: HubStatus::Unlinked, ..old.hub },
        ..old
    })
    &&& sheet_layouts::sizes_cleared(
        on_sheet(old.sizes, sheet),
        new.sizes,
    )
    &&& new.file == (FileState {
        current_file: Some(path),
        is_modified: false,
        meta,
        pending_title_refresh: true,
        import_result: None,
        import_filename: new.file.import_filename,
        import_source_dir: None,
        import_in_progress: false,
        import_overlay_visible: false,
        recent_files: new.file.recent_files,
        cell_metadata: new.file.cell_metadata,
        ..old.file
    })
    &&& new.file.cell_metadata@.len() == 0
    &&& text::opt_text(new.file.import_filename) == Some(
        file_name_or_file(path),
    )
    &&& new.file.recent_files@ == recent_after(
        old.file.recent_files@,
        path,
    )
    &&& text::opt_text(new.status_message) == Some(
        opened_text(
            file_name_or_file(path),
            duration,
            0,
        ),
    )
}

// ---------------------------------------------------------------------------
// Laws
// ---------------------------------------------------------------------------

proof fn lemma_without(v: Seq<DocPath>, key: Seq<char>)
    ensures
        forall|i: int|
            0 <= i < without_file(v, key).len() ==> (#[trigger] without_file(v, key)[i]).key@
                != key,
        without_file(v, key).len() <= v.len(),
        forall|p: DocPath| v.contains(p) && p.key@ != key ==> without_file(v, key).contains(p),
    decreases v.len(),
{
    if v.len() > 0 {
        let front = v.drop_last();
        lemma_without(front, key);
        let rest = without_file(front, key);
        let all = without_file(v, key);
        assert forall|p: DocPath| v.contains(p) && p.key@ != key implies all.contains(p) by {
            let i = choose|i: int| 0 <= i < v.len() && v[i] == p;
            if i < v.len() - 1 {
                assert(front[i] == p);
                assert(front.contains(p));
                assert(rest.contains(p));
                let j = choose|j: int| 0 <= j < rest.len() && rest[j] == p;
                assert(all[j] == p);
            } else {
                assert(all[rest.len() as int] == p);
            }
        }
    }
}

/// The list of recent files begins with the file that was opened last, holds it
/// once, and never holds more than [`MAX_RECENT`] files.
pub proof fn recent_files_stay_short(v: Seq<DocPath>, p: DocPath)
    ensures
        recent_after(v, p).len() > 0,
        recent_after(v, p)[0] == p,
        recent_after(v, p).len() <= MAX_RECENT,
        forall|i: int|
            0 < i < recent_after(v, p).len() ==> (#[trigger] recent_after(v, p)[i]).key@ != p.key@,
{
    lemma_without(v, p.key@);
    let rest = without_file(v, p.key@);
    assert forall|i: int| 0 < i < recent_after(v, p).len() implies (
    #[trigger] recent_after(v, p)[i]).key@ != p.key@ by {
        assert(recent_after(v, p)[i] == rest[i - 1]);
    }
}

/// A `.sheet` file brings its cloud identity with it: the window has exactly the
/// identity that the file holds, none only where the file holds none or it does
/// not read. So a save right after the load schedules an upload to the sheet that
/// the file belongs to, and a file that belongs to none is not uploaded.
pub proof fn a_loaded_file_is_uploaded_to_its_own_sheet(
    old: CloudState,
    mid: Spreadsheet,
    new: Spreadsheet,
    found: Result<Option<CloudIdentity>, String>,
    ticket: Option<crate::cloud::UploadTicket>,
)
    requires
        cloud_after_load(old, mid.cloud, true, found),
        mid.file.current_file is Some,
        mid.cloud.upload_generation < u64::MAX,
        crate::cloud::upload_scheduled(mid, new, ticket),
    ensures
        mid.cloud.identity == match found {
            Ok(i) => i,
            Err(_) => None,
        },
        mid.cloud.sync_state == (if mid.cloud.identity is Some {
            CloudSyncState::Synced
        } else {
            CloudSyncState::Local
        }),
        found matches Ok(Some(i)) ==> (ticket matches Some(t) && t.sheet_id == i.sheet_id
            && t.generation > old.upload_generation && new.cloud.sync_state
            == CloudSyncState::Dirty),
        !(found matches Ok(Some(_))) ==> ticket is None && new == mid,
        new.cloud.last_error == old.last_error && new.cloud.sheets_list == old.sheets_list
            && new.cloud.selected_sheet == old.selected_sheet && new.cloud.sheets_loading
            == old.sheets_loading,
{
}

/// Only a `.sheet` file says anything of the cloud.
pub proof fn other_files_leave_the_cloud_alone(
    old: CloudState,
    new: CloudState,
    found: Result<Option<CloudIdentity>, String>,
)
    requires
        cloud_after_load(old, new, false, found),
    ensures
        new == old,
{
}

/// A `.sheet` file brings its link with it, and any other file has none: the
/// window is never left with the link of the file before.
pub proof fn a_loaded_file_has_its_own_link(
    old: HubState,
    new: HubState,
    sheet_file: bool,
    found: Result<Option<HubLink>, String>,
)
    requires
        hub_after_load(old, new, sheet_file, found),
    ensures
        new.link == (if sheet_file {
            match found {
                Ok(l) => l,
                Err(_) => None,
            }
        } else {
            None
        }),
        new.link is Some <==> new.status == HubStatus::Idle,
        new.link is None <==> new.status == HubStatus::Unlinked,
        new == (HubState { link: new.link, status: new.status, ..old }),
{
}

/// After a native file is loaded the window shows it from its top left corner: the
/// file is the current one and the most recent, and nothing is modified. What a
/// `.sheet` file holds besides its cells is kept, and a file of another kind brings
/// none. The columns are fitted where a `.sheet` file brings metadata of cells.
pub proof fn a_native_file_is_shown_as_it_was_saved(
    old: Spreadsheet,
    new: Spreadsheet,
    path: DocPath,
    ids: Seq<u64>,
    n: NativeLoad,
    left: Option<NativeLoaded>,
)
    requires
        native_entered(old, new, path, ids, n, left),
    ensures
        new.file.current_file == Some(path) && !new.file.is_modified,
        new.file.recent_files@[0] == path,
        new.file.pending_run_records@.len() == 0,
        new.file.import_result is None,
        new.view.selected == (0usize, 0usize) && new.view.selection_end is None,
        new.view.scroll_row == 0 && new.view.scroll_col == 0,
        new.cells_rev != old.cells_rev && !new.grid.previewing,
        new.doc_settings == n.settings && new.file.meta == n.meta && new.sizes.sheet_id == n.sheet,
        new.mode == old.mode && new.failures == old.failures && new.hub.activity
            == old.hub.activity,
        ext_lowered(path) == Some("sheet"@) ==> {
            &&& new.file.loaded_run_records@ == n.run_records@
            &&& new.file.attached_scripts@ == n.scripts@
            &&& new.file.cell_metadata@ == n.cell_metadata@
            &&& n.cloud matches Ok(i) ==> new.cloud.identity == i
            &&& n.hub matches Ok(l) ==> new.hub.link == l
        },
        ext_lowered(path) != Some("sheet"@) ==> {
            &&& new.file.loaded_run_records@.len() == 0
            &&& new.file.attached_scripts@.len() == 0
            &&& new.file.cell_metadata@.len() == 0
            &&& new.cloud == old.cloud
            &&& new.hub.link is None
        },
        left matches Some(x) && (x.fit_columns <==> new.file.cell_metadata@.len() > 0),
{
    recent_files_stay_short(old.file.recent_files@, path);
}

/// An Excel file that was imported is the current file and the most recent, the
/// report on it is kept, and it is shown from its top left corner. The report comes up
/// exactly if something went wrong, or if cycles were frozen where that was asked for.
/// One that failed leaves the document alone.
pub proof fn an_excel_file_is_shown_with_its_report(
    old: Spreadsheet,
    new: Spreadsheet,
    path: DocPath,
    ids: Seq<u64>,
    kind: ExcelImport,
    l: ExcelLoad,
)
    requires
        excel_entered(old, new, path, ids, kind, l),
    ensures
        new.file.current_file == Some(path) && !new.file.is_modified,
        new.file.recent_files@[0] == path,
        new.file.import_source_dir == path.parent,
        new.file.import_result matches Some(r) && r.duration_ms == l.duration_ms
            && r.recalc_errors == l.report.recalc_errors && r.recalc_circular
            == l.report.recalc_circular,
        new.view.selected == (0usize, 0usize) && new.cells_rev != old.cells_rev,
        new.sizes.sheet_id == l.sheet,
        new.doc_settings == crate::state::no_settings(),
        old.mode != Mode::ImportReport ==> (new.mode == Mode::ImportReport
            <==> l.report.recalc_errors > 0 || l.report.recalc_circular > 0 || (kind.with_options
            && l.report.freeze_applied)),
        new.mode != Mode::ImportReport ==> new.mode == old.mode,
        l.iterative || l.report.freeze_applied ==> new.cycle_banner == CycleBanner::Forced,
        kind.background ==> !new.file.import_in_progress && !new.file.import_overlay_visible,
        new.cloud == old.cloud && new.hub == old.hub,
{
    recent_files_stay_short(old.file.recent_files@, path);
}

/// A file of separated values that was imported is the current file and the most
/// recent. It has no settings, no link and no metadata of cells.
pub proof fn separated_values_are_shown_without_anything_else(
    old: Spreadsheet,
    new: Spreadsheet,
    path: DocPath,
    sheet: u64,
    meta: DocumentMeta,
    duration: Seq<char>,
)
    requires
        csv_entered(old, new, path, sheet, meta, duration),
    ensures
        new.file.current_file == Some(path) && !new.file.is_modified,
        new.file.recent_files@[0] == path,
        new.view.selected == (0usize, 0usize) && new.cells_rev != old.cells_rev,
        new.sizes.sheet_id == sheet,
        !new.file.import_in_progress && !new.file.import_overlay_visible,
        new.file.cell_metadata@.len() == 0 && new.hub.link is None,
        new.sizes.shown().col_widths == Map::<usize, u32>::empty(),
        new.sizes.shown().row_heights == Map::<usize, u32>::empty(),
        new.cloud == old.cloud && new.mode == old.mode,
{
    recent_files_stay_short(old.file.recent_files@, path);
    assert(new.sizes.at(sheet) == sheet_layouts::hidden_only(on_sheet(old.sizes, sheet).at(sheet)));
}

/// A failed import leaves the document, the view and the sizes as they were.
pub proof fn a_failed_import_leaves_the_document(
    old: Spreadsheet,
    new: Spreadsheet,
    background: bool,
    e: String,
)
    requires
        import_failed(old, new, background, e),
    ensures
        new.view == old.view && new.sizes == old.sizes && new.cells_rev == old.cells_rev,
        new.file.current_file == old.file.current_file && new.file.is_modified
            == old.file.is_modified,
        new.file.recent_files == old.file.recent_files && new.mode == old.mode,
        new.file.import_result is None && new.file.import_filename is None,
        background ==> !new.file.import_in_progress && !new.file.import_overlay_visible,
        !background ==> new.file.import_in_progress == old.file.import_in_progress,
        new.status_message matches Some(m) && text::has_suffix(m@, e@),
{
    text::what_it_means_to_hold_a_text("Import failed: "@, e@, Seq::empty());
}

/// What was written down of the sizes of the sheets is what a `.sheet` file brings
/// back; sheets that it does not list have none. Other files leave the hidden lines
/// and have the usual sizes.
pub proof fn a_loaded_file_has_its_sizes_back(
    saved: SizeState,
    old: SizeState,
    new: SizeState,
    sheet_file: bool,
    layout: NativeLayout,
    ids: Seq<u64>,
    i: int,
    other: u64,
)
    requires
        sizes_after_load(old, new, sheet_file, layout, ids),
        0 <= i < ids.len() <= usize::MAX,
        sheet_layouts::native_keeps(layout, i as usize, saved.at(ids[i])),
        !ids.contains(other),
    ensures
        new.sheet_id == old.sheet_id && new.rows == old.rows && new.cols == old.cols,
        sheet_file ==> new.at(ids[i]) == saved.at(ids[i]) && new.at(other) == sizes::no_dims(),
        !sheet_file ==> forall|id: u64|
            (#[trigger] new.at(id)).hidden_rows == old.at(id).hidden_rows && new.at(id).hidden_cols
                == old.at(id).hidden_cols && new.at(id).col_widths == Map::<usize, u32>::empty()
                && new.at(id).row_heights == Map::<usize, u32>::empty(),
{
    sheet_layouts::sizes_survive_a_file(layout, i as usize, saved.at(ids[i]));
}

/// A `.sheet` file brings its approval with it: the window has the approval that the
/// file holds and no other. With one, the history as it was loaded is what was
/// approved; without one nothing new is taken to be approved.
pub proof fn a_loaded_file_has_its_own_approval(
    old: FileState,
    new: FileState,
    path: DocPath,
    found: Result<Approval, String>,
    history: Seq<char>,
)
    requires
        approval_after_load(old, new, path, found, history),
    ensures
        text::opt_text(path.ext) == Some("sheet"@) ==> {
            &&& found matches Ok(a) ==> new.approval == a
            &&& found is Err ==> new.approval.fingerprint is None
            &&& (found matches Ok(a) && a.fingerprint is Some) ==> text::opt_text(
                new.approved_fingerprint,
            ) == Some(history) && new.approval_history_len == 0
            &&& !(found matches Ok(a) && a.fingerprint is Some) ==> new.approved_fingerprint
                == old.approved_fingerprint
        },
        text::opt_text(path.ext) != Some("sheet"@) ==> new.approval == old.approval
            && new.approved_fingerprint == old.approved_fingerprint && new.approval_history_len
            == old.approval_history_len,
{
}

/// The kinds of files that can be opened.
pub open spec fn known_exts() -> Seq<Seq<char>> {
    seq![
        "xlsx"@,
        "xls"@,
        "xlsb"@,
        "xlsm"@,
        "ods"@,
        "csv"@,
        "tsv"@,
        "sheet"@,
        "vgrid"@,
    ]
}

/// Just the files of a known kind are opened. Excel files and those with separated
/// values are imported, the first in the background for those with a licence alone,
/// and the library's own files are loaded. A file that is not imported when it is
/// opened, and is not of one of the library's own kinds, is refused.
pub proof fn files_are_opened_by_kind(e: Seq<char>, pro: bool)
    ensures
        plan_for(e, pro) == LoadPlan::Refused <==> !known_exts().contains(e),
        plan_for(e, true) == LoadPlan::ExcelInBackground <==> plan_for(e, false)
            == LoadPlan::ExcelNow,
        plan_for(e, true) != LoadPlan::ExcelNow && plan_for(e, false)
            != LoadPlan::ExcelInBackground,
        plan_for(e, pro) == LoadPlan::Native <==> e == "sheet"@ || e == "vgrid"@,
        plan_for(e, pro) == LoadPlan::CsvInBackground <==> e == "csv"@,
        plan_for(e, pro) == LoadPlan::TsvInBackground <==> e == "tsv"@,
        e.len() > 2 && e[0] == 'x' && e[1] == 'l' && e[2] == 's' && known_exts().contains(e)
            ==> plan_for(e, pro) == if pro {
            LoadPlan::ExcelInBackground
        } else {
            LoadPlan::ExcelNow
        },
        plan_for("ods"@, pro) == plan_for("xls"@, pro),
{
    reveal_strlit("xlsx");
    reveal_strlit("xls");
    reveal_strlit("xlsb");
    reveal_strlit("xlsm");
    reveal_strlit("ods");
    reveal_strlit("csv");
    reveal_strlit("tsv");
    reveal_strlit("sheet");
    reveal_strlit("vgrid");
    let k = known_exts();
    assert(k[0] == "xlsx"@ && k[1] == "xls"@ && k[2] == "xlsb"@ && k[3] == "xlsm"@);
    assert(k[4] == "ods"@ && k[5] == "csv"@ && k[6] == "tsv"@ && k[7] == "sheet"@ && k[8]
        == "vgrid"@);
    assert("csv"@[0] == 'c' && "tsv"@[0] == 't' && "sheet"@[0] == 's' && "vgrid"@[0] == 'v'
        && "ods"@[0] == 'o');
    assert("csv"@.len() == 3 && "tsv"@.len() == 3 && "sheet"@.len() == 5 && "vgrid"@.len() == 5);
    assert("xlsx"@[0] == 'x' && "xls"@[0] == 'x' && "xlsb"@[0] == 'x' && "xlsm"@[0] == 'x');
}

/// The files that were opened before stay in the list in their order, but for the one
/// that is opened and for those that no longer fit.
pub proof fn recent_files_keep_their_order(v: Seq<DocPath>, p: DocPath, a: int, b: int)
    requires
        0 <= a < b < v.len(),
        v[a].key@ != p.key@,
        v[b].key@ != p.key@,
        v.len() < MAX_RECENT,
    ensures
        exists|i: int, j: int|
            0 < i < j < recent_after(v, p).len() && #[trigger] recent_after(v, p)[i] == v[a]
                && #[trigger] recent_after(v, p)[j] == v[b],
        forall|i: int|
            0 < i < recent_after(v, p).len() ==> v.contains(#[trigger] recent_after(v, p)[i]),
        (forall|i: int| 0 <= i < v.len() ==> (#[trigger] v[i]).key@ != p.key@) ==> recent_after(
            v,
            p,
        ).len() == v.len() + 1,
{
    let w = without_file(v, p.key@);
    lemma_without_file(v, p.key@, a, b);
    let (x, y) = choose|x: int, y: int|
        0 <= x < y < w.len() && #[trigger] w[x] == v[a] && #[trigger] w[y] == v[b];
    let all = seq![p] + w;
    assert(all[x + 1] == w[x] && all[y + 1] == w[y]);
    assert(recent_after(v, p) == all);
    assert forall|i: int| 0 < i < all.len() implies v.contains(#[trigger] all[i]) by {
        assert(all[i] == w[i - 1]);
    }
}

proof fn lemma_without_file(v: Seq<DocPath>, key: Seq<char>, a: int, b: int)
    requires
        0 <= a < b < v.len(),
        v[a].key@ != key,
        v[b].key@ != key,
    ensures
        without_file(v, key).len() <= v.len(),
        exists|x: int, y: int|
            0 <= x < y < without_file(v, key).len() && #[trigger] without_file(v, key)[x] == v[a]
                && #[trigger] without_file(v, key)[y] == v[b],
        forall|i: int|
            0 <= i < without_file(v, key).len() ==> v.contains(#[trigger] without_file(v, key)[i]),
        (forall|i: int| 0 <= i < v.len() ==> (#[trigger] v[i]).key@ != key) ==> without_file(
            v,
            key,
        ).len() == v.len(),
    decreases v.len(),
{
    let t = v.drop_last();
    let rest = without_file(t, key);
    let all = without_file(v, key);
    lemma_kept_files(t, key, a);
    assert(forall|i: int| 0 <= i < t.len() ==> t[i] == #[trigger] v[i]);
    assert(v[v.len() - 1] == v.last());
    if b < t.len() {
        lemma_without_file(t, key, a, b);
        let (x, y) = choose|x: int, y: int|
            0 <= x < y < rest.len() && #[trigger] rest[x] == t[a] && #[trigger] rest[y] == t[b];
        assert(all[x] == v[a] && all[y] == v[b]);
    } else {
        let x = choose|x: int| 0 <= x < rest.len() && #[trigger] rest[x] == t[a];
        assert(all[x] == v[a] && all[rest.len() as int] == v[b]);
    }
    assert forall|i: int| 0 <= i < all.len() implies v.contains(#[trigger] all[i]) by {
        if i < rest.len() {
            assert(all[i] == rest[i]);
            let k = choose|k: int| 0 <= k < t.len() && t[k] == rest[i];
            assert(v[k] == all[i]);
        }
    }
}

proof fn lemma_kept_files(v: Seq<DocPath>, key: Seq<char>, a: int)
    requires
        0 <= a < v.len(),
        v[a].key@ != key,
    ensures
        without_file(v, key).len() <= v.len(),
        exists|x: int|
            0 <= x < without_file(v, key).len() && #[trigger] without_file(v, key)[x] == v[a],
        forall|i: int|
            0 <= i < without_file(v, key).len() ==> v.contains(#[trigger] without_file(v, key)[i]),
        (forall|i: int| 0 <= i < v.len() ==> (#[trigger] v[i]).key@ != key) ==> without_file(
            v,
            key,
        ).len() == v.len(),
    decreases v.len(),
{
    let t = v.drop_last();
    let rest = without_file(t, key);
    let all = without_file(v, key);
    assert(forall|i: int| 0 <= i < t.len() ==> t[i] == #[trigger] v[i]);
    assert(v[v.len() - 1] == v.last());
    lemma_kept_files_bound(t, key);
    if a < t.len() {
        lemma_kept_files(t, key, a);
        let x = choose|x: int| 0 <= x < rest.len() && #[trigger] rest[x] == t[a];
        assert(all[x] == v[a]);
    } else {
        assert(all[rest.len() as int] == v[a]);
    }
    assert forall|i: int| 0 <= i < all.len() implies v.contains(#[trigger] all[i]) by {
        if i < rest.len() {
            assert(all[i] == rest[i]);
            let k = choose|k: int| 0 <= k < t.len() && t[k] == rest[i];
            assert(v[k] == all[i]);
        }
    }
}

proof fn lemma_kept_files_bound(v: Seq<DocPath>, key: Seq<char>)
    ensures
        without_file(v, key).len() <= v.len(),
        forall|i: int|
            0 <= i < without_file(v, key).len() ==> v.contains(#[trigger] without_file(v, key)[i]),
        (forall|i: int| 0 <= i < v.len() ==> (#[trigger] v[i]).key@ != key) ==> without_file(
            v,
            key,
        ).len() == v.len(),
    decreases v.len(),
{
    if v.len() > 0 {
        let t = v.drop_last();
        let rest = without_file(t, key);
        let all = without_file(v, key);
        lemma_kept_files_bound(t, key);
        assert(forall|i: int| 0 <= i < t.len() ==> t[i] == #[trigger] v[i]);
        assert(v[v.len() - 1] == v.last());
        assert forall|i: int| 0 <= i < all.len() implies v.contains(#[trigger] all[i]) by {
            if i < rest.len() {
                assert(all[i] == rest[i]);
                let k = choose|k: int| 0 <= k < t.len() && t[k] == rest[i];
                assert(v[k] == all[i]);
            }
        }
    }
}

/// A document without settings is calculated automatically and without iteration;
/// each setting that it has is followed.
pub proof fn settings_are_followed(d: DocumentSettings)
    ensures
        calc_config(crate::state::no_settings()) == (CalcConfig {
            auto: true,
            iterative: false,
            max_iters: 100,
            tolerance: None,
        }),
        calc_config(d).auto <==> d.mode != Setting::Value(CalculationMode::Manual),
        d.enable_iterative_calc matches Setting::Value(v) ==> calc_config(d).iterative == v,
        d.max_iterations matches Setting::Value(v) ==> calc_config(d).max_iters == v,
        d.iteration_tolerance matches Setting::Value(v) ==> calc_config(d).tolerance == Some(v),
{
}

/// The last calculation says how many cells are in cycles, and the import only where
/// nothing was calculated since. The banner is wanted wherever there is one, and the
/// report wherever something went wrong.
pub proof fn cycles_are_told(last: RecalcReport, import: ImportReport, iterative: bool)
    ensures
        cycle_count(Some(last), Some(import)) == last.cycle_cells,
        cycle_count(Some(last), None) == last.cycle_cells,
        cycle_count(None, Some(import)) == import.recalc_circular,
        cycle_count(None, None) == 0,
        last.cycle_cells > 0 || import.freeze_applied || iterative <==> banner_wanted(
            Some(last),
            Some(import),
            iterative,
        ),
        report_wanted(import, false) ==> report_wanted(import, true),
        report_wanted(import, false) <==> import.recalc_errors > 0 || import.recalc_circular > 0,
        report_wanted(import, true) && !report_wanted(import, false) ==> import.freeze_applied,
{
}

} // verus!
