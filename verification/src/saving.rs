//! Saving and exporting.

use vstd::prelude::*;

use crate::cloud;
use crate::cloud::UploadTicket;
use crate::document;
use crate::files;
use crate::state::{DocPath, DocumentMeta, ExportReport, FileState, Mode, Spreadsheet};
use crate::text;

verus! {

/// What is asked in a dialog for a new file: where it opens, and the name that
/// it suggests. Without a directory it opens in the working directory.
#[derive(Debug, PartialEq, Eq)]
pub struct FilePrompt {
    pub directory: Option<String>,
    pub name: String,
}

/// What a save does first.
#[derive(Debug, PartialEq, Eq)]
pub enum SaveStep {
    /// Write the file.
    Write(DocPath),
    /// Ask for the file.
    Ask(FilePrompt),
}

#[derive(Debug, Clone, Copy, PartialEq, Eq, Structural)]
pub enum SaveFormat {
    /// The sheet that is shown, as comma-separated values.
    Csv,
    /// The workbook with all that goes with it.
    Native,
}

// ---------------------------------------------------------------------------
// Names
// ---------------------------------------------------------------------------

/// The place of the last dot in a name, or -1.
pub open spec fn last_dot(s: Seq<char>) -> int
    decreases s.len(),
{
    if s.len() == 0 {
        -1
    } else if s.last() == '.' {
        s.len() - 1
    } else {
        last_dot(s.drop_last())
    }
}

/// A file name without its extension. A name that only begins with a dot has
/// none, and what names no file has no stem.
pub open spec fn stem_of(name: Seq<char>) -> Option<Seq<char>> {
    if name.len() == 0 || name == "."@ || name == ".."@ {
        None
    } else if last_dot(name) <= 0 {
        Some(name)
    } else {
        Some(name.take(last_dot(name)))
    }
}

/// A file name without its extension.
pub fn file_stem(name: &str) -> (r: Option<String>)
    ensures
        text::opt_text(r) == stem_of(name@),
{
    let chars = text::chars_of(name);
    if chars.len() == 0 || text::str_eq(name, ".") || text::str_eq(name, "..") {
        return None;
    }
    let mut n: usize = chars.len();
    assert(chars@.take(n as int) =~= chars@);
    while n > 0 && chars[n - 1] != '.'
        invariant
            n <= chars@.len(),
            last_dot(chars@.take(n as int)) == last_dot(chars@),
        decreases n,
    {
        assert(chars@.take(n as int).last() == chars@[n - 1]);
        assert(chars@.take(n as int).drop_last() =~= chars@.take(n - 1));
        n = n - 1;
    }
    if n > 0 {
        assert(chars@.take(n as int).last() == chars@[n - 1]);
        assert(last_dot(chars@) == n - 1);
    }
    if n <= 1 {
        return Some(text::lit(name));
    }
    Some(text::slice_text(&chars, 0, n - 1))
}

/// Where a dialog for a new file opens: beside the open file, else where the
/// imported one came from.
pub open spec fn prompt_directory(f: FileState, imports: bool) -> Option<String> {
    match f.current_file {
        Some(DocPath { parent: Some(d), .. }) => Some(d),
        _ => if imports {
            f.import_source_dir
        } else {
            None
        },
    }
}

/// The stem of the open file.
pub open spec fn current_stem(f: FileState) -> Option<Seq<char>> {
    match f.current_file {
        Some(p) => text::opt_text(p.stem),
        None => None,
    }
}

/// The stem of the imported file.
pub open spec fn import_stem(f: FileState) -> Option<Seq<char>> {
    match f.import_filename {
        Some(n) => stem_of(n@),
        None => None,
    }
}

pub open spec fn or_else(a: Option<Seq<char>>, b: Seq<char>) -> Seq<char> {
    match a {
        Some(x) => x,
        None => b,
    }
}

/// The name that is suggested for a save: that of the open file where it is in
/// a native format, else its stem (or that of the imported file) with the
/// native extension.
pub open spec fn suggested_name(f: FileState) -> Seq<char> {
    match f.current_file {
        Some(DocPath { file_name: Some(name), .. }) => {
            let p = f.current_file->0;
            if files::is_own_format(p) {
                name@
            } else {
                or_else(text::opt_text(p.stem), "untitled"@) + ".sheet"@
            }
        },
        _ => match f.import_filename {
            Some(n) => or_else(stem_of(n@), "untitled"@) + ".sheet"@,
            None => "untitled.sheet"@,
        },
    }
}

/// What is asked when a save needs a name.
pub open spec fn asks_for_save(p: FilePrompt, f: FileState) -> bool {
    p.directory == prompt_directory(f, true) && p.name@ == suggested_name(f)
}

/// The open file can be written as it is.
pub open spec fn saves_in_place(f: FileState) -> bool {
    f.current_file is Some && files::is_own_format(f.current_file->0)
}

/// The file format that goes with the name of a file.
pub open spec fn format_for(p: DocPath) -> SaveFormat {
    if files::ext_lowered(p) == Some("csv"@) {
        SaveFormat::Csv
    } else {
        SaveFormat::Native
    }
}

/// What is said after a save.
pub open spec fn saved_text(p: DocPath, named: nat) -> Seq<char> {
    if named > 0 {
        "Saved: "@ + p.display@ + " ("@ + text::dec(named) + " named ranges)"@
    } else {
        "Saved: "@ + p.display@
    }
}

impl FileState {
    fn directory_for(&self, imports: bool) -> (r: Option<String>)
        ensures
            r == prompt_directory(*self, imports),
    {
        match &self.current_file {
            Some(p) => match &p.parent {
                Some(d) => {
                    return Some(d.clone());
                },
                None => {},
            },
            None => {},
        }
        if imports {
            document::clone_text(&self.import_source_dir)
        } else {
            None
        }
    }

    fn stem_or(&self, other: &str) -> (r: String)
        ensures
            r@ == or_else(current_stem(*self), other@),
    {
        match &self.current_file {
            Some(p) => match &p.stem {
                Some(s) => s.clone(),
                None => text::lit(other),
            },
            None => text::lit(other),
        }
    }

    /// The name that is suggested for a save.
    fn name_for_save(&self) -> (r: String)
        ensures
            r@ == suggested_name(*self),
    {
        match &self.current_file {
            Some(p) => match &p.file_name {
                Some(name) => {
                    if files::own_format(p) {
                        return name.clone();
                    }
                    let stem = match &p.stem {
                        Some(s) => s.clone(),
                        None => text::lit("untitled"),
                    };
                    return text::cat(stem.as_str(), ".sheet");
                },
                None => {},
            },
            None => {},
        }
        match &self.import_filename {
            Some(n) => {
                let stem = match file_stem(n.as_str()) {
                    Some(s) => s,
                    None => text::lit("untitled"),
                };
                text::cat(stem.as_str(), ".sheet")
            },
            None => text::lit("untitled.sheet"),
        }
    }
}

/// How a file is written, by its name.
pub fn save_format(path: &DocPath) -> (r: SaveFormat)
    ensures
        r == format_for(*path),
{
    match files::ext_lower(path) {
        Some(e) => if text::str_eq(e.as_str(), "csv") {
            SaveFormat::Csv
        } else {
            SaveFormat::Native
        },
        None => SaveFormat::Native,
    }
}

// ---------------------------------------------------------------------------
// Saving
// ---------------------------------------------------------------------------

impl Spreadsheet {
    /// Save the document: a file in a native format is written, any other one
    /// is kept as it is and a name is asked for. An edit that is under way is
    /// committed by the caller first, here and in the other ways to save.
    pub fn save(&self) -> (step: SaveStep)
        ensures
            save_goes(self.file, step),
    {
        match &self.file.current_file {
            Some(p) => {
                if files::own_format(p) {
                    return SaveStep::Write(p.clone());
                }
            },
            None => {},
        }
        SaveStep::Ask(self.save_as())
    }

    /// Save the document and close the window: if a name has to be asked for,
    /// the window is closed after the save. After a direct write
    /// [`Spreadsheet::may_close`] says whether it closes.
    pub fn save_and_close(&mut self) -> (step: SaveStep)
        ensures
            match step {
                SaveStep::Write(p) => saves_in_place(old(self).file) && old(self).file.current_file
                    == Some(p) && *final(self) == *old(self),
                SaveStep::Ask(q) => !saves_in_place(old(self).file) && asks_for_save(
                    q,
                    old(self).file,
                ) && *final(self) == (Spreadsheet {
                    file: FileState { close_after_save: true, ..old(self).file },
                    ..*old(self)
                }),
            },
    {
        let step = self.save();
        match &step {
            SaveStep::Write(_) => {},
            SaveStep::Ask(_) => {
                self.file.close_after_save = true;
            },
        }
        step
    }

    /// Whether the window may close after [`Spreadsheet::save_and_close`] has
    /// written the file: a save that failed leaves the document modified.
    pub fn may_close(&self) -> (r: bool)
        ensures
            r == !self.file.is_modified,
    {
        !self.file.is_modified
    }

    /// What is asked when the document is saved under another name.
    pub fn save_as(&self) -> (q: FilePrompt)
        ensures
            asks_for_save(q, self.file),
    {
        FilePrompt { directory: self.file.directory_for(true), name: self.file.name_for_save() }
    }

    /// The records of script runs that a save writes.
    pub fn run_records_to_save(&self) -> (v: Vec<String>)
        ensures
            text::texts(v@) == text::texts(
                self.file.loaded_run_records@ + self.file.pending_run_records@,
            ),
    {
        let mut v: Vec<String> = Vec::new();
        let ghost all = self.file.loaded_run_records@ + self.file.pending_run_records@;
        let mut i: usize = 0;
        while i < self.file.loaded_run_records.len()
            invariant
                i <= self.file.loaded_run_records@.len(),
                all == self.file.loaded_run_records@ + self.file.pending_run_records@,
                v@ == all.take(i as int),
            decreases self.file.loaded_run_records@.len() - i,
        {
            v.push(self.file.loaded_run_records[i].clone());
            assert(v@ =~= all.take(i + 1));
            i = i + 1;
        }
        let ghost n = i as int;
        i = 0;
        while i < self.file.pending_run_records.len()
            invariant
                i <= self.file.pending_run_records@.len(),
                n == self.file.loaded_run_records@.len(),
                all == self.file.loaded_run_records@ + self.file.pending_run_records@,
                v@ == all.take(n + i),
            decreases self.file.pending_run_records@.len() - i,
        {
            v.push(self.file.pending_run_records[i].clone());
            assert(v@ =~= all.take(n + i + 1));
            i = i + 1;
        }
        assert(all.take(all.len() as int) =~= all);
        v
    }

    /// A file was written, or could not be; `meta` is the identity of the saved
    /// document, and a success comes with the number of named ranges. The
    /// result is the upload to make if the document is kept in the cloud.
    pub fn save_to_path(&mut self, path: &DocPath, meta: DocumentMeta, written: Result<usize, String>) -> (ticket:
        Option<UploadTicket>)
        requires
            old(self).cloud.upload_generation < u64::MAX,
        ensures
            file_saved(*old(self), *final(self), *path, meta, written, ticket),
    {
        match written {
            Err(e) => {
                self.say_with("Error saving file: ", e.as_str());
                None
            },
            Ok(named) => {
                self.file.current_file = Some(path.clone());
                self.file.is_modified = false;
                self.file.meta = meta;
                self.file.pending_title_refresh = true;
                let mut all: Vec<String> = Vec::new();
                let mut pending: Vec<String> = Vec::new();
                core::mem::swap(&mut all, &mut self.file.loaded_run_records);
                core::mem::swap(&mut pending, &mut self.file.pending_run_records);
                all.append(&mut pending);
                self.file.loaded_run_records = all;
                let ticket = self.cloud_schedule_upload();
                let mut m = text::cat("Saved: ", path.display.as_str());
                if named > 0 {
                    m.append(" (");
                    let n = text::decimal(named as u64);
                    m.append(n.as_str());
                    m.append(" named ranges)");
                }
                self.say(m.as_str());
                ticket
            },
        }
    }

    /// A save under a name that was asked for is over: the result is whether
    /// the window is closed now.
    pub fn save_as_finished(&mut self) -> (close: bool)
        ensures
            close == (old(self).file.close_after_save && !old(self).file.is_modified),
            *final(self) == (Spreadsheet {
                file: FileState { close_after_save: false, ..old(self).file },
                ..*old(self)
            }),
    {
        let close = self.file.close_after_save && !self.file.is_modified;
        self.file.close_after_save = false;
        close
    }

    /// No name was given for a save.
    pub fn save_as_cancelled(&mut self)
        ensures
            *final(self) == (Spreadsheet {
                file: FileState { close_after_save: false, ..old(self).file },
                ..*old(self)
            }),
    {
        self.file.close_after_save = false;
    }
}

// ---------------------------------------------------------------------------
// Exporting
// ---------------------------------------------------------------------------

/// What is asked before an export of the sheet that is shown.
pub open spec fn asks_for_export(q: FilePrompt, f: FileState, ext: Seq<char>) -> bool {
    &&& q.directory == prompt_directory(f, false)
    &&& q.name@ == or_else(current_stem(f), "export"@) + "."@ + ext
}

impl Spreadsheet {
    fn export_delimited(&self, ext: &str) -> (q: FilePrompt)
        ensures
            asks_for_export(q, self.file, ext@),
    {
        let stem = self.file.stem_or("export");
        FilePrompt {
            directory: self.file.directory_for(false),
            name: text::cat3(stem.as_str(), ".", ext),
        }
    }

    /// Export the sheet that is shown as comma-separated values.
    pub fn export_csv(&self) -> (q: FilePrompt)
        ensures
            asks_for_export(q, self.file, "csv"@),
    {
        self.export_delimited("csv")
    }

    /// Export the sheet that is shown as tab-separated values.
    pub fn export_tsv(&self) -> (q: FilePrompt)
        ensures
            asks_for_export(q, self.file, "tsv"@),
    {
        self.export_delimited("tsv")
    }

    /// Export the sheet that is shown as a document of texts.
    pub fn export_json(&self) -> (q: FilePrompt)
        ensures
            asks_for_export(q, self.file, "json"@),
    {
        self.export_delimited("json")
    }

    /// The sheet was exported, or could not be.
    pub fn delimited_exported(&mut self, path: &DocPath, written: Result<(), String>)
        ensures
            match written {
                Ok(_) => crate::hub::only_says(
                    *old(self),
                    *final(self),
                    "Exported: "@ + path.display@,
                ),
                Err(e) => crate::hub::only_says(
                    *old(self),
                    *final(self),
                    "Error exporting: "@ + e@,
                ),
            },
    {
        match written {
            Ok(_) => self.say_with("Exported: ", path.display.as_str()),
            Err(e) => self.say_with("Error exporting: ", e.as_str()),
        }
    }

    /// Export the workbook as an Excel file.
    pub fn export_xlsx(&self) -> (q: FilePrompt)
        ensures
            q.directory == prompt_directory(self.file, true),
            q.name@ == or_else(
                current_stem(self.file),
                or_else(import_stem(self.file), "export"@),
            ) + ".xlsx"@,
    {
        let other = match &self.file.import_filename {
            Some(n) => match file_stem(n.as_str()) {
                Some(s) => s,
                None => text::lit("export"),
            },
            None => text::lit("export"),
        };
        let stem = self.file.stem_or(other.as_str());
        FilePrompt {
            directory: self.file.directory_for(true),
            name: text::cat(stem.as_str(), ".xlsx"),
        }
    }

    /// The workbook was exported, or could not be. A report with warnings is
    /// shown.
    pub fn xlsx_exported(&mut self, path: &DocPath, written: Result<ExportReport, String>)
        ensures
            excel_exported(*old(self), *final(self), *path, written),
    {
        match written {
            Err(e) => {
                self.say_with("Export failed: ", e.as_str());
                self.file.export_result = None;
                self.file.export_filename = None;
            },
            Ok(r) => {
                let mut m = text::cat("Exported to ", path.display.as_str());
                match &r.warning_summary {
                    Some(w) => {
                        m.append(" (");
                        m.append(w.as_str());
                        m.append(")");
                    },
                    None => {},
                }
                self.say(m.as_str());
                if r.has_warnings {
                    self.file.export_result = Some(r);
                    self.file.export_filename = Some(crate::hub::file_name_or(path, "file.xlsx"));
                    self.show_export_report();
                } else {
                    self.file.export_result = None;
                    self.file.export_filename = None;
                }
            },
        }
    }

    /// Export the history as a script.
    pub fn export_provenance(&self) -> (q: FilePrompt)
        ensures
            q.directory == prompt_directory(self.file, false),
            q.name@ == or_else(current_stem(self.file), "history"@) + "_provenance.lua"@,
    {
        let stem = self.file.stem_or("history");
        FilePrompt {
            directory: self.file.directory_for(false),
            name: text::cat(stem.as_str(), "_provenance.lua"),
        }
    }

    /// The history was exported, or could not be.
    pub fn provenance_exported(&mut self, path: &DocPath, actions: usize, written: Result<(), String>)
        ensures
            match written {
                Ok(_) => crate::hub::only_says(
                    *old(self),
                    *final(self),
                    "Exported "@ + text::dec(actions as nat) + " actions to "@ + path.display@,
                ),
                Err(e) => crate::hub::only_says(
                    *old(self),
                    *final(self),
                    "Export failed: "@ + e@,
                ),
            },
    {
        match written {
            Ok(_) => {
                let n = text::decimal(actions as u64);
                let mut m = text::cat3("Exported ", n.as_str(), " actions to ");
                m.append(path.display.as_str());
                self.say(m.as_str());
            },
            Err(e) => self.say_with("Export failed: ", e.as_str()),
        }
    }
}

/// The document was to be saved in a file.
pub open spec fn file_saved(
    old: Spreadsheet,
    new: Spreadsheet,
    path: DocPath,
    meta: DocumentMeta,
    written: Result<usize, String>,
    ticket: Option<UploadTicket>,
) -> bool {
    &&& match written {
        Err(e) => ticket is None && crate::hub::only_says(
            old,
            new,
            "Error saving file: "@ + e@,
        ),
        Ok(named) => {
            &&& new.file == (FileState {
                current_file: Some(path),
                is_modified: false,
                meta,
                pending_title_refresh: true,
                loaded_run_records: new.file.loaded_run_records,
                pending_run_records: new.file.pending_run_records,
                ..old.file
            })
            &&& new.file.loaded_run_records@ == old.file.loaded_run_records@
                + old.file.pending_run_records@
            &&& new.file.pending_run_records@.len() == 0
            &&& cloud::upload_scheduled(
                (Spreadsheet {
                    file: new.file,
                    status_message: new.status_message,
                    ..old
                }),
                new,
                ticket,
            )
            &&& text::opt_text(new.status_message) == Some(
                saved_text(path, named as nat),
            )
        },
    }
}

/// The document was to be exported to Excel.
pub open spec fn excel_exported(
    old: Spreadsheet,
    new: Spreadsheet,
    path: DocPath,
    written: Result<ExportReport, String>,
) -> bool {
    &&& match written {
        Err(e) => {
            &&& new == (Spreadsheet {
                status_message: new.status_message,
                file: FileState {
                    export_result: None,
                    export_filename: None,
                    ..old.file
                },
                ..old
            })
            &&& text::opt_text(new.status_message) == Some(
                "Export failed: "@ + e@,
            )
        },
        Ok(r) => {
            let said = "Exported to "@ + path.display@;
            &&& new == (Spreadsheet {
                mode: if r.has_warnings {
                    Mode::ExportReport
                } else {
                    old.mode
                },
                lua_console_visible: old.lua_console_visible && !r.has_warnings,
                status_message: new.status_message,
                file: FileState {
                    export_result: if r.has_warnings {
                        Some(r)
                    } else {
                        None
                    },
                    export_filename: new.file.export_filename,
                    ..old.file
                },
                ..old
            })
            &&& text::opt_text(new.file.export_filename) == if r.has_warnings {
                Some(crate::hub::name_or(path, "file.xlsx"@))
            } else {
                None
            }
            &&& text::opt_text(new.status_message) == Some(
                match r.warning_summary {
                    Some(w) => said + " ("@ + w@ + ")"@,
                    None => said,
                },
            )
        },
    }
}

/// What a save of the document takes.
pub open spec fn save_goes(
    f: FileState,
    step: SaveStep,
) -> bool {
    &&& match step {
        SaveStep::Write(p) => saves_in_place(f) && f.current_file == Some(
            p,
        ),
        SaveStep::Ask(q) => !saves_in_place(f) && asks_for_save(q, f),
    }
}

// ---------------------------------------------------------------------------
// Laws
// ---------------------------------------------------------------------------

proof fn lemma_last_dot(s: Seq<char>)
    ensures
        -1 <= last_dot(s) < s.len(),
        last_dot(s) >= 0 ==> s[last_dot(s)] == '.',
        forall|i: int| last_dot(s) < i < s.len() ==> #[trigger] s[i] != '.',
    decreases s.len(),
{
    if s.len() > 0 && s.last() != '.' {
        let t = s.drop_last();
        lemma_last_dot(t);
        assert forall|i: int| last_dot(s) < i < s.len() implies #[trigger] s[i] != '.' by {
            if i < t.len() {
                assert(t[i] == s[i]);
            }
        }
    }
}

/// The stem of a file name is what stands before its last dot; a name without one, and
/// one whose only dot is at its beginning, is its own stem.
pub proof fn a_stem_is_what_stands_before_the_last_dot(stem: Seq<char>, ext: Seq<char>)
    requires
        stem.len() > 0,
        !ext.contains('.'),
        !(stem == "."@ && ext.len() == 0),
    ensures
        stem_of(stem.push('.') + ext) == Some(stem),
        ext.len() > 0 ==> stem_of(ext) == Some(ext) && stem_of(seq!['.'] + ext) == Some(
            seq!['.'] + ext,
        ),
        stem_of(Seq::empty()) is None,
{
    reveal_strlit(".");
    reveal_strlit("..");
    let name = stem.push('.') + ext;
    lemma_last_dot(name);
    assert(name[stem.len() as int] == '.');
    assert forall|i: int| stem.len() < i < name.len() implies #[trigger] name[i] != '.' by {
        assert(name[i] == ext[i - stem.len() - 1]);
    }
    assert(last_dot(name) == stem.len());
    assert(name.take(stem.len() as int) =~= stem);
    assert("."@.len() == 1 && "."@[0] == '.' && ".."@.len() == 2);
    if name == ".."@ {
        assert(stem =~= "."@);
    }
    if ext.len() > 0 {
        lemma_last_dot(ext);
        if last_dot(ext) >= 0 {
            assert(ext[last_dot(ext)] == '.');
        }
        assert(ext[0] != '.');
        assert(ext != "."@ && ext != ".."@) by {
            assert(".."@[0] == '.');
        }
        let hidden = seq!['.'] + ext;
        lemma_last_dot(hidden);
        assert forall|i: int| 0 < i < hidden.len() implies #[trigger] hidden[i] != '.' by {
            assert(hidden[i] == ext[i - 1]);
        }
        assert(hidden != "."@);
        assert(hidden != ".."@) by {
            assert(hidden[1] == ext[0]);
            assert(".."@[1] == '.');
        }
    }
}

/// Only a file of one of the library's own kinds is saved over. Anything else, such as a
/// file that was imported, is asked for, under a name that ends as a `.sheet` file.
pub proof fn an_imported_file_is_not_saved_over(f: FileState, step: SaveStep)
    requires
        save_goes(f, step),
    ensures
        step matches SaveStep::Write(p) ==> f.current_file == Some(p) && (files::ext_lowered(p)
            == Some("sheet"@) || files::ext_lowered(p) == Some("vgrid"@)),
        step matches SaveStep::Ask(q) ==> text::has_suffix(q.name@, ".sheet"@),
        f.current_file matches Some(p) ==> (files::ext_lowered(p) == Some("sheet"@)
            || files::ext_lowered(p) == Some("vgrid"@) ==> step is Write),
        f.current_file is None ==> step is Ask,
{
    reveal_strlit(".sheet");
    reveal_strlit("untitled.sheet");
    reveal_strlit("untitled");
    if let SaveStep::Ask(q) = step {
        let tail = ".sheet"@;
        assert("untitled.sheet"@.skip(8) =~= tail);
        match f.current_file {
            Some(DocPath { file_name: Some(name), .. }) => {
                let p = f.current_file->0;
                lemma_suggestion(or_else(text::opt_text(p.stem), "untitled"@));
            },
            _ => match f.import_filename {
                Some(n) => {
                    lemma_suggestion(or_else(stem_of(n@), "untitled"@));
                },
                None => {},
            },
        }
    }
}

proof fn lemma_suggestion(stem: Seq<char>)
    ensures
        text::has_suffix(stem + ".sheet"@, ".sheet"@),
{
    reveal_strlit(".sheet");
    let s = stem + ".sheet"@;
    assert(s.skip(s.len() - 6) =~= ".sheet"@);
}

/// A document that was saved is not modified any more; its file is the current one; no
/// record of a run is lost, and they stay in order; and it is uploaded where it belongs
/// to a sheet of the cloud. One that could not be saved is as it was.
pub proof fn a_saved_document_is_not_modified(
    old: Spreadsheet,
    new: Spreadsheet,
    path: DocPath,
    meta: DocumentMeta,
    written: Result<usize, String>,
    ticket: Option<UploadTicket>,
)
    requires
        old.cloud.upload_generation < u64::MAX,
        file_saved(old, new, path, meta, written, ticket),
    ensures
        written is Ok ==> {
            &&& !new.file.is_modified && new.file.current_file == Some(path) && new.file.meta == meta
            &&& new.file.loaded_run_records@ + new.file.pending_run_records@
                == old.file.loaded_run_records@ + old.file.pending_run_records@
            &&& new.file.pending_run_records@.len() == 0
            &&& ticket is Some <==> old.cloud.identity is Some
            &&& ticket matches Some(t) ==> t.sheet_id == old.cloud.identity->0.sheet_id
                && cloud::upload_is_current(new, t)
            &&& new.cloud.identity == old.cloud.identity
        },
        written matches Err(e) ==> {
            &&& ticket is None && new.file == old.file && new.cloud == old.cloud
            &&& new.status_message matches Some(m) && text::has_suffix(m@, e@)
        },
        new.view == old.view && new.sizes == old.sizes && new.hub == old.hub,
{
    if let Err(e) = written {
        text::what_it_means_to_hold_a_text("Error saving file: "@, e@, Seq::empty());
    } else {
        assert(new.file.loaded_run_records@ + new.file.pending_run_records@
            =~= old.file.loaded_run_records@ + old.file.pending_run_records@);
    }
}

/// Comma-separated values are written to a file of that kind alone.
pub proof fn only_csv_files_get_separated_values(p: DocPath)
    ensures
        format_for(p) == SaveFormat::Csv <==> files::ext_lowered(p) == Some("csv"@),
        files::ext_lowered(p) == Some("sheet"@) || files::ext_lowered(p) == Some("vgrid"@)
            ==> format_for(p) == SaveFormat::Native,
        p.ext is None ==> format_for(p) == SaveFormat::Native,
{
    reveal_strlit("csv");
    reveal_strlit("sheet");
    reveal_strlit("vgrid");
    assert("csv"@.len() == 3 && "sheet"@.len() == 5 && "vgrid"@.len() == 5);
}

/// A file is asked for beside the current one; a file that was imported without being the
/// current one is looked for where it came from, but for a plain export.
pub proof fn a_file_is_asked_for_beside_the_current_one(f: FileState, imports: bool)
    ensures
        f.current_file matches Some(p) ==> (p.parent is Some ==> prompt_directory(f, imports)
            == p.parent),
        f.current_file is None ==> prompt_directory(f, true) == f.import_source_dir
            && prompt_directory(f, false) is None,
        f.current_file matches Some(p) ==> current_stem(f) == text::opt_text(p.stem),
        f.current_file is None ==> current_stem(f) is None,
{
}

/// An export to Excel says where it went, or why it failed. What it warns of is kept and
/// shown, and without warnings no report comes up. The document stays as it is.
pub proof fn an_export_shows_its_warnings(
    old: Spreadsheet,
    new: Spreadsheet,
    path: DocPath,
    written: Result<ExportReport, String>,
)
    requires
        excel_exported(old, new, path, written),
    ensures
        new.file.current_file == old.file.current_file && new.file.is_modified
            == old.file.is_modified,
        written matches Ok(x) ==> (x.has_warnings ==> new.mode == Mode::ExportReport
            && new.file.export_result == Some(x) && !new.lua_console_visible) && (!x.has_warnings
            ==> new.mode == old.mode && new.file.export_result is None) && (
        new.status_message matches Some(m) && text::contains_text(m@, path.display@)),
        written matches Err(e) ==> new.mode == old.mode && new.file.export_result is None && (
        new.status_message matches Some(m) && text::has_suffix(m@, e@)),
{
    let none = Seq::<char>::empty();
    match written {
        Ok(x) => {
            match x.warning_summary {
                Some(w) => {
                    let tail = " ("@ + w@ + ")"@;
                    text::what_it_means_to_hold_a_text("Exported to "@, path.display@, tail);
                    assert("Exported to "@ + path.display@ + " ("@ + w@ + ")"@ =~= "Exported to "@
                        + path.display@ + tail);
                },
                None => {
                    text::what_it_means_to_hold_a_text("Exported to "@, path.display@, none);
                    assert("Exported to "@ + path.display@ + none =~= "Exported to "@
                        + path.display@);
                },
            }
        },
        Err(e) => {
            text::what_it_means_to_hold_a_text("Export failed: "@, e@, none);
        },
    }
}

} // verus!
