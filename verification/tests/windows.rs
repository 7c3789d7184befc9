use visigrid::chrome::{MenuCategory, MenuEntry};
use visigrid::cloud::{
    cache_file_name, materialize_cloud_blob, BlobPlan, CloudAnswer, CloudIdentity, CloudSyncState,
    NativeLayout, SheetInfo, UploadResult,
};
use visigrid::commands::{
    command_effect, ActionEffect, AiMetricEvent, BorderApplyMode, CommandEffect, CommandId,
    SearchAction, TransformOp,
};
use visigrid::default_prompt::{DefaultAppPromptState, PromptChoices, PromptNote, SUCCESS_NANOS};
use visigrid::dialogs::{LicenseVerdict, PasteType, ThemeChoice, ThemeName, TracePath};
use visigrid::diff_report::DiffCell;
use visigrid::document::CellStyle;
use visigrid::dropdown::{
    DropdownCloseReason, DropdownOutcome, DropdownStep, ResolvedList,
};
use visigrid::failures::{CellFailure, CellVerdict, ValidationFailureReason};
use visigrid::file_type::PromptSession;
use visigrid::files::{
    display_filename, is_native_ext, next_book_name, BookCounter, ExcelImport, ExcelLoad, LoadPlan,
    NativeLoad, MAX_RECENT,
};
use visigrid::fitting::CellSpan;
use visigrid::grid::NumberFormat;
use visigrid::hub::{
    copy_candidate, generate_copy_path, DatasetInfo, HubLink, HubStatus, HubStep, RemoteStatus,
    RepoInfo,
};
use visigrid::hub_link::LinkDialogStep;
use visigrid::hub_publish::PublishStep;
use visigrid::saving::{file_stem, SaveStep};
use visigrid::state::{
    DocPath, DocumentMeta, DocumentSettings, DocumentSource, ExportReport, ImportReport, Mode,
    RecalcReport, Setting, Spreadsheet,
};
use visigrid::terminal::{write_to_pty_bracketed, Approval, VerificationStatus};
use visigrid::validation_dialog::{
    parse_constraint_value, ConstraintValue, ListSource, NumericOperatorOption, RuleKind,
    ValidationStep, ValidationTypeOption,
};

fn text(s: &str) -> String {
    s.to_string()
}

fn meta(name: &str) -> DocumentMeta {
    DocumentMeta {
        display_name: text(name),
        is_saved: false,
        is_read_only: false,
        source: None,
        path: None,
    }
}

fn window() -> Spreadsheet {
    Spreadsheet::new(meta("Book1"), 1, 1000, 100)
}

fn says(s: &Spreadsheet) -> &str {
    s.status_message.as_deref().unwrap_or("")
}

fn path(display: &str) -> DocPath {
    let name = display.rsplit('/').next().unwrap_or("").to_string();
    let dot = name.rfind('.').filter(|i| *i > 0);
    DocPath {
        display: text(display),
        key: text(display),
        stem: Some(dot.map_or(name.clone(), |i| name[..i].to_string())),
        ext: dot.map(|i| name[i + 1..].to_string()),
        parent: display.rfind('/').map(|i| display[..i].to_string()),
        file_name: Some(name),
    }
}

fn span(min_row: usize, min_col: usize, max_row: usize, max_col: usize) -> CellSpan {
    CellSpan { min_row, min_col, max_row, max_col }
}

fn link(hash: Option<&str>) -> HubLink {
    HubLink {
        repo_owner: text("me"),
        repo_slug: text("data"),
        dataset_id: text("d1"),
        local_head_id: None,
        local_head_hash: hash.map(text),
        link_mode: text("pull_publish"),
        linked_at: text("t"),
        api_base: text("https://api.visiapi.com"),
    }
}

// ---------------------------------------------------------------------------
// Files
// ---------------------------------------------------------------------------

#[test]
fn books_are_numbered() {
    let mut c = BookCounter::new();
    assert_eq!(next_book_name(&mut c), "Book1");
    assert_eq!(next_book_name(&mut c), "Book2");
    assert!(is_native_ext("vgrid") && is_native_ext("sheet") && !is_native_ext("csv"));
    assert_eq!(display_filename(&path("/a/b.csv")), "b.csv");
}

#[test]
fn recent_files_are_few_and_distinct() {
    let mut s = window();
    for i in 0..15 {
        s.add_recent_file(&path(&format!("/f{}.sheet", i)));
    }
    assert_eq!(s.file.recent_files.len(), MAX_RECENT);
    assert_eq!(s.file.recent_files[0].display, "/f14.sheet");
    s.add_recent_file(&path("/f10.sheet"));
    assert_eq!(s.file.recent_files[0].display, "/f10.sheet");
    assert_eq!(s.file.recent_files.len(), MAX_RECENT);
}

#[test]
fn a_file_is_opened_by_its_extension() {
    let mut s = window();
    assert_eq!(s.load_file(&path("/a.xlsx"), true), LoadPlan::ExcelInBackground);
    assert_eq!(s.load_file(&path("/a.XLSX"), false), LoadPlan::ExcelNow);
    assert_eq!(s.load_file(&path("/a.csv"), false), LoadPlan::CsvInBackground);
    assert_eq!(s.load_file(&path("/a.tsv"), false), LoadPlan::TsvInBackground);
    assert_eq!(s.load_file(&path("/a.sheet"), false), LoadPlan::Native);
    assert_eq!(s.load_file(&path("/a.docx"), false), LoadPlan::Refused);
    assert_eq!(says(&s), "Error opening file: Unknown file type: docx");
}

fn native() -> NativeLoad {
    NativeLoad {
        meta: meta("Budget"),
        sheet: 1,
        settings: DocumentSettings::new(),
        layout: NativeLayout::new(),
        cloud: Ok(None),
        hub: Ok(Some(link(None))),
        run_records: vec![text("r1")],
        scripts: vec![text("s1")],
        cell_metadata: vec![text("m1")],
        approval: Ok(Approval {
            fingerprint: Some(text("f1")),
            label: Some(text("Q3")),
            timestamp: None,
        }),
        history: text("h1"),
        named_ranges: 0,
        duration_ms: 12,
        duration_secs: text("0.0"),
    }
}

#[test]
fn a_native_file_brings_its_state() {
    let mut s = window();
    s.set_col_width(1, 120.0f32.to_bits());
    s.grid.previewing = true;
    let left = s.native_file_loaded(&path("/b/Budget.sheet"), &vec![1], Ok(native())).unwrap();
    assert!(left.config.auto && !left.config.iterative && left.fit_columns);
    assert!(s.can_edit());
    assert_eq!(s.file.attached_scripts, vec![text("s1")]);
    assert_eq!(s.file.approved_fingerprint, Some(text("h1")));
    assert_eq!(s.file.approval_history_len, 0);
    assert_eq!(s.file.current_file.as_ref().unwrap().display, "/b/Budget.sheet");
    assert_eq!(s.file.loaded_run_records, vec![text("r1")]);
    assert_eq!(s.hub.link, Some(link(None)));
    assert!(!s.file.is_modified);
    assert!(says(&s).contains("Budget.sheet"));
    s.verify_integrity(VerificationStatus::Verified);
    assert_eq!(says(&s), "✓ Verification passed — matches Approved: \"Q3\"");
    let mut t = window();
    assert_eq!(t.native_file_loaded(&path("/x.sheet"), &vec![1], Err(text("gone"))), None);
    assert_eq!(says(&t), "Error opening file: gone");
}

#[test]
fn an_import_reports_errors() {
    let mut s = window();
    s.start_excel_import(&path("/a/in.xlsx"));
    assert!(s.file.import_in_progress);
    s.import_overlay_due();
    assert!(s.file.import_overlay_visible);
    s.dismiss_import_overlay();
    assert!(!s.file.import_overlay_visible);
    let load = ExcelLoad {
        meta: meta("in.xlsx"),
        sheet: 1,
        report: ImportReport {
            recalc_errors: 2,
            recalc_circular: 1,
            freeze_applied: false,
            cycles_frozen: 0,
            duration_ms: 5,
        },
        layouts: vec![],
        duration_ms: 5,
        duration_secs: text("0.0"),
        iterative: false,
    };
    s.excel_imported(
        &path("/a/in.xlsx"),
        &vec![1],
        ExcelImport { background: true, with_options: false },
        Ok(load),
    );
    assert!(!s.file.import_in_progress);
    assert!(says(&s).contains("3 errors"));
    s.excel_imported(
        &path("/a/in.xlsx"),
        &vec![1],
        ExcelImport { background: true, with_options: false },
        Err(text("bad zip")),
    );
    assert_eq!(says(&s), "Import failed: bad zip");
}

#[test]
fn a_csv_import_takes_the_document() {
    let mut s = window();
    s.start_csv_import(&path("/d.csv"));
    let m = DocumentMeta {
        source: Some(DocumentSource::Imported { filename: text("d.csv") }),
        ..meta("d.csv")
    };
    s.csv_imported(&path("/d.csv"), 4, Ok(m), 40, "0.0");
    assert_eq!(s.cached_sheet_id(), 4);
    assert_eq!(s.file.meta.display_name, "d.csv");
    assert!(says(&s).contains("d.csv"));
    s.csv_imported(&path("/d.csv"), 4, Err(text("no such file")), 1, "0.0");
    assert_eq!(says(&s), "Error opening file: no such file");
}

#[test]
fn iteration_is_switched_on() {
    let mut s = window();
    let c = s.enable_iteration_and_recalc(RecalcReport { cycle_cells: 2, converged: true });
    assert!(c.iterative);
    assert_eq!(s.doc_settings.enable_iterative_calc, Setting::Value(true));
    assert!(says(&s).starts_with("Iterative calculation enabled"));
}

#[test]
fn a_document_is_saved_where_it_is() {
    let mut s = window();
    assert!(matches!(s.save(), SaveStep::Ask(_)));
    let q = s.save_as();
    assert_eq!(q.name, "untitled.sheet");
    s.file.import_filename = Some(text("in.xlsx"));
    assert_eq!(s.save_as().name, "in.sheet");
    s.file.import_filename = None;
    assert_eq!(file_stem("a.b.csv"), Some(text("a.b")));
    assert_eq!(file_stem(".hidden"), Some(text(".hidden")));
    let p = path("/x/Out.sheet");
    let ticket = s.save_to_path(&p, meta("Out"), Ok(0));
    assert_eq!(ticket, None);
    assert!(says(&s).starts_with("Saved: "));
    assert_eq!(s.save(), SaveStep::Write(path("/x/Out.sheet")));
    s.save_to_path(&p, meta("Out"), Err(text("disk full")));
    assert_eq!(says(&s), "Error saving file: disk full");
}

#[test]
fn exports_are_named_after_the_document() {
    let mut s = window();
    assert!(s.export_csv().name.ends_with(".csv"));
    assert!(s.export_tsv().name.ends_with(".tsv"));
    assert!(s.export_json().name.ends_with(".json"));
    assert!(s.export_xlsx().name.ends_with(".xlsx"));
    assert!(s.export_provenance().name.ends_with("_provenance.lua"));
    s.delimited_exported(&path("/o.csv"), Err(text("denied")));
    assert_eq!(says(&s), "Error exporting: denied");
    s.xlsx_exported(
        &path("/o.xlsx"),
        Ok(ExportReport { has_warnings: false, warning_summary: None }),
    );
    assert!(says(&s).starts_with("Exported"));
    s.provenance_exported(&path("/p.lua"), 4, Ok(()));
    assert_eq!(says(&s), "Exported 4 actions to /p.lua");
}

// ---------------------------------------------------------------------------
// Hub and cloud
// ---------------------------------------------------------------------------

#[test]
fn a_pull_goes_through_its_steps() {
    let mut s = window();
    assert_eq!(s.hub_pull(false, &Ok(true), true), HubStep::Stop);
    assert_eq!(says(&s), "No updates available");
    s.file.current_file = Some(path("/a.sheet"));
    s.hub.link = Some(link(Some("h0")));
    let t = match s.hub_pull(true, &Ok(true), true) {
        HubStep::FetchStatus(t) => t,
        other => panic!("unexpected step {:?}", other),
    };
    assert_eq!(s.hub.status, HubStatus::Syncing);
    let status =
        Ok(RemoteStatus { current_revision_id: Some(text("r2")), content_hash: Some(text("h2")) });
    let t = match s.hub_status_fetched(t, &status) {
        HubStep::Download(t) => t,
        other => panic!("unexpected step {:?}", other),
    };
    assert_eq!(t.revision_id, "r2");
    let t = match s.hub_downloaded(t, &Ok(()), true) {
        HubStep::Write(t) => t,
        other => panic!("unexpected step {:?}", other),
    };
    let step = s.hub_written(t, &Ok(()), false, "h2");
    assert!(matches!(step, HubStep::SaveLink(..)));
}

#[test]
fn a_damaged_download_is_never_written() {
    let mut s = window();
    s.file.current_file = Some(path("/a.sheet"));
    s.hub.link = Some(link(Some("h0")));
    let t = match s.hub_pull(true, &Ok(true), true) {
        HubStep::FetchStatus(t) => t,
        other => panic!("unexpected step {:?}", other),
    };
    let status =
        Ok(RemoteStatus { current_revision_id: Some(text("r2")), content_hash: Some(text("h2")) });
    let t = match s.hub_status_fetched(t, &status) {
        HubStep::Download(t) => t,
        other => panic!("unexpected step {:?}", other),
    };
    assert_eq!(s.hub_downloaded(t, &Ok(()), false), HubStep::Stop);
    assert_eq!(says(&s), "Download failed integrity check. Please retry.");
}

#[test]
fn local_changes_are_not_overwritten() {
    let mut s = window();
    s.file.current_file = Some(path("/a.sheet"));
    s.hub.link = Some(link(Some("h0")));
    match s.hub_pull(true, &Ok(false), true) {
        HubStep::FetchStatus(t) => assert!(t.as_copy),
        other => panic!("unexpected step {:?}", other),
    }
}

#[test]
fn copies_get_free_names() {
    assert_eq!(copy_candidate(&Some(text("a")), 0), "a (from VisiHub).sheet");
    let mut taken = vec![false; 100];
    assert_eq!(generate_copy_path(&Some(text("a")), &taken, 5), "a (from VisiHub).sheet");
    taken[0] = true;
    let second = generate_copy_path(&Some(text("a")), &taken, 5);
    assert_eq!(second, copy_candidate(&Some(text("a")), 1));
    let last = generate_copy_path(&None, &vec![true; 100], 77);
    assert!(last.contains("77"));
}

#[test]
fn publishing_has_a_limit() {
    let mut s = window();
    assert!(!s.hub_publish(true));
    s.file.current_file = Some(path("/a.sheet"));
    s.hub.link = Some(link(None));
    let step = s.hub_publish_internal(true, &Ok(300 * 1024 * 1024));
    assert_eq!(step, PublishStep::Stop);
    assert!(says(&s).contains("max 200 MB"));
    match s.hub_publish_internal(true, &Ok(10)) {
        PublishStep::CreateRevision(dataset, size) => {
            assert_eq!(dataset, "d1");
            assert_eq!(size, 10);
        }
        other => panic!("unexpected step {:?}", other),
    }
    assert_eq!(s.hub_revision_created(&Ok(())), PublishStep::Upload);
    assert_eq!(s.hub_uploaded(&Ok(())), PublishStep::Complete);
    assert_eq!(s.hub_revision_completed(&Ok(()), "r9", "h9"), PublishStep::SaveLink);
    assert_eq!(s.hub.link.as_ref().unwrap().local_head_hash, Some(text("h9")));
    assert_eq!(s.hub_uploaded(&Err(text("reset"))), PublishStep::Stop);
    assert_eq!(says(&s), "Upload failed: reset");
}

#[test]
fn signing_in_needs_a_token() {
    let mut s = window();
    s.mode = Mode::HubPasteToken;
    assert_eq!(s.hub_complete_sign_in(), None);
    assert_eq!(says(&s), "Token cannot be empty");
    for c in "tok".chars() {
        s.hub_token_insert_char(c);
    }
    s.hub_token_insert_char('x');
    s.hub_token_backspace();
    assert_eq!(s.hub_complete_sign_in(), Some(text("tok")));
    assert!(!s.hub_finish_sign_in(&Ok((text("me"), text("free"))), &Ok(())));
    assert!(says(&s).starts_with("Signed in as @me"));
    s.hub_sign_out(&Ok(()));
    assert_eq!(says(&s), "Signed out");
}

#[test]
fn a_document_is_linked_to_a_dataset() {
    let mut s = window();
    assert_eq!(s.hub_show_link_dialog(false), LinkDialogStep::SignIn);
    assert_eq!(s.hub_show_link_dialog(true), LinkDialogStep::Stop);
    assert_eq!(says(&s), "Save the file first");
    s.file.current_file = Some(path("/a.sheet"));
    assert_eq!(s.hub_show_link_dialog(true), LinkDialogStep::FetchRepos);
    s.hub_fetch_repos(Some(Ok(vec![RepoInfo { owner: text("me"), slug: text("data") }])));
    assert_eq!(s.hub_select_repo(0), Some((text("me"), text("data"))));
    s.hub_fetch_datasets(Some(Ok(vec![DatasetInfo { id: text("d1"), name: text("Sales") }])));
    assert_eq!(s.hub_confirm_link(0), None);
    assert_eq!(says(&s), "Select a dataset");
    s.hub_select_dataset(0);
    let l = s.hub_confirm_link(0).unwrap();
    assert_eq!(l.dataset_id, "d1");
    assert!(s.hub_link_confirmed(l, "Sales", &Ok(())));
    assert!(says(&s).starts_with("Linked to @me/data"));
}

#[test]
fn only_the_last_upload_goes_ahead() {
    let mut s = window();
    assert_eq!(s.cloud_schedule_upload(), None);
    s.cloud.identity = Some(CloudIdentity {
        sheet_id: 7,
        public_id: text("p"),
        sheet_name: text("n"),
        api_base: text("b"),
        last_synced_hash: None,
        last_synced_at: None,
    });
    assert_eq!(s.cloud_schedule_upload(), None);
    s.file.current_file = Some(path("/n.sheet"));
    let first = s.cloud_schedule_upload().unwrap();
    let second = s.cloud_schedule_upload().unwrap();
    assert!(!s.cloud_upload_due(first));
    assert!(s.cloud_upload_due(second));
    assert_eq!(s.cloud.sync_state, CloudSyncState::Syncing);
    assert!(s.cloud_upload_finished(&UploadResult::Done(text("h")), 9));
    assert_eq!(says(&s), "Synced to cloud");
    assert!(!s.cloud_upload_finished(&UploadResult::Network(text("down")), 9));
    assert_eq!(s.cloud.sync_state, CloudSyncState::Offline);
    assert!(!s.cloud_upload_finished(&UploadResult::Failed(text("500")), 9));
    assert_eq!(says(&s), "Cloud sync error: 500");
}

#[test]
fn a_sheet_is_moved_to_the_cloud_once() {
    let mut s = window();
    assert_eq!(s.cloud_move_to_cloud(), None);
    assert_eq!(says(&s), "Save the file first before moving to cloud.");
    s.file.current_file = Some(path("/Sales.sheet"));
    assert_eq!(s.cloud_move_to_cloud(), Some(text("Sales")));
    let info = SheetInfo { id: 3, public_id: text("p3"), name: text("Sales"), slug: text("sales") };
    assert!(s.cloud_sheet_created(&CloudAnswer::Done(info), &None).is_some());
    assert_eq!(s.cloud_move_to_cloud(), None);
    assert_eq!(says(&s), "This file is already cloud-backed.");
    s.cloud_listed(CloudAnswer::NotAuthenticated);
    assert_eq!(says(&s), "Sign in first to open cloud sheets.");
}

#[test]
fn blobs_are_told_by_their_bytes() {
    assert_eq!(materialize_cloud_blob(b"SQLite format 3\0"), Ok(BlobPlan::WriteAsIs));
    assert_eq!(materialize_cloud_blob(b"{}"), Ok(BlobPlan::Import));
    assert!(materialize_cloud_blob(b"PK").is_err());
    assert!(cache_file_name("my-sheet").ends_with(".sheet"));
}

// ---------------------------------------------------------------------------
// Validation
// ---------------------------------------------------------------------------

#[test]
fn a_list_drops_down_and_is_committed() {
    let mut s = window();
    s.view.selected = (2, 3);
    assert_eq!(s.open_validation_dropdown(None, None), DropdownStep::Finished);
    assert_eq!(says(&s), "No dropdown available");
    assert_eq!(s.open_validation_dropdown(None, Some((0, 5))), DropdownStep::OpenFilter(3));
    let list = ResolvedList { items: vec![text("yes"), text("no")], source_fingerprint: 5 };
    s.open_validation_dropdown(Some(list), None);
    assert!(s.is_validation_dropdown_open());
    s.check_dropdown_staleness(Some(5));
    assert!(s.is_validation_dropdown_open());
    let r = s.route_dropdown_key_event("enter", DropdownOutcome::CommitValue(text("no")));
    let w = r.write.unwrap();
    assert_eq!((w.row, w.col, w.value.as_str()), (2, 3, "no"));
    assert!(r.consumed && !s.is_validation_dropdown_open());
    let list = ResolvedList { items: vec![text("a")], source_fingerprint: 5 };
    s.open_validation_dropdown(Some(list), None);
    let r = s.route_dropdown_key_event("tab", DropdownOutcome::CloseNoCommit);
    assert!(!r.consumed && !s.is_validation_dropdown_open());
    s.close_validation_dropdown(DropdownCloseReason::Zoom);
}

#[test]
fn failures_are_walked_around() {
    let mut s = window();
    let v = |row: usize, failure: Option<ValidationFailureReason>| CellVerdict {
        row,
        col: 0,
        blank: false,
        failure,
    };
    s.circle_invalid_data(&vec![
        v(0, None),
        v(1, Some(ValidationFailureReason::NotInList)),
        v(4, Some(ValidationFailureReason::InvalidValue)),
    ]);
    assert_eq!(says(&s), "Found 2 invalid cells. Press F8 to navigate.");
    assert!(s.is_cell_invalid(1, 0) && !s.is_cell_invalid(0, 0));
    s.next_invalid_cell();
    let here = s.view.selected;
    s.next_invalid_cell();
    assert_ne!(here, s.view.selected);
    s.next_invalid_cell();
    assert_eq!(here, s.view.selected);
    s.clear_cell_invalid(1, 0);
    assert_eq!(s.get_invalid_reason(1, 0), None);
    s.clear_invalid_circles();
    assert_eq!(says(&s), "Cleared 1 invalid cell markers");
    s.circle_invalid_data(&vec![v(0, None)]);
    assert_eq!(says(&s), "All cells are valid");
    s.store_validation_failures(&vec![CellFailure {
        row: 9,
        col: 9,
        reason: ValidationFailureReason::ListEmpty,
    }]);
    assert_eq!(s.failures.list, vec![(9, 9)]);
}

#[test]
fn rules_are_made_from_the_dialog() {
    let mut s = window();
    s.view.selection_end = Some((2, 0));
    s.show_validation_dialog(None);
    assert_eq!(s.mode, Mode::ValidationDialog);
    s.validation.validation_type = ValidationTypeOption::List;
    assert_eq!(s.apply_validation_dialog(&vec![]), ValidationStep::Refused);
    assert_eq!(s.validation.error, Some(text("List source is required")));
    s.validation.list_source = text("a, b");
    match s.apply_validation_dialog(&vec![]) {
        ValidationStep::Put { range, rule, previous } => {
            assert_eq!(range, span(0, 0, 2, 0));
            assert!(previous.is_empty());
            match rule.kind {
                RuleKind::List { source, .. } => {
                    assert_eq!(source, ListSource::Inline(vec![text("a"), text("b")]))
                }
                other => panic!("unexpected rule {:?}", other),
            }
        }
        other => panic!("unexpected step {:?}", other),
    }
    s.validation.validation_type = ValidationTypeOption::WholeNumber;
    assert_eq!(s.apply_validation_dialog(&vec![]), ValidationStep::Refused);
    assert_eq!(s.validation.error, Some(text("Value is required")));
    s.validation.value1 = text("1");
    assert_eq!(s.apply_validation_dialog(&vec![]), ValidationStep::Refused);
    assert_eq!(s.validation.error, Some(text("Maximum value is required")));
    s.validation.numeric_operator = NumericOperatorOption::GreaterThan;
    assert!(matches!(s.apply_validation_dialog(&vec![]), ValidationStep::Put { .. }));
    assert_eq!(parse_constraint_value("12"), ConstraintValue::Number(text("12")));
    assert_eq!(parse_constraint_value("$A1"), ConstraintValue::Formula(text("$A1")));
    assert_eq!(parse_constraint_value("A$1"), ConstraintValue::CellRef(text("A$1")));
    assert_eq!(parse_constraint_value("=A1"), ConstraintValue::Formula(text("=A1")));
}

// ---------------------------------------------------------------------------
// Menus, dialogs and commands
// ---------------------------------------------------------------------------

#[test]
fn menus_open_and_switch() {
    let mut s = window();
    s.toggle_menu(2);
    assert_eq!(s.ui.open_menu, Some(2));
    s.menu_highlight_next(3);
    assert_eq!(s.ui.menu_highlight, Some(0));
    s.menu_highlight_prev(3);
    assert_eq!(s.ui.menu_highlight, Some(2));
    s.menu_switch_next(&vec![4, 0, 5, 0, 6]);
    assert_eq!(s.ui.open_menu, Some(4));
    s.menu_switch_next(&vec![4, 0, 5, 0, 6]);
    assert_eq!(s.ui.open_menu, Some(0));
    s.menu_switch_prev(&vec![4, 0, 5, 0, 6]);
    assert_eq!(s.ui.open_menu, Some(4));
    let entries = vec![MenuEntry::Item('n'), MenuEntry::Separator, MenuEntry::Item('o')];
    assert_eq!(s.menu_execute_by_letter('x', &entries), None);
    assert_eq!(s.menu_execute_by_letter('o', &entries), Some((4, 1)));
    assert_eq!(s.ui.open_menu, None);
}

#[test]
fn accelerators_open_a_category() {
    let mut s = window();
    assert!(!s.toggle_keytips(false, true, 10));
    assert!(s.toggle_keytips(true, true, 10));
    assert_eq!(s.ui.keytips_deadline, Some(3010));
    let r = s.keytips_handle_key("F");
    assert_eq!(r.scope, Some(MenuCategory::File));
    assert!(!s.ui.keytips_active);
    s.toggle_keytips(true, true, 20);
    assert_eq!(s.keytips_handle_key("enter").scope, Some(MenuCategory::File));
    assert!(!s.keytips_handle_key("f").handled);
}

#[test]
fn a_cell_is_gone_to() {
    let mut s = window();
    s.show_goto();
    assert_eq!(s.mode, Mode::GoTo);
    for c in "b3".chars() {
        s.goto_insert_char(c);
    }
    assert_eq!(s.dialogs.goto_input, "B3");
    s.confirm_goto(Some((2, 1)), &None);
    assert_eq!(s.view.selected, (2, 1));
    assert_eq!(says(&s), "Jumped to B3");
    s.show_goto();
    s.confirm_goto(None, &None);
    assert_eq!(says(&s), "Invalid cell reference");
    s.confirm_goto(Some((5_000_000, 0)), &None);
    assert_eq!(says(&s), "Cell reference out of range");
    assert_eq!(s.cell_ref(), "B3");
}

#[test]
fn themes_are_picked_by_name() {
    let mut s = window();
    let theme = |id: &str, name: &str| ThemeName { id: text(id), name: text(name) };
    let themes = vec![theme("system", "System"), theme("ink", "Ink"), theme("paper", "Paper")];
    for c in "PA".chars() {
        s.theme_picker_insert_char(c, &themes);
    }
    assert_eq!(s.filter_themes(&themes), vec![theme("paper", "Paper")]);
    assert_eq!(s.active_theme(&theme("ink", "Ink")), &theme("paper", "Paper"));
    let choice = s.theme_picker_execute(&themes, "system", "ink").unwrap();
    assert_eq!(choice, ThemeChoice { show: text("paper"), keep: text("paper") });
    assert_eq!(says(&s), "Applied theme: Paper");
    let choice = s.apply_theme_at_index(0, &themes, "system", "ink").unwrap();
    assert_eq!(choice, ThemeChoice { show: text("ink"), keep: text("system") });
    assert_eq!(s.active_theme(&theme("ink", "Ink")), &theme("ink", "Ink"));
}

#[test]
fn paste_special_remembers_its_choice() {
    let mut s = window();
    s.show_paste_special();
    s.paste_special_down();
    assert_eq!(s.apply_paste_special(), PasteType::Values);
    s.show_paste_special();
    assert_eq!(s.dialogs.paste_selected, PasteType::Values);
}

#[test]
fn licenses_are_checked() {
    let mut s = window();
    s.show_license();
    s.license_insert_char('k');
    s.apply_license(LicenseVerdict::Refused(text("expired")));
    assert_eq!(s.dialogs.license_error, Some(text("expired")));
    s.apply_license(LicenseVerdict::Valid(text("Pro")));
    assert_eq!(says(&s), "License activated: Pro");
    s.clear_license();
    assert_eq!(says(&s), "License removed");
    s.start_pro_trial(Ok(14));
    assert_eq!(says(&s), "Pro trial started — 14 days remaining");
}

#[test]
fn traces_are_shown_unless_too_large() {
    let mut s = window();
    s.set_trace_path(TracePath {
        path: vec![DiffCell { sheet: 0, row: 1, col: 2 }],
        has_dynamic_refs: true,
        truncated: false,
    });
    assert!(s.dialogs.trace_path.is_some() && s.dialogs.trace_incomplete);
    s.clear_trace_path();
    assert!(s.dialogs.trace_path.is_none());
}

#[test]
fn newlines_and_functions_go_into_the_cell() {
    let mut s = window();
    s.insert_newline("ab");
    assert_eq!(s.mode, Mode::Edit);
    assert_eq!(s.edit.value, "ab\n");
    s.edit.cursor = 1;
    s.insert_newline("");
    assert_eq!(s.edit.value, "a\nb\n");
    let mut t = window();
    t.insert_function("SUM", "SUM(range)", "old");
    assert_eq!(t.edit.value, "=SUM(");
    assert!(t.is_formula_content());
    assert!(t.mode_is_editing());
}

#[test]
fn commands_have_their_effects() {
    assert_eq!(
        command_effect(CommandId::BordersOutline),
        CommandEffect::Borders(BorderApplyMode::Outline)
    );
    assert_eq!(
        command_effect(CommandId::TransformUppercase),
        CommandEffect::Transform(TransformOp::Uppercase)
    );
    assert_eq!(command_effect(CommandId::StyleTotal), CommandEffect::Style(CellStyle::Total));
    let mut s = window();
    assert_eq!(s.dispatch_command(CommandId::ToggleInspector, false, &None), CommandEffect::Done);
    assert!(s.ui.inspector_visible);
    s.dispatch_command(CommandId::ToggleProfiler, false, &None);
    assert!(s.ui.profiler_visible && !s.ui.inspector_visible);
    let r = s.dispatch_action(
        SearchAction::JumpToCell { row: 7, col: 8 },
        "",
        false,
        &None,
    );
    assert_eq!(r, ActionEffect::MakeVisible { row: 7, col: 8 });
    assert_eq!(s.view.selected, (7, 8));
    assert_eq!(
        command_effect(CommandId::PasteHeadersToTerminal),
        CommandEffect::Counted(CommandId::PasteHeadersToTerminal, AiMetricEvent::PasteContext)
    );
}

#[test]
fn commands_act_on_the_window() {
    let mut s = window();
    s.dispatch_command(CommandId::ZoomIn, false, &None);
    assert!(s.file.pending_title_refresh);
    assert_ne!(says(&s), "");
    assert_eq!(s.recent_commands, vec![CommandId::ZoomIn]);
    let larger = s.view.zoom;
    s.dispatch_command(CommandId::ZoomReset, false, &None);
    assert_eq!(says(&s), "Zoom: 100%");
    assert!(s.view.zoom < larger);
    s.dispatch_command(CommandId::GoToCell, false, &None);
    assert_eq!(s.mode, Mode::GoTo);
    s.dispatch_command(CommandId::ShowAbout, false, &None);
    assert_eq!(s.mode, Mode::About);
    s.dispatch_command(CommandId::ClearInvalidCircles, false, &None);
    assert_eq!(says(&s), "Cleared 0 invalid cell markers");
    assert_eq!(
        s.dispatch_command(CommandId::FormatCurrency, false, &None),
        CommandEffect::Number(NumberFormat::Currency { decimals: 2 })
    );
    assert!(s.file.is_modified);
    s.dispatch_command(CommandId::ZoomReset, false, &None);
    assert_eq!(
        s.recent_commands,
        vec![
            CommandId::ZoomReset,
            CommandId::FormatCurrency,
            CommandId::ClearInvalidCircles,
            CommandId::ShowAbout,
            CommandId::GoToCell,
            CommandId::ZoomIn,
        ]
    );
    s.dispatch_command(CommandId::ZoomReset, false, &None);
    assert_eq!(
        s.recent_commands,
        vec![
            CommandId::ZoomReset,
            CommandId::FormatCurrency,
            CommandId::ClearInvalidCircles,
            CommandId::ShowAbout,
            CommandId::GoToCell,
            CommandId::ZoomIn,
        ]
    );
}

// ---------------------------------------------------------------------------
// Terminal and prompt
// ---------------------------------------------------------------------------

#[test]
fn pasted_text_is_bracketed() {
    assert_eq!(
        write_to_pty_bracketed("ls", &Setting::Inherit),
        vec![text("\x1b[200~"), text("ls"), text("\x1b[201~")]
    );
    assert_eq!(write_to_pty_bracketed("ls", &Setting::Value(false)), vec![text("ls")]);
}

#[test]
fn structured_results_are_opened_once() {
    let mut s = window();
    s.terminal.watching_for_result = true;
    assert_eq!(s.try_extract_structured_result(true, None, &Setting::Inherit), None);
    assert_eq!(says(&s), "No structured output detected.");
    s.try_extract_structured_result(true, Some(text("{}")), &Setting::Value(false));
    let r = s.open_structured_result().unwrap();
    assert_eq!(r.result, "{}");
    assert_eq!(s.open_structured_result(), None);
    s.structured_result_opened("peek1");
    assert_eq!(says(&s), "Opened peek1 as new sheet.");
}

#[test]
fn integrity_is_reported() {
    let mut s = window();
    s.verify_integrity(VerificationStatus::Verified);
    assert_eq!(says(&s), "No active file to verify.");
    s.file.current_file = Some(path("/a.sheet"));
    s.verify_integrity(VerificationStatus::Unverified);
    assert_eq!(says(&s), "No verification baseline. Use 'Approve Model' first.");
    s.verify_integrity(VerificationStatus::Verified);
    assert_eq!(says(&s), "✓ Verification passed");
    s.verify_integrity(VerificationStatus::Drifted);
    assert!(says(&s).starts_with("✗ Verification failed — drifted"));
}

#[test]
fn the_default_app_prompt_comes_once() {
    let mut s = window();
    s.file.meta.path = Some(path("/home/me/data.csv"));
    s.file.meta.is_saved = true;
    let mut session = PromptSession::new();
    let choices = PromptChoices { dismissed: false, completed: false, cooling_down: false };
    assert!(!s.should_show_default_app_prompt(false, &session, &choices, false));
    assert!(s.should_show_default_app_prompt(true, &session, &choices, false));
    assert!(!s.should_show_default_app_prompt(true, &session, &choices, true));
    assert!(matches!(s.on_default_app_prompt_shown(&mut session), PromptNote::Shown(_)));
    assert_eq!(s.prompt.state, DefaultAppPromptState::Showing);
    s.set_as_default_app(true, true, true, 0);
    assert_eq!(s.prompt.state, DefaultAppPromptState::Success);
    s.check_default_app_prompt_timer(true, true, SUCCESS_NANOS + 1);
    assert_eq!(s.prompt.state, DefaultAppPromptState::Hidden);
    assert!(!s.should_show_default_app_prompt(true, &session, &choices, false));
}
