use visigrid::ai_settings::{AIProviderOption, AISettingsFocus, AITestStatus, AiSettings};
use visigrid::ask_ai::{
    AiConfig, AiConfigStatus, AiVerb, Analysis, AskAIContextMode, AskAIStatus, AskError,
    ContextInfo,
};
use visigrid::chrome::{FormatBarState, MenuCategory};
use visigrid::cloud::{CloudAnswer, CloudIdentity, CloudSyncState, SheetInfo};
use visigrid::commands::SearchAction;
use visigrid::default_prompt::{DefaultAppPromptState, PromptNote};
use visigrid::dialogs::{PasteType, ThemeName};
use visigrid::diff_report::{DiffCell, DiffReport};
use visigrid::document::{CellRange, ValidationSpec};
use visigrid::dropdown::{DropdownOutcome, ResolvedList};
use visigrid::failures::{CellFailure, CellVerdict, ValidationFailureReason};
use visigrid::file_type::SpreadsheetFileType;
use visigrid::files::reads_verification;
use visigrid::fitting::CellSpan;
use visigrid::grid::{NumberFormat, RepeatAction};
use visigrid::hub::{HubLink, HubStatus, RepoInfo};
use visigrid::hub_publish::PublishStep;
use visigrid::saving::{save_format, SaveFormat, SaveStep};
use visigrid::state::{
    CycleBanner, DocPath, DocumentMeta, ExportReport, ImportReport, Mode, RecalcReport, Spreadsheet,
};
use visigrid::validation_dialog::{ValidationDialogFocus, ValidationStep, ValidationTypeOption};

fn text(s: &str) -> String {
    s.to_string()
}

fn meta(name: &str) -> DocumentMeta {
    DocumentMeta {
        display_name: text(name),
        is_saved: false,
        is_read_only: false,
        source: None,
        path: None,
    }
}

fn window() -> Spreadsheet {
    Spreadsheet::new(meta("Book1"), 1, 1000, 100)
}

fn says(s: &Spreadsheet) -> &str {
    s.status_message.as_deref().unwrap_or("")
}

fn path(display: &str) -> DocPath {
    let name = display.rsplit('/').next().unwrap_or("").to_string();
    let dot = name.rfind('.').filter(|i| *i > 0);
    DocPath {
        display: text(display),
        key: text(display),
        stem: Some(dot.map_or(name.clone(), |i| name[..i].to_string())),
        ext: dot.map(|i| name[i + 1..].to_string()),
        parent: display.rfind('/').map(|i| display[..i].to_string()),
        file_name: Some(name),
    }
}

fn span(min_row: usize, min_col: usize, max_row: usize, max_col: usize) -> CellSpan {
    CellSpan { min_row, min_col, max_row, max_col }
}

fn link() -> HubLink {
    HubLink {
        repo_owner: text("me"),
        repo_slug: text("data"),
        dataset_id: text("d1"),
        local_head_id: Some(text("r1")),
        local_head_hash: None,
        link_mode: text("pull"),
        linked_at: text("t"),
        api_base: text("b"),
    }
}

fn config() -> AiConfig {
    AiConfig {
        status: AiConfigStatus::Ready,
        provider: text("OpenAI"),
        model: text("gpt"),
        privacy_mode: false,
        api_key: None,
        blocking_reason: None,
        can_analyze: true,
    }
}

fn context() -> ContextInfo {
    ContextInfo {
        actual_range: text("A1:B2"),
        top_left: text("Name"),
        row_count: 2,
        col_count: 2,
        has_headers: false,
        warnings: vec![text("w")],
    }
}

// ---------------------------------------------------------------------------
// The assistant
// ---------------------------------------------------------------------------

#[test]
fn assistant_settings_are_saved() {
    let mut s = window();
    s.show_ai_settings(AiSettings::new());
    s.apply_ai_settings(Err(text("locked")), "", "");
    assert_eq!(s.ai.settings.error, Some(text("Failed to save: locked")));
    s.apply_ai_settings(Ok(()), "", "");
    assert_eq!(says(&s), "AI settings updated: AI disabled");
    assert_eq!(s.mode, Mode::Navigation);
    s.ai.settings.provider = AIProviderOption::OpenAI;
    s.apply_ai_settings(Ok(()), "OpenAI", "gpt");
    assert_eq!(says(&s), "AI settings updated: OpenAI (gpt)");
}

#[test]
fn a_connection_is_tested_by_its_key() {
    let mut s = window();
    s.ai.settings.provider = AIProviderOption::Gemini;
    assert!(!s.ai_settings_test_connection("Gemini"));
    assert_eq!(s.ai.settings.test_status, AITestStatus::Error(text("No API key configured")));
    s.ai.settings.key_present = true;
    s.ai.settings.key_source = text("keychain");
    assert!(!s.ai_settings_test_connection("Gemini"));
    assert_eq!(
        s.ai.settings.test_status,
        AITestStatus::Success(text("API key present (keychain) - Gemini configured"))
    );
    s.ai.settings.provider = AIProviderOption::Local;
    assert!(s.ai_settings_test_connection("Local"));
}

#[test]
fn assistant_settings_are_typed() {
    let mut s = window();
    s.ai.settings.focus = AISettingsFocus::Model;
    s.ai_settings_type_char('g');
    s.ai_settings_type_char('p');
    s.ai_settings_backspace();
    assert_eq!(s.ai.settings.model, "g");
    s.ai_settings_paste("pt\n");
    assert_eq!(s.ai.settings.model, "gpt");
    s.ai.settings.provider = AIProviderOption::Grok;
    s.ai_settings_tab(false);
    assert_eq!(s.ai.settings.focus, AISettingsFocus::KeyInput);
    s.ai_settings_tab(true);
    assert_eq!(s.ai.settings.focus, AISettingsFocus::Model);
    assert_eq!(s.ai_settings_clear_key(), Some(text("grok")));
    s.ai.settings.provider = AIProviderOption::Local;
    assert_eq!(s.ai_settings_clear_key(), None);
}

#[test]
fn an_analysis_is_asked_for() {
    let mut s = window();
    let weak = AiConfig { can_analyze: false, ..config() };
    assert!(!s.show_analyze(&weak));
    assert_eq!(says(&s), "OpenAI provider does not support Analyze.");
    assert!(s.show_analyze(&config()));
    assert_eq!(s.ask_ai.verb, AiVerb::Analyze);
    s.ask_ai_type_char('q');
    s.ask_ai_type_char('x');
    s.ask_ai_backspace();
    s.ask_ai_paste("uestion");
    assert_eq!(s.ask_ai.question, "question");
    s.ask_ai_submit_as("a1", &config(), &context()).unwrap();
    let analysis = Analysis {
        raw_response: Some(text("raw")),
        analysis: text("rising"),
        warnings: vec![],
    };
    s.ask_ai_analysis_answered("a1", Ok(analysis));
    assert_eq!(s.ask_ai.status, AskAIStatus::Success);
    assert_eq!(s.ask_ai.response_text, Some(text("rising")));
    let details = s.ask_ai_copy_details("analyze.v1", "None");
    assert!(details.starts_with("=== Analyze AI Diagnostic Details ===\n\nContract: analyze.v1"));
    assert!(details.contains("Cells sent: 4 (2 rows x 2 cols)\nTruncation: None\n"));
    assert!(details.ends_with("Raw response:\nraw\n"));
    s.hide_ask_ai();
    assert_eq!(s.mode, Mode::Navigation);
}

#[test]
fn the_context_goes_by_its_mode() {
    let mut s = window();
    s.view.selected = (5, 5);
    s.view.selection_end = Some((3, 6));
    let region = span(1, 1, 8, 8);
    let used = span(0, 0, 20, 20);
    s.ask_ai_update_context(region, used, "Data", "F4:G6", context());
    assert_eq!(s.ask_ai.selected_range, Some(span(3, 5, 5, 6)));
    assert_eq!(s.ask_ai.context_summary, "Data!F4:G6");
    s.ask_ai_toggle_context_selector();
    s.ask_ai_set_context_mode(AskAIContextMode::EntireUsedRange);
    s.ask_ai_update_context(region, used, "Data", "A1:U21", context());
    assert_eq!(s.ask_ai.selected_range, Some(used));
    s.ask_ai_set_context_mode(AskAIContextMode::CurrentRegion);
    s.ask_ai_update_context(region, used, "Data", "B2:I9", context());
    assert_eq!(s.ask_ai.selected_range, Some(region));
    let open = s.ask_ai.sent_panel_expanded;
    s.ask_ai_toggle_sent_panel();
    assert_ne!(s.ask_ai.sent_panel_expanded, open);
}

#[test]
fn a_failed_question_can_be_asked_again() {
    let mut s = window();
    s.show_ask_ai(&config());
    s.ask_ai.question = text("q");
    s.ask_ai_submit_as("1", &config(), &context()).unwrap();
    s.ask_ai_formula_answered("1", Err(AskError::NetworkError(text("connection reset"))), &None);
    assert!(matches!(s.ask_ai.status, AskAIStatus::Error(_)));
    assert!(s.ask_ai_retry(false, &config(), &context()).is_none());
    assert!(s.ask_ai_retry(true, &config(), &context()).is_some());
    assert_eq!(s.ask_ai_source().unwrap().provider, "OpenAI");
    s.ask_ai_refine();
    assert_eq!(s.ask_ai.question, "q");
    assert!(s.ask_ai_source().is_none());
}

// ---------------------------------------------------------------------------
// Menus and dialogs
// ---------------------------------------------------------------------------

#[test]
fn the_format_menu_opens_and_closes() {
    let mut s = window();
    s.toggle_format_menu();
    assert!(s.ui.format_menu_open);
    s.toggle_format_menu();
    assert!(!s.ui.format_menu_open);
    s.open_format_menu();
    s.close_format_menu();
    assert!(!s.ui.format_menu_open);
    let bar = FormatBarState {
        size_editing: false,
        size_dropdown: true,
        number_format_menu_open: false,
        cell_style_menu_open: false,
    };
    assert!(bar.is_active(false));
    assert!(FormatBarState { size_dropdown: false, ..bar }.is_active(true));
}

#[test]
fn a_highlighted_entry_is_executed() {
    let mut s = window();
    assert_eq!(s.menu_execute_highlighted(), None);
    s.toggle_menu(1);
    s.menu_highlight_next(4);
    s.menu_highlight_next(4);
    assert_eq!(s.menu_execute_highlighted(), Some((1, 1)));
    assert_eq!(s.ui.open_menu, None);
}

#[test]
fn accelerators_wait_for_the_grid() {
    let mut s = window();
    assert!(s.should_handle_option_accelerators(false, false, false));
    assert!(!s.should_handle_option_accelerators(true, false, false));
    let list = ResolvedList { items: vec![text("a")], source_fingerprint: 1 };
    s.open_validation_dropdown(Some(list), None);
    assert!(!s.should_handle_option_accelerators(false, false, false));
    assert!(!s.route_dropdown_char_event(&DropdownOutcome::NotConsumed));
    assert!(s.route_dropdown_char_event(&DropdownOutcome::Consumed));
    assert_eq!(s.ui.last_keytips_scope, None::<MenuCategory>);
}

#[test]
fn the_function_key_tip_is_for_one_system() {
    let mut s = window();
    s.maybe_show_f2_tip(false, false);
    assert!(!s.should_show_f2_tip(true, false));
    s.maybe_show_f2_tip(true, false);
    assert!(s.should_show_f2_tip(true, false));
    assert!(!s.should_show_f2_tip(true, true));
    assert!(!s.should_show_f2_tip(false, false));
    s.hide_f2_tip();
    assert!(!s.should_show_f2_tip(true, false));
    s.maybe_show_f2_tip(true, false);
    s.dismiss_f2_tip();
    assert!(!s.ui.show_f2_tip);
}

#[test]
fn a_file_is_converted_in_the_terminal() {
    let mut s = window();
    s.show_convert_picker(false);
    assert_eq!(says(&s), "No active workbook to convert.");
    s.file.current_file = Some(path("/w/a.sheet"));
    s.show_convert_picker(true);
    assert_eq!(says(&s), "Save the file before converting.");
    s.show_convert_picker(false);
    assert_eq!(s.mode, Mode::ConvertPicker);
    s.cancel_convert_picker();
    assert_eq!(s.mode, Mode::Navigation);
    s.ui.convert_selected = 2;
    assert_eq!(
        s.execute_convert(&Some(text("a.sheet"))),
        Some(text("vgrid convert a.sheet -t json -o a.json  # Output: ./a.json"))
    );
    assert_eq!(
        s.execute_convert(&None),
        Some(text("vgrid convert \"/w/a.sheet\" -t json -o a.json  # Output: ./a.json"))
    );
}

#[test]
fn commands_are_put_into_the_terminal() {
    let mut s = window();
    assert_eq!(s.run_vgrid_peek_json(), None);
    assert_eq!(says(&s), "Save workbook first.");
    s.file.current_file = Some(path("/w/a.sheet"));
    let peek = s.run_vgrid_peek_json().unwrap();
    assert!(peek.starts_with("vgrid peek --headers"));
    assert!(peek.ends_with(" --json\n"));
    let calc = s.run_vgrid_calc_json().unwrap();
    assert!(calc.contains("vgrid calc '=FORMULA' -f csv --headers --json"));
    s.dismiss_structured_result();
    assert!(s.terminal.pending.is_none());
}

#[test]
fn the_name_box_goes_to_a_cell() {
    let mut s = window();
    s.view.selected = (1, 1);
    s.start_name_box_edit();
    assert_eq!(s.dialogs.name_box_input, "B2");
    s.name_box_insert_char('c');
    assert_eq!(s.dialogs.name_box_input, "C");
    s.name_box_insert_char('9');
    s.name_box_backspace();
    s.name_box_insert_char('4');
    s.confirm_name_box(Some((3, 2)), &None);
    assert_eq!(s.view.selected, (3, 2));
    assert!(!s.dialogs.name_box_editing);
    s.show_goto();
    s.goto_insert_char('a');
    s.goto_backspace();
    assert_eq!(s.dialogs.goto_input, "");
    s.hide_goto();
    assert_eq!(s.mode, Mode::Navigation);
}

#[test]
fn a_merged_cell_is_gone_to_whole() {
    let mut s = window();
    s.show_goto();
    s.confirm_goto(Some((4, 4)), &Some(span(3, 3, 5, 5)));
    assert_eq!(s.view.selected, (3, 3));
}

#[test]
fn small_dialogs_open_and_close() {
    let mut s = window();
    s.show_preferences();
    assert_eq!(s.mode, Mode::Preferences);
    s.hide_preferences();
    s.show_about();
    assert_eq!(s.mode, Mode::About);
    s.hide_about();
    assert_eq!(s.mode, Mode::Navigation);
    s.show_paste_special();
    s.paste_special_up();
    assert_eq!(s.dialogs.paste_selected, PasteType::All);
    s.hide_paste_special();
    s.license_insert_char('a');
    s.license_insert_char('b');
    s.license_backspace();
    assert_eq!(s.dialogs.license_input, "a");
    s.view.selected = (2, 2);
    s.toggle_inspector_pin();
    assert_eq!(s.dialogs.inspector_pinned, Some((2, 2)));
    s.toggle_inspector_pin();
    assert_eq!(s.dialogs.inspector_pinned, None);
}

#[test]
fn themes_are_walked() {
    let mut s = window();
    let theme = |id: &str| ThemeName { id: text(id), name: text(id) };
    let themes = vec![theme("a"), theme("b")];
    s.theme_picker_down(&themes);
    s.theme_picker_down(&themes);
    assert_eq!(s.dialogs.theme_selected, 1);
    assert_eq!(s.dialogs.theme_preview, Some(theme("b")));
    s.theme_picker_up(&themes);
    assert_eq!(s.dialogs.theme_selected, 0);
    s.theme_picker_insert_char('z', &themes);
    assert_eq!(s.dialogs.theme_preview, None);
    s.theme_picker_backspace(&themes);
    assert_eq!(s.dialogs.theme_preview, Some(theme("a")));
}

#[test]
fn differences_are_jumped_to() {
    let mut s = window();
    let report = DiffReport {
        since_entry_label: text("x"),
        entries_spanned: 1,
        value_changes: vec![],
        formula_changes: vec![],
        structural_changes: vec![],
        named_range_changes: vec![],
        validation_changes: vec![],
        format_change_count: 0,
    };
    s.show_explain_diff(Some(report));
    s.toggle_diff_ai_filter();
    assert!(s.diff.ai_only_filter);
    assert_eq!(s.diff_jump_to_cell(2, 7, 8, 0), Some(2));
    assert_eq!(s.view.selected, (7, 8));
    assert_eq!(s.diff.selected_entry, Some(DiffCell { sheet: 2, row: 7, col: 8 }));
    s.show_history_context_menu(9);
    assert_eq!(s.diff_jump_and_close(2), None);
    assert_eq!(s.diff.menu_entry, Some(9));
    assert_eq!(s.mode, Mode::Navigation);
    s.show_history_context_menu(5);
    assert_eq!(s.diff.menu_entry, Some(5));
    s.hide_history_context_menu();
    assert_eq!(s.diff.menu_entry, None);
}

#[test]
fn settings_are_opened_from_the_search() {
    let mut s = window();
    s.setting_opened("theme", &Some(text("settings.json")), Ok(()));
    assert_eq!(says(&s), "Copied \"theme\" to clipboard — paste into settings.json");
    s.setting_opened("theme", &None, Err(text("denied")));
    assert_eq!(says(&s), "Failed to open settings: denied");
    let action = SearchAction::CopyToClipboard { text: text("t"), description: text("Path") };
    s.dispatch_action(action, "", false, &None);
    assert_eq!(says(&s), "Path");
}

#[test]
fn formats_of_the_selection_are_remembered() {
    let mut s = window();
    s.toggle_underline(true);
    assert_eq!(s.grid.repeat, Some(RepeatAction::Underline(true)));
    s.toggle_strikethrough(false);
    assert_eq!(s.grid.repeat, Some(RepeatAction::Strikethrough(false)));
    assert_eq!(s.format_percent(), NumberFormat::Percent { decimals: 2 });
    assert_eq!(
        Spreadsheet::format_number_shortcut(),
        NumberFormat::Number { decimals: 2, thousands: true }
    );
    assert_eq!(Spreadsheet::format_general_shortcut(), NumberFormat::General);
    assert_eq!(Spreadsheet::format_time_shortcut(), NumberFormat::Time);
    s.mode = Mode::Edit;
    s.window_resized();
    assert!(s.edit.scroll_dirty);
}

// ---------------------------------------------------------------------------
// Validation
// ---------------------------------------------------------------------------

fn verdict(row: usize, bad: bool) -> CellVerdict {
    CellVerdict {
        row,
        col: 0,
        blank: false,
        failure: if bad { Some(ValidationFailureReason::InvalidValue) } else { None },
    }
}

#[test]
fn rules_are_applied_and_cleared() {
    let mut s = window();
    s.view.selection_end = Some((1, 0));
    s.show_validation_dialog(None);
    s.validation.validation_type = ValidationTypeOption::List;
    s.validation.list_source = text("x, y");
    let rule = |r0: usize, c0: usize, r1: usize, c1: usize| ValidationSpec {
        range: CellRange { start_row: r0, start_col: c0, end_row: r1, end_col: c1 },
        rule: text("{}"),
    };
    let rules = vec![rule(1, 0, 4, 0), rule(2, 0, 2, 0), rule(0, 0, 0, 3)];
    match s.apply_validation_dialog(&rules) {
        ValidationStep::Put { previous, .. } => {
            assert_eq!(previous, vec![rule(1, 0, 4, 0), rule(0, 0, 0, 3)]);
        }
        _ => panic!("the rule is put on the range"),
    }
    s.validation_applied(&vec![verdict(0, true), verdict(1, false)]);
    assert!(says(&s).contains("1 invalid — press F8 to jump"));
    assert!(s.is_cell_invalid(0, 0));
    s.show_validation_dialog(None);
    assert_eq!(
        s.clear_validation_dialog(&vec![rule(2, 0, 2, 0)]),
        ValidationStep::Clear { range: span(0, 0, 1, 0), cleared: None }
    );
    s.show_validation_dialog(None);
    assert_eq!(
        s.clear_validation_dialog(&rules),
        ValidationStep::Clear {
            range: span(0, 0, 1, 0),
            cleared: Some(vec![rule(1, 0, 4, 0), rule(0, 0, 0, 3)]),
        }
    );
    assert!(says(&s).starts_with("Cleared validation from "));
    assert!(!s.is_cell_invalid(0, 0));
}

#[test]
fn cells_are_left_out_of_validation() {
    let mut s = window();
    s.store_validation_failures(&vec![CellFailure {
        row: 0,
        col: 0,
        reason: ValidationFailureReason::NotInList,
    }]);
    assert_eq!(s.exclude_from_validation(), span(0, 0, 0, 0));
    assert!(says(&s).starts_with("Excluded "));
    assert_eq!(s.clear_validation_exclusions(vec![], &vec![]), None);
    assert_eq!(says(&s), "No exclusions to clear in selection");
    let left_out = CellRange { start_row: 0, start_col: 0, end_row: 3, end_col: 3 };
    assert_eq!(
        s.clear_validation_exclusions(vec![left_out], &vec![verdict(0, true)]),
        Some((span(0, 0, 0, 0), vec![left_out]))
    );
    assert!(says(&s).starts_with("Cleared exclusions from "));
}

#[test]
fn the_validation_dialog_is_typed_into() {
    let mut s = window();
    s.show_validation_dialog(None);
    s.validation.validation_type = ValidationTypeOption::List;
    s.validation.focus = ValidationDialogFocus::Source;
    s.validation_dialog_type_char('a');
    s.validation_dialog_type_char('b');
    s.validation_dialog_backspace();
    assert_eq!(s.validation.list_source, "a");
    let before = s.validation.focus;
    s.validation_dialog_tab(false);
    s.validation_dialog_tab(true);
    assert_eq!(s.validation.focus, before);
}

#[test]
fn failures_are_walked_back() {
    let mut s = window();
    s.prev_invalid_cell();
    assert_eq!(says(&s), "No validation failures to navigate");
    s.circle_invalid_data(&vec![verdict(1, true), verdict(2, true), verdict(3, true)]);
    s.next_invalid_cell();
    let here = s.view.selected;
    s.next_invalid_cell();
    s.prev_invalid_cell();
    assert_eq!(s.view.selected, here);
}

// ---------------------------------------------------------------------------
// Files
// ---------------------------------------------------------------------------

#[test]
fn a_new_document_takes_the_place_of_the_old_one() {
    let mut s = window();
    s.file.current_file = Some(path("/a.sheet"));
    s.file.is_modified = true;
    s.view.selected = (9, 9);
    s.grid.previewing = true;
    s.new_in_place(meta("Book2"), 8);
    assert_eq!(s.file.current_file, None);
    assert!(!s.file.is_modified && s.can_edit());
    assert_eq!(s.view.selected, (0, 0));
    assert_eq!(s.cached_sheet_id(), 8);
    assert_eq!(says(&s), "New workbook created");
    assert!(reads_verification(&path("/a.sheet")));
    assert!(!reads_verification(&path("/a.SHEET")));
}

#[test]
fn cycles_are_shown_until_dismissed() {
    let mut s = window();
    assert!(!s.has_unresolved_cycles(false));
    s.last_recalc = Some(RecalcReport { cycle_cells: 3, converged: false });
    assert_eq!(s.current_cycle_count(), 3);
    assert!(s.has_unresolved_cycles(false));
    s.dismiss_cycle_banner();
    assert_eq!(s.cycle_banner, CycleBanner::Dismissed);
    assert_eq!(s.reimport_with_freeze(true), None);
    s.file.current_file = Some(path("/c.xlsx"));
    assert!(s.reimport_with_freeze(false).is_some());
    assert_eq!(says(&s), "Re-importing with Freeze Cycle Values...");
    assert_eq!(Spreadsheet::restored_sheet(1, 2), Some(1));
    assert_eq!(Spreadsheet::restored_sheet(2, 2), None);
}

#[test]
fn reports_are_shown_and_hidden() {
    let mut s = window();
    s.file.import_result = Some(ImportReport {
        recalc_errors: 1,
        recalc_circular: 0,
        freeze_applied: false,
        cycles_frozen: 0,
        duration_ms: 1,
    });
    s.show_import_report();
    assert_eq!(s.mode, Mode::ImportReport);
    s.hide_import_report();
    assert_eq!(s.mode, Mode::Navigation);
    s.file.export_result = Some(ExportReport { has_warnings: true, warning_summary: None });
    s.show_export_report();
    assert_eq!(s.mode, Mode::ExportReport);
    s.hide_export_report();
    assert_eq!(s.mode, Mode::Navigation);
}

#[test]
fn saving_and_closing_waits_for_a_name() {
    let mut s = window();
    assert!(matches!(s.save_and_close(), SaveStep::Ask(_)));
    assert!(s.file.close_after_save);
    s.save_as_cancelled();
    assert!(!s.file.close_after_save);
    s.save_and_close();
    s.save_to_path(&path("/x.sheet"), meta("x"), Ok(2));
    assert_eq!(says(&s), "Saved: /x.sheet (2 named ranges)");
    assert!(s.may_close());
    assert!(s.save_as_finished());
    s.file.is_modified = true;
    assert!(!s.may_close());
    assert!(!s.file.close_after_save);
    assert_eq!(save_format(&path("/x.CSV")), SaveFormat::Csv);
    assert_eq!(save_format(&path("/x.sheet")), SaveFormat::Native);
    s.file.loaded_run_records = vec![text("1")];
    s.file.pending_run_records = vec![text("2")];
    assert_eq!(s.run_records_to_save(), vec![text("1"), text("2")]);
}

#[test]
fn sizes_are_reached_by_sheet() {
    let mut s = window();
    s.sheet_col_widths_for_index_mut(1, &vec![1, 2]).insert(3, 90.0f32.to_bits());
    s.sheet_row_heights_for_index_mut(7, &vec![1, 2]).insert(4, 50.0f32.to_bits());
    assert_eq!(s.row_height(4), 50.0f32.to_bits());
    s.update_cached_sheet_id(2);
    assert_eq!(s.col_width(3), 90.0f32.to_bits());
    let change = s.record_row_height_change(4, Some(60.0f32.to_bits())).unwrap();
    assert_eq!((change.old, change.new), (Some(60.0f32.to_bits()), None));
    s.bump_cf_rules_rev();
    assert_eq!(s.cf_rules_rev, 2);
}

#[test]
fn columns_and_rows_are_fitted_together() {
    let mut s = window();
    let needed = vec![(0, 100.0f32.to_bits()), (1, 200.0f32.to_bits())];
    s.auto_fit_selected_col_widths(0, true, &vec![span(0, 0, 0, 1)], &needed);
    assert_eq!(s.col_width(1), 200.0f32.to_bits());
    s.auto_fit_selected_col_widths(0, false, &vec![span(0, 0, 0, 1)], &needed);
    s.auto_fit_all_data_columns(&vec![0, 1], &needed);
    assert_eq!(s.col_width(0), 100.0f32.to_bits());
    s.set_row_height(2, 70.0f32.to_bits());
    s.set_row_height(3, 70.0f32.to_bits());
    s.auto_fit_selected_row_heights(2, true, &vec![span(2, 0, 3, 0)]);
    assert!(!s.has_custom_row_heights());
}

#[test]
fn file_types_have_names() {
    assert_eq!(SpreadsheetFileType::Csv.short_name(), "CSV files");
    assert_eq!(SpreadsheetFileType::Excel.display_name(), "Excel spreadsheets");
    assert!(!SpreadsheetFileType::Tsv.uti().is_empty());
    assert_eq!(SpreadsheetFileType::Native.display_name(), "VisiGrid files");
}

#[test]
fn a_prompt_can_be_dismissed() {
    let mut s = window();
    s.file.meta.path = Some(path("/d.csv"));
    s.prompt.state = DefaultAppPromptState::Showing;
    s.prompt.file_type = Some(SpreadsheetFileType::Csv);
    assert!(matches!(s.dismiss_default_app_prompt(), PromptNote::Dismissed(_)));
    assert_eq!(s.prompt.state, DefaultAppPromptState::Hidden);
    s.prompt.state = DefaultAppPromptState::NeedsSettings;
    s.prompt.file_type = Some(SpreadsheetFileType::Csv);
    s.recheck_default_app_handler(true, true, 0);
    assert_eq!(s.prompt.state, DefaultAppPromptState::Success);
    assert_eq!(s.get_prompt_file_type(true), Some(SpreadsheetFileType::Csv));
    assert_eq!(s.get_prompt_file_type(false), None);
}

// ---------------------------------------------------------------------------
// Hub and cloud
// ---------------------------------------------------------------------------

#[test]
fn a_status_is_checked_once_at_a_time() {
    let mut s = window();
    assert_eq!(s.hub_check_status(&Ok(None), true), None);
    assert_eq!(s.hub.status, HubStatus::Unlinked);
    s.file.current_file = Some(path("/a.sheet"));
    assert_eq!(s.hub_check_status(&Err(text("bad")), true), None);
    assert_eq!(says(&s), "Failed to load hub link: bad");
    assert_eq!(s.hub_check_status(&Ok(Some(link())), false), None);
    assert_eq!(s.hub.status, HubStatus::Offline);
    assert_eq!(s.hub_check_status(&Ok(None), true), Some(text("d1")));
    assert!(s.hub.check_in_progress);
    assert_eq!(s.hub_check_status(&Ok(None), true), None);
    s.hub_status_checked(&Ok(()), HubStatus::Behind);
    assert_eq!(s.hub.status, HubStatus::Behind);
    s.hub_status_checked(&Err(text("timeout")), HubStatus::Offline);
    assert_eq!(says(&s), "Hub: timeout");
}

#[test]
fn a_dataset_is_made_and_linked() {
    let mut s = window();
    assert_eq!(s.hub_create_and_link(true), None);
    assert_eq!(says(&s), "Select a repository first");
    s.hub.repos = vec![RepoInfo { owner: text("me"), slug: text("data") }];
    s.hub.selected_repo = Some(0);
    assert_eq!(s.hub_create_and_link(true), None);
    assert_eq!(says(&s), "Enter a dataset name");
    s.hub_dataset_insert_char('x');
    assert_eq!(s.hub.new_dataset_name, "");
    s.mode = Mode::HubLink;
    for c in "Salesx".chars() {
        s.hub_dataset_insert_char(c);
    }
    s.hub_dataset_backspace();
    s.file.current_file = Some(path("/a.sheet"));
    assert_eq!(s.hub_create_and_link(false), None);
    assert_eq!(says(&s), "Not signed in");
    assert_eq!(s.hub_create_and_link(true), Some((text("me"), text("data"), text("Sales"))));
    let l = s.hub_dataset_created("me", "data", &Ok(text("d7")), 0).unwrap();
    assert_eq!(l.dataset_id, "d7");
    assert_eq!(l.linked_at, "1970-01-01T00:00:00Z");
    assert!(s.hub_created_link_saved(l, "Sales", &Ok(())));
    assert_eq!(says(&s), "Linked to @me/data · Sales");
    assert!(s.hub_dataset_created("me", "data", &Err(text("taken")), 0).is_none());
    assert_eq!(says(&s), "Failed to create dataset: taken");
}

#[test]
fn signing_in_opens_the_browser() {
    let mut s = window();
    s.hub_sign_in(&Some(Some(text("me"))), &Ok(()));
    assert_eq!(says(&s), "Already signed in as @me");
    s.hub_sign_in(&None, &Err(text("no browser")));
    assert_eq!(says(&s), "Failed to open browser: no browser");
    assert_eq!(s.mode, Mode::Navigation);
    s.hub_sign_in(&None, &Ok(()));
    assert_eq!(s.mode, Mode::HubPasteToken);
    s.hub_token_paste(" tok \n");
    s.hub_cancel_sign_in();
    assert_eq!(s.mode, Mode::Navigation);
    s.mode = Mode::HubLink;
    s.hub_cancel_link();
    assert_eq!(s.mode, Mode::Navigation);
}

#[test]
fn links_are_taken_off_and_described() {
    let mut s = window();
    s.file.current_file = Some(path("/a.sheet"));
    s.hub.link = Some(link());
    s.hub_diagnostics(&Some(Some(text("me"))), &None, &None);
    assert!(says(&s).starts_with("=== Hub Diagnostics ===\nSync is manual."));
    assert!(says(&s).contains("Signed in as: @me\nStatus: Unlinked\n"));
    assert!(says(&s).contains("Dataset: me/data/d1\n"));
    s.mode = Mode::HubPublishConfirm;
    s.hub_cancel_publish_confirm();
    assert_eq!(s.mode, Mode::Navigation);
    s.mode = Mode::HubPublishConfirm;
    assert!(matches!(s.hub_confirm_publish_anyway(true, &Ok(5)), PublishStep::CreateRevision(..)));
    s.hub_unlink(&Ok(()));
    assert_eq!(s.hub.link, None);
    s.hub.link = Some(link());
    s.hub_unlink(&Err(text("locked")));
    assert_eq!(says(&s), "Failed to unlink: locked");
}

#[test]
fn sheets_of_the_cloud_are_listed_and_opened() {
    let mut s = window();
    s.cloud_open();
    assert_eq!(s.mode, Mode::Navigation);
    assert!(s.cloud.sheets_loading);
    let info = || SheetInfo { id: 1, public_id: text("p"), name: text("N"), slug: text("n") };
    s.cloud_listed(CloudAnswer::Done(vec![info()]));
    assert!(!s.cloud.sheets_loading);
    assert_eq!(s.mode, Mode::CloudOpen);
    assert_eq!(s.cloud.selected_sheet, Some(0));
    assert_eq!(s.cloud_open_selected(), Some(info()));
    assert_eq!(says(&s), "Downloading N...");
    s.cloud_download_failed("gone");
    assert_eq!(says(&s), "Failed to download sheet: gone");
    s.cloud_attach(&info(), &None);
    assert_eq!(s.cloud.sync_state, CloudSyncState::Synced);
    s.cloud.identity = Some(CloudIdentity {
        sheet_id: 1,
        public_id: text("p"),
        sheet_name: text("N"),
        api_base: text("b"),
        last_synced_hash: None,
        last_synced_at: None,
    });
    s.file.current_file = Some(path("/n.sheet"));
    assert!(s.cloud_retry_upload().is_some());
}
