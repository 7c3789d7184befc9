use visigrid::caches::{end_batch_and_broadcast, CellEntry, FormatCache, SearchCell, WorkbookCell};
use visigrid::chrome::{
    COLUMN_HEADER_HEIGHT, COL_RESIZE_GRAB_PX, FORMAT_BAR_HEIGHT, FORMULA_BAR_HEIGHT,
    MACOS_TITLEBAR_HEIGHT, MENU_BAR_HEIGHT, ROW_RESIZE_GRAB_PX, STATUS_BAR_HEIGHT,
};
use visigrid::fitting::{selected_lines, text_width_units, CellSpan, FitRecord};
use visigrid::grid::{
    cells_in_ranges, toggle_format_bar, NumberFormat, RepeatAction, DEFAULT_ZOOM,
};
use visigrid::pixels::{bound, is_below, is_same, max_of, nan};
use visigrid::sheet_layouts::{FilterView, ImportedLayout};
use visigrid::sizes::{CELL_HEIGHT, CELL_WIDTH, MAX_COL_WIDTH, MIN_COL_WIDTH};
use visigrid::state::{DocumentMeta, Mode, Setting, Spreadsheet};
use visigrid::window::{initial_theme_id, theme_after_change};

fn window() -> Spreadsheet {
    let meta = DocumentMeta {
        display_name: "Book1".to_string(),
        is_saved: false,
        is_read_only: false,
        source: None,
        path: None,
    };
    Spreadsheet::new(meta, 1, 1000, 100)
}

fn says(s: &Spreadsheet) -> &str {
    s.status_message.as_deref().unwrap_or("")
}

fn span(min_row: usize, min_col: usize, max_row: usize, max_col: usize) -> CellSpan {
    CellSpan { min_row, min_col, max_row, max_col }
}

fn px(f: f32) -> u32 {
    f.to_bits()
}

#[test]
fn a_new_window_is_empty_and_its_caches_are_stale() {
    let s = window();
    assert_eq!(s.mode, Mode::Navigation);
    assert_eq!(s.view.selected, (0, 0));
    assert_eq!(s.view.zoom, DEFAULT_ZOOM);
    assert!(s.file.pending_title_refresh);
    assert_ne!(s.search_cache.cached_rev, s.cells_rev);
}

#[test]
fn custom_functions_are_counted() {
    let mut s = window();
    s.custom_functions_loaded(0);
    assert_eq!(s.status_message, None);
    s.custom_functions_loaded(1);
    assert_eq!(says(&s), "Loaded 1 custom function");
    s.custom_functions_loaded(2);
    assert_eq!(says(&s), "Loaded 2 custom functions");
}

#[test]
fn the_second_window_gives_a_tip_once() {
    let mut s = window();
    assert!(!s.window_tip(0, false, false));
    assert!(!s.window_tip(1, true, false));
    assert_eq!(s.status_message, None);
    assert!(s.window_tip(1, false, false));
    assert_eq!(says(&s), "Tip: Press Ctrl+` to switch between windows");
    assert!(s.window_tip(1, false, true));
    assert_eq!(says(&s), "Tip: Press Cmd+` to switch between windows");
}

#[test]
fn a_theme_follows_the_system_unless_chosen() {
    assert_eq!(initial_theme_id(&None, "dark"), "dark");
    assert_eq!(initial_theme_id(&Some("system".to_string()), "dark"), "dark");
    assert_eq!(initial_theme_id(&Some("paper".to_string()), "dark"), "paper");
    assert_eq!(theme_after_change(&None, "light", "dark"), Some("dark".to_string()));
    assert_eq!(theme_after_change(&None, "dark", "dark"), None);
    assert_eq!(theme_after_change(&Some("paper".to_string()), "paper", "dark"), None);
}

#[test]
fn zoom_goes_by_steps() {
    let mut s = window();
    s.zoom_in();
    assert_eq!(s.view.zoom, 1250);
    assert_eq!(says(&s), "Zoom: 125%");
    s.zoom_out();
    assert_eq!(s.view.zoom, 1000);
    assert_eq!(s.zoom_display(), "100%");
    s.set_zoom(5000);
    assert_eq!(s.view.zoom, 2000);
    s.zoom_in();
    assert_eq!(s.view.zoom, 2000);
    s.set_zoom(0);
    assert_eq!(s.view.zoom, 500);
    s.zoom_out();
    assert_eq!(s.view.zoom, 500);
    s.zoom_reset();
    assert_eq!(s.view.zoom, 1000);
    s.view.zoom = 1100;
    s.zoom_in();
    assert_eq!(s.view.zoom, 1250);
}

#[test]
fn display_settings_have_defaults() {
    let mut s = window();
    assert!(!s.show_formulas());
    assert!(s.show_zeros());
    s.toggle_show_formulas();
    s.toggle_show_zeros();
    assert!(s.show_formulas());
    assert!(!s.show_zeros());
    assert_eq!(toggle_format_bar(Setting::Inherit), Setting::Value(false));
    assert_eq!(toggle_format_bar(Setting::Value(false)), Setting::Value(true));
}

#[test]
fn formats_can_be_repeated() {
    let mut s = window();
    s.toggle_bold(true);
    assert_eq!(s.grid.repeat, Some(RepeatAction::Bold(true)));
    assert!(s.file.is_modified);
    assert_eq!(s.format_currency(), NumberFormat::Currency { decimals: 2 });
    s.grid.suppress_repeat = true;
    s.toggle_italic(false);
    assert_eq!(
        s.grid.repeat,
        Some(RepeatAction::NumberFormat(NumberFormat::Currency { decimals: 2 }))
    );
    assert_eq!(
        Spreadsheet::format_scientific_shortcut(),
        NumberFormat::Custom("0.00E+00".to_string())
    );
    assert_eq!(Spreadsheet::format_date_shortcut(), NumberFormat::Date);
}

#[test]
fn ranges_are_walked_row_by_row() {
    let cells = cells_in_ranges(&vec![span(1, 1, 2, 2), span(5, 0, 5, 0)]);
    assert_eq!(cells, vec![(1, 1), (1, 2), (2, 1), (2, 2), (5, 0)]);
    assert!(cells_in_ranges(&vec![span(2, 0, 1, 0)]).is_empty());
}

#[test]
fn dates_and_times_go_into_the_selected_cell() {
    let mut s = window();
    s.view.selected = (3, 4);
    let w = s.insert_date().unwrap();
    assert_eq!((w.row, w.col), (3, 4));
    let parts: Vec<&str> = w.value.split('/').collect();
    assert_eq!(parts.len(), 3);
    assert!(!parts[0].starts_with('0') && !parts[1].starts_with('0'));
    assert!((1..=12).contains(&parts[0].parse::<u32>().unwrap()));
    assert!((1..=31).contains(&parts[1].parse::<u32>().unwrap()));
    assert_eq!(parts[2].len(), 4);
    assert_eq!(says(&s), "Date inserted");
    let w = s.insert_time().unwrap();
    assert!(w.value.ends_with(" AM") || w.value.ends_with(" PM"));
    let (hour, rest) = w.value.split_once(':').unwrap();
    assert!((1..=12).contains(&hour.parse::<u32>().unwrap()) && !hour.starts_with('0'));
    assert_eq!(rest.len(), 5);
    assert!(rest[..2].parse::<u32>().unwrap() < 60);
    assert_eq!(says(&s), "Time inserted");
    s.grid.previewing = true;
    assert_eq!(s.insert_date(), None);
    assert!(!s.can_edit());
}

#[test]
fn the_selection_is_extended() {
    let mut s = window();
    s.extend_to_end();
    assert_eq!(s.view.selection_end, Some((999, 99)));
    s.extend_to_start();
    assert_eq!(s.view.selection_end, Some((0, 0)));
    s.select_current_region(span(1, 1, 3, 2));
    assert_eq!(s.view.selected, (1, 1));
    assert_eq!(s.view.selection_end, Some((3, 2)));
    assert_eq!(says(&s), "Selected region: 3×2");
    s.select_current_region(span(4, 4, 4, 4));
    assert_eq!(s.view.selection_end, None);
    s.mode = Mode::Edit;
    s.extend_to_end();
    assert_eq!(s.view.selection_end, None);
}

#[test]
fn merged_cells_stop_bulk_operations() {
    let mut s = window();
    assert!(!s.block_if_merged("sort", false));
    assert_eq!(s.status_message, None);
    assert!(s.block_if_merged("sort", true));
    assert_eq!(
        says(&s),
        "Cannot sort: this operation can't be applied to merged cells. Unmerge first."
    );
}

#[test]
fn the_first_drawing_says_how_long_it_took() {
    let mut s = window();
    s.first_render(None);
    assert_eq!(s.status_message, None);
    s.first_render(Some(120));
    assert_eq!(says(&s), "Ready in 120ms");
    s.first_render(Some(500));
    assert_eq!(says(&s), "Ready in 120ms");
    let mut t = window();
    t.say("Session restored");
    t.first_render(Some(7));
    assert_eq!(says(&t), "Session restored · Ready in 7ms");
    assert!(t.take_title_refresh());
    assert!(!t.take_title_refresh());
}

#[test]
fn a_stale_border_flag_is_noticed_the_third_time() {
    let mut s = window();
    assert!(!s.border_report(true, 0, 5));
    assert!(!s.border_report(true, 0, 5));
    assert!(s.border_report(true, 0, 5));
    assert!(!s.border_report(true, 1, 5));
    assert_eq!(s.grid.border_stale_streak, 0);
}

#[test]
fn the_formula_bar_follows_the_cell() {
    let mut s = window();
    assert!(s.formula_bar_is_stale("=A1"));
    s.refresh_formula_bar("=A1", vec![span(0, 0, 0, 0)]);
    assert!(!s.formula_bar_is_stale("=A1"));
    assert_eq!(s.grid.formula_cache.refs.len(), 1);
    s.refresh_formula_bar("plain", vec![span(0, 0, 0, 0)]);
    assert!(s.grid.formula_cache.refs.is_empty());
    s.mode = Mode::Edit;
    assert!(!s.formula_bar_is_stale("other"));
}

#[test]
fn widths_are_bounded_and_forgotten_at_the_default() {
    let mut s = window();
    assert_eq!(s.col_width(3), CELL_WIDTH);
    s.set_col_width(3, px(120.0));
    assert_eq!(s.col_width(3), px(120.0));
    s.set_col_width(3, px(5.0));
    assert_eq!(s.col_width(3), MIN_COL_WIDTH);
    s.set_col_width(3, px(9000.0));
    assert_eq!(s.col_width(3), MAX_COL_WIDTH);
    s.set_col_width(3, px(80.0));
    assert!(s.sheet_col_widths_mut().is_empty());
    assert_eq!(s.row_height(0), CELL_HEIGHT);
    s.set_row_height(0, px(40.0));
    assert!(s.has_custom_row_heights());
}

#[test]
fn a_change_of_size_is_recorded_once() {
    let mut s = window();
    assert_eq!(s.record_col_width_change(2, None), None);
    s.set_col_width(2, px(100.0));
    let c = s.record_col_width_change(2, None).unwrap();
    assert_eq!((c.sheet_id, c.line, c.old, c.new), (1, 2, None, Some(px(100.0))));
    assert_eq!(s.record_col_width_change(2, Some(px(100.0))), None);
}

#[test]
fn hidden_columns_are_skipped() {
    let mut s = window();
    assert_eq!(s.nth_visible_col(2, 1), Some(3));
    s.sheet_col_widths_mut();
    s.sizes.sheets[0].hidden_cols.insert(2);
    assert!(s.is_col_hidden(2) && s.has_hidden_cols());
    assert_eq!(s.nth_visible_col(0, 1), Some(1));
    assert_eq!(s.nth_visible_col(1, 1), Some(3));
    assert_eq!(s.nth_visible_col(98, 0), Some(99));
    assert_eq!(s.nth_visible_col(99, 0), None);
    s.sizes.sheets[0].hidden_rows.insert(5);
    assert_eq!(
        s.nth_visible_row_with_hidden(1, &vec![(0, 4), (1, 5), (2, 6)]),
        Some((2, 6))
    );
    assert_eq!(s.nth_visible_row_with_hidden(2, &vec![(0, 4), (1, 5), (2, 6)]), None);
}

#[test]
fn columns_are_fitted_to_their_text() {
    let mut s = window();
    let r = s.auto_fit_col_width(1, &vec![(1, px(100.0)), (1, px(150.0)), (2, px(400.0))]);
    assert_eq!(s.col_width(1), px(150.0));
    assert!(matches!(r, FitRecord::One(_)));
    let r = s.fit_selection_columns(
        &vec![span(0, 0, 3, 1)],
        0,
        &vec![0, 1],
        &vec![(0, px(60.0)), (1, px(900.0))],
    );
    assert_eq!(s.col_width(0), px(60.0));
    assert_eq!(s.col_width(1), px(500.0));
    assert!(matches!(r, FitRecord::Group { .. }));
    assert_eq!(s.grid.repeat, Some(RepeatAction::FitColumnWidth));
    assert_eq!(selected_lines(&vec![span(0, 2, 0, 3), span(0, 1, 0, 2)], true), vec![2, 3, 1]);
}

#[test]
fn pixels_are_ordered_like_floats() {
    assert!(nan(px(f32::NAN)));
    assert!(is_below(px(-1.0), px(2.0)));
    assert!(!is_below(px(2.0), px(2.0)));
    assert!(is_same(px(0.0), px(-0.0)));
    assert_eq!(max_of(px(3.0), px(4.0)), px(4.0));
    assert_eq!(bound(px(700.0), px(40.0), px(600.0)), px(600.0));
    assert_eq!(bound(px(1.0), px(40.0), px(600.0)), px(40.0));
}

#[test]
fn sizes_survive_a_save_and_a_load() {
    let mut s = window();
    s.set_col_width(1, px(120.0));
    s.set_row_height(4, px(50.0));
    let n = s.build_sheet_layout(&vec![1]);
    let mut t = window();
    t.apply_sheet_layout(&n, &vec![1]);
    assert_eq!(t.col_width(1), px(120.0));
    assert_eq!(t.row_height(4), px(50.0));
    t.clear_sizes();
    assert_eq!(t.col_width(1), CELL_WIDTH);
}

#[test]
fn imported_sizes_and_filters_are_exported() {
    let mut s = window();
    let l = ImportedLayout {
        col_widths: [(0, px(200.0))].into_iter().collect(),
        row_heights: [].into_iter().collect(),
        hidden_rows: [3].into_iter().collect(),
        hidden_cols: [].into_iter().collect(),
    };
    s.apply_imported_layouts(&vec![l], &vec![1]);
    assert_eq!(s.col_width(0), px(200.0));
    let filter = Some(FilterView {
        range: Some(span(0, 0, 4, 2)),
        visible: vec![true, false, true, true, true],
    });
    let v = s.build_export_layouts(&vec![1], 0, &filter);
    assert_eq!(v.len(), 1);
    assert_eq!(v[0].autofilter_range, Some(span(0, 0, 4, 2)));
    assert!(v[0].hidden_rows.contains(&1));
}

#[test]
fn counts_characters_not_bytes() {
    assert_eq!(text_width_units("café"), text_width_units("cafe"));
    assert_eq!(text_width_units("cafe"), 4);
}

#[test]
fn east_asian_text_is_double_width_not_triple() {
    assert_eq!(text_width_units("日本語"), 2 * text_width_units("abc"));
}

#[test]
fn empty_text_has_no_width() {
    assert_eq!(text_width_units(""), 0);
}

#[test]
fn resize_grab_smaller_than_half_row_height() {
    assert!((ROW_RESIZE_GRAB_PX as f32) < f32::from_bits(CELL_HEIGHT) / 2.0);
    assert!((COL_RESIZE_GRAB_PX as f32) < f32::from_bits(CELL_WIDTH) / 2.0);
}

#[test]
fn row_header_center_click_is_not_resize() {
    let grid_body_y =
        (MENU_BAR_HEIGHT + FORMULA_BAR_HEIGHT + FORMAT_BAR_HEIGHT + COLUMN_HEADER_HEIGHT) as f32;
    let row_height = f32::from_bits(CELL_HEIGHT);
    let row_y_offset = 0.0;

    let click_y = grid_body_y + row_y_offset + row_height / 2.0;
    let row_end_y = grid_body_y + row_y_offset + row_height;
    let resize_start = row_end_y - ROW_RESIZE_GRAB_PX as f32;

    assert!(click_y < resize_start);
}

#[test]
fn row_header_center_click_macos_layout() {
    let grid_body_y = (MACOS_TITLEBAR_HEIGHT
        + FORMULA_BAR_HEIGHT
        + FORMAT_BAR_HEIGHT
        + COLUMN_HEADER_HEIGHT) as f32;
    let row_height = f32::from_bits(CELL_HEIGHT);

    let click_y = grid_body_y + row_height / 2.0;
    let row_end_y = grid_body_y + row_height;
    let resize_start = row_end_y - ROW_RESIZE_GRAB_PX as f32;

    assert!(click_y < resize_start);
}

#[test]
fn linux_top_chrome_components() {
    let s = window();
    let expected = MENU_BAR_HEIGHT + FORMULA_BAR_HEIGHT + FORMAT_BAR_HEIGHT + COLUMN_HEADER_HEIGHT;
    assert_eq!(expected, 108);
    assert_eq!(s.top_chrome_height(false, &Setting::Inherit, COLUMN_HEADER_HEIGHT), 108);
    assert_eq!(s.top_chrome_height(false, &Setting::Value(true), COLUMN_HEADER_HEIGHT), 108);
    assert_eq!(s.top_chrome_height(false, &Setting::Value(false), COLUMN_HEADER_HEIGHT), 80);
}

#[test]
fn macos_top_chrome_components() {
    let s = window();
    let expected =
        MACOS_TITLEBAR_HEIGHT + FORMULA_BAR_HEIGHT + FORMAT_BAR_HEIGHT + COLUMN_HEADER_HEIGHT;
    assert_eq!(expected, 114);
    assert_eq!(s.top_chrome_height(true, &Setting::Inherit, COLUMN_HEADER_HEIGHT), 114);
    assert_eq!(s.height_above_headers(true, &Setting::Inherit), 90);
}

#[test]
fn zen_mode_chrome_is_just_col_headers() {
    let mut s = window();
    assert_eq!(s.bottom_chrome_height(), STATUS_BAR_HEIGHT);
    assert_eq!((s.formula_bar_top(false), s.formula_bar_top(true)), (28, 34));
    s.ui.zen_mode = true;
    assert_eq!((s.formula_bar_top(false), s.formula_bar_top(true)), (0, 34));
    assert_eq!(s.top_chrome_height(false, &Setting::Inherit, COLUMN_HEADER_HEIGHT), 24);
    assert_eq!(s.height_above_headers(false, &Setting::Inherit), 0);
    assert_eq!(s.bottom_chrome_height(), 0);
    assert_eq!(COLUMN_HEADER_HEIGHT, 24);
}

#[test]
fn conditional_formats_are_kept_until_something_changes() {
    let mut c = FormatCache::new();
    assert_eq!(c.lookup((1, 1), 2, 3), None);
    c.keep(2, 3, Some(9));
    c.keep(3, 2, None);
    assert_eq!(c.lookup((1, 1), 2, 3), Some(Some(9)));
    assert_eq!(c.lookup((1, 1), 3, 2), Some(None));
    assert_eq!(c.lookup((2, 1), 2, 3), None);
    assert_eq!(c.lookup((1, 1), 2, 3), None);
    let mut s = window();
    assert_eq!(s.effective_format_cached(0, 0), None);
    s.format_cache.keep(0, 0, Some(4));
    assert_eq!(s.effective_format_cached(0, 0), Some(Some(4)));
    s.bump_cells_rev();
    assert_eq!(s.effective_format_cached(0, 0), None);
}

#[test]
fn the_first_filled_cells_are_searched() {
    let cells: Vec<SearchCell> = (0..1500)
        .map(|i| SearchCell {
            entry: CellEntry { row: i, col: 0, display: i.to_string(), formula: None },
            empty: i % 3 == 0,
        })
        .collect();
    let mut s = window();
    s.ensure_cell_search_cache_fresh(&cells);
    assert_eq!(s.search_cache.entries.len(), 1000);
    assert_eq!(s.search_cache.entries[0].row, 1);
    assert_eq!(s.search_cache.entries[1].row, 2);
    assert_eq!(s.search_cache.entries[2].row, 4);
    s.ensure_cell_search_cache_fresh(&vec![]);
    assert_eq!(s.search_cache.entries.len(), 1000);
    s.bump_cells_rev();
    s.ensure_cell_search_cache_fresh(&vec![]);
    assert!(s.search_cache.entries.is_empty());
}

#[test]
fn listeners_are_told_of_changes() {
    let cell = WorkbookCell { sheet: 1, row: 2, col: 3 };
    let r = end_batch_and_broadcast(vec![cell], true, 7);
    assert_eq!(r.changed, 1);
    assert_eq!(r.broadcast, Some((7, vec![cell])));
    assert_eq!(end_batch_and_broadcast(vec![cell], false, 7).broadcast, None);
    assert_eq!(end_batch_and_broadcast(vec![], true, 7).broadcast, None);
}
