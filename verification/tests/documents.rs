use visigrid::blob::{sniff_cloud_blob, CloudBlobKind};
use visigrid::color::{hex, parse_hex, parse_hex_rgb, Rgba};
use visigrid::document::{
    format_in, format_out, BorderStyle, CellBorder, CellFormat, CellRange, FullCell, FullDoc,
    MergeSpec, Scalar, SheetBody, TextOverflow, ValidationSpec,
};
use visigrid::interchange::{apply_body, quoted_notice, EvalValue, Sheet, SheetCell, SheetOp, SpillCell};
use visigrid::layout::{
    ChartEntry, Charts, ColumnFilterSpec, FilterSpec, SheetLayout, SortDirection, SortState,
};
use visigrid::workbook_doc::{
    cached_formula_values, export, export_full, export_full_with_layout, export_workbook,
    import_any, import_full, import_full_with_layout, is_workbook_form, CachedFormulaValue,
};

fn text(s: &str) -> String {
    s.to_string()
}

fn cell(row: usize, col: usize, raw: &str) -> SheetCell {
    SheetCell {
        row,
        col,
        raw: text(raw),
        computed: EvalValue::Empty,
        number: None,
        format: CellFormat::default(),
        has_format: false,
        kept_uncomputable: false,
    }
}

fn number_cell(row: usize, col: usize, raw: &str) -> SheetCell {
    SheetCell { number: Some(Some(text(raw))), ..cell(row, col, raw) }
}

fn formula_cell(row: usize, col: usize, raw: &str, computed: EvalValue) -> SheetCell {
    SheetCell { computed, ..cell(row, col, raw) }
}

fn sheet(name: &str, cells: Vec<SheetCell>) -> Sheet {
    Sheet {
        name: text(name),
        tab_color: None,
        cells,
        spills: Vec::new(),
        merged_regions: Vec::new(),
        cond_formats: None,
        validations: Vec::new(),
    }
}

fn blank_body(name: &str, cells: Vec<FullCell>) -> SheetBody {
    SheetBody {
        name: text(name),
        cells,
        merges: Vec::new(),
        col_widths: Vec::new(),
        row_heights: Vec::new(),
        hidden_rows: Vec::new(),
        hidden_cols: Vec::new(),
        tab_color: None,
        frozen_rows: 0,
        frozen_cols: 0,
        cond_formats: None,
        validations: Vec::new(),
        filter: None,
        charts: None,
    }
}

fn stored(row: usize, col: usize, formula: Option<&str>, value: Option<Scalar>) -> FullCell {
    FullCell {
        row,
        col,
        value,
        formula: formula.map(text),
        fmt: None,
        stale_custom_fn: false,
        spill_from: None,
    }
}

fn doc_of(version: u32, body: SheetBody, sheets: Vec<SheetBody>, active: Option<usize>) -> FullDoc {
    FullDoc { format: text("visigrid-json"), version, body, sheets, active_sheet: active }
}

fn number(s: &str) -> Option<Scalar> {
    Some(Scalar::Number(text(s)))
}

#[test]
fn test_json_export() {
    let mut grid: Vec<Vec<String>> = vec![vec![String::new(); 10]; 100];
    grid[0][0] = text("Name");
    grid[0][1] = text("Value");
    grid[1][0] = text("Alice");
    grid[1][1] = text("42");
    grid[2][0] = text("Bob");
    grid[2][1] = text("17");

    let parsed = export(&grid);

    assert_eq!(parsed.len(), 3);
    assert_eq!(parsed[0], vec!["Name", "Value"]);
    assert_eq!(parsed[1], vec!["Alice", "42"]);
    assert_eq!(parsed[2], vec!["Bob", "17"]);
}

#[test]
fn an_empty_row_between_rows_is_kept() {
    let grid = vec![
        vec![text("a"), text("")],
        vec![text(""), text("")],
        vec![text(""), text("b")],
        vec![text(""), text("")],
    ];
    let rows = export(&grid);
    assert_eq!(rows.len(), 3);
    assert_eq!(rows[0], vec!["a"]);
    assert!(rows[1].is_empty());
    assert_eq!(rows[2], vec!["", "b"]);
}

#[test]
fn spilled_values_are_written_down_and_do_not_block_the_reload() {
    let mut s = sheet(
        "Sheet1",
        vec![formula_cell(0, 0, "=SEQUENCE(3,1,10,5)", EvalValue::Number(Some(text("10.0"))))],
    );
    s.spills = vec![
        SpillCell {
            row: 1,
            col: 0,
            parent: Some((0, 0)),
            value: EvalValue::Number(Some(text("15.0"))),
        },
        SpillCell {
            row: 2,
            col: 0,
            parent: Some((0, 0)),
            value: EvalValue::Number(Some(text("20.0"))),
        },
    ];

    let exported = export_full(&s);
    let spilled: Vec<&FullCell> =
        exported.body.cells.iter().filter(|c| c.spill_from.is_some()).collect();
    assert_eq!(spilled.len(), 2, "both cells the array spilled into should be written");
    assert_eq!(spilled[0].value, number("15.0"));
    assert_eq!(spilled[1].value, number("20.0"));
    assert_eq!(spilled[0].spill_from, Some((0, 0)));

    // Reading it back puts in the formula alone, so nothing stands in its way.
    let restored = import_full(&Ok(exported), &vec![None]).unwrap();
    assert_eq!(
        restored,
        vec![
            SheetOp::SetName(text("Sheet1")),
            SheetOp::SetTabColor(None),
            SheetOp::SetDeferred(0, 0, text("=SEQUENCE(3,1,10,5)")),
        ]
    );
}

#[test]
fn a_kept_value_is_marked_and_a_recomputed_one_is_not() {
    let body = blank_body(
        "S",
        vec![
            stored(0, 0, Some("=ACCRUED_INTEREST(1,2,3)"), number("12.33")),
            stored(1, 0, Some("=SUM(1,2)"), number("999")),
        ],
    );
    let doc = doc_of(2, blank_body("", vec![]), vec![body], Some(0));
    let raws = vec![vec![text("=ACCRUED_INTEREST(1,2,3)"), text("=SUM(1,2)")]];
    let cached = cached_formula_values(&doc, &raws);
    assert_eq!(
        cached,
        vec![
            (0, 0, 0, CachedFormulaValue::Number(text("12.33"))),
            (0, 1, 0, CachedFormulaValue::Number(text("999"))),
        ]
    );

    // The engine kept the first value and recomputed the second.
    let s = sheet(
        "S",
        vec![
            SheetCell {
                kept_uncomputable: true,
                ..formula_cell(
                    0,
                    0,
                    "=ACCRUED_INTEREST(1,2,3)",
                    EvalValue::Number(Some(text("12.33"))),
                )
            },
            formula_cell(1, 0, "=SUM(1,2)", EvalValue::Number(Some(text("3.0")))),
        ],
    );
    let out = export_full(&s);
    let kept = out.body.cells.iter().find(|c| c.row == 0).unwrap();
    let fresh = out.body.cells.iter().find(|c| c.row == 1).unwrap();
    assert!(kept.stale_custom_fn);
    assert!(!fresh.stale_custom_fn);
}

#[test]
fn a_stored_value_does_not_survive_a_different_formula() {
    let edited = blank_body(
        "S",
        vec![stored(0, 0, Some("=ACCRUED_INTEREST(9,9,9)"), number("12.33"))],
    );
    let doc = doc_of(2, blank_body("", vec![]), vec![edited], Some(0));
    // The formula text is what is compared.
    let same = cached_formula_values(&doc, &vec![vec![text("=ACCRUED_INTEREST(9,9,9)")]]);
    assert_eq!(same, vec![(0, 0, 0, CachedFormulaValue::Number(text("12.33")))]);
    let other = cached_formula_values(&doc, &vec![vec![text("=ACCRUED_INTEREST(1,2,3)")]]);
    assert!(other.is_empty());
}

#[test]
fn quoted_values_stay_text_through_a_round_trip() {
    let s = sheet(
        "Sheet1",
        vec![
            cell(0, 0, "007"),
            cell(1, 0, "0123456789"),
            number_cell(2, 0, "42"),
            cell(3, 0, "label"),
        ],
    );
    let exported = export_full(&s);
    let read = import_full_with_layout(&Ok(exported), &vec![None]).unwrap();
    assert_eq!(
        read.ops,
        vec![
            SheetOp::SetName(text("Sheet1")),
            SheetOp::SetTabColor(None),
            SheetOp::SetText(0, 0, text("007")),
            SheetOp::SetText(1, 0, text("0123456789")),
            SheetOp::SetDeferred(2, 0, text("42")),
            SheetOp::SetText(3, 0, text("label")),
        ]
    );
    assert_eq!(read.quoted_numerics, 2);
    assert_eq!(
        quoted_notice(2, "Sheet1").unwrap(),
        "[JSON import] 2 quoted value(s) in \"Sheet1\" read as numbers and were kept as text \
         (a quoted value is text in visigrid-json)"
    );
    assert_eq!(quoted_notice(0, "Sheet1"), None);
}

#[test]
fn full_json_roundtrip() {
    let mut s = sheet(
        "Model",
        vec![
            cell(0, 0, "Revenue"),
            number_cell(1, 0, "100"),
            formula_cell(1, 1, "=A2*2", EvalValue::Number(Some(text("200.0")))),
        ],
    );
    s.cells[0].format.bold = true;
    s.cells[0].format.background_color = Some(Rgba { r: 255, g: 235, b: 59, a: 255 });
    s.cells[0].has_format = true;
    s.merged_regions =
        vec![MergeSpec { start_row: 3, start_col: 0, end_row: 3, end_col: 2 }];

    let doc = export_full(&s);
    assert_eq!(doc.format, "visigrid-json");
    assert_eq!(doc.version, 1);
    assert_eq!(doc.body.cells[2].formula, Some(text("=A2*2")));
    assert_eq!(doc.body.cells[0].fmt.as_ref().unwrap().bg, Some(text("#FFEB3B")));

    let restored = import_full(&Ok(doc), &vec![None]).unwrap();
    assert!(restored.contains(&SheetOp::SetName(text("Model"))));
    assert!(restored.contains(&SheetOp::SetText(0, 0, text("Revenue"))));
    assert!(restored.contains(&SheetOp::SetDeferred(1, 1, text("=A2*2"))));
    let format = restored
        .iter()
        .find_map(|o| match o {
            SheetOp::SetFormat(0, 0, f) => Some(f),
            _ => None,
        })
        .unwrap();
    let back = format_in(&CellFormat::default(), format, true);
    assert!(back.bold);
    assert_eq!(back.background_color, Some(Rgba { r: 255, g: 235, b: 59, a: 255 }));
    assert_eq!(restored.iter().filter(|o| matches!(o, SheetOp::AddMerge(_))).count(), 1);
}

#[test]
fn layout_side_car_roundtrip() {
    let s = sheet("Sheet1", vec![cell(0, 0, "x")]);
    let mut layout = SheetLayout::default();
    layout.col_widths.insert(0, 120.0f32.to_bits());
    layout.row_heights.insert(3, 40.0f32.to_bits());
    layout.frozen_rows = 1;

    let doc = export_full_with_layout(&s, &layout);
    assert_eq!(doc.body.col_widths, vec![(text("0"), 120.0f32.to_bits())]);
    let restored = import_full_with_layout(&Ok(doc), &vec![None]).unwrap();
    assert_eq!(restored.layout, layout);

    // Documents without a layout read with an empty one.
    let empty = import_full_with_layout(&Ok(export_full(&s)), &vec![None]).unwrap();
    assert!(empty.layout.is_empty());
}

#[test]
fn workbook_form_roundtrip_with_cross_sheet_formula() {
    let a = sheet("Data", vec![number_cell(0, 0, "21")]);
    let b = sheet(
        "Summary",
        vec![formula_cell(0, 0, "=Data!A1*2", EvalValue::Number(Some(text("42.0"))))],
    );

    let mut layout_b = SheetLayout::default();
    layout_b.col_widths.insert(0, 200.0f32.to_bits());
    let mut layout_again = SheetLayout::default();
    layout_again.col_widths.insert(0, 200.0f32.to_bits());
    let doc = export_workbook(&vec![a, b], &vec![SheetLayout::default(), layout_b], 1);
    assert_eq!(doc.version, 2);
    assert_eq!(doc.sheets.len(), 2);

    let parsed = Ok(doc);
    let restored = import_any(&parsed, &vec![None, None]).unwrap();
    assert_eq!(restored.sheets.len(), 2);
    assert_eq!(restored.active, 1);
    assert_eq!(restored.sheets[0].ops[0], SheetOp::SetName(text("Data")));
    assert!(restored.sheets[1].ops.contains(&SheetOp::SetDeferred(0, 0, text("=Data!A1*2"))));
    assert_eq!(restored.sheets[1].layout, layout_again);

    // A workbook document read as one sheet yields the active sheet.
    let active_sheet = import_full(&parsed, &vec![None, None]).unwrap();
    assert_eq!(active_sheet[0], SheetOp::SetName(text("Summary")));
}

#[test]
fn borders_and_wrap_roundtrip() {
    let mut s = sheet("Sheet1", vec![cell(0, 0, "boxed")]);
    let f = &mut s.cells[0].format;
    f.text_overflow = TextOverflow::Wrap;
    f.border_top = CellBorder {
        style: BorderStyle::Thick,
        color: Some(Rgba { r: 255, g: 0, b: 0, a: 255 }),
    };
    f.border_bottom = CellBorder { style: BorderStyle::Thin, color: None };
    s.cells[0].has_format = true;

    let doc = export_full(&s);
    let fmt = doc.body.cells[0].fmt.as_ref().unwrap();
    assert_eq!(fmt.overflow, Some(text("wrap")));
    assert_eq!(fmt.borders.as_ref().unwrap().top.as_ref().unwrap().style, "thick");

    let rf = format_in(&CellFormat::default(), fmt, true);
    assert_eq!(rf.text_overflow, TextOverflow::Wrap);
    assert_eq!(rf.border_top.style, BorderStyle::Thick);
    assert_eq!(rf.border_top.color, Some(Rgba { r: 255, g: 0, b: 0, a: 255 }));
    assert_eq!(rf.border_bottom.style, BorderStyle::Thin);
    assert_eq!(rf.border_left.style, BorderStyle::Absent);
}

#[test]
fn a_plain_format_writes_nothing() {
    let f = format_out(&CellFormat::default());
    assert!(!f.bold && f.fg.is_none() && f.style.is_none() && f.borders.is_none());
    assert_eq!(format_in(&CellFormat::default(), &f, true), CellFormat::default());
}

#[test]
fn a_number_format_that_does_not_read_leaves_the_cells_own() {
    let own = CellFormat { number_format: Some(text("own")), ..CellFormat::default() };
    let named = CellFormat { number_format: Some(text("named")), ..CellFormat::default() };
    let f = format_out(&named);
    assert_eq!(format_in(&own, &f, true).number_format, Some(text("named")));
    assert_eq!(format_in(&own, &f, false).number_format, Some(text("own")));
}

#[test]
fn tier1_extras_roundtrip() {
    let mut s = sheet("Data", vec![number_cell(0, 0, "150")]);
    s.cond_formats = Some(text(r#"{"rules":[{"formula":"=A1>100"}]}"#));
    s.validations = vec![ValidationSpec {
        range: CellRange { start_row: 0, start_col: 1, end_row: 9, end_col: 1 },
        rule: text(r#"{"list":["yes","no"]}"#),
    }];
    let layout = SheetLayout {
        filter: Some(FilterSpec {
            range: (0, 0, 9, 3),
            columns: vec![ColumnFilterSpec { col: 1, filter: text("{}") }],
            sort: Some(SortState { column: 0, direction: SortDirection::Descending }),
        }),
        charts: Some(Charts::List(vec![ChartEntry {
            data_range: None,
            entry: text(r#"{"kind":"bar","web_only":true}"#),
        }])),
        ..SheetLayout::default()
    };

    let doc = export_workbook(&vec![s], &vec![layout], 0);
    let restored = import_any(&Ok(doc), &vec![None]).unwrap();
    let read = &restored.sheets[0];
    assert!(read
        .ops
        .contains(&SheetOp::SetCondFormats(text(r#"{"rules":[{"formula":"=A1>100"}]}"#))));
    assert!(read.ops.contains(&SheetOp::SetValidation(
        CellRange { start_row: 0, start_col: 1, end_row: 9, end_col: 1 },
        text(r#"{"list":["yes","no"]}"#),
    )));
    let filter = read.layout.filter.as_ref().unwrap();
    assert_eq!(filter.range, (0, 0, 9, 3));
    assert_eq!(filter.columns[0].col, 1);
    assert_eq!(
        filter.sort,
        Some(SortState { column: 0, direction: SortDirection::Descending })
    );
    assert_eq!(
        read.layout.charts,
        Some(Charts::List(vec![ChartEntry {
            data_range: None,
            entry: text(r#"{"kind":"bar","web_only":true}"#),
        }]))
    );
}

#[test]
fn malformed_cond_formats_fail_loudly() {
    let mut body = blank_body("", vec![]);
    body.cond_formats = Some(text(r#"{"rules":"not-a-list"}"#));
    let doc = doc_of(1, body, vec![], None);
    let r = import_full(&Ok(doc), &vec![Some(text("expected a sequence"))]);
    assert_eq!(r, Err(text("sheet \"\": invalid cond_formats: expected a sequence")));
}

#[test]
fn rejects_versions_beyond_workbook() {
    let doc = doc_of(3, blank_body("", vec![]), vec![], None);
    let r = import_full(&Ok(doc), &vec![None]);
    assert_eq!(r, Err(text("visigrid-json version 3 is newer than supported (2)")));
}

#[test]
fn rejects_foreign_documents() {
    let r = import_full(&Err(text("invalid type: sequence")), &vec![]);
    assert_eq!(r, Err(text("invalid visigrid-json: invalid type: sequence")));
    let mut doc = doc_of(1, blank_body("", vec![]), vec![], None);
    doc.format = text("other");
    let r = import_full(&Ok(doc), &vec![None]);
    assert_eq!(r, Err(text("not a visigrid-json document (format: \"other\")")));
    let doc = doc_of(99, blank_body("", vec![]), vec![], None);
    assert!(import_full(&Ok(doc), &vec![None]).is_err());
}

#[test]
fn a_sheet_without_a_name_is_numbered() {
    let doc = doc_of(
        2,
        blank_body("", vec![]),
        vec![blank_body("", vec![]), blank_body("", vec![])],
        None,
    );
    let read = import_any(&Ok(doc), &vec![None, None]).unwrap();
    assert!(read.sheets[0].ops.is_empty());
    assert_eq!(read.sheets[1].ops, vec![SheetOp::SetName(text("Sheet2"))]);
    assert_eq!(read.active, 0);
}

#[test]
fn an_active_sheet_beyond_the_last_is_the_last() {
    let doc = doc_of(2, blank_body("", vec![]), vec![blank_body("A", vec![])], Some(7));
    assert_eq!(import_any(&Ok(doc), &vec![None]).unwrap().active, 0);
    let doc = export_workbook(&vec![], &vec![], 3);
    assert_eq!(doc.active_sheet, Some(0));
}

#[test]
fn values_other_than_text_are_typed_in() {
    let body = blank_body(
        "S",
        vec![
            stored(0, 0, None, Some(Scalar::Bool(true))),
            stored(1, 0, None, Some(Scalar::Bool(false))),
            stored(2, 0, None, Some(Scalar::Other(text("null")))),
            stored(3, 0, None, None),
        ],
    );
    let ops = import_full(&Ok(doc_of(1, body, vec![], None)), &vec![None]).unwrap();
    assert_eq!(ops[2], SheetOp::SetDeferred(0, 0, text("TRUE")));
    assert_eq!(ops[3], SheetOp::SetDeferred(1, 0, text("FALSE")));
    assert_eq!(ops[4], SheetOp::SetDeferred(2, 0, text("null")));
    assert_eq!(ops.len(), 5);
}

#[test]
fn only_a_list_of_sheets_makes_a_workbook() {
    assert!(is_workbook_form(r#"{"format":"visigrid-json","version":2,"sheets":[{"name":"A"}]}"#));
    assert!(!is_workbook_form(r#"{"format":"visigrid-json","version":2,"sheets":[]}"#));
    assert!(!is_workbook_form(r#"{"format":"visigrid-json","version":1}"#));
    assert!(!is_workbook_form("[[1,2],[3,4]]"));
    assert!(!is_workbook_form("not json"));
}

#[test]
fn sniff_cloud_blob_does_not_trust_the_key() {
    let sqlite = b"SQLite format 3\0more-bytes";
    assert_eq!(sniff_cloud_blob(sqlite), CloudBlobKind::NativeSqlite);

    let json = br#"{"format":"visigrid-json","version":2,"sheets":[]}"#;
    assert_eq!(sniff_cloud_blob(json), CloudBlobKind::VisigridJson);

    let json_with_bom =
        [b"\xEF\xBB\xBF".as_slice(), b"\n  {\"format\":\"visigrid-json\"}"].concat();
    assert_eq!(sniff_cloud_blob(&json_with_bom), CloudBlobKind::VisigridJson);

    assert_eq!(sniff_cloud_blob(b""), CloudBlobKind::Unknown);
    assert_eq!(sniff_cloud_blob(b"PK\x03\x04"), CloudBlobKind::Unknown);
}

#[test]
fn colors_read_back() {
    let c = Rgba { r: 255, g: 235, b: 59, a: 255 };
    assert_eq!(hex(c), "#FFEB3B");
    assert_eq!(parse_hex("#FFEB3B"), Some(c));
    assert_eq!(parse_hex("nonsense"), None);
    assert_eq!(parse_hex_rgb("ffeb3b"), Some(c));
    assert_eq!(parse_hex_rgb("#FFF"), None);
    assert_eq!(parse_hex_rgb("#+F+F+F"), None);
    assert_eq!(parse_hex_rgb("#é2345"), None);
}

fn steps_for(ops: &[SheetOp], place: Option<(usize, usize)>) -> Vec<&SheetOp> {
    ops.iter()
        .filter(|op| {
            let at = match op {
                SheetOp::SetDeferred(r, c, _) | SheetOp::SetText(r, c, _) => Some((*r, *c)),
                SheetOp::SetFormat(r, c, _) => Some((*r, *c)),
                _ => None,
            };
            at == place
        })
        .collect()
}

#[test]
fn cells_in_another_order_are_built_by_the_same_steps() {
    let spill = || stored(0, 0, Some("=SEQUENCE(3,1,10,5)"), None);
    let kept = || stored(1, 0, None, Some(Scalar::Text(text("keep me"))));
    let bold = || FullCell {
        fmt: Some(format_out(&CellFormat { bold: true, ..CellFormat::default() })),
        ..stored(5, 2, None, number("7"))
    };
    let doc = |cells| doc_of(2, blank_body("", vec![]), vec![blank_body("S", cells)], Some(0));
    let a = import_full(&Ok(doc(vec![spill(), kept(), bold()])), &vec![None]).unwrap();
    let b = import_full(&Ok(doc(vec![bold(), kept(), spill()])), &vec![None]).unwrap();
    assert_ne!(a, b);
    for place in [None, Some((0, 0)), Some((1, 0)), Some((5, 2)), Some((9, 9))] {
        assert_eq!(steps_for(&a, place), steps_for(&b, place));
    }
    assert_eq!(steps_for(&a, Some((5, 2))).len(), 2);
    assert_eq!(steps_for(&a, None).len(), 2);
}

#[test]
fn cells_are_written_row_by_row() {
    let mut s = sheet("S", vec![cell(3, 0, "d"), cell(0, 1, "b"), cell(0, 0, "a")]);
    s.spills = vec![
        SpillCell { row: 0, col: 5, parent: Some((0, 4)), value: EvalValue::Boolean(true) },
        SpillCell { row: 1, col: 4, parent: Some((0, 4)), value: EvalValue::Empty },
    ];
    let body = export_full(&s).body;
    let places: Vec<(usize, usize, bool)> =
        body.cells.iter().map(|c| (c.row, c.col, c.spill_from.is_some())).collect();
    assert_eq!(
        places,
        vec![(0, 0, false), (0, 1, false), (3, 0, false), (0, 5, true), (1, 4, true)]
    );
}

#[test]
fn spilled_cells_add_nothing_to_what_is_read() {
    let spilled = FullCell {
        spill_from: Some((0, 0)),
        fmt: Some(format_out(&CellFormat { bold: true, ..CellFormat::default() })),
        ..stored(1, 0, None, Some(Scalar::Text(text("007"))))
    };
    let formula = || stored(0, 0, Some("=SEQUENCE(2)"), number("1"));
    let with = blank_body("S", vec![formula(), spilled]);
    let bare = blank_body("S", vec![formula()]);
    let a = apply_body(&with, 3, 0, &None).unwrap();
    let b = apply_body(&bare, 3, 0, &None).unwrap();
    assert_eq!(a, b);
    assert_eq!((a.id, a.rows, a.cols, a.quoted_numerics), (3, 65536, 256, 0));
}

#[test]
fn sheets_of_a_document_are_numbered_from_one() {
    let doc = doc_of(
        2,
        blank_body("", vec![]),
        vec![blank_body("A", vec![]), blank_body("B", vec![])],
        Some(1),
    );
    let read = import_any(&Ok(doc), &vec![None, None]).unwrap();
    assert_eq!(read.sheets.iter().map(|s| s.id).collect::<Vec<_>>(), vec![1, 2]);
}
