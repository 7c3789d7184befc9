use std::collections::{BTreeMap, BTreeSet};

use visigrid::cloud::{json_layouts_to_native, NativeLayout};
use visigrid::layout::{
    range_formula, range_sheet_name, shift_a1_range, ChartEntry, Charts, ColumnFilterSpec,
    FilterSpec, SheetLayout, SortDirection, SortState,
};
use visigrid::structural::{shift_line, shift_span};

fn text(s: &str) -> String {
    s.to_string()
}

fn layout_with_hidden() -> SheetLayout {
    SheetLayout {
        hidden_rows: [2, 5].into_iter().collect(),
        hidden_cols: [1].into_iter().collect(),
        ..SheetLayout::default()
    }
}

fn chart(range: &str) -> ChartEntry {
    ChartEntry { data_range: Some(text(range)), entry: text("{}") }
}

#[test]
fn layout_follows_structural_edits() {
    let mut layout = SheetLayout {
        col_widths: [(0, 100.0f32.to_bits()), (3, 150.0f32.to_bits())].into_iter().collect(),
        row_heights: [(1, 30.0f32.to_bits()), (5, 40.0f32.to_bits())].into_iter().collect(),
        hidden_rows: BTreeSet::new(),
        hidden_cols: BTreeSet::new(),
        frozen_rows: 2,
        frozen_cols: 1,
        filter: Some(FilterSpec {
            range: (4, 0, 20, 3),
            columns: vec![ColumnFilterSpec { col: 2, filter: text("{}") }],
            sort: Some(SortState { column: 2, direction: SortDirection::Ascending }),
        }),
        charts: Some(Charts::List(vec![chart("A5:B20"), chart("Sheet1!D1:D4")])),
    };

    // Insert 2 rows at row index 1 (inside the frozen band, above everything).
    layout.shift_for_structural(
        1,
        2,
        false,
        true,
        &vec![Some(text("=A7:B22")), Some(text("=Sheet1!D1:D6"))],
    );
    assert_eq!(layout.row_heights.keys().copied().collect::<Vec<_>>(), vec![3, 7]);
    assert_eq!(layout.frozen_rows, 4, "frozen band grew with the insert");
    assert_eq!(layout.col_widths.keys().copied().collect::<Vec<_>>(), vec![0, 3]);
    let f = layout.filter.as_ref().unwrap();
    assert_eq!((f.range.0, f.range.2), (6, 22), "filter range moved down");
    match layout.charts.as_ref().unwrap() {
        Charts::List(charts) => {
            assert_eq!(charts[0].data_range, Some(text("A7:B22")));
            assert_eq!(charts[1].data_range, Some(text("Sheet1!D1:D6")));
        }
        Charts::Other(_) => panic!("the charts are a list"),
    }

    // Deleting the columns a filter and a sort target drops them.
    let mut l2 = SheetLayout {
        filter: Some(FilterSpec {
            range: (0, 0, 9, 5),
            columns: vec![ColumnFilterSpec { col: 2, filter: text("{}") }],
            sort: Some(SortState { column: 2, direction: SortDirection::Ascending }),
        }),
        ..SheetLayout::default()
    };
    l2.shift_for_structural(2, 1, true, false, &vec![]);
    let f2 = l2.filter.as_ref().unwrap();
    assert!(f2.columns.is_empty(), "filter on a deleted column is dropped");
    assert!(f2.sort.is_none(), "sort on a deleted column is dropped");

    // A chart whose whole range is deleted says so.
    let mut l3 = SheetLayout {
        charts: Some(Charts::List(vec![chart("A2:A4")])),
        ..SheetLayout::default()
    };
    l3.shift_for_structural(0, 10, true, true, &vec![Some(text("=#REF!"))]);
    match l3.charts.unwrap() {
        Charts::List(charts) => assert_eq!(charts[0].data_range, Some(text("#REF!"))),
        Charts::Other(_) => panic!("the charts are a list"),
    }
}

#[test]
fn hidden_rows_shift_on_insert() {
    let mut l = layout_with_hidden();
    l.shift_for_structural(0, 1, false, true, &vec![]);
    assert_eq!(l.hidden_rows.iter().copied().collect::<Vec<_>>(), vec![3, 6]);
    assert_eq!(l.hidden_cols.iter().copied().collect::<Vec<_>>(), vec![1], "columns untouched");
}

#[test]
fn deleting_a_hidden_row_drops_it() {
    let mut l = layout_with_hidden();
    l.shift_for_structural(2, 1, true, true, &vec![]);
    assert_eq!(l.hidden_rows.iter().copied().collect::<Vec<_>>(), vec![4]);
}

#[test]
fn hidden_cols_shift_on_column_insert() {
    let mut l = layout_with_hidden();
    l.shift_for_structural(0, 2, false, false, &vec![]);
    assert_eq!(l.hidden_cols.iter().copied().collect::<Vec<_>>(), vec![3]);
    assert_eq!(l.hidden_rows.iter().copied().collect::<Vec<_>>(), vec![2, 5], "rows untouched");
}

#[test]
fn hidden_only_layout_is_not_empty() {
    assert!(!layout_with_hidden().is_empty());
    assert!(SheetLayout::default().is_empty());
}

#[test]
fn lines_move_with_an_insert_and_go_with_a_delete() {
    assert_eq!(shift_line(5, 3, 2, false), Some(7));
    assert_eq!(shift_line(2, 3, 2, false), Some(2));
    assert_eq!(shift_line(4, 3, 2, true), None);
    assert_eq!(shift_line(5, 3, 2, true), Some(3));
}

#[test]
fn spans_shrink_with_a_delete() {
    assert_eq!(shift_span(2, 6, 3, 2, true), Some((2, 4)));
    assert_eq!(shift_span(3, 4, 3, 2, true), None);
    assert_eq!(shift_span(2, 6, 3, 2, false), Some((2, 8)));
    assert_eq!(shift_span(2, 6, 1, 2, false), Some((4, 8)));
}

#[test]
fn a_range_goes_through_the_reference_transform_as_a_formula() {
    assert_eq!(range_formula("A1:B2"), "=A1:B2");
    assert_eq!(range_sheet_name("Sheet1!D1:D4"), "Sheet1");
    assert_eq!(shift_a1_range("A1:B2", &Some(text("=A3:B4"))), "A3:B4");
    assert_eq!(shift_a1_range("A1:B2", &None), "A1:B2");
}

#[test]
fn layouts_of_a_document_become_native_ones() {
    let mut a = SheetLayout::default();
    a.col_widths.insert(1, 90.0f32.to_bits());
    let mut b = SheetLayout::default();
    b.hidden_rows.insert(4);
    let n: NativeLayout = json_layouts_to_native(&vec![a, b]);
    let widths: BTreeMap<usize, u32> = [(1, 90.0f32.to_bits())].into_iter().collect();
    assert_eq!(n.col_widths.get(&0), Some(&widths));
    assert_eq!(n.col_widths.get(&1), None);
    let rows: BTreeSet<usize> = [4].into_iter().collect();
    assert_eq!(n.hidden_rows.get(&1), Some(&rows));
    assert_eq!(n.hidden_rows.get(&0), None);
}

#[test]
fn a_filter_comes_back_when_an_insert_is_undone() {
    let filter = || FilterSpec {
        range: (4, 1, 20, 6),
        columns: vec![
            ColumnFilterSpec { col: 2, filter: text("a") },
            ColumnFilterSpec { col: 5, filter: text("b") },
        ],
        sort: Some(SortState { column: 5, direction: SortDirection::Descending }),
    };
    let mut l = SheetLayout { filter: Some(filter()), ..SheetLayout::default() };
    l.shift_for_structural(3, 4, false, false, &vec![]);
    let moved = l.filter.as_ref().unwrap();
    assert_eq!(moved.range, (4, 1, 20, 10));
    assert_eq!(moved.columns[1].col, 9);
    l.shift_for_structural(3, 4, true, false, &vec![]);
    assert_eq!(l.filter, Some(filter()));
}
