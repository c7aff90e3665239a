use ark::data_explorer::export_selection::{
    export_selection, range_between, ExportFormat, ExportRequest, Selection, TableSelection,
    TableSelectionKind,
};

/// A table: names of columns, and cells by rows. Missing cells are empty.
struct Data {
    names: Vec<&'static str>,
    rows: Vec<Vec<&'static str>>,
}

fn small_test_data() -> Data {
    Data {
        names: vec!["a", "b", "c"],
        rows: vec![vec!["1", "4", "a"], vec!["2", "5", "b"], vec!["3", "", "c"]],
    }
}

/// Test data that's easier to verify and understand in assertions
fn predictable_test_data() -> Data {
    Data {
        names: vec!["col_0", "col_1", "col_2"],
        rows: vec![
            vec!["10", "20", "A"],
            vec!["11", "21", "B"],
            vec!["12", "22", "C"],
            vec!["13", "23", "D"],
        ],
    }
}

/// What is exported of a table on a request.
fn export(data: &Data, request: &ExportRequest) -> String {
    let all = |n: usize| (1..=n as i64).collect::<Vec<i64>>();
    let rows = request.rows.as_ref().cloned().unwrap_or(all(data.rows.len()));
    let columns = request.columns.as_ref().cloned().unwrap_or(all(data.names.len()));
    let separator = match request.format {
        "csv" => ",",
        "tsv" => "\t",
        other => panic!("{other}"),
    };
    let mut lines = Vec::new();
    if request.include_header {
        let names: Vec<&str> = columns.iter().map(|j| data.names[*j as usize - 1]).collect();
        lines.push(names.join(separator));
    }
    for i in rows {
        let cells: Vec<&str> =
            columns.iter().map(|j| data.rows[i as usize - 1][*j as usize - 1]).collect();
        lines.push(cells.join(separator));
    }
    lines.join("\n")
}

fn export_selection_helper(data: &Data, selection: TableSelection) -> String {
    export(data, &export_selection(&None, &selection, ExportFormat::Csv))
}

fn export_selection_helper_with_view_indices(
    data: &Data,
    view_indices: Vec<i32>,
    selection: TableSelection,
) -> String {
    export(data, &export_selection(&Some(view_indices), &selection, ExportFormat::Csv))
}

/// Test a selection with all supported formats
fn test_selection_all_formats(data: &Data, selection: TableSelection, expected_csv: &str) {
    assert_eq!(
        export(data, &export_selection(&None, &selection, ExportFormat::Csv)),
        expected_csv
    );
    assert_eq!(
        export(data, &export_selection(&None, &selection, ExportFormat::Tsv)),
        expected_csv.replace(',', "\t")
    );
    assert_eq!(export_selection(&None, &selection, ExportFormat::Html).format, "html");
}

// Helper functions to create different selection types
fn single_cell_selection(row_index: i64, column_index: i64) -> TableSelection {
    TableSelection {
        kind: TableSelectionKind::SingleCell,
        selection: Selection::SingleCell {
            row_index,
            column_index,
        },
    }
}

fn cell_range_selection(
    first_row_index: i64,
    last_row_index: i64,
    first_column_index: i64,
    last_column_index: i64,
) -> TableSelection {
    TableSelection {
        kind: TableSelectionKind::CellRange,
        selection: Selection::CellRange {
            first_row_index,
            last_row_index,
            first_column_index,
            last_column_index,
        },
    }
}

fn cell_indices_selection(row_indices: Vec<i64>, column_indices: Vec<i64>) -> TableSelection {
    TableSelection {
        kind: TableSelectionKind::CellIndices,
        selection: Selection::CellIndices {
            row_indices,
            column_indices,
        },
    }
}

fn row_range_selection(first_index: i64, last_index: i64) -> TableSelection {
    TableSelection {
        kind: TableSelectionKind::RowRange,
        selection: Selection::IndexRange {
            first_index,
            last_index,
        },
    }
}

fn column_range_selection(first_index: i64, last_index: i64) -> TableSelection {
    TableSelection {
        kind: TableSelectionKind::ColumnRange,
        selection: Selection::IndexRange {
            first_index,
            last_index,
        },
    }
}

fn row_indices_selection(indices: Vec<i64>) -> TableSelection {
    TableSelection {
        kind: TableSelectionKind::RowIndices,
        selection: Selection::Indices { indices },
    }
}

fn column_indices_selection(indices: Vec<i64>) -> TableSelection {
    TableSelection {
        kind: TableSelectionKind::ColumnIndices,
        selection: Selection::Indices { indices },
    }
}

#[test]
fn test_na_value_handling() {
    let data = small_test_data(); // data.frame(a = 1:3, b = c(4,5,NA), c = letters[1:3])

    // Test NA handling in single cell - NA should export as empty string
    assert_eq!(
        export_selection_helper(&data, single_cell_selection(2, 1)),
        "".to_string() // NA exported as empty string
    );

    // Test NA handling in multi-cell export - NA should appear as empty in CSV
    test_selection_all_formats(
        &data,
        cell_range_selection(1, 2, 1, 2),
        "b,c\n5,b\n,c", // NA in row 2, col 1 (b column) appears as empty
    );
}

#[test]
fn test_cell_indices_order_preservation() {
    let data = predictable_test_data();

    // Test case 1: Single row, multiple columns
    test_selection_all_formats(
        &data,
        cell_indices_selection(vec![1], vec![0, 2]),
        "col_0,col_2\n11,B",
    );

    // Test case 2: Multiple rows, single column
    test_selection_all_formats(
        &data,
        cell_indices_selection(vec![0, 2], vec![1]),
        "col_1\n20\n22",
    );

    // Test case 3: Cartesian product - multiple rows × multiple columns
    test_selection_all_formats(
        &data,
        cell_indices_selection(vec![0, 1], vec![0, 2]),
        "col_0,col_2\n10,A\n11,B",
    );

    // Test case 4: Order preservation - non-increasing row indices
    test_selection_all_formats(
        &data,
        cell_indices_selection(vec![3, 0, 2], vec![0]),
        "col_0\n13\n10\n12",
    );

    // Test case 5: Order preservation - non-increasing column indices
    test_selection_all_formats(
        &data,
        cell_indices_selection(vec![1], vec![2, 0, 1]),
        "col_2,col_0,col_1\nB,11,21",
    );

    // Test case 6: Both rows and columns out of order
    test_selection_all_formats(
        &data,
        cell_indices_selection(vec![2, 0], vec![1, 2]),
        "col_1,col_2\n22,C\n20,A",
    );

    // Test case 7: Single cell (edge case)
    assert_eq!(
        export_selection_helper(&data, cell_indices_selection(vec![1], vec![1])),
        "col_1\n21"
    );
}

#[test]
fn test_all_selection_types() {
    let data = predictable_test_data();

    // Test single cell selection - exports just the cell value without headers
    test_selection_all_formats(
        &data,
        single_cell_selection(1, 2), // row 1, col 2 -> 'B' (no header for single cell)
        "B",
    );

    // Test cell range - rectangular selection with headers
    test_selection_all_formats(
        &data,
        cell_range_selection(1, 2, 0, 1), // rows 1-2, cols 0-1
        "col_0,col_1\n11,21\n12,22",
    );

    // Test row range - full rows from first to last index
    test_selection_all_formats(
        &data,
        row_range_selection(1, 2), // rows 1-2, all columns
        "col_0,col_1,col_2\n11,21,B\n12,22,C",
    );

    // Test column range - full columns from first to last index
    test_selection_all_formats(
        &data,
        column_range_selection(0, 1), // all rows, cols 0-1
        "col_0,col_1\n10,20\n11,21\n12,22\n13,23",
    );

    // Test row indices - specific rows in given order (non-contiguous)
    test_selection_all_formats(
        &data,
        row_indices_selection(vec![0, 3, 1]), // rows 0, 3, 1 in that order
        "col_0,col_1,col_2\n10,20,A\n13,23,D\n11,21,B",
    );

    // Test column indices - specific columns in given order (non-contiguous)
    test_selection_all_formats(
        &data,
        column_indices_selection(vec![2, 0]), // cols 2, 0 in that order
        "col_2,col_0\nA,10\nB,11\nC,12\nD,13",
    );
}

#[test]
fn test_view_indices_filtering() {
    let data = small_test_data();

    // View indices allow reordering and filtering of rows before selection
    // Note: view_indices are 1-based in R!
    assert_eq!(
        export_selection_helper_with_view_indices(
            &data,
            vec![3, 2, 1],
            single_cell_selection(0, 1)
        ),
        "".to_string()
    );

    // view indices imply a different subset of the data
    assert_eq!(
        export_selection_helper_with_view_indices(
            &data,
            vec![2],
            single_cell_selection(0, 1)
        ),
        "5".to_string()
    );
}

#[test]
fn test_cross_platform_line_endings() {
    let data = predictable_test_data();

    // Ensure consistent line ending behavior across Windows and Unix
    // R's write functions should produce \n regardless of platform
    let result =
        export_selection_helper(&data, cell_indices_selection(vec![0, 1], vec![0]));

    // Should always use Unix line endings for consistency
    assert!(result.contains('\n'), "Should contain Unix line endings");
    assert!(
        !result.contains("\r\n"),
        "Should not contain Windows CRLF line endings"
    );

    // Verify exact content with no trailing newlines
    assert_eq!(result, "col_0\n10\n11");
}

#[test]
fn ranges_hold_both_ends() {
    assert_eq!(range_between(2, 4), vec![2, 3, 4]);
    assert_eq!(range_between(4, 4), vec![4]);
    assert_eq!(range_between(4, 3), Vec::<i64>::new());
}
