//! Export of a selection of a table.
use vstd::prelude::*;

use crate::data_explorer::utils::{
    row_ok, table_row, tbl_subset_with_view_indices, view_rows,
};

verus! {

#[derive(Clone, Copy, Debug, PartialEq, Eq, Structural)]
pub enum ExportFormat {
    Csv,
    Tsv,
    Html,
}

#[derive(Clone, Copy, Debug, PartialEq, Eq, Structural)]
pub enum TableSelectionKind {
    SingleCell,
    CellRange,
    CellIndices,
    ColumnRange,
    RowRange,
    ColumnIndices,
    RowIndices,
}

/// What is selected. Indices count from zero, and ranges hold their last index.
#[derive(Debug, PartialEq, Eq)]
pub enum Selection {
    SingleCell { row_index: i64, column_index: i64 },
    CellRange {
        first_row_index: i64,
        last_row_index: i64,
        first_column_index: i64,
        last_column_index: i64,
    },
    CellIndices { row_indices: Vec<i64>, column_indices: Vec<i64> },
    IndexRange { first_index: i64, last_index: i64 },
    Indices { indices: Vec<i64> },
}

#[derive(Debug, PartialEq, Eq)]
pub struct TableSelection {
    pub kind: TableSelectionKind,
    pub selection: Selection,
}

/// What is selected is of the kind that the selection says.
pub open spec fn kind_ok(s: TableSelection) -> bool {
    match s.kind {
        TableSelectionKind::SingleCell => s.selection is SingleCell,
        TableSelectionKind::CellRange => s.selection is CellRange,
        TableSelectionKind::CellIndices => s.selection is CellIndices,
        TableSelectionKind::ColumnRange => s.selection is IndexRange,
        TableSelectionKind::RowRange => s.selection is IndexRange,
        TableSelectionKind::ColumnIndices => s.selection is Indices,
        TableSelectionKind::RowIndices => s.selection is Indices,
    }
}

/// Whether the selection is of its kind.
pub fn kind_fits(s: &TableSelection) -> (r: bool)
    ensures
        r == kind_ok(*s),
{
    match (s.kind, &s.selection) {
        (TableSelectionKind::SingleCell, Selection::SingleCell { .. }) => true,
        (TableSelectionKind::CellRange, Selection::CellRange { .. }) => true,
        (TableSelectionKind::CellIndices, Selection::CellIndices { .. }) => true,
        (TableSelectionKind::ColumnRange, Selection::IndexRange { .. }) => true,
        (TableSelectionKind::RowRange, Selection::IndexRange { .. }) => true,
        (TableSelectionKind::ColumnIndices, Selection::Indices { .. }) => true,
        (TableSelectionKind::RowIndices, Selection::Indices { .. }) => true,
        _ => false,
    }
}

/// The numbers from `first` to `last`.
pub open spec fn all_between(first: i64, last: i64) -> Seq<i64> {
    Seq::new(
        if first <= last {
            (last - first + 1) as nat
        } else {
            0
        },
        |i: int| (first + i) as i64,
    )
}

/// The rows that are selected, counted from zero. None stands for all.
pub open spec fn selected_rows(s: TableSelection) -> Option<Seq<i64>> {
    match s.selection {
        Selection::SingleCell { row_index, .. } => Some(seq![row_index]),
        Selection::CellRange { first_row_index, last_row_index, .. } => Some(
            all_between(first_row_index, last_row_index),
        ),
        Selection::CellIndices { row_indices, .. } => Some(row_indices@),
        Selection::IndexRange { first_index, last_index } => if s.kind
            == TableSelectionKind::RowRange {
            Some(all_between(first_index, last_index))
        } else {
            None
        },
        Selection::Indices { indices } => if s.kind == TableSelectionKind::RowIndices {
            Some(indices@)
        } else {
            None
        },
    }
}

/// The columns that are selected, counted from zero. None stands for all.
pub open spec fn selected_columns(s: TableSelection) -> Option<Seq<i64>> {
    match s.selection {
        Selection::SingleCell { column_index, .. } => Some(seq![column_index]),
        Selection::CellRange { first_column_index, last_column_index, .. } => Some(
            all_between(first_column_index, last_column_index),
        ),
        Selection::CellIndices { column_indices, .. } => Some(column_indices@),
        Selection::IndexRange { first_index, last_index } => if s.kind
            == TableSelectionKind::ColumnRange {
            Some(all_between(first_index, last_index))
        } else {
            None
        },
        Selection::Indices { indices } => if s.kind == TableSelectionKind::ColumnIndices {
            Some(indices@)
        } else {
            None
        },
    }
}

/// The numbers from `first` to `last`.
pub fn range_between(first: i64, last: i64) -> (r: Vec<i64>)
    ensures
        r@ == all_between(first, last),
{
    let mut r: Vec<i64> = Vec::new();
    if first > last {
        assert(r@ =~= all_between(first, last));
        return r;
    }
    let mut i: i64 = first;
    while i < last
        invariant
            first <= i <= last,
            r@ == all_between(first, last).take(i - first),
        decreases last - i,
    {
        r.push(i);
        assert(all_between(first, last).take(i + 1 - first) =~= all_between(first, last).take(
            i - first,
        ).push(i));
        i = i + 1;
    }
    r.push(i);
    assert(r@ =~= all_between(first, last));
    r
}

fn copy_indices(v: &Vec<i64>) -> (r: Vec<i64>)
    ensures
        r@ == v@,
{
    let mut r: Vec<i64> = Vec::new();
    let n: usize = v.len();
    let mut i: usize = 0;
    while i < n
        invariant
            n == v@.len(),
            i <= n,
            r@ == v@.take(i as int),
        decreases n - i,
    {
        r.push(v[i]);
        i = i + 1;
    }
    r
}

/// An optional list of indices, as a sequence.
pub open spec fn opt_seq(v: Option<Vec<i64>>) -> Option<Seq<i64>> {
    match v {
        Some(x) => Some(x@),
        None => None,
    }
}

/// The rows and the columns that are selected.
pub fn selection_indices(selection: &TableSelection) -> (r: (Option<Vec<i64>>, Option<Vec<i64>>))
    requires
        kind_ok(*selection),
    ensures
        opt_seq(r.0) == selected_rows(*selection),
        opt_seq(r.1) == selected_columns(*selection),
{
    match &selection.selection {
        Selection::SingleCell { row_index, column_index } => {
            let rows: Vec<i64> = vec![*row_index];
            let columns: Vec<i64> = vec![*column_index];
            assert(rows@ =~= seq![*row_index]);
            assert(columns@ =~= seq![*column_index]);
            (Some(rows), Some(columns))
        },
        Selection::CellRange {
            first_row_index,
            last_row_index,
            first_column_index,
            last_column_index,
        } => (
            Some(range_between(*first_row_index, *last_row_index)),
            Some(range_between(*first_column_index, *last_column_index)),
        ),
        Selection::CellIndices { row_indices, column_indices } => (
            Some(copy_indices(row_indices)),
            Some(copy_indices(column_indices)),
        ),
        Selection::IndexRange { first_index, last_index } => {
            if selection.kind == TableSelectionKind::RowRange {
                (Some(range_between(*first_index, *last_index)), None)
            } else {
                (None, Some(range_between(*first_index, *last_index)))
            }
        },
        Selection::Indices { indices } => {
            if selection.kind == TableSelectionKind::RowIndices {
                (Some(copy_indices(indices)), None)
            } else {
                (None, Some(copy_indices(indices)))
            }
        },
    }
}

/// The rows and the columns of the table, counted from one, that a selection of the
/// view selects.
pub fn get_selection(view_indices: &Option<Vec<i32>>, selection: &TableSelection) -> (r: (
    Option<Vec<i64>>,
    Option<Vec<i64>>,
))
    requires
        kind_ok(*selection),
        selected_rows(*selection) matches Some(rows) ==> forall|k: int|
            0 <= k < rows.len() ==> row_ok(view_rows(*view_indices), #[trigger] rows[k]),
        selected_columns(*selection) matches Some(columns) ==> forall|k: int|
            0 <= k < columns.len() ==> #[trigger] columns[k] < i64::MAX,
    ensures
        match (selected_rows(*selection), r.0) {
            (Some(rows), Some(out)) => out@.len() == rows.len() && forall|k: int|
                0 <= k < out@.len() ==> #[trigger] out@[k] == table_row(
                    view_rows(*view_indices),
                    rows[k],
                ),
            (None, None) => true,
            _ => false,
        },
        match (selected_columns(*selection), r.1) {
            (Some(columns), Some(out)) => out@.len() == columns.len() && forall|k: int|
                0 <= k < out@.len() ==> #[trigger] out@[k] == columns[k] + 1,
            (None, None) => true,
            _ => false,
        },
{
    let (i, j) = selection_indices(selection);
    proof {
        if i is Some {
            let rows = i->0;
            assert(selected_rows(*selection) == Some(rows@));
            assert forall|k: int| 0 <= k < rows@.len() implies row_ok(
                view_rows(*view_indices),
                #[trigger] rows@[k],
            ) by {
                assert(row_ok(view_rows(*view_indices), selected_rows(*selection)->0[k]));
            }
        }
        if j is Some {
            let columns = j->0;
            assert(selected_columns(*selection) == Some(columns@));
            assert forall|k: int| 0 <= k < columns@.len() implies #[trigger] columns@[k]
                < i64::MAX by {
                assert(selected_columns(*selection)->0[k] < i64::MAX);
            }
        }
    }
    tbl_subset_with_view_indices(view_indices, i, j)
}

/// The name of a format.
pub open spec fn format_name(format: ExportFormat) -> Seq<char> {
    match format {
        ExportFormat::Csv => "csv"@,
        ExportFormat::Tsv => "tsv"@,
        ExportFormat::Html => "html"@,
    }
}

/// What R is asked to export: rows and columns of the table, counted from one, and
/// how.
#[derive(Debug, PartialEq, Eq)]
pub struct ExportRequest {
    pub rows: Option<Vec<i64>>,
    pub columns: Option<Vec<i64>>,
    pub format: &'static str,
    pub include_header: bool,
}

/// What R is asked to export for a selection of the view. A single cell has no
/// header.
pub fn export_selection(
    view_indices: &Option<Vec<i32>>,
    selection: &TableSelection,
    format: ExportFormat,
) -> (r: ExportRequest)
    requires
        kind_ok(*selection),
        selected_rows(*selection) matches Some(rows) ==> forall|k: int|
            0 <= k < rows.len() ==> row_ok(view_rows(*view_indices), #[trigger] rows[k]),
        selected_columns(*selection) matches Some(columns) ==> forall|k: int|
            0 <= k < columns.len() ==> #[trigger] columns[k] < i64::MAX,
    ensures
        r.format@ == format_name(format),
        r.include_header == (selection.kind != TableSelectionKind::SingleCell),
        match (selected_rows(*selection), r.rows) {
            (Some(rows), Some(out)) => out@.len() == rows.len() && forall|k: int|
                0 <= k < out@.len() ==> #[trigger] out@[k] == table_row(
                    view_rows(*view_indices),
                    rows[k],
                ),
            (None, None) => true,
            _ => false,
        },
        match (selected_columns(*selection), r.columns) {
            (Some(columns), Some(out)) => out@.len() == columns.len() && forall|k: int|
                0 <= k < out@.len() ==> #[trigger] out@[k] == columns[k] + 1,
            (None, None) => true,
            _ => false,
        },
{
    let (rows, columns) = get_selection(view_indices, selection);
    let name: &'static str = match format {
        ExportFormat::Csv => "csv",
        ExportFormat::Tsv => "tsv",
        ExportFormat::Html => "html",
    };
    ExportRequest {
        rows,
        columns,
        format: name,
        include_header: selection.kind != TableSelectionKind::SingleCell,
    }
}

/// What a selection selects. A cell is one row and one column, a range of cells the rows
/// and columns from the first to the last, both included, and cells by indices the rows
/// and columns in the order given. A selection of rows has all columns, and one of columns
/// all rows.
pub proof fn law_what_is_selected(s: TableSelection, i: i64)
    requires
        kind_ok(s),
    ensures
        match s.selection {
            Selection::SingleCell { row_index, column_index } => selected_rows(s) == Some(
                seq![row_index],
            ) && selected_columns(s) == Some(seq![column_index]),
            Selection::CellRange {
                first_row_index,
                last_row_index,
                first_column_index,
                last_column_index,
            } => {
                &&& selected_rows(s) matches Some(rows) && (rows.contains(i) <==> first_row_index
                    <= i <= last_row_index)
                &&& selected_columns(s) matches Some(columns) && (columns.contains(i)
                    <==> first_column_index <= i <= last_column_index)
            },
            Selection::CellIndices { row_indices, column_indices } => selected_rows(s) == Some(
                row_indices@,
            ) && selected_columns(s) == Some(column_indices@),
            Selection::IndexRange { first_index, last_index } => {
                &&& s.kind == TableSelectionKind::RowRange ==> selected_columns(s) is None && (
                selected_rows(s) matches Some(rows) && (rows.contains(i) <==> first_index <= i
                    <= last_index))
                &&& s.kind == TableSelectionKind::ColumnRange ==> selected_rows(s) is None && (
                selected_columns(s) matches Some(columns) && (columns.contains(i) <==> first_index
                    <= i <= last_index))
            },
            Selection::Indices { indices } => {
                &&& s.kind == TableSelectionKind::RowIndices ==> selected_rows(s) == Some(indices@)
                    && selected_columns(s) is None
                &&& s.kind == TableSelectionKind::ColumnIndices ==> selected_columns(s) == Some(
                    indices@,
                ) && selected_rows(s) is None
            },
        },
{
    match s.selection {
        Selection::CellRange {
            first_row_index,
            last_row_index,
            first_column_index,
            last_column_index,
        } => {
            lemma_between(first_row_index, last_row_index, i);
            lemma_between(first_column_index, last_column_index, i);
        },
        Selection::IndexRange { first_index, last_index } => {
            lemma_between(first_index, last_index, i);
        },
        _ => {},
    }
}

proof fn lemma_between(first: i64, last: i64, i: i64)
    ensures
        all_between(first, last).contains(i) <==> first <= i <= last,
{
    let s = all_between(first, last);
    if first <= i <= last {
        assert(s[i - first] == i);
    }
    if s.contains(i) {
        let k = choose|k: int| 0 <= k < s.len() && s[k] == i;
        assert(s[k] == first + k);
    }
}

/// A range comes in ascending order, each number once.
pub proof fn law_ranges_ascend(first: i64, last: i64, i: int, j: int)
    requires
        0 <= i < j < all_between(first, last).len(),
    ensures
        all_between(first, last)[i] + (j - i) == all_between(first, last)[j],
        all_between(first, last)[0] == first,
        all_between(first, last).last() == last,
{
}

/// The formats in which a selection is exported have the names that R knows.
pub proof fn law_names_of_formats()
    ensures
        format_name(ExportFormat::Csv) == "csv"@,
        format_name(ExportFormat::Tsv) == "tsv"@,
        format_name(ExportFormat::Html) == "html"@,
{
}

} // verus!
