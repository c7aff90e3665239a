//! The data explorer: a view of a table, sorted and filtered as the frontend asks.
//!
//! R holds the table. What is asked of R, and what is made of its answers, is decided
//! here, step by step: each step says what R is to do next, and the next step takes
//! R's answer.
use vstd::prelude::*;

use crate::comm_handler::EnvironmentChanged;
use crate::data_explorer::column_profile::ColumnProfileType;
use crate::data_explorer::convert_to_code::{
    convert_to_code, suggest_code_syntax, view_code, ResolvedSortKey,
};
use crate::data_explorer::data_explorer_comm::{
    column_models, same_column_filter, same_filter, ArraySelection, BackendState, CodeSyntaxName,
    ColumnDisplayType, ColumnFilter, ColumnFilterType, ColumnSchema, ColumnSelection,
    ColumnSortKey, ConvertedCode, DataExplorerBackendReply, DataExplorerBackendRequest, DataExplorerFrontendEvent,
    FilterComparisonOp, FilterResult, GetColumnProfilesParams, RowFilter, RowFilterParams,
    RowFilterType, SearchSchemaParams, SupportStatus, SupportedFeatures, TableShape,
};
use crate::data_explorer::export_selection::{
    export_selection, format_name, kind_ok, selected_columns, selected_rows, ExportFormat,
    ExportRequest, TableSelection, TableSelectionKind,
};
use crate::data_explorer::format::{
    column_value, data_ok, display_text, format_column, format_string, formatted_column,
    ColumnData, ColumnValue, FormatOptions, Formatted,
};
use crate::data_explorer::schema_search::{
    get_schema, is_search_result, schema_fault, schema_of, search_schema,
};
use crate::data_explorer::table::Table;
use crate::data_explorer::utils::{
    display_type, row_ok, spec_display_type, table_row, tbl_subset_with_view_indices, view_rows,
    ColumnType,
};
use crate::r_object::RObject;
use crate::text;

verus! {

pub const DATA_EXPLORER_COMM_NAME: &'static str = "positron.dataExplorer";

/// A name bound to a value in an environment.
///
/// By it the data explorer knows which object it views: when the binding changes, so
/// does what is viewed.
#[derive(Debug)]
pub struct DataObjectEnvInfo {
    pub name: String,
    pub env: RObject,
}

#[derive(Clone, Copy, Debug, PartialEq, Eq, Structural)]
pub enum TableKind {
    Dataframe,
    Matrix,
}

/// The columns of a table and the number of its rows.
#[derive(Debug)]
pub struct DataObjectShape {
    pub columns: Vec<ColumnSchema>,
    pub num_rows: i32,
    pub kind: TableKind,
}

/// What R tells of a column.
#[derive(Debug)]
pub struct ColumnProbe {
    pub name: Option<String>,
    /// The first element of the label, if the label is made of strings.
    pub label: Option<String>,
    pub type_label: String,
    pub column_type: ColumnType,
}

/// What R tells of a table.
#[derive(Debug)]
pub struct TableProbe {
    pub kind: TableKind,
    pub num_rows: i32,
    pub columns: Vec<ColumnProbe>,
}

/// The label of a column. Only columns of data frames have labels, and a blank label
/// is none.
pub open spec fn label_of(kind: TableKind, label: Option<Seq<char>>) -> Option<Seq<char>> {
    match label {
        Some(l) => if kind == TableKind::Dataframe && text::trimmed(l).len() > 0 {
            Some(l)
        } else {
            None
        },
        None => None,
    }
}

/// A column, as the frontend is told of it.
pub open spec fn is_schema(c: ColumnSchema, probe: ColumnProbe, kind: TableKind, i: int) -> bool {
    &&& c.column_name@ == match probe.name {
        Some(name) => name@,
        None => Seq::empty(),
    }
    &&& text::opt_text(c.column_label) == label_of(kind, text::opt_text(probe.label))
    &&& c.column_index == i
    &&& c.type_label@ == probe.type_label@
    &&& c.type_display == spec_display_type(probe.column_type)
}

/// The shape of a table, as the frontend is told of it.
pub open spec fn is_shape(shape: DataObjectShape, probe: TableProbe) -> bool {
    &&& shape.kind == probe.kind
    &&& shape.num_rows == probe.num_rows
    &&& shape.columns@.len() == probe.columns@.len()
    &&& forall|i: int|
        0 <= i < shape.columns@.len() ==> is_schema(
            #[trigger] shape.columns@[i],
            probe.columns@[i],
            probe.kind,
            i,
        )
}

/// What R has to do to sort rows: order them by columns, each ascending or not.
#[derive(Debug, PartialEq, Eq)]
pub struct SortRequest {
    pub columns: Vec<i32>,
    pub decreasing: Vec<bool>,
}

/// R is asked to order by the columns of the keys.
pub open spec fn is_sort_request(r: SortRequest, keys: Seq<ColumnSortKey>) -> bool {
    &&& r.columns@.len() == keys.len()
    &&& r.decreasing@.len() == keys.len()
    &&& forall|i: int|
        0 <= i < keys.len() ==> #[trigger] r.columns@[i] == keys[i].column_index as i32
    &&& forall|i: int| 0 <= i < keys.len() ==> #[trigger] r.decreasing@[i] == !keys[i].ascending
}

/// What R tells of filters: the rows that pass all of them, counted from one, and for
/// each filter why it failed, if it did.
#[derive(Debug)]
pub struct FilteredRows {
    pub indices: Vec<i32>,
    pub errors: Vec<Option<String>>,
}

/// Rows in ascending order.
pub open spec fn rows_ascend(s: Seq<i32>) -> bool {
    forall|i: int, j: int| 0 <= i <= j < s.len() ==> s[i] <= s[j]
}

/// R's answer fits a number of filters.
pub open spec fn answer_fits(answer: Result<FilteredRows, String>, filters: nat) -> bool {
    match answer {
        Ok(f) => f.errors@.len() <= filters,
        Err(_) => true,
    }
}

/// The rows of a part of the table, counted from one, and its columns.
#[derive(Debug, PartialEq, Eq)]
pub struct TableSubset {
    pub rows: Vec<i64>,
    pub columns: Vec<i64>,
}

/// The rows that are shown: of the sorted rows, which are all, those that pass the
/// filters. None stands for all rows, in the order of the table.
pub open spec fn view_of(sorted: Option<Seq<i32>>, filtered: Option<Seq<i32>>) -> Option<
    Seq<i32>,
> {
    match (sorted, filtered) {
        (None, _) => filtered,
        (_, None) => sorted,
        (Some(s), Some(f)) => Some(s.filter(|row: i32| f.contains(row))),
    }
}

/// Why a filter cannot be judged, in words.
pub open spec fn filter_fault(filter: RowFilter) -> Option<Seq<char>> {
    if filter.filter_type == RowFilterType::Compare {
        match filter.params {
            Some(RowFilterParams::Comparison(_)) => None,
            Some(_) => Some("Missing compare filter params"@),
            None => Some("Missing compare_params for filter"@),
        }
    } else {
        None
    }
}

/// Values of the type can be compared by their order.
pub open spec fn compare_supported(t: ColumnDisplayType) -> bool {
    ||| t == ColumnDisplayType::Integer
    ||| t == ColumnDisplayType::Floating
    ||| t == ColumnDisplayType::Decimal
    ||| t == ColumnDisplayType::Date
    ||| t == ColumnDisplayType::Datetime
    ||| t == ColumnDisplayType::Time
}

/// A filter suits the type of its column.
pub open spec fn filter_valid(filter: RowFilter) -> bool {
    let t = filter.column_schema.type_display;
    match filter.filter_type {
        RowFilterType::IsEmpty => t == ColumnDisplayType::String,
        RowFilterType::NotEmpty => t == ColumnDisplayType::String,
        RowFilterType::Search => t == ColumnDisplayType::String,
        RowFilterType::Compare => match filter.params {
            Some(RowFilterParams::Comparison(c)) => c.op == FilterComparisonOp::Eq || c.op
                == FilterComparisonOp::NotEq || compare_supported(t),
            _ => false,
        },
        RowFilterType::Between => compare_supported(t),
        RowFilterType::NotBetween => compare_supported(t),
        RowFilterType::IsTrue => t == ColumnDisplayType::Boolean,
        RowFilterType::IsFalse => t == ColumnDisplayType::Boolean,
        RowFilterType::IsNull => true,
        RowFilterType::NotNull => true,
        RowFilterType::SetMembership => true,
    }
}

fn is_compare_supported(t: ColumnDisplayType) -> (r: bool)
    ensures
        r == compare_supported(t),
{
    match t {
        ColumnDisplayType::Integer => true,
        ColumnDisplayType::Floating => true,
        ColumnDisplayType::Decimal => true,
        ColumnDisplayType::Date => true,
        ColumnDisplayType::Datetime => true,
        ColumnDisplayType::Time => true,
        _ => false,
    }
}

/// Whether a filter suits the type of its column.
pub fn is_valid_filter(filter: &RowFilter) -> (r: Result<bool, &'static str>)
    ensures
        match filter_fault(*filter) {
            Some(message) => r matches Err(m) && m@ == message,
            None => r == Ok::<bool, &'static str>(filter_valid(*filter)),
        },
{
    let t: ColumnDisplayType = filter.column_schema.type_display;
    match filter.filter_type {
        RowFilterType::IsEmpty => Ok(t == ColumnDisplayType::String),
        RowFilterType::NotEmpty => Ok(t == ColumnDisplayType::String),
        RowFilterType::Search => Ok(t == ColumnDisplayType::String),
        RowFilterType::Compare => match &filter.params {
            Some(RowFilterParams::Comparison(c)) => Ok(
                c.op == FilterComparisonOp::Eq || c.op == FilterComparisonOp::NotEq
                    || is_compare_supported(t),
            ),
            Some(_) => Err("Missing compare filter params"),
            None => Err("Missing compare_params for filter"),
        },
        RowFilterType::Between => Ok(is_compare_supported(t)),
        RowFilterType::NotBetween => Ok(is_compare_supported(t)),
        RowFilterType::IsTrue => Ok(t == ColumnDisplayType::Boolean),
        RowFilterType::IsFalse => Ok(t == ColumnDisplayType::Boolean),
        RowFilterType::IsNull => Ok(true),
        RowFilterType::NotNull => Ok(true),
        RowFilterType::SetMembership => Ok(true),
    }
}

/// The first column with a name.
pub open spec fn first_named(columns: Seq<ColumnSchema>, name: Seq<char>) -> Option<int>
    decreases columns.len(),
{
    if columns.len() == 0 {
        None
    } else {
        match first_named(columns.drop_last(), name) {
            Some(i) => Some(i),
            None => if columns.last().column_name@ == name {
                Some(columns.len() - 1)
            } else {
                None
            },
        }
    }
}

fn find_column(columns: &Vec<ColumnSchema>, name: &str) -> (r: Option<usize>)
    ensures
        match r {
            Some(i) => i < columns@.len() && first_named(columns@, name@) == Some(i as int),
            None => first_named(columns@, name@) is None,
        },
{
    let n: usize = columns.len();
    let mut found: Option<usize> = None;
    let mut i: usize = 0;
    assert(columns@.take(0) =~= Seq::<ColumnSchema>::empty());
    while i < n
        invariant
            n == columns@.len(),
            i <= n,
            match found {
                Some(k) => k < i && first_named(columns@.take(i as int), name@) == Some(k as int),
                None => first_named(columns@.take(i as int), name@) is None,
            },
        decreases n - i,
    {
        assert(columns@.take(i + 1).drop_last() =~= columns@.take(i as int));
        if found.is_none() && text::same(columns[i].column_name.as_str(), name) {
            found = Some(i);
        }
        i = i + 1;
    }
    assert(columns@.take(n as int) =~= columns@);
    found
}

/// A filter with the column of the table that it now speaks of.
pub open spec fn retargeted(filter: RowFilter, columns: Seq<ColumnSchema>) -> RowFilter {
    match first_named(columns, filter.column_schema.column_name@) {
        Some(i) => RowFilter { column_schema: columns[i], ..filter },
        None => filter,
    }
}

/// Why a filter cannot be judged in a table, in words.
pub open spec fn update_fault(filter: RowFilter, columns: Seq<ColumnSchema>) -> Option<Seq<char>> {
    match first_named(columns, filter.column_schema.column_name@) {
        Some(_) => filter_fault(retargeted(filter, columns)),
        None => None,
    }
}

/// A filter as it stands in a table with other columns: it speaks of the column that
/// has the name of its column, and is valid if it suits the type of that column.
pub open spec fn is_updated(new: RowFilter, old: RowFilter, columns: Seq<ColumnSchema>) -> bool {
    let target = retargeted(old, columns);
    let valid = first_named(columns, old.column_schema.column_name@) is Some && filter_valid(target);
    &&& new.filter_id == old.filter_id
    &&& new.filter_type == old.filter_type
    &&& new.condition == old.condition
    &&& new.params == old.params
    &&& new.column_schema == target.column_schema
    &&& new.is_valid == Some(valid)
    &&& text::opt_text(new.error_message) == (if valid {
        None
    } else if first_named(columns, old.column_schema.column_name@) is Some {
        Some("Unsupported column type for filter"@)
    } else {
        Some("Column was removed"@)
    })
}

/// The first `n` filters as they stand in a table with other columns. The others are
/// unchanged.
pub open spec fn updated_up_to(
    new: Seq<RowFilter>,
    old: Seq<RowFilter>,
    columns: Seq<ColumnSchema>,
    n: int,
) -> bool {
    &&& new.len() == old.len()
    &&& forall|i: int|
        0 <= i < n ==> is_updated(#[trigger] new[i], old[i], columns) && update_fault(
            old[i],
            columns,
        ) is None
    &&& forall|i: int| n <= i < new.len() ==> #[trigger] new[i] == old[i]
}

/// The filters after an update of the columns, or after the update failed with a
/// message at the first filter that cannot be judged.
pub open spec fn filters_updated(
    r: Result<(), Seq<char>>,
    new: Seq<RowFilter>,
    old: Seq<RowFilter>,
    columns: Seq<ColumnSchema>,
) -> bool {
    match r {
        Ok(()) => updated_up_to(new, old, columns, old.len() as int),
        Err(message) => exists|n: int|
            #![trigger old[n]]
            0 <= n < old.len() && update_fault(old[n], columns) == Some(message) && new.len()
                == old.len() && new[n] == retargeted(old[n], columns) && updated_up_to(
                new.update(n, old[n]),
                old,
                columns,
                n,
            ),
    }
}

/// An error as a text.
pub open spec fn error_text<T>(r: Result<T, &'static str>) -> Result<T, Seq<char>> {
    match r {
        Ok(v) => Ok(v),
        Err(m) => Err(m@),
    }
}

/// Brings filters up to date with the columns of the table.
pub fn row_filters_update(filters: &mut Vec<RowFilter>, columns: &Vec<ColumnSchema>) -> (r: Result<
    (),
    &'static str,
>)
    ensures
        filters_updated(error_text(r), final(filters)@, old(filters)@, columns@),
{
    let n: usize = filters.len();
    let mut i: usize = 0;
    while i < n
        invariant
            n == filters@.len(),
            n == old(filters)@.len(),
            i <= n,
            updated_up_to(filters@, old(filters)@, columns@, i as int),
        decreases n - i,
    {
        let ghost before = filters@;
        let ghost original = old(filters)@[i as int];
        assert(filters@[i as int] == original);
        let found: Option<usize> = find_column(
            columns,
            filters[i].column_schema.column_name.as_str(),
        );
        match found {
            Some(k) => {
                filters[i].column_schema = columns[k].copied();
                assert(filters@[i as int] == retargeted(original, columns@));
                match is_valid_filter(&filters[i]) {
                    Ok(valid) => {
                        filters[i].is_valid = Some(valid);
                        filters[i].error_message = if valid {
                            None
                        } else {
                            Some("Unsupported column type for filter".to_owned())
                        };
                    },
                    Err(message) => {
                        assert(filters@.update(i as int, original) =~= before);
                        assert(old(filters)@[i as int] == original);
                        return Err(message);
                    },
                }
            },
            None => {
                filters[i].is_valid = Some(false);
                filters[i].error_message = Some("Column was removed".to_owned());
            },
        }
        assert(is_updated(filters@[i as int], original, columns@));
        assert forall|k: int| 0 <= k < n && k != i implies filters@[k] == before[k] by {}
        i = i + 1;
    }
    Ok(())
}

/// The first `n` filters with what R told of them. A filter that failed is not valid,
/// and says why.
pub open spec fn errors_applied(
    new: Seq<RowFilter>,
    old: Seq<RowFilter>,
    errors: Seq<Option<String>>,
    n: int,
) -> bool {
    &&& new.len() == old.len()
    &&& forall|i: int|
        0 <= i < n ==> {
            let f: RowFilter = #[trigger] new[i];
            &&& f.filter_id == old[i].filter_id
            &&& f.filter_type == old[i].filter_type
            &&& f.column_schema == old[i].column_schema
            &&& f.condition == old[i].condition
            &&& f.params == old[i].params
            &&& f.is_valid == Some(errors[i] is None)
            &&& f.error_message == (if errors[i] is None {
                old[i].error_message
            } else {
                errors[i]
            })
        }
    &&& forall|i: int| n <= i < new.len() ==> #[trigger] new[i] == old[i]
}

/// A filter failed.
pub open spec fn any_error(errors: Seq<Option<String>>) -> bool {
    exists|i: int| 0 <= i < errors.len() && #[trigger] errors[i] is Some
}

/// Notes in each filter what R told of it. Returns whether any failed.
pub fn apply_filter_errors(filters: &mut Vec<RowFilter>, errors: &Vec<Option<String>>) -> (r: bool)
    requires
        errors@.len() <= old(filters)@.len(),
    ensures
        errors_applied(final(filters)@, old(filters)@, errors@, errors@.len() as int),
        r == any_error(errors@),
{
    let n: usize = errors.len();
    let mut had_errors: bool = false;
    let mut i: usize = 0;
    while i < n
        invariant
            n == errors@.len(),
            n <= filters@.len(),
            filters@.len() == old(filters)@.len(),
            i <= n,
            errors_applied(filters@, old(filters)@, errors@, i as int),
            had_errors == any_error(errors@.take(i as int)),
        decreases n - i,
    {
        let ghost before = filters@;
        match &errors[i] {
            None => {
                filters[i].is_valid = Some(true);
            },
            Some(error) => {
                filters[i].is_valid = Some(false);
                filters[i].error_message = Some(error.clone());
                had_errors = true;
            },
        }
        proof {
            assert(before[i as int] == old(filters)@[i as int]);
            let shorter = errors@.take(i as int);
            let longer = errors@.take(i + 1);
            assert(longer[i as int] == errors@[i as int]);
            if any_error(shorter) {
                let k = choose|k: int| 0 <= k < shorter.len() && #[trigger] shorter[k] is Some;
                assert(longer[k] is Some);
            }
            if any_error(longer) && errors@[i as int] is None {
                let k = choose|k: int| 0 <= k < longer.len() && #[trigger] longer[k] is Some;
                assert(shorter[k] is Some);
            }
        }
        i = i + 1;
    }
    assert(errors@.take(n as int) =~= errors@);
    had_errors
}

fn copy_rows(v: &Vec<i32>) -> (r: Vec<i32>)
    ensures
        r@ == v@,
{
    let mut r: Vec<i32> = Vec::new();
    let n: usize = v.len();
    let mut i: usize = 0;
    while i < n
        invariant
            n == v@.len(),
            i <= n,
            r@ == v@.take(i as int),
        decreases n - i,
    {
        r.push(v[i]);
        i = i + 1;
    }
    r
}

/// A copy of optional rows.
pub fn copy_optional_rows(v: &Option<Vec<i32>>) -> (r: Option<Vec<i32>>)
    ensures
        view_rows(r) == view_rows(*v),
{
    match v {
        Some(rows) => Some(copy_rows(rows)),
        None => None,
    }
}

/// Whether a row stands among rows in ascending order.
pub fn holds_row(rows: &Vec<i32>, row: i32) -> (r: bool)
    requires
        rows_ascend(rows@),
    ensures
        r == rows@.contains(row),
{
    let mut from: usize = 0;
    let mut to: usize = rows.len();
    while from < to
        invariant
            from <= to <= rows@.len(),
            rows_ascend(rows@),
            forall|i: int| 0 <= i < from ==> rows@[i] < row,
            forall|i: int| to <= i < rows@.len() ==> rows@[i] > row,
        decreases to - from,
    {
        let middle: usize = from + (to - from) / 2;
        let there: i32 = rows[middle];
        if there == row {
            return true;
        }
        if there < row {
            from = middle + 1;
        } else {
            to = middle;
        }
    }
    false
}

/// Whether rows are in ascending order.
fn in_order(rows: &Vec<i32>) -> (r: bool)
    ensures
        r == rows_ascend(rows@),
{
    let n: usize = rows.len();
    let mut i: usize = 1;
    while i < n
        invariant
            n == rows@.len(),
            1 <= i,
            i <= n || n == 0,
            forall|a: int, b: int| 0 <= a <= b < i && b < n ==> rows@[a] <= rows@[b],
        decreases n - i,
    {
        if rows[i - 1] > rows[i] {
            return false;
        }
        i = i + 1;
    }
    true
}

/// Whether a row stands among rows in any order.
fn lists_row(rows: &Vec<i32>, row: i32) -> (r: bool)
    ensures
        r == rows@.contains(row),
{
    let n: usize = rows.len();
    let mut i: usize = 0;
    while i < n
        invariant
            n == rows@.len(),
            i <= n,
            forall|k: int| 0 <= k < i ==> rows@[k] != row,
        decreases n - i,
    {
        if rows[i] == row {
            return true;
        }
        i = i + 1;
    }
    false
}

/// The rows that are shown. Rows that pass the filters come in ascending order, so that
/// they are found quickly.
pub fn combine_rows(sorted: &Option<Vec<i32>>, filtered: &Option<Vec<i32>>) -> (r: Option<Vec<i32>>)
    ensures
        view_rows(r) == view_of(view_rows(*sorted), view_rows(*filtered)),
{
    match (sorted, filtered) {
        (None, None) => None,
        (None, Some(f)) => Some(copy_rows(f)),
        (Some(s), None) => Some(copy_rows(s)),
        (Some(s), Some(f)) => {
            let ghost keep = |row: i32| f@.contains(row);
            let ascending: bool = in_order(f);
            let mut r: Vec<i32> = Vec::new();
            let n: usize = s.len();
            let mut i: usize = 0;
            assert(s@.take(0).filter(keep) =~= Seq::<i32>::empty()) by {
                reveal(Seq::filter);
            }
            while i < n
                invariant
                    n == s@.len(),
                    i <= n,
                    ascending ==> rows_ascend(f@),
                    keep == (|row: i32| f@.contains(row)),
                    r@ == s@.take(i as int).filter(keep),
                decreases n - i,
            {
                let row: i32 = s[i];
                proof {
                    assert(s@.take(i + 1) =~= s@.take(i as int).push(row));
                    s@.take(i as int).lemma_filter_push(row, keep);
                }
                let shown: bool = if ascending {
                    holds_row(f, row)
                } else {
                    lists_row(f, row)
                };
                if shown {
                    r.push(row);
                }
                i = i + 1;
            }
            assert(s@.take(n as int) =~= s@);
            Some(r)
        },
    }
}

/// The data explorer of R.
#[derive(Debug)]
pub struct RDataExplorer {
    /// The title of the viewer.
    pub title: String,
    /// The object that is viewed.
    pub table: Table,
    /// The name that is bound to the object, if it is watched.
    pub binding: Option<DataObjectEnvInfo>,
    /// The columns of the object and the number of its rows.
    pub shape: DataObjectShape,
    pub sort_keys: Vec<ColumnSortKey>,
    pub row_filters: Vec<RowFilter>,
    /// The filters of columns. None can be set.
    pub col_filters: Vec<ColumnFilter>,
    /// All rows in sorted order, if they are sorted.
    pub sorted_indices: Option<Vec<i32>>,
    /// The rows that pass the filters, in ascending order, if there are filters.
    pub filtered_indices: Option<Vec<i32>>,
    /// The rows that are shown, if they are sorted or filtered.
    pub view_indices: Option<Vec<i32>>,
}

/// What R has to do for a request.
#[derive(Debug)]
pub enum RpcStep<Q> {
    /// Nothing: this is the reply.
    Done(DataExplorerBackendReply),
    /// Nothing: the request is refused with a message.
    Fail(String),
    /// Sort the rows, for `RDataExplorer::rows_sorted`.
    SortRows(SortRequest),
    /// Filter the rows, for `RDataExplorer::rows_filtered`.
    FilterRows,
    /// Read parts of the table, each of one column, for `data_values`.
    ReadColumns { subsets: Vec<TableSubset>, format_options: FormatOptions },
    /// Read the names of rows, for `row_labels`.
    ReadRowLabels { subset: TableSubset, format_options: FormatOptions },
    /// Export a part of the table, for `exported`.
    Export { request: ExportRequest, format: ExportFormat },
    /// Find out whether the table has row names, for `RDataExplorer::get_state`.
    ReadRowNames,
    /// Compute profiles later, from these rows, and reply at once.
    LaunchProfiles { rows: Option<Vec<i32>>, params: GetColumnProfilesParams<Q> },
}

/// What R has to do once the columns of the table are known again.
#[derive(Clone, Copy, Debug, PartialEq, Eq, Structural)]
pub enum UpdateStep {
    /// Nothing: what is bound is no table any more, and the viewer closes.
    Close,
    /// Sort and filter the rows, if asked to, for `RDataExplorer::finish_update`.
    Recompute { schema_changed: bool, sort: bool, filter: bool },
}

/// The number of rows that are shown.
pub open spec fn num_view_rows(e: RDataExplorer) -> i64 {
    match e.view_indices {
        Some(v) => (v@.len() as i32) as i64,
        None => e.shape.num_rows as i64,
    }
}

/// The smaller of two numbers.
pub open spec fn smaller(a: int, b: int) -> int {
    if a <= b {
        a
    } else {
        b
    }
}

/// The numbers from `first` on, below `end`.
pub open spec fn numbers_below(first: int, end: int) -> Seq<i64> {
    Seq::new(
        if first < end {
            (end - first) as nat
        } else {
            0
        },
        |i: int| (first + i) as i64,
    )
}

/// The larger of a number and zero.
pub open spec fn not_below_zero(a: int) -> int {
    if a < 0 {
        0
    } else {
        a
    }
}

/// The rows that a selection selects: those that are shown.
pub open spec fn selected(selection: ArraySelection, shown: int) -> Seq<i64> {
    match selection {
        ArraySelection::SelectRange { first_index, last_index } => numbers_below(
            not_below_zero(first_index as int),
            smaller(last_index + 1, shown),
        ),
        ArraySelection::SelectIndices { indices } => indices@.filter(|i: i64| 0 <= i < shown),
    }
}

/// The number after the last one of a range can be told.
pub open spec fn selection_ok(selection: ArraySelection) -> bool {
    selection matches ArraySelection::SelectRange { last_index, .. } ==> last_index < i64::MAX
}

/// The part of the table that a selection of rows, in some columns, selects.
pub open spec fn is_subset(
    subset: TableSubset,
    selection: ArraySelection,
    columns: Seq<i64>,
    e: RDataExplorer,
) -> bool {
    let rows = selected(selection, num_view_rows(e) as int);
    &&& subset.rows@.len() == rows.len()
    &&& forall|k: int|
        0 <= k < subset.rows@.len() ==> #[trigger] subset.rows@[k] == table_row(
            view_rows(e.view_indices),
            rows[k],
        )
    &&& subset.columns@.len() == columns.len()
    &&& forall|k: int|
        0 <= k < subset.columns@.len() ==> #[trigger] subset.columns@[k] == columns[k] + 1
}

/// The parts of the table that selections of columns select.
pub open spec fn are_subsets(
    subsets: Seq<TableSubset>,
    columns: Seq<ColumnSelection>,
    e: RDataExplorer,
) -> bool {
    &&& subsets.len() == columns.len()
    &&& forall|k: int|
        0 <= k < subsets.len() ==> is_subset(
            #[trigger] subsets[k],
            columns[k].selection,
            seq![columns[k].column_index],
            e,
        )
}

/// What R has to export for a selection of the table.
pub open spec fn is_export(
    r: ExportRequest,
    selection: TableSelection,
    format: ExportFormat,
    view: Option<Seq<i32>>,
) -> bool {
    &&& r.format@ == format_name(format)
    &&& r.include_header == (selection.kind != TableSelectionKind::SingleCell)
    &&& match (selected_rows(selection), r.rows) {
        (Some(rows), Some(out)) => out@.len() == rows.len() && forall|k: int|
            0 <= k < out@.len() ==> #[trigger] out@[k] == table_row(view, rows[k]),
        (None, None) => true,
        _ => false,
    }
    &&& match (selected_columns(selection), r.columns) {
        (Some(columns), Some(out)) => out@.len() == columns.len() && forall|k: int|
            0 <= k < out@.len() ==> #[trigger] out@[k] == columns[k] + 1,
        (None, None) => true,
        _ => false,
    }
}

/// A selection of the table can be looked up in the rows that are shown.
pub open spec fn export_ok(selection: TableSelection, view: Option<Seq<i32>>) -> bool {
    &&& kind_ok(selection)
    &&& selected_rows(selection) matches Some(rows) ==> forall|k: int|
        0 <= k < rows.len() ==> row_ok(view, #[trigger] rows[k])
    &&& selected_columns(selection) matches Some(columns) ==> forall|k: int|
        0 <= k < columns.len() ==> #[trigger] columns[k] < i64::MAX
}

/// The sort keys whose columns are there, with the names of these columns.
pub open spec fn resolved(
    keys: Seq<ColumnSortKey>,
    columns: Seq<ColumnSchema>,
) -> Seq<ResolvedSortKey> {
    keys.filter(|k: ColumnSortKey| 0 <= k.column_index < columns.len()).map_values(
        |k: ColumnSortKey|
            ResolvedSortKey {
                column_name: columns[k.column_index as int].column_name,
                ascending: k.ascending,
            },
    )
}

/// The name of what is viewed: what is bound to it, or else the title.
pub open spec fn viewed_name(e: RDataExplorer) -> Seq<char> {
    match e.binding {
        Some(binding) => binding.name@,
        None => e.title@,
    }
}

/// The number of rows that pass the filters.
pub open spec fn num_filtered_rows(e: RDataExplorer) -> int {
    match e.filtered_indices {
        Some(rows) => rows@.len() as int,
        None => e.shape.num_rows as int,
    }
}

/// All but the filters, the sort keys and the rows is unchanged.
pub open spec fn same_table(a: RDataExplorer, b: RDataExplorer) -> bool {
    &&& a.title == b.title
    &&& a.table == b.table
    &&& a.binding == b.binding
    &&& a.shape == b.shape
    &&& a.col_filters == b.col_filters
}

/// The rows are unchanged.
pub open spec fn same_rows(a: RDataExplorer, b: RDataExplorer) -> bool {
    &&& a.sorted_indices == b.sorted_indices
    &&& a.filtered_indices == b.filtered_indices
    &&& a.view_indices == b.view_indices
}

/// The rows that are shown are those that the sort and the filters say.
pub open spec fn view_up_to_date(e: RDataExplorer) -> bool {
    view_rows(e.view_indices) == view_of(
        view_rows(e.sorted_indices),
        view_rows(e.filtered_indices),
    )
}

/// What the data explorer can do.
pub open spec fn are_supported_features(f: SupportedFeatures) -> bool {
    let on = SupportStatus::Supported;
    &&& f.get_column_profiles.0 == on
    &&& f.get_column_profiles.1@ == seq![
        (ColumnProfileType::NullCount, on),
        (ColumnProfileType::SummaryStats, on),
        (ColumnProfileType::SmallHistogram, on),
        (ColumnProfileType::SmallFrequencyTable, on),
        (ColumnProfileType::LargeHistogram, on),
        (ColumnProfileType::LargeFrequencyTable, on),
    ]
    &&& f.search_schema.0 == on
    &&& f.search_schema.1@ == seq![
        (ColumnFilterType::TextSearch, on),
        (ColumnFilterType::MatchDataTypes, on),
    ]
    &&& f.set_row_filters.0 == on
    &&& f.set_row_filters.1@ == seq![
        (RowFilterType::Between, on),
        (RowFilterType::Compare, on),
        (RowFilterType::IsEmpty, on),
        (RowFilterType::IsFalse, on),
        (RowFilterType::IsNull, on),
        (RowFilterType::IsTrue, on),
        (RowFilterType::NotBetween, on),
        (RowFilterType::NotEmpty, on),
        (RowFilterType::NotNull, on),
        (RowFilterType::Search, on),
        (RowFilterType::SetMembership, on),
    ]
    &&& f.supports_conditions == SupportStatus::Unsupported
    &&& f.set_column_filters.0 == SupportStatus::Unsupported
    &&& f.set_column_filters.1@.len() == 0
    &&& f.set_sort_columns == on
    &&& f.export_data_selection.0 == on
    &&& f.export_data_selection.1@ == seq![ExportFormat::Csv, ExportFormat::Tsv, ExportFormat::Html]
    &&& f.convert_to_code.0 == on
    &&& f.convert_to_code.1@.len() == 1
    &&& f.convert_to_code.1@[0].code_syntax_name@ == "dplyr"@
}

/// What the data explorer can do.
pub fn supported_features() -> (r: SupportedFeatures)
    ensures
        are_supported_features(r),
{
    let on: SupportStatus = SupportStatus::Supported;
    SupportedFeatures {
        get_column_profiles: (
            on,
            vec![
                (ColumnProfileType::NullCount, on),
                (ColumnProfileType::SummaryStats, on),
                (ColumnProfileType::SmallHistogram, on),
                (ColumnProfileType::SmallFrequencyTable, on),
                (ColumnProfileType::LargeHistogram, on),
                (ColumnProfileType::LargeFrequencyTable, on),
            ],
        ),
        search_schema: (
            on,
            vec![(ColumnFilterType::TextSearch, on), (ColumnFilterType::MatchDataTypes, on)],
        ),
        set_row_filters: (
            on,
            vec![
                (RowFilterType::Between, on),
                (RowFilterType::Compare, on),
                (RowFilterType::IsEmpty, on),
                (RowFilterType::IsFalse, on),
                (RowFilterType::IsNull, on),
                (RowFilterType::IsTrue, on),
                (RowFilterType::NotBetween, on),
                (RowFilterType::NotEmpty, on),
                (RowFilterType::NotNull, on),
                (RowFilterType::Search, on),
                (RowFilterType::SetMembership, on),
            ],
        ),
        supports_conditions: SupportStatus::Unsupported,
        set_column_filters: (SupportStatus::Unsupported, Vec::new()),
        set_sort_columns: on,
        export_data_selection: (on, vec![ExportFormat::Csv, ExportFormat::Tsv, ExportFormat::Html]),
        convert_to_code: (on, vec![suggest_code_syntax()]),
    }
}

/// The state of the data explorer, as the frontend is told of it.
pub open spec fn is_state(s: BackendState, e: RDataExplorer, has_row_labels: bool) -> bool {
    &&& s.display_name@ == e.title@
    &&& s.connected == Some(true)
    &&& s.error_message is None
    &&& s.table_shape.num_rows == num_filtered_rows(e)
    &&& s.table_shape.num_columns == e.shape.columns@.len()
    &&& s.table_unfiltered_shape.num_rows == e.shape.num_rows
    &&& s.table_unfiltered_shape.num_columns == e.shape.columns@.len()
    &&& s.row_filters@.len() == e.row_filters@.len()
    &&& forall|i: int|
        0 <= i < s.row_filters@.len() ==> same_filter(
            #[trigger] s.row_filters@[i],
            e.row_filters@[i],
        )
    &&& s.column_filters@.len() == e.col_filters@.len()
    &&& forall|i: int|
        0 <= i < s.column_filters@.len() ==> same_column_filter(
            #[trigger] s.column_filters@[i],
            e.col_filters@[i],
        )
    &&& s.sort_keys@ == e.sort_keys@
    &&& s.has_row_labels == has_row_labels
    &&& are_supported_features(s.supported_features)
}

/// The request can be looked up in the table.
pub open spec fn request_ok<Q>(request: DataExplorerBackendRequest<Q>, e: RDataExplorer) -> bool {
    match request {
        DataExplorerBackendRequest::GetDataValues { columns, .. } => forall|k: int|
            0 <= k < columns@.len() ==> selection_ok(
                #[trigger] columns@[k].selection,
            ) && columns@[k].column_index < i64::MAX,
        DataExplorerBackendRequest::GetRowLabels { rows, .. } => selection_ok(rows),
        DataExplorerBackendRequest::ExportDataSelection { selection, .. } => export_ok(
            selection,
            view_rows(e.view_indices),
        ),
        DataExplorerBackendRequest::SearchSchema(_) => e.shape.columns@.len() <= i64::MAX,
        _ => true,
    }
}

/// The number of rows that pass the filters can be told.
pub open spec fn explorer_ok(e: RDataExplorer) -> bool {
    e.filtered_indices matches Some(f) ==> f@.len() <= i64::MAX
}

/// What a request leads to.
pub open spec fn is_step<Q>(
    step: RpcStep<Q>,
    new: RDataExplorer,
    old: RDataExplorer,
    request: DataExplorerBackendRequest<Q>,
) -> bool {
    match request {
        DataExplorerBackendRequest::GetSchema { column_indices } => {
            &&& new == old
            &&& match schema_fault(column_indices@) {
                Some(message) => step matches RpcStep::Fail(m) && m@ == message,
                None => step matches RpcStep::Done(
                    DataExplorerBackendReply::GetSchemaReply { columns },
                ) && columns@ == schema_of(old.shape.columns@, column_indices@),
            }
        },
        DataExplorerBackendRequest::SearchSchema(params) => {
            &&& new == old
            &&& step matches RpcStep::Done(DataExplorerBackendReply::SearchSchemaReply { matches })
            &&& is_search_result(matches@, old.shape.columns@, params)
        },
        DataExplorerBackendRequest::GetDataValues { columns, format_options } => {
            &&& new == old
            &&& step matches RpcStep::ReadColumns { subsets, format_options: options }
            &&& options == format_options
            &&& are_subsets(subsets@, columns@, old)
        },
        DataExplorerBackendRequest::GetRowLabels { rows, format_options } => {
            &&& new == old
            &&& step matches RpcStep::ReadRowLabels { subset, format_options: options }
            &&& options == format_options
            &&& is_subset(subset, rows, Seq::empty(), old)
        },
        DataExplorerBackendRequest::ExportDataSelection { selection, format } => {
            &&& new == old
            &&& step matches RpcStep::Export { request: export, format: f }
            &&& f == format
            &&& is_export(export, selection, format, view_rows(old.view_indices))
        },
        DataExplorerBackendRequest::ConvertToCode { row_filters, sort_keys } => {
            &&& new == old
            &&& step matches RpcStep::Done(DataExplorerBackendReply::ConvertToCodeReply(code))
            &&& text::texts(code.converted_code@) == view_code(
                row_filters@,
                Some(viewed_name(old)),
                resolved(sort_keys@, old.shape.columns@),
            )
        },
        DataExplorerBackendRequest::SuggestCodeSyntax => {
            &&& new == old
            &&& step matches RpcStep::Done(
                DataExplorerBackendReply::SuggestCodeSyntaxReply(syntax),
            )
            &&& syntax.code_syntax_name@ == "dplyr"@
        },
        DataExplorerBackendRequest::SetColumnFilters(_) => {
            &&& new == old
            &&& step matches RpcStep::Fail(m)
            &&& m@ == "Data Explorer: Not yet supported"@
        },
        DataExplorerBackendRequest::OpenDataset { .. } => {
            &&& new == old
            &&& step matches RpcStep::Fail(m)
            &&& m@ == "Data Explorer: Not yet supported"@
        },
        DataExplorerBackendRequest::SetRowFilters(filters) => {
            &&& same_table(new, old)
            &&& new.sort_keys == old.sort_keys
            &&& new.row_filters == filters
            &&& if filters@.len() == 0 {
                &&& new.filtered_indices is None
                &&& new.sorted_indices == old.sorted_indices
                &&& view_up_to_date(new)
                &&& step == RpcStep::<Q>::Done(
                    DataExplorerBackendReply::SetRowFiltersReply(
                        FilterResult {
                            selected_num_rows: old.shape.num_rows as i64,
                            had_errors: None,
                        },
                    ),
                )
            } else {
                &&& same_rows(new, old)
                &&& step is FilterRows
            }
        },
        DataExplorerBackendRequest::SetSortColumns(keys) => {
            &&& same_table(new, old)
            &&& new.row_filters == old.row_filters
            &&& new.sort_keys == keys
            &&& if keys@.len() == 0 {
                &&& new.sorted_indices is None
                &&& new.filtered_indices == old.filtered_indices
                &&& view_up_to_date(new)
                &&& step == RpcStep::<Q>::Done(DataExplorerBackendReply::SetSortColumnsReply)
            } else {
                &&& same_rows(new, old)
                &&& step matches RpcStep::SortRows(sort)
                &&& is_sort_request(sort, keys@)
            }
        },
        DataExplorerBackendRequest::GetColumnProfiles(params) => {
            &&& new == old
            &&& step matches RpcStep::LaunchProfiles { rows, params: p }
            &&& p == params
            &&& view_rows(rows) == view_rows(old.filtered_indices)
        },
        DataExplorerBackendRequest::GetState => new == old && step is ReadRowNames,
    }
}

/// The explorer after R filtered its rows, and whether any filter failed.
pub open spec fn is_filtered(
    new: RDataExplorer,
    old: RDataExplorer,
    answer: FilteredRows,
) -> bool {
    &&& same_table(new, old)
    &&& new.sort_keys == old.sort_keys
    &&& new.sorted_indices == old.sorted_indices
    &&& errors_applied(
        new.row_filters@,
        old.row_filters@,
        answer.errors@,
        answer.errors@.len() as int,
    )
    &&& view_rows(new.filtered_indices) == Some(answer.indices@)
    &&& view_up_to_date(new)
}

impl RDataExplorer {
    /// The shape of a table, from what R tells of it. None if it is no table.
    pub fn get_shape(table: Option<TableProbe>) -> (r: Result<DataObjectShape, &'static str>)
        requires
            table matches Some(t) ==> t.columns@.len() <= i64::MAX,
        ensures
            match table {
                Some(probe) => r matches Ok(shape) && is_shape(shape, probe),
                None => r matches Err(m) && m@ == "Unsupported type for the data viewer"@,
            },
    {
        let table: TableProbe = match table {
            Some(t) => t,
            None => {
                return Err("Unsupported type for the data viewer");
            },
        };
        let kind: TableKind = table.kind;
        let num_rows: i32 = table.num_rows;
        let probes: Vec<ColumnProbe> = table.columns;
        let n: usize = probes.len();
        let mut columns: Vec<ColumnSchema> = Vec::new();
        let mut i: usize = 0;
        while i < n
            invariant
                n == probes@.len(),
                n <= i64::MAX,
                i <= n,
                columns@.len() == i,
                forall|k: int|
                    0 <= k < columns@.len() ==> is_schema(
                        #[trigger] columns@[k],
                        probes@[k],
                        kind,
                        k,
                    ),
            decreases n - i,
        {
            let probe: &ColumnProbe = &probes[i];
            let column_name: String = match &probe.name {
                Some(name) => name.clone(),
                None => String::new(),
            };
            let column_label: Option<String> = match &probe.label {
                Some(label) => {
                    let rest: String = text::trim(label.as_str());
                    if kind == TableKind::Dataframe && !text::same(rest.as_str(), "") {
                        proof {
                            reveal_strlit("");
                            if rest@.len() == 0 {
                                assert(rest@ =~= ""@);
                            }
                        }
                        Some(label.clone())
                    } else {
                        proof {
                            reveal_strlit("");
                        }
                        None
                    }
                },
                None => None,
            };
            columns.push(
                ColumnSchema {
                    column_name,
                    column_label,
                    column_index: i as i64,
                    type_label: probe.type_label.clone(),
                    type_display: display_type(&probe.column_type),
                },
            );
            i = i + 1;
        }
        Ok(DataObjectShape { columns, num_rows, kind })
    }

    /// A data explorer of an object, whose shape R told. It shows all rows.
    pub fn new(
        title: String,
        data: RObject,
        binding: Option<DataObjectEnvInfo>,
        shape: Result<DataObjectShape, &'static str>,
    ) -> (r: Result<RDataExplorer, &'static str>)
        ensures
            match shape {
                Ok(s) => {
                    &&& r matches Ok(e)
                    &&& e.title == title
                    &&& e.table.0 == data
                    &&& e.binding == binding
                    &&& e.shape == s
                    &&& e.sort_keys@.len() == 0
                    &&& e.row_filters@.len() == 0
                    &&& e.col_filters@.len() == 0
                    &&& e.sorted_indices is None
                    &&& e.filtered_indices is None
                    &&& e.view_indices is None
                },
                Err(m) => r == Err::<RDataExplorer, &'static str>(m),
            },
    {
        let table: Table = Table::new(data);
        match shape {
            Ok(shape) => Ok(
                RDataExplorer {
                    title,
                    table,
                    binding,
                    shape,
                    sort_keys: Vec::new(),
                    row_filters: Vec::new(),
                    col_filters: Vec::new(),
                    sorted_indices: None,
                    filtered_indices: None,
                    view_indices: None,
                },
            ),
            Err(m) => Err(m),
        }
    }

    /// What R has to do to sort the rows by the sort keys.
    pub fn sort_rows(&self) -> (r: SortRequest)
        ensures
            is_sort_request(r, self.sort_keys@),
    {
        let mut columns: Vec<i32> = Vec::new();
        let mut decreasing: Vec<bool> = Vec::new();
        let n: usize = self.sort_keys.len();
        let mut i: usize = 0;
        while i < n
            invariant
                n == self.sort_keys@.len(),
                i <= n,
                columns@.len() == i,
                decreasing@.len() == i,
                forall|k: int|
                    0 <= k < i ==> #[trigger] columns@[k] == self.sort_keys@[k].column_index
                        as i32,
                forall|k: int|
                    0 <= k < i ==> #[trigger] decreasing@[k] == !self.sort_keys@[k].ascending,
            decreases n - i,
        {
            let key: ColumnSortKey = self.sort_keys[i];
            #[verifier::truncate]
            let column: i32 = key.column_index as i32;
            columns.push(column);
            decreasing.push(!key.ascending);
            i = i + 1;
        }
        SortRequest { columns, decreasing }
    }

    /// The rows that pass the filters. Without filters they are all rows, and R is not
    /// asked. The fields of R's answer are None where R did not give them.
    pub fn filter_rows(
        &self,
        indices: Option<Vec<i32>>,
        errors: Option<Vec<Option<String>>>,
    ) -> (r: Result<FilteredRows, &'static str>)
        ensures
            are_filtered_rows(r, *self, indices, errors),
    {
        if self.row_filters.len() == 0 {
            let mut all: Vec<i32> = Vec::new();
            let mut row: i32 = 0;
            while row < self.shape.num_rows
                invariant
                    0 <= row,
                    row <= self.shape.num_rows || row == 0,
                    all@.len() == row,
                    forall|i: int| 0 <= i < all@.len() ==> #[trigger] all@[i] == i + 1,
                decreases self.shape.num_rows - row,
            {
                row = row + 1;
                all.push(row);
            }
            return Ok(FilteredRows { indices: all, errors: Vec::new() });
        }
        match (indices, errors) {
            (None, _) => Err(
                "Unexpected output from .ps.filter_rows. Expected 'indices' field.",
            ),
            (Some(_), None) => Err(
                "Unexpected output from .ps.filter_rows. Expected 'errors' field.",
            ),
            (Some(indices), Some(errors)) => Ok(FilteredRows { indices, errors }),
        }
    }

    /// Finds the rows that are shown, from the sorted and the filtered rows.
    pub fn apply_sorts_and_filters(&mut self)
        requires
            explorer_ok(*old(self)),
        ensures
            view_up_to_date(*final(self)),
            same_table(*final(self), *old(self)),
            final(self).sort_keys == old(self).sort_keys,
            final(self).row_filters == old(self).row_filters,
            final(self).sorted_indices == old(self).sorted_indices,
            final(self).filtered_indices == old(self).filtered_indices,
    {
        self.view_indices = combine_rows(&self.sorted_indices, &self.filtered_indices);
    }

    /// The rows that a selection selects, of those that are shown.
    pub fn get_row_selection_indices(&self, selection: &ArraySelection) -> (r: Vec<i64>)
        requires
            selection_ok(*selection),
        ensures
            r@ == selected(*selection, num_view_rows(*self) as int),
    {
        let shown: i64 = match &self.view_indices {
            Some(rows) => {
                let len: usize = rows.len();
                #[verifier::truncate]
                let count: i32 = len as i32;
                count as i64
            },
            None => self.shape.num_rows as i64,
        };
        match selection {
            ArraySelection::SelectRange { first_index, last_index } => {
                let first: i64 = *first_index;
                let last: i64 = *last_index;
                let lower: i64 = if first < 0 {
                    0
                } else {
                    first
                };
                let upper: i64 = if last + 1 <= shown {
                    last + 1
                } else {
                    shown
                };
                let mut r: Vec<i64> = Vec::new();
                let mut i: i64 = lower;
                while i < upper
                    invariant
                        lower <= i,
                        i <= upper || i == lower,
                        r@ == numbers_below(lower as int, i as int),
                    decreases upper - i,
                {
                    r.push(i);
                    i = i + 1;
                }
                r
            },
            ArraySelection::SelectIndices { indices } => {
                let ghost keep = |i: i64| 0 <= i < shown as int;
                let mut r: Vec<i64> = Vec::new();
                let n: usize = indices.len();
                let mut i: usize = 0;
                assert(indices@.take(0).filter(keep) =~= Seq::<i64>::empty()) by {
                    reveal(Seq::filter);
                }
                while i < n
                    invariant
                        n == indices@.len(),
                        i <= n,
                        keep == (|i: i64| 0 <= i < shown as int),
                        r@ == indices@.take(i as int).filter(keep),
                    decreases n - i,
                {
                    let index: i64 = indices[i];
                    proof {
                        assert(indices@.take(i + 1) =~= indices@.take(i as int).push(index));
                        indices@.take(i as int).lemma_filter_push(index, keep);
                    }
                    if 0 <= index && index < shown {
                        r.push(index);
                    }
                    i = i + 1;
                }
                assert(indices@.take(n as int) =~= indices@);
                r
            },
        }
    }

    /// The part of the table that a selection of rows, in some columns, selects.
    fn subset(&self, selection: &ArraySelection, columns: Vec<i64>) -> (r: TableSubset)
        requires
            selection_ok(*selection),
            forall|k: int| 0 <= k < columns@.len() ==> #[trigger] columns@[k] < i64::MAX,
        ensures
            is_subset(r, *selection, columns@, *self),
    {
        let rows: Vec<i64> = self.get_row_selection_indices(selection);
        proof {
            let shown = num_view_rows(*self) as int;
            assert forall|k: int| 0 <= k < rows@.len() implies row_ok(
                view_rows(self.view_indices),
                #[trigger] rows@[k],
            ) by {
                law_selected_rows_are_shown(*selection, shown, k);
                if self.view_indices is Some {
                    let v = self.view_indices->0@;
                    assert((v.len() as i32) <= v.len());
                }
            }
        }
        let (rows, columns) = tbl_subset_with_view_indices(
            &self.view_indices,
            Some(rows),
            Some(columns),
        );
        match (rows, columns) {
            (Some(rows), Some(columns)) => TableSubset { rows, columns },
            _ => TableSubset { rows: Vec::new(), columns: Vec::new() },
        }
    }
}

/// A row that is selected is one of those that are shown, and one that was asked for.
pub proof fn law_selected_rows_are_shown(selection: ArraySelection, shown: int, k: int)
    requires
        0 <= k < selected(selection, shown).len(),
        shown <= i64::MAX,
    ensures
        0 <= selected(selection, shown)[k] < shown,
        match selection {
            ArraySelection::SelectRange { first_index, last_index } => first_index <= selected(
                selection,
                shown,
            )[k] <= last_index,
            ArraySelection::SelectIndices { indices } => indices@.contains(
                selected(selection, shown)[k],
            ),
        },
{
    match selection {
        ArraySelection::SelectRange { first_index, last_index } => {},
        ArraySelection::SelectIndices { indices } => {
            let keep = |i: i64| 0 <= i < shown;
            let kept = indices@.filter(keep);
            indices@.lemma_filter_contains_rev(keep, kept[k]);
            indices@.lemma_filter_pred(keep, k);
        },
    }
}

impl RDataExplorer {
    /// Code that reproduces a view of the table. Sort keys of columns that are not
    /// there are left out.
    pub fn convert_to_code(
        &self,
        row_filters: &Vec<RowFilter>,
        sort_keys: &Vec<ColumnSortKey>,
    ) -> (r: ConvertedCode)
        ensures
            text::texts(r.converted_code@) == view_code(
                row_filters@,
                Some(viewed_name(*self)),
                resolved(sort_keys@, self.shape.columns@),
            ),
    {
        let object_name: &str = match &self.binding {
            Some(binding) => binding.name.as_str(),
            None => self.title.as_str(),
        };
        let count: usize = self.shape.columns.len();
        let ghost columns = self.shape.columns@;
        let ghost keep = |k: ColumnSortKey| 0 <= k.column_index < columns.len();
        let ghost resolve = |k: ColumnSortKey|
            ResolvedSortKey {
                column_name: columns[k.column_index as int].column_name,
                ascending: k.ascending,
            };
        let mut keys: Vec<ResolvedSortKey> = Vec::new();
        let n: usize = sort_keys.len();
        let mut i: usize = 0;
        assert(sort_keys@.take(0).filter(keep) =~= Seq::<ColumnSortKey>::empty()) by {
            reveal(Seq::filter);
        }
        while i < n
            invariant
                n == sort_keys@.len(),
                count == columns.len(),
                columns == self.shape.columns@,
                i <= n,
                keep == (|k: ColumnSortKey| 0 <= k.column_index < columns.len()),
                resolve == (|k: ColumnSortKey|
                    ResolvedSortKey {
                        column_name: columns[k.column_index as int].column_name,
                        ascending: k.ascending,
                    }),
                keys@ =~= sort_keys@.take(i as int).filter(keep).map_values(resolve),
            decreases n - i,
        {
            let key: ColumnSortKey = sort_keys[i];
            proof {
                assert(sort_keys@.take(i + 1) =~= sort_keys@.take(i as int).push(key));
                sort_keys@.take(i as int).lemma_filter_push(key, keep);
            }
            if key.column_index >= 0 && (key.column_index as u64) < count as u64 {
                let column: &ColumnSchema = &self.shape.columns[key.column_index as usize];
                keys.push(
                    ResolvedSortKey {
                        column_name: column.column_name.clone(),
                        ascending: key.ascending,
                    },
                );
            }
            i = i + 1;
        }
        assert(sort_keys@.take(n as int) =~= sort_keys@);
        assert(keys@ =~= resolved(sort_keys@, columns));
        convert_to_code(row_filters, Some(object_name), &keys)
    }

    /// The state of the data explorer.
    pub fn get_state(&self, has_row_labels: bool) -> (r: DataExplorerBackendReply)
        requires
            explorer_ok(*self),
            self.shape.columns@.len() <= i64::MAX,
        ensures
            r matches DataExplorerBackendReply::GetStateReply(s) && is_state(
                s,
                *self,
                has_row_labels,
            ),
    {
        let num_rows: i64 = match &self.filtered_indices {
            Some(rows) => rows.len() as i64,
            None => self.shape.num_rows as i64,
        };
        let num_columns: i64 = self.shape.columns.len() as i64;
        let mut row_filters: Vec<RowFilter> = Vec::new();
        let n: usize = self.row_filters.len();
        let mut i: usize = 0;
        while i < n
            invariant
                n == self.row_filters@.len(),
                i <= n,
                row_filters@.len() == i,
                forall|k: int|
                    0 <= k < row_filters@.len() ==> same_filter(
                        #[trigger] row_filters@[k],
                        self.row_filters@[k],
                    ),
            decreases n - i,
        {
            row_filters.push(self.row_filters[i].copied());
            i = i + 1;
        }
        let mut column_filters: Vec<ColumnFilter> = Vec::new();
        let count: usize = self.col_filters.len();
        let mut c: usize = 0;
        while c < count
            invariant
                count == self.col_filters@.len(),
                c <= count,
                column_filters@.len() == c,
                forall|k: int|
                    0 <= k < column_filters@.len() ==> same_column_filter(
                        #[trigger] column_filters@[k],
                        self.col_filters@[k],
                    ),
            decreases count - c,
        {
            column_filters.push(self.col_filters[c].copied());
            c = c + 1;
        }
        let mut sort_keys: Vec<ColumnSortKey> = Vec::new();
        let m: usize = self.sort_keys.len();
        let mut j: usize = 0;
        while j < m
            invariant
                m == self.sort_keys@.len(),
                j <= m,
                sort_keys@ == self.sort_keys@.take(j as int),
            decreases m - j,
        {
            sort_keys.push(self.sort_keys[j]);
            j = j + 1;
        }
        assert(sort_keys@ =~= self.sort_keys@);
        DataExplorerBackendReply::GetStateReply(
            BackendState {
                display_name: self.title.clone(),
                connected: Some(true),
                error_message: None,
                table_shape: TableShape { num_rows, num_columns },
                table_unfiltered_shape: TableShape {
                    num_rows: self.shape.num_rows as i64,
                    num_columns,
                },
                row_filters,
                column_filters,
                sort_keys,
                has_row_labels,
                supported_features: supported_features(),
            },
        )
    }

    /// The first step of a request.
    pub fn handle_rpc<Q>(&mut self, request: DataExplorerBackendRequest<Q>) -> (r: RpcStep<Q>)
        requires
            explorer_ok(*old(self)),
            request_ok(request, *old(self)),
        ensures
            is_step(r, *final(self), *old(self), request),
            explorer_ok(*final(self)),
    {
        match request {
            DataExplorerBackendRequest::GetSchema { column_indices } => {
                match get_schema(&self.shape.columns, column_indices) {
                    Ok(columns) => RpcStep::Done(
                        DataExplorerBackendReply::GetSchemaReply { columns },
                    ),
                    Err(m) => RpcStep::Fail(m),
                }
            },
            DataExplorerBackendRequest::SearchSchema(params) => RpcStep::Done(
                DataExplorerBackendReply::SearchSchemaReply {
                    matches: search_schema(&self.shape.columns, &params),
                },
            ),
            DataExplorerBackendRequest::GetDataValues { columns, format_options } => {
                let mut subsets: Vec<TableSubset> = Vec::new();
                let n: usize = columns.len();
                let mut i: usize = 0;
                while i < n
                    invariant
                        n == columns@.len(),
                        i <= n,
                        *self == *old(self),
                        subsets@.len() == i,
                        forall|k: int|
                            0 <= k < columns@.len() ==> selection_ok(
                                #[trigger] columns@[k].selection,
                            ) && columns@[k].column_index < i64::MAX,
                        forall|k: int|
                            0 <= k < subsets@.len() ==> is_subset(
                                #[trigger] subsets@[k],
                                columns@[k].selection,
                                seq![columns@[k].column_index],
                                *self,
                            ),
                    decreases n - i,
                {
                    let column: &ColumnSelection = &columns[i];
                    assert(selection_ok(columns@[i as int].selection));
                    let wanted: Vec<i64> = vec![column.column_index];
                    assert(wanted@ =~= seq![column.column_index]);
                    subsets.push(self.subset(&column.selection, wanted));
                    i = i + 1;
                }
                RpcStep::ReadColumns { subsets, format_options }
            },
            DataExplorerBackendRequest::GetRowLabels { rows, format_options } => {
                let columns: Vec<i64> = Vec::new();
                assert(columns@ =~= Seq::<i64>::empty());
                let subset: TableSubset = self.subset(&rows, columns);
                RpcStep::ReadRowLabels { subset, format_options }
            },
            DataExplorerBackendRequest::ExportDataSelection { selection, format } => {
                let request: ExportRequest = export_selection(
                    &self.view_indices,
                    &selection,
                    format,
                );
                RpcStep::Export { request, format }
            },
            DataExplorerBackendRequest::ConvertToCode { row_filters, sort_keys } => RpcStep::Done(
                DataExplorerBackendReply::ConvertToCodeReply(
                    self.convert_to_code(&row_filters, &sort_keys),
                ),
            ),
            DataExplorerBackendRequest::SuggestCodeSyntax => RpcStep::Done(
                DataExplorerBackendReply::SuggestCodeSyntaxReply(suggest_code_syntax()),
            ),
            DataExplorerBackendRequest::SetColumnFilters(_) => RpcStep::Fail(
                "Data Explorer: Not yet supported".to_owned(),
            ),
            DataExplorerBackendRequest::OpenDataset { .. } => RpcStep::Fail(
                "Data Explorer: Not yet supported".to_owned(),
            ),
            DataExplorerBackendRequest::SetRowFilters(filters) => {
                let any: bool = filters.len() > 0;
                self.row_filters = filters;
                if any {
                    return RpcStep::FilterRows;
                }
                self.filtered_indices = None;
                self.apply_sorts_and_filters();
                RpcStep::Done(
                    DataExplorerBackendReply::SetRowFiltersReply(
                        FilterResult {
                            selected_num_rows: self.shape.num_rows as i64,
                            had_errors: None,
                        },
                    ),
                )
            },
            DataExplorerBackendRequest::SetSortColumns(keys) => {
                let any: bool = keys.len() > 0;
                self.sort_keys = keys;
                if any {
                    return RpcStep::SortRows(self.sort_rows());
                }
                self.sorted_indices = None;
                self.apply_sorts_and_filters();
                RpcStep::Done(DataExplorerBackendReply::SetSortColumnsReply)
            },
            DataExplorerBackendRequest::GetColumnProfiles(params) => RpcStep::LaunchProfiles {
                rows: copy_optional_rows(&self.filtered_indices),
                params,
            },
            DataExplorerBackendRequest::GetState => RpcStep::ReadRowNames,
        }
    }

    /// The step after R sorted the rows. If R failed, the rows that are shown stay.
    pub fn rows_sorted(&mut self, sorted: Result<Vec<i32>, String>) -> (r: Result<
        DataExplorerBackendReply,
        String,
    >)
        requires
            explorer_ok(*old(self)),
        ensures
            explorer_ok(*final(self)),
            sorting_is_done(r, *final(self), *old(self), sorted),
    {
        match sorted {
            Ok(rows) => {
                self.sorted_indices = Some(rows);
                self.apply_sorts_and_filters();
                Ok(DataExplorerBackendReply::SetSortColumnsReply)
            },
            Err(m) => Err(m),
        }
    }

    /// Takes over what R told of the filters. Returns whether any failed.
    fn take_filtered(&mut self, answer: FilteredRows) -> (r: bool)
        requires
            answer.indices@.len() <= i64::MAX,
            answer.errors@.len() <= old(self).row_filters@.len(),
        ensures
            explorer_ok(*final(self)),
            is_filtered(*final(self), *old(self), answer),
            r == any_error(answer.errors@),
    {
        let had_errors: bool = apply_filter_errors(&mut self.row_filters, &answer.errors);
        self.filtered_indices = Some(answer.indices);
        self.apply_sorts_and_filters();
        had_errors
    }

    /// The step after R filtered the rows. If R failed, the rows that are shown stay.
    pub fn rows_filtered(&mut self, answer: Result<FilteredRows, String>) -> (r: Result<
        DataExplorerBackendReply,
        String,
    >)
        requires
            explorer_ok(*old(self)),
            answer_fits(answer, old(self).row_filters@.len()),
            answer matches Ok(f) ==> f.indices@.len() <= i64::MAX,
        ensures
            explorer_ok(*final(self)),
            filtering_is_done(r, *final(self), *old(self), answer),
    {
        match answer {
            Ok(f) => {
                let count: i64 = f.indices.len() as i64;
                let had_errors: bool = self.take_filtered(f);
                Ok(
                    DataExplorerBackendReply::SetRowFiltersReply(
                        FilterResult { selected_num_rows: count, had_errors: Some(had_errors) },
                    ),
                )
            },
            Err(m) => Err(m),
        }
    }

    /// Takes over what is now bound to the name that is watched. Returns whether it is
    /// another object than before. Without such a name nothing ever changes.
    pub fn update(&mut self, found: RObject) -> (r: bool)
        ensures
            is_rebound(r, *final(self), *old(self), found),
    {
        if self.binding.is_none() {
            return false;
        }
        if found == *self.table.get() {
            return false;
        }
        self.table.set(found);
        true
    }

    /// The step after R told the shape of the new object. If it has none the viewer
    /// closes. If its columns are others, filters are brought up to date, and nothing
    /// is sorted any more.
    pub fn update_shape(&mut self, shape: Result<DataObjectShape, &'static str>) -> (r: Result<
        UpdateStep,
        &'static str,
    >)
        requires
            explorer_ok(*old(self)),
        ensures
            explorer_ok(*final(self)),
            shape_is_updated(r, *final(self), *old(self), shape),
    {
        let new_shape: DataObjectShape = match shape {
            Ok(s) => s,
            Err(_) => {
                return Ok(UpdateStep::Close);
            },
        };
        let schema_changed: bool = !same_columns(&new_shape.columns, &self.shape.columns);
        self.shape = new_shape;
        if schema_changed {
            match row_filters_update(&mut self.row_filters, &self.shape.columns) {
                Ok(()) => {},
                Err(m) => {
                    return Err(m);
                },
            }
            self.sorted_indices = None;
            self.filtered_indices = None;
            self.view_indices = None;
            self.sort_keys = Vec::new();
        }
        Ok(
            UpdateStep::Recompute {
                schema_changed,
                sort: self.sort_keys.len() > 0,
                filter: self.row_filters.len() > 0,
            },
        )
    }

    /// The last step of an update: takes over the rows that R sorted and filtered, and
    /// says what the frontend is told. If R failed to sort, nothing changes. If R
    /// failed to filter, only the sorted rows change.
    pub fn finish_update(
        &mut self,
        schema_changed: bool,
        sorted: Option<Result<Vec<i32>, String>>,
        filtered: Option<Result<FilteredRows, String>>,
    ) -> (r: Result<DataExplorerFrontendEvent, String>)
        requires
            explorer_ok(*old(self)),
            filtered matches Some(answer) ==> answer_fits(answer, old(self).row_filters@.len()),
            filtered matches Some(Ok(f)) ==> f.indices@.len() <= i64::MAX,
        ensures
            explorer_ok(*final(self)),
            same_table(*final(self), *old(self)),
            final(self).sort_keys == old(self).sort_keys,
            update_is_finished(r, *final(self), *old(self), schema_changed, sorted, filtered),
    {
        match sorted {
            Some(Ok(rows)) => {
                self.sorted_indices = Some(rows);
            },
            Some(Err(m)) => {
                return Err(m);
            },
            None => {},
        }
        match filtered {
            Some(Ok(f)) => {
                let _had_errors: bool = self.take_filtered(f);
            },
            Some(Err(m)) => {
                return Err(m);
            },
            None => {
                self.filtered_indices = None;
                self.apply_sorts_and_filters();
            },
        }
        if schema_changed {
            Ok(DataExplorerFrontendEvent::SchemaUpdate)
        } else {
            Ok(DataExplorerFrontendEvent::DataUpdate)
        }
    }
}

/// The sorted rows after R was asked to sort them, or not.
pub open spec fn after_sort(
    sorted: Option<Result<Vec<i32>, String>>,
    before: Option<Vec<i32>>,
) -> Option<Vec<i32>> {
    match sorted {
        Some(Ok(rows)) => Some(rows),
        _ => before,
    }
}

/// What the frontend is told of an update.
pub open spec fn update_event(schema_changed: bool) -> DataExplorerFrontendEvent {
    if schema_changed {
        DataExplorerFrontendEvent::SchemaUpdate
    } else {
        DataExplorerFrontendEvent::DataUpdate
    }
}

/// Whether two tables have the same columns.
pub fn same_columns(a: &Vec<ColumnSchema>, b: &Vec<ColumnSchema>) -> (r: bool)
    ensures
        r == (column_models(a@) == column_models(b@)),
{
    let n: usize = a.len();
    if n != b.len() {
        assert(column_models(a@).len() != column_models(b@).len());
        return false;
    }
    let mut i: usize = 0;
    while i < n
        invariant
            n == a@.len(),
            n == b@.len(),
            i <= n,
            forall|k: int| 0 <= k < i ==> (#[trigger] a@[k])@ == b@[k]@,
        decreases n - i,
    {
        if !a[i].same(&b[i]) {
            assert(column_models(a@)[i as int] != column_models(b@)[i as int]);
            return false;
        }
        i = i + 1;
    }
    assert(column_models(a@) =~= column_models(b@));
    true
}

/// The values of a column, as the frontend is told of them.
pub open spec fn values_of(data: ColumnData, options: FormatOptions) -> Seq<
    crate::data_explorer::format::ColumnValueModel,
> {
    formatted_column(data, options).map_values(|v: Formatted| column_value(v))
}

/// The reply with the values of columns, from what R read.
pub fn data_values(columns: &Vec<ColumnData>, options: &FormatOptions) -> (r:
    DataExplorerBackendReply)
    requires
        forall|i: int| 0 <= i < columns@.len() ==> data_ok(#[trigger] columns@[i]),
    ensures
        r matches DataExplorerBackendReply::GetDataValuesReply { values } && values@.len()
            == columns@.len() && forall|i: int|
            0 <= i < values@.len() ==> (#[trigger] values@[i])@.map_values(|v: ColumnValue| v@)
                == values_of(columns@[i], *options),
{
    let mut values: Vec<Vec<ColumnValue>> = Vec::new();
    let n: usize = columns.len();
    let mut i: usize = 0;
    while i < n
        invariant
            n == columns@.len(),
            i <= n,
            values@.len() == i,
            forall|k: int| 0 <= k < columns@.len() ==> data_ok(#[trigger] columns@[k]),
            forall|k: int|
                0 <= k < values@.len() ==> (#[trigger] values@[k])@.map_values(
                    |v: ColumnValue| v@,
                ) == values_of(columns@[k], *options),
        decreases n - i,
    {
        assert(data_ok(columns@[i as int]));
        values.push(format_column(&columns[i], options));
        i = i + 1;
    }
    DataExplorerBackendReply::GetDataValuesReply { values }
}

/// The row names that R read: strings, or something else, which is named.
#[derive(Debug)]
pub enum RowNames {
    Strings(ColumnData),
    Other(String),
}

/// The reply with the labels of rows, from what R read.
pub fn row_labels(names: &RowNames, options: &FormatOptions) -> (r: Result<
    DataExplorerBackendReply,
    String,
>)
    requires
        *names matches RowNames::Strings(data) ==> data_ok(data),
    ensures
        are_row_labels(r, *names, *options),
{
    match names {
        RowNames::Strings(data) => {
            let labels: Vec<String> = format_string(data, options);
            Ok(DataExplorerBackendReply::GetRowLabelsReply { row_labels: vec![labels] })
        },
        RowNames::Other(kind) => Err(
            text::join2("`row.names` should be strings, got ", kind.as_str()),
        ),
    }
}

/// The reply with what R exported.
pub fn exported(data: Result<String, String>, format: ExportFormat) -> (r: Result<
    DataExplorerBackendReply,
    String,
>)
    ensures
        match data {
            Ok(text) => r == Ok::<DataExplorerBackendReply, String>(
                DataExplorerBackendReply::ExportDataSelectionReply { data: text, format },
            ),
            Err(m) => r == Err::<DataExplorerBackendReply, String>(m),
        },
{
    match data {
        Ok(data) => Ok(DataExplorerBackendReply::ExportDataSelectionReply { data, format }),
        Err(m) => Err(m),
    }
}

/// What becomes of a data explorer after an update of what it views.
#[derive(Clone, Copy, Debug, PartialEq, Eq, Structural)]
pub enum AfterUpdate {
    Stay,
    Close,
    LogError,
}

/// What a data explorer does when the environment changed.
#[derive(Clone, Copy, Debug, PartialEq, Eq, Structural)]
pub enum OnEnvironment {
    Ignore,
    /// Update the view, see `after_update`.
    Update,
}

/// What a data explorer does when the environment changed: it updates its view after
/// code was executed.
pub fn handle_environment(event: &EnvironmentChanged) -> (r: OnEnvironment)
    ensures
        r == (match *event {
            EnvironmentChanged::Execution { .. } => OnEnvironment::Update,
            EnvironmentChanged::FrameSelected => OnEnvironment::Ignore,
        }),
{
    match event {
        EnvironmentChanged::Execution { .. } => OnEnvironment::Update,
        EnvironmentChanged::FrameSelected => OnEnvironment::Ignore,
    }
}

/// What becomes of a data explorer after an update: it closes if what it views is no
/// table any more, and an update that fails is logged.
pub fn after_update(updated: &Result<bool, String>) -> (r: AfterUpdate)
    ensures
        r == (match *updated {
            Ok(true) => AfterUpdate::Stay,
            Ok(false) => AfterUpdate::Close,
            Err(_) => AfterUpdate::LogError,
        }),
{
    match updated {
        Ok(true) => AfterUpdate::Stay,
        Ok(false) => AfterUpdate::Close,
        Err(_) => AfterUpdate::LogError,
    }
}

/// Opens an object in the data explorer. A title that is no string is empty. The
/// object is watched if an environment is given and the name of its variable is a
/// string.
pub fn ps_view_data_frame(
    x: RObject,
    title: Option<String>,
    var: Option<String>,
    env: Option<RObject>,
    shape: Result<DataObjectShape, &'static str>,
) -> (r: Result<RDataExplorer, &'static str>)
    ensures
        is_view(r, x, title, var, env, shape),
{
    let title: String = match title {
        Some(t) => t,
        None => String::new(),
    };
    let binding: Option<DataObjectEnvInfo> = match (env, var) {
        (Some(env), Some(name)) => Some(DataObjectEnvInfo { name, env }),
        _ => None,
    };
    RDataExplorer::new(title, x, binding, shape)
}

/// A row is shown if and only if it is among the sorted rows and passes the filters.
pub proof fn law_view_shows_filtered_rows(sorted: Seq<i32>, filtered: Seq<i32>, row: i32)
    ensures
        view_of(Some(sorted), Some(filtered)) matches Some(v) && (v.contains(row) <==> (
        sorted.contains(row) && filtered.contains(row))),
{
    let keep = |row: i32| filtered.contains(row);
    let v = sorted.filter(keep);
    if v.contains(row) {
        sorted.lemma_filter_contains_rev(keep, row);
        let k = choose|k: int| 0 <= k < v.len() && v[k] == row;
        sorted.lemma_filter_pred(keep, k);
    }
    if sorted.contains(row) && filtered.contains(row) {
        let k = choose|k: int| 0 <= k < sorted.len() && sorted[k] == row;
        sorted.lemma_filter_contains(keep, k);
    }
}

/// Once there are neither sort keys nor filters, all rows are shown in the order of
/// the table.
pub proof fn law_cleared_view_shows_all<Q>(
    first: RDataExplorer,
    second: RDataExplorer,
    third: RDataExplorer,
    keys: Vec<ColumnSortKey>,
    filters: Vec<RowFilter>,
    a: RpcStep<Q>,
    b: RpcStep<Q>,
)
    requires
        keys@.len() == 0,
        filters@.len() == 0,
        is_step(a, second, first, DataExplorerBackendRequest::SetSortColumns(keys)),
        is_step(b, third, second, DataExplorerBackendRequest::SetRowFilters(filters)),
    ensures
        third.view_indices is None,
        third.shape == first.shape,
{
}

/// The values of a range of rows are those of the rows that are shown there: the rows of
/// the view if there is one, and else those of the table, which count from one, in the
/// column that was asked for. Rows that are not shown are left out.
pub proof fn law_values_come_from_the_view(
    subset: TableSubset,
    e: RDataExplorer,
    first: i64,
    last: i64,
    column: i64,
    k: int,
)
    requires
        is_subset(
            subset,
            ArraySelection::SelectRange { first_index: first, last_index: last },
            seq![column],
            e,
        ),
        0 <= first <= last < i64::MAX,
        e.view_indices matches Some(v) ==> v@.len() <= i32::MAX,
        e.view_indices is None ==> 0 <= e.shape.num_rows,
    ensures
        ({
            let shown = match e.view_indices {
                Some(v) => v@.len() as int,
                None => e.shape.num_rows as int,
            };
            let end = if last < shown {
                last + 1
            } else {
                shown
            };
            &&& subset.rows@.len() == (if first < end {
                end - first
            } else {
                0
            })
            &&& subset.columns@.len() == 1
            &&& subset.columns@[0] == column + 1
            &&& 0 <= k < subset.rows@.len() ==> match e.view_indices {
                Some(v) => subset.rows@[k] == v@[first + k],
                None => subset.rows@[k] == first + k + 1,
            }
        }),
{
    if let Some(v) = e.view_indices {
        assert((v@.len() as i32) == v@.len());
    }
}

/// R is asked to sort by the columns of the sort keys in the order of the keys, and
/// downwards exactly where a key does not ascend. Until R has sorted the rows, those that
/// are shown stay.
pub proof fn law_sorting_asks_r<Q>(
    step: RpcStep<Q>,
    new: RDataExplorer,
    old: RDataExplorer,
    keys: Vec<ColumnSortKey>,
    i: int,
)
    requires
        is_step(step, new, old, DataExplorerBackendRequest::SetSortColumns(keys)),
        0 <= i < keys@.len(),
        i32::MIN <= keys@[i].column_index <= i32::MAX,
    ensures
        step matches RpcStep::SortRows(sort) && sort.columns@.len() == keys@.len()
            && sort.decreasing@.len() == keys@.len() && sort.columns@[i] == keys@[i].column_index
            && (sort.decreasing@[i] <==> !keys@[i].ascending),
        new.sort_keys == keys,
        new.row_filters == old.row_filters,
        new.view_indices == old.view_indices,
{
    let sort = step->SortRows_0;
    assert(sort.columns@[i] == keys@[i].column_index as i32);
    assert(sort.decreasing@[i] == !keys@[i].ascending);
}

/// Rows that are only sorted are shown as sorted, and rows that are only filtered as R
/// gave them. Rows that are sorted and filtered are those that pass, in sorted order.
pub proof fn law_order_of_shown_rows(sorted: Seq<i32>, filtered: Seq<i32>, i: int, j: int)
    ensures
        view_of(Some(sorted), None) == Some(sorted),
        view_of(None, Some(filtered)) == Some(filtered),
        view_of(None, None) is None,
        view_of(Some(sorted), Some(filtered)) is Some,
        0 <= i < j < view_of(Some(sorted), Some(filtered))->0.len() ==> exists|a: int, b: int|
            0 <= a < b < sorted.len() && #[trigger] sorted[a] == view_of(
                Some(sorted),
                Some(filtered),
            )->0[i] && #[trigger] sorted[b] == view_of(Some(sorted), Some(filtered))->0[j],
{
    if 0 <= i < j < view_of(Some(sorted), Some(filtered))->0.len() {
        lemma_filter_order(sorted, |row: i32| filtered.contains(row), i, j);
    }
}

proof fn lemma_filter_order(s: Seq<i32>, keep: spec_fn(i32) -> bool, i: int, j: int)
    requires
        0 <= i < j < s.filter(keep).len(),
    ensures
        exists|a: int, b: int|
            0 <= a < b < s.len() && #[trigger] s[a] == s.filter(keep)[i] && #[trigger] s[b]
                == s.filter(keep)[j],
    decreases s.len(),
{
    reveal(Seq::filter);
    if s.len() > 0 {
        let less = s.drop_last();
        let n = s.len() - 1;
        if j < less.filter(keep).len() {
            lemma_filter_order(less, keep, i, j);
            let (a, b) = choose|a: int, b: int|
                0 <= a < b < less.len() && #[trigger] less[a] == less.filter(keep)[i]
                    && #[trigger] less[b] == less.filter(keep)[j];
            assert(s[a] == less[a] && s[b] == less[b]);
        } else {
            less.lemma_filter_contains_rev(keep, less.filter(keep)[i]);
            let a = choose|a: int| 0 <= a < less.len() && less[a] == less.filter(keep)[i];
            assert(s[a] == s.filter(keep)[i] && s[n] == s.filter(keep)[j]);
        }
    }
}

/// The frontend is told how many rows pass the filters, how many there are in all, and
/// how many columns, together with the filters and sort keys as they were set.
pub proof fn law_state_tells_the_table(s: BackendState, e: RDataExplorer, has_row_labels: bool)
    requires
        is_state(s, e, has_row_labels),
    ensures
        s.display_name@ == e.title@,
        s.connected == Some(true),
        s.error_message is None,
        e.filtered_indices matches Some(rows) ==> s.table_shape.num_rows == rows@.len(),
        e.filtered_indices is None ==> s.table_shape.num_rows == e.shape.num_rows,
        s.table_unfiltered_shape.num_rows == e.shape.num_rows,
        s.table_shape.num_columns == e.shape.columns@.len(),
        s.table_unfiltered_shape.num_columns == e.shape.columns@.len(),
        s.sort_keys@ == e.sort_keys@,
        s.row_filters@.len() == e.row_filters@.len(),
        forall|i: int|
            0 <= i < s.row_filters@.len() ==> {
                let f = #[trigger] s.row_filters@[i];
                &&& f.filter_id@ == e.row_filters@[i].filter_id@
                &&& f.filter_type == e.row_filters@[i].filter_type
                &&& f.is_valid == e.row_filters@[i].is_valid
                &&& f.column_schema == e.row_filters@[i].column_schema
            },
        s.has_row_labels == has_row_labels,
        s.supported_features.set_sort_columns == SupportStatus::Supported,
        s.supported_features.search_schema.0 == SupportStatus::Supported,
        s.supported_features.set_row_filters.0 == SupportStatus::Supported,
        s.supported_features.get_column_profiles.0 == SupportStatus::Supported,
        s.supported_features.export_data_selection.0 == SupportStatus::Supported,
        s.supported_features.convert_to_code.0 == SupportStatus::Supported,
        s.supported_features.set_column_filters.0 == SupportStatus::Unsupported,
        s.supported_features.supports_conditions == SupportStatus::Unsupported,
        forall|i: int|
            0 <= i < s.supported_features.set_row_filters.1@.len() ==> (
            #[trigger] s.supported_features.set_row_filters.1@[i]).1 == SupportStatus::Supported,
        s.supported_features.set_row_filters.1@.len() == 11,
{
    assert forall|i: int| 0 <= i < s.row_filters@.len() implies {
        let f = #[trigger] s.row_filters@[i];
        &&& f.filter_id@ == e.row_filters@[i].filter_id@
        &&& f.filter_type == e.row_filters@[i].filter_type
        &&& f.is_valid == e.row_filters@[i].is_valid
        &&& f.column_schema == e.row_filters@[i].column_schema
    } by {
        assert(same_filter(s.row_filters@[i], e.row_filters@[i]));
    }
}

/// Which filters suit a column: tests for empty texts and searches suit texts, tests for
/// truth values suit truth values, tests for missing values and membership suit every
/// column, and so do equality and its opposite. What compares by size suits numbers of a
/// known kind, dates and times.
pub proof fn law_filters_that_suit_columns(filter: RowFilter)
    ensures
        ({
            let shown = filter.column_schema.type_display;
            let sized = shown == ColumnDisplayType::Integer || shown == ColumnDisplayType::Floating
                || shown == ColumnDisplayType::Decimal || shown == ColumnDisplayType::Date || shown
                == ColumnDisplayType::Datetime || shown == ColumnDisplayType::Time;
            match filter.filter_type {
                RowFilterType::IsEmpty | RowFilterType::NotEmpty | RowFilterType::Search =>
                    filter_valid(filter) == (shown == ColumnDisplayType::String),
                RowFilterType::IsTrue | RowFilterType::IsFalse => filter_valid(filter) == (shown
                    == ColumnDisplayType::Boolean),
                RowFilterType::IsNull | RowFilterType::NotNull | RowFilterType::SetMembership =>
                    filter_valid(filter),
                RowFilterType::Between | RowFilterType::NotBetween => filter_valid(filter)
                    == sized,
                RowFilterType::Compare => filter.params matches Some(
                    RowFilterParams::Comparison(c),
                ) ==> filter_valid(filter) == (c.op == FilterComparisonOp::Eq || c.op
                    == FilterComparisonOp::NotEq || sized),
            }
        }),
{
}

/// When the columns of a table change, a filter goes on to filter the first column that
/// has the name of its column, and is valid if it suits it. It is invalid if there is no
/// such column any more, and says why.
pub proof fn law_filters_follow_their_columns(
    new: RowFilter,
    old: RowFilter,
    columns: Seq<ColumnSchema>,
    i: int,
)
    requires
        is_updated(new, old, columns),
    ensures
        new.filter_id == old.filter_id,
        new.filter_type == old.filter_type,
        new.params == old.params,
        new.is_valid is Some,
        (forall|k: int|
            0 <= k < columns.len() ==> (#[trigger] columns[k]).column_name@
                != old.column_schema.column_name@) ==> new.is_valid == Some(false)
            && text::opt_text(new.error_message) == Some("Column was removed"@)
            && new.column_schema == old.column_schema,
        0 <= i < columns.len() && columns[i].column_name@ == old.column_schema.column_name@ && (
        forall|k: int|
            0 <= k < i ==> (#[trigger] columns[k]).column_name@ != old.column_schema.column_name@)
            ==> new.column_schema == columns[i] && new.is_valid == Some(
            filter_valid(RowFilter { column_schema: columns[i], ..old }),
        ) && (new.is_valid == Some(true) ==> new.error_message is None) && (new.is_valid == Some(
            false,
        ) ==> text::opt_text(new.error_message) == Some("Unsupported column type for filter"@)),
{
    let name = old.column_schema.column_name@;
    lemma_first_named(columns, name);
}

proof fn lemma_first_named(columns: Seq<ColumnSchema>, name: Seq<char>)
    ensures
        match first_named(columns, name) {
            Some(i) => 0 <= i < columns.len() && columns[i].column_name@ == name && forall|k: int|
                0 <= k < i ==> (#[trigger] columns[k]).column_name@ != name,
            None => forall|k: int|
                0 <= k < columns.len() ==> (#[trigger] columns[k]).column_name@ != name,
        },
    decreases columns.len(),
{
    if columns.len() > 0 {
        let less = columns.drop_last();
        lemma_first_named(less, name);
        assert forall|k: int| 0 <= k < less.len() implies less[k] == #[trigger] columns[k] by {}
        if first_named(less, name) is None {
            assert forall|k: int| 0 <= k < columns.len() - 1 implies (
            #[trigger] columns[k]).column_name@ != name by {
                assert(less[k].column_name@ != name);
            }
        } else {
            let i = first_named(less, name)->0;
            assert forall|k: int| 0 <= k < i implies (#[trigger] columns[k]).column_name@ != name by {
                assert(less[k].column_name@ != name);
            }
        }
    }
}

/// After R filtered the rows, the rows that R gave are those that pass, a filter for which
/// R told an error is invalid with that error, and the others are valid.
pub proof fn law_filtering_takes_what_r_gives(
    new: RDataExplorer,
    old: RDataExplorer,
    answer: FilteredRows,
    i: int,
)
    requires
        is_filtered(new, old, answer),
        answer.errors@.len() <= old.row_filters@.len(),
    ensures
        new.filtered_indices matches Some(rows) && rows@ == answer.indices@,
        new.sort_keys == old.sort_keys,
        new.row_filters@.len() == old.row_filters@.len(),
        0 <= i < answer.errors@.len() && answer.errors@[i] is Some ==> new.row_filters@[i].is_valid
            == Some(false) && new.row_filters@[i].error_message == answer.errors@[i],
        0 <= i < answer.errors@.len() && answer.errors@[i] is None ==> new.row_filters@[i].is_valid
            == Some(true),
        old.sorted_indices is None ==> new.view_indices is Some && new.view_indices->0@
            == answer.indices@,
{
    if 0 <= i < answer.errors@.len() {
        let f: RowFilter = new.row_filters@[i];
        assert(f.is_valid == Some(answer.errors@[i] is None));
    }
}

/// Profiles are computed of the rows that pass the filters, whatever their order.
pub proof fn law_profiles_are_of_filtered_rows<Q>(
    step: RpcStep<Q>,
    new: RDataExplorer,
    old: RDataExplorer,
    params: GetColumnProfilesParams<Q>,
)
    requires
        is_step(step, new, old, DataExplorerBackendRequest::GetColumnProfiles(params)),
    ensures
        new == old,
        step matches RpcStep::LaunchProfiles { rows, params: p } && p == params && (
        old.filtered_indices matches Some(f) ==> rows matches Some(r) && r@ == f@) && (
        old.filtered_indices is None ==> rows is None),
{
}

/// An export is of the rows and columns of the view that are selected, counted from one
/// for R, in the format that was asked for. Only a single cell has no header.
pub proof fn law_exports_are_of_the_view(
    r: ExportRequest,
    selection: TableSelection,
    format: ExportFormat,
    view: Option<Seq<i32>>,
    k: int,
)
    requires
        is_export(r, selection, format, view),
    ensures
        r.include_header <==> selection.kind != TableSelectionKind::SingleCell,
        r.format@ == (match format {
            ExportFormat::Csv => "csv"@,
            ExportFormat::Tsv => "tsv"@,
            ExportFormat::Html => "html"@,
        }),
        r.rows is Some <==> selected_rows(selection) is Some,
        r.columns is Some <==> selected_columns(selection) is Some,
        r.rows matches Some(rows) && 0 <= k < rows@.len() ==> r.rows->0@[k] == (match view {
            Some(v) => v[selected_rows(selection)->0[k] as int] as int,
            None => selected_rows(selection)->0[k] + 1,
        }),
        r.columns matches Some(columns) && 0 <= k < columns@.len() ==> r.columns->0@[k]
            == selected_columns(selection)->0[k] + 1,
{
}

/// The code of a view is that of the table under the name that is bound to it, or under
/// its title if it is not watched. Sort keys of columns that are not there are left out,
/// and the others keep their columns and directions.
pub proof fn law_code_names_the_view(
    e: RDataExplorer,
    keys: Seq<ColumnSortKey>,
    columns: Seq<ColumnSchema>,
    key: ColumnSortKey,
)
    ensures
        e.binding matches Some(binding) ==> viewed_name(e) == binding.name@,
        e.binding is None ==> viewed_name(e) == e.title@,
        resolved(seq![key], columns) == (if 0 <= key.column_index < columns.len() {
            seq![
                ResolvedSortKey {
                    column_name: columns[key.column_index as int].column_name,
                    ascending: key.ascending,
                },
            ]
        } else {
            Seq::empty()
        }),
        resolved(keys.push(key), columns) == resolved(keys, columns) + resolved(
            seq![key],
            columns,
        ),
{
    let keep = |k: ColumnSortKey| 0 <= k.column_index < columns.len();
    let resolve = |k: ColumnSortKey|
        ResolvedSortKey {
            column_name: columns[k.column_index as int].column_name,
            ascending: k.ascending,
        };
    let none = Seq::<ColumnSortKey>::empty();
    keys.lemma_filter_push(key, keep);
    none.lemma_filter_push(key, keep);
    assert(none.push(key) =~= seq![key]);
    assert(none.filter(keep) =~= none) by {
        reveal(Seq::filter);
    }
    if keep(key) {
        assert(seq![key].filter(keep) =~= seq![key]);
        assert(resolved(seq![key], columns) =~= seq![resolve(key)]);
    } else {
        assert(seq![key].filter(keep) =~= none);
        assert(resolved(seq![key], columns) =~= Seq::empty());
    }
    assert(resolved(keys.push(key), columns) =~= resolved(keys, columns) + resolved(
        seq![key],
        columns,
    ));
}

/// A request that reads leaves the data explorer as it is. Setting filters or sort keys
/// changes neither the table nor the other of the two.
pub proof fn law_reading_changes_nothing<Q>(
    step: RpcStep<Q>,
    new: RDataExplorer,
    old: RDataExplorer,
    request: DataExplorerBackendRequest<Q>,
)
    requires
        is_step(step, new, old, request),
    ensures
        !(request is SetRowFilters || request is SetSortColumns) ==> new == old,
        new.table == old.table,
        new.shape == old.shape,
        new.binding == old.binding,
        new.title == old.title,
        request is SetRowFilters ==> new.sort_keys == old.sort_keys,
        request is SetSortColumns ==> new.row_filters == old.row_filters,
        request matches DataExplorerBackendRequest::SetRowFilters(filters) && filters@.len() > 0
            ==> step is FilterRows && new.row_filters == request->SetRowFilters_0,
        request matches DataExplorerBackendRequest::SetRowFilters(filters) && filters@.len() == 0
            ==> (step matches RpcStep::Done(DataExplorerBackendReply::SetRowFiltersReply(r))
            && r.selected_num_rows == old.shape.num_rows && r.had_errors is None),
{
}

/// What is known of a column is what R told of it: its name, or an empty one, its place,
/// its type, and its label, which only the columns of data frames have, if it is not
/// blank.
pub proof fn law_columns_are_what_r_tells(
    c: ColumnSchema,
    probe: ColumnProbe,
    kind: TableKind,
    i: int,
)
    requires
        is_schema(c, probe, kind, i),
    ensures
        c.column_index == i,
        probe.name matches Some(name) ==> c.column_name@ == name@,
        probe.name is None ==> c.column_name@.len() == 0,
        c.type_label@ == probe.type_label@,
        c.type_display == spec_display_type(probe.column_type),
        kind != TableKind::Dataframe ==> c.column_label is None,
        probe.label is None ==> c.column_label is None,
        probe.label matches Some(l) && kind == TableKind::Dataframe && text::trimmed(
            probe.label->0@,
        ).len() > 0 ==> c.column_label is Some && c.column_label->0@ == probe.label->0@,
        probe.label matches Some(l) && text::trimmed(probe.label->0@).len() == 0
            ==> c.column_label is None,
{
}

/// The frontend is told of a change of the columns as such, and else of a change of the
/// data.
pub proof fn law_kinds_of_updates()
    ensures
        update_event(true) == DataExplorerFrontendEvent::SchemaUpdate,
        update_event(false) == DataExplorerFrontendEvent::DataUpdate,
{
}

/// What comes of R's answer to a request to filter rows.
pub open spec fn filtering_is_done(
    r: Result<DataExplorerBackendReply, String>,
    new: RDataExplorer,
    old: RDataExplorer,
    answer: Result<FilteredRows, String>,
) -> bool {
    match answer {
        Ok(f) => {
            &&& is_filtered(new, old, f)
            &&& r == Ok::<DataExplorerBackendReply, String>(
                DataExplorerBackendReply::SetRowFiltersReply(
                    FilterResult {
                        selected_num_rows: f.indices@.len() as i64,
                        had_errors: Some(any_error(f.errors@)),
                    },
                ),
            )
        },
        Err(m) => new == old && r == Err::<
            DataExplorerBackendReply,
            String,
        >(m),
    }
}

/// What comes of the shape of a new object.
pub open spec fn shape_is_updated(
    r: Result<UpdateStep, &'static str>,
    new: RDataExplorer,
    old: RDataExplorer,
    shape: Result<DataObjectShape, &'static str>,
) -> bool {
    match shape {
        Err(_) => new == old && r == Ok::<UpdateStep, &'static str>(
            UpdateStep::Close,
        ),
        Ok(s) => if column_models(s.columns@) == column_models(old.shape.columns@) {
            &&& new == (RDataExplorer { shape: s, ..old })
            &&& r == Ok::<UpdateStep, &'static str>(
                UpdateStep::Recompute {
                    schema_changed: false,
                    sort: old.sort_keys@.len() > 0,
                    filter: old.row_filters@.len() > 0,
                },
            )
        } else {
            &&& new.title == old.title
            &&& new.table == old.table
            &&& new.binding == old.binding
            &&& new.shape == s
            &&& match r {
                Ok(step) => {
                    &&& step == UpdateStep::Recompute {
                        schema_changed: true,
                        sort: false,
                        filter: old.row_filters@.len() > 0,
                    }
                    &&& filters_updated(
                        Ok(()),
                        new.row_filters@,
                        old.row_filters@,
                        s.columns@,
                    )
                    &&& new.sort_keys@.len() == 0
                    &&& new.sorted_indices is None
                    &&& new.filtered_indices is None
                    &&& new.view_indices is None
                },
                Err(m) => {
                    &&& filters_updated(
                        Err(m@),
                        new.row_filters@,
                        old.row_filters@,
                        s.columns@,
                    )
                    &&& new.sort_keys == old.sort_keys
                    &&& same_rows(new, old)
                },
            }
        },
    }
}

/// What comes of the rows of a new object, once R sorted and filtered them.
pub open spec fn update_is_finished(
    r: Result<DataExplorerFrontendEvent, String>,
    new: RDataExplorer,
    old: RDataExplorer,
    schema_changed: bool,
    sorted: Option<Result<Vec<i32>, String>>,
    filtered: Option<Result<FilteredRows, String>>,
) -> bool {
    match (sorted, filtered) {
        (Some(Err(m)), _) => new == old && r == Err::<
            DataExplorerFrontendEvent,
            String,
        >(m),
        (_, Some(Err(m))) => {
            &&& r == Err::<DataExplorerFrontendEvent, String>(m)
            &&& new == (RDataExplorer {
                sorted_indices: after_sort(sorted, old.sorted_indices),
                ..old
            })
        },
        (_, Some(Ok(f))) => {
            &&& r == Ok::<DataExplorerFrontendEvent, String>(update_event(schema_changed))
            &&& new.sorted_indices == after_sort(
                sorted,
                old.sorted_indices,
            )
            &&& is_filtered(
                new,
                (RDataExplorer {
                    sorted_indices: after_sort(sorted, old.sorted_indices),
                    ..old
                }),
                f,
            )
        },
        (_, None) => {
            &&& r == Ok::<DataExplorerFrontendEvent, String>(update_event(schema_changed))
            &&& new.sorted_indices == after_sort(
                sorted,
                old.sorted_indices,
            )
            &&& new.row_filters == old.row_filters
            &&& new.filtered_indices is None
            &&& view_up_to_date(new)
        },
    }
}

/// What comes of an object that is bound to the name that is watched.
pub open spec fn is_rebound(
    r: bool,
    new: RDataExplorer,
    old: RDataExplorer,
    found: RObject,
) -> bool {
    &&& r == (old.binding is Some && found != old.table.0)
    &&& new == (RDataExplorer {
        table: if r {
            Table(found)
        } else {
            old.table
        },
        ..old
    })
}

/// Another object is taken over exactly if a name is watched and the object is not the one
/// that is shown. Nothing else changes.
pub proof fn law_other_objects_are_taken_over(
    r: bool,
    new: RDataExplorer,
    old: RDataExplorer,
    found: RObject,
)
    requires
        is_rebound(r, new, old, found),
    ensures
        old.binding is None ==> !r && new == old,
        found == old.table.0 ==> !r && new == old,
        old.binding is Some && found != old.table.0 ==> r && new.table.0 == found,
        new.binding == old.binding,
        new.shape == old.shape,
        new.sort_keys == old.sort_keys,
        new.row_filters == old.row_filters,
        same_rows(new, old),
{
}

/// An object that is no table closes the viewer. With the same columns, rows are sorted and
/// filtered again as they were. With others, nothing is sorted any more, all rows are
/// shown until they are filtered again, and the frontend gets the new schema.
pub proof fn law_new_shapes(
    r: Result<UpdateStep, &'static str>,
    new: RDataExplorer,
    old: RDataExplorer,
    shape: DataObjectShape,
    why: &'static str,
)
    ensures
        shape_is_updated(r, new, old, Err(why)) ==> r == Ok::<UpdateStep, &'static str>(
            UpdateStep::Close,
        ) && new == old,
        shape_is_updated(r, new, old, Ok(shape)) && column_models(shape.columns@) == column_models(
            old.shape.columns@,
        ) ==> {
            &&& r == Ok::<UpdateStep, &'static str>(
                UpdateStep::Recompute {
                    schema_changed: false,
                    sort: old.sort_keys@.len() > 0,
                    filter: old.row_filters@.len() > 0,
                },
            )
            &&& new.shape == shape
            &&& new.sort_keys == old.sort_keys
            &&& new.row_filters == old.row_filters
            &&& new.sorted_indices == old.sorted_indices
            &&& new.filtered_indices == old.filtered_indices
            &&& new.view_indices == old.view_indices
        },
        shape_is_updated(r, new, old, Ok(shape)) && column_models(shape.columns@) != column_models(
            old.shape.columns@,
        ) ==> {
            &&& new.shape == shape
            &&& new.row_filters@.len() == old.row_filters@.len()
            &&& r is Ok ==> r == Ok::<UpdateStep, &'static str>(
                UpdateStep::Recompute {
                    schema_changed: true,
                    sort: false,
                    filter: old.row_filters@.len() > 0,
                },
            ) && new.sort_keys@.len() == 0 && new.sorted_indices is None && new.filtered_indices
                is None && new.view_indices is None
            &&& r is Err ==> new.sort_keys == old.sort_keys && new.sorted_indices
                == old.sorted_indices && new.filtered_indices == old.filtered_indices
                && new.view_indices == old.view_indices
        },
{
}

/// Only a comparison without its parameters cannot be judged. It is found by the first such
/// filter on a column that is still there, whose fault is then told.
pub proof fn law_filters_that_cannot_be_judged(
    filter: RowFilter,
    columns: Seq<ColumnSchema>,
    new: Seq<RowFilter>,
    old: Seq<RowFilter>,
)
    ensures
        filter.filter_type != RowFilterType::Compare ==> filter_fault(filter) is None,
        filter.filter_type == RowFilterType::Compare && filter.params is None ==> filter_fault(
            filter,
        ) == Some("Missing compare_params for filter"@),
        filter.filter_type == RowFilterType::Compare && filter.params is Some ==> (filter_fault(
            filter,
        ) is None <==> filter.params->0 is Comparison),
        filter.filter_type == RowFilterType::Compare && filter.params is Some && !(filter.params->0
            is Comparison) ==> filter_fault(filter) == Some("Missing compare filter params"@),
        filters_updated(Ok(()), new, old, columns) ==> new.len() == old.len() && forall|i: int|
            0 <= i < new.len() ==> is_updated(#[trigger] new[i], old[i], columns) && update_fault(
                old[i],
                columns,
            ) is None,
        first_named(columns, filter.column_schema.column_name@) is None ==> update_fault(
            filter,
            columns,
        ) is None,
{
    if filters_updated(Ok(()), new, old, columns) {
        assert(updated_up_to(new, old, columns, old.len() as int));
        assert forall|i: int| 0 <= i < new.len() implies is_updated(
            #[trigger] new[i],
            old[i],
            columns,
        ) && update_fault(old[i], columns) is None by {}
    }
}

/// Filters before the first one that cannot be judged are brought up to date, and those after
/// it stay as they were.
pub proof fn law_updates_stop_at_the_first_fault(
    message: Seq<char>,
    new: Seq<RowFilter>,
    old: Seq<RowFilter>,
    columns: Seq<ColumnSchema>,
)
    requires
        filters_updated(Err(message), new, old, columns),
    ensures
        new.len() == old.len(),
        exists|n: int|
            #![trigger old[n]]
            0 <= n < old.len() && update_fault(old[n], columns) == Some(message) && (forall|i: int|
                0 <= i < n ==> is_updated(#[trigger] new[i], old[i], columns)) && (forall|i: int|
                n < i < new.len() ==> #[trigger] new[i] == old[i]),
{
    let n = choose|n: int|
        #![trigger old[n]]
        0 <= n < old.len() && update_fault(old[n], columns) == Some(message) && new.len()
            == old.len() && new[n] == retargeted(old[n], columns) && updated_up_to(
            new.update(n, old[n]),
            old,
            columns,
            n,
        );
    let before = new.update(n, old[n]);
    assert(old[n] == old[n]);
    assert forall|i: int| 0 <= i < n implies is_updated(#[trigger] new[i], old[i], columns) by {
        assert(is_updated(before[i], old[i], columns));
    }
    assert forall|i: int| n < i < new.len() implies #[trigger] new[i] == old[i] by {
        assert(before[i] == old[i]);
    }
}

/// R's answer to a request to filter rows tells how many rows are left, and whether some filter
/// failed. If R fails, nothing changes.
pub proof fn law_filtered_rows_are_told(
    r: Result<DataExplorerBackendReply, String>,
    new: RDataExplorer,
    old: RDataExplorer,
    f: FilteredRows,
    why: String,
)
    requires
        f.indices@.len() <= i64::MAX,
    ensures
        filtering_is_done(r, new, old, Ok(f)) ==> {
            &&& r matches Ok(DataExplorerBackendReply::SetRowFiltersReply(told))
                && told.selected_num_rows == f.indices@.len() && told.had_errors == Some(
                exists|i: int| 0 <= i < f.errors@.len() && #[trigger] f.errors@[i] is Some,
            )
            &&& is_filtered(new, old, f)
        },
        filtering_is_done(r, new, old, Err(why)) ==> r == Err::<DataExplorerBackendReply, String>(
            why,
        ) && new == old,
{
}

/// What R told of filters: one that failed is not valid, and says why. The others are valid.
pub proof fn law_failed_filters_say_why(
    new: Seq<RowFilter>,
    old: Seq<RowFilter>,
    errors: Seq<Option<String>>,
    i: int,
)
    requires
        errors_applied(new, old, errors, errors.len() as int),
        0 <= i < errors.len() <= old.len(),
    ensures
        new.len() == old.len(),
        errors[i] is Some ==> new[i].is_valid == Some(false) && new[i].error_message == errors[i],
        errors[i] is None ==> new[i].is_valid == Some(true) && new[i].error_message
            == old[i].error_message,
        new[i].filter_id == old[i].filter_id,
        new[i].filter_type == old[i].filter_type,
        new[i].column_schema == old[i].column_schema,
        new[i].condition == old[i].condition,
        new[i].params == old[i].params,
        forall|k: int| errors.len() <= k < new.len() ==> #[trigger] new[k] == old[k],
{
    assert(new[i].filter_id == old[i].filter_id);
}

/// An update ends with R's failure, or with the rows that R sorted and filtered. Rows that
/// were not sorted again keep their order, and without filters all of them are shown.
pub proof fn law_updates_are_finished(
    r: Result<DataExplorerFrontendEvent, String>,
    new: RDataExplorer,
    old: RDataExplorer,
    schema_changed: bool,
    sorted: Option<Result<Vec<i32>, String>>,
    filtered: Option<Result<FilteredRows, String>>,
)
    requires
        update_is_finished(r, new, old, schema_changed, sorted, filtered),
    ensures
        sorted matches Some(Err(m)) ==> r == Err::<DataExplorerFrontendEvent, String>(m) && new
            == old,
        !(sorted matches Some(Err(_))) && (filtered matches Some(Err(_))) ==> r == Err::<
            DataExplorerFrontendEvent,
            String,
        >(filtered->0->Err_0) && new.filtered_indices == old.filtered_indices && new.view_indices
            == old.view_indices && new.row_filters == old.row_filters,
        !(sorted matches Some(Err(_))) && !(filtered matches Some(Err(_))) ==> r == Ok::<
            DataExplorerFrontendEvent,
            String,
        >(
            if schema_changed {
                DataExplorerFrontendEvent::SchemaUpdate
            } else {
                DataExplorerFrontendEvent::DataUpdate
            },
        ),
        sorted is None ==> new.sorted_indices == old.sorted_indices,
        sorted matches Some(Ok(rows)) ==> new.sorted_indices == Some(rows),
        !(sorted matches Some(Err(_))) && filtered is None ==> new.filtered_indices is None
            && new.row_filters == old.row_filters && view_rows(new.view_indices) == view_of(
            view_rows(new.sorted_indices),
            None,
        ),
{
}

/// A table is told with all its columns, in their order, and with its rows.
pub proof fn law_shapes_are_what_r_tells(shape: DataObjectShape, probe: TableProbe, i: int)
    requires
        is_shape(shape, probe),
        0 <= i < probe.columns@.len(),
    ensures
        shape.kind == probe.kind,
        shape.num_rows == probe.num_rows,
        shape.columns@.len() == probe.columns@.len(),
        is_schema(shape.columns@[i], probe.columns@[i], probe.kind, i),
{
}

/// Column filters and other data sets are not supported yet.
pub proof fn law_what_is_not_supported<Q>(
    step: RpcStep<Q>,
    new: RDataExplorer,
    old: RDataExplorer,
    filters: Vec<ColumnFilter>,
    uri: String,
)
    ensures
        is_step(step, new, old, DataExplorerBackendRequest::<Q>::SetColumnFilters(filters)) ==> new
            == old && (step matches RpcStep::Fail(m) && m@ == "Data Explorer: Not yet supported"@),
        is_step(step, new, old, DataExplorerBackendRequest::<Q>::OpenDataset { uri }) ==> new == old
            && (step matches RpcStep::Fail(m) && m@ == "Data Explorer: Not yet supported"@),
        is_step(step, new, old, DataExplorerBackendRequest::<Q>::SuggestCodeSyntax) ==> new == old
            && (step matches RpcStep::Done(DataExplorerBackendReply::SuggestCodeSyntaxReply(syntax))
            && syntax.code_syntax_name@ == "dplyr"@),
{
}

/// Without filters or keys, a request to filter or to sort is done at once, and the rows that
/// are shown follow.
pub proof fn law_nothing_to_filter_or_sort<Q>(
    step: RpcStep<Q>,
    new: RDataExplorer,
    old: RDataExplorer,
    filters: Vec<RowFilter>,
    keys: Vec<ColumnSortKey>,
)
    requires
        filters@.len() == 0,
        keys@.len() == 0,
    ensures
        is_step(step, new, old, DataExplorerBackendRequest::<Q>::SetRowFilters(filters)) ==> {
            &&& new.filtered_indices is None
            &&& new.sorted_indices == old.sorted_indices
            &&& view_rows(new.view_indices) == view_of(view_rows(new.sorted_indices), None)
            &&& step matches RpcStep::Done(DataExplorerBackendReply::SetRowFiltersReply(told))
                && told.selected_num_rows == old.shape.num_rows as i64 && told.had_errors is None
        },
        is_step(step, new, old, DataExplorerBackendRequest::<Q>::SetSortColumns(keys)) ==> {
            &&& new.sorted_indices is None
            &&& new.filtered_indices == old.filtered_indices
            &&& view_rows(new.view_indices) == view_of(None, view_rows(new.filtered_indices))
            &&& step == RpcStep::<Q>::Done(DataExplorerBackendReply::SetSortColumnsReply)
        },
{
}

/// What the data explorer can do, as the frontend is told.
pub proof fn law_supported_features(f: SupportedFeatures)
    requires
        are_supported_features(f),
    ensures
        f.get_column_profiles.0 == SupportStatus::Supported,
        f.get_column_profiles.1@.len() == 6,
        forall|i: int|
            0 <= i < 6 ==> (#[trigger] f.get_column_profiles.1@[i]).1 == SupportStatus::Supported,
        f.get_column_profiles.1@[0].0 == ColumnProfileType::NullCount,
        f.get_column_profiles.1@[1].0 == ColumnProfileType::SummaryStats,
        f.get_column_profiles.1@[2].0 == ColumnProfileType::SmallHistogram,
        f.get_column_profiles.1@[3].0 == ColumnProfileType::SmallFrequencyTable,
        f.get_column_profiles.1@[4].0 == ColumnProfileType::LargeHistogram,
        f.get_column_profiles.1@[5].0 == ColumnProfileType::LargeFrequencyTable,
        f.search_schema.0 == SupportStatus::Supported,
        f.search_schema.1@.len() == 2,
        f.search_schema.1@[0] == (ColumnFilterType::TextSearch, SupportStatus::Supported),
        f.search_schema.1@[1] == (ColumnFilterType::MatchDataTypes, SupportStatus::Supported),
        f.set_row_filters.0 == SupportStatus::Supported,
        f.set_row_filters.1@.len() == 11,
        forall|t: RowFilterType| #[trigger]
            f.set_row_filters.1@.contains((t, SupportStatus::Supported)),
        f.supports_conditions == SupportStatus::Unsupported,
        f.set_column_filters.0 == SupportStatus::Unsupported,
        f.set_column_filters.1@.len() == 0,
        f.set_sort_columns == SupportStatus::Supported,
        f.export_data_selection.0 == SupportStatus::Supported,
        f.export_data_selection.1@.len() == 3,
        f.export_data_selection.1@[0] == ExportFormat::Csv,
        f.export_data_selection.1@[1] == ExportFormat::Tsv,
        f.export_data_selection.1@[2] == ExportFormat::Html,
        f.convert_to_code.0 == SupportStatus::Supported,
        f.convert_to_code.1@.len() == 1,
        f.convert_to_code.1@[0].code_syntax_name@ == "dplyr"@,
{
    let on = SupportStatus::Supported;
    assert forall|t: RowFilterType| #[trigger] f.set_row_filters.1@.contains((t, on)) by {
        let s = f.set_row_filters.1@;
        match t {
            RowFilterType::Between => assert(s[0] == (t, on)),
            RowFilterType::Compare => assert(s[1] == (t, on)),
            RowFilterType::IsEmpty => assert(s[2] == (t, on)),
            RowFilterType::IsFalse => assert(s[3] == (t, on)),
            RowFilterType::IsNull => assert(s[4] == (t, on)),
            RowFilterType::IsTrue => assert(s[5] == (t, on)),
            RowFilterType::NotBetween => assert(s[6] == (t, on)),
            RowFilterType::NotEmpty => assert(s[7] == (t, on)),
            RowFilterType::NotNull => assert(s[8] == (t, on)),
            RowFilterType::Search => assert(s[9] == (t, on)),
            RowFilterType::SetMembership => assert(s[10] == (t, on)),
        }
    }
}

/// What R tells of the values of a column is shown value by value.
pub proof fn law_values_are_shown_one_by_one(data: ColumnData, options: FormatOptions, i: int)
    requires
        0 <= i < formatted_column(data, options).len(),
    ensures
        values_of(data, options).len() == formatted_column(data, options).len(),
        values_of(data, options)[i] == column_value(formatted_column(data, options)[i]),
{
}

/// The rows that are left by the filters, as R tells them.
pub open spec fn are_filtered_rows(
    r: Result<FilteredRows, &'static str>,
    e: RDataExplorer,
    indices: Option<Vec<i32>>,
    errors: Option<Vec<Option<String>>>,
) -> bool {
    if e.row_filters@.len() == 0 {
        &&& r matches Ok(f)
        &&& f.errors@.len() == 0
        &&& f.indices@.len() == (if e.shape.num_rows > 0 {
            e.shape.num_rows as int
        } else {
            0
        })
        &&& forall|i: int| 0 <= i < f.indices@.len() ==> #[trigger] f.indices@[i] == i + 1
    } else {
        match (indices, errors) {
            (None, _) => r matches Err(m) && m@
                == "Unexpected output from .ps.filter_rows. Expected 'indices' field."@,
            (Some(_), None) => r matches Err(m) && m@
                == "Unexpected output from .ps.filter_rows. Expected 'errors' field."@,
            (Some(i), Some(e)) => r == Ok::<FilteredRows, &'static str>(
                FilteredRows { indices: i, errors: e },
            ),
        }
    }
}

/// What comes of R's answer to a request to sort rows.
pub open spec fn sorting_is_done(
    r: Result<DataExplorerBackendReply, String>,
    new: RDataExplorer,
    old: RDataExplorer,
    sorted: Result<Vec<i32>, String>,
) -> bool {
    match sorted {
        Ok(rows) => {
            &&& r == Ok::<DataExplorerBackendReply, String>(
                DataExplorerBackendReply::SetSortColumnsReply,
            )
            &&& same_table(new, old)
            &&& new.sort_keys == old.sort_keys
            &&& new.row_filters == old.row_filters
            &&& new.filtered_indices == old.filtered_indices
            &&& new.sorted_indices == Some(rows)
            &&& view_up_to_date(new)
        },
        Err(m) => new == old && r == Err::<
            DataExplorerBackendReply,
            String,
        >(m),
    }
}

/// The labels of rows, from their names.
pub open spec fn are_row_labels(
    r: Result<DataExplorerBackendReply, String>,
    names: RowNames,
    options: FormatOptions,
) -> bool {
    match names {
        RowNames::Strings(data) => {
            &&& r matches Ok(DataExplorerBackendReply::GetRowLabelsReply { row_labels })
            &&& row_labels@.len() == 1
            &&& text::texts(row_labels@[0]@) == formatted_column(data, options).map_values(
                |v: Formatted| display_text(v),
            )
        },
        RowNames::Other(kind) => r matches Err(m) && m@
            == "`row.names` should be strings, got "@ + kind@,
    }
}

/// A view of a table that was just opened.
pub open spec fn is_view(
    r: Result<RDataExplorer, &'static str>,
    x: RObject,
    title: Option<String>,
    var: Option<String>,
    env: Option<RObject>,
    shape: Result<DataObjectShape, &'static str>,
) -> bool {
    match shape {
        Ok(s) => {
            &&& r matches Ok(e)
            &&& e.title@ == match title {
                Some(t) => t@,
                None => Seq::empty(),
            }
            &&& e.table.0 == x
            &&& e.binding == match (env, var) {
                (Some(env), Some(name)) => Some(DataObjectEnvInfo { name, env }),
                _ => None,
            }
            &&& e.shape == s
            &&& e.sort_keys@.len() == 0
            &&& e.row_filters@.len() == 0
            &&& e.sorted_indices is None
            &&& e.filtered_indices is None
            &&& e.view_indices is None
        },
        Err(m) => r == Err::<RDataExplorer, &'static str>(m),
    }
}

/// Without filters all rows are left, from the first to the last. With filters R tells the rows,
/// and what became of each filter.
pub proof fn law_rows_that_are_left(
    r: Result<FilteredRows, &'static str>,
    e: RDataExplorer,
    indices: Vec<i32>,
    errors: Vec<Option<String>>,
)
    ensures
        e.row_filters@.len() == 0 && e.shape.num_rows >= 0 && are_filtered_rows(
            r,
            e,
            Some(indices),
            Some(errors),
        ) ==> (r matches Ok(f) && f.errors@.len() == 0 && f.indices@.len() == e.shape.num_rows
            && forall|i: int| 0 <= i < f.indices@.len() ==> #[trigger] f.indices@[i] == i + 1),
        e.row_filters@.len() > 0 && are_filtered_rows(r, e, Some(indices), Some(errors)) ==> (r
            matches Ok(f) && f.indices == indices && f.errors == errors),
        e.row_filters@.len() > 0 && are_filtered_rows(r, e, None, Some(errors)) ==> (r
            matches Err(m) && m@
            == "Unexpected output from .ps.filter_rows. Expected 'indices' field."@),
        e.row_filters@.len() > 0 && are_filtered_rows(r, e, Some(indices), None) ==> (r
            matches Err(m) && m@
            == "Unexpected output from .ps.filter_rows. Expected 'errors' field."@),
{
}

/// Rows that R sorted are shown in their new order, as far as the filters leave them. If R
/// fails, nothing changes.
pub proof fn law_sorted_rows_are_shown(
    r: Result<DataExplorerBackendReply, String>,
    new: RDataExplorer,
    old: RDataExplorer,
    rows: Vec<i32>,
    why: String,
)
    ensures
        sorting_is_done(r, new, old, Ok(rows)) ==> {
            &&& r == Ok::<DataExplorerBackendReply, String>(
                DataExplorerBackendReply::SetSortColumnsReply,
            )
            &&& new.sorted_indices == Some(rows)
            &&& new.filtered_indices == old.filtered_indices
            &&& new.row_filters == old.row_filters
            &&& new.sort_keys == old.sort_keys
            &&& new.shape == old.shape
            &&& view_rows(new.view_indices) == view_of(Some(rows@), view_rows(old.filtered_indices))
        },
        sorting_is_done(r, new, old, Err(why)) ==> new == old && r == Err::<
            DataExplorerBackendReply,
            String,
        >(why),
{
}

/// Rows are labelled by their names, if these are strings, in one column of labels.
pub proof fn law_rows_are_labelled(
    r: Result<DataExplorerBackendReply, String>,
    data: ColumnData,
    kind: String,
    options: FormatOptions,
    i: int,
)
    requires
        0 <= i < formatted_column(data, options).len(),
    ensures
        are_row_labels(r, RowNames::Strings(data), options) ==> (r matches Ok(
            DataExplorerBackendReply::GetRowLabelsReply { row_labels },
        ) && row_labels@.len() == 1 && row_labels@[0]@.len() == formatted_column(data, options).len()
            && row_labels@[0]@[i]@ == display_text(formatted_column(data, options)[i])),
        are_row_labels(r, RowNames::Other(kind), options) ==> (r matches Err(m) && m@
            == "`row.names` should be strings, got "@ + kind@),
{
    if are_row_labels(r, RowNames::Strings(data), options) {
        if let Ok(DataExplorerBackendReply::GetRowLabelsReply { row_labels }) = r {
            let labels = text::texts(row_labels@[0]@);
            assert(labels.len() == formatted_column(data, options).len());
            assert(labels[i] == display_text(formatted_column(data, options)[i]));
        }
    }
}

/// A table that was just opened is shown whole and as it is. It is watched only if both its
/// name and its environment are known.
pub proof fn law_opened_views(
    r: Result<RDataExplorer, &'static str>,
    x: RObject,
    title: Option<String>,
    var: Option<String>,
    env: Option<RObject>,
    shape: DataObjectShape,
)
    requires
        is_view(r, x, title, var, env, Ok(shape)),
    ensures
        r matches Ok(e) && e.table.0 == x && e.shape == shape && e.sort_keys@.len() == 0
            && e.row_filters@.len() == 0 && e.sorted_indices is None && e.filtered_indices is None
            && e.view_indices is None && e.binding is Some == (env is Some && var is Some) && (
        e.binding is Some ==> e.binding->0.name == var->0 && e.binding->0.env == env->0) && (title
            is Some ==> e.title@ == title->0@) && (title is None ==> e.title@.len() == 0),
{
}

} // verus!
