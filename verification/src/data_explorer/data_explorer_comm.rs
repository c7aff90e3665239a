//! What the data explorer and its frontend tell each other.
use vstd::prelude::*;

use crate::data_explorer::column_profile::{ColumnProfileParams, ColumnProfileType};
use crate::data_explorer::export_selection::{ExportFormat, TableSelection};
use crate::data_explorer::format::{ColumnValue, FormatOptions};
use crate::text;

verus! {

/// How the elements of a column are shown.
#[derive(Clone, Copy, Debug, PartialEq, Eq, Structural)]
pub enum ColumnDisplayType {
    Boolean,
    String,
    Date,
    Datetime,
    Time,
    Interval,
    Number,
    Integer,
    Floating,
    Decimal,
    Object,
    Array,
    Struct,
    Unknown,
}

/// A column of a table.
#[derive(Debug, PartialEq, Eq)]
pub struct ColumnSchema {
    pub column_name: String,
    pub column_label: Option<String>,
    pub column_index: i64,
    /// The name of the column's type.
    pub type_label: String,
    pub type_display: ColumnDisplayType,
}

/// What a column stands for.
#[verifier::ext_equal]
pub struct ColumnModel {
    pub column_name: Seq<char>,
    pub column_label: Option<Seq<char>>,
    pub column_index: i64,
    pub type_label: Seq<char>,
    pub type_display: ColumnDisplayType,
}

impl View for ColumnSchema {
    type V = ColumnModel;

    open spec fn view(&self) -> ColumnModel {
        ColumnModel {
            column_name: self.column_name@,
            column_label: text::opt_text(self.column_label),
            column_index: self.column_index,
            type_label: self.type_label@,
            type_display: self.type_display,
        }
    }
}

/// What columns stand for.
pub open spec fn column_models(columns: Seq<ColumnSchema>) -> Seq<ColumnModel> {
    columns.map_values(|c: ColumnSchema| c@)
}

/// A copy of an optional string.
pub fn copy_option(s: &Option<String>) -> (r: Option<String>)
    ensures
        r == *s,
{
    match s {
        Some(t) => Some(t.clone()),
        None => None,
    }
}

impl ColumnSchema {
    /// A copy of the column.
    pub fn copied(&self) -> (r: ColumnSchema)
        ensures
            r == *self,
    {
        ColumnSchema {
            column_name: self.column_name.clone(),
            column_label: copy_option(&self.column_label),
            column_index: self.column_index,
            type_label: self.type_label.clone(),
            type_display: self.type_display,
        }
    }

    /// Whether two columns are the same.
    pub fn same(&self, other: &ColumnSchema) -> (r: bool)
        ensures
            r == (self@ == other@),
    {
        let same_label: bool = match (&self.column_label, &other.column_label) {
            (Some(a), Some(b)) => text::same(a.as_str(), b.as_str()),
            (None, None) => true,
            _ => false,
        };
        text::same(self.column_name.as_str(), other.column_name.as_str()) && same_label
            && self.column_index == other.column_index && text::same(
            self.type_label.as_str(),
            other.type_label.as_str(),
        ) && self.type_display == other.type_display
    }
}

#[derive(Clone, Copy, Debug, PartialEq, Eq, Structural)]
pub enum RowFilterType {
    Between,
    Compare,
    IsEmpty,
    IsFalse,
    IsNull,
    IsTrue,
    NotBetween,
    NotEmpty,
    NotNull,
    Search,
    SetMembership,
}

#[derive(Clone, Copy, Debug, PartialEq, Eq, Structural)]
pub enum FilterComparisonOp {
    Eq,
    NotEq,
    Lt,
    LtEq,
    Gt,
    GtEq,
}

#[derive(Clone, Copy, Debug, PartialEq, Eq, Structural)]
pub enum TextSearchType {
    Contains,
    NotContains,
    StartsWith,
    EndsWith,
    RegexMatch,
}

#[derive(Debug, PartialEq, Eq)]
pub struct FilterComparison {
    pub op: FilterComparisonOp,
    pub value: String,
}

#[derive(Debug, PartialEq, Eq)]
pub struct FilterBetween {
    pub left_value: String,
    pub right_value: String,
}

#[derive(Debug, PartialEq, Eq)]
pub struct FilterTextSearch {
    pub search_type: TextSearchType,
    pub term: String,
    pub case_sensitive: bool,
}

#[derive(Debug, PartialEq, Eq)]
pub struct FilterSetMembership {
    pub values: Vec<String>,
    pub inclusive: bool,
}

#[derive(Debug, PartialEq, Eq)]
pub enum RowFilterParams {
    Between(FilterBetween),
    Comparison(FilterComparison),
    TextSearch(FilterTextSearch),
    SetMembership(FilterSetMembership),
}

/// How a filter goes together with those before it.
#[derive(Clone, Copy, Debug, PartialEq, Eq, Structural)]
pub enum RowFilterCondition {
    And,
    Or,
}

/// A filter of rows by the values of a column.
#[derive(Debug, PartialEq, Eq)]
pub struct RowFilter {
    pub filter_id: String,
    pub filter_type: RowFilterType,
    pub column_schema: ColumnSchema,
    pub condition: RowFilterCondition,
    pub is_valid: Option<bool>,
    pub error_message: Option<String>,
    pub params: Option<RowFilterParams>,
}

/// A copy of strings.
pub fn copy_strings(v: &Vec<String>) -> (r: Vec<String>)
    ensures
        r@ == v@,
{
    let mut r: Vec<String> = Vec::new();
    let n: usize = v.len();
    let mut i: usize = 0;
    while i < n
        invariant
            n == v@.len(),
            i <= n,
            r@ == v@.take(i as int),
        decreases n - i,
    {
        r.push(v[i].clone());
        i = i + 1;
    }
    r
}

/// Two parameters are the same, by what they hold.
pub open spec fn same_params(a: RowFilterParams, b: RowFilterParams) -> bool {
    match (a, b) {
        (RowFilterParams::SetMembership(x), RowFilterParams::SetMembership(y)) => x.values@
            == y.values@ && x.inclusive == y.inclusive,
        _ => a == b,
    }
}

/// Two filters are the same, by what they hold.
pub open spec fn same_filter(a: RowFilter, b: RowFilter) -> bool {
    &&& a.filter_id == b.filter_id
    &&& a.filter_type == b.filter_type
    &&& a.column_schema == b.column_schema
    &&& a.condition == b.condition
    &&& a.is_valid == b.is_valid
    &&& a.error_message == b.error_message
    &&& match (a.params, b.params) {
        (Some(x), Some(y)) => same_params(x, y),
        (None, None) => true,
        _ => false,
    }
}

impl RowFilterParams {
    /// A copy of the parameters.
    pub fn copied(&self) -> (r: RowFilterParams)
        ensures
            same_params(r, *self),
    {
        match self {
            RowFilterParams::Between(p) => RowFilterParams::Between(
                FilterBetween {
                    left_value: p.left_value.clone(),
                    right_value: p.right_value.clone(),
                },
            ),
            RowFilterParams::Comparison(p) => RowFilterParams::Comparison(
                FilterComparison { op: p.op, value: p.value.clone() },
            ),
            RowFilterParams::TextSearch(p) => RowFilterParams::TextSearch(
                FilterTextSearch {
                    search_type: p.search_type,
                    term: p.term.clone(),
                    case_sensitive: p.case_sensitive,
                },
            ),
            RowFilterParams::SetMembership(p) => RowFilterParams::SetMembership(
                FilterSetMembership { values: copy_strings(&p.values), inclusive: p.inclusive },
            ),
        }
    }
}

impl RowFilter {
    /// A copy of the filter.
    pub fn copied(&self) -> (r: RowFilter)
        ensures
            same_filter(r, *self),
    {
        RowFilter {
            filter_id: self.filter_id.clone(),
            filter_type: self.filter_type,
            column_schema: self.column_schema.copied(),
            condition: self.condition,
            is_valid: self.is_valid,
            error_message: copy_option(&self.error_message),
            params: match &self.params {
                Some(p) => Some(p.copied()),
                None => None,
            },
        }
    }
}

/// A key by which rows are sorted.
#[derive(Clone, Copy, Debug, PartialEq, Eq, Structural)]
pub struct ColumnSortKey {
    pub column_index: i64,
    pub ascending: bool,
}

/// Lines of code.
#[derive(Debug, PartialEq, Eq)]
pub struct ConvertedCode {
    pub converted_code: Vec<String>,
}

/// The name of a syntax of code.
#[derive(Debug, PartialEq, Eq)]
pub struct CodeSyntaxName {
    pub code_syntax_name: String,
}

#[derive(Clone, Copy, Debug, PartialEq, Eq, Structural)]
pub enum ColumnFilterType {
    TextSearch,
    MatchDataTypes,
}

#[derive(Debug, PartialEq, Eq)]
pub enum ColumnFilterParams {
    TextSearch(FilterTextSearch),
    MatchDataTypes { display_types: Vec<ColumnDisplayType> },
}

/// A filter of columns by their names or types.
#[derive(Debug, PartialEq, Eq)]
pub struct ColumnFilter {
    pub filter_type: ColumnFilterType,
    pub params: ColumnFilterParams,
}

/// Two filters of columns are the same, by what they hold.
pub open spec fn same_column_filter(a: ColumnFilter, b: ColumnFilter) -> bool {
    &&& a.filter_type == b.filter_type
    &&& match (a.params, b.params) {
        (
            ColumnFilterParams::MatchDataTypes { display_types: x },
            ColumnFilterParams::MatchDataTypes { display_types: y },
        ) => x@ == y@,
        _ => a.params == b.params,
    }
}

impl ColumnFilter {
    /// A copy of the filter.
    pub fn copied(&self) -> (r: ColumnFilter)
        ensures
            same_column_filter(r, *self),
    {
        let params: ColumnFilterParams = match &self.params {
            ColumnFilterParams::TextSearch(p) => ColumnFilterParams::TextSearch(
                FilterTextSearch {
                    search_type: p.search_type,
                    term: p.term.clone(),
                    case_sensitive: p.case_sensitive,
                },
            ),
            ColumnFilterParams::MatchDataTypes { display_types } => {
                let mut types: Vec<ColumnDisplayType> = Vec::new();
                let n: usize = display_types.len();
                let mut i: usize = 0;
                while i < n
                    invariant
                        n == display_types@.len(),
                        i <= n,
                        types@ == display_types@.take(i as int),
                    decreases n - i,
                {
                    types.push(display_types[i]);
                    i = i + 1;
                }
                assert(types@ =~= display_types@);
                ColumnFilterParams::MatchDataTypes { display_types: types }
            },
        };
        ColumnFilter { filter_type: self.filter_type, params }
    }
}

/// The order in which the columns that a search finds are told.
#[derive(Clone, Copy, Debug, PartialEq, Eq, Structural)]
pub enum SearchSchemaSortOrder {
    Original,
    AscendingName,
    DescendingName,
    AscendingType,
    DescendingType,
}

#[derive(Debug, PartialEq, Eq)]
pub struct SearchSchemaParams {
    pub filters: Vec<ColumnFilter>,
    pub sort_order: SearchSchemaSortOrder,
}

/// What is selected of a row or column. Indices count from zero, and a range holds
/// its last index.
#[derive(Debug, PartialEq, Eq)]
pub enum ArraySelection {
    SelectRange { first_index: i64, last_index: i64 },
    SelectIndices { indices: Vec<i64> },
}

/// What is selected of a column.
#[derive(Debug, PartialEq, Eq)]
pub struct ColumnSelection {
    pub column_index: i64,
    pub selection: ArraySelection,
}

/// The profiles of a column that are asked for.
#[derive(Debug)]
pub struct ColumnProfileRequest<Q> {
    pub column_index: i64,
    pub profiles: Vec<(ColumnProfileType, Option<ColumnProfileParams<Q>>)>,
}

#[derive(Debug)]
pub struct GetColumnProfilesParams<Q> {
    /// By which the frontend knows the profiles again, which are sent later.
    pub callback_id: String,
    pub profiles: Vec<ColumnProfileRequest<Q>>,
    pub format_options: FormatOptions,
}

#[derive(Debug)]
pub enum DataExplorerBackendRequest<Q> {
    GetSchema { column_indices: Vec<i64> },
    SearchSchema(SearchSchemaParams),
    GetDataValues { columns: Vec<ColumnSelection>, format_options: FormatOptions },
    GetRowLabels { rows: ArraySelection, format_options: FormatOptions },
    ExportDataSelection { selection: TableSelection, format: ExportFormat },
    ConvertToCode { row_filters: Vec<RowFilter>, sort_keys: Vec<ColumnSortKey> },
    SuggestCodeSyntax,
    SetColumnFilters(Vec<ColumnFilter>),
    SetRowFilters(Vec<RowFilter>),
    SetSortColumns(Vec<ColumnSortKey>),
    GetColumnProfiles(GetColumnProfilesParams<Q>),
    OpenDataset { uri: String },
    GetState,
}

#[derive(Clone, Copy, Debug, PartialEq, Eq, Structural)]
pub struct FilterResult {
    pub selected_num_rows: i64,
    pub had_errors: Option<bool>,
}

#[derive(Clone, Copy, Debug, PartialEq, Eq, Structural)]
pub struct TableShape {
    pub num_rows: i64,
    pub num_columns: i64,
}

#[derive(Clone, Copy, Debug, PartialEq, Eq, Structural)]
pub enum SupportStatus {
    Unsupported,
    Supported,
}

/// What the data explorer can do.
#[derive(Debug, PartialEq, Eq)]
pub struct SupportedFeatures {
    pub get_column_profiles: (SupportStatus, Vec<(ColumnProfileType, SupportStatus)>),
    pub search_schema: (SupportStatus, Vec<(ColumnFilterType, SupportStatus)>),
    pub set_row_filters: (SupportStatus, Vec<(RowFilterType, SupportStatus)>),
    /// Whether row filters can be joined by conditions.
    pub supports_conditions: SupportStatus,
    pub set_column_filters: (SupportStatus, Vec<(ColumnFilterType, SupportStatus)>),
    pub set_sort_columns: SupportStatus,
    pub export_data_selection: (SupportStatus, Vec<ExportFormat>),
    pub convert_to_code: (SupportStatus, Vec<CodeSyntaxName>),
}

/// The state of the data explorer.
#[derive(Debug, PartialEq, Eq)]
pub struct BackendState {
    pub display_name: String,
    pub connected: Option<bool>,
    pub error_message: Option<String>,
    /// The shape of what the filters keep.
    pub table_shape: TableShape,
    pub table_unfiltered_shape: TableShape,
    pub row_filters: Vec<RowFilter>,
    pub column_filters: Vec<ColumnFilter>,
    pub sort_keys: Vec<ColumnSortKey>,
    pub has_row_labels: bool,
    pub supported_features: SupportedFeatures,
}

#[derive(Debug, PartialEq, Eq)]
pub enum DataExplorerBackendReply {
    GetSchemaReply { columns: Vec<ColumnSchema> },
    SearchSchemaReply { matches: Vec<i64> },
    GetDataValuesReply { values: Vec<Vec<ColumnValue>> },
    GetRowLabelsReply { row_labels: Vec<Vec<String>> },
    ExportDataSelectionReply { data: String, format: ExportFormat },
    ConvertToCodeReply(ConvertedCode),
    SuggestCodeSyntaxReply(CodeSyntaxName),
    SetRowFiltersReply(FilterResult),
    SetSortColumnsReply,
    GetColumnProfilesReply,
    GetStateReply(BackendState),
}

/// What the frontend is told without having asked.
#[derive(Clone, Copy, Debug, PartialEq, Eq, Structural)]
pub enum DataExplorerFrontendEvent {
    SchemaUpdate,
    DataUpdate,
}

/// Two filters are the same if everything about them is.
pub proof fn law_filters_are_the_same(a: RowFilter, b: RowFilter, c: ColumnFilter, d: ColumnFilter)
    ensures
        same_filter(a, b) ==> {
            &&& a.filter_id == b.filter_id
            &&& a.filter_type == b.filter_type
            &&& a.column_schema == b.column_schema
            &&& a.condition == b.condition
            &&& a.is_valid == b.is_valid
            &&& a.error_message == b.error_message
            &&& a.params is Some == b.params is Some
            &&& a.params is Some && a.params->0 is SetMembership ==> b.params->0
                is SetMembership && a.params->0->SetMembership_0.values@
                == b.params->0->SetMembership_0.values@ && a.params->0->SetMembership_0.inclusive
                == b.params->0->SetMembership_0.inclusive
            &&& a.params is Some && !(a.params->0 is SetMembership) ==> a.params == b.params
        },
        same_column_filter(c, d) ==> {
            &&& c.filter_type == d.filter_type
            &&& c.params is TextSearch ==> c.params == d.params
            &&& c.params is MatchDataTypes ==> d.params is MatchDataTypes
                && c.params->display_types@ == d.params->display_types@
        },
{
}

/// The columns of a schema are told one by one.
pub proof fn law_columns_are_told(columns: Seq<ColumnSchema>, i: int)
    requires
        0 <= i < columns.len(),
    ensures
        column_models(columns).len() == columns.len(),
        column_models(columns)[i].column_name == columns[i].column_name@,
        column_models(columns)[i].column_index == columns[i].column_index,
        column_models(columns)[i].type_label == columns[i].type_label@,
        column_models(columns)[i].type_display == columns[i].type_display,
        column_models(columns)[i].column_label is Some == columns[i].column_label is Some,
        columns[i].column_label matches Some(l) ==> column_models(columns)[i].column_label == Some(
            l@,
        ),
{
}

} // verus!
