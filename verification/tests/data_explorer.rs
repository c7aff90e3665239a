use ark::comm_handler::EnvironmentChanged;
use ark::data_explorer::column_profile::{
    profile_column, profile_request, ColumnFacts, ColumnProfileParams, ColumnProfileType,
    ProfileAnswer, ProfileRequest, ProfileSpec,
};
use ark::data_explorer::convert_to_code::{
    convert_to_code, escape_regex, quote_string, row_filter_to_dplyr,
};
use ark::data_explorer::data_explorer_comm::{
    ArraySelection, ColumnDisplayType, ColumnFilter, ColumnFilterParams, ColumnFilterType,
    ColumnSchema, ColumnSelection, ColumnSortKey, DataExplorerBackendReply,
    DataExplorerBackendRequest, DataExplorerFrontendEvent, FilterComparison, FilterComparisonOp,
    FilterResult, FilterTextSearch, RowFilter, RowFilterCondition, RowFilterParams, RowFilterType,
    SearchSchemaParams, SearchSchemaSortOrder, SupportStatus, TextSearchType,
};
use ark::data_explorer::export_selection::{
    kind_fits, ExportFormat, Selection, TableSelection, TableSelectionKind,
};
use ark::data_explorer::format::{
    can_format, can_pad, ColumnData, ColumnValue, DblText, FormatOptions,
};
use ark::data_explorer::histogram::{
    ColumnFrequencyTableParams, ColumnHistogramParams, ColumnHistogramParamsMethod,
};
use ark::data_explorer::r_data_explorer::{
    after_update, combine_rows, data_values, exported, handle_environment, is_valid_filter,
    ps_view_data_frame, row_labels, AfterUpdate, ColumnProbe, DataObjectShape, FilteredRows,
    OnEnvironment, RDataExplorer, RowNames, RpcStep, TableKind, TableProbe, UpdateStep,
};
use ark::data_explorer::schema_search::search_schema;
use ark::data_explorer::sorting::{sort_ascending, text_before};
use ark::data_explorer::utils::{display_type, ColumnType, VectorType};
use ark::r_object::RObject;

type Request = DataExplorerBackendRequest<f64>;

fn column_type(vector_type: VectorType, classes: &[&str]) -> ColumnType {
    ColumnType {
        is_s4: false,
        is_object: !classes.is_empty(),
        classes: classes.iter().map(|c| c.to_string()).collect(),
        vector_type,
    }
}

fn probe(name: &str, label: Option<&str>, type_label: &str, vector_type: VectorType) -> ColumnProbe {
    ColumnProbe {
        name: Some(name.to_string()),
        label: label.map(|l| l.to_string()),
        type_label: type_label.to_string(),
        column_type: column_type(vector_type, &[]),
    }
}

fn table() -> TableProbe {
    TableProbe {
        kind: TableKind::Dataframe,
        num_rows: 4,
        columns: vec![
            probe("beta", Some("A label"), "int", VectorType::Integer),
            probe("Alpha", Some("  "), "chr", VectorType::Character),
            probe("gamma", None, "Dbl", VectorType::Double),
        ],
    }
}

fn shape() -> Result<DataObjectShape, &'static str> {
    RDataExplorer::get_shape(Some(table()))
}

fn explorer() -> RDataExplorer {
    ps_view_data_frame(
        RObject { address: 1 },
        Some("title".to_string()),
        Some("df".to_string()),
        Some(RObject { address: 2 }),
        shape(),
    )
    .unwrap()
}

fn options() -> FormatOptions {
    FormatOptions {
        large_num_digits: 2,
        small_num_digits: 4,
        max_integral_digits: 7,
        max_value_length: 100,
        thousands_sep: None,
    }
}

fn filter(column: &str, filter_type: RowFilterType, params: Option<RowFilterParams>) -> RowFilter {
    RowFilter {
        filter_id: "f".to_string(),
        filter_type,
        column_schema: ColumnSchema {
            column_name: column.to_string(),
            column_label: None,
            column_index: 0,
            type_label: "chr".to_string(),
            type_display: ColumnDisplayType::String,
        },
        condition: RowFilterCondition::And,
        is_valid: None,
        error_message: None,
        params,
    }
}

fn sort(e: &mut RDataExplorer, rows: Vec<i32>) {
    let keys = vec![ColumnSortKey { column_index: 2, ascending: false }];
    let step = e.handle_rpc(Request::SetSortColumns(keys));
    assert!(matches!(
        step,
        RpcStep::SortRows(s) if s.columns == vec![2] && s.decreasing == vec![true]
    ));
    assert_eq!(e.rows_sorted(Ok(rows)), Ok(DataExplorerBackendReply::SetSortColumnsReply));
}

fn keep(e: &mut RDataExplorer, rows: Vec<i32>, error: Option<&str>) {
    let filters = vec![filter("Alpha", RowFilterType::NotEmpty, None)];
    assert!(matches!(e.handle_rpc(Request::SetRowFilters(filters)), RpcStep::FilterRows));
    let n = rows.len() as i64;
    let answer = FilteredRows { indices: rows, errors: vec![error.map(|m| m.to_string())] };
    assert_eq!(
        e.rows_filtered(Ok(answer)),
        Ok(DataExplorerBackendReply::SetRowFiltersReply(FilterResult {
            selected_num_rows: n,
            had_errors: Some(error.is_some()),
        }))
    );
}

#[test]
fn a_table_has_a_shape() {
    let s = shape().unwrap();
    assert_eq!(s.columns.len(), 3);
    assert_eq!(s.columns[0].column_label, Some("A label".to_string()));
    assert_eq!(s.columns[1].column_label, None);
    assert_eq!(s.columns[2].column_index, 2);
    assert_eq!(s.columns[1].type_display, ColumnDisplayType::String);

    let mut matrix = table();
    matrix.kind = TableKind::Matrix;
    matrix.columns[1].name = None;
    let s = RDataExplorer::get_shape(Some(matrix)).unwrap();
    assert_eq!(s.columns[0].column_label, None);
    assert_eq!(s.columns[1].column_name, "");

    assert_eq!(
        RDataExplorer::get_shape(None).unwrap_err(),
        "Unsupported type for the data viewer"
    );
    assert!(ps_view_data_frame(
        RObject { address: 1 },
        None,
        None,
        None,
        RDataExplorer::get_shape(None)
    )
    .is_err());
}

#[test]
fn a_variable_is_watched_by_name_and_environment() {
    let e = ps_view_data_frame(RObject { address: 1 }, None, None, Some(RObject { address: 2 }), shape())
        .unwrap();
    assert!(e.binding.is_none());
    assert_eq!(e.title, "");
    assert!(explorer().binding.is_some());
}

#[test]
fn sorted_rows_that_pass_the_filters_are_shown() {
    let mut e = explorer();
    assert_eq!(e.view_indices, None);
    sort(&mut e, vec![4, 2, 1, 3]);
    assert_eq!(e.view_indices, Some(vec![4, 2, 1, 3]));
    keep(&mut e, vec![1, 3, 4], None);
    assert_eq!(e.view_indices, Some(vec![4, 1, 3]));
    assert_eq!(e.row_filters[0].is_valid, Some(true));

    // Without sort keys the rows are those that pass, in the order of the table
    assert!(matches!(
        e.handle_rpc(Request::SetSortColumns(vec![])),
        RpcStep::Done(DataExplorerBackendReply::SetSortColumnsReply)
    ));
    assert_eq!(e.view_indices, Some(vec![1, 3, 4]));
    assert!(matches!(
        e.handle_rpc(Request::SetRowFilters(vec![])),
        RpcStep::Done(DataExplorerBackendReply::SetRowFiltersReply(FilterResult {
            selected_num_rows: 4,
            had_errors: None,
        }))
    ));
    assert_eq!(e.view_indices, None);
}

#[test]
fn filters_that_fail_say_why() {
    let mut e = explorer();
    keep(&mut e, vec![], Some("bad"));
    assert_eq!(e.row_filters[0].is_valid, Some(false));
    assert_eq!(e.row_filters[0].error_message, Some("bad".to_string()));
    assert_eq!(e.rows_filtered(Err("R failed".to_string())), Err("R failed".to_string()));
    assert_eq!(e.rows_sorted(Err("R failed".to_string())), Err("R failed".to_string()));
}

#[test]
fn rows_are_combined() {
    assert_eq!(combine_rows(&None, &None), None);
    assert_eq!(combine_rows(&Some(vec![3, 1, 2]), &None), Some(vec![3, 1, 2]));
    assert_eq!(combine_rows(&None, &Some(vec![1, 2])), Some(vec![1, 2]));
    assert_eq!(combine_rows(&Some(vec![3, 1, 2]), &Some(vec![2, 3])), Some(vec![3, 2]));
}

#[test]
fn filter_answers_need_both_fields() {
    let mut e = explorer();
    let all = e.filter_rows(None, None).unwrap();
    assert_eq!(all.indices, vec![1, 2, 3, 4]);
    e.row_filters.push(filter("Alpha", RowFilterType::IsEmpty, None));
    assert_eq!(
        e.filter_rows(None, None).unwrap_err(),
        "Unexpected output from .ps.filter_rows. Expected 'indices' field."
    );
    assert_eq!(
        e.filter_rows(Some(vec![]), None).unwrap_err(),
        "Unexpected output from .ps.filter_rows. Expected 'errors' field."
    );
    assert_eq!(e.filter_rows(Some(vec![2]), Some(vec![None])).unwrap().indices, vec![2]);
}

#[test]
fn data_is_read_by_rows_that_are_shown() {
    let mut e = explorer();
    sort(&mut e, vec![4, 2, 1, 3]);
    let columns = vec![
        ColumnSelection {
            column_index: 1,
            selection: ArraySelection::SelectRange { first_index: 1, last_index: 9 },
        },
        ColumnSelection {
            column_index: 0,
            selection: ArraySelection::SelectIndices { indices: vec![3, 0, 8] },
        },
    ];
    let step = e.handle_rpc(Request::GetDataValues { columns, format_options: options() });
    let RpcStep::ReadColumns { subsets, .. } = step else { panic!("no columns") };
    assert_eq!((&subsets[0].rows, &subsets[0].columns), (&vec![2, 1, 3], &vec![2]));
    assert_eq!((&subsets[1].rows, &subsets[1].columns), (&vec![3, 4], &vec![1]));

    let reply = data_values(&vec![ColumnData::Integer(vec![Some(7), None])], &options());
    let DataExplorerBackendReply::GetDataValuesReply { values } = reply else { panic!("reply") };
    assert_eq!(values[0], vec![
        ColumnValue::FormattedValue("7".to_string()),
        ColumnValue::SpecialValueCode(1)
    ]);
}

#[test]
fn row_labels_are_strings() {
    let mut e = explorer();
    let step = e.handle_rpc(Request::GetRowLabels {
        rows: ArraySelection::SelectRange { first_index: 0, last_index: 1 },
        format_options: options(),
    });
    assert!(matches!(
        step,
        RpcStep::ReadRowLabels { subset, .. } if subset.rows == vec![1, 2] && subset.columns.is_empty()
    ));
    let names = RowNames::Strings(ColumnData::Character(vec![Some("r1".to_string())]));
    assert!(matches!(
        row_labels(&names, &options()),
        Ok(DataExplorerBackendReply::GetRowLabelsReply { row_labels })
            if row_labels == vec![vec!["r1".to_string()]]
    ));
    assert_eq!(
        row_labels(&RowNames::Other("13".to_string()), &options()).unwrap_err(),
        "`row.names` should be strings, got 13"
    );
}

#[test]
fn selections_are_exported() {
    let mut e = explorer();
    keep(&mut e, vec![2, 4], None);
    let selection = TableSelection {
        kind: TableSelectionKind::SingleCell,
        selection: Selection::SingleCell { row_index: 1, column_index: 2 },
    };
    let step =
        e.handle_rpc(Request::ExportDataSelection { selection, format: ExportFormat::Tsv });
    let RpcStep::Export { request, format } = step else { panic!("no export") };
    assert_eq!(request.rows, Some(vec![4]));
    assert_eq!(request.columns, Some(vec![3]));
    assert_eq!((request.format, request.include_header), ("tsv", false));
    assert!(matches!(
        exported(Ok("x".to_string()), format),
        Ok(DataExplorerBackendReply::ExportDataSelectionReply { .. })
    ));
}

#[test]
fn schemas_are_told_in_order() {
    let mut e = explorer();
    let step = e.handle_rpc(Request::GetSchema { column_indices: vec![7, 2, 0, 2] });
    let RpcStep::Done(DataExplorerBackendReply::GetSchemaReply { columns }) = step else {
        panic!("no schema")
    };
    let names: Vec<&str> = columns.iter().map(|c| c.column_name.as_str()).collect();
    assert_eq!(names, vec!["beta", "gamma", "gamma"]);
    let step = e.handle_rpc(Request::GetSchema { column_indices: vec![2, -5] });
    assert!(matches!(step, RpcStep::Fail(m) if m == "Column index out of range -5"));
}

fn search(order: SearchSchemaSortOrder, filters: Vec<ColumnFilter>) -> Vec<i64> {
    let columns = shape().unwrap().columns;
    search_schema(&columns, &SearchSchemaParams { filters, sort_order: order })
}

fn text_filter(search_type: TextSearchType, term: &str, case_sensitive: bool) -> ColumnFilter {
    ColumnFilter {
        filter_type: ColumnFilterType::TextSearch,
        params: ColumnFilterParams::TextSearch(FilterTextSearch {
            search_type,
            term: term.to_string(),
            case_sensitive,
        }),
    }
}

#[test]
fn searches_find_and_sort_columns() {
    assert_eq!(search(SearchSchemaSortOrder::Original, vec![]), vec![0, 1, 2]);
    assert_eq!(search(SearchSchemaSortOrder::AscendingName, vec![]), vec![1, 0, 2]);
    assert_eq!(search(SearchSchemaSortOrder::DescendingName, vec![]), vec![2, 0, 1]);
    assert_eq!(search(SearchSchemaSortOrder::AscendingType, vec![]), vec![1, 2, 0]);
    assert_eq!(search(SearchSchemaSortOrder::DescendingType, vec![]), vec![0, 2, 1]);

    let found = |t, term, sensitive| search(SearchSchemaSortOrder::Original, vec![text_filter(t, term, sensitive)]);
    assert_eq!(found(TextSearchType::Contains, "A", true), vec![1]);
    assert_eq!(found(TextSearchType::Contains, "ALPHA", false), vec![1]);
    assert_eq!(found(TextSearchType::NotContains, "et", true), vec![1, 2]);
    assert_eq!(found(TextSearchType::StartsWith, "G", false), vec![2]);
    assert_eq!(found(TextSearchType::EndsWith, "ta", true), vec![0]);
    assert_eq!(found(TextSearchType::RegexMatch, "a.*", true), Vec::<i64>::new());

    let by_type = |types| ColumnFilter {
        filter_type: ColumnFilterType::MatchDataTypes,
        params: ColumnFilterParams::MatchDataTypes { display_types: types },
    };
    assert_eq!(search(SearchSchemaSortOrder::Original, vec![by_type(vec![ColumnDisplayType::Number])]), vec![0, 2]);
    let wrong = ColumnFilter {
        filter_type: ColumnFilterType::MatchDataTypes,
        params: text_filter(TextSearchType::Contains, "a", true).params,
    };
    assert_eq!(search(SearchSchemaSortOrder::Original, vec![wrong]), Vec::<i64>::new());
}

#[test]
fn equal_names_keep_their_order() {
    let mut columns = shape().unwrap().columns;
    for c in columns.iter_mut() {
        c.column_name = "same".to_string();
    }
    let params = SearchSchemaParams {
        filters: vec![],
        sort_order: SearchSchemaSortOrder::DescendingName,
    };
    assert_eq!(search_schema(&columns, &params), vec![0, 1, 2]);
    assert!(text_before("a", "ab") && text_before("Z", "a") && !text_before("é", "z"));
    assert_eq!(sort_ascending(vec![3, -1, 3, 2]), vec![-1, 2, 3, 3]);
}

#[test]
fn the_state_is_told() {
    let mut e = explorer();
    assert!(matches!(e.handle_rpc(Request::GetState), RpcStep::ReadRowNames));
    keep(&mut e, vec![1, 2], None);
    let DataExplorerBackendReply::GetStateReply(s) = e.get_state(true) else { panic!("state") };
    assert_eq!(s.display_name, "title");
    assert_eq!((s.table_shape.num_rows, s.table_unfiltered_shape.num_rows), (2, 4));
    assert_eq!(s.table_shape.num_columns, 3);
    assert_eq!(s.row_filters.len(), 1);
    assert!(s.has_row_labels);
    let f = s.supported_features;
    assert_eq!(f.set_row_filters.1.len(), 11);
    assert_eq!(f.get_column_profiles.1[0].0, ColumnProfileType::NullCount);
    assert_eq!(f.supports_conditions, SupportStatus::Unsupported);
    assert_eq!(f.convert_to_code.1[0].code_syntax_name, "dplyr");
}

#[test]
fn some_requests_are_refused() {
    let mut e = explorer();
    for request in
        [Request::SetColumnFilters(vec![]), Request::OpenDataset { uri: "x".to_string() }]
    {
        assert!(matches!(
            e.handle_rpc(request),
            RpcStep::Fail(m) if m == "Data Explorer: Not yet supported"
        ));
    }
}

#[test]
fn an_unchanged_object_needs_no_update() {
    let mut e = explorer();
    assert!(!e.update(RObject { address: 1 }));
    assert!(e.update(RObject { address: 9 }));
    assert_eq!(e.table.get().address, 9);
    let mut unwatched =
        ps_view_data_frame(RObject { address: 1 }, None, None, None, shape()).unwrap();
    assert!(!unwatched.update(RObject { address: 9 }));
}

#[test]
fn new_data_is_sorted_and_filtered_again() {
    let mut e = explorer();
    sort(&mut e, vec![4, 2, 1, 3]);
    keep(&mut e, vec![1, 3], None);
    assert_eq!(
        e.update_shape(shape()),
        Ok(UpdateStep::Recompute { schema_changed: false, sort: true, filter: true })
    );
    let answer = FilteredRows { indices: vec![2, 3], errors: vec![None] };
    assert_eq!(
        e.finish_update(false, Some(Ok(vec![3, 2, 1])), Some(Ok(answer))),
        Ok(DataExplorerFrontendEvent::DataUpdate)
    );
    assert_eq!(e.view_indices, Some(vec![3, 2]));
    assert_eq!(
        e.finish_update(false, Some(Err("no".to_string())), None),
        Err("no".to_string())
    );
}

#[test]
fn new_columns_bring_filters_up_to_date() {
    let mut e = explorer();
    sort(&mut e, vec![4, 2, 1, 3]);
    e.row_filters = vec![
        filter("Alpha", RowFilterType::Search, None),
        filter("gamma", RowFilterType::Search, None),
        filter("gone", RowFilterType::Search, None),
    ];
    let mut t = table();
    t.columns[0].name = Some("delta".to_string());
    assert_eq!(
        e.update_shape(RDataExplorer::get_shape(Some(t))),
        Ok(UpdateStep::Recompute { schema_changed: true, sort: false, filter: true })
    );
    assert_eq!(e.row_filters[0].is_valid, Some(true));
    assert_eq!(e.row_filters[0].error_message, None);
    assert_eq!(e.row_filters[1].is_valid, Some(false));
    assert_eq!(
        e.row_filters[1].error_message,
        Some("Unsupported column type for filter".to_string())
    );
    assert_eq!(e.row_filters[2].error_message, Some("Column was removed".to_string()));
    assert!(e.sort_keys.is_empty());
    assert_eq!(e.view_indices, None);

    assert_eq!(e.update_shape(RDataExplorer::get_shape(None)), Ok(UpdateStep::Close));
    e.row_filters = vec![filter("Alpha", RowFilterType::Compare, None)];
    assert_eq!(e.update_shape(shape()), Err("Missing compare_params for filter"));
}

#[test]
fn filters_suit_some_types() {
    let compare = |op| {
        Some(RowFilterParams::Comparison(FilterComparison { op, value: "1".to_string() }))
    };
    let valid = |t, params| is_valid_filter(&filter("Alpha", t, params));
    assert_eq!(valid(RowFilterType::Search, None), Ok(true));
    assert_eq!(valid(RowFilterType::IsTrue, None), Ok(false));
    assert_eq!(valid(RowFilterType::IsNull, None), Ok(true));
    assert_eq!(valid(RowFilterType::Between, None), Ok(false));
    assert_eq!(valid(RowFilterType::Compare, compare(FilterComparisonOp::Eq)), Ok(true));
    assert_eq!(valid(RowFilterType::Compare, compare(FilterComparisonOp::Lt)), Ok(false));
    assert_eq!(
        valid(RowFilterType::Compare, None),
        Err("Missing compare_params for filter")
    );
    let wrong = Some(RowFilterParams::TextSearch(FilterTextSearch {
        search_type: TextSearchType::Contains,
        term: String::new(),
        case_sensitive: true,
    }));
    assert_eq!(valid(RowFilterType::Compare, wrong), Err("Missing compare filter params"));
}

#[test]
fn updates_close_or_are_logged() {
    let executed = EnvironmentChanged::Execution {
        input_prompt: "> ".to_string(),
        continuation_prompt: "+ ".to_string(),
    };
    assert_eq!(handle_environment(&executed), OnEnvironment::Update);
    assert_eq!(handle_environment(&EnvironmentChanged::FrameSelected), OnEnvironment::Ignore);
    assert_eq!(after_update(&Ok(true)), AfterUpdate::Stay);
    assert_eq!(after_update(&Ok(false)), AfterUpdate::Close);
    assert_eq!(after_update(&Err("x".to_string())), AfterUpdate::LogError);
}

#[test]
fn views_become_code() {
    let mut e = explorer();
    let step = e.handle_rpc(Request::ConvertToCode {
        row_filters: vec![filter("Alpha", RowFilterType::IsNull, None)],
        sort_keys: vec![
            ColumnSortKey { column_index: 0, ascending: false },
            ColumnSortKey { column_index: 7, ascending: true },
        ],
    });
    let RpcStep::Done(DataExplorerBackendReply::ConvertToCodeReply(code)) = step else {
        panic!("no code")
    };
    assert_eq!(code.converted_code.len(), 3);
    assert_eq!(code.converted_code[0], "library(dplyr)");
    assert!(code.converted_code[2].starts_with("df |>"));
    assert!(code.converted_code[2].contains("is.na(Alpha)"));
    assert!(code.converted_code[2].contains("beta"));

    let plain = convert_to_code(&vec![], None, &vec![]);
    assert_eq!(plain.converted_code, vec!["library(dplyr)", "", "dat"]);
    assert_eq!(quote_string("a\"b"), "\"a\\\"b\"");
    assert!(row_filter_to_dplyr(&filter("Alpha", RowFilterType::Compare, None)).is_none());
}

#[test]
fn strings_and_patterns_are_escaped_once() {
    assert_eq!(quote_string(r"a\b"), r#""a\\b""#);
    assert_eq!(quote_string(r"a\"), r#""a\\""#);
    assert_eq!(quote_string(r#"\""#), r#""\\\"""#);
    assert_eq!(escape_regex("a.b"), r"a\.b");
    assert_eq!(escape_regex(r"a\b|(c)"), r"a\\b\|\(c\)");
    let search = |search_type, term: &str| {
        let params = RowFilterParams::TextSearch(FilterTextSearch {
            search_type,
            term: term.to_string(),
            case_sensitive: true,
        });
        row_filter_to_dplyr(&filter("x", RowFilterType::Search, Some(params))).unwrap()
    };
    assert_eq!(search(TextSearchType::StartsWith, "ab"), r#"grepl("^ab", x)"#);
    assert_eq!(search(TextSearchType::EndsWith, "a.b"), r#"grepl("a\\.b$", x)"#);
    assert_eq!(search(TextSearchType::Contains, "a.b"), r#"grepl("a.b", x, fixed = TRUE)"#);
    assert_eq!(search(TextSearchType::NotContains, "ab"), r#"!grepl("ab", x, fixed = TRUE)"#);
    assert_eq!(search(TextSearchType::RegexMatch, "a.b"), r#"grepl("a.b", x)"#);
}

#[test]
fn only_rows_that_are_shown_are_selected() {
    let e = explorer();
    let n = e.shape.num_rows as i64;
    let rows = |first_index, last_index| {
        e.get_row_selection_indices(&ArraySelection::SelectRange { first_index, last_index })
    };
    assert_eq!(rows(-2, 1), vec![0, 1]);
    assert_eq!(rows(n - 1, n + 5), vec![n - 1]);
    assert!(rows(n + 1, n + 5).is_empty());
    assert!(rows(-5, -1).is_empty());
    let some = ArraySelection::SelectIndices { indices: vec![1, -1, n, 0] };
    assert_eq!(e.get_row_selection_indices(&some), vec![1, 0]);
}

#[test]
fn types_are_shown_by_class_first() {
    assert_eq!(
        display_type(&column_type(VectorType::Integer, &["factor"])),
        ColumnDisplayType::String
    );
    assert_eq!(
        display_type(&column_type(VectorType::Double, &["haven_labelled", "double"])),
        ColumnDisplayType::String
    );
    assert_eq!(
        display_type(&column_type(VectorType::Double, &["POSIXct", "POSIXt"])),
        ColumnDisplayType::Datetime
    );
    assert_eq!(display_type(&column_type(VectorType::Double, &[])), ColumnDisplayType::Number);
    assert_eq!(display_type(&column_type(VectorType::List, &[])), ColumnDisplayType::Unknown);
}

#[test]
fn rows_are_combined_in_any_order() {
    let sorted = Some(vec![3, 1, 4, 2]);
    assert_eq!(combine_rows(&sorted, &Some(vec![2, 3])), Some(vec![3, 2]));
    assert_eq!(combine_rows(&sorted, &Some(vec![4, 1])), Some(vec![1, 4]));
    assert_eq!(combine_rows(&None, &Some(vec![4, 1])), Some(vec![4, 1]));
}

#[test]
fn r_is_asked_for_what_a_profile_needs() {
    let facts = ColumnFacts {
        classes: None,
        vector_type: VectorType::Double,
        display_type: ColumnDisplayType::Number,
    };
    let histogram = Some(ColumnProfileParams::SmallHistogram(ColumnHistogramParams {
        method: ColumnHistogramParamsMethod::FreedmanDiaconis,
        num_bins: 7,
        quantiles: Some(vec![1u8]),
    }));
    let none: Option<ColumnProfileParams<u8>> = None;
    assert!(matches!(
        profile_request(ColumnProfileType::SmallHistogram, &histogram, &facts),
        Some(ProfileRequest::Histogram { request, quantiles: Some(q) })
            if request.method == "fd" && request.num_bins == 7 && *q == vec![1]
    ));
    assert!(profile_request(ColumnProfileType::SmallHistogram, &none, &facts).is_none());
    assert!(profile_request(ColumnProfileType::LargeFrequencyTable, &histogram, &facts).is_none());
    assert!(matches!(
        profile_request(ColumnProfileType::SummaryStats, &none, &facts),
        Some(ProfileRequest::SummaryStats("summary_stats_number"))
    ));
    assert!(matches!(
        profile_request(ColumnProfileType::NullCount, &none, &facts),
        Some(ProfileRequest::NullCount)
    ));
    let table: Option<ColumnProfileParams<u8>> =
        Some(ColumnProfileParams::LargeFrequencyTable(ColumnFrequencyTableParams { limit: 5 }));
    assert!(matches!(
        profile_request(ColumnProfileType::LargeFrequencyTable, &table, &facts),
        Some(ProfileRequest::FrequencyTable { limit: 5 })
    ));
}

#[test]
fn the_last_profile_of_a_type_is_shown() {
    let facts = ColumnFacts {
        classes: None,
        vector_type: VectorType::Double,
        display_type: ColumnDisplayType::Number,
    };
    let spec = |answer| ProfileSpec::<u8> {
        profile_type: ColumnProfileType::NullCount,
        params: None,
        answer,
    };
    let specs = vec![spec(ProfileAnswer::NullCount(1)), spec(ProfileAnswer::NullCount(2))];
    let shown = profile_column(Some(facts), specs);
    assert_eq!(shown.null_count, Some(2));
    assert!(shown.summary_stats.is_none() && shown.small_histogram.is_none());
}

#[test]
fn what_cannot_be_looked_up_is_told() {
    let cell = Selection::SingleCell { row_index: 0, column_index: 0 };
    let fits = TableSelection { kind: TableSelectionKind::SingleCell, selection: cell };
    assert!(kind_fits(&fits));
    assert!(!kind_fits(&TableSelection { kind: TableSelectionKind::RowRange, ..fits }));
    assert!(can_pad("1e+5") && can_pad("1.5") && can_pad("1e+10"));
    assert!(!can_pad("1e"));
    assert!(!can_format(&ColumnData::Double(vec![DblText::VerySmall("1e".to_string())])));
    assert!(can_format(&ColumnData::Double(vec![DblText::Large("1e5".to_string())])));
}
