use ark::data_explorer::histogram::{
    histogram_request, profile_frequency_table, profile_histogram, ColumnFrequencyTable,
    ColumnFrequencyTableParams, ColumnHistogram, ColumnHistogramParams,
    ColumnHistogramParamsMethod, ColumnQuantileValue, FrequencyAnswer, HistogramAnswer,
    HistogramError,
};
use ark::data_explorer::utils::VectorType;

fn strings(x: &[&str]) -> Vec<String> {
    x.iter().map(|v| v.to_string()).collect()
}

/// What a column is to R.
#[derive(Clone, Copy)]
enum Column {
    Integer,
    Double,
    Date,
    Posixct,
}

fn facts(column: Column) -> (Option<Vec<String>>, VectorType) {
    match column {
        Column::Integer => (None, VectorType::Integer),
        Column::Double => (None, VectorType::Double),
        Column::Date => (Some(strings(&["Date"])), VectorType::Double),
        Column::Posixct => (Some(strings(&["POSIXct", "POSIXt"])), VectorType::Double),
    }
}

fn test_histogram_of(
    column: Column,
    method: ColumnHistogramParamsMethod,
    name: &str,
    num_bins: i64,
    bin_edges: Vec<&str>,
    bin_counts: Vec<i64>,
) {
    let params = ColumnHistogramParams::<f64> { method, num_bins, quantiles: None };
    let (classes, vector_type) = facts(column);
    let request = histogram_request(&classes, vector_type, &params).unwrap();
    assert_eq!(request.method, name);
    assert_eq!(request.num_bins as i64, num_bins);

    let answer = HistogramAnswer {
        bin_edges: Some(strings(&bin_edges)),
        quantiles: Some(vec![]),
        bin_counts: Some(bin_counts.iter().map(|c| *c as i32).collect()),
    };
    let hist = profile_histogram(answer, &params).unwrap();
    assert_eq!(hist, ColumnHistogram { bin_edges: strings(&bin_edges), bin_counts, quantiles: vec![] })
}

fn test_histogram(column: Column, num_bins: i64, bin_edges: Vec<&str>, bin_counts: Vec<i64>) {
    test_histogram_of(
        column,
        ColumnHistogramParamsMethod::Fixed,
        "fixed",
        num_bins,
        bin_edges,
        bin_counts,
    )
}

fn test_histogram_method(column: Column, name: &str, bin_edges: Vec<&str>, bin_counts: Vec<i64>) {
    let method = match name {
        "sturges" => ColumnHistogramParamsMethod::Sturges,
        "fd" => ColumnHistogramParamsMethod::FreedmanDiaconis,
        "scott" => ColumnHistogramParamsMethod::Scott,
        _ => panic!("No method with this name"),
    };
    test_histogram_of(column, method, name, 100000, bin_edges, bin_counts)
}

fn test_quantiles(quantiles: Vec<f64>, expected: &[&str]) {
    let params = ColumnHistogramParams {
        method: ColumnHistogramParamsMethod::Fixed,
        num_bins: 4,
        quantiles: Some(quantiles.clone()),
    };
    let answer = HistogramAnswer {
        bin_edges: Some(strings(&["0", "1"])),
        quantiles: Some(strings(expected)),
        bin_counts: Some(vec![5]),
    };
    let hist = profile_histogram(answer, &params).unwrap();
    let expected: Vec<ColumnQuantileValue<f64>> = quantiles
        .into_iter()
        .zip(expected)
        .map(|(q, v)| ColumnQuantileValue { q, value: v.to_string(), exact: true })
        .collect();
    assert_eq!(hist.quantiles, expected);
}

fn test_frequency_table(
    limit: i64,
    values: &[&str],
    counts: Vec<i64>,
    others: i32,
    other_count: Option<i64>,
) {
    let answer = FrequencyAnswer {
        values: Some(strings(values)),
        counts: Some(counts.iter().map(|c| *c as i32).collect()),
        other_count: Some(others),
    };
    let table =
        profile_frequency_table(answer, &ColumnFrequencyTableParams { limit }).unwrap();
    assert_eq!(table, ColumnFrequencyTable { values: strings(values), counts, other_count });
}

#[test]
fn test_basic_histograms() {
    let edges = vec!["0", "2", "4", "6", "8", "10"];
    test_histogram(Column::Integer, 5, edges.clone(), vec![3, 2, 2, 2, 2]);
    test_histogram_method(Column::Integer, "sturges", edges, vec![3, 2, 2, 2, 2]);
    test_histogram_method(Column::Integer, "scott", vec!["0", "5", "10"], vec![6, 5]);
    test_histogram_method(Column::Integer, "fd", vec!["0.00", "3.33", "6.67", "10.00"], vec![
        4, 3, 4,
    ]);
}

#[test]
fn test_date_histogram() {
    test_histogram(
        Column::Date,
        4,
        vec![
            "2000-01-01 00:00:00",
            "2000-01-03 12:00:00",
            "2000-01-06 00:00:00",
            "2000-01-08 12:00:00",
            "2000-01-11 00:00:00",
        ],
        vec![3, 3, 2, 3],
    );
    test_histogram(
        Column::Date,
        10,
        vec!["2000-01-01 00:00:00", "2000-01-01 12:00:00", "2000-01-02 00:00:00"],
        vec![100, 100],
    );
    let edges = vec![
        "2000-01-01 00:00:00",
        "2000-01-01 16:00:00",
        "2000-01-02 08:00:00",
        "2000-01-03 00:00:00",
    ];
    test_histogram(Column::Date, 10, edges.clone(), vec![100, 0, 100]);
    test_histogram_method(Column::Date, "sturges", edges.clone(), vec![100, 0, 100]);
    test_histogram_method(Column::Date, "fd", edges, vec![100, 0, 100]);
    test_histogram_method(Column::Date, "scott", vec!["2000-01-01", "2000-01-03"], vec![200]);
}

#[test]
fn test_constant_column() {
    // This is the default `hist` behavior, single bin containing all info.
    test_histogram(Column::Double, 4, vec!["0.00", "1.00"], vec![3]);
    test_histogram_method(Column::Double, "sturges", vec!["0.00", "1.00"], vec![3])
}

#[test]
fn test_integers() {
    test_histogram(Column::Integer, 5, vec!["1.00", "1.50", "2.00"], vec![100, 100]);
    let edges = vec!["1.00", "1.67", "2.33", "3.00"];
    test_histogram(Column::Integer, 3, edges.clone(), vec![100, 0, 100]);
    test_histogram(Column::Integer, 2, vec!["1", "2", "3"], vec![100, 100]);
    test_histogram_method(Column::Integer, "sturges", edges, vec![100, 0, 100]);
}

#[test]
fn test_posixct() {
    let edges = vec![
        "2017-05-17 00:00:00",
        "2017-05-17 00:00:00",
        "2017-05-17 00:00:01",
        "2017-05-17 00:00:02",
        "2017-05-17 00:00:03",
    ];
    test_histogram(Column::Posixct, 10, edges.clone(), vec![10, 10, 10, 10]);
    test_histogram_method(Column::Posixct, "sturges", edges, vec![10, 10, 10, 10]);
}

#[test]
fn test_quantile_numerics() {
    test_quantiles(vec![0.5], &["3.00"]);
    test_quantiles(vec![0.5, 0.9], &["0.1000", "0.1000"]);
    test_quantiles(vec![0., 0.5, 1.], &["1.00", "1.50", "2.00"]);
    test_quantiles(vec![0.5, 0.9], &["NA", "NA"]);
    test_quantiles(vec![0.5, 0.9], &["1.00", "1.00"]);
}

#[test]
fn test_quantiles_dates() {
    test_quantiles(vec![0.5], &["2010-01-02"]);
    test_quantiles(vec![0.5], &["2010-01-01 12:00:00"]);
    test_quantiles(vec![0.5], &["2010-01-01 00:00:01"]);
}

#[test]
fn test_frequency_table_strings() {
    test_frequency_table(10, &["b", "c", "a"], vec![200, 150, 100], 0, None);
    test_frequency_table(2, &["b", "c"], vec![200, 150], 100, Some(100));
}

#[test]
fn test_frequency_table_factors() {
    test_frequency_table(10, &["b", "c", "a"], vec![200, 150, 100], 0, None);
    test_frequency_table(2, &["b", "c"], vec![200, 150], 100, Some(100));
    test_frequency_table(10, &["b", "a", "c"], vec![200, 100, 0], 0, None);
}

#[test]
fn test_frequency_table_numerics_and_dates() {
    test_frequency_table(
        100,
        &["1.00", "0.9000", "0.8000", "0.7000", "0.6000", "0.5000", "0.4000", "0.3000", "0.2000",
            "0.1000", "0.00"],
        vec![11, 10, 9, 8, 7, 6, 5, 4, 3, 2, 1],
        0,
        None,
    );
    test_frequency_table(
        5,
        &["1.00", "0.9000", "0.8000", "0.7000", "0.6000"],
        vec![11, 10, 9, 8, 7],
        21,
        Some(21),
    );
    test_frequency_table(5, &["Inf", "-Inf"], vec![1, 1], 0, None);
    test_frequency_table(5, &["10", "9", "8", "7", "6"], vec![11, 10, 9, 8, 7], 21, Some(21));
    test_frequency_table(5, &["2017-05-17 11:00:00", "2010-01-01 00:00:00"], vec![200, 100], 0, None);
}

#[test]
fn test_frequency_table_haven_labelled() {
    test_frequency_table(10, &["B", "C", "A"], vec![200, 150, 100], 0, None);
    test_frequency_table(10, &["B", "A", "C"], vec![200, 100, 0], 0, None);
}

#[test]
fn test_limit_bins() {
    let params = ColumnHistogramParams::<f64> {
        method: ColumnHistogramParamsMethod::FreedmanDiaconis,
        num_bins: 10,
        quantiles: None,
    };
    assert_eq!(histogram_request(&None, VectorType::Double, &params).unwrap().num_bins, 10);
    let answer = HistogramAnswer {
        bin_edges: Some((0..11).map(|i| i.to_string()).collect()),
        quantiles: Some(vec![]),
        bin_counts: Some(vec![10; 10]),
    };
    let hist = profile_histogram(answer, &params).unwrap();
    assert_eq!(hist.bin_edges.len(), 11);
    assert_eq!(hist.bin_counts.len(), 10);
}

#[test]
fn columns_without_numbers_have_no_histogram() {
    let params = ColumnHistogramParams::<f64> {
        method: ColumnHistogramParamsMethod::Fixed,
        num_bins: 10,
        quantiles: None,
    };
    assert_eq!(
        histogram_request(&None, VectorType::Character, &params),
        Err(HistogramError::UnsupportedType)
    );
    assert_eq!(
        histogram_request(&Some(strings(&["factor"])), VectorType::Integer, &params),
        Err(HistogramError::UnsupportedClass)
    );
}

#[test]
fn answers_that_make_no_histogram_are_errors() {
    let params = ColumnHistogramParams::<f64> {
        method: ColumnHistogramParamsMethod::Fixed,
        num_bins: 10,
        quantiles: None,
    };
    let failure = |edges: Option<Vec<String>>, quantiles, counts| {
        let answer = HistogramAnswer { bin_edges: edges, quantiles, bin_counts: counts };
        profile_histogram(answer, &params).unwrap_err()
    };
    let edges = || Some(strings(&["0", "1", "2"]));
    assert_eq!(failure(None, None, None), "`bin_edges` were not computed.");
    assert_eq!(failure(edges(), None, None), "`quantiles` were not computed");
    assert_eq!(failure(edges(), Some(vec![]), None), "`bin_counts` were not computed.");
    assert_eq!(
        failure(edges(), Some(vec![]), Some(vec![1])),
        "`bin_counts` not compatible with `bin_edges`. `bin_counts.len()` (1) and \
         `bin_edges_formatted.len()` (3)"
    );
}

#[test]
fn answers_that_make_no_frequency_table_are_errors() {
    let failure = |values: Option<Vec<String>>, counts: Option<Vec<i32>>| {
        let answer = FrequencyAnswer { values, counts, other_count: None };
        profile_frequency_table(answer, &ColumnFrequencyTableParams { limit: 1 }).unwrap_err()
    };
    assert!(failure(None, None).contains("`values`"));
    assert!(failure(Some(vec![]), None).contains("`counts`"));
    assert!(failure(Some(strings(&["a"])), Some(vec![3])).contains("`others_count`"));
}
