use ark::data_explorer::column_profile::{
    frequency_table_params, histogram_params, profile_column, profiles_or_empty,
    tbl_get_filtered_column, ColumnFacts, ColumnProfileParams, ColumnProfileType, ProfileAnswer,
    ProfileSpec,
};
use ark::data_explorer::data_explorer_comm::ColumnDisplayType;
use ark::data_explorer::histogram::{ColumnFrequencyTableParams, FrequencyAnswer};
use ark::data_explorer::summary_stats::{
    get_count, summary_function, summary_stats, StatValue, StatsAnswer, SummaryStatsBoolean,
    SummaryStatsDate, SummaryStatsDatetime, SummaryStatsNumber, SummaryStatsString,
};
use ark::data_explorer::utils::VectorType;

fn number(n: i32) -> StatValue {
    StatValue::Int(n)
}

fn date(x: &str) -> StatValue {
    StatValue::Text(x.to_string())
}

fn named(x: Vec<(&str, StatValue)>, timezone: Option<&str>) -> StatsAnswer {
    StatsAnswer::Named {
        stats: x.into_iter().map(|(n, v)| (n.to_string(), v)).collect(),
        timezone: timezone.map(|t| t.to_string()),
    }
}

#[test]
fn test_numeric_summary() {
    let answer = StatsAnswer::Formatted(
        [
            ("min_value", "1.00"),
            ("max_value", "5.00"),
            ("mean", "3.00"),
            ("median", "3.00"),
            ("stdev", "1.58"),
        ]
        .iter()
        .map(|(n, v)| (n.to_string(), v.to_string()))
        .collect(),
    );
    let stats = summary_stats(ColumnDisplayType::Number, answer).unwrap();
    let expected = SummaryStatsNumber {
        min_value: Some("1.00".to_string()),
        max_value: Some("5.00".to_string()),
        mean: Some("3.00".to_string()),
        median: Some("3.00".to_string()),
        stdev: Some("1.58".to_string()),
    };
    assert_eq!(stats.number_stats, Some(expected));
}

#[test]
fn test_numeric_all_nas() {
    let stats =
        summary_stats(ColumnDisplayType::Number, StatsAnswer::Formatted(vec![])).unwrap();
    let expected = SummaryStatsNumber {
        min_value: None,
        max_value: None,
        mean: None,
        median: None,
        stdev: None,
    };
    assert_eq!(stats.number_stats, Some(expected));
}

#[test]
fn test_string_summary() {
    let answer = named(vec![("num_empty", number(1)), ("num_unique", number(5))], None);
    let stats = summary_stats(ColumnDisplayType::String, answer).unwrap();
    let expected = SummaryStatsString {
        num_empty: 1,
        num_unique: 5,
    };
    assert_eq!(stats.string_stats, Some(expected));
}

#[test]
fn test_string_summary_for_factors() {
    let answer = named(vec![("num_empty", number(1)), ("num_unique", number(5))], None);
    let stats = summary_stats(ColumnDisplayType::String, answer).unwrap();
    let expected = SummaryStatsString {
        num_empty: 1,
        num_unique: 5,
    };
    assert_eq!(stats.string_stats, Some(expected));
    assert!(stats.number_stats.is_none());
}

#[test]
fn test_boolean_summary() {
    let answer = named(vec![("true_count", number(3)), ("false_count", number(1))], None);
    let stats = summary_stats(ColumnDisplayType::Boolean, answer).unwrap();
    let expected = SummaryStatsBoolean {
        true_count: 3,
        false_count: 1,
    };
    assert_eq!(stats.boolean_stats, Some(expected));
}

#[test]
fn test_date_summary() {
    let answer = named(
        vec![
            ("min_date", date("2021-01-01")),
            ("mean_date", date("2021-01-02")),
            ("median_date", date("2021-01-02")),
            ("max_date", date("2021-01-04")),
            ("num_unique", number(5)),
        ],
        None,
    );
    let stats = summary_stats(ColumnDisplayType::Date, answer).unwrap();
    let expected = SummaryStatsDate {
        min_date: Some("2021-01-01".to_string()),
        mean_date: Some("2021-01-02".to_string()),
        median_date: Some("2021-01-02".to_string()),
        max_date: Some("2021-01-04".to_string()),
        num_unique: Some(5),
    };
    assert_eq!(stats.date_stats, Some(expected));
}

#[test]
fn test_datetime_summary() {
    let answer = named(
        vec![
            ("num_unique", number(2)),
            ("min_date", date("2015-07-24 23:15:07")),
            ("mean_date", date("2015-07-24 23:15:07")),
            ("median_date", date("2015-07-24 23:15:07")),
            ("max_date", date("2015-07-24 23:15:07")),
        ],
        Some("Japan"),
    );
    let stats = summary_stats(ColumnDisplayType::Datetime, answer).unwrap();
    let expected = SummaryStatsDatetime {
        num_unique: Some(2),
        min_date: Some("2015-07-24 23:15:07".to_string()),
        mean_date: Some("2015-07-24 23:15:07".to_string()),
        median_date: Some("2015-07-24 23:15:07".to_string()),
        max_date: Some("2015-07-24 23:15:07".to_string()),
        timezone: Some("Japan".to_string()),
    };
    assert_eq!(stats.datetime_stats, Some(expected));
}

#[test]
fn test_date_all_na() {
    let answer = named(
        vec![
            ("num_unique", number(1)),
            ("min_date", StatValue::Other),
            ("mean_date", StatValue::Other),
            ("median_date", StatValue::Other),
            ("max_date", StatValue::Other),
        ],
        None,
    );
    let stats = summary_stats(ColumnDisplayType::Date, answer).unwrap();
    let expected = SummaryStatsDate {
        num_unique: Some(1),
        min_date: None,
        mean_date: None,
        median_date: None,
        max_date: None,
    };
    assert_eq!(stats.date_stats, Some(expected));
}

#[test]
fn missing_statistics_are_named() {
    let stats = vec![("a".to_string(), number(1)), ("b".to_string(), StatValue::Other)];
    assert_eq!(get_count(&stats, "a"), Ok(1));
    assert_eq!(get_count(&stats, "b"), Err("Can't cast to return type.".to_string()));
    assert_eq!(get_count(&stats, "c"), Err("Missing stat c".to_string()));
    let repeated = vec![("a".to_string(), number(1)), ("a".to_string(), number(2))];
    assert_eq!(get_count(&repeated, "a"), Ok(2));
}

#[test]
fn other_types_have_no_statistics() {
    assert_eq!(summary_function(ColumnDisplayType::Number), Ok("summary_stats_number"));
    assert_eq!(summary_function(ColumnDisplayType::Datetime), Ok("summary_stats_date"));
    assert_eq!(summary_function(ColumnDisplayType::Object), Err("Unkown type"));
    assert_eq!(
        summary_stats(ColumnDisplayType::Object, named(vec![], None)).unwrap_err(),
        "Unkown type"
    );
    assert_eq!(
        summary_stats(ColumnDisplayType::Date, StatsAnswer::Failed("no".to_string())).unwrap_err(),
        "no"
    );
}

fn facts() -> ColumnFacts {
    ColumnFacts {
        classes: None,
        vector_type: VectorType::Character,
        display_type: ColumnDisplayType::String,
    }
}

fn spec(profile_type: ColumnProfileType, answer: ProfileAnswer) -> ProfileSpec<f64> {
    ProfileSpec { profile_type, params: None, answer }
}

#[test]
fn a_failed_profile_leaves_the_others() {
    let table = FrequencyAnswer {
        values: Some(vec!["a".to_string()]),
        counts: Some(vec![2]),
        other_count: None,
    };
    let r = profile_column(Some(facts()), vec![
        spec(ColumnProfileType::NullCount, ProfileAnswer::NullCount(3)),
        spec(ColumnProfileType::SmallHistogram, ProfileAnswer::Failed),
        spec(ColumnProfileType::LargeFrequencyTable, ProfileAnswer::FrequencyTable(
            FrequencyAnswer { values: None, counts: None, other_count: None },
        )),
        ProfileSpec {
            profile_type: ColumnProfileType::SmallFrequencyTable,
            params: Some(ColumnProfileParams::SmallFrequencyTable(ColumnFrequencyTableParams {
                limit: 8,
            })),
            answer: ProfileAnswer::FrequencyTable(table),
        },
    ]);
    assert_eq!(r.null_count, Some(3));
    assert!(r.small_histogram.is_none());
    assert!(r.large_frequency_table.is_none());
    assert_eq!(r.small_frequency_table.unwrap().counts, vec![2]);
    assert!(r.summary_stats.is_none());
}

#[test]
fn the_last_profile_of_a_type_counts() {
    let r = profile_column(Some(facts()), vec![
        spec(ColumnProfileType::NullCount, ProfileAnswer::NullCount(3)),
        spec(ColumnProfileType::NullCount, ProfileAnswer::Failed),
    ]);
    assert_eq!(r.null_count, None);
    let r = profile_column(None, vec![
        spec(ColumnProfileType::NullCount, ProfileAnswer::NullCount(3)),
    ]);
    assert_eq!(r.null_count, None);
}

#[test]
fn profiles_need_their_parameters() {
    let none: Option<ColumnProfileParams<f64>> = None;
    assert_eq!(histogram_params(&none).unwrap_err(), "Missing parameters for the histogram");
    assert_eq!(
        frequency_table_params(&none).unwrap_err(),
        "Missing parameters for the frequency table"
    );
    let table = Some(ColumnProfileParams::<f64>::LargeFrequencyTable(
        ColumnFrequencyTableParams { limit: 4 },
    ));
    assert_eq!(histogram_params(&table).unwrap_err(), "Wrong type of parameters for the histogram.");
    assert_eq!(frequency_table_params(&table).unwrap().limit, 4);
}

#[test]
fn profiles_that_cannot_be_computed_are_empty() {
    let r = profiles_or_empty::<f64>(None, 2);
    assert_eq!(r.len(), 2);
    assert!(r[0].null_count.is_none());
    assert_eq!(profiles_or_empty::<f64>(Some(vec![]), 2).len(), 0);
}

#[test]
fn a_column_is_asked_for_with_the_rows_that_are_kept() {
    let q = tbl_get_filtered_column(2, &Some(vec![1, 4]));
    assert_eq!((q.column, q.rows), (2, Some(vec![1, 4])));
}
