//! Summary statistics of columns.
use vstd::prelude::*;

use crate::data_explorer::data_explorer_comm::ColumnDisplayType;
use crate::text;

verus! {

#[derive(Debug, PartialEq, Eq)]
pub struct SummaryStatsNumber {
    pub min_value: Option<String>,
    pub max_value: Option<String>,
    pub mean: Option<String>,
    pub median: Option<String>,
    pub stdev: Option<String>,
}

#[derive(Clone, Copy, Debug, PartialEq, Eq, Structural)]
pub struct SummaryStatsString {
    pub num_empty: i64,
    pub num_unique: i64,
}

#[derive(Clone, Copy, Debug, PartialEq, Eq, Structural)]
pub struct SummaryStatsBoolean {
    pub true_count: i64,
    pub false_count: i64,
}

#[derive(Debug, PartialEq, Eq)]
pub struct SummaryStatsDate {
    pub num_unique: Option<i64>,
    pub min_date: Option<String>,
    pub mean_date: Option<String>,
    pub median_date: Option<String>,
    pub max_date: Option<String>,
}

#[derive(Debug, PartialEq, Eq)]
pub struct SummaryStatsDatetime {
    pub num_unique: Option<i64>,
    pub min_date: Option<String>,
    pub mean_date: Option<String>,
    pub median_date: Option<String>,
    pub max_date: Option<String>,
    pub timezone: Option<String>,
}

/// The statistics of a column: those of its type, and no others.
#[derive(Debug, PartialEq, Eq)]
pub struct ColumnSummaryStats {
    pub type_display: ColumnDisplayType,
    pub number_stats: Option<SummaryStatsNumber>,
    pub string_stats: Option<SummaryStatsString>,
    pub boolean_stats: Option<SummaryStatsBoolean>,
    pub date_stats: Option<SummaryStatsDate>,
    pub datetime_stats: Option<SummaryStatsDatetime>,
}

/// A statistic that R computed.
#[derive(Debug)]
pub enum StatValue {
    Int(i32),
    Text(String),
    Other,
}

/// The place of the last statistic with a name.
pub open spec fn last_named<V>(stats: Seq<(String, V)>, name: Seq<char>) -> Option<int>
    decreases stats.len(),
{
    if stats.len() == 0 {
        None
    } else if stats.last().0@ == name {
        Some(stats.len() - 1)
    } else {
        last_named(stats.drop_last(), name)
    }
}

/// The last statistic with a name.
fn find_stat<'a, V>(stats: &'a Vec<(String, V)>, name: &str) -> (r: Option<&'a V>)
    ensures
        match r {
            Some(v) => last_named(stats@, name@) matches Some(i) && 0 <= i < stats@.len() && *v
                == stats@[i].1,
            None => last_named(stats@, name@) is None,
        },
{
    let mut i: usize = stats.len();
    assert(stats@.take(i as int) =~= stats@);
    while i > 0
        invariant
            i <= stats@.len(),
            last_named(stats@, name@) == last_named(stats@.take(i as int), name@),
        decreases i,
    {
        assert(stats@.take(i as int).drop_last() =~= stats@.take(i - 1));
        if text::same(stats[i - 1].0.as_str(), name) {
            return Some(&stats[i - 1].1);
        }
        i = i - 1;
    }
    None
}

/// The count that a statistic holds.
pub open spec fn count_stat(stats: Seq<(String, StatValue)>, name: Seq<char>) -> Option<i64> {
    match last_named(stats, name) {
        Some(i) => match stats[i].1 {
            StatValue::Int(n) => Some(n as i64),
            _ => None,
        },
        None => None,
    }
}

/// The text that a statistic holds.
pub open spec fn text_stat(stats: Seq<(String, StatValue)>, name: Seq<char>) -> Option<Seq<char>> {
    match last_named(stats, name) {
        Some(i) => match stats[i].1 {
            StatValue::Text(t) => Some(t@),
            _ => None,
        },
        None => None,
    }
}

/// Why a statistic holds no count, in words.
pub open spec fn stat_fault(stats: Seq<(String, StatValue)>, name: Seq<char>) -> Seq<char> {
    if last_named(stats, name) is None {
        "Missing stat "@ + name
    } else {
        "Can't cast to return type."@
    }
}

/// The count that a statistic holds, or why it holds none.
pub fn get_count(stats: &Vec<(String, StatValue)>, name: &str) -> (r: Result<i64, String>)
    ensures
        match r {
            Ok(n) => count_stat(stats@, name@) == Some(n),
            Err(m) => count_stat(stats@, name@) is None && m@ == stat_fault(stats@, name@),
        },
{
    match find_stat(stats, name) {
        None => Err(text::join2("Missing stat ", name)),
        Some(StatValue::Int(n)) => Ok(*n as i64),
        Some(_) => Err("Can't cast to return type.".to_owned()),
    }
}

/// The text that a statistic holds.
pub fn get_text(stats: &Vec<(String, StatValue)>, name: &str) -> (r: Option<String>)
    ensures
        text::opt_text(r) == text_stat(stats@, name@),
{
    match find_stat(stats, name) {
        Some(StatValue::Text(t)) => Some(t.clone()),
        _ => None,
    }
}

fn opt_count(stats: &Vec<(String, StatValue)>, name: &str) -> (r: Option<i64>)
    ensures
        r == count_stat(stats@, name@),
{
    match get_count(stats, name) {
        Ok(n) => Some(n),
        Err(_) => None,
    }
}

/// The formatted value with a name.
pub open spec fn value_named(stats: Seq<(String, String)>, name: Seq<char>) -> Option<Seq<char>> {
    match last_named(stats, name) {
        Some(i) => Some(stats[i].1@),
        None => None,
    }
}

fn get_value(stats: &Vec<(String, String)>, name: &str) -> (r: Option<String>)
    ensures
        text::opt_text(r) == value_named(stats@, name@),
{
    match find_stat(stats, name) {
        Some(v) => Some(v.clone()),
        None => None,
    }
}

/// The statistics hold the values with their names.
pub open spec fn is_number_stats(s: SummaryStatsNumber, stats: Seq<(String, String)>) -> bool {
    &&& text::opt_text(s.min_value) == value_named(stats, "min_value"@)
    &&& text::opt_text(s.max_value) == value_named(stats, "max_value"@)
    &&& text::opt_text(s.mean) == value_named(stats, "mean"@)
    &&& text::opt_text(s.median) == value_named(stats, "median"@)
    &&& text::opt_text(s.stdev) == value_named(stats, "stdev"@)
}

/// The statistics of numbers, from formatted values with their names.
pub fn summary_stats_number(stats: &Vec<(String, String)>) -> (r: SummaryStatsNumber)
    ensures
        is_number_stats(r, stats@),
{
    SummaryStatsNumber {
        min_value: get_value(stats, "min_value"),
        max_value: get_value(stats, "max_value"),
        mean: get_value(stats, "mean"),
        median: get_value(stats, "median"),
        stdev: get_value(stats, "stdev"),
    }
}

/// Two counts, or why the first of them that is missing is so.
pub open spec fn two_counts(
    stats: Seq<(String, StatValue)>,
    a: Seq<char>,
    b: Seq<char>,
) -> Result<(i64, i64), Seq<char>> {
    match (count_stat(stats, a), count_stat(stats, b)) {
        (None, _) => Err(stat_fault(stats, a)),
        (Some(_), None) => Err(stat_fault(stats, b)),
        (Some(x), Some(y)) => Ok((x, y)),
    }
}

/// The statistics of strings.
pub fn summary_stats_string(stats: &Vec<(String, StatValue)>) -> (r: Result<
    SummaryStatsString,
    String,
>)
    ensures
        match r {
            Ok(s) => two_counts(stats@, "num_empty"@, "num_unique"@) == Ok::<
                (i64, i64),
                Seq<char>,
            >((s.num_empty, s.num_unique)),
            Err(m) => two_counts(stats@, "num_empty"@, "num_unique"@) == Err::<
                (i64, i64),
                Seq<char>,
            >(m@),
        },
{
    let num_empty: i64 = match get_count(stats, "num_empty") {
        Ok(n) => n,
        Err(m) => {
            return Err(m);
        },
    };
    match get_count(stats, "num_unique") {
        Ok(num_unique) => Ok(SummaryStatsString { num_empty, num_unique }),
        Err(m) => Err(m),
    }
}

/// The statistics of logical values.
pub fn summary_stats_boolean(stats: &Vec<(String, StatValue)>) -> (r: Result<
    SummaryStatsBoolean,
    String,
>)
    ensures
        match r {
            Ok(s) => two_counts(stats@, "true_count"@, "false_count"@) == Ok::<
                (i64, i64),
                Seq<char>,
            >((s.true_count, s.false_count)),
            Err(m) => two_counts(stats@, "true_count"@, "false_count"@) == Err::<
                (i64, i64),
                Seq<char>,
            >(m@),
        },
{
    let true_count: i64 = match get_count(stats, "true_count") {
        Ok(n) => n,
        Err(m) => {
            return Err(m);
        },
    };
    match get_count(stats, "false_count") {
        Ok(false_count) => Ok(SummaryStatsBoolean { true_count, false_count }),
        Err(m) => Err(m),
    }
}

/// The statistics hold the values with their names.
pub open spec fn is_date_stats(s: SummaryStatsDate, stats: Seq<(String, StatValue)>) -> bool {
    &&& s.num_unique == count_stat(stats, "num_unique"@)
    &&& text::opt_text(s.min_date) == text_stat(stats, "min_date"@)
    &&& text::opt_text(s.mean_date) == text_stat(stats, "mean_date"@)
    &&& text::opt_text(s.median_date) == text_stat(stats, "median_date"@)
    &&& text::opt_text(s.max_date) == text_stat(stats, "max_date"@)
}

/// The statistics of dates. Those that are missing are left out.
pub fn summary_stats_date(stats: &Vec<(String, StatValue)>) -> (r: SummaryStatsDate)
    ensures
        is_date_stats(r, stats@),
{
    SummaryStatsDate {
        num_unique: opt_count(stats, "num_unique"),
        min_date: get_text(stats, "min_date"),
        mean_date: get_text(stats, "mean_date"),
        median_date: get_text(stats, "median_date"),
        max_date: get_text(stats, "max_date"),
    }
}

/// The statistics hold the values with their names, and the time zone.
pub open spec fn is_datetime_stats(
    s: SummaryStatsDatetime,
    stats: Seq<(String, StatValue)>,
    timezone: Option<String>,
) -> bool {
    &&& s.num_unique == count_stat(stats, "num_unique"@)
    &&& text::opt_text(s.min_date) == text_stat(stats, "min_date"@)
    &&& text::opt_text(s.mean_date) == text_stat(stats, "mean_date"@)
    &&& text::opt_text(s.median_date) == text_stat(stats, "median_date"@)
    &&& text::opt_text(s.max_date) == text_stat(stats, "max_date"@)
    &&& s.timezone == timezone
}

/// The statistics of points in time: those of dates, and the time zone.
pub fn summary_stats_datetime(
    stats: &Vec<(String, StatValue)>,
    timezone: Option<String>,
) -> (r: SummaryStatsDatetime)
    ensures
        is_datetime_stats(r, stats@, timezone),
{
    let dates: SummaryStatsDate = summary_stats_date(stats);
    SummaryStatsDatetime {
        num_unique: dates.num_unique,
        min_date: dates.min_date,
        mean_date: dates.mean_date,
        median_date: dates.median_date,
        max_date: dates.max_date,
        timezone,
    }
}

/// What R computed for a column.
#[derive(Debug)]
pub enum StatsAnswer {
    /// R failed, with this message.
    Failed(String),
    /// Values of numbers, formatted, with their names.
    Formatted(Vec<(String, String)>),
    /// Values with their names, and the time zone if it was asked for.
    Named { stats: Vec<(String, StatValue)>, timezone: Option<String> },
}

/// The function of R that computes the statistics of a type, and none for a type
/// without statistics.
pub open spec fn stats_function(display_type: ColumnDisplayType) -> Option<Seq<char>> {
    match display_type {
        ColumnDisplayType::Number => Some("summary_stats_number"@),
        ColumnDisplayType::String => Some("summary_stats_string"@),
        ColumnDisplayType::Boolean => Some("summary_stats_boolean"@),
        ColumnDisplayType::Date => Some("summary_stats_date"@),
        ColumnDisplayType::Datetime => Some("summary_stats_date"@),
        _ => None,
    }
}

/// The function of R that computes the statistics of a type.
pub fn summary_function(display_type: ColumnDisplayType) -> (r: Result<
    &'static str,
    &'static str,
>)
    ensures
        match r {
            Ok(f) => stats_function(display_type) == Some(f@),
            Err(m) => stats_function(display_type) is None && m@ == "Unkown type"@,
        },
{
    match display_type {
        ColumnDisplayType::Number => Ok("summary_stats_number"),
        ColumnDisplayType::String => Ok("summary_stats_string"),
        ColumnDisplayType::Boolean => Ok("summary_stats_boolean"),
        ColumnDisplayType::Date => Ok("summary_stats_date"),
        ColumnDisplayType::Datetime => Ok("summary_stats_date"),
        _ => Err("Unkown type"),
    }
}

/// No statistics.
pub open spec fn no_stats(s: ColumnSummaryStats) -> bool {
    &&& s.number_stats is None
    &&& s.string_stats is None
    &&& s.boolean_stats is None
    &&& s.date_stats is None
    &&& s.datetime_stats is None
}

/// R's answer is of the form that the type asks for, unless R failed.
pub open spec fn answer_ok(display_type: ColumnDisplayType, answer: StatsAnswer) -> bool {
    match answer {
        StatsAnswer::Failed(_) => true,
        StatsAnswer::Formatted(_) => display_type == ColumnDisplayType::Number
            || stats_function(display_type) is None,
        StatsAnswer::Named { .. } => display_type != ColumnDisplayType::Number,
    }
}

/// What R's answer makes of the statistics of a column.
pub open spec fn is_summary(
    r: Result<ColumnSummaryStats, String>,
    display_type: ColumnDisplayType,
    answer: StatsAnswer,
) -> bool {
    if stats_function(display_type) is None {
        r matches Err(m) && m@ == "Unkown type"@
    } else {
        match answer {
            StatsAnswer::Failed(message) => r == Err::<ColumnSummaryStats, String>(message),
            StatsAnswer::Formatted(values) => r matches Ok(s) && s.type_display == display_type
                && s.number_stats is Some && is_number_stats(s.number_stats->0, values@)
                && no_stats(ColumnSummaryStats { number_stats: None, ..s }),
            StatsAnswer::Named { stats, timezone } => match display_type {
                ColumnDisplayType::String => match two_counts(
                    stats@,
                    "num_empty"@,
                    "num_unique"@,
                ) {
                    Ok(counts) => r matches Ok(s) && s.type_display == display_type
                        && s.string_stats == Some(
                        SummaryStatsString { num_empty: counts.0, num_unique: counts.1 },
                    ) && no_stats(ColumnSummaryStats { string_stats: None, ..s }),
                    Err(message) => r matches Err(m) && m@ == message,
                },
                ColumnDisplayType::Boolean => match two_counts(
                    stats@,
                    "true_count"@,
                    "false_count"@,
                ) {
                    Ok(counts) => r matches Ok(s) && s.type_display == display_type
                        && s.boolean_stats == Some(
                        SummaryStatsBoolean { true_count: counts.0, false_count: counts.1 },
                    ) && no_stats(ColumnSummaryStats { boolean_stats: None, ..s }),
                    Err(message) => r matches Err(m) && m@ == message,
                },
                ColumnDisplayType::Date => r matches Ok(s) && s.type_display == display_type
                    && s.date_stats is Some && is_date_stats(s.date_stats->0, stats@)
                    && no_stats(ColumnSummaryStats { date_stats: None, ..s }),
                _ => r matches Ok(s) && s.type_display == display_type && s.datetime_stats is Some
                    && is_datetime_stats(s.datetime_stats->0, stats@, timezone) && no_stats(
                    ColumnSummaryStats { datetime_stats: None, ..s },
                ),
            },
        }
    }
}

fn empty_column_summary_stats(type_display: ColumnDisplayType) -> (r: ColumnSummaryStats)
    ensures
        r.type_display == type_display,
        no_stats(r),
{
    ColumnSummaryStats {
        type_display,
        number_stats: None,
        string_stats: None,
        boolean_stats: None,
        date_stats: None,
        datetime_stats: None,
    }
}

/// The statistics of a column of a type, from what R computed.
pub fn summary_stats(display_type: ColumnDisplayType, answer: StatsAnswer) -> (r: Result<
    ColumnSummaryStats,
    String,
>)
    requires
        answer_ok(display_type, answer),
    ensures
        is_summary(r, display_type, answer),
{
    if let Err(message) = summary_function(display_type) {
        return Err(message.to_owned());
    }
    let mut s: ColumnSummaryStats = empty_column_summary_stats(display_type);
    match answer {
        StatsAnswer::Failed(message) => {
            return Err(message);
        },
        StatsAnswer::Formatted(values) => {
            s.number_stats = Some(summary_stats_number(&values));
        },
        StatsAnswer::Named { stats, timezone } => match display_type {
            ColumnDisplayType::String => match summary_stats_string(&stats) {
                Ok(v) => {
                    s.string_stats = Some(v);
                },
                Err(m) => {
                    return Err(m);
                },
            },
            ColumnDisplayType::Boolean => match summary_stats_boolean(&stats) {
                Ok(v) => {
                    s.boolean_stats = Some(v);
                },
                Err(m) => {
                    return Err(m);
                },
            },
            ColumnDisplayType::Date => {
                s.date_stats = Some(summary_stats_date(&stats));
            },
            _ => {
                s.datetime_stats = Some(summary_stats_datetime(&stats, timezone));
            },
        },
    }
    Ok(s)
}

proof fn lemma_last_named<V>(stats: Seq<(String, V)>, name: Seq<char>, i: int)
    requires
        0 <= i < stats.len(),
        stats[i].0@ == name,
        forall|k: int| i < k < stats.len() ==> (#[trigger] stats[k]).0@ != name,
    ensures
        last_named(stats, name) == Some(i),
    decreases stats.len(),
{
    if i < stats.len() - 1 {
        assert(stats[stats.len() - 1].0@ != name);
        let less = stats.drop_last();
        assert forall|k: int| i < k < less.len() implies (#[trigger] less[k]).0@ != name by {
            assert(less[k] == stats[k]);
        }
        lemma_last_named(less, name, i);
    }
}

/// The statistics of numbers are the ones that R gave under their names.
pub proof fn law_number_statistics(
    s: SummaryStatsNumber,
    stats: Seq<(String, String)>,
    i: int,
)
    requires
        is_number_stats(s, stats),
        0 <= i < stats.len(),
        forall|k: int| i < k < stats.len() ==> (#[trigger] stats[k]).0@ != stats[i].0@,
    ensures
        stats[i].0@ == "min_value"@ ==> s.min_value is Some && s.min_value->0@ == stats[i].1@,
        stats[i].0@ == "max_value"@ ==> s.max_value is Some && s.max_value->0@ == stats[i].1@,
        stats[i].0@ == "mean"@ ==> s.mean is Some && s.mean->0@ == stats[i].1@,
        stats[i].0@ == "median"@ ==> s.median is Some && s.median->0@ == stats[i].1@,
        stats[i].0@ == "stdev"@ ==> s.stdev is Some && s.stdev->0@ == stats[i].1@,
{
    lemma_last_named(stats, stats[i].0@, i);
}

/// The statistics of dates and of times are the ones that R gave under their names.
pub proof fn law_date_statistics(
    d: SummaryStatsDate,
    t: SummaryStatsDatetime,
    stats: Seq<(String, StatValue)>,
    timezone: Option<String>,
    i: int,
)
    requires
        is_date_stats(d, stats),
        is_datetime_stats(t, stats, timezone),
        0 <= i < stats.len(),
        forall|k: int| i < k < stats.len() ==> (#[trigger] stats[k]).0@ != stats[i].0@,
    ensures
        t.timezone == timezone,
        stats[i].1 matches StatValue::Text(x) && stats[i].0@ == "min_date"@ ==> text::opt_text(
            d.min_date,
        ) == Some(stats[i].1->Text_0@) && text::opt_text(t.min_date) == Some(stats[i].1->Text_0@),
        stats[i].1 matches StatValue::Text(x) && stats[i].0@ == "max_date"@ ==> text::opt_text(
            d.max_date,
        ) == Some(stats[i].1->Text_0@) && text::opt_text(t.max_date) == Some(stats[i].1->Text_0@),
        stats[i].1 matches StatValue::Text(x) && stats[i].0@ == "mean_date"@ ==> text::opt_text(
            d.mean_date,
        ) == Some(stats[i].1->Text_0@) && text::opt_text(t.mean_date) == Some(stats[i].1->Text_0@),
        stats[i].1 matches StatValue::Text(x) && stats[i].0@ == "median_date"@ ==> text::opt_text(
            d.median_date,
        ) == Some(stats[i].1->Text_0@) && text::opt_text(t.median_date) == Some(
            stats[i].1->Text_0@,
        ),
        stats[i].1 matches StatValue::Int(n) && stats[i].0@ == "num_unique"@ ==> d.num_unique
            == Some(stats[i].1->Int_0 as i64) && t.num_unique == Some(stats[i].1->Int_0 as i64),
{
    lemma_last_named(stats, stats[i].0@, i);
}

/// The counts of texts and of truth values are the ones that R gave under their names, and
/// a column shows the statistics of its type and no others.
pub proof fn law_counts_of_values(
    s: ColumnSummaryStats,
    display_type: ColumnDisplayType,
    stats: Vec<(String, StatValue)>,
    timezone: Option<String>,
    i: int,
)
    requires
        is_summary(Ok(s), display_type, StatsAnswer::Named { stats, timezone }),
        0 <= i < stats@.len(),
        stats@[i].1 is Int,
        forall|k: int| i < k < stats@.len() ==> (#[trigger] stats@[k]).0@ != stats@[i].0@,
    ensures
        s.type_display == display_type,
        s.number_stats is None,
        s.string_stats is Some <==> display_type == ColumnDisplayType::String,
        s.boolean_stats is Some <==> display_type == ColumnDisplayType::Boolean,
        s.date_stats is Some <==> display_type == ColumnDisplayType::Date,
        display_type == ColumnDisplayType::Datetime ==> s.datetime_stats is Some,
        display_type == ColumnDisplayType::String && stats@[i].0@ == "num_empty"@
            ==> s.string_stats->0.num_empty == stats@[i].1->Int_0,
        display_type == ColumnDisplayType::String && stats@[i].0@ == "num_unique"@
            ==> s.string_stats->0.num_unique == stats@[i].1->Int_0,
        display_type == ColumnDisplayType::Boolean && stats@[i].0@ == "true_count"@
            ==> s.boolean_stats->0.true_count == stats@[i].1->Int_0,
        display_type == ColumnDisplayType::Boolean && stats@[i].0@ == "false_count"@
            ==> s.boolean_stats->0.false_count == stats@[i].1->Int_0,
{
    lemma_last_named(stats@, stats@[i].0@, i);
}

/// Numbers show the statistics of numbers and no others, and R computes the statistics of
/// each type with the function that is named after it.
pub proof fn law_statistics_by_type(
    s: ColumnSummaryStats,
    values: Vec<(String, String)>,
)
    requires
        is_summary(Ok(s), ColumnDisplayType::Number, StatsAnswer::Formatted(values)),
    ensures
        s.type_display == ColumnDisplayType::Number,
        s.number_stats matches Some(n) && is_number_stats(n, values@),
        s.string_stats is None,
        s.boolean_stats is None,
        s.date_stats is None,
        s.datetime_stats is None,
        stats_function(ColumnDisplayType::Number) == Some("summary_stats_number"@),
        stats_function(ColumnDisplayType::String) == Some("summary_stats_string"@),
        stats_function(ColumnDisplayType::Boolean) == Some("summary_stats_boolean"@),
        stats_function(ColumnDisplayType::Date) == Some("summary_stats_date"@),
        stats_function(ColumnDisplayType::Datetime) == Some("summary_stats_date"@),
{
}

} // verus!
