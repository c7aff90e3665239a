//! Profiles of columns.
use vstd::prelude::*;

use crate::data_explorer::data_explorer_comm::ColumnDisplayType;
use crate::data_explorer::histogram::{
    frequency_fault, histogram_fault, histogram_request, histogram_support, is_frequency_table,
    is_histogram, method_name, profile_frequency_table, profile_histogram, ColumnFrequencyTable,
    ColumnFrequencyTableParams, ColumnHistogram, ColumnHistogramParams, FrequencyAnswer,
    HistogramAnswer, HistogramRequest,
};
use crate::data_explorer::r_data_explorer::copy_optional_rows;
use crate::data_explorer::summary_stats::{
    answer_ok, is_summary, stats_function, summary_function, summary_stats, ColumnSummaryStats,
    StatsAnswer,
};
use crate::data_explorer::utils::{view_rows, VectorType};

verus! {

#[derive(Clone, Copy, Debug, PartialEq, Eq, Structural)]
pub enum ColumnProfileType {
    NullCount,
    SummaryStats,
    SmallFrequencyTable,
    LargeFrequencyTable,
    SmallHistogram,
    LargeHistogram,
}

/// The parameters of a profile.
#[derive(Debug)]
pub enum ColumnProfileParams<Q> {
    SmallHistogram(ColumnHistogramParams<Q>),
    LargeHistogram(ColumnHistogramParams<Q>),
    SmallFrequencyTable(ColumnFrequencyTableParams),
    LargeFrequencyTable(ColumnFrequencyTableParams),
}

/// The profiles of a column. None stands for one that was not asked for or that
/// failed.
#[derive(Debug)]
pub struct ColumnProfileResult<Q> {
    pub null_count: Option<i64>,
    pub summary_stats: Option<ColumnSummaryStats>,
    pub small_histogram: Option<ColumnHistogram<Q>>,
    pub small_frequency_table: Option<ColumnFrequencyTable>,
    pub large_histogram: Option<ColumnHistogram<Q>>,
    pub large_frequency_table: Option<ColumnFrequencyTable>,
}

/// No profiles.
pub open spec fn is_empty_profile<Q>(r: ColumnProfileResult<Q>) -> bool {
    &&& r.null_count is None
    &&& r.summary_stats is None
    &&& r.small_histogram is None
    &&& r.small_frequency_table is None
    &&& r.large_histogram is None
    &&& r.large_frequency_table is None
}

pub fn empty_column_profile_result<Q>() -> (r: ColumnProfileResult<Q>)
    ensures
        is_empty_profile(r),
{
    ColumnProfileResult {
        null_count: None,
        summary_stats: None,
        small_histogram: None,
        small_frequency_table: None,
        large_histogram: None,
        large_frequency_table: None,
    }
}

/// The parameters of the histogram that a profile asks for.
pub fn histogram_params<Q>(params: &Option<ColumnProfileParams<Q>>) -> (r: Result<
    &ColumnHistogramParams<Q>,
    &'static str,
>)
    ensures
        match *params {
            None => r matches Err(m) && m@ == "Missing parameters for the histogram"@,
            Some(ColumnProfileParams::SmallHistogram(p)) => r matches Ok(q) && *q == p,
            Some(ColumnProfileParams::LargeHistogram(p)) => r matches Ok(q) && *q == p,
            _ => r matches Err(m) && m@ == "Wrong type of parameters for the histogram."@,
        },
{
    match params {
        None => Err("Missing parameters for the histogram"),
        Some(ColumnProfileParams::SmallHistogram(p)) => Ok(p),
        Some(ColumnProfileParams::LargeHistogram(p)) => Ok(p),
        _ => Err("Wrong type of parameters for the histogram."),
    }
}

/// The parameters of the frequency table that a profile asks for.
pub fn frequency_table_params<Q>(params: &Option<ColumnProfileParams<Q>>) -> (r: Result<
    &ColumnFrequencyTableParams,
    &'static str,
>)
    ensures
        match *params {
            None => r matches Err(m) && m@ == "Missing parameters for the frequency table"@,
            Some(ColumnProfileParams::SmallFrequencyTable(p)) => r matches Ok(q) && *q == p,
            Some(ColumnProfileParams::LargeFrequencyTable(p)) => r matches Ok(q) && *q == p,
            _ => r matches Err(m) && m@ == "Wrong type of parameters for the frequency table."@,
        },
{
    match params {
        None => Err("Missing parameters for the frequency table"),
        Some(ColumnProfileParams::SmallFrequencyTable(p)) => Ok(p),
        Some(ColumnProfileParams::LargeFrequencyTable(p)) => Ok(p),
        _ => Err("Wrong type of parameters for the frequency table."),
    }
}

/// What computing a profile gave: a profile of the kind that was asked for, or a
/// failure.
#[derive(Debug)]
pub enum ProfileOutcome<Q> {
    NullCount(i64),
    SummaryStats(ColumnSummaryStats),
    Histogram(ColumnHistogram<Q>),
    FrequencyTable(ColumnFrequencyTable),
    Failed,
}

/// The profiles after one more was computed. It takes the place of an earlier one of
/// its type, also if it failed.
pub open spec fn with_profile<Q>(
    r: ColumnProfileResult<Q>,
    profile_type: ColumnProfileType,
    outcome: ProfileOutcome<Q>,
) -> ColumnProfileResult<Q> {
    let histogram = match outcome {
        ProfileOutcome::Histogram(h) => Some(h),
        _ => None,
    };
    let table = match outcome {
        ProfileOutcome::FrequencyTable(t) => Some(t),
        _ => None,
    };
    match profile_type {
        ColumnProfileType::NullCount => ColumnProfileResult {
            null_count: match outcome {
                ProfileOutcome::NullCount(n) => Some(n),
                _ => None,
            },
            ..r
        },
        ColumnProfileType::SummaryStats => ColumnProfileResult {
            summary_stats: match outcome {
                ProfileOutcome::SummaryStats(s) => Some(s),
                _ => None,
            },
            ..r
        },
        ColumnProfileType::SmallHistogram => ColumnProfileResult {
            small_histogram: histogram,
            ..r
        },
        ColumnProfileType::LargeHistogram => ColumnProfileResult {
            large_histogram: histogram,
            ..r
        },
        ColumnProfileType::SmallFrequencyTable => ColumnProfileResult {
            small_frequency_table: table,
            ..r
        },
        ColumnProfileType::LargeFrequencyTable => ColumnProfileResult {
            large_frequency_table: table,
            ..r
        },
    }
}

/// The profiles of a column after each that was asked for was computed in turn.
pub open spec fn profiled<Q>(
    outcomes: Seq<(ColumnProfileType, ProfileOutcome<Q>)>,
) -> ColumnProfileResult<Q>
    decreases outcomes.len(),
{
    if outcomes.len() == 0 {
        ColumnProfileResult {
            null_count: None,
            summary_stats: None,
            small_histogram: None,
            small_frequency_table: None,
            large_histogram: None,
            large_frequency_table: None,
        }
    } else {
        with_profile(profiled(outcomes.drop_last()), outcomes.last().0, outcomes.last().1)
    }
}

fn store_profile<Q>(
    output: &mut ColumnProfileResult<Q>,
    profile_type: ColumnProfileType,
    outcome: ProfileOutcome<Q>,
)
    ensures
        *final(output) == with_profile(*old(output), profile_type, outcome),
{
    match profile_type {
        ColumnProfileType::NullCount => {
            output.null_count =
            match outcome {
                ProfileOutcome::NullCount(n) => Some(n),
                _ => None,
            };
        },
        ColumnProfileType::SummaryStats => {
            output.summary_stats =
            match outcome {
                ProfileOutcome::SummaryStats(s) => Some(s),
                _ => None,
            };
        },
        ColumnProfileType::SmallHistogram => {
            output.small_histogram =
            match outcome {
                ProfileOutcome::Histogram(h) => Some(h),
                _ => None,
            };
        },
        ColumnProfileType::LargeHistogram => {
            output.large_histogram =
            match outcome {
                ProfileOutcome::Histogram(h) => Some(h),
                _ => None,
            };
        },
        ColumnProfileType::SmallFrequencyTable => {
            output.small_frequency_table =
            match outcome {
                ProfileOutcome::FrequencyTable(t) => Some(t),
                _ => None,
            };
        },
        ColumnProfileType::LargeFrequencyTable => {
            output.large_frequency_table =
            match outcome {
                ProfileOutcome::FrequencyTable(t) => Some(t),
                _ => None,
            };
        },
    }
}

/// What R tells of a column.
#[derive(Debug)]
pub struct ColumnFacts {
    pub classes: Option<Vec<String>>,
    pub vector_type: VectorType,
    pub display_type: ColumnDisplayType,
}

/// What R is asked for to have what a profile needs.
#[derive(Debug)]
pub enum ProfileRequest<'a, Q> {
    NullCount,
    /// The function of R that computes the statistics.
    SummaryStats(&'static str),
    /// The method, the number of bins, and the quantiles to compute.
    Histogram { request: HistogramRequest, quantiles: &'a Option<Vec<Q>> },
    /// The number of values to tell.
    FrequencyTable { limit: i32 },
}

/// What R is asked for to have what a profile of a column needs. None if it is not
/// asked: if the column has no such profile, or the parameters are missing or those of
/// another profile.
pub fn profile_request<'a, Q>(
    profile_type: ColumnProfileType,
    params: &'a Option<ColumnProfileParams<Q>>,
    column: &ColumnFacts,
) -> (r: Option<ProfileRequest<'a, Q>>)
    ensures
        is_request(r, profile_type, *params, *column),
{
    match profile_type {
        ColumnProfileType::NullCount => Some(ProfileRequest::NullCount),
        ColumnProfileType::SummaryStats => match summary_function(column.display_type) {
            Ok(function) => Some(ProfileRequest::SummaryStats(function)),
            Err(_) => None,
        },
        ColumnProfileType::SmallHistogram | ColumnProfileType::LargeHistogram =>
            match histogram_params(params) {
            Ok(p) => match histogram_request(&column.classes, column.vector_type, p) {
                Ok(request) => Some(
                    ProfileRequest::Histogram { request, quantiles: &p.quantiles },
                ),
                Err(_) => None,
            },
            Err(_) => None,
        },
        ColumnProfileType::SmallFrequencyTable | ColumnProfileType::LargeFrequencyTable =>
            match frequency_table_params(params) {
            Ok(p) => {
                #[verifier::truncate]
                let limit: i32 = p.limit as i32;
                Some(ProfileRequest::FrequencyTable { limit })
            },
            Err(_) => None,
        },
    }
}

/// What R answers when it is asked for what a profile needs.
#[derive(Debug)]
pub enum ProfileAnswer {
    /// R failed, or was not asked.
    Failed,
    NullCount(i32),
    SummaryStats(StatsAnswer),
    Histogram(HistogramAnswer),
    FrequencyTable(FrequencyAnswer),
}

/// The classes of a column.
pub open spec fn class_texts(column: ColumnFacts) -> Option<Seq<String>> {
    match column.classes {
        Some(c) => Some(c@),
        None => None,
    }
}

/// R answers in the form that the profile asks for.
pub open spec fn answer_fits(
    profile_type: ColumnProfileType,
    column: ColumnFacts,
    answer: ProfileAnswer,
) -> bool {
    match answer {
        ProfileAnswer::Failed => true,
        ProfileAnswer::NullCount(_) => profile_type == ColumnProfileType::NullCount,
        ProfileAnswer::SummaryStats(a) => profile_type == ColumnProfileType::SummaryStats
            && answer_ok(column.display_type, a),
        ProfileAnswer::Histogram(a) => (profile_type == ColumnProfileType::SmallHistogram
            || profile_type == ColumnProfileType::LargeHistogram) && (a.bin_edges is Some
            && a.bin_counts is Some && a.bin_counts->0@.len() > 0 ==> a.bin_edges->0@.len() > 0),
        ProfileAnswer::FrequencyTable(_) => profile_type == ColumnProfileType::SmallFrequencyTable
            || profile_type == ColumnProfileType::LargeFrequencyTable,
    }
}

/// The parameters of the histogram that a profile asks for.
pub open spec fn histogram_params_of<Q>(params: Option<ColumnProfileParams<Q>>) -> Option<
    ColumnHistogramParams<Q>,
> {
    match params {
        Some(ColumnProfileParams::SmallHistogram(p)) => Some(p),
        Some(ColumnProfileParams::LargeHistogram(p)) => Some(p),
        _ => None,
    }
}

/// The parameters of the frequency table that a profile asks for.
pub open spec fn table_params_of<Q>(params: Option<ColumnProfileParams<Q>>) -> Option<
    ColumnFrequencyTableParams,
> {
    match params {
        Some(ColumnProfileParams::SmallFrequencyTable(p)) => Some(p),
        Some(ColumnProfileParams::LargeFrequencyTable(p)) => Some(p),
        _ => None,
    }
}

/// What a profile of a column comes to. It fails if its parameters are missing or of
/// another kind, if the column has no such profile, or if R failed.
pub open spec fn is_outcome<Q>(
    r: ProfileOutcome<Q>,
    params: Option<ColumnProfileParams<Q>>,
    column: ColumnFacts,
    answer: ProfileAnswer,
) -> bool {
    match answer {
        ProfileAnswer::Failed => r is Failed,
        ProfileAnswer::NullCount(n) => r == ProfileOutcome::<Q>::NullCount(n as i64),
        ProfileAnswer::SummaryStats(a) => match r {
            ProfileOutcome::SummaryStats(s) => is_summary(Ok(s), column.display_type, a),
            ProfileOutcome::Failed => exists|m: String| #[trigger]
                is_summary(Err(m), column.display_type, a),
            _ => false,
        },
        ProfileAnswer::Histogram(a) => match histogram_params_of(params) {
            Some(p) => if histogram_support(class_texts(column), column.vector_type) is None
                && histogram_fault(a) is None {
                r matches ProfileOutcome::Histogram(h) && is_histogram(h, a, p)
            } else {
                r is Failed
            },
            None => r is Failed,
        },
        ProfileAnswer::FrequencyTable(a) => match table_params_of(params) {
            Some(p) => if frequency_fault(a, p.limit) is None {
                r matches ProfileOutcome::FrequencyTable(t) && is_frequency_table(t, a, p)
            } else {
                r is Failed
            },
            None => r is Failed,
        },
    }
}

/// What a profile of a column comes to.
pub fn outcome_of<Q: Copy>(
    profile_type: ColumnProfileType,
    params: &Option<ColumnProfileParams<Q>>,
    column: &ColumnFacts,
    answer: ProfileAnswer,
) -> (r: ProfileOutcome<Q>)
    requires
        answer_fits(profile_type, *column, answer),
    ensures
        is_outcome(r, *params, *column, answer),
{
    match answer {
        ProfileAnswer::Failed => ProfileOutcome::Failed,
        ProfileAnswer::NullCount(n) => ProfileOutcome::NullCount(profile_null_count(n)),
        ProfileAnswer::SummaryStats(a) => {
            match summary_stats(column.display_type, a) {
                Ok(s) => ProfileOutcome::SummaryStats(s),
                Err(m) => {
                    assert(is_summary(Err(m), column.display_type, a));
                    ProfileOutcome::Failed
                },
            }
        },
        ProfileAnswer::Histogram(a) => match histogram_params(params) {
            Ok(p) => match histogram_request(&column.classes, column.vector_type, p) {
                Ok(_) => match profile_histogram(a, p) {
                    Ok(h) => ProfileOutcome::Histogram(h),
                    Err(_) => ProfileOutcome::Failed,
                },
                Err(_) => ProfileOutcome::Failed,
            },
            Err(_) => ProfileOutcome::Failed,
        },
        ProfileAnswer::FrequencyTable(a) => match frequency_table_params(params) {
            Ok(p) => match profile_frequency_table(a, p) {
                Ok(t) => ProfileOutcome::FrequencyTable(t),
                Err(_) => ProfileOutcome::Failed,
            },
            Err(_) => ProfileOutcome::Failed,
        },
    }
}

/// A profile that is asked for, and what R answers.
#[derive(Debug)]
pub struct ProfileSpec<Q> {
    pub profile_type: ColumnProfileType,
    pub params: Option<ColumnProfileParams<Q>>,
    pub answer: ProfileAnswer,
}

/// What the profiles of a column come to, one by one.
pub open spec fn are_outcomes<Q>(
    outcomes: Seq<(ColumnProfileType, ProfileOutcome<Q>)>,
    specs: Seq<ProfileSpec<Q>>,
    column: ColumnFacts,
) -> bool {
    &&& outcomes.len() == specs.len()
    &&& forall|i: int|
        0 <= i < outcomes.len() ==> (#[trigger] outcomes[i]).0 == specs[i].profile_type
            && is_outcome(outcomes[i].1, specs[i].params, column, specs[i].answer)
}

/// The profiles of a column, from what R answers for each that is asked for. None if the
/// column itself could not be had, which leaves the profiles empty. One that fails does
/// not keep others from being shown.
pub fn profile_column<Q: Copy>(column: Option<ColumnFacts>, specs: Vec<ProfileSpec<Q>>) -> (r:
    ColumnProfileResult<Q>)
    requires
        column matches Some(c) ==> forall|i: int|
            0 <= i < specs@.len() ==> answer_fits(
                (#[trigger] specs@[i]).profile_type,
                c,
                specs@[i].answer,
            ),
    ensures
        match column {
            Some(c) => exists|outcomes: Seq<(ColumnProfileType, ProfileOutcome<Q>)>|
                #![trigger are_outcomes(outcomes, specs@, c)]
                are_outcomes(outcomes, specs@, c) && r == profiled(outcomes),
            None => is_empty_profile(r),
        },
{
    let mut output: ColumnProfileResult<Q> = empty_column_profile_result();
    let column: ColumnFacts = match column {
        None => {
            return output;
        },
        Some(column) => column,
    };
    let ghost all = specs@;
    let ghost mut outcomes: Seq<(ColumnProfileType, ProfileOutcome<Q>)> = Seq::empty();
    for one in it: specs
        invariant
            it.seq() == all,
            forall|i: int|
                0 <= i < all.len() ==> answer_fits(
                    (#[trigger] all[i]).profile_type,
                    column,
                    all[i].answer,
                ),
            outcomes.len() == it.index(),
            are_outcomes(outcomes, all.take(it.index() as int), column),
            output == profiled(outcomes),
    {
        let ghost i = it.index() as int;
        assert(one == all[i]);
        let outcome: ProfileOutcome<Q> = outcome_of(
            one.profile_type,
            &one.params,
            &column,
            one.answer,
        );
        proof {
            let more = outcomes.push((one.profile_type, outcome));
            assert(more.drop_last() =~= outcomes);
            assert forall|k: int| 0 <= k < more.len() implies (#[trigger] more[k]).0
                == all.take(i + 1)[k].profile_type && is_outcome(
                more[k].1,
                all.take(i + 1)[k].params,
                column,
                all.take(i + 1)[k].answer,
            ) by {
                if k < i {
                    assert(more[k] == outcomes[k]);
                    assert(all.take(i)[k] == all[k]);
                }
            }
            outcomes = more;
        }
        store_profile(&mut output, one.profile_type, outcome);
    }
    assert(all.take(all.len() as int) =~= all);
    assert(are_outcomes(outcomes, all, column));
    output
}

/// What the profiles show of one type is what an outcome gave: nothing if it is none of
/// that type.
pub open spec fn shows_outcome<Q>(
    r: ColumnProfileResult<Q>,
    profile_type: ColumnProfileType,
    outcome: ProfileOutcome<Q>,
) -> bool {
    let histogram = match outcome {
        ProfileOutcome::Histogram(h) => Some(h),
        _ => None,
    };
    let table = match outcome {
        ProfileOutcome::FrequencyTable(t) => Some(t),
        _ => None,
    };
    match profile_type {
        ColumnProfileType::NullCount => r.null_count == match outcome {
            ProfileOutcome::NullCount(n) => Some(n),
            _ => None,
        },
        ColumnProfileType::SummaryStats => r.summary_stats == match outcome {
            ProfileOutcome::SummaryStats(s) => Some(s),
            _ => None,
        },
        ColumnProfileType::SmallHistogram => r.small_histogram == histogram,
        ColumnProfileType::LargeHistogram => r.large_histogram == histogram,
        ColumnProfileType::SmallFrequencyTable => r.small_frequency_table == table,
        ColumnProfileType::LargeFrequencyTable => r.large_frequency_table == table,
    }
}

/// What is shown of a profile of any type is what the last request for it gave.
pub proof fn law_last_profile_shown<Q>(
    outcomes: Seq<(ColumnProfileType, ProfileOutcome<Q>)>,
    profile_type: ColumnProfileType,
    i: int,
)
    requires
        0 <= i < outcomes.len(),
        outcomes[i].0 == profile_type,
        forall|j: int| i < j < outcomes.len() ==> (#[trigger] outcomes[j]).0 != profile_type,
    ensures
        shows_outcome(profiled(outcomes), profile_type, outcomes[i].1),
    decreases outcomes.len(),
{
    if i < outcomes.len() - 1 {
        assert(outcomes[outcomes.len() - 1].0 != profile_type);
        law_last_profile_shown(outcomes.drop_last(), profile_type, i);
    }
}

/// A profile that was not asked for is not shown.
pub proof fn law_unasked_profile_not_shown<Q>(
    outcomes: Seq<(ColumnProfileType, ProfileOutcome<Q>)>,
    profile_type: ColumnProfileType,
)
    requires
        forall|j: int| 0 <= j < outcomes.len() ==> (#[trigger] outcomes[j]).0 != profile_type,
    ensures
        shows_outcome(profiled(outcomes), profile_type, ProfileOutcome::Failed),
    decreases outcomes.len(),
{
    if outcomes.len() > 0 {
        assert(outcomes[outcomes.len() - 1].0 != profile_type);
        law_unasked_profile_not_shown(outcomes.drop_last(), profile_type);
    }
}

/// The profiles of all columns that were asked for. If they could not be computed
/// there is an empty one for each.
pub fn profiles_or_empty<Q>(profiles: Option<Vec<ColumnProfileResult<Q>>>, n_profiles: usize) -> (r:
    Vec<ColumnProfileResult<Q>>)
    ensures
        match profiles {
            Some(p) => r@ == p@,
            None => r@.len() == n_profiles && forall|i: int|
                0 <= i < r@.len() ==> is_empty_profile(#[trigger] r@[i]),
        },
{
    match profiles {
        Some(p) => p,
        None => {
            let mut r: Vec<ColumnProfileResult<Q>> = Vec::new();
            let mut i: usize = 0;
            while i < n_profiles
                invariant
                    i <= n_profiles,
                    r@.len() == i,
                    forall|k: int| 0 <= k < i ==> is_empty_profile(#[trigger] r@[k]),
                decreases n_profiles - i,
            {
                r.push(empty_column_profile_result());
                i = i + 1;
            }
            r
        },
    }
}

/// What R is asked for to have a column: its index, and the rows to keep of it, if not
/// all.
#[derive(Debug, PartialEq, Eq)]
pub struct ColumnQuery {
    pub column: i32,
    pub rows: Option<Vec<i32>>,
}

/// What R is asked for to have the column that profiles are computed of: with the rows
/// that the filters keep.
pub fn tbl_get_filtered_column(column_index: i64, indices: &Option<Vec<i32>>) -> (r: ColumnQuery)
    ensures
        r.column == column_index as i32,
        view_rows(r.rows) == view_rows(*indices),
{
    #[verifier::truncate]
    let column: i32 = column_index as i32;
    ColumnQuery { column, rows: copy_optional_rows(indices) }
}

/// The number of missing values, as R counted them.
pub fn profile_null_count(counted: i32) -> (r: i64)
    ensures
        r == counted,
{
    counted as i64
}

/// What R computed is what the profile tells: the number of missing values, the statistics,
/// the histogram and the table. A failure of R is one of that profile alone.
pub proof fn law_profiles_tell_what_r_computed<Q>(
    r: ProfileOutcome<Q>,
    params: Option<ColumnProfileParams<Q>>,
    column: ColumnFacts,
    answer: ProfileAnswer,
)
    requires
        is_outcome(r, params, column, answer),
    ensures
        answer is Failed ==> r is Failed,
        answer matches ProfileAnswer::NullCount(n) ==> r matches ProfileOutcome::NullCount(m) && m
            == answer->NullCount_0,
        answer is Histogram && params is None ==> r is Failed,
        answer is FrequencyTable && params is None ==> r is Failed,
        r is Histogram ==> answer is Histogram && params is Some && is_histogram(
            r->Histogram_0,
            answer->Histogram_0,
            match params->0 {
                ColumnProfileParams::SmallHistogram(p) => p,
                ColumnProfileParams::LargeHistogram(p) => p,
                _ => arbitrary(),
            },
        ),
        r is FrequencyTable ==> answer is FrequencyTable && params is Some,
        r is SummaryStats ==> answer is SummaryStats && is_summary(
            Ok(r->SummaryStats_0),
            column.display_type,
            answer->SummaryStats_0,
        ),
{
}

/// A table of frequencies is made with the parameters of either table, and with no others.
pub proof fn law_parameters_of_profiles<Q>(
    r: ProfileOutcome<Q>,
    column: ColumnFacts,
    h: HistogramAnswer,
    t: FrequencyAnswer,
    hp: ColumnHistogramParams<Q>,
    tp: ColumnFrequencyTableParams,
)
    ensures
        is_outcome(
            r,
            Some(ColumnProfileParams::SmallFrequencyTable(tp)),
            column,
            ProfileAnswer::FrequencyTable(t),
        ) || is_outcome(
            r,
            Some(ColumnProfileParams::LargeFrequencyTable(tp)),
            column,
            ProfileAnswer::FrequencyTable(t),
        ) ==> {
            &&& frequency_fault(t, tp.limit) is None ==> r is FrequencyTable && is_frequency_table(
                r->FrequencyTable_0,
                t,
                tp,
            )
            &&& frequency_fault(t, tp.limit) is Some ==> r is Failed
        },
        is_outcome(
            r,
            Some(ColumnProfileParams::SmallHistogram(hp)),
            column,
            ProfileAnswer::FrequencyTable(t),
        ) ==> r is Failed,
        is_outcome(
            r,
            Some(ColumnProfileParams::SmallFrequencyTable(tp)),
            column,
            ProfileAnswer::Histogram(h),
        ) ==> r is Failed,
        is_outcome(
            r,
            Some(ColumnProfileParams::SmallHistogram(hp)),
            column,
            ProfileAnswer::Histogram(h),
        ) || is_outcome(
            r,
            Some(ColumnProfileParams::LargeHistogram(hp)),
            column,
            ProfileAnswer::Histogram(h),
        ) ==> (histogram_support(class_texts(column), column.vector_type) is None
            && histogram_fault(h) is None ==> r is Histogram && is_histogram(
            r->Histogram_0,
            h,
            hp,
        )),
{
}

/// Profiles are computed in the order in which they are asked for, each from its own answer.
pub proof fn law_profiles_are_computed_in_order<Q>(
    outcomes: Seq<(ColumnProfileType, ProfileOutcome<Q>)>,
    specs: Seq<ProfileSpec<Q>>,
    column: ColumnFacts,
    i: int,
    r: ColumnProfileResult<Q>,
)
    requires
        are_outcomes(outcomes, specs, column),
        0 <= i < specs.len(),
    ensures
        outcomes.len() == specs.len(),
        outcomes[i].0 == specs[i].profile_type,
        is_outcome(outcomes[i].1, specs[i].params, column, specs[i].answer),
        is_empty_profile(r) ==> r == profiled(Seq::<(ColumnProfileType, ProfileOutcome<Q>)>::empty()),
{
    assert(outcomes[i].0 == specs[i].profile_type);
}

/// What is asked of R for a profile of a column.
pub open spec fn is_request<'a, Q>(
    r: Option<ProfileRequest<'a, Q>>,
    profile_type: ColumnProfileType,
    params: Option<ColumnProfileParams<Q>>,
    column: ColumnFacts,
) -> bool {
    match profile_type {
        ColumnProfileType::NullCount => r matches Some(ProfileRequest::NullCount),
        ColumnProfileType::SummaryStats => match stats_function(column.display_type) {
            Some(name) => r matches Some(ProfileRequest::SummaryStats(f)) && f@ == name,
            None => r is None,
        },
        ColumnProfileType::SmallHistogram | ColumnProfileType::LargeHistogram =>
            match histogram_params_of(params) {
            Some(p) => if histogram_support(class_texts(column), column.vector_type) is None {
                r matches Some(ProfileRequest::Histogram { request, quantiles })
                    && request.method@ == method_name(p.method) && request.num_bins
                    == p.num_bins as i32 && *quantiles == p.quantiles
            } else {
                r is None
            },
            None => r is None,
        },
        ColumnProfileType::SmallFrequencyTable | ColumnProfileType::LargeFrequencyTable =>
            match table_params_of(params) {
            Some(p) => r matches Some(ProfileRequest::FrequencyTable { limit }) && limit
                == p.limit as i32,
            None => r is None,
        },
    }
}

/// R is asked for each profile with its own parameters. Without them, or for a column that has
/// no such profile, R is not asked.
pub proof fn law_what_r_is_asked<'a, Q>(
    r: Option<ProfileRequest<'a, Q>>,
    column: ColumnFacts,
    hp: ColumnHistogramParams<Q>,
    tp: ColumnFrequencyTableParams,
)
    requires
        0 <= hp.num_bins <= i32::MAX,
        0 <= tp.limit <= i32::MAX,
    ensures
        is_request(r, ColumnProfileType::NullCount, None, column) ==> r matches Some(
            ProfileRequest::NullCount,
        ),
        is_request(
            r,
            ColumnProfileType::SmallFrequencyTable,
            Some(ColumnProfileParams::SmallFrequencyTable(tp)),
            column,
        ) || is_request(
            r,
            ColumnProfileType::LargeFrequencyTable,
            Some(ColumnProfileParams::LargeFrequencyTable(tp)),
            column,
        ) ==> (r matches Some(ProfileRequest::FrequencyTable { limit }) && limit == tp.limit),
        (is_request(
            r,
            ColumnProfileType::SmallHistogram,
            Some(ColumnProfileParams::SmallHistogram(hp)),
            column,
        ) || is_request(
            r,
            ColumnProfileType::LargeHistogram,
            Some(ColumnProfileParams::LargeHistogram(hp)),
            column,
        )) && histogram_support(class_texts(column), column.vector_type) is None ==> (r
            matches Some(ProfileRequest::Histogram { request, quantiles }) && request.num_bins
            == hp.num_bins && request.method@ == method_name(hp.method) && *quantiles
            == hp.quantiles),
        (is_request(
            r,
            ColumnProfileType::SmallHistogram,
            Some(ColumnProfileParams::SmallHistogram(hp)),
            column,
        ) && histogram_support(class_texts(column), column.vector_type) is Some) || is_request(
            r,
            ColumnProfileType::SmallHistogram,
            None,
            column,
        ) || is_request(r, ColumnProfileType::LargeFrequencyTable, None, column) ==> r is None,
        is_request(r, ColumnProfileType::SummaryStats, None, column) ==> (r is Some
            <==> stats_function(column.display_type) is Some),
        is_request(r, ColumnProfileType::SummaryStats, None, column) && r is Some ==> (r
            matches Some(ProfileRequest::SummaryStats(f)) && Some(f@) == stats_function(
            column.display_type,
        )),
{
}

} // verus!
