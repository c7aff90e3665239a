//! Histograms and frequency tables of columns.
//!
//! R computes them. What is asked of R, and what is made of its answer, is decided
//! here.
use vstd::prelude::*;

use crate::data_explorer::utils::{inherits, r_inherits, VectorType};
use crate::text;

verus! {

#[derive(Clone, Copy, Debug, PartialEq, Eq, Structural)]
pub enum ColumnHistogramParamsMethod {
    Fixed,
    Sturges,
    FreedmanDiaconis,
    Scott,
}

/// The parameters of a histogram. The type of the probabilities of quantiles is left
/// open.
#[derive(Debug)]
pub struct ColumnHistogramParams<Q> {
    pub method: ColumnHistogramParamsMethod,
    pub num_bins: i64,
    pub quantiles: Option<Vec<Q>>,
}

#[derive(Debug, PartialEq)]
pub struct ColumnQuantileValue<Q> {
    pub q: Q,
    pub value: String,
    pub exact: bool,
}

#[derive(Debug, PartialEq)]
pub struct ColumnHistogram<Q> {
    pub bin_edges: Vec<String>,
    pub bin_counts: Vec<i64>,
    pub quantiles: Vec<ColumnQuantileValue<Q>>,
}

#[derive(Clone, Copy, Debug, PartialEq, Eq, Structural)]
pub struct ColumnFrequencyTableParams {
    pub limit: i64,
}

#[derive(Debug, PartialEq, Eq)]
pub struct ColumnFrequencyTable {
    pub values: Vec<String>,
    pub counts: Vec<i64>,
    pub other_count: Option<i64>,
}

/// Why a column has no histogram.
#[derive(Clone, Copy, Debug, PartialEq, Eq, Structural)]
pub enum HistogramError {
    /// The column has a class that is no date.
    UnsupportedClass,
    /// The column holds no numbers.
    UnsupportedType,
}

/// Why a column has no histogram: only numbers and dates have one.
pub open spec fn histogram_support(
    classes: Option<Seq<String>>,
    vector_type: VectorType,
) -> Option<HistogramError> {
    match classes {
        Some(c) => if inherits(c, "Date"@) || inherits(c, "POSIXct"@) {
            None
        } else {
            Some(HistogramError::UnsupportedClass)
        },
        None => if vector_type == VectorType::Integer || vector_type == VectorType::Double {
            None
        } else {
            Some(HistogramError::UnsupportedType)
        },
    }
}

/// What R is asked for.
#[derive(Debug, PartialEq, Eq)]
pub struct HistogramRequest {
    pub method: &'static str,
    pub num_bins: i32,
}

/// The name of a method.
pub open spec fn method_name(method: ColumnHistogramParamsMethod) -> Seq<char> {
    match method {
        ColumnHistogramParamsMethod::Fixed => "fixed"@,
        ColumnHistogramParamsMethod::Sturges => "sturges"@,
        ColumnHistogramParamsMethod::FreedmanDiaconis => "fd"@,
        ColumnHistogramParamsMethod::Scott => "scott"@,
    }
}

/// What R is asked for to make the histogram of a column with these classes, if it
/// has any, and this internal type.
pub fn histogram_request<Q>(
    classes: &Option<Vec<String>>,
    vector_type: VectorType,
    params: &ColumnHistogramParams<Q>,
) -> (r: Result<HistogramRequest, HistogramError>)
    ensures
        ({
            let support = histogram_support(
                match *classes {
                    Some(c) => Some(c@),
                    None => None,
                },
                vector_type,
            );
            match r {
                Ok(request) => support is None && request.method@ == method_name(params.method)
                    && request.num_bins == params.num_bins as i32,
                Err(e) => support == Some(e),
            }
        }),
{
    match classes {
        Some(c) => {
            if !r_inherits(c, "Date") && !r_inherits(c, "POSIXct") {
                return Err(HistogramError::UnsupportedClass);
            }
        },
        None => {
            if vector_type != VectorType::Integer && vector_type != VectorType::Double {
                return Err(HistogramError::UnsupportedType);
            }
        },
    }
    let method: &'static str = match params.method {
        ColumnHistogramParamsMethod::Fixed => "fixed",
        ColumnHistogramParamsMethod::Sturges => "sturges",
        ColumnHistogramParamsMethod::FreedmanDiaconis => "fd",
        ColumnHistogramParamsMethod::Scott => "scott",
    };
    #[verifier::truncate]
    let num_bins: i32 = params.num_bins as i32;
    Ok(HistogramRequest { method, num_bins })
}

/// The counts as wide integers.
pub open spec fn widened(counts: Seq<i32>) -> Seq<i64> {
    counts.map_values(|c: i32| c as i64)
}

fn widen(counts: &Vec<i32>) -> (r: Vec<i64>)
    ensures
        r@ == widened(counts@),
{
    let mut r: Vec<i64> = Vec::new();
    let n: usize = counts.len();
    let mut i: usize = 0;
    while i < n
        invariant
            n == counts@.len(),
            i <= n,
            r@ == widened(counts@).take(i as int),
        decreases n - i,
    {
        r.push(counts[i] as i64);
        i = i + 1;
    }
    r
}

/// What R answers: the formatted edges of bins, the formatted values of quantiles,
/// and the counts of bins. None stands for what R did not compute.
#[derive(Debug)]
pub struct HistogramAnswer {
    pub bin_edges: Option<Vec<String>>,
    pub quantiles: Option<Vec<String>>,
    pub bin_counts: Option<Vec<i32>>,
}

/// There are counts, and they are not one fewer than the edges.
pub open spec fn counts_differ(edges: nat, counts: nat) -> bool {
    counts > 0 && counts != edges - 1
}

/// Why R's answer is no histogram, in words.
pub open spec fn histogram_fault(a: HistogramAnswer) -> Option<Seq<char>> {
    match (a.bin_edges, a.quantiles, a.bin_counts) {
        (None, _, _) => Some("`bin_edges` were not computed."@),
        (Some(_), None, _) => Some("`quantiles` were not computed"@),
        (Some(_), Some(_), None) => Some("`bin_counts` were not computed."@),
        (Some(edges), Some(_), Some(counts)) => if counts_differ(edges@.len(), counts@.len()) {
            Some(
                "`bin_counts` not compatible with `bin_edges`. `bin_counts.len()` ("@
                    + text::decimal(counts@.len()) + ") and `bin_edges_formatted.len()` ("@
                    + text::decimal(edges@.len()) + ")"@,
            )
        } else {
            None
        },
    }
}

/// The smaller of two numbers.
pub open spec fn fewer(a: nat, b: nat) -> nat {
    if a <= b {
        a
    } else {
        b
    }
}

/// The histogram that R's answer makes.
pub open spec fn is_histogram<Q>(
    h: ColumnHistogram<Q>,
    answer: HistogramAnswer,
    params: ColumnHistogramParams<Q>,
) -> bool {
    &&& h.bin_edges == answer.bin_edges->0
    &&& h.bin_counts@ == widened(answer.bin_counts->0@)
    &&& match params.quantiles {
        None => h.quantiles@.len() == 0,
        Some(qs) => h.quantiles@.len() == fewer(qs@.len(), answer.quantiles->0@.len())
            && forall|i: int|
            0 <= i < h.quantiles@.len() ==> (#[trigger] h.quantiles@[i]).q == qs@[i]
                && h.quantiles@[i].value == answer.quantiles->0@[i] && h.quantiles@[i].exact,
    }
}

/// The histogram that R's answer makes. The values of quantiles are those of the
/// probabilities that were asked for, in their order.
pub fn profile_histogram<Q: Copy>(answer: HistogramAnswer, params: &ColumnHistogramParams<Q>) -> (r:
    Result<ColumnHistogram<Q>, String>)
    requires
        answer.bin_edges is Some && answer.bin_counts is Some && answer.bin_counts->0@.len() > 0
            ==> answer.bin_edges->0@.len() > 0,
    ensures
        match histogram_fault(answer) {
            Some(message) => r matches Err(m) && m@ == message,
            None => r matches Ok(h) && is_histogram(h, answer, *params),
        },
{
    let bin_edges: Vec<String> = match answer.bin_edges {
        Some(v) => v,
        None => {
            return Err("`bin_edges` were not computed.".to_owned());
        },
    };
    let values: Vec<String> = match answer.quantiles {
        Some(v) => v,
        None => {
            return Err("`quantiles` were not computed".to_owned());
        },
    };
    let counts: Vec<i32> = match answer.bin_counts {
        Some(v) => v,
        None => {
            return Err("`bin_counts` were not computed.".to_owned());
        },
    };
    if counts.len() > 0 && counts.len() != bin_edges.len() - 1 {
        let mut m: String =
            "`bin_counts` not compatible with `bin_edges`. `bin_counts.len()` (".to_owned();
        m.append(text::u64_text(counts.len() as u64).as_str());
        m.append(") and `bin_edges_formatted.len()` (");
        m.append(text::u64_text(bin_edges.len() as u64).as_str());
        m.append(")");
        return Err(m);
    }
    let mut quantiles: Vec<ColumnQuantileValue<Q>> = Vec::new();
    if let Some(qs) = &params.quantiles {
        let n: usize = if qs.len() <= values.len() {
            qs.len()
        } else {
            values.len()
        };
        let mut i: usize = 0;
        while i < n
            invariant
                n <= qs@.len(),
                n <= values@.len(),
                i <= n,
                quantiles@.len() == i,
                forall|k: int|
                    0 <= k < i ==> (#[trigger] quantiles@[k]).q == qs@[k] && quantiles@[k].value
                        == values@[k] && quantiles@[k].exact,
            decreases n - i,
        {
            quantiles.push(
                ColumnQuantileValue { q: qs[i], value: values[i].clone(), exact: true },
            );
            i = i + 1;
        }
    }
    let bin_counts: Vec<i64> = widen(&counts);
    Ok(ColumnHistogram { bin_edges, bin_counts, quantiles })
}

/// A histogram has one bin between each two edges, or no bins.
pub proof fn law_bins_between_edges(a: HistogramAnswer)
    requires
        histogram_fault(a) is None,
    ensures
        a.bin_counts->0@.len() == 0 || a.bin_counts->0@.len() + 1 == a.bin_edges->0@.len(),
{
}

/// What R answers: the formatted values, their counts, and the count of all other
/// values. None stands for what R did not compute.
#[derive(Debug)]
pub struct FrequencyAnswer {
    pub values: Option<Vec<String>>,
    pub counts: Option<Vec<i32>>,
    pub other_count: Option<i32>,
}

/// As many values are counted as were asked for, so that there may be others.
pub open spec fn limit_reached(counts: nat, limit: i64) -> bool {
    counts == (limit as usize)
}

/// Why R's answer is no frequency table, in words.
pub open spec fn frequency_fault(a: FrequencyAnswer, limit: i64) -> Option<Seq<char>> {
    match (a.values, a.counts) {
        (None, _) => Some("Something went wrong when computing `values`"@),
        (Some(_), None) => Some("Something went wrong when computing `counts`"@),
        (Some(_), Some(counts)) => if limit_reached(counts@.len(), limit)
            && a.other_count is None {
            Some("Something went wrong when computing `others_count`"@)
        } else {
            None
        },
    }
}

/// The frequency table that R's answer makes.
pub open spec fn is_frequency_table(
    t: ColumnFrequencyTable,
    answer: FrequencyAnswer,
    params: ColumnFrequencyTableParams,
) -> bool {
    &&& t.values == answer.values->0
    &&& t.counts@ == widened(answer.counts->0@)
    &&& t.other_count == (if limit_reached(answer.counts->0@.len(), params.limit) {
        Some(answer.other_count->0 as i64)
    } else {
        None
    })
}

/// The frequency table that R's answer makes. Other values are counted only if as
/// many values are counted as were asked for.
pub fn profile_frequency_table(
    answer: FrequencyAnswer,
    params: &ColumnFrequencyTableParams,
) -> (r: Result<ColumnFrequencyTable, String>)
    ensures
        match frequency_fault(answer, params.limit) {
            Some(message) => r matches Err(m) && m@ == message,
            None => r matches Ok(t) && is_frequency_table(t, answer, *params),
        },
{
    let values: Vec<String> = match answer.values {
        Some(v) => v,
        None => {
            return Err("Something went wrong when computing `values`".to_owned());
        },
    };
    let counts: Vec<i32> = match answer.counts {
        Some(v) => v,
        None => {
            return Err("Something went wrong when computing `counts`".to_owned());
        },
    };
    #[verifier::truncate]
    let limit: usize = params.limit as usize;
    let other_count: Option<i64> = if counts.len() == limit {
        match answer.other_count {
            Some(v) => Some(v as i64),
            None => {
                return Err("Something went wrong when computing `others_count`".to_owned());
            },
        }
    } else {
        None
    };
    Ok(ColumnFrequencyTable { values, counts: widen(&counts), other_count })
}

/// A histogram tells what R counted: the edges as they are, one count for each bin, and
/// for each quantile that was asked for the value that R gave for it, in their order.
pub proof fn law_histograms_tell_what_r_counted<Q>(
    h: ColumnHistogram<Q>,
    answer: HistogramAnswer,
    params: ColumnHistogramParams<Q>,
    i: int,
)
    requires
        histogram_fault(answer) is None,
        is_histogram(h, answer, params),
    ensures
        h.bin_edges == answer.bin_edges->0,
        h.bin_counts@.len() == answer.bin_counts->0@.len(),
        0 <= i < h.bin_counts@.len() ==> h.bin_counts@[i] == answer.bin_counts->0@[i],
        h.bin_counts@.len() > 0 ==> h.bin_counts@.len() + 1 == h.bin_edges@.len(),
        params.quantiles is None ==> h.quantiles@.len() == 0,
        params.quantiles matches Some(qs) && qs@.len() == answer.quantiles->0@.len()
            ==> h.quantiles@.len() == params.quantiles->0@.len(),
        0 <= i < h.quantiles@.len() ==> h.quantiles@[i].q == params.quantiles->0@[i]
            && h.quantiles@[i].value == answer.quantiles->0@[i] && h.quantiles@[i].exact,
{
}

/// Only plain numbers, dates and times have histograms.
pub proof fn law_columns_with_histograms(vector_type: VectorType, classes: Seq<String>)
    ensures
        histogram_support(None, vector_type) is None <==> vector_type == VectorType::Integer
            || vector_type == VectorType::Double,
        histogram_support(Some(classes), vector_type) is None <==> text::texts(classes).contains(
            "Date"@,
        ) || text::texts(classes).contains("POSIXct"@),
{
}

/// The methods have the names that R knows.
pub proof fn law_names_of_methods()
    ensures
        method_name(ColumnHistogramParamsMethod::Fixed) == "fixed"@,
        method_name(ColumnHistogramParamsMethod::Sturges) == "sturges"@,
        method_name(ColumnHistogramParamsMethod::FreedmanDiaconis) == "fd"@,
        method_name(ColumnHistogramParamsMethod::Scott) == "scott"@,
{
}

/// A frequency table tells the values and counts that R gave, and how many other values
/// there are if as many values were told as were asked for.
pub proof fn law_frequency_tables_tell_what_r_counted(
    t: ColumnFrequencyTable,
    answer: FrequencyAnswer,
    params: ColumnFrequencyTableParams,
    i: int,
)
    requires
        0 <= params.limit <= usize::MAX,
        frequency_fault(answer, params.limit) is None,
        is_frequency_table(t, answer, params),
    ensures
        t.values == answer.values->0,
        t.counts@.len() == answer.counts->0@.len(),
        0 <= i < t.counts@.len() ==> t.counts@[i] == answer.counts->0@[i],
        t.counts@.len() == params.limit ==> t.other_count is Some && t.other_count->0
            == answer.other_count->0,
        t.counts@.len() != params.limit ==> t.other_count is None,
{
}

} // verus!
