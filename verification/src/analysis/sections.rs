//! The complete, incomplete and invalid sections of R code, told from what the
//! R parser says of the leading lines.
use vstd::prelude::*;

use crate::coordinates::line_range::LineRange;
use crate::text;

verus! {

/// What the R parser says of some lines of code.
#[derive(Debug)]
pub enum ParseResult {
    /// The lines hold whole expressions, which stand at these lines.
    Complete(Vec<LineRange>),
    /// The lines end in the middle of an expression.
    Incomplete,
    /// The lines hold a syntax error.
    SyntaxError { message: String },
}

/// Why no boundaries are found.
#[derive(Debug, PartialEq, Eq)]
pub enum BoundariesError {
    /// The code has more lines than a line number can count.
    TooManyLines,
    /// The parser itself failed.
    Parser(String),
}

/// The sections of some code.
#[derive(Debug)]
pub struct Sections {
    pub complete: Vec<LineRange>,
    pub incomplete: Option<LineRange>,
    pub invalid: Option<(LineRange, String)>,
}

/// The first place at or after `from` with an incomplete result.
pub open spec fn first_incomplete(t: Seq<ParseResult>, from: int) -> Option<int>
    decreases t.len() - from,
{
    if from < 0 || from >= t.len() {
        None
    } else if t[from] is Incomplete {
        Some(from)
    } else {
        first_incomplete(t, from + 1)
    }
}

/// The first place at or after `from` with a syntax error.
pub open spec fn first_error(t: Seq<ParseResult>, from: int) -> Option<int>
    decreases t.len() - from,
{
    if from < 0 || from >= t.len() {
        None
    } else if t[from] is SyntaxError {
        Some(from)
    } else {
        first_error(t, from + 1)
    }
}

/// `t` holds the results for the first `n`, `n - 1`, ... lines, down to the
/// first result that is complete or else to one line.
pub open spec fn is_trace(t: Seq<ParseResult>, n: int) -> bool {
    &&& t.len() <= n
    &&& forall|j: int| 0 <= j < t.len() - 1 ==> !(#[trigger] t[j] is Complete)
    &&& t.len() < n ==> t.len() > 0 && t.last() is Complete
}

/// The number of leading lines that are complete.
pub open spec fn complete_lines(t: Seq<ParseResult>, n: int) -> int {
    if t.len() > 0 && t.last() is Complete {
        n - t.len() + 1
    } else {
        0
    }
}

/// The lines of the complete expressions, as the parser gives them.
pub open spec fn expressions(t: Seq<ParseResult>) -> Seq<LineRange> {
    if t.len() > 0 && t.last() is Complete {
        t.last()->Complete_0@
    } else {
        Seq::empty()
    }
}

/// The incomplete section runs from the complete lines to the longest run of
/// leading lines that is incomplete.
pub open spec fn incomplete_section(t: Seq<ParseResult>, n: int) -> Option<LineRange> {
    match first_incomplete(t, 0) {
        Some(j) => Some(
            LineRange { start: complete_lines(t, n) as u32, end: (n - j) as u32 },
        ),
        None => None,
    }
}

/// The invalid section ends with the longest run of leading lines that has a
/// syntax error, and starts after the longest shorter run that is incomplete,
/// or else after the complete lines.
pub open spec fn invalid_section(t: Seq<ParseResult>, n: int) -> Option<(LineRange, String)> {
    match first_error(t, 0) {
        Some(j) => Some(
            (
                LineRange {
                    start: match first_incomplete(t, j) {
                        Some(k) => (n - k) as u32,
                        None => complete_lines(t, n) as u32,
                    },
                    end: (n - j) as u32,
                },
                t[j]->message,
            ),
        ),
        None => None,
    }
}

/// The ranges with each one that starts inside its predecessor merged with it.
pub open spec fn merged(ranges: Seq<LineRange>) -> Seq<LineRange>
    decreases ranges.len(),
{
    if ranges.len() == 0 {
        ranges
    } else {
        let m = merged(ranges.drop_last());
        let range = ranges.last();
        if m.len() > 0 && m.last().has(range.start as int) {
            m.drop_last().push(m.last().spec_cover(range))
        } else {
            m.push(range)
        }
    }
}

/// Merges expressions that share a line, which a semicolon separates.
pub fn merge_overlapping(ranges: &Vec<LineRange>) -> (r: Vec<LineRange>)
    ensures
        r@ == merged(ranges@),
{
    let mut out: Vec<LineRange> = Vec::new();
    let n: usize = ranges.len();
    let mut i: usize = 0;
    while i < n
        invariant
            n == ranges@.len(),
            i <= n,
            out@ == merged(ranges@.take(i as int)),
        decreases n - i,
    {
        let range: LineRange = ranges[i];
        assert(ranges@.take(i + 1).drop_last() =~= ranges@.take(i as int));
        match out.pop() {
            None => {
                out.push(range);
            },
            Some(last) => {
                if last.contains(range.start()) {
                    out.push(last.cover(range));
                } else {
                    out.push(last);
                    out.push(range);
                }
            },
        }
        i = i + 1;
    }
    assert(ranges@.take(n as int) =~= ranges@);
    out
}

fn find_incomplete(t: &Vec<ParseResult>, from: usize) -> (r: Option<usize>)
    ensures
        match r {
            Some(j) => first_incomplete(t@, from as int) == Some(j as int),
            None => first_incomplete(t@, from as int) is None,
        },
        r matches Some(j) ==> from <= j < t@.len(),
{
    let n: usize = t.len();
    let mut j: usize = from;
    while j < n
        invariant
            n == t@.len(),
            from <= j,
            first_incomplete(t@, from as int) == first_incomplete(t@, j as int),
        decreases n - j,
    {
        if let ParseResult::Incomplete = &t[j] {
            return Some(j);
        }
        j = j + 1;
    }
    None
}

fn find_error(t: &Vec<ParseResult>) -> (r: Option<usize>)
    ensures
        match r {
            Some(j) => first_error(t@, 0) == Some(j as int),
            None => first_error(t@, 0) is None,
        },
        r matches Some(j) ==> j < t@.len() && t@[j as int] is SyntaxError,
{
    let n: usize = t.len();
    let mut j: usize = 0;
    while j < n
        invariant
            n == t@.len(),
            j <= n,
            first_error(t@, 0) == first_error(t@, j as int),
        decreases n - j,
    {
        if let ParseResult::SyntaxError { .. } = &t[j] {
            return Some(j);
        }
        j = j + 1;
    }
    None
}

/// The sections of `n_lines` lines of code, from the parser's results for fewer
/// and fewer leading lines.
pub fn sections(t: &Vec<ParseResult>, n_lines: u32) -> (r: Sections)
    requires
        is_trace(t@, n_lines as int),
    ensures
        r.complete@ == merged(expressions(t@)),
        r.incomplete == incomplete_section(t@, n_lines as int),
        r.invalid == invalid_section(t@, n_lines as int),
{
    let n: usize = t.len();
    let mut complete: Vec<LineRange> = Vec::new();
    let mut complete_end: u32 = 0;
    if n > 0 {
        if let ParseResult::Complete(ranges) = &t[n - 1] {
            complete = merge_overlapping(ranges);
            complete_end = n_lines - (n - 1) as u32;
        }
    }
    let incomplete: Option<LineRange> = match find_incomplete(t, 0) {
        Some(j) => Some(LineRange::new(complete_end, n_lines - j as u32)),
        None => None,
    };
    let invalid: Option<(LineRange, String)> = match find_error(t) {
        Some(j) => {
            let start: u32 = match find_incomplete(t, j) {
                Some(k) => n_lines - k as u32,
                None => complete_end,
            };
            let range: LineRange = LineRange::new(start, n_lines - j as u32);
            match &t[j] {
                ParseResult::SyntaxError { message } => Some((range, message.clone())),
                _ => None,
            }
        },
        None => None,
    };
    Sections { complete, incomplete, invalid }
}

/// The parser was asked about the first lines of `lines`, as many as `count`,
/// and answered with `answer`.
pub open spec fn asked<F: Fn(Vec<String>) -> Result<ParseResult, String>>(
    parse: &F,
    lines: Seq<Seq<char>>,
    count: int,
    answer: Result<ParseResult, String>,
) -> bool {
    exists|arg: Vec<String>|
        text::texts(arg@) == lines.take(count) && #[trigger] call_ensures(parse, (arg,), answer)
}

/// Every result of `t` is an answer of the parser.
pub open spec fn answers<F: Fn(Vec<String>) -> Result<ParseResult, String>>(
    parse: &F,
    lines: Seq<Seq<char>>,
    t: Seq<ParseResult>,
) -> bool {
    forall|j: int|
        0 <= j < t.len() ==> asked(
            parse,
            lines,
            lines.len() - j,
            Ok::<ParseResult, String>(#[trigger] t[j]),
        )
}

/// The first `count` lines.
fn leading(lines: &Vec<String>, count: usize) -> (r: Vec<String>)
    requires
        count <= lines@.len(),
    ensures
        text::texts(r@) == text::texts(lines@).take(count as int),
{
    let mut r: Vec<String> = Vec::new();
    let mut i: usize = 0;
    while i < count
        invariant
            i <= count <= lines@.len(),
            r@ == lines@.take(i as int),
        decreases count - i,
    {
        r.push(lines[i].clone());
        i = i + 1;
    }
    assert(text::texts(r@) =~= text::texts(lines@).take(count as int));
    r
}

/// Asks the parser about all lines, then about one line fewer at a time, until
/// what is left is complete. A failure of the parser ends the walk.
pub fn walk<F: Fn(Vec<String>) -> Result<ParseResult, String>>(
    lines: &Vec<String>,
    parse: &F,
) -> (r: Result<Vec<ParseResult>, String>)
    requires
        forall|arg: Vec<String>| call_requires(parse, (arg,)),
    ensures
        match r {
            Ok(t) => is_trace(t@, lines@.len() as int) && answers(
                parse,
                text::texts(lines@),
                t@,
            ),
            Err(e) => exists|t: Seq<ParseResult>|
                {
                    &&& t.len() < lines@.len()
                    &&& forall|j: int| 0 <= j < t.len() ==> !(#[trigger] t[j] is Complete)
                    &&& #[trigger] answers(parse, text::texts(lines@), t)
                    &&& asked(
                        parse,
                        text::texts(lines@),
                        lines@.len() - t.len(),
                        Err::<ParseResult, String>(e),
                    )
                },
        },
{
    let ghost ls = text::texts(lines@);
    let n: usize = lines.len();
    let mut t: Vec<ParseResult> = Vec::new();
    let mut left: usize = n;
    while left > 0
        invariant
            ls == text::texts(lines@),
            n == lines@.len(),
            left <= n,
            t@.len() == n - left,
            forall|arg: Vec<String>| call_requires(parse, (arg,)),
            forall|j: int| 0 <= j < t@.len() ==> !(#[trigger] t@[j] is Complete),
            answers(parse, ls, t@),
        decreases left,
    {
        let arg: Vec<String> = leading(lines, left);
        let ghost arg_view = arg;
        let answer: Result<ParseResult, String> = parse(arg);
        assert(call_ensures(parse, (arg_view,), answer));
        assert(asked(parse, ls, left as int, answer));
        match answer {
            Err(e) => {
                assert(answers(parse, ls, t@));
                return Err(e);
            },
            Ok(result) => {
                let done: bool = match &result {
                    ParseResult::Complete(_) => true,
                    _ => false,
                };
                let ghost before = t@;
                t.push(result);
                proof {
                    assert forall|j: int| 0 <= j < t@.len() implies asked(
                        parse,
                        ls,
                        ls.len() - j,
                        Ok::<ParseResult, String>(#[trigger] t@[j]),
                    ) by {
                        if j < before.len() {
                            assert(t@[j] == before[j]);
                        }
                    }
                }
                if done {
                    return Ok(t);
                }
            },
        }
        left = left - 1;
    }
    Ok(t)
}

// What a parser of a language keeps to: a syntax error in some lines is there in
// any more lines, and expressions come in the order of their lines.

/// The results are those of a parser that reads lines from the first to the
/// last: what follows a syntax error does not undo it, and complete expressions
/// are given in order, each with at least one line, within the lines given.
pub open spec fn well_behaved(t: Seq<ParseResult>, n: int) -> bool {
    &&& forall|i: int, j: int|
        0 <= i < j < t.len() && #[trigger] t[j] is SyntaxError ==> #[trigger] t[i] is SyntaxError
    &&& in_order(expressions(t), complete_lines(t, n))
}

/// Ranges of at least one line below `limit` that start in order.
pub open spec fn in_order(ranges: Seq<LineRange>, limit: int) -> bool {
    &&& forall|i: int|
        0 <= i < ranges.len() ==> (#[trigger] ranges[i]).start < ranges[i].end <= limit
    &&& forall|i: int, j: int|
        0 <= i < j < ranges.len() ==> (#[trigger] ranges[i]).start <= (#[trigger] ranges[j]).start
}

/// Ranges of at least one line below `limit` that are sorted and do not overlap.
pub open spec fn sorted_apart(ranges: Seq<LineRange>, limit: int) -> bool {
    &&& forall|i: int|
        0 <= i < ranges.len() ==> (#[trigger] ranges[i]).start < ranges[i].end <= limit
    &&& forall|i: int, j: int|
        0 <= i < j < ranges.len() ==> (#[trigger] ranges[i]).end <= (#[trigger] ranges[j]).start
}

/// Merging ranges that start in order leaves ranges that do not overlap, the
/// last of them starting no later than the last range given.
pub proof fn lemma_merged_sorted(ranges: Seq<LineRange>, limit: int)
    requires
        in_order(ranges, limit),
    ensures
        sorted_apart(merged(ranges), limit),
        ranges.len() > 0 ==> merged(ranges).len() > 0 && merged(ranges).last().start
            <= ranges.last().start,
        ranges.len() == 0 ==> merged(ranges).len() == 0,
    decreases ranges.len(),
{
    if ranges.len() > 0 {
        lemma_merged_sorted(ranges.drop_last(), limit);
        let m = merged(ranges.drop_last());
        let range = ranges.last();
        if ranges.len() > 1 {
            assert(ranges.drop_last().last() == ranges[ranges.len() - 2]);
            assert(m.last().start <= range.start);
        }
        if m.len() > 0 && m.last().has(range.start as int) {
            let covered = m.last().spec_cover(range);
            assert(covered.start == m.last().start);
            assert forall|i: int, j: int|
                0 <= i < j < merged(ranges).len() implies (#[trigger] merged(ranges)[i]).end <= (
            #[trigger] merged(ranges)[j]).start by {
                assert(merged(ranges)[i] == m[i]);
                if j == m.len() - 1 {
                    assert(m[i].end <= m[m.len() - 1].start);
                } else {
                    assert(merged(ranges)[j] == m[j]);
                }
            }
        } else {
            assert forall|i: int, j: int|
                0 <= i < j < merged(ranges).len() implies (#[trigger] merged(ranges)[i]).end <= (
            #[trigger] merged(ranges)[j]).start by {
                if j == m.len() {
                    assert(m[i].end <= m.last().end) by {
                        if i < m.len() - 1 {
                            assert(m[i].end <= m[m.len() - 1].start);
                        }
                    }
                }
            }
        }
    }
}

pub proof fn lemma_first_incomplete(t: Seq<ParseResult>, from: int)
    requires
        0 <= from,
    ensures
        match first_incomplete(t, from) {
            Some(j) => from <= j < t.len() && t[j] is Incomplete && forall|i: int|
                from <= i < j ==> !(#[trigger] t[i] is Incomplete),
            None => forall|i: int| from <= i < t.len() ==> !(#[trigger] t[i] is Incomplete),
        },
    decreases t.len() - from,
{
    if from < t.len() && !(t[from] is Incomplete) {
        lemma_first_incomplete(t, from + 1);
    }
}

pub proof fn lemma_first_error(t: Seq<ParseResult>, from: int)
    requires
        0 <= from,
    ensures
        match first_error(t, from) {
            Some(j) => from <= j < t.len() && t[j] is SyntaxError && forall|i: int|
                from <= i < j ==> !(#[trigger] t[i] is SyntaxError),
            None => forall|i: int| from <= i < t.len() ==> !(#[trigger] t[i] is SyntaxError),
        },
    decreases t.len() - from,
{
    if from < t.len() && !(t[from] is SyntaxError) {
        lemma_first_error(t, from + 1);
    }
}

/// With a parser that is well behaved the sections follow one another: the
/// incomplete section starts where the complete lines end, the invalid section
/// starts where the section before it ends, and the last section ends with the
/// last line.
pub proof fn law_sections_follow(t: Seq<ParseResult>, n: int)
    requires
        0 < n <= u32::MAX,
        is_trace(t, n),
        well_behaved(t, n),
    ensures
        0 <= complete_lines(t, n) <= n,
        match (incomplete_section(t, n), invalid_section(t, n)) {
            (None, None) => complete_lines(t, n) == n,
            (Some(i), None) => complete_lines(t, n) == i.start && i.start < i.end && i.end == n,
            (None, Some(e)) => complete_lines(t, n) == e.0.start && e.0.start < e.0.end && e.0.end
                == n,
            (Some(i), Some(e)) => complete_lines(t, n) == i.start && i.start < i.end && i.end
                == e.0.start && e.0.start < e.0.end && e.0.end == n,
        },
        sorted_apart(merged(expressions(t)), complete_lines(t, n)),
{
    lemma_first_incomplete(t, 0);
    lemma_first_error(t, 0);
    lemma_merged_sorted(expressions(t), complete_lines(t, n));
    if let Some(j) = first_error(t, 0) {
        lemma_first_incomplete(t, j);
        if j > 0 {
            assert(t[0] is SyntaxError);
        }
        assert(j == 0);
    } else {
        if let Some(j) = first_incomplete(t, 0) {
            if j > 0 {
                assert(!(t[0] is Complete));
            }
        } else {
            assert(!(t[0] is Incomplete));
            if !(t[0] is Complete) {
                assert(!(t[0] is SyntaxError));
            }
        }
    }
}

/// One of the ranges holds the line.
pub open spec fn on_some(ranges: Seq<LineRange>, line: int) -> bool {
    exists|i: int|
        0 <= i < ranges.len() && (#[trigger] ranges[i]).start <= line && line < ranges[i].end
}

/// One of the ranges starts at the line.
pub open spec fn starts_at(ranges: Seq<LineRange>, line: int) -> bool {
    exists|i: int| 0 <= i < ranges.len() && (#[trigger] ranges[i]).start == line
}

/// One of the ranges reaches from `start` to `end` or further.
pub open spec fn spans(ranges: Seq<LineRange>, start: int, end: int) -> bool {
    exists|i: int|
        0 <= i < ranges.len() && (#[trigger] ranges[i]).start <= start && end <= ranges[i].end
}

/// One of the ranges ends at the line.
spec fn ends_at(ranges: Seq<LineRange>, line: int) -> bool {
    exists|i: int| 0 <= i < ranges.len() && (#[trigger] ranges[i]).end == line
}

/// The ranges before place `k` end before the one at `k` starts, or where it starts.
pub open spec fn stands_apart(ranges: Seq<LineRange>, k: int) -> bool {
    forall|i: int| 0 <= i < k ==> (#[trigger] ranges[i]).end <= ranges[k].start
}

/// Complete inputs are the expressions, those that share a line taken together. With
/// expressions that come in order
/// - the inputs hold the lines that the expressions hold, and no others,
/// - they come in order and share no line,
/// - each expression lies within one input, and
/// - an expression that shares no line with those before it starts an input of its own.
pub proof fn law_inputs_are_expressions(ranges: Seq<LineRange>, limit: int)
    requires
        in_order(ranges, limit),
    ensures
        forall|line: int| #[trigger] on_some(merged(ranges), line) <==> on_some(ranges, line),
        forall|i: int, j: int|
            0 <= i < j < merged(ranges).len() ==> (#[trigger] merged(ranges)[i]).end <= (
            #[trigger] merged(ranges)[j]).start,
        forall|i: int|
            0 <= i < ranges.len() ==> spans(
                merged(ranges),
                (#[trigger] ranges[i]).start as int,
                ranges[i].end as int,
            ),
        forall|k: int|
            0 <= k < ranges.len() && #[trigger] stands_apart(ranges, k) ==> starts_at(
                merged(ranges),
                ranges[k].start as int,
            ),
{
    lemma_merged_sorted(ranges, limit);
    lemma_inputs(ranges, limit);
}

/// Two expressions are one input only if they share a line: where an expression ends
/// before the next one starts, the next one starts an input of its own.
pub proof fn law_apart_expressions_stay_apart(ranges: Seq<LineRange>, limit: int, i: int)
    requires
        in_order(ranges, limit),
        forall|a: int, b: int|
            0 <= a < b < ranges.len() ==> (#[trigger] ranges[a]).end <= (#[trigger] ranges[b]).end,
        0 <= i < ranges.len() - 1,
        ranges[i].end <= ranges[i + 1].start,
    ensures
        starts_at(merged(ranges), ranges[i + 1].start as int),
        forall|j: int|
            0 <= j < merged(ranges).len() ==> !((#[trigger] merged(ranges)[j]).start
                < ranges[i + 1].start && ranges[i + 1].start < merged(ranges)[j].end),
{
    assert(stands_apart(ranges, i + 1)) by {
        assert forall|a: int| 0 <= a < i + 1 implies (#[trigger] ranges[a]).end <= ranges[i
            + 1].start by {
            if a < i {
                assert(ranges[a].end <= ranges[i].end);
            }
        }
    }
    law_inputs_are_expressions(ranges, limit);
    let m = merged(ranges);
    let k = choose|k: int| 0 <= k < m.len() && (#[trigger] m[k]).start == ranges[i + 1].start;
    assert forall|j: int| 0 <= j < m.len() implies !((#[trigger] m[j]).start < ranges[i + 1].start
        && ranges[i + 1].start < m[j].end) by {
        if j < k {
            assert(m[j].end <= m[k].start);
        } else if k < j {
            lemma_merged_sorted(ranges, limit);
            assert(m[k].start < m[k].end);
            assert(m[k].end <= m[j].start);
        }
    }
}

proof fn lemma_inputs(ranges: Seq<LineRange>, limit: int)
    requires
        in_order(ranges, limit),
    ensures
        forall|line: int| #[trigger] on_some(merged(ranges), line) <==> on_some(ranges, line),
        forall|i: int|
            0 <= i < ranges.len() ==> spans(
                merged(ranges),
                (#[trigger] ranges[i]).start as int,
                ranges[i].end as int,
            ),
        forall|k: int|
            0 <= k < ranges.len() && #[trigger] stands_apart(ranges, k) ==> starts_at(
                merged(ranges),
                ranges[k].start as int,
            ),
        ranges.len() > 0 ==> merged(ranges).len() > 0 && ends_at(
            ranges,
            merged(ranges).last().end as int,
        ),
    decreases ranges.len(),
{
    if ranges.len() > 0 {
        let less = ranges.drop_last();
        let m = merged(less);
        let n = ranges.len() - 1;
        let range = ranges.last();
        let r = merged(ranges);
        lemma_inputs(less, limit);
        lemma_merged_sorted(less, limit);
        lemma_merged_sorted(ranges, limit);
        assert(range == ranges[n]);
        if m.len() > 0 {
            assert(less.last() == ranges[n - 1]);
            assert(m.last().start <= less.last().start <= range.start);
            let e = choose|e: int|
                0 <= e < less.len() && (#[trigger] less[e]).end == m.last().end;
            assert(ranges[e].end == m.last().end);
        }
        // Every range of `m` is there, the last one perhaps longer.
        assert forall|j: int| 0 <= j < m.len() implies r[j].start == (#[trigger] m[j]).start
            && r[j].end >= m[j].end by {}
        let last = r.len() - 1;
        assert(r[last].start <= range.start && range.end <= r[last].end);
        assert forall|line: int| #[trigger] on_some(r, line) <==> on_some(ranges, line) by {
            if on_some(r, line) {
                let j = choose|j: int|
                    0 <= j < r.len() && (#[trigger] r[j]).start <= line && line < r[j].end;
                if range.start <= line && line < range.end {
                    assert(ranges[n].start <= line);
                } else {
                    assert(j < m.len());
                    assert(m[j].start <= line && line < m[j].end);
                    assert(on_some(m, line));
                    let i = choose|i: int|
                        0 <= i < less.len() && (#[trigger] less[i]).start <= line && line
                            < less[i].end;
                    assert(ranges[i] == less[i]);
                }
            }
            if on_some(ranges, line) {
                let i = choose|i: int|
                    0 <= i < ranges.len() && (#[trigger] ranges[i]).start <= line && line
                        < ranges[i].end;
                if i == n {
                    assert(r[last].start <= line && line < r[last].end);
                } else {
                    assert(less[i] == ranges[i]);
                    assert(on_some(less, line));
                    assert(on_some(m, line));
                    let j = choose|j: int|
                        0 <= j < m.len() && (#[trigger] m[j]).start <= line && line < m[j].end;
                    assert(r[j].start <= line && line < r[j].end);
                }
            }
        }
        assert forall|i: int| 0 <= i < ranges.len() implies spans(
            r,
            (#[trigger] ranges[i]).start as int,
            ranges[i].end as int,
        ) by {
            if i < n {
                assert(less[i] == ranges[i]);
                let j = choose|j: int|
                    0 <= j < m.len() && (#[trigger] m[j]).start <= less[i].start && less[i].end
                        <= m[j].end;
                assert(r[j].start <= ranges[i].start && ranges[i].end <= r[j].end);
            } else {
                assert(r[last].start <= ranges[i].start);
            }
        }
        assert forall|k: int| 0 <= k < ranges.len() && #[trigger] stands_apart(
            ranges,
            k,
        ) implies starts_at(r, ranges[k].start as int) by {
            if k < n {
                assert(less[k] == ranges[k]);
                assert(stands_apart(less, k)) by {
                    assert forall|i: int| 0 <= i < k implies (#[trigger] less[i]).end
                        <= less[k].start by {
                        assert(less[i] == ranges[i]);
                    }
                }
                let j = choose|j: int| 0 <= j < m.len() && (#[trigger] m[j]).start == less[k].start;
                assert(r[j].start == ranges[k].start);
            } else {
                assert(r[last].start == range.start);
            }
        }
        assert(ends_at(ranges, r.last().end as int)) by {
            if r.last().end == range.end {
                assert(ranges[n].end == r.last().end);
            }
        }
    }
}

} // verus!
