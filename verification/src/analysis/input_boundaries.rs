//! Input boundaries of R code: which lines are blank, complete, incomplete and
//! invalid inputs.
use vstd::prelude::*;

use crate::analysis::sections::{
    answers, asked, complete_lines, expressions, first_error, first_incomplete, in_order,
    incomplete_section, invalid_section, is_trace, law_inputs_are_expressions,
    law_sections_follow, lemma_first_error, lemma_first_incomplete, lemma_merged_sorted, merged,
    on_some, sections, sorted_apart, starts_at, walk, well_behaved, BoundariesError, ParseResult,
    Sections,
};
use crate::coordinates::line_range::LineRange;
use crate::text;

verus! {

/// Boundaries are ranges over lines of text.
#[derive(Debug, PartialEq, Eq)]
pub struct InputBoundary {
    pub range: LineRange,
    pub kind: InputBoundaryKind,
}

#[derive(Debug, PartialEq, Eq)]
pub enum InputBoundaryKind {
    Whitespace,
    Complete,
    Incomplete,
    Invalid { message: String },
}

impl InputBoundary {
    pub fn new(range: LineRange, kind: InputBoundaryKind) -> (r: Self)
        ensures
            r == (InputBoundary { range, kind }),
    {
        Self { range, kind }
    }

    pub fn whitespace(range: LineRange) -> (r: Self)
        ensures
            r == (InputBoundary { range, kind: InputBoundaryKind::Whitespace }),
    {
        Self::new(range, InputBoundaryKind::Whitespace)
    }

    pub fn complete(range: LineRange) -> (r: Self)
        ensures
            r == (InputBoundary { range, kind: InputBoundaryKind::Complete }),
    {
        Self::new(range, InputBoundaryKind::Complete)
    }

    pub fn incomplete(range: LineRange) -> (r: Self)
        ensures
            r == (InputBoundary { range, kind: InputBoundaryKind::Incomplete }),
    {
        Self::new(range, InputBoundaryKind::Incomplete)
    }

    pub fn invalid(range: LineRange, message: String) -> (r: Self)
        ensures
            r == (InputBoundary { range, kind: InputBoundaryKind::Invalid { message } }),
    {
        Self::new(range, InputBoundaryKind::Invalid { message })
    }
}

/// One whitespace boundary for each line from `from` up to `to`.
pub open spec fn gap(from: int, to: int) -> Seq<InputBoundary> {
    Seq::new(
        if from < to {
            (to - from) as nat
        } else {
            0
        },
        |i: int|
            InputBoundary {
                range: LineRange { start: (from + i) as u32, end: (from + i + 1) as u32 },
                kind: InputBoundaryKind::Whitespace,
            },
    )
}

/// The line at which the ranges end.
pub open spec fn end_of(complete: Seq<LineRange>) -> int {
    if complete.len() == 0 {
        0
    } else {
        complete.last().end as int
    }
}

/// The complete ranges, with a whitespace boundary for each line before and
/// between them.
pub open spec fn with_gaps(complete: Seq<LineRange>) -> Seq<InputBoundary>
    decreases complete.len(),
{
    if complete.len() == 0 {
        Seq::empty()
    } else {
        (with_gaps(complete.drop_last()) + gap(
            end_of(complete.drop_last()),
            complete.last().start as int,
        )).push(InputBoundary { range: complete.last(), kind: InputBoundaryKind::Complete })
    }
}

/// The line at which complete inputs and blank lines end.
pub open spec fn next_section(
    incomplete: Option<LineRange>,
    invalid: Option<LineRange>,
    n_lines: u32,
) -> int {
    match (incomplete, invalid) {
        (Some(r), _) => r.start as int,
        (None, Some(r)) => r.start as int,
        (None, None) => n_lines as int,
    }
}

/// The complete ranges, with a whitespace boundary for each other line up to the
/// next section.
pub open spec fn filled(
    complete: Seq<LineRange>,
    incomplete: Option<LineRange>,
    invalid: Option<LineRange>,
    n_lines: u32,
) -> Seq<InputBoundary> {
    with_gaps(complete) + gap(end_of(complete), next_section(incomplete, invalid, n_lines))
}

fn push_gap(out: &mut Vec<InputBoundary>, from: u32, to: u32)
    ensures
        final(out)@ == old(out)@ + gap(from as int, to as int),
{
    let ghost before = out@;
    let mut line: u32 = from;
    assert(before + gap(from as int, from as int) =~= before);
    while line < to
        invariant
            from <= line,
            line <= to || line == from,
            out@ == before + gap(from as int, line as int),
        decreases to - line,
    {
        let ghost now = out@;
        out.push(InputBoundary::whitespace(LineRange::new(line, line + 1)));
        assert(out@ =~= before + gap(from as int, line + 1));
        line = line + 1;
    }
    if from >= to {
        assert(gap(from as int, line as int) =~= gap(from as int, to as int));
    }
}

/// Fills the lines that no complete expression holds with whitespace boundaries
/// of one line. These lines are empty, hold blanks only, or hold a comment.
pub fn fill_gaps(
    complete: &Vec<LineRange>,
    incomplete: &Option<LineRange>,
    invalid: &Option<LineRange>,
    n_lines: u32,
) -> (r: Vec<InputBoundary>)
    ensures
        r@ == filled(complete@, *incomplete, *invalid, n_lines),
{
    let mut out: Vec<InputBoundary> = Vec::new();
    let mut last_line: u32 = 0;
    let n: usize = complete.len();
    let mut i: usize = 0;
    while i < n
        invariant
            n == complete@.len(),
            i <= n,
            out@ == with_gaps(complete@.take(i as int)),
            last_line == end_of(complete@.take(i as int)),
        decreases n - i,
    {
        assert(complete@.take(i + 1).drop_last() =~= complete@.take(i as int));
        let range: LineRange = complete[i];
        push_gap(&mut out, last_line, range.start());
        last_line = range.end();
        out.push(InputBoundary::complete(range));
        i = i + 1;
    }
    assert(complete@.take(n as int) =~= complete@);
    let next: u32 = match (incomplete, invalid) {
        (Some(r), _) => r.start(),
        (None, Some(r)) => r.start(),
        (None, None) => n_lines,
    };
    push_gap(&mut out, last_line, next);
    out
}

/// The range of the invalid section.
pub open spec fn invalid_range(s: Option<(LineRange, String)>) -> Option<LineRange> {
    match s {
        Some(e) => Some(e.0),
        None => None,
    }
}

/// The boundaries of `n_lines` lines of code: blank lines and complete inputs,
/// then the incomplete input, then the invalid one.
pub open spec fn boundaries(t: Seq<ParseResult>, n_lines: u32) -> Seq<InputBoundary> {
    let n = n_lines as int;
    let incomplete = incomplete_section(t, n);
    let invalid = invalid_section(t, n);
    filled(merged(expressions(t)), incomplete, invalid_range(invalid), n_lines) + (
    match incomplete {
        Some(range) => seq![InputBoundary { range, kind: InputBoundaryKind::Incomplete }],
        None => Seq::empty(),
    }) + (match invalid {
        Some(e) => seq![
            InputBoundary { range: e.0, kind: InputBoundaryKind::Invalid { message: e.1 } },
        ],
        None => Seq::empty(),
    })
}

/// The boundaries of `n_lines` lines of code, from the parser's results for
/// fewer and fewer leading lines.
pub fn boundaries_of(t: &Vec<ParseResult>, n_lines: u32) -> (r: Vec<InputBoundary>)
    requires
        is_trace(t@, n_lines as int),
    ensures
        r@ == boundaries(t@, n_lines),
{
    let s: Sections = sections(t, n_lines);
    let range: Option<LineRange> = match &s.invalid {
        Some(e) => Some(e.0),
        None => None,
    };
    let mut out: Vec<InputBoundary> = fill_gaps(&s.complete, &s.incomplete, &range, n_lines);
    let ghost first = out@;
    if let Some(range) = s.incomplete {
        out.push(InputBoundary::incomplete(range));
    }
    let ghost second = out@;
    if let Some((range, message)) = s.invalid {
        out.push(InputBoundary::invalid(range, message));
    }
    assert(out@ =~= boundaries(t@, n_lines));
    out
}

/// Input boundaries of R code.
///
/// Tells which lines of `code` are complete, incomplete and invalid inputs, by
/// asking the R parser, `parse`, about all lines and then about fewer and fewer
/// leading lines.
pub fn input_boundaries<F: Fn(Vec<String>) -> Result<ParseResult, String>>(
    code: &str,
    parse: &F,
) -> (r: Result<Vec<InputBoundary>, BoundariesError>)
    requires
        forall|arg: Vec<String>| call_requires(parse, (arg,)),
    ensures
        r matches Err(BoundariesError::TooManyLines) <==> text::lines_of(code@).len() > u32::MAX,
        r matches Ok(b) ==> exists|t: Seq<ParseResult>| #[trigger]
            answers(parse, text::lines_of(code@), t) && is_trace(
                t,
                text::lines_of(code@).len() as int,
            ) && b@ == boundaries(t, text::lines_of(code@).len() as u32),
        r matches Err(BoundariesError::Parser(e)) ==> exists|t: Seq<ParseResult>|
            {
                &&& t.len() < text::lines_of(code@).len()
                &&& forall|j: int| 0 <= j < t.len() ==> !(#[trigger] t[j] is Complete)
                &&& #[trigger] answers(parse, text::lines_of(code@), t)
                &&& asked(
                    parse,
                    text::lines_of(code@),
                    text::lines_of(code@).len() - t.len(),
                    Err::<ParseResult, String>(e),
                )
            },
{
    let lines: Vec<String> = text::split_lines(code);
    assert(lines@.len() == text::lines_of(code@).len());
    if lines.len() > u32::MAX as usize {
        return Err(BoundariesError::TooManyLines);
    }
    let n_lines: u32 = lines.len() as u32;
    match walk(&lines, parse) {
        Err(e) => Err(BoundariesError::Parser(e)),
        Ok(t) => {
            let b: Vec<InputBoundary> = boundaries_of(&t, n_lines);
            assert(answers(parse, text::lines_of(code@), t@));
            Ok(b)
        },
    }
}

/// The boundaries follow one another without a gap, each with at least one line,
/// from line `from` up to line `to`.
pub open spec fn tiles(b: Seq<InputBoundary>, from: int, to: int) -> bool {
    &&& b.len() == 0 ==> from == to
    &&& b.len() > 0 ==> b[0].range.start == from && b.last().range.end == to
    &&& forall|i: int|
        0 <= i < b.len() ==> (#[trigger] b[i]).range.start < b[i].range.end && (i > 0 ==> b[i
            - 1].range.end == b[i].range.start)
}

/// The section to which a kind of boundary belongs, in the order of sections.
pub open spec fn section(kind: InputBoundaryKind) -> int {
    match kind {
        InputBoundaryKind::Whitespace => 0,
        InputBoundaryKind::Complete => 0,
        InputBoundaryKind::Incomplete => 1,
        InputBoundaryKind::Invalid { .. } => 2,
    }
}

proof fn lemma_tiles_add(a: Seq<InputBoundary>, b: Seq<InputBoundary>, x: int, y: int, z: int)
    requires
        tiles(a, x, y),
        tiles(b, y, z),
    ensures
        tiles(a + b, x, z),
{
    let c = a + b;
    assert forall|i: int| 0 <= i < c.len() implies (#[trigger] c[i]).range.start < c[i].range.end
        && (i > 0 ==> c[i - 1].range.end == c[i].range.start) by {
        if i < a.len() {
            assert(c[i] == a[i]);
        } else {
            assert(c[i] == b[i - a.len()]);
            if i == a.len() && i > 0 {
                assert(c[i - 1] == a.last());
            } else if i > a.len() {
                assert(c[i - 1] == b[i - a.len() - 1]);
            }
        }
    }
}

proof fn lemma_gap_tiles(from: int, to: int)
    requires
        0 <= from <= to <= u32::MAX,
    ensures
        tiles(gap(from, to), from, to),
        forall|i: int| 0 <= i < gap(from, to).len() ==> section((#[trigger] gap(from, to)[i]).kind) == 0,
{
}

proof fn lemma_with_gaps_tiles(complete: Seq<LineRange>, limit: int)
    requires
        sorted_apart(complete, limit),
    ensures
        tiles(with_gaps(complete), 0, end_of(complete)),
        end_of(complete) <= limit || complete.len() == 0,
        forall|i: int|
            0 <= i < with_gaps(complete).len() ==> section((#[trigger] with_gaps(complete)[i]).kind)
                == 0,
    decreases complete.len(),
{
    if complete.len() > 0 {
        let rest = complete.drop_last();
        let last = complete.last();
        lemma_with_gaps_tiles(rest, limit);
        if rest.len() > 0 {
            assert(complete[rest.len() - 1].end <= complete[complete.len() - 1].start);
        }
        lemma_gap_tiles(end_of(rest), last.start as int);
        lemma_tiles_add(
            with_gaps(rest),
            gap(end_of(rest), last.start as int),
            0,
            end_of(rest),
            last.start as int,
        );
        let one = seq![InputBoundary { range: last, kind: InputBoundaryKind::Complete }];
        let head = with_gaps(rest) + gap(end_of(rest), last.start as int);
        lemma_tiles_add(head, one, 0, last.start as int, last.end as int);
        assert(head + one =~= with_gaps(complete));
    }
}

/// With a parser that is well behaved the boundaries of any code
/// - are at least one,
/// - are sorted and do not overlap, and leave out no line,
/// - come in the order of complete, incomplete and invalid sections, and
/// - hold at most one incomplete and at most one invalid input.
pub proof fn law_boundaries(t: Seq<ParseResult>, n_lines: u32)
    requires
        n_lines > 0,
        is_trace(t, n_lines as int),
        well_behaved(t, n_lines as int),
    ensures
        boundaries(t, n_lines).len() > 0,
        tiles(boundaries(t, n_lines), 0, n_lines as int),
        forall|i: int, j: int|
            0 <= i < j < boundaries(t, n_lines).len() ==> {
                let a = section((#[trigger] boundaries(t, n_lines)[i]).kind);
                let b = section((#[trigger] boundaries(t, n_lines)[j]).kind);
                a <= b && (a == b ==> a == 0)
            },
{
    let n = n_lines as int;
    law_sections_follow(t, n);
    let c = complete_lines(t, n);
    let m = merged(expressions(t));
    let incomplete = incomplete_section(t, n);
    let invalid = invalid_section(t, n);
    lemma_with_gaps_tiles(m, c);
    let next = next_section(incomplete, invalid_range(invalid), n_lines);
    assert(next == c);
    lemma_gap_tiles(end_of(m), next);
    lemma_tiles_add(with_gaps(m), gap(end_of(m), next), 0, end_of(m), next);
    let head = filled(m, incomplete, invalid_range(invalid), n_lines);
    assert forall|i: int| 0 <= i < head.len() implies section((#[trigger] head[i]).kind) == 0 by {
        if i < with_gaps(m).len() {
            assert(head[i] == with_gaps(m)[i]);
        } else {
            assert(head[i] == gap(end_of(m), next)[i - with_gaps(m).len()]);
        }
    }
    let mid = match incomplete {
        Some(range) => seq![InputBoundary { range, kind: InputBoundaryKind::Incomplete }],
        None => Seq::empty(),
    };
    let tail = match invalid {
        Some(e) => seq![
            InputBoundary { range: e.0, kind: InputBoundaryKind::Invalid { message: e.1 } },
        ],
        None => Seq::empty(),
    };
    let mid_end = match incomplete {
        Some(range) => range.end as int,
        None => c,
    };
    lemma_tiles_add(head, mid, 0, c, mid_end);
    lemma_tiles_add(head + mid, tail, 0, mid_end, n);
}

proof fn lemma_with_gaps_kinds(complete: Seq<LineRange>, limit: int, k: int)
    requires
        sorted_apart(complete, limit),
        0 <= k < with_gaps(complete).len(),
    ensures
        ({
            let b = with_gaps(complete)[k];
            ||| b.kind is Complete && complete.contains(b.range)
            ||| b.kind is Whitespace && b.range.end == b.range.start + 1 && !on_some(
                complete,
                b.range.start as int,
            ) && b.range.end <= end_of(complete)
        }),
    decreases complete.len(),
{
    if complete.len() > 0 {
        let rest = complete.drop_last();
        let last = complete.last();
        let n = complete.len() - 1;
        let head = with_gaps(rest);
        let lines = gap(end_of(rest), last.start as int);
        assert(complete[n] == last);
        if k < head.len() {
            lemma_with_gaps_kinds(rest, limit, k);
            let b = head[k];
            assert(with_gaps(complete)[k] == b);
            if b.kind is Complete {
                let i = choose|i: int| 0 <= i < rest.len() && rest[i] == b.range;
                assert(complete[i] == b.range);
            } else {
                if rest.len() > 0 {
                    assert(complete[n - 1].end <= complete[n].start);
                }
                if on_some(complete, b.range.start as int) {
                    let i = choose|i: int|
                        0 <= i < complete.len() && (#[trigger] complete[i]).start <= b.range.start
                            && b.range.start < complete[i].end;
                    if i < n {
                        assert(rest[i] == complete[i]);
                    }
                }
            }
        } else if k < head.len() + lines.len() {
            let b = lines[k - head.len()];
            assert(with_gaps(complete)[k] == b);
            if on_some(complete, b.range.start as int) {
                let i = choose|i: int|
                    0 <= i < complete.len() && (#[trigger] complete[i]).start <= b.range.start
                        && b.range.start < complete[i].end;
                if i < n {
                    assert(complete[i].end <= end_of(rest)) by {
                        if i < n - 1 {
                            assert(complete[i].end <= complete[n - 1].start);
                        }
                    }
                }
            }
        } else {
            assert(with_gaps(complete)[k].range == last);
        }
    }
}

/// What each boundary stands for, told from what the parser says of the leading lines.
/// - A complete input starts where an expression starts and ends where one ends.
/// - A blank input is one line that no expression holds.
/// - The incomplete input ends with the longest run of leading lines that is incomplete.
/// - The invalid input ends with the last line, and tells the error of all lines.
pub proof fn law_kinds_of_boundaries(t: Seq<ParseResult>, n_lines: u32, k: int)
    requires
        n_lines > 0,
        is_trace(t, n_lines as int),
        well_behaved(t, n_lines as int),
        0 <= k < boundaries(t, n_lines).len(),
    ensures
        ({
            let b = boundaries(t, n_lines)[k];
            let exprs = t.last()->Complete_0@;
            match b.kind {
                InputBoundaryKind::Complete => {
                    &&& t.last() is Complete
                    &&& starts_at(exprs, b.range.start as int)
                    &&& on_some(exprs, b.range.start as int)
                    &&& on_some(exprs, b.range.end - 1)
                },
                InputBoundaryKind::Whitespace => {
                    &&& t.last() is Complete
                    &&& b.range.end == b.range.start + 1
                    &&& b.range.end <= n_lines - (t.len() - 1)
                    &&& !on_some(exprs, b.range.start as int)
                },
                InputBoundaryKind::Incomplete => exists|j: int|
                    {
                        &&& 0 <= j < t.len()
                        &&& #[trigger] t[j] is Incomplete
                        &&& b.range.end == n_lines - j
                        &&& forall|i: int| 0 <= i < j ==> !(#[trigger] t[i] is Incomplete)
                    },
                InputBoundaryKind::Invalid { message } => {
                    &&& t[0] matches ParseResult::SyntaxError { message: told }
                    &&& message == told
                    &&& b.range.end == n_lines
                },
            }
        }),
{
    let n = n_lines as int;
    law_sections_follow(t, n);
    lemma_first_incomplete(t, 0);
    lemma_first_error(t, 0);
    let c = complete_lines(t, n);
    let m = merged(expressions(t));
    let incomplete = incomplete_section(t, n);
    let invalid = invalid_section(t, n);
    let next = next_section(incomplete, invalid_range(invalid), n_lines);
    let b = boundaries(t, n_lines)[k];
    let head = with_gaps(m);
    let lines = gap(end_of(m), next);
    law_inputs_are_expressions(expressions(t), c);
    if first_error(t, 0) is Some && first_error(t, 0)->0 > 0 {
        assert(t[0] is SyntaxError);
    }
    assert(expressions(t).len() == 0 ==> m.len() == 0);
    if k < head.len() {
        assert(b == head[k]);
        lemma_with_gaps_kinds(m, c, k);
        if b.kind is Complete {
            let j = choose|j: int| 0 <= j < m.len() && m[j] == b.range;
            assert(m[j].start <= b.range.start && b.range.start < m[j].end);
            assert(on_some(m, b.range.start as int));
            assert(on_some(m, b.range.end - 1)) by {
                assert(m[j].start <= b.range.end - 1 && b.range.end - 1 < m[j].end);
            }
            lemma_starts(expressions(t), c, j);
        } else {
            assert(!on_some(m, b.range.start as int));
            lemma_end_below(m, c);
        }
    } else if k < head.len() + lines.len() {
        assert(b == lines[k - head.len()]);
        assert(c > 0);
        if on_some(m, b.range.start as int) {
            let i = choose|i: int|
                0 <= i < m.len() && (#[trigger] m[i]).start <= b.range.start && b.range.start
                    < m[i].end;
            assert(m[i].end <= end_of(m)) by {
                if i < m.len() - 1 {
                    assert(m[i].end <= m[m.len() - 1].start);
                }
            }
        }
    } else {
        if b.kind is Incomplete {
            let j = first_incomplete(t, 0)->0;
            assert(t[j] is Incomplete);
        }
    }
}

proof fn lemma_end_below(complete: Seq<LineRange>, limit: int)
    requires
        sorted_apart(complete, limit),
    ensures
        complete.len() > 0 ==> end_of(complete) <= limit,
{
}

/// Each merged range starts where a range starts.
proof fn lemma_starts(ranges: Seq<LineRange>, limit: int, j: int)
    requires
        in_order(ranges, limit),
        0 <= j < merged(ranges).len(),
    ensures
        starts_at(ranges, merged(ranges)[j].start as int),
    decreases ranges.len(),
{
    if ranges.len() > 0 {
        let less = ranges.drop_last();
        let m = merged(less);
        lemma_merged_sorted(less, limit);
        if j < m.len() {
            lemma_starts(less, limit, j);
            let i = choose|i: int| 0 <= i < less.len() && (#[trigger] less[i]).start == m[j].start;
            assert(ranges[i] == less[i]);
            if less.len() > 0 {
                assert(less.last() == ranges[ranges.len() - 2]);
                assert(ranges[ranges.len() - 2].start <= ranges[ranges.len() - 1].start);
            }
            assert(merged(ranges)[j].start == m[j].start);
        } else {
            assert(ranges[ranges.len() - 1].start == merged(ranges)[j].start);
        }
    }
}

/// Code whose lines are all complete has no incomplete and no invalid input. Code with a
/// syntax error ends with an invalid input, and code of which some leading lines are
/// incomplete has an incomplete input.
pub proof fn law_last_sections(t: Seq<ParseResult>, n_lines: u32)
    requires
        n_lines > 0,
        is_trace(t, n_lines as int),
        well_behaved(t, n_lines as int),
    ensures
        t[0] is Complete ==> forall|k: int|
            0 <= k < boundaries(t, n_lines).len() ==> (#[trigger] boundaries(
                t,
                n_lines,
            )[k]).kind is Complete || boundaries(t, n_lines)[k].kind is Whitespace,
        t[0] is SyntaxError ==> boundaries(t, n_lines).last().kind is Invalid,
        t[0] is Incomplete ==> boundaries(t, n_lines).last().kind is Incomplete,
        forall|j: int|
            0 <= j < t.len() && #[trigger] t[j] is Incomplete ==> exists|k: int|
                0 <= k < boundaries(t, n_lines).len() && (#[trigger] boundaries(
                    t,
                    n_lines,
                )[k]).kind is Incomplete,
{
    let n = n_lines as int;
    law_sections_follow(t, n);
    lemma_first_incomplete(t, 0);
    lemma_first_error(t, 0);
    let b = boundaries(t, n_lines);
    let m = merged(expressions(t));
    let incomplete = incomplete_section(t, n);
    let invalid = invalid_section(t, n);
    let head = filled(m, incomplete, invalid_range(invalid), n_lines);
    assert forall|k: int| 0 <= k < b.len() && t[0] is Complete implies (
    #[trigger] b[k]).kind is Complete || b[k].kind is Whitespace by {
        assert(t.len() == 1);
        law_kinds_of_boundaries(t, n_lines, k);
        if b[k].kind is Incomplete {
            let j = choose|j: int|
                {
                    &&& 0 <= j < t.len()
                    &&& #[trigger] t[j] is Incomplete
                    &&& b[k].range.end == n_lines - j
                    &&& forall|i: int| 0 <= i < j ==> !(#[trigger] t[i] is Incomplete)
                };
            assert(false);
        }
    }
    assert forall|j: int| 0 <= j < t.len() && #[trigger] t[j] is Incomplete implies exists|k: int|
        0 <= k < b.len() && (#[trigger] b[k]).kind is Incomplete by {
        assert(incomplete is Some);
        assert(b[head.len() as int].kind is Incomplete);
    }
}

} // verus!
