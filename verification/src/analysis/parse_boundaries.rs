//! Parse boundaries of R code: which lines are complete, incomplete and in
//! error.
use vstd::prelude::*;

use crate::analysis::sections::{
    answers, asked, complete_lines, expressions, incomplete_section, invalid_section, is_trace,
    law_sections_follow, merged, sections, sorted_apart, walk, well_behaved, BoundariesError,
    ParseResult, Sections,
};
use crate::analysis::input_boundaries::{
    boundaries, end_of, gap, invalid_range, next_section, with_gaps, InputBoundary,
};
use crate::coordinates::line_range::LineRange;
use crate::text;

verus! {

/// Boundaries are ranges over lines of text.
#[derive(Debug)]
pub struct ParseBoundaries {
    pub complete: Vec<LineRange>,
    pub incomplete: Option<LineRange>,
    pub error: Option<LineRange>,
}

/// One range for each line from `from` up to `to`.
pub open spec fn single_lines(from: int, to: int) -> Seq<LineRange> {
    Seq::new(
        if from < to {
            (to - from) as nat
        } else {
            0
        },
        |i: int| LineRange { start: (from + i) as u32, end: (from + i + 1) as u32 },
    )
}

/// The ranges, with a range for each line before and between them.
pub open spec fn with_single_lines(complete: Seq<LineRange>) -> Seq<LineRange>
    decreases complete.len(),
{
    if complete.len() == 0 {
        Seq::empty()
    } else {
        (with_single_lines(complete.drop_last()) + single_lines(
            end_of(complete.drop_last()),
            complete.last().start as int,
        )).push(complete.last())
    }
}

fn push_single_lines(out: &mut Vec<LineRange>, from: u32, to: u32)
    ensures
        final(out)@ == old(out)@ + single_lines(from as int, to as int),
{
    let ghost before = out@;
    let mut line: u32 = from;
    assert(before + single_lines(from as int, from as int) =~= before);
    while line < to
        invariant
            from <= line,
            line <= to || line == from,
            out@ == before + single_lines(from as int, line as int),
        decreases to - line,
    {
        out.push(LineRange::new(line, line + 1));
        assert(out@ =~= before + single_lines(from as int, line + 1));
        line = line + 1;
    }
    if from >= to {
        assert(single_lines(from as int, line as int) =~= single_lines(from as int, to as int));
    }
}

/// Fills the lines that no complete expression holds with complete ranges of one
/// line. These lines are empty, hold blanks only, or hold a comment.
pub fn fill_gaps(boundaries: ParseBoundaries, n_lines: u32) -> (r: ParseBoundaries)
    ensures
        r.complete@ == with_single_lines(boundaries.complete@) + single_lines(
            end_of(boundaries.complete@),
            next_section(boundaries.incomplete, boundaries.error, n_lines),
        ),
        r.incomplete == boundaries.incomplete,
        r.error == boundaries.error,
{
    let mut out: Vec<LineRange> = Vec::new();
    let mut last_line: u32 = 0;
    let n: usize = boundaries.complete.len();
    let mut i: usize = 0;
    while i < n
        invariant
            n == boundaries.complete@.len(),
            i <= n,
            out@ == with_single_lines(boundaries.complete@.take(i as int)),
            last_line == end_of(boundaries.complete@.take(i as int)),
        decreases n - i,
    {
        assert(boundaries.complete@.take(i + 1).drop_last() =~= boundaries.complete@.take(
            i as int,
        ));
        let range: LineRange = boundaries.complete[i];
        push_single_lines(&mut out, last_line, range.start());
        last_line = range.end();
        out.push(range);
        i = i + 1;
    }
    assert(boundaries.complete@.take(n as int) =~= boundaries.complete@);
    let next: u32 = match (&boundaries.incomplete, &boundaries.error) {
        (Some(r), _) => r.start(),
        (None, Some(r)) => r.start(),
        (None, None) => n_lines,
    };
    push_single_lines(&mut out, last_line, next);
    ParseBoundaries {
        complete: out,
        incomplete: boundaries.incomplete,
        error: boundaries.error,
    }
}

/// The complete ranges of `n_lines` lines of code, with a range for each line
/// that holds no expression.
pub open spec fn complete_ranges(t: Seq<ParseResult>, n_lines: u32) -> Seq<LineRange> {
    let n = n_lines as int;
    let m = merged(expressions(t));
    with_single_lines(m) + single_lines(
        end_of(m),
        next_section(
            incomplete_section(t, n),
            invalid_range(invalid_section(t, n)),
            n_lines,
        ),
    )
}

/// The boundaries of `n_lines` lines of code, from the parser's results for
/// fewer and fewer leading lines.
pub fn boundaries_of(t: &Vec<ParseResult>, n_lines: u32) -> (r: ParseBoundaries)
    requires
        is_trace(t@, n_lines as int),
    ensures
        r.complete@ == complete_ranges(t@, n_lines),
        r.incomplete == incomplete_section(t@, n_lines as int),
        r.error == invalid_range(invalid_section(t@, n_lines as int)),
{
    let s: Sections = sections(t, n_lines);
    let error: Option<LineRange> = match &s.invalid {
        Some(e) => Some(e.0),
        None => None,
    };
    fill_gaps(
        ParseBoundaries { complete: s.complete, incomplete: s.incomplete, error },
        n_lines,
    )
}

/// Parse boundaries of R code.
///
/// Tells which lines of `code` parse as complete, incomplete and error inputs,
/// by asking the R parser, `parse`, about all lines and then about fewer and
/// fewer leading lines.
pub fn parse_boundaries<F: Fn(Vec<String>) -> Result<ParseResult, String>>(
    code: &str,
    parse: &F,
) -> (r: Result<ParseBoundaries, BoundariesError>)
    requires
        forall|arg: Vec<String>| call_requires(parse, (arg,)),
    ensures
        r matches Err(BoundariesError::TooManyLines) <==> text::lines_of(code@).len() > u32::MAX,
        r matches Ok(b) ==> exists|t: Seq<ParseResult>| #[trigger]
            answers(parse, text::lines_of(code@), t) && is_trace(
                t,
                text::lines_of(code@).len() as int,
            ) && b.complete@ == complete_ranges(t, text::lines_of(code@).len() as u32)
                && b.incomplete == incomplete_section(t, text::lines_of(code@).len() as int)
                && b.error == invalid_range(
                invalid_section(t, text::lines_of(code@).len() as int),
            ),
        r matches Err(BoundariesError::Parser(e)) ==> exists|t: Seq<ParseResult>|
            {
                &&& t.len() < text::lines_of(code@).len()
                &&& forall|j: int| 0 <= j < t.len() ==> !(#[trigger] t[j] is Complete)
                &&& #[trigger] answers(parse, text::lines_of(code@), t)
                &&& asked(
                    parse,
                    text::lines_of(code@),
                    text::lines_of(code@).len() - t.len(),
                    Err::<ParseResult, String>(e),
                )
            },
{
    let lines: Vec<String> = text::split_lines(code);
    assert(lines@.len() == text::lines_of(code@).len());
    if lines.len() > u32::MAX as usize {
        return Err(BoundariesError::TooManyLines);
    }
    let n_lines: u32 = lines.len() as u32;
    match walk(&lines, parse) {
        Err(e) => Err(BoundariesError::Parser(e)),
        Ok(t) => {
            let b: ParseBoundaries = boundaries_of(&t, n_lines);
            assert(answers(parse, text::lines_of(code@), t@));
            Ok(b)
        },
    }
}

/// The ranges follow one another without a gap, each with at least one line,
/// from line `from` up to line `to`.
pub open spec fn cover_lines(b: Seq<LineRange>, from: int, to: int) -> bool {
    &&& b.len() == 0 ==> from == to
    &&& b.len() > 0 ==> b[0].start == from && b.last().end == to
    &&& forall|i: int|
        0 <= i < b.len() ==> (#[trigger] b[i]).start < b[i].end && (i > 0 ==> b[i - 1].end
            == b[i].start)
}

proof fn lemma_cover_add(a: Seq<LineRange>, b: Seq<LineRange>, x: int, y: int, z: int)
    requires
        cover_lines(a, x, y),
        cover_lines(b, y, z),
    ensures
        cover_lines(a + b, x, z),
{
    let c = a + b;
    assert forall|i: int| 0 <= i < c.len() implies (#[trigger] c[i]).start < c[i].end && (i > 0
        ==> c[i - 1].end == c[i].start) by {
        if i < a.len() {
            assert(c[i] == a[i]);
        } else {
            assert(c[i] == b[i - a.len()]);
            if i == a.len() && i > 0 {
                assert(c[i - 1] == a.last());
            } else if i > a.len() {
                assert(c[i - 1] == b[i - a.len() - 1]);
            }
        }
    }
}

proof fn lemma_with_single_lines(complete: Seq<LineRange>, limit: int)
    requires
        sorted_apart(complete, limit),
    ensures
        cover_lines(with_single_lines(complete), 0, end_of(complete)),
    decreases complete.len(),
{
    if complete.len() > 0 {
        let rest = complete.drop_last();
        let last = complete.last();
        lemma_with_single_lines(rest, limit);
        if rest.len() > 0 {
            assert(complete[rest.len() - 1].end <= complete[complete.len() - 1].start);
        }
        let lines = single_lines(end_of(rest), last.start as int);
        lemma_cover_add(
            with_single_lines(rest),
            lines,
            0,
            end_of(rest),
            last.start as int,
        );
        let head = with_single_lines(rest) + lines;
        lemma_cover_add(head, seq![last], 0, last.start as int, last.end as int);
        assert(head + seq![last] =~= with_single_lines(complete));
    }
}

/// With a parser that is well behaved the complete ranges are sorted and do not
/// overlap and leave out no line before the incomplete and error sections, which
/// follow them in this order up to the last line. There is always at least one
/// range.
pub proof fn law_boundaries(t: Seq<ParseResult>, n_lines: u32)
    requires
        n_lines > 0,
        is_trace(t, n_lines as int),
        well_behaved(t, n_lines as int),
    ensures
        ({
            let n = n_lines as int;
            let c = complete_lines(t, n);
            let incomplete = incomplete_section(t, n);
            let error = invalid_range(invalid_section(t, n));
            &&& cover_lines(complete_ranges(t, n_lines), 0, c)
            &&& match (incomplete, error) {
                (None, None) => c == n && complete_ranges(t, n_lines).len() > 0,
                (Some(i), None) => c == i.start < i.end == n,
                (None, Some(e)) => c == e.start < e.end == n,
                (Some(i), Some(e)) => c == i.start < i.end == e.start < e.end == n,
            }
        }),
{
    let n = n_lines as int;
    law_sections_follow(t, n);
    let c = complete_lines(t, n);
    let m = merged(expressions(t));
    lemma_with_single_lines(m, c);
    lemma_cover_add(with_single_lines(m), single_lines(end_of(m), c), 0, end_of(m), c);
}

/// The lines of boundaries.
pub open spec fn ranges_of(b: Seq<InputBoundary>) -> Seq<LineRange> {
    b.map_values(|b: InputBoundary| b.range)
}

proof fn lemma_gap_ranges(complete: Seq<LineRange>)
    ensures
        ranges_of(with_gaps(complete)) == with_single_lines(complete),
    decreases complete.len(),
{
    if complete.len() > 0 {
        let rest = complete.drop_last();
        lemma_gap_ranges(rest);
        let lines = gap(end_of(rest), complete.last().start as int);
        assert(ranges_of(lines) =~= single_lines(end_of(rest), complete.last().start as int));
        assert(ranges_of(with_gaps(complete)) =~= (ranges_of(with_gaps(rest)) + ranges_of(
            lines,
        )).push(complete.last()));
    } else {
        assert(ranges_of(with_gaps(complete)) =~= Seq::empty());
    }
}

/// Parse boundaries and input boundaries agree: on the same answers of the parser they
/// part the code into the same ranges of lines.
pub proof fn law_agrees_with_input_boundaries(t: Seq<ParseResult>, n_lines: u32)
    ensures
        ranges_of(boundaries(t, n_lines)) == complete_ranges(t, n_lines) + (
        match incomplete_section(t, n_lines as int) {
            Some(range) => seq![range],
            None => Seq::empty(),
        }) + (match invalid_range(invalid_section(t, n_lines as int)) {
            Some(range) => seq![range],
            None => Seq::empty(),
        }),
{
    let n = n_lines as int;
    let m = merged(expressions(t));
    let next = next_section(
        incomplete_section(t, n),
        invalid_range(invalid_section(t, n)),
        n_lines,
    );
    lemma_gap_ranges(m);
    assert(ranges_of(gap(end_of(m), next)) =~= single_lines(end_of(m), next));
    assert(ranges_of(boundaries(t, n_lines)) =~= ranges_of(with_gaps(m)) + ranges_of(
        gap(end_of(m), next),
    ) + (match incomplete_section(t, n) {
        Some(range) => seq![range],
        None => Seq::empty(),
    }) + (match invalid_range(invalid_section(t, n)) {
        Some(range) => seq![range],
        None => Seq::empty(),
    }));
}

} // verus!
