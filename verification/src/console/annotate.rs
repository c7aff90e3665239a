//! Annotation of R code with breakpoints.
//!
//! A breakpoint on an expression in braces is injected as a call before it. The
//! expression is then preceded by a directive that maps it to its line in the
//! document. After an expression that holds breakpoints a call is injected that
//! verifies them. Breakpoints that stand nowhere in braces, or on a closing brace,
//! are invalid.
//!
//! The code comes as a tree of which only braces, the lists of expressions in them
//! and the lines of these expressions are known. Everything else is text.
use std::collections::HashSet;
use vstd::prelude::*;

use crate::dap::breakpoints::{Breakpoint, BreakpointState, InvalidReason};
use crate::dap::dap_notebook::CodeLocation;
use crate::text;

verus! {

broadcast use vstd::std_specs::hash::group_hash_axioms;

/// Kinds of text between tokens.
#[derive(Clone, Copy, Debug, PartialEq, Eq, Structural)]
pub enum TriviaKind {
    Newline,
    Whitespace,
    Comment,
    Skipped,
}

/// Some text between tokens.
#[derive(Debug)]
pub struct TriviaPiece {
    pub kind: TriviaKind,
    pub text: String,
}

/// An expression of a list: what stands before its first token, and the rest.
#[derive(Debug)]
pub struct Expr {
    pub leading: Vec<TriviaPiece>,
    pub body: Vec<Piece>,
    /// The line of the code on which the expression starts.
    pub start: u32,
    /// The line of the code after the one on which the expression ends.
    pub end: u32,
}

/// A part of an expression.
#[derive(Debug)]
pub enum Piece {
    Text(String),
    Braces(Braced),
}

/// A list of expressions in braces.
#[derive(Debug)]
pub struct Braced {
    /// The opening brace, with what stands before it.
    pub open: String,
    /// The line of the code on which the opening brace stands.
    pub line: u32,
    pub exprs: Vec<Expr>,
    /// The closing brace, with what stands before it.
    pub close: String,
}

/// Some R code.
#[derive(Debug)]
pub struct RCode {
    pub exprs: Vec<Expr>,
    /// What stands after the last expression.
    pub tail: String,
}

/// Why code cannot be annotated.
#[derive(Clone, Copy, Debug, PartialEq, Eq, Structural)]
pub enum AnnotateError {
    /// An expression ends before the document starts, on this line.
    NegativeLastLine(i64),
    /// An expression that needs a directive starts before the document, on this
    /// line.
    NegativeDirectiveLine(i64),
}

/// What is known of breakpoints while code is annotated.
#[verifier::ext_equal]
pub struct Marks {
    pub bps: Seq<Breakpoint>,
    /// The ids of breakpoints that were injected.
    pub consumed: Set<i64>,
}

/// The document that the code comes from, and the line at which the code starts.
/// The line is negative for code that was wrapped.
pub struct Origin {
    pub uri: Seq<char>,
    pub offset: int,
}

/// The breakpoint can still be injected.
pub open spec fn is_available(m: Marks, i: int) -> bool {
    !m.consumed.contains(m.bps[i].id) && !(m.bps[i].state is Invalid)
}

/// The breakpoint anchors to an expression that ends on line `last`, where the
/// expression before it ends before line `prev_end`.
pub open spec fn anchors(m: Marks, i: int, prev_end: int, last: int) -> bool {
    is_available(m, i) && m.bps[i].line <= last && (m.bps[i].line as i32) >= prev_end
}

/// The first breakpoint that anchors to an expression.
pub open spec fn first_anchor(m: Marks, prev_end: int, last: int, from: int) -> Option<int>
    decreases m.bps.len() - from,
{
    if from < 0 || from >= m.bps.len() {
        None
    } else if anchors(m, from, prev_end, last) {
        Some(from)
    } else {
        first_anchor(m, prev_end, last, from + 1)
    }
}

/// The breakpoints after those that anchor to an expression were injected at its
/// start.
pub open spec fn anchored(m: Marks, prev_end: int, last: int, start: int) -> Marks {
    Marks {
        bps: Seq::new(
            m.bps.len(),
            |i: int|
                if anchors(m, i, prev_end, last) {
                    Breakpoint { line: start as u32, ..m.bps[i] }
                } else {
                    m.bps[i]
                },
        ),
        consumed: m.consumed.union(
            Set::new(
                |id: i64|
                    exists|i: int|
                        0 <= i < m.bps.len() && #[trigger] anchors(m, i, prev_end, last)
                            && m.bps[i].id == id,
            ),
        ),
    }
}

/// Some breakpoint that is not invalid stands on a line from `start` up to `end`.
pub open spec fn breakpoints_in_range(bps: Seq<Breakpoint>, start: int, end: int) -> bool {
    exists|i: int|
        0 <= i < bps.len() && !((#[trigger] bps[i]).state is Invalid) && start <= (
        bps[i].line as i32) < end
}

/// The breakpoint is left over between two lines, both of them included.
pub open spec fn left_over(m: Marks, i: int, bounds: Option<(int, int)>) -> bool {
    is_available(m, i) && match bounds {
        Some((start, end)) => start <= (m.bps[i].line as i32) <= end,
        None => true,
    }
}

/// The breakpoints after those that are left over were marked invalid.
pub open spec fn invalidated(m: Marks, bounds: Option<(int, int)>) -> Marks {
    Marks {
        bps: Seq::new(
            m.bps.len(),
            |i: int|
                if left_over(m, i, bounds) {
                    Breakpoint {
                        state: BreakpointState::Invalid(InvalidReason::ClosingBrace),
                        ..m.bps[i]
                    }
                } else {
                    m.bps[i]
                },
        ),
        consumed: m.consumed,
    }
}

/// The first line whose breakpoints belong to a list in braces. Those on the line
/// of the brace belong to the list around it if the list starts on a later line.
pub open spec fn spec_breakpoint_floor(brace_start: int, first_start: int) -> int {
    if first_start > brace_start {
        brace_start + 1
    } else {
        brace_start
    }
}

/// The first line whose breakpoints belong to a list in braces.
pub fn breakpoint_floor(brace_doc_start: i64, first_expr_doc_start: i64) -> (r: i64)
    ensures
        r == spec_breakpoint_floor(brace_doc_start as int, first_expr_doc_start as int),
{
    if first_expr_doc_start > brace_doc_start {
        brace_doc_start + 1
    } else {
        brace_doc_start
    }
}

/// The call that is injected for a breakpoint.
pub open spec fn breakpoint_call(uri: Seq<char>, id: i64) -> Seq<char> {
    "\nbase::.ark_auto_step(base::.ark_breakpoint(browser(), \""@ + uri + "\", \""@
        + text::decimal_int(id as int) + "\"))\n"@
}

/// The call that is injected for a breakpoint.
pub fn create_breakpoint_call(uri: &str, id: i64) -> (r: String)
    ensures
        r@ == breakpoint_call(uri@, id),
{
    let mut r: String =
        "\nbase::.ark_auto_step(base::.ark_breakpoint(browser(), \"".to_owned();
    r.append(uri);
    r.append("\", \"");
    r.append(text::i64_text(id).as_str());
    r.append("\"))\n");
    r
}

/// The call that verifies the breakpoints from line `start` up to line `end`, which
/// count from zero.
pub open spec fn verify_call(uri: Seq<char>, start: int, end: int) -> Seq<char> {
    "base::.ark_auto_step(base::.ark_verify_breakpoints_range(\""@ + uri + "\", "@
        + text::decimal_int(start + 1) + "L, "@ + text::decimal_int(end + 1) + "L))"@
}

/// The call that verifies the breakpoints from line `start` up to line `end`.
pub fn format_verify_call(uri: &str, start: i64, end: i64) -> (r: String)
    requires
        0 <= start < i64::MAX,
        0 <= end < i64::MAX,
    ensures
        r@ == verify_call(uri@, start as int, end as int),
{
    let mut r: String =
        "base::.ark_auto_step(base::.ark_verify_breakpoints_range(\"".to_owned();
    r.append(uri);
    r.append("\", ");
    r.append(text::i64_text(start + 1).as_str());
    r.append("L, ");
    r.append(text::i64_text(end + 1).as_str());
    r.append("L))");
    r
}

/// The directive that maps what follows it to a line, which counts from zero.
pub open spec fn line_directive(uri: Seq<char>, line: int) -> Seq<char> {
    "#line "@ + text::decimal_int(line + 1) + " \""@ + uri + "\""@
}

/// The directive that maps what follows it to a line.
pub fn format_line_directive(uri: &str, line: i64) -> (r: String)
    requires
        0 <= line < i64::MAX,
    ensures
        r@ == line_directive(uri@, line as int),
{
    let mut r: String = "#line ".to_owned();
    r.append(text::i64_text(line + 1).as_str());
    r.append(" \"");
    r.append(uri);
    r.append("\"");
    r
}

/// The text of pieces between tokens.
pub open spec fn trivia_text(pieces: Seq<TriviaPiece>) -> Seq<char>
    decreases pieces.len(),
{
    if pieces.len() == 0 {
        Seq::empty()
    } else {
        trivia_text(pieces.drop_last()) + pieces.last().text@
    }
}

/// The pieces before the first token of an expression that an injected call comes
/// before: without the line feed that ends the line before.
pub open spec fn without_newline(pieces: Seq<TriviaPiece>) -> Seq<TriviaPiece> {
    if pieces.len() > 0 && pieces[0].kind == TriviaKind::Newline {
        pieces.drop_first()
    } else {
        pieces
    }
}

/// What stands before the first token of an expression with a directive. The
/// directive stands on a line of its own, before the blanks that indent the
/// expression.
pub open spec fn directed(pieces: Seq<TriviaPiece>, uri: Seq<char>, line: int) -> Seq<char> {
    let kept = without_newline(pieces);
    let inserted = line_directive(uri, line) + "\n"@;
    if kept.len() > 0 && kept.last().kind == TriviaKind::Whitespace {
        trivia_text(kept.drop_last()) + inserted + kept.last().text@
    } else {
        trivia_text(kept) + inserted
    }
}

fn trivia_string(pieces: &Vec<TriviaPiece>, from: usize, to: usize) -> (r: String)
    requires
        from <= to <= pieces@.len(),
    ensures
        r@ == trivia_text(pieces@.subrange(from as int, to as int)),
{
    let mut r: String = String::new();
    let mut i: usize = from;
    while i < to
        invariant
            from <= i <= to <= pieces@.len(),
            r@ == trivia_text(pieces@.subrange(from as int, i as int)),
        decreases to - i,
    {
        r.append(pieces[i].text.as_str());
        assert(pieces@.subrange(from as int, i + 1).drop_last() =~= pieces@.subrange(
            from as int,
            i as int,
        ));
        i = i + 1;
    }
    r
}

/// What stands before the first token of an expression with a directive.
pub fn add_line_directive(pieces: &Vec<TriviaPiece>, uri: &str, line: i64) -> (r: String)
    requires
        0 <= line < i64::MAX,
    ensures
        r@ == directed(pieces@, uri@, line as int),
{
    let n: usize = pieces.len();
    let from: usize = if n > 0 && pieces[0].kind == TriviaKind::Newline {
        1
    } else {
        0
    };
    let ghost kept = without_newline(pieces@);
    assert(kept =~= pieces@.subrange(from as int, n as int));
    let directive: String = format_line_directive(uri, line);
    if n > from && pieces[n - 1].kind == TriviaKind::Whitespace {
        let mut r: String = trivia_string(pieces, from, n - 1);
        assert(kept.drop_last() =~= pieces@.subrange(from as int, n - 1));
        let ghost head = r@;
        r.append(directive.as_str());
        r.append("\n");
        assert(r@ =~= head + (directive@ + "\n"@));
        r.append(pieces[n - 1].text.as_str());
        r
    } else {
        let mut r: String = trivia_string(pieces, from, n);
        let ghost head = r@;
        r.append(directive.as_str());
        r.append("\n");
        assert(r@ =~= head + (directive@ + "\n"@));
        r
    }
}

/// Where the annotation of a list in braces has come to.
#[verifier::ext_equal]
pub struct ListState {
    pub marks: Marks,
    /// The annotated text.
    pub text: Seq<char>,
    /// The line after the last expression.
    pub prev_end: int,
    /// Whether the next expression needs a directive, because a call was injected
    /// before it.
    pub needs_directive: bool,
    pub err: Option<AnnotateError>,
}

/// The largest of a line and zero.
pub open spec fn not_negative(line: int) -> int {
    if line < 0 {
        0
    } else {
        line
    }
}

/// One more expression of a list is annotated. `body` is the annotated text of its
/// tokens.
pub open spec fn list_step(
    s: ListState,
    expr: Expr,
    body: Seq<char>,
    is_last: bool,
    origin: Origin,
) -> ListState {
    let start = expr.start + origin.offset;
    let end = expr.end + origin.offset;
    let last = end - 1;
    if s.err is Some {
        s
    } else if last < 0 {
        ListState { err: Some(AnnotateError::NegativeLastLine(last as i64)), ..s }
    } else {
        let first = first_anchor(s.marks, s.prev_end, last, 0);
        let marks = anchored(s.marks, s.prev_end, last, start);
        let injected = match first {
            Some(i) => breakpoint_call(origin.uri, s.marks.bps[i].id),
            None => Seq::empty(),
        };
        let needs = s.needs_directive || first is Some;
        if needs && start < 0 {
            ListState {
                marks,
                err: Some(AnnotateError::NegativeDirectiveLine(start as i64)),
                ..s
            }
        } else {
            let leading = if needs {
                directed(expr.leading@, origin.uri, start)
            } else {
                trivia_text(expr.leading@)
            };
            let verify = !is_last && breakpoints_in_range(marks.bps, start, end);
            let verified = if verify {
                "\n"@ + verify_call(origin.uri, not_negative(start), not_negative(end)) + "\n"@
            } else {
                Seq::empty()
            };
            ListState {
                marks,
                text: s.text + injected + leading + body + verified,
                prev_end: end,
                needs_directive: verify,
                err: None,
            }
        }
    }
}

/// The first `n` expressions of a list in braces are annotated.
pub open spec fn list_state(
    marks: Marks,
    list: Braced,
    bodies: Seq<Seq<char>>,
    origin: Origin,
    n: int,
) -> ListState
    decreases n,
{
    if n <= 0 {
        ListState {
            marks,
            text: Seq::empty(),
            prev_end: spec_breakpoint_floor(
                list.line + origin.offset,
                list.exprs@[0].start + origin.offset,
            ),
            needs_directive: false,
            err: None,
        }
    } else {
        list_step(
            list_state(marks, list, bodies, origin, n - 1),
            list.exprs@[n - 1],
            bodies[n - 1],
            n == list.exprs@.len(),
            origin,
        )
    }
}

/// A list in braces is annotated, where `bodies` are the annotated texts of its
/// expressions: the breakpoints after it, its text, and what went wrong. The breakpoints
/// that are left over in its lines are invalid, whether or not something went wrong.
pub open spec fn braced_annotated(
    marks: Marks,
    list: Braced,
    bodies: Seq<Seq<char>>,
    origin: Origin,
) -> (Marks, Seq<char>, Option<AnnotateError>) {
    if list.exprs@.len() == 0 {
        (marks, list.open@ + list.close@, None)
    } else {
        let s = list_state(marks, list, bodies, origin, list.exprs@.len() as int);
        let floor = spec_breakpoint_floor(
            list.line + origin.offset,
            list.exprs@[0].start + origin.offset,
        );
        let end = list.exprs@.last().end + origin.offset;
        let marks = invalidated(s.marks, Some((floor, end)));
        match s.err {
            Some(e) => (marks, Seq::empty(), Some(e)),
            None => (marks, list.open@ + s.text + list.close@, None),
        }
    }
}

/// The first `n` expressions are annotated inside: the breakpoints after it, the
/// texts of their tokens, and what went wrong.
pub open spec fn exprs_annotated(
    marks: Marks,
    exprs: Seq<Expr>,
    origin: Origin,
    n: int,
) -> (Marks, Seq<Seq<char>>, Option<AnnotateError>)
    decreases exprs, n,
{
    if n <= 0 || n > exprs.len() {
        (marks, Seq::empty(), None)
    } else {
        let before = exprs_annotated(marks, exprs, origin, n - 1);
        if before.2 is Some {
            before
        } else {
            let pieces = exprs[n - 1].body@;
            let after = pieces_annotated(before.0, pieces, origin, pieces.len() as int);
            (after.0, before.1.push(after.1), after.2)
        }
    }
}

/// The first `n` pieces of an expression are annotated.
pub open spec fn pieces_annotated(
    marks: Marks,
    pieces: Seq<Piece>,
    origin: Origin,
    n: int,
) -> (Marks, Seq<char>, Option<AnnotateError>)
    decreases pieces, n,
{
    if n <= 0 || n > pieces.len() {
        (marks, Seq::empty(), None)
    } else {
        let before = pieces_annotated(marks, pieces, origin, n - 1);
        if before.2 is Some {
            before
        } else {
            match pieces[n - 1] {
                Piece::Text(t) => (before.0, before.1 + t@, None),
                Piece::Braces(list) => {
                    let inner = exprs_annotated(
                        before.0,
                        list.exprs@,
                        origin,
                        list.exprs@.len() as int,
                    );
                    if inner.2 is Some {
                        (inner.0, before.1, inner.2)
                    } else {
                        let after = braced_annotated(inner.0, list, inner.1, origin);
                        (after.0, before.1 + after.1, after.2)
                    }
                },
            }
        }
    }
}

/// The text of expressions outside of braces, with their annotated bodies.
pub open spec fn plain_text(exprs: Seq<Expr>, bodies: Seq<Seq<char>>, n: int) -> Seq<char>
    decreases n,
{
    if n <= 0 {
        Seq::empty()
    } else {
        plain_text(exprs, bodies, n - 1) + trivia_text(exprs[n - 1].leading@) + bodies[n - 1]
    }
}

/// Code is annotated: the breakpoints after it, its text, and what went wrong. The
/// breakpoints that are left over at the end are invalid.
pub open spec fn code_annotated(marks: Marks, code: RCode, origin: Origin) -> (
    Marks,
    Seq<char>,
    Option<AnnotateError>,
) {
    let inner = exprs_annotated(marks, code.exprs@, origin, code.exprs@.len() as int);
    if inner.2 is Some {
        (inner.0, Seq::empty(), inner.2)
    } else {
        (
            invalidated(inner.0, None),
            plain_text(code.exprs@, inner.1, code.exprs@.len() as int) + code.tail@,
            None,
        )
    }
}

/// Annotates the lists of expressions in some code.
pub struct AnnotationRewriter {
    uri: String,
    /// The breakpoints, with lines of the document.
    breakpoints: Vec<Breakpoint>,
    /// The line of the document is the line of the code and this offset.
    line_offset: i32,
    /// The ids of the breakpoints that were injected.
    consumed: HashSet<i64>,
}

impl AnnotationRewriter {
    /// What is known of the breakpoints.
    pub closed spec fn marks(self) -> Marks {
        Marks { bps: self.breakpoints@, consumed: self.consumed@ }
    }

    /// Where the code comes from.
    pub closed spec fn origin(self) -> Origin {
        Origin { uri: self.uri@, offset: self.line_offset as int }
    }

    /// Starts to annotate code. The breakpoints are sorted by line, so that the
    /// first of several on one expression is that of the lowest line.
    pub fn new(uri: &str, breakpoints: &Vec<Breakpoint>, line_offset: i32) -> (r: Self)
        ensures
            r.marks() == (Marks { bps: by_line(breakpoints@), consumed: Set::empty() }),
            r.origin() == (Origin { uri: uri@, offset: line_offset as int }),
    {
        let r = Self {
            uri: uri.to_owned(),
            breakpoints: sort_by_line(breakpoints),
            line_offset,
            consumed: HashSet::new(),
        };
        assert(r.consumed@ =~= Set::empty());
        r
    }

    /// The breakpoints.
    pub fn into_breakpoints(self) -> (r: Vec<Breakpoint>)
        ensures
            r@ == self.marks().bps,
    {
        self.breakpoints
    }

    /// The line of the document for a line of the code.
    fn to_doc_line(&self, code_line: u32) -> (r: i64)
        ensures
            r == code_line + self.origin().offset,
    {
        code_line as i64 + self.line_offset as i64
    }

    fn available(&self, i: usize) -> (r: bool)
        requires
            i < self.marks().bps.len(),
        ensures
            r == is_available(self.marks(), i as int),
    {
        let bp: Breakpoint = self.breakpoints[i];
        let invalid: bool = match bp.state {
            BreakpointState::Invalid(_) => true,
            _ => false,
        };
        !self.consumed.contains(&bp.id) && !invalid
    }

    /// The breakpoints that anchor to an expression: those on the lines after the
    /// expression before it, up to its own last line. So a breakpoint on a blank
    /// line anchors to the next expression, and one inside an expression to its
    /// start.
    fn match_breakpoints(&self, prev_doc_end: i64, expr_last_line: i64) -> (r: Vec<usize>)
        requires
            expr_last_line >= 0,
        ensures
            forall|k: int|
                0 <= k < r@.len() ==> (#[trigger] r@[k]) < self.marks().bps.len() && anchors(
                    self.marks(),
                    r@[k] as int,
                    prev_doc_end as int,
                    expr_last_line as int,
                ),
            forall|i: int|
                0 <= i < self.marks().bps.len() && #[trigger] anchors(
                    self.marks(),
                    i,
                    prev_doc_end as int,
                    expr_last_line as int,
                ) ==> r@.contains(i as usize),
            r@.len() > 0 ==> first_anchor(
                self.marks(),
                prev_doc_end as int,
                expr_last_line as int,
                0,
            ) == Some(r@[0] as int),
            r@.len() == 0 ==> first_anchor(
                self.marks(),
                prev_doc_end as int,
                expr_last_line as int,
                0,
            ) is None,
    {
        let ghost m = self.marks();
        let ghost prev = prev_doc_end as int;
        let ghost last = expr_last_line as int;
        let mut r: Vec<usize> = Vec::new();
        let n: usize = self.breakpoints.len();
        let mut i: usize = 0;
        while i < n
            invariant
                m == self.marks(),
                prev == prev_doc_end,
                last == expr_last_line,
                n == m.bps.len(),
                i <= n,
                forall|k: int|
                    0 <= k < r@.len() ==> (#[trigger] r@[k]) < i && anchors(
                        m,
                        r@[k] as int,
                        prev,
                        last,
                    ),
                forall|j: int|
                    0 <= j < i && #[trigger] anchors(m, j, prev, last) ==> r@.contains(
                        j as usize,
                    ),
                r@.len() > 0 ==> first_anchor(m, prev, last, 0) == Some(r@[0] as int),
                r@.len() == 0 ==> first_anchor(m, prev, last, 0) == first_anchor(
                    m,
                    prev,
                    last,
                    i as int,
                ),
            decreases n - i,
        {
            let line: u32 = self.breakpoints[i].line;
            #[verifier::truncate]
            let signed: i32 = line as i32;
            if self.available(i) && line as i64 <= expr_last_line && signed as i64
                >= prev_doc_end {
                let ghost before = r@;
                assert(anchors(m, i as int, prev, last));
                r.push(i);
                proof {
                    assert forall|j: int|
                        0 <= j < i + 1 && #[trigger] anchors(m, j, prev, last) implies r@.contains(
                        j as usize,
                    ) by {
                        if j < i {
                            let k = choose|k: int| 0 <= k < before.len() && before[k] == j;
                            assert(r@[k] == j as usize);
                        } else {
                            assert(r@[before.len() as int] == i);
                        }
                    }
                }
            } else {
                assert(!anchors(m, i as int, prev, last));
            }
            i = i + 1;
        }
        r
    }

    /// Injects the breakpoints at some places into an expression that starts on a
    /// line.
    fn anchor(
        &mut self,
        places: &Vec<usize>,
        start: i64,
        Ghost(prev): Ghost<int>,
        Ghost(last): Ghost<int>,
    )
        requires
            forall|k: int|
                0 <= k < places@.len() ==> (#[trigger] places@[k]) < old(self).marks().bps.len()
                    && anchors(old(self).marks(), places@[k] as int, prev, last),
            forall|i: int|
                0 <= i < old(self).marks().bps.len() && #[trigger] anchors(
                    old(self).marks(),
                    i,
                    prev,
                    last,
                ) ==> places@.contains(i as usize),
        ensures
            final(self).marks() == anchored(old(self).marks(), prev, last, start as int),
            final(self).origin() == old(self).origin(),
    {
        let ghost m = self.marks();
        let total: usize = self.breakpoints.len();
        let n: usize = places.len();
        let mut k: usize = 0;
        while k < n
            invariant
                m == old(self).marks(),
                total == m.bps.len(),
                n == places@.len(),
                k <= n,
                self.origin() == old(self).origin(),
                self.breakpoints@.len() == m.bps.len(),
                forall|j: int|
                    0 <= j < places@.len() ==> (#[trigger] places@[j]) < m.bps.len() && anchors(
                        m,
                        places@[j] as int,
                        prev,
                        last,
                    ),
                forall|i: int|
                    0 <= i < m.bps.len() ==> #[trigger] self.breakpoints@[i] == (
                    if places@.take(k as int).contains(i as usize) {
                        Breakpoint { line: start as u32, ..m.bps[i] }
                    } else {
                        m.bps[i]
                    }),
                forall|id: i64| #[trigger]
                    self.consumed@.contains(id) <==> m.consumed.contains(id) || exists|j: int|
                        0 <= j < k && m.bps[(#[trigger] places@[j]) as int].id == id,
            decreases n - k,
        {
            let i: usize = places[k];
            assert(self.breakpoints@[i as int].id == m.bps[i as int].id);
            let bp: Breakpoint = self.breakpoints[i];
            let ghost before = self.breakpoints@;
            let ghost consumed = self.consumed@;
            #[verifier::truncate]
            let line: u32 = start as u32;
            self.breakpoints.set(i, Breakpoint { line, ..bp });
            let _ = self.consumed.insert(bp.id);
            proof {
                let now = places@.take(k + 1);
                let was = places@.take(k as int);
                assert(now =~= was.push(i));
                assert forall|a: int| 0 <= a < m.bps.len() implies #[trigger] self.breakpoints@[a]
                    == (if now.contains(a as usize) {
                    Breakpoint { line: start as u32, ..m.bps[a] }
                } else {
                    m.bps[a]
                }) by {
                    if a == i {
                        assert(now[k as int] == i);
                    } else {
                        if now.contains(a as usize) {
                            let q = choose|q: int| 0 <= q < now.len() && now[q] == a as usize;
                            assert(was[q] == a as usize);
                        }
                        if was.contains(a as usize) {
                            let q = choose|q: int| 0 <= q < was.len() && was[q] == a as usize;
                            assert(now[q] == a as usize);
                        }
                        assert(self.breakpoints@[a] == before[a]);
                    }
                }
                assert forall|id: i64| #[trigger]
                    self.consumed@.contains(id) <==> m.consumed.contains(id) || exists|j: int|
                        0 <= j < k + 1 && m.bps[(#[trigger] places@[j]) as int].id == id by {
                    if id == bp.id {
                        assert(m.bps[places@[k as int] as int].id == id);
                    } else {
                        assert(self.consumed@.contains(id) == consumed.contains(id));
                    }
                }
            }
            k = k + 1;
        }
        proof {
            let after = anchored(m, prev, last, start as int);
            assert(places@.take(n as int) =~= places@);
            assert forall|i: int| 0 <= i < m.bps.len() implies #[trigger] self.breakpoints@[i]
                == after.bps[i] by {
                if places@.contains(i as usize) {
                    let q = choose|q: int| 0 <= q < places@.len() && places@[q] == i as usize;
                    assert(anchors(m, places@[q] as int, prev, last));
                }
            }
            assert(self.breakpoints@ =~= after.bps);
            assert forall|id: i64| #[trigger]
                self.consumed@.contains(id) == after.consumed.contains(id) by {
                if self.consumed@.contains(id) && !m.consumed.contains(id) {
                    let j = choose|j: int|
                        0 <= j < n && m.bps[(#[trigger] places@[j]) as int].id == id;
                    assert(anchors(m, places@[j] as int, prev, last));
                }
                if after.consumed.contains(id) && !m.consumed.contains(id) {
                    let i = choose|i: int|
                        0 <= i < m.bps.len() && #[trigger] anchors(m, i, prev, last)
                            && m.bps[i].id == id;
                    let q = choose|q: int| 0 <= q < places@.len() && places@[q] == i as usize;
                    assert(m.bps[places@[q] as int].id == id);
                }
            }
            assert(self.consumed@ =~= after.consumed);
        }
    }

    /// Whether some breakpoint that is not invalid stands on a line from `start` up
    /// to `end`.
    fn has_breakpoints_in_range(&self, start: i64, end: i64) -> (r: bool)
        ensures
            r == breakpoints_in_range(self.marks().bps, start as int, end as int),
    {
        let n: usize = self.breakpoints.len();
        let mut i: usize = 0;
        while i < n
            invariant
                n == self.breakpoints@.len(),
                i <= n,
                forall|k: int|
                    0 <= k < i ==> (#[trigger] self.breakpoints@[k]).state is Invalid || !(start
                        <= (self.breakpoints@[k].line as i32) < end),
            decreases n - i,
        {
            let bp: Breakpoint = self.breakpoints[i];
            #[verifier::truncate]
            let line: i32 = bp.line as i32;
            let invalid: bool = match bp.state {
                BreakpointState::Invalid(_) => true,
                _ => false,
            };
            if !invalid && line as i64 >= start && (line as i64) < end {
                return true;
            }
            i = i + 1;
        }
        false
    }

    /// Marks the breakpoints that are left over as invalid: all of them, or those
    /// between two lines.
    fn mark_remaining_breakpoints_invalid(&mut self, bounds: Option<(i64, i64)>)
        ensures
            final(self).marks() == invalidated(
                old(self).marks(),
                match bounds {
                    Some((start, end)) => Some((start as int, end as int)),
                    None => None,
                },
            ),
            final(self).origin() == old(self).origin(),
    {
        let ghost m = self.marks();
        let ghost b = match bounds {
            Some((start, end)) => Some((start as int, end as int)),
            None => None,
        };
        let n: usize = self.breakpoints.len();
        let mut i: usize = 0;
        while i < n
            invariant
                m == old(self).marks(),
                b == (match bounds {
                    Some((start, end)) => Some((start as int, end as int)),
                    None => None,
                }),
                n == m.bps.len(),
                n == self.breakpoints@.len(),
                i <= n,
                self.origin() == old(self).origin(),
                self.consumed@ == m.consumed,
                forall|k: int| 0 <= k < i ==> #[trigger] self.breakpoints@[k] == invalidated(m, b).bps[k],
                forall|k: int| i <= k < n ==> #[trigger] self.breakpoints@[k] == m.bps[k],
            decreases n - i,
        {
            let bp: Breakpoint = self.breakpoints[i];
            assert(bp == m.bps[i as int]);
            #[verifier::truncate]
            let line: i32 = bp.line as i32;
            let in_bounds: bool = match bounds {
                Some((start, end)) => line as i64 >= start && line as i64 <= end,
                None => true,
            };
            let available: bool = self.available(i);
            assert(available == is_available(m, i as int));
            if available && in_bounds {
                self.breakpoints.set(
                    i,
                    Breakpoint {
                        state: BreakpointState::Invalid(InvalidReason::ClosingBrace),
                        ..bp
                    },
                );
            }
            i = i + 1;
        }
        assert(self.breakpoints@ =~= invalidated(m, b).bps);
    }

    /// Annotates a list in braces, where `bodies` are the annotated texts of its
    /// expressions.
    fn annotate_braced_list(&mut self, list: &Braced, bodies: &Vec<String>) -> (r: Result<
        String,
        AnnotateError,
    >)
        requires
            bodies@.len() == list.exprs@.len(),
        ensures
            final(self).origin() == old(self).origin(),
            ({
                let (marks, annotated, err) = braced_annotated(
                    old(self).marks(),
                    *list,
                    text::texts(bodies@),
                    old(self).origin(),
                );
                &&& final(self).marks() == marks
                &&& match r {
                    Ok(t) => err is None && t@ == annotated,
                    Err(e) => err == Some(e),
                }
            }),
    {
        let n: usize = list.exprs.len();
        if n == 0 {
            return Ok(text::join2(list.open.as_str(), list.close.as_str()));
        }
        let brace_start: i64 = self.to_doc_line(list.line);
        let first_start: i64 = self.to_doc_line(list.exprs[0].start);
        let brace_end: i64 = self.to_doc_line(list.exprs[n - 1].end);
        let floor: i64 = breakpoint_floor(brace_start, first_start);
        let annotated: Result<String, AnnotateError> = self.annotate_list(list, bodies, floor);
        self.mark_remaining_breakpoints_invalid(Some((floor, brace_end)));
        match annotated {
            Ok(inner) => Ok(
                text::join3(list.open.as_str(), inner.as_str(), list.close.as_str()),
            ),
            Err(e) => Err(e),
        }
    }

    /// Annotates the expressions of a list in braces that starts at the line `floor`.
    fn annotate_list(&mut self, list: &Braced, bodies: &Vec<String>, floor: i64) -> (r: Result<
        String,
        AnnotateError,
    >)
        requires
            bodies@.len() == list.exprs@.len(),
            list.exprs@.len() > 0,
            floor == spec_breakpoint_floor(
                list.line + old(self).origin().offset,
                list.exprs@[0].start + old(self).origin().offset,
            ),
        ensures
            final(self).origin() == old(self).origin(),
            ({
                let s = list_state(
                    old(self).marks(),
                    *list,
                    text::texts(bodies@),
                    old(self).origin(),
                    list.exprs@.len() as int,
                );
                &&& final(self).marks() == s.marks
                &&& match r {
                    Ok(t) => s.err is None && t@ == s.text,
                    Err(e) => s.err == Some(e),
                }
            }),
    {
        let n: usize = list.exprs.len();
        let ghost marks = self.marks();
        let ghost origin = self.origin();
        let ghost texts = text::texts(bodies@);
        let mut out: String = String::new();
        let mut prev_end: i64 = floor;
        let mut needs: bool = false;
        let mut i: usize = 0;
        while i < n
            invariant
                n == list.exprs@.len(),
                n == bodies@.len(),
                texts == text::texts(bodies@),
                i <= n,
                origin == self.origin(),
                origin == old(self).origin(),
                marks == old(self).marks(),
                list_state(marks, *list, texts, origin, i as int) == (ListState {
                    marks: self.marks(),
                    text: out@,
                    prev_end: prev_end as int,
                    needs_directive: needs,
                    err: None,
                }),
            decreases n - i,
        {
            let ghost s = list_state(marks, *list, texts, origin, i as int);
            let ghost next = list_state(marks, *list, texts, origin, i + 1);
            let start: i64 = self.to_doc_line(list.exprs[i].start);
            let end: i64 = self.to_doc_line(list.exprs[i].end);
            if end - 1 < 0 {
                assert(next.err == Some(AnnotateError::NegativeLastLine((end - 1) as i64)));
                proof {
                    lemma_error_stays(marks, *list, texts, origin, i + 1, n as int);
                }
                return Err(AnnotateError::NegativeLastLine(end - 1));
            }
            let places: Vec<usize> = self.match_breakpoints(prev_end, end - 1);
            let ghost before = self.marks();
            let ghost last = end - 1;
            let mut injected: String = String::new();
            if places.len() > 0 {
                let id: i64 = self.breakpoints[places[0]].id;
                injected = create_breakpoint_call(self.uri.as_str(), id);
                needs = true;
                assert(places@[0] < before.bps.len());
            }
            self.anchor(&places, start, Ghost(prev_end as int), Ghost(last as int));
            assert(self.marks() == anchored(before, prev_end as int, last as int, start as int));
            if needs && start < 0 {
                assert(next.err == Some(AnnotateError::NegativeDirectiveLine(start)));
                proof {
                    lemma_error_stays(marks, *list, texts, origin, i + 1, n as int);
                }
                return Err(AnnotateError::NegativeDirectiveLine(start));
            }
            let leading: String = if needs {
                add_line_directive(&list.exprs[i].leading, self.uri.as_str(), start)
            } else {
                let r: String = trivia_string(
                    &list.exprs[i].leading,
                    0,
                    list.exprs[i].leading.len(),
                );
                assert(list.exprs@[i as int].leading@.subrange(
                    0,
                    list.exprs@[i as int].leading@.len() as int,
                ) =~= list.exprs@[i as int].leading@);
                r
            };
            out.append(injected.as_str());
            out.append(leading.as_str());
            out.append(bodies[i].as_str());
            let ghost so_far = out@;
            let verify: bool = i != n - 1 && self.has_breakpoints_in_range(start, end);
            if verify {
                let from: i64 = if start < 0 {
                    0
                } else {
                    start
                };
                let to: i64 = if end < 0 {
                    0
                } else {
                    end
                };
                out.append("\n");
                out.append(format_verify_call(self.uri.as_str(), from, to).as_str());
                out.append("\n");
                assert(out@ =~= so_far + ("\n"@ + verify_call(
                    origin.uri,
                    not_negative(start as int),
                    not_negative(end as int),
                ) + "\n"@));
            } else {
                assert(out@ =~= so_far + Seq::<char>::empty());
            }
            needs = verify;
            prev_end = end;
            assert(texts[i as int] == bodies@[i as int]@);
            assert(next.text =~= out@);
            i = i + 1;
        }
        Ok(out)
    }

    /// Annotates the inside of expressions. Returns the annotated texts of their
    /// tokens.
    fn annotate_exprs(&mut self, exprs: &Vec<Expr>) -> (r: Result<Vec<String>, AnnotateError>)
        ensures
            final(self).origin() == old(self).origin(),
            ({
                let (marks, bodies, err) = exprs_annotated(
                    old(self).marks(),
                    exprs@,
                    old(self).origin(),
                    exprs@.len() as int,
                );
                &&& final(self).marks() == marks
                &&& match r {
                    Ok(t) => err is None && text::texts(t@) == bodies && t@.len() == exprs@.len(),
                    Err(e) => err == Some(e),
                }
            }),
        decreases exprs@,
    {
        let ghost marks = self.marks();
        let ghost origin = self.origin();
        let mut out: Vec<String> = Vec::new();
        let n: usize = exprs.len();
        let mut i: usize = 0;
        assert(text::texts(out@) =~= Seq::empty());
        while i < n
            invariant
                n == exprs@.len(),
                i <= n,
                marks == old(self).marks(),
                origin == old(self).origin(),
                origin == self.origin(),
                out@.len() == i,
                exprs_annotated(marks, exprs@, origin, i as int) == (
                    self.marks(),
                    text::texts(out@),
                    None::<AnnotateError>,
                ),
            decreases n - i,
        {
            let ghost before = out@;
            assert(decreases_to!(exprs@ => exprs@[i as int]));
            match self.annotate_pieces(&exprs[i].body) {
                Ok(body) => {
                    out.push(body);
                    assert(text::texts(out@) =~= text::texts(before).push(body@));
                },
                Err(e) => {
                    proof {
                        lemma_exprs_error_stays(marks, exprs@, origin, i + 1, n as int);
                    }
                    return Err(e);
                },
            }
            i = i + 1;
        }
        Ok(out)
    }

    /// Annotates the pieces of an expression.
    fn annotate_pieces(&mut self, pieces: &Vec<Piece>) -> (r: Result<String, AnnotateError>)
        ensures
            final(self).origin() == old(self).origin(),
            ({
                let (marks, annotated, err) = pieces_annotated(
                    old(self).marks(),
                    pieces@,
                    old(self).origin(),
                    pieces@.len() as int,
                );
                &&& final(self).marks() == marks
                &&& match r {
                    Ok(t) => err is None && t@ == annotated,
                    Err(e) => err == Some(e),
                }
            }),
        decreases pieces@,
    {
        let ghost marks = self.marks();
        let ghost origin = self.origin();
        let mut out: String = String::new();
        let n: usize = pieces.len();
        let mut i: usize = 0;
        while i < n
            invariant
                n == pieces@.len(),
                i <= n,
                marks == old(self).marks(),
                origin == old(self).origin(),
                origin == self.origin(),
                pieces_annotated(marks, pieces@, origin, i as int) == (
                    self.marks(),
                    out@,
                    None::<AnnotateError>,
                ),
            decreases n - i,
        {
            assert(decreases_to!(pieces@ => pieces@[i as int]));
            match &pieces[i] {
                Piece::Text(t) => {
                    out.append(t.as_str());
                },
                Piece::Braces(list) => {
                    match self.annotate_exprs(&list.exprs) {
                        Ok(bodies) => match self.annotate_braced_list(list, &bodies) {
                            Ok(annotated) => {
                                out.append(annotated.as_str());
                            },
                            Err(e) => {
                                proof {
                                    lemma_pieces_error_stays(
                                        marks,
                                        pieces@,
                                        origin,
                                        i + 1,
                                        n as int,
                                    );
                                }
                                return Err(e);
                            },
                        },
                        Err(e) => {
                            proof {
                                lemma_pieces_error_stays(marks, pieces@, origin, i + 1, n as int);
                            }
                            return Err(e);
                        },
                    }
                },
            }
            i = i + 1;
        }
        Ok(out)
    }

    /// Annotates code.
    pub fn transform(&mut self, code: &RCode) -> (r: Result<String, AnnotateError>)
        ensures
            final(self).origin() == old(self).origin(),
            ({
                let (marks, annotated, err) = code_annotated(
                    old(self).marks(),
                    *code,
                    old(self).origin(),
                );
                &&& final(self).marks() == marks
                &&& match r {
                    Ok(t) => err is None && t@ == annotated,
                    Err(e) => err == Some(e),
                }
            }),
    {
        let ghost marks = self.marks();
        let ghost origin = self.origin();
        let bodies: Vec<String> = match self.annotate_exprs(&code.exprs) {
            Ok(bodies) => bodies,
            Err(e) => {
                return Err(e);
            },
        };
        self.mark_remaining_breakpoints_invalid(None);
        let ghost texts = text::texts(bodies@);
        let mut out: String = String::new();
        let n: usize = code.exprs.len();
        let mut i: usize = 0;
        while i < n
            invariant
                n == code.exprs@.len(),
                n == bodies@.len(),
                texts == text::texts(bodies@),
                i <= n,
                out@ == plain_text(code.exprs@, texts, i as int),
            decreases n - i,
        {
            let leading: String = trivia_string(
                &code.exprs[i].leading,
                0,
                code.exprs[i].leading.len(),
            );
            assert(code.exprs@[i as int].leading@.subrange(
                0,
                code.exprs@[i as int].leading@.len() as int,
            ) =~= code.exprs@[i as int].leading@);
            out.append(leading.as_str());
            out.append(bodies[i].as_str());
            i = i + 1;
        }
        out.append(code.tail.as_str());
        Ok(out)
    }
}

proof fn lemma_error_stays(
    marks: Marks,
    list: Braced,
    bodies: Seq<Seq<char>>,
    origin: Origin,
    i: int,
    n: int,
)
    requires
        0 < i <= n,
        list_state(marks, list, bodies, origin, i).err is Some,
    ensures
        list_state(marks, list, bodies, origin, n) == list_state(marks, list, bodies, origin, i),
    decreases n - i,
{
    if i < n {
        assert(list_state(marks, list, bodies, origin, i + 1) == list_state(
            marks,
            list,
            bodies,
            origin,
            i,
        ));
        lemma_error_stays(marks, list, bodies, origin, i + 1, n);
    }
}

proof fn lemma_exprs_error_stays(
    marks: Marks,
    exprs: Seq<Expr>,
    origin: Origin,
    i: int,
    n: int,
)
    requires
        0 < i <= n <= exprs.len(),
        exprs_annotated(marks, exprs, origin, i).2 is Some,
    ensures
        exprs_annotated(marks, exprs, origin, n) == exprs_annotated(marks, exprs, origin, i),
    decreases n - i,
{
    if i < n {
        assert(exprs_annotated(marks, exprs, origin, i + 1) == exprs_annotated(
            marks,
            exprs,
            origin,
            i,
        ));
        lemma_exprs_error_stays(marks, exprs, origin, i + 1, n);
    }
}

proof fn lemma_pieces_error_stays(
    marks: Marks,
    pieces: Seq<Piece>,
    origin: Origin,
    i: int,
    n: int,
)
    requires
        0 < i <= n <= pieces.len(),
        pieces_annotated(marks, pieces, origin, i).2 is Some,
    ensures
        pieces_annotated(marks, pieces, origin, n) == pieces_annotated(marks, pieces, origin, i),
    decreases n - i,
{
    if i < n {
        assert(pieces_annotated(marks, pieces, origin, i + 1) == pieces_annotated(
            marks,
            pieces,
            origin,
            i,
        ));
        lemma_pieces_error_stays(marks, pieces, origin, i + 1, n);
    }
}

/// The place after all breakpoints on the lines up to `line`, among the first
/// `count`, which are sorted.
pub open spec fn place_by_line(sorted: Seq<Breakpoint>, line: u32, count: int) -> int
    decreases count,
{
    if count <= 0 || sorted[count - 1].line <= line {
        count
    } else {
        place_by_line(sorted, line, count - 1)
    }
}

/// The breakpoints sorted by line. Those on one line keep their order.
pub open spec fn by_line(bps: Seq<Breakpoint>) -> Seq<Breakpoint>
    decreases bps.len(),
{
    if bps.len() == 0 {
        bps
    } else {
        let sorted = by_line(bps.drop_last());
        sorted.insert(
            place_by_line(sorted, bps.last().line, sorted.len() as int),
            bps.last(),
        )
    }
}

/// The breakpoints sorted by line.
pub fn sort_by_line(bps: &Vec<Breakpoint>) -> (r: Vec<Breakpoint>)
    ensures
        r@ == by_line(bps@),
{
    let mut r: Vec<Breakpoint> = Vec::new();
    let n: usize = bps.len();
    let mut i: usize = 0;
    while i < n
        invariant
            n == bps@.len(),
            i <= n,
            r@ == by_line(bps@.take(i as int)),
            r@.len() == i,
        decreases n - i,
    {
        assert(bps@.take(i + 1).drop_last() =~= bps@.take(i as int));
        let bp: Breakpoint = bps[i];
        let mut p: usize = r.len();
        while p > 0 && r[p - 1].line > bp.line
            invariant
                p <= r@.len(),
                place_by_line(r@, bp.line, r@.len() as int) == place_by_line(
                    r@,
                    bp.line,
                    p as int,
                ),
            decreases p,
        {
            p = p - 1;
        }
        r.insert(p, bp);
        i = i + 1;
    }
    assert(bps@.take(n as int) =~= bps@);
    r
}

/// The lines of breakpoints do not decrease.
pub open spec fn lines_sorted(bps: Seq<Breakpoint>) -> bool {
    forall|i: int, j: int|
        0 <= i < j < bps.len() ==> (#[trigger] bps[i]).line <= (#[trigger] bps[j]).line
}

proof fn lemma_place_by_line(sorted: Seq<Breakpoint>, line: u32, count: int)
    requires
        0 <= count <= sorted.len(),
    ensures
        0 <= place_by_line(sorted, line, count) <= count,
        forall|i: int|
            place_by_line(sorted, line, count) <= i < count ==> (#[trigger] sorted[i]).line > line,
        place_by_line(sorted, line, count) > 0 ==> sorted[place_by_line(sorted, line, count)
            - 1].line <= line,
    decreases count,
{
    if count > 0 && sorted[count - 1].line > line {
        lemma_place_by_line(sorted, line, count - 1);
    }
}

/// Sorting by line keeps all breakpoints and orders them by line.
pub proof fn law_sorted_by_line(bps: Seq<Breakpoint>)
    ensures
        lines_sorted(by_line(bps)),
        by_line(bps).to_multiset() == bps.to_multiset(),
        by_line(bps).len() == bps.len(),
    decreases bps.len(),
{
    if bps.len() > 0 {
        law_sorted_by_line(bps.drop_last());
        let sorted = by_line(bps.drop_last());
        let p = place_by_line(sorted, bps.last().line, sorted.len() as int);
        lemma_place_by_line(sorted, bps.last().line, sorted.len() as int);
        let all = by_line(bps);
        assert forall|i: int, j: int| 0 <= i < j < all.len() implies (#[trigger] all[i]).line <= (
        #[trigger] all[j]).line by {
            if i < p {
                assert(all[i] == sorted[i]);
                assert(sorted[i].line <= sorted[p - 1].line);
            } else if i > p {
                assert(all[i] == sorted[i - 1]);
            }
            if j < p {
                assert(all[j] == sorted[j]);
            } else if j > p {
                assert(all[j] == sorted[j - 1]);
            }
        }
        broadcast use vstd::seq_lib::group_to_multiset_ensures;

        vstd::seq_lib::to_multiset_insert(sorted, p, bps.last());
        assert(bps =~= bps.drop_last().push(bps.last()));
        vstd::seq_lib::to_multiset_build(bps.drop_last(), bps.last());
    } else {
        assert(by_line(bps) =~= bps);
    }
}

/// Annotated code, with the breakpoints as the annotation left them.
#[derive(Debug)]
pub struct Annotated {
    pub code: Result<String, AnnotateError>,
    pub breakpoints: Option<Vec<Breakpoint>>,
}

/// `n` blanks.
pub open spec fn blanks(n: nat) -> Seq<char> {
    Seq::new(n, |i: int| ' ')
}

fn blank_text(n: u32) -> (r: String)
    ensures
        r@ == blanks(n as nat),
{
    let mut r: String = String::new();
    let mut i: u32 = 0;
    while i < n
        invariant
            i <= n,
            r@ == blanks(i as nat),
        decreases n - i,
    {
        r.push(' ');
        assert(r@ =~= blanks((i + 1) as nat));
        i = i + 1;
    }
    r
}

/// Input for the console that starts at a place of a document: a directive for the
/// line, and blanks up to the character.
pub open spec fn placed(location: CodeLocation, code: Seq<char>) -> Seq<char> {
    line_directive(location.uri@, location.start.line as int) + "\n"@ + blanks(
        location.start.character as nat,
    ) + code
}

/// Input for the console that was annotated: `source` as it is if there is nothing to
/// inject, or else the annotated code.
pub open spec fn is_annotated_input(
    r: Annotated,
    source: Seq<char>,
    code: RCode,
    location: CodeLocation,
    breakpoints: Option<Seq<Breakpoint>>,
) -> bool {
    match breakpoints {
        None => r.breakpoints is None && (r.code matches Ok(t) && t@ == placed(location, source)),
        Some(bps) => {
            let (marks, annotated, err) = code_annotated(
                Marks { bps: by_line(bps), consumed: Set::empty() },
                code,
                Origin { uri: location.uri@, offset: location.start.line as i32 as int },
            );
            &&& r.breakpoints is Some
            &&& r.breakpoints->0@ == marks.bps
            &&& match r.code {
                Ok(t) => err is None && t@ == placed(location, annotated),
                Err(e) => err == Some(e),
            }
        },
    }
}

/// Annotates input for the console: `source` as it is, or `code`, which is the
/// parsed source, with breakpoints if there are any.
///
/// The breakpoints are injected before the directive for the whole input is added,
/// so that their lines are those of the document.
pub fn annotate_input(
    source: &str,
    code: &RCode,
    location: &CodeLocation,
    breakpoints: Option<Vec<Breakpoint>>,
) -> (r: Annotated)
    requires
        location.start.line < u32::MAX,
    ensures
        is_annotated_input(
            r,
            source@,
            *code,
            *location,
            match breakpoints {
                Some(bps) => Some(bps@),
                None => None,
            },
        ),
{
    let mut prefix: String = format_line_directive(
        location.uri.as_str(),
        location.start.line as i64,
    );
    prefix.append("\n");
    prefix.append(blank_text(location.start.character).as_str());
    match breakpoints {
        None => Annotated {
            code: Ok(text::join2(prefix.as_str(), source)),
            breakpoints: None,
        },
        Some(bps) => {
            #[verifier::truncate]
            let offset: i32 = location.start.line as i32;
            let mut rewriter = AnnotationRewriter::new(location.uri.as_str(), &bps, offset);
            let out: Result<String, AnnotateError> = rewriter.transform(code);
            let left: Vec<Breakpoint> = rewriter.into_breakpoints();
            match out {
                Ok(annotated) => Annotated {
                    code: Ok(text::join2(prefix.as_str(), annotated.as_str())),
                    breakpoints: Some(left),
                },
                Err(e) => Annotated { code: Err(e), breakpoints: Some(left) },
            }
        },
    }
}

/// Sourced code in braces, so that R can step through it.
pub fn wrap_source(code: &str) -> (r: String)
    ensures
        r@ == "{\n"@ + code@ + "\n}"@,
{
    text::join3("{\n", code, "\n}")
}

/// The number of lines, where a line feed at the end starts no line.
pub open spec fn line_count(code: Seq<char>) -> int {
    if code.len() == 0 || code.last() == '\n' {
        text::lines_of(code).len() - 1
    } else {
        text::lines_of(code).len() as int
    }
}

fn count_lines(code: &str) -> (r: usize)
    ensures
        r == line_count(code@),
{
    let lines: Vec<String> = text::split_lines(code);
    let v: Vec<char> = text::chars_of(code);
    assert(lines@.len() == text::lines_of(code@).len());
    if v.len() == 0 || v[v.len() - 1] == '\n' {
        lines.len() - 1
    } else {
        lines.len()
    }
}

/// A file that was annotated. The call at the end verifies what the calls inside
/// cannot.
pub open spec fn is_annotated_source(
    r: Annotated,
    source: Seq<char>,
    wrapped: RCode,
    uri: Seq<char>,
    breakpoints: Seq<Breakpoint>,
) -> bool {
    let (marks, annotated, err) = code_annotated(
        Marks { bps: by_line(breakpoints), consumed: Set::empty() },
        wrapped,
        Origin { uri, offset: -1 },
    );
    &&& r.breakpoints is Some
    &&& r.breakpoints->0@ == marks.bps
    &&& match r.code {
        Ok(t) => err is None && t@ == text::trimmed(annotated) + "\n"@ + verify_call(
            uri,
            0,
            line_count(source) as u32 as int,
        ) + "\n"@,
        Err(e) => err == Some(e),
    }
}

/// Annotates a file for `source()` and `load_all()`. `wrapped` is the parsed source
/// in braces, whose lines are one more than those of the document. The call at the
/// end verifies what the calls inside cannot.
pub fn annotate_source(source: &str, wrapped: &RCode, uri: &str, breakpoints: Vec<Breakpoint>) -> (r:
    Annotated)
    ensures
        is_annotated_source(r, source@, *wrapped, uri@, breakpoints@),
{
    let mut rewriter = AnnotationRewriter::new(uri, &breakpoints, -1);
    let out: Result<String, AnnotateError> = rewriter.transform(wrapped);
    let left: Vec<Breakpoint> = rewriter.into_breakpoints();
    match out {
        Ok(annotated) => {
            let lines: usize = count_lines(source);
            #[verifier::truncate]
            let last_line: u32 = lines as u32;
            let mut code: String = text::trim(annotated.as_str());
            code.append("\n");
            code.append(format_verify_call(uri, 0, last_line as i64).as_str());
            code.append("\n");
            Annotated { code: Ok(code), breakpoints: Some(left) }
        },
        Err(e) => Annotated { code: Err(e), breakpoints: Some(left) },
    }
}

/// The text of code, as it was before it was annotated.
pub open spec fn pieces_text(pieces: Seq<Piece>, n: int) -> Seq<char>
    decreases pieces, n,
{
    if n <= 0 || n > pieces.len() {
        Seq::empty()
    } else {
        pieces_text(pieces, n - 1) + match pieces[n - 1] {
            Piece::Text(t) => t@,
            Piece::Braces(list) => list.open@ + exprs_text(
                list.exprs@,
                list.exprs@.len() as int,
            ) + list.close@,
        }
    }
}

/// The text of expressions, as it was before they were annotated.
pub open spec fn exprs_text(exprs: Seq<Expr>, n: int) -> Seq<char>
    decreases exprs, n,
{
    if n <= 0 || n > exprs.len() {
        Seq::empty()
    } else {
        exprs_text(exprs, n - 1) + trivia_text(exprs[n - 1].leading@) + pieces_text(
            exprs[n - 1].body@,
            exprs[n - 1].body@.len() as int,
        )
    }
}

/// Annotating went from `a` to `b`: no breakpoint was lost, and each is what it was
/// but for its line and for having become invalid. What is injected stays so, and
/// what is invalid stays as it is.
pub open spec fn goes_on(a: Marks, b: Marks) -> bool {
    &&& b.bps.len() == a.bps.len()
    &&& a.consumed.subset_of(b.consumed)
    &&& forall|i: int|
        0 <= i < a.bps.len() ==> {
            let x = a.bps[i];
            let y = #[trigger] b.bps[i];
            &&& y == (Breakpoint { line: y.line, state: y.state, ..x })
            &&& y.state == x.state || y.state == BreakpointState::Invalid(
                InvalidReason::ClosingBrace,
            )
            &&& x.state is Invalid ==> y == x
        }
}

proof fn lemma_goes_on_chain(a: Marks, b: Marks, c: Marks)
    requires
        goes_on(a, b),
        goes_on(b, c),
    ensures
        goes_on(a, c),
{
    assert forall|i: int| 0 <= i < a.bps.len() implies {
        let x = a.bps[i];
        let y = #[trigger] c.bps[i];
        &&& y == (Breakpoint { line: y.line, state: y.state, ..x })
        &&& y.state == x.state || y.state == BreakpointState::Invalid(
            InvalidReason::ClosingBrace,
        )
        &&& x.state is Invalid ==> y == x
    } by {
        let z = b.bps[i];
    }
}

proof fn lemma_list_goes_on(
    marks: Marks,
    list: Braced,
    bodies: Seq<Seq<char>>,
    origin: Origin,
    n: int,
)
    ensures
        goes_on(marks, list_state(marks, list, bodies, origin, n).marks),
    decreases n,
{
    if n > 0 {
        lemma_list_goes_on(marks, list, bodies, origin, n - 1);
        let before = list_state(marks, list, bodies, origin, n - 1);
        let after = list_state(marks, list, bodies, origin, n);
        assert(goes_on(before.marks, after.marks));
        lemma_goes_on_chain(marks, before.marks, after.marks);
    }
}

proof fn lemma_braced_goes_on(
    marks: Marks,
    list: Braced,
    bodies: Seq<Seq<char>>,
    origin: Origin,
)
    ensures
        goes_on(marks, braced_annotated(marks, list, bodies, origin).0),
{
    let n = list.exprs@.len() as int;
    lemma_list_goes_on(marks, list, bodies, origin, n);
    let s = list_state(marks, list, bodies, origin, n).marks;
    let after = braced_annotated(marks, list, bodies, origin).0;
    if n > 0 {
        assert(goes_on(s, after));
        lemma_goes_on_chain(marks, s, after);
    }
}

proof fn lemma_exprs_go_on(marks: Marks, exprs: Seq<Expr>, origin: Origin, n: int)
    ensures
        goes_on(marks, exprs_annotated(marks, exprs, origin, n).0),
    decreases exprs, n,
{
    if 0 < n <= exprs.len() {
        lemma_exprs_go_on(marks, exprs, origin, n - 1);
        let before = exprs_annotated(marks, exprs, origin, n - 1).0;
        let after = exprs_annotated(marks, exprs, origin, n).0;
        let pieces = exprs[n - 1].body@;
        assert(decreases_to!(exprs => exprs[n - 1]));
        lemma_pieces_go_on(before, pieces, origin, pieces.len() as int);
        lemma_goes_on_chain(marks, before, after);
    }
}

proof fn lemma_pieces_go_on(marks: Marks, pieces: Seq<Piece>, origin: Origin, n: int)
    ensures
        goes_on(marks, pieces_annotated(marks, pieces, origin, n).0),
    decreases pieces, n,
{
    if 0 < n <= pieces.len() {
        lemma_pieces_go_on(marks, pieces, origin, n - 1);
        let before = pieces_annotated(marks, pieces, origin, n - 1).0;
        assert(decreases_to!(pieces => pieces[n - 1]));
        match pieces[n - 1] {
            Piece::Text(t) => {},
            Piece::Braces(list) => {
                let count = list.exprs@.len() as int;
                lemma_exprs_go_on(before, list.exprs@, origin, count);
                let inner = exprs_annotated(before, list.exprs@, origin, count);
                lemma_goes_on_chain(marks, before, inner.0);
                lemma_braced_goes_on(inner.0, list, inner.1, origin);
                lemma_goes_on_chain(
                    marks,
                    inner.0,
                    braced_annotated(inner.0, list, inner.1, origin).0,
                );
            },
        }
    }
}

/// Annotating code keeps all breakpoints: it changes nothing about them but the
/// line to which they anchor and that they are invalid. Once code is annotated,
/// every breakpoint was injected into it or is invalid.
pub proof fn law_annotation_keeps_breakpoints(marks: Marks, code: RCode, origin: Origin)
    ensures
        goes_on(marks, code_annotated(marks, code, origin).0),
        code_annotated(marks, code, origin).2 is None ==> forall|i: int|
            0 <= i < marks.bps.len() ==> (#[trigger] code_annotated(
                marks,
                code,
                origin,
            ).0.bps[i]).state is Invalid || code_annotated(marks, code, origin).0.consumed.contains(
                code_annotated(marks, code, origin).0.bps[i].id,
            ),
{
    let n = code.exprs@.len() as int;
    lemma_exprs_go_on(marks, code.exprs@, origin, n);
    let inner = exprs_annotated(marks, code.exprs@, origin, n);
    let after = code_annotated(marks, code, origin).0;
    if inner.2 is None {
        assert(goes_on(inner.0, after));
        lemma_goes_on_chain(marks, inner.0, after);
    }
}

proof fn lemma_plain_list(
    marks: Marks,
    list: Braced,
    bodies: Seq<Seq<char>>,
    origin: Origin,
    n: int,
)
    requires
        marks.bps.len() == 0,
        origin.offset >= 0,
        0 <= n <= list.exprs@.len(),
        bodies.len() == list.exprs@.len(),
        forall|i: int|
            0 <= i < bodies.len() ==> #[trigger] bodies[i] == pieces_text(
                list.exprs@[i].body@,
                list.exprs@[i].body@.len() as int,
            ),
        forall|i: int| 0 <= i < list.exprs@.len() ==> (#[trigger] list.exprs@[i]).end > 0,
    ensures
        ({
            let s = list_state(marks, list, bodies, origin, n);
            &&& s.marks.bps.len() == 0
            &&& s.err is None
            &&& !s.needs_directive
            &&& s.text == exprs_text(list.exprs@, n)
        }),
    decreases n,
{
    if n > 0 {
        lemma_plain_list(marks, list, bodies, origin, n - 1);
        let s = list_state(marks, list, bodies, origin, n - 1);
        let next = list_state(marks, list, bodies, origin, n);
        assert(first_anchor(
            s.marks,
            s.prev_end,
            list.exprs@[n - 1].end + origin.offset - 1,
            0,
        ) is None);
        let none = Seq::<char>::empty();
        let lead = trivia_text(list.exprs@[n - 1].leading@);
        assert(s.text + none + lead + bodies[n - 1] + none =~= s.text + lead + bodies[n - 1]);
    }
}

/// Every expression in the code ends after it starts, on a line that counts.
pub open spec fn exprs_have_lines(exprs: Seq<Expr>, n: int) -> bool
    decreases exprs, n,
{
    if n <= 0 || n > exprs.len() {
        true
    } else {
        exprs_have_lines(exprs, n - 1) && exprs[n - 1].end > 0 && pieces_have_lines(
            exprs[n - 1].body@,
            exprs[n - 1].body@.len() as int,
        )
    }
}

/// Every expression in the pieces ends after it starts, on a line that counts.
pub open spec fn pieces_have_lines(pieces: Seq<Piece>, n: int) -> bool
    decreases pieces, n,
{
    if n <= 0 || n > pieces.len() {
        true
    } else {
        pieces_have_lines(pieces, n - 1) && match pieces[n - 1] {
            Piece::Text(t) => true,
            Piece::Braces(list) => exprs_have_lines(list.exprs@, list.exprs@.len() as int),
        }
    }
}

proof fn lemma_have_lines(exprs: Seq<Expr>, n: int)
    requires
        exprs_have_lines(exprs, n),
        0 <= n <= exprs.len(),
    ensures
        forall|i: int| 0 <= i < n ==> (#[trigger] exprs[i]).end > 0,
    decreases n,
{
    if n > 0 {
        lemma_have_lines(exprs, n - 1);
    }
}

proof fn lemma_plain_exprs(marks: Marks, exprs: Seq<Expr>, origin: Origin, n: int)
    requires
        marks.bps.len() == 0,
        origin.offset >= 0,
        0 <= n <= exprs.len(),
        exprs_have_lines(exprs, n),
    ensures
        ({
            let r = exprs_annotated(marks, exprs, origin, n);
            &&& r.0.bps.len() == 0
            &&& r.1.len() == n
            &&& forall|i: int|
                0 <= i < n ==> #[trigger] r.1[i] == pieces_text(
                    exprs[i].body@,
                    exprs[i].body@.len() as int,
                )
            &&& r.2 is None
        }),
    decreases exprs, n,
{
    if n > 0 {
        lemma_plain_exprs(marks, exprs, origin, n - 1);
        let before = exprs_annotated(marks, exprs, origin, n - 1);
        let pieces = exprs[n - 1].body@;
        assert(decreases_to!(exprs => exprs[n - 1]));
        lemma_plain_pieces(before.0, pieces, origin, pieces.len() as int);
    }
}

proof fn lemma_plain_pieces(marks: Marks, pieces: Seq<Piece>, origin: Origin, n: int)
    requires
        marks.bps.len() == 0,
        origin.offset >= 0,
        0 <= n <= pieces.len(),
        pieces_have_lines(pieces, n),
    ensures
        ({
            let r = pieces_annotated(marks, pieces, origin, n);
            r.0.bps.len() == 0 && r.1 == pieces_text(pieces, n) && r.2 is None
        }),
    decreases pieces, n,
{
    if n > 0 {
        lemma_plain_pieces(marks, pieces, origin, n - 1);
        let before = pieces_annotated(marks, pieces, origin, n - 1);
        assert(decreases_to!(pieces => pieces[n - 1]));
        match pieces[n - 1] {
            Piece::Text(t) => {},
            Piece::Braces(list) => {
                let count = list.exprs@.len() as int;
                lemma_plain_exprs(before.0, list.exprs@, origin, count);
                lemma_have_lines(list.exprs@, count);
                let inner = exprs_annotated(before.0, list.exprs@, origin, count);
                lemma_plain_list(inner.0, list, inner.1, origin, count);
                if count == 0 {
                    assert(list.open@ + Seq::<char>::empty() + list.close@ =~= list.open@
                        + list.close@);
                }
            },
        }
    }
}

/// Code without breakpoints is left as it is.
pub proof fn law_no_breakpoints_no_change(marks: Marks, code: RCode, origin: Origin)
    requires
        marks.bps.len() == 0,
        origin.offset >= 0,
        exprs_have_lines(code.exprs@, code.exprs@.len() as int),
    ensures
        code_annotated(marks, code, origin).1 == exprs_text(
            code.exprs@,
            code.exprs@.len() as int,
        ) + code.tail@,
        code_annotated(marks, code, origin).2 is None,
{
    let n = code.exprs@.len() as int;
    lemma_plain_exprs(marks, code.exprs@, origin, n);
    let inner = exprs_annotated(marks, code.exprs@, origin, n);
    lemma_plain_text(code.exprs@, inner.1, n);
}

proof fn lemma_plain_text(exprs: Seq<Expr>, bodies: Seq<Seq<char>>, n: int)
    requires
        0 <= n <= exprs.len(),
        forall|i: int|
            0 <= i < n ==> #[trigger] bodies[i] == pieces_text(
                exprs[i].body@,
                exprs[i].body@.len() as int,
            ),
    ensures
        plain_text(exprs, bodies, n) == exprs_text(exprs, n),
    decreases n,
{
    if n > 0 {
        lemma_plain_text(exprs, bodies, n - 1);
        assert(bodies[n - 1] == pieces_text(
            exprs[n - 1].body@,
            exprs[n - 1].body@.len() as int,
        ));
    }
}

/// The characters of `a` stand in `b` at the places `at`, in their order.
pub open spec fn stands_at(a: Seq<char>, b: Seq<char>, at: Seq<int>) -> bool {
    &&& at.len() == a.len()
    &&& forall|i: int| 0 <= i < a.len() ==> 0 <= #[trigger] at[i] < b.len() && b[at[i]] == a[i]
    &&& forall|i: int, j: int| 0 <= i < j < a.len() ==> #[trigger] at[i] < #[trigger] at[j]
}

/// Text is only inserted into `a` to have `b`.
pub open spec fn is_kept_in(a: Seq<char>, b: Seq<char>) -> bool {
    exists|at: Seq<int>| stands_at(a, b, at)
}

proof fn lemma_kept_self(a: Seq<char>)
    ensures
        is_kept_in(a, a),
{
    assert(stands_at(a, a, Seq::new(a.len(), |i: int| i)));
}

proof fn lemma_kept_none(b: Seq<char>)
    ensures
        is_kept_in(Seq::empty(), b),
{
    assert(stands_at(Seq::empty(), b, Seq::empty()));
}

proof fn lemma_kept_start(a: Seq<char>, c: Seq<char>, b: Seq<char>)
    requires
        is_kept_in(a + c, b),
    ensures
        is_kept_in(a, b),
{
    let at = choose|at: Seq<int>| stands_at(a + c, b, at);
    let start = at.take(a.len() as int);
    assert forall|i: int| 0 <= i < a.len() implies 0 <= #[trigger] start[i] < b.len()
        && b[start[i]] == a[i] by {
        assert(start[i] == at[i]);
        assert((a + c)[i] == a[i]);
    }
    assert(stands_at(a, b, start));
}

proof fn lemma_kept_join(a: Seq<char>, b: Seq<char>, c: Seq<char>, d: Seq<char>)
    requires
        is_kept_in(a, b),
        is_kept_in(c, d),
    ensures
        is_kept_in(a + c, b + d),
{
    let left = choose|at: Seq<int>| stands_at(a, b, at);
    let right = choose|at: Seq<int>| stands_at(c, d, at);
    let at = left + right.map_values(|i: int| i + b.len());
    assert forall|i: int| 0 <= i < (a + c).len() implies 0 <= #[trigger] at[i] < (b + d).len()
        && (b + d)[at[i]] == (a + c)[i] by {
        if i < a.len() {
            assert(at[i] == left[i]);
        } else {
            assert(at[i] == right[i - a.len()] + b.len());
        }
    }
    assert forall|i: int, j: int| 0 <= i < j < (a + c).len() implies #[trigger] at[i]
        < #[trigger] at[j] by {
        if j < a.len() {
            assert(at[i] == left[i] && at[j] == left[j]);
        } else if i < a.len() {
            assert(at[i] == left[i] && at[j] == right[j - a.len()] + b.len());
        } else {
            assert(at[i] == right[i - a.len()] + b.len());
            assert(at[j] == right[j - a.len()] + b.len());
        }
    }
    assert(stands_at(a + c, b + d, at));
}

proof fn lemma_trivia_first(pieces: Seq<TriviaPiece>)
    requires
        pieces.len() > 0,
    ensures
        trivia_text(pieces) == pieces[0].text@ + trivia_text(pieces.drop_first()),
    decreases pieces.len(),
{
    if pieces.len() == 1 {
        assert(pieces.drop_last() =~= Seq::empty());
        assert(pieces.drop_first() =~= Seq::empty());
        assert(trivia_text(pieces) =~= pieces[0].text@ + trivia_text(pieces.drop_first()));
    } else {
        lemma_trivia_first(pieces.drop_last());
        assert(pieces.drop_last().drop_first() =~= pieces.drop_first().drop_last());
        assert(pieces.drop_first().last() == pieces.last());
        assert(trivia_text(pieces) =~= pieces[0].text@ + trivia_text(pieces.drop_first()));
    }
}

proof fn lemma_kept_inside(a: Seq<char>, inserted: Seq<char>, b: Seq<char>)
    ensures
        is_kept_in(a + b, a + inserted + b),
{
    lemma_kept_self(a);
    lemma_kept_self(b);
    lemma_kept_none(inserted);
    lemma_kept_join(a, a, Seq::empty(), inserted);
    assert(a + Seq::<char>::empty() =~= a);
    lemma_kept_join(a, a + inserted, b, b);
}

proof fn lemma_directed_keeps(pieces: Seq<TriviaPiece>, uri: Seq<char>, line: int)
    ensures
        is_kept_in(trivia_text(without_newline(pieces)), directed(pieces, uri, line)),
{
    let kept = without_newline(pieces);
    let inserted = line_directive(uri, line) + "\n"@;
    if kept.len() > 0 && kept.last().kind == TriviaKind::Whitespace {
        lemma_kept_inside(trivia_text(kept.drop_last()), inserted, kept.last().text@);
    } else {
        let none = Seq::<char>::empty();
        lemma_kept_inside(trivia_text(kept), inserted, none);
        assert(trivia_text(kept) + none =~= trivia_text(kept));
        assert(trivia_text(kept) + inserted + none =~= trivia_text(kept) + inserted);
    }
}

/// The pieces start with a line feed, if they start with an end of line.
pub open spec fn starts_with_line_feed(pieces: Seq<TriviaPiece>) -> bool {
    pieces.len() > 0 && pieces[0].kind == TriviaKind::Newline ==> pieces[0].text@ == "\n"@
}

/// The lines before expressions end with line feeds.
pub open spec fn exprs_have_line_feeds(exprs: Seq<Expr>, n: int) -> bool
    decreases exprs, n,
{
    if n <= 0 || n > exprs.len() {
        true
    } else {
        &&& exprs_have_line_feeds(exprs, n - 1)
        &&& starts_with_line_feed(exprs[n - 1].leading@)
        &&& pieces_have_line_feeds(exprs[n - 1].body@, exprs[n - 1].body@.len() as int)
    }
}

/// The lines before the expressions in pieces end with line feeds.
pub open spec fn pieces_have_line_feeds(pieces: Seq<Piece>, n: int) -> bool
    decreases pieces, n,
{
    if n <= 0 || n > pieces.len() {
        true
    } else {
        pieces_have_line_feeds(pieces, n - 1) && match pieces[n - 1] {
            Piece::Text(t) => true,
            Piece::Braces(list) => exprs_have_line_feeds(
                list.exprs@,
                list.exprs@.len() as int,
            ),
        }
    }
}

proof fn lemma_have_line_feeds(exprs: Seq<Expr>, n: int)
    requires
        exprs_have_line_feeds(exprs, n),
        0 <= n <= exprs.len(),
    ensures
        forall|i: int| 0 <= i < n ==> starts_with_line_feed((#[trigger] exprs[i]).leading@),
    decreases n,
{
    if n > 0 {
        lemma_have_line_feeds(exprs, n - 1);
    }
}

/// The annotated texts of expressions keep what they were.
spec fn bodies_keep(exprs: Seq<Expr>, bodies: Seq<Seq<char>>, n: int) -> bool {
    &&& bodies.len() == n
    &&& forall|i: int|
        0 <= i < n ==> is_kept_in(
            pieces_text(exprs[i].body@, exprs[i].body@.len() as int),
            #[trigger] bodies[i],
        )
}

/// The line feed that a directive replaces, where the next expression needs one.
spec fn owed(s: ListState) -> Seq<char> {
    if s.needs_directive {
        "\n"@
    } else {
        Seq::empty()
    }
}

proof fn lemma_step_keeps(
    s: ListState,
    expr: Expr,
    body: Seq<char>,
    is_last: bool,
    origin: Origin,
    done: Seq<char>,
)
    requires
        s.err is None,
        starts_with_line_feed(expr.leading@),
        is_kept_in(pieces_text(expr.body@, expr.body@.len() as int), body),
        is_kept_in(done + owed(s), s.text),
        list_step(s, expr, body, is_last, origin).err is None,
    ensures
        ({
            let next = list_step(s, expr, body, is_last, origin);
            let lead = trivia_text(expr.leading@);
            let own = pieces_text(expr.body@, expr.body@.len() as int);
            is_kept_in(done + lead + own + owed(next), next.text)
        }),
{
    reveal_strlit("\n");
    let none = Seq::<char>::empty();
    let start = expr.start + origin.offset;
    let end = expr.end + origin.offset;
    let first = first_anchor(s.marks, s.prev_end, end - 1, 0);
    let marks = anchored(s.marks, s.prev_end, end - 1, start);
    let needs = s.needs_directive || first is Some;
    let verify = !is_last && breakpoints_in_range(marks.bps, start, end);
    let next = list_step(s, expr, body, is_last, origin);
    let lead = trivia_text(expr.leading@);
    let own = pieces_text(expr.body@, expr.body@.len() as int);
    let injected = match first {
        Some(i) => breakpoint_call(origin.uri, s.marks.bps[i].id),
        None => none,
    };
    let leading = if needs {
        directed(expr.leading@, origin.uri, start)
    } else {
        lead
    };
    let call = verify_call(origin.uri, not_negative(start), not_negative(end));
    let verified = if verify {
        "\n"@ + call + "\n"@
    } else {
        none
    };
    assert(next.text == s.text + injected + leading + body + verified);
    lemma_kept_start(done, owed(s), s.text);
    // What was done, with the line feed that the directive replaces.
    let before = s.text + injected;
    if needs {
        let rest = trivia_text(without_newline(expr.leading@));
        lemma_directed_keeps(expr.leading@, origin.uri, start);
        assert(is_kept_in(done + "\n"@, before)) by {
            if first is Some {
                let id = s.marks.bps[first->0].id;
                let head = "\nbase::.ark_auto_step(base::.ark_breakpoint(browser(), \""@
                    + origin.uri + "\", \""@ + text::decimal_int(id as int);
                reveal_strlit("\"))\n");
                let tail = "\"))\n"@;
                let at = seq![injected.len() - 1];
                assert(injected =~= head + tail);
                assert(injected[injected.len() - 1] == '\n');
                assert(stands_at("\n"@, injected, at));
                lemma_kept_join(done, s.text, "\n"@, injected);
            } else {
                assert(before =~= s.text);
            }
        }
        if expr.leading@.len() > 0 && expr.leading@[0].kind == TriviaKind::Newline {
            lemma_trivia_first(expr.leading@);
            lemma_kept_join(done + "\n"@, before, rest, leading);
            assert(done + "\n"@ + rest =~= done + lead);
        } else {
            lemma_kept_start(done, "\n"@, before);
            lemma_kept_join(done, before, rest, leading);
        }
    } else {
        lemma_kept_self(lead);
        assert(before =~= s.text);
        lemma_kept_join(done, before, lead, leading);
    }
    assert(is_kept_in(done + lead, before + leading));
    lemma_kept_join(done + lead, before + leading, own, body);
    if verify {
        let at = seq![verified.len() - 1];
        assert(stands_at("\n"@, verified, at));
        lemma_kept_join(done + lead + own, before + leading + body, "\n"@, verified);
    } else {
        lemma_kept_none(verified);
        lemma_kept_join(done + lead + own, before + leading + body, none, verified);
    }
}

proof fn lemma_list_keeps(
    marks: Marks,
    list: Braced,
    bodies: Seq<Seq<char>>,
    origin: Origin,
    n: int,
)
    requires
        0 <= n <= list.exprs@.len(),
        bodies_keep(list.exprs@, bodies, list.exprs@.len() as int),
        forall|i: int|
            0 <= i < list.exprs@.len() ==> starts_with_line_feed(
                (#[trigger] list.exprs@[i]).leading@,
            ),
        list_state(marks, list, bodies, origin, n).err is None,
    ensures
        is_kept_in(
            exprs_text(list.exprs@, n) + owed(list_state(marks, list, bodies, origin, n)),
            list_state(marks, list, bodies, origin, n).text,
        ),
    decreases n,
{
    if n <= 0 {
        lemma_kept_none(Seq::empty());
        assert(Seq::<char>::empty() + Seq::<char>::empty() =~= Seq::<char>::empty());
    } else {
        lemma_list_keeps(marks, list, bodies, origin, n - 1);
        assert(is_kept_in(
            pieces_text(list.exprs@[n - 1].body@, list.exprs@[n - 1].body@.len() as int),
            bodies[n - 1],
        ));
        lemma_step_keeps(
            list_state(marks, list, bodies, origin, n - 1),
            list.exprs@[n - 1],
            bodies[n - 1],
            n == list.exprs@.len(),
            origin,
            exprs_text(list.exprs@, n - 1),
        );
    }
}

proof fn lemma_exprs_keep(marks: Marks, exprs: Seq<Expr>, origin: Origin, n: int)
    requires
        0 <= n <= exprs.len(),
        exprs_have_line_feeds(exprs, n),
        exprs_annotated(marks, exprs, origin, n).2 is None,
    ensures
        bodies_keep(exprs, exprs_annotated(marks, exprs, origin, n).1, n),
    decreases exprs, n,
{
    if n > 0 {
        lemma_exprs_keep(marks, exprs, origin, n - 1);
        let before = exprs_annotated(marks, exprs, origin, n - 1);
        let pieces = exprs[n - 1].body@;
        assert(decreases_to!(exprs => exprs[n - 1]));
        lemma_pieces_keep(before.0, pieces, origin, pieces.len() as int);
    }
}

proof fn lemma_pieces_keep(marks: Marks, pieces: Seq<Piece>, origin: Origin, n: int)
    requires
        0 <= n <= pieces.len(),
        pieces_have_line_feeds(pieces, n),
        pieces_annotated(marks, pieces, origin, n).2 is None,
    ensures
        is_kept_in(pieces_text(pieces, n), pieces_annotated(marks, pieces, origin, n).1),
    decreases pieces, n,
{
    if n <= 0 {
        lemma_kept_none(Seq::empty());
    } else {
        lemma_pieces_keep(marks, pieces, origin, n - 1);
        let before = pieces_annotated(marks, pieces, origin, n - 1);
        assert(decreases_to!(pieces => pieces[n - 1]));
        match pieces[n - 1] {
            Piece::Text(t) => {
                lemma_kept_self(t@);
                lemma_kept_join(pieces_text(pieces, n - 1), before.1, t@, t@);
            },
            Piece::Braces(list) => {
                let count = list.exprs@.len() as int;
                lemma_exprs_keep(before.0, list.exprs@, origin, count);
                lemma_have_line_feeds(list.exprs@, count);
                let inner = exprs_annotated(before.0, list.exprs@, origin, count);
                let after = braced_annotated(inner.0, list, inner.1, origin);
                let all = exprs_text(list.exprs@, count);
                lemma_kept_self(list.open@);
                lemma_kept_self(list.close@);
                if count == 0 {
                    lemma_kept_join(list.open@, list.open@, list.close@, list.close@);
                    assert(list.open@ + all =~= list.open@);
                } else {
                    lemma_list_keeps(inner.0, list, inner.1, origin, count);
                    let s = list_state(inner.0, list, inner.1, origin, count);
                    lemma_kept_start(all, owed(s), s.text);
                    lemma_kept_join(list.open@, list.open@, all, s.text);
                    lemma_kept_join(
                        list.open@ + all,
                        list.open@ + s.text,
                        list.close@,
                        list.close@,
                    );
                }
                lemma_kept_join(
                    pieces_text(pieces, n - 1),
                    before.1,
                    list.open@ + all + list.close@,
                    after.1,
                );
            },
        }
    }
}

proof fn lemma_plain_text_keeps(exprs: Seq<Expr>, bodies: Seq<Seq<char>>, n: int)
    requires
        0 <= n <= exprs.len(),
        bodies_keep(exprs, bodies, exprs.len() as int),
    ensures
        is_kept_in(exprs_text(exprs, n), plain_text(exprs, bodies, n)),
    decreases n,
{
    if n <= 0 {
        lemma_kept_none(Seq::empty());
    } else {
        lemma_plain_text_keeps(exprs, bodies, n - 1);
        let lead = trivia_text(exprs[n - 1].leading@);
        let own = pieces_text(exprs[n - 1].body@, exprs[n - 1].body@.len() as int);
        assert(is_kept_in(own, bodies[n - 1]));
        lemma_kept_self(lead);
        lemma_kept_join(exprs_text(exprs, n - 1), plain_text(exprs, bodies, n - 1), lead, lead);
        lemma_kept_join(
            exprs_text(exprs, n - 1) + lead,
            plain_text(exprs, bodies, n - 1) + lead,
            own,
            bodies[n - 1],
        );
    }
}

/// Annotating code only inserts text: all the characters of the code stand in the
/// annotated code, in their order.
pub proof fn law_annotation_only_inserts(marks: Marks, code: RCode, origin: Origin)
    requires
        exprs_have_line_feeds(code.exprs@, code.exprs@.len() as int),
        code_annotated(marks, code, origin).2 is None,
    ensures
        is_kept_in(
            exprs_text(code.exprs@, code.exprs@.len() as int) + code.tail@,
            code_annotated(marks, code, origin).1,
        ),
{
    let n = code.exprs@.len() as int;
    lemma_exprs_keep(marks, code.exprs@, origin, n);
    let inner = exprs_annotated(marks, code.exprs@, origin, n);
    lemma_plain_text_keeps(code.exprs@, inner.1, n);
    lemma_kept_self(code.tail@);
    lemma_kept_join(
        exprs_text(code.exprs@, n),
        plain_text(code.exprs@, inner.1, n),
        code.tail@,
        code.tail@,
    );
}

/// What is injected: a breakpoint's call names the document and the breakpoint, and
/// stops in the browser. The call that verifies lines and the directive count lines
/// from one, and the line after the last one is given.
pub proof fn law_injected_calls(uri: Seq<char>, id: i64, start: int, end: int)
    ensures
        breakpoint_call(uri, id) == "\nbase::.ark_auto_step(base::.ark_breakpoint(browser(), \""@
            + uri + "\", \""@ + text::decimal_int(id as int) + "\"))\n"@,
        verify_call(uri, start, end)
            == "base::.ark_auto_step(base::.ark_verify_breakpoints_range(\""@ + uri + "\", "@
            + text::decimal_int(start + 1) + "L, "@ + text::decimal_int(end + 1) + "L))"@,
        line_directive(uri, start) == "#line "@ + text::decimal_int(start + 1) + " \""@ + uri
            + "\""@,
{
}

/// A breakpoint on the line of an opening brace belongs to the list in the braces only
/// if the list starts on that line. One on a later line belongs to it, one on an
/// earlier line does not.
pub proof fn law_first_line_of_a_list(line: int, brace: int, first: int)
    requires
        brace <= first,
    ensures
        line < brace ==> line < spec_breakpoint_floor(brace, first),
        line > brace ==> spec_breakpoint_floor(brace, first) <= line,
        line == brace ==> (spec_breakpoint_floor(brace, first) <= line <==> first == brace),
{
}

proof fn lemma_first_anchor(m: Marks, prev_end: int, last: int, from: int, i: int)
    requires
        0 <= from <= i < m.bps.len(),
        anchors(m, i, prev_end, last),
        forall|j: int| from <= j < i ==> !#[trigger] anchors(m, j, prev_end, last),
    ensures
        first_anchor(m, prev_end, last, from) == Some(i),
    decreases i - from,
{
    if from < i {
        lemma_first_anchor(m, prev_end, last, from + 1, i);
    }
}

proof fn lemma_no_anchor(m: Marks, prev_end: int, last: int, from: int)
    requires
        0 <= from,
        forall|j: int| from <= j < m.bps.len() ==> !#[trigger] anchors(m, j, prev_end, last),
    ensures
        first_anchor(m, prev_end, last, from) is None,
    decreases m.bps.len() - from,
{
    if from < m.bps.len() {
        lemma_no_anchor(m, prev_end, last, from + 1);
    }
}

/// The breakpoint was neither injected nor found invalid.
pub open spec fn waits(m: Marks, i: int) -> bool {
    !m.consumed.contains(m.bps[i].id) && !(m.bps[i].state is Invalid)
}

/// The first breakpoint between the end of the expression before and the end of an
/// expression is injected right before it, and the expression is told its line. All
/// the breakpoints there now stand on the expression's first line. The others stay.
pub proof fn law_breakpoint_is_injected(
    s: ListState,
    expr: Expr,
    body: Seq<char>,
    is_last: bool,
    origin: Origin,
    i: int,
)
    requires
        s.err is None,
        0 <= expr.start + origin.offset <= u32::MAX,
        expr.start < expr.end,
        0 <= i < s.marks.bps.len(),
        waits(s.marks, i),
        forall|j: int|
            0 <= j < s.marks.bps.len() ==> (#[trigger] s.marks.bps[j]).line <= i32::MAX,
        s.prev_end <= s.marks.bps[i].line < expr.end + origin.offset,
        forall|j: int|
            #![trigger s.marks.bps[j]]
            0 <= j < i && waits(s.marks, j) ==> s.marks.bps[j].line < s.prev_end
                || s.marks.bps[j].line >= expr.end + origin.offset,
    ensures
        list_step(s, expr, body, is_last, origin).err is None,
        list_step(s, expr, body, is_last, origin).prev_end == expr.end + origin.offset,
        (s.text + breakpoint_call(origin.uri, s.marks.bps[i].id) + directed(
            expr.leading@,
            origin.uri,
            expr.start + origin.offset,
        ) + body).is_prefix_of(list_step(s, expr, body, is_last, origin).text),
        list_step(s, expr, body, is_last, origin).marks.bps.len() == s.marks.bps.len(),
        forall|j: int|
            0 <= j < s.marks.bps.len() ==> (#[trigger] list_step(
                s,
                expr,
                body,
                is_last,
                origin,
            ).marks.bps[j]) == (if waits(s.marks, j) && s.prev_end <= s.marks.bps[j].line
                < expr.end + origin.offset {
                Breakpoint { line: (expr.start + origin.offset) as u32, ..s.marks.bps[j] }
            } else {
                s.marks.bps[j]
            }),
        forall|id: i64| #[trigger]
            list_step(s, expr, body, is_last, origin).marks.consumed.contains(id) <==> (
            s.marks.consumed.contains(id) || exists|j: int|
                #![trigger s.marks.bps[j]]
                0 <= j < s.marks.bps.len() && waits(s.marks, j) && s.prev_end
                    <= s.marks.bps[j].line < expr.end + origin.offset && s.marks.bps[j].id == id),
{
    let last = expr.end + origin.offset - 1;
    let m = s.marks;
    assert forall|j: int| 0 <= j < m.bps.len() implies (#[trigger] anchors(
        m,
        j,
        s.prev_end,
        last,
    ) <==> waits(m, j) && s.prev_end <= m.bps[j].line < expr.end + origin.offset) by {
        assert(m.bps[j].line <= i32::MAX);
    }
    assert(anchors(m, i, s.prev_end, last));
    lemma_first_anchor(m, s.prev_end, last, 0, i);
    let r = list_step(s, expr, body, is_last, origin);
    let head = s.text + breakpoint_call(origin.uri, m.bps[i].id) + directed(
        expr.leading@,
        origin.uri,
        expr.start + origin.offset,
    ) + body;
    assert(head =~= r.text.take(head.len() as int));
    assert forall|id: i64| #[trigger]
        r.marks.consumed.contains(id) implies s.marks.consumed.contains(id) || exists|j: int|
        #![trigger s.marks.bps[j]]
        0 <= j < s.marks.bps.len() && waits(s.marks, j) && s.prev_end <= s.marks.bps[j].line
            < expr.end + origin.offset && s.marks.bps[j].id == id by {
        if !s.marks.consumed.contains(id) {
            let j = choose|j: int|
                0 <= j < m.bps.len() && #[trigger] anchors(m, j, s.prev_end, last) && m.bps[j].id
                    == id;
            assert(m.bps[j].id == id);
        }
    }
    assert forall|id: i64|
        (s.marks.consumed.contains(id) || exists|j: int|
            #![trigger s.marks.bps[j]]
            0 <= j < s.marks.bps.len() && waits(s.marks, j) && s.prev_end <= s.marks.bps[j].line
                < expr.end + origin.offset && s.marks.bps[j].id == id) implies #[trigger]
    r.marks.consumed.contains(id) by {
        if !s.marks.consumed.contains(id) {
            let j = choose|j: int|
                #![trigger s.marks.bps[j]]
                0 <= j < s.marks.bps.len() && waits(s.marks, j) && s.prev_end
                    <= s.marks.bps[j].line < expr.end + origin.offset && s.marks.bps[j].id == id;
            assert(anchors(m, j, s.prev_end, last));
        }
    }
}

/// Where no breakpoint stands nothing is injected before an expression, and nothing
/// changes about the breakpoints. The expression is told its line only after a call.
pub proof fn law_nothing_is_injected_elsewhere(
    s: ListState,
    expr: Expr,
    body: Seq<char>,
    is_last: bool,
    origin: Origin,
)
    requires
        s.err is None,
        0 <= expr.start + origin.offset,
        expr.start < expr.end,
        forall|j: int|
            0 <= j < s.marks.bps.len() ==> (#[trigger] s.marks.bps[j]).line <= i32::MAX,
        forall|j: int|
            #![trigger s.marks.bps[j]]
            0 <= j < s.marks.bps.len() && waits(s.marks, j) ==> s.marks.bps[j].line < s.prev_end
                || s.marks.bps[j].line >= expr.end + origin.offset,
    ensures
        list_step(s, expr, body, is_last, origin).err is None,
        list_step(s, expr, body, is_last, origin).prev_end == expr.end + origin.offset,
        list_step(s, expr, body, is_last, origin).marks == s.marks,
        !s.needs_directive ==> (s.text + trivia_text(expr.leading@) + body).is_prefix_of(
            list_step(s, expr, body, is_last, origin).text,
        ),
        s.needs_directive ==> (s.text + directed(
            expr.leading@,
            origin.uri,
            expr.start + origin.offset,
        ) + body).is_prefix_of(list_step(s, expr, body, is_last, origin).text),
{
    let last = expr.end + origin.offset - 1;
    let m = s.marks;
    assert forall|j: int| 0 <= j < m.bps.len() implies !#[trigger] anchors(
        m,
        j,
        s.prev_end,
        last,
    ) by {
        assert(m.bps[j].line <= i32::MAX);
    }
    lemma_no_anchor(m, s.prev_end, last, 0);
    let r = list_step(s, expr, body, is_last, origin);
    assert(r.marks =~= s.marks);
    let plain = s.text + trivia_text(expr.leading@) + body;
    let told = s.text + directed(expr.leading@, origin.uri, expr.start + origin.offset) + body;
    if s.needs_directive {
        assert(told =~= r.text.take(told.len() as int));
    } else {
        assert(plain =~= r.text.take(plain.len() as int));
    }
}

/// After an expression that holds breakpoints, and that is not the last one of its
/// list, its lines are verified, and the next expression is told its line. After any
/// other nothing is added.
pub proof fn law_lines_are_verified_after_them(
    s: ListState,
    expr: Expr,
    body: Seq<char>,
    is_last: bool,
    origin: Origin,
)
    requires
        s.err is None,
        0 <= expr.start + origin.offset,
        expr.start < expr.end,
        list_step(s, expr, body, is_last, origin).err is None,
    ensures
        ({
            let r = list_step(s, expr, body, is_last, origin);
            let holds = exists|j: int|
                #![trigger r.marks.bps[j]]
                0 <= j < r.marks.bps.len() && !(r.marks.bps[j].state is Invalid) && expr.start
                    + origin.offset <= (r.marks.bps[j].line as i32) < expr.end + origin.offset;
            if holds && !is_last {
                &&& r.needs_directive
                &&& (body + "\n"@ + verify_call(
                    origin.uri,
                    expr.start + origin.offset,
                    expr.end + origin.offset,
                ) + "\n"@).is_suffix_of(r.text)
            } else {
                &&& !r.needs_directive
                &&& body.is_suffix_of(r.text)
            }
        }),
{
    let r = list_step(s, expr, body, is_last, origin);
    let end = body + "\n"@ + verify_call(
        origin.uri,
        expr.start + origin.offset,
        expr.end + origin.offset,
    ) + "\n"@;
    if r.needs_directive {
        assert(end =~= r.text.skip(r.text.len() - end.len()));
    } else {
        assert(body =~= r.text.skip(r.text.len() - body.len()));
    }
}

/// An expression that ends before the document starts cannot be annotated, nor can one
/// that starts before the document where it would have to be told its line.
pub proof fn law_lines_before_the_document(
    s: ListState,
    expr: Expr,
    body: Seq<char>,
    is_last: bool,
    origin: Origin,
)
    requires
        s.err is None,
        i64::MIN < expr.start + origin.offset < i64::MAX,
        i64::MIN < expr.end + origin.offset < i64::MAX,
    ensures
        expr.end + origin.offset <= 0 ==> list_step(s, expr, body, is_last, origin).err == Some(
            AnnotateError::NegativeLastLine((expr.end + origin.offset - 1) as i64),
        ),
        expr.end + origin.offset > 0 && expr.start + origin.offset < 0 && s.needs_directive
            ==> list_step(s, expr, body, is_last, origin).err == Some(
            AnnotateError::NegativeDirectiveLine((expr.start + origin.offset) as i64),
        ),
        expr.end + origin.offset > 0 && expr.start + origin.offset >= 0 ==> list_step(
            s,
            expr,
            body,
            is_last,
            origin,
        ).err is None,
{
}

/// A directive stands on a line of its own. The line feed that ended the line before
/// gives way to it, and the blanks before an expression stay right before it.
pub proof fn law_directives_stand_on_their_own_line(
    feed: TriviaPiece,
    between: Seq<TriviaPiece>,
    indent: TriviaPiece,
    uri: Seq<char>,
    line: int,
)
    requires
        feed.kind == TriviaKind::Newline,
        indent.kind == TriviaKind::Whitespace,
        between.len() > 0 ==> between[0].kind != TriviaKind::Newline && between.last().kind
            != TriviaKind::Whitespace,
    ensures
        directed(seq![feed] + between + seq![indent], uri, line) == trivia_text(between)
            + line_directive(uri, line) + "\n"@ + indent.text@,
        directed(between + seq![indent], uri, line) == trivia_text(between) + line_directive(
            uri,
            line,
        ) + "\n"@ + indent.text@,
        directed(seq![feed] + between, uri, line) == trivia_text(between) + line_directive(
            uri,
            line,
        ) + "\n"@,
        directed(between, uri, line) == trivia_text(between) + line_directive(uri, line) + "\n"@,
{
    let a = seq![feed] + between + seq![indent];
    assert(a.drop_first() =~= between + seq![indent]);
    assert((between + seq![indent]).drop_last() =~= between);
    assert((seq![feed] + between).drop_first() =~= between);
    let end = line_directive(uri, line) + "\n"@;
    assert(trivia_text(between) + end + indent.text@ =~= trivia_text(between) + line_directive(
        uri,
        line,
    ) + "\n"@ + indent.text@);
    assert(trivia_text(between) + end =~= trivia_text(between) + line_directive(uri, line)
        + "\n"@);
}

/// The text of pieces is the text of each, in order.
pub proof fn law_text_between_tokens(a: Seq<TriviaPiece>, piece: TriviaPiece)
    ensures
        trivia_text(Seq::empty()).len() == 0,
        trivia_text(a.push(piece)) == trivia_text(a) + piece.text@,
{
    assert(a.push(piece).drop_last() =~= a);
}

/// In the lines of a list in braces, from the first one to the one after its last
/// expression, no breakpoint is left waiting: what was not injected stands on a closing
/// brace and is invalid. Breakpoints on other lines are as the expressions left them.
pub proof fn law_left_over_breakpoints_are_invalid(
    marks: Marks,
    list: Braced,
    bodies: Seq<Seq<char>>,
    origin: Origin,
    i: int,
)
    requires
        list.exprs@.len() > 0,
        list.line <= list.exprs@[0].start,
        0 <= i < marks.bps.len(),
    ensures
        ({
            let left = list_state(marks, list, bodies, origin, list.exprs@.len() as int).marks;
            let r = braced_annotated(marks, list, bodies, origin).0;
            let line = left.bps[i].line as i32;
            let first = list.exprs@[0].start + origin.offset;
            let brace = list.line + origin.offset;
            &&& r.consumed == left.consumed
            &&& r.bps.len() == left.bps.len()
            &&& waits(left, i) && (brace < line || (brace == first && brace == line)) && line
                <= list.exprs@.last().end + origin.offset && i < left.bps.len() ==> r.bps[i]
                == (Breakpoint {
                state: BreakpointState::Invalid(InvalidReason::ClosingBrace),
                ..left.bps[i]
            })
            &&& (!waits(left, i) || line < brace || (line == brace && brace < first) || line
                > list.exprs@.last().end + origin.offset) && i < left.bps.len() ==> r.bps[i]
                == left.bps[i]
        }),
{
}

/// At the end of some code every breakpoint that still waits is invalid, and the others
/// are as they were.
pub proof fn law_no_breakpoint_waits_at_the_end(marks: Marks, i: int)
    requires
        0 <= i < marks.bps.len(),
    ensures
        invalidated(marks, None).consumed == marks.consumed,
        invalidated(marks, None).bps.len() == marks.bps.len(),
        waits(marks, i) ==> invalidated(marks, None).bps[i] == (Breakpoint {
            state: BreakpointState::Invalid(InvalidReason::ClosingBrace),
            ..marks.bps[i]
        }),
        !waits(marks, i) ==> invalidated(marks, None).bps[i] == marks.bps[i],
{
}

/// Input for the console starts with a directive for its line, on a line of its own,
/// and with as many blanks as stand before it in the document.
pub proof fn law_input_is_placed(location: CodeLocation, code: Seq<char>)
    ensures
        ({
            let r = placed(location, code);
            let start = "#line "@ + text::decimal_int(location.start.line + 1) + " \""@
                + location.uri@ + "\"\n"@;
            &&& r.len() == start.len() + location.start.character + code.len()
            &&& start.is_prefix_of(r)
            &&& code.is_suffix_of(r)
            &&& forall|i: int|
                start.len() <= i < start.len() + location.start.character ==> #[trigger] r[i] == ' '
        }),
{
    let r = placed(location, code);
    let start = "#line "@ + text::decimal_int(location.start.line + 1) + " \""@ + location.uri@
        + "\"\n"@;
    reveal_strlit("\"\n");
    reveal_strlit("\"");
    reveal_strlit("\n");
    assert("\"\n"@ =~= "\""@ + "\n"@);
    assert(start =~= line_directive(location.uri@, location.start.line as int) + "\n"@);
    assert(start =~= r.take(start.len() as int));
    assert(code =~= r.skip(r.len() - code.len()));
}

/// Input without breakpoints is placed as it is. With breakpoints, all of them come
/// back, and the input is placed with what was injected into it.
pub proof fn law_input_is_annotated(
    r: Annotated,
    source: Seq<char>,
    code: RCode,
    location: CodeLocation,
    bps: Seq<Breakpoint>,
)
    requires
        location.start.line <= i32::MAX,
    ensures
        is_annotated_input(r, source, code, location, None) ==> r.breakpoints is None && (r.code
            matches Ok(t) && t@ == placed(location, source)),
        is_annotated_input(r, source, code, location, Some(bps)) ==> ({
            let out = code_annotated(
                Marks { bps: by_line(bps), consumed: Set::empty() },
                code,
                Origin { uri: location.uri@, offset: location.start.line as int },
            );
            &&& r.breakpoints matches Some(left) && left@ == out.0.bps
            &&& out.2 is None ==> (r.code matches Ok(t) && t@ == placed(location, out.1))
            &&& out.2 matches Some(e) ==> r.code == Err::<String, AnnotateError>(e)
        }),
{
}

/// A character starts a line if nothing or a line feed stands before it.
pub proof fn law_count_of_lines(s: Seq<char>, c: char)
    ensures
        line_count(Seq::empty()) == 0,
        line_count(s.push(c)) == line_count(s) + (if s.len() == 0 || s.last() == '\n' {
            1int
        } else {
            0
        }),
{
    lemma_lines_pushed(s, c);
    assert(!Seq::<char>::empty().contains('\n'));
}

proof fn lemma_lines_pushed(s: Seq<char>, c: char)
    ensures
        text::lines_of(s.push(c)).len() == text::lines_of(s).len() + (if c == '\n' {
            1int
        } else {
            0
        }),
        text::lines_of(s).len() > 0,
    decreases s.len(),
{
    let t = s.push(c);
    if s.contains('\n') {
        let i = s.index_of_first('\n')->0;
        s.index_of_first_ensures('\n');
        t.index_of_first_ensures('\n');
        assert(t[i] == '\n');
        assert(t.contains('\n'));
        let k = t.index_of_first('\n')->0;
        assert(k == i);
        assert(t.skip(i + 1) =~= s.skip(i + 1).push(c));
        lemma_lines_pushed(s.skip(i + 1), c);
        assert(text::lines_of(t).len() == 1 + text::lines_of(t.skip(i + 1)).len());
        assert(text::lines_of(s).len() == 1 + text::lines_of(s.skip(i + 1)).len());
    } else if c == '\n' {
        assert(t.last() == '\n');
        assert(t.contains('\n'));
        t.index_of_first_ensures('\n');
        let k = t.index_of_first('\n')->0;
        assert(k == s.len()) by {
            if k < s.len() {
                assert(s[k] == '\n');
            }
        }
        assert(t.skip(k + 1) =~= Seq::<char>::empty());
        assert(!Seq::<char>::empty().contains('\n'));
        assert(text::lines_of(t.skip(k + 1)).len() == 1);
        assert(text::lines_of(t).len() == 1 + text::lines_of(t.skip(k + 1)).len());
    } else {
        assert(!t.contains('\n')) by {
            if t.contains('\n') {
                let k = choose|k: int| 0 <= k < t.len() && t[k] == '\n';
                assert(s[k] == '\n');
            }
        }
    }
}

/// A file is annotated with its lines counted from the one after the brace that was put
/// before it, loses the blanks around it, and ends in a call that verifies all its lines.
pub proof fn law_source_is_annotated(
    r: Annotated,
    source: Seq<char>,
    wrapped: RCode,
    uri: Seq<char>,
    bps: Seq<Breakpoint>,
)
    requires
        is_annotated_source(r, source, wrapped, uri, bps),
        line_count(source) <= u32::MAX,
    ensures
        ({
            let out = code_annotated(
                Marks { bps: by_line(bps), consumed: Set::empty() },
                wrapped,
                Origin { uri, offset: -1 },
            );
            &&& r.breakpoints matches Some(left) && left@ == out.0.bps
            &&& out.2 is None ==> (r.code matches Ok(t) && t@ == text::trimmed(out.1)
                + "\nbase::.ark_auto_step(base::.ark_verify_breakpoints_range(\""@ + uri
                + "\", 1L, "@ + text::decimal_int(line_count(source) + 1) + "L))\n"@)
            &&& out.2 matches Some(e) ==> r.code == Err::<String, AnnotateError>(e)
        }),
{
    let out = code_annotated(
        Marks { bps: by_line(bps), consumed: Set::empty() },
        wrapped,
        Origin { uri, offset: -1 },
    );
    if out.2 is None {
        lemma_line_count(source);
        reveal_strlit("\nbase::.ark_auto_step(base::.ark_verify_breakpoints_range(\"");
        reveal_strlit("base::.ark_auto_step(base::.ark_verify_breakpoints_range(\"");
        reveal_strlit("\n");
        reveal_strlit("\", 1L, ");
        reveal_strlit("\", ");
        reveal_strlit("L, ");
        reveal_strlit("L))");
        reveal_strlit("L))\n");
        assert(text::decimal_int(1) =~= seq!['1']);
        assert("\nbase::.ark_auto_step(base::.ark_verify_breakpoints_range(\""@ =~= "\n"@
            + "base::.ark_auto_step(base::.ark_verify_breakpoints_range(\""@);
        assert("\", 1L, "@ =~= "\", "@ + seq!['1'] + "L, "@);
        assert("L))\n"@ =~= "L))"@ + "\n"@);
        assert(r.code->Ok_0@ =~= text::trimmed(out.1)
            + "\nbase::.ark_auto_step(base::.ark_verify_breakpoints_range(\""@ + uri
            + "\", 1L, "@ + text::decimal_int(line_count(source) + 1) + "L))\n"@);
    }
}

proof fn lemma_line_count(s: Seq<char>)
    ensures
        line_count(s) >= 0,
    decreases s.len(),
{
    if s.len() > 0 {
        lemma_line_count(s.drop_last());
        law_count_of_lines(s.drop_last(), s.last());
        assert(s.drop_last().push(s.last()) =~= s);
    } else {
        law_count_of_lines(s, 'a');
        assert(s =~= Seq::empty());
    }
}

} // verus!
