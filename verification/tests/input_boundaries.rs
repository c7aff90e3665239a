use ark::analysis::input_boundaries::{input_boundaries, InputBoundary, InputBoundaryKind};
use ark::analysis::sections::{BoundariesError, ParseResult};
use ark::coordinates::line_range::LineRange;

/// What a parser of R says of some lines, for expressions made of names, calls and sums.
#[derive(Clone, Copy, PartialEq)]
enum Token {
    Name,
    Plus,
    Open,
    Shut,
    Semicolon,
    Newline,
}

enum Stop {
    EndOfInput,
    Unexpected(Token),
}

fn tokens(lines: &[String]) -> Vec<(Token, u32)> {
    let mut out = Vec::new();
    for (i, line) in lines.iter().enumerate() {
        let mut in_name = false;
        for c in line.chars() {
            if c == '#' {
                break;
            }
            if c.is_alphanumeric() {
                if !in_name {
                    out.push((Token::Name, i as u32));
                }
                in_name = true;
                continue;
            }
            in_name = false;
            match c {
                '+' => out.push((Token::Plus, i as u32)),
                '(' => out.push((Token::Open, i as u32)),
                ')' => out.push((Token::Shut, i as u32)),
                ';' => out.push((Token::Semicolon, i as u32)),
                _ => {}
            }
        }
        out.push((Token::Newline, i as u32));
    }
    out
}

fn skip_newlines(t: &[(Token, u32)], mut at: usize) -> usize {
    while at < t.len() && t[at].0 == Token::Newline {
        at += 1;
    }
    at
}

fn expression(t: &[(Token, u32)], at: usize, nested: bool) -> Result<(usize, u32), Stop> {
    let mut at = at;
    loop {
        at = skip_newlines(t, at);
        if at >= t.len() {
            return Err(Stop::EndOfInput);
        }
        if t[at].0 != Token::Name {
            return Err(Stop::Unexpected(t[at].0));
        }
        let mut end = t[at].1;
        at += 1;
        if at < t.len() && t[at].0 == Token::Open {
            at = skip_newlines(t, at + 1);
            if at >= t.len() {
                return Err(Stop::EndOfInput);
            }
            if t[at].0 != Token::Shut {
                let (next, _) = expression(t, at, true)?;
                at = skip_newlines(t, next);
            }
            if at >= t.len() {
                return Err(Stop::EndOfInput);
            }
            if t[at].0 != Token::Shut {
                return Err(Stop::Unexpected(t[at].0));
            }
            end = t[at].1;
            at += 1;
        }
        let next = if nested { skip_newlines(t, at) } else { at };
        if next < t.len() && t[next].0 == Token::Plus {
            at = next + 1;
            continue;
        }
        return Ok((at, end));
    }
}

fn unexpected(token: Token) -> ParseResult {
    let what = match token {
        Token::Name => "symbol",
        Token::Plus => "'+'",
        Token::Open => "'('",
        Token::Shut => "')'",
        Token::Semicolon => "';'",
        Token::Newline => "end of line",
    };
    ParseResult::SyntaxError { message: format!("unexpected {what}") }
}

fn parse(lines: Vec<String>) -> Result<ParseResult, String> {
    let t = tokens(&lines);
    let mut at = 0;
    let mut ranges = Vec::new();
    loop {
        while at < t.len() && (t[at].0 == Token::Newline || t[at].0 == Token::Semicolon) {
            at += 1;
        }
        if at >= t.len() {
            return Ok(ParseResult::Complete(ranges));
        }
        let start = t[at].1;
        match expression(&t, at, false) {
            Ok((next, end)) => {
                ranges.push(LineRange::new(start, end + 1));
                at = next;
                if at < t.len() && t[at].0 != Token::Newline && t[at].0 != Token::Semicolon {
                    return Ok(unexpected(t[at].0));
                }
            }
            Err(Stop::EndOfInput) => return Ok(ParseResult::Incomplete),
            Err(Stop::Unexpected(token)) => return Ok(unexpected(token)),
        }
    }
}

fn p(text: &str) -> Vec<InputBoundary> {
    let mut boundaries = input_boundaries(text, &parse).unwrap();

    // Replace error messages so that they don't interfere with equality
    if let Some(last) = boundaries.last() {
        if let InputBoundaryKind::Invalid { .. } = &last.kind {
            let range = LineRange::new(last.range.start, last.range.end);
            boundaries.pop();
            boundaries.push(InputBoundary::invalid(range, String::from("placeholder")))
        }
    }

    boundaries
}

fn boundary(start: u32, end: u32, kind: InputBoundaryKind) -> InputBoundary {
    let range = LineRange::new(start, end);
    InputBoundary::new(range, kind)
}
fn whitespace(start: u32, end: u32) -> InputBoundary {
    boundary(start, end, InputBoundaryKind::Whitespace)
}
fn complete(start: u32, end: u32) -> InputBoundary {
    boundary(start, end, InputBoundaryKind::Complete)
}
fn incomplete(start: u32, end: u32) -> InputBoundary {
    boundary(start, end, InputBoundaryKind::Incomplete)
}
fn invalid(start: u32, end: u32) -> InputBoundary {
    boundary(start, end, InputBoundaryKind::Invalid {
        message: String::from("placeholder"),
    })
}

#[test]
fn test_input_boundaries_complete() {
    assert_eq!(p("foo"), vec![complete(0, 1),]);
    assert_eq!(p("foo\nbarbaz  "), vec![complete(0, 1), complete(1, 2)]);
}

#[test]
fn test_input_boundaries_whitespace() {
    assert_eq!(p(""), vec![whitespace(0, 1),]);

    assert_eq!(p("\n\n  \n"), vec![
        whitespace(0, 1),
        whitespace(1, 2),
        whitespace(2, 3),
        whitespace(3, 4),
    ]);

    assert_eq!(p("\n  foo\n  \n\n"), vec![
        whitespace(0, 1),
        complete(1, 2),
        whitespace(2, 3),
        whitespace(3, 4),
        whitespace(4, 5),
    ]);
}

#[test]
fn test_input_boundaries_complete_semicolon() {
    // These should only produce a single complete input range
    assert_eq!(p("foo;bar"), vec![complete(0, 1)]);
    assert_eq!(p("foo;bar(\n)"), vec![complete(0, 2)]);
    assert_eq!(p("foo(\n);bar"), vec![complete(0, 2)]);
}

#[test]
fn test_input_boundaries_incomplete() {
    assert_eq!(p("foo +"), vec![incomplete(0, 1),]);

    assert_eq!(p("\n\n  foo + \n  \n  "), vec![
        whitespace(0, 1),
        whitespace(1, 2),
        incomplete(2, 5),
    ]);

    assert_eq!(p("foo\nbar; foo +"), vec![complete(0, 1), incomplete(1, 2),]);

    assert_eq!(p("#\n# foo\n  # bar \nbaz +  \n # qux"), vec![
        whitespace(0, 1),
        whitespace(1, 2),
        whitespace(2, 3),
        incomplete(3, 5),
    ]);
}

#[test]
fn test_input_boundaries_invalid() {
    assert_eq!(p("foo )"), vec![invalid(0, 1),]);

    assert_eq!(p("foo\nbar )\n  "), vec![complete(0, 1), invalid(1, 3),]);

    assert_eq!(p("foo\nbar +\nbaz )"), vec![
        complete(0, 1),
        incomplete(1, 2),
        invalid(2, 3),
    ]);

    assert_eq!(p("foo +\n  bar +;"), vec![incomplete(0, 1), invalid(1, 2),]);
}

#[test]
fn test_input_boundaries_invalid_message() {
    let boundaries = input_boundaries("foo )", &parse).unwrap();
    assert_eq!(boundaries, vec![InputBoundary::invalid(
        LineRange::new(0, 1),
        String::from("unexpected ')'")
    ),]);
}

#[test]
fn boundaries_cover_all_lines_in_order() {
    for code in ["", "foo", "foo\n\nbar(\n)\n#\nbaz +", "foo\nbar +\nbaz )", "\n\n"] {
        let mut line = 0;
        for b in p(code) {
            assert_eq!(b.range.start, line);
            assert!(b.range.end > line);
            line = b.range.end;
        }
        assert_eq!(line as usize, code.split('\n').count());
    }
}

#[test]
fn failing_parser_is_reported() {
    let failing = |_: Vec<String>| -> Result<ParseResult, String> { Err("no R".to_string()) };
    assert!(matches!(
        input_boundaries("foo", &failing),
        Err(BoundariesError::Parser(m)) if m == "no R"
    ));
}
