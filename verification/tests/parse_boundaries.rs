use ark::analysis::input_boundaries::input_boundaries;
use ark::analysis::parse_boundaries::parse_boundaries;
use ark::analysis::sections::ParseResult;
use ark::coordinates::line_range::LineRange;

/// What a parser of R says of some lines, for expressions made of names, calls and sums.
#[derive(Clone, Copy, PartialEq)]
enum Token {
    Name,
    Plus,
    Open,
    Shut,
    Semicolon,
    Newline,
}

enum Stop {
    EndOfInput,
    Unexpected(Token),
}

fn tokens(lines: &[String]) -> Vec<(Token, u32)> {
    let mut out = Vec::new();
    for (i, line) in lines.iter().enumerate() {
        let mut in_name = false;
        for c in line.chars() {
            if c == '#' {
                break;
            }
            if c.is_alphanumeric() {
                if !in_name {
                    out.push((Token::Name, i as u32));
                }
                in_name = true;
                continue;
            }
            in_name = false;
            match c {
                '+' => out.push((Token::Plus, i as u32)),
                '(' => out.push((Token::Open, i as u32)),
                ')' => out.push((Token::Shut, i as u32)),
                ';' => out.push((Token::Semicolon, i as u32)),
                _ => {}
            }
        }
        out.push((Token::Newline, i as u32));
    }
    out
}

fn skip_newlines(t: &[(Token, u32)], mut at: usize) -> usize {
    while at < t.len() && t[at].0 == Token::Newline {
        at += 1;
    }
    at
}

fn expression(t: &[(Token, u32)], at: usize, nested: bool) -> Result<(usize, u32), Stop> {
    let mut at = at;
    loop {
        at = skip_newlines(t, at);
        if at >= t.len() {
            return Err(Stop::EndOfInput);
        }
        if t[at].0 != Token::Name {
            return Err(Stop::Unexpected(t[at].0));
        }
        let mut end = t[at].1;
        at += 1;
        if at < t.len() && t[at].0 == Token::Open {
            at = skip_newlines(t, at + 1);
            if at >= t.len() {
                return Err(Stop::EndOfInput);
            }
            if t[at].0 != Token::Shut {
                let (next, _) = expression(t, at, true)?;
                at = skip_newlines(t, next);
            }
            if at >= t.len() {
                return Err(Stop::EndOfInput);
            }
            if t[at].0 != Token::Shut {
                return Err(Stop::Unexpected(t[at].0));
            }
            end = t[at].1;
            at += 1;
        }
        let next = if nested { skip_newlines(t, at) } else { at };
        if next < t.len() && t[next].0 == Token::Plus {
            at = next + 1;
            continue;
        }
        return Ok((at, end));
    }
}

fn unexpected(token: Token) -> ParseResult {
    let what = match token {
        Token::Name => "symbol",
        Token::Plus => "'+'",
        Token::Open => "'('",
        Token::Shut => "')'",
        Token::Semicolon => "';'",
        Token::Newline => "end of line",
    };
    ParseResult::SyntaxError { message: format!("unexpected {what}") }
}

fn parse(lines: Vec<String>) -> Result<ParseResult, String> {
    let t = tokens(&lines);
    let mut at = 0;
    let mut ranges = Vec::new();
    loop {
        while at < t.len() && (t[at].0 == Token::Newline || t[at].0 == Token::Semicolon) {
            at += 1;
        }
        if at >= t.len() {
            return Ok(ParseResult::Complete(ranges));
        }
        let start = t[at].1;
        match expression(&t, at, false) {
            Ok((next, end)) => {
                ranges.push(LineRange::new(start, end + 1));
                at = next;
                if at < t.len() && t[at].0 != Token::Newline && t[at].0 != Token::Semicolon {
                    return Ok(unexpected(t[at].0));
                }
            }
            Err(Stop::EndOfInput) => return Ok(ParseResult::Incomplete),
            Err(Stop::Unexpected(token)) => return Ok(unexpected(token)),
        }
    }
}

#[test]
fn test_parse_boundaries_complete() {
    let boundaries = parse_boundaries("foo", &parse).unwrap();
    assert_eq!(boundaries.complete, vec![LineRange::new(0, 1),]);
    assert!(matches!(boundaries.incomplete, None));
    assert!(matches!(boundaries.error, None));

    let boundaries = parse_boundaries("foo\nbarbaz  ", &parse).unwrap();
    assert_eq!(boundaries.complete, vec![LineRange::new(0, 1), LineRange::new(1, 2)]);
    assert!(matches!(boundaries.incomplete, None));
    assert!(matches!(boundaries.error, None));
}

#[test]
fn test_parse_boundaries_whitespace() {
    let boundaries = parse_boundaries("", &parse).unwrap();
    assert_eq!(boundaries.complete, vec![LineRange::new(0, 1),]);
    assert!(matches!(boundaries.incomplete, None));
    assert!(matches!(boundaries.error, None));

    let boundaries = parse_boundaries("\n\n  \n", &parse).unwrap();
    assert_eq!(boundaries.complete, vec![
        LineRange::new(0, 1),
        LineRange::new(1, 2),
        LineRange::new(2, 3),
        LineRange::new(3, 4),
    ]);
    assert!(matches!(boundaries.incomplete, None));
    assert!(matches!(boundaries.error, None));

    let boundaries = parse_boundaries("\n  foo\n  \n\n", &parse).unwrap();
    assert_eq!(boundaries.complete, vec![
        LineRange::new(0, 1),
        LineRange::new(1, 2),
        LineRange::new(2, 3),
        LineRange::new(3, 4),
        LineRange::new(4, 5),
    ]);
    assert!(matches!(boundaries.incomplete, None));
    assert!(matches!(boundaries.error, None));
}

#[test]
fn test_parse_boundaries_complete_semicolon() {
    // These should only produce a single complete input range

    let boundaries = parse_boundaries("foo;bar", &parse).unwrap();
    let expected_complete = vec![LineRange::new(0, 1)];
    assert_eq!(boundaries.complete, expected_complete);
    assert!(matches!(boundaries.incomplete, None));
    assert!(matches!(boundaries.error, None));

    let boundaries = parse_boundaries("foo;bar(\n)", &parse).unwrap();
    let expected_complete = vec![LineRange::new(0, 2)];
    assert_eq!(boundaries.complete, expected_complete);
    assert!(matches!(boundaries.incomplete, None));
    assert!(matches!(boundaries.error, None));

    let boundaries = parse_boundaries("foo(\n);bar", &parse).unwrap();
    let expected_complete = vec![LineRange::new(0, 2)];
    assert_eq!(boundaries.complete, expected_complete);
    assert!(matches!(boundaries.incomplete, None));
    assert!(matches!(boundaries.error, None));
}

#[test]
fn test_parse_boundaries_incomplete() {
    let boundaries = parse_boundaries("foo +", &parse).unwrap();
    assert_eq!(boundaries.complete.len(), 0);
    assert_eq!(boundaries.incomplete, Some(LineRange::new(0, 1)));
    assert!(matches!(boundaries.error, None));

    let boundaries = parse_boundaries("\n\n  foo + \n  \n  ", &parse).unwrap();
    assert_eq!(boundaries.complete, vec![LineRange::new(0, 1), LineRange::new(1, 2),]);
    assert_eq!(boundaries.incomplete, Some(LineRange::new(2, 5)));
    assert!(matches!(boundaries.error, None));

    let boundaries = parse_boundaries("foo\nbar; foo +", &parse).unwrap();
    assert_eq!(boundaries.complete, vec![LineRange::new(0, 1)]);
    assert_eq!(boundaries.incomplete, Some(LineRange::new(1, 2)));
    assert!(matches!(boundaries.error, None));
}

#[test]
fn test_parse_boundaries_error() {
    let boundaries = parse_boundaries("foo )", &parse).unwrap();
    assert_eq!(boundaries.complete.len(), 0);
    assert!(matches!(boundaries.incomplete, None));
    assert_eq!(boundaries.error, Some(LineRange::new(0, 1)));

    let boundaries = parse_boundaries("foo\nbar )\n  ", &parse).unwrap();
    assert_eq!(boundaries.complete, vec![LineRange::new(0, 1)]);
    assert!(matches!(boundaries.incomplete, None));
    assert_eq!(boundaries.error, Some(LineRange::new(1, 3)));

    let boundaries = parse_boundaries("foo\nbar +\nbaz )", &parse).unwrap();
    assert_eq!(boundaries.complete, vec![LineRange::new(0, 1)]);
    assert_eq!(boundaries.incomplete, Some(LineRange::new(1, 2)));
    assert_eq!(boundaries.error, Some(LineRange::new(2, 3)));

    let boundaries = parse_boundaries("foo +\n  bar +;", &parse).unwrap();
    assert_eq!(boundaries.complete.len(), 0);
    assert_eq!(boundaries.incomplete, Some(LineRange::new(0, 1)));
    assert_eq!(boundaries.error, Some(LineRange::new(1, 2)));
}

#[test]
fn parse_and_input_boundaries_agree() {
    for code in ["", "foo\n\nbar", "foo\nbar +", "foo\n)\nbar", "foo\nbar +\n)"] {
        let parsed = parse_boundaries(code, &parse).unwrap();
        let mut ranges = parsed.complete;
        ranges.extend(parsed.incomplete);
        ranges.extend(parsed.error);
        let inputs = input_boundaries(code, &parse).unwrap();
        assert_eq!(inputs.iter().map(|b| b.range).collect::<Vec<_>>(), ranges);
    }
}
