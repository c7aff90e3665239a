use ark::console::annotate::{
    annotate_input, annotate_source, wrap_source, Annotated, Braced, Expr, Piece, RCode,
    TriviaKind, TriviaPiece,
};
use ark::dap::breakpoints::{Breakpoint, BreakpointState};
use ark::dap::dap_notebook::{CodeLocation, Position};

/// Reads R code as far as annotation looks at it: expressions, braces and lines.
struct Reader {
    chars: Vec<char>,
    at: usize,
    line: u32,
}

impl Reader {
    fn peek(&self) -> Option<char> {
        self.chars.get(self.at).copied()
    }

    fn take(&mut self) -> char {
        let c = self.chars[self.at];
        self.at += 1;
        if c == '\n' {
            self.line += 1;
        }
        c
    }

    fn trivia(&mut self) -> Vec<TriviaPiece> {
        let mut pieces = Vec::new();
        while let Some(c) = self.peek() {
            let mut text = String::new();
            let kind = if c == '\n' {
                text.push(self.take());
                TriviaKind::Newline
            } else if c == ' ' {
                while self.peek() == Some(' ') {
                    text.push(self.take());
                }
                TriviaKind::Whitespace
            } else if c == '#' {
                while self.peek().is_some() && self.peek() != Some('\n') {
                    text.push(self.take());
                }
                TriviaKind::Comment
            } else {
                return pieces;
            };
            pieces.push(TriviaPiece { kind, text });
        }
        pieces
    }

    fn rest_is_else(&self) -> bool {
        let rest: String = self.chars[self.at..].iter().collect();
        rest.starts_with(" else")
    }

    fn expression(&mut self, leading: Vec<TriviaPiece>) -> Expr {
        let start = self.line;
        let mut end = self.line;
        let mut body = Vec::new();
        let mut text = String::new();
        let mut depth = 0;
        let mut last = ' ';
        while let Some(c) = self.peek() {
            if c == '{' {
                if !text.is_empty() {
                    body.push(Piece::Text(std::mem::take(&mut text)));
                }
                body.push(Piece::Braces(self.braced()));
                end = self.line;
                last = '}';
                if depth == 0 && !self.rest_is_else() {
                    break;
                }
                continue;
            }
            if depth == 0 && (c == '}' || (c == '\n' && !"+-*/=".contains(last))) {
                break;
            }
            match c {
                '(' => depth += 1,
                ')' => depth -= 1,
                _ => {}
            }
            if c != ' ' && c != '\n' {
                last = c;
                end = self.line;
            }
            text.push(self.take());
        }
        if !text.is_empty() {
            body.push(Piece::Text(text));
        }
        Expr { leading, body, start, end: end + 1 }
    }

    fn list(&mut self) -> (Vec<Expr>, String) {
        let mut exprs = Vec::new();
        loop {
            let leading = self.trivia();
            if self.peek().is_none() || self.peek() == Some('}') {
                let rest = leading.iter().map(|p| p.text.as_str()).collect();
                return (exprs, rest);
            }
            exprs.push(self.expression(leading));
        }
    }

    fn braced(&mut self) -> Braced {
        let line = self.line;
        let open = self.take().to_string();
        let (exprs, mut close) = self.list();
        close.push(self.take());
        Braced { open, line, exprs, close }
    }
}

fn read(code: &str) -> RCode {
    let mut reader = Reader { chars: code.chars().collect(), at: 0, line: 0 };
    let (exprs, tail) = reader.list();
    RCode { exprs, tail }
}

fn make_location(line: u32, character: u32) -> CodeLocation {
    CodeLocation {
        uri: "file:///test.R".to_string(),
        start: Position { line, character },
        end: Position { line, character },
    }
}

fn input(
    code: &str,
    location: &CodeLocation,
    breakpoints: Option<&mut Vec<Breakpoint>>,
) -> String {
    let tree = read(code);
    match breakpoints {
        None => annotate_input(code, &tree, location, None).code.unwrap(),
        Some(breakpoints) => {
            let given = Some(std::mem::take(breakpoints));
            let Annotated { code, breakpoints: left } =
                annotate_input(code, &tree, location, given);
            *breakpoints = left.unwrap();
            code.unwrap()
        }
    }
}

fn source(code: &str, uri: &str, breakpoints: &mut Vec<Breakpoint>) -> String {
    let tree = read(&wrap_source(code));
    let Annotated { code, breakpoints: left } =
        annotate_source(code, &tree, uri, std::mem::take(breakpoints));
    *breakpoints = left.unwrap();
    code.unwrap()
}

/// The code without the lines that were injected.
fn without_injected(annotated: &str) -> String {
    let kept: Vec<&str> = annotated
        .split('\n')
        .filter(|line| !line.starts_with("base::.ark_auto_step(") && !line.starts_with("#line "))
        .collect();
    lines_of(&kept.join("\n"))
}

/// The lines that are not blank.
fn lines_of(code: &str) -> String {
    let kept: Vec<&str> = code.split('\n').filter(|line| !line.is_empty()).collect();
    kept.join("\n")
}

#[test]
fn test_annotate_input_basic() {
    let code = "x <- 1\ny <- 2";
    let location = make_location(0, 0);
    let result = input(code, &location, None);
    assert_eq!(result, "#line 1 \"file:///test.R\"\nx <- 1\ny <- 2");
}

#[test]
fn test_annotate_input_shifted_line() {
    let code = "x <- 1\ny <- 2";
    let location = make_location(10, 0);
    let result = input(code, &location, None);
    assert_eq!(result, "#line 11 \"file:///test.R\"\nx <- 1\ny <- 2");
}

#[test]
fn test_annotate_input_shifted_character() {
    let code = "x <- 1\ny <- 2";
    let location = make_location(0, 5);
    let result = input(code, &location, None);
    assert_eq!(result, "#line 1 \"file:///test.R\"\n     x <- 1\ny <- 2");
}

#[test]
fn test_annotate_input_shifted_line_and_character() {
    let code = "x <- 1\ny <- 2";
    let location = make_location(10, 5);
    let result = input(code, &location, None);
    assert_eq!(result, "#line 11 \"file:///test.R\"\n     x <- 1\ny <- 2");
}

#[test]
fn test_annotate_input_with_existing_whitespace() {
    let code = "  x <- 1\n  y <- 2";
    let location = make_location(0, 0);
    let result = input(code, &location, None);
    assert_eq!(result, "#line 1 \"file:///test.R\"\n  x <- 1\n  y <- 2");
}

#[test]
fn test_annotate_input_with_existing_whitespace_shifted() {
    let code = "  x <- 1\n  y <- 2";
    let location = make_location(0, 2);
    let result = input(code, &location, None);
    assert_eq!(result, "#line 1 \"file:///test.R\"\n    x <- 1\n  y <- 2");
}

#[test]
fn test_annotate_input_with_existing_comment() {
    let code = "# comment\nx <- 1";
    let location = make_location(0, 0);
    let result = input(code, &location, None);
    assert_eq!(result, "#line 1 \"file:///test.R\"\n# comment\nx <- 1");
}

#[test]
fn test_annotate_input_empty_code() {
    let code = "";
    let location = make_location(0, 0);
    let result = input(code, &location, None);
    assert_eq!(result, "#line 1 \"file:///test.R\"\n");
}

#[test]
fn test_annotate_input_with_breakpoint() {
    // Test the full annotate_input path with breakpoints.
    // Wrap in braces so breakpoints are valid.
    let code = "{\n0\n1\n2\n}";
    let location = CodeLocation {
        uri: "file:///test.R".to_string(),
        start: Position {
            line: 3,
            character: 0,
        },
        end: Position {
            line: 7,
            character: 1,
        },
    };
    // Breakpoint at document line 5 (code line 2, i.e., `1`)
    let mut breakpoints = vec![Breakpoint::new(1, 5, BreakpointState::Unverified)];

    let result = input(code, &location, Some(&mut breakpoints));
    assert_eq!(without_injected(&result), lines_of(code));
    assert_eq!(result, "#line 4 \"file:///test.R\"\n{\n0\nbase::.ark_auto_step(base::.ark_breakpoint(browser(), \"file:///test.R\", \"1\"))\n#line 6 \"file:///test.R\"\n1\nbase::.ark_auto_step(base::.ark_verify_breakpoints_range(\"file:///test.R\", 6L, 7L))\n#line 7 \"file:///test.R\"\n2\n}");

    // Breakpoint line should remain in document coordinates
    assert_eq!(breakpoints[0].line, 5);
    assert!(!matches!(breakpoints[0].state, BreakpointState::Invalid(_)));
}

#[test]
fn test_inject_breakpoints_single_line() {
    // Wrap in braces so breakpoints are valid (inside a brace list)
    let code = "{\nx <- 1\ny <- 2\nz <- 3\n}";
    let location = CodeLocation {
        uri: "file:///test.R".to_string(),
        start: Position {
            line: 0,
            character: 0,
        },
        end: Position {
            line: 4,
            character: 1,
        },
    };
    let mut breakpoints = vec![Breakpoint::new(1, 2, BreakpointState::Unverified)];

    let result = input(code, &location, Some(&mut breakpoints));
    assert_eq!(without_injected(&result), lines_of(code));
    assert_eq!(result, "#line 1 \"file:///test.R\"\n{\nx <- 1\nbase::.ark_auto_step(base::.ark_breakpoint(browser(), \"file:///test.R\", \"1\"))\n#line 3 \"file:///test.R\"\ny <- 2\nbase::.ark_auto_step(base::.ark_verify_breakpoints_range(\"file:///test.R\", 3L, 4L))\n#line 4 \"file:///test.R\"\nz <- 3\n}");
    assert!(!matches!(breakpoints[0].state, BreakpointState::Invalid(_)));
}

#[test]
fn test_inject_breakpoints_multiple() {
    // Wrap in braces so breakpoints are valid (inside a brace list)
    let code = "{\nx <- 1\ny <- 2\nz <- 3\nw <- 4\n}";
    let location = CodeLocation {
        uri: "file:///test.R".to_string(),
        start: Position {
            line: 0,
            character: 0,
        },
        end: Position {
            line: 5,
            character: 1,
        },
    };
    let mut breakpoints = vec![
        Breakpoint::new(1, 2, BreakpointState::Unverified),
        Breakpoint::new(2, 4, BreakpointState::Unverified),
    ];

    let result = input(code, &location, Some(&mut breakpoints));
    assert_eq!(without_injected(&result), lines_of(code));
    assert_eq!(result, "#line 1 \"file:///test.R\"\n{\nx <- 1\nbase::.ark_auto_step(base::.ark_breakpoint(browser(), \"file:///test.R\", \"1\"))\n#line 3 \"file:///test.R\"\ny <- 2\nbase::.ark_auto_step(base::.ark_verify_breakpoints_range(\"file:///test.R\", 3L, 4L))\n#line 4 \"file:///test.R\"\nz <- 3\nbase::.ark_auto_step(base::.ark_breakpoint(browser(), \"file:///test.R\", \"2\"))\n#line 5 \"file:///test.R\"\nw <- 4\n}");
    assert!(!matches!(breakpoints[0].state, BreakpointState::Invalid(_)));
    assert!(!matches!(breakpoints[1].state, BreakpointState::Invalid(_)));
}

#[test]
fn test_inject_breakpoints_in_brace_list() {
    let code = "f <- function() {\n  x <- 1\n  y <- 2\n}";
    let location = CodeLocation {
        uri: "file:///test.R".to_string(),
        start: Position {
            line: 0,
            character: 0,
        },
        end: Position {
            line: 3,
            character: 1,
        },
    };
    let mut breakpoints = vec![Breakpoint::new(1, 2, BreakpointState::Unverified)];

    let result = input(code, &location, Some(&mut breakpoints));
    assert_eq!(without_injected(&result), lines_of(code));
    assert_eq!(result, "#line 1 \"file:///test.R\"\nf <- function() {\n  x <- 1\nbase::.ark_auto_step(base::.ark_breakpoint(browser(), \"file:///test.R\", \"1\"))\n#line 3 \"file:///test.R\"\n  y <- 2\n}");
    assert!(!matches!(breakpoints[0].state, BreakpointState::Verified));
}

#[test]
fn test_inject_breakpoints_out_of_range() {
    let code = "x <- 1\ny <- 2";
    let location = CodeLocation {
        uri: "file:///test.R".to_string(),
        start: Position {
            line: 0,
            character: 0,
        },
        end: Position {
            line: 1,
            character: 6,
        },
    };
    let mut breakpoints = vec![Breakpoint::new(1, 10, BreakpointState::Unverified)];

    let result = input(code, &location, Some(&mut breakpoints));
    // annotate_input always adds #line directive for srcref mapping
    let expected = format!("#line 1 \"file:///test.R\"\n{code}");
    assert_eq!(result, expected);
    assert!(!matches!(breakpoints[0].state, BreakpointState::Verified));
}

#[test]
fn test_inject_breakpoints_multiple_lists() {
    // This test has breakpoints in different parent lists:
    // - One in the outer brace list
    // - One in a nested brace list (inside function)
    // Wrap in braces so both breakpoints are valid
    let code = "{\nx <- 1\nf <- function() {\n  y <- 2\n  z <- 3\n}\nw <- 4\n}";
    let location = CodeLocation {
        uri: "file:///test.R".to_string(),
        start: Position {
            line: 0,
            character: 0,
        },
        end: Position {
            line: 7,
            character: 1,
        },
    };
    let mut breakpoints = vec![
        Breakpoint::new(1, 3, BreakpointState::Unverified),
        Breakpoint::new(2, 6, BreakpointState::Unverified),
    ];

    let result = input(code, &location, Some(&mut breakpoints));
    assert_eq!(without_injected(&result), lines_of(code));
    assert_eq!(result, "#line 1 \"file:///test.R\"\n{\nx <- 1\nf <- function() {\nbase::.ark_auto_step(base::.ark_breakpoint(browser(), \"file:///test.R\", \"1\"))\n#line 4 \"file:///test.R\"\n  y <- 2\nbase::.ark_auto_step(base::.ark_verify_breakpoints_range(\"file:///test.R\", 4L, 5L))\n#line 5 \"file:///test.R\"\n  z <- 3\n}\nbase::.ark_auto_step(base::.ark_verify_breakpoints_range(\"file:///test.R\", 3L, 7L))\n\nbase::.ark_auto_step(base::.ark_breakpoint(browser(), \"file:///test.R\", \"2\"))\n#line 7 \"file:///test.R\"\nw <- 4\n}");
    // Both breakpoints are valid (inside brace lists)
    assert!(!matches!(breakpoints[0].state, BreakpointState::Invalid(_)));
    assert!(!matches!(breakpoints[1].state, BreakpointState::Invalid(_)));
}

#[test]
fn test_inject_breakpoints_inside_multiline_expr_anchors_to_start() {
    // A breakpoint on an intermediate line of a multiline expression should
    // anchor to the start of that expression.
    // Lines:
    //   0: {
    //   1:   x +
    //   2:     y
    //   3:   z
    //   4: }
    let code = "{\n  x +\n    y\n  z\n}";
    let location = CodeLocation {
        uri: "file:///test.R".to_string(),
        start: Position {
            line: 0,
            character: 0,
        },
        end: Position {
            line: 4,
            character: 1,
        },
    };
    let mut breakpoints = vec![Breakpoint::new(1, 2, BreakpointState::Unverified)];

    let result = input(code, &location, Some(&mut breakpoints));
    assert_eq!(without_injected(&result), lines_of(code));
    assert_eq!(result, "#line 1 \"file:///test.R\"\n{\nbase::.ark_auto_step(base::.ark_breakpoint(browser(), \"file:///test.R\", \"1\"))\n#line 2 \"file:///test.R\"\n  x +\n    y\nbase::.ark_auto_step(base::.ark_verify_breakpoints_range(\"file:///test.R\", 2L, 4L))\n#line 4 \"file:///test.R\"\n  z\n}");
    // Breakpoint inside multiline expression should anchor to expression start
    assert!(!matches!(breakpoints[0].state, BreakpointState::Invalid(_)));
    assert_eq!(breakpoints[0].line, 1); // Anchored to line 1 (x +)
}

#[test]
fn test_inject_breakpoints_on_blank_line_anchors_to_next() {
    // A breakpoint on a blank line between expressions should anchor to
    // the next expression.
    // Lines:
    //   0: {
    //   1:   x <- 1
    //   2:   (blank)
    //   3:   y <- 2
    //   4: }
    let code = "{\n  x <- 1\n\n  y <- 2\n}";
    let location = CodeLocation {
        uri: "file:///test.R".to_string(),
        start: Position {
            line: 0,
            character: 0,
        },
        end: Position {
            line: 4,
            character: 1,
        },
    };
    let mut breakpoints = vec![Breakpoint::new(1, 2, BreakpointState::Unverified)];

    let result = input(code, &location, Some(&mut breakpoints));
    assert_eq!(without_injected(&result), lines_of(code));
    assert_eq!(result, "#line 1 \"file:///test.R\"\n{\n  x <- 1\nbase::.ark_auto_step(base::.ark_breakpoint(browser(), \"file:///test.R\", \"1\"))\n\n#line 4 \"file:///test.R\"\n  y <- 2\n}");
    // Breakpoint on blank line should anchor to next expression (valid)
    assert!(!matches!(breakpoints[0].state, BreakpointState::Invalid(_)));
    // Line should be updated to the actual anchor position (line 3)
    assert_eq!(breakpoints[0].line, 3);
}

#[test]
fn test_multiple_breakpoints_collapse_to_same_line() {
    // Multiple breakpoints matching the same expression should all anchor
    // to the expression start, but only one breakpoint call is injected.
    // Lines:
    //   0: {
    //   1:   (blank)
    //   2:   foo(
    //   3:     1
    //   4:   )
    //   5: }
    let code = "{\n\n  foo(\n    1\n  )\n}";
    let location = CodeLocation {
        uri: "file:///test.R".to_string(),
        start: Position {
            line: 0,
            character: 0,
        },
        end: Position {
            line: 5,
            character: 1,
        },
    };
    // Three breakpoints: blank line, expression start, and inside expression
    let mut breakpoints = vec![
        Breakpoint::new(1, 1, BreakpointState::Unverified),
        Breakpoint::new(2, 2, BreakpointState::Unverified),
        Breakpoint::new(3, 3, BreakpointState::Unverified),
    ];

    let result = input(code, &location, Some(&mut breakpoints));
    assert_eq!(without_injected(&result), lines_of(code));
    assert_eq!(result, "#line 1 \"file:///test.R\"\n{\nbase::.ark_auto_step(base::.ark_breakpoint(browser(), \"file:///test.R\", \"1\"))\n\n#line 3 \"file:///test.R\"\n  foo(\n    1\n  )\n}");

    // All breakpoints should be valid and anchored to line 2 (expression start)
    for bp in &breakpoints {
        assert!(
            !matches!(bp.state, BreakpointState::Invalid(_)),
            "Breakpoint {} should be valid",
            bp.id
        );
        assert_eq!(bp.line, 2, "Breakpoint {} should anchor to line 2", bp.id);
    }

    // Only one breakpoint call should be injected (count occurrences)
    let bp_call_count = result.matches(".ark_breakpoint").count();
    assert_eq!(
        bp_call_count, 1,
        "Only one breakpoint call should be injected"
    );
}

#[test]
fn test_inject_breakpoints_with_blank_line() {
    // Test that blank lines before an anchor are preserved
    // Wrap in braces so breakpoints are valid
    let code = "{\nx <- 1\n\n\ny <- 2\n}";
    let location = CodeLocation {
        uri: "file:///test.R".to_string(),
        start: Position {
            line: 0,
            character: 0,
        },
        end: Position {
            line: 5,
            character: 1,
        },
    };
    let mut breakpoints = vec![Breakpoint::new(1, 4, BreakpointState::Unverified)];

    let result = input(code, &location, Some(&mut breakpoints));
    assert_eq!(without_injected(&result), lines_of(code));
    assert_eq!(result, "#line 1 \"file:///test.R\"\n{\nx <- 1\nbase::.ark_auto_step(base::.ark_breakpoint(browser(), \"file:///test.R\", \"1\"))\n\n\n#line 5 \"file:///test.R\"\ny <- 2\n}");
    assert!(!matches!(breakpoints[0].state, BreakpointState::Invalid(_)));
}

#[test]
fn test_inject_breakpoints_on_closing_brace() {
    // Breakpoint on a line with only `}` should be left unverified
    // (no executable code there)
    let code = "f <- function() {\n  x <- 1\n}\ny <- 2";
    let location = CodeLocation {
        uri: "file:///test.R".to_string(),
        start: Position {
            line: 0,
            character: 0,
        },
        end: Position {
            line: 3,
            character: 6,
        },
    };
    let mut breakpoints = vec![Breakpoint::new(1, 2, BreakpointState::Unverified)];

    let result = input(code, &location, Some(&mut breakpoints));
    // annotate_input always adds #line directive for srcref mapping
    let expected = format!("#line 1 \"file:///test.R\"\n{code}");
    assert_eq!(result, expected);
    // Marked as invalid
    assert!(matches!(breakpoints[0].state, BreakpointState::Invalid(_)));
}

#[test]
fn test_inject_breakpoints_on_closing_brace_with_valid_breakpoint() {
    // One breakpoint on `}` (invalid) and one on valid code in outer braces
    // Wrap in braces so the second breakpoint is valid
    let code = "{\nf <- function() {\n  x <- 1\n}\ny <- 2\n}";
    let location = CodeLocation {
        uri: "file:///test.R".to_string(),
        start: Position {
            line: 0,
            character: 0,
        },
        end: Position {
            line: 5,
            character: 1,
        },
    };
    let mut breakpoints = vec![
        Breakpoint::new(1, 3, BreakpointState::Unverified),
        Breakpoint::new(2, 4, BreakpointState::Unverified),
    ];

    let result = input(code, &location, Some(&mut breakpoints));
    assert_eq!(without_injected(&result), lines_of(code));
    assert_eq!(result, "#line 1 \"file:///test.R\"\n{\nf <- function() {\n  x <- 1\n}\nbase::.ark_auto_step(base::.ark_breakpoint(browser(), \"file:///test.R\", \"2\"))\n#line 5 \"file:///test.R\"\ny <- 2\n}");

    // First breakpoint is invalid (on closing brace)
    assert!(matches!(breakpoints[0].state, BreakpointState::Invalid(_)));
    // Second breakpoint is valid (in outer brace list)
    assert!(!matches!(breakpoints[1].state, BreakpointState::Invalid(_)));
}

#[test]
fn test_inject_breakpoints_before_within_after_nested() {
    // Comprehensive test with breakpoints:
    // - Before nested list (line 1: `x <- 1`) - in outer braces
    // - Within nested list (line 3: `y <- 2`) - inside function
    // - After nested list (line 6: `w <- 4`) - in outer braces
    // Wrap in braces so all breakpoints are valid
    let code = "{\nx <- 1\nf <- function() {\n  y <- 2\n  z <- 3\n}\nw <- 4\n}";
    let location = CodeLocation {
        uri: "file:///test.R".to_string(),
        start: Position {
            line: 0,
            character: 0,
        },
        end: Position {
            line: 7,
            character: 1,
        },
    };
    let mut breakpoints = vec![
        Breakpoint::new(1, 1, BreakpointState::Unverified),
        Breakpoint::new(2, 3, BreakpointState::Unverified),
        Breakpoint::new(3, 6, BreakpointState::Unverified),
    ];

    let result = input(code, &location, Some(&mut breakpoints));
    assert_eq!(without_injected(&result), lines_of(code));
    assert_eq!(result, "#line 1 \"file:///test.R\"\n{\nbase::.ark_auto_step(base::.ark_breakpoint(browser(), \"file:///test.R\", \"1\"))\n#line 2 \"file:///test.R\"\nx <- 1\nbase::.ark_auto_step(base::.ark_verify_breakpoints_range(\"file:///test.R\", 2L, 3L))\n#line 3 \"file:///test.R\"\nf <- function() {\nbase::.ark_auto_step(base::.ark_breakpoint(browser(), \"file:///test.R\", \"2\"))\n#line 4 \"file:///test.R\"\n  y <- 2\nbase::.ark_auto_step(base::.ark_verify_breakpoints_range(\"file:///test.R\", 4L, 5L))\n#line 5 \"file:///test.R\"\n  z <- 3\n}\nbase::.ark_auto_step(base::.ark_verify_breakpoints_range(\"file:///test.R\", 3L, 7L))\n\nbase::.ark_auto_step(base::.ark_breakpoint(browser(), \"file:///test.R\", \"3\"))\n#line 7 \"file:///test.R\"\nw <- 4\n}");
    // All breakpoints are valid (inside brace lists)
    assert!(!matches!(breakpoints[0].state, BreakpointState::Invalid(_)));
    assert!(!matches!(breakpoints[1].state, BreakpointState::Invalid(_)));
    assert!(!matches!(breakpoints[2].state, BreakpointState::Invalid(_)));
}

#[test]
fn test_inject_breakpoints_with_line_offset() {
    // Test that breakpoints work correctly when the code starts at a non-zero line
    // in the document. This simulates executing a selection from the middle of a file.
    // Wrap in braces so breakpoints are valid.
    //
    // The code represents lines 10-14 of the original document:
    // Line 10: {
    // Line 11: x <- 1
    // Line 12: y <- 2
    // Line 13: z <- 3
    // Line 14: }
    let code = "{\nx <- 1\ny <- 2\nz <- 3\n}";
    let location = CodeLocation {
        uri: "file:///test.R".to_string(),
        start: Position {
            line: 10,
            character: 0,
        },
        end: Position {
            line: 14,
            character: 1,
        },
    };

    // Breakpoint at document line 12 (which is code line 2, i.e., `y <- 2`)
    let mut breakpoints = vec![Breakpoint::new(1, 12, BreakpointState::Unverified)];

    let result = input(code, &location, Some(&mut breakpoints));
    assert_eq!(without_injected(&result), lines_of(code));
    assert_eq!(result, "#line 11 \"file:///test.R\"\n{\nx <- 1\nbase::.ark_auto_step(base::.ark_breakpoint(browser(), \"file:///test.R\", \"1\"))\n#line 13 \"file:///test.R\"\ny <- 2\nbase::.ark_auto_step(base::.ark_verify_breakpoints_range(\"file:///test.R\", 13L, 14L))\n#line 14 \"file:///test.R\"\nz <- 3\n}");

    // The breakpoint line should remain in document coordinates
    assert_eq!(breakpoints[0].line, 12);
    assert!(!matches!(breakpoints[0].state, BreakpointState::Invalid(_)));
}

#[test]
fn test_inject_breakpoints_with_line_offset_nested() {
    // Test with line offset and nested braces
    let code = "f <- function() {\n  x <- 1\n  y <- 2\n}";
    let location = CodeLocation {
        uri: "file:///test.R".to_string(),
        start: Position {
            line: 20,
            character: 0,
        },
        end: Position {
            line: 23,
            character: 1,
        },
    };

    // Breakpoint at document line 22 (code line 2, i.e., `y <- 2`)
    let mut breakpoints = vec![Breakpoint::new(1, 22, BreakpointState::Unverified)];

    let result = input(code, &location, Some(&mut breakpoints));
    assert_eq!(without_injected(&result), lines_of(code));
    assert_eq!(result, "#line 21 \"file:///test.R\"\nf <- function() {\n  x <- 1\nbase::.ark_auto_step(base::.ark_breakpoint(browser(), \"file:///test.R\", \"1\"))\n#line 23 \"file:///test.R\"\n  y <- 2\n}");

    // The breakpoint line should remain in document coordinates
    assert_eq!(breakpoints[0].line, 22);
    assert!(!matches!(breakpoints[0].state, BreakpointState::Invalid(_)));
}

#[test]
fn test_inject_breakpoints_doubly_nested_braces() {
    // Test with doubly nested braces: { { 1\n 2 } }
    // The inner expressions should be reachable for breakpoints
    let code = "{\n  {\n    1\n    2\n  }\n}";
    let location = CodeLocation {
        uri: "file:///test.R".to_string(),
        start: Position {
            line: 0,
            character: 0,
        },
        end: Position {
            line: 5,
            character: 1,
        },
    };

    // Breakpoint at line 2 (the `1` expression inside the inner braces)
    let mut breakpoints = vec![Breakpoint::new(1, 2, BreakpointState::Unverified)];

    let result = input(code, &location, Some(&mut breakpoints));
    assert_eq!(without_injected(&result), lines_of(code));
    assert_eq!(result, "#line 1 \"file:///test.R\"\n{\n  {\nbase::.ark_auto_step(base::.ark_breakpoint(browser(), \"file:///test.R\", \"1\"))\n#line 3 \"file:///test.R\"\n    1\nbase::.ark_auto_step(base::.ark_verify_breakpoints_range(\"file:///test.R\", 3L, 4L))\n#line 4 \"file:///test.R\"\n    2\n  }\n}");

    // The breakpoint should be placed at line 2
    assert_eq!(breakpoints[0].line, 2);
    assert!(!matches!(breakpoints[0].state, BreakpointState::Invalid(_)));
}

#[test]
fn test_inject_breakpoints_triply_nested_braces() {
    // Test with triply nested braces: { { { 1 } } }
    let code = "{\n  {\n    {\n      1\n    }\n  }\n}";
    let location = CodeLocation {
        uri: "file:///test.R".to_string(),
        start: Position {
            line: 0,
            character: 0,
        },
        end: Position {
            line: 6,
            character: 1,
        },
    };

    // Breakpoint at line 3 (the `1` expression inside the innermost braces)
    let mut breakpoints = vec![Breakpoint::new(1, 3, BreakpointState::Unverified)];

    let result = input(code, &location, Some(&mut breakpoints));
    assert_eq!(without_injected(&result), lines_of(code));
    assert_eq!(result, "#line 1 \"file:///test.R\"\n{\n  {\n    {\nbase::.ark_auto_step(base::.ark_breakpoint(browser(), \"file:///test.R\", \"1\"))\n#line 4 \"file:///test.R\"\n      1\n    }\n  }\n}");

    // The breakpoint should be placed at line 3
    assert_eq!(breakpoints[0].line, 3);
    assert!(!matches!(breakpoints[0].state, BreakpointState::Invalid(_)));
}

#[test]
fn test_inject_breakpoints_nested_closing_brace_invalid() {
    // Breakpoint on inner closing brace should be invalid
    let code = "{\n  {\n    1\n  }\n}";
    let location = CodeLocation {
        uri: "file:///test.R".to_string(),
        start: Position {
            line: 0,
            character: 0,
        },
        end: Position {
            line: 4,
            character: 1,
        },
    };

    // Breakpoint at line 3 (the inner `}` line)
    let mut breakpoints = vec![Breakpoint::new(1, 3, BreakpointState::Unverified)];

    let result = input(code, &location, Some(&mut breakpoints));
    // annotate_input always adds #line directive for srcref mapping
    let expected = format!("#line 1 \"file:///test.R\"\n{code}");
    assert_eq!(result, expected);
    // Marked as invalid
    assert!(matches!(breakpoints[0].state, BreakpointState::Invalid(_)));
}

#[test]
fn test_top_level_breakpoint_single_invalid() {
    // Top-level breakpoints are invalid (R can't step at top-level)
    let code = "x <- 1\ny <- 2\nz <- 3";
    let location = CodeLocation {
        uri: "file:///test.R".to_string(),
        start: Position {
            line: 0,
            character: 0,
        },
        end: Position {
            line: 2,
            character: 6,
        },
    };
    let mut breakpoints = vec![Breakpoint::new(1, 1, BreakpointState::Unverified)];

    let result = input(code, &location, Some(&mut breakpoints));
    // annotate_input always adds #line directive for srcref mapping
    let expected = format!("#line 1 \"file:///test.R\"\n{code}");
    assert_eq!(result, expected);
    // Breakpoint marked as invalid
    assert!(matches!(breakpoints[0].state, BreakpointState::Invalid(_)));
}

#[test]
fn test_top_level_breakpoint_multiple_invalid() {
    // Multiple top-level breakpoints are all invalid
    let code = "x <- 1\ny <- 2\nz <- 3\nw <- 4";
    let location = CodeLocation {
        uri: "file:///test.R".to_string(),
        start: Position {
            line: 0,
            character: 0,
        },
        end: Position {
            line: 3,
            character: 6,
        },
    };
    let mut breakpoints = vec![
        Breakpoint::new(1, 0, BreakpointState::Unverified),
        Breakpoint::new(2, 2, BreakpointState::Unverified),
    ];

    let result = input(code, &location, Some(&mut breakpoints));
    // annotate_input always adds #line directive for srcref mapping
    let expected = format!("#line 1 \"file:///test.R\"\n{code}");
    assert_eq!(result, expected);
    // Both breakpoints marked as invalid
    assert!(matches!(breakpoints[0].state, BreakpointState::Invalid(_)));
    assert!(matches!(breakpoints[1].state, BreakpointState::Invalid(_)));
}

#[test]
fn test_top_level_breakpoint_mixed_invalid_and_nested() {
    // Top-level breakpoints are invalid even when mixed with nested ones
    let code = "x <- 1\nf <- function() {\n  y <- 2\n}\nz <- 3";
    let location = CodeLocation {
        uri: "file:///test.R".to_string(),
        start: Position {
            line: 0,
            character: 0,
        },
        end: Position {
            line: 4,
            character: 6,
        },
    };
    let mut breakpoints = vec![
        Breakpoint::new(1, 0, BreakpointState::Unverified),
        Breakpoint::new(2, 2, BreakpointState::Unverified),
        Breakpoint::new(3, 4, BreakpointState::Unverified),
    ];

    let result = input(code, &location, Some(&mut breakpoints));
    // Code should contain breakpoint for nested expression only
    assert!(result.contains("base::.ark_breakpoint"));
    // Top-level breakpoints are invalid
    assert!(matches!(breakpoints[0].state, BreakpointState::Invalid(_)));
    // Nested breakpoint is valid
    assert!(!matches!(breakpoints[1].state, BreakpointState::Invalid(_)));
    // Top-level breakpoint is invalid
    assert!(matches!(breakpoints[2].state, BreakpointState::Invalid(_)));
}

#[test]
fn test_annotate_source_basic() {
    let code = "x <- 1\ny <- 2";
    let uri = "file:///test.R".to_string();
    let mut breakpoints = vec![];
    let result = source(code, &uri, &mut breakpoints);
    assert_eq!(without_injected(&result), lines_of(&wrap_source(code)));
}

#[test]
fn test_annotate_source_with_breakpoint() {
    let code = "foo <- function() {\n  x <- 1\n  y <- 2\n}\nbar <- 3";
    let uri = "file:///test.R".to_string();
    // Breakpoint at line 2 (inside the function, 0-indexed)
    let mut breakpoints = vec![Breakpoint::new(1, 1, BreakpointState::Unverified)];
    let result = source(code, &uri, &mut breakpoints);
    assert_eq!(without_injected(&result), lines_of(&wrap_source(code)));
}

#[test]
fn test_annotate_source_multiple_expressions() {
    let code = "a <- 1\nb <- 2\nc <- 3";
    let uri = "file:///test.R".to_string();
    let mut breakpoints = vec![];
    let result = source(code, &uri, &mut breakpoints);
    assert_eq!(without_injected(&result), lines_of(&wrap_source(code)));
}

#[test]
fn test_annotate_source_multiline_expression() {
    let code = "foo <- function(x) {\n  x + 1\n}\nbar <- 2";
    let uri = "file:///test.R".to_string();
    let mut breakpoints = vec![];
    let result = source(code, &uri, &mut breakpoints);
    assert_eq!(without_injected(&result), lines_of(&wrap_source(code)));
}

#[test]
fn test_annotate_source_top_level_breakpoint() {
    let code = "x <- 1\ny <- 2\nz <- 3";
    let uri = "file:///test.R".to_string();
    // Breakpoints on top-level expressions (lines 0, 1, 2 in 0-indexed)
    let mut breakpoints = vec![
        Breakpoint::new(1, 0, BreakpointState::Unverified),
        Breakpoint::new(2, 2, BreakpointState::Unverified),
    ];
    let result = source(code, &uri, &mut breakpoints);

    // Top-level breakpoints should be valid in annotate_source (code is wrapped in braces)
    assert_eq!(breakpoints[0].state, BreakpointState::Unverified);
    assert_eq!(breakpoints[1].state, BreakpointState::Unverified);
    assert_eq!(without_injected(&result), lines_of(&wrap_source(code)));
}

#[test]
fn test_annotate_source_multiple_breakpoints_inside_braces() {
    // Breakpoints at lines 1 and 2 (1-based), i.e. lines 0 and 1 (0-indexed)
    // Line 0: `{`
    // Line 1: `  1`
    let code = "{\n  1\n  2\n}\n\n2";
    let uri = "file:///test.R".to_string();
    let mut breakpoints = vec![
        Breakpoint::new(1, 0, BreakpointState::Unverified),
        Breakpoint::new(2, 1, BreakpointState::Unverified),
    ];
    let result = source(code, &uri, &mut breakpoints);

    // Breakpoint 1 should be at line 0 (the `{`)
    // Breakpoint 2 should be at line 1 (the `1`)
    assert_eq!(breakpoints[0].line, 0);
    assert_eq!(breakpoints[1].line, 1);
    assert_eq!(breakpoints[0].state, BreakpointState::Unverified);
    assert_eq!(breakpoints[1].state, BreakpointState::Unverified);
    assert_eq!(without_injected(&result), lines_of(&wrap_source(code)));
}

#[test]
fn test_annotate_source_breakpoint_on_opening_brace() {
    // Breakpoint on line 0 (the `{` line) should anchor to the braced expression,
    // not dive into the nested list and anchor to line 1.
    let code = "{\n  1\n  2\n}\n\n2";
    let uri = "file:///test.R".to_string();
    let mut breakpoints = vec![Breakpoint::new(1, 0, BreakpointState::Unverified)];
    let result = source(code, &uri, &mut breakpoints);

    // Breakpoint should remain at line 0, not shifted to line 1
    assert_eq!(breakpoints[0].line, 0);
    assert_eq!(breakpoints[0].state, BreakpointState::Unverified);
    assert_eq!(without_injected(&result), lines_of(&wrap_source(code)));
}

#[test]
fn test_annotate_source_breakpoint_on_function_definition_line() {
    // Breakpoint on the function definition line (which includes the opening `{`)
    // should anchor to the assignment expression, not dive into the function body.
    // Line 0: `f <- function(x) {`
    // Line 1: `  1`
    // Line 2: `}`
    let code = "f <- function(x) {\n  1\n}";
    let uri = "file:///test.R".to_string();
    let mut breakpoints = vec![
        Breakpoint::new(1, 0, BreakpointState::Unverified),
        Breakpoint::new(2, 1, BreakpointState::Unverified),
    ];
    let result = source(code, &uri, &mut breakpoints);

    // Breakpoint 1 should remain at line 0 (the function definition)
    // Breakpoint 2 should be at line 1 (inside the function body)
    assert_eq!(breakpoints[0].line, 0);
    assert_eq!(breakpoints[1].line, 1);
    assert_eq!(breakpoints[0].state, BreakpointState::Unverified);
    assert_eq!(breakpoints[1].state, BreakpointState::Unverified);
    assert_eq!(without_injected(&result), lines_of(&wrap_source(code)));
}

#[test]
fn test_inject_breakpoints_if_else_both_branches() {
    let code = "if (TRUE) {\n  x <- 1\n} else {\n  y <- 2\n}";
    let location = CodeLocation {
        uri: "file:///test.R".to_string(),
        start: Position {
            line: 0,
            character: 0,
        },
        end: Position {
            line: 4,
            character: 1,
        },
    };
    let mut breakpoints = vec![
        Breakpoint::new(1, 1, BreakpointState::Unverified),
        Breakpoint::new(2, 3, BreakpointState::Unverified),
    ];

    let result = input(code, &location, Some(&mut breakpoints));
    assert_eq!(without_injected(&result), lines_of(code));
    assert_eq!(result, "#line 1 \"file:///test.R\"\nif (TRUE) {\nbase::.ark_auto_step(base::.ark_breakpoint(browser(), \"file:///test.R\", \"1\"))\n#line 2 \"file:///test.R\"\n  x <- 1\n} else {\nbase::.ark_auto_step(base::.ark_breakpoint(browser(), \"file:///test.R\", \"2\"))\n#line 4 \"file:///test.R\"\n  y <- 2\n}");

    // Both breakpoints should be valid (not marked as invalid)
    assert!(
        !matches!(breakpoints[0].state, BreakpointState::Invalid(_)),
        "First breakpoint should not be invalid"
    );
    assert!(
        !matches!(breakpoints[1].state, BreakpointState::Invalid(_)),
        "Second breakpoint should not be invalid"
    );
}

#[test]
fn test_inject_breakpoints_multiple_invalid_closing_braces() {
    // Multiple breakpoints on closing braces should all be marked invalid
    // without re-traversing the tree for each one.
    let code = "{\n  f <- function() {\n    x <- 1\n  }\n}";
    // Line 0: {
    // Line 1:   f <- function() {
    // Line 2:     x <- 1
    // Line 3:   }        <- bp1 (closing brace of function)
    // Line 4: }          <- bp2 (closing brace of outer block)
    let location = CodeLocation {
        uri: "file:///test.R".to_string(),
        start: Position {
            line: 0,
            character: 0,
        },
        end: Position {
            line: 4,
            character: 1,
        },
    };
    let mut breakpoints = vec![
        Breakpoint::new(1, 3, BreakpointState::Unverified),
        Breakpoint::new(2, 4, BreakpointState::Unverified),
    ];

    let result = input(code, &location, Some(&mut breakpoints));

    // annotate_input always adds #line directive for srcref mapping
    let expected = format!("#line 1 \"file:///test.R\"\n{code}");
    assert_eq!(result, expected);

    // Both breakpoints should be marked invalid
    assert!(
        matches!(breakpoints[0].state, BreakpointState::Invalid(_)),
        "First breakpoint on closing brace should be invalid"
    );
    assert!(
        matches!(breakpoints[1].state, BreakpointState::Invalid(_)),
        "Second breakpoint on closing brace should be invalid"
    );
}

#[test]
fn test_inject_breakpoints_empty_brace_sibling() {
    // Breakpoint on an empty brace block that's a sibling to other expressions
    let code = "{\n  x <- 1\n  {}\n}";
    // Line 0: {
    // Line 1:   x <- 1
    // Line 2:   {}      <- breakpoint here
    // Line 3: }
    let location = CodeLocation {
        uri: "file:///test.R".to_string(),
        start: Position {
            line: 0,
            character: 0,
        },
        end: Position {
            line: 3,
            character: 1,
        },
    };
    let mut breakpoints = vec![Breakpoint::new(1, 2, BreakpointState::Unverified)];

    let result = input(code, &location, Some(&mut breakpoints));
    assert_eq!(without_injected(&result), lines_of(code));
    assert_eq!(result, "#line 1 \"file:///test.R\"\n{\n  x <- 1\nbase::.ark_auto_step(base::.ark_breakpoint(browser(), \"file:///test.R\", \"1\"))\n#line 3 \"file:///test.R\"\n  {}\n}");

    // Should anchor to the empty {} expression (it's a valid expression)
    assert!(
        !matches!(breakpoints[0].state, BreakpointState::Invalid(_)),
        "Breakpoint on empty brace block should be valid"
    );
}

#[test]
fn test_inject_breakpoints_nested_braces_same_line() {
    // Test breakpoints on nested brace structures
    let code = "{\n  {\n  }\n}";
    // Line 0: {       <- outer open
    // Line 1:   {     <- inner open (this is an expression in outer list)
    // Line 2:   }     <- inner close (invalid - closing brace)
    // Line 3: }       <- outer close (invalid - closing brace)
    let location = CodeLocation {
        uri: "file:///test.R".to_string(),
        start: Position {
            line: 0,
            character: 0,
        },
        end: Position {
            line: 3,
            character: 1,
        },
    };

    // Test 1: Breakpoint on inner brace open line (valid - anchors to inner {} expression)
    let mut breakpoints = vec![Breakpoint::new(1, 1, BreakpointState::Unverified)];
    let result = input(code, &location, Some(&mut breakpoints));
    assert!(
        !matches!(breakpoints[0].state, BreakpointState::Invalid(_)),
        "Breakpoint on inner brace open should be valid"
    );
    assert!(result.contains(".ark_breakpoint"));

    // Test 2: Breakpoint on inner closing brace (anchors to inner {} expression start)
    let mut breakpoints = vec![Breakpoint::new(2, 2, BreakpointState::Unverified)];
    let result = input(code, &location, Some(&mut breakpoints));
    assert!(
        !matches!(breakpoints[0].state, BreakpointState::Invalid(_)),
        "Breakpoint on inner closing brace should anchor to inner {{ expression"
    );
    assert_eq!(breakpoints[0].line, 1, "Should anchor to line 1");
    assert!(result.contains(".ark_breakpoint"));

    // Test 3: Breakpoint on outer closing brace (invalid - not part of any expression in the list)
    let mut breakpoints = vec![Breakpoint::new(3, 3, BreakpointState::Unverified)];
    let result = input(code, &location, Some(&mut breakpoints));
    assert!(
        matches!(breakpoints[0].state, BreakpointState::Invalid(_)),
        "Breakpoint on outer closing brace should be invalid"
    );
    let expected = format!("#line 1 \"file:///test.R\"\n{code}");
    assert_eq!(result, expected);
}

#[test]
fn test_inject_breakpoints_double_braces_same_lines() {
    // Test breakpoints with {{ on one line and }} on another
    let code = "{{\n}}";
    // Line 0: {{    <- outer and inner open
    // Line 1: }}    <- inner and outer close
    let location = CodeLocation {
        uri: "file:///test.R".to_string(),
        start: Position {
            line: 0,
            character: 0,
        },
        end: Position {
            line: 1,
            character: 2,
        },
    };

    // Test 1: Breakpoint on line 0 (valid - anchors to inner {} expression)
    let mut breakpoints = vec![Breakpoint::new(1, 0, BreakpointState::Unverified)];
    let result = input(code, &location, Some(&mut breakpoints));
    assert!(
        !matches!(breakpoints[0].state, BreakpointState::Invalid(_)),
        "Breakpoint on {{ line should be valid"
    );
    assert!(result.contains(".ark_breakpoint"));

    // Test 2: Breakpoint on line 1 (anchors to inner {} which spans lines 0-1)
    let mut breakpoints = vec![Breakpoint::new(2, 1, BreakpointState::Unverified)];
    let result = input(code, &location, Some(&mut breakpoints));
    // Breakpoint on }} line anchors to the inner {} expression start (line 0)
    assert!(
        !matches!(breakpoints[0].state, BreakpointState::Invalid(_)),
        "Breakpoint on }} line should anchor to inner {{ expression"
    );
    assert_eq!(breakpoints[0].line, 0, "Should anchor to line 0");
    assert!(result.contains(".ark_breakpoint"));
}

#[test]
fn test_inject_breakpoints_inside_multiline_call() {
    // Test breakpoint placed on a line inside a multi-line call expression.
    // The breakpoint is on the argument line, not the start of the expression,
    // but should anchor to the start of the expression.
    let code = "{\n  foo(\n    1\n  )\n}";
    // Line 0: {
    // Line 1:   foo(
    // Line 2:     1      <- breakpoint here
    // Line 3:   )
    // Line 4: }
    let location = CodeLocation {
        uri: "file:///test.R".to_string(),
        start: Position {
            line: 0,
            character: 0,
        },
        end: Position {
            line: 4,
            character: 1,
        },
    };

    let mut breakpoints = vec![Breakpoint::new(1, 2, BreakpointState::Unverified)];

    let result = input(code, &location, Some(&mut breakpoints));
    assert_eq!(without_injected(&result), lines_of(code));
    assert_eq!(result, "#line 1 \"file:///test.R\"\n{\nbase::.ark_auto_step(base::.ark_breakpoint(browser(), \"file:///test.R\", \"1\"))\n#line 2 \"file:///test.R\"\n  foo(\n    1\n  )\n}");

    // Breakpoint inside a multi-line expression should anchor to expression start
    assert!(!matches!(breakpoints[0].state, BreakpointState::Invalid(_)));
    assert_eq!(
        breakpoints[0].line, 1,
        "Breakpoint should anchor to expression start"
    );
}

#[test]
fn annotation_only_inserts_text() {
    let code = "{\n  a <- 1\n\n  f <- function() {\n    # note\n    b\n    c\n  }\n  d\n}\n";
    let mut breakpoints = vec![
        Breakpoint::new(1, 1, BreakpointState::Unverified),
        Breakpoint::new(2, 5, BreakpointState::Unverified),
        Breakpoint::new(3, 8, BreakpointState::Unverified),
    ];
    let result = source(code, "file:///test.R", &mut breakpoints);
    let mut rest = result.chars();
    assert!(code.chars().all(|c| rest.any(|r| r == c)));
    assert!(result.len() > code.len());
}

#[test]
fn breakpoints_of_a_list_that_fails_are_invalid() {
    let expr = |start, end| Expr {
        leading: vec![],
        body: vec![Piece::Text("x\n".to_string())],
        start,
        end,
    };
    let list = Braced {
        open: "{".to_string(),
        line: 0,
        exprs: vec![expr(0, 1), expr(1, 5)],
        close: "}".to_string(),
    };
    let code = RCode {
        exprs: vec![Expr { leading: vec![], body: vec![Piece::Braces(list)], start: 0, end: 5 }],
        tail: String::new(),
    };
    let breakpoints = vec![
        Breakpoint::new(1, 2, BreakpointState::Unverified),
        Breakpoint::new(2, 9, BreakpointState::Unverified),
    ];
    let annotated = annotate_source("", &code, "file:///test.R", breakpoints);
    assert!(annotated.code.is_err());
    let left = annotated.breakpoints.unwrap();
    assert!(matches!(left[0].state, BreakpointState::Invalid(_)));
    assert_eq!(left[1].state, BreakpointState::Unverified);
}
