use ark::console::breakpoint::{breakpoint_label, format_breakpoint_block};
use ark::console::console_debug::{
    filter_hidden_frames, remove_fenced_frames, FrameInfo, FrameSource,
};

fn frame(name: &str) -> FrameInfo {
    FrameInfo {
        id: 0,
        source_name: String::new(),
        frame_name: name.to_string(),
        source: FrameSource::Text(String::new()),
        environment: None,
        start_line: 0,
        start_column: 0,
        end_line: 0,
        end_column: 0,
    }
}

fn names(frames: &[FrameInfo]) -> Vec<&str> {
    frames.iter().map(|f| f.frame_name.as_str()).collect()
}

fn test_uri(path: &str) -> String {
    format!("file:///project/{path}")
}

#[test]
fn console_debug_test_filter_hidden_frames_empty() {
    let mut frames = vec![];
    remove_fenced_frames(&mut frames);
    assert!(frames.is_empty());
}

#[test]
fn test_filter_hidden_frames_empty() {
    let mut frames = vec![];
    filter_hidden_frames(&mut frames);
    assert!(frames.is_empty());
}

#[test]
fn console_debug_test_filter_hidden_frames_no_sentinels() {
    let mut frames = vec![frame("a()"), frame("b()"), frame("c()")];
    remove_fenced_frames(&mut frames);
    assert_eq!(names(&frames), vec!["a()", "b()", "c()"]);
}

#[test]
fn test_filter_hidden_frames_no_sentinels() {
    let mut frames = vec![frame("a()"), frame("b()"), frame("c()")];
    filter_hidden_frames(&mut frames);
    assert_eq!(names(&frames), vec!["a()", "b()", "c()"]);
}

#[test]
fn console_debug_test_filter_hidden_frames_basic_region() {
    let mut frames = vec![
        frame("user_code()"),
        frame("..stacktraceon..()"),
        frame("shiny_internal()"),
        frame("..stacktraceoff..()"),
        frame("outer()"),
    ];
    remove_fenced_frames(&mut frames);
    assert_eq!(names(&frames), vec!["user_code()", "outer()"]);
}

#[test]
fn test_filter_hidden_frames_basic_region() {
    let mut frames = vec![
        frame("user_code()"),
        frame("..stacktraceon..()"),
        frame("shiny_internal()"),
        frame("..stacktraceoff..()"),
        frame("outer()"),
    ];
    filter_hidden_frames(&mut frames);
    assert_eq!(names(&frames), vec!["user_code()", "outer()"]);
}

#[test]
fn console_debug_test_filter_hidden_frames_sequential_regions() {
    let mut frames = vec![
        frame("user_code()"),
        frame("..stacktraceon..()"),
        frame("inner_on()"),
        frame("internal_a()"),
        frame("..stacktraceoff..()"),
        frame("inner_off()"),
        frame("middle_user()"),
        frame("..stacktraceon..()"),
        frame("outer_on()"),
        frame("internal_b()"),
        frame("..stacktraceoff..()"),
        frame("outer_off()"),
        frame("top()"),
    ];
    remove_fenced_frames(&mut frames);
    assert_eq!(names(&frames), vec![
        "user_code()",
        "inner_off()",
        "middle_user()",
        "outer_off()",
        "top()"
    ]);
}

#[test]
fn test_filter_hidden_frames_sequential_regions() {
    let mut frames = vec![
        frame("user_code()"),
        frame("..stacktraceon..()"),
        frame("inner_on()"),
        frame("internal_a()"),
        frame("..stacktraceoff..()"),
        frame("inner_off()"),
        frame("middle_user()"),
        frame("..stacktraceon..()"),
        frame("outer_on()"),
        frame("internal_b()"),
        frame("..stacktraceoff..()"),
        frame("outer_off()"),
        frame("top()"),
    ];
    filter_hidden_frames(&mut frames);
    assert_eq!(names(&frames), vec![
        "user_code()",
        "inner_off()",
        "middle_user()",
        "outer_off()",
        "top()"
    ]);
}

#[test]
fn console_debug_test_filter_hidden_frames_nested_regions() {
    // Shiny nests sentinel pairs. Inner `..stacktraceon..` increases depth,
    // and we only exit hidden mode when depth returns to 0.
    let mut frames = vec![
        frame("renderPlot()"),
        frame("..stacktraceon..(renderPlot())"),
        frame("func()"),
        frame("..stacktraceon..(<reactive:plotObj>)"),
        frame("internal_deep()"),
        frame("..stacktraceoff..(self$.updateValue())"),
        frame("still_hidden()"),
        frame("..stacktraceoff..(renderFunc)"),
        frame("output$distPlot()"),
        frame("..stacktraceon..(output$distPlot)"),
        frame("more_internal()"),
        frame("..stacktraceoff..(captureStackTraces)"),
        frame("shiny::runApp()"),
    ];
    remove_fenced_frames(&mut frames);
    assert_eq!(names(&frames), vec![
        "renderPlot()",
        "output$distPlot()",
        "shiny::runApp()"
    ]);
}

#[test]
fn test_filter_hidden_frames_nested_regions() {
    // Shiny nests sentinel pairs. Inner `..stacktraceon..` increases depth,
    // and we only exit hidden mode when depth returns to 0.
    let mut frames = vec![
        frame("renderPlot()"),
        frame("..stacktraceon..(renderPlot())"),
        frame("func()"),
        frame("..stacktraceon..(<reactive:plotObj>)"),
        frame("internal_deep()"),
        frame("..stacktraceoff..(self$.updateValue())"),
        frame("still_hidden()"),
        frame("..stacktraceoff..(renderFunc)"),
        frame("output$distPlot()"),
        frame("..stacktraceon..(output$distPlot)"),
        frame("more_internal()"),
        frame("..stacktraceoff..(captureStackTraces)"),
        frame("shiny::runApp()"),
    ];
    filter_hidden_frames(&mut frames);
    assert_eq!(names(&frames), vec![
        "renderPlot()",
        "output$distPlot()",
        "shiny::runApp()"
    ]);
}

#[test]
fn console_debug_test_filter_hidden_frames_deeply_nested() {
    // Multiple levels of nesting
    let mut frames = vec![
        frame("user()"),
        frame("..stacktraceon..()"),
        frame("a()"),
        frame("..stacktraceon..()"),
        frame("b()"),
        frame("..stacktraceon..()"),
        frame("c()"),
        frame("..stacktraceoff..()"),
        frame("d()"),
        frame("..stacktraceoff..()"),
        frame("e()"),
        frame("..stacktraceoff..()"),
        frame("visible()"),
    ];
    remove_fenced_frames(&mut frames);
    assert_eq!(names(&frames), vec!["user()", "visible()"]);
}

#[test]
fn test_filter_hidden_frames_deeply_nested() {
    // Multiple levels of nesting
    let mut frames = vec![
        frame("user()"),
        frame("..stacktraceon..()"),
        frame("a()"),
        frame("..stacktraceon..()"),
        frame("b()"),
        frame("..stacktraceon..()"),
        frame("c()"),
        frame("..stacktraceoff..()"),
        frame("d()"),
        frame("..stacktraceoff..()"),
        frame("e()"),
        frame("..stacktraceoff..()"),
        frame("visible()"),
    ];
    filter_hidden_frames(&mut frames);
    assert_eq!(names(&frames), vec!["user()", "visible()"]);
}

#[test]
fn console_debug_test_filter_hidden_frames_only_sentinels() {
    let mut frames = vec![frame("..stacktraceon..()"), frame("..stacktraceoff..()")];
    remove_fenced_frames(&mut frames);
    // The first frame is always kept, even if it's a sentinel
    assert_eq!(names(&frames), vec!["..stacktraceon..()"]);
}

#[test]
fn test_filter_hidden_frames_only_sentinels() {
    let mut frames = vec![frame("..stacktraceon..()"), frame("..stacktraceoff..()")];
    filter_hidden_frames(&mut frames);
    // The first frame is always kept, even if it's a sentinel
    assert_eq!(names(&frames), vec!["..stacktraceon..()"]);
}

#[test]
fn console_debug_test_filter_hidden_frames_lone_traceoff() {
    // A lone `..stacktraceoff..` is a no-op: it exits a hidden region
    // that was never entered, so all other frames remain visible.
    let mut frames = vec![
        frame("user_code()"),
        frame("..stacktraceoff..()"),
        frame("wrapper()"),
    ];
    remove_fenced_frames(&mut frames);
    assert_eq!(names(&frames), vec!["user_code()", "wrapper()"]);
}

#[test]
fn test_filter_hidden_frames_lone_traceoff() {
    // A lone `..stacktraceoff..` is a no-op: it exits a hidden region
    // that was never entered, so all other frames remain visible.
    let mut frames = vec![
        frame("user_code()"),
        frame("..stacktraceoff..()"),
        frame("wrapper()"),
    ];
    filter_hidden_frames(&mut frames);
    assert_eq!(names(&frames), vec!["user_code()", "wrapper()"]);
}

#[test]
fn console_debug_test_filter_hidden_frames_topmost_preserved_when_unmatched() {
    // `..stacktraceon..` (not off) is correct here: in our innermost-first
    // scan it enters the hidden region, so a missing `..stacktraceoff..`
    // leaves everything above it hidden.
    let mut frames = vec![
        frame("user_code()"),
        frame("..stacktraceon..()"),
        frame("wrapper()"),
    ];
    remove_fenced_frames(&mut frames);
    assert_eq!(names(&frames), vec!["user_code()"]);
}

#[test]
fn test_filter_hidden_frames_topmost_preserved_when_unmatched() {
    // `..stacktraceon..` (not off) is correct here: in our innermost-first
    // scan it enters the hidden region, so a missing `..stacktraceoff..`
    // leaves everything above it hidden.
    let mut frames = vec![
        frame("user_code()"),
        frame("..stacktraceon..()"),
        frame("wrapper()"),
    ];
    filter_hidden_frames(&mut frames);
    assert_eq!(names(&frames), vec!["user_code()"]);
}

#[test]
fn console_debug_test_filter_hidden_frames_first_frame_is_sentinel() {
    // The topmost frame is always kept, even if it's a sentinel
    let mut frames = vec![
        frame("..stacktraceon..()"),
        frame("internal()"),
        frame("..stacktraceoff..()"),
        frame("outer()"),
    ];
    remove_fenced_frames(&mut frames);
    // The sentinel at index 0 is kept without triggering hidden state,
    // so `internal()` between on/off is also visible
    assert_eq!(names(&frames), vec![
        "..stacktraceon..()",
        "internal()",
        "outer()"
    ]);
}

#[test]
fn test_filter_hidden_frames_first_frame_is_sentinel() {
    // The topmost frame is always kept, even if it's a sentinel
    let mut frames = vec![
        frame("..stacktraceon..()"),
        frame("internal()"),
        frame("..stacktraceoff..()"),
        frame("outer()"),
    ];
    filter_hidden_frames(&mut frames);
    // The sentinel at index 0 is kept without triggering hidden state,
    // so `internal()` between on/off is also visible
    assert_eq!(names(&frames), vec![
        "..stacktraceon..()",
        "internal()",
        "outer()"
    ]);
}

#[test]
fn test_format_breakpoint_block_nothing() {
    let uri = test_uri("test.R");
    assert_eq!(format_breakpoint_block(&uri, 2, ""), None);
    assert_eq!(format_breakpoint_block(&uri, 2, "  \n"), None);
}

#[test]
fn test_format_breakpoint_block_error_only() {
    let uri = test_uri("test.R");
    let result =
        format_breakpoint_block(&uri, 2, "Code: `x > 1`\nError: object 'x' not found\n");
    let link = breakpoint_label(&uri, 2);
    assert_eq!(
        result.unwrap().replace(&link, "<test.R#3>").trim(),
        "```breakpoint <test.R#3>\n\
         Code: `x > 1`\n\
         Error: object 'x' not found\n\
         ```"
    );
}

#[test]
fn test_format_breakpoint_block_warning_only() {
    let uri = test_uri("test.R");
    let result = format_breakpoint_block(&uri, 4, "Code: `x > 1`\nWarning: something\n");
    let link = breakpoint_label(&uri, 4);
    assert_eq!(
        result.unwrap().replace(&link, "<test.R#5>").trim(),
        "```breakpoint <test.R#5>\n\
         Code: `x > 1`\n\
         Warning: something\n\
         ```"
    );
}

#[test]
fn test_format_breakpoint_block_with_error() {
    let uri = test_uri("analysis.R");
    let content = "Code: `nrow(df)`\nWarning message:\ncoercion applied\nError: Expected TRUE or FALSE, got 5\n";
    let result = format_breakpoint_block(&uri, 9, content);
    let link = breakpoint_label(&uri, 9);
    assert_eq!(
        result.unwrap().replace(&link, "<analysis.R#10>").trim(),
        "```breakpoint <analysis.R#10>\n\
         Code: `nrow(df)`\n\
         Warning message:\n\
         coercion applied\n\
         Error: Expected TRUE or FALSE, got 5\n\
         ```"
    );
}

#[test]
fn test_format_breakpoint_block_no_trailing_newline() {
    let uri = test_uri("test.R");
    let result = format_breakpoint_block(&uri, 0, "Code: `x > 1`\nWarning: oops");
    let link = breakpoint_label(&uri, 0);
    assert_eq!(
        result.unwrap().replace(&link, "<test.R#1>").trim(),
        "```breakpoint <test.R#1>\n\
         Code: `x > 1`\n\
         Warning: oops\n\
         ```"
    );
}

#[test]
fn test_format_breakpoint_block_log_output() {
    let uri = test_uri("test.R");
    let result = format_breakpoint_block(&uri, 2, "x is 42, y is hello\n");
    let link = breakpoint_label(&uri, 2);
    assert_eq!(
        result.unwrap().replace(&link, "<test.R#3>").trim(),
        "```breakpoint <test.R#3>\n\
         x is 42, y is hello\n\
         ```"
    );
}

#[test]
fn test_format_breakpoint_block_log_output_no_trailing_newline() {
    let uri = test_uri("script.R");
    let result = format_breakpoint_block(&uri, 5, "iteration 3");
    let link = breakpoint_label(&uri, 5);
    assert_eq!(
        result.unwrap().replace(&link, "<script.R#6>").trim(),
        "```breakpoint <script.R#6>\n\
         iteration 3\n\
         ```"
    );
}

#[test]
fn test_format_breakpoint_block_log_error() {
    let uri = test_uri("test.R");
    let result = format_breakpoint_block(&uri, 2, "Error: object 'z' not found\n");
    let link = breakpoint_label(&uri, 2);
    assert_eq!(
        result.unwrap().replace(&link, "<test.R#3>").trim(),
        "```breakpoint <test.R#3>\n\
         Error: object 'z' not found\n\
         ```"
    );
}

#[test]
fn test_format_breakpoint_block_hit_condition_error() {
    let uri = test_uri("test.R");
    let result = format_breakpoint_block(
        &uri,
        17,
        "Error: Expected a positive integer, invalid digit found in string",
    );
    let link = breakpoint_label(&uri, 17);
    assert_eq!(
        result.unwrap().replace(&link, "<test.R#18>").trim(),
        "```breakpoint <test.R#18>\n\
         Error: Expected a positive integer, invalid digit found in string\n\
         ```"
    );
}

#[test]
fn test_breakpoint_label() {
    let uri = test_uri("test.R");
    let link = breakpoint_label(&uri, 4);
    assert_eq!(
        link,
        "\x1b]8;line=5;file:///project/test.R\x07test.R#5\x1b]8;;\x07"
    );
}
