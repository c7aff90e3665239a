use std::time::{Duration, Instant};

use ark::console::console_filter::{
    finalize_capture, find_debug_at_expression_start, strip_step_lines, try_match_prefix,
    ConsoleFilter, DebugCallTextKind, DebugCallTextUpdate, MatchedPattern,
};

/// Waits until a timeout of one millisecond is over.
fn wait() {
    let start = Instant::now();
    while start.elapsed() < Duration::from_millis(5) {}
}

#[test]
fn test_prefix_matching() {
    assert_eq!(
        try_match_prefix("Called from: "),
        Some(MatchedPattern::CalledFrom)
    );
    assert_eq!(try_match_prefix("debug at "), Some(MatchedPattern::DebugAt));
    assert_eq!(try_match_prefix("debug: "), Some(MatchedPattern::Debug));

    // No longer filtered: "debugging in:" and "exiting from:" pass through
    assert_eq!(try_match_prefix("debugging in: "), None);
    assert_eq!(try_match_prefix("exiting from: "), None);

    // Partial content does not match
    assert_eq!(try_match_prefix("Cal"), None);
    assert_eq!(try_match_prefix("debug"), None);
    assert_eq!(try_match_prefix("debug "), None);
    assert_eq!(try_match_prefix("debugging "), None);

    // Non-matches
    assert_eq!(try_match_prefix("Hello"), None);
    assert_eq!(try_match_prefix("call from"), None);
    assert_eq!(try_match_prefix(""), None);
}

#[test]
fn test_find_debug_at_expression_start() {
    assert_eq!(find_debug_at_expression_start("file.R#10: x + 1"), Some(11));
    assert_eq!(
        find_debug_at_expression_start("/path/to/file.R#123: foo()"),
        Some(21)
    );
    // Windows path with colon
    assert_eq!(
        find_debug_at_expression_start("C:/path/file.R#5: bar"),
        Some(18)
    );
    // No expression yet
    assert_eq!(find_debug_at_expression_start("file.R#10"), None);
    assert_eq!(find_debug_at_expression_start("file.R"), None);
}

#[test]
fn test_normal_output_passthrough() {
    let mut filter = ConsoleFilter::new();
    let emits = filter.feed("Hello, world!\n");

    assert_eq!(emits.len(), 1);
    assert_eq!(emits[0], "Hello, world!\n");
}

#[test]
fn test_non_matching_prefix_emitted() {
    let mut filter = ConsoleFilter::new();

    // Content that starts like a prefix but doesn't match
    let emits = filter.feed("Calling function...\n");

    // "Calling" doesn't match any prefix, should be emitted
    let emitted: String = emits.iter().map(|s| s.as_str()).collect();

    assert!(emitted.contains("Calling"));
}

fn collect_emitted(emits: &[String]) -> String {
    emits.iter().map(|s| s.as_str()).collect()
}

// --- Adversarial output tests ---
//
// These verify that user output resembling debug messages is recovered
// rather than silently swallowed. The filter only suppresses content
// that is confirmed by reaching ReadConsole (the browser prompt).

#[test]
fn test_adversarial_filtering_timeout_emits() {
    // Prefix matched but no ReadConsole arrives. Timeout emits
    // the accumulated content back to the user.
    let mut filter = ConsoleFilter::new_with_timeout(1);

    let emits = filter.feed("debug: ");
    assert!(emits.is_empty());

    wait();

    let emit = filter.check_timeout();
    assert_eq!(emit.unwrap(), "debug: ");
}

#[test]
fn test_adversarial_all_prefixes_timeout_emit() {
    for prefix in MatchedPattern::all() {
        let mut filter = ConsoleFilter::new_with_timeout(1);
        let emits = filter.feed(prefix.prefix());
        assert!(emits.is_empty());

        wait();

        let emit = filter.check_timeout();
        assert_eq!(emit.unwrap(), prefix.prefix());
    }
}

#[test]
fn test_adversarial_debug_at_malformed_path_timeout_emits() {
    // "debug at " without the expected `#<digits>: ` pattern stays in
    // Filtering (no parse-based rejection). Timeout recovers content.
    let mut filter = ConsoleFilter::new_with_timeout(1);

    let emits = filter.feed("debug at ");
    assert!(emits.is_empty());
    let emits = filter.feed("not-a-path\n");
    assert!(emits.is_empty());

    wait();

    let emit = filter.check_timeout();
    assert_eq!(emit.unwrap(), "debug at not-a-path\n");
}

#[test]
fn test_adversarial_prefix_mid_line_passes_through() {
    // Prefix text that doesn't start at a line boundary is not filtered
    let mut filter = ConsoleFilter::new();
    let emits = filter.feed("foo debug: bar\n");

    assert_eq!(collect_emitted(&emits), "foo debug: bar\n");
}

#[test]
fn test_adversarial_partial_prefix_passes_through() {
    // "Cal" doesn't fully match any prefix, so it's emitted immediately
    let mut filter = ConsoleFilter::new();
    let emits = filter.feed("Cal");
    assert_eq!(collect_emitted(&emits), "Cal");

    let emits = filter.feed("culator\n");
    assert_eq!(collect_emitted(&emits), "culator\n");
}

#[test]
fn test_adversarial_flush_recovers_filtering_state() {
    let mut filter = ConsoleFilter::new();
    let emits = filter.feed("Called from: ");
    assert!(emits.is_empty());

    let flushed = filter.flush();
    assert_eq!(flushed.unwrap(), "Called from: ");
}

#[test]
fn test_adversarial_on_read_console_browser_suppresses() {
    // Content in Filtering state IS suppressed when a browser prompt
    // arrives, because that confirms it was a real debug message.
    let mut filter = ConsoleFilter::new();
    let emits = filter.feed("debug: x + 1\n");
    assert!(emits.is_empty());

    let (emit, update) = filter.on_read_console(true);
    assert!(emit.is_none());
    assert!(update.is_some());
}

#[test]
fn test_adversarial_on_read_console_toplevel_emits() {
    // Content in Filtering state IS emitted when a top-level prompt
    // arrives, because that means it was user output matching a prefix.
    let mut filter = ConsoleFilter::new();
    let emits = filter.feed("Called from: ");
    assert!(emits.is_empty());

    let (emit, update) = filter.on_read_console(false);
    assert_eq!(emit.unwrap(), "Called from: ");
    assert!(update.is_none());
}

#[test]
fn test_adversarial_feed_after_timeout_works_normally() {
    // After a timeout recovery, subsequent output passes through normally
    let mut filter = ConsoleFilter::new_with_timeout(1);
    filter.feed("debug: ");

    wait();

    // Next feed triggers timeout recovery then processes new content
    let emits = filter.feed("normal output\n");
    let emitted = collect_emitted(&emits);
    assert!(emitted.contains("debug: "));
    assert!(emitted.contains("normal output\n"));
}

#[test]
fn test_adversarial_timeout_during_feed_emits() {
    // Timeout fires inside `feed` (via check_timeout at the start)
    // when new content arrives after the deadline.
    let mut filter = ConsoleFilter::new_with_timeout(1);
    filter.feed("Called from: ");

    wait();

    let emits = filter.feed("next line\n");
    let emitted = collect_emitted(&emits);
    assert!(emitted.contains("Called from: "));
    assert!(emitted.contains("next line\n"));
}

// --- Tests for accumulate-until-ReadConsole approach ---

#[test]
fn test_literal_debug_at_stays_filtering() {
    // `[1] 1` is not valid R syntax. The old parse-based filter would
    // flush-emit this as "not a real debug message". The new filter
    // accumulates everything until ReadConsole.
    let mut filter = ConsoleFilter::new();
    let emits = filter.feed("debug at file.R#1: [1] 1\n");
    assert!(emits.is_empty());

    let (emit, update) = filter.on_read_console(true);
    assert!(emit.is_none());
    assert!(update.is_some());
}

#[test]
fn test_debugging_in_passes_through_debug_at_filtered() {
    // "debugging in:" is no longer filtered, so it passes through
    // immediately. "debug at" is still filtered.
    let mut filter = ConsoleFilter::new();
    let emits = filter.feed("debugging in: f()\n");
    assert_eq!(collect_emitted(&emits), "debugging in: f()\n");

    let emits = filter.feed("debug at file.R#1: x <- 1\n");
    assert!(emits.is_empty());

    let (emit, update) = filter.on_read_console(true);
    assert!(emit.is_none());
    assert!(update.is_some());
}

#[test]
fn test_exiting_from_passes_through() {
    // "exiting from:" is no longer filtered, it passes through immediately.
    let mut filter = ConsoleFilter::new();
    filter.set_debugging(true);
    let emits = filter.feed("exiting from: f()\n");
    assert_eq!(collect_emitted(&emits), "exiting from: f()\n");
}

#[test]
fn test_debugging_in_passes_through() {
    // "debugging in:" is no longer filtered, it passes through immediately.
    let mut filter = ConsoleFilter::new();
    filter.set_debugging(true);
    let emits = filter.feed("debugging in: f()\n");
    assert_eq!(collect_emitted(&emits), "debugging in: f()\n");
}

#[test]
fn test_suppress_false_emits_and_extracts() {
    // With suppress disabled, debug output is emitted but debug info
    // is still extracted for auto-stepping.
    let mut filter = ConsoleFilter::new();
    filter.set_suppress(false);
    filter.set_debugging(true);
    let emits = filter.feed("debug at file.R#10: x <- 1\n");
    assert!(emits.is_empty());

    let (emit, update) = filter.on_read_console(true);
    assert_eq!(emit.unwrap(), "debug at file.R#10: x <- 1\n");
    assert!(update.is_some());
}

#[test]
fn test_suppress_false_entry_exit_passes_through() {
    // "exiting from:" is no longer filtered regardless of suppress flag.
    let mut filter = ConsoleFilter::new();
    filter.set_suppress(false);
    filter.set_debugging(true);
    let emits = filter.feed("exiting from: f()\n");
    assert_eq!(collect_emitted(&emits), "exiting from: f()\n");
}

#[test]
fn test_suppress_false_non_debug_still_emits() {
    // Non-debug output at top level: emitted regardless of suppress flag.
    let mut filter = ConsoleFilter::new();
    filter.set_suppress(false);
    let emits = filter.feed("Called from: user output\n");
    assert!(emits.is_empty());

    let (emit, update) = filter.on_read_console(false);
    assert_eq!(emit.unwrap(), "Called from: user output\n");
    assert!(update.is_none());
}

#[test]
fn test_filtering_accumulates_across_feeds() {
    let mut filter = ConsoleFilter::new();
    let emits = filter.feed("Called from: ");
    assert!(emits.is_empty());

    let emits = filter.feed("some ");
    assert!(emits.is_empty());
    let emits = filter.feed("more content\n");
    assert!(emits.is_empty());

    let (emit, _) = filter.on_read_console(false);
    assert_eq!(emit.unwrap(), "Called from: some more content\n");
}

// --- `strip_step_lines` tests (browser-only path) ---

#[test]
fn test_strip_step_at_first_debug_prefix() {
    let mut text = String::from(
        "[1] 42\n\
         normal output\n\
         debug at file.R#1: x <- 1\n\
         [1] 42\n\
         Called from: top level\n",
    );
    strip_step_lines(&mut text);
    assert_eq!(text, "[1] 42\nnormal output\n");
}

#[test]
fn test_strip_step_multiline_printvalue() {
    let mut text = String::from(
        "debug at #2: [1] 1 2 3\n\
         [4] 4 5 6\n",
    );
    strip_step_lines(&mut text);
    assert_eq!(text, "");
}

#[test]
fn test_strip_step_empty() {
    let mut text = String::new();
    strip_step_lines(&mut text);
    assert_eq!(text, "");
}

#[test]
fn test_strip_step_no_prefixes() {
    let mut text = String::from("[1] 42\nhello\n");
    strip_step_lines(&mut text);
    assert_eq!(text, "[1] 42\nhello\n");
}

#[test]
fn capture_extracts_the_expression() {
    assert!(matches!(
        finalize_capture(MatchedPattern::DebugAt, "file.R#10: x <- 1\n"),
        Some(DebugCallTextUpdate::Finalized(t, DebugCallTextKind::DebugAt)) if t == "x <- 1\n"
    ));
    assert!(matches!(
        finalize_capture(MatchedPattern::Debug, "x + 1\n"),
        Some(DebugCallTextUpdate::Finalized(t, DebugCallTextKind::Debug)) if t == "x + 1\n"
    ));
    assert!(finalize_capture(MatchedPattern::CalledFrom, "top level\n").is_none());
}

#[test]
fn what_is_not_suppressed_is_emitted_in_order() {
    let mut filter = ConsoleFilter::new();
    let mut out: String = filter.feed("one\ntwo\nCalled from: three\nfour").concat();
    let (emit, _) = filter.on_read_console(false);
    out.push_str(&emit.unwrap_or_default());
    assert_eq!(out, "one\ntwo\nCalled from: three\nfour");
}

#[test]
fn expiry_is_later_than_the_timeout() {
    let mut filter = ConsoleFilter::new_with_timeout(50);
    assert!(!filter.is_expired(u128::MAX));
    filter.feed("debug: ");
    assert!(!filter.is_expired(50_000_000));
    assert!(filter.is_expired(50_000_001));
    assert_eq!(filter.drain_on_timeout(50_000_000), None);
    assert_eq!(filter.drain_on_timeout(50_000_001), Some("debug: ".to_string()));
    assert_eq!(filter.flush(), None);
}

#[test]
fn a_flush_in_mid_line_starts_no_line() {
    let mut filter = ConsoleFilter::new();
    assert_eq!(filter.feed("abc"), vec!["abc"]);
    assert_eq!(filter.flush(), None);
    assert_eq!(filter.feed("debug: x\n"), vec!["debug: x\n"]);
}

#[test]
fn user_output_with_two_prefixes_is_emitted_whole() {
    let mut filter = ConsoleFilter::new();
    assert!(filter.feed("debug: a\n").is_empty());
    assert!(filter.feed("debug: b\n").is_empty());
    let (emit, update) = filter.on_read_console(false);
    assert_eq!(emit.as_deref(), Some("debug: a\ndebug: b\n"));
    assert!(update.is_none());

    filter.feed("Called from: f()\n");
    filter.feed("debug: ");
    filter.feed("x\n");
    let (emit, update) = filter.on_read_console(true);
    assert!(emit.is_none());
    assert!(matches!(
        update,
        Some(DebugCallTextUpdate::Finalized(t, DebugCallTextKind::Debug)) if t == "x\n"
    ));
}

#[test]
fn offsets_are_counted_in_bytes() {
    assert_eq!(find_debug_at_expression_start("é#5: x"), Some(6));
    let mut filter = ConsoleFilter::new();
    assert_eq!(filter.process_chunk("é\nab", 0), (Some("é\n".to_string()), 3));
    assert_eq!(filter.process_chunk("debug: é", 0), (None, 7));
    assert_eq!(filter.process_chunk("é", 0), (None, 2));
    assert_eq!(
        filter.process_chunk("later", u128::MAX),
        (Some("debug: é".to_string()), 0)
    );
}

#[test]
fn the_time_counts_from_the_first_prefix() {
    let mut filter = ConsoleFilter::new_with_timeout(1);
    filter.feed("debug: a\n");
    wait();
    filter.set_debugging(true);
    filter.set_suppress(false);
    assert_eq!(filter.check_timeout().as_deref(), Some("debug: a\n"));
}
