use std::collections::HashMap;

use ark::console::annotate::{Expr, Piece, RCode};
use ark::console::breakpoint::{
    ark_debug_uri, debug_path, eval_condition, eval_log_message, is_ark_debug_path, BreakpointRules, Next,
    Visit,
};
use ark::console::call_text::{CallTextState, DebugCallText};
use ark::console::console_debug::{
    as_frame_info, get_show_hidden_frames, remove_condition_handling_frames, DebugStart,
    DebugState, DebugStoppedReason, FrameSource, RFrame, ShowHiddenFrames, StackQuery,
};
use ark::console::console_filter::DebugCallTextKind;
use ark::console::ps_debug::{
    ps_annotate_source, ps_debug_set_stopped_reason, ps_debug_set_stopped_reason_pause,
    ps_debug_should_break_on_condition, ps_is_breakpoint_enabled, ps_is_interrupting_for_debugger,
    ps_verify_breakpoint, ps_verify_breakpoints, ps_verify_breakpoints_range, AnnotateSourceError,
    Srcref,
};
use ark::dap::breakpoints::{Breakpoint, BreakpointState};
use ark::dap::dap::{Dap, DapBackendEvent, DapExceptionEvent, DocumentBreakpoints, EvalError};
use ark::dap::dap_event_loop::{
    on_outgoing, read_chunk, written, DapEventLoop, IoErrorKind, LoopEvent, LoopFault, LoopStep,
    OutgoingStep, CHANNEL_TOKEN, TCP_TOKEN,
};
use ark::dap::dap_jupyter_handler::{
    handle_console_event, ConsoleEvent, DapJupyterHandler, JupyterBody, JupyterStep,
};
use ark::dap::dap_r_main::RMainDap;
use ark::dap::dap_server::{
    breakpoints_uri, client_connected, client_disconnected, handle_set_breakpoints, handle_variables,
    listen_dap_events, serve, Action, Command, DebugRequest, Event, Handled, Listened, Reply,
    ResponseBody, Step, StoppedReason, THREAD_ID,
};
use ark::dap::dap_variables::RVariable;
use ark::r_object::RObject;

fn r_frame(name: &str, line: i32) -> RFrame {
    RFrame {
        source_name: "a.R".to_string(),
        frame_name: name.to_string(),
        file: Some("/a.R".to_string()),
        text: None,
        environment: Some(RObject { address: 100 + line as u64 }),
        start_line: line,
        start_column: 1,
        end_line: line,
        end_column: 4,
    }
}

fn handled(dap: &mut Dap, command: Command) -> Handled {
    match serve(dap, command) {
        Step::Handled(h) => h,
        other => panic!("{other:?}"),
    }
}

#[test]
fn requests_of_the_client_are_handled() {
    let mut dap = Dap::new();
    let h = handled(&mut dap, Command::Initialize);
    assert_eq!(h.events, vec![Event::Initialized]);
    assert!(matches!(h.reply, Reply::Success(ResponseBody::Initialize(c)) if c.supports_restart_request));
    let h = handled(&mut dap, Command::Attach);
    assert_eq!(h.events, vec![Event::ThreadStarted { thread_id: THREAD_ID }]);
    let h = handled(&mut dap, Command::Threads);
    assert!(matches!(h.reply, Reply::Success(ResponseBody::Threads(t)) if t[0].name == "R console"));
    let h = handled(&mut dap, Command::Other);
    assert_eq!(h.reply, Reply::Error("Ark DAP: Unknown request".to_string()));
    let h = handled(&mut dap, Command::SetBreakpoints { path: None, lines: None });
    assert_eq!(h.reply, Reply::Error("Missing a path to set breakpoints for".to_string()));
    let step =
        serve(&mut dap, Command::SetBreakpoints { path: Some("/a.R".to_string()), lines: None });
    assert!(matches!(step, Step::ReadDocument { path, lines } if path == "/a.R" && lines.is_empty()));
    let h = handled(&mut dap, Command::Restart);
    assert!(h.actions.is_empty());
    let h = handled(&mut dap, Command::Disconnect);
    assert!(h.actions.is_empty());
}

#[test]
fn steps_go_through_the_frontend_if_there_is_one() {
    let mut dap = Dap::new();
    dap.is_debugging = true;
    for (command, request) in [
        (Command::Continue, DebugRequest::Continue),
        (Command::Next, DebugRequest::Next),
        (Command::StepIn, DebugRequest::StepIn),
        (Command::StepOut, DebugRequest::StepOut),
        (Command::Disconnect, DebugRequest::Quit),
    ] {
        assert_eq!(handled(&mut dap, command).actions, vec![Action::ExecuteInConsole(request)]);
    }
    dap.has_comm = true;
    assert_eq!(
        handled(&mut dap, Command::Next).actions,
        vec![Action::ExecuteInFrontend(DebugRequest::Next)]
    );
    assert_eq!(handled(&mut dap, Command::Restart).actions, vec![Action::Restart]);
    assert_eq!(handled(&mut dap, Command::Pause).actions, vec![Action::Interrupt]);
    assert!(ps_is_interrupting_for_debugger(&mut dap));
    assert!(!ps_is_interrupting_for_debugger(&mut dap));
}

#[test]
fn the_stack_is_shown_by_frames() {
    let mut main = RMainDap::new();
    assert_eq!(main.r_stack_info(), Some(StackQuery { call_text: None, last_line: None }));
    let stack = main.stack_info(vec![r_frame("outer()", 2), r_frame("inner()", 7)]).unwrap();
    assert_eq!(stack[0].frame_name, "inner()");
    assert_eq!((stack[0].id, stack[1].id), (0, 1));
    assert_eq!(stack[0].end_column, 5);
    assert_eq!(main.r_stack_info().unwrap().last_line, Some(7));

    let mut dap = Dap::new();
    dap.start_debug(stack, vec![], DebugStoppedReason::Step, RObject { address: 1 });
    let h = handled(&mut dap, Command::StackTrace { start_frame: None, levels: None });
    let Reply::Success(ResponseBody::StackTrace { stack_frames, total_frames }) = h.reply else {
        panic!("no stack")
    };
    assert_eq!(total_frames, 2);
    assert_eq!(stack_frames[0].name, "inner()");
    assert_eq!(stack_frames[0].path, Some("/a.R".to_string()));
    let h = handled(&mut dap, Command::StackTrace { start_frame: Some(1), levels: Some(1) });
    assert!(matches!(
        h.reply,
        Reply::Success(ResponseBody::StackTrace { stack_frames, .. })
            if stack_frames.len() == 1 && stack_frames[0].name == "outer()"
    ));

    let h = handled(&mut dap, Command::Scopes { frame_id: 0 });
    let Reply::Success(ResponseBody::Scopes(scopes)) = h.reply else { panic!("no scopes") };
    assert_eq!(scopes[0].variables_reference, 1);
    let step = serve(&mut dap, Command::Variables { variables_reference: 1 });
    assert!(matches!(step, Step::CollectVariables(Some(x)) if x.address == 107));
    let reply = handle_variables(&mut dap, vec![RVariable {
        name: "l".to_string(),
        value: "<list>".to_string(),
        type_field: None,
        variables_reference_object: Some(RObject { address: 9 }),
    }]);
    let Reply::Success(ResponseBody::Variables(shown)) = reply else { panic!("no variables") };
    assert_eq!(shown[0].variables_reference, 3);
    assert_eq!(dap.get_frame_env(Some(0), RObject { address: 1 }), Ok(RObject { address: 107 }));
    assert!(dap.get_frame_env(Some(5), RObject { address: 1 }).is_err());
    assert_eq!(dap.get_frame_env(None, RObject { address: 1 }), Ok(RObject { address: 1 }));

    dap.stop_debug();
    assert!(!dap.is_debugging && dap.stack.is_none());
}

#[test]
fn frames_need_a_source() {
    let mut frame = r_frame("f()", 1);
    frame.file = None;
    assert_eq!(
        as_frame_info(frame, 0).unwrap_err(),
        "Expected either `file` or `text` to be non-`NULL`."
    );
    let mut frame = r_frame("f()", 1);
    frame.text = Some("x".to_string());
    assert_eq!(as_frame_info(frame, 0).unwrap().source, FrameSource::Text("x".to_string()));
}

#[test]
fn breakpoints_are_set_for_documents() {
    let mut dap = Dap::new();
    let reply = handle_set_breakpoints(
        &mut dap,
        "/a.R",
        &vec![3],
        Some("file:///a.R".to_string()),
        Some("x".to_string()),
    );
    assert!(matches!(
        reply,
        Reply::Success(ResponseBody::SetBreakpoints(b)) if b.len() == 1 && b[0].line == 3
    ));
    assert_eq!(
        handle_set_breakpoints(&mut dap, "a.R", &vec![3], None, None),
        Reply::Success(ResponseBody::SetBreakpoints(vec![]))
    );
    let unread =
        handle_set_breakpoints(&mut dap, "/a.R", &vec![3], Some("file:///a.R".to_string()), None);
    assert_eq!(unread, Reply::Error("Failed to read file: /a.R".to_string()));
}

#[test]
fn events_of_the_debugger_reach_the_client() {
    let event = |event| {
        listen_dap_events(Listened::Event { event, preserve_focus: true }).unwrap()
    };
    assert_eq!(event(DapBackendEvent::Terminated), Event::Terminated);
    assert_eq!(event(DapBackendEvent::Invalidated), Event::Invalidated);
    assert!(matches!(event(DapBackendEvent::Continued), Event::Continued { .. }));
    assert!(matches!(
        event(DapBackendEvent::Stopped),
        Event::Stopped { reason: StoppedReason::Step, preserve_focus_hint: true, .. }
    ));
    let exception = DapExceptionEvent { class: "error".to_string(), message: "oh".to_string() };
    assert!(matches!(
        event(DapBackendEvent::Exception(exception)),
        Event::Stopped { text: Some(t), description: Some(d), .. } if t == "<error> oh" && d == "oh"
    ));
    let state = DapBackendEvent::BreakpointState { id: 1, line: 4, verified: true, message: None };
    assert!(matches!(event(state), Event::BreakpointChanged { line: 5, .. }));
    assert!(listen_dap_events(Listened::Done).is_none());
    assert!(listen_dap_events(Listened::ChannelClosed).is_none());
}

#[test]
fn clients_come_and_go() {
    let mut dap = Dap::new();
    client_connected(&mut dap);
    assert!(dap.is_connected && dap.has_client);
    client_disconnected(&mut dap);
    assert!(!dap.is_connected && dap.has_client);
}

#[test]
fn evaluations_show_what_was_printed() {
    let value = || RVariable {
        name: "x".to_string(),
        value: "1L".to_string(),
        type_field: None,
        variables_reference_object: None,
    };
    assert_eq!(Dap::evaluate(None, Ok(value())).unwrap().value, "1L");
    assert_eq!(Dap::evaluate(Some("[1] 1\n".to_string()), Ok(value())).unwrap().value, "[1] 1");
    let failed = EvalError::Signalled { message: "oh".to_string() };
    assert_eq!(Dap::evaluate(None, Err(failed)).unwrap_err(), "oh");
}

fn visit(condition: Option<&str>, hits: Option<&str>, log: Option<&str>) -> Visit {
    let own = |x: Option<&str>| x.map(|t| t.to_string());
    Visit {
        uri: "file:///a.R".to_string(),
        line: 2,
        rules: BreakpointRules {
            condition: own(condition),
            hit_condition: own(hits),
            log_message: own(log),
        },
        hit_count: 0,
    }
}

#[test]
fn breakpoints_stop_by_their_rules() {
    assert!(matches!(visit(None, None, None).ps_handle_breakpoint(true), (None, Next::Decided(true))));
    assert!(matches!(visit(None, None, None).ps_handle_breakpoint(false), (None, Next::Decided(false))));

    let mut twice = visit(None, Some(" 2 "), None);
    assert!(matches!(twice.ps_handle_breakpoint(true), (None, Next::Decided(false))));
    assert!(matches!(twice.ps_handle_breakpoint(true), (None, Next::Decided(true))));

    let (printed, next) = visit(None, Some("x"), None).ps_handle_breakpoint(true);
    assert!(printed.unwrap().contains(
        "Error: Expected a positive integer, invalid digit found in string"
    ));
    assert!(matches!(next, Next::Decided(true)));

    let mut guarded = visit(Some("x > 1"), None, None);
    let (_, next) = guarded.ps_handle_breakpoint(true);
    assert!(matches!(next, Next::EvalCondition(c) if c == "if ({ x > 1 }) TRUE else FALSE"));
    assert!(matches!(guarded.after_condition(Ok(false), ""), (None, None, Next::Decided(false))));
    assert!(matches!(guarded.after_condition(Ok(true), ""), (None, None, Next::Decided(true))));
    let (printed, _, next) = guarded.after_condition(Err("no x".to_string()), "");
    assert!(printed.unwrap().contains("Code: `x > 1`"));
    assert!(matches!(next, Next::Decided(true)));

    let mut logged = visit(None, None, Some("x is {x}"));
    let (_, next) = logged.ps_handle_breakpoint(true);
    assert!(matches!(next, Next::EvalLogMessage(t) if t == "x is {x}"));
    let (printed, stop) = logged.after_log_message(Ok("x is 1".to_string()), "");
    assert!(printed.unwrap().contains("x is 1"));
    assert!(matches!(stop, Next::Decided(false)));
}

#[test]
fn conditions_that_fail_stop() {
    assert_eq!(eval_condition(Ok(false)), (false, None));
    let (stop, message) = eval_condition(Err("no".to_string()));
    assert!(stop && message.unwrap().contains("no"));
    assert_eq!(eval_log_message(Ok("a".to_string())), "a");
    assert_eq!(eval_log_message(Err("a".to_string())), "Error: a");
}

#[test]
fn debug_documents_have_uris() {
    assert_eq!(debug_path(3, 255, "f.R"), "debug/session3/ff/f.R");
    let uri = ark_debug_uri(3, "f.R", "x + 1");
    assert!(uri.starts_with("debug/session3/") && uri.ends_with("/f.R"));
    assert_eq!(ark_debug_uri(3, "f.R", "x + 1"), uri);
    assert_ne!(ark_debug_uri(3, "f.R", "x + 2"), uri);
    assert!(is_ark_debug_path("ark-42/debug/session1/ab/f.R"));
    assert!(!is_ark_debug_path("ark-x/debug/session1/ab/f.R"));
    assert!(!is_ark_debug_path("other/ark-42/debug/"));
}

#[test]
fn the_call_is_read_from_the_output() {
    let mut state = CallTextState {
        call_text: DebugCallText::Unknown,
        last_line: Some(4),
        jit_level: Some(3),
    };
    state.debug_handle_write_console("debug: ");
    state.debug_handle_write_console("x +");
    state.debug_handle_write_console(" 1\n");
    assert_eq!(state.debug_handle_read_console(), Some(3));
    assert!(matches!(
        &state.call_text,
        DebugCallText::Finalized(t, DebugCallTextKind::Debug) if t == "x + 1\n"
    ));
    assert_eq!(state.debug_handle_read_console(), None);

    let mut main = RMainDap::new();
    main.handle_stdout("debug: ");
    main.handle_stdout("x\n");
    assert_eq!(main.context_call_text(), None);
    main.finalize_call_text();
    assert_eq!(main.context_call_text(), Some(&"x\n".to_string()));
    main.start_debug();
    assert!(main.is_debugging());
    assert_eq!(main.next_frame_id(), 0);
    main.stop_debug();
    assert_eq!(main.next_frame_id(), 0);
}

#[test]
fn a_transient_evaluation_only_refreshes() {
    let mut state = DebugState::new();
    let show = || ShowHiddenFrames { fenced: true, internal: true };
    let stack = state.debug_stack_info(vec![r_frame("f()", 3)]).unwrap();
    let start = state.debug_start(stack, false, show(), &DebugStoppedReason::Step);
    assert!(matches!(start, DebugStart::Start { stop_first: false, stack } if stack.len() == 1));
    let stack = state.debug_stack_info(vec![r_frame("f()", 3)]).unwrap();
    let start = state.debug_start(stack, true, show(), &DebugStoppedReason::Step);
    assert!(matches!(start, DebugStart::Refresh));
    let stack = state.debug_stack_info(vec![r_frame("f()", 4)]).unwrap();
    let start = state.debug_start(stack, true, show(), &DebugStoppedReason::Step);
    assert!(matches!(start, DebugStart::Start { .. }));
    state.is_debugging = true;
    state.transient_eval = true;
    assert!(!state.debug_stop());
    state.transient_eval = false;
    assert!(state.debug_stop());
    assert!(!state.is_debugging);

    ps_debug_set_stopped_reason(&mut state, "error".to_string(), "oh".to_string());
    assert!(matches!(&state.stopped_reason, Some(DebugStoppedReason::Condition { class, .. }) if class == "error"));
    ps_debug_set_stopped_reason_pause(&mut state);
    assert!(matches!(state.stopped_reason, Some(DebugStoppedReason::Pause)));
    state.last_line = Some(i64::MAX);
    assert_eq!(state.debug_r_stack_info(), None);
}

#[test]
fn condition_handling_is_hidden() {
    let shown = get_show_hidden_frames(Some(vec!["internal".to_string()]));
    assert!(shown.internal && !shown.fenced);
    let shown = get_show_hidden_frames(None);
    assert!(!shown.internal && !shown.fenced);
    let mut state = DebugState::new();
    let mut stack = state
        .debug_stack_info(vec![
            r_frame("f()", 1),
            r_frame(".handleSimpleError()", 2),
            r_frame("h(simpleError(msg, call))", 3),
        ])
        .unwrap();
    let reason =
        DebugStoppedReason::Condition { class: "error".to_string(), message: "oh".to_string() };
    remove_condition_handling_frames(&mut stack, &reason);
    assert_eq!(stack.len(), 1);
    assert_eq!(stack[0].frame_name, "f()");
}

fn with_breakpoint(state: BreakpointState) -> Dap {
    let mut dap = Dap::new();
    dap.has_client = true;
    dap.breakpoints.insert("file:///a.R".to_string(), DocumentBreakpoints {
        hash: vec![],
        breakpoints: vec![Breakpoint::new(1, 3, state)],
    });
    dap
}

#[test]
fn r_asks_by_uri() {
    let mut dap = with_breakpoint(BreakpointState::Unverified);
    assert_eq!(ps_is_breakpoint_enabled(&dap, "no uri", "1"), None);
    assert!(ps_verify_breakpoint(&mut dap, "no uri", "1").is_none());
    assert!(ps_verify_breakpoint(&mut dap, "file:///a.R", "1").is_some());
    assert_eq!(ps_is_breakpoint_enabled(&dap, "FILE:///a.R", "1"), Some(true));
    assert_eq!(ps_is_breakpoint_enabled(&dap, "file:///b.R", "1"), Some(false));

    dap.exception_breakpoint_filters = vec!["error".to_string()];
    assert!(ps_debug_should_break_on_condition(&dap, "error"));
    assert!(!ps_debug_should_break_on_condition(&dap, "warning"));
}

#[test]
fn evaluated_lines_verify_breakpoints() {
    let injected = || {
        let mut dap = with_breakpoint(BreakpointState::Unverified);
        let mut document = dap.breakpoints.remove("file:///a.R").unwrap();
        document.breakpoints[0].injected = true;
        dap.breakpoints.insert("file:///a.R".to_string(), document);
        dap
    };
    assert_eq!(ps_verify_breakpoints_range(&mut injected(), "file:///a.R", 0, 9).len(), 1);
    assert_eq!(ps_verify_breakpoints_range(&mut injected(), "no uri", 0, 9).len(), 0);
    let place = |name: &str| {
        Some(Srcref { filename: Some(name.to_string()), start: 0, end: 9 })
    };
    assert_eq!(ps_verify_breakpoints(&mut injected(), place("file:///a.R")).len(), 1);
    assert_eq!(ps_verify_breakpoints(&mut injected(), place("/a.R")).len(), 0);
    assert_eq!(ps_verify_breakpoints(&mut injected(), None).len(), 0);
}

#[test]
fn sources_without_breakpoints_stay_as_they_are() {
    let code = || RCode {
        exprs: vec![Expr {
            leading: vec![],
            body: vec![Piece::Text("{\nx\n}".to_string())],
            start: 0,
            end: 3,
        }],
        tail: String::new(),
    };
    let mut dap = with_breakpoint(BreakpointState::Unverified);
    assert_eq!(ps_annotate_source(&mut dap, "file:///b.R", "x", &code()), Ok(None));
    assert_eq!(
        ps_annotate_source(&mut dap, "no uri", "x", &code()),
        Err(AnnotateSourceError::InvalidUri)
    );
    let annotated = ps_annotate_source(&mut dap, "file:///a.R", "x", &code()).unwrap().unwrap();
    assert!(annotated.contains(".ark_verify_breakpoints_range(\"file:///a.R\", 1L, 2L)"));
    assert!(matches!(
        dap.breakpoints.get("file:///a.R").unwrap().breakpoints[0].state,
        BreakpointState::Invalid(_)
    ));
}

#[test]
fn notebooks_are_told_how_cells_are_found() {
    let mut handler = DapJupyterHandler::new("/tmp/ark/".to_string());
    let dap = with_breakpoint(BreakpointState::Unverified);
    let rules = HashMap::new();
    let step = handler.handle(Some(5), Some("dumpCell"), Some("1"), &dap, &rules);
    let JupyterStep::Write { request_seq, path } = step else { panic!("no cell") };
    assert!(path.starts_with("/tmp/ark/"));
    let response = handler.cell_dumped(request_seq, path.clone(), Ok(()));
    assert_eq!((response.seq, response.request_seq), (1, 5));
    assert_eq!(response.outcome, Ok(JupyterBody::SourcePath(path)));

    let step = handler.handle(None, Some("dumpCell"), None, &dap, &rules);
    assert!(matches!(
        step,
        JupyterStep::Respond(r) if r.outcome == Err("Missing `code` in dumpCell arguments".to_string())
    ));
    let step = handler.handle(Some(6), Some("debugInfo"), None, &dap, &rules);
    let JupyterStep::Respond(r) = step else { panic!("no info") };
    let Ok(JupyterBody::DebugInfo(info)) = r.outcome else { panic!("no info") };
    assert_eq!(info.hash_method, "Murmur2");
    assert_eq!(info.breakpoints[0].source, "/a.R");
    assert_eq!(info.breakpoints[0].breakpoints[0].line, 4);
    let step = handler.handle(Some(6), Some("configurationDone"), None, &dap, &rules);
    assert!(matches!(step, JupyterStep::Respond(r) if r.outcome == Ok(JupyterBody::Empty)));
    assert_eq!(
        handler.handle(None, Some("threads"), None, &dap, &rules),
        JupyterStep::Dispatch { request_seq: 0, command: "threads".to_string() }
    );
    assert_eq!(
        handler.handle(Some(2), None, None, &dap, &rules),
        JupyterStep::Dispatch { request_seq: 2, command: "unknown".to_string() }
    );
    assert_eq!(
        handler.handle_unreadable(9, "x", "why").outcome,
        Err("Failed to parse request: why".to_string())
    );
    assert_eq!(
        handle_console_event(Action::ExecuteInFrontend(DebugRequest::Quit)),
        ConsoleEvent::SendCommand(DebugRequest::Quit)
    );
    assert_eq!(handle_console_event(Action::Restart), ConsoleEvent::NoRestart);
}

#[test]
fn bytes_are_forwarded_until_the_client_leaves() {
    let l = DapEventLoop { dap_outgoing_id: 3 };
    let ready = |token, announced| l.event_loop(LoopEvent::Ready { token, announced });
    assert_eq!(ready(CHANNEL_TOKEN, None), LoopStep::Wait);
    assert_eq!(ready(CHANNEL_TOKEN, Some(3)), LoopStep::Receive);
    assert_eq!(ready(CHANNEL_TOKEN, Some(4)), LoopStep::Tell(LoopFault::UnknownId(4)));
    assert_eq!(ready(TCP_TOKEN, None), LoopStep::Read);
    assert_eq!(ready(9, None), LoopStep::Tell(LoopFault::UnknownToken(9)));
    assert_eq!(
        l.event_loop(LoopEvent::PollFailed(IoErrorKind::Other)),
        LoopStep::End(Err(IoErrorKind::Other))
    );
    assert_eq!(
        l.event_loop(LoopEvent::Received(Some(vec![1, 2]))),
        LoopStep::Write(vec![1, 2])
    );
    assert_eq!(l.event_loop(LoopEvent::Received(None)), LoopStep::End(Ok(())));
    assert_eq!(l.event_loop(LoopEvent::Written(Ok(()))), LoopStep::Wait);
    assert_eq!(
        l.event_loop(LoopEvent::Written(Err(IoErrorKind::WouldBlock))),
        LoopStep::End(Err(IoErrorKind::WouldBlock))
    );
    let read = |outcome| l.event_loop(LoopEvent::Read(outcome));
    assert_eq!(read(Ok(vec![])), LoopStep::End(Ok(())));
    assert_eq!(read(Ok(vec![7; 12])), LoopStep::Forward(vec![7; 12]));
    assert_eq!(read(Err(IoErrorKind::WouldBlock)), LoopStep::Wait);
    assert_eq!(read(Err(IoErrorKind::Interrupted)), LoopStep::Read);
    assert_eq!(read(Err(IoErrorKind::Other)), LoopStep::Tell(LoopFault::ReadFailed));
    assert_eq!(l.event_loop(LoopEvent::Forwarded { sent: true }), LoopStep::Wait);
    assert_eq!(
        l.event_loop(LoopEvent::Forwarded { sent: false }),
        LoopStep::Tell(LoopFault::ForwardFailed)
    );
    let mut buf = vec![0u8; 3];
    assert_eq!(read_chunk(Some(&vec![7, 8]), &mut buf), 2);
    assert_eq!(buf, vec![7, 8, 0]);
    assert_eq!(read_chunk(Some(&vec![1, 2, 3, 4]), &mut buf), 3);
    assert_eq!(read_chunk(None, &mut buf), 0);
    assert_eq!((written(true, 5), written(false, 5)), (5, 0));
}

#[test]
fn a_run_of_the_loop_forwards_each_chunk_once() {
    let l = DapEventLoop { dap_outgoing_id: 1 };
    let outgoing = vec![vec![1u8, 2], vec![3]];
    let mut written = Vec::new();
    for chunk in &outgoing {
        let ready = LoopEvent::Ready { token: CHANNEL_TOKEN, announced: Some(1) };
        assert_eq!(l.event_loop(ready), LoopStep::Receive);
        let LoopStep::Write(bytes) = l.event_loop(LoopEvent::Received(Some(chunk.clone()))) else {
            panic!("nothing to write")
        };
        written.extend(bytes);
        assert_eq!(l.event_loop(LoopEvent::Written(Ok(()))), LoopStep::Wait);
    }
    assert_eq!(written, vec![1, 2, 3]);
    assert_eq!(on_outgoing(None), OutgoingStep::Close);
    assert_eq!(on_outgoing(Some(vec![4])), OutgoingStep::Write(vec![4]));
}

#[test]
fn breakpoints_are_kept_by_the_uri_of_their_file() {
    assert_eq!(breakpoints_uri("/tmp/a b.R").as_deref(), Some("file:///tmp/a%20b.R"));
    assert_eq!(breakpoints_uri("a.R"), None);
}

#[test]
fn frames_get_ids_up_to_the_first_without_a_source() {
    let mut nowhere = r_frame("nowhere()", 1);
    nowhere.file = None;
    nowhere.text = None;
    let mut main = RMainDap::new();
    let infos = vec![r_frame("outer()", 1), nowhere, r_frame("a()", 2), r_frame("b()", 3)];
    assert!(main.stack_info(infos).is_err());
    assert_eq!(main.next_frame_id(), 2);
}
