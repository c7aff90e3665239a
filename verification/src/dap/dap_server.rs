//! The requests of the debug adapter's client.
//!
//! A request is handled by a function from the state of the debugger and the
//! request to the next state and what is to be done: actions first, then the
//! reply, then events.
use vstd::prelude::*;

use crate::console::console_debug::{is_frame, FrameInfo, FrameSource, RFrame};
use crate::dap::breakpoints::Breakpoint;
use crate::dap::dap::{
    blake3_hash, frame_objects, frame_references, law_frames_have_own_variables, reference_of,
    spec_document_hash, structured, with_variable_objects, Dap, DapBackendEvent,
    ReplyBreakpoint, Variable,
};
use crate::dap::dap_variables::RVariable;
use crate::r_object::RObject;
use crate::text;
use crate::text_map::TextMap;
use crate::urls;

verus! {

broadcast use vstd::std_specs::hash::group_hash_axioms;

/// The one thread that the debugger shows.
pub const THREAD_ID: i64 = -1;

/// Commands that resume R in the debugger.
#[derive(Debug, Clone, Copy, PartialEq, Eq, Structural)]
pub enum DebugRequest {
    Continue,
    Next,
    StepIn,
    StepOut,
    Quit,
}

/// A request of the client, as far as its handling depends on it.
#[derive(Debug)]
pub enum Command {
    Initialize,
    Attach,
    Disconnect,
    Restart,
    Threads,
    SetBreakpoints { path: Option<String>, lines: Option<Vec<i64>> },
    SetExceptionBreakpoints { filters: Vec<String> },
    StackTrace { start_frame: Option<i64>, levels: Option<i64> },
    Source,
    Scopes { frame_id: i64 },
    Variables { variables_reference: i64 },
    Continue,
    Next,
    StepIn,
    StepOut,
    Pause,
    /// A request that is not supported.
    Other,
}

/// A kind of exception breakpoints that the client can enable.
#[derive(Debug, PartialEq, Eq)]
pub struct ExceptionFilter {
    pub filter: &'static str,
    pub label: &'static str,
    pub description: &'static str,
    pub default: bool,
    pub supports_condition: bool,
}

/// What the debug adapter can do.
#[derive(Debug, PartialEq, Eq)]
pub struct Capabilities {
    pub supports_restart_request: bool,
    pub supports_exception_info_request: bool,
    pub exception_breakpoint_filters: Vec<ExceptionFilter>,
}

/// A frame of the call stack, as the protocol shows it.
#[derive(Debug, PartialEq, Eq)]
pub struct StackFrame {
    pub id: i64,
    pub name: String,
    pub source_name: String,
    /// The path of the source. For a source without a file it is the reference
    /// of a virtual document.
    pub path: Option<String>,
    pub line: i64,
    pub column: i64,
    pub end_line: i64,
    pub end_column: i64,
}

/// A scope of a frame.
#[derive(Debug, PartialEq, Eq)]
pub struct Scope {
    pub name: &'static str,
    pub variables_reference: i64,
    pub expensive: bool,
}

#[derive(Debug, PartialEq, Eq)]
pub struct ThreadInfo {
    pub id: i64,
    pub name: &'static str,
}

#[derive(Debug, PartialEq, Eq)]
pub enum ResponseBody {
    Initialize(Capabilities),
    Attach,
    Disconnect,
    Restart,
    Threads(Vec<ThreadInfo>),
    SetBreakpoints(Vec<ReplyBreakpoint>),
    SetExceptionBreakpoints,
    StackTrace { stack_frames: Vec<StackFrame>, total_frames: i64 },
    Scopes(Vec<Scope>),
    Variables(Vec<Variable>),
    Continue { all_threads_continued: bool },
    Next,
    StepIn,
    StepOut,
    Pause,
}

/// The reply to a request.
#[derive(Debug, PartialEq, Eq)]
pub enum Reply {
    Success(ResponseBody),
    Error(String),
}

#[derive(Debug, Clone, Copy, PartialEq, Eq, Structural)]
pub enum StoppedReason {
    Step,
    Exception,
}

/// An event for the client.
#[derive(Debug, PartialEq, Eq)]
pub enum Event {
    Initialized,
    ThreadStarted { thread_id: i64 },
    Continued { thread_id: i64, all_threads_continued: bool },
    Stopped {
        reason: StoppedReason,
        description: Option<String>,
        thread_id: i64,
        preserve_focus_hint: bool,
        text: Option<String>,
        all_threads_stopped: bool,
    },
    Terminated,
    Invalidated,
    BreakpointChanged { id: i64, line: i64, verified: bool, message: Option<String> },
}

/// Something to do before the reply is sent.
#[derive(Debug, Clone, Copy, PartialEq, Eq, Structural)]
pub enum Action {
    /// Ask the frontend to execute a debug command, as if the user had typed it.
    ExecuteInFrontend(DebugRequest),
    /// Send a debug command to R's console.
    ExecuteInConsole(DebugRequest),
    /// Ask the frontend to restart R.
    Restart,
    /// Interrupt R.
    Interrupt,
}

/// How a request is handled.
#[derive(Debug, PartialEq, Eq)]
pub struct Handled {
    pub actions: Vec<Action>,
    pub reply: Reply,
    pub events: Vec<Event>,
}

/// What comes next in handling a request.
#[derive(Debug)]
pub enum Step {
    Handled(Handled),
    /// Find the URI and the content of the document, then set its breakpoints.
    ReadDocument { path: String, lines: Vec<i64> },
    /// Ask R for the variables of the object, or for none, then show them.
    CollectVariables(Option<RObject>),
}

/// The event for the client that an event of the debugger stands for.
/// `preserve_focus` tells whether the client is to leave the focus where it is.
pub open spec fn is_event_for(e: Event, from: DapBackendEvent, preserve_focus: bool) -> bool {
    match from {
        DapBackendEvent::Continued => e == (Event::Continued {
            thread_id: THREAD_ID,
            all_threads_continued: true,
        }),
        DapBackendEvent::Terminated => e == Event::Terminated,
        DapBackendEvent::Invalidated => e == Event::Invalidated,
        DapBackendEvent::Stopped => e == (Event::Stopped {
            reason: StoppedReason::Step,
            description: None,
            thread_id: THREAD_ID,
            preserve_focus_hint: preserve_focus,
            text: None,
            all_threads_stopped: true,
        }),
        DapBackendEvent::Exception(exception) => {
            &&& e is Stopped
            &&& e->reason == StoppedReason::Exception
            &&& e->description == Some(exception.message)
            &&& e->Stopped_thread_id == THREAD_ID
            &&& e->preserve_focus_hint == preserve_focus
            &&& text::opt_text(e->text) == Some(
                "<"@ + exception.class@ + "> "@ + exception.message@,
            )
            &&& e->all_threads_stopped
        },
        DapBackendEvent::BreakpointState { id, line, verified, message } => e == (
        Event::BreakpointChanged { id, line: (line + 1) as i64, verified, message }),
    }
}

/// The event for the client that an event of the debugger stands for.
pub fn dap_event(event: DapBackendEvent, preserve_focus: bool) -> (r: Event)
    requires
        event matches DapBackendEvent::BreakpointState { line, .. } ==> line < u32::MAX,
    ensures
        is_event_for(r, event, preserve_focus),
{
    match event {
        DapBackendEvent::Continued => Event::Continued {
            thread_id: THREAD_ID,
            all_threads_continued: true,
        },
        DapBackendEvent::Terminated => Event::Terminated,
        DapBackendEvent::Invalidated => Event::Invalidated,
        DapBackendEvent::Stopped => Event::Stopped {
            reason: StoppedReason::Step,
            description: None,
            thread_id: THREAD_ID,
            preserve_focus_hint: preserve_focus,
            text: None,
            all_threads_stopped: true,
        },
        DapBackendEvent::Exception(exception) => {
            let mut shown: String = text::join3("<", exception.class.as_str(), "> ");
            shown.append(exception.message.as_str());
            Event::Stopped {
                reason: StoppedReason::Exception,
                description: Some(exception.message),
                thread_id: THREAD_ID,
                preserve_focus_hint: preserve_focus,
                text: Some(shown),
                all_threads_stopped: true,
            }
        },
        DapBackendEvent::BreakpointState { id, line, verified, message } =>
            Event::BreakpointChanged {
            id,
            line: Breakpoint::to_dap_line(line),
            verified,
            message,
        },
    }
}

/// The path of a frame's source: its file, or the reference of its text.
pub open spec fn frame_path(source: FrameSource, sources: Map<Seq<char>, String>) -> Option<
    String,
> {
    match source {
        FrameSource::File(path) => Some(path),
        FrameSource::Text(source_text) => if sources.contains_key(source_text@) {
            Some(sources[source_text@])
        } else {
            None
        },
    }
}

/// `r` shows the frame.
pub open spec fn shows_frame(
    r: StackFrame,
    frame: FrameInfo,
    sources: Map<Seq<char>, String>,
) -> bool {
    &&& r.id == frame.id
    &&& r.name == frame.frame_name
    &&& r.source_name == frame.source_name
    &&& r.path == frame_path(frame.source, sources)
    &&& r.line == frame.start_line
    &&& r.column == frame.start_column
    &&& r.end_line == frame.end_line
    &&& r.end_column == frame.end_column
}

/// A frame as the protocol shows it.
pub fn into_dap_frame(frame: &FrameInfo, fallback_sources: &TextMap<String>) -> (r: StackFrame)
    ensures
        shows_frame(r, *frame, fallback_sources@),
{
    let path: Option<String> = match &frame.source {
        FrameSource::File(path) => Some(path.clone()),
        FrameSource::Text(source) => match fallback_sources.get(source.as_str()) {
            Some(reference) => Some(reference.clone()),
            None => None,
        },
    };
    StackFrame {
        id: frame.id,
        name: frame.frame_name.clone(),
        source_name: frame.source_name.clone(),
        path,
        line: frame.start_line,
        column: frame.start_column,
        end_line: frame.end_line,
        end_column: frame.end_column,
    }
}

/// The frames of the stack, or none if R is not debugging.
pub open spec fn stack_of(dap: Dap) -> Seq<FrameInfo> {
    match dap.stack {
        Some(stack) => stack@,
        None => Seq::empty(),
    }
}

/// The first frame that a request asks for.
pub open spec fn asked_start(start_frame: Option<i64>) -> int {
    match start_frame {
        Some(s) => s as int,
        None => 0,
    }
}

/// The end of the frames that a request asks for, of `n` frames from `start` on.
pub open spec fn asked_end(start: int, levels: Option<i64>, n: int) -> int {
    match levels {
        Some(l) => if start + l < n {
            start + l
        } else {
            n
        },
        None => n,
    }
}

/// A number of the protocol that cannot count frames.
pub open spec fn no_count(n: int) -> bool {
    n < 0 || n > usize::MAX
}

/// The reply to a request for the call stack: the frames that it asks for, and how
/// many there are in all.
pub open spec fn is_stacktrace(
    r: Reply,
    dap: Dap,
    start_frame: Option<i64>,
    levels: Option<i64>,
) -> bool {
    let stack = stack_of(dap);
    let n = stack.len() as int;
    let asked = asked_start(start_frame);
    if no_count(asked) {
        r matches Reply::Error(m) && m@ == "Invalid start_frame: "@ + text::decimal_int(asked)
    } else if levels is Some && no_count(levels->0 as int) {
        r matches Reply::Error(m) && m@ == "Invalid levels: "@ + text::decimal_int(
            levels->0 as int,
        )
    } else if n > i64::MAX {
        r matches Reply::Error(m) && m@ == "Stack frame count overflows i64: "@ + text::decimal(
            n as nat,
        )
    } else {
        let start = if asked < n {
            asked
        } else {
            n
        };
        let end = asked_end(start, levels, n);
        &&& r matches Reply::Success(ResponseBody::StackTrace { stack_frames, total_frames })
        &&& total_frames == n
        &&& stack_frames@.len() == end - start
        &&& forall|i: int|
            0 <= i < stack_frames@.len() ==> shows_frame(
                #[trigger] stack_frames@[i],
                stack[start + i],
                dap.fallback_sources@,
            )
    }
}

fn frames_between(
    stack: &Vec<FrameInfo>,
    sources: &TextMap<String>,
    start: usize,
    end: usize,
) -> (r: Vec<StackFrame>)
    requires
        start <= end <= stack@.len(),
    ensures
        r@.len() == end - start,
        forall|i: int|
            0 <= i < r@.len() ==> shows_frame(#[trigger] r@[i], stack@[start + i], sources@),
{
    let mut out: Vec<StackFrame> = Vec::new();
    let mut i: usize = start;
    while i < end
        invariant
            start <= i <= end <= stack@.len(),
            out@.len() == i - start,
            forall|k: int|
                0 <= k < out@.len() ==> shows_frame(
                    #[trigger] out@[k],
                    stack@[start + k],
                    sources@,
                ),
        decreases end - i,
    {
        out.push(into_dap_frame(&stack[i], sources));
        i = i + 1;
    }
    out
}

/// The reply to a request for the call stack.
pub fn handle_stacktrace(dap: &Dap, start_frame: Option<i64>, levels: Option<i64>) -> (r: Reply)
    ensures
        is_stacktrace(r, *dap, start_frame, levels),
{
    let n: usize = match &dap.stack {
        Some(stack) => stack.len(),
        None => 0,
    };
    let asked: i64 = match start_frame {
        Some(s) => s,
        None => 0,
    };
    if asked < 0 || asked as u64 > usize::MAX as u64 {
        return Reply::Error(text::join2("Invalid start_frame: ", text::i64_text(asked).as_str()));
    }
    let start: usize = if (asked as usize) < n {
        asked as usize
    } else {
        n
    };
    let end: usize = match levels {
        Some(l) => {
            if l < 0 || l as u64 > usize::MAX as u64 {
                return Reply::Error(text::join2("Invalid levels: ", text::i64_text(l).as_str()));
            }
            if (l as usize) < n - start {
                start + l as usize
            } else {
                n
            }
        },
        None => n,
    };
    if n as u64 > i64::MAX as u64 {
        return Reply::Error(
            text::join2(
                "Stack frame count overflows i64: ",
                text::u64_text(n as u64).as_str(),
            ),
        );
    }
    let stack_frames: Vec<StackFrame> = match &dap.stack {
        Some(stack) => frames_between(stack, &dap.fallback_sources, start, end),
        None => Vec::new(),
    };
    Reply::Success(ResponseBody::StackTrace { stack_frames, total_frames: n as i64 })
}

/// The reference of the variables of a frame, or zero if the frame has none.
pub open spec fn scope_reference(dap: Dap, frame_id: i64) -> i64 {
    if dap.frame_id_to_variables_reference@.contains_key(frame_id) {
        dap.frame_id_to_variables_reference@[frame_id]
    } else {
        0
    }
}

/// The reply shows one scope with the variables of a reference.
pub open spec fn is_scopes(r: Reply, reference: i64) -> bool {
    r matches Reply::Success(ResponseBody::Scopes(scopes)) && scopes@.len() == 1
        && scopes@[0].name@ == "Locals"@ && !scopes@[0].expensive && scopes@[0].variables_reference
        == reference
}

/// The reply to a request for the scopes of a frame: one scope with its variables.
pub fn handle_scopes(dap: &Dap, frame_id: i64) -> (r: Reply)
    ensures
        is_scopes(r, scope_reference(*dap, frame_id)),
{
    let variables_reference: i64 = match dap.frame_id_to_variables_reference.get(&frame_id) {
        Some(reference) => *reference,
        None => 0,
    };
    Reply::Success(
        ResponseBody::Scopes(vec![Scope { name: "Locals", variables_reference, expensive: false }]),
    )
}

/// The capabilities of the debug adapter.
pub open spec fn is_capabilities(c: Capabilities) -> bool {
    &&& c.supports_restart_request
    &&& !c.supports_exception_info_request
    &&& c.exception_breakpoint_filters@.len() == 2
    &&& c.exception_breakpoint_filters@[0].filter@ == "error"@
    &&& c.exception_breakpoint_filters@[0].label@ == "Errors"@
    &&& c.exception_breakpoint_filters@[0].description@ == "Break on uncaught R errors"@
    &&& c.exception_breakpoint_filters@[1].filter@ == "warning"@
    &&& c.exception_breakpoint_filters@[1].label@ == "Warnings"@
    &&& c.exception_breakpoint_filters@[1].description@ == "Break on R warnings"@
    &&& forall|i: int|
        0 <= i < 2 ==> !(#[trigger] c.exception_breakpoint_filters@[i]).default
            && !c.exception_breakpoint_filters@[i].supports_condition
}

/// The capabilities of the debug adapter.
pub fn handle_initialize() -> (r: Capabilities)
    ensures
        is_capabilities(r),
{
    Capabilities {
        supports_restart_request: true,
        supports_exception_info_request: false,
        exception_breakpoint_filters: vec![
            ExceptionFilter {
                filter: "error",
                label: "Errors",
                description: "Break on uncaught R errors",
                default: false,
                supports_condition: false,
            },
            ExceptionFilter {
                filter: "warning",
                label: "Warnings",
                description: "Break on R warnings",
                default: false,
                supports_condition: false,
            },
        ],
    }
}

/// The action by which a debug command reaches R: through the frontend if one is
/// there, so that its prompt is updated, and else directly.
pub open spec fn command_action(dap: Dap, cmd: DebugRequest) -> Action {
    if dap.has_comm {
        Action::ExecuteInFrontend(cmd)
    } else {
        Action::ExecuteInConsole(cmd)
    }
}

/// The action by which a debug command reaches R.
pub fn send_command(dap: &Dap, cmd: DebugRequest) -> (r: Action)
    ensures
        r == command_action(*dap, cmd),
{
    if dap.has_comm {
        Action::ExecuteInFrontend(cmd)
    } else {
        Action::ExecuteInConsole(cmd)
    }
}

/// The reply is an error with a message.
pub open spec fn is_error(r: Reply, message: Seq<char>) -> bool {
    r matches Reply::Error(m) && m@ == message
}

/// The reply tells what the debug adapter can do.
pub open spec fn is_initialize(r: Reply) -> bool {
    r matches Reply::Success(ResponseBody::Initialize(c)) && is_capabilities(c)
}

/// The reply shows the one thread.
pub open spec fn is_threads(r: Reply) -> bool {
    r matches Reply::Success(ResponseBody::Threads(threads)) && threads@.len() == 1
        && threads@[0].id == THREAD_ID && threads@[0].name@ == "R console"@
}

/// The request is handled with these actions, a success and no event.
pub open spec fn succeeds(step: Step, actions: Seq<Action>, body: ResponseBody) -> bool {
    step matches Step::Handled(h) && h.actions@ == actions && h.reply == Reply::Success(body)
        && h.events@.len() == 0
}

/// The request fails with a message.
pub open spec fn fails(step: Step, message: Seq<char>) -> bool {
    step matches Step::Handled(h) && h.actions@.len() == 0 && h.events@.len() == 0
        && is_error(h.reply, message)
}

/// What handling a request does: `after` is the state then, and `step` what comes
/// next.
pub open spec fn handles(before: Dap, command: Command, after: Dap, step: Step) -> bool {
    let none = Seq::<Action>::empty();
    match command {
        Command::Initialize => {
            &&& after == before
            &&& step matches Step::Handled(h) && h.actions@ == none && is_initialize(h.reply)
                && h.events@ == seq![Event::Initialized]
        },
        Command::Attach => {
            &&& after == before
            &&& step matches Step::Handled(h) && h.actions@ == none && h.reply
                == Reply::Success(ResponseBody::Attach) && h.events@ == seq![
                Event::ThreadStarted { thread_id: THREAD_ID },
            ]
        },
        Command::Disconnect => {
            &&& after == before
            &&& succeeds(
                step,
                if before.is_debugging {
                    seq![command_action(before, DebugRequest::Quit)]
                } else {
                    none
                },
                ResponseBody::Disconnect,
            )
        },
        Command::Restart => {
            &&& after == before
            &&& succeeds(
                step,
                if before.has_comm {
                    seq![Action::Restart]
                } else {
                    none
                },
                ResponseBody::Restart,
            )
        },
        Command::Threads => {
            &&& after == before
            &&& step matches Step::Handled(h) && h.actions@ == none && h.events@.len() == 0
                && is_threads(h.reply)
        },
        Command::SetBreakpoints { path, lines } => {
            &&& after == before
            &&& match path {
                None => fails(step, "Missing a path to set breakpoints for"@),
                Some(path) => step matches Step::ReadDocument { path: p, lines: ls } && p == path
                    && ls@ == (match lines {
                    Some(lines) => lines@,
                    None => Seq::empty(),
                }),
            }
        },
        Command::SetExceptionBreakpoints { filters } => {
            &&& after == (Dap { exception_breakpoint_filters: filters, ..before })
            &&& succeeds(step, none, ResponseBody::SetExceptionBreakpoints)
        },
        Command::StackTrace { start_frame, levels } => {
            &&& after == before
            &&& step matches Step::Handled(h) && h.actions@ == none && h.events@.len() == 0
                && is_stacktrace(h.reply, before, start_frame, levels)
        },
        Command::Source => after == before && fails(
            step,
            "Unsupported `source` request: {req:?}"@,
        ),
        Command::Scopes { frame_id } => {
            &&& after == before
            &&& step matches Step::Handled(h) && h.actions@ == none && h.events@.len() == 0
                && is_scopes(h.reply, scope_reference(before, frame_id))
        },
        Command::Variables { variables_reference } => {
            let objects = before.variables_reference_to_r_object@;
            &&& after == before
            &&& step matches Step::CollectVariables(object) && object == (
            if objects.contains_key(variables_reference) {
                Some(objects[variables_reference])
            } else {
                None
            })
        },
        Command::Continue => after == before && succeeds(
            step,
            seq![command_action(before, DebugRequest::Continue)],
            ResponseBody::Continue { all_threads_continued: true },
        ),
        Command::Next => after == before && succeeds(
            step,
            seq![command_action(before, DebugRequest::Next)],
            ResponseBody::Next,
        ),
        Command::StepIn => after == before && succeeds(
            step,
            seq![command_action(before, DebugRequest::StepIn)],
            ResponseBody::StepIn,
        ),
        Command::StepOut => after == before && succeeds(
            step,
            seq![command_action(before, DebugRequest::StepOut)],
            ResponseBody::StepOut,
        ),
        Command::Pause => {
            &&& after == (Dap { is_interrupting_for_debugger: true, ..before })
            &&& succeeds(step, seq![Action::Interrupt], ResponseBody::Pause)
        },
        Command::Other => after == before && fails(step, "Ark DAP: Unknown request"@),
    }
}

fn success(body: ResponseBody) -> (r: Step)
    ensures
        succeeds(r, Seq::empty(), body),
{
    Step::Handled(
        Handled { actions: Vec::new(), reply: Reply::Success(body), events: Vec::new() },
    )
}

fn success_with(action: Action, body: ResponseBody) -> (r: Step)
    ensures
        succeeds(r, seq![action], body),
{
    let actions: Vec<Action> = vec![action];
    assert(actions@ =~= seq![action]);
    Step::Handled(Handled { actions, reply: Reply::Success(body), events: Vec::new() })
}

fn failure(message: &str) -> (r: Step)
    ensures
        fails(r, message@),
{
    Step::Handled(
        Handled {
            actions: Vec::new(),
            reply: Reply::Error(message.to_owned()),
            events: Vec::new(),
        },
    )
}

fn replied(reply: Reply) -> (r: Step)
    ensures
        r matches Step::Handled(h) && h.actions@ == Seq::<Action>::empty() && h.reply == reply
            && h.events@.len() == 0,
{
    Step::Handled(Handled { actions: Vec::new(), reply, events: Vec::new() })
}

/// Handles a request of the client.
pub fn serve(dap: &mut Dap, command: Command) -> (step: Step)
    ensures
        handles(*old(dap), command, *final(dap), step),
{
    match command {
        Command::Initialize => {
            let events: Vec<Event> = vec![Event::Initialized];
            assert(events@ =~= seq![Event::Initialized]);
            Step::Handled(
                Handled {
                    actions: Vec::new(),
                    reply: Reply::Success(ResponseBody::Initialize(handle_initialize())),
                    events,
                },
            )
        },
        Command::Attach => {
            let events: Vec<Event> = vec![Event::ThreadStarted { thread_id: THREAD_ID }];
            assert(events@ =~= seq![Event::ThreadStarted { thread_id: THREAD_ID }]);
            Step::Handled(
                Handled {
                    actions: Vec::new(),
                    reply: Reply::Success(ResponseBody::Attach),
                    events,
                },
            )
        },
        Command::Disconnect => {
            if dap.is_debugging {
                success_with(send_command(dap, DebugRequest::Quit), ResponseBody::Disconnect)
            } else {
                success(ResponseBody::Disconnect)
            }
        },
        Command::Restart => {
            if dap.has_comm {
                success_with(Action::Restart, ResponseBody::Restart)
            } else {
                success(ResponseBody::Restart)
            }
        },
        Command::Threads => replied(
            Reply::Success(
                ResponseBody::Threads(vec![ThreadInfo { id: THREAD_ID, name: "R console" }]),
            ),
        ),
        Command::SetBreakpoints { path, lines } => match path {
            None => failure("Missing a path to set breakpoints for"),
            Some(path) => Step::ReadDocument {
                path,
                lines: match lines {
                    Some(lines) => lines,
                    None => Vec::new(),
                },
            },
        },
        Command::SetExceptionBreakpoints { filters } => {
            dap.exception_breakpoint_filters = filters;
            success(ResponseBody::SetExceptionBreakpoints)
        },
        Command::StackTrace { start_frame, levels } => replied(
            handle_stacktrace(dap, start_frame, levels),
        ),
        Command::Source => failure("Unsupported `source` request: {req:?}"),
        Command::Scopes { frame_id } => replied(handle_scopes(dap, frame_id)),
        Command::Variables { variables_reference } => Step::CollectVariables(
            match dap.variables_reference_to_r_object.get(&variables_reference) {
                Some(object) => Some(*object),
                None => None,
            },
        ),
        Command::Continue => success_with(
            send_command(dap, DebugRequest::Continue),
            ResponseBody::Continue { all_threads_continued: true },
        ),
        Command::Next => success_with(send_command(dap, DebugRequest::Next), ResponseBody::Next),
        Command::StepIn => success_with(
            send_command(dap, DebugRequest::StepIn),
            ResponseBody::StepIn,
        ),
        Command::StepOut => success_with(
            send_command(dap, DebugRequest::StepOut),
            ResponseBody::StepOut,
        ),
        Command::Pause => {
            dap.is_interrupting_for_debugger = true;
            success_with(Action::Interrupt, ResponseBody::Pause)
        },
        Command::Other => failure("Ark DAP: Unknown request"),
    }
}

/// The reply shows no breakpoints.
pub open spec fn is_no_breakpoints(r: Reply) -> bool {
    r matches Reply::Success(ResponseBody::SetBreakpoints(set)) && set@.len() == 0
}

/// The URI under which the breakpoints of a file are kept, from its path with links
/// resolved. `None` if the path is that of no file, because it is not absolute.
pub fn breakpoints_uri(resolved: &str) -> (r: Option<String>)
    ensures
        text::opt_text(r) == urls::file_url(resolved@),
{
    urls::url_of_file(resolved)
}

/// Sets the breakpoints of a document: `uri` is its URI, if the path is that of a
/// file, and `content` its content, if it could be read.
pub fn handle_set_breakpoints(
    dap: &mut Dap,
    path: &str,
    lines: &Vec<i64>,
    uri: Option<String>,
    content: Option<String>,
) -> (r: Reply)
    requires
        old(dap).current_breakpoint_id + lines@.len() <= i64::MAX,
        forall|i: int| 0 <= i < lines@.len() ==> #[trigger] lines@[i] > i64::MIN,
        forall|i: int|
            0 <= i < lines@.len() ==> Breakpoint::spec_from_dap_line(#[trigger] lines@[i])
                < u32::MAX,
        uri matches Some(u) ==> old(dap).places_ok(u@),
    ensures
        document_is_set(r, *final(dap), *old(dap), path@, lines@, uri, content),
{
    let uri: String = match uri {
        Some(uri) => uri,
        None => {
            return Reply::Success(ResponseBody::SetBreakpoints(Vec::new()));
        },
    };
    match content {
        None => Reply::Error(text::join2("Failed to read file: ", path)),
        Some(content) => {
            let set: Vec<ReplyBreakpoint> = dap.set_breakpoints(
                uri.as_str(),
                content.as_str(),
                lines,
            );
            Reply::Success(ResponseBody::SetBreakpoints(set))
        },
    }
}

/// Shows the variables that R gave. Those that have children get a reference.
pub fn handle_variables(dap: &mut Dap, variables: Vec<RVariable>) -> (r: Reply)
    requires
        old(dap).current_variables_reference + variables@.len() <= i64::MAX,
        old(dap).current_variables_reference >= 0,
    ensures
        r matches Reply::Success(ResponseBody::Variables(shown)) && shown@.len()
            == variables@.len() && forall|i: int|
            0 <= i < shown@.len() ==> (#[trigger] shown@[i]).name == variables@[i].name
                && shown@[i].value == variables@[i].value && shown@[i].type_field
                == variables@[i].type_field && shown@[i].variables_reference == reference_of(
                variables@,
                old(dap).current_variables_reference as int,
                i,
            ),
        final(dap).variables_reference_to_r_object@ == with_variable_objects(
            old(dap).variables_reference_to_r_object@,
            variables@,
            old(dap).current_variables_reference as int,
            variables@.len() as int,
        ),
        *final(dap) == (Dap {
            variables_reference_to_r_object: final(dap).variables_reference_to_r_object,
            current_variables_reference: (old(dap).current_variables_reference + structured(
                variables@,
                variables@.len() as int,
            )) as i64,
            ..*old(dap)
        }),
{
    Reply::Success(ResponseBody::Variables(dap.into_variables(variables)))
}

/// A client connected: it gets events from now on.
pub fn client_connected(dap: &mut Dap)
    ensures
        *final(dap) == (Dap { is_connected: true, has_client: true, ..*old(dap) }),
        final(dap).is_connected ==> final(dap).has_client,
{
    dap.is_connected = true;
    dap.has_client = true;
}

/// The client disconnected. Its channel for events is kept until the next client
/// connects.
pub fn client_disconnected(dap: &mut Dap)
    ensures
        *final(dap) == (Dap { is_connected: false, ..*old(dap) }),
        final(dap).is_connected ==> final(dap).has_client,
{
    dap.is_connected = false;
}

/// What comes in while events for the client are listened for.
#[derive(Debug)]
pub enum Listened {
    /// An event of the debugger, and whether the client is to leave the focus where it
    /// is.
    Event { event: DapBackendEvent, preserve_focus: bool },
    /// The debugger's channel is closed.
    ChannelClosed,
    /// The client disconnected.
    Done,
}

/// What is done about an event for the client: it is sent, or listening ends.
pub fn listen_dap_events(listened: Listened) -> (r: Option<Event>)
    requires
        listened matches Listened::Event {
            event: DapBackendEvent::BreakpointState { line, .. },
            ..
        } ==> line < u32::MAX,
    ensures
        match listened {
            Listened::Event { event, preserve_focus } => r is Some && is_event_for(
                r->0,
                event,
                preserve_focus,
            ),
            _ => r is None,
        },
{
    match listened {
        Listened::Event { event, preserve_focus } => Some(dap_event(event, preserve_focus)),
        Listened::ChannelClosed => None,
        Listened::Done => None,
    }
}

/// A frame is shown where R says it is: from the line and column at which R has it start
/// to the line at which R has it end, up to and with the last column of R. It has the
/// name that R gives it.
pub proof fn law_frame_is_shown_where_r_has_it(
    shown: StackFrame,
    frame: FrameInfo,
    info: RFrame,
    id: i64,
    sources: Map<Seq<char>, String>,
)
    requires
        is_frame(frame, info, id),
        shows_frame(shown, frame, sources),
    ensures
        shown.id == id,
        shown.name == info.frame_name,
        shown.source_name == info.source_name,
        shown.line == info.start_line,
        shown.column == info.start_column,
        shown.end_line == info.end_line,
        shown.end_column - 1 == info.end_column,
        info.text is None ==> shown.path == info.file,
        info.text matches Some(t) && sources.contains_key(t@) ==> shown.path == Some(
            sources[info.text->0@],
        ),
{
}

/// The range of a frame that is shown is not turned round: it starts and ends where the
/// frame does.
pub proof fn law_shown_range_is_the_frames(
    shown: StackFrame,
    frame: FrameInfo,
    sources: Map<Seq<char>, String>,
)
    requires
        shows_frame(shown, frame, sources),
    ensures
        (shown.line, shown.column) == (frame.start_line, frame.start_column),
        (shown.end_line, shown.end_column) == (frame.end_line, frame.end_column),
        shown.line != shown.end_line <==> frame.start_line != frame.end_line,
{
}

/// The call stack can be asked for in pages: a page that starts at frame `first` shows
/// the frames that the whole stack shows from `first` on, as many as were asked for or
/// as there are, and every reply tells how many there are in all.
pub proof fn law_pages_show_the_stack(
    whole: Reply,
    page: Reply,
    dap: Dap,
    first: i64,
    levels: Option<i64>,
)
    requires
        dap.stack is Some,
        dap.stack->0@.len() <= i64::MAX,
        0 <= first <= usize::MAX,
        levels matches Some(l) ==> 0 <= l <= usize::MAX,
        is_stacktrace(whole, dap, None, None),
        is_stacktrace(page, dap, Some(first), levels),
    ensures
        ({
            let n = dap.stack->0@.len() as int;
            let left = if first < n {
                n - first
            } else {
                0
            };
            &&& whole matches Reply::Success(ResponseBody::StackTrace {
                stack_frames: all,
                total_frames: count,
            })
            &&& page matches Reply::Success(ResponseBody::StackTrace {
                stack_frames: some,
                total_frames: told,
            })
            &&& count == n
            &&& told == n
            &&& all@.len() == n
            &&& forall|i: int| 0 <= i < n ==> (#[trigger] all@[i]).id == dap.stack->0@[i].id
            &&& some@.len() == (match levels {
                Some(l) => if l < left {
                    l as int
                } else {
                    left
                },
                None => left,
            })
            &&& forall|i: int|
                0 <= i < some@.len() ==> {
                    let f = #[trigger] some@[i];
                    let g = all@[first + i];
                    &&& f.id == g.id
                    &&& f.name == g.name
                    &&& f.line == g.line
                    &&& f.column == g.column
                    &&& f.end_line == g.end_line
                    &&& f.end_column == g.end_column
                    &&& f.path == g.path
                }
        }),
{
    let stack = dap.stack->0@;
    let all = whole->Success_0->stack_frames@;
    let some = page->Success_0->stack_frames@;
    assert forall|i: int| 0 <= i < stack.len() implies (#[trigger] all[i]).id == stack[i].id by {
        assert(shows_frame(all[i], stack[0 + i], dap.fallback_sources@));
    }
    assert forall|i: int| 0 <= i < some.len() implies {
        let f = #[trigger] some[i];
        let g = all[first + i];
        &&& f.id == g.id
        &&& f.name == g.name
        &&& f.line == g.line
        &&& f.column == g.column
        &&& f.end_line == g.end_line
        &&& f.end_column == g.end_column
        &&& f.path == g.path
    } by {
        assert(shows_frame(some[i], stack[first + i], dap.fallback_sources@));
        assert(shows_frame(all[first + i], stack[0 + (first + i)], dap.fallback_sources@));
    }
}

/// A request to go on reaches R as the command of the same name: through the frontend if
/// there is one, and else directly. Nothing else is done, and the request succeeds.
pub proof fn law_commands_reach_r(before: Dap, after: Dap, command: Command, step: Step)
    requires
        handles(before, command, after, step),
        command is Continue || command is Next || command is StepIn || command is StepOut,
    ensures
        after == before,
        ({
            let request = match command {
                Command::Continue => DebugRequest::Continue,
                Command::Next => DebugRequest::Next,
                Command::StepIn => DebugRequest::StepIn,
                _ => DebugRequest::StepOut,
            };
            &&& step matches Step::Handled(h)
            &&& h.reply is Success
            &&& h.events@.len() == 0
            &&& h.actions@.len() == 1
            &&& before.has_comm ==> h.actions@[0] == Action::ExecuteInFrontend(request)
            &&& !before.has_comm ==> h.actions@[0] == Action::ExecuteInConsole(request)
        }),
{
}

/// A client that disconnects makes R leave the debugger, if R is in it, and nothing else.
pub proof fn law_disconnecting_leaves_the_debugger(before: Dap, after: Dap, step: Step)
    requires
        handles(before, Command::Disconnect, after, step),
    ensures
        after == before,
        step matches Step::Handled(h) && h.reply == Reply::Success(ResponseBody::Disconnect)
            && h.actions@ == (if !before.is_debugging {
            Seq::empty()
        } else if before.has_comm {
            seq![Action::ExecuteInFrontend(DebugRequest::Quit)]
        } else {
            seq![Action::ExecuteInConsole(DebugRequest::Quit)]
        }),
{
}

/// A request to pause interrupts R, so that it stops in the debugger.
pub proof fn law_pausing_interrupts(before: Dap, after: Dap, step: Step)
    requires
        handles(before, Command::Pause, after, step),
    ensures
        after.is_interrupting_for_debugger,
        after == (Dap { is_interrupting_for_debugger: true, ..before }),
        step matches Step::Handled(h) && h.actions@ == seq![Action::Interrupt] && h.reply
            == Reply::Success(ResponseBody::Pause),
{
}

/// No request but those that pause and that set exception breakpoints changes what is
/// known of the debugger before R or the file system is asked, and the filters that are
/// set are those of the last request.
pub proof fn law_requests_keep_the_state(before: Dap, after: Dap, command: Command, step: Step)
    requires
        handles(before, command, after, step),
    ensures
        !(command is Pause || command is SetExceptionBreakpoints) ==> after == before,
        command matches Command::SetExceptionBreakpoints { filters } ==> after == (Dap {
            exception_breakpoint_filters: filters,
            ..before
        }),
        after.breakpoints == before.breakpoints,
        after.stack == before.stack,
{
}

/// The variables of a frame are found through its scope: the scope that is shown of a
/// frame has a reference, and a request for the variables of that reference asks R for
/// the frame's environment, or for the global one where the frame has none.
pub proof fn law_scopes_lead_to_variables(
    dap: Dap,
    stack: Seq<FrameInfo>,
    first: int,
    global: RObject,
    k: int,
    scopes: Reply,
    step: Step,
    after: Dap,
)
    requires
        0 <= k < stack.len(),
        0 < first,
        first + stack.len() <= i64::MAX,
        forall|i: int, j: int|
            0 <= i < j < stack.len() ==> (#[trigger] stack[i]).id != (#[trigger] stack[j]).id,
        dap.frame_id_to_variables_reference@ == frame_references(
            stack,
            first,
            stack.len() as int,
        ),
        dap.variables_reference_to_r_object@ == frame_objects(
            stack,
            first,
            stack.len() as int,
            global,
        ),
        is_scopes(scopes, scope_reference(dap, stack[k].id)),
        scopes is Success,
        handles(
            dap,
            Command::Variables {
                variables_reference: scopes->Success_0->Scopes_0@[0].variables_reference,
            },
            after,
            step,
        ),
    ensures
        step == Step::CollectVariables(
            Some(
                match stack[k].environment {
                    Some(environment) => environment,
                    None => global,
                },
            ),
        ),
{
    law_frames_have_own_variables(stack, first, global, k);
}

/// An event of the debugger is told to the client as what it is: that R goes on, that it
/// stopped at a step or at a condition, that the session is over, that variables are to
/// be refreshed, or the state of a breakpoint, whose line counts from one for the client.
pub proof fn law_events_tell_what_happened(e: Event, from: DapBackendEvent, preserve_focus: bool)
    requires
        is_event_for(e, from, preserve_focus),
    ensures
        from is Continued <==> e is Continued,
        from is Terminated <==> e is Terminated,
        from is Invalidated <==> e is Invalidated,
        from is Stopped || from is Exception <==> e is Stopped,
        from is Stopped ==> e->reason == StoppedReason::Step && e->text is None
            && e->description is None,
        from matches DapBackendEvent::Exception(x) ==> e->reason == StoppedReason::Exception
            && e->description == Some(x.message) && text::opt_text(e->text) == Some(
            "<"@ + x.class@ + "> "@ + x.message@,
        ),
        e is Stopped ==> e->preserve_focus_hint == preserve_focus && e->all_threads_stopped,
        from matches DapBackendEvent::BreakpointState { id, line, verified, message }
            ==> e is BreakpointChanged && e->BreakpointChanged_id == id && e->BreakpointChanged_line - 1
            == line && e->BreakpointChanged_verified == verified && e->BreakpointChanged_message
            == message,
{
}

/// What setting the breakpoints of a document comes to.
pub open spec fn document_is_set(
    r: Reply,
    new: Dap,
    old: Dap,
    path: Seq<char>,
    lines: Seq<i64>,
    uri: Option<String>,
    content: Option<String>,
) -> bool {
    match (uri, content) {
        (None, _) => new == old && is_no_breakpoints(r),
        (Some(_), None) => new == old && is_error(r, "Failed to read file: "@ + path),
        (Some(u), Some(c)) => r matches Reply::Success(ResponseBody::SetBreakpoints(set))
            && old.sets_breakpoints(new, set@, u@, spec_document_hash(c@), lines),
    }
}

/// A path that is that of no file has no breakpoints. A file that cannot be read is told, and
/// the breakpoints of any other are set. Only then the state changes.
pub proof fn law_documents_that_are_set(
    r: Reply,
    new: Dap,
    old: Dap,
    path: Seq<char>,
    lines: Seq<i64>,
    uri: String,
    content: String,
)
    ensures
        document_is_set(r, new, old, path, lines, None, None) ==> new == old && (r
            matches Reply::Success(ResponseBody::SetBreakpoints(set)) && set@.len() == 0),
        document_is_set(r, new, old, path, lines, Some(uri), None) ==> new == old && (r
            matches Reply::Error(m) && m@ == "Failed to read file: "@ + path),
        document_is_set(r, new, old, path, lines, Some(uri), Some(content)) ==> (r
            matches Reply::Success(ResponseBody::SetBreakpoints(set)) && old.sets_breakpoints(
            new,
            set@,
            uri@,
            blake3_hash(vstd::utf8::encode_utf8(content@)),
            lines,
        )),
{
}

/// A client that connects learns what the debugger can do, and which conditions R can stop
/// on. It stops on none of them unless it is asked to.
pub proof fn law_what_the_debugger_can_do(before: Dap, after: Dap, step: Step)
    requires
        handles(before, Command::Initialize, after, step),
    ensures
        step matches Step::Handled(h) && h.actions@.len() == 0 && h.events@ == seq![
            Event::Initialized,
        ] && (h.reply matches Reply::Success(ResponseBody::Initialize(c))
            && c.supports_restart_request && !c.supports_exception_info_request
            && c.exception_breakpoint_filters@.len() == 2
            && c.exception_breakpoint_filters@[0].filter@ == "error"@
            && c.exception_breakpoint_filters@[0].label@ == "Errors"@
            && c.exception_breakpoint_filters@[0].description@ == "Break on uncaught R errors"@
            && c.exception_breakpoint_filters@[1].filter@ == "warning"@
            && c.exception_breakpoint_filters@[1].label@ == "Warnings"@
            && c.exception_breakpoint_filters@[1].description@ == "Break on R warnings"@
            && !c.exception_breakpoint_filters@[0].default
            && !c.exception_breakpoint_filters@[1].default
            && !c.exception_breakpoint_filters@[0].supports_condition
            && !c.exception_breakpoint_filters@[1].supports_condition),
{
}

/// R has one thread, which starts when a client attaches.
pub proof fn law_the_one_thread(before: Dap, after: Dap, step: Step)
    ensures
        handles(before, Command::Attach, after, step) ==> (step matches Step::Handled(h)
            && h.actions@.len() == 0 && h.reply == Reply::Success(ResponseBody::Attach)
            && h.events@ == seq![Event::ThreadStarted { thread_id: -1i64 }]),
        handles(before, Command::Threads, after, step) ==> (step matches Step::Handled(h)
            && h.actions@.len() == 0 && h.events@.len() == 0 && (h.reply matches Reply::Success(
            ResponseBody::Threads(threads),
        ) && threads@.len() == 1 && threads@[0].id == -1 && threads@[0].name@ == "R console"@)),
{
}

/// A restart is asked of the frontend, if there is one.
pub proof fn law_restarts(before: Dap, after: Dap, step: Step)
    requires
        handles(before, Command::Restart, after, step),
    ensures
        step matches Step::Handled(h) && h.reply == Reply::Success(ResponseBody::Restart)
            && h.events@.len() == 0 && h.actions@ == (if before.has_comm {
            seq![Action::Restart]
        } else {
            Seq::empty()
        }),
{
}

/// Requests that are not known, or that lack what they need, fail with a message and do nothing.
pub proof fn law_requests_that_fail(before: Dap, after: Dap, step: Step, lines: Option<Vec<i64>>)
    ensures
        handles(before, Command::Source, after, step) ==> (step matches Step::Handled(h)
            && h.actions@.len() == 0 && h.events@.len() == 0 && (h.reply matches Reply::Error(m)
            && m@ == "Unsupported `source` request: {req:?}"@)),
        handles(before, Command::Other, after, step) ==> (step matches Step::Handled(h)
            && h.actions@.len() == 0 && h.events@.len() == 0 && (h.reply matches Reply::Error(m)
            && m@ == "Ark DAP: Unknown request"@)),
        handles(before, Command::SetBreakpoints { path: None, lines }, after, step) ==> (step
            matches Step::Handled(h) && h.actions@.len() == 0 && h.events@.len() == 0 && (h.reply
            matches Reply::Error(m) && m@ == "Missing a path to set breakpoints for"@)),
{
}

/// To set breakpoints, the document is read first. Without lines none are set.
pub proof fn law_documents_are_read(
    before: Dap,
    after: Dap,
    step: Step,
    path: String,
    lines: Vec<i64>,
)
    ensures
        handles(
            before,
            Command::SetBreakpoints { path: Some(path), lines: Some(lines) },
            after,
            step,
        ) ==> (step matches Step::ReadDocument { path: p, lines: l } && p == path && l@ == lines@),
        handles(before, Command::SetBreakpoints { path: Some(path), lines: None }, after, step) ==> (
        step matches Step::ReadDocument { path: p, lines: l } && p == path && l@.len() == 0),
{
}

/// Pages of the stack that cannot be counted are refused.
pub proof fn law_pages_that_cannot_be_counted(r: Reply, dap: Dap, start: i64, levels: i64)
    ensures
        start < 0 && is_stacktrace(r, dap, Some(start), Some(levels)) ==> (r matches Reply::Error(m)
            && m@ == "Invalid start_frame: "@ + text::decimal_int(start as int)),
        levels < 0 && is_stacktrace(r, dap, None, Some(levels)) ==> (r matches Reply::Error(m) && m@
            == "Invalid levels: "@ + text::decimal_int(levels as int)),
        is_stacktrace(r, dap, None, None) && dap.stack is None ==> (r matches Reply::Success(
            ResponseBody::StackTrace { stack_frames, total_frames },
        ) && stack_frames@.len() == 0 && total_frames == 0),
{
}

} // verus!
