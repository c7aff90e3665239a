//! Debug requests that arrive as Jupyter messages.
//!
//! The extensions of the Jupyter debug protocol are handled here, and all other
//! requests by the debug adapter.
use std::collections::HashMap;
use vstd::prelude::*;

use crate::console::breakpoint::BreakpointRules;
use crate::dap::breakpoints::{Breakpoint, BreakpointState};
use crate::dap::dap::{enabled_breakpoints, Dap, DocumentBreakpoints};
use crate::dap::dap_notebook;
use crate::dap::dap_server::{Action, DebugRequest, THREAD_ID};
use crate::text;
use crate::urls;

verus! {

broadcast use vstd::std_specs::hash::group_hash_axioms;

/// A debug request, by the name of its command.
#[derive(Clone, Copy, Debug, PartialEq, Eq, Structural)]
pub enum JupyterCommand {
    DumpCell,
    DebugInfo,
    ConfigurationDone,
    /// A request of the debug adapter protocol.
    Dap,
}

/// The command that a name stands for.
pub open spec fn command_named(name: Seq<char>) -> JupyterCommand {
    if name == "dumpCell"@ {
        JupyterCommand::DumpCell
    } else if name == "debugInfo"@ {
        JupyterCommand::DebugInfo
    } else if name == "configurationDone"@ {
        JupyterCommand::ConfigurationDone
    } else {
        JupyterCommand::Dap
    }
}

/// The command that a name stands for.
pub fn command_of(name: &str) -> (r: JupyterCommand)
    ensures
        r == command_named(name@),
{
    if text::same(name, "dumpCell") {
        JupyterCommand::DumpCell
    } else if text::same(name, "debugInfo") {
        JupyterCommand::DebugInfo
    } else if text::same(name, "configurationDone") {
        JupyterCommand::ConfigurationDone
    } else {
        JupyterCommand::Dap
    }
}

/// A breakpoint that the client is to restore. The line counts from one.
#[derive(Debug, PartialEq, Eq)]
pub struct SourceBreakpoint {
    pub line: i64,
    pub condition: Option<String>,
    pub log_message: Option<String>,
    pub hit_condition: Option<String>,
}

/// The breakpoints of a document that the client is to restore.
#[derive(Debug, PartialEq, Eq)]
pub struct SourceBreakpoints {
    pub source: String,
    pub breakpoints: Vec<SourceBreakpoint>,
}

/// What the client needs to know after it has connected.
#[derive(Debug, PartialEq, Eq)]
pub struct DebugInfo {
    pub is_started: bool,
    pub hash_method: &'static str,
    pub hash_seed: u32,
    pub tmp_file_prefix: String,
    pub tmp_file_suffix: &'static str,
    pub breakpoints: Vec<SourceBreakpoints>,
    pub stopped_threads: Vec<i64>,
    pub rich_rendering: bool,
    pub exception_paths: Vec<String>,
}

/// The body of a successful response.
#[derive(Debug, PartialEq, Eq)]
pub enum JupyterBody {
    Empty,
    SourcePath(String),
    DebugInfo(DebugInfo),
}

/// A response: a body, or a message that tells what went wrong.
#[derive(Debug, PartialEq, Eq)]
pub struct JupyterResponse {
    pub seq: i64,
    pub request_seq: i64,
    pub command: String,
    pub outcome: Result<JupyterBody, String>,
}

/// What comes next in handling a request to dump a cell.
#[derive(Debug, PartialEq, Eq)]
pub enum DumpCell {
    /// Write the code to the file at this path.
    Write(String),
    Respond(JupyterResponse),
}

/// What comes next in handling a request.
#[derive(Debug, PartialEq, Eq)]
pub enum JupyterStep {
    Respond(JupyterResponse),
    /// Write the code of a cell to the file at this path, then respond.
    Write { request_seq: i64, path: String },
    /// Read the request as one of the debug adapter protocol, and hand it to the debug
    /// adapter. A request without a command has the command `unknown`.
    Dispatch { request_seq: i64, command: String },
}

/// The number of a request that may have none.
pub open spec fn seq_of(request_seq: Option<i64>) -> i64 {
    match request_seq {
        Some(n) => n,
        None => 0,
    }
}

/// What the debug adapter asks of R in a notebook, as there is no console prompt to keep
/// in step with.
#[derive(Clone, Copy, Debug, PartialEq, Eq, Structural)]
pub enum ConsoleEvent {
    SendCommand(DebugRequest),
    InterruptR,
    /// Not supported, which is logged.
    NoRestart,
}

/// What an action of the debug adapter comes to in a notebook.
pub open spec fn event_of(action: Action) -> ConsoleEvent {
    match action {
        Action::ExecuteInFrontend(command) => ConsoleEvent::SendCommand(command),
        Action::ExecuteInConsole(command) => ConsoleEvent::SendCommand(command),
        Action::Interrupt => ConsoleEvent::InterruptR,
        Action::Restart => ConsoleEvent::NoRestart,
    }
}

/// What an action of the debug adapter comes to in a notebook.
pub fn handle_console_event(action: Action) -> (r: ConsoleEvent)
    ensures
        r == event_of(action),
{
    match action {
        Action::ExecuteInFrontend(command) => ConsoleEvent::SendCommand(command),
        Action::ExecuteInConsole(command) => ConsoleEvent::SendCommand(command),
        Action::Interrupt => ConsoleEvent::InterruptR,
        Action::Restart => ConsoleEvent::NoRestart,
    }
}

/// The optional text of a rule.
pub open spec fn rule_of<'a>(
    rules: Map<i64, BreakpointRules>,
    id: i64,
) -> (Option<Seq<char>>, Option<Seq<char>>, Option<Seq<char>>) {
    if rules.contains_key(id) {
        (
            text::opt_text(rules[id].condition),
            text::opt_text(rules[id].log_message),
            text::opt_text(rules[id].hit_condition),
        )
    } else {
        (None, None, None)
    }
}

/// `s` is what the client is to restore of a breakpoint: the line that the user
/// asked for, and its rules.
pub open spec fn is_source_breakpoint(
    s: SourceBreakpoint,
    bp: Breakpoint,
    rules: Map<i64, BreakpointRules>,
) -> bool {
    &&& s.line == bp.original_line + 1
    &&& (text::opt_text(s.condition), text::opt_text(s.log_message), text::opt_text(
        s.hit_condition,
    )) == rule_of(rules, bp.id)
}

/// What the client is to restore of the breakpoints of a document: all that are
/// not disabled. The document is named by its path if it has one, and else by its
/// URI.
pub open spec fn is_source_breakpoints(
    s: SourceBreakpoints,
    uri: Seq<char>,
    bps: Seq<Breakpoint>,
    rules: Map<i64, BreakpointRules>,
) -> bool {
    &&& s.source@ == (match urls::url_file_path(uri) {
        Some(path) => path,
        None => uri,
    })
    &&& s.breakpoints@.len() == enabled_breakpoints(bps).len()
    &&& forall|i: int|
        0 <= i < s.breakpoints@.len() ==> is_source_breakpoint(
            #[trigger] s.breakpoints@[i],
            enabled_breakpoints(bps)[i],
            rules,
        )
}

fn copy_text(s: &Option<String>) -> (r: Option<String>)
    ensures
        text::opt_text(r) == text::opt_text(*s),
{
    match s {
        Some(t) => Some(t.clone()),
        None => None,
    }
}

fn source_breakpoint(bp: &Breakpoint, rules: &HashMap<i64, BreakpointRules>) -> (r:
    SourceBreakpoint)
    requires
        bp.original_line < u32::MAX,
    ensures
        is_source_breakpoint(r, *bp, rules@),
{
    let line: i64 = Breakpoint::to_dap_line(bp.original_line);
    match rules.get(&bp.id) {
        Some(rule) => SourceBreakpoint {
            line,
            condition: copy_text(&rule.condition),
            log_message: copy_text(&rule.log_message),
            hit_condition: copy_text(&rule.hit_condition),
        },
        None => SourceBreakpoint {
            line,
            condition: None,
            log_message: None,
            hit_condition: None,
        },
    }
}

/// What the client is to restore of the breakpoints of a document whose path is
/// `path`, if it has one.
pub fn source_breakpoints(
    path: Option<String>,
    uri: &str,
    bps: &Vec<Breakpoint>,
    rules: &HashMap<i64, BreakpointRules>,
) -> (r: SourceBreakpoints)
    requires
        forall|i: int| 0 <= i < bps@.len() ==> (#[trigger] bps@[i]).original_line < u32::MAX,
    ensures
        r.source@ == (match path {
            Some(path) => path@,
            None => uri@,
        }),
        r.breakpoints@.len() == enabled_breakpoints(bps@).len(),
        forall|i: int|
            0 <= i < r.breakpoints@.len() ==> is_source_breakpoint(
                #[trigger] r.breakpoints@[i],
                enabled_breakpoints(bps@)[i],
                rules@,
            ),
{
    let source: String = match path {
        Some(path) => path,
        None => uri.to_owned(),
    };
    let ghost on = |bp: Breakpoint| !(bp.state is Disabled);
    let mut out: Vec<SourceBreakpoint> = Vec::new();
    let n: usize = bps.len();
    let mut i: usize = 0;
    while i < n
        invariant
            n == bps@.len(),
            i <= n,
            on == (|bp: Breakpoint| !(bp.state is Disabled)),
            forall|i: int| 0 <= i < bps@.len() ==> (#[trigger] bps@[i]).original_line < u32::MAX,
            out@.len() == bps@.take(i as int).filter(on).len(),
            forall|k: int|
                0 <= k < out@.len() ==> is_source_breakpoint(
                    #[trigger] out@[k],
                    bps@.take(i as int).filter(on)[k],
                    rules@,
                ),
        decreases n - i,
    {
        let bp: Breakpoint = bps[i];
        proof {
            assert(bps@.take(i + 1) =~= bps@.take(i as int).push(bp));
            bps@.take(i as int).lemma_filter_push(bp, on);
        }
        match bp.state {
            BreakpointState::Disabled => {},
            _ => {
                out.push(source_breakpoint(&bp, rules));
            },
        }
        i = i + 1;
    }
    assert(bps@.take(n as int) =~= bps@);
    SourceBreakpoints { source, breakpoints: out }
}

/// Handles debug requests that arrive as Jupyter messages.
pub struct DapJupyterHandler {
    /// The number of the next message.
    pub seq: i64,
    pub tmp_file_prefix: String,
}

impl DapJupyterHandler {
    pub fn new(tmp_file_prefix: String) -> (r: Self)
        ensures
            r.seq == 1,
            r.tmp_file_prefix == tmp_file_prefix,
    {
        Self { seq: 1, tmp_file_prefix }
    }

    /// The number of the next message.
    pub fn next_seq(&mut self) -> (r: i64)
        requires
            old(self).seq < i64::MAX,
        ensures
            r == old(self).seq,
            final(self).seq == old(self).seq + 1,
            final(self).tmp_file_prefix == old(self).tmp_file_prefix,
    {
        let seq: i64 = self.seq;
        self.seq = self.seq + 1;
        seq
    }

    /// A successful response to the request with the number `request_seq`.
    pub fn success_response(&mut self, request_seq: i64, command: &str, body: JupyterBody) -> (r:
        JupyterResponse)
        requires
            old(self).seq < i64::MAX,
        ensures
            r.seq == old(self).seq,
            r.request_seq == request_seq,
            r.command@ == command@,
            r.outcome == Ok::<JupyterBody, String>(body),
            final(self).seq == old(self).seq + 1,
            final(self).tmp_file_prefix == old(self).tmp_file_prefix,
    {
        let seq: i64 = self.next_seq();
        JupyterResponse { seq, request_seq, command: command.to_owned(), outcome: Ok(body) }
    }

    /// A response that tells what went wrong with the request.
    pub fn error_response(&mut self, request_seq: i64, command: &str, message: &str) -> (r:
        JupyterResponse)
        requires
            old(self).seq < i64::MAX,
        ensures
            r.seq == old(self).seq,
            r.request_seq == request_seq,
            r.command@ == command@,
            r.outcome matches Err(m) && m@ == message@,
            final(self).seq == old(self).seq + 1,
            final(self).tmp_file_prefix == old(self).tmp_file_prefix,
    {
        let seq: i64 = self.next_seq();
        JupyterResponse {
            seq,
            request_seq,
            command: command.to_owned(),
            outcome: Err(message.to_owned()),
        }
    }

    /// Handles a request to write the code of a cell to its temporary source file.
    pub fn handle_dump_cell(&mut self, request_seq: i64, code: Option<&str>) -> (r: DumpCell)
        requires
            old(self).seq < i64::MAX,
        ensures
            final(self).tmp_file_prefix == old(self).tmp_file_prefix,
            match code {
                Some(code) => {
                    &&& final(self).seq == old(self).seq
                    &&& r matches DumpCell::Write(path) && path@ == dap_notebook::source_path(
                        old(self).tmp_file_prefix@,
                        code@,
                    )
                },
                None => {
                    &&& final(self).seq == old(self).seq + 1
                    &&& r matches DumpCell::Respond(response) && response.seq == old(self).seq
                        && response.request_seq == request_seq && response.command@ == "dumpCell"@
                        && is_failure(response, "Missing `code` in dumpCell arguments"@)
                },
            },
    {
        match code {
            Some(code) => DumpCell::Write(
                dap_notebook::notebook_source_path(self.tmp_file_prefix.as_str(), code),
            ),
            None => DumpCell::Respond(
                self.error_response(
                    request_seq,
                    "dumpCell",
                    "Missing `code` in dumpCell arguments",
                ),
            ),
        }
    }

    /// The response once the code of a cell was written to `path`, or could not be.
    pub fn cell_dumped(&mut self, request_seq: i64, path: String, written: Result<(), String>) -> (r:
        JupyterResponse)
        requires
            old(self).seq < i64::MAX,
        ensures
            final(self).tmp_file_prefix == old(self).tmp_file_prefix,
            final(self).seq == old(self).seq + 1,
            r.seq == old(self).seq,
            r.request_seq == request_seq,
            r.command@ == "dumpCell"@,
            match written {
                Ok(_) => r.outcome == Ok::<JupyterBody, String>(JupyterBody::SourcePath(path)),
                Err(message) => is_failure(r, message@),
            },
    {
        match written {
            Ok(_) => self.success_response(request_seq, "dumpCell", JupyterBody::SourcePath(path)),
            Err(message) => self.error_response(request_seq, "dumpCell", message.as_str()),
        }
    }

    /// Handles a request for what the client needs to know after it has connected.
    pub fn handle_debug_info(
        &mut self,
        request_seq: i64,
        dap: &Dap,
        rules: &HashMap<i64, BreakpointRules>,
    ) -> (r: JupyterResponse)
        requires
            old(self).seq < i64::MAX,
            forall|uri: Seq<char>, i: int|
                dap.breakpoints@.contains_key(uri) && 0 <= i
                    < dap.breakpoints@[uri].breakpoints@.len() ==> (
                #[trigger] dap.breakpoints@[uri].breakpoints@[i]).original_line < u32::MAX,
        ensures
            final(self).tmp_file_prefix == old(self).tmp_file_prefix,
            final(self).seq == old(self).seq + 1,
            r.seq == old(self).seq,
            r.request_seq == request_seq,
            r.command@ == "debugInfo"@,
            r.outcome matches Ok(JupyterBody::DebugInfo(info)) && is_debug_info(
                info,
                old(self).tmp_file_prefix,
                *dap,
                rules@,
            ),
    {
        let mut documents: Vec<SourceBreakpoints> = Vec::new();
        let n: usize = dap.breakpoints.len();
        let mut i: usize = 0;
        while i < n
            invariant
                n == dap.breakpoints.listed().len(),
                i <= n,
                *self == *old(self),
                forall|uri: Seq<char>, i: int|
                    dap.breakpoints@.contains_key(uri) && 0 <= i
                        < dap.breakpoints@[uri].breakpoints@.len() ==> (
                    #[trigger] dap.breakpoints@[uri].breakpoints@[i]).original_line < u32::MAX,
                documents@.len() == i,
                forall|k: int|
                    0 <= k < i ==> is_source_breakpoints(
                        #[trigger] documents@[k],
                        dap.breakpoints.listed()[k].0@,
                        dap.breakpoints.listed()[k].1.breakpoints@,
                        rules@,
                    ),
            decreases n - i,
        {
            let entry: &(String, DocumentBreakpoints) = dap.breakpoints.entry(i);
            let path: Option<String> = urls::file_path_of(entry.0.as_str());
            assert forall|k: int| 0 <= k < entry.1.breakpoints@.len() implies (
            #[trigger] entry.1.breakpoints@[k]).original_line < u32::MAX by {
                assert(dap.breakpoints@[entry.0@].breakpoints@[k] == entry.1.breakpoints@[k]);
            }
            documents.push(
                source_breakpoints(path, entry.0.as_str(), &entry.1.breakpoints, rules),
            );
            i = i + 1;
        }
        let stopped_threads: Vec<i64> = if dap.is_debugging {
            vec![THREAD_ID]
        } else {
            Vec::new()
        };
        assert(stopped_threads@ =~= if dap.is_debugging {
            seq![THREAD_ID]
        } else {
            Seq::empty()
        });
        let info: DebugInfo = DebugInfo {
            is_started: true,
            hash_method: "Murmur2",
            hash_seed: dap_notebook::hash_seed(),
            tmp_file_prefix: self.tmp_file_prefix.clone(),
            tmp_file_suffix: dap_notebook::tmp_file_suffix(),
            breakpoints: documents,
            stopped_threads,
            rich_rendering: false,
            exception_paths: Vec::new(),
        };
        self.success_response(request_seq, "debugInfo", JupyterBody::DebugInfo(info))
    }

    /// Handles a request that tells that the client is configured.
    pub fn handle_configuration_done(&mut self, request_seq: i64) -> (r: JupyterResponse)
        requires
            old(self).seq < i64::MAX,
        ensures
            final(self).tmp_file_prefix == old(self).tmp_file_prefix,
            final(self).seq == old(self).seq + 1,
            r.seq == old(self).seq,
            r.request_seq == request_seq,
            r.command@ == "configurationDone"@,
            r.outcome == Ok::<JupyterBody, String>(JupyterBody::Empty),
    {
        self.success_response(request_seq, "configurationDone", JupyterBody::Empty)
    }

    /// The first step of a request, which is known by its number and the name of its
    /// command, where it has them. Requests of the debug adapter protocol are left to
    /// the debug adapter.
    pub fn handle(
        &mut self,
        request_seq: Option<i64>,
        command: Option<&str>,
        code: Option<&str>,
        dap: &Dap,
        rules: &HashMap<i64, BreakpointRules>,
    ) -> (r: JupyterStep)
        requires
            old(self).seq < i64::MAX,
            forall|uri: Seq<char>, i: int|
                dap.breakpoints@.contains_key(uri) && 0 <= i
                    < dap.breakpoints@[uri].breakpoints@.len() ==> (
                #[trigger] dap.breakpoints@[uri].breakpoints@[i]).original_line < u32::MAX,
        ensures
            final(self).tmp_file_prefix == old(self).tmp_file_prefix,
            is_first_step(
                r,
                *final(self),
                *old(self),
                request_seq,
                text::opt_str(command),
                text::opt_str(code),
                *dap,
                rules@,
            ),
    {
        let request_seq: i64 = match request_seq {
            Some(n) => n,
            None => 0,
        };
        let name: &str = match command {
            Some(name) => name,
            None => {
                return JupyterStep::Dispatch { request_seq, command: "unknown".to_owned() };
            },
        };
        match command_of(name) {
            JupyterCommand::Dap => JupyterStep::Dispatch { request_seq, command: name.to_owned() },
            JupyterCommand::ConfigurationDone => JupyterStep::Respond(
                self.handle_configuration_done(request_seq),
            ),
            JupyterCommand::DebugInfo => JupyterStep::Respond(
                self.handle_debug_info(request_seq, dap, rules),
            ),
            JupyterCommand::DumpCell => match self.handle_dump_cell(request_seq, code) {
                DumpCell::Write(path) => JupyterStep::Write { request_seq, path },
                DumpCell::Respond(response) => JupyterStep::Respond(response),
            },
        }
    }

    /// The response to a request that is no request of any protocol.
    pub fn handle_unreadable(&mut self, request_seq: i64, command: &str, why: &str) -> (r:
        JupyterResponse)
        requires
            old(self).seq < i64::MAX,
        ensures
            final(self).tmp_file_prefix == old(self).tmp_file_prefix,
            final(self).seq == old(self).seq + 1,
            r.seq == old(self).seq,
            r.request_seq == request_seq,
            r.command@ == command@,
            is_failure(r, "Failed to parse request: "@ + why@),
    {
        let message: String = text::join2("Failed to parse request: ", why);
        self.error_response(request_seq, command, message.as_str())
    }
}

/// The request is left to the debug adapter.
pub open spec fn is_dispatch(r: JupyterStep, request_seq: i64, command: Seq<char>) -> bool {
    r matches JupyterStep::Dispatch { request_seq: n, command: name } && n == request_seq && name@
        == command
}

/// The response tells that something went wrong.
pub open spec fn is_failure(r: JupyterResponse, message: Seq<char>) -> bool {
    r.outcome matches Err(m) && m@ == message
}

/// What the client needs to know: how it finds the temporary source file of a
/// cell, the breakpoints of all documents, and whether R is stopped.
pub open spec fn is_debug_info(
    info: DebugInfo,
    prefix: String,
    dap: Dap,
    rules: Map<i64, BreakpointRules>,
) -> bool {
    let documents = dap.breakpoints.listed();
    &&& info.is_started
    &&& info.hash_method@ == "Murmur2"@
    &&& info.hash_seed == dap_notebook::HASH_SEED
    &&& info.tmp_file_prefix == prefix
    &&& info.tmp_file_suffix@ == ".r"@
    &&& info.breakpoints@.len() == documents.len()
    &&& forall|k: int|
        0 <= k < info.breakpoints@.len() ==> is_source_breakpoints(
            #[trigger] info.breakpoints@[k],
            documents[k].0@,
            documents[k].1.breakpoints@,
            rules,
        )
    &&& info.stopped_threads@ == (if dap.is_debugging {
        seq![THREAD_ID]
    } else {
        Seq::empty()
    })
    &&& !info.rich_rendering
    &&& info.exception_paths@.len() == 0
}

/// The first step of a request. Responses are numbered, and tell the number of the
/// request.
pub open spec fn is_first_step(
    r: JupyterStep,
    new: DapJupyterHandler,
    old: DapJupyterHandler,
    request_seq: Option<i64>,
    command: Option<Seq<char>>,
    code: Option<Seq<char>>,
    dap: Dap,
    rules: Map<i64, BreakpointRules>,
) -> bool {
    &&& new.seq == old.seq + (if r is Respond {
        1int
    } else {
        0int
    })
    &&& r matches JupyterStep::Respond(response) ==> response.seq == old.seq
        && response.request_seq == seq_of(request_seq)
    &&& match command {
        None => is_dispatch(r, seq_of(request_seq), "unknown"@),
        Some(name) => match command_named(name) {
            JupyterCommand::Dap => is_dispatch(r, seq_of(request_seq), name),
            JupyterCommand::ConfigurationDone => {
                &&& r matches JupyterStep::Respond(response)
                &&& response.command@ == "configurationDone"@
                &&& response.outcome == Ok::<JupyterBody, String>(JupyterBody::Empty)
            },
            JupyterCommand::DebugInfo => {
                &&& r matches JupyterStep::Respond(response)
                &&& response.command@ == "debugInfo"@
                &&& response.outcome matches Ok(JupyterBody::DebugInfo(info))
                &&& is_debug_info(info, old.tmp_file_prefix, dap, rules)
            },
            JupyterCommand::DumpCell => match code {
                Some(code) => r matches JupyterStep::Write { request_seq: n, path } && n == seq_of(
                    request_seq,
                ) && path@ == dap_notebook::source_path(old.tmp_file_prefix@, code),
                None => {
                    &&& r matches JupyterStep::Respond(response)
                    &&& response.command@ == "dumpCell"@
                    &&& is_failure(response, "Missing `code` in dumpCell arguments"@)
                },
            },
        },
    }
}

/// Three commands are handled right away: a cell is dumped to the file of its code, the
/// client learns what it asks for, and the end of its configuration is confirmed. All
/// other commands go to the debug adapter under their own names.
pub proof fn law_commands_of_notebooks(
    r: JupyterStep,
    new: DapJupyterHandler,
    old: DapJupyterHandler,
    n: i64,
    command: Seq<char>,
    code: Seq<char>,
    dap: Dap,
    rules: Map<i64, BreakpointRules>,
)
    ensures
        is_first_step(r, new, old, Some(n), Some(command), Some(code), dap, rules) ==> {
            &&& command == "dumpCell"@ ==> (r matches JupyterStep::Write { request_seq, path }
                && request_seq == n && path@ == dap_notebook::source_path(
                old.tmp_file_prefix@,
                code,
            ))
            &&& command == "debugInfo"@ ==> (r matches JupyterStep::Respond(answer)
                && answer.request_seq == n && answer.command@ == command && (
            answer.outcome matches Ok(JupyterBody::DebugInfo(info)) && is_debug_info(
                info,
                old.tmp_file_prefix,
                dap,
                rules,
            )))
            &&& command == "configurationDone"@ ==> (r matches JupyterStep::Respond(answer)
                && answer.request_seq == n && answer.command@ == command && answer.outcome == Ok::<
                JupyterBody,
                String,
            >(JupyterBody::Empty))
            &&& command != "dumpCell"@ && command != "debugInfo"@ && command
                != "configurationDone"@ ==> (r matches JupyterStep::Dispatch {
                request_seq,
                command: name,
            } && request_seq == n && name@ == command)
        },
        is_first_step(r, new, old, Some(n), Some("dumpCell"@), None, dap, rules) ==> (r
            matches JupyterStep::Respond(answer) && answer.request_seq == n && (answer.outcome
            matches Err(why) && why@ == "Missing `code` in dumpCell arguments"@)),
        is_first_step(r, new, old, None, None, Some(code), dap, rules) ==> (r
            matches JupyterStep::Dispatch { request_seq, command: name } && request_seq == 0
            && name@ == "unknown"@),
{
    reveal_strlit("dumpCell");
    reveal_strlit("debugInfo");
    reveal_strlit("configurationDone");
    assert("dumpCell"@.len() != "debugInfo"@.len());
    assert("dumpCell"@.len() != "configurationDone"@.len());
    assert("debugInfo"@.len() != "configurationDone"@.len());
}

/// Only responses are numbered, one after the other.
pub proof fn law_responses_are_numbered(
    r: JupyterStep,
    new: DapJupyterHandler,
    old: DapJupyterHandler,
    request_seq: Option<i64>,
    command: Option<Seq<char>>,
    code: Option<Seq<char>>,
    dap: Dap,
    rules: Map<i64, BreakpointRules>,
)
    requires
        is_first_step(r, new, old, request_seq, command, code, dap, rules),
    ensures
        r matches JupyterStep::Respond(answer) ==> answer.seq == old.seq && new.seq == old.seq + 1,
        !(r is Respond) ==> new.seq == old.seq,
{
}

/// The client learns how cells are hashed, where they are dumped, whether R is stopped, and
/// all that is set in documents.
pub proof fn law_what_clients_learn(
    info: DebugInfo,
    prefix: String,
    dap: Dap,
    rules: Map<i64, BreakpointRules>,
)
    requires
        is_debug_info(info, prefix, dap, rules),
    ensures
        info.is_started,
        info.hash_method@ == "Murmur2"@,
        info.hash_seed == 0,
        info.tmp_file_prefix == prefix,
        info.tmp_file_suffix@ == ".r"@,
        dap.is_debugging ==> info.stopped_threads@ == seq![-1i64],
        !dap.is_debugging ==> info.stopped_threads@.len() == 0,
        !info.rich_rendering,
        info.exception_paths@.len() == 0,
        info.breakpoints@.len() == dap.breakpoints.listed().len(),
        forall|k: int|
            0 <= k < info.breakpoints@.len() ==> is_source_breakpoints(
                #[trigger] info.breakpoints@[k],
                dap.breakpoints.listed()[k].0@,
                dap.breakpoints.listed()[k].1.breakpoints@,
                rules,
            ),
{
}

/// Of a document, every breakpoint that is not disabled is restored, on the line that the
/// user asked for, counted from one, with its own rules. No other is.
pub proof fn law_breakpoints_are_restored(
    s: SourceBreakpoints,
    uri: Seq<char>,
    bps: Seq<Breakpoint>,
    rules: Map<i64, BreakpointRules>,
)
    requires
        is_source_breakpoints(s, uri, bps, rules),
    ensures
        forall|i: int|
            #![trigger bps[i]]
            0 <= i < bps.len() && !(bps[i].state is Disabled) ==> exists|k: int|
                #![trigger s.breakpoints@[k]]
                0 <= k < s.breakpoints@.len() && s.breakpoints@[k].line == bps[i].original_line + 1
                    && has_rules_of(s.breakpoints@[k], rules, bps[i].id),
        forall|k: int|
            #![trigger s.breakpoints@[k]]
            0 <= k < s.breakpoints@.len() ==> exists|i: int|
                #![trigger bps[i]]
                0 <= i < bps.len() && !(bps[i].state is Disabled) && s.breakpoints@[k].line
                    == bps[i].original_line + 1 && has_rules_of(
                    s.breakpoints@[k],
                    rules,
                    bps[i].id,
                ),
        urls::url_file_path(uri) is None ==> s.source@ == uri,
        urls::url_file_path(uri) is Some ==> s.source@ == urls::url_file_path(uri)->0,
{
    let on = |bp: Breakpoint| !(bp.state is Disabled);
    let kept = bps.filter(on);
    assert(kept == enabled_breakpoints(bps));
    assert forall|i: int|
        #![trigger bps[i]]
        0 <= i < bps.len() && !(bps[i].state is Disabled) implies exists|k: int|
        #![trigger s.breakpoints@[k]]
        0 <= k < s.breakpoints@.len() && s.breakpoints@[k].line == bps[i].original_line + 1
            && has_rules_of(s.breakpoints@[k], rules, bps[i].id) by {
        bps.lemma_filter_contains(on, i);
        let k = choose|k: int| 0 <= k < kept.len() && kept[k] == bps[i];
        assert(is_source_breakpoint(s.breakpoints@[k], kept[k], rules));
    }
    assert forall|k: int|
        #![trigger s.breakpoints@[k]]
        0 <= k < s.breakpoints@.len() implies exists|i: int|
        #![trigger bps[i]]
        0 <= i < bps.len() && !(bps[i].state is Disabled) && s.breakpoints@[k].line
            == bps[i].original_line + 1 && has_rules_of(s.breakpoints@[k], rules, bps[i].id) by {
        assert(is_source_breakpoint(s.breakpoints@[k], kept[k], rules));
        bps.lemma_filter_contains_rev(on, kept[k]);
        let i = choose|i: int| 0 <= i < bps.len() && bps[i] == kept[k];
        assert(bps[i] == kept[k]);
        bps.lemma_filter_pred(on, k);
    }
}

/// The breakpoint is restored with the rules that are kept under its id, or with none.
pub open spec fn has_rules_of(
    s: SourceBreakpoint,
    rules: Map<i64, BreakpointRules>,
    id: i64,
) -> bool {
    if rules.contains_key(id) {
        &&& text::opt_text(s.condition) == text::opt_text(rules[id].condition)
        &&& text::opt_text(s.log_message) == text::opt_text(rules[id].log_message)
        &&& text::opt_text(s.hit_condition) == text::opt_text(rules[id].hit_condition)
    } else {
        s.condition is None && s.log_message is None && s.hit_condition is None
    }
}

/// Commands of the debugger are sent to R whichever way they come, a request to pause
/// interrupts R, and a restart is not supported.
pub proof fn law_events_in_notebooks(command: DebugRequest)
    ensures
        event_of(Action::ExecuteInFrontend(command)) == ConsoleEvent::SendCommand(command),
        event_of(Action::ExecuteInConsole(command)) == ConsoleEvent::SendCommand(command),
        event_of(Action::Interrupt) == ConsoleEvent::InterruptR,
        event_of(Action::Restart) == ConsoleEvent::NoRestart,
{
}

} // verus!
