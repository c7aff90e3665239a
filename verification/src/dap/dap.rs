//! The state of the debugger, shared by the console and the debug adapter.
use std::collections::HashMap;
use vstd::prelude::*;

use crate::console::console_debug::{DebugStoppedReason, FrameInfo};
use crate::dap::breakpoints::{
    from_dap_lines, law_new_document, law_set_at_lines, lines_from_dap, reconciled,
    update_breakpoints, updated, Breakpoint, BreakpointState, InvalidReason,
};
use crate::dap::dap_variables::RVariable;
use crate::r_object::RObject;
use crate::text;
use crate::text_map::TextMap;

verus! {

broadcast use vstd::std_specs::hash::group_hash_axioms;

/// What the debugger tells the debug adapter's client.
#[derive(Debug)]
pub enum DapBackendEvent {
    /// A normal prompt marks the end of a debugging session.
    Terminated,
    /// The user resumed execution.
    Continued,
    /// A browser prompt was emitted during a debugging session.
    Stopped,
    /// Code was evaluated in the console, so that variables are to be refreshed.
    Invalidated,
    /// The state of a breakpoint changed. The line is that of its actual place,
    /// counted from zero. The message says why a breakpoint is invalid.
    BreakpointState { id: i64, line: u32, verified: bool, message: Option<String> },
    /// A condition was signalled.
    Exception(DapExceptionEvent),
}

#[derive(Debug)]
pub struct DapExceptionEvent {
    pub class: String,
    pub message: String,
}

/// What an event tells, over texts.
#[verifier::ext_equal]
pub enum EventModel {
    Terminated,
    Continued,
    Stopped,
    Invalidated,
    BreakpointState { id: i64, line: u32, verified: bool, message: Option<Seq<char>> },
    Exception(Seq<char>, Seq<char>),
}

impl View for DapBackendEvent {
    type V = EventModel;

    open spec fn view(&self) -> EventModel {
        match self {
            DapBackendEvent::Terminated => EventModel::Terminated,
            DapBackendEvent::Continued => EventModel::Continued,
            DapBackendEvent::Stopped => EventModel::Stopped,
            DapBackendEvent::Invalidated => EventModel::Invalidated,
            DapBackendEvent::BreakpointState { id, line, verified, message } =>
                EventModel::BreakpointState {
                id: *id,
                line: *line,
                verified: *verified,
                message: text::opt_text(*message),
            },
            DapBackendEvent::Exception(e) => EventModel::Exception(e.class@, e.message@),
        }
    }
}

/// What events tell.
pub open spec fn event_models(events: Seq<DapBackendEvent>) -> Seq<EventModel> {
    events.map_values(|e: DapBackendEvent| e@)
}

/// The hash of a document's content.
pub uninterp spec fn blake3_hash(content: Seq<u8>) -> Seq<u8>;

/// `blake3::hash` of the crate `blake3`: the hash of the bytes, which has 32
/// bytes and depends on the bytes alone.
#[verifier::external_body]
fn hash_bytes(content: &[u8]) -> (r: Vec<u8>)
    ensures
        r@ == blake3_hash(content@),
        r@.len() == 32,
{
    blake3::hash(content).as_bytes().to_vec()
}

/// The hash of a document.
pub open spec fn spec_document_hash(content: Seq<char>) -> Seq<u8> {
    blake3_hash(vstd::utf8::encode_utf8(content))
}

/// The hash of a document.
pub fn document_hash(content: &str) -> (r: Vec<u8>)
    ensures
        r@ == spec_document_hash(content@),
{
    hash_bytes(content.as_bytes())
}

fn same_bytes(a: &Vec<u8>, b: &Vec<u8>) -> (r: bool)
    ensures
        r == (a@ == b@),
{
    if a.len() != b.len() {
        return false;
    }
    let n: usize = a.len();
    let mut i: usize = 0;
    while i < n
        invariant
            n == a@.len(),
            n == b@.len(),
            i <= n,
            forall|k: int| 0 <= k < i ==> a@[k] == b@[k],
        decreases n - i,
    {
        if a[i] != b[i] {
            return false;
        }
        i = i + 1;
    }
    assert(a@ =~= b@);
    true
}

/// The breakpoints of a document, with the hash of the content that they were set
/// in.
#[derive(Debug)]
pub struct DocumentBreakpoints {
    pub hash: Vec<u8>,
    pub breakpoints: Vec<Breakpoint>,
}

/// The breakpoints of a document, for a reply to the frontend. The line is counted
/// from one.
#[derive(Debug, PartialEq, Eq)]
pub struct ReplyBreakpoint {
    pub id: i64,
    pub verified: bool,
    pub line: i64,
    pub message: Option<String>,
}

/// Messages for the two frontends: whether the notification is sent over the comm,
/// and what event is sent to the debug adapter's client.
#[derive(Debug)]
pub struct DebugMessages {
    pub notify: bool,
    pub event: Option<DapBackendEvent>,
}

pub struct Dap {
    /// Whether R is stopped with a browser prompt.
    pub is_debugging: bool,
    /// Whether the debug adapter is connected to a client.
    pub is_connected: bool,
    /// Whether a comm to the frontend is open.
    pub has_comm: bool,
    /// Whether events reach a client. There has been a client if so.
    pub has_client: bool,
    /// The current call stack.
    pub stack: Option<Vec<FrameInfo>>,
    /// The known breakpoints of each document, by its URI.
    pub breakpoints: TextMap<DocumentBreakpoints>,
    /// The filters of the exception breakpoints that are enabled.
    pub exception_breakpoint_filters: Vec<String>,
    /// The references of sources that have no file, by the source.
    pub fallback_sources: TextMap<String>,
    /// The variables reference of each frame of the stack. Reset after each debug
    /// step.
    pub frame_id_to_variables_reference: HashMap<i64, i64>,
    /// The object whose children a variables reference stands for. Reset after
    /// each debug step.
    pub variables_reference_to_r_object: HashMap<i64, RObject>,
    /// The next variables reference. Unique within a debug session: it is not
    /// reset between steps, so that a late request never gets the children of
    /// another object.
    pub current_variables_reference: i64,
    /// The next id of a breakpoint.
    pub current_breakpoint_id: i64,
    /// Whether an interrupt was sent to stop in the debugger.
    pub is_interrupting_for_debugger: bool,
}

/// The variables references of the first `count` frames, from `first` on.
pub open spec fn frame_references(stack: Seq<FrameInfo>, first: int, count: int) -> Map<i64, i64>
    decreases count,
{
    if count <= 0 {
        Map::empty()
    } else {
        frame_references(stack, first, count - 1).insert(
            stack[count - 1].id,
            (first + count - 1) as i64,
        )
    }
}

/// The objects of the first `count` frames, with references from `first` on. A
/// frame without an environment stands for the global environment.
pub open spec fn frame_objects(
    stack: Seq<FrameInfo>,
    first: int,
    count: int,
    global: RObject,
) -> Map<i64, RObject>
    decreases count,
{
    if count <= 0 {
        Map::empty()
    } else {
        frame_objects(stack, first, count - 1, global).insert(
            (first + count - 1) as i64,
            match stack[count - 1].environment {
                Some(env) => env,
                None => global,
            },
        )
    }
}

/// The frame without its environment.
pub open spec fn without_environment(f: FrameInfo) -> FrameInfo {
    FrameInfo { environment: None, ..f }
}

/// The map with the entries added, in their order.
pub open spec fn extended(
    m: Map<Seq<char>, String>,
    entries: Seq<(String, String)>,
) -> Map<Seq<char>, String>
    decreases entries.len(),
{
    if entries.len() == 0 {
        m
    } else {
        extended(m, entries.drop_last()).insert(entries.last().0@, entries.last().1)
    }
}

/// The event that tells why R stopped.
pub open spec fn stopped_event(reason: DebugStoppedReason) -> EventModel {
    match reason {
        DebugStoppedReason::Step => EventModel::Stopped,
        DebugStoppedReason::Pause => EventModel::Stopped,
        DebugStoppedReason::Condition { class, message } => EventModel::Exception(
            class@,
            message@,
        ),
    }
}

/// The number of variables that have children, among the first `count`.
pub open spec fn structured(variables: Seq<RVariable>, count: int) -> int
    decreases count,
{
    if count <= 0 {
        0
    } else {
        structured(variables, count - 1) + if variables[count
            - 1].variables_reference_object is Some {
            1int
        } else {
            0int
        }
    }
}

/// The objects of the variables that have children, among the first `count`, with
/// references from `first` on, added to `m`.
pub open spec fn with_variable_objects(
    m: Map<i64, RObject>,
    variables: Seq<RVariable>,
    first: int,
    count: int,
) -> Map<i64, RObject>
    decreases count,
{
    if count <= 0 {
        m
    } else {
        let less = with_variable_objects(m, variables, first, count - 1);
        match variables[count - 1].variables_reference_object {
            Some(object) => less.insert((first + structured(variables, count - 1)) as i64, object),
            None => less,
        }
    }
}

/// A variable as the protocol shows it.
#[derive(Debug, PartialEq, Eq)]
pub struct Variable {
    pub name: String,
    pub value: String,
    pub type_field: Option<String>,
    /// The reference by which children are asked for, or zero if there are none.
    pub variables_reference: i64,
}

/// The result of an evaluation as the protocol shows it.
#[derive(Debug, PartialEq, Eq)]
pub struct EvaluateResponse {
    pub result: String,
    pub type_field: Option<String>,
    pub variables_reference: i64,
}

/// The reference of the variable at place `i`.
pub open spec fn reference_of(variables: Seq<RVariable>, first: int, i: int) -> int {
    match variables[i].variables_reference_object {
        Some(_) => first + structured(variables, i),
        None => 0,
    }
}

/// The breakpoint is verified by an evaluation of the lines from `start` up to
/// `end`: it was injected there and is not verified yet.
pub open spec fn verified_by_range(bp: Breakpoint, start: u32, end: u32) -> bool {
    bp.state is Unverified && bp.injected && start <= bp.line < end
}

/// The breakpoint once it is verified.
pub open spec fn verified(bp: Breakpoint) -> Breakpoint {
    Breakpoint { state: BreakpointState::Verified, ..bp }
}

/// The event that tells that a breakpoint is verified.
pub open spec fn verified_event(bp: Breakpoint) -> EventModel {
    EventModel::BreakpointState { id: bp.id, line: bp.line, verified: true, message: None }
}

/// The breakpoints after the lines from `start` up to `end` were evaluated.
pub open spec fn range_verified(bps: Seq<Breakpoint>, start: u32, end: u32) -> Seq<Breakpoint> {
    bps.map_values(
        |bp: Breakpoint|
            if verified_by_range(bp, start, end) {
                verified(bp)
            } else {
                bp
            },
    )
}

/// The events that tell which breakpoints an evaluation verified.
pub open spec fn range_events(bps: Seq<Breakpoint>, start: u32, end: u32) -> Seq<EventModel>
    decreases bps.len(),
{
    if bps.len() == 0 {
        Seq::empty()
    } else {
        let rest = range_events(bps.drop_last(), start, end);
        if verified_by_range(bps.last(), start, end) {
            rest.push(verified_event(bps.last()))
        } else {
            rest
        }
    }
}

/// The first breakpoint with an id.
pub open spec fn by_id(bps: Seq<Breakpoint>, id: Seq<char>, from: int) -> Option<int>
    decreases bps.len() - from,
{
    if from < 0 || from >= bps.len() {
        None
    } else if text::decimal_int(bps[from].id as int) == id {
        Some(from)
    } else {
        by_id(bps, id, from + 1)
    }
}

/// The events that tell that the breakpoints of a changed document are no longer
/// verified.
pub open spec fn unverified_events(bps: Seq<Breakpoint>) -> Seq<EventModel> {
    bps.map_values(
        |bp: Breakpoint|
            EventModel::BreakpointState { id: bp.id, line: bp.line, verified: false, message: None },
    )
}

/// The events that tell why breakpoints are invalid.
pub open spec fn invalid_events(bps: Seq<Breakpoint>) -> Seq<EventModel>
    decreases bps.len(),
{
    if bps.len() == 0 {
        Seq::empty()
    } else {
        let rest = invalid_events(bps.drop_last());
        match bps.last().state {
            BreakpointState::Invalid(reason) => rest.push(
                EventModel::BreakpointState {
                    id: bps.last().id,
                    line: bps.last().line,
                    verified: false,
                    message: Some(reason.spec_message()),
                },
            ),
            _ => rest,
        }
    }
}

/// The breakpoints that are not disabled.
pub open spec fn enabled_breakpoints(bps: Seq<Breakpoint>) -> Seq<Breakpoint> {
    bps.filter(|bp: Breakpoint| !(bp.state is Disabled))
}

/// What a reply says of a breakpoint.
pub open spec fn is_reply(r: ReplyBreakpoint, bp: Breakpoint) -> bool {
    &&& r.id == bp.id
    &&& r.verified == (bp.state is Verified)
    &&& r.line == bp.line + 1
    &&& text::opt_text(r.message) == match bp.state {
        BreakpointState::Invalid(reason) => Some(reason.spec_message()),
        _ => None,
    }
}

/// The breakpoints that are known of a document with the given hash: none if its
/// content changed since they were set.
pub open spec fn known_breakpoints(
    m: Map<Seq<char>, DocumentBreakpoints>,
    uri: Seq<char>,
    hash: Seq<u8>,
) -> Seq<Breakpoint> {
    if m.contains_key(uri) && m[uri].hash@ == hash {
        m[uri].breakpoints@
    } else {
        Seq::empty()
    }
}

fn copy_breakpoints(bps: &Vec<Breakpoint>) -> (r: Vec<Breakpoint>)
    ensures
        r@ == bps@,
{
    let mut r: Vec<Breakpoint> = Vec::new();
    let n: usize = bps.len();
    let mut i: usize = 0;
    while i < n
        invariant
            n == bps@.len(),
            i <= n,
            r@ == bps@.take(i as int),
        decreases n - i,
    {
        r.push(bps[i]);
        i = i + 1;
    }
    r
}

/// What a reply says of breakpoints: those that are not disabled.
pub fn reply_breakpoints(bps: &Vec<Breakpoint>) -> (r: Vec<ReplyBreakpoint>)
    requires
        forall|i: int| 0 <= i < bps@.len() ==> (#[trigger] bps@[i]).line < u32::MAX,
    ensures
        r@.len() == enabled_breakpoints(bps@).len(),
        forall|i: int|
            0 <= i < r@.len() ==> is_reply(#[trigger] r@[i], enabled_breakpoints(bps@)[i]),
{
    let mut r: Vec<ReplyBreakpoint> = Vec::new();
    let n: usize = bps.len();
    let mut i: usize = 0;
    let ghost on = |bp: Breakpoint| !(bp.state is Disabled);
    while i < n
        invariant
            n == bps@.len(),
            i <= n,
            on == (|bp: Breakpoint| !(bp.state is Disabled)),
            forall|i: int| 0 <= i < bps@.len() ==> (#[trigger] bps@[i]).line < u32::MAX,
            r@.len() == bps@.take(i as int).filter(on).len(),
            forall|k: int|
                0 <= k < r@.len() ==> is_reply(
                    #[trigger] r@[k],
                    bps@.take(i as int).filter(on)[k],
                ),
        decreases n - i,
    {
        let bp: Breakpoint = bps[i];
        proof {
            assert(bps@.take(i + 1) =~= bps@.take(i as int).push(bp));
            bps@.take(i as int).lemma_filter_push(bp, on);
        }
        match bp.state {
            BreakpointState::Disabled => {},
            BreakpointState::Invalid(reason) => {
                r.push(
                    ReplyBreakpoint {
                        id: bp.id,
                        verified: false,
                        line: Breakpoint::to_dap_line(bp.line),
                        message: Some(reason.message().to_owned()),
                    },
                );
            },
            BreakpointState::Verified => {
                r.push(
                    ReplyBreakpoint {
                        id: bp.id,
                        verified: true,
                        line: Breakpoint::to_dap_line(bp.line),
                        message: None,
                    },
                );
            },
            BreakpointState::Unverified => {
                r.push(
                    ReplyBreakpoint {
                        id: bp.id,
                        verified: false,
                        line: Breakpoint::to_dap_line(bp.line),
                        message: None,
                    },
                );
            },
        }
        i = i + 1;
    }
    assert(bps@.take(n as int) =~= bps@);
    r
}

/// How the evaluation of an expression failed.
#[derive(Debug)]
pub enum EvalError {
    /// R signalled an error with this message.
    Signalled { message: String },
    /// Something else failed, described by this text.
    Other(String),
}

/// The message of a failed evaluation.
pub fn evaluate_error_message(err: EvalError) -> (r: String)
    ensures
        r == match err {
            EvalError::Signalled { message } => message,
            EvalError::Other(text) => text,
        },
{
    match err {
        EvalError::Signalled { message } => message,
        EvalError::Other(text) => text,
    }
}

/// Why the environment of a frame is not found, in words.
pub open spec fn frame_env_error(
    frames: Map<i64, i64>,
    frame_id: i64,
) -> Seq<char> {
    if frames.contains_key(frame_id) {
        "Unknown `variables_reference`: "@ + text::decimal_int(frames[frame_id] as int)
    } else {
        "Unknown `frame_id`: "@ + text::decimal_int(frame_id as int)
    }
}

/// After some code of a document was evaluated: the breakpoints that were injected
/// into it are verified, and a client is told.
pub open spec fn range_is_verified(
    new: Dap,
    old: Dap,
    uri: Seq<char>,
    start_line: u32,
    end_line: u32,
    r: Seq<DapBackendEvent>,
) -> bool {
    &&& if old.breakpoints@.contains_key(uri) {
        let before = old.breakpoints@[uri];
        let after = new.breakpoints@[uri];
        &&& after.hash == before.hash
        &&& after.breakpoints@ == range_verified(before.breakpoints@, start_line, end_line)
        &&& new.breakpoints@ == old.breakpoints@.insert(uri, after)
        &&& event_models(r) == (if old.has_client {
            range_events(before.breakpoints@, start_line, end_line)
        } else {
            Seq::empty()
        })
    } else {
        new.breakpoints@ == old.breakpoints@ && r.len() == 0
    }
    &&& new == (Dap { breakpoints: new.breakpoints, ..old })
}

/// After a breakpoint of a document was reached: it is verified, and a client is
/// told.
pub open spec fn one_is_verified(
    new: Dap,
    old: Dap,
    uri: Seq<char>,
    id: Seq<char>,
    r: Option<DapBackendEvent>,
) -> bool {
    let known = old.breakpoints@.contains_key(uri);
    let before = old.breakpoints@[uri];
    let place = by_id(before.breakpoints@, id, 0);
    &&& if known && place is Some && before.breakpoints@[place->0].state is Unverified {
        let bp = before.breakpoints@[place->0];
        let after = new.breakpoints@[uri];
        &&& after.hash == before.hash
        &&& after.breakpoints@ == before.breakpoints@.update(place->0, verified(bp))
        &&& new.breakpoints@ == old.breakpoints@.insert(uri, after)
        &&& if old.has_client {
            r is Some && r->0@ == verified_event(bp)
        } else {
            r is None
        }
    } else {
        new.breakpoints@ == old.breakpoints@ && r is None
    }
    &&& new == (Dap { breakpoints: new.breakpoints, ..old })
}

/// A breakpoint of a document is enabled.
pub open spec fn breakpoint_enabled(dap: Dap, uri: Seq<char>, id: Seq<char>) -> bool {
    dap.breakpoints@.contains_key(uri) && exists|i: int|
        0 <= i < dap.breakpoints@[uri].breakpoints@.len() && stops_at(
            #[trigger] dap.breakpoints@[uri].breakpoints@[i],
            id,
        )
}

impl Dap {
    /// The state of a debugger that nothing is known of.
    pub fn new() -> (r: Self)
        ensures
            !r.is_debugging,
            !r.is_connected,
            !r.has_comm,
            !r.has_client,
            r.stack is None,
            r.breakpoints@ == Map::<Seq<char>, DocumentBreakpoints>::empty(),
            r.exception_breakpoint_filters@.len() == 0,
            r.fallback_sources@ == Map::<Seq<char>, String>::empty(),
            r.frame_id_to_variables_reference@ == Map::<i64, i64>::empty(),
            r.variables_reference_to_r_object@ == Map::<i64, RObject>::empty(),
            r.current_variables_reference == 1,
            r.current_breakpoint_id == 1,
            !r.is_interrupting_for_debugger,
    {
        Self {
            is_debugging: false,
            is_connected: false,
            has_comm: false,
            has_client: false,
            stack: None,
            breakpoints: TextMap::new(),
            exception_breakpoint_filters: Vec::new(),
            fallback_sources: TextMap::new(),
            frame_id_to_variables_reference: HashMap::new(),
            variables_reference_to_r_object: HashMap::new(),
            current_variables_reference: 1,
            current_breakpoint_id: 1,
            is_interrupting_for_debugger: false,
        }
    }

    /// R entered the debugger with `stack`. Every frame gets a variables
    /// reference. If a frontend is there it is to show that R is debugging, and
    /// the client is told why R stopped.
    pub fn start_debug(
        &mut self,
        stack: Vec<FrameInfo>,
        fallback_sources: Vec<(String, String)>,
        stopped_reason: DebugStoppedReason,
        global: RObject,
    ) -> (r: DebugMessages)
        requires
            old(self).current_variables_reference + stack@.len() <= i64::MAX,
            old(self).current_variables_reference >= 0,
        ensures
            is_debugging_at(
                r,
                *final(self),
                *old(self),
                stack@,
                fallback_sources@,
                stopped_reason,
                global,
            ),
    {
        self.is_debugging = true;
        let ghost sources = self.fallback_sources@;
        let m: usize = fallback_sources.len();
        let mut j: usize = 0;
        while j < m
            invariant
                m == fallback_sources@.len(),
                j <= m,
                *self == (Dap {
                    is_debugging: true,
                    fallback_sources: self.fallback_sources,
                    ..*old(self)
                }),
                sources == old(self).fallback_sources@,
                self.fallback_sources@ == extended(sources, fallback_sources@.take(j as int)),
            decreases m - j,
        {
            assert(fallback_sources@.take(j + 1).drop_last() =~= fallback_sources@.take(j as int));
            self.fallback_sources.insert(
                fallback_sources[j].0.clone(),
                fallback_sources[j].1.clone(),
            );
            j = j + 1;
        }
        assert(fallback_sources@.take(m as int) =~= fallback_sources@);
        let shown: Vec<FrameInfo> = self.load_variables_references(stack, global);
        self.stack = Some(shown);
        let notify: bool = self.has_comm;
        let event: Option<DapBackendEvent> = if self.has_comm && self.has_client {
            Some(
                match stopped_reason {
                    DebugStoppedReason::Step => DapBackendEvent::Stopped,
                    DebugStoppedReason::Pause => DapBackendEvent::Stopped,
                    DebugStoppedReason::Condition { class, message } => DapBackendEvent::Exception(
                        DapExceptionEvent { class, message },
                    ),
                },
            )
        } else {
            None
        };
        DebugMessages { notify, event }
    }

    /// Gives every frame of the stack a new variables reference, which stands for
    /// its environment, in place of those of the last step. The environments move
    /// out of the frames.
    fn load_variables_references(&mut self, stack: Vec<FrameInfo>, global: RObject) -> (r: Vec<
        FrameInfo,
    >)
        requires
            old(self).current_variables_reference + stack@.len() <= i64::MAX,
            old(self).current_variables_reference >= 0,
        ensures
            r@ == stack@.map_values(|f: FrameInfo| without_environment(f)),
            final(self).frame_id_to_variables_reference@ == frame_references(
                stack@,
                old(self).current_variables_reference as int,
                stack@.len() as int,
            ),
            final(self).variables_reference_to_r_object@ == frame_objects(
                stack@,
                old(self).current_variables_reference as int,
                stack@.len() as int,
                global,
            ),
            *final(self) == (Dap {
                frame_id_to_variables_reference: final(self).frame_id_to_variables_reference,
                variables_reference_to_r_object: final(self).variables_reference_to_r_object,
                current_variables_reference: (old(self).current_variables_reference
                    + stack@.len()) as i64,
                ..*old(self)
            }),
    {
        self.clear_variables_reference_maps();
        let first: i64 = self.current_variables_reference;
        let mut frames: Vec<FrameInfo> = stack;
        let n: usize = frames.len();
        let mut i: usize = 0;
        while i < n
            invariant
                n == stack@.len(),
                n == frames@.len(),
                i <= n,
                first == old(self).current_variables_reference,
                0 <= first,
                first + n <= i64::MAX,
                forall|k: int|
                    0 <= k < n ==> #[trigger] frames@[k] == (if k < i {
                        without_environment(stack@[k])
                    } else {
                        stack@[k]
                    }),
                self.frame_id_to_variables_reference@ == frame_references(
                    stack@,
                    first as int,
                    i as int,
                ),
                self.variables_reference_to_r_object@ == frame_objects(
                    stack@,
                    first as int,
                    i as int,
                    global,
                ),
                *self == (Dap {
                    frame_id_to_variables_reference: self.frame_id_to_variables_reference,
                    variables_reference_to_r_object: self.variables_reference_to_r_object,
                    current_variables_reference: (first + i) as i64,
                    ..*old(self)
                }),
            decreases n - i,
        {
            assert(frames@[i as int] == stack@[i as int]);
            let environment: RObject = match frames[i].environment {
                Some(env) => env,
                None => global,
            };
            let id: i64 = frames[i].id;
            let reference: i64 = self.current_variables_reference;
            frames[i].environment = None;
            let _ = self.frame_id_to_variables_reference.insert(id, reference);
            let _ = self.variables_reference_to_r_object.insert(reference, environment);
            self.current_variables_reference = self.current_variables_reference + 1;
            i = i + 1;
        }
        assert(frames@ =~= stack@.map_values(|f: FrameInfo| without_environment(f)));
        frames
    }

    fn clear_variables_reference_maps(&mut self)
        ensures
            final(self).frame_id_to_variables_reference@ == Map::<i64, i64>::empty(),
            final(self).variables_reference_to_r_object@ == Map::<i64, RObject>::empty(),
            *final(self) == (Dap {
                frame_id_to_variables_reference: final(self).frame_id_to_variables_reference,
                variables_reference_to_r_object: final(self).variables_reference_to_r_object,
                ..*old(self)
            }),
    {
        self.frame_id_to_variables_reference.clear();
        self.variables_reference_to_r_object.clear();
    }

    /// R left the debugger. What is known of the session is forgotten. If R was
    /// debugging and a client is connected, the frontend is to show that R is no
    /// longer debugging, and the client is told that R went on, so that it stays
    /// connected.
    pub fn stop_debug(&mut self) -> (r: DebugMessages)
        ensures
            has_stopped(r, *final(self), *old(self)),
    {
        self.stack = None;
        self.is_interrupting_for_debugger = false;
        self.fallback_sources.clear();
        self.clear_variables_reference_maps();
        self.current_variables_reference = 1;
        let was_debugging: bool = self.is_debugging;
        self.is_debugging = false;
        let notify: bool = was_debugging && self.is_connected && self.has_comm;
        let event: Option<DapBackendEvent> = if notify && self.has_client {
            Some(DapBackendEvent::Continued)
        } else {
            None
        };
        DebugMessages { notify, event }
    }

    /// The event that asks the client to refresh variables.
    pub fn send_invalidated(&self) -> (r: Option<DapBackendEvent>)
        ensures
            r is Some == self.has_client,
            r matches Some(e) ==> e@ == EventModel::Invalidated,
    {
        if self.has_client {
            Some(DapBackendEvent::Invalidated)
        } else {
            None
        }
    }

    /// Gives an object that has children a new variables reference.
    pub fn insert_variables_reference_object(&mut self, x: RObject) -> (r: i64)
        requires
            old(self).current_variables_reference < i64::MAX,
        ensures
            r == old(self).current_variables_reference,
            final(self).variables_reference_to_r_object@
                == old(self).variables_reference_to_r_object@.insert(r, x),
            *final(self) == (Dap {
                variables_reference_to_r_object: final(self).variables_reference_to_r_object,
                current_variables_reference: (r + 1) as i64,
                ..*old(self)
            }),
    {
        let reference: i64 = self.current_variables_reference;
        let _ = self.variables_reference_to_r_object.insert(reference, x);
        self.current_variables_reference = self.current_variables_reference + 1;
        reference
    }

    /// The variables as the protocol shows them. Those that have children get a
    /// new variables reference, by which the children can be asked for.
    pub fn into_variables(&mut self, variables: Vec<RVariable>) -> (r: Vec<Variable>)
        requires
            old(self).current_variables_reference + variables@.len() <= i64::MAX,
            old(self).current_variables_reference >= 0,
        ensures
            r@.len() == variables@.len(),
            forall|i: int|
                0 <= i < r@.len() ==> {
                    &&& (#[trigger] r@[i]).name == variables@[i].name
                    &&& r@[i].value == variables@[i].value
                    &&& r@[i].type_field == variables@[i].type_field
                    &&& r@[i].variables_reference == reference_of(
                        variables@,
                        old(self).current_variables_reference as int,
                        i,
                    )
                },
            final(self).variables_reference_to_r_object@ == with_variable_objects(
                old(self).variables_reference_to_r_object@,
                variables@,
                old(self).current_variables_reference as int,
                variables@.len() as int,
            ),
            *final(self) == (Dap {
                variables_reference_to_r_object: final(self).variables_reference_to_r_object,
                current_variables_reference: (old(self).current_variables_reference + structured(
                    variables@,
                    variables@.len() as int,
                )) as i64,
                ..*old(self)
            }),
    {
        let mut out: Vec<Variable> = Vec::new();
        let first: i64 = self.current_variables_reference;
        let n: usize = variables.len();
        let mut i: usize = 0;
        while i < n
            invariant
                n == variables@.len(),
                i <= n,
                out@.len() == i,
                first == old(self).current_variables_reference,
                0 <= first,
                first + n <= i64::MAX,
                0 <= structured(variables@, i as int) <= i,
                forall|k: int|
                    0 <= k < i ==> {
                        &&& (#[trigger] out@[k]).name == variables@[k].name
                        &&& out@[k].value == variables@[k].value
                        &&& out@[k].type_field == variables@[k].type_field
                        &&& out@[k].variables_reference == reference_of(
                            variables@,
                            first as int,
                            k,
                        )
                    },
                self.variables_reference_to_r_object@ == with_variable_objects(
                    old(self).variables_reference_to_r_object@,
                    variables@,
                    first as int,
                    i as int,
                ),
                *self == (Dap {
                    variables_reference_to_r_object: self.variables_reference_to_r_object,
                    current_variables_reference: (first + structured(
                        variables@,
                        i as int,
                    )) as i64,
                    ..*old(self)
                }),
            decreases n - i,
        {
            let reference: i64 = match variables[i].variables_reference_object {
                Some(x) => self.insert_variables_reference_object(x),
                None => 0,
            };
            let type_field: Option<String> = match &variables[i].type_field {
                Some(t) => Some(t.clone()),
                None => None,
            };
            out.push(
                Variable {
                    name: variables[i].name.clone(),
                    value: variables[i].value.clone(),
                    type_field,
                    variables_reference: reference,
                },
            );
            i = i + 1;
        }
        out
    }

    /// The result of an evaluation as the protocol shows it.
    pub fn into_evaluate_response(&mut self, variable: RVariable) -> (r: EvaluateResponse)
        requires
            old(self).current_variables_reference < i64::MAX,
        ensures
            is_evaluated(r, *final(self), *old(self), variable),
    {
        let variables_reference: i64 = match variable.variables_reference_object {
            Some(x) => self.insert_variables_reference_object(x),
            None => 0,
        };
        EvaluateResponse {
            result: variable.value,
            type_field: variable.type_field,
            variables_reference,
        }
    }

    /// The environment of a frame, and the global environment for no frame.
    pub fn frame_env(&self, frame_id: Option<i64>, global: RObject) -> (r: Result<RObject, String>)
        ensures
            is_frame_env(r, *self, frame_id, global),
    {
        let id: i64 = match frame_id {
            None => {
                return Ok(global);
            },
            Some(id) => id,
        };
        let reference: i64 = match self.frame_id_to_variables_reference.get(&id) {
            Some(reference) => *reference,
            None => {
                return Err(text::join2("Unknown `frame_id`: ", text::i64_text(id).as_str()));
            },
        };
        match self.variables_reference_to_r_object.get(&reference) {
            Some(object) => Ok(*object),
            None => Err(
                text::join2(
                    "Unknown `variables_reference`: ",
                    text::i64_text(reference).as_str(),
                ),
            ),
        }
    }

    /// The environment of a frame, and the global environment for no frame.
    pub fn get_frame_env(&self, frame_id: Option<i64>, global: RObject) -> (r: Result<
        RObject,
        String,
    >)
        ensures
            is_frame_env(r, *self, frame_id, global),
    {
        self.frame_env(frame_id, global)
    }

    /// The result of an evaluation: `printed` is what printing the value gave, if
    /// the printed form was asked for, and `value` describes the value otherwise.
    pub fn evaluate(printed: Option<String>, value: Result<RVariable, EvalError>) -> (r: Result<
        RVariable,
        String,
    >)
        ensures
            is_value_shown(r, printed, value),
    {
        match value {
            Err(err) => Err(evaluate_error_message(err)),
            Ok(v) => match printed {
                None => Ok(v),
                Some(p) => Ok(
                    RVariable {
                        name: String::new(),
                        value: text::trim_end(p.as_str()),
                        type_field: None,
                        variables_reference_object: None,
                    },
                ),
            },
        }
    }

    /// The next id of a breakpoint.
    pub fn next_breakpoint_id(&mut self) -> (id: i64)
        requires
            old(self).current_breakpoint_id < i64::MAX,
        ensures
            id == old(self).current_breakpoint_id,
            *final(self) == (Dap {
                current_breakpoint_id: (old(self).current_breakpoint_id + 1) as i64,
                ..*old(self)
            }),
    {
        let id: i64 = self.current_breakpoint_id;
        self.current_breakpoint_id = self.current_breakpoint_id + 1;
        id
    }

    /// Whether exception breakpoints of a kind are enabled.
    pub fn is_exception_breakpoint_filter_enabled(&self, filter: &str) -> (r: bool)
        ensures
            r == text::texts(self.exception_breakpoint_filters@).contains(filter@),
    {
        let n: usize = self.exception_breakpoint_filters.len();
        let mut i: usize = 0;
        while i < n
            invariant
                n == self.exception_breakpoint_filters@.len(),
                i <= n,
                forall|k: int|
                    0 <= k < i ==> self.exception_breakpoint_filters@[k]@ != filter@,
            decreases n - i,
        {
            if text::same(self.exception_breakpoint_filters[i].as_str(), filter) {
                assert(text::texts(self.exception_breakpoint_filters@)[i as int] == filter@);
                return true;
            }
            i = i + 1;
        }
        assert forall|k: int|
            0 <= k < text::texts(self.exception_breakpoint_filters@).len() implies text::texts(
            self.exception_breakpoint_filters@,
        )[k] != filter@ by {}
        false
    }

    /// The frontend sets the breakpoints of a document with the given content at
    /// `lines`, counted from one. Breakpoints keep their state if the content is
    /// the same as when they were set. Returns what the reply says of them.
    pub fn set_breakpoints(&mut self, uri: &str, content: &str, lines: &Vec<i64>) -> (r: Vec<
        ReplyBreakpoint,
    >)
        requires
            old(self).current_breakpoint_id + lines@.len() <= i64::MAX,
            forall|i: int| 0 <= i < lines@.len() ==> #[trigger] lines@[i] > i64::MIN,
            forall|i: int|
                0 <= i < lines@.len() ==> Breakpoint::spec_from_dap_line(#[trigger] lines@[i])
                    < u32::MAX,
            old(self).places_ok(uri@),
        ensures
            old(self).sets_breakpoints(
                *final(self),
                r@,
                uri@,
                spec_document_hash(content@),
                lines@,
            ),
    {
        let hash: Vec<u8> = document_hash(content);
        self.set_breakpoints_of(uri, hash, lines)
    }

    /// The breakpoints of a document stand at lines that the protocol can count.
    pub open spec fn places_ok(self, uri: Seq<char>) -> bool {
        self.breakpoints@.contains_key(uri) ==> forall|i: int|
            0 <= i < self.breakpoints@[uri].breakpoints@.len() ==> (
            #[trigger] self.breakpoints@[uri].breakpoints@[i]).line < u32::MAX
    }

    /// What setting the breakpoints of a document at `lines` does: `after` is the
    /// state then, and `reply` what the reply says.
    pub open spec fn sets_breakpoints(
        self,
        after: Dap,
        reply: Seq<ReplyBreakpoint>,
        uri: Seq<char>,
        hash: Seq<u8>,
        lines: Seq<i64>,
    ) -> bool {
        let known = known_breakpoints(self.breakpoints@, uri, hash);
        let at = from_dap_lines(lines);
        let id = self.current_breakpoint_id as int;
        let set = updated(known, at, id);
        &&& after.breakpoints@.contains_key(uri)
        &&& after.breakpoints@[uri].hash@ == hash
        &&& after.breakpoints@[uri].breakpoints@ == set
        &&& after.breakpoints@ == self.breakpoints@.insert(uri, after.breakpoints@[uri])
        &&& after == (Dap {
            breakpoints: after.breakpoints,
            current_breakpoint_id: reconciled(known, at, id).1 as i64,
            ..self
        })
        &&& reply.len() == enabled_breakpoints(set).len()
        &&& forall|i: int|
            0 <= i < reply.len() ==> is_reply(#[trigger] reply[i], enabled_breakpoints(set)[i])
    }

    /// Sets the breakpoints of a document whose content has the given hash.
    pub fn set_breakpoints_of(&mut self, uri: &str, hash: Vec<u8>, lines: &Vec<i64>) -> (r: Vec<
        ReplyBreakpoint,
    >)
        requires
            old(self).current_breakpoint_id + lines@.len() <= i64::MAX,
            forall|i: int| 0 <= i < lines@.len() ==> #[trigger] lines@[i] > i64::MIN,
            forall|i: int|
                0 <= i < lines@.len() ==> Breakpoint::spec_from_dap_line(#[trigger] lines@[i])
                    < u32::MAX,
            old(self).places_ok(uri@),
        ensures
            old(self).sets_breakpoints(*final(self), r@, uri@, hash@, lines@),
    {
        let known: Vec<Breakpoint> = match self.breakpoints.get(uri) {
            Some(document) => {
                if same_bytes(&document.hash, &hash) {
                    copy_breakpoints(&document.breakpoints)
                } else {
                    Vec::new()
                }
            },
            None => Vec::new(),
        };
        assert(known@ =~= known_breakpoints(self.breakpoints@, uri@, hash@));
        let at: Vec<u32> = lines_from_dap(lines);
        let (set, next) = update_breakpoints(&known, &at, self.current_breakpoint_id);
        proof {
            lemma_places(known@, at@, self.current_breakpoint_id as int);
        }
        let reply: Vec<ReplyBreakpoint> = reply_breakpoints(&set);
        self.breakpoints.insert(
            uri.to_owned(),
            DocumentBreakpoints { hash, breakpoints: set },
        );
        self.current_breakpoint_id = next;
        reply
    }

    /// Some code of a document was evaluated, from line `start_line` up to line
    /// `end_line`. The breakpoints that were injected into it and are not verified
    /// become so. Returns the events for the client.
    pub fn verify_breakpoints(&mut self, uri: &str, start_line: u32, end_line: u32) -> (r: Vec<
        DapBackendEvent,
    >)
        ensures
            range_is_verified(*final(self), *old(self), uri@, start_line, end_line, r@),
    {
        let mut events: Vec<DapBackendEvent> = Vec::new();
        let found: Option<DocumentBreakpoints> = self.breakpoints.remove(uri);
        let mut document: DocumentBreakpoints = match found {
            Some(document) => document,
            None => {
                assert(old(self).breakpoints@.remove(uri@) =~= old(self).breakpoints@);
                return events;
            },
        };
        let ghost before = document.breakpoints@;
        let n: usize = document.breakpoints.len();
        let mut i: usize = 0;
        assert(event_models(events@) =~= Seq::empty());
        while i < n
            invariant
                n == before.len(),
                n == document.breakpoints@.len(),
                i <= n,
                document.hash == old(self).breakpoints@[uri@].hash,
                *self == (Dap { breakpoints: self.breakpoints, ..*old(self) }),
                forall|k: int|
                    0 <= k < n ==> #[trigger] document.breakpoints@[k] == (if k < i
                        && verified_by_range(before[k], start_line, end_line) {
                        verified(before[k])
                    } else {
                        before[k]
                    }),
                event_models(events@) == (if old(self).has_client {
                    range_events(before.take(i as int), start_line, end_line)
                } else {
                    Seq::empty()
                }),
            decreases n - i,
        {
            let bp: Breakpoint = document.breakpoints[i];
            assert(bp == before[i as int]);
            assert(before.take(i + 1).drop_last() =~= before.take(i as int));
            let unverified: bool = match bp.state {
                BreakpointState::Unverified => true,
                _ => false,
            };
            if unverified && bp.injected && bp.line >= start_line && bp.line < end_line {
                let ghost earlier = events@;
                document.breakpoints.set(
                    i,
                    Breakpoint { state: BreakpointState::Verified, ..bp },
                );
                if self.has_client {
                    events.push(
                        DapBackendEvent::BreakpointState {
                            id: bp.id,
                            line: bp.line,
                            verified: true,
                            message: None,
                        },
                    );
                    assert(event_models(events@) =~= event_models(earlier).push(
                        verified_event(bp),
                    ));
                }
            }
            i = i + 1;
        }
        assert(before.take(n as int) =~= before);
        assert(document.breakpoints@ =~= range_verified(before, start_line, end_line));
        self.breakpoints.insert(uri.to_owned(), document);
        assert(self.breakpoints@ =~= old(self).breakpoints@.insert(
            uri@,
            self.breakpoints@[uri@],
        ));
        events
    }

    /// The code at a breakpoint is about to be evaluated: the breakpoint becomes
    /// verified if it was unverified. Returns the event for the client.
    pub fn verify_breakpoint(&mut self, uri: &str, id: &str) -> (r: Option<DapBackendEvent>)
        ensures
            one_is_verified(*final(self), *old(self), uri@, id@, r),
    {
        let found: Option<usize> = match self.breakpoints.get(uri) {
            Some(document) => match find_by_id(&document.breakpoints, id) {
                Some(i) => match document.breakpoints[i].state {
                    BreakpointState::Unverified => Some(i),
                    _ => None,
                },
                None => None,
            },
            None => None,
        };
        let place: usize = match found {
            Some(i) => i,
            None => {
                return None;
            },
        };
        match self.breakpoints.remove(uri) {
            None => None,
            Some(document) => {
                let mut document: DocumentBreakpoints = document;
                let bp: Breakpoint = document.breakpoints[place];
                document.breakpoints.set(
                    place,
                    Breakpoint { state: BreakpointState::Verified, ..bp },
                );
                self.breakpoints.insert(uri.to_owned(), document);
                assert(self.breakpoints@ =~= old(self).breakpoints@.insert(
                    uri@,
                    self.breakpoints@[uri@],
                ));
                if self.has_client {
                    Some(
                        DapBackendEvent::BreakpointState {
                            id: bp.id,
                            line: bp.line,
                            verified: true,
                            message: None,
                        },
                    )
                } else {
                    None
                }
            },
        }
    }

    /// A document changed: its breakpoints are forgotten. Returns the events that
    /// tell the client that they are no longer verified.
    pub fn did_change_document(&mut self, uri: &str) -> (r: Vec<DapBackendEvent>)
        ensures
            final(self).breakpoints@ == old(self).breakpoints@.remove(uri@),
            *final(self) == (Dap { breakpoints: final(self).breakpoints, ..*old(self) }),
            event_models(r@) == (if old(self).has_client && old(self).breakpoints@.contains_key(
                uri@,
            ) {
                unverified_events(old(self).breakpoints@[uri@].breakpoints@)
            } else {
                Seq::empty()
            }),
    {
        let mut events: Vec<DapBackendEvent> = Vec::new();
        assert(event_models(events@) =~= Seq::empty());
        let document: DocumentBreakpoints = match self.breakpoints.remove(uri) {
            Some(document) => document,
            None => {
                return events;
            },
        };
        if !self.has_client {
            return events;
        }
        let ghost bps = document.breakpoints@;
        let n: usize = document.breakpoints.len();
        let mut i: usize = 0;
        while i < n
            invariant
                n == document.breakpoints@.len(),
                bps == document.breakpoints@,
                i <= n,
                event_models(events@) == unverified_events(bps).take(i as int),
            decreases n - i,
        {
            let bp: Breakpoint = document.breakpoints[i];
            let ghost earlier = events@;
            events.push(
                DapBackendEvent::BreakpointState {
                    id: bp.id,
                    line: bp.line,
                    verified: false,
                    message: None,
                },
            );
            assert(event_models(events@) =~= event_models(earlier).push(
                unverified_events(bps)[i as int],
            ));
            i = i + 1;
        }
        assert(unverified_events(bps).take(n as int) =~= unverified_events(bps));
        events
    }

    /// The events that tell the client which breakpoints of a document are invalid,
    /// and why.
    pub fn notify_invalid_breakpoints(&self, uri: &str) -> (r: Vec<DapBackendEvent>)
        ensures
            event_models(r@) == (if self.has_client && self.breakpoints@.contains_key(uri@) {
                invalid_events(self.breakpoints@[uri@].breakpoints@)
            } else {
                Seq::empty()
            }),
    {
        let mut events: Vec<DapBackendEvent> = Vec::new();
        assert(event_models(events@) =~= Seq::empty());
        if !self.has_client {
            return events;
        }
        let document: &DocumentBreakpoints = match self.breakpoints.get(uri) {
            Some(document) => document,
            None => {
                return events;
            },
        };
        let ghost bps = document.breakpoints@;
        let n: usize = document.breakpoints.len();
        let mut i: usize = 0;
        while i < n
            invariant
                n == document.breakpoints@.len(),
                bps == document.breakpoints@,
                i <= n,
                event_models(events@) == invalid_events(bps.take(i as int)),
            decreases n - i,
        {
            let bp: Breakpoint = document.breakpoints[i];
            assert(bps.take(i + 1).drop_last() =~= bps.take(i as int));
            if let BreakpointState::Invalid(reason) = bp.state {
                let ghost earlier = events@;
                let event: DapBackendEvent = DapBackendEvent::BreakpointState {
                    id: bp.id,
                    line: bp.line,
                    verified: false,
                    message: Some(reason.message().to_owned()),
                };
                events.push(event);
                assert(event_models(events@) =~= event_models(earlier).push(event@));
            }
            i = i + 1;
        }
        assert(bps.take(n as int) =~= bps);
        events
    }

    /// Forgets the disabled breakpoints of a document.
    pub fn remove_disabled_breakpoints(&mut self, uri: &str)
        ensures
            if old(self).breakpoints@.contains_key(uri@) {
                let before = old(self).breakpoints@[uri@];
                let after = final(self).breakpoints@[uri@];
                &&& after.hash == before.hash
                &&& after.breakpoints@ == enabled_breakpoints(before.breakpoints@)
                &&& final(self).breakpoints@ == old(self).breakpoints@.insert(uri@, after)
            } else {
                final(self).breakpoints@ == old(self).breakpoints@
            },
            *final(self) == (Dap { breakpoints: final(self).breakpoints, ..*old(self) }),
    {
        let document: DocumentBreakpoints = match self.breakpoints.remove(uri) {
            Some(document) => document,
            None => {
                assert(old(self).breakpoints@.remove(uri@) =~= old(self).breakpoints@);
                return ;
            },
        };
        let ghost bps = document.breakpoints@;
        let ghost on = |bp: Breakpoint| !(bp.state is Disabled);
        let mut kept: Vec<Breakpoint> = Vec::new();
        let n: usize = document.breakpoints.len();
        let mut i: usize = 0;
        while i < n
            invariant
                n == document.breakpoints@.len(),
                bps == document.breakpoints@,
                i <= n,
                on == (|bp: Breakpoint| !(bp.state is Disabled)),
                kept@ == bps.take(i as int).filter(on),
            decreases n - i,
        {
            let bp: Breakpoint = document.breakpoints[i];
            proof {
                assert(bps.take(i + 1) =~= bps.take(i as int).push(bp));
                bps.take(i as int).lemma_filter_push(bp, on);
            }
            match bp.state {
                BreakpointState::Disabled => {},
                _ => {
                    kept.push(bp);
                },
            }
            i = i + 1;
        }
        assert(bps.take(n as int) =~= bps);
        self.breakpoints.insert(
            uri.to_owned(),
            DocumentBreakpoints { hash: document.hash, breakpoints: kept },
        );
        assert(self.breakpoints@ =~= old(self).breakpoints@.insert(
            uri@,
            self.breakpoints@[uri@],
        ));
    }

    /// Whether R stops at a breakpoint. It stops at unverified breakpoints too:
    /// their code may be running for the first time.
    pub fn is_breakpoint_enabled(&self, uri: &str, id: &str) -> (r: bool)
        ensures
            r == breakpoint_enabled(*self, uri@, id@),
    {
        let document: &DocumentBreakpoints = match self.breakpoints.get(uri) {
            Some(document) => document,
            None => {
                return false;
            },
        };
        let ghost bps = document.breakpoints@;
        let n: usize = document.breakpoints.len();
        let mut i: usize = 0;
        while i < n
            invariant
                n == document.breakpoints@.len(),
                bps == document.breakpoints@,
                bps == self.breakpoints@[uri@].breakpoints@,
                self.breakpoints@.contains_key(uri@),
                i <= n,
                forall|k: int| 0 <= k < i ==> !stops_at(#[trigger] bps[k], id@),
            decreases n - i,
        {
            let bp: Breakpoint = document.breakpoints[i];
            let active: bool = match bp.state {
                BreakpointState::Verified => true,
                BreakpointState::Unverified => true,
                _ => false,
            };
            if active && text::same(text::i64_text(bp.id).as_str(), id) {
                assert(stops_at(bps[i as int], id@));
                return true;
            }
            i = i + 1;
        }
        false
    }
}

/// R stops at the breakpoint if it has this id.
pub open spec fn stops_at(bp: Breakpoint, id: Seq<char>) -> bool {
    text::decimal_int(bp.id as int) == id && (bp.state is Verified || bp.state is Unverified)
}

fn find_by_id(bps: &Vec<Breakpoint>, id: &str) -> (r: Option<usize>)
    ensures
        match r {
            Some(i) => by_id(bps@, id@, 0) == Some(i as int) && i < bps@.len(),
            None => by_id(bps@, id@, 0) is None,
        },
{
    let n: usize = bps.len();
    let mut i: usize = 0;
    while i < n
        invariant
            n == bps@.len(),
            i <= n,
            by_id(bps@, id@, 0) == by_id(bps@, id@, i as int),
        decreases n - i,
    {
        if text::same(text::i64_text(bps[i].id).as_str(), id) {
            return Some(i);
        }
        i = i + 1;
    }
    None
}

/// Breakpoints that are set stand at places of old breakpoints or at the lines
/// that were asked for.
proof fn lemma_places(old: Seq<Breakpoint>, lines: Seq<u32>, next_id: int)
    requires
        forall|i: int| 0 <= i < old.len() ==> (#[trigger] old[i]).line < u32::MAX,
        forall|i: int| 0 <= i < lines.len() ==> #[trigger] lines[i] < u32::MAX,
    ensures
        forall|i: int|
            0 <= i < updated(old, lines, next_id).len() ==> (#[trigger] updated(
                old,
                lines,
                next_id,
            )[i]).line < u32::MAX,
{
    lemma_reconciled_places(old, lines, next_id);
    lemma_parked_places(old, lines, old.len() as int);
    let set = reconciled(old, lines, next_id).0;
    let kept = crate::dap::breakpoints::parked(old, lines, old.len() as int);
    let all = updated(old, lines, next_id);
    assert forall|i: int| 0 <= i < all.len() implies (#[trigger] all[i]).line < u32::MAX by {
        if i < set.len() {
            assert(all[i] == set[i]);
        } else {
            assert(all[i] == kept[i - set.len()]);
        }
    }
}

proof fn lemma_reconciled_places(old: Seq<Breakpoint>, lines: Seq<u32>, next_id: int)
    requires
        forall|i: int| 0 <= i < old.len() ==> (#[trigger] old[i]).line < u32::MAX,
        forall|i: int| 0 <= i < lines.len() ==> #[trigger] lines[i] < u32::MAX,
    ensures
        forall|i: int|
            0 <= i < reconciled(old, lines, next_id).0.len() ==> (#[trigger] reconciled(
                old,
                lines,
                next_id,
            ).0[i]).line < u32::MAX,
    decreases lines.len(),
{
    if lines.len() > 0 {
        lemma_reconciled_places(old, lines.drop_last(), next_id);
        crate::dap::breakpoints::lemma_latest(old, lines.last());
        assert(lines[lines.len() - 1] < u32::MAX);
        let less = reconciled(old, lines.drop_last(), next_id).0;
        let more = reconciled(old, lines, next_id).0;
        assert forall|i: int| 0 <= i < more.len() implies (#[trigger] more[i]).line < u32::MAX by {
            if i < less.len() {
                assert(more[i] == less[i]);
            }
        }
    }
}

proof fn lemma_parked_places(old: Seq<Breakpoint>, lines: Seq<u32>, count: int)
    requires
        forall|i: int| 0 <= i < old.len() ==> (#[trigger] old[i]).line < u32::MAX,
        0 <= count <= old.len(),
    ensures
        forall|i: int|
            0 <= i < crate::dap::breakpoints::parked(old, lines, count).len() ==> (
            #[trigger] crate::dap::breakpoints::parked(old, lines, count)[i]).line < u32::MAX,
    decreases count,
{
    if count > 0 {
        lemma_parked_places(old, lines, count - 1);
        assert(old[count - 1].line < u32::MAX);
    }
}

/// An evaluation that verifies breakpoints changes no other thing about them, and
/// verifies nothing that was not injected.
pub proof fn law_verify_keeps_breakpoints(bps: Seq<Breakpoint>, start: u32, end: u32)
    ensures
        range_verified(bps, start, end).len() == bps.len(),
        forall|i: int|
            0 <= i < bps.len() ==> {
                let after = #[trigger] range_verified(bps, start, end)[i];
                &&& after == (Breakpoint { state: after.state, ..bps[i] })
                &&& after.state != bps[i].state ==> after.state is Verified
                    && bps[i].state is Unverified && bps[i].injected
            },
        range_verified(range_verified(bps, start, end), start, end) == range_verified(
            bps,
            start,
            end,
        ),
{
    assert(range_verified(range_verified(bps, start, end), start, end) =~= range_verified(
        bps,
        start,
        end,
    ));
}

/// Every frame has a variables reference of its own, which leads to its environment,
/// or to the global environment where it has none.
pub proof fn law_frames_have_own_variables(
    stack: Seq<FrameInfo>,
    first: int,
    global: RObject,
    k: int,
)
    requires
        0 <= k < stack.len(),
        0 <= first,
        first + stack.len() <= i64::MAX,
        forall|i: int, j: int|
            0 <= i < j < stack.len() ==> (#[trigger] stack[i]).id != (#[trigger] stack[j]).id,
    ensures
        ({
            let references = frame_references(stack, first, stack.len() as int);
            &&& references.contains_key(stack[k].id)
            &&& references[stack[k].id] == first + k
        }),
        ({
            let objects = frame_objects(stack, first, stack.len() as int, global);
            &&& objects.contains_key((first + k) as i64)
            &&& objects[(first + k) as i64] == match stack[k].environment {
                Some(environment) => environment,
                None => global,
            }
        }),
{
    lemma_own_variables(stack, first, global, k, stack.len() as int);
}

proof fn lemma_own_variables(
    stack: Seq<FrameInfo>,
    first: int,
    global: RObject,
    k: int,
    count: int,
)
    requires
        0 <= k < count <= stack.len(),
        0 <= first,
        first + stack.len() <= i64::MAX,
        forall|i: int, j: int|
            0 <= i < j < stack.len() ==> (#[trigger] stack[i]).id != (#[trigger] stack[j]).id,
    ensures
        frame_references(stack, first, count).contains_key(stack[k].id),
        frame_references(stack, first, count)[stack[k].id] == first + k,
        frame_objects(stack, first, count, global).contains_key((first + k) as i64),
        frame_objects(stack, first, count, global)[(first + k) as i64] == (
        match stack[k].environment {
            Some(environment) => environment,
            None => global,
        }),
    decreases count,
{
    if k < count - 1 {
        lemma_own_variables(stack, first, global, k, count - 1);
        assert(stack[k].id != stack[count - 1].id);
    }
}

/// References are unique within a session: those that a step or a request hands
/// out are not below the next reference before it, and are below the one after it.
pub proof fn law_references_grow(variables: Seq<RVariable>, first: int, i: int, j: int)
    requires
        0 <= i < j < variables.len(),
        variables[i].variables_reference_object is Some,
        variables[j].variables_reference_object is Some,
    ensures
        first <= reference_of(variables, first, i) < reference_of(variables, first, j) < first
            + structured(variables, variables.len() as int),
{
    lemma_structured(variables, 0, i);
    lemma_structured(variables, i + 1, j);
    lemma_structured(variables, j + 1, variables.len() as int);
}

proof fn lemma_structured(variables: Seq<RVariable>, a: int, b: int)
    requires
        0 <= a <= b,
    ensures
        0 <= structured(variables, a) <= structured(variables, b),
    decreases b,
{
    if a < b {
        lemma_structured(variables, a, b - 1);
    } else if a > 0 {
        lemma_structured(variables, a - 1, a - 1);
    }
}

/// When lines of a document are evaluated, exactly those of its breakpoints become
/// verified that were unverified, that were injected, and that stand on these lines. All
/// else stays: the other breakpoints, their ids and lines, and the other documents.
pub proof fn law_evaluated_lines_verify_breakpoints(
    new: Dap,
    old: Dap,
    uri: Seq<char>,
    start: u32,
    end: u32,
    events: Seq<DapBackendEvent>,
    i: int,
)
    requires
        range_is_verified(new, old, uri, start, end, events),
        old.breakpoints@.contains_key(uri),
        0 <= i < old.breakpoints@[uri].breakpoints@.len(),
    ensures
        ({
            let before = old.breakpoints@[uri].breakpoints@[i];
            let after = new.breakpoints@[uri].breakpoints@[i];
            let evaluated = before.state is Unverified && before.injected && start <= before.line
                && before.line < end;
            &&& evaluated ==> after.state is Verified
            &&& !evaluated ==> after == before
            &&& after.id == before.id
            &&& after.line == before.line
            &&& after.original_line == before.original_line
        }),
        forall|other: Seq<char>|
            other != uri ==> (#[trigger] new.breakpoints@.contains_key(other)
                <==> old.breakpoints@.contains_key(other)) && (old.breakpoints@.contains_key(other)
                ==> new.breakpoints@[other] == old.breakpoints@[other]),
        new.is_debugging == old.is_debugging,
        new.stack == old.stack,
        !old.has_client ==> events.len() == 0,
{
    let b = old.breakpoints@[uri].breakpoints@;
    assert(new.breakpoints@[uri].breakpoints@[i] == range_verified(b, start, end)[i]);
    assert(event_models(events).len() == events.len());
}

/// The client is told of every breakpoint that becomes verified, and of no other: each
/// event is that of a breakpoint on the lines that were evaluated, and says that it is
/// verified and where it stands.
pub proof fn law_events_of_verified_breakpoints(bps: Seq<Breakpoint>, start: u32, end: u32, k: int)
    requires
        0 <= k < range_events(bps, start, end).len(),
    ensures
        exists|i: int|
            0 <= i < bps.len() && (#[trigger] bps[i]).state is Unverified && bps[i].injected
                && start <= bps[i].line && bps[i].line < end && range_events(bps, start, end)[k] == (
            EventModel::BreakpointState {
                id: bps[i].id,
                line: bps[i].line,
                verified: true,
                message: None,
            }),
    decreases bps.len(),
{
    let less = bps.drop_last();
    let rest = range_events(less, start, end);
    if k < rest.len() {
        law_events_of_verified_breakpoints(less, start, end, k);
        let i = choose|i: int|
            0 <= i < less.len() && (#[trigger] less[i]).state is Unverified && less[i].injected
                && start <= less[i].line && less[i].line < end && rest[k] == (
            EventModel::BreakpointState {
                id: less[i].id,
                line: less[i].line,
                verified: true,
                message: None,
            });
        assert(bps[i] == less[i]);
    } else {
        let n = bps.len() - 1;
        assert(bps[n].state is Unverified);
    }
}

/// A breakpoint that R reaches becomes verified, if it was unverified, and no other one
/// changes. The client is told of it.
pub proof fn law_reached_breakpoint_is_verified(
    new: Dap,
    old: Dap,
    uri: Seq<char>,
    id: Seq<char>,
    event: Option<DapBackendEvent>,
    i: int,
)
    requires
        one_is_verified(new, old, uri, id, event),
        old.breakpoints@.contains_key(uri),
        0 <= i < old.breakpoints@[uri].breakpoints@.len(),
        text::decimal_int(old.breakpoints@[uri].breakpoints@[i].id as int) == id,
        forall|k: int|
            0 <= k < i ==> text::decimal_int(
                (#[trigger] old.breakpoints@[uri].breakpoints@[k]).id as int,
            ) != id,
    ensures
        ({
            let before = old.breakpoints@[uri].breakpoints@;
            let after = new.breakpoints@[uri].breakpoints@;
            &&& after.len() == before.len()
            &&& before[i].state is Unverified ==> after[i] == (Breakpoint {
                state: BreakpointState::Verified,
                ..before[i]
            })
            &&& !(before[i].state is Unverified) ==> after[i] == before[i] && event is None
            &&& forall|k: int|
                0 <= k < before.len() && k != i ==> #[trigger] after[k] == before[k]
            &&& before[i].state is Unverified && old.has_client ==> event is Some && event->0@ == (
            EventModel::BreakpointState {
                id: before[i].id,
                line: before[i].line,
                verified: true,
                message: None,
            })
        }),
{
    lemma_by_id(old.breakpoints@[uri].breakpoints@, id, 0, i);
}

proof fn lemma_by_id(bps: Seq<Breakpoint>, id: Seq<char>, from: int, i: int)
    requires
        0 <= from <= i < bps.len(),
        text::decimal_int(bps[i].id as int) == id,
        forall|k: int| from <= k < i ==> text::decimal_int((#[trigger] bps[k]).id as int) != id,
    ensures
        by_id(bps, id, from) == Some(i),
    decreases i - from,
{
    if from < i {
        lemma_by_id(bps, id, from + 1, i);
    }
}

/// R stops at breakpoints that are verified or not yet verified, and at none that is
/// disabled or invalid.
pub proof fn law_where_r_stops(bp: Breakpoint)
    ensures
        ({
            let id = text::decimal_int(bp.id as int);
            &&& bp.state is Verified ==> stops_at(bp, id)
            &&& bp.state is Unverified ==> stops_at(bp, id)
            &&& bp.state is Disabled ==> !stops_at(bp, id)
            &&& bp.state is Invalid ==> !stops_at(bp, id)
        }),
        forall|other: Seq<char>|
            other != text::decimal_int(bp.id as int) ==> !#[trigger] stops_at(bp, other),
{
}

/// The frontend is told where a breakpoint stands, counted from one, whether it is
/// verified, and why it is invalid if it is.
pub proof fn law_replies_tell_of_breakpoints(r: ReplyBreakpoint, bp: Breakpoint)
    requires
        is_reply(r, bp),
    ensures
        r.id == bp.id,
        r.line - 1 == bp.line,
        r.verified <==> bp.state is Verified,
        r.message is Some <==> bp.state is Invalid,
        bp.state == BreakpointState::Invalid(InvalidReason::ClosingBrace) ==> r.message->0@
            == "Can't break on closing `}` brace"@,
        bp.state == BreakpointState::Invalid(InvalidReason::EmptyBraces) ==> r.message->0@
            == "Can't break inside empty braces"@,
{
}

/// Setting breakpoints answers for each line that was asked for, in their order. In a
/// document that is new or has changed all of them are new and unverified, at the lines
/// that were asked for. Other documents keep their breakpoints.
pub proof fn law_set_breakpoints_are_answered(
    before: Dap,
    after: Dap,
    reply: Seq<ReplyBreakpoint>,
    uri: Seq<char>,
    hash: Seq<u8>,
    lines: Seq<i64>,
    k: int,
)
    requires
        before.sets_breakpoints(after, reply, uri, hash, lines),
        0 <= k < lines.len(),
        forall|i: int|
            0 <= i < lines.len() ==> 1 <= #[trigger] lines[i] && lines[i] <= u32::MAX,
        before.current_breakpoint_id + lines.len() <= i64::MAX,
    ensures
        reply.len() == lines.len(),
        after.breakpoints@[uri].hash@ == hash,
        !before.breakpoints@.contains_key(uri) || before.breakpoints@[uri].hash@ != hash ==> {
            &&& reply[k].line == lines[k]
            &&& !reply[k].verified
            &&& reply[k].message is None
            &&& reply[k].id == before.current_breakpoint_id + k
        },
        forall|other: Seq<char>|
            other != uri && before.breakpoints@.contains_key(other)
                ==> #[trigger] after.breakpoints@[other] == before.breakpoints@[other],
{
    let known = known_breakpoints(before.breakpoints@, uri, hash);
    let at = from_dap_lines(lines);
    let id = before.current_breakpoint_id as int;
    let set = updated(known, at, id);
    law_set_at_lines(known, at, id);
    lemma_enabled_first(set, at.len() as int);
    assert(is_reply(reply[k], enabled_breakpoints(set)[k]));
    assert(lines[k] - 1 == at[k]);
    if !before.breakpoints@.contains_key(uri) || before.breakpoints@[uri].hash@ != hash {
        law_new_document(at, id);
    }
}

/// Of breakpoints of which the first `n` are enabled and no others, those are the enabled
/// ones.
proof fn lemma_enabled_first(bps: Seq<Breakpoint>, n: int)
    requires
        0 <= n <= bps.len(),
        forall|i: int| 0 <= i < n ==> !((#[trigger] bps[i]).state is Disabled),
        forall|i: int| n <= i < bps.len() ==> (#[trigger] bps[i]).state is Disabled,
    ensures
        enabled_breakpoints(bps) == bps.take(n),
    decreases bps.len(),
{
    reveal(Seq::filter);
    let on = |bp: Breakpoint| !(bp.state is Disabled);
    if bps.len() > 0 {
        let less = bps.drop_last();
        let m = if n < bps.len() {
            n
        } else {
            n - 1
        };
        assert forall|i: int| 0 <= i < m implies !((#[trigger] less[i]).state is Disabled) by {
            assert(less[i] == bps[i]);
        }
        assert forall|i: int| m <= i < less.len() implies (#[trigger] less[i]).state is Disabled by {
            assert(less[i] == bps[i]);
        }
        lemma_enabled_first(less, m);
        assert(bps.last() == bps[bps.len() - 1]);
        assert(less.take(m) =~= bps.take(m));
        if n == bps.len() {
            assert(bps.take(n) =~= bps.take(m).push(bps.last()));
        }
    } else {
        assert(bps.take(n) =~= bps);
    }
    assert(enabled_breakpoints(bps) =~= bps.take(n));
}

/// A change of a document is told as that: every breakpoint that it had is told to be
/// unverified.
pub proof fn law_changed_documents_lose_breakpoints(bps: Seq<Breakpoint>, i: int)
    requires
        0 <= i < bps.len(),
    ensures
        unverified_events(bps).len() == bps.len(),
        unverified_events(bps)[i] == (EventModel::BreakpointState {
            id: bps[i].id,
            line: bps[i].line,
            verified: false,
            message: None,
        }),
{
}

/// The client is told why R stopped: at a condition with its class and message, and else
/// that it stopped.
pub proof fn law_why_r_stopped(class: String, message: String)
    ensures
        stopped_event(DebugStoppedReason::Step) == EventModel::Stopped,
        stopped_event(DebugStoppedReason::Pause) == EventModel::Stopped,
        stopped_event(DebugStoppedReason::Condition { class, message }) == EventModel::Exception(
            class@,
            message@,
        ),
{
}

/// A reference that is handed out for a variable leads to the object of that variable, and
/// those that were handed out before lead to where they led.
pub proof fn law_references_lead_to_objects(
    m: Map<i64, RObject>,
    variables: Seq<RVariable>,
    first: int,
    count: int,
    i: int,
)
    requires
        0 <= i < count <= variables.len(),
        0 <= first,
        first + variables.len() <= i64::MAX,
    ensures
        variables[i].variables_reference_object matches Some(object) ==> with_variable_objects(
            m,
            variables,
            first,
            count,
        ).contains_key(reference_of(variables, first, i) as i64) && with_variable_objects(
            m,
            variables,
            first,
            count,
        )[reference_of(variables, first, i) as i64] == object,
        variables[i].variables_reference_object is None ==> reference_of(variables, first, i) == 0,
        forall|key: i64|
            key < first && m.contains_key(key) ==> #[trigger] with_variable_objects(
                m,
                variables,
                first,
                count,
            )[key] == m[key] && with_variable_objects(m, variables, first, count).contains_key(key),
    decreases count,
{
    lemma_structured(variables, 0, i);
    lemma_structured(variables, i, count - 1);
    lemma_structured_bound(variables, count - 1);
    lemma_structured(variables, 0, count - 1);
    if i < count - 1 {
        lemma_structured(variables, i + 1, count - 1);
        law_references_lead_to_objects(m, variables, first, count - 1, i);
    } else if count > 1 {
        law_references_lead_to_objects(m, variables, first, count - 1, 0);
    }
}

proof fn lemma_structured_bound(variables: Seq<RVariable>, count: int)
    requires
        0 <= count,
    ensures
        0 <= structured(variables, count) <= count,
    decreases count,
{
    if count > 0 {
        lemma_structured_bound(variables, count - 1);
    }
}

/// The environment of a frame, or why it is not found.
pub open spec fn is_frame_env(
    r: Result<RObject, String>,
    dap: Dap,
    frame_id: Option<i64>,
    global: RObject,
) -> bool {
    match frame_id {
        None => r == Ok::<RObject, String>(global),
        Some(id) => {
            let frames = dap.frame_id_to_variables_reference@;
            let objects = dap.variables_reference_to_r_object@;
            if frames.contains_key(id) && objects.contains_key(frames[id]) {
                r == Ok::<RObject, String>(objects[frames[id]])
            } else {
                r matches Err(message) && message@ == frame_env_error(frames, id)
            }
        },
    }
}

/// What is known and told once R entered the debugger with a stack.
pub open spec fn is_debugging_at(
    r: DebugMessages,
    new: Dap,
    old: Dap,
    stack: Seq<FrameInfo>,
    fallback_sources: Seq<(String, String)>,
    stopped_reason: DebugStoppedReason,
    global: RObject,
) -> bool {
    &&& new.is_debugging
    &&& new.fallback_sources@ == extended(old.fallback_sources@, fallback_sources)
    &&& new.stack is Some
    &&& new.stack->0@ == stack.map_values(|f: FrameInfo| without_environment(f))
    &&& new.frame_id_to_variables_reference@ == frame_references(
        stack,
        old.current_variables_reference as int,
        stack.len() as int,
    )
    &&& new.variables_reference_to_r_object@ == frame_objects(
        stack,
        old.current_variables_reference as int,
        stack.len() as int,
        global,
    )
    &&& new.current_variables_reference == old.current_variables_reference + stack.len()
    &&& new.is_connected == old.is_connected
    &&& new.has_comm == old.has_comm
    &&& new.has_client == old.has_client
    &&& new.breakpoints == old.breakpoints
    &&& new.exception_breakpoint_filters == old.exception_breakpoint_filters
    &&& new.current_breakpoint_id == old.current_breakpoint_id
    &&& new.is_interrupting_for_debugger == old.is_interrupting_for_debugger
    &&& r.notify == old.has_comm
    &&& if old.has_comm && old.has_client {
        r.event is Some && r.event->0@ == stopped_event(stopped_reason)
    } else {
        r.event is None
    }
}

/// Once R entered the debugger, its stack is known without the environments, which are
/// found by the references of the frames: one for each frame, from the next free one on.
/// The user interface is told if there is one, and the client if there are both.
pub proof fn law_debugging_at_a_stack(
    r: DebugMessages,
    new: Dap,
    old: Dap,
    stack: Seq<FrameInfo>,
    fallback_sources: Seq<(String, String)>,
    stopped_reason: DebugStoppedReason,
    global: RObject,
    k: int,
)
    requires
        is_debugging_at(r, new, old, stack, fallback_sources, stopped_reason, global),
        0 <= k < stack.len(),
        0 <= old.current_variables_reference,
        old.current_variables_reference + stack.len() <= i64::MAX,
        forall|i: int, j: int|
            0 <= i < j < stack.len() ==> (#[trigger] stack[i]).id != (#[trigger] stack[j]).id,
    ensures
        new.is_debugging,
        new.stack is Some && new.stack->0@.len() == stack.len(),
        new.stack->0@[k] == (FrameInfo { environment: None, ..stack[k] }),
        new.frame_id_to_variables_reference@.contains_key(stack[k].id),
        new.frame_id_to_variables_reference@[stack[k].id] == old.current_variables_reference + k,
        new.variables_reference_to_r_object@.contains_key(
            (old.current_variables_reference + k) as i64,
        ),
        stack[k].environment matches Some(env) ==> new.variables_reference_to_r_object@[(
        old.current_variables_reference + k) as i64] == env,
        stack[k].environment is None ==> new.variables_reference_to_r_object@[(
        old.current_variables_reference + k) as i64] == global,
        r.notify == old.has_comm,
        r.event is Some <==> old.has_comm && old.has_client,
        r.event is Some ==> r.event->0@ == stopped_event(stopped_reason),
        new.breakpoints == old.breakpoints,
{
    let first = old.current_variables_reference as int;
    lemma_reference_of_frame(stack, first, stack.len() as int, global, k);
    let shown = stack.map_values(|f: FrameInfo| without_environment(f));
    assert(shown[k] == without_environment(stack[k]));
}

proof fn lemma_reference_of_frame(
    stack: Seq<FrameInfo>,
    first: int,
    count: int,
    global: RObject,
    k: int,
)
    requires
        0 <= k < count <= stack.len(),
        0 <= first,
        first + stack.len() <= i64::MAX,
        forall|i: int, j: int|
            0 <= i < j < stack.len() ==> (#[trigger] stack[i]).id != (#[trigger] stack[j]).id,
    ensures
        frame_references(stack, first, count).contains_key(stack[k].id),
        frame_references(stack, first, count)[stack[k].id] == first + k,
        frame_objects(stack, first, count, global).contains_key((first + k) as i64),
        stack[k].environment matches Some(env) ==> frame_objects(stack, first, count, global)[(first
            + k) as i64] == env,
        stack[k].environment is None ==> frame_objects(stack, first, count, global)[(first
            + k) as i64] == global,
    decreases count,
{
    if k < count - 1 {
        lemma_reference_of_frame(stack, first, count - 1, global, k);
        assert(stack[k].id != stack[count - 1].id);
        assert((first + k) as i64 != (first + count - 1) as i64);
    }
}

/// The environment of a frame is found by its reference, and that of no frame is the global
/// one. Which of the two is not known is told.
pub proof fn law_environments_of_frames(
    r: Result<RObject, String>,
    dap: Dap,
    id: i64,
    global: RObject,
)
    ensures
        is_frame_env(r, dap, None, global) ==> r == Ok::<RObject, String>(global),
        is_frame_env(r, dap, Some(id), global) ==> ({
            let frames = dap.frame_id_to_variables_reference@;
            let objects = dap.variables_reference_to_r_object@;
            &&& !frames.contains_key(id) ==> (r matches Err(m) && m@ == "Unknown `frame_id`: "@
                + text::decimal_int(id as int))
            &&& frames.contains_key(id) && !objects.contains_key(frames[id]) ==> (r matches Err(m)
                && m@ == "Unknown `variables_reference`: "@ + text::decimal_int(
                frames[id] as int,
            ))
            &&& frames.contains_key(id) && objects.contains_key(frames[id]) ==> r == Ok::<
                RObject,
                String,
            >(objects[frames[id]])
        }),
{
}

/// A breakpoint is enabled if one of the document has its id and is neither disabled nor
/// invalid.
pub proof fn law_enabled_breakpoints(dap: Dap, uri: Seq<char>, i: int, id: Seq<char>)
    ensures
        !dap.breakpoints@.contains_key(uri) ==> !breakpoint_enabled(dap, uri, id),
        dap.breakpoints@.contains_key(uri) && 0 <= i < dap.breakpoints@[uri].breakpoints@.len() && (
        dap.breakpoints@[uri].breakpoints@[i].state is Verified
            || dap.breakpoints@[uri].breakpoints@[i].state is Unverified) ==> breakpoint_enabled(
            dap,
            uri,
            text::decimal_int(dap.breakpoints@[uri].breakpoints@[i].id as int),
        ),
        breakpoint_enabled(dap, uri, id) ==> exists|k: int|
            #![trigger dap.breakpoints@[uri].breakpoints@[k]]
            0 <= k < dap.breakpoints@[uri].breakpoints@.len() && text::decimal_int(
                dap.breakpoints@[uri].breakpoints@[k].id as int,
            ) == id && !(dap.breakpoints@[uri].breakpoints@[k].state is Disabled)
                && !(dap.breakpoints@[uri].breakpoints@[k].state is Invalid),
{
    if dap.breakpoints@.contains_key(uri) && 0 <= i < dap.breakpoints@[uri].breakpoints@.len() && (
    dap.breakpoints@[uri].breakpoints@[i].state is Verified
        || dap.breakpoints@[uri].breakpoints@[i].state is Unverified) {
        assert(stops_at(
            dap.breakpoints@[uri].breakpoints@[i],
            text::decimal_int(dap.breakpoints@[uri].breakpoints@[i].id as int),
        ));
    }
}

/// The client is told of each breakpoint that is invalid, with the reason, and of no other.
pub proof fn law_events_of_invalid_breakpoints(bps: Seq<Breakpoint>, bp: Breakpoint)
    ensures
        invalid_events(Seq::empty()).len() == 0,
        bp.state matches BreakpointState::Invalid(reason) ==> invalid_events(bps.push(bp))
            == invalid_events(bps).push(
            EventModel::BreakpointState {
                id: bp.id,
                line: bp.line,
                verified: false,
                message: Some(reason.spec_message()),
            },
        ),
        !(bp.state is Invalid) ==> invalid_events(bps.push(bp)) == invalid_events(bps),
{
    assert(bps.push(bp).drop_last() =~= bps);
}

/// Sources that are told are known, and a later one takes the place of an earlier one.
pub proof fn law_sources_are_known(
    m: Map<Seq<char>, String>,
    entries: Seq<(String, String)>,
    entry: (String, String),
    other: Seq<char>,
)
    requires
        other != entry.0@,
    ensures
        extended(m, Seq::empty()) == m,
        extended(m, entries.push(entry)).contains_key(entry.0@),
        extended(m, entries.push(entry))[entry.0@] == entry.1,
        extended(m, entries.push(entry)).contains_key(other) <==> extended(
            m,
            entries,
        ).contains_key(other),
        extended(m, entries).contains_key(other) ==> extended(m, entries.push(entry))[other]
            == extended(m, entries)[other],
{
    assert(entries.push(entry).drop_last() =~= entries);
}

/// What is known and told once R left the debugger.
pub open spec fn has_stopped(r: DebugMessages, new: Dap, old: Dap) -> bool {
    &&& !new.is_debugging
    &&& new.stack is None
    &&& !new.is_interrupting_for_debugger
    &&& new.fallback_sources@ == Map::<Seq<char>, String>::empty()
    &&& new.frame_id_to_variables_reference@ == Map::<i64, i64>::empty()
    &&& new.variables_reference_to_r_object@ == Map::<i64, RObject>::empty()
    &&& new.current_variables_reference == 1
    &&& new.is_connected == old.is_connected
    &&& new.has_comm == old.has_comm
    &&& new.has_client == old.has_client
    &&& new.breakpoints == old.breakpoints
    &&& new.exception_breakpoint_filters == old.exception_breakpoint_filters
    &&& new.current_breakpoint_id == old.current_breakpoint_id
    &&& r.notify == (old.is_debugging && old.is_connected && old.has_comm)
    &&& if r.notify && old.has_client {
        r.event is Some && r.event->0@ == EventModel::Continued
    } else {
        r.event is None
    }
}

/// What the client is told of a value that was evaluated, and what is then known.
pub open spec fn is_evaluated(
    r: EvaluateResponse,
    new: Dap,
    old: Dap,
    variable: RVariable,
) -> bool {
    &&& r.result == variable.value
    &&& r.type_field == variable.type_field
    &&& match variable.variables_reference_object {
        Some(x) => r.variables_reference == old.current_variables_reference
            && new.variables_reference_to_r_object@
            == old.variables_reference_to_r_object@.insert(r.variables_reference, x)
            && new == (Dap {
            variables_reference_to_r_object: new.variables_reference_to_r_object,
            current_variables_reference: (r.variables_reference + 1) as i64,
            ..old
        }),
        None => r.variables_reference == 0 && new == old,
    }
}

/// What is shown of a value that was evaluated, and of what was printed for it.
pub open spec fn is_value_shown(
    r: Result<RVariable, String>,
    printed: Option<String>,
    value: Result<RVariable, EvalError>,
) -> bool {
    match (value, printed) {
        (Err(EvalError::Signalled { message }), _) => r == Err::<RVariable, String>(
            message,
        ),
        (Err(EvalError::Other(text)), _) => r == Err::<RVariable, String>(text),
        (Ok(v), None) => r == Ok::<RVariable, String>(v),
        (Ok(_), Some(p)) => r matches Ok(v) && v.name@.len() == 0 && v.value@
            == text::trimmed_end(p@) && v.type_field is None
            && v.variables_reference_object is None,
    }
}

/// Once R left the debugger, nothing is known of the stack and its variables. The breakpoints
/// stay. The client and the user interface are told that R goes on, if R was debugging.
pub proof fn law_leaving_the_debugger(r: DebugMessages, new: Dap, old: Dap)
    requires
        has_stopped(r, new, old),
    ensures
        !new.is_debugging,
        new.stack is None,
        !new.is_interrupting_for_debugger,
        forall|k: Seq<char>| !#[trigger] new.fallback_sources@.contains_key(k),
        forall|k: i64| !#[trigger] new.frame_id_to_variables_reference@.contains_key(k),
        forall|k: i64| !#[trigger] new.variables_reference_to_r_object@.contains_key(k),
        new.current_variables_reference == 1,
        new.breakpoints == old.breakpoints,
        new.current_breakpoint_id == old.current_breakpoint_id,
        new.exception_breakpoint_filters == old.exception_breakpoint_filters,
        new.is_connected == old.is_connected && new.has_comm == old.has_comm && new.has_client
            == old.has_client,
        r.notify <==> old.is_debugging && old.is_connected && old.has_comm,
        r.event is Some <==> old.is_debugging && old.is_connected && old.has_comm
            && old.has_client,
        r.event is Some ==> r.event->0@ == EventModel::Continued,
{
}

/// A value that was evaluated is told as it is shown. One with children gets a reference of
/// its own, by which it is found.
pub proof fn law_evaluated_values(r: EvaluateResponse, new: Dap, old: Dap, variable: RVariable)
    requires
        is_evaluated(r, new, old, variable),
        0 < old.current_variables_reference < i64::MAX,
    ensures
        r.result == variable.value,
        r.type_field == variable.type_field,
        variable.variables_reference_object is None <==> r.variables_reference == 0,
        variable.variables_reference_object matches Some(x) ==> r.variables_reference
            == old.current_variables_reference && new.current_variables_reference
            == old.current_variables_reference + 1
            && new.variables_reference_to_r_object@.contains_key(r.variables_reference)
            && new.variables_reference_to_r_object@[r.variables_reference] == x,
        variable.variables_reference_object is None ==> new == old,
        new.breakpoints == old.breakpoints && new.stack == old.stack,
{
}

/// A value is shown as it is, or as what was printed for it without the blanks at its end.
/// An error is told by its message.
pub proof fn law_values_are_printed(
    r: Result<RVariable, String>,
    printed: String,
    value: RVariable,
    message: String,
    any: Option<String>,
)
    ensures
        is_value_shown(r, None, Ok(value)) ==> r == Ok::<RVariable, String>(value),
        is_value_shown(r, Some(printed), Ok(value)) ==> (r matches Ok(v) && v.name@.len() == 0
            && v.value@ == text::trimmed_end(printed@) && v.type_field is None
            && v.variables_reference_object is None),
        is_value_shown(r, any, Err(EvalError::Signalled { message })) ==> r == Err::<
            RVariable,
            String,
        >(message),
        is_value_shown(r, any, Err(EvalError::Other(message))) ==> r == Err::<RVariable, String>(
            message,
        ),
{
}

/// The breakpoints that are set are kept for the document, first and in the order of the
/// lines, and the reply tells of each of them. All others of the document are disabled, and
/// nothing else of the debugger's state changes.
pub proof fn law_set_breakpoints_are_kept(
    before: Dap,
    after: Dap,
    reply: Seq<ReplyBreakpoint>,
    uri: Seq<char>,
    hash: Seq<u8>,
    lines: Seq<i64>,
    k: int,
)
    requires
        before.sets_breakpoints(after, reply, uri, hash, lines),
        0 <= k < lines.len(),
        forall|i: int|
            0 <= i < lines.len() ==> 1 <= #[trigger] lines[i] && lines[i] <= u32::MAX,
    ensures
        after.breakpoints@.contains_key(uri),
        after.breakpoints@[uri].breakpoints@.len() >= lines.len(),
        after.breakpoints@[uri].breakpoints@[k].original_line == lines[k] - 1,
        !(after.breakpoints@[uri].breakpoints@[k].state is Disabled),
        reply[k].id == after.breakpoints@[uri].breakpoints@[k].id,
        reply[k].line == after.breakpoints@[uri].breakpoints@[k].line + 1,
        reply[k].verified == (after.breakpoints@[uri].breakpoints@[k].state is Verified),
        forall|j: int|
            lines.len() <= j < after.breakpoints@[uri].breakpoints@.len() ==> (
            #[trigger] after.breakpoints@[uri].breakpoints@[j]).state is Disabled,
        after.stack == before.stack,
        after.is_debugging == before.is_debugging,
        after.exception_breakpoint_filters == before.exception_breakpoint_filters,
{
    let known = known_breakpoints(before.breakpoints@, uri, hash);
    let at = from_dap_lines(lines);
    let id = before.current_breakpoint_id as int;
    let set = updated(known, at, id);
    law_set_at_lines(known, at, id);
    lemma_enabled_first(set, at.len() as int);
    assert(is_reply(reply[k], enabled_breakpoints(set)[k]));
    assert(lines[k] - 1 == at[k]);
}

} // verus!
