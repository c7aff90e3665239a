//! What the console learns of a debug session from R's output.
use vstd::prelude::*;

use crate::console::console_debug::{
    as_frame_info, frame_source, is_frame, is_stack_query, sourced, stack_query, FrameInfo, RFrame,
    StackQuery,
};
use crate::text;

verus! {

/// The call that R is about to evaluate, as it emits it after `debug: `.
#[derive(Debug)]
pub enum DebugCallText {
    Unknown,
    Capturing(String),
    Finalized(String),
}

/// The state of the debugger as far as it shows in R's output.
#[derive(Debug)]
pub struct DebuggerState {
    pub call_text: DebugCallText,
    /// The last known start line of the active context frame.
    pub last_start_line: Option<i64>,
}

/// The console's side of a debug session.
#[derive(Debug)]
pub struct RMainDap {
    /// Whether R is debugging.
    pub debugging: bool,
    pub debugger_state: DebuggerState,
    /// The next frame id. Unique across all frames of a session: it is not reset
    /// between steps, so that a late request never gets another frame.
    pub current_frame_info_id: i64,
}

/// What R's output makes of what is known.
pub open spec fn is_written(new: RMainDap, old: RMainDap, content: Seq<char>) -> bool {
    &&& new.debugging == old.debugging
    &&& new.current_frame_info_id == old.current_frame_info_id
    &&& match old.debugger_state.call_text {
        DebugCallText::Capturing(captured) => {
            &&& new.debugger_state.last_start_line == old.debugger_state.last_start_line
            &&& new.debugger_state.call_text matches DebugCallText::Capturing(now) && now@
                == captured@ + content
        },
        _ => if content == "debug: "@ {
            &&& new.debugger_state.last_start_line == old.debugger_state.last_start_line
            &&& new.debugger_state.call_text matches DebugCallText::Capturing(now) && now@.len()
                == 0
        } else if content == "debugging in: "@ || content == "exiting from: "@ {
            &&& new.debugger_state.last_start_line is None
            &&& new.debugger_state.call_text is Unknown
        } else {
            new.debugger_state == old.debugger_state
        },
    }
}

/// What is known once a call that is being captured is whole.
pub open spec fn finalized(m: RMainDap) -> RMainDap {
    RMainDap {
        debugger_state: DebuggerState {
            call_text: match m.debugger_state.call_text {
                DebugCallText::Capturing(captured) => DebugCallText::Finalized(captured),
                other => other,
            },
            ..m.debugger_state
        },
        ..m
    }
}

impl RMainDap {
    pub fn new() -> (r: Self)
        ensures
            !r.debugging,
            r.debugger_state.call_text is Unknown,
            r.debugger_state.last_start_line is None,
            r.current_frame_info_id == 0,
    {
        Self {
            debugging: false,
            debugger_state: DebuggerState {
                call_text: DebugCallText::Unknown,
                last_start_line: None,
            },
            current_frame_info_id: 0,
        }
    }

    pub fn is_debugging(&self) -> (r: bool)
        ensures
            r == self.debugging,
    {
        self.debugging
    }

    /// R entered the debugger.
    pub fn start_debug(&mut self)
        ensures
            *final(self) == (RMainDap { debugging: true, ..*old(self) }),
    {
        self.debugging = true;
    }

    /// R left the debugger. Frame ids start again.
    pub fn stop_debug(&mut self)
        ensures
            *final(self) == (RMainDap { debugging: false, current_frame_info_id: 0, ..*old(self) }),
    {
        self.current_frame_info_id = 0;
        self.debugging = false;
    }

    /// The next frame id.
    pub fn next_frame_id(&mut self) -> (id: i64)
        requires
            old(self).current_frame_info_id < i64::MAX,
        ensures
            id == old(self).current_frame_info_id,
            *final(self) == (RMainDap {
                current_frame_info_id: (old(self).current_frame_info_id + 1) as i64,
                ..*old(self)
            }),
    {
        let id: i64 = self.current_frame_info_id;
        self.current_frame_info_id = self.current_frame_info_id + 1;
        id
    }

    /// R wrote `content`. While a call is captured everything is part of it. The
    /// output `debug: ` announces a call. Entering or leaving a closure makes what
    /// is known of the call and its line void.
    pub fn handle_stdout(&mut self, content: &str)
        ensures
            is_written(*final(self), *old(self), content@),
    {
        let captured: Option<String> = match &self.debugger_state.call_text {
            DebugCallText::Capturing(captured) => Some(text::join2(captured.as_str(), content)),
            _ => None,
        };
        if let Some(captured) = captured {
            self.debugger_state.call_text = DebugCallText::Capturing(captured);
            return ;
        }
        if text::same(content, "debug: ") {
            self.debugger_state.call_text = DebugCallText::Capturing(String::new());
            return ;
        }
        if text::same(content, "debugging in: ") || text::same(content, "exiting from: ") {
            self.debugger_state.last_start_line = None;
            self.debugger_state.call_text = DebugCallText::Unknown;
        }
    }

    /// R reads from the console: a call that is being captured is whole.
    pub fn finalize_call_text(&mut self)
        ensures
            *final(self) == finalized(*old(self)),
    {
        let captured: Option<String> = match &self.debugger_state.call_text {
            DebugCallText::Capturing(captured) => Some(captured.clone()),
            _ => None,
        };
        if let Some(captured) = captured {
            self.debugger_state.call_text = DebugCallText::Finalized(captured);
        }
    }

    /// The call that tells R which expression of the topmost frame is next. It
    /// stays known while the user evaluates code in the debugger.
    pub fn context_call_text(&self) -> (r: Option<&String>)
        ensures
            match self.debugger_state.call_text {
                DebugCallText::Finalized(captured) => r == Some(&captured),
                _ => r is None,
            },
    {
        match &self.debugger_state.call_text {
            DebugCallText::Finalized(captured) => Some(captured),
            _ => None,
        }
    }

    /// What R is told when it is asked for the call stack. None if the last known line
    /// is no integer of R's.
    pub fn r_stack_info(&self) -> (r: Option<StackQuery>)
        ensures
            is_stack_query(
                r,
                match self.debugger_state.call_text {
                    DebugCallText::Finalized(captured) => Some(captured@),
                    _ => None,
                },
                self.debugger_state.last_start_line,
            ),
    {
        stack_query(self.context_call_text(), self.debugger_state.last_start_line)
    }

    /// The call stack, innermost frame first, from R's description of it, which is
    /// outermost first. Every frame gets a new id, up to the first one that has no
    /// source. Remembers the line of the topmost frame.
    pub fn stack_info(&mut self, infos: Vec<RFrame>) -> (r: Result<Vec<FrameInfo>, &'static str>)
        requires
            old(self).current_frame_info_id + infos@.len() <= i64::MAX,
            forall|i: int| 0 <= i < infos@.len() ==> (#[trigger] infos@[i]).end_column < i32::MAX,
        ensures
            is_stack_info(r, *final(self), *old(self), infos@),
    {
        let mut rest: Vec<RFrame> = infos;
        let mut out: Vec<FrameInfo> = Vec::new();
        let n: usize = rest.len();
        let ghost all = rest@;
        while rest.len() > 0
            invariant
                all == infos@,
                n == all.len(),
                out@.len() + rest@.len() == n,
                sourced(all) == out@.len() + sourced(rest@),
                rest@ == all.take(rest@.len() as int),
                old(self).current_frame_info_id + n <= i64::MAX,
                *self == (RMainDap {
                    current_frame_info_id: (old(self).current_frame_info_id + out@.len()) as i64,
                    ..*old(self)
                }),
                forall|i: int| 0 <= i < all.len() ==> (#[trigger] all[i]).end_column < i32::MAX,
                forall|i: int|
                    n - out@.len() <= i < n ==> frame_source(#[trigger] all[i]) is Some,
                forall|k: int|
                    0 <= k < out@.len() ==> is_frame(
                        #[trigger] out@[k],
                        all[n - 1 - k],
                        (old(self).current_frame_info_id + k) as i64,
                    ),
            decreases rest@.len(),
        {
            let ghost last = rest@.len() - 1;
            let info: Option<RFrame> = rest.pop();
            assert(rest@ =~= all.take(last as int));
            assert(all.take(last + 1).drop_last() =~= rest@);
            if let Some(info) = info {
                assert(info == all[last as int]);
                match as_frame_info(info, self.current_frame_info_id) {
                    Ok(frame) => {
                        let _id: i64 = self.next_frame_id();
                        out.push(frame);
                    },
                    Err(message) => {
                        assert(frame_source(all[last as int]) is None);
                        return Err(message);
                    },
                }
            }
        }
        if out.len() > 0 {
            self.debugger_state.last_start_line = Some(out[0].start_line);
        }
        Ok(out)
    }
}

/// A call that is announced by `debug: ` is what R writes until it reads from the console.
/// Nothing else changes.
pub proof fn law_announced_calls_are_captured(
    a: RMainDap,
    b: RMainDap,
    c: RMainDap,
    call: Seq<char>,
)
    requires
        !(a.debugger_state.call_text is Capturing),
        is_written(b, a, "debug: "@),
        is_written(c, b, call),
    ensures
        finalized(c).debugger_state.call_text matches DebugCallText::Finalized(known) && known@
            == call,
        finalized(c).debugger_state.last_start_line == a.debugger_state.last_start_line,
        finalized(c).debugging == a.debugging,
        finalized(c).current_frame_info_id == a.current_frame_info_id,
{
    assert(call =~= Seq::empty() + call);
}

/// Entering or leaving a closure makes the call and the line unknown. Other output, while no
/// call is captured, changes nothing.
pub proof fn law_closures_make_calls_unknown(a: RMainDap, b: RMainDap, content: Seq<char>)
    requires
        !(a.debugger_state.call_text is Capturing),
        is_written(b, a, content),
    ensures
        content == "debugging in: "@ || content == "exiting from: "@
            ==> b.debugger_state.call_text is Unknown && b.debugger_state.last_start_line is None
            && b.debugging == a.debugging && b.current_frame_info_id == a.current_frame_info_id,
        content != "debugging in: "@ && content != "exiting from: "@ && content != "debug: "@
            ==> b == a,
        finalized(a) == a,
{
    reveal_strlit("debug: ");
    reveal_strlit("debugging in: ");
    reveal_strlit("exiting from: ");
    assert("debugging in: "@[5] == 'g');
    assert("exiting from: "@[0] == 'e');
    assert("debug: "@[5] == ':');
    assert("debug: "@[0] == 'd');
}

/// The call stack from R's description of it, and what is then known.
pub open spec fn is_stack_info(
    r: Result<Vec<FrameInfo>, &'static str>,
    new: RMainDap,
    old: RMainDap,
    infos: Seq<RFrame>,
) -> bool {
    &&& r is Ok <==> forall|i: int|
        0 <= i < infos.len() ==> frame_source(#[trigger] infos[i]) is Some
    &&& r matches Ok(stack) ==> {
        &&& stack@.len() == infos.len()
        &&& forall|k: int|
            0 <= k < stack@.len() ==> is_frame(
                #[trigger] stack@[k],
                infos[infos.len() - 1 - k],
                (old.current_frame_info_id + k) as i64,
            )
        &&& forall|i: int, j: int|
            0 <= i < j < stack@.len() ==> (#[trigger] stack@[i]).id != (
            #[trigger] stack@[j]).id
        &&& new == (RMainDap {
            current_frame_info_id: (old.current_frame_info_id + infos.len()) as i64,
            debugger_state: DebuggerState {
                last_start_line: if stack@.len() > 0 {
                    Some(stack@[0].start_line)
                } else {
                    old.debugger_state.last_start_line
                },
                ..old.debugger_state
            },
            ..old
        })
    }
    &&& r matches Err(message) ==> message@
        == "Expected either `file` or `text` to be non-`NULL`."@ && new == (
    RMainDap { current_frame_info_id: new.current_frame_info_id, ..old })
        && new.current_frame_info_id == old.current_frame_info_id + sourced(
        infos,
    )
}

/// R tells its stack from the outermost frame to the innermost one. It is known the other way
/// round, each frame with an id of its own, from the next free one on. The line of the
/// innermost frame is remembered. A frame without a source makes it fail.
pub proof fn law_stacks_are_told_innermost_first(
    r: Result<Vec<FrameInfo>, &'static str>,
    new: RMainDap,
    old: RMainDap,
    infos: Seq<RFrame>,
    k: int,
)
    requires
        is_stack_info(r, new, old, infos),
        old.current_frame_info_id + infos.len() <= i64::MAX,
        0 <= k < infos.len(),
    ensures
        r matches Ok(stack) ==> {
            &&& stack@.len() == infos.len()
            &&& is_frame(stack@[infos.len() - 1 - k], infos[k], (old.current_frame_info_id
                + infos.len() - 1 - k) as i64)
            &&& new.debugger_state.last_start_line == Some(stack@[0].start_line)
            &&& new.current_frame_info_id == old.current_frame_info_id + infos.len()
            &&& new.debugging == old.debugging
        },
        frame_source(infos[k]) is None ==> r is Err,
        r matches Err(m) ==> m@ == "Expected either `file` or `text` to be non-`NULL`."@
            && new.debugger_state == old.debugger_state,
        (forall|i: int| 0 <= i < infos.len() ==> frame_source(#[trigger] infos[i]) is Some) ==> r
            is Ok,
{
    if r is Ok {
        let stack = r->Ok_0;
        assert(is_frame(
            stack@[infos.len() - 1 - k],
            infos[infos.len() - 1 - (infos.len() - 1 - k)],
            (old.current_frame_info_id + (infos.len() - 1 - k)) as i64,
        ));
    }
}

} // verus!
