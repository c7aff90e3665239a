//! The call that R is about to evaluate in the debugger, captured from its output.
use vstd::prelude::*;

use crate::console::console_filter::DebugCallTextKind;
use crate::text;

verus! {

#[derive(Debug)]
pub enum DebugCallText {
    Unknown,
    Capturing(String, DebugCallTextKind),
    Finalized(String, DebugCallTextKind),
}

/// What is known of the call and of its line, and the level of compilation to
/// restore after a step into a function.
#[derive(Debug)]
pub struct CallTextState {
    pub call_text: DebugCallText,
    pub last_line: Option<i64>,
    pub jit_level: Option<i32>,
}

/// What R's output makes of what is known.
pub open spec fn is_written(new: CallTextState, old: CallTextState, content: Seq<char>) -> bool {
    &&& new.jit_level == old.jit_level
    &&& match old.call_text {
        DebugCallText::Capturing(captured, kind) => {
            &&& new.last_line == old.last_line
            &&& new.call_text matches DebugCallText::Capturing(now, k) && now@ == captured@
                + content && k == kind
        },
        _ => if content == "debug: "@ {
            &&& new.last_line == old.last_line
            &&& new.call_text matches DebugCallText::Capturing(now, k) && now@.len() == 0 && k
                == DebugCallTextKind::Debug
        } else if "debug at "@.is_prefix_of(content) {
            &&& new.last_line == old.last_line
            &&& new.call_text matches DebugCallText::Capturing(now, k) && now@.len() == 0 && k
                == DebugCallTextKind::DebugAt
        } else if content == "debugging in: "@ || content == "exiting from: "@ {
            new.last_line is None && new.call_text is Unknown
        } else {
            new == old
        },
    }
}

/// What a read of the console makes of what is known.
pub open spec fn is_read(r: Option<i32>, new: CallTextState, old: CallTextState) -> bool {
    &&& r == old.jit_level
    &&& new.jit_level is None
    &&& new.last_line == old.last_line
    &&& new.call_text == match old.call_text {
        DebugCallText::Capturing(captured, kind) => DebugCallText::Finalized(captured, kind),
        other => other,
    }
}

impl CallTextState {
    /// R wrote `content`. While a call is captured everything is part of it. The
    /// output `debug: ` and output that starts with `debug at ` announce a call.
    /// Entering or leaving a closure makes what is known void.
    pub fn debug_handle_write_console(&mut self, content: &str)
        ensures
            is_written(*final(self), *old(self), content@),
    {
        let captured: Option<(String, DebugCallTextKind)> = match &self.call_text {
            DebugCallText::Capturing(captured, kind) => Some(
                (text::join2(captured.as_str(), content), *kind),
            ),
            _ => None,
        };
        if let Some((captured, kind)) = captured {
            self.call_text = DebugCallText::Capturing(captured, kind);
            return ;
        }
        if text::same(content, "debug: ") {
            self.call_text = DebugCallText::Capturing(String::new(), DebugCallTextKind::Debug);
            return ;
        }
        if text::starts_with(content, "debug at ") {
            self.call_text = DebugCallText::Capturing(String::new(), DebugCallTextKind::DebugAt);
            return ;
        }
        if text::same(content, "debugging in: ") || text::same(content, "exiting from: ") {
            self.last_line = None;
            self.call_text = DebugCallText::Unknown;
        }
    }

    /// R reads from the console: a call that is being captured is whole. Returns
    /// the level of compilation to restore.
    pub fn debug_handle_read_console(&mut self) -> (r: Option<i32>)
        ensures
            is_read(r, *final(self), *old(self)),
    {
        let captured: Option<(String, DebugCallTextKind)> = match &self.call_text {
            DebugCallText::Capturing(captured, kind) => Some((captured.clone(), *kind)),
            _ => None,
        };
        if let Some((captured, kind)) = captured {
            self.call_text = DebugCallText::Finalized(captured, kind);
        }
        let level: Option<i32> = self.jit_level;
        self.jit_level = None;
        level
    }
}

/// A call that is announced is what R writes until it reads from the console. The line
/// that is known stays, and the level of compilation is handed out by the read.
pub proof fn law_announced_calls_are_captured(
    a: CallTextState,
    b: CallTextState,
    c: CallTextState,
    d: CallTextState,
    at: Seq<char>,
    call: Seq<char>,
    level: Option<i32>,
)
    requires
        !(a.call_text is Capturing),
        is_written(b, a, "debug: "@) || ("debug at "@.is_prefix_of(at) && is_written(b, a, at)),
        is_written(c, b, call),
        is_read(level, d, c),
    ensures
        d.call_text matches DebugCallText::Finalized(known, kind) && known@ == call && (is_written(
            b,
            a,
            "debug: "@,
        ) ==> kind == DebugCallTextKind::Debug),
        d.last_line == a.last_line,
        level == a.jit_level,
        d.jit_level is None,
{
    reveal_strlit("debug: ");
    reveal_strlit("debug at ");
    assert(call =~= Seq::empty() + call);
    if "debug at "@.is_prefix_of(at) {
        assert(at[5] == "debug at "@[5]);
        assert("debug: "@[5] == ':');
    }
}

/// The place in the output `debug at ` tells that the call has one.
pub proof fn law_calls_with_a_place(a: CallTextState, b: CallTextState, content: Seq<char>)
    requires
        !(a.call_text is Capturing),
        "debug at "@.is_prefix_of(content),
        is_written(b, a, content),
    ensures
        b.call_text matches DebugCallText::Capturing(known, kind) && known@.len() == 0 && kind
            == DebugCallTextKind::DebugAt,
{
    reveal_strlit("debug: ");
    reveal_strlit("debug at ");
    assert(content[5] == "debug at "@[5]);
    assert("debug: "@[5] == ':');
}

/// Entering or leaving a closure makes the call and the line unknown. Other output, while no
/// call is captured, changes nothing.
pub proof fn law_closures_make_calls_unknown(
    a: CallTextState,
    b: CallTextState,
    content: Seq<char>,
)
    requires
        !(a.call_text is Capturing),
        is_written(b, a, content),
    ensures
        content == "debugging in: "@ || content == "exiting from: "@ ==> b.call_text is Unknown
            && b.last_line is None && b.jit_level == a.jit_level,
        content != "debugging in: "@ && content != "exiting from: "@ && content != "debug: "@
            && !"debug at "@.is_prefix_of(content) ==> b == a,
{
    reveal_strlit("debug: ");
    reveal_strlit("debug at ");
    reveal_strlit("debugging in: ");
    reveal_strlit("exiting from: ");
    assert("debugging in: "@[5] == 'g');
    assert("exiting from: "@[0] == 'e');
    assert("debug: "@[5] == ':');
    assert("debug at "@[5] == ' ');
    assert("debug at "@[0] == 'd');
    assert("debug: "@[0] == 'd');
    if "debug at "@.is_prefix_of(content) {
        assert(content[5] == ' ');
        assert(content[0] == 'd');
    }
}

} // verus!
