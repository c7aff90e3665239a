//! Control of the kernel: shutdown, interrupts, and debug requests of notebooks.
use vstd::prelude::*;

use crate::dap::dap_jupyter_handler::DapJupyterHandler;

verus! {

/// How the kernel is used.
#[derive(Clone, Copy, Debug, PartialEq, Eq, Structural)]
pub enum SessionMode {
    Console,
    Notebook,
    Background,
}

#[derive(Clone, Copy, Debug, PartialEq, Eq, Structural)]
pub enum Status {
    Fine,
    Error,
}

#[derive(Clone, Copy, Debug, PartialEq, Eq, Structural)]
pub struct ShutdownReply {
    pub status: Status,
    pub restart: bool,
}

/// What an interrupt request comes to, before R is interrupted.
#[derive(Clone, Copy, Debug, PartialEq, Eq, Structural)]
pub struct Interrupt {
    /// R is told to quit the debugger.
    pub quit_debugger: bool,
    pub reply: Status,
}

/// A debug request that is refused.
#[derive(Debug, PartialEq, Eq)]
pub struct Refusal {
    pub seq: i64,
    pub success: bool,
    pub message: &'static str,
}

/// Control of the kernel. Only notebooks debug by control messages.
pub struct Control {
    pub dap_handler: Option<DapJupyterHandler>,
}

impl Control {
    pub fn new(session_mode: SessionMode, tmp_file_prefix: String) -> (r: Self)
        ensures
            r.dap_handler is Some == (session_mode == SessionMode::Notebook),
            r.dap_handler matches Some(h) ==> h.seq == 1 && h.tmp_file_prefix == tmp_file_prefix,
    {
        let dap_handler: Option<DapJupyterHandler> = match session_mode {
            SessionMode::Notebook => Some(DapJupyterHandler::new(tmp_file_prefix)),
            _ => None,
        };
        Self { dap_handler }
    }

    /// The reply to a shutdown request, which was delivered to R or could not be.
    pub fn handle_shutdown_request(&self, delivered: bool, restart: bool) -> (r: ShutdownReply)
        ensures
            is_shutdown(r, delivered, restart),
    {
        let status: Status = if delivered {
            Status::Fine
        } else {
            Status::Error
        };
        ShutdownReply { status, restart }
    }

    /// What an interrupt request comes to. In a notebook the debugger is quit, as a
    /// cell that is being debugged keeps the notebook busy.
    pub fn handle_interrupt_request(&self, is_debugging: bool, is_debugging_stdin: bool) -> (r:
        Interrupt)
        ensures
            r == interrupted(self.dap_handler is Some, is_debugging, is_debugging_stdin),
    {
        Interrupt {
            quit_debugger: self.dap_handler.is_some() && (is_debugging || is_debugging_stdin),
            reply: Status::Fine,
        }
    }

    /// The handler of debug requests, or why they are refused.
    pub fn handle_debug_request(&mut self) -> (r: Result<&mut DapJupyterHandler, Refusal>)
        ensures
            match r {
                Ok(handler) => old(self).dap_handler == Some(*handler)
                    && final(self).dap_handler == Some(*final(handler)),
                Err(refusal) => {
                    &&& old(self).dap_handler is None
                    &&& final(self).dap_handler is None
                    &&& refusal.seq == 0
                    &&& !refusal.success
                    &&& refusal.message@ == "Debug requests are not supported in console mode"@
                },
            },
    {
        match &mut self.dap_handler {
            Some(handler) => Ok(handler),
            None => Err(
                Refusal {
                    seq: 0,
                    success: false,
                    message: "Debug requests are not supported in console mode",
                },
            ),
        }
    }
}

/// What an interrupt comes to.
pub open spec fn interrupted(notebook: bool, debugging: bool, debugging_stdin: bool) -> Interrupt {
    Interrupt {
        quit_debugger: notebook && (debugging || debugging_stdin),
        reply: Status::Fine,
    }
}

/// An interrupt always succeeds. It leaves the debugger exactly if a notebook is being
/// debugged.
pub proof fn law_interrupts_leave_the_debugger(notebook: bool, debugging: bool, stdin: bool)
    ensures
        interrupted(notebook, debugging, stdin).reply == Status::Fine,
        !notebook ==> !interrupted(notebook, debugging, stdin).quit_debugger,
        !debugging && !stdin ==> !interrupted(notebook, debugging, stdin).quit_debugger,
        interrupted(true, true, stdin).quit_debugger,
        interrupted(true, debugging, true).quit_debugger,
{
}

/// The reply to a request to shut down.
pub open spec fn is_shutdown(r: ShutdownReply, delivered: bool, restart: bool) -> bool {
    &&& r.restart == restart
    &&& r.status == (if delivered {
        Status::Fine
    } else {
        Status::Error
    })
}

/// The reply to a request to shut down repeats whether R is to start again. It tells of an
/// error exactly if R could not be told.
pub proof fn law_shutdowns_are_confirmed(r: ShutdownReply, delivered: bool, restart: bool)
    requires
        is_shutdown(r, delivered, restart),
    ensures
        r.restart == restart,
        delivered ==> r.status == Status::Fine,
        !delivered ==> r.status == Status::Error,
{
}

} // verus!
