//! Comms: channels to the frontend, and how requests on them are answered.
//!
//! JSON is carried as text.
use vstd::prelude::*;


verus! {

/// A message on a comm.
#[derive(Debug, PartialEq, Eq)]
pub enum CommMsg {
    /// Data, which has no answer.
    Data(String),
    /// A request, or the answer to one.
    Rpc { id: String, parent_header: String, data: String },
    Close,
}

/// Why the environment changed.
#[derive(Debug, PartialEq, Eq)]
pub enum EnvironmentChanged {
    /// Code was executed at top level. Carries the prompts, which the frontend is
    /// told.
    Execution { input_prompt: String, continuation_prompt: String },
    /// The user selected another frame of the call stack while debugging.
    FrameSelected,
}

/// What a handler of a comm can ask for while it runs.
#[derive(Debug)]
pub struct CommHandlerContext {
    closed: bool,
}

impl CommHandlerContext {
    /// A handler asked that its comm be closed.
    pub closed spec fn asked_to_close(self) -> bool {
        self.closed
    }

    pub fn new() -> (r: Self)
        ensures
            !r.asked_to_close(),
    {
        Self { closed: false }
    }

    /// Asks that the comm be closed after the handler has returned. The handler can
    /// still send messages before and after, as closing is deferred.
    pub fn close_on_exit(&mut self)
        ensures
            final(self).asked_to_close(),
    {
        self.closed = true;
    }

    pub fn is_closed(&self) -> (r: bool)
        ensures
            r == self.asked_to_close(),
    {
        self.closed
    }
}

#[derive(Clone, Copy, Debug, PartialEq, Eq, Structural)]
pub enum JsonRpcErrorCode {
    MethodNotFound,
    InternalError,
}

/// What became of a request. JSON, and errors in words, are carried as text.
#[derive(Debug)]
pub enum RpcOutcome {
    /// The request is none that the comm knows.
    Unknown(String),
    /// The handler failed.
    Failed(String),
    /// The handler's reply could not be turned into JSON.
    Unserialisable(String),
    Done(String),
}

/// What a request is answered.
#[derive(Debug, PartialEq, Eq)]
pub enum RpcAnswer {
    Result(String),
    Error { code: JsonRpcErrorCode, message: String },
}

/// The answer to a request.
#[derive(Debug, PartialEq, Eq)]
pub struct RpcResponse {
    pub id: String,
    pub parent_header: String,
    pub answer: RpcAnswer,
}

/// What an error says: what went wrong with a request to which comm, why, and what the
/// request was.
pub open spec fn error_message(
    what: Seq<char>,
    comm_name: Seq<char>,
    which: Seq<char>,
    why: Seq<char>,
    data: Seq<char>,
) -> Seq<char> {
    what + comm_name + which + why + " (request: "@ + data + ")"@
}

fn format_error(what: &str, comm_name: &str, which: &str, why: &str, data: &str) -> (r: String)
    ensures
        r@ == error_message(what@, comm_name@, which@, why@, data@),
{
    let mut r: String = what.to_owned();
    r.append(comm_name);
    r.append(which);
    r.append(why);
    r.append(" (request: ");
    r.append(data);
    r.append(")");
    r
}

/// The answer to a request.
pub open spec fn is_answer(
    answer: RpcAnswer,
    comm_name: Seq<char>,
    data: Seq<char>,
    outcome: RpcOutcome,
) -> bool {
    match outcome {
        RpcOutcome::Done(json) => answer == RpcAnswer::Result(json),
        RpcOutcome::Unserialisable(why) => {
            &&& answer matches RpcAnswer::Error { code, message }
            &&& code == JsonRpcErrorCode::InternalError
            &&& message@ == error_message(
                "Failed to serialise reply for "@,
                comm_name,
                " request: "@,
                why@,
                data,
            )
        },
        RpcOutcome::Failed(why) => {
            &&& answer matches RpcAnswer::Error { code, message }
            &&& code == JsonRpcErrorCode::InternalError
            &&& message@ == error_message(
                "Failed to process "@,
                comm_name,
                " request: "@,
                why@,
                data,
            )
        },
        RpcOutcome::Unknown(why) => {
            &&& answer matches RpcAnswer::Error { code, message }
            &&& code == JsonRpcErrorCode::MethodNotFound
            &&& message@ == error_message(
                "No handler for "@,
                comm_name,
                " request (method not found): "@,
                why@,
                data,
            )
        },
    }
}

/// Answers a message. Only requests are answered, each with its own id and header, also
/// if it was not understood or failed.
pub fn handle_rpc_request(comm_name: &str, message: CommMsg, outcome: RpcOutcome) -> (r: Option<
    RpcResponse,
>)
    ensures
        is_response(r, comm_name@, message, outcome),
{
    match message {
        CommMsg::Rpc { id, parent_header, data } => {
            let answer: RpcAnswer = match outcome {
                RpcOutcome::Done(json) => RpcAnswer::Result(json),
                RpcOutcome::Unserialisable(why) => RpcAnswer::Error {
                    code: JsonRpcErrorCode::InternalError,
                    message: format_error(
                        "Failed to serialise reply for ",
                        comm_name,
                        " request: ",
                        why.as_str(),
                        data.as_str(),
                    ),
                },
                RpcOutcome::Failed(why) => RpcAnswer::Error {
                    code: JsonRpcErrorCode::InternalError,
                    message: format_error(
                        "Failed to process ",
                        comm_name,
                        " request: ",
                        why.as_str(),
                        data.as_str(),
                    ),
                },
                RpcOutcome::Unknown(why) => RpcAnswer::Error {
                    code: JsonRpcErrorCode::MethodNotFound,
                    message: format_error(
                        "No handler for ",
                        comm_name,
                        " request (method not found): ",
                        why.as_str(),
                        data.as_str(),
                    ),
                },
            };
            Some(RpcResponse { id, parent_header, answer })
        },
        _ => None,
    }
}

/// The response to a message, which only requests have.
pub open spec fn is_response(
    r: Option<RpcResponse>,
    comm_name: Seq<char>,
    message: CommMsg,
    outcome: RpcOutcome,
) -> bool {
    match message {
        CommMsg::Rpc { id, parent_header, data } => {
            &&& r matches Some(response)
            &&& response.id == id
            &&& response.parent_header == parent_header
            &&& is_answer(response.answer, comm_name, data@, outcome)
        },
        _ => r is None,
    }
}

/// A request is answered under its own id and header. Its result is handed on as it is.
/// What went wrong is told with the comm, the reason and the request, and a method that
/// does not exist has a code of its own.
pub proof fn law_requests_are_answered(
    r: Option<RpcResponse>,
    name: Seq<char>,
    id: String,
    parent_header: String,
    data: String,
    outcome: RpcOutcome,
)
    requires
        is_response(r, name, CommMsg::Rpc { id, parent_header, data }, outcome),
    ensures
        r matches Some(response) && response.id == id && response.parent_header == parent_header
            && match (outcome, response.answer) {
            (RpcOutcome::Done(json), RpcAnswer::Result(told)) => told == json,
            (RpcOutcome::Failed(why), RpcAnswer::Error { code, message }) => code
                == JsonRpcErrorCode::InternalError && message@ == "Failed to process "@ + name
                + " request: "@ + why@ + " (request: "@ + data@ + ")"@,
            (RpcOutcome::Unserialisable(why), RpcAnswer::Error { code, message }) => code
                == JsonRpcErrorCode::InternalError && message@ == "Failed to serialise reply for "@
                + name + " request: "@ + why@ + " (request: "@ + data@ + ")"@,
            (RpcOutcome::Unknown(why), RpcAnswer::Error { code, message }) => code
                == JsonRpcErrorCode::MethodNotFound && message@ == "No handler for "@ + name
                + " request (method not found): "@ + why@ + " (request: "@ + data@ + ")"@,
            _ => false,
        },
{
}

/// Other messages have no response.
pub proof fn law_only_requests_are_answered(
    r: Option<RpcResponse>,
    name: Seq<char>,
    message: CommMsg,
    outcome: RpcOutcome,
)
    requires
        is_response(r, name, message, outcome),
    ensures
        r is Some <==> message is Rpc,
{
}

} // verus!
