use ark::ark_comm::{
    ArkBackendEvent, ArkBackendReply, ArkBackendRequest, ArkComm, ArkFrontendEvent, Done, Received,
    TestParams,
};
use ark::comm_handler::{
    handle_rpc_request, CommHandlerContext, CommMsg, EnvironmentChanged, JsonRpcErrorCode,
    RpcAnswer, RpcOutcome,
};
use ark::connections::r_connection::{
    after_disconnect, handle_messages, ps_connection_closed, ps_connection_opened,
    ps_connection_updated, reply_of, ConnectionMessage, ConnectionsBackendReply,
    ConnectionsBackendRequest, FieldSchema, Incoming, Metadata, ObjectSchema, Opened, Outcome,
    RAnswer, RConnection, RequestKind,
};
use ark::console::console_comm::ConsoleComms;
use ark::control::{Control, SessionMode, Status};
use ark::data_explorer::async_channels::{AsyncChannels, AsyncTaskSocket};

#[test]
fn numbers_come_back_negated() {
    let mut comm = ArkComm::handle_comm_open();
    let event = ArkBackendEvent::TestNotification(TestParams { i: 42 });
    assert_eq!(
        comm.process_messages(Received::Event(Some(event))),
        Done::Send(ArkFrontendEvent::TestNotification(TestParams { i: -42 }))
    );
    let request = ArkBackendRequest::TestRequest(TestParams { i: -7 });
    assert_eq!(
        comm.process_messages(Received::Request(Some(request))),
        Done::Reply(ArkBackendReply::TestReply(TestParams { i: 7 }))
    );
    assert_eq!(comm.process_messages(Received::Event(None)), Done::Skip);
    assert_eq!(comm.process_messages(Received::Request(None)), Done::Refuse);
    assert_eq!(comm.process_messages(Received::Close), Done::Stop);
    assert_eq!(comm.process_messages(Received::Disconnected), Done::Stop);
    comm.send_event(true);
    assert!(!comm.closed);
    comm.send_event(false);
    assert_eq!(comm.process_messages(Received::Event(None)), Done::Stop);
}

fn request() -> CommMsg {
    CommMsg::Rpc {
        id: "7".to_string(),
        parent_header: "{}".to_string(),
        data: "{\"a\":1}".to_string(),
    }
}

#[test]
fn requests_are_answered_with_their_ids() {
    let response =
        handle_rpc_request("x", request(), RpcOutcome::Done("true".to_string())).unwrap();
    assert_eq!(response.id, "7");
    assert_eq!(response.answer, RpcAnswer::Result("true".to_string()));
    assert!(handle_rpc_request("x", CommMsg::Close, RpcOutcome::Failed(String::new())).is_none());

    let error = |outcome| match handle_rpc_request("x", request(), outcome).unwrap().answer {
        RpcAnswer::Error { code, message } => (code, message),
        RpcAnswer::Result(_) => panic!("no error"),
    };
    assert_eq!(
        error(RpcOutcome::Failed("why".to_string())),
        (
            JsonRpcErrorCode::InternalError,
            "Failed to process x request: why (request: {\"a\":1})".to_string()
        )
    );
    assert_eq!(
        error(RpcOutcome::Unserialisable("why".to_string())),
        (
            JsonRpcErrorCode::InternalError,
            "Failed to serialise reply for x request: why (request: {\"a\":1})".to_string()
        )
    );
    assert_eq!(
        error(RpcOutcome::Unknown("why".to_string())),
        (
            JsonRpcErrorCode::MethodNotFound,
            "No handler for x request (method not found): why (request: {\"a\":1})".to_string()
        )
    );
}

#[test]
fn handlers_ask_to_close() {
    let mut ctx = CommHandlerContext::new();
    assert!(!ctx.is_closed());
    ctx.close_on_exit();
    assert!(ctx.is_closed());
    assert_ne!(EnvironmentChanged::FrameSelected, EnvironmentChanged::Execution {
        input_prompt: "> ".to_string(),
        continuation_prompt: "+ ".to_string(),
    });
}

fn open(comms: &mut ConsoleComms, id: &str, name: &str) -> Option<String> {
    comms
        .comm_open_frontend(id.to_string(), name.to_string(), CommHandlerContext::new())
        .map(|c| c.comm_name)
}

#[test]
fn there_is_one_comm_of_the_user_interface() {
    let mut comms = ConsoleComms::new("ui".to_string());
    assert!(!comms.is_ui_comm_connected());
    assert_eq!(open(&mut comms, "a", "other"), None);
    assert_eq!(open(&mut comms, "b", "ui"), None);
    assert!(comms.is_ui_comm_connected());
    assert_eq!(open(&mut comms, "c", "ui"), Some("ui".to_string()));
    assert_eq!(comms.ui_comm_id, Some("c".to_string()));
    assert!(!comms.comms.contains_key("b"));
    assert_eq!(comms.lookup_ui_comm().unwrap().comm_name, "ui");
    assert!(comms.comm_handle_close("c").is_some());
    assert!(!comms.is_ui_comm_connected());
    assert!(comms.comm_handle_close("c").is_none());
}

#[test]
fn comms_that_ask_to_close_are_forgotten() {
    let mut comms = ConsoleComms::new("ui".to_string());
    open(&mut comms, "a", "other");
    open(&mut comms, "b", "ui");
    comms.comm_open_backend("c".to_string(), "other".to_string(), CommHandlerContext::new());
    assert!(!comms.comm_handle_msg("z", true));
    assert!(comms.comm_handle_msg("a", false));
    assert!(comms.drain_closed().is_empty());
    assert!(comms.comm_handle_msg("b", true));
    assert!(comms.comm_handle_msg("c", true));
    let mut told = comms.comm_notify_environment_changed();
    told.sort();
    assert_eq!(told, vec!["a", "b", "c"]);
    let mut closed = comms.drain_closed();
    closed.sort();
    assert_eq!(closed, vec!["b", "c"]);
    assert!(comms.comms.contains_key("a"));
    assert_eq!(comms.ui_comm_id, None);
}

fn path() -> Vec<ObjectSchema> {
    vec![ObjectSchema { name: "main".to_string(), kind: "schema".to_string() }]
}

fn connection() -> RConnection {
    let metadata = Metadata {
        name: "db".to_string(),
        language_id: "r".to_string(),
        host: None,
        kind: None,
        code: None,
    };
    RConnection::start(metadata, "id".to_string())
}

#[test]
fn connections_ask_r() {
    let c = connection();
    for (request, function, kind) in [
        (
            ConnectionsBackendRequest::ListObjects(path()),
            ".ps.connection_list_objects",
            RequestKind::ListObjects,
        ),
        (
            ConnectionsBackendRequest::ListFields(path()),
            ".ps.connection_list_fields",
            RequestKind::ListFields,
        ),
        (
            ConnectionsBackendRequest::ContainsData(path()),
            ".ps.connection_contains_data",
            RequestKind::ContainsData,
        ),
        (ConnectionsBackendRequest::GetIcon(path()), ".ps.connection_icon", RequestKind::GetIcon),
        (
            ConnectionsBackendRequest::PreviewObject(path()),
            ".ps.connection_preview_object",
            RequestKind::PreviewObject,
        ),
    ] {
        let (k, call) = c.handle_rpc(request);
        assert_eq!(k, kind);
        assert_eq!(call.function, function);
        assert_eq!(call.comm_id, "id");
        assert_eq!(call.path, path());
    }
    assert_eq!(c.disconnect().function, ".ps.connection_close");
}

#[test]
fn answers_of_r_make_replies() {
    let table = || RAnswer::Table {
        names: vec!["a".to_string(), "b".to_string()],
        types: vec!["table".to_string()],
    };
    assert_eq!(
        reply_of(RequestKind::ListObjects, table()),
        Ok(ConnectionsBackendReply::ListObjectsReply(vec![ObjectSchema {
            name: "a".to_string(),
            kind: "table".to_string(),
        }]))
    );
    assert_eq!(
        reply_of(RequestKind::ListFields, table()),
        Ok(ConnectionsBackendReply::ListFieldsReply(vec![FieldSchema {
            name: "a".to_string(),
            dtype: "table".to_string(),
        }]))
    );
    assert_eq!(
        reply_of(RequestKind::GetIcon, RAnswer::Text(None)),
        Ok(ConnectionsBackendReply::GetIconReply(String::new()))
    );
    assert_eq!(
        reply_of(RequestKind::ContainsData, RAnswer::Logical(true)),
        Ok(ConnectionsBackendReply::ContainsDataReply(true))
    );
    assert_eq!(
        reply_of(RequestKind::PreviewObject, RAnswer::Ignored),
        Ok(ConnectionsBackendReply::PreviewObjectReply)
    );
    assert_eq!(
        reply_of(RequestKind::GetIcon, RAnswer::Failed("no".to_string())),
        Err("no".to_string())
    );
}

#[test]
fn connections_close_once_r_has_disconnected() {
    assert_eq!(handle_messages(Incoming::Close), Outcome::Disconnect);
    assert_eq!(handle_messages(Incoming::Data), Outcome::Forward);
    assert_eq!(handle_messages(Incoming::Request), Outcome::Answer);
    assert_eq!(handle_messages(Incoming::Disconnected), Outcome::Finish);
    assert_eq!(after_disconnect(&Ok(true)), Some(1));
    assert_eq!(after_disconnect(&Ok(false)), Some(2));
    assert_eq!(after_disconnect(&Err("no".to_string())), None);
}

#[test]
fn opened_connections_are_shown() {
    let name = || Ok("db".to_string());
    assert_eq!(
        ps_connection_opened(true, name(), Ok(None), Ok(None), Ok(None)),
        Opened::NotShown
    );
    assert_eq!(
        ps_connection_opened(false, Err("no".to_string()), Ok(None), Ok(None), Ok(None)),
        Opened::Failed("no".to_string())
    );
    let opened = ps_connection_opened(
        false,
        name(),
        Ok(Some("host".to_string())),
        Err("no".to_string()),
        Ok(None),
    );
    let Opened::Show(m) = opened else { panic!("not shown") };
    assert_eq!((m.name.as_str(), m.language_id.as_str()), ("db", "r"));
    assert_eq!((m.host, m.kind, m.code), (Some("host".to_string()), None, None));
    assert_eq!(
        ps_connection_closed("i".to_string()),
        ("i".to_string(), ConnectionMessage::Close)
    );
    assert_eq!(
        ps_connection_updated("i".to_string()),
        ("i".to_string(), ConnectionMessage::Update)
    );
}

#[test]
fn only_notebooks_debug_by_control_messages() {
    let mut console = Control::new(SessionMode::Console, "/tmp/x".to_string());
    assert!(!console.handle_interrupt_request(true, true).quit_debugger);
    let refusal = console.handle_debug_request().err().unwrap();
    assert_eq!(refusal.message, "Debug requests are not supported in console mode");

    let mut notebook = Control::new(SessionMode::Notebook, "/tmp/x".to_string());
    assert!(notebook.handle_interrupt_request(false, true).quit_debugger);
    assert!(!notebook.handle_interrupt_request(false, false).quit_debugger);
    assert_eq!(notebook.handle_debug_request().ok().unwrap().next_seq(), 1);
    assert_eq!(notebook.handle_debug_request().ok().unwrap().next_seq(), 2);

    assert_eq!(console.handle_shutdown_request(true, true).status, Status::Fine);
    assert_eq!(console.handle_shutdown_request(false, true).status, Status::Error);
}

#[test]
fn workers_have_their_own_channels() {
    let (tx, rx) = crossbeam::channel::unbounded::<i32>();
    let mut socket = AsyncTaskSocket::new(AsyncChannels { tx, rx });
    assert!(socket.get_worker_channel("a").is_none());
    socket.new_worker_channel("a".to_string(), crossbeam::channel::unbounded::<&str>());
    let (tx, rx) = socket.get_worker_channel("a").unwrap();
    tx.send("result").unwrap();
    assert_eq!(rx.recv().unwrap(), "result");
    socket.main.tx.send(1).unwrap();
    assert_eq!(socket.main.rx.recv().unwrap(), 1);
}
