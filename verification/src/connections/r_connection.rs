//! Connections to databases that R holds.
//!
//! R does what is asked of a connection. What R is asked, and what is made of its
//! answers, is decided here.
use vstd::prelude::*;


verus! {

/// What the frontend is told of a connection.
#[derive(Debug, PartialEq, Eq)]
pub struct Metadata {
    pub name: String,
    pub language_id: String,
    pub host: Option<String>,
    pub kind: Option<String>,
    pub code: Option<String>,
}

/// A step on the path to an object of a database: a schema, a table, and so on.
#[derive(Debug, PartialEq, Eq)]
pub struct ObjectSchema {
    pub name: String,
    pub kind: String,
}

/// A field of a table.
#[derive(Debug, PartialEq, Eq)]
pub struct FieldSchema {
    pub name: String,
    pub dtype: String,
}

#[derive(Debug, PartialEq, Eq)]
pub enum ConnectionsBackendRequest {
    ListObjects(Vec<ObjectSchema>),
    ListFields(Vec<ObjectSchema>),
    ContainsData(Vec<ObjectSchema>),
    GetIcon(Vec<ObjectSchema>),
    PreviewObject(Vec<ObjectSchema>),
}

#[derive(Debug, PartialEq, Eq)]
pub enum ConnectionsBackendReply {
    ListObjectsReply(Vec<ObjectSchema>),
    ListFieldsReply(Vec<FieldSchema>),
    ContainsDataReply(bool),
    GetIconReply(String),
    PreviewObjectReply,
}

/// A function of R to call: with the id of the connection, and with the path as named
/// arguments.
#[derive(Debug)]
pub struct RCall {
    pub function: &'static str,
    pub comm_id: String,
    pub path: Vec<ObjectSchema>,
}

/// What R answers a request with.
#[derive(Debug)]
pub enum RAnswer {
    /// The call, or reading its result, failed.
    Failed(String),
    /// Names and types, which are columns of a table.
    Table { names: Vec<String>, types: Vec<String> },
    /// A text, or nothing.
    Text(Option<String>),
    Logical(bool),
    /// Something that is not looked at.
    Ignored,
}

/// The function that R calls for a request.
pub open spec fn function_name(request: ConnectionsBackendRequest) -> Seq<char> {
    match request {
        ConnectionsBackendRequest::ListObjects(_) => ".ps.connection_list_objects"@,
        ConnectionsBackendRequest::ListFields(_) => ".ps.connection_list_fields"@,
        ConnectionsBackendRequest::ContainsData(_) => ".ps.connection_contains_data"@,
        ConnectionsBackendRequest::GetIcon(_) => ".ps.connection_icon"@,
        ConnectionsBackendRequest::PreviewObject(_) => ".ps.connection_preview_object"@,
    }
}

/// The path to the object that a request speaks of.
pub open spec fn request_path(request: ConnectionsBackendRequest) -> Vec<ObjectSchema> {
    match request {
        ConnectionsBackendRequest::ListObjects(path) => path,
        ConnectionsBackendRequest::ListFields(path) => path,
        ConnectionsBackendRequest::ContainsData(path) => path,
        ConnectionsBackendRequest::GetIcon(path) => path,
        ConnectionsBackendRequest::PreviewObject(path) => path,
    }
}

/// What a request asks for.
#[derive(Clone, Copy, Debug, PartialEq, Eq, Structural)]
pub enum RequestKind {
    ListObjects,
    ListFields,
    ContainsData,
    GetIcon,
    PreviewObject,
}

pub open spec fn kind_of(request: ConnectionsBackendRequest) -> RequestKind {
    match request {
        ConnectionsBackendRequest::ListObjects(_) => RequestKind::ListObjects,
        ConnectionsBackendRequest::ListFields(_) => RequestKind::ListFields,
        ConnectionsBackendRequest::ContainsData(_) => RequestKind::ContainsData,
        ConnectionsBackendRequest::GetIcon(_) => RequestKind::GetIcon,
        ConnectionsBackendRequest::PreviewObject(_) => RequestKind::PreviewObject,
    }
}

/// R answers a request in the form that it asks for, unless R failed.
pub open spec fn answer_ok(kind: RequestKind, answer: RAnswer) -> bool {
    match answer {
        RAnswer::Failed(_) => true,
        RAnswer::Table { .. } => kind == RequestKind::ListObjects || kind
            == RequestKind::ListFields,
        RAnswer::Text(_) => kind == RequestKind::GetIcon,
        RAnswer::Logical(_) => kind == RequestKind::ContainsData,
        RAnswer::Ignored => kind == RequestKind::PreviewObject,
    }
}

/// The length of the shorter of two.
pub open spec fn shorter(a: nat, b: nat) -> nat {
    if a <= b {
        a
    } else {
        b
    }
}

/// The reply that R's answer makes. Where names and types are not equally many, those
/// without a partner are left out. An icon that is nothing is an empty text.
pub open spec fn is_reply(
    r: Result<ConnectionsBackendReply, String>,
    kind: RequestKind,
    answer: RAnswer,
) -> bool {
    match answer {
        RAnswer::Failed(why) => r == Err::<ConnectionsBackendReply, String>(why),
        RAnswer::Table { names, types } => if kind == RequestKind::ListObjects {
            &&& r matches Ok(ConnectionsBackendReply::ListObjectsReply(objects))
            &&& objects@.len() == shorter(names@.len(), types@.len())
            &&& forall|i: int|
                0 <= i < objects@.len() ==> (#[trigger] objects@[i]) == (ObjectSchema {
                    name: names@[i],
                    kind: types@[i],
                })
        } else {
            &&& r matches Ok(ConnectionsBackendReply::ListFieldsReply(fields))
            &&& fields@.len() == shorter(names@.len(), types@.len())
            &&& forall|i: int|
                0 <= i < fields@.len() ==> (#[trigger] fields@[i]) == (FieldSchema {
                    name: names@[i],
                    dtype: types@[i],
                })
        },
        RAnswer::Text(icon) => r matches Ok(ConnectionsBackendReply::GetIconReply(path)) && path@
            == match icon {
            Some(t) => t@,
            None => Seq::empty(),
        },
        RAnswer::Logical(b) => r == Ok::<ConnectionsBackendReply, String>(
            ConnectionsBackendReply::ContainsDataReply(b),
        ),
        RAnswer::Ignored => r == Ok::<ConnectionsBackendReply, String>(
            ConnectionsBackendReply::PreviewObjectReply,
        ),
    }
}

/// What comes in on the comm of a connection.
#[derive(Clone, Copy, Debug, PartialEq, Eq, Structural)]
pub enum Incoming {
    /// Nothing more: receiving failed.
    Disconnected,
    Close,
    Data,
    Request,
}

/// What is done about it.
#[derive(Clone, Copy, Debug, PartialEq, Eq, Structural)]
pub enum Outcome {
    /// The comm ends, and the frontend is told that it is closed.
    Finish,
    /// R is asked to disconnect.
    Disconnect,
    /// The message is sent on to the frontend.
    Forward,
    /// R is asked what the request asks for.
    Answer,
}

/// A connection.
#[derive(Debug)]
pub struct RConnection {
    pub metadata: Metadata,
    pub comm_id: String,
}

impl RConnection {
    /// A connection with an id, which is returned.
    pub fn start(metadata: Metadata, comm_id: String) -> (r: Self)
        ensures
            r.metadata == metadata,
            r.comm_id == comm_id,
    {
        Self { metadata, comm_id }
    }

    /// What R is asked for a request.
    pub fn handle_rpc(&self, request: ConnectionsBackendRequest) -> (r: (RequestKind, RCall))
        ensures
            is_call(r.0, r.1, request, self.comm_id@),
    {
        let comm_id: String = self.comm_id.clone();
        match request {
            ConnectionsBackendRequest::ListObjects(path) => (
                RequestKind::ListObjects,
                RCall { function: ".ps.connection_list_objects", comm_id, path },
            ),
            ConnectionsBackendRequest::ListFields(path) => (
                RequestKind::ListFields,
                RCall { function: ".ps.connection_list_fields", comm_id, path },
            ),
            ConnectionsBackendRequest::ContainsData(path) => (
                RequestKind::ContainsData,
                RCall { function: ".ps.connection_contains_data", comm_id, path },
            ),
            ConnectionsBackendRequest::GetIcon(path) => (
                RequestKind::GetIcon,
                RCall { function: ".ps.connection_icon", comm_id, path },
            ),
            ConnectionsBackendRequest::PreviewObject(path) => (
                RequestKind::PreviewObject,
                RCall { function: ".ps.connection_preview_object", comm_id, path },
            ),
        }
    }

    /// What R is asked to close the connection.
    pub fn disconnect(&self) -> (r: RCall)
        ensures
            r.function@ == ".ps.connection_close"@,
            r.comm_id@ == self.comm_id@,
            r.path@.len() == 0,
    {
        RCall {
            function: ".ps.connection_close",
            comm_id: self.comm_id.clone(),
            path: Vec::new(),
        }
    }
}

/// The reply that R's answer makes.
pub fn reply_of(kind: RequestKind, answer: RAnswer) -> (r: Result<ConnectionsBackendReply, String>)
    requires
        answer_ok(kind, answer),
    ensures
        is_reply(r, kind, answer),
{
    match answer {
        RAnswer::Failed(why) => Err(why),
        RAnswer::Table { names, types } => {
            let n: usize = if names.len() <= types.len() {
                names.len()
            } else {
                types.len()
            };
            let mut i: usize = 0;
            if kind == RequestKind::ListObjects {
                let mut objects: Vec<ObjectSchema> = Vec::new();
                while i < n
                    invariant
                        n <= names@.len(),
                        n <= types@.len(),
                        i <= n,
                        objects@.len() == i,
                        forall|k: int|
                            0 <= k < i ==> (#[trigger] objects@[k]) == (ObjectSchema {
                                name: names@[k],
                                kind: types@[k],
                            }),
                    decreases n - i,
                {
                    objects.push(ObjectSchema { name: names[i].clone(), kind: types[i].clone() });
                    i = i + 1;
                }
                return Ok(ConnectionsBackendReply::ListObjectsReply(objects));
            }
            let mut fields: Vec<FieldSchema> = Vec::new();
            while i < n
                invariant
                    n <= names@.len(),
                    n <= types@.len(),
                    i <= n,
                    fields@.len() == i,
                    forall|k: int|
                        0 <= k < i ==> (#[trigger] fields@[k]) == (FieldSchema {
                            name: names@[k],
                            dtype: types@[k],
                        }),
                decreases n - i,
            {
                fields.push(FieldSchema { name: names[i].clone(), dtype: types[i].clone() });
                i = i + 1;
            }
            Ok(ConnectionsBackendReply::ListFieldsReply(fields))
        },
        RAnswer::Text(icon) => Ok(
            ConnectionsBackendReply::GetIconReply(
                match icon {
                    Some(t) => t,
                    None => String::new(),
                },
            ),
        ),
        RAnswer::Logical(b) => Ok(ConnectionsBackendReply::ContainsDataReply(b)),
        RAnswer::Ignored => Ok(ConnectionsBackendReply::PreviewObjectReply),
    }
}

/// What is done about what comes in: data is sent on, and a request is answered. When
/// the frontend closes the comm, R disconnects first.
pub fn handle_messages(incoming: Incoming) -> (r: Outcome)
    ensures
        r == outcome_of(incoming),
{
    match incoming {
        Incoming::Disconnected => Outcome::Finish,
        Incoming::Close => Outcome::Disconnect,
        Incoming::Data => Outcome::Forward,
        Incoming::Request => Outcome::Answer,
    }
}

/// How many times the frontend is told that the comm is closed, after R was asked to
/// disconnect: once more if R did not. None if asking failed, which ends the comm
/// without a word.
pub fn after_disconnect(disconnected: &Result<bool, String>) -> (r: Option<usize>)
    ensures
        r == after(*disconnected),
{
    match disconnected {
        Ok(true) => Some(1),
        Ok(false) => Some(2),
        Err(_) => None,
    }
}

/// Whether a connection that R opened is shown. While testing it is not.
#[derive(Debug, PartialEq, Eq)]
pub enum Opened {
    NotShown,
    Show(Metadata),
    /// The name is no text.
    Failed(String),
}

/// What is done about a connection that R opened. Where the host, the type or the code
/// could not be read, they are left out.
pub fn ps_connection_opened(
    testing: bool,
    name: Result<String, String>,
    host: Result<Option<String>, String>,
    kind: Result<Option<String>, String>,
    code: Result<Option<String>, String>,
) -> (r: Opened)
    ensures
        is_opened(r, testing, name, host, kind, code),
{
    if testing {
        return Opened::NotShown;
    }
    match name {
        Err(why) => Opened::Failed(why),
        Ok(name) => Opened::Show(
            Metadata {
                name,
                language_id: "r".to_owned(),
                host: read(host),
                kind: read(kind),
                code: read(code),
            },
        ),
    }
}

/// What could be read, if anything.
pub open spec fn readable(x: Result<Option<String>, String>) -> Option<String> {
    match x {
        Ok(t) => t,
        Err(_) => None,
    }
}

fn read(x: Result<Option<String>, String>) -> (r: Option<String>)
    ensures
        r == readable(x),
{
    match x {
        Ok(t) => t,
        Err(_) => None,
    }
}

/// What is sent on the comm of a connection on R's behalf.
#[derive(Clone, Copy, Debug, PartialEq, Eq, Structural)]
pub enum ConnectionMessage {
    Close,
    /// The connection changed, and the frontend is to ask again.
    Update,
}

/// R closed a connection: what is sent on which comm.
pub fn ps_connection_closed(id: String) -> (r: (String, ConnectionMessage))
    ensures
        r.0 == id,
        r.1 == ConnectionMessage::Close,
{
    (id, ConnectionMessage::Close)
}

/// R changed a connection: what is sent on which comm.
pub fn ps_connection_updated(id: String) -> (r: (String, ConnectionMessage))
    ensures
        r.0 == id,
        r.1 == ConnectionMessage::Update,
{
    (id, ConnectionMessage::Update)
}

/// The function of R that is called for a request, with the connection and the path.
pub open spec fn is_call(
    kind: RequestKind,
    call: RCall,
    request: ConnectionsBackendRequest,
    comm_id: Seq<char>,
) -> bool {
    &&& kind == kind_of(request)
    &&& call.function@ == function_name(request)
    &&& call.comm_id@ == comm_id
    &&& call.path == request_path(request)
}

/// What comes of a message.
pub open spec fn outcome_of(incoming: Incoming) -> Outcome {
    match incoming {
        Incoming::Disconnected => Outcome::Finish,
        Incoming::Close => Outcome::Disconnect,
        Incoming::Data => Outcome::Forward,
        Incoming::Request => Outcome::Answer,
    }
}

/// How many messages are to be sent once R has closed a connection.
pub open spec fn after(disconnected: Result<bool, String>) -> Option<usize> {
    match disconnected {
        Ok(true) => Some(1usize),
        Ok(false) => Some(2usize),
        Err(_) => None,
    }
}

/// What is shown of a connection that was opened.
pub open spec fn is_opened(
    r: Opened,
    testing: bool,
    name: Result<String, String>,
    host: Result<Option<String>, String>,
    kind: Result<Option<String>, String>,
    code: Result<Option<String>, String>,
) -> bool {
    if testing {
        r is NotShown
    } else {
        match name {
            Err(why) => r == Opened::Failed(why),
            Ok(name) => {
                &&& r matches Opened::Show(m)
                &&& m.name == name
                &&& m.language_id@ == "r"@
                &&& m.host == readable(host)
                &&& m.kind == readable(kind)
                &&& m.code == readable(code)
            },
        }
    }
}

/// Every request calls a function of its own, for the connection and the path that it is
/// about.
pub proof fn law_requests_call_r(
    kind: RequestKind,
    call: RCall,
    path: Vec<ObjectSchema>,
    comm_id: Seq<char>,
)
    ensures
        is_call(kind, call, ConnectionsBackendRequest::ListObjects(path), comm_id) ==> kind
            == RequestKind::ListObjects && call.function@ == ".ps.connection_list_objects"@
            && call.path == path && call.comm_id@ == comm_id,
        is_call(kind, call, ConnectionsBackendRequest::ListFields(path), comm_id) ==> kind
            == RequestKind::ListFields && call.function@ == ".ps.connection_list_fields"@
            && call.path == path && call.comm_id@ == comm_id,
        is_call(kind, call, ConnectionsBackendRequest::ContainsData(path), comm_id) ==> kind
            == RequestKind::ContainsData && call.function@ == ".ps.connection_contains_data"@
            && call.path == path && call.comm_id@ == comm_id,
        is_call(kind, call, ConnectionsBackendRequest::GetIcon(path), comm_id) ==> kind
            == RequestKind::GetIcon && call.function@ == ".ps.connection_icon"@ && call.path == path
            && call.comm_id@ == comm_id,
        is_call(kind, call, ConnectionsBackendRequest::PreviewObject(path), comm_id) ==> kind
            == RequestKind::PreviewObject && call.function@ == ".ps.connection_preview_object"@
            && call.path == path && call.comm_id@ == comm_id,
{
}

/// The objects and fields that R lists are told in its order, each with its type. As many
/// are told as have both a name and a type.
pub proof fn law_lists_are_told(
    r: Result<ConnectionsBackendReply, String>,
    names: Vec<String>,
    types: Vec<String>,
    i: int,
)
    requires
        0 <= i < names@.len(),
        i < types@.len(),
    ensures
        is_reply(r, RequestKind::ListObjects, RAnswer::Table { names, types }) ==> (r matches Ok(
            ConnectionsBackendReply::ListObjectsReply(objects),
        ) && objects@.len() <= names@.len() && objects@.len() <= types@.len() && i < objects@.len()
            && objects@[i].name == names@[i] && objects@[i].kind == types@[i]),
        is_reply(r, RequestKind::ListFields, RAnswer::Table { names, types }) ==> (r matches Ok(
            ConnectionsBackendReply::ListFieldsReply(fields),
        ) && fields@.len() <= names@.len() && fields@.len() <= types@.len() && i < fields@.len()
            && fields@[i].name == names@[i] && fields@[i].dtype == types@[i]),
{
}

/// R's other answers are told as they are. A connection without an icon has an empty
/// path for it.
pub proof fn law_answers_are_told(
    r: Result<ConnectionsBackendReply, String>,
    kind: RequestKind,
    text: String,
    b: bool,
)
    ensures
        is_reply(r, kind, RAnswer::Failed(text)) ==> r == Err::<ConnectionsBackendReply, String>(
            text,
        ),
        is_reply(r, RequestKind::GetIcon, RAnswer::Text(Some(text))) ==> (r matches Ok(
            ConnectionsBackendReply::GetIconReply(path),
        ) && path@ == text@),
        is_reply(r, RequestKind::GetIcon, RAnswer::Text(None)) ==> (r matches Ok(
            ConnectionsBackendReply::GetIconReply(path),
        ) && path@.len() == 0),
        is_reply(r, RequestKind::ContainsData, RAnswer::Logical(b)) ==> r == Ok::<
            ConnectionsBackendReply,
            String,
        >(ConnectionsBackendReply::ContainsDataReply(b)),
        is_reply(r, RequestKind::PreviewObject, RAnswer::Ignored) ==> r == Ok::<
            ConnectionsBackendReply,
            String,
        >(ConnectionsBackendReply::PreviewObjectReply),
{
}

/// A connection is shown under its name, as one of R. What else is known is shown where R
/// could tell it. None is shown in tests, nor without a name.
pub proof fn law_connections_are_shown(
    r: Opened,
    name: String,
    host: Option<String>,
    kind: Option<String>,
    code: Option<String>,
    why: String,
)
    ensures
        is_opened(r, false, Ok(name), Ok(host), Ok(kind), Ok(code)) ==> (r matches Opened::Show(m)
            && m.name == name && m.language_id@ == "r"@ && m.host == host && m.kind == kind
            && m.code == code),
        is_opened(r, false, Ok(name), Err(why), Err(why), Err(why)) ==> (r matches Opened::Show(m)
            && m.name == name && m.host is None && m.kind is None && m.code is None),
        is_opened(r, false, Err(why), Ok(host), Ok(kind), Ok(code)) ==> r == Opened::Failed(why),
        is_opened(r, true, Ok(name), Ok(host), Ok(kind), Ok(code)) ==> r is NotShown,
{
}

/// A closed comm closes the connection, data is forwarded, requests are answered, and a
/// channel that is gone ends it all.
pub proof fn law_messages_of_connections(why: String)
    ensures
        outcome_of(Incoming::Disconnected) == Outcome::Finish,
        outcome_of(Incoming::Close) == Outcome::Disconnect,
        outcome_of(Incoming::Data) == Outcome::Forward,
        outcome_of(Incoming::Request) == Outcome::Answer,
        after(Ok(true)) == Some(1usize),
        after(Ok(false)) == Some(2usize),
        after(Err(why)) is None,
{
}

} // verus!
