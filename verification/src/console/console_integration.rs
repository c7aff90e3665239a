//! What the console does for the help pane, the language server and the user
//! interface.
use vstd::prelude::*;

use crate::text;
use crate::text_map::TextMap;

verus! {

/// What the language server is told.
#[derive(Debug, PartialEq, Eq)]
pub enum KernelNotification {
    /// What the console can see changed: its scopes and the packages. Carried as text.
    DidChangeConsoleInputs { inputs: String },
    DidOpenVirtualDocument { uri: String, contents: String },
    DidCloseVirtualDocument { uri: String },
}

/// What the language server is told, in texts.
#[verifier::ext_equal]
pub enum NotificationModel {
    Inputs { inputs: Seq<char> },
    Opened { uri: Seq<char>, contents: Seq<char> },
    Closed { uri: Seq<char> },
}

impl View for KernelNotification {
    type V = NotificationModel;

    open spec fn view(&self) -> NotificationModel {
        match self {
            KernelNotification::DidChangeConsoleInputs { inputs } => NotificationModel::Inputs {
                inputs: inputs@,
            },
            KernelNotification::DidOpenVirtualDocument { uri, contents } =>
                NotificationModel::Opened { uri: uri@, contents: contents@ },
            KernelNotification::DidCloseVirtualDocument { uri } => NotificationModel::Closed {
                uri: uri@,
            },
        }
    }
}

/// A URI without the scheme of virtual documents.
pub open spec fn document_path(uri: Seq<char>) -> Seq<char> {
    if "ark:"@.is_prefix_of(uri) {
        uri.skip("ark:"@.len() as int)
    } else {
        uri
    }
}

/// A URI without the scheme of virtual documents.
pub fn strip_scheme(uri: &str) -> (r: String)
    ensures
        r@ == document_path(uri@),
{
    if text::starts_with(uri, "ark:") {
        let v: Vec<char> = text::chars_of(uri);
        proof {
            reveal_strlit("ark:");
        }
        let r: String = text::string_of_range(&v, 4, v.len());
        assert(r@ =~= uri@.skip(4));
        r
    } else {
        uri.to_owned()
    }
}

/// The virtual documents, and whether the language server listens.
pub struct VirtualDocuments {
    pub documents: TextMap<String>,
    pub lsp_connected: bool,
}

impl VirtualDocuments {
    pub fn new() -> (r: Self)
        ensures
            r.documents@ == Map::<Seq<char>, String>::empty(),
            !r.lsp_connected,
    {
        Self { documents: TextMap::new(), lsp_connected: false }
    }

    /// A notification is dropped where nothing listens.
    fn notify(&self, notification: KernelNotification) -> (r: Option<KernelNotification>)
        ensures
            r == (if self.lsp_connected {
                Some(notification)
            } else {
                None
            }),
    {
        if self.lsp_connected {
            Some(notification)
        } else {
            None
        }
    }

    /// Keeps a document. Returns what the language server is told, if it listens. A
    /// copy is kept for language servers that start later.
    pub fn insert_virtual_document(&mut self, uri: &str, contents: String) -> (r: Option<
        KernelNotification,
    >)
        ensures
            is_inserted(r, *final(self), *old(self), uri@, contents),
    {
        let path: String = strip_scheme(uri);
        let copy: String = contents.clone();
        self.documents.insert(path.clone(), contents);
        self.notify(KernelNotification::DidOpenVirtualDocument { uri: path, contents: copy })
    }

    /// Forgets a document. Returns what the language server is told, if it listens.
    pub fn remove_virtual_document(&mut self, uri: &str) -> (r: Option<KernelNotification>)
        ensures
            is_removed(r, *final(self), *old(self), uri@),
    {
        let path: String = strip_scheme(uri);
        let _removed: Option<String> = self.documents.remove(path.as_str());
        self.notify(KernelNotification::DidCloseVirtualDocument { uri: path })
    }

    pub fn has_virtual_document(&self, uri: &str) -> (r: bool)
        ensures
            r == self.documents@.contains_key(document_path(uri@)),
    {
        let path: String = strip_scheme(uri);
        self.documents.contains_key(path.as_str())
    }

    pub fn get_virtual_document(&self, uri: &str) -> (r: Option<String>)
        ensures
            r == (if self.documents@.contains_key(document_path(uri@)) {
                Some(self.documents@[document_path(uri@)])
            } else {
                None
            }),
    {
        let path: String = strip_scheme(uri);
        match self.documents.get(path.as_str()) {
            Some(contents) => Some(contents.clone()),
            None => None,
        }
    }

    /// What the console can see changed, or may have. Returns what the language server is
    /// told, if it listens. Nothing is told if the inputs cannot be had.
    pub fn refresh_lsp(&self, inputs: Result<String, String>) -> (r: Option<KernelNotification>)
        ensures
            match inputs {
                Ok(text) => if self.lsp_connected {
                    r == Some(KernelNotification::DidChangeConsoleInputs { inputs: text })
                } else {
                    r is None
                },
                Err(_) => r is None,
            },
    {
        match inputs {
            Ok(inputs) => self.notify(KernelNotification::DidChangeConsoleInputs { inputs }),
            Err(_) => None,
        }
    }

    /// Every document that is kept, once, for the language server.
    fn notify_lsp_of_known_virtual_documents(&self) -> (r: Vec<KernelNotification>)
        ensures
            models(r@) == known_documents(self.documents),
    {
        let mut r: Vec<KernelNotification> = Vec::new();
        let n: usize = self.documents.len();
        let mut i: usize = 0;
        while i < n
            invariant
                n == self.documents.listed().len(),
                i <= n,
                r@.len() == i,
                forall|k: int|
                    0 <= k < r@.len() ==> (#[trigger] r@[k])@ == known_documents(self.documents)[k],
            decreases n - i,
        {
            let (uri, contents) = self.documents.entry(i);
            r.push(
                KernelNotification::DidOpenVirtualDocument {
                    uri: uri.clone(),
                    contents: contents.clone(),
                },
            );
            i = i + 1;
        }
        assert(models(r@) =~= known_documents(self.documents));
        r
    }

    /// A language server listens now. Returns what it is told: what the console can see,
    /// if that can be had, and then every document that is kept, once.
    pub fn set_lsp_channel(&mut self, inputs: Result<String, String>) -> (r: Vec<
        KernelNotification,
    >)
        ensures
            final(self).lsp_connected,
            final(self).documents == old(self).documents,
            models(r@) == (match inputs {
                Ok(text) => seq![NotificationModel::Inputs { inputs: text@ }],
                Err(_) => Seq::empty(),
            }) + known_documents(old(self).documents),
    {
        self.lsp_connected = true;
        let mut r: Vec<KernelNotification> = Vec::new();
        let ghost first = if inputs is Ok {
            seq![NotificationModel::Inputs { inputs: inputs->Ok_0@ }]
        } else {
            Seq::empty()
        };
        if let Some(notification) = self.refresh_lsp(inputs) {
            r.push(notification);
        }
        assert(models(r@) =~= first);
        let mut known: Vec<KernelNotification> = self.notify_lsp_of_known_virtual_documents();
        let ghost before = r@;
        let ghost rest = known@;
        r.append(&mut known);
        assert(models(r@) =~= models(before) + models(rest));
        r
    }

    /// A notification was sent, if `sent` says so. A language server that cannot be told
    /// does not listen any more.
    pub fn send_lsp_notification(&mut self, sent: bool)
        ensures
            final(self).lsp_connected == (old(self).lsp_connected && sent),
            final(self).documents == old(self).documents,
    {
        if !sent {
            self.remove_lsp_channel();
        }
    }

    /// The language server does not listen any more.
    pub fn remove_lsp_channel(&mut self)
        ensures
            !final(self).lsp_connected,
            final(self).documents == old(self).documents,
    {
        self.lsp_connected = false;
    }
}

/// What notifications tell.
pub open spec fn models(r: Seq<KernelNotification>) -> Seq<NotificationModel> {
    r.map_values(|n: KernelNotification| n@)
}

/// What tells of every document that is kept.
pub open spec fn known_documents(documents: TextMap<String>) -> Seq<NotificationModel> {
    documents.listed().map_values(
        |d: (String, String)| NotificationModel::Opened { uri: d.0@, contents: d.1@ },
    )
}

/// A document that was inserted is found under its path, with and without the scheme,
/// with its contents. Once removed it is not found.
pub proof fn law_inserted_document_is_found(
    documents: Map<Seq<char>, String>,
    uri: Seq<char>,
    contents: String,
)
    ensures
        ({
            let path = document_path(uri);
            let more = documents.insert(path, contents);
            &&& more.contains_key(path)
            &&& more[path] == contents
            &&& !more.remove(path).contains_key(path)
        }),
        document_path("ark:"@ + uri) == uri,
{
    assert(("ark:"@ + uri).skip("ark:"@.len() as int) =~= uri);
    assert("ark:"@.is_prefix_of("ark:"@ + uri));
}

/// What calling a method of the frontend comes to.
#[derive(Debug)]
pub enum FrontendReply {
    /// A result that is of the form that the method promises.
    Result(String),
    /// A result that is not, and why.
    Unreadable(String),
    /// The frontend refused, with a message.
    Error(String),
    /// R was interrupted meanwhile.
    Interrupt,
}

/// Why a method of the frontend cannot be called, in words. The request is described
/// by a text.
pub open spec fn call_fault(
    ui_connected: bool,
    has_active_request: bool,
    request: Seq<char>,
) -> Option<Seq<char>> {
    if !ui_connected {
        Some("UI comm is not connected. Can't execute request "@ + request)
    } else if !has_active_request {
        Some("No active request. Can't execute request "@ + request)
    } else {
        None
    }
}

/// Whether a method of the frontend can be called, or why not.
pub fn call_frontend_method(ui_connected: bool, has_active_request: bool, request: &str) -> (r:
    Result<(), String>)
    ensures
        match call_fault(ui_connected, has_active_request, request@) {
            Some(message) => r matches Err(m) && m@ == message,
            None => r is Ok,
        },
{
    if !ui_connected {
        return Err(text::join2("UI comm is not connected. Can't execute request ", request));
    }
    if !has_active_request {
        return Err(text::join2("No active request. Can't execute request ", request));
    }
    Ok(())
}

/// What R is given of the frontend's reply: a result, nothing if R was interrupted, or
/// an error.
pub fn frontend_result(request: &str, reply: FrontendReply) -> (r: Result<Option<String>, String>)
    ensures
        is_result(r, request@, reply),
{
    match reply {
        FrontendReply::Result(json) => Ok(Some(json)),
        FrontendReply::Interrupt => Ok(None),
        FrontendReply::Unreadable(why) => {
            let mut m: String = "Can't deserialize RPC reply for ".to_owned();
            m.append(request);
            m.append(":\n");
            m.append(why.as_str());
            Err(m)
        },
        FrontendReply::Error(message) => Err(
            text::join2("While calling frontend method:\n", message.as_str()),
        ),
    }
}

/// What became of sending an event to the help pane.
#[derive(Debug)]
pub enum HelpSend {
    /// There is no channel to it.
    NoChannel,
    Failed(String),
    Sent,
}

/// Whether an event, which is described by a text, reached the help pane, or why not.
pub fn send_help_event(event: &str, sent: &HelpSend) -> (r: Result<(), String>)
    ensures
        is_sent(r, event@, *sent),
{
    match sent {
        HelpSend::Sent => Ok(()),
        HelpSend::NoChannel => Err(
            text::join3(
                "No help channel available to handle help event. Is the help comm open? Event ",
                event,
                ".",
            ),
        ),
        HelpSend::Failed(why) => Err(text::join2("Failed to send help message: ", why.as_str())),
    }
}

/// What a call of the frontend comes to.
pub open spec fn is_result(
    r: Result<Option<String>, String>,
    request: Seq<char>,
    reply: FrontendReply,
) -> bool {
    match reply {
        FrontendReply::Result(json) => r == Ok::<Option<String>, String>(Some(json)),
        FrontendReply::Interrupt => r == Ok::<Option<String>, String>(None),
        FrontendReply::Unreadable(why) => r matches Err(m) && m@
            == "Can't deserialize RPC reply for "@ + request + ":\n"@ + why@,
        FrontendReply::Error(message) => r matches Err(m) && m@
            == "While calling frontend method:\n"@ + message@,
    }
}

/// What sending an event to the help pane comes to.
pub open spec fn is_sent(r: Result<(), String>, event: Seq<char>, sent: HelpSend) -> bool {
    match sent {
        HelpSend::Sent => r is Ok,
        HelpSend::NoChannel => r matches Err(m) && m@
            == "No help channel available to handle help event. Is the help comm open? Event "@
            + event + "."@,
        HelpSend::Failed(why) => r matches Err(m) && m@ == "Failed to send help message: "@ + why@,
    }
}

/// The result of a call of the frontend is handed on, and an interrupted call has none.
/// Why a call fails is told.
pub proof fn law_results_of_the_frontend(
    r: Result<Option<String>, String>,
    request: Seq<char>,
    text: String,
)
    ensures
        is_result(r, request, FrontendReply::Result(text)) ==> r == Ok::<Option<String>, String>(
            Some(text),
        ),
        is_result(r, request, FrontendReply::Interrupt) ==> r == Ok::<Option<String>, String>(
            None,
        ),
        is_result(r, request, FrontendReply::Unreadable(text)) ==> (r matches Err(m) && m@
            == "Can't deserialize RPC reply for "@ + request + ":\n"@ + text@),
        is_result(r, request, FrontendReply::Error(text)) ==> (r matches Err(m) && m@
            == "While calling frontend method:\n"@ + text@),
{
}

/// The frontend can be called only while the user interface is connected and a request is
/// active.
pub proof fn law_when_the_frontend_can_be_called(connected: bool, active: bool, request: Seq<char>)
    ensures
        call_fault(connected, active, request) is None <==> connected && active,
        !connected ==> call_fault(connected, active, request) == Some(
            "UI comm is not connected. Can't execute request "@ + request,
        ),
        connected && !active ==> call_fault(connected, active, request) == Some(
            "No active request. Can't execute request "@ + request,
        ),
{
}

/// An event that cannot be sent to the help pane is told.
pub proof fn law_events_of_the_help_pane(r: Result<(), String>, event: Seq<char>, why: String)
    ensures
        is_sent(r, event, HelpSend::Sent) ==> r is Ok,
        is_sent(r, event, HelpSend::NoChannel) ==> (r matches Err(m) && m@
            == "No help channel available to handle help event. Is the help comm open? Event "@
            + event + "."@),
        is_sent(r, event, HelpSend::Failed(why)) ==> (r matches Err(m) && m@
            == "Failed to send help message: "@ + why@),
{
}

/// A language server that connects learns of every document that is known, with its
/// contents.
pub proof fn law_documents_are_told(documents: TextMap<String>, i: int)
    requires
        0 <= i < documents.listed().len(),
    ensures
        known_documents(documents).len() == documents.listed().len(),
        known_documents(documents)[i] == (NotificationModel::Opened {
            uri: documents.listed()[i].0@,
            contents: documents.listed()[i].1@,
        }),
{
}

/// Only the scheme of the kernel is taken off.
pub proof fn law_paths_of_documents(uri: Seq<char>)
    ensures
        document_path("ark:"@ + uri) == uri,
        !"ark:"@.is_prefix_of(uri) ==> document_path(uri) == uri,
{
    assert(("ark:"@ + uri).skip("ark:"@.len() as int) =~= uri);
    assert("ark:"@.is_prefix_of("ark:"@ + uri));
}

/// A document is known, and the language server is told if it is connected.
pub open spec fn is_inserted(
    r: Option<KernelNotification>,
    new: VirtualDocuments,
    old: VirtualDocuments,
    uri: Seq<char>,
    contents: String,
) -> bool {
    &&& new.lsp_connected == old.lsp_connected
    &&& new.documents@ == old.documents@.insert(document_path(uri), contents)
    &&& if old.lsp_connected {
        r is Some && r->0@ == (NotificationModel::Opened {
            uri: document_path(uri),
            contents: contents@,
        })
    } else {
        r is None
    }
}

/// A document is not known any more, and the language server is told if it is connected.
pub open spec fn is_removed(
    r: Option<KernelNotification>,
    new: VirtualDocuments,
    old: VirtualDocuments,
    uri: Seq<char>,
) -> bool {
    &&& new.lsp_connected == old.lsp_connected
    &&& new.documents@ == old.documents@.remove(document_path(uri))
    &&& if old.lsp_connected {
        r is Some && r->0@ == (NotificationModel::Closed { uri: document_path(uri) })
    } else {
        r is None
    }
}

/// A document that is inserted is known by its path, with or without the scheme, until it is
/// removed. A language server that is connected is told of both.
pub proof fn law_documents_come_and_go(
    r: Option<KernelNotification>,
    new: VirtualDocuments,
    old: VirtualDocuments,
    path: Seq<char>,
    contents: String,
    other: Seq<char>,
)
    requires
        !"ark:"@.is_prefix_of(path),
        other != path,
    ensures
        is_inserted(r, new, old, path, contents) || is_inserted(
            r,
            new,
            old,
            "ark:"@ + path,
            contents,
        ) ==> {
            &&& new.documents@.contains_key(path) && new.documents@[path] == contents
            &&& new.documents@.contains_key(other) <==> old.documents@.contains_key(other)
            &&& new.lsp_connected == old.lsp_connected
            &&& r is Some <==> old.lsp_connected
            &&& r is Some ==> r->0@ == (NotificationModel::Opened {
                uri: path,
                contents: contents@,
            })
        },
        is_removed(r, new, old, path) || is_removed(r, new, old, "ark:"@ + path) ==> {
            &&& !new.documents@.contains_key(path)
            &&& new.documents@.contains_key(other) <==> old.documents@.contains_key(other)
            &&& new.lsp_connected == old.lsp_connected
            &&& r is Some <==> old.lsp_connected
            &&& r is Some ==> r->0@ == (NotificationModel::Closed { uri: path })
        },
{
    law_paths_of_documents(path);
}

} // verus!
