//! A session with the language server: the few requests and notifications
//! that the graph needs, as the bytes to write, and the reading of the
//! answers.
//!
//! The session writes and reads nothing itself. Each request method hands out
//! the number of the request and its frame; the caller writes the frame, reads
//! frames, and hands their bodies to [`LspClient::receive`] until the answer
//! to that number is delivered, or gives up with [`LspClient::expire`].
//!
//! A session begins with the handshake: the opening request, its answer, and
//! the notification that follows it. Only then may the server be asked about
//! symbols and calls. Shutting down is possible at any time.

use crate::factory::{empty_params, initialize_params, MessageCreator, ProtocolError};
use crate::framed::{framed_text, routed, BrokerError, Delivery, DeliveryView, FramedBox};
use crate::json::{
    file_url, hierarchy_items_from_json, hierarchy_items_in, outgoing_calls_from_json,
    outgoing_calls_in, symbol_records_from_json, symbol_records_in, url_valid,
};
use crate::quoting::{json_quote, json_quoted};
use crate::message::{
    body_message, notification_text, protocol_version, request_text, Message, MessageView,
    NotificationView, ParseError, RequestView,
};
use crate::symbols::{
    node_views, symbol_views, symbols_from_records, symbols_of_records, CallHierarchyNode,
    HierarchyNodeView, SymbolKind, SymbolRef, SymbolView,
};
use crate::text::{decimal, has_at, push_decimal};
use vstd::prelude::*;

verus! {

/// How far the handshake has come.
#[derive(Clone, Copy, Debug, PartialEq, Eq, Structural)]
pub enum Handshake {
    /// The opening request has not been sent, or was given up.
    NotStarted,
    /// The opening request `id` waits for its answer.
    Asked { id: i32 },
    /// The opening request is answered; the notification is due.
    Answered,
    /// The handshake is complete.
    Done,
}

/// The handshake after a message was routed: the answer to the opening
/// request is what the handshake waits for.
pub open spec fn after_delivery(h: Handshake, d: DeliveryView) -> Handshake {
    match d {
        DeliveryView::Completed { id, .. } => if h == (Handshake::Asked { id }) {
            Handshake::Answered
        } else {
            h
        },
        _ => h,
    }
}

/// The handshake after the request `id` was given up: an opening request
/// that is given up has to be sent again.
pub open spec fn after_expiry(h: Handshake, id: i32) -> Handshake {
    if h == (Handshake::Asked { id }) {
        Handshake::NotStarted
    } else {
        h
    }
}

/// The state of a session, as mathematics.
#[verifier::ext_equal]
pub struct SessionView {
    /// The root of the workspace, a URL.
    pub workspace: Seq<char>,
    /// How far the handshake has come.
    pub handshake: Handshake,
    /// The number of the last request.
    pub last_id: int,
    /// The numbers of the requests that wait for their answers.
    pub pending: Set<i32>,
}

/// The parameters of a symbol search.
pub open spec fn query_params(query: Seq<char>) -> Seq<char> {
    "{\"query\":"@ + json_quoted(query) + "}"@
}

/// The parameters that name a position in a document.
pub open spec fn position_params(uri: Seq<char>, line: u32, column: u32) -> Seq<char> {
    "{\"textDocument\":{\"uri\":"@ + json_quoted(uri) + "},\"position\":{\"line\":"@ + decimal(
        line as nat,
    ) + ",\"character\":"@ + decimal(column as nat) + "}}"@
}

/// The parameters that hand a call-hierarchy item back to the server.
pub open spec fn item_params(payload: Seq<char>) -> Seq<char> {
    "{\"item\":"@ + payload + "}"@
}

/// The session after one more request, the number of that request, and the
/// bytes that carry it.
pub open spec fn requested(s: SessionView, method: Seq<char>, params: Seq<char>) -> (
    SessionView,
    i32,
    Seq<u8>,
) {
    let id = (s.last_id + 1) as i32;
    (
        SessionView { last_id: s.last_id + 1, pending: s.pending.insert(id), ..s },
        id,
        framed_text(
            request_text(RequestView { jsonrpc: protocol_version(), id, method, params }),
        ),
    )
}

/// The bytes that carry a notification.
pub open spec fn notified(method: Seq<char>, params: Seq<char>) -> Seq<u8> {
    framed_text(
        notification_text(NotificationView { jsonrpc: protocol_version(), method, params }),
    )
}

/// The result that a message carries: that of a response with a result that
/// is not `null`.
pub open spec fn result_text(m: MessageView) -> Option<Seq<char>> {
    match m {
        MessageView::Response { result, .. } => result,
        _ => None,
    }
}

/// The symbols that the answer to a symbol search holds, each kind read off
/// its number; none where the answer is an error or has no readable result.
pub open spec fn symbols_answer(m: MessageView) -> Seq<SymbolView> {
    match result_text(m) {
        Some(t) => match symbol_records_in(t) {
            Some(records) => symbols_of_records(records),
            None => Seq::empty(),
        },
        None => Seq::empty(),
    }
}

/// The roots that the answer to a call-hierarchy preparation holds; none
/// where the answer is an error or has no readable result.
pub open spec fn roots_answer(m: MessageView) -> Seq<HierarchyNodeView> {
    match result_text(m) {
        Some(t) => match hierarchy_items_in(t) {
            Some(s) => s,
            None => Seq::empty(),
        },
        None => Seq::empty(),
    }
}

/// The callees that the answer to an outgoing-calls request holds; none
/// where the answer is an error or has no readable result.
pub open spec fn callees_answer(m: MessageView) -> Seq<HierarchyNodeView> {
    match result_text(m) {
        Some(t) => match outgoing_calls_in(t) {
            Some(s) => s,
            None => Seq::empty(),
        },
        None => Seq::empty(),
    }
}

fn result_of(message: &Message) -> (r: Option<&String>)
    ensures
        match r {
            Some(t) => result_text(message@) == Some(t@),
            None => result_text(message@) is None,
        },
{
    match message {
        Message::Response(response) => match &response.result {
            Some(t) => Some(t),
            None => None,
        },
        _ => None,
    }
}

/// Reads the answer to a symbol search.
pub fn symbols_of(message: &Message) -> (r: Vec<SymbolRef>)
    ensures
        symbol_views(r@) == symbols_answer(message@),
{
    let found = match result_of(message) {
        Some(t) => symbol_records_from_json(t.as_str()),
        None => None,
    };
    match found {
        Some(records) => symbols_from_records(records),
        None => {
            let v: Vec<SymbolRef> = Vec::new();
            assert(symbol_views(v@) =~= Seq::<SymbolView>::empty());
            v
        },
    }
}

/// Reads the answer to a call-hierarchy preparation.
pub fn roots_of(message: &Message) -> (r: Vec<CallHierarchyNode>)
    ensures
        node_views(r@) == roots_answer(message@),
{
    let found = match result_of(message) {
        Some(t) => hierarchy_items_from_json(t.as_str()),
        None => None,
    };
    match found {
        Some(v) => v,
        None => {
            let v: Vec<CallHierarchyNode> = Vec::new();
            assert(node_views(v@) =~= Seq::<HierarchyNodeView>::empty());
            v
        },
    }
}

/// Reads the answer to an outgoing-calls request.
pub fn callees_of(message: &Message) -> (r: Vec<CallHierarchyNode>)
    ensures
        node_views(r@) == callees_answer(message@),
{
    let found = match result_of(message) {
        Some(t) => outgoing_calls_from_json(t.as_str()),
        None => None,
    };
    match found {
        Some(v) => v,
        None => {
            let v: Vec<CallHierarchyNode> = Vec::new();
            assert(node_views(v@) =~= Seq::<HierarchyNodeView>::empty());
            v
        },
    }
}

/// The line that lists a symbol: functions and structs are listed by name,
/// nothing else is.
pub open spec fn listing_line(s: SymbolView) -> Option<Seq<char>> {
    if s.kind == Some(SymbolKind::Function) {
        Some("Function: "@ + s.name)
    } else if s.kind == Some(SymbolKind::Struct) {
        Some("Struct: "@ + s.name)
    } else {
        None
    }
}

/// The lines that list the first `upto` symbols.
pub open spec fn listing(symbols: Seq<SymbolView>, upto: int) -> Seq<Seq<char>>
    decreases upto,
{
    if upto <= 0 {
        Seq::empty()
    } else {
        match listing_line(symbols[upto - 1]) {
            Some(line) => listing(symbols, upto - 1).push(line),
            None => listing(symbols, upto - 1),
        }
    }
}

/// The texts of a list of strings.
pub open spec fn texts(v: Seq<String>) -> Seq<Seq<char>> {
    Seq::new(v.len(), |i: int| v[i]@)
}

/// Lists the functions and the structs among symbols, one line each.
pub fn function_list(symbols: &Vec<SymbolRef>) -> (lines: Vec<String>)
    ensures
        texts(lines@) == listing(symbol_views(symbols@), symbols@.len() as int),
{
    let ghost views = symbol_views(symbols@);
    let mut lines: Vec<String> = Vec::new();
    let mut i: usize = 0;
    assert(texts(lines@) =~= listing(views, 0));
    while i < symbols.len()
        invariant
            i <= symbols.len(),
            views == symbol_views(symbols@),
            texts(lines@) == listing(views, i as int),
        decreases symbols.len() - i,
    {
        let s = &symbols[i];
        assert(views[i as int] == s@);
        let head = match s.kind {
            Some(SymbolKind::Function) => Some("Function: "),
            Some(SymbolKind::Struct) => Some("Struct: "),
            _ => None,
        };
        match head {
            Some(h) => {
                let mut line = String::from_str(h);
                line.append(s.name.as_str());
                let ghost before = texts(lines@);
                lines.push(line);
                assert(texts(lines@) =~= before.push(line@));
            },
            None => {},
        }
        i = i + 1;
    }
    lines
}

/// What to do after one attempt of a call that is tried several times.
#[derive(Clone, Copy, Debug, PartialEq, Eq, Structural)]
pub enum Retry {
    /// The attempt succeeded.
    Done,
    /// The attempt failed and another one is due, after a pause.
    Again,
    /// The attempt failed and it was the last.
    GiveUp,
}

/// Decides what follows the attempt number `attempt` (counted from one) of
/// at most `max_attempts`.
pub fn after_attempt(attempt: usize, max_attempts: usize, succeeded: bool) -> (r: Retry)
    ensures
        r == (if succeeded {
            Retry::Done
        } else if attempt < max_attempts {
            Retry::Again
        } else {
            Retry::GiveUp
        }),
{
    if succeeded {
        Retry::Done
    } else if attempt < max_attempts {
        Retry::Again
    } else {
        Retry::GiveUp
    }
}

/// A session with the language server.
#[derive(Debug)]
pub struct LspClient {
    workspace: String,
    handshake: Handshake,
    message_builder: MessageCreator,
    communicator: FramedBox,
}

impl View for LspClient {
    type V = SessionView;

    closed spec fn view(&self) -> SessionView {
        SessionView {
            workspace: self.workspace@,
            handshake: self.handshake,
            last_id: self.message_builder@,
            pending: self.communicator@,
        }
    }
}

impl LspClient {
    /// The table of pending requests is in order.
    pub closed spec fn well_formed(&self) -> bool {
        self.communicator.well_formed()
    }

    /// A session for the workspace at `workspace`, a URL. Nothing has been
    /// sent yet.
    pub fn new(workspace: String) -> (c: Self)
        ensures
            c.well_formed(),
            c@ == (SessionView {
                workspace: workspace@,
                handshake: Handshake::NotStarted,
                last_id: 0,
                pending: Set::empty(),
            }),
    {
        LspClient {
            workspace,
            handshake: Handshake::NotStarted,
            message_builder: MessageCreator::new(),
            communicator: FramedBox::new(),
        }
    }

    /// A session for the workspace in the directory at `path`, which has to
    /// be absolute: its root is the `file` URL of that directory. Nothing has
    /// been sent yet. `None` where the path has no URL.
    pub fn at_path(path: &str) -> (r: Option<Self>)
        ensures
            match r {
                Some(c) => c.well_formed() && has_at(c@.workspace, 0, "file://"@) && c@ == (
                SessionView {
                    workspace: c@.workspace,
                    handshake: Handshake::NotStarted,
                    last_id: 0,
                    pending: Set::empty(),
                }),
                None => true,
            },
    {
        match file_url(path) {
            Some(root) => Some(LspClient::new(root)),
            None => None,
        }
    }

    /// The root of the workspace.
    pub fn workspace(&self) -> (r: &str)
        ensures
            r@ == self@.workspace,
    {
        self.workspace.as_str()
    }

    /// How far the handshake has come.
    pub fn handshake(&self) -> (h: Handshake)
        ensures
            h == self@.handshake,
    {
        self.handshake
    }

    /// Whether the handshake is complete, so that the server may be asked.
    pub fn is_ready(&self) -> (b: bool)
        ensures
            b == (self@.handshake == Handshake::Done),
    {
        match self.handshake {
            Handshake::Done => true,
            _ => false,
        }
    }

    /// Whether the session can number one more request.
    pub fn has_ids_left(&self) -> (b: bool)
        ensures
            b == (self@.last_id < i32::MAX),
    {
        self.message_builder.has_ids_left()
    }

    fn request(&mut self, method: &str, params: String) -> (r: (i32, Vec<u8>))
        requires
            old(self).well_formed(),
            old(self)@.last_id < i32::MAX,
        ensures
            final(self).well_formed(),
            final(self)@ == requested(old(self)@, method@, params@).0,
            r.0 == requested(old(self)@, method@, params@).1,
            r.1@ == requested(old(self)@, method@, params@).2,
    {
        let request = self.message_builder.create_request(method, params);
        self.communicator.send_request(&request)
    }

    fn notify(&mut self, method: &str, params: String) -> (out: Vec<u8>)
        ensures
            final(self).well_formed() == old(self).well_formed(),
            final(self)@ == old(self)@,
            out@ == notified(method@, params@),
    {
        let notification = self.message_builder.create_notification(method, params);
        self.communicator.send_notification(&notification)
    }

    /// Opens the session: the request that names the workspace and says what
    /// the client can take; the handshake then waits for its answer. Fails,
    /// and sends nothing, where the workspace is no URL.
    pub fn initialize(&mut self, process_id: Option<u32>) -> (r: Result<
        (i32, Vec<u8>),
        ProtocolError,
    >)
        requires
            old(self).well_formed(),
            old(self)@.last_id < i32::MAX,
        ensures
            final(self).well_formed(),
            match r {
                Ok((id, out)) => {
                    let step = requested(
                        old(self)@,
                        "initialize"@,
                        initialize_params(process_id, old(self)@.workspace),
                    );
                    url_valid(old(self)@.workspace) && final(self)@ == (SessionView {
                        handshake: Handshake::Asked { id },
                        ..step.0
                    }) && id == step.1 && out@ == step.2
                },
                Err(e) => !url_valid(old(self)@.workspace) && final(self)@ == old(self)@ && e
                    == ProtocolError::InvalidRoot,
            },
    {
        match self.message_builder.initialize(process_id, self.workspace.as_str()) {
            Ok(request) => {
                let sent = self.communicator.send_request(&request);
                self.handshake = Handshake::Asked { id: sent.0 };
                Ok(sent)
            },
            Err(e) => Err(e),
        }
    }

    /// The notification that follows the answer to the opening request, and
    /// completes the handshake.
    pub fn initialized(&mut self) -> (out: Vec<u8>)
        requires
            old(self)@.handshake == Handshake::Answered,
        ensures
            final(self).well_formed() == old(self).well_formed(),
            final(self)@ == (SessionView { handshake: Handshake::Done, ..old(self)@ }),
            out@ == notified("initialized"@, empty_params()),
    {
        let notification = self.message_builder.initialized_notification();
        self.handshake = Handshake::Done;
        self.communicator.send_notification(&notification)
    }

    /// Asks for the workspace symbols that match `query`; the empty query
    /// asks for all of them.
    pub fn search_symbols(&mut self, query: &str) -> (r: (i32, Vec<u8>))
        requires
            old(self).well_formed(),
            old(self)@.handshake == Handshake::Done,
            old(self)@.last_id < i32::MAX,
        ensures
            final(self).well_formed(),
            final(self)@ == requested(old(self)@, "workspace/symbol"@, query_params(query@)).0,
            r.0 == requested(old(self)@, "workspace/symbol"@, query_params(query@)).1,
            r.1@ == requested(old(self)@, "workspace/symbol"@, query_params(query@)).2,
    {
        let mut params = String::from_str("{\"query\":");
        params.append(json_quote(query).as_str());
        params.append("}");
        self.request("workspace/symbol", params)
    }

    /// Asks for every symbol of the workspace.
    pub fn get_all_function_list(&mut self) -> (r: (i32, Vec<u8>))
        requires
            old(self).well_formed(),
            old(self)@.handshake == Handshake::Done,
            old(self)@.last_id < i32::MAX,
        ensures
            final(self).well_formed(),
            final(self)@ == requested(
                old(self)@,
                "workspace/symbol"@,
                query_params(Seq::empty()),
            ).0,
            r.0 == requested(old(self)@, "workspace/symbol"@, query_params(Seq::empty())).1,
            r.1@ == requested(old(self)@, "workspace/symbol"@, query_params(Seq::empty())).2,
    {
        let query = String::new();
        self.search_symbols(query.as_str())
    }

    /// Asks for the call hierarchy at the place of a symbol.
    pub fn prepare_call_hierarchy(&mut self, symbol: &SymbolRef) -> (r: (i32, Vec<u8>))
        requires
            old(self).well_formed(),
            old(self)@.handshake == Handshake::Done,
            old(self)@.last_id < i32::MAX,
        ensures
            final(self).well_formed(),
            final(self)@ == requested(
                old(self)@,
                "textDocument/prepareCallHierarchy"@,
                position_params(symbol@.uri, symbol@.line, symbol@.column),
            ).0,
            r.0 == requested(
                old(self)@,
                "textDocument/prepareCallHierarchy"@,
                position_params(symbol@.uri, symbol@.line, symbol@.column),
            ).1,
            r.1@ == requested(
                old(self)@,
                "textDocument/prepareCallHierarchy"@,
                position_params(symbol@.uri, symbol@.line, symbol@.column),
            ).2,
    {
        let mut params = String::from_str("{\"textDocument\":{\"uri\":");
        params.append(json_quote(symbol.uri.as_str()).as_str());
        params.append("},\"position\":{\"line\":");
        push_decimal(&mut params, symbol.line as u64);
        params.append(",\"character\":");
        push_decimal(&mut params, symbol.column as u64);
        params.append("}}");
        self.request("textDocument/prepareCallHierarchy", params)
    }

    /// Asks for the callees of a node, handing the server's record of the
    /// node back as it came.
    pub fn outgoing_calls(&mut self, node: &CallHierarchyNode) -> (r: (i32, Vec<u8>))
        requires
            old(self).well_formed(),
            old(self)@.handshake == Handshake::Done,
            old(self)@.last_id < i32::MAX,
        ensures
            final(self).well_formed(),
            final(self)@ == requested(
                old(self)@,
                "callHierarchy/outgoingCalls"@,
                item_params(node@.payload),
            ).0,
            r.0 == requested(
                old(self)@,
                "callHierarchy/outgoingCalls"@,
                item_params(node@.payload),
            ).1,
            r.1@ == requested(
                old(self)@,
                "callHierarchy/outgoingCalls"@,
                item_params(node@.payload),
            ).2,
    {
        let mut params = String::from_str("{\"item\":");
        params.append(node.payload.as_str());
        params.append("}");
        self.request("callHierarchy/outgoingCalls", params)
    }

    /// Asks the server to shut down, however far the session has come.
    pub fn shutdown(&mut self) -> (r: (i32, Vec<u8>))
        requires
            old(self).well_formed(),
            old(self)@.last_id < i32::MAX,
        ensures
            final(self).well_formed(),
            final(self)@ == requested(old(self)@, "shutdown"@, empty_params()).0,
            r.0 == requested(old(self)@, "shutdown"@, empty_params()).1,
            r.1@ == requested(old(self)@, "shutdown"@, empty_params()).2,
    {
        self.request("shutdown", String::from_str("\"\""))
    }

    /// The notification that follows the answer to the shutdown request.
    pub fn exit(&mut self) -> (out: Vec<u8>)
        ensures
            final(self).well_formed() == old(self).well_formed(),
            final(self)@ == old(self)@,
            out@ == notified("exit"@, empty_params()),
    {
        self.notify("exit", String::from_str("\"\""))
    }

    /// Takes the body of an incoming frame and routes the message in it. The
    /// answer to the opening request moves the handshake on.
    pub fn receive(&mut self, body: &[u8]) -> (r: Result<Delivery, ParseError>)
        requires
            old(self).well_formed(),
        ensures
            final(self).well_formed(),
            match r {
                Ok(d) => body_message(body@) is Ok && d@ == routed(
                    old(self)@.pending,
                    body_message(body@)->Ok_0,
                ).1 && final(self)@ == (SessionView {
                    pending: routed(old(self)@.pending, body_message(body@)->Ok_0).0,
                    handshake: after_delivery(old(self)@.handshake, d@),
                    ..old(self)@
                }),
                Err(e) => final(self)@ == old(self)@ && body_message(body@) == Err::<
                    MessageView,
                    ParseError,
                >(e),
            },
    {
        let r = self.communicator.receive(body);
        match &r {
            Ok(Delivery::Completed { id, .. }) => match self.handshake {
                Handshake::Asked { id: asked } => {
                    if asked == *id {
                        self.handshake = Handshake::Answered;
                    }
                },
                _ => {},
            },
            _ => {},
        }
        r
    }

    /// Gives up waiting for the answer to the request `id`.
    pub fn expire(&mut self, id: i32) -> (e: BrokerError)
        requires
            old(self).well_formed(),
        ensures
            final(self).well_formed(),
            final(self)@ == (SessionView {
                pending: old(self)@.pending.remove(id),
                handshake: after_expiry(old(self)@.handshake, id),
                ..old(self)@
            }),
            e == BrokerError::Timeout,
    {
        match self.handshake {
            Handshake::Asked { id: asked } => {
                if asked == id {
                    self.handshake = Handshake::NotStarted;
                }
            },
            _ => {},
        }
        self.communicator.expire(id)
    }
}

} // verus!
