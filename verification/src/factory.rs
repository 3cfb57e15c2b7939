//! Making the outgoing messages: numbering the requests, and writing the
//! parameters of the handshake.

use crate::json::{is_url, url_valid};
use crate::quoting::{json_quote, json_quoted};
use crate::message::{protocol_version, Notification, NotificationView, Request, RequestView};
use crate::modules::{workspace_name, workspace_name_of};
use crate::symbols::option_text;
use crate::text::{decimal, push_decimal};
use vstd::prelude::*;

verus! {

/// Numbers the requests of one session: 1, 2, 3 and so on, never a number
/// twice.
#[derive(Debug)]
pub struct MessageFactory {
    id: i32,
}

impl View for MessageFactory {
    type V = int;

    /// The number given out last; zero before the first.
    closed spec fn view(&self) -> int {
        self.id as int
    }
}

impl MessageFactory {
    /// The numbers given out are positive.
    #[verifier::type_invariant]
    spec fn counts_up(self) -> bool {
        self.id >= 0
    }

    /// A factory that has given out no number yet.
    pub fn new() -> (f: Self)
        ensures
            f@ == 0,
    {
        MessageFactory { id: 0 }
    }

    /// Whether a number is left to give out.
    pub fn has_ids_left(&self) -> (b: bool)
        ensures
            b == (self@ < i32::MAX),
    {
        self.id < i32::MAX
    }

    /// The next number: one more than the last, and positive.
    pub fn get_id(&mut self) -> (id: i32)
        requires
            old(self)@ < i32::MAX,
        ensures
            final(self)@ == old(self)@ + 1,
            id == final(self)@,
            id > 0,
    {
        proof {
            use_type_invariant(&*self);
        }
        self.id = self.id + 1;
        self.id
    }

    /// A request with the next number.
    pub fn create_request(&mut self, method: &str, params: String) -> (r: Request)
        requires
            old(self)@ < i32::MAX,
        ensures
            final(self)@ == old(self)@ + 1,
            r@.id > 0,
            r@ == (RequestView {
                jsonrpc: protocol_version(),
                id: (old(self)@ + 1) as i32,
                method: method@,
                params: params@,
            }),
    {
        let id = self.get_id();
        Request::new(id, String::from_str(method), params)
    }

    /// A notification; it takes no number.
    pub fn create_notification(&mut self, method: &str, params: String) -> (n: Notification)
        ensures
            final(self)@ == old(self)@,
            n@ == (NotificationView {
                jsonrpc: protocol_version(),
                method: method@,
                params: params@,
            }),
    {
        Notification::new(String::from_str(method), params)
    }
}

/// The parameters that go out where none are given: the JSON `null`.
pub open spec fn params_or_null(params: Option<Seq<char>>) -> Seq<char> {
    match params {
        Some(p) => p,
        None => "null"@,
    }
}

/// A factory whose messages may do without parameters.
#[derive(Debug)]
pub struct MesssageFuctory {
    id: i32,
}

impl View for MesssageFuctory {
    type V = int;

    /// The number given out last; zero before the first.
    closed spec fn view(&self) -> int {
        self.id as int
    }
}

impl MesssageFuctory {
    /// The numbers given out are positive.
    #[verifier::type_invariant]
    spec fn counts_up(self) -> bool {
        self.id >= 0
    }

    /// A factory that has given out no number yet.
    pub fn new() -> (f: Self)
        ensures
            f@ == 0,
    {
        MesssageFuctory { id: 0 }
    }

    /// The next number: one more than the last, and positive.
    pub fn get_id(&mut self) -> (id: i32)
        requires
            old(self)@ < i32::MAX,
        ensures
            final(self)@ == old(self)@ + 1,
            id == final(self)@,
            id > 0,
    {
        proof {
            use_type_invariant(&*self);
        }
        self.id = self.id + 1;
        self.id
    }

    /// A request with the next number; without parameters it carries `null`.
    pub fn create_request(&mut self, method: &str, params: Option<String>) -> (r: Request)
        requires
            old(self)@ < i32::MAX,
        ensures
            final(self)@ == old(self)@ + 1,
            r@ == (RequestView {
                jsonrpc: protocol_version(),
                id: (old(self)@ + 1) as i32,
                method: method@,
                params: params_or_null(option_text(params)),
            }),
    {
        let id = self.get_id();
        let text = match params {
            Some(p) => p,
            None => String::from_str("null"),
        };
        Request::new(id, String::from_str(method), text)
    }

    /// A notification; without parameters it carries `null`.
    pub fn create_notification(&mut self, method: &str, params: Option<String>) -> (n:
        Notification)
        ensures
            final(self)@ == old(self)@,
            n@ == (NotificationView {
                jsonrpc: protocol_version(),
                method: method@,
                params: params_or_null(option_text(params)),
            }),
    {
        let text = match params {
            Some(p) => p,
            None => String::from_str("null"),
        };
        Notification::new(String::from_str(method), text)
    }
}

/// The process identifier as JSON: its number, or `null` where there is none.
pub open spec fn process_id_text(process_id: Option<u32>) -> Seq<char> {
    match process_id {
        Some(p) => decimal(p as nat),
        None => "null"@,
    }
}

/// The parameters of the handshake: who asks, for which workspace, and what
/// the client can take. The client asks for workspace symbols, for document
/// symbols of the kinds function (12) and struct (23) in hierarchical form,
/// and for the call hierarchy.
pub open spec fn initialize_params(process_id: Option<u32>, root: Seq<char>) -> Seq<char> {
    "{\"processId\":"@ + process_id_text(process_id) + ",\"rootUri\":"@ + json_quoted(root)
        + ",\"capabilities\":{\"workspace\":{\"symbol\":{\"dynamicRegistration\":true}},\"textDocument\":{\"documentSymbol\":{\"dynamicRegistration\":true,\"symbolKind\":{\"valueSet\":[12,23]},\"hierarchicalDocumentSymbolSupport\":true},\"callHierarchy\":{\"dynamicRegistration\":true}}},\"workspaceFolders\":[{\"uri\":"@
        + json_quoted(root) + ",\"name\":"@ + json_quoted(workspace_name(root)) + "}]}"@
}

/// Writes the parameters of the handshake.
pub fn initialize_params_json(process_id: Option<u32>, root: &str) -> (text: String)
    ensures
        text@ == initialize_params(process_id, root@),
{
    let mut text = String::from_str("{\"processId\":");
    match process_id {
        Some(p) => {
            push_decimal(&mut text, p as u64);
        },
        None => {
            text.append("null");
        },
    }
    text.append(",\"rootUri\":");
    let quoted = json_quote(root);
    text.append(quoted.as_str());
    text.append(
        ",\"capabilities\":{\"workspace\":{\"symbol\":{\"dynamicRegistration\":true}},\"textDocument\":{\"documentSymbol\":{\"dynamicRegistration\":true,\"symbolKind\":{\"valueSet\":[12,23]},\"hierarchicalDocumentSymbolSupport\":true},\"callHierarchy\":{\"dynamicRegistration\":true}}},\"workspaceFolders\":[{\"uri\":",
    );
    text.append(quoted.as_str());
    text.append(",\"name\":");
    let name = workspace_name_of(root);
    text.append(json_quote(name.as_str()).as_str());
    text.append("}]}");
    text
}

/// The parameters of the messages that have nothing to say: an empty string.
pub open spec fn empty_params() -> Seq<char> {
    "\"\""@
}

/// Why a message could not be made.
#[derive(Clone, Copy, Debug, PartialEq, Eq, Structural)]
pub enum ProtocolError {
    /// The root of the workspace is no URL.
    InvalidRoot,
}

/// Makes the messages of the handshake.
#[derive(Debug)]
pub struct MessageCreator {
    message_factory: MessageFactory,
}

impl View for MessageCreator {
    type V = int;

    /// The number given out last.
    closed spec fn view(&self) -> int {
        self.message_factory@
    }
}

impl MessageCreator {
    /// A creator that has numbered no request yet.
    pub fn new() -> (c: MessageCreator)
        ensures
            c@ == 0,
    {
        let message_factory = MessageFactory::new();
        MessageCreator { message_factory }
    }

    /// Whether a number is left to give out.
    pub fn has_ids_left(&self) -> (b: bool)
        ensures
            b == (self@ < i32::MAX),
    {
        self.message_factory.has_ids_left()
    }

    /// The request that opens a session, for the workspace at `root`, a URL.
    /// No number is used up where the root is refused.
    pub fn initialize(&mut self, process_id: Option<u32>, root: &str) -> (r: Result<
        Request,
        ProtocolError,
    >)
        requires
            old(self)@ < i32::MAX,
        ensures
            match r {
                Ok(request) => url_valid(root@) && final(self)@ == old(self)@ + 1 && request@ == (
                RequestView {
                    jsonrpc: protocol_version(),
                    id: (old(self)@ + 1) as i32,
                    method: "initialize"@,
                    params: initialize_params(process_id, root@),
                }),
                Err(e) => !url_valid(root@) && final(self)@ == old(self)@ && e
                    == ProtocolError::InvalidRoot,
            },
    {
        if !is_url(root) {
            return Err(ProtocolError::InvalidRoot);
        }
        let params = initialize_params_json(process_id, root);
        Ok(self.message_factory.create_request("initialize", params))
    }

    /// The notification that follows the answer to the opening request.
    pub fn initialized_notification(&mut self) -> (n: Notification)
        ensures
            final(self)@ == old(self)@,
            n@ == (NotificationView {
                jsonrpc: protocol_version(),
                method: "initialized"@,
                params: empty_params(),
            }),
    {
        self.message_factory.create_notification("initialized", String::from_str("\"\""))
    }

    /// A request with the next number.
    pub fn create_request(&mut self, method: &str, params: String) -> (r: Request)
        requires
            old(self)@ < i32::MAX,
        ensures
            final(self)@ == old(self)@ + 1,
            r@ == (RequestView {
                jsonrpc: protocol_version(),
                id: (old(self)@ + 1) as i32,
                method: method@,
                params: params@,
            }),
    {
        self.message_factory.create_request(method, params)
    }

    /// A notification.
    pub fn create_notification(&mut self, method: &str, params: String) -> (n: Notification)
        ensures
            final(self)@ == old(self)@,
            n@ == (NotificationView {
                jsonrpc: protocol_version(),
                method: method@,
                params: params@,
            }),
    {
        self.message_factory.create_notification(method, params)
    }
}

} // verus!
