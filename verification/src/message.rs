//! The messages of the protocol: what a request and a notification look like
//! on the wire, and how an incoming body is told apart into a response, an
//! error response or a notification.
//!
//! Parameters, results and errors are carried as JSON text; what comes in is
//! kept as it stands in the body.

use crate::codec::text_of_bytes;
use crate::json::{
    json_i32, json_i32_value, json_is_valid, json_member, json_member_text, json_string,
    json_string_value, json_valid,
};
use crate::order::str_eq;
use crate::quoting::{json_quote, json_quoted};
use crate::symbols::option_text;
use crate::text::{decimal, push_decimal};
use vstd::prelude::*;
use vstd::utf8::{decode_utf8, valid_utf8};

verus! {

/// A call that expects an answer.
#[derive(Debug)]
pub struct Request {
    pub jsonrpc: String,
    pub id: i32,
    pub method: String,
    /// The parameters, as JSON text.
    pub params: String,
}

/// The answer to a request.
#[derive(Debug)]
pub struct ResponseMessage {
    pub jsonrpc: String,
    pub id: i32,
    /// The result as JSON text; `None` where it is `null`.
    pub result: Option<String>,
}

/// The refusal of a request.
#[derive(Debug)]
pub struct ResponseError {
    pub jsonrpc: String,
    pub id: i32,
    /// The error as JSON text; `None` where it is absent or `null`.
    pub error: Option<String>,
}

/// A message that expects no answer.
#[derive(Debug)]
pub struct Notification {
    pub jsonrpc: String,
    pub method: String,
    /// The parameters, as JSON text.
    pub params: String,
}

/// What can come in.
#[derive(Debug)]
pub enum Message {
    Response(ResponseMessage),
    Error(ResponseError),
    Notification(Notification),
}

/// What can go out.
#[derive(Debug)]
pub enum SendMessage {
    Request(Request),
    Notification(Notification),
}

/// A request, as mathematics.
pub struct RequestView {
    pub jsonrpc: Seq<char>,
    pub id: i32,
    pub method: Seq<char>,
    pub params: Seq<char>,
}

/// A notification, as mathematics.
pub struct NotificationView {
    pub jsonrpc: Seq<char>,
    pub method: Seq<char>,
    pub params: Seq<char>,
}

/// An incoming message, as mathematics.
pub enum MessageView {
    Response { jsonrpc: Seq<char>, id: i32, result: Option<Seq<char>> },
    Error { jsonrpc: Seq<char>, id: i32, error: Option<Seq<char>> },
    Notification(NotificationView),
}

impl View for Request {
    type V = RequestView;

    open spec fn view(&self) -> RequestView {
        RequestView {
            jsonrpc: self.jsonrpc@,
            id: self.id,
            method: self.method@,
            params: self.params@,
        }
    }
}

impl View for Notification {
    type V = NotificationView;

    open spec fn view(&self) -> NotificationView {
        NotificationView { jsonrpc: self.jsonrpc@, method: self.method@, params: self.params@ }
    }
}

impl View for Message {
    type V = MessageView;

    open spec fn view(&self) -> MessageView {
        match self {
            Message::Response(r) => MessageView::Response {
                jsonrpc: r.jsonrpc@,
                id: r.id,
                result: option_text(r.result),
            },
            Message::Error(e) => MessageView::Error {
                jsonrpc: e.jsonrpc@,
                id: e.id,
                error: option_text(e.error),
            },
            Message::Notification(n) => MessageView::Notification(n@),
        }
    }
}

/// The version that every message names.
pub open spec fn protocol_version() -> Seq<char> {
    "2.0"@
}

impl Request {
    /// A request of the protocol's version.
    pub fn new(id: i32, method: String, params: String) -> (r: Self)
        ensures
            r@ == (RequestView {
                jsonrpc: protocol_version(),
                id,
                method: method@,
                params: params@,
            }),
    {
        Request { jsonrpc: String::from_str("2.0"), id, method, params }
    }
}

impl Notification {
    /// A notification of the protocol's version.
    pub fn new(method: String, params: String) -> (n: Self)
        ensures
            n@ == (NotificationView {
                jsonrpc: protocol_version(),
                method: method@,
                params: params@,
            }),
    {
        Notification { jsonrpc: String::from_str("2.0"), method, params }
    }
}

impl Message {
    /// The identifier that a response or an error response answers; a
    /// notification has none.
    pub open spec fn answered(m: MessageView) -> Option<i32> {
        match m {
            MessageView::Response { id, .. } => Some(id),
            MessageView::Error { id, .. } => Some(id),
            MessageView::Notification(_) => None,
        }
    }

    /// The identifier that the message answers.
    pub fn answered_id(&self) -> (r: Option<i32>)
        ensures
            r == Self::answered(self@),
    {
        match self {
            Message::Response(r) => Some(r.id),
            Message::Error(e) => Some(e.id),
            Message::Notification(_) => None,
        }
    }
}

/// A number with its sign, in decimal.
pub open spec fn signed_decimal(i: int) -> Seq<char> {
    if i < 0 {
        seq!['-'] + decimal((-i) as nat)
    } else {
        decimal(i as nat)
    }
}

fn push_signed(s: &mut String, i: i32)
    ensures
        final(s)@ == old(s)@ + signed_decimal(i as int),
{
    if i < 0 {
        proof {
            reveal_strlit("-");
        }
        assert("-"@ =~= seq!['-']);
        s.append("-");
        let magnitude: u64 = (-(i as i64)) as u64;
        push_decimal(s, magnitude);
        assert(old(s)@ + signed_decimal(i as int) =~= (old(s)@ + seq!['-']) + decimal(
            magnitude as nat,
        ));
    } else {
        push_decimal(s, i as u64);
    }
}

/// A request on the wire: an object with the version, the identifier, the
/// method and the parameters, in this order and without spaces.
pub open spec fn request_text(r: RequestView) -> Seq<char> {
    "{\"jsonrpc\":"@ + json_quoted(r.jsonrpc) + ",\"id\":"@ + signed_decimal(r.id as int)
        + ",\"method\":"@ + json_quoted(r.method) + ",\"params\":"@ + r.params + "}"@
}

/// A notification on the wire: as a request, without identifier.
pub open spec fn notification_text(n: NotificationView) -> Seq<char> {
    "{\"jsonrpc\":"@ + json_quoted(n.jsonrpc) + ",\"method\":"@ + json_quoted(n.method)
        + ",\"params\":"@ + n.params + "}"@
}

/// Writes a request as JSON text.
pub fn request_to_json(r: &Request) -> (text: String)
    ensures
        text@ == request_text(r@),
{
    let mut text = String::from_str("{\"jsonrpc\":");
    text.append(json_quote(r.jsonrpc.as_str()).as_str());
    text.append(",\"id\":");
    push_signed(&mut text, r.id);
    text.append(",\"method\":");
    text.append(json_quote(r.method.as_str()).as_str());
    text.append(",\"params\":");
    text.append(r.params.as_str());
    text.append("}");
    text
}

/// Writes a notification as JSON text.
pub fn notification_to_json(n: &Notification) -> (text: String)
    ensures
        text@ == notification_text(n@),
{
    let mut text = String::from_str("{\"jsonrpc\":");
    text.append(json_quote(n.jsonrpc.as_str()).as_str());
    text.append(",\"method\":");
    text.append(json_quote(n.method.as_str()).as_str());
    text.append(",\"params\":");
    text.append(n.params.as_str());
    text.append("}");
    text
}

/// The text of what goes out.
pub open spec fn outgoing_text(m: SendMessage) -> Seq<char> {
    match m {
        SendMessage::Request(r) => request_text(r@),
        SendMessage::Notification(n) => notification_text(n@),
    }
}

/// Writes an outgoing message as JSON text.
pub fn message_to_json(m: &SendMessage) -> (text: String)
    ensures
        text@ == outgoing_text(*m),
{
    match m {
        SendMessage::Request(r) => request_to_json(r),
        SendMessage::Notification(n) => notification_to_json(n),
    }
}

/// Why an incoming body is no message.
#[derive(Clone, Copy, Debug, PartialEq, Eq, Structural)]
pub enum ParseError {
    /// The body is no JSON document (or no UTF-8 text).
    Syntax,
    /// The body looks like a message of some kind but lacks what that kind
    /// has to hold.
    Shape,
    /// The body is JSON but neither a notification nor a response.
    Other,
}

/// The text of a member that has to be a string.
pub open spec fn string_member(doc: Seq<char>, key: Seq<char>) -> Option<Seq<char>> {
    match json_member_text(doc, key) {
        Some(t) => json_string_value(t),
        None => None,
    }
}

/// The value of a member that has to be a number.
pub open spec fn i32_member(doc: Seq<char>, key: Seq<char>) -> Option<i32> {
    match json_member_text(doc, key) {
        Some(t) => json_i32_value(t),
        None => None,
    }
}

/// A JSON text that may be missing, and counts as missing where it is `null`.
pub open spec fn unless_null(text: Option<Seq<char>>) -> Option<Seq<char>> {
    match text {
        Some(t) => if t == "null"@ {
            None
        } else {
            Some(t)
        },
        None => None,
    }
}

/// The notification that its members make: it has to name a version and a
/// method, and to hold parameters.
pub open spec fn notification_from(
    jsonrpc: Option<Seq<char>>,
    method: Option<Seq<char>>,
    params: Option<Seq<char>>,
) -> Result<NotificationView, ParseError> {
    match (jsonrpc, method, params) {
        (Some(jsonrpc), Some(method), Some(params)) => Ok(
            NotificationView { jsonrpc, method, params },
        ),
        _ => Err(ParseError::Shape),
    }
}

/// The response that its members make: it has to name a version and the
/// identifier. With a member `result`, be it `null`, it is a response; else
/// it is an error response.
pub open spec fn response_from(
    jsonrpc: Option<Seq<char>>,
    id: Option<i32>,
    result: Option<Seq<char>>,
    error: Option<Seq<char>>,
) -> Result<MessageView, ParseError> {
    match (jsonrpc, id) {
        (Some(jsonrpc), Some(id)) => if result is Some {
            Ok(MessageView::Response { jsonrpc, id, result: unless_null(result) })
        } else {
            Ok(MessageView::Error { jsonrpc, id, error: unless_null(error) })
        },
        _ => Err(ParseError::Shape),
    }
}

/// The notification that a document is: one with a member `method`. Its
/// version and its method have to be strings. `Ok(None)` where the document
/// has no member `method`.
pub open spec fn as_notification(doc: Seq<char>) -> Result<Option<NotificationView>, ParseError> {
    if json_member_text(doc, "method"@) is None {
        Ok(None)
    } else {
        match notification_from(
            string_member(doc, "jsonrpc"@),
            string_member(doc, "method"@),
            json_member_text(doc, "params"@),
        ) {
            Ok(n) => Ok(Some(n)),
            Err(e) => Err(e),
        }
    }
}

/// The response that a document is: one with a member `id`. Its version has
/// to be a string and its identifier a number. `Ok(None)` where the document
/// has no member `id`.
pub open spec fn as_response(doc: Seq<char>) -> Result<Option<MessageView>, ParseError> {
    if json_member_text(doc, "id"@) is None {
        Ok(None)
    } else {
        match response_from(
            string_member(doc, "jsonrpc"@),
            i32_member(doc, "id"@),
            json_member_text(doc, "result"@),
            json_member_text(doc, "error"@),
        ) {
            Ok(m) => Ok(Some(m)),
            Err(e) => Err(e),
        }
    }
}

/// The message that a JSON text is: a notification where it has a method, else
/// a response or an error response where it has an identifier.
pub open spec fn as_message(doc: Seq<char>) -> Result<MessageView, ParseError> {
    if !json_valid(doc) {
        Err(ParseError::Syntax)
    } else {
        match as_notification(doc) {
            Err(e) => Err(e),
            Ok(Some(n)) => Ok(MessageView::Notification(n)),
            Ok(None) => match as_response(doc) {
                Err(e) => Err(e),
                Ok(Some(m)) => Ok(m),
                Ok(None) => Err(ParseError::Other),
            },
        }
    }
}

/// The message that a body is: it has to be UTF-8, and then a message as text.
pub open spec fn body_message(body: Seq<u8>) -> Result<MessageView, ParseError> {
    if valid_utf8(body) {
        as_message(decode_utf8(body))
    } else {
        Err(ParseError::Syntax)
    }
}

fn read_string_member(doc: &str, key: &str) -> (r: Option<String>)
    ensures
        option_text(r) == string_member(doc@, key@),
{
    match json_member(doc, key) {
        Some(t) => json_string(t.as_str()),
        None => None,
    }
}

fn read_i32_member(doc: &str, key: &str) -> (r: Option<i32>)
    ensures
        r == i32_member(doc@, key@),
{
    match json_member(doc, key) {
        Some(t) => json_i32(t.as_str()),
        None => None,
    }
}

fn drop_null(text: Option<String>) -> (r: Option<String>)
    ensures
        option_text(r) == unless_null(option_text(text)),
{
    match text {
        Some(t) => {
            if str_eq(t.as_str(), "null") {
                None
            } else {
                Some(t)
            }
        },
        None => None,
    }
}

/// Makes a notification of its members, each as it was found in the
/// document: the version and the method as strings, the parameters as JSON
/// text.
pub fn make_notification(
    jsonrpc: Option<String>,
    method: Option<String>,
    params: Option<String>,
) -> (r: Result<Notification, ParseError>)
    ensures
        match r {
            Ok(n) => notification_from(option_text(jsonrpc), option_text(method), option_text(params))
                == Ok::<NotificationView, ParseError>(n@),
            Err(e) => notification_from(
                option_text(jsonrpc),
                option_text(method),
                option_text(params),
            ) == Err::<NotificationView, ParseError>(e),
        },
{
    match (jsonrpc, method, params) {
        (Some(jsonrpc), Some(method), Some(params)) => Ok(Notification { jsonrpc, method, params }),
        _ => Err(ParseError::Shape),
    }
}

/// Makes a response or an error response of its members, each as it was
/// found in the document: the version as a string, the identifier as a
/// number, the result and the error as JSON text.
pub fn make_response(
    jsonrpc: Option<String>,
    id: Option<i32>,
    result: Option<String>,
    error: Option<String>,
) -> (r: Result<Message, ParseError>)
    ensures
        match r {
            Ok(m) => response_from(option_text(jsonrpc), id, option_text(result), option_text(error))
                == Ok::<MessageView, ParseError>(m@),
            Err(e) => response_from(option_text(jsonrpc), id, option_text(result), option_text(error))
                == Err::<MessageView, ParseError>(e),
        },
{
    match (jsonrpc, id) {
        (Some(jsonrpc), Some(id)) => {
            if result.is_some() {
                Ok(Message::Response(ResponseMessage { jsonrpc, id, result: drop_null(result) }))
            } else {
                Ok(Message::Error(ResponseError { jsonrpc, id, error: drop_null(error) }))
            }
        },
        _ => Err(ParseError::Shape),
    }
}

/// Reads a JSON text as a notification, if it is one.
pub fn parse_notification(doc: &str) -> (r: Result<Option<Notification>, ParseError>)
    ensures
        match r {
            Ok(Some(n)) => as_notification(doc@) == Ok::<Option<NotificationView>, ParseError>(
                Some(n@),
            ),
            Ok(None) => as_notification(doc@) == Ok::<Option<NotificationView>, ParseError>(None),
            Err(e) => as_notification(doc@) == Err::<Option<NotificationView>, ParseError>(e),
        },
{
    if json_member(doc, "method").is_none() {
        return Ok(None);
    }
    let jsonrpc = read_string_member(doc, "jsonrpc");
    let method = read_string_member(doc, "method");
    let params = json_member(doc, "params");
    match make_notification(jsonrpc, method, params) {
        Ok(n) => Ok(Some(n)),
        Err(e) => Err(e),
    }
}

/// Reads a JSON text as a response or an error response, if it is one.
pub fn parse_response(doc: &str) -> (r: Result<Option<Message>, ParseError>)
    ensures
        match r {
            Ok(Some(m)) => as_response(doc@) == Ok::<Option<MessageView>, ParseError>(Some(m@)),
            Ok(None) => as_response(doc@) == Ok::<Option<MessageView>, ParseError>(None),
            Err(e) => as_response(doc@) == Err::<Option<MessageView>, ParseError>(e),
        },
{
    if json_member(doc, "id").is_none() {
        return Ok(None);
    }
    let jsonrpc = read_string_member(doc, "jsonrpc");
    let id = read_i32_member(doc, "id");
    let result = json_member(doc, "result");
    let error = json_member(doc, "error");
    match make_response(jsonrpc, id, result, error) {
        Ok(m) => Ok(Some(m)),
        Err(e) => Err(e),
    }
}

/// Reads a JSON text as a message.
pub fn parse_message_from_str(s: &str) -> (r: Result<Message, ParseError>)
    ensures
        match r {
            Ok(m) => as_message(s@) == Ok::<MessageView, ParseError>(m@),
            Err(e) => as_message(s@) == Err::<MessageView, ParseError>(e),
        },
{
    if !json_is_valid(s) {
        return Err(ParseError::Syntax);
    }
    match parse_notification(s) {
        Err(e) => {
            return Err(e);
        },
        Ok(Some(n)) => {
            return Ok(Message::Notification(n));
        },
        Ok(None) => {},
    }
    match parse_response(s) {
        Err(e) => Err(e),
        Ok(Some(m)) => Ok(m),
        Ok(None) => Err(ParseError::Other),
    }
}

/// Reads the body of a frame as a message.
pub fn parse_message_from_slice(s: &[u8]) -> (r: Result<Message, ParseError>)
    ensures
        match r {
            Ok(m) => body_message(s@) == Ok::<MessageView, ParseError>(m@),
            Err(e) => body_message(s@) == Err::<MessageView, ParseError>(e),
        },
{
    match text_of_bytes(s) {
        Some(text) => parse_message_from_str(text.as_str()),
        None => Err(ParseError::Syntax),
    }
}

} // verus!
