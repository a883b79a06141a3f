//! The JSON-RPC message model: requests, responses, notifications, and the
//! two-variant identifier type shared by the client and server id spaces.

use vstd::prelude::*;
use crate::json::{JsonValue, JsonView};

verus! {

/// A JSON-RPC request identifier: either a signed 64-bit integer or a string.
pub enum MessageId {
    Number(i64),
    String(String),
}

/// The mathematical value of a [`MessageId`].
#[verifier::ext_equal]
pub enum IdView {
    Number(int),
    String(Seq<char>),
}

impl View for MessageId {
    type V = IdView;

    open spec fn view(&self) -> IdView {
        match self {
            MessageId::Number(n) => IdView::Number(*n as int),
            MessageId::String(s) => IdView::String(s@),
        }
    }
}

impl MessageId {
    /// Structural equality on identifiers, comparing string ids by contents.
    pub fn eq_id(&self, other: &MessageId) -> (r: bool)
        ensures
            r == (self@ == other@),
    {
        match (self, other) {
            (MessageId::Number(a), MessageId::Number(b)) => *a == *b,
            (MessageId::String(a), MessageId::String(b)) => *a == *b,
            _ => false,
        }
    }

    /// A copy of this identifier with the same mathematical value.
    pub fn dup(&self) -> (r: MessageId)
        ensures
            r@ == self@,
    {
        match self {
            MessageId::Number(n) => MessageId::Number(*n),
            MessageId::String(s) => MessageId::String(s.clone()),
        }
    }
}

/// A request: the sender expects a response bearing the same id.
pub struct RequestMessage {
    pub jsonrpc: String,
    pub id: MessageId,
    pub method: String,
    pub params: Option<JsonValue>,
}

/// The error half of a response.
pub struct ResponseError {
    pub code: i32,
    pub message: String,
    pub data: Option<JsonValue>,
}

/// A response to an earlier request, carrying a result or an error.
pub struct ResponseMessage {
    pub jsonrpc: String,
    pub id: MessageId,
    pub result: Option<JsonValue>,
    pub error: Option<ResponseError>,
}

/// A notification: no id, no response expected.
pub struct NotificationMessage {
    pub jsonrpc: String,
    pub method: String,
    pub params: Option<JsonValue>,
}

/// A JSON-RPC message, classified structurally.
pub enum Message {
    Request(RequestMessage),
    Response(ResponseMessage),
    Notification(NotificationMessage),
}

/// The mathematical value of a [`RequestMessage`].
#[verifier::ext_equal]
pub struct RequestView {
    pub jsonrpc: Seq<char>,
    pub id: IdView,
    pub method: Seq<char>,
    pub params: Option<JsonView>,
}

/// The mathematical value of a [`ResponseError`].
#[verifier::ext_equal]
pub struct ErrorView {
    pub code: int,
    pub message: Seq<char>,
    pub data: Option<JsonView>,
}

/// The mathematical value of a [`ResponseMessage`].
#[verifier::ext_equal]
pub struct ResponseView {
    pub jsonrpc: Seq<char>,
    pub id: IdView,
    pub result: Option<JsonView>,
    pub error: Option<ErrorView>,
}

/// The mathematical value of a [`NotificationMessage`].
#[verifier::ext_equal]
pub struct NotificationView {
    pub jsonrpc: Seq<char>,
    pub method: Seq<char>,
    pub params: Option<JsonView>,
}

/// The mathematical value of a [`Message`].
#[verifier::ext_equal]
pub enum MessageView {
    Request(RequestView),
    Response(ResponseView),
    Notification(NotificationView),
}

/// The view of an optional payload.
pub open spec fn opt_json_view(p: Option<JsonValue>) -> Option<JsonView> {
    match p {
        Some(v) => Some(v@),
        None => None,
    }
}

impl View for RequestMessage {
    type V = RequestView;

    open spec fn view(&self) -> RequestView {
        RequestView {
            jsonrpc: self.jsonrpc@,
            id: self.id@,
            method: self.method@,
            params: opt_json_view(self.params),
        }
    }
}

impl View for ResponseError {
    type V = ErrorView;

    open spec fn view(&self) -> ErrorView {
        ErrorView { code: self.code as int, message: self.message@, data: opt_json_view(self.data) }
    }
}

impl View for ResponseMessage {
    type V = ResponseView;

    open spec fn view(&self) -> ResponseView {
        ResponseView {
            jsonrpc: self.jsonrpc@,
            id: self.id@,
            result: opt_json_view(self.result),
            error: match self.error {
                Some(e) => Some(e@),
                None => None,
            },
        }
    }
}

impl View for NotificationMessage {
    type V = NotificationView;

    open spec fn view(&self) -> NotificationView {
        NotificationView {
            jsonrpc: self.jsonrpc@,
            method: self.method@,
            params: opt_json_view(self.params),
        }
    }
}

impl View for Message {
    type V = MessageView;

    open spec fn view(&self) -> MessageView {
        match self {
            Message::Request(r) => MessageView::Request(r@),
            Message::Response(r) => MessageView::Response(r@),
            Message::Notification(n) => MessageView::Notification(n@),
        }
    }
}

/// The method name of a message view, where it has one.
pub open spec fn msg_method(m: MessageView) -> Option<Seq<char>> {
    match m {
        MessageView::Request(r) => Some(r.method),
        MessageView::Notification(n) => Some(n.method),
        MessageView::Response(_) => None,
    }
}

/// The identifier of a message view, where it has one.
pub open spec fn msg_id(m: MessageView) -> Option<IdView> {
    match m {
        MessageView::Request(r) => Some(r.id),
        MessageView::Response(r) => Some(r.id),
        MessageView::Notification(_) => None,
    }
}

/// The view of the protocol-version tag every message carries.
pub open spec fn jsonrpc_tag() -> Seq<char> {
    "2.0"@
}

/// The protocol-version tag as a fresh string.
pub fn jsonrpc_version() -> (r: String)
    ensures
        r@ == jsonrpc_tag(),
{
    crate::text::str_of("2.0")
}

impl Message {
    /// The method name: requests and notifications have one, responses none.
    pub fn method(&self) -> (r: Option<&str>)
        ensures
            match r {
                Some(m) => msg_method(self@) == Some(m@),
                None => msg_method(self@) is None,
            },
    {
        match self {
            Message::Request(req) => Some(req.method.as_str()),
            Message::Notification(notif) => Some(notif.method.as_str()),
            Message::Response(_) => None,
        }
    }

    /// The identifier: requests and responses have one, notifications none.
    pub fn id(&self) -> (r: Option<&MessageId>)
        ensures
            match r {
                Some(i) => msg_id(self@) == Some(i@),
                None => msg_id(self@) is None,
            },
    {
        match self {
            Message::Request(req) => Some(&req.id),
            Message::Response(resp) => Some(&resp.id),
            Message::Notification(_) => None,
        }
    }

    /// A notification with the fixed protocol tag.
    pub fn notification(method: &str, params: Option<JsonValue>) -> (m: Message)
        ensures
            m@ == MessageView::Notification(
                NotificationView {
                    jsonrpc: jsonrpc_tag(),
                    method: method@,
                    params: opt_json_view(params),
                },
            ),
    {
        Message::Notification(
            NotificationMessage {
                jsonrpc: jsonrpc_version(),
                method: crate::text::str_of(method),
                params,
            },
        )
    }

    /// A request with the fixed protocol tag.
    pub fn request(id: MessageId, method: &str, params: Option<JsonValue>) -> (m: Message)
        ensures
            m@ == MessageView::Request(
                RequestView {
                    jsonrpc: jsonrpc_tag(),
                    id: id@,
                    method: method@,
                    params: opt_json_view(params),
                },
            ),
    {
        Message::Request(
            RequestMessage {
                jsonrpc: jsonrpc_version(),
                id,
                method: crate::text::str_of(method),
                params,
            },
        )
    }

    /// A successful response carrying `result`, with the fixed protocol tag.
    pub fn response_ok(id: MessageId, result: JsonValue) -> (m: Message)
        ensures
            m@ == MessageView::Response(
                ResponseView {
                    jsonrpc: jsonrpc_tag(),
                    id: id@,
                    result: Some(result@),
                    error: None,
                },
            ),
    {
        Message::Response(
            ResponseMessage { jsonrpc: jsonrpc_version(), id, result: Some(result), error: None },
        )
    }

    /// A deep copy with the same mathematical value.
    pub fn dup(&self) -> (m: Message)
        ensures
            m@ == self@,
    {
        match self {
            Message::Request(r) => Message::Request(
                RequestMessage {
                    jsonrpc: r.jsonrpc.clone(),
                    id: r.id.dup(),
                    method: r.method.clone(),
                    params: dup_params(&r.params),
                },
            ),
            Message::Response(r) => Message::Response(
                ResponseMessage {
                    jsonrpc: r.jsonrpc.clone(),
                    id: r.id.dup(),
                    result: dup_params(&r.result),
                    error: match &r.error {
                        Some(e) => Some(
                            ResponseError {
                                code: e.code,
                                message: e.message.clone(),
                                data: dup_params(&e.data),
                            },
                        ),
                        None => None,
                    },
                },
            ),
            Message::Notification(n) => Message::Notification(
                NotificationMessage {
                    jsonrpc: n.jsonrpc.clone(),
                    method: n.method.clone(),
                    params: dup_params(&n.params),
                },
            ),
        }
    }
}

/// The views of a list of messages.
pub open spec fn msgs_view(s: Seq<Message>) -> Seq<MessageView> {
    Seq::new(s.len(), |i: int| s[i]@)
}

/// The view of an optional message.
pub open spec fn opt_msg_view(m: Option<Message>) -> Option<MessageView> {
    match m {
        Some(v) => Some(v@),
        None => None,
    }
}

/// A deep copy of an optional payload.
pub fn dup_params(p: &Option<JsonValue>) -> (r: Option<JsonValue>)
    ensures
        opt_json_view(r) == opt_json_view(*p),
{
    match p {
        Some(v) => Some(v.dup()),
        None => None,
    }
}

} // verus!
