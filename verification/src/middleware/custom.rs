//! Handles the Roslyn-specific extension methods the standard protocol does
//! not know.
//!
//! `workspace/_roslyn_projectNeedsRestore` notifications are blocked (the
//! restore coordinator has already acted on them), metadata-navigation
//! notifications pass through, and `workspace/_roslyn_openDocument` is
//! rewritten into a well-formed `textDocument/didOpen`; a malformed open
//! notification is blocked. Unknown Roslyn-prefixed methods pass unchanged.

use vstd::prelude::*;
use crate::json::{json_get, JsonValue, JsonView};
use crate::message::{jsonrpc_tag, Message, MessageView, NotificationMessage, NotificationView};
use crate::middleware::{Action, ActionView};

verus! {

broadcast use vstd::std_specs::vec::group_vec_axioms;

/// The interceptor that adapts Roslyn's custom notifications.
pub struct CustomNotificationsMiddleware;

/// A Roslyn extension method: prefixed `workspace/_roslyn_` or `roslyn/`, or
/// the project-initialization marker.
pub open spec fn spec_is_roslyn_custom(m: Seq<char>) -> bool {
    ||| "workspace/_roslyn_"@.is_prefix_of(m)
    ||| "roslyn/"@.is_prefix_of(m)
    ||| m == "workspace/projectInitializationComplete"@
}

/// A method whose messages are dropped outright.
pub open spec fn spec_should_block(m: Seq<char>) -> bool {
    m == "workspace/_roslyn_projectNeedsRestore"@
}

/// The notification that is rewritten into a document-open.
pub open spec fn spec_should_convert(m: Seq<char>) -> bool {
    m == "workspace/_roslyn_openDocument"@
}

/// The metadata-navigation notifications that pass through with a note.
pub open spec fn spec_should_log(m: Seq<char>) -> bool {
    m == "roslyn/beginMetadataAsSource"@ || m == "roslyn/endMetadataAsSource"@
}

/// The payload of a `textDocument/didOpen` notification: a C# text document
/// with the given URI, version, and text.
pub open spec fn did_open_params(uri: Seq<char>, version: int, text: Seq<char>) -> JsonView {
    JsonView::Object(
        seq![
            (
                "textDocument"@,
                JsonView::Object(
                    seq![
                        ("uri"@, JsonView::Str(uri)),
                        ("languageId"@, JsonView::Str("csharp"@)),
                        ("version"@, JsonView::Int(version)),
                        ("text"@, JsonView::Str(text)),
                    ],
                ),
            ),
        ],
    )
}

/// The document-open rewrite of a `workspace/_roslyn_openDocument`
/// notification: defined when its params carry string `uri` and `text`
/// members.
pub open spec fn spec_convert_open_document(n: NotificationView) -> Option<NotificationView> {
    match n.params {
        Some(p) => {
            match json_get(p, "uri"@) {
                Some(JsonView::Str(u)) => match json_get(p, "text"@) {
                    Some(JsonView::Str(t)) => Some(
                        NotificationView {
                            jsonrpc: jsonrpc_tag(),
                            method: "textDocument/didOpen"@,
                            params: Some(did_open_params(u, 1, t)),
                        },
                    ),
                    _ => None,
                },
                _ => None,
            }
        },
        None => None,
    }
}

/// The action taken on a server-originated message.
pub open spec fn server_action(m: MessageView) -> ActionView {
    match m {
        MessageView::Request(r) => {
            if spec_is_roslyn_custom(r.method) && spec_should_block(r.method) {
                ActionView::Block
            } else {
                ActionView::Continue
            }
        },
        MessageView::Notification(n) => {
            if spec_is_roslyn_custom(n.method) {
                if spec_should_block(n.method) {
                    ActionView::Block
                } else if spec_should_log(n.method) {
                    ActionView::Continue
                } else if spec_should_convert(n.method) {
                    match spec_convert_open_document(n) {
                        Some(c) => ActionView::Replace(MessageView::Notification(c)),
                        None => ActionView::Block,
                    }
                } else {
                    ActionView::Continue
                }
            } else {
                ActionView::Continue
            }
        },
        MessageView::Response(_) => ActionView::Continue,
    }
}

/// The `textDocument/didOpen` payload as a value.
pub fn make_did_open_params(uri: &str, version: i64, text: &str) -> (r: JsonValue)
    ensures
        r@ == did_open_params(uri@, version as int, text@),
{
    let mut td: Vec<(String, JsonValue)> = Vec::new();
    td.push((crate::text::str_of("uri"), JsonValue::of_str(uri)));
    td.push((crate::text::str_of("languageId"), JsonValue::of_str("csharp")));
    td.push((crate::text::str_of("version"), JsonValue::Int(version)));
    td.push((crate::text::str_of("text"), JsonValue::of_str(text)));
    let td_value = JsonValue::Object(td);
    proof {
        let got = td_value@->Object_0;
        assert(got[2].1 == crate::json::json_view(JsonValue::Int(version)));
        assert(td_value@->Object_0 =~= seq![
            ("uri"@, JsonView::Str(uri@)),
            ("languageId"@, JsonView::Str("csharp"@)),
            ("version"@, JsonView::Int(version as int)),
            ("text"@, JsonView::Str(text@)),
        ]);
    }
    let ghost tdv = td_value@;
    let mut fields: Vec<(String, JsonValue)> = Vec::new();
    fields.push((crate::text::str_of("textDocument"), td_value));
    let r = JsonValue::Object(fields);
    proof {
        assert(r@->Object_0[0].1 == tdv);
        assert(r@->Object_0 =~= did_open_params(uri@, version as int, text@)->Object_0);
    }
    r
}

impl CustomNotificationsMiddleware {
    /// A fresh interceptor.
    pub fn new() -> (r: Self) {
        CustomNotificationsMiddleware
    }

    /// Whether `method` is a Roslyn extension method.
    pub fn is_roslyn_custom_notification(&self, method: &str) -> (r: bool)
        ensures
            r == spec_is_roslyn_custom(method@),
    {
        crate::text::starts_with(method, "workspace/_roslyn_") || crate::text::starts_with(
            method,
            "roslyn/",
        ) || crate::text::str_eq(method, "workspace/projectInitializationComplete")
    }

    /// Whether messages with this method are dropped outright.
    pub fn should_block_notification(&self, method: &str) -> (r: bool)
        ensures
            r == spec_should_block(method@),
    {
        crate::text::str_eq(method, "workspace/_roslyn_projectNeedsRestore")
    }

    /// Whether this notification is rewritten into a document-open.
    pub fn should_convert_notification(&self, method: &str) -> (r: bool)
        ensures
            r == spec_should_convert(method@),
    {
        crate::text::str_eq(method, "workspace/_roslyn_openDocument")
    }

    /// Whether this notification merely passes through with a note.
    pub fn should_log_notification(&self, method: &str) -> (r: bool)
        ensures
            r == spec_should_log(method@),
    {
        crate::text::str_eq(method, "roslyn/beginMetadataAsSource") || crate::text::str_eq(
            method,
            "roslyn/endMetadataAsSource",
        )
    }

    /// The document-open rewrite, when the notification is well-formed.
    pub fn convert_open_document(&self, notif: &NotificationMessage) -> (r: Option<
        NotificationMessage,
    >)
        ensures
            match r {
                Some(c) => spec_convert_open_document(notif@) == Some(c@),
                None => spec_convert_open_document(notif@) is None,
            },
    {
        let params = match &notif.params {
            Some(p) => p,
            None => {
                return None;
            },
        };
        let uri = match params.get("uri") {
            Some(v) => match v.as_str() {
                Some(s) => s,
                None => {
                    return None;
                },
            },
            None => {
                return None;
            },
        };
        let text = match params.get("text") {
            Some(v) => match v.as_str() {
                Some(s) => s,
                None => {
                    return None;
                },
            },
            None => {
                return None;
            },
        };
        Some(
            NotificationMessage {
                jsonrpc: crate::message::jsonrpc_version(),
                method: crate::text::str_of("textDocument/didOpen"),
                params: Some(make_did_open_params(uri.as_str(), 1, text.as_str())),
            },
        )
    }

    /// Client-bound messages pass through untouched.
    pub fn process_client_message(&self, message: &Message) -> (a: Action)
        ensures
            a@ == ActionView::Continue,
    {
        Action::Continue
    }

    /// Block, rewrite, or pass Roslyn extension messages.
    pub fn process_server_message(&self, message: &Message) -> (a: Action)
        ensures
            a@ == server_action(message@),
    {
        match message {
            Message::Request(req) => {
                if self.is_roslyn_custom_notification(req.method.as_str())
                    && self.should_block_notification(req.method.as_str()) {
                    Action::Block
                } else {
                    Action::Continue
                }
            },
            Message::Notification(notif) => {
                if self.is_roslyn_custom_notification(notif.method.as_str()) {
                    if self.should_block_notification(notif.method.as_str()) {
                        Action::Block
                    } else if self.should_log_notification(notif.method.as_str()) {
                        Action::Continue
                    } else if self.should_convert_notification(notif.method.as_str()) {
                        match self.convert_open_document(notif) {
                            Some(converted) => Action::Replace(Message::Notification(converted)),
                            None => Action::Block,
                        }
                    } else {
                        Action::Continue
                    }
                } else {
                    Action::Continue
                }
            },
            Message::Response(_) => Action::Continue,
        }
    }
}

} // verus!
