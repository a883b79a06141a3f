//! Normalizes server-originated refresh requests whose `params` field is an
//! array or `null`: the protocol declares these methods parameter-less, so
//! the offending field is removed before the message reaches the client.

use vstd::prelude::*;
use crate::json::{JsonValue, JsonView};
use crate::message::{Message, MessageView, NotificationMessage, RequestMessage};
use crate::middleware::{Action, ActionView};

verus! {

/// The interceptor that strips malformed refresh parameters.
pub struct RefreshMiddleware;

/// A method the server uses to ask the client to refresh derived data.
pub open spec fn spec_is_refresh_method(m: Seq<char>) -> bool {
    ||| m == "workspace/diagnostic/refresh"@
    ||| m == "workspace/codeLens/refresh"@
    ||| m == "workspace/inlayHint/refresh"@
    ||| m == "workspace/semanticTokens/refresh"@
}

/// A params field that must be removed: present but an array or `null`.
pub open spec fn spec_should_fix_params(p: Option<JsonView>) -> bool {
    match p {
        Some(v) => v is Array || v is Null,
        None => false,
    }
}

/// The action taken on a server-originated message: refresh requests and
/// notifications with array or `null` params are replaced by the same
/// message without params; everything else passes.
pub open spec fn server_action(m: MessageView) -> ActionView {
    match m {
        MessageView::Request(r) => {
            if spec_is_refresh_method(r.method) && spec_should_fix_params(r.params) {
                ActionView::Replace(
                    MessageView::Request(crate::message::RequestView { params: None, ..r }),
                )
            } else {
                ActionView::Continue
            }
        },
        MessageView::Notification(n) => {
            if spec_is_refresh_method(n.method) && spec_should_fix_params(n.params) {
                ActionView::Replace(
                    MessageView::Notification(
                        crate::message::NotificationView { params: None, ..n },
                    ),
                )
            } else {
                ActionView::Continue
            }
        },
        _ => ActionView::Continue,
    }
}

impl RefreshMiddleware {
    /// A fresh interceptor.
    pub fn new() -> (r: Self) {
        RefreshMiddleware
    }

    /// Whether `method` is one of the refresh methods.
    pub fn is_refresh_method(&self, method: &str) -> (r: bool)
        ensures
            r == spec_is_refresh_method(method@),
    {
        crate::text::str_eq(method, "workspace/diagnostic/refresh") || crate::text::str_eq(
            method,
            "workspace/codeLens/refresh",
        ) || crate::text::str_eq(method, "workspace/inlayHint/refresh") || crate::text::str_eq(
            method,
            "workspace/semanticTokens/refresh",
        )
    }

    /// Whether a params field is present but an array or `null`.
    pub fn should_fix_params(&self, params: &Option<JsonValue>) -> (r: bool)
        ensures
            r == spec_should_fix_params(crate::message::opt_json_view(*params)),
    {
        match params {
            Some(JsonValue::Array(_)) => true,
            Some(JsonValue::Null) => true,
            _ => false,
        }
    }

    /// Client-bound messages pass through untouched.
    pub fn process_client_message(&self, message: &Message) -> (a: Action)
        ensures
            a@ == ActionView::Continue,
    {
        Action::Continue
    }

    /// Strip array or `null` params from refresh messages.
    pub fn process_server_message(&self, message: &Message) -> (a: Action)
        ensures
            a@ == server_action(message@),
    {
        match message {
            Message::Request(req) => {
                if self.is_refresh_method(req.method.as_str()) && self.should_fix_params(
                    &req.params,
                ) {
                    return Action::Replace(
                        Message::Request(
                            RequestMessage {
                                jsonrpc: req.jsonrpc.clone(),
                                id: req.id.dup(),
                                method: req.method.clone(),
                                params: None,
                            },
                        ),
                    );
                }
            },
            Message::Notification(notif) => {
                if self.is_refresh_method(notif.method.as_str()) && self.should_fix_params(
                    &notif.params,
                ) {
                    return Action::Replace(
                        Message::Notification(
                            NotificationMessage {
                                jsonrpc: notif.jsonrpc.clone(),
                                method: notif.method.clone(),
                                params: None,
                            },
                        ),
                    );
                }
            },
            _ => {},
        }
        Action::Continue
    }
}

} // verus!
