//! Acknowledges `client/registerCapability` requests on the client's behalf.
//!
//! The downstream server registers capabilities dynamically; the proxy
//! answers every such request with a `null` result and never forwards it.

use vstd::prelude::*;
use crate::json::JsonValue;
use crate::message::{jsonrpc_tag, Message, MessageView, ResponseView};
use crate::middleware::{Action, ActionView};

verus! {

/// The interceptor that acknowledges capability registrations.
pub struct CapabilityRegistrationMiddleware;

/// The action taken on a server-originated message: a registration request is
/// answered locally with a `null` result; everything else passes.
pub open spec fn server_action(m: MessageView) -> ActionView {
    match m {
        MessageView::Request(r) => {
            if r.method == "client/registerCapability"@ {
                ActionView::Replace(
                    MessageView::Response(
                        ResponseView {
                            jsonrpc: jsonrpc_tag(),
                            id: r.id,
                            result: Some(crate::json::JsonView::Null),
                            error: None,
                        },
                    ),
                )
            } else {
                ActionView::Continue
            }
        },
        _ => ActionView::Continue,
    }
}

impl CapabilityRegistrationMiddleware {
    /// A fresh interceptor.
    pub fn new() -> (r: Self) {
        CapabilityRegistrationMiddleware
    }

    /// Client-bound messages pass through untouched.
    pub fn process_client_message(&self, message: &Message) -> (a: Action)
        ensures
            a@ == ActionView::Continue,
    {
        Action::Continue
    }

    /// Answer registration requests locally; pass everything else.
    pub fn process_server_message(&self, message: &Message) -> (a: Action)
        ensures
            a@ == server_action(message@),
    {
        if let Message::Request(req) = message {
            if crate::text::str_eq(req.method.as_str(), "client/registerCapability") {
                return Action::Replace(Message::response_ok(req.id.dup(), JsonValue::Null));
            }
        }
        Action::Continue
    }
}

} // verus!
