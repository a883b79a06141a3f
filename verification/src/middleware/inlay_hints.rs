//! A passive stage kept as a hook point for inlay-hint traffic: it lets
//! every message pass.

use vstd::prelude::*;
use crate::message::Message;
use crate::middleware::{Action, ActionView};

verus! {

/// The interceptor reserved for inlay-hint handling.
pub struct InlayHintsMiddleware;

impl InlayHintsMiddleware {
    /// A fresh interceptor.
    pub fn new() -> (r: Self) {
        InlayHintsMiddleware
    }

    /// Client-bound messages pass through untouched.
    pub fn process_client_message(&self, message: &Message) -> (a: Action)
        ensures
            a@ == ActionView::Continue,
    {
        Action::Continue
    }

    /// Server-bound messages pass through untouched.
    pub fn process_server_message(&self, message: &Message) -> (a: Action)
        ensures
            a@ == ActionView::Continue,
    {
        Action::Continue
    }
}

} // verus!
