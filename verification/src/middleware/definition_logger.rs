//! A passive stage kept for observability: it inspects definition traffic and
//! lets every message pass.

use vstd::prelude::*;
use crate::message::Message;
use crate::middleware::{Action, ActionView};

verus! {

/// The interceptor that watches definition requests without acting on them.
pub struct DefinitionLoggerMiddleware;

impl DefinitionLoggerMiddleware {
    /// A fresh interceptor.
    pub fn new() -> (r: Self) {
        DefinitionLoggerMiddleware
    }

    /// Client-bound messages pass through untouched.
    pub fn process_client_message(&self, message: &Message) -> (a: Action)
        ensures
            a@ == ActionView::Continue,
    {
        Action::Continue
    }

    /// Server-bound messages pass through untouched.
    pub fn process_server_message(&self, message: &Message) -> (a: Action)
        ensures
            a@ == ActionView::Continue,
    {
        Action::Continue
    }
}

} // verus!
