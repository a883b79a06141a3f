//! A passive stage kept as a hook point for initialization traffic: it lets
//! every message pass.

use vstd::prelude::*;
use crate::message::Message;
use crate::middleware::{Action, ActionView};

verus! {

/// The interceptor reserved for initialization handling.
pub struct InitializationMiddleware;

impl InitializationMiddleware {
    /// A fresh interceptor.
    pub fn new() -> (r: Self) {
        InitializationMiddleware
    }

    /// Client-bound messages pass through untouched.
    pub fn process_client_message(&self, message: &Message) -> (a: Action)
        ensures
            a@ == ActionView::Continue,
    {
        Action::Continue
    }

    /// Server-bound messages pass through untouched.
    pub fn process_server_message(&self, message: &Message) -> (a: Action)
        ensures
            a@ == ActionView::Continue,
    {
        Action::Continue
    }
}

} // verus!
