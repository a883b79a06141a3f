//! Synthesizes `textDocument/didOpen` notifications for C# documents the
//! client asks about without ever opening.
//!
//! The interceptor tracks the set of URIs the client has declared open. For a
//! client request about a `.cs` document outside that set it injects a
//! document-open notification carrying the file's current text (version 0),
//! so the injected open reaches the server before the request that needs it.
//! When the text cannot be read, nothing is injected and the request passes.

use vstd::prelude::*;
use crate::json::{json_get, JsonView};
use crate::message::{jsonrpc_tag, Message, MessageView, NotificationView};
use crate::middleware::{custom::did_open_params, table_lookup, Action, ActionView, Env, EnvView,
    Query, QueryView};
use crate::text::{remove_first_str, strs_view};

verus! {

broadcast use vstd::std_specs::vec::group_vec_axioms;

/// The interceptor that keeps the set of open documents and fills the gaps.
pub struct DocumentLifecycleMiddleware {
    opened_documents: Vec<String>,
}

impl View for DocumentLifecycleMiddleware {
    type V = Seq<Seq<char>>;

    closed spec fn view(&self) -> Seq<Seq<char>> {
        strs_view(self.opened_documents@)
    }
}

/// The `textDocument.uri` member of a payload, when it is a string.
pub open spec fn doc_uri_of(params: Option<JsonView>) -> Option<Seq<char>> {
    match params {
        Some(p) => match json_get(p, "textDocument"@) {
            Some(td) => match json_get(td, "uri"@) {
                Some(JsonView::Str(u)) => Some(u),
                _ => None,
            },
            _ => None,
        },
        None => None,
    }
}

/// The set with `u` added, unless already present.
pub open spec fn opened_insert(pre: Seq<Seq<char>>, u: Seq<char>) -> Seq<Seq<char>> {
    if pre.contains(u) {
        pre
    } else {
        pre.push(u)
    }
}

/// A request that needs a synthesized open: it names a `.cs` document the
/// client never opened.
pub open spec fn wants_open(pre: Seq<Seq<char>>, m: MessageView) -> Option<Seq<char>> {
    match m {
        MessageView::Request(r) => match doc_uri_of(r.params) {
            Some(u) => {
                if !pre.contains(u) && ".cs"@.is_suffix_of(u) {
                    Some(u)
                } else {
                    None
                }
            },
            None => None,
        },
        _ => None,
    }
}

/// The synthesized document-open notification for `u` with the given text.
pub open spec fn synthesized_open(u: Seq<char>, text: Seq<char>) -> MessageView {
    MessageView::Notification(
        NotificationView {
            jsonrpc: jsonrpc_tag(),
            method: "textDocument/didOpen"@,
            params: Some(did_open_params(u, 0, text)),
        },
    )
}

/// What the interceptor does with a client-bound message.
pub open spec fn client_step(pre: Seq<Seq<char>>, m: MessageView, env: EnvView) -> (
    Seq<Seq<char>>,
    ActionView,
) {
    match m {
        MessageView::Notification(n) => {
            if n.method == "textDocument/didOpen"@ {
                match doc_uri_of(n.params) {
                    Some(u) => (opened_insert(pre, u), ActionView::Continue),
                    None => (pre, ActionView::Continue),
                }
            } else if n.method == "textDocument/didClose"@ {
                match doc_uri_of(n.params) {
                    Some(u) => (remove_first_str(pre, u), ActionView::Continue),
                    None => (pre, ActionView::Continue),
                }
            } else {
                (pre, ActionView::Continue)
            }
        },
        MessageView::Request(_) => {
            match wants_open(pre, m) {
                Some(u) => match table_lookup(env.files, u) {
                    Some(text) => (
                        opened_insert(pre, u),
                        ActionView::Inject(seq![synthesized_open(u, text)]),
                    ),
                    None => (pre, ActionView::Continue),
                },
                None => (pre, ActionView::Continue),
            }
        },
        _ => (pre, ActionView::Continue),
    }
}

/// The reads the interceptor needs: the text of a document it would open.
pub open spec fn queries_spec(pre: Seq<Seq<char>>, m: MessageView) -> Seq<QueryView> {
    match wants_open(pre, m) {
        Some(u) => seq![QueryView::FileOfUri(u)],
        None => Seq::empty(),
    }
}

impl DocumentLifecycleMiddleware {
    /// A fresh interceptor: no document is open.
    pub fn new() -> (r: Self)
        ensures
            r@ =~= Seq::<Seq<char>>::empty(),
    {
        DocumentLifecycleMiddleware { opened_documents: Vec::new() }
    }

    /// The `textDocument.uri` member of a request's params.
    fn extract_uri_from_request<'a>(&self, message: &'a Message) -> (r: Option<&'a String>)
        ensures
            match message@ {
                MessageView::Request(rv) => match r {
                    Some(u) => doc_uri_of(rv.params) == Some(u@),
                    None => doc_uri_of(rv.params) is None,
                },
                _ => r is None,
            },
    {
        if let Message::Request(req) = message {
            if let Some(params) = &req.params {
                if let Some(td) = params.get("textDocument") {
                    if let Some(uri) = td.get("uri") {
                        if let Some(s) = uri.as_str() {
                            return Some(s);
                        }
                    }
                }
            }
        }
        None
    }

    /// The `textDocument.uri` member of a notification's params.
    fn extract_uri_from_notification<'a>(&self, params: &'a Option<crate::json::JsonValue>) -> (r:
        Option<&'a String>)
        ensures
            match r {
                Some(u) => doc_uri_of(crate::message::opt_json_view(*params)) == Some(u@),
                None => doc_uri_of(crate::message::opt_json_view(*params)) is None,
            },
    {
        if let Some(p) = params {
            if let Some(td) = p.get("textDocument") {
                if let Some(uri) = td.get("uri") {
                    if let Some(s) = uri.as_str() {
                        return Some(s);
                    }
                }
            }
        }
        None
    }

    /// Track opens and closes; synthesize an open for an unopened `.cs`
    /// document a request names, when its text could be read.
    pub fn process_client_message(&mut self, message: &Message, env: &Env) -> (a: Action)
        ensures
            (final(self)@, a@) == client_step(old(self)@, message@, env@),
    {
        let ghost pre = self@;
        match message {
            Message::Notification(notif) => {
                if crate::text::str_eq(notif.method.as_str(), "textDocument/didOpen") {
                    let uri = match self.extract_uri_from_notification(&notif.params) {
                        Some(u) => Some(u.clone()),
                        None => None,
                    };
                    if let Some(u) = uri {
                        crate::text::strs_insert(&mut self.opened_documents, u.as_str());
                    }
                } else if crate::text::str_eq(notif.method.as_str(), "textDocument/didClose") {
                    let uri = match self.extract_uri_from_notification(&notif.params) {
                        Some(u) => Some(u.clone()),
                        None => None,
                    };
                    if let Some(u) = uri {
                        crate::text::strs_remove(&mut self.opened_documents, u.as_str());
                    }
                }
                Action::Continue
            },
            Message::Request(_) => {
                let uri = match self.extract_uri_from_request(message) {
                    Some(u) => Some(u.clone()),
                    None => None,
                };
                if let Some(u) = uri {
                    if !crate::text::strs_contains(&self.opened_documents, u.as_str())
                        && crate::text::ends_with(u.as_str(), ".cs") {
                        if let Some(text) = env.file_of_uri(u.as_str()) {
                            let text = text.clone();
                            let notif = Message::notification(
                                "textDocument/didOpen",
                                Some(
                                    crate::middleware::custom::make_did_open_params(
                                        u.as_str(),
                                        0,
                                        text.as_str(),
                                    ),
                                ),
                            );
                            crate::text::strs_insert(&mut self.opened_documents, u.as_str());
                            let mut injected: Vec<Message> = Vec::new();
                            injected.push(notif);
                            proof {
                                assert(crate::message::msgs_view(injected@) =~= seq![
                                    synthesized_open(u@, text@),
                                ]);
                            }
                            return Action::Inject(injected);
                        }
                    }
                }
                Action::Continue
            },
            _ => Action::Continue,
        }
    }

    /// Server-originated messages pass through untouched.
    pub fn process_server_message(&self, message: &Message) -> (a: Action)
        ensures
            a@ == ActionView::Continue,
    {
        Action::Continue
    }

    /// The reads this interceptor needs answered for `message`.
    pub fn queries(&self, message: &Message) -> (r: Vec<Query>)
        ensures
            crate::middleware::queries_view(r@) =~= queries_spec(self@, message@),
    {
        let mut out: Vec<Query> = Vec::new();
        if let Message::Request(_) = message {
            if let Some(u) = self.extract_uri_from_request(message) {
                if !crate::text::strs_contains(&self.opened_documents, u.as_str())
                    && crate::text::ends_with(u.as_str(), ".cs") {
                    out.push(Query::FileOfUri(u.clone()));
                }
            }
        }
        proof {
            assert(crate::middleware::queries_view(out@) =~= queries_spec(self@, message@));
        }
        out
    }
}

} // verus!
