//! Normalizes diagnostic responses.
//!
//! The interceptor remembers the id of every client `textDocument/diagnostic`
//! request. When a server response matching a remembered id arrives with an
//! absent or `null` result, the result is rewritten to an empty full report,
//! `{kind: "full", items: []}`; the remembered id is forgotten once matched.

use vstd::prelude::*;
use crate::json::{JsonValue, JsonView};
use crate::message::{IdView, Message, MessageId, MessageView, ResponseMessage, ResponseView};
use crate::middleware::{Action, ActionView};

verus! {

broadcast use vstd::std_specs::vec::group_vec_axioms;

/// The interceptor that fills in empty diagnostic responses.
pub struct DiagnosticsMiddleware {
    diagnostic_requests: Vec<MessageId>,
}

/// The views of a list of remembered ids.
pub open spec fn ids_view(s: Seq<MessageId>) -> Seq<IdView> {
    Seq::new(s.len(), |i: int| s[i]@)
}

/// `s` without its first occurrence of `x`.
pub open spec fn remove_first_id(s: Seq<IdView>, x: IdView) -> Seq<IdView>
    decreases s.len(),
{
    if s.len() == 0 {
        s
    } else if s[0] == x {
        s.drop_first()
    } else {
        seq![s[0]] + remove_first_id(s.drop_first(), x)
    }
}

/// Removing the first occurrence removes exactly the element at the first
/// matching index.
proof fn lemma_remove_first_id_at(s: Seq<IdView>, x: IdView, i: int)
    requires
        0 <= i < s.len(),
        s[i] == x,
        forall|j: int| 0 <= j < i ==> s[j] != x,
    ensures
        remove_first_id(s, x) =~= s.remove(i),
    decreases s.len(),
{
    if i > 0 {
        lemma_remove_first_id_at(s.drop_first(), x, i - 1);
        assert(remove_first_id(s, x) =~= seq![s[0]] + s.drop_first().remove(i - 1));
    }
}

/// The empty full diagnostic report, `{kind: "full", items: []}`.
pub open spec fn empty_full_report() -> JsonView {
    JsonView::Object(
        seq![
            ("kind"@, JsonView::Str("full"@)),
            ("items"@, JsonView::Array(Seq::empty())),
        ],
    )
}

/// A response result that must be filled in: absent or JSON `null`.
pub open spec fn needs_fill(result: Option<JsonView>) -> bool {
    match result {
        None => true,
        Some(v) => v is Null,
    }
}

/// What the interceptor does with a client-bound message: it remembers the id
/// of every diagnostic request and lets everything pass.
pub open spec fn client_step(pre: Seq<IdView>, m: MessageView) -> (Seq<IdView>, ActionView) {
    match m {
        MessageView::Request(r) => {
            if r.method == "textDocument/diagnostic"@ && !pre.contains(r.id) {
                (pre.push(r.id), ActionView::Continue)
            } else {
                (pre, ActionView::Continue)
            }
        },
        _ => (pre, ActionView::Continue),
    }
}

/// What the interceptor does with a server-originated message: a response
/// matching a remembered id is forgotten, and rewritten to carry the empty
/// full report when its result is absent or `null`.
pub open spec fn server_step(pre: Seq<IdView>, m: MessageView) -> (Seq<IdView>, ActionView) {
    match m {
        MessageView::Response(r) => {
            if pre.contains(r.id) {
                let post = remove_first_id(pre, r.id);
                if needs_fill(r.result) {
                    (
                        post,
                        ActionView::Replace(
                            MessageView::Response(
                                ResponseView { result: Some(empty_full_report()), ..r },
                            ),
                        ),
                    )
                } else {
                    (post, ActionView::Continue)
                }
            } else {
                (pre, ActionView::Continue)
            }
        },
        _ => (pre, ActionView::Continue),
    }
}

impl View for DiagnosticsMiddleware {
    type V = Seq<IdView>;

    closed spec fn view(&self) -> Seq<IdView> {
        ids_view(self.diagnostic_requests@)
    }
}

/// Index of the first remembered id equal to `id`.
fn find_id(ids: &Vec<MessageId>, id: &MessageId) -> (r: Option<usize>)
    ensures
        match r {
            Some(i) => i < ids@.len() && ids_view(ids@)[i as int] == id@ && forall|j: int|
                0 <= j < i ==> ids_view(ids@)[j] != id@,
            None => !ids_view(ids@).contains(id@),
        },
{
    let n = ids.len();
    let mut i: usize = 0;
    while i < n
        invariant
            n == ids@.len(),
            0 <= i <= n,
            forall|j: int| 0 <= j < i ==> ids_view(ids@)[j] != id@,
        decreases n - i,
    {
        if ids[i].eq_id(id) {
            return Some(i);
        }
        i = i + 1;
    }
    proof {
        if ids_view(ids@).contains(id@) {
            let w = choose|w: int| 0 <= w < ids@.len() && ids_view(ids@)[w] == id@;
        }
    }
    None
}

/// The empty full diagnostic report as a value.
fn make_empty_full_report() -> (r: JsonValue)
    ensures
        r@ == empty_full_report(),
{
    let mut fields: Vec<(String, JsonValue)> = Vec::new();
    fields.push((crate::text::str_of("kind"), JsonValue::of_str("full")));
    let no_items: Vec<JsonValue> = Vec::new();
    fields.push((crate::text::str_of("items"), JsonValue::Array(no_items)));
    let r = JsonValue::Object(fields);
    proof {
        assert(crate::json::json_view(JsonValue::Array(no_items))->Array_0 =~= Seq::<
            JsonView,
        >::empty());
        assert(r@->Object_0[1].1 == JsonView::Array(Seq::<JsonView>::empty()));
        assert(r@->Object_0 =~= empty_full_report()->Object_0);
    }
    r
}

impl DiagnosticsMiddleware {
    /// A fresh interceptor with nothing remembered.
    pub fn new() -> (r: Self)
        ensures
            r@ =~= Seq::<IdView>::empty(),
    {
        DiagnosticsMiddleware { diagnostic_requests: Vec::new() }
    }

    /// Remember the id of every client diagnostic request; pass everything.
    pub fn process_client_message(&mut self, message: &Message) -> (a: Action)
        ensures
            (final(self)@, a@) == client_step(old(self)@, message@),
    {
        if let Message::Request(req) = message {
            if crate::text::str_eq(req.method.as_str(), "textDocument/diagnostic") {
                if find_id(&self.diagnostic_requests, &req.id).is_none() {
                    let ghost pre = self@;
                    self.diagnostic_requests.push(req.id.dup());
                    proof {
                        assert(self@ =~= pre.push(req.id@));
                    }
                }
            }
        }
        Action::Continue
    }

    /// Forget a matched id; fill in an absent or `null` diagnostic result.
    pub fn process_server_message(&mut self, message: &Message) -> (a: Action)
        ensures
            (final(self)@, a@) == server_step(old(self)@, message@),
    {
        if let Message::Response(resp) = message {
            let ghost pre = self@;
            if let Some(i) = find_id(&self.diagnostic_requests, &resp.id) {
                proof {
                    assert(pre.contains(resp.id@));
                    lemma_remove_first_id_at(pre, resp.id@, i as int);
                }
                self.diagnostic_requests.remove(i);
                proof {
                    assert(self@ =~= pre.remove(i as int));
                }
                let null_result = match &resp.result {
                    None => true,
                    Some(v) => v.is_null(),
                };
                if null_result {
                    return Action::Replace(
                        Message::Response(
                            ResponseMessage {
                                jsonrpc: resp.jsonrpc.clone(),
                                id: resp.id.dup(),
                                result: Some(make_empty_full_report()),
                                error: match &resp.error {
                                    Some(e) => Some(
                                        crate::message::ResponseError {
                                            code: e.code,
                                            message: e.message.clone(),
                                            data: crate::message::dup_params(&e.data),
                                        },
                                    ),
                                    None => None,
                                },
                            },
                        ),
                    );
                }
            }
        }
        Action::Continue
    }
}

/// Law: a server response matched to a remembered diagnostic request whose
/// result is absent or `null` is rewritten to the empty full report, and only
/// its result changes; every other message passes unchanged.
pub proof fn lemma_diagnostics_null_fill(pre: Seq<IdView>, m: MessageView)
    ensures
        server_step(pre, m).1 == (match m {
            MessageView::Response(r) => {
                if pre.contains(r.id) && needs_fill(r.result) {
                    ActionView::Replace(
                        MessageView::Response(
                            ResponseView { result: Some(empty_full_report()), ..r },
                        ),
                    )
                } else {
                    ActionView::Continue
                }
            },
            _ => ActionView::Continue,
        }),
{
}

} // verus!
