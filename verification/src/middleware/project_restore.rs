//! Coordinates project-restore cycles.
//!
//! The server announces `workspace/_roslyn_projectNeedsRestore` repeatedly and
//! in bursts. The interceptor keeps one `in_progress` flag and the set of
//! UUIDs already seen: duplicates and concurrent triggers are suppressed (a
//! request is answered `{needed_restore: false}`, a notification is blocked);
//! a fresh notification trigger injects a single `workspace/_roslyn_restore`
//! request, its listed paths resolved to their nearest project files, under a
//! fresh id from a private generator. `workspace/_roslyn_restoreComplete`
//! ends the cycle.

use vstd::prelude::*;
use crate::json::{json_get, json_set, JsonValue, JsonView};
use crate::message::{jsonrpc_tag, IdView, Message, MessageId, MessageView, RequestView,
    ResponseView};
use crate::middleware::{table_lookup, Action, ActionView, Env, EnvView, Query, QueryView};
use crate::text::{remove_first_str, strs_view};

verus! {

broadcast use vstd::std_specs::vec::group_vec_axioms;

/// The interceptor that deduplicates restore cycles.
pub struct ProjectRestoreMiddleware {
    request_id: i64,
    in_progress: bool,
    pending_uuids: Vec<String>,
}

/// The mathematical state of a [`ProjectRestoreMiddleware`].
#[verifier::ext_equal]
pub struct RestoreView {
    pub request_id: int,
    pub in_progress: bool,
    pub pending: Seq<Seq<char>>,
}

impl View for ProjectRestoreMiddleware {
    type V = RestoreView;

    closed spec fn view(&self) -> RestoreView {
        RestoreView {
            request_id: self.request_id as int,
            in_progress: self.in_progress,
            pending: strs_view(self.pending_uuids@),
        }
    }
}

/// The `UUID` member of a payload, when it is a string.
pub open spec fn uuid_of(params: Option<JsonView>) -> Option<Seq<char>> {
    match params {
        Some(p) => match json_get(p, "UUID"@) {
            Some(JsonView::Str(u)) => Some(u),
            _ => None,
        },
        None => None,
    }
}

/// The local answer to a restore request: `{needed_restore: <needed>}`.
pub open spec fn needed_restore_response(id: IdView, needed: bool) -> MessageView {
    MessageView::Response(
        ResponseView {
            jsonrpc: jsonrpc_tag(),
            id: id,
            result: Some(JsonView::Object(seq![("needed_restore"@, JsonView::Bool(needed))])),
            error: None,
        },
    )
}

/// A listed path resolved for the restore request: a `.csproj` path stands as
/// it is; any other is replaced by the project file found near it, when the
/// search found one.
pub open spec fn resolve_path(p: Seq<char>, projects: Seq<(Seq<char>, Seq<char>)>) -> Seq<char> {
    if ".csproj"@.is_suffix_of(p) {
        p
    } else {
        match table_lookup(projects, p) {
            Some(pf) => pf,
            None => p,
        }
    }
}

/// The listed paths resolved in order; entries that are not strings are
/// dropped.
pub open spec fn resolved_paths(
    items: Seq<JsonView>,
    projects: Seq<(Seq<char>, Seq<char>)>,
) -> Seq<JsonView>
    decreases items.len(),
{
    if items.len() == 0 {
        Seq::empty()
    } else {
        let rest = resolved_paths(items.drop_first(), projects);
        match items[0] {
            JsonView::Str(s) => seq![JsonView::Str(resolve_path(s, projects))] + rest,
            _ => rest,
        }
    }
}

/// The restore request's params: the original payload with its
/// `projectFilePaths` list resolved; defined when the payload carries one.
pub open spec fn transform_params(
    p: Option<JsonView>,
    projects: Seq<(Seq<char>, Seq<char>)>,
) -> Option<JsonView> {
    match p {
        Some(pv) => match json_get(pv, "projectFilePaths"@) {
            Some(JsonView::Array(items)) => Some(
                json_set(pv, "projectFilePaths"@, JsonView::Array(resolved_paths(items, projects))),
            ),
            _ => None,
        },
        None => None,
    }
}

/// The next value of the private id generator; the generator sticks at its
/// ceiling rather than wrap.
pub open spec fn bump(id: int) -> int {
    if id < i64::MAX {
        id + 1
    } else {
        id
    }
}

/// The injected restore request for a fresh notification trigger.
pub open spec fn restore_request(pre: RestoreView, n_params: Option<JsonView>, env: EnvView) -> MessageView {
    MessageView::Request(
        RequestView {
            jsonrpc: jsonrpc_tag(),
            id: IdView::Number(pre.request_id),
            method: "workspace/_roslyn_restore"@,
            params: match transform_params(n_params, env.projects) {
                Some(t) => Some(t),
                None => n_params,
            },
        },
    )
}

/// What the interceptor does with a server-originated message.
pub open spec fn server_step(pre: RestoreView, m: MessageView, env: EnvView) -> (
    RestoreView,
    ActionView,
) {
    match m {
        MessageView::Request(r) => {
            if r.method == "workspace/_roslyn_projectNeedsRestore"@ {
                let uuid = uuid_of(r.params);
                if uuid matches Some(u) && pre.pending.contains(u) {
                    (pre, ActionView::Replace(needed_restore_response(r.id, false)))
                } else {
                    let pre1 = match uuid {
                        Some(u) => RestoreView { pending: pre.pending.push(u), ..pre },
                        None => pre,
                    };
                    if pre.in_progress {
                        (pre1, ActionView::Replace(needed_restore_response(r.id, false)))
                    } else {
                        (
                            RestoreView { in_progress: true, ..pre1 },
                            ActionView::Replace(needed_restore_response(r.id, true)),
                        )
                    }
                }
            } else {
                (pre, ActionView::Continue)
            }
        },
        MessageView::Notification(n) => {
            if n.method == "workspace/_roslyn_projectNeedsRestore"@ {
                let uuid = uuid_of(n.params);
                if uuid matches Some(u) && pre.pending.contains(u) {
                    (pre, ActionView::Block)
                } else {
                    let pre1 = match uuid {
                        Some(u) => RestoreView { pending: pre.pending.push(u), ..pre },
                        None => pre,
                    };
                    if pre.in_progress {
                        (pre1, ActionView::Block)
                    } else {
                        (
                            RestoreView {
                                request_id: bump(pre.request_id),
                                in_progress: true,
                                pending: pre1.pending,
                            },
                            ActionView::Inject(seq![restore_request(pre, n.params, env)]),
                        )
                    }
                }
            } else if n.method == "workspace/_roslyn_restoreComplete"@ {
                let pending1 = match uuid_of(n.params) {
                    Some(u) => remove_first_str(pre.pending, u),
                    None => pre.pending,
                };
                (
                    RestoreView { in_progress: false, pending: pending1, ..pre },
                    ActionView::Continue,
                )
            } else {
                (pre, ActionView::Continue)
            }
        },
        _ => (pre, ActionView::Continue),
    }
}

/// The reads the interceptor needs: the nearest project file for each listed
/// path that does not already name one.
pub open spec fn query_paths(items: Seq<JsonView>) -> Seq<QueryView>
    decreases items.len(),
{
    if items.len() == 0 {
        Seq::empty()
    } else {
        let rest = query_paths(items.drop_first());
        match items[0] {
            JsonView::Str(s) => {
                if !".csproj"@.is_suffix_of(s) {
                    seq![QueryView::ProjectFileNear(s)] + rest
                } else {
                    rest
                }
            },
            _ => rest,
        }
    }
}

/// The reads needed for one message: resolution queries for a restore
/// notification's listed paths.
pub open spec fn queries_spec(m: MessageView) -> Seq<QueryView> {
    match m {
        MessageView::Notification(n) => {
            if n.method == "workspace/_roslyn_projectNeedsRestore"@ {
                match n.params {
                    Some(p) => match json_get(p, "projectFilePaths"@) {
                        Some(JsonView::Array(items)) => query_paths(items),
                        _ => Seq::empty(),
                    },
                    None => Seq::empty(),
                }
            } else {
                Seq::empty()
            }
        },
        _ => Seq::empty(),
    }
}

/// The `{needed_restore: <needed>}` answer as a message.
fn make_needed_restore_response(id: &MessageId, needed: bool) -> (r: Message)
    ensures
        r@ == needed_restore_response(id@, needed),
{
    let mut fields: Vec<(String, JsonValue)> = Vec::new();
    fields.push((crate::text::str_of("needed_restore"), JsonValue::Bool(needed)));
    let result = JsonValue::Object(fields);
    proof {
        assert(result@->Object_0[0].1 == crate::json::json_view(JsonValue::Bool(needed)));
        assert(result@->Object_0 =~= seq![("needed_restore"@, JsonView::Bool(needed))]);
    }
    Message::response_ok(id.dup(), result)
}

/// The `UUID` member of a payload, as a fresh string.
fn extract_uuid(params: &Option<JsonValue>) -> (r: Option<String>)
    ensures
        match r {
            Some(u) => uuid_of(crate::message::opt_json_view(*params)) == Some(u@),
            None => uuid_of(crate::message::opt_json_view(*params)) is None,
        },
{
    if let Some(p) = params {
        if let Some(v) = p.get("UUID") {
            if let Some(s) = v.as_str() {
                return Some(s.clone());
            }
        }
    }
    None
}

impl ProjectRestoreMiddleware {
    /// A fresh interceptor: no cycle running, ids start at 90000.
    pub fn new() -> (r: Self)
        ensures
            r@ == (RestoreView {
                request_id: 90000int,
                in_progress: false,
                pending: Seq::<Seq<char>>::empty(),
            }),
    {
        let r = ProjectRestoreMiddleware {
            request_id: 90000,
            in_progress: false,
            pending_uuids: Vec::new(),
        };
        proof {
            assert(strs_view(r.pending_uuids@) =~= Seq::<Seq<char>>::empty());
        }
        r
    }

    /// A fresh id from the private generator.
    pub fn next_request_id(&mut self) -> (r: MessageId)
        ensures
            r@ == IdView::Number(old(self)@.request_id),
            final(self)@ == (RestoreView { request_id: bump(old(self)@.request_id), ..old(self)@ }),
    {
        let id = self.request_id;
        if self.request_id < i64::MAX {
            self.request_id = self.request_id + 1;
        }
        MessageId::Number(id)
    }

    /// The restore request's params: the payload with its `projectFilePaths`
    /// resolved through the environment.
    #[verifier::loop_isolation(false)]
    pub fn transform_project_paths(&self, params: &Option<JsonValue>, env: &Env) -> (r: Option<
        JsonValue,
    >)
        ensures
            match r {
                Some(t) => transform_params(crate::message::opt_json_view(*params), env@.projects)
                    == Some(t@),
                None => transform_params(crate::message::opt_json_view(*params), env@.projects)
                    is None,
            },
    {
        let pv = match params {
            Some(p) => p,
            None => {
                return None;
            },
        };
        let items = match pv.get("projectFilePaths") {
            Some(v) => match v.as_array() {
                Some(a) => a,
                None => {
                    return None;
                },
            },
            None => {
                return None;
            },
        };
        let ghost items_v = json_get(pv@, "projectFilePaths"@)->Some_0->Array_0;
        let n = items.len();
        let mut resolved: Vec<JsonValue> = Vec::new();
        let mut i: usize = 0;
        proof {
            assert(items_v.skip(0) =~= items_v);
        }
        while i < n
            invariant
                n == items@.len(),
                items_v.len() == n,
                forall|j: int| 0 <= j < n ==> items_v[j] == #[trigger] items@[j]@,
                0 <= i <= n,
                resolved_paths(items_v, env@.projects) =~= crate::json::json_view(
                    JsonValue::Array(resolved),
                )->Array_0 + resolved_paths(items_v.skip(i as int), env@.projects),
            decreases n - i,
        {
            let ghost acc0 = crate::json::json_view(JsonValue::Array(resolved))->Array_0;
            proof {
                assert(items_v.skip(i as int)[0] == items_v[i as int]);
                assert(items_v.skip(i as int).drop_first() =~= items_v.skip(i as int + 1));
            }
            match items[i].as_str() {
                Some(s) => {
                    let path: String = if crate::text::ends_with(s.as_str(), ".csproj") {
                        s.clone()
                    } else {
                        match env.project_near(s.as_str()) {
                            Some(pf) => pf.clone(),
                            None => s.clone(),
                        }
                    };
                    proof {
                        assert(path@ == resolve_path(s@, env@.projects));
                    }
                    resolved.push(JsonValue::of_str(path.as_str()));
                    proof {
                        assert(crate::json::json_view(JsonValue::Array(resolved))->Array_0
                            =~= acc0.push(JsonView::Str(resolve_path(s@, env@.projects))));
                        assert(acc0.push(JsonView::Str(resolve_path(s@, env@.projects)))
                            + resolved_paths(items_v.skip(i as int + 1), env@.projects) =~= acc0 + (
                        seq![JsonView::Str(resolve_path(s@, env@.projects))] + resolved_paths(
                            items_v.skip(i as int + 1),
                            env@.projects,
                        )));
                    }
                },
                None => {},
            }
            i = i + 1;
        }
        proof {
            assert(items_v.skip(n as int) =~= Seq::<JsonView>::empty());
            assert(crate::json::json_view(JsonValue::Array(resolved))->Array_0 + Seq::<
                JsonView,
            >::empty() =~= crate::json::json_view(JsonValue::Array(resolved))->Array_0);
        }
        let mut new_params = pv.dup();
        new_params.set_field("projectFilePaths", JsonValue::Array(resolved));
        Some(new_params)
    }

    /// Client-bound messages pass through untouched.
    pub fn process_client_message(&self, message: &Message) -> (a: Action)
        ensures
            a@ == ActionView::Continue,
    {
        Action::Continue
    }

    /// Suppress duplicate and concurrent restore triggers; inject one restore
    /// request for a fresh notification trigger; close the cycle on complete.
    pub fn process_server_message(&mut self, message: &Message, env: &Env) -> (a: Action)
        ensures
            (final(self)@, a@) == server_step(old(self)@, message@, env@),
    {
        let ghost pre = self@;
        match message {
            Message::Request(req) => {
                if crate::text::str_eq(req.method.as_str(), "workspace/_roslyn_projectNeedsRestore")
                {
                    let uuid = extract_uuid(&req.params);
                    if let Some(u) = &uuid {
                        if crate::text::strs_contains(&self.pending_uuids, u.as_str()) {
                            return Action::Replace(make_needed_restore_response(&req.id, false));
                        }
                        self.pending_uuids.push(crate::text::str_of(u.as_str()));
                        proof {
                            assert(strs_view(self.pending_uuids@) =~= pre.pending.push(u@));
                        }
                    }
                    if self.in_progress {
                        return Action::Replace(make_needed_restore_response(&req.id, false));
                    }
                    self.in_progress = true;
                    return Action::Replace(make_needed_restore_response(&req.id, true));
                }
                Action::Continue
            },
            Message::Notification(notif) => {
                if crate::text::str_eq(
                    notif.method.as_str(),
                    "workspace/_roslyn_projectNeedsRestore",
                ) {
                    let uuid = extract_uuid(&notif.params);
                    if let Some(u) = &uuid {
                        if crate::text::strs_contains(&self.pending_uuids, u.as_str()) {
                            return Action::Block;
                        }
                        self.pending_uuids.push(crate::text::str_of(u.as_str()));
                        proof {
                            assert(strs_view(self.pending_uuids@) =~= pre.pending.push(u@));
                        }
                    }
                    if self.in_progress {
                        return Action::Block;
                    }
                    self.in_progress = true;
                    let transformed = self.transform_project_paths(&notif.params, env);
                    let request_params = match transformed {
                        Some(t) => Some(t),
                        None => crate::message::dup_params(&notif.params),
                    };
                    let id = self.next_request_id();
                    let restore = Message::request(id, "workspace/_roslyn_restore", request_params);
                    let mut injected: Vec<Message> = Vec::new();
                    injected.push(restore);
                    proof {
                        assert(crate::message::msgs_view(injected@) =~= seq![
                            restore_request(pre, crate::message::opt_json_view(notif.params), env@),
                        ]);
                    }
                    return Action::Inject(injected);
                } else if crate::text::str_eq(
                    notif.method.as_str(),
                    "workspace/_roslyn_restoreComplete",
                ) {
                    let uuid = extract_uuid(&notif.params);
                    self.in_progress = false;
                    if let Some(u) = &uuid {
                        crate::text::strs_remove(&mut self.pending_uuids, u.as_str());
                    }
                    return Action::Continue;
                }
                Action::Continue
            },
            _ => Action::Continue,
        }
    }

    /// The reads this interceptor needs answered for `message`.
    #[verifier::loop_isolation(false)]
    pub fn queries(&self, message: &Message) -> (r: Vec<Query>)
        ensures
            crate::middleware::queries_view(r@) =~= queries_spec(message@),
    {
        let mut out: Vec<Query> = Vec::new();
        if let Message::Notification(notif) = message {
            if crate::text::str_eq(notif.method.as_str(), "workspace/_roslyn_projectNeedsRestore") {
                if let Some(p) = &notif.params {
                    if let Some(v) = p.get("projectFilePaths") {
                        if let Some(items) = v.as_array() {
                            let ghost items_v = json_get(p@, "projectFilePaths"@)->Some_0->Array_0;
                            let n = items.len();
                            let mut i: usize = 0;
                            proof {
                                assert(items_v.skip(0) =~= items_v);
                            }
                            while i < n
                                invariant
                                    n == items@.len(),
                                    items_v.len() == n,
                                    forall|j: int|
                                        0 <= j < n ==> items_v[j] == #[trigger] items@[j]@,
                                    0 <= i <= n,
                                    query_paths(items_v) =~= crate::middleware::queries_view(out@)
                                        + query_paths(items_v.skip(i as int)),
                                decreases n - i,
                            {
                                let ghost acc0 = crate::middleware::queries_view(out@);
                                proof {
                                    assert(items_v.skip(i as int)[0] == items_v[i as int]);
                                    assert(items_v.skip(i as int).drop_first() =~= items_v.skip(
                                        i as int + 1,
                                    ));
                                }
                                match items[i].as_str() {
                                    Some(s) => {
                                        if !crate::text::ends_with(s.as_str(), ".csproj") {
                                            out.push(Query::ProjectFileNear(s.clone()));
                                            proof {
                                                assert(crate::middleware::queries_view(out@)
                                                    =~= acc0.push(QueryView::ProjectFileNear(s@)));
                                                assert(acc0.push(QueryView::ProjectFileNear(s@))
                                                    + query_paths(items_v.skip(i as int + 1))
                                                    =~= acc0 + (seq![
                                                    QueryView::ProjectFileNear(s@),
                                                ] + query_paths(items_v.skip(i as int + 1))));
                                            }
                                        }
                                    },
                                    None => {},
                                }
                                i = i + 1;
                            }
                            proof {
                                assert(items_v.skip(n as int) =~= Seq::<JsonView>::empty());
                                assert(crate::middleware::queries_view(out@) + Seq::<
                                    QueryView,
                                >::empty() =~= crate::middleware::queries_view(out@));
                            }
                            return out;
                        }
                    }
                }
            }
        }
        proof {
            assert(crate::middleware::queries_view(out@) =~= queries_spec(message@));
        }
        out
    }
}

/// Law: restore triggers are deduplicated. Stepping any
/// `workspace/_roslyn_projectNeedsRestore` message whose UUID is already
/// pending injects nothing and keeps the UUID pending; stepping a fresh one
/// makes its UUID pending. Hence a run of same-UUID triggers without an
/// intervening `workspace/_roslyn_restoreComplete` injects at most one
/// restore request.
pub proof fn lemma_restore_dedup(pre: RestoreView, m: MessageView, env: EnvView, u: Seq<char>)
    requires
        msg_is_needs_restore(m),
        uuid_of_msg(m) == Some(u),
    ensures
        pre.pending.contains(u) ==> !(server_step(pre, m, env).1 is Inject)
            && server_step(pre, m, env).0.pending == pre.pending,
        server_step(pre, m, env).0.pending.contains(u),
{
    let (post, a) = server_step(pre, m, env);
    if !pre.pending.contains(u) {
        assert(post.pending == pre.pending.push(u));
        assert(post.pending[pre.pending.len() as int] == u);
    }
}

/// A `workspace/_roslyn_projectNeedsRestore` request or notification.
pub open spec fn msg_is_needs_restore(m: MessageView) -> bool {
    match m {
        MessageView::Request(r) => r.method == "workspace/_roslyn_projectNeedsRestore"@,
        MessageView::Notification(n) => n.method == "workspace/_roslyn_projectNeedsRestore"@,
        _ => false,
    }
}

/// The UUID a restore trigger carries.
pub open spec fn uuid_of_msg(m: MessageView) -> Option<Seq<char>> {
    match m {
        MessageView::Request(r) => uuid_of(r.params),
        MessageView::Notification(n) => uuid_of(n.params),
        _ => None,
    }
}

/// The number of restore requests a step injects.
pub open spec fn injected_count(a: ActionView) -> int {
    match a {
        ActionView::Inject(ms) => ms.len() as int,
        _ => 0,
    }
}

/// Folding a run of restore triggers: the final state and the total number
/// of injected restore requests.
pub open spec fn run_restore(pre: RestoreView, msgs: Seq<MessageView>, env: EnvView) -> (
    RestoreView,
    int,
)
    decreases msgs.len(),
{
    if msgs.len() == 0 {
        (pre, 0)
    } else {
        let (st1, a) = server_step(pre, msgs[0], env);
        let (stn, k) = run_restore(st1, msgs.drop_first(), env);
        (stn, injected_count(a) + k)
    }
}

/// Law: for any run of `workspace/_roslyn_projectNeedsRestore` messages all
/// bearing the same UUID, with no intervening `restoreComplete`, at most one
/// `workspace/_roslyn_restore` is injected — none at all when the UUID was
/// already pending.
pub proof fn lemma_restore_dedup_run(
    pre: RestoreView,
    msgs: Seq<MessageView>,
    env: EnvView,
    u: Seq<char>,
)
    requires
        forall|i: int|
            0 <= i < msgs.len() ==> msg_is_needs_restore(#[trigger] msgs[i]) && uuid_of_msg(msgs[i])
                == Some(u),
    ensures
        run_restore(pre, msgs, env).1 <= (if pre.pending.contains(u) {
            0int
        } else {
            1int
        }),
    decreases msgs.len(),
{
    if msgs.len() > 0 {
        let (st1, a) = server_step(pre, msgs[0], env);
        lemma_restore_dedup(pre, msgs[0], env, u);
        lemma_restore_dedup_run(st1, msgs.drop_first(), env, u);
        if !pre.pending.contains(u) {
            assert(injected_count(a) <= 1);
        }
    }
}

} // verus!
