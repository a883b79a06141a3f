//! The routing core: what one message, read from either side, turns into.
//!
//! Two loops drive the proxy, one per direction. Each loop reads a framed
//! message, runs it through the pipeline, and writes the results:
//!
//! * client to server: the per-message injections first, then — unless the
//!   pipeline blocked it — the message itself, its id remapped into the
//!   proxy's private id space when it is a request;
//! * server to client: injections go back to the server; a server-originated
//!   request the pipeline answered locally is written back to the server and
//!   nothing reaches the client; a response is forwarded under the client's
//!   original id, or dropped when no mapping is remembered.
//!
//! The decision per message is this module's verified step functions; the
//! reading, writing, and task plumbing around them is the caller's.

use vstd::prelude::*;
use crate::id_mapper::{spec_get_client_id, spec_map_client_id, spec_remove, view_wf, IdMapper,
    IdMapperView};
use crate::message::{msgs_view, opt_msg_view, IdView, Message, MessageView, RequestMessage,
    RequestView, ResponseMessage, ResponseView};
use crate::middleware::{pipeline_run, Env, EnvView, MiddlewarePipeline, MiddlewareView, Query};

verus! {

broadcast use vstd::std_specs::vec::group_vec_axioms;

/// The mathematical state of a [`Router`]: the pipeline stages' states and
/// the id mapper.
#[verifier::ext_equal]
pub struct RouterView {
    pub pipeline: Seq<MiddlewareView>,
    pub mapper: IdMapperView,
}

/// The router: the pipeline and the id mapper, tied to the two loops.
pub struct Router {
    pipeline: MiddlewarePipeline,
    id_mapper: IdMapper,
}

impl View for Router {
    type V = RouterView;

    closed spec fn view(&self) -> RouterView {
        RouterView { pipeline: self.pipeline@, mapper: self.id_mapper@ }
    }
}

/// What the client-to-server loop writes to the server for one message: the
/// pipeline's injections, in order, then — unless blocked — the surviving
/// message, a request's id remapped.
pub open spec fn spec_route_client(r: RouterView, m: MessageView, env: EnvView) -> (
    RouterView,
    Seq<MessageView>,
) {
    let pr = pipeline_run(true, r.pipeline, m, env);
    match pr.out {
        None => (RouterView { pipeline: pr.states, mapper: r.mapper }, pr.injected),
        Some(out) => match out {
            MessageView::Request(req) => {
                let (m1, s) = spec_map_client_id(r.mapper, req.id);
                (
                    RouterView { pipeline: pr.states, mapper: m1 },
                    pr.injected.push(MessageView::Request(RequestView { id: s, ..req })),
                )
            },
            _ => (RouterView { pipeline: pr.states, mapper: r.mapper }, pr.injected.push(out)),
        },
    }
}

/// What the server-to-client loop does with one message: messages written
/// back to the server, and the message forwarded to the client, if any.
pub open spec fn spec_route_server(r: RouterView, m: MessageView, env: EnvView) -> (
    RouterView,
    Seq<MessageView>,
    Option<MessageView>,
) {
    let pr = pipeline_run(false, r.pipeline, m, env);
    let r1 = RouterView { pipeline: pr.states, mapper: r.mapper };
    match pr.out {
        None => (r1, pr.injected, None),
        Some(out) => {
            if m is Request && out is Response {
                (r1, pr.injected.push(out), None)
            } else {
                match out {
                    MessageView::Response(resp) => match spec_get_client_id(r.mapper, resp.id) {
                        Some(c) => (
                            RouterView {
                                pipeline: pr.states,
                                mapper: spec_remove(r.mapper, resp.id),
                            },
                            pr.injected,
                            Some(MessageView::Response(ResponseView { id: c, ..resp })),
                        ),
                        None => (r1, pr.injected, None),
                    },
                    _ => (r1, pr.injected, Some(out)),
                }
            }
        },
    }
}

/// What the server-to-client loop produced for one message.
pub struct ServerRoute {
    /// Written back to the server, in order: side answers the proxy gives the
    /// server on the client's behalf, and locally answered requests.
    pub to_server: Vec<Message>,
    /// Forwarded to the client, when anything is.
    pub to_client: Option<Message>,
}

impl Router {
    /// The id mapper is coherent.
    pub closed spec fn wf(&self) -> bool {
        self.id_mapper.wf()
    }

    /// More proxy-private integer ids remain to be allocated.
    pub open spec fn can_allocate(&self) -> bool {
        self@.mapper.next_id < i64::MAX
    }

    /// Whether more proxy-private integer ids remain to be allocated.
    pub fn has_capacity(&self) -> (r: bool)
        ensures
            r == self.can_allocate(),
    {
        self.id_mapper.has_capacity()
    }

    /// A coherent router state is coherent at the view level too.
    pub proof fn lemma_wf_view(&self)
        requires
            self.wf(),
        ensures
            view_wf(self@.mapper),
    {
        self.id_mapper.lemma_wf_view();
    }

    /// A router over the given pipeline, with a fresh id mapper.
    pub fn new(pipeline: MiddlewarePipeline) -> (r: Router)
        ensures
            r.wf(),
            r@.pipeline == pipeline@,
            r@.mapper.next_id == 1,
            r@.mapper.client_to_server == vstd::map::Map::<IdView, IdView>::empty(),
            r@.mapper.server_to_client == vstd::map::Map::<IdView, IdView>::empty(),
    {
        Router { pipeline, id_mapper: IdMapper::new() }
    }

    /// Remap a request's id into the proxy's private id space; leave any
    /// other message untouched.
    fn map_client_message(&mut self, message: Message) -> (r: Message)
        requires
            old(self).wf(),
            old(self).can_allocate(),
        ensures
            final(self).wf(),
            final(self)@.pipeline == old(self)@.pipeline,
            match message@ {
                MessageView::Request(req) => {
                    let (m1, s) = spec_map_client_id(old(self)@.mapper, req.id);
                    final(self)@.mapper == m1 && r@ == MessageView::Request(
                        RequestView { id: s, ..req },
                    )
                },
                _ => final(self)@.mapper == old(self)@.mapper && r@ == message@,
            },
    {
        match message {
            Message::Request(req) => {
                let RequestMessage { jsonrpc, id, method, params } = req;
                let server_id = self.id_mapper.map_client_id(id);
                Message::Request(RequestMessage { jsonrpc, id: server_id, method, params })
            },
            other => other,
        }
    }

    /// Look a response's client id up, forget the pair, and rewrite the id;
    /// `None` when no mapping is remembered. Any other message passes as is.
    fn unmap_server_message(&mut self, message: Message) -> (r: Option<Message>)
        requires
            old(self).wf(),
        ensures
            final(self).wf(),
            final(self)@.pipeline == old(self)@.pipeline,
            match message@ {
                MessageView::Response(resp) => {
                    match spec_get_client_id(old(self)@.mapper, resp.id) {
                        Some(c) => final(self)@.mapper == spec_remove(old(self)@.mapper, resp.id)
                            && opt_msg_view(r) == Some(
                            MessageView::Response(ResponseView { id: c, ..resp }),
                        ),
                        None => final(self)@.mapper == old(self)@.mapper && r is None,
                    }
                },
                _ => final(self)@.mapper == old(self)@.mapper && opt_msg_view(r) == Some(message@),
            },
    {
        match message {
            Message::Response(resp) => {
                let client_id = match self.id_mapper.get_client_id(&resp.id) {
                    Some(c) => c,
                    None => {
                        return None;
                    },
                };
                self.id_mapper.remove(&resp.id);
                let ResponseMessage { jsonrpc, id, result, error } = resp;
                Some(Message::Response(ResponseMessage { jsonrpc, id: client_id, result, error }))
            },
            other => Some(other),
        }
    }

    /// One step of the client-to-server loop: everything to write to the
    /// server, in order — injections first, then the surviving message.
    pub fn route_client_to_server(&mut self, message: Message, env: &Env) -> (w: Vec<Message>)
        requires
            old(self).wf(),
            old(self).can_allocate(),
        ensures
            final(self).wf(),
            (final(self)@, msgs_view(w@)) == spec_route_client(old(self)@, message@, env@),
    {
        let ghost pre = self@;
        let ghost m0 = message@;
        let (out, injected) = self.pipeline.process_client_message(message, env);
        let mut w = injected;
        match out {
            Some(current) => {
                let ghost wv = msgs_view(w@);
                let forwarded = self.map_client_message(current);
                w.push(forwarded);
                proof {
                    assert(msgs_view(w@) =~= wv.push(spec_route_client(pre, m0, env@).1.last()));
                    assert(msgs_view(w@) =~= spec_route_client(pre, m0, env@).1);
                }
                w
            },
            None => {
                proof {
                    assert(msgs_view(w@) =~= spec_route_client(pre, m0, env@).1);
                }
                w
            },
        }
    }

    /// One step of the server-to-client loop: what goes back to the server
    /// and what is forwarded to the client.
    pub fn route_server_to_client(&mut self, message: Message, env: &Env) -> (r: ServerRoute)
        requires
            old(self).wf(),
        ensures
            final(self).wf(),
            (final(self)@, msgs_view(r.to_server@), opt_msg_view(r.to_client)) == spec_route_server(
                old(self)@,
                message@,
                env@,
            ),
    {
        let ghost pre = self@;
        let ghost m0 = message@;
        let is_server_request = matches!(message, Message::Request(_));
        let (out, injected) = self.pipeline.process_server_message(message, env);
        let mut to_server = injected;
        match out {
            None => {
                proof {
                    assert(msgs_view(to_server@) =~= spec_route_server(pre, m0, env@).1);
                }
                ServerRoute { to_server, to_client: None }
            },
            Some(current) => {
                let is_response = matches!(current, Message::Response(_));
                if is_server_request && is_response {
                    let ghost wv = msgs_view(to_server@);
                    to_server.push(current);
                    proof {
                        assert(msgs_view(to_server@) =~= wv.push(
                            pipeline_run(false, pre.pipeline, m0, env@).out->Some_0,
                        ));
                        assert(msgs_view(to_server@) =~= spec_route_server(pre, m0, env@).1);
                    }
                    ServerRoute { to_server, to_client: None }
                } else {
                    let forwarded = self.unmap_server_message(current);
                    proof {
                        assert(msgs_view(to_server@) =~= spec_route_server(pre, m0, env@).1);
                    }
                    ServerRoute { to_server, to_client: forwarded }
                }
            },
        }
    }

    /// Every read the pipeline will need to process `message` in the given
    /// direction; the caller answers them through an [`Env`].
    pub fn queries(&self, from_client: bool, message: &Message) -> (r: Vec<Query>)
        ensures
            crate::middleware::queries_view(r@) =~= crate::middleware::pipeline_queries(
                self@.pipeline,
                from_client,
                message@,
            ),
    {
        self.pipeline.queries(from_client, message)
    }
}

/// Law: injections are written in order, before the message that caused
/// them. When the pipeline lets a client message through, the write list is
/// exactly the injections, in emission order, followed by the (id-remapped)
/// message itself.
pub proof fn lemma_injection_ordering(r: RouterView, m: MessageView, env: EnvView)
    ensures
        ({
            let pr = pipeline_run(true, r.pipeline, m, env);
            let writes = spec_route_client(r, m, env).1;
            pr.out is Some ==> writes.len() == pr.injected.len() + 1 && (forall|i: int|
                0 <= i < pr.injected.len() ==> writes[i] == pr.injected[i])
        }),
{
}

/// Law: a block preserves the injections. When the pipeline blocks a client
/// message, exactly the injections accumulated before the block are written,
/// in order, and the message itself is not.
pub proof fn lemma_block_preserves_injections(r: RouterView, m: MessageView, env: EnvView)
    ensures
        ({
            let pr = pipeline_run(true, r.pipeline, m, env);
            pr.out is None ==> spec_route_client(r, m, env).1 == pr.injected
        }),
{
}

/// Law: local answers stay local. When a server-originated request is
/// answered by the pipeline itself, the answer is written back to the server
/// and nothing is forwarded to the client.
pub proof fn lemma_local_answers_stay_local(r: RouterView, m: MessageView, env: EnvView)
    requires
        m is Request,
        pipeline_run(false, r.pipeline, m, env).out matches Some(out) && out is Response,
    ensures
        spec_route_server(r, m, env).2 is None,
        spec_route_server(r, m, env).1 == pipeline_run(false, r.pipeline, m, env).injected.push(
            pipeline_run(false, r.pipeline, m, env).out->Some_0,
        ),
{
}

/// Law: a forwarded request round-trips under the client's id. When the
/// client-to-server step forwards a request whose pipeline image carries id
/// `C`, the forwarded copy carries some server id `S`; and as long as the
/// mapping is not removed, routing any server response whose pipeline image
/// is a response with id `S` delivers it to the client with id `C`.
pub proof fn lemma_response_round_trip(
    r: RouterView,
    m: MessageView,
    env: EnvView,
    r2: RouterView,
    resp_in: MessageView,
    env2: EnvView,
)
    requires
        view_wf(r.mapper),
        r.mapper.next_id < i64::MAX,
        pipeline_run(true, r.pipeline, m, env).out matches Some(out) && out is Request,
        r2.mapper == spec_route_client(r, m, env).0.mapper,
        !(resp_in is Request),
        pipeline_run(false, r2.pipeline, resp_in, env2).out matches Some(o2) && o2 matches
            MessageView::Response(resp2) && resp2.id == spec_route_client(
            r,
            m,
            env,
        ).1.last()->Request_0.id,
    ensures
        ({
            let req = pipeline_run(true, r.pipeline, m, env).out->Some_0->Request_0;
            let resp2 = pipeline_run(false, r2.pipeline, resp_in, env2).out->Some_0->Response_0;
            spec_route_server(r2, resp_in, env2).2 == Some(
                MessageView::Response(ResponseView { id: req.id, ..resp2 }),
            )
        }),
{
    let req = pipeline_run(true, r.pipeline, m, env).out->Some_0->Request_0;
    let (m1, s) = spec_map_client_id(r.mapper, req.id);
    crate::id_mapper::lemma_round_trip(r.mapper, req.id);
    assert(spec_route_client(r, m, env).1.last() == MessageView::Request(
        RequestView { id: s, ..req },
    ));
    assert(spec_get_client_id(m1, s) == Some(req.id));
}

} // verus!
