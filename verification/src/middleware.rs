//! The interceptor contract and the ordered pipeline that evaluates it.
//!
//! Every in-flight message runs through the pipeline once per direction.
//! Each interceptor inspects the current message and answers with an
//! [`Action`]; the pipeline folds the actions in order, accumulating
//! injected side messages and stopping early on a block.

pub mod capability_registration;
pub mod configuration;
pub mod custom;
pub mod definition_logger;
pub mod diagnostics;
pub mod document_lifecycle;
pub mod initialization;
pub mod inlay_hints;
pub mod project_restore;
pub mod refresh;
pub mod solution_loader;

use vstd::prelude::*;
use crate::message::{msgs_view, opt_msg_view, Message, MessageView};

use capability_registration::CapabilityRegistrationMiddleware;
use configuration::ConfigurationMiddleware;
use custom::CustomNotificationsMiddleware;
use definition_logger::DefinitionLoggerMiddleware;
use diagnostics::DiagnosticsMiddleware;
use document_lifecycle::DocumentLifecycleMiddleware;
use initialization::InitializationMiddleware;
use inlay_hints::InlayHintsMiddleware;
use project_restore::ProjectRestoreMiddleware;
use refresh::RefreshMiddleware;
use solution_loader::SolutionLoaderMiddleware;

verus! {

broadcast use vstd::std_specs::vec::group_vec_axioms;

/// What an interceptor asks the pipeline to do with the current message.
pub enum Action {
    /// Leave the message as it is and run the next interceptor.
    Continue,
    /// Drop the message; later interceptors are not run, but injections
    /// accumulated so far are still emitted.
    Block,
    /// Substitute the in-flight message; later interceptors see the new one.
    Replace(Message),
    /// Emit additional messages alongside (before) the current one.
    Inject(Vec<Message>),
    /// Emit one side response and keep running the chain on the current
    /// message.
    RespondAndContinue(Message),
}

/// The mathematical value of an [`Action`].
#[verifier::ext_equal]
pub enum ActionView {
    Continue,
    Block,
    Replace(MessageView),
    Inject(Seq<MessageView>),
    RespondAndContinue(MessageView),
}

impl View for Action {
    type V = ActionView;

    open spec fn view(&self) -> ActionView {
        match self {
            Action::Continue => ActionView::Continue,
            Action::Block => ActionView::Block,
            Action::Replace(m) => ActionView::Replace(m@),
            Action::Inject(ms) => ActionView::Inject(msgs_view(ms@)),
            Action::RespondAndContinue(m) => ActionView::RespondAndContinue(m@),
        }
    }
}

/// A read the pipeline needs answered before it can process a message: the
/// caller performs it and hands the answer back through [`Env`].
pub enum Query {
    /// The text of the file a `file://` URI points at.
    FileOfUri(String),
    /// The nearest project file: the given path itself when it already names
    /// one, else the first `.csproj` found walking the ancestor directories.
    ProjectFileNear(String),
}

/// The mathematical value of a [`Query`].
#[verifier::ext_equal]
pub enum QueryView {
    FileOfUri(Seq<char>),
    ProjectFileNear(Seq<char>),
}

impl View for Query {
    type V = QueryView;

    open spec fn view(&self) -> QueryView {
        match self {
            Query::FileOfUri(s) => QueryView::FileOfUri(s@),
            Query::ProjectFileNear(s) => QueryView::ProjectFileNear(s@),
        }
    }
}

/// The views of a list of queries.
pub open spec fn queries_view(s: Seq<Query>) -> Seq<QueryView> {
    Seq::new(s.len(), |i: int| s[i]@)
}

/// The view of a key-to-value table.
pub open spec fn table_view(t: Seq<(String, String)>) -> Seq<(Seq<char>, Seq<char>)> {
    Seq::new(t.len(), |i: int| (t[i].0@, t[i].1@))
}

/// First value bound to `key` in a table.
pub open spec fn table_lookup(t: Seq<(Seq<char>, Seq<char>)>, key: Seq<char>) -> Option<Seq<char>>
    decreases t.len(),
{
    if t.len() == 0 {
        None
    } else if t[0].0 == key {
        Some(t[0].1)
    } else {
        table_lookup(t.drop_first(), key)
    }
}

/// A lookup lands on the first binding of the key.
proof fn lemma_table_lookup_at(t: Seq<(Seq<char>, Seq<char>)>, key: Seq<char>, i: int)
    requires
        0 <= i < t.len(),
        t[i].0 == key,
        forall|j: int| 0 <= j < i ==> t[j].0 != key,
    ensures
        table_lookup(t, key) == Some(t[i].1),
    decreases t.len(),
{
    if i > 0 {
        lemma_table_lookup_at(t.drop_first(), key, i - 1);
    }
}

/// A lookup of an absent key returns nothing.
proof fn lemma_table_lookup_absent(t: Seq<(Seq<char>, Seq<char>)>, key: Seq<char>)
    requires
        forall|j: int| 0 <= j < t.len() ==> t[j].0 != key,
    ensures
        table_lookup(t, key) is None,
    decreases t.len(),
{
    if t.len() > 0 {
        lemma_table_lookup_absent(t.drop_first(), key);
    }
}

/// First value bound to `key` in a table, by character comparison.
fn table_get<'a>(t: &'a Vec<(String, String)>, key: &str) -> (r: Option<&'a String>)
    ensures
        match r {
            Some(v) => table_lookup(table_view(t@), key@) == Some(v@),
            None => table_lookup(table_view(t@), key@) is None,
        },
{
    let n = t.len();
    let mut i: usize = 0;
    while i < n
        invariant
            n == t@.len(),
            0 <= i <= n,
            forall|j: int| 0 <= j < i ==> table_view(t@)[j].0 != key@,
        decreases n - i,
    {
        if crate::text::str_eq(t[i].0.as_str(), key) {
            proof {
                lemma_table_lookup_at(table_view(t@), key@, i as int);
            }
            return Some(&t[i].1);
        }
        i = i + 1;
    }
    proof {
        lemma_table_lookup_absent(table_view(t@), key@);
    }
    None
}

/// The answers to the pipeline's queries for one message: file texts keyed by
/// the URI asked for, and resolved project files keyed by the path asked for.
/// A key that is absent means the read failed or found nothing.
pub struct Env {
    pub files: Vec<(String, String)>,
    pub projects: Vec<(String, String)>,
}

/// The mathematical value of an [`Env`].
#[verifier::ext_equal]
pub struct EnvView {
    pub files: Seq<(Seq<char>, Seq<char>)>,
    pub projects: Seq<(Seq<char>, Seq<char>)>,
}

impl View for Env {
    type V = EnvView;

    open spec fn view(&self) -> EnvView {
        EnvView { files: table_view(self.files@), projects: table_view(self.projects@) }
    }
}

impl Env {
    /// An environment with no answers; every lookup fails.
    pub fn new() -> (r: Env)
        ensures
            r@.files.len() == 0,
            r@.projects.len() == 0,
    {
        Env { files: Vec::new(), projects: Vec::new() }
    }

    /// The text read for this URI, when the read succeeded.
    pub fn file_of_uri<'a>(&'a self, uri: &str) -> (r: Option<&'a String>)
        ensures
            match r {
                Some(v) => table_lookup(self@.files, uri@) == Some(v@),
                None => table_lookup(self@.files, uri@) is None,
            },
    {
        table_get(&self.files, uri)
    }

    /// The project file resolved for this path, when one was found.
    pub fn project_near<'a>(&'a self, path: &str) -> (r: Option<&'a String>)
        ensures
            match r {
                Some(v) => table_lookup(self@.projects, path@) == Some(v@),
                None => table_lookup(self@.projects, path@) is None,
            },
    {
        table_get(&self.projects, path)
    }
}

/// One stage of the pipeline, with whatever state it owns.
pub enum Middleware {
    CapabilityRegistration(CapabilityRegistrationMiddleware),
    Configuration(ConfigurationMiddleware),
    Custom(CustomNotificationsMiddleware),
    DefinitionLogger(DefinitionLoggerMiddleware),
    Diagnostics(DiagnosticsMiddleware),
    DocumentLifecycle(DocumentLifecycleMiddleware),
    Initialization(InitializationMiddleware),
    InlayHints(InlayHintsMiddleware),
    ProjectRestore(ProjectRestoreMiddleware),
    Refresh(RefreshMiddleware),
    SolutionLoader(SolutionLoaderMiddleware),
}

/// The mathematical state of one pipeline stage.
#[verifier::ext_equal]
pub enum MiddlewareView {
    CapabilityRegistration,
    Configuration,
    Custom,
    DefinitionLogger,
    Diagnostics(Seq<crate::message::IdView>),
    DocumentLifecycle(Seq<Seq<char>>),
    Initialization,
    InlayHints,
    ProjectRestore(project_restore::RestoreView),
    Refresh,
    SolutionLoader(solution_loader::SolutionLoaderView),
}

impl View for Middleware {
    type V = MiddlewareView;

    open spec fn view(&self) -> MiddlewareView {
        match self {
            Middleware::CapabilityRegistration(_) => MiddlewareView::CapabilityRegistration,
            Middleware::Configuration(_) => MiddlewareView::Configuration,
            Middleware::Custom(_) => MiddlewareView::Custom,
            Middleware::DefinitionLogger(_) => MiddlewareView::DefinitionLogger,
            Middleware::Diagnostics(mw) => MiddlewareView::Diagnostics(mw@),
            Middleware::DocumentLifecycle(mw) => MiddlewareView::DocumentLifecycle(mw@),
            Middleware::Initialization(_) => MiddlewareView::Initialization,
            Middleware::InlayHints(_) => MiddlewareView::InlayHints,
            Middleware::ProjectRestore(mw) => MiddlewareView::ProjectRestore(mw@),
            Middleware::Refresh(_) => MiddlewareView::Refresh,
            Middleware::SolutionLoader(mw) => MiddlewareView::SolutionLoader(mw@),
        }
    }
}

/// What one stage does with a client-bound message.
pub open spec fn mw_client_step(pre: MiddlewareView, m: MessageView, env: EnvView) -> (
    MiddlewareView,
    ActionView,
) {
    match pre {
        MiddlewareView::Diagnostics(ids) => {
            let (ids1, a) = diagnostics::client_step(ids, m);
            (MiddlewareView::Diagnostics(ids1), a)
        },
        MiddlewareView::DocumentLifecycle(docs) => {
            let (docs1, a) = document_lifecycle::client_step(docs, m, env);
            (MiddlewareView::DocumentLifecycle(docs1), a)
        },
        MiddlewareView::SolutionLoader(st) => {
            let (st1, a) = solution_loader::client_step(st, m, env);
            (MiddlewareView::SolutionLoader(st1), a)
        },
        _ => (pre, ActionView::Continue),
    }
}

/// What one stage does with a server-originated message.
pub open spec fn mw_server_step(pre: MiddlewareView, m: MessageView, env: EnvView) -> (
    MiddlewareView,
    ActionView,
) {
    match pre {
        MiddlewareView::CapabilityRegistration => (pre, capability_registration::server_action(m)),
        MiddlewareView::Configuration => (pre, configuration::server_action(m)),
        MiddlewareView::Custom => (pre, custom::server_action(m)),
        MiddlewareView::Refresh => (pre, refresh::server_action(m)),
        MiddlewareView::Diagnostics(ids) => {
            let (ids1, a) = diagnostics::server_step(ids, m);
            (MiddlewareView::Diagnostics(ids1), a)
        },
        MiddlewareView::ProjectRestore(st) => {
            let (st1, a) = project_restore::server_step(st, m, env);
            (MiddlewareView::ProjectRestore(st1), a)
        },
        _ => (pre, ActionView::Continue),
    }
}

/// What one stage does with a message travelling in the given direction.
pub open spec fn mw_step(
    from_client: bool,
    pre: MiddlewareView,
    m: MessageView,
    env: EnvView,
) -> (MiddlewareView, ActionView) {
    if from_client {
        mw_client_step(pre, m, env)
    } else {
        mw_server_step(pre, m, env)
    }
}

impl Middleware {
    /// Run this stage's hook for the given direction.
    pub fn process(&mut self, from_client: bool, message: &Message, env: &Env) -> (a: Action)
        ensures
            (final(self)@, a@) == mw_step(from_client, old(self)@, message@, env@),
    {
        match self {
            Middleware::CapabilityRegistration(mw) => {
                if from_client {
                    mw.process_client_message(message)
                } else {
                    mw.process_server_message(message)
                }
            },
            Middleware::Configuration(mw) => {
                if from_client {
                    mw.process_client_message(message)
                } else {
                    mw.process_server_message(message)
                }
            },
            Middleware::Custom(mw) => {
                if from_client {
                    mw.process_client_message(message)
                } else {
                    mw.process_server_message(message)
                }
            },
            Middleware::DefinitionLogger(mw) => {
                if from_client {
                    mw.process_client_message(message)
                } else {
                    mw.process_server_message(message)
                }
            },
            Middleware::Diagnostics(mw) => {
                if from_client {
                    mw.process_client_message(message)
                } else {
                    mw.process_server_message(message)
                }
            },
            Middleware::DocumentLifecycle(mw) => {
                if from_client {
                    mw.process_client_message(message, env)
                } else {
                    mw.process_server_message(message)
                }
            },
            Middleware::Initialization(mw) => {
                if from_client {
                    mw.process_client_message(message)
                } else {
                    mw.process_server_message(message)
                }
            },
            Middleware::InlayHints(mw) => {
                if from_client {
                    mw.process_client_message(message)
                } else {
                    mw.process_server_message(message)
                }
            },
            Middleware::ProjectRestore(mw) => {
                if from_client {
                    mw.process_client_message(message)
                } else {
                    mw.process_server_message(message, env)
                }
            },
            Middleware::Refresh(mw) => {
                if from_client {
                    mw.process_client_message(message)
                } else {
                    mw.process_server_message(message)
                }
            },
            Middleware::SolutionLoader(mw) => {
                if from_client {
                    mw.process_client_message(message, env)
                } else {
                    mw.process_server_message(message)
                }
            },
        }
    }

    /// The reads this stage needs answered before it can process `message`.
    pub fn queries(&self, from_client: bool, message: &Message) -> (r: Vec<Query>)
        ensures
            queries_view(r@) == mw_queries(self@, from_client, message@),
    {
        match self {
            Middleware::DocumentLifecycle(mw) => {
                if from_client {
                    let r = mw.queries(message);
                    return r;
                }
            },
            Middleware::SolutionLoader(mw) => {
                if from_client {
                    let r = mw.queries(message);
                    return r;
                }
            },
            Middleware::ProjectRestore(mw) => {
                if !from_client {
                    let r = mw.queries(message);
                    return r;
                }
            },
            _ => {},
        }
        let r: Vec<Query> = Vec::new();
        proof {
            assert(queries_view(r@) =~= mw_queries(self@, from_client, message@));
        }
        r
    }
}

/// The reads one stage needs answered for one message.
pub open spec fn mw_queries(pre: MiddlewareView, from_client: bool, m: MessageView) -> Seq<
    QueryView,
> {
    match pre {
        MiddlewareView::DocumentLifecycle(docs) => {
            if from_client {
                document_lifecycle::queries_spec(docs, m)
            } else {
                Seq::empty()
            }
        },
        MiddlewareView::SolutionLoader(st) => {
            if from_client {
                solution_loader::queries_spec(st, m)
            } else {
                Seq::empty()
            }
        },
        MiddlewareView::ProjectRestore(_) => {
            if from_client {
                Seq::empty()
            } else {
                project_restore::queries_spec(m)
            }
        },
        _ => Seq::empty(),
    }
}

/// Every read the stages need answered for one message, in stage order.
pub open spec fn pipeline_queries(
    states: Seq<MiddlewareView>,
    from_client: bool,
    m: MessageView,
) -> Seq<QueryView>
    decreases states.len(),
{
    if states.len() == 0 {
        Seq::empty()
    } else {
        mw_queries(states[0], from_client, m) + pipeline_queries(
            states.drop_first(),
            from_client,
            m,
        )
    }
}

/// The outcome of one pipeline pass: the stages' new states, the surviving
/// message (none when blocked), and the injected messages in emission order.
#[verifier::ext_equal]
pub struct PipeOutcome {
    pub states: Seq<MiddlewareView>,
    pub out: Option<MessageView>,
    pub injected: Seq<MessageView>,
}

/// The pipeline fold: run each stage in order on the current message,
/// accumulate injections, stop on a block.
pub open spec fn pipeline_run(
    from_client: bool,
    states: Seq<MiddlewareView>,
    m: MessageView,
    env: EnvView,
) -> PipeOutcome
    decreases states.len(),
{
    if states.len() == 0 {
        PipeOutcome { states: Seq::empty(), out: Some(m), injected: Seq::empty() }
    } else {
        let (st, a) = mw_step(from_client, states[0], m, env);
        match a {
            ActionView::Continue => {
                let r = pipeline_run(from_client, states.drop_first(), m, env);
                PipeOutcome { states: seq![st] + r.states, out: r.out, injected: r.injected }
            },
            ActionView::Block => PipeOutcome {
                states: seq![st] + states.drop_first(),
                out: None,
                injected: Seq::empty(),
            },
            ActionView::Replace(m2) => {
                let r = pipeline_run(from_client, states.drop_first(), m2, env);
                PipeOutcome { states: seq![st] + r.states, out: r.out, injected: r.injected }
            },
            ActionView::Inject(ms) => {
                let r = pipeline_run(from_client, states.drop_first(), m, env);
                PipeOutcome { states: seq![st] + r.states, out: r.out, injected: ms + r.injected }
            },
            ActionView::RespondAndContinue(m2) => {
                let r = pipeline_run(from_client, states.drop_first(), m, env);
                PipeOutcome {
                    states: seq![st] + r.states,
                    out: r.out,
                    injected: seq![m2] + r.injected,
                }
            },
        }
    }
}

/// The ordered chain of interceptors.
pub struct MiddlewarePipeline {
    middlewares: Vec<Middleware>,
}

/// The views of a list of stages.
pub open spec fn mws_view(s: Seq<Middleware>) -> Seq<MiddlewareView> {
    Seq::new(s.len(), |i: int| s[i]@)
}

impl View for MiddlewarePipeline {
    type V = Seq<MiddlewareView>;

    closed spec fn view(&self) -> Seq<MiddlewareView> {
        mws_view(self.middlewares@)
    }
}

impl MiddlewarePipeline {
    /// An empty pipeline.
    pub fn new() -> (r: Self)
        ensures
            r@ =~= Seq::<MiddlewareView>::empty(),
    {
        MiddlewarePipeline { middlewares: Vec::new() }
    }

    /// The pipeline extended with one more stage at the end.
    pub fn add(self, middleware: Middleware) -> (r: Self)
        ensures
            r@ =~= self@.push(middleware@),
    {
        let ghost pre = self@;
        let ghost mv = middleware@;
        let mut s = self;
        s.middlewares.push(middleware);
        proof {
            assert(s@ =~= pre.push(mv));
        }
        s
    }

    /// Run every stage's hook, in order, on a message travelling in the given
    /// direction; fold the actions as [`pipeline_run`] says.
    #[verifier::rlimit(50)]
    #[verifier::loop_isolation(false)]
    fn run(&mut self, from_client: bool, message: Message, env: &Env) -> (r: (
        Option<Message>,
        Vec<Message>,
    ))
        ensures
            ({
                let outcome = pipeline_run(from_client, old(self)@, message@, env@);
                &&& final(self)@ =~= outcome.states
                &&& opt_msg_view(r.0) == outcome.out
                &&& msgs_view(r.1@) =~= outcome.injected
            }),
    {
        let ghost states0 = self@;
        let ghost m0 = message@;
        let n = self.middlewares.len();
        let mut current = message;
        let mut injected: Vec<Message> = Vec::new();
        let mut i: usize = 0;
        proof {
            assert(states0.skip(0) =~= states0);
            assert(mws_view(self.middlewares@).take(0) =~= Seq::<MiddlewareView>::empty());
        }
        while i < n
            invariant
                n == self.middlewares@.len(),
                0 <= i <= n,
                states0.len() == n,
                ({
                    let whole = pipeline_run(from_client, states0, m0, env@);
                    let rest = pipeline_run(from_client, states0.skip(i as int), current@, env@);
                    &&& whole.out == rest.out
                    &&& whole.injected =~= msgs_view(injected@) + rest.injected
                    &&& whole.states =~= mws_view(self.middlewares@).take(i as int) + rest.states
                }),
                forall|j: int| i <= j < n ==> #[trigger] self.middlewares@[j]@ == states0[j],
            decreases n - i,
        {
            let ghost pre_states = mws_view(self.middlewares@);
            let ghost cur0 = current@;
            let ghost inj0 = injected@;
            proof {
                assert(states0.skip(i as int)[0] == states0[i as int]);
                assert(states0.skip(i as int).drop_first() =~= states0.skip(i as int + 1));
            }
            let mw = &mut self.middlewares[i];
            let a = mw.process(from_client, &current, env);
            match a {
                Action::Continue => {},
                Action::Block => {
                    proof {
                        let whole = pipeline_run(from_client, states0, m0, env@);
                        let rest = pipeline_run(from_client, states0.skip(i as int), cur0, env@);
                        assert(rest.out is None);
                        assert(rest.injected =~= Seq::<MessageView>::empty());
                        assert(whole.out is None);
                        assert(msgs_view(injected@) =~= whole.injected);
                        assert(rest.states =~= seq![self.middlewares@[i as int]@] + states0.skip(
                            i + 1,
                        ));
                        assert(whole.states =~= mws_view(self.middlewares@));
                    }
                    return (None, injected);
                },
                Action::Replace(m2) => {
                    current = m2;
                },
                Action::Inject(ms) => {
                    let mut ms = ms;
                    injected.append(&mut ms);
                },
                Action::RespondAndContinue(m2) => {
                    injected.push(m2);
                },
            }
            i = i + 1;
            proof {
                assert(mws_view(self.middlewares@).take(i as int) =~= pre_states.take(
                    i - 1,
                ).push(self.middlewares@[i - 1]@));
                let whole = pipeline_run(from_client, states0, m0, env@);
                let rest_pre = pipeline_run(from_client, states0.skip(i - 1), cur0, env@);
                let rest = pipeline_run(from_client, states0.skip(i as int), current@, env@);
                assert(whole.injected =~= msgs_view(injected@) + rest.injected);
                assert(whole.states =~= mws_view(self.middlewares@).take(i as int) + rest.states);
            }
        }
        proof {
            assert(states0.skip(n as int) =~= Seq::<MiddlewareView>::empty());
            let whole = pipeline_run(from_client, states0, m0, env@);
            assert(whole.states =~= mws_view(self.middlewares@).take(n as int));
            assert(mws_view(self.middlewares@).take(n as int) =~= mws_view(self.middlewares@));
        }
        (Some(current), injected)
    }

    /// Run the client-direction hooks on a client-bound message.
    pub fn process_client_message(&mut self, message: Message, env: &Env) -> (r: (
        Option<Message>,
        Vec<Message>,
    ))
        ensures
            ({
                let outcome = pipeline_run(true, old(self)@, message@, env@);
                &&& final(self)@ =~= outcome.states
                &&& opt_msg_view(r.0) == outcome.out
                &&& msgs_view(r.1@) =~= outcome.injected
            }),
    {
        self.run(true, message, env)
    }

    /// Run the server-direction hooks on a server-originated message.
    pub fn process_server_message(&mut self, message: Message, env: &Env) -> (r: (
        Option<Message>,
        Vec<Message>,
    ))
        ensures
            ({
                let outcome = pipeline_run(false, old(self)@, message@, env@);
                &&& final(self)@ =~= outcome.states
                &&& opt_msg_view(r.0) == outcome.out
                &&& msgs_view(r.1@) =~= outcome.injected
            }),
    {
        self.run(false, message, env)
    }

    /// Every read the pipeline needs answered before processing `message`:
    /// each stage's queries, in stage order.
    #[verifier::loop_isolation(false)]
    pub fn queries(&self, from_client: bool, message: &Message) -> (r: Vec<Query>)
        ensures
            queries_view(r@) =~= pipeline_queries(self@, from_client, message@),
    {
        let n = self.middlewares.len();
        let mut out: Vec<Query> = Vec::new();
        let mut i: usize = 0;
        proof {
            assert(self@.skip(0) =~= self@);
        }
        while i < n
            invariant
                n == self.middlewares@.len(),
                0 <= i <= n,
                pipeline_queries(self@, from_client, message@) =~= queries_view(out@)
                    + pipeline_queries(self@.skip(i as int), from_client, message@),
            decreases n - i,
        {
            let ghost acc0 = queries_view(out@);
            proof {
                assert(self@.skip(i as int)[0] == self@[i as int]);
                assert(self@.skip(i as int).drop_first() =~= self@.skip(i as int + 1));
                assert(self.middlewares@[i as int]@ == self@[i as int]);
            }
            let mut qs = self.middlewares[i].queries(from_client, message);
            let ghost qsv = queries_view(qs@);
            out.append(&mut qs);
            proof {
                assert(queries_view(out@) =~= acc0 + qsv);
                assert((acc0 + qsv) + pipeline_queries(
                    self@.skip(i as int + 1),
                    from_client,
                    message@,
                ) =~= acc0 + (qsv + pipeline_queries(
                    self@.skip(i as int + 1),
                    from_client,
                    message@,
                )));
            }
            i = i + 1;
        }
        proof {
            assert(self@.skip(n as int) =~= Seq::<MiddlewareView>::empty());
            assert(queries_view(out@) + Seq::<QueryView>::empty() =~= queries_view(out@));
        }
        out
    }
}

} // verus!
