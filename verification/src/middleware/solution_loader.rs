//! Opens the solution for the server once the client has initialized.
//!
//! On `initialize` the interceptor remembers the workspace root and, when the
//! initialization options name one, the solution file. On `initialized`, if
//! the remembered solution text can be read and declares at least one
//! project, it injects `solution/open` followed by `project/open` listing
//! every `.csproj` path the solution declares, relative paths resolved
//! against the solution's directory and backslashes normalized.

use vstd::prelude::*;
use crate::json::{json_get, JsonValue, JsonView};
use crate::message::{jsonrpc_tag, Message, MessageView, NotificationView};
use crate::middleware::{table_lookup, Action, ActionView, Env, EnvView, Query, QueryView};
use crate::text::{contains_seq, spec_replace_char, spec_split_char, strs_view};

verus! {

broadcast use vstd::std_specs::vec::group_vec_axioms;

/// The interceptor that remembers and opens the solution.
pub struct SolutionLoaderMiddleware {
    workspace_root: Option<String>,
    solution_uri: Option<String>,
}

/// The mathematical state of a [`SolutionLoaderMiddleware`].
#[verifier::ext_equal]
pub struct SolutionLoaderView {
    pub workspace_root: Option<Seq<char>>,
    pub solution_uri: Option<Seq<char>>,
}

impl View for SolutionLoaderMiddleware {
    type V = SolutionLoaderView;

    closed spec fn view(&self) -> SolutionLoaderView {
        SolutionLoaderView {
            workspace_root: match self.workspace_root {
                Some(s) => Some(s@),
                None => None,
            },
            solution_uri: match self.solution_uri {
                Some(s) => Some(s@),
                None => None,
            },
        }
    }
}

/// The workspace root an `initialize` payload names: `rootUri` when it is a
/// string, else `rootPath`.
pub open spec fn root_of_params(p: JsonView) -> Option<Seq<char>> {
    match json_get(p, "rootUri"@) {
        Some(JsonView::Str(u)) => Some(u),
        _ => match json_get(p, "rootPath"@) {
            Some(JsonView::Str(rp)) => Some(rp),
            _ => None,
        },
    }
}

/// The solution an `initialize` payload names under
/// `initializationOptions.solution`.
pub open spec fn solution_of_params(p: JsonView) -> Option<Seq<char>> {
    match json_get(p, "initializationOptions"@) {
        Some(io) => match json_get(io, "solution"@) {
            Some(JsonView::Str(s)) => Some(s),
            _ => None,
        },
        _ => None,
    }
}

/// The marker every project declaration line carries.
pub open spec fn project_marker() -> Seq<char> {
    "Project(\""@
}

/// The `.csproj` path one solution line declares: the sixth quoted field,
/// backslashes normalized, kept only when it ends in `.csproj`.
pub open spec fn line_project(line: Seq<char>) -> Option<Seq<char>> {
    if contains_seq(line, project_marker()) {
        let parts = spec_split_char(line, '"');
        if parts.len() >= 6 {
            let rel = spec_replace_char(parts[5], '\\', '/');
            if ".csproj"@.is_suffix_of(rel) {
                Some(rel)
            } else {
                None
            }
        } else {
            None
        }
    } else {
        None
    }
}

/// Index of the last occurrence of `c`, or -1 when absent.
pub open spec fn last_index_of(s: Seq<char>, c: char) -> int
    decreases s.len(),
{
    if s.len() == 0 {
        -1
    } else if s.last() == c {
        s.len() - 1
    } else {
        last_index_of(s.drop_last(), c)
    }
}

/// What [`last_index_of`] returns: the last position of `c`, or -1.
pub proof fn lemma_last_index_of(s: Seq<char>, c: char)
    ensures
        last_index_of(s, c) == -1 ==> forall|j: int| 0 <= j < s.len() ==> s[j] != c,
        last_index_of(s, c) != -1 ==> {
            let i = last_index_of(s, c);
            0 <= i < s.len() && s[i] == c && forall|j: int| i < j < s.len() ==> s[j] != c
        },
    decreases s.len(),
{
    if s.len() > 0 && s.last() != c {
        lemma_last_index_of(s.drop_last(), c);
        assert(forall|j: int| 0 <= j < s.len() - 1 ==> s[j] == s.drop_last()[j]);
    }
}

/// The directory part of a path or URI: everything before the last `/`, or
/// empty when there is none.
pub open spec fn dir_of(path: Seq<char>) -> Seq<char> {
    let i = last_index_of(path, '/');
    if i == -1 {
        Seq::empty()
    } else {
        path.take(i)
    }
}

/// A relative path joined onto a directory with `/`; an empty directory
/// leaves the path as it is.
pub open spec fn join_path(dir: Seq<char>, rel: Seq<char>) -> Seq<char> {
    if dir.len() == 0 {
        rel
    } else {
        dir + "/"@ + rel
    }
}

/// The projects declared on the given lines, joined onto the directory.
pub open spec fn projects_in(lines: Seq<Seq<char>>, dir: Seq<char>) -> Seq<Seq<char>>
    decreases lines.len(),
{
    if lines.len() == 0 {
        Seq::empty()
    } else {
        let rest = projects_in(lines.drop_first(), dir);
        match line_project(lines[0]) {
            Some(rel) => seq![join_path(dir, rel)] + rest,
            None => rest,
        }
    }
}

/// The projects a solution text declares, resolved against a directory.
pub open spec fn extract_projects(content: Seq<char>, dir: Seq<char>) -> Seq<Seq<char>> {
    projects_in(spec_split_char(content, '\n'), dir)
}

/// A usable solution text: at least one line declares a project.
pub open spec fn spec_validate_solution(content: Seq<char>) -> bool {
    exists|i: int|
        0 <= i < spec_split_char(content, '\n').len() && contains_seq(
            #[trigger] spec_split_char(content, '\n')[i],
            project_marker(),
        )
}

/// The notifications injected for a solution: `solution/open`, then — when
/// any projects were declared — `project/open` listing them in order.
pub open spec fn solution_notifications(sol_uri: Seq<char>, content: Seq<char>) -> Seq<
    MessageView,
> {
    let sol_open = MessageView::Notification(
        NotificationView {
            jsonrpc: jsonrpc_tag(),
            method: "solution/open"@,
            params: Some(JsonView::Object(seq![("solution"@, JsonView::Str(sol_uri))])),
        },
    );
    let projects = extract_projects(content, dir_of(sol_uri));
    if projects.len() == 0 {
        seq![sol_open]
    } else {
        seq![
            sol_open,
            MessageView::Notification(
                NotificationView {
                    jsonrpc: jsonrpc_tag(),
                    method: "project/open"@,
                    params: Some(
                        JsonView::Object(
                            seq![
                                (
                                    "projects"@,
                                    JsonView::Array(
                                        projects.map_values(|p: Seq<char>| JsonView::Str(p)),
                                    ),
                                ),
                            ],
                        ),
                    ),
                },
            ),
        ]
    }
}

/// What the interceptor does with a client-bound message.
pub open spec fn client_step(pre: SolutionLoaderView, m: MessageView, env: EnvView) -> (
    SolutionLoaderView,
    ActionView,
) {
    match m {
        MessageView::Request(r) => {
            if r.method == "initialize"@ {
                match r.params {
                    Some(p) => (
                        SolutionLoaderView {
                            workspace_root: match root_of_params(p) {
                                Some(x) => Some(x),
                                None => pre.workspace_root,
                            },
                            solution_uri: match solution_of_params(p) {
                                Some(x) => Some(x),
                                None => pre.solution_uri,
                            },
                        },
                        ActionView::Continue,
                    ),
                    None => (pre, ActionView::Continue),
                }
            } else {
                (pre, ActionView::Continue)
            }
        },
        MessageView::Notification(n) => {
            if n.method == "initialized"@ {
                match pre.solution_uri {
                    Some(su) => match table_lookup(env.files, su) {
                        Some(content) => {
                            if spec_validate_solution(content) {
                                (pre, ActionView::Inject(solution_notifications(su, content)))
                            } else {
                                (pre, ActionView::Continue)
                            }
                        },
                        None => (pre, ActionView::Continue),
                    },
                    None => (pre, ActionView::Continue),
                }
            } else {
                (pre, ActionView::Continue)
            }
        },
        _ => (pre, ActionView::Continue),
    }
}

/// The reads the interceptor needs: the remembered solution's text, at the
/// moment the client reports itself initialized.
pub open spec fn queries_spec(pre: SolutionLoaderView, m: MessageView) -> Seq<QueryView> {
    match m {
        MessageView::Notification(n) => {
            if n.method == "initialized"@ {
                match pre.solution_uri {
                    Some(su) => seq![QueryView::FileOfUri(su)],
                    None => Seq::empty(),
                }
            } else {
                Seq::empty()
            }
        },
        _ => Seq::empty(),
    }
}

/// The `.csproj` path one solution line declares.
fn line_project_exec(line: &str) -> (r: Option<String>)
    ensures
        match r {
            Some(p) => line_project(line@) == Some(p@),
            None => line_project(line@) is None,
        },
{
    if !crate::text::contains_sub(line, "Project(\"") {
        return None;
    }
    let parts = crate::text::split_char(line, '"');
    if parts.len() < 6 {
        proof {
            assert(parts.deep_view().len() == parts@.len());
        }
        return None;
    }
    proof {
        reveal_strlit("/");
        assert(parts.deep_view()[5] == parts@[5]@);
    }
    let rel = crate::text::replace_char(parts[5].as_str(), '\\', "/");
    if crate::text::ends_with(rel.as_str(), ".csproj") {
        Some(rel)
    } else {
        None
    }
}

/// A relative path joined onto a directory with `/`.
fn join_path_exec(dir: &str, rel: &str) -> (r: String)
    ensures
        r@ == join_path(dir@, rel@),
{
    if crate::text::char_len(dir) == 0 {
        crate::text::str_of(rel)
    } else {
        let mut s = crate::text::str_of(dir);
        s.append("/");
        s.append(rel);
        s
    }
}

/// The directory part of a path or URI.
fn dir_of_exec(path: &str) -> (r: String)
    ensures
        r@ == dir_of(path@),
{
    proof {
        lemma_last_index_of(path@, '/');
    }
    match crate::text::rfind_char(path, '/') {
        Some(i) => {
            let r = crate::text::substring(path, 0, i);
            proof {
                let li = last_index_of(path@, '/');
                assert(li == i as int);
                assert(path@.subrange(0, i as int) =~= path@.take(i as int));
            }
            r
        },
        None => {
            proof {
                assert(last_index_of(path@, '/') == -1) by {
                    if last_index_of(path@, '/') != -1 {
                        assert(path@[last_index_of(path@, '/')] == '/');
                    }
                };
            }
            String::new()
        },
    }
}

impl SolutionLoaderMiddleware {
    /// A fresh interceptor: nothing remembered yet.
    pub fn new() -> (r: Self)
        ensures
            r@ == (SolutionLoaderView { workspace_root: None, solution_uri: None }),
    {
        SolutionLoaderMiddleware { workspace_root: None, solution_uri: None }
    }

    /// Every `.csproj` path a solution text declares, resolved against the
    /// solution's directory.
    #[verifier::loop_isolation(false)]
    fn extract_project_files(&self, content: &str, solution_dir: &str) -> (r: Vec<String>)
        ensures
            strs_view(r@) =~= extract_projects(content@, solution_dir@),
    {
        let lines = crate::text::split_char(content, '\n');
        let ghost lines_v = lines.deep_view();
        let n = lines.len();
        let mut out: Vec<String> = Vec::new();
        let mut i: usize = 0;
        proof {
            assert(lines_v.skip(0) =~= lines_v);
        }
        while i < n
            invariant
                n == lines@.len(),
                lines_v == lines.deep_view(),
                lines_v.len() == n,
                0 <= i <= n,
                projects_in(lines_v, solution_dir@) =~= strs_view(out@) + projects_in(
                    lines_v.skip(i as int),
                    solution_dir@,
                ),
                forall|j: int| 0 <= j < n ==> lines_v[j] == #[trigger] lines@[j]@,
            decreases n - i,
        {
            let ghost out0 = strs_view(out@);
            proof {
                assert(lines_v.skip(i as int)[0] == lines_v[i as int]);
                assert(lines_v.skip(i as int).drop_first() =~= lines_v.skip(i as int + 1));
            }
            match line_project_exec(lines[i].as_str()) {
                Some(rel) => {
                    out.push(join_path_exec(solution_dir, rel.as_str()));
                    proof {
                        assert(strs_view(out@) =~= out0.push(
                            join_path(solution_dir@, rel@),
                        ));
                        assert(out0.push(join_path(solution_dir@, rel@)) + projects_in(
                            lines_v.skip(i as int + 1),
                            solution_dir@,
                        ) =~= out0 + (seq![join_path(solution_dir@, rel@)] + projects_in(
                            lines_v.skip(i as int + 1),
                            solution_dir@,
                        )));
                    }
                },
                None => {},
            }
            i = i + 1;
        }
        proof {
            assert(lines_v.skip(n as int) =~= Seq::<Seq<char>>::empty());
            assert(strs_view(out@) + Seq::<Seq<char>>::empty() =~= strs_view(out@));
        }
        out
    }

    /// Whether a solution text declares at least one project.
    #[verifier::loop_isolation(false)]
    fn validate_solution(&self, content: &str) -> (r: bool)
        ensures
            r == spec_validate_solution(content@),
    {
        let lines = crate::text::split_char(content, '\n');
        let n = lines.len();
        let mut i: usize = 0;
        while i < n
            invariant
                n == lines@.len(),
                lines.deep_view().len() == n,
                0 <= i <= n,
                forall|j: int|
                    0 <= j < i ==> !contains_seq(
                        #[trigger] spec_split_char(content@, '\n')[j],
                        project_marker(),
                    ),
                forall|j: int|
                    0 <= j < n ==> spec_split_char(content@, '\n')[j] == #[trigger] lines@[j]@,
            decreases n - i,
        {
            if crate::text::contains_sub(lines[i].as_str(), "Project(\"") {
                proof {
                    assert(contains_seq(
                        spec_split_char(content@, '\n')[i as int],
                        project_marker(),
                    ));
                }
                return true;
            }
            i = i + 1;
        }
        false
    }

    /// The two notifications injected for a validated solution.
    #[verifier::loop_isolation(false)]
    fn create_solution_and_project_notifications(&self, sol_uri: &str, content: &str) -> (r: Vec<
        Message,
    >)
        ensures
            crate::message::msgs_view(r@) =~= solution_notifications(sol_uri@, content@),
    {
        let mut sol_fields: Vec<(String, JsonValue)> = Vec::new();
        sol_fields.push((crate::text::str_of("solution"), JsonValue::of_str(sol_uri)));
        let sol_params = JsonValue::Object(sol_fields);
        proof {
            assert(sol_params@->Object_0 =~= seq![("solution"@, JsonView::Str(sol_uri@))]);
        }
        let sol_open = Message::notification("solution/open", Some(sol_params));
        let mut out: Vec<Message> = Vec::new();

        let dir = dir_of_exec(sol_uri);
        let project_files = self.extract_project_files(content, dir.as_str());
        let ghost projects = extract_projects(content@, dir_of(sol_uri@));
        if project_files.len() == 0 {
            out.push(sol_open);
            proof {
                assert(crate::message::msgs_view(out@) =~= solution_notifications(
                    sol_uri@,
                    content@,
                ));
            }
            return out;
        }
        let n = project_files.len();
        let mut uris: Vec<JsonValue> = Vec::new();
        let mut i: usize = 0;
        while i < n
            invariant
                n == project_files@.len(),
                projects.len() == n,
                forall|j: int| 0 <= j < n ==> projects[j] == #[trigger] project_files@[j]@,
                0 <= i <= n,
                uris@.len() == i,
                forall|j: int| 0 <= j < i ==> uris@[j]@ == JsonView::Str(projects[j]),
            decreases n - i,
        {
            uris.push(JsonValue::Str(project_files[i].clone()));
            i = i + 1;
        }
        let uris_value = JsonValue::Array(uris);
        proof {
            assert(uris_value@->Array_0 =~= projects.map_values(|p: Seq<char>| JsonView::Str(p)));
        }
        let ghost uris_view = uris_value@;
        let mut proj_fields: Vec<(String, JsonValue)> = Vec::new();
        proj_fields.push((crate::text::str_of("projects"), uris_value));
        let proj_params = JsonValue::Object(proj_fields);
        proof {
            assert(proj_params@->Object_0[0].1 == uris_view);
            assert(proj_params@->Object_0 =~= seq![
                (
                    "projects"@,
                    JsonView::Array(projects.map_values(|p: Seq<char>| JsonView::Str(p))),
                ),
            ]);
        }
        let proj_open = Message::notification("project/open", Some(proj_params));
        out.push(sol_open);
        out.push(proj_open);
        proof {
            assert(crate::message::msgs_view(out@) =~= solution_notifications(sol_uri@, content@));
        }
        out
    }

    /// Remember the workspace root and solution on `initialize`; open the
    /// solution toward the server on `initialized`.
    pub fn process_client_message(&mut self, message: &Message, env: &Env) -> (a: Action)
        ensures
            (final(self)@, a@) == client_step(old(self)@, message@, env@),
    {
        match message {
            Message::Request(req) => {
                if crate::text::str_eq(req.method.as_str(), "initialize") {
                    if let Some(params) = &req.params {
                        let root: Option<String> = match params.get("rootUri") {
                            Some(v) => match v.as_str() {
                                Some(s) => Some(s.clone()),
                                None => match params.get("rootPath") {
                                    Some(v2) => match v2.as_str() {
                                        Some(s2) => Some(s2.clone()),
                                        None => None,
                                    },
                                    None => None,
                                },
                            },
                            None => match params.get("rootPath") {
                                Some(v2) => match v2.as_str() {
                                    Some(s2) => Some(s2.clone()),
                                    None => None,
                                },
                                None => None,
                            },
                        };
                        let sol: Option<String> = match params.get("initializationOptions") {
                            Some(io) => match io.get("solution") {
                                Some(v) => match v.as_str() {
                                    Some(s) => Some(s.clone()),
                                    None => None,
                                },
                                None => None,
                            },
                            None => None,
                        };
                        if let Some(r) = root {
                            self.workspace_root = Some(r);
                        }
                        if let Some(s) = sol {
                            self.solution_uri = Some(s);
                        }
                    }
                }
                Action::Continue
            },
            Message::Notification(notif) => {
                if crate::text::str_eq(notif.method.as_str(), "initialized") {
                    let sol_uri: Option<String> = match &self.solution_uri {
                        Some(s) => Some(s.clone()),
                        None => None,
                    };
                    if let Some(su) = sol_uri {
                        if let Some(content) = env.file_of_uri(su.as_str()) {
                            let content = content.clone();
                            if self.validate_solution(content.as_str()) {
                                let notifications = self.create_solution_and_project_notifications(
                                    su.as_str(),
                                    content.as_str(),
                                );
                                return Action::Inject(notifications);
                            }
                        }
                    }
                }
                Action::Continue
            },
            _ => Action::Continue,
        }
    }

    /// Server-originated messages pass through untouched.
    pub fn process_server_message(&self, message: &Message) -> (a: Action)
        ensures
            a@ == ActionView::Continue,
    {
        Action::Continue
    }

    /// The reads this interceptor needs answered for `message`.
    pub fn queries(&self, message: &Message) -> (r: Vec<Query>)
        ensures
            crate::middleware::queries_view(r@) =~= queries_spec(self@, message@),
    {
        let mut out: Vec<Query> = Vec::new();
        if let Message::Notification(notif) = message {
            if crate::text::str_eq(notif.method.as_str(), "initialized") {
                if let Some(su) = &self.solution_uri {
                    out.push(Query::FileOfUri(su.clone()));
                }
            }
        }
        proof {
            assert(crate::middleware::queries_view(out@) =~= queries_spec(self@, message@));
        }
        out
    }
}

} // verus!
