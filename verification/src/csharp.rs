//! The extension-side decisions around the debug adapter: classifying debug
//! requests, recognizing run tasks, and shaping program paths. The process
//! spawning and editor plumbing around these decisions live with the caller.

use vstd::prelude::*;
use crate::json::{json_get, JsonValue, JsonView};
use crate::text::{contains_seq, spec_replace_sub, str_of, strs_view};
use crate::middleware::solution_loader::{last_index_of, lemma_last_index_of};

verus! {

broadcast use vstd::std_specs::vec::group_vec_axioms;

/// The C#/Roslyn editor extension.
pub struct CsharpRoslynExtension;

/// How a debug session starts.
#[derive(Debug)]
pub enum DapRequestKind {
    Launch,
    Attach,
}

/// What a debug configuration's `request` member means.
pub open spec fn spec_dap_request_kind(config: JsonView) -> Result<DapRequestKind, Seq<char>> {
    match json_get(config, "request"@) {
        Some(JsonView::Str(s)) => {
            if s == "launch"@ {
                Ok(DapRequestKind::Launch)
            } else if s == "attach"@ {
                Ok(DapRequestKind::Attach)
            } else {
                Err("Unknown request type: "@ + s)
            }
        },
        _ => Err("Missing 'request' field in debug configuration"@),
    }
}

/// A task that runs the program: a `dotnet run` or `dotnet watch` invocation.
pub open spec fn spec_is_run_task(command: Seq<char>, args: Seq<Seq<char>>) -> bool {
    contains_seq(command, "dotnet"@) && (contains_seq(command, "run"@) || contains_seq(
        command,
        "watch"@,
    ) || exists|i: int| 0 <= i < args.len() && (args[i] == "run"@ || args[i] == "watch"@))
}

/// Index of the last path separator, `/` or `\`.
pub open spec fn last_sep(s: Seq<char>) -> int {
    let a = last_index_of(s, '/');
    let b = last_index_of(s, '\\');
    if a >= b {
        a
    } else {
        b
    }
}

/// The debug program path template for a project file named in a run task:
/// the project's build output under `bin/Debug`, the target framework left as
/// a placeholder for launch time.
pub open spec fn spec_program_for_project_arg(project_arg: Seq<char>) -> Seq<char> {
    let dir = if last_sep(project_arg) == -1 {
        "."@
    } else {
        project_arg.take(last_sep(project_arg))
    };
    let base = project_arg.skip(last_sep(project_arg) + 1);
    let name = if ".csproj"@.is_suffix_of(base) {
        base.take(base.len() - ".csproj"@.len())
    } else {
        "app"@
    };
    "$ZED_WORKTREE_ROOT/"@ + spec_replace_sub(dir, "\\"@, "/"@) + "/bin/Debug/$TARGET_FRAMEWORK/"@
        + name + ".dll"@
}

impl CsharpRoslynExtension {
    /// A fresh extension value.
    pub fn new() -> (r: Self) {
        CsharpRoslynExtension
    }

    /// Classify a debug configuration's `request` member: `launch` or
    /// `attach`, an error naming an unknown kind, or an error for a missing
    /// member.
    pub fn dap_request_kind(&self, config: &JsonValue) -> (r: Result<DapRequestKind, String>)
        ensures
            match r {
                Ok(k) => spec_dap_request_kind(config@) == Ok::<DapRequestKind, Seq<char>>(k),
                Err(e) => spec_dap_request_kind(config@) == Err::<DapRequestKind, Seq<char>>(e@),
            },
    {
        if let Some(v) = config.get("request") {
            if let Some(s) = v.as_str() {
                if crate::text::str_eq(s.as_str(), "launch") {
                    return Ok(DapRequestKind::Launch);
                }
                if crate::text::str_eq(s.as_str(), "attach") {
                    return Ok(DapRequestKind::Attach);
                }
                let mut msg = str_of("Unknown request type: ");
                msg.append(s.as_str());
                return Err(msg);
            }
        }
        Err(str_of("Missing 'request' field in debug configuration"))
    }

    /// Whether a build task is a `dotnet run` or `dotnet watch` invocation
    /// worth a debug scenario.
    pub fn is_run_task(&self, command: &str, args: &Vec<String>) -> (r: bool)
        ensures
            r == spec_is_run_task(command@, strs_view(args@)),
    {
        if !crate::text::contains_sub(command, "dotnet") {
            return false;
        }
        if crate::text::contains_sub(command, "run") || crate::text::contains_sub(
            command,
            "watch",
        ) {
            return true;
        }
        let n = args.len();
        let mut i: usize = 0;
        while i < n
            invariant
                n == args@.len(),
                0 <= i <= n,
                contains_seq(command@, "dotnet"@),
                forall|j: int|
                    0 <= j < i ==> strs_view(args@)[j] != "run"@ && strs_view(args@)[j]
                        != "watch"@,
            decreases n - i,
        {
            if crate::text::str_eq(args[i].as_str(), "run") || crate::text::str_eq(
                args[i].as_str(),
                "watch",
            ) {
                proof {
                    assert(strs_view(args@)[i as int] == "run"@ || strs_view(args@)[i as int]
                        == "watch"@);
                }
                return true;
            }
            i = i + 1;
        }
        false
    }

    /// The debug program path template for the project file a run task names.
    pub fn program_for_project_arg(&self, project_arg: &str) -> (r: String)
        ensures
            r@ == spec_program_for_project_arg(project_arg@),
    {
        let plen = crate::text::char_len(project_arg);
        proof {
            lemma_last_index_of(project_arg@, '/');
            lemma_last_index_of(project_arg@, '\\');
        }
        let slash = crate::text::rfind_char(project_arg, '/');
        let backslash = crate::text::rfind_char(project_arg, '\\');
        proof {
            match slash {
                Some(i) => {
                    assert(last_index_of(project_arg@, '/') == i as int);
                },
                None => {
                    assert(last_index_of(project_arg@, '/') == -1) by {
                        if last_index_of(project_arg@, '/') != -1 {
                            assert(project_arg@[last_index_of(project_arg@, '/')] == '/');
                        }
                    };
                },
            }
            match backslash {
                Some(i) => {
                    assert(last_index_of(project_arg@, '\\') == i as int);
                },
                None => {
                    assert(last_index_of(project_arg@, '\\') == -1) by {
                        if last_index_of(project_arg@, '\\') != -1 {
                            assert(project_arg@[last_index_of(project_arg@, '\\')] == '\\');
                        }
                    };
                },
            }
        }
        let sep: Option<usize> = match (slash, backslash) {
            (Some(a), Some(b)) => if a >= b {
                Some(a)
            } else {
                Some(b)
            },
            (Some(a), None) => Some(a),
            (None, Some(b)) => Some(b),
            (None, None) => None,
        };
        let dir = match sep {
            Some(i) => crate::text::substring(project_arg, 0, i),
            None => str_of("."),
        };
        let base = match sep {
            Some(i) => crate::text::substring(project_arg, i + 1, plen),
            None => crate::text::substring(project_arg, 0, plen),
        };
        proof {
            assert(project_arg@.subrange(0, plen as int) =~= project_arg@);
            assert(base@ =~= project_arg@.skip(last_sep(project_arg@) + 1));
        }
        let blen = crate::text::char_len(base.as_str());
        let csproj_len = crate::text::char_len(".csproj");
        let name = if crate::text::ends_with(base.as_str(), ".csproj") {
            crate::text::substring(base.as_str(), 0, blen - csproj_len)
        } else {
            str_of("app")
        };
        let mut out = str_of("$ZED_WORKTREE_ROOT/");
        let normalized = crate::text::replace_sub(dir.as_str(), "\\", "/");
        out.append(normalized.as_str());
        out.append("/bin/Debug/$TARGET_FRAMEWORK/");
        out.append(name.as_str());
        out.append(".dll");
        proof {
            assert(spec_replace_sub(dir@, "\\"@, "/"@) == normalized@);
            assert(out@ =~= spec_program_for_project_arg(project_arg@));
        }
        out
    }

    /// The program path with its target-framework placeholder filled in from
    /// the project's declaration.
    pub fn substitute_target_framework(&self, program: &str, target_framework: &str) -> (r: String)
        ensures
            r@ == spec_replace_sub(program@, "$TARGET_FRAMEWORK"@, target_framework@),
    {
        crate::text::replace_sub(program, "$TARGET_FRAMEWORK", target_framework)
    }
}

} // verus!
