//! Answers server-originated `workspace/configuration` requests locally from
//! a fixed table of configuration keys.
//!
//! The response is an array with one answer per requested item, in the same
//! order; a key outside the table answers `null`, and an item without a
//! `section` member is looked up under the empty key.

use vstd::prelude::*;
use crate::json::{json_get, JsonValue, JsonView};
use crate::message::{jsonrpc_tag, IdView, Message, MessageId, MessageView, ResponseView};
use crate::middleware::{Action, ActionView};

verus! {

broadcast use vstd::std_specs::vec::group_vec_axioms;

/// The interceptor that answers configuration requests.
pub struct ConfigurationMiddleware;

/// The answer for a configuration key carrying a language prefix, `csharp|`
/// or `visual_basic|`, given the part after the prefix.
pub open spec fn lang_key_answer(k: Seq<char>) -> JsonView {
    if k == "symbol_search.dotnet_search_reference_assemblies"@ {
        JsonView::Bool(true)
    } else if k == "completion.dotnet_show_completion_items_from_unimported_namespaces"@ {
        JsonView::Bool(true)
    } else if k == "completion.dotnet_trigger_completion_in_argument_lists"@ {
        JsonView::Bool(true)
    } else if k == "quick_info.dotnet_show_remarks_in_quick_info"@ {
        JsonView::Bool(true)
    } else if k == "code_style.formatting.indentation_and_spacing.tab_width"@ {
        JsonView::Int(4)
    } else if k == "code_style.formatting.indentation_and_spacing.indent_size"@ {
        JsonView::Int(4)
    } else if k == "code_style.formatting.indentation_and_spacing.indent_style"@ {
        JsonView::Str("space"@)
    } else if k == "background_analysis.dotnet_analyzer_diagnostics_scope"@ {
        JsonView::Str("openFiles"@)
    } else if k == "background_analysis.dotnet_compiler_diagnostics_scope"@ {
        JsonView::Str("openFiles"@)
    } else if k == "inlay_hints.dotnet_enable_inlay_hints_for_parameters"@ {
        JsonView::Bool(true)
    } else if k == "inlay_hints.dotnet_enable_inlay_hints_for_literal_parameters"@ {
        JsonView::Bool(true)
    } else if k == "inlay_hints.dotnet_enable_inlay_hints_for_indexer_parameters"@ {
        JsonView::Bool(true)
    } else if k == "inlay_hints.dotnet_enable_inlay_hints_for_object_creation_parameters"@ {
        JsonView::Bool(true)
    } else if k == "inlay_hints.dotnet_enable_inlay_hints_for_other_parameters"@ {
        JsonView::Bool(true)
    } else if k == "inlay_hints.dotnet_suppress_inlay_hints_for_parameters_that_differ_only_by_suffix"@ {
        JsonView::Bool(false)
    } else if k == "inlay_hints.dotnet_suppress_inlay_hints_for_parameters_that_match_method_intent"@ {
        JsonView::Bool(false)
    } else if k == "inlay_hints.dotnet_suppress_inlay_hints_for_parameters_that_match_argument_name"@ {
        JsonView::Bool(false)
    } else if k == "inlay_hints.csharp_enable_inlay_hints_for_types"@ {
        JsonView::Bool(true)
    } else if k == "inlay_hints.csharp_enable_inlay_hints_for_implicit_variable_types"@ {
        JsonView::Bool(true)
    } else if k == "inlay_hints.csharp_enable_inlay_hints_for_lambda_parameter_types"@ {
        JsonView::Bool(true)
    } else if k == "inlay_hints.csharp_enable_inlay_hints_for_implicit_object_creation"@ {
        JsonView::Bool(true)
    } else if k == "inlay_hints.csharp_enable_inlay_hints_for_collection_expressions"@ {
        JsonView::Bool(true)
    } else {
        JsonView::Null
    }
}

/// The answer for one configuration section name; unknown keys answer `null`.
pub open spec fn config_answer(s: Seq<char>) -> JsonView {
    if "csharp|"@.is_prefix_of(s) {
        lang_key_answer(s.skip("csharp|"@.len() as int))
    } else if "visual_basic|"@.is_prefix_of(s) {
        lang_key_answer(s.skip("visual_basic|"@.len() as int))
    } else if s == "navigation.dotnet_navigate_to_decompiled_sources"@ {
        JsonView::Bool(true)
    } else if s == "navigation.dotnet_navigate_to_source_link_and_embedded_sources"@ {
        JsonView::Bool(true)
    } else if s == "projects.dotnet_enable_automatic_restore"@ {
        JsonView::Bool(true)
    } else if s == "projects.dotnet_enable_file_based_programs"@ {
        JsonView::Bool(true)
    } else {
        JsonView::Null
    }
}

/// The section name of one requested item: its `section` member when that is
/// a string, the empty key otherwise.
pub open spec fn section_of(item: JsonView) -> Seq<char> {
    match json_get(item, "section"@) {
        Some(JsonView::Str(s)) => s,
        _ => Seq::empty(),
    }
}

/// One answer per requested item, in request order.
pub open spec fn config_answers(items: Seq<JsonView>) -> Seq<JsonView> {
    items.map_values(|it: JsonView| config_answer(section_of(it)))
}

/// The locally built response for a configuration request: defined when the
/// request's params carry an `items` array.
pub open spec fn config_response(id: IdView, params: JsonView) -> Option<MessageView> {
    match json_get(params, "items"@) {
        Some(JsonView::Array(items)) => Some(
            MessageView::Response(
                ResponseView {
                    jsonrpc: jsonrpc_tag(),
                    id: id,
                    result: Some(JsonView::Array(config_answers(items))),
                    error: None,
                },
            ),
        ),
        _ => None,
    }
}

/// The action taken on a server-originated message: a configuration request
/// with an `items` array is answered locally; everything else passes.
pub open spec fn server_action(m: MessageView) -> ActionView {
    match m {
        MessageView::Request(r) => {
            if r.method == "workspace/configuration"@ {
                match r.params {
                    Some(p) => match config_response(r.id, p) {
                        Some(resp) => ActionView::Replace(resp),
                        None => ActionView::Continue,
                    },
                    None => ActionView::Continue,
                }
            } else {
                ActionView::Continue
            }
        },
        _ => ActionView::Continue,
    }
}

/// The answer for a configuration key carrying a language prefix.
fn lang_key_answer_exec(k: &str) -> (r: JsonValue)
    ensures
        r@ == lang_key_answer(k@),
{
    if crate::text::str_eq(k, "symbol_search.dotnet_search_reference_assemblies") {
        JsonValue::Bool(true)
    } else if crate::text::str_eq(
        k,
        "completion.dotnet_show_completion_items_from_unimported_namespaces",
    ) {
        JsonValue::Bool(true)
    } else if crate::text::str_eq(k, "completion.dotnet_trigger_completion_in_argument_lists") {
        JsonValue::Bool(true)
    } else if crate::text::str_eq(k, "quick_info.dotnet_show_remarks_in_quick_info") {
        JsonValue::Bool(true)
    } else if crate::text::str_eq(k, "code_style.formatting.indentation_and_spacing.tab_width") {
        JsonValue::Int(4)
    } else if crate::text::str_eq(k, "code_style.formatting.indentation_and_spacing.indent_size") {
        JsonValue::Int(4)
    } else if crate::text::str_eq(k, "code_style.formatting.indentation_and_spacing.indent_style") {
        JsonValue::of_str("space")
    } else if crate::text::str_eq(k, "background_analysis.dotnet_analyzer_diagnostics_scope") {
        JsonValue::of_str("openFiles")
    } else if crate::text::str_eq(k, "background_analysis.dotnet_compiler_diagnostics_scope") {
        JsonValue::of_str("openFiles")
    } else if crate::text::str_eq(k, "inlay_hints.dotnet_enable_inlay_hints_for_parameters") {
        JsonValue::Bool(true)
    } else if crate::text::str_eq(
        k,
        "inlay_hints.dotnet_enable_inlay_hints_for_literal_parameters",
    ) {
        JsonValue::Bool(true)
    } else if crate::text::str_eq(
        k,
        "inlay_hints.dotnet_enable_inlay_hints_for_indexer_parameters",
    ) {
        JsonValue::Bool(true)
    } else if crate::text::str_eq(
        k,
        "inlay_hints.dotnet_enable_inlay_hints_for_object_creation_parameters",
    ) {
        JsonValue::Bool(true)
    } else if crate::text::str_eq(k, "inlay_hints.dotnet_enable_inlay_hints_for_other_parameters") {
        JsonValue::Bool(true)
    } else if crate::text::str_eq(
        k,
        "inlay_hints.dotnet_suppress_inlay_hints_for_parameters_that_differ_only_by_suffix",
    ) {
        JsonValue::Bool(false)
    } else if crate::text::str_eq(
        k,
        "inlay_hints.dotnet_suppress_inlay_hints_for_parameters_that_match_method_intent",
    ) {
        JsonValue::Bool(false)
    } else if crate::text::str_eq(
        k,
        "inlay_hints.dotnet_suppress_inlay_hints_for_parameters_that_match_argument_name",
    ) {
        JsonValue::Bool(false)
    } else if crate::text::str_eq(k, "inlay_hints.csharp_enable_inlay_hints_for_types") {
        JsonValue::Bool(true)
    } else if crate::text::str_eq(
        k,
        "inlay_hints.csharp_enable_inlay_hints_for_implicit_variable_types",
    ) {
        JsonValue::Bool(true)
    } else if crate::text::str_eq(
        k,
        "inlay_hints.csharp_enable_inlay_hints_for_lambda_parameter_types",
    ) {
        JsonValue::Bool(true)
    } else if crate::text::str_eq(
        k,
        "inlay_hints.csharp_enable_inlay_hints_for_implicit_object_creation",
    ) {
        JsonValue::Bool(true)
    } else if crate::text::str_eq(
        k,
        "inlay_hints.csharp_enable_inlay_hints_for_collection_expressions",
    ) {
        JsonValue::Bool(true)
    } else {
        JsonValue::Null
    }
}

/// The answer for one configuration section name.
fn config_answer_exec(s: &str) -> (r: JsonValue)
    ensures
        r@ == config_answer(s@),
{
    let slen = crate::text::char_len(s);
    if crate::text::starts_with(s, "csharp|") {
        let plen = crate::text::char_len("csharp|");
        let r = lang_key_answer_exec(s.substring_char(plen, slen));
        proof {
            assert(s@.subrange(plen as int, slen as int) =~= s@.skip(plen as int));
        }
        r
    } else if crate::text::starts_with(s, "visual_basic|") {
        let plen = crate::text::char_len("visual_basic|");
        let r = lang_key_answer_exec(s.substring_char(plen, slen));
        proof {
            assert(s@.subrange(plen as int, slen as int) =~= s@.skip(plen as int));
        }
        r
    } else if crate::text::str_eq(s, "navigation.dotnet_navigate_to_decompiled_sources") {
        JsonValue::Bool(true)
    } else if crate::text::str_eq(
        s,
        "navigation.dotnet_navigate_to_source_link_and_embedded_sources",
    ) {
        JsonValue::Bool(true)
    } else if crate::text::str_eq(s, "projects.dotnet_enable_automatic_restore") {
        JsonValue::Bool(true)
    } else if crate::text::str_eq(s, "projects.dotnet_enable_file_based_programs") {
        JsonValue::Bool(true)
    } else {
        JsonValue::Null
    }
}

impl ConfigurationMiddleware {
    /// A fresh interceptor.
    pub fn new() -> (r: Self) {
        ConfigurationMiddleware
    }

    /// The locally built response for a configuration request, when its
    /// params carry an `items` array.
    pub fn handle_configuration_request(&self, id: &MessageId, params: &JsonValue) -> (r: Option<
        Message,
    >)
        ensures
            match r {
                Some(m) => config_response(id@, params@) == Some(m@),
                None => config_response(id@, params@) is None,
            },
    {
        let items = match params.get("items") {
            Some(v) => v,
            None => {
                return None;
            },
        };
        let items = match items.as_array() {
            Some(a) => a,
            None => {
                return None;
            },
        };
        let ghost items_v = json_get(params@, "items"@)->Some_0->Array_0;
        let n = items.len();
        let mut answers: Vec<JsonValue> = Vec::new();
        let mut i: usize = 0;
        while i < n
            invariant
                n == items@.len(),
                items_v.len() == n,
                forall|j: int| 0 <= j < n ==> items_v[j] == items@[j]@,
                0 <= i <= n,
                answers@.len() == i,
                forall|j: int|
                    0 <= j < i ==> answers@[j]@ == config_answer(section_of(items_v[j])),
            decreases n - i,
        {
            let answer = match items[i].get("section") {
                Some(v) => match v.as_str() {
                    Some(s) => config_answer_exec(s.as_str()),
                    None => config_answer_exec(""),
                },
                None => config_answer_exec(""),
            };
            proof {
                reveal_strlit("");
                assert(""@ =~= Seq::<char>::empty());
                assert(answer@ == config_answer(section_of(items_v[i as int])));
            }
            answers.push(answer);
            i = i + 1;
        }
        let result = JsonValue::Array(answers);
        let response = Message::response_ok(id.dup(), result);
        proof {
            assert(result@->Array_0 =~= config_answers(items_v));
        }
        Some(response)
    }

    /// Client-bound messages pass through untouched.
    pub fn process_client_message(&self, message: &Message) -> (a: Action)
        ensures
            a@ == ActionView::Continue,
    {
        Action::Continue
    }

    /// Answer configuration requests locally; pass everything else.
    pub fn process_server_message(&self, message: &Message) -> (a: Action)
        ensures
            a@ == server_action(message@),
    {
        if let Message::Request(req) = message {
            if crate::text::str_eq(req.method.as_str(), "workspace/configuration") {
                if let Some(params) = &req.params {
                    if let Some(response) = self.handle_configuration_request(&req.id, params) {
                        return Action::Replace(response);
                    }
                }
            }
        }
        Action::Continue
    }
}

} // verus!
