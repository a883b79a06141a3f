use roslyn_proxy::json::JsonValue;
use roslyn_proxy::message::{Message, MessageId, RequestMessage, ResponseMessage};
use roslyn_proxy::middleware::diagnostics::DiagnosticsMiddleware;
use roslyn_proxy::middleware::document_lifecycle::DocumentLifecycleMiddleware;
use roslyn_proxy::middleware::project_restore::ProjectRestoreMiddleware;
use roslyn_proxy::middleware::refresh::RefreshMiddleware;
use roslyn_proxy::middleware::{Action, Env, Query};

fn diagnostic_request(id: i64) -> Message {
    Message::Request(RequestMessage {
        jsonrpc: "2.0".to_string(),
        id: MessageId::Number(id),
        method: "textDocument/diagnostic".to_string(),
        params: None,
    })
}

fn response(id: i64, result: Option<JsonValue>) -> Message {
    Message::Response(ResponseMessage {
        jsonrpc: "2.0".to_string(),
        id: MessageId::Number(id),
        result,
        error: None,
    })
}

#[test]
fn test_diagnostics_null_result_filled() {
    let mut mw = DiagnosticsMiddleware::new();

    let action = mw.process_client_message(&diagnostic_request(3));
    assert!(matches!(action, Action::Continue));

    let action = mw.process_server_message(&response(3, Some(JsonValue::Null)));
    match action {
        Action::Replace(Message::Response(resp)) => {
            let result = resp.result.unwrap();
            assert_eq!(result.get("kind").unwrap().as_str().unwrap(), "full");
            match result.get("items").unwrap() {
                JsonValue::Array(items) => assert!(items.is_empty()),
                _ => panic!("expected an items array"),
            }
        }
        _ => panic!("expected the result to be filled in"),
    }
}

#[test]
fn test_diagnostics_absent_result_filled() {
    let mut mw = DiagnosticsMiddleware::new();
    mw.process_client_message(&diagnostic_request(4));
    let action = mw.process_server_message(&response(4, None));
    assert!(matches!(action, Action::Replace(_)));
}

#[test]
fn test_diagnostics_real_result_untouched() {
    let mut mw = DiagnosticsMiddleware::new();
    mw.process_client_message(&diagnostic_request(5));
    let report = JsonValue::Object(vec![("kind".to_string(), JsonValue::Str("full".to_string()))]);
    let action = mw.process_server_message(&response(5, Some(report)));
    assert!(matches!(action, Action::Continue));
}

#[test]
fn test_diagnostics_id_forgotten_once_matched() {
    let mut mw = DiagnosticsMiddleware::new();
    mw.process_client_message(&diagnostic_request(6));
    mw.process_server_message(&response(6, None));
    // The id was forgotten: a second response with it passes untouched.
    let action = mw.process_server_message(&response(6, None));
    assert!(matches!(action, Action::Continue));
}

#[test]
fn test_diagnostics_unremembered_response_untouched() {
    let mut mw = DiagnosticsMiddleware::new();
    let action = mw.process_server_message(&response(9, None));
    assert!(matches!(action, Action::Continue));
}

#[test]
fn test_refresh_only_fixes_array_or_null_params() {
    let mw = RefreshMiddleware::new();
    assert!(mw.is_refresh_method("workspace/codeLens/refresh"));
    assert!(!mw.is_refresh_method("workspace/other"));
    assert!(mw.should_fix_params(&Some(JsonValue::Array(vec![]))));
    assert!(mw.should_fix_params(&Some(JsonValue::Null)));
    assert!(!mw.should_fix_params(&Some(JsonValue::Object(vec![]))));
    assert!(!mw.should_fix_params(&None));
}

#[test]
fn test_document_lifecycle_tracks_open_and_close() {
    let mut mw = DocumentLifecycleMiddleware::new();
    let env = Env { files: vec![("file:///a/B.cs".to_string(), "class B {}".to_string())], projects: vec![] };

    let did_open = Message::Notification(roslyn_proxy::message::NotificationMessage {
        jsonrpc: "2.0".to_string(),
        method: "textDocument/didOpen".to_string(),
        params: Some(JsonValue::Object(vec![(
            "textDocument".to_string(),
            JsonValue::Object(vec![(
                "uri".to_string(),
                JsonValue::Str("file:///a/B.cs".to_string()),
            )]),
        )])),
    });
    mw.process_client_message(&did_open, &env);

    // The document is open: a request about it injects nothing.
    let request = Message::Request(RequestMessage {
        jsonrpc: "2.0".to_string(),
        id: MessageId::Number(1),
        method: "textDocument/hover".to_string(),
        params: Some(JsonValue::Object(vec![(
            "textDocument".to_string(),
            JsonValue::Object(vec![(
                "uri".to_string(),
                JsonValue::Str("file:///a/B.cs".to_string()),
            )]),
        )])),
    });
    let action = mw.process_client_message(&request, &env);
    assert!(matches!(action, Action::Continue));

    // After a close, the same request synthesizes an open again.
    let did_close = Message::Notification(roslyn_proxy::message::NotificationMessage {
        jsonrpc: "2.0".to_string(),
        method: "textDocument/didClose".to_string(),
        params: Some(JsonValue::Object(vec![(
            "textDocument".to_string(),
            JsonValue::Object(vec![(
                "uri".to_string(),
                JsonValue::Str("file:///a/B.cs".to_string()),
            )]),
        )])),
    });
    mw.process_client_message(&did_close, &env);
    let action = mw.process_client_message(&request, &env);
    assert!(matches!(action, Action::Inject(_)));
}

#[test]
fn test_document_lifecycle_unreadable_file_passes() {
    let mut mw = DocumentLifecycleMiddleware::new();
    let env = Env::new();
    let request = Message::Request(RequestMessage {
        jsonrpc: "2.0".to_string(),
        id: MessageId::Number(1),
        method: "textDocument/hover".to_string(),
        params: Some(JsonValue::Object(vec![(
            "textDocument".to_string(),
            JsonValue::Object(vec![(
                "uri".to_string(),
                JsonValue::Str("file:///a/C.cs".to_string()),
            )]),
        )])),
    });
    let action = mw.process_client_message(&request, &env);
    assert!(matches!(action, Action::Continue));
}

#[test]
fn test_solution_without_projects_not_opened() {
    let mut mw = roslyn_proxy::middleware::solution_loader::SolutionLoaderMiddleware::new();

    let init = Message::Request(RequestMessage {
        jsonrpc: "2.0".to_string(),
        id: MessageId::Number(1),
        method: "initialize".to_string(),
        params: Some(JsonValue::Object(vec![(
            "initializationOptions".to_string(),
            JsonValue::Object(vec![(
                "solution".to_string(),
                JsonValue::Str("file:///w/Empty.sln".to_string()),
            )]),
        )])),
    });
    let env = Env::new();
    mw.process_client_message(&init, &env);

    // The solution text declares no project: nothing is injected.
    let env = Env {
        files: vec![("file:///w/Empty.sln".to_string(), "just a header line\n".to_string())],
        projects: vec![],
    };
    let initialized = Message::Notification(roslyn_proxy::message::NotificationMessage {
        jsonrpc: "2.0".to_string(),
        method: "initialized".to_string(),
        params: None,
    });
    let action = mw.process_client_message(&initialized, &env);
    assert!(matches!(action, Action::Continue));
}

#[test]
fn test_restore_request_answered_not_injected() {
    let mut mw = ProjectRestoreMiddleware::new();
    let env = Env::new();

    let req = Message::Request(RequestMessage {
        jsonrpc: "2.0".to_string(),
        id: MessageId::Number(11),
        method: "workspace/_roslyn_projectNeedsRestore".to_string(),
        params: Some(JsonValue::Object(vec![(
            "UUID".to_string(),
            JsonValue::Str("r-1".to_string()),
        )])),
    });
    let action = mw.process_server_message(&req, &env);
    match action {
        Action::Replace(Message::Response(resp)) => {
            assert!(matches!(resp.id, MessageId::Number(11)));
            let result = resp.result.unwrap();
            assert!(matches!(
                result.get("needed_restore").unwrap(),
                JsonValue::Bool(true)
            ));
        }
        _ => panic!("expected a local answer"),
    }

    // The same UUID asks again: answered with needed_restore = false.
    let req = Message::Request(RequestMessage {
        jsonrpc: "2.0".to_string(),
        id: MessageId::Number(12),
        method: "workspace/_roslyn_projectNeedsRestore".to_string(),
        params: Some(JsonValue::Object(vec![(
            "UUID".to_string(),
            JsonValue::Str("r-1".to_string()),
        )])),
    });
    let action = mw.process_server_message(&req, &env);
    match action {
        Action::Replace(Message::Response(resp)) => {
            let result = resp.result.unwrap();
            assert!(matches!(
                result.get("needed_restore").unwrap(),
                JsonValue::Bool(false)
            ));
        }
        _ => panic!("expected a local answer"),
    }
}

#[test]
fn test_restore_paths_resolved_through_environment() {
    let mw = ProjectRestoreMiddleware::new();
    let env = Env {
        files: vec![],
        projects: vec![(
            "/w/App/Program.cs".to_string(),
            "/w/App/App.csproj".to_string(),
        )],
    };
    let params = Some(JsonValue::Object(vec![(
        "projectFilePaths".to_string(),
        JsonValue::Array(vec![
            JsonValue::Str("/w/App/Program.cs".to_string()),
            JsonValue::Str("/w/Lib/Lib.csproj".to_string()),
        ]),
    )]));
    let transformed = mw.transform_project_paths(&params, &env).unwrap();
    match transformed.get("projectFilePaths").unwrap() {
        JsonValue::Array(paths) => {
            assert_eq!(paths[0].as_str().unwrap(), "/w/App/App.csproj");
            assert_eq!(paths[1].as_str().unwrap(), "/w/Lib/Lib.csproj");
        }
        _ => panic!("expected a path array"),
    }
}

#[test]
fn test_restore_queries_name_unresolved_paths() {
    let mw = ProjectRestoreMiddleware::new();
    let msg = Message::Notification(roslyn_proxy::message::NotificationMessage {
        jsonrpc: "2.0".to_string(),
        method: "workspace/_roslyn_projectNeedsRestore".to_string(),
        params: Some(JsonValue::Object(vec![(
            "projectFilePaths".to_string(),
            JsonValue::Array(vec![
                JsonValue::Str("/w/App/Program.cs".to_string()),
                JsonValue::Str("/w/Lib/Lib.csproj".to_string()),
            ]),
        )])),
    });
    let queries = mw.queries(&msg);
    assert_eq!(queries.len(), 1);
    match &queries[0] {
        Query::ProjectFileNear(p) => assert_eq!(p, "/w/App/Program.cs"),
        _ => panic!("expected a project resolution query"),
    }
}
