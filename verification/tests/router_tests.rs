use roslyn_proxy::json::JsonValue;
use roslyn_proxy::message::{Message, MessageId, NotificationMessage, RequestMessage,
    ResponseMessage};
use roslyn_proxy::middleware::capability_registration::CapabilityRegistrationMiddleware;
use roslyn_proxy::middleware::configuration::ConfigurationMiddleware;
use roslyn_proxy::middleware::custom::CustomNotificationsMiddleware;
use roslyn_proxy::middleware::definition_logger::DefinitionLoggerMiddleware;
use roslyn_proxy::middleware::diagnostics::DiagnosticsMiddleware;
use roslyn_proxy::middleware::document_lifecycle::DocumentLifecycleMiddleware;
use roslyn_proxy::middleware::initialization::InitializationMiddleware;
use roslyn_proxy::middleware::inlay_hints::InlayHintsMiddleware;
use roslyn_proxy::middleware::project_restore::ProjectRestoreMiddleware;
use roslyn_proxy::middleware::refresh::RefreshMiddleware;
use roslyn_proxy::middleware::solution_loader::SolutionLoaderMiddleware;
use roslyn_proxy::middleware::{Env, Middleware, MiddlewarePipeline};
use roslyn_proxy::router::Router;

fn full_pipeline() -> MiddlewarePipeline {
    MiddlewarePipeline::new()
        .add(Middleware::Initialization(InitializationMiddleware::new()))
        .add(Middleware::DocumentLifecycle(DocumentLifecycleMiddleware::new()))
        .add(Middleware::SolutionLoader(SolutionLoaderMiddleware::new()))
        .add(Middleware::ProjectRestore(ProjectRestoreMiddleware::new()))
        .add(Middleware::Configuration(ConfigurationMiddleware::new()))
        .add(Middleware::CapabilityRegistration(CapabilityRegistrationMiddleware::new()))
        .add(Middleware::DefinitionLogger(DefinitionLoggerMiddleware::new()))
        .add(Middleware::Diagnostics(DiagnosticsMiddleware::new()))
        .add(Middleware::InlayHints(InlayHintsMiddleware::new()))
        .add(Middleware::Refresh(RefreshMiddleware::new()))
        .add(Middleware::Custom(CustomNotificationsMiddleware::new()))
}

fn request(id: i64, method: &str, params: Option<JsonValue>) -> Message {
    Message::Request(RequestMessage {
        jsonrpc: "2.0".to_string(),
        id: MessageId::Number(id),
        method: method.to_string(),
        params,
    })
}

fn notification(method: &str, params: Option<JsonValue>) -> Message {
    Message::Notification(NotificationMessage {
        jsonrpc: "2.0".to_string(),
        method: method.to_string(),
        params,
    })
}

#[test]
fn test_plain_request_round_trip() {
    let mut router = Router::new(full_pipeline());
    let env = Env::new();

    let params = JsonValue::Object(vec![(
        "textDocument".to_string(),
        JsonValue::Object(vec![(
            "uri".to_string(),
            JsonValue::Str("file:///tmp/A.txt".to_string()),
        )]),
    )]);
    let writes = router.route_client_to_server(request(42, "textDocument/hover", Some(params)), &env);

    assert_eq!(writes.len(), 1);
    match &writes[0] {
        Message::Request(req) => {
            assert!(matches!(req.id, MessageId::Number(1)));
            assert_eq!(req.method, "textDocument/hover");
        }
        _ => panic!("expected a request"),
    }

    let response = Message::Response(ResponseMessage {
        jsonrpc: "2.0".to_string(),
        id: MessageId::Number(1),
        result: Some(JsonValue::Object(vec![(
            "contents".to_string(),
            JsonValue::Str("x".to_string()),
        )])),
        error: None,
    });
    let routed = router.route_server_to_client(response, &env);

    assert!(routed.to_server.is_empty());
    match routed.to_client {
        Some(Message::Response(resp)) => {
            assert!(matches!(resp.id, MessageId::Number(42)));
            let result = resp.result.unwrap();
            assert_eq!(result.get("contents").unwrap().as_str().unwrap(), "x");
        }
        _ => panic!("expected a response to the client"),
    }
}

#[test]
fn test_configuration_request_answered_locally() {
    let mut router = Router::new(full_pipeline());
    let env = Env::new();

    let items = JsonValue::Array(vec![
        JsonValue::Object(vec![(
            "section".to_string(),
            JsonValue::Str("projects.dotnet_enable_automatic_restore".to_string()),
        )]),
        JsonValue::Object(vec![(
            "section".to_string(),
            JsonValue::Str("unknown.section".to_string()),
        )]),
    ]);
    let params = JsonValue::Object(vec![("items".to_string(), items)]);
    let routed = router.route_server_to_client(request(7, "workspace/configuration", Some(params)), &env);

    assert!(routed.to_client.is_none());
    assert_eq!(routed.to_server.len(), 1);
    match &routed.to_server[0] {
        Message::Response(resp) => {
            assert!(matches!(resp.id, MessageId::Number(7)));
            match resp.result.as_ref().unwrap() {
                JsonValue::Array(answers) => {
                    assert_eq!(answers.len(), 2);
                    assert!(matches!(answers[0], JsonValue::Bool(true)));
                    assert!(matches!(answers[1], JsonValue::Null));
                }
                _ => panic!("expected an array result"),
            }
        }
        _ => panic!("expected a response to the server"),
    }
}

#[test]
fn test_register_capability_suppressed() {
    let mut router = Router::new(full_pipeline());
    let env = Env::new();

    let params = JsonValue::Object(vec![(
        "registrations".to_string(),
        JsonValue::Array(vec![]),
    )]);
    let routed = router.route_server_to_client(request(9, "client/registerCapability", Some(params)), &env);

    assert!(routed.to_client.is_none());
    assert_eq!(routed.to_server.len(), 1);
    match &routed.to_server[0] {
        Message::Response(resp) => {
            assert!(matches!(resp.id, MessageId::Number(9)));
            assert!(matches!(resp.result, Some(JsonValue::Null)));
            assert!(resp.error.is_none());
        }
        _ => panic!("expected a response to the server"),
    }
}

#[test]
fn test_open_document_synthesis() {
    let mut router = Router::new(full_pipeline());
    let env = Env {
        files: vec![(
            "file:///tmp/A.cs".to_string(),
            "namespace A { class C { } }".to_string(),
        )],
        projects: vec![],
    };

    let params = JsonValue::Object(vec![(
        "textDocument".to_string(),
        JsonValue::Object(vec![(
            "uri".to_string(),
            JsonValue::Str("file:///tmp/A.cs".to_string()),
        )]),
    )]);
    let writes = router.route_client_to_server(request(100, "textDocument/definition", Some(params)), &env);

    assert_eq!(writes.len(), 2);
    match &writes[0] {
        Message::Notification(notif) => {
            assert_eq!(notif.method, "textDocument/didOpen");
            let params = notif.params.as_ref().unwrap();
            let td = params.get("textDocument").unwrap();
            assert_eq!(td.get("uri").unwrap().as_str().unwrap(), "file:///tmp/A.cs");
            assert_eq!(td.get("languageId").unwrap().as_str().unwrap(), "csharp");
            assert_eq!(td.get("version").unwrap().as_i64().unwrap(), 0);
            assert_eq!(
                td.get("text").unwrap().as_str().unwrap(),
                "namespace A { class C { } }"
            );
        }
        _ => panic!("expected the synthesized open first"),
    }
    match &writes[1] {
        Message::Request(req) => {
            assert!(matches!(req.id, MessageId::Number(1)));
            assert_eq!(req.method, "textDocument/definition");
        }
        _ => panic!("expected the remapped request second"),
    }

    // A second request about the same document injects nothing more.
    let params = JsonValue::Object(vec![(
        "textDocument".to_string(),
        JsonValue::Object(vec![(
            "uri".to_string(),
            JsonValue::Str("file:///tmp/A.cs".to_string()),
        )]),
    )]);
    let writes = router.route_client_to_server(request(101, "textDocument/hover", Some(params)), &env);
    assert_eq!(writes.len(), 1);
}

#[test]
fn test_restore_dedup() {
    let mut router = Router::new(full_pipeline());
    let env = Env::new();

    let needs_restore = |uuid: &str| {
        notification(
            "workspace/_roslyn_projectNeedsRestore",
            Some(JsonValue::Object(vec![
                ("UUID".to_string(), JsonValue::Str(uuid.to_string())),
                (
                    "projectFilePaths".to_string(),
                    JsonValue::Array(vec![JsonValue::Str("/w/App/App.csproj".to_string())]),
                ),
            ])),
        )
    };

    let routed = router.route_server_to_client(needs_restore("u-1"), &env);
    assert!(routed.to_client.is_none());
    assert_eq!(routed.to_server.len(), 1);
    match &routed.to_server[0] {
        Message::Request(req) => {
            assert!(matches!(req.id, MessageId::Number(90000)));
            assert_eq!(req.method, "workspace/_roslyn_restore");
        }
        _ => panic!("expected the injected restore request"),
    }

    // The same UUID again: blocked, nothing injected.
    let routed = router.route_server_to_client(needs_restore("u-1"), &env);
    assert!(routed.to_client.is_none());
    assert!(routed.to_server.is_empty());

    // The cycle completes; the next trigger starts a new one.
    let complete = notification(
        "workspace/_roslyn_restoreComplete",
        Some(JsonValue::Object(vec![(
            "UUID".to_string(),
            JsonValue::Str("u-1".to_string()),
        )])),
    );
    let routed = router.route_server_to_client(complete, &env);
    assert!(routed.to_server.is_empty());

    let routed = router.route_server_to_client(needs_restore("u-1"), &env);
    assert_eq!(routed.to_server.len(), 1);
    match &routed.to_server[0] {
        Message::Request(req) => {
            assert!(matches!(req.id, MessageId::Number(90001)));
        }
        _ => panic!("expected a second restore request"),
    }
}

#[test]
fn test_refresh_param_fix() {
    let mut router = Router::new(full_pipeline());
    let env = Env::new();

    let msg = notification("workspace/diagnostic/refresh", Some(JsonValue::Array(vec![])));
    let routed = router.route_server_to_client(msg, &env);

    assert!(routed.to_server.is_empty());
    match routed.to_client {
        Some(Message::Notification(notif)) => {
            assert_eq!(notif.method, "workspace/diagnostic/refresh");
            assert!(notif.params.is_none());
        }
        _ => panic!("expected the notification forwarded without params"),
    }
}

#[test]
fn test_unknown_response_id_dropped() {
    let mut router = Router::new(full_pipeline());
    let env = Env::new();

    let response = Message::Response(ResponseMessage {
        jsonrpc: "2.0".to_string(),
        id: MessageId::Number(77),
        result: Some(JsonValue::Bool(true)),
        error: None,
    });
    let routed = router.route_server_to_client(response, &env);

    assert!(routed.to_server.is_empty());
    assert!(routed.to_client.is_none());
}

#[test]
fn test_solution_opened_after_initialized() {
    let mut router = Router::new(full_pipeline());

    let init_params = JsonValue::Object(vec![
        ("rootUri".to_string(), JsonValue::Str("file:///w".to_string())),
        (
            "initializationOptions".to_string(),
            JsonValue::Object(vec![(
                "solution".to_string(),
                JsonValue::Str("file:///w/App.sln".to_string()),
            )]),
        ),
    ]);
    let env = Env::new();
    let writes = router.route_client_to_server(request(1, "initialize", Some(init_params)), &env);
    assert_eq!(writes.len(), 1);

    let solution_text = "Microsoft Visual Studio Solution File, Format Version 12.00\nProject(\"{GUID}\") = \"App\", \"src\\App\\App.csproj\", \"{OTHER}\"\nEndProject\n";
    let env = Env {
        files: vec![("file:///w/App.sln".to_string(), solution_text.to_string())],
        projects: vec![],
    };
    let writes = router.route_client_to_server(notification("initialized", None), &env);

    assert_eq!(writes.len(), 3);
    match &writes[0] {
        Message::Notification(notif) => {
            assert_eq!(notif.method, "solution/open");
            let params = notif.params.as_ref().unwrap();
            assert_eq!(
                params.get("solution").unwrap().as_str().unwrap(),
                "file:///w/App.sln"
            );
        }
        _ => panic!("expected solution/open first"),
    }
    match &writes[1] {
        Message::Notification(notif) => {
            assert_eq!(notif.method, "project/open");
            let params = notif.params.as_ref().unwrap();
            match params.get("projects").unwrap() {
                JsonValue::Array(projects) => {
                    assert_eq!(projects.len(), 1);
                    assert_eq!(
                        projects[0].as_str().unwrap(),
                        "file:///w/src/App/App.csproj"
                    );
                }
                _ => panic!("expected a project list"),
            }
        }
        _ => panic!("expected project/open second"),
    }
    match &writes[2] {
        Message::Notification(notif) => assert_eq!(notif.method, "initialized"),
        _ => panic!("expected the original notification last"),
    }
}
