use roslyn_proxy::json::JsonValue;
use roslyn_proxy::message::{Message, NotificationMessage};
use roslyn_proxy::middleware::custom::CustomNotificationsMiddleware;
use roslyn_proxy::middleware::Action;

fn notification(method: &str, params: Option<JsonValue>) -> Message {
    Message::Notification(NotificationMessage {
        jsonrpc: "2.0".to_string(),
        method: method.to_string(),
        params,
    })
}

#[test]
fn test_blocks_project_restore_notification() {
    let middleware = CustomNotificationsMiddleware::new();

    let params = JsonValue::Object(vec![(
        "projectFilePath".to_string(),
        JsonValue::Str("/path/to/project.csproj".to_string()),
    )]);
    let msg = notification("workspace/_roslyn_projectNeedsRestore", Some(params));

    let action = middleware.process_server_message(&msg);

    assert!(matches!(action, Action::Block));
}

#[test]
fn test_logs_metadata_notifications() {
    let middleware = CustomNotificationsMiddleware::new();

    let methods = vec!["roslyn/beginMetadataAsSource", "roslyn/endMetadataAsSource"];

    for method in methods {
        let params = JsonValue::Object(vec![(
            "uri".to_string(),
            JsonValue::Str("file:///tmp/System.String.cs".to_string()),
        )]);
        let msg = notification(method, Some(params));

        let action = middleware.process_server_message(&msg);

        assert!(matches!(action, Action::Continue), "Failed to allow: {}", method);
    }
}

#[test]
fn test_converts_open_document_notification() {
    let middleware = CustomNotificationsMiddleware::new();

    let params = JsonValue::Object(vec![
        ("uri".to_string(), JsonValue::Str("file:///tmp/System.String.cs".to_string())),
        ("text".to_string(), JsonValue::Str("namespace System { }".to_string())),
    ]);
    let msg = notification("workspace/_roslyn_openDocument", Some(params));

    let action = middleware.process_server_message(&msg);

    match action {
        Action::Replace(Message::Notification(notif)) => {
            assert_eq!(notif.method, "textDocument/didOpen");
            let params = notif.params.unwrap();
            let td = params.get("textDocument").unwrap();
            assert_eq!(
                td.get("uri").unwrap().as_str().unwrap(),
                "file:///tmp/System.String.cs"
            );
            assert_eq!(td.get("languageId").unwrap().as_str().unwrap(), "csharp");
            assert_eq!(td.get("text").unwrap().as_str().unwrap(), "namespace System { }");
        }
        _ => panic!("Expected Replace action"),
    }
}

#[test]
fn test_passes_through_standard_notifications() {
    let middleware = CustomNotificationsMiddleware::new();

    let msg = notification("textDocument/publishDiagnostics", None);

    let action = middleware.process_server_message(&msg);

    assert!(matches!(action, Action::Continue));
}

#[test]
fn test_blocks_malformed_open_document() {
    let middleware = CustomNotificationsMiddleware::new();

    let params = JsonValue::Object(vec![(
        "invalid".to_string(),
        JsonValue::Str("params".to_string()),
    )]);
    let msg = notification("workspace/_roslyn_openDocument", Some(params));

    let action = middleware.process_server_message(&msg);

    assert!(matches!(action, Action::Block));
}

#[test]
fn test_blocks_project_restore_request() {
    let middleware = CustomNotificationsMiddleware::new();

    let msg = Message::Request(roslyn_proxy::message::RequestMessage {
        jsonrpc: "2.0".to_string(),
        id: roslyn_proxy::message::MessageId::Number(8),
        method: "workspace/_roslyn_projectNeedsRestore".to_string(),
        params: None,
    });

    let action = middleware.process_server_message(&msg);

    assert!(matches!(action, Action::Block));
}

#[test]
fn test_unknown_roslyn_methods_pass_through() {
    let middleware = CustomNotificationsMiddleware::new();

    let msg = notification("workspace/_roslyn_somethingNew", None);
    let action = middleware.process_server_message(&msg);
    assert!(matches!(action, Action::Continue));

    let msg = notification("workspace/projectInitializationComplete", None);
    let action = middleware.process_server_message(&msg);
    assert!(matches!(action, Action::Continue));
}
