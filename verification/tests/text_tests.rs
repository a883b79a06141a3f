use roslyn_proxy::csharp::{CsharpRoslynExtension, DapRequestKind};
use roslyn_proxy::json::JsonValue;
use roslyn_proxy::text::{contains_sub, ends_with, find_sub, replace_char, replace_sub, split_char,
    starts_with, str_eq, trim};

#[test]
fn test_str_eq_by_characters() {
    assert!(str_eq("abc", "abc"));
    assert!(!str_eq("abc", "abd"));
    assert!(!str_eq("abc", "ab"));
    assert!(str_eq("", ""));
}

#[test]
fn test_prefix_and_suffix() {
    assert!(starts_with("workspace/_roslyn_restore", "workspace/_roslyn_"));
    assert!(!starts_with("workspace", "workspace/"));
    assert!(ends_with("A.csproj", ".csproj"));
    assert!(!ends_with("A.cs", ".csproj"));
}

#[test]
fn test_find_and_contains() {
    assert_eq!(find_sub("hello world", "world"), Some(6));
    assert_eq!(find_sub("hello", "world"), None);
    assert!(contains_sub("a Project(\" line", "Project(\""));
}

#[test]
fn test_split_on_char() {
    let parts = split_char("a;b;;c", ';');
    assert_eq!(parts, vec!["a", "b", "", "c"]);
    assert_eq!(split_char("abc", ';'), vec!["abc"]);
}

#[test]
fn test_replace() {
    assert_eq!(replace_char("a\\b\\c", '\\', "/"), "a/b/c");
    assert_eq!(replace_sub("x/$TF/y/$TF", "$TF", "net8.0"), "x/net8.0/y/net8.0");
}

#[test]
fn test_trim_whitespace() {
    assert_eq!(trim("  Content-Length: 5\r\n"), "Content-Length: 5");
    assert_eq!(trim("\r\n"), "");
    assert_eq!(trim("x"), "x");
}

#[test]
fn test_dap_request_kind_classification() {
    let ext = CsharpRoslynExtension::new();

    let launch = JsonValue::Object(vec![(
        "request".to_string(),
        JsonValue::Str("launch".to_string()),
    )]);
    assert!(matches!(ext.dap_request_kind(&launch), Ok(DapRequestKind::Launch)));

    let attach = JsonValue::Object(vec![(
        "request".to_string(),
        JsonValue::Str("attach".to_string()),
    )]);
    assert!(matches!(ext.dap_request_kind(&attach), Ok(DapRequestKind::Attach)));

    let unknown = JsonValue::Object(vec![(
        "request".to_string(),
        JsonValue::Str("step".to_string()),
    )]);
    assert_eq!(ext.dap_request_kind(&unknown).unwrap_err(), "Unknown request type: step");

    let missing = JsonValue::Object(vec![]);
    assert_eq!(
        ext.dap_request_kind(&missing).unwrap_err(),
        "Missing 'request' field in debug configuration"
    );
}

#[test]
fn test_run_task_detection() {
    let ext = CsharpRoslynExtension::new();
    assert!(ext.is_run_task("dotnet run", &vec![]));
    assert!(ext.is_run_task("dotnet", &vec!["watch".to_string()]));
    assert!(!ext.is_run_task("dotnet build", &vec!["--verbose".to_string()]));
    assert!(!ext.is_run_task("cargo run", &vec![]));
}

#[test]
fn test_program_template_for_project() {
    let ext = CsharpRoslynExtension::new();
    assert_eq!(
        ext.program_for_project_arg("src/ConsoleApp/ConsoleApp.csproj"),
        "$ZED_WORKTREE_ROOT/src/ConsoleApp/bin/Debug/$TARGET_FRAMEWORK/ConsoleApp.dll"
    );
    assert_eq!(
        ext.program_for_project_arg("App.csproj"),
        "$ZED_WORKTREE_ROOT/./bin/Debug/$TARGET_FRAMEWORK/App.dll"
    );
}

#[test]
fn test_target_framework_substitution() {
    let ext = CsharpRoslynExtension::new();
    assert_eq!(
        ext.substitute_target_framework("/w/bin/Debug/$TARGET_FRAMEWORK/App.dll", "net6.0"),
        "/w/bin/Debug/net6.0/App.dll"
    );
}

#[test]
fn test_json_get_and_set() {
    let mut obj = JsonValue::Object(vec![
        ("a".to_string(), JsonValue::Int(1)),
        ("b".to_string(), JsonValue::Int(2)),
    ]);
    assert_eq!(obj.get("b").unwrap().as_i64(), Some(2));
    assert!(obj.get("c").is_none());

    obj.set_field("a", JsonValue::Int(10));
    obj.set_field("c", JsonValue::Bool(true));
    assert_eq!(obj.get("a").unwrap().as_i64(), Some(10));
    assert!(matches!(obj.get("c").unwrap(), JsonValue::Bool(true)));

    let copy = obj.dup();
    assert_eq!(copy.get("a").unwrap().as_i64(), Some(10));
}
