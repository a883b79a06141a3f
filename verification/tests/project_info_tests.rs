use roslyn_proxy::json::JsonValue;
use roslyn_proxy::project_info::{extract_tag_value, get_unity_omnisharp_config, DotNetProject,
    OutputType};

#[test]
fn test_dotnet_project_from_csproj_basic() {
    let csproj_content = r#"
<Project Sdk="Microsoft.NET.Sdk">
  <PropertyGroup>
    <TargetFramework>net8.0</TargetFramework>
    <OutputType>Exe</OutputType>
    <AssemblyName>TestApp</AssemblyName>
  </PropertyGroup>
</Project>
"#;
    let project = DotNetProject::from_csproj_text(csproj_content, "TestApp.csproj");

    assert_eq!(project.target_framework, "net8.0");
    assert_eq!(project.assembly_name, "TestApp");
    assert!(matches!(project.output_type, OutputType::Exe));
}

#[test]
fn test_dotnet_project_from_csproj_library() {
    let csproj_content = r#"
<Project Sdk="Microsoft.NET.Sdk">
  <PropertyGroup>
    <TargetFramework>net6.0</TargetFramework>
    <OutputType>Library</OutputType>
    <AssemblyName>MyLibrary</AssemblyName>
  </PropertyGroup>
</Project>
"#;
    let project = DotNetProject::from_csproj_text(csproj_content, "MyLibrary.csproj");

    assert_eq!(project.target_framework, "net6.0");
    assert_eq!(project.assembly_name, "MyLibrary");
    assert!(matches!(project.output_type, OutputType::Library));
}

#[test]
fn test_dotnet_project_fallback_values() {
    let csproj_content = r#"
<Project Sdk="Microsoft.NET.Sdk">
  <PropertyGroup>
  </PropertyGroup>
</Project>
"#;
    let project = DotNetProject::from_csproj_text(csproj_content, "TestProject.csproj");

    assert_eq!(project.target_framework, "net8.0"); // fallback
    assert_eq!(project.assembly_name, "TestProject"); // from filename
    assert!(matches!(project.output_type, OutputType::Library)); // fallback
}

#[test]
fn test_dotnet_project_multiple_target_frameworks() {
    let csproj_content = r#"
<Project Sdk="Microsoft.NET.Sdk">
  <PropertyGroup>
    <TargetFrameworks>net6.0;net8.0;net462</TargetFrameworks>
    <AssemblyName>MultiTargetApp</AssemblyName>
  </PropertyGroup>
</Project>
"#;
    let project = DotNetProject::from_csproj_text(csproj_content, "MultiTargetApp.csproj");

    assert_eq!(project.target_framework, "net6.0"); // first one
    assert_eq!(project.assembly_name, "MultiTargetApp");
}

#[test]
fn test_extract_tag_value_with_attributes() {
    let text = r#"<OutputType Condition="'$(X)' == ''">WinExe</OutputType>"#;
    let value = extract_tag_value(text, "OutputType").unwrap();
    assert_eq!(value, "WinExe");
}

#[test]
fn test_extract_tag_value_missing() {
    assert!(extract_tag_value("<A>1</A>", "B").is_none());
}

#[test]
fn test_unity_omnisharp_config_structure() {
    let config = get_unity_omnisharp_config();

    // Verify basic structure
    assert!(config.get("RoslynExtensionsOptions").is_some());
    assert!(config.get("FileOptions").is_some());
    assert!(config.get("Plugins").is_some());

    // Verify Unity-specific excludes
    let file_options = config.get("FileOptions").unwrap();
    let excludes = match file_options.get("excludeSearchPatterns").unwrap() {
        JsonValue::Array(items) => items,
        _ => panic!("expected an array of patterns"),
    };

    let has = |want: &str| {
        excludes.iter().any(|v| match v {
            JsonValue::Str(s) => s == want,
            _ => false,
        })
    };
    assert!(has("**/Library/**"));
    assert!(has("**/Temp/**"));
    assert!(has("**/Logs/**"));

    // Verify Unity plugin is enabled
    let plugins = config.get("Plugins").unwrap();
    let unity = plugins.get("Unity").unwrap();
    assert!(matches!(unity.get("enabled").unwrap(), JsonValue::Bool(true)));
}

#[test]
fn test_output_path_shape() {
    let csproj_content = "<TargetFramework>net8.0</TargetFramework><OutputType>Exe</OutputType>";
    let project = DotNetProject::from_csproj_text(csproj_content, "src/App/App.csproj");
    assert_eq!(project.get_output_path("Debug"), "src/App/bin/Debug/net8.0/App.exe");

    let library = DotNetProject::from_csproj_text("", "Lib.csproj");
    assert_eq!(library.get_output_path("Release"), "./bin/Release/net8.0/Lib.dll");
}
