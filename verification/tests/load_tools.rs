use miyu::tools::load_tools::{dynamic_description, execute, register, tools_xml, xml_escape, BASE_DESCRIPTION};
use miyu::tools::registry::{ToolRegistry, ToolSpec, UnregisteredScript};

fn spec(name: &str, description: &str, parameters: &str) -> ToolSpec {
    ToolSpec::new(name.to_string(), description.to_string(), parameters.to_string())
}

fn sample_registry() -> ToolRegistry {
    let mut registry = ToolRegistry::new();
    register(&mut registry);
    let mut builtin = spec("custom_builtin", "Built in", "{\"type\":\"object\",\"properties\":{}}");
    builtin.always_loaded = false;
    registry.register(builtin);
    let mut script = spec(
        "lazy_script",
        "Lazy script",
        "{\"type\":\"object\",\"properties\":{\"query\":{\"type\":\"string\"}}}",
    );
    script.is_script = true;
    script.always_loaded = false;
    registry.register(script);
    registry.set_unregistered_scripts(vec![UnregisteredScript {
        name: "unknown_script".to_string(),
        path: "unknown-script".to_string(),
    }]);
    registry
}

#[test]
fn description_separates_builtin_scripts_and_unregistered_files() {
    let registry = sample_registry();
    let description = dynamic_description(&registry, &[]);
    assert!(description.contains("<available_tools>"));
    assert!(description.contains("custom_builtin"));
    assert!(description.contains("<available_scripts>"));
    assert!(description.contains("lazy_script"));
    assert!(description.contains("<unregistered_scripts>"));
    assert!(description.contains("unknown-script"));
    assert!(description.starts_with(BASE_DESCRIPTION));
}

#[test]
fn registry_loads_dynamic_script_definition() {
    let registry = sample_registry();
    let names = vec!["lazy_script".to_string()];
    let loaded = execute(Some(&names), &registry).unwrap();
    assert_eq!(loaded.len(), 1);
    assert_eq!(loaded[0].name, "lazy_script");
    assert_eq!(loaded[0].kind, "script");
    assert_eq!(loaded[0].permission, "readonly");
    assert_eq!(loaded[0].display_name, "lazy_script");
}

#[test]
fn catalogue_lists_each_kind_exactly() {
    let registry = sample_registry();
    assert_eq!(
        tools_xml("available_scripts", "script", &registry, &[], true),
        "<available_scripts>\n  <script>\n    <name>lazy_script</name>\n    <display_name>lazy_script</display_name>\n    <description>Lazy script</description>\n  </script>\n</available_scripts>"
    );
    let loaded = vec!["custom_builtin".to_string()];
    assert_eq!(
        tools_xml("available_tools", "tool", &registry, &loaded, false),
        "<available_tools>\n\n</available_tools>"
    );
    let description = dynamic_description(&registry, &loaded);
    assert!(!description.contains("<name>custom_builtin</name>"));
    assert!(!description.contains("<name>load_tools</name>"));
}

#[test]
fn escaping_replaces_markup_characters() {
    assert_eq!(xml_escape("a<b>&\"c'"), "a&lt;b&gt;&amp;&quot;c&apos;");
    assert_eq!(xml_escape("plain 文本"), "plain 文本");
}

#[test]
fn loading_reports_each_error() {
    let registry = sample_registry();
    assert_eq!(execute(None, &registry).unwrap_err(), "names array is required");
    assert_eq!(execute(Some(&[]), &registry).unwrap_err(), "names must not be empty");
    let unknown = vec!["nope".to_string()];
    assert_eq!(execute(Some(&unknown), &registry).unwrap_err(), "unknown tool or script: nope");
    let itself = vec![" load_tools ".to_string()];
    assert_eq!(
        execute(Some(&itself), &registry).unwrap_err(),
        "tool cannot be loaded with load_tools: load_tools. Only names listed in available_tools or available_scripts can be loaded."
    );
    let blank = vec!["  ".to_string(), String::new()];
    assert_eq!(
        execute(Some(&blank), &registry).unwrap_err(),
        "names must contain at least one loadable tool or script"
    );
    let repeated = vec!["lazy_script".to_string(), " lazy_script".to_string(), "custom_builtin".to_string()];
    let loaded = execute(Some(&repeated), &registry).unwrap();
    assert_eq!(loaded.len(), 2);
    assert_eq!(loaded[1].name, "custom_builtin");
    assert_eq!(loaded[1].kind, "tool");
}
