use plugins::commands::parse_remove_args;
use plugins::commands::PluginLocation;
use plugins::package::extract_plugin_package;
use plugins::package::is_plugin_package_name;
use plugins::package::strip_package_version;

#[test]
fn test_is_plugin_package_name() {
    assert!(is_plugin_package_name("agent-browser-plugin-example"));
    assert!(is_plugin_package_name("@scope/agent-browser-plugin-example"));
    assert!(!is_plugin_package_name("agent-browser-example"));
    assert!(!is_plugin_package_name("@scope/agent-browser-example"));
}

#[test]
fn test_strip_package_version() {
    assert_eq!(
        strip_package_version("agent-browser-plugin-example@1.2.3"),
        Some("agent-browser-plugin-example")
    );
    assert_eq!(
        strip_package_version("@scope/agent-browser-plugin-example@1.2.3"),
        Some("@scope/agent-browser-plugin-example")
    );
}

#[test]
fn test_extract_plugin_package() {
    let cmd = vec!["pnpx".to_string(), "agent-browser-plugin-example@1.0.0".to_string()];
    assert_eq!(
        extract_plugin_package(&cmd),
        Some("agent-browser-plugin-example".to_string())
    );
    let cmd = vec![
        "npx".to_string(),
        "@scope/agent-browser-plugin-example@1.0.0".to_string(),
    ];
    assert_eq!(
        extract_plugin_package(&cmd),
        Some("@scope/agent-browser-plugin-example".to_string())
    );
}

#[test]
fn test_parse_remove_args_auto() {
    let opts = parse_remove_args(&["example".to_string()]).unwrap();
    assert!(matches!(opts.location, PluginLocation::Auto));
    assert_eq!(opts.name, "example");
}
