use plugins::discovery::discover_extension_roots;
use plugins::discovery::extension_roots;
use plugins::discovery::is_plugin_package_name;
use plugins::discovery::load_extensions_from_node_modules;
use plugins::discovery::load_extensions_from_root;
use plugins::discovery::DirEntry;
use plugins::discovery::PluginPath;

fn place(base: &str, segments: &[&str]) -> PluginPath {
    PluginPath { base: base.to_string(), segments: segments.iter().map(|s| s.to_string()).collect() }
}

fn dir(name: &str, children: &[&str]) -> DirEntry {
    DirEntry { name: name.to_string(), is_dir: true, children: children.iter().map(|s| s.to_string()).collect() }
}

fn file(name: &str) -> DirEntry {
    DirEntry { name: name.to_string(), is_dir: false, children: vec![] }
}

fn paths(plan: &[&[&str]]) -> Vec<Vec<String>> {
    plan.iter().map(|p| p.iter().map(|s| s.to_string()).collect()).collect()
}

#[test]
fn roots_come_in_the_fixed_order() {
    let roots = extension_roots(Some("/first"), Some("/second"), Some("/work"), Some("/home/u/.config"));
    assert_eq!(
        roots,
        vec![
            place("/first", &[]),
            place("/second", &[]),
            place("/work", &[".agent-browser", "plugins"]),
            place("/work", &[".agent-browser", "extensions"]),
            place("/home/u/.config", &["agent-browser", "plugins"]),
            place("/home/u/.config", &["agent-browser", "extensions"]),
        ]
    );
}

#[test]
fn unset_and_empty_overrides_give_no_root() {
    assert_eq!(extension_roots(None, None, None, None), vec![]);
    assert_eq!(extension_roots(Some(""), Some(""), None, None), vec![]);
    assert_eq!(extension_roots(Some(""), Some("/b"), None, None), vec![place("/b", &[])]);
    assert_eq!(
        extension_roots(None, None, None, Some("/c")),
        vec![place("/c", &["agent-browser", "plugins"]), place("/c", &["agent-browser", "extensions"])]
    );
}

#[test]
fn discovered_roots_begin_with_overrides_and_project() {
    let roots = discover_extension_roots(Some("/first"), None, Some("/work"));
    assert!(roots.len() == 3 || roots.len() == 5);
    assert_eq!(roots[0], place("/first", &[]));
    assert_eq!(roots[1], place("/work", &[".agent-browser", "plugins"]));
    assert_eq!(roots[2], place("/work", &[".agent-browser", "extensions"]));
    if roots.len() == 5 {
        assert_eq!(roots[3].base, roots[4].base);
        assert_eq!(roots[3].segments, vec!["agent-browser", "plugins"]);
        assert_eq!(roots[4].segments, vec!["agent-browser", "extensions"]);
    }
}

#[test]
fn versioned_names_are_plugin_names_too() {
    assert!(is_plugin_package_name("agent-browser-plugin-example"));
    assert!(is_plugin_package_name("agent-browser-plugin-example@1.2.3"));
    assert!(is_plugin_package_name("@scope/agent-browser-plugin-example@1.2.3"));
    assert!(is_plugin_package_name("agent-browser-plugin-"));
    assert!(!is_plugin_package_name("agent-browser-plugin"));
    assert!(!is_plugin_package_name("@agent-browser-plugin-example"));
    assert!(!is_plugin_package_name("scope/agent-browser-plugin-example"));
    assert!(!is_plugin_package_name("@scope/other"));
    assert!(!is_plugin_package_name(""));
}

#[test]
fn modules_are_tried_scoped_first_then_unscoped() {
    let listing = vec![
        dir("agent-browser-plugin-one", &[]),
        dir("@acme", &["agent-browser-plugin-two", "left-pad", "agent-browser-plugin-three"]),
        file("agent-browser-plugin-file"),
        dir("left-pad", &[]),
        file("@notadir"),
        dir("@empty", &[]),
        dir("agent-browser-plugin-four", &["anything"]),
        dir("@other", &["agent-browser-plugin-five"]),
    ];
    assert_eq!(
        load_extensions_from_node_modules(&listing),
        paths(&[
            &["@acme", "agent-browser-plugin-two", "extension.json"],
            &["@acme", "agent-browser-plugin-three", "extension.json"],
            &["@other", "agent-browser-plugin-five", "extension.json"],
            &["agent-browser-plugin-one", "extension.json"],
            &["agent-browser-plugin-four", "extension.json"],
        ])
    );
    assert!(load_extensions_from_node_modules(&[]).is_empty());
}

#[test]
fn a_root_is_tried_itself_then_modules_then_folders() {
    let listing = vec![
        file("extension.json"),
        dir("node_modules", &[]),
        dir("manual", &[]),
        file("notes.txt"),
        dir("agent-browser-plugin-direct", &[]),
    ];
    let modules = vec![dir("agent-browser-plugin-one", &[]), dir("@acme", &["agent-browser-plugin-two"])];
    assert_eq!(
        load_extensions_from_root(true, &listing, &modules),
        paths(&[
            &["extension.json"],
            &["node_modules", "@acme", "agent-browser-plugin-two", "extension.json"],
            &["node_modules", "agent-browser-plugin-one", "extension.json"],
            &["node_modules", "extension.json"],
            &["manual", "extension.json"],
            &["agent-browser-plugin-direct", "extension.json"],
        ])
    );
}

#[test]
fn a_missing_root_gives_nothing_to_try() {
    assert!(load_extensions_from_root(false, &[], &[]).is_empty());
    assert!(load_extensions_from_root(false, &[dir("manual", &[])], &[dir("agent-browser-plugin-one", &[])]).is_empty());
    assert_eq!(load_extensions_from_root(true, &[], &[]), paths(&[&["extension.json"]]));
}
