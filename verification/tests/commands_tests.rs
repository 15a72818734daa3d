use plugins::commands::copy_step;
use plugins::commands::default_extension_json;
use plugins::commands::default_index_ts;
use plugins::commands::default_readme;
use plugins::commands::default_tsconfig;
use plugins::commands::detect_package_manager;
use plugins::commands::extract_local_path;
use plugins::commands::find_installed_plugin_package;
use plugins::commands::find_manifest;
use plugins::commands::find_manifest_in_node_modules;
use plugins::commands::install_from_path_result;
use plugins::commands::installed_package;
use plugins::commands::parse_add_args;
use plugins::commands::parse_init_args;
use plugins::commands::parse_remove_args;
use plugins::commands::plugins_root;
use plugins::commands::read_package_name;
use plugins::commands::resolve_plugins_root;
use plugins::commands::run_plugins;
use plugins::commands::try_uninstall_plugin;
use plugins::commands::uninstall_command;
use plugins::commands::uninstall_result;
use plugins::commands::AddOptions;
use plugins::commands::CopyStep;
use plugins::commands::InitOptions;
use plugins::commands::InstallPlan;
use plugins::commands::InstalledChild;
use plugins::commands::InstalledEntry;
use plugins::commands::LockFiles;
use plugins::commands::PluginLocation;
use plugins::commands::PluginsCommand;
use plugins::commands::UninstallPlan;
use plugins::commands::UninstallResult;
use plugins::commands::NO_PLUGIN_PACKAGE;
use plugins::discovery::PluginPath;
use plugins::json::JsonValue;
use plugins::package::package_name_matches_plugin;
use plugins::package::sanitize_plugin_dir;
use plugins::package::strip_package_version;
use plugins::package::trim_quotes;

fn strings(words: &[&str]) -> Vec<String> {
    words.iter().map(|w| w.to_string()).collect()
}

fn at(base: &str, segments: &[&str]) -> PluginPath {
    PluginPath { base: base.to_string(), segments: strings(segments) }
}

const ONLY_ONE: &str = "Only one of --user, --local, or --dir is allowed";

#[test]
fn test_read_package_name() {
    assert_eq!(
        read_package_name(Some(r#"{ "name": "agent-browser-plugin-example" }"#)),
        Some("agent-browser-plugin-example".to_string())
    );
    assert_eq!(read_package_name(None), None);
}

#[test]
fn test_copy_dir_recursive_skips_node_modules() {
    assert_eq!(copy_step("file.txt", false, true), CopyStep::CopyFile);
    assert_eq!(copy_step("node_modules", true, false), CopyStep::Skip);
}

#[test]
fn copying_descends_into_directories_and_refuses_the_rest() {
    assert_eq!(copy_step("src", true, false), CopyStep::Descend);
    assert_eq!(copy_step("socket", false, false), CopyStep::Unsupported);
    assert_eq!(copy_step("node_modules", false, true), CopyStep::Skip);
    assert_eq!(copy_step("node_modules2", false, true), CopyStep::CopyFile);
}

#[test]
fn package_names_without_text_or_name_give_nothing() {
    assert_eq!(read_package_name(Some("not json")), None);
    assert_eq!(read_package_name(Some("{}")), None);
    assert_eq!(read_package_name(Some(r#"{ "name": 7 }"#)), None);
    assert_eq!(read_package_name(Some(r#"["name"]"#)), None);
    assert_eq!(read_package_name(Some(r#"{ "name": "aA" }"#)), Some("aA".to_string()));
}

#[test]
fn plugins_subcommands_are_told_apart() {
    assert_eq!(run_plugins(&strings(&["plugins"])), PluginsCommand::Usage);
    assert_eq!(run_plugins(&strings(&[])), PluginsCommand::Usage);
    assert_eq!(run_plugins(&strings(&["plugins", "add", "x"])), PluginsCommand::Add);
    assert_eq!(run_plugins(&strings(&["plugins", "init"])), PluginsCommand::Init);
    assert_eq!(run_plugins(&strings(&["plugins", "remove"])), PluginsCommand::Remove);
    assert_eq!(run_plugins(&strings(&["plugins", "list"])), PluginsCommand::List);
    assert_eq!(run_plugins(&strings(&["plugins", "info"])), PluginsCommand::Info);
    assert_eq!(run_plugins(&strings(&["plugins", "ADD"])), PluginsCommand::Unknown);
}

#[test]
fn add_takes_options_then_the_command() {
    assert_eq!(
        parse_add_args(&strings(&["npx", "agent-browser-plugin-x", "--user"])),
        Ok(AddOptions {
            command: strings(&["npx", "agent-browser-plugin-x", "--user"]),
            location: PluginLocation::User,
        })
    );
    assert_eq!(
        parse_add_args(&strings(&["--local", "./dir"])),
        Ok(AddOptions { command: strings(&["./dir"]), location: PluginLocation::Local })
    );
    assert_eq!(
        parse_add_args(&strings(&["--dir", "/plugins", "npm", "i", "x"])),
        Ok(AddOptions {
            command: strings(&["npm", "i", "x"]),
            location: PluginLocation::Custom("/plugins".to_string()),
        })
    );
    assert_eq!(
        parse_add_args(&strings(&["--user", "--", "--local", "x"])),
        Ok(AddOptions { command: strings(&["--local", "x"]), location: PluginLocation::User })
    );
    assert_eq!(
        parse_add_args(&strings(&["--", "--"])),
        Ok(AddOptions { command: strings(&["--"]), location: PluginLocation::User })
    );
}

#[test]
fn add_refuses_missing_commands_and_double_locations() {
    assert_eq!(parse_add_args(&strings(&[])), Err("Missing install command".to_string()));
    assert_eq!(parse_add_args(&strings(&["--user"])), Err("Missing install command".to_string()));
    assert_eq!(parse_add_args(&strings(&["--"])), Err("Missing install command".to_string()));
    assert_eq!(parse_add_args(&strings(&["--local", "--"])), Err("Missing install command".to_string()));
    assert_eq!(parse_add_args(&strings(&["--user", "--local", "x"])), Err(ONLY_ONE.to_string()));
    assert_eq!(parse_add_args(&strings(&["--dir", "a", "--dir", "b", "x"])), Err(ONLY_ONE.to_string()));
    assert_eq!(parse_add_args(&strings(&["--user", "--dir"])), Err(ONLY_ONE.to_string()));
    assert_eq!(parse_add_args(&strings(&["--dir"])), Err("Missing value for --dir".to_string()));
    assert_eq!(
        parse_add_args(&strings(&["--dir", "--user"])),
        Err("Missing install command".to_string())
    );
}

#[test]
fn init_takes_one_name_and_defaults_to_the_user() {
    assert_eq!(
        parse_init_args(&strings(&["example"])),
        Ok(InitOptions { name: "example".to_string(), location: PluginLocation::User })
    );
    assert_eq!(
        parse_init_args(&strings(&["example", "--local"])),
        Ok(InitOptions { name: "example".to_string(), location: PluginLocation::Local })
    );
    assert_eq!(
        parse_init_args(&strings(&["--dir", "--user", "example"])),
        Ok(InitOptions { name: "example".to_string(), location: PluginLocation::Custom("--user".to_string()) })
    );
    assert_eq!(parse_init_args(&strings(&[])), Err("Missing plugin name".to_string()));
    assert_eq!(parse_init_args(&strings(&["--user"])), Err("Missing plugin name".to_string()));
    assert_eq!(parse_init_args(&strings(&["a", "b"])), Err("Only one plugin name is allowed".to_string()));
    assert_eq!(parse_init_args(&strings(&["a", "--dir"])), Err("Missing value for --dir".to_string()));
    assert_eq!(parse_init_args(&strings(&["--user", "a", "--local"])), Err(ONLY_ONE.to_string()));
    assert_eq!(parse_init_args(&strings(&["--"])).unwrap().name, "--");
}

#[test]
fn remove_keeps_a_chosen_location() {
    assert_eq!(
        parse_remove_args(&strings(&["--user", "example"])),
        Ok(InitOptions { name: "example".to_string(), location: PluginLocation::User })
    );
    assert_eq!(parse_remove_args(&strings(&[])), Err("Missing plugin name".to_string()));
}

#[test]
fn locations_lead_to_their_directories() {
    assert_eq!(
        plugins_root(PluginLocation::Custom("/x".to_string()), Err("no cwd"), false, None),
        Ok(at("/x", &[]))
    );
    assert_eq!(
        plugins_root(PluginLocation::Local, Ok("/work"), false, None),
        Ok(at("/work", &[".agent-browser", "plugins"]))
    );
    assert_eq!(plugins_root(PluginLocation::Local, Err("denied"), true, Some("/c")), Err("denied".to_string()));
    assert_eq!(
        plugins_root(PluginLocation::User, Err("denied"), false, Some("/c")),
        Ok(at("/c", &["agent-browser", "plugins"]))
    );
    assert_eq!(
        plugins_root(PluginLocation::User, Ok("/work"), true, None),
        Err("Could not resolve user config directory".to_string())
    );
}

#[test]
fn auto_prefers_an_existing_project_directory() {
    assert_eq!(
        plugins_root(PluginLocation::Auto, Ok("/work"), true, Some("/c")),
        Ok(at("/work", &[".agent-browser", "plugins"]))
    );
    assert_eq!(
        plugins_root(PluginLocation::Auto, Ok("/work"), false, Some("/c")),
        Ok(at("/c", &["agent-browser", "plugins"]))
    );
    assert_eq!(
        plugins_root(PluginLocation::Auto, Ok("/work"), false, None),
        Err("Could not resolve user config directory".to_string())
    );
    assert_eq!(plugins_root(PluginLocation::Auto, Err("gone"), true, Some("/c")), Err("gone".to_string()));
}

#[test]
fn resolved_roots_do_not_need_the_user_directory_for_other_locations() {
    assert_eq!(
        resolve_plugins_root(PluginLocation::Custom("/x".to_string()), Ok("/work"), false),
        Ok(at("/x", &[]))
    );
    assert_eq!(
        resolve_plugins_root(PluginLocation::Auto, Ok("/work"), true),
        Ok(at("/work", &[".agent-browser", "plugins"]))
    );
    match resolve_plugins_root(PluginLocation::User, Ok("/work"), false) {
        Ok(path) => assert_eq!(path.segments, strings(&["agent-browser", "plugins"])),
        Err(message) => assert_eq!(message, "Could not resolve user config directory"),
    }
}

#[test]
fn package_managers_are_judged_by_lock_files() {
    let none = LockFiles { pnpm: false, yarn: false, bun: false, npm: false };
    assert_eq!(detect_package_manager(&none), None);
    assert_eq!(detect_package_manager(&LockFiles { npm: true, ..none }), Some("npm"));
    assert_eq!(detect_package_manager(&LockFiles { bun: true, npm: true, ..none }), Some("bun"));
    assert_eq!(detect_package_manager(&LockFiles { yarn: true, bun: true, npm: true, ..none }), Some("yarn"));
    assert_eq!(
        detect_package_manager(&LockFiles { pnpm: true, yarn: true, bun: true, npm: true }),
        Some("pnpm")
    );
}

#[test]
fn uninstall_commands_follow_the_manager() {
    assert_eq!(uninstall_command(Some("pnpm"), "pkg"), "pnpm remove pkg");
    assert_eq!(uninstall_command(Some("yarn"), "pkg"), "yarn remove pkg");
    assert_eq!(uninstall_command(Some("bun"), "pkg"), "bun remove pkg");
    assert_eq!(uninstall_command(Some("npm"), "pkg"), "npm uninstall pkg");
    assert_eq!(uninstall_command(Some("other"), "pkg"), "npm uninstall pkg");
    assert_eq!(uninstall_command(None, "@s/pkg"), "npm uninstall @s/pkg");
}

#[test]
fn uninstall_results_count_a_failed_run_as_no_success() {
    assert_eq!(
        uninstall_result("p".to_string(), Ok(true)),
        UninstallResult { package: "p".to_string(), success: true }
    );
    assert_eq!(
        uninstall_result("p".to_string(), Ok(false)),
        UninstallResult { package: "p".to_string(), success: false }
    );
    assert_eq!(
        uninstall_result("p".to_string(), Err("no shell".to_string())),
        UninstallResult { package: "p".to_string(), success: false }
    );
}

#[test]
fn installed_packages_come_from_the_dependency_tables() {
    let text = r#"{
        "name": "holder",
        "dependencies": { "left-pad": "1", "agent-browser-plugin-zeta": "1", "agent-browser-plugin-alpha": "2" },
        "devDependencies": { "@acme/agent-browser-plugin-example": "3" },
        "optionalDependencies": { "agent-browser-plugin-opt": "4" }
    }"#;
    assert_eq!(
        find_installed_plugin_package(Some(text), "example"),
        Some("@acme/agent-browser-plugin-example".to_string())
    );
    assert_eq!(
        find_installed_plugin_package(Some(text), "opt"),
        Some("agent-browser-plugin-opt".to_string())
    );
    assert_eq!(
        find_installed_plugin_package(Some(text), "unrelated"),
        Some("agent-browser-plugin-alpha".to_string())
    );
}

#[test]
fn without_dependencies_the_own_name_counts_if_it_matches() {
    let own = r#"{ "name": "agent-browser-plugin-example" }"#;
    assert_eq!(
        find_installed_plugin_package(Some(own), "example"),
        Some("agent-browser-plugin-example".to_string())
    );
    assert_eq!(find_installed_plugin_package(Some(own), "other"), None);
    assert_eq!(find_installed_plugin_package(Some(r#"{ "name": "example" }"#), "example"), None);
    assert_eq!(find_installed_plugin_package(Some(r#"{ "dependencies": { "x": "1" } }"#), "x"), None);
    assert_eq!(find_installed_plugin_package(Some("{"), "example"), None);
    assert_eq!(find_installed_plugin_package(None, "example"), None);
}

#[test]
fn installed_package_works_on_a_document() {
    let doc = JsonValue::Object(vec![(
        "dependencies".to_string(),
        JsonValue::Object(vec![
            ("agent-browser-plugin-b".to_string(), JsonValue::Null),
            ("agent-browser-plugin-a".to_string(), JsonValue::Null),
        ]),
    )]);
    assert_eq!(installed_package(&doc, "a"), Some("agent-browser-plugin-a".to_string()));
    assert_eq!(installed_package(&doc, "zzz"), Some("agent-browser-plugin-b".to_string()));
    assert_eq!(installed_package(&JsonValue::Array(vec![]), "a"), None);
}

#[test]
fn uninstall_plans_name_package_and_command() {
    let text = r#"{ "dependencies": { "agent-browser-plugin-example": "1.0.0" } }"#;
    let locks = LockFiles { pnpm: false, yarn: true, bun: false, npm: true };
    assert_eq!(
        try_uninstall_plugin(Some(text), "example", &locks),
        Some(UninstallPlan {
            package: "agent-browser-plugin-example".to_string(),
            command: "yarn remove agent-browser-plugin-example".to_string(),
        })
    );
    let none = LockFiles { pnpm: false, yarn: false, bun: false, npm: false };
    assert_eq!(
        try_uninstall_plugin(Some(text), "example", &none).unwrap().command,
        "npm uninstall agent-browser-plugin-example"
    );
    assert_eq!(try_uninstall_plugin(None, "example", &locks), None);
}

#[test]
fn package_names_match_plugins_by_their_ending() {
    assert!(package_name_matches_plugin("agent-browser-plugin-example", "example"));
    assert!(package_name_matches_plugin("@scope/agent-browser-plugin-example", "example"));
    assert!(package_name_matches_plugin("anything", ""));
    assert!(!package_name_matches_plugin("@example/agent-browser-plugin-other", "example"));
    assert!(!package_name_matches_plugin("agent-browser-plugin-example", "examples"));
    assert!(package_name_matches_plugin("a/b/example", "b/example"));
}

#[test]
fn plugin_directories_have_no_at_and_no_slash() {
    assert_eq!(sanitize_plugin_dir("agent-browser-plugin-example"), "agent-browser-plugin-example");
    assert_eq!(sanitize_plugin_dir("@scope/agent-browser-plugin-example"), "scope__agent-browser-plugin-example");
    assert_eq!(sanitize_plugin_dir("@@a/b/c"), "a__b__c");
    assert_eq!(sanitize_plugin_dir("a@b"), "a@b");
    assert_eq!(sanitize_plugin_dir(""), "");
}

#[test]
fn quotes_are_taken_off_both_ends() {
    assert_eq!(trim_quotes("\"quoted\""), "quoted");
    assert_eq!(trim_quotes("'single'"), "single");
    assert_eq!(trim_quotes("\"'both'\""), "both");
    assert_eq!(trim_quotes("'\"inner stays\"'"), "\"inner stays\"");
    assert_eq!(trim_quotes("in\"side"), "in\"side");
    assert_eq!(trim_quotes("\"\"\""), "");
    assert_eq!(trim_quotes(""), "");
}

#[test]
fn versions_are_cut_at_the_last_at_sign() {
    assert_eq!(strip_package_version("name"), Some("name"));
    assert_eq!(strip_package_version("name@1@2"), Some("name@1"));
    assert_eq!(strip_package_version("@scope/name"), Some("@scope/name"));
    assert_eq!(strip_package_version("@scope/name@1@2"), Some("@scope/name@1"));
    assert_eq!(strip_package_version("@scope"), None);
    assert_eq!(strip_package_version("@scope@1.0"), None);
    assert_eq!(strip_package_version("@scope/@1"), Some("@scope/"));
    assert_eq!(strip_package_version("name@"), Some("name"));
    assert_eq!(strip_package_version(""), Some(""));
}

#[test]
fn a_local_path_is_the_one_word_of_the_command() {
    assert_eq!(extract_local_path(&strings(&["./my-plugins/agent-browser-plugin-x"])), Some("./my-plugins/agent-browser-plugin-x"));
    assert_eq!(extract_local_path(&strings(&["\"/with space/x\""])), Some("/with space/x"));
    assert_eq!(extract_local_path(&strings(&["npx", "x"])), None);
    assert_eq!(extract_local_path(&strings(&[])), None);
}

fn entry(name: &str, is_dir: bool, has_manifest: bool, children: &[(&str, bool)]) -> InstalledEntry {
    InstalledEntry {
        name: name.to_string(),
        is_dir,
        has_manifest,
        children: children
            .iter()
            .map(|(n, m)| InstalledChild { name: n.to_string(), has_manifest: *m })
            .collect(),
    }
}

#[test]
fn the_direct_manifest_comes_first() {
    let modules = vec![entry("pkg", true, true, &[])];
    assert_eq!(find_manifest(true, &modules), Some(strings(&["extension.json"])));
    assert_eq!(find_manifest(false, &modules), Some(strings(&["node_modules", "pkg", "extension.json"])));
    assert_eq!(find_manifest(false, &[]), None);
}

#[test]
fn modules_are_searched_in_order_through_scopes() {
    let modules = vec![
        entry("file", false, true, &[]),
        entry("empty", true, false, &[]),
        entry("@scope", true, true, &[("a", false), ("b", true), ("c", true)]),
        entry("pkg", true, true, &[]),
    ];
    assert_eq!(
        find_manifest_in_node_modules(&modules),
        Some(strings(&["@scope", "b", "extension.json"]))
    );
    let modules = vec![entry("@scope", true, true, &[("a", false)]), entry("pkg", true, true, &[])];
    assert_eq!(find_manifest_in_node_modules(&modules), Some(strings(&["pkg", "extension.json"])));
    let modules = vec![entry("@file", false, true, &[("a", true)])];
    assert_eq!(find_manifest_in_node_modules(&modules), None);
}

#[test]
fn installing_from_a_path_goes_below_the_root() {
    let plan = install_from_path_result(
        Ok(at("/root", &["plugins"])),
        Some(r#"{ "name": "@acme/agent-browser-plugin-example" }"#),
        Some("src-dir"),
    );
    assert_eq!(
        plan,
        Ok(InstallPlan {
            package: "@acme/agent-browser-plugin-example".to_string(),
            dir: at("/root", &["plugins", "acme__agent-browser-plugin-example"]),
        })
    );
    let plan = install_from_path_result(Ok(at("/root", &[])), None, Some("agent-browser-plugin-dir"));
    assert_eq!(
        plan,
        Ok(InstallPlan {
            package: "agent-browser-plugin-dir".to_string(),
            dir: at("/root", &["agent-browser-plugin-dir"]),
        })
    );
}

#[test]
fn installing_from_a_path_refuses_what_is_no_plugin() {
    let bad = install_from_path_result(Ok(at("/root", &[])), Some(r#"{ "name": "bad-plugin" }"#), Some("agent-browser-plugin-dir"));
    assert_eq!(bad, Err(NO_PLUGIN_PACKAGE.to_string()));
    assert!(bad.unwrap_err().contains("No plugin package found"));
    assert_eq!(
        install_from_path_result(Ok(at("/root", &[])), None, None),
        Err("Invalid plugin path".to_string())
    );
    assert_eq!(
        install_from_path_result(Err("no root".to_string()), None, None),
        Err("no root".to_string())
    );
    assert_eq!(
        install_from_path_result(Ok(at("/root", &[])), Some("{}"), Some("plain")),
        Err(NO_PLUGIN_PACKAGE.to_string())
    );
}

#[test]
fn the_files_of_a_new_plugin_name_it() {
    let manifest = default_extension_json("example");
    assert!(manifest.starts_with("{\n  \"name\": \"example\",\n  \"version\": \"0.1.0\",\n"));
    assert!(manifest.ends_with("  \"minCliVersion\": \"0.8.4\"\n}\n"));
    assert_eq!(read_package_name(Some(&manifest)), Some("example".to_string()));
    assert!(manifest.contains("\"handler\": { \"type\": \"daemon\" }"));
    assert_eq!(
        default_readme("example"),
        "# example\n\nQuick start:\n\n1) Build\n   tsc -p ./tsconfig.json\n\n2) Run\n   agent-browser example example.hello \".selector\"\n"
    );
    assert!(default_tsconfig().starts_with("{\n  \"compilerOptions\": {\n    \"target\": \"ES2022\",\n"));
    assert!(default_tsconfig().ends_with("  },\n  \"include\": [\"src/**/*.ts\"]\n}\n"));
    let source = default_index_ts();
    assert!(source.starts_with("import type { Page } from 'playwright-core';\n\n"));
    assert!(source.contains("const selector = String(args.selector ?? '');"));
    assert!(source.ends_with("  'example.hello': hello,\n};\n"));
}
