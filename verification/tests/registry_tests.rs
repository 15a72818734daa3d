use plugins::help::print_extension_command_help;
use plugins::help::print_extension_help;
use plugins::help::print_extension_index;
use plugins::manifest::ExtensionArg;
use plugins::manifest::ExtensionCommand;
use plugins::manifest::ExtensionHandler;
use plugins::manifest::ExtensionManifest;
use plugins::registry::ExtensionRegistry;

fn described_command(name: &str, description: Option<&str>, args: Option<Vec<ExtensionArg>>) -> ExtensionCommand {
    ExtensionCommand {
        name: name.to_string(),
        description: description.map(|d| d.to_string()),
        args,
        handler: ExtensionHandler { handler_type: "daemon".to_string(), steps: None },
    }
}

fn described_arg(name: &str, required: Option<bool>, description: Option<&str>) -> ExtensionArg {
    ExtensionArg {
        name: name.to_string(),
        arg_type: None,
        required,
        default: None,
        description: description.map(|d| d.to_string()),
    }
}

fn described(name: &str, description: Option<&str>, commands: Vec<ExtensionCommand>) -> ExtensionManifest {
    ExtensionManifest {
        name: name.to_string(),
        version: None,
        description: description.map(|d| d.to_string()),
        entry: None,
        permissions: None,
        commands,
        min_cli_version: None,
        max_cli_version: None,
    }
}

fn versioned(name: &str, version: &str) -> ExtensionManifest {
    let mut m = described(name, None, vec![]);
    m.version = Some(version.to_string());
    m
}

#[test]
fn list_keeps_discovery_order() {
    let registry = ExtensionRegistry::load(vec![versioned("b", "1"), versioned("a", "1"), versioned("b", "2")]);
    let names: Vec<&str> = registry.list().iter().map(|m| m.name.as_str()).collect();
    assert_eq!(names, vec!["b", "a", "b"]);
    assert!(ExtensionRegistry::load(vec![]).list().is_empty());
}

#[test]
fn find_matches_names_exactly() {
    let registry = ExtensionRegistry::load(vec![versioned("alpha", "1"), versioned("beta", "1")]);
    assert_eq!(registry.find("beta").map(|m| m.name.as_str()), Some("beta"));
    assert!(registry.find("Beta").is_none());
    assert!(registry.find("bet").is_none());
    assert!(registry.find("").is_none());
}

#[test]
fn the_first_discovered_of_two_equal_names_wins() {
    let from_override = vec![versioned("shared", "override"), versioned("only-override", "1")];
    let from_user = vec![versioned("only-user", "1"), versioned("shared", "user")];
    let mut all = from_override.clone();
    all.extend(from_user.clone());
    let registry = ExtensionRegistry::load(all);
    assert_eq!(registry.find("shared").unwrap().version.as_deref(), Some("override"));
    assert_eq!(registry.find("only-user").unwrap().version.as_deref(), Some("1"));
    let mut reversed = from_user;
    reversed.extend(from_override);
    let registry = ExtensionRegistry::load(reversed);
    assert_eq!(registry.find("shared").unwrap().version.as_deref(), Some("user"));
}

#[test]
fn the_index_is_empty_without_extensions() {
    let registry = ExtensionRegistry::load(vec![]);
    assert!(print_extension_index(&registry).is_empty());
}

#[test]
fn the_index_pads_names_before_descriptions() {
    let registry = ExtensionRegistry::load(vec![
        described("short", Some("A short one"), vec![]),
        described("bare", None, vec![]),
        described("empty", Some(""), vec![]),
        described("a-very-long-name", Some("Long"), vec![]),
        described("twelve-chars", Some("Exact"), vec![]),
    ]);
    assert_eq!(
        print_extension_index(&registry),
        vec![
            "",
            "Plugins:",
            "  short        A short one",
            "  bare",
            "  empty",
            "  a-very-long-name Long",
            "  twelve-chars Exact",
        ]
    );
}

fn sample_extension() -> ExtensionManifest {
    described(
        "myext",
        Some("Example extension"),
        vec![
            described_command(
                "page.click",
                Some("Clicks"),
                Some(vec![
                    described_arg("selector", None, Some("CSS selector")),
                    described_arg("count", Some(false), None),
                ]),
            ),
            described_command("page.type", None, Some(vec![])),
            described_command("pages", Some("Lists pages"), None),
            described_command("tab.close", Some(""), None),
        ],
    )
}

#[test]
fn help_for_an_unknown_extension_is_missing() {
    let registry = ExtensionRegistry::load(vec![sample_extension()]);
    assert_eq!(print_extension_help(&registry, "other", None), None);
    assert_eq!(print_extension_help(&registry, "other", Some("page")), None);
}

#[test]
fn help_without_prefix_lists_every_command() {
    let registry = ExtensionRegistry::load(vec![sample_extension()]);
    let expected = vec![
        "Usage: agent-browser myext <command> [args]",
        "",
        "Example extension",
        "",
        "Commands:",
        "  page.click         Clicks",
        "  page.type",
        "  pages              Lists pages",
        "  tab.close",
    ];
    assert_eq!(print_extension_help(&registry, "myext", None).unwrap(), expected);
    assert_eq!(print_extension_help(&registry, "myext", Some("")).unwrap(), expected);
}

#[test]
fn help_without_description_has_no_description_lines() {
    let registry = ExtensionRegistry::load(vec![described("plain", None, vec![described_command("go", None, None)])]);
    assert_eq!(
        print_extension_help(&registry, "plain", None).unwrap(),
        vec!["Usage: agent-browser plain <command> [args]", "", "Commands:", "  go"]
    );
}

#[test]
fn help_for_an_exact_command_shows_usage_and_arguments() {
    let registry = ExtensionRegistry::load(vec![sample_extension()]);
    assert_eq!(
        print_extension_help(&registry, "myext", Some("page.click")).unwrap(),
        vec![
            "Usage: agent-browser myext page.click <selector> [count]",
            "",
            "Clicks",
            "",
            "Arguments:",
            "  selector     CSS selector",
            "  count",
        ]
    );
    assert_eq!(
        print_extension_help(&registry, "myext", Some("page.type")).unwrap(),
        vec!["Usage: agent-browser myext page.type"]
    );
    assert_eq!(
        print_extension_help(&registry, "myext", Some("pages")).unwrap(),
        vec!["Usage: agent-browser myext pages", "", "Lists pages"]
    );
}

#[test]
fn command_help_is_the_same_when_asked_directly() {
    let ext = sample_extension();
    assert_eq!(
        print_extension_command_help(&ext, &ext.commands[3]),
        vec!["Usage: agent-browser myext tab.close", "", ""]
    );
}

#[test]
fn help_for_a_namespace_lists_the_commands_in_it() {
    let registry = ExtensionRegistry::load(vec![sample_extension()]);
    assert_eq!(
        print_extension_help(&registry, "myext", Some("page")).unwrap(),
        vec![
            "Usage: agent-browser myext <command> [args]",
            "",
            "Commands:",
            "  page.click         Clicks",
            "  page.type",
        ]
    );
    assert_eq!(
        print_extension_help(&registry, "myext", Some("tab")).unwrap(),
        vec!["Usage: agent-browser myext <command> [args]", "", "Commands:", "  tab.close"]
    );
}

#[test]
fn help_for_a_prefix_that_matches_nothing_is_missing() {
    let registry = ExtensionRegistry::load(vec![sample_extension()]);
    assert_eq!(print_extension_help(&registry, "myext", Some("pag")), None);
    assert_eq!(print_extension_help(&registry, "myext", Some("page.")), None);
    assert_eq!(print_extension_help(&registry, "myext", Some("window")), None);
}
