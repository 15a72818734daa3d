use plugins::decode::decode_arg;
use plugins::decode::decode_command;
use plugins::decode::decode_manifest;
use plugins::decode::load_manifest;
use plugins::decode::load_manifests;
use plugins::json::JsonValue;
use plugins::manifest::ExtensionArg;
use plugins::manifest::ExtensionCommand;
use plugins::manifest::ExtensionHandler;
use plugins::manifest::ExtensionManifest;

fn t(s: &str) -> JsonValue {
    JsonValue::String(s.to_string())
}

fn o(fields: &[(&str, JsonValue)]) -> JsonValue {
    JsonValue::Object(fields.iter().map(|(k, v)| (k.to_string(), v.clone())).collect())
}

fn minimal(name: &str) -> ExtensionManifest {
    ExtensionManifest {
        name: name.to_string(),
        version: None,
        description: None,
        entry: None,
        permissions: None,
        commands: vec![],
        min_cli_version: None,
        max_cli_version: None,
    }
}

#[test]
fn a_full_manifest_is_read_field_by_field() {
    let raw = r#"{
        "name": "myext",
        "version": "1.0.0",
        "description": "An extension",
        "entry": "./dist/index.js",
        "permissions": ["network", "fs"],
        "commands": [
            {
                "name": "example.hello",
                "description": "Says hello",
                "args": [
                    { "name": "selector", "type": "string", "required": true, "description": "CSS selector" },
                    { "name": "count", "type": "int", "required": false, "default": 3 },
                    { "name": "mode", "default": { "fast": [true, null] } }
                ],
                "handler": { "type": "daemon" }
            },
            {
                "name": "example.macro",
                "handler": { "type": "macro", "steps": [ { "action": "open", "url": "{{url}}" }, "text", 1.5 ] }
            }
        ],
        "minCliVersion": "0.8.4",
        "maxCliVersion": "1.0.0",
        "homepage": "https://example.com"
    }"#;
    let expected = ExtensionManifest {
        name: "myext".to_string(),
        version: Some("1.0.0".to_string()),
        description: Some("An extension".to_string()),
        entry: Some("./dist/index.js".to_string()),
        permissions: Some(vec!["network".to_string(), "fs".to_string()]),
        commands: vec![
            ExtensionCommand {
                name: "example.hello".to_string(),
                description: Some("Says hello".to_string()),
                args: Some(vec![
                    ExtensionArg {
                        name: "selector".to_string(),
                        arg_type: Some("string".to_string()),
                        required: Some(true),
                        default: None,
                        description: Some("CSS selector".to_string()),
                    },
                    ExtensionArg {
                        name: "count".to_string(),
                        arg_type: Some("int".to_string()),
                        required: Some(false),
                        default: Some(JsonValue::Number("3".to_string())),
                        description: None,
                    },
                    ExtensionArg {
                        name: "mode".to_string(),
                        arg_type: None,
                        required: None,
                        default: Some(o(&[("fast", JsonValue::Array(vec![JsonValue::Bool(true), JsonValue::Null]))])),
                        description: None,
                    },
                ]),
                handler: ExtensionHandler { handler_type: "daemon".to_string(), steps: None },
            },
            ExtensionCommand {
                name: "example.macro".to_string(),
                description: None,
                args: None,
                handler: ExtensionHandler {
                    handler_type: "macro".to_string(),
                    steps: Some(vec![
                        o(&[("action", t("open")), ("url", t("{{url}}"))]),
                        t("text"),
                        JsonValue::Number("1.5".to_string()),
                    ]),
                },
            },
        ],
        min_cli_version: Some("0.8.4".to_string()),
        max_cli_version: Some("1.0.0".to_string()),
    };
    assert_eq!(load_manifest(raw), Some(expected));
}

#[test]
fn name_and_commands_are_all_a_manifest_needs() {
    assert_eq!(load_manifest(r#"{"name":"x","commands":[]}"#), Some(minimal("x")));
    assert_eq!(load_manifest(r#"{"commands":[],"name":""}"#), Some(minimal("")));
}

#[test]
fn null_stands_for_a_field_that_is_left_out() {
    let raw = r#"{"name":"x","version":null,"description":null,"entry":null,"permissions":null,
        "commands":[{"name":"c","description":null,"args":null,"handler":{"type":"daemon","steps":null}}],
        "minCliVersion":null,"maxCliVersion":null}"#;
    let mut expected = minimal("x");
    expected.commands.push(ExtensionCommand {
        name: "c".to_string(),
        description: None,
        args: None,
        handler: ExtensionHandler { handler_type: "daemon".to_string(), steps: None },
    });
    assert_eq!(load_manifest(raw), Some(expected));
    let arg = decode_arg(&o(&[
        ("name", t("a")),
        ("type", JsonValue::Null),
        ("required", JsonValue::Null),
        ("default", JsonValue::Null),
        ("description", JsonValue::Null),
    ]));
    assert_eq!(
        arg,
        Some(ExtensionArg { name: "a".to_string(), arg_type: None, required: None, default: None, description: None })
    );
}

#[test]
fn what_is_no_json_or_no_object_is_no_manifest() {
    for raw in ["", "not json", "{", "[]", "\"name\"", "null", "7", r#"["x", []]"#] {
        assert_eq!(load_manifest(raw), None, "{}", raw);
    }
}

#[test]
fn a_manifest_without_name_or_commands_is_skipped() {
    for raw in [
        "{}",
        r#"{"name":"x"}"#,
        r#"{"commands":[]}"#,
        r#"{"name":null,"commands":[]}"#,
        r#"{"name":"x","commands":null}"#,
        r#"{"name":7,"commands":[]}"#,
        r#"{"name":"x","commands":{}}"#,
        r#"{"Name":"x","commands":[]}"#,
    ] {
        assert_eq!(load_manifest(raw), None, "{}", raw);
    }
}

#[test]
fn a_field_of_the_wrong_kind_spoils_the_manifest() {
    for raw in [
        r#"{"name":"x","commands":[],"version":1}"#,
        r#"{"name":"x","commands":[],"description":["d"]}"#,
        r#"{"name":"x","commands":[],"entry":true}"#,
        r#"{"name":"x","commands":[],"permissions":"network"}"#,
        r#"{"name":"x","commands":[],"permissions":["network", 1]}"#,
        r#"{"name":"x","commands":[],"minCliVersion":0.8}"#,
        r#"{"name":"x","commands":[],"maxCliVersion":{}}"#,
        r#"{"name":"x","commands":["c"]}"#,
        r#"{"name":"x","commands":[{"name":"c"}]}"#,
        r#"{"name":"x","commands":[{"handler":{"type":"daemon"}}]}"#,
        r#"{"name":"x","commands":[{"name":"c","handler":"daemon"}]}"#,
        r#"{"name":"x","commands":[{"name":"c","handler":{}}]}"#,
        r#"{"name":"x","commands":[{"name":"c","handler":{"type":1}}]}"#,
        r#"{"name":"x","commands":[{"name":"c","handler":{"type":"macro","steps":{}}}]}"#,
        r#"{"name":"x","commands":[{"name":"c","handler":{"type":"daemon"},"args":{}}]}"#,
        r#"{"name":"x","commands":[{"name":"c","handler":{"type":"daemon"},"args":[{}]}]}"#,
        r#"{"name":"x","commands":[{"name":"c","handler":{"type":"daemon"},"args":[{"name":"a","required":"yes"}]}]}"#,
        r#"{"name":"x","commands":[{"name":"c","handler":{"type":"daemon"},"args":[{"name":"a","type":1}]}]}"#,
        r#"{"name":"x","commands":[{"name":"ok","handler":{"type":"daemon"}},{"name":"bad"}]}"#,
    ] {
        assert_eq!(load_manifest(raw), None, "{}", raw);
    }
}

#[test]
fn unknown_handler_types_and_empty_lists_are_loaded() {
    let raw = r#"{"name":"x","commands":[{"name":"c","args":[],"handler":{"type":"script","steps":[]}}],"permissions":[]}"#;
    let loaded = load_manifest(raw).unwrap();
    assert_eq!(loaded.permissions, Some(vec![]));
    assert_eq!(loaded.commands[0].args, Some(vec![]));
    assert_eq!(loaded.commands[0].handler, ExtensionHandler { handler_type: "script".to_string(), steps: Some(vec![]) });
}

#[test]
fn documents_are_decoded_without_text() {
    let handler = o(&[("type", t("daemon"))]);
    let command = o(&[("name", t("go")), ("handler", handler.clone()), ("extra", t("ignored"))]);
    assert_eq!(
        decode_command(&command),
        Some(ExtensionCommand {
            name: "go".to_string(),
            description: None,
            args: None,
            handler: ExtensionHandler { handler_type: "daemon".to_string(), steps: None },
        })
    );
    assert_eq!(decode_command(&JsonValue::Array(vec![])), None);
    assert_eq!(decode_arg(&t("name")), None);
    let manifest = o(&[("name", t("m")), ("commands", JsonValue::Array(vec![command]))]);
    assert_eq!(decode_manifest(&manifest).unwrap().commands.len(), 1);
    assert_eq!(decode_manifest(&JsonValue::Null), None);
}

#[test]
fn the_manifest_of_a_new_plugin_can_be_loaded() {
    let loaded = load_manifest(&plugins::commands::default_extension_json("example")).unwrap();
    assert_eq!(loaded.name, "example");
    assert_eq!(loaded.version.as_deref(), Some("0.1.0"));
    assert_eq!(loaded.permissions, Some(vec![]));
    assert_eq!(loaded.min_cli_version.as_deref(), Some("0.8.4"));
    assert_eq!(loaded.commands.len(), 1);
    assert_eq!(loaded.commands[0].name, "example.hello");
    assert_eq!(loaded.commands[0].handler.handler_type, "daemon");
    let args = loaded.commands[0].args.as_ref().unwrap();
    assert_eq!(args[0].name, "selector");
    assert_eq!(args[0].required, Some(true));
}

#[test]
fn unreadable_and_malformed_files_are_skipped_in_silence() {
    let files = vec![
        Some(r#"{"name":"first","commands":[]}"#.to_string()),
        None,
        Some("{ broken".to_string()),
        Some(r#"{"name":"no commands"}"#.to_string()),
        Some(r#"{"name":"second","commands":[]}"#.to_string()),
        Some(r#"{"name":"first","commands":[],"version":"2"}"#.to_string()),
    ];
    let loaded = load_manifests(&files);
    let names: Vec<&str> = loaded.iter().map(|m| m.name.as_str()).collect();
    assert_eq!(names, vec!["first", "second", "first"]);
    assert_eq!(loaded[0].version, None);
    assert_eq!(loaded[2].version.as_deref(), Some("2"));
    assert!(load_manifests(&[]).is_empty());
    assert!(load_manifests(&[None, None]).is_empty());
}
