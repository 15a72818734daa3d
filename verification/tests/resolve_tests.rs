use plugins::bindings::BoundArgs;
use plugins::json::JsonValue;
use plugins::manifest::ArgKind;
use plugins::manifest::ExtensionArg;
use plugins::manifest::ExtensionCommand;
use plugins::manifest::ExtensionHandler;
use plugins::manifest::ExtensionManifest;
use plugins::registry::ExtensionError;
use plugins::registry::ExtensionRegistry;
use plugins::resolve::build_extension_usage;
use plugins::resolve::build_usage;
use plugins::resolve::parse_arg_value;
use plugins::resolve::parse_args;
use plugins::resolve::resolve_invocation;
use plugins::resolve::Token;

fn arg(name: &str, arg_type: Option<&str>, required: Option<bool>, default: Option<JsonValue>) -> ExtensionArg {
    ExtensionArg {
        name: name.to_string(),
        arg_type: arg_type.map(|t| t.to_string()),
        required,
        default,
        description: None,
    }
}

fn command(name: &str, args: Option<Vec<ExtensionArg>>) -> ExtensionCommand {
    ExtensionCommand {
        name: name.to_string(),
        description: None,
        args,
        handler: ExtensionHandler { handler_type: "daemon".to_string(), steps: None },
    }
}

fn manifest(name: &str, commands: Vec<ExtensionCommand>) -> ExtensionManifest {
    ExtensionManifest {
        name: name.to_string(),
        version: None,
        description: None,
        entry: None,
        permissions: None,
        commands,
        min_cli_version: None,
        max_cli_version: None,
    }
}

fn words(texts: &[&str]) -> Vec<Token> {
    texts.iter().map(|t| Token::word(t)).collect()
}

fn number(text: &str) -> JsonValue {
    JsonValue::Number(text.to_string())
}

fn text(s: &str) -> JsonValue {
    JsonValue::String(s.to_string())
}

#[test]
fn usage_marks_required_and_optional_arguments() {
    let cmd = command(
        "page.click",
        Some(vec![
            arg("selector", None, None, None),
            arg("count", Some("int"), Some(false), None),
            arg("force", Some("bool"), Some(true), None),
        ]),
    );
    let ext = manifest("myext", vec![cmd.clone()]);
    assert_eq!(build_usage(&ext, &cmd), "agent-browser myext page.click <selector> [count] <force>");
}

#[test]
fn usage_of_a_command_without_arguments() {
    let cmd = command("ping", None);
    let ext = manifest("net", vec![cmd.clone()]);
    assert_eq!(build_usage(&ext, &cmd), "agent-browser net ping");
    let cmd = command("ping", Some(vec![]));
    assert_eq!(build_usage(&ext, &cmd), "agent-browser net ping");
    assert_eq!(build_extension_usage(&ext), "agent-browser net <command> [args]");
}

#[test]
fn argument_kinds_follow_the_declared_type() {
    assert_eq!(arg("a", Some("int"), None, None).arg_kind(), ArgKind::Int);
    assert_eq!(arg("a", Some("number"), None, None).arg_kind(), ArgKind::Number);
    assert_eq!(arg("a", Some("bool"), None, None).arg_kind(), ArgKind::Bool);
    assert_eq!(arg("a", Some("string"), None, None).arg_kind(), ArgKind::Text);
    assert_eq!(arg("a", Some("Int"), None, None).arg_kind(), ArgKind::Text);
    assert_eq!(arg("a", None, None, None).arg_kind(), ArgKind::Text);
}

#[test]
fn int_coercion_rejects_words_and_reads_numbers() {
    let def = arg("count", Some("int"), None, None);
    let err = parse_arg_value(&def, &Token::word("abc"), "usage line").unwrap_err();
    assert_eq!(
        err,
        ExtensionError::InvalidValue {
            message: "Invalid int for count".to_string(),
            usage: "usage line".to_string(),
        }
    );
    assert_eq!(parse_arg_value(&def, &Token::word("42"), "u"), Ok(number("42")));
    assert_eq!(parse_arg_value(&def, &Token::word("-17"), "u"), Ok(number("-17")));
    assert_eq!(parse_arg_value(&def, &Token::word("+5"), "u"), Ok(number("5")));
    assert_eq!(parse_arg_value(&def, &Token::word("007"), "u"), Ok(number("7")));
    assert_eq!(parse_arg_value(&def, &Token::word("-0"), "u"), Ok(number("0")));
    assert_eq!(
        parse_arg_value(&def, &Token::word("-9223372036854775808"), "u"),
        Ok(number("-9223372036854775808"))
    );
    assert!(parse_arg_value(&def, &Token::word("9223372036854775808"), "u").is_err());
    assert!(parse_arg_value(&def, &Token::word("4.2"), "u").is_err());
    assert!(parse_arg_value(&def, &Token::word(""), "u").is_err());
    assert!(parse_arg_value(&def, &Token::word(" 4"), "u").is_err());
}

#[test]
fn int_coercion_ignores_the_floating_point_reading() {
    let def = arg("count", Some("int"), None, None);
    let token = Token::numeric("4.5", number("4.5"));
    assert!(parse_arg_value(&def, &token, "u").is_err());
}

#[test]
fn bool_coercion_reads_the_two_literals_only() {
    let def = arg("force", Some("bool"), None, None);
    assert_eq!(parse_arg_value(&def, &Token::word("true"), "u"), Ok(JsonValue::Bool(true)));
    assert_eq!(parse_arg_value(&def, &Token::word("false"), "u"), Ok(JsonValue::Bool(false)));
    assert_eq!(
        parse_arg_value(&def, &Token::word("yes"), "the usage"),
        Err(ExtensionError::InvalidValue {
            message: "Invalid bool for force".to_string(),
            usage: "the usage".to_string(),
        })
    );
    assert!(parse_arg_value(&def, &Token::word("True"), "u").is_err());
}

#[test]
fn number_coercion_takes_the_reading_of_the_token() {
    let def = arg("ratio", Some("number"), None, None);
    let token = Token::numeric("1e3", number("1000.0"));
    assert_eq!(parse_arg_value(&def, &token, "u"), Ok(number("1000.0")));
    let not_finite = Token::numeric("inf", JsonValue::Null);
    assert_eq!(parse_arg_value(&def, &not_finite, "u"), Ok(JsonValue::Null));
    assert_eq!(
        parse_arg_value(&def, &Token::word("abc"), "usage"),
        Err(ExtensionError::InvalidValue {
            message: "Invalid number for ratio".to_string(),
            usage: "usage".to_string(),
        })
    );
}

#[test]
fn unknown_types_behave_as_text() {
    for declared in [None, Some("string"), Some("float"), Some("")] {
        let def = arg("what", declared, None, None);
        assert_eq!(parse_arg_value(&def, &Token::word("abc"), "u"), Ok(text("abc")));
        assert_eq!(parse_arg_value(&def, &Token::word("42"), "u"), Ok(text("42")));
        assert_eq!(parse_arg_value(&def, &Token::word(""), "u"), Ok(text("")));
    }
}

#[test]
fn required_prefix_with_optional_rest_binds_defaults_only() {
    let defs = vec![
        arg("first", None, None, None),
        arg("second", Some("int"), Some(true), None),
        arg("third", None, Some(false), Some(text("fallback"))),
        arg("fourth", None, Some(false), None),
        arg("fifth", Some("int"), Some(false), Some(number("9"))),
    ];
    let cmd = command("run", Some(defs.clone()));
    let ext = manifest("ext", vec![cmd.clone()]);
    let bound = parse_args(&ext, &cmd, &defs, &words(&["a", "2"])).unwrap();
    assert_eq!(bound.len(), 4);
    assert_eq!(bound.get("first"), Some(&text("a")));
    assert_eq!(bound.get("second"), Some(&number("2")));
    assert_eq!(bound.get("third"), Some(&text("fallback")));
    assert_eq!(bound.get("fourth"), None);
    assert_eq!(bound.get("fifth"), Some(&number("9")));
}

#[test]
fn a_given_token_wins_over_the_default() {
    let defs = vec![arg("mode", None, Some(false), Some(text("fast")))];
    let cmd = command("run", Some(defs.clone()));
    let ext = manifest("ext", vec![cmd.clone()]);
    let bound = parse_args(&ext, &cmd, &defs, &words(&["slow"])).unwrap();
    assert_eq!(bound.get("mode"), Some(&text("slow")));
    let bound = parse_args(&ext, &cmd, &defs, &words(&[])).unwrap();
    assert_eq!(bound.get("mode"), Some(&text("fast")));
}

#[test]
fn a_required_argument_with_a_default_may_be_left_out() {
    let defs = vec![arg("mode", None, Some(true), Some(text("fast")))];
    let cmd = command("run", Some(defs.clone()));
    let ext = manifest("ext", vec![cmd.clone()]);
    let bound = parse_args(&ext, &cmd, &defs, &words(&[])).unwrap();
    assert_eq!(bound.get("mode"), Some(&text("fast")));
}

#[test]
fn too_many_tokens_are_refused_whatever_the_types() {
    for declared in [None, Some("int"), Some("number"), Some("bool")] {
        let defs = vec![arg("only", declared, Some(false), None)];
        let cmd = command("run", Some(defs.clone()));
        let ext = manifest("ext", vec![cmd.clone()]);
        let err = parse_args(&ext, &cmd, &defs, &words(&["1", "2"])).unwrap_err();
        assert_eq!(
            err,
            ExtensionError::InvalidInvocation {
                message: "Too many arguments".to_string(),
                usage: "agent-browser ext run [only]".to_string(),
            }
        );
    }
    let cmd = command("run", None);
    let ext = manifest("ext", vec![cmd.clone()]);
    let err = parse_args(&ext, &cmd, &[], &words(&["x"])).unwrap_err();
    assert!(matches!(err, ExtensionError::InvalidInvocation { .. }));
}

#[test]
fn a_missing_required_argument_is_named() {
    let defs = vec![arg("a", None, None, None), arg("b", None, Some(true), None)];
    let cmd = command("run", Some(defs.clone()));
    let ext = manifest("ext", vec![cmd.clone()]);
    let err = parse_args(&ext, &cmd, &defs, &words(&["x"])).unwrap_err();
    assert_eq!(
        err,
        ExtensionError::InvalidInvocation {
            message: "Missing argument: b".to_string(),
            usage: "agent-browser ext run <a> <b>".to_string(),
        }
    );
}

#[test]
fn the_first_failing_slot_decides_the_error() {
    let defs = vec![arg("n", Some("int"), None, None), arg("m", None, None, None)];
    let cmd = command("run", Some(defs.clone()));
    let ext = manifest("ext", vec![cmd.clone()]);
    let err = parse_args(&ext, &cmd, &defs, &words(&["x"])).unwrap_err();
    assert_eq!(
        err,
        ExtensionError::InvalidValue {
            message: "Invalid int for n".to_string(),
            usage: "agent-browser ext run <n> <m>".to_string(),
        }
    );
}

#[test]
fn a_repeated_name_keeps_the_later_value() {
    let defs = vec![arg("x", None, None, None), arg("x", None, None, None)];
    let cmd = command("run", Some(defs.clone()));
    let ext = manifest("ext", vec![cmd.clone()]);
    let bound = parse_args(&ext, &cmd, &defs, &words(&["one", "two"])).unwrap();
    assert_eq!(bound.len(), 1);
    assert_eq!(bound.get("x"), Some(&text("two")));
}

#[test]
fn fewer_than_two_words_are_no_extension_invocation() {
    let registry = ExtensionRegistry::load(vec![manifest("myext", vec![command("go", None)])]);
    assert_eq!(resolve_invocation(&registry, &words(&[])), Ok(None));
    assert_eq!(resolve_invocation(&registry, &words(&["myext"])), Ok(None));
}

#[test]
fn an_unknown_extension_is_no_extension_invocation() {
    let registry = ExtensionRegistry::load(vec![manifest("myext", vec![command("go", None)])]);
    assert_eq!(resolve_invocation(&registry, &words(&["other", "go"])), Ok(None));
    assert_eq!(resolve_invocation(&registry, &words(&["MyExt", "go"])), Ok(None));
}

#[test]
fn an_unknown_subcommand_is_an_invalid_invocation() {
    let registry = ExtensionRegistry::load(vec![manifest("myext", vec![command("go", None)])]);
    assert_eq!(
        resolve_invocation(&registry, &words(&["myext", "stop"])),
        Err(ExtensionError::InvalidInvocation {
            message: "Unknown subcommand: stop".to_string(),
            usage: "agent-browser myext <command> [args]".to_string(),
        })
    );
}

#[test]
fn command_names_are_matched_exactly() {
    let registry = ExtensionRegistry::load(vec![manifest(
        "myext",
        vec![command("example.hello", None), command("example", None)],
    )]);
    let found = resolve_invocation(&registry, &words(&["myext", "example"])).unwrap().unwrap();
    assert_eq!(found.1.name, "example");
    assert!(resolve_invocation(&registry, &words(&["myext", "example."])).is_err());
    assert!(resolve_invocation(&registry, &words(&["myext", "hello"])).is_err());
}

#[test]
fn a_resolved_invocation_carries_extension_command_and_arguments() {
    let cmd = command("example.hello", Some(vec![arg("selector", Some("string"), Some(true), None)]));
    let registry = ExtensionRegistry::load(vec![manifest("myext", vec![cmd.clone()])]);
    let (ext, found, bound) = resolve_invocation(&registry, &words(&["myext", "example.hello", ".title"]))
        .unwrap()
        .unwrap();
    assert_eq!(ext.name, "myext");
    assert_eq!(found, &cmd);
    let mut expected = BoundArgs::new();
    expected.insert("selector".to_string(), text(".title"));
    assert_eq!(bound, expected);
}

#[test]
fn zero_arguments_for_a_required_one_name_the_argument_and_the_usage() {
    let cmd = command("example.hello", Some(vec![arg("selector", Some("string"), Some(true), None)]));
    let registry = ExtensionRegistry::load(vec![manifest("myext", vec![cmd])]);
    assert_eq!(
        resolve_invocation(&registry, &words(&["myext", "example.hello"])),
        Err(ExtensionError::InvalidInvocation {
            message: "Missing argument: selector".to_string(),
            usage: "agent-browser myext example.hello <selector>".to_string(),
        })
    );
}

#[test]
fn surplus_words_after_the_command_are_refused() {
    let cmd = command("example.hello", Some(vec![arg("selector", None, None, None)]));
    let registry = ExtensionRegistry::load(vec![manifest("myext", vec![cmd])]);
    assert_eq!(
        resolve_invocation(&registry, &words(&["myext", "example.hello", "a", "b"])),
        Err(ExtensionError::InvalidInvocation {
            message: "Too many arguments".to_string(),
            usage: "agent-browser myext example.hello <selector>".to_string(),
        })
    );
}
