//! Reading a manifest from the text of its file.
//!
//! A manifest file holds one JSON object. Of its fields only those of the
//! manifest count, and any other is passed over. A field that may be left
//! out may also be `null`. A field of the wrong kind makes the whole file no
//! manifest, and the file is skipped.

use vstd::prelude::*;
use vstd::string::*;
use crate::json::field_of;
use crate::json::items_view;
use crate::json::json_parsed;
use crate::json::lemma_array_view;
use crate::json::read_json;
use crate::json::Json;
use crate::json::JsonValue;
use crate::manifest::ExtensionArg;
use crate::manifest::ExtensionCommand;
use crate::manifest::ExtensionHandler;
use crate::manifest::ExtensionManifest;
use crate::text::push_text;
use crate::text::texts;

verus! {

/// An argument as a mathematical value.
pub struct ArgView {
    pub name: Seq<char>,
    pub arg_type: Option<Seq<char>>,
    pub required: Option<bool>,
    pub default: Option<Json>,
    pub description: Option<Seq<char>>,
}

/// A handler as a mathematical value.
pub struct HandlerView {
    pub handler_type: Seq<char>,
    pub steps: Option<Seq<Json>>,
}

/// A command as a mathematical value.
pub struct CommandView {
    pub name: Seq<char>,
    pub description: Option<Seq<char>>,
    pub args: Option<Seq<ArgView>>,
    pub handler: HandlerView,
}

/// A manifest as a mathematical value.
pub struct ManifestView {
    pub name: Seq<char>,
    pub version: Option<Seq<char>>,
    pub description: Option<Seq<char>>,
    pub entry: Option<Seq<char>>,
    pub permissions: Option<Seq<Seq<char>>>,
    pub commands: Seq<CommandView>,
    pub min_cli_version: Option<Seq<char>>,
    pub max_cli_version: Option<Seq<char>>,
}

/// The characters of an optional text.
pub open spec fn some_text(t: Option<String>) -> Option<Seq<char>> {
    match t {
        Some(s) => Some(s@),
        None => None,
    }
}

/// The model of an argument.
pub open spec fn arg_view(arg: ExtensionArg) -> ArgView {
    ArgView {
        name: arg.name@,
        arg_type: some_text(arg.arg_type),
        required: arg.required,
        default: match arg.default {
            Some(d) => Some(d@),
            None => None,
        },
        description: some_text(arg.description),
    }
}

/// The models of arguments.
pub open spec fn args_view(args: Seq<ExtensionArg>) -> Seq<ArgView> {
    Seq::new(args.len(), |i: int| arg_view(args[i]))
}

/// The model of a handler.
pub open spec fn handler_view(handler: ExtensionHandler) -> HandlerView {
    HandlerView {
        handler_type: handler.handler_type@,
        steps: match handler.steps {
            Some(steps) => Some(items_view(steps@)),
            None => None,
        },
    }
}

/// The model of a command.
pub open spec fn command_view(command: ExtensionCommand) -> CommandView {
    CommandView {
        name: command.name@,
        description: some_text(command.description),
        args: match command.args {
            Some(args) => Some(args_view(args@)),
            None => None,
        },
        handler: handler_view(command.handler),
    }
}

/// The models of commands.
pub open spec fn commands_view(commands: Seq<ExtensionCommand>) -> Seq<CommandView> {
    Seq::new(commands.len(), |i: int| command_view(commands[i]))
}

/// The model of a manifest.
pub open spec fn manifest_view(manifest: ExtensionManifest) -> ManifestView {
    ManifestView {
        name: manifest.name@,
        version: some_text(manifest.version),
        description: some_text(manifest.description),
        entry: some_text(manifest.entry),
        permissions: match manifest.permissions {
            Some(p) => Some(texts(p@)),
            None => None,
        },
        commands: commands_view(manifest.commands@),
        min_cli_version: some_text(manifest.min_cli_version),
        max_cli_version: some_text(manifest.max_cli_version),
    }
}

/// A text that must be there: the field holds a string.
pub open spec fn text_field(field: Option<Json>) -> Option<Seq<char>> {
    match field {
        Some(Json::String(s)) => Some(s),
        _ => None,
    }
}

/// A text that may be left out: the field is missing or `null`, or holds a
/// string. Nothing comes back for a field of another kind.
pub open spec fn optional_text_field(field: Option<Json>) -> Option<Option<Seq<char>>> {
    match field {
        None => Some(None),
        Some(Json::Null) => Some(None),
        Some(Json::String(s)) => Some(Some(s)),
        _ => None,
    }
}

/// A truth value that may be left out.
pub open spec fn optional_bool_field(field: Option<Json>) -> Option<Option<bool>> {
    match field {
        None => Some(None),
        Some(Json::Null) => Some(None),
        Some(Json::Bool(b)) => Some(Some(b)),
        _ => None,
    }
}

/// A document of any kind that may be left out.
pub open spec fn optional_field(field: Option<Json>) -> Option<Json> {
    match field {
        None => None,
        Some(Json::Null) => None,
        Some(v) => Some(v),
    }
}

/// A list of documents that may be left out.
pub open spec fn optional_list_field(field: Option<Json>) -> Option<Option<Seq<Json>>> {
    match field {
        None => Some(None),
        Some(Json::Null) => Some(None),
        Some(Json::Array(items)) => Some(Some(items)),
        _ => None,
    }
}

/// The texts of `items`, where every one of them is a string.
pub open spec fn all_texts(items: Seq<Json>) -> Option<Seq<Seq<char>>>
    decreases items.len(),
{
    if items.len() == 0 {
        Some(Seq::empty())
    } else {
        match (all_texts(items.drop_last()), items.last()) {
            (Some(ts), Json::String(s)) => Some(ts.push(s)),
            _ => None,
        }
    }
}

/// A list of texts that may be left out.
pub open spec fn optional_texts_field(field: Option<Json>) -> Option<Option<Seq<Seq<char>>>> {
    match optional_list_field(field) {
        Some(Some(items)) => match all_texts(items) {
            Some(ts) => Some(Some(ts)),
            None => None,
        },
        Some(None) => Some(None),
        None => None,
    }
}

/// The argument that a document declares: an object with a `name`, and
/// maybe a `type`, `required`, a `default` and a `description`.
pub open spec fn decoded_arg(j: Json) -> Option<ArgView> {
    match j {
        Json::Object(f) => match (
            text_field(field_of(f, "name"@)),
            optional_text_field(field_of(f, "type"@)),
            optional_bool_field(field_of(f, "required"@)),
            optional_text_field(field_of(f, "description"@)),
        ) {
            (Some(name), Some(arg_type), Some(required), Some(description)) => Some(
                ArgView {
                    name: name,
                    arg_type: arg_type,
                    required: required,
                    default: optional_field(field_of(f, "default"@)),
                    description: description,
                },
            ),
            _ => None,
        },
        _ => None,
    }
}

/// The arguments that the documents `items` declare, where each declares
/// one.
pub open spec fn decoded_args(items: Seq<Json>) -> Option<Seq<ArgView>>
    decreases items.len(),
{
    if items.len() == 0 {
        Some(Seq::empty())
    } else {
        match (decoded_args(items.drop_last()), decoded_arg(items.last())) {
            (Some(args), Some(arg)) => Some(args.push(arg)),
            _ => None,
        }
    }
}

/// The handler that a document declares: an object with a `type`, and
/// maybe `steps`.
pub open spec fn decoded_handler(j: Option<Json>) -> Option<HandlerView> {
    match j {
        Some(Json::Object(f)) => match (
            text_field(field_of(f, "type"@)),
            optional_list_field(field_of(f, "steps"@)),
        ) {
            (Some(handler_type), Some(steps)) => Some(
                HandlerView { handler_type: handler_type, steps: steps },
            ),
            _ => None,
        },
        _ => None,
    }
}

/// The arguments of a command, which may be left out.
pub open spec fn optional_args(field: Option<Json>) -> Option<Option<Seq<ArgView>>> {
    match optional_list_field(field) {
        Some(Some(items)) => match decoded_args(items) {
            Some(args) => Some(Some(args)),
            None => None,
        },
        Some(None) => Some(None),
        None => None,
    }
}

/// The command that a document declares: an object with a `name` and a
/// `handler`, and maybe a `description` and `args`.
pub open spec fn decoded_command(j: Json) -> Option<CommandView> {
    match j {
        Json::Object(f) => match (
            text_field(field_of(f, "name"@)),
            optional_text_field(field_of(f, "description"@)),
            optional_args(field_of(f, "args"@)),
            decoded_handler(field_of(f, "handler"@)),
        ) {
            (Some(name), Some(description), Some(args), Some(handler)) => Some(
                CommandView { name: name, description: description, args: args, handler: handler },
            ),
            _ => None,
        },
        _ => None,
    }
}

/// The commands that the documents `items` declare, where each declares
/// one.
pub open spec fn decoded_commands(items: Seq<Json>) -> Option<Seq<CommandView>>
    decreases items.len(),
{
    if items.len() == 0 {
        Some(Seq::empty())
    } else {
        match (decoded_commands(items.drop_last()), decoded_command(items.last())) {
            (Some(commands), Some(command)) => Some(commands.push(command)),
            _ => None,
        }
    }
}

/// The commands of a manifest, which must be there.
pub open spec fn required_commands(field: Option<Json>) -> Option<Seq<CommandView>> {
    match field {
        Some(Json::Array(items)) => decoded_commands(items),
        _ => None,
    }
}

/// The manifest that a document declares: an object with a `name` and
/// `commands`, and maybe a `version`, a `description`, an `entry`,
/// `permissions`, `minCliVersion` and `maxCliVersion`.
pub open spec fn decoded_manifest(j: Json) -> Option<ManifestView> {
    match j {
        Json::Object(f) => match (
            text_field(field_of(f, "name"@)),
            optional_text_field(field_of(f, "version"@)),
            optional_text_field(field_of(f, "description"@)),
            optional_text_field(field_of(f, "entry"@)),
            optional_texts_field(field_of(f, "permissions"@)),
            required_commands(field_of(f, "commands"@)),
            optional_text_field(field_of(f, "minCliVersion"@)),
            optional_text_field(field_of(f, "maxCliVersion"@)),
        ) {
            (
                Some(name),
                Some(version),
                Some(description),
                Some(entry),
                Some(permissions),
                Some(commands),
                Some(min_cli_version),
                Some(max_cli_version),
            ) => Some(
                ManifestView {
                    name: name,
                    version: version,
                    description: description,
                    entry: entry,
                    permissions: permissions,
                    commands: commands,
                    min_cli_version: min_cli_version,
                    max_cli_version: max_cli_version,
                },
            ),
            _ => None,
        },
        _ => None,
    }
}

/// The manifest that the text of a file declares: nothing where the text
/// is no JSON or the document is no manifest.
pub open spec fn manifest_in(raw: Seq<char>) -> Option<ManifestView> {
    match json_parsed(raw) {
        Some(j) => decoded_manifest(j),
        None => None,
    }
}

/// The field `key` of `j` as a mathematical value.
pub open spec fn field_view(field: Option<&JsonValue>) -> Option<Json> {
    match field {
        Some(v) => Some(v@),
        None => None,
    }
}

/// The model of a text that may be missing, within an outcome that may
/// have failed.
pub open spec fn outcome_text(outcome: Option<Option<String>>) -> Option<Option<Seq<char>>> {
    match outcome {
        Some(t) => Some(some_text(t)),
        None => None,
    }
}

/// A text that must be there.
fn get_text(field: Option<&JsonValue>) -> (r: Option<String>)
    ensures
        some_text(r) == text_field(field_view(field)),
{
    match field {
        Some(JsonValue::String(s)) => Some(s.clone()),
        _ => None,
    }
}

/// A text that may be left out.
fn get_optional_text(field: Option<&JsonValue>) -> (r: Option<Option<String>>)
    ensures
        outcome_text(r) == optional_text_field(field_view(field)),
{
    match field {
        None => Some(None),
        Some(JsonValue::Null) => Some(None),
        Some(JsonValue::String(s)) => Some(Some(s.clone())),
        _ => None,
    }
}

/// A truth value that may be left out.
fn get_optional_bool(field: Option<&JsonValue>) -> (r: Option<Option<bool>>)
    ensures
        r == optional_bool_field(field_view(field)),
{
    match field {
        None => Some(None),
        Some(JsonValue::Null) => Some(None),
        Some(JsonValue::Bool(b)) => Some(Some(*b)),
        _ => None,
    }
}

/// A document of any kind that may be left out.
fn get_optional_value(field: Option<&JsonValue>) -> (r: Option<JsonValue>)
    ensures
        match r {
            Some(v) => optional_field(field_view(field)) == Some(v@),
            None => optional_field(field_view(field)) is None,
        },
{
    match field {
        None => None,
        Some(JsonValue::Null) => None,
        Some(v) => Some(v.clone()),
    }
}

/// A list of documents that may be left out.
fn get_optional_items(field: Option<&JsonValue>) -> (r: Option<Option<&Vec<JsonValue>>>)
    ensures
        match r {
            Some(Some(items)) => optional_list_field(field_view(field)) == Some(
                Some(items_view(items@)),
            ),
            Some(None) => optional_list_field(field_view(field)) == Some(None::<Seq<Json>>),
            None => optional_list_field(field_view(field)) is None,
        },
{
    match field {
        None => Some(None),
        Some(JsonValue::Null) => Some(None),
        Some(JsonValue::Array(items)) => {
            proof {
                lemma_array_view(*items);
            }
            Some(Some(items))
        },
        _ => None,
    }
}

/// A list of texts that may be left out.
#[verifier::loop_isolation(false)]
fn get_optional_texts(field: Option<&JsonValue>) -> (r: Option<Option<Vec<String>>>)
    ensures
        match r {
            Some(Some(ts)) => optional_texts_field(field_view(field)) == Some(Some(texts(ts@))),
            Some(None) => optional_texts_field(field_view(field)) == Some(None::<Seq<Seq<char>>>),
            None => optional_texts_field(field_view(field)) is None,
        },
{
    match get_optional_items(field) {
        Some(Some(items)) => {
            let ghost all = items_view(items@);
            let mut out: Vec<String> = Vec::new();
            let mut i: usize = 0;
            assert(all.take(0) == Seq::<Json>::empty());
            assert(texts(out@) =~= Seq::<Seq<char>>::empty());
            while i < items.len()
                invariant
                    i <= items.len(),
                    all == items_view(items@),
                    all_texts(all.take(i as int)) == Some(texts(out@)),
                decreases items.len() - i,
            {
                assert(all.take(i + 1).drop_last() == all.take(i as int));
                assert(all.take(i + 1).last() == items@[i as int]@);
                match &items[i] {
                    JsonValue::String(s) => {
                        push_text(&mut out, s.clone());
                    },
                    _ => {
                        proof {
                            lemma_all_texts_fails(all, i + 1);
                        }
                        return None;
                    },
                }
                i += 1;
            }
            assert(all.take(i as int) == all);
            Some(Some(out))
        },
        Some(None) => Some(None),
        None => None,
    }
}

/// A list that holds something other than a string among its first `k`
/// items is no list of texts.
proof fn lemma_all_texts_fails(items: Seq<Json>, k: int)
    requires
        0 <= k <= items.len(),
        all_texts(items.take(k)) is None,
    ensures
        all_texts(items) is None,
    decreases items.len() - k,
{
    if k < items.len() {
        assert(items.take(k + 1).drop_last() == items.take(k));
        lemma_all_texts_fails(items, k + 1);
    } else {
        assert(items.take(k) == items);
    }
}

/// A list that holds something that declares no argument among its first
/// `k` items declares no arguments.
proof fn lemma_decoded_args_fails(items: Seq<Json>, k: int)
    requires
        0 <= k <= items.len(),
        decoded_args(items.take(k)) is None,
    ensures
        decoded_args(items) is None,
    decreases items.len() - k,
{
    if k < items.len() {
        assert(items.take(k + 1).drop_last() == items.take(k));
        lemma_decoded_args_fails(items, k + 1);
    } else {
        assert(items.take(k) == items);
    }
}

/// A list that holds something that declares no command among its first
/// `k` items declares no commands.
proof fn lemma_decoded_commands_fails(items: Seq<Json>, k: int)
    requires
        0 <= k <= items.len(),
        decoded_commands(items.take(k)) is None,
    ensures
        decoded_commands(items) is None,
    decreases items.len() - k,
{
    if k < items.len() {
        assert(items.take(k + 1).drop_last() == items.take(k));
        lemma_decoded_commands_fails(items, k + 1);
    } else {
        assert(items.take(k) == items);
    }
}

/// The argument that the document `j` declares.
pub fn decode_arg(j: &JsonValue) -> (r: Option<ExtensionArg>)
    ensures
        match r {
            Some(arg) => decoded_arg(j@) == Some(arg_view(arg)),
            None => decoded_arg(j@) is None,
        },
{
    if !matches!(j, JsonValue::Object(_)) {
        return None;
    }
    let name = match get_text(j.get("name")) {
        Some(v) => v,
        None => {
            return None;
        },
    };
    let arg_type = match get_optional_text(j.get("type")) {
        Some(v) => v,
        None => {
            return None;
        },
    };
    let required = match get_optional_bool(j.get("required")) {
        Some(v) => v,
        None => {
            return None;
        },
    };
    let description = match get_optional_text(j.get("description")) {
        Some(v) => v,
        None => {
            return None;
        },
    };
    let default = get_optional_value(j.get("default"));
    Some(ExtensionArg { name, arg_type, required, default, description })
}

/// The arguments of a command, which may be left out.
#[verifier::loop_isolation(false)]
fn decode_optional_args(field: Option<&JsonValue>) -> (r: Option<Option<Vec<ExtensionArg>>>)
    ensures
        match r {
            Some(Some(args)) => optional_args(field_view(field)) == Some(Some(args_view(args@))),
            Some(None) => optional_args(field_view(field)) == Some(None::<Seq<ArgView>>),
            None => optional_args(field_view(field)) is None,
        },
{
    match get_optional_items(field) {
        Some(Some(items)) => {
            let ghost all = items_view(items@);
            let mut out: Vec<ExtensionArg> = Vec::new();
            let mut i: usize = 0;
            assert(all.take(0) == Seq::<Json>::empty());
            assert(args_view(out@) =~= Seq::<ArgView>::empty());
            while i < items.len()
                invariant
                    i <= items.len(),
                    all == items_view(items@),
                    decoded_args(all.take(i as int)) == Some(args_view(out@)),
                decreases items.len() - i,
            {
                assert(all.take(i + 1).drop_last() == all.take(i as int));
                assert(all.take(i + 1).last() == items@[i as int]@);
                match decode_arg(&items[i]) {
                    Some(arg) => {
                        let ghost before = args_view(out@);
                        out.push(arg);
                        assert(args_view(out@) =~= before.push(arg_view(arg)));
                    },
                    None => {
                        proof {
                            lemma_decoded_args_fails(all, i + 1);
                        }
                        return None;
                    },
                }
                i += 1;
            }
            assert(all.take(i as int) == all);
            Some(Some(out))
        },
        Some(None) => Some(None),
        None => None,
    }
}

/// The handler that a field declares.
fn decode_handler(field: Option<&JsonValue>) -> (r: Option<ExtensionHandler>)
    ensures
        match r {
            Some(handler) => decoded_handler(field_view(field)) == Some(handler_view(handler)),
            None => decoded_handler(field_view(field)) is None,
        },
{
    let j = match field {
        Some(j) => j,
        None => {
            return None;
        },
    };
    if !matches!(j, JsonValue::Object(_)) {
        return None;
    }
    let handler_type = match get_text(j.get("type")) {
        Some(v) => v,
        None => {
            return None;
        },
    };
    let steps = match get_optional_items(j.get("steps")) {
        Some(Some(items)) => Some(crate::json::copy_items(items)),
        Some(None) => None,
        None => {
            return None;
        },
    };
    Some(ExtensionHandler { handler_type, steps })
}

/// The command that the document `j` declares.
pub fn decode_command(j: &JsonValue) -> (r: Option<ExtensionCommand>)
    ensures
        match r {
            Some(command) => decoded_command(j@) == Some(command_view(command)),
            None => decoded_command(j@) is None,
        },
{
    if !matches!(j, JsonValue::Object(_)) {
        return None;
    }
    let name = match get_text(j.get("name")) {
        Some(v) => v,
        None => {
            return None;
        },
    };
    let description = match get_optional_text(j.get("description")) {
        Some(v) => v,
        None => {
            return None;
        },
    };
    let args = match decode_optional_args(j.get("args")) {
        Some(v) => v,
        None => {
            return None;
        },
    };
    let handler = match decode_handler(j.get("handler")) {
        Some(v) => v,
        None => {
            return None;
        },
    };
    Some(ExtensionCommand { name, description, args, handler })
}

/// The commands of a manifest, which must be there.
#[verifier::loop_isolation(false)]
fn decode_commands(field: Option<&JsonValue>) -> (r: Option<Vec<ExtensionCommand>>)
    ensures
        match r {
            Some(commands) => required_commands(field_view(field)) == Some(commands_view(commands@)),
            None => required_commands(field_view(field)) is None,
        },
{
    match field {
        Some(JsonValue::Array(items)) => {
            let ghost all = items_view(items@);
            proof {
                lemma_array_view(*items);
            }
            let mut out: Vec<ExtensionCommand> = Vec::new();
            let mut i: usize = 0;
            assert(all.take(0) == Seq::<Json>::empty());
            assert(commands_view(out@) =~= Seq::<CommandView>::empty());
            while i < items.len()
                invariant
                    i <= items.len(),
                    all == items_view(items@),
                    decoded_commands(all.take(i as int)) == Some(commands_view(out@)),
                decreases items.len() - i,
            {
                assert(all.take(i + 1).drop_last() == all.take(i as int));
                assert(all.take(i + 1).last() == items@[i as int]@);
                match decode_command(&items[i]) {
                    Some(command) => {
                        let ghost before = commands_view(out@);
                        out.push(command);
                        assert(commands_view(out@) =~= before.push(command_view(command)));
                    },
                    None => {
                        proof {
                            lemma_decoded_commands_fails(all, i + 1);
                        }
                        return None;
                    },
                }
                i += 1;
            }
            assert(all.take(i as int) == all);
            Some(out)
        },
        _ => None,
    }
}

/// The manifest that the document `j` declares.
pub fn decode_manifest(j: &JsonValue) -> (r: Option<ExtensionManifest>)
    ensures
        match r {
            Some(manifest) => decoded_manifest(j@) == Some(manifest_view(manifest)),
            None => decoded_manifest(j@) is None,
        },
{
    if !matches!(j, JsonValue::Object(_)) {
        return None;
    }
    let name = match get_text(j.get("name")) {
        Some(v) => v,
        None => {
            return None;
        },
    };
    let version = match get_optional_text(j.get("version")) {
        Some(v) => v,
        None => {
            return None;
        },
    };
    let description = match get_optional_text(j.get("description")) {
        Some(v) => v,
        None => {
            return None;
        },
    };
    let entry = match get_optional_text(j.get("entry")) {
        Some(v) => v,
        None => {
            return None;
        },
    };
    let permissions = match get_optional_texts(j.get("permissions")) {
        Some(v) => v,
        None => {
            return None;
        },
    };
    let commands = match decode_commands(j.get("commands")) {
        Some(v) => v,
        None => {
            return None;
        },
    };
    let min_cli_version = match get_optional_text(j.get("minCliVersion")) {
        Some(v) => v,
        None => {
            return None;
        },
    };
    let max_cli_version = match get_optional_text(j.get("maxCliVersion")) {
        Some(v) => v,
        None => {
            return None;
        },
    };
    Some(
        ExtensionManifest {
            name,
            version,
            description,
            entry,
            permissions,
            commands,
            min_cli_version,
            max_cli_version,
        },
    )
}

/// The manifest that the text `raw` of a manifest file declares; nothing
/// where the text is no JSON or the document is no manifest.
pub fn load_manifest(raw: &str) -> (r: Option<ExtensionManifest>)
    ensures
        match r {
            Some(manifest) => manifest_in(raw@) == Some(manifest_view(manifest)),
            None => manifest_in(raw@) is None,
        },
{
    match read_json(raw) {
        Some(j) => decode_manifest(&j),
        None => None,
    }
}

/// The models of manifests.
pub open spec fn manifests_view(manifests: Seq<ExtensionManifest>) -> Seq<ManifestView> {
    Seq::new(manifests.len(), |i: int| manifest_view(manifests[i]))
}

/// The manifests that the files `files` declare, in the order of the
/// files. A file that could not be read and a file that declares no
/// manifest are passed over in silence.
pub open spec fn manifests_in(files: Seq<Option<String>>) -> Seq<ManifestView>
    decreases files.len(),
{
    if files.len() == 0 {
        Seq::empty()
    } else {
        manifests_in(files.drop_last()) + match files.last() {
            Some(raw) => match manifest_in(raw@) {
                Some(m) => seq![m],
                None => Seq::empty(),
            },
            None => Seq::empty(),
        }
    }
}

/// The manifests that the files `files` declare. Each file is the text
/// found at one of the places that discovery tries, or nothing where the
/// place holds no file that can be read.
pub fn load_manifests(files: &[Option<String>]) -> (r: Vec<ExtensionManifest>)
    ensures
        manifests_view(r@) == manifests_in(files@),
{
    let mut out: Vec<ExtensionManifest> = Vec::new();
    let mut i: usize = 0;
    assert(files@.take(0) == Seq::<Option<String>>::empty());
    assert(manifests_view(out@) =~= manifests_in(files@.take(0)));
    while i < files.len()
        invariant
            i <= files.len(),
            manifests_view(out@) == manifests_in(files@.take(i as int)),
        decreases files.len() - i,
    {
        assert(files@.take(i + 1).drop_last() == files@.take(i as int));
        assert(files@.take(i + 1).last() == files@[i as int]);
        let ghost before = manifests_view(out@);
        match &files[i] {
            Some(raw) => match load_manifest(raw.as_str()) {
                Some(manifest) => {
                    out.push(manifest);
                    assert(manifests_view(out@) =~= before.push(manifest_view(manifest)));
                },
                None => {},
            },
            None => {},
        }
        assert(manifests_view(out@) =~= manifests_in(files@.take(i + 1)));
        i += 1;
    }
    assert(files@.take(i as int) == files@);
    out
}

} // verus!
