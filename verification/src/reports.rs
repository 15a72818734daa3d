//! What the `plugins` subcommands say: the lines for a reader and the JSON
//! documents for a program. Nothing is printed here; the caller shows what
//! it is handed.

use vstd::prelude::*;
use vstd::string::*;
use crate::commands::UninstallResult;
use crate::json::fields_view;
use crate::json::items_view;
use crate::json::lemma_array_view;
use crate::json::lemma_object_view;
use crate::json::Json;
use crate::json::JsonValue;
use crate::manifest::ExtensionManifest;
use crate::registry::ExtensionRegistry;
use crate::text::pad_right;
use crate::text::padded;
use crate::text::push_text;
use crate::text::replace_all;
use crate::text::replaced;
use crate::text::texts;

verus! {

/// The line that reports a failure to a program: a JSON object with the
/// message, in which every double quote of the message has become a single
/// one.
pub open spec fn failure_text(message: Seq<char>) -> Seq<char> {
    "{\"success\":false,\"error\":\""@ + replaced(message, "\""@, "'"@) + "\"}"@
}

/// The line that reports a failure to a program.
pub fn json_failure(message: &str) -> (r: String)
    ensures
        r@ == failure_text(message@),
{
    let mut line = String::from_str("{\"success\":false,\"error\":\"");
    let quoted = replace_all(message, "\"", "'");
    line.append(quoted.as_str());
    line.append("\"}");
    line
}

/// A JSON text, or `null` where there is no text.
pub open spec fn optional_json(t: Option<String>) -> Json {
    match t {
        Some(s) => Json::String(s@),
        None => Json::Null,
    }
}

/// A JSON array of texts.
pub open spec fn json_texts(items: Seq<String>) -> Json {
    Json::Array(Seq::new(items.len(), |i: int| Json::String(items[i]@)))
}

/// The document that reports success with the payload `data`.
pub open spec fn success_json(data: Json) -> Json {
    Json::Object(seq![("success"@, Json::Bool(true)), ("data"@, data)])
}

/// A JSON text, or `null` where there is no text.
fn json_of_optional(t: &Option<String>) -> (r: JsonValue)
    ensures
        r@ == optional_json(*t),
{
    match t {
        Some(s) => JsonValue::String(s.clone()),
        None => JsonValue::Null,
    }
}

/// A JSON array of texts.
fn json_of_texts(items: &Vec<String>) -> (r: JsonValue)
    ensures
        r@ == json_texts(items@),
{
    let mut out: Vec<JsonValue> = Vec::new();
    let mut i: usize = 0;
    while i < items.len()
        invariant
            i <= items.len(),
            out@.len() == i,
            forall|j: int| 0 <= j < i ==> out@[j]@ == Json::String(items@[j]@),
        decreases items.len() - i,
    {
        out.push(JsonValue::String(items[i].clone()));
        i += 1;
    }
    proof {
        lemma_array_view(out);
        assert(items_view(out@) =~= json_texts(items@)->Array_0);
    }
    JsonValue::Array(out)
}

/// A JSON text.
fn json_of_text(s: &str) -> (r: JsonValue)
    ensures
        r@ == Json::String(s@),
{
    JsonValue::String(String::from_str(s))
}

/// A JSON object of the fields `fields`.
fn json_object(fields: Vec<(String, JsonValue)>) -> (r: JsonValue)
    ensures
        r@ == Json::Object(fields_view(fields@)),
{
    proof {
        lemma_object_view(fields);
    }
    JsonValue::Object(fields)
}

/// The document that reports success with the payload `data`.
fn report_success(data: JsonValue) -> (r: JsonValue)
    ensures
        r@ == success_json(data@),
{
    let mut fields: Vec<(String, JsonValue)> = Vec::new();
    fields.push((String::from_str("success"), JsonValue::Bool(true)));
    fields.push((String::from_str("data"), data));
    assert(fields_view(fields@) =~= seq![("success"@, Json::Bool(true)), ("data"@, data@)]);
    json_object(fields)
}

/// The names of the manifests in `manifests`.
pub open spec fn names_of(manifests: Seq<ExtensionManifest>) -> Seq<Json> {
    Seq::new(manifests.len(), |i: int| Json::String(manifests[i].name@))
}

/// The document that lists the loaded plugins by name.
pub open spec fn list_json(manifests: Seq<ExtensionManifest>) -> Json {
    success_json(Json::Object(seq![("plugins"@, Json::Array(names_of(manifests)))]))
}

/// The document that lists the loaded plugins by name.
pub fn list_report(registry: &ExtensionRegistry) -> (r: JsonValue)
    ensures
        r@ == list_json(registry@),
{
    let list = registry.list();
    let mut names: Vec<JsonValue> = Vec::new();
    let mut i: usize = 0;
    while i < list.len()
        invariant
            i <= list.len(),
            list@.len() == registry@.len(),
            forall|j: int| 0 <= j < list@.len() ==> *(#[trigger] list@[j]) == registry@[j],
            names@.len() == i,
            forall|j: int| 0 <= j < i ==> names@[j]@ == Json::String(registry@[j].name@),
        decreases list.len() - i,
    {
        let ext = list[i];
        assert(*ext == registry@[i as int]);
        names.push(JsonValue::String(ext.name.clone()));
        i += 1;
    }
    proof {
        lemma_array_view(names);
        assert(items_view(names@) =~= names_of(registry@));
    }
    let mut data: Vec<(String, JsonValue)> = Vec::new();
    data.push((String::from_str("plugins"), JsonValue::Array(names)));
    assert(fields_view(data@) =~= seq![("plugins"@, Json::Array(names_of(registry@)))]);
    report_success(json_object(data))
}

/// The line of one plugin in the list: two spaces and the name; where a
/// description is declared, the name is filled up to twelve characters and
/// the description follows after one more space.
pub open spec fn list_line(ext: ExtensionManifest) -> Seq<char> {
    match ext.description {
        Some(d) => "  "@ + padded(ext.name@, 12) + " "@ + d@,
        None => "  "@ + ext.name@,
    }
}

/// The lines that list the loaded plugins for a reader.
pub open spec fn list_text(manifests: Seq<ExtensionManifest>) -> Seq<Seq<char>> {
    if manifests.len() == 0 {
        seq!["No plugins found"@]
    } else {
        seq!["Plugins:"@] + Seq::new(manifests.len(), |i: int| list_line(manifests[i]))
    }
}

/// The lines that list the loaded plugins for a reader.
pub fn list_lines(registry: &ExtensionRegistry) -> (r: Vec<String>)
    ensures
        texts(r@) == list_text(registry@),
{
    let list = registry.list();
    let mut lines: Vec<String> = Vec::new();
    if list.len() == 0 {
        lines.push(String::from_str("No plugins found"));
        assert(texts(lines@) =~= list_text(registry@));
        return lines;
    }
    lines.push(String::from_str("Plugins:"));
    let mut i: usize = 0;
    while i < list.len()
        invariant
            i <= list.len(),
            list@.len() == registry@.len(),
            forall|j: int| 0 <= j < list@.len() ==> *(#[trigger] list@[j]) == registry@[j],
            lines@.len() == 1 + i,
            lines@[0]@ == "Plugins:"@,
            forall|j: int| 0 <= j < i ==> (#[trigger] lines@[1 + j])@ == list_line(registry@[j]),
        decreases list.len() - i,
    {
        let ext = list[i];
        assert(*ext == registry@[i as int]);
        let mut line = String::from_str("  ");
        match &ext.description {
            Some(d) => {
                let filled = pad_right(ext.name.as_str(), 12);
                line.append(filled.as_str());
                line.append(" ");
                line.append(d.as_str());
            },
            None => {
                line.append(ext.name.as_str());
            },
        }
        lines.push(line);
        i += 1;
    }
    let ghost shown = texts(lines@);
    let ghost wanted = list_text(registry@);
    assert(shown.len() == wanted.len());
    assert forall|j: int| 0 <= j < shown.len() implies shown[j] == wanted[j] by {
        if j >= 1 {
            assert(lines@[1 + (j - 1)]@ == list_line(registry@[j - 1]));
        }
    }
    assert(shown =~= wanted);
    lines
}

/// The permissions of a plugin as JSON: the array of them, or `null` where
/// none are declared.
pub open spec fn permissions_json(permissions: Option<Vec<String>>) -> Json {
    match permissions {
        Some(p) => json_texts(p@),
        None => Json::Null,
    }
}

/// The document that describes one plugin.
pub open spec fn info_json(ext: ExtensionManifest) -> Json {
    success_json(
        Json::Object(
            seq![
                ("name"@, Json::String(ext.name@)),
                ("description"@, optional_json(ext.description)),
                ("version"@, optional_json(ext.version)),
                ("entry"@, optional_json(ext.entry)),
                ("permissions"@, permissions_json(ext.permissions)),
                ("min_cli_version"@, optional_json(ext.min_cli_version)),
                ("max_cli_version"@, optional_json(ext.max_cli_version)),
            ],
        ),
    )
}

/// The document that describes one plugin.
pub fn info_report(ext: &ExtensionManifest) -> (r: JsonValue)
    ensures
        r@ == info_json(*ext),
{
    let permissions = match &ext.permissions {
        Some(p) => json_of_texts(p),
        None => JsonValue::Null,
    };
    let mut data: Vec<(String, JsonValue)> = Vec::new();
    data.push((String::from_str("name"), JsonValue::String(ext.name.clone())));
    data.push((String::from_str("description"), json_of_optional(&ext.description)));
    data.push((String::from_str("version"), json_of_optional(&ext.version)));
    data.push((String::from_str("entry"), json_of_optional(&ext.entry)));
    data.push((String::from_str("permissions"), permissions));
    data.push((String::from_str("min_cli_version"), json_of_optional(&ext.min_cli_version)));
    data.push((String::from_str("max_cli_version"), json_of_optional(&ext.max_cli_version)));
    assert(fields_view(data@) =~= seq![
        ("name"@, Json::String(ext.name@)),
        ("description"@, optional_json(ext.description)),
        ("version"@, optional_json(ext.version)),
        ("entry"@, optional_json(ext.entry)),
        ("permissions"@, permissions_json(ext.permissions)),
        ("min_cli_version"@, optional_json(ext.min_cli_version)),
        ("max_cli_version"@, optional_json(ext.max_cli_version)),
    ]);
    report_success(json_object(data))
}

/// `items` one after the other with `separator` between them.
pub open spec fn joined(items: Seq<Seq<char>>, separator: Seq<char>) -> Seq<char>
    decreases items.len(),
{
    if items.len() == 0 {
        Seq::empty()
    } else if items.len() == 1 {
        items[0]
    } else {
        joined(items.drop_last(), separator) + separator + items.last()
    }
}

/// Joins `items` with `separator` between them.
pub fn join(items: &Vec<String>, separator: &str) -> (r: String)
    ensures
        r@ == joined(texts(items@), separator@),
{
    let mut out = String::new();
    let ghost all = texts(items@);
    let mut i: usize = 0;
    assert(all.take(0) == Seq::<Seq<char>>::empty());
    while i < items.len()
        invariant
            i <= items.len(),
            all == texts(items@),
            out@ == joined(all.take(i as int), separator@),
        decreases items.len() - i,
    {
        assert(all.take(i + 1).drop_last() == all.take(i as int));
        assert(all.take(i + 1).last() == items@[i as int]@);
        if i > 0 {
            out.append(separator);
        } else {
            assert(all.take(1)[0] == items@[0]@);
        }
        out.append(items[i].as_str());
        i += 1;
    }
    assert(all.take(i as int) == all);
    out
}

/// One line of a plugin's description: `label` and the text, where there
/// is a text.
pub open spec fn labelled(label: Seq<char>, t: Option<String>) -> Seq<Seq<char>> {
    match t {
        Some(s) => seq![label + s@],
        None => Seq::empty(),
    }
}

/// The line of the permissions, where any are declared.
pub open spec fn permission_lines(permissions: Option<Vec<String>>) -> Seq<Seq<char>> {
    match permissions {
        Some(p) => if p@.len() > 0 {
            seq!["  permissions: "@ + joined(texts(p@), ", "@)]
        } else {
            Seq::empty()
        },
        None => Seq::empty(),
    }
}

/// The lines that describe one plugin for a reader.
pub open spec fn info_text(ext: ExtensionManifest) -> Seq<Seq<char>> {
    seq![ext.name@] + labelled("  "@, ext.description) + labelled("  version: "@, ext.version)
        + labelled("  entry: "@, ext.entry) + permission_lines(ext.permissions) + labelled(
        "  min cli: "@,
        ext.min_cli_version,
    ) + labelled("  max cli: "@, ext.max_cli_version)
}

/// Adds the line of `label` and the text, where there is a text.
fn push_labelled(lines: &mut Vec<String>, label: &str, t: &Option<String>)
    ensures
        texts(final(lines)@) == texts(old(lines)@) + labelled(label@, *t),
{
    match t {
        Some(s) => {
            let mut line = String::from_str(label);
            line.append(s.as_str());
            push_text(lines, line);
        },
        None => {},
    }
    assert(texts(lines@) =~= texts(old(lines)@) + labelled(label@, *t));
}

/// The lines that describe one plugin for a reader.
pub fn info_lines(ext: &ExtensionManifest) -> (r: Vec<String>)
    ensures
        texts(r@) == info_text(*ext),
{
    let mut lines: Vec<String> = Vec::new();
    lines.push(ext.name.clone());
    assert(texts(lines@) =~= seq![ext.name@]);
    push_labelled(&mut lines, "  ", &ext.description);
    push_labelled(&mut lines, "  version: ", &ext.version);
    push_labelled(&mut lines, "  entry: ", &ext.entry);
    let ghost before = texts(lines@);
    match &ext.permissions {
        Some(p) => {
            if p.len() > 0 {
                let mut line = String::from_str("  permissions: ");
                let list = join(p, ", ");
                line.append(list.as_str());
                push_text(&mut lines, line);
            }
        },
        None => {},
    }
    assert(texts(lines@) =~= before + permission_lines(ext.permissions));
    push_labelled(&mut lines, "  min cli: ", &ext.min_cli_version);
    push_labelled(&mut lines, "  max cli: ", &ext.max_cli_version);
    lines
}

/// The document that reports a plugin installed by a command.
pub open spec fn add_json(
    package: Seq<char>,
    dir: Seq<char>,
    command: Seq<char>,
    manifest: bool,
) -> Json {
    success_json(
        Json::Object(
            seq![
                ("package"@, Json::String(package)),
                ("dir"@, Json::String(dir)),
                ("command"@, Json::String(command)),
                ("manifest"@, Json::Bool(manifest)),
            ],
        ),
    )
}

/// The document that reports a plugin installed by a command.
pub fn add_report(package: &str, dir: &str, command: &str, manifest: bool) -> (r: JsonValue)
    ensures
        r@ == add_json(package@, dir@, command@, manifest),
{
    let mut data: Vec<(String, JsonValue)> = Vec::new();
    data.push((String::from_str("package"), json_of_text(package)));
    data.push((String::from_str("dir"), json_of_text(dir)));
    data.push((String::from_str("command"), json_of_text(command)));
    data.push((String::from_str("manifest"), JsonValue::Bool(manifest)));
    assert(fields_view(data@) =~= seq![
        ("package"@, Json::String(package@)),
        ("dir"@, Json::String(dir@)),
        ("command"@, Json::String(command@)),
        ("manifest"@, Json::Bool(manifest)),
    ]);
    report_success(json_object(data))
}

/// The document that reports a plugin installed from a directory.
pub open spec fn install_json(package: Seq<char>, dir: Seq<char>, manifest: bool) -> Json {
    success_json(
        Json::Object(
            seq![
                ("package"@, Json::String(package)),
                ("dir"@, Json::String(dir)),
                ("manifest"@, Json::Bool(manifest)),
            ],
        ),
    )
}

/// The document that reports a plugin installed from a directory.
pub fn install_report(package: &str, dir: &str, manifest: bool) -> (r: JsonValue)
    ensures
        r@ == install_json(package@, dir@, manifest),
{
    let mut data: Vec<(String, JsonValue)> = Vec::new();
    data.push((String::from_str("package"), json_of_text(package)));
    data.push((String::from_str("dir"), json_of_text(dir)));
    data.push((String::from_str("manifest"), JsonValue::Bool(manifest)));
    assert(fields_view(data@) =~= seq![
        ("package"@, Json::String(package@)),
        ("dir"@, Json::String(dir@)),
        ("manifest"@, Json::Bool(manifest)),
    ]);
    report_success(json_object(data))
}

/// The document that reports a new plugin.
pub open spec fn init_json(name: Seq<char>, dir: Seq<char>) -> Json {
    success_json(Json::Object(seq![("name"@, Json::String(name)), ("dir"@, Json::String(dir))]))
}

/// The document that reports a new plugin.
pub fn init_report(name: &str, dir: &str) -> (r: JsonValue)
    ensures
        r@ == init_json(name@, dir@),
{
    let mut data: Vec<(String, JsonValue)> = Vec::new();
    data.push((String::from_str("name"), json_of_text(name)));
    data.push((String::from_str("dir"), json_of_text(dir)));
    assert(fields_view(data@) =~= seq![
        ("name"@, Json::String(name@)),
        ("dir"@, Json::String(dir@)),
    ]);
    report_success(json_object(data))
}

/// How taking the package out ended, as JSON; `null` where there was no
/// package to take out.
pub open spec fn uninstall_json(uninstall: Option<UninstallResult>) -> Json {
    match uninstall {
        Some(u) => Json::Object(
            seq![("package"@, Json::String(u.package@)), ("success"@, Json::Bool(u.success))],
        ),
        None => Json::Null,
    }
}

/// The document that reports a plugin removed.
pub open spec fn remove_json(
    name: Seq<char>,
    dir: Seq<char>,
    uninstall: Option<UninstallResult>,
) -> Json {
    success_json(
        Json::Object(
            seq![
                ("name"@, Json::String(name)),
                ("dir"@, Json::String(dir)),
                ("uninstall"@, uninstall_json(uninstall)),
            ],
        ),
    )
}

/// The document that reports a plugin removed.
pub fn remove_report(name: &str, dir: &str, uninstall: &Option<UninstallResult>) -> (r: JsonValue)
    ensures
        r@ == remove_json(name@, dir@, *uninstall),
{
    let outcome = match uninstall {
        Some(u) => {
            let mut fields: Vec<(String, JsonValue)> = Vec::new();
            fields.push((String::from_str("package"), JsonValue::String(u.package.clone())));
            fields.push((String::from_str("success"), JsonValue::Bool(u.success)));
            assert(fields_view(fields@) =~= seq![
                ("package"@, Json::String(u.package@)),
                ("success"@, Json::Bool(u.success)),
            ]);
            json_object(fields)
        },
        None => JsonValue::Null,
    };
    let mut data: Vec<(String, JsonValue)> = Vec::new();
    data.push((String::from_str("name"), json_of_text(name)));
    data.push((String::from_str("dir"), json_of_text(dir)));
    data.push((String::from_str("uninstall"), outcome));
    assert(fields_view(data@) =~= seq![
        ("name"@, Json::String(name@)),
        ("dir"@, Json::String(dir@)),
        ("uninstall"@, uninstall_json(*uninstall)),
    ]);
    report_success(json_object(data))
}

} // verus!
