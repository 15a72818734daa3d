//! Help texts, rendered from the same manifests that invocations are
//! resolved against.
//!
//! Nothing is printed here: each function hands back the lines of the text,
//! and the caller shows them.

use vstd::prelude::*;
use vstd::string::*;
use crate::manifest::text_or_empty;
use crate::manifest::ExtensionArg;
use crate::manifest::ExtensionCommand;
use crate::manifest::ExtensionManifest;
use crate::registry::found;
use crate::registry::ExtensionRegistry;
use crate::resolve::build_extension_usage;
use crate::resolve::build_usage;
use crate::resolve::extension_usage;
use crate::resolve::usage_text;
use crate::text::chars_of;
use crate::text::pad_right;
use crate::text::push_text;
use crate::text::padded;
use crate::text::starts_with;
use crate::text::text_eq;
use crate::text::texts;

verus! {

/// One line of a list: two spaces and the name; where there is a
/// description, the name is filled up to `width` and the description
/// follows after one more space.
pub open spec fn listed(name: Seq<char>, description: Seq<char>, width: nat) -> Seq<char> {
    if description.len() == 0 {
        "  "@ + name
    } else {
        "  "@ + padded(name, width) + " "@ + description
    }
}

/// The list of the loaded extensions: an empty line, a heading, then one
/// line for each extension. Nothing at all where none is loaded.
pub open spec fn index_lines(manifests: Seq<ExtensionManifest>) -> Seq<Seq<char>> {
    if manifests.len() == 0 {
        Seq::empty()
    } else {
        seq![Seq::empty(), "Plugins:"@] + Seq::new(
            manifests.len(),
            |i: int| listed(manifests[i].name@, text_or_empty(manifests[i].description), 12),
        )
    }
}

/// One line for each command.
pub open spec fn command_lines(commands: Seq<ExtensionCommand>) -> Seq<Seq<char>> {
    Seq::new(
        commands.len(),
        |i: int| listed(commands[i].name@, text_or_empty(commands[i].description), 18),
    )
}

/// One line for each argument.
pub open spec fn argument_lines(defs: Seq<ExtensionArg>) -> Seq<Seq<char>> {
    Seq::new(
        defs.len(),
        |i: int| listed(defs[i].name@, text_or_empty(defs[i].description), 12),
    )
}

/// An empty line and the description, where there is one.
pub open spec fn description_lines(description: Option<String>) -> Seq<Seq<char>> {
    match description {
        Some(d) => seq![Seq::empty(), d@],
        None => Seq::empty(),
    }
}

/// The help of an extension as a whole.
pub open spec fn overview_lines(ext: ExtensionManifest) -> Seq<Seq<char>> {
    seq!["Usage: "@ + extension_usage(ext)] + description_lines(ext.description) + seq![
        Seq::empty(),
        "Commands:"@,
    ] + command_lines(ext.commands@)
}

/// The help of one command: its usage line, its description, and its
/// arguments where it declares any.
pub open spec fn command_help_lines(ext: ExtensionManifest, cmd: ExtensionCommand) -> Seq<
    Seq<char>,
> {
    seq!["Usage: "@ + usage_text(ext, cmd)] + description_lines(cmd.description) + if cmd.arg_defs().len()
        > 0 {
        seq![Seq::empty(), "Arguments:"@] + argument_lines(cmd.arg_defs())
    } else {
        Seq::empty()
    }
}

/// Whether the command name `name` lies in the namespace `prefix`: it is
/// `prefix` itself, or it goes on after `prefix` with a dot.
pub open spec fn in_namespace(name: Seq<char>, prefix: Seq<char>) -> bool {
    name == prefix || (prefix + "."@).is_prefix_of(name)
}

/// The commands that lie in the namespace `prefix`, in their order.
pub open spec fn matching(commands: Seq<ExtensionCommand>, prefix: Seq<char>) -> Seq<
    ExtensionCommand,
>
    decreases commands.len(),
{
    if commands.len() == 0 {
        Seq::empty()
    } else if in_namespace(commands.last().name@, prefix) {
        matching(commands.drop_last(), prefix).push(commands.last())
    } else {
        matching(commands.drop_last(), prefix)
    }
}

/// The help of a namespace: the commands that lie in it.
pub open spec fn namespace_lines(ext: ExtensionManifest, prefix: Seq<char>) -> Seq<Seq<char>> {
    seq!["Usage: "@ + extension_usage(ext), Seq::empty(), "Commands:"@] + command_lines(
        matching(ext.commands@, prefix),
    )
}

/// The help for `name` and `prefix` among `manifests`: the extension as a
/// whole for an empty prefix, one command for a prefix that is a command's
/// name, a namespace for a prefix that some command lies in; nothing where
/// no extension bears the name or nothing matches the prefix.
pub open spec fn help_lines(
    manifests: Seq<ExtensionManifest>,
    name: Seq<char>,
    prefix: Seq<char>,
) -> Option<Seq<Seq<char>>> {
    match found(manifests, name) {
        None => None,
        Some(ext) => if prefix.len() == 0 {
            Some(overview_lines(ext))
        } else {
            match ext.command_named(prefix) {
                Some(cmd) => Some(command_help_lines(ext, cmd)),
                None => if matching(ext.commands@, prefix).len() == 0 {
                    None
                } else {
                    Some(namespace_lines(ext, prefix))
                },
            }
        },
    }
}

/// One line of a list.
fn listing_line(name: &str, description: &Option<String>, width: usize) -> (r: String)
    ensures
        r@ == listed(name@, text_or_empty(*description), width as nat),
{
    let mut line = String::from_str("  ");
    match description {
        Some(d) => {
            if d.as_str().unicode_len() == 0 {
                line.append(name);
            } else {
                let filled = pad_right(name, width);
                line.append(filled.as_str());
                line.append(" ");
                line.append(d.as_str());
            }
        },
        None => {
            line.append(name);
        },
    }
    line
}

/// `head` followed by `tail`.
fn titled(head: &str, tail: &str) -> (r: String)
    ensures
        r@ == head@ + tail@,
{
    let mut line = String::from_str(head);
    line.append(tail);
    line
}

/// Adds an empty line and the description, where there is one.
fn push_description(lines: &mut Vec<String>, description: &Option<String>)
    ensures
        texts(final(lines)@) == texts(old(lines)@) + description_lines(*description),
{
    match description {
        Some(d) => {
            lines.push(String::new());
            lines.push(d.clone());
            assert(texts(lines@) =~= texts(old(lines)@) + description_lines(*description));
        },
        None => {
            assert(texts(lines@) =~= texts(old(lines)@) + description_lines(*description));
        },
    }
}

/// Adds one line for each command.
fn push_commands(lines: &mut Vec<String>, commands: &Vec<&ExtensionCommand>)
    ensures
        texts(final(lines)@) == texts(old(lines)@) + command_lines(
            Seq::new(commands@.len(), |i: int| *commands@[i]),
        ),
{
    let ghost all = Seq::new(commands@.len(), |i: int| *commands@[i]);
    let ghost before = texts(lines@);
    let mut i: usize = 0;
    assert(texts(lines@) =~= before + command_lines(all.take(0)));
    while i < commands.len()
        invariant
            i <= commands.len(),
            all == Seq::new(commands@.len(), |i: int| *commands@[i]),
            texts(lines@) == before + command_lines(all.take(i as int)),
        decreases commands.len() - i,
    {
        let c = commands[i];
        push_text(lines, listing_line(c.name.as_str(), &c.description, 18));
        assert(all[i as int] == *c);
        assert(command_lines(all.take(i + 1)) =~= command_lines(all.take(i as int)).push(
            listed(c.name@, text_or_empty(c.description), 18),
        ));
        i += 1;
    }
    assert(all.take(i as int) == all);
}

/// The lines that list the loaded extensions; none where none is loaded.
pub fn print_extension_index(registry: &ExtensionRegistry) -> (r: Vec<String>)
    ensures
        texts(r@) == index_lines(registry@),
{
    let list = registry.list();
    let mut lines: Vec<String> = Vec::new();
    if list.len() == 0 {
        assert(texts(lines@) =~= index_lines(registry@));
        return lines;
    }
    lines.push(String::new());
    lines.push(String::from_str("Plugins:"));
    let mut i: usize = 0;
    while i < list.len()
        invariant
            i <= list.len(),
            list@.len() == registry@.len(),
            forall|j: int| 0 <= j < list@.len() ==> *(#[trigger] list@[j]) == registry@[j],
            lines@.len() == 2 + i,
            lines@[0]@ == Seq::<char>::empty(),
            lines@[1]@ == "Plugins:"@,
            forall|j: int|
                0 <= j < i ==> (#[trigger] lines@[2 + j])@ == listed(
                    registry@[j].name@,
                    text_or_empty(registry@[j].description),
                    12,
                ),
        decreases list.len() - i,
    {
        let ext = list[i];
        assert(*ext == registry@[i as int]);
        lines.push(listing_line(ext.name.as_str(), &ext.description, 12));
        i += 1;
    }
    let ghost shown = texts(lines@);
    let ghost wanted = index_lines(registry@);
    assert(shown.len() == wanted.len());
    assert forall|j: int| 0 <= j < shown.len() implies shown[j] == wanted[j] by {
        if j >= 2 {
            assert(lines@[2 + (j - 2)]@ == listed(
                registry@[j - 2].name@,
                text_or_empty(registry@[j - 2].description),
                12,
            ));
        }
    }
    assert(shown =~= wanted);
    lines
}

/// The lines of the help of one command.
pub fn print_extension_command_help(ext: &ExtensionManifest, cmd: &ExtensionCommand) -> (r: Vec<
    String,
>)
    ensures
        texts(r@) == command_help_lines(*ext, *cmd),
{
    let usage = build_usage(ext, cmd);
    let mut lines: Vec<String> = Vec::new();
    lines.push(titled("Usage: ", usage.as_str()));
    assert(texts(lines@) =~= seq!["Usage: "@ + usage_text(*ext, *cmd)]);
    push_description(&mut lines, &cmd.description);
    let ghost head = texts(lines@);
    match &cmd.args {
        Some(args) => {
            if args.len() > 0 {
                lines.push(String::new());
                lines.push(String::from_str("Arguments:"));
                let mut i: usize = 0;
                assert(texts(lines@) =~= head + seq![Seq::empty(), "Arguments:"@] + argument_lines(
                    args@.take(0),
                ));
                while i < args.len()
                    invariant
                        i <= args.len(),
                        texts(lines@) == head + seq![Seq::empty(), "Arguments:"@] + argument_lines(
                            args@.take(i as int),
                        ),
                    decreases args.len() - i,
                {
                    let arg = &args[i];
                    push_text(&mut lines, listing_line(arg.name.as_str(), &arg.description, 12));
                    assert(argument_lines(args@.take(i + 1)) =~= argument_lines(
                        args@.take(i as int),
                    ).push(listed(arg.name@, text_or_empty(arg.description), 12)));
                    i += 1;
                }
                assert(args@.take(i as int) == args@);
            }
        },
        None => {},
    }
    assert(texts(lines@) =~= command_help_lines(*ext, *cmd));
    lines
}

/// Whether the command name `name` lies in the namespace `prefix`.
fn name_in_namespace(name: &str, prefix: &str) -> (r: bool)
    ensures
        r == in_namespace(name@, prefix@),
{
    if text_eq(name, prefix) {
        return true;
    }
    let mut dotted = String::from_str(prefix);
    dotted.append(".");
    let n = chars_of(name);
    let d = chars_of(dotted.as_str());
    starts_with(&n, &d)
}

/// The lines of the help for the extension `name`: of the extension as a
/// whole where `prefix` is missing or empty, of one command where `prefix`
/// is its name, of a namespace where commands lie in it. Nothing comes back
/// where there is nothing to show, and the caller falls back on other help.
pub fn print_extension_help(registry: &ExtensionRegistry, name: &str, prefix: Option<&str>) -> (r:
    Option<Vec<String>>)
    ensures
        match r {
            Some(lines) => help_lines(
                registry@,
                name@,
                match prefix {
                    Some(p) => p@,
                    None => Seq::empty(),
                },
            ) == Some(texts(lines@)),
            None => help_lines(
                registry@,
                name@,
                match prefix {
                    Some(p) => p@,
                    None => Seq::empty(),
                },
            ) is None,
        },
{
    let ext = match registry.find(name) {
        Some(ext) => ext,
        None => {
            return None;
        },
    };
    let prefix: &str = match prefix {
        Some(p) => p,
        None => "",
    };
    proof {
        reveal_strlit("");
    }
    let usage = build_extension_usage(ext);
    if prefix.unicode_len() == 0 {
        let mut lines: Vec<String> = Vec::new();
        lines.push(titled("Usage: ", usage.as_str()));
        assert(texts(lines@) =~= seq!["Usage: "@ + extension_usage(*ext)]);
        push_description(&mut lines, &ext.description);
        lines.push(String::new());
        lines.push(String::from_str("Commands:"));
        let ghost head = texts(lines@);
        let mut all: Vec<&ExtensionCommand> = Vec::new();
        let mut i: usize = 0;
        while i < ext.commands.len()
            invariant
                i <= ext.commands.len(),
                all@.len() == i,
                forall|j: int| 0 <= j < i ==> *(#[trigger] all@[j]) == ext.commands@[j],
            decreases ext.commands.len() - i,
        {
            all.push(&ext.commands[i]);
            i += 1;
        }
        assert(Seq::new(all@.len(), |i: int| *all@[i]) =~= ext.commands@);
        push_commands(&mut lines, &all);
        assert(texts(lines@) =~= overview_lines(*ext));
        return Some(lines);
    }
    if let Some(cmd) = ext.command(prefix) {
        return Some(print_extension_command_help(ext, cmd));
    }
    let mut matches: Vec<&ExtensionCommand> = Vec::new();
    let mut i: usize = 0;
    assert(ext.commands@.take(0) == Seq::<ExtensionCommand>::empty());
    while i < ext.commands.len()
        invariant
            i <= ext.commands.len(),
            Seq::new(matches@.len(), |k: int| *matches@[k]) == matching(
                ext.commands@.take(i as int),
                prefix@,
            ),
        decreases ext.commands.len() - i,
    {
        let c = &ext.commands[i];
        let ghost before = Seq::new(matches@.len(), |k: int| *matches@[k]);
        assert(ext.commands@.take(i + 1).drop_last() == ext.commands@.take(i as int));
        assert(ext.commands@.take(i + 1).last() == *c);
        if name_in_namespace(c.name.as_str(), prefix) {
            matches.push(c);
            assert(Seq::new(matches@.len(), |k: int| *matches@[k]) =~= before.push(*c));
        }
        i += 1;
    }
    assert(ext.commands@.take(i as int) == ext.commands@);
    if matches.len() == 0 {
        return None;
    }
    let mut lines: Vec<String> = Vec::new();
    lines.push(titled("Usage: ", usage.as_str()));
    lines.push(String::new());
    lines.push(String::from_str("Commands:"));
    assert(texts(lines@) =~= seq![
        "Usage: "@ + extension_usage(*ext),
        Seq::empty(),
        "Commands:"@,
    ]);
    push_commands(&mut lines, &matches);
    Some(lines)
}

} // verus!
