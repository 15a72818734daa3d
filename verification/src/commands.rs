//! The `plugins` subcommands: adding, creating, removing, listing and
//! describing plugins.
//!
//! What is decided here is what the words of the command line mean, where a
//! plugin goes, which package a plugin directory holds and how it is
//! uninstalled, and what a new plugin's files say. Running a package
//! manager and copying, writing and removing files are the caller's part.

use vstd::prelude::*;
use vstd::slice::*;
use vstd::string::*;
use crate::discovery::optional_text;
use crate::discovery::user_config_dir;
use crate::discovery::PathView;
use crate::discovery::PluginPath;
use crate::json::json_parsed;
use crate::json::lemma_object_view;
use crate::json::read_json;
use crate::json::Json;
use crate::json::JsonValue;
use crate::package::is_plugin_package_name;
use crate::package::names_plugin;
use crate::package::package_matches;
use crate::package::package_name_matches_plugin;
use crate::package::sanitize_plugin_dir;
use crate::package::sanitized;
use crate::package::trim_quotes;
use crate::package::unquoted;
use crate::text::chars_of;
use crate::text::text_eq;
use crate::text::texts;

verus! {

/// Where plugins are kept.
#[derive(Debug, Clone, PartialEq)]
pub enum PluginLocation {
    /// In the user's configuration directory.
    User,
    /// In the project in the working directory.
    Local,
    /// In the directory named on the command line.
    Custom(String),
    /// In the project where it has a plugins directory, else with the user.
    Auto,
}

/// A location as a mathematical value.
pub enum LocationView {
    User,
    Local,
    Custom(Seq<char>),
    Auto,
}

impl View for PluginLocation {
    type V = LocationView;

    open spec fn view(&self) -> LocationView {
        match self {
            PluginLocation::User => LocationView::User,
            PluginLocation::Local => LocationView::Local,
            PluginLocation::Custom(dir) => LocationView::Custom(dir@),
            PluginLocation::Auto => LocationView::Auto,
        }
    }
}

/// What `plugins add` was asked to do.
#[derive(Debug, Clone, PartialEq)]
pub struct AddOptions {
    /// The install command, word by word; never empty.
    pub command: Vec<String>,
    pub location: PluginLocation,
}

/// What `plugins init` and `plugins remove` were asked to do.
#[derive(Debug, Clone, PartialEq)]
pub struct InitOptions {
    pub name: String,
    pub location: PluginLocation,
}

/// The location that was chosen, or `fallback` where none was.
pub open spec fn chosen(location: Option<LocationView>, fallback: LocationView) -> LocationView {
    match location {
        Some(l) => l,
        None => fallback,
    }
}

/// What is said where a location is chosen twice.
pub open spec fn one_location_only() -> Seq<char> {
    "Only one of --user, --local, or --dir is allowed"@
}

/// What the words of `plugins add` mean from word `i` on, with `location`
/// chosen so far. Location options come first; `--` or the first other word
/// starts the install command, which runs to the end and must not be empty.
pub open spec fn add_options(args: Seq<String>, i: int, location: Option<LocationView>) -> Result<
    (Seq<Seq<char>>, LocationView),
    Seq<char>,
>
    decreases args.len() - i,
{
    if i < 0 || i >= args.len() {
        Err("Missing install command"@)
    } else if args[i]@ == "--"@ {
        if i + 1 >= args.len() {
            Err("Missing install command"@)
        } else {
            Ok((texts(args.skip(i + 1)), chosen(location, LocationView::User)))
        }
    } else if args[i]@ == "--user"@ {
        if location is Some {
            Err(one_location_only())
        } else {
            add_options(args, i + 1, Some(LocationView::User))
        }
    } else if args[i]@ == "--local"@ {
        if location is Some {
            Err(one_location_only())
        } else {
            add_options(args, i + 1, Some(LocationView::Local))
        }
    } else if args[i]@ == "--dir"@ {
        if location is Some {
            Err(one_location_only())
        } else if i + 1 >= args.len() {
            Err("Missing value for --dir"@)
        } else {
            add_options(args, i + 2, Some(LocationView::Custom(args[i + 1]@)))
        }
    } else {
        Ok((texts(args.skip(i)), chosen(location, LocationView::User)))
    }
}

/// What the words of `plugins init` and `plugins remove` mean from word
/// `i` on, with `location` and `name` found so far. Location options and
/// the one name may come in any order; `fallback` is the location where
/// none is chosen.
pub open spec fn named_options(
    args: Seq<String>,
    i: int,
    location: Option<LocationView>,
    name: Option<Seq<char>>,
    fallback: LocationView,
) -> Result<(Seq<char>, LocationView), Seq<char>>
    decreases args.len() - i,
{
    if i < 0 || i >= args.len() {
        match name {
            Some(n) => Ok((n, chosen(location, fallback))),
            None => Err("Missing plugin name"@),
        }
    } else if args[i]@ == "--user"@ {
        if location is Some {
            Err(one_location_only())
        } else {
            named_options(args, i + 1, Some(LocationView::User), name, fallback)
        }
    } else if args[i]@ == "--local"@ {
        if location is Some {
            Err(one_location_only())
        } else {
            named_options(args, i + 1, Some(LocationView::Local), name, fallback)
        }
    } else if args[i]@ == "--dir"@ {
        if location is Some {
            Err(one_location_only())
        } else if i + 1 >= args.len() {
            Err("Missing value for --dir"@)
        } else {
            named_options(args, i + 2, Some(LocationView::Custom(args[i + 1]@)), name, fallback)
        }
    } else if name is Some {
        Err("Only one plugin name is allowed"@)
    } else {
        named_options(args, i + 1, location, Some(args[i]@), fallback)
    }
}

/// The model of an optional location.
pub open spec fn location_view(location: Option<PluginLocation>) -> Option<LocationView> {
    match location {
        Some(l) => Some(l@),
        None => None,
    }
}

/// The model of an optional text.
pub open spec fn name_view(name: Option<String>) -> Option<Seq<char>> {
    match name {
        Some(n) => Some(n@),
        None => None,
    }
}

/// A copy of a location.
fn copy_location(location: &PluginLocation) -> (r: PluginLocation)
    ensures
        r@ == location@,
{
    match location {
        PluginLocation::User => PluginLocation::User,
        PluginLocation::Local => PluginLocation::Local,
        PluginLocation::Custom(dir) => PluginLocation::Custom(dir.clone()),
        PluginLocation::Auto => PluginLocation::Auto,
    }
}

/// The location that was chosen, or `fallback` where none was.
fn location_or(location: Option<PluginLocation>, fallback: PluginLocation) -> (r: PluginLocation)
    ensures
        r@ == chosen(location_view(location), fallback@),
{
    match location {
        Some(l) => l,
        None => fallback,
    }
}

/// Reads the words that follow `plugins add`.
pub fn parse_add_args(args: &[String]) -> (r: Result<AddOptions, String>)
    ensures
        match r {
            Ok(options) => add_options(args@, 0, None) == Ok::<
                (Seq<Seq<char>>, LocationView),
                Seq<char>,
            >((texts(options.command@), options.location@)) && options.command@.len() > 0,
            Err(message) => add_options(args@, 0, None) == Err::<
                (Seq<Seq<char>>, LocationView),
                Seq<char>,
            >(message@),
        },
{
    let mut location: Option<PluginLocation> = None;
    let mut i: usize = 0;
    let mut start: usize = args.len();
    while i < args.len()
        invariant_except_break
            i <= args.len(),
            start == args.len(),
            add_options(args@, 0, None) == add_options(args@, i as int, location_view(location)),
        ensures
            start <= args.len(),
            i <= args.len(),
            start < args.len() ==> add_options(args@, 0, None) == Ok::<
                (Seq<Seq<char>>, LocationView),
                Seq<char>,
            >((texts(args@.skip(start as int)), chosen(location_view(location), LocationView::User))),
            start == args.len() ==> add_options(args@, 0, None) == Err::<
                (Seq<Seq<char>>, LocationView),
                Seq<char>,
            >("Missing install command"@),
        decreases args.len() - i,
    {
        let token = args[i].as_str();
        if text_eq(token, "--") {
            if i + 1 < args.len() {
                start = i + 1;
            }
            break;
        } else if text_eq(token, "--user") {
            if location.is_some() {
                return Err(String::from_str("Only one of --user, --local, or --dir is allowed"));
            }
            location = Some(PluginLocation::User);
            i += 1;
        } else if text_eq(token, "--local") {
            if location.is_some() {
                return Err(String::from_str("Only one of --user, --local, or --dir is allowed"));
            }
            location = Some(PluginLocation::Local);
            i += 1;
        } else if text_eq(token, "--dir") {
            if location.is_some() {
                return Err(String::from_str("Only one of --user, --local, or --dir is allowed"));
            }
            if i + 1 >= args.len() {
                return Err(String::from_str("Missing value for --dir"));
            }
            location = Some(PluginLocation::Custom(args[i + 1].clone()));
            i += 2;
        } else {
            start = i;
            break;
        }
    }
    if start >= args.len() {
        return Err(String::from_str("Missing install command"));
    }
    let mut command: Vec<String> = Vec::new();
    let mut k: usize = start;
    let ghost wanted = texts(args@.skip(start as int));
    assert(texts(command@) =~= wanted.take(0));
    while k < args.len()
        invariant
            start <= k <= args.len(),
            wanted == texts(args@.skip(start as int)),
            command@.len() == k - start,
            texts(command@) == wanted.take(k - start),
        decreases args.len() - k,
    {
        let ghost before = texts(command@);
        command.push(args[k].clone());
        assert(texts(command@) =~= before.push(args@[k as int]@));
        assert(wanted.take(k + 1 - start) =~= wanted.take(k - start).push(args@[k as int]@));
        k += 1;
    }
    assert(wanted.take(args.len() - start) == wanted);
    Ok(AddOptions { command, location: location_or(location, PluginLocation::User) })
}

/// Reads the words that name one plugin and, maybe, a location.
fn parse_named_args(args: &[String], fallback: PluginLocation) -> (r: Result<InitOptions, String>)
    ensures
        match r {
            Ok(options) => named_options(args@, 0, None, None, fallback@) == Ok::<
                (Seq<char>, LocationView),
                Seq<char>,
            >((options.name@, options.location@)),
            Err(message) => named_options(args@, 0, None, None, fallback@) == Err::<
                (Seq<char>, LocationView),
                Seq<char>,
            >(message@),
        },
{
    let mut location: Option<PluginLocation> = None;
    let mut name: Option<String> = None;
    let mut i: usize = 0;
    while i < args.len()
        invariant
            i <= args.len(),
            named_options(args@, 0, None, None, fallback@) == named_options(
                args@,
                i as int,
                location_view(location),
                name_view(name),
                fallback@,
            ),
        decreases args.len() - i,
    {
        let token = args[i].as_str();
        if text_eq(token, "--user") {
            if location.is_some() {
                return Err(String::from_str("Only one of --user, --local, or --dir is allowed"));
            }
            location = Some(PluginLocation::User);
            i += 1;
        } else if text_eq(token, "--local") {
            if location.is_some() {
                return Err(String::from_str("Only one of --user, --local, or --dir is allowed"));
            }
            location = Some(PluginLocation::Local);
            i += 1;
        } else if text_eq(token, "--dir") {
            if location.is_some() {
                return Err(String::from_str("Only one of --user, --local, or --dir is allowed"));
            }
            if i + 1 >= args.len() {
                return Err(String::from_str("Missing value for --dir"));
            }
            location = Some(PluginLocation::Custom(args[i + 1].clone()));
            i += 2;
        } else {
            if name.is_some() {
                return Err(String::from_str("Only one plugin name is allowed"));
            }
            name = Some(args[i].clone());
            i += 1;
        }
    }
    match name {
        Some(name) => Ok(InitOptions { name, location: location_or(location, fallback) }),
        None => Err(String::from_str("Missing plugin name")),
    }
}

/// Reads the words that follow `plugins init`; the plugin goes to the user
/// where no location is chosen.
pub fn parse_init_args(args: &[String]) -> (r: Result<InitOptions, String>)
    ensures
        match r {
            Ok(options) => named_options(args@, 0, None, None, LocationView::User) == Ok::<
                (Seq<char>, LocationView),
                Seq<char>,
            >((options.name@, options.location@)),
            Err(message) => named_options(args@, 0, None, None, LocationView::User) == Err::<
                (Seq<char>, LocationView),
                Seq<char>,
            >(message@),
        },
{
    parse_named_args(args, PluginLocation::User)
}

/// Reads the words that follow `plugins remove`; the plugin is looked for
/// in the project first and with the user second where no location is
/// chosen.
pub fn parse_remove_args(args: &[String]) -> (r: Result<InitOptions, String>)
    ensures
        match r {
            Ok(options) => named_options(args@, 0, None, None, LocationView::Auto) == Ok::<
                (Seq<char>, LocationView),
                Seq<char>,
            >((options.name@, options.location@)),
            Err(message) => named_options(args@, 0, None, None, LocationView::Auto) == Err::<
                (Seq<char>, LocationView),
                Seq<char>,
            >(message@),
        },
{
    parse_named_args(args, PluginLocation::Auto)
}

/// The words after `plugins`, by their first.
#[derive(Debug, Clone, Copy, PartialEq, Eq, Structural)]
pub enum PluginsCommand {
    /// No subcommand was given: the usage is shown and the run fails.
    Usage,
    Add,
    Init,
    Remove,
    List,
    Info,
    /// The subcommand is none of the five.
    Unknown,
}

/// What the words `args`, which begin with `plugins`, ask for.
pub open spec fn plugins_command(args: Seq<String>) -> PluginsCommand {
    if args.len() < 2 {
        PluginsCommand::Usage
    } else if args[1]@ == "add"@ {
        PluginsCommand::Add
    } else if args[1]@ == "init"@ {
        PluginsCommand::Init
    } else if args[1]@ == "remove"@ {
        PluginsCommand::Remove
    } else if args[1]@ == "list"@ {
        PluginsCommand::List
    } else if args[1]@ == "info"@ {
        PluginsCommand::Info
    } else {
        PluginsCommand::Unknown
    }
}

/// Which subcommand the words `args`, which begin with `plugins`, ask for.
/// The words of the subcommand itself follow from the third on.
pub fn run_plugins(args: &[String]) -> (r: PluginsCommand)
    ensures
        r == plugins_command(args@),
{
    if args.len() < 2 {
        return PluginsCommand::Usage;
    }
    let word = args[1].as_str();
    if text_eq(word, "add") {
        PluginsCommand::Add
    } else if text_eq(word, "init") {
        PluginsCommand::Init
    } else if text_eq(word, "remove") {
        PluginsCommand::Remove
    } else if text_eq(word, "list") {
        PluginsCommand::List
    } else if text_eq(word, "info") {
        PluginsCommand::Info
    } else {
        PluginsCommand::Unknown
    }
}

/// The model of the working directory as the caller found it: the
/// directory, or what was said when it could not be had.
pub open spec fn cwd_view(cwd: Result<&str, &str>) -> Result<Seq<char>, Seq<char>> {
    match cwd {
        Ok(dir) => Ok(dir@),
        Err(message) => Err(message@),
    }
}

/// The plugins directory of the project in `cwd`.
pub open spec fn local_root(cwd: Seq<char>) -> PathView {
    PathView { base: cwd, segments: seq![".agent-browser"@, "plugins"@] }
}

/// The plugins directory of the user, where the configuration directory is
/// known.
pub open spec fn user_root(config_dir: Option<Seq<char>>) -> Result<PathView, Seq<char>> {
    match config_dir {
        Some(dir) => Ok(PathView { base: dir, segments: seq!["agent-browser"@, "plugins"@] }),
        None => Err("Could not resolve user config directory"@),
    }
}

/// The directory that `location` stands for. `local_exists` says whether
/// the project in `cwd` has a plugins directory, which decides where `Auto`
/// leads.
pub open spec fn root_of(
    location: LocationView,
    cwd: Result<Seq<char>, Seq<char>>,
    local_exists: bool,
    config_dir: Option<Seq<char>>,
) -> Result<PathView, Seq<char>> {
    match location {
        LocationView::Custom(dir) => Ok(PathView { base: dir, segments: Seq::empty() }),
        LocationView::Local => match cwd {
            Ok(dir) => Ok(local_root(dir)),
            Err(message) => Err(message),
        },
        LocationView::User => user_root(config_dir),
        LocationView::Auto => match cwd {
            Ok(dir) => if local_exists {
                Ok(local_root(dir))
            } else {
                user_root(config_dir)
            },
            Err(message) => Err(message),
        },
    }
}

/// The model of a directory that may have been found.
pub open spec fn root_view(root: Result<PluginPath, String>) -> Result<PathView, Seq<char>> {
    match root {
        Ok(path) => Ok(path@),
        Err(message) => Err(message@),
    }
}

/// The directory `below` the directory `dir` of `base`.
fn path_below(base: &str, dir: &str, below: &str) -> (r: PluginPath)
    ensures
        r@ == (PathView { base: base@, segments: seq![dir@, below@] }),
{
    let mut segments: Vec<String> = Vec::new();
    segments.push(String::from_str(dir));
    segments.push(String::from_str(below));
    assert(texts(segments@) =~= seq![dir@, below@]);
    PluginPath { base: String::from_str(base), segments }
}

/// The plugins directory of the user.
fn user_plugins_root(config_dir: Option<&str>) -> (r: Result<PluginPath, String>)
    ensures
        root_view(r) == user_root(optional_text(config_dir)),
{
    match config_dir {
        Some(dir) => Ok(path_below(dir, "agent-browser", "plugins")),
        None => Err(String::from_str("Could not resolve user config directory")),
    }
}

/// The directory that `location` stands for, for a given working directory
/// and a given configuration directory of the user.
pub fn plugins_root(
    location: PluginLocation,
    cwd: Result<&str, &str>,
    local_exists: bool,
    config_dir: Option<&str>,
) -> (r: Result<PluginPath, String>)
    ensures
        root_view(r) == root_of(location@, cwd_view(cwd), local_exists, optional_text(config_dir)),
{
    match location {
        PluginLocation::Custom(dir) => {
            let root = PluginPath { base: dir, segments: Vec::new() };
            assert(root@.segments =~= Seq::<Seq<char>>::empty());
            Ok(root)
        },
        PluginLocation::Local => match cwd {
            Ok(dir) => Ok(path_below(dir, ".agent-browser", "plugins")),
            Err(message) => Err(String::from_str(message)),
        },
        PluginLocation::User => user_plugins_root(config_dir),
        PluginLocation::Auto => match cwd {
            Ok(dir) => {
                if local_exists {
                    Ok(path_below(dir, ".agent-browser", "plugins"))
                } else {
                    user_plugins_root(config_dir)
                }
            },
            Err(message) => Err(String::from_str(message)),
        },
    }
}

/// The directory that `location` stands for, with the user's configuration
/// directory as the platform gives it. Whatever that directory is, the
/// outcome is that of [`plugins_root`] for it.
pub fn resolve_plugins_root(location: PluginLocation, cwd: Result<&str, &str>, local_exists: bool) -> (r:
    Result<PluginPath, String>)
    ensures
        exists|config_dir: Option<Seq<char>>|
            root_view(r) == #[trigger] root_of(location@, cwd_view(cwd), local_exists, config_dir),
{
    let config = user_config_dir();
    let config_dir: Option<&str> = match &config {
        Some(c) => Some(c.as_str()),
        None => None,
    };
    let root = plugins_root(location, cwd, local_exists, config_dir);
    assert(root_view(root) == root_of(
        location@,
        cwd_view(cwd),
        local_exists,
        optional_text(config_dir),
    ));
    root
}

/// The lock file that `pnpm` leaves in a directory.
pub const PNPM_LOCK: &'static str = "pnpm-lock.yaml";

/// The lock file that `yarn` leaves in a directory.
pub const YARN_LOCK: &'static str = "yarn.lock";

/// The lock file that `bun` leaves in a directory.
pub const BUN_LOCK: &'static str = "bun.lockb";

/// The lock file that `npm` leaves in a directory.
pub const NPM_LOCK: &'static str = "package-lock.json";

/// Which lock files a directory holds.
#[derive(Debug, Clone, Copy, PartialEq, Eq, Structural)]
pub struct LockFiles {
    pub pnpm: bool,
    pub yarn: bool,
    pub bun: bool,
    pub npm: bool,
}

/// The package manager that a directory was filled by, judged by its lock
/// files: `pnpm` before `yarn`, `yarn` before `bun`, `bun` before `npm`.
pub open spec fn manager_of(locks: LockFiles) -> Option<Seq<char>> {
    if locks.pnpm {
        Some("pnpm"@)
    } else if locks.yarn {
        Some("yarn"@)
    } else if locks.bun {
        Some("bun"@)
    } else if locks.npm {
        Some("npm"@)
    } else {
        None
    }
}

/// The package manager that a directory was filled by.
pub fn detect_package_manager(locks: &LockFiles) -> (r: Option<&'static str>)
    ensures
        optional_text(r) == manager_of(*locks),
{
    if locks.pnpm {
        Some("pnpm")
    } else if locks.yarn {
        Some("yarn")
    } else if locks.bun {
        Some("bun")
    } else if locks.npm {
        Some("npm")
    } else {
        None
    }
}

/// The command that takes `package` out again: that of the manager, and
/// that of `npm` where the manager is unknown.
pub open spec fn uninstall_text(manager: Option<Seq<char>>, package: Seq<char>) -> Seq<char> {
    if manager == Some("pnpm"@) {
        "pnpm remove "@ + package
    } else if manager == Some("yarn"@) {
        "yarn remove "@ + package
    } else if manager == Some("bun"@) {
        "bun remove "@ + package
    } else {
        "npm uninstall "@ + package
    }
}

/// The command that takes `package` out again.
pub fn uninstall_command(manager: Option<&str>, package: &str) -> (r: String)
    ensures
        r@ == uninstall_text(optional_text(manager), package@),
{
    let head: &str = match manager {
        Some(m) => {
            if text_eq(m, "pnpm") {
                "pnpm remove "
            } else if text_eq(m, "yarn") {
                "yarn remove "
            } else if text_eq(m, "bun") {
                "bun remove "
            } else {
                "npm uninstall "
            }
        },
        None => "npm uninstall ",
    };
    let mut command = String::from_str(head);
    command.append(package);
    command
}

/// The keys of `fields` that name a plugin package, in their order.
pub open spec fn plugin_keys(fields: Seq<(Seq<char>, Json)>) -> Seq<Seq<char>>
    decreases fields.len(),
{
    if fields.len() == 0 {
        Seq::empty()
    } else if names_plugin(fields.last().0) {
        plugin_keys(fields.drop_last()).push(fields.last().0)
    } else {
        plugin_keys(fields.drop_last())
    }
}

/// The plugin packages that the table `key` of a package description
/// lists; none where there is no such table.
pub open spec fn listed_plugins(parsed: Json, key: Seq<char>) -> Seq<Seq<char>> {
    match parsed.field(key) {
        Some(Json::Object(fields)) => plugin_keys(fields),
        _ => Seq::empty(),
    }
}

/// The plugin packages that a package description depends on, by its three
/// tables in turn.
pub open spec fn plugin_dependencies(parsed: Json) -> Seq<Seq<char>> {
    listed_plugins(parsed, "dependencies"@) + listed_plugins(parsed, "devDependencies"@)
        + listed_plugins(parsed, "optionalDependencies"@)
}

/// The position of the first of `packages` that goes with the plugin
/// `plugin`, or the length of `packages`.
pub open spec fn first_match(packages: Seq<Seq<char>>, plugin: Seq<char>) -> int
    decreases packages.len(),
{
    if packages.len() == 0 {
        0
    } else if package_matches(packages[0], plugin) {
        0
    } else {
        1 + first_match(packages.skip(1), plugin)
    }
}

/// The package that a plugin directory holds, judged by its package
/// description: of the plugin packages it depends on, the first that goes
/// with the plugin's name, or the very first where none does; where it
/// depends on none, its own name if that names a plugin package and goes
/// with the plugin's name.
pub open spec fn installed_in(parsed: Json, plugin: Seq<char>) -> Option<Seq<char>> {
    let candidates = plugin_dependencies(parsed);
    if candidates.len() == 0 {
        match parsed.field("name"@) {
            Some(Json::String(name)) => if names_plugin(name) && package_matches(name, plugin) {
                Some(name)
            } else {
                None
            },
            _ => None,
        }
    } else if first_match(candidates, plugin) < candidates.len() {
        Some(candidates[first_match(candidates, plugin)])
    } else {
        Some(candidates[0])
    }
}

/// Adds to `out` the plugin packages that the table `key` of `parsed`
/// lists.
fn push_listed_plugins(out: &mut Vec<String>, parsed: &JsonValue, key: &str)
    ensures
        texts(final(out)@) == texts(old(out)@) + listed_plugins(parsed@, key@),
{
    let ghost before = texts(out@);
    match parsed.get(key) {
        Some(JsonValue::Object(fields)) => {
            let ghost model = crate::json::fields_view(fields@);
            proof {
                lemma_object_view(*fields);
            }
            let mut i: usize = 0;
            assert(model.take(0) == Seq::<(Seq<char>, Json)>::empty());
            assert(texts(out@) =~= before + plugin_keys(model.take(0)));
            while i < fields.len()
                invariant
                    i <= fields.len(),
                    model == crate::json::fields_view(fields@),
                    texts(out@) == before + plugin_keys(model.take(i as int)),
                decreases fields.len() - i,
            {
                let name = fields[i].0.as_str();
                assert(model.take(i + 1).drop_last() == model.take(i as int));
                assert(model.take(i + 1).last() == model[i as int]);
                if is_plugin_package_name(name) {
                    crate::text::push_text(out, String::from_str(name));
                }
                assert(texts(out@) =~= before + plugin_keys(model.take(i + 1)));
                i += 1;
            }
            assert(model.take(i as int) == model);
        },
        _ => {
            assert(texts(out@) =~= before + listed_plugins(parsed@, key@));
        },
    }
}

/// The package that a plugin directory holds, judged by its package
/// description `parsed`.
pub fn installed_package(parsed: &JsonValue, plugin_name: &str) -> (r: Option<String>)
    ensures
        match r {
            Some(package) => installed_in(parsed@, plugin_name@) == Some(package@),
            None => installed_in(parsed@, plugin_name@) is None,
        },
{
    let mut candidates: Vec<String> = Vec::new();
    assert(texts(candidates@) =~= Seq::<Seq<char>>::empty());
    push_listed_plugins(&mut candidates, parsed, "dependencies");
    push_listed_plugins(&mut candidates, parsed, "devDependencies");
    push_listed_plugins(&mut candidates, parsed, "optionalDependencies");
    assert(texts(candidates@) =~= plugin_dependencies(parsed@));
    if candidates.len() == 0 {
        return match parsed.get("name") {
            Some(JsonValue::String(name)) => {
                if is_plugin_package_name(name.as_str()) && package_name_matches_plugin(
                    name.as_str(),
                    plugin_name,
                ) {
                    Some(name.clone())
                } else {
                    None
                }
            },
            _ => None,
        };
    }
    let ghost all = texts(candidates@);
    let mut i: usize = 0;
    assert(all.skip(0) == all);
    while i < candidates.len()
        invariant
            i <= candidates.len(),
            all == texts(candidates@),
            all == plugin_dependencies(parsed@),
            first_match(all, plugin_name@) == i + first_match(all.skip(i as int), plugin_name@),
        decreases candidates.len() - i,
    {
        assert(all.skip(i as int)[0] == candidates@[i as int]@);
        if package_name_matches_plugin(candidates[i].as_str(), plugin_name) {
            return Some(candidates[i].clone());
        }
        assert(all.skip(i as int).skip(1) == all.skip(i + 1));
        i += 1;
    }
    assert(all.skip(i as int).len() == 0);
    Some(candidates[0].clone())
}

/// The package that a plugin directory holds, judged by the text of its
/// package description: nothing where there is no description or where it
/// is no JSON.
pub open spec fn installed_by(package_json: Option<Seq<char>>, plugin: Seq<char>) -> Option<
    Seq<char>,
> {
    match package_json {
        Some(raw) => match json_parsed(raw) {
            Some(parsed) => installed_in(parsed, plugin),
            None => None,
        },
        None => None,
    }
}

/// The package that a plugin directory holds. `package_json` is the text
/// of the package description in that directory, where there is one that
/// can be read.
pub fn find_installed_plugin_package(package_json: Option<&str>, plugin_name: &str) -> (r: Option<
    String,
>)
    ensures
        match r {
            Some(package) => installed_by(optional_text(package_json), plugin_name@) == Some(
                package@,
            ),
            None => installed_by(optional_text(package_json), plugin_name@) is None,
        },
{
    match package_json {
        Some(raw) => match read_json(raw) {
            Some(parsed) => installed_package(&parsed, plugin_name),
            None => None,
        },
        None => None,
    }
}

/// How a plugin's package is taken out again.
#[derive(Debug, Clone, PartialEq)]
pub struct UninstallPlan {
    pub package: String,
    /// The command to run in the plugin's directory.
    pub command: String,
}

/// How taking a plugin's package out ended.
#[derive(Debug, Clone, PartialEq)]
pub struct UninstallResult {
    pub package: String,
    pub success: bool,
}

/// How the package of the plugin `plugin_name` is taken out of its
/// directory; nothing where the directory holds no plugin package.
/// `package_json` is the text of the package description in the directory
/// and `locks` says which lock files lie beside it.
pub fn try_uninstall_plugin(package_json: Option<&str>, plugin_name: &str, locks: &LockFiles) -> (r:
    Option<UninstallPlan>)
    ensures
        match r {
            Some(plan) => installed_by(optional_text(package_json), plugin_name@) == Some(
                plan.package@,
            ) && plan.command@ == uninstall_text(manager_of(*locks), plan.package@),
            None => installed_by(optional_text(package_json), plugin_name@) is None,
        },
{
    match find_installed_plugin_package(package_json, plugin_name) {
        Some(package) => {
            let manager = detect_package_manager(locks);
            let command = uninstall_command(manager, package.as_str());
            Some(UninstallPlan { package, command })
        },
        None => None,
    }
}

/// How taking the package out ended: as the command said, and without
/// success where the command could not be run.
pub fn uninstall_result(package: String, outcome: Result<bool, String>) -> (r: UninstallResult)
    ensures
        r.package == package,
        r.success == match outcome {
            Ok(success) => success,
            Err(_) => false,
        },
{
    match outcome {
        Ok(success) => UninstallResult { package, success },
        Err(_) => UninstallResult { package, success: false },
    }
}

/// The name that a package description gives its package.
pub open spec fn name_in(parsed: Json) -> Option<Seq<char>> {
    match parsed.field("name"@) {
        Some(Json::String(name)) => Some(name),
        _ => None,
    }
}

/// The name that the package description `parsed` gives its package.
pub fn package_name_of(parsed: &JsonValue) -> (r: Option<String>)
    ensures
        match r {
            Some(name) => name_in(parsed@) == Some(name@),
            None => name_in(parsed@) is None,
        },
{
    match parsed.get("name") {
        Some(JsonValue::String(name)) => Some(name.clone()),
        _ => None,
    }
}

/// The name that the text of a package description gives its package:
/// nothing where there is no description or where it is no JSON.
pub open spec fn name_by(package_json: Option<Seq<char>>) -> Option<Seq<char>> {
    match package_json {
        Some(raw) => match json_parsed(raw) {
            Some(parsed) => name_in(parsed),
            None => None,
        },
        None => None,
    }
}

/// The name of the package in a directory. `package_json` is the text of
/// the package description in that directory, where there is one that can
/// be read.
pub fn read_package_name(package_json: Option<&str>) -> (r: Option<String>)
    ensures
        match r {
            Some(name) => name_by(optional_text(package_json)) == Some(name@),
            None => name_by(optional_text(package_json)) is None,
        },
{
    match package_json {
        Some(raw) => match read_json(raw) {
            Some(parsed) => package_name_of(&parsed),
            None => None,
        },
        None => None,
    }
}

/// The directory that an install command names, where it is one word and
/// nothing else: that word without its quotes. Whether the directory exists
/// is for the caller to find out.
pub fn extract_local_path(command: &[String]) -> (r: Option<&str>)
    ensures
        match r {
            Some(path) => command@.len() == 1 && path@ == unquoted(command@[0]@),
            None => command@.len() != 1,
        },
{
    if command.len() != 1 {
        return None;
    }
    Some(trim_quotes(command[0].as_str()))
}

/// What was said of a plugin that cannot be installed from a directory.
pub const NO_PLUGIN_PACKAGE: &'static str =
    "No plugin package found. Package must match agent-browser-plugin-* or @scope/agent-browser-plugin-*";

/// What is said of a plugin that is installed already.
pub const PLUGIN_EXISTS: &'static str = "Plugin already exists";

/// Where a plugin from a directory goes.
#[derive(Debug, Clone, PartialEq)]
pub struct InstallPlan {
    pub package: String,
    /// The directory that the plugin is copied to.
    pub dir: PluginPath,
}

/// An install plan as a mathematical value.
pub struct InstallPlanView {
    pub package: Seq<char>,
    pub dir: PathView,
}

impl View for InstallPlan {
    type V = InstallPlanView;

    open spec fn view(&self) -> InstallPlanView {
        InstallPlanView { package: self.package@, dir: self.dir@ }
    }
}

/// Where the plugin in a directory goes: below `root`, in the directory
/// that its package name gives. The package name is the one the package
/// description gives, or else the name of the directory itself, and must
/// name a plugin package.
pub open spec fn install_target(
    root: Result<PathView, Seq<char>>,
    package_name: Option<Seq<char>>,
    dir_name: Option<Seq<char>>,
) -> Result<InstallPlanView, Seq<char>> {
    match root {
        Err(message) => Err(message),
        Ok(root) => {
            let name = match package_name {
                Some(n) => Some(n),
                None => dir_name,
            };
            match name {
                None => Err("Invalid plugin path"@),
                Some(n) => if names_plugin(n) {
                    Ok(
                        InstallPlanView {
                            package: n,
                            dir: PathView {
                                base: root.base,
                                segments: root.segments.push(sanitized(n)),
                            },
                        },
                    )
                } else {
                    Err(NO_PLUGIN_PACKAGE@)
                },
            }
        },
    }
}

/// The model of an install plan that may have failed.
pub open spec fn plan_view(plan: Result<InstallPlan, String>) -> Result<InstallPlanView, Seq<char>> {
    match plan {
        Ok(p) => Ok(p@),
        Err(message) => Err(message@),
    }
}

/// Where the plugin in a directory goes, for a known package name.
pub fn plan_install(
    root: Result<PluginPath, String>,
    package_name: Option<String>,
    dir_name: Option<&str>,
) -> (r: Result<InstallPlan, String>)
    ensures
        plan_view(r) == install_target(
            root_view(root),
            name_view(package_name),
            optional_text(dir_name),
        ),
{
    let root = match root {
        Ok(root) => root,
        Err(message) => {
            return Err(message);
        },
    };
    let name = match package_name {
        Some(n) => n,
        None => match dir_name {
            Some(n) => String::from_str(n),
            None => {
                return Err(String::from_str("Invalid plugin path"));
            },
        },
    };
    if !is_plugin_package_name(name.as_str()) {
        return Err(String::from_str(NO_PLUGIN_PACKAGE));
    }
    let ghost before = root@;
    let PluginPath { base, segments } = root;
    let mut segments = segments;
    crate::text::push_text(&mut segments, sanitize_plugin_dir(name.as_str()));
    Ok(InstallPlan { package: name, dir: PluginPath { base, segments } })
}

/// Where the plugin in a directory goes. `root` is where plugins are kept,
/// `package_json` the text of the package description in the directory,
/// where there is one that can be read, and `dir_name` the directory's own
/// name. A destination that exists already is for the caller to refuse, and
/// the copying is the caller's too.
pub fn install_from_path_result(
    root: Result<PluginPath, String>,
    package_json: Option<&str>,
    dir_name: Option<&str>,
) -> (r: Result<InstallPlan, String>)
    ensures
        plan_view(r) == install_target(
            root_view(root),
            name_by(optional_text(package_json)),
            optional_text(dir_name),
        ),
{
    let package_name = read_package_name(package_json);
    plan_install(root, package_name, dir_name)
}

/// What is done with one entry of a directory that is copied.
#[derive(Debug, Clone, Copy, PartialEq, Eq, Structural)]
pub enum CopyStep {
    /// The entry is left out.
    Skip,
    /// The entry is a directory and is copied in turn.
    Descend,
    /// The entry is a file and is copied.
    CopyFile,
    /// The entry is neither, and the copying fails.
    Unsupported,
}

/// What is done with the entry `file_name`: installed modules are left
/// out, directories are copied in turn, files are copied, and anything else
/// fails the copying.
pub open spec fn copy_step_of(file_name: Seq<char>, is_dir: bool, is_file: bool) -> CopyStep {
    if file_name == "node_modules"@ {
        CopyStep::Skip
    } else if is_dir {
        CopyStep::Descend
    } else if is_file {
        CopyStep::CopyFile
    } else {
        CopyStep::Unsupported
    }
}

/// What is done with one entry of a directory that is copied.
pub fn copy_step(file_name: &str, is_dir: bool, is_file: bool) -> (r: CopyStep)
    ensures
        r == copy_step_of(file_name@, is_dir, is_file),
{
    if text_eq(file_name, "node_modules") {
        CopyStep::Skip
    } else if is_dir {
        CopyStep::Descend
    } else if is_file {
        CopyStep::CopyFile
    } else {
        CopyStep::Unsupported
    }
}

/// An entry of a scope in a modules directory.
#[derive(Debug, Clone, PartialEq)]
pub struct InstalledChild {
    pub name: String,
    /// Whether a manifest lies directly below the entry.
    pub has_manifest: bool,
}

/// An entry of a modules directory.
#[derive(Debug, Clone, PartialEq)]
pub struct InstalledEntry {
    pub name: String,
    pub is_dir: bool,
    /// Whether a manifest lies directly below the entry.
    pub has_manifest: bool,
    /// The entries one level below, where the entry is a directory.
    pub children: Vec<InstalledChild>,
}

/// The position of the first of `children` with a manifest, or the length
/// of `children`.
pub open spec fn first_with_manifest(children: Seq<InstalledChild>) -> int
    decreases children.len(),
{
    if children.len() == 0 {
        0
    } else if children[0].has_manifest {
        0
    } else {
        1 + first_with_manifest(children.skip(1))
    }
}

/// The manifest that one entry of a modules directory leads to: for a
/// scope, that of its first package that has one; for any other directory,
/// its own.
pub open spec fn manifest_in_entry(entry: InstalledEntry) -> Option<Seq<Seq<char>>> {
    if entry.is_dir && entry.name@.len() > 0 && entry.name@[0] == '@' {
        let k = first_with_manifest(entry.children@);
        if k < entry.children@.len() {
            Some(seq![entry.name@, entry.children@[k].name@, "extension.json"@])
        } else {
            None
        }
    } else if entry.is_dir && entry.has_manifest {
        Some(seq![entry.name@, "extension.json"@])
    } else {
        None
    }
}

/// The first manifest that the entries of a modules directory lead to.
pub open spec fn manifest_in_modules(entries: Seq<InstalledEntry>) -> Option<Seq<Seq<char>>>
    decreases entries.len(),
{
    if entries.len() == 0 {
        None
    } else {
        match manifest_in_entry(entries[0]) {
            Some(place) => Some(place),
            None => manifest_in_modules(entries.skip(1)),
        }
    }
}

/// The manifest of an installed plugin: the one directly in its directory,
/// or else the first that its modules directory leads to.
pub open spec fn manifest_place(direct: bool, modules: Seq<InstalledEntry>) -> Option<
    Seq<Seq<char>>,
> {
    if direct {
        Some(seq!["extension.json"@])
    } else {
        match manifest_in_modules(modules) {
            Some(place) => Some(seq!["node_modules"@] + place),
            None => None,
        }
    }
}

/// The texts of an optional list of names.
pub open spec fn place_view(place: Option<Vec<String>>) -> Option<Seq<Seq<char>>> {
    match place {
        Some(names) => Some(texts(names@)),
        None => None,
    }
}

/// The manifest that one entry of a modules directory leads to.
#[verifier::loop_isolation(false)]
fn find_manifest_in_entry(entry: &InstalledEntry) -> (r: Option<Vec<String>>)
    ensures
        place_view(r) == manifest_in_entry(*entry),
{
    if !entry.is_dir {
        return None;
    }
    let name = chars_of(entry.name.as_str());
    if name.len() > 0 && name[0] == '@' {
        let ghost all = entry.children@;
        let mut k: usize = 0;
        assert(all.skip(0) == all);
        while k < entry.children.len()
            invariant
                k <= entry.children.len(),
                all == entry.children@,
                first_with_manifest(all) == k + first_with_manifest(all.skip(k as int)),
            decreases entry.children.len() - k,
        {
            assert(all.skip(k as int)[0] == all[k as int]);
            if entry.children[k].has_manifest {
                let mut place: Vec<String> = Vec::new();
                place.push(entry.name.clone());
                place.push(entry.children[k].name.clone());
                place.push(String::from_str("extension.json"));
                assert(texts(place@) =~= seq![
                    entry.name@,
                    all[k as int].name@,
                    "extension.json"@,
                ]);
                return Some(place);
            }
            assert(all.skip(k as int).skip(1) == all.skip(k + 1));
            k += 1;
        }
        assert(all.skip(k as int).len() == 0);
        return None;
    }
    if entry.has_manifest {
        let mut place: Vec<String> = Vec::new();
        place.push(entry.name.clone());
        place.push(String::from_str("extension.json"));
        assert(texts(place@) =~= seq![entry.name@, "extension.json"@]);
        return Some(place);
    }
    None
}

/// The first manifest that the entries of a modules directory lead to, as
/// the names that lead to it from that directory.
pub fn find_manifest_in_node_modules(entries: &[InstalledEntry]) -> (r: Option<Vec<String>>)
    ensures
        place_view(r) == manifest_in_modules(entries@),
{
    let mut i: usize = 0;
    assert(entries@.skip(0) == entries@);
    while i < entries.len()
        invariant
            i <= entries.len(),
            manifest_in_modules(entries@) == manifest_in_modules(entries@.skip(i as int)),
        decreases entries.len() - i,
    {
        assert(entries@.skip(i as int)[0] == entries@[i as int]);
        assert(entries@.skip(i as int).skip(1) == entries@.skip(i + 1));
        match find_manifest_in_entry(&entries[i]) {
            Some(place) => {
                return Some(place);
            },
            None => {},
        }
        i += 1;
    }
    None
}

/// The manifest of the plugin installed in a directory, as the names that
/// lead to it from there. `direct` says whether a manifest lies directly in
/// the directory, `modules` holds the entries of its modules directory.
pub fn find_manifest(direct: bool, modules: &[InstalledEntry]) -> (r: Option<Vec<String>>)
    ensures
        place_view(r) == manifest_place(direct, modules@),
{
    if direct {
        let mut place: Vec<String> = Vec::new();
        place.push(String::from_str("extension.json"));
        assert(texts(place@) =~= seq!["extension.json"@]);
        return Some(place);
    }
    match find_manifest_in_node_modules(modules) {
        Some(inner) => {
            let mut place: Vec<String> = Vec::new();
            place.push(String::from_str("node_modules"));
            let mut k: usize = 0;
            while k < inner.len()
                invariant
                    k <= inner.len(),
                    texts(place@) == seq!["node_modules"@] + texts(inner@).take(k as int),
                decreases inner.len() - k,
            {
                crate::text::push_text(&mut place, inner[k].clone());
                assert(texts(inner@).take(k + 1) =~= texts(inner@).take(k as int).push(
                    inner@[k as int]@,
                ));
                assert(texts(place@) =~= seq!["node_modules"@] + texts(inner@).take(k + 1));
                k += 1;
            }
            assert(texts(inner@).take(k as int) == texts(inner@));
            Some(place)
        },
        None => None,
    }
}

/// The manifest of a new plugin up to its name.
pub const EXTENSION_JSON_HEAD: &'static str = "{\n  \"name\": \"";

/// The manifest of a new plugin after its name.
pub const EXTENSION_JSON_TAIL: &'static str =
    "\",\n  \"version\": \"0.1.0\",\n  \"description\": \"Plugin description\",\n  \"entry\": \"./dist/index.js\",\n  \"permissions\": [],\n  \"commands\": [\n    {\n      \"name\": \"example.hello\",\n      \"description\": \"Example command\",\n      \"args\": [\n        { \"name\": \"selector\", \"type\": \"string\", \"required\": true, \"description\": \"CSS selector\" }\n      ],\n      \"handler\": { \"type\": \"daemon\" }\n    }\n  ],\n  \"minCliVersion\": \"0.8.4\"\n}\n";

/// The compiler settings of a new plugin.
pub const TSCONFIG: &'static str =
    "{\n  \"compilerOptions\": {\n    \"target\": \"ES2022\",\n    \"module\": \"NodeNext\",\n    \"moduleResolution\": \"NodeNext\",\n    \"lib\": [\"ES2022\"],\n    \"outDir\": \"./dist\",\n    \"rootDir\": \"./src\",\n    \"strict\": true,\n    \"esModuleInterop\": true,\n    \"skipLibCheck\": true,\n    \"declaration\": false,\n    \"sourceMap\": false\n  },\n  \"include\": [\"src/**/*.ts\"]\n}\n";

/// The readme of a new plugin up to its name.
pub const README_HEAD: &'static str = "# ";

/// The readme of a new plugin between the two places of its name.
pub const README_BODY: &'static str =
    "\n\nQuick start:\n\n1) Build\n   tsc -p ./tsconfig.json\n\n2) Run\n   agent-browser ";

/// The readme of a new plugin after its name.
pub const README_TAIL: &'static str = " example.hello \".selector\"\n";

/// The source file of a new plugin.
pub const INDEX_TS: &'static str =
    "import type { Page } from 'playwright-core';\n\ntype ExtensionContext = {\n  page: Page;\n};\n\ntype ExtensionCommandHandler = (\n  ctx: ExtensionContext,\n  args: Record<string, unknown>\n) => Promise<unknown> | unknown;\n\nconst hello: ExtensionCommandHandler = async ({ page }, args) => {\n  const selector = String(args.selector ?? '');\n  if (!selector) {\n    throw new Error('selector is required');\n  }\n  const text = await page.locator(selector).innerText();\n  return { text };\n};\n\nexport const commands: Record<string, ExtensionCommandHandler> = {\n  'example.hello': hello,\n};\n";

/// The manifest of a new plugin named `name`: one command, `example.hello`,
/// carried out by the daemon.
pub fn default_extension_json(name: &str) -> (r: String)
    ensures
        r@ == EXTENSION_JSON_HEAD@ + name@ + EXTENSION_JSON_TAIL@,
{
    let mut out = String::from_str(EXTENSION_JSON_HEAD);
    out.append(name);
    out.append(EXTENSION_JSON_TAIL);
    out
}

/// The compiler settings of a new plugin.
pub fn default_tsconfig() -> (r: String)
    ensures
        r@ == TSCONFIG@,
{
    String::from_str(TSCONFIG)
}

/// The readme of a new plugin named `name`.
pub fn default_readme(name: &str) -> (r: String)
    ensures
        r@ == README_HEAD@ + name@ + README_BODY@ + name@ + README_TAIL@,
{
    let mut out = String::from_str(README_HEAD);
    out.append(name);
    out.append(README_BODY);
    out.append(name);
    out.append(README_TAIL);
    out
}

/// The source file of a new plugin.
pub fn default_index_ts() -> (r: String)
    ensures
        r@ == INDEX_TS@,
{
    String::from_str(INDEX_TS)
}

} // verus!