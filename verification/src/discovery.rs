//! Where extensions are looked for, and in what order.
//!
//! Discovery is a walk over a fixed list of root directories. This module
//! decides the list and, from the names found in a directory, the places
//! where a manifest may lie, in the order in which they are to be tried. The
//! reading itself is the caller's: it lists the directories, tries the
//! places in order, and loads the registry with what it found.

use vstd::prelude::*;
use vstd::string::*;
use crate::package::names_plugin;
use crate::package::stripped;
use crate::text::chars_of;
use crate::text::push_text;
use crate::text::texts;

verus! {

/// A place in the file system: a directory to start from and the names
/// that lead down from it.
#[derive(Debug, Clone, PartialEq)]
pub struct PluginPath {
    pub base: String,
    pub segments: Vec<String>,
}

/// A place as a mathematical value.
pub struct PathView {
    pub base: Seq<char>,
    pub segments: Seq<Seq<char>>,
}

impl View for PluginPath {
    type V = PathView;

    open spec fn view(&self) -> PathView {
        PathView { base: self.base@, segments: texts(self.segments@) }
    }
}

/// The places in `paths`.
pub open spec fn places(paths: Seq<PluginPath>) -> Seq<PathView> {
    Seq::new(paths.len(), |i: int| paths[i]@)
}

/// One name found in a directory.
#[derive(Debug, Clone, PartialEq)]
pub struct DirEntry {
    pub name: String,
    /// Whether the name leads to a directory.
    pub is_dir: bool,
    /// The names found one level below, where the name leads to a
    /// directory.
    pub children: Vec<String>,
}

/// The variable of the environment that names the first root.
pub const PRIMARY_ROOT_VARIABLE: &'static str = "AGENT_BROWSER_PLUGINS_DIR";

/// The variable of the environment that names the second root.
pub const SECONDARY_ROOT_VARIABLE: &'static str = "AGENT_BROWSER_EXTENSIONS_DIR";

/// The name of the directory that holds installed modules.
pub const MODULES_DIR: &'static str = "node_modules";

/// The name of the manifest file of an extension.
pub const MANIFEST_FILE: &'static str = "extension.json";

/// The name of the manifest file of an extension.
pub open spec fn manifest_file() -> Seq<char> {
    "extension.json"@
}

/// The name of the directory that holds installed modules.
pub open spec fn modules_dir() -> Seq<char> {
    "node_modules"@
}

/// A root given by the environment: it counts where it is set to something.
pub open spec fn override_root(dir: Option<Seq<char>>) -> Seq<PathView> {
    match dir {
        Some(d) => if d.len() > 0 {
            seq![PathView { base: d, segments: Seq::empty() }]
        } else {
            Seq::empty()
        },
        None => Seq::empty(),
    }
}

/// The two roots below `base`: `plugins` and `extensions` in the directory
/// `dir`.
pub open spec fn root_pair(base: Option<Seq<char>>, dir: Seq<char>) -> Seq<PathView> {
    match base {
        Some(b) => seq![
            PathView { base: b, segments: seq![dir, "plugins"@] },
            PathView { base: b, segments: seq![dir, "extensions"@] },
        ],
        None => Seq::empty(),
    }
}

/// The roots of discovery in their fixed order: the directory of the first
/// override, that of the second, the two of the project in the working
/// directory, the two of the user in the configuration directory.
pub open spec fn root_candidates(
    primary: Option<Seq<char>>,
    secondary: Option<Seq<char>>,
    cwd: Option<Seq<char>>,
    config_dir: Option<Seq<char>>,
) -> Seq<PathView> {
    override_root(primary) + override_root(secondary) + root_pair(cwd, ".agent-browser"@)
        + root_pair(config_dir, "agent-browser"@)
}

/// The order of the roots: where the first override names a directory, it
/// is the first root of all; where the configuration directory is known,
/// the user's two roots are the last of all. So what the first override
/// holds is found before what the user's directories hold.
pub proof fn lemma_override_before_user(
    primary: Seq<char>,
    secondary: Option<Seq<char>>,
    cwd: Option<Seq<char>>,
    config_dir: Seq<char>,
)
    requires
        primary.len() > 0,
    ensures
        ({
            let roots = root_candidates(Some(primary), secondary, cwd, Some(config_dir));
            &&& roots.len() >= 3
            &&& roots[0] == (PathView { base: primary, segments: Seq::empty() })
            &&& roots[roots.len() - 2] == (PathView {
                base: config_dir,
                segments: seq!["agent-browser"@, "plugins"@],
            })
            &&& roots[roots.len() - 1] == (PathView {
                base: config_dir,
                segments: seq!["agent-browser"@, "extensions"@],
            })
        }),
{
}

/// The text of an optional text.
pub open spec fn optional_text(t: Option<&str>) -> Option<Seq<char>> {
    match t {
        Some(s) => Some(s@),
        None => None,
    }
}

/// Whether `name`, with or without a version behind it, names a plugin
/// package.
pub open spec fn names_versioned_plugin(name: Seq<char>) -> bool {
    match stripped(name) {
        Some(base) => names_plugin(base),
        None => false,
    }
}

/// Whether `name`, with or without a version behind it, names a plugin
/// package.
pub fn is_plugin_package_name(name: &str) -> (r: bool)
    ensures
        r == names_versioned_plugin(name@),
{
    match crate::package::strip_package_version(name) {
        Some(base) => crate::package::is_plugin_package_name(base),
        None => false,
    }
}

/// The places of the manifests of the plugin packages in the scope
/// `scope`, whose names are `children`: one for each child that, with the
/// scope in front, names a plugin package.
pub open spec fn scope_candidates(scope: Seq<char>, children: Seq<Seq<char>>) -> Seq<
    Seq<Seq<char>>,
>
    decreases children.len(),
{
    if children.len() == 0 {
        Seq::empty()
    } else {
        scope_candidates(scope, children.drop_last()) + if names_versioned_plugin(
            scope + "/"@ + children.last(),
        ) {
            seq![seq![scope, children.last(), manifest_file()]]
        } else {
            Seq::empty()
        }
    }
}

/// Whether an entry is a scope: a directory whose name begins with `@`.
pub open spec fn is_scope(entry: DirEntry) -> bool {
    entry.is_dir && entry.name@.len() > 0 && entry.name@[0] == '@'
}

/// The places of the manifests of scoped plugin packages among `listing`.
pub open spec fn scoped_candidates(listing: Seq<DirEntry>) -> Seq<Seq<Seq<char>>>
    decreases listing.len(),
{
    if listing.len() == 0 {
        Seq::empty()
    } else {
        scoped_candidates(listing.drop_last()) + if is_scope(listing.last()) {
            scope_candidates(listing.last().name@, texts(listing.last().children@))
        } else {
            Seq::empty()
        }
    }
}

/// The places of the manifests of unscoped plugin packages among
/// `listing`: one for each directory whose name names a plugin package.
pub open spec fn unscoped_candidates(listing: Seq<DirEntry>) -> Seq<Seq<Seq<char>>>
    decreases listing.len(),
{
    if listing.len() == 0 {
        Seq::empty()
    } else {
        unscoped_candidates(listing.drop_last()) + if listing.last().is_dir
            && names_versioned_plugin(listing.last().name@) {
            seq![seq![listing.last().name@, manifest_file()]]
        } else {
            Seq::empty()
        }
    }
}

/// The places to try in a modules directory with the entries `listing`:
/// the scoped packages first, then the unscoped ones, each kind in the order
/// of the listing.
pub open spec fn module_candidates(listing: Seq<DirEntry>) -> Seq<Seq<Seq<char>>> {
    scoped_candidates(listing) + unscoped_candidates(listing)
}

/// The places of the manifests that lie directly in the directories among
/// `listing`.
pub open spec fn folder_candidates(listing: Seq<DirEntry>) -> Seq<Seq<Seq<char>>>
    decreases listing.len(),
{
    if listing.len() == 0 {
        Seq::empty()
    } else {
        folder_candidates(listing.drop_last()) + if listing.last().is_dir {
            seq![seq![listing.last().name@, manifest_file()]]
        } else {
            Seq::empty()
        }
    }
}

/// Each place of `candidates` with `dir` in front.
pub open spec fn below(dir: Seq<char>, candidates: Seq<Seq<Seq<char>>>) -> Seq<Seq<Seq<char>>> {
    Seq::new(candidates.len(), |i: int| seq![dir] + candidates[i])
}

/// The places to try in a root with the entries `listing`, whose modules
/// directory has the entries `modules`: the manifest of the root itself,
/// then the packages of its modules directory, then the manifests of its
/// own directories. Nothing for a root that does not exist.
pub open spec fn root_plan(exists: bool, listing: Seq<DirEntry>, modules: Seq<DirEntry>) -> Seq<
    Seq<Seq<char>>,
> {
    if exists {
        seq![seq![manifest_file()]] + below(modules_dir(), module_candidates(modules))
            + folder_candidates(listing)
    } else {
        Seq::empty()
    }
}

/// The places in `paths`, each as the texts of its names.
pub open spec fn plan_view(paths: Seq<Vec<String>>) -> Seq<Seq<Seq<char>>> {
    Seq::new(paths.len(), |i: int| texts(paths[i]@))
}

/// Adds one place, made of up to three names, to a plan.
fn push_place(plan: &mut Vec<Vec<String>>, first: &str, second: Option<&str>, last: &str)
    ensures
        plan_view(final(plan)@) == plan_view(old(plan)@).push(
            match second {
                Some(s) => seq![first@, s@, last@],
                None => seq![first@, last@],
            },
        ),
{
    let mut place: Vec<String> = Vec::new();
    place.push(String::from_str(first));
    match second {
        Some(s) => {
            place.push(String::from_str(s));
        },
        None => {},
    }
    place.push(String::from_str(last));
    assert(texts(place@) =~= match second {
        Some(s) => seq![first@, s@, last@],
        None => seq![first@, last@],
    });
    plan.push(place);
    assert(plan_view(plan@) =~= plan_view(old(plan)@).push(texts(place@)));
}

/// Whether an entry named `name` is a scope, so that the names one level
/// below it are wanted in its listing.
pub fn is_scope_entry(name: &str, is_dir: bool) -> (r: bool)
    ensures
        r == (is_dir && name@.len() > 0 && name@[0] == '@'),
{
    if !is_dir {
        return false;
    }
    let name = chars_of(name);
    name.len() > 0 && name[0] == '@'
}

/// Whether an entry is a scope.
fn entry_is_scope(entry: &DirEntry) -> (r: bool)
    ensures
        r == is_scope(*entry),
{
    is_scope_entry(entry.name.as_str(), entry.is_dir)
}

/// The places to try in a modules directory with the entries `listing`,
/// each as the names that lead to it from that directory.
pub fn load_extensions_from_node_modules(listing: &[DirEntry]) -> (r: Vec<Vec<String>>)
    ensures
        plan_view(r@) == module_candidates(listing@),
{
    let mut plan: Vec<Vec<String>> = Vec::new();
    let mut i: usize = 0;
    assert(listing@.take(0) == Seq::<DirEntry>::empty());
    assert(plan_view(plan@) =~= scoped_candidates(listing@.take(0)));
    while i < listing.len()
        invariant
            i <= listing.len(),
            plan_view(plan@) == scoped_candidates(listing@.take(i as int)),
        decreases listing.len() - i,
    {
        let entry = &listing[i];
        assert(listing@.take(i + 1).drop_last() == listing@.take(i as int));
        assert(listing@.take(i + 1).last() == *entry);
        if entry_is_scope(entry) {
            let ghost before = plan_view(plan@);
            let ghost children = texts(entry.children@);
            let mut k: usize = 0;
            assert(children.take(0) == Seq::<Seq<char>>::empty());
            assert(plan_view(plan@) =~= before + scope_candidates(entry.name@, children.take(0)));
            while k < entry.children.len()
                invariant
                    k <= entry.children.len(),
                    children == texts(entry.children@),
                    plan_view(plan@) == before + scope_candidates(
                        entry.name@,
                        children.take(k as int),
                    ),
                decreases entry.children.len() - k,
            {
                let child = &entry.children[k];
                assert(children.take(k + 1).drop_last() == children.take(k as int));
                assert(children.take(k + 1).last() == child@);
                let mut full = String::from_str(entry.name.as_str());
                full.append("/");
                full.append(child.as_str());
                if is_plugin_package_name(full.as_str()) {
                    push_place(
                        &mut plan,
                        entry.name.as_str(),
                        Some(child.as_str()),
                        "extension.json",
                    );
                }
                assert(plan_view(plan@) =~= before + scope_candidates(
                    entry.name@,
                    children.take(k + 1),
                ));
                k += 1;
            }
            assert(children.take(k as int) == children);
        }
        assert(plan_view(plan@) =~= scoped_candidates(listing@.take(i + 1)));
        i += 1;
    }
    assert(listing@.take(i as int) == listing@);
    let ghost scoped = plan_view(plan@);
    let mut j: usize = 0;
    assert(plan_view(plan@) =~= scoped + unscoped_candidates(listing@.take(0)));
    while j < listing.len()
        invariant
            j <= listing.len(),
            plan_view(plan@) == scoped + unscoped_candidates(listing@.take(j as int)),
        decreases listing.len() - j,
    {
        let entry = &listing[j];
        assert(listing@.take(j + 1).drop_last() == listing@.take(j as int));
        assert(listing@.take(j + 1).last() == *entry);
        if entry.is_dir && is_plugin_package_name(entry.name.as_str()) {
            push_place(&mut plan, entry.name.as_str(), None, "extension.json");
        }
        assert(plan_view(plan@) =~= scoped + unscoped_candidates(listing@.take(j + 1)));
        j += 1;
    }
    assert(listing@.take(j as int) == listing@);
    plan
}

/// The places to try in a root, each as the names that lead to it from the
/// root. `exists` says whether the root is there at all, `listing` holds
/// its entries and `modules` those of its modules directory.
pub fn load_extensions_from_root(exists: bool, listing: &[DirEntry], modules: &[DirEntry]) -> (r:
    Vec<Vec<String>>)
    ensures
        plan_view(r@) == root_plan(exists, listing@, modules@),
{
    let mut plan: Vec<Vec<String>> = Vec::new();
    if !exists {
        assert(plan_view(plan@) =~= root_plan(exists, listing@, modules@));
        return plan;
    }
    let mut own: Vec<String> = Vec::new();
    own.push(String::from_str("extension.json"));
    assert(texts(own@) =~= seq![manifest_file()]);
    plan.push(own);
    assert(plan_view(plan@) =~= seq![seq![manifest_file()]]);
    let inner = load_extensions_from_node_modules(modules);
    let ghost head = plan_view(plan@);
    let ghost wanted = below(modules_dir(), module_candidates(modules@));
    let mut i: usize = 0;
    assert(plan_view(plan@) =~= head + wanted.take(0));
    while i < inner.len()
        invariant
            i <= inner.len(),
            plan_view(inner@) == module_candidates(modules@),
            wanted == below(modules_dir(), module_candidates(modules@)),
            plan_view(plan@) == head + wanted.take(i as int),
        decreases inner.len() - i,
    {
        let mut place: Vec<String> = Vec::new();
        place.push(String::from_str("node_modules"));
        let tail = &inner[i];
        let mut k: usize = 0;
        while k < tail.len()
            invariant
                k <= tail.len(),
                texts(place@) == seq![modules_dir()] + texts(tail@).take(k as int),
            decreases tail.len() - k,
        {
            push_text(&mut place, tail[k].clone());
            assert(texts(tail@).take(k + 1) =~= texts(tail@).take(k as int).push(tail@[k as int]@));
            assert(texts(place@) =~= seq![modules_dir()] + texts(tail@).take(k + 1));
            k += 1;
        }
        assert(texts(tail@).take(k as int) == texts(tail@));
        assert(plan_view(inner@)[i as int] == texts(tail@));
        assert(wanted[i as int] == seq![modules_dir()] + texts(tail@));
        let ghost before = plan_view(plan@);
        plan.push(place);
        assert(plan_view(plan@) =~= before.push(texts(place@)));
        assert(wanted.take(i + 1) =~= wanted.take(i as int).push(wanted[i as int]));
        assert(plan_view(plan@) =~= head + wanted.take(i + 1));
        i += 1;
    }
    assert(wanted.take(i as int) == wanted);
    let ghost middle = plan_view(plan@);
    let mut j: usize = 0;
    assert(plan_view(plan@) =~= middle + folder_candidates(listing@.take(0)));
    while j < listing.len()
        invariant
            j <= listing.len(),
            plan_view(plan@) == middle + folder_candidates(listing@.take(j as int)),
        decreases listing.len() - j,
    {
        let entry = &listing[j];
        assert(listing@.take(j + 1).drop_last() == listing@.take(j as int));
        assert(listing@.take(j + 1).last() == *entry);
        if entry.is_dir {
            push_place(&mut plan, entry.name.as_str(), None, "extension.json");
        }
        assert(plan_view(plan@) =~= middle + folder_candidates(listing@.take(j + 1)));
        j += 1;
    }
    assert(listing@.take(j as int) == listing@);
    plan
}

/// Adds the root that an override names, where it names one.
fn push_override(roots: &mut Vec<PluginPath>, dir: Option<&str>)
    ensures
        places(final(roots)@) == places(old(roots)@) + override_root(optional_text(dir)),
{
    match dir {
        Some(d) => {
            if d.unicode_len() > 0 {
                let root = PluginPath { base: String::from_str(d), segments: Vec::new() };
                assert(root@.segments =~= Seq::<Seq<char>>::empty());
                roots.push(root);
            }
        },
        None => {},
    }
    assert(places(roots@) =~= places(old(roots)@) + override_root(optional_text(dir)));
}

/// Adds the two roots below `base`, where there is a base.
fn push_pair(roots: &mut Vec<PluginPath>, base: Option<&str>, dir: &str)
    ensures
        places(final(roots)@) == places(old(roots)@) + root_pair(optional_text(base), dir@),
{
    match base {
        Some(b) => {
            let mut first: Vec<String> = Vec::new();
            first.push(String::from_str(dir));
            first.push(String::from_str("plugins"));
            assert(texts(first@) =~= seq![dir@, "plugins"@]);
            let mut second: Vec<String> = Vec::new();
            second.push(String::from_str(dir));
            second.push(String::from_str("extensions"));
            assert(texts(second@) =~= seq![dir@, "extensions"@]);
            roots.push(PluginPath { base: String::from_str(b), segments: first });
            roots.push(PluginPath { base: String::from_str(b), segments: second });
        },
        None => {},
    }
    assert(places(roots@) =~= places(old(roots)@) + root_pair(optional_text(base), dir@));
}

/// The roots of discovery in their fixed order. `primary` and `secondary`
/// are what the two overrides of the environment are set to, `cwd` is the
/// working directory and `config_dir` the user's configuration directory,
/// each where it could be had.
pub fn extension_roots(
    primary: Option<&str>,
    secondary: Option<&str>,
    cwd: Option<&str>,
    config_dir: Option<&str>,
) -> (r: Vec<PluginPath>)
    ensures
        places(r@) == root_candidates(
            optional_text(primary),
            optional_text(secondary),
            optional_text(cwd),
            optional_text(config_dir),
        ),
{
    let mut roots: Vec<PluginPath> = Vec::new();
    assert(places(roots@) =~= Seq::<PathView>::empty());
    push_override(&mut roots, primary);
    push_override(&mut roots, secondary);
    push_pair(&mut roots, cwd, ".agent-browser");
    push_pair(&mut roots, config_dir, "agent-browser");
    assert(places(roots@) =~= root_candidates(
        optional_text(primary),
        optional_text(secondary),
        optional_text(cwd),
        optional_text(config_dir),
    ));
    roots
}

/// `dirs::config_dir`: the user's configuration directory, which the
/// platform and the environment decide, or nothing where they name none.
/// A directory whose name is no valid text counts as none. Nothing is
/// claimed of the result.
#[verifier::external_body]
pub(crate) fn user_config_dir() -> Option<String> {
    dirs::config_dir().and_then(|p| p.to_str().map(String::from))
}

/// The roots of discovery in their fixed order, with the user's
/// configuration directory as the platform gives it. Whatever that
/// directory is, the roots are those of [`extension_roots`] for it.
pub fn discover_extension_roots(
    primary: Option<&str>,
    secondary: Option<&str>,
    cwd: Option<&str>,
) -> (r: Vec<PluginPath>)
    ensures
        exists|config_dir: Option<Seq<char>>|
            places(r@) == #[trigger] root_candidates(
                optional_text(primary),
                optional_text(secondary),
                optional_text(cwd),
                config_dir,
            ),
{
    let config = user_config_dir();
    let config_dir: Option<&str> = match &config {
        Some(c) => Some(c.as_str()),
        None => None,
    };
    let roots = extension_roots(primary, secondary, cwd, config_dir);
    assert(places(roots@) == root_candidates(
        optional_text(primary),
        optional_text(secondary),
        optional_text(cwd),
        optional_text(config_dir),
    ));
    roots
}

} // verus!
