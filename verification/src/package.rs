//! The names of plugin packages.
//!
//! A package is a plugin by its name alone: `agent-browser-plugin-` and
//! more, either bare or behind a scope, as in
//! `@scope/agent-browser-plugin-example`. A version may follow the name
//! after an `@` and is cut off before the name is judged.

use vstd::prelude::*;
use vstd::string::*;
use crate::text::chars_of;
use crate::text::ends_with;
use crate::text::find_char;
use crate::text::first_index;
use crate::text::last_index;
use crate::text::lemma_first_index;
use crate::text::lemma_last_index;
use crate::text::matches_at;
use crate::text::replace_all;
use crate::text::replaced;
use crate::text::rfind_char;
use crate::text::starts_with;
use crate::text::trim_matches;
use crate::text::trim_start_matches;
use crate::text::trimmed;
use crate::text::trimmed_start;

verus! {

/// What the name of every plugin package begins with.
pub open spec fn plugin_prefix() -> Seq<char> {
    "agent-browser-plugin-"@
}

/// The name without its version. A bare name ends before its last `@`; a
/// scoped name ends before the last `@` that follows its first `/`. A name
/// with no such `@` is whole already. A name that begins with `@` and has no
/// `/` is no package name.
pub open spec fn stripped(name: Seq<char>) -> Option<Seq<char>> {
    if name.len() > 0 && name[0] == '@' {
        let slash = first_index(name, '/');
        if slash >= name.len() {
            None
        } else {
            let at = last_index(name.skip(slash + 1), '@');
            if at >= 0 {
                Some(name.take(slash + 1 + at))
            } else {
                Some(name)
            }
        }
    } else {
        let at = last_index(name, '@');
        if at >= 0 {
            Some(name.take(at))
        } else {
            Some(name)
        }
    }
}

/// Whether `name`, taken as it stands, names a plugin package: a name
/// without `/` begins with the plugin prefix; in a name with `/`, what stands
/// before the first `/` begins with `@` and what follows it begins with the
/// plugin prefix.
pub open spec fn names_plugin(name: Seq<char>) -> bool {
    let slash = first_index(name, '/');
    if slash < name.len() {
        slash > 0 && name[0] == '@' && plugin_prefix().is_prefix_of(name.skip(slash + 1))
    } else {
        plugin_prefix().is_prefix_of(name)
    }
}

/// Whether the package `package` goes with the plugin `plugin`: the name of
/// the package, without its scope, ends with the plugin's name.
pub open spec fn package_matches(package: Seq<char>, plugin: Seq<char>) -> bool {
    let slash = first_index(package, '/');
    if slash < package.len() {
        plugin.is_suffix_of(package.skip(slash + 1))
    } else {
        plugin.is_suffix_of(package)
    }
}

/// The directory name for the package `name`: without the `@` in front,
/// and with `__` for every `/`.
pub open spec fn sanitized(name: Seq<char>) -> Seq<char> {
    replaced(trimmed_start(name, '@'), "/"@, "__"@)
}

/// `token` without the double quotes, then without the single quotes, at
/// its two ends.
pub open spec fn unquoted(token: Seq<char>) -> Seq<char> {
    trimmed(trimmed(token, '"'), '\'')
}

/// The plugin package that one word of an install command names, if it
/// names one: the word without quotes and version.
pub open spec fn package_in(token: Seq<char>) -> Option<Seq<char>> {
    match stripped(unquoted(token)) {
        Some(base) => if names_plugin(base) {
            Some(base)
        } else {
            None
        },
        None => None,
    }
}

/// The plugin package that an install command names: that of its first
/// word that names one.
pub open spec fn package_of(command: Seq<String>) -> Option<Seq<char>>
    decreases command.len(),
{
    if command.len() == 0 {
        None
    } else {
        match package_in(command[0]@) {
            Some(base) => Some(base),
            None => package_of(command.skip(1)),
        }
    }
}

/// Cuts the version off a package name.
pub fn strip_package_version(name: &str) -> (r: Option<&str>)
    ensures
        match r {
            Some(base) => stripped(name@) == Some(base@),
            None => stripped(name@) is None,
        },
{
    let sc = chars_of(name);
    let n = sc.len();
    if n > 0 && sc[0] == '@' {
        let slash = find_char(&sc, '/');
        proof {
            lemma_first_index(name@, '/');
        }
        if slash >= n {
            return None;
        }
        let rest = name.substring_char(slash + 1, n);
        assert(rest@ == name@.skip(slash + 1));
        let rc = chars_of(rest);
        proof {
            lemma_last_index(rest@, '@');
        }
        return match rfind_char(&rc, '@') {
            Some(at) => Some(name.substring_char(0, slash + 1 + at)),
            None => {
                assert(name@.subrange(0, n as int) == name@);
                Some(name.substring_char(0, n))
            },
        };
    }
    proof {
        lemma_last_index(name@, '@');
    }
    match rfind_char(&sc, '@') {
        Some(at) => Some(name.substring_char(0, at)),
        None => {
            assert(name@.subrange(0, n as int) == name@);
            Some(name.substring_char(0, n))
        },
    }
}

/// Whether `name`, taken as it stands, names a plugin package.
pub fn is_plugin_package_name(name: &str) -> (r: bool)
    ensures
        r == names_plugin(name@),
{
    let sc = chars_of(name);
    let prefix = chars_of("agent-browser-plugin-");
    let slash = find_char(&sc, '/');
    proof {
        lemma_first_index(name@, '/');
    }
    if slash < sc.len() {
        if !(slash > 0 && sc[0] == '@') {
            return false;
        }
        matches_at(&sc, &prefix, slash + 1)
    } else {
        starts_with(&sc, &prefix)
    }
}

/// Whether the package `package` goes with the plugin `plugin_name`.
pub fn package_name_matches_plugin(package: &str, plugin_name: &str) -> (r: bool)
    ensures
        r == package_matches(package@, plugin_name@),
{
    let pc = chars_of(package);
    let wanted = chars_of(plugin_name);
    let slash = find_char(&pc, '/');
    proof {
        lemma_first_index(package@, '/');
    }
    if slash < pc.len() {
        let pkg = package.substring_char(slash + 1, pc.len());
        assert(pkg@ == package@.skip(slash + 1));
        let kc = chars_of(pkg);
        ends_with(&kc, &wanted)
    } else {
        ends_with(&pc, &wanted)
    }
}

/// The directory name for the package `name`.
pub fn sanitize_plugin_dir(name: &str) -> (r: String)
    ensures
        r@ == sanitized(name@),
{
    let without_at = trim_start_matches(name, '@');
    replace_all(without_at, "/", "__")
}

/// Takes the quotes off the two ends of a word.
pub fn trim_quotes(token: &str) -> (r: &str)
    ensures
        r@ == unquoted(token@),
{
    trim_matches(trim_matches(token, '"'), '\'')
}

/// The plugin package that an install command names.
pub fn extract_plugin_package(command: &[String]) -> (r: Option<String>)
    ensures
        match r {
            Some(base) => package_of(command@) == Some(base@),
            None => package_of(command@) is None,
        },
{
    let mut i: usize = 0;
    assert(command@.skip(0) == command@);
    while i < command.len()
        invariant
            i <= command.len(),
            package_of(command@) == package_of(command@.skip(i as int)),
        decreases command.len() - i,
    {
        assert(command@.skip(i as int)[0] == command@[i as int]);
        assert(command@.skip(i as int).skip(1) == command@.skip(i + 1));
        let trimmed = trim_quotes(command[i].as_str());
        if let Some(base) = strip_package_version(trimmed) {
            if is_plugin_package_name(base) {
                return Some(String::from_str(base));
            }
        }
        i += 1;
    }
    None
}

} // verus!
