//! From the words of a command line to an extension, one of its commands
//! and the arguments bound for it.
//!
//! The first word names the extension, the second the command; the rest are
//! bound to the command's declared arguments by position. Words that name
//! no loaded extension are no failure: they are simply not an extension
//! invocation, and the caller may read them otherwise.

use vstd::prelude::*;
use vstd::slice::*;
use vstd::string::*;
use crate::bindings::bind;
use crate::bindings::distinct_keys;
use crate::bindings::lemma_bind_lookup;
use crate::bindings::Bindings;
use crate::bindings::BoundArgs;
use crate::json::field_of;
use crate::json::Json;
use crate::json::JsonValue;
use crate::manifest::ArgKind;
use crate::manifest::ExtensionArg;
use crate::manifest::ExtensionCommand;
use crate::manifest::ExtensionManifest;
use crate::registry::found;
use crate::registry::ExtensionError;
use crate::registry::ExtensionErrorView;
use crate::registry::ExtensionRegistry;
use crate::text::int_decimal;
use crate::text::int_to_decimal;
use crate::text::parse_i64;
use crate::text::parsed_int;
use crate::text::text_eq;

verus! {

/// One word of the command line.
///
/// This crate computes with no floating point, so the caller reads each
/// word as a floating-point number beforehand and hands the outcome over
/// with the word.
#[derive(Debug, Clone, PartialEq)]
pub struct Token {
    /// The word as it was typed.
    pub text: String,
    /// The JSON value of the word read as a floating-point number; nothing
    /// where the word is no such number.
    pub number: Option<JsonValue>,
}

impl Token {
    /// The number that the word reads as, as a mathematical value.
    pub open spec fn number_view(&self) -> Option<Json> {
        match self.number {
            Some(v) => Some(v@),
            None => None,
        }
    }

    /// A word that is no number.
    pub fn word(text: &str) -> (r: Token)
        ensures
            r.text@ == text@,
            r.number is None,
    {
        Token { text: String::from_str(text), number: None }
    }

    /// A word together with the number it reads as.
    pub fn numeric(text: &str, number: JsonValue) -> (r: Token)
        ensures
            r.text@ == text@,
            r.number == Some(number),
    {
        Token { text: String::from_str(text), number: Some(number) }
    }
}

/// How one argument shows in a usage line: `<name>` where it must be
/// given, `[name]` where it may be left out.
pub open spec fn usage_arg(def: ExtensionArg) -> Seq<char> {
    if def.is_required() {
        " <"@ + def.name@ + ">"@
    } else {
        " ["@ + def.name@ + "]"@
    }
}

/// How the arguments show in a usage line, each in its place.
pub open spec fn usage_args(defs: Seq<ExtensionArg>) -> Seq<char>
    decreases defs.len(),
{
    if defs.len() == 0 {
        Seq::empty()
    } else {
        usage_args(defs.drop_last()) + usage_arg(defs.last())
    }
}

/// The usage line of a command: the tool, the extension, the command, then
/// the arguments.
pub open spec fn usage_text(ext: ExtensionManifest, cmd: ExtensionCommand) -> Seq<char> {
    "agent-browser "@ + ext.name@ + " "@ + cmd.name@ + usage_args(cmd.arg_defs())
}

/// The usage line of an extension as a whole.
pub open spec fn extension_usage(ext: ExtensionManifest) -> Seq<char> {
    "agent-browser "@ + ext.name@ + " <command> [args]"@
}

/// The usage line of `cmd`.
pub fn build_usage(ext: &ExtensionManifest, cmd: &ExtensionCommand) -> (r: String)
    ensures
        r@ == usage_text(*ext, *cmd),
{
    let mut usage = String::from_str("agent-browser ");
    usage.append(ext.name.as_str());
    usage.append(" ");
    usage.append(cmd.name.as_str());
    let ghost head = usage@;
    match &cmd.args {
        Some(args) => {
            let mut i: usize = 0;
            assert(args@.take(0) == Seq::<ExtensionArg>::empty());
            while i < args.len()
                invariant
                    i <= args.len(),
                    usage@ == head + usage_args(args@.take(i as int)),
                decreases args.len() - i,
            {
                let arg = &args[i];
                if arg.required_or_default() {
                    usage.append(" <");
                    usage.append(arg.name.as_str());
                    usage.append(">");
                } else {
                    usage.append(" [");
                    usage.append(arg.name.as_str());
                    usage.append("]");
                }
                assert(args@.take(i + 1).drop_last() == args@.take(i as int));
                assert(args@.take(i + 1).last() == args@[i as int]);
                i += 1;
            }
            assert(args@.take(i as int) == args@);
        },
        None => {},
    }
    usage
}

/// The usage line of `ext` as a whole.
pub fn build_extension_usage(ext: &ExtensionManifest) -> (r: String)
    ensures
        r@ == extension_usage(*ext),
{
    let mut usage = String::from_str("agent-browser ");
    usage.append(ext.name.as_str());
    usage.append(" <command> [args]");
    usage
}

/// The value that a word is read as for the argument `def`: an `int` is a
/// signed decimal within 64 bits, a `bool` is `true` or `false`, a `number`
/// is what the word reads as a floating-point number, and anything else is
/// the word itself. Nothing where the word cannot be read so.
pub open spec fn coerced(def: ExtensionArg, text: Seq<char>, number: Option<Json>) -> Option<Json> {
    match def.kind() {
        ArgKind::Int => match parsed_int(text) {
            Some(i) => Some(Json::Number(int_decimal(i))),
            None => None,
        },
        ArgKind::Number => number,
        ArgKind::Bool => if text == "true"@ {
            Some(Json::Bool(true))
        } else if text == "false"@ {
            Some(Json::Bool(false))
        } else {
            None
        },
        ArgKind::Text => Some(Json::String(text)),
    }
}

/// What is said of a word that cannot be read as the type of `def`.
pub open spec fn invalid_value_message(def: ExtensionArg) -> Seq<char> {
    match def.kind() {
        ArgKind::Int => "Invalid int for "@ + def.name@,
        ArgKind::Number => "Invalid number for "@ + def.name@,
        ArgKind::Bool => "Invalid bool for "@ + def.name@,
        ArgKind::Text => Seq::empty(),
    }
}

/// The outcome of reading one word for `def`.
pub open spec fn coercion(
    def: ExtensionArg,
    text: Seq<char>,
    number: Option<Json>,
    usage: Seq<char>,
) -> Result<Json, ExtensionErrorView> {
    match coerced(def, text, number) {
        Some(v) => Ok(v),
        None => Err(
            ExtensionErrorView::InvalidValue { message: invalid_value_message(def), usage: usage },
        ),
    }
}

/// The failure for a word that cannot be read as the type of `def`.
fn invalid_value(def: &ExtensionArg, kind: &str, usage: &str) -> (r: ExtensionError)
    ensures
        r@ == (ExtensionErrorView::InvalidValue {
            message: "Invalid "@ + kind@ + " for "@ + def.name@,
            usage: usage@,
        }),
{
    let mut message = String::from_str("Invalid ");
    message.append(kind);
    message.append(" for ");
    message.append(def.name.as_str());
    ExtensionError::InvalidValue { message, usage: String::from_str(usage) }
}

/// Reads one word as the type that `def` declares. There is no falling
/// back to text: a word that cannot be read is refused.
pub fn parse_arg_value(def: &ExtensionArg, raw: &Token, usage: &str) -> (r: Result<
    JsonValue,
    ExtensionError,
>)
    ensures
        match r {
            Ok(v) => coercion(*def, raw.text@, raw.number_view(), usage@) == Ok::<
                Json,
                ExtensionErrorView,
            >(v@),
            Err(e) => coercion(*def, raw.text@, raw.number_view(), usage@) == Err::<
                Json,
                ExtensionErrorView,
            >(e@),
        },
{
    match def.arg_kind() {
        ArgKind::Int => match parse_i64(raw.text.as_str()) {
            Some(i) => Ok(JsonValue::Number(int_to_decimal(i))),
            None => {
                proof {
                    reveal_strlit("Invalid ");
                    reveal_strlit("int");
                    reveal_strlit(" for ");
                    reveal_strlit("Invalid int for ");
                    assert("Invalid "@ + "int"@ + " for "@ =~= "Invalid int for "@);
                }
                Err(invalid_value(def, "int", usage))
            },
        },
        ArgKind::Number => match &raw.number {
            Some(v) => Ok(v.clone()),
            None => {
                proof {
                    reveal_strlit("Invalid ");
                    reveal_strlit("number");
                    reveal_strlit(" for ");
                    reveal_strlit("Invalid number for ");
                    assert("Invalid "@ + "number"@ + " for "@ =~= "Invalid number for "@);
                }
                Err(invalid_value(def, "number", usage))
            },
        },
        ArgKind::Bool => {
            if text_eq(raw.text.as_str(), "true") {
                Ok(JsonValue::Bool(true))
            } else if text_eq(raw.text.as_str(), "false") {
                Ok(JsonValue::Bool(false))
            } else {
                proof {
                    reveal_strlit("Invalid ");
                    reveal_strlit("bool");
                    reveal_strlit(" for ");
                    reveal_strlit("Invalid bool for ");
                    assert("Invalid "@ + "bool"@ + " for "@ =~= "Invalid bool for "@);
                }
                Err(invalid_value(def, "bool", usage))
            }
        },
        ArgKind::Text => Ok(JsonValue::String(raw.text.clone())),
    }
}

/// What binding the slot `i` adds to `b`: the word at that place, read as
/// the declared type; failing a word, the declared default; failing both,
/// nothing for an argument that may be left out, and a failure for one that
/// must be given.
pub open spec fn bound_slot(
    b: Bindings,
    def: ExtensionArg,
    provided: Seq<Token>,
    usage: Seq<char>,
    i: int,
) -> Result<Bindings, ExtensionErrorView> {
    if i < provided.len() {
        match coercion(def, provided[i].text@, provided[i].number_view(), usage) {
            Ok(v) => Ok(bind(b, def.name@, v)),
            Err(e) => Err(e),
        }
    } else {
        match def.default {
            Some(d) => Ok(bind(b, def.name@, d@)),
            None => if def.is_required() {
                Err(
                    ExtensionErrorView::InvalidInvocation {
                        message: "Missing argument: "@ + def.name@,
                        usage: usage,
                    },
                )
            } else {
                Ok(b)
            },
        }
    }
}

/// The arguments bound by the first `k` slots, or the failure of the first
/// slot that fails.
pub open spec fn bound_prefix(
    defs: Seq<ExtensionArg>,
    provided: Seq<Token>,
    usage: Seq<char>,
    k: int,
) -> Result<Bindings, ExtensionErrorView>
    decreases k,
{
    if k <= 0 {
        Ok(Seq::empty())
    } else {
        match bound_prefix(defs, provided, usage, k - 1) {
            Ok(b) => bound_slot(b, defs[k - 1], provided, usage, k - 1),
            Err(e) => Err(e),
        }
    }
}

/// The failure of a slot is the failure of every longer run of slots.
pub proof fn lemma_bound_prefix_fails(
    defs: Seq<ExtensionArg>,
    provided: Seq<Token>,
    usage: Seq<char>,
    k: int,
    n: int,
)
    requires
        0 <= k <= n,
        bound_prefix(defs, provided, usage, k) is Err,
    ensures
        bound_prefix(defs, provided, usage, n) == bound_prefix(defs, provided, usage, k),
    decreases n - k,
{
    if k < n {
        lemma_bound_prefix_fails(defs, provided, usage, k, n - 1);
    }
}

/// The arguments bound for `provided` against `defs`: more words than
/// declared arguments are refused, otherwise the slots are bound in order.
pub open spec fn bound_args(defs: Seq<ExtensionArg>, provided: Seq<Token>, usage: Seq<char>) -> Result<
    Bindings,
    ExtensionErrorView,
> {
    if provided.len() > defs.len() {
        Err(ExtensionErrorView::InvalidInvocation { message: "Too many arguments"@, usage: usage })
    } else {
        bound_prefix(defs, provided, usage, defs.len() as int)
    }
}

/// Binds the words `provided` to the declared arguments `defs` by position.
/// No name is bound twice.
pub fn parse_args(
    ext: &ExtensionManifest,
    cmd: &ExtensionCommand,
    defs: &[ExtensionArg],
    provided: &[Token],
) -> (r: Result<BoundArgs, ExtensionError>)
    ensures
        r matches Ok(b) ==> distinct_keys(b@),
        match r {
            Ok(b) => bound_args(defs@, provided@, usage_text(*ext, *cmd)) == Ok::<
                Bindings,
                ExtensionErrorView,
            >(b@),
            Err(e) => bound_args(defs@, provided@, usage_text(*ext, *cmd)) == Err::<
                Bindings,
                ExtensionErrorView,
            >(e@),
        },
{
    let usage = build_usage(ext, cmd);
    if provided.len() > defs.len() {
        return Err(
            ExtensionError::InvalidInvocation {
                message: String::from_str("Too many arguments"),
                usage,
            },
        );
    }
    let mut values = BoundArgs::new();
    let mut idx: usize = 0;
    while idx < defs.len()
        invariant
            idx <= defs.len(),
            provided.len() <= defs.len(),
            distinct_keys(values@),
            usage@ == usage_text(*ext, *cmd),
            bound_prefix(defs@, provided@, usage@, idx as int) == Ok::<
                Bindings,
                ExtensionErrorView,
            >(values@),
        decreases defs.len() - idx,
    {
        let def = &defs[idx];
        if idx < provided.len() {
            match parse_arg_value(def, &provided[idx], usage.as_str()) {
                Ok(v) => {
                    values.insert(def.name.clone(), v);
                },
                Err(e) => {
                    proof {
                        lemma_bound_prefix_fails(
                            defs@,
                            provided@,
                            usage@,
                            idx + 1,
                            defs.len() as int,
                        );
                    }
                    return Err(e);
                },
            }
        } else {
            match &def.default {
                Some(d) => {
                    values.insert(def.name.clone(), d.clone());
                },
                None => {
                    if def.required_or_default() {
                        let mut message = String::from_str("Missing argument: ");
                        message.append(def.name.as_str());
                        proof {
                            lemma_bound_prefix_fails(
                                defs@,
                                provided@,
                                usage@,
                                idx + 1,
                                defs.len() as int,
                            );
                        }
                        return Err(ExtensionError::InvalidInvocation { message, usage });
                    }
                },
            }
        }
        idx += 1;
    }
    Ok(values)
}

/// What the words `args` resolve to among `manifests`: nothing where they
/// are fewer than two or the first names no extension; a failure where the
/// second names no command of that extension or the rest cannot be bound;
/// otherwise the extension, the command and the bound arguments.
pub open spec fn resolved(manifests: Seq<ExtensionManifest>, args: Seq<Token>) -> Result<
    Option<(ExtensionManifest, ExtensionCommand, Bindings)>,
    ExtensionErrorView,
> {
    if args.len() < 2 {
        Ok(None)
    } else {
        match found(manifests, args[0].text@) {
            None => Ok(None),
            Some(ext) => match ext.command_named(args[1].text@) {
                None => Err(
                    ExtensionErrorView::InvalidInvocation {
                        message: "Unknown subcommand: "@ + args[1].text@,
                        usage: extension_usage(ext),
                    },
                ),
                Some(cmd) => match bound_args(
                    cmd.arg_defs(),
                    args.subrange(2, args.len() as int),
                    usage_text(ext, cmd),
                ) {
                    Ok(b) => Ok(Some((ext, cmd, b))),
                    Err(e) => Err(e),
                },
            },
        }
    }
}

/// Resolves the words that follow the program name. No name is bound
/// twice.
pub fn resolve_invocation<'a>(registry: &'a ExtensionRegistry, args: &[Token]) -> (r: Result<
    Option<(&'a ExtensionManifest, &'a ExtensionCommand, BoundArgs)>,
    ExtensionError,
>)
    ensures
        r matches Ok(Some(found)) ==> distinct_keys(found.2@),
        match r {
            Ok(Some(found)) => resolved(registry@, args@) == Ok::<
                Option<(ExtensionManifest, ExtensionCommand, Bindings)>,
                ExtensionErrorView,
            >(Some((*found.0, *found.1, found.2@))),
            Ok(None) => resolved(registry@, args@) == Ok::<
                Option<(ExtensionManifest, ExtensionCommand, Bindings)>,
                ExtensionErrorView,
            >(None),
            Err(e) => resolved(registry@, args@) == Err::<
                Option<(ExtensionManifest, ExtensionCommand, Bindings)>,
                ExtensionErrorView,
            >(e@),
        },
{
    if args.len() < 2 {
        return Ok(None);
    }
    let ext = match registry.find(args[0].text.as_str()) {
        Some(ext) => ext,
        None => {
            return Ok(None);
        },
    };
    let cmd = match ext.command(args[1].text.as_str()) {
        Some(cmd) => cmd,
        None => {
            let mut message = String::from_str("Unknown subcommand: ");
            message.append(args[1].text.as_str());
            return Err(
                ExtensionError::InvalidInvocation { message, usage: build_extension_usage(ext) },
            );
        },
    };
    let none: Vec<ExtensionArg> = Vec::new();
    let defs: &[ExtensionArg] = match &cmd.args {
        Some(defs) => defs.as_slice(),
        None => none.as_slice(),
    };
    let provided = slice_subrange(args, 2, args.len());
    match parse_args(ext, cmd, defs, provided) {
        Ok(bound) => Ok(Some((ext, cmd, bound))),
        Err(e) => Err(e),
    }
}

/// Coercion is total and rejecting: every word is either read as the
/// declared type or refused as an invalid value, and a word that cannot be
/// read as a declared `int` or `bool` is never kept as text. A type other
/// than `int`, `number` and `bool` reads every word as the text it is.
pub proof fn lemma_coercion_total_and_rejecting(
    def: ExtensionArg,
    text: Seq<char>,
    number: Option<Json>,
    usage: Seq<char>,
)
    ensures
        match coercion(def, text, number, usage) {
            Ok(v) => coerced(def, text, number) == Some(v),
            Err(e) => e == (ExtensionErrorView::InvalidValue {
                message: invalid_value_message(def),
                usage: usage,
            }),
        },
        def.kind() == ArgKind::Int ==> coercion(def, text, number, usage) == match parsed_int(text) {
            Some(i) => Ok::<Json, ExtensionErrorView>(Json::Number(int_decimal(i))),
            None => Err::<Json, ExtensionErrorView>(
                ExtensionErrorView::InvalidValue {
                    message: "Invalid int for "@ + def.name@,
                    usage: usage,
                },
            ),
        },
        def.kind() == ArgKind::Bool ==> (coercion(def, text, number, usage) is Ok <==> text
            == "true"@ || text == "false"@),
        def.kind() == ArgKind::Text ==> coercion(def, text, number, usage) == Ok::<
            Json,
            ExtensionErrorView,
        >(Json::String(text)),
        def.arg_type is None ==> def.kind() == ArgKind::Text,
        def.arg_type matches Some(t) && t@ != "int"@ && t@ != "number"@ && t@ != "bool"@
            ==> def.kind() == ArgKind::Text,
{
}

/// For an argument declared `int`, `abc` is refused as an invalid value and
/// `42` is the integer forty-two; for one declared `bool`, `true` and
/// `false` are the two booleans.
pub proof fn lemma_coercion_of_known_words(def: ExtensionArg, number: Option<Json>, usage: Seq<char>)
    ensures
        def.kind() == ArgKind::Int ==> coercion(def, "abc"@, number, usage) == Err::<
            Json,
            ExtensionErrorView,
        >(
            ExtensionErrorView::InvalidValue {
                message: "Invalid int for "@ + def.name@,
                usage: usage,
            },
        ),
        def.kind() == ArgKind::Int ==> coercion(def, "42"@, number, usage) == Ok::<
            Json,
            ExtensionErrorView,
        >(Json::Number("42"@)),
        def.kind() == ArgKind::Bool ==> coercion(def, "true"@, number, usage) == Ok::<
            Json,
            ExtensionErrorView,
        >(Json::Bool(true)),
        def.kind() == ArgKind::Bool ==> coercion(def, "false"@, number, usage) == Ok::<
            Json,
            ExtensionErrorView,
        >(Json::Bool(false)),
{
    reveal_strlit("abc");
    reveal_strlit("42");
    reveal_strlit("true");
    reveal_strlit("false");
    assert(!crate::text::is_digit("abc"@[0]));
    assert(parsed_int("abc"@) is None);
    let s = "42"@;
    assert(s.drop_last() =~= seq!['4']);
    assert(s.drop_last().drop_last() =~= Seq::<char>::empty());
    reveal_with_fuel(crate::text::digits_value, 3);
    assert(crate::text::digits_value(s) == 42);
    assert(crate::text::all_digits(s));
    assert(parsed_int(s) == Some(42int));
    reveal_with_fuel(crate::text::nat_decimal, 3);
    assert(int_decimal(42) =~= s);
    assert("true"@.len() == 4 && "false"@.len() == 5);
}

/// More words than declared arguments are refused as an invalid
/// invocation, whatever the arguments' types and whatever the words.
pub proof fn lemma_too_many_arguments(defs: Seq<ExtensionArg>, provided: Seq<Token>, usage: Seq<char>)
    requires
        provided.len() > defs.len(),
    ensures
        bound_args(defs, provided, usage) == Err::<Bindings, ExtensionErrorView>(
            ExtensionErrorView::InvalidInvocation { message: "Too many arguments"@, usage: usage },
        ),
{
}

/// What the slot `i` is bound to where binding succeeds: the word at that
/// place read as the declared type, or the declared default where no word
/// stands there; nothing where there is neither.
pub open spec fn slot_value(defs: Seq<ExtensionArg>, provided: Seq<Token>, i: int) -> Option<Json> {
    if i < provided.len() {
        coerced(defs[i], provided[i].text@, provided[i].number_view())
    } else {
        match defs[i].default {
            Some(d) => Some(d@),
            None => None,
        }
    }
}

/// Whether every word can be read as the type of its argument, and every
/// argument without a word may be left out.
pub open spec fn bindable(defs: Seq<ExtensionArg>, provided: Seq<Token>) -> bool {
    &&& provided.len() <= defs.len()
    &&& forall|i: int|
        0 <= i < provided.len() ==> coerced(
            #[trigger] defs[i],
            provided[i].text@,
            provided[i].number_view(),
        ) is Some
    &&& forall|i: int| provided.len() <= i < defs.len() ==> !(#[trigger] defs[i]).is_required()
}

/// Whether no two arguments bear one name.
pub open spec fn distinct_names(defs: Seq<ExtensionArg>) -> bool {
    forall|i: int, j: int|
        0 <= i < j < defs.len() ==> (#[trigger] defs[i]).name@ != (#[trigger] defs[j]).name@
}

/// The first `k` slots of a bindable invocation bind, each name of theirs
/// to the value of its slot, and no other name to anything.
proof fn lemma_bound_prefix_values(
    defs: Seq<ExtensionArg>,
    provided: Seq<Token>,
    usage: Seq<char>,
    k: int,
)
    requires
        bindable(defs, provided),
        distinct_names(defs),
        0 <= k <= defs.len(),
    ensures
        bound_prefix(defs, provided, usage, k) is Ok,
        forall|i: int|
            0 <= i < k ==> field_of(
                bound_prefix(defs, provided, usage, k)->Ok_0,
                (#[trigger] defs[i]).name@,
            ) == slot_value(defs, provided, i),
        forall|name: Seq<char>|
            (forall|i: int| 0 <= i < k ==> (#[trigger] defs[i]).name@ != name) ==> #[trigger] field_of(
                bound_prefix(defs, provided, usage, k)->Ok_0,
                name,
            ) is None,
    decreases k,
{
    if k > 0 {
        lemma_bound_prefix_values(defs, provided, usage, k - 1);
        let before = bound_prefix(defs, provided, usage, k - 1)->Ok_0;
        let def = defs[k - 1];
        let after = bound_prefix(defs, provided, usage, k)->Ok_0;
        assert(forall|i: int| 0 <= i < k - 1 ==> (#[trigger] defs[i]).name@ != def.name@);
        assert(field_of(before, def.name@) is None);
        match slot_value(defs, provided, k - 1) {
            Some(v) => {
                assert(after == bind(before, def.name@, v));
                assert forall|i: int| 0 <= i < k implies field_of(after, (#[trigger] defs[i]).name@)
                    == slot_value(defs, provided, i) by {
                    lemma_bind_lookup(before, def.name@, v, defs[i].name@);
                }
                assert forall|name: Seq<char>|
                    (forall|i: int| 0 <= i < k ==> (#[trigger] defs[i]).name@ != name)
                    implies #[trigger] field_of(after, name) is None by {
                    assert(defs[k - 1].name@ != name);
                    lemma_bind_lookup(before, def.name@, v, name);
                    assert(forall|i: int| 0 <= i < k - 1 ==> (#[trigger] defs[i]).name@ != name);
                }
            },
            None => {
                assert(after == before);
                assert forall|name: Seq<char>|
                    (forall|i: int| 0 <= i < k ==> (#[trigger] defs[i]).name@ != name)
                    implies #[trigger] field_of(after, name) is None by {
                    assert(forall|i: int| 0 <= i < k - 1 ==> (#[trigger] defs[i]).name@ != name);
                }
            },
        }
    }
}

/// Where the first words can each be read as the type of their argument
/// and every argument after them may be left out, binding succeeds. Each
/// argument with a word is bound to the word's value. Each argument without
/// one is bound to its default where it declares one, and is absent from
/// what is bound where it declares none: it is not bound to `null`.
///
/// The arguments must bear distinct names: of two with one name, the later
/// binding replaces the earlier.
pub proof fn lemma_optional_arguments(
    defs: Seq<ExtensionArg>,
    provided: Seq<Token>,
    usage: Seq<char>,
)
    requires
        bindable(defs, provided),
        distinct_names(defs),
    ensures
        bound_args(defs, provided, usage) is Ok,
        forall|i: int|
            0 <= i < provided.len() ==> field_of(
                bound_args(defs, provided, usage)->Ok_0,
                (#[trigger] defs[i]).name@,
            ) == coerced(defs[i], provided[i].text@, provided[i].number_view()),
        forall|i: int|
            provided.len() <= i < defs.len() ==> field_of(
                bound_args(defs, provided, usage)->Ok_0,
                (#[trigger] defs[i]).name@,
            ) == match defs[i].default {
                Some(d) => Some(d@),
                None => None::<Json>,
            },
{
    lemma_bound_prefix_values(defs, provided, usage, defs.len() as int);
    let b = bound_args(defs, provided, usage)->Ok_0;
    assert forall|i: int| 0 <= i < provided.len() implies field_of(b, (#[trigger] defs[i]).name@)
        == coerced(defs[i], provided[i].text@, provided[i].number_view()) by {
        assert(field_of(b, defs[i].name@) == slot_value(defs, provided, i));
    }
    assert forall|i: int| provided.len() <= i < defs.len() implies field_of(
        b,
        (#[trigger] defs[i]).name@,
    ) == match defs[i].default {
        Some(d) => Some(d@),
        None => None::<Json>,
    } by {
        assert(field_of(b, defs[i].name@) == slot_value(defs, provided, i));
    }
}

/// An invocation that names a loaded extension and one of its commands,
/// with more words after them than the command declares arguments, is
/// refused as an invalid invocation.
pub proof fn lemma_surplus_words_refused(manifests: Seq<ExtensionManifest>, args: Seq<Token>)
    requires
        args.len() >= 2,
        found(manifests, args[0].text@) is Some,
        found(manifests, args[0].text@)->0.command_named(args[1].text@) is Some,
        args.len() - 2 > found(manifests, args[0].text@)->0.command_named(
            args[1].text@,
        )->0.arg_defs().len(),
    ensures
        resolved(manifests, args) == Err::<
            Option<(ExtensionManifest, ExtensionCommand, Bindings)>,
            ExtensionErrorView,
        >(
            ExtensionErrorView::InvalidInvocation {
                message: "Too many arguments"@,
                usage: usage_text(
                    found(manifests, args[0].text@)->0,
                    found(manifests, args[0].text@)->0.command_named(args[1].text@)->0,
                ),
            },
        ),
{
}

} // verus!
