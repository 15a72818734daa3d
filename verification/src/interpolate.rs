//! Filling the placeholders of a request template with bound arguments.
//!
//! A placeholder is a name between `{{` and `}}`. A text that is one
//! placeholder and nothing else becomes the bound value itself, with its
//! type. In any other text each placeholder of a bound name is replaced by
//! the value's rendering, name after name in the order of binding; what
//! names nothing bound stays as it is.

use vstd::prelude::*;
use vstd::string::*;
use crate::bindings::BoundArgs;
use crate::bindings::Bindings;
use crate::json::field_of;
use crate::json::fields_view;
use crate::json::items_view;
use crate::json::json_text;
use crate::json::lemma_array_view;
use crate::json::lemma_object_view;
use crate::json::render_json;
use crate::json::Json;
use crate::json::JsonValue;
use crate::text::chars_of;
use crate::text::ends_with;
use crate::text::replace_all;
use crate::text::replaced;
use crate::text::starts_with;

verus! {

/// The name in `s`, where `s` is one placeholder and nothing else: `{{`,
/// then one character or more, then `}}`.
pub open spec fn placeholder_key(s: Seq<char>) -> Option<Seq<char>> {
    if s.len() > 4 && "{{"@.is_prefix_of(s) && "}}"@.is_suffix_of(s) {
        Some(s.subrange(2, s.len() - 2))
    } else {
        None
    }
}

/// The placeholder of `key`.
pub open spec fn placeholder(key: Seq<char>) -> Seq<char> {
    "{{"@ + key + "}}"@
}

/// What stands for a value inside a text: a string gives its own text, a
/// number its literal, `true`, `false` and `null` their words, an array or
/// an object its compact JSON text.
pub open spec fn rendering(v: Json) -> Seq<char> {
    match v {
        Json::String(s) => s,
        Json::Number(n) => n,
        Json::Bool(b) => if b {
            "true"@
        } else {
            "false"@
        },
        Json::Null => "null"@,
        _ => json_text(v),
    }
}

/// `s` after the placeholders of the names in `args` were replaced, one
/// name after the other in the order of `args`.
pub open spec fn substituted(s: Seq<char>, args: Bindings) -> Seq<char>
    decreases args.len(),
{
    if args.len() == 0 {
        s
    } else {
        replaced(
            substituted(s, args.drop_last()),
            placeholder(args.last().0),
            rendering(args.last().1),
        )
    }
}

/// What the text `s` of a template becomes.
pub open spec fn interpolated_text(s: Seq<char>, args: Bindings) -> Json {
    match placeholder_key(s) {
        Some(key) => match field_of(args, key) {
            Some(value) => value,
            None => Json::String(substituted(s, args)),
        },
        None => Json::String(substituted(s, args)),
    }
}

/// What a template becomes: its texts are interpolated, in arrays and
/// objects at any depth; keys and everything else stay.
pub open spec fn interpolated(v: Json, args: Bindings) -> Json
    decreases v,
{
    match v {
        Json::String(s) => interpolated_text(s, args),
        Json::Array(items) => Json::Array(
            Seq::new(
                items.len(),
                |i: int|
                    if 0 <= i < items.len() {
                        interpolated(items[i], args)
                    } else {
                        Json::Null
                    },
            ),
        ),
        Json::Object(fields) => Json::Object(
            Seq::new(
                fields.len(),
                |i: int|
                    if 0 <= i < fields.len() {
                        (fields[i].0, interpolated(fields[i].1, args))
                    } else {
                        (Seq::empty(), Json::Null)
                    },
            ),
        ),
        _ => v,
    }
}

/// The name between the braces, where `s` is exactly one placeholder.
pub fn exact_placeholder(s: &str) -> (r: Option<&str>)
    ensures
        match r {
            Some(key) => placeholder_key(s@) == Some(key@),
            None => placeholder_key(s@) is None,
        },
{
    let sc = chars_of(s);
    let open = chars_of("{{");
    let close = chars_of("}}");
    if sc.len() > 4 && starts_with(&sc, &open) && ends_with(&sc, &close) {
        Some(s.substring_char(2, sc.len() - 2))
    } else {
        None
    }
}

/// The rendering of `v` inside a text.
pub fn render_value(v: &JsonValue) -> (r: String)
    ensures
        r@ == rendering(v@),
{
    match v {
        JsonValue::String(s) => s.clone(),
        JsonValue::Number(n) => n.clone(),
        JsonValue::Bool(b) => if *b {
            String::from_str("true")
        } else {
            String::from_str("false")
        },
        JsonValue::Null => String::from_str("null"),
        _ => render_json(v),
    }
}

/// Interpolates one text of a template.
pub fn interpolate_string(s: &str, args: &BoundArgs) -> (r: JsonValue)
    ensures
        r@ == interpolated_text(s@, args@),
{
    if let Some(key) = exact_placeholder(s) {
        if let Some(value) = args.get(key) {
            return value.clone();
        }
    }
    let mut out = String::from_str(s);
    let mut i: usize = 0;
    assert(args@.take(0) == Seq::<(Seq<char>, Json)>::empty());
    while i < args.len()
        invariant
            i <= args@.len(),
            out@ == substituted(s@, args@.take(i as int)),
        decreases args@.len() - i,
    {
        let mut pattern = String::from_str("{{");
        pattern.append(args.key_at(i));
        pattern.append("}}");
        let replacement = render_value(args.value_at(i));
        out = replace_all(out.as_str(), pattern.as_str(), replacement.as_str());
        assert(args@.take(i + 1).drop_last() == args@.take(i as int));
        assert(args@.take(i + 1).last() == args@[i as int]);
        i += 1;
    }
    assert(args@.take(i as int) == args@);
    JsonValue::String(out)
}

/// Interpolates a template.
pub fn interpolate_value(value: &JsonValue, args: &BoundArgs) -> (r: JsonValue)
    ensures
        r@ == interpolated(value@, args@),
    decreases value,
{
    match value {
        JsonValue::String(s) => interpolate_string(s.as_str(), args),
        JsonValue::Array(items) => {
            let mut out: Vec<JsonValue> = Vec::new();
            let mut i: usize = 0;
            while i < items.len()
                invariant
                    value is Array,
                    value->Array_0 == *items,
                    i <= items.len(),
                    out@.len() == i,
                    forall|j: int| 0 <= j < i ==> out@[j]@ == interpolated(items@[j]@, args@),
                decreases items.len() - i,
            {
                out.push(interpolate_value(&items[i], args));
                i += 1;
            }
            proof {
                lemma_array_view(out);
                lemma_array_view(*items);
                assert(items_view(out@) =~= interpolated(value@, args@)->Array_0);
            }
            JsonValue::Array(out)
        },
        JsonValue::Object(fields) => {
            let mut out: Vec<(String, JsonValue)> = Vec::new();
            let mut i: usize = 0;
            while i < fields.len()
                invariant
                    value is Object,
                    value->Object_0 == *fields,
                    i <= fields.len(),
                    out@.len() == i,
                    forall|j: int|
                        0 <= j < i ==> out@[j].0@ == fields@[j].0@ && out@[j].1@ == interpolated(
                            fields@[j].1@,
                            args@,
                        ),
                decreases fields.len() - i,
            {
                out.push((fields[i].0.clone(), interpolate_value(&fields[i].1, args)));
                i += 1;
            }
            proof {
                lemma_object_view(out);
                lemma_object_view(*fields);
                assert(fields_view(out@) =~= interpolated(value@, args@)->Object_0);
            }
            JsonValue::Object(out)
        },
        _ => value.clone(),
    }
}

/// Whether `s` holds `{{`, and `}}` somewhere after it: the shape of a
/// placeholder, whatever stands between the braces.
pub open spec fn has_placeholder(s: Seq<char>) -> bool {
    exists|i: int, j: int|
        #![trigger s[i], s[j]]
        0 <= i && i + 2 <= j && j + 2 <= s.len() && s[i] == '{' && s[i + 1] == '{' && s[j] == '}'
            && s[j + 1] == '}'
}

/// Whether `pat` stands somewhere in `s`.
pub open spec fn occurs_in(pat: Seq<char>, s: Seq<char>) -> bool {
    exists|i: int| 0 <= i <= s.len() && pat.is_prefix_of(#[trigger] s.skip(i))
}

/// Replacing a text that does not occur changes nothing.
pub proof fn lemma_replaced_absent(s: Seq<char>, pat: Seq<char>, rep: Seq<char>)
    requires
        !occurs_in(pat, s),
    ensures
        replaced(s, pat, rep) == s,
    decreases s.len(),
{
    if pat.len() == 0 || s.len() < pat.len() {
    } else {
        assert(s.skip(0) == s);
        assert(!pat.is_prefix_of(s));
        let rest = s.skip(1);
        assert forall|i: int| 0 <= i <= rest.len() implies !pat.is_prefix_of(
            #[trigger] rest.skip(i),
        ) by {
            assert(rest.skip(i) == s.skip(i + 1));
        }
        lemma_replaced_absent(rest, pat, rep);
        assert(seq![s[0]] + rest == s);
    }
}

/// A text without the shape of a placeholder holds the placeholder of no
/// name.
pub proof fn lemma_no_placeholder_occurs(s: Seq<char>, key: Seq<char>)
    requires
        !has_placeholder(s),
    ensures
        !occurs_in(placeholder(key), s),
{
    reveal_strlit("{{");
    reveal_strlit("}}");
    let pat = placeholder(key);
    if occurs_in(pat, s) {
        let i = choose|i: int| 0 <= i <= s.len() && pat.is_prefix_of(#[trigger] s.skip(i));
        let rest = s.skip(i);
        let n = key.len() as int;
        let j = i + 2 + n;
        assert(pat.len() == n + 4);
        assert(rest.subrange(0, pat.len() as int) == pat);
        assert(pat[0] == '{' && pat[1] == '{');
        assert(pat[n + 2] == '}' && pat[n + 3] == '}');
        assert(rest.subrange(0, pat.len() as int)[0] == rest[0]);
        assert(rest.subrange(0, pat.len() as int)[1] == rest[1]);
        assert(rest.subrange(0, pat.len() as int)[n + 2] == rest[n + 2]);
        assert(rest.subrange(0, pat.len() as int)[n + 3] == rest[n + 3]);
        assert(s[i] == '{' && s[i + 1] == '{' && s[j] == '}' && s[j + 1] == '}');
        assert(has_placeholder(s));
    }
}

/// Interpolation leaves plain text alone: a text that holds no `{{` with a
/// `}}` after it becomes itself, whatever is bound.
pub proof fn lemma_plain_text_unchanged(s: Seq<char>, args: Bindings)
    requires
        !has_placeholder(s),
    ensures
        substituted(s, args) == s,
        interpolated_text(s, args) == Json::String(s),
    decreases args.len(),
{
    reveal_strlit("{{");
    reveal_strlit("}}");
    if args.len() > 0 {
        lemma_plain_text_unchanged(s, args.drop_last());
        lemma_no_placeholder_occurs(s, args.last().0);
        lemma_replaced_absent(s, placeholder(args.last().0), rendering(args.last().1));
    }
    if placeholder_key(s) is Some {
        let j = s.len() - 2;
        assert("{{"@.len() == 2 && "}}"@.len() == 2);
        assert(s.subrange(0, 2) == "{{"@);
        assert(s.subrange(j, s.len() as int) == "}}"@);
        assert(s.subrange(0, 2)[0] == s[0] && s.subrange(0, 2)[1] == s[1]);
        assert(s.subrange(j, s.len() as int)[0] == s[j] && s.subrange(j, s.len() as int)[1] == s[j
            + 1]);
        assert(s[0] == '{' && s[1] == '{' && s[j] == '}' && s[j + 1] == '}');
        assert(has_placeholder(s));
    }
}

/// Whether no text in `v`, at any depth, has the shape of a placeholder.
pub open spec fn is_plain(v: Json) -> bool
    decreases v,
{
    match v {
        Json::String(s) => !has_placeholder(s),
        Json::Array(items) => forall|i: int|
            0 <= i < items.len() ==> is_plain(#[trigger] items[i]),
        Json::Object(fields) => forall|i: int|
            0 <= i < fields.len() ==> is_plain((#[trigger] fields[i]).1),
        _ => true,
    }
}

/// Interpolation leaves a plain template alone, whatever is bound.
pub proof fn lemma_plain_template_unchanged(v: Json, args: Bindings)
    requires
        is_plain(v),
    ensures
        interpolated(v, args) == v,
    decreases v,
{
    match v {
        Json::String(s) => {
            lemma_plain_text_unchanged(s, args);
        },
        Json::Array(items) => {
            let out = interpolated(v, args)->Array_0;
            assert forall|i: int| 0 <= i < items.len() implies out[i] == items[i] by {
                assert(is_plain(items[i]));
                lemma_plain_template_unchanged(items[i], args);
            }
            assert(out =~= items);
        },
        Json::Object(fields) => {
            let out = interpolated(v, args)->Object_0;
            assert forall|i: int| 0 <= i < fields.len() implies out[i] == fields[i] by {
                assert(is_plain(fields[i].1));
                lemma_plain_template_unchanged(fields[i].1, args);
            }
            assert(out =~= fields);
        },
        _ => {},
    }
}

/// Type preservation: a text that is exactly the placeholder of a bound
/// name becomes the bound value itself, of whatever type it is, and not a
/// text that renders it.
pub proof fn lemma_exact_placeholder_keeps_value(key: Seq<char>, args: Bindings)
    requires
        key.len() > 0,
        field_of(args, key) is Some,
    ensures
        placeholder_key(placeholder(key)) == Some(key),
        interpolated_text(placeholder(key), args) == field_of(args, key)->0,
{
    reveal_strlit("{{");
    reveal_strlit("}}");
    let s = placeholder(key);
    assert(s.len() == key.len() + 4);
    assert(s.subrange(0, 2) =~= "{{"@);
    assert(s.subrange(s.len() - 2, s.len() as int) =~= "}}"@);
    assert(s.subrange(2, s.len() - 2) =~= key);
}

} // verus!
