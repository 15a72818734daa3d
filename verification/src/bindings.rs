//! The arguments bound for one invocation: names with their values.
//!
//! A name is bound once; binding it again replaces its value and keeps its
//! place. The order is that of first binding, and it is the order in which
//! placeholders are filled in.

use vstd::prelude::*;
use vstd::string::*;
use crate::json::field_of;
use crate::json::fields_view;
use crate::json::Json;
use crate::json::JsonValue;
use crate::text::chars_eq;
use crate::text::chars_of;

verus! {

/// Names with their values, as a mathematical value.
pub type Bindings = Seq<(Seq<char>, Json)>;

/// The position of the last entry of `b` named `key`, or `-1`.
pub open spec fn key_index(b: Bindings, key: Seq<char>) -> int
    decreases b.len(),
{
    if b.len() == 0 {
        -1
    } else if b.last().0 == key {
        b.len() - 1
    } else {
        key_index(b.drop_last(), key)
    }
}

/// `b` with `key` bound to `value`: in place where `key` was bound, at the
/// end where it was not.
pub open spec fn bind(b: Bindings, key: Seq<char>, value: Json) -> Bindings {
    if key_index(b, key) >= 0 {
        b.update(key_index(b, key), (key, value))
    } else {
        b.push((key, value))
    }
}

/// Whether no name stands twice in `b`.
pub open spec fn distinct_keys(b: Bindings) -> bool {
    forall|i: int, j: int| 0 <= i < j < b.len() ==> (#[trigger] b[i]).0 != (#[trigger] b[j]).0
}

/// `key_index` is in range and names an entry of that key; no later entry
/// bears the key; it is `-1` exactly when `key` is not bound.
pub proof fn lemma_key_index(b: Bindings, key: Seq<char>)
    ensures
        -1 <= key_index(b, key) < b.len(),
        key_index(b, key) >= 0 ==> b[key_index(b, key)].0 == key && field_of(b, key) == Some(
            b[key_index(b, key)].1,
        ),
        forall|j: int| key_index(b, key) < j < b.len() ==> (#[trigger] b[j]).0 != key,
        key_index(b, key) < 0 <==> field_of(b, key) is None,
    decreases b.len(),
{
    if b.len() > 0 && b.last().0 != key {
        let rest = b.drop_last();
        lemma_key_index(rest, key);
        assert forall|j: int| key_index(b, key) < j < b.len() implies (#[trigger] b[j]).0
            != key by {
            if j < rest.len() {
                assert(rest[j] == b[j]);
            }
        }
    }
}

/// After `bind`, `key` holds `value` and every other name holds what it
/// held.
pub proof fn lemma_bind_lookup(b: Bindings, key: Seq<char>, value: Json, other: Seq<char>)
    ensures
        field_of(bind(b, key, value), key) == Some(value),
        other != key ==> field_of(bind(b, key, value), other) == field_of(b, other),
    decreases b.len(),
{
    lemma_key_index(b, key);
    let k = key_index(b, key);
    let after = bind(b, key, value);
    if k < 0 {
        assert(after.drop_last() == b);
    } else {
        lemma_update_lookup(b, k, value, key);
        if other != key {
            lemma_update_lookup(b, k, value, other);
        }
    }
}

/// Putting a new value into the entry at `k` changes what its own name
/// holds, where no later entry bears that name, and nothing else.
proof fn lemma_update_lookup(b: Bindings, k: int, value: Json, name: Seq<char>)
    requires
        0 <= k < b.len(),
        forall|j: int| k < j < b.len() ==> (#[trigger] b[j]).0 != b[k].0,
    ensures
        name == b[k].0 ==> field_of(b.update(k, (b[k].0, value)), name) == Some(value),
        name != b[k].0 ==> field_of(b.update(k, (b[k].0, value)), name) == field_of(b, name),
    decreases b.len(),
{
    let after = b.update(k, (b[k].0, value));
    if k == b.len() - 1 {
        assert(after.drop_last() == b.drop_last());
    } else {
        let rest = b.drop_last();
        assert(after.drop_last() == rest.update(k, (rest[k].0, value)));
        assert(after.last() == b.last());
        assert(b[b.len() - 1].0 != b[k].0);
        assert forall|j: int| k < j < rest.len() implies (#[trigger] rest[j]).0 != rest[k].0 by {
            assert(rest[j] == b[j]);
        }
        lemma_update_lookup(rest, k, value, name);
    }
}

/// Binding keeps names distinct.
pub proof fn lemma_bind_distinct(b: Bindings, key: Seq<char>, value: Json)
    requires
        distinct_keys(b),
    ensures
        distinct_keys(bind(b, key, value)),
{
    lemma_key_index(b, key);
    let k = key_index(b, key);
    let after = bind(b, key, value);
    if k < 0 {
        lemma_unbound_key(b, key);
        assert forall|i: int, j: int| 0 <= i < j < after.len() implies (#[trigger] after[i]).0 != (
        #[trigger] after[j]).0 by {
            if j < b.len() {
                assert(after[i] == b[i] && after[j] == b[j]);
            } else {
                assert(after[i] == b[i]);
            }
        }
    } else {
        assert forall|i: int, j: int| 0 <= i < j < after.len() implies (#[trigger] after[i]).0 != (
        #[trigger] after[j]).0 by {
            assert(after[i].0 == b[i].0 && after[j].0 == b[j].0);
        }
    }
}

/// A name that is not bound stands in no entry.
pub proof fn lemma_unbound_key(b: Bindings, key: Seq<char>)
    requires
        key_index(b, key) < 0,
    ensures
        forall|i: int| 0 <= i < b.len() ==> (#[trigger] b[i]).0 != key,
    decreases b.len(),
{
    if b.len() > 0 {
        let rest = b.drop_last();
        lemma_unbound_key(rest, key);
        assert forall|i: int| 0 <= i < b.len() implies (#[trigger] b[i]).0 != key by {
            if i < rest.len() {
                assert(rest[i] == b[i]);
            }
        }
    }
}

/// The arguments bound for one invocation.
#[derive(Debug, Clone, PartialEq)]
pub struct BoundArgs {
    entries: Vec<(String, JsonValue)>,
}

impl View for BoundArgs {
    type V = Seq<(Seq<char>, Json)>;

    closed spec fn view(&self) -> Seq<(Seq<char>, Json)> {
        fields_view(self.entries@)
    }
}

impl BoundArgs {
    /// No argument bound.
    pub fn new() -> (r: BoundArgs)
        ensures
            r@ == Seq::<(Seq<char>, Json)>::empty(),
            distinct_keys(r@),
    {
        let r = BoundArgs { entries: Vec::new() };
        assert(r@ =~= Seq::<(Seq<char>, Json)>::empty());
        r
    }

    /// How many names are bound.
    pub fn len(&self) -> (r: usize)
        ensures
            r == self@.len(),
    {
        self.entries.len()
    }

    /// The name of the entry at `i`.
    pub fn key_at(&self, i: usize) -> (r: &str)
        requires
            i < self@.len(),
        ensures
            r@ == self@[i as int].0,
    {
        self.entries[i].0.as_str()
    }

    /// The value of the entry at `i`.
    pub fn value_at(&self, i: usize) -> (r: &JsonValue)
        requires
            i < self@.len(),
        ensures
            r@ == self@[i as int].1,
    {
        &self.entries[i].1
    }

    /// The position of the entry named `key`.
    fn position(&self, key: &str) -> (r: Option<usize>)
        ensures
            match r {
                Some(i) => i == key_index(self@, key@),
                None => key_index(self@, key@) == -1,
            },
    {
        let wanted = chars_of(key);
        let ghost model = self@;
        let mut j: usize = self.entries.len();
        assert(model.take(j as int) == model);
        while j > 0
            invariant
                j <= self.entries.len(),
                wanted@ == key@,
                model == self@,
                model.len() == self.entries.len(),
                key_index(model, key@) == key_index(model.take(j as int), key@),
            decreases j,
        {
            let name = chars_of(self.entries[j - 1].0.as_str());
            assert(model.take(j as int).last() == model[j - 1]);
            if chars_eq(&name, &wanted) {
                return Some(j - 1);
            }
            assert(model.take(j as int).drop_last() == model.take(j - 1));
            j -= 1;
        }
        None
    }

    /// What `key` is bound to.
    pub fn get(&self, key: &str) -> (r: Option<&JsonValue>)
        ensures
            match r {
                Some(v) => field_of(self@, key@) == Some(v@),
                None => field_of(self@, key@) is None,
            },
    {
        proof {
            lemma_key_index(self@, key@);
        }
        match self.position(key) {
            Some(i) => Some(&self.entries[i].1),
            None => None,
        }
    }

    /// Binds `key` to `value`, in place of what it was bound to.
    pub fn insert(&mut self, key: String, value: JsonValue)
        ensures
            final(self)@ == bind(old(self)@, key@, value@),
            distinct_keys(old(self)@) ==> distinct_keys(final(self)@),
    {
        proof {
            lemma_key_index(self@, key@);
            if distinct_keys(self@) {
                lemma_bind_distinct(self@, key@, value@);
            }
        }
        match self.position(key.as_str()) {
            Some(i) => {
                self.entries.set(i, (key, value));
                assert(self@ =~= bind(old(self)@, key@, value@));
            },
            None => {
                self.entries.push((key, value));
                assert(self@ =~= bind(old(self)@, key@, value@));
            },
        }
    }

    /// The bound arguments as the fields of a JSON object.
    pub fn to_fields(&self) -> (r: Vec<(String, JsonValue)>)
        ensures
            fields_view(r@) == self@,
    {
        crate::json::copy_fields(&self.entries)
    }
}

} // verus!
