//! Prop values and string-keyed prop maps.
//!
//! React sends `style`, `handlers` and `attrs` as JSON objects. The library
//! holds each as a `PropMap`: an association list in insertion order whose
//! keys never repeat, as the keys of a JSON object map never do. Attribute
//! and style values are `PropValue`s, the JSON value kinds the renderer reads.
use vstd::prelude::*;

use crate::text::str_eq;

verus! {

/// A JSON value as the scene stores it. Numbers keep their JSON text (the
/// renderer turns them into floats); arrays and objects, which no reader
/// inspects, keep their JSON text too.
#[derive(Debug, Clone)]
pub enum JsonValue<S> {
    Null,
    Bool(bool),
    Number(S),
    Str(S),
    Structured(S),
}

/// A prop value with owned strings.
pub type PropValue = JsonValue<String>;

/// A prop value as the specifications see it.
pub type PropValueModel = JsonValue<Seq<char>>;

impl View for JsonValue<String> {
    type V = JsonValue<Seq<char>>;

    open spec fn view(&self) -> JsonValue<Seq<char>> {
        match self {
            JsonValue::Null => JsonValue::Null,
            JsonValue::Bool(b) => JsonValue::Bool(*b),
            JsonValue::Number(t) => JsonValue::Number(t@),
            JsonValue::Str(t) => JsonValue::Str(t@),
            JsonValue::Structured(t) => JsonValue::Structured(t@),
        }
    }
}

impl JsonValue<String> {
    /// `serde_json::Value::as_bool`: the boolean, if this is one.
    pub fn as_bool(&self) -> (r: Option<bool>)
        ensures
            r == (match self@ {
                JsonValue::Bool(b) => Some(b),
                _ => None,
            }),
    {
        match self {
            JsonValue::Bool(b) => Some(*b),
            _ => None,
        }
    }

    /// `serde_json::Value::as_str`: the string, if this is one.
    pub fn as_str(&self) -> (r: Option<&str>)
        ensures
            r is Some <==> self@ is Str,
            r matches Some(t) ==> self@ == JsonValue::<Seq<char>>::Str(t@),
    {
        match self {
            JsonValue::Str(t) => Some(t.as_str()),
            _ => None,
        }
    }
}

/// The value of the first pair with key `k`.
pub open spec fn lookup<V>(pairs: Seq<(Seq<char>, V)>, k: Seq<char>) -> Option<V>
    decreases pairs.len(),
{
    if pairs.len() == 0 {
        None
    } else if pairs[0].0 == k {
        Some(pairs[0].1)
    } else {
        lookup(pairs.skip(1), k)
    }
}

/// No key occurs twice.
pub open spec fn keys_distinct<V>(pairs: Seq<(Seq<char>, V)>) -> bool {
    forall|i: int, j: int| 0 <= i < j < pairs.len() ==> pairs[i].0 != pairs[j].0
}

/// The first pair with key `k` gives the lookup.
pub proof fn lemma_lookup_index<V>(pairs: Seq<(Seq<char>, V)>, k: Seq<char>, i: int)
    requires
        0 <= i < pairs.len(),
        pairs[i].0 == k,
        forall|j: int| 0 <= j < i ==> pairs[j].0 != k,
    ensures
        lookup(pairs, k) == Some(pairs[i].1),
    decreases i,
{
    if i > 0 {
        lemma_lookup_index(pairs.skip(1), k, i - 1);
    }
}

/// A key in no pair looks up nothing.
pub proof fn lemma_lookup_none<V>(pairs: Seq<(Seq<char>, V)>, k: Seq<char>)
    requires
        forall|j: int| 0 <= j < pairs.len() ==> pairs[j].0 != k,
    ensures
        lookup(pairs, k) is None,
    decreases pairs.len(),
{
    if pairs.len() > 0 {
        lemma_lookup_none(pairs.skip(1), k);
    }
}

/// Replacing the value of the pair with key `k` changes no other lookup.
proof fn lemma_lookup_update_other<V>(
    pairs: Seq<(Seq<char>, V)>,
    i: int,
    k: Seq<char>,
    v: V,
    k2: Seq<char>,
)
    requires
        0 <= i < pairs.len(),
        pairs[i].0 == k,
        k2 != k,
    ensures
        lookup(pairs.update(i, (k, v)), k2) == lookup(pairs, k2),
    decreases i,
{
    let u = pairs.update(i, (k, v));
    if i == 0 {
        assert(u.skip(1) =~= pairs.skip(1));
    } else {
        assert(u[0] == pairs[0]);
        assert(u.skip(1) =~= pairs.skip(1).update(i - 1, (k, v)));
        lemma_lookup_update_other(pairs.skip(1), i - 1, k, v, k2);
    }
}

/// A pair added at the end is found only where no earlier pair has its key.
proof fn lemma_lookup_push<V>(pairs: Seq<(Seq<char>, V)>, k: Seq<char>, v: V, k2: Seq<char>)
    ensures
        lookup(pairs.push((k, v)), k2) == match lookup(pairs, k2) {
            Some(x) => Some(x),
            None => if k2 == k {
                Some(v)
            } else {
                None
            },
        },
    decreases pairs.len(),
{
    let p = pairs.push((k, v));
    if pairs.len() == 0 {
        assert(p[0] == (k, v));
        assert(p.skip(1) =~= Seq::<(Seq<char>, V)>::empty());
        assert(lookup(p.skip(1), k2) is None);
    } else {
        assert(p[0] == pairs[0]);
        assert(p.skip(1) =~= pairs.skip(1).push((k, v)));
        lemma_lookup_push(pairs.skip(1), k, v, k2);
    }
}

/// A string-keyed map whose pairs keep their insertion order.
#[derive(Debug)]
pub struct PropMap<V: View> {
    entries: Vec<(String, V)>,
}

impl<V: View> PropMap<V> {
    /// The pairs, in insertion order, keys and values by their views.
    pub closed spec fn pairs(&self) -> Seq<(Seq<char>, V::V)> {
        self.entries@.map_values(|e: (String, V)| (e.0@, e.1@))
    }

    #[verifier::type_invariant]
    closed spec fn wf(&self) -> bool {
        keys_distinct(self.pairs())
    }

    /// The value stored under `k`, if any.
    pub open spec fn get_spec(&self, k: Seq<char>) -> Option<V::V> {
        lookup(self.pairs(), k)
    }

    /// The empty map.
    pub fn new() -> (m: Self)
        ensures
            m.pairs() == Seq::<(Seq<char>, V::V)>::empty(),
    {
        let m = PropMap { entries: Vec::new() };
        assert(m.pairs() =~= Seq::<(Seq<char>, V::V)>::empty());
        m
    }

    /// Number of pairs.
    pub fn len(&self) -> (n: usize)
        ensures
            n == self.pairs().len(),
    {
        self.entries.len()
    }

    /// The `i`-th pair in insertion order.
    pub fn entry(&self, i: usize) -> (r: (&String, &V))
        requires
            i < self.pairs().len(),
        ensures
            (r.0@, r.1@) == self.pairs()[i as int],
    {
        let e = &self.entries[i];
        (&e.0, &e.1)
    }

    /// Index of the pair with key `key`, if any.
    fn find(&self, key: &str) -> (r: Option<usize>)
        ensures
            match r {
                Some(i) => i < self.pairs().len() && self.pairs()[i as int].0 == key@,
                None => forall|j: int| 0 <= j < self.pairs().len() ==> self.pairs()[j].0 != key@,
            },
    {
        let mut i: usize = 0;
        while i < self.entries.len()
            invariant
                i <= self.entries.len(),
                self.pairs().len() == self.entries.len(),
                forall|j: int| 0 <= j < i ==> self.pairs()[j].0 != key@,
            decreases self.entries.len() - i,
        {
            if str_eq(self.entries[i].0.as_str(), key) {
                return Some(i);
            }
            i += 1;
        }
        None
    }

    /// The value stored under `key`, if any (`HashMap::get`).
    pub fn get(&self, key: &str) -> (r: Option<&V>)
        ensures
            match r {
                Some(v) => self.get_spec(key@) == Some(v@),
                None => self.get_spec(key@) is None,
            },
    {
        match self.find(key) {
            Some(i) => {
                proof {
                    use_type_invariant(self);
                    lemma_lookup_index(self.pairs(), key@, i as int);
                }
                Some(&self.entries[i].1)
            },
            None => {
                proof {
                    lemma_lookup_none(self.pairs(), key@);
                }
                None
            },
        }
    }

    /// Stores `value` under `key` (`HashMap::insert`): the pair with that key
    /// keeps its place and takes the new value; a new key goes last.
    pub fn insert(&mut self, key: String, value: V)
        ensures
            old(self).get_spec(key@) is Some ==> exists|i: int|
                0 <= i < old(self).pairs().len() && old(self).pairs()[i].0 == key@
                    && final(self).pairs() == old(self).pairs().update(i, (key@, value@)),
            old(self).get_spec(key@) is None ==> final(self).pairs() == old(self).pairs().push(
                (key@, value@),
            ),
            final(self).get_spec(key@) == Some(value@),
            forall|k: Seq<char>| k != key@ ==> #[trigger] final(self).get_spec(k) == old(
                self,
            ).get_spec(k),
    {
        proof {
            use_type_invariant(&*self);
        }
        match self.find(key.as_str()) {
            Some(i) => {
                proof {
                    lemma_lookup_index(self.pairs(), key@, i as int);
                }
                let ghost before = self.pairs();
                let ghost k = key@;
                let ghost v = value@;
                let mut entries: Vec<(String, V)> = Vec::new();
                std::mem::swap(&mut entries, &mut self.entries);
                entries.set(i, (key, value));
                proof {
                    let p = entries@.map_values(|e: (String, V)| (e.0@, e.1@));
                    assert(p =~= before.update(i as int, (k, v)));
                    assert(keys_distinct(p));
                }
                self.entries = entries;
                assert(self.pairs() =~= before.update(i as int, (k, v)));
                proof {
                    assert forall|j: int| 0 <= j < i implies #[trigger] self.pairs()[j].0 != k by {
                        assert(before[j].0 != before[i as int].0);
                    }
                    lemma_lookup_index(self.pairs(), k, i as int);
                    assert forall|k2: Seq<char>| k2 != k implies #[trigger] lookup(
                        self.pairs(),
                        k2,
                    ) == lookup(before, k2) by {
                        lemma_lookup_update_other(before, i as int, k, v, k2);
                    }
                }
            },
            None => {
                proof {
                    lemma_lookup_none(self.pairs(), key@);
                }
                let ghost before = self.pairs();
                let ghost k = key@;
                let ghost v = value@;
                let mut entries: Vec<(String, V)> = Vec::new();
                std::mem::swap(&mut entries, &mut self.entries);
                entries.push((key, value));
                proof {
                    let p = entries@.map_values(|e: (String, V)| (e.0@, e.1@));
                    assert(p =~= before.push((k, v)));
                    assert(keys_distinct(p));
                }
                self.entries = entries;
                assert(self.pairs() =~= before.push((k, v)));
                proof {
                    lemma_lookup_push(before, k, v, k);
                    assert forall|k2: Seq<char>| k2 != k implies #[trigger] lookup(
                        self.pairs(),
                        k2,
                    ) == lookup(before, k2) by {
                        lemma_lookup_push(before, k, v, k2);
                    }
                }
            },
        }
    }
}

} // verus!
