//! The properties of a descriptor: names bound to texts.

use crate::analyze::producers::maven::placeholder::{
    first_placeholder, is_placeholder, lemma_whole_is_first, single_reference, split_placeholder,
};
use crate::utils::text::same_text;
use vstd::prelude::*;

verus! {

/// One name and the text bound to it.
#[derive(Debug)]
pub struct Property {
    pub key: String,
    pub value: String,
}

/// The map that a list of bindings stands for: a later binding of a name
/// replaces an earlier one.
pub open spec fn model(entries: Seq<Property>) -> Map<Seq<char>, Seq<char>>
    decreases entries.len(),
{
    if entries.len() == 0 {
        Map::empty()
    } else {
        model(entries.drop_last()).insert(entries.last().key@, entries.last().value@)
    }
}

/// No name is bound twice.
pub open spec fn distinct_keys(entries: Seq<Property>) -> bool {
    forall|i: int, j: int| 0 <= i < j < entries.len() ==> entries[i].key@ != entries[j].key@
}

/// `key` is bound by one of the entries.
pub open spec fn binds(entries: Seq<Property>, key: Seq<char>) -> bool {
    exists|i: int| 0 <= i < entries.len() && #[trigger] entries[i].key@ == key
}

/// The names of the map are the names of the list.
pub proof fn lemma_model_dom(entries: Seq<Property>)
    ensures
        model(entries).dom().finite(),
        forall|key: Seq<char>| model(entries).contains_key(key) <==> binds(entries, key),
    decreases entries.len(),
{
    if entries.len() > 0 {
        let front = entries.drop_last();
        lemma_model_dom(front);
        assert forall|key: Seq<char>| model(entries).contains_key(key) <==> binds(
            entries,
            key,
        ) by {
            if binds(entries, key) {
                let i = choose|i: int| 0 <= i < entries.len() && #[trigger] entries[i].key@ == key;
                if i < entries.len() - 1 {
                    assert(front[i].key@ == key);
                    assert(binds(front, key));
                }
            }
            if model(entries).contains_key(key) {
                if key == entries.last().key@ {
                    assert(entries[entries.len() - 1].key@ == key);
                } else {
                    assert(binds(front, key));
                    let i = choose|i: int| 0 <= i < front.len() && #[trigger] front[i].key@ == key;
                    assert(entries[i].key@ == key);
                }
            }
        }
    }
}

/// Where no name is bound twice, each entry's name is bound to its text.
pub proof fn lemma_model_value(entries: Seq<Property>, i: int)
    requires
        distinct_keys(entries),
        0 <= i < entries.len(),
    ensures
        model(entries).contains_key(entries[i].key@),
        model(entries)[entries[i].key@] == entries[i].value@,
    decreases entries.len(),
{
    if i < entries.len() - 1 {
        let front = entries.drop_last();
        assert(distinct_keys(front)) by {
            assert forall|a: int, b: int| 0 <= a < b < front.len() implies front[a].key@
                != front[b].key@ by {
                assert(front[a] == entries[a] && front[b] == entries[b]);
            }
        }
        lemma_model_value(front, i);
        assert(front[i] == entries[i]);
    }
}

/// Where no name is bound twice, the map has as many names as the list.
pub proof fn lemma_model_len(entries: Seq<Property>)
    requires
        distinct_keys(entries),
    ensures
        model(entries).dom().finite(),
        model(entries).len() == entries.len(),
    decreases entries.len(),
{
    lemma_model_dom(entries);
    if entries.len() > 0 {
        let front = entries.drop_last();
        assert(distinct_keys(front)) by {
            assert forall|a: int, b: int| 0 <= a < b < front.len() implies front[a].key@
                != front[b].key@ by {
                assert(front[a] == entries[a] && front[b] == entries[b]);
            }
        }
        lemma_model_len(front);
        lemma_model_dom(front);
        if binds(front, entries.last().key@) {
            let i = choose|i: int|
                0 <= i < front.len() && #[trigger] front[i].key@ == entries.last().key@;
            assert(front[i] == entries[i]);
            assert(false);
        }
        assert(!model(front).dom().contains(entries.last().key@));
        assert(model(entries).dom() =~= model(front).dom().insert(entries.last().key@));
    }
}

/// What one pass of substitution makes of a text: a text that is one
/// placeholder, whole, gives way to what `m` binds to its name; any other
/// text, and one whose name is not bound, stays.
pub open spec fn resolve_value(m: Map<Seq<char>, Seq<char>>, value: Seq<char>) -> Seq<char> {
    match single_reference(value) {
        Some(name) => if m.contains_key(name) {
            m[name]
        } else {
            value
        },
        None => value,
    }
}

/// One pass of substitution over a whole map: every name stays, and each text
/// is resolved against the map as it was before the pass.
pub open spec fn substitute_once(m: Map<Seq<char>, Seq<char>>) -> Map<Seq<char>, Seq<char>> {
    Map::new(|key: Seq<char>| m.contains_key(key), |key: Seq<char>| resolve_value(m, m[key]))
}

/// The name that `s` refers to when the whole of it is one placeholder.
pub fn single_reference_of(s: &str) -> (r: Option<String>)
    ensures
        match r {
            Some(name) => single_reference(s@) == Some(name@),
            None => single_reference(s@).is_none(),
        },
{
    proof {
        if is_placeholder(s@, 0, s@.len() as int) {
            lemma_whole_is_first(s@);
        }
    }
    match split_placeholder(s) {
        Some(m) => {
            if m.before.as_str().is_empty() && m.after.as_str().is_empty() {
                Some(m.name)
            } else {
                None
            }
        },
        None => None,
    }
}

/// The bindings after one pass of substitution over them.
pub fn replace_properties(properties: Properties) -> (r: Properties)
    ensures
        r@ == substitute_once(properties@),
{
    properties.substituted()
}

/// Names bound to texts. No name is bound twice; the order in which the
/// bindings were made does not show.
#[derive(Debug)]
pub struct Properties {
    entries: Vec<Property>,
}

impl View for Properties {
    type V = Map<Seq<char>, Seq<char>>;

    closed spec fn view(&self) -> Map<Seq<char>, Seq<char>> {
        model(self.entries@)
    }
}

impl Properties {
    #[verifier::type_invariant]
    spec fn keys_are_distinct(self) -> bool {
        distinct_keys(self.entries@)
    }

    /// No bindings.
    pub fn new() -> (r: Properties)
        ensures
            r@ == Map::<Seq<char>, Seq<char>>::empty(),
    {
        Properties { entries: Vec::new() }
    }

    /// How many names are bound.
    pub fn len(&self) -> (r: usize)
        ensures
            self@.dom().finite(),
            r == self@.len(),
    {
        proof {
            use_type_invariant(self);
            lemma_model_len(self.entries@);
        }
        self.entries.len()
    }

    /// Whether no name is bound.
    pub fn is_empty(&self) -> (r: bool)
        ensures
            r == (self@.len() == 0),
            self@.dom().finite(),
    {
        self.len() == 0
    }

    /// Where `key` stands among the entries.
    fn position(&self, key: &str) -> (r: Option<usize>)
        ensures
            match r {
                Some(i) => i < self.entries@.len() && self.entries@[i as int].key@ == key@,
                None => !binds(self.entries@, key@),
            },
    {
        let mut i: usize = 0;
        while i < self.entries.len()
            invariant
                i <= self.entries@.len(),
                forall|k: int| 0 <= k < i ==> self.entries@[k].key@ != key@,
            decreases self.entries@.len() - i,
        {
            if same_text(self.entries[i].key.as_str(), key) {
                return Some(i);
            }
            i += 1;
        }
        None
    }

    /// The text bound to `key`, if it is bound.
    pub fn get(&self, key: &str) -> (r: Option<&String>)
        ensures
            match r {
                Some(value) => self@.contains_key(key@) && value@ == self@[key@],
                None => !self@.contains_key(key@),
            },
    {
        proof {
            use_type_invariant(self);
            lemma_model_dom(self.entries@);
        }
        match self.position(key) {
            Some(i) => {
                proof {
                    lemma_model_value(self.entries@, i as int);
                }
                Some(&self.entries[i].value)
            },
            None => None,
        }
    }

    /// Whether `key` is bound.
    pub fn contains_key(&self, key: &str) -> (r: bool)
        ensures
            r == self@.contains_key(key@),
    {
        self.get(key).is_some()
    }

    /// Binds `key` to `value`, in place of what it was bound to before.
    pub fn insert(&mut self, key: String, value: String)
        ensures
            final(self)@ == old(self)@.insert(key@, value@),
    {
        proof {
            use_type_invariant(&*self);
            lemma_model_dom(self.entries@);
        }
        let found = self.position(key.as_str());
        let mut taken = Properties { entries: Vec::new() };
        core::mem::swap(self, &mut taken);
        let mut entries = taken.entries;
        let ghost before = entries@;
        match found {
            Some(i) => {
                let ghost entry = Property { key: key, value: value };
                entries.set(i, Property { key, value });
                proof {
                    lemma_same_bindings(before, entries@, entry, i as int);
                }
            },
            None => {
                entries.push(Property { key, value });
                proof {
                    assert(entries@.drop_last() == before);
                }
            },
        }
        *self = Properties { entries };
    }

    /// Adds every binding of `other`; where both bind a name, `other` wins.
    pub fn extend(&mut self, other: &Properties)
        ensures
            final(self)@ == old(self)@.union_prefer_right(other@),
    {
        let mut i: usize = 0;
        proof {
            assert(self@.union_prefer_right(model(other.entries@.take(0))) =~= self@);
        }
        while i < other.entries.len()
            invariant
                i <= other.entries@.len(),
                self@ == old(self)@.union_prefer_right(model(other.entries@.take(i as int))),
            decreases other.entries@.len() - i,
        {
            let ghost so_far = model(other.entries@.take(i as int));
            let entry = &other.entries[i];
            self.insert(entry.key.clone(), entry.value.clone());
            proof {
                assert(other.entries@.take(i + 1).drop_last() == other.entries@.take(i as int));
                assert(old(self)@.union_prefer_right(so_far.insert(entry.key@, entry.value@))
                    =~= old(self)@.union_prefer_right(so_far).insert(entry.key@, entry.value@));
            }
            i += 1;
        }
        proof {
            assert(other.entries@.take(other.entries@.len() as int) == other.entries@);
        }
    }

    /// The bindings after one pass of substitution: a text that is one
    /// placeholder, whole, gives way to what its name is bound to here.
    pub fn substituted(&self) -> (r: Properties)
        ensures
            r@ == substitute_once(self@),
    {
        proof {
            use_type_invariant(self);
        }
        let mut out: Vec<Property> = Vec::new();
        let mut i: usize = 0;
        while i < self.entries.len()
            invariant
                i <= self.entries@.len(),
                out@.len() == i,
                forall|j: int|
                    0 <= j < i ==> (#[trigger] out@[j]).key@ == self.entries@[j].key@ && out@[j].value@
                        == resolve_value(self@, self.entries@[j].value@),
            decreases self.entries@.len() - i,
        {
            let entry = &self.entries[i];
            let value = match single_reference_of(entry.value.as_str()) {
                Some(name) => match self.get(name.as_str()) {
                    Some(bound) => bound.clone(),
                    None => entry.value.clone(),
                },
                None => entry.value.clone(),
            };
            out.push(Property { key: entry.key.clone(), value });
            i += 1;
        }
        proof {
            lemma_substituted(self.entries@, out@);
        }
        Properties { entries: out }
    }

    /// The names that are bound, each once.
    pub fn keys(&self) -> (r: Vec<String>)
        ensures
            r@.len() == self@.len(),
            forall|key: Seq<char>|
                self@.contains_key(key) <==> exists|i: int|
                    0 <= i < r@.len() && #[trigger] r@[i]@ == key,
    {
        proof {
            use_type_invariant(self);
            lemma_model_len(self.entries@);
            lemma_model_dom(self.entries@);
        }
        let mut out: Vec<String> = Vec::new();
        let mut i: usize = 0;
        while i < self.entries.len()
            invariant
                i <= self.entries@.len(),
                out@.len() == i,
                forall|j: int| 0 <= j < i ==> (#[trigger] out@[j])@ == self.entries@[j].key@,
            decreases self.entries@.len() - i,
        {
            out.push(self.entries[i].key.clone());
            i += 1;
        }
        proof {
            assert forall|key: Seq<char>|
                self@.contains_key(key) <==> exists|i: int|
                    0 <= i < out@.len() && #[trigger] out@[i]@ == key by {
                if binds(self.entries@, key) {
                    let j = choose|j: int|
                        0 <= j < self.entries@.len() && #[trigger] self.entries@[j].key@ == key;
                    assert(out@[j]@ == key);
                }
                if exists|i: int| 0 <= i < out@.len() && #[trigger] out@[i]@ == key {
                    let j = choose|i: int| 0 <= i < out@.len() && #[trigger] out@[i]@ == key;
                    assert(self.entries@[j].key@ == key);
                }
            }
        }
        out
    }
}

impl Clone for Properties {
    fn clone(&self) -> (r: Self)
        ensures
            r@ == self@,
    {
        let mut out = Properties::new();
        out.extend(self);
        proof {
            assert(Map::<Seq<char>, Seq<char>>::empty().union_prefer_right(self@) =~= self@);
        }
        out
    }
}

impl Default for Properties {
    fn default() -> (r: Self)
        ensures
            r@ == Map::<Seq<char>, Seq<char>>::empty(),
    {
        Properties::new()
    }
}

/// A list with the names of `entries` and each text resolved stands for the
/// map after one pass of substitution.
proof fn lemma_substituted(entries: Seq<Property>, out: Seq<Property>)
    requires
        distinct_keys(entries),
        out.len() == entries.len(),
        forall|j: int|
            0 <= j < entries.len() ==> (#[trigger] out[j]).key@ == entries[j].key@ && out[j].value@
                == resolve_value(model(entries), entries[j].value@),
    ensures
        distinct_keys(out),
        model(out) == substitute_once(model(entries)),
{
    assert(distinct_keys(out)) by {
        assert forall|a: int, b: int| 0 <= a < b < out.len() implies out[a].key@
            != out[b].key@ by {
            assert(out[a].key@ == entries[a].key@);
            assert(out[b].key@ == entries[b].key@);
        }
    }
    lemma_model_dom(entries);
    lemma_model_dom(out);
    let target = substitute_once(model(entries));
    assert forall|key: Seq<char>| model(out).contains_key(key) <==> target.contains_key(key) by {
        if binds(out, key) {
            let j = choose|j: int| 0 <= j < out.len() && #[trigger] out[j].key@ == key;
            assert(entries[j].key@ == key);
            assert(binds(entries, key));
        }
        if binds(entries, key) {
            let j = choose|j: int| 0 <= j < entries.len() && #[trigger] entries[j].key@ == key;
            assert(out[j].key@ == key);
            assert(binds(out, key));
        }
    }
    assert forall|key: Seq<char>| model(out).contains_key(key) implies model(out)[key]
        == target[key] by {
        assert(binds(out, key));
        let j = choose|j: int| 0 <= j < out.len() && #[trigger] out[j].key@ == key;
        lemma_model_value(out, j);
        lemma_model_value(entries, j);
    }
    assert(model(out) =~= target);
}

/// Binding a name again at its own place is an insertion into the map.
proof fn lemma_same_bindings(before: Seq<Property>, after: Seq<Property>, entry: Property, i: int)
    requires
        distinct_keys(before),
        0 <= i < before.len(),
        before[i].key@ == entry.key@,
        after == before.update(i, entry),
    ensures
        distinct_keys(after),
        model(after) == model(before).insert(entry.key@, entry.value@),
{
    assert(distinct_keys(after)) by {
        assert forall|a: int, b: int| 0 <= a < b < after.len() implies after[a].key@
            != after[b].key@ by {
            assert(after[a].key@ == before[a].key@);
            assert(after[b].key@ == before[b].key@);
        }
    }
    lemma_model_dom(before);
    lemma_model_dom(after);
    let target = model(before).insert(entry.key@, entry.value@);
    assert forall|key: Seq<char>| model(after).contains_key(key) <==> target.contains_key(
        key,
    ) by {
        if binds(after, key) {
            let j = choose|j: int| 0 <= j < after.len() && #[trigger] after[j].key@ == key;
            assert(before[j].key@ == key);
            assert(binds(before, key));
        }
        if binds(before, key) {
            let j = choose|j: int| 0 <= j < before.len() && #[trigger] before[j].key@ == key;
            assert(after[j].key@ == key);
            assert(binds(after, key));
        }
        if key == entry.key@ {
            assert(after[i].key@ == key);
        }
    }
    assert forall|key: Seq<char>| model(after).contains_key(key) implies model(after)[key]
        == target[key] by {
        assert(binds(after, key));
        let j = choose|j: int| 0 <= j < after.len() && #[trigger] after[j].key@ == key;
        lemma_model_value(after, j);
        if j != i {
            assert(before[j] == after[j]);
            lemma_model_value(before, j);
        }
    }
    assert(model(after) =~= target);
}

} // verus!
