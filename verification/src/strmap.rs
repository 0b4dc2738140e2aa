//! A map from strings to values, kept as a list in ascending key order.
//!
//! It stands where one would reach for an ordered tree map: every key occurs
//! once, and the entries are walked in the order of their keys.
use crate::text::{
    lemma_text_less_asymmetric, lemma_text_less_transitive, text_compare, text_less, TextOrder,
};
use vstd::prelude::*;

verus! {

/// One key with its value.
pub struct Entry<V> {
    pub key: String,
    pub value: V,
}

/// A map from strings to values, in ascending key order.
pub struct StrMap<V> {
    entries: Vec<Entry<V>>,
}

/// Every key is below the keys that follow it.
pub open spec fn ascending(keys: Seq<Seq<char>>) -> bool {
    forall|i: int, j: int| 0 <= i < j < keys.len() ==> text_less(#[trigger] keys[i], #[trigger] keys[j])
}

/// The map that a list of keys and the list of their values stand for.
pub open spec fn assoc<T>(keys: Seq<Seq<char>>, values: Seq<T>) -> Map<Seq<char>, T> {
    Map::new(
        |k: Seq<char>| keys.contains(k),
        |k: Seq<char>| values[choose|i: int| 0 <= i < keys.len() && keys[i] == k],
    )
}

/// In an ascending list the key at `i` is mapped to the value at `i`.
pub proof fn lemma_assoc_at<T>(keys: Seq<Seq<char>>, values: Seq<T>, i: int)
    requires
        ascending(keys),
        0 <= i < keys.len(),
    ensures
        assoc(keys, values).contains_key(keys[i]),
        assoc(keys, values)[keys[i]] == values[i],
{
    let k = keys[i];
    assert(keys.contains(k));
    let j = choose|j: int| 0 <= j < keys.len() && keys[j] == k;
    if j < i {
        lemma_text_less_asymmetric(keys[j], keys[i]);
    } else if i < j {
        lemma_text_less_asymmetric(keys[i], keys[j]);
    }
}

/// A key that falls between two neighbours of an ascending list is not in it.
pub proof fn lemma_assoc_absent<T>(keys: Seq<Seq<char>>, values: Seq<T>, p: int, k: Seq<char>)
    requires
        ascending(keys),
        0 <= p <= keys.len(),
        forall|j: int| 0 <= j < p ==> text_less(#[trigger] keys[j], k),
        p < keys.len() ==> text_less(k, keys[p]),
    ensures
        !keys.contains(k),
        !assoc(keys, values).contains_key(k),
        forall|j: int| p <= j < keys.len() ==> text_less(k, #[trigger] keys[j]),
{
    assert forall|j: int| p <= j < keys.len() implies text_less(k, #[trigger] keys[j]) by {
        if p < j {
            lemma_text_less_transitive(k, keys[p], keys[j]);
        }
    }
    assert forall|j: int| 0 <= j < keys.len() implies keys[j] != k by {
        if j < p {
            lemma_text_less_asymmetric(keys[j], k);
        } else {
            lemma_text_less_asymmetric(k, keys[j]);
        }
    }
}

/// Putting a new key at its place keeps the list ascending and adds one pair
/// to the map.
pub proof fn lemma_assoc_insert<T>(
    keys: Seq<Seq<char>>,
    values: Seq<T>,
    p: int,
    k: Seq<char>,
    v: T,
)
    requires
        ascending(keys),
        keys.len() == values.len(),
        0 <= p <= keys.len(),
        forall|j: int| 0 <= j < p ==> text_less(#[trigger] keys[j], k),
        p < keys.len() ==> text_less(k, keys[p]),
    ensures
        ascending(keys.insert(p, k)),
        assoc(keys.insert(p, k), values.insert(p, v)) == assoc(keys, values).insert(k, v),
{
    let keys2 = keys.insert(p, k);
    let values2 = values.insert(p, v);
    lemma_assoc_absent(keys, values, p, k);
    assert forall|i: int, j: int| 0 <= i < j < keys2.len() implies text_less(
        #[trigger] keys2[i],
        #[trigger] keys2[j],
    ) by {
        if j < p {
            assert(keys2[i] == keys[i] && keys2[j] == keys[j]);
        } else if j == p {
            assert(keys2[i] == keys[i]);
        } else if i < p {
            assert(keys2[i] == keys[i] && keys2[j] == keys[j - 1]);
            if i < j - 1 {
            } else {
                lemma_text_less_transitive(keys[i], k, keys[j - 1]);
            }
        } else if i == p {
            assert(keys2[j] == keys[j - 1]);
        } else {
            assert(keys2[i] == keys[i - 1] && keys2[j] == keys[j - 1]);
        }
    }
    let m2 = assoc(keys2, values2);
    let m = assoc(keys, values).insert(k, v);
    assert forall|x: Seq<char>| keys2.contains(x) implies x == k || keys.contains(x) by {
        let j = choose|j: int| 0 <= j < keys2.len() && keys2[j] == x;
        if j < p {
            assert(keys[j] == x);
        } else if j > p {
            assert(keys[j - 1] == x);
        }
    }
    assert forall|x: Seq<char>| x == k || keys.contains(x) implies keys2.contains(x) && m2[x]
        == m[x] by {
        if x == k {
            assert(keys2[p] == k);
            lemma_assoc_at(keys2, values2, p);
        } else {
            let j = choose|j: int| 0 <= j < keys.len() && keys[j] == x;
            lemma_assoc_at(keys, values, j);
            if j < p {
                assert(keys2[j] == x);
                lemma_assoc_at(keys2, values2, j);
            } else {
                assert(keys2[j + 1] == x);
                lemma_assoc_at(keys2, values2, j + 1);
            }
        }
    }
    assert(m2.dom() =~= m.dom());
    assert(m2 =~= m);
}

/// Changing the value at `p` changes the map at that key alone.
pub proof fn lemma_assoc_update<T>(keys: Seq<Seq<char>>, values: Seq<T>, p: int, v: T)
    requires
        ascending(keys),
        keys.len() == values.len(),
        0 <= p < keys.len(),
    ensures
        assoc(keys, values.update(p, v)) == assoc(keys, values).insert(keys[p], v),
{
    let values2 = values.update(p, v);
    let m2 = assoc(keys, values2);
    let m = assoc(keys, values).insert(keys[p], v);
    assert forall|x: Seq<char>| m.contains_key(x) implies m2.contains_key(x) && m2[x] == m[x] by {
        if x == keys[p] {
            lemma_assoc_at(keys, values2, p);
        } else {
            let j = choose|j: int| 0 <= j < keys.len() && keys[j] == x;
            lemma_assoc_at(keys, values, j);
            lemma_assoc_at(keys, values2, j);
        }
    }
    assert(m2 =~= m);
}

/// Taking the entry at `p` out keeps the list ascending and takes its key out
/// of the map.
pub proof fn lemma_assoc_remove<T>(keys: Seq<Seq<char>>, values: Seq<T>, p: int)
    requires
        ascending(keys),
        keys.len() == values.len(),
        0 <= p < keys.len(),
    ensures
        ascending(keys.remove(p)),
        assoc(keys.remove(p), values.remove(p)) == assoc(keys, values).remove(keys[p]),
{
    let keys2 = keys.remove(p);
    let values2 = values.remove(p);
    assert forall|i: int, j: int| 0 <= i < j < keys2.len() implies text_less(
        #[trigger] keys2[i],
        #[trigger] keys2[j],
    ) by {
        let a = if i < p { i } else { i + 1 };
        let b = if j < p { j } else { j + 1 };
        assert(keys2[i] == keys[a] && keys2[j] == keys[b]);
    }
    let m2 = assoc(keys2, values2);
    let m = assoc(keys, values).remove(keys[p]);
    assert forall|x: Seq<char>| m2.contains_key(x) implies m.contains_key(x) && m2[x] == m[x] by {
        let j = choose|j: int| 0 <= j < keys2.len() && keys2[j] == x;
        let a = if j < p { j } else { j + 1 };
        assert(keys2[j] == keys[a]);
        lemma_assoc_at(keys, values, a);
        lemma_assoc_at(keys2, values2, j);
        if a < p {
            lemma_text_less_asymmetric(keys[a], keys[p]);
        } else {
            lemma_text_less_asymmetric(keys[p], keys[a]);
        }
    }
    assert forall|x: Seq<char>| m.contains_key(x) implies m2.contains_key(x) by {
        let j = choose|j: int| 0 <= j < keys.len() && keys[j] == x;
        if j < p {
            assert(keys2[j] == x);
        } else {
            assert(keys2[j - 1] == x);
        }
    }
    assert(m2 =~= m);
}

impl<V: DeepView> View for StrMap<V> {
    type V = Map<Seq<char>, V::V>;

    closed spec fn view(&self) -> Map<Seq<char>, V::V> {
        assoc(self.keys(), self.values())
    }
}

impl<V: DeepView> StrMap<V> {
    /// The keys, in the order in which the entries are walked.
    pub closed spec fn keys(&self) -> Seq<Seq<char>> {
        self.entries@.map_values(|e: Entry<V>| e.key@)
    }

    /// The values, each at the place of its key.
    pub closed spec fn values(&self) -> Seq<V::V> {
        self.entries@.map_values(|e: Entry<V>| e.value.deep_view())
    }

    /// The keys ascend, so that none occurs twice.
    pub closed spec fn wf(&self) -> bool {
        ascending(self.keys())
    }

    /// What the list of entries has to do with the map: the map holds exactly
    /// the listed keys, each with the value listed beside it.
    pub proof fn lemma_entries(&self)
        requires
            self.wf(),
        ensures
            ascending(self.keys()),
            self.keys().len() == self.values().len(),
            self@ == assoc(self.keys(), self.values()),
            forall|i: int|
                0 <= i < self.keys().len() ==> self@.contains_key(#[trigger] self.keys()[i])
                    && self@[self.keys()[i]] == self.values()[i],
            forall|k: Seq<char>| self@.contains_key(k) <==> self.keys().contains(k),
    {
        assert forall|i: int| 0 <= i < self.keys().len() implies self@.contains_key(
            #[trigger] self.keys()[i],
        ) && self@[self.keys()[i]] == self.values()[i] by {
            lemma_assoc_at(self.keys(), self.values(), i);
        }
    }

    /// An empty map.
    pub fn new() -> (r: Self)
        ensures
            r.wf(),
            r@ == Map::<Seq<char>, V::V>::empty(),
            r.keys() == Seq::<Seq<char>>::empty(),
    {
        let r = StrMap { entries: Vec::new() };
        assert(r.keys() =~= Seq::<Seq<char>>::empty());
        assert(r@ =~= Map::<Seq<char>, V::V>::empty());
        r
    }

    /// The number of entries.
    pub fn len(&self) -> (r: usize)
        ensures
            r == self.keys().len(),
            r == self.values().len(),
    {
        self.entries.len()
    }

    /// The key of the entry at `i`.
    pub fn key_at(&self, i: usize) -> (r: &String)
        requires
            i < self.keys().len(),
        ensures
            r@ == self.keys()[i as int],
    {
        &self.entries[i].key
    }

    /// The value of the entry at `i`.
    pub fn value_at(&self, i: usize) -> (r: &V)
        requires
            i < self.keys().len(),
        ensures
            r.deep_view() == self.values()[i as int],
    {
        &self.entries[i].value
    }

    /// Where `key` stands or would stand: the position, and whether it is
    /// there.
    fn locate(&self, key: &str) -> (r: (usize, bool))
        requires
            self.wf(),
        ensures
            r.0 <= self.keys().len(),
            r.1 ==> r.0 < self.keys().len() && self.keys()[r.0 as int] == key@,
            !r.1 ==> (forall|j: int| 0 <= j < r.0 ==> text_less(#[trigger] self.keys()[j], key@))
                && (r.0 < self.keys().len() ==> text_less(key@, self.keys()[r.0 as int])),
            r.1 == self@.contains_key(key@),
    {
        let n: usize = self.entries.len();
        let mut i: usize = 0;
        let mut found: bool = false;
        while i < n
            invariant_except_break
                !found,
            invariant
                n == self.entries@.len(),
                n == self.keys().len(),
                i <= n,
                forall|j: int| 0 <= j < i ==> text_less(#[trigger] self.keys()[j], key@),
            ensures
                i <= n,
                found ==> i < n && self.keys()[i as int] == key@,
                !found ==> i < n ==> text_less(key@, self.keys()[i as int]),
            decreases n - i,
        {
            match text_compare(self.entries[i].key.as_str(), key) {
                TextOrder::Less => {
                    i += 1;
                },
                TextOrder::Equal => {
                    found = true;
                    break ;
                },
                TextOrder::Greater => {
                    break ;
                },
            }
        }
        proof {
            if found {
                lemma_assoc_at(self.keys(), self.values(), i as int);
            } else {
                lemma_assoc_absent(self.keys(), self.values(), i as int, key@);
            }
        }
        (i, found)
    }

    /// Whether `key` has a value.
    pub fn contains_key(&self, key: &str) -> (r: bool)
        requires
            self.wf(),
        ensures
            r == self@.contains_key(key@),
    {
        self.locate(key).1
    }

    /// The value of `key`, if it has one.
    pub fn get(&self, key: &str) -> (r: Option<&V>)
        requires
            self.wf(),
        ensures
            r is Some <==> self@.contains_key(key@),
            r matches Some(v) ==> v.deep_view() == self@[key@],
    {
        let (i, found) = self.locate(key);
        if found {
            proof {
                lemma_assoc_at(self.keys(), self.values(), i as int);
            }
            Some(&self.entries[i].value)
        } else {
            None
        }
    }

    /// Gives `key` the value `value`, in place of the one it had, if any.
    pub fn insert(&mut self, key: String, value: V)
        requires
            old(self).wf(),
        ensures
            final(self).wf(),
            final(self)@ == old(self)@.insert(key@, value.deep_view()),
    {
        let (i, found) = self.locate(key.as_str());
        let ghost keys0 = self.keys();
        let ghost values0 = self.values();
        if found {
            self.entries.remove(i);
            self.entries.insert(i, Entry { key, value });
            proof {
                assert(self.keys() =~= keys0);
                assert(self.values() =~= values0.update(i as int, value.deep_view()));
                lemma_assoc_update(keys0, values0, i as int, value.deep_view());
            }
        } else {
            self.entries.insert(i, Entry { key, value });
            proof {
                assert(self.keys() =~= keys0.insert(i as int, key@));
                assert(self.values() =~= values0.insert(i as int, value.deep_view()));
                lemma_assoc_insert(keys0, values0, i as int, key@, value.deep_view());
            }
        }
    }

    /// Takes `key` and its value out. Says whether it was there.
    pub fn remove(&mut self, key: &str) -> (r: bool)
        requires
            old(self).wf(),
        ensures
            final(self).wf(),
            r == old(self)@.contains_key(key@),
            final(self)@ == old(self)@.remove(key@),
    {
        let (i, found) = self.locate(key);
        let ghost keys0 = self.keys();
        let ghost values0 = self.values();
        if found {
            self.entries.remove(i);
            proof {
                assert(self.keys() =~= keys0.remove(i as int));
                assert(self.values() =~= values0.remove(i as int));
                lemma_assoc_remove(keys0, values0, i as int);
            }
        } else {
            assert(self@ =~= old(self)@.remove(key@));
        }
        found
    }
}

} // verus!
