//! A map keyed by monitor name that remembers the order in which names were first set.

use vstd::prelude::*;
use crate::text::same_text;

verus! {

/// No key occurs twice in `pairs`.
pub open spec fn distinct_keys<T>(pairs: Seq<(Seq<char>, T)>) -> bool {
    forall|i: int, j: int| 0 <= i < j < pairs.len() ==> pairs[i].0 != pairs[j].0
}

/// Where `key` stands in `pairs`, if it occurs there.
pub open spec fn position<T>(pairs: Seq<(Seq<char>, T)>, key: Seq<char>) -> Option<int> {
    if exists|i: int| 0 <= i < pairs.len() && pairs[i].0 == key {
        Some(choose|i: int| 0 <= i < pairs.len() && pairs[i].0 == key)
    } else {
        None
    }
}

/// The map that `pairs` lists.
pub open spec fn map_of<T>(pairs: Seq<(Seq<char>, T)>) -> Map<Seq<char>, T> {
    Map::new(
        |key: Seq<char>| position(pairs, key) is Some,
        |key: Seq<char>| pairs[position(pairs, key).unwrap()].1,
    )
}

/// `pairs` with `key` set to `value`: in place where the key occurs, at the end otherwise.
pub open spec fn put<T>(pairs: Seq<(Seq<char>, T)>, key: Seq<char>, value: T) -> Seq<
    (Seq<char>, T),
> {
    match position(pairs, key) {
        Some(i) => pairs.update(i, (key, value)),
        None => pairs.push((key, value)),
    }
}

/// In a list without repeated keys, a key is found at the one place where it stands.
pub proof fn lemma_position_unique<T>(pairs: Seq<(Seq<char>, T)>, i: int)
    requires
        distinct_keys(pairs),
        0 <= i < pairs.len(),
    ensures
        position(pairs, pairs[i].0) == Some(i),
{
    let key = pairs[i].0;
    let j = choose|j: int| 0 <= j < pairs.len() && pairs[j].0 == key;
    assert(0 <= j < pairs.len() && pairs[j].0 == key);
    if j < i {
        assert(pairs[j].0 != pairs[i].0);
    } else if i < j {
        assert(pairs[i].0 != pairs[j].0);
    }
}

/// Setting a key in the list sets it in the map, and repeats no key.
pub proof fn lemma_put<T>(pairs: Seq<(Seq<char>, T)>, key: Seq<char>, value: T)
    requires
        distinct_keys(pairs),
    ensures
        distinct_keys(put(pairs, key, value)),
        map_of(put(pairs, key, value)) == map_of(pairs).insert(key, value),
{
    let after = put(pairs, key, value);
    let at: int = match position(pairs, key) {
        Some(i) => i,
        None => pairs.len() as int,
    };
    assert(0 <= at < after.len() && after[at] == (key, value));
    assert forall|i: int| 0 <= i < after.len() && i != at implies after[i] == pairs[i]
        && after[i].0 != key by {
        if position(pairs, key) is None {
            assert(!(0 <= i < pairs.len() && pairs[i].0 == key));
        } else {
            lemma_position_unique(pairs, i);
        }
    }
    assert forall|i: int, j: int| 0 <= i < j < after.len() implies after[i].0 != after[j].0 by {
        if i != at && j != at {
            assert(pairs[i].0 != pairs[j].0);
        }
    }
    assert forall|k: Seq<char>| #[trigger]
        map_of(after).dom().contains(k) == map_of(pairs).insert(key, value).dom().contains(
            k,
        ) by {
        if k == key {
            assert(after[at].0 == k);
        } else if position(pairs, k) is Some {
            let i = position(pairs, k).unwrap();
            assert(after[i].0 == k);
        } else if position(after, k) is Some {
            let i = position(after, k).unwrap();
            assert(pairs[i].0 == k);
        }
    }
    assert forall|k: Seq<char>| #[trigger]
        map_of(after).dom().contains(k) implies map_of(after)[k] == map_of(pairs).insert(
        key,
        value,
    )[k] by {
        let i = position(after, k).unwrap();
        lemma_position_unique(after, i);
        if k != key {
            lemma_position_unique(pairs, i);
        }
    }
    assert(map_of(after) =~= map_of(pairs).insert(key, value));
}

/// `pairs` with every value replaced by what `f` makes of it.
pub open spec fn relabel<A, B>(pairs: Seq<(Seq<char>, A)>, f: spec_fn(A) -> B) -> Seq<
    (Seq<char>, B),
> {
    Seq::new(pairs.len(), |i: int| (pairs[i].0, f(pairs[i].1)))
}

/// Replacing the values of a list replaces the values of its map, and repeats no key.
pub proof fn lemma_relabel<A, B>(pairs: Seq<(Seq<char>, A)>, f: spec_fn(A) -> B)
    requires
        distinct_keys(pairs),
    ensures
        distinct_keys(relabel(pairs, f)),
        map_of(relabel(pairs, f)) == map_of(pairs).map_values(f),
{
    let after = relabel(pairs, f);
    assert forall|k: Seq<char>| #[trigger]
        map_of(after).dom().contains(k) == map_of(pairs).dom().contains(k) by {
        if position(pairs, k) is Some {
            let i = position(pairs, k).unwrap();
            assert(after[i].0 == k);
        } else if position(after, k) is Some {
            let i = position(after, k).unwrap();
            assert(pairs[i].0 == k);
        }
    }
    assert forall|k: Seq<char>| #[trigger]
        map_of(after).dom().contains(k) implies map_of(after)[k] == f(map_of(pairs)[k]) by {
        let i = position(after, k).unwrap();
        lemma_position_unique(after, i);
        lemma_position_unique(pairs, i);
    }
    assert(map_of(after) =~= map_of(pairs).map_values(f));
}

/// The key at place `i` of a list without repeated keys is not among the ones before it.
pub proof fn lemma_fresh_key<A, B>(pairs: Seq<(Seq<char>, A)>, f: spec_fn(A) -> B, i: int)
    requires
        distinct_keys(pairs),
        0 <= i < pairs.len(),
    ensures
        position(relabel(pairs.take(i), f), pairs[i].0) is None,
        relabel(pairs.take(i + 1), f) == relabel(pairs.take(i), f).push(
            (pairs[i].0, f(pairs[i].1)),
        ),
{
    let before = relabel(pairs.take(i), f);
    assert forall|j: int| 0 <= j < before.len() implies before[j].0 != pairs[i].0 by {
        assert(pairs[j].0 != pairs[i].0);
    }
    assert(relabel(pairs.take(i + 1), f) =~= before.push((pairs[i].0, f(pairs[i].1))));
}

/// What `entries` lists: each name as text beside the view of its value.
spec fn pairs_of<V: View>(entries: Seq<(String, V)>) -> Seq<(Seq<char>, V::V)> {
    Seq::new(entries.len(), |i: int| (entries[i].0@, entries[i].1@))
}

proof fn lemma_pairs_of_update<V: View>(entries: Seq<(String, V)>, i: int, entry: (String, V))
    requires
        0 <= i < entries.len(),
    ensures
        pairs_of(entries.update(i, entry)) == pairs_of(entries).update(i, (entry.0@, entry.1@)),
{
    assert(pairs_of(entries.update(i, entry)) =~= pairs_of(entries).update(
        i,
        (entry.0@, entry.1@),
    ));
}

proof fn lemma_pairs_of_push<V: View>(entries: Seq<(String, V)>, entry: (String, V))
    ensures
        pairs_of(entries.push(entry)) == pairs_of(entries).push((entry.0@, entry.1@)),
{
    assert(pairs_of(entries.push(entry)) =~= pairs_of(entries).push((entry.0@, entry.1@)));
}

/// A map from monitor names to values.
///
/// Names are compared as text. The entries keep the order in which their names were first set.
#[derive(Debug)]
pub struct MonitorMap<V: View> {
    entries: Vec<(String, V)>,
}

impl<V: View> View for MonitorMap<V> {
    type V = Map<Seq<char>, V::V>;

    open spec fn view(&self) -> Map<Seq<char>, V::V> {
        map_of(self.pairs())
    }
}

impl<V: View> MonitorMap<V> {
    /// The entries in order, each as its name and the view of its value.
    pub closed spec fn pairs(&self) -> Seq<(Seq<char>, V::V)> {
        pairs_of(self.entries@)
    }

    /// No name occurs twice.
    #[verifier::type_invariant]
    pub open spec fn wf(&self) -> bool {
        distinct_keys(self.pairs())
    }

    /// The map is empty exactly when it lists no entry.
    pub proof fn lemma_empty(&self)
        ensures
            self.pairs().len() == 0 <==> self@ == Map::<Seq<char>, V::V>::empty(),
    {
        if self.pairs().len() == 0 {
            assert(self@ =~= Map::empty());
        } else {
            let first = self.pairs()[0];
            assert(position(self.pairs(), first.0) is Some);
            assert(self@.contains_key(first.0));
        }
    }

    /// The map without entries.
    pub fn new() -> (map: Self)
        ensures
            map.pairs() == Seq::<(Seq<char>, V::V)>::empty(),
            map@ == Map::<Seq<char>, V::V>::empty(),
            map.wf(),
    {
        assert(pairs_of(Seq::<(String, V)>::empty()) =~= Seq::empty());
        let map = MonitorMap { entries: Vec::new() };
        assert(map@ =~= Map::empty());
        map
    }

    /// How many names have a value.
    pub fn len(&self) -> (n: usize)
        ensures
            n == self.pairs().len(),
    {
        self.entries.len()
    }

    /// Whether no name has a value.
    pub fn is_empty(&self) -> (empty: bool)
        ensures
            empty == (self.pairs().len() == 0),
    {
        self.entries.len() == 0
    }

    fn find(&self, key: &str) -> (found: Option<usize>)
        ensures
            self.wf(),
            match found {
                Some(i) => position(self.pairs(), key@) == Some(i as int) && i < self.pairs().len(),
                None => position(self.pairs(), key@) is None,
            },
    {
        proof {
            use_type_invariant(self);
        }
        let mut i: usize = 0;
        while i < self.entries.len()
            invariant
                self.wf(),
                i <= self.entries@.len(),
                self.pairs().len() == self.entries@.len(),
                forall|j: int| 0 <= j < i ==> self.pairs()[j].0 != key@,
            decreases self.entries@.len() - i,
        {
            if same_text(self.entries[i].0.as_str(), key) {
                proof {
                    lemma_position_unique(self.pairs(), i as int);
                }
                return Some(i);
            }
            i += 1;
        }
        None
    }

    /// Whether `key` has a value.
    pub fn contains_key(&self, key: &str) -> (present: bool)
        ensures
            present == self@.contains_key(key@),
    {
        self.find(key).is_some()
    }

    /// The value of `key`, if it has one.
    pub fn get(&self, key: &str) -> (value: Option<&V>)
        ensures
            match value {
                Some(v) => self@.contains_key(key@) && self@[key@] == v@,
                None => !self@.contains_key(key@),
            },
    {
        match self.find(key) {
            Some(i) => Some(&self.entries[i].1),
            None => None,
        }
    }

    /// The entry at place `index` in the order of `pairs`, if there is one.
    pub fn entry(&self, index: usize) -> (entry: Option<(&String, &V)>)
        ensures
            match entry {
                Some((name, value)) => index < self.pairs().len() && self.pairs()[index as int]
                    == (name@, value@),
                None => index >= self.pairs().len(),
            },
    {
        if index < self.entries.len() {
            let e = &self.entries[index];
            Some((&e.0, &e.1))
        } else {
            None
        }
    }

    /// Sets `key` to `value` and hands back the value that `key` had before, if it had one.
    pub fn insert(&mut self, key: String, value: V) -> (previous: Option<V>)
        ensures
            final(self).pairs() == put(old(self).pairs(), key@, value@),
            final(self)@ == old(self)@.insert(key@, value@),
            final(self).wf(),
            match previous {
                Some(v) => old(self)@.contains_key(key@) && old(self)@[key@] == v@,
                None => !old(self)@.contains_key(key@),
            },
    {
        proof {
            use_type_invariant(&*self);
            lemma_put(self.pairs(), key@, value@);
        }
        let found = self.find(key.as_str());
        proof {
            assert(pairs_of(Seq::<(String, V)>::empty()) =~= Seq::empty());
            match found {
                Some(i) => lemma_pairs_of_update(self.entries@, i as int, (key, value)),
                None => lemma_pairs_of_push(self.entries@, (key, value)),
            }
        }
        let mut entries: Vec<(String, V)> = Vec::new();
        std::mem::swap(&mut self.entries, &mut entries);
        let ghost before = entries@;
        let ghost pair = (key, value);
        entries.push((key, value));
        let previous = match found {
            Some(i) => Some(entries.swap_remove(i).1),
            None => None,
        };
        assert(entries@ =~= match found {
            Some(i) => before.update(i as int, pair),
            None => before.push(pair),
        });
        self.entries = entries;
        previous
    }
}

} // verus!
