//! A map from texts to values that keeps its entries in the order in which
//! their keys first came.

use crate::text::same_text;
use vstd::prelude::*;

verus! {

/// The value of the first pair of the given key, if there is one.
pub open spec fn lookup<V>(pairs: Seq<(Seq<char>, V)>, key: Seq<char>) -> Option<V>
    decreases pairs.len(),
{
    if pairs.len() == 0 {
        None
    } else if pairs[0].0 == key {
        Some(pairs[0].1)
    } else {
        lookup(pairs.drop_first(), key)
    }
}

/// The map that a list of pairs stands for: of each key its first value.
pub open spec fn pairs_map<V>(pairs: Seq<(Seq<char>, V)>) -> Map<Seq<char>, V> {
    Map::new(
        |key: Seq<char>| lookup(pairs, key) is Some,
        |key: Seq<char>| lookup(pairs, key)->0,
    )
}

/// A key that no pair before `i` has is looked up from `i` on.
pub proof fn lemma_lookup_from<V>(pairs: Seq<(Seq<char>, V)>, key: Seq<char>, i: int)
    requires
        0 <= i <= pairs.len(),
        forall|j: int| 0 <= j < i ==> pairs[j].0 != key,
    ensures
        lookup(pairs, key) == lookup(pairs.skip(i), key),
    decreases i,
{
    if i == 0 {
        assert(pairs.skip(0) =~= pairs);
    } else {
        assert(pairs[0].0 != key);
        let rest = pairs.drop_first();
        assert forall|j: int| 0 <= j < i - 1 implies rest[j].0 != key by {
            assert(rest[j] == pairs[j + 1]);
        }
        lemma_lookup_from(rest, key, i - 1);
        assert(rest.skip(i - 1) =~= pairs.skip(i));
    }
}

/// Replacing the value of the first pair of a key sets the key and leaves
/// every other key alone.
pub proof fn lemma_lookup_update<V>(
    pairs: Seq<(Seq<char>, V)>,
    i: int,
    key: Seq<char>,
    value: V,
    other: Seq<char>,
)
    requires
        0 <= i < pairs.len(),
        pairs[i].0 == key,
        forall|j: int| 0 <= j < i ==> pairs[j].0 != key,
    ensures
        lookup(pairs.update(i, (key, value)), other) == if other == key {
            Some(value)
        } else {
            lookup(pairs, other)
        },
    decreases i,
{
    let changed = pairs.update(i, (key, value));
    if i == 0 {
        assert(changed.drop_first() =~= pairs.drop_first());
    } else {
        assert(pairs[0].0 != key);
        assert(changed[0] == pairs[0]);
        let rest = pairs.drop_first();
        assert forall|j: int| 0 <= j < i - 1 implies rest[j].0 != key by {
            assert(rest[j] == pairs[j + 1]);
        }
        lemma_lookup_update(rest, i - 1, key, value, other);
        assert(changed.drop_first() =~= rest.update(i - 1, (key, value)));
    }
}

/// A pair added at the end is found only where no pair before it has its
/// key.
pub proof fn lemma_lookup_push<V>(
    pairs: Seq<(Seq<char>, V)>,
    key: Seq<char>,
    value: V,
    other: Seq<char>,
)
    ensures
        lookup(pairs.push((key, value)), other) == match lookup(pairs, other) {
            Some(found) => Some(found),
            None => if other == key {
                Some(value)
            } else {
                None
            },
        },
    decreases pairs.len(),
{
    let grown = pairs.push((key, value));
    if pairs.len() == 0 {
        assert(grown.drop_first() =~= Seq::<(Seq<char>, V)>::empty());
    } else {
        assert(grown[0] == pairs[0]);
        assert(grown.drop_first() =~= pairs.drop_first().push((key, value)));
        lemma_lookup_push(pairs.drop_first(), key, value, other);
    }
}

/// Taking out a pair leaves every key but its own alone.
pub proof fn lemma_lookup_remove<V>(pairs: Seq<(Seq<char>, V)>, i: int, other: Seq<char>)
    requires
        0 <= i < pairs.len(),
        pairs[i].0 != other,
    ensures
        lookup(pairs.remove(i), other) == lookup(pairs, other),
    decreases i,
{
    let less = pairs.remove(i);
    if i == 0 {
        assert(less =~= pairs.drop_first());
    } else {
        assert(less[0] == pairs[0]);
        assert(less.drop_first() =~= pairs.drop_first().remove(i - 1));
        lemma_lookup_remove(pairs.drop_first(), i - 1, other);
    }
}

/// One entry of a `TextMap`.
#[derive(Clone, Debug)]
pub struct Entry<V> {
    key: String,
    value: V,
}

/// A map from texts to values.
#[derive(Clone, Debug)]
pub struct TextMap<V> {
    entries: Vec<Entry<V>>,
}

impl<V> View for TextMap<V> {
    type V = Map<Seq<char>, V>;

    closed spec fn view(&self) -> Map<Seq<char>, V> {
        pairs_map(self.pairs())
    }
}

impl<V> TextMap<V> {
    /// The entries in their order.
    pub closed spec fn pairs(&self) -> Seq<(Seq<char>, V)> {
        Seq::new(self.entries@.len(), |i: int| (self.entries@[i].key@, self.entries@[i].value))
    }

    pub fn new() -> (r: TextMap<V>)
        ensures
            r@ == Map::<Seq<char>, V>::empty(),
            r.pairs() == Seq::<(Seq<char>, V)>::empty(),
    {
        let r = TextMap { entries: Vec::new() };
        assert(r.pairs() =~= Seq::<(Seq<char>, V)>::empty());
        assert(r@ =~= Map::<Seq<char>, V>::empty());
        r
    }

    /// The number of entries.
    pub fn len(&self) -> (r: usize)
        ensures
            r == self.pairs().len(),
    {
        self.entries.len()
    }

    /// Whether the map has no entry.
    pub fn is_empty(&self) -> (r: bool)
        ensures
            r == (self.pairs().len() == 0),
            r == (self@ == Map::<Seq<char>, V>::empty()),
    {
        let r = self.entries.len() == 0;
        proof {
            if r {
                assert(self@ =~= Map::<Seq<char>, V>::empty());
            } else {
                let key = self.pairs()[0].0;
                assert(lookup(self.pairs(), key) is Some);
                assert(self@.contains_key(key));
            }
        }
        r
    }

    /// The key of the entry at the given place.
    pub fn key_at(&self, i: usize) -> (r: &String)
        requires
            i < self.pairs().len(),
        ensures
            r@ == self.pairs()[i as int].0,
    {
        &self.entries[i].key
    }

    /// The value of the entry at the given place.
    pub fn value_at(&self, i: usize) -> (r: &V)
        requires
            i < self.pairs().len(),
        ensures
            *r == self.pairs()[i as int].1,
    {
        &self.entries[i].value
    }

    /// The place of the first entry of the given key.
    fn find(&self, key: &str) -> (r: Option<usize>)
        ensures
            match r {
                Some(i) => {
                    &&& i < self.pairs().len()
                    &&& self.pairs()[i as int].0 == key@
                    &&& forall|j: int| 0 <= j < i ==> self.pairs()[j].0 != key@
                    &&& lookup(self.pairs(), key@) == Some(self.pairs()[i as int].1)
                },
                None => {
                    &&& forall|j: int| 0 <= j < self.pairs().len() ==> self.pairs()[j].0 != key@
                    &&& lookup(self.pairs(), key@) is None
                },
            },
    {
        let mut i: usize = 0;
        while i < self.entries.len()
            invariant
                i <= self.entries@.len(),
                forall|j: int| 0 <= j < i ==> self.pairs()[j].0 != key@,
            decreases self.entries@.len() - i,
        {
            if same_text(self.entries[i].key.as_str(), key) {
                proof {
                    lemma_lookup_from(self.pairs(), key@, i as int);
                    assert(self.pairs().skip(i as int)[0] == self.pairs()[i as int]);
                }
                return Some(i);
            }
            i = i + 1;
        }
        proof {
            lemma_lookup_from(self.pairs(), key@, i as int);
        }
        None
    }

    /// Whether the map has the given key.
    pub fn contains_key(&self, key: &str) -> (r: bool)
        ensures
            r == self@.contains_key(key@),
    {
        self.find(key).is_some()
    }

    /// The value of the given key, if the map has it.
    pub fn get(&self, key: &str) -> (r: Option<&V>)
        ensures
            match r {
                Some(value) => self@.contains_key(key@) && *value == self@[key@],
                None => !self@.contains_key(key@),
            },
    {
        match self.find(key) {
            Some(i) => Some(&self.entries[i].value),
            None => None,
        }
    }

    /// Sets the value of a key. A key that is new comes last in the order;
    /// one that is there keeps its place.
    pub fn insert(&mut self, key: String, value: V)
        ensures
            final(self)@ == old(self)@.insert(key@, value),
            old(self)@.contains_key(key@) ==> final(self).pairs().len() == old(self).pairs().len(),
            !old(self)@.contains_key(key@) ==> final(self).pairs() == old(self).pairs().push(
                (key@, value),
            ),
    {
        let ghost before = self.pairs();
        match self.find(key.as_str()) {
            Some(i) => {
                self.entries[i].value = value;
                proof {
                    assert(self.pairs() =~= before.update(i as int, (key@, value)));
                    assert forall|other: Seq<char>|
                        lookup(self.pairs(), other) == (if other == key@ {
                            Some(value)
                        } else {
                            lookup(before, other)
                        }) by {
                        lemma_lookup_update(before, i as int, key@, value, other);
                    }
                    assert(self@ =~= old(self)@.insert(key@, value));
                }
            },
            None => {
                let ghost shown = key@;
                self.entries.push(Entry { key, value });
                proof {
                    assert(self.pairs() =~= before.push((shown, value)));
                    assert forall|other: Seq<char>|
                        lookup(self.pairs(), other) == (if other == shown {
                            Some(value)
                        } else {
                            lookup(before, other)
                        }) by {
                        lemma_lookup_push(before, shown, value, other);
                    }
                    assert(self@ =~= old(self)@.insert(shown, value));
                }
            },
        }
    }

    /// Takes a key out of the map.
    pub fn remove(&mut self, key: &str)
        ensures
            final(self)@ == old(self)@.remove(key@),
            final(self).pairs().len() <= old(self).pairs().len(),
    {
        let ghost before = self.pairs();
        loop
            invariant
                self.pairs().len() <= before.len(),
                forall|other: Seq<char>|
                    other != key@ ==> lookup(self.pairs(), other) == lookup(before, other),
            ensures
                self.pairs().len() <= before.len(),
                forall|other: Seq<char>|
                    other != key@ ==> lookup(self.pairs(), other) == lookup(before, other),
                lookup(self.pairs(), key@) is None,
            decreases self.pairs().len(),
        {
            let ghost current = self.pairs();
            match self.find(key) {
                Some(i) => {
                    self.entries.remove(i);
                    proof {
                        assert(self.pairs() =~= current.remove(i as int));
                        assert forall|other: Seq<char>| other != key@ implies lookup(
                            self.pairs(),
                            other,
                        ) == lookup(before, other) by {
                            lemma_lookup_remove(current, i as int, other);
                        }
                    }
                },
                None => {
                    break ;
                },
            }
        }
        assert(self@ =~= old(self)@.remove(key@));
    }
}

} // verus!
