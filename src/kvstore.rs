use crate::values::Value;
use vstd::prelude::*;

verus! {

/// The key-value operations that a layer above the page store offers.
pub trait KVStore<T> {
    /// The store's internal invariant.
    spec fn well_formed(&self) -> bool;

    /// The value stored under `key`, if any.
    fn get(&self, key: String) -> Option<&Value<T>>
        requires
            self.well_formed(),
    ;

    /// Stores `value` under `key`, replacing what was there.
    fn put(&mut self, key: String, value: Value<T>)
        requires
            old(self).well_formed(),
    ;

    /// Removes `key` and its value, if present.
    fn delete(&mut self, key: String)
        requires
            old(self).well_formed(),
    ;
}

/// The map that a list of entries stands for: each entry's key to its value,
/// later entries winning.
pub open spec fn map_of<T>(s: Seq<(String, Value<T>)>) -> Map<Seq<char>, Value<T>>
    decreases s.len(),
{
    if s.len() == 0 {
        Map::empty()
    } else {
        map_of(s.drop_last()).insert(s.last().0@, s.last().1)
    }
}

/// No two entries share a key.
pub open spec fn keys_unique<T>(s: Seq<(String, Value<T>)>) -> bool {
    forall|i: int, j: int|
        #![trigger s[i].0@, s[j].0@]
        0 <= i < s.len() && 0 <= j < s.len() && i != j ==> s[i].0@ != s[j].0@
}

/// A key is in the map exactly when some entry has it.
proof fn lemma_map_of_dom<T>(s: Seq<(String, Value<T>)>, k: Seq<char>)
    ensures
        map_of(s).contains_key(k) <==> exists|j: int| 0 <= j < s.len() && #[trigger] s[j].0@ == k,
    decreases s.len(),
{
    if s.len() > 0 {
        lemma_map_of_dom(s.drop_last(), k);
        if map_of(s).contains_key(k) && k != s.last().0@ {
            let j = choose|j: int| 0 <= j < s.drop_last().len() && #[trigger] s.drop_last()[j].0@ == k;
            assert(s[j].0@ == k);
        }
        if exists|j: int| 0 <= j < s.len() && #[trigger] s[j].0@ == k {
            let j = choose|j: int| 0 <= j < s.len() && #[trigger] s[j].0@ == k;
            if j < s.len() - 1 {
                assert(s.drop_last()[j].0@ == k);
            }
        }
    }
}

/// With unique keys, each entry's key maps to that entry's value.
proof fn lemma_map_of_index<T>(s: Seq<(String, Value<T>)>, i: int)
    requires
        keys_unique(s),
        0 <= i < s.len(),
    ensures
        map_of(s).contains_key(s[i].0@),
        map_of(s)[s[i].0@] == s[i].1,
    decreases s.len(),
{
    if i < s.len() - 1 {
        let d = s.drop_last();
        assert(d[i] == s[i]);
        assert(keys_unique(d)) by {
            assert forall|a: int, b: int|
                0 <= a < d.len() && 0 <= b < d.len() && a != b implies #[trigger] d[a].0@
                != #[trigger] d[b].0@ by {
                assert(d[a] == s[a] && d[b] == s[b]);
            }
        }
        lemma_map_of_index(d, i);
        assert(s[i].0@ != s[s.len() - 1].0@);
    }
}

/// With unique keys, dropping an entry drops its key from the map.
proof fn lemma_map_of_remove<T>(s: Seq<(String, Value<T>)>, i: int)
    requires
        keys_unique(s),
        0 <= i < s.len(),
    ensures
        map_of(s.remove(i)) == map_of(s).remove(s[i].0@),
        keys_unique(s.remove(i)),
    decreases s.len(),
{
    let r = s.remove(i);
    assert(keys_unique(r)) by {
        assert forall|a: int, b: int|
            0 <= a < r.len() && 0 <= b < r.len() && a != b implies #[trigger] r[a].0@
            != #[trigger] r[b].0@ by {
            let sa = if a < i { a } else { a + 1 };
            let sb = if b < i { b } else { b + 1 };
            assert(r[a] == s[sa] && r[b] == s[sb]);
        }
    }
    let d = s.drop_last();
    assert(keys_unique(d)) by {
        assert forall|a: int, b: int|
            0 <= a < d.len() && 0 <= b < d.len() && a != b implies #[trigger] d[a].0@
            != #[trigger] d[b].0@ by {
            assert(d[a] == s[a] && d[b] == s[b]);
        }
    }
    let last = s.last();
    if i == s.len() - 1 {
        assert(r =~= d);
        lemma_map_of_dom(d, last.0@);
        if map_of(d).contains_key(last.0@) {
            let j = choose|j: int| 0 <= j < d.len() && #[trigger] d[j].0@ == last.0@;
            assert(s[j].0@ == s[s.len() - 1].0@);
        }
        assert(map_of(s).remove(last.0@) =~= map_of(d));
    } else {
        assert(r.drop_last() =~= d.remove(i));
        assert(r.last() == last);
        lemma_map_of_remove(d, i);
        assert(d[i] == s[i]);
        assert(s[i].0@ != last.0@);
        assert(map_of(r) =~= map_of(s).remove(s[i].0@));
    }
}

/// A key-value store held in memory, for use in place of a page-backed one.
pub struct MockKVStore<T> {
    data: Vec<(String, Value<T>)>,
}

impl<T> View for MockKVStore<T> {
    type V = Map<Seq<char>, Value<T>>;

    closed spec fn view(&self) -> Map<Seq<char>, Value<T>> {
        map_of(self.data@)
    }
}

impl<T> MockKVStore<T> {
    /// An empty store.
    pub fn new() -> (r: MockKVStore<T>)
        ensures
            r.well_formed(),
            r@ == Map::<Seq<char>, Value<T>>::empty(),
    {
        MockKVStore { data: Vec::new() }
    }

    /// The position of `key` among the entries.
    fn find(&self, key: &String) -> (r: Option<usize>)
        requires
            self.well_formed(),
        ensures
            r is Some ==> r->Some_0 < self.data@.len() && self.data@[r->Some_0 as int].0@ == key@,
            r is None ==> !self@.contains_key(key@),
    {
        let mut i: usize = 0;
        while i < self.data.len()
            invariant
                i <= self.data@.len(),
                forall|j: int| 0 <= j < i ==> #[trigger] self.data@[j].0@ != key@,
            decreases self.data@.len() - i,
        {
            if self.data[i].0 == *key {
                return Some(i);
            }
            i = i + 1;
        }
        proof {
            lemma_map_of_dom(self.data@, key@);
        }
        None
    }
}

impl<T> KVStore<T> for MockKVStore<T> {
    /// No key is stored twice.
    closed spec fn well_formed(&self) -> bool {
        keys_unique(self.data@)
    }

    fn get(&self, key: String) -> (r: Option<&Value<T>>)
        ensures
            self@.contains_key(key@) ==> r is Some && *r->Some_0 == self@[key@],
            !self@.contains_key(key@) ==> r is None,
    {
        match self.find(&key) {
            Some(i) => {
                proof {
                    lemma_map_of_index(self.data@, i as int);
                }
                Some(&self.data[i].1)
            },
            None => None,
        }
    }

    fn put(&mut self, key: String, value: Value<T>)
        ensures
            final(self).well_formed(),
            final(self)@ == old(self)@.insert(key@, value),
    {
        let ghost k = key@;
        let ghost v = value;
        if let Some(i) = self.find(&key) {
            proof {
                lemma_map_of_remove(self.data@, i as int);
            }
            self.data.remove(i);
        }
        let ghost before = self.data@;
        proof {
            lemma_map_of_dom(before, k);
        }
        self.data.push((key, value));
        proof {
            assert(self.data@.drop_last() =~= before);
            assert forall|a: int, b: int|
                0 <= a < self.data@.len() && 0 <= b < self.data@.len() && a != b implies
                #[trigger] self.data@[a].0@ != #[trigger] self.data@[b].0@ by {
                if a < before.len() && b < before.len() {
                    assert(self.data@[a] == before[a] && self.data@[b] == before[b]);
                } else if a < before.len() {
                    assert(self.data@[a] == before[a]);
                } else {
                    assert(self.data@[b] == before[b]);
                }
            }
            assert(map_of(self.data@) =~= old(self)@.insert(k, v));
        }
    }

    fn delete(&mut self, key: String)
        ensures
            final(self).well_formed(),
            final(self)@ == old(self)@.remove(key@),
    {
        match self.find(&key) {
            Some(i) => {
                proof {
                    lemma_map_of_remove(self.data@, i as int);
                }
                self.data.remove(i);
            },
            None => {
                assert(self@ =~= old(self)@.remove(key@));
            },
        }
    }
}

} // verus!
