//! One resolution's dataset: places keyed by the text of an H3 cell index.

use vstd::prelude::*;

use crate::types::{copy_location, LocationDetails};

verus! {

/// Places keyed by cell text; each key occurs at most once.
#[derive(Debug)]
pub struct ReverseGeoStore {
    entries: Vec<(String, LocationDetails)>,
}

/// Entry `i` of `entries` is stored under `key`.
spec fn key_at(entries: Seq<(String, LocationDetails)>, key: Seq<char>, i: int) -> bool {
    0 <= i < entries.len() && entries[i].0@ == key
}

/// No key occurs twice in `entries`.
spec fn keys_distinct(entries: Seq<(String, LocationDetails)>) -> bool {
    forall|i: int, j: int|
        0 <= i < entries.len() && 0 <= j < entries.len() && i != j ==> #[trigger] entries[i].0@
            != #[trigger] entries[j].0@
}

/// The map that `entries` stands for.
spec fn map_of(entries: Seq<(String, LocationDetails)>) -> Map<Seq<char>, LocationDetails> {
    Map::new(
        |key: Seq<char>| exists|i: int| key_at(entries, key, i),
        |key: Seq<char>| entries[choose|i: int| key_at(entries, key, i)].1,
    )
}

/// With distinct keys, entry `i` is what the map holds under its key.
proof fn lemma_entry_in_map(entries: Seq<(String, LocationDetails)>, i: int)
    requires
        keys_distinct(entries),
        0 <= i < entries.len(),
    ensures
        map_of(entries).contains_key(entries[i].0@),
        map_of(entries)[entries[i].0@] == entries[i].1,
{
    let key = entries[i].0@;
    assert(key_at(entries, key, i));
    let j = choose|j: int| key_at(entries, key, j);
    if j != i {
        assert(entries[j].0@ != entries[i].0@);
    }
}

/// Replacing the place of an existing key updates the map at that key only.
proof fn lemma_replace(entries: Seq<(String, LocationDetails)>, i: int, entry: (String, LocationDetails))
    requires
        keys_distinct(entries),
        0 <= i < entries.len(),
        entry.0@ == entries[i].0@,
    ensures
        keys_distinct(entries.update(i, entry)),
        map_of(entries.update(i, entry)) == map_of(entries).insert(entry.0@, entry.1),
{
    let after = entries.update(i, entry);
    let key = entry.0@;
    assert(keys_distinct(after)) by {
        assert forall|a: int, b: int|
            0 <= a < after.len() && 0 <= b < after.len() && a != b implies #[trigger] after[a].0@
                != #[trigger] after[b].0@ by {
            assert(entries[a].0@ != entries[b].0@);
        }
    }
    lemma_entry_in_map(after, i);
    let expected = map_of(entries).insert(key, entry.1);
    assert forall|k: Seq<char>| #[trigger] map_of(after).contains_key(k) <==> expected.contains_key(k) by {
        if k != key {
            if map_of(after).contains_key(k) {
                let j = choose|j: int| key_at(after, k, j);
                assert(key_at(entries, k, j));
            }
            if map_of(entries).contains_key(k) {
                let j = choose|j: int| key_at(entries, k, j);
                assert(key_at(after, k, j));
            }
        }
    }
    assert forall|k: Seq<char>| #[trigger] map_of(after).contains_key(k) implies map_of(after)[k]
        == expected[k] by {
        if k != key {
            let j = choose|j: int| key_at(after, k, j);
            assert(j != i);
            lemma_entry_in_map(after, j);
            lemma_entry_in_map(entries, j);
        }
    }
    assert(map_of(after) =~= expected);
}

/// Appending an entry under a new key adds that key to the map.
proof fn lemma_push(entries: Seq<(String, LocationDetails)>, entry: (String, LocationDetails))
    requires
        keys_distinct(entries),
        forall|i: int| !key_at(entries, entry.0@, i),
    ensures
        keys_distinct(entries.push(entry)),
        map_of(entries.push(entry)) == map_of(entries).insert(entry.0@, entry.1),
{
    let after = entries.push(entry);
    let n = entries.len() as int;
    let key = entry.0@;
    assert(keys_distinct(after)) by {
        assert forall|a: int, b: int|
            0 <= a < after.len() && 0 <= b < after.len() && a != b implies #[trigger] after[a].0@
                != #[trigger] after[b].0@ by {
            if a < n && b < n {
                assert(entries[a].0@ != entries[b].0@);
            } else if a < n {
                assert(!key_at(entries, key, a));
            } else {
                assert(!key_at(entries, key, b));
            }
        }
    }
    lemma_entry_in_map(after, n);
    let expected = map_of(entries).insert(key, entry.1);
    assert forall|k: Seq<char>| #[trigger] map_of(after).contains_key(k) <==> expected.contains_key(k) by {
        if k != key {
            if map_of(after).contains_key(k) {
                let j = choose|j: int| key_at(after, k, j);
                assert(key_at(entries, k, j));
            }
            if map_of(entries).contains_key(k) {
                let j = choose|j: int| key_at(entries, k, j);
                assert(key_at(after, k, j));
            }
        }
    }
    assert forall|k: Seq<char>| #[trigger] map_of(after).contains_key(k) implies map_of(after)[k]
        == expected[k] by {
        if k != key {
            let j = choose|j: int| key_at(after, k, j);
            assert(j != n);
            assert(key_at(entries, k, j));
            lemma_entry_in_map(after, j);
            lemma_entry_in_map(entries, j);
        }
    }
    assert(map_of(after) =~= expected);
}

/// With distinct keys the map has as many keys as there are entries.
proof fn lemma_map_len(entries: Seq<(String, LocationDetails)>)
    requires
        keys_distinct(entries),
    ensures
        map_of(entries).dom().finite(),
        map_of(entries).dom().len() == entries.len(),
{
    let keys = entries.map_values(|e: (String, LocationDetails)| e.0@);
    assert(keys.no_duplicates()) by {
        assert forall|i: int, j: int| 0 <= i < keys.len() && 0 <= j < keys.len() && i != j
            implies keys[i] != keys[j] by {
            assert(entries[i].0@ != entries[j].0@);
        }
    }
    assert(map_of(entries).dom() =~= keys.to_set()) by {
        assert forall|k: Seq<char>| map_of(entries).dom().contains(k) implies keys.to_set().contains(k) by {
            let i = choose|i: int| key_at(entries, k, i);
            assert(keys[i] == k);
        }
        assert forall|k: Seq<char>| keys.to_set().contains(k) implies map_of(entries).dom().contains(k) by {
            let i = choose|i: int| 0 <= i < keys.len() && keys[i] == k;
            assert(key_at(entries, k, i));
        }
    }
    keys.unique_seq_to_set();
}

impl ReverseGeoStore {
    #[verifier::type_invariant]
    closed spec fn keys_are_distinct(self) -> bool {
        keys_distinct(self.entries@)
    }
}

impl View for ReverseGeoStore {
    type V = Map<Seq<char>, LocationDetails>;

    closed spec fn view(&self) -> Map<Seq<char>, LocationDetails> {
        map_of(self.entries@)
    }
}

impl ReverseGeoStore {
    /// An empty dataset.
    pub fn new() -> (r: Self)
        ensures
            r@ == Map::<Seq<char>, LocationDetails>::empty(),
    {
        let r = ReverseGeoStore { entries: Vec::new() };
        assert(r@ =~= Map::<Seq<char>, LocationDetails>::empty());
        r
    }

    /// Where `key` is stored, if anywhere.
    fn position(&self, key: &String) -> (r: Option<usize>)
        ensures
            match r {
                Some(i) => key_at(self.entries@, key@, i as int),
                None => forall|i: int| !key_at(self.entries@, key@, i),
            },
    {
        let n = self.entries.len();
        let mut i: usize = 0;
        while i < n
            invariant
                n == self.entries@.len(),
                i <= n,
                forall|j: int| 0 <= j < i ==> !key_at(self.entries@, key@, j),
            decreases n - i,
        {
            if self.entries[i].0 == *key {
                return Some(i);
            }
            i = i + 1;
        }
        None
    }

    /// Whether the dataset holds no place.
    pub fn is_empty(&self) -> (r: bool)
        ensures
            r == self@.dom().is_empty(),
    {
        proof {
            use_type_invariant(self);
            if self.entries@.len() > 0 {
                lemma_entry_in_map(self.entries@, 0);
            }
        }
        self.entries.len() == 0
    }

    /// Number of places in the dataset.
    pub fn len(&self) -> (r: usize)
        ensures
            r as nat == self@.dom().len(),
    {
        proof {
            use_type_invariant(self);
            lemma_map_len(self.entries@);
        }
        self.entries.len()
    }

    /// The place stored under `key`, if any.
    pub fn get(&self, key: &String) -> (r: Option<&LocationDetails>)
        ensures
            match r {
                Some(place) => self@.contains_key(key@) && *place == self@[key@],
                None => !self@.contains_key(key@),
            },
    {
        proof {
            use_type_invariant(self);
        }
        match self.position(key) {
            Some(i) => {
                proof {
                    lemma_entry_in_map(self.entries@, i as int);
                }
                Some(&self.entries[i].1)
            },
            None => None,
        }
    }

    /// Stores `place` under `key`, replacing and returning what was there.
    pub fn insert(&mut self, key: String, place: LocationDetails) -> (r: Option<LocationDetails>)
        ensures
            final(self)@ == old(self)@.insert(key@, place),
            match r {
                Some(previous) => old(self)@.contains_key(key@) && previous == old(self)@[key@],
                None => !old(self)@.contains_key(key@),
            },
    {
        proof {
            use_type_invariant(&*self);
        }
        let ghost before = self.entries@;
        let found = self.position(&key);
        let mut entries: Vec<(String, LocationDetails)> = Vec::new();
        std::mem::swap(&mut entries, &mut self.entries);
        match found {
            Some(i) => {
                proof {
                    lemma_entry_in_map(before, i as int);
                }
                let previous = copy_location(&entries[i].1);
                proof {
                    lemma_replace(before, i as int, (key, place));
                }
                entries[i] = (key, place);
                assert(entries@ == before.update(i as int, (key, place)));
                self.entries = entries;
                Some(previous)
            },
            None => {
                proof {
                    lemma_push(before, (key, place));
                }
                entries.push((key, place));
                self.entries = entries;
                None
            },
        }
    }

    /// A copy of the dataset.
    pub(crate) fn copy(&self) -> (r: Self)
        ensures
            r@ == self@,
    {
        proof {
            use_type_invariant(self);
        }
        let n = self.entries.len();
        let mut entries: Vec<(String, LocationDetails)> = Vec::new();
        let mut i: usize = 0;
        while i < n
            invariant
                n == self.entries@.len(),
                i <= n,
                entries@ == self.entries@.take(i as int),
            decreases n - i,
        {
            let key = self.entries[i].0.clone();
            let place = copy_location(&self.entries[i].1);
            entries.push((key, place));
            assert(self.entries@.take(i + 1) =~= self.entries@.take(i as int).push(
                self.entries@[i as int],
            ));
            i = i + 1;
        }
        assert(entries@ =~= self.entries@);
        ReverseGeoStore { entries }
    }
}

} // verus!
