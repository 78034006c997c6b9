//! A map from string keys to values, kept as a list of entries in which no
//! key occurs twice.

use vstd::prelude::*;

verus! {

/// Whether two string slices hold the same characters.
pub(crate) fn str_eq(a: &str, b: &str) -> (res: bool)
    ensures
        res == (a@ == b@),
{
    let n = a.unicode_len();
    if n != b.unicode_len() {
        return false;
    }
    for i in 0..n
        invariant
            n == a@.len() == b@.len(),
            forall|j: int| 0 <= j < i ==> a@[j] == b@[j],
    {
        if a.get_char(i) != b.get_char(i) {
            return false;
        }
    }
    assert(a@ =~= b@);
    true
}

/// The map that a list of entries stands for; a later entry wins.
pub open spec fn entries_map<T>(entries: Seq<(String, T)>) -> Map<Seq<char>, T>
    decreases entries.len(),
{
    if entries.len() == 0 {
        Map::empty()
    } else {
        entries_map(entries.drop_last()).insert(entries.last().0@, entries.last().1)
    }
}

/// No two entries have the same key.
pub open spec fn keys_distinct<T>(entries: Seq<(String, T)>) -> bool {
    forall|i: int, j: int|
        0 <= i < entries.len() && 0 <= j < entries.len() && i != j ==> #[trigger] entries[i].0@
            != #[trigger] entries[j].0@
}

/// A string-keyed map.
pub struct Table<T> {
    entries: Vec<(String, T)>,
}

/// A key is in the map exactly when some entry carries it.
pub proof fn lemma_entries_map_dom<T>(entries: Seq<(String, T)>, k: Seq<char>)
    ensures
        entries_map(entries).dom().contains(k) <==> exists|i: int|
            0 <= i < entries.len() && #[trigger] entries[i].0@ == k,
    decreases entries.len(),
{
    if entries.len() > 0 {
        let p = entries.drop_last();
        lemma_entries_map_dom(p, k);
        if entries_map(entries).dom().contains(k) && entries.last().0@ != k {
            let i = choose|i: int| 0 <= i < p.len() && #[trigger] p[i].0@ == k;
            assert(entries[i].0@ == k);
        }
        if exists|i: int| 0 <= i < entries.len() && #[trigger] entries[i].0@ == k {
            let i = choose|i: int| 0 <= i < entries.len() && #[trigger] entries[i].0@ == k;
            if i < entries.len() - 1 {
                assert(p[i].0@ == k);
            }
        }
    }
}

/// With distinct keys, the entry that carries a key gives its value.
pub proof fn lemma_entries_map_index<T>(entries: Seq<(String, T)>, i: int)
    requires
        keys_distinct(entries),
        0 <= i < entries.len(),
    ensures
        entries_map(entries).dom().contains(entries[i].0@),
        entries_map(entries)[entries[i].0@] == entries[i].1,
    decreases entries.len(),
{
    let p = entries.drop_last();
    if i < entries.len() - 1 {
        assert(p[i] == entries[i]);
        assert(keys_distinct(p)) by {
            assert forall|a: int, b: int|
                0 <= a < p.len() && 0 <= b < p.len() && a != b implies #[trigger] p[a].0@
                != #[trigger] p[b].0@ by {
                assert(p[a] == entries[a] && p[b] == entries[b]);
            }
        }
        lemma_entries_map_index(p, i);
        assert(entries[i].0@ != entries[entries.len() - 1].0@);
    }
}

/// With distinct keys, the map has one key per entry.
pub proof fn lemma_entries_map_len<T>(entries: Seq<(String, T)>)
    requires
        keys_distinct(entries),
    ensures
        entries_map(entries).dom().finite(),
        entries_map(entries).dom().len() == entries.len(),
    decreases entries.len(),
{
    if entries.len() > 0 {
        let p = entries.drop_last();
        assert(keys_distinct(p)) by {
            assert forall|a: int, b: int|
                0 <= a < p.len() && 0 <= b < p.len() && a != b implies #[trigger] p[a].0@
                != #[trigger] p[b].0@ by {
                assert(p[a] == entries[a] && p[b] == entries[b]);
            }
        }
        lemma_entries_map_len(p);
        let k = entries.last().0@;
        lemma_entries_map_dom(p, k);
        if entries_map(p).dom().contains(k) {
            let i = choose|i: int| 0 <= i < p.len() && #[trigger] p[i].0@ == k;
            assert(entries[i].0@ == entries[entries.len() - 1].0@);
        }
        assert(entries_map(entries).dom() == entries_map(p).dom().insert(k));
    }
}

impl<T> View for Table<T> {
    type V = Map<Seq<char>, T>;

    /// The map that the table holds.
    closed spec fn view(&self) -> Map<Seq<char>, T> {
        entries_map(self.entries@)
    }
}

impl<T> Table<T> {
    #[verifier::type_invariant]
    spec fn well_formed(self) -> bool {
        keys_distinct(self.entries@)
    }

    /// An empty table.
    pub fn new() -> (res: Self)
        ensures
            res@ == Map::<Seq<char>, T>::empty(),
    {
        Table { entries: Vec::new() }
    }

    /// The position of the entry for `key`, if there is one.
    fn find(&self, key: &str) -> (res: Option<usize>)
        ensures
            match res {
                Some(i) => i < self.entries@.len() && self.entries@[i as int].0@ == key@,
                None => !self@.dom().contains(key@),
            },
    {
        let n = self.entries.len();
        for i in 0..n
            invariant
                n == self.entries@.len(),
                forall|j: int| 0 <= j < i ==> #[trigger] self.entries@[j].0@ != key@,
        {
            if str_eq(self.entries[i].0.as_str(), key) {
                return Some(i);
            }
        }
        proof {
            lemma_entries_map_dom(self.entries@, key@);
        }
        None
    }

    /// Whether the table has an entry for `key`.
    pub fn contains_key(&self, key: &str) -> (res: bool)
        ensures
            res == self@.dom().contains(key@),
    {
        proof {
            use_type_invariant(self);
        }
        match self.find(key) {
            Some(i) => {
                proof {
                    lemma_entries_map_index(self.entries@, i as int);
                }
                true
            },
            None => false,
        }
    }

    /// The value stored for `key`, if any.
    pub fn get(&self, key: &str) -> (res: Option<&T>)
        ensures
            match res {
                Some(v) => self@.dom().contains(key@) && *v == self@[key@],
                None => !self@.dom().contains(key@),
            },
    {
        proof {
            use_type_invariant(self);
        }
        match self.find(key) {
            Some(i) => {
                proof {
                    lemma_entries_map_index(self.entries@, i as int);
                }
                Some(&self.entries[i].1)
            },
            None => None,
        }
    }

    /// The keys, each once, in the order they were first stored.
    pub fn keys(&self) -> (res: Vec<String>)
        ensures
            res@.len() == self@.dom().len(),
            forall|i: int| 0 <= i < res@.len() ==> self@.dom().contains(#[trigger] res@[i]@),
            forall|k: Seq<char>| #[trigger] self@.dom().contains(k) ==> exists|i: int|
                0 <= i < res@.len() && #[trigger] res@[i]@ == k,
    {
        proof {
            use_type_invariant(self);
            lemma_entries_map_len(self.entries@);
        }
        let n = self.entries.len();
        let mut res: Vec<String> = Vec::new();
        for i in 0..n
            invariant
                n == self.entries@.len(),
                keys_distinct(self.entries@),
                res@.len() == i,
                forall|j: int| 0 <= j < i ==> #[trigger] res@[j]@ == self.entries@[j].0@,
        {
            res.push(self.entries[i].0.clone());
        }
        proof {
            assert forall|i: int| 0 <= i < res@.len() implies self@.dom().contains(
                #[trigger] res@[i]@,
            ) by {
                lemma_entries_map_index(self.entries@, i);
            }
            assert forall|k: Seq<char>| #[trigger] self@.dom().contains(k) implies exists|i: int|
                0 <= i < res@.len() && #[trigger] res@[i]@ == k by {
                lemma_entries_map_dom(self.entries@, k);
                let i = choose|i: int| 0 <= i < self.entries@.len() && #[trigger] self.entries@[i].0@ == k;
                assert(res@[i]@ == k);
            }
        }
        res
    }

    /// The number of keys.
    pub fn len(&self) -> (res: usize)
        ensures
            self@.dom().finite(),
            res == self@.dom().len(),
    {
        proof {
            use_type_invariant(self);
            lemma_entries_map_len(self.entries@);
        }
        self.entries.len()
    }

    /// Stores `value` for `key`, giving back the value it replaces.
    pub fn insert(&mut self, key: String, value: T) -> (res: Option<T>)
        ensures
            final(self)@ == old(self)@.insert(key@, value),
            match res {
                Some(v) => old(self)@.dom().contains(key@) && v == old(self)@[key@],
                None => !old(self)@.dom().contains(key@),
            },
    {
        proof {
            use_type_invariant(&*self);
        }
        let found = self.find(key.as_str());
        let mut entries: Vec<(String, T)> = Vec::new();
        std::mem::swap(&mut entries, &mut self.entries);
        match found {
            Some(i) => {
                let ghost old_entries = entries@;
                proof {
                    lemma_entries_map_index(old_entries, i as int);
                }
                let (_k, old_value) = entries.remove(i);
                entries.insert(i, (key, value));
                let ghost new_entries = entries@;
                assert(new_entries =~= old_entries.update(i as int, new_entries[i as int]));
                proof {
                    assert forall|k: Seq<char>|
                        #![trigger entries_map(new_entries).dom().contains(k)]
                        #![trigger entries_map(old_entries).insert(key@, value).dom().contains(k)]
                        entries_map(new_entries).dom().contains(k)
                            <==> entries_map(old_entries).insert(key@, value).dom().contains(k) by {
                        lemma_entries_map_dom(new_entries, k);
                        lemma_entries_map_dom(old_entries, k);
                        if exists|j: int| 0 <= j < old_entries.len() && #[trigger] old_entries[j].0@ == k {
                            let j = choose|j: int| 0 <= j < old_entries.len() && #[trigger] old_entries[j].0@ == k;
                            assert(new_entries[j].0@ == k);
                        }
                        if exists|j: int| 0 <= j < new_entries.len() && #[trigger] new_entries[j].0@ == k {
                            let j = choose|j: int| 0 <= j < new_entries.len() && #[trigger] new_entries[j].0@ == k;
                            assert(old_entries[j].0@ == k);
                        }
                    }
                    assert forall|k: Seq<char>|
                        #[trigger] entries_map(new_entries).dom().contains(k) implies entries_map(new_entries)[k]
                            == entries_map(old_entries).insert(key@, value)[k] by {
                        lemma_entries_map_dom(new_entries, k);
                        let j = choose|j: int| 0 <= j < new_entries.len() && #[trigger] new_entries[j].0@ == k;
                        lemma_entries_map_index(new_entries, j);
                        if j != i {
                            assert(old_entries[j] == new_entries[j]);
                            lemma_entries_map_index(old_entries, j);
                        }
                    }
                    assert(entries_map(new_entries) =~= entries_map(old_entries).insert(key@, value));
                    assert forall|a: int, b: int|
                        0 <= a < new_entries.len() && 0 <= b < new_entries.len() && a != b implies #[trigger] new_entries[a].0@
                        != #[trigger] new_entries[b].0@ by {
                        if a != i {
                            assert(new_entries[a] == old_entries[a]);
                        }
                        if b != i {
                            assert(new_entries[b] == old_entries[b]);
                        }
                    }
                }
                self.entries = entries;
                Some(old_value)
            },
            None => {
                let ghost old_entries = entries@;
                let ghost k = key@;
                proof {
                    lemma_entries_map_dom(old_entries, k);
                }
                entries.push((key, value));
                assert(entries@.drop_last() =~= old_entries);
                assert forall|a: int, b: int|
                    0 <= a < entries@.len() && 0 <= b < entries@.len() && a != b implies #[trigger] entries@[a].0@
                    != #[trigger] entries@[b].0@ by {
                    if a < old_entries.len() && b < old_entries.len() {
                        assert(entries@[a] == old_entries[a]);
                        assert(entries@[b] == old_entries[b]);
                    } else if a < old_entries.len() {
                        assert(entries@[a] == old_entries[a]);
                    } else {
                        assert(entries@[b] == old_entries[b]);
                    }
                }
                self.entries = entries;
                None
            },
        }
    }
}

/// Reading a key after storing a value under it gives that value; other
/// keys keep what they held. `before` and `after` are a table before and
/// after `insert(key, value)`.
pub proof fn law_table_read_back<T>(before: Table<T>, after: Table<T>, key: Seq<char>, value: T, other: Seq<char>)
    requires
        after@ == before@.insert(key, value),
        other != key,
    ensures
        after@.dom().contains(key),
        after@[key] == value,
        after@.dom().contains(other) == before@.dom().contains(other),
        before@.dom().contains(other) ==> after@[other] == before@[other],
{
}

} // verus!
