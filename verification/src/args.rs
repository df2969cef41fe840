//! The map from argument names to values that an attribute's arguments give.

use vstd::prelude::*;

verus! {

/// Whether no two entries share a name.
pub open spec fn keys_distinct(s: Seq<(String, String)>) -> bool {
    forall|i: int, j: int|
        0 <= i < s.len() && 0 <= j < s.len() && i != j ==> #[trigger] s[i].0@ != #[trigger] s[j].0@
}

/// Whether entry `i` is named `k`.
pub open spec fn has_key_at(s: Seq<(String, String)>, k: Seq<char>, i: int) -> bool {
    0 <= i < s.len() && s[i].0@ == k
}

/// A list of entries read as a map from names to values.
pub open spec fn entries_map(s: Seq<(String, String)>) -> Map<Seq<char>, Seq<char>> {
    Map::new(
        |k: Seq<char>| exists|i: int| has_key_at(s, k, i),
        |k: Seq<char>| s[choose|i: int| has_key_at(s, k, i)].1@,
    )
}

proof fn lemma_entries_lookup(s: Seq<(String, String)>, i: int)
    requires
        keys_distinct(s),
        0 <= i < s.len(),
    ensures
        entries_map(s).contains_key(s[i].0@),
        entries_map(s)[s[i].0@] == s[i].1@,
{
    let k = s[i].0@;
    assert(has_key_at(s, k, i));
    let j = choose|j: int| has_key_at(s, k, j);
    if i != j {
        assert(s[i].0@ != s[j].0@);
    }
}

proof fn lemma_entries_update(s: Seq<(String, String)>, i: int, kv: (String, String))
    requires
        keys_distinct(s),
        0 <= i < s.len(),
        s[i].0@ == kv.0@,
    ensures
        keys_distinct(s.update(i, kv)),
        entries_map(s.update(i, kv)) == entries_map(s).insert(kv.0@, kv.1@),
{
    let t = s.update(i, kv);
    assert forall|a: int, b: int| 0 <= a < t.len() && 0 <= b < t.len() && a != b implies
        #[trigger] t[a].0@ != #[trigger] t[b].0@ by {
        assert(s[a].0@ != s[b].0@);
    }
    let m = entries_map(s).insert(kv.0@, kv.1@);
    assert forall|k: Seq<char>| #[trigger] entries_map(t).contains_key(k) <==> m.contains_key(k) by {
        if entries_map(t).contains_key(k) {
            let j = choose|j: int| has_key_at(t, k, j);
            if j != i {
                assert(has_key_at(s, k, j));
            }
        }
        if entries_map(s).contains_key(k) {
            let j = choose|j: int| has_key_at(s, k, j);
            assert(has_key_at(t, k, j));
        }
        if k == kv.0@ {
            assert(has_key_at(t, k, i));
        }
    }
    assert forall|k: Seq<char>| #[trigger] entries_map(t).contains_key(k) implies entries_map(t)[k]
        == m[k] by {
        let j = choose|j: int| has_key_at(t, k, j);
        lemma_entries_lookup(t, j);
        if j != i {
            lemma_entries_lookup(s, j);
        }
    }
    assert(entries_map(t) =~= m);
}

proof fn lemma_entries_push(s: Seq<(String, String)>, kv: (String, String))
    requires
        keys_distinct(s),
        !entries_map(s).contains_key(kv.0@),
    ensures
        keys_distinct(s.push(kv)),
        entries_map(s.push(kv)) == entries_map(s).insert(kv.0@, kv.1@),
{
    let t = s.push(kv);
    let n = s.len() as int;
    assert forall|a: int, b: int| 0 <= a < t.len() && 0 <= b < t.len() && a != b implies
        #[trigger] t[a].0@ != #[trigger] t[b].0@ by {
        if a < n && b < n {
            assert(s[a].0@ != s[b].0@);
        } else if a < n {
            assert(has_key_at(s, s[a].0@, a));
        } else {
            assert(has_key_at(s, s[b].0@, b));
        }
    }
    let m = entries_map(s).insert(kv.0@, kv.1@);
    assert forall|k: Seq<char>| #[trigger] entries_map(t).contains_key(k) <==> m.contains_key(k) by {
        if entries_map(t).contains_key(k) {
            let j = choose|j: int| has_key_at(t, k, j);
            if j < n {
                assert(has_key_at(s, k, j));
            }
        }
        if entries_map(s).contains_key(k) {
            let j = choose|j: int| has_key_at(s, k, j);
            assert(has_key_at(t, k, j));
        }
        if k == kv.0@ {
            assert(has_key_at(t, k, n));
        }
    }
    assert forall|k: Seq<char>| #[trigger] entries_map(t).contains_key(k) implies entries_map(t)[k]
        == m[k] by {
        let j = choose|j: int| has_key_at(t, k, j);
        lemma_entries_lookup(t, j);
        if j < n {
            lemma_entries_lookup(s, j);
        }
    }
    assert(entries_map(t) =~= m);
}

/// A map from argument names to string values, kept as a list of entries
/// whose names are all different.
pub struct ArgMap {
    entries: Vec<(String, String)>,
}

impl View for ArgMap {
    type V = Map<Seq<char>, Seq<char>>;

    /// The entries as a map from names to values.
    closed spec fn view(&self) -> Map<Seq<char>, Seq<char>> {
        entries_map(self.entries@)
    }
}

impl ArgMap {
    #[verifier::type_invariant]
    spec fn inv(self) -> bool {
        keys_distinct(self.entries@)
    }

    /// An empty map.
    pub fn new() -> (res: ArgMap)
        ensures
            res.view() == Map::<Seq<char>, Seq<char>>::empty(),
    {
        let res = ArgMap { entries: Vec::new() };
        assert(res.view() =~= Map::<Seq<char>, Seq<char>>::empty());
        res
    }

    /// The index of the entry named `key`, if there is one.
    fn find(&self, key: &str) -> (res: Option<usize>)
        ensures
            match res {
                Some(i) => has_key_at(self.entries@, key@, i as int),
                None => !self.view().contains_key(key@),
            },
    {
        let n = self.entries.len();
        let mut i: usize = 0;
        while i < n
            invariant
                n == self.entries.len(),
                i <= n,
                forall|j: int| 0 <= j < i ==> self.entries@[j].0@ != key@,
            decreases n - i,
        {
            if crate::text::str_eq(self.entries[i].0.as_str(), key) {
                return Some(i);
            }
            i = i + 1;
        }
        proof {
            if self.view().contains_key(key@) {
                let j = choose|j: int| has_key_at(self.entries@, key@, j);
                assert(self.entries@[j].0@ != key@);
            }
        }
        None
    }

    /// Sets the value of `key` to `value`, replacing the value it had.
    pub fn insert(&mut self, key: String, value: String)
        ensures
            final(self).view() == old(self).view().insert(key@, value@),
    {
        proof {
            use_type_invariant(&*self);
        }
        let found = self.find(key.as_str());
        let mut entries: Vec<(String, String)> = Vec::new();
        std::mem::swap(&mut entries, &mut self.entries);
        let ghost before = entries@;
        let ghost kv = (key, value);
        match found {
            Some(i) => {
                entries.set(i, (key, value));
                proof {
                    lemma_entries_update(before, i as int, kv);
                }
            },
            None => {
                entries.push((key, value));
                proof {
                    lemma_entries_push(before, kv);
                }
            },
        }
        self.entries = entries;
    }

    /// The value of `key`, if the map has one.
    pub fn get(&self, key: &str) -> (res: Option<&String>)
        ensures
            match res {
                Some(v) => self.view().contains_key(key@) && self.view()[key@] == v@,
                None => !self.view().contains_key(key@),
            },
    {
        proof {
            use_type_invariant(self);
        }
        match self.find(key) {
            Some(i) => {
                proof {
                    lemma_entries_lookup(self.entries@, i as int);
                }
                Some(&self.entries[i].1)
            },
            None => None,
        }
    }

    /// Whether the map has a value for `key`.
    pub fn contains_key(&self, key: &str) -> (res: bool)
        ensures
            res == self.view().contains_key(key@),
    {
        proof {
            use_type_invariant(self);
        }
        match self.find(key) {
            Some(i) => {
                proof {
                    lemma_entries_lookup(self.entries@, i as int);
                }
                true
            },
            None => false,
        }
    }
}

} // verus!
