//! The in-memory key-value store: an association list with unique keys,
//! viewed as a `Map<Seq<char>, Seq<char>>`.

use vstd::prelude::*;

verus! {

/// No two entries share a key.
spec fn keys_unique(s: Seq<(String, String)>) -> bool {
    forall|i: int, j: int| 0 <= i < j < s.len() ==> s[i].0@ != s[j].0@
}

/// The map an association list denotes; later entries win, though with
/// unique keys the order never matters.
spec fn map_of(s: Seq<(String, String)>) -> Map<Seq<char>, Seq<char>>
    decreases s.len(),
{
    if s.len() == 0 {
        Map::empty()
    } else {
        map_of(s.drop_last()).insert(s.last().0@, s.last().1@)
    }
}

/// The map contains exactly the keys of the list.
proof fn lemma_map_of_contains(s: Seq<(String, String)>, k: Seq<char>)
    ensures
        map_of(s).contains_key(k) <==> exists|i: int| 0 <= i < s.len() && #[trigger] s[i].0@ == k,
    decreases s.len(),
{
    if s.len() > 0 {
        lemma_map_of_contains(s.drop_last(), k);
        if s.last().0@ == k {
            assert(s[s.len() - 1].0@ == k);
        } else if map_of(s).contains_key(k) {
            let i = choose|i: int| 0 <= i < s.len() - 1 && #[trigger] s.drop_last()[i].0@ == k;
            assert(s[i].0@ == k);
        } else {
            assert forall|i: int| 0 <= i < s.len() implies #[trigger] s[i].0@ != k by {
                if i < s.len() - 1 {
                    assert(s.drop_last()[i].0@ == s[i].0@);
                }
            }
        }
    }
}

/// With unique keys, each entry's key maps to that entry's value.
proof fn lemma_map_of_index(s: Seq<(String, String)>, i: int)
    requires
        keys_unique(s),
        0 <= i < s.len(),
    ensures
        map_of(s).contains_key(s[i].0@),
        map_of(s)[s[i].0@] == s[i].1@,
    decreases s.len(),
{
    if i == s.len() - 1 {
    } else {
        assert(s.drop_last()[i] == s[i]);
        lemma_map_of_index(s.drop_last(), i);
        assert(s[i].0@ != s.last().0@);
    }
}

/// Removing the entry at `i` removes exactly its key from the map.
proof fn lemma_map_of_remove(s: Seq<(String, String)>, i: int)
    requires
        keys_unique(s),
        0 <= i < s.len(),
    ensures
        map_of(s.remove(i)) == map_of(s).remove(s[i].0@),
    decreases s.len(),
{
    let k = s[i].0@;
    if i == s.len() - 1 {
        assert(s.remove(i) =~= s.drop_last());
        lemma_map_of_contains(s.drop_last(), k);
        assert forall|j: int| 0 <= j < s.len() - 1 implies #[trigger] s.drop_last()[j].0@ != k by {
            assert(s.drop_last()[j] == s[j]);
        }
        assert(!map_of(s.drop_last()).contains_key(k));
        assert(map_of(s.drop_last()).insert(k, s.last().1@).remove(k) =~= map_of(s.drop_last()));
    } else {
        let d = s.drop_last();
        assert(d[i] == s[i]);
        lemma_map_of_remove(d, i);
        assert(s.remove(i).drop_last() =~= d.remove(i));
        assert(s.remove(i).last() == s.last());
        assert(map_of(s.remove(i)) == map_of(d.remove(i)).insert(s.last().0@, s.last().1@));
        assert(s.last().0@ != k);
        assert(map_of(d).remove(k).insert(s.last().0@, s.last().1@) =~= map_of(d).insert(
            s.last().0@,
            s.last().1@,
        ).remove(k));
    }
}

/// Appending an entry inserts its key.
proof fn lemma_map_of_push(s: Seq<(String, String)>, p: (String, String))
    ensures
        map_of(s.push(p)) == map_of(s).insert(p.0@, p.1@),
{
    assert(s.push(p).drop_last() =~= s);
    assert(s.push(p).last() == p);
}

/// The in-memory mapping from string keys to string values. Created empty;
/// mutated only by [`Store::set`] and [`Store::delete`]; the last `SET` for a
/// key wins.
pub struct Store {
    pairs: Vec<(String, String)>,
}

impl View for Store {
    type V = Map<Seq<char>, Seq<char>>;

    closed spec fn view(&self) -> Map<Seq<char>, Seq<char>> {
        map_of(self.pairs@)
    }
}

impl Store {
    #[verifier::type_invariant]
    spec fn wf(self) -> bool {
        keys_unique(self.pairs@)
    }

    /// Creates an empty store.
    pub fn new() -> (s: Store)
        ensures
            s@ == Map::<Seq<char>, Seq<char>>::empty(),
    {
        Store { pairs: Vec::new() }
    }

    /// Index of the entry holding `key`, if any.
    fn find(&self, key: &String) -> (r: Option<usize>)
        ensures
            match r {
                Some(i) => i < self.pairs@.len() && self.pairs@[i as int].0@ == key@,
                None => forall|i: int| 0 <= i < self.pairs@.len() ==> self.pairs@[i].0@ != key@,
            },
    {
        let mut i: usize = 0;
        while i < self.pairs.len()
            invariant
                i <= self.pairs@.len(),
                forall|k: int| 0 <= k < i ==> self.pairs@[k].0@ != key@,
            decreases self.pairs@.len() - i,
        {
            if self.pairs[i].0 == *key {
                return Some(i);
            }
            i += 1;
        }
        None
    }

    /// Looks a key up; `Some` exactly when the key is set, with its value.
    pub fn get(&self, key: &String) -> (r: Option<String>)
        ensures
            match r {
                Some(v) => self@.contains_key(key@) && v@ == self@[key@],
                None => !self@.contains_key(key@),
            },
    {
        proof {
            use_type_invariant(&*self);
            lemma_map_of_contains(self.pairs@, key@);
        }
        match self.find(key) {
            Some(i) => {
                proof {
                    lemma_map_of_index(self.pairs@, i as int);
                }
                Some(self.pairs[i].1.clone())
            },
            None => None,
        }
    }

    /// Binds `key` to `value`, overwriting any earlier binding; returns the
    /// value the key held before, if any.
    pub fn set(&mut self, key: String, value: String) -> (prev: Option<String>)
        ensures
            final(self)@ == old(self)@.insert(key@, value@),
            match prev {
                Some(v) => old(self)@.contains_key(key@) && v@ == old(self)@[key@],
                None => !old(self)@.contains_key(key@),
            },
    {
        proof {
            use_type_invariant(&*self);
            lemma_map_of_contains(self.pairs@, key@);
        }
        let found = self.find(&key);
        let mut pairs: Vec<(String, String)> = Vec::new();
        core::mem::swap(&mut pairs, &mut self.pairs);
        let ghost orig = pairs@;
        let prev: Option<String>;
        match found {
            Some(i) => {
                proof {
                    lemma_map_of_index(orig, i as int);
                }
                let entry = pairs.remove(i);
                prev = Some(entry.1);
                proof {
                    lemma_map_of_remove(orig, i as int);
                    assert forall|a: int, b: int|
                        0 <= a < b < orig.remove(i as int).len() implies #[trigger] orig.remove(
                        i as int,
                    )[a].0@ != #[trigger] orig.remove(i as int)[b].0@ by {
                        let fix = |x: int| if x < i { x } else { x + 1 };
                        assert(orig.remove(i as int)[a] == orig[fix(a)]);
                        assert(orig.remove(i as int)[b] == orig[fix(b)]);
                    }
                }
            },
            None => {
                prev = None;
            },
        }
        let ghost trimmed = pairs@;
        pairs.push((key, value));
        proof {
            lemma_map_of_push(trimmed, (key, value));
            assert forall|j: int| 0 <= j < trimmed.len() implies #[trigger] trimmed[j].0@ != key@
            by {
                match found {
                    Some(i) => {
                        let fix = |x: int| if x < i { x } else { x + 1 };
                        assert(trimmed[j] == orig[fix(j)]);
                    },
                    None => {
                        assert(trimmed[j] == orig[j]);
                    },
                }
            }
            assert(keys_unique(pairs@)) by {
                assert(forall|j: int|
                    0 <= j < pairs@.len() - 1 ==> #[trigger] pairs@[j] == trimmed[j]);
            }
            match found {
                Some(i) => {
                    assert(map_of(pairs@) == map_of(orig).remove(key@).insert(key@, value@));
                    assert(map_of(orig).remove(key@).insert(key@, value@) =~= map_of(orig).insert(
                        key@,
                        value@,
                    ));
                },
                None => {},
            }
        }
        core::mem::swap(&mut pairs, &mut self.pairs);
        prev
    }

    /// Unbinds `key`; `true` exactly when the key was set.
    pub fn delete(&mut self, key: &String) -> (existed: bool)
        ensures
            final(self)@ == old(self)@.remove(key@),
            existed == old(self)@.contains_key(key@),
    {
        proof {
            use_type_invariant(&*self);
            lemma_map_of_contains(self.pairs@, key@);
        }
        let found = self.find(key);
        match found {
            Some(i) => {
                proof {
                    lemma_map_of_index(self.pairs@, i as int);
                    lemma_map_of_remove(self.pairs@, i as int);
                }
                let mut pairs: Vec<(String, String)> = Vec::new();
                core::mem::swap(&mut pairs, &mut self.pairs);
                let ghost orig = pairs@;
                pairs.remove(i);
                proof {
                    assert forall|a: int, b: int|
                        0 <= a < b < orig.remove(i as int).len() implies #[trigger] orig.remove(
                        i as int,
                    )[a].0@ != #[trigger] orig.remove(i as int)[b].0@ by {
                        let fix = |x: int| if x < i { x } else { x + 1 };
                        assert(orig.remove(i as int)[a] == orig[fix(a)]);
                        assert(orig.remove(i as int)[b] == orig[fix(b)]);
                    }
                }
                core::mem::swap(&mut pairs, &mut self.pairs);
                true
            },
            None => {
                proof {
                    assert(self@.remove(key@) =~= self@);
                }
                false
            },
        }
    }
}

} // verus!
