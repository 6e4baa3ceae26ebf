//! The in-process backend: a process-local table of byte entries under
//! string keys, modelled as a map from key characters to stored bytes.

use vstd::prelude::*;

use crate::value::CacheValue;
use crate::CacheError;
use crate::CacheTrait;

verus! {

/// The in-process storage backend. It keeps every entry in local memory;
/// lookups and writes never fail, and nothing survives the process.
pub struct InMemoryCache {
    entries: Vec<(String, Vec<u8>)>,
}

/// No two entries of the list carry the same key.
pub open spec fn keys_distinct(s: Seq<(String, Vec<u8>)>) -> bool {
    forall|i: int, j: int|
        0 <= i < j < s.len() ==> (#[trigger] s[i]).0@ != (#[trigger] s[j]).0@
}

/// The map that an entry list denotes; a later entry overrides an earlier
/// one with the same key.
pub open spec fn table_of(s: Seq<(String, Vec<u8>)>) -> Map<Seq<char>, Seq<u8>>
    decreases s.len(),
{
    if s.len() == 0 {
        Map::empty()
    } else {
        table_of(s.drop_last()).insert(s.last().0@, s.last().1@)
    }
}

/// Some entry of the list carries the key `k`.
pub open spec fn has_key(s: Seq<(String, Vec<u8>)>, k: Seq<char>) -> bool {
    exists|i: int| 0 <= i < s.len() && (#[trigger] s[i]).0@ == k
}

/// On a list with distinct keys, the denoted map holds exactly the listed
/// keys, each bound to its entry's bytes.
proof fn lemma_table_of(s: Seq<(String, Vec<u8>)>)
    requires
        keys_distinct(s),
    ensures
        forall|k: Seq<char>| #[trigger] table_of(s).contains_key(k) <==> has_key(s, k),
        forall|i: int| 0 <= i < s.len() ==> table_of(s)[(#[trigger] s[i]).0@] == s[i].1@,
    decreases s.len(),
{
    if s.len() > 0 {
        let pre = s.drop_last();
        assert(table_of(s) == table_of(pre).insert(s.last().0@, s.last().1@));
        assert(forall|x: int| 0 <= x < pre.len() ==> #[trigger] pre[x] == s[x]);
        assert(s.last() == s[s.len() - 1]);
        assert(keys_distinct(pre)) by {
            assert forall|i: int, j: int|
                0 <= i < j < pre.len() implies (#[trigger] pre[i]).0@ != (#[trigger] pre[j]).0@ by {
                assert(pre[i] == s[i]);
                assert(pre[j] == s[j]);
            }
        }
        lemma_table_of(pre);
        assert forall|k: Seq<char>| #[trigger] table_of(s).contains_key(k) implies has_key(s, k) by {
            if k == s.last().0@ {
                assert((#[trigger] s[s.len() - 1]).0@ == k);
            } else {
                let i = choose|i: int| 0 <= i < pre.len() && (#[trigger] pre[i]).0@ == k;
                assert((#[trigger] s[i]).0@ == k);
            }
        }
        assert forall|k: Seq<char>| has_key(s, k) implies #[trigger] table_of(s).contains_key(k) by {
            let i = choose|i: int| 0 <= i < s.len() && (#[trigger] s[i]).0@ == k;
            if i < s.len() - 1 {
                assert((#[trigger] pre[i]).0@ == k);
            }
        }
        assert forall|i: int| 0 <= i < s.len() implies table_of(s)[(#[trigger] s[i]).0@] == s[i].1@ by {
            if i < s.len() - 1 {
                assert(pre[i] == s[i]);
                assert(s[i].0@ != s.last().0@);
                assert(table_of(pre)[pre[i].0@] == pre[i].1@);
            }
        }
    }
}

/// Replacing the bytes of the entry that carries a key updates the denoted
/// map at that key and keeps the keys distinct.
proof fn lemma_table_of_update(s: Seq<(String, Vec<u8>)>, i: int, p: (String, Vec<u8>))
    requires
        keys_distinct(s),
        0 <= i < s.len(),
        p.0@ == s[i].0@,
    ensures
        keys_distinct(s.update(i, p)),
        table_of(s.update(i, p)) == table_of(s).insert(p.0@, p.1@),
{
    let t = s.update(i, p);
    assert forall|a: int, b: int|
        0 <= a < b < t.len() implies (#[trigger] t[a]).0@ != (#[trigger] t[b]).0@ by {
        assert(t[a].0@ == s[a].0@);
        assert(t[b].0@ == s[b].0@);
    }
    lemma_table_of(s);
    lemma_table_of(t);
    let m1 = table_of(t);
    let m2 = table_of(s).insert(p.0@, p.1@);
    assert forall|k: Seq<char>| #[trigger] m1.contains_key(k) implies m2.contains_key(k) by {
        let j = choose|j: int| 0 <= j < t.len() && (#[trigger] t[j]).0@ == k;
        assert((#[trigger] s[j]).0@ == k);
    }
    assert forall|k: Seq<char>| #[trigger] m2.contains_key(k) implies m1.contains_key(k) by {
        if k == p.0@ {
            assert((#[trigger] t[i]).0@ == k);
        } else {
            let j = choose|j: int| 0 <= j < s.len() && (#[trigger] s[j]).0@ == k;
            assert((#[trigger] t[j]).0@ == k);
        }
    }
    assert forall|k: Seq<char>| #[trigger] m1.contains_key(k) implies m1[k] == m2[k] by {
        if k == p.0@ {
            assert((#[trigger] t[i]).0@ == k);
            assert(m1[k] == t[i].1@);
        } else {
            let j = choose|j: int| 0 <= j < t.len() && (#[trigger] t[j]).0@ == k;
            assert(j != i);
            assert(t[j] == s[j]);
            assert(m1[t[j].0@] == t[j].1@);
            assert(m2[k] == table_of(s)[k]);
            assert(table_of(s)[(#[trigger] s[j]).0@] == s[j].1@);
        }
    }
    assert(m1 =~= m2);
}

/// Removing the entry that carries a key removes exactly that key from the
/// denoted map and keeps the keys distinct.
proof fn lemma_table_of_remove(s: Seq<(String, Vec<u8>)>, i: int)
    requires
        keys_distinct(s),
        0 <= i < s.len(),
    ensures
        keys_distinct(s.remove(i)),
        table_of(s.remove(i)) == table_of(s).remove(s[i].0@),
{
    let t = s.remove(i);
    assert forall|a: int, b: int|
        0 <= a < b < t.len() implies (#[trigger] t[a]).0@ != (#[trigger] t[b]).0@ by {
        let a0 = if a < i { a } else { a + 1 };
        let b0 = if b < i { b } else { b + 1 };
        assert(t[a] == s[a0]);
        assert(t[b] == s[b0]);
    }
    lemma_table_of(s);
    lemma_table_of(t);
    let m1 = table_of(t);
    let m2 = table_of(s).remove(s[i].0@);
    assert forall|k: Seq<char>| #[trigger] m1.contains_key(k) implies m2.contains_key(k) && m1[k] == m2[k] by {
        let j = choose|j: int| 0 <= j < t.len() && (#[trigger] t[j]).0@ == k;
        let j0 = if j < i { j } else { j + 1 };
        assert(t[j] == s[j0]);
        assert((#[trigger] s[j0]).0@ == k);
        assert(k != s[i].0@);
        assert(m1[t[j].0@] == t[j].1@);
        assert(table_of(s)[s[j0].0@] == s[j0].1@);
    }
    assert forall|k: Seq<char>| #[trigger] m2.contains_key(k) implies m1.contains_key(k) by {
        let j = choose|j: int| 0 <= j < s.len() && (#[trigger] s[j]).0@ == k;
        assert(j != i);
        let j1 = if j < i { j } else { j - 1 };
        assert(t[j1] == s[j]);
        assert((#[trigger] t[j1]).0@ == k);
    }
    assert(m1 =~= m2);
}

impl View for InMemoryCache {
    type V = Map<Seq<char>, Seq<u8>>;

    closed spec fn view(&self) -> Map<Seq<char>, Seq<u8>> {
        table_of(self.entries@)
    }
}

impl InMemoryCache {
    /// Well-formedness: no two entries carry the same key. Constructors
    /// establish it and every method preserves it.
    pub closed spec fn well_formed(&self) -> bool {
        keys_distinct(self.entries@)
    }

    /// A fresh, empty in-process table.
    pub fn new() -> (c: InMemoryCache)
        ensures
            c.well_formed(),
            c@ == Map::<Seq<char>, Seq<u8>>::empty(),
    {
        InMemoryCache { entries: Vec::new() }
    }

    /// The index of the entry that carries `key`, if one does.
    fn find(&self, key: &String) -> (r: Option<usize>)
        ensures
            match r {
                Some(i) => i < self.entries@.len() && self.entries@[i as int].0@ == key@,
                None => !has_key(self.entries@, key@),
            },
    {
        let n = self.entries.len();
        let mut i: usize = 0;
        while i < n
            invariant
                i <= n,
                n == self.entries@.len(),
                forall|j: int| 0 <= j < i ==> (#[trigger] self.entries@[j]).0@ != key@,
            decreases n - i,
        {
            if self.entries[i].0 == *key {
                return Some(i);
            }
            i += 1;
        }
        None
    }

    /// The stored bytes under `key`, if the key is present.
    pub fn get_bytes(&self, key: &str) -> (r: Option<&Vec<u8>>)
        requires
            self.well_formed(),
        ensures
            match r {
                Some(b) => self@.contains_key(key@) && self@[key@] == b@,
                None => !self@.contains_key(key@),
            },
    {
        proof {
            lemma_table_of(self.entries@);
        }
        let owned: String = key.to_owned();
        match self.find(&owned) {
            Some(i) => {
                proof {
                    assert(has_key(self.entries@, key@));
                }
                Some(&self.entries[i].1)
            },
            None => None,
        }
    }

    /// Stores `bytes` under `key`, overwriting any prior entry.
    pub fn insert_bytes(&mut self, key: &str, bytes: Vec<u8>)
        requires
            old(self).well_formed(),
        ensures
            final(self).well_formed(),
            final(self)@ == old(self)@.insert(key@, bytes@),
    {
        let owned: String = key.to_owned();
        let ghost s0 = self.entries@;
        match self.find(&owned) {
            Some(i) => {
                let ghost p = (owned, bytes);
                self.entries.set(i, (owned, bytes));
                proof {
                    lemma_table_of_update(s0, i as int, p);
                }
            },
            None => {
                self.entries.push((owned, bytes));
                proof {
                    let s1 = self.entries@;
                    assert(s1.drop_last() =~= s0);
                    assert forall|a: int, b: int|
                        0 <= a < b < s1.len() implies (#[trigger] s1[a]).0@ != (#[trigger] s1[b]).0@ by {
                        if b < s1.len() - 1 {
                            assert(s1[a] == s0[a]);
                            assert(s1[b] == s0[b]);
                        } else {
                            assert(s1[a] == s0[a]);
                            assert(!has_key(s0, key@));
                            assert((#[trigger] s0[a]).0@ != key@);
                        }
                    }
                }
            },
        }
    }

    /// Deletes any entry under `key`; the key may be absent.
    pub fn remove_bytes(&mut self, key: &str)
        requires
            old(self).well_formed(),
        ensures
            final(self).well_formed(),
            final(self)@ == old(self)@.remove(key@),
    {
        let owned: String = key.to_owned();
        let ghost s0 = self.entries@;
        match self.find(&owned) {
            Some(i) => {
                self.entries.remove(i);
                proof {
                    lemma_table_of_remove(s0, i as int);
                }
            },
            None => {
                proof {
                    lemma_table_of(s0);
                    assert(table_of(s0).remove(key@) =~= table_of(s0));
                }
            },
        }
    }
}

impl CacheTrait for InMemoryCache {
    open spec fn wf(&self) -> bool {
        self.well_formed()
    }

    open spec fn table(&self) -> Option<Map<Seq<char>, Seq<u8>>> {
        Some(self@)
    }

    fn get<T: CacheValue>(&mut self, key: &str) -> (r: Result<Option<T>, CacheError>) {
        proof {
            lemma_table_of(self.entries@);
        }
        let owned: String = key.to_owned();
        match self.find(&owned) {
            Some(i) => {
                proof {
                    assert(has_key(self.entries@, key@));
                }
                match T::decode(&self.entries[i].1) {
                    Ok(v) => Ok(Some(v)),
                    Err(e) => Err(e),
                }
            },
            None => Ok(None),
        }
    }

    fn insert<T: CacheValue>(&mut self, key: &str, value: T) -> (r: Result<(), CacheError>) {
        match value.encode() {
            Ok(b) => {
                self.insert_bytes(key, b);
                Ok(())
            },
            Err(e) => Err(e),
        }
    }

    fn remove(&mut self, key: &str) -> (r: Result<(), CacheError>) {
        self.remove_bytes(key);
        Ok(())
    }
}

} // verus!
