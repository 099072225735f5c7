//! A verified expiring key-value table.
//!
//! Entries are kept in a vector with pairwise-distinct keys; the
//! abstraction is a map from key to `(value, expiry)`. An entry past its
//! expiry is invisible to [`ExpiringKv::get`] but may linger physically
//! until the same key is written again or removed.

use vstd::prelude::*;

verus! {

/// One stored binding.
pub struct KvPair<V> {
    pub key: String,
    pub value: V,
    pub expires_at: i64,
}

/// No two entries share a key.
pub open spec fn keys_unique<V>(s: Seq<KvPair<V>>) -> bool {
    forall|i: int, j: int| 0 <= i < j < s.len() ==> s[i].key@ != s[j].key@
}

/// The map denoted by a sequence of bindings; a later binding for the
/// same key shadows an earlier one.
pub open spec fn map_of<V>(s: Seq<KvPair<V>>) -> Map<Seq<char>, (V, int)>
    decreases s.len(),
{
    if s.len() == 0 {
        Map::empty()
    } else {
        map_of(s.drop_last()).insert(s.last().key@, (s.last().value, s.last().expires_at as int))
    }
}

/// Whether `m` binds `k` and the binding is still live at time `now`.
pub open spec fn live_at<V>(m: Map<Seq<char>, (V, int)>, k: Seq<char>, now: int) -> bool {
    m.contains_key(k) && now < m[k].1
}

proof fn lemma_map_of_contains<V>(s: Seq<KvPair<V>>, k: Seq<char>)
    ensures
        map_of(s).contains_key(k) <==> exists|i: int| 0 <= i < s.len() && s[i].key@ == k,
    decreases s.len(),
{
    if s.len() > 0 {
        lemma_map_of_contains(s.drop_last(), k);
        if map_of(s).contains_key(k) {
            if s.last().key@ == k {
                assert(s[s.len() - 1].key@ == k);
            } else {
                let i = choose|i: int| 0 <= i < s.drop_last().len() && s.drop_last()[i].key@ == k;
                assert(s[i].key@ == k);
            }
        }
        if exists|i: int| 0 <= i < s.len() && s[i].key@ == k {
            let i = choose|i: int| 0 <= i < s.len() && s[i].key@ == k;
            if i < s.len() - 1 {
                assert(s.drop_last()[i].key@ == k);
            }
        }
    }
}

proof fn lemma_map_of_index<V>(s: Seq<KvPair<V>>, i: int)
    requires
        keys_unique(s),
        0 <= i < s.len(),
    ensures
        map_of(s).contains_key(s[i].key@),
        map_of(s)[s[i].key@] == (s[i].value, s[i].expires_at as int),
    decreases s.len(),
{
    if i == s.len() - 1 {
    } else {
        lemma_map_of_index(s.drop_last(), i);
        assert(s.drop_last()[i] == s[i]);
        assert(s[i].key@ != s.last().key@);
    }
}

proof fn lemma_map_of_remove_at<V>(s: Seq<KvPair<V>>, i: int)
    requires
        keys_unique(s),
        0 <= i < s.len(),
    ensures
        map_of(s.remove(i)) =~= map_of(s).remove(s[i].key@),
        keys_unique(s.remove(i)),
    decreases s.len(),
{
    assert(keys_unique(s.remove(i))) by {
        assert forall|x: int, y: int| 0 <= x < y < s.remove(i).len() implies s.remove(i)[x].key@
            != s.remove(i)[y].key@ by {
            let sx = if x < i { x } else { x + 1 };
            let sy = if y < i { y } else { y + 1 };
            assert(s.remove(i)[x] == s[sx]);
            assert(s.remove(i)[y] == s[sy]);
        }
    }
    if i == s.len() - 1 {
        assert(s.remove(i) =~= s.drop_last());
        lemma_map_of_contains(s.drop_last(), s[i].key@);
        assert(map_of(s.drop_last()) =~= map_of(s).remove(s[i].key@));
    } else {
        lemma_map_of_remove_at(s.drop_last(), i);
        assert(s.remove(i).drop_last() =~= s.drop_last().remove(i));
        assert(s.remove(i).last() == s.last());
        assert(s[i].key@ != s.last().key@);
    }
}

/// A key-value table whose entries carry an expiry instant.
pub struct ExpiringKv<V> {
    entries: Vec<KvPair<V>>,
}

impl<V> View for ExpiringKv<V> {
    type V = Map<Seq<char>, (V, int)>;

    closed spec fn view(&self) -> Map<Seq<char>, (V, int)> {
        map_of(self.entries@)
    }
}

impl<V: Copy> ExpiringKv<V> {
    /// The keys of the physical entries are pairwise distinct.
    pub closed spec fn wf(&self) -> bool {
        keys_unique(self.entries@)
    }

    /// An empty table.
    pub fn new() -> (kv: Self)
        ensures
            kv.wf(),
            kv@ == Map::<Seq<char>, (V, int)>::empty(),
    {
        ExpiringKv { entries: Vec::new() }
    }

    /// The value bound to `key`, if the binding is live at `now`.
    pub fn get(&self, key: &str, now: i64) -> (r: Option<V>)
        requires
            self.wf(),
        ensures
            r == if live_at(self@, key@, now as int) {
                Some(self@[key@].0)
            } else {
                None::<V>
            },
    {
        let k = key.to_owned();
        let n = self.entries.len();
        let mut i: usize = 0;
        while i < n
            invariant
                i <= n,
                n == self.entries@.len(),
                self.wf(),
                k@ == key@,
                forall|j: int| 0 <= j < i ==> self.entries@[j].key@ != key@,
            decreases n - i,
        {
            if self.entries[i].key == k {
                proof {
                    lemma_map_of_index(self.entries@, i as int);
                }
                if now < self.entries[i].expires_at {
                    return Some(self.entries[i].value);
                } else {
                    return None;
                }
            }
            i = i + 1;
        }
        proof {
            lemma_map_of_contains(self.entries@, key@);
        }
        None
    }

    /// Bind `key` to `value` until `expires_at`, replacing any earlier
    /// binding, live or expired.
    pub fn put(&mut self, key: String, value: V, expires_at: i64)
        requires
            old(self).wf(),
        ensures
            final(self).wf(),
            final(self)@ == old(self)@.insert(key@, (value, expires_at as int)),
    {
        let mut i: usize = 0;
        let n = self.entries.len();
        let ghost orig = self.entries@;
        while i < n
            invariant
                i <= n,
                n == self.entries@.len(),
                self.entries@ == orig,
                old(self).entries@ == orig,
                keys_unique(orig),
                forall|j: int| 0 <= j < i ==> orig[j].key@ != key@,
            decreases n - i,
        {
            if self.entries[i].key == key {
                proof {
                    assert(orig[i as int].key@ == key@);
                    lemma_map_of_remove_at(orig, i as int);
                    lemma_map_of_contains(orig.remove(i as int), key@);
                }
                let ghost shrunk = orig.remove(i as int);
                self.entries.remove(i);
                self.entries.push(KvPair { key, value, expires_at });
                proof {
                    assert(forall|j: int| 0 <= j < shrunk.len() ==> shrunk[j].key@ != key@);
                    assert(self.entries@.drop_last() =~= shrunk);
                    assert(old(self)@ == map_of(orig));
                    assert(map_of(self.entries@) =~= map_of(orig).insert(
                        key@,
                        (value, expires_at as int),
                    ));
                    assert forall|x: int, y: int|
                        0 <= x < y < self.entries@.len() implies self.entries@[x].key@
                        != self.entries@[y].key@ by {
                        assert(self.entries@[x] == shrunk[x]);
                        if y < self.entries@.len() - 1 {
                            assert(self.entries@[y] == shrunk[y]);
                        }
                    }
                }
                return ;
            }
            i = i + 1;
        }
        proof {
            lemma_map_of_contains(orig, key@);
        }
        self.entries.push(KvPair { key, value, expires_at });
        proof {
            assert(self.entries@.drop_last() =~= orig);
            assert(map_of(self.entries@) =~= map_of(orig).insert(key@, (value, expires_at as int)));
            assert forall|x: int, y: int|
                0 <= x < y < self.entries@.len() implies self.entries@[x].key@
                != self.entries@[y].key@ by {
                assert(self.entries@[x] == orig[x]);
                if y < self.entries@.len() - 1 {
                    assert(self.entries@[y] == orig[y]);
                }
            }
        }
    }

    /// Drop whatever is bound to `key`; report whether a binding (live
    /// or expired) was there.
    pub fn remove(&mut self, key: &str) -> (was_bound: bool)
        requires
            old(self).wf(),
        ensures
            final(self).wf(),
            final(self)@ == old(self)@.remove(key@),
            was_bound == old(self)@.contains_key(key@),
    {
        let k = key.to_owned();
        let mut i: usize = 0;
        let n = self.entries.len();
        let ghost orig = self.entries@;
        while i < n
            invariant
                i <= n,
                n == self.entries@.len(),
                self.entries@ == orig,
                old(self).entries@ == orig,
                keys_unique(orig),
                k@ == key@,
                forall|j: int| 0 <= j < i ==> orig[j].key@ != key@,
            decreases n - i,
        {
            if self.entries[i].key == k {
                proof {
                    assert(orig[i as int].key@ == key@);
                    lemma_map_of_contains(orig, key@);
                    lemma_map_of_remove_at(orig, i as int);
                }
                self.entries.remove(i);
                proof {
                    assert(old(self)@ == map_of(orig));
                    assert(self@ =~= old(self)@.remove(key@));
                    assert(old(self)@.contains_key(key@));
                }
                return true;
            }
            i = i + 1;
        }
        proof {
            lemma_map_of_contains(orig, key@);
            assert(old(self)@.remove(key@) =~= old(self)@);
        }
        false
    }
}

} // verus!
