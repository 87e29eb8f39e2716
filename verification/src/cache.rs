//! The cache-aside coordinator: a table from key to a shared value and
//! its expiry instant. Time is passed in explicitly; an entry is live
//! while `now` is strictly before its expiry. Expired entries are left
//! for lazy replacement. On a miss the fetched value is stored under
//! `now + ttl`; a failed fetch stores nothing.
use std::sync::Arc;
use vstd::prelude::*;

use crate::text::str_eq;

verus! {

/// Is `k` mapped to an unexpired entry at time `now`?
pub open spec fn live<V>(m: Map<Seq<char>, (V, u64)>, k: Seq<char>, now: u64) -> bool {
    m.contains_key(k) && now < m[k].1
}

/// One stored entry: the key, a shared handle to the immutable value,
/// and the instant the entry expires.
pub struct CacheEntry<V> {
    pub key: String,
    pub value: Arc<V>,
    pub expires_at: u64,
}

/// No key occurs twice.
pub open spec fn unique_keys<V>(s: Seq<CacheEntry<V>>) -> bool {
    forall|i: int, j: int| 0 <= i < j < s.len() ==> s[i].key@ != s[j].key@
}

/// The mapping an entry sequence represents.
pub open spec fn map_of<V>(s: Seq<CacheEntry<V>>) -> Map<Seq<char>, (V, u64)>
    decreases s.len(),
{
    if s.len() == 0 {
        Map::empty()
    } else {
        map_of(s.drop_last()).insert(s.last().key@, (*s.last().value, s.last().expires_at))
    }
}

proof fn lemma_map_of_contains<V>(s: Seq<CacheEntry<V>>, k: Seq<char>)
    ensures
        map_of(s).contains_key(k) <==> exists|i: int| 0 <= i < s.len() && s[i].key@ == k,
    decreases s.len(),
{
    if s.len() > 0 {
        lemma_map_of_contains(s.drop_last(), k);
        if map_of(s).contains_key(k) {
            if s.last().key@ == k {
                assert(s[s.len() - 1].key@ == k);
            } else {
                let i = choose|i: int| 0 <= i < s.drop_last().len() && s.drop_last()[i].key@ == k;
                assert(s[i].key@ == k);
            }
        }
        if exists|i: int| 0 <= i < s.len() && s[i].key@ == k {
            let i = choose|i: int| 0 <= i < s.len() && s[i].key@ == k;
            if i < s.len() - 1 {
                assert(s.drop_last()[i].key@ == k);
            }
        }
    }
}

proof fn lemma_map_of_at<V>(s: Seq<CacheEntry<V>>, i: int)
    requires
        unique_keys(s),
        0 <= i < s.len(),
    ensures
        map_of(s).contains_key(s[i].key@),
        map_of(s)[s[i].key@] == (*s[i].value, s[i].expires_at),
    decreases s.len(),
{
    if i == s.len() - 1 {
    } else {
        assert(unique_keys(s.drop_last()));
        assert(s.drop_last()[i] == s[i]);
        lemma_map_of_at(s.drop_last(), i);
        assert(s[i].key@ != s.last().key@);
    }
}

proof fn lemma_remove_frame<V>(s: Seq<CacheEntry<V>>, i: int)
    requires
        0 <= i < s.len(),
    ensures
        s.remove(i).len() == s.len() - 1,
        forall|j: int|
            0 <= j < s.len() - 1 ==> s.remove(i)[j] == (if j < i {
                s[j]
            } else {
                s[j + 1]
            }),
{
}

proof fn lemma_map_of_remove<V>(s: Seq<CacheEntry<V>>, i: int)
    requires
        unique_keys(s),
        0 <= i < s.len(),
    ensures
        map_of(s.remove(i)) =~= map_of(s).remove(s[i].key@),
    decreases s.len(),
{
    let k = s[i].key@;
    if i == s.len() - 1 {
        assert(s.remove(i) =~= s.drop_last());
        assert(unique_keys(s.drop_last()));
        lemma_map_of_contains(s.drop_last(), k);
        assert(!map_of(s.drop_last()).contains_key(k));
        assert(map_of(s).remove(k) =~= map_of(s.drop_last()));
    } else {
        assert(s.remove(i).last() == s.last());
        assert(s.remove(i).drop_last() =~= s.drop_last().remove(i));
        assert(unique_keys(s.drop_last()));
        assert(s.drop_last()[i] == s[i]);
        lemma_map_of_remove(s.drop_last(), i);
        assert(s[i].key@ != s.last().key@);
        assert(map_of(s.remove(i)) =~= map_of(s).remove(k));
    }
}

/// The coordinator's table. Callers hold only the returned shared
/// handles, never references into the table itself.
pub struct CacheTable<V> {
    entries: Vec<CacheEntry<V>>,
}

impl<V> CacheTable<V> {
    /// Keys are unique, so the mapping below is faithful.
    pub closed spec fn wf(self) -> bool {
        unique_keys(self.entries@)
    }

    /// The mapping this table holds: key to value and expiry.
    pub closed spec fn contents(self) -> Map<Seq<char>, (V, u64)> {
        map_of(self.entries@)
    }

    /// An empty table.
    pub fn new() -> (r: CacheTable<V>)
        ensures
            r.wf(),
            r.contents() == Map::<Seq<char>, (V, u64)>::empty(),
    {
        CacheTable { entries: Vec::new() }
    }

    fn find_idx(&self, key: &str) -> (r: Option<usize>)
        ensures
            match r {
                Some(i) => i < self.entries@.len() && self.entries@[i as int].key@ == key@,
                None => forall|i: int|
                    0 <= i < self.entries@.len() ==> self.entries@[i].key@ != key@,
            },
    {
        let mut i: usize = 0;
        while i < self.entries.len()
            invariant
                0 <= i <= self.entries@.len(),
                forall|j: int| 0 <= j < i ==> self.entries@[j].key@ != key@,
            decreases self.entries@.len() - i,
        {
            if str_eq(self.entries[i].key.as_str(), key) {
                return Some(i);
            }
            i += 1;
        }
        None
    }

    /// Looks `key` up at time `now`: a handle to the stored value
    /// exactly when a live entry exists, and nothing otherwise.
    pub fn lookup(&self, key: &str, now: u64) -> (r: Option<Arc<V>>)
        requires
            self.wf(),
        ensures
            r is Some <==> live(self.contents(), key@, now),
            r matches Some(h) ==> *h == self.contents()[key@].0,
    {
        match self.find_idx(key) {
            Some(i) => {
                proof {
                    lemma_map_of_at(self.entries@, i as int);
                }
                let e = &self.entries[i];
                if now < e.expires_at {
                    Some(e.value.clone())
                } else {
                    None
                }
            },
            None => {
                proof {
                    lemma_map_of_contains(self.entries@, key@);
                }
                None
            },
        }
    }

    /// Stores `value` under `key` with expiry `now + ttl`, replacing
    /// any earlier entry for the key, and hands back a shared handle.
    pub fn store(&mut self, key: &str, value: V, now: u64, ttl: u64) -> (r: Arc<V>)
        requires
            old(self).wf(),
            now + ttl <= u64::MAX,
        ensures
            final(self).wf(),
            final(self).contents() == old(self).contents().insert(
                key@,
                (*r, (now + ttl) as u64),
            ),
            *r == value,
    {
        let h = Arc::new(value);
        let ghost m0 = self.contents();
        match self.find_idx(key) {
            Some(i) => {
                proof {
                    lemma_map_of_remove(self.entries@, i as int);
                    lemma_remove_frame(self.entries@, i as int);
                }
                self.entries.remove(i);
                proof {
                    assert(unique_keys(self.entries@));
                    assert(forall|j: int|
                        0 <= j < self.entries@.len() ==> self.entries@[j].key@ != key@);
                    assert(map_of(self.entries@) =~= m0.remove(key@));
                }
            },
            None => {
                proof {
                    lemma_map_of_contains(self.entries@, key@);
                    assert(!m0.contains_key(key@));
                    assert(map_of(self.entries@) =~= m0.remove(key@));
                }
            },
        }
        let ghost s1 = self.entries@;
        let entry = CacheEntry {
            key: String::from_str(key),
            value: h.clone(),
            expires_at: now + ttl,
        };
        self.entries.push(entry);
        proof {
            let s2 = self.entries@;
            assert(s2.drop_last() =~= s1);
            assert(map_of(s2) == map_of(s1).insert(key@, (*entry.value, entry.expires_at)));
            assert(map_of(s2) =~= m0.insert(key@, (*h, (now + ttl) as u64)));
            assert(unique_keys(s2));
        }
        h
    }

    /// Completes a fetch for `key`: a fetched value is stored with
    /// expiry `now + ttl` and a handle to it returned; a fetch failure
    /// is passed through and the table is left exactly as it was.
    pub fn finish_fetch<E>(&mut self, key: &str, fetched: Result<V, E>, now: u64, ttl: u64) -> (r:
        Result<Arc<V>, E>)
        requires
            old(self).wf(),
            now + ttl <= u64::MAX,
        ensures
            final(self).wf(),
            match fetched {
                Ok(v) => final(self).contents() == old(self).contents().insert(
                    key@,
                    (v, (now + ttl) as u64),
                ) && (r matches Ok(h) && *h == v),
                Err(e) => *final(self) == *old(self) && (r matches Err(e2) && e2 == e),
            },
    {
        match fetched {
            Ok(v) => Ok(self.store(key, v, now, ttl)),
            Err(e) => Err(e),
        }
    }

    /// The coordinator's one operation: a live entry is returned at
    /// once and the table is untouched; otherwise `fetch` is invoked,
    /// once, and its outcome handed to [`Self::finish_fetch`].
    pub fn get_or_fetch<E, F: FnOnce() -> Result<V, E>>(
        &mut self,
        key: &str,
        now: u64,
        ttl: u64,
        fetch: F,
    ) -> (r: Result<Arc<V>, E>)
        requires
            old(self).wf(),
            now + ttl <= u64::MAX,
            call_requires(fetch, ()),
        ensures
            final(self).wf(),
            live(old(self).contents(), key@, now) ==> *final(self) == *old(self) && (
            r matches Ok(h) && *h == old(self).contents()[key@].0),
            !live(old(self).contents(), key@, now) ==> exists|fr: Result<V, E>|
                {
                    &&& #[trigger] call_ensures(fetch, (), fr)
                    &&& match fr {
                        Ok(v) => final(self).contents() == old(self).contents().insert(
                            key@,
                            (v, (now + ttl) as u64),
                        ) && (r matches Ok(h) && *h == v),
                        Err(e) => *final(self) == *old(self) && (r matches Err(e2) && e2 == e),
                    }
                },
    {
        if let Some(h) = self.lookup(key, now) {
            return Ok(h);
        }
        let fr = fetch();
        self.finish_fetch(key, fr, now, ttl)
    }
}

/// Cache freshness: after a value is stored at `t0` with time to live
/// `ttl`, any time strictly within the window still sees a live entry
/// holding exactly the stored value, so a lookup returns it and no
/// fetch happens.
pub proof fn lemma_cache_freshness<V>(
    m: Map<Seq<char>, (V, u64)>,
    k: Seq<char>,
    v: V,
    t0: u64,
    ttl: u64,
    d: u64,
)
    requires
        t0 + ttl <= u64::MAX,
        d < ttl,
    ensures
        live(m.insert(k, (v, (t0 + ttl) as u64)), k, (t0 + d) as u64),
        m.insert(k, (v, (t0 + ttl) as u64))[k].0 == v,
{
}

/// Cache expiry: from `t0 + ttl` on the stored entry is no longer
/// live, so a call must invoke the fetch again.
pub proof fn lemma_cache_expiry<V>(
    m: Map<Seq<char>, (V, u64)>,
    k: Seq<char>,
    v: V,
    t0: u64,
    ttl: u64,
    d: u64,
)
    requires
        t0 + ttl <= u64::MAX,
        t0 + d <= u64::MAX,
        d >= ttl,
    ensures
        !live(m.insert(k, (v, (t0 + ttl) as u64)), k, (t0 + d) as u64),
{
}

/// No poisoning on failure: a failed fetch leaves the table unchanged
/// ([`CacheTable::finish_fetch`]), and a key that missed once cannot
/// become live later without a store, so the next call attempts the
/// fetch again instead of replaying the failure or a stale value.
pub proof fn lemma_no_poisoning<V>(m: Map<Seq<char>, (V, u64)>, k: Seq<char>, now: u64, now2: u64)
    requires
        !live(m, k, now),
        now <= now2,
    ensures
        !live(m, k, now2),
{
}

} // verus!
