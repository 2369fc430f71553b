//! The read-through cache: string keys, memo values, optional time to live.
//! Only a latency shortcut, never the source of truth. This one is held in
//! process; its reachability can be switched to exercise outages.

use vstd::prelude::*;
use crate::error::{AppError, AppResult};
use crate::memo::{Memo, MemoView, opt_view};

verus! {

/// A cached memo and the instant (milliseconds) from which it is expired.
pub struct CachedView {
    pub memo: MemoView,
    pub expires_at: Option<int>,
}

/// The state of the cache: its entries and whether it is reachable.
pub struct CacheView {
    pub entries: Map<Seq<char>, CachedView>,
    pub up: bool,
}

/// When an entry written at `now` with a time to live of `ttl_secs` seconds
/// expires; without a time to live it lives until removed.
pub open spec fn expiry(now: i64, ttl_secs: Option<u64>) -> Option<int> {
    match ttl_secs {
        Some(s) => Some(now + 1000 * s),
        None => None,
    }
}

/// Whether an entry is still live at `now`.
pub open spec fn live(c: CachedView, now: i64) -> bool {
    match c.expires_at {
        Some(e) => now < e,
        None => true,
    }
}

/// What a read of `key` at `now` finds in the entries.
pub open spec fn cache_hit(entries: Map<Seq<char>, CachedView>, key: Seq<char>, now: i64) -> Option<MemoView> {
    if entries.contains_key(key) && live(entries[key], now) {
        Some(entries[key].memo)
    } else {
        None
    }
}

/// One stored entry.
struct CacheEntry {
    key: String,
    value: Memo,
    expires_at: Option<i128>,
}

spec fn entry_view(e: CacheEntry) -> CachedView {
    CachedView {
        memo: e.value@,
        expires_at: match e.expires_at {
            Some(t) => Some(t as int),
            None => None,
        },
    }
}

spec fn keys_unique(s: Seq<CacheEntry>) -> bool {
    forall|i: int, j: int|
        0 <= i < s.len() && 0 <= j < s.len() && #[trigger] s[i].key@ == #[trigger] s[j].key@ ==> i == j
}

spec fn has_key(s: Seq<CacheEntry>, k: Seq<char>) -> bool {
    exists|i: int| 0 <= i < s.len() && #[trigger] s[i].key@ == k
}

spec fn slot_of(s: Seq<CacheEntry>, k: Seq<char>) -> int {
    choose|i: int| 0 <= i < s.len() && #[trigger] s[i].key@ == k
}

spec fn entries_view(s: Seq<CacheEntry>) -> Map<Seq<char>, CachedView> {
    Map::new(|k: Seq<char>| has_key(s, k), |k: Seq<char>| entry_view(s[slot_of(s, k)]))
}

proof fn lemma_slot_in_view(s: Seq<CacheEntry>, i: int)
    requires
        keys_unique(s),
        0 <= i < s.len(),
    ensures
        entries_view(s).contains_key(s[i].key@),
        entries_view(s)[s[i].key@] == entry_view(s[i]),
{
    assert(has_key(s, s[i].key@));
    let j = slot_of(s, s[i].key@);
    assert(s[j].key@ == s[i].key@);
}

proof fn lemma_push(s: Seq<CacheEntry>, e: CacheEntry)
    requires
        keys_unique(s),
        !has_key(s, e.key@),
    ensures
        keys_unique(s.push(e)),
        entries_view(s.push(e)) =~= entries_view(s).insert(e.key@, entry_view(e)),
{
    let t = s.push(e);
    assert forall|i: int, j: int|
        0 <= i < t.len() && 0 <= j < t.len() && #[trigger] t[i].key@ == #[trigger] t[j].key@ implies i == j by {
        if i < s.len() && j == s.len() {
            assert(s[i].key@ == e.key@);
        } else if j < s.len() && i == s.len() {
            assert(s[j].key@ == e.key@);
        } else if i < s.len() && j < s.len() {
            assert(s[i].key@ == s[j].key@);
        }
    }
    assert forall|k: Seq<char>| #[trigger] entries_view(t).contains_key(k) <==> entries_view(s).insert(e.key@, entry_view(e)).contains_key(k) by {
        if has_key(s, k) {
            let i = slot_of(s, k);
            assert(t[i].key@ == k);
        }
        if k == e.key@ {
            assert(t[s.len() as int].key@ == k);
        }
        if has_key(t, k) {
            let i = slot_of(t, k);
            if i < s.len() {
                assert(s[i].key@ == k);
            }
        }
    }
    assert forall|k: Seq<char>| #[trigger] entries_view(t).contains_key(k) implies entries_view(t)[k] == entries_view(s).insert(e.key@, entry_view(e))[k] by {
        let i = slot_of(t, k);
        lemma_slot_in_view(t, i);
        if i < s.len() {
            assert(s[i] == t[i]);
            lemma_slot_in_view(s, i);
        }
    }
}

proof fn lemma_set(s: Seq<CacheEntry>, i: int, e: CacheEntry)
    requires
        keys_unique(s),
        0 <= i < s.len(),
        s[i].key@ == e.key@,
    ensures
        keys_unique(s.update(i, e)),
        entries_view(s.update(i, e)) =~= entries_view(s).insert(e.key@, entry_view(e)),
{
    let t = s.update(i, e);
    assert forall|a: int, b: int|
        0 <= a < t.len() && 0 <= b < t.len() && #[trigger] t[a].key@ == #[trigger] t[b].key@ implies a == b by {
        assert(t[a].key@ == s[a].key@ && t[b].key@ == s[b].key@);
    }
    assert forall|k: Seq<char>| #[trigger] entries_view(t).contains_key(k) <==> entries_view(s).insert(e.key@, entry_view(e)).contains_key(k) by {
        if has_key(s, k) {
            let j = slot_of(s, k);
            assert(t[j].key@ == k);
        }
        if has_key(t, k) {
            let j = slot_of(t, k);
            assert(s[j].key@ == k);
        }
        if k == e.key@ {
            assert(t[i].key@ == k);
        }
    }
    assert forall|k: Seq<char>| #[trigger] entries_view(t).contains_key(k) implies entries_view(t)[k] == entries_view(s).insert(e.key@, entry_view(e))[k] by {
        let j = slot_of(t, k);
        lemma_slot_in_view(t, j);
        if j != i {
            assert(s[j] == t[j]);
            lemma_slot_in_view(s, j);
        }
    }
}

proof fn lemma_remove(s: Seq<CacheEntry>, i: int)
    requires
        keys_unique(s),
        0 <= i < s.len(),
    ensures
        keys_unique(s.remove(i)),
        entries_view(s.remove(i)) =~= entries_view(s).remove(s[i].key@),
{
    let t = s.remove(i);
    let k0 = s[i].key@;
    assert forall|a: int| 0 <= a < t.len() implies #[trigger] t[a] == s[if a < i { a } else { a + 1 }] by {}
    assert forall|a: int, b: int|
        0 <= a < t.len() && 0 <= b < t.len() && #[trigger] t[a].key@ == #[trigger] t[b].key@ implies a == b by {
        let sa = if a < i { a } else { a + 1 };
        let sb = if b < i { b } else { b + 1 };
        assert(t[a] == s[sa] && t[b] == s[sb]);
        assert(s[sa].key@ == s[sb].key@);
    }
    assert forall|k: Seq<char>| #[trigger] entries_view(t).contains_key(k) <==> entries_view(s).remove(k0).contains_key(k) by {
        if has_key(s, k) && k != k0 {
            let j = slot_of(s, k);
            assert(j != i);
            let tj = if j < i { j } else { j - 1 };
            assert(t[tj] == s[j]);
        }
        if has_key(t, k) {
            let j = slot_of(t, k);
            let sj = if j < i { j } else { j + 1 };
            assert(t[j] == s[sj]);
            assert(sj != i);
        }
    }
    assert forall|k: Seq<char>| #[trigger] entries_view(t).contains_key(k) implies entries_view(t)[k] == entries_view(s).remove(k0)[k] by {
        let j = slot_of(t, k);
        lemma_slot_in_view(t, j);
        let sj = if j < i { j } else { j + 1 };
        assert(t[j] == s[sj]);
        lemma_slot_in_view(s, sj);
    }
}

/// The error for an unreachable cache.
fn cache_error() -> (e: AppError)
    ensures
        e matches AppError::DatabaseError(_),
{
    AppError::DatabaseError(String::from_str("cache unavailable"))
}

/// The cache of memos.
pub struct RedisCache {
    entries: Vec<CacheEntry>,
    available: bool,
}

impl View for RedisCache {
    type V = CacheView;

    closed spec fn view(&self) -> CacheView {
        CacheView { entries: entries_view(self.entries@), up: self.available }
    }
}

impl RedisCache {
    /// The internal invariant: each key is stored at most once.
    pub closed spec fn wf(&self) -> bool {
        keys_unique(self.entries@)
    }

    /// An empty, reachable cache. It is held in process, so the endpoint that
    /// names the backing service is not dialled.
    pub fn new(_uri: &str) -> (r: AppResult<Self>)
        ensures
            r matches Ok(c) && c.wf() && c@.up && c@.entries == Map::<Seq<char>, CachedView>::empty(),
    {
        let c = RedisCache { entries: Vec::new(), available: true };
        assert(c@.entries =~= Map::<Seq<char>, CachedView>::empty());
        Ok(c)
    }

    /// Marks the cache reachable or unreachable.
    pub fn set_available(&mut self, up: bool)
        requires
            old(self).wf(),
        ensures
            final(self).wf(),
            final(self)@ == (CacheView { up, ..old(self)@ }),
    {
        self.available = up;
    }

    fn slot(&self, key: &String) -> (r: Option<usize>)
        requires
            self.wf(),
        ensures
            match r {
                Some(i) => i < self.entries.len() && self.entries@[i as int].key@ == key@,
                None => !self@.entries.contains_key(key@),
            },
    {
        let mut i: usize = 0;
        while i < self.entries.len()
            invariant
                i <= self.entries.len(),
                forall|j: int| 0 <= j < i ==> #[trigger] self.entries@[j].key@ != key@,
            decreases self.entries.len() - i,
        {
            if self.entries[i].key == *key {
                return Some(i);
            }
            i = i + 1;
        }
        proof {
            if has_key(self.entries@, key@) {
                let j = slot_of(self.entries@, key@);
                assert(self.entries@[j].key@ == key@);
            }
        }
        None
    }

    /// The live memo cached under `key` at clock reading `now`.
    pub fn get(&self, key: &String, now: i64) -> (r: AppResult<Option<Memo>>)
        requires
            self.wf(),
        ensures
            self@.up ==> (r matches Ok(o) && opt_view(o) == cache_hit(self@.entries, key@, now)),
            !self@.up ==> (r matches Err(AppError::DatabaseError(_))),
    {
        if !self.available {
            return Err(cache_error());
        }
        match self.slot(key) {
            Some(i) => {
                proof {
                    lemma_slot_in_view(self.entries@, i as int);
                }
                let e = &self.entries[i];
                let alive = match e.expires_at {
                    Some(t) => (now as i128) < t,
                    None => true,
                };
                if alive {
                    Ok(Some(e.value.clone()))
                } else {
                    Ok(None)
                }
            },
            None => Ok(None),
        }
    }

    /// Caches `value` under `key` at clock reading `now`, expiring after
    /// `ttl_secs` seconds when given.
    pub fn set(&mut self, key: &String, value: &Memo, ttl_secs: Option<u64>, now: i64) -> (r: AppResult<()>)
        requires
            old(self).wf(),
        ensures
            final(self).wf(),
            final(self)@.up == old(self)@.up,
            old(self)@.up ==> r is Ok && final(self)@.entries == old(self)@.entries.insert(
                key@,
                CachedView { memo: value@, expires_at: expiry(now, ttl_secs) },
            ),
            !old(self)@.up ==> (r matches Err(AppError::DatabaseError(_))) && final(self)@ == old(self)@,
    {
        if !self.available {
            return Err(cache_error());
        }
        let expires_at: Option<i128> = match ttl_secs {
            Some(s) => Some(now as i128 + 1000 * (s as i128)),
            None => None,
        };
        let e = CacheEntry { key: key.clone(), value: value.clone(), expires_at };
        match self.slot(key) {
            Some(i) => {
                proof {
                    lemma_set(self.entries@, i as int, e);
                }
                self.entries.set(i, e);
            },
            None => {
                proof {
                    if has_key(self.entries@, key@) {
                        lemma_slot_in_view(self.entries@, slot_of(self.entries@, key@));
                    }
                    lemma_push(self.entries@, e);
                }
                self.entries.push(e);
            },
        }
        Ok(())
    }

    /// Drops the entry under `key`, if any.
    pub fn delete(&mut self, key: &String) -> (r: AppResult<()>)
        requires
            old(self).wf(),
        ensures
            final(self).wf(),
            final(self)@.up == old(self)@.up,
            old(self)@.up ==> r is Ok && final(self)@.entries == old(self)@.entries.remove(key@),
            !old(self)@.up ==> (r matches Err(AppError::DatabaseError(_))) && final(self)@ == old(self)@,
    {
        if !self.available {
            return Err(cache_error());
        }
        match self.slot(key) {
            Some(i) => {
                proof {
                    lemma_remove(self.entries@, i as int);
                }
                self.entries.remove(i);
            },
            None => {
                assert(old(self)@.entries.remove(key@) =~= old(self)@.entries);
            },
        }
        Ok(())
    }

    /// Whether a live entry is cached under `key` at clock reading `now`.
    pub fn contains_key(&self, key: &String, now: i64) -> (r: AppResult<bool>)
        requires
            self.wf(),
        ensures
            self@.up ==> r == Ok::<bool, AppError>(cache_hit(self@.entries, key@, now) is Some),
            !self@.up ==> (r matches Err(AppError::DatabaseError(_))),
    {
        match self.get(key, now) {
            Ok(Some(_)) => Ok(true),
            Ok(None) => Ok(false),
            Err(e) => Err(e),
        }
    }
}

} // verus!
