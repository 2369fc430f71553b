//! The repository coordinator: one `find`, `save`, `delete`, `search` and
//! `exists` over the primary store, the cache and the search index, with the
//! write ordering and failure policy of a cache-aside, invalidate-on-write
//! design under optimistic concurrency.

use vstd::prelude::*;
use crate::cache::{CacheView, CachedView, RedisCache, cache_hit, expiry};
use crate::clock::now_millis;
use crate::error::{AppError, AppResult};
use crate::ident::{id_text, uuid_text};
use crate::index::{ElasticsearchClient, search_result, tag_view};
use crate::memo::{Memo, MemoView, opt_view};
use crate::primary::{CasOutcome, ScyllaDB, StoreView, cas_applies, cas_merge, records_wf};
use crate::table::{lists_owned, lookup};

verus! {

/// How long a memo read from the primary store stays cached, in seconds.
pub const CACHE_TTL_SECS: u64 = 3600;

/// The state of all three stores.
pub struct RepoView {
    pub primary: StoreView,
    pub cache: CacheView,
    pub index: StoreView,
}

/// The cache key of a memo: a fixed prefix followed by its identifier.
pub open spec fn key_of(id: u128) -> Seq<char> {
    "memo:"@ + uuid_text(id)
}

/// Whether a read of `id` at `now` is answered by the cache: a live entry
/// under the key of `id`.
pub open spec fn served_from_cache(s: RepoView, id: u128, now: i64) -> bool {
    s.cache.up && cache_hit(s.cache.entries, key_of(id), now) is Some
}

/// The stores after a read of `id` at `now` went to the primary store: a
/// record found there is cached, when the cache is reachable.
pub open spec fn after_fill(s: RepoView, id: u128, now: i64) -> RepoView {
    if s.primary.memos.contains_key(id) && s.cache.up {
        RepoView {
            cache: CacheView {
                entries: s.cache.entries.insert(
                    key_of(id),
                    CachedView { memo: s.primary.memos[id], expires_at: expiry(now, Some(CACHE_TTL_SECS)) },
                ),
                up: true,
            },
            ..s
        }
    } else {
        s
    }
}

/// What a read of `id` at clock reading `now` returns (`r`) and leaves (`t`).
pub open spec fn find_effect(s: RepoView, id: u128, now: i64, r: AppResult<Option<Memo>>, t: RepoView) -> bool {
    if served_from_cache(s, id, now) {
        &&& r matches Ok(Some(m)) && Some(m@) == cache_hit(s.cache.entries, key_of(id), now)
        &&& t == s
    } else if !s.primary.up {
        &&& r matches Err(AppError::StorageUnavailable(_))
        &&& t == s
    } else {
        &&& r matches Ok(o) && opt_view(o) == lookup(s.primary.memos, id)
        &&& r matches Ok(Some(m)) ==> m.id == id
        &&& t == after_fill(s, id, now)
    }
}

/// Whether a read of `id` at `now` fails: the cache does not answer it and
/// the primary store is unreachable.
pub open spec fn read_fails(s: RepoView, id: u128, now: i64) -> bool {
    !served_from_cache(s, id, now) && !s.primary.up
}

/// The memo a read of `id` at `now` returns, when it does not fail.
pub open spec fn seen_by_read(s: RepoView, id: u128, now: i64) -> Option<MemoView> {
    if served_from_cache(s, id, now) {
        cache_hit(s.cache.entries, key_of(id), now)
    } else {
        lookup(s.primary.memos, id)
    }
}

/// The stores after a read of `id` at `now`.
pub open spec fn after_read(s: RepoView, id: u128, now: i64) -> RepoView {
    if served_from_cache(s, id, now) || !s.primary.up {
        s
    } else {
        after_fill(s, id, now)
    }
}

/// The version a save swaps against, when it swaps: the caller's expected
/// version; without one, the predecessor of the memo's own version.
pub open spec fn swap_target(version: i32, expected: Option<i32>) -> Option<i32> {
    match expected {
        Some(v) => if v < i32::MAX {
            Some(v)
        } else {
            None
        },
        None => if version > 1 {
            Some((version - 1) as i32)
        } else {
            None
        },
    }
}

/// A save that cannot be attempted: the memo is past version 1 and there is
/// no version to swap against.
pub open spec fn save_refused(m: MemoView, expected: Option<i32>) -> bool {
    m.version != 1 && swap_target(m.version, expected) is None
}

/// A save is a creation when the memo is at version 1 and no record of its
/// identifier exists.
pub open spec fn creates(s: RepoView, m: MemoView) -> bool {
    m.version == 1 && !s.primary.memos.contains_key(m.id)
}

/// Whether the primary store accepts a save of `m`: a creation inserts a
/// well-formed memo; otherwise a compare-and-swap against the swap target
/// must apply.
pub open spec fn primary_accepts(s: RepoView, m: MemoView, expected: Option<i32>) -> bool {
    &&& !save_refused(m, expected)
    &&& s.primary.up
    &&& if creates(s, m) {
        m.wf()
    } else {
        swap_target(m.version, expected) matches Some(v) && cas_applies(s.primary.memos, m.id, v)
    }
}

/// The record the primary store holds after accepting a save of `m`.
pub open spec fn stored_record(s: RepoView, m: MemoView, expected: Option<i32>) -> MemoView {
    if creates(s, m) {
        m
    } else {
        cas_merge(s.primary.memos[m.id], m, swap_target(m.version, expected)->0)
    }
}

/// The stores after an accepted save of `m`: the primary write, then the
/// cache entry dropped, then the index upserted (each secondary step only
/// where that store is reachable).
pub open spec fn after_save(s: RepoView, m: MemoView, expected: Option<i32>) -> RepoView {
    let rec = stored_record(s, m, expected);
    RepoView {
        primary: StoreView { memos: s.primary.memos.insert(m.id, rec), up: s.primary.up },
        cache: if s.cache.up {
            CacheView { entries: s.cache.entries.remove(key_of(m.id)), up: true }
        } else {
            s.cache
        },
        index: if s.index.up {
            StoreView { memos: s.index.memos.insert(m.id, rec), up: true }
        } else {
            s.index
        },
    }
}

/// What a save of `m` with expected version `expected` returns and leaves.
pub open spec fn save_effect(
    s: RepoView,
    m: MemoView,
    expected: Option<i32>,
    r: AppResult<SaveOutcome>,
    t: RepoView,
) -> bool {
    if primary_accepts(s, m, expected) {
        &&& r matches Ok(o) && o.memo@ == stored_record(s, m, expected) && o.memo.id == m.id
            && o.report == (WriteReport { cache_invalidated: s.cache.up, index_updated: s.index.up })
        &&& t == after_save(s, m, expected)
    } else {
        &&& t == s
        &&& save_refused(m, expected) ==> (r matches Err(AppError::BadRequest(_)))
        &&& !save_refused(m, expected) && !s.primary.up ==> (r matches Err(AppError::StorageUnavailable(_)))
        &&& !save_refused(m, expected) && s.primary.up && creates(s, m) ==> (r matches Err(AppError::ValidationError(_)))
        &&& !save_refused(m, expected) && s.primary.up && !creates(s, m) ==> (r matches Err(AppError::Conflict(_)))
    }
}

/// The stores after a delete of `id` reached the primary store.
pub open spec fn after_delete(s: RepoView, id: u128) -> RepoView {
    RepoView {
        primary: StoreView { memos: s.primary.memos.remove(id), up: s.primary.up },
        cache: if s.cache.up {
            CacheView { entries: s.cache.entries.remove(key_of(id)), up: true }
        } else {
            s.cache
        },
        index: if s.index.up {
            StoreView { memos: s.index.memos.remove(id), up: true }
        } else {
            s.index
        },
    }
}

/// What a delete of `id` returns and leaves.
pub open spec fn delete_effect(s: RepoView, id: u128, r: AppResult<WriteReport>, t: RepoView) -> bool {
    if s.primary.up {
        &&& r == Ok::<WriteReport, AppError>(WriteReport { cache_invalidated: s.cache.up, index_updated: s.index.up })
        &&& t == after_delete(s, id)
    } else {
        &&& r matches Err(AppError::StorageUnavailable(_))
        &&& t == s
    }
}

/// What an existence check of `id` at `now` returns.
pub open spec fn exists_effect(s: RepoView, id: u128, now: i64, r: AppResult<bool>) -> bool {
    if served_from_cache(s, id, now) {
        r == Ok::<bool, AppError>(true)
    } else if s.primary.up {
        r == Ok::<bool, AppError>(s.primary.memos.contains_key(id))
    } else {
        r matches Err(AppError::StorageUnavailable(_))
    }
}

/// Which secondary stores a write reached. A write that missed one is still a
/// success, but a degraded one that must be reconciled.
#[derive(Debug, Clone, Copy, PartialEq, Eq, Structural)]
pub struct WriteReport {
    pub cache_invalidated: bool,
    pub index_updated: bool,
}

impl WriteReport {
    /// Whether a secondary store missed the write.
    pub fn is_degraded(&self) -> (r: bool)
        ensures
            r == !(self.cache_invalidated && self.index_updated),
    {
        !(self.cache_invalidated && self.index_updated)
    }
}

/// A save that the primary store accepted: the record now stored there.
#[derive(Debug)]
pub struct SaveOutcome {
    pub memo: Memo,
    pub report: WriteReport,
}

/// The cache key of the memo `id`.
pub fn cache_key(id: u128) -> (r: String)
    ensures
        r@ == key_of(id),
{
    let mut k = String::from_str("memo:");
    let t = id_text(id);
    k.append(t.as_str());
    k
}

/// The swap target of a save, as `swap_target` states it.
fn swap_target_of(version: i32, expected: Option<i32>) -> (r: Option<i32>)
    ensures
        r == swap_target(version, expected),
{
    match expected {
        Some(v) => if v < i32::MAX {
            Some(v)
        } else {
            None
        },
        None => if version > 1 {
            Some(version - 1)
        } else {
            None
        },
    }
}

fn stale_version() -> (e: AppError)
    ensures
        e matches AppError::Conflict(_),
{
    AppError::Conflict(String::from_str("Memo has been updated by another user"))
}

/// The coordinator over the three stores; the only writer of each.
pub struct MemoRepositoryImpl {
    scylla: ScyllaDB,
    redis: RedisCache,
    elasticsearch: ElasticsearchClient,
}

impl View for MemoRepositoryImpl {
    type V = RepoView;

    closed spec fn view(&self) -> RepoView {
        RepoView { primary: self.scylla@, cache: self.redis@, index: self.elasticsearch@ }
    }
}

impl MemoRepositoryImpl {
    /// The internal invariant: that of each of the three stores.
    pub closed spec fn wf(&self) -> bool {
        &&& self.scylla.wf()
        &&& self.redis.wf()
        &&& self.elasticsearch.wf()
    }

    /// Every record in the primary store of a coordinator in its invariant is
    /// well-formed.
    pub proof fn lemma_records_wf(&self)
        requires
            self.wf(),
        ensures
            records_wf(self@.primary.memos),
    {
        self.scylla.lemma_records_wf();
    }

    /// A coordinator over the given stores.
    pub fn new(scylla: ScyllaDB, redis: RedisCache, elasticsearch: ElasticsearchClient) -> (r: Self)
        requires
            scylla.wf(),
            redis.wf(),
            elasticsearch.wf(),
        ensures
            r.wf(),
            r@ == (RepoView { primary: scylla@, cache: redis@, index: elasticsearch@ }),
    {
        MemoRepositoryImpl { scylla, redis, elasticsearch }
    }

    /// The primary store.
    pub fn primary(&self) -> (r: &ScyllaDB)
        requires
            self.wf(),
        ensures
            r.wf(),
            r@ == self@.primary,
    {
        &self.scylla
    }

    /// The cache.
    pub fn cache(&self) -> (r: &RedisCache)
        requires
            self.wf(),
        ensures
            r.wf(),
            r@ == self@.cache,
    {
        &self.redis
    }

    /// The search index.
    pub fn index(&self) -> (r: &ElasticsearchClient)
        requires
            self.wf(),
        ensures
            r.wf(),
            r@ == self@.index,
    {
        &self.elasticsearch
    }

    /// Marks each store reachable or unreachable.
    pub fn set_availability(&mut self, primary: bool, cache: bool, index: bool)
        requires
            old(self).wf(),
        ensures
            final(self).wf(),
            final(self)@ == (RepoView {
                primary: StoreView { up: primary, ..old(self)@.primary },
                cache: CacheView { up: cache, ..old(self)@.cache },
                index: StoreView { up: index, ..old(self)@.index },
            }),
    {
        self.scylla.set_available(primary);
        self.redis.set_available(cache);
        self.elasticsearch.set_available(index);
    }

    /// Reads the memo `id` at clock reading `now`: from the cache on a live
    /// hit, else from the primary store, caching what it finds. A cache
    /// failure falls back to the primary store.
    pub fn find_by_id_at(&mut self, id: u128, now: i64) -> (r: AppResult<Option<Memo>>)
        requires
            old(self).wf(),
        ensures
            final(self).wf(),
            find_effect(old(self)@, id, now, r, final(self)@),
    {
        let key = cache_key(id);
        match self.redis.get(&key, now) {
            Ok(Some(m)) => {
                return Ok(Some(m));
            },
            _ => {},
        }
        match self.scylla.find_by_id(id) {
            Ok(Some(m)) => {
                let _ = self.redis.set(&key, &m, Some(CACHE_TTL_SECS), now);
                Ok(Some(m))
            },
            Ok(None) => Ok(None),
            Err(e) => Err(e),
        }
    }

    /// Reads the memo `id` now.
    pub fn find_by_id(&mut self, id: u128) -> (r: AppResult<Option<Memo>>)
        requires
            old(self).wf(),
        ensures
            final(self).wf(),
            exists|now: i64| find_effect(old(self)@, id, now, r, final(self)@),
    {
        let now = now_millis();
        self.find_by_id_at(id, now)
    }

    /// Every memo of `user_id`, from the primary store.
    pub fn find_all_by_user_id(&self, user_id: u128) -> (r: AppResult<Vec<Memo>>)
        requires
            self.wf(),
        ensures
            self@.primary.up ==> (r matches Ok(v) && lists_owned(v@, self@.primary.memos, user_id)),
            !self@.primary.up ==> (r matches Err(AppError::StorageUnavailable(_))),
    {
        self.scylla.find_all_by_user_id(user_id)
    }

    /// Saves `memo`. A memo at version 1 whose identifier is not stored is
    /// inserted; any other save applies it by compare-and-swap against the
    /// expected version (without one, against the predecessor of the memo's
    /// version). Once the primary store accepts, the cache entry is dropped
    /// and then the index is upserted; failures there only mark the write as
    /// degraded.
    pub fn save(&mut self, memo: &Memo, expected: Option<i32>) -> (r: AppResult<SaveOutcome>)
        requires
            old(self).wf(),
        ensures
            final(self).wf(),
            save_effect(old(self)@, memo@, expected, r, final(self)@),
    {
        let target = swap_target_of(memo.version, expected);
        if memo.version != 1 && target.is_none() {
            return Err(AppError::BadRequest(String::from_str("no version can follow the expected one")));
        }
        let mut inserted = false;
        if memo.version == 1 {
            match self.scylla.save(memo) {
                Ok(()) => {
                    inserted = true;
                },
                Err(AppError::Conflict(msg)) => {
                    if target.is_none() {
                        return Err(AppError::Conflict(msg));
                    }
                },
                Err(e) => {
                    return Err(e);
                },
            }
        }
        let stored = if inserted {
            memo.clone()
        } else {
            let v = match target {
                Some(v) => v,
                None => {
                    return Err(stale_version());
                },
            };
            match self.scylla.update_if_version(memo, v) {
                Ok(CasOutcome::Applied(m)) => m,
                Ok(CasOutcome::VersionMismatch) => {
                    return Err(stale_version());
                },
                Err(e) => {
                    return Err(e);
                },
            }
        };
        let key = cache_key(memo.id);
        let cache_invalidated = self.redis.delete(&key).is_ok();
        let index_updated = self.elasticsearch.index_memo(&stored).is_ok();
        Ok(SaveOutcome { memo: stored, report: WriteReport { cache_invalidated, index_updated } })
    }

    /// Deletes the memo `id`: from the primary store (no version check, and
    /// an absent memo is no error), then from the cache and the index.
    pub fn delete(&mut self, id: u128) -> (r: AppResult<WriteReport>)
        requires
            old(self).wf(),
        ensures
            final(self).wf(),
            delete_effect(old(self)@, id, r, final(self)@),
    {
        match self.scylla.delete(id) {
            Ok(()) => {},
            Err(e) => {
                return Err(e);
            },
        }
        let key = cache_key(id);
        let cache_invalidated = self.redis.delete(&key).is_ok();
        let index_updated = self.elasticsearch.delete_memo(id).is_ok();
        Ok(WriteReport { cache_invalidated, index_updated })
    }

    /// Searches the index; there is no fallback when it is unreachable.
    pub fn search(&self, query: &str, tag: Option<String>, user_id: u128) -> (r: AppResult<Vec<Memo>>)
        requires
            self.wf(),
        ensures
            self@.index.up ==> (r matches Ok(v) && search_result(v@, self@.index.memos, query@, tag_view(tag), user_id)),
            !self@.index.up ==> (r matches Err(AppError::IndexUnavailable(_))),
    {
        self.elasticsearch.search_memos(query, tag, user_id)
    }

    /// Whether the memo `id` exists, at clock reading `now`: a live cache
    /// entry answers yes; otherwise the primary store decides.
    pub fn memo_exists_at(&self, id: u128, now: i64) -> (r: AppResult<bool>)
        requires
            self.wf(),
        ensures
            exists_effect(self@, id, now, r),
    {
        let key = cache_key(id);
        match self.redis.contains_key(&key, now) {
            Ok(true) => {
                return Ok(true);
            },
            _ => {},
        }
        self.scylla.contains(id)
    }

    /// Whether the memo `id` exists now.
    pub fn memo_exists(&self, id: u128) -> (r: AppResult<bool>)
        requires
            self.wf(),
        ensures
            exists|now: i64| exists_effect(self@, id, now, r),
    {
        let now = now_millis();
        self.memo_exists_at(id, now)
    }
}

} // verus!
