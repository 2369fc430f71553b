//! The primary store: the authoritative copy of every memo, and the only
//! place where a write can be rejected for a stale version. This one is held
//! in process; its reachability can be switched to exercise outages.

use vstd::prelude::*;
use crate::error::{AppError, AppResult};
use crate::memo::{Memo, MemoView, opt_view};
use crate::table::{MemoTable, lists_owned, lookup};

verus! {

/// The state of a keyed memo store: what it holds and whether it is reachable.
pub struct StoreView {
    pub memos: Map<u128, MemoView>,
    pub up: bool,
}

/// The record a compare-and-swap writes over `stored`: the new field values of
/// `memo`, the version after `expected`, and the immutable identity, owner and
/// creation time of `stored`; `updated_at` never moves back.
pub open spec fn cas_merge(stored: MemoView, memo: MemoView, expected: i32) -> MemoView {
    MemoView {
        id: stored.id,
        title: memo.title,
        content: memo.content,
        tags: memo.tags,
        user_id: stored.user_id,
        created_at: stored.created_at,
        updated_at: if memo.updated_at > stored.updated_at {
            memo.updated_at
        } else {
            stored.updated_at
        },
        version: (expected + 1) as i32,
    }
}

/// Whether a compare-and-swap of `id` against `expected` applies to `memos`.
pub open spec fn cas_applies(memos: Map<u128, MemoView>, id: u128, expected: i32) -> bool {
    memos.contains_key(id) && memos[id].version == expected
}

/// Every stored record is well-formed: a positive version and
/// `created_at <= updated_at`.
pub open spec fn records_wf(memos: Map<u128, MemoView>) -> bool {
    forall|k: u128| memos.contains_key(k) ==> (#[trigger] memos[k]).wf()
}

/// The outcome of a compare-and-swap that reached the store.
pub enum CasOutcome {
    /// The stored version matched; the record now stored is returned.
    Applied(Memo),
    /// The stored version differed, or no record exists; nothing changed.
    VersionMismatch,
}

/// The error for an unreachable primary store.
fn unavailable_error() -> (e: AppError)
    ensures
        e matches AppError::StorageUnavailable(_),
{
    AppError::StorageUnavailable(String::from_str("primary store unavailable"))
}

/// The primary store of memos, keyed by identifier.
pub struct ScyllaDB {
    table: MemoTable,
    available: bool,
}

impl View for ScyllaDB {
    type V = StoreView;

    closed spec fn view(&self) -> StoreView {
        StoreView { memos: self.table@, up: self.available }
    }
}

impl ScyllaDB {
    /// The internal invariant: each identifier is stored at most once, and
    /// every stored record is well-formed.
    pub closed spec fn wf(&self) -> bool {
        self.table.wf() && records_wf(self.table@)
    }

    /// The records of a store in its invariant are well-formed.
    pub proof fn lemma_records_wf(&self)
        requires
            self.wf(),
        ensures
            records_wf(self@.memos),
    {
    }

    /// An empty, reachable store. It is held in process, so the endpoint that
    /// names the backing service is not dialled.
    pub fn new(_uri: &str) -> (r: AppResult<Self>)
        ensures
            r matches Ok(s) && s.wf() && s@.up && s@.memos == Map::<u128, MemoView>::empty(),
    {
        let s = ScyllaDB { table: MemoTable::new(), available: true };
        assert(records_wf(s.table@));
        Ok(s)
    }

    /// Marks the store reachable or unreachable.
    pub fn set_available(&mut self, up: bool)
        requires
            old(self).wf(),
        ensures
            final(self).wf(),
            final(self)@ == (StoreView { up, ..old(self)@ }),
    {
        self.available = up;
    }

    /// Point lookup by identifier.
    pub fn find_by_id(&self, id: u128) -> (r: AppResult<Option<Memo>>)
        requires
            self.wf(),
        ensures
            self@.up ==> (r matches Ok(o) && opt_view(o) == lookup(self@.memos, id)),
            r matches Ok(Some(m)) ==> m.id == id,
            !self@.up ==> (r matches Err(AppError::StorageUnavailable(_))),
    {
        if !self.available {
            return Err(unavailable_error());
        }
        Ok(self.table.get(id))
    }

    /// Every memo owned by `user_id`, in no particular order.
    pub fn find_all_by_user_id(&self, user_id: u128) -> (r: AppResult<Vec<Memo>>)
        requires
            self.wf(),
        ensures
            self@.up ==> (r matches Ok(v) && lists_owned(v@, self@.memos, user_id)),
            !self@.up ==> (r matches Err(AppError::StorageUnavailable(_))),
    {
        if !self.available {
            return Err(unavailable_error());
        }
        Ok(self.table.owned_by(user_id))
    }

    /// Inserts a new memo; fails with `Conflict` when its identifier exists,
    /// and with `ValidationError` when the memo is not well-formed.
    pub fn save(&mut self, memo: &Memo) -> (r: AppResult<()>)
        requires
            old(self).wf(),
        ensures
            final(self).wf(),
            final(self)@.up == old(self)@.up,
            !old(self)@.up ==> (r matches Err(AppError::StorageUnavailable(_))) && final(self)@ == old(self)@,
            old(self)@.up && old(self)@.memos.contains_key(memo.id) ==>
                (r matches Err(AppError::Conflict(_))) && final(self)@ == old(self)@,
            old(self)@.up && !old(self)@.memos.contains_key(memo.id) && !memo@.wf() ==>
                (r matches Err(AppError::ValidationError(_))) && final(self)@ == old(self)@,
            old(self)@.up && !old(self)@.memos.contains_key(memo.id) && memo@.wf() ==>
                r is Ok && final(self)@.memos == old(self)@.memos.insert(memo.id, memo@),
    {
        if !self.available {
            return Err(unavailable_error());
        }
        if self.table.contains(memo.id) {
            return Err(AppError::Conflict(String::from_str("Memo already exists")));
        }
        if memo.version < 1 || memo.created_at > memo.updated_at {
            return Err(AppError::ValidationError(String::from_str("Memo is not well-formed")));
        }
        self.table.upsert(memo.clone());
        Ok(())
    }

    /// Atomically writes the new field values of `memo` and version
    /// `expected + 1`, only if the stored version equals `expected`.
    pub fn update_if_version(&mut self, memo: &Memo, expected: i32) -> (r: AppResult<CasOutcome>)
        requires
            old(self).wf(),
            expected < i32::MAX,
        ensures
            final(self).wf(),
            final(self)@.up == old(self)@.up,
            !old(self)@.up ==> (r matches Err(AppError::StorageUnavailable(_))) && final(self)@ == old(self)@,
            old(self)@.up && cas_applies(old(self)@.memos, memo.id, expected) ==> {
                let merged = cas_merge(old(self)@.memos[memo.id], memo@, expected);
                &&& r matches Ok(CasOutcome::Applied(m)) && m@ == merged && m.id == memo.id
                &&& final(self)@.memos == old(self)@.memos.insert(memo.id, merged)
            },
            old(self)@.up && !cas_applies(old(self)@.memos, memo.id, expected) ==>
                (r matches Ok(CasOutcome::VersionMismatch)) && final(self)@ == old(self)@,
    {
        if !self.available {
            return Err(unavailable_error());
        }
        match self.table.get(memo.id) {
            Some(stored) => {
                if stored.version != expected {
                    return Ok(CasOutcome::VersionMismatch);
                }
                let tags = memo.tags.clone();
                proof {
                    assert(tags.deep_view() =~= memo.tags.deep_view());
                }
                let merged = Memo {
                    id: stored.id,
                    title: memo.title.clone(),
                    content: memo.content.clone(),
                    tags,
                    user_id: stored.user_id,
                    created_at: stored.created_at,
                    updated_at: if memo.updated_at > stored.updated_at {
                        memo.updated_at
                    } else {
                        stored.updated_at
                    },
                    version: expected + 1,
                };
                self.table.upsert(merged.clone());
                Ok(CasOutcome::Applied(merged))
            },
            None => Ok(CasOutcome::VersionMismatch),
        }
    }

    /// Removes the memo with identifier `id`; removing an absent one is no error.
    pub fn delete(&mut self, id: u128) -> (r: AppResult<()>)
        requires
            old(self).wf(),
        ensures
            final(self).wf(),
            final(self)@.up == old(self)@.up,
            old(self)@.up ==> r is Ok && final(self)@.memos == old(self)@.memos.remove(id),
            !old(self)@.up ==> (r matches Err(AppError::StorageUnavailable(_))) && final(self)@ == old(self)@,
    {
        if !self.available {
            return Err(unavailable_error());
        }
        self.table.remove(id);
        Ok(())
    }

    /// Whether a memo with identifier `id` is stored.
    pub fn contains(&self, id: u128) -> (r: AppResult<bool>)
        requires
            self.wf(),
        ensures
            self@.up ==> r == Ok::<bool, AppError>(self@.memos.contains_key(id)),
            !self@.up ==> (r matches Err(AppError::StorageUnavailable(_))),
    {
        if !self.available {
            return Err(unavailable_error());
        }
        Ok(self.table.contains(id))
    }

    /// Whether the store answers.
    pub fn health_check(&self) -> (r: AppResult<bool>)
        ensures
            self@.up ==> r == Ok::<bool, AppError>(true),
            !self@.up ==> (r matches Err(AppError::StorageUnavailable(_))),
    {
        if !self.available {
            return Err(unavailable_error());
        }
        Ok(true)
    }
}

} // verus!
