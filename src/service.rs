//! The memo service: owner-scoped use cases over the repository.

use vstd::prelude::*;
use crate::cache::CacheView;
use crate::clock::now_millis;
use crate::dto::{CreateMemoDto, MemoResponse, SearchResponse, UpdateMemoDto, memo_views, response_views, responses};
use crate::error::{AppError, AppResult};
use crate::index::{search_result, tag_view};
use crate::memo::{Memo, MemoView};
use crate::primary::StoreView;
use crate::repository::{
    MemoRepositoryImpl, RepoView, SaveOutcome, WriteReport, after_read, after_save, delete_effect,
    read_fails, save_effect, seen_by_read,
};
use crate::table::lists_owned;

verus! {

/// Why a use case of `user` stops right after reading `id` at `now`; `None`
/// when the read found a memo of `user` and the use case goes on.
pub open spec fn read_outcome(s: RepoView, id: u128, user: u128, now: i64) -> Option<ReadRefusal> {
    if read_fails(s, id, now) {
        Some(ReadRefusal::Unavailable)
    } else {
        match seen_by_read(s, id, now) {
            None => Some(ReadRefusal::Missing),
            Some(m) => if m.user_id == user {
                None
            } else {
                Some(ReadRefusal::Foreign)
            },
        }
    }
}

/// Why a use case stopped after its read.
pub enum ReadRefusal {
    /// Neither the cache nor the primary store answered: `StorageUnavailable`.
    Unavailable,
    /// No such memo: `NotFound`.
    Missing,
    /// The memo belongs to someone else: `Unauthorized`.
    Foreign,
}

/// The error a refused read gives.
pub open spec fn refused_with<T>(r: AppResult<T>, why: ReadRefusal) -> bool {
    match why {
        ReadRefusal::Unavailable => r matches Err(AppError::StorageUnavailable(_)),
        ReadRefusal::Missing => r matches Err(AppError::NotFound(_)),
        ReadRefusal::Foreign => r matches Err(AppError::Unauthorized(_)),
    }
}

/// What `get_memo` of `id` for `user`, reading at `now`, returns and leaves.
pub open spec fn get_effect(s: RepoView, id: u128, user: u128, now: i64, r: AppResult<MemoResponse>, t: RepoView) -> bool {
    &&& t == after_read(s, id, now)
    &&& match read_outcome(s, id, user, now) {
        Some(why) => refused_with(r, why),
        None => r matches Ok(resp) && Some(resp@) == seen_by_read(s, id, now),
    }
}

/// What `delete_memo` of `id` for `user`, reading at `now`, returns and leaves.
pub open spec fn delete_memo_effect(s: RepoView, id: u128, user: u128, now: i64, r: AppResult<WriteReport>, t: RepoView) -> bool {
    match read_outcome(s, id, user, now) {
        Some(why) => refused_with(r, why) && t == after_read(s, id, now),
        None => delete_effect(after_read(s, id, now), id, r, t),
    }
}

/// `m2` is `m` with the changes of `dto` applied as one mutation.
pub open spec fn applies_changes(m: MemoView, dto: UpdateMemoDto, m2: MemoView) -> bool {
    &&& m2.id == m.id
    &&& m2.user_id == m.user_id
    &&& m2.created_at == m.created_at
    &&& m2.title == (match dto.title {
        Some(t) => t@,
        None => m.title,
    })
    &&& m2.content == (match dto.content {
        Some(c) => c@,
        None => m.content,
    })
    &&& m2.tags == (match dto.tags {
        Some(t) => t.deep_view(),
        None => m.tags,
    })
    &&& m2.updated_at > m.updated_at
    &&& m2.version == m.version + 1
}

/// The service's answer `r` mirrors the repository's answer `r0`: the saved
/// memo and which secondary stores the write reached, or the same error.
pub open spec fn responds_as(r: AppResult<(MemoResponse, WriteReport)>, r0: AppResult<SaveOutcome>) -> bool {
    match r0 {
        Ok(o) => r matches Ok((resp, w)) && resp@ == o.memo@ && w == o.report,
        Err(e) => r == Err::<(MemoResponse, WriteReport), AppError>(e),
    }
}

/// What `update_memo` of `id` for `user`, reading at `now`, returns and
/// leaves: the checks on the memo read, then a save that expects the version
/// the caller saw.
pub open spec fn update_effect(
    s: RepoView,
    id: u128,
    dto: UpdateMemoDto,
    user: u128,
    now: i64,
    r: AppResult<(MemoResponse, WriteReport)>,
    t: RepoView,
) -> bool {
    let s1 = after_read(s, id, now);
    match read_outcome(s, id, user, now) {
        Some(why) => refused_with(r, why) && t == s1,
        None => {
            let m = seen_by_read(s, id, now)->0;
            if m.version != dto.version {
                (r matches Err(AppError::Conflict(_))) && t == s1
            } else if m.version == i32::MAX || m.updated_at == i64::MAX {
                (r matches Err(AppError::BadRequest(_))) && t == s1
            } else {
                exists|m2: MemoView, r0: AppResult<SaveOutcome>|
                    applies_changes(m, dto, m2) && #[trigger] save_effect(s1, m2, Some(dto.version), r0, t)
                        && responds_as(r, r0)
            }
        },
    }
}

/// Memo use cases for authenticated principals.
pub struct MemoService {
    memo_repository: MemoRepositoryImpl,
}

impl View for MemoService {
    type V = RepoView;

    closed spec fn view(&self) -> RepoView {
        self.memo_repository@
    }
}

/// The error for a memo that does not exist.
fn not_found() -> (e: AppError)
    ensures
        e matches AppError::NotFound(_),
{
    AppError::NotFound(String::from_str("Memo not found"))
}

impl MemoService {
    /// The internal invariant: that of the repository.
    pub closed spec fn wf(&self) -> bool {
        self.memo_repository.wf()
    }

    /// A service over the given repository.
    pub fn new(memo_repository: MemoRepositoryImpl) -> (r: Self)
        requires
            memo_repository.wf(),
        ensures
            r.wf(),
            r@ == memo_repository@,
    {
        MemoService { memo_repository }
    }

    /// The repository behind the service.
    pub fn repository(&self) -> (r: &MemoRepositoryImpl)
        requires
            self.wf(),
        ensures
            r.wf(),
            r@ == self@,
    {
        &self.memo_repository
    }

    /// Marks each store reachable or unreachable.
    pub fn set_availability(&mut self, primary: bool, cache: bool, index: bool)
        requires
            old(self).wf(),
        ensures
            final(self).wf(),
            final(self)@ == (RepoView {
                primary: StoreView { up: primary, ..old(self)@.primary },
                cache: CacheView { up: cache, ..old(self)@.cache },
                index: StoreView { up: index, ..old(self)@.index },
            }),
    {
        self.memo_repository.set_availability(primary, cache, index);
    }

    /// Creates a memo at version 1 owned by `user_id`, and reports which
    /// secondary stores the write reached.
    pub fn create_memo(&mut self, dto: CreateMemoDto, user_id: u128) -> (r: AppResult<(MemoResponse, WriteReport)>)
        requires
            old(self).wf(),
        ensures
            final(self).wf(),
            r matches Ok((resp, w)) ==> {
                &&& resp@.title == dto.title@
                &&& resp@.content == dto.content@
                &&& resp@.tags == dto.tags.deep_view()
                &&& resp.user_id == user_id
                &&& resp.version == 1
                &&& resp.created_at == resp.updated_at
                &&& !old(self)@.primary.memos.contains_key(resp.id)
                &&& final(self)@ == after_save(old(self)@, resp@, None)
                &&& w == (WriteReport { cache_invalidated: old(self)@.cache.up, index_updated: old(self)@.index.up })
            },
            r is Err ==> final(self)@ == old(self)@,
            !old(self)@.primary.up ==> (r matches Err(AppError::StorageUnavailable(_))),
            old(self)@.primary.up ==> r is Ok || (r matches Err(AppError::Conflict(_))),
            old(self)@.primary.up && (forall|k: u128| !old(self)@.primary.memos.contains_key(k)) ==> r is Ok,
            (r matches Err(AppError::Conflict(_))) ==> exists|k: u128| old(self)@.primary.memos.contains_key(k),
    {
        let memo = Memo::new(dto.title, dto.content, dto.tags, user_id);
        match self.memo_repository.save(&memo, None) {
            Ok(saved) => Ok((MemoResponse::from(saved.memo), saved.report)),
            Err(e) => Err(e),
        }
    }

    /// Applies `dto` to the memo `id` of `user_id`, reading it at clock
    /// reading `now`, provided the caller saw its current version; the stored
    /// version then goes up by one. Reports which secondary stores the write
    /// reached.
    pub fn update_memo_at(
        &mut self,
        id: u128,
        dto: UpdateMemoDto,
        user_id: u128,
        now: i64,
    ) -> (r: AppResult<(MemoResponse, WriteReport)>)
        requires
            old(self).wf(),
        ensures
            final(self).wf(),
            update_effect(old(self)@, id, dto, user_id, now, r, final(self)@),
    {
        let ghost d = dto;
        let mut memo = match self.memo_repository.find_by_id_at(id, now) {
            Ok(Some(m)) => m,
            Ok(None) => {
                return Err(not_found());
            },
            Err(e) => {
                return Err(e);
            },
        };
        if memo.user_id != user_id {
            return Err(AppError::Unauthorized(String::from_str("Not authorized to update this memo")));
        }
        if memo.version != dto.version {
            return Err(AppError::Conflict(String::from_str("Memo has been updated by another user")));
        }
        if memo.version == i32::MAX || memo.updated_at == i64::MAX {
            return Err(AppError::BadRequest(String::from_str("Memo can no longer be updated")));
        }
        let ghost seen = memo@;
        let ghost s1 = self@;
        memo.update(dto.title, dto.content, dto.tags);
        let saved = self.memo_repository.save(&memo, Some(dto.version));
        let ghost r0 = saved;
        let r = match saved {
            Ok(saved) => Ok((MemoResponse::from(saved.memo), saved.report)),
            Err(e) => Err(e),
        };
        proof {
            assert(applies_changes(seen, d, memo@));
            assert(save_effect(s1, memo@, Some(d.version), r0, self@));
            assert(responds_as(r, r0));
            assert(read_outcome(old(self)@, id, user_id, now) is None);
            assert(seen_by_read(old(self)@, id, now)->0 == seen);
            assert(s1 == after_read(old(self)@, id, now));
        }
        r
    }

    /// Applies `dto` to the memo `id` of `user_id`, provided the caller saw
    /// its current version.
    pub fn update_memo(&mut self, id: u128, dto: UpdateMemoDto, user_id: u128) -> (r: AppResult<(MemoResponse, WriteReport)>)
        requires
            old(self).wf(),
        ensures
            final(self).wf(),
            exists|now: i64| update_effect(old(self)@, id, dto, user_id, now, r, final(self)@),
    {
        let now = now_millis();
        let r = self.update_memo_at(id, dto, user_id, now);
        assert(update_effect(old(self)@, id, dto, user_id, now, r, self@));
        r
    }

    /// The memo `id`, read at clock reading `now`, when it belongs to `user_id`.
    pub fn get_memo_at(&mut self, id: u128, user_id: u128, now: i64) -> (r: AppResult<MemoResponse>)
        requires
            old(self).wf(),
        ensures
            final(self).wf(),
            get_effect(old(self)@, id, user_id, now, r, final(self)@),
    {
        let memo = match self.memo_repository.find_by_id_at(id, now) {
            Ok(Some(m)) => m,
            Ok(None) => {
                return Err(not_found());
            },
            Err(e) => {
                return Err(e);
            },
        };
        if memo.user_id != user_id {
            return Err(AppError::Unauthorized(String::from_str("Not authorized to view this memo")));
        }
        Ok(MemoResponse::from(memo))
    }

    /// The memo `id`, when it belongs to `user_id`.
    pub fn get_memo(&mut self, id: u128, user_id: u128) -> (r: AppResult<MemoResponse>)
        requires
            old(self).wf(),
        ensures
            final(self).wf(),
            exists|now: i64| get_effect(old(self)@, id, user_id, now, r, final(self)@),
    {
        let now = now_millis();
        let r = self.get_memo_at(id, user_id, now);
        assert(get_effect(old(self)@, id, user_id, now, r, self@));
        r
    }

    /// Deletes the memo `id`, read at clock reading `now`, when it belongs to
    /// `user_id`.
    pub fn delete_memo_at(&mut self, id: u128, user_id: u128, now: i64) -> (r: AppResult<WriteReport>)
        requires
            old(self).wf(),
        ensures
            final(self).wf(),
            delete_memo_effect(old(self)@, id, user_id, now, r, final(self)@),
    {
        let memo = match self.memo_repository.find_by_id_at(id, now) {
            Ok(Some(m)) => m,
            Ok(None) => {
                return Err(not_found());
            },
            Err(e) => {
                return Err(e);
            },
        };
        if memo.user_id != user_id {
            return Err(AppError::Unauthorized(String::from_str("Not authorized to delete this memo")));
        }
        self.memo_repository.delete(id)
    }

    /// Deletes the memo `id`, when it belongs to `user_id`.
    pub fn delete_memo(&mut self, id: u128, user_id: u128) -> (r: AppResult<WriteReport>)
        requires
            old(self).wf(),
        ensures
            final(self).wf(),
            exists|now: i64| delete_memo_effect(old(self)@, id, user_id, now, r, final(self)@),
    {
        let now = now_millis();
        let r = self.delete_memo_at(id, user_id, now);
        assert(delete_memo_effect(old(self)@, id, user_id, now, r, self@));
        r
    }

    /// Every memo of `user_id`.
    pub fn get_user_memos(&self, user_id: u128) -> (r: AppResult<Vec<MemoResponse>>)
        requires
            self.wf(),
        ensures
            self@.primary.up ==> (r matches Ok(v) && exists|ms: Seq<Memo>|
                lists_owned(ms, self@.primary.memos, user_id) && response_views(v@) == memo_views(ms)),
            !self@.primary.up ==> (r matches Err(AppError::StorageUnavailable(_))),
    {
        match self.memo_repository.find_all_by_user_id(user_id) {
            Ok(memos) => Ok(responses(&memos)),
            Err(e) => Err(e),
        }
    }

    /// The memos of `user_id` that match `query` and `tag`, as one page.
    pub fn search_memos(&self, query: &str, tag: Option<String>, user_id: u128) -> (r: AppResult<SearchResponse>)
        requires
            self.wf(),
        ensures
            self@.index.up ==> (r matches Ok(resp) && exists|ms: Seq<Memo>|
                search_result(ms, self@.index.memos, query@, tag_view(tag), user_id)
                && response_views(resp.items@) == memo_views(ms)),
            r matches Ok(resp) ==> resp.total == resp.items.len() && resp.page == 1 && resp.total_pages == 1,
            !self@.index.up ==> (r matches Err(AppError::IndexUnavailable(_))),
    {
        match self.memo_repository.search(query, tag, user_id) {
            Ok(memos) => {
                let items = responses(&memos);
                let total = items.len();
                Ok(SearchResponse { items, total, page: 1, total_pages: 1 })
            },
            Err(e) => Err(e),
        }
    }
}

} // verus!
