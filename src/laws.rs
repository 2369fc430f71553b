//! Properties of the coordinator that span several calls, proved from the
//! contracts of the individual operations.

use vstd::prelude::*;
use crate::error::{AppError, AppResult};
use crate::index::{contains_text, in_rank_order, relevance, search_match, search_result};
use crate::memo::{Memo, MemoView};
use crate::primary::cas_applies;
use crate::repository::{
    RepoView, SaveOutcome, WriteReport, delete_effect, find_effect, primary_accepts, save_effect, stored_record,
};
use crate::table::{has_row, lists_owned};

verus! {

/// Saves that arrive after a winner and expect the version it replaced all
/// get `Conflict` and change nothing.
proof fn lemma_losers(ms: Seq<MemoView>, v: i32, rs: Seq<AppResult<SaveOutcome>>, ts: Seq<RepoView>, i: int)
    requires
        1 <= i <= ms.len(),
        rs.len() == ms.len(),
        ts.len() == ms.len() + 1,
        ts[1].primary.up,
        ts[1].primary.memos.contains_key(ms[0].id),
        ts[1].primary.memos[ms[0].id].version == v + 1,
        v < i32::MAX,
        forall|j: int| 0 <= j < ms.len() ==> (#[trigger] ms[j]).id == ms[0].id,
        forall|j: int| 0 <= j < ms.len() ==> save_effect(ts[j], ms[j], Some(v), #[trigger] rs[j], ts[j + 1]),
    ensures
        ts[i] == ts[1],
        forall|j: int| 1 <= j < i ==> (#[trigger] rs[j]) matches Err(AppError::Conflict(_)),
    decreases i,
{
    if i > 1 {
        lemma_losers(ms, v, rs, ts, i - 1);
        assert(save_effect(ts[i - 1], ms[i - 1], Some(v), rs[i - 1], ts[(i - 1) + 1]));
        assert(ms[i - 1].id == ms[0].id);
    }
}

/// Any number of saves of one memo that all expect the version `v` it has,
/// reaching the primary store one after another: the first wins, storing
/// version `v + 1` with its own title, content and tags; every other one gets
/// `Conflict` and leaves all three stores as the winner left them.
pub proof fn lemma_one_winner_among(ms: Seq<MemoView>, v: i32, rs: Seq<AppResult<SaveOutcome>>, ts: Seq<RepoView>)
    requires
        ms.len() >= 1,
        rs.len() == ms.len(),
        ts.len() == ms.len() + 1,
        ts[0].primary.up,
        cas_applies(ts[0].primary.memos, ms[0].id, v),
        v < i32::MAX,
        forall|i: int| 0 <= i < ms.len() ==> (#[trigger] ms[i]).id == ms[0].id,
        forall|i: int| 0 <= i < ms.len() ==> save_effect(ts[i], ms[i], Some(v), #[trigger] rs[i], ts[i + 1]),
    ensures
        rs[0] matches Ok(o) && o.memo@.version == v + 1,
        ts[1].primary.memos[ms[0].id].version == v + 1,
        ts[1].primary.memos[ms[0].id].title == ms[0].title,
        ts[1].primary.memos[ms[0].id].content == ms[0].content,
        ts[1].primary.memos[ms[0].id].tags == ms[0].tags,
        forall|i: int| 1 <= i < ms.len() ==> (#[trigger] rs[i]) matches Err(AppError::Conflict(_)),
        forall|i: int| 1 <= i <= ms.len() ==> #[trigger] ts[i] == ts[1],
{
    assert(save_effect(ts[0], ms[0], Some(v), rs[0], ts[0int + 1]));
    lemma_losers(ms, v, rs, ts, ms.len() as int);
    assert forall|i: int| 1 <= i <= ms.len() implies #[trigger] ts[i] == ts[1] by {
        lemma_losers(ms, v, rs, ts, i);
    }
}

/// An accepted update keeps the record's identity, owner and creation time,
/// raises its version by exactly one, never moves `updated_at` back, and so
/// keeps a well-formed record well-formed.
pub proof fn lemma_update_keeps_record_invariants(s: RepoView, m: MemoView, v: i32)
    requires
        primary_accepts(s, m, Some(v)),
        s.primary.memos.contains_key(m.id),
    ensures
        ({
            let before = s.primary.memos[m.id];
            let after = stored_record(s, m, Some(v));
            &&& after.id == before.id
            &&& after.user_id == before.user_id
            &&& after.created_at == before.created_at
            &&& after.version == before.version + 1
            &&& after.updated_at >= before.updated_at
            &&& before.wf() ==> after.wf()
        }),
{
}

/// Deleting twice never fails the second time: once a delete succeeded, a
/// second one of the same identifier succeeds and changes nothing more in
/// the primary store.
pub proof fn lemma_delete_idempotent(
    s: RepoView,
    id: u128,
    r1: AppResult<WriteReport>,
    t1: RepoView,
    r2: AppResult<WriteReport>,
    t2: RepoView,
)
    requires
        delete_effect(s, id, r1, t1),
        r1 is Ok,
        delete_effect(t1, id, r2, t2),
    ensures
        r2 is Ok,
        t2.primary == t1.primary,
        !t2.primary.memos.contains_key(id),
{
    assert(t1.primary.memos.remove(id) =~= t1.primary.memos);
}

/// A read right after a successful save returns exactly the record the save
/// stored, so never an older version: the save dropped the cache entry, or
/// the cache is unreachable and the read goes to the primary store.
pub proof fn lemma_read_after_save(
    s: RepoView,
    m: MemoView,
    expected: Option<i32>,
    now: i64,
    r1: AppResult<SaveOutcome>,
    t1: RepoView,
    r2: AppResult<Option<Memo>>,
    t2: RepoView,
)
    requires
        save_effect(s, m, expected, r1, t1),
        r1 is Ok,
        find_effect(t1, m.id, now, r2, t2),
    ensures
        r1 matches Ok(o) && r2 matches Ok(Some(f)) && f@ == o.memo@,
        r1 matches Ok(o) && r2 matches Ok(Some(f)) && f.version >= o.memo.version,
{
}

/// Round trip: after a memo is created, reading its identifier returns a
/// memo equal to it in every field.
pub proof fn lemma_create_then_find(
    s: RepoView,
    m: MemoView,
    now: i64,
    r1: AppResult<SaveOutcome>,
    t1: RepoView,
    r2: AppResult<Option<Memo>>,
    t2: RepoView,
)
    requires
        m.version == 1,
        save_effect(s, m, None, r1, t1),
        r1 is Ok,
        find_effect(t1, m.id, now, r2, t2),
    ensures
        r2 matches Ok(Some(f)) && f@ == m,
{
}

/// A search with empty text and no tag filter returns exactly the memos of
/// the owner present in the index, each once, most recently updated first.
pub proof fn lemma_search_everything(out: Seq<Memo>, memos: Map<u128, MemoView>, owner: u128)
    requires
        search_result(out, memos, Seq::<char>::empty(), None, owner),
    ensures
        lists_owned(out, memos, owner),
        forall|i: int, j: int| 0 <= i < j < out.len() ==> (#[trigger] out[i]).updated_at >= (#[trigger] out[j]).updated_at,
{
    let q = Seq::<char>::empty();
    assert forall|m: MemoView| #[trigger] relevance(m, q) == 3 by {
        assert(m.title.subrange(0int, 0int + q.len()) =~= q);
        assert(m.content.subrange(0int, 0int + q.len()) =~= q);
        assert(contains_text(m.title, q));
        assert(contains_text(m.content, q));
    }
    assert forall|i: int, j: int| 0 <= i < j < out.len() implies (#[trigger] out[i]).updated_at >= (#[trigger] out[j]).updated_at by {
        assert(relevance(out[i]@, q) == 3);
        assert(relevance(out[j]@, q) == 3);
    }
    assert forall|id: u128| #[trigger]
        memos.contains_key(id) && memos[id].user_id == owner implies has_row(out, id) by {
        assert(search_match(memos[id], q, None, owner));
    }
}

} // verus!
