//! The search index: an eventually consistent projection of the memos,
//! queried by text, tag and owner and ranked by relevance, then recency.
//! This one is held in process and matches text by substring; its
//! reachability can be switched to exercise outages.

use vstd::prelude::*;
use crate::error::{AppError, AppResult};
use crate::memo::{Memo, MemoView};
use crate::primary::StoreView;
use crate::table::{MemoTable, has_row, ids_unique, lemma_row_in_view};

verus! {

/// Whether `q` occurs in `s` as a contiguous run of characters.
pub open spec fn contains_text(s: Seq<char>, q: Seq<char>) -> bool {
    exists|i: int| 0 <= i && i + q.len() <= s.len() && #[trigger] s.subrange(i, i + q.len()) == q
}

/// The relevance of a memo to query text `q`: a title match weighs two, a
/// content match one.
pub open spec fn relevance(m: MemoView, q: Seq<char>) -> int {
    (if contains_text(m.title, q) { 2int } else { 0int }) + (if contains_text(m.content, q) { 1int } else { 0int })
}

/// Whether a memo answers a search: it belongs to `owner`, carries `tag` when
/// one is given, and matches `q` unless `q` is empty.
pub open spec fn search_match(m: MemoView, q: Seq<char>, tag: Option<Seq<char>>, owner: u128) -> bool {
    &&& m.user_id == owner
    &&& match tag {
        Some(t) => m.tags.contains(t),
        None => true,
    }
    &&& (q.len() == 0 || relevance(m, q) > 0)
}

/// `a` may come before `b` in search results: more relevant, or as relevant
/// and updated no earlier.
pub open spec fn ranks_before(a: MemoView, b: MemoView, q: Seq<char>) -> bool {
    relevance(a, q) > relevance(b, q) || (relevance(a, q) == relevance(b, q) && a.updated_at >= b.updated_at)
}

/// The results are in rank order.
pub open spec fn in_rank_order(s: Seq<Memo>, q: Seq<char>) -> bool {
    forall|i: int, j: int| 0 <= i < j < s.len() ==> ranks_before(#[trigger] s[i]@, #[trigger] s[j]@, q)
}

/// `out` is the answer to a search over `memos`: every matching memo once, in
/// rank order, and nothing else.
pub open spec fn search_result(
    out: Seq<Memo>,
    memos: Map<u128, MemoView>,
    q: Seq<char>,
    tag: Option<Seq<char>>,
    owner: u128,
) -> bool {
    &&& ids_unique(out)
    &&& forall|k: int|
        0 <= k < out.len() ==> {
            &&& memos.contains_key(#[trigger] out[k].id)
            &&& memos[out[k].id] == out[k]@
            &&& search_match(out[k]@, q, tag, owner)
        }
    &&& forall|id: u128| #[trigger]
        memos.contains_key(id) && search_match(memos[id], q, tag, owner) ==> has_row(out, id)
    &&& in_rank_order(out, q)
}

/// The view of an optional tag filter.
pub open spec fn tag_view(tag: Option<String>) -> Option<Seq<char>> {
    match tag {
        Some(t) => Some(t@),
        None => None,
    }
}

/// The characters of `s`.
fn chars_of(s: &str) -> (r: Vec<char>)
    ensures
        r@ == s@,
{
    let mut out: Vec<char> = Vec::new();
    for c in it: s.chars()
        invariant
            it.seq() == s@,
            out@ == s@.subrange(0, it.index() as int),
    {
        out.push(c);
        proof {
            assert(out@ =~= s@.subrange(0, it.index() + 1));
        }
    }
    assert(out@ =~= s@);
    out
}

/// Whether `q` occurs in `s`.
fn text_contains(s: &Vec<char>, q: &Vec<char>) -> (r: bool)
    ensures
        r == contains_text(s@, q@),
{
    if q.len() > s.len() {
        return false;
    }
    let last = s.len() - q.len();
    let mut i: usize = 0;
    while i <= last
        invariant
            i <= last + 1,
            last == s.len() - q.len(),
            forall|k: int| 0 <= k < i ==> #[trigger] s@.subrange(k, k + q.len()) != q@,
        decreases last + 1 - i,
    {
        let mut j: usize = 0;
        let mut same = true;
        while j < q.len()
            invariant
                j <= q.len(),
                i + q.len() <= s.len(),
                same == (forall|t: int| 0 <= t < j ==> s@[i + t] == q@[t]),
            decreases q.len() - j,
        {
            if s[i + j] != q[j] {
                same = false;
            }
            j = j + 1;
        }
        if same {
            proof {
                assert(s@.subrange(i as int, i + q.len()) =~= q@);
            }
            return true;
        }
        proof {
            let t = choose|t: int| 0 <= t < q.len() && s@[i + t] != q@[t];
            assert(s@.subrange(i as int, i + q.len())[t] != q@[t]);
        }
        i = i + 1;
    }
    false
}

/// The relevance of `m` to the query characters `q`.
fn relevance_of(m: &Memo, q: &Vec<char>) -> (r: u8)
    ensures
        r as int == relevance(m@, q@),
{
    let title = chars_of(m.title.as_str());
    let content = chars_of(m.content.as_str());
    let mut r: u8 = 0;
    if text_contains(&title, q) {
        r = r + 2;
    }
    if text_contains(&content, q) {
        r = r + 1;
    }
    r
}

/// Whether `tags` holds `t`.
fn has_tag(tags: &Vec<String>, t: &String) -> (r: bool)
    ensures
        r == tags.deep_view().contains(t@),
{
    let mut i: usize = 0;
    while i < tags.len()
        invariant
            i <= tags.len(),
            forall|k: int| 0 <= k < i ==> #[trigger] tags.deep_view()[k] != t@,
        decreases tags.len() - i,
    {
        proof {
            assert(tags.deep_view()[i as int] == tags[i as int]@);
        }
        if tags[i] == *t {
            return true;
        }
        i = i + 1;
    }
    false
}

/// The error for an unreachable index.
fn index_error() -> (e: AppError)
    ensures
        e matches AppError::IndexUnavailable(_),
{
    AppError::IndexUnavailable(String::from_str("search index unavailable"))
}

/// The search index of memos.
pub struct ElasticsearchClient {
    table: MemoTable,
    available: bool,
}

impl View for ElasticsearchClient {
    type V = StoreView;

    closed spec fn view(&self) -> StoreView {
        StoreView { memos: self.table@, up: self.available }
    }
}

impl ElasticsearchClient {
    /// The internal invariant: each identifier is indexed at most once.
    pub closed spec fn wf(&self) -> bool {
        self.table.wf()
    }

    /// An empty, reachable index. It is held in process, so the endpoint that
    /// names the backing service is not dialled.
    pub fn new(_uri: &str) -> (r: AppResult<Self>)
        ensures
            r matches Ok(s) && s.wf() && s@.up && s@.memos == Map::<u128, MemoView>::empty(),
    {
        Ok(ElasticsearchClient { table: MemoTable::new(), available: true })
    }

    /// Marks the index reachable or unreachable.
    pub fn set_available(&mut self, up: bool)
        requires
            old(self).wf(),
        ensures
            final(self).wf(),
            final(self)@ == (StoreView { up, ..old(self)@ }),
    {
        self.available = up;
    }

    /// Upserts `memo` by identifier; the last write wins.
    pub fn index_memo(&mut self, memo: &Memo) -> (r: AppResult<()>)
        requires
            old(self).wf(),
        ensures
            final(self).wf(),
            final(self)@.up == old(self)@.up,
            old(self)@.up ==> r is Ok && final(self)@.memos == old(self)@.memos.insert(memo.id, memo@),
            !old(self)@.up ==> (r matches Err(AppError::IndexUnavailable(_))) && final(self)@ == old(self)@,
    {
        if !self.available {
            return Err(index_error());
        }
        self.table.upsert(memo.clone());
        Ok(())
    }

    /// Removes the document of `id`, if any.
    pub fn delete_memo(&mut self, id: u128) -> (r: AppResult<()>)
        requires
            old(self).wf(),
        ensures
            final(self).wf(),
            final(self)@.up == old(self)@.up,
            old(self)@.up ==> r is Ok && final(self)@.memos == old(self)@.memos.remove(id),
            !old(self)@.up ==> (r matches Err(AppError::IndexUnavailable(_))) && final(self)@ == old(self)@,
    {
        if !self.available {
            return Err(index_error());
        }
        self.table.remove(id);
        Ok(())
    }

    /// The memos of `user_id` that match `query` and carry `tag`, most
    /// relevant first and, among equally relevant ones, most recently updated
    /// first. An empty query matches every memo of the owner.
    pub fn search_memos(&self, query: &str, tag: Option<String>, user_id: u128) -> (r: AppResult<Vec<Memo>>)
        requires
            self.wf(),
        ensures
            self@.up ==> (r matches Ok(v) && search_result(
                v@,
                self@.memos,
                query@,
                tag_view(tag),
                user_id,
            )),
            !self@.up ==> (r matches Err(AppError::IndexUnavailable(_))),
    {
        if !self.available {
            return Err(index_error());
        }
        let ghost tag_v = tag_view(tag);
        let q = chars_of(query);
        let rows = self.table.rows();
        let ghost memos = self@.memos;
        let mut out: Vec<Memo> = Vec::new();
        let mut scores: Vec<u8> = Vec::new();
        let mut i: usize = 0;
        while i < rows.len()
            invariant
                i <= rows.len(),
                q@ == query@,
                tag_v == tag_view(tag),
                ids_unique(rows@),
                crate::table::rows_view(rows@) == memos,
                out.len() == scores.len(),
                forall|k: int| 0 <= k < out.len() ==> #[trigger] scores@[k] as int == relevance(out@[k]@, q@),
                ids_unique(out@),
                forall|k: int|
                    0 <= k < out.len() ==> {
                        &&& memos.contains_key(#[trigger] out@[k].id)
                        &&& memos[out@[k].id] == out@[k]@
                        &&& search_match(out@[k]@, q@, tag_v, user_id)
                        &&& exists|j: int| 0 <= j < i && rows@[j].id == out@[k].id
                    },
                forall|j: int|
                    0 <= j < i && search_match(#[trigger] rows@[j]@, q@, tag_v, user_id) ==> has_row(out@, rows@[j].id),
                in_rank_order(out@, q@),
            decreases rows.len() - i,
        {
            proof {
                lemma_row_in_view(rows@, i as int);
            }
            let m = &rows[i];
            let score = relevance_of(m, &q);
            let tag_ok = match &tag {
                Some(t) => has_tag(&m.tags, t),
                None => true,
            };
            if m.user_id == user_id && tag_ok && (q.len() == 0 || score > 0) {
                let mut p: usize = 0;
                while p < out.len() && (scores[p] > score || (scores[p] == score && out[p].updated_at >= m.updated_at))
                    invariant
                        p <= out.len(),
                        out.len() == scores.len(),
                        forall|k: int| 0 <= k < out.len() ==> #[trigger] scores@[k] as int == relevance(out@[k]@, q@),
                        score as int == relevance(m@, q@),
                        forall|k: int| 0 <= k < p ==> ranks_before(#[trigger] out@[k]@, m@, q@),
                    decreases out.len() - p,
                {
                    p = p + 1;
                }
                let ghost old_out = out@;
                let ghost old_scores = scores@;
                let c = m.clone();
                proof {
                    assert forall|k: int| 0 <= k < old_out.len() implies #[trigger] old_out[k].id != c.id by {
                        let j = choose|j: int| 0 <= j < i && rows@[j].id == old_out[k].id;
                        if old_out[k].id == c.id {
                            assert(rows@[j].id == rows@[i as int].id);
                        }
                    }
                    old_out.insert_ensures(p as int, c);
                    scores@.insert_ensures(p as int, score);
                }
                out.insert(p, c);
                scores.insert(p, score);
                proof {
                    let o = out@;
                    assert forall|k: int| 0 <= k < o.len() implies #[trigger] o[k] == (if k < p {
                        old_out[k]
                    } else if k == p {
                        c
                    } else {
                        old_out[k - 1]
                    }) by {
                        if k > p {
                            assert(o[(k - 1) + 1] == old_out[k - 1]);
                        }
                    }
                    assert forall|k: int| 0 <= k < o.len() implies #[trigger] scores@[k] as int == relevance(o[k]@, q@) by {
                        if k > p {
                            assert(scores@[(k - 1) + 1] == old_scores[k - 1]);
                        }
                    }
                    assert(tag_ok == match tag_v {
                        Some(t) => c@.tags.contains(t),
                        None => true,
                    });
                    assert(search_match(c@, q@, tag_v, user_id));
                    assert forall|a: int, b: int|
                        0 <= a < o.len() && 0 <= b < o.len() && #[trigger] o[a].id == #[trigger] o[b].id implies a == b by {
                        if a != p && b != p {
                            let oa = if a < p { a } else { a - 1 };
                            let ob = if b < p { b } else { b - 1 };
                            assert(old_out[oa].id == old_out[ob].id);
                        } else if a != p {
                            let oa = if a < p { a } else { a - 1 };
                            assert(old_out[oa].id != c.id);
                        } else if b != p {
                            let ob = if b < p { b } else { b - 1 };
                            assert(old_out[ob].id != c.id);
                        }
                    }
                    assert forall|k: int|
                        0 <= k < o.len() implies {
                            &&& memos.contains_key(#[trigger] o[k].id)
                            &&& memos[o[k].id] == o[k]@
                            &&& search_match(o[k]@, q@, tag_v, user_id)
                            &&& exists|j: int| 0 <= j < i + 1 && rows@[j].id == o[k].id
                        } by {
                        if k == p {
                            assert(rows@[i as int].id == o[k].id);
                        } else {
                            let ok = if k < p { k } else { k - 1 };
                            assert(o[k] == old_out[ok]);
                            let j = choose|j: int| 0 <= j < i && rows@[j].id == old_out[ok].id;
                            assert(rows@[j].id == o[k].id);
                        }
                    }
                    assert forall|j: int|
                        0 <= j < i + 1 && search_match(#[trigger] rows@[j]@, q@, tag_v, user_id) implies has_row(o, rows@[j].id) by {
                        if j == i {
                            assert(o[p as int].id == rows@[j].id);
                        } else {
                            let k = choose|k: int| 0 <= k < old_out.len() && #[trigger] old_out[k].id == rows@[j].id;
                            let ok = if k < p { k } else { k + 1 };
                            assert(o[ok] == old_out[k]);
                        }
                    }
                    assert forall|a: int, b: int| 0 <= a < b < o.len() implies ranks_before(#[trigger] o[a]@, #[trigger] o[b]@, q@) by {
                        if b < p {
                            assert(ranks_before(old_out[a]@, old_out[b]@, q@));
                        } else if b == p {
                            assert(ranks_before(old_out[a]@, m@, q@));
                        } else if a < p {
                            assert(ranks_before(old_out[a]@, old_out[b - 1]@, q@));
                        } else if a == p {
                            assert(old_scores[p as int] as int == relevance(old_out[p as int]@, q@));
                            if b - 1 > p {
                                assert(ranks_before(old_out[p as int]@, old_out[b - 1]@, q@));
                            }
                        } else {
                            assert(ranks_before(old_out[a - 1]@, old_out[b - 1]@, q@));
                        }
                    }
                }
            } else {
                proof {
                    assert(!search_match(rows@[i as int]@, q@, tag_v, user_id));
                }
            }
            i = i + 1;
        }
        Ok(out)
    }

    /// Whether the index answers.
    pub fn health_check(&self) -> (r: AppResult<bool>)
        ensures
            self@.up ==> r == Ok::<bool, AppError>(true),
            !self@.up ==> (r matches Err(AppError::IndexUnavailable(_))),
    {
        if !self.available {
            return Err(index_error());
        }
        Ok(true)
    }
}

} // verus!
