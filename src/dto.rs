//! Request and response shapes of the memo service.

use vstd::prelude::*;
use crate::memo::{Memo, MemoView};

verus! {

/// The fields of a memo to create.
#[derive(Debug)]
pub struct CreateMemoDto {
    pub title: String,
    pub content: String,
    pub tags: Vec<String>,
}

/// The changes to a memo, and the version the caller last saw.
#[derive(Debug)]
pub struct UpdateMemoDto {
    pub title: Option<String>,
    pub content: Option<String>,
    pub tags: Option<Vec<String>>,
    pub version: i32,
}

/// A memo as returned to a client.
#[derive(Debug)]
pub struct MemoResponse {
    pub id: u128,
    pub title: String,
    pub content: String,
    pub tags: Vec<String>,
    pub user_id: u128,
    pub created_at: i64,
    pub updated_at: i64,
    pub version: i32,
}

impl View for MemoResponse {
    type V = MemoView;

    open spec fn view(&self) -> MemoView {
        MemoView {
            id: self.id,
            title: self.title@,
            content: self.content@,
            tags: self.tags.deep_view(),
            user_id: self.user_id,
            created_at: self.created_at,
            updated_at: self.updated_at,
            version: self.version,
        }
    }
}

impl From<Memo> for MemoResponse {
    fn from(memo: Memo) -> (r: Self) {
        MemoResponse {
            id: memo.id,
            title: memo.title,
            content: memo.content,
            tags: memo.tags,
            user_id: memo.user_id,
            created_at: memo.created_at,
            updated_at: memo.updated_at,
            version: memo.version,
        }
    }
}

impl vstd::std_specs::convert::FromSpecImpl<Memo> for MemoResponse {
    open spec fn obeys_from_spec() -> bool {
        true
    }

    open spec fn from_spec(memo: Memo) -> MemoResponse {
        MemoResponse {
            id: memo.id,
            title: memo.title,
            content: memo.content,
            tags: memo.tags,
            user_id: memo.user_id,
            created_at: memo.created_at,
            updated_at: memo.updated_at,
            version: memo.version,
        }
    }
}

/// One page of search results.
#[derive(Debug)]
pub struct SearchResponse {
    pub items: Vec<MemoResponse>,
    pub total: usize,
    pub page: usize,
    pub total_pages: usize,
}

/// The views of a list of responses.
pub open spec fn response_views(v: Seq<MemoResponse>) -> Seq<MemoView> {
    v.map_values(|r: MemoResponse| r@)
}

/// The views of a list of memos.
pub open spec fn memo_views(v: Seq<Memo>) -> Seq<MemoView> {
    v.map_values(|m: Memo| m@)
}

/// The responses for a list of memos, in the same order.
pub fn responses(memos: &Vec<Memo>) -> (r: Vec<MemoResponse>)
    ensures
        response_views(r@) == memo_views(memos@),
{
    let mut out: Vec<MemoResponse> = Vec::new();
    let mut i: usize = 0;
    while i < memos.len()
        invariant
            i <= memos.len(),
            out.len() == i,
            forall|k: int| 0 <= k < i ==> (#[trigger] out@[k])@ == memos@[k]@,
        decreases memos.len() - i,
    {
        out.push(MemoResponse::from(memos[i].clone()));
        i = i + 1;
    }
    assert(response_views(out@) =~= memo_views(memos@));
    out
}

/// Search parameters of a request; the page defaults to 1 and the page size to 20.
#[derive(Debug)]
pub struct SearchParams {
    pub query: Option<String>,
    pub tag: Option<String>,
    pub page: usize,
    pub limit: usize,
}

/// The page requested when none is given.
pub fn default_page() -> (r: usize)
    ensures
        r == 1,
{
    1
}

/// The page size requested when none is given.
pub fn default_limit() -> (r: usize)
    ensures
        r == 20,
{
    20
}

} // verus!
