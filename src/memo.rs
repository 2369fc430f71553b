//! The memo entity: a versioned document owned by one principal.

use vstd::prelude::*;
use crate::clock::{MAX_CLOCK_MILLIS, now_millis};
use crate::ident::new_id;
use crate::text::{blank, is_blank};

verus! {

/// At most this many tags may be attached to a memo.
pub const MAX_TAGS: usize = 10;

/// A memo as a mathematical value.
pub struct MemoView {
    pub id: u128,
    pub title: Seq<char>,
    pub content: Seq<char>,
    pub tags: Seq<Seq<char>>,
    pub user_id: u128,
    pub created_at: i64,
    pub updated_at: i64,
    pub version: i32,
}

impl MemoView {
    /// The record invariants: a positive version and `created_at <= updated_at`.
    pub open spec fn wf(self) -> bool {
        &&& self.version >= 1
        &&& self.created_at <= self.updated_at
    }

    /// The content rules: non-blank title and content, at most ten tags, none blank.
    pub open spec fn is_valid(self) -> bool {
        &&& !blank(self.title)
        &&& !blank(self.content)
        &&& self.tags.len() <= MAX_TAGS
        &&& forall|i: int| 0 <= i < self.tags.len() ==> !blank(#[trigger] self.tags[i])
    }
}

/// A memo. Timestamps are milliseconds since the Unix epoch; identifiers are
/// 128-bit UUID values.
#[derive(Debug)]
pub struct Memo {
    pub id: u128,
    pub title: String,
    pub content: String,
    pub tags: Vec<String>,
    pub user_id: u128,
    pub created_at: i64,
    pub updated_at: i64,
    pub version: i32,
}

impl View for Memo {
    type V = MemoView;

    open spec fn view(&self) -> MemoView {
        MemoView {
            id: self.id,
            title: self.title@,
            content: self.content@,
            tags: self.tags.deep_view(),
            user_id: self.user_id,
            created_at: self.created_at,
            updated_at: self.updated_at,
            version: self.version,
        }
    }
}

/// The view of an optional memo.
pub open spec fn opt_view(o: Option<Memo>) -> Option<MemoView> {
    match o {
        Some(m) => Some(m@),
        None => None,
    }
}

/// The timestamp a mutation at clock reading `now` gives a memo last changed
/// at `prev`: strictly later than `prev`.
pub open spec fn touched(prev: i64, now: i64) -> i64 {
    if now > prev {
        now
    } else {
        (prev + 1) as i64
    }
}

impl Clone for Memo {
    fn clone(&self) -> (r: Self)
        ensures
            r@ == self@,
    {
        let tags = self.tags.clone();
        proof {
            assert(tags.deep_view() =~= self.tags.deep_view());
        }
        Memo {
            id: self.id,
            title: self.title.clone(),
            content: self.content.clone(),
            tags,
            user_id: self.user_id,
            created_at: self.created_at,
            updated_at: self.updated_at,
            version: self.version,
        }
    }
}

impl Memo {
    /// A fresh memo at version 1 with a new identifier, stamped with the current time.
    pub fn new(title: String, content: String, tags: Vec<String>, user_id: u128) -> (r: Self)
        ensures
            r@.title == title@,
            r@.content == content@,
            r@.tags == tags.deep_view(),
            r.user_id == user_id,
            r.version == 1,
            r.created_at == r.updated_at,
            0 <= r.created_at <= MAX_CLOCK_MILLIS,
            r.id != 0,
            r@.wf(),
    {
        let now = now_millis();
        Memo {
            id: new_id(),
            title,
            content,
            tags,
            user_id,
            created_at: now,
            updated_at: now,
            version: 1,
        }
    }

    /// Applies the given field changes as one mutation made at clock reading
    /// `now`: the version goes up by one and `updated_at` moves strictly forward.
    pub fn update_at(
        &mut self,
        title: Option<String>,
        content: Option<String>,
        tags: Option<Vec<String>>,
        now: i64,
    )
        requires
            old(self).version < i32::MAX,
            old(self).updated_at < i64::MAX,
        ensures
            final(self)@.title == (match title {
                Some(t) => t@,
                None => old(self)@.title,
            }),
            final(self)@.content == (match content {
                Some(c) => c@,
                None => old(self)@.content,
            }),
            final(self)@.tags == (match tags {
                Some(t) => t.deep_view(),
                None => old(self)@.tags,
            }),
            final(self).id == old(self).id,
            final(self).user_id == old(self).user_id,
            final(self).created_at == old(self).created_at,
            final(self).updated_at == touched(old(self).updated_at, now),
            final(self).version == old(self).version + 1,
    {
        if let Some(title) = title {
            self.title = title;
        }
        if let Some(content) = content {
            self.content = content;
        }
        if let Some(tags) = tags {
            self.tags = tags;
        }
        self.updated_at = if now > self.updated_at {
            now
        } else {
            self.updated_at + 1
        };
        self.version = self.version + 1;
    }

    /// Applies the given field changes as one mutation made now.
    pub fn update(&mut self, title: Option<String>, content: Option<String>, tags: Option<Vec<String>>)
        requires
            old(self).version < i32::MAX,
            old(self).updated_at < i64::MAX,
        ensures
            final(self)@.title == (match title {
                Some(t) => t@,
                None => old(self)@.title,
            }),
            final(self)@.content == (match content {
                Some(c) => c@,
                None => old(self)@.content,
            }),
            final(self)@.tags == (match tags {
                Some(t) => t.deep_view(),
                None => old(self)@.tags,
            }),
            final(self).id == old(self).id,
            final(self).user_id == old(self).user_id,
            final(self).created_at == old(self).created_at,
            final(self).updated_at > old(self).updated_at,
            final(self).version == old(self).version + 1,
            old(self)@.wf() ==> final(self)@.wf(),
    {
        let now = now_millis();
        self.update_at(title, content, tags, now);
    }

    /// Whether the memo obeys the content rules.
    pub fn validate(&self) -> (r: bool)
        ensures
            r == self@.is_valid(),
    {
        if is_blank(self.title.as_str()) || is_blank(self.content.as_str()) {
            return false;
        }
        if self.tags.len() > MAX_TAGS {
            return false;
        }
        let mut i: usize = 0;
        while i < self.tags.len()
            invariant
                i <= self.tags.len(),
                forall|j: int| 0 <= j < i ==> !blank(#[trigger] self@.tags[j]),
            decreases self.tags.len() - i,
        {
            proof {
                assert(self@.tags[i as int] == self.tags[i as int]@);
            }
            if is_blank(self.tags[i].as_str()) {
                return false;
            }
            i = i + 1;
        }
        true
    }
}

} // verus!
