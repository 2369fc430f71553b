//! An in-process table of memos keyed by identifier, the storage shared by the
//! primary store and the search index.

use vstd::prelude::*;
use crate::memo::{Memo, MemoView, opt_view};

verus! {

/// No identifier occurs twice among the rows.
pub open spec fn ids_unique(s: Seq<Memo>) -> bool {
    forall|i: int, j: int|
        0 <= i < s.len() && 0 <= j < s.len() && #[trigger] s[i].id == #[trigger] s[j].id ==> i == j
}

/// Whether some row has identifier `id`.
pub open spec fn has_row(s: Seq<Memo>, id: u128) -> bool {
    exists|i: int| 0 <= i < s.len() && #[trigger] s[i].id == id
}

/// The position of a row with identifier `id`, when there is one.
pub open spec fn row_of(s: Seq<Memo>, id: u128) -> int {
    choose|i: int| 0 <= i < s.len() && #[trigger] s[i].id == id
}

/// The rows as a map from identifier to memo.
pub open spec fn rows_view(s: Seq<Memo>) -> Map<u128, MemoView> {
    Map::new(|id: u128| has_row(s, id), |id: u128| s[row_of(s, id)]@)
}

/// What a map holds under a key, if anything.
pub open spec fn lookup(m: Map<u128, MemoView>, id: u128) -> Option<MemoView> {
    if m.contains_key(id) {
        Some(m[id])
    } else {
        None
    }
}

/// `out` lists, once each, exactly the memos of `m` that belong to `owner`.
pub open spec fn lists_owned(out: Seq<Memo>, m: Map<u128, MemoView>, owner: u128) -> bool {
    &&& ids_unique(out)
    &&& forall|k: int|
        0 <= k < out.len() ==> {
            &&& m.contains_key(#[trigger] out[k].id)
            &&& m[out[k].id] == out[k]@
            &&& out[k].user_id == owner
        }
    &&& forall|id: u128| #[trigger]
        m.contains_key(id) && m[id].user_id == owner ==> has_row(out, id)
}

/// With unique identifiers, row `i` is what the map holds under its identifier.
pub proof fn lemma_row_in_view(s: Seq<Memo>, i: int)
    requires
        ids_unique(s),
        0 <= i < s.len(),
    ensures
        rows_view(s).contains_key(s[i].id),
        rows_view(s)[s[i].id] == s[i]@,
{
    assert(has_row(s, s[i].id));
    let j = row_of(s, s[i].id);
    assert(s[j].id == s[i].id);
}

/// Appending a row with a new identifier adds it to the map.
proof fn lemma_push(s: Seq<Memo>, m: Memo)
    requires
        ids_unique(s),
        !has_row(s, m.id),
    ensures
        ids_unique(s.push(m)),
        rows_view(s.push(m)) =~= rows_view(s).insert(m.id, m@),
{
    let t = s.push(m);
    assert forall|i: int, j: int|
        0 <= i < t.len() && 0 <= j < t.len() && #[trigger] t[i].id == #[trigger] t[j].id implies i == j by {
        if i < s.len() && j == s.len() {
            assert(s[i].id == m.id);
        } else if j < s.len() && i == s.len() {
            assert(s[j].id == m.id);
        } else if i < s.len() && j < s.len() {
            assert(s[i].id == s[j].id);
        }
    }
    assert forall|id: u128| #[trigger] rows_view(t).contains_key(id) <==> rows_view(s).insert(m.id, m@).contains_key(id) by {
        if has_row(s, id) {
            let i = row_of(s, id);
            assert(t[i].id == id);
        }
        if id == m.id {
            assert(t[s.len() as int].id == id);
        }
        if has_row(t, id) {
            let i = row_of(t, id);
            if i < s.len() {
                assert(s[i].id == id);
            }
        }
    }
    assert forall|id: u128| #[trigger] rows_view(t).contains_key(id) implies rows_view(t)[id] == rows_view(s).insert(m.id, m@)[id] by {
        let i = row_of(t, id);
        lemma_row_in_view(t, i);
        if i < s.len() {
            assert(s[i] == t[i]);
            lemma_row_in_view(s, i);
        }
    }
}

/// Overwriting row `i` with a memo of the same identifier replaces it in the map.
proof fn lemma_set(s: Seq<Memo>, i: int, m: Memo)
    requires
        ids_unique(s),
        0 <= i < s.len(),
        s[i].id == m.id,
    ensures
        ids_unique(s.update(i, m)),
        rows_view(s.update(i, m)) =~= rows_view(s).insert(m.id, m@),
{
    let t = s.update(i, m);
    assert forall|a: int, b: int|
        0 <= a < t.len() && 0 <= b < t.len() && #[trigger] t[a].id == #[trigger] t[b].id implies a == b by {
        assert(t[a].id == s[a].id && t[b].id == s[b].id);
    }
    assert forall|id: u128| #[trigger] rows_view(t).contains_key(id) <==> rows_view(s).insert(m.id, m@).contains_key(id) by {
        if has_row(s, id) {
            let k = row_of(s, id);
            assert(t[k].id == id);
        }
        if has_row(t, id) {
            let k = row_of(t, id);
            assert(s[k].id == id);
        }
        if id == m.id {
            assert(t[i].id == id);
        }
    }
    assert forall|id: u128| #[trigger] rows_view(t).contains_key(id) implies rows_view(t)[id] == rows_view(s).insert(m.id, m@)[id] by {
        let k = row_of(t, id);
        lemma_row_in_view(t, k);
        if k != i {
            assert(s[k] == t[k]);
            lemma_row_in_view(s, k);
        }
    }
}

/// Removing row `i` removes its identifier from the map.
proof fn lemma_remove(s: Seq<Memo>, i: int)
    requires
        ids_unique(s),
        0 <= i < s.len(),
    ensures
        ids_unique(s.remove(i)),
        rows_view(s.remove(i)) =~= rows_view(s).remove(s[i].id),
{
    let t = s.remove(i);
    let id0 = s[i].id;
    assert forall|a: int| 0 <= a < t.len() implies #[trigger] t[a] == s[if a < i { a } else { a + 1 }] by {}
    assert forall|a: int, b: int|
        0 <= a < t.len() && 0 <= b < t.len() && #[trigger] t[a].id == #[trigger] t[b].id implies a == b by {
        let sa = if a < i { a } else { a + 1 };
        let sb = if b < i { b } else { b + 1 };
        assert(t[a] == s[sa] && t[b] == s[sb]);
        assert(s[sa].id == s[sb].id);
    }
    assert forall|id: u128| #[trigger] rows_view(t).contains_key(id) <==> rows_view(s).remove(id0).contains_key(id) by {
        if has_row(s, id) && id != id0 {
            let k = row_of(s, id);
            assert(k != i);
            let tk = if k < i { k } else { k - 1 };
            assert(t[tk] == s[k]);
        }
        if has_row(t, id) {
            let k = row_of(t, id);
            let sk = if k < i { k } else { k + 1 };
            assert(t[k] == s[sk]);
            assert(sk != i);
        }
    }
    assert forall|id: u128| #[trigger] rows_view(t).contains_key(id) implies rows_view(t)[id] == rows_view(s).remove(id0)[id] by {
        let k = row_of(t, id);
        lemma_row_in_view(t, k);
        let sk = if k < i { k } else { k + 1 };
        assert(t[k] == s[sk]);
        lemma_row_in_view(s, sk);
    }
}

/// Memos keyed by identifier, each identifier at most once.
pub struct MemoTable {
    rows: Vec<Memo>,
}

impl View for MemoTable {
    type V = Map<u128, MemoView>;

    closed spec fn view(&self) -> Map<u128, MemoView> {
        rows_view(self.rows@)
    }
}

impl MemoTable {
    /// Each identifier occurs in at most one row.
    pub closed spec fn wf(&self) -> bool {
        ids_unique(self.rows@)
    }

    /// An empty table.
    pub fn new() -> (r: Self)
        ensures
            r.wf(),
            r@ == Map::<u128, MemoView>::empty(),
    {
        let r = MemoTable { rows: Vec::new() };
        assert(r@ =~= Map::<u128, MemoView>::empty());
        r
    }

    /// The rows, in storage order; they make up the table.
    pub fn rows(&self) -> (r: &Vec<Memo>)
        requires
            self.wf(),
        ensures
            ids_unique(r@),
            rows_view(r@) == self@,
    {
        &self.rows
    }

    /// The position of the row with identifier `id`.
    fn position(&self, id: u128) -> (r: Option<usize>)
        requires
            self.wf(),
        ensures
            match r {
                Some(i) => i < self.rows.len() && self.rows@[i as int].id == id,
                None => !self@.contains_key(id),
            },
    {
        let mut i: usize = 0;
        while i < self.rows.len()
            invariant
                i <= self.rows.len(),
                forall|j: int| 0 <= j < i ==> #[trigger] self.rows@[j].id != id,
            decreases self.rows.len() - i,
        {
            if self.rows[i].id == id {
                return Some(i);
            }
            i = i + 1;
        }
        None
    }

    /// Whether a memo with identifier `id` is stored.
    pub fn contains(&self, id: u128) -> (r: bool)
        requires
            self.wf(),
        ensures
            r == self@.contains_key(id),
    {
        match self.position(id) {
            Some(i) => {
                proof {
                    lemma_row_in_view(self.rows@, i as int);
                }
                true
            },
            None => false,
        }
    }

    /// A copy of the memo stored under `id`.
    pub fn get(&self, id: u128) -> (r: Option<Memo>)
        requires
            self.wf(),
        ensures
            opt_view(r) == lookup(self@, id),
            r matches Some(m) ==> m.id == id,
    {
        match self.position(id) {
            Some(i) => {
                proof {
                    lemma_row_in_view(self.rows@, i as int);
                }
                Some(self.rows[i].clone())
            },
            None => None,
        }
    }

    /// Stores `m` under its identifier, replacing what was there.
    pub fn upsert(&mut self, m: Memo)
        requires
            old(self).wf(),
        ensures
            final(self).wf(),
            final(self)@ == old(self)@.insert(m.id, m@),
    {
        match self.position(m.id) {
            Some(i) => {
                proof {
                    lemma_set(self.rows@, i as int, m);
                }
                self.rows.set(i, m);
            },
            None => {
                proof {
                    if has_row(self.rows@, m.id) {
                        lemma_row_in_view(self.rows@, row_of(self.rows@, m.id));
                    }
                    lemma_push(self.rows@, m);
                }
                self.rows.push(m);
            },
        }
    }

    /// Removes the memo stored under `id`, if any.
    pub fn remove(&mut self, id: u128)
        requires
            old(self).wf(),
        ensures
            final(self).wf(),
            final(self)@ == old(self)@.remove(id),
    {
        match self.position(id) {
            Some(i) => {
                proof {
                    lemma_remove(self.rows@, i as int);
                }
                self.rows.remove(i);
            },
            None => {
                assert(old(self)@.remove(id) =~= old(self)@);
            },
        }
    }

    /// Copies of the memos that belong to `owner`, in storage order.
    pub fn owned_by(&self, owner: u128) -> (r: Vec<Memo>)
        requires
            self.wf(),
        ensures
            lists_owned(r@, self@, owner),
    {
        let mut out: Vec<Memo> = Vec::new();
        let mut i: usize = 0;
        while i < self.rows.len()
            invariant
                i <= self.rows.len(),
                ids_unique(self.rows@),
                ids_unique(out@),
                forall|k: int|
                    0 <= k < out.len() ==> {
                        &&& self@.contains_key(#[trigger] out@[k].id)
                        &&& self@[out@[k].id] == out@[k]@
                        &&& out@[k].user_id == owner
                        &&& exists|j: int| 0 <= j < i && self.rows@[j].id == out@[k].id
                    },
                forall|j: int|
                    0 <= j < i && #[trigger] self.rows@[j].user_id == owner ==> has_row(out@, self.rows@[j].id),
            decreases self.rows.len() - i,
        {
            proof {
                lemma_row_in_view(self.rows@, i as int);
            }
            if self.rows[i].user_id == owner {
                let m = self.rows[i].clone();
                proof {
                    assert forall|k: int| 0 <= k < out.len() implies #[trigger] out@[k].id != m.id by {
                        let j = choose|j: int| 0 <= j < i && self.rows@[j].id == out@[k].id;
                        if out@[k].id == m.id {
                            assert(self.rows@[j].id == self.rows@[i as int].id);
                        }
                    }
                    let o = out@.push(m);
                    assert forall|a: int, b: int|
                        0 <= a < o.len() && 0 <= b < o.len() && #[trigger] o[a].id == #[trigger] o[b].id implies a == b by {
                        if a < out.len() && b < out.len() {
                            assert(out@[a].id == out@[b].id);
                        }
                    }
                    assert(has_row(o, m.id)) by {
                        assert(o[out.len() as int].id == m.id);
                    }
                    assert forall|j: int|
                        0 <= j < i && #[trigger] self.rows@[j].user_id == owner implies has_row(o, self.rows@[j].id) by {
                        let k = choose|k: int| 0 <= k < out.len() && #[trigger] out@[k].id == self.rows@[j].id;
                        assert(o[k].id == self.rows@[j].id);
                    }
                }
                out.push(m);
            }
            i = i + 1;
        }
        proof {
            assert forall|id: u128| #[trigger]
                self@.contains_key(id) && self@[id].user_id == owner implies has_row(out@, id) by {
                let j = row_of(self.rows@, id);
                lemma_row_in_view(self.rows@, j);
            }
        }
        out
    }
}

} // verus!
