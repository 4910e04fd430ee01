use vstd::prelude::*;

use crate::record::Record;
use crate::record::RecordView;
use crate::text::contains_substring;
use crate::text::has_substring;

verus! {

/// The views of a sequence of records.
pub open spec fn views_of(rs: Seq<Record>) -> Seq<RecordView> {
    rs.map_values(|r: Record| r@)
}

/// A row as the store creates it.
pub open spec fn new_rec(id: int, name: Seq<char>, phone: Seq<char>) -> RecordView {
    RecordView { id: Some(id), name, phone }
}

/// Ids are strictly ascending along the sequence.
pub open spec fn rows_sorted(rows: Seq<RecordView>) -> bool {
    forall|i: int, j: int| 0 <= i < j < rows.len() ==> rows[i].id->0 < rows[j].id->0
}

/// Well-formedness of the table: every row carries an id, ids are at
/// least 1, strictly ascending, and below the next id to assign.
pub open spec fn rows_wf(rows: Seq<RecordView>, next_id: int) -> bool {
    &&& 1 <= next_id
    &&& forall|i: int|
        0 <= i < rows.len() ==> ((#[trigger] rows[i]).id matches Some(k) && 1 <= k < next_id)
    &&& rows_sorted(rows)
}

/// The mathematical value of the store: the table rows in order and
/// the next id the server will assign.
#[verifier::ext_equal]
pub ghost struct StoreView {
    pub rows: Seq<RecordView>,
    pub next_id: int,
}

/// The record table, ordered by ascending id, together with the
/// auto-increment counter for server-assigned ids.
pub struct Store {
    pub rows: Vec<Record>,
    pub next_id: i32,
}

impl View for Store {
    type V = StoreView;

    open spec fn view(&self) -> StoreView {
        StoreView { rows: views_of(self.rows@), next_id: self.next_id as int }
    }
}

/// A row matches an optional case-sensitive name filter.
pub open spec fn matches_filter(r: RecordView, f: Option<Seq<char>>) -> bool {
    match f {
        None => true,
        Some(sub) => has_substring(r.name, sub),
    }
}

/// The predicate `list` keeps.
pub open spec fn list_pred(f: Option<Seq<char>>) -> spec_fn(RecordView) -> bool {
    |r: RecordView| matches_filter(r, f)
}

/// What listing returns: the rows that match the filter, in order.
pub open spec fn spec_list(rows: Seq<RecordView>, f: Option<Seq<char>>) -> Seq<RecordView> {
    rows.filter(list_pred(f))
}

/// A row's id is one of the listed ids.
pub open spec fn id_listed(r: RecordView, ids: Seq<i32>) -> bool {
    exists|j: int| 0 <= j < ids.len() && r.id == Some(ids[j] as int)
}

/// The predicate deletion keeps.
pub open spec fn remove_pred(ids: Seq<i32>) -> spec_fn(RecordView) -> bool {
    |r: RecordView| !id_listed(r, ids)
}

/// What deletion leaves: the rows whose id is not listed, in order.
pub open spec fn spec_remove(rows: Seq<RecordView>, ids: Seq<i32>) -> Seq<RecordView> {
    rows.filter(remove_pred(ids))
}

/// What updating leaves: the matching row with the new name and phone,
/// every other row unchanged.
pub open spec fn spec_update(rows: Seq<RecordView>, id: int, name: Seq<char>, phone: Seq<
    char,
>) -> Seq<RecordView> {
    rows.map(
        |i: int, r: RecordView|
            if r.id == Some(id) {
                RecordView { id: r.id, name, phone }
            } else {
                r
            },
    )
}

/// The predicate a get-by-id matches.
pub open spec fn id_pred(id: int) -> spec_fn(RecordView) -> bool {
    |r: RecordView| r.id == Some(id)
}

/// What get-by-id returns: the row, if exactly one row carries the id.
pub open spec fn spec_read_one(rows: Seq<RecordView>, id: int) -> Option<RecordView> {
    let ms = rows.filter(id_pred(id));
    if ms.len() == 1 {
        Some(ms[0])
    } else {
        None
    }
}

/// What inserting yields: the new row appended with the next id, and
/// the counter advanced.
pub open spec fn spec_insert(v: StoreView, name: Seq<char>, phone: Seq<char>) -> StoreView {
    StoreView { rows: v.rows.push(new_rec(v.next_id, name, phone)), next_id: v.next_id + 1 }
}

/// One filtering step: extending the scanned prefix by one element
/// extends the filtered result by that element exactly when it is kept.
pub proof fn lemma_filter_step<A>(s: Seq<A>, i: int, pred: spec_fn(A) -> bool)
    requires
        0 <= i < s.len(),
    ensures
        pred(s[i]) ==> s.subrange(0, i + 1).filter(pred) == s.subrange(0, i).filter(pred).push(
            s[i],
        ),
        !pred(s[i]) ==> s.subrange(0, i + 1).filter(pred) == s.subrange(0, i).filter(pred),
{
    reveal(Seq::filter);
    let ext = s.subrange(0, i + 1);
    assert(ext.drop_last() =~= s.subrange(0, i));
    assert(ext.last() == s[i]);
}

/// A filter that keeps every element returns the sequence unchanged.
pub proof fn lemma_filter_keep_all<A>(s: Seq<A>, pred: spec_fn(A) -> bool)
    requires
        forall|i: int| 0 <= i < s.len() ==> pred(#[trigger] s[i]),
    ensures
        s.filter(pred) == s,
    decreases s.len(),
{
    reveal(Seq::filter);
    if s.len() == 0 {
        assert(s.filter(pred) =~= s);
    } else {
        assert(forall|i: int|
            0 <= i < s.drop_last().len() ==> pred(#[trigger] s.drop_last()[i]));
        lemma_filter_keep_all(s.drop_last(), pred);
        assert(pred(s.last()));
        assert(s.filter(pred) =~= s);
    }
}

/// Whether `x` occurs in a list of ids.
fn id_in_list(ids: &[i32], x: i32) -> (r: bool)
    ensures
        r == ids@.contains(x),
{
    let n = ids.len();
    let mut i: usize = 0;
    while i < n
        invariant
            n == ids@.len(),
            i <= n,
            forall|k: int| 0 <= k < i ==> ids@[k] != x,
        decreases n - i,
    {
        if ids[i] == x {
            return true;
        }
        i = i + 1;
    }
    proof {
        assert(forall|k: int| 0 <= k < ids@.len() ==> ids@[k] != x);
    }
    false
}

impl Store {
    /// The table invariant.
    pub open spec fn wf(self) -> bool {
        rows_wf(self@.rows, self@.next_id)
    }

    /// An empty table; the first assigned id will be 1.
    pub fn new() -> (s: Store)
        ensures
            s.wf(),
            s@.rows == Seq::<RecordView>::empty(),
            s@.next_id == 1,
    {
        let s = Store { rows: Vec::new(), next_id: 1 };
        proof {
            assert(s@.rows =~= Seq::<RecordView>::empty());
        }
        s
    }

    /// INSERT: appends a row under the server-assigned id and reports
    /// the affected row count, which is always 1.
    pub fn insert(&mut self, name: &str, phone: &str) -> (count: u64)
        requires
            old(self).wf(),
            old(self)@.next_id < 0x7fff_ffff,
        ensures
            final(self).wf(),
            count == 1,
            final(self)@ == spec_insert(old(self)@, name@, phone@),
    {
        let id = self.next_id;
        self.next_id = self.next_id + 1;
        self.rows.push(Record { id: Some(id), name: name.to_owned(), phone: phone.to_owned() });
        proof {
            let oldrows = views_of(old(self).rows@);
            let newrow = new_rec(id as int, name@, phone@);
            assert(self@.rows =~= oldrows.push(newrow));
            assert(self@ =~= spec_insert(old(self)@, name@, phone@));
            assert forall|i: int|
                0 <= i < self@.rows.len() implies ((#[trigger] self@.rows[i]).id matches Some(k)
                && 1 <= k < self@.next_id) by {
                if i < oldrows.len() {
                    assert((oldrows[i].id matches Some(k) && 1 <= k < old(self)@.next_id));
                }
            }
            assert forall|i: int, j: int|
                0 <= i < j < self@.rows.len() implies self@.rows[i].id->0 < self@.rows[j].id
                ->0 by {
                if j < oldrows.len() {
                    assert(rows_sorted(oldrows));
                } else {
                    assert((oldrows[i].id matches Some(k) && 1 <= k < old(self)@.next_id));
                }
            }
        }
        1
    }

    /// DELETE by id, for each listed id: removes every row whose id is
    /// listed; an id that matches no row is a silent no-op.
    pub fn remove(&mut self, ids: &[i32])
        requires
            old(self).wf(),
        ensures
            final(self).wf(),
            final(self)@.rows == spec_remove(old(self)@.rows, ids@),
            final(self)@.next_id == old(self)@.next_id,
    {
        let ghost rows_v = views_of(self.rows@);
        let ghost pred = remove_pred(ids@);
        let n = self.rows.len();
        let mut kept: Vec<Record> = Vec::new();
        let mut i: usize = 0;
        while i < n
            invariant
                self == old(self),
                old(self).wf(),
                n == self.rows@.len(),
                i <= n,
                rows_v == views_of(self.rows@),
                pred == remove_pred(ids@),
                views_of(kept@) == rows_v.subrange(0, i as int).filter(pred),
                rows_wf(views_of(kept@), old(self)@.next_id),
                forall|k: int, j: int|
                    0 <= k < views_of(kept@).len() && i <= j < rows_v.len() ==> views_of(kept@)[k].id
                        ->0 < rows_v[j].id->0,
            decreases n - i,
        {
            let listed = match self.rows[i].id {
                Some(id) => id_in_list(ids, id),
                None => false,
            };
            proof {
                assert(rows_v[i as int] == self.rows@[i as int]@);
                assert(listed == id_listed(rows_v[i as int], ids@));
                lemma_filter_step(rows_v, i as int, pred);
            }
            if !listed {
                let r = &self.rows[i];
                kept.push(r.duplicate());
                proof {
                    assert(views_of(kept@) =~= rows_v.subrange(0, i + 1).filter(pred));
                }
            } else {
                proof {
                    assert(views_of(kept@) =~= rows_v.subrange(0, i + 1).filter(pred));
                }
            }
            i = i + 1;
        }
        proof {
            assert(rows_v.subrange(0, n as int) =~= rows_v);
        }
        self.rows = kept;
    }

    /// UPDATE by id: replaces name and phone of the row that carries
    /// the id; updating an id that matches no row changes nothing and
    /// is not distinguished from success.
    pub fn update(&mut self, id: i32, name: &str, phone: &str)
        requires
            old(self).wf(),
        ensures
            final(self).wf(),
            final(self)@.rows == spec_update(old(self)@.rows, id as int, name@, phone@),
            final(self)@.next_id == old(self)@.next_id,
    {
        let ghost rows_v = views_of(self.rows@);
        let ghost goal = spec_update(rows_v, id as int, name@, phone@);
        let n = self.rows.len();
        let mut updated: Vec<Record> = Vec::new();
        let mut i: usize = 0;
        while i < n
            invariant
                self == old(self),
                old(self).wf(),
                n == self.rows@.len(),
                i <= n,
                rows_v == views_of(self.rows@),
                goal == spec_update(rows_v, id as int, name@, phone@),
                updated@.len() == i,
                forall|k: int| 0 <= k < i ==> views_of(updated@)[k] == goal[k],
            decreases n - i,
        {
            let r = &self.rows[i];
            let matched = match r.id {
                Some(k) => k == id,
                None => false,
            };
            proof {
                assert(rows_v[i as int] == self.rows@[i as int]@);
            }
            if matched {
                updated.push(Record { id: r.id, name: name.to_owned(), phone: phone.to_owned() });
            } else {
                updated.push(r.duplicate());
            }
            proof {
                assert(views_of(updated@)[i as int] == goal[i as int]);
                assert(forall|k: int| 0 <= k < i ==> views_of(updated@)[k] == goal[k]);
            }
            i = i + 1;
        }
        proof {
            assert(views_of(updated@) =~= goal);
            assert forall|a: int, b: int|
                0 <= a < b < goal.len() implies goal[a].id->0 < goal[b].id->0 by {
                assert(rows_sorted(rows_v));
                assert((rows_v[a].id matches Some(k) && 1 <= k < old(self)@.next_id));
                assert((rows_v[b].id matches Some(k) && 1 <= k < old(self)@.next_id));
            }
            assert forall|a: int|
                0 <= a < goal.len() implies ((#[trigger] goal[a]).id matches Some(k) && 1 <= k
                < old(self)@.next_id) by {
                assert((rows_v[a].id matches Some(k) && 1 <= k < old(self)@.next_id));
            }
        }
        self.rows = updated;
    }

    /// SELECT, optionally filtered by a case-sensitive substring of
    /// the name: returns the matching rows in ascending id order.
    pub fn show(&self, filter: Option<&str>) -> (r: Vec<Record>)
        requires
            self.wf(),
        ensures
            views_of(r@) == spec_list(self@.rows, filter_view(filter)),
            rows_sorted(views_of(r@)),
            forall|k: int|
                0 <= k < r@.len() ==> matches_filter(#[trigger] views_of(r@)[k], filter_view(
                    filter,
                )),
    {
        let ghost rows_v = views_of(self.rows@);
        let ghost f = filter_view(filter);
        let ghost pred = list_pred(f);
        let n = self.rows.len();
        let mut out: Vec<Record> = Vec::new();
        let mut i: usize = 0;
        while i < n
            invariant
                self.wf(),
                n == self.rows@.len(),
                i <= n,
                rows_v == views_of(self.rows@),
                f == filter_view(filter),
                pred == list_pred(f),
                views_of(out@) == rows_v.subrange(0, i as int).filter(pred),
                rows_sorted(views_of(out@)),
                forall|k: int|
                    0 <= k < out@.len() ==> matches_filter(#[trigger] views_of(out@)[k], f),
                forall|k: int, j: int|
                    0 <= k < views_of(out@).len() && i <= j < rows_v.len() ==> views_of(out@)[k].id
                        ->0 < rows_v[j].id->0,
            decreases n - i,
        {
            let r = &self.rows[i];
            let keep = match filter {
                None => true,
                Some(sub) => contains_substring(r.name.as_str(), sub),
            };
            proof {
                assert(rows_v[i as int] == self.rows@[i as int]@);
                assert(keep == matches_filter(rows_v[i as int], f));
                lemma_filter_step(rows_v, i as int, pred);
                assert((rows_v[i as int].id matches Some(k) && 1 <= k));
            }
            if keep {
                out.push(r.duplicate());
                proof {
                    assert(views_of(out@) =~= rows_v.subrange(0, i + 1).filter(pred));
                }
            } else {
                proof {
                    assert(views_of(out@) =~= rows_v.subrange(0, i + 1).filter(pred));
                }
            }
            i = i + 1;
        }
        proof {
            assert(rows_v.subrange(0, n as int) =~= rows_v);
        }
        out
    }

    /// SELECT without the option to fail: the store itself cannot
    /// error, so this always succeeds with what `show` returns.
    pub fn read(&self, name: Option<&str>) -> (r: Result<Vec<Record>, ()>)
        requires
            self.wf(),
        ensures
            match r {
                Ok(rs) => views_of(rs@) == spec_list(self@.rows, filter_view(name)),
                Err(()) => false,
            },
    {
        Ok(self.show(name))
    }

    /// SELECT by id: the row carrying the id, or not-found when zero
    /// rows match; more than one match is impossible for a primary key
    /// but is still checked and also reported as not-found.
    pub fn read_one(&self, id: i32) -> (r: Result<Record, ()>)
        requires
            self.wf(),
        ensures
            match r {
                Ok(rec) => spec_read_one(self@.rows, id as int) == Some(rec@),
                Err(()) => spec_read_one(self@.rows, id as int) is None,
            },
    {
        let ghost rows_v = views_of(self.rows@);
        let ghost pred = id_pred(id as int);
        let n = self.rows.len();
        let mut matches: Vec<Record> = Vec::new();
        let mut i: usize = 0;
        while i < n
            invariant
                self.wf(),
                n == self.rows@.len(),
                i <= n,
                rows_v == views_of(self.rows@),
                pred == id_pred(id as int),
                views_of(matches@) == rows_v.subrange(0, i as int).filter(pred),
            decreases n - i,
        {
            let r = &self.rows[i];
            let matched = match r.id {
                Some(k) => k == id,
                None => false,
            };
            proof {
                assert(rows_v[i as int] == self.rows@[i as int]@);
                assert(matched == pred(rows_v[i as int]));
                lemma_filter_step(rows_v, i as int, pred);
            }
            if matched {
                matches.push(r.duplicate());
                proof {
                    assert(views_of(matches@) =~= rows_v.subrange(0, i + 1).filter(pred));
                }
            } else {
                proof {
                    assert(views_of(matches@) =~= rows_v.subrange(0, i + 1).filter(pred));
                }
            }
            i = i + 1;
        }
        proof {
            assert(rows_v.subrange(0, n as int) =~= rows_v);
        }
        single_row(matches)
    }
}

/// The view of an optional filter argument.
pub open spec fn filter_view(f: Option<&str>) -> Option<Seq<char>> {
    match f {
        None => None,
        Some(s) => Some(s@),
    }
}

/// The defensive exactly-one check on the rows a point query returned:
/// zero matches is not-found, and more than one — impossible for a
/// primary key in a healthy table — is reported the same way.
pub fn single_row(rows: Vec<Record>) -> (r: Result<Record, ()>)
    ensures
        match r {
            Ok(rec) => rows@.len() == 1 && rec@ == views_of(rows@)[0],
            Err(()) => rows@.len() != 1,
        },
{
    let mut rows = rows;
    if rows.len() == 1 {
        match rows.pop() {
            Some(rec) => Ok(rec),
            None => Err(()),
        }
    } else {
        Err(())
    }
}

} // verus!
