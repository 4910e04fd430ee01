use vstd::prelude::*;

use crate::record::RecordView;
use crate::store::StoreView;
use crate::store::id_listed;
use crate::store::id_pred;
use crate::store::lemma_filter_keep_all;
use crate::store::list_pred;
use crate::store::new_rec;
use crate::store::remove_pred;
use crate::store::rows_wf;
use crate::store::spec_insert;
use crate::store::spec_list;
use crate::store::spec_read_one;
use crate::store::spec_remove;
use crate::store::spec_update;

verus! {

/// Some row of `rows` carries the id.
pub open spec fn id_present(rows: Seq<RecordView>, id: int) -> bool {
    exists|i: int| 0 <= i < rows.len() && rows[i].id == Some(id)
}

/// A filter that keeps no element returns the empty sequence.
pub proof fn lemma_filter_drop_all<A>(s: Seq<A>, pred: spec_fn(A) -> bool)
    requires
        forall|i: int| 0 <= i < s.len() ==> !pred(#[trigger] s[i]),
    ensures
        s.filter(pred) == Seq::<A>::empty(),
    decreases s.len(),
{
    reveal(Seq::filter);
    if s.len() == 0 {
        assert(s.filter(pred) =~= Seq::<A>::empty());
    } else {
        assert(forall|i: int|
            0 <= i < s.drop_last().len() ==> !pred(#[trigger] s.drop_last()[i]));
        lemma_filter_drop_all(s.drop_last(), pred);
        assert(!pred(s.last()));
        assert(s.filter(pred) =~= Seq::<A>::empty());
    }
}

/// Inserting a record and then listing with no filter returns the
/// whole table, which includes the new record exactly once, under an
/// id that no earlier row carries.
pub proof fn lemma_insert_then_list(v: StoreView, name: Seq<char>, phone: Seq<char>)
    requires
        rows_wf(v.rows, v.next_id),
    ensures
        spec_list(spec_insert(v, name, phone).rows, None) == spec_insert(v, name, phone).rows,
        spec_insert(v, name, phone).rows.filter(id_pred(v.next_id)) == seq![
            new_rec(v.next_id, name, phone),
        ],
        forall|i: int| 0 <= i < v.rows.len() ==> (#[trigger] v.rows[i]).id != Some(v.next_id),
{
    reveal(Seq::filter);
    let rows2 = spec_insert(v, name, phone).rows;
    let newrow = new_rec(v.next_id, name, phone);
    assert(forall|i: int| 0 <= i < rows2.len() ==> list_pred(None)(#[trigger] rows2[i]));
    lemma_filter_keep_all(rows2, list_pred(None));
    assert(forall|i: int|
        0 <= i < v.rows.len() ==> (#[trigger] v.rows[i]).id != Some(v.next_id));
    assert(forall|i: int| 0 <= i < v.rows.len() ==> !id_pred(v.next_id)(#[trigger] v.rows[i]));
    lemma_filter_drop_all(v.rows, id_pred(v.next_id));
    assert(rows2.drop_last() =~= v.rows);
    assert(rows2.last() == newrow);
    assert(id_pred(v.next_id)(newrow));
    assert(rows2.filter(id_pred(v.next_id)) =~= seq![newrow]);
}

/// Creating a record and then fetching by the id the server assigned
/// returns exactly that record.
pub proof fn lemma_insert_then_read_one(v: StoreView, name: Seq<char>, phone: Seq<char>)
    requires
        rows_wf(v.rows, v.next_id),
    ensures
        spec_read_one(spec_insert(v, name, phone).rows, v.next_id) == Some(
            new_rec(v.next_id, name, phone),
        ),
{
    lemma_insert_then_list(v, name, phone);
    let rows2 = spec_insert(v, name, phone).rows;
    assert(rows2.filter(id_pred(v.next_id)) == seq![new_rec(v.next_id, name, phone)]);
}

/// Updating by id rewrites name and phone of exactly the matching
/// rows: after the update, get-by-id finds the new values under the
/// unchanged id, and an id that no row carries is still not found.
pub proof fn lemma_update_then_read_one(v: StoreView, id: int, name: Seq<char>, phone: Seq<char>)
    requires
        rows_wf(v.rows, v.next_id),
    ensures
        id_present(v.rows, id) ==> spec_read_one(spec_update(v.rows, id, name, phone), id)
            == Some(new_rec(id, name, phone)),
        !id_present(v.rows, id) ==> spec_read_one(spec_update(v.rows, id, name, phone), id)
            is None,
{
    lemma_update_filter(v.rows, v.next_id, id, name, phone);
}

/// The id-filter of an updated table: the one matching row with the
/// new values when the id is present, nothing otherwise.
proof fn lemma_update_filter(rows: Seq<RecordView>, next_id: int, id: int, name: Seq<char>, phone: Seq<char>)
    requires
        rows_wf(rows, next_id),
    ensures
        id_present(rows, id) ==> spec_update(rows, id, name, phone).filter(id_pred(id)) == seq![
            new_rec(id, name, phone),
        ],
        !id_present(rows, id) ==> spec_update(rows, id, name, phone).filter(id_pred(id))
            == Seq::<RecordView>::empty(),
    decreases rows.len(),
{
    reveal(Seq::filter);
    let upd = spec_update(rows, id, name, phone);
    if rows.len() == 0 {
        assert(upd =~= Seq::<RecordView>::empty());
        assert(upd.filter(id_pred(id)) =~= Seq::<RecordView>::empty());
        assert(!id_present(rows, id));
    } else {
        let dl = rows.drop_last();
        let last = rows.last();
        assert(rows_wf(dl, next_id));
        lemma_update_filter(dl, next_id, id, name, phone);
        let upd_dl = spec_update(dl, id, name, phone);
        assert(upd.drop_last() =~= upd_dl);
        if last.id == Some(id) {
            assert(upd.last() == new_rec(id, name, phone));
            // no earlier row can carry the same id: ids are strictly ascending
            assert(forall|i: int| 0 <= i < dl.len() ==> (#[trigger] dl[i]).id != Some(id));
            assert(!id_present(dl, id));
            assert(upd.filter(id_pred(id)) =~= upd_dl.filter(id_pred(id)).push(
                new_rec(id, name, phone),
            ));
            assert(upd.filter(id_pred(id)) =~= seq![new_rec(id, name, phone)]);
            assert(id_present(rows, id)) by {
                assert(rows[rows.len() - 1].id == Some(id));
            }
        } else {
            assert(upd.last() == last);
            assert(!id_pred(id)(last));
            assert(upd.filter(id_pred(id)) == upd_dl.filter(id_pred(id)));
            assert(id_present(rows, id) == id_present(dl, id)) by {
                if id_present(rows, id) {
                    let w = choose|i: int| 0 <= i < rows.len() && rows[i].id == Some(id);
                    assert(w < dl.len() && dl[w] == rows[w]);
                }
                if id_present(dl, id) {
                    let w = choose|i: int| 0 <= i < dl.len() && dl[i].id == Some(id);
                    assert(rows[w].id == Some(id));
                }
            }
        }
    }
}

/// Deleting ids and then fetching any of them reports not-found, while
/// ids that match no row delete nothing: when none of the listed ids
/// is present the table is unchanged (deletion itself never errors).
pub proof fn lemma_delete_then_read_one(v: StoreView, ids: Seq<i32>, id: i32)
    requires
        rows_wf(v.rows, v.next_id),
        ids.contains(id),
    ensures
        spec_read_one(spec_remove(v.rows, ids), id as int) is None,
{
    let out = spec_remove(v.rows, ids);
    assert forall|k: int| 0 <= k < out.len() implies (#[trigger] out[k]).id != Some(
        id as int,
    ) by {
        v.rows.lemma_filter_pred(remove_pred(ids), k);
        assert(!id_listed(out[k], ids));
        if out[k].id == Some(id as int) {
            let j = choose|j: int| 0 <= j < ids.len() && ids[j] == id;
            assert(out[k].id == Some(ids[j] as int));
        }
    }
    assert(forall|k: int| 0 <= k < out.len() ==> !id_pred(id as int)(#[trigger] out[k]));
    lemma_filter_drop_all(out, id_pred(id as int));
}

/// Deleting ids that no row carries leaves the table unchanged.
pub proof fn lemma_delete_absent(v: StoreView, ids: Seq<i32>)
    requires
        rows_wf(v.rows, v.next_id),
        forall|i: int| 0 <= i < v.rows.len() ==> !id_listed(#[trigger] v.rows[i], ids),
    ensures
        spec_remove(v.rows, ids) == v.rows,
{
    assert(forall|i: int| 0 <= i < v.rows.len() ==> remove_pred(ids)(#[trigger] v.rows[i]));
    lemma_filter_keep_all(v.rows, remove_pred(ids));
}

} // verus!
