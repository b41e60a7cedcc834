//! Rows found by their primary key: what it means for a table's keys to be
//! in order, and how insertion, replacement and removal keep them so.

use crate::entities::Row;
use vstd::prelude::*;

verus! {

/// Some row of `rows` has the primary key `id`.
pub open spec fn has_id<R: Row>(rows: Seq<R>, id: int) -> bool {
    exists|i: int| 0 <= i < rows.len() && #[trigger] rows[i].row_id() == id
}

/// The keys of `rows` are positive, below the next key to hand out, and no
/// key occurs twice.
pub open spec fn ids_wf<R: Row>(rows: Seq<R>, next_id: int) -> bool {
    &&& 1 <= next_id <= i32::MAX
    &&& forall|i: int| 0 <= i < rows.len() ==> 1 <= #[trigger] rows[i].row_id() < next_id
    &&& forall|i: int, j: int|
        0 <= i < j < rows.len() ==> #[trigger] rows[i].row_id() != #[trigger] rows[j].row_id()
}

/// A row appended under the next key keeps the keys in order.
pub proof fn lemma_ids_push<R: Row>(rows: Seq<R>, next_id: int, row: R)
    requires
        ids_wf(rows, next_id),
        row.row_id() == next_id,
        next_id < i32::MAX,
    ensures
        ids_wf(rows.push(row), next_id + 1),
        !has_id(rows, next_id),
{
    let after = rows.push(row);
    assert forall|i: int| 0 <= i < after.len() implies 1 <= #[trigger] after[i].row_id() < next_id
        + 1 by {
        if i < rows.len() {
            assert(after[i] == rows[i]);
        }
    }
    assert forall|i: int, j: int| 0 <= i < j < after.len() implies #[trigger] after[i].row_id()
        != #[trigger] after[j].row_id() by {
        assert(after[i] == rows[i]);
        if j < rows.len() {
            assert(after[j] == rows[j]);
        }
    }
}

/// A row replaced by one with the same key keeps the keys in order.
pub proof fn lemma_ids_update<R: Row>(rows: Seq<R>, next_id: int, k: int, row: R)
    requires
        ids_wf(rows, next_id),
        0 <= k < rows.len(),
        row.row_id() == rows[k].row_id(),
    ensures
        ids_wf(rows.update(k, row), next_id),
        forall|id: int| has_id(rows, id) <==> has_id(rows.update(k, row), id),
{
    let after = rows.update(k, row);
    assert forall|i: int| 0 <= i < after.len() implies 1 <= #[trigger] after[i].row_id()
        < next_id by {
        if i != k {
            assert(after[i] == rows[i]);
        }
    }
    assert forall|i: int, j: int| 0 <= i < j < after.len() implies #[trigger] after[i].row_id()
        != #[trigger] after[j].row_id() by {
        assert(after[i].row_id() == rows[i].row_id());
        assert(after[j].row_id() == rows[j].row_id());
    }
    assert forall|id: int| has_id(rows, id) <==> has_id(after, id) by {
        if has_id(rows, id) {
            let i = choose|i: int| 0 <= i < rows.len() && #[trigger] rows[i].row_id() == id;
            assert(after[i].row_id() == id);
        }
        if has_id(after, id) {
            let i = choose|i: int| 0 <= i < after.len() && #[trigger] after[i].row_id() == id;
            assert(rows[i].row_id() == id);
        }
    }
}

/// A row taken out keeps the keys in order, and its key is then gone.
pub proof fn lemma_ids_remove<R: Row>(rows: Seq<R>, next_id: int, k: int)
    requires
        ids_wf(rows, next_id),
        0 <= k < rows.len(),
    ensures
        ids_wf(rows.remove(k), next_id),
        !has_id(rows.remove(k), rows[k].row_id()),
        forall|id: int|
            id != rows[k].row_id() ==> (has_id(rows, id) <==> has_id(rows.remove(k), id)),
{
    let after = rows.remove(k);
    assert forall|i: int| 0 <= i < after.len() implies 1 <= #[trigger] after[i].row_id()
        < next_id by {
        if i < k {
            assert(after[i] == rows[i]);
        } else {
            assert(after[i] == rows[i + 1]);
        }
    }
    assert forall|i: int, j: int| 0 <= i < j < after.len() implies #[trigger] after[i].row_id()
        != #[trigger] after[j].row_id() by {
        let oi = if i < k { i } else { i + 1 };
        let oj = if j < k { j } else { j + 1 };
        assert(after[i] == rows[oi]);
        assert(after[j] == rows[oj]);
    }
    if has_id(after, rows[k].row_id()) {
        let i = choose|i: int|
            0 <= i < after.len() && #[trigger] after[i].row_id() == rows[k].row_id();
        let oi = if i < k { i } else { i + 1 };
        assert(after[i] == rows[oi]);
        if oi < k {
            assert(rows[oi].row_id() != rows[k].row_id());
        } else {
            assert(rows[k].row_id() != rows[oi].row_id());
        }
    }
    assert forall|id: int| id != rows[k].row_id() implies (has_id(rows, id) <==> has_id(
        after,
        id,
    )) by {
        if has_id(rows, id) {
            let i = choose|i: int| 0 <= i < rows.len() && #[trigger] rows[i].row_id() == id;
            let ni = if i < k { i } else { i - 1 };
            assert(after[ni] == rows[i]);
        }
        if has_id(after, id) {
            let i = choose|i: int| 0 <= i < after.len() && #[trigger] after[i].row_id() == id;
            let oi = if i < k { i } else { i + 1 };
            assert(after[i] == rows[oi]);
        }
    }
}

/// A row appended leaves every key that was there in place.
pub proof fn lemma_has_id_push<R: Row>(rows: Seq<R>, row: R, id: int)
    requires
        has_id(rows, id) || row.row_id() == id,
    ensures
        has_id(rows.push(row), id),
{
    let after = rows.push(row);
    if has_id(rows, id) {
        let i = choose|i: int| 0 <= i < rows.len() && #[trigger] rows[i].row_id() == id;
        assert(after[i] == rows[i]);
    } else {
        assert(after[rows.len() as int] == row);
    }
}

/// A table has fewer rows than the next key: the keys are distinct
/// numbers from 1 up to, but not including, that key.
pub proof fn lemma_len_below_next_id<R: Row>(rows: Seq<R>, next_id: int)
    requires
        ids_wf(rows, next_id),
    ensures
        rows.len() < next_id,
{
    let ids = Seq::new(rows.len(), |i: int| rows[i].row_id());
    assert forall|i: int, j: int| 0 <= i < ids.len() && 0 <= j < ids.len() && i != j implies ids[i]
        != ids[j] by {
        if i < j {
            assert(rows[i].row_id() != rows[j].row_id());
        } else {
            assert(rows[j].row_id() != rows[i].row_id());
        }
    }
    ids.unique_seq_to_set();
    let range = vstd::set_lib::set_int_range(1, next_id);
    vstd::set_lib::lemma_int_range(1, next_id);
    assert forall|id: int| ids.to_set().contains(id) implies range.contains(id) by {
        let i = choose|i: int| 0 <= i < ids.len() && ids[i] == id;
        assert(ids[i] == rows[i].row_id());
    }
    vstd::set_lib::lemma_len_subset(ids.to_set(), range);
}

/// A filter that every element passes keeps the whole sequence.
pub proof fn lemma_filter_keeps_all<T>(s: Seq<T>, pred: spec_fn(T) -> bool)
    requires
        forall|i: int| 0 <= i < s.len() ==> pred(#[trigger] s[i]),
    ensures
        s.filter(pred) == s,
    decreases s.len(),
{
    if s.len() == 0 {
        reveal(Seq::filter);
    } else {
        let front = s.drop_last();
        assert forall|i: int| 0 <= i < front.len() implies pred(#[trigger] front[i]) by {
            assert(front[i] == s[i]);
        }
        lemma_filter_keeps_all(front, pred);
        front.lemma_filter_push(s.last(), pred);
        assert(front.push(s.last()) =~= s);
    }
}

/// A filter that no element passes keeps nothing.
pub proof fn lemma_filter_keeps_none<T>(s: Seq<T>, pred: spec_fn(T) -> bool)
    requires
        forall|i: int| 0 <= i < s.len() ==> !pred(#[trigger] s[i]),
    ensures
        s.filter(pred) == Seq::<T>::empty(),
    decreases s.len(),
{
    if s.len() == 0 {
        reveal(Seq::filter);
        assert(s =~= Seq::<T>::empty());
    } else {
        let front = s.drop_last();
        assert forall|i: int| 0 <= i < front.len() implies !pred(#[trigger] front[i]) by {
            assert(front[i] == s[i]);
        }
        lemma_filter_keeps_none(front, pred);
        front.lemma_filter_push(s.last(), pred);
        assert(front.push(s.last()) =~= s);
    }
}

/// A filter that only the element at `k` fails removes exactly that element.
pub proof fn lemma_filter_removes_one<T>(s: Seq<T>, pred: spec_fn(T) -> bool, k: int)
    requires
        0 <= k < s.len(),
        !pred(s[k]),
        forall|i: int| 0 <= i < s.len() && i != k ==> pred(#[trigger] s[i]),
    ensures
        s.filter(pred) == s.remove(k),
    decreases s.len(),
{
    let front = s.drop_last();
    front.lemma_filter_push(s.last(), pred);
    assert(front.push(s.last()) =~= s);
    if k == s.len() - 1 {
        assert forall|i: int| 0 <= i < front.len() implies pred(#[trigger] front[i]) by {
            assert(front[i] == s[i]);
        }
        lemma_filter_keeps_all(front, pred);
        assert(s.remove(k) =~= front);
    } else {
        assert(front[k] == s[k]);
        assert forall|i: int| 0 <= i < front.len() && i != k implies pred(#[trigger] front[i]) by {
            assert(front[i] == s[i]);
        }
        lemma_filter_removes_one(front, pred, k);
        assert(front.remove(k).push(s.last()) =~= s.remove(k));
    }
}

/// The position of the row with key `id`, where the table has one.
pub open spec fn index_of_id<R: Row>(rows: Seq<R>, id: int) -> int {
    choose|i: int| 0 <= i < rows.len() && #[trigger] rows[i].row_id() == id
}

/// A row is found at its own position, and nowhere else.
pub proof fn lemma_index_of_id<R: Row>(rows: Seq<R>, next_id: int, k: int)
    requires
        ids_wf(rows, next_id),
        0 <= k < rows.len(),
    ensures
        index_of_id(rows, rows[k].row_id()) == k,
{
    let c = index_of_id(rows, rows[k].row_id());
    assert(rows[k].row_id() == rows[k].row_id());
    if c < k {
        assert(rows[c].row_id() != rows[k].row_id());
    } else if k < c {
        assert(rows[k].row_id() != rows[c].row_id());
    }
}

/// The test that a row has another key than `id`.
pub open spec fn other_id<R: Row>(id: int) -> spec_fn(R) -> bool {
    |row: R| row.row_id() != id
}

/// The rows that remain once the row with key `id` is gone.
pub open spec fn without_id<R: Row>(rows: Seq<R>, id: int) -> Seq<R> {
    rows.filter(other_id(id))
}

/// Taking out the row at `k` leaves the rows that have another key.
pub proof fn lemma_remove_is_without_id<R: Row>(rows: Seq<R>, next_id: int, k: int)
    requires
        ids_wf(rows, next_id),
        0 <= k < rows.len(),
    ensures
        rows.remove(k) == without_id(rows, rows[k].row_id()),
{
    let pred = other_id::<R>(rows[k].row_id());
    assert forall|i: int| 0 <= i < rows.len() && i != k implies pred(#[trigger] rows[i]) by {
        if i < k {
            assert(rows[i].row_id() != rows[k].row_id());
        } else {
            assert(rows[k].row_id() != rows[i].row_id());
        }
    }
    lemma_filter_removes_one(rows, pred, k);
}

/// The position of the row with key `id`, or `None` where no row has it.
pub fn find_by_id<R: Row>(rows: &Vec<R>, id: i32) -> (r: Option<usize>)
    ensures
        match r {
            Some(k) => k < rows.len() && rows@[k as int].row_id() == id,
            None => !has_id(rows@, id as int),
        },
{
    let mut i: usize = 0;
    while i < rows.len()
        invariant
            i <= rows.len(),
            forall|j: int| 0 <= j < i ==> #[trigger] rows@[j].row_id() != id,
        decreases rows.len() - i,
    {
        if rows[i].id() == id {
            return Some(i);
        }
        i += 1;
    }
    None
}

} // verus!
