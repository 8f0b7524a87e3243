//! Properties that relate several operations on the orders table.

use vstd::prelude::*;

use crate::record::{is_valid_row, DatabaseResponse, PREPARATION_MAX, PREPARATION_MIN};
use crate::table::{
    has_id, inserted, lemma_sift_keeps_wf, matching, order_added, sift, table_wf, without,
    Criterion,
};

verus! {

/// Sifting by the same criterion a second time changes nothing.
pub proof fn lemma_sift_idempotent(rows: Seq<DatabaseResponse>, c: Criterion, keep: bool)
    ensures
        sift(sift(rows, c, keep), c, keep) == sift(rows, c, keep),
    decreases rows.len(),
{
    let pred = |r: DatabaseResponse| c.holds(r) == keep;
    if rows.len() == 0 {
        reveal(Seq::filter);
    } else {
        let prefix = rows.drop_last();
        assert(rows == prefix.push(rows.last()));
        lemma_sift_idempotent(prefix, c, keep);
        prefix.lemma_filter_push(rows.last(), pred);
        if pred(rows.last()) {
            sift(prefix, c, keep).lemma_filter_push(rows.last(), pred);
        }
    }
}

/// Deleting by identity is idempotent: a second delete of the same identity
/// leaves the table exactly as the first one left it.
pub proof fn lemma_delete_id_idempotent(rows: Seq<DatabaseResponse>, id: u128)
    ensures
        without(without(rows, Criterion::Id(id)), Criterion::Id(id)) == without(
            rows,
            Criterion::Id(id),
        ),
{
    lemma_sift_idempotent(rows, Criterion::Id(id), false);
}

/// Deleting by table and item is idempotent as well.
pub proof fn lemma_delete_item_idempotent(rows: Seq<DatabaseResponse>, table_no: i32, item: Seq<
    char,
>)
    ensures
        without(without(rows, Criterion::TableItem(table_no, item)), Criterion::TableItem(
            table_no,
            item,
        )) == without(rows, Criterion::TableItem(table_no, item)),
{
    lemma_sift_idempotent(rows, Criterion::TableItem(table_no, item), false);
}

/// A query returns only rows that its criterion addresses (in particular a
/// query by table never returns a row of another table), and every such row.
pub proof fn lemma_query_isolation(rows: Seq<DatabaseResponse>, c: Criterion)
    ensures
        forall|i: int|
            0 <= i < matching(rows, c).len() ==> c.holds(#[trigger] matching(rows, c)[i]),
        forall|i: int| 0 <= i < rows.len() && c.holds(rows[i]) ==> matching(rows, c).contains(#[trigger] rows[i]),
{
    let pred = |r: DatabaseResponse| c.holds(r) == true;
    assert forall|i: int| 0 <= i < matching(rows, c).len() implies c.holds(
        #[trigger] matching(rows, c)[i],
    ) by {
        rows.lemma_filter_pred(pred, i);
    }
    assert forall|i: int| 0 <= i < rows.len() && c.holds(rows[i]) implies matching(rows, c).contains(
        #[trigger] rows[i],
    ) by {
        rows.lemma_filter_contains(pred, i);
    }
}

/// No row of `rows` has identity `id`, so a query by `id` finds nothing.
pub proof fn lemma_no_id_no_match(rows: Seq<DatabaseResponse>, id: u128)
    requires
        !has_id(rows, id),
    ensures
        matching(rows, Criterion::Id(id)).len() == 0,
{
    let c = Criterion::Id(id);
    let pred = |r: DatabaseResponse| c.holds(r) == true;
    let found = matching(rows, c);
    if found.len() > 0 {
        rows.lemma_filter_pred(pred, 0);
        assert(found.contains(found[0]));
        rows.lemma_filter_contains_rev(pred, found[0]);
        let k = choose|k: int| 0 <= k < rows.len() && rows[k] == found[0];
        assert(has_id(rows, id));
    }
}

/// In a well-formed table a query by identity returns zero rows or one.
pub proof fn lemma_query_id_at_most_one(rows: Seq<DatabaseResponse>, id: u128)
    requires
        table_wf(rows),
    ensures
        matching(rows, Criterion::Id(id)).len() <= 1,
    decreases rows.len(),
{
    if rows.len() > 0 {
        let c = Criterion::Id(id);
        let pred = |r: DatabaseResponse| c.holds(r) == true;
        let prefix = rows.drop_last();
        let last = rows.last();
        assert(rows == prefix.push(last));
        prefix.lemma_filter_push(last, pred);
        assert(table_wf(prefix)) by {
            assert forall|i: int| 0 <= i < prefix.len() implies is_valid_row(
                #[trigger] prefix[i],
            ) by {
                assert(prefix[i] == rows[i]);
            }
            assert forall|i: int, j: int|
                0 <= i < prefix.len() && 0 <= j < prefix.len() && i != j implies (
                #[trigger] prefix[i]).id != (#[trigger] prefix[j]).id by {
                assert(prefix[i] == rows[i]);
                assert(prefix[j] == rows[j]);
            }
        }
        if last.id == id {
            assert(!has_id(prefix, id)) by {
                assert forall|k: int| 0 <= k < prefix.len() implies (#[trigger] prefix[k]).id
                    != id by {
                    assert(prefix[k] == rows[k]);
                    assert(rows[rows.len() - 1] == last);
                }
            }
            lemma_no_id_no_match(prefix, id);
        } else {
            lemma_query_id_at_most_one(prefix, id);
        }
    }
}

/// Round trip: once an order is stored under `id`, a query by `id` returns
/// exactly one row, which holds the order's fields and a preparation time
/// within the kitchen's bounds.
pub proof fn lemma_submit_then_query_id(
    before: Seq<DatabaseResponse>,
    after: Seq<DatabaseResponse>,
    id: u128,
    table_no: int,
    item: Seq<char>,
    quantity: int,
)
    requires
        order_added(before, after, id, table_no, item, quantity),
    ensures
        matching(after, Criterion::Id(id)).len() == 1,
        matching(after, Criterion::Id(id))[0].id == id,
        matching(after, Criterion::Id(id))[0].table_no as int == table_no,
        matching(after, Criterion::Id(id))[0].item@ == item,
        matching(after, Criterion::Id(id))[0].quantity as int == quantity,
        PREPARATION_MIN <= matching(after, Criterion::Id(id))[0].preparation_time
            < PREPARATION_MAX,
{
    let c = Criterion::Id(id);
    let pred = |r: DatabaseResponse| c.holds(r) == true;
    assert(after == before.push(after.last()));
    before.lemma_filter_push(after.last(), pred);
    lemma_no_id_no_match(before, id);
}

/// One change made to the table: a row offered for storing, or a delete.
pub enum Change {
    Insert(DatabaseResponse),
    Delete(Criterion),
}

/// The change deletes `r`.
pub open spec fn deletes(change: Change, r: DatabaseResponse) -> bool {
    match change {
        Change::Insert(_) => false,
        Change::Delete(c) => c.holds(r),
    }
}

/// The table that a run of changes leaves, starting from an empty table.
/// `OrderTable::insert` (and so `insert_order` and `submit`) makes an
/// `Insert` change, `delete_id_request` and `delete_item_request` a `Delete`.
pub open spec fn replay(changes: Seq<Change>) -> Seq<DatabaseResponse>
    decreases changes.len(),
{
    if changes.len() == 0 {
        Seq::empty()
    } else {
        let before = replay(changes.drop_last());
        match changes.last() {
            Change::Insert(r) => inserted(before, r),
            Change::Delete(c) => without(before, c),
        }
    }
}

/// Change `i` stored `r` (its identity was free then) and no later change
/// deleted it.
pub open spec fn survives(changes: Seq<Change>, i: int, r: DatabaseResponse) -> bool {
    &&& 0 <= i < changes.len()
    &&& changes[i] == Change::Insert(r)
    &&& !has_id(replay(changes.subrange(0, i)), r.id)
    &&& forall|j: int| i < j < changes.len() ==> !deletes(#[trigger] changes[j], r)
}

/// The table holds a row exactly when the row was stored and has not been
/// deleted since.
pub proof fn lemma_replay_rows(changes: Seq<Change>, r: DatabaseResponse)
    ensures
        replay(changes).contains(r) <==> exists|i: int| survives(changes, i, r),
    decreases changes.len(),
{
    let n = changes.len();
    if n == 0 {
        assert(!replay(changes).contains(r));
    } else {
        let prev = changes.drop_last();
        let before = replay(prev);
        lemma_replay_rows(prev, r);
        assert forall|i: int| 0 <= i < n - 1 implies #[trigger] changes.subrange(0, i)
            == prev.subrange(0, i) by {
            assert(changes.subrange(0, i) =~= prev.subrange(0, i));
        }
        assert(changes.subrange(0, n - 1) =~= prev);
        match changes.last() {
            Change::Insert(x) => {
                assert forall|i: int| 0 <= i < n - 1 implies survives(changes, i, r)
                    == survives(prev, i, r) by {
                    assert(changes.subrange(0, i) == prev.subrange(0, i));
                    if survives(prev, i, r) {
                        assert forall|j: int| i < j < n implies !deletes(
                            #[trigger] changes[j],
                            r,
                        ) by {
                            if j < n - 1 {
                                assert(changes[j] == prev[j]);
                            }
                        }
                    }
                    if survives(changes, i, r) {
                        assert forall|j: int| i < j < n - 1 implies !deletes(
                            #[trigger] prev[j],
                            r,
                        ) by {
                            assert(changes[j] == prev[j]);
                        }
                    }
                }
                if has_id(before, x.id) {
                    assert(!survives(changes, n - 1, r));
                    if replay(changes).contains(r) {
                        let i = choose|i: int| survives(prev, i, r);
                        assert(survives(changes, i, r));
                    }
                    if exists|i: int| survives(changes, i, r) {
                        let i = choose|i: int| survives(changes, i, r);
                        assert(survives(prev, i, r));
                    }
                } else {
                    assert(replay(changes) == before.push(x));
                    if r == x {
                        assert(survives(changes, n - 1, r));
                        assert(replay(changes)[before.len() as int] == x);
                        assert(replay(changes).contains(r));
                    } else {
                        assert(!survives(changes, n - 1, r));
                        if replay(changes).contains(r) {
                            let k = choose|k: int| 0 <= k < replay(changes).len() && replay(changes)[k] == r;
                            assert(before[k] == r);
                            let i = choose|i: int| survives(prev, i, r);
                            assert(survives(changes, i, r));
                        }
                        if exists|i: int| survives(changes, i, r) {
                            let i = choose|i: int| survives(changes, i, r);
                            assert(survives(prev, i, r));
                            let k = choose|k: int| 0 <= k < before.len() && before[k] == r;
                            assert(replay(changes)[k] == r);
                        }
                    }
                }
            },
            Change::Delete(c) => {
                let pred = |q: DatabaseResponse| c.holds(q) == false;
                assert(replay(changes) == sift(before, c, false));
                assert(!survives(changes, n - 1, r));
                assert forall|i: int| 0 <= i < n - 1 implies survives(changes, i, r)
                    == (survives(prev, i, r) && !c.holds(r)) by {
                    assert(changes.subrange(0, i) == prev.subrange(0, i));
                    assert(deletes(changes[n - 1], r) == c.holds(r));
                    if survives(prev, i, r) && !c.holds(r) {
                        assert forall|j: int| i < j < n implies !deletes(
                            #[trigger] changes[j],
                            r,
                        ) by {
                            if j < n - 1 {
                                assert(changes[j] == prev[j]);
                            }
                        }
                    }
                    if survives(changes, i, r) {
                        assert(!deletes(changes[n - 1], r));
                        assert forall|j: int| i < j < n - 1 implies !deletes(
                            #[trigger] prev[j],
                            r,
                        ) by {
                            assert(changes[j] == prev[j]);
                        }
                    }
                }
                if replay(changes).contains(r) {
                    before.lemma_filter_contains_rev(pred, r);
                    let k = choose|k: int| 0 <= k < replay(changes).len() && replay(changes)[k] == r;
                    before.lemma_filter_pred(pred, k);
                    let i = choose|i: int| survives(prev, i, r);
                    assert(survives(changes, i, r));
                }
                if exists|i: int| survives(changes, i, r) {
                    let i = choose|i: int| survives(changes, i, r);
                    assert(survives(prev, i, r));
                    let k = choose|k: int| 0 <= k < before.len() && before[k] == r;
                    before.lemma_filter_contains(pred, k);
                }
            },
        }
    }
}

/// Storing a valid row keeps the table well formed.
pub proof fn lemma_inserted_keeps_wf(rows: Seq<DatabaseResponse>, row: DatabaseResponse)
    requires
        table_wf(rows),
        is_valid_row(row),
    ensures
        table_wf(inserted(rows, row)),
{
    if !has_id(rows, row.id) {
        let after = rows.push(row);
        assert forall|i: int, j: int|
            0 <= i < after.len() && 0 <= j < after.len() && i != j implies (
            #[trigger] after[i]).id != (#[trigger] after[j]).id by {
            if i < rows.len() && j < rows.len() {
                assert(after[i] == rows[i] && after[j] == rows[j]);
            } else if i < rows.len() {
                assert(after[i] == rows[i]);
            } else if j < rows.len() {
                assert(after[j] == rows[j]);
            }
        }
    }
}

/// Whatever the run of changes, as long as every row offered is valid, the
/// table holds only valid rows and no two rows with one identity, so no row
/// twice.
pub proof fn lemma_replay_wf(changes: Seq<Change>)
    requires
        forall|i: int|
            0 <= i < changes.len() ==> (#[trigger] changes[i] matches Change::Insert(r)
                ==> is_valid_row(r)),
    ensures
        table_wf(replay(changes)),
        replay(changes).no_duplicates(),
    decreases changes.len(),
{
    let n = changes.len();
    if n > 0 {
        let prev = changes.drop_last();
        assert forall|i: int|
            0 <= i < prev.len() implies (#[trigger] prev[i] matches Change::Insert(r)
            ==> is_valid_row(r)) by {
            assert(prev[i] == changes[i]);
        }
        lemma_replay_wf(prev);
        match changes.last() {
            Change::Insert(x) => {
                assert(changes[n - 1] == changes.last());
                lemma_inserted_keeps_wf(replay(prev), x);
            },
            Change::Delete(c) => {
                lemma_sift_keeps_wf(replay(prev), c, false);
            },
        }
    }
    let rows = replay(changes);
    assert forall|i: int, j: int| 0 <= i < rows.len() && 0 <= j < rows.len() && i != j implies rows[i]
        != rows[j] by {
        assert(rows[i].id != rows[j].id);
    }
}

} // verus!
