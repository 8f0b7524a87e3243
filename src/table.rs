//! A verified in-memory model of the orders store: rows are added by
//! `submit`, found by identity, table or table and item, and deleted by
//! identity or by table and item. An empty answer is no error. The service
//! itself keeps its orders in PostgreSQL and issues the matching statements;
//! `OrderTable` states and proves what each of them does to the rows.

use vstd::prelude::*;

use crate::laws::lemma_query_id_at_most_one;
use crate::order::{form_error, is_valid_form, FormData, NewOrder};
use crate::record::{is_valid_row, records_order, DatabaseResponse};
use crate::text::same_text;

verus! {

/// Which rows a query or a delete addresses.
pub enum Criterion {
    Id(u128),
    Table(i32),
    TableItem(i32, Seq<char>),
}

impl Criterion {
    pub open spec fn holds(self, r: DatabaseResponse) -> bool {
        match self {
            Criterion::Id(id) => r.id == id,
            Criterion::Table(t) => r.table_no == t,
            Criterion::TableItem(t, item) => r.table_no == t && r.item@ == item,
        }
    }
}

/// The rows of `rows`, in their order, for which `c` holds (`keep`) or fails
/// (`!keep`).
pub open spec fn sift(rows: Seq<DatabaseResponse>, c: Criterion, keep: bool) -> Seq<
    DatabaseResponse,
> {
    rows.filter(|r: DatabaseResponse| c.holds(r) == keep)
}

/// The rows that `c` addresses.
pub open spec fn matching(rows: Seq<DatabaseResponse>, c: Criterion) -> Seq<DatabaseResponse> {
    sift(rows, c, true)
}

/// The rows that `c` does not address: what is left after deleting by `c`.
pub open spec fn without(rows: Seq<DatabaseResponse>, c: Criterion) -> Seq<DatabaseResponse> {
    sift(rows, c, false)
}

/// Some row of `rows` has identity `id`.
pub open spec fn has_id(rows: Seq<DatabaseResponse>, id: u128) -> bool {
    exists|i: int| 0 <= i < rows.len() && (#[trigger] rows[i]).id == id
}

/// What holds of the table at every moment: every row is valid and no two
/// rows share an identity.
pub open spec fn table_wf(rows: Seq<DatabaseResponse>) -> bool {
    &&& forall|i: int| 0 <= i < rows.len() ==> is_valid_row(#[trigger] rows[i])
    &&& forall|i: int, j: int|
        0 <= i < rows.len() && 0 <= j < rows.len() && i != j ==> (#[trigger] rows[i]).id
            != (#[trigger] rows[j]).id
}

/// The table after storing `row`: the row is added at the end, unless its
/// identity is taken, which the store refuses.
pub open spec fn inserted(rows: Seq<DatabaseResponse>, row: DatabaseResponse) -> Seq<
    DatabaseResponse,
> {
    if has_id(rows, row.id) {
        rows
    } else {
        rows.push(row)
    }
}

/// `after` is `before` with one row added at the end, under the identity `id`,
/// for an order of `table_no`, `item` and `quantity`.
pub open spec fn order_added(
    before: Seq<DatabaseResponse>,
    after: Seq<DatabaseResponse>,
    id: u128,
    table_no: int,
    item: Seq<char>,
    quantity: int,
) -> bool {
    &&& after.len() == before.len() + 1
    &&& after.drop_last() == before
    &&& !has_id(before, id)
    &&& after.last().id == id
    &&& after.last().table_no as int == table_no
    &&& after.last().item@ == item
    &&& after.last().quantity as int == quantity
    &&& is_valid_row(after.last())
}

/// Why an order was not taken.
#[derive(Debug)]
pub enum OrderError {
    /// A field failed validation; the message names the first such field.
    Validation(String),
    /// The store refused the row.
    Storage,
}

enum Selector<'a> {
    Id(u128),
    Table(i32),
    TableItem(i32, &'a str),
}

impl<'a> View for Selector<'a> {
    type V = Criterion;

    closed spec fn view(&self) -> Criterion {
        match *self {
            Selector::Id(id) => Criterion::Id(id),
            Selector::Table(t) => Criterion::Table(t),
            Selector::TableItem(t, item) => Criterion::TableItem(t, item@),
        }
    }
}

fn selects(sel: &Selector, r: &DatabaseResponse) -> (b: bool)
    ensures
        b == sel@.holds(*r),
{
    match sel {
        Selector::Id(id) => r.id == *id,
        Selector::Table(t) => r.table_no == *t,
        Selector::TableItem(t, item) => r.table_no == *t && same_text(r.item.as_str(), item),
    }
}

fn sift_rows(rows: &Vec<DatabaseResponse>, sel: &Selector, keep: bool) -> (r: Vec<
    DatabaseResponse,
>)
    ensures
        r@ == sift(rows@, sel@, keep),
{
    let mut out: Vec<DatabaseResponse> = Vec::new();
    let mut i: usize = 0;
    while i < rows.len()
        invariant
            i <= rows@.len(),
            out@ == sift(rows@.subrange(0, i as int), sel@, keep),
        decreases rows@.len() - i,
    {
        let row = &rows[i];
        if selects(sel, row) == keep {
            out.push(row.clone());
        }
        proof {
            let c = sel@;
            assert(rows@.subrange(0, i + 1) =~= rows@.subrange(0, i as int).push(rows@[i as int]));
            rows@.subrange(0, i as int).lemma_filter_push(
                rows@[i as int],
                |r: DatabaseResponse| c.holds(r) == keep,
            );
        }
        i = i + 1;
    }
    assert(rows@.subrange(0, rows@.len() as int) =~= rows@);
    out
}

/// A verified in-memory model of the orders store: every stored order, in
/// the order in which it was stored.
pub struct OrderTable {
    rows: Vec<DatabaseResponse>,
}

impl View for OrderTable {
    type V = Seq<DatabaseResponse>;

    closed spec fn view(&self) -> Seq<DatabaseResponse> {
        self.rows@
    }
}

impl OrderTable {
    pub open spec fn wf(&self) -> bool {
        table_wf(self@)
    }

    /// An empty table.
    pub fn new() -> (t: OrderTable)
        ensures
            t@ == Seq::<DatabaseResponse>::empty(),
            t.wf(),
    {
        OrderTable { rows: Vec::new() }
    }

    fn contains_id(&self, id: u128) -> (b: bool)
        ensures
            b == has_id(self@, id),
    {
        let mut i: usize = 0;
        while i < self.rows.len()
            invariant
                i <= self@.len(),
                forall|j: int| 0 <= j < i ==> (#[trigger] self@[j]).id != id,
            decreases self@.len() - i,
        {
            if self.rows[i].id == id {
                return true;
            }
            i = i + 1;
        }
        false
    }

    /// Stores `row`, unless a row with its identity is stored already.
    pub fn insert(&mut self, row: DatabaseResponse) -> (r: Result<(), OrderError>)
        requires
            old(self).wf(),
            is_valid_row(row),
        ensures
            final(self).wf(),
            final(self)@ == inserted(old(self)@, row),
            r is Ok <==> !has_id(old(self)@, row.id),
            r matches Err(e) ==> e is Storage,
    {
        if self.contains_id(row.id) {
            return Err(OrderError::Storage);
        }
        self.rows.push(row);
        Ok(())
    }

    /// Stores `order` with a fresh identity, a preparation time chosen by the
    /// kitchen and the current time, and returns the identity.
    ///
    /// Identities are random: the store refuses one that is taken already,
    /// which can only happen when the table is not empty.
    pub fn insert_order(&mut self, order: &NewOrder) -> (r: Result<u128, OrderError>)
        requires
            old(self).wf(),
        ensures
            final(self).wf(),
            r matches Ok(id) ==> order_added(
                old(self)@,
                final(self)@,
                id,
                order.table_no@,
                order.item@,
                order.quantity@,
            ),
            r matches Err(e) ==> e is Storage && final(self)@ == old(self)@ && old(self)@.len() > 0,
    {
        let row = DatabaseResponse::for_order(order);
        let id = row.id;
        match self.insert(row) {
            Ok(()) => {
                assert(self@.drop_last() =~= old(self)@);
                Ok(id)
            },
            Err(e) => Err(e),
        }
    }

    /// Validates the raw fields of an order and, when they pass, stores it.
    /// A rejected order leaves the table as it was.
    pub fn submit(&mut self, form: FormData) -> (r: Result<u128, OrderError>)
        requires
            old(self).wf(),
        ensures
            final(self).wf(),
            r matches Err(OrderError::Validation(msg)) <==> !is_valid_form(
                form.table_no as int,
                form.item@,
                form.quantity as int,
            ),
            r matches Err(OrderError::Validation(msg)) ==> msg@ == form_error(
                form.table_no as int,
                form.item@,
                form.quantity as int,
            ) && final(self)@ == old(self)@,
            r matches Ok(id) ==> order_added(
                old(self)@,
                final(self)@,
                id,
                form.table_no as int,
                form.item@,
                form.quantity as int,
            ),
            r matches Err(OrderError::Storage) ==> final(self)@ == old(self)@ && old(self)@.len()
                > 0,
    {
        match NewOrder::try_from(form) {
            Ok(order) => self.insert_order(&order),
            Err(msg) => Err(OrderError::Validation(msg)),
        }
    }

    /// The order with identity `id`, if it is stored: zero rows or one.
    pub fn query_id_request(&self, id: u128) -> (r: Vec<DatabaseResponse>)
        ensures
            r@ == matching(self@, Criterion::Id(id)),
            self.wf() ==> r@.len() <= 1,
    {
        proof {
            if self.wf() {
                lemma_query_id_at_most_one(self@, id);
            }
        }
        sift_rows(&self.rows, &Selector::Id(id), true)
    }

    /// The orders of table `table_no`.
    pub fn query_table_request(&self, table_no: i32) -> (r: Vec<DatabaseResponse>)
        ensures
            r@ == matching(self@, Criterion::Table(table_no)),
    {
        sift_rows(&self.rows, &Selector::Table(table_no), true)
    }

    /// The orders of table `table_no` for exactly the item `item`.
    pub fn query_item_request(&self, table_no: i32, item: &str) -> (r: Vec<DatabaseResponse>)
        ensures
            r@ == matching(self@, Criterion::TableItem(table_no, item@)),
    {
        sift_rows(&self.rows, &Selector::TableItem(table_no, item), true)
    }

    /// Every stored order.
    pub fn query_all_request(&self) -> (r: Vec<DatabaseResponse>)
        ensures
            r@ == self@,
    {
        let mut out: Vec<DatabaseResponse> = Vec::new();
        let mut i: usize = 0;
        while i < self.rows.len()
            invariant
                i <= self@.len(),
                out@ == self@.subrange(0, i as int),
            decreases self@.len() - i,
        {
            out.push(self.rows[i].clone());
            assert(out@ =~= self@.subrange(0, i + 1));
            i = i + 1;
        }
        assert(self@.subrange(0, self@.len() as int) =~= self@);
        out
    }

    /// Deletes the order with identity `id`; none stored is no error.
    pub fn delete_id_request(&mut self, id: u128)
        requires
            old(self).wf(),
        ensures
            final(self).wf(),
            final(self)@ == without(old(self)@, Criterion::Id(id)),
    {
        let kept = sift_rows(&self.rows, &Selector::Id(id), false);
        self.rows = kept;
        proof {
            lemma_sift_keeps_wf(old(self)@, Criterion::Id(id), false);
        }
    }

    /// Deletes every order of table `table_no` for exactly the item `item`;
    /// none stored is no error.
    pub fn delete_item_request(&mut self, table_no: i32, item: &str)
        requires
            old(self).wf(),
        ensures
            final(self).wf(),
            final(self)@ == without(old(self)@, Criterion::TableItem(table_no, item@)),
    {
        let kept = sift_rows(&self.rows, &Selector::TableItem(table_no, item), false);
        self.rows = kept;
        proof {
            lemma_sift_keeps_wf(old(self)@, Criterion::TableItem(table_no, item@), false);
        }
    }
}

/// Sifting a well-formed table leaves a well-formed table.
pub proof fn lemma_sift_keeps_wf(rows: Seq<DatabaseResponse>, c: Criterion, keep: bool)
    requires
        table_wf(rows),
    ensures
        table_wf(sift(rows, c, keep)),
    decreases rows.len(),
{
    reveal(Seq::filter);
    if rows.len() > 0 {
        let prefix = rows.drop_last();
        assert(table_wf(prefix)) by {
            assert forall|i: int| 0 <= i < prefix.len() implies is_valid_row(
                #[trigger] prefix[i],
            ) by {
                assert(prefix[i] == rows[i]);
            }
            assert forall|i: int, j: int|
                0 <= i < prefix.len() && 0 <= j < prefix.len() && i != j implies (
                #[trigger] prefix[i]).id != (#[trigger] prefix[j]).id by {
                assert(prefix[i] == rows[i]);
                assert(prefix[j] == rows[j]);
            }
        }
        lemma_sift_keeps_wf(prefix, c, keep);
        let pred = |r: DatabaseResponse| c.holds(r) == keep;
        let sub = sift(prefix, c, keep);
        if pred(rows.last()) {
            assert(sift(rows, c, keep) == sub.push(rows.last()));
            assert forall|k: int| 0 <= k < sub.len() implies (#[trigger] sub[k]).id != rows.last().id by {
                prefix.lemma_filter_contains_rev(pred, sub[k]);
                let m = choose|m: int| 0 <= m < prefix.len() && prefix[m] == sub[k];
                assert(rows[m] == sub[k]);
            }
        }
    }
}

} // verus!
