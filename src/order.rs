//! From raw submitted fields to a checked order request.

use vstd::prelude::*;

use crate::item::{is_valid_item, item_error, Item};
use crate::natural::{negative_message, Nat};

verus! {

/// An order as a terminal submits it: raw fields, nothing checked yet.
pub struct FormData {
    pub table_no: i32,
    pub item: String,
    pub quantity: i32,
}

/// A checked order request: every field has passed its validation.
///
/// The preparation time is not part of the request: the kitchen assigns it
/// when the order is stored (see `stored_order`).
pub struct NewOrder {
    pub table_no: Nat,
    pub item: Item,
    pub quantity: Nat,
}

/// The raw fields would all pass validation.
pub open spec fn is_valid_form(table_no: int, item: Seq<char>, quantity: int) -> bool {
    table_no >= 0 && is_valid_item(item) && quantity >= 0
}

/// The message of the first field, in the order table number, item, quantity,
/// that fails validation.
pub open spec fn form_error(table_no: int, item: Seq<char>, quantity: int) -> Seq<char> {
    if table_no < 0 {
        negative_message(table_no)
    } else if !is_valid_item(item) {
        item_error(item)
    } else {
        negative_message(quantity)
    }
}

impl NewOrder {
    /// Validates the fields one after the other and stops at the first that fails.
    pub fn try_from(value: FormData) -> (r: Result<NewOrder, String>)
        ensures
            r is Ok <==> is_valid_form(value.table_no as int, value.item@, value.quantity as int),
            r matches Ok(order) ==> {
                &&& order.table_no@ == value.table_no as int
                &&& order.item@ == value.item@
                &&& order.quantity@ == value.quantity as int
            },
            r matches Err(e) ==> e@ == form_error(
                value.table_no as int,
                value.item@,
                value.quantity as int,
            ),
    {
        let table_no = match Nat::parse(value.table_no) {
            Ok(n) => n,
            Err(e) => return Err(e),
        };
        let item = match Item::parse(value.item) {
            Ok(i) => i,
            Err(e) => return Err(e),
        };
        let quantity = match Nat::parse(value.quantity) {
            Ok(n) => n,
            Err(e) => return Err(e),
        };
        Ok(NewOrder { table_no, item, quantity })
    }
}

} // verus!
