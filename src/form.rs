//! The form body with which a terminal submits an order.

use vstd::prelude::*;

use crate::text::{decimal_of, push_decimal};

verus! {

/// The form body (`application/x-www-form-urlencoded`) with which a terminal
/// submits one order. The item is written as it is: menu names need no
/// escaping.
pub open spec fn form_body(table_no: int, item: Seq<char>, quantity: int) -> Seq<char> {
    "table_no="@ + decimal_of(table_no) + "&item="@ + item + "&quantity="@ + decimal_of(quantity)
}

/// The form body of an order of `quantity` times `item` for table `table_no`.
pub fn gen_body(table_no: i32, item: &str, quantity: i32) -> (r: String)
    ensures
        r@ == form_body(table_no as int, item@, quantity as int),
{
    let mut body = String::from_str("table_no=");
    push_decimal(&mut body, table_no);
    body.append("&item=");
    body.append(item);
    body.append("&quantity=");
    push_decimal(&mut body, quantity);
    body
}

/// One form body per `(item, quantity)` pair, all for table `table_no`, in
/// the order of `items`.
pub fn gen_multi_item_bodies(table_no: i32, items: Vec<(&str, i32)>) -> (r: Vec<String>)
    ensures
        r@.len() == items@.len(),
        forall|i: int|
            0 <= i < items@.len() ==> (#[trigger] r@[i])@ == form_body(
                table_no as int,
                items@[i].0@,
                items@[i].1 as int,
            ),
{
    let mut bodies: Vec<String> = Vec::new();
    let mut k: usize = 0;
    while k < items.len()
        invariant
            k <= items@.len(),
            bodies@.len() == k,
            forall|i: int|
                0 <= i < k ==> (#[trigger] bodies@[i])@ == form_body(
                    table_no as int,
                    items@[i].0@,
                    items@[i].1 as int,
                ),
        decreases items@.len() - k,
    {
        let (item, quantity) = items[k];
        bodies.push(gen_body(table_no, item, quantity));
        k = k + 1;
    }
    bodies
}

} // verus!
