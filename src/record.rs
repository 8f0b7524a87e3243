//! The stored form of an order and the server-assigned fields.

use vstd::prelude::*;

use crate::item::is_valid_item;
use crate::order::NewOrder;

verus! {

/// The smallest preparation time, in minutes, that the kitchen assigns.
pub const PREPARATION_MIN: i32 = 5;

/// One more than the largest preparation time the kitchen assigns.
pub const PREPARATION_MAX: i32 = 15;

/// An order as the store holds it: the client's fields and those the server
/// assigns (identity, preparation time, time of placing).
///
/// `id` is the 128-bit value of a UUID; `placed_at` counts microseconds since
/// the Unix epoch.
pub struct DatabaseResponse {
    pub id: u128,
    pub table_no: i32,
    pub item: String,
    pub quantity: i32,
    pub preparation_time: i32,
    pub placed_at: i64,
}

impl Clone for DatabaseResponse {
    fn clone(&self) -> (r: Self)
        ensures
            r == *self,
    {
        DatabaseResponse {
            id: self.id,
            table_no: self.table_no,
            item: self.item.clone(),
            quantity: self.quantity,
            preparation_time: self.preparation_time,
            placed_at: self.placed_at,
        }
    }
}

/// What holds of every row that the store keeps.
pub open spec fn is_valid_row(r: DatabaseResponse) -> bool {
    &&& r.table_no >= 0
    &&& r.quantity >= 0
    &&& PREPARATION_MIN <= r.preparation_time < PREPARATION_MAX
    &&& is_valid_item(r.item@)
}

/// `r` stores the client's fields of `order`.
pub open spec fn records_order(r: DatabaseResponse, order: NewOrder) -> bool {
    &&& r.table_no as int == order.table_no@
    &&& r.item@ == order.item@
    &&& r.quantity as int == order.quantity@
}

/// The version and variant bits of a random (version 4) UUID.
pub open spec fn is_random_uuid(id: u128) -> bool {
    id & 0xF000_C000_0000_0000_0000u128 == 0x4000_8000_0000_0000_0000u128
}

/// Relies on `uuid::Uuid::new_v4`, read back whole with `Uuid::as_u128`: a
/// fresh random identifier with the version 4 and RFC 4122 variant bits set.
#[verifier::external_body]
fn new_order_id() -> (id: u128)
    ensures
        is_random_uuid(id),
{
    uuid::Uuid::new_v4().as_u128()
}

/// Relies on `rand::Rng::gen_range` on `rand::thread_rng()`: a number drawn
/// from `low..high`, which must not be empty.
#[verifier::external_body]
fn random_in_range(low: i32, high: i32) -> (r: i32)
    requires
        low < high,
    ensures
        low <= r < high,
{
    rand::Rng::gen_range(&mut rand::thread_rng(), low..high)
}

/// Relies on `From<SystemTime> for chrono::DateTime<Utc>`, applied to
/// `SystemTime::now()` and read with `DateTime::timestamp_micros`: the
/// wall-clock time in microseconds since the Unix epoch, negative for a clock
/// set before the epoch.
#[verifier::external_body]
fn now_micros() -> i64 {
    chrono::DateTime::<chrono::Utc>::from(std::time::SystemTime::now()).timestamp_micros()
}

/// The row that stores `order` under the given identity, preparation time and
/// time of placing.
pub fn stored_order(order: &NewOrder, id: u128, preparation_time: i32, placed_at: i64) -> (r:
    DatabaseResponse)
    ensures
        records_order(r, *order),
        r.id == id,
        r.preparation_time == preparation_time,
        r.placed_at == placed_at,
        PREPARATION_MIN <= preparation_time < PREPARATION_MAX ==> is_valid_row(r),
{
    DatabaseResponse {
        id,
        table_no: *order.table_no.as_ref(),
        item: order.item.as_ref().to_owned(),
        quantity: *order.quantity.as_ref(),
        preparation_time,
        placed_at,
    }
}

impl DatabaseResponse {
    /// The row for a new order: a fresh random identity, a preparation time
    /// drawn from `PREPARATION_MIN..PREPARATION_MAX` and the current time.
    pub fn for_order(order: &NewOrder) -> (r: DatabaseResponse)
        ensures
            records_order(r, *order),
            is_random_uuid(r.id),
            is_valid_row(r),
    {
        let id = new_order_id();
        let preparation_time = random_in_range(PREPARATION_MIN, PREPARATION_MAX);
        let placed_at = now_micros();
        stored_order(order, id, preparation_time, placed_at)
    }
}

} // verus!
