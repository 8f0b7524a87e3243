//! Order intake for a restaurant: validated order fields, the rows that store
//! orders, and a verified in-memory model of the orders store with its
//! queries and deletes, each stated by its contract and proved. The service
//! keeps its orders in PostgreSQL; the model states what its statements do.

use vstd::prelude::*;

pub mod form;
pub mod item;
pub mod laws;
pub mod menu;
pub mod natural;
pub mod order;
pub mod record;
pub mod response;
pub mod table;
pub mod text;

pub use form::{gen_body, gen_multi_item_bodies};
pub use item::{Item, VALID_ITEMS};
pub use menu::MENU_ITEMS;
pub use natural::Nat;
pub use order::{FormData, NewOrder};
pub use record::{stored_order, DatabaseResponse, PREPARATION_MAX, PREPARATION_MIN};
pub use response::{response_status, SqlError};
pub use table::{OrderError, OrderTable};

verus! {

/// The address under which the service is reached, as clients should use it.
pub struct ApplicationBaseUrl(pub String);

} // verus!
