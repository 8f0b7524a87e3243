//! The published menu.

use vstd::prelude::*;

verus! {

/// The restaurant's menu, as it is published to terminals and documentation.
pub const MENU_ITEMS: [&'static str; 4] = ["hamburger", "fries", "cola", "water"];

} // verus!
