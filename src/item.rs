//! Item names and their validation against the menu.

use vstd::prelude::*;

use crate::menu::MENU_ITEMS;
use crate::text::{char_is_whitespace, is_white_space, same_text};

verus! {

/// The dishes that `Item::parse` accepts. `MENU_ITEMS` lists the menu a
/// second time, on purpose: the two lists are held against each other so
/// that neither drifts unnoticed.
pub const VALID_ITEMS: [&'static str; 4] = ["hamburger", "fries", "cola", "water"];

/// What `Item::parse` says about a name that is blank or holds a forbidden character.
pub const MALFORMED_MESSAGE: &'static str = " item is empty or contains forbidden characters.";

/// What `Item::parse` says about a well-formed name that is not on the menu.
pub const UNLISTED_MESSAGE: &'static str = " item is not in the valid item list.";

/// The characters that may not occur in an item name.
pub open spec fn is_forbidden_char(c: char) -> bool {
    c == '/' || c == '(' || c == ')' || c == '"' || c == '<' || c == '>' || c == '\\' || c == '{'
        || c == '}'
}

/// Nothing is left of `s` once leading and trailing whitespace is trimmed.
pub open spec fn is_blank(s: Seq<char>) -> bool {
    forall|i: int| 0 <= i < s.len() ==> is_white_space(#[trigger] s[i])
}

pub open spec fn has_forbidden_char(s: Seq<char>) -> bool {
    exists|i: int| 0 <= i < s.len() && is_forbidden_char(#[trigger] s[i])
}

/// The menu, as the names that are accepted.
pub open spec fn menu_names() -> Seq<Seq<char>> {
    seq!["hamburger"@, "fries"@, "cola"@, "water"@]
}

/// `s` is exactly one of the menu's names: case counts and nothing is trimmed.
pub open spec fn is_menu_name(s: Seq<char>) -> bool {
    menu_names().contains(s)
}

/// The names that `Item::parse` accepts.
pub open spec fn is_valid_item(s: Seq<char>) -> bool {
    !is_blank(s) && !has_forbidden_char(s) && is_menu_name(s)
}

/// The message with which `Item::parse` rejects `s`: the first failed check decides.
pub open spec fn item_error(s: Seq<char>) -> Seq<char> {
    if is_blank(s) || has_forbidden_char(s) {
        s + MALFORMED_MESSAGE@
    } else {
        s + UNLISTED_MESSAGE@
    }
}

fn is_blank_text(s: &str) -> (r: bool)
    ensures
        r == is_blank(s@),
{
    let n = s.unicode_len();
    let mut i: usize = 0;
    while i < n
        invariant
            n == s@.len(),
            i <= n,
            forall|j: int| 0 <= j < i ==> is_white_space(#[trigger] s@[j]),
        decreases n - i,
    {
        if !char_is_whitespace(s.get_char(i)) {
            return false;
        }
        i = i + 1;
    }
    true
}

fn has_forbidden_text(s: &str) -> (r: bool)
    ensures
        r == has_forbidden_char(s@),
{
    let n = s.unicode_len();
    let mut i: usize = 0;
    while i < n
        invariant
            n == s@.len(),
            i <= n,
            forall|j: int| 0 <= j < i ==> !is_forbidden_char(#[trigger] s@[j]),
        decreases n - i,
    {
        let c = s.get_char(i);
        if c == '/' || c == '(' || c == ')' || c == '"' || c == '<' || c == '>' || c == '\\' || c
            == '{' || c == '}' {
            return true;
        }
        i = i + 1;
    }
    false
}

fn is_listed(s: &str) -> (r: bool)
    ensures
        r == is_menu_name(s@),
{
    let items = VALID_ITEMS;
    assert(forall|j: int| 0 <= j < 4 ==> menu_names()[j] == items@[j]@);
    let mut k: usize = 0;
    while k < 4
        invariant
            items == VALID_ITEMS,
            forall|j: int| 0 <= j < 4 ==> menu_names()[j] == items@[j]@,
            k <= 4,
            forall|j: int| 0 <= j < k ==> menu_names()[j] != s@,
        decreases 4 - k,
    {
        if same_text(s, items[k]) {
            assert(menu_names()[k as int] == s@);
            return true;
        }
        k = k + 1;
    }
    assert(!menu_names().contains(s@));
    false
}

/// Every name that `Item::parse` checks against stands on the published menu.
pub proof fn lemma_valid_items_on_menu()
    ensures
        forall|k: int|
            0 <= k < VALID_ITEMS@.len() ==> exists|m: int|
                0 <= m < MENU_ITEMS@.len() && (#[trigger] MENU_ITEMS@[m])@ == (
                #[trigger] VALID_ITEMS@[k])@,
{
    assert(MENU_ITEMS@[0]@ == VALID_ITEMS@[0]@);
    assert(MENU_ITEMS@[1]@ == VALID_ITEMS@[1]@);
    assert(MENU_ITEMS@[2]@ == VALID_ITEMS@[2]@);
    assert(MENU_ITEMS@[3]@ == VALID_ITEMS@[3]@);
}

/// The name of a dish on the menu.
#[derive(Debug)]
pub struct Item(String);

impl View for Item {
    type V = Seq<char>;

    closed spec fn view(&self) -> Seq<char> {
        self.0@
    }
}

impl Item {
    #[verifier::type_invariant]
    spec fn inv(self) -> bool {
        is_valid_item(self.0@)
    }

    /// Accepts `s` when it is not blank, holds no forbidden character and is
    /// exactly the name of a dish on the menu.
    pub fn parse(s: String) -> (r: Result<Item, String>)
        ensures
            r is Ok <==> is_valid_item(s@),
            r matches Ok(item) ==> item@ == s@,
            r matches Err(e) ==> e@ == item_error(s@),
    {
        let blank = is_blank_text(s.as_str());
        let forbidden = has_forbidden_text(s.as_str());
        let listed = is_listed(s.as_str());
        if blank || forbidden {
            Err(s.concat(MALFORMED_MESSAGE))
        } else if !listed {
            Err(s.concat(UNLISTED_MESSAGE))
        } else {
            Ok(Item(s))
        }
    }

    /// The wrapped name.
    pub fn as_ref(&self) -> (r: &str)
        ensures
            r@ == self@,
            is_valid_item(r@),
    {
        proof {
            use_type_invariant(self);
        }
        self.0.as_str()
    }
}

} // verus!
