use restaurant::item::{MALFORMED_MESSAGE, UNLISTED_MESSAGE};
use restaurant::natural::NEGATIVE_MESSAGE;
use restaurant::{FormData, Item, Nat, NewOrder, MENU_ITEMS, VALID_ITEMS};

#[test]
fn a_valid_item_is_parsed_successfully() {
    let item = "hamburger".to_string();
    assert!(Item::parse(item).is_ok());
}

#[test]
fn no_partial_match_for_valid_item() {
    let item = "hamburge".to_string();
    assert!(Item::parse(item).is_err());
}

#[test]
fn valid_item_with_additions_is_rejected() {
    for addition in &[" ", "1", "fries"] {
        let mut item = "hamburger".to_string();
        item.push_str(addition);
        assert!(Item::parse(item).is_err());
    }
}

#[test]
fn all_menu_items_are_parsed_successfully() {
    for menu_item in MENU_ITEMS {
        assert!(Item::parse(menu_item.to_string()).is_ok());
    }
}

#[test]
fn all_valid_items_are_contained_in_menu_items_constant() {
    assert!(VALID_ITEMS.iter().all(|item| MENU_ITEMS.contains(item)));
}

#[test]
fn whitespace_only_items_are_rejected() {
    let item = " ".to_string();
    assert!(Item::parse(item).is_err());
}

#[test]
fn empty_string_is_rejected() {
    let item = "".to_string();
    assert!(Item::parse(item).is_err());
}

#[test]
fn items_containing_an_invalid_character_are_rejected() {
    for item in &['/', '(', ')', '"', '<', '>', '\\', '{', '}'] {
        let item = item.to_string();
        assert!(Item::parse(item).is_err());
    }
}

#[test]
fn positive_number_is_valid() {
    assert!(Nat::parse(77).is_ok());
}

#[test]
fn zero_is_valid() {
    assert!(Nat::parse(0).is_ok());
}

#[test]
fn negative_number_is_rejected() {
    assert!(Nat::parse(-1).is_err());
}

#[test]
fn parsed_number_keeps_its_value() {
    assert_eq!(*Nat::parse(77).unwrap().as_ref(), 77);
    assert_eq!(*Nat::parse(i32::MAX).unwrap().as_ref(), i32::MAX);
}

#[test]
fn negative_number_message_names_the_number() {
    assert_eq!(Nat::parse(-1).unwrap_err(), format!("-1{}", NEGATIVE_MESSAGE));
    assert_eq!(
        Nat::parse(i32::MIN).unwrap_err(),
        format!("-2147483648{}", NEGATIVE_MESSAGE)
    );
}

#[test]
fn parsed_item_keeps_its_name() {
    assert_eq!(Item::parse("cola".to_string()).unwrap().as_ref(), "cola");
}

#[test]
fn item_match_is_case_sensitive_and_untrimmed() {
    assert!(Item::parse("Hamburger".to_string()).is_err());
    assert!(Item::parse(" water".to_string()).is_err());
    assert!(Item::parse("water\n".to_string()).is_err());
}

#[test]
fn unicode_whitespace_only_item_is_malformed() {
    let item = "\u{3000}\t\u{2003}".to_string();
    assert_eq!(
        Item::parse(item.clone()).unwrap_err(),
        format!("{}{}", item, MALFORMED_MESSAGE)
    );
}

#[test]
fn forbidden_character_message_comes_before_menu_check() {
    assert_eq!(
        Item::parse("fries}".to_string()).unwrap_err(),
        format!("fries}}{}", MALFORMED_MESSAGE)
    );
}

#[test]
fn unknown_item_message_says_it_is_not_listed() {
    assert_eq!(
        Item::parse("unicorn".to_string()).unwrap_err(),
        format!("unicorn{}", UNLISTED_MESSAGE)
    );
}

#[test]
fn valid_form_becomes_an_order() {
    let form = FormData {
        table_no: 4,
        item: "fries".to_string(),
        quantity: 2,
    };
    let order = NewOrder::try_from(form).unwrap();
    assert_eq!(*order.table_no.as_ref(), 4);
    assert_eq!(order.item.as_ref(), "fries");
    assert_eq!(*order.quantity.as_ref(), 2);
}

#[test]
fn form_validation_stops_at_first_bad_field() {
    let form = FormData {
        table_no: -3,
        item: "unicorn".to_string(),
        quantity: -4,
    };
    assert_eq!(
        NewOrder::try_from(form).err().unwrap(),
        format!("-3{}", NEGATIVE_MESSAGE)
    );
    let form = FormData {
        table_no: 3,
        item: "unicorn".to_string(),
        quantity: -4,
    };
    assert_eq!(
        NewOrder::try_from(form).err().unwrap(),
        format!("unicorn{}", UNLISTED_MESSAGE)
    );
    let form = FormData {
        table_no: 3,
        item: "cola".to_string(),
        quantity: -4,
    };
    assert_eq!(
        NewOrder::try_from(form).err().unwrap(),
        format!("-4{}", NEGATIVE_MESSAGE)
    );
}
