use restaurant::{gen_body, gen_multi_item_bodies};

#[test]
fn gen_body_is_eq() {
    let body = gen_body(1, "hamburger", 1);
    assert_eq!(body, "table_no=1&item=hamburger&quantity=1");
}

#[test]
fn gen_multi_item_body_test() {
    let table_no = 1;
    let items = [("hamburger", 2), ("fries", 2), ("water", 1), ("cola", 1)].to_vec();

    let bodies = gen_multi_item_bodies(table_no, items);

    let expected_result = [
        "table_no=1&item=hamburger&quantity=2",
        "table_no=1&item=fries&quantity=2",
        "table_no=1&item=water&quantity=1",
        "table_no=1&item=cola&quantity=1",
    ]
    .to_vec();

    assert_eq!(bodies, expected_result);
}

#[test]
fn gen_body_writes_negative_and_extreme_numbers() {
    assert_eq!(
        gen_body(-1, "hamburger", 1),
        "table_no=-1&item=hamburger&quantity=1"
    );
    assert_eq!(
        gen_body(i32::MIN, "cola", i32::MAX),
        "table_no=-2147483648&item=cola&quantity=2147483647"
    );
    assert_eq!(gen_body(0, "", 10), "table_no=0&item=&quantity=10");
}

#[test]
fn gen_multi_item_bodies_of_nothing_is_empty() {
    assert!(gen_multi_item_bodies(7, Vec::new()).is_empty());
}
