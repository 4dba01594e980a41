use query_engine::sql::helpers::{
    make_boolean_expression_table_alias, make_order_by_count_table_alias,
    make_order_by_table_alias, make_order_path_part_table_alias,
};

#[test]
fn boolean_expression_aliases_are_numbered_by_the_counter() {
    let mut next_free_name: u32 = 7;
    let first = make_boolean_expression_table_alias(&mut next_free_name, &"Artist".to_string());
    let second = make_boolean_expression_table_alias(&mut next_free_name, &"Artist".to_string());
    assert_eq!(first.name, "BOOLEXP_7_Artist");
    assert_eq!(second.name, "BOOLEXP_8_Artist");
    assert_eq!(first.unique_index, 0);
    assert_eq!(next_free_name, 9);
}

#[test]
fn aliases_with_different_numbers_never_clash() {
    // the number runs up to the first `_` after the prefix, even when the name starts
    // with digits
    let mut one: u32 = 1;
    let mut twelve: u32 = 12;
    let a = make_boolean_expression_table_alias(&mut one, &"2_x".to_string());
    let b = make_boolean_expression_table_alias(&mut twelve, &"x".to_string());
    assert_eq!(a.name, "BOOLEXP_1_2_x");
    assert_eq!(b.name, "BOOLEXP_12_x");
    assert_ne!(a.name, b.name);
}

#[test]
fn order_by_aliases() {
    assert_eq!(make_order_path_part_table_alias(0, &"Album".to_string()).name, "ORDER_PART_0_Album");
    assert_eq!(make_order_by_table_alias(3, &"Track".to_string()).name, "ORDER_FOR_3_Track");
    assert_eq!(
        make_order_by_count_table_alias(10, &"Track".to_string()).name,
        "ORDER_COUNT_FOR_10_Track"
    );
}
