use lu_mod_tool::allocate::find_available_ids;
use lu_mod_tool::error::ModError;
use lu_mod_tool::schema::Table;
use lu_mod_tool::value::Field;

fn keyed(keys: Vec<Field>) -> Table {
    Table { name: "T".to_string(), columns: vec![], primary_keys: keys, bucket_count: 1 }
}

fn integers(keys: &[i32]) -> Table {
    keyed(keys.iter().map(|k| Field::Integer(*k)).collect())
}

#[test]
fn lowest_free_keys_are_found() {
    assert_eq!(find_available_ids(&integers(&[]), 3), Ok(vec![1, 2, 3]));
    assert_eq!(find_available_ids(&integers(&[1, 2, 3]), 2), Ok(vec![4, 5]));
    assert_eq!(find_available_ids(&integers(&[5, 2, 3, 4]), 1), Ok(vec![1]));
    assert_eq!(find_available_ids(&integers(&[2, 4, 6]), 4), Ok(vec![1, 3, 5, 7]));
    assert_eq!(find_available_ids(&integers(&[1, 1, 3, -4, 0]), 2), Ok(vec![2, 4]));
    assert_eq!(find_available_ids(&integers(&[1, 2]), 0), Ok(vec![]));
}

#[test]
fn new_keys_never_collide() {
    let stock = [3, 1, 4, 1, 5, 9, 2, 6, 5, 3, 5];
    let ids = find_available_ids(&integers(&stock), 8).unwrap();
    assert_eq!(ids.len(), 8);
    for (i, id) in ids.iter().enumerate() {
        assert!(*id >= 1);
        assert!(!stock.contains(id));
        assert!(!ids[..i].contains(id));
    }
    assert_eq!(ids[0], 7);
}

#[test]
fn the_same_keys_give_the_same_identifiers() {
    let a = find_available_ids(&integers(&[2, 7, 1]), 5);
    let b = find_available_ids(&integers(&[2, 7, 1]), 5);
    assert_eq!(a, b);
    assert_eq!(a, Ok(vec![3, 4, 5, 6, 8]));
}

#[test]
fn a_key_that_is_no_integer_is_refused() {
    let table = keyed(vec![Field::Integer(1), Field::Text("a".to_string())]);
    assert_eq!(
        find_available_ids(&table, 1),
        Err(ModError::NonIntegerPrimaryKey("T".to_string()))
    );
    assert_eq!(
        find_available_ids(&table, 0),
        Err(ModError::NonIntegerPrimaryKey("T".to_string()))
    );
    assert_eq!(
        find_available_ids(&keyed(vec![Field::BigInt(1)]), 1),
        Err(ModError::NonIntegerPrimaryKey("T".to_string()))
    );
}
