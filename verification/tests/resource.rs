use tauri_bindgen::resource::{ResourceError, ResourceTable};

#[test]
fn keys_are_handed_out_in_order() {
    let mut table: ResourceTable<String> = ResourceTable::new();
    assert_eq!(table.push("a".to_string()), Ok(0));
    assert_eq!(table.push("b".to_string()), Ok(1));
    assert_eq!(table.push("c".to_string()), Ok(2));
    assert!(table.contains_key(1));
    assert!(!table.contains_key(3));
    assert_eq!(table.get(1), Ok(&"b".to_string()));
    assert_eq!(table.get(9), Err(ResourceError::NotFound));
}

#[test]
fn a_taken_key_is_not_reused_at_once() {
    let mut table: ResourceTable<u8> = ResourceTable::new();
    assert_eq!(table.push(10), Ok(0));
    assert_eq!(table.push(11), Ok(1));
    assert_eq!(table.take(0), Some(10));
    assert_eq!(table.take(0), None);
    assert!(!table.contains_key(0));
    assert_eq!(table.push(12), Ok(2));
    assert_eq!(table.get(2), Ok(&12));
    assert_eq!(table.take(7), None);
}

#[test]
fn a_resource_is_changed_in_its_place() {
    let mut table: ResourceTable<String> = ResourceTable::new();
    assert_eq!(table.push("a".to_string()), Ok(0));
    assert_eq!(table.push("b".to_string()), Ok(1));
    match table.get_mut(1) {
        Ok(resource) => resource.push('!'),
        Err(_) => panic!("the key is in the table"),
    }
    assert_eq!(table.get(1), Ok(&"b!".to_string()));
    assert_eq!(table.get(0), Ok(&"a".to_string()));
    assert_eq!(table.get_mut(2).err(), Some(ResourceError::NotFound));
    assert_eq!(table.push("c".to_string()), Ok(2));
}

#[test]
fn the_default_table_is_empty() {
    let mut table: ResourceTable<u8> = ResourceTable::default();
    assert!(!table.contains_key(0));
    assert_eq!(table.push(1), Ok(0));
}
