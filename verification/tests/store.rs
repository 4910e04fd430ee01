use phonebook::record::Record;
use phonebook::store::Store;

fn add(store: &mut Store, name: &str, phone: &str) -> u64 {
    store.insert(name, phone)
}

#[test]
fn insert_then_list_includes_once_with_fresh_id() {
    let mut store = Store::new();
    add(&mut store, "Ann", "555-1111");
    add(&mut store, "Bob", "555-2222");
    let rows = store.show(None);
    assert_eq!(rows.len(), 2);
    assert_eq!(rows[0].id, Some(1));
    assert_eq!(rows[0].name, "Ann");
    assert_eq!(rows[1].id, Some(2));
    // the new id is distinct from every earlier one
    let count = rows.iter().filter(|r| r.id == Some(2)).count();
    assert_eq!(count, 1);
}

#[test]
fn insert_reports_one_affected_row() {
    let mut store = Store::new();
    let n = add(&mut store, "Ann", "555-1111");
    assert_eq!(n, 1);
}

#[test]
fn list_filters_by_substring_in_ascending_id_order() {
    let mut store = Store::new();
    add(&mut store, "Diana", "1");
    add(&mut store, "Bob", "2");
    add(&mut store, "Susana", "3");
    add(&mut store, "Anatole", "4");
    let rows = store.show(Some("ana"));
    assert_eq!(rows.len(), 2);
    assert_eq!(rows[0].name, "Diana");
    assert_eq!(rows[0].id, Some(1));
    assert_eq!(rows[1].name, "Susana");
    assert_eq!(rows[1].id, Some(3));
    // case-sensitive: "Ana" does not contain "ana"
    let rows = store.show(Some("Ana"));
    assert_eq!(rows.len(), 1);
    assert_eq!(rows[0].name, "Anatole");
}

#[test]
fn update_then_fetch_reflects_new_values_same_id() {
    let mut store = Store::new();
    add(&mut store, "Ann", "555-1111");
    add(&mut store, "Bob", "555-2222");
    store.update(1, "Anne", "555-9999");
    let rec = store.read_one(1).unwrap();
    assert_eq!(rec.id, Some(1));
    assert_eq!(rec.name, "Anne");
    assert_eq!(rec.phone, "555-9999");
    // the other row is untouched
    let rec = store.read_one(2).unwrap();
    assert_eq!(rec.name, "Bob");
}

#[test]
fn update_missing_id_changes_nothing() {
    let mut store = Store::new();
    add(&mut store, "Ann", "555-1111");
    store.update(7, "Ghost", "000");
    let rows = store.show(None);
    assert_eq!(rows.len(), 1);
    assert_eq!(rows[0].name, "Ann");
}

#[test]
fn delete_then_fetch_reports_not_found() {
    let mut store = Store::new();
    add(&mut store, "Ann", "555-1111");
    add(&mut store, "Bob", "555-2222");
    store.remove(&[1]);
    assert!(store.read_one(1).is_err());
    assert!(store.read_one(2).is_ok());
}

#[test]
fn delete_missing_id_is_a_silent_no_op() {
    let mut store = Store::new();
    add(&mut store, "Ann", "555-1111");
    store.remove(&[42]);
    let rows = store.show(None);
    assert_eq!(rows.len(), 1);
}

#[test]
fn delete_several_ids_at_once() {
    let mut store = Store::new();
    add(&mut store, "Ann", "1");
    add(&mut store, "Bob", "2");
    add(&mut store, "Cid", "3");
    store.remove(&[1, 3, 9]);
    let rows = store.show(None);
    assert_eq!(rows.len(), 1);
    assert_eq!(rows[0].name, "Bob");
    assert_eq!(rows[0].id, Some(2));
}

#[test]
fn deleted_id_is_not_reused() {
    let mut store = Store::new();
    add(&mut store, "Ann", "1");
    store.remove(&[1]);
    add(&mut store, "Bob", "2");
    let rows = store.show(None);
    assert_eq!(rows.len(), 1);
    assert_eq!(rows[0].id, Some(2));
}

#[test]
fn read_returns_all_rows() {
    let mut store = Store::new();
    add(&mut store, "Ann", "1");
    let rows = store.read(None).unwrap();
    assert_eq!(rows.len(), 1);
}

#[test]
fn read_one_missing_is_err() {
    let store = Store::new();
    assert!(store.read_one(1).is_err());
}

#[test]
fn single_row_accepts_exactly_one() {
    let one = vec![Record { id: Some(1), name: "A".to_string(), phone: "1".to_string() }];
    assert!(phonebook::store::single_row(one).is_ok());
    assert!(phonebook::store::single_row(Vec::new()).is_err());
    let two = vec![
        Record { id: Some(1), name: "A".to_string(), phone: "1".to_string() },
        Record { id: Some(2), name: "B".to_string(), phone: "2".to_string() },
    ];
    assert!(phonebook::store::single_row(two).is_err());
}

#[test]
fn duplicate_copies_all_fields() {
    let r = Record { id: Some(3), name: "Ann".to_string(), phone: "555".to_string() };
    let c = r.duplicate();
    assert_eq!(c.id, Some(3));
    assert_eq!(c.name, "Ann");
    assert_eq!(c.phone, "555");
}
