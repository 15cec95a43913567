use item_store::db::{create_item, list_items, Db, DbExt};
use item_store::item::Item;
use item_store::store::Store;

fn item(id: &str, value: i64) -> Item {
    Item::new(id.to_string(), value)
}

fn sorted(mut v: Vec<Item>) -> Vec<(String, i64)> {
    let mut out: Vec<(String, i64)> = v.drain(..).map(|i| (i.id, i.value)).collect();
    out.sort();
    out
}

#[test]
fn new_store_lists_nothing() {
    let s = Store::new();
    assert!(s.list().is_empty());
    let db = <Db as DbExt>::new();
    assert!(list_items(&db).is_empty());
}

#[test]
fn one_put_lists_one_record() {
    let db = <Db as DbExt>::new();
    create_item(&db, item("a", 1));
    assert_eq!(sorted(list_items(&db)), vec![("a".to_string(), 1)]);
}

#[test]
fn second_put_replaces_first() {
    let db = <Db as DbExt>::new();
    create_item(&db, item("a", 1));
    create_item(&db, item("a", 2));
    assert_eq!(sorted(list_items(&db)), vec![("a".to_string(), 2)]);
}

#[test]
fn two_ids_list_both() {
    let db = <Db as DbExt>::new();
    create_item(&db, item("a", 1));
    create_item(&db, item("b", 2));
    assert_eq!(
        sorted(list_items(&db)),
        vec![("a".to_string(), 1), ("b".to_string(), 2)]
    );
}

#[test]
fn replacement_keeps_other_keys() {
    let mut s = Store::new();
    s.put(item("x", 10));
    s.put(item("y", 20));
    s.put(item("x", 11));
    assert_eq!(
        sorted(s.list()),
        vec![("x".to_string(), 11), ("y".to_string(), 20)]
    );
}

#[test]
fn one_record_per_distinct_id() {
    let mut s = Store::new();
    let ids = ["p", "q", "p", "r", "q", "p", "s"];
    for (n, id) in ids.iter().enumerate() {
        s.put(item(id, n as i64));
    }
    assert_eq!(
        sorted(s.list()),
        vec![
            ("p".to_string(), 5),
            ("q".to_string(), 4),
            ("r".to_string(), 3),
            ("s".to_string(), 6)
        ]
    );
}

#[test]
fn mutating_a_listing_leaves_the_store() {
    let db = <Db as DbExt>::new();
    create_item(&db, item("a", 1));
    let mut first = list_items(&db);
    first[0].value = 99;
    first[0].id.push('z');
    first.push(item("c", 3));
    assert_eq!(sorted(list_items(&db)), vec![("a".to_string(), 1)]);
}

#[test]
fn empty_id_is_an_ordinary_key() {
    let mut s = Store::new();
    s.put(item("", 1));
    s.put(item("a", 2));
    s.put(item("", 3));
    assert_eq!(
        sorted(s.list()),
        vec![("".to_string(), 3), ("a".to_string(), 2)]
    );
}

#[test]
fn clone_copies_every_field() {
    let a = item("k", -7);
    let b = a.clone();
    assert_eq!(b.id, "k");
    assert_eq!(b.value, -7);
}

#[test]
fn many_records_all_listed() {
    let mut s = Store::new();
    for n in 0..500i64 {
        s.put(item(&format!("id{}", n), n));
    }
    for n in 0..500i64 {
        s.put(item(&format!("id{}", n), n + 1000));
    }
    let listed = sorted(s.list());
    assert_eq!(listed.len(), 500);
    assert!(listed.iter().all(|(_, v)| *v >= 1000));
}

#[test]
fn equality_is_field_wise() {
    assert_eq!(item("a", 1), item("a", 1));
    assert_ne!(item("a", 1), item("a", 2));
    assert_ne!(item("a", 1), item("b", 1));
}

#[test]
fn listing_holds_the_stored_record_itself() {
    let mut s = Store::new();
    s.put(item("a", 1));
    assert_eq!(s.list(), vec![item("a", 1)]);
}
