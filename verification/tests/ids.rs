use ez_chat::ids::{common_ids, contains_id, insert_id, minus_ids, remove_id};
use ez_chat::table::{find_key, put, remove_key};

fn ids(names: &[&str]) -> Vec<String> {
    names.iter().map(|n| n.to_string()).collect()
}

#[test]
fn a_list_of_ids_holds_each_once() {
    let mut list = ids(&["a", "b"]);
    assert!(!insert_id(&mut list, &"a".to_string()));
    assert!(insert_id(&mut list, &"c".to_string()));
    assert_eq!(list, ids(&["a", "b", "c"]));
    assert!(contains_id(&list, &"b".to_string()));
    assert!(!contains_id(&list, &"z".to_string()));
    assert!(remove_id(&mut list, &"b".to_string()));
    assert!(!remove_id(&mut list, &"b".to_string()));
    assert_eq!(list, ids(&["a", "c"]));
}

#[test]
fn difference_and_intersection_keep_the_order() {
    let a = ids(&["a", "b", "c", "d"]);
    let b = ids(&["d", "b", "x"]);
    assert_eq!(minus_ids(&a, &b), ids(&["a", "c"]));
    assert_eq!(common_ids(&a, &b), ids(&["b", "d"]));
    assert_eq!(minus_ids(&a, &Vec::new()), a);
    assert!(common_ids(&a, &Vec::new()).is_empty());
}

#[test]
fn a_table_holds_one_entry_per_key() {
    let mut table: Vec<(String, usize)> = Vec::new();
    put(&mut table, "a".to_string(), 1);
    put(&mut table, "b".to_string(), 2);
    put(&mut table, "a".to_string(), 3);
    assert_eq!(table, vec![("a".to_string(), 3), ("b".to_string(), 2)]);
    assert_eq!(find_key(&table, &"b".to_string()), Some(1));
    assert_eq!(find_key(&table, &"z".to_string()), None);
    remove_key(&mut table, &"a".to_string());
    assert_eq!(table, vec![("b".to_string(), 2)]);
    remove_key(&mut table, &"a".to_string());
    assert_eq!(table, vec![("b".to_string(), 2)]);
}
