use radiant_rs::uniform::UniformList;

fn names(list: &UniformList<i32>) -> Vec<String> {
    (0..list.len()).map(|i| list.entry(i).0.to_string()).collect()
}

#[test]
fn insert_appends_new_names_in_order() {
    let mut list = UniformList::new();
    assert_eq!(list.len(), 0);
    list.insert("u_view", 1);
    list.insert("u_model", 2);
    list.insert("_rd_color", 3);
    assert_eq!(names(&list), vec!["u_view", "u_model", "_rd_color"]);
    assert_eq!(list.get("u_model"), Some(&2));
    assert_eq!(list.get("missing"), None);
}

#[test]
fn reinsert_replaces_value_in_place() {
    let mut list = UniformList::new();
    list.insert("a", 1);
    list.insert("b", 2);
    list.insert("c", 3);
    list.insert("b", 20);
    assert_eq!(list.len(), 3);
    assert_eq!(names(&list), vec!["a", "b", "c"]);
    assert_eq!(list.entry(1), ("b", &20));
    assert_eq!(list.get("b"), Some(&20));
}

#[test]
fn remove_reports_whether_the_name_existed() {
    let mut list = UniformList::new();
    list.insert("a", 1);
    list.insert("b", 2);
    list.insert("c", 3);
    assert!(list.remove("b"));
    assert!(!list.remove("b"));
    assert!(!list.remove("zzz"));
    assert_eq!(names(&list), vec!["a", "c"]);
    assert_eq!(list.get("b"), None);
    assert_eq!(list.get("c"), Some(&3));
    list.insert("b", 4);
    assert_eq!(names(&list), vec!["a", "c", "b"]);
}
