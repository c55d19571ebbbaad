use deploy_rs::names::NamedList;

fn sample() -> NamedList<u32> {
    let mut list = NamedList::new();
    assert!(list.insert("b".to_string(), 2));
    assert!(list.insert("a".to_string(), 1));
    assert!(list.insert("c".to_string(), 3));
    list
}

#[test]
fn new_list_is_empty() {
    let list: NamedList<u32> = NamedList::new();
    assert_eq!(list.len(), 0);
    assert_eq!(list.find("a"), None);
    assert!(list.get("a").is_none());
}

#[test]
fn entries_keep_insertion_order() {
    let list = sample();
    assert_eq!(list.len(), 3);
    assert_eq!(list.name_at(0), "b");
    assert_eq!(list.name_at(1), "a");
    assert_eq!(list.name_at(2), "c");
    assert_eq!(*list.value_at(0), 2);
    assert_eq!(*list.value_at(1), 1);
    assert_eq!(*list.value_at(2), 3);
}

#[test]
fn find_gives_the_position() {
    let list = sample();
    assert_eq!(list.find("b"), Some(0));
    assert_eq!(list.find("a"), Some(1));
    assert_eq!(list.find("c"), Some(2));
    assert_eq!(list.find("d"), None);
    assert_eq!(list.find(""), None);
}

#[test]
fn get_gives_the_value() {
    let list = sample();
    assert_eq!(list.get("a"), Some(&1));
    assert_eq!(list.get("c"), Some(&3));
    assert_eq!(list.get("A"), None);
}

#[test]
fn inserting_a_known_name_replaces_in_place() {
    let mut list = sample();
    assert!(!list.insert("a".to_string(), 10));
    assert_eq!(list.len(), 3);
    assert_eq!(list.name_at(1), "a");
    assert_eq!(*list.value_at(1), 10);
    assert_eq!(list.get("b"), Some(&2));
    assert_eq!(list.get("c"), Some(&3));
}

#[test]
fn names_differ_by_every_character() {
    let mut list = NamedList::new();
    assert!(list.insert("node".to_string(), 1));
    assert!(list.insert("node ".to_string(), 2));
    assert!(list.insert("nodé".to_string(), 3));
    assert_eq!(list.len(), 3);
    assert_eq!(list.get("node"), Some(&1));
    assert_eq!(list.get("nodé"), Some(&3));
}
