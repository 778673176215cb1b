use savon::ordered::{Key, Order, OrderedMap};
use savon::wsdl::{Message, QualifiedTypename};

fn message(element: &str) -> Message {
    Message { part_name: "parameters".to_string(), part_element: element.to_string() }
}

#[test]
fn a_new_map_is_empty() {
    let map: OrderedMap<String, Message> = OrderedMap::new();
    assert_eq!(map.len(), 0);
    assert!(map.get(&"a".to_string()).is_none());
}

#[test]
fn entries_stand_in_key_order() {
    let mut map: OrderedMap<String, Message> = OrderedMap::new();
    map.insert("pear".to_string(), message("P"));
    map.insert("apple".to_string(), message("A"));
    map.insert("quince".to_string(), message("Q"));
    map.insert("Banana".to_string(), message("B"));
    assert_eq!(map.len(), 4);
    let keys: Vec<&str> = (0..map.len()).map(|i| map.key_at(i).as_str()).collect();
    assert_eq!(keys, vec!["Banana", "apple", "pear", "quince"]);
    assert_eq!(map.value_at(1).part_element, "A");
}

#[test]
fn the_last_value_of_a_key_stands() {
    let mut map: OrderedMap<String, Message> = OrderedMap::new();
    map.insert("k".to_string(), message("first"));
    map.insert("j".to_string(), message("other"));
    map.insert("k".to_string(), message("second"));
    assert_eq!(map.len(), 2);
    assert_eq!(map.get(&"k".to_string()).unwrap().part_element, "second");
    assert_eq!(map.get(&"j".to_string()).unwrap().part_element, "other");
    assert!(map.get(&"i".to_string()).is_none());
}

#[test]
fn a_prefix_comes_before_the_longer_string() {
    assert_eq!("ab".to_string().compare(&"abc".to_string()), Order::Less);
    assert_eq!("abc".to_string().compare(&"ab".to_string()), Order::Greater);
    assert_eq!("abc".to_string().compare(&"abc".to_string()), Order::Equal);
    assert_eq!("abd".to_string().compare(&"abc".to_string()), Order::Greater);
    assert_eq!("".to_string().compare(&"a".to_string()), Order::Less);
}

#[test]
fn strings_compare_as_std_compares_them() {
    let samples = ["", "a", "A", "ab", "b", "é", "z", "zz", "€", "\u{10000}"];
    for a in samples {
        for b in samples {
            let expected = match a.cmp(b) {
                std::cmp::Ordering::Less => Order::Less,
                std::cmp::Ordering::Equal => Order::Equal,
                std::cmp::Ordering::Greater => Order::Greater,
            };
            assert_eq!(a.to_string().compare(&b.to_string()), expected);
        }
    }
}

#[test]
fn qualified_names_are_ordered_by_namespace_first() {
    let q = |ns: &str, name: &str| QualifiedTypename::new(ns.to_string(), name.to_string());
    assert_eq!(q("a", "z").compare(&q("b", "a")), Order::Less);
    assert_eq!(q("b", "a").compare(&q("a", "z")), Order::Greater);
    assert_eq!(q("a", "x").compare(&q("a", "y")), Order::Less);
    assert_eq!(q("a", "x").compare(&q("a", "x")), Order::Equal);
    assert_eq!(q("a", "bc").compare(&q("ab", "c")), Order::Less);
}
