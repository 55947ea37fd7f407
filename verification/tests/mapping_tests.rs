use check_config::mapping::{Array, Mapping};
use check_config::node::{Format, Node};

fn s(x: &str) -> String {
    x.to_string()
}

fn test_table_entries() -> Vec<(String, Node)> {
    vec![
        (s("str"), Node::Str(s("string"))),
        (s("int"), Node::Int(1)),
        (s("float"), Node::Float(1.1f64.to_bits())),
        (s("bool"), Node::Bool(true)),
        (s("array"), Node::Array(vec![Node::Int(1)])),
    ]
}

fn get_test_table() -> Vec<(String, Node)> {
    let mut table = test_table_entries();
    table.push((s("dict"), Node::Table(test_table_entries(), true)));
    table
}

fn test_mapping(mut mapping_to_check: Mapping) {
    assert!(mapping_to_check
        .get_array("array", false)
        .expect("")
        .contains_item(&Node::Int(1)));

    assert_eq!(mapping_to_check.get_string("str").expect(""), "string".to_string());
    assert!(mapping_to_check.get_string("int").is_err());
    assert!(mapping_to_check.get_string("absent").is_err());
    assert!(mapping_to_check.get_array("absent", false).is_err());
    assert_eq!(
        mapping_to_check
            .get_mapping("dict", false)
            .expect("")
            .get_string("str")
            .unwrap(),
        "string".to_string()
    );

    assert!(mapping_to_check
        .get_mapping("dict", false)
        .expect("")
        .get_array("array", false)
        .unwrap()
        .contains_item(&Node::Int(1)));

    let mut new_dict = mapping_to_check.get_mapping("new_dict", true).unwrap();
    new_dict.insert("key", &Node::Str(s("new_dict_value")));
    mapping_to_check.set_mapping("new_dict", new_dict);

    assert_eq!(
        mapping_to_check
            .get_mapping("new_dict", false)
            .expect("")
            .get_string("key")
            .unwrap(),
        "new_dict_value".to_string()
    );

    let mut dict = mapping_to_check.get_mapping("dict", false).unwrap();
    let mut nested = dict.get_mapping("new_nested_dict", true).unwrap();
    nested.insert("key", &Node::Str(s("new_nested_dict_value")));
    dict.set_mapping("new_nested_dict", nested);
    mapping_to_check.set_mapping("dict", dict);

    assert_eq!(
        mapping_to_check
            .get_mapping("dict", false)
            .unwrap()
            .get_mapping("new_nested_dict", false)
            .unwrap()
            .get_string("key")
            .unwrap(),
        "new_nested_dict_value".to_string()
    );

    let mut new_array = mapping_to_check.get_array("new_array", true).unwrap();
    new_array.insert_when_not_present(&Node::Str(s("new_array_value")));
    mapping_to_check.set_array("new_array", new_array);

    assert!(mapping_to_check
        .get_array("new_array", false)
        .unwrap()
        .contains_item(&Node::Str(s("new_array_value"))));

    let mut dict = mapping_to_check.get_mapping("dict", false).unwrap();
    let mut nested_array = dict.get_array("new_nested_array", true).unwrap();
    nested_array.insert_when_not_present(&Node::Str(s("new_nested_array_value")));
    dict.set_array("new_nested_array", nested_array);
    mapping_to_check.set_mapping("dict", dict);

    assert!(mapping_to_check
        .get_mapping("dict", false)
        .unwrap()
        .get_array("new_nested_array", false)
        .unwrap()
        .contains_item(&Node::Str(s("new_nested_array_value"))));
}

#[test]
fn toml_test_access_map() {
    let table = get_test_table();
    test_mapping(Mapping { format: Format::Toml, entries: table, inline: false });
}

fn converted(fmt: Format) -> Vec<(String, Node)> {
    let table = Node::Table(get_test_table(), false);
    match check_config::node::convert_node(fmt, &table) {
        Node::Table(entries, _) => entries,
        _ => panic!("a table converts to a table"),
    }
}

#[test]
fn json_test_access_map() {
    test_mapping(Mapping { format: Format::Json, entries: converted(Format::Json), inline: false });
}

#[test]
fn yaml_test_access_map() {
    test_mapping(Mapping { format: Format::Yaml, entries: converted(Format::Yaml), inline: false });
}

#[test]
fn toml_inline_table_refuses_a_table() {
    let mut m = Mapping {
        format: Format::Toml,
        entries: vec![(s("t"), Node::Table(vec![], false))],
        inline: true,
    };
    assert_eq!(
        m.get_mapping("t", false).err(),
        Some(check_config::mapping::MappingError::WrongType(s("t is not a mapping")))
    );
}

#[test]
fn wrong_types_are_reported() {
    let mut m = Mapping { format: Format::Toml, entries: get_test_table(), inline: false };
    assert_eq!(
        m.get_array("str", false).err(),
        Some(check_config::mapping::MappingError::WrongType(s("`str` is not an array")))
    );
    let mut j = Mapping { format: Format::Json, entries: get_test_table(), inline: false };
    assert_eq!(
        j.get_array("str", false).err(),
        Some(check_config::mapping::MappingError::WrongType(s("str is not an array")))
    );
    assert_eq!(
        m.get_string("int").err(),
        Some(check_config::mapping::MappingError::WrongType(s("int is not a string")))
    );
    assert_eq!(
        m.get_mapping("missing", false).err(),
        Some(check_config::mapping::MappingError::MissingKey(s("missing")))
    );
}

#[test]
fn yaml_remove_moves_the_last_key() {
    let mut m = Mapping {
        format: Format::Yaml,
        entries: vec![(s("a"), Node::Int(1)), (s("b"), Node::Int(2)), (s("c"), Node::Int(3))],
        inline: false,
    };
    m.remove("a");
    let keys: Vec<String> = m.entries.iter().map(|e| e.0.clone()).collect();
    assert_eq!(keys, vec![s("c"), s("b")]);
    let mut t = Mapping {
        format: Format::Toml,
        entries: vec![(s("a"), Node::Int(1)), (s("b"), Node::Int(2)), (s("c"), Node::Int(3))],
        inline: false,
    };
    t.remove("a");
    let keys: Vec<String> = t.entries.iter().map(|e| e.0.clone()).collect();
    assert_eq!(keys, vec![s("b"), s("c")]);
}

#[test]
fn array_remove_takes_the_first_equal_item() {
    let mut a = Array { format: Format::Json, items: vec![Node::Int(1), Node::Int(2), Node::Int(1)] };
    a.remove(&Node::Int(1));
    assert_eq!(a.items.len(), 2);
    assert!(a.contains_item(&Node::Int(1)));
    assert!(!a.contains_item(&Node::Int(3)));
}

#[test]
fn array_insert_then_contains() {
    let mut a = Array { format: Format::Toml, items: vec![Node::Int(1)] };
    a.insert_when_not_present(&Node::Int(2));
    assert!(a.contains_item(&Node::Int(2)));
    assert_eq!(a.items.len(), 2);
    a.insert_when_not_present(&Node::Int(2));
    assert_eq!(a.items.len(), 2);
    let mut j = Array { format: Format::Json, items: vec![] };
    j.insert_when_not_present(&Node::Datetime(s("2024-01-01")));
    assert!(j.contains_item(&Node::Datetime(s("2024-01-01"))));
    assert!(matches!(&j.items[0], Node::Str(x) if x == "2024-01-01"));
}
