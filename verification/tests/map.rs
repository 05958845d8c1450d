use rconfig::{ConfigOption, OptionMap, Value, ValueType};

fn option(description: &str) -> ConfigOption {
    ConfigOption {
        description: description.to_string(),
        value_type: Some(ValueType::Bool),
        depends: None,
        valid: None,
        values: None,
        default_value: None,
        options: None,
        __value: None,
    }
}

fn keys(map: &OptionMap) -> Vec<String> {
    map.entries().into_iter().map(|(k, _)| k.clone()).collect()
}

fn descriptions(map: &OptionMap) -> Vec<String> {
    map.entries().into_iter().map(|(_, o)| o.description.clone()).collect()
}

#[test]
fn a_new_map_is_empty() {
    let map = OptionMap::new();
    assert_eq!(map.len(), 0);
    assert_eq!(map.entries().len(), 0);
    assert!(map.get("a").is_none());
}

#[test]
fn entries_come_in_insertion_order() {
    let mut map = OptionMap::new();
    map.insert("b".to_string(), option("first"));
    map.insert("a".to_string(), option("second"));
    map.insert("c".to_string(), option("third"));
    assert_eq!(map.len(), 3);
    assert_eq!(keys(&map), vec!["b", "a", "c"]);
    assert_eq!(descriptions(&map), vec!["first", "second", "third"]);
    assert_eq!(map.get("a").unwrap().description, "second");
    assert!(map.get("d").is_none());
}

#[test]
fn inserting_a_present_key_replaces_and_moves_to_the_end() {
    let mut map = OptionMap::new();
    map.insert("b".to_string(), option("first"));
    map.insert("a".to_string(), option("second"));
    map.insert("b".to_string(), option("third"));
    assert_eq!(map.len(), 2);
    assert_eq!(keys(&map), vec!["a", "b"]);
    assert_eq!(descriptions(&map), vec!["second", "third"]);
}

#[test]
fn writing_through_a_borrow_changes_the_entry_in_place() {
    let mut map = OptionMap::new();
    map.insert("b".to_string(), option("first"));
    map.insert("a".to_string(), option("second"));
    map.get_mut("b").unwrap().__value = Some(Value::Bool(true));
    assert!(map.get_mut("zz").is_none());
    assert_eq!(keys(&map), vec!["b", "a"]);
    assert_eq!(map.get("b").unwrap().__value, Some(Value::Bool(true)));
    assert_eq!(map.get("a").unwrap().__value, None);
}

#[test]
fn a_copy_of_a_map_holds_the_same_entries() {
    let mut inner = OptionMap::new();
    inner.insert("x".to_string(), option("deep"));
    let mut menu = option("menu");
    menu.value_type = None;
    menu.options = Some(inner);
    let mut map = OptionMap::new();
    map.insert("m".to_string(), menu);
    map.insert("a".to_string(), option("second"));
    let copy = map.duplicate();
    map.get_mut("a").unwrap().description = "changed".to_string();
    assert_eq!(keys(&copy), vec!["m", "a"]);
    assert_eq!(descriptions(&copy), vec!["menu", "second"]);
    assert_eq!(keys(copy.get("m").unwrap().options.as_ref().unwrap()), vec!["x"]);
    assert_eq!(keys(&map.clone()), vec!["m", "a"]);
    let one = copy.get("a").unwrap().duplicate();
    assert_eq!(one.description, "second");
    let bare = copy.get("m").unwrap().with_options(None);
    assert!(bare.options.is_none());
    assert_eq!(bare.description, "menu");
}
