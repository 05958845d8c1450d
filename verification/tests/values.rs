use rconfig::paths::{feature_of_variable, find_root_path};
use rconfig::text::{joined, replace_char, split, text_eq};
use rconfig::{to_variant_name, Value, ValueType};

fn object(fields: Vec<(&str, Value)>) -> Value {
    Value::Object(fields.into_iter().map(|(k, v)| (k.to_string(), v)).collect())
}

#[test]
fn scalars_are_written_as_json() {
    assert_eq!(Value::Null.to_text(), "null");
    assert_eq!(Value::Bool(true).to_text(), "true");
    assert_eq!(Value::Bool(false).to_text(), "false");
    assert_eq!(Value::Number(0).to_text(), "0");
    assert_eq!(Value::Number(30000).to_text(), "30000");
    assert_eq!(Value::Number(-12).to_text(), "-12");
    assert_eq!(Value::Number(i64::MIN).to_text(), "-9223372036854775808");
    assert_eq!(Value::String("octal".to_string()).to_text(), "\"octal\"");
    assert_eq!(Value::String("a\"b\\c\n".to_string()).to_text(), "\"a\\\"b\\\\c\\n\"");
}

#[test]
fn arrays_and_objects_are_written_compactly() {
    assert_eq!(Value::Array(vec![]).to_text(), "[]");
    assert_eq!(
        Value::Array(vec![Value::Number(1), Value::Bool(false), Value::Null]).to_text(),
        "[1,false,null]"
    );
    assert_eq!(Value::Object(vec![]).to_text(), "{}");
    assert_eq!(
        object(vec![("a", Value::Number(1)), ("b", Value::Array(vec![Value::String("x".to_string())]))])
            .to_text(),
        "{\"a\":1,\"b\":[\"x\"]}"
    );
}

#[test]
fn truthiness_follows_the_shape() {
    assert!(Value::Bool(true).is_truthy());
    assert!(!Value::Bool(false).is_truthy());
    assert!(Value::Number(7).is_truthy());
    assert!(Value::Number(-1).is_truthy());
    assert!(!Value::Number(0).is_truthy());
    assert!(Value::String("x".to_string()).is_truthy());
    assert!(!Value::String(String::new()).is_truthy());
    assert!(!Value::Null.is_truthy());
    assert!(!Value::Array(vec![Value::Bool(true)]).is_truthy());
    assert!(!object(vec![("a", Value::Bool(true))]).is_truthy());
}

#[test]
fn a_copy_of_a_value_is_equal_to_it() {
    let v = object(vec![
        ("a", Value::Array(vec![Value::Number(1), Value::String("s".to_string())])),
        ("b", object(vec![("c", Value::Null)])),
    ]);
    assert_eq!(v.duplicate(), v);
    assert_eq!(v.clone(), v);
}

#[test]
fn value_types_are_named_in_lower_case() {
    assert_eq!(ValueType::Bool.to_string(), "bool");
    assert_eq!(ValueType::U32.to_string(), "u32");
    assert_eq!(ValueType::Enum.to_string(), "enum");
    assert_eq!(ValueType::String.to_string(), "string");
}

#[test]
fn texts_are_split_at_every_separator() {
    assert_eq!(split("psram.type.type", '.'), vec!["psram", "type", "type"]);
    assert_eq!(split("heap", '.'), vec!["heap"]);
    assert_eq!(split("", '.'), vec![""]);
    assert_eq!(split("a..b.", '.'), vec!["a", "", "b", ""]);
    assert_eq!(split(".a", '.'), vec!["", "a"]);
}

#[test]
fn characters_are_replaced_everywhere() {
    assert_eq!(replace_char("psram.type.type", '.', "_"), "psram_type_type");
    assert_eq!(replace_char("\"4\"", '"', ""), "4");
    assert_eq!(replace_char("", '.', "_"), "");
    assert_eq!(replace_char("a_b", '_', "--"), "a--b");
    assert_eq!(joined("psram.", "enable"), "psram.enable");
    assert!(text_eq("esp32", "esp32"));
    assert!(!text_eq("esp32", "esp32s3"));
}

#[test]
fn variant_names_are_in_pascal_case() {
    assert_eq!(to_variant_name("quad"), "Quad");
    assert_eq!(to_variant_name("my value"), "MyValue");
    assert_eq!(to_variant_name("psram_size"), "PsramSize");
    assert_eq!(to_variant_name("octal"), "Octal");
}

#[test]
fn variant_names_that_start_with_a_number_are_marked() {
    assert_eq!(to_variant_name("1"), "Variant1");
    assert_eq!(to_variant_name("4"), "Variant4");
    assert_eq!(to_variant_name("2mb"), "Variant2Mb");
}

fn parts(list: &[&str]) -> Vec<String> {
    list.iter().map(|s| s.to_string()).collect()
}

#[test]
fn the_root_lies_above_the_last_target_directory() {
    assert_eq!(
        find_root_path(&parts(&["/", "home", "me", "proj", "target", "debug", "build", "x", "out"])),
        Some(parts(&["/", "home", "me", "proj"]))
    );
    assert_eq!(
        find_root_path(&parts(&["a", "target", "b", "target", "c"])),
        Some(parts(&["a", "target", "b"]))
    );
    assert_eq!(find_root_path(&parts(&["target"])), Some(parts(&[])));
    assert_eq!(find_root_path(&parts(&["a", "target"])), Some(parts(&["a"])));
}

#[test]
fn without_a_target_directory_there_is_no_root() {
    assert_eq!(find_root_path(&parts(&["/", "home", "me"])), None);
    assert_eq!(find_root_path(&parts(&[])), None);
    assert_eq!(find_root_path(&parts(&["targets", "Target"])), None);
}

#[test]
fn feature_variables_name_features() {
    assert_eq!(feature_of_variable("CARGO_FEATURE_ESP32S3"), Some("esp32s3".to_string()));
    assert_eq!(feature_of_variable("CARGO_FEATURE_FLIP_LINK"), Some("flip-link".to_string()));
    assert_eq!(feature_of_variable("CARGO_FEATURE_"), Some(String::new()));
    assert_eq!(feature_of_variable("CARGO_PKG_NAME"), None);
    assert_eq!(feature_of_variable("CARGO"), None);
    assert_eq!(feature_of_variable("cargo_feature_x"), None);
}
