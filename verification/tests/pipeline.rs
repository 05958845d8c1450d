use rconfig::{
    current_config_values, evaluate_config_str, ConfigOption, OptionMap, Value, ValueItem,
    ValueType,
};

fn node(description: &str) -> ConfigOption {
    ConfigOption {
        description: description.to_string(),
        value_type: None,
        depends: None,
        valid: None,
        values: None,
        default_value: None,
        options: None,
        __value: None,
    }
}

fn item(description: &str, value: &str) -> ValueItem {
    ValueItem { description: description.to_string(), value: value.to_string() }
}

fn text(s: &str) -> Value {
    Value::String(s.to_string())
}

/// The definition that the scenarios share. `values` gives the overrides
/// that the definition itself carries: enable, size, type, heap size.
fn definition(values: Option<(Value, Value, Value, Value)>) -> OptionMap {
    let (enable_value, size_value, kind_value, heap_value) = match values {
        Some((a, b, c, d)) => (Some(a), Some(b), Some(c), Some(d)),
        None => (None, None, None, None),
    };

    let mut enable = node("Enable PSRAM");
    enable.value_type = Some(ValueType::Bool);
    enable.default_value = Some(Value::Bool(false));
    enable.__value = enable_value;

    let mut size = node("PSRAM Size");
    size.depends = Some("enabled(\"psram.enable\")".to_string());
    size.value_type = Some(ValueType::Enum);
    size.values = Some(vec![item("1MB", "1"), item("2MB", "2"), item("4MB", "4")]);
    size.default_value = Some(text("2"));
    size.__value = size_value;

    let mut kind = node("PSRAM Type");
    kind.depends = Some("feature(\"esp32s3\")".to_string());
    kind.value_type = Some(ValueType::Enum);
    kind.values = Some(vec![item("Quad", "quad"), item("Octal", "octal")]);
    kind.default_value = Some(text("quad"));
    kind.__value = kind_value;

    let mut kind_options = OptionMap::new();
    kind_options.insert("type".to_string(), kind);
    let mut kind_menu = node("PSRAM Type");
    kind_menu.depends = Some("feature(\"esp32s3\") && enabled(\"psram.enable\")".to_string());
    kind_menu.options = Some(kind_options);

    let mut psram_options = OptionMap::new();
    psram_options.insert("enable".to_string(), enable);
    psram_options.insert("size".to_string(), size);
    psram_options.insert("type".to_string(), kind_menu);
    let mut psram = node("PSRAM");
    psram.depends = Some(
        "feature(\"esp32\") || feature(\"esp32s2\") || feature(\"esp32s3\")".to_string(),
    );
    psram.options = Some(psram_options);

    let mut heap_size = node("Bytes to allocate");
    heap_size.value_type = Some(ValueType::U32);
    heap_size.valid = Some("value >= 0 && value <= 80000".to_string());
    heap_size.__value = heap_value;
    let mut heap_options = OptionMap::new();
    heap_options.insert("size".to_string(), heap_size);
    let mut heap = node("Heapsize");
    heap.options = Some(heap_options);

    let mut root = OptionMap::new();
    root.insert("psram".to_string(), psram);
    root.insert("heap".to_string(), heap);
    root
}

fn object(fields: Vec<(&str, Value)>) -> Value {
    Value::Object(fields.into_iter().map(|(k, v)| (k.to_string(), v)).collect())
}

fn row(path: &str, value: &str, value_type: ValueType) -> (String, String, ValueType) {
    (path.to_string(), value.to_string(), value_type)
}

#[test]
fn parse_config1() {
    let cfg = object(vec![(
        "mycrate",
        object(vec![("heap", object(vec![("size", Value::Number(30000))]))]),
    )]);

    let parsed_definition = definition(None);
    let effective_config =
        evaluate_config_str(&cfg, "mycrate", parsed_definition, vec!["esp32c6", "flip-link"])
            .unwrap();

    println!("{:#?}", effective_config);

    assert_eq!(vec![row("heap.size", "30000", ValueType::U32)], effective_config);
}

#[test]
fn parse_config2() {
    let cfg = object(vec![(
        "mycrate",
        object(vec![
            ("heap", object(vec![("size", Value::Number(30000))])),
            (
                "psram",
                object(vec![
                    ("enable", Value::Bool(true)),
                    ("size", Value::Number(4)),
                    ("type", object(vec![("type", Value::Number(2))])),
                ]),
            ),
        ]),
    )]);

    let parsed_definition = definition(None);
    let effective_config =
        evaluate_config_str(&cfg, "mycrate", parsed_definition, vec!["esp32s3"]).unwrap();

    println!("{:#?}", effective_config);

    assert_eq!(
        vec![
            row("psram.enable", "true", ValueType::Bool),
            row("psram.size", "4", ValueType::Enum),
            row("psram.type.type", "2", ValueType::Enum),
            row("heap.size", "30000", ValueType::U32),
        ],
        effective_config
    );
}

#[test]
fn parse_config2_2() {
    let cfg = object(vec![(
        "mycrate",
        object(vec![("heap", object(vec![("size", Value::Number(30000))]))]),
    )]);

    let parsed_definition = definition(None);
    let effective_config =
        evaluate_config_str(&cfg, "mycrate", parsed_definition, vec!["esp32s3"]).unwrap();

    println!("{:#?}", effective_config);

    assert_eq!(
        vec![
            row("psram.enable", "false", ValueType::Bool),
            row("heap.size", "30000", ValueType::U32),
        ],
        effective_config
    );
}

#[test]
fn parse_config3() {
    let cfg = object(vec![(
        "mycrate",
        object(vec![
            ("heap", object(vec![("size", Value::Number(30000))])),
            (
                "psram",
                object(vec![("enable", Value::Bool(true)), ("size", Value::Number(4))]),
            ),
        ]),
    )]);

    let parsed_definition = definition(None);
    let effective_config =
        evaluate_config_str(&cfg, "mycrate", parsed_definition, vec!["esp32"]).unwrap();

    println!("{:#?}", effective_config);

    assert_eq!(
        vec![
            row("psram.enable", "true", ValueType::Bool),
            row("psram.size", "4", ValueType::Enum),
            row("heap.size", "30000", ValueType::U32),
        ],
        effective_config
    );
}

#[test]
fn current_config_result() {
    let parsed_definition = definition(Some((
        Value::Bool(true),
        text("4"),
        text("octal"),
        Value::Number(4949),
    )));
    let effective_config = current_config_values(parsed_definition, vec!["esp32s3"]).unwrap();

    println!("{:#?}", effective_config);

    assert_eq!(
        vec![
            ("psram.enable".to_string(), "true".to_string()),
            ("psram.size".to_string(), "\"4\"".to_string()),
            ("psram.type.type".to_string(), "\"octal\"".to_string()),
            ("heap.size".to_string(), "4949".to_string()),
        ],
        effective_config
    );
}
