use rconfig::emit::{constant_declaration, enum_declaration};
use rconfig::enums::extract_all_enum_definitions_recusive;
use rconfig::{
    cfg_flags, extract_all_enum_definitions, generate_config, ConfigOption, EnumDefinition,
    OptionMap, Value, ValueItem, ValueType,
};

fn option(value_type: Option<ValueType>) -> ConfigOption {
    ConfigOption {
        description: "d".to_string(),
        value_type,
        depends: None,
        valid: None,
        values: None,
        default_value: None,
        options: None,
        __value: None,
    }
}

fn choice(values: &[&str]) -> ConfigOption {
    let mut o = option(Some(ValueType::Enum));
    o.values = Some(
        values
            .iter()
            .map(|v| ValueItem { description: format!("{} label", v), value: v.to_string() })
            .collect(),
    );
    o
}

fn submenu(entries: Vec<(&str, ConfigOption)>) -> ConfigOption {
    let mut o = option(None);
    o.options = Some(level(entries));
    o
}

fn level(entries: Vec<(&str, ConfigOption)>) -> OptionMap {
    let mut map = OptionMap::new();
    for (key, o) in entries {
        map.insert(key.to_string(), o);
    }
    map
}

fn names(list: &[EnumDefinition]) -> Vec<(String, Vec<String>)> {
    list.iter().map(|e| (e.name.clone(), e.variant_names.clone())).collect()
}

fn definition(name: &str, variants: &[&str]) -> (String, Vec<String>) {
    (name.to_string(), variants.iter().map(|v| v.to_string()).collect())
}

fn row(path: &str, value: &str, t: ValueType) -> (String, String, ValueType) {
    (path.to_string(), value.to_string(), t)
}

#[test]
fn enums_are_found_at_every_depth_in_order() {
    let mut hidden = choice(&["x"]);
    hidden.depends = Some("feature(\"never\")".to_string());
    let tree = level(vec![
        (
            "psram",
            submenu(vec![
                ("enable", option(Some(ValueType::Bool))),
                ("size", choice(&["1", "2", "4"])),
                ("type", submenu(vec![("type", choice(&["quad", "octal"]))])),
            ]),
        ),
        ("heap", submenu(vec![("size", option(Some(ValueType::U32)))])),
        ("log_level", hidden),
    ]);
    assert_eq!(
        names(&extract_all_enum_definitions(&tree)),
        vec![
            definition("PsramSize", &["Variant1", "Variant2", "Variant4"]),
            definition("PsramTypeType", &["Quad", "Octal"]),
            definition("LogLevel", &["X"]),
        ]
    );
}

#[test]
fn a_tree_without_enums_gives_no_definitions() {
    let tree = level(vec![("heap", submenu(vec![("size", option(Some(ValueType::U32)))]))]);
    assert_eq!(extract_all_enum_definitions(&tree).len(), 0);
    assert_eq!(extract_all_enum_definitions(&OptionMap::new()).len(), 0);
}

#[test]
fn every_declared_value_gives_one_variant() {
    let tree = level(vec![("mode", choice(&["fast", "slow", "9600", "fast"]))]);
    let found = extract_all_enum_definitions(&tree);
    assert_eq!(
        names(&found),
        vec![definition("Mode", &["Fast", "Slow", "Variant9600", "Fast"])]
    );
}

#[test]
fn definitions_are_appended_under_a_prefix() {
    let tree = level(vec![("b", choice(&["one"]))]);
    let mut found = vec![EnumDefinition { name: "Kept".to_string(), variant_names: vec![] }];
    extract_all_enum_definitions_recusive(&mut found, &tree, "above".to_string());
    assert_eq!(names(&found), vec![definition("Kept", &[]), definition("AboveB", &["One"])]);
    assert_eq!(names(&[found[1].clone()]), vec![definition("AboveB", &["One"])]);
}

#[test]
fn every_row_gives_a_presence_flag() {
    let rows = vec![
        row("psram.enable", "true", ValueType::Bool),
        row("psram.size", "\"4\"", ValueType::Enum),
        row("heap.size", "30000", ValueType::U32),
    ];
    assert_eq!(
        cfg_flags(&rows),
        vec![
            "has_psram_enable",
            "psram_enable",
            "has_psram_size",
            "psram_size",
            "has_heap_size",
            "heap_size"
        ]
    );
}

#[test]
fn rows_that_are_zero_or_false_give_no_flag_of_their_own() {
    let rows = vec![
        row("a.b", "false", ValueType::Bool),
        row("c", "0", ValueType::U32),
        row("d", "00", ValueType::U32),
        row("e", "\"false\"", ValueType::String),
    ];
    assert_eq!(cfg_flags(&rows), vec!["has_a_b", "has_c", "has_d", "d", "has_e", "e"]);
    assert_eq!(cfg_flags(&vec![]), Vec::<String>::new());
}

#[test]
fn an_enum_is_declared_with_its_variants() {
    let e = EnumDefinition {
        name: "PsramSize".to_string(),
        variant_names: vec!["Variant1".to_string(), "Variant2".to_string()],
    };
    assert_eq!(
        enum_declaration(&e),
        "#[derive(Debug,Clone,Copy)]\npub enum PsramSize {\nVariant1,\nVariant2,\n}\n"
    );
    let empty = EnumDefinition { name: "E".to_string(), variant_names: vec![] };
    assert_eq!(enum_declaration(&empty), "#[derive(Debug,Clone,Copy)]\npub enum E {\n}\n");
}

#[test]
fn a_constant_is_typed_by_its_row() {
    assert_eq!(
        constant_declaration(&row("heap.size", "30000", ValueType::U32)),
        "pub const HEAP_SIZE: u32 = 30000;\n"
    );
    assert_eq!(
        constant_declaration(&row("psram.enable", "false", ValueType::Bool)),
        "pub const PSRAM_ENABLE: bool = false;\n"
    );
    assert_eq!(
        constant_declaration(&row("name", "\"x\"", ValueType::String)),
        "pub const NAME: string = \"x\";\n"
    );
}

#[test]
fn an_enum_constant_names_its_variant() {
    assert_eq!(
        constant_declaration(&row("psram.size", "\"4\"", ValueType::Enum)),
        "pub const PSRAM_SIZE: PsramSize = PsramSize::Variant4;\n"
    );
    assert_eq!(
        constant_declaration(&row("psram.type.type", "\"octal\"", ValueType::Enum)),
        "pub const PSRAM_TYPE_TYPE: PsramTypeType = PsramTypeType::Octal;\n"
    );
}

#[test]
fn the_generated_source_holds_enums_then_constants() {
    let enums = vec![EnumDefinition {
        name: "Mode".to_string(),
        variant_names: vec!["Fast".to_string()],
    }];
    let rows = vec![row("mode", "\"fast\"", ValueType::Enum), row("n", "1", ValueType::U32)];
    assert_eq!(
        generate_config(&enums, &rows),
        "#[derive(Debug,Clone,Copy)]\npub enum Mode {\nFast,\n}\n\
         pub const MODE: Mode = Mode::Fast;\npub const N: u32 = 1;\n"
    );
    assert_eq!(generate_config(&vec![], &vec![]), "");
}

#[test]
fn a_default_enum_value_is_written_with_its_quotes() {
    let mut size = choice(&["1", "2"]);
    size.default_value = Some(Value::String("2".to_string()));
    let tree = level(vec![("size", size)]);
    let rows = rconfig::evaluate_config_str(&Value::Object(vec![]), "c", tree, vec![]).unwrap();
    assert_eq!(rows, vec![row("size", "\"2\"", ValueType::Enum)]);
    assert_eq!(
        generate_config(&vec![], &rows),
        "pub const SIZE: Size = Size::Variant2;\n"
    );
}
