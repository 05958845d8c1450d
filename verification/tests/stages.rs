use rconfig::evaluate::{is_well_formed, namespace_overrides, resolve_tree};
use rconfig::flatten::{create_current_config_result, create_result};
use rconfig::fuse::{fuse, fuse_supported, fuse_walk, FuseStatus};
use rconfig::predicate::{
    get_value, has_feature, is_valid_depends, is_value_resolves_to_set, is_value_valid,
};
use rconfig::prune::remove_non_applicable;
use rconfig::validate::{override_verdict, validate};
use rconfig::{
    current_config_values, evaluate_config_str, evaluate_config_str_to_cfg, ConfigOption, Error,
    OptionMap, Value, ValueType,
};

fn node(description: &str) -> ConfigOption {
    ConfigOption {
        description: description.to_string(),
        value_type: None,
        depends: None,
        valid: None,
        values: None,
        default_value: None,
        options: None,
        __value: None,
    }
}

fn leaf(value_type: ValueType, default: Option<Value>) -> ConfigOption {
    let mut l = node("leaf");
    l.value_type = Some(value_type);
    l.default_value = default;
    l
}

fn menu(entries: Vec<(&str, ConfigOption)>) -> ConfigOption {
    let mut m = node("menu");
    m.options = Some(tree(entries));
    m
}

fn tree(entries: Vec<(&str, ConfigOption)>) -> OptionMap {
    let mut map = OptionMap::new();
    for (key, option) in entries {
        map.insert(key.to_string(), option);
    }
    map
}

fn depending(mut option: ConfigOption, depends: &str) -> ConfigOption {
    option.depends = Some(depends.to_string());
    option
}

fn checked(mut option: ConfigOption, valid: &str) -> ConfigOption {
    option.valid = Some(valid.to_string());
    option
}

fn set(mut option: ConfigOption, value: Value) -> ConfigOption {
    option.__value = Some(value);
    option
}

fn object(fields: Vec<(&str, Value)>) -> Value {
    Value::Object(fields.into_iter().map(|(k, v)| (k.to_string(), v)).collect())
}

fn features(list: &[&str]) -> Vec<String> {
    list.iter().map(|s| s.to_string()).collect()
}

fn keys(map: &OptionMap) -> Vec<String> {
    map.entries().into_iter().map(|(k, _)| k.clone()).collect()
}

fn sample() -> OptionMap {
    tree(vec![
        (
            "net",
            menu(vec![
                ("wifi", leaf(ValueType::Bool, Some(Value::Bool(true)))),
                ("rate", checked(leaf(ValueType::U32, Some(Value::Number(80))), "value > 0")),
                ("name", leaf(ValueType::String, None)),
            ]),
        ),
        ("debug", depending(leaf(ValueType::Bool, Some(Value::Bool(false))), "feature(\"dev\")")),
    ])
}

#[test]
fn a_path_resolves_to_override_then_default() {
    let mut config = sample();
    assert_eq!(get_value("net.wifi", &config), Some(Some(Value::Bool(true))));
    assert_eq!(get_value("net.name", &config), Some(None));
    assert_eq!(get_value("debug", &config), Some(Some(Value::Bool(false))));
    fuse(&object(vec![("net", object(vec![("wifi", Value::Bool(false))]))]), &mut config)
        .unwrap();
    assert_eq!(get_value("net.wifi", &config), Some(Some(Value::Bool(false))));
}

#[test]
fn a_path_that_leads_nowhere_does_not_resolve() {
    let config = sample();
    assert_eq!(get_value("net.missing", &config), None);
    assert_eq!(get_value("missing", &config), None);
    assert_eq!(get_value("net.wifi.deeper", &config), None);
    assert_eq!(get_value("", &config), None);
    assert_eq!(get_value("net.", &config), None);
    assert_eq!(get_value("net", &config), Some(None));
}

#[test]
fn enabled_is_the_truthiness_of_the_current_value() {
    let config = tree(vec![
        ("on", leaf(ValueType::Bool, Some(Value::Bool(true)))),
        ("off", leaf(ValueType::Bool, Some(Value::Bool(false)))),
        ("zero", leaf(ValueType::U32, Some(Value::Number(0)))),
        ("seven", leaf(ValueType::U32, Some(Value::Number(7)))),
        ("empty", leaf(ValueType::String, Some(Value::String(String::new())))),
        ("word", leaf(ValueType::String, Some(Value::String("x".to_string())))),
        ("unset", leaf(ValueType::Bool, None)),
        ("list", leaf(ValueType::String, Some(Value::Array(vec![Value::Bool(true)])))),
        ("sub", menu(vec![])),
    ]);
    assert_eq!(is_value_resolves_to_set("on", &config), Some(true));
    assert_eq!(is_value_resolves_to_set("off", &config), Some(false));
    assert_eq!(is_value_resolves_to_set("zero", &config), Some(false));
    assert_eq!(is_value_resolves_to_set("seven", &config), Some(true));
    assert_eq!(is_value_resolves_to_set("empty", &config), Some(false));
    assert_eq!(is_value_resolves_to_set("word", &config), Some(true));
    assert_eq!(is_value_resolves_to_set("unset", &config), Some(false));
    assert_eq!(is_value_resolves_to_set("list", &config), Some(false));
    assert_eq!(is_value_resolves_to_set("sub", &config), Some(false));
    assert_eq!(is_value_resolves_to_set("nowhere", &config), None);
}

#[test]
fn features_are_matched_exactly() {
    let active = features(&["esp32c6", "flip-link"]);
    assert!(has_feature(&active, "esp32c6"));
    assert!(has_feature(&active, "flip-link"));
    assert!(!has_feature(&active, "esp32"));
    assert!(!has_feature(&active, "ESP32C6"));
    assert!(!has_feature(&features(&[]), "esp32c6"));
}

#[test]
fn depends_expressions_are_evaluated() {
    let config = sample();
    let active = features(&["dev"]);
    assert_eq!(is_valid_depends(&None, &config, &active), Some(true));
    let expr = |s: &str| Some(s.to_string());
    assert_eq!(is_valid_depends(&expr("feature(\"dev\")"), &config, &active), Some(true));
    assert_eq!(is_valid_depends(&expr("feature(\"prod\")"), &config, &active), Some(false));
    assert_eq!(is_valid_depends(&expr("!feature(\"dev\")"), &config, &active), Some(false));
    assert_eq!(
        is_valid_depends(&expr("feature(\"prod\") || enabled(\"net.wifi\")"), &config, &active),
        Some(true)
    );
    assert_eq!(
        is_valid_depends(&expr("feature(\"dev\") && enabled(\"debug\")"), &config, &active),
        Some(false)
    );
}

#[test]
fn expressions_that_cannot_be_evaluated_give_nothing() {
    let config = sample();
    let active = features(&["dev"]);
    let expr = |s: &str| Some(s.to_string());
    assert_eq!(is_valid_depends(&expr("feature(\"dev\") &&"), &config, &active), None);
    assert_eq!(is_valid_depends(&expr("1 + 1"), &config, &active), None);
    assert_eq!(is_valid_depends(&expr("unknown(\"x\")"), &config, &active), None);
    assert_eq!(is_valid_depends(&expr("enabled(\"net.missing\")"), &config, &active), None);
    assert_eq!(is_valid_depends(&expr("loop { }"), &config, &active), None);
    assert_eq!(is_value_valid(&expr("value >"), &Value::Number(1), &config, &active), None);
}

#[test]
fn valid_expressions_see_the_candidate() {
    let config = sample();
    let active = features(&[]);
    let range = Some("value >= 0 && value <= 80000".to_string());
    assert_eq!(is_value_valid(&None, &Value::Number(5), &config, &active), Some(true));
    assert_eq!(is_value_valid(&range, &Value::Number(30000), &config, &active), Some(true));
    assert_eq!(is_value_valid(&range, &Value::Number(80001), &config, &active), Some(false));
    assert_eq!(is_value_valid(&range, &Value::Number(-1), &config, &active), Some(false));
    let flag = Some("value".to_string());
    assert_eq!(is_value_valid(&flag, &Value::Bool(true), &config, &active), Some(true));
    assert_eq!(is_value_valid(&flag, &Value::Null, &config, &active), Some(false));
    let word = Some("value == \"quad\"".to_string());
    assert_eq!(
        is_value_valid(&word, &Value::String("quad".to_string()), &config, &active),
        Some(true)
    );
    assert_eq!(
        is_value_valid(&word, &Value::String("octal".to_string()), &config, &active),
        Some(false)
    );
}

#[test]
fn fuse_puts_values_at_their_leaves() {
    let mut config = sample();
    let over = object(vec![
        ("debug", Value::Bool(true)),
        ("net", object(vec![("rate", Value::Number(8080)), ("name", Value::String("n".into()))])),
    ]);
    assert!(fuse_supported(&over, &config));
    assert!(fuse(&over, &mut config).is_ok());
    assert_eq!(keys(&config), vec!["net", "debug"]);
    assert_eq!(config.get("debug").unwrap().__value, Some(Value::Bool(true)));
    let net = config.get("net").unwrap().options.as_ref().unwrap();
    assert_eq!(keys(net), vec!["wifi", "rate", "name"]);
    assert_eq!(net.get("wifi").unwrap().__value, None);
    assert_eq!(net.get("rate").unwrap().__value, Some(Value::Number(8080)));
    assert_eq!(net.get("name").unwrap().__value, Some(Value::String("n".into())));
    assert_eq!(net.get("rate").unwrap().default_value, Some(Value::Number(80)));
}

#[test]
fn fuse_of_nothing_changes_nothing() {
    let mut config = sample();
    assert!(fuse(&Value::Null, &mut config).is_ok());
    assert!(fuse(&object(vec![]), &mut config).is_ok());
    assert_eq!(config.get("debug").unwrap().__value, None);
}

#[test]
fn fuse_rejects_unknown_keys() {
    let mut config = sample();
    let over = object(vec![("debug", Value::Bool(true)), ("nope", Value::Number(1))]);
    assert!(matches!(fuse(&over, &mut config), Err(Error::InvalidKey)));
    assert_eq!(config.get("debug").unwrap().__value, Some(Value::Bool(true)));

    let mut config = sample();
    let over = object(vec![("net", object(vec![("nope", Value::Number(1))]))]);
    assert!(matches!(fuse(&over, &mut config), Err(Error::InvalidKey)));
}

#[test]
fn fuse_does_not_support_a_scalar_for_a_submenu() {
    let config = sample();
    assert!(!fuse_supported(&object(vec![("net", Value::Number(1))]), &config));
    assert!(!fuse_supported(&Value::Bool(true), &config));
    assert!(fuse_supported(&object(vec![("net", Value::Null)]), &config));
    let mut copy = config.duplicate();
    assert_eq!(
        fuse_walk(&object(vec![("net", Value::Number(1))]), &mut copy),
        FuseStatus::Unsupported
    );
    assert_eq!(fuse_walk(&object(vec![("zz", Value::Number(1))]), &mut copy), FuseStatus::UnknownKey);
    assert_eq!(fuse_walk(&object(vec![("debug", Value::Number(1))]), &mut copy), FuseStatus::Done);
}

#[test]
fn validate_accepts_reachable_valid_overrides() {
    let mut config = sample();
    fuse(
        &object(vec![("debug", Value::Bool(true)), ("net", object(vec![("rate", Value::Number(1))]))]),
        &mut config,
    )
    .unwrap();
    assert!(validate(&config, &config, &features(&["dev"]), true).is_ok());
}

#[test]
fn validate_rejects_overrides_of_unreachable_options() {
    let mut config = sample();
    fuse(&object(vec![("debug", Value::Bool(true))]), &mut config).unwrap();
    let r = validate(&config, &config, &features(&[]), true);
    assert!(matches!(r, Err(Error::InvalidConfiguration(ref name)) if name == "debug"));
    let r = validate(&config, &config, &features(&["dev"]), false);
    assert!(matches!(r, Err(Error::InvalidConfiguration(ref name)) if name == "debug"));
}

#[test]
fn validate_rejects_overrides_below_an_unreachable_submenu() {
    let mut config = tree(vec![(
        "net",
        depending(
            menu(vec![("rate", checked(leaf(ValueType::U32, None), "value > 0"))]),
            "feature(\"net\")",
        ),
    )]);
    fuse(&object(vec![("net", object(vec![("rate", Value::Number(0))]))]), &mut config).unwrap();
    let r = validate(&config, &config, &features(&[]), true);
    assert!(matches!(r, Err(Error::InvalidConfiguration(ref name)) if name == "net.rate"));
    let r = validate(&config, &config, &features(&["net"]), true);
    assert!(matches!(r, Err(Error::InvalidConfigurationValue(ref name)) if name == "net.rate"));
}

#[test]
fn validate_rejects_invalid_values() {
    let mut config = sample();
    fuse(&object(vec![("net", object(vec![("rate", Value::Number(0))]))]), &mut config).unwrap();
    let r = validate(&config, &config, &features(&[]), true);
    assert!(matches!(r, Err(Error::InvalidConfigurationValue(ref name)) if name == "net.rate"));
}

#[test]
fn validate_does_not_check_defaults() {
    let config = tree(vec![(
        "rate",
        checked(leaf(ValueType::U32, Some(Value::Number(0))), "value > 0"),
    )]);
    assert!(validate(&config, &config, &features(&[]), true).is_ok());
}

#[test]
fn validate_reports_expressions_that_cannot_be_evaluated() {
    let config = tree(vec![("a", depending(leaf(ValueType::Bool, None), "feature("))]);
    let r = validate(&config, &config, &features(&[]), true);
    assert!(matches!(r, Err(Error::PredicateEvaluationFailure(ref name)) if name == "a"));
    assert!(validate(&config, &config, &features(&[]), false).is_ok());

    let config = tree(vec![("b", set(checked(leaf(ValueType::U32, None), "value +"), Value::Number(1)))]);
    let r = validate(&config, &config, &features(&[]), true);
    assert!(matches!(r, Err(Error::PredicateEvaluationFailure(ref name)) if name == "b"));
}

#[test]
fn the_verdict_on_an_override_is_by_reach_first() {
    assert!(matches!(
        override_verdict("x", false, Some(true)),
        Err(Error::InvalidConfiguration(ref n)) if n == "x"
    ));
    assert!(matches!(
        override_verdict("x", false, Some(false)),
        Err(Error::InvalidConfiguration(ref n)) if n == "x"
    ));
    assert!(matches!(
        override_verdict("x", false, None),
        Err(Error::InvalidConfiguration(ref n)) if n == "x"
    ));
    assert!(matches!(
        override_verdict("x", true, Some(false)),
        Err(Error::InvalidConfigurationValue(ref n)) if n == "x"
    ));
    assert!(matches!(
        override_verdict("x", true, None),
        Err(Error::PredicateEvaluationFailure(ref n)) if n == "x"
    ));
    assert!(override_verdict("x", true, Some(true)).is_ok());
}

#[test]
fn prune_keeps_what_its_own_depends_allows() {
    let config = tree(vec![
        ("a", depending(leaf(ValueType::Bool, None), "feature(\"x\")")),
        (
            "m",
            menu(vec![
                ("b", depending(leaf(ValueType::Bool, None), "feature(\"y\")")),
                ("c", leaf(ValueType::Bool, None)),
            ]),
        ),
        ("n", depending(menu(vec![("d", leaf(ValueType::Bool, None))]), "feature(\"y\")")),
        ("e", leaf(ValueType::Bool, None)),
    ]);
    let kept = remove_non_applicable(&config, &config, &features(&["x"])).unwrap();
    assert_eq!(keys(&kept), vec!["a", "m", "e"]);
    assert_eq!(keys(kept.get("m").unwrap().options.as_ref().unwrap()), vec!["c"]);
    let kept = remove_non_applicable(&config, &config, &features(&["y"])).unwrap();
    assert_eq!(keys(&kept), vec!["m", "n", "e"]);
    assert_eq!(keys(kept.get("m").unwrap().options.as_ref().unwrap()), vec!["b", "c"]);
    assert_eq!(keys(kept.get("n").unwrap().options.as_ref().unwrap()), vec!["d"]);
}

#[test]
fn prune_keeps_a_submenu_that_it_empties() {
    let config = tree(vec![(
        "m",
        menu(vec![("b", depending(leaf(ValueType::Bool, None), "feature(\"y\")"))]),
    )]);
    let kept = remove_non_applicable(&config, &config, &features(&[])).unwrap();
    assert_eq!(keys(&kept), vec!["m"]);
    assert_eq!(kept.get("m").unwrap().options.as_ref().unwrap().len(), 0);
}

#[test]
fn prune_is_idempotent_against_the_same_tree() {
    let config = tree(vec![
        ("a", depending(leaf(ValueType::Bool, Some(Value::Bool(true))), "feature(\"x\")")),
        ("b", depending(leaf(ValueType::Bool, None), "enabled(\"a\")")),
        ("m", menu(vec![("c", depending(leaf(ValueType::Bool, None), "!enabled(\"a\")"))])),
    ]);
    let active = features(&[]);
    let once = remove_non_applicable(&config, &config, &active).unwrap();
    let twice = remove_non_applicable(&once, &config, &active).unwrap();
    assert_eq!(keys(&once), vec!["b", "m"]);
    assert_eq!(keys(&twice), keys(&once));
    let below = |t: &OptionMap| keys(t.get("m").unwrap().options.as_ref().unwrap());
    assert_eq!(below(&once), Vec::<String>::new());
    assert_eq!(below(&twice), below(&once));
}

#[test]
fn prune_reports_expressions_that_cannot_be_evaluated() {
    let config = tree(vec![("m", menu(vec![("c", depending(leaf(ValueType::Bool, None), "1 +"))]))]);
    let r = remove_non_applicable(&config, &config, &features(&[]));
    assert!(matches!(r, Err(Error::PredicateEvaluationFailure(ref name)) if name == "m.c"));
}

#[test]
fn flatten_prefers_overrides_to_defaults() {
    let mut config = sample();
    fuse(&object(vec![("net", object(vec![("rate", Value::Number(8080))]))]), &mut config)
        .unwrap();
    let mut rows = vec![("kept".to_string(), "1".to_string(), ValueType::Bool)];
    create_result(&mut rows, &config, &config, &features(&["dev"]), "p.".to_string()).unwrap();
    assert_eq!(
        rows,
        vec![
            ("kept".to_string(), "1".to_string(), ValueType::Bool),
            ("p.net.wifi".to_string(), "true".to_string(), ValueType::Bool),
            ("p.net.rate".to_string(), "8080".to_string(), ValueType::U32),
            ("p.debug".to_string(), "false".to_string(), ValueType::Bool),
        ]
    );
}

#[test]
fn flatten_leaves_out_defaults_whose_depends_fails() {
    let config = sample();
    let mut rows = Vec::new();
    create_result(&mut rows, &config, &config, &features(&[]), String::new()).unwrap();
    assert_eq!(
        rows,
        vec![
            ("net.wifi".to_string(), "true".to_string(), ValueType::Bool),
            ("net.rate".to_string(), "80".to_string(), ValueType::U32),
        ]
    );
}

#[test]
fn flatten_keeps_the_rows_before_a_failure() {
    let config = tree(vec![
        ("a", leaf(ValueType::Bool, Some(Value::Bool(true)))),
        ("b", depending(leaf(ValueType::Bool, Some(Value::Bool(true))), "feature(")),
        ("c", leaf(ValueType::Bool, Some(Value::Bool(true)))),
    ]);
    let mut rows = Vec::new();
    let r = create_result(&mut rows, &config, &config, &features(&[]), String::new());
    assert!(matches!(r, Err(Error::PredicateEvaluationFailure(ref name)) if name == "b"));
    assert_eq!(rows, vec![("a".to_string(), "true".to_string(), ValueType::Bool)]);
}

#[test]
fn every_reached_leaf_gives_one_row() {
    let mut config = tree(vec![
        ("a", leaf(ValueType::U32, Some(Value::Number(1)))),
        (
            "m",
            menu(vec![
                ("a", leaf(ValueType::U32, Some(Value::Number(2)))),
                ("n", menu(vec![("a", leaf(ValueType::U32, None))])),
                ("none", leaf(ValueType::U32, None)),
            ]),
        ),
    ]);
    fuse(
        &object(vec![("m", object(vec![("n", object(vec![("a", Value::Number(3))]))]))]),
        &mut config,
    )
    .unwrap();
    let mut rows = Vec::new();
    create_result(&mut rows, &config, &config, &features(&[]), String::new()).unwrap();
    let paths: Vec<&str> = rows.iter().map(|r| r.0.as_str()).collect();
    assert_eq!(paths, vec!["a", "m.a", "m.n.a"]);
    let values: Vec<&str> = rows.iter().map(|r| r.1.as_str()).collect();
    assert_eq!(values, vec!["1", "2", "3"]);
}

#[test]
fn current_values_take_no_defaults() {
    let mut config = sample();
    let mut rows = Vec::new();
    create_current_config_result(&mut rows, &config, String::new());
    assert_eq!(rows, Vec::<(String, String)>::new());
    fuse(
        &object(vec![
            ("debug", Value::Bool(true)),
            ("net", object(vec![("name", Value::String("n".into()))])),
        ]),
        &mut config,
    )
    .unwrap();
    create_current_config_result(&mut rows, &config, String::new());
    assert_eq!(
        rows,
        vec![
            ("net.name".to_string(), "\"n\"".to_string()),
            ("debug".to_string(), "true".to_string()),
        ]
    );
}

#[test]
fn over_explicit_values_only_both_flattenings_agree() {
    let config = tree(vec![
        ("a", set(leaf(ValueType::U32, None), Value::Number(1))),
        (
            "m",
            menu(vec![
                ("b", set(leaf(ValueType::String, None), Value::String("x".into()))),
                ("c", leaf(ValueType::Bool, None)),
            ]),
        ),
    ]);
    let mut rows = Vec::new();
    create_result(&mut rows, &config, &config, &features(&[]), String::new()).unwrap();
    let mut pairs = Vec::new();
    create_current_config_result(&mut pairs, &config, String::new());
    let untyped: Vec<(String, String)> = rows.into_iter().map(|r| (r.0, r.1)).collect();
    assert_eq!(untyped, pairs);
    assert_eq!(
        pairs,
        vec![("a".to_string(), "1".to_string()), ("m.b".to_string(), "\"x\"".to_string())]
    );
}

#[test]
fn well_formed_trees_are_recognised() {
    assert!(is_well_formed(&sample()));
    assert!(is_well_formed(&OptionMap::new()));
    assert!(!is_well_formed(&tree(vec![("a", node("neither"))])));
    assert!(!is_well_formed(&tree(vec![("m", menu(vec![("a", node("neither"))]))])));
    assert!(!is_well_formed(&tree(vec![("m", set(menu(vec![]), Value::Bool(true)))])));
}

#[test]
fn the_overrides_of_a_namespace_are_found_by_name() {
    let doc = object(vec![("one", Value::Number(1)), ("two", Value::Number(2))]);
    assert_eq!(namespace_overrides(&doc, "two"), Some(&Value::Number(2)));
    assert_eq!(namespace_overrides(&doc, "three"), None);
    assert_eq!(namespace_overrides(&Value::Null, "one"), None);
}

#[test]
fn evaluation_fails_on_unknown_keys() {
    let doc = object(vec![("mycrate", object(vec![("nope", Value::Number(1))]))]);
    let r = evaluate_config_str(&doc, "mycrate", sample(), vec![]);
    assert!(matches!(r, Err(Error::InvalidKey)));
    let r = evaluate_config_str_to_cfg(&doc, "mycrate", sample(), vec![]);
    assert!(matches!(r, Err(Error::InvalidKey)));
}

#[test]
fn evaluation_fails_on_stale_overrides() {
    let doc = object(vec![("mycrate", object(vec![("debug", Value::Bool(true))]))]);
    let r = evaluate_config_str(&doc, "mycrate", sample(), vec!["prod"]);
    assert!(matches!(r, Err(Error::InvalidConfiguration(ref name)) if name == "debug"));
    let r = evaluate_config_str(&doc, "mycrate", sample(), vec!["dev"]).unwrap();
    assert_eq!(r[2], ("debug".to_string(), "true".to_string(), ValueType::Bool));
}

#[test]
fn evaluation_fails_on_invalid_values() {
    let doc = object(vec![("mycrate", object(vec![("net", object(vec![("rate", Value::Number(0))]))]))]);
    let r = evaluate_config_str(&doc, "mycrate", sample(), vec![]);
    assert!(matches!(r, Err(Error::InvalidConfigurationValue(ref name)) if name == "net.rate"));
}

#[test]
fn evaluation_without_overrides_gives_the_defaults() {
    let doc = object(vec![("other", object(vec![("nope", Value::Number(1))]))]);
    let r = evaluate_config_str(&doc, "mycrate", sample(), vec!["dev"]).unwrap();
    assert_eq!(
        r,
        vec![
            ("net.wifi".to_string(), "true".to_string(), ValueType::Bool),
            ("net.rate".to_string(), "80".to_string(), ValueType::U32),
            ("debug".to_string(), "false".to_string(), ValueType::Bool),
        ]
    );
    let r = evaluate_config_str(&object(vec![]), "mycrate", sample(), vec![]).unwrap();
    assert_eq!(r.len(), 2);
}

#[test]
fn the_shown_tree_is_fused_and_pruned_but_not_validated() {
    let doc = object(vec![("mycrate", object(vec![("debug", Value::Bool(true))]))]);
    let shown = evaluate_config_str_to_cfg(&doc, "mycrate", sample(), vec!["prod"]).unwrap();
    assert_eq!(keys(&shown), vec!["net"]);
    let shown = evaluate_config_str_to_cfg(&doc, "mycrate", sample(), vec!["dev"]).unwrap();
    assert_eq!(keys(&shown), vec!["net", "debug"]);
    assert_eq!(shown.get("debug").unwrap().__value, Some(Value::Bool(true)));
    let same = resolve_tree(&object(vec![("debug", Value::Bool(true))]), sample(), &features(&["dev"]))
        .unwrap();
    assert_eq!(keys(&same), keys(&shown));
}

#[test]
fn the_current_values_of_a_pruned_tree() {
    let mut config = sample();
    fuse(
        &object(vec![("debug", Value::Bool(true)), ("net", object(vec![("rate", Value::Number(1))]))]),
        &mut config,
    )
    .unwrap();
    let r = current_config_values(config.duplicate(), vec!["dev"]).unwrap();
    assert_eq!(
        r,
        vec![("net.rate".to_string(), "1".to_string()), ("debug".to_string(), "true".to_string())]
    );
    let r = current_config_values(config, vec![]).unwrap();
    assert_eq!(r, vec![("net.rate".to_string(), "1".to_string())]);
}

#[test]
fn flatten_looks_below_a_default_that_does_not_apply() {
    let mut both = menu(vec![("inner", leaf(ValueType::U32, Some(Value::Number(5))))]);
    both.value_type = Some(ValueType::Bool);
    both.default_value = Some(Value::Bool(true));
    both.depends = Some("feature(\"x\")".to_string());
    let config = tree(vec![("both", both)]);
    let mut rows = Vec::new();
    create_result(&mut rows, &config, &config, &features(&["x"]), String::new()).unwrap();
    assert_eq!(rows, vec![("both".to_string(), "true".to_string(), ValueType::Bool)]);
    let mut rows = Vec::new();
    create_result(&mut rows, &config, &config, &features(&[]), String::new()).unwrap();
    assert_eq!(rows, vec![("both.inner".to_string(), "5".to_string(), ValueType::U32)]);
}

#[test]
fn prune_looks_at_the_children_before_the_node() {
    let config = tree(vec![(
        "m",
        depending(menu(vec![("c", depending(leaf(ValueType::Bool, None), "1 +"))]), "2 +"),
    )]);
    let r = remove_non_applicable(&config, &config, &features(&[]));
    assert!(matches!(r, Err(Error::PredicateEvaluationFailure(ref name)) if name == "m.c"));
}

#[test]
fn an_expression_may_take_only_so_many_operations() {
    let config = sample();
    let spin = Some("let n = 0; while n < 100000000 { n += 1; } true".to_string());
    assert_eq!(is_valid_depends(&spin, &config, &features(&[])), None);
    let short = Some("let n = 0; while n < 10 { n += 1; } n == 10".to_string());
    assert_eq!(is_valid_depends(&short, &config, &features(&[])), Some(true));
}

#[test]
fn an_expression_reaches_neither_files_nor_the_clock() {
    let config = sample();
    let none = features(&[]);
    let import = Some("import \"other\" as o; true".to_string());
    assert_eq!(is_valid_depends(&import, &config, &none), None);
    let clock = Some("let t = timestamp(); true".to_string());
    assert_eq!(is_valid_depends(&clock, &config, &none), None);
}

#[test]
fn an_expression_may_nest_only_so_deeply() {
    let config = sample();
    let none = features(&[]);
    let mut wide = String::from("feature(\"a\")");
    for _ in 0..40 {
        wide.push_str(" || !feature(\"a\")");
    }
    assert_eq!(is_valid_depends(&Some(wide.clone()), &config, &none), Some(true));
    for _ in 0..60 {
        wide.push_str(" || !feature(\"a\")");
    }
    assert_eq!(is_valid_depends(&Some(wide), &config, &none), None);
}

#[test]
fn an_expression_cannot_evaluate_a_text_or_wait() {
    let config = sample();
    let none = features(&[]);
    let again = Some("let s = \"eval(s)\"; eval(s); true".to_string());
    assert_eq!(is_valid_depends(&again, &config, &none), None);
    let once = Some("eval(\"true\")".to_string());
    assert_eq!(is_valid_depends(&once, &config, &none), None);
    let wait = Some("sleep(1); true".to_string());
    assert_eq!(is_valid_depends(&wait, &config, &none), None);
    let say = Some("print(\"x\"); true".to_string());
    assert_eq!(is_valid_depends(&say, &config, &none), None);
}

#[test]
fn an_expression_builds_only_short_texts() {
    let config = sample();
    let none = features(&[]);
    let long = "let s = \"aaaaaaaa\"; let n = 0; while n < 20 { s += s; n += 1; } true";
    assert_eq!(is_valid_depends(&Some(long.to_string()), &config, &none), None);
    let short = "let s = \"aaaaaaaa\"; let n = 0; while n < 3 { s += s; n += 1; } true";
    assert_eq!(is_valid_depends(&Some(short.to_string()), &config, &none), Some(true));
}

#[test]
fn an_expression_has_neither_lists_nor_functions_of_its_own() {
    let config = sample();
    let none = features(&[]);
    for script in ["let a = [1, 2]; true", "let a = #{x: 1}; true", "fn f() { true } f()"] {
        assert_eq!(is_valid_depends(&Some(script.to_string()), &config, &none), None);
    }
}

#[test]
fn an_expression_compares_and_calculates() {
    let config = sample();
    let none = features(&[]);
    for script in [
        "1 + 2 * 3 == 7 && 7 % 2 == 1 && 2 - 3 < 0 && 8 / 2 == 4",
        "\"a\" + \"b\" == \"ab\" && \"a\" < \"b\"",
        "if feature(\"a\") { false } else { true }",
    ] {
        assert_eq!(is_valid_depends(&Some(script.to_string()), &config, &none), Some(true));
    }
    let range = Some("value >= 0 && value <= 80000".to_string());
    assert_eq!(is_value_valid(&range, &Value::Number(80000), &config, &none), Some(true));
    assert_eq!(is_value_valid(&range, &Value::Number(80001), &config, &none), Some(false));
    let beyond = Some("value + 1 > 0".to_string());
    assert_eq!(is_value_valid(&beyond, &Value::Number(i64::MAX), &config, &none), None);
    let nothing = Some("value / 0 > 0".to_string());
    assert_eq!(is_value_valid(&nothing, &Value::Number(1), &config, &none), None);
}

#[test]
fn a_value_that_is_no_scalar_is_checked_as_false() {
    let config = sample();
    let none = features(&[]);
    let not = Some("!value".to_string());
    assert_eq!(is_value_valid(&not, &Value::Null, &config, &none), Some(true));
    assert_eq!(is_value_valid(&not, &Value::Array(vec![Value::Bool(true)]), &config, &none), Some(true));
    assert_eq!(is_value_valid(&not, &Value::Bool(true), &config, &none), Some(false));
    let same = Some("value == \"octal\"".to_string());
    assert_eq!(is_value_valid(&same, &Value::String("octal".to_string()), &config, &none), Some(true));
    assert_eq!(is_value_valid(&same, &Value::String("quad".to_string()), &config, &none), Some(false));
}

#[test]
fn failures_name_the_option_by_its_dotted_path() {
    let deep = |script: &str| {
        tree(vec![(
            "a",
            menu(vec![("b", menu(vec![("c", depending(leaf(ValueType::Bool, Some(Value::Bool(true))), script))]))]),
        )])
    };
    let none = features(&[]);
    let broken = deep("1 +");
    let r = validate(&broken, &broken, &none, true);
    assert!(matches!(r, Err(Error::PredicateEvaluationFailure(ref name)) if name == "a.b.c"));
    let r = remove_non_applicable(&broken, &broken, &none);
    assert!(matches!(r, Err(Error::PredicateEvaluationFailure(ref name)) if name == "a.b.c"));
    let mut rows = Vec::new();
    let r = create_result(&mut rows, &broken, &broken, &none, String::new());
    assert!(matches!(r, Err(Error::PredicateEvaluationFailure(ref name)) if name == "a.b.c"));
    let mut stale = deep("feature(\"x\")");
    let over = object(vec![("a", object(vec![("b", object(vec![("c", Value::Bool(false))]))]))]);
    fuse(&over, &mut stale).unwrap();
    let r = validate(&stale, &stale, &none, true);
    assert!(matches!(r, Err(Error::InvalidConfiguration(ref name)) if name == "a.b.c"));
    let r = override_verdict("a.b.c", true, Some(false));
    assert!(matches!(r, Err(Error::InvalidConfigurationValue(ref name)) if name == "a.b.c"));
}
