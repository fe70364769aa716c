use ravel_lite::yaml::{
    lookup, merge_values, merge_yaml, merged_config, same_value, ConfigSource, YamlList, YamlMap, YamlValue,
};

fn text(s: &str) -> YamlValue {
    YamlValue::Text(s.to_string())
}

fn number(s: &str) -> YamlValue {
    YamlValue::Number(s.to_string())
}

fn mapping(entries: Vec<(&str, YamlValue)>) -> YamlValue {
    let mut m = YamlMap::Empty;
    for (k, v) in entries.into_iter().rev() {
        m = YamlMap::Entry(Box::new(text(k)), Box::new(v), Box::new(m));
    }
    YamlValue::Mapping(m)
}

fn get<'a>(v: &'a YamlValue, key: &str) -> &'a YamlValue {
    lookup(v, &text(key)).expect("key present")
}

fn as_text(v: &YamlValue) -> &str {
    match v {
        YamlValue::Text(s) => s.as_str(),
        _ => panic!("not a string"),
    }
}

fn as_number(v: &YamlValue) -> &str {
    match v {
        YamlValue::Number(s) => s.as_str(),
        _ => panic!("not a number"),
    }
}

#[test]
fn merge_yaml_overrides_scalar_at_root() {
    let mut base = mapping(vec![("headroom", number("1500"))]);
    let overlay = mapping(vec![("headroom", number("9000"))]);
    merge_yaml(&mut base, overlay);
    assert_eq!(as_number(get(&base, "headroom")).parse::<u64>().unwrap(), 9000);
}

#[test]
fn merge_yaml_keeps_base_keys_absent_from_overlay() {
    let mut base = mapping(vec![("agent", text("pi")), ("headroom", number("1500"))]);
    let overlay = mapping(vec![("headroom", number("3000"))]);
    merge_yaml(&mut base, overlay);
    assert_eq!(as_text(get(&base, "agent")), "pi");
    assert_eq!(as_number(get(&base, "headroom")).parse::<u64>().unwrap(), 3000);
}

#[test]
fn merge_yaml_recurses_into_nested_maps() {
    let mut base = mapping(vec![(
        "models",
        mapping(vec![("work", text("opus-4-6")), ("reflect", text("haiku-4-5"))]),
    )]);
    let overlay = mapping(vec![("models", mapping(vec![("work", text(""))]))]);
    merge_yaml(&mut base, overlay);
    assert_eq!(as_text(get(get(&base, "models"), "work")), "");
    assert_eq!(as_text(get(get(&base, "models"), "reflect")), "haiku-4-5");
}

#[test]
fn merge_appends_keys_only_in_overlay() {
    let base = mapping(vec![("a", number("1"))]);
    let overlay = mapping(vec![("b", number("2"))]);
    let merged = merge_values(base, overlay);
    let expected = mapping(vec![("a", number("1")), ("b", number("2"))]);
    assert!(same_value(&merged, &expected));
}

#[test]
fn non_mapping_overlay_replaces_base() {
    let base = mapping(vec![("a", number("1"))]);
    let overlay = YamlValue::Sequence(YamlList::Item(Box::new(number("7")), Box::new(YamlList::Empty)));
    let merged = merge_values(base, overlay);
    let expected = YamlValue::Sequence(YamlList::Item(Box::new(number("7")), Box::new(YamlList::Empty)));
    assert!(same_value(&merged, &expected));
}

#[test]
fn mapping_overlay_replaces_scalar_base() {
    let base = number("5");
    let overlay = mapping(vec![("x", YamlValue::Bool(true))]);
    let merged = merge_values(base, overlay);
    assert!(matches!(get(&merged, "x"), YamlValue::Bool(true)));
}

#[test]
fn lookup_misses_absent_key_and_non_mapping() {
    let m = mapping(vec![("a", YamlValue::Null)]);
    assert!(lookup(&m, &text("b")).is_none());
    assert!(lookup(&number("1"), &text("a")).is_none());
    assert!(matches!(lookup(&m, &text("a")), Some(YamlValue::Null)));
}

#[test]
fn config_text_is_parsed_and_the_overlay_merged() {
    let merged = merged_config("agent: pi\nmodels:\n  work: opus\n  dream: haiku\n", Some("models:\n  work: sonnet\n")).unwrap();
    assert_eq!(as_text(get(&merged, "agent")), "pi");
    let models = get(&merged, "models");
    assert_eq!(as_text(get(models, "work")), "sonnet");
    assert_eq!(as_text(get(models, "dream")), "haiku");
    let base_only = merged_config("headroom: 1500\n", None).unwrap();
    assert_eq!(as_number(get(&base_only, "headroom")), "1500");
}

#[test]
fn unparsable_config_text_names_the_file() {
    match merged_config("a: [1, 2", None) {
        Err(e) => assert_eq!(e.source, ConfigSource::Base),
        Ok(_) => panic!("base text is not YAML"),
    }
    match merged_config("a: 1\n", Some("b: {")) {
        Err(e) => {
            assert_eq!(e.source, ConfigSource::Overlay);
            assert!(!e.message.is_empty());
        }
        Ok(_) => panic!("overlay text is not YAML"),
    }
}
