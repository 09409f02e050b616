use widget_config::config::find_key;
use widget_config::{AttrMap, AttrValue, ConfigError, ConfigValue, PrimitiveValue};

fn text(value: &str) -> AttrValue {
    AttrValue::Concrete(PrimitiveValue::String(value.to_string()))
}

#[test]
fn coercion_of_each_shape() {
    assert_eq!(AttrValue::try_from_config(&ConfigValue::String("a".to_string())), Some(text("a")));
    assert_eq!(
        AttrValue::try_from_config(&ConfigValue::Integer(9)),
        Some(AttrValue::Concrete(PrimitiveValue::Integer(9)))
    );
    assert_eq!(
        AttrValue::try_from_config(&ConfigValue::Real(7)),
        Some(AttrValue::Concrete(PrimitiveValue::Real(7)))
    );
    assert_eq!(
        AttrValue::try_from_config(&ConfigValue::Boolean(true)),
        Some(AttrValue::Concrete(PrimitiveValue::Boolean(true)))
    );
    assert_eq!(AttrValue::try_from_config(&ConfigValue::Null), None);
    assert_eq!(AttrValue::try_from_config(&ConfigValue::Array(vec![])), None);
    assert_eq!(AttrValue::try_from_config(&ConfigValue::Hash(vec![])), None);
}

#[test]
fn attr_values_compare_by_content() {
    assert_eq!(text("a"), text("a"));
    assert_ne!(text("a"), text("b"));
    assert_ne!(text("1"), AttrValue::Concrete(PrimitiveValue::Integer(1)));
    assert_ne!(
        AttrValue::Concrete(PrimitiveValue::Integer(1)),
        AttrValue::Concrete(PrimitiveValue::Real(1))
    );
    assert_eq!(text("a").clone(), text("a"));
}

#[test]
fn attr_map_insert_and_get() {
    let mut attrs = AttrMap::new();
    assert_eq!(attrs.len(), 0);
    assert_eq!(attrs.get("a"), None);
    attrs.insert("a".to_string(), text("1"));
    attrs.insert("b".to_string(), text("2"));
    assert_eq!(attrs.len(), 2);
    assert_eq!(attrs.get("a"), Some(&text("1")));
    assert_eq!(attrs.get("b"), Some(&text("2")));
    assert_eq!(attrs.get("c"), None);
    attrs.insert("a".to_string(), text("3"));
    assert_eq!(attrs.len(), 2);
    assert_eq!(attrs.get("a"), Some(&text("3")));
    assert_eq!(attrs.get("b"), Some(&text("2")));
}

#[test]
fn attr_map_entries_list_each_key_once() {
    let mut attrs = AttrMap::new();
    attrs.insert("a".to_string(), text("1"));
    attrs.insert("b".to_string(), text("2"));
    attrs.insert("a".to_string(), text("3"));
    assert_eq!(attrs.entries(), &vec![("a".to_string(), text("3")), ("b".to_string(), text("2"))]);
}

#[test]
fn attr_map_equality_ignores_order() {
    let mut one = AttrMap::new();
    one.insert("a".to_string(), text("1"));
    one.insert("b".to_string(), text("2"));
    let mut other = AttrMap::new();
    other.insert("b".to_string(), text("2"));
    assert_ne!(one, other);
    assert_ne!(other, one);
    other.insert("a".to_string(), text("1"));
    assert_eq!(one, other);
    other.insert("a".to_string(), text("changed"));
    assert_ne!(one, other);
    assert_eq!(one.clone(), one);
    assert_eq!(AttrMap::default(), AttrMap::new());
}

#[test]
fn as_i64_reads_integers_and_strings() {
    assert_eq!(ConfigValue::Integer(42).as_i64(), Some(42));
    assert_eq!(ConfigValue::String("42".to_string()).as_i64(), Some(42));
    assert_eq!(ConfigValue::String("-42".to_string()).as_i64(), Some(-42));
    assert_eq!(ConfigValue::String("9223372036854775807".to_string()).as_i64(), Some(i64::MAX));
    assert_eq!(ConfigValue::String("9223372036854775808".to_string()).as_i64(), None);
    assert_eq!(ConfigValue::String("4.5".to_string()).as_i64(), None);
    assert_eq!(ConfigValue::String("".to_string()).as_i64(), None);
    assert_eq!(ConfigValue::Real(4.0f64.to_bits()).as_i64(), None);
    assert_eq!(ConfigValue::Boolean(true).as_i64(), None);
    assert_eq!(ConfigValue::Null.as_i64(), None);
    assert_eq!(ConfigValue::Array(vec![ConfigValue::Integer(1)]).as_i64(), None);
}

#[test]
fn as_hash_gives_entries_or_refuses() {
    let entries = vec![("a".to_string(), ConfigValue::Integer(1))];
    assert_eq!(ConfigValue::Hash(entries.clone()).as_hash(), Ok(&entries));
    assert_eq!(
        ConfigValue::Integer(1).as_hash(),
        Err(ConfigError::NotAHash { value: ConfigValue::Integer(1) })
    );
}

#[test]
fn find_key_takes_first_entry() {
    let entries = vec![
        ("a".to_string(), ConfigValue::Integer(1)),
        ("b".to_string(), ConfigValue::Integer(2)),
        ("a".to_string(), ConfigValue::Integer(3)),
    ];
    assert_eq!(find_key(&entries, &"a".to_string()), Some(0));
    assert_eq!(find_key(&entries, &"b".to_string()), Some(1));
    assert_eq!(find_key(&entries, &"c".to_string()), None);
    assert_eq!(find_key(&vec![], &"a".to_string()), None);
}

#[test]
fn config_value_clone_is_deep() {
    let value = ConfigValue::Hash(vec![
        ("a".to_string(), ConfigValue::Array(vec![ConfigValue::Real(1), ConfigValue::Null])),
        ("b".to_string(), ConfigValue::String("x".to_string())),
    ]);
    assert_eq!(value.clone(), value);
}
