use hocon::{Hocon, HoconLoader};
use widget_config::{AttrMap, AttrValue, ConfigValue, PrimitiveValue, WidgetDefinition, WidgetUse};

fn from_hocon(value: Hocon) -> ConfigValue {
    match value {
        Hocon::Real(x) => ConfigValue::Real(x.to_bits()),
        Hocon::Integer(n) => ConfigValue::Integer(n),
        Hocon::String(s) => ConfigValue::String(s),
        Hocon::Boolean(b) => ConfigValue::Boolean(b),
        Hocon::Array(items) => ConfigValue::Array(items.into_iter().map(from_hocon).collect()),
        Hocon::Hash(entries) => {
            ConfigValue::Hash(entries.into_iter().map(|(key, value)| (key, from_hocon(value))).collect())
        }
        Hocon::Null => ConfigValue::Null,
        Hocon::BadValue(_) => ConfigValue::Null,
    }
}

fn parse_hocon(text: &str) -> Result<ConfigValue, hocon::Error> {
    Ok(from_hocon(HoconLoader::new().strict().load_str(text.trim())?.hocon()?))
}

fn text(value: &str) -> AttrValue {
    AttrValue::Concrete(PrimitiveValue::String(value.to_string()))
}

#[test]
fn test_parse_widget_use() {
    let input_complex = r#"{
            widget_name: {
                value: "test"
                children: [
                    { child: {} }
                    { child: { children: ["hi"] } }
                ]
            }
        }"#;
    let mut attrs = AttrMap::new();
    attrs.insert("value".to_string(), text("test"));
    let expected = WidgetUse {
        name: "widget_name".to_string(),
        children: vec![
            WidgetUse::new("child".to_string(), vec![]),
            WidgetUse::new("child".to_string(), vec![WidgetUse::simple_text(text("hi"))]),
        ],
        attrs,
    };
    assert_eq!(
        WidgetUse::parse_hocon(parse_hocon(input_complex).unwrap().clone()).unwrap(),
        expected
    );
}

#[test]
fn test_parse_widget_definition() {
    let input_complex = r#"{
            structure: { foo: {} }
        }"#;
    let expected = WidgetDefinition {
        name: "widget_name".to_string(),
        structure: WidgetUse::new("foo".to_string(), vec![]),
        size: None,
    };
    assert_eq!(
        WidgetDefinition::parse_hocon("widget_name".to_string(), &parse_hocon(input_complex).unwrap()).unwrap(),
        expected
    );
}

#[test]
fn definition_size_from_document() {
    let document = r#"{
            structure: { foo: {} }
            size_x: 640
            size_y: "480"
        }"#;
    let made = WidgetDefinition::parse_hocon("sized".to_string(), &parse_hocon(document).unwrap()).unwrap();
    assert_eq!(made.size, Some((640, 480)));
    assert_eq!(made.name, "sized");
}

#[test]
fn document_numbers_and_booleans_become_attributes() {
    let document = r#"{ w: { Count: 3, ratio: 1.5, shown: true } }"#;
    let made = WidgetUse::parse_hocon(parse_hocon(document).unwrap()).unwrap();
    assert_eq!(made.name, "w");
    assert!(made.children.is_empty());
    assert_eq!(made.attrs.len(), 3);
    assert_eq!(made.get_attr("count").unwrap(), &AttrValue::Concrete(PrimitiveValue::Integer(3)));
    assert_eq!(
        made.get_attr("ratio").unwrap(),
        &AttrValue::Concrete(PrimitiveValue::Real(1.5f64.to_bits()))
    );
    assert_eq!(made.get_attr("shown").unwrap(), &AttrValue::Concrete(PrimitiveValue::Boolean(true)));
}
