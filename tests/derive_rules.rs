use codable::derive::{
    encode_enum, encode_struct, rename_input, wire_key, AttrItem, CodableAttrAttrs, CodableAttrs,
    EnumVariant, FieldValue, RenameStyle, StructField, TagError, TagPair,
};
use codable::{ObjectMap, Value};

fn num(s: &str) -> Value {
    Value::Number(s.to_string())
}

fn text(s: &str) -> Value {
    Value::String(s.to_string())
}

fn object(entries: Vec<(&str, Value)>) -> Value {
    let mut m = ObjectMap::new();
    for (k, v) in entries {
        m.insert(k.to_string(), v);
    }
    Value::Object(m)
}

fn tag(name: &str, value: Value) -> TagPair {
    TagPair { name: name.to_string(), value }
}

#[test]
fn kebab_case_rename() {
    assert_eq!(rename_input(RenameStyle::KebabCase, "a_bool"), "a-bool");
    assert_eq!(rename_input(RenameStyle::KebabCase, "AnotherOne"), "another-one");
}

#[test]
fn other_rename_styles() {
    assert_eq!(rename_input(RenameStyle::CamelCase, "a_bool"), "aBool");
    assert_eq!(rename_input(RenameStyle::PascalCase, "a_bool"), "ABool");
    assert_eq!(rename_input(RenameStyle::SnakeCase, "AnotherOne"), "another_one");
}

#[test]
fn rename_style_names() {
    assert_eq!(RenameStyle::from_string("camel-case"), Some(RenameStyle::CamelCase));
    assert_eq!(RenameStyle::from_string("pascal-case"), Some(RenameStyle::PascalCase));
    assert_eq!(RenameStyle::from_string("kebab-case"), Some(RenameStyle::KebabCase));
    assert_eq!(RenameStyle::from_string("snake-case"), Some(RenameStyle::SnakeCase));
    assert_eq!(RenameStyle::from_string("kebab"), None);
    assert_eq!(RenameStyle::from_string(""), None);
}

#[test]
fn wire_key_prefers_own_literal() {
    assert_eq!(wire_key(Some(RenameStyle::KebabCase), &Some("test".to_string()), "AnotherOne"), "test");
    assert_eq!(wire_key(Some(RenameStyle::KebabCase), &None, "q_r_s"), "q-r-s");
    assert_eq!(wire_key(None, &None, "q_r_s"), "q_r_s");
}

#[test]
fn enum_variant_with_own_key_and_no_tags() {
    let attrs = CodableAttrs { tag: vec![], rename: Some(RenameStyle::KebabCase) };
    let variant = EnumVariant {
        ident: "AnotherOne".to_string(),
        attrs: CodableAttrAttrs { rename: Some("test".to_string()) },
    };
    assert_eq!(encode_enum(&attrs, &variant), text("test"));
    let plain = EnumVariant { ident: "Potato".to_string(), attrs: CodableAttrAttrs { rename: None } };
    assert_eq!(encode_enum(&attrs, &plain), text("potato"));
}

#[test]
fn enum_with_tags_is_an_object() {
    let attrs = CodableAttrs {
        tag: vec![tag("type", text("LeEnum")), tag("second", num("42"))],
        rename: Some(RenameStyle::KebabCase),
    };
    let variant = EnumVariant { ident: "Potato".to_string(), attrs: CodableAttrAttrs { rename: None } };
    assert_eq!(
        encode_enum(&attrs, &variant),
        object(vec![("type", text("LeEnum")), ("second", num("42")), ("value", text("potato"))])
    );
}

#[test]
fn struct_fields_follow_tags_under_wire_keys() {
    let attrs = CodableAttrs {
        tag: vec![tag("type", text("blep")), tag("type2", text("blep2"))],
        rename: Some(RenameStyle::KebabCase),
    };
    let fields = vec![
        StructField {
            ident: "a_bool".to_string(),
            attrs: CodableAttrAttrs { rename: None },
            value: FieldValue::Plain(Value::Bool(true)),
        },
        StructField {
            ident: "q_r_s".to_string(),
            attrs: CodableAttrAttrs { rename: None },
            value: FieldValue::Optional(None),
        },
        StructField {
            ident: "p".to_string(),
            attrs: CodableAttrAttrs { rename: Some("P".to_string()) },
            value: FieldValue::Optional(Some(num("3"))),
        },
    ];
    assert_eq!(
        encode_struct(&attrs, &fields),
        object(vec![
            ("type", text("blep")),
            ("type2", text("blep2")),
            ("a-bool", Value::Bool(true)),
            ("q-r-s", Value::Null),
            ("P", num("3")),
        ])
    );
}

#[test]
fn struct_without_attributes_keeps_names() {
    let attrs = CodableAttrs { tag: vec![], rename: None };
    let fields = vec![
        StructField {
            ident: "test".to_string(),
            attrs: CodableAttrAttrs { rename: None },
            value: FieldValue::Plain(num("1238123")),
        },
        StructField {
            ident: "a_bool".to_string(),
            attrs: CodableAttrAttrs { rename: None },
            value: FieldValue::Plain(Value::Bool(true)),
        },
        StructField {
            ident: "a_str".to_string(),
            attrs: CodableAttrAttrs { rename: None },
            value: FieldValue::Plain(text("a test string")),
        },
    ];
    assert_eq!(
        encode_struct(&attrs, &fields),
        object(vec![
            ("test", num("1238123")),
            ("a_bool", Value::Bool(true)),
            ("a_str", text("a test string")),
        ])
    );
}

#[test]
fn tag_pair_from_list() {
    let ok = TagPair::from_list(&vec![AttrItem::Lit(text("type")), AttrItem::Lit(num("42"))]).unwrap();
    assert_eq!(ok.name, "type");
    assert_eq!(ok.value, num("42"));
    assert_eq!(
        TagPair::from_list(&vec![AttrItem::Lit(text("type"))]).err(),
        Some(TagError::Count(1))
    );
    assert_eq!(
        TagPair::from_list(&vec![AttrItem::Lit(num("1")), AttrItem::Lit(num("2"))]).err(),
        Some(TagError::NameNotString)
    );
    assert_eq!(
        TagPair::from_list(&vec![AttrItem::Meta, AttrItem::Lit(num("2"))]).err(),
        Some(TagError::NameNotString)
    );
    assert_eq!(
        TagPair::from_list(&vec![AttrItem::Lit(text("n")), AttrItem::Meta]).err(),
        Some(TagError::ValueNotLiteral)
    );
}

#[test]
fn variant_index_finds_first_matching_key() {
    let keys = vec!["a".to_string(), "potato".to_string(), "a".to_string()];
    assert_eq!(codable::derive::variant_index(&keys, &"a".to_string()), Some(0));
    assert_eq!(codable::derive::variant_index(&keys, &"potato".to_string()), Some(1));
    assert_eq!(codable::derive::variant_index(&keys, &"b".to_string()), None);
}
