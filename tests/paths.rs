use codable::decimal::{parse_unsigned, signed_text, unsigned_text};
use codable::{CodingKey, CodingPath, ToCodingKey};

#[test]
fn root_path_has_empty_text() {
    let root = CodingPath::root();
    assert_eq!(root.to_string(), "");
    assert_eq!(root.to_vec(), vec![CodingKey::Root]);
}

#[test]
fn joined_path_text_is_dotted() {
    let root = CodingPath::root();
    let a = root.join(CodingKey::String("a".to_string()));
    let b = a.join(CodingKey::Int(3));
    let c = b.join(CodingKey::String("name".to_string()));
    assert_eq!(a.to_string(), "a");
    assert_eq!(b.to_string(), "a.3");
    assert_eq!(c.to_string(), "a.3.name");
    assert_eq!(
        c.to_vec(),
        vec![
            CodingKey::Root,
            CodingKey::String("a".to_string()),
            CodingKey::Int(3),
            CodingKey::String("name".to_string()),
        ]
    );
    // joining leaves the parent as it was
    assert_eq!(b.to_string(), "a.3");
}

#[test]
fn iter_walks_leaf_to_root() {
    let p = CodingPath::root()
        .join(CodingKey::String("x".to_string()))
        .join(CodingKey::Int(7));
    let mut it = p.iter();
    assert_eq!(it.next(), Some(CodingKey::Int(7)));
    assert_eq!(it.next(), Some(CodingKey::String("x".to_string())));
    assert_eq!(it.next(), Some(CodingKey::Root));
    assert_eq!(it.next(), None);
    assert_eq!(it.next(), None);
}

#[test]
fn replace_changes_the_leaf_only() {
    let mut p = CodingPath::root()
        .join(CodingKey::String("items".to_string()))
        .join(CodingKey::Int(0));
    p.replace(CodingKey::Int(5));
    assert_eq!(p.to_string(), "items.5");
    assert_eq!(p.to_vec().len(), 3);
}

#[test]
fn key_texts() {
    assert_eq!(CodingKey::Root.as_str(), "");
    assert_eq!(CodingKey::Int(42).as_str(), "42");
    assert_eq!(CodingKey::String("k".to_string()).as_str(), "k");
    assert_eq!(CodingKey::Root.to_string(), "<root>");
    assert_eq!(CodingKey::Int(0).to_string(), "0");
    assert_eq!("field".to_coding_key(), CodingKey::String("field".to_string()));
    assert_eq!(ToCodingKey::as_str(&"field"), "field");
    assert_eq!("owned".to_string().to_coding_key(), CodingKey::String("owned".to_string()));
}

#[test]
fn decimal_texts() {
    assert_eq!(unsigned_text(0), "0");
    assert_eq!(unsigned_text(1238123), "1238123");
    assert_eq!(unsigned_text(u128::MAX), "340282366920938463463374607431768211455");
    assert_eq!(signed_text(-42), "-42");
    assert_eq!(signed_text(0), "0");
    assert_eq!(signed_text(i128::MIN), "-170141183460469231731687303715884105728");
}

#[test]
fn decimal_parsing() {
    assert_eq!(parse_unsigned("255", 255), Some(255));
    assert_eq!(parse_unsigned("+12", 255), Some(12));
    assert_eq!(parse_unsigned("256", 255), None);
    assert_eq!(parse_unsigned("-1", 255), None);
    assert_eq!(parse_unsigned("", 255), None);
    assert_eq!(parse_unsigned("+", 255), None);
    assert_eq!(parse_unsigned("1.5", 255), None);
    assert_eq!(parse_unsigned("007", 255), Some(7));
    assert_eq!(
        parse_unsigned("340282366920938463463374607431768211455", u128::MAX),
        Some(u128::MAX)
    );
    assert_eq!(parse_unsigned("340282366920938463463374607431768211456", u128::MAX), None);
}
