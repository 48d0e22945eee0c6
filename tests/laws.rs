use codable::dec::{self, Decode, JsonDecoder};
use codable::enc::{self, Encode, JsonEncoder};
use codable::{from_value, to_value, CodingKey, CodingPath, ObjectMap, Value};

fn num(s: &str) -> Value {
    Value::Number(s.to_string())
}

fn text(s: &str) -> Value {
    Value::String(s.to_string())
}

fn object(entries: Vec<(&str, Value)>) -> Value {
    let mut m = ObjectMap::new();
    for (k, v) in entries {
        m.insert(k.to_string(), v);
    }
    Value::Object(m)
}

fn invalid(p: &str) -> String {
    format!("{:?}", dec::Error::InvalidType(p.to_string()))
}

fn missing(p: &str) -> String {
    format!("{:?}", dec::Error::KeyNotFound(p.to_string()))
}

#[test]
fn value_round_trip_keeps_tree_and_order() {
    let v = object(vec![
        ("z", num("1.5")),
        ("a", Value::Array(vec![Value::Null, Value::Bool(false), text("s")])),
        ("m", object(vec![("inner", num("-3")), ("e", Value::Array(vec![]))])),
        ("n", Value::Null),
    ]);
    let encoded = to_value(&v).unwrap();
    assert_eq!(encoded, v);
    let decoded: Value = from_value(&encoded).unwrap();
    assert_eq!(decoded, v);
    match &decoded {
        Value::Object(m) => {
            assert_eq!(m.key_at(0), "z");
            assert_eq!(m.key_at(1), "a");
            assert_eq!(m.key_at(2), "m");
            assert_eq!(m.key_at(3), "n");
        }
        _ => panic!("not an object"),
    }
}

#[test]
fn value_probing_keeps_number_text() {
    let v = num("12345678901234567890123456789.000");
    let back: Value = from_value(&v).unwrap();
    assert_eq!(back, v);
    let s: Value = from_value(&text("12")).unwrap();
    assert_eq!(s, text("12"));
}

#[test]
fn vec_of_u8_round_trip() {
    let value = to_value(&vec![1u8, 2, 3]).unwrap();
    assert_eq!(value, Value::Array(vec![num("1"), num("2"), num("3")]));
    let back: Vec<u8> = from_value(&value).unwrap();
    assert_eq!(back, vec![1, 2, 3]);
}

#[test]
fn integers_round_trip_at_their_bounds() {
    assert_eq!(from_value::<u8>(&to_value(&u8::MAX).unwrap()).unwrap(), u8::MAX);
    assert_eq!(from_value::<i8>(&to_value(&i8::MIN).unwrap()).unwrap(), i8::MIN);
    assert_eq!(from_value::<u64>(&to_value(&u64::MAX).unwrap()).unwrap(), u64::MAX);
    assert_eq!(from_value::<i128>(&to_value(&i128::MIN).unwrap()).unwrap(), i128::MIN);
    assert_eq!(from_value::<u128>(&to_value(&u128::MAX).unwrap()).unwrap(), u128::MAX);
    assert_eq!(from_value::<isize>(&to_value(&-7isize).unwrap()).unwrap(), -7);
    assert_eq!(to_value(&-7i32).unwrap(), num("-7"));
}

#[test]
fn integer_out_of_range_is_invalid_type() {
    let r = from_value::<u8>(&num("256"));
    assert_eq!(format!("{:?}", r.unwrap_err()), invalid(""));
    let r = from_value::<i8>(&num("-129"));
    assert_eq!(format!("{:?}", r.unwrap_err()), invalid(""));
    let r = from_value::<u32>(&num("-1"));
    assert_eq!(format!("{:?}", r.unwrap_err()), invalid(""));
    let r = from_value::<u32>(&text("1"));
    assert_eq!(format!("{:?}", r.unwrap_err()), invalid(""));
    let r = from_value::<u32>(&Value::Null);
    assert_eq!(format!("{:?}", r.unwrap_err()), invalid(""));
    assert_eq!(from_value::<Option<u32>>(&Value::Null).unwrap(), None);
    assert_eq!(from_value::<Option<u32>>(&num("4")).unwrap(), Some(4));
}

#[test]
fn keyed_container_on_array_is_invalid_type() {
    let v = Value::Array(vec![num("1")]);
    let mut d = JsonDecoder::new(CodingPath::root(), &v);
    let r = d.as_container();
    assert!(r.is_err());
    assert_eq!(format!("{:?}", r.err().unwrap()), invalid(""));
    let path = CodingPath::root().join(CodingKey::String("list".to_string()));
    let mut d = JsonDecoder::new(path, &v);
    assert_eq!(format!("{:?}", d.as_container().err().unwrap()), invalid("list"));
}

#[test]
fn decode_option_over_keyed_container() {
    let v = object(vec![
        ("present", num("5")),
        ("wrong", text("five")),
        ("null", Value::Null),
    ]);
    let mut d = JsonDecoder::new(CodingPath::root(), &v);
    let mut c = d.as_container().unwrap();
    assert_eq!(c.decode_option::<u8, _>(&"absent").unwrap(), None);
    assert_eq!(c.decode_option::<u8, _>(&"present").unwrap(), Some(5));
    let e = c.decode_option::<u8, _>(&"null").unwrap_err();
    assert_eq!(format!("{:?}", e), invalid("null"));
    let e = c.decode_bool(&"null").unwrap_err();
    assert_eq!(format!("{:?}", e), invalid("null"));
    let e = c.decode_u8(&"null").unwrap_err();
    assert_eq!(format!("{:?}", e), invalid("null"));
    assert_eq!(c.decode_option::<Option<u8>, _>(&"null").unwrap(), Some(None));
    assert_eq!(c.decode::<Option<u8>, _>(&"present").unwrap(), Some(5));
    let e = c.decode_option::<u8, _>(&"wrong").unwrap_err();
    assert_eq!(format!("{:?}", e), invalid("wrong"));
    assert!(c.contains(&"present"));
    assert!(!c.contains(&"absent"));
    assert_eq!(c.keys(), vec!["present".to_string(), "wrong".to_string(), "null".to_string()]);
}

#[test]
fn keyed_decode_errors_name_the_place() {
    let v = object(vec![("a", object(vec![("b", text("x"))]))]);
    let mut d = JsonDecoder::new(CodingPath::root(), &v);
    let mut c = d.as_container().unwrap();
    let e = c.decode_u8(&"missing").unwrap_err();
    assert_eq!(format!("{:?}", e), missing("missing"));
    let mut inner = c.nested_container(&"a").unwrap();
    let e = inner.decode_u8(&"b").unwrap_err();
    assert_eq!(format!("{:?}", e), invalid("a.b"));
    assert_eq!(inner.decode_string(&"b").unwrap(), "x");
    assert_eq!(inner.opt_decode_u16(&"none").unwrap(), None);
    assert_eq!(inner.opt_decode_string(&"b").unwrap(), Some("x".to_string()));
    assert!(inner.decode_bool(&"b").is_err());
    let e = c.nested_seq_container(&"a").err().unwrap();
    assert_eq!(format!("{:?}", e), invalid("a"));
}

#[test]
fn sequence_cursor_moves_one_per_read() {
    let v = Value::Array(vec![num("1"), text("two"), num("3")]);
    let mut d = JsonDecoder::new(CodingPath::root(), &v);
    let mut s = d.as_seq_container().unwrap();
    assert_eq!(s.cursor_index(), 0);
    assert_eq!(s.len(), 3);
    assert_eq!(s.decode_u8().unwrap(), 1);
    assert_eq!(s.cursor_index(), 1);
    let e = s.decode_u8().unwrap_err();
    assert_eq!(format!("{:?}", e), invalid("1"));
    assert_eq!(s.cursor_index(), 1);
    assert_eq!(s.decode_string().unwrap(), "two");
    assert_eq!(s.decode::<u64>().unwrap(), 3);
    assert_eq!(s.cursor_index(), s.len());
    let e = s.decode::<u64>().unwrap_err();
    assert_eq!(format!("{:?}", e), missing("3"));
    assert_eq!(s.cursor_index(), 3);
}

#[test]
fn sequence_decode_option_reads_null_as_none() {
    let v = Value::Array(vec![Value::Null, num("4")]);
    let r: Vec<Option<u8>> = {
        let mut d = JsonDecoder::new(CodingPath::root(), &v);
        let mut s = d.as_seq_container().unwrap();
        let mut out = vec![];
        while s.cursor_index() != s.len() {
            out.push(s.decode_option::<u8>().unwrap());
        }
        out
    };
    assert_eq!(r, vec![None, Some(4)]);
}

#[test]
fn vec_decode_reports_first_failing_item() {
    let v = Value::Array(vec![num("1"), text("x"), Value::Bool(true)]);
    let e = from_value::<Vec<u8>>(&v).unwrap_err();
    assert_eq!(format!("{:?}", e), invalid("1"));
    let e = from_value::<Vec<u8>>(&num("1")).unwrap_err();
    assert_eq!(format!("{:?}", e), invalid(""));
}

#[test]
fn scalar_container_reads() {
    let n = Value::Null;
    let mut d = JsonDecoder::new(CodingPath::root(), &n);
    let mut c = d.as_value_container().unwrap();
    assert!(c.decode_null().is_ok());
    assert_eq!(c.decode_option::<bool>().unwrap(), None);
    let b = Value::Bool(true);
    let mut d = JsonDecoder::new(CodingPath::root(), &b);
    let mut c = d.as_value_container().unwrap();
    assert!(c.decode_null().is_err());
    assert_eq!(c.decode_bool().unwrap(), true);
    assert_eq!(c.decode_option::<bool>().unwrap(), Some(true));
    let t = num("77");
    let mut d = JsonDecoder::new(CodingPath::root(), &t);
    let mut c = d.as_value_container().unwrap();
    assert_eq!(c.decode_number().unwrap(), "77");
    assert_eq!(c.decode_i16().unwrap(), 77);
    let a = Value::Array(vec![]);
    let mut d = JsonDecoder::new(CodingPath::root(), &a);
    assert!(d.as_value_container().is_err());
}

#[test]
fn custom_error_carries_path_and_message() {
    let e = dec::Error::custom("a.b".to_string(), "bad".to_string());
    assert_eq!(format!("{:?}", e), format!("{:?}", dec::Error::Custom("a.b".to_string(), "bad".to_string())));
}

#[test]
fn keyed_encode_options_and_overwrites() {
    let mut encoder = JsonEncoder::new();
    let mut c = encoder.as_container();
    c.encode_u8(1, &"a").unwrap();
    c.encode_option::<u8, _>(None, &"b").unwrap();
    c.opt_encode_u8(None, &"c").unwrap();
    c.opt_encode_i64(Some(-9), &"d").unwrap();
    c.encode_str("s", &"e").unwrap();
    c.encode_bool(false, &"a").unwrap();
    c.opt_encode_str(Some("t"), &"f").unwrap();
    let v = c.finish();
    assert_eq!(
        v,
        object(vec![
            ("a", Value::Bool(false)),
            ("b", Value::Null),
            ("d", num("-9")),
            ("e", text("s")),
            ("f", text("t")),
        ])
    );
}

#[test]
fn scalar_encode_overwrites_and_defaults_to_null() {
    let mut encoder = JsonEncoder::new();
    let c = encoder.as_value_container();
    assert_eq!(c.finish(), Value::Null);
    let mut c = encoder.as_value_container();
    c.encode_u16(3).unwrap();
    c.encode_str("x").unwrap();
    assert_eq!(c.finish(), text("x"));
    let mut s = encoder.as_seq_container();
    s.encode_i8(-1).unwrap();
    s.encode_null().unwrap();
    s.encode_option(Some(&true)).unwrap();
    s.encode_option::<bool>(None).unwrap();
    assert_eq!(s.len(), 4);
    assert_eq!(
        s.finish(),
        Value::Array(vec![num("-1"), Value::Null, Value::Bool(true), Value::Null])
    );
}

struct Failing;

impl Encode for Failing {
    fn encode(&self, encoder: &mut JsonEncoder) -> Result<Value, enc::Error> {
        Err(enc::Error::InvalidType(encoder.coding_path().to_string()))
    }
}

struct Missing;

impl Encode for Missing {
    fn encode(&self, encoder: &mut JsonEncoder) -> Result<Value, enc::Error> {
        Err(enc::Error::KeyNotFound(encoder.coding_path().to_string()))
    }
}

#[test]
fn encode_errors_pass_through_containers() {
    let mut encoder = JsonEncoder::new();
    let mut c = encoder.as_container();
    c.encode_u8(1, &"a").unwrap();
    assert_eq!(c.encode(&Failing, &"b"), Err(enc::Error::InvalidType("b".to_string())));
    assert_eq!(c.finish(), object(vec![("a", num("1"))]));
    assert_eq!(to_value(&Missing), Err(enc::Error::KeyNotFound("".to_string())));
    assert_eq!(to_value(&vec![Missing]), Err(enc::Error::KeyNotFound("0".to_string())));
}

#[test]
fn object_map_insert_keeps_first_place() {
    let mut m = ObjectMap::new();
    m.insert("a".to_string(), num("1"));
    m.insert("b".to_string(), num("2"));
    m.insert("a".to_string(), num("3"));
    assert_eq!(m.len(), 2);
    assert_eq!(m.key_at(0), "a");
    assert_eq!(m.value_at(0), &num("3"));
    assert_eq!(m.position(&"b".to_string()), Some(1));
    assert!(!m.contains_key(&"c".to_string()));
    assert!(Value::Null.is_scalar());
    assert!(!Value::Object(m).is_scalar());
}

struct Pair {
    left: Option<u8>,
    right: String,
}

impl Decode for Pair {
    fn decode(decoder: &mut JsonDecoder) -> Result<Self, dec::Error> {
        let mut c = decoder.as_container()?;
        Ok(Pair {
            left: c.decode::<Option<u8>, _>(&"left")?,
            right: c.decode(&"right")?,
        })
    }
}

#[test]
fn option_field_round_trip_through_null() {
    let mut encoder = JsonEncoder::new();
    let mut c = encoder.as_container();
    c.encode_option::<u8, _>(None, &"left").unwrap();
    c.encode(&"r".to_string(), &"right").unwrap();
    let v = c.finish();
    let p: Pair = from_value(&v).unwrap();
    assert_eq!(p.left, None);
    assert_eq!(p.right, "r");
}

#[test]
fn object_map_round_trip() {
    let mut m = ObjectMap::new();
    m.insert("b".to_string(), num("2"));
    m.insert("a".to_string(), Value::Array(vec![text("x")]));
    let v = to_value(&m).unwrap();
    assert_eq!(v, object(vec![("b", num("2")), ("a", Value::Array(vec![text("x")]))]));
    let back: ObjectMap = from_value(&v).unwrap();
    assert_eq!(back, m);
    let e = from_value::<ObjectMap>(&Value::Array(vec![])).unwrap_err();
    assert_eq!(format!("{:?}", e), invalid(""));
}

#[test]
fn references_encode_as_their_target() {
    let s = "x".to_string();
    assert_eq!(to_value(&&s).unwrap(), text("x"));
    assert_eq!(to_value(&&5u8).unwrap(), num("5"));
    assert_eq!(
        to_value(&vec!["a", "b"]).unwrap(),
        Value::Array(vec![text("a"), text("b")])
    );
}

#[test]
fn slices_encode_as_arrays() {
    let items: &[u16] = &[7, 8];
    assert_eq!(to_value(&items).unwrap(), Value::Array(vec![num("7"), num("8")]));
}

#[test]
fn fresh_encoder_stands_at_the_root() {
    let mut encoder = JsonEncoder::new();
    assert_eq!(encoder.coding_path().to_vec(), vec![CodingKey::Root]);
    let c = encoder.as_value_container();
    assert_eq!(c.coding_path().to_vec(), vec![CodingKey::Root]);
}
