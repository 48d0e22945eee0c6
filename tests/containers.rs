use std::collections::HashMap;

use codable::dec::{self, Decode, JsonDecoder};
use codable::enc::{self, Encode, JsonEncoder};
use codable::{from_value, to_value, ObjectMap, Value};

fn num(s: &str) -> Value {
    Value::Number(s.to_string())
}

fn text(s: &str) -> Value {
    Value::String(s.to_string())
}

fn object(entries: Vec<(&str, Value)>) -> Value {
    let mut m = ObjectMap::new();
    for (k, v) in entries {
        m.insert(k.to_string(), v);
    }
    Value::Object(m)
}

#[derive(Debug, PartialEq)]
struct Hmm {
    test: u32,
    a_bool: bool,
    a_str: String,
}

impl Encode for Hmm {
    fn encode(&self, encoder: &mut JsonEncoder) -> Result<Value, enc::Error> {
        let mut con = encoder.as_container();
        con.encode(&self.test, &"test")?;
        con.encode(&self.a_bool, &"a_bool")?;
        con.encode(&self.a_str, &"a_str")?;
        Ok(con.finish())
    }
}

impl Decode for Hmm {
    fn decode(decoder: &mut JsonDecoder) -> Result<Self, dec::Error> {
        let mut con = decoder.as_container()?;
        Ok(Hmm {
            test: con.decode_u32(&"test")?,
            a_bool: con.decode_bool(&"a_bool")?,
            a_str: con.decode_string(&"a_str")?,
        })
    }
}

#[test]
fn basic_struct() {
    let hmm = Hmm {
        test: 1238123,
        a_bool: true,
        a_str: "a test string".into(),
    };

    let value = to_value(&hmm).unwrap();
    println!("{:?}", value);
    let expected = object(vec![
        ("test", num("1238123")),
        ("a_bool", Value::Bool(true)),
        ("a_str", text("a test string")),
    ]);
    assert_eq!(value, expected);
    let back: Hmm = from_value(&value).unwrap();
    assert_eq!(back, hmm);
}

#[test]
fn encode_prim() {
    let mut encoder = JsonEncoder::new();
    assert_eq!(
        123u8.encode(&mut encoder).unwrap(),
        Value::Number("123".into())
    )
}

enum Tree {
    String(&'static str),
    Dict(HashMap<&'static str, Tree>),
    Arr(Vec<Tree>),
    Number(u32),
}

impl Encode for Tree {
    fn encode(&self, encoder: &mut JsonEncoder) -> Result<Value, enc::Error> {
        match self {
            Tree::String(x) => x.encode(encoder),
            Tree::Dict(x) => {
                let mut con = encoder.as_container();
                for (k, v) in x.iter() {
                    con.encode(v, k)?;
                }
                Ok(con.finish())
            }
            Tree::Arr(x) => {
                let mut con = encoder.as_seq_container();
                for v in x.iter() {
                    con.encode(v)?;
                }
                Ok(con.finish())
            }
            Tree::Number(x) => x.encode(encoder),
        }
    }
}

#[test]
fn basic_obj() {
    let mut input = HashMap::new();
    let mut map = HashMap::new();
    map.insert("test", Tree::String("another"));
    input.insert("hello", Tree::String("hi"));
    input.insert("interesting", Tree::String("yes"));
    input.insert("lolwut", Tree::Dict(map));
    input.insert(
        "hmm",
        Tree::Arr(vec![
            Tree::String("no"),
            Tree::Number(2),
            Tree::Number(3),
            Tree::Number(42),
            Tree::Number(9),
        ]),
    );
    let value = to_value(&Tree::Dict(input)).unwrap();
    println!("{:?}", value);
    match &value {
        Value::Object(m) => {
            assert_eq!(m.len(), 4);
            assert_eq!(m.get(&"hello".to_string()), Some(&text("hi")));
            assert_eq!(
                m.get(&"hmm".to_string()),
                Some(&Value::Array(vec![text("no"), num("2"), num("3"), num("42"), num("9")]))
            );
            assert_eq!(
                m.get(&"lolwut".to_string()),
                Some(&object(vec![("test", text("another"))]))
            );
        }
        other => panic!("not an object: {:?}", other),
    }
}

#[derive(Debug)]
struct ThingA {
    tag: String,
    pew: u32,
}

#[derive(Debug)]
struct ThingB {
    tag: String,
    another: String,
}

#[derive(Debug)]
struct Base {
    tagged: Tagged,
}

#[derive(Debug)]
enum Tagged {
    ThingA(ThingA),
    ThingB(ThingB),
}

impl Encode for ThingA {
    fn encode(&self, encoder: &mut JsonEncoder) -> Result<Value, enc::Error> {
        let mut c = encoder.as_container();
        c.encode_str(&self.tag, &"tag")?;
        c.encode_u32(self.pew, &"pew")?;
        Ok(c.finish())
    }
}

impl Encode for ThingB {
    fn encode(&self, encoder: &mut JsonEncoder) -> Result<Value, enc::Error> {
        let mut c = encoder.as_container();
        c.encode_str(&self.tag, &"tag")?;
        c.encode_str(&self.another, &"another")?;
        Ok(c.finish())
    }
}

impl Encode for Tagged {
    fn encode(&self, encoder: &mut JsonEncoder) -> Result<Value, enc::Error> {
        match self {
            Tagged::ThingA(a) => a.encode(encoder),
            Tagged::ThingB(b) => b.encode(encoder),
        }
    }
}

impl Encode for Base {
    fn encode(&self, encoder: &mut JsonEncoder) -> Result<Value, enc::Error> {
        let mut c = encoder.as_container();
        c.encode(&self.tagged, &"tagged")?;
        Ok(c.finish())
    }
}

impl Decode for ThingA {
    fn decode(decoder: &mut JsonDecoder) -> Result<Self, dec::Error> {
        let mut d = decoder.as_container()?;
        Ok(ThingA {
            tag: "a".into(),
            pew: d.decode_u32(&"pew")?,
        })
    }
}

impl Decode for ThingB {
    fn decode(decoder: &mut JsonDecoder) -> Result<Self, dec::Error> {
        let mut d = decoder.as_container()?;
        Ok(ThingB {
            tag: "b".into(),
            another: d.decode_string(&"another")?,
        })
    }
}

impl Decode for Tagged {
    fn decode(decoder: &mut JsonDecoder) -> Result<Self, dec::Error> {
        let mut d = decoder.as_container()?;
        let tag = d.decode_string(&"tag")?;
        drop(d);
        match &*tag {
            "a" => Ok(Tagged::ThingA(ThingA::decode(decoder)?)),
            "b" => Ok(Tagged::ThingB(ThingB::decode(decoder)?)),
            _ => panic!(),
        }
    }
}

impl Decode for Base {
    fn decode(decoder: &mut JsonDecoder) -> Result<Self, dec::Error> {
        let mut d = decoder.as_container()?;
        Ok(Base {
            tagged: d.decode(&"tagged")?,
        })
    }
}

#[test]
fn enums() {
    let value = to_value(&Base {
        tagged: Tagged::ThingA(ThingA {
            tag: "a".into(),
            pew: 32,
        }),
    })
    .unwrap();

    println!("{:?}", &value);
    let expected = object(vec![(
        "tagged",
        object(vec![("tag", text("a")), ("pew", num("32"))]),
    )]);
    assert_eq!(value, expected);

    let base = from_value::<Base>(&value).unwrap();

    println!("{:?}", &base);
    match base.tagged {
        Tagged::ThingA(a) => {
            assert_eq!(a.pew, 32);
            assert_eq!(a.tag, "a");
        }
        Tagged::ThingB(b) => panic!("wrong variant: {:?}", b),
    }
}

#[test]
fn basic_int() {
    let value = to_value(&32_u8).unwrap();
    println!("{:?}", value);
    assert_eq!(value, num("32"));
}

#[derive(Debug)]
struct Ex {
    not: String,
}

impl Encode for Ex {
    fn encode(&self, encoder: &mut JsonEncoder) -> Result<Value, enc::Error> {
        let mut c = encoder.as_container();
        c.encode(&self.not, &"$not")?;
        Ok(c.finish())
    }
}

#[test]
fn basic_vec() {
    let value = to_value(&vec![Ex { not: "lol".into() }, Ex { not: "lol2".into() }]).unwrap();
    println!("{:?}", value);
    let value2: Value = from_value(&value).unwrap();
    println!("{:?}", value2);
    assert_eq!(value2, value);
    assert_eq!(
        value,
        Value::Array(vec![
            object(vec![("$not", text("lol"))]),
            object(vec![("$not", text("lol2"))]),
        ])
    );
}
