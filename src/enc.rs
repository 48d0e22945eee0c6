//! Writing values into a document tree.
use vstd::prelude::*;

use crate::coding_path::{key_texts, CodingKey, CodingPath, ToCodingKey};
use crate::decimal::{decimal, signed_decimal, signed_text, unsigned_text};
use crate::value::{insert_entry, keys_unique, lemma_insert_prefix, ObjectMap, Value, ValueModel};

verus! {

broadcast use vstd::std_specs::vec::axiom_vec_index_decreases;

/// Why encoding failed, with the dotted path of the place where it did.
#[derive(Debug, PartialEq, Eq)]
pub enum Error {
    KeyNotFound(String),
    InvalidType(String),
}

/// A value that can be written as a document tree.
pub trait Encode {
    /// What encoding gives: the tree, or the error. A type that does not
    /// state it makes no claim.
    open spec fn encoding(&self) -> Result<ValueModel, Error> {
        arbitrary()
    }

    fn encode(&self, encoder: &mut JsonEncoder) -> (r: Result<Value, Error>)
        ensures
            *final(encoder) == *old(encoder),
            match r {
                Ok(v) => self.encoding() == Ok::<ValueModel, Error>(v@),
                Err(e) => self.encoding() == Err::<ValueModel, Error>(e),
            },
    ;
}

/// What encoding the items of a sequence gives: every tree in order, or the
/// first error.
pub open spec fn encode_items<T: Encode>(s: Seq<T>) -> Result<Seq<ValueModel>, Error>
    decreases s.len(),
{
    if s.len() == 0 {
        Ok(Seq::empty())
    } else {
        match encode_items(s.drop_last()) {
            Err(e) => Err(e),
            Ok(ms) => match s.last().encoding() {
                Ok(m) => Ok(ms.push(m)),
                Err(e) => Err(e),
            },
        }
    }
}

/// The entry point of encoding: it stands at one location and hands out one
/// container for the value written there.
#[derive(Debug)]
pub struct JsonEncoder {
    coding_path: CodingPath,
}

impl JsonEncoder {
    /// The keys of the location, from the root.
    pub closed spec fn path_keys(&self) -> Seq<CodingKey> {
        self.coding_path.keys()
    }

    /// The texts of those keys.
    pub open spec fn at(&self) -> Seq<Seq<char>> {
        key_texts(self.path_keys())
    }

    pub fn new() -> (r: JsonEncoder)
        ensures
            r.path_keys() == seq![CodingKey::Root],
    {
        JsonEncoder { coding_path: CodingPath::root() }
    }

    pub fn with_path(coding_path: CodingPath) -> (r: JsonEncoder)
        ensures
            r.path_keys() == coding_path.keys(),
    {
        JsonEncoder { coding_path }
    }

    pub fn coding_path(&self) -> (r: &CodingPath)
        ensures
            r.keys() == self.path_keys(),
    {
        &self.coding_path
    }

    pub fn as_container(&mut self) -> (r: KeyedContainer)
        ensures
            *final(self) == *old(self),
            r.path_keys() == old(self).path_keys(),
            r.entries() == Seq::<(Seq<char>, ValueModel)>::empty(),
    {
        KeyedContainer { coding_path: self.coding_path.clone(), value: ObjectMap::new() }
    }

    pub fn as_value_container(&mut self) -> (r: ValueContainer)
        ensures
            *final(self) == *old(self),
            r.path_keys() == old(self).path_keys(),
            r.written() == None::<ValueModel>,
    {
        ValueContainer::new(self.coding_path.clone())
    }

    pub fn as_seq_container(&mut self) -> (r: SeqContainer)
        ensures
            *final(self) == *old(self),
            r.path_keys() == old(self).path_keys(),
            r.items() == Seq::<ValueModel>::empty(),
    {
        SeqContainer::new(self.coding_path.clone())
    }
}

/// Writes the entries of an object.
pub struct KeyedContainer {
    coding_path: CodingPath,
    value: ObjectMap,
}

impl KeyedContainer {
    /// The keys of the location, from the root.
    pub closed spec fn path_keys(&self) -> Seq<CodingKey> {
        self.coding_path.keys()
    }

    /// The texts of those keys.
    pub open spec fn at(&self) -> Seq<Seq<char>> {
        key_texts(self.path_keys())
    }

    /// The entries written so far.
    pub closed spec fn entries(&self) -> Seq<(Seq<char>, ValueModel)> {
        self.value@
    }

    pub fn coding_path(&self) -> (r: &CodingPath)
        ensures
            r.keys() == self.path_keys(),
    {
        &self.coding_path
    }

    fn put(&mut self, key: String, v: Value)
        ensures
            final(self).path_keys() == old(self).path_keys(),
            final(self).entries() == insert_entry(old(self).entries(), key@, v@),
    {
        self.value.insert(key, v);
    }

    pub fn encode_u8<K: ToCodingKey>(&mut self, value: u8, key: &K) -> (r: Result<(), Error>)
        ensures
            r is Ok,
            final(self).at() == old(self).at(),
            final(self).entries() == insert_entry(old(self).entries(), key.key_text(), ValueModel::Number(decimal(value as nat))),
    {
        self.put(key.as_str(), Value::Number(unsigned_text(value as u128)));
        Ok(())
    }
    pub fn encode_u16<K: ToCodingKey>(&mut self, value: u16, key: &K) -> (r: Result<(), Error>)
        ensures
            r is Ok,
            final(self).at() == old(self).at(),
            final(self).entries() == insert_entry(old(self).entries(), key.key_text(), ValueModel::Number(decimal(value as nat))),
    {
        self.put(key.as_str(), Value::Number(unsigned_text(value as u128)));
        Ok(())
    }
    pub fn encode_u32<K: ToCodingKey>(&mut self, value: u32, key: &K) -> (r: Result<(), Error>)
        ensures
            r is Ok,
            final(self).at() == old(self).at(),
            final(self).entries() == insert_entry(old(self).entries(), key.key_text(), ValueModel::Number(decimal(value as nat))),
    {
        self.put(key.as_str(), Value::Number(unsigned_text(value as u128)));
        Ok(())
    }
    pub fn encode_u64<K: ToCodingKey>(&mut self, value: u64, key: &K) -> (r: Result<(), Error>)
        ensures
            r is Ok,
            final(self).at() == old(self).at(),
            final(self).entries() == insert_entry(old(self).entries(), key.key_text(), ValueModel::Number(decimal(value as nat))),
    {
        self.put(key.as_str(), Value::Number(unsigned_text(value as u128)));
        Ok(())
    }
    pub fn encode_u128<K: ToCodingKey>(&mut self, value: u128, key: &K) -> (r: Result<(), Error>)
        ensures
            r is Ok,
            final(self).at() == old(self).at(),
            final(self).entries() == insert_entry(old(self).entries(), key.key_text(), ValueModel::Number(decimal(value as nat))),
    {
        self.put(key.as_str(), Value::Number(unsigned_text(value as u128)));
        Ok(())
    }
    pub fn encode_usize<K: ToCodingKey>(&mut self, value: usize, key: &K) -> (r: Result<(), Error>)
        ensures
            r is Ok,
            final(self).at() == old(self).at(),
            final(self).entries() == insert_entry(old(self).entries(), key.key_text(), ValueModel::Number(decimal(value as nat))),
    {
        self.put(key.as_str(), Value::Number(unsigned_text(value as u128)));
        Ok(())
    }
    pub fn encode_i8<K: ToCodingKey>(&mut self, value: i8, key: &K) -> (r: Result<(), Error>)
        ensures
            r is Ok,
            final(self).at() == old(self).at(),
            final(self).entries() == insert_entry(old(self).entries(), key.key_text(), ValueModel::Number(signed_decimal(value as int))),
    {
        self.put(key.as_str(), Value::Number(signed_text(value as i128)));
        Ok(())
    }
    pub fn encode_i16<K: ToCodingKey>(&mut self, value: i16, key: &K) -> (r: Result<(), Error>)
        ensures
            r is Ok,
            final(self).at() == old(self).at(),
            final(self).entries() == insert_entry(old(self).entries(), key.key_text(), ValueModel::Number(signed_decimal(value as int))),
    {
        self.put(key.as_str(), Value::Number(signed_text(value as i128)));
        Ok(())
    }
    pub fn encode_i32<K: ToCodingKey>(&mut self, value: i32, key: &K) -> (r: Result<(), Error>)
        ensures
            r is Ok,
            final(self).at() == old(self).at(),
            final(self).entries() == insert_entry(old(self).entries(), key.key_text(), ValueModel::Number(signed_decimal(value as int))),
    {
        self.put(key.as_str(), Value::Number(signed_text(value as i128)));
        Ok(())
    }
    pub fn encode_i64<K: ToCodingKey>(&mut self, value: i64, key: &K) -> (r: Result<(), Error>)
        ensures
            r is Ok,
            final(self).at() == old(self).at(),
            final(self).entries() == insert_entry(old(self).entries(), key.key_text(), ValueModel::Number(signed_decimal(value as int))),
    {
        self.put(key.as_str(), Value::Number(signed_text(value as i128)));
        Ok(())
    }
    pub fn encode_i128<K: ToCodingKey>(&mut self, value: i128, key: &K) -> (r: Result<(), Error>)
        ensures
            r is Ok,
            final(self).at() == old(self).at(),
            final(self).entries() == insert_entry(old(self).entries(), key.key_text(), ValueModel::Number(signed_decimal(value as int))),
    {
        self.put(key.as_str(), Value::Number(signed_text(value as i128)));
        Ok(())
    }
    pub fn encode_isize<K: ToCodingKey>(&mut self, value: isize, key: &K) -> (r: Result<(), Error>)
        ensures
            r is Ok,
            final(self).at() == old(self).at(),
            final(self).entries() == insert_entry(old(self).entries(), key.key_text(), ValueModel::Number(signed_decimal(value as int))),
    {
        self.put(key.as_str(), Value::Number(signed_text(value as i128)));
        Ok(())
    }
    /// Writes `value` under `key` where there is one; writes nothing otherwise.
    pub fn opt_encode_u8<K: ToCodingKey>(&mut self, value: Option<u8>, key: &K) -> (r: Result<(), Error>)
        ensures
            r is Ok,
            final(self).at() == old(self).at(),
            final(self).entries() == match value {
                Some(x) => insert_entry(old(self).entries(), key.key_text(), ValueModel::Number(decimal(x as nat))),
                None => old(self).entries(),
            },
    {
        match value {
            Some(x) => self.encode_u8(x, key),
            None => Ok(()),
        }
    }
    /// Writes `value` under `key` where there is one; writes nothing otherwise.
    pub fn opt_encode_u16<K: ToCodingKey>(&mut self, value: Option<u16>, key: &K) -> (r: Result<(), Error>)
        ensures
            r is Ok,
            final(self).at() == old(self).at(),
            final(self).entries() == match value {
                Some(x) => insert_entry(old(self).entries(), key.key_text(), ValueModel::Number(decimal(x as nat))),
                None => old(self).entries(),
            },
    {
        match value {
            Some(x) => self.encode_u16(x, key),
            None => Ok(()),
        }
    }
    /// Writes `value` under `key` where there is one; writes nothing otherwise.
    pub fn opt_encode_u32<K: ToCodingKey>(&mut self, value: Option<u32>, key: &K) -> (r: Result<(), Error>)
        ensures
            r is Ok,
            final(self).at() == old(self).at(),
            final(self).entries() == match value {
                Some(x) => insert_entry(old(self).entries(), key.key_text(), ValueModel::Number(decimal(x as nat))),
                None => old(self).entries(),
            },
    {
        match value {
            Some(x) => self.encode_u32(x, key),
            None => Ok(()),
        }
    }
    /// Writes `value` under `key` where there is one; writes nothing otherwise.
    pub fn opt_encode_u64<K: ToCodingKey>(&mut self, value: Option<u64>, key: &K) -> (r: Result<(), Error>)
        ensures
            r is Ok,
            final(self).at() == old(self).at(),
            final(self).entries() == match value {
                Some(x) => insert_entry(old(self).entries(), key.key_text(), ValueModel::Number(decimal(x as nat))),
                None => old(self).entries(),
            },
    {
        match value {
            Some(x) => self.encode_u64(x, key),
            None => Ok(()),
        }
    }
    /// Writes `value` under `key` where there is one; writes nothing otherwise.
    pub fn opt_encode_u128<K: ToCodingKey>(&mut self, value: Option<u128>, key: &K) -> (r: Result<(), Error>)
        ensures
            r is Ok,
            final(self).at() == old(self).at(),
            final(self).entries() == match value {
                Some(x) => insert_entry(old(self).entries(), key.key_text(), ValueModel::Number(decimal(x as nat))),
                None => old(self).entries(),
            },
    {
        match value {
            Some(x) => self.encode_u128(x, key),
            None => Ok(()),
        }
    }
    /// Writes `value` under `key` where there is one; writes nothing otherwise.
    pub fn opt_encode_usize<K: ToCodingKey>(&mut self, value: Option<usize>, key: &K) -> (r: Result<(), Error>)
        ensures
            r is Ok,
            final(self).at() == old(self).at(),
            final(self).entries() == match value {
                Some(x) => insert_entry(old(self).entries(), key.key_text(), ValueModel::Number(decimal(x as nat))),
                None => old(self).entries(),
            },
    {
        match value {
            Some(x) => self.encode_usize(x, key),
            None => Ok(()),
        }
    }
    /// Writes `value` under `key` where there is one; writes nothing otherwise.
    pub fn opt_encode_i8<K: ToCodingKey>(&mut self, value: Option<i8>, key: &K) -> (r: Result<(), Error>)
        ensures
            r is Ok,
            final(self).at() == old(self).at(),
            final(self).entries() == match value {
                Some(x) => insert_entry(old(self).entries(), key.key_text(), ValueModel::Number(signed_decimal(x as int))),
                None => old(self).entries(),
            },
    {
        match value {
            Some(x) => self.encode_i8(x, key),
            None => Ok(()),
        }
    }
    /// Writes `value` under `key` where there is one; writes nothing otherwise.
    pub fn opt_encode_i16<K: ToCodingKey>(&mut self, value: Option<i16>, key: &K) -> (r: Result<(), Error>)
        ensures
            r is Ok,
            final(self).at() == old(self).at(),
            final(self).entries() == match value {
                Some(x) => insert_entry(old(self).entries(), key.key_text(), ValueModel::Number(signed_decimal(x as int))),
                None => old(self).entries(),
            },
    {
        match value {
            Some(x) => self.encode_i16(x, key),
            None => Ok(()),
        }
    }
    /// Writes `value` under `key` where there is one; writes nothing otherwise.
    pub fn opt_encode_i32<K: ToCodingKey>(&mut self, value: Option<i32>, key: &K) -> (r: Result<(), Error>)
        ensures
            r is Ok,
            final(self).at() == old(self).at(),
            final(self).entries() == match value {
                Some(x) => insert_entry(old(self).entries(), key.key_text(), ValueModel::Number(signed_decimal(x as int))),
                None => old(self).entries(),
            },
    {
        match value {
            Some(x) => self.encode_i32(x, key),
            None => Ok(()),
        }
    }
    /// Writes `value` under `key` where there is one; writes nothing otherwise.
    pub fn opt_encode_i64<K: ToCodingKey>(&mut self, value: Option<i64>, key: &K) -> (r: Result<(), Error>)
        ensures
            r is Ok,
            final(self).at() == old(self).at(),
            final(self).entries() == match value {
                Some(x) => insert_entry(old(self).entries(), key.key_text(), ValueModel::Number(signed_decimal(x as int))),
                None => old(self).entries(),
            },
    {
        match value {
            Some(x) => self.encode_i64(x, key),
            None => Ok(()),
        }
    }
    /// Writes `value` under `key` where there is one; writes nothing otherwise.
    pub fn opt_encode_i128<K: ToCodingKey>(&mut self, value: Option<i128>, key: &K) -> (r: Result<(), Error>)
        ensures
            r is Ok,
            final(self).at() == old(self).at(),
            final(self).entries() == match value {
                Some(x) => insert_entry(old(self).entries(), key.key_text(), ValueModel::Number(signed_decimal(x as int))),
                None => old(self).entries(),
            },
    {
        match value {
            Some(x) => self.encode_i128(x, key),
            None => Ok(()),
        }
    }
    /// Writes `value` under `key` where there is one; writes nothing otherwise.
    pub fn opt_encode_isize<K: ToCodingKey>(&mut self, value: Option<isize>, key: &K) -> (r: Result<(), Error>)
        ensures
            r is Ok,
            final(self).at() == old(self).at(),
            final(self).entries() == match value {
                Some(x) => insert_entry(old(self).entries(), key.key_text(), ValueModel::Number(signed_decimal(x as int))),
                None => old(self).entries(),
            },
    {
        match value {
            Some(x) => self.encode_isize(x, key),
            None => Ok(()),
        }
    }
    /// Writes a number given by its decimal text under `key`.
    pub fn encode_number<K: ToCodingKey>(&mut self, text: &str, key: &K) -> (r: Result<(), Error>)
        ensures
            r is Ok,
            final(self).path_keys() == old(self).path_keys(),
            final(self).entries() == insert_entry(old(self).entries(), key.key_text(), ValueModel::Number(text@)),
    {
        self.put(key.as_str(), Value::Number(String::from_str(text)));
        Ok(())
    }

    pub fn encode_str<K: ToCodingKey>(&mut self, value: &str, key: &K) -> (r: Result<(), Error>)
        ensures
            r is Ok,
            final(self).path_keys() == old(self).path_keys(),
            final(self).entries() == insert_entry(old(self).entries(), key.key_text(), ValueModel::String(value@)),
    {
        self.put(key.as_str(), Value::String(String::from_str(value)));
        Ok(())
    }

    /// Writes `value` under `key` where there is one; writes nothing otherwise.
    pub fn opt_encode_str<K: ToCodingKey>(&mut self, value: Option<&str>, key: &K) -> (r: Result<(), Error>)
        ensures
            r is Ok,
            final(self).path_keys() == old(self).path_keys(),
            final(self).entries() == match value {
                Some(x) => insert_entry(old(self).entries(), key.key_text(), ValueModel::String(x@)),
                None => old(self).entries(),
            },
    {
        match value {
            Some(x) => self.encode_str(x, key),
            None => Ok(()),
        }
    }

    pub fn encode_bool<K: ToCodingKey>(&mut self, value: bool, key: &K) -> (r: Result<(), Error>)
        ensures
            r is Ok,
            final(self).path_keys() == old(self).path_keys(),
            final(self).entries() == insert_entry(old(self).entries(), key.key_text(), ValueModel::Bool(value)),
    {
        self.put(key.as_str(), Value::Bool(value));
        Ok(())
    }

    /// Writes the encoding of `value` under `key`; on an error nothing is written.
    pub fn encode<T: Encode, K: ToCodingKey>(&mut self, value: &T, key: &K) -> (r: Result<(), Error>)
        ensures
            final(self).path_keys() == old(self).path_keys(),
            match value.encoding() {
                Ok(m) => r is Ok && final(self).entries() == insert_entry(old(self).entries(), key.key_text(), m),
                Err(e) => r == Err::<(), Error>(e) && final(self).entries() == old(self).entries(),
            },
    {
        let coding_path = self.coding_path.join(key.to_coding_key());
        let k = key.as_str();
        let mut encoder = JsonEncoder::with_path(coding_path);
        let v = value.encode(&mut encoder)?;
        self.put(k, v);
        Ok(())
    }

    /// Writes the encoding of `value` under `key`, or an explicit null where
    /// there is none: the key is then present with a null value.
    pub fn encode_option<T: Encode, K: ToCodingKey>(&mut self, value: Option<&T>, key: &K) -> (r: Result<(), Error>)
        ensures
            final(self).path_keys() == old(self).path_keys(),
            match value {
                None => r is Ok && final(self).entries() == insert_entry(old(self).entries(), key.key_text(), ValueModel::Null),
                Some(x) => match x.encoding() {
                    Ok(m) => r is Ok && final(self).entries() == insert_entry(old(self).entries(), key.key_text(), m),
                    Err(e) => r == Err::<(), Error>(e) && final(self).entries() == old(self).entries(),
                },
            },
    {
        match value {
            Some(x) => self.encode(x, key),
            None => {
                self.put(key.as_str(), Value::Null);
                Ok(())
            },
        }
    }

    /// An empty object container one level down, at `key`.
    pub fn nested_container<K: ToCodingKey>(&mut self, key: &K) -> (r: Result<KeyedContainer, Error>)
        ensures
            *final(self) == *old(self),
            r matches Ok(c) && c.at() == old(self).at().push(key.key_text())
                && c.entries() == Seq::<(Seq<char>, ValueModel)>::empty(),
    {
        let p = self.coding_path.join(key.to_coding_key());
        let mut encoder = JsonEncoder::with_path(p);
        Ok(encoder.as_container())
    }

    /// An empty array container one level down, at `key`.
    pub fn nested_seq_container<K: ToCodingKey>(&mut self, key: &K) -> (r: Result<SeqContainer, Error>)
        ensures
            *final(self) == *old(self),
            r matches Ok(c) && c.at() == old(self).at().push(key.key_text())
                && c.items() == Seq::<ValueModel>::empty(),
    {
        let p = self.coding_path.join(key.to_coding_key());
        let mut encoder = JsonEncoder::with_path(p);
        Ok(encoder.as_seq_container())
    }

    /// The object of the entries written.
    pub fn finish(self) -> (r: Value)
        ensures
            r@ == ValueModel::Object(self.entries()),
    {
        let r = Value::Object(self.value);
        proof {
            r.lemma_view();
        }
        r
    }
}

/// Writes a single scalar. A later write replaces an earlier one.
#[derive(Debug)]
pub struct ValueContainer {
    coding_path: CodingPath,
    value: Option<Value>,
}

impl ValueContainer {
    /// The keys of the location, from the root.
    pub closed spec fn path_keys(&self) -> Seq<CodingKey> {
        self.coding_path.keys()
    }

    /// The texts of those keys.
    pub open spec fn at(&self) -> Seq<Seq<char>> {
        key_texts(self.path_keys())
    }

    /// The value written last, if any.
    pub closed spec fn written(&self) -> Option<ValueModel> {
        match &self.value {
            Some(v) => Some(v@),
            None => None,
        }
    }

    pub fn new(coding_path: CodingPath) -> (r: ValueContainer)
        ensures
            r.path_keys() == coding_path.keys(),
            r.written() == None::<ValueModel>,
    {
        ValueContainer { coding_path, value: None }
    }

    pub fn coding_path(&self) -> (r: &CodingPath)
        ensures
            r.keys() == self.path_keys(),
    {
        &self.coding_path
    }

    pub fn encode_u8(&mut self, value: u8) -> (r: Result<(), Error>)
        ensures
            r is Ok,
            final(self).at() == old(self).at(),
            final(self).written() == Some(ValueModel::Number(decimal(value as nat))),
    {
        self.value = Some(Value::Number(unsigned_text(value as u128)));
        Ok(())
    }
    pub fn encode_u16(&mut self, value: u16) -> (r: Result<(), Error>)
        ensures
            r is Ok,
            final(self).at() == old(self).at(),
            final(self).written() == Some(ValueModel::Number(decimal(value as nat))),
    {
        self.value = Some(Value::Number(unsigned_text(value as u128)));
        Ok(())
    }
    pub fn encode_u32(&mut self, value: u32) -> (r: Result<(), Error>)
        ensures
            r is Ok,
            final(self).at() == old(self).at(),
            final(self).written() == Some(ValueModel::Number(decimal(value as nat))),
    {
        self.value = Some(Value::Number(unsigned_text(value as u128)));
        Ok(())
    }
    pub fn encode_u64(&mut self, value: u64) -> (r: Result<(), Error>)
        ensures
            r is Ok,
            final(self).at() == old(self).at(),
            final(self).written() == Some(ValueModel::Number(decimal(value as nat))),
    {
        self.value = Some(Value::Number(unsigned_text(value as u128)));
        Ok(())
    }
    pub fn encode_u128(&mut self, value: u128) -> (r: Result<(), Error>)
        ensures
            r is Ok,
            final(self).at() == old(self).at(),
            final(self).written() == Some(ValueModel::Number(decimal(value as nat))),
    {
        self.value = Some(Value::Number(unsigned_text(value as u128)));
        Ok(())
    }
    pub fn encode_usize(&mut self, value: usize) -> (r: Result<(), Error>)
        ensures
            r is Ok,
            final(self).at() == old(self).at(),
            final(self).written() == Some(ValueModel::Number(decimal(value as nat))),
    {
        self.value = Some(Value::Number(unsigned_text(value as u128)));
        Ok(())
    }
    pub fn encode_i8(&mut self, value: i8) -> (r: Result<(), Error>)
        ensures
            r is Ok,
            final(self).at() == old(self).at(),
            final(self).written() == Some(ValueModel::Number(signed_decimal(value as int))),
    {
        self.value = Some(Value::Number(signed_text(value as i128)));
        Ok(())
    }
    pub fn encode_i16(&mut self, value: i16) -> (r: Result<(), Error>)
        ensures
            r is Ok,
            final(self).at() == old(self).at(),
            final(self).written() == Some(ValueModel::Number(signed_decimal(value as int))),
    {
        self.value = Some(Value::Number(signed_text(value as i128)));
        Ok(())
    }
    pub fn encode_i32(&mut self, value: i32) -> (r: Result<(), Error>)
        ensures
            r is Ok,
            final(self).at() == old(self).at(),
            final(self).written() == Some(ValueModel::Number(signed_decimal(value as int))),
    {
        self.value = Some(Value::Number(signed_text(value as i128)));
        Ok(())
    }
    pub fn encode_i64(&mut self, value: i64) -> (r: Result<(), Error>)
        ensures
            r is Ok,
            final(self).at() == old(self).at(),
            final(self).written() == Some(ValueModel::Number(signed_decimal(value as int))),
    {
        self.value = Some(Value::Number(signed_text(value as i128)));
        Ok(())
    }
    pub fn encode_i128(&mut self, value: i128) -> (r: Result<(), Error>)
        ensures
            r is Ok,
            final(self).at() == old(self).at(),
            final(self).written() == Some(ValueModel::Number(signed_decimal(value as int))),
    {
        self.value = Some(Value::Number(signed_text(value as i128)));
        Ok(())
    }
    pub fn encode_isize(&mut self, value: isize) -> (r: Result<(), Error>)
        ensures
            r is Ok,
            final(self).at() == old(self).at(),
            final(self).written() == Some(ValueModel::Number(signed_decimal(value as int))),
    {
        self.value = Some(Value::Number(signed_text(value as i128)));
        Ok(())
    }
    /// Writes a number given by its decimal text.
    pub fn encode_number(&mut self, text: &str) -> (r: Result<(), Error>)
        ensures
            r is Ok,
            final(self).path_keys() == old(self).path_keys(),
            final(self).written() == Some(ValueModel::Number(text@)),
    {
        let v = Value::Number(String::from_str(text));
        proof {
            v.lemma_view();
        }
        self.value = Some(v);
        Ok(())
    }

    pub fn encode_str(&mut self, value: &str) -> (r: Result<(), Error>)
        ensures
            r is Ok,
            final(self).path_keys() == old(self).path_keys(),
            final(self).written() == Some(ValueModel::String(value@)),
    {
        let v = Value::String(String::from_str(value));
        proof {
            v.lemma_view();
        }
        self.value = Some(v);
        Ok(())
    }

    pub fn encode_bool(&mut self, value: bool) -> (r: Result<(), Error>)
        ensures
            r is Ok,
            final(self).path_keys() == old(self).path_keys(),
            final(self).written() == Some(ValueModel::Bool(value)),
    {
        let v = Value::Bool(value);
        proof {
            v.lemma_view();
        }
        self.value = Some(v);
        Ok(())
    }

    pub fn encode_null(&mut self) -> (r: Result<(), Error>)
        ensures
            r is Ok,
            final(self).path_keys() == old(self).path_keys(),
            final(self).written() == Some(ValueModel::Null),
    {
        let v = Value::Null;
        proof {
            v.lemma_view();
        }
        self.value = Some(v);
        Ok(())
    }

    /// Writes the encoding of `value`, or null where there is none.
    pub fn encode_option<T: Encode>(&mut self, value: Option<&T>) -> (r: Result<(), Error>)
        ensures
            final(self).path_keys() == old(self).path_keys(),
            match value {
                None => r is Ok && final(self).written() == Some(ValueModel::Null),
                Some(x) => match x.encoding() {
                    Ok(m) => r is Ok && final(self).written() == Some(m),
                    Err(e) => r == Err::<(), Error>(e) && final(self).written() == old(self).written(),
                },
            },
    {
        match value {
            Some(x) => self.encode(x),
            None => self.encode_null(),
        }
    }

    /// Writes the encoding of `value`; on an error nothing is written.
    pub fn encode<T: Encode>(&mut self, value: &T) -> (r: Result<(), Error>)
        ensures
            final(self).path_keys() == old(self).path_keys(),
            match value.encoding() {
                Ok(m) => r is Ok && final(self).written() == Some(m),
                Err(e) => r == Err::<(), Error>(e) && final(self).written() == old(self).written(),
            },
    {
        let mut encoder = JsonEncoder::with_path(self.coding_path.clone());
        let v = value.encode(&mut encoder)?;
        self.value = Some(v);
        Ok(())
    }

    /// The value written, or null where nothing was.
    pub fn finish(self) -> (r: Value)
        ensures
            r@ == match self.written() {
                Some(m) => m,
                None => ValueModel::Null,
            },
    {
        match self.value {
            Some(v) => v,
            None => {
                let r = Value::Null;
                proof {
                    r.lemma_view();
                }
                r
            },
        }
    }
}

/// Writes the items of an array, one after the other.
pub struct SeqContainer {
    coding_path: CodingPath,
    values: Vec<Value>,
}

impl SeqContainer {
    /// The keys of the location, from the root.
    pub closed spec fn path_keys(&self) -> Seq<CodingKey> {
        self.coding_path.keys()
    }

    /// The texts of those keys.
    pub open spec fn at(&self) -> Seq<Seq<char>> {
        key_texts(self.path_keys())
    }

    /// The items written so far.
    pub closed spec fn items(&self) -> Seq<ValueModel> {
        self.values@.map_values(|v: Value| v@)
    }

    pub fn new(coding_path: CodingPath) -> (r: SeqContainer)
        ensures
            r.path_keys() == coding_path.keys(),
            r.items() == Seq::<ValueModel>::empty(),
    {
        let r = SeqContainer { coding_path, values: Vec::new() };
        assert(r.items() =~= Seq::<ValueModel>::empty());
        r
    }

    pub fn coding_path(&self) -> (r: &CodingPath)
        ensures
            r.keys() == self.path_keys(),
    {
        &self.coding_path
    }

    pub fn len(&self) -> (r: usize)
        ensures
            r == self.items().len(),
    {
        self.values.len()
    }

    fn push_value(&mut self, v: Value)
        ensures
            final(self).path_keys() == old(self).path_keys(),
            final(self).items() == old(self).items().push(v@),
    {
        self.values.push(v);
        assert(self.items() =~= old(self).items().push(v@));
    }

    pub fn encode_u8(&mut self, value: u8) -> (r: Result<(), Error>)
        ensures
            r is Ok,
            final(self).at() == old(self).at(),
            final(self).items() == old(self).items().push(ValueModel::Number(decimal(value as nat))),
    {
        self.push_value(Value::Number(unsigned_text(value as u128)));
        Ok(())
    }
    pub fn encode_u16(&mut self, value: u16) -> (r: Result<(), Error>)
        ensures
            r is Ok,
            final(self).at() == old(self).at(),
            final(self).items() == old(self).items().push(ValueModel::Number(decimal(value as nat))),
    {
        self.push_value(Value::Number(unsigned_text(value as u128)));
        Ok(())
    }
    pub fn encode_u32(&mut self, value: u32) -> (r: Result<(), Error>)
        ensures
            r is Ok,
            final(self).at() == old(self).at(),
            final(self).items() == old(self).items().push(ValueModel::Number(decimal(value as nat))),
    {
        self.push_value(Value::Number(unsigned_text(value as u128)));
        Ok(())
    }
    pub fn encode_u64(&mut self, value: u64) -> (r: Result<(), Error>)
        ensures
            r is Ok,
            final(self).at() == old(self).at(),
            final(self).items() == old(self).items().push(ValueModel::Number(decimal(value as nat))),
    {
        self.push_value(Value::Number(unsigned_text(value as u128)));
        Ok(())
    }
    pub fn encode_u128(&mut self, value: u128) -> (r: Result<(), Error>)
        ensures
            r is Ok,
            final(self).at() == old(self).at(),
            final(self).items() == old(self).items().push(ValueModel::Number(decimal(value as nat))),
    {
        self.push_value(Value::Number(unsigned_text(value as u128)));
        Ok(())
    }
    pub fn encode_usize(&mut self, value: usize) -> (r: Result<(), Error>)
        ensures
            r is Ok,
            final(self).at() == old(self).at(),
            final(self).items() == old(self).items().push(ValueModel::Number(decimal(value as nat))),
    {
        self.push_value(Value::Number(unsigned_text(value as u128)));
        Ok(())
    }
    pub fn encode_i8(&mut self, value: i8) -> (r: Result<(), Error>)
        ensures
            r is Ok,
            final(self).at() == old(self).at(),
            final(self).items() == old(self).items().push(ValueModel::Number(signed_decimal(value as int))),
    {
        self.push_value(Value::Number(signed_text(value as i128)));
        Ok(())
    }
    pub fn encode_i16(&mut self, value: i16) -> (r: Result<(), Error>)
        ensures
            r is Ok,
            final(self).at() == old(self).at(),
            final(self).items() == old(self).items().push(ValueModel::Number(signed_decimal(value as int))),
    {
        self.push_value(Value::Number(signed_text(value as i128)));
        Ok(())
    }
    pub fn encode_i32(&mut self, value: i32) -> (r: Result<(), Error>)
        ensures
            r is Ok,
            final(self).at() == old(self).at(),
            final(self).items() == old(self).items().push(ValueModel::Number(signed_decimal(value as int))),
    {
        self.push_value(Value::Number(signed_text(value as i128)));
        Ok(())
    }
    pub fn encode_i64(&mut self, value: i64) -> (r: Result<(), Error>)
        ensures
            r is Ok,
            final(self).at() == old(self).at(),
            final(self).items() == old(self).items().push(ValueModel::Number(signed_decimal(value as int))),
    {
        self.push_value(Value::Number(signed_text(value as i128)));
        Ok(())
    }
    pub fn encode_i128(&mut self, value: i128) -> (r: Result<(), Error>)
        ensures
            r is Ok,
            final(self).at() == old(self).at(),
            final(self).items() == old(self).items().push(ValueModel::Number(signed_decimal(value as int))),
    {
        self.push_value(Value::Number(signed_text(value as i128)));
        Ok(())
    }
    pub fn encode_isize(&mut self, value: isize) -> (r: Result<(), Error>)
        ensures
            r is Ok,
            final(self).at() == old(self).at(),
            final(self).items() == old(self).items().push(ValueModel::Number(signed_decimal(value as int))),
    {
        self.push_value(Value::Number(signed_text(value as i128)));
        Ok(())
    }
    /// Appends a number given by its decimal text.
    pub fn encode_number(&mut self, text: &str) -> (r: Result<(), Error>)
        ensures
            r is Ok,
            final(self).path_keys() == old(self).path_keys(),
            final(self).items() == old(self).items().push(ValueModel::Number(text@)),
    {
        let v = Value::Number(String::from_str(text));
        proof {
            v.lemma_view();
        }
        self.push_value(v);
        Ok(())
    }

    pub fn encode_str(&mut self, value: &str) -> (r: Result<(), Error>)
        ensures
            r is Ok,
            final(self).path_keys() == old(self).path_keys(),
            final(self).items() == old(self).items().push(ValueModel::String(value@)),
    {
        let v = Value::String(String::from_str(value));
        proof {
            v.lemma_view();
        }
        self.push_value(v);
        Ok(())
    }

    pub fn encode_bool(&mut self, value: bool) -> (r: Result<(), Error>)
        ensures
            r is Ok,
            final(self).path_keys() == old(self).path_keys(),
            final(self).items() == old(self).items().push(ValueModel::Bool(value)),
    {
        let v = Value::Bool(value);
        proof {
            v.lemma_view();
        }
        self.push_value(v);
        Ok(())
    }

    pub fn encode_null(&mut self) -> (r: Result<(), Error>)
        ensures
            r is Ok,
            final(self).path_keys() == old(self).path_keys(),
            final(self).items() == old(self).items().push(ValueModel::Null),
    {
        let v = Value::Null;
        proof {
            v.lemma_view();
        }
        self.push_value(v);
        Ok(())
    }

    /// Appends the encoding of `value`, or null where there is none.
    pub fn encode_option<T: Encode>(&mut self, value: Option<&T>) -> (r: Result<(), Error>)
        ensures
            final(self).path_keys() == old(self).path_keys(),
            match value {
                None => r is Ok && final(self).items() == old(self).items().push(ValueModel::Null),
                Some(x) => match x.encoding() {
                    Ok(m) => r is Ok && final(self).items() == old(self).items().push(m),
                    Err(e) => r == Err::<(), Error>(e) && final(self).items() == old(self).items(),
                },
            },
    {
        match value {
            Some(x) => self.encode(x),
            None => self.encode_null(),
        }
    }

    /// Appends the encoding of `value`; on an error nothing is appended.
    pub fn encode<T: Encode>(&mut self, value: &T) -> (r: Result<(), Error>)
        ensures
            final(self).path_keys() == old(self).path_keys(),
            match value.encoding() {
                Ok(m) => r is Ok && final(self).items() == old(self).items().push(m),
                Err(e) => r == Err::<(), Error>(e) && final(self).items() == old(self).items(),
            },
    {
        let mut encoder = JsonEncoder::with_path(self.coding_path.join(CodingKey::Int(self.values.len())));
        let v = value.encode(&mut encoder)?;
        self.push_value(v);
        Ok(())
    }

    /// An empty object container for the next item.
    pub fn nested_container(&mut self) -> (r: Result<KeyedContainer, Error>)
        ensures
            *final(self) == *old(self),
            r matches Ok(c) && c.path_keys() == old(self).path_keys().push(CodingKey::Int(old(self).items().len() as usize))
                && c.entries() == Seq::<(Seq<char>, ValueModel)>::empty(),
    {
        let mut encoder = JsonEncoder::with_path(self.coding_path.join(CodingKey::Int(self.values.len())));
        Ok(encoder.as_container())
    }

    /// An empty array container for the next item.
    pub fn nested_seq_container(&mut self) -> (r: Result<SeqContainer, Error>)
        ensures
            *final(self) == *old(self),
            r matches Ok(c) && c.path_keys() == old(self).path_keys().push(CodingKey::Int(old(self).items().len() as usize))
                && c.items() == Seq::<ValueModel>::empty(),
    {
        let mut encoder = JsonEncoder::with_path(self.coding_path.join(CodingKey::Int(self.values.len())));
        Ok(encoder.as_seq_container())
    }

    /// The array of the items written.
    pub fn finish(self) -> (r: Value)
        ensures
            r@ == ValueModel::Array(self.items()),
    {
        let ghost items = self.items();
        let r = Value::Array(self.values);
        proof {
            r.lemma_view();
            assert(r@->Array_0 =~= items);
        }
        r
    }
}

impl Encode for u8 {
    open spec fn encoding(&self) -> Result<ValueModel, Error> {
        Ok(ValueModel::Number(decimal(*self as nat)))
    }

    fn encode(&self, encoder: &mut JsonEncoder) -> (r: Result<Value, Error>) {
        let mut con = encoder.as_value_container();
        con.encode_u8(*self)?;
        Ok(con.finish())
    }
}

impl Encode for u16 {
    open spec fn encoding(&self) -> Result<ValueModel, Error> {
        Ok(ValueModel::Number(decimal(*self as nat)))
    }

    fn encode(&self, encoder: &mut JsonEncoder) -> (r: Result<Value, Error>) {
        let mut con = encoder.as_value_container();
        con.encode_u16(*self)?;
        Ok(con.finish())
    }
}

impl Encode for u32 {
    open spec fn encoding(&self) -> Result<ValueModel, Error> {
        Ok(ValueModel::Number(decimal(*self as nat)))
    }

    fn encode(&self, encoder: &mut JsonEncoder) -> (r: Result<Value, Error>) {
        let mut con = encoder.as_value_container();
        con.encode_u32(*self)?;
        Ok(con.finish())
    }
}

impl Encode for u64 {
    open spec fn encoding(&self) -> Result<ValueModel, Error> {
        Ok(ValueModel::Number(decimal(*self as nat)))
    }

    fn encode(&self, encoder: &mut JsonEncoder) -> (r: Result<Value, Error>) {
        let mut con = encoder.as_value_container();
        con.encode_u64(*self)?;
        Ok(con.finish())
    }
}

impl Encode for u128 {
    open spec fn encoding(&self) -> Result<ValueModel, Error> {
        Ok(ValueModel::Number(decimal(*self as nat)))
    }

    fn encode(&self, encoder: &mut JsonEncoder) -> (r: Result<Value, Error>) {
        let mut con = encoder.as_value_container();
        con.encode_u128(*self)?;
        Ok(con.finish())
    }
}

impl Encode for usize {
    open spec fn encoding(&self) -> Result<ValueModel, Error> {
        Ok(ValueModel::Number(decimal(*self as nat)))
    }

    fn encode(&self, encoder: &mut JsonEncoder) -> (r: Result<Value, Error>) {
        let mut con = encoder.as_value_container();
        con.encode_usize(*self)?;
        Ok(con.finish())
    }
}

impl Encode for i8 {
    open spec fn encoding(&self) -> Result<ValueModel, Error> {
        Ok(ValueModel::Number(signed_decimal(*self as int)))
    }

    fn encode(&self, encoder: &mut JsonEncoder) -> (r: Result<Value, Error>) {
        let mut con = encoder.as_value_container();
        con.encode_i8(*self)?;
        Ok(con.finish())
    }
}

impl Encode for i16 {
    open spec fn encoding(&self) -> Result<ValueModel, Error> {
        Ok(ValueModel::Number(signed_decimal(*self as int)))
    }

    fn encode(&self, encoder: &mut JsonEncoder) -> (r: Result<Value, Error>) {
        let mut con = encoder.as_value_container();
        con.encode_i16(*self)?;
        Ok(con.finish())
    }
}

impl Encode for i32 {
    open spec fn encoding(&self) -> Result<ValueModel, Error> {
        Ok(ValueModel::Number(signed_decimal(*self as int)))
    }

    fn encode(&self, encoder: &mut JsonEncoder) -> (r: Result<Value, Error>) {
        let mut con = encoder.as_value_container();
        con.encode_i32(*self)?;
        Ok(con.finish())
    }
}

impl Encode for i64 {
    open spec fn encoding(&self) -> Result<ValueModel, Error> {
        Ok(ValueModel::Number(signed_decimal(*self as int)))
    }

    fn encode(&self, encoder: &mut JsonEncoder) -> (r: Result<Value, Error>) {
        let mut con = encoder.as_value_container();
        con.encode_i64(*self)?;
        Ok(con.finish())
    }
}

impl Encode for i128 {
    open spec fn encoding(&self) -> Result<ValueModel, Error> {
        Ok(ValueModel::Number(signed_decimal(*self as int)))
    }

    fn encode(&self, encoder: &mut JsonEncoder) -> (r: Result<Value, Error>) {
        let mut con = encoder.as_value_container();
        con.encode_i128(*self)?;
        Ok(con.finish())
    }
}

impl Encode for isize {
    open spec fn encoding(&self) -> Result<ValueModel, Error> {
        Ok(ValueModel::Number(signed_decimal(*self as int)))
    }

    fn encode(&self, encoder: &mut JsonEncoder) -> (r: Result<Value, Error>) {
        let mut con = encoder.as_value_container();
        con.encode_isize(*self)?;
        Ok(con.finish())
    }
}

impl Encode for bool {
    open spec fn encoding(&self) -> Result<ValueModel, Error> {
        Ok(ValueModel::Bool(*self))
    }

    fn encode(&self, encoder: &mut JsonEncoder) -> (r: Result<Value, Error>) {
        let mut con = encoder.as_value_container();
        con.encode_bool(*self)?;
        Ok(con.finish())
    }
}

impl Encode for String {
    open spec fn encoding(&self) -> Result<ValueModel, Error> {
        Ok(ValueModel::String(self@))
    }

    fn encode(&self, encoder: &mut JsonEncoder) -> (r: Result<Value, Error>) {
        let mut con = encoder.as_value_container();
        con.encode_str(self.as_str())?;
        Ok(con.finish())
    }
}

impl<'a> Encode for &'a str {
    open spec fn encoding(&self) -> Result<ValueModel, Error> {
        Ok(ValueModel::String((*self)@))
    }

    fn encode(&self, encoder: &mut JsonEncoder) -> (r: Result<Value, Error>) {
        let mut con = encoder.as_value_container();
        con.encode_str(*self)?;
        Ok(con.finish())
    }
}

impl<'a, T: Encode> Encode for &'a T {
    /// A reference encodes as what it refers to.
    open spec fn encoding(&self) -> Result<ValueModel, Error> {
        (**self).encoding()
    }

    fn encode(&self, encoder: &mut JsonEncoder) -> (r: Result<Value, Error>) {
        (**self).encode(encoder)
    }
}

impl<T: Encode> Encode for Vec<T> {
    open spec fn encoding(&self) -> Result<ValueModel, Error> {
        match encode_items(self@) {
            Ok(ms) => Ok(ValueModel::Array(ms)),
            Err(e) => Err(e),
        }
    }

    fn encode(&self, encoder: &mut JsonEncoder) -> (r: Result<Value, Error>) {
        let mut con = encoder.as_seq_container();
        let mut i: usize = 0;
        assert(self@.subrange(0, 0) =~= Seq::<T>::empty());
        while i < self.len()
            invariant
                i <= self.len(),
                *encoder == *old(encoder),
                encode_items(self@.subrange(0, i as int)) == Ok::<Seq<ValueModel>, Error>(con.items()),
            decreases self.len() - i,
        {
            let ghost pre = self@.subrange(0, i as int);
            let ghost next = self@.subrange(0, i + 1);
            assert(next.drop_last() =~= pre);
            assert(next.last() == self@[i as int]);
            match con.encode(&self[i]) {
                Ok(()) => {},
                Err(e) => {
                    proof {
                        lemma_encode_items_err(self@, i as int);
                    }
                    return Err(e);
                },
            }
            i = i + 1;
        }
        assert(self@.subrange(0, self.len() as int) =~= self@);
        Ok(con.finish())
    }
}

impl<'a, T: Encode> Encode for &'a [T] {
    /// The items in order, as for a vector.
    open spec fn encoding(&self) -> Result<ValueModel, Error> {
        match encode_items(self@) {
            Ok(ms) => Ok(ValueModel::Array(ms)),
            Err(e) => Err(e),
        }
    }

    fn encode(&self, encoder: &mut JsonEncoder) -> (r: Result<Value, Error>) {
        let mut con = encoder.as_seq_container();
        let mut i: usize = 0;
        assert(self@.subrange(0, 0) =~= Seq::<T>::empty());
        while i < self.len()
            invariant
                i <= self@.len(),
                *encoder == *old(encoder),
                encode_items(self@.subrange(0, i as int)) == Ok::<Seq<ValueModel>, Error>(con.items()),
            decreases self@.len() - i,
        {
            let ghost pre = self@.subrange(0, i as int);
            let ghost next = self@.subrange(0, i + 1);
            assert(next.drop_last() =~= pre);
            assert(next.last() == self@[i as int]);
            match con.encode(&self[i]) {
                Ok(()) => {},
                Err(e) => {
                    proof {
                        lemma_encode_items_err(self@, i as int);
                    }
                    return Err(e);
                },
            }
            i = i + 1;
        }
        assert(self@.subrange(0, self@.len() as int) =~= self@);
        Ok(con.finish())
    }
}

/// Once an item fails, so does the whole sequence, with the first error.
proof fn lemma_encode_items_err<T: Encode>(s: Seq<T>, i: int)
    requires
        0 <= i < s.len(),
        encode_items(s.subrange(0, i + 1)) is Err,
    ensures
        encode_items(s) == encode_items(s.subrange(0, i + 1)),
    decreases s.len(),
{
    if i + 1 < s.len() {
        assert(s.drop_last().subrange(0, i + 1) =~= s.subrange(0, i + 1));
        lemma_encode_items_err(s.drop_last(), i);
    } else {
        assert(s.subrange(0, i + 1) =~= s);
    }
}

impl Encode for Value {
    /// A value encodes as itself.
    open spec fn encoding(&self) -> Result<ValueModel, Error> {
        Ok(self@)
    }

    fn encode(&self, encoder: &mut JsonEncoder) -> (r: Result<Value, Error>)
        decreases self,
    {
        proof {
            self.lemma_view();
        }
        match self {
            Value::String(x) => {
                let mut c = encoder.as_value_container();
                c.encode_str(x.as_str())?;
                Ok(c.finish())
            },
            Value::Number(x) => {
                let mut c = encoder.as_value_container();
                c.encode_number(x.as_str())?;
                Ok(c.finish())
            },
            Value::Bool(x) => {
                let mut c = encoder.as_value_container();
                c.encode_bool(*x)?;
                Ok(c.finish())
            },
            Value::Null => {
                let mut c = encoder.as_value_container();
                c.encode_null()?;
                Ok(c.finish())
            },
            Value::Array(items) => {
                let mut c = encoder.as_seq_container();
                let mut i: usize = 0;
                while i < items.len()
                    invariant
                        i <= items.len(),
                        *self == Value::Array(*items),
                        c.items().len() == i,
                        forall|j: int| 0 <= j < i ==> #[trigger] c.items()[j] == items[j]@,
                    decreases items.len() - i,
                {
                    let mut child = JsonEncoder::with_path(c.coding_path().join(CodingKey::Int(i)));
                    proof {
                        assert(decreases_to!(*self => self->Array_0));
                        assert(decreases_to!(*items => items[i as int]));
                    }
                    let v = items[i].encode(&mut child)?;
                    c.push_value(v);
                    i = i + 1;
                }
                proof {
                    assert(c.items() =~= self@->Array_0);
                }
                Ok(c.finish())
            },
            Value::Object(m) => {
                proof {
                    assert(decreases_to!(*self => self->Object_0));
                }
                m.encode(encoder)
            },
        }
    }
}

impl Encode for ObjectMap {
    /// An object encodes as itself.
    open spec fn encoding(&self) -> Result<ValueModel, Error> {
        Ok(ValueModel::Object(self@))
    }

    fn encode(&self, encoder: &mut JsonEncoder) -> (r: Result<Value, Error>)
        decreases self,
    {
        let mut c = encoder.as_container();
        let n = self.len();
        let mut i: usize = 0;
        proof {
            assert(self@.subrange(0, 0) =~= c.entries());
        }
        while i < n
            invariant
                i <= n,
                n == self@.len(),
                keys_unique(self@),
                c.entries() == self@.subrange(0, i as int),
            decreases n - i,
        {
            let k = self.key_at(i);
            let item = self.value_at(i);
            let mut child = JsonEncoder::with_path(c.coding_path().join(CodingKey::String(k.clone())));
            let v = item.encode(&mut child)?;
            proof {
                lemma_insert_prefix(self@, i as int);
            }
            c.put(k.clone(), v);
            i = i + 1;
        }
        proof {
            assert(self@.subrange(0, n as int) =~= self@);
        }
        Ok(c.finish())
    }
}

} // verus!
