//! Reading values out of a document tree.
use vstd::prelude::*;

use crate::coding_path::{dotted, key_texts, CodingKey, CodingPath, ToCodingKey};
use crate::decimal::{decimal, lemma_parse_decimal, parse_integer, parse_signed, parse_unsigned, signed_decimal};
use crate::value::{index_of, keys_unique, lemma_index_of_unique, lemma_insert_prefix, ObjectMap, Value, ValueModel};

verus! {

broadcast use vstd::std_specs::vec::axiom_vec_index_decreases;

/// Why decoding failed, with the dotted path of the place where it did.
#[derive(Debug)]
pub enum Error {
    KeyNotFound(String),
    InvalidType(String),
    Custom(String, String),
}

/// The mathematical form of an `Error`: its texts as character sequences.
pub enum ErrorModel {
    KeyNotFound(Seq<char>),
    InvalidType(Seq<char>),
    Custom(Seq<char>, Seq<char>),
}

impl View for Error {
    type V = ErrorModel;

    open spec fn view(&self) -> ErrorModel {
        match self {
            Error::KeyNotFound(p) => ErrorModel::KeyNotFound(p@),
            Error::InvalidType(p) => ErrorModel::InvalidType(p@),
            Error::Custom(p, m) => ErrorModel::Custom(p@, m@),
        }
    }
}

impl Error {
    /// An error of the caller's own making at `coding_path`.
    pub fn custom(coding_path: String, message: String) -> (r: Error)
        ensures
            r@ == ErrorModel::Custom(coding_path@, message@),
    {
        Error::Custom(coding_path, message)
    }
}

/// The dotted text of the location whose keys have the texts `at`.
pub open spec fn path_text(at: Seq<Seq<char>>) -> Seq<char> {
    dotted(at.drop_first())
}

/// The value of the entry with key `k`, if there is one.
pub open spec fn entry(es: Seq<(Seq<char>, ValueModel)>, k: Seq<char>) -> Option<ValueModel> {
    if index_of(es, k) >= 0 {
        Some(es[index_of(es, k)].1)
    } else {
        None
    }
}

/// Reading an integer of `[lo, hi]` at `at` from `node`, where `None` stands for
/// a node that is not there.
pub open spec fn number_at(at: Seq<Seq<char>>, node: Option<ValueModel>, lo: int, hi: int) -> Result<int, ErrorModel> {
    match node {
        None => Err(ErrorModel::KeyNotFound(path_text(at))),
        Some(ValueModel::Number(t)) => match parse_integer(t, lo, hi) {
            Some(v) => Ok(v),
            None => Err(ErrorModel::InvalidType(path_text(at))),
        },
        Some(_) => Err(ErrorModel::InvalidType(path_text(at))),
    }
}

/// Reading a string at `at` from `node`.
pub open spec fn string_at(at: Seq<Seq<char>>, node: Option<ValueModel>) -> Result<Seq<char>, ErrorModel> {
    match node {
        None => Err(ErrorModel::KeyNotFound(path_text(at))),
        Some(ValueModel::String(t)) => Ok(t),
        Some(_) => Err(ErrorModel::InvalidType(path_text(at))),
    }
}

/// Reading the decimal text of a number at `at` from `node`.
pub open spec fn number_text_at(at: Seq<Seq<char>>, node: Option<ValueModel>) -> Result<Seq<char>, ErrorModel> {
    match node {
        None => Err(ErrorModel::KeyNotFound(path_text(at))),
        Some(ValueModel::Number(t)) => Ok(t),
        Some(_) => Err(ErrorModel::InvalidType(path_text(at))),
    }
}

/// Reading a boolean at `at` from `node`.
pub open spec fn bool_at(at: Seq<Seq<char>>, node: Option<ValueModel>) -> Result<bool, ErrorModel> {
    match node {
        None => Err(ErrorModel::KeyNotFound(path_text(at))),
        Some(ValueModel::Bool(b)) => Ok(b),
        Some(_) => Err(ErrorModel::InvalidType(path_text(at))),
    }
}

/// The tree of a node that may be missing.
pub open spec fn node_of(node: Option<&Value>) -> Option<ValueModel> {
    match node {
        Some(v) => Some(v@),
        None => None,
    }
}

fn missing(path: &CodingPath) -> (e: Error)
    ensures
        e@ == ErrorModel::KeyNotFound(path_text(path.texts())),
{
    Error::KeyNotFound(path.to_string())
}

fn invalid(path: &CodingPath) -> (e: Error)
    ensures
        e@ == ErrorModel::InvalidType(path_text(path.texts())),
{
    Error::InvalidType(path.to_string())
}

fn number_unsigned(node: Option<&Value>, path: &CodingPath, max: u128) -> (r: Result<u128, Error>)
    ensures
        match number_at(path.texts(), node_of(node), 0, max as int) {
            Ok(v) => r == Ok::<u128, Error>(v as u128),
            Err(f) => r matches Err(e) && e@ == f,
        },
{
    match node {
        None => Err(missing(path)),
        Some(Value::Number(x)) => match parse_unsigned(x.as_str(), max) {
            Some(v) => Ok(v),
            None => Err(invalid(path)),
        },
        Some(_) => Err(invalid(path)),
    }
}

fn number_signed(node: Option<&Value>, path: &CodingPath, min: i128, max: i128) -> (r: Result<i128, Error>)
    requires
        min < 0 <= max,
    ensures
        match number_at(path.texts(), node_of(node), min as int, max as int) {
            Ok(v) => r == Ok::<i128, Error>(v as i128),
            Err(f) => r matches Err(e) && e@ == f,
        },
{
    match node {
        None => Err(missing(path)),
        Some(Value::Number(x)) => match parse_signed(x.as_str(), min, max) {
            Some(v) => Ok(v),
            None => Err(invalid(path)),
        },
        Some(_) => Err(invalid(path)),
    }
}

fn string_of(node: Option<&Value>, path: &CodingPath) -> (r: Result<String, Error>)
    ensures
        match string_at(path.texts(), node_of(node)) {
            Ok(t) => r matches Ok(s) && s@ == t,
            Err(f) => r matches Err(e) && e@ == f,
        },
{
    match node {
        None => Err(missing(path)),
        Some(Value::String(x)) => Ok(x.clone()),
        Some(_) => Err(invalid(path)),
    }
}

fn number_text_of(node: Option<&Value>, path: &CodingPath) -> (r: Result<String, Error>)
    ensures
        match number_text_at(path.texts(), node_of(node)) {
            Ok(t) => r matches Ok(s) && s@ == t,
            Err(f) => r matches Err(e) && e@ == f,
        },
{
    match node {
        None => Err(missing(path)),
        Some(Value::Number(x)) => Ok(x.clone()),
        Some(_) => Err(invalid(path)),
    }
}

fn bool_of(node: Option<&Value>, path: &CodingPath) -> (r: Result<bool, Error>)
    ensures
        match bool_at(path.texts(), node_of(node)) {
            Ok(b) => r == Ok::<bool, Error>(b),
            Err(f) => r matches Err(e) && e@ == f,
        },
{
    match node {
        None => Err(missing(path)),
        Some(Value::Bool(x)) => Ok(*x),
        Some(_) => Err(invalid(path)),
    }
}

/// A type that can be read back from a document tree.
pub trait Decode: Sized {
    /// Whether `r` is what reading `node`, at the location whose keys have the
    /// texts `at`, gives. A type that does not state it makes no claim.
    open spec fn decodes_as(at: Seq<Seq<char>>, node: ValueModel, r: Result<Self, Error>) -> bool {
        arbitrary()
    }

    fn decode(decoder: &mut JsonDecoder) -> (r: Result<Self, Error>)
        ensures
            *final(decoder) == *old(decoder),
            Self::decodes_as(old(decoder).at(), old(decoder).node(), r),
    ;
}

/// The entry point of decoding: one node of a tree, and where it stands. It
/// offers the node as an object, an array or a scalar; a node is exactly one
/// of these.
#[derive(Debug)]
pub struct JsonDecoder<'a> {
    coding_path: CodingPath,
    value: &'a Value,
}

impl<'a> JsonDecoder<'a> {
    /// The keys of the location, from the root.
    pub closed spec fn path_keys(&self) -> Seq<CodingKey> {
        self.coding_path.keys()
    }

    /// The texts of those keys.
    pub open spec fn at(&self) -> Seq<Seq<char>> {
        key_texts(self.path_keys())
    }

    pub closed spec fn node(&self) -> ValueModel {
        self.value@
    }

    pub fn new(coding_path: CodingPath, value: &'a Value) -> (r: JsonDecoder<'a>)
        ensures
            r.path_keys() == coding_path.keys(),
            r.node() == value@,
    {
        JsonDecoder { coding_path, value }
    }

    pub fn coding_path(&self) -> (r: &CodingPath)
        ensures
            r.keys() == self.path_keys(),
    {
        &self.coding_path
    }

    /// The node as an object; any other node is of the wrong type.
    pub fn as_container(&mut self) -> (r: Result<KeyedContainer<'a>, Error>)
        ensures
            *final(self) == *old(self),
            match old(self).node() {
                ValueModel::Object(es) => r matches Ok(c) && c.path_keys() == old(self).path_keys() && c.entries() == es,
                _ => r matches Err(e) && e@ == ErrorModel::InvalidType(path_text(old(self).at())),
            },
    {
        let map = self.value.as_map(&self.coding_path)?;
        let r = KeyedContainer { coding_path: self.coding_path.clone(), value: map };
        Ok(r)
    }

    /// The node as a scalar; an array or an object is of the wrong type.
    pub fn as_value_container(&mut self) -> (r: Result<ValueContainer<'a>, Error>)
        ensures
            *final(self) == *old(self),
            match old(self).node() {
                ValueModel::Array(_) | ValueModel::Object(_) => r matches Err(e) && e@ == ErrorModel::InvalidType(
                    path_text(old(self).at()),
                ),
                _ => r matches Ok(c) && c.path_keys() == old(self).path_keys() && c.node() == old(self).node(),
            },
    {
        if !self.value.is_scalar() {
            return Err(invalid(&self.coding_path));
        }
        Ok(ValueContainer { coding_path: self.coding_path.clone(), value: self.value })
    }

    /// The node as an array, with the cursor on its first item; any other node
    /// is of the wrong type.
    pub fn as_seq_container(&mut self) -> (r: Result<SeqContainer<'a>, Error>)
        ensures
            *final(self) == *old(self),
            match old(self).node() {
                ValueModel::Array(items) => r matches Ok(c) && c.path_keys() == old(self).path_keys() && c.items() == items
                    && c.cursor() == 0,
                _ => r matches Err(e) && e@ == ErrorModel::InvalidType(path_text(old(self).at())),
            },
    {
        let items = self.value.as_array(&self.coding_path)?;
        let r = SeqContainer { coding_path: self.coding_path.clone(), value: items, cursor_index: 0 };
        assert(r.items() =~= self.node()->Array_0);
        Ok(r)
    }
}

/// Reads the entries of an object.
pub struct KeyedContainer<'a> {
    coding_path: CodingPath,
    value: &'a ObjectMap,
}

impl<'a> KeyedContainer<'a> {
    /// The keys of the location, from the root.
    pub closed spec fn path_keys(&self) -> Seq<CodingKey> {
        self.coding_path.keys()
    }

    /// The texts of those keys.
    pub open spec fn at(&self) -> Seq<Seq<char>> {
        key_texts(self.path_keys())
    }

    pub closed spec fn entries(&self) -> Seq<(Seq<char>, ValueModel)> {
        self.value@
    }

    pub fn coding_path(&self) -> (r: &CodingPath)
        ensures
            r.keys() == self.path_keys(),
    {
        &self.coding_path
    }

    /// Whether an entry has the key.
    pub fn contains<K: ToCodingKey>(&self, key: &K) -> (r: bool)
        ensures
            r == (entry(self.entries(), key.key_text()) is Some),
    {
        self.value.contains_key(&key.as_str())
    }

    /// The keys of the entries, in their order.
    pub fn keys(&self) -> (r: Vec<String>)
        ensures
            r@.len() == self.entries().len(),
            keys_unique(self.entries()),
            forall|i: int| 0 <= i < r@.len() ==> #[trigger] r@[i]@ == self.entries()[i].0,
    {
        let n = self.value.len();
        let mut out: Vec<String> = Vec::new();
        let mut i: usize = 0;
        while i < n
            invariant
                i <= n,
                n == self.entries().len(),
                out@.len() == i,
                forall|j: int| 0 <= j < i ==> #[trigger] out@[j]@ == self.entries()[j].0,
            decreases n - i,
        {
            out.push(self.value.key_at(i).clone());
            i = i + 1;
        }
        out
    }

    pub fn decode_u8<K: ToCodingKey>(&mut self, key: &K) -> (r: Result<u8, Error>)
        ensures
            *final(self) == *old(self),
            match number_at(old(self).at().push(key.key_text()), entry(old(self).entries(), key.key_text()), 0, u8::MAX as int) {
                Ok(v) => r == Ok::<u8, Error>(v as u8),
                Err(f) => r matches Err(e) && e@ == f,
            },
    {
        let path = self.coding_path.join(key.to_coding_key());
        match number_unsigned(self.value.get(&key.as_str()), &path, u8::MAX as u128) {
            Ok(v) => Ok(v as u8),
            Err(e) => Err(e),
        }
    }
    pub fn decode_u16<K: ToCodingKey>(&mut self, key: &K) -> (r: Result<u16, Error>)
        ensures
            *final(self) == *old(self),
            match number_at(old(self).at().push(key.key_text()), entry(old(self).entries(), key.key_text()), 0, u16::MAX as int) {
                Ok(v) => r == Ok::<u16, Error>(v as u16),
                Err(f) => r matches Err(e) && e@ == f,
            },
    {
        let path = self.coding_path.join(key.to_coding_key());
        match number_unsigned(self.value.get(&key.as_str()), &path, u16::MAX as u128) {
            Ok(v) => Ok(v as u16),
            Err(e) => Err(e),
        }
    }
    pub fn decode_u32<K: ToCodingKey>(&mut self, key: &K) -> (r: Result<u32, Error>)
        ensures
            *final(self) == *old(self),
            match number_at(old(self).at().push(key.key_text()), entry(old(self).entries(), key.key_text()), 0, u32::MAX as int) {
                Ok(v) => r == Ok::<u32, Error>(v as u32),
                Err(f) => r matches Err(e) && e@ == f,
            },
    {
        let path = self.coding_path.join(key.to_coding_key());
        match number_unsigned(self.value.get(&key.as_str()), &path, u32::MAX as u128) {
            Ok(v) => Ok(v as u32),
            Err(e) => Err(e),
        }
    }
    pub fn decode_u64<K: ToCodingKey>(&mut self, key: &K) -> (r: Result<u64, Error>)
        ensures
            *final(self) == *old(self),
            match number_at(old(self).at().push(key.key_text()), entry(old(self).entries(), key.key_text()), 0, u64::MAX as int) {
                Ok(v) => r == Ok::<u64, Error>(v as u64),
                Err(f) => r matches Err(e) && e@ == f,
            },
    {
        let path = self.coding_path.join(key.to_coding_key());
        match number_unsigned(self.value.get(&key.as_str()), &path, u64::MAX as u128) {
            Ok(v) => Ok(v as u64),
            Err(e) => Err(e),
        }
    }
    pub fn decode_u128<K: ToCodingKey>(&mut self, key: &K) -> (r: Result<u128, Error>)
        ensures
            *final(self) == *old(self),
            match number_at(old(self).at().push(key.key_text()), entry(old(self).entries(), key.key_text()), 0, u128::MAX as int) {
                Ok(v) => r == Ok::<u128, Error>(v as u128),
                Err(f) => r matches Err(e) && e@ == f,
            },
    {
        let path = self.coding_path.join(key.to_coding_key());
        match number_unsigned(self.value.get(&key.as_str()), &path, u128::MAX as u128) {
            Ok(v) => Ok(v as u128),
            Err(e) => Err(e),
        }
    }
    pub fn decode_usize<K: ToCodingKey>(&mut self, key: &K) -> (r: Result<usize, Error>)
        ensures
            *final(self) == *old(self),
            match number_at(old(self).at().push(key.key_text()), entry(old(self).entries(), key.key_text()), 0, usize::MAX as int) {
                Ok(v) => r == Ok::<usize, Error>(v as usize),
                Err(f) => r matches Err(e) && e@ == f,
            },
    {
        let path = self.coding_path.join(key.to_coding_key());
        match number_unsigned(self.value.get(&key.as_str()), &path, usize::MAX as u128) {
            Ok(v) => Ok(v as usize),
            Err(e) => Err(e),
        }
    }
    pub fn decode_i8<K: ToCodingKey>(&mut self, key: &K) -> (r: Result<i8, Error>)
        ensures
            *final(self) == *old(self),
            match number_at(old(self).at().push(key.key_text()), entry(old(self).entries(), key.key_text()), i8::MIN as int, i8::MAX as int) {
                Ok(v) => r == Ok::<i8, Error>(v as i8),
                Err(f) => r matches Err(e) && e@ == f,
            },
    {
        let path = self.coding_path.join(key.to_coding_key());
        match number_signed(self.value.get(&key.as_str()), &path, i8::MIN as i128, i8::MAX as i128) {
            Ok(v) => Ok(v as i8),
            Err(e) => Err(e),
        }
    }
    pub fn decode_i16<K: ToCodingKey>(&mut self, key: &K) -> (r: Result<i16, Error>)
        ensures
            *final(self) == *old(self),
            match number_at(old(self).at().push(key.key_text()), entry(old(self).entries(), key.key_text()), i16::MIN as int, i16::MAX as int) {
                Ok(v) => r == Ok::<i16, Error>(v as i16),
                Err(f) => r matches Err(e) && e@ == f,
            },
    {
        let path = self.coding_path.join(key.to_coding_key());
        match number_signed(self.value.get(&key.as_str()), &path, i16::MIN as i128, i16::MAX as i128) {
            Ok(v) => Ok(v as i16),
            Err(e) => Err(e),
        }
    }
    pub fn decode_i32<K: ToCodingKey>(&mut self, key: &K) -> (r: Result<i32, Error>)
        ensures
            *final(self) == *old(self),
            match number_at(old(self).at().push(key.key_text()), entry(old(self).entries(), key.key_text()), i32::MIN as int, i32::MAX as int) {
                Ok(v) => r == Ok::<i32, Error>(v as i32),
                Err(f) => r matches Err(e) && e@ == f,
            },
    {
        let path = self.coding_path.join(key.to_coding_key());
        match number_signed(self.value.get(&key.as_str()), &path, i32::MIN as i128, i32::MAX as i128) {
            Ok(v) => Ok(v as i32),
            Err(e) => Err(e),
        }
    }
    pub fn decode_i64<K: ToCodingKey>(&mut self, key: &K) -> (r: Result<i64, Error>)
        ensures
            *final(self) == *old(self),
            match number_at(old(self).at().push(key.key_text()), entry(old(self).entries(), key.key_text()), i64::MIN as int, i64::MAX as int) {
                Ok(v) => r == Ok::<i64, Error>(v as i64),
                Err(f) => r matches Err(e) && e@ == f,
            },
    {
        let path = self.coding_path.join(key.to_coding_key());
        match number_signed(self.value.get(&key.as_str()), &path, i64::MIN as i128, i64::MAX as i128) {
            Ok(v) => Ok(v as i64),
            Err(e) => Err(e),
        }
    }
    pub fn decode_i128<K: ToCodingKey>(&mut self, key: &K) -> (r: Result<i128, Error>)
        ensures
            *final(self) == *old(self),
            match number_at(old(self).at().push(key.key_text()), entry(old(self).entries(), key.key_text()), i128::MIN as int, i128::MAX as int) {
                Ok(v) => r == Ok::<i128, Error>(v as i128),
                Err(f) => r matches Err(e) && e@ == f,
            },
    {
        let path = self.coding_path.join(key.to_coding_key());
        match number_signed(self.value.get(&key.as_str()), &path, i128::MIN as i128, i128::MAX as i128) {
            Ok(v) => Ok(v as i128),
            Err(e) => Err(e),
        }
    }
    pub fn decode_isize<K: ToCodingKey>(&mut self, key: &K) -> (r: Result<isize, Error>)
        ensures
            *final(self) == *old(self),
            match number_at(old(self).at().push(key.key_text()), entry(old(self).entries(), key.key_text()), isize::MIN as int, isize::MAX as int) {
                Ok(v) => r == Ok::<isize, Error>(v as isize),
                Err(f) => r matches Err(e) && e@ == f,
            },
    {
        let path = self.coding_path.join(key.to_coding_key());
        match number_signed(self.value.get(&key.as_str()), &path, isize::MIN as i128, isize::MAX as i128) {
            Ok(v) => Ok(v as isize),
            Err(e) => Err(e),
        }
    }
    /// Like `decode_u8`, with `None` where the key is absent.
    pub fn opt_decode_u8<K: ToCodingKey>(&mut self, key: &K) -> (r: Result<Option<u8>, Error>)
        ensures
            *final(self) == *old(self),
            entry(old(self).entries(), key.key_text()) is None ==> r == Ok::<Option<u8>, Error>(None),
            entry(old(self).entries(), key.key_text()) is Some ==> match number_at(old(self).at().push(key.key_text()), entry(old(self).entries(), key.key_text()), 0, u8::MAX as int) {
                Ok(v) => r == Ok::<Option<u8>, Error>(Some(v as u8)),
                Err(f) => r matches Err(e) && e@ == f,
            },
    {
        if self.contains(key) {
            match self.decode_u8(key) {
                Ok(v) => Ok(Some(v)),
                Err(e) => Err(e),
            }
        } else {
            Ok(None)
        }
    }
    /// Like `decode_u16`, with `None` where the key is absent.
    pub fn opt_decode_u16<K: ToCodingKey>(&mut self, key: &K) -> (r: Result<Option<u16>, Error>)
        ensures
            *final(self) == *old(self),
            entry(old(self).entries(), key.key_text()) is None ==> r == Ok::<Option<u16>, Error>(None),
            entry(old(self).entries(), key.key_text()) is Some ==> match number_at(old(self).at().push(key.key_text()), entry(old(self).entries(), key.key_text()), 0, u16::MAX as int) {
                Ok(v) => r == Ok::<Option<u16>, Error>(Some(v as u16)),
                Err(f) => r matches Err(e) && e@ == f,
            },
    {
        if self.contains(key) {
            match self.decode_u16(key) {
                Ok(v) => Ok(Some(v)),
                Err(e) => Err(e),
            }
        } else {
            Ok(None)
        }
    }
    /// Like `decode_u32`, with `None` where the key is absent.
    pub fn opt_decode_u32<K: ToCodingKey>(&mut self, key: &K) -> (r: Result<Option<u32>, Error>)
        ensures
            *final(self) == *old(self),
            entry(old(self).entries(), key.key_text()) is None ==> r == Ok::<Option<u32>, Error>(None),
            entry(old(self).entries(), key.key_text()) is Some ==> match number_at(old(self).at().push(key.key_text()), entry(old(self).entries(), key.key_text()), 0, u32::MAX as int) {
                Ok(v) => r == Ok::<Option<u32>, Error>(Some(v as u32)),
                Err(f) => r matches Err(e) && e@ == f,
            },
    {
        if self.contains(key) {
            match self.decode_u32(key) {
                Ok(v) => Ok(Some(v)),
                Err(e) => Err(e),
            }
        } else {
            Ok(None)
        }
    }
    /// Like `decode_u64`, with `None` where the key is absent.
    pub fn opt_decode_u64<K: ToCodingKey>(&mut self, key: &K) -> (r: Result<Option<u64>, Error>)
        ensures
            *final(self) == *old(self),
            entry(old(self).entries(), key.key_text()) is None ==> r == Ok::<Option<u64>, Error>(None),
            entry(old(self).entries(), key.key_text()) is Some ==> match number_at(old(self).at().push(key.key_text()), entry(old(self).entries(), key.key_text()), 0, u64::MAX as int) {
                Ok(v) => r == Ok::<Option<u64>, Error>(Some(v as u64)),
                Err(f) => r matches Err(e) && e@ == f,
            },
    {
        if self.contains(key) {
            match self.decode_u64(key) {
                Ok(v) => Ok(Some(v)),
                Err(e) => Err(e),
            }
        } else {
            Ok(None)
        }
    }
    /// Like `decode_u128`, with `None` where the key is absent.
    pub fn opt_decode_u128<K: ToCodingKey>(&mut self, key: &K) -> (r: Result<Option<u128>, Error>)
        ensures
            *final(self) == *old(self),
            entry(old(self).entries(), key.key_text()) is None ==> r == Ok::<Option<u128>, Error>(None),
            entry(old(self).entries(), key.key_text()) is Some ==> match number_at(old(self).at().push(key.key_text()), entry(old(self).entries(), key.key_text()), 0, u128::MAX as int) {
                Ok(v) => r == Ok::<Option<u128>, Error>(Some(v as u128)),
                Err(f) => r matches Err(e) && e@ == f,
            },
    {
        if self.contains(key) {
            match self.decode_u128(key) {
                Ok(v) => Ok(Some(v)),
                Err(e) => Err(e),
            }
        } else {
            Ok(None)
        }
    }
    /// Like `decode_usize`, with `None` where the key is absent.
    pub fn opt_decode_usize<K: ToCodingKey>(&mut self, key: &K) -> (r: Result<Option<usize>, Error>)
        ensures
            *final(self) == *old(self),
            entry(old(self).entries(), key.key_text()) is None ==> r == Ok::<Option<usize>, Error>(None),
            entry(old(self).entries(), key.key_text()) is Some ==> match number_at(old(self).at().push(key.key_text()), entry(old(self).entries(), key.key_text()), 0, usize::MAX as int) {
                Ok(v) => r == Ok::<Option<usize>, Error>(Some(v as usize)),
                Err(f) => r matches Err(e) && e@ == f,
            },
    {
        if self.contains(key) {
            match self.decode_usize(key) {
                Ok(v) => Ok(Some(v)),
                Err(e) => Err(e),
            }
        } else {
            Ok(None)
        }
    }
    /// Like `decode_i8`, with `None` where the key is absent.
    pub fn opt_decode_i8<K: ToCodingKey>(&mut self, key: &K) -> (r: Result<Option<i8>, Error>)
        ensures
            *final(self) == *old(self),
            entry(old(self).entries(), key.key_text()) is None ==> r == Ok::<Option<i8>, Error>(None),
            entry(old(self).entries(), key.key_text()) is Some ==> match number_at(old(self).at().push(key.key_text()), entry(old(self).entries(), key.key_text()), i8::MIN as int, i8::MAX as int) {
                Ok(v) => r == Ok::<Option<i8>, Error>(Some(v as i8)),
                Err(f) => r matches Err(e) && e@ == f,
            },
    {
        if self.contains(key) {
            match self.decode_i8(key) {
                Ok(v) => Ok(Some(v)),
                Err(e) => Err(e),
            }
        } else {
            Ok(None)
        }
    }
    /// Like `decode_i16`, with `None` where the key is absent.
    pub fn opt_decode_i16<K: ToCodingKey>(&mut self, key: &K) -> (r: Result<Option<i16>, Error>)
        ensures
            *final(self) == *old(self),
            entry(old(self).entries(), key.key_text()) is None ==> r == Ok::<Option<i16>, Error>(None),
            entry(old(self).entries(), key.key_text()) is Some ==> match number_at(old(self).at().push(key.key_text()), entry(old(self).entries(), key.key_text()), i16::MIN as int, i16::MAX as int) {
                Ok(v) => r == Ok::<Option<i16>, Error>(Some(v as i16)),
                Err(f) => r matches Err(e) && e@ == f,
            },
    {
        if self.contains(key) {
            match self.decode_i16(key) {
                Ok(v) => Ok(Some(v)),
                Err(e) => Err(e),
            }
        } else {
            Ok(None)
        }
    }
    /// Like `decode_i32`, with `None` where the key is absent.
    pub fn opt_decode_i32<K: ToCodingKey>(&mut self, key: &K) -> (r: Result<Option<i32>, Error>)
        ensures
            *final(self) == *old(self),
            entry(old(self).entries(), key.key_text()) is None ==> r == Ok::<Option<i32>, Error>(None),
            entry(old(self).entries(), key.key_text()) is Some ==> match number_at(old(self).at().push(key.key_text()), entry(old(self).entries(), key.key_text()), i32::MIN as int, i32::MAX as int) {
                Ok(v) => r == Ok::<Option<i32>, Error>(Some(v as i32)),
                Err(f) => r matches Err(e) && e@ == f,
            },
    {
        if self.contains(key) {
            match self.decode_i32(key) {
                Ok(v) => Ok(Some(v)),
                Err(e) => Err(e),
            }
        } else {
            Ok(None)
        }
    }
    /// Like `decode_i64`, with `None` where the key is absent.
    pub fn opt_decode_i64<K: ToCodingKey>(&mut self, key: &K) -> (r: Result<Option<i64>, Error>)
        ensures
            *final(self) == *old(self),
            entry(old(self).entries(), key.key_text()) is None ==> r == Ok::<Option<i64>, Error>(None),
            entry(old(self).entries(), key.key_text()) is Some ==> match number_at(old(self).at().push(key.key_text()), entry(old(self).entries(), key.key_text()), i64::MIN as int, i64::MAX as int) {
                Ok(v) => r == Ok::<Option<i64>, Error>(Some(v as i64)),
                Err(f) => r matches Err(e) && e@ == f,
            },
    {
        if self.contains(key) {
            match self.decode_i64(key) {
                Ok(v) => Ok(Some(v)),
                Err(e) => Err(e),
            }
        } else {
            Ok(None)
        }
    }
    /// Like `decode_i128`, with `None` where the key is absent.
    pub fn opt_decode_i128<K: ToCodingKey>(&mut self, key: &K) -> (r: Result<Option<i128>, Error>)
        ensures
            *final(self) == *old(self),
            entry(old(self).entries(), key.key_text()) is None ==> r == Ok::<Option<i128>, Error>(None),
            entry(old(self).entries(), key.key_text()) is Some ==> match number_at(old(self).at().push(key.key_text()), entry(old(self).entries(), key.key_text()), i128::MIN as int, i128::MAX as int) {
                Ok(v) => r == Ok::<Option<i128>, Error>(Some(v as i128)),
                Err(f) => r matches Err(e) && e@ == f,
            },
    {
        if self.contains(key) {
            match self.decode_i128(key) {
                Ok(v) => Ok(Some(v)),
                Err(e) => Err(e),
            }
        } else {
            Ok(None)
        }
    }
    /// Like `decode_isize`, with `None` where the key is absent.
    pub fn opt_decode_isize<K: ToCodingKey>(&mut self, key: &K) -> (r: Result<Option<isize>, Error>)
        ensures
            *final(self) == *old(self),
            entry(old(self).entries(), key.key_text()) is None ==> r == Ok::<Option<isize>, Error>(None),
            entry(old(self).entries(), key.key_text()) is Some ==> match number_at(old(self).at().push(key.key_text()), entry(old(self).entries(), key.key_text()), isize::MIN as int, isize::MAX as int) {
                Ok(v) => r == Ok::<Option<isize>, Error>(Some(v as isize)),
                Err(f) => r matches Err(e) && e@ == f,
            },
    {
        if self.contains(key) {
            match self.decode_isize(key) {
                Ok(v) => Ok(Some(v)),
                Err(e) => Err(e),
            }
        } else {
            Ok(None)
        }
    }
    pub fn decode_string<K: ToCodingKey>(&mut self, key: &K) -> (r: Result<String, Error>)
        ensures
            *final(self) == *old(self),
            match string_at(old(self).at().push(key.key_text()), entry(old(self).entries(), key.key_text())) {
                Ok(t) => r matches Ok(s) && s@ == t,
                Err(f) => r matches Err(e) && e@ == f,
            },
    {
        let path = self.coding_path.join(key.to_coding_key());
        string_of(self.value.get(&key.as_str()), &path)
    }

    /// Like `decode_string`, with `None` where the key is absent.
    pub fn opt_decode_string<K: ToCodingKey>(&mut self, key: &K) -> (r: Result<Option<String>, Error>)
        ensures
            *final(self) == *old(self),
            entry(old(self).entries(), key.key_text()) is None ==> (r matches Ok(None)),
            entry(old(self).entries(), key.key_text()) is Some ==> match string_at(old(self).at().push(key.key_text()), entry(old(self).entries(), key.key_text())) {
                Ok(t) => r matches Ok(Some(s)) && s@ == t,
                Err(f) => r matches Err(e) && e@ == f,
            },
    {
        if self.contains(key) {
            match self.decode_string(key) {
                Ok(v) => Ok(Some(v)),
                Err(e) => Err(e),
            }
        } else {
            Ok(None)
        }
    }

    /// The decimal text of the number under `key`.
    pub fn decode_number<K: ToCodingKey>(&mut self, key: &K) -> (r: Result<String, Error>)
        ensures
            *final(self) == *old(self),
            match number_text_at(old(self).at().push(key.key_text()), entry(old(self).entries(), key.key_text())) {
                Ok(t) => r matches Ok(s) && s@ == t,
                Err(f) => r matches Err(e) && e@ == f,
            },
    {
        let path = self.coding_path.join(key.to_coding_key());
        number_text_of(self.value.get(&key.as_str()), &path)
    }

    pub fn decode_bool<K: ToCodingKey>(&mut self, key: &K) -> (r: Result<bool, Error>)
        ensures
            *final(self) == *old(self),
            match bool_at(old(self).at().push(key.key_text()), entry(old(self).entries(), key.key_text())) {
                Ok(b) => r == Ok::<bool, Error>(b),
                Err(f) => r matches Err(e) && e@ == f,
            },
    {
        let path = self.coding_path.join(key.to_coding_key());
        bool_of(self.value.get(&key.as_str()), &path)
    }

    /// Reads the entry under `key` as a `T`; an absent key is an error.
    pub fn decode<T: Decode, K: ToCodingKey>(&mut self, key: &K) -> (r: Result<T, Error>)
        ensures
            *final(self) == *old(self),
            match entry(old(self).entries(), key.key_text()) {
                None => r matches Err(e) && e@ == ErrorModel::KeyNotFound(path_text(old(self).at().push(key.key_text()))),
                Some(node) => T::decodes_as(old(self).at().push(key.key_text()), node, r),
            },
    {
        let path = self.coding_path.join(key.to_coding_key());
        match self.value.get(&key.as_str()) {
            None => Err(missing(&path)),
            Some(node) => {
                let mut decoder = JsonDecoder::new(path, node);
                T::decode(&mut decoder)
            },
        }
    }

    /// Reads the entry under `key` as a `T`, with `None` exactly where the key
    /// is absent; every error of reading a present entry passes unchanged.
    pub fn decode_option<T: Decode, K: ToCodingKey>(&mut self, key: &K) -> (r: Result<Option<T>, Error>)
        ensures
            *final(self) == *old(self),
            entry(old(self).entries(), key.key_text()) is None ==> (r matches Ok(None)),
            entry(old(self).entries(), key.key_text()) is Some ==> match r {
                Ok(Some(x)) => T::decodes_as(old(self).at().push(key.key_text()), entry(old(self).entries(), key.key_text())->0, Ok(x)),
                Ok(None) => false,
                Err(e) => T::decodes_as(old(self).at().push(key.key_text()), entry(old(self).entries(), key.key_text())->0, Err(e)),
            },
    {
        if self.contains(key) {
            match self.decode(key) {
                Ok(x) => Ok(Some(x)),
                Err(e) => Err(e),
            }
        } else {
            Ok(None)
        }
    }

    /// The object under `key`, to read from one level down.
    pub fn nested_container<K: ToCodingKey>(&mut self, key: &K) -> (r: Result<KeyedContainer<'a>, Error>)
        ensures
            *final(self) == *old(self),
            match entry(old(self).entries(), key.key_text()) {
                None => r matches Err(e) && e@ == ErrorModel::KeyNotFound(path_text(old(self).at().push(key.key_text()))),
                Some(ValueModel::Object(es)) => r matches Ok(c) && c.at() == old(self).at().push(key.key_text()) && c.entries() == es,
                Some(_) => r matches Err(e) && e@ == ErrorModel::InvalidType(path_text(old(self).at().push(key.key_text()))),
            },
    {
        let path = self.coding_path.join(key.to_coding_key());
        match self.value.get(&key.as_str()) {
            None => Err(missing(&path)),
            Some(node) => {
                let map = node.as_map(&path)?;
                Ok(KeyedContainer { coding_path: path, value: map })
            },
        }
    }

    /// The array under `key`, to read from one level down.
    pub fn nested_seq_container<K: ToCodingKey>(&mut self, key: &K) -> (r: Result<SeqContainer<'a>, Error>)
        ensures
            *final(self) == *old(self),
            match entry(old(self).entries(), key.key_text()) {
                None => r matches Err(e) && e@ == ErrorModel::KeyNotFound(path_text(old(self).at().push(key.key_text()))),
                Some(ValueModel::Array(items)) => r matches Ok(c) && c.at() == old(self).at().push(key.key_text())
                    && c.items() == items && c.cursor() == 0,
                Some(_) => r matches Err(e) && e@ == ErrorModel::InvalidType(path_text(old(self).at().push(key.key_text()))),
            },
    {
        let path = self.coding_path.join(key.to_coding_key());
        match self.value.get(&key.as_str()) {
            None => Err(missing(&path)),
            Some(node) => {
                let items = node.as_array(&path)?;
                let r = SeqContainer { coding_path: path, value: items, cursor_index: 0 };
                assert(r.items() =~= node@->Array_0);
                Ok(r)
            },
        }
    }
}

/// Reads a single scalar node.
pub struct ValueContainer<'a> {
    coding_path: CodingPath,
    value: &'a Value,
}

impl<'a> ValueContainer<'a> {
    /// The keys of the location, from the root.
    pub closed spec fn path_keys(&self) -> Seq<CodingKey> {
        self.coding_path.keys()
    }

    /// The texts of those keys.
    pub open spec fn at(&self) -> Seq<Seq<char>> {
        key_texts(self.path_keys())
    }

    pub closed spec fn node(&self) -> ValueModel {
        self.value@
    }

    pub fn coding_path(&self) -> (r: &CodingPath)
        ensures
            r.keys() == self.path_keys(),
    {
        &self.coding_path
    }

    pub fn decode_u8(&mut self) -> (r: Result<u8, Error>)
        ensures
            *final(self) == *old(self),
            match number_at(old(self).at(), Some(old(self).node()), 0, u8::MAX as int) {
                Ok(v) => r == Ok::<u8, Error>(v as u8),
                Err(f) => r matches Err(e) && e@ == f,
            },
    {
        match number_unsigned(Some(self.value), &self.coding_path, u8::MAX as u128) {
            Ok(v) => Ok(v as u8),
            Err(e) => Err(e),
        }
    }
    pub fn decode_u16(&mut self) -> (r: Result<u16, Error>)
        ensures
            *final(self) == *old(self),
            match number_at(old(self).at(), Some(old(self).node()), 0, u16::MAX as int) {
                Ok(v) => r == Ok::<u16, Error>(v as u16),
                Err(f) => r matches Err(e) && e@ == f,
            },
    {
        match number_unsigned(Some(self.value), &self.coding_path, u16::MAX as u128) {
            Ok(v) => Ok(v as u16),
            Err(e) => Err(e),
        }
    }
    pub fn decode_u32(&mut self) -> (r: Result<u32, Error>)
        ensures
            *final(self) == *old(self),
            match number_at(old(self).at(), Some(old(self).node()), 0, u32::MAX as int) {
                Ok(v) => r == Ok::<u32, Error>(v as u32),
                Err(f) => r matches Err(e) && e@ == f,
            },
    {
        match number_unsigned(Some(self.value), &self.coding_path, u32::MAX as u128) {
            Ok(v) => Ok(v as u32),
            Err(e) => Err(e),
        }
    }
    pub fn decode_u64(&mut self) -> (r: Result<u64, Error>)
        ensures
            *final(self) == *old(self),
            match number_at(old(self).at(), Some(old(self).node()), 0, u64::MAX as int) {
                Ok(v) => r == Ok::<u64, Error>(v as u64),
                Err(f) => r matches Err(e) && e@ == f,
            },
    {
        match number_unsigned(Some(self.value), &self.coding_path, u64::MAX as u128) {
            Ok(v) => Ok(v as u64),
            Err(e) => Err(e),
        }
    }
    pub fn decode_u128(&mut self) -> (r: Result<u128, Error>)
        ensures
            *final(self) == *old(self),
            match number_at(old(self).at(), Some(old(self).node()), 0, u128::MAX as int) {
                Ok(v) => r == Ok::<u128, Error>(v as u128),
                Err(f) => r matches Err(e) && e@ == f,
            },
    {
        match number_unsigned(Some(self.value), &self.coding_path, u128::MAX as u128) {
            Ok(v) => Ok(v as u128),
            Err(e) => Err(e),
        }
    }
    pub fn decode_usize(&mut self) -> (r: Result<usize, Error>)
        ensures
            *final(self) == *old(self),
            match number_at(old(self).at(), Some(old(self).node()), 0, usize::MAX as int) {
                Ok(v) => r == Ok::<usize, Error>(v as usize),
                Err(f) => r matches Err(e) && e@ == f,
            },
    {
        match number_unsigned(Some(self.value), &self.coding_path, usize::MAX as u128) {
            Ok(v) => Ok(v as usize),
            Err(e) => Err(e),
        }
    }
    pub fn decode_i8(&mut self) -> (r: Result<i8, Error>)
        ensures
            *final(self) == *old(self),
            match number_at(old(self).at(), Some(old(self).node()), i8::MIN as int, i8::MAX as int) {
                Ok(v) => r == Ok::<i8, Error>(v as i8),
                Err(f) => r matches Err(e) && e@ == f,
            },
    {
        match number_signed(Some(self.value), &self.coding_path, i8::MIN as i128, i8::MAX as i128) {
            Ok(v) => Ok(v as i8),
            Err(e) => Err(e),
        }
    }
    pub fn decode_i16(&mut self) -> (r: Result<i16, Error>)
        ensures
            *final(self) == *old(self),
            match number_at(old(self).at(), Some(old(self).node()), i16::MIN as int, i16::MAX as int) {
                Ok(v) => r == Ok::<i16, Error>(v as i16),
                Err(f) => r matches Err(e) && e@ == f,
            },
    {
        match number_signed(Some(self.value), &self.coding_path, i16::MIN as i128, i16::MAX as i128) {
            Ok(v) => Ok(v as i16),
            Err(e) => Err(e),
        }
    }
    pub fn decode_i32(&mut self) -> (r: Result<i32, Error>)
        ensures
            *final(self) == *old(self),
            match number_at(old(self).at(), Some(old(self).node()), i32::MIN as int, i32::MAX as int) {
                Ok(v) => r == Ok::<i32, Error>(v as i32),
                Err(f) => r matches Err(e) && e@ == f,
            },
    {
        match number_signed(Some(self.value), &self.coding_path, i32::MIN as i128, i32::MAX as i128) {
            Ok(v) => Ok(v as i32),
            Err(e) => Err(e),
        }
    }
    pub fn decode_i64(&mut self) -> (r: Result<i64, Error>)
        ensures
            *final(self) == *old(self),
            match number_at(old(self).at(), Some(old(self).node()), i64::MIN as int, i64::MAX as int) {
                Ok(v) => r == Ok::<i64, Error>(v as i64),
                Err(f) => r matches Err(e) && e@ == f,
            },
    {
        match number_signed(Some(self.value), &self.coding_path, i64::MIN as i128, i64::MAX as i128) {
            Ok(v) => Ok(v as i64),
            Err(e) => Err(e),
        }
    }
    pub fn decode_i128(&mut self) -> (r: Result<i128, Error>)
        ensures
            *final(self) == *old(self),
            match number_at(old(self).at(), Some(old(self).node()), i128::MIN as int, i128::MAX as int) {
                Ok(v) => r == Ok::<i128, Error>(v as i128),
                Err(f) => r matches Err(e) && e@ == f,
            },
    {
        match number_signed(Some(self.value), &self.coding_path, i128::MIN as i128, i128::MAX as i128) {
            Ok(v) => Ok(v as i128),
            Err(e) => Err(e),
        }
    }
    pub fn decode_isize(&mut self) -> (r: Result<isize, Error>)
        ensures
            *final(self) == *old(self),
            match number_at(old(self).at(), Some(old(self).node()), isize::MIN as int, isize::MAX as int) {
                Ok(v) => r == Ok::<isize, Error>(v as isize),
                Err(f) => r matches Err(e) && e@ == f,
            },
    {
        match number_signed(Some(self.value), &self.coding_path, isize::MIN as i128, isize::MAX as i128) {
            Ok(v) => Ok(v as isize),
            Err(e) => Err(e),
        }
    }
    /// The decimal text of a number.
    pub fn decode_number(&mut self) -> (r: Result<String, Error>)
        ensures
            *final(self) == *old(self),
            match number_text_at(old(self).at(), Some(old(self).node())) {
                Ok(t) => r matches Ok(s) && s@ == t,
                Err(f) => r matches Err(e) && e@ == f,
            },
    {
        number_text_of(Some(self.value), &self.coding_path)
    }

    pub fn decode_string(&mut self) -> (r: Result<String, Error>)
        ensures
            *final(self) == *old(self),
            match string_at(old(self).at(), Some(old(self).node())) {
                Ok(t) => r matches Ok(s) && s@ == t,
                Err(f) => r matches Err(e) && e@ == f,
            },
    {
        string_of(Some(self.value), &self.coding_path)
    }

    pub fn decode_bool(&mut self) -> (r: Result<bool, Error>)
        ensures
            *final(self) == *old(self),
            match bool_at(old(self).at(), Some(old(self).node())) {
                Ok(b) => r == Ok::<bool, Error>(b),
                Err(f) => r matches Err(e) && e@ == f,
            },
    {
        bool_of(Some(self.value), &self.coding_path)
    }

    /// Succeeds on a null node only.
    pub fn decode_null(&mut self) -> (r: Result<(), Error>)
        ensures
            *final(self) == *old(self),
            old(self).node() is Null ==> r is Ok,
            !(old(self).node() is Null) ==> (r matches Err(e) && e@ == ErrorModel::InvalidType(path_text(old(self).at()))),
    {
        match self.value {
            Value::Null => Ok(()),
            _ => Err(invalid(&self.coding_path)),
        }
    }

    /// `None` for a null node; otherwise the node read as a `T`.
    pub fn decode_option<T: Decode>(&mut self) -> (r: Result<Option<T>, Error>)
        ensures
            *final(self) == *old(self),
            old(self).node() is Null ==> (r matches Ok(None)),
            !(old(self).node() is Null) ==> match r {
                Ok(Some(x)) => T::decodes_as(old(self).at(), old(self).node(), Ok(x)),
                Ok(None) => false,
                Err(e) => T::decodes_as(old(self).at(), old(self).node(), Err(e)),
            },
    {
        match self.value {
            Value::Null => Ok(None),
            _ => match self.decode() {
                Ok(x) => Ok(Some(x)),
                Err(e) => Err(e),
            },
        }
    }

    pub fn decode<T: Decode>(&mut self) -> (r: Result<T, Error>)
        ensures
            *final(self) == *old(self),
            T::decodes_as(old(self).at(), old(self).node(), r),
    {
        let mut decoder = JsonDecoder::new(self.coding_path.clone(), self.value);
        T::decode(&mut decoder)
    }
}

/// Reads the items of an array in order; a cursor marks the next item.
pub struct SeqContainer<'a> {
    coding_path: CodingPath,
    value: &'a Vec<Value>,
    cursor_index: usize,
}

impl<'a> SeqContainer<'a> {
    /// The keys of the location, from the root.
    pub closed spec fn path_keys(&self) -> Seq<CodingKey> {
        self.coding_path.keys()
    }

    /// The texts of those keys.
    pub open spec fn at(&self) -> Seq<Seq<char>> {
        key_texts(self.path_keys())
    }

    /// All items of the array, read or not.
    pub closed spec fn items(&self) -> Seq<ValueModel> {
        self.value@.map_values(|v: Value| v@)
    }

    pub closed spec fn cursor(&self) -> nat {
        self.cursor_index as nat
    }

    #[verifier::type_invariant]
    closed spec fn cursor_in_range(&self) -> bool {
        self.cursor_index <= self.value@.len()
    }

    /// The key texts of the location of the item at the cursor.
    pub open spec fn item_at(&self) -> Seq<Seq<char>> {
        self.at().push(decimal(self.cursor()))
    }

    /// The item at the cursor; `None` once every item has been read.
    pub open spec fn item(&self) -> Option<ValueModel> {
        if self.cursor() < self.items().len() {
            Some(self.items()[self.cursor() as int])
        } else {
            None
        }
    }

    pub fn coding_path(&self) -> (r: &CodingPath)
        ensures
            r.keys() == self.path_keys(),
    {
        &self.coding_path
    }

    pub fn len(&self) -> (r: usize)
        ensures
            r == self.items().len(),
    {
        self.value.len()
    }

    /// The position of the next item to read; it never passes the end.
    pub fn cursor_index(&self) -> (r: usize)
        ensures
            r == self.cursor(),
            r <= self.items().len(),
    {
        proof {
            use_type_invariant(self);
        }
        self.cursor_index
    }

    fn increment_cursor(&mut self)
        requires
            old(self).cursor() < old(self).items().len(),
        ensures
            final(self).path_keys() == old(self).path_keys(),
            final(self).items() == old(self).items(),
            final(self).cursor() == old(self).cursor() + 1,
    {
        assert(self.items().len() == self.value@.len());
        assert(self.value@.len() == self.value.len());
        self.cursor_index = self.cursor_index + 1;
    }

    fn item_path(&self) -> (r: CodingPath)
        ensures
            r.texts() == self.item_at(),
    {
        self.coding_path.join(CodingKey::Int(self.cursor_index))
    }

    fn current(&self) -> (r: Option<&'a Value>)
        ensures
            node_of(r) == self.item(),
            r matches Some(v) ==> self.cursor() < self.items().len() && decreases_to!(*self.value => *v),
    {
        if self.cursor_index < self.value.len() {
            assert(decreases_to!(*self.value => self.value[self.cursor_index as int]));
            Some(&self.value[self.cursor_index])
        } else {
            None
        }
    }

    /// Reads the item at the cursor, and moves past it where that succeeds.
    pub fn decode_u8(&mut self) -> (r: Result<u8, Error>)
        ensures
            final(self).at() == old(self).at(),
            final(self).items() == old(self).items(),
            match number_at(old(self).item_at(), old(self).item(), 0, u8::MAX as int) {
                Ok(v) => r == Ok::<u8, Error>(v as u8) && final(self).cursor() == old(self).cursor() + 1,
                Err(f) => r matches Err(e) && e@ == f && final(self).cursor() == old(self).cursor(),
            },
    {
        let path = self.item_path();
        match number_unsigned(self.current(), &path, u8::MAX as u128) {
            Ok(v) => {
                self.increment_cursor();
                Ok(v as u8)
            },
            Err(e) => Err(e),
        }
    }
    /// Reads the item at the cursor, and moves past it where that succeeds.
    pub fn decode_u16(&mut self) -> (r: Result<u16, Error>)
        ensures
            final(self).at() == old(self).at(),
            final(self).items() == old(self).items(),
            match number_at(old(self).item_at(), old(self).item(), 0, u16::MAX as int) {
                Ok(v) => r == Ok::<u16, Error>(v as u16) && final(self).cursor() == old(self).cursor() + 1,
                Err(f) => r matches Err(e) && e@ == f && final(self).cursor() == old(self).cursor(),
            },
    {
        let path = self.item_path();
        match number_unsigned(self.current(), &path, u16::MAX as u128) {
            Ok(v) => {
                self.increment_cursor();
                Ok(v as u16)
            },
            Err(e) => Err(e),
        }
    }
    /// Reads the item at the cursor, and moves past it where that succeeds.
    pub fn decode_u32(&mut self) -> (r: Result<u32, Error>)
        ensures
            final(self).at() == old(self).at(),
            final(self).items() == old(self).items(),
            match number_at(old(self).item_at(), old(self).item(), 0, u32::MAX as int) {
                Ok(v) => r == Ok::<u32, Error>(v as u32) && final(self).cursor() == old(self).cursor() + 1,
                Err(f) => r matches Err(e) && e@ == f && final(self).cursor() == old(self).cursor(),
            },
    {
        let path = self.item_path();
        match number_unsigned(self.current(), &path, u32::MAX as u128) {
            Ok(v) => {
                self.increment_cursor();
                Ok(v as u32)
            },
            Err(e) => Err(e),
        }
    }
    /// Reads the item at the cursor, and moves past it where that succeeds.
    pub fn decode_u64(&mut self) -> (r: Result<u64, Error>)
        ensures
            final(self).at() == old(self).at(),
            final(self).items() == old(self).items(),
            match number_at(old(self).item_at(), old(self).item(), 0, u64::MAX as int) {
                Ok(v) => r == Ok::<u64, Error>(v as u64) && final(self).cursor() == old(self).cursor() + 1,
                Err(f) => r matches Err(e) && e@ == f && final(self).cursor() == old(self).cursor(),
            },
    {
        let path = self.item_path();
        match number_unsigned(self.current(), &path, u64::MAX as u128) {
            Ok(v) => {
                self.increment_cursor();
                Ok(v as u64)
            },
            Err(e) => Err(e),
        }
    }
    /// Reads the item at the cursor, and moves past it where that succeeds.
    pub fn decode_u128(&mut self) -> (r: Result<u128, Error>)
        ensures
            final(self).at() == old(self).at(),
            final(self).items() == old(self).items(),
            match number_at(old(self).item_at(), old(self).item(), 0, u128::MAX as int) {
                Ok(v) => r == Ok::<u128, Error>(v as u128) && final(self).cursor() == old(self).cursor() + 1,
                Err(f) => r matches Err(e) && e@ == f && final(self).cursor() == old(self).cursor(),
            },
    {
        let path = self.item_path();
        match number_unsigned(self.current(), &path, u128::MAX as u128) {
            Ok(v) => {
                self.increment_cursor();
                Ok(v as u128)
            },
            Err(e) => Err(e),
        }
    }
    /// Reads the item at the cursor, and moves past it where that succeeds.
    pub fn decode_usize(&mut self) -> (r: Result<usize, Error>)
        ensures
            final(self).at() == old(self).at(),
            final(self).items() == old(self).items(),
            match number_at(old(self).item_at(), old(self).item(), 0, usize::MAX as int) {
                Ok(v) => r == Ok::<usize, Error>(v as usize) && final(self).cursor() == old(self).cursor() + 1,
                Err(f) => r matches Err(e) && e@ == f && final(self).cursor() == old(self).cursor(),
            },
    {
        let path = self.item_path();
        match number_unsigned(self.current(), &path, usize::MAX as u128) {
            Ok(v) => {
                self.increment_cursor();
                Ok(v as usize)
            },
            Err(e) => Err(e),
        }
    }
    /// Reads the item at the cursor, and moves past it where that succeeds.
    pub fn decode_i8(&mut self) -> (r: Result<i8, Error>)
        ensures
            final(self).at() == old(self).at(),
            final(self).items() == old(self).items(),
            match number_at(old(self).item_at(), old(self).item(), i8::MIN as int, i8::MAX as int) {
                Ok(v) => r == Ok::<i8, Error>(v as i8) && final(self).cursor() == old(self).cursor() + 1,
                Err(f) => r matches Err(e) && e@ == f && final(self).cursor() == old(self).cursor(),
            },
    {
        let path = self.item_path();
        match number_signed(self.current(), &path, i8::MIN as i128, i8::MAX as i128) {
            Ok(v) => {
                self.increment_cursor();
                Ok(v as i8)
            },
            Err(e) => Err(e),
        }
    }
    /// Reads the item at the cursor, and moves past it where that succeeds.
    pub fn decode_i16(&mut self) -> (r: Result<i16, Error>)
        ensures
            final(self).at() == old(self).at(),
            final(self).items() == old(self).items(),
            match number_at(old(self).item_at(), old(self).item(), i16::MIN as int, i16::MAX as int) {
                Ok(v) => r == Ok::<i16, Error>(v as i16) && final(self).cursor() == old(self).cursor() + 1,
                Err(f) => r matches Err(e) && e@ == f && final(self).cursor() == old(self).cursor(),
            },
    {
        let path = self.item_path();
        match number_signed(self.current(), &path, i16::MIN as i128, i16::MAX as i128) {
            Ok(v) => {
                self.increment_cursor();
                Ok(v as i16)
            },
            Err(e) => Err(e),
        }
    }
    /// Reads the item at the cursor, and moves past it where that succeeds.
    pub fn decode_i32(&mut self) -> (r: Result<i32, Error>)
        ensures
            final(self).at() == old(self).at(),
            final(self).items() == old(self).items(),
            match number_at(old(self).item_at(), old(self).item(), i32::MIN as int, i32::MAX as int) {
                Ok(v) => r == Ok::<i32, Error>(v as i32) && final(self).cursor() == old(self).cursor() + 1,
                Err(f) => r matches Err(e) && e@ == f && final(self).cursor() == old(self).cursor(),
            },
    {
        let path = self.item_path();
        match number_signed(self.current(), &path, i32::MIN as i128, i32::MAX as i128) {
            Ok(v) => {
                self.increment_cursor();
                Ok(v as i32)
            },
            Err(e) => Err(e),
        }
    }
    /// Reads the item at the cursor, and moves past it where that succeeds.
    pub fn decode_i64(&mut self) -> (r: Result<i64, Error>)
        ensures
            final(self).at() == old(self).at(),
            final(self).items() == old(self).items(),
            match number_at(old(self).item_at(), old(self).item(), i64::MIN as int, i64::MAX as int) {
                Ok(v) => r == Ok::<i64, Error>(v as i64) && final(self).cursor() == old(self).cursor() + 1,
                Err(f) => r matches Err(e) && e@ == f && final(self).cursor() == old(self).cursor(),
            },
    {
        let path = self.item_path();
        match number_signed(self.current(), &path, i64::MIN as i128, i64::MAX as i128) {
            Ok(v) => {
                self.increment_cursor();
                Ok(v as i64)
            },
            Err(e) => Err(e),
        }
    }
    /// Reads the item at the cursor, and moves past it where that succeeds.
    pub fn decode_i128(&mut self) -> (r: Result<i128, Error>)
        ensures
            final(self).at() == old(self).at(),
            final(self).items() == old(self).items(),
            match number_at(old(self).item_at(), old(self).item(), i128::MIN as int, i128::MAX as int) {
                Ok(v) => r == Ok::<i128, Error>(v as i128) && final(self).cursor() == old(self).cursor() + 1,
                Err(f) => r matches Err(e) && e@ == f && final(self).cursor() == old(self).cursor(),
            },
    {
        let path = self.item_path();
        match number_signed(self.current(), &path, i128::MIN as i128, i128::MAX as i128) {
            Ok(v) => {
                self.increment_cursor();
                Ok(v as i128)
            },
            Err(e) => Err(e),
        }
    }
    /// Reads the item at the cursor, and moves past it where that succeeds.
    pub fn decode_isize(&mut self) -> (r: Result<isize, Error>)
        ensures
            final(self).at() == old(self).at(),
            final(self).items() == old(self).items(),
            match number_at(old(self).item_at(), old(self).item(), isize::MIN as int, isize::MAX as int) {
                Ok(v) => r == Ok::<isize, Error>(v as isize) && final(self).cursor() == old(self).cursor() + 1,
                Err(f) => r matches Err(e) && e@ == f && final(self).cursor() == old(self).cursor(),
            },
    {
        let path = self.item_path();
        match number_signed(self.current(), &path, isize::MIN as i128, isize::MAX as i128) {
            Ok(v) => {
                self.increment_cursor();
                Ok(v as isize)
            },
            Err(e) => Err(e),
        }
    }
    /// Reads the decimal text of the number at the cursor, and moves past it
    /// where that succeeds.
    pub fn decode_number(&mut self) -> (r: Result<String, Error>)
        ensures
            final(self).path_keys() == old(self).path_keys(),
            final(self).items() == old(self).items(),
            match number_text_at(old(self).item_at(), old(self).item()) {
                Ok(t) => r matches Ok(s) && s@ == t && final(self).cursor() == old(self).cursor() + 1,
                Err(f) => r matches Err(e) && e@ == f && final(self).cursor() == old(self).cursor(),
            },
    {
        let path = self.item_path();
        match number_text_of(self.current(), &path) {
            Ok(v) => {
                self.increment_cursor();
                Ok(v)
            },
            Err(e) => Err(e),
        }
    }

    /// Reads the item at the cursor, and moves past it where that succeeds.
    pub fn decode_string(&mut self) -> (r: Result<String, Error>)
        ensures
            final(self).path_keys() == old(self).path_keys(),
            final(self).items() == old(self).items(),
            match string_at(old(self).item_at(), old(self).item()) {
                Ok(t) => r matches Ok(s) && s@ == t && final(self).cursor() == old(self).cursor() + 1,
                Err(f) => r matches Err(e) && e@ == f && final(self).cursor() == old(self).cursor(),
            },
    {
        let path = self.item_path();
        match string_of(self.current(), &path) {
            Ok(v) => {
                self.increment_cursor();
                Ok(v)
            },
            Err(e) => Err(e),
        }
    }

    /// Reads the item at the cursor, and moves past it where that succeeds.
    pub fn decode_bool(&mut self) -> (r: Result<bool, Error>)
        ensures
            final(self).path_keys() == old(self).path_keys(),
            final(self).items() == old(self).items(),
            match bool_at(old(self).item_at(), old(self).item()) {
                Ok(b) => r == Ok::<bool, Error>(b) && final(self).cursor() == old(self).cursor() + 1,
                Err(f) => r matches Err(e) && e@ == f && final(self).cursor() == old(self).cursor(),
            },
    {
        let path = self.item_path();
        match bool_of(self.current(), &path) {
            Ok(v) => {
                self.increment_cursor();
                Ok(v)
            },
            Err(e) => Err(e),
        }
    }

    /// Reads the item at the cursor as a `T`, and moves past it where that
    /// succeeds. Past the last item there is nothing to read.
    pub fn decode<T: Decode>(&mut self) -> (r: Result<T, Error>)
        ensures
            final(self).path_keys() == old(self).path_keys(),
            final(self).items() == old(self).items(),
            match old(self).item() {
                None => r matches Err(e) && e@ == ErrorModel::KeyNotFound(path_text(old(self).item_at()))
                    && final(self).cursor() == old(self).cursor(),
                Some(node) => T::decodes_as(old(self).item_at(), node, r) && final(self).cursor() == if r is Ok {
                    old(self).cursor() + 1
                } else {
                    old(self).cursor() + 0
                },
            },
    {
        let path = self.item_path();
        match self.current() {
            None => Err(missing(&path)),
            Some(node) => {
                let mut decoder = JsonDecoder::new(path, node);
                match T::decode(&mut decoder) {
                    Ok(x) => {
                        self.increment_cursor();
                        Ok(x)
                    },
                    Err(e) => Err(e),
                }
            },
        }
    }

    /// Reads the item at the cursor: `None` for a null, otherwise a `T`; the
    /// cursor moves past it where that succeeds.
    pub fn decode_option<T: Decode>(&mut self) -> (r: Result<Option<T>, Error>)
        ensures
            final(self).path_keys() == old(self).path_keys(),
            final(self).items() == old(self).items(),
            match old(self).item() {
                None => r matches Err(e) && e@ == ErrorModel::KeyNotFound(path_text(old(self).item_at()))
                    && final(self).cursor() == old(self).cursor(),
                Some(ValueModel::Null) => r matches Ok(None) && final(self).cursor() == old(self).cursor() + 1,
                Some(node) => final(self).cursor() == (if r is Ok { old(self).cursor() + 1 } else { old(self).cursor() + 0 })
                    && match r {
                        Ok(Some(x)) => T::decodes_as(old(self).item_at(), node, Ok(x)),
                        Ok(None) => false,
                        Err(e) => T::decodes_as(old(self).item_at(), node, Err(e)),
                    },
            },
    {
        match self.current() {
            Some(Value::Null) => {
                self.increment_cursor();
                Ok(None)
            },
            _ => match self.decode() {
                Ok(x) => Ok(Some(x)),
                Err(e) => Err(e),
            },
        }
    }

    /// The object at the cursor, to read from one level down; the cursor moves
    /// past it.
    pub fn nested_container(&mut self) -> (r: Result<KeyedContainer<'a>, Error>)
        ensures
            final(self).path_keys() == old(self).path_keys(),
            final(self).items() == old(self).items(),
            match old(self).item() {
                None => r matches Err(e) && e@ == ErrorModel::KeyNotFound(path_text(old(self).item_at()))
                    && final(self).cursor() == old(self).cursor(),
                Some(ValueModel::Object(es)) => r matches Ok(c) && c.at() == old(self).item_at() && c.entries() == es
                    && final(self).cursor() == old(self).cursor() + 1,
                Some(_) => r matches Err(e) && e@ == ErrorModel::InvalidType(path_text(old(self).item_at()))
                    && final(self).cursor() == old(self).cursor(),
            },
    {
        let path = self.item_path();
        match self.current() {
            None => Err(missing(&path)),
            Some(node) => {
                let map = node.as_map(&path)?;
                self.increment_cursor();
                Ok(KeyedContainer { coding_path: path, value: map })
            },
        }
    }

    /// The array at the cursor, to read from one level down; the cursor moves
    /// past it.
    pub fn nested_seq_container(&mut self) -> (r: Result<SeqContainer<'a>, Error>)
        ensures
            final(self).path_keys() == old(self).path_keys(),
            final(self).items() == old(self).items(),
            match old(self).item() {
                None => r matches Err(e) && e@ == ErrorModel::KeyNotFound(path_text(old(self).item_at()))
                    && final(self).cursor() == old(self).cursor(),
                Some(ValueModel::Array(items)) => r matches Ok(c) && c.at() == old(self).item_at() && c.items() == items
                    && c.cursor() == 0 && final(self).cursor() == old(self).cursor() + 1,
                Some(_) => r matches Err(e) && e@ == ErrorModel::InvalidType(path_text(old(self).item_at()))
                    && final(self).cursor() == old(self).cursor(),
            },
    {
        let path = self.item_path();
        match self.current() {
            None => Err(missing(&path)),
            Some(node) => {
                let items = node.as_array(&path)?;
                self.increment_cursor();
                let r = SeqContainer { coding_path: path, value: items, cursor_index: 0 };
                assert(r.items() =~= node@->Array_0);
                Ok(r)
            },
        }
    }
}

impl Decode for u8 {
    open spec fn decodes_as(at: Seq<Seq<char>>, node: ValueModel, r: Result<Self, Error>) -> bool {
        match number_at(at, Some(node), 0, u8::MAX as int) {
            Ok(v) => r == Ok::<u8, Error>(v as u8),
            Err(f) => r matches Err(e) && e@ == f,
        }
    }

    fn decode(decoder: &mut JsonDecoder) -> (r: Result<Self, Error>) {
        let mut con = decoder.as_value_container()?;
        con.decode_u8()
    }
}

impl Decode for u16 {
    open spec fn decodes_as(at: Seq<Seq<char>>, node: ValueModel, r: Result<Self, Error>) -> bool {
        match number_at(at, Some(node), 0, u16::MAX as int) {
            Ok(v) => r == Ok::<u16, Error>(v as u16),
            Err(f) => r matches Err(e) && e@ == f,
        }
    }

    fn decode(decoder: &mut JsonDecoder) -> (r: Result<Self, Error>) {
        let mut con = decoder.as_value_container()?;
        con.decode_u16()
    }
}

impl Decode for u32 {
    open spec fn decodes_as(at: Seq<Seq<char>>, node: ValueModel, r: Result<Self, Error>) -> bool {
        match number_at(at, Some(node), 0, u32::MAX as int) {
            Ok(v) => r == Ok::<u32, Error>(v as u32),
            Err(f) => r matches Err(e) && e@ == f,
        }
    }

    fn decode(decoder: &mut JsonDecoder) -> (r: Result<Self, Error>) {
        let mut con = decoder.as_value_container()?;
        con.decode_u32()
    }
}

impl Decode for u64 {
    open spec fn decodes_as(at: Seq<Seq<char>>, node: ValueModel, r: Result<Self, Error>) -> bool {
        match number_at(at, Some(node), 0, u64::MAX as int) {
            Ok(v) => r == Ok::<u64, Error>(v as u64),
            Err(f) => r matches Err(e) && e@ == f,
        }
    }

    fn decode(decoder: &mut JsonDecoder) -> (r: Result<Self, Error>) {
        let mut con = decoder.as_value_container()?;
        con.decode_u64()
    }
}

impl Decode for u128 {
    open spec fn decodes_as(at: Seq<Seq<char>>, node: ValueModel, r: Result<Self, Error>) -> bool {
        match number_at(at, Some(node), 0, u128::MAX as int) {
            Ok(v) => r == Ok::<u128, Error>(v as u128),
            Err(f) => r matches Err(e) && e@ == f,
        }
    }

    fn decode(decoder: &mut JsonDecoder) -> (r: Result<Self, Error>) {
        let mut con = decoder.as_value_container()?;
        con.decode_u128()
    }
}

impl Decode for usize {
    open spec fn decodes_as(at: Seq<Seq<char>>, node: ValueModel, r: Result<Self, Error>) -> bool {
        match number_at(at, Some(node), 0, usize::MAX as int) {
            Ok(v) => r == Ok::<usize, Error>(v as usize),
            Err(f) => r matches Err(e) && e@ == f,
        }
    }

    fn decode(decoder: &mut JsonDecoder) -> (r: Result<Self, Error>) {
        let mut con = decoder.as_value_container()?;
        con.decode_usize()
    }
}

impl Decode for i8 {
    open spec fn decodes_as(at: Seq<Seq<char>>, node: ValueModel, r: Result<Self, Error>) -> bool {
        match number_at(at, Some(node), i8::MIN as int, i8::MAX as int) {
            Ok(v) => r == Ok::<i8, Error>(v as i8),
            Err(f) => r matches Err(e) && e@ == f,
        }
    }

    fn decode(decoder: &mut JsonDecoder) -> (r: Result<Self, Error>) {
        let mut con = decoder.as_value_container()?;
        con.decode_i8()
    }
}

impl Decode for i16 {
    open spec fn decodes_as(at: Seq<Seq<char>>, node: ValueModel, r: Result<Self, Error>) -> bool {
        match number_at(at, Some(node), i16::MIN as int, i16::MAX as int) {
            Ok(v) => r == Ok::<i16, Error>(v as i16),
            Err(f) => r matches Err(e) && e@ == f,
        }
    }

    fn decode(decoder: &mut JsonDecoder) -> (r: Result<Self, Error>) {
        let mut con = decoder.as_value_container()?;
        con.decode_i16()
    }
}

impl Decode for i32 {
    open spec fn decodes_as(at: Seq<Seq<char>>, node: ValueModel, r: Result<Self, Error>) -> bool {
        match number_at(at, Some(node), i32::MIN as int, i32::MAX as int) {
            Ok(v) => r == Ok::<i32, Error>(v as i32),
            Err(f) => r matches Err(e) && e@ == f,
        }
    }

    fn decode(decoder: &mut JsonDecoder) -> (r: Result<Self, Error>) {
        let mut con = decoder.as_value_container()?;
        con.decode_i32()
    }
}

impl Decode for i64 {
    open spec fn decodes_as(at: Seq<Seq<char>>, node: ValueModel, r: Result<Self, Error>) -> bool {
        match number_at(at, Some(node), i64::MIN as int, i64::MAX as int) {
            Ok(v) => r == Ok::<i64, Error>(v as i64),
            Err(f) => r matches Err(e) && e@ == f,
        }
    }

    fn decode(decoder: &mut JsonDecoder) -> (r: Result<Self, Error>) {
        let mut con = decoder.as_value_container()?;
        con.decode_i64()
    }
}

impl Decode for i128 {
    open spec fn decodes_as(at: Seq<Seq<char>>, node: ValueModel, r: Result<Self, Error>) -> bool {
        match number_at(at, Some(node), i128::MIN as int, i128::MAX as int) {
            Ok(v) => r == Ok::<i128, Error>(v as i128),
            Err(f) => r matches Err(e) && e@ == f,
        }
    }

    fn decode(decoder: &mut JsonDecoder) -> (r: Result<Self, Error>) {
        let mut con = decoder.as_value_container()?;
        con.decode_i128()
    }
}

impl Decode for isize {
    open spec fn decodes_as(at: Seq<Seq<char>>, node: ValueModel, r: Result<Self, Error>) -> bool {
        match number_at(at, Some(node), isize::MIN as int, isize::MAX as int) {
            Ok(v) => r == Ok::<isize, Error>(v as isize),
            Err(f) => r matches Err(e) && e@ == f,
        }
    }

    fn decode(decoder: &mut JsonDecoder) -> (r: Result<Self, Error>) {
        let mut con = decoder.as_value_container()?;
        con.decode_isize()
    }
}

impl Decode for bool {
    open spec fn decodes_as(at: Seq<Seq<char>>, node: ValueModel, r: Result<Self, Error>) -> bool {
        match bool_at(at, Some(node)) {
            Ok(b) => r == Ok::<bool, Error>(b),
            Err(f) => r matches Err(e) && e@ == f,
        }
    }

    fn decode(decoder: &mut JsonDecoder) -> (r: Result<Self, Error>) {
        let mut con = decoder.as_value_container()?;
        con.decode_bool()
    }
}

impl Decode for String {
    open spec fn decodes_as(at: Seq<Seq<char>>, node: ValueModel, r: Result<Self, Error>) -> bool {
        match string_at(at, Some(node)) {
            Ok(t) => r matches Ok(s) && s@ == t,
            Err(f) => r matches Err(e) && e@ == f,
        }
    }

    fn decode(decoder: &mut JsonDecoder) -> (r: Result<Self, Error>) {
        let mut con = decoder.as_value_container()?;
        con.decode_string()
    }
}

/// Reading `items` in order fails with `e`: the items before some item read
/// well, and that item fails with `e`.
pub open spec fn items_fail<T: Decode>(at: Seq<Seq<char>>, items: Seq<ValueModel>, e: Error) -> bool {
    exists|done: Seq<T>|
        done.len() < items.len() && #[trigger] T::decodes_as(at.push(decimal(done.len())), items[done.len() as int], Err(e))
            && forall|j: int| 0 <= j < done.len() ==> T::decodes_as(at.push(decimal(j as nat)), items[j], Ok(#[trigger] done[j]))
}

impl<T: Decode> Decode for Vec<T> {
    /// Every item read in order, each at its own index; or the error of the first
    /// item that fails.
    open spec fn decodes_as(at: Seq<Seq<char>>, node: ValueModel, r: Result<Self, Error>) -> bool {
        match node {
            ValueModel::Array(items) => match r {
                Ok(out) => out@.len() == items.len() && forall|i: int|
                    0 <= i < items.len() ==> T::decodes_as(at.push(decimal(i as nat)), items[i], Ok(#[trigger] out@[i])),
                Err(e) => items_fail::<T>(at, items, e),
            },
            _ => r matches Err(e) && e@ == ErrorModel::InvalidType(path_text(at)),
        }
    }

    fn decode(decoder: &mut JsonDecoder) -> (r: Result<Self, Error>) {
        let mut con = decoder.as_seq_container()?;
        let ghost at = decoder.at();
        let ghost items = decoder.node()->Array_0;
        let mut out: Vec<T> = Vec::new();
        while con.cursor_index() != con.len()
            invariant
                *decoder == *old(decoder),
                decoder.node() == ValueModel::Array(items),
                at == decoder.at(),
                con.at() == at,
                con.items() == items,
                con.cursor() == out@.len(),
                out@.len() <= items.len(),
                forall|i: int| 0 <= i < out@.len() ==> T::decodes_as(at.push(decimal(i as nat)), items[i], Ok(#[trigger] out@[i])),
            decreases items.len() - con.cursor(),
        {
            let ghost before = con.cursor();
            match con.decode::<T>() {
                Ok(x) => {
                    out.push(x);
                },
                Err(e) => {
                    proof {
                        let done = out@;
                        assert(done.len() < items.len());
                        assert(T::decodes_as(at.push(decimal(done.len())), items[done.len() as int], Err(e)));
                        assert(forall|j: int| 0 <= j < done.len() ==> T::decodes_as(at.push(decimal(j as nat)), items[j], Ok(#[trigger] done[j])));
                        assert(items_fail::<T>(at, items, e));
                    }
                    return Err(e);
                },
            }
        }
        Ok(out)
    }
}

/// Reads `value` back by probing: as an array first, then as an object, then as
/// a number, a string, a boolean and null, in that order.
fn decode_value(path: &CodingPath, value: &Value) -> (r: Result<Value, Error>)
    ensures
        r matches Ok(v) && v@ == value@,
    decreases value@,
{
    let mut decoder = JsonDecoder::new(path.clone(), value);
    proof {
        value.lemma_view();
    }
    match decoder.as_seq_container() {
        Ok(mut con) => {
            let ghost items = value@->Array_0;
            let mut out: Vec<Value> = Vec::new();
            while con.cursor_index() != con.len()
                invariant
                    value@ == ValueModel::Array(items),
                    con.items() == items,
                    con.cursor() == out@.len(),
                    out@.len() <= items.len(),
                    forall|j: int| 0 <= j < out@.len() ==> #[trigger] out@[j]@ == items[j],
                decreases items.len() - con.cursor(),
            {
                let child = con.item_path();
                let elem = match con.current() {
                    Some(e) => e,
                    None => {
                        return Err(missing(&child));
                    },
                };
                proof {
                    assert(decreases_to!(value@ => value@->Array_0));
                    assert(decreases_to!(items => items[out@.len() as int]));
                }
                let v = decode_value(&child, elem)?;
                out.push(v);
                con.increment_cursor();
            }
            let r = Value::Array(out);
            proof {
                r.lemma_view();
                assert(r@->Array_0 =~= items);
            }
            return Ok(r);
        },
        Err(_) => {},
    }
    match decoder.as_container() {
        Ok(con) => {
            let ghost es = value@->Object_0;
            let keys = con.keys();
            let mut out = ObjectMap::new();
            let mut i: usize = 0;
            proof {
                assert(out@ =~= es.subrange(0, 0));
            }
            while i < keys.len()
                invariant
                    value@ == ValueModel::Object(es),
                    con.entries() == es,
                    keys_unique(es),
                    keys@.len() == es.len(),
                    forall|j: int| 0 <= j < keys@.len() ==> #[trigger] keys@[j]@ == es[j].0,
                    i <= keys.len(),
                    out@ == es.subrange(0, i as int),
                decreases keys.len() - i,
            {
                let k = &keys[i];
                let child = con.coding_path.join(CodingKey::String(k.clone()));
                let node = match con.value.get(k) {
                    Some(n) => n,
                    None => {
                        proof {
                            lemma_index_of_unique(es, i as int);
                        }
                        return Err(missing(&child));
                    },
                };
                proof {
                    lemma_index_of_unique(es, i as int);
                    assert(decreases_to!(value@ => value@->Object_0));
                    assert(decreases_to!(es => es[i as int]));
                    assert(decreases_to!(es[i as int] => es[i as int].1));
                }
                let v = decode_value(&child, node)?;
                proof {
                    lemma_insert_prefix(es, i as int);
                }
                out.insert(k.clone(), v);
                i = i + 1;
            }
            let r = Value::Object(out);
            proof {
                r.lemma_view();
                assert(es.subrange(0, es.len() as int) =~= es);
            }
            return Ok(r);
        },
        Err(_) => {},
    }
    match decoder.as_value_container() {
        Ok(mut con) => {
            match con.decode_number() {
                Ok(t) => {
                    let r = Value::Number(t);
                    proof {
                        r.lemma_view();
                    }
                    return Ok(r);
                },
                Err(_) => {},
            }
            match con.decode_string() {
                Ok(t) => {
                    let r = Value::String(t);
                    proof {
                        r.lemma_view();
                    }
                    return Ok(r);
                },
                Err(_) => {},
            }
            match con.decode_bool() {
                Ok(b) => {
                    let r = Value::Bool(b);
                    proof {
                        r.lemma_view();
                    }
                    return Ok(r);
                },
                Err(_) => {},
            }
            match con.decode_null() {
                Ok(()) => {
                    let r = Value::Null;
                    proof {
                        r.lemma_view();
                    }
                    return Ok(r);
                },
                Err(_) => {},
            }
            Err(invalid(path))
        },
        Err(e) => Err(e),
    }
}

impl Decode for Value {
    /// A tree reads back as itself.
    open spec fn decodes_as(at: Seq<Seq<char>>, node: ValueModel, r: Result<Self, Error>) -> bool {
        r matches Ok(v) && v@ == node
    }

    fn decode(decoder: &mut JsonDecoder) -> (r: Result<Self, Error>) {
        decode_value(&decoder.coding_path, decoder.value)
    }
}

impl<T: Decode> Decode for Option<T> {
    /// A null reads as `None`; any other node reads as a `T`.
    open spec fn decodes_as(at: Seq<Seq<char>>, node: ValueModel, r: Result<Self, Error>) -> bool {
        match node {
            ValueModel::Null => r matches Ok(None),
            _ => match r {
                Ok(Some(x)) => T::decodes_as(at, node, Ok(x)),
                Ok(None) => false,
                Err(e) => T::decodes_as(at, node, Err(e)),
            },
        }
    }

    fn decode(decoder: &mut JsonDecoder) -> (r: Result<Self, Error>) {
        proof {
            decoder.value.lemma_view();
        }
        match decoder.value {
            Value::Null => Ok(None),
            _ => match T::decode(decoder) {
                Ok(x) => Ok(Some(x)),
                Err(e) => Err(e),
            },
        }
    }
}

impl Decode for ObjectMap {
    /// An object reads back as its entries; any other node is of the wrong type.
    open spec fn decodes_as(at: Seq<Seq<char>>, node: ValueModel, r: Result<Self, Error>) -> bool {
        match node {
            ValueModel::Object(es) => r matches Ok(m) && m@ == es,
            _ => r matches Err(e) && e@ == ErrorModel::InvalidType(path_text(at)),
        }
    }

    fn decode(decoder: &mut JsonDecoder) -> (r: Result<Self, Error>) {
        let con = decoder.as_container()?;
        match decode_value(&decoder.coding_path, decoder.value) {
            Ok(Value::Object(m)) => Ok(m),
            _ => Err(invalid(&decoder.coding_path)),
        }
    }
}

/// Reading back the decimal text of an integer of a width gives the integer:
/// the tree that encoding an integer gives decodes to it at every width that
/// holds it.
pub proof fn lemma_integer_round_trip(n: int, lo: int, hi: int, at: Seq<Seq<char>>)
    requires
        lo <= n <= hi,
    ensures
        number_at(at, Some(ValueModel::Number(signed_decimal(n))), lo, hi) == Ok::<int, ErrorModel>(n),
{
    lemma_parse_decimal(n, lo, hi);
}

} // verus!
