//! The document tree that every value is encoded to and decoded from.
use vstd::prelude::*;

use crate::coding_path::CodingPath;
use crate::dec::{Decode, Error, ErrorModel, JsonDecoder};
use crate::enc::{self, Encode, JsonEncoder};

verus! {

broadcast use vstd::std_specs::vec::axiom_vec_index_decreases;

/// The mathematical form of a `Value`: texts as character sequences, objects as
/// their entries in order.
pub enum ValueModel {
    String(Seq<char>),
    Number(Seq<char>),
    Bool(bool),
    Null,
    Array(Seq<ValueModel>),
    Object(Seq<(Seq<char>, ValueModel)>),
}

/// Entries of an object whose keys are pairwise distinct.
pub open spec fn keys_unique(es: Seq<(Seq<char>, ValueModel)>) -> bool {
    forall|i: int, j: int| 0 <= i < j < es.len() ==> #[trigger] es[i].0 != #[trigger] es[j].0
}

/// The position of the first entry with key `k`, or -1 where there is none.
pub open spec fn index_of(es: Seq<(Seq<char>, ValueModel)>, k: Seq<char>) -> int
    decreases es.len(),
{
    if es.len() == 0 {
        -1
    } else if index_of(es.drop_last(), k) >= 0 {
        index_of(es.drop_last(), k)
    } else if es.last().0 == k {
        es.len() - 1
    } else {
        -1
    }
}

/// Entries after writing `v` under `k`: an entry with that key keeps its place
/// and takes the new value; otherwise the entry goes last.
pub open spec fn insert_entry(es: Seq<(Seq<char>, ValueModel)>, k: Seq<char>, v: ValueModel) -> Seq<
    (Seq<char>, ValueModel),
> {
    if index_of(es, k) >= 0 {
        es.update(index_of(es, k), (k, v))
    } else {
        es.push((k, v))
    }
}

/// What `index_of` finds: the first entry with the key, or none with it.
pub proof fn lemma_index_of(es: Seq<(Seq<char>, ValueModel)>, k: Seq<char>)
    ensures
        -1 <= index_of(es, k) < es.len(),
        index_of(es, k) >= 0 ==> es[index_of(es, k)].0 == k,
        index_of(es, k) >= 0 ==> forall|j: int| 0 <= j < index_of(es, k) ==> es[j].0 != k,
        index_of(es, k) < 0 ==> forall|j: int| 0 <= j < es.len() ==> es[j].0 != k,
    decreases es.len(),
{
    if es.len() > 0 {
        lemma_index_of(es.drop_last(), k);
        assert forall|j: int| 0 <= j < es.len() - 1 implies es[j] == es.drop_last()[j] by {}
    }
}

/// Where keys are distinct, each entry is the one found under its key.
pub proof fn lemma_index_of_unique(es: Seq<(Seq<char>, ValueModel)>, i: int)
    requires
        keys_unique(es),
        0 <= i < es.len(),
    ensures
        index_of(es, es[i].0) == i,
{
    lemma_index_of(es, es[i].0);
}

/// Writing the entries of an object with distinct keys one after the other, into
/// an empty object, gives the same entries.
pub proof fn lemma_insert_prefix(es: Seq<(Seq<char>, ValueModel)>, i: int)
    requires
        keys_unique(es),
        0 <= i < es.len(),
    ensures
        insert_entry(es.subrange(0, i), es[i].0, es[i].1) == es.subrange(0, i + 1),
{
    let pre = es.subrange(0, i);
    lemma_index_of(pre, es[i].0);
    assert(index_of(pre, es[i].0) < 0) by {
        if index_of(pre, es[i].0) >= 0 {
            assert(es[index_of(pre, es[i].0)].0 == es[i].0);
        }
    }
    assert(pre.push((es[i].0, es[i].1)) =~= es.subrange(0, i + 1));
}

/// A document node: text, a number kept as its decimal text, a boolean, null,
/// an array, or an object whose entries keep their order and have distinct keys.
#[derive(Debug, PartialEq, Eq)]
pub enum Value {
    String(String),
    Number(String),
    Bool(bool),
    Null,
    Array(Vec<Value>),
    Object(ObjectMap),
}

/// The entries of an object in the order in which they were first written; no
/// two of them have the same key.
#[derive(Debug, PartialEq, Eq)]
pub struct ObjectMap {
    entries: Vec<(String, Value)>,
}

impl ObjectMap {
    pub closed spec fn view(&self) -> Seq<(Seq<char>, ValueModel)>
        decreases self,
    {
        Seq::new(
            self.entries@.len(),
            |i: int|
                if 0 <= i < self.entries.len() {
                    (self.entries[i].0@, self.entries[i].1.view())
                } else {
                    (Seq::empty(), ValueModel::Null)
                },
        )
    }

    #[verifier::type_invariant]
    closed spec fn distinct_keys(&self) -> bool {
        forall|i: int, j: int|
            0 <= i < j < self.entries.len() ==> #[trigger] self.entries[i].0@
                != #[trigger] self.entries[j].0@
    }

    proof fn lemma_view_keys(&self)
        ensures
            self@.len() == self.entries.len(),
            forall|i: int| 0 <= i < self.entries.len() ==> #[trigger] self@[i] == (self.entries[i].0@, self.entries[i].1@),
    {
    }

    proof fn lemma_keys_unique(&self)
        requires
            self.distinct_keys(),
        ensures
            keys_unique(self@),
    {
        self.lemma_view_keys();
        assert forall|i: int, j: int| 0 <= i < j < self@.len() implies #[trigger] self@[i].0
            != #[trigger] self@[j].0 by {
            assert(self.entries[i].0@ != self.entries[j].0@);
        }
    }

    pub fn new() -> (r: ObjectMap)
        ensures
            r@ == Seq::<(Seq<char>, ValueModel)>::empty(),
    {
        let r = ObjectMap { entries: Vec::new() };
        assert(r@ =~= Seq::<(Seq<char>, ValueModel)>::empty());
        r
    }

    pub fn len(&self) -> (r: usize)
        ensures
            r == self@.len(),
            keys_unique(self@),
    {
        proof {
            use_type_invariant(self);
            self.lemma_keys_unique();
        }
        self.entries.len()
    }

    /// The position of the entry with key `key`, if there is one.
    pub fn position(&self, key: &String) -> (r: Option<usize>)
        ensures
            match r {
                Some(i) => i == index_of(self@, key@),
                None => index_of(self@, key@) < 0,
            },
    {
        proof {
            lemma_index_of(self@, key@);
        }
        let mut i: usize = 0;
        while i < self.entries.len()
            invariant
                i <= self.entries.len(),
                self@.len() == self.entries.len(),
                forall|j: int| 0 <= j < i ==> #[trigger] self@[j].0 != key@,
            decreases self.entries.len() - i,
        {
            proof {
                self.lemma_view_keys();
            }
            if self.entries[i].0 == *key {
                proof {
                    lemma_index_of(self@, key@);
                    if index_of(self@, key@) < 0 || index_of(self@, key@) > i {
                        assert(self@[i as int].0 == key@);
                    }
                }
                return Some(i);
            }
            i = i + 1;
        }
        None
    }

    pub fn contains_key(&self, key: &String) -> (r: bool)
        ensures
            r == (index_of(self@, key@) >= 0),
    {
        self.position(key).is_some()
    }

    pub fn get(&self, key: &String) -> (r: Option<&Value>)
        ensures
            match r {
                Some(v) => index_of(self@, key@) >= 0 && v@ == self@[index_of(self@, key@)].1,
                None => index_of(self@, key@) < 0,
            },
    {
        match self.position(key) {
            Some(i) => {
                proof {
                    self.lemma_view_keys();
                    lemma_index_of(self@, key@);
                }
                Some(&self.entries[i].1)
            },
            None => None,
        }
    }

    pub fn key_at(&self, i: usize) -> (r: &String)
        requires
            i < self@.len(),
        ensures
            r@ == self@[i as int].0,
    {
        proof {
            self.lemma_view_keys();
        }
        &self.entries[i].0
    }

    pub fn value_at(&self, i: usize) -> (r: &Value)
        requires
            i < self@.len(),
        ensures
            r@ == self@[i as int].1,
            decreases_to!(*self => *r),
    {
        proof {
            self.lemma_view_keys();
        }
        &self.entries[i].1
    }

    /// The entries, in their order.
    pub fn into_entries(self) -> (r: Vec<(String, Value)>)
        ensures
            r@.len() == self@.len(),
            forall|i: int| 0 <= i < r@.len() ==> (#[trigger] r@[i]).0@ == self@[i].0 && r@[i].1@ == self@[i].1,
    {
        proof {
            self.lemma_view_keys();
        }
        self.entries
    }

    /// Writes `value` under `key`: an existing entry keeps its place.
    pub fn insert(&mut self, key: String, value: Value)
        ensures
            final(self)@ == insert_entry(old(self)@, key@, value@),
    {
        proof {
            use_type_invariant(&*self);
            self.lemma_view_keys();
        }
        let ghost before = self@;
        match self.position(&key) {
            Some(i) => {
                proof {
                    lemma_index_of(before, key@);
                }
                let ghost k = key@;
                let ghost vm = value@;
                let mut entries = Vec::new();
                std::mem::swap(&mut entries, &mut self.entries);
                entries.set(i, (key, value));
                proof {
                    assert forall|a: int, b: int| 0 <= a < b < entries.len() implies #[trigger] entries[a].0@
                        != #[trigger] entries[b].0@ by {
                        if a != i && b != i {
                            assert(before[a].0 != before[b].0);
                        } else if a == i {
                            assert(before[b].0 != before[a].0);
                        } else {
                            assert(before[a].0 != before[b].0);
                        }
                    }
                }
                self.entries = entries;
                proof {
                    self.lemma_view_keys();
                    assert(self@ =~= before.update(i as int, (k, vm)));
                }
            },
            None => {
                proof {
                    lemma_index_of(before, key@);
                }
                let ghost k = key@;
                let ghost vm = value@;
                let mut entries = Vec::new();
                std::mem::swap(&mut entries, &mut self.entries);
                entries.push((key, value));
                proof {
                    assert forall|a: int, b: int| 0 <= a < b < entries.len() implies #[trigger] entries[a].0@
                        != #[trigger] entries[b].0@ by {
                        if b < before.len() {
                            assert(before[a].0 != before[b].0);
                        } else {
                            assert(before[a].0 != k);
                        }
                    }
                }
                self.entries = entries;
                proof {
                    self.lemma_view_keys();
                    assert(self@ =~= before.push((k, vm)));
                }
            },
        }
    }
}

impl Value {
    pub open spec fn view(&self) -> ValueModel
        decreases self,
    {
        match self {
            Value::String(s) => ValueModel::String(s@),
            Value::Number(s) => ValueModel::Number(s@),
            Value::Bool(b) => ValueModel::Bool(*b),
            Value::Null => ValueModel::Null,
            Value::Array(v) => ValueModel::Array(
                Seq::new(
                    v@.len(),
                    |i: int|
                        if 0 <= i < v.len() {
                            v[i].view()
                        } else {
                            ValueModel::Null
                        },
                ),
            ),
            Value::Object(m) => ValueModel::Object(m.view()),
        }
    }

    /// How the view of each variant is made.
    pub proof fn lemma_view(&self)
        ensures
            match self {
                Value::String(s) => self@ == ValueModel::String(s@),
                Value::Number(s) => self@ == ValueModel::Number(s@),
                Value::Bool(b) => self@ == ValueModel::Bool(*b),
                Value::Null => self@ == ValueModel::Null,
                Value::Array(v) => self@ is Array && self@->Array_0.len() == v.len() && forall|i: int|
                    0 <= i < v.len() ==> #[trigger] self@->Array_0[i] == v[i]@,
                Value::Object(m) => self@ == ValueModel::Object(m@),
            },
    {
    }

    pub fn is_scalar(&self) -> (r: bool)
        ensures
            r == !(self@ is Array || self@ is Object),
    {
        match self {
            Value::Array(_) | Value::Object(_) => false,
            _ => true,
        }
    }

    /// The entries of an object; any other node is of the wrong type.
    pub fn as_map(&self, coding_path: &CodingPath) -> (r: Result<&ObjectMap, Error>)
        ensures
            match r {
                Ok(m) => self@ == ValueModel::Object(m@),
                Err(e) => !(self@ is Object) && e@ == ErrorModel::InvalidType(coding_path.text()),
            },
    {
        proof {
            self.lemma_view();
        }
        match self {
            Value::Object(x) => Ok(x),
            _ => Err(Error::InvalidType(coding_path.to_string())),
        }
    }

    /// The items of an array; any other node is of the wrong type.
    pub fn as_array(&self, coding_path: &CodingPath) -> (r: Result<&Vec<Value>, Error>)
        ensures
            match r {
                Ok(v) => self@ is Array && self@->Array_0.len() == v.len() && forall|i: int|
                    0 <= i < v.len() ==> #[trigger] self@->Array_0[i] == v[i]@,
                Err(e) => !(self@ is Array) && e@ == ErrorModel::InvalidType(coding_path.text()),
            },
    {
        proof {
            self.lemma_view();
        }
        match self {
            Value::Array(x) => Ok(x),
            _ => Err(Error::InvalidType(coding_path.to_string())),
        }
    }
}

/// Encodes `input` into a tree, at the root.
pub fn to_value<T: Encode>(input: &T) -> (r: Result<Value, enc::Error>)
    ensures
        match r {
            Ok(v) => input.encoding() == Ok::<ValueModel, enc::Error>(v@),
            Err(e) => input.encoding() == Err::<ValueModel, enc::Error>(e),
        },
{
    let mut encoder = JsonEncoder::with_path(CodingPath::root());
    input.encode(&mut encoder)
}

/// Decodes a `T` from the tree `input`, read at the root.
pub fn from_value<T: Decode>(input: &Value) -> (r: Result<T, Error>)
    ensures
        T::decodes_as(seq![Seq::<char>::empty()], input@, r),
{
    let mut decoder = JsonDecoder::new(CodingPath::root(), input);
    T::decode(&mut decoder)
}

/// Decoding what encoding a value gives yields the value again: the same tree,
/// with every object's entries in the same order.
pub proof fn lemma_value_round_trip(v: &Value, at: Seq<Seq<char>>, r: Result<Value, Error>)
    requires
        <Value as Decode>::decodes_as(at, v.encoding()->Ok_0, r),
    ensures
        v.encoding() is Ok,
        r matches Ok(w) && w@ == v@,
{
}

} // verus!
