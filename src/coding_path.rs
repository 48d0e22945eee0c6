//! Where a value stands in a document: a chain of keys from the root.
use std::rc::Rc;
use vstd::prelude::*;
use vstd::string::*;

use crate::decimal::{decimal, unsigned_text};

verus! {

/// One step of a location: the root, a position in an array, or a field name.
#[derive(Debug, PartialEq, Eq, PartialOrd, Ord, Hash)]
pub enum CodingKey {
    Root,
    Int(usize),
    String(String),
}

impl CodingKey {
    /// The text of this key within a dotted path; the root has none.
    pub open spec fn text(&self) -> Seq<char> {
        match self {
            CodingKey::Root => Seq::<char>::empty(),
            CodingKey::Int(n) => decimal(*n as nat),
            CodingKey::String(s) => s@,
        }
    }

    /// The text of this key for a reader: the root shows as `<root>`.
    pub open spec fn display_text(&self) -> Seq<char> {
        match self {
            CodingKey::Root => seq!['<', 'r', 'o', 'o', 't', '>'],
            _ => self.text(),
        }
    }

    pub fn as_str(&self) -> (r: String)
        ensures
            r@ == self.text(),
    {
        match self {
            CodingKey::Root => String::new(),
            CodingKey::String(x) => x.clone(),
            CodingKey::Int(x) => unsigned_text(*x as u128),
        }
    }

    pub fn to_string(&self) -> (r: String)
        ensures
            r@ == self.display_text(),
    {
        match self {
            CodingKey::Root => {
                proof {
                    reveal_strlit("<root>");
                }
                let r = String::from_str("<root>");
                assert(r@ =~= self.display_text());
                r
            },
            _ => self.as_str(),
        }
    }
}

impl Clone for CodingKey {
    fn clone(&self) -> (r: Self)
        ensures
            r == *self,
    {
        match self {
            CodingKey::Root => CodingKey::Root,
            CodingKey::Int(n) => CodingKey::Int(*n),
            CodingKey::String(s) => CodingKey::String(s.clone()),
        }
    }
}

/// Something that names a field: its text is the key under which it is stored.
pub trait ToCodingKey {
    spec fn key_text(&self) -> Seq<char>;

    fn to_coding_key(&self) -> (r: CodingKey)
        ensures
            r.text() == self.key_text(),
    ;

    fn as_str(&self) -> (r: String)
        ensures
            r@ == self.key_text(),
    {
        self.to_coding_key().as_str()
    }
}

impl ToCodingKey for String {
    open spec fn key_text(&self) -> Seq<char> {
        self@
    }

    fn to_coding_key(&self) -> (r: CodingKey) {
        CodingKey::String(self.clone())
    }
}

impl<'a> ToCodingKey for &'a str {
    open spec fn key_text(&self) -> Seq<char> {
        (*self)@
    }

    fn to_coding_key(&self) -> (r: CodingKey) {
        CodingKey::String(String::from_str(*self))
    }
}

/// Texts joined by `.`, first to last.
pub open spec fn dotted(ts: Seq<Seq<char>>) -> Seq<char>
    decreases ts.len(),
{
    if ts.len() == 0 {
        Seq::<char>::empty()
    } else if ts.len() == 1 {
        ts[0]
    } else {
        dotted(ts.drop_last()) + seq!['.'] + ts.last()
    }
}

/// The texts of keys, in their order.
pub open spec fn key_texts(ks: Seq<CodingKey>) -> Seq<Seq<char>> {
    ks.map_values(|k: CodingKey| k.text())
}

/// A location in a document: a key and the location it extends. Extending a
/// path shares its ancestors instead of copying them.
#[derive(Debug)]
pub struct CodingPath {
    parent: Option<Rc<CodingPath>>,
    key: CodingKey,
}

/// Relies on `Rc::clone`: the new handle refers to the same path.
#[verifier::external_body]
fn share(p: &Rc<CodingPath>) -> (r: Rc<CodingPath>)
    ensures
        r == *p,
{
    Rc::clone(p)
}

impl CodingPath {
    /// The keys of the path, from the root to the leaf.
    pub closed spec fn keys(&self) -> Seq<CodingKey>
        decreases self,
    {
        match &self.parent {
            None => seq![self.key],
            Some(p) => p.keys().push(self.key),
        }
    }

    /// The texts of the keys, from the root to the leaf.
    pub open spec fn texts(&self) -> Seq<Seq<char>> {
        key_texts(self.keys())
    }

    /// The dotted text of the path: every key after the root's, joined by `.`.
    pub open spec fn text(&self) -> Seq<char> {
        dotted(self.texts().drop_first())
    }

    proof fn lemma_keys_nonempty(&self)
        ensures
            self.keys().len() >= 1,
        decreases self,
    {
        match &self.parent {
            None => {},
            Some(p) => p.lemma_keys_nonempty(),
        }
    }

    pub fn root() -> (r: CodingPath)
        ensures
            r.keys() == seq![CodingKey::Root],
            r.texts() == seq![Seq::<char>::empty()],
            r.text() == Seq::<char>::empty(),
    {
        let r = CodingPath { parent: None, key: CodingKey::Root };
        assert(r.texts() =~= seq![Seq::<char>::empty()]);
        assert(r.texts().drop_first() =~= Seq::<Seq<char>>::empty());
        r
    }

    /// Sets the leaf key.
    pub fn replace(&mut self, item: CodingKey)
        ensures
            old(self).keys().len() >= 1,
            final(self).keys() == old(self).keys().update(old(self).keys().len() - 1, item),
    {
        proof {
            self.lemma_keys_nonempty();
        }
        self.key = item;
        proof {
            match &old(self).parent {
                None => {
                    assert(final(self).keys() =~= old(self).keys().update(0, item));
                },
                Some(p) => {
                    assert(final(self).keys() =~= old(self).keys().update(
                        old(self).keys().len() - 1,
                        item,
                    ));
                },
            }
        }
    }

    pub fn join(&self, item: CodingKey) -> (r: CodingPath)
        ensures
            r.keys() == self.keys().push(item),
            r.texts() == self.texts().push(item.text()),
    {
        let r = CodingPath { parent: Some(Rc::new(self.clone())), key: item };
        assert(r.texts() =~= self.texts().push(item.text()));
        r
    }

    /// Walks the keys from the leaf back to the root.
    pub fn iter(&self) -> (r: CodingPathIter)
        ensures
            r.pending() == self.keys(),
    {
        CodingPathIter { current: Some(self.clone()) }
    }

    /// The keys from the root to the leaf.
    pub fn to_vec(&self) -> (r: Vec<CodingKey>)
        ensures
            r@ == self.keys(),
        decreases self,
    {
        let mut v = match &self.parent {
            None => Vec::new(),
            Some(p) => p.to_vec(),
        };
        v.push(self.key.clone());
        proof {
            match &self.parent {
                None => {
                    assert(v@ =~= self.keys());
                },
                Some(p) => {},
            }
        }
        v
    }

    /// The dotted text of the path, as `text` describes it.
    pub fn to_string(&self) -> (r: String)
        ensures
            r@ == self.text(),
    {
        let keys = self.to_vec();
        let ghost rest = self.texts().drop_first();
        let mut out = String::new();
        let mut i: usize = 1;
        proof {
            self.lemma_keys_nonempty();
            assert(rest.subrange(0, 0) =~= Seq::<Seq<char>>::empty());
        }
        while i < keys.len()
            invariant
                1 <= i <= keys@.len(),
                keys@ == self.keys(),
                rest == self.texts().drop_first(),
                out@ == dotted(rest.subrange(0, i - 1)),
            decreases keys.len() - i,
        {
            let ghost before = rest.subrange(0, i - 1);
            let ghost after = rest.subrange(0, i as int);
            assert(after.drop_last() =~= before);
            assert(after.last() == keys@[i as int].text());
            if i > 1 {
                proof {
                    reveal_strlit(".");
                }
                out.append(".");
            }
            let t = keys[i].as_str();
            out.append(t.as_str());
            proof {
                if i == 1 {
                    assert(out@ =~= dotted(after));
                } else {
                    assert(out@ =~= dotted(before) + seq!['.'] + after.last());
                }
            }
            i = i + 1;
        }
        assert(rest.subrange(0, keys@.len() - 1) =~= rest);
        out
    }
}

impl Clone for CodingPath {
    fn clone(&self) -> (r: Self)
        ensures
            r == *self,
    {
        let parent = match &self.parent {
            None => None,
            Some(p) => Some(share(p)),
        };
        CodingPath { parent, key: self.key.clone() }
    }
}

/// The keys of a path, handed out from the leaf back to the root.
pub struct CodingPathIter {
    current: Option<CodingPath>,
}

impl CodingPathIter {
    /// The keys still to come, root first: `next` hands out the last of them.
    pub closed spec fn pending(&self) -> Seq<CodingKey> {
        match &self.current {
            None => Seq::<CodingKey>::empty(),
            Some(p) => p.keys(),
        }
    }

    pub fn next(&mut self) -> (r: Option<CodingKey>)
        ensures
            old(self).pending().len() == 0 ==> r is None && final(self).pending().len() == 0,
            old(self).pending().len() > 0 ==> r == Some(old(self).pending().last())
                && final(self).pending() == old(self).pending().drop_last(),
    {
        match self.current.take() {
            None => None,
            Some(p) => {
                let key = p.key.clone();
                self.current = match &p.parent {
                    None => None,
                    Some(q) => Some(CodingPath::clone(&*q)),
                };
                proof {
                    match &p.parent {
                        None => {
                            assert(old(self).pending().drop_last() =~= Seq::<CodingKey>::empty());
                        },
                        Some(q) => {
                            assert(old(self).pending().drop_last() =~= q.keys());
                        },
                    }
                }
                Some(key)
            },
        }
    }
}

} // verus!
