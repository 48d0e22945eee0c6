//! The rules by which an encoding is derived for a struct or an enum: wire keys
//! from field and variant names, static tag entries, and the tree that the
//! derived encoding writes.
use vstd::prelude::*;
use vstd::string::*;

use heck::{ToKebabCase, ToLowerCamelCase, ToPascalCase, ToSnakeCase};

use crate::enc::KeyedContainer;
use crate::value::{insert_entry, to_value, Value, ValueModel};

verus! {

pub uninterp spec fn lower_camel_case_of(s: Seq<char>) -> Seq<char>;

pub uninterp spec fn pascal_case_of(s: Seq<char>) -> Seq<char>;

pub uninterp spec fn kebab_case_of(s: Seq<char>) -> Seq<char>;

pub uninterp spec fn snake_case_of(s: Seq<char>) -> Seq<char>;

/// Relies on heck's `ToLowerCamelCase::to_lower_camel_case`: the result depends
/// on the text alone.
#[verifier::external_body]
fn lower_camel_case(s: &str) -> (r: String)
    ensures
        r@ == lower_camel_case_of(s@),
{
    s.to_lower_camel_case()
}

/// Relies on heck's `ToPascalCase::to_pascal_case`: the result depends on the
/// text alone.
#[verifier::external_body]
fn pascal_case(s: &str) -> (r: String)
    ensures
        r@ == pascal_case_of(s@),
{
    s.to_pascal_case()
}

/// Relies on heck's `ToKebabCase::to_kebab_case`: the result depends on the text
/// alone.
#[verifier::external_body]
fn kebab_case(s: &str) -> (r: String)
    ensures
        r@ == kebab_case_of(s@),
{
    s.to_kebab_case()
}

/// Relies on heck's `ToSnakeCase::to_snake_case`: the result depends on the text
/// alone.
#[verifier::external_body]
fn snake_case(s: &str) -> (r: String)
    ensures
        r@ == snake_case_of(s@),
{
    s.to_snake_case()
}

/// How field and variant names become wire keys.
#[derive(Debug, Clone, Copy, PartialEq, Eq)]
pub enum RenameStyle {
    CamelCase,
    PascalCase,
    KebabCase,
    SnakeCase,
}

/// The wire key of the name `input` under `style`.
pub open spec fn renamed(style: RenameStyle, input: Seq<char>) -> Seq<char> {
    match style {
        RenameStyle::CamelCase => lower_camel_case_of(input),
        RenameStyle::PascalCase => pascal_case_of(input),
        RenameStyle::KebabCase => kebab_case_of(input),
        RenameStyle::SnakeCase => snake_case_of(input),
    }
}

impl RenameStyle {
    /// The style that an attribute value names: `camel-case`, `pascal-case`,
    /// `kebab-case` or `snake-case`; `None` for any other text.
    pub fn from_string(value: &str) -> (r: Option<RenameStyle>)
        ensures
            r == (if value@ == "camel-case"@ {
                Some(RenameStyle::CamelCase)
            } else if value@ == "pascal-case"@ {
                Some(RenameStyle::PascalCase)
            } else if value@ == "kebab-case"@ {
                Some(RenameStyle::KebabCase)
            } else if value@ == "snake-case"@ {
                Some(RenameStyle::SnakeCase)
            } else {
                None::<RenameStyle>
            }),
    {
        let v = String::from_str(value);
        if v == String::from_str("camel-case") {
            Some(RenameStyle::CamelCase)
        } else if v == String::from_str("pascal-case") {
            Some(RenameStyle::PascalCase)
        } else if v == String::from_str("kebab-case") {
            Some(RenameStyle::KebabCase)
        } else if v == String::from_str("snake-case") {
            Some(RenameStyle::SnakeCase)
        } else {
            None
        }
    }
}

pub fn rename_input(style: RenameStyle, input: &str) -> (r: String)
    ensures
        r@ == renamed(style, input@),
{
    match style {
        RenameStyle::CamelCase => lower_camel_case(input),
        RenameStyle::PascalCase => pascal_case(input),
        RenameStyle::KebabCase => kebab_case(input),
        RenameStyle::SnakeCase => snake_case(input),
    }
}

/// The wire key of a field or variant named `ident`: its own literal where it
/// has one, else the name under the style where there is one, else the name.
pub open spec fn wire_key_of(rename: Option<RenameStyle>, own: Option<Seq<char>>, ident: Seq<char>) -> Seq<char> {
    match own {
        Some(k) => k,
        None => match rename {
            Some(style) => renamed(style, ident),
            None => ident,
        },
    }
}

pub fn wire_key(rename: Option<RenameStyle>, own: &Option<String>, ident: &str) -> (r: String)
    ensures
        r@ == wire_key_of(
            rename,
            match own {
                Some(k) => Some(k@),
                None => None,
            },
            ident@,
        ),
{
    match own {
        Some(k) => k.clone(),
        None => match rename {
            Some(style) => rename_input(style, ident),
            None => String::from_str(ident),
        },
    }
}

/// One item of an attribute's argument list: a literal, as the value it
/// encodes to, or anything else.
#[derive(Debug)]
pub enum AttrItem {
    Meta,
    Lit(Value),
}

/// Why a `tag(..)` argument list is not a tag pair.
#[derive(Debug, Clone, Copy, PartialEq, Eq)]
pub enum TagError {
    /// The list does not hold exactly two items; it holds this many.
    Count(usize),
    /// The first item is not a string literal.
    NameNotString,
    /// The second item is not a literal.
    ValueNotLiteral,
}

/// A fixed entry that a derived encoding writes before the fields.
#[derive(Debug)]
pub struct TagPair {
    pub name: String,
    pub value: Value,
}

impl TagPair {
    /// Reads `tag("<name>", <literal>)` from its argument list.
    pub fn from_list(items: &Vec<AttrItem>) -> (r: Result<TagPair, TagError>)
        ensures
            items@.len() != 2 ==> r == Err::<TagPair, TagError>(TagError::Count(items@.len() as usize)),
            items@.len() == 2 ==> match (items@[0], items@[1]) {
                (AttrItem::Lit(Value::String(n)), AttrItem::Lit(v)) => r matches Ok(t) && t.name@ == n@ && t.value@ == v@,
                (AttrItem::Lit(Value::String(_)), _) => r == Err::<TagPair, TagError>(TagError::ValueNotLiteral),
                _ => r == Err::<TagPair, TagError>(TagError::NameNotString),
            },
    {
        if items.len() != 2 {
            return Err(TagError::Count(items.len()));
        }
        let name = match &items[0] {
            AttrItem::Lit(Value::String(x)) => x.clone(),
            _ => {
                return Err(TagError::NameNotString);
            },
        };
        let value = match &items[1] {
            AttrItem::Lit(x) => match to_value(x) {
                Ok(v) => v,
                Err(_) => {
                    return Err(TagError::ValueNotLiteral);
                },
            },
            AttrItem::Meta => {
                return Err(TagError::ValueNotLiteral);
            },
        };
        Ok(TagPair { name, value })
    }
}

/// The attributes of a struct or an enum: its tag pairs and its rename style.
#[derive(Debug)]
pub struct CodableAttrs {
    pub tag: Vec<TagPair>,
    pub rename: Option<RenameStyle>,
}

/// The attributes of a field or a variant: its own wire key, if any.
#[derive(Debug)]
pub struct CodableAttrAttrs {
    pub rename: Option<String>,
}

pub open spec fn own_key(a: CodableAttrAttrs) -> Option<Seq<char>> {
    match a.rename {
        Some(k) => Some(k@),
        None => None,
    }
}

/// What a field holds, as the tree its own encoding gives: a plain field, or an
/// optional one that may be empty.
#[derive(Debug)]
pub enum FieldValue {
    Plain(Value),
    Optional(Option<Value>),
}

/// The tree written for a field: an empty optional field is written as null.
pub open spec fn field_model(f: FieldValue) -> ValueModel {
    match f {
        FieldValue::Plain(v) => v@,
        FieldValue::Optional(Some(v)) => v@,
        FieldValue::Optional(None) => ValueModel::Null,
    }
}

/// A named field of a struct, with its attributes and its value.
#[derive(Debug)]
pub struct StructField {
    pub ident: String,
    pub attrs: CodableAttrAttrs,
    pub value: FieldValue,
}

/// A variant of an enum without payload, with its attributes.
#[derive(Debug)]
pub struct EnumVariant {
    pub ident: String,
    pub attrs: CodableAttrAttrs,
}

/// Entries after each write in turn, from none.
pub open spec fn write_all(writes: Seq<(Seq<char>, ValueModel)>) -> Seq<(Seq<char>, ValueModel)>
    decreases writes.len(),
{
    if writes.len() == 0 {
        Seq::empty()
    } else {
        insert_entry(write_all(writes.drop_last()), writes.last().0, writes.last().1)
    }
}

pub open spec fn tag_writes(tags: Seq<TagPair>) -> Seq<(Seq<char>, ValueModel)> {
    tags.map_values(|t: TagPair| (t.name@, t.value@))
}

pub open spec fn field_writes(rename: Option<RenameStyle>, fields: Seq<StructField>) -> Seq<(Seq<char>, ValueModel)> {
    fields.map_values(|f: StructField| (wire_key_of(rename, own_key(f.attrs), f.ident@), field_model(f.value)))
}

/// Writes the tag pairs, in order.
fn write_tags(c: &mut KeyedContainer, tags: &Vec<TagPair>)
    requires
        old(c).entries() == Seq::<(Seq<char>, ValueModel)>::empty(),
    ensures
        final(c).at() == old(c).at(),
        final(c).entries() == write_all(tag_writes(tags@)),
{
    let mut i: usize = 0;
    while i < tags.len()
        invariant
            i <= tags.len(),
            c.at() == old(c).at(),
            c.entries() == write_all(tag_writes(tags@).subrange(0, i as int)),
        decreases tags.len() - i,
    {
        let ghost pre = tag_writes(tags@).subrange(0, i as int);
        let ghost next = tag_writes(tags@).subrange(0, i + 1);
        assert(next.drop_last() =~= pre);
        let t = &tags[i];
        let r = c.encode(&t.value, &t.name);
        i = i + 1;
    }
    assert(tag_writes(tags@).subrange(0, tags.len() as int) =~= tag_writes(tags@));
}

/// The tree that the derived encoding of a struct writes: an object with the
/// tag pairs first, then one entry per field under its wire key.
pub fn encode_struct(attrs: &CodableAttrs, fields: &Vec<StructField>) -> (r: Value)
    ensures
        r@ == ValueModel::Object(write_all(tag_writes(attrs.tag@) + field_writes(attrs.rename, fields@))),
{
    let mut encoder = crate::enc::JsonEncoder::new();
    let mut c = encoder.as_container();
    write_tags(&mut c, &attrs.tag);
    let ghost tw = tag_writes(attrs.tag@);
    let ghost fw = field_writes(attrs.rename, fields@);
    let mut i: usize = 0;
    assert(tw + fw.subrange(0, 0) =~= tw);
    while i < fields.len()
        invariant
            i <= fields.len(),
            tw == tag_writes(attrs.tag@),
            fw == field_writes(attrs.rename, fields@),
            c.entries() == write_all(tw + fw.subrange(0, i as int)),
        decreases fields.len() - i,
    {
        let ghost pre = tw + fw.subrange(0, i as int);
        let ghost next = tw + fw.subrange(0, i + 1);
        assert(next.drop_last() =~= pre);
        let f = &fields[i];
        let key = wire_key(attrs.rename, &f.attrs.rename, f.ident.as_str());
        let r = match &f.value {
            FieldValue::Plain(v) => c.encode(v, &key),
            FieldValue::Optional(Some(v)) => c.encode_option(Some(v), &key),
            FieldValue::Optional(None) => c.encode_option::<Value, String>(None, &key),
        };
        i = i + 1;
    }
    assert(fw.subrange(0, fields.len() as int) =~= fw);
    c.finish()
}

/// The wire key of a variant.
pub open spec fn variant_key(attrs: CodableAttrs, v: EnumVariant) -> Seq<char> {
    wire_key_of(attrs.rename, own_key(v.attrs), v.ident@)
}

/// The tree that the derived encoding of an enum writes for `variant`: the
/// variant's wire key as a string; where the enum has tag pairs, an object of
/// the tag pairs and that string under `value`.
pub fn encode_enum(attrs: &CodableAttrs, variant: &EnumVariant) -> (r: Value)
    ensures
        attrs.tag@.len() == 0 ==> r@ == ValueModel::String(variant_key(*attrs, *variant)),
        attrs.tag@.len() > 0 ==> r@ == ValueModel::Object(
            write_all(tag_writes(attrs.tag@).push(("value"@, ValueModel::String(variant_key(*attrs, *variant))))),
        ),
{
    let key = wire_key(attrs.rename, &variant.attrs.rename, variant.ident.as_str());
    let mut encoder = crate::enc::JsonEncoder::new();
    if attrs.tag.len() == 0 {
        let mut c = encoder.as_value_container();
        let r = c.encode_str(key.as_str());
        c.finish()
    } else {
        let mut c = encoder.as_container();
        write_tags(&mut c, &attrs.tag);
        let ghost tw = tag_writes(attrs.tag@);
        let ghost all = tw.push(("value"@, ValueModel::String(key@)));
        assert(all.drop_last() =~= tw);
        let r = c.encode_str(key.as_str(), &"value");
        c.finish()
    }
}

/// Which variant a key read back names: the first whose wire key it is, among
/// the variants' wire keys in declaration order.
pub fn variant_index(keys: &Vec<String>, key: &String) -> (r: Option<usize>)
    ensures
        match r {
            Some(i) => i < keys@.len() && keys@[i as int]@ == key@ && forall|j: int| 0 <= j < i ==> #[trigger] keys@[j]@ != key@,
            None => forall|j: int| 0 <= j < keys@.len() ==> #[trigger] keys@[j]@ != key@,
        },
{
    let mut i: usize = 0;
    while i < keys.len()
        invariant
            i <= keys@.len(),
            forall|j: int| 0 <= j < i ==> #[trigger] keys@[j]@ != key@,
        decreases keys.len() - i,
    {
        if keys[i] == *key {
            return Some(i);
        }
        i = i + 1;
    }
    None
}

} // verus!
