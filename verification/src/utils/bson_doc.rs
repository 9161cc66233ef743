//! BSON documents and values, as the alert database keeps them.
//!
//! A [`Document`] is a list of named fields in the order they were first written. What
//! documents and values hold is given by [`document_fields`] and [`bson_value`].

use crate::utils::double;
use crate::utils::double::Double;
use crate::utils::text;
use mongodb::bson::{Bson, Document};
use vstd::prelude::*;

verus! {

/// A BSON value.
#[verifier::external_type_specification]
#[verifier::external_body]
pub struct ExBson(mongodb::bson::Bson);

/// A BSON document.
#[verifier::external_type_specification]
#[verifier::external_body]
pub struct ExDocument(mongodb::bson::Document);

/// The contents of a BSON value.
pub enum Content {
    /// A double-precision number, by its bit pattern.
    Double(u64),
    Text(Seq<char>),
    Array(Seq<Content>),
    /// An embedded document.
    Object(Seq<(Seq<char>, Content)>),
    Bool(bool),
    Null,
    Int32(i32),
    Int64(i64),
    /// A value of any other BSON type, as it is.
    Other(Bson),
}

/// What a value holds.
pub uninterp spec fn bson_value(b: Bson) -> Content;

/// The fields of a document, in the order in which their names were first written.
pub uninterp spec fn document_fields(d: Document) -> Seq<(Seq<char>, Content)>;

/// The value of the field `key`.
pub open spec fn lookup(fields: Seq<(Seq<char>, Content)>, key: Seq<char>) -> Option<Content>
    decreases fields.len(),
{
    if fields.len() == 0 {
        None
    } else if fields[0].0 == key {
        Some(fields[0].1)
    } else {
        lookup(fields.drop_first(), key)
    }
}

/// The fields with `key` set to `value`: in its place where it is there, at the end
/// where it is not.
pub open spec fn with_field(
    fields: Seq<(Seq<char>, Content)>,
    key: Seq<char>,
    value: Content,
) -> Seq<(Seq<char>, Content)>
    decreases fields.len(),
{
    if fields.len() == 0 {
        seq![(key, value)]
    } else if fields[0].0 == key {
        seq![(key, value)] + fields.drop_first()
    } else {
        seq![fields[0]] + with_field(fields.drop_first(), key, value)
    }
}

/// The values of a list.
pub open spec fn values(items: Seq<Bson>) -> Seq<Content> {
    items.map_values(|b: Bson| bson_value(b))
}

/// The fields of each document of a list.
pub open spec fn documents(items: Seq<Document>) -> Seq<Seq<(Seq<char>, Content)>> {
    items.map_values(|d: Document| document_fields(d))
}

/// `Document::new` makes a document without fields.
#[verifier::external_body]
pub(crate) fn new_document() -> (d: Document)
    ensures
        document_fields(d) == Seq::<(Seq<char>, Content)>::empty(),
{
    Document::new()
}

/// `Document::insert` sets a field, in its place where the name is there and at the end
/// where it is not. The value that it replaces is dropped.
#[verifier::external_body]
pub(crate) fn insert(d: &mut Document, key: &str, value: Bson)
    ensures
        document_fields(*final(d)) == with_field(document_fields(*old(d)), key@, bson_value(value)),
{
    d.insert(key, value);
}

/// `Document::get` finds the value of a field by its name.
#[verifier::external_body]
pub(crate) fn get<'a>(d: &'a Document, key: &str) -> (r: Option<&'a Bson>)
    ensures
        match r {
            Some(b) => lookup(document_fields(*d), key@) == Some(bson_value(*b)),
            None => lookup(document_fields(*d), key@) is None,
        },
{
    d.get(key)
}

/// `Document::clone` makes a document with the same fields.
#[verifier::external_body]
pub(crate) fn clone_document(d: &Document) -> (r: Document)
    ensures
        document_fields(r) == document_fields(*d),
{
    d.clone()
}

/// `Bson::clone` makes a value that holds the same.
#[verifier::external_body]
pub(crate) fn clone_bson(b: &Bson) -> (r: Bson)
    ensures
        bson_value(r) == bson_value(*b),
{
    b.clone()
}

/// `Bson::String` holds a text.
#[verifier::external_body]
pub(crate) fn text_value(t: &str) -> (b: Bson)
    ensures
        bson_value(b) == Content::Text(t@),
{
    Bson::String(t.to_string())
}

/// `Bson::Int32` holds a 32-bit integer.
#[verifier::external_body]
pub(crate) fn int32(n: i32) -> (b: Bson)
    ensures
        bson_value(b) == Content::Int32(n),
{
    Bson::Int32(n)
}

/// `Bson::Int64` holds a 64-bit integer.
#[verifier::external_body]
pub(crate) fn int64(n: i64) -> (b: Bson)
    ensures
        bson_value(b) == Content::Int64(n),
{
    Bson::Int64(n)
}

/// `Bson::Boolean` holds a truth value.
#[verifier::external_body]
pub(crate) fn boolean(v: bool) -> (b: Bson)
    ensures
        bson_value(b) == Content::Bool(v),
{
    Bson::Boolean(v)
}

/// `Bson::Null` holds nothing.
#[verifier::external_body]
pub(crate) fn null() -> (b: Bson)
    ensures
        bson_value(b) == Content::Null,
{
    Bson::Null
}

/// `Bson::Array` holds a list of values.
#[verifier::external_body]
pub(crate) fn array(items: Vec<Bson>) -> (b: Bson)
    ensures
        bson_value(b) == Content::Array(values(items@)),
{
    Bson::Array(items)
}

/// `Bson::Document` holds an embedded document.
#[verifier::external_body]
pub(crate) fn object(d: Document) -> (b: Bson)
    ensures
        bson_value(b) == Content::Object(document_fields(d)),
{
    Bson::Document(d)
}

/// `Document::from_reader` decodes a document of a single field with an empty name,
/// type 1 and the eight bytes of the number, least significant first, and
/// `Document::remove` takes the number out. The encoding of a BSON double is the bit
/// pattern itself, so the value holds the number that was given.
#[verifier::external_body]
pub(crate) fn double_value(d: Double) -> (b: Bson)
    ensures
        bson_value(b) == Content::Double(d.bits),
{
    let mut bytes: Vec<u8> = vec![15, 0, 0, 0, 1, 0];
    bytes.extend_from_slice(&d.bits.to_le_bytes());
    bytes.push(0);
    Document::from_reader(bytes.as_slice()).unwrap().remove("").unwrap()
}

/// `Bson::as_f64` reads a double.
#[verifier::external_body]
pub(crate) fn as_double(b: &Bson) -> (r: Option<Double>)
    ensures
        match r {
            Some(d) => bson_value(*b) == Content::Double(d.bits),
            None => !(bson_value(*b) is Double),
        },
{
    b.as_f64().map(|v| Double { bits: v.to_bits() })
}

/// `Bson::as_str` reads a text.
#[verifier::external_body]
pub(crate) fn as_text(b: &Bson) -> (r: Option<&str>)
    ensures
        match r {
            Some(t) => bson_value(*b) == Content::Text(t@),
            None => !(bson_value(*b) is Text),
        },
{
    b.as_str()
}

/// `Bson::as_i32` reads a 32-bit integer.
#[verifier::external_body]
pub(crate) fn as_int32(b: &Bson) -> (r: Option<i32>)
    ensures
        match r {
            Some(n) => bson_value(*b) == Content::Int32(n),
            None => !(bson_value(*b) is Int32),
        },
{
    b.as_i32()
}

/// `Bson::as_i64` reads a 64-bit integer.
#[verifier::external_body]
pub(crate) fn as_int64(b: &Bson) -> (r: Option<i64>)
    ensures
        match r {
            Some(n) => bson_value(*b) == Content::Int64(n),
            None => !(bson_value(*b) is Int64),
        },
{
    b.as_i64()
}

/// `Bson::as_array` reads a list.
#[verifier::external_body]
pub(crate) fn as_array(b: &Bson) -> (r: Option<&Vec<Bson>>)
    ensures
        match r {
            Some(items) => bson_value(*b) == Content::Array(values(items@)),
            None => !(bson_value(*b) is Array),
        },
{
    b.as_array()
}

/// `Bson::as_document` reads an embedded document.
#[verifier::external_body]
pub(crate) fn as_document(b: &Bson) -> (r: Option<&Document>)
    ensures
        match r {
            Some(d) => bson_value(*b) == Content::Object(document_fields(*d)),
            None => !(bson_value(*b) is Object),
        },
{
    b.as_document()
}

/// The document with `key` set to `value`.
pub fn with(d: Document, key: &str, value: Bson) -> (r: Document)
    ensures
        document_fields(r) == with_field(document_fields(d), key@, bson_value(value)),
{
    let mut out = d;
    insert(&mut out, key, value);
    out
}

/// The document with one field.
pub open spec fn one(key: Seq<char>, value: Content) -> Seq<(Seq<char>, Content)> {
    with_field(no_fields(), key, value)
}

/// The document with one field, as a value.
pub open spec fn wrapped(key: Seq<char>, value: Content) -> Content {
    Content::Object(one(key, value))
}

/// A document with one field.
pub fn single(key: &str, value: Bson) -> (r: Document)
    ensures
        document_fields(r) == one(key@, bson_value(value)),
{
    with(new_document(), key, value)
}

/// A document with one field, as a value.
pub fn wrap(key: &str, value: Bson) -> (r: Bson)
    ensures
        bson_value(r) == wrapped(key@, bson_value(value)),
{
    object(single(key, value))
}

/// A list of no values.
pub fn empty_list() -> (r: Bson)
    ensures
        bson_value(r) == Content::Array(seq![]),
{
    let items: Vec<Bson> = Vec::new();
    assert(values(items@) =~= seq![]);
    array(items)
}

/// A list of two values.
pub fn pair(a: Bson, b: Bson) -> (r: Bson)
    ensures
        bson_value(r) == Content::Array(seq![bson_value(a), bson_value(b)]),
{
    let mut items: Vec<Bson> = Vec::new();
    let ghost expected = seq![bson_value(a), bson_value(b)];
    items.push(a);
    items.push(b);
    assert(values(items@) =~= expected);
    array(items)
}

/// The document without fields.
pub open spec fn no_fields() -> Seq<(Seq<char>, Content)> {
    Seq::empty()
}

/// The value of an optional double: null where there is none.
pub open spec fn optional_value(d: Option<Double>) -> Content {
    match d {
        Some(v) => Content::Double(v.bits),
        None => Content::Null,
    }
}

/// An optional double as a value.
pub fn optional_double(d: Option<Double>) -> (b: Bson)
    ensures
        bson_value(b) == optional_value(d),
{
    match d {
        Some(v) => double_value(v),
        None => null(),
    }
}

/// The double in the field `key`.
pub open spec fn double_field(fields: Seq<(Seq<char>, Content)>, key: Seq<char>) -> Option<Double> {
    match lookup(fields, key) {
        Some(Content::Double(bits)) => Some(Double { bits }),
        _ => None,
    }
}

/// The text in the field `key`.
pub open spec fn text_field(fields: Seq<(Seq<char>, Content)>, key: Seq<char>) -> Option<
    Seq<char>,
> {
    match lookup(fields, key) {
        Some(Content::Text(t)) => Some(t),
        _ => None,
    }
}

/// The embedded document in the field `key`.
pub open spec fn object_field(fields: Seq<(Seq<char>, Content)>, key: Seq<char>) -> Option<
    Seq<(Seq<char>, Content)>,
> {
    match lookup(fields, key) {
        Some(Content::Object(inner)) => Some(inner),
        _ => None,
    }
}

/// The list in the field `key`.
pub open spec fn array_field(fields: Seq<(Seq<char>, Content)>, key: Seq<char>) -> Option<
    Seq<Content>,
> {
    match lookup(fields, key) {
        Some(Content::Array(items)) => Some(items),
        _ => None,
    }
}

/// The double in the field `key` of a document.
pub fn get_double(d: &Document, key: &str) -> (r: Option<Double>)
    ensures
        r == double_field(document_fields(*d), key@),
{
    match get(d, key) {
        Some(b) => as_double(b),
        None => None,
    }
}

/// The text in the field `key` of a document.
pub fn get_text<'a>(d: &'a Document, key: &str) -> (r: Option<&'a str>)
    ensures
        match r {
            Some(t) => text_field(document_fields(*d), key@) == Some(t@),
            None => text_field(document_fields(*d), key@) is None,
        },
{
    match get(d, key) {
        Some(b) => as_text(b),
        None => None,
    }
}

/// The embedded document in the field `key` of a document.
pub fn get_object<'a>(d: &'a Document, key: &str) -> (r: Option<&'a Document>)
    ensures
        match r {
            Some(inner) => object_field(document_fields(*d), key@) == Some(document_fields(*inner)),
            None => object_field(document_fields(*d), key@) is None,
        },
{
    match get(d, key) {
        Some(b) => as_document(b),
        None => None,
    }
}

/// The list in the field `key` of a document.
pub fn get_array<'a>(d: &'a Document, key: &str) -> (r: Option<&'a Vec<Bson>>)
    ensures
        match r {
            Some(items) => array_field(document_fields(*d), key@) == Some(values(items@)),
            None => array_field(document_fields(*d), key@) is None,
        },
{
    match get(d, key) {
        Some(b) => as_array(b),
        None => None,
    }
}

/// Texts as values.
pub open spec fn text_values(names: Seq<Seq<char>>) -> Seq<Content> {
    names.map_values(|t: Seq<char>| Content::Text(t))
}

/// A list of texts as a value.
pub fn text_list(names: &Vec<String>) -> (b: Bson)
    ensures
        bson_value(b) == Content::Array(text_values(text::texts(names@))),
{
    let mut items: Vec<Bson> = Vec::new();
    let mut i: usize = 0;
    while i < names.len()
        invariant
            i <= names.len(),
            items@.len() == i,
            forall|k: int|
                0 <= k < i ==> bson_value(#[trigger] items@[k]) == Content::Text(names@[k]@),
        decreases names.len() - i,
    {
        items.push(text_value(names[i].as_str()));
        i = i + 1;
    }
    assert(values(items@) =~= text_values(text::texts(names@)));
    array(items)
}

/// Integers as values.
pub open spec fn int_values(numbers: Seq<i32>) -> Seq<Content> {
    numbers.map_values(|n: i32| Content::Int32(n))
}

/// A list of integers as a value.
pub fn int_list(numbers: &Vec<i32>) -> (b: Bson)
    ensures
        bson_value(b) == Content::Array(int_values(numbers@)),
{
    let mut items: Vec<Bson> = Vec::new();
    let mut i: usize = 0;
    while i < numbers.len()
        invariant
            i <= numbers.len(),
            items@.len() == i,
            forall|k: int|
                0 <= k < i ==> bson_value(#[trigger] items@[k]) == Content::Int32(numbers@[k]),
        decreases numbers.len() - i,
    {
        items.push(int32(numbers[i]));
        i = i + 1;
    }
    assert(values(items@) =~= int_values(numbers@));
    array(items)
}

/// The number that a value holds, whatever width it was written at.
pub open spec fn number_value(v: Content) -> Option<Double> {
    match v {
        Content::Double(bits) => Some(Double { bits }),
        Content::Int32(n) => Some(double::of_integer(n as int)),
        Content::Int64(n) => Some(double::of_integer(n as int)),
        _ => None,
    }
}

/// The number in the field `key`.
pub open spec fn number_field(fields: Seq<(Seq<char>, Content)>, key: Seq<char>) -> Option<Double> {
    match lookup(fields, key) {
        Some(v) => number_value(v),
        None => None,
    }
}

/// A BSON number, whatever width it was written at.
///
/// Mongo stores an integer-valued double as an int, so a reader that accepts
/// only `Double` silently drops values that were written as floats.
pub fn bson_number(value: &Bson) -> (r: Option<Double>)
    ensures
        r == number_value(bson_value(*value)),
{
    match as_double(value) {
        Some(d) => Some(d),
        None => match as_int32(value) {
            Some(n) => Some(Double::from_integer(n as i64)),
            None => match as_int64(value) {
                Some(n) => Some(Double::from_integer(n)),
                None => None,
            },
        },
    }
}

/// The number in the field `key` of a document.
pub fn get_number(d: &Document, key: &str) -> (r: Option<Double>)
    ensures
        r == number_field(document_fields(*d), key@),
{
    match get(d, key) {
        Some(b) => bson_number(b),
        None => None,
    }
}

/// What was written into a field is read back from it, and the other fields stay.
pub proof fn law_reads_give_back_writes(
    fields: Seq<(Seq<char>, Content)>,
    key: Seq<char>,
    value: Content,
    other: Seq<char>,
)
    ensures
        lookup(with_field(fields, key, value), key) == Some(value),
        other != key ==> lookup(with_field(fields, key, value), other) == lookup(fields, other),
    decreases fields.len(),
{
    reveal_with_fuel(lookup, 2);
    let new = with_field(fields, key, value);
    if fields.len() == 0 {
        assert(new.drop_first() == Seq::<(Seq<char>, Content)>::empty());
    } else if fields[0].0 == key {
        assert(new.drop_first() == fields.drop_first());
    } else {
        law_reads_give_back_writes(fields.drop_first(), key, value, other);
        assert(new.drop_first() == with_field(fields.drop_first(), key, value));
    }
}

} // verus!
