//! The mathematical model of a parsed document, and the operations of the
//! `nbt` crate that the library reads documents through.

use nbt::{Blob, Value};
use vstd::prelude::*;

verus! {

/// A tree of tagged values. Floating-point payloads stand as their IEEE-754
/// bit patterns, so that a tree holds integers and text only.
pub enum Tree {
    Byte(i8),
    Short(i16),
    Int(i32),
    Long(i64),
    /// The bits of a 32-bit float.
    Float(u32),
    /// The bits of a 64-bit float.
    Double(u64),
    ByteArray(Seq<i8>),
    Text(Seq<char>),
    List(Seq<Tree>),
    Compound(Map<Seq<char>, Tree>),
    IntArray(Seq<i32>),
    LongArray(Seq<i64>),
}

/// The type ID that the tag format gives to each kind of value.
pub open spec fn tree_id(tree: Tree) -> u8 {
    match tree {
        Tree::Byte(_) => 1,
        Tree::Short(_) => 2,
        Tree::Int(_) => 3,
        Tree::Long(_) => 4,
        Tree::Float(_) => 5,
        Tree::Double(_) => 6,
        Tree::ByteArray(_) => 7,
        Tree::Text(_) => 8,
        Tree::List(_) => 9,
        Tree::Compound(_) => 10,
        Tree::IntArray(_) => 11,
        Tree::LongArray(_) => 12,
    }
}

/// The type ID of a compound.
pub const COMPOUND_ID: u8 = 10;

/// `nbt::Blob`, a document: named values. Nothing of its inside is known
/// here but through [`blob_fields`].
#[verifier::external_type_specification]
#[verifier::external_body]
pub struct ExBlob(Blob);

/// `nbt::Value`, one tagged value. Nothing of its inside is known here but
/// through [`value_tree`].
#[verifier::external_type_specification]
#[verifier::external_body]
pub struct ExValue(Value);

/// `nbt::Error`, the failure of a decoder. It is carried, never read.
#[verifier::external_type_specification]
#[verifier::external_body]
pub struct ExDecodeError(nbt::Error);

/// The tree that an `nbt::Value` holds: each variant as the variant of the
/// same name (`String` as `Text`), a float as its bits, the entries of a
/// compound as a map from their names.
pub uninterp spec fn value_tree(value: Value) -> Tree;

/// The named values that an `nbt::Blob` holds, each as its tree.
pub uninterp spec fn blob_fields(blob: Blob) -> Map<Seq<char>, Tree>;

/// The fields of the document that `nbt::from_gzip_reader` reads from a byte
/// stream, or `None` where it fails.
pub uninterp spec fn gzip_document(data: Seq<u8>) -> Option<Map<Seq<char>, Tree>>;

/// The fields of the document that `nbt::from_zlib_reader` reads from a byte
/// stream, or `None` where it fails.
pub uninterp spec fn zlib_document(data: Seq<u8>) -> Option<Map<Seq<char>, Tree>>;

/// The trees of a sequence of values, in order.
pub open spec fn trees_of(values: Seq<Value>) -> Seq<Tree> {
    Seq::new(values.len(), |i: int| value_tree(values[i]))
}

/// `nbt::from_gzip_reader`, reading an `nbt::Blob`: gunzips the bytes and
/// parses them as one document. What it returns depends on the bytes alone;
/// the contract gives that result its name and claims nothing more.
#[verifier::external_body]
pub(crate) fn from_gzip(data: &[u8]) -> (r: Result<Blob, nbt::Error>)
    ensures
        match r {
            Ok(blob) => gzip_document(data@) == Some(blob_fields(blob)),
            Err(_) => gzip_document(data@) is None,
        },
{
    nbt::from_gzip_reader(data)
}

/// `nbt::from_zlib_reader`, reading an `nbt::Blob`: inflates the bytes and
/// parses them as one document. What it returns depends on the bytes alone;
/// the contract gives that result its name and claims nothing more.
#[verifier::external_body]
pub(crate) fn from_zlib(data: &[u8]) -> (r: Result<Blob, nbt::Error>)
    ensures
        match r {
            Ok(blob) => zlib_document(data@) == Some(blob_fields(blob)),
            Err(_) => zlib_document(data@) is None,
        },
{
    nbt::from_zlib_reader(data)
}

/// `nbt::Blob::get`: the value stored under a name, if there is one.
#[verifier::external_body]
pub(crate) fn blob_get<'a>(blob: &'a Blob, name: &'static str) -> (r: Option<&'a Value>)
    ensures
        match r {
            Some(value) => blob_fields(*blob).contains_key(name@) && value_tree(*value)
                == blob_fields(*blob)[name@],
            None => !blob_fields(*blob).contains_key(name@),
        },
{
    blob.get(name)
}

/// `nbt::Value::id`: the type ID of a value, 1 for `Byte` up to 12 for
/// `LongArray`, as the method's match lists them.
pub assume_specification[ Value::id ](value: &Value) -> (id: u8)
    ensures
        id == tree_id(value_tree(*value)),
;

/// The entry of a `Value::Compound` under a name, by the `get` of its map;
/// `None` for a compound without that name and for any other variant.
#[verifier::external_body]
pub(crate) fn field<'a>(value: &'a Value, name: &str) -> (r: Option<&'a Value>)
    ensures
        match r {
            Some(entry) => value_tree(*value) matches Tree::Compound(fields)
                && fields.contains_key(name@) && value_tree(*entry) == fields[name@],
            None => !(value_tree(*value) matches Tree::Compound(fields) && fields.contains_key(
                name@,
            )),
        },
{
    match value {
        Value::Compound(fields) => fields.get(name),
        _ => None,
    }
}

/// The items of a `Value::List`; `None` for any other variant.
#[verifier::external_body]
pub(crate) fn items(value: &Value) -> (r: Option<&Vec<Value>>)
    ensures
        match r {
            Some(list) => value_tree(*value) == Tree::List(trees_of(list@)),
            None => !(value_tree(*value) is List),
        },
{
    match value {
        Value::List(list) => Some(list),
        _ => None,
    }
}

/// The string of a `Value::String`; `None` for any other variant.
#[verifier::external_body]
pub(crate) fn text(value: &Value) -> (r: Option<&String>)
    ensures
        match r {
            Some(string) => value_tree(*value) == Tree::Text(string@),
            None => !(value_tree(*value) is Text),
        },
{
    match value {
        Value::String(string) => Some(string),
        _ => None,
    }
}

/// The bits (`f32::to_bits`) of a `Value::Float`; `None` for any other
/// variant.
#[verifier::external_body]
pub(crate) fn float_bits(value: &Value) -> (r: Option<u32>)
    ensures
        match r {
            Some(bits) => value_tree(*value) == Tree::Float(bits),
            None => !(value_tree(*value) is Float),
        },
{
    match value {
        Value::Float(number) => Some(number.to_bits()),
        _ => None,
    }
}

/// The bits (`f64::to_bits`) of a `Value::Double`; `None` for any other
/// variant.
#[verifier::external_body]
pub(crate) fn double_bits(value: &Value) -> (r: Option<u64>)
    ensures
        match r {
            Some(bits) => value_tree(*value) == Tree::Double(bits),
            None => !(value_tree(*value) is Double),
        },
{
    match value {
        Value::Double(number) => Some(number.to_bits()),
        _ => None,
    }
}

} // verus!
