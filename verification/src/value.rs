//! MessagePack values, as far as the engine makes and reads them.
//!
//! A [`Value`] is opaque here. The functions of this module that touch one
//! are thin calls into `rmpv`, the crate that defines the type; what each
//! call returns has a name, and the contracts of the engine speak of values
//! by these names. Nothing in this module is proved: it states what `rmpv`
//! does.
use rmp_rpc::Value;
use vstd::prelude::*;

verus! {

/// `rmpv::Value`, which `rmp_rpc` hands on under its own name: any
/// MessagePack value. Nothing inside it is visible to a proof.
#[verifier::external_type_specification]
#[verifier::external_body]
pub struct ExValue(rmp_rpc::Value);

/// The string value that holds `text`.
pub uninterp spec fn text_value(text: Seq<char>) -> Value;

/// The boolean value that holds `b`.
pub uninterp spec fn bool_value(b: bool) -> Value;

/// The array value that holds `items`, in their order.
pub uninterp spec fn array_value(items: Seq<Value>) -> Value;

/// The map value that holds `entries`, each a key and what it maps to, in
/// their order.
pub uninterp spec fn map_value(entries: Seq<(Value, Value)>) -> Value;

/// The items of `value` where it is an array, `None` where it is anything
/// else.
pub uninterp spec fn array_items(value: Value) -> Option<Seq<Value>>;

/// The type and the payload of `value` where it is an extension value, `None`
/// where it is anything else.
pub uninterp spec fn ext_parts(value: Value) -> Option<(i8, Seq<u8>)>;

/// What `value` looks like when it is printed for a programmer.
pub uninterp spec fn debug_text(value: Value) -> Seq<char>;

/// `Value::from` on a `&str`: a `Value::String` with a copy of the text. The
/// result is a function of the text alone.
#[verifier::external_body]
pub(crate) fn from_text(s: &str) -> (value: Value)
    ensures
        value == text_value(s@),
{
    Value::from(s)
}

/// `Value::from` on a `bool`: `Value::Boolean` of it.
#[verifier::external_body]
pub(crate) fn from_bool(b: bool) -> (value: Value)
    ensures
        value == bool_value(b),
{
    Value::from(b)
}

/// `Value::from` on a `Vec<Value>`: `Value::Array` around the vector as it
/// is, so that `Value::as_array` finds the same items in it.
#[verifier::external_body]
pub(crate) fn from_items(items: Vec<Value>) -> (value: Value)
    ensures
        value == array_value(items@),
        array_items(value) == Some(items@),
{
    Value::from(items)
}

/// `Value::from` on a `Vec<(Value, Value)>`: `Value::Map` around the vector
/// as it is.
#[verifier::external_body]
pub(crate) fn from_entries(entries: Vec<(Value, Value)>) -> (value: Value)
    ensures
        value == map_value(entries@),
{
    Value::from(entries)
}

/// `Value::as_array`: for a `Value::Array`, the vector inside it; `None` for
/// every other value.
#[verifier::external_body]
pub(crate) fn as_array(value: &Value) -> (items: Option<&Vec<Value>>)
    ensures
        match items {
            Some(items) => array_items(*value) == Some(items@),
            None => array_items(*value) is None,
        },
{
    value.as_array()
}

/// `Value::as_ext`: for a `Value::Ext`, its type and the bytes inside it;
/// `None` for every other value.
#[verifier::external_body]
pub(crate) fn as_ext(value: &Value) -> (parts: Option<(i8, &[u8])>)
    ensures
        match parts {
            Some((kind, payload)) => ext_parts(*value) == Some((kind, payload@)),
            None => ext_parts(*value) is None,
        },
{
    value.as_ext()
}

/// The `Debug` output of a `Value`, which `rmpv` derives: the text depends on
/// the value alone.
#[verifier::external_body]
pub(crate) fn debug(value: &Value) -> (s: String)
    ensures
        s@ == debug_text(*value),
{
    format!("{:?}", value)
}

} // verus!
